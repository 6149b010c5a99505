//! Callables, their signatures, and the argument binder.
use crate::named_map::{entries_of, new_named};
use crate::render::{param_seq, repr, repr_spec};
use crate::text::{strip_leading, trim_leading};
use crate::value::{sig_views, Value, ValueError, ValueModel};
use linked_hash_map::LinkedHashMap;
use vstd::prelude::*;

verus! {

/// One declared parameter of a native function.
#[derive(Debug)]
pub enum FunctionParameter {
    Normal(String),
    Optional(String),
    WithDefaultValue(String, Value),
    ArgsArray(String),
    KWArgsDict(String),
}

/// The view of a parameter descriptor.
pub enum ParamModel {
    Normal(Seq<char>),
    Optional(Seq<char>),
    WithDefaultValue(Seq<char>, ValueModel),
    ArgsArray(Seq<char>),
    KWArgsDict(Seq<char>),
}

/// How a function was declared: natively under a name, or in a module.
#[derive(Debug)]
pub enum FunctionType {
    Native(String),
    Def(String, String),
}

impl Clone for FunctionType {
    fn clone(&self) -> (r: Self)
        ensures
            r == *self,
    {
        match self {
            FunctionType::Native(n) => FunctionType::Native(n.clone()),
            FunctionType::Def(n, m) => FunctionType::Def(n.clone(), m.clone()),
        }
    }
}

/// A function implemented by the host, with its declared signature.
#[derive(Debug)]
pub struct NativeFunction {
    pub signature: Vec<FunctionParameter>,
    pub function_type: FunctionType,
}

/// A callable paired with the receiver that is passed as its first argument.
#[derive(Debug)]
pub struct WrappedMethod {
    pub method: Box<Value>,
    pub self_obj: Box<Value>,
}

/// A failed call as the user sees it: a short code, a label and a message.
#[derive(Debug)]
pub struct RuntimeError {
    pub code: String,
    pub label: String,
    pub message: String,
}

} // verus!

verus! {

/// An argument resolved for one parameter, before conversion to the type the
/// native body wants.
#[derive(Debug)]
pub enum FunctionArg {
    Normal(Value),
    Optional(Option<Value>),
    ArgsArray(Vec<Value>),
    KWArgsDict(LinkedHashMap<String, Value>),
}

/// A failure of the calling convention.
#[derive(Debug)]
pub enum FunctionError {
    /// A required parameter received no value.
    NotEnoughParameter { missing: String, function_type: FunctionType, signature: Vec<FunctionParameter> },
    /// A key of the `**kwargs` argument is not a string.
    ArgsValueIsNotString,
    /// The `*args` argument cannot be iterated.
    ArgsArrayIsNotIterable,
    /// The `**kwargs` argument is not a mapping.
    KWArgsDictIsNotMappable,
    /// Values were left over after the last parameter.
    ExtraParameter,
    /// A name was given both explicitly and by the `**kwargs` argument, or
    /// twice by the latter.
    DuplicateNamedArgument(String),
}

/// Code, label and message of a missing-parameter failure.
pub open spec fn missing_parts(missing: Seq<char>, ft: FunctionType, sig: Seq<ParamModel>) -> (
    Seq<char>,
    Seq<char>,
    Seq<char>,
) {
    (
        "CF00"@,
        "Not enough parameters in function call"@,
        "Missing parameter "@ + strip_leading(missing, '$') + " for call to "@ + repr_spec(ft, sig),
    )
}

/// Code, label and message of a calling-convention failure.
pub open spec fn error_parts(e: FunctionError) -> (Seq<char>, Seq<char>, Seq<char>) {
    match e {
        FunctionError::NotEnoughParameter { missing, function_type, signature } => missing_parts(
            missing@,
            function_type,
            sig_views(signature),
        ),
        FunctionError::ArgsValueIsNotString => (
            "CF01"@,
            "not an identifier for *args"@,
            "The argument provided for *args is not an identifier"@,
        ),
        FunctionError::ArgsArrayIsNotIterable => (
            "CF02"@,
            "*args is not iterable"@,
            "The argument provided for *args is not iterable"@,
        ),
        FunctionError::KWArgsDictIsNotMappable => (
            "CF03"@,
            "**kwargs is not mappable"@,
            "The argument provided for **kwargs is not mappable"@,
        ),
        FunctionError::ExtraParameter => (
            "CF05"@,
            "Extraneous parameter in function call"@,
            "Extraneous parameter passed to function call"@,
        ),
        FunctionError::DuplicateNamedArgument(name) => (
            "CF06"@,
            "Duplicate named argument in function call"@,
            "Parameter "@ + name@ + " is given more than once"@,
        ),
    }
}

/// The code, label and message of a rendered failure, if `e` is one.
pub open spec fn runtime_parts(e: ValueError) -> Option<(Seq<char>, Seq<char>, Seq<char>)> {
    match e {
        ValueError::Runtime(r) => Some((r.code@, r.label@, r.message@)),
        _ => None,
    }
}

/// The rendered failure for a required parameter `missing` that received no
/// value in a call to the callable `function_type` with `signature`.
pub fn missing_error(missing: &str, function_type: &FunctionType, signature: &[FunctionParameter]) -> (r: RuntimeError)
    ensures
        (r.code@, r.label@, r.message@) == missing_parts(missing@, *function_type, param_seq(signature@)),
{
    let mut message = "Missing parameter ".to_owned();
    let m = trim_leading(missing, '$');
    message.append(m.as_str());
    message.append(" for call to ");
    let rendered = repr(function_type, signature);
    message.append(rendered.as_str());
    RuntimeError {
        code: "CF00".to_owned(),
        label: "Not enough parameters in function call".to_owned(),
        message,
    }
}

impl FunctionError {
    /// Renders this failure as a code, a label and a message.
    pub fn into_runtime_error(self) -> (r: RuntimeError)
        ensures
            (r.code@, r.label@, r.message@) == error_parts(self),
    {
        let ghost g = self;
        match self {
            FunctionError::NotEnoughParameter { missing, function_type, signature } => {
                proof {
                    assert(param_seq(signature@) =~= sig_views(signature));
                }
                missing_error(missing.as_str(), &function_type, signature.as_slice())
            },
            FunctionError::ArgsValueIsNotString => RuntimeError {
                code: "CF01".to_owned(),
                label: "not an identifier for *args".to_owned(),
                message: "The argument provided for *args is not an identifier".to_owned(),
            },
            FunctionError::ArgsArrayIsNotIterable => RuntimeError {
                code: "CF02".to_owned(),
                label: "*args is not iterable".to_owned(),
                message: "The argument provided for *args is not iterable".to_owned(),
            },
            FunctionError::KWArgsDictIsNotMappable => RuntimeError {
                code: "CF03".to_owned(),
                label: "**kwargs is not mappable".to_owned(),
                message: "The argument provided for **kwargs is not mappable".to_owned(),
            },
            FunctionError::ExtraParameter => RuntimeError {
                code: "CF05".to_owned(),
                label: "Extraneous parameter in function call".to_owned(),
                message: "Extraneous parameter passed to function call".to_owned(),
            },
            FunctionError::DuplicateNamedArgument(name) => {
                let mut message = "Parameter ".to_owned();
                message.append(name.as_str());
                message.append(" is given more than once");
                RuntimeError {
                    code: "CF06".to_owned(),
                    label: "Duplicate named argument in function call".to_owned(),
                    message,
                }
            },
        }
    }

    /// This failure as a value error.
    pub fn into_value_error(self) -> (r: ValueError)
        ensures
            runtime_parts(r) == Some(error_parts(self)),
    {
        ValueError::Runtime(self.into_runtime_error())
    }
}


/// The identity that decides whether two callables are the same function.
#[derive(Debug)]
pub struct FunctionId(pub FunctionType);

/// The identity of a callable value: a native function's own, and for a
/// bound method that of the callable it wraps.
pub open spec fn function_identity(v: Value) -> Option<FunctionType>
    decreases v,
{
    match v {
        Value::Function(f) => Some(f.function_type),
        Value::BoundMethod(w) => function_identity(*w.method),
        _ => None,
    }
}

impl NativeFunction {
    /// A native function value called `name` with the given signature.
    pub fn new(name: String, signature: Vec<FunctionParameter>) -> (r: Value)
        ensures
            r == Value::Function(
                NativeFunction { signature, function_type: FunctionType::Native(name) },
            ),
    {
        Value::Function(NativeFunction { signature, function_type: FunctionType::Native(name) })
    }
}

impl WrappedMethod {
    /// The callable `method` with `self_obj` bound as its receiver.
    pub fn new(self_obj: Value, method: Value) -> (r: Value)
        ensures
            r == Value::BoundMethod(
                WrappedMethod { method: Box::new(method), self_obj: Box::new(self_obj) },
            ),
    {
        Value::BoundMethod(WrappedMethod { method: Box::new(method), self_obj: Box::new(self_obj) })
    }
}

impl Value {
    /// The identity of this value as a function, if it is one.
    pub fn function_id(&self) -> (r: Option<FunctionId>)
        ensures
            match function_identity(*self) {
                Some(ft) => r matches Some(id) && id.0 == ft,
                None => r.is_none(),
            },
        decreases self,
    {
        match self {
            Value::Function(f) => Some(FunctionId(f.function_type.clone())),
            Value::BoundMethod(w) => w.method.function_id(),
            _ => None,
        }
    }
}

/// Binding a receiver to a callable keeps the callable's identity: the
/// bound method reports the identity of the function it wraps.
pub proof fn lemma_bound_method_identity(self_obj: Value, method: Value)
    ensures
        function_identity(
            Value::BoundMethod(
                WrappedMethod { method: Box::new(method), self_obj: Box::new(self_obj) },
            ),
        ) == function_identity(method),
{
}

} // verus!

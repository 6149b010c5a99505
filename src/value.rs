//! The value model: one enum over every kind of value, its mathematical
//! view, and copying.
use crate::function::{FunctionParameter, FunctionType, NativeFunction, ParamModel, WrappedMethod};
use vstd::prelude::*;

verus! {

/// A runtime value.
#[derive(Debug)]
pub enum Value {
    NoneType,
    Bool(bool),
    Int(i64),
    Str(String),
    /// A list: its items in order, and whether it is frozen.
    List { items: Vec<Value>, frozen: bool },
    /// A dictionary: its entries in insertion order, and whether it is frozen.
    Dict { entries: Vec<(Value, Value)>, frozen: bool },
    Function(NativeFunction),
    BoundMethod(WrappedMethod),
}

/// The mathematical view of a value.
pub enum ValueModel {
    NoneType,
    Bool(bool),
    Int(int),
    Str(Seq<char>),
    List(Seq<ValueModel>, bool),
    Dict(Seq<(ValueModel, ValueModel)>, bool),
    Function(FunctionType, Seq<ParamModel>),
    BoundMethod(Box<ValueModel>, Box<ValueModel>),
}

/// Errors raised by the value capabilities and by argument handling.
#[derive(Debug)]
pub enum ValueError {
    /// A value of the named type does not convert as asked (the operation is named first).
    NotConvertible(String, String),
    /// A value of the named type has no hash.
    Unhashable(String),
    /// Values of the named types cannot be ordered.
    NotOrderable(String, String),
    /// A value of the named type cannot be called.
    NotCallable(String),
    /// A frozen value was about to be changed.
    CannotMutateFrozenValue,
    /// The operation is not offered by a value of the named type.
    OperationNotSupported(String, String),
    /// An argument has the wrong type for the parameter at its place.
    IncorrectParameterType,
    /// An argument has the wrong type for the named parameter.
    IncorrectParameterTypeNamed(String),
    /// A failed call, rendered for the user.
    Runtime(crate::function::RuntimeError),
}

impl Value {
    /// The mathematical value this value stands for.
    pub open spec fn view(self) -> ValueModel
        decreases self,
    {
        match self {
            Value::NoneType => ValueModel::NoneType,
            Value::Bool(b) => ValueModel::Bool(b),
            Value::Int(i) => ValueModel::Int(i as int),
            Value::Str(s) => ValueModel::Str(s@),
            Value::List { items, frozen } => ValueModel::List(vec_views(items), frozen),
            Value::Dict { entries, frozen } => ValueModel::Dict(entry_vec_views(entries), frozen),
            Value::Function(f) => ValueModel::Function(f.function_type, sig_views(f.signature)),
            Value::BoundMethod(w) => ValueModel::BoundMethod(
                Box::new((*w.method).view()),
                Box::new((*w.self_obj).view()),
            ),
        }
    }
}

/// The views of the values in a vector.
pub open spec fn vec_views(v: Vec<Value>) -> Seq<ValueModel>
    decreases v,
{
    Seq::new(
        v@.len(),
        |i: int|
            if 0 <= i < v@.len() {
                v@[i].view()
            } else {
                ValueModel::NoneType
            },
    )
}

/// The views of the entries in a vector.
pub open spec fn entry_vec_views(v: Vec<(Value, Value)>) -> Seq<(ValueModel, ValueModel)>
    decreases v,
{
    Seq::new(
        v@.len(),
        |i: int|
            if 0 <= i < v@.len() {
                (v@[i].0.view(), v@[i].1.view())
            } else {
                (ValueModel::NoneType, ValueModel::NoneType)
            },
    )
}

/// The views of the parameter descriptors in a signature.
pub open spec fn sig_views(v: Vec<FunctionParameter>) -> Seq<ParamModel>
    decreases v,
{
    Seq::new(
        v@.len(),
        |i: int|
            if 0 <= i < v@.len() {
                param_view(v@[i])
            } else {
                ParamModel::Normal(Seq::empty())
            },
    )
}

/// The view of a parameter descriptor.
pub open spec fn param_view(p: FunctionParameter) -> ParamModel
    decreases p,
{
    match p {
        FunctionParameter::Normal(n) => ParamModel::Normal(n@),
        FunctionParameter::Optional(n) => ParamModel::Optional(n@),
        FunctionParameter::WithDefaultValue(n, v) => ParamModel::WithDefaultValue(n@, v.view()),
        FunctionParameter::ArgsArray(n) => ParamModel::ArgsArray(n@),
        FunctionParameter::KWArgsDict(n) => ParamModel::KWArgsDict(n@),
    }
}

impl Clone for Value {
    fn clone(&self) -> (r: Self)
        ensures
            r.view() == self.view(),
    {
        clone_value(self)
    }
}

/// A copy of `v` with the same view.
pub fn clone_value(v: &Value) -> (r: Value)
    ensures
        r.view() == v.view(),
    decreases v,
{
    match v {
        Value::NoneType => Value::NoneType,
        Value::Bool(b) => Value::Bool(*b),
        Value::Int(i) => Value::Int(*i),
        Value::Str(s) => Value::Str(s.clone()),
        Value::List { items, frozen } => {
            let mut out: Vec<Value> = Vec::new();
            let mut i: usize = 0;
            proof {
                assert(decreases_to!(*v => *items));
            }
            while i < items.len()
                invariant
                    decreases_to!(*v => *items),
                    i <= items@.len(),
                    out@.len() == i,
                    forall|j: int| 0 <= j < i ==> (#[trigger] out@[j]).view() == items@[j].view(),
                decreases items@.len() - i,
            {
                proof {
                    vstd::std_specs::vec::axiom_vec_index_decreases(*items, i as int);
                }
                out.push(clone_value(&items[i]));
                i += 1;
            }
            let r = Value::List { items: out, frozen: *frozen };
            assert(r.view() == v.view()) by {
                assert(vec_views(out) =~= vec_views(*items));
            }
            r
        },
        Value::Dict { entries, frozen } => {
            let mut out: Vec<(Value, Value)> = Vec::new();
            let mut i: usize = 0;
            proof {
                assert(decreases_to!(*v => *entries));
            }
            while i < entries.len()
                invariant
                    decreases_to!(*v => *entries),
                    i <= entries@.len(),
                    out@.len() == i,
                    forall|j: int|
                        0 <= j < i ==> (#[trigger] out@[j]).0.view() == entries@[j].0.view()
                            && out@[j].1.view() == entries@[j].1.view(),
                decreases entries@.len() - i,
            {
                proof {
                    vstd::std_specs::vec::axiom_vec_index_decreases(*entries, i as int);
                    assert(decreases_to!(entries@[i as int] => entries@[i as int].0));
                    assert(decreases_to!(entries@[i as int] => entries@[i as int].1));
                }
                let k = clone_value(&entries[i].0);
                let x = clone_value(&entries[i].1);
                out.push((k, x));
                i += 1;
            }
            let r = Value::Dict { entries: out, frozen: *frozen };
            assert(r.view() == v.view()) by {
                assert(entry_vec_views(out) =~= entry_vec_views(*entries));
            }
            r
        },
        Value::Function(f) => Value::Function(clone_native(f)),
        Value::BoundMethod(w) => {
            let m = clone_value(&w.method);
            let o = clone_value(&w.self_obj);
            Value::BoundMethod(WrappedMethod { method: Box::new(m), self_obj: Box::new(o) })
        },
    }
}

/// A copy of a native function with the same function type and signature view.
pub fn clone_native(f: &NativeFunction) -> (r: NativeFunction)
    ensures
        r.function_type == f.function_type,
        sig_views(r.signature) == sig_views(f.signature),
    decreases f,
{
    let mut out: Vec<FunctionParameter> = Vec::new();
    let mut i: usize = 0;
    while i < f.signature.len()
        invariant
            i <= f.signature@.len(),
            out@.len() == i,
            forall|j: int| 0 <= j < i ==> param_view(#[trigger] out@[j]) == param_view(f.signature@[j]),
        decreases f.signature@.len() - i,
    {
        out.push(clone_param(&f.signature[i]));
        i += 1;
    }
    assert(sig_views(out) =~= sig_views(f.signature));
    NativeFunction { signature: out, function_type: f.function_type.clone() }
}

/// A copy of a parameter descriptor with the same view.
pub fn clone_param(p: &FunctionParameter) -> (r: FunctionParameter)
    ensures
        param_view(r) == param_view(*p),
    decreases p,
{
    match p {
        FunctionParameter::Normal(n) => FunctionParameter::Normal(n.clone()),
        FunctionParameter::Optional(n) => FunctionParameter::Optional(n.clone()),
        FunctionParameter::WithDefaultValue(n, v) => FunctionParameter::WithDefaultValue(
            n.clone(),
            clone_value(v),
        ),
        FunctionParameter::ArgsArray(n) => FunctionParameter::ArgsArray(n.clone()),
        FunctionParameter::KWArgsDict(n) => FunctionParameter::KWArgsDict(n.clone()),
    }
}


/// The name of a value's type.
pub open spec fn kind_name(v: Value) -> Seq<char> {
    match v {
        Value::NoneType => "NoneType"@,
        Value::Bool(_) => "bool"@,
        Value::Int(_) => "int"@,
        Value::Str(_) => "string"@,
        Value::List { .. } => "list"@,
        Value::Dict { .. } => "dict"@,
        Value::Function(_) => "function"@,
        Value::BoundMethod(_) => "function"@,
    }
}

impl Value {
    /// The name of this value's type: the same for every value of a kind.
    pub fn get_type(&self) -> (r: &'static str)
        ensures
            r@ == kind_name(*self),
    {
        match self {
            Value::NoneType => "NoneType",
            Value::Bool(_) => "bool",
            Value::Int(_) => "int",
            Value::Str(_) => "string",
            Value::List { .. } => "list",
            Value::Dict { .. } => "dict",
            Value::Function(_) => "function",
            Value::BoundMethod(_) => "function",
        }
    }
}

} // verus!

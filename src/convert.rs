//! Conversion of resolved arguments to the types native bodies take.
use crate::function::FunctionArg;
use crate::named_map::{entries_of, named_into_entries};
use crate::parser::seq_views;
use crate::value::{Value, ValueError, ValueModel};
use vstd::prelude::*;

verus! {

/// A type a value may convert to.
pub trait FromValue: Sized {
    /// The converted value, or `None` where `v` does not convert.
    spec fn from_value_spec(v: Value) -> Option<Self>;

    fn try_from_value(v: Value) -> (r: Option<Self>)
        ensures
            r == Self::from_value_spec(v),
    ;
}

impl FromValue for Value {
    open spec fn from_value_spec(v: Value) -> Option<Self> {
        Some(v)
    }

    fn try_from_value(v: Value) -> (r: Option<Self>) {
        Some(v)
    }
}

impl FromValue for bool {
    open spec fn from_value_spec(v: Value) -> Option<Self> {
        match v {
            Value::Bool(b) => Some(b),
            _ => None,
        }
    }

    fn try_from_value(v: Value) -> (r: Option<Self>) {
        match v {
            Value::Bool(b) => Some(b),
            _ => None,
        }
    }
}

impl FromValue for i64 {
    open spec fn from_value_spec(v: Value) -> Option<Self> {
        match v {
            Value::Int(i) => Some(i),
            _ => None,
        }
    }

    fn try_from_value(v: Value) -> (r: Option<Self>) {
        match v {
            Value::Int(i) => Some(i),
            _ => None,
        }
    }
}

impl FromValue for String {
    open spec fn from_value_spec(v: Value) -> Option<Self> {
        match v {
            Value::Str(s) => Some(s),
            _ => None,
        }
    }

    fn try_from_value(v: Value) -> (r: Option<Self>) {
        match v {
            Value::Str(s) => Some(s),
            _ => None,
        }
    }
}

/// Every value of `s` converts to `T`.
pub open spec fn all_convert<T: FromValue>(s: Seq<Value>) -> bool {
    forall|i: int| 0 <= i < s.len() ==> (#[trigger] T::from_value_spec(s[i])) is Some
}

/// `e` reports a value of the wrong type for the parameter `name`.
pub open spec fn wrong_type_named(e: ValueError, name: Seq<char>) -> bool {
    e matches ValueError::IncorrectParameterTypeNamed(n) && n@ == name
}

impl FunctionArg {
    /// The single value of a required or defaulted parameter, converted.
    pub fn into_normal<T: FromValue>(self, param_name: &str) -> (r: Result<T, ValueError>)
        ensures
            match self {
                FunctionArg::Normal(v) => match T::from_value_spec(v) {
                    Some(t) => r == Ok::<T, ValueError>(t),
                    None => r matches Err(e) && wrong_type_named(e, param_name@),
                },
                _ => r == Err::<T, ValueError>(ValueError::IncorrectParameterType),
            },
    {
        match self {
            FunctionArg::Normal(v) => match T::try_from_value(v) {
                Some(t) => Ok(t),
                None => Err(ValueError::IncorrectParameterTypeNamed(param_name.to_owned())),
            },
            _ => Err(ValueError::IncorrectParameterType),
        }
    }

    /// The value of an optional parameter, converted when present.
    pub fn into_optional<T: FromValue>(self, param_name: &str) -> (r: Result<Option<T>, ValueError>)
        ensures
            match self {
                FunctionArg::Optional(Some(v)) => match T::from_value_spec(v) {
                    Some(t) => r == Ok::<Option<T>, ValueError>(Some(t)),
                    None => r matches Err(e) && wrong_type_named(e, param_name@),
                },
                FunctionArg::Optional(None) => r == Ok::<Option<T>, ValueError>(None),
                _ => r == Err::<Option<T>, ValueError>(ValueError::IncorrectParameterType),
            },
    {
        match self {
            FunctionArg::Optional(Some(v)) => match T::try_from_value(v) {
                Some(t) => Ok(Some(t)),
                None => Err(ValueError::IncorrectParameterTypeNamed(param_name.to_owned())),
            },
            FunctionArg::Optional(None) => Ok(None),
            _ => Err(ValueError::IncorrectParameterType),
        }
    }

    /// The values of a `*args` parameter, each converted, in order.
    pub fn into_args_array<T: FromValue>(self, param_name: &str) -> (r: Result<Vec<T>, ValueError>)
        ensures
            match self {
                FunctionArg::ArgsArray(v) => if all_convert::<T>(v@) {
                    r matches Ok(out) && out@.len() == v@.len() && forall|i: int|
                        0 <= i < v@.len() ==> Some(#[trigger] out@[i]) == T::from_value_spec(v@[i])
                } else {
                    r matches Err(e) && wrong_type_named(e, param_name@)
                },
                _ => r == Err::<Vec<T>, ValueError>(ValueError::IncorrectParameterType),
            },
    {
        match self {
            FunctionArg::ArgsArray(mut v) => {
                let ghost orig = v@;
                let mut out: Vec<T> = Vec::new();
                let mut k: usize = 0;
                let total: usize = v.len();
                while v.len() > 0
                    invariant
                        self matches FunctionArg::ArgsArray(w) && w@ == orig,
                        v@ == orig.skip(k as int),
                        k + v@.len() == orig.len(),
                        total == orig.len(),
                        out@.len() == k,
                        forall|i: int| 0 <= i < k ==> Some(#[trigger] out@[i]) == T::from_value_spec(orig[i]),
                    decreases v@.len(),
                {
                    let x = v.remove(0);
                    proof {
                        assert(x == orig[k as int]);
                        assert(v@ =~= orig.skip(k as int + 1));
                    }
                    match T::try_from_value(x) {
                        Some(t) => out.push(t),
                        None => {
                            proof {
                                assert(T::from_value_spec(orig[k as int]) is None);
                                assert(!all_convert::<T>(orig));
                            }
                            return Err(ValueError::IncorrectParameterTypeNamed(param_name.to_owned()));
                        },
                    }
                    k += 1;
                }
                proof {
                    assert forall|i: int| 0 <= i < orig.len() implies (#[trigger] T::from_value_spec(orig[i])) is Some by {
                        assert(Some(out@[i]) == T::from_value_spec(orig[i]));
                    }
                }
                Ok(out)
            },
            _ => Err(ValueError::IncorrectParameterType),
        }
    }

    /// The entries of a `**kwargs` parameter, each value converted, in
    /// order.
    pub fn into_kw_args_dict<T: FromValue>(self, param_name: &str) -> (r: Result<
        Vec<(String, T)>,
        ValueError,
    >)
        ensures
            match self {
                FunctionArg::KWArgsDict(m) => if all_convert::<T>(
                    entries_of(m).map_values(|e: (Seq<char>, Value)| e.1),
                ) {
                    r matches Ok(out) && out@.len() == entries_of(m).len() && forall|i: int|
                        0 <= i < out@.len() ==> (#[trigger] out@[i]).0@ == entries_of(m)[i].0
                            && Some(out@[i].1) == T::from_value_spec(entries_of(m)[i].1)
                } else {
                    r matches Err(e) && wrong_type_named(e, param_name@)
                },
                _ => r == Err::<Vec<(String, T)>, ValueError>(ValueError::IncorrectParameterType),
            },
    {
        match self {
            FunctionArg::KWArgsDict(m) => {
                let ghost es = entries_of(m);
                let mut v = named_into_entries(m);
                let ghost orig = v@;
                let mut out: Vec<(String, T)> = Vec::new();
                let mut k: usize = 0;
                let total: usize = v.len();
                while v.len() > 0
                    invariant
                        self matches FunctionArg::KWArgsDict(mm) && entries_of(mm) == es,
                        orig.len() == es.len(),
                        forall|i: int| 0 <= i < orig.len() ==> (#[trigger] orig[i]).0@ == es[i].0 && orig[i].1 == es[i].1,
                        v@ == orig.skip(k as int),
                        k + v@.len() == orig.len(),
                        total == orig.len(),
                        out@.len() == k,
                        forall|i: int|
                            0 <= i < k ==> (#[trigger] out@[i]).0@ == es[i].0 && Some(out@[i].1)
                                == T::from_value_spec(es[i].1),
                    decreases v@.len(),
                {
                    let (name, x) = v.remove(0);
                    proof {
                        assert(orig[k as int] == (name, x));
                        assert(v@ =~= orig.skip(k as int + 1));
                    }
                    match T::try_from_value(x) {
                        Some(t) => out.push((name, t)),
                        None => {
                            proof {
                                let vs = es.map_values(|e: (Seq<char>, Value)| e.1);
                                assert(vs[k as int] == es[k as int].1);
                                assert(T::from_value_spec(vs[k as int]) is None);
                                assert(!all_convert::<T>(vs));
                            }
                            return Err(ValueError::IncorrectParameterTypeNamed(param_name.to_owned()));
                        },
                    }
                    k += 1;
                }
                proof {
                    let vs = es.map_values(|e: (Seq<char>, Value)| e.1);
                    assert forall|i: int| 0 <= i < vs.len() implies (#[trigger] T::from_value_spec(vs[i])) is Some by {
                        assert(vs[i] == es[i].1);
                        assert(Some(out@[i].1) == T::from_value_spec(es[i].1));
                    }
                }
                Ok(out)
            },
            _ => Err(ValueError::IncorrectParameterType),
        }
    }
}


/// The value a resolved argument stands for: the value itself, `None` for
/// an absent optional one, a list of the `*args` values, a dictionary of the
/// `**kwargs` entries with string keys.
pub open spec fn arg_value(a: FunctionArg) -> ValueModel {
    match a {
        FunctionArg::Normal(v) => v.view(),
        FunctionArg::Optional(Some(v)) => v.view(),
        FunctionArg::Optional(None) => ValueModel::NoneType,
        FunctionArg::ArgsArray(v) => ValueModel::List(seq_views(v@), false),
        FunctionArg::KWArgsDict(m) => ValueModel::Dict(
            entries_of(m).map_values(
                |e: (Seq<char>, Value)| (ValueModel::Str(e.0), e.1.view()),
            ),
            false,
        ),
    }
}

impl FunctionArg {
    /// This argument as a value.
    pub fn into_value(self) -> (r: Value)
        ensures
            r.view() == arg_value(self),
    {
        match self {
            FunctionArg::Normal(v) => v,
            FunctionArg::Optional(Some(v)) => v,
            FunctionArg::Optional(None) => Value::NoneType,
            FunctionArg::ArgsArray(v) => {
                let r = Value::List { items: v, frozen: false };
                proof {
                    assert(crate::value::vec_views(v) =~= seq_views(v@));
                }
                r
            },
            FunctionArg::KWArgsDict(m) => {
                let ghost es = entries_of(m);
                let mut v = named_into_entries(m);
                let ghost orig = v@;
                let mut out: Vec<(Value, Value)> = Vec::new();
                let mut k: usize = 0;
                let total: usize = v.len();
                while v.len() > 0
                    invariant
                        orig.len() == es.len(),
                        forall|i: int| 0 <= i < orig.len() ==> (#[trigger] orig[i]).0@ == es[i].0 && orig[i].1 == es[i].1,
                        v@ == orig.skip(k as int),
                        k + v@.len() == orig.len(),
                        total == orig.len(),
                        out@.len() == k,
                        forall|i: int|
                            0 <= i < k ==> (#[trigger] out@[i]).0.view() == ValueModel::Str(es[i].0)
                                && out@[i].1.view() == es[i].1.view(),
                    decreases v@.len(),
                {
                    let (name, x) = v.remove(0);
                    proof {
                        assert(orig[k as int] == (name, x));
                        assert(v@ =~= orig.skip(k as int + 1));
                    }
                    out.push((Value::Str(name), x));
                    k += 1;
                }
                let r = Value::Dict { entries: out, frozen: false };
                proof {
                    assert(crate::value::entry_vec_views(out) =~= es.map_values(
                        |e: (Seq<char>, Value)| (ValueModel::Str(e.0), e.1.view()),
                    ));
                }
                r
            },
        }
    }
}

} // verus!

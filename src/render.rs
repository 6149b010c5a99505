//! Textual forms of values and of callables: the mathematical rendering and
//! the code that builds it.
use crate::function::{FunctionParameter, FunctionType, ParamModel};
use crate::text::{decimal, i64_to_decimal};
use crate::value::{param_view, sig_views, Value, ValueModel};
use vstd::prelude::*;

verus! {

/// The parts joined with `sep` between each two neighbours.
pub open spec fn join(parts: Seq<Seq<char>>, sep: Seq<char>) -> Seq<char>
    decreases parts.len(),
{
    if parts.len() == 0 {
        Seq::empty()
    } else if parts.len() == 1 {
        parts[0]
    } else {
        join(parts.drop_last(), sep) + sep + parts.last()
    }
}

/// The literal-like form of a value.
pub open spec fn value_repr(v: ValueModel) -> Seq<char>
    decreases v,
{
    match v {
        ValueModel::NoneType => "None"@,
        ValueModel::Bool(b) => if b { "True"@ } else { "False"@ },
        ValueModel::Int(i) => decimal(i),
        ValueModel::Str(s) => "\""@ + s + "\""@,
        ValueModel::List(items, _) => "["@ + join(item_reprs(items), ", "@) + "]"@,
        ValueModel::Dict(entries, _) => "{"@ + join(entry_reprs(entries), ", "@) + "}"@,
        ValueModel::Function(ft, sig) => signature_text(type_repr(ft), param_texts(sig, true)),
        ValueModel::BoundMethod(m, _) => value_repr(*m),
    }
}

/// The literal-like forms of a sequence of values.
pub open spec fn item_reprs(items: Seq<ValueModel>) -> Seq<Seq<char>>
    decreases items,
{
    Seq::new(
        items.len(),
        |i: int|
            if 0 <= i < items.len() {
                value_repr(items[i])
            } else {
                Seq::empty()
            },
    )
}

/// The `key: value` forms of a sequence of entries.
pub open spec fn entry_reprs(entries: Seq<(ValueModel, ValueModel)>) -> Seq<Seq<char>>
    decreases entries,
{
    Seq::new(
        entries.len(),
        |i: int|
            if 0 <= i < entries.len() {
                value_repr(entries[i].0) + ": "@ + value_repr(entries[i].1)
            } else {
                Seq::empty()
            },
    )
}

/// One parameter as a signature shows it; `marked` puts `?` before an
/// optional one.
pub open spec fn param_text(p: ParamModel, marked: bool) -> Seq<char>
    decreases p,
{
    match p {
        ParamModel::Normal(n) => n,
        ParamModel::Optional(n) => if marked { "?"@ + n } else { n },
        ParamModel::WithDefaultValue(n, d) => n + " = "@ + value_repr(d),
        ParamModel::ArgsArray(n) => "*"@ + n,
        ParamModel::KWArgsDict(n) => "**"@ + n,
    }
}

/// A head followed by the parameter texts in parentheses.
pub open spec fn signature_text(head: Seq<char>, params: Seq<Seq<char>>) -> Seq<char> {
    head + "("@ + join(params, ", "@) + ")"@
}

/// The long form of a function type.
pub open spec fn type_repr(ft: FunctionType) -> Seq<char> {
    match ft {
        FunctionType::Native(n) => "<native function "@ + n@ + ">"@,
        FunctionType::Def(n, m) => "<function "@ + n@ + " from "@ + m@ + ">"@,
    }
}

/// The short form of a function type: its name.
pub open spec fn type_str(ft: FunctionType) -> Seq<char> {
    match ft {
        FunctionType::Native(n) => n@,
        FunctionType::Def(n, _) => n@,
    }
}

/// The texts of a signature's parameters.
pub open spec fn param_texts(sig: Seq<ParamModel>, marked: bool) -> Seq<Seq<char>>
    decreases sig,
{
    Seq::new(
        sig.len(),
        |i: int|
            if 0 <= i < sig.len() {
                param_text(sig[i], marked)
            } else {
                Seq::empty()
            },
    )
}

/// The literal-like form of a callable: its long type form and its
/// parameters, optional ones marked.
pub open spec fn repr_spec(ft: FunctionType, sig: Seq<ParamModel>) -> Seq<char> {
    signature_text(type_repr(ft), param_texts(sig, true))
}

/// The display form of a callable: its name and its parameters, unmarked.
pub open spec fn str_spec(ft: FunctionType, sig: Seq<ParamModel>) -> Seq<char> {
    signature_text(type_str(ft), param_texts(sig, false))
}

proof fn lemma_join_push(parts: Seq<Seq<char>>, sep: Seq<char>, p: Seq<char>)
    ensures
        join(parts.push(p), sep) == if parts.len() == 0 {
            p
        } else {
            join(parts, sep) + sep + p
        },
{
    assert(parts.push(p).drop_last() =~= parts);
}


/// Appends `part` to a text that holds the join of `parts`, with `sep` in
/// front of it unless `parts` is empty.
fn push_part(out: &mut String, first: bool, sep: &str, part: &str, Ghost(head): Ghost<Seq<char>>, Ghost(parts): Ghost<Seq<Seq<char>>>)
    requires
        old(out)@ == head + join(parts, sep@),
        first == (parts.len() == 0),
    ensures
        final(out)@ == head + join(parts.push(part@), sep@),
{
    proof {
        lemma_join_push(parts, sep@, part@);
    }
    if !first {
        out.append(sep);
    }
    out.append(part);
    proof {
        if parts.len() > 0 {
            assert(final(out)@ =~= head + (join(parts, sep@) + sep@ + part@));
        } else {
            assert(final(out)@ =~= head + part@);
        }
    }
}


impl Value {
    /// The literal-like form of this value (a boolean shows as `True` or
    /// `False`).
    pub fn to_repr(&self) -> (r: String)
        ensures
            r@ == value_repr(self.view()),
        decreases self,
    {
        match self {
            Value::NoneType => {
                proof {
                    reveal_strlit("None");
                }
                "None".to_owned()
            },
            Value::Bool(b) => {
                bool_repr(*b)
            },
            Value::Int(i) => {
                i64_to_decimal(*i)
            },
            Value::Str(x) => {
                let mut out = "\"".to_owned();
                out.append(x.as_str());
                out.append("\"");
                out
            },
            Value::List { items, frozen } => {
                let mut out = "[".to_owned();
                proof {
                    assert(decreases_to!(*self => *items));
                }
                let ghost mut parts: Seq<Seq<char>> = Seq::empty();
                let mut i: usize = 0;
                while i < items.len()
                    invariant
                        self.view() == ValueModel::List(crate::value::vec_views(*items), *frozen),
                        decreases_to!(*self => *items),
                        i <= items@.len(),
                        parts =~= Seq::new(i as nat, |j: int| value_repr(items@[j].view())),
                        out@ == "["@ + join(parts, ", "@),
                    decreases items@.len() - i,
                {
                    proof {
                        vstd::std_specs::vec::axiom_vec_index_decreases(*items, i as int);
                    }
                    let r = items[i].to_repr();
                    push_part(&mut out, i == 0, ", ", r.as_str(), Ghost("["@), Ghost(parts));
                    proof {
                        parts = parts.push(r@);
                    }
                    i += 1;
                }
                out.append("]");
                assert(self.view() == ValueModel::List(crate::value::vec_views(*items), *frozen));
                proof {
                    assert(parts =~= item_reprs(crate::value::vec_views(*items)));
                }
                out
            },
            Value::Dict { entries, frozen } => {
                let mut out = "{".to_owned();
                proof {
                    assert(decreases_to!(*self => *entries));
                }
                let ghost mut parts: Seq<Seq<char>> = Seq::empty();
                let mut i: usize = 0;
                while i < entries.len()
                    invariant
                        self.view() == ValueModel::Dict(crate::value::entry_vec_views(*entries), *frozen),
                        decreases_to!(*self => *entries),
                        i <= entries@.len(),
                        parts =~= Seq::new(
                            i as nat,
                            |j: int|
                                value_repr(entries@[j].0.view()) + ": "@ + value_repr(
                                    entries@[j].1.view(),
                                ),
                        ),
                        out@ == "{"@ + join(parts, ", "@),
                    decreases entries@.len() - i,
                {
                    proof {
                        vstd::std_specs::vec::axiom_vec_index_decreases(*entries, i as int);
                        assert(decreases_to!(entries@[i as int] => entries@[i as int].0));
                        assert(decreases_to!(entries@[i as int] => entries@[i as int].1));
                    }
                    let mut e = entries[i].0.to_repr();
                    let x = entries[i].1.to_repr();
                    e.append(": ");
                    e.append(x.as_str());
                    push_part(&mut out, i == 0, ", ", e.as_str(), Ghost("{"@), Ghost(parts));
                    proof {
                        parts = parts.push(e@);
                    }
                    i += 1;
                }
                out.append("}");
                proof {
                    assert(parts =~= entry_reprs(crate::value::entry_vec_views(*entries)));
                }
                out
            },
            Value::Function(f) => {
                proof {
                    assert(decreases_to!(*self => *f));
                    assert(decreases_to!(*f => f.signature));
                    vstd::std_specs::vec::axiom_vec_decreases_to_view(f.signature);
                    assert(param_seq(f.signature@) =~= sig_views(f.signature));
                }
                repr(&f.function_type, f.signature.as_slice())
            },
            Value::BoundMethod(w) => {
                w.method.to_repr()
            },
        }
    }
}


/// The views of the parameter descriptors in a slice.
pub open spec fn param_seq(sig: Seq<FunctionParameter>) -> Seq<ParamModel> {
    Seq::new(sig.len(), |i: int| param_view(sig[i]))
}

/// Appends the parameter list, in parentheses, to `out`.
fn params_text(out: &mut String, sig: &[FunctionParameter], marked: bool)
    ensures
        final(out)@ == old(out)@ + "("@ + join(param_texts(param_seq(sig@), marked), ", "@) + ")"@,
    decreases sig@, 0nat,
{
    let ghost head = old(out)@ + "("@;
    out.append("(");
    let ghost mut parts: Seq<Seq<char>> = Seq::empty();
    let mut i: usize = 0;
    while i < sig.len()
        invariant
            i <= sig@.len(),
            parts =~= Seq::new(i as nat, |j: int| param_text(param_view(sig@[j]), marked)),
            out@ == head + join(parts, ", "@),
        decreases sig@.len() - i,
    {
        proof {
            vstd::seq::axiom_seq_index_decreases(sig@, i as int);
        }
        let t = param_to_text(&sig[i], marked);
        push_part(out, i == 0, ", ", t.as_str(), Ghost(head), Ghost(parts));
        proof {
            parts = parts.push(t@);
        }
        i += 1;
    }
    proof {
        assert(parts =~= param_texts(param_seq(sig@), marked));
    }
    out.append(")");
}

/// One parameter as a signature shows it.
fn param_to_text(p: &FunctionParameter, marked: bool) -> (r: String)
    ensures
        r@ == param_text(param_view(*p), marked),
    decreases p,
{
    match p {
        FunctionParameter::Normal(n) => n.clone(),
        FunctionParameter::Optional(n) => {
            if marked {
                let mut out = "?".to_owned();
                out.append(n.as_str());
                out
            } else {
                n.clone()
            }
        },
        FunctionParameter::WithDefaultValue(n, d) => {
            let mut out = n.clone();
            out.append(" = ");
            let x = d.to_repr();
            out.append(x.as_str());
            out
        },
        FunctionParameter::ArgsArray(n) => {
            let mut out = "*".to_owned();
            out.append(n.as_str());
            out
        },
        FunctionParameter::KWArgsDict(n) => {
            let mut out = "**".to_owned();
            out.append(n.as_str());
            out
        },
    }
}

fn bool_repr(b: bool) -> (r: String)
    ensures
        r@ == value_repr(ValueModel::Bool(b)),
{
    if b {
        "True".to_owned()
    } else {
        "False".to_owned()
    }
}

impl FunctionType {
    /// The short form: the function's name.
    pub fn to_str(&self) -> (r: String)
        ensures
            r@ == type_str(*self),
    {
        match self {
            FunctionType::Native(name) => name.clone(),
            FunctionType::Def(name, _) => name.clone(),
        }
    }

    /// The long form: `<native function NAME>` or `<function NAME from MODULE>`.
    pub fn to_repr(&self) -> (r: String)
        ensures
            r@ == type_repr(*self),
    {
        match self {
            FunctionType::Native(name) => {
                let mut out = "<native function ".to_owned();
                out.append(name.as_str());
                out.append(">");
                out
            },
            FunctionType::Def(name, module) => {
                let mut out = "<function ".to_owned();
                out.append(name.as_str());
                out.append(" from ");
                out.append(module.as_str());
                out.append(">");
                out
            },
        }
    }
}

/// The literal-like form of a callable: `<kind name>(params)`, with optional
/// parameters marked by `?`.
pub fn repr(function_type: &FunctionType, signature: &[FunctionParameter]) -> (r: String)
    ensures
        r@ == repr_spec(*function_type, param_seq(signature@)),
    decreases signature@, 1nat,
{
    let mut out = function_type.to_repr();
    params_text(&mut out, signature, true);
    out
}

/// The display form of a callable: `name(params)`, with no optional markers.
pub fn to_str(function_type: &FunctionType, signature: &[FunctionParameter]) -> (r: String)
    ensures
        r@ == str_spec(*function_type, param_seq(signature@)),
{
    let mut out = function_type.to_str();
    params_text(&mut out, signature, false);
    out
}


/// The human-facing form of a value: a string shows its characters, a
/// function its display signature; other values show their literal form.
pub open spec fn value_str(v: Value) -> Seq<char>
    decreases v,
{
    match v {
        Value::Str(s) => s@,
        Value::Function(f) => str_spec(f.function_type, param_seq(f.signature@)),
        Value::BoundMethod(w) => value_str(*w.method),
        _ => value_repr(v.view()),
    }
}

impl Value {
    /// The human-facing form of this value.
    pub fn to_str(&self) -> (r: String)
        ensures
            r@ == value_str(*self),
        decreases self,
    {
        match self {
            Value::Str(s) => s.clone(),
            Value::Function(f) => to_str(&f.function_type, f.signature.as_slice()),
            Value::BoundMethod(w) => w.method.to_str(),
            _ => self.to_repr(),
        }
    }
}

} // verus!

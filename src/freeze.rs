//! Freezing: the irreversible, transitive change of a value to immutable,
//! and the children a value holds references to.
use crate::function::{FunctionParameter, NativeFunction, ParamModel};
use crate::value::{clone_value, kind_name, param_view, sig_views, Value, ValueError, ValueModel};
use vstd::prelude::*;

verus! {

/// A value's own frozen flag; kinds that cannot change count as frozen.
pub open spec fn is_frozen(v: ValueModel) -> bool {
    match v {
        ValueModel::List(_, f) => f,
        ValueModel::Dict(_, f) => f,
        _ => true,
    }
}

/// The default values of a signature, in the order they are declared.
pub open spec fn defaults_of(sig: Seq<ParamModel>) -> Seq<ValueModel>
    decreases sig.len(),
{
    if sig.len() == 0 {
        Seq::empty()
    } else {
        defaults_of(sig.drop_last()) + match sig.last() {
            ParamModel::WithDefaultValue(_, d) => seq![d],
            _ => Seq::empty(),
        }
    }
}

/// The values a value directly holds: a list's items, a dictionary's keys
/// and values in turn, a native function's default values, a bound method's
/// callable and receiver.
pub open spec fn children(v: ValueModel) -> Seq<ValueModel> {
    match v {
        ValueModel::Function(_, sig) => defaults_of(sig),
        ValueModel::List(items, _) => items,
        ValueModel::Dict(entries, _) => Seq::new(
            2 * entries.len(),
            |i: int| if i % 2 == 0 { entries[i / 2].0 } else { entries[i / 2].1 },
        ),
        ValueModel::BoundMethod(m, s) => seq![*m, *s],
        _ => Seq::empty(),
    }
}

/// The value reached from `v` by following child positions along `path`.
pub open spec fn reachable(v: ValueModel, path: Seq<int>) -> Option<ValueModel>
    decreases path.len(),
{
    if path.len() == 0 {
        Some(v)
    } else if 0 <= path[0] < children(v).len() {
        reachable(children(v)[path[0]], path.drop_first())
    } else {
        None
    }
}

/// `v` with its own flag and that of every value it holds set.
pub open spec fn frozen_copy(v: ValueModel) -> ValueModel
    decreases v,
{
    match v {
        ValueModel::List(items, _) => ValueModel::List(frozen_items(items), true),
        ValueModel::Dict(entries, _) => ValueModel::Dict(frozen_entries(entries), true),
        ValueModel::Function(ft, sig) => ValueModel::Function(ft, frozen_params(sig)),
        ValueModel::BoundMethod(m, s) => ValueModel::BoundMethod(
            Box::new(frozen_copy(*m)),
            Box::new(frozen_copy(*s)),
        ),
        _ => v,
    }
}

/// A parameter descriptor with its default value, if any, frozen.
pub open spec fn frozen_param(p: ParamModel) -> ParamModel
    decreases p,
{
    match p {
        ParamModel::WithDefaultValue(n, d) => ParamModel::WithDefaultValue(n, frozen_copy(d)),
        _ => p,
    }
}

pub open spec fn frozen_params(sig: Seq<ParamModel>) -> Seq<ParamModel>
    decreases sig,
{
    Seq::new(
        sig.len(),
        |i: int|
            if 0 <= i < sig.len() {
                frozen_param(sig[i])
            } else {
                ParamModel::Normal(Seq::empty())
            },
    )
}

proof fn lemma_frozen_defaults(sig: Seq<ParamModel>)
    ensures
        defaults_of(frozen_params(sig)) == defaults_of(sig).map_values(|d: ValueModel| frozen_copy(d)),
    decreases sig.len(),
{
    if sig.len() > 0 {
        assert(frozen_params(sig).drop_last() =~= frozen_params(sig.drop_last()));
        assert(frozen_params(sig).last() == frozen_param(sig.last()));
        lemma_frozen_defaults(sig.drop_last());
        let tail = match sig.last() {
            ParamModel::WithDefaultValue(_, d) => seq![d],
            _ => Seq::<ValueModel>::empty(),
        };
        assert((defaults_of(sig.drop_last()) + tail).map_values(|d: ValueModel| frozen_copy(d))
            =~= defaults_of(sig.drop_last()).map_values(|d: ValueModel| frozen_copy(d))
            + tail.map_values(|d: ValueModel| frozen_copy(d)));
    } else {
        assert(defaults_of(sig).map_values(|d: ValueModel| frozen_copy(d)) =~= Seq::empty());
    }
}

pub open spec fn frozen_items(items: Seq<ValueModel>) -> Seq<ValueModel>
    decreases items,
{
    Seq::new(
        items.len(),
        |i: int|
            if 0 <= i < items.len() {
                frozen_copy(items[i])
            } else {
                ValueModel::NoneType
            },
    )
}

pub open spec fn frozen_entries(entries: Seq<(ValueModel, ValueModel)>) -> Seq<
    (ValueModel, ValueModel),
>
    decreases entries,
{
    Seq::new(
        entries.len(),
        |i: int|
            if 0 <= i < entries.len() {
                (frozen_copy(entries[i].0), frozen_copy(entries[i].1))
            } else {
                (ValueModel::NoneType, ValueModel::NoneType)
            },
    )
}

/// `v` is frozen, and so is every value it holds, at every depth.
pub open spec fn deep_frozen(v: ValueModel) -> bool {
    forall|path: Seq<int>| #[trigger] reachable(v, path) is Some ==> is_frozen(reachable(v, path)->Some_0)
}

proof fn lemma_frozen_copy_children(v: ValueModel)
    ensures
        is_frozen(frozen_copy(v)),
        children(frozen_copy(v)).len() == children(v).len(),
        forall|i: int|
            0 <= i < children(v).len() ==> #[trigger] children(frozen_copy(v))[i] == frozen_copy(
                children(v)[i],
            ),
{
    match v {
        ValueModel::Dict(entries, _) => {
            let fe = frozen_entries(entries);
            assert(frozen_copy(v) == ValueModel::Dict(fe, true));
            assert(fe.len() == entries.len());
            assert(children(frozen_copy(v)).len() == 2 * fe.len());
            assert forall|i: int| 0 <= i < children(v).len() implies #[trigger] children(
                frozen_copy(v),
            )[i] == frozen_copy(children(v)[i]) by {
                assert(0 <= i / 2 < entries.len());
                assert(fe[i / 2] == (frozen_copy(entries[i / 2].0), frozen_copy(entries[i / 2].1)));
            }
        },
        ValueModel::Function(ft, sig) => {
            assert(frozen_copy(v) == ValueModel::Function(ft, frozen_params(sig)));
            lemma_frozen_defaults(sig);
        },
        ValueModel::List(items, _) => {
            assert(frozen_copy(v) == ValueModel::List(frozen_items(items), true));
            assert(frozen_items(items).len() == items.len());
        },
        ValueModel::BoundMethod(m, o) => {
            let c = children(frozen_copy(v));
            assert(c == seq![frozen_copy(*m), frozen_copy(*o)]);
            assert(c[0] == frozen_copy(*m));
            assert(c[1] == frozen_copy(*o));
            assert(children(v)[0] == *m);
            assert(children(v)[1] == *o);
        },
        _ => {},
    }
}

proof fn lemma_frozen_copy_reachable(v: ValueModel, path: Seq<int>)
    requires
        reachable(frozen_copy(v), path) is Some,
    ensures
        is_frozen(reachable(frozen_copy(v), path)->Some_0),
    decreases path.len(),
{
    lemma_frozen_copy_children(v);
    if path.len() > 0 {
        lemma_frozen_copy_reachable(children(v)[path[0]], path.drop_first());
    }
}

/// Freezing is transitive: after a value is frozen, every value reachable
/// from it through its children, at any depth, is frozen.
pub proof fn lemma_freeze_transitive(v: ValueModel)
    ensures
        deep_frozen(frozen_copy(v)),
{
    assert forall|path: Seq<int>| #[trigger] reachable(frozen_copy(v), path) is Some
        implies is_frozen(reachable(frozen_copy(v), path)->Some_0) by {
        lemma_frozen_copy_reachable(v, path);
    }
}


impl Value {
    /// This value's own frozen flag.
    pub fn is_frozen(&self) -> (r: bool)
        ensures
            r == is_frozen(self.view()),
    {
        match self {
            Value::List { frozen, .. } => *frozen,
            Value::Dict { frozen, .. } => *frozen,
            _ => true,
        }
    }

    /// A copy of this value with itself and everything it holds frozen.
    pub fn frozen_copy(&self) -> (r: Value)
        ensures
            r.view() == frozen_copy(self.view()),
        decreases self,
    {
        match self {
            Value::List { items, frozen } => {
                let mut out: Vec<Value> = Vec::new();
                let mut k: usize = 0;
                proof {
                    assert(decreases_to!(*self => *items));
                }
                while k < items.len()
                    invariant
                        decreases_to!(*self => *items),
                        k <= items@.len(),
                        out@.len() == k,
                        forall|j: int|
                            0 <= j < k ==> (#[trigger] out@[j]).view() == frozen_copy(
                                items@[j].view(),
                            ),
                    decreases items@.len() - k,
                {
                    proof {
                        vstd::std_specs::vec::axiom_vec_index_decreases(*items, k as int);
                    }
                    out.push(items[k].frozen_copy());
                    k += 1;
                }
                let r = Value::List { items: out, frozen: true };
                proof {
                    let vs = crate::value::vec_views(*items);
                    assert(self.view() == ValueModel::List(vs, *frozen));
                    assert(crate::value::vec_views(out) =~= frozen_items(vs));
                }
                r
            },
            Value::Dict { entries, frozen } => {
                let mut out: Vec<(Value, Value)> = Vec::new();
                let mut k: usize = 0;
                proof {
                    assert(decreases_to!(*self => *entries));
                }
                while k < entries.len()
                    invariant
                        decreases_to!(*self => *entries),
                        k <= entries@.len(),
                        out@.len() == k,
                        forall|j: int|
                            0 <= j < k ==> (#[trigger] out@[j]).0.view() == frozen_copy(
                                entries@[j].0.view(),
                            ) && out@[j].1.view() == frozen_copy(entries@[j].1.view()),
                    decreases entries@.len() - k,
                {
                    proof {
                        vstd::std_specs::vec::axiom_vec_index_decreases(*entries, k as int);
                        assert(decreases_to!(entries@[k as int] => entries@[k as int].0));
                        assert(decreases_to!(entries@[k as int] => entries@[k as int].1));
                    }
                    let fa = entries[k].0.frozen_copy();
                    let fb = entries[k].1.frozen_copy();
                    out.push((fa, fb));
                    k += 1;
                }
                let r = Value::Dict { entries: out, frozen: true };
                proof {
                    let vs = crate::value::entry_vec_views(*entries);
                    assert(self.view() == ValueModel::Dict(vs, *frozen));
                    assert(crate::value::entry_vec_views(out) =~= frozen_entries(vs));
                }
                r
            },
            Value::Function(f) => Value::Function(frozen_native(f)),
            Value::BoundMethod(w) => {
                let m = w.method.frozen_copy();
                let o = w.self_obj.frozen_copy();
                Value::BoundMethod(crate::function::WrappedMethod { method: Box::new(m), self_obj: Box::new(o) })
            },
            _ => clone_value(self),
        }
    }

    /// Freezes this value and, transitively, everything it holds; a frozen
    /// value never changes again.
    pub fn freeze(&mut self)
        ensures
            final(self).view() == frozen_copy(old(self).view()),
            deep_frozen(final(self).view()),
    {
        *self = self.frozen_copy();
        proof {
            lemma_freeze_transitive(old(self).view());
        }
    }

    /// Appends `x` to this list; fails, leaving it unchanged, when it is
    /// frozen or not a list.
    pub fn list_append(&mut self, x: Value) -> (r: Result<(), ValueError>)
        ensures
            match old(self).view() {
                ValueModel::List(items, false) => r is Ok && final(self).view() == ValueModel::List(
                    items.push(x.view()),
                    false,
                ),
                ValueModel::List(_, true) => r == Err::<(), ValueError>(
                    ValueError::CannotMutateFrozenValue,
                ) && *final(self) == *old(self),
                _ => r matches Err(ValueError::OperationNotSupported(op, t)) && op@ == "append"@
                    && t@ == kind_name(*old(self)) && *final(self) == *old(self),
            },
    {
        match self {
            Value::List { items, frozen } => {
                if *frozen {
                    return Err(ValueError::CannotMutateFrozenValue);
                }
                let ghost before = *items;
                items.push(x);
                proof {
                    assert(crate::value::vec_views(*items) =~= crate::value::vec_views(before).push(x.view()));
                }
                Ok(())
            },
            _ => Err(ValueError::OperationNotSupported("append".to_owned(), self.get_type().to_owned())),
        }
    }

    /// The values this value directly holds: a list's items, a dictionary's
    /// keys and values in turn, a native function's default values in
    /// declaration order, a bound method's callable and receiver.
    pub fn values_for_descendant_check_and_freeze(&self) -> (r: Vec<Value>)
        ensures
            r@.len() == children(self.view()).len(),
            forall|i: int| 0 <= i < r@.len() ==> (#[trigger] r@[i]).view() == children(self.view())[i],
    {
        let mut out: Vec<Value> = Vec::new();
        match self {
            Value::List { items, frozen } => {
                let mut i: usize = 0;
                while i < items.len()
                    invariant
                        i <= items@.len(),
                        out@.len() == i,
                        forall|j: int| 0 <= j < i ==> (#[trigger] out@[j]).view() == items@[j].view(),
                    decreases items@.len() - i,
                {
                    out.push(clone_value(&items[i]));
                    i += 1;
                }
                proof {
                    let vs = crate::value::vec_views(*items);
                    assert(self.view() == ValueModel::List(vs, *frozen));
                    assert(children(self.view()) == vs);
                }
            },
            Value::Dict { entries, frozen } => {
                let mut i: usize = 0;
                while i < entries.len()
                    invariant
                        i <= entries@.len(),
                        out@.len() == 2 * i,
                        forall|j: int|
                            0 <= j < 2 * i ==> (#[trigger] out@[j]).view() == (if j % 2 == 0 {
                                entries@[j / 2].0.view()
                            } else {
                                entries@[j / 2].1.view()
                            }),
                    decreases entries@.len() - i,
                {
                    out.push(clone_value(&entries[i].0));
                    out.push(clone_value(&entries[i].1));
                    i += 1;
                }
                proof {
                    let es = crate::value::entry_vec_views(*entries);
                    assert(self.view() == ValueModel::Dict(es, *frozen));
                    assert(children(self.view()).len() == 2 * es.len());
                    assert forall|i: int| 0 <= i < out@.len() implies (#[trigger] out@[i]).view()
                        == children(self.view())[i] by {
                        assert(es[i / 2] == (entries@[i / 2].0.view(), entries@[i / 2].1.view()));
                    }
                }
            },
            Value::Function(f) => {
                let ghost sv = sig_views(f.signature);
                let mut i: usize = 0;
                while i < f.signature.len()
                    invariant
                        sv == sig_views(f.signature),
                        i <= f.signature@.len(),
                        out@.len() == defaults_of(sv.take(i as int)).len(),
                        forall|j: int|
                            0 <= j < out@.len() ==> (#[trigger] out@[j]).view() == defaults_of(
                                sv.take(i as int),
                            )[j],
                    decreases f.signature@.len() - i,
                {
                    proof {
                        assert(sv.take(i as int + 1).drop_last() =~= sv.take(i as int));
                        assert(sv.take(i as int + 1).last() == param_view(f.signature@[i as int]));
                    }
                    match &f.signature[i] {
                        FunctionParameter::WithDefaultValue(_, d) => {
                            out.push(clone_value(d));
                        },
                        _ => {},
                    }
                    i += 1;
                }
                proof {
                    assert(sv.take(i as int) =~= sv);
                }
            },
            Value::BoundMethod(w) => {
                out.push(clone_value(&w.method));
                out.push(clone_value(&w.self_obj));
                proof {
                    assert(children(self.view()) == seq![w.method.view(), w.self_obj.view()]);
                }
            },
            _ => {},
        }
        out
    }
}


/// A copy of a native function whose default values are frozen.
fn frozen_native(f: &NativeFunction) -> (r: NativeFunction)
    ensures
        r.function_type == f.function_type,
        sig_views(r.signature) == frozen_params(sig_views(f.signature)),
    decreases f,
{
    let mut out: Vec<FunctionParameter> = Vec::new();
    let mut i: usize = 0;
    while i < f.signature.len()
        invariant
            i <= f.signature@.len(),
            out@.len() == i,
            forall|j: int|
                0 <= j < i ==> param_view(#[trigger] out@[j]) == frozen_param(
                    param_view(f.signature@[j]),
                ),
        decreases f.signature@.len() - i,
    {
        out.push(frozen_param_exec(&f.signature[i]));
        i += 1;
    }
    assert(sig_views(out) =~= frozen_params(sig_views(f.signature)));
    NativeFunction { signature: out, function_type: f.function_type.clone() }
}

/// A copy of a parameter descriptor whose default value, if any, is frozen.
fn frozen_param_exec(p: &FunctionParameter) -> (r: FunctionParameter)
    ensures
        param_view(r) == frozen_param(param_view(*p)),
    decreases p,
{
    match p {
        FunctionParameter::WithDefaultValue(n, d) => FunctionParameter::WithDefaultValue(
            n.clone(),
            d.frozen_copy(),
        ),
        _ => crate::value::clone_param(p),
    }
}

} // verus!

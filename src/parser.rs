//! The argument binder: resolves a call's positional and named values
//! against a signature, one parameter at a time and in declaration order.
use crate::function::{
    missing_error, missing_parts, error_parts, runtime_parts, FunctionArg, FunctionError,
    FunctionParameter, FunctionType, NativeFunction,
};
use crate::named_map::{
    entries_of, insert_named, key_index, named_is_empty, new_named, remove_named,
};
use crate::render::param_seq;
use crate::value::{clone_value, kind_name, Value, ValueError, ValueModel};
use linked_hash_map::LinkedHashMap;
use vstd::prelude::*;

verus! {

/// The named pool: names with their values, in order.
pub type NamedSeq = Seq<(Seq<char>, Value)>;

/// The view of a resolved argument.
pub enum ArgModel {
    Normal(ValueModel),
    Optional(Option<ValueModel>),
    ArgsArray(Seq<ValueModel>),
    KWArgsDict(Seq<(Seq<char>, ValueModel)>),
}

/// Why a whole call failed to bind.
pub enum BindFailure {
    /// The required parameter of this name received no value.
    Missing(Seq<char>),
    /// Values were left over after the last parameter.
    Extra,
}

/// Why the `**kwargs` argument could not be merged into the named pool.
pub enum KwFailure {
    NotString,
    NotMappable,
    Duplicate(Seq<char>),
}

pub open spec fn seq_views(s: Seq<Value>) -> Seq<ValueModel> {
    s.map_values(|v: Value| v.view())
}

pub open spec fn named_views(s: NamedSeq) -> Seq<(Seq<char>, ValueModel)> {
    s.map_values(|e: (Seq<char>, Value)| (e.0, e.1.view()))
}

/// The view of a resolved argument.
pub open spec fn arg_view(a: FunctionArg) -> ArgModel {
    match a {
        FunctionArg::Normal(v) => ArgModel::Normal(v.view()),
        FunctionArg::Optional(o) => ArgModel::Optional(
            match o {
                Some(v) => Some(v.view()),
                None => None,
            },
        ),
        FunctionArg::ArgsArray(v) => ArgModel::ArgsArray(seq_views(v@)),
        FunctionArg::KWArgsDict(m) => ArgModel::KWArgsDict(named_views(entries_of(m))),
    }
}

/// The name a parameter is declared with.
pub open spec fn param_name(p: FunctionParameter) -> Seq<char> {
    match p {
        FunctionParameter::Normal(n) => n@,
        FunctionParameter::Optional(n) => n@,
        FunctionParameter::WithDefaultValue(n, _) => n@,
        FunctionParameter::ArgsArray(n) => n@,
        FunctionParameter::KWArgsDict(n) => n@,
    }
}

/// Looks a single value up for the parameter `name`: the next positional
/// value if there is one, else the named value of that name, which leaves
/// the pool.
pub open spec fn take(pos: Seq<Value>, named: NamedSeq, name: Seq<char>) -> Option<
    (Value, Seq<Value>, NamedSeq),
> {
    if pos.len() > 0 {
        Some((pos[0], pos.drop_first(), named))
    } else if key_index(named, name) >= 0 {
        Some((named[key_index(named, name)].1, pos, named.remove(key_index(named, name))))
    } else {
        None
    }
}

/// Resolves one parameter against the pools: the argument and the pools
/// left, or `None` where a required parameter has no value.
pub open spec fn step(p: FunctionParameter, pos: Seq<Value>, named: NamedSeq) -> Option<
    (ArgModel, Seq<Value>, NamedSeq),
> {
    match p {
        FunctionParameter::Normal(n) => match take(pos, named, n@) {
            Some((v, p2, n2)) => Some((ArgModel::Normal(v.view()), p2, n2)),
            None => None,
        },
        FunctionParameter::Optional(n) => match take(pos, named, n@) {
            Some((v, p2, n2)) => Some((ArgModel::Optional(Some(v.view())), p2, n2)),
            None => Some((ArgModel::Optional(None), pos, named)),
        },
        FunctionParameter::WithDefaultValue(n, d) => match take(pos, named, n@) {
            Some((v, p2, n2)) => Some((ArgModel::Normal(v.view()), p2, n2)),
            None => Some((ArgModel::Normal(d.view()), pos, named)),
        },
        FunctionParameter::ArgsArray(_) => Some(
            (ArgModel::ArgsArray(seq_views(pos)), Seq::empty(), named),
        ),
        FunctionParameter::KWArgsDict(_) => Some(
            (ArgModel::KWArgsDict(named_views(named)), pos, Seq::empty()),
        ),
    }
}

/// Binds the parameters of `sig`, in order, against the pools, then asks
/// that nothing is left over.
pub open spec fn bind_from(sig: Seq<FunctionParameter>, pos: Seq<Value>, named: NamedSeq) -> Result<
    Seq<ArgModel>,
    BindFailure,
>
    decreases sig.len(),
{
    if sig.len() == 0 {
        if pos.len() == 0 && named.len() == 0 {
            Ok(Seq::empty())
        } else {
            Err(BindFailure::Extra)
        }
    } else {
        match step(sig[0], pos, named) {
            None => Err(BindFailure::Missing(param_name(sig[0]))),
            Some((a, p2, n2)) => match bind_from(sig.drop_first(), p2, n2) {
                Ok(rest) => Ok(seq![a] + rest),
                Err(f) => Err(f),
            },
        }
    }
}

/// The values that iterating `v` yields: a list's items or a dictionary's
/// keys; `None` for a value that cannot be iterated.
pub open spec fn iter_items(v: Value) -> Option<Seq<Value>> {
    match v {
        Value::List { items, .. } => Some(items@),
        Value::Dict { entries, .. } => Some(entries@.map_values(|e: (Value, Value)| e.0)),
        _ => None,
    }
}

/// Adds the entries of a `**kwargs` dictionary, in order, to the named pool.
pub open spec fn kw_merge(named: NamedSeq, entries: Seq<(Value, Value)>) -> Result<NamedSeq, KwFailure>
    decreases entries.len(),
{
    if entries.len() == 0 {
        Ok(named)
    } else {
        match entries[0].0 {
            Value::Str(s) => if key_index(named, s@) >= 0 {
                Err(KwFailure::Duplicate(s@))
            } else {
                kw_merge(named.push((s@, entries[0].1)), entries.drop_first())
            },
            _ => Err(KwFailure::NotString),
        }
    }
}

/// The named pool once the `**kwargs` argument `k` is merged into `named`.
pub open spec fn kwargs_outcome(named: NamedSeq, k: Value) -> Result<NamedSeq, KwFailure> {
    match k {
        Value::Dict { entries, .. } => kw_merge(named, entries@),
        Value::List { items, .. } => if items@.len() == 0 {
            Ok(named)
        } else {
            match items@[0] {
                Value::Str(_) => Err(KwFailure::NotMappable),
                _ => Err(KwFailure::NotString),
            }
        },
        _ => Err(KwFailure::NotMappable),
    }
}

/// Code, label and message of a `**kwargs` failure.
pub open spec fn kw_failure_parts(f: KwFailure) -> (Seq<char>, Seq<char>, Seq<char>) {
    match f {
        KwFailure::NotString => error_parts(FunctionError::ArgsValueIsNotString),
        KwFailure::NotMappable => error_parts(FunctionError::KWArgsDictIsNotMappable),
        KwFailure::Duplicate(name) => (
            "CF06"@,
            "Duplicate named argument in function call"@,
            "Parameter "@ + name + " is given more than once"@,
        ),
    }
}

/// The pools a call starts with, or the rendered failure of the set-up.
pub open spec fn setup_outcome(
    positional: Seq<Value>,
    named: NamedSeq,
    args: Option<Value>,
    kwargs: Option<Value>,
) -> Result<(Seq<Value>, NamedSeq), (Seq<char>, Seq<char>, Seq<char>)> {
    let extra = match args {
        Some(a) => iter_items(a),
        None => Some(Seq::empty()),
    };
    match extra {
        None => Err(error_parts(FunctionError::ArgsArrayIsNotIterable)),
        Some(more) => match kwargs {
            None => Ok((positional + more, named)),
            Some(k) => match kwargs_outcome(named, k) {
                Ok(n) => Ok((positional + more, n)),
                Err(f) => Err(kw_failure_parts(f)),
            },
        },
    }
}

/// `done` put in front of the arguments of `rest`, if it succeeded.
pub open spec fn prepend(done: Seq<ArgModel>, rest: Result<Seq<ArgModel>, BindFailure>) -> Result<
    Seq<ArgModel>,
    BindFailure,
> {
    match rest {
        Ok(more) => Ok(done + more),
        Err(f) => Err(f),
    }
}

proof fn lemma_prepend_push(
    done: Seq<ArgModel>,
    a: ArgModel,
    rest: Result<Seq<ArgModel>, BindFailure>,
)
    ensures
        prepend(done, match rest {
            Ok(more) => Ok(seq![a] + more),
            Err(f) => Err(f),
        }) == prepend(done.push(a), rest),
{
    match rest {
        Ok(more) => {
            assert(done + (seq![a] + more) =~= done.push(a) + more);
        },
        Err(_) => {},
    }
}

/// The binder's state during one call: what is left of the positional and
/// named values, and the next parameter to resolve.
pub struct ParameterParser<'a> {
    signature: &'a [FunctionParameter],
    index: usize,
    function_type: &'a FunctionType,
    positional: Vec<Value>,
    kwargs: LinkedHashMap<String, Value>,
}

impl<'a> ParameterParser<'a> {
    /// The positional values not yet taken, in order.
    pub closed spec fn positional_pool(&self) -> Seq<Value> {
        self.positional@
    }

    /// The named values not yet taken, in order.
    pub closed spec fn named_pool(&self) -> NamedSeq {
        entries_of(self.kwargs)
    }

    /// How many parameters have been resolved.
    pub closed spec fn slot(&self) -> nat {
        self.index as nat
    }

    pub closed spec fn signature(&self) -> Seq<FunctionParameter> {
        self.signature@
    }

    pub closed spec fn function_type(&self) -> FunctionType {
        *self.function_type
    }

    pub closed spec fn wf(&self) -> bool {
        self.index <= self.signature.len() && self.signature.len() == self.signature@.len()
    }

    /// Whether every parameter of the signature has been resolved.
    pub fn is_complete(&self) -> (r: bool)
        requires
            self.wf(),
        ensures
            r == (self.slot() == self.signature().len()),
    {
        self.index == self.signature.len()
    }

    /// Sets up the binder for one call: the positional values extended by
    /// what `args` yields, and the named values extended by the entries of
    /// `kwargs_arg`.
    pub fn new(
        signature: &'a [FunctionParameter],
        function_type: &'a FunctionType,
        positional: Vec<Value>,
        named: LinkedHashMap<String, Value>,
        args: Option<Value>,
        kwargs_arg: Option<Value>,
    ) -> (r: Result<ParameterParser<'a>, ValueError>)
        ensures
            match setup_outcome(positional@, entries_of(named), args, kwargs_arg) {
                Ok((pos, n)) => r matches Ok(p) && p.positional_pool() == pos && p.named_pool() == n
                    && p.slot() == 0 && p.signature() == signature@ && p.function_type()
                    == *function_type && p.wf(),
                Err(parts) => r matches Err(e) && runtime_parts(e) == Some(parts),
            },
    {
        let ghost outcome = setup_outcome(positional@, entries_of(named), args, kwargs_arg);
        let mut av = positional;
        match args {
            None => {},
            Some(x) => {
                match x {
                    Value::List { mut items, .. } => {
                        av.append(&mut items);
                    },
                    Value::Dict { mut entries, .. } => {
                        let ghost orig = entries@;
                        let ghost start = av@;
                        let total: usize = entries.len();
                        let mut i: usize = 0;
                        while entries.len() > 0
                            invariant
                                i <= orig.len(),
                                i + entries@.len() == orig.len(),
                                orig.len() == total,
                                entries@ == orig.skip(i as int),
                                av@ == start + orig.take(i as int).map_values(|e: (Value, Value)| e.0),
                            decreases entries@.len(),
                        {
                            let e = entries.remove(0);
                            proof {
                                assert(orig.take(i as int + 1).map_values(|e: (Value, Value)| e.0)
                                    =~= orig.take(i as int).map_values(|e: (Value, Value)| e.0).push(e.0));
                            }
                            av.push(e.0);
                            i += 1;
                        }
                        proof {
                            assert(orig.take(i as int) =~= orig);
                        }
                    },
                    _ => {
                        return Err(FunctionError::ArgsArrayIsNotIterable.into_value_error());
                    },
                }
            },
        }
        proof {
            assert(match args {
                Some(a) => iter_items(a) == Some(av@.skip(positional@.len() as int)),
                None => av@ == positional@,
            });
            assert(av@ =~= positional@ + av@.skip(positional@.len() as int));
        }
        let mut kwargs = named;
        match kwargs_arg {
            None => {},
            Some(x) => {
                match x {
                    Value::Dict { mut entries, .. } => {
                        let ghost orig = entries@;
                        let ghost n0 = entries_of(kwargs);
                        assert(outcome == match kw_merge(n0, orig) {
                            Ok(n) => Ok((av@, n)),
                            Err(f) => Err(kw_failure_parts(f)),
                        });
                        while entries.len() > 0
                            invariant
                                outcome == setup_outcome(positional@, entries_of(named), args, kwargs_arg),
                                outcome == match kw_merge(entries_of(kwargs), entries@) {
                                    Ok(n) => Ok((av@, n)),
                                    Err(f) => Err(kw_failure_parts(f)),
                                },
                            decreases entries@.len(),
                        {
                            let ghost before = entries@;
                            let ghost cur = entries_of(kwargs);
                            let e = entries.remove(0);
                            proof {
                                assert(entries@ =~= before.drop_first());
                            }
                            match e.0 {
                                Value::Str(k) => {
                                    let name = k.clone();
                                    let prev = insert_named(&mut kwargs, k, e.1);
                                    if prev.is_some() {
                                        proof {
                                            assert(kw_merge(cur, before) == Err::<NamedSeq, KwFailure>(KwFailure::Duplicate(name@)));
                                            assert(outcome == Err::<(Seq<Value>, NamedSeq), (Seq<char>, Seq<char>, Seq<char>)>(kw_failure_parts(KwFailure::Duplicate(name@))));
                                        }
                                        return Err(
                                            FunctionError::DuplicateNamedArgument(name).into_value_error(),
                                        );
                                    }
                                },
                                _ => {
                                    proof {
                                        assert(kw_merge(cur, before) == Err::<NamedSeq, KwFailure>(KwFailure::NotString));
                                        assert(outcome == Err::<(Seq<Value>, NamedSeq), (Seq<char>, Seq<char>, Seq<char>)>(kw_failure_parts(KwFailure::NotString)));
                                    }
                                    return Err(FunctionError::ArgsValueIsNotString.into_value_error());
                                },
                            }
                        }
                    },
                    Value::List { items, .. } => {
                        if items.len() > 0 {
                            match &items[0] {
                                Value::Str(_) => {
                                    return Err(
                                        FunctionError::KWArgsDictIsNotMappable.into_value_error(),
                                    );
                                },
                                _ => {
                                    return Err(FunctionError::ArgsValueIsNotString.into_value_error());
                                },
                            }
                        }
                    },
                    _ => {
                        return Err(FunctionError::KWArgsDictIsNotMappable.into_value_error());
                    },
                }
            },
        }
        Ok(ParameterParser { signature, index: 0, function_type, positional: av, kwargs })
    }

    /// Resolves a required parameter: the next positional value, else the
    /// named value called `name`; fails when there is neither.
    pub fn next_normal(&mut self, name: &str) -> (r: Result<Value, ValueError>)
        requires
            old(self).wf(),
            old(self).slot() < old(self).signature().len(),
        ensures
            final(self).wf(),
            final(self).signature() == old(self).signature(),
            final(self).function_type() == old(self).function_type(),
            match take(old(self).positional_pool(), old(self).named_pool(), name@) {
                Some((v, p2, n2)) => r == Ok::<Value, ValueError>(v) && final(self).positional_pool()
                    == p2 && final(self).named_pool() == n2 && final(self).slot() == old(self).slot() + 1,
                None => r matches Err(e) && runtime_parts(e) == Some(
                    missing_parts(name@, old(self).function_type(), param_seq(old(self).signature())),
                ) && final(self).positional_pool() == old(self).positional_pool()
                    && final(self).named_pool() == old(self).named_pool() && final(self).slot()
                    == old(self).slot(),
            },
    {
        if self.positional.len() > 0 {
            let ghost before = self.positional@;
            let x = self.positional.remove(0);
            proof {
                assert(self.positional@ =~= before.drop_first());
            }
            self.index += 1;
            Ok(x)
        } else {
            match remove_named(&mut self.kwargs, name) {
                Some(v) => {
                    self.index += 1;
                    Ok(v)
                },
                None => Err(
                    ValueError::Runtime(missing_error(name, self.function_type, self.signature)),
                ),
            }
        }
    }

    /// Resolves an optional parameter: as for a required one, but with
    /// `None` where no value was given.
    pub fn next_optional(&mut self, name: &str) -> (r: Option<Value>)
        requires
            old(self).wf(),
            old(self).slot() < old(self).signature().len(),
        ensures
            final(self).wf(),
            final(self).signature() == old(self).signature(),
            final(self).function_type() == old(self).function_type(),
            final(self).slot() == old(self).slot() + 1,
            match take(old(self).positional_pool(), old(self).named_pool(), name@) {
                Some((v, p2, n2)) => r == Some(v) && final(self).positional_pool() == p2
                    && final(self).named_pool() == n2,
                None => r.is_none() && final(self).positional_pool() == old(self).positional_pool()
                    && final(self).named_pool() == old(self).named_pool(),
            },
    {
        self.index += 1;
        if self.positional.len() > 0 {
            let ghost before = self.positional@;
            let x = self.positional.remove(0);
            proof {
                assert(self.positional@ =~= before.drop_first());
            }
            Some(x)
        } else {
            remove_named(&mut self.kwargs, name)
        }
    }

    /// Resolves a parameter with a default: as for an optional one, but a
    /// copy of `default_value` where no value was given.
    pub fn next_with_default_value(&mut self, name: &str, default_value: &Value) -> (r: Value)
        requires
            old(self).wf(),
            old(self).slot() < old(self).signature().len(),
        ensures
            final(self).wf(),
            final(self).signature() == old(self).signature(),
            final(self).function_type() == old(self).function_type(),
            final(self).slot() == old(self).slot() + 1,
            match take(old(self).positional_pool(), old(self).named_pool(), name@) {
                Some((v, p2, n2)) => r == v && final(self).positional_pool() == p2
                    && final(self).named_pool() == n2,
                None => r.view() == default_value.view() && final(self).positional_pool()
                    == old(self).positional_pool() && final(self).named_pool()
                    == old(self).named_pool(),
            },
    {
        match self.next_optional(name) {
            Some(v) => v,
            None => clone_value(default_value),
        }
    }

    /// Resolves a `*args` parameter: every positional value left, in order.
    pub fn next_args_array(&mut self) -> (r: Vec<Value>)
        requires
            old(self).wf(),
            old(self).slot() < old(self).signature().len(),
        ensures
            final(self).wf(),
            final(self).signature() == old(self).signature(),
            final(self).function_type() == old(self).function_type(),
            final(self).slot() == old(self).slot() + 1,
            r@ == old(self).positional_pool(),
            final(self).positional_pool() == Seq::<Value>::empty(),
            final(self).named_pool() == old(self).named_pool(),
    {
        self.index += 1;
        let mut out: Vec<Value> = Vec::new();
        std::mem::swap(&mut self.positional, &mut out);
        out
    }

    /// Resolves a `**kwargs` parameter: every named value left, in order.
    pub fn next_kwargs_dict(&mut self) -> (r: LinkedHashMap<String, Value>)
        requires
            old(self).wf(),
            old(self).slot() < old(self).signature().len(),
        ensures
            final(self).wf(),
            final(self).signature() == old(self).signature(),
            final(self).function_type() == old(self).function_type(),
            final(self).slot() == old(self).slot() + 1,
            entries_of(r) == old(self).named_pool(),
            final(self).named_pool() == NamedSeq::empty(),
            final(self).positional_pool() == old(self).positional_pool(),
    {
        self.index += 1;
        let mut out = new_named();
        std::mem::swap(&mut self.kwargs, &mut out);
        out
    }

    /// Once every parameter is resolved: fails when positional or named
    /// values are left over.
    pub fn check_no_more_args(&mut self) -> (r: Result<(), ValueError>)
        requires
            old(self).wf(),
            old(self).slot() == old(self).signature().len(),
        ensures
            *final(self) == *old(self),
            r is Ok <==> old(self).positional_pool().len() == 0 && old(self).named_pool().len()
                == 0,
            r matches Err(e) ==> runtime_parts(e) == Some(error_parts(FunctionError::ExtraParameter)),
    {
        if self.positional.len() > 0 || !named_is_empty(&self.kwargs) {
            return Err(FunctionError::ExtraParameter.into_value_error());
        }
        Ok(())
    }

    /// Resolves every parameter left, in order, then checks that nothing is
    /// left over.
    pub fn bind_rest(&mut self) -> (r: Result<Vec<FunctionArg>, ValueError>)
        requires
            old(self).wf(),
        ensures
            match bind_from(
                old(self).signature().skip(old(self).slot() as int),
                old(self).positional_pool(),
                old(self).named_pool(),
            ) {
                Ok(args) => r matches Ok(v) && v@.map_values(|a: FunctionArg| arg_view(a)) == args,
                Err(BindFailure::Missing(n)) => r matches Err(e) && runtime_parts(e) == Some(
                    missing_parts(n, old(self).function_type(), param_seq(old(self).signature())),
                ),
                Err(BindFailure::Extra) => r matches Err(e) && runtime_parts(e) == Some(
                    error_parts(FunctionError::ExtraParameter),
                ),
            },
    {
        let ghost overall = bind_from(
            self.signature@.skip(self.index as int),
            self.positional@,
            entries_of(self.kwargs),
        );
        let ghost sig = self.signature();
        let ghost ft = self.function_type();
        let mut out: Vec<FunctionArg> = Vec::new();
        while self.index < self.signature.len()
            invariant
                overall == bind_from(
                    old(self).signature().skip(old(self).slot() as int),
                    old(self).positional_pool(),
                    old(self).named_pool(),
                ),
                sig == old(self).signature(),
                ft == old(self).function_type(),
                self.wf(),
                self.signature() == sig,
                self.function_type() == ft,
                overall == prepend(
                    out@.map_values(|a: FunctionArg| arg_view(a)),
                    bind_from(sig.skip(self.slot() as int), self.positional_pool(), self.named_pool()),
                ),
            decreases sig.len() - self.slot(),
        {
            let ghost k = self.slot() as int;
            let ghost pos0 = self.positional_pool();
            let ghost named0 = self.named_pool();
            proof {
                assert(sig.skip(k)[0] == sig[k]);
                assert(sig.skip(k).drop_first() =~= sig.skip(k + 1));
            }
            match self.next_arg() {
                Ok(a) => {
                    proof {
                        assert(out@.push(a).map_values(|a: FunctionArg| arg_view(a))
                            =~= out@.map_values(|a: FunctionArg| arg_view(a)).push(arg_view(a)));
                        lemma_prepend_push(
                            out@.map_values(|a: FunctionArg| arg_view(a)),
                            arg_view(a),
                            bind_from(sig.skip(k + 1), self.positional_pool(), self.named_pool()),
                        );
                    }
                    out.push(a);
                },
                Err(e) => {
                    proof {
                        assert(step(sig[k], pos0, named0).is_none());
                        assert(bind_from(sig.skip(k), pos0, named0) == Err::<Seq<ArgModel>, BindFailure>(
                            BindFailure::Missing(param_name(sig[k])),
                        ));
                    }
                    return Err(e);
                },
            }
        }
        proof {
            assert(sig.skip(self.slot() as int) =~= Seq::<FunctionParameter>::empty());
        }
        match self.check_no_more_args() {
            Ok(()) => {
                proof {
                    assert(out@.map_values(|a: FunctionArg| arg_view(a)) + Seq::<ArgModel>::empty()
                        =~= out@.map_values(|a: FunctionArg| arg_view(a)));
                }
                Ok(out)
            },
            Err(e) => Err(e),
        }
    }

    /// Resolves the next parameter of the signature, by its kind.
    pub fn next_arg(&mut self) -> (r: Result<FunctionArg, ValueError>)
        requires
            old(self).wf(),
            old(self).slot() < old(self).signature().len(),
        ensures
            final(self).wf(),
            final(self).signature() == old(self).signature(),
            final(self).function_type() == old(self).function_type(),
            match step(
                old(self).signature()[old(self).slot() as int],
                old(self).positional_pool(),
                old(self).named_pool(),
            ) {
                Some((a, p2, n2)) => r matches Ok(x) && arg_view(x) == a
                    && final(self).positional_pool() == p2 && final(self).named_pool() == n2
                    && final(self).slot() == old(self).slot() + 1,
                None => r matches Err(e) && runtime_parts(e) == Some(
                    missing_parts(
                        param_name(old(self).signature()[old(self).slot() as int]),
                        old(self).function_type(),
                        param_seq(old(self).signature()),
                    ),
                ) && final(self).positional_pool() == old(self).positional_pool()
                    && final(self).named_pool() == old(self).named_pool() && final(self).slot()
                    == old(self).slot(),
            },
    {
        let signature = self.signature;
        match &signature[self.index] {
            FunctionParameter::Normal(name) => match self.next_normal(name.as_str()) {
                Ok(v) => Ok(FunctionArg::Normal(v)),
                Err(e) => Err(e),
            },
            FunctionParameter::Optional(name) => Ok(
                FunctionArg::Optional(self.next_optional(name.as_str())),
            ),
            FunctionParameter::WithDefaultValue(name, value) => Ok(
                FunctionArg::Normal(self.next_with_default_value(name.as_str(), value)),
            ),
            FunctionParameter::ArgsArray(_) => Ok(FunctionArg::ArgsArray(self.next_args_array())),
            FunctionParameter::KWArgsDict(_) => Ok(
                FunctionArg::KWArgsDict(self.next_kwargs_dict()),
            ),
        }
    }
}


/// What binding a call to the callable `ft` with `sig` gives: the resolved
/// arguments, or the code, label and message of the failure.
pub open spec fn call_outcome(
    sig: Seq<FunctionParameter>,
    ft: FunctionType,
    positional: Seq<Value>,
    named: NamedSeq,
    args: Option<Value>,
    kwargs: Option<Value>,
) -> Result<Seq<ArgModel>, (Seq<char>, Seq<char>, Seq<char>)> {
    match setup_outcome(positional, named, args, kwargs) {
        Err(parts) => Err(parts),
        Ok((pos, n)) => match bind_from(sig, pos, n) {
            Ok(a) => Ok(a),
            Err(BindFailure::Missing(m)) => Err(missing_parts(m, ft, param_seq(sig))),
            Err(BindFailure::Extra) => Err(error_parts(FunctionError::ExtraParameter)),
        },
    }
}

/// What binding a call to the value `v` gives; `None` where `v` cannot be
/// called. A bound method passes its receiver as the first positional value.
pub open spec fn value_call_outcome(
    v: Value,
    positional: Seq<Value>,
    named: NamedSeq,
    args: Option<Value>,
    kwargs: Option<Value>,
) -> Option<Result<Seq<ArgModel>, (Seq<char>, Seq<char>, Seq<char>)>>
    decreases v,
{
    match v {
        Value::Function(f) => Some(
            call_outcome(f.signature@, f.function_type, positional, named, args, kwargs),
        ),
        Value::BoundMethod(w) => value_call_outcome(
            *w.method,
            seq![*w.self_obj] + positional,
            named,
            args,
            kwargs,
        ),
        _ => None,
    }
}

/// `r` is what `o` describes: the same arguments, or a failure with the
/// same code, label and message.
pub open spec fn reports(
    o: Result<Seq<ArgModel>, (Seq<char>, Seq<char>, Seq<char>)>,
    r: Result<Vec<FunctionArg>, ValueError>,
) -> bool {
    match o {
        Ok(a) => r matches Ok(v) && v@.map_values(|x: FunctionArg| arg_view(x)) == a,
        Err(parts) => r matches Err(e) && runtime_parts(e) == Some(parts),
    }
}

/// The callable a value stands for once every bound receiver is set aside.
pub open spec fn innermost(v: Value) -> Value
    decreases v,
{
    match v {
        Value::BoundMethod(w) => innermost(*w.method),
        _ => v,
    }
}

/// `e` reports a value of type `t` that cannot be called.
pub open spec fn not_callable(e: ValueError, t: Seq<char>) -> bool {
    e matches ValueError::NotCallable(n) && n@ == t
}

impl NativeFunction {
    /// Binds one call's arguments to this function's signature.
    pub fn bind_call(
        &self,
        positional: Vec<Value>,
        named: LinkedHashMap<String, Value>,
        args: Option<Value>,
        kwargs: Option<Value>,
    ) -> (r: Result<Vec<FunctionArg>, ValueError>)
        ensures
            reports(
                call_outcome(
                self.signature@,
                self.function_type,
                positional@,
                entries_of(named),
                args,
                kwargs,
            ),
                r,
            ),
    {
        let sig = self.signature.as_slice();
        match ParameterParser::new(sig, &self.function_type, positional, named, args, kwargs) {
            Ok(mut p) => {
                proof {
                    assert(p.signature().skip(0) =~= p.signature());
                }
                p.bind_rest()
            },
            Err(e) => Err(e),
        }
    }
}

impl Value {
    /// Binds one call's arguments to this value, when it is callable.
    pub fn bind_call(
        self,
        positional: Vec<Value>,
        named: LinkedHashMap<String, Value>,
        args: Option<Value>,
        kwargs: Option<Value>,
    ) -> (r: Result<Vec<FunctionArg>, ValueError>)
        ensures
            match value_call_outcome(self, positional@, entries_of(named), args, kwargs) {
                Some(o) => reports(o, r),
                None => r matches Err(e) && not_callable(e, kind_name(innermost(self))),
            },
        decreases self,
    {
        let ghost me = self;
        match self {
            Value::Function(f) => {
                f.bind_call(positional, named, args, kwargs)
            },
            Value::BoundMethod(w) => {
                let mut all: Vec<Value> = Vec::new();
                all.push(*w.self_obj);
                let mut rest = positional;
                all.append(&mut rest);
                proof {
                    assert(all@ =~= seq![*w.self_obj] + positional@);
                }
                (*w.method).bind_call(all, named, args, kwargs)
            },
            _ => {
                Err(ValueError::NotCallable(self.get_type().to_owned()))
            },
        }
    }
}


/// Arity completeness: when a signature's required parameters come first
/// and a call supplies exactly one positional value for each of them, and
/// nothing else, binding succeeds and each required parameter receives its
/// value, in order.
pub proof fn lemma_arity_completeness(
    sig: Seq<FunctionParameter>,
    ft: FunctionType,
    pos: Seq<Value>,
)
    requires
        required_first(sig, pos.len() as int),
    ensures
        call_outcome(sig, ft, pos, Seq::empty(), None, None) matches Ok(a) && a.len() == sig.len()
            && forall|i: int| 0 <= i < pos.len() ==> a[i] == ArgModel::Normal(pos[i].view()),
{
    assert(pos + Seq::<Value>::empty() =~= pos);
    lemma_bind_required(sig, pos);
}

/// A signature whose first `k` parameters are required and none after.
pub open spec fn required_first(sig: Seq<FunctionParameter>, k: int) -> bool {
    &&& 0 <= k <= sig.len()
    &&& forall|i: int| 0 <= i < k ==> sig[i] is Normal
    &&& forall|i: int| k <= i < sig.len() ==> !(sig[i] is Normal)
}

proof fn lemma_bind_no_required(sig: Seq<FunctionParameter>)
    requires
        forall|i: int| 0 <= i < sig.len() ==> !(sig[i] is Normal),
    ensures
        bind_from(sig, Seq::empty(), Seq::empty()) matches Ok(a) && a.len() == sig.len(),
    decreases sig.len(),
{
    if sig.len() > 0 {
        let rest = sig.drop_first();
        assert forall|i: int| 0 <= i < rest.len() implies !(rest[i] is Normal) by {
            assert(rest[i] == sig[i + 1]);
        }
        lemma_bind_no_required(rest);
        assert(seq_views(Seq::<Value>::empty()) =~= Seq::empty());
    }
}

proof fn lemma_bind_required(sig: Seq<FunctionParameter>, pos: Seq<Value>)
    requires
        required_first(sig, pos.len() as int),
    ensures
        bind_from(sig, pos, Seq::empty()) matches Ok(a) && a.len() == sig.len() && forall|i: int|
            0 <= i < pos.len() ==> a[i] == ArgModel::Normal(pos[i].view()),
    decreases sig.len(),
{
    if pos.len() == 0 {
        assert(pos =~= Seq::empty());
        lemma_bind_no_required(sig);
    } else {
        let rest = sig.drop_first();
        let k = pos.len() as int;
        assert forall|i: int| 0 <= i < k - 1 implies rest[i] is Normal by {
            assert(rest[i] == sig[i + 1]);
        }
        assert forall|i: int| k - 1 <= i < rest.len() implies !(rest[i] is Normal) by {
            assert(rest[i] == sig[i + 1]);
        }
        lemma_bind_required(rest, pos.drop_first());
        assert(sig[0] is Normal);
        let n = sig[0]->Normal_0;
        assert(take(pos, Seq::empty(), n@) == Some((pos[0], pos.drop_first(), NamedSeq::empty())));
        assert(step(sig[0], pos, Seq::empty()) == Some(
            (ArgModel::Normal(pos[0].view()), pos.drop_first(), NamedSeq::empty()),
        ));
        let b = bind_from(rest, pos.drop_first(), Seq::empty())->Ok_0;
        assert(bind_from(sig, pos, Seq::empty()) == Ok::<Seq<ArgModel>, BindFailure>(
            seq![ArgModel::Normal(pos[0].view())] + b,
        ));
        let a = bind_from(sig, pos, Seq::empty())->Ok_0;
        assert forall|i: int| 0 <= i < pos.len() implies a[i] == ArgModel::Normal(pos[i].view()) by {
            if i > 0 {
                assert(a[i] == b[i - 1]);
                assert(pos.drop_first()[i - 1] == pos[i]);
            }
        }
    }
}


/// Arity completeness, one parameter at a time: when a signature's required
/// parameters come first and a call supplies one positional value for each
/// of them and nothing else, resolving parameter `i` after the ones before
/// it takes the `i`-th positional value when it is required, and otherwise
/// succeeds and leaves both pools empty, so that the final check passes.
pub proof fn lemma_arity_completeness_stepwise(sig: Seq<FunctionParameter>, pos: Seq<Value>, i: int)
    requires
        required_first(sig, pos.len() as int),
        0 <= i < sig.len(),
    ensures
        i < pos.len() ==> step(sig[i], pos.skip(i), Seq::empty()) == Some(
            (ArgModel::Normal(pos[i].view()), pos.skip(i + 1), NamedSeq::empty()),
        ),
        i >= pos.len() ==> (step(sig[i], Seq::empty(), Seq::empty()) matches Some((_, p2, n2))
            && p2.len() == 0 && n2.len() == 0),
{
    if i < pos.len() {
        assert(sig[i] is Normal);
        assert(pos.skip(i)[0] == pos[i]);
        assert(pos.skip(i).drop_first() =~= pos.skip(i + 1));
    } else {
        assert(!(sig[i] is Normal));
        assert(seq_views(Seq::<Value>::empty()) =~= Seq::empty());
    }
}

} // verus!

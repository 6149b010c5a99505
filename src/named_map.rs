//! The insertion-ordered map of named call arguments, kept in a
//! `linked_hash_map::LinkedHashMap` and described by its ordered entries.
use crate::value::Value;
use linked_hash_map::LinkedHashMap;
use vstd::prelude::*;

verus! {

#[verifier::external_type_specification]
#[verifier::external_body]
#[verifier::reject_recursive_types(K)]
#[verifier::reject_recursive_types(V)]
#[verifier::reject_recursive_types(S)]
pub struct ExLinkedHashMap<K, V, S>(LinkedHashMap<K, V, S>);

/// The entries of a map of named arguments, in iteration order.
pub uninterp spec fn entries_of(m: LinkedHashMap<String, Value>) -> Seq<(Seq<char>, Value)>;

/// The position of the first entry whose key is `k`, or -1.
pub open spec fn key_index<V>(s: Seq<(Seq<char>, V)>, k: Seq<char>) -> int
    decreases s.len(),
{
    if s.len() == 0 {
        -1
    } else if s[0].0 == k {
        0
    } else {
        let i = key_index(s.drop_first(), k);
        if i < 0 { -1 } else { i + 1 }
    }
}

/// Relies on `LinkedHashMap::new`: a new map has no entries.
#[verifier::external_body]
pub(crate) fn new_named() -> (r: LinkedHashMap<String, Value>)
    ensures
        entries_of(r) == Seq::<(Seq<char>, Value)>::empty(),
{
    LinkedHashMap::new()
}

/// Relies on `LinkedHashMap::insert`: a new key is appended; an existing key
/// has its value replaced and moves to the end, and the old value is returned.
#[verifier::external_body]
pub(crate) fn insert_named(m: &mut LinkedHashMap<String, Value>, k: String, v: Value) -> (r: Option<Value>)
    ensures
        key_index(entries_of(*old(m)), k@) < 0 ==> r.is_none() && entries_of(*final(m))
            == entries_of(*old(m)).push((k@, v)),
        key_index(entries_of(*old(m)), k@) >= 0 ==> r == Some(
            entries_of(*old(m))[key_index(entries_of(*old(m)), k@)].1,
        ) && entries_of(*final(m)) == entries_of(*old(m)).remove(
            key_index(entries_of(*old(m)), k@),
        ).push((k@, v)),
{
    m.insert(k, v)
}

/// Relies on `LinkedHashMap::remove`: takes out the entry with key `k`, if
/// there is one, and keeps the order of the others.
#[verifier::external_body]
pub(crate) fn remove_named(m: &mut LinkedHashMap<String, Value>, k: &str) -> (r: Option<Value>)
    ensures
        key_index(entries_of(*old(m)), k@) < 0 ==> r.is_none() && entries_of(*final(m))
            == entries_of(*old(m)),
        key_index(entries_of(*old(m)), k@) >= 0 ==> r == Some(
            entries_of(*old(m))[key_index(entries_of(*old(m)), k@)].1,
        ) && entries_of(*final(m)) == entries_of(*old(m)).remove(
            key_index(entries_of(*old(m)), k@),
        ),
{
    m.remove(k)
}

/// Relies on `LinkedHashMap::is_empty`: true exactly when there are no entries.
#[verifier::external_body]
pub(crate) fn named_is_empty(m: &LinkedHashMap<String, Value>) -> (r: bool)
    ensures
        r == (entries_of(*m).len() == 0),
{
    m.is_empty()
}

/// Relies on `LinkedHashMap`'s `IntoIterator`: hands out the entries in order.
#[verifier::external_body]
pub(crate) fn named_into_entries(m: LinkedHashMap<String, Value>) -> (r: Vec<(String, Value)>)
    ensures
        r@.len() == entries_of(m).len(),
        forall|i: int|
            0 <= i < r@.len() ==> (#[trigger] r@[i]).0@ == entries_of(m)[i].0 && r@[i].1
                == entries_of(m)[i].1,
{
    m.into_iter().collect()
}

} // verus!

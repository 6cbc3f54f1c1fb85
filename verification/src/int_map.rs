use vstd::prelude::*;

use std::hash::BuildHasherDefault;

use nohash_hasher::{IntMap, IntSet, NoHashHasher};

verus! {

#[verifier::external_type_specification]
#[verifier::external_body]
#[verifier::reject_recursive_types(T)]
pub struct ExNoHashHasher<T>(NoHashHasher<T>);

#[verifier::external_type_specification]
#[verifier::external_body]
#[verifier::reject_recursive_types(H)]
pub struct ExBuildHasherDefault<H>(BuildHasherDefault<H>);

/// The map with no entries.
pub open spec fn no_entries<V>() -> Map<u32, V> {
    Map::empty()
}

/// `IntMap::default()`: an empty map.
#[verifier::external_body]
pub(crate) fn int_map_new<V>() -> (m: IntMap<u32, V>)
    ensures
        m@ == no_entries::<V>(),
{
    IntMap::default()
}

/// `HashMap::contains_key` on an `IntMap`: whether `k` has a value. A
/// `NoHashHasher` hashes a `u32` to itself, which the map's lookup only
/// needs to be deterministic.
#[verifier::external_body]
pub(crate) fn int_map_contains_key<V>(m: &IntMap<u32, V>, k: u32) -> (r: bool)
    ensures
        r == m@.contains_key(k),
{
    m.contains_key(&k)
}

/// `HashMap::get` on an `IntMap`: the value of `k`, if it has one.
#[verifier::external_body]
pub(crate) fn int_map_get<V>(m: &IntMap<u32, V>, k: u32) -> (r: Option<&V>)
    ensures
        match r {
            Some(v) => m@.contains_key(k) && *v == m@[k],
            None => !m@.contains_key(k),
        },
{
    m.get(&k)
}

/// `HashMap::insert` on an `IntMap`: `k` now has the value `v`; the old
/// value, if any, is dropped.
#[verifier::external_body]
pub(crate) fn int_map_insert<V>(m: &mut IntMap<u32, V>, k: u32, v: V)
    ensures
        final(m)@ == old(m)@.insert(k, v),
{
    m.insert(k, v);
}

/// `HashMap::remove` on an `IntMap`: takes out the value of `k`, if any.
#[verifier::external_body]
pub(crate) fn int_map_remove<V>(m: &mut IntMap<u32, V>, k: u32) -> (r: Option<V>)
    ensures
        final(m)@ == old(m)@.remove(k),
        old(m)@.contains_key(k) ==> r == Some(old(m)@[k]),
        !old(m)@.contains_key(k) ==> r is None,
{
    m.remove(&k)
}

/// `IntSet::default()`: an empty set.
#[verifier::external_body]
pub(crate) fn int_set_new() -> (s: IntSet<usize>)
    ensures
        s@ == Set::<usize>::empty(),
{
    IntSet::default()
}

/// `HashSet::contains` on an `IntSet`: whether `x` is in it.
#[verifier::external_body]
pub(crate) fn int_set_contains(s: &IntSet<usize>, x: usize) -> (r: bool)
    ensures
        r == s@.contains(x),
{
    s.contains(&x)
}

/// `HashSet::insert` on an `IntSet`: `x` is now in it.
#[verifier::external_body]
pub(crate) fn int_set_insert(s: &mut IntSet<usize>, x: usize)
    ensures
        final(s)@ == old(s)@.insert(x),
{
    s.insert(x);
}

} // verus!

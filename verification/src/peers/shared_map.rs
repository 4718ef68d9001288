//! A concurrent map from text to a pair of numbers.

use dashmap::DashMap;
use vstd::prelude::*;

use crate::node_map;

verus! {

/// The concurrent map of the `dashmap` crate.
#[verifier::external_type_specification]
#[verifier::external_body]
#[verifier::reject_recursive_types(K)]
#[verifier::reject_recursive_types(V)]
#[verifier::reject_recursive_types(S)]
pub struct ExDashMap<K, V, S>(DashMap<K, V, S>);

/// What the map holds.
pub uninterp spec fn pairs_in(m: DashMap<String, (u64, u64)>) -> Map<Seq<char>, (u64, u64)>;

/// `DashMap::new`: a map that holds nothing.
#[verifier::external_body]
pub(crate) fn map_new() -> (r: DashMap<String, (u64, u64)>)
    ensures
        pairs_in(r).is_empty(),
{
    DashMap::new()
}

/// `DashMap::insert`: the key has the value; what it had before is returned.
#[verifier::external_body]
pub(crate) fn map_insert(
    m: &mut DashMap<String, (u64, u64)>,
    key: String,
    value: (u64, u64),
) -> (r: Option<(u64, u64)>)
    ensures
        pairs_in(*final(m)) == pairs_in(*old(m)).insert(key@, value),
        r == pairs_in(*old(m)).get(key@),
{
    m.insert(key, value)
}

/// `DashMap::remove`: the key has no value; what it had before is returned.
#[verifier::external_body]
pub(crate) fn map_remove(m: &mut DashMap<String, (u64, u64)>, key: &String) -> (r: Option<
    (u64, u64),
>)
    ensures
        pairs_in(*final(m)) == pairs_in(*old(m)).remove(key@),
        r == pairs_in(*old(m)).get(key@),
{
    m.remove(key).map(|entry| entry.1)
}

/// `DashMap::get`: the value of the key, if it has one.
#[verifier::external_body]
pub(crate) fn map_get(m: &DashMap<String, (u64, u64)>, key: &String) -> (r: Option<(u64, u64)>)
    ensures
        r == pairs_in(*m).get(key@),
{
    m.get(key).map(|entry| *entry.value())
}

/// `DashMap::iter`: every entry, once. The order is left open.
#[verifier::external_body]
pub(crate) fn map_entries(m: &DashMap<String, (u64, u64)>) -> (r: Vec<(String, (u64, u64))>)
    ensures
        node_map::lists_map(r@, pairs_in(*m)),
{
    m.iter().map(|entry| (entry.key().clone(), *entry.value())).collect()
}

/// `DashMap::len`: how many keys have a value.
#[verifier::external_body]
pub(crate) fn map_len(m: &DashMap<String, (u64, u64)>) -> (r: usize)
    ensures
        r == pairs_in(*m).len(),
{
    m.len()
}

/// `DashMap::is_empty`: is there no entry?
#[verifier::external_body]
pub(crate) fn map_is_empty(m: &DashMap<String, (u64, u64)>) -> (r: bool)
    ensures
        r == pairs_in(*m).is_empty(),
{
    m.is_empty()
}

} // verus!

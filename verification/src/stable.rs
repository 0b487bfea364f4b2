//! Stable-memory maps from `u64` keys to byte records, kept in an
//! `ic_stable_structures` B-tree.
use vstd::prelude::*;

use ic_stable_structures::memory_manager::VirtualMemory;
use ic_stable_structures::DefaultMemoryImpl;
use ic_stable_structures::StableBTreeMap;

verus! {

/// A region of stable memory handed out by the canister's memory manager.
pub type Region = VirtualMemory<DefaultMemoryImpl>;

/// A stable B-tree from `u64` keys to byte records. The canister opens it over its
/// region of stable memory with `StableBTreeMap::init`.
#[verifier::external_body]
pub struct RecordMap {
    pub map: StableBTreeMap<u64, Vec<u8>, Region>,
}

/// What a record map holds.
pub uninterp spec fn records(m: RecordMap) -> Map<u64, Seq<u8>>;

/// `StableBTreeMap::get`: the record under `key`, if there is one.
#[verifier::external_body]
pub(crate) fn record_map_get(m: &RecordMap, key: u64) -> (r: Option<Vec<u8>>)
    ensures
        r is Some <==> records(*m).contains_key(key),
        r is Some ==> r->0@ == records(*m)[key],
{
    m.map.get(&key)
}

/// `StableBTreeMap::insert`: puts `value` under `key`, and gives back what was there.
#[verifier::external_body]
pub(crate) fn record_map_insert(m: &mut RecordMap, key: u64, value: Vec<u8>) -> (r: Option<Vec<u8>>)
    ensures
        records(*final(m)) == records(*old(m)).insert(key, value@),
        r is Some <==> records(*old(m)).contains_key(key),
        r is Some ==> r->0@ == records(*old(m))[key],
{
    m.map.insert(key, value)
}

/// `StableBTreeMap::remove`: takes out the record under `key`, and gives it back.
#[verifier::external_body]
pub(crate) fn record_map_remove(m: &mut RecordMap, key: u64) -> (r: Option<Vec<u8>>)
    ensures
        records(*final(m)) == records(*old(m)).remove(key),
        r is Some <==> records(*old(m)).contains_key(key),
        r is Some ==> r->0@ == records(*old(m))[key],
{
    m.map.remove(&key)
}

/// `StableBTreeMap::iter`: every entry, in increasing order of keys.
#[verifier::external_body]
pub(crate) fn record_map_entries(m: &RecordMap) -> (r: Vec<(u64, Vec<u8>)>)
    ensures
        forall|i: int, j: int| 0 <= i < j < r@.len() ==> r@[i].0 < r@[j].0,
        forall|i: int| 0 <= i < r@.len() ==> records(*m).contains_key(#[trigger] r@[i].0)
            && records(*m)[r@[i].0] == r@[i].1@,
        forall|k: u64| records(*m).contains_key(k) ==> exists|i: int| 0 <= i < r@.len() && #[trigger] r@[i].0 == k,
{
    m.map.iter().map(|e| e.into_pair()).collect()
}

} // verus!

//! The block cache of the index: block values by block id, each stamped with the time it
//! was cached, kept in stable memory.
use vstd::prelude::*;

use crate::bytes::{get_u64_le, lemma_u64_le_roundtrip, push_u64_le, read_u64_le, u64_le};
use crate::stable::{
    record_map_entries, record_map_get, record_map_insert, record_map_remove, records, RecordMap,
};

verus! {

/// A cached block value, with the time it was cached. The value is kept as the bytes of its
/// stable encoding.
#[derive(Clone, Debug)]
pub struct CacheEntry {
    pub timestamp: u64,
    pub value: Vec<u8>,
}

/// The record of an entry: the timestamp little-endian, then the value's bytes.
pub open spec fn cache_record(timestamp: u64, value: Seq<u8>) -> Seq<u8> {
    u64_le(timestamp) + value
}

/// The timestamp of a record.
pub open spec fn record_timestamp(b: Seq<u8>) -> u64 {
    read_u64_le(b, 0)
}

/// The value bytes of a record.
pub open spec fn record_value(b: Seq<u8>) -> Seq<u8> {
    b.subrange(8, b.len() as int)
}

/// Every record of the cache is long enough to hold a timestamp.
pub open spec fn cache_wf(m: Map<u64, Seq<u8>>) -> bool {
    forall|k: u64| #[trigger] m.contains_key(k) ==> m[k].len() >= 8
}

proof fn lemma_record_parts(timestamp: u64, value: Seq<u8>)
    ensures
        cache_record(timestamp, value).len() >= 8,
        record_timestamp(cache_record(timestamp, value)) == timestamp,
        record_value(cache_record(timestamp, value)) == value,
{
    let b = cache_record(timestamp, value);
    lemma_u64_le_roundtrip(timestamp);
    assert(b.subrange(0, 8) =~= u64_le(timestamp));
    assert(read_u64_le(b, 0) == read_u64_le(u64_le(timestamp), 0));
    assert(record_value(b) =~= value);
}

impl CacheEntry {
    /// The stored record of this entry.
    pub fn to_bytes(&self) -> (b: Vec<u8>)
        ensures
            b@ == cache_record(self.timestamp, self.value@),
    {
        let mut buffer: Vec<u8> = Vec::new();
        push_u64_le(&mut buffer, self.timestamp);
        let mut i: usize = 0;
        let ghost start = buffer@;
        while i < self.value.len()
            invariant
                i <= self.value@.len(),
                start == u64_le(self.timestamp),
                buffer@ == start + self.value@.subrange(0, i as int),
            decreases self.value@.len() - i,
        {
            buffer.push(self.value[i]);
            i = i + 1;
            assert(buffer@ =~= start + self.value@.subrange(0, i as int));
        }
        assert(self.value@.subrange(0, self.value@.len() as int) =~= self.value@);
        buffer
    }

    /// Reads an entry back from its record.
    pub fn from_bytes(bytes: &[u8]) -> (e: CacheEntry)
        requires
            bytes@.len() >= 8,
        ensures
            e.timestamp == record_timestamp(bytes@),
            e.value@ == record_value(bytes@),
    {
        let timestamp = get_u64_le(bytes, 0);
        let mut value: Vec<u8> = Vec::new();
        let mut i: usize = 8;
        while i < bytes.len()
            invariant
                8 <= i <= bytes@.len(),
                value@ == bytes@.subrange(8, i as int),
            decreases bytes@.len() - i,
        {
            value.push(bytes[i]);
            i = i + 1;
            assert(value@ =~= bytes@.subrange(8, i as int));
        }
        CacheEntry { timestamp, value }
    }
}

/// Whether every record of the cache holds a timestamp, as the other functions of this
/// module require.
pub fn cache_records_valid(cache: &RecordMap) -> (r: bool)
    ensures
        r == cache_wf(records(*cache)),
{
    let entries = record_map_entries(cache);
    let mut i: usize = 0;
    while i < entries.len()
        invariant
            i <= entries@.len(),
            forall|j: int| 0 <= j < i ==> (#[trigger] entries@[j]).1@.len() >= 8,
            forall|j: int| 0 <= j < entries@.len() ==> records(*cache).contains_key(#[trigger] entries@[j].0)
                && records(*cache)[entries@[j].0] == entries@[j].1@,
            forall|k: u64| records(*cache).contains_key(k) ==> exists|j: int| 0 <= j < entries@.len() && #[trigger] entries@[j].0 == k,
        decreases entries@.len() - i,
    {
        if entries[i].1.len() < 8 {
            proof {
                let k = entries@[i as int].0;
                assert(records(*cache).contains_key(k));
            }
            return false;
        }
        i = i + 1;
    }
    proof {
        assert forall|k: u64| #[trigger] records(*cache).contains_key(k) implies records(*cache)[k].len() >= 8 by {
            let j = choose|j: int| 0 <= j < entries@.len() && #[trigger] entries@[j].0 == k;
            assert(entries@[j].1@.len() >= 8);
        }
    }
    true
}

/// The cached value of block `key`, if there is one.
pub fn try_get_value(cache: &RecordMap, key: u64) -> (r: Option<Vec<u8>>)
    requires
        cache_wf(records(*cache)),
    ensures
        r is Some <==> records(*cache).contains_key(key),
        r matches Some(v) ==> v@ == record_value(records(*cache)[key]),
{
    match record_map_get(cache, key) {
        Some(bytes) => Some(CacheEntry::from_bytes(bytes.as_slice()).value),
        None => None,
    }
}

/// The cached value of block `key` with the time it was cached, if there is one.
pub fn try_get_value_with_timestamp(cache: &RecordMap, key: u64) -> (r: Option<(u64, Vec<u8>)>)
    requires
        cache_wf(records(*cache)),
    ensures
        r is Some <==> records(*cache).contains_key(key),
        r matches Some(p) ==> p.0 == record_timestamp(records(*cache)[key]) && p.1@ == record_value(records(*cache)[key]),
{
    match record_map_get(cache, key) {
        Some(bytes) => {
            let entry = CacheEntry::from_bytes(bytes.as_slice());
            Some((entry.timestamp, entry.value))
        },
        None => None,
    }
}

/// The cache without the entries cached before `timestamp`.
pub open spec fn keep_since(m: Map<u64, Seq<u8>>, timestamp: u64) -> Map<u64, Seq<u8>> {
    Map::new(|k: u64| m.contains_key(k) && record_timestamp(m[k]) >= timestamp, |k: u64| m[k])
}

/// Removes every entry cached before `timestamp`. Always answers `true`.
pub fn remove_all_values_older_than(cache: &mut RecordMap, timestamp: &u64) -> (r: bool)
    requires
        cache_wf(records(*old(cache))),
    ensures
        r,
        records(*final(cache)) == keep_since(records(*old(cache)), *timestamp),
        cache_wf(records(*final(cache))),
{
    let ghost start = records(*cache);
    let entries = record_map_entries(cache);
    let mut i: usize = 0;
    while i < entries.len()
        invariant
            i <= entries@.len(),
            forall|a: int, b: int| 0 <= a < b < entries@.len() ==> entries@[a].0 < entries@[b].0,
            forall|j: int| 0 <= j < entries@.len() ==> start.contains_key(#[trigger] entries@[j].0)
                && start[entries@[j].0] == entries@[j].1@,
            forall|k: u64| start.contains_key(k) ==> exists|j: int| 0 <= j < entries@.len() && #[trigger] entries@[j].0 == k,
            cache_wf(start),
            records(*cache) == Map::new(
                |k: u64| start.contains_key(k) && !(exists|j: int| 0 <= j < i && #[trigger] entries@[j].0 == k
                    && record_timestamp(entries@[j].1@) < *timestamp),
                |k: u64| start[k],
            ),
        decreases entries@.len() - i,
    {
        let ghost before = records(*cache);
        let key = entries[i].0;
        let stamp = get_u64_le(entries[i].1.as_slice(), 0);
        if stamp < *timestamp {
            record_map_remove(cache, key);
        }
        proof {
            let after = Map::new(
                |k: u64| start.contains_key(k) && !(exists|j: int| 0 <= j < i + 1 && #[trigger] entries@[j].0 == k
                    && record_timestamp(entries@[j].1@) < *timestamp),
                |k: u64| start[k],
            );
            assert forall|k: u64| #[trigger] records(*cache).contains_key(k) <==> after.contains_key(k) by {
                if exists|j: int| 0 <= j < i + 1 && #[trigger] entries@[j].0 == k && record_timestamp(entries@[j].1@) < *timestamp {
                    let j = choose|j: int| 0 <= j < i + 1 && #[trigger] entries@[j].0 == k && record_timestamp(entries@[j].1@) < *timestamp;
                    if j < i {
                    } else {
                        assert(k == key);
                    }
                }
                if k == key && stamp < *timestamp {
                    assert(entries@[i as int].0 == k);
                }
                if k == key && !(stamp < *timestamp) {
                    if exists|j: int| 0 <= j < i + 1 && #[trigger] entries@[j].0 == k && record_timestamp(entries@[j].1@) < *timestamp {
                        let j = choose|j: int| 0 <= j < i + 1 && #[trigger] entries@[j].0 == k && record_timestamp(entries@[j].1@) < *timestamp;
                        if j < i {
                            assert(entries@[j].0 < entries@[i as int].0);
                        }
                    }
                }
            }
            assert(records(*cache) =~= after);
        }
        i = i + 1;
    }
    proof {
        let fin = records(*cache);
        let goal = keep_since(start, *timestamp);
        assert forall|k: u64| #[trigger] fin.contains_key(k) <==> goal.contains_key(k) by {
            if start.contains_key(k) {
                let j = choose|j: int| 0 <= j < entries@.len() && #[trigger] entries@[j].0 == k;
                assert(entries@[j].1@ == start[k]);
            }
        }
        assert(fin =~= goal);
    }
    true
}

/// Caches `value` for block `key`, stamped with `now`.
pub fn insert_value(cache: &mut RecordMap, key: u64, value: Vec<u8>, now: u64)
    requires
        cache_wf(records(*old(cache))),
    ensures
        records(*final(cache)) == records(*old(cache)).insert(key, cache_record(now, value@)),
        cache_wf(records(*final(cache))),
{
    let entry = CacheEntry { timestamp: now, value };
    let bytes = entry.to_bytes();
    proof {
        lemma_record_parts(now, entry.value@);
    }
    record_map_insert(cache, key, bytes);
}

/// Removes the cached value of block `key`.
pub fn remove_value(cache: &mut RecordMap, key: u64)
    requires
        cache_wf(records(*old(cache))),
    ensures
        records(*final(cache)) == records(*old(cache)).remove(key),
        cache_wf(records(*final(cache))),
{
    record_map_remove(cache, key);
}

/// What an entry cached at `now` gives back: the same value and time.
pub proof fn law_cached_value_read_back(timestamp: u64, value: Seq<u8>)
    ensures
        record_timestamp(cache_record(timestamp, value)) == timestamp,
        record_value(cache_record(timestamp, value)) == value,
{
    lemma_record_parts(timestamp, value);
}

/// A call that changes the cache, as its effect on the records: `insert_value(key, value,
/// now)`, `remove_value(key)`, or `remove_all_values_older_than(timestamp)`.
pub ghost enum CacheOp {
    Insert(u64, Seq<u8>, u64),
    Remove(u64),
    RemoveOlderThan(u64),
}

/// The records after one call, as that function's contract states it.
pub open spec fn apply_cache_op(m: Map<u64, Seq<u8>>, op: CacheOp) -> Map<u64, Seq<u8>> {
    match op {
        CacheOp::Insert(key, value, now) => m.insert(key, cache_record(now, value)),
        CacheOp::Remove(key) => m.remove(key),
        CacheOp::RemoveOlderThan(timestamp) => keep_since(m, timestamp),
    }
}

/// The records after a sequence of calls, one after another.
pub open spec fn apply_cache_ops(m: Map<u64, Seq<u8>>, ops: Seq<CacheOp>) -> Map<u64, Seq<u8>>
    decreases ops.len(),
{
    if ops.len() == 0 {
        m
    } else {
        apply_cache_op(apply_cache_ops(m, ops.drop_last()), ops.last())
    }
}

/// The call leaves the entry of `key`, cached at `cached_at`, in place: it is no insert or
/// removal of `key`, and no cleanup of entries older than a time after `cached_at`.
pub open spec fn spares_entry(op: CacheOp, key: u64, cached_at: u64) -> bool {
    match op {
        CacheOp::Insert(k, _, _) => k != key,
        CacheOp::Remove(k) => k != key,
        CacheOp::RemoveOlderThan(timestamp) => timestamp <= cached_at,
    }
}

/// A value cached for `key` at `now` is read back, by `try_get_value` and
/// `try_get_value_with_timestamp` alike, with that value and time after any later calls that
/// neither insert nor remove `key` and clean up nothing cached at or after `now`; the records
/// stay readable by every function of this module all along.
pub proof fn law_cache_read_back(m: Map<u64, Seq<u8>>, key: u64, value: Seq<u8>, now: u64, later: Seq<CacheOp>)
    requires
        cache_wf(m),
        forall|i: int| 0 <= i < later.len() ==> spares_entry(#[trigger] later[i], key, now),
    ensures
        ({
            let fin = apply_cache_ops(apply_cache_op(m, CacheOp::Insert(key, value, now)), later);
            &&& cache_wf(fin)
            &&& fin.contains_key(key)
            &&& record_timestamp(fin[key]) == now
            &&& record_value(fin[key]) == value
        }),
    decreases later.len(),
{
    lemma_record_parts(now, value);
    if later.len() > 0 {
        let init = later.drop_last();
        assert forall|i: int| 0 <= i < init.len() implies spares_entry(#[trigger] init[i], key, now) by {
            assert(init[i] == later[i]);
        }
        law_cache_read_back(m, key, value, now, init);
        let p = apply_cache_ops(apply_cache_op(m, CacheOp::Insert(key, value, now)), init);
        assert(spares_entry(later[later.len() - 1], key, now));
        match later.last() {
            CacheOp::Insert(k, v, t) => {
                lemma_record_parts(t, v);
            },
            CacheOp::Remove(k) => {},
            CacheOp::RemoveOlderThan(timestamp) => {
                assert(keep_since(p, timestamp).contains_key(key));
            },
        }
    }
}

} // verus!

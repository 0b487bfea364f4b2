//! Planning of a block fetch: which blocks the cache already holds, and the ranges of
//! consecutive ids to ask the ledger for.
use vstd::prelude::*;

use crate::blocks::{chunk_views, group_consecutive_block_ids, maximal_runs};
use crate::cache::{cache_record, cache_wf, insert_value, record_value, try_get_value};
use crate::index::{ascending, BlockWithId, SortBy};
use crate::stable::{records, RecordMap};
use crate::value::{limb_base, Nat};

verus! {

/// The ids of `ids` that the cache does not hold, in order.
pub open spec fn uncached_ids(m: Map<u64, Seq<u8>>, ids: Seq<u64>) -> Seq<u64> {
    ids.filter(|id: u64| !m.contains_key(id))
}

/// The ids of `ids` that the cache holds, in order.
pub open spec fn cached_ids(m: Map<u64, Seq<u8>>, ids: Seq<u64>) -> Seq<u64> {
    ids.filter(|id: u64| m.contains_key(id))
}

/// What to do for a list of block ids.
pub struct FetchPlan {
    /// The blocks found in the cache, with the bytes of their values, in the order asked.
    pub cached: Vec<(u64, Vec<u8>)>,
    /// The ranges `(start, length)` of consecutive ids to fetch, in ascending order.
    pub ranges: Vec<(u64, u64)>,
}

/// The ranges of a list of runs.
pub open spec fn ranges_of(runs: Seq<Seq<u64>>) -> Seq<(u64, u64)> {
    runs.map_values(|c: Seq<u64>| (c[0], c.len() as u64))
}

/// Sorting the uncached ids gives a list that can be split into runs: at most one of them is
/// `u64::MAX`.
pub open spec fn fetchable(m: Map<u64, Seq<u8>>, ids: Seq<u64>) -> bool {
    forall|j: int| 0 <= j < ascending(uncached_ids(m, ids)).len() - 1 ==> ascending(uncached_ids(m, ids))[j] < u64::MAX
}

/// Plans the fetch of `block_ids`: the cached blocks in the order asked, and the uncached ids,
/// sorted and split into runs of consecutive ids, as ranges to fetch.
pub fn plan_block_fetch(cache: &RecordMap, block_ids: &Vec<u64>) -> (plan: FetchPlan)
    requires
        cache_wf(records(*cache)),
        fetchable(records(*cache), block_ids@),
    ensures
        plan.cached@.len() == cached_ids(records(*cache), block_ids@).len(),
        forall|i: int| 0 <= i < plan.cached@.len() ==> (#[trigger] plan.cached@[i]).0 == cached_ids(records(*cache), block_ids@)[i]
            && plan.cached@[i].1@ == record_value(records(*cache)[plan.cached@[i].0]),
        exists|runs: Seq<Seq<u64>>| #![trigger maximal_runs(runs)]
            maximal_runs(runs) && runs.flatten() == ascending(uncached_ids(records(*cache), block_ids@))
                && plan.ranges@ == ranges_of(runs),
{
    let ghost m = records(*cache);
    let mut cached: Vec<(u64, Vec<u8>)> = Vec::new();
    let mut uncached: Vec<u64> = Vec::new();
    let mut i: usize = 0;
    proof {
        reveal_with_fuel(Seq::<u64>::filter, 1);
        assert(block_ids@.take(0) =~= Seq::<u64>::empty());
    }
    while i < block_ids.len()
        invariant
            i <= block_ids@.len(),
            m == records(*cache),
            cache_wf(m),
            uncached@ == uncached_ids(m, block_ids@.take(i as int)),
            cached@.len() == cached_ids(m, block_ids@.take(i as int)).len(),
            forall|k: int| 0 <= k < cached@.len() ==> (#[trigger] cached@[k]).0 == cached_ids(m, block_ids@.take(i as int))[k]
                && cached@[k].1@ == record_value(m[cached@[k].0]),
        decreases block_ids@.len() - i,
    {
        let id = block_ids[i];
        proof {
            reveal_with_fuel(Seq::<u64>::filter, 1);
            assert(block_ids@.take(i + 1).drop_last() =~= block_ids@.take(i as int));
        }
        match try_get_value(cache, id) {
            Some(v) => {
                cached.push((id, v));
            },
            None => {
                uncached.push(id);
            },
        }
        i = i + 1;
    }
    proof {
        assert(block_ids@.take(block_ids@.len() as int) =~= block_ids@);
    }
    let ghost unsorted = uncached@;
    crate::index::sort_ids_ascending(&mut uncached);
    let chunks = group_consecutive_block_ids(uncached.as_slice());
    let mut ranges: Vec<(u64, u64)> = Vec::new();
    let mut k: usize = 0;
    let ghost runs = chunk_views(chunks@);
    while k < chunks.len()
        invariant
            k <= chunks@.len(),
            runs == chunk_views(chunks@),
            maximal_runs(runs),
            ranges@ == ranges_of(runs).take(k as int),
        decreases chunks@.len() - k,
    {
        assert(crate::blocks::is_run(runs[k as int]));
        let start = chunks[k][0];
        let length = chunks[k].len() as u64;
        ranges.push((start, length));
        k = k + 1;
        assert(ranges@ =~= ranges_of(runs).take(k as int));
    }
    proof {
        assert(ranges_of(runs).take(chunks@.len() as int) =~= ranges_of(runs));
        assert(maximal_runs(runs));
    }
    FetchPlan { cached, ranges }
}

/// The cache after storing fetched blocks in turn, those whose id fits in a `u64`, stamped
/// with `now`.
pub open spec fn cached_after(m: Map<u64, Seq<u8>>, fetched: Seq<(Nat, Vec<u8>)>, now: u64) -> Map<u64, Seq<u8>>
    decreases fetched.len(),
{
    if fetched.len() == 0 {
        m
    } else {
        let before = cached_after(m, fetched.drop_last(), now);
        let (id, bytes) = fetched.last();
        if id.value() < limb_base() {
            before.insert(id.value() as u64, cache_record(now, bytes@))
        } else {
            before
        }
    }
}

/// Stores fetched blocks (their ids and the bytes of their values) in the cache, those whose
/// id fits in a `u64`.
pub fn cache_fetched_blocks(cache: &mut RecordMap, fetched: &Vec<(Nat, Vec<u8>)>, now: u64)
    requires
        cache_wf(records(*old(cache))),
    ensures
        cache_wf(records(*final(cache))),
        records(*final(cache)) == cached_after(records(*old(cache)), fetched@, now),
{
    let ghost start = records(*cache);
    let mut i: usize = 0;
    while i < fetched.len()
        invariant
            i <= fetched@.len(),
            cache_wf(records(*cache)),
            records(*cache) == cached_after(start, fetched@.take(i as int), now),
        decreases fetched@.len() - i,
    {
        proof {
            assert(fetched@.take(i + 1).drop_last() =~= fetched@.take(i as int));
            assert(fetched@.take(i + 1).last() == fetched@[i as int]);
        }
        match fetched[i].0.to_u64() {
            Some(id) => {
                insert_value(cache, id, crate::account::copy_bytes(&fetched[i].1), now);
            },
            None => {},
        }
        i = i + 1;
    }
    proof {
        assert(fetched@.take(fetched@.len() as int) =~= fetched@);
    }
}

/// `r` holds the blocks of `orig`, each once, as `perm` picks them, ordered by id (ascending,
/// or descending), blocks with the same id in their original order.
pub open spec fn ordered_by_id(r: Seq<BlockWithId>, orig: Seq<BlockWithId>, perm: Seq<int>, sort_by: Option<SortBy>) -> bool {
    let descending = sort_by == Some(SortBy::Descending);
    &&& perm.len() == r.len()
    &&& r.len() == orig.len()
    &&& forall|j: int| 0 <= j < r.len() ==> 0 <= #[trigger] perm[j] < orig.len() && r[j] == orig[perm[j]]
    &&& forall|a: int, b: int| 0 <= a < b < r.len() ==> #[trigger] perm[a] != #[trigger] perm[b]
    &&& forall|a: int, b: int|
        0 <= a < b < r.len() ==> {
            let ka = (#[trigger] r[a]).id.value();
            let kb = (#[trigger] r[b]).id.value();
            (if descending { ka > kb } else { ka < kb }) || (ka == kb && perm[a] < perm[b])
        }
}

/// Whether block `a` goes before block `b` that is already placed: its id comes strictly
/// first in the order asked for.
fn goes_before(a: &BlockWithId, b: &BlockWithId, descending: bool) -> (r: bool)
    ensures
        r == (if descending { a.id.value() > b.id.value() } else { b.id.value() > a.id.value() }),
{
    if descending {
        a.id.greater_than(&b.id)
    } else {
        b.id.greater_than(&a.id)
    }
}

/// Orders blocks by id: ascending unless `Descending` is asked for; blocks with the same id
/// keep their order.
pub fn order_blocks(blocks: Vec<BlockWithId>, sort_by: Option<SortBy>) -> (r: Vec<BlockWithId>)
    ensures
        exists|perm: Seq<int>| #[trigger] ordered_by_id(r@, blocks@, perm, sort_by),
{
    let descending = match sort_by {
        Some(SortBy::Descending) => true,
        _ => false,
    };
    let ghost orig = blocks@;
    let n = blocks.len();
    let mut rest = blocks;
    let mut out: Vec<BlockWithId> = Vec::new();
    let ghost mut perm: Seq<int> = Seq::empty();
    let mut k: usize = 0;
    while k < n
        invariant
            n == orig.len(),
            k <= n,
            rest@ == orig.subrange(k as int, n as int),
            out@.len() == k,
            perm.len() == k,
            forall|j: int| 0 <= j < out@.len() ==> 0 <= #[trigger] perm[j] < k && out@[j] == orig[perm[j]],
            forall|a: int, b: int| 0 <= a < b < out@.len() ==> #[trigger] perm[a] != #[trigger] perm[b],
            forall|a: int, b: int|
                0 <= a < b < out@.len() ==> {
                    let ka = (#[trigger] out@[a]).id.value();
                    let kb = (#[trigger] out@[b]).id.value();
                    (if descending { ka > kb } else { ka < kb }) || (ka == kb && perm[a] < perm[b])
                },
        decreases n - k,
    {
        let ghost rest_before = rest@;
        let b = rest.remove(0);
        proof {
            assert(rest_before[0] == orig[k as int]);
            assert(rest@ =~= orig.subrange(k + 1, n as int));
        }
        let mut p: usize = 0;
        while p < out.len() && !goes_before(&b, &out[p], descending)
            invariant
                p <= out@.len(),
                forall|j: int| 0 <= j < p ==> if descending {
                    b.id.value() <= (#[trigger] out@[j]).id.value()
                } else {
                    out@[j].id.value() <= b.id.value()
                },
            decreases out@.len() - p,
        {
            p = p + 1;
        }
        let ghost old_out = out@;
        let ghost old_perm = perm;
        out.insert(p, b);
        proof {
            perm = old_perm.insert(p as int, k as int);
            assert forall|j: int| 0 <= j < out@.len() implies 0 <= #[trigger] perm[j] < k + 1 && out@[j] == orig[perm[j]] by {
                if j < p {
                    assert(out@[j] == old_out[j] && perm[j] == old_perm[j]);
                } else if j > p {
                    assert(out@[j] == old_out[j - 1] && perm[j] == old_perm[j - 1]);
                }
            }
            assert forall|a: int, b2: int| 0 <= a < b2 < out@.len() implies #[trigger] perm[a] != #[trigger] perm[b2] by {
                if a < p && b2 < p {
                    assert(perm[a] == old_perm[a] && perm[b2] == old_perm[b2]);
                } else if a < p && b2 == p {
                    assert(perm[a] == old_perm[a]);
                } else if a < p && b2 > p {
                    assert(perm[a] == old_perm[a] && perm[b2] == old_perm[b2 - 1]);
                } else if a == p {
                    assert(perm[b2] == old_perm[b2 - 1]);
                } else {
                    assert(perm[a] == old_perm[a - 1] && perm[b2] == old_perm[b2 - 1]);
                }
            }
            assert forall|a: int, b2: int| 0 <= a < b2 < out@.len() implies {
                let ka = (#[trigger] out@[a]).id.value();
                let kb = (#[trigger] out@[b2]).id.value();
                (if descending { ka > kb } else { ka < kb }) || (ka == kb && perm[a] < perm[b2])
            } by {
                if a < p && b2 < p {
                    assert(out@[a] == old_out[a] && out@[b2] == old_out[b2]);
                    assert(perm[a] == old_perm[a] && perm[b2] == old_perm[b2]);
                } else if a < p && b2 == p {
                    assert(out@[a] == old_out[a] && perm[a] == old_perm[a]);
                } else if a < p && b2 > p {
                    assert(out@[a] == old_out[a] && out@[b2] == old_out[b2 - 1]);
                    assert(perm[a] == old_perm[a] && perm[b2] == old_perm[b2 - 1]);
                } else if a == p {
                    assert(out@[b2] == old_out[b2 - 1]);
                    assert(p < old_out.len());
                    let kp = old_out[p as int].id.value();
                    assert(if descending { b.id.value() > kp } else { kp > b.id.value() });
                    if b2 - 1 > p {
                        assert(old_out[p as int] == out@[p + 1]);
                    }
                } else {
                    assert(out@[a] == old_out[a - 1] && out@[b2] == old_out[b2 - 1]);
                    assert(perm[a] == old_perm[a - 1] && perm[b2] == old_perm[b2 - 1]);
                }
            }
        }
        k = k + 1;
    }
    proof {
        assert(ordered_by_id(out@, orig, perm, sort_by));
    }
    out
}

} // verus!

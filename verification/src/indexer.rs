//! The index canister's jobs: which run and how often, and the indexing of a fetched batch of
//! blocks.
use vstd::prelude::*;

use crate::blocks::TransactionDataExtractor;
use crate::index::{add_block_to_index, index_block_type, index_keys, indexable, prepend_all, read_block_type, BlockWithId, Index, IndexKey};

verus! {

/// A minute, in milliseconds (the value of `bity_ic_canister_time::MINUTE_IN_MS`).
pub const MINUTE_IN_MS: u64 = 60_000;

/// A day, in milliseconds (the value of `bity_ic_canister_time::DAY_IN_MS`).
pub const DAY_IN_MS: u64 = 86_400_000;

/// How often the index is brought up to date, in milliseconds.
pub const UPDATE_INDEX_INTERVAL: u64 = MINUTE_IN_MS;

/// How many blocks one update asks for.
pub const BLOCK_BATCH_SIZE: u64 = 100;

/// A job the canister runs at intervals.
#[derive(Clone, Copy, Debug, PartialEq, Eq, Structural)]
pub enum Job {
    /// Drops the cached blocks older than the current time.
    CleanupCache,
    /// Indexes the blocks after the last one indexed.
    UpdateIndex,
}

/// The state of the index canister's jobs.
#[derive(Debug)]
pub struct IndexerState {
    /// The id of the next block to index.
    pub last_block_id: u64,
    /// An update of the index is running.
    pub update_in_progress: bool,
}

/// The jobs to start, each with its interval in milliseconds.
pub open spec fn job_schedule() -> Seq<(u64, Job)> {
    seq![(DAY_IN_MS, Job::CleanupCache), (UPDATE_INDEX_INTERVAL, Job::UpdateIndex)]
}

/// The jobs to start: the cleanup of the cache every day and the update of the index every
/// minute.
pub fn start_job() -> (r: Vec<(u64, Job)>)
    ensures
        r@ == job_schedule(),
{
    let mut r: Vec<(u64, Job)> = Vec::new();
    r.push((DAY_IN_MS, Job::CleanupCache));
    r.push((UPDATE_INDEX_INTERVAL, Job::UpdateIndex));
    assert(r@ =~= job_schedule());
    r
}

/// Sets up the canister: its state as given, and the jobs to start.
pub fn init_canister(runtime_state: IndexerState) -> (r: (IndexerState, Vec<(u64, Job)>))
    ensures
        r.0 == runtime_state,
        r.1@ == job_schedule(),
{
    (runtime_state, start_job())
}

/// Starts an update of the index unless one is running: says whether it started.
pub fn begin_index_update(state: &mut IndexerState) -> (r: bool)
    ensures
        r == !old(state).update_in_progress,
        final(state).update_in_progress,
        final(state).last_block_id == old(state).last_block_id,
{
    if state.update_in_progress {
        return false;
    }
    state.update_in_progress = true;
    true
}

/// Ends an update of the index: the next block to index is `next_block_id`.
pub fn finish_index_update(state: &mut IndexerState, next_block_id: u64)
    ensures
        !final(state).update_in_progress,
        final(state).last_block_id == next_block_id,
{
    state.last_block_id = next_block_id;
    state.update_in_progress = false;
}

/// The ids an update asks for: `BLOCK_BATCH_SIZE` of them from `last_block_id` on.
pub fn update_batch_ids(last_block_id: u64) -> (r: Vec<u64>)
    requires
        last_block_id + BLOCK_BATCH_SIZE <= u64::MAX,
    ensures
        r@.len() == BLOCK_BATCH_SIZE,
        forall|i: int| 0 <= i < r@.len() ==> #[trigger] r@[i] == last_block_id + i,
{
    let mut r: Vec<u64> = Vec::new();
    let mut i: u64 = 0;
    while i < BLOCK_BATCH_SIZE
        invariant
            last_block_id + BLOCK_BATCH_SIZE <= u64::MAX,
            i <= BLOCK_BATCH_SIZE,
            r@.len() == i,
            forall|j: int| 0 <= j < i ==> #[trigger] r@[j] == last_block_id + j,
        decreases BLOCK_BATCH_SIZE - i,
    {
        r.push(last_block_id + i);
        i = i + 1;
    }
    r
}

/// The block can be filed: its kind can be read and its numbers fit in a `u64`.
pub open spec fn fileable(block: BlockWithId) -> bool {
    indexable(block) && index_block_type(block.block) is Ok
}

/// Whether a block can be filed.
pub fn block_fileable(block: &BlockWithId) -> (r: bool)
    ensures
        r == fileable(*block),
{
    let b = match read_block_type(&block.block) {
        Ok(b) => b,
        Err(_) => {
            return false;
        },
    };
    if block.id.to_u64().is_none() {
        return false;
    }
    match b.extract_token_id(&block.block) {
        Ok(Some(t)) => t.0.to_u64().is_some(),
        _ => true,
    }
}

/// The index after filing `blocks` in turn, each a fileable block.
pub open spec fn filed(m: Map<IndexKey, Seq<u64>>, blocks: Seq<BlockWithId>) -> Map<IndexKey, Seq<u64>>
    decreases blocks.len(),
{
    if blocks.len() == 0 {
        m
    } else {
        let b = blocks.last();
        match index_block_type(b.block) {
            Ok(t) => prepend_all(filed(m, blocks.drop_last()), index_keys(t, b.block), b.id.value() as u64),
            Err(_) => filed(m, blocks.drop_last()),
        }
    }
}

/// Files the fetched blocks in turn, up to the first one that cannot be filed, and gives the
/// id of the next block to index: `last_block_id` advanced by the number filed.
pub fn index_blocks(index: &mut Index, blocks: &Vec<BlockWithId>, last_block_id: u64) -> (r: u64)
    requires
        old(index).wf(),
        last_block_id + blocks@.len() <= u64::MAX,
    ensures
        final(index).wf(),
        last_block_id <= r <= last_block_id + blocks@.len(),
        forall|i: int| 0 <= i < r - last_block_id ==> fileable(#[trigger] blocks@[i]),
        r - last_block_id < blocks@.len() ==> !fileable(blocks@[r - last_block_id]),
        final(index)@ == filed(old(index)@, blocks@.take(r - last_block_id)),
{
    let ghost start = index@;
    let mut i: usize = 0;
    let mut next = last_block_id;
    while i < blocks.len()
        invariant
            index.wf(),
            last_block_id + blocks@.len() <= u64::MAX,
            i <= blocks@.len(),
            next == last_block_id + i,
            forall|j: int| 0 <= j < i ==> fileable(#[trigger] blocks@[j]),
            index@ == filed(start, blocks@.take(i as int)),
            start == old(index)@,
        decreases blocks@.len() - i,
    {
        if !block_fileable(&blocks[i]) {
            return next;
        }
        let added = add_block_to_index(index, &blocks[i]);
        proof {
            assert(blocks@.take(i + 1).drop_last() =~= blocks@.take(i as int));
            assert(blocks@.take(i + 1).last() == blocks@[i as int]);
        }
        if added.is_err() {
            return next;
        }
        i = i + 1;
        next = next + 1;
    }
    proof {
        assert(blocks@.take(blocks@.len() as int) =~= blocks@);
    }
    next
}

} // verus!

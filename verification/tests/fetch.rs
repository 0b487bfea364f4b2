use core_nft::cache::{insert_value, remove_all_values_older_than, remove_value, try_get_value, try_get_value_with_timestamp};
use core_nft::fetch::{cache_fetched_blocks, order_blocks, plan_block_fetch};
use core_nft::index::{BlockWithId, SortBy};
use core_nft::stable::{RecordMap, Region};
use core_nft::value::{Nat, Value};
use ic_stable_structures::memory_manager::{MemoryId, MemoryManager};
use ic_stable_structures::{DefaultMemoryImpl, StableBTreeMap};

fn fresh_map() -> RecordMap {
    let manager = MemoryManager::init(DefaultMemoryImpl::default());
    let memory: Region = manager.get(MemoryId::new(1));
    RecordMap { map: StableBTreeMap::init(memory) }
}

fn block(id: u64, tag: &str) -> BlockWithId {
    BlockWithId { id: Nat::from_u64(id), block: Value::Text(tag.to_string()) }
}

fn tag(b: &BlockWithId) -> String {
    match &b.block {
        Value::Text(t) => t.clone(),
        _ => panic!("text expected"),
    }
}

#[test]
fn cached_values_read_back_with_their_time() {
    let mut cache = fresh_map();
    insert_value(&mut cache, 3, vec![9, 8], 100);
    assert_eq!(try_get_value(&cache, 3), Some(vec![9, 8]));
    assert_eq!(try_get_value_with_timestamp(&cache, 3), Some((100, vec![9, 8])));
    assert_eq!(try_get_value(&cache, 4), None);
    remove_value(&mut cache, 3);
    assert_eq!(try_get_value(&cache, 3), None);
}

#[test]
fn old_values_are_dropped() {
    let mut cache = fresh_map();
    insert_value(&mut cache, 1, vec![1], 10);
    insert_value(&mut cache, 2, vec![2], 20);
    remove_all_values_older_than(&mut cache, &15);
    assert_eq!(try_get_value(&cache, 1), None);
    assert_eq!(try_get_value(&cache, 2), Some(vec![2]));
}

#[test]
fn fetch_plan_splits_cached_and_missing_blocks() {
    let mut cache = fresh_map();
    insert_value(&mut cache, 5, vec![5], 1);
    let plan = plan_block_fetch(&cache, &vec![7, 5, 2, 3, 9]);
    assert_eq!(plan.cached, vec![(5, vec![5])]);
    assert_eq!(plan.ranges, vec![(2, 2), (7, 1), (9, 1)]);
}

#[test]
fn fetched_blocks_are_cached() {
    let mut cache = fresh_map();
    let huge = Nat { limbs: vec![1, 1] };
    cache_fetched_blocks(&mut cache, &vec![(Nat::from_u64(4), vec![4]), (huge, vec![0])], 50);
    assert_eq!(try_get_value_with_timestamp(&cache, 4), Some((50, vec![4])));
    assert_eq!(try_get_value(&cache, 1), None);
}

#[test]
fn blocks_are_ordered_by_id_keeping_ties() {
    let blocks = vec![block(3, "a"), block(1, "b"), block(3, "c"), block(2, "d")];
    let asc: Vec<String> = order_blocks(blocks, None).iter().map(tag).collect();
    assert_eq!(asc, vec!["b", "d", "a", "c"]);
    let blocks = vec![block(3, "a"), block(1, "b"), block(3, "c"), block(2, "d")];
    let desc: Vec<String> = order_blocks(blocks, Some(SortBy::Descending)).iter().map(tag).collect();
    assert_eq!(desc, vec!["a", "c", "d", "b"]);
    let blocks = vec![block(2, "x"), block(1, "y")];
    let asc: Vec<String> = order_blocks(blocks, Some(SortBy::Ascending)).iter().map(tag).collect();
    assert_eq!(asc, vec!["y", "x"]);
}

#[test]
fn a_cached_value_survives_calls_that_spare_it() {
    let mut cache = fresh_map();
    insert_value(&mut cache, 7, vec![4, 2], 50);
    insert_value(&mut cache, 8, vec![1], 10);
    remove_value(&mut cache, 9);
    remove_all_values_older_than(&mut cache, &50);
    insert_value(&mut cache, 8, vec![5], 60);
    remove_value(&mut cache, 8);
    assert_eq!(try_get_value(&cache, 7), Some(vec![4, 2]));
    assert_eq!(try_get_value_with_timestamp(&cache, 7), Some((50, vec![4, 2])));
    assert_eq!(try_get_value(&cache, 8), None);
    remove_all_values_older_than(&mut cache, &51);
    assert_eq!(try_get_value(&cache, 7), None);
}

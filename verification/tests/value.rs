use core_nft::sorted::{text_before, SortedMap};
use core_nft::value::Nat;

#[test]
fn comparing_numbers_of_any_size() {
    let small = Nat::from_u64(5);
    let big = Nat { limbs: vec![0, 1] };
    let padded = Nat { limbs: vec![5, 0, 0] };
    assert!(big.greater_than(&small));
    assert!(!small.greater_than(&big));
    assert!(!padded.greater_than(&small));
    assert!(!small.greater_than(&padded));
    assert!(big.at_least_wide(1u128 << 64));
    assert!(!big.at_least_wide((1u128 << 64) + 1));
    assert!(small.at_least(5));
    assert!(!small.at_least(6));
    assert_eq!(padded.to_u64(), Some(5));
    assert_eq!(big.to_u64(), None);
}

#[test]
fn text_order_is_that_of_strings() {
    assert!(text_before("a", "b"));
    assert!(text_before("a", "ab"));
    assert!(!text_before("ab", "a"));
    assert!(!text_before("same", "same"));
    assert!(text_before("Z", "a"));
    assert!(text_before("é", "ë"));
}

#[test]
fn sorted_map_keeps_keys_in_order() {
    let mut m: SortedMap<u64, Vec<u8>> = SortedMap::new();
    assert!(m.insert(5, vec![5]).is_none());
    assert!(m.insert(1, vec![1]).is_none());
    assert_eq!(m.insert(5, vec![6]), Some(vec![5]));
    let keys: Vec<u64> = m.entries.iter().map(|(k, _)| *k).collect();
    assert_eq!(keys, vec![1, 5]);
    assert_eq!(m.get(&5), Some(&vec![6]));
    assert_eq!(m.remove(&1), Some(vec![1]));
    assert_eq!(m.get(&1), None);
    assert_eq!(m.len(), 1);
}

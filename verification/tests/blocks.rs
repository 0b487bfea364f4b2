use core_nft::blocks::group_consecutive_block_ids;

#[test]
fn test_group_consecutive_block_ids_empty() {
    let block_ids: Vec<u64> = vec![];
    let chunks = group_consecutive_block_ids(&block_ids);
    assert_eq!(chunks, Vec::<Vec<u64>>::new());
}

#[test]
fn test_group_consecutive_block_ids_single() {
    let block_ids = vec![42];
    let chunks = group_consecutive_block_ids(&block_ids);
    assert_eq!(chunks, vec![vec![42]]);
}

#[test]
fn test_group_consecutive_block_ids_all_consecutive() {
    let block_ids = vec![1, 2, 3, 4, 5];
    let chunks = group_consecutive_block_ids(&block_ids);
    assert_eq!(chunks, vec![vec![1, 2, 3, 4, 5]]);
}

#[test]
fn test_group_consecutive_block_ids_no_consecutive() {
    let block_ids = vec![1, 3, 5, 7, 9];
    let chunks = group_consecutive_block_ids(&block_ids);
    assert_eq!(chunks, vec![vec![1], vec![3], vec![5], vec![7], vec![9]]);
}

#[test]
fn test_group_consecutive_block_ids_mixed() {
    let block_ids = vec![1, 2, 3, 5, 6, 8, 9, 10];
    let chunks = group_consecutive_block_ids(&block_ids);
    assert_eq!(chunks, vec![vec![1, 2, 3], vec![5, 6], vec![8, 9, 10]]);
}

#[test]
fn test_group_consecutive_block_ids_gaps() {
    let block_ids = vec![1, 2, 5, 6, 7, 10, 11, 15];
    let chunks = group_consecutive_block_ids(&block_ids);
    assert_eq!(
        chunks,
        vec![vec![1, 2], vec![5, 6, 7], vec![10, 11], vec![15]]
    );
}

#[test]
fn test_group_consecutive_block_ids_large_numbers() {
    let block_ids = vec![1000, 1001, 1002, 2000, 2001, 3000];
    let chunks = group_consecutive_block_ids(&block_ids);
    assert_eq!(
        chunks,
        vec![vec![1000, 1001, 1002], vec![2000, 2001], vec![3000]]
    );
}

#[test]
fn test_group_consecutive_block_ids_edge_cases() {
    let block_ids = vec![0, 1, 2, 3];
    let chunks = group_consecutive_block_ids(&block_ids);
    assert_eq!(chunks, vec![vec![0, 1, 2, 3]]);
}

#[test]
fn test_group_consecutive_block_ids_reverse_order() {
    let block_ids = vec![5, 4, 3, 2, 1];
    let chunks = group_consecutive_block_ids(&block_ids);
    assert_eq!(chunks, vec![vec![5], vec![4], vec![3], vec![2], vec![1]]);
}

#[test]
fn group_keeps_last_id_at_the_top_of_the_range() {
    let block_ids = vec![u64::MAX - 1, u64::MAX];
    let chunks = group_consecutive_block_ids(&block_ids);
    assert_eq!(chunks, vec![vec![u64::MAX - 1, u64::MAX]]);
}

#[test]
fn group_splits_repeated_ids() {
    let block_ids = vec![3, 3, 4];
    let chunks = group_consecutive_block_ids(&block_ids);
    assert_eq!(chunks, vec![vec![3], vec![3, 4]]);
}

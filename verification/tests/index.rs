use core_nft::blocks::{BlockType, TransactionDataExtractor};
use core_nft::index::{
    add_block_to_index, select_block_ids, unfiltered_block_ids, BlockWithId, Index, IndexType, SortBy,
};
use core_nft::account::Account;
use core_nft::value::{Nat, Value};

fn text(s: &str) -> Value {
    Value::Text(s.to_string())
}

fn transfer_block(from: &str, to: &str, tid: u64) -> Value {
    Value::Dict(vec![
        ("btype".to_string(), text("7xfer")),
        ("timestamp".to_string(), Value::Nat(Nat::from_u64(42))),
        (
            "tx".to_string(),
            Value::Dict(vec![
                ("from".to_string(), text(from)),
                ("to".to_string(), text(to)),
                ("tid".to_string(), Value::Nat(Nat::from_u64(tid))),
            ]),
        ),
    ])
}

#[test]
fn block_type_tags_are_read_whatever_their_case() {
    assert!(matches!(BlockType::from_str("7XFER"), Ok(BlockType::Transfer(_))));
    assert!(matches!(BlockType::from_str("37Approve_Coll"), Ok(BlockType::CollectionApprove(_))));
    assert!(matches!(BlockType::from_str("7update_token"), Ok(BlockType::UpdateTokenMetadata(_))));
    match BlockType::from_str("7Swap") {
        Err(e) => assert_eq!(e, "Unknown block type: 7Swap"),
        Ok(_) => panic!("an unknown tag is refused"),
    }
    let b = BlockType::from_str("37REVOKE").unwrap();
    assert_eq!(b.to_string(), "37revoke");
}

#[test]
fn accounts_written_as_text_are_read() {
    let data = transfer_block("2vxsx-fae", "aaaaa-aa", 5);
    let b = BlockType::from_str("7xfer").unwrap();
    let accounts = b.extract_accounts(&data).unwrap();
    assert_eq!(accounts.len(), 2);
    assert_eq!(accounts[0].owner, vec![4u8]);
    assert_eq!(accounts[0].subaccount, None);
    assert_eq!(accounts[1].owner, Vec::<u8>::new());
    let bad = transfer_block("not an account", "aaaaa-aa", 5);
    assert_eq!(b.extract_accounts(&bad).unwrap().len(), 1);
    assert_eq!(b.extract_token_id(&data).unwrap().unwrap().0.to_u64(), Some(5));
    assert_eq!(b.extract_timestamp(&data), Ok(42));
    assert!(matches!(b.extract_block_type(&data), Ok(BlockType::Transfer(_))));
}

#[test]
fn blocks_are_filed_newest_first_under_each_key() {
    let mut index = Index::new();
    let first = BlockWithId { id: Nat::from_u64(1), block: transfer_block("2vxsx-fae", "aaaaa-aa", 5) };
    let second = BlockWithId { id: Nat::from_u64(2), block: transfer_block("aaaaa-aa", "2vxsx-fae", 5) };
    assert!(add_block_to_index(&mut index, &first).is_ok());
    assert!(add_block_to_index(&mut index, &second).is_ok());
    let anonymous = Account { owner: vec![4u8], subaccount: None };
    assert_eq!(index.get(&IndexType::Account(anonymous)), vec![2, 1]);
    assert_eq!(index.get(&IndexType::BlockType("7xfer".to_string())), vec![2, 1]);
    assert_eq!(index.get(&IndexType::TokenId(5)), vec![2, 1]);
    assert_eq!(index.get(&IndexType::TokenId(6)), Vec::<u64>::new());
    let unreadable = BlockWithId {
        id: Nat::from_u64(3),
        block: Value::Dict(vec![("btype".to_string(), text("7swap"))]),
    };
    assert_eq!(add_block_to_index(&mut index, &unreadable), Err("Unknown block type: 7swap".to_string()));
    assert_eq!(index.get(&IndexType::TokenId(5)), vec![2, 1]);
}

#[test]
fn filtered_queries_keep_the_common_ids_sorted_and_paged() {
    let results = vec![vec![5u64, 3, 9, 1], vec![9u64, 1, 3, 7]];
    assert_eq!(select_block_ids(&results, 0, 10, SortBy::Ascending), vec![1, 3, 9]);
    assert_eq!(select_block_ids(&results, 0, 10, SortBy::Descending), vec![9, 3, 1]);
    assert_eq!(select_block_ids(&results, 1, 1, SortBy::Ascending), vec![3]);
    assert_eq!(select_block_ids(&results, 5, 2, SortBy::Ascending), Vec::<u64>::new());
    assert_eq!(select_block_ids(&Vec::new(), 0, 2, SortBy::Ascending), Vec::<u64>::new());
}

#[test]
fn unfiltered_queries_list_a_range_of_ids() {
    assert_eq!(unfiltered_block_ids(4, 3, SortBy::Ascending, 10), vec![4, 5, 6]);
    assert_eq!(unfiltered_block_ids(4, 3, SortBy::Descending, 10), vec![7, 8, 9]);
    assert_eq!(unfiltered_block_ids(0, 3, SortBy::Descending, 2), vec![0, 1, 2]);
}

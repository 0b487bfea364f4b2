use core_nft::account::Account;
use core_nft::collection::{commit_mint, MintRequest};
use core_nft::ledger::Ledger;
use core_nft::metadata::{
    debug_metadata_entry, debug_metadata_ids, debug_metadata_snapshot, finish_update_nft_metadata,
    plan_update_nft_metadata, token_metadata, Metadata, UpdateNftMetadataError,
};
use core_nft::value::{copy_value, Nat, Value};

fn text(s: &str) -> Value {
    Value::Text(s.to_string())
}

fn as_text(v: &Value) -> &str {
    match v {
        Value::Text(t) => t.as_str(),
        _ => panic!("not a text"),
    }
}

#[test]
fn read_back_what_was_filed() {
    let mut m = Metadata::new();
    m.insert_data(Some(3), "name".to_string(), text("first"));
    m.insert_data(Some(3), "name".to_string(), text("second"));
    m.insert_data(None, "name".to_string(), text("collection"));
    assert_eq!(as_text(&m.get_data(Some(3), &"name".to_string()).unwrap()), "second");
    assert_eq!(as_text(&m.get_data(None, &"name".to_string()).unwrap()), "collection");
    assert_eq!(as_text(&m.get_data(Some(0), &"name".to_string()).unwrap()), "collection");
    assert_eq!(m.get_data(Some(3), &"other".to_string()).unwrap_err(), "Data not found");
    assert_eq!(m.get_data(Some(4), &"name".to_string()).unwrap_err(), "Data not found");
}

#[test]
fn listings_are_in_key_order() {
    let mut m = Metadata::new();
    m.insert_data(Some(1), "b".to_string(), text("2"));
    m.insert_data(Some(1), "a".to_string(), text("1"));
    m.insert_data(Some(1), "ab".to_string(), text("3"));
    let l = m.get_all_data(Some(1)).unwrap();
    let keys: Vec<&str> = l.iter().map(|(k, _)| k.as_str()).collect();
    assert_eq!(keys, vec!["a", "ab", "b"]);
    assert_eq!(m.get_all_data(Some(2)).unwrap_err(), "Data not found");
}

#[test]
fn merged_listing_prefers_later_ids() {
    let mut m = Metadata::new();
    m.insert_data(Some(7), "k".to_string(), text("seven"));
    m.insert_data(Some(2), "k".to_string(), text("two"));
    m.insert_data(Some(2), "j".to_string(), text("j"));
    let l = m.get_all_data(None).unwrap();
    assert_eq!(l.len(), 2);
    assert_eq!(l[0].0, "j");
    assert_eq!(l[1].0, "k");
    assert_eq!(as_text(&l[1].1), "seven");
    assert_eq!(m.get_all_nfts_ids(), vec![2, 7]);
}

#[test]
fn update_needs_an_entry_and_gives_the_old_value() {
    let mut m = Metadata::new();
    assert_eq!(m.update_data(Some(1), "k".to_string(), text("v")).unwrap_err(), "Data not found");
    m.insert_data(Some(1), "k".to_string(), text("old"));
    let previous = m.update_data(Some(1), "k".to_string(), text("new")).unwrap();
    assert_eq!(as_text(&previous.unwrap()), "old");
    assert!(m.update_data(Some(1), "fresh".to_string(), text("x")).unwrap().is_none());
    assert_eq!(as_text(&m.get_data(Some(1), &"k".to_string()).unwrap()), "new");
}

#[test]
fn delete_leaves_the_store_as_it_is() {
    let mut m = Metadata::new();
    m.insert_data(Some(1), "k".to_string(), text("v"));
    m.delete_data(Some(1), &"k".to_string());
    assert_eq!(as_text(&m.get_data(Some(1), &"k".to_string()).unwrap()), "v");
}

#[test]
fn replace_keeps_only_the_new_values() {
    let mut m = Metadata::new();
    m.insert_data(Some(1), "old".to_string(), text("x"));
    m.replace_all_data(Some(1), vec![("a".to_string(), text("1")), ("a".to_string(), text("2"))]);
    let l = m.get_all_data(Some(1)).unwrap();
    assert_eq!(l.len(), 1);
    assert_eq!(as_text(&l[0].1), "2");
    m.replace_all_data(Some(1), Vec::new());
    assert!(m.get_all_data(Some(1)).is_err());
}

#[test]
fn from_files_under_the_collection() {
    let m = Metadata::from(vec![("x".to_string(), Value::Nat(Nat::from_u64(3)))]);
    assert_eq!(m.get_all_nfts_ids(), vec![0]);
    assert!(Metadata::from(Vec::new()).get_all_nfts_ids().is_empty());
}

fn one_token_ledger(owner: &Account) -> Ledger {
    let mut ledger = Ledger::new(1);
    let requests = vec![MintRequest { token_owner: owner.clone(), memo: None, metadata: Vec::new() }];
    commit_mint(&mut ledger, &mut Metadata::new(), &requests, Ok(())).unwrap();
    ledger
}

#[test]
fn update_nft_metadata_logs_previous_and_new() {
    let caller = vec![8u8, 8];
    let owner = Account { owner: vec![1], subaccount: None };
    let ledger = one_token_ledger(&owner);
    let mut m = Metadata::new();
    m.insert_data(Some(1), "name".to_string(), text("before"));
    assert!(matches!(
        plan_update_nft_metadata(&ledger, &mut m, 9, vec![], &caller, 5),
        Err(UpdateNftMetadataError::TokenDoesNotExist)
    ));
    let tx = plan_update_nft_metadata(&ledger, &mut m, 1, vec![("name".to_string(), text("after"))], &caller, 5).unwrap();
    assert_eq!(tx.btype, "7update_token");
    assert_eq!(tx.tid, Some(1));
    assert_eq!(tx.from.as_ref().unwrap().owner, caller);
    match tx.meta.as_ref().unwrap() {
        Value::Dict(d) => {
            assert_eq!(d[0].0, "icrc7:new_metadata");
            assert_eq!(d[1].0, "icrc7:previous_metadata");
            match (&d[0].1, &d[1].1) {
                (Value::Dict(new), Value::Dict(prev)) => {
                    assert_eq!(as_text(&new[0].1), "after");
                    assert_eq!(as_text(&prev[0].1), "before");
                },
                _ => panic!("listings expected"),
            }
        },
        _ => panic!("a dictionary expected"),
    }
    assert_eq!(as_text(&token_metadata(&m, 1)[0].1), "after");
    assert_eq!(finish_update_nft_metadata(1, Ok(())).unwrap(), 1);
    assert!(matches!(
        finish_update_nft_metadata(1, Err("down".to_string())),
        Err(UpdateNftMetadataError::StorageCanisterError(e)) if e == "down"
    ));
}

#[test]
fn diagnostics() {
    let owner = Account { owner: vec![1], subaccount: None };
    let ledger = one_token_ledger(&owner);
    let mut m = Metadata::new();
    for id in 0..12u64 {
        m.insert_data(Some(id), "k".to_string(), text("v"));
    }
    let (sample, total) = debug_metadata_ids(&m);
    assert_eq!(total, 12);
    assert_eq!(sample, (0..10).collect::<Vec<u64>>());
    let entry = debug_metadata_entry(&m, 3);
    assert_eq!(entry.keys, vec!["k".to_string()]);
    assert!(entry.error.is_none());
    assert_eq!(debug_metadata_entry(&m, 30).error.unwrap(), "Data not found");
    let snap = debug_metadata_snapshot(&ledger, &m, 2);
    assert!(!snap.token_exists);
    assert_eq!(snap.clone_view.error.unwrap(), "Token not found");
    assert!(snap.direct_view.error.is_none());
    let snap = debug_metadata_snapshot(&ledger, &m, 1);
    assert!(snap.token_exists);
    assert_eq!(snap.clone_view.keys, vec!["k".to_string()]);
}

#[test]
fn copies_are_equal_in_shape() {
    let v = Value::Array(vec![text("a"), Value::Dict(vec![("n".to_string(), Value::Nat(Nat::from_u64(3)))])]);
    let c = copy_value(&v);
    assert_eq!(format!("{:?}", c), format!("{:?}", v));
}

#[test]
fn mint_files_the_metadata_of_each_token() {
    let mut ledger = Ledger::new(3);
    let mut metadata = Metadata::new();
    let owner = Account { owner: vec![7u8], subaccount: None };
    let requests = vec![
        MintRequest {
            token_owner: owner.clone(),
            memo: None,
            metadata: vec![("name".to_string(), text("first")), ("name".to_string(), text("second"))],
        },
        MintRequest { token_owner: owner.clone(), memo: None, metadata: Vec::new() },
        MintRequest { token_owner: owner.clone(), memo: None, metadata: vec![("icrc97:metadata".to_string(), text("u"))] },
    ];
    assert_eq!(commit_mint(&mut ledger, &mut metadata, &requests, Ok(())).unwrap(), 3);
    assert_eq!(metadata.get_all_nfts_ids(), vec![3, 5]);
    match metadata.get_data(Some(3), &"name".to_string()) {
        Ok(Value::Text(t)) => assert_eq!(t, "second"),
        _ => panic!("the name of token 3 is filed"),
    }
    assert!(metadata.get_all_data(Some(4)).is_err());
    match metadata.get_data(Some(5), &"icrc97:metadata".to_string()) {
        Ok(Value::Text(t)) => assert_eq!(t, "u"),
        _ => panic!("the metadata of token 5 is filed"),
    }
}

#[test]
fn mint_files_metadata_even_where_the_log_refuses() {
    let mut ledger = Ledger::new(1);
    let mut metadata = Metadata::new();
    let requests = vec![MintRequest {
        token_owner: Account { owner: vec![7u8], subaccount: None },
        memo: None,
        metadata: vec![("name".to_string(), text("n"))],
    }];
    assert!(commit_mint(&mut ledger, &mut metadata, &requests, Err("log full".to_string())).is_err());
    assert!(ledger.owner_of(1).is_none());
    assert_eq!(metadata.get_all_nfts_ids(), vec![1]);
}

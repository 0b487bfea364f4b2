use core_nft::collection::{
    icrc7_atomic_batch_transfers, icrc7_collection_metadata, icrc7_default_take_value, icrc7_description, icrc7_logo,
    icrc7_max_memo_size, icrc7_max_query_batch_size, icrc7_max_take_value, icrc7_max_update_batch_size, icrc7_name,
    icrc7_permitted_drift, icrc7_supply_cap, icrc7_symbol, icrc7_tx_window, update_collection_metadata,
    CollectionConfig, UpdateCollectionMetadataArgs,
};
use core_nft::value::{Nat, Value};

fn config() -> CollectionConfig {
    CollectionConfig {
        symbol: "SYM".to_string(),
        name: "Name".to_string(),
        description: Some("first".to_string()),
        logo: None,
        supply_cap: Some(Nat::from_u64(10)),
        max_query_batch_size: None,
        max_update_batch_size: None,
        max_take_value: None,
        default_take_value: None,
        max_memo_size: None,
        atomic_batch_transfers: Some(true),
        tx_window: None,
        permitted_drift: None,
        max_canister_storage_threshold: None,
        is_prod: false,
    }
}

fn empty_request() -> UpdateCollectionMetadataArgs {
    UpdateCollectionMetadataArgs {
        description: None,
        symbol: None,
        name: None,
        logo: None,
        supply_cap: None,
        max_query_batch_size: None,
        max_update_batch_size: None,
        max_take_value: None,
        default_take_value: None,
        max_memo_size: None,
        atomic_batch_transfers: None,
        tx_window: None,
        permitted_drift: None,
        max_canister_storage_threshold: None,
        collection_metadata: None,
        is_prod: None,
    }
}

#[test]
fn only_the_given_settings_change() {
    let mut c = config();
    let mut req = empty_request();
    req.name = Some("New".to_string());
    req.logo = Some("logo.png".to_string());
    req.is_prod = Some(true);
    update_collection_metadata(&mut c, req);
    assert_eq!(c.name, "New");
    assert_eq!(c.symbol, "SYM");
    assert_eq!(c.logo.as_deref(), Some("logo.png"));
    assert_eq!(c.description.as_deref(), Some("first"));
    assert!(c.is_prod);
    update_collection_metadata(&mut c, empty_request());
    assert_eq!(c.name, "New");
}

#[test]
fn collection_metadata_is_listed_by_key() {
    let c = config();
    let l = icrc7_collection_metadata(&c, &Nat::from_u64(3));
    let keys: Vec<&str> = l.iter().map(|(k, _)| k.as_str()).collect();
    assert_eq!(
        keys,
        vec![
            "icrc7:atomic_batch_transfers",
            "icrc7:description",
            "icrc7:name",
            "icrc7:supply_cap",
            "icrc7:symbol",
            "icrc7:total_supply",
        ]
    );
    match &l[0].1 {
        Value::Text(t) => assert_eq!(t, "true"),
        _ => panic!("text expected"),
    }
    match &l[5].1 {
        Value::Nat(n) => assert_eq!(n.to_u64(), Some(3)),
        _ => panic!("number expected"),
    }
}

#[test]
fn collection_metadata_with_every_setting_is_sorted_by_key() {
    let c = CollectionConfig {
        symbol: "SYM".to_string(),
        name: "Name".to_string(),
        description: Some("d".to_string()),
        logo: Some("l".to_string()),
        supply_cap: Some(Nat::from_u64(10)),
        max_query_batch_size: Some(Nat::from_u64(1)),
        max_update_batch_size: Some(Nat::from_u64(2)),
        max_take_value: Some(Nat::from_u64(3)),
        default_take_value: Some(Nat::from_u64(4)),
        max_memo_size: Some(Nat::from_u64(5)),
        atomic_batch_transfers: Some(false),
        tx_window: Some(Nat::from_u64(6)),
        permitted_drift: Some(Nat::from_u64(7)),
        max_canister_storage_threshold: None,
        is_prod: false,
    };
    let l = icrc7_collection_metadata(&c, &Nat::from_u64(0));
    assert_eq!(l.len(), 14);
    let keys: Vec<String> = l.iter().map(|(k, _)| k.clone()).collect();
    let mut sorted = keys.clone();
    sorted.sort();
    sorted.dedup();
    assert_eq!(keys, sorted);
}

#[test]
fn collection_getters_read_the_settings() {
    let c = config();
    assert_eq!(icrc7_symbol(&c), "SYM");
    assert_eq!(icrc7_name(&c), "Name");
    assert_eq!(icrc7_description(&c).as_deref(), Some("first"));
    assert_eq!(icrc7_logo(&c), None);
    assert_eq!(icrc7_supply_cap(&c).and_then(|n| n.to_u64()), Some(10));
    assert!(icrc7_max_query_batch_size(&c).is_none());
    assert!(icrc7_max_update_batch_size(&c).is_none());
    assert!(icrc7_default_take_value(&c).is_none());
    assert!(icrc7_max_take_value(&c).is_none());
    assert!(icrc7_max_memo_size(&c).is_none());
    assert_eq!(icrc7_atomic_batch_transfers(&c), Some(true));
    assert!(icrc7_tx_window(&c).is_none());
    assert!(icrc7_permitted_drift(&c).is_none());
}

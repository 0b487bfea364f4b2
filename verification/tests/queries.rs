use core_nft::account::Account;
use core_nft::collection::{commit_mint, CollectionConfig, MintRequest};
use core_nft::ledger::Ledger;
use core_nft::metadata::Metadata;
use core_nft::queries::{
    icrc7_balance_of, icrc7_owner_of, icrc7_tokens, icrc7_tokens_of, query_batch_allowed, take_allowed,
    QueryDefaults,
};
use core_nft::value::Nat;

fn account(b: u8) -> Account {
    Account { owner: vec![b, 9], subaccount: None }
}

fn config() -> CollectionConfig {
    CollectionConfig {
        symbol: "S".to_string(),
        name: "N".to_string(),
        description: None,
        logo: None,
        supply_cap: None,
        max_query_batch_size: None,
        max_update_batch_size: None,
        max_take_value: None,
        default_take_value: None,
        max_memo_size: None,
        atomic_batch_transfers: None,
        tx_window: None,
        permitted_drift: None,
        max_canister_storage_threshold: None,
        is_prod: false,
    }
}

fn defaults() -> QueryDefaults {
    QueryDefaults { max_query_batch_size: 3, take_value: 2, max_take_value: 4 }
}

/// Tokens 0..6: even ones to account 1, odd ones to account 2.
fn ledger() -> Ledger {
    let mut ledger = Ledger::new(0);
    let requests: Vec<MintRequest> = (0..6u8)
        .map(|i| MintRequest { token_owner: account(1 + i % 2), memo: None, metadata: Vec::new() })
        .collect();
    commit_mint(&mut ledger, &mut Metadata::new(), &requests, Ok(())).unwrap();
    ledger
}

#[test]
fn owner_of_answers_each_token() {
    let l = ledger();
    let r = icrc7_owner_of(&l, &config(), &defaults(), &vec![0, 1, 42]);
    assert_eq!(r.len(), 3);
    assert_eq!(r[0].as_ref().unwrap().owner, account(1).owner);
    assert_eq!(r[1].as_ref().unwrap().owner, account(2).owner);
    assert!(r[2].is_none());
}

#[test]
fn balance_counts_the_tokens_held() {
    let l = ledger();
    let r = icrc7_balance_of(&l, &config(), &defaults(), &vec![account(1), account(2), account(7)]);
    assert_eq!(r, vec![3, 3, 0]);
}

#[test]
fn tokens_pages_skip_id_zero_and_chain() {
    let l = ledger();
    let c = config();
    let d = defaults();
    // Without a bound, ids above 0 are listed, two per page by default.
    assert_eq!(icrc7_tokens(&l, &c, &d, &None, &None), vec![1, 2]);
    assert_eq!(icrc7_tokens(&l, &c, &d, &Some(Nat::from_u64(2)), &None), vec![3, 4]);
    assert_eq!(icrc7_tokens(&l, &c, &d, &Some(Nat::from_u64(4)), &Some(Nat::from_u64(4))), vec![5]);
    assert_eq!(icrc7_tokens(&l, &c, &d, &Some(Nat::from_u64(0)), &Some(Nat::from_u64(4))), vec![1, 2, 3, 4]);
}

#[test]
fn tokens_of_lists_an_accounts_tokens() {
    let l = ledger();
    let c = config();
    let d = defaults();
    assert_eq!(icrc7_tokens_of(&l, &c, &d, &account(1), &None, &Some(Nat::from_u64(4))), vec![2, 4]);
    assert_eq!(icrc7_tokens_of(&l, &c, &d, &account(2), &Some(Nat::from_u64(1)), &None), vec![3, 5]);
    assert_eq!(icrc7_tokens_of(&l, &c, &d, &account(7), &None, &None), Vec::<u64>::new());
}

#[test]
fn query_limits() {
    let mut c = config();
    let d = defaults();
    assert!(query_batch_allowed(3, &c, &d));
    assert!(!query_batch_allowed(4, &c, &d));
    c.max_query_batch_size = Some(Nat::from_u64(10));
    assert!(query_batch_allowed(10, &c, &d));
    c.max_query_batch_size = Some(Nat { limbs: vec![0, 0, 1] });
    assert!(!query_batch_allowed(4, &c, &d));
    assert!(take_allowed(&None, &c, &d));
    assert!(take_allowed(&Some(Nat::from_u64(4)), &c, &d));
    assert!(!take_allowed(&Some(Nat::from_u64(5)), &c, &d));
    c.max_take_value = Some(Nat { limbs: vec![0, 2] });
    assert!(take_allowed(&Some(Nat { limbs: vec![7, 1] }), &c, &d));
    assert!(!take_allowed(&Some(Nat { limbs: vec![1, 2] }), &c, &d));
}

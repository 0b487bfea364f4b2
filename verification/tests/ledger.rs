use core_nft::account::{is_anonymous_account, same_account, Account};
use core_nft::metadata::Metadata;
use core_nft::collection::{
    commit_burn_nft, commit_mint, plan_burn_nft, plan_mint, BurnNftError, CollectionConfig, MintError,
    MintRequest,
};
use core_nft::ledger::{
    commit_revoke_collection_approvals, plan_revoke_collection_approvals, ApproveCollectionError,
    RevokeCollectionApprovalArg, RevokeCollectionApprovalError,
    commit_approve_collection, commit_approve_token, commit_revoke_token_approvals, commit_transfer_from,
    plan_approve_collection, plan_approve_token, plan_revoke_token_approvals, plan_transfer_from,
    revoke_batch_size, verify_approval_timing, ApprovalDefaults, ApprovalInfo, ApprovalSettings,
    ApproveCollectionArg, ApproveTokenArg, ApproveTokenError, Ledger, RevokeTokenApprovalArg,
    RevokeTokenApprovalError, TransactionLogError, TransferFromArg, TransferFromError,
};
use core_nft::value::Nat;

fn account(b: u8) -> Account {
    Account { owner: vec![b, 1, 2], subaccount: None }
}

fn number(x: u64) -> Nat {
    Nat::from_u64(x)
}

fn config() -> CollectionConfig {
    CollectionConfig {
        symbol: "SYM".to_string(),
        name: "Name".to_string(),
        description: None,
        logo: None,
        supply_cap: None,
        max_query_batch_size: None,
        max_update_batch_size: None,
        max_take_value: None,
        default_take_value: None,
        max_memo_size: None,
        atomic_batch_transfers: None,
        tx_window: None,
        permitted_drift: None,
        max_canister_storage_threshold: None,
        is_prod: false,
    }
}

fn settings() -> ApprovalSettings {
    ApprovalSettings {
        permitted_drift: None,
        tx_window: None,
        max_approvals_per_token_or_collection: None,
        max_revoke_approvals: None,
    }
}

fn defaults() -> ApprovalDefaults {
    ApprovalDefaults {
        permitted_drift: 120_000_000_000,
        tx_window: 86_400_000_000_000,
        max_approvals_per_token_or_collection: 10,
    }
}

fn request(owner: Account) -> MintRequest {
    MintRequest { token_owner: owner, memo: Some(b"memo".to_vec()), metadata: Vec::new() }
}

fn minted_ledger(owners: Vec<Account>) -> Ledger {
    let mut ledger = Ledger::new(1);
    let requests: Vec<MintRequest> = owners.into_iter().map(request).collect();
    let memo_ok = vec![true; requests.len()];
    let plan = plan_mint(&ledger, &config(), &requests, &memo_ok, &number(10_000), 1_000);
    assert!(plan.is_ok());
    assert_eq!(commit_mint(&mut ledger, &mut Metadata::new(), &requests, Ok(())).unwrap(), 1);
    ledger
}

fn approval(spender: Account, now: u64) -> ApprovalInfo {
    ApprovalInfo { spender, from_subaccount: None, expires_at: None, memo: None, created_at_time: now }
}

#[test]
fn mint_numbers_tokens_from_the_next_id() {
    let ledger = Ledger::new(5);
    let requests = vec![request(account(1)), request(account(2))];
    let txs = plan_mint(&ledger, &config(), &requests, &vec![true, true], &number(10), 77).unwrap();
    assert_eq!(txs.len(), 2);
    assert_eq!(txs[0].btype, "7mint");
    assert_eq!(txs[0].tid, Some(5));
    assert_eq!(txs[1].tid, Some(6));
    assert_eq!(txs[1].created_at_time, Some(77));
    assert_eq!(txs[1].to.as_ref().unwrap().owner, account(2).owner);
    let mut ledger = ledger;
    assert_eq!(commit_mint(&mut ledger, &mut Metadata::new(), &requests, Ok(())).unwrap(), 5);
    assert_eq!(ledger.owner_of(5).unwrap().owner, account(1).owner);
    assert_eq!(ledger.owner_of(6).unwrap().owner, account(2).owner);
    assert!(ledger.owner_of(7).is_none());
    assert_eq!(ledger.last_token_id, 7);
}

#[test]
fn mint_refusals() {
    let ledger = Ledger::new(1);
    let requests = vec![request(account(1)), request(account(2))];
    let mut small_batch = config();
    small_batch.max_update_batch_size = Some(number(1));
    assert!(matches!(
        plan_mint(&ledger, &small_batch, &requests, &vec![true, true], &number(10), 1),
        Err(MintError::ExceedMaxAllowedSupplyCap)
    ));
    assert!(matches!(
        plan_mint(&ledger, &config(), &requests, &vec![true, true], &number(1), 1),
        Err(MintError::ExceedMaxAllowedSupplyCap)
    ));
    assert!(matches!(
        plan_mint(&ledger, &config(), &requests, &vec![true, false], &number(10), 1),
        Err(MintError::InvalidMemo)
    ));
    let mut ledger = ledger;
    match commit_mint(&mut ledger, &mut Metadata::new(), &requests, Err("log full".to_string())) {
        Err(MintError::StorageCanisterError(m)) => assert_eq!(m, "log full"),
        _ => panic!("expected a storage error"),
    }
    assert!(ledger.owner_of(1).is_none());
}

#[test]
fn approve_then_transfer_from_moves_the_token() {
    let alice = account(1);
    let bob = account(2);
    let carol = account(3);
    let mut ledger = minted_ledger(vec![alice.clone()]);
    let now = 5_000;
    let arg = ApproveTokenArg { token_id: 1, approval_info: approval(bob.clone(), now) };
    let tx = plan_approve_token(&ledger, &arg, &alice.owner, now, &Ok(()), &settings(), &defaults()).unwrap();
    assert_eq!(tx.btype, "37approve");
    assert_eq!(tx.spender.as_ref().unwrap().owner, bob.owner);
    assert_eq!(commit_approve_token(&mut ledger, &arg, &alice.owner, now, Ok(7)).unwrap(), 7);

    let xfer = TransferFromArg {
        spender_subaccount: None,
        from: alice.clone(),
        to: carol.clone(),
        token_id: 1,
        memo: None,
        created_at_time: None,
    };
    let tx = plan_transfer_from(&mut ledger, &xfer, &bob.owner, now, &Ok(()), &settings(), &defaults()).unwrap();
    assert_eq!(tx.btype, "37xfer");
    assert_eq!(commit_transfer_from(&mut ledger, &xfer, Ok(8)).unwrap(), 8);
    assert_eq!(ledger.owner_of(1).unwrap().owner, carol.owner);

    let again = TransferFromArg { from: carol.clone(), to: alice.clone(), ..xfer };
    assert!(matches!(
        plan_transfer_from(&mut ledger, &again, &bob.owner, now, &Ok(()), &settings(), &defaults()),
        Err(TransferFromError::Unauthorized)
    ));
}

#[test]
fn approve_token_refusals() {
    let alice = account(1);
    let bob = account(2);
    let ledger = minted_ledger(vec![alice.clone()]);
    let now = 5_000;
    let arg = ApproveTokenArg { token_id: 1, approval_info: approval(bob.clone(), now) };
    assert!(matches!(
        plan_approve_token(&ledger, &arg, &bob.owner, now, &Ok(()), &settings(), &defaults()),
        Err(ApproveTokenError::Unauthorized)
    ));
    let missing = ApproveTokenArg { token_id: 9, approval_info: approval(bob.clone(), now) };
    assert!(matches!(
        plan_approve_token(&ledger, &missing, &alice.owner, now, &Ok(()), &settings(), &defaults()),
        Err(ApproveTokenError::NonExistingTokenId)
    ));
    let anonymous = ApproveTokenArg {
        token_id: 1,
        approval_info: approval(Account { owner: vec![4], subaccount: None }, now),
    };
    assert!(matches!(
        plan_approve_token(&ledger, &anonymous, &alice.owner, now, &Ok(()), &settings(), &defaults()),
        Err(ApproveTokenError::InvalidSpender)
    ));
    let future = ApproveTokenArg { token_id: 1, approval_info: approval(bob.clone(), now + 200_000_000_000) };
    assert!(matches!(
        plan_approve_token(&ledger, &future, &alice.owner, now, &Ok(()), &settings(), &defaults()),
        Err(ApproveTokenError::CreatedInFuture { ledger_time: 5_000 })
    ));
    match plan_approve_token(&ledger, &arg, &alice.owner, now, &Err("slow down".to_string()), &settings(), &defaults()) {
        Err(ApproveTokenError::GenericError { error_code, message }) => {
            assert_eq!(error_code, 0);
            assert_eq!(message, "slow down");
        },
        _ => panic!("expected the guard's refusal"),
    }
}

#[test]
fn revoked_approval_no_longer_allows_transfer() {
    let alice = account(1);
    let bob = account(2);
    let carol = account(3);
    let mut ledger = minted_ledger(vec![alice.clone(), alice.clone()]);
    let now = 5_000;
    let arg = ApproveTokenArg { token_id: 1, approval_info: approval(bob.clone(), now) };
    commit_approve_token(&mut ledger, &arg, &alice.owner, now, Ok(1)).unwrap();
    let revoke = RevokeTokenApprovalArg {
        spender: Some(bob.clone()),
        from_subaccount: None,
        token_id: 1,
        memo: None,
        created_at_time: None,
    };
    let tx = plan_revoke_token_approvals(&ledger, &revoke, &alice.owner, now, &settings(), &defaults()).unwrap();
    assert_eq!(tx.btype, "37revoke");
    commit_revoke_token_approvals(&mut ledger, &revoke, Ok(2)).unwrap();
    // The token keeps its (now empty) set of approvals, so a second revocation is logged too.
    assert!(plan_revoke_token_approvals(&ledger, &revoke, &alice.owner, now, &settings(), &defaults()).is_ok());
    let never_approved = RevokeTokenApprovalArg { token_id: 2, ..revoke };
    assert!(matches!(
        plan_revoke_token_approvals(&ledger, &never_approved, &alice.owner, now, &settings(), &defaults()),
        Err(RevokeTokenApprovalError::ApprovalDoesNotExist)
    ));
    let xfer = TransferFromArg {
        spender_subaccount: None,
        from: alice.clone(),
        to: carol,
        token_id: 1,
        memo: None,
        created_at_time: None,
    };
    assert!(matches!(
        plan_transfer_from(&mut ledger, &xfer, &bob.owner, now, &Ok(()), &settings(), &defaults()),
        Err(TransferFromError::Unauthorized)
    ));
}

#[test]
fn collection_approval_allows_transfer_of_any_token() {
    let alice = account(1);
    let bob = account(2);
    let carol = account(3);
    let mut ledger = minted_ledger(vec![alice.clone(), alice.clone()]);
    let now = 5_000;
    let arg = ApproveCollectionArg { approval_info: approval(bob.clone(), now) };
    let tx = plan_approve_collection(&ledger, &arg, &alice.owner, now, &Ok(()), &settings(), &defaults()).unwrap();
    assert_eq!(tx.btype, "37approve_coll");
    commit_approve_collection(&mut ledger, &arg, &alice.owner, now, Ok(3)).unwrap();
    let xfer = TransferFromArg {
        spender_subaccount: None,
        from: alice.clone(),
        to: carol.clone(),
        token_id: 2,
        memo: None,
        created_at_time: None,
    };
    assert!(plan_transfer_from(&mut ledger, &xfer, &bob.owner, now, &Ok(()), &settings(), &defaults()).is_ok());
}

#[test]
fn transfer_to_self_or_anonymous_is_refused() {
    let alice = account(1);
    let mut ledger = minted_ledger(vec![alice.clone()]);
    let to_self = TransferFromArg {
        spender_subaccount: None,
        from: alice.clone(),
        to: alice.clone(),
        token_id: 1,
        memo: None,
        created_at_time: None,
    };
    assert!(matches!(
        plan_transfer_from(&mut ledger, &to_self, &alice.owner, 1, &Ok(()), &settings(), &defaults()),
        Err(TransferFromError::InvalidRecipient)
    ));
}

#[test]
fn failed_logging_of_a_transfer_changes_nothing() {
    let alice = account(1);
    let carol = account(3);
    let mut ledger = minted_ledger(vec![alice.clone()]);
    let xfer = TransferFromArg {
        spender_subaccount: None,
        from: alice.clone(),
        to: carol,
        token_id: 1,
        memo: None,
        created_at_time: None,
    };
    let r = commit_transfer_from(&mut ledger, &xfer, Err(TransactionLogError::Icrc3Error("Duplicate transaction".to_string())));
    assert!(r.is_err());
    assert_eq!(ledger.owner_of(1).unwrap().owner, alice.owner);
}

#[test]
fn burn_removes_the_token_of_its_owner_only() {
    let alice = account(1);
    let bob = account(2);
    let mut ledger = minted_ledger(vec![alice.clone()]);
    assert!(matches!(plan_burn_nft(&ledger, 1, &bob.owner, 3), Err(BurnNftError::NotTokenOwner)));
    assert!(matches!(plan_burn_nft(&ledger, 9, &alice.owner, 3), Err(BurnNftError::TokenDoesNotExist)));
    let tx = plan_burn_nft(&ledger, 1, &alice.owner, 3).unwrap();
    assert_eq!(tx.btype, "7burn");
    commit_burn_nft(&mut ledger, 1, Ok(())).unwrap();
    assert!(ledger.owner_of(1).is_none());
}

#[test]
fn approval_timing_window() {
    let s = settings();
    let d = defaults();
    assert!(verify_approval_timing(1_000, 1_000, &s, &d).is_ok());
    assert_eq!(verify_approval_timing(1_000 + d.permitted_drift + 1, 1_000, &s, &d), Err((true, 1_000)));
    assert_eq!(verify_approval_timing(1, d.tx_window + 2, &s, &d), Err((false, 0)));
}

#[test]
fn revoke_batches_are_capped() {
    assert_eq!(revoke_batch_size(5, &None, 3), 3);
    assert_eq!(revoke_batch_size(2, &None, 3), 2);
    assert_eq!(revoke_batch_size(5, &Some(Nat::from_u64(4)), 3), 4);
    let huge = Nat { limbs: vec![0, 1] };
    assert_eq!(revoke_batch_size(5, &Some(huge), 3), 3);
}

fn with_default_subaccount(a: &Account) -> Account {
    Account { owner: a.owner.clone(), subaccount: Some(vec![0u8; 32]) }
}

#[test]
fn the_default_subaccount_is_no_subaccount() {
    let alice = account(1);
    let alice0 = with_default_subaccount(&alice);
    assert!(same_account(&alice, &alice0));
    assert!(!same_account(&alice, &Account { owner: alice.owner.clone(), subaccount: Some(vec![1u8; 32]) }));
    assert!(is_anonymous_account(&Account { owner: vec![4], subaccount: Some(vec![0u8; 32]) }));
    assert!(!is_anonymous_account(&Account { owner: vec![4], subaccount: Some(vec![0u8; 31]) }));
}

#[test]
fn owner_named_with_the_default_subaccount_may_transfer_and_approve() {
    let alice = account(1);
    let alice0 = with_default_subaccount(&alice);
    let bob = account(2);
    let mut ledger = minted_ledger(vec![alice.clone()]);
    let now = 5_000;
    let mut info = approval(bob.clone(), now);
    info.from_subaccount = Some(vec![0u8; 32]);
    let arg = ApproveTokenArg { token_id: 1, approval_info: info };
    assert!(plan_approve_token(&ledger, &arg, &alice.owner, now, &Ok(()), &settings(), &defaults()).is_ok());
    let revoke = RevokeTokenApprovalArg {
        spender: Some(bob.clone()),
        from_subaccount: Some(vec![0u8; 32]),
        token_id: 1,
        memo: None,
        created_at_time: None,
    };
    commit_approve_token(&mut ledger, &arg, &alice.owner, now, Ok(1)).unwrap();
    assert!(plan_revoke_token_approvals(&ledger, &revoke, &alice.owner, now, &settings(), &defaults()).is_ok());
    let xfer = TransferFromArg {
        spender_subaccount: Some(vec![0u8; 32]),
        from: alice0.clone(),
        to: bob.clone(),
        token_id: 1,
        memo: None,
        created_at_time: None,
    };
    assert!(plan_transfer_from(&mut ledger, &xfer, &alice.owner, now, &Ok(()), &settings(), &defaults()).is_ok());
    let to_self = TransferFromArg { to: alice.clone(), ..xfer };
    assert!(matches!(
        plan_transfer_from(&mut ledger, &to_self, &alice.owner, now, &Ok(()), &settings(), &defaults()),
        Err(TransferFromError::InvalidRecipient)
    ));
    let to_anonymous = TransferFromArg { to: Account { owner: vec![4], subaccount: Some(vec![0u8; 32]) }, ..to_self };
    assert!(matches!(
        plan_transfer_from(&mut ledger, &to_anonymous, &alice.owner, now, &Ok(()), &settings(), &defaults()),
        Err(TransferFromError::InvalidRecipient)
    ));
}

#[test]
fn collection_approvals_under_either_form_are_one_set() {
    let alice = account(1);
    let bob = account(2);
    let mut ledger = minted_ledger(vec![alice.clone()]);
    let now = 5_000;
    let mut small = settings();
    small.max_approvals_per_token_or_collection = Some(number(1));
    let plain = ApproveCollectionArg { approval_info: approval(bob.clone(), now) };
    commit_approve_collection(&mut ledger, &plain, &alice.owner, now, Ok(1)).unwrap();
    let mut info = approval(account(3), now);
    info.from_subaccount = Some(vec![0u8; 32]);
    let zero = ApproveCollectionArg { approval_info: info };
    assert!(matches!(
        plan_approve_collection(&ledger, &zero, &alice.owner, now, &Ok(()), &small, &defaults()),
        Err(ApproveCollectionError::GenericError { error_code: 1, .. })
    ));
    commit_approve_collection(&mut ledger, &zero, &alice.owner, now, Ok(2)).unwrap();
    let revoke = RevokeCollectionApprovalArg { spender: None, from_subaccount: None, memo: None, created_at_time: None };
    assert!(plan_revoke_collection_approvals(&ledger, &revoke, &alice.owner, now, &Ok(()), &settings(), &defaults()).is_ok());
    commit_revoke_collection_approvals(&mut ledger, &revoke, &alice.owner, Ok(3)).unwrap();
    let xfer = TransferFromArg {
        spender_subaccount: None,
        from: alice.clone(),
        to: account(5),
        token_id: 1,
        memo: None,
        created_at_time: None,
    };
    assert!(matches!(
        plan_transfer_from(&mut ledger, &xfer, &bob.owner, now, &Ok(()), &settings(), &defaults()),
        Err(TransferFromError::Unauthorized)
    ));
    let _ = RevokeCollectionApprovalError::ApprovalDoesNotExist;
}

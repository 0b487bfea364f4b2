use core_nft::account::Account;
use core_nft::metadata::Metadata;
use core_nft::collection::{commit_mint, plan_mint, CollectionConfig, MintRequest};
use core_nft::ledger::{
    commit_approve_collection, commit_approve_token, commit_revoke_collection_approvals,
    commit_revoke_token_approvals, commit_transfer_from, plan_approve_collection, plan_approve_token,
    plan_revoke_collection_approvals, plan_revoke_token_approvals, plan_transfer_from, revoke_batch_size,
    ApprovalDefaults, ApprovalInfo, ApprovalSettings, ApproveCollectionArg, ApproveCollectionError, ApproveTokenArg,
    ApproveTokenError, Ledger, RevokeCollectionApprovalArg, RevokeCollectionApprovalError, RevokeTokenApprovalArg,
    RevokeTokenApprovalError, TransferFromArg, TransferFromError,
};
use core_nft::value::{Nat, Value};

const MINUTE_IN_MS: u64 = 60_000;
const START: u64 = 1_700_000_000_000_000_000;

/// A collection with its ledger, the controller, two token owners and a clock, as the canister
/// tests set it up.
struct TestEnv {
    ledger: Ledger,
    metadata: Metadata,
    now: u64,
    controller: Vec<u8>,
    nft_owner1: Vec<u8>,
    nft_owner2: Vec<u8>,
    next_principal: u8,
    next_log_index: u64,
}

fn default_test_setup() -> TestEnv {
    TestEnv {
        ledger: Ledger::new(0),
        metadata: Metadata::new(),
        now: START,
        controller: vec![10, 0, 1],
        nft_owner1: vec![20, 0, 1],
        nft_owner2: vec![30, 0, 1],
        next_principal: 100,
        next_log_index: 0,
    }
}

fn account(owner: &Vec<u8>) -> Account {
    Account { owner: owner.clone(), subaccount: None }
}

fn config() -> CollectionConfig {
    CollectionConfig {
        symbol: "TEST".to_string(),
        name: "test".to_string(),
        description: None,
        logo: None,
        supply_cap: None,
        max_query_batch_size: None,
        max_update_batch_size: None,
        max_take_value: None,
        default_take_value: None,
        max_memo_size: None,
        atomic_batch_transfers: None,
        tx_window: None,
        permitted_drift: None,
        max_canister_storage_threshold: None,
        is_prod: false,
    }
}

fn settings() -> ApprovalSettings {
    ApprovalSettings {
        permitted_drift: None,
        tx_window: None,
        max_approvals_per_token_or_collection: None,
        max_revoke_approvals: None,
    }
}

fn defaults() -> ApprovalDefaults {
    ApprovalDefaults {
        permitted_drift: 2 * 60 * 1_000_000_000,
        tx_window: 24 * 60 * 60 * 1_000_000_000,
        max_approvals_per_token_or_collection: 10,
    }
}

fn create_default_metadata() -> Vec<(String, Value)> {
    vec![
        ("name".to_string(), Value::Text("test".to_string())),
        ("description".to_string(), Value::Text("test".to_string())),
        ("test".to_string(), Value::Text("test".to_string())),
    ]
}

impl TestEnv {
    fn random_principal(&mut self) -> Vec<u8> {
        self.next_principal += 1;
        vec![self.next_principal, 7, 7]
    }

    fn advance_time(&mut self, ms: u64) {
        self.now += ms * 1_000_000;
    }

    fn log(&mut self) -> u64 {
        self.next_log_index += 1;
        self.next_log_index
    }

    fn mint_nft(&mut self, owner: Account) -> Result<u64, String> {
        let requests = vec![MintRequest {
            token_owner: owner,
            memo: Some(b"memo".to_vec()),
            metadata: create_default_metadata(),
        }];
        plan_mint(&self.ledger, &config(), &requests, &vec![true], &Nat::from_u64(10_000), self.now)
            .map_err(|e| format!("{:?}", e))?;
        commit_mint(&mut self.ledger, &mut self.metadata, &requests, Ok(())).map_err(|e| format!("{:?}", e))
    }

    fn approve_tokens(&mut self, caller: &Vec<u8>, args: &Vec<ApproveTokenArg>) -> Vec<Result<u64, ApproveTokenError>> {
        let mut results = Vec::new();
        for arg in args {
            let now = self.now;
            let r = match plan_approve_token(&self.ledger, arg, caller, now, &Ok(()), &settings(), &defaults()) {
                Ok(_) => {
                    let index = self.log();
                    commit_approve_token(&mut self.ledger, arg, caller, now, Ok(index))
                },
                Err(e) => Err(e),
            };
            results.push(r);
        }
        results
    }

    fn approve_collection(
        &mut self,
        caller: &Vec<u8>,
        args: &Vec<ApproveCollectionArg>,
    ) -> Vec<Result<u64, ApproveCollectionError>> {
        let mut results = Vec::new();
        for arg in args {
            let now = self.now;
            let r = match plan_approve_collection(&self.ledger, arg, caller, now, &Ok(()), &settings(), &defaults()) {
                Ok(_) => {
                    let index = self.log();
                    commit_approve_collection(&mut self.ledger, arg, caller, now, Ok(index))
                },
                Err(e) => Err(e),
            };
            results.push(r);
        }
        results
    }

    fn revoke_token_approvals(
        &mut self,
        caller: &Vec<u8>,
        args: &Vec<RevokeTokenApprovalArg>,
    ) -> Vec<Result<u64, RevokeTokenApprovalError>> {
        let take = revoke_batch_size(args.len(), &settings().max_revoke_approvals, 10);
        let mut results = Vec::new();
        for arg in args.iter().take(take) {
            let now = self.now;
            let r = match plan_revoke_token_approvals(&self.ledger, arg, caller, now, &settings(), &defaults()) {
                Ok(_) => {
                    let index = self.log();
                    commit_revoke_token_approvals(&mut self.ledger, arg, Ok(index))
                },
                Err(e) => Err(e),
            };
            results.push(r);
        }
        results
    }

    fn revoke_collection_approvals(
        &mut self,
        caller: &Vec<u8>,
        args: &Vec<RevokeCollectionApprovalArg>,
    ) -> Vec<Result<u64, RevokeCollectionApprovalError>> {
        let take = revoke_batch_size(args.len(), &settings().max_revoke_approvals, 10);
        let mut results = Vec::new();
        for arg in args.iter().take(take) {
            let now = self.now;
            let r = match plan_revoke_collection_approvals(&self.ledger, arg, caller, now, &Ok(()), &settings(), &defaults()) {
                Ok(_) => {
                    let index = self.log();
                    commit_revoke_collection_approvals(&mut self.ledger, arg, caller, Ok(index))
                },
                Err(e) => Err(e),
            };
            results.push(r);
        }
        results
    }

    fn transfer_from(&mut self, caller: &Vec<u8>, args: &Vec<TransferFromArg>) -> Vec<Result<u64, TransferFromError>> {
        let mut results = Vec::new();
        for arg in args {
            let now = self.now;
            let r = match plan_transfer_from(&mut self.ledger, arg, caller, now, &Ok(()), &settings(), &defaults()) {
                Ok(_) => {
                    let index = self.log();
                    commit_transfer_from(&mut self.ledger, arg, Ok(index))
                },
                Err(e) => Err(e),
            };
            results.push(r);
        }
        results
    }

    fn owner_of(&self, token_id: u64) -> Option<Account> {
        self.ledger.owner_of(token_id)
    }

    fn token_approval_spenders(&self, token_id: u64) -> Vec<Account> {
        match self.ledger.token_approvals.get(&token_id) {
            Some(set) => set.entries.iter().map(|(spender, _)| spender.clone()).collect(),
            None => Vec::new(),
        }
    }

    fn collection_approval_spenders(&self, owner: &Account) -> Vec<Account> {
        match self.ledger.collection_approvals.get(owner) {
            Some(set) => set.entries.iter().map(|(spender, _)| spender.clone()).collect(),
            None => Vec::new(),
        }
    }

    fn is_approved(&self, spender: &Account, token_id: u64) -> bool {
        self.token_approval_spenders(token_id).iter().any(|s| s.owner == spender.owner && s.subaccount == spender.subaccount)
    }
}

fn approval_info(spender: Account, created_at_time: u64) -> ApprovalInfo {
    ApprovalInfo { spender, from_subaccount: None, expires_at: None, memo: None, created_at_time }
}

fn transfer_arg(from: Account, to: Account, token_id: u64, created_at_time: u64) -> TransferFromArg {
    TransferFromArg { spender_subaccount: None, from, to, token_id, memo: None, created_at_time: Some(created_at_time) }
}

fn same(a: &Option<Account>, b: &Account) -> bool {
    match a {
        Some(x) => x.owner == b.owner && x.subaccount == b.subaccount,
        None => false,
    }
}

#[test]
fn test_icrc37_approve_tokens() {
    let mut env = default_test_setup();
    let owner1 = account(&env.nft_owner1);
    let owner2 = account(&env.nft_owner2);
    let token_id = env.mint_nft(owner1.clone()).unwrap();
    env.advance_time(1_000);
    let current_time = env.now;
    let args = vec![ApproveTokenArg { token_id, approval_info: approval_info(owner2.clone(), current_time) }];
    let caller = env.nft_owner1.clone();
    let results = env.approve_tokens(&caller, &args);
    assert!(results[0].is_ok());
    assert!(env.is_approved(&owner2, token_id));
}

#[test]
fn test_icrc37_approve_collection() {
    let mut env = default_test_setup();
    let controller = account(&env.controller);
    let owner2 = account(&env.nft_owner2);
    env.mint_nft(controller.clone()).unwrap();
    let current_time = env.now;
    let args = vec![ApproveCollectionArg { approval_info: approval_info(owner2.clone(), current_time) }];
    let caller = env.controller.clone();
    let results = env.approve_collection(&caller, &args);
    assert!(results[0].is_ok(), "Approve collection failed");
    let approvals = env.collection_approval_spenders(&controller);
    assert!(!approvals.is_empty());
    assert_eq!(approvals[0].owner, env.nft_owner2);
}

#[test]
fn test_icrc37_revoke_token_approvals() {
    let mut env = default_test_setup();
    let owner1 = account(&env.nft_owner1);
    let owner2 = account(&env.nft_owner2);
    let token_id = env.mint_nft(owner1.clone()).unwrap();
    let current_time = env.now;
    let caller = env.nft_owner1.clone();
    env.approve_tokens(&caller, &vec![ApproveTokenArg { token_id, approval_info: approval_info(owner2.clone(), current_time) }]);
    let revoke_args = vec![RevokeTokenApprovalArg {
        spender: Some(owner2.clone()),
        from_subaccount: None,
        token_id,
        memo: None,
        created_at_time: Some(current_time),
    }];
    let results = env.revoke_token_approvals(&caller, &revoke_args);
    assert!(results[0].is_ok());
    assert!(!env.is_approved(&owner2, token_id));
}

#[test]
fn test_icrc37_transfer_from() {
    let mut env = default_test_setup();
    let owner1 = account(&env.nft_owner1);
    let owner2 = account(&env.nft_owner2);
    let token_id = env.mint_nft(owner1.clone()).unwrap();
    let current_time = env.now;
    let caller = env.nft_owner1.clone();
    env.approve_tokens(&caller, &vec![ApproveTokenArg { token_id, approval_info: approval_info(owner2.clone(), current_time) }]);
    let spender = env.nft_owner2.clone();
    let results = env.transfer_from(&spender, &vec![transfer_arg(owner1.clone(), owner2.clone(), token_id, current_time)]);
    assert!(results[0].is_ok());
    assert!(same(&env.owner_of(token_id), &owner2));
}

#[test]
fn test_icrc37_transfer_from_unauthorized_account() {
    let mut env = default_test_setup();
    let owner1 = account(&env.nft_owner1);
    let owner2 = account(&env.nft_owner2);
    let nft_owner3 = env.random_principal();
    let owner3 = account(&nft_owner3);
    let token_id = env.mint_nft(owner1.clone()).unwrap();
    let current_time = env.now;
    let caller = env.nft_owner1.clone();
    env.approve_tokens(&caller, &vec![ApproveTokenArg { token_id, approval_info: approval_info(owner2.clone(), current_time) }]);
    let results = env.transfer_from(&nft_owner3, &vec![transfer_arg(owner1.clone(), owner3, token_id, current_time)]);
    assert!(results[0].is_err());
    assert!(same(&env.owner_of(token_id), &owner1));
}

#[test]
fn test_icrc37_transfer_from_multiple_approvals_unauthorized() {
    let mut env = default_test_setup();
    let owner1 = account(&env.nft_owner1);
    let owner2 = account(&env.nft_owner2);
    let nft_owner3 = env.random_principal();
    let nft_owner4 = env.random_principal();
    let token_id = env.mint_nft(owner1.clone()).unwrap();
    let current_time = env.now;
    let caller = env.nft_owner1.clone();
    env.approve_tokens(
        &caller,
        &vec![
            ApproveTokenArg { token_id, approval_info: approval_info(owner2.clone(), current_time) },
            ApproveTokenArg { token_id, approval_info: approval_info(account(&nft_owner3), current_time) },
        ],
    );
    let results = env.transfer_from(&nft_owner4, &vec![transfer_arg(owner1.clone(), account(&nft_owner4), token_id, current_time)]);
    assert!(results[0].is_err());
    assert!(same(&env.owner_of(token_id), &owner1));
}

#[test]
fn test_icrc37_transfer_from_single_approval_authorized() {
    let mut env = default_test_setup();
    let owner1 = account(&env.nft_owner1);
    let owner2 = account(&env.nft_owner2);
    let token_id = env.mint_nft(owner1.clone()).unwrap();
    let current_time = env.now;
    let caller = env.nft_owner1.clone();
    env.approve_tokens(&caller, &vec![ApproveTokenArg { token_id, approval_info: approval_info(owner2.clone(), current_time) }]);
    let spender = env.nft_owner2.clone();
    let results = env.transfer_from(&spender, &vec![transfer_arg(owner1.clone(), owner2.clone(), token_id, current_time)]);
    assert!(results[0].is_ok());
    assert!(same(&env.owner_of(token_id), &owner2));
}

#[test]
fn test_icrc37_transfer_from_multiple_approvals_authorized() {
    let mut env = default_test_setup();
    let owner1 = account(&env.nft_owner1);
    let owner2 = account(&env.nft_owner2);
    let nft_owner3 = env.random_principal();
    let token_id = env.mint_nft(owner1.clone()).unwrap();
    let current_time = env.now;
    let caller = env.nft_owner1.clone();
    env.approve_tokens(
        &caller,
        &vec![
            ApproveTokenArg { token_id, approval_info: approval_info(owner2.clone(), current_time) },
            ApproveTokenArg { token_id, approval_info: approval_info(account(&nft_owner3), current_time) },
        ],
    );
    let spender = env.nft_owner2.clone();
    let results = env.transfer_from(&spender, &vec![transfer_arg(owner1.clone(), owner2.clone(), token_id, current_time)]);
    assert!(results[0].is_ok());
    assert!(same(&env.owner_of(token_id), &owner2));
}

#[test]
fn test_icrc37_transfer_from_multiple_approvals_sequential_transfers() {
    let mut env = default_test_setup();
    let owner1 = account(&env.nft_owner1);
    let owner2 = account(&env.nft_owner2);
    let nft_owner3 = env.random_principal();
    let owner3 = account(&nft_owner3);
    let token_id = env.mint_nft(owner1.clone()).unwrap();
    let current_time = env.now;
    let caller = env.nft_owner1.clone();
    env.approve_tokens(
        &caller,
        &vec![
            ApproveTokenArg { token_id, approval_info: approval_info(owner2.clone(), current_time) },
            ApproveTokenArg { token_id, approval_info: approval_info(owner3.clone(), current_time) },
        ],
    );
    let spender = env.nft_owner2.clone();
    let results_1 = env.transfer_from(&spender, &vec![transfer_arg(owner1.clone(), owner2.clone(), token_id, current_time)]);
    assert!(results_1[0].is_ok());
    assert!(same(&env.owner_of(token_id), &owner2));
    let results_2 = env.transfer_from(&nft_owner3, &vec![transfer_arg(owner2.clone(), owner3.clone(), token_id, current_time)]);
    assert!(results_2[0].is_err());
    assert!(same(&env.owner_of(token_id), &owner2));
}

#[test]
fn test_icrc37_revoke_token_approvals_max_limit() {
    let mut env = default_test_setup();
    let owner1 = account(&env.nft_owner1);
    let token_id = env.mint_nft(owner1.clone()).unwrap();
    let max_approvals: usize = 10;
    let caller = env.nft_owner1.clone();
    for _ in 0..max_approvals {
        let current_time = env.now;
        let spender = env.random_principal();
        let results = env.approve_tokens(&caller, &vec![ApproveTokenArg { token_id, approval_info: approval_info(account(&spender), current_time) }]);
        assert!(results[0].is_ok());
        env.advance_time(MINUTE_IN_MS);
    }
    let current_time = env.now;
    let spender = env.random_principal();
    let results = env.approve_tokens(&caller, &vec![ApproveTokenArg { token_id, approval_info: approval_info(account(&spender), current_time) }]);
    assert!(results[0].is_err());
    let max_revoke_approvals: usize = 10;
    let approvals = env.token_approval_spenders(token_id);
    assert_eq!(approvals.len(), max_approvals);
    for spender in approvals.iter().take(max_revoke_approvals) {
        let current_time = env.now;
        let revoke_args = vec![RevokeTokenApprovalArg {
            spender: Some(spender.clone()),
            from_subaccount: None,
            token_id,
            memo: None,
            created_at_time: Some(current_time),
        }];
        let results = env.revoke_token_approvals(&caller, &revoke_args);
        assert_eq!(results.len(), 1);
        assert!(results[0].is_ok());
        env.advance_time(MINUTE_IN_MS);
    }
    assert!(env.token_approval_spenders(token_id).is_empty());
}

#[test]
fn test_icrc37_revoke_collection_approvals_max_limit() {
    let mut env = default_test_setup();
    let controller = account(&env.controller);
    env.mint_nft(controller.clone()).unwrap();
    let max_approvals: usize = 10;
    let caller = env.controller.clone();
    for _ in 0..max_approvals {
        let current_time = env.now;
        let spender = env.random_principal();
        let results = env.approve_collection(&caller, &vec![ApproveCollectionArg { approval_info: approval_info(account(&spender), current_time) }]);
        assert!(results[0].is_ok());
        env.advance_time(MINUTE_IN_MS);
    }
    let current_time = env.now;
    let spender = env.random_principal();
    let results = env.approve_collection(&caller, &vec![ApproveCollectionArg { approval_info: approval_info(account(&spender), current_time) }]);
    assert!(results[0].is_err());
    let approvals = env.collection_approval_spenders(&controller);
    assert_eq!(approvals.len(), max_approvals);
    for spender in approvals.iter() {
        let current_time = env.now;
        let revoke_args = vec![RevokeCollectionApprovalArg {
            spender: Some(spender.clone()),
            from_subaccount: None,
            memo: None,
            created_at_time: Some(current_time),
        }];
        let results = env.revoke_collection_approvals(&caller, &revoke_args);
        assert_eq!(results.len(), 1);
        assert!(results[0].is_ok());
        env.advance_time(MINUTE_IN_MS);
    }
    assert!(env.collection_approval_spenders(&controller).is_empty());
}

#[test]
fn test_icrc37_revoke_collection_approvals_within_limit() {
    let mut env = default_test_setup();
    let controller = account(&env.controller);
    env.mint_nft(controller.clone()).unwrap();
    let max_revoke_approvals: usize = 10;
    let caller = env.controller.clone();
    for _ in 0..max_revoke_approvals {
        let current_time = env.now;
        let spender = env.random_principal();
        let results = env.approve_collection(&caller, &vec![ApproveCollectionArg { approval_info: approval_info(account(&spender), current_time) }]);
        assert!(results[0].is_ok());
        env.advance_time(MINUTE_IN_MS);
    }
    let approvals = env.collection_approval_spenders(&controller);
    assert_eq!(approvals.len(), max_revoke_approvals);
    for spender in approvals {
        let current_time = env.now;
        let revoke_args = vec![RevokeCollectionApprovalArg {
            spender: Some(spender.clone()),
            from_subaccount: None,
            memo: None,
            created_at_time: Some(current_time),
        }];
        let results = env.revoke_collection_approvals(&caller, &revoke_args);
        assert_eq!(results.len(), 1);
        assert!(results[0].is_ok());
        env.advance_time(MINUTE_IN_MS);
    }
    assert!(env.collection_approval_spenders(&controller).is_empty());
}

#[test]
fn test_icrc37_approve_collection_with_nft() {
    let mut env = default_test_setup();
    let owner1 = account(&env.nft_owner1);
    let owner2 = account(&env.nft_owner2);
    let token_id = env.mint_nft(owner1.clone()).unwrap();
    let current_time = env.now;
    let caller = env.nft_owner1.clone();
    let results = env.approve_collection(&caller, &vec![ApproveCollectionArg { approval_info: approval_info(owner2.clone(), current_time) }]);
    assert!(results[0].is_ok());
    let approvals = env.collection_approval_spenders(&owner1);
    assert!(!approvals.is_empty());
    assert_eq!(approvals[0].owner, env.nft_owner2);
    let spender = env.nft_owner2.clone();
    let results = env.transfer_from(&spender, &vec![transfer_arg(owner1.clone(), owner2.clone(), token_id, current_time)]);
    assert!(results[0].is_ok());
    assert!(same(&env.owner_of(token_id), &owner2));
}

#[test]
fn test_icrc37_approvals_reset_after_transfer_as_owner() {
    let mut env = default_test_setup();
    let owner1 = account(&env.nft_owner1);
    let owner2 = account(&env.nft_owner2);
    let nft_owner3 = env.random_principal();
    let owner3 = account(&nft_owner3);
    let token_id = env.mint_nft(owner1.clone()).unwrap();
    env.advance_time(1_000);
    let current_time = env.now;
    let caller = env.nft_owner1.clone();
    let r = env.approve_tokens(&caller, &vec![ApproveTokenArg { token_id, approval_info: approval_info(owner2.clone(), current_time) }]);
    assert!(r[0].is_ok());
    env.advance_time(1_000);
    let r = env.approve_collection(&caller, &vec![ApproveCollectionArg { approval_info: approval_info(owner2.clone(), current_time) }]);
    assert!(r[0].is_ok());
    env.advance_time(1_000);
    let spender = env.nft_owner2.clone();
    let r = env.transfer_from(&spender, &vec![transfer_arg(owner1.clone(), owner2.clone(), token_id, current_time)]);
    assert!(r[0].is_ok());
    env.advance_time(1_000);
    assert!(same(&env.owner_of(token_id), &owner2));
    env.advance_time(1_000);
    let r = env.transfer_from(&spender, &vec![transfer_arg(owner2.clone(), owner3.clone(), token_id, current_time)]);
    assert!(r[0].is_ok());
    env.advance_time(1_000);
    assert!(same(&env.owner_of(token_id), &owner3));
    assert!(env.token_approval_spenders(token_id).is_empty());
}

#[test]
fn test_icrc37_approvals_reset_after_transfer_with_approvals() {
    let mut env = default_test_setup();
    let owner1 = account(&env.nft_owner1);
    let owner2 = account(&env.nft_owner2);
    let nft_owner3 = env.random_principal();
    let nft_owner4 = env.random_principal();
    let owner3 = account(&nft_owner3);
    let owner4 = account(&nft_owner4);
    let token_id = env.mint_nft(owner1.clone()).unwrap();
    env.advance_time(1_000);
    let current_time = env.now;
    let caller = env.nft_owner1.clone();
    let r = env.approve_tokens(&caller, &vec![ApproveTokenArg { token_id, approval_info: approval_info(owner2.clone(), current_time) }]);
    assert!(r[0].is_ok());
    env.advance_time(1_000);
    let r = env.approve_collection(&caller, &vec![ApproveCollectionArg { approval_info: approval_info(owner2.clone(), current_time) }]);
    assert!(r[0].is_ok());
    env.advance_time(1_000);
    let spender = env.nft_owner2.clone();
    let r = env.transfer_from(&spender, &vec![transfer_arg(owner1.clone(), owner3.clone(), token_id, current_time)]);
    assert!(r[0].is_ok());
    env.advance_time(1_000);
    assert!(same(&env.owner_of(token_id), &owner3));
    let r = env.transfer_from(&spender, &vec![transfer_arg(owner3.clone(), owner4, token_id, current_time)]);
    assert!(r[0].is_err());
    env.advance_time(1_000);
    assert!(same(&env.owner_of(token_id), &owner3));
    assert!(env.token_approval_spenders(token_id).is_empty());
    assert!(env.collection_approval_spenders(&owner1).is_empty());
}

#[test]
fn test_icrc37_approve_and_revoke_before_transfer() {
    let mut env = default_test_setup();
    let owner1 = account(&env.nft_owner1);
    let owner2 = account(&env.nft_owner2);
    let nft_owner3 = env.random_principal();
    let token_id = env.mint_nft(owner1.clone()).unwrap();
    let current_time = env.now;
    let caller = env.nft_owner1.clone();
    let r = env.approve_tokens(&caller, &vec![ApproveTokenArg { token_id, approval_info: approval_info(owner2.clone(), current_time) }]);
    assert!(r[0].is_ok());
    let revoke_args = vec![RevokeTokenApprovalArg {
        spender: Some(owner2.clone()),
        from_subaccount: None,
        token_id,
        memo: None,
        created_at_time: Some(current_time),
    }];
    let r = env.revoke_token_approvals(&caller, &revoke_args);
    assert!(r[0].is_ok());
    let spender = env.nft_owner2.clone();
    let r = env.transfer_from(&spender, &vec![transfer_arg(owner1.clone(), account(&nft_owner3), token_id, current_time)]);
    assert!(r[0].is_err());
    assert!(same(&env.owner_of(token_id), &owner1));
}

#[test]
fn test_icrc37_approve_with_expiration() {
    let mut env = default_test_setup();
    let owner1 = account(&env.nft_owner1);
    let owner2 = account(&env.nft_owner2);
    let nft_owner3 = env.random_principal();
    let token_id = env.mint_nft(owner1.clone()).unwrap();
    let current_time = env.now;
    let caller = env.nft_owner1.clone();
    let info = ApprovalInfo {
        spender: owner2.clone(),
        from_subaccount: None,
        expires_at: Some(current_time + MINUTE_IN_MS * 1_000_000),
        memo: None,
        created_at_time: current_time,
    };
    let r = env.approve_tokens(&caller, &vec![ApproveTokenArg { token_id, approval_info: info }]);
    assert!(r[0].is_ok());
    env.advance_time(MINUTE_IN_MS * 2);
    let spender = env.nft_owner2.clone();
    let r = env.transfer_from(&spender, &vec![transfer_arg(owner1.clone(), account(&nft_owner3), token_id, current_time)]);
    assert!(r[0].is_err());
    assert!(same(&env.owner_of(token_id), &owner1));
}

#[test]
fn test_icrc37_approve_with_subaccount() {
    let mut env = default_test_setup();
    let nft_owner3 = env.random_principal();
    let subaccount = Some(vec![1u8; 32]);
    let owner1 = Account { owner: env.nft_owner1.clone(), subaccount: subaccount.clone() };
    let token_id = env.mint_nft(owner1.clone()).unwrap();
    let current_time = env.now;
    let caller = env.nft_owner1.clone();
    let info = ApprovalInfo {
        spender: Account { owner: env.nft_owner2.clone(), subaccount: subaccount.clone() },
        from_subaccount: subaccount.clone(),
        expires_at: None,
        memo: None,
        created_at_time: current_time,
    };
    let r = env.approve_tokens(&caller, &vec![ApproveTokenArg { token_id, approval_info: info }]);
    assert!(r[0].is_ok());
    let arg = TransferFromArg {
        spender_subaccount: subaccount.clone(),
        from: owner1.clone(),
        to: account(&nft_owner3),
        token_id,
        memo: None,
        created_at_time: Some(current_time),
    };
    let spender = env.nft_owner2.clone();
    let r = env.transfer_from(&spender, &vec![arg]);
    assert!(r[0].is_ok());
    assert!(same(&env.owner_of(token_id), &account(&nft_owner3)));
}

#[test]
fn test_icrc37_approve_with_memo() {
    let mut env = default_test_setup();
    let owner1 = account(&env.nft_owner1);
    let owner2 = account(&env.nft_owner2);
    let nft_owner3 = env.random_principal();
    let memo = vec![1u8, 2, 3, 4];
    let token_id = env.mint_nft(owner1.clone()).unwrap();
    let current_time = env.now;
    let caller = env.nft_owner1.clone();
    let info = ApprovalInfo {
        spender: owner2.clone(),
        from_subaccount: None,
        expires_at: None,
        memo: Some(memo.clone()),
        created_at_time: current_time,
    };
    let r = env.approve_tokens(&caller, &vec![ApproveTokenArg { token_id, approval_info: info }]);
    assert!(r[0].is_ok());
    let arg = TransferFromArg {
        spender_subaccount: None,
        from: owner1.clone(),
        to: account(&nft_owner3),
        token_id,
        memo: Some(memo.clone()),
        created_at_time: Some(current_time),
    };
    let spender = env.nft_owner2.clone();
    let r = env.transfer_from(&spender, &vec![arg]);
    assert!(r[0].is_ok());
    assert!(same(&env.owner_of(token_id), &account(&nft_owner3)));
}

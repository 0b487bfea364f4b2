use core_nft::access::{check_permission, grant_permission, revoke_permission, Permission, Permissions};
use core_nft::account::Account;
use core_nft::collection::{
    commit_mint, plan_mint, update_collection_metadata, CollectionConfig, MintError, MintRequest,
    UpdateCollectionMetadataArgs,
};
use core_nft::ledger::Ledger;
use core_nft::metadata::{finish_update_nft_metadata, plan_update_nft_metadata, token_metadata, Metadata};
use core_nft::sorted::SortedMap;
use core_nft::uploads::{
    check_cancel_upload, check_finalize_upload, check_init_upload, check_store_chunk, get_all_uploads, get_upload_status,
    record_batch_chunks_stored, record_batch_finalized, record_batch_init_upload, record_chunk_stored,
    record_init_upload, record_upload_cancelled, record_upload_finalized, CancelUploadError, FinalizeUploadError,
    GetUploadStatusError, InitUploadError, StoreChunkError, UploadState, UploadTracker,
};
use core_nft::value::{Nat, Value};

const STORAGE_CANISTER: [u8; 1] = [4];

/// The collection's management state as the canister tests set it up: the controller holds
/// every permission.
struct TestEnv {
    ledger: Ledger,
    metadata: Metadata,
    config: CollectionConfig,
    permissions: Permissions,
    uploads: UploadTracker,
    redirections: SortedMap<String, String>,
    now: u64,
    controller: Vec<u8>,
    nft_owner1: Vec<u8>,
}

fn default_test_setup() -> TestEnv {
    let controller = vec![10u8, 0, 1];
    let mut permissions = Permissions::new();
    for p in [
        Permission::Minting,
        Permission::UpdateMetadata,
        Permission::UpdateCollectionMetadata,
        Permission::ManageAuthorities,
        Permission::ReadUploads,
        Permission::UpdateUploads,
    ] {
        permissions.grant_permission(controller.clone(), p);
    }
    TestEnv {
        ledger: Ledger::new(0),
        metadata: Metadata::new(),
        config: CollectionConfig {
            symbol: "TEST".to_string(),
            name: "test".to_string(),
            description: None,
            logo: None,
            supply_cap: None,
            max_query_batch_size: None,
            max_update_batch_size: None,
            max_take_value: None,
            default_take_value: None,
            max_memo_size: None,
            atomic_batch_transfers: None,
            tx_window: None,
            permitted_drift: None,
            max_canister_storage_threshold: None,
            is_prod: false,
        },
        permissions,
        uploads: UploadTracker::new(),
        redirections: SortedMap::new(),
        now: 1_700_000_000_000_000_000,
        controller,
        nft_owner1: vec![20u8, 0, 1],
    }
}

fn create_default_icrc97_metadata(url: &str) -> Vec<(String, Value)> {
    vec![("icrc97:metadata".to_string(), Value::Array(vec![Value::Text(url.to_string())]))]
}

impl TestEnv {
    fn mint(&mut self, caller: &Vec<u8>, requests: Vec<MintRequest>) -> Result<u64, MintError> {
        if check_permission(&self.permissions, caller, Permission::Minting).is_err() {
            panic!("Caller does not have minting permission");
        }
        let memo_ok = vec![true; requests.len()];
        plan_mint(&self.ledger, &self.config, &requests, &memo_ok, &Nat::from_u64(10_000), self.now)?;
        commit_mint(&mut self.ledger, &mut self.metadata, &requests, Ok(()))
    }

    fn init_upload(&mut self, caller: &Vec<u8>, path: &str) -> Result<(), InitUploadError> {
        if check_permission(&self.permissions, caller, Permission::UpdateUploads).is_err() {
            panic!("Caller does not have update uploads permission");
        }
        check_init_upload(&self.uploads, &path.to_string())?;
        record_init_upload(&mut self.uploads, path.to_string(), STORAGE_CANISTER.to_vec(), self.now);
        Ok(())
    }

    fn upload_file(&mut self, caller: &Vec<u8>, path: &str) -> Result<String, String> {
        self.init_upload(caller, path).map_err(|e| format!("{:?}", e))?;
        let p = path.to_string();
        let record = check_store_chunk(&self.uploads, &p).map_err(|e| format!("{:?}", e))?;
        record_chunk_stored(&mut self.uploads, &p, record);
        let record = check_finalize_upload(&self.uploads, &p).map_err(|e| format!("{:?}", e))?;
        let done = record_upload_finalized(&mut self.uploads, &mut self.redirections, &p, record, &vec![], self.config.is_prod);
        Ok(done.url)
    }

    fn require(&self, caller: &Vec<u8>, permission: Permission) {
        if let Err(message) = check_permission(&self.permissions, caller, permission) {
            panic!("{}", message);
        }
    }

    fn store_chunk(&mut self, caller: &Vec<u8>, path: &str) -> Result<(), StoreChunkError> {
        self.require(caller, Permission::UpdateUploads);
        let p = path.to_string();
        let record = check_store_chunk(&self.uploads, &p)?;
        record_chunk_stored(&mut self.uploads, &p, record);
        Ok(())
    }

    fn finalize_upload(&mut self, caller: &Vec<u8>, path: &str) -> Result<String, FinalizeUploadError> {
        self.require(caller, Permission::UpdateUploads);
        let p = path.to_string();
        let record = check_finalize_upload(&self.uploads, &p)?;
        let done = record_upload_finalized(&mut self.uploads, &mut self.redirections, &p, record, &vec![], self.config.is_prod);
        Ok(done.url)
    }

    fn cancel_upload(&mut self, caller: &Vec<u8>, path: &str) -> Result<(), CancelUploadError> {
        self.require(caller, Permission::UpdateUploads);
        let p = path.to_string();
        check_cancel_upload(&self.uploads, &p)?;
        record_upload_cancelled(&mut self.uploads, &p);
        Ok(())
    }

    fn update_nft_metadata(&mut self, caller: &Vec<u8>, token_id: u64, metadata: Vec<(String, Value)>) {
        self.require(caller, Permission::UpdateMetadata);
        let tx = plan_update_nft_metadata(&self.ledger, &mut self.metadata, token_id, metadata, caller, self.now);
        assert!(tx.is_ok());
    }

    fn update_collection_metadata(&mut self, caller: &Vec<u8>, args: UpdateCollectionMetadataArgs) {
        self.require(caller, Permission::UpdateCollectionMetadata);
        update_collection_metadata(&mut self.config, args);
    }

    fn get_upload_status(&self, caller: &Vec<u8>, path: &str) -> Result<UploadState, GetUploadStatusError> {
        if check_permission(&self.permissions, caller, Permission::ReadUploads).is_err() {
            panic!("Caller does not have read uploads permission");
        }
        get_upload_status(&self.uploads, &path.to_string())
    }
}

#[test]
fn test_duplicate_upload() {
    let mut env = default_test_setup();
    let controller = env.controller.clone();
    env.upload_file(&controller, "/test.png").expect("First upload failed");
    let second = env.init_upload(&controller, "/test.png");
    assert!(second.is_err());
}

#[test]
fn test_get_upload_status() {
    let mut env = default_test_setup();
    let controller = env.controller.clone();
    let upload_path = "/test_status.png";
    let upload_path2 = "/test_status2.png";
    assert!(
        matches!(env.get_upload_status(&controller, upload_path), Err(GetUploadStatusError::UploadNotFound)),
        "Should return error for non-existent upload"
    );
    assert!(env.init_upload(&controller, upload_path2).is_ok(), "Init upload should succeed");
    assert!(matches!(env.get_upload_status(&controller, upload_path2), Ok(UploadState::Init)), "Should return Init state");
    env.upload_file(&controller, upload_path).expect("Upload failed");
    assert!(
        matches!(env.get_upload_status(&controller, upload_path), Ok(UploadState::Finalized)),
        "Should return Finalized state"
    );
}

#[test]
fn test_get_all_uploads() {
    let mut env = default_test_setup();
    let controller = env.controller.clone();
    for i in 0..3 {
        env.upload_file(&controller, &format!("/test_all_uploads_{}.png", i)).expect("Upload failed");
    }
    assert_eq!(get_all_uploads(&env.uploads, &None, &None).unwrap().len(), 3, "Should return all 3 uploads");
    let first_page = get_all_uploads(&env.uploads, &Some(Nat::from_u64(0)), &Some(Nat::from_u64(2))).unwrap();
    assert_eq!(first_page.len(), 2, "Should return 2 uploads for first page");
    let second_page = get_all_uploads(&env.uploads, &Some(Nat::from_u64(2)), &Some(Nat::from_u64(2))).unwrap();
    assert_eq!(second_page.len(), 1, "Should return 1 upload for second page");
}

#[test]
fn test_batch_upload_management_flow() {
    let mut env = default_test_setup();
    let paths = vec!["/batch-core-1.svg".to_string(), "/batch-core-2.svg".to_string()];
    record_batch_init_upload(&mut env.uploads, &paths, &vec![true, true], &STORAGE_CANISTER.to_vec(), env.now);
    for p in &paths {
        assert_eq!(get_upload_status(&env.uploads, p).expect("status should exist after batch init"), UploadState::Init);
    }
    record_batch_chunks_stored(&mut env.uploads, &paths, &vec![true, true]);
    for p in &paths {
        assert_eq!(
            get_upload_status(&env.uploads, p).expect("status should exist after batch store"),
            UploadState::InProgress
        );
    }
    let made = record_batch_finalized(&mut env.uploads, &mut env.redirections, &paths, &vec![true, true], &STORAGE_CANISTER.to_vec(), false);
    assert_eq!(made.len(), paths.len());
    for p in &paths {
        assert_eq!(
            get_upload_status(&env.uploads, p).expect("status should exist after batch finalize"),
            UploadState::Finalized
        );
    }
    // A second upload of the same files is refused.
    for p in &paths {
        assert!(check_init_upload(&env.uploads, p).is_err(), "duplicate batch upload should fail");
    }
}

#[test]
fn test_mint_authorized() {
    let mut env = default_test_setup();
    let nft_owner1 = env.nft_owner1.clone();
    assert!(
        grant_permission(&mut env.permissions, nft_owner1.clone(), Permission::Minting).is_ok(),
        "Should succeed with authorized principal"
    );
    let controller = env.controller.clone();
    let metadata_url = env.upload_file(&controller, "/metadata/authorized.json").unwrap();
    let request = MintRequest {
        token_owner: Account { owner: nft_owner1.clone(), subaccount: None },
        memo: None,
        metadata: create_default_icrc97_metadata(&metadata_url),
    };
    let result = env.mint(&nft_owner1, vec![request]);
    assert!(result.is_ok(), "Should succeed with authorized principal");
    let listed = token_metadata(&env.metadata, result.unwrap());
    assert_eq!(listed[0].0, "icrc97:metadata");
}

#[test]
fn test_mint_with_metadata() {
    let mut env = default_test_setup();
    let controller = env.controller.clone();
    let metadata_url = env.upload_file(&controller, "/metadata/test.json").unwrap();
    let request = MintRequest {
        token_owner: Account { owner: env.nft_owner1.clone(), subaccount: None },
        memo: None,
        metadata: create_default_icrc97_metadata(&metadata_url),
    };
    let result = env.mint(&controller, vec![request]);
    assert!(result.is_ok(), "Should succeed with authorized principal");
    match &token_metadata(&env.metadata, result.unwrap())[0].1 {
        Value::Array(urls) => match &urls[0] {
            Value::Text(u) => assert_eq!(u, &metadata_url),
            _ => panic!("a text expected"),
        },
        _ => panic!("an array expected"),
    }
}

#[test]
fn test_update_collection_metadata() {
    let mut env = default_test_setup();
    let controller = env.controller.clone();
    assert!(check_permission(&env.permissions, &controller, Permission::UpdateCollectionMetadata).is_ok());
    let args = UpdateCollectionMetadataArgs {
        description: Some("Test Description".to_string()),
        symbol: Some("TEST".to_string()),
        name: Some("Test Collection".to_string()),
        logo: Some("https://google.com/test.png".to_string()),
        supply_cap: Some(Nat::from_u64(1000)),
        max_query_batch_size: Some(Nat::from_u64(100)),
        max_update_batch_size: Some(Nat::from_u64(50)),
        max_take_value: Some(Nat::from_u64(200)),
        default_take_value: Some(Nat::from_u64(20)),
        max_memo_size: Some(Nat::from_u64(32)),
        atomic_batch_transfers: Some(true),
        tx_window: Some(Nat::from_u64(3600)),
        permitted_drift: Some(Nat::from_u64(60)),
        max_canister_storage_threshold: Some(Nat::from_u64(1000000)),
        collection_metadata: Some(Vec::new()),
        is_prod: None,
    };
    update_collection_metadata(&mut env.config, args);
    assert_eq!(env.config.name, "Test Collection");
    assert_eq!(env.config.supply_cap.as_ref().unwrap().to_u64(), Some(1000));
}

#[test]
fn test_permissions_add_and_remove_one_by_one() {
    let mut env = default_test_setup();
    let test_principal = env.nft_owner1.clone();
    let controller = env.controller.clone();
    assert!(
        grant_permission(&mut env.permissions, test_principal.clone(), Permission::Minting).is_ok(),
        "Should grant minting permission successfully"
    );
    let metadata_url = env.upload_file(&controller, "/metadata/after.json").unwrap();
    let mint_result_after = env.mint(
        &test_principal,
        vec![MintRequest {
            token_owner: Account { owner: test_principal.clone(), subaccount: None },
            memo: None,
            metadata: create_default_icrc97_metadata(&metadata_url),
        }],
    );
    assert!(mint_result_after.is_ok(), "Minting should work after permission is granted");
    let token_id = mint_result_after.unwrap();
    assert!(
        revoke_permission(&mut env.permissions, &test_principal, Permission::Minting).is_ok(),
        "Should revoke minting permission successfully"
    );
    assert!(check_permission(&env.permissions, &test_principal, Permission::Minting).is_err());
    assert!(
        grant_permission(&mut env.permissions, test_principal.clone(), Permission::UpdateMetadata).is_ok(),
        "Should grant UpdateMetadata permission successfully"
    );
    assert!(check_permission(&env.permissions, &test_principal, Permission::UpdateMetadata).is_ok());
    let update_url = env.upload_file(&controller, "/metadata/update.json").unwrap();
    let tx = plan_update_nft_metadata(
        &env.ledger,
        &mut env.metadata,
        token_id,
        create_default_icrc97_metadata(&update_url),
        &test_principal,
        env.now,
    );
    assert!(tx.is_ok());
    assert!(
        finish_update_nft_metadata(token_id, Ok(())).is_ok(),
        "Metadata update should work after permission is granted"
    );
    assert!(
        revoke_permission(&mut env.permissions, &test_principal, Permission::UpdateMetadata).is_ok(),
        "Should revoke UpdateMetadata permission successfully"
    );
    assert!(
        grant_permission(&mut env.permissions, test_principal.clone(), Permission::UpdateUploads).is_ok(),
        "Should grant UpdateUploads permission successfully"
    );
    assert!(env.init_upload(&test_principal, "/test_permissions.png").is_ok(), "Upload should work after permission is granted");
    assert!(
        revoke_permission(&mut env.permissions, &test_principal, Permission::UpdateUploads).is_ok(),
        "Should revoke UpdateUploads permission successfully"
    );
    assert!(
        grant_permission(&mut env.permissions, test_principal.clone(), Permission::ReadUploads).is_ok(),
        "Should grant ReadUploads permission successfully"
    );
    assert!(
        env.get_upload_status(&test_principal, "/test_permissions.png").is_ok(),
        "Get upload status should work after permission is granted"
    );
    assert!(
        revoke_permission(&mut env.permissions, &test_principal, Permission::ReadUploads).is_ok(),
        "Should revoke ReadUploads permission successfully"
    );
    assert!(
        grant_permission(&mut env.permissions, test_principal.clone(), Permission::UpdateCollectionMetadata).is_ok(),
        "Should grant UpdateCollectionMetadata permission successfully"
    );
    assert!(check_permission(&env.permissions, &test_principal, Permission::UpdateCollectionMetadata).is_ok());
    update_collection_metadata(
        &mut env.config,
        UpdateCollectionMetadataArgs {
            description: Some("Authorized collection update".to_string()),
            symbol: None,
            name: None,
            logo: None,
            supply_cap: None,
            max_query_batch_size: None,
            max_update_batch_size: None,
            max_take_value: None,
            default_take_value: None,
            max_memo_size: None,
            atomic_batch_transfers: None,
            tx_window: None,
            permitted_drift: None,
            max_canister_storage_threshold: None,
            collection_metadata: None,
            is_prod: None,
        },
    );
    assert_eq!(env.config.description.as_deref(), Some("Authorized collection update"));
    assert!(
        revoke_permission(&mut env.permissions, &test_principal, Permission::UpdateCollectionMetadata).is_ok(),
        "Should revoke UpdateCollectionMetadata permission successfully"
    );
    assert!(
        grant_permission(&mut env.permissions, test_principal.clone(), Permission::ManageAuthorities).is_ok(),
        "Should grant ManageAuthorities permission successfully"
    );
    assert!(check_permission(&env.permissions, &test_principal, Permission::ManageAuthorities).is_ok());
    let nft_owner2 = vec![30u8, 0, 1];
    assert!(
        grant_permission(&mut env.permissions, nft_owner2.clone(), Permission::Minting).is_ok(),
        "Permission management should work after permission is granted"
    );
    assert!(check_permission(&env.permissions, &nft_owner2, Permission::Minting).is_ok());
    assert!(
        revoke_permission(&mut env.permissions, &test_principal, Permission::ManageAuthorities).is_ok(),
        "Should revoke ManageAuthorities permission successfully"
    );
    assert!(check_permission(&env.permissions, &test_principal, Permission::ManageAuthorities).is_err());
}

fn collection_update(description: &str) -> UpdateCollectionMetadataArgs {
    UpdateCollectionMetadataArgs {
        description: Some(description.to_string()),
        symbol: None,
        name: None,
        logo: None,
        supply_cap: None,
        max_query_batch_size: None,
        max_update_batch_size: None,
        max_take_value: None,
        default_take_value: None,
        max_memo_size: None,
        atomic_batch_transfers: None,
        tx_window: None,
        permitted_drift: None,
        max_canister_storage_threshold: None,
        collection_metadata: None,
        is_prod: None,
    }
}

#[test]
fn test_cancel_upload() {
    let mut env = default_test_setup();
    let controller = env.controller.clone();
    let buffer = vec![0x89u8; 2048];
    assert_eq!(buffer.len(), 2048);
    let init_upload_resp = env.init_upload(&controller, "/test_cancel.png");
    assert!(init_upload_resp.is_ok());
    let cancel_upload_resp = env.cancel_upload(&controller, "/test_cancel.png");
    assert!(cancel_upload_resp.is_ok());
    let finalize_upload_resp = env.finalize_upload(&controller, "/test.png");
    assert!(finalize_upload_resp.is_err(), "Finalize upload should not be allowed for a canceled upload");
}

#[test]
#[should_panic]
fn test_update_nft_metadata_unauthorized() {
    let mut env = default_test_setup();
    let controller = env.controller.clone();
    let metadata_url = env.upload_file(&controller, "/metadata/unauthorized.json").unwrap();
    let unauthorized_principal = env.nft_owner1.clone();
    env.update_nft_metadata(&unauthorized_principal, 0, create_default_icrc97_metadata(&metadata_url));
}

#[test]
#[should_panic]
fn test_init_upload_unauthorized() {
    let mut env = default_test_setup();
    let unauthorized_principal = env.nft_owner1.clone();
    let _ = env.init_upload(&unauthorized_principal, "/test.png");
}

#[test]
#[should_panic]
fn test_store_chunk_unauthorized() {
    let mut env = default_test_setup();
    let unauthorized_principal = env.nft_owner1.clone();
    let _ = env.store_chunk(&unauthorized_principal, "/test.png");
}

#[test]
#[should_panic]
fn test_finalize_upload_unauthorized() {
    let mut env = default_test_setup();
    let unauthorized_principal = env.nft_owner1.clone();
    let _ = env.finalize_upload(&unauthorized_principal, "/test.png");
}

#[test]
#[should_panic]
fn test_cancel_upload_unauthorized() {
    let mut env = default_test_setup();
    let unauthorized_principal = env.nft_owner1.clone();
    let _ = env.cancel_upload(&unauthorized_principal, "/test.png");
}

#[test]
#[should_panic]
fn test_mint_unauthorized() {
    let mut env = default_test_setup();
    let controller = env.controller.clone();
    let metadata_url = env.upload_file(&controller, "/metadata/unauthorized_mint.json").unwrap();
    let unauthorized_principal = env.nft_owner1.clone();
    let _ = env.mint(
        &unauthorized_principal,
        vec![MintRequest {
            token_owner: Account { owner: unauthorized_principal.clone(), subaccount: None },
            memo: None,
            metadata: create_default_icrc97_metadata(&metadata_url),
        }],
    );
    assert!(false, "mint should panic");
}

#[test]
#[should_panic]
fn test_add_then_remove_minting_authorities_unauthorized() {
    let mut env = default_test_setup();
    let controller = env.controller.clone();
    let nft_owner1 = env.nft_owner1.clone();
    env.require(&controller, Permission::ManageAuthorities);
    let result = grant_permission(&mut env.permissions, nft_owner1.clone(), Permission::Minting);
    assert!(result.is_ok(), "Should succeed with authorized principal");
    let result = revoke_permission(&mut env.permissions, &nft_owner1, Permission::Minting);
    assert!(result.is_ok(), "Should succeed with authorized principal");
    let metadata_url = env.upload_file(&controller, "/metadata/removed_authority.json").unwrap();
    let _ = env.mint(
        &nft_owner1,
        vec![MintRequest {
            token_owner: Account { owner: nft_owner1.clone(), subaccount: None },
            memo: None,
            metadata: create_default_icrc97_metadata(&metadata_url),
        }],
    );
    assert!(false, "should panic");
}

#[test]
#[should_panic]
fn test_update_collection_metadata_unauthorized() {
    let mut env = default_test_setup();
    let nft_owner1 = env.nft_owner1.clone();
    env.update_collection_metadata(&nft_owner1, collection_update("Unauthorized Update"));
}

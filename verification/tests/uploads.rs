use core_nft::sorted::SortedMap;
use core_nft::uploads::{
    abandon_store_chunk, asset_url_for, build_asset_url, check_batch, check_cancel_upload, check_finalize_upload,
    check_init_upload, check_store_chunk, get_all_uploads, get_upload_status, normalize_media_path,
    record_batch_chunks_stored, record_batch_finalized, record_batch_init_upload, record_chunk_stored,
    record_init_upload, record_upload_cancelled, record_upload_finalized, CancelUploadError, FinalizeUploadError,
    GetUploadStatusError, InitUploadError, StoreChunkError, UploadState, UploadTracker,
};
use core_nft::uploads::{
    cancel_upload_from_storage, finalize_upload_from_storage, init_upload_from_storage, store_chunk_from_storage,
    StorageRefusal,
};
use core_nft::value::Nat;

fn path(s: &str) -> String {
    s.to_string()
}

#[test]
fn media_paths_start_with_a_slash() {
    assert_eq!(normalize_media_path("img/a.png"), "/img/a.png");
    assert_eq!(normalize_media_path("/img/a.png"), "/img/a.png");
    assert_eq!(normalize_media_path(""), "/");
}

#[test]
fn asset_addresses() {
    assert_eq!(asset_url_for("abc", "/x", true), "https://abc.raw.icp0.io/x");
    assert_eq!(asset_url_for("abc", "/x", false), "http://abc.raw.localhost:4943/x");
    // The management canister and the anonymous principal have well known texts.
    assert_eq!(build_asset_url(&vec![], "/f", true), "https://aaaaa-aa.raw.icp0.io/f");
    assert_eq!(build_asset_url(&vec![4], "/f", false), "http://2vxsx-fae.raw.localhost:4943/f");
}

#[test]
fn an_upload_goes_from_start_to_finish() {
    let mut t = UploadTracker::new();
    let p = path("a.png");
    assert!(check_init_upload(&t, &p).is_ok());
    record_init_upload(&mut t, p.clone(), vec![4], 100);
    assert!(matches!(check_init_upload(&t, &p), Err(InitUploadError::FileAlreadyExists)));
    assert_eq!(get_upload_status(&t, &p).unwrap(), UploadState::Init);
    assert!(matches!(check_finalize_upload(&t, &p), Err(FinalizeUploadError::UploadNotStarted)));

    let record = check_store_chunk(&t, &p).unwrap();
    assert_eq!(record.init_timestamp, 100);
    record_chunk_stored(&mut t, &p, record);
    assert_eq!(get_upload_status(&t, &p).unwrap(), UploadState::InProgress);

    let record = check_finalize_upload(&t, &p).unwrap();
    let mut redirections: SortedMap<String, String> = SortedMap::new();
    let done = record_upload_finalized(&mut t, &mut redirections, &p, record, &vec![], true);
    assert_eq!(done.media_path, "/a.png");
    assert_eq!(done.redirection_url, "https://2vxsx-fae.raw.icp0.io/a.png");
    assert_eq!(done.url, "https://aaaaa-aa.raw.icp0.io/a.png");
    assert_eq!(redirections.entries.len(), 1);
    assert_eq!(get_upload_status(&t, &p).unwrap(), UploadState::Finalized);
    assert!(matches!(check_store_chunk(&t, &p), Err(StoreChunkError::UploadAlreadyFinalized)));
    assert!(matches!(check_cancel_upload(&t, &p), Err(CancelUploadError::UploadAlreadyFinalized)));
    assert!(matches!(check_finalize_upload(&t, &p), Err(FinalizeUploadError::UploadAlreadyFinalized)));
}

#[test]
fn unknown_and_cancelled_uploads() {
    let mut t = UploadTracker::new();
    let p = path("b");
    assert!(matches!(check_store_chunk(&t, &p), Err(StoreChunkError::UploadNotInitialized)));
    assert!(matches!(check_cancel_upload(&t, &p), Err(CancelUploadError::UploadNotInitialized)));
    assert!(matches!(get_upload_status(&t, &p), Err(GetUploadStatusError::UploadNotFound)));
    record_init_upload(&mut t, p.clone(), vec![1, 2], 5);
    assert_eq!(check_cancel_upload(&t, &p).unwrap(), vec![1, 2]);
    record_upload_cancelled(&mut t, &p);
    assert!(matches!(get_upload_status(&t, &p), Err(GetUploadStatusError::UploadNotFound)));
    record_init_upload(&mut t, p.clone(), vec![1, 2], 5);
    match abandon_store_chunk(&mut t, &p) {
        StoreChunkError::StorageCanisterError(m) => {
            assert_eq!(m, "Storage canister not found. Cancelling the upload.")
        },
        _ => panic!("expected a storage error"),
    }
    assert!(!t.contains_path(&p));
}

#[test]
fn listing_uploads_in_path_order() {
    let mut t = UploadTracker::new();
    for name in ["c", "a", "b"] {
        record_init_upload(&mut t, path(name), vec![1], 0);
    }
    let all = get_all_uploads(&t, &None, &None).unwrap();
    let names: Vec<&str> = all.iter().map(|(p, _)| p.as_str()).collect();
    assert_eq!(names, vec!["a", "b", "c"]);
    let page = get_all_uploads(&t, &Some(Nat::from_u64(1)), &Some(Nat::from_u64(1))).unwrap();
    assert_eq!(page.len(), 1);
    assert_eq!(page[0].0, "b");
    assert!(get_all_uploads(&t, &Some(Nat::from_u64(5)), &None).unwrap().is_empty());
}

#[test]
fn batches() {
    let mut t = UploadTracker::new();
    let paths = vec![path("x"), path("y"), path("z")];
    record_batch_init_upload(&mut t, &paths, &vec![true, false, true], &vec![3], 9);
    assert!(t.contains_path(&path("x")));
    assert!(!t.contains_path(&path("y")));
    assert!(t.contains_path(&path("z")));
    assert_eq!(check_batch(&t, &paths).unwrap().unwrap(), vec![3]);
    assert_eq!(check_batch(&t, &vec![path("y")]).unwrap_err(), "Upload not initialized");
    assert!(check_batch(&t, &Vec::new()).unwrap().is_none());
    record_batch_chunks_stored(&mut t, &paths, &vec![true, true, false]);
    assert_eq!(get_upload_status(&t, &path("x")).unwrap(), UploadState::InProgress);
    assert!(!t.contains_path(&path("y")));
    assert_eq!(get_upload_status(&t, &path("z")).unwrap(), UploadState::Init);
    let mut redirections: SortedMap<String, String> = SortedMap::new();
    let made = record_batch_finalized(&mut t, &mut redirections, &paths, &vec![true, true, false], &vec![], false);
    assert_eq!(made.len(), 2);
    assert_eq!(made[0], ("/x".to_string(), "http://aaaaa-aa.raw.localhost:4943/x".to_string()));
    assert_eq!(get_upload_status(&t, &path("x")).unwrap(), UploadState::Finalized);
    assert!(!t.contains_path(&path("y")));
    assert_eq!(redirections.entries.len(), 2);
}

#[test]
fn storage_refusals_are_passed_on() {
    assert_eq!(init_upload_from_storage::<u8>(Ok(3)).unwrap(), 3);
    assert!(matches!(
        init_upload_from_storage::<u8>(Err(StorageRefusal::FileAlreadyExists)),
        Err(InitUploadError::FileAlreadyExists)
    ));
    assert!(matches!(
        init_upload_from_storage::<u8>(Err(StorageRefusal::UploadNotStarted)),
        Err(InitUploadError::StorageCanisterError(m)) if m == "UploadNotStarted"
    ));
    assert!(matches!(
        store_chunk_from_storage::<u8>(Err(StorageRefusal::UploadAlreadyFinalized)),
        Err(StoreChunkError::UploadAlreadyFinalized)
    ));
    assert!(matches!(
        store_chunk_from_storage::<u8>(Err(StorageRefusal::Other("ChunkTooLarge".to_string()))),
        Err(StoreChunkError::StorageCanisterError(m)) if m == "ChunkTooLarge"
    ));
    assert!(matches!(
        finalize_upload_from_storage::<u8>(Err(StorageRefusal::IncompleteUpload)),
        Err(FinalizeUploadError::IncompleteUpload)
    ));
    assert!(matches!(
        cancel_upload_from_storage::<u8>(Err(StorageRefusal::UploadNotInitialized)),
        Err(CancelUploadError::UploadNotInitialized)
    ));
}

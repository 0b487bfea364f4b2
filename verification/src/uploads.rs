//! File uploads to the storage canisters: what the collection records of each upload, the
//! checks made before each call to a storage canister and the records made after it, and the
//! addresses under which finished files are served.
use vstd::prelude::*;

use crate::sorted::{pairs_view, SortedMap};
use crate::text::append_text;
use crate::value::Nat;

verus! {

/// The stage an upload has reached.
#[derive(Clone, Copy, Debug, PartialEq, Eq, Structural)]
pub enum UploadState {
    Init,
    InProgress,
    Finalized,
}

/// What the collection records of an upload.
#[derive(Debug)]
pub struct UploadRecord {
    pub init_timestamp: u64,
    pub state: UploadState,
    /// The bytes of the storage canister's principal.
    pub canister: Vec<u8>,
    pub path: String,
}

/// What an upload record is.
pub ghost struct UploadView {
    pub init_timestamp: u64,
    pub state: UploadState,
    pub canister: Seq<u8>,
    pub path: Seq<char>,
}

impl View for UploadRecord {
    type V = UploadView;

    open spec fn view(&self) -> UploadView {
        UploadView {
            init_timestamp: self.init_timestamp,
            state: self.state,
            canister: self.canister@,
            path: self.path@,
        }
    }
}

/// A copy of a record.
pub fn copy_record(r: &UploadRecord) -> (c: UploadRecord)
    ensures
        c@ == r@,
{
    UploadRecord {
        init_timestamp: r.init_timestamp,
        state: r.state,
        canister: crate::account::copy_bytes(&r.canister),
        path: r.path.clone(),
    }
}

/// The uploads, by file path.
pub struct UploadTracker {
    pub uploads: SortedMap<String, UploadRecord>,
}

impl View for UploadTracker {
    type V = Map<Seq<char>, UploadView>;

    open spec fn view(&self) -> Map<Seq<char>, UploadView> {
        self.uploads@
    }
}

/// Why an upload cannot start.
#[derive(Debug)]
pub enum InitUploadError {
    ConcurrentManagementCall,
    FileAlreadyExists,
    StorageCanisterError(String),
}

/// Why a chunk cannot be stored.
#[derive(Debug)]
pub enum StoreChunkError {
    ConcurrentManagementCall,
    UploadNotInitialized,
    UploadAlreadyFinalized,
    StorageCanisterError(String),
}

/// Why an upload cannot be finished.
#[derive(Debug)]
pub enum FinalizeUploadError {
    ConcurrentManagementCall,
    UploadNotStarted,
    UploadAlreadyFinalized,
    IncompleteUpload,
    StorageCanisterError(String),
}

/// Why an upload cannot be cancelled.
#[derive(Debug)]
pub enum CancelUploadError {
    ConcurrentManagementCall,
    UploadNotInitialized,
    UploadAlreadyFinalized,
    StorageCanisterError(String),
}

/// Why the state of an upload cannot be given.
#[derive(Debug)]
pub enum GetUploadStatusError {
    UploadNotFound,
    StorageCanisterError(String),
}

/// Why the uploads cannot be listed.
#[derive(Debug)]
pub enum GetAllUploadsError {
    StorageCanisterError(String),
}

/// Why a batch of uploads cannot start.
#[derive(Debug)]
pub enum BatchInitUploadError {
    ConcurrentManagementCall,
    StorageCanisterError(String),
}

/// Why a batch of chunks cannot be stored.
#[derive(Debug)]
pub enum BatchStoreChunksError {
    ConcurrentManagementCall,
    StorageCanisterError(String),
}

/// Why a batch of uploads cannot be finished.
#[derive(Debug)]
pub enum BatchFinalizeUploadError {
    ConcurrentManagementCall,
    StorageCanisterError(String),
}

/// Why a storage canister refused an upload call: the refusals the collection tells apart, and
/// any other, by its debug text.
#[derive(Debug)]
pub enum StorageRefusal {
    FileAlreadyExists,
    UploadNotInitialized,
    UploadAlreadyFinalized,
    UploadNotStarted,
    IncompleteUpload,
    Other(String),
}

/// The debug text of a storage refusal.
pub open spec fn refusal_text(e: StorageRefusal) -> Seq<char> {
    match e {
        StorageRefusal::FileAlreadyExists => "FileAlreadyExists"@,
        StorageRefusal::UploadNotInitialized => "UploadNotInitialized"@,
        StorageRefusal::UploadAlreadyFinalized => "UploadAlreadyFinalized"@,
        StorageRefusal::UploadNotStarted => "UploadNotStarted"@,
        StorageRefusal::IncompleteUpload => "IncompleteUpload"@,
        StorageRefusal::Other(t) => t@,
    }
}

fn refusal_string(e: StorageRefusal) -> (r: String)
    ensures
        r@ == refusal_text(e),
{
    proof {
        reveal_strlit("FileAlreadyExists");
        reveal_strlit("UploadNotInitialized");
        reveal_strlit("UploadAlreadyFinalized");
        reveal_strlit("UploadNotStarted");
        reveal_strlit("IncompleteUpload");
    }
    match e {
        StorageRefusal::FileAlreadyExists => String::from_str("FileAlreadyExists"),
        StorageRefusal::UploadNotInitialized => String::from_str("UploadNotInitialized"),
        StorageRefusal::UploadAlreadyFinalized => String::from_str("UploadAlreadyFinalized"),
        StorageRefusal::UploadNotStarted => String::from_str("UploadNotStarted"),
        StorageRefusal::IncompleteUpload => String::from_str("IncompleteUpload"),
        StorageRefusal::Other(t) => t,
    }
}

/// The answer to a start of an upload from the storage canister's: a file that exists keeps
/// its refusal, any other refusal is passed on as text.
pub fn init_upload_from_storage<T>(resp: Result<T, StorageRefusal>) -> (r: Result<T, InitUploadError>)
    ensures
        resp is Ok ==> r is Ok && r->Ok_0 == resp->Ok_0,
        resp matches Err(StorageRefusal::FileAlreadyExists) ==> r matches Err(InitUploadError::FileAlreadyExists),
        (resp is Err && !(resp matches Err(StorageRefusal::FileAlreadyExists))) ==> (r matches Err(InitUploadError::StorageCanisterError(m))
            && m@ == refusal_text(resp->Err_0)),
{
    match resp {
        Ok(data) => Ok(data),
        Err(StorageRefusal::FileAlreadyExists) => Err(InitUploadError::FileAlreadyExists),
        Err(e) => Err(InitUploadError::StorageCanisterError(refusal_string(e))),
    }
}

/// The answer to a chunk from the storage canister's: an upload not started, or finished,
/// keeps its refusal, any other refusal is passed on as text.
pub fn store_chunk_from_storage<T>(resp: Result<T, StorageRefusal>) -> (r: Result<T, StoreChunkError>)
    ensures
        resp is Ok ==> r is Ok && r->Ok_0 == resp->Ok_0,
        resp matches Err(StorageRefusal::UploadNotInitialized) ==> r matches Err(StoreChunkError::UploadNotInitialized),
        resp matches Err(StorageRefusal::UploadAlreadyFinalized) ==> r matches Err(StoreChunkError::UploadAlreadyFinalized),
        (resp is Err && !(resp matches Err(StorageRefusal::UploadNotInitialized)) && !(resp matches Err(
            StorageRefusal::UploadAlreadyFinalized,
        ))) ==> (r matches Err(StoreChunkError::StorageCanisterError(m)) && m@ == refusal_text(resp->Err_0)),
{
    match resp {
        Ok(data) => Ok(data),
        Err(StorageRefusal::UploadNotInitialized) => Err(StoreChunkError::UploadNotInitialized),
        Err(StorageRefusal::UploadAlreadyFinalized) => Err(StoreChunkError::UploadAlreadyFinalized),
        Err(e) => Err(StoreChunkError::StorageCanisterError(refusal_string(e))),
    }
}

/// The answer to a finish of an upload from the storage canister's: an upload not started,
/// finished or incomplete keeps its refusal, any other refusal is passed on as text.
pub fn finalize_upload_from_storage<T>(resp: Result<T, StorageRefusal>) -> (r: Result<T, FinalizeUploadError>)
    ensures
        resp is Ok ==> r is Ok && r->Ok_0 == resp->Ok_0,
        resp matches Err(StorageRefusal::UploadNotStarted) ==> r matches Err(FinalizeUploadError::UploadNotStarted),
        resp matches Err(StorageRefusal::UploadAlreadyFinalized) ==> r matches Err(FinalizeUploadError::UploadAlreadyFinalized),
        resp matches Err(StorageRefusal::IncompleteUpload) ==> r matches Err(FinalizeUploadError::IncompleteUpload),
        (resp is Err && !(resp matches Err(StorageRefusal::UploadNotStarted)) && !(resp matches Err(
            StorageRefusal::UploadAlreadyFinalized,
        )) && !(resp matches Err(StorageRefusal::IncompleteUpload))) ==> (r matches Err(
            FinalizeUploadError::StorageCanisterError(m),
        ) && m@ == refusal_text(resp->Err_0)),
{
    match resp {
        Ok(data) => Ok(data),
        Err(StorageRefusal::UploadNotStarted) => Err(FinalizeUploadError::UploadNotStarted),
        Err(StorageRefusal::UploadAlreadyFinalized) => Err(FinalizeUploadError::UploadAlreadyFinalized),
        Err(StorageRefusal::IncompleteUpload) => Err(FinalizeUploadError::IncompleteUpload),
        Err(e) => Err(FinalizeUploadError::StorageCanisterError(refusal_string(e))),
    }
}

/// The answer to a cancellation from the storage canister's: its one refusal, an upload not
/// started, is kept; a refusal it does not give is passed on as text.
pub fn cancel_upload_from_storage<T>(resp: Result<T, StorageRefusal>) -> (r: Result<T, CancelUploadError>)
    ensures
        resp is Ok ==> r is Ok && r->Ok_0 == resp->Ok_0,
        resp matches Err(StorageRefusal::UploadNotInitialized) ==> r matches Err(CancelUploadError::UploadNotInitialized),
        (resp is Err && !(resp matches Err(StorageRefusal::UploadNotInitialized))) ==> (r matches Err(
            CancelUploadError::StorageCanisterError(m),
        ) && m@ == refusal_text(resp->Err_0)),
{
    match resp {
        Ok(data) => Ok(data),
        Err(StorageRefusal::UploadNotInitialized) => Err(CancelUploadError::UploadNotInitialized),
        Err(e) => Err(CancelUploadError::StorageCanisterError(refusal_string(e))),
    }
}

/// The message given, after dropping the upload, when its storage canister is unknown.
pub open spec fn canister_gone() -> Seq<char> {
    "Storage canister not found. Cancelling the upload."@
}

/// The message given when the first file of a batch has no upload.
pub open spec fn batch_not_initialized() -> Seq<char> {
    "Upload not initialized"@
}

/// The message given when the storage canister of a batch is unknown.
pub open spec fn batch_canister_unknown() -> Seq<char> {
    "Storage canister not found"@
}

/// The path under which a file is served: the file path with a leading '/', added where it
/// has none.
pub open spec fn media_path(path: Seq<char>) -> Seq<char> {
    if path.len() > 0 && path[0] == '/' {
        path
    } else {
        seq!['/'] + path
    }
}

/// The path under which a file is served.
pub fn normalize_media_path(path: &str) -> (r: String)
    ensures
        r@ == media_path(path@),
{
    let n = path.unicode_len();
    if n > 0 && path.get_char(0) == '/' {
        let mut r = String::new();
        append_text(&mut r, path);
        r
    } else {
        let mut r = String::new();
        crate::text::push_char(&mut r, '/');
        append_text(&mut r, path);
        assert(r@ =~= seq!['/'] + path@);
        r
    }
}

/// The address of a file served by the canister whose principal reads `canister`: on the
/// `raw.icp0.io` domain over https in production, else on the local replica's
/// `raw.localhost:4943` over http.
pub open spec fn asset_url(canister: Seq<char>, path: Seq<char>, is_prod: bool) -> Seq<char> {
    if is_prod {
        "https://"@ + canister + ".raw.icp0.io"@ + path
    } else {
        "http://"@ + canister + ".raw.localhost:4943"@ + path
    }
}

/// The address of a file served by the canister whose principal reads `canister`.
pub fn asset_url_for(canister: &str, path: &str, is_prod: bool) -> (r: String)
    ensures
        r@ == asset_url(canister@, path@, is_prod),
{
    let mut r = String::new();
    if is_prod {
        append_text(&mut r, "https://");
        append_text(&mut r, canister);
        append_text(&mut r, ".raw.icp0.io");
    } else {
        append_text(&mut r, "http://");
        append_text(&mut r, canister);
        append_text(&mut r, ".raw.localhost:4943");
    }
    append_text(&mut r, path);
    assert(r@ =~= asset_url(canister@, path@, is_prod));
    r
}

/// The text form of the principal with these bytes.
pub uninterp spec fn principal_text(bytes: Seq<u8>) -> Seq<char>;

/// `Principal::from_slice` then `Principal::to_text` of `candid`: the text form of the
/// principal with these bytes (a checksum and the bytes in base 32, grouped by dashes); the
/// result is named, not stated.
#[verifier::external_body]
fn principal_to_text(bytes: &Vec<u8>) -> (r: String)
    requires
        bytes@.len() <= 29,
    ensures
        r@ == principal_text(bytes@),
{
    candid::Principal::from_slice(bytes.as_slice()).to_text()
}

/// The address of a file served by the canister with principal bytes `canister`.
pub fn build_asset_url(canister: &Vec<u8>, path: &str, is_prod: bool) -> (r: String)
    requires
        canister@.len() <= 29,
    ensures
        r@ == asset_url(principal_text(canister@), path@, is_prod),
{
    let text = principal_to_text(canister);
    asset_url_for(text.as_str(), path, is_prod)
}

impl UploadTracker {
    /// The uploads are kept in path order.
    pub open spec fn wf(&self) -> bool {
        self.uploads.wf()
    }

    /// No uploads.
    pub fn new() -> (r: UploadTracker)
        ensures
            r.wf(),
            r@ == Map::<Seq<char>, UploadView>::empty(),
    {
        UploadTracker { uploads: SortedMap::new() }
    }

    /// Whether an upload is recorded under `path`.
    pub fn contains_path(&self, path: &String) -> (r: bool)
        requires
            self.wf(),
        ensures
            r == self@.contains_key(path@),
    {
        self.uploads.get(path).is_some()
    }
}

/// Starting an upload of a file that has one already is refused.
pub fn check_init_upload(tracker: &UploadTracker, path: &String) -> (r: Result<(), InitUploadError>)
    requires
        tracker.wf(),
    ensures
        r is Ok <==> !tracker@.contains_key(path@),
        r is Err ==> r matches Err(InitUploadError::FileAlreadyExists),
{
    if tracker.contains_path(path) {
        Err(InitUploadError::FileAlreadyExists)
    } else {
        Ok(())
    }
}

/// The record of a started upload.
pub open spec fn started(path: Seq<char>, canister: Seq<u8>, now: u64) -> UploadView {
    UploadView { init_timestamp: now, state: UploadState::Init, canister, path }
}

/// Records an upload that the storage canister `canister` has started.
pub fn record_init_upload(tracker: &mut UploadTracker, path: String, canister: Vec<u8>, now: u64)
    requires
        old(tracker).wf(),
    ensures
        final(tracker).wf(),
        final(tracker)@ == old(tracker)@.insert(path@, started(path@, canister@, now)),
{
    let key = path.clone();
    let record = UploadRecord { init_timestamp: now, state: UploadState::Init, canister, path };
    tracker.uploads.insert(key, record);
}

/// The upload a chunk goes to: one that exists and is not finished.
pub fn check_store_chunk(tracker: &UploadTracker, path: &String) -> (r: Result<UploadRecord, StoreChunkError>)
    requires
        tracker.wf(),
    ensures
        !tracker@.contains_key(path@) ==> r matches Err(StoreChunkError::UploadNotInitialized),
        tracker@.contains_key(path@) && tracker@[path@].state == UploadState::Finalized ==> r matches Err(
            StoreChunkError::UploadAlreadyFinalized,
        ),
        tracker@.contains_key(path@) && tracker@[path@].state != UploadState::Finalized ==> (r matches Ok(u)
            && u@ == tracker@[path@]),
{
    match tracker.uploads.get(path) {
        Some(record) => match record.state {
            UploadState::Finalized => Err(StoreChunkError::UploadAlreadyFinalized),
            _ => Ok(copy_record(record)),
        },
        None => Err(StoreChunkError::UploadNotInitialized),
    }
}

/// The upload with its stage changed, the rest kept.
pub open spec fn with_state(u: UploadView, state: UploadState) -> UploadView {
    UploadView { state, ..u }
}

/// Records that a chunk of the upload `record` (found under `path`) was stored.
pub fn record_chunk_stored(tracker: &mut UploadTracker, path: &String, record: UploadRecord)
    requires
        old(tracker).wf(),
    ensures
        final(tracker).wf(),
        final(tracker)@ == old(tracker)@.insert(path@, with_state(record@, UploadState::InProgress)),
{
    let mut r = record;
    r.state = UploadState::InProgress;
    tracker.uploads.insert(path.clone(), r);
}

/// Drops the upload under `path`, whose storage canister is unknown.
fn forget_upload(tracker: &mut UploadTracker, path: &String)
    requires
        old(tracker).wf(),
    ensures
        final(tracker).wf(),
        final(tracker)@ == old(tracker)@.remove(path@),
{
    tracker.uploads.remove(path);
}

/// Drops an upload whose storage canister is unknown, and gives the answer to the chunk.
pub fn abandon_store_chunk(tracker: &mut UploadTracker, path: &String) -> (r: StoreChunkError)
    requires
        old(tracker).wf(),
    ensures
        final(tracker).wf(),
        final(tracker)@ == old(tracker)@.remove(path@),
        r matches StoreChunkError::StorageCanisterError(m) && m@ == canister_gone(),
{
    forget_upload(tracker, path);
    proof {
        reveal_strlit("Storage canister not found. Cancelling the upload.");
    }
    StoreChunkError::StorageCanisterError(String::from_str("Storage canister not found. Cancelling the upload."))
}

/// The upload to finish: one that exists and has received chunks; one just started, or
/// unknown, has not started; a finished one is refused.
pub fn check_finalize_upload(tracker: &UploadTracker, path: &String) -> (r: Result<UploadRecord, FinalizeUploadError>)
    requires
        tracker.wf(),
    ensures
        (!tracker@.contains_key(path@) || tracker@[path@].state == UploadState::Init) ==> r matches Err(
            FinalizeUploadError::UploadNotStarted,
        ),
        tracker@.contains_key(path@) && tracker@[path@].state == UploadState::Finalized ==> r matches Err(
            FinalizeUploadError::UploadAlreadyFinalized,
        ),
        tracker@.contains_key(path@) && tracker@[path@].state == UploadState::InProgress ==> (r matches Ok(u)
            && u@ == tracker@[path@]),
{
    match tracker.uploads.get(path) {
        Some(record) => match record.state {
            UploadState::Init => Err(FinalizeUploadError::UploadNotStarted),
            UploadState::InProgress => Ok(copy_record(record)),
            UploadState::Finalized => Err(FinalizeUploadError::UploadAlreadyFinalized),
        },
        None => Err(FinalizeUploadError::UploadNotStarted),
    }
}

/// Drops an upload whose storage canister is unknown, and gives the answer to the request.
pub fn abandon_finalize_upload(tracker: &mut UploadTracker, path: &String) -> (r: FinalizeUploadError)
    requires
        old(tracker).wf(),
    ensures
        final(tracker).wf(),
        final(tracker)@ == old(tracker)@.remove(path@),
        r matches FinalizeUploadError::StorageCanisterError(m) && m@ == canister_gone(),
{
    forget_upload(tracker, path);
    proof {
        reveal_strlit("Storage canister not found. Cancelling the upload.");
    }
    FinalizeUploadError::StorageCanisterError(String::from_str("Storage canister not found. Cancelling the upload."))
}

/// Where a finished file is served: its media path, the address on its storage canister that
/// the path redirects to, and the address on this canister.
pub struct FinishedUpload {
    pub media_path: String,
    pub redirection_url: String,
    pub url: String,
}

/// Records a finished upload (`record`, found under `path`): the upload is marked finished,
/// and its media path redirects to the file on its storage canister. Gives the media path, that
/// address, and the file's address on this canister (`own_canister`).
pub fn record_upload_finalized(
    tracker: &mut UploadTracker,
    redirections: &mut SortedMap<String, String>,
    path: &String,
    record: UploadRecord,
    own_canister: &Vec<u8>,
    is_prod: bool,
) -> (r: FinishedUpload)
    requires
        old(tracker).wf(),
        old(redirections).wf(),
        record.canister@.len() <= 29,
        own_canister@.len() <= 29,
    ensures
        final(tracker).wf(),
        final(redirections).wf(),
        r.media_path@ == media_path(record.path@),
        r.redirection_url@ == asset_url(principal_text(record.canister@), media_path(record.path@), is_prod),
        r.url@ == asset_url(principal_text(own_canister@), media_path(record.path@), is_prod),
        final(redirections)@ == old(redirections)@.insert(r.media_path@, r.redirection_url@),
        final(tracker)@ == old(tracker)@.insert(path@, with_state(record@, UploadState::Finalized)),
{
    let media = normalize_media_path(record.path.as_str());
    let redirection_url = build_asset_url(&record.canister, media.as_str(), is_prod);
    redirections.insert(media.clone(), redirection_url.clone());
    let url = build_asset_url(own_canister, media.as_str(), is_prod);
    let mut finished = record;
    finished.state = UploadState::Finalized;
    tracker.uploads.insert(path.clone(), finished);
    FinishedUpload { media_path: media, redirection_url, url }
}

/// The storage canister of an upload to cancel: one that exists and is not finished.
pub fn check_cancel_upload(tracker: &UploadTracker, path: &String) -> (r: Result<Vec<u8>, CancelUploadError>)
    requires
        tracker.wf(),
    ensures
        !tracker@.contains_key(path@) ==> r matches Err(CancelUploadError::UploadNotInitialized),
        tracker@.contains_key(path@) && tracker@[path@].state == UploadState::Finalized ==> r matches Err(
            CancelUploadError::UploadAlreadyFinalized,
        ),
        tracker@.contains_key(path@) && tracker@[path@].state != UploadState::Finalized ==> (r matches Ok(c)
            && c@ == tracker@[path@].canister),
{
    match tracker.uploads.get(path) {
        Some(record) => match record.state {
            UploadState::Finalized => Err(CancelUploadError::UploadAlreadyFinalized),
            _ => Ok(crate::account::copy_bytes(&record.canister)),
        },
        None => Err(CancelUploadError::UploadNotInitialized),
    }
}

/// Drops an upload whose storage canister is unknown, and gives the answer to the request.
pub fn abandon_cancel_upload(tracker: &mut UploadTracker, path: &String) -> (r: CancelUploadError)
    requires
        old(tracker).wf(),
    ensures
        final(tracker).wf(),
        final(tracker)@ == old(tracker)@.remove(path@),
        r matches CancelUploadError::StorageCanisterError(m) && m@ == canister_gone(),
{
    forget_upload(tracker, path);
    proof {
        reveal_strlit("Storage canister not found. Cancelling the upload.");
    }
    CancelUploadError::StorageCanisterError(String::from_str("Storage canister not found. Cancelling the upload."))
}

/// Records a cancelled upload: it is dropped.
pub fn record_upload_cancelled(tracker: &mut UploadTracker, path: &String)
    requires
        old(tracker).wf(),
    ensures
        final(tracker).wf(),
        final(tracker)@ == old(tracker)@.remove(path@),
{
    forget_upload(tracker, path);
}

/// The stage of the upload under `path`.
pub fn get_upload_status(tracker: &UploadTracker, path: &String) -> (r: Result<UploadState, GetUploadStatusError>)
    requires
        tracker.wf(),
    ensures
        tracker@.contains_key(path@) ==> r == Ok::<UploadState, GetUploadStatusError>(tracker@[path@].state),
        !tracker@.contains_key(path@) ==> r matches Err(GetUploadStatusError::UploadNotFound),
{
    match tracker.uploads.get(path) {
        Some(record) => Ok(record.state),
        None => Err(GetUploadStatusError::UploadNotFound),
    }
}

/// A `usize` read from an optional number: `fallback` where there is none or it does not fit.
pub open spec fn usize_or_default(n: Option<Nat>, fallback: nat) -> nat {
    match n {
        Some(v) => if v.value() <= usize::MAX {
            v.value()
        } else {
            fallback
        },
        None => fallback,
    }
}

fn read_usize(n: &Option<Nat>, fallback: usize) -> (r: usize)
    ensures
        r == usize_or_default(*n, fallback as nat),
{
    match n {
        Some(v) => match v.to_u64() {
            Some(x) => if x <= usize::MAX as u64 {
                x as usize
            } else {
                fallback
            },
            None => fallback,
        },
        None => fallback,
    }
}

/// The paths and stages of the uploads, in path order, from position `prev` (0 where none is
/// given) on and at most `take` of them (100 where none is given).
pub fn get_all_uploads(tracker: &UploadTracker, prev: &Option<Nat>, take: &Option<Nat>) -> (r: Result<Vec<(String, UploadState)>, GetAllUploadsError>)
    requires
        tracker.wf(),
    ensures
        r matches Ok(l) && {
            let all = pairs_view(tracker.uploads.entries@);
            let start = usize_or_default(*prev, 0);
            let count = usize_or_default(*take, 100);
            let end: int = if start + count < all.len() { (start + count) as int } else { all.len() as int };
            &&& start <= all.len() ==> l@.len() == end - start
            &&& start > all.len() ==> l@.len() == 0
            &&& forall|i: int| 0 <= i < l@.len() ==> (#[trigger] l@[i]).0@ == all[start + i].0 && l@[i].1 == all[start + i].1.state
        },
{
    let start = read_usize(prev, 0);
    let count = read_usize(take, 100);
    let e = &tracker.uploads.entries;
    let mut out: Vec<(String, UploadState)> = Vec::new();
    let mut i: usize = start;
    let mut taken: usize = 0;
    while i < e.len() && taken < count
        invariant
            start <= i,
            taken == i - start,
            taken <= count,
            i <= e@.len() || taken == 0,
            out@.len() == taken,
            forall|j: int| 0 <= j < out@.len() ==> (#[trigger] out@[j]).0@ == pairs_view(e@)[start + j].0
                && out@[j].1 == pairs_view(e@)[start + j].1.state,
        decreases e@.len() - i,
    {
        out.push((e[i].0.clone(), e[i].1.state));
        i = i + 1;
        taken = taken + 1;
    }
    Ok(out)
}

/// Records the uploads of a batch that their storage canister started: the `i`-th path where
/// the `i`-th answer was a success.
pub open spec fn batch_started(
    m: Map<Seq<char>, UploadView>,
    paths: Seq<String>,
    succeeded: Seq<bool>,
    canister: Seq<u8>,
    now: u64,
) -> Map<Seq<char>, UploadView>
    decreases paths.len(),
{
    if paths.len() == 0 {
        m
    } else {
        let before = batch_started(m, paths.drop_last(), succeeded, canister, now);
        let i = paths.len() - 1;
        if i < succeeded.len() && succeeded[i] {
            before.insert(paths[i]@, started(paths[i]@, canister, now))
        } else {
            before
        }
    }
}

/// Records the uploads of a batch that the storage canister `canister` started.
pub fn record_batch_init_upload(
    tracker: &mut UploadTracker,
    paths: &Vec<String>,
    succeeded: &Vec<bool>,
    canister: &Vec<u8>,
    now: u64,
)
    requires
        old(tracker).wf(),
        succeeded@.len() <= paths@.len(),
    ensures
        final(tracker).wf(),
        final(tracker)@ == batch_started(old(tracker)@, paths@.subrange(0, succeeded@.len() as int), succeeded@, canister@, now),
{
    let ghost start = tracker@;
    let n = succeeded.len();
    let mut i: usize = 0;
    while i < n
        invariant
            tracker.wf(),
            n == succeeded@.len(),
            n <= paths@.len(),
            i <= n,
            tracker@ == batch_started(start, paths@.subrange(0, i as int), succeeded@, canister@, now),
        decreases n - i,
    {
        proof {
            assert(paths@.subrange(0, i + 1).drop_last() =~= paths@.subrange(0, i as int));
        }
        if succeeded[i] {
            record_init_upload(tracker, paths[i].clone(), crate::account::copy_bytes(canister), now);
        }
        i = i + 1;
    }
}

/// The storage canister a batch goes to: that of the upload of its first file. An empty
/// batch goes nowhere (`None`).
pub fn check_batch(tracker: &UploadTracker, paths: &Vec<String>) -> (r: Result<Option<Vec<u8>>, String>)
    requires
        tracker.wf(),
    ensures
        paths@.len() == 0 ==> r matches Ok(None),
        paths@.len() > 0 && !tracker@.contains_key(paths@[0]@) ==> (r matches Err(m) && m@ == batch_not_initialized()),
        paths@.len() > 0 && tracker@.contains_key(paths@[0]@) ==> (r matches Ok(Some(c)) && c@ == tracker@[paths@[0]@].canister),
{
    if paths.len() == 0 {
        return Ok(None);
    }
    match tracker.uploads.get(&paths[0]) {
        Some(record) => Ok(Some(crate::account::copy_bytes(&record.canister))),
        None => {
            proof {
                reveal_strlit("Upload not initialized");
            }
            Err(String::from_str("Upload not initialized"))
        },
    }
}

/// The answer when the storage canister of a batch is unknown.
pub fn batch_canister_missing() -> (r: String)
    ensures
        r@ == batch_canister_unknown(),
{
    proof {
        reveal_strlit("Storage canister not found");
    }
    String::from_str("Storage canister not found")
}

/// The uploads after a batch: the `i`-th path, where the `i`-th answer was a success and an
/// upload is recorded under it, gets the stage `state`.
pub open spec fn batch_marked(
    m: Map<Seq<char>, UploadView>,
    paths: Seq<String>,
    succeeded: Seq<bool>,
    state: UploadState,
) -> Map<Seq<char>, UploadView>
    decreases paths.len(),
{
    if paths.len() == 0 {
        m
    } else {
        let before = batch_marked(m, paths.drop_last(), succeeded, state);
        let i = paths.len() - 1;
        if i < succeeded.len() && succeeded[i] && before.contains_key(paths[i]@) {
            before.insert(paths[i]@, with_state(before[paths[i]@], state))
        } else {
            before
        }
    }
}

/// Gives the upload under `path`, where there is one, the stage `state`.
fn mark_upload(tracker: &mut UploadTracker, path: &String, state: UploadState)
    requires
        old(tracker).wf(),
    ensures
        final(tracker).wf(),
        old(tracker)@.contains_key(path@) ==> final(tracker)@ == old(tracker)@.insert(
            path@,
            with_state(old(tracker)@[path@], state),
        ),
        !old(tracker)@.contains_key(path@) ==> final(tracker)@ == old(tracker)@,
{
    let found = match tracker.uploads.get(path) {
        Some(record) => Some(copy_record(record)),
        None => None,
    };
    if let Some(record) = found {
        let mut r = record;
        r.state = state;
        tracker.uploads.insert(path.clone(), r);
    }
}

/// Records the chunks of a batch that were stored: their uploads are in progress.
pub fn record_batch_chunks_stored(tracker: &mut UploadTracker, paths: &Vec<String>, succeeded: &Vec<bool>)
    requires
        old(tracker).wf(),
        succeeded@.len() <= paths@.len(),
    ensures
        final(tracker).wf(),
        final(tracker)@ == batch_marked(old(tracker)@, paths@.subrange(0, succeeded@.len() as int), succeeded@, UploadState::InProgress),
{
    let ghost start = tracker@;
    let n = succeeded.len();
    let mut i: usize = 0;
    while i < n
        invariant
            tracker.wf(),
            n == succeeded@.len(),
            n <= paths@.len(),
            i <= n,
            tracker@ == batch_marked(start, paths@.subrange(0, i as int), succeeded@, UploadState::InProgress),
        decreases n - i,
    {
        proof {
            assert(paths@.subrange(0, i + 1).drop_last() =~= paths@.subrange(0, i as int));
        }
        if succeeded[i] {
            mark_upload(tracker, &paths[i], UploadState::InProgress);
        }
        i = i + 1;
    }
}

/// The redirections after a batch of finished files served by `canister`: the media path of
/// the `i`-th file, where the `i`-th answer was a success, redirects to it.
pub open spec fn batch_redirected(
    m: Map<Seq<char>, Seq<char>>,
    paths: Seq<String>,
    succeeded: Seq<bool>,
    canister: Seq<u8>,
    is_prod: bool,
) -> Map<Seq<char>, Seq<char>>
    decreases paths.len(),
{
    if paths.len() == 0 {
        m
    } else {
        let before = batch_redirected(m, paths.drop_last(), succeeded, canister, is_prod);
        let i = paths.len() - 1;
        if i < succeeded.len() && succeeded[i] {
            before.insert(
                media_path(paths[i]@),
                asset_url(principal_text(canister), media_path(paths[i]@), is_prod),
            )
        } else {
            before
        }
    }
}

/// Records the finished files of a batch served by `canister`: their media paths redirect to
/// them and their uploads are finished. Gives each new redirection, in batch order.
pub fn record_batch_finalized(
    tracker: &mut UploadTracker,
    redirections: &mut SortedMap<String, String>,
    paths: &Vec<String>,
    succeeded: &Vec<bool>,
    canister: &Vec<u8>,
    is_prod: bool,
) -> (r: Vec<(String, String)>)
    requires
        old(tracker).wf(),
        old(redirections).wf(),
        succeeded@.len() <= paths@.len(),
        canister@.len() <= 29,
    ensures
        final(tracker).wf(),
        final(redirections).wf(),
        final(tracker)@ == batch_marked(old(tracker)@, paths@.subrange(0, succeeded@.len() as int), succeeded@, UploadState::Finalized),
        final(redirections)@ == batch_redirected(
            old(redirections)@,
            paths@.subrange(0, succeeded@.len() as int),
            succeeded@,
            canister@,
            is_prod,
        ),
        forall|j: int| 0 <= j < r@.len() ==> final(redirections)@.contains_key((#[trigger] r@[j]).0@),
{
    let ghost start = tracker@;
    let ghost start_redirections = redirections@;
    let n = succeeded.len();
    let mut out: Vec<(String, String)> = Vec::new();
    let mut i: usize = 0;
    while i < n
        invariant
            tracker.wf(),
            redirections.wf(),
            canister@.len() <= 29,
            n == succeeded@.len(),
            n <= paths@.len(),
            i <= n,
            tracker@ == batch_marked(start, paths@.subrange(0, i as int), succeeded@, UploadState::Finalized),
            redirections@ == batch_redirected(start_redirections, paths@.subrange(0, i as int), succeeded@, canister@, is_prod),
            forall|j: int| 0 <= j < out@.len() ==> redirections@.contains_key((#[trigger] out@[j]).0@),
        decreases n - i,
    {
        proof {
            assert(paths@.subrange(0, i + 1).drop_last() =~= paths@.subrange(0, i as int));
            assert(paths@.subrange(0, i + 1)[i as int] == paths@[i as int]);
        }
        if succeeded[i] {
            let media = normalize_media_path(paths[i].as_str());
            let url = build_asset_url(canister, media.as_str(), is_prod);
            redirections.insert(media.clone(), url.clone());
            out.push((media, url));
            mark_upload(tracker, &paths[i], UploadState::Finalized);
        }
        i = i + 1;
    }
    out
}

/// An upload moves forward: a started one is at `Init`; a chunk puts it in progress; a
/// finished one is `Finalized`, after which chunks and cancellation are refused; a cancelled
/// one is gone, and its state is not found.
pub proof fn law_upload_lifecycle(m: Map<Seq<char>, UploadView>, path: Seq<char>, canister: Seq<u8>, now: u64, record: UploadView)
    ensures
        m.insert(path, started(path, canister, now))[path].state == UploadState::Init,
        m.insert(path, with_state(record, UploadState::InProgress))[path].state == UploadState::InProgress,
        m.insert(path, with_state(record, UploadState::Finalized)).contains_key(path),
        m.insert(path, with_state(record, UploadState::Finalized))[path].state == UploadState::Finalized,
        !m.remove(path).contains_key(path),
        with_state(record, UploadState::Finalized).canister == record.canister,
        with_state(record, UploadState::Finalized).init_timestamp == record.init_timestamp,
{
}

/// Serving a finished file: its media path starts with '/', and one that already did is kept
/// as it is.
pub proof fn law_media_path_rooted(path: Seq<char>)
    ensures
        media_path(path).len() > 0,
        media_path(path)[0] == '/',
        path.len() > 0 && path[0] == '/' ==> media_path(path) == path,
        media_path(media_path(path)) == media_path(path),
{
}

} // verus!

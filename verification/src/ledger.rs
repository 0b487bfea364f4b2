//! The token ledger of the collection: owners, tokens by owner, token and collection
//! approvals, and the ICRC-37 operations on them.
use vstd::prelude::*;

use crate::account::{
    account_of_owner, account_view_of, anonymous_account, copy_account, copy_bytes, is_anonymous_account,
    same_account, Account, AccountView,
};
use crate::assoc::{values_of, AssocList};
use crate::blocks::{lowercase_of, to_lowercase};
use crate::text::{contains_text, text_contains};
use crate::value::{limb_base, Nat};

verus! {

/// An approval given to a spender.
#[derive(Debug)]
pub struct Approval {
    pub spender: Account,
    pub from: Account,
    pub expires_at: Option<u64>,
    pub created_at: u64,
    pub memo: Option<Vec<u8>>,
}

/// Optional bytes as a sequence.
pub open spec fn opt_bytes(b: Option<Vec<u8>>) -> Option<Seq<u8>> {
    match b {
        Some(v) => Some(v@),
        None => None,
    }
}

/// An optional account as a view.
pub open spec fn opt_account(a: Option<Account>) -> Option<AccountView> {
    match a {
        Some(x) => Some(x@),
        None => None,
    }
}

/// What an approval is.
pub ghost struct ApprovalView {
    pub spender: AccountView,
    pub from: AccountView,
    pub expires_at: Option<u64>,
    pub created_at: u64,
    pub memo: Option<Seq<u8>>,
}

impl View for Approval {
    type V = ApprovalView;

    open spec fn view(&self) -> ApprovalView {
        ApprovalView {
            spender: self.spender@,
            from: self.from@,
            expires_at: self.expires_at,
            created_at: self.created_at,
            memo: opt_bytes(self.memo),
        }
    }
}

/// The approvals of one token, or of one owner's collection, by spender.
pub type ApprovalSet = AssocList<Account, Approval>;

/// Every set of approvals held is well formed.
pub open spec fn sets_wf<K>(e: Seq<(K, ApprovalSet)>) -> bool {
    forall|x: ApprovalSet| #[trigger] values_of(e).contains(x) ==> x.wf()
}

/// The state of the collection's tokens.
pub struct Ledger {
    /// The owner of each token.
    pub tokens: AssocList<u64, Account>,
    /// The tokens listed for each owner.
    pub tokens_by_owner: AssocList<Account, Vec<u64>>,
    /// The approvals of each token, by spender.
    pub token_approvals: AssocList<u64, ApprovalSet>,
    /// The collection approvals given by each account, by spender.
    pub collection_approvals: AssocList<Account, ApprovalSet>,
    /// The id the next mint starts from.
    pub last_token_id: u64,
}

/// What the ledger holds.
pub ghost struct LedgerView {
    pub tokens: Map<u64, AccountView>,
    pub tokens_by_owner: Map<AccountView, Seq<u64>>,
    pub token_approvals: Map<u64, Map<AccountView, ApprovalView>>,
    pub collection_approvals: Map<AccountView, Map<AccountView, ApprovalView>>,
    pub last_token_id: u64,
}

impl View for Ledger {
    type V = LedgerView;

    open spec fn view(&self) -> LedgerView {
        LedgerView {
            tokens: self.tokens@,
            tokens_by_owner: self.tokens_by_owner@,
            token_approvals: self.token_approvals@,
            collection_approvals: self.collection_approvals@,
            last_token_id: self.last_token_id,
        }
    }
}

impl Ledger {
    /// The ledger is well formed: no key twice in any of its maps.
    pub open spec fn wf(&self) -> bool {
        &&& self.tokens.wf()
        &&& self.tokens_by_owner.wf()
        &&& self.token_approvals.wf()
        &&& self.collection_approvals.wf()
        &&& sets_wf(self.token_approvals.entries@)
        &&& sets_wf(self.collection_approvals.entries@)
    }

    /// An empty ledger whose first mint starts at `first_token_id`.
    pub fn new(first_token_id: u64) -> (r: Ledger)
        ensures
            r.wf(),
            r@.tokens == Map::<u64, AccountView>::empty(),
            r@.tokens_by_owner == Map::<AccountView, Seq<u64>>::empty(),
            r@.token_approvals == Map::<u64, Map<AccountView, ApprovalView>>::empty(),
            r@.collection_approvals == Map::<AccountView, Map<AccountView, ApprovalView>>::empty(),
            r@.last_token_id == first_token_id,
    {
        let r = Ledger {
            tokens: AssocList::new(),
            tokens_by_owner: AssocList::new(),
            token_approvals: AssocList::new(),
            collection_approvals: AssocList::new(),
            last_token_id: first_token_id,
        };
        assert(values_of(r.token_approvals.entries@) =~= Seq::<ApprovalSet>::empty());
        assert(values_of(r.collection_approvals.entries@) =~= Seq::<ApprovalSet>::empty());
        r
    }

    /// The owner of `token_id`, if the token exists.
    pub fn owner_of(&self, token_id: u64) -> (r: Option<Account>)
        requires
            self.wf(),
        ensures
            opt_account(r) == owner_in(self@, token_id),
    {
        match self.tokens.get(&token_id) {
            Some(a) => Some(copy_account(a)),
            None => None,
        }
    }
}

/// The owner of a token.
pub open spec fn owner_in(l: LedgerView, token_id: u64) -> Option<AccountView> {
    if l.tokens.contains_key(token_id) {
        Some(l.tokens[token_id])
    } else {
        None
    }
}

/// The errors of the ICRC-37 operations, as views.
pub ghost enum Icrc37Error {
    NonExistingTokenId,
    Unauthorized,
    InvalidSpender,
    InvalidRecipient,
    TooOld,
    CreatedInFuture(u64),
    ApprovalDoesNotExist,
    Duplicate(u64),
    GenericError(u64, Seq<char>),
}

/// The settings of the collection that approvals depend on. Each may be unset.
#[derive(Debug)]
pub struct ApprovalSettings {
    pub permitted_drift: Option<Nat>,
    pub tx_window: Option<Nat>,
    pub max_approvals_per_token_or_collection: Option<Nat>,
    pub max_revoke_approvals: Option<Nat>,
}

/// The values that stand for unset settings.
#[derive(Clone, Copy, Debug)]
pub struct ApprovalDefaults {
    pub permitted_drift: u64,
    pub tx_window: u64,
    pub max_approvals_per_token_or_collection: usize,
}

/// A setting as a `u64`: its value where set and small enough, else `default`.
pub open spec fn setting_or(s: Option<Nat>, default: u64) -> u64 {
    match s {
        Some(n) => if n.value() < limb_base() { n.value() as u64 } else { default },
        None => default,
    }
}

/// The transaction window: its value where set and small enough, `0` where set and too large,
/// else `default`.
pub open spec fn window_of(s: Option<Nat>, default: u64) -> u64 {
    match s {
        Some(n) => if n.value() < limb_base() { n.value() as u64 } else { 0 },
        None => default,
    }
}

fn resolve_setting(s: &Option<Nat>, default: u64) -> (r: u64)
    ensures
        r == setting_or(*s, default),
{
    match s {
        Some(n) => match n.to_u64() {
            Some(x) => x,
            None => default,
        },
        None => default,
    }
}

fn resolve_window(s: &Option<Nat>, default: u64) -> (r: u64)
    ensures
        r == window_of(*s, default),
{
    match s {
        Some(n) => match n.to_u64() {
            Some(x) => x,
            None => 0,
        },
        None => default,
    }
}

/// Why the creation time of a request is refused, if it is: too far in the future, or
/// older than the transaction window.
pub open spec fn timing_error(created_at_time: u64, now: u64, settings: ApprovalSettings, defaults: ApprovalDefaults) -> Option<Icrc37Error> {
    let drift = setting_or(settings.permitted_drift, defaults.permitted_drift);
    let window = window_of(settings.tx_window, defaults.tx_window);
    if created_at_time > now + drift {
        Some(Icrc37Error::CreatedInFuture(now))
    } else if created_at_time + window < now {
        Some(Icrc37Error::TooOld)
    } else {
        None
    }
}

/// The sums the timing check computes fit in a `u64`.
pub open spec fn timing_computable(created_at_time: u64, now: u64, settings: ApprovalSettings, defaults: ApprovalDefaults) -> bool {
    let drift = setting_or(settings.permitted_drift, defaults.permitted_drift);
    let window = window_of(settings.tx_window, defaults.tx_window);
    &&& now + drift <= u64::MAX
    &&& created_at_time <= now + drift ==> created_at_time + window <= u64::MAX
}

/// Checks the creation time of a request against the permitted drift and the transaction
/// window: `Err((true, now))` for one created in the future, `Err((false, 0))` for one too old.
pub fn verify_approval_timing(
    created_at_time: u64,
    current_time: u64,
    settings: &ApprovalSettings,
    defaults: &ApprovalDefaults,
) -> (r: Result<(), (bool, u64)>)
    requires
        timing_computable(created_at_time, current_time, *settings, *defaults),
    ensures
        r is Ok <==> timing_error(created_at_time, current_time, *settings, *defaults) is None,
        timing_error(created_at_time, current_time, *settings, *defaults) == Some(Icrc37Error::TooOld) ==> r == Err::<(), (bool, u64)>((false, 0)),
        timing_error(created_at_time, current_time, *settings, *defaults) == Some(Icrc37Error::CreatedInFuture(current_time))
            ==> r == Err::<(), (bool, u64)>((true, current_time)),
{
    let drift = resolve_setting(&settings.permitted_drift, defaults.permitted_drift);
    if created_at_time > current_time + drift {
        return Err((true, current_time));
    }
    let window = resolve_window(&settings.tx_window, defaults.tx_window);
    if created_at_time + window < current_time {
        return Err((false, 0));
    }
    Ok(())
}

/// The error a timing verdict maps to.
fn timing_verdict_error(v: (bool, u64)) -> (e: TimingRefusal)
    ensures
        e == (if v.0 { TimingRefusal::CreatedInFuture(v.1) } else { TimingRefusal::TooOld }),
{
    if v.0 { TimingRefusal::CreatedInFuture(v.1) } else { TimingRefusal::TooOld }
}

/// A refused creation time.
#[derive(Clone, Copy, Debug, PartialEq, Eq, Structural)]
pub enum TimingRefusal {
    CreatedInFuture(u64),
    TooOld,
}

/// A count setting as a `usize`: its value where set and small enough, else `default`.
pub open spec fn count_setting(s: Option<Nat>, default: usize) -> usize {
    match s {
        Some(n) => if n.value() <= usize::MAX { n.value() as usize } else { default },
        None => default,
    }
}

fn resolve_count(s: &Option<Nat>, default: usize) -> (r: usize)
    ensures
        r == count_setting(*s, default),
{
    match s {
        Some(n) => match n.to_u64() {
            Some(x) => if x <= usize::MAX as u64 { x as usize } else { default },
            None => default,
        },
        None => default,
    }
}

/// An ICRC-37 transaction to append to the log.
#[derive(Debug)]
pub struct Icrc37Transaction {
    pub btype: String,
    pub timestamp: u64,
    pub op: String,
    pub tid: Option<u64>,
    pub from: Option<Account>,
    pub to: Option<Account>,
    pub memo: Option<Vec<u8>>,
    pub created_at_time: Option<u64>,
    pub spender: Option<Account>,
    pub exp: Option<u64>,
}

/// What a transaction is.
pub ghost struct TxView {
    pub btype: Seq<char>,
    pub timestamp: u64,
    pub op: Seq<char>,
    pub tid: Option<u64>,
    pub from: Option<AccountView>,
    pub to: Option<AccountView>,
    pub memo: Option<Seq<u8>>,
    pub created_at_time: Option<u64>,
    pub spender: Option<AccountView>,
    pub exp: Option<u64>,
}

impl View for Icrc37Transaction {
    type V = TxView;

    open spec fn view(&self) -> TxView {
        TxView {
            btype: self.btype@,
            timestamp: self.timestamp,
            op: self.op@,
            tid: self.tid,
            from: opt_account(self.from),
            to: opt_account(self.to),
            memo: opt_bytes(self.memo),
            created_at_time: self.created_at_time,
            spender: opt_account(self.spender),
            exp: self.exp,
        }
    }
}

/// The terms of an approval asked for.
#[derive(Debug)]
pub struct ApprovalInfo {
    pub spender: Account,
    pub from_subaccount: Option<Vec<u8>>,
    pub expires_at: Option<u64>,
    pub memo: Option<Vec<u8>>,
    pub created_at_time: u64,
}

/// A request to approve a spender for a token.
#[derive(Debug)]
pub struct ApproveTokenArg {
    pub token_id: u64,
    pub approval_info: ApprovalInfo,
}

/// Why a token approval is refused.
#[derive(Debug)]
pub enum ApproveTokenError {
    InvalidSpender,
    Unauthorized,
    NonExistingTokenId,
    TooOld,
    CreatedInFuture { ledger_time: u64 },
    GenericError { error_code: u64, message: String },
}

/// The view of a token approval error.
pub open spec fn approve_token_error(e: ApproveTokenError) -> Icrc37Error {
    match e {
        ApproveTokenError::InvalidSpender => Icrc37Error::InvalidSpender,
        ApproveTokenError::Unauthorized => Icrc37Error::Unauthorized,
        ApproveTokenError::NonExistingTokenId => Icrc37Error::NonExistingTokenId,
        ApproveTokenError::TooOld => Icrc37Error::TooOld,
        ApproveTokenError::CreatedInFuture { ledger_time } => Icrc37Error::CreatedInFuture(ledger_time),
        ApproveTokenError::GenericError { error_code, message } => Icrc37Error::GenericError(error_code, message@),
    }
}

/// The view of a planned transaction or refusal.
pub open spec fn approve_token_plan_view(r: Result<Icrc37Transaction, ApproveTokenError>) -> Result<TxView, Icrc37Error> {
    match r {
        Ok(t) => Ok(t@),
        Err(e) => Err(approve_token_error(e)),
    }
}

/// The message of a refusal by the sliding-window guard, if it refused.
pub open spec fn refusal(window: Result<(), String>) -> Option<Seq<char>> {
    match window {
        Ok(()) => None,
        Err(e) => Some(e@),
    }
}

/// The account of `caller` with `subaccount`.
pub open spec fn caller_account(caller: Seq<u8>, subaccount: Option<Vec<u8>>) -> AccountView {
    account_view_of(caller, opt_bytes(subaccount))
}

/// The approvals of a set, or none.
pub open spec fn set_or_empty<K>(m: Map<K, Map<AccountView, ApprovalView>>, k: K) -> Map<AccountView, ApprovalView> {
    if m.contains_key(k) { m[k] } else { Map::empty() }
}

/// What a token approval request leads to: a refusal, or the transaction to log.
pub open spec fn approve_token_outcome(
    l: LedgerView,
    arg: ApproveTokenArg,
    caller: Seq<u8>,
    now: u64,
    window: Result<(), String>,
    settings: ApprovalSettings,
    defaults: ApprovalDefaults,
) -> Result<TxView, Icrc37Error> {
    let info = arg.approval_info;
    let from = caller_account(caller, info.from_subaccount);
    let max = count_setting(settings.max_approvals_per_token_or_collection, defaults.max_approvals_per_token_or_collection);
    if refusal(window) is Some {
        Err(Icrc37Error::GenericError(0, refusal(window)->0))
    } else if timing_error(info.created_at_time, now, settings, defaults) is Some {
        Err(timing_error(info.created_at_time, now, settings, defaults)->0)
    } else if owner_in(l, arg.token_id) is None {
        Err(Icrc37Error::NonExistingTokenId)
    } else if owner_in(l, arg.token_id) != Some(from) {
        Err(Icrc37Error::Unauthorized)
    } else if info.spender@ == anonymous_account() {
        Err(Icrc37Error::InvalidSpender)
    } else if l.token_approvals.contains_key(arg.token_id) && l.token_approvals[arg.token_id].len() >= max {
        Err(Icrc37Error::GenericError(1, "Maximum approvals per token exceeded"@))
    } else {
        Ok(
            TxView {
                btype: "37approve"@,
                timestamp: now,
                op: "37approve"@,
                tid: Some(arg.token_id),
                from: Some(from),
                to: None,
                memo: opt_bytes(info.memo),
                created_at_time: Some(info.created_at_time),
                spender: Some(info.spender@),
                exp: info.expires_at,
            },
        )
    }
}

/// A copy of optional bytes.
pub fn copy_opt_bytes(b: &Option<Vec<u8>>) -> (r: Option<Vec<u8>>)
    ensures
        opt_bytes(r) == opt_bytes(*b),
{
    match b {
        Some(v) => Some(copy_bytes(v)),
        None => None,
    }
}

fn make_account(owner: &Vec<u8>, subaccount: &Option<Vec<u8>>) -> (r: Account)
    ensures
        r@ == caller_account(owner@, *subaccount),
{
    Account { owner: copy_bytes(owner), subaccount: copy_opt_bytes(subaccount) }
}

fn timing_check(
    created_at_time: u64,
    now: u64,
    settings: &ApprovalSettings,
    defaults: &ApprovalDefaults,
) -> (r: Option<TimingRefusal>)
    requires
        timing_computable(created_at_time, now, *settings, *defaults),
    ensures
        r is None <==> timing_error(created_at_time, now, *settings, *defaults) is None,
        r == Some(TimingRefusal::TooOld) <==> timing_error(created_at_time, now, *settings, *defaults) == Some(Icrc37Error::TooOld),
        r matches Some(TimingRefusal::CreatedInFuture(t)) ==> timing_error(created_at_time, now, *settings, *defaults)
            == Some(Icrc37Error::CreatedInFuture(t)),
{
    match verify_approval_timing(created_at_time, now, settings, defaults) {
        Ok(()) => None,
        Err(v) => Some(timing_verdict_error(v)),
    }
}

impl Ledger {
    fn take_token_set(&mut self, token_id: u64) -> (r: ApprovalSet)
        requires
            old(self).wf(),
        ensures
            final(self).wf(),
            r.wf(),
            r@ == set_or_empty(old(self)@.token_approvals, token_id),
            final(self)@ == (LedgerView { token_approvals: old(self)@.token_approvals.remove(token_id), ..old(self)@ }),
    {
        match self.token_approvals.remove(&token_id) {
            Some(set) => set,
            None => AssocList::new(),
        }
    }

    fn put_token_set(&mut self, token_id: u64, set: ApprovalSet)
        requires
            old(self).wf(),
            set.wf(),
        ensures
            final(self).wf(),
            final(self)@ == (LedgerView { token_approvals: old(self)@.token_approvals.insert(token_id, set@), ..old(self)@ }),
    {
        self.token_approvals.insert(token_id, set);
    }

    fn take_collection_set(&mut self, owner: &Account) -> (r: ApprovalSet)
        requires
            old(self).wf(),
        ensures
            final(self).wf(),
            r.wf(),
            r@ == set_or_empty(old(self)@.collection_approvals, owner@),
            final(self)@ == (LedgerView { collection_approvals: old(self)@.collection_approvals.remove(owner@), ..old(self)@ }),
    {
        match self.collection_approvals.remove(owner) {
            Some(set) => set,
            None => AssocList::new(),
        }
    }

    fn put_collection_set(&mut self, owner: Account, set: ApprovalSet)
        requires
            old(self).wf(),
            set.wf(),
        ensures
            final(self).wf(),
            final(self)@ == (LedgerView { collection_approvals: old(self)@.collection_approvals.insert(owner@, set@), ..old(self)@ }),
    {
        self.collection_approvals.insert(owner, set);
    }

    /// The number of approvals of `token_id`, where it has a set of approvals.
    fn token_approval_count(&self, token_id: u64) -> (r: Option<usize>)
        requires
            self.wf(),
        ensures
            r is Some <==> self@.token_approvals.contains_key(token_id),
            r matches Some(n) ==> n == self@.token_approvals[token_id].len(),
    {
        match self.token_approvals.get(&token_id) {
            Some(set) => Some(set.len()),
            None => None,
        }
    }

    /// The number of collection approvals given by `owner`, where it has a set of them.
    fn collection_approval_count(&self, owner: &Account) -> (r: Option<usize>)
        requires
            self.wf(),
        ensures
            r is Some <==> self@.collection_approvals.contains_key(owner@),
            r matches Some(n) ==> n == self@.collection_approvals[owner@].len(),
    {
        match self.collection_approvals.get(owner) {
            Some(set) => Some(set.len()),
            None => None,
        }
    }
}

/// Decides a request to approve a spender for a token: the refusal, or the transaction to log.
/// `window` is the verdict of the sliding-window guard on the token.
pub fn plan_approve_token(
    ledger: &Ledger,
    arg: &ApproveTokenArg,
    caller: &Vec<u8>,
    current_time: u64,
    window: &Result<(), String>,
    settings: &ApprovalSettings,
    defaults: &ApprovalDefaults,
) -> (r: Result<Icrc37Transaction, ApproveTokenError>)
    requires
        ledger.wf(),
        timing_computable(arg.approval_info.created_at_time, current_time, *settings, *defaults),
    ensures
        approve_token_plan_view(r) == approve_token_outcome(ledger@, *arg, caller@, current_time, *window, *settings, *defaults),
{
    let info = &arg.approval_info;
    match window {
        Ok(()) => {},
        Err(e) => {
            return Err(ApproveTokenError::GenericError { error_code: 0, message: e.clone() });
        },
    }
    match timing_check(info.created_at_time, current_time, settings, defaults) {
        Some(TimingRefusal::CreatedInFuture(ledger_time)) => {
            return Err(ApproveTokenError::CreatedInFuture { ledger_time });
        },
        Some(TimingRefusal::TooOld) => {
            return Err(ApproveTokenError::TooOld);
        },
        None => {},
    }
    let from_account = make_account(caller, &info.from_subaccount);
    let owner = match ledger.owner_of(arg.token_id) {
        Some(o) => o,
        None => {
            return Err(ApproveTokenError::NonExistingTokenId);
        },
    };
    if !same_account(&owner, &from_account) {
        return Err(ApproveTokenError::Unauthorized);
    }
    if is_anonymous_account(&info.spender) {
        return Err(ApproveTokenError::InvalidSpender);
    }
    let max_approvals = resolve_count(&settings.max_approvals_per_token_or_collection, defaults.max_approvals_per_token_or_collection);
    match ledger.token_approval_count(arg.token_id) {
        Some(n) => {
            if n >= max_approvals {
                return Err(
                    ApproveTokenError::GenericError {
                        error_code: 1,
                        message: String::from_str("Maximum approvals per token exceeded"),
                    },
                );
            }
        },
        None => {},
    }
    Ok(
        Icrc37Transaction {
            btype: String::from_str("37approve"),
            timestamp: current_time,
            op: String::from_str("37approve"),
            tid: Some(arg.token_id),
            from: Some(from_account),
            to: None,
            memo: copy_opt_bytes(&info.memo),
            created_at_time: Some(info.created_at_time),
            spender: Some(copy_account(&info.spender)),
            exp: info.expires_at,
        },
    )
}

/// The approval an approval request records.
pub open spec fn recorded_approval(info: ApprovalInfo, caller: Seq<u8>, now: u64) -> ApprovalView {
    ApprovalView {
        spender: info.spender@,
        from: caller_account(caller, info.from_subaccount),
        expires_at: info.expires_at,
        created_at: now,
        memo: opt_bytes(info.memo),
    }
}

/// The message of a failed logging.
pub open spec fn log_failure(e: Seq<char>) -> Seq<char> {
    "Failed to log transaction: "@ + e
}

fn log_failure_message(e: &String) -> (m: String)
    ensures
        m@ == log_failure(e@),
{
    let mut m = String::from_str("Failed to log transaction: ");
    m.append(e.as_str());
    m
}

fn make_approval(info: &ApprovalInfo, caller: &Vec<u8>, now: u64) -> (a: Approval)
    ensures
        a@ == recorded_approval(*info, caller@, now),
{
    Approval {
        spender: copy_account(&info.spender),
        from: make_account(caller, &info.from_subaccount),
        expires_at: info.expires_at,
        created_at: now,
        memo: copy_opt_bytes(&info.memo),
    }
}

/// Completes a token approval once its transaction went to the log: where the log took it,
/// records the approval under its spender, replacing any earlier one, and returns the log
/// index; where it did not, changes nothing and reports why.
pub fn commit_approve_token(
    ledger: &mut Ledger,
    arg: &ApproveTokenArg,
    caller: &Vec<u8>,
    current_time: u64,
    logged: Result<u64, String>,
) -> (r: Result<u64, ApproveTokenError>)
    requires
        old(ledger).wf(),
    ensures
        final(ledger).wf(),
        match logged {
            Ok(index) => r == Ok::<u64, ApproveTokenError>(index) && final(ledger)@ == (LedgerView {
                token_approvals: old(ledger)@.token_approvals.insert(
                    arg.token_id,
                    set_or_empty(old(ledger)@.token_approvals, arg.token_id).insert(
                        arg.approval_info.spender@,
                        recorded_approval(arg.approval_info, caller@, current_time),
                    ),
                ),
                ..old(ledger)@
            }),
            Err(e) => r matches Err(x) && approve_token_error(x) == Icrc37Error::GenericError(1, log_failure(e@))
                && final(ledger)@ == old(ledger)@,
        },
{
    match logged {
        Ok(index) => {
            let approval = make_approval(&arg.approval_info, caller, current_time);
            let mut set = ledger.take_token_set(arg.token_id);
            set.insert(copy_account(&arg.approval_info.spender), approval);
            ledger.put_token_set(arg.token_id, set);
            proof {
                assert(ledger@.token_approvals =~= old(ledger)@.token_approvals.insert(
                    arg.token_id,
                    set_or_empty(old(ledger)@.token_approvals, arg.token_id).insert(
                        arg.approval_info.spender@,
                        recorded_approval(arg.approval_info, caller@, current_time),
                    ),
                ));
            }
            Ok(index)
        },
        Err(e) => Err(ApproveTokenError::GenericError { error_code: 1, message: log_failure_message(&e) }),
    }
}

/// A request to approve a spender for all of the caller's tokens.
#[derive(Debug)]
pub struct ApproveCollectionArg {
    pub approval_info: ApprovalInfo,
}

/// Why a collection approval is refused.
#[derive(Debug)]
pub enum ApproveCollectionError {
    InvalidSpender,
    TooOld,
    CreatedInFuture { ledger_time: u64 },
    GenericError { error_code: u64, message: String },
}

/// The view of a collection approval error.
pub open spec fn approve_collection_error(e: ApproveCollectionError) -> Icrc37Error {
    match e {
        ApproveCollectionError::InvalidSpender => Icrc37Error::InvalidSpender,
        ApproveCollectionError::TooOld => Icrc37Error::TooOld,
        ApproveCollectionError::CreatedInFuture { ledger_time } => Icrc37Error::CreatedInFuture(ledger_time),
        ApproveCollectionError::GenericError { error_code, message } => Icrc37Error::GenericError(error_code, message@),
    }
}

/// The view of a planned transaction or collection approval refusal.
pub open spec fn approve_collection_plan_view(r: Result<Icrc37Transaction, ApproveCollectionError>) -> Result<TxView, Icrc37Error> {
    match r {
        Ok(t) => Ok(t@),
        Err(e) => Err(approve_collection_error(e)),
    }
}

/// The principal `caller` owns at least one token, under any subaccount.
pub open spec fn owns_a_token(l: LedgerView, caller: Seq<u8>) -> bool {
    exists|t: u64| #[trigger] l.tokens.contains_key(t) && l.tokens[t].0 == caller
}

/// What a collection approval request leads to: a refusal, or the transaction to log.
pub open spec fn approve_collection_outcome(
    l: LedgerView,
    arg: ApproveCollectionArg,
    caller: Seq<u8>,
    now: u64,
    window: Result<(), String>,
    settings: ApprovalSettings,
    defaults: ApprovalDefaults,
) -> Result<TxView, Icrc37Error> {
    let info = arg.approval_info;
    let from = caller_account(caller, info.from_subaccount);
    let max = count_setting(settings.max_approvals_per_token_or_collection, defaults.max_approvals_per_token_or_collection);
    if refusal(window) is Some {
        Err(Icrc37Error::GenericError(0, refusal(window)->0))
    } else if timing_error(info.created_at_time, now, settings, defaults) is Some {
        Err(timing_error(info.created_at_time, now, settings, defaults)->0)
    } else if info.spender@ == anonymous_account() {
        Err(Icrc37Error::InvalidSpender)
    } else if !owns_a_token(l, caller) {
        Err(Icrc37Error::GenericError(1, "Caller must own at least one NFT to approve collection"@))
    } else if l.collection_approvals.contains_key(from) && l.collection_approvals[from].len() >= max {
        Err(Icrc37Error::GenericError(1, "Maximum approvals per collection exceeded"@))
    } else {
        Ok(
            TxView {
                btype: "37approve_coll"@,
                timestamp: now,
                op: "37approve_coll"@,
                tid: None,
                from: Some(from),
                to: None,
                memo: opt_bytes(info.memo),
                created_at_time: Some(info.created_at_time),
                spender: Some(info.spender@),
                exp: info.expires_at,
            },
        )
    }
}

impl Ledger {
    /// Whether the principal `caller` owns at least one token, under any subaccount.
    pub fn owns_a_token(&self, caller: &Vec<u8>) -> (r: bool)
        requires
            self.wf(),
        ensures
            r == owns_a_token(self@, caller@),
    {
        let n = self.tokens.entries.len();
        let mut i: usize = 0;
        while i < n
            invariant
                n == self.tokens.entries@.len(),
                i <= n,
                self.tokens.wf(),
                forall|j: int| 0 <= j < i ==> (#[trigger] self.tokens.entries@[j]).1.owner@ != caller@,
            decreases n - i,
        {
            if crate::account::same_bytes(&self.tokens.entries[i].1.owner, caller) {
                proof {
                    crate::assoc::lemma_assoc_at(self.tokens.entries@, i as int);
                    assert(self@.tokens.contains_key(self.tokens.entries@[i as int].0));
                }
                return true;
            }
            i = i + 1;
        }
        proof {
            assert forall|t: u64| #[trigger] self@.tokens.contains_key(t) implies self@.tokens[t].0 != caller@ by {
                let j = choose|j: int| 0 <= j < self.tokens.entries@.len() && (#[trigger] self.tokens.entries@[j]).0@ == t;
                crate::assoc::lemma_assoc_at(self.tokens.entries@, j);
            }
        }
        false
    }
}

/// Decides a request to approve a spender for all of the caller's tokens: the refusal, or the
/// transaction to log. `window` is the verdict of the sliding-window guard on the collection.
pub fn plan_approve_collection(
    ledger: &Ledger,
    arg: &ApproveCollectionArg,
    caller: &Vec<u8>,
    current_time: u64,
    window: &Result<(), String>,
    settings: &ApprovalSettings,
    defaults: &ApprovalDefaults,
) -> (r: Result<Icrc37Transaction, ApproveCollectionError>)
    requires
        ledger.wf(),
        timing_computable(arg.approval_info.created_at_time, current_time, *settings, *defaults),
    ensures
        approve_collection_plan_view(r) == approve_collection_outcome(ledger@, *arg, caller@, current_time, *window, *settings, *defaults),
{
    let info = &arg.approval_info;
    match window {
        Ok(()) => {},
        Err(e) => {
            return Err(ApproveCollectionError::GenericError { error_code: 0, message: e.clone() });
        },
    }
    match timing_check(info.created_at_time, current_time, settings, defaults) {
        Some(TimingRefusal::CreatedInFuture(ledger_time)) => {
            return Err(ApproveCollectionError::CreatedInFuture { ledger_time });
        },
        Some(TimingRefusal::TooOld) => {
            return Err(ApproveCollectionError::TooOld);
        },
        None => {},
    }
    let from_account = make_account(caller, &info.from_subaccount);
    if is_anonymous_account(&info.spender) {
        return Err(ApproveCollectionError::InvalidSpender);
    }
    if !ledger.owns_a_token(caller) {
        return Err(
            ApproveCollectionError::GenericError {
                error_code: 1,
                message: String::from_str("Caller must own at least one NFT to approve collection"),
            },
        );
    }
    let max_approvals = resolve_count(&settings.max_approvals_per_token_or_collection, defaults.max_approvals_per_token_or_collection);
    match ledger.collection_approval_count(&from_account) {
        Some(n) => {
            if n >= max_approvals {
                return Err(
                    ApproveCollectionError::GenericError {
                        error_code: 1,
                        message: String::from_str("Maximum approvals per collection exceeded"),
                    },
                );
            }
        },
        None => {},
    }
    Ok(
        Icrc37Transaction {
            btype: String::from_str("37approve_coll"),
            timestamp: current_time,
            op: String::from_str("37approve_coll"),
            tid: None,
            from: Some(from_account),
            to: None,
            memo: copy_opt_bytes(&info.memo),
            created_at_time: Some(info.created_at_time),
            spender: Some(copy_account(&info.spender)),
            exp: info.expires_at,
        },
    )
}

/// Completes a collection approval once its transaction went to the log: where the log took
/// it, records the approval among those of the caller's account, replacing any earlier one for
/// the same spender, and returns the log index; where it did not, changes nothing.
pub fn commit_approve_collection(
    ledger: &mut Ledger,
    arg: &ApproveCollectionArg,
    caller: &Vec<u8>,
    current_time: u64,
    logged: Result<u64, String>,
) -> (r: Result<u64, ApproveCollectionError>)
    requires
        old(ledger).wf(),
    ensures
        final(ledger).wf(),
        match logged {
            Ok(index) => {
                let from = caller_account(caller@, arg.approval_info.from_subaccount);
                r == Ok::<u64, ApproveCollectionError>(index) && final(ledger)@ == (LedgerView {
                    collection_approvals: old(ledger)@.collection_approvals.insert(
                        from,
                        set_or_empty(old(ledger)@.collection_approvals, from).insert(
                            arg.approval_info.spender@,
                            recorded_approval(arg.approval_info, caller@, current_time),
                        ),
                    ),
                    ..old(ledger)@
                })
            },
            Err(e) => r matches Err(x) && approve_collection_error(x) == Icrc37Error::GenericError(1, log_failure(e@))
                && final(ledger)@ == old(ledger)@,
        },
{
    match logged {
        Ok(index) => {
            let from_account = make_account(caller, &arg.approval_info.from_subaccount);
            let approval = make_approval(&arg.approval_info, caller, current_time);
            let mut set = ledger.take_collection_set(&from_account);
            set.insert(copy_account(&arg.approval_info.spender), approval);
            ledger.put_collection_set(from_account, set);
            proof {
                let from = caller_account(caller@, arg.approval_info.from_subaccount);
                assert(ledger@.collection_approvals =~= old(ledger)@.collection_approvals.insert(
                    from,
                    set_or_empty(old(ledger)@.collection_approvals, from).insert(
                        arg.approval_info.spender@,
                        recorded_approval(arg.approval_info, caller@, current_time),
                    ),
                ));
            }
            Ok(index)
        },
        Err(e) => Err(ApproveCollectionError::GenericError { error_code: 1, message: log_failure_message(&e) }),
    }
}

/// A request to revoke approvals of a token: of one spender, or of all.
#[derive(Debug)]
pub struct RevokeTokenApprovalArg {
    pub spender: Option<Account>,
    pub from_subaccount: Option<Vec<u8>>,
    pub token_id: u64,
    pub memo: Option<Vec<u8>>,
    pub created_at_time: Option<u64>,
}

/// Why a token approval revocation is refused.
#[derive(Debug)]
pub enum RevokeTokenApprovalError {
    ApprovalDoesNotExist,
    Unauthorized,
    NonExistingTokenId,
    TooOld,
    CreatedInFuture { ledger_time: u64 },
    GenericError { error_code: u64, message: String },
}

/// The view of a token approval revocation error.
pub open spec fn revoke_token_error(e: RevokeTokenApprovalError) -> Icrc37Error {
    match e {
        RevokeTokenApprovalError::ApprovalDoesNotExist => Icrc37Error::ApprovalDoesNotExist,
        RevokeTokenApprovalError::Unauthorized => Icrc37Error::Unauthorized,
        RevokeTokenApprovalError::NonExistingTokenId => Icrc37Error::NonExistingTokenId,
        RevokeTokenApprovalError::TooOld => Icrc37Error::TooOld,
        RevokeTokenApprovalError::CreatedInFuture { ledger_time } => Icrc37Error::CreatedInFuture(ledger_time),
        RevokeTokenApprovalError::GenericError { error_code, message } => Icrc37Error::GenericError(error_code, message@),
    }
}

/// The view of a planned transaction or token revocation refusal.
pub open spec fn revoke_token_plan_view(r: Result<Icrc37Transaction, RevokeTokenApprovalError>) -> Result<TxView, Icrc37Error> {
    match r {
        Ok(t) => Ok(t@),
        Err(e) => Err(revoke_token_error(e)),
    }
}

/// The refusal of an optional creation time, if it is refused.
pub open spec fn opt_timing_error(created_at_time: Option<u64>, now: u64, settings: ApprovalSettings, defaults: ApprovalDefaults) -> Option<Icrc37Error> {
    match created_at_time {
        Some(c) => timing_error(c, now, settings, defaults),
        None => None,
    }
}

/// The timing check can be computed for an optional creation time.
pub open spec fn opt_timing_computable(created_at_time: Option<u64>, now: u64, settings: ApprovalSettings, defaults: ApprovalDefaults) -> bool {
    created_at_time matches Some(c) ==> timing_computable(c, now, settings, defaults)
}

/// Whether the timing check of a request with this optional creation time can be computed
/// at `now`: its sums fit in a `u64`.
pub fn timing_is_computable(
    created_at_time: Option<u64>,
    now: u64,
    settings: &ApprovalSettings,
    defaults: &ApprovalDefaults,
) -> (r: bool)
    ensures
        r == opt_timing_computable(created_at_time, now, *settings, *defaults),
{
    match created_at_time {
        None => true,
        Some(c) => {
            let drift = resolve_setting(&settings.permitted_drift, defaults.permitted_drift);
            let window = resolve_window(&settings.tx_window, defaults.tx_window);
            match now.checked_add(drift) {
                None => false,
                Some(limit) => c > limit || c.checked_add(window).is_some(),
            }
        },
    }
}

/// What a token approval revocation leads to: a refusal, or the transaction to log.
pub open spec fn revoke_token_outcome(
    l: LedgerView,
    arg: RevokeTokenApprovalArg,
    caller: Seq<u8>,
    now: u64,
    settings: ApprovalSettings,
    defaults: ApprovalDefaults,
) -> Result<TxView, Icrc37Error> {
    let from = caller_account(caller, arg.from_subaccount);
    if opt_timing_error(arg.created_at_time, now, settings, defaults) is Some {
        Err(opt_timing_error(arg.created_at_time, now, settings, defaults)->0)
    } else if owner_in(l, arg.token_id) is None {
        Err(Icrc37Error::NonExistingTokenId)
    } else if owner_in(l, arg.token_id) != Some(from) {
        Err(Icrc37Error::Unauthorized)
    } else if !l.token_approvals.contains_key(arg.token_id) {
        Err(Icrc37Error::ApprovalDoesNotExist)
    } else {
        Ok(
            TxView {
                btype: "37revoke"@,
                timestamp: now,
                op: "37revoke"@,
                tid: Some(arg.token_id),
                from: Some(from),
                to: None,
                memo: opt_bytes(arg.memo),
                created_at_time: arg.created_at_time,
                spender: opt_account(arg.spender),
                exp: None,
            },
        )
    }
}

fn opt_timing_check(
    created_at_time: Option<u64>,
    now: u64,
    settings: &ApprovalSettings,
    defaults: &ApprovalDefaults,
) -> (r: Option<TimingRefusal>)
    requires
        opt_timing_computable(created_at_time, now, *settings, *defaults),
    ensures
        r is None <==> opt_timing_error(created_at_time, now, *settings, *defaults) is None,
        r == Some(TimingRefusal::TooOld) <==> opt_timing_error(created_at_time, now, *settings, *defaults) == Some(Icrc37Error::TooOld),
        r matches Some(TimingRefusal::CreatedInFuture(t)) ==> opt_timing_error(created_at_time, now, *settings, *defaults)
            == Some(Icrc37Error::CreatedInFuture(t)),
{
    match created_at_time {
        Some(c) => timing_check(c, now, settings, defaults),
        None => None,
    }
}

fn copy_opt_account(a: &Option<Account>) -> (r: Option<Account>)
    ensures
        opt_account(r) == opt_account(*a),
{
    match a {
        Some(x) => Some(copy_account(x)),
        None => None,
    }
}

/// Decides a request to revoke approvals of a token: the refusal, or the transaction to log.
pub fn plan_revoke_token_approvals(
    ledger: &Ledger,
    arg: &RevokeTokenApprovalArg,
    caller: &Vec<u8>,
    current_time: u64,
    settings: &ApprovalSettings,
    defaults: &ApprovalDefaults,
) -> (r: Result<Icrc37Transaction, RevokeTokenApprovalError>)
    requires
        ledger.wf(),
        opt_timing_computable(arg.created_at_time, current_time, *settings, *defaults),
    ensures
        revoke_token_plan_view(r) == revoke_token_outcome(ledger@, *arg, caller@, current_time, *settings, *defaults),
{
    match opt_timing_check(arg.created_at_time, current_time, settings, defaults) {
        Some(TimingRefusal::CreatedInFuture(ledger_time)) => {
            return Err(RevokeTokenApprovalError::CreatedInFuture { ledger_time });
        },
        Some(TimingRefusal::TooOld) => {
            return Err(RevokeTokenApprovalError::TooOld);
        },
        None => {},
    }
    let from_account = make_account(caller, &arg.from_subaccount);
    let owner = match ledger.owner_of(arg.token_id) {
        Some(o) => o,
        None => {
            return Err(RevokeTokenApprovalError::NonExistingTokenId);
        },
    };
    if !same_account(&owner, &from_account) {
        return Err(RevokeTokenApprovalError::Unauthorized);
    }
    if ledger.token_approval_count(arg.token_id).is_none() {
        return Err(RevokeTokenApprovalError::ApprovalDoesNotExist);
    }
    Ok(
        Icrc37Transaction {
            btype: String::from_str("37revoke"),
            timestamp: current_time,
            op: String::from_str("37revoke"),
            tid: Some(arg.token_id),
            from: Some(from_account),
            to: None,
            memo: copy_opt_bytes(&arg.memo),
            created_at_time: arg.created_at_time,
            spender: copy_opt_account(&arg.spender),
            exp: None,
        },
    )
}

/// A set of approvals without the given spender's, or without any where no spender is given.
pub open spec fn revoked(set: Map<AccountView, ApprovalView>, spender: Option<Account>) -> Map<AccountView, ApprovalView> {
    match spender {
        Some(s) => set.remove(s@),
        None => Map::empty(),
    }
}

fn revoke_in(set: ApprovalSet, spender: &Option<Account>) -> (r: ApprovalSet)
    requires
        set.wf(),
    ensures
        r.wf(),
        r@ == revoked(set@, *spender),
{
    match spender {
        Some(s) => {
            let mut set = set;
            set.remove(s);
            set
        },
        None => AssocList::new(),
    }
}

/// Completes a token approval revocation once its transaction went to the log: where the log
/// took it, drops the approval of the spender, or all approvals where no spender is given, and
/// returns the log index; where it did not, changes nothing.
pub fn commit_revoke_token_approvals(
    ledger: &mut Ledger,
    arg: &RevokeTokenApprovalArg,
    logged: Result<u64, String>,
) -> (r: Result<u64, RevokeTokenApprovalError>)
    requires
        old(ledger).wf(),
    ensures
        final(ledger).wf(),
        match logged {
            Ok(index) => r == Ok::<u64, RevokeTokenApprovalError>(index) && final(ledger)@ == (LedgerView {
                token_approvals: old(ledger)@.token_approvals.insert(
                    arg.token_id,
                    revoked(set_or_empty(old(ledger)@.token_approvals, arg.token_id), arg.spender),
                ),
                ..old(ledger)@
            }),
            Err(e) => r matches Err(x) && revoke_token_error(x) == Icrc37Error::GenericError(1, log_failure(e@))
                && final(ledger)@ == old(ledger)@,
        },
{
    match logged {
        Ok(index) => {
            let set = ledger.take_token_set(arg.token_id);
            let set = revoke_in(set, &arg.spender);
            ledger.put_token_set(arg.token_id, set);
            proof {
                assert(ledger@.token_approvals =~= old(ledger)@.token_approvals.insert(
                    arg.token_id,
                    revoked(set_or_empty(old(ledger)@.token_approvals, arg.token_id), arg.spender),
                ));
            }
            Ok(index)
        },
        Err(e) => Err(RevokeTokenApprovalError::GenericError { error_code: 1, message: log_failure_message(&e) }),
    }
}

/// A request to revoke collection approvals: of one spender, or of all.
#[derive(Debug)]
pub struct RevokeCollectionApprovalArg {
    pub spender: Option<Account>,
    pub from_subaccount: Option<Vec<u8>>,
    pub memo: Option<Vec<u8>>,
    pub created_at_time: Option<u64>,
}

/// Why a collection approval revocation is refused.
#[derive(Debug)]
pub enum RevokeCollectionApprovalError {
    ApprovalDoesNotExist,
    TooOld,
    CreatedInFuture { ledger_time: u64 },
    GenericError { error_code: u64, message: String },
}

/// The view of a collection approval revocation error.
pub open spec fn revoke_collection_error(e: RevokeCollectionApprovalError) -> Icrc37Error {
    match e {
        RevokeCollectionApprovalError::ApprovalDoesNotExist => Icrc37Error::ApprovalDoesNotExist,
        RevokeCollectionApprovalError::TooOld => Icrc37Error::TooOld,
        RevokeCollectionApprovalError::CreatedInFuture { ledger_time } => Icrc37Error::CreatedInFuture(ledger_time),
        RevokeCollectionApprovalError::GenericError { error_code, message } => Icrc37Error::GenericError(error_code, message@),
    }
}

/// The view of a planned transaction or collection revocation refusal.
pub open spec fn revoke_collection_plan_view(r: Result<Icrc37Transaction, RevokeCollectionApprovalError>) -> Result<TxView, Icrc37Error> {
    match r {
        Ok(t) => Ok(t@),
        Err(e) => Err(revoke_collection_error(e)),
    }
}

/// What a collection approval revocation leads to: a refusal, or the transaction to log. The
/// approvals revoked are those of the caller's account without subaccount.
pub open spec fn revoke_collection_outcome(
    l: LedgerView,
    arg: RevokeCollectionApprovalArg,
    caller: Seq<u8>,
    now: u64,
    window: Result<(), String>,
    settings: ApprovalSettings,
    defaults: ApprovalDefaults,
) -> Result<TxView, Icrc37Error> {
    let from: AccountView = (caller, None);
    if refusal(window) is Some {
        Err(Icrc37Error::GenericError(0, refusal(window)->0))
    } else if opt_timing_error(arg.created_at_time, now, settings, defaults) is Some {
        Err(opt_timing_error(arg.created_at_time, now, settings, defaults)->0)
    } else if !l.collection_approvals.contains_key(from) {
        Err(Icrc37Error::ApprovalDoesNotExist)
    } else {
        Ok(
            TxView {
                btype: "37revoke_coll"@,
                timestamp: now,
                op: "37revoke_coll"@,
                tid: None,
                from: Some(from),
                to: None,
                memo: opt_bytes(arg.memo),
                created_at_time: arg.created_at_time,
                spender: opt_account(arg.spender),
                exp: None,
            },
        )
    }
}

/// Decides a request to revoke collection approvals: the refusal, or the transaction to log.
/// `window` is the verdict of the sliding-window guard on the collection.
pub fn plan_revoke_collection_approvals(
    ledger: &Ledger,
    arg: &RevokeCollectionApprovalArg,
    caller: &Vec<u8>,
    current_time: u64,
    window: &Result<(), String>,
    settings: &ApprovalSettings,
    defaults: &ApprovalDefaults,
) -> (r: Result<Icrc37Transaction, RevokeCollectionApprovalError>)
    requires
        ledger.wf(),
        opt_timing_computable(arg.created_at_time, current_time, *settings, *defaults),
    ensures
        revoke_collection_plan_view(r) == revoke_collection_outcome(ledger@, *arg, caller@, current_time, *window, *settings, *defaults),
{
    match window {
        Ok(()) => {},
        Err(e) => {
            return Err(RevokeCollectionApprovalError::GenericError { error_code: 0, message: e.clone() });
        },
    }
    match opt_timing_check(arg.created_at_time, current_time, settings, defaults) {
        Some(TimingRefusal::CreatedInFuture(ledger_time)) => {
            return Err(RevokeCollectionApprovalError::CreatedInFuture { ledger_time });
        },
        Some(TimingRefusal::TooOld) => {
            return Err(RevokeCollectionApprovalError::TooOld);
        },
        None => {},
    }
    let from_account = account_of_owner(caller);
    if ledger.collection_approval_count(&from_account).is_none() {
        return Err(RevokeCollectionApprovalError::ApprovalDoesNotExist);
    }
    Ok(
        Icrc37Transaction {
            btype: String::from_str("37revoke_coll"),
            timestamp: current_time,
            op: String::from_str("37revoke_coll"),
            tid: None,
            from: Some(from_account),
            to: None,
            memo: copy_opt_bytes(&arg.memo),
            created_at_time: arg.created_at_time,
            spender: copy_opt_account(&arg.spender),
            exp: None,
        },
    )
}

/// Completes a collection approval revocation once its transaction went to the log: where the
/// log took it, drops the spender's approval, or all, from the caller's account without
/// subaccount, and returns the log index; where it did not, changes nothing.
pub fn commit_revoke_collection_approvals(
    ledger: &mut Ledger,
    arg: &RevokeCollectionApprovalArg,
    caller: &Vec<u8>,
    logged: Result<u64, String>,
) -> (r: Result<u64, RevokeCollectionApprovalError>)
    requires
        old(ledger).wf(),
    ensures
        final(ledger).wf(),
        match logged {
            Ok(index) => {
                let from: AccountView = (caller@, None);
                r == Ok::<u64, RevokeCollectionApprovalError>(index) && final(ledger)@ == (LedgerView {
                    collection_approvals: old(ledger)@.collection_approvals.insert(
                        from,
                        revoked(set_or_empty(old(ledger)@.collection_approvals, from), arg.spender),
                    ),
                    ..old(ledger)@
                })
            },
            Err(e) => r matches Err(x) && revoke_collection_error(x) == Icrc37Error::GenericError(1, log_failure(e@))
                && final(ledger)@ == old(ledger)@,
        },
{
    match logged {
        Ok(index) => {
            let from_account = account_of_owner(caller);
            let set = ledger.take_collection_set(&from_account);
            let set = revoke_in(set, &arg.spender);
            ledger.put_collection_set(from_account, set);
            proof {
                let from: AccountView = (caller@, None);
                assert(ledger@.collection_approvals =~= old(ledger)@.collection_approvals.insert(
                    from,
                    revoked(set_or_empty(old(ledger)@.collection_approvals, from), arg.spender),
                ));
            }
            Ok(index)
        },
        Err(e) => Err(RevokeCollectionApprovalError::GenericError { error_code: 1, message: log_failure_message(&e) }),
    }
}

/// A request by a spender, or the owner, to transfer a token.
#[derive(Debug)]
pub struct TransferFromArg {
    pub spender_subaccount: Option<Vec<u8>>,
    pub from: Account,
    pub to: Account,
    pub token_id: u64,
    pub memo: Option<Vec<u8>>,
    pub created_at_time: Option<u64>,
}

/// Why a transfer by a spender is refused.
#[derive(Debug)]
pub enum TransferFromError {
    InvalidRecipient,
    Unauthorized,
    NonExistingTokenId,
    TooOld,
    CreatedInFuture { ledger_time: u64 },
    Duplicate { duplicate_of: u64 },
    GenericError { error_code: u64, message: String },
}

/// The view of a transfer refusal.
pub open spec fn transfer_from_error(e: TransferFromError) -> Icrc37Error {
    match e {
        TransferFromError::InvalidRecipient => Icrc37Error::InvalidRecipient,
        TransferFromError::Unauthorized => Icrc37Error::Unauthorized,
        TransferFromError::NonExistingTokenId => Icrc37Error::NonExistingTokenId,
        TransferFromError::TooOld => Icrc37Error::TooOld,
        TransferFromError::CreatedInFuture { ledger_time } => Icrc37Error::CreatedInFuture(ledger_time),
        TransferFromError::Duplicate { duplicate_of } => Icrc37Error::Duplicate(duplicate_of),
        TransferFromError::GenericError { error_code, message } => Icrc37Error::GenericError(error_code, message@),
    }
}

/// The view of a planned transaction or transfer refusal.
pub open spec fn transfer_from_plan_view(r: Result<Icrc37Transaction, TransferFromError>) -> Result<TxView, Icrc37Error> {
    match r {
        Ok(t) => Ok(t@),
        Err(e) => Err(transfer_from_error(e)),
    }
}

/// The approval has run out at `now`.
pub open spec fn expired(a: ApprovalView, now: u64) -> bool {
    a.expires_at matches Some(e) && e <= now
}

/// Whether the approvals under `key` hold a live approval of `spender`, and the approvals
/// after dropping that approval where it has run out.
pub open spec fn approval_check<K>(
    m: Map<K, Map<AccountView, ApprovalView>>,
    key: K,
    spender: AccountView,
    now: u64,
) -> (bool, Map<K, Map<AccountView, ApprovalView>>) {
    if m.contains_key(key) && m[key].contains_key(spender) {
        if expired(m[key][spender], now) {
            (false, m.insert(key, m[key].remove(spender)))
        } else {
            (true, m)
        }
    } else {
        (false, m)
    }
}

/// What a transfer request by a spender leads to: a refusal or the transaction to log, and
/// the ledger afterwards. The checks of the approvals drop those of the spender that have run
/// out, also where the transfer is then refused.
pub open spec fn transfer_from_outcome(
    l: LedgerView,
    arg: TransferFromArg,
    caller: Seq<u8>,
    now: u64,
    window: Result<(), String>,
    settings: ApprovalSettings,
    defaults: ApprovalDefaults,
) -> (Result<TxView, Icrc37Error>, LedgerView) {
    if refusal(window) is Some {
        (Err(Icrc37Error::GenericError(0, refusal(window)->0)), l)
    } else if opt_timing_error(arg.created_at_time, now, settings, defaults) is Some {
        (Err(opt_timing_error(arg.created_at_time, now, settings, defaults)->0), l)
    } else if !l.tokens.contains_key(arg.token_id) {
        (Err(Icrc37Error::NonExistingTokenId), l)
    } else if arg.from@ == arg.to@ || arg.to@ == anonymous_account() {
        (Err(Icrc37Error::InvalidRecipient), l)
    } else {
        let spender = caller_account(caller, arg.spender_subaccount);
        let owner = l.tokens[arg.token_id];
        let tok = approval_check(l.token_approvals, arg.token_id, spender, now);
        let coll = approval_check(l.collection_approvals, owner, spender, now);
        let after = LedgerView { token_approvals: tok.1, collection_approvals: coll.1, ..l };
        if owner != arg.from@ || (spender != arg.from@ && !tok.0 && !coll.0) {
            (Err(Icrc37Error::Unauthorized), after)
        } else {
            (
                Ok(
                    TxView {
                        btype: "37xfer"@,
                        timestamp: now,
                        op: "37xfer"@,
                        tid: Some(arg.token_id),
                        from: Some(arg.from@),
                        to: Some(arg.to@),
                        memo: opt_bytes(arg.memo),
                        created_at_time: arg.created_at_time,
                        spender: Some(spender),
                        exp: None,
                    },
                ),
                after,
            )
        }
    }
}

impl Ledger {
    /// Whether the approvals of `token_id` hold a live approval of `spender`; drops it where
    /// it has run out.
    fn check_token_approval(&mut self, token_id: u64, spender: &Account, now: u64) -> (r: bool)
        requires
            old(self).wf(),
        ensures
            final(self).wf(),
            (r, final(self)@.token_approvals) == approval_check(old(self)@.token_approvals, token_id, spender@, now),
            final(self)@ == (LedgerView { token_approvals: final(self)@.token_approvals, ..old(self)@ }),
    {
        let expired_now = match self.token_approvals.get(&token_id) {
            Some(set) => {
                assert(set.wf());
                match set.get(spender) {
                    Some(a) => match a.expires_at {
                        Some(e) => if e <= now { Some(true) } else { Some(false) },
                        None => Some(false),
                    },
                    None => None,
                }
            },
            None => None,
        };
        match expired_now {
            Some(true) => {
                let mut set = self.take_token_set(token_id);
                set.remove(spender);
                self.put_token_set(token_id, set);
                false
            },
            Some(false) => true,
            None => false,
        }
    }

    /// Whether the collection approvals given by `owner` hold a live approval of `spender`;
    /// drops it where it has run out.
    fn check_collection_approval(&mut self, owner: &Account, spender: &Account, now: u64) -> (r: bool)
        requires
            old(self).wf(),
        ensures
            final(self).wf(),
            (r, final(self)@.collection_approvals) == approval_check(old(self)@.collection_approvals, owner@, spender@, now),
            final(self)@ == (LedgerView { collection_approvals: final(self)@.collection_approvals, ..old(self)@ }),
    {
        let expired_now = match self.collection_approvals.get(owner) {
            Some(set) => {
                assert(set.wf());
                match set.get(spender) {
                    Some(a) => match a.expires_at {
                        Some(e) => if e <= now { Some(true) } else { Some(false) },
                        None => Some(false),
                    },
                    None => None,
                }
            },
            None => None,
        };
        match expired_now {
            Some(true) => {
                let mut set = self.take_collection_set(owner);
                set.remove(spender);
                self.put_collection_set(copy_account(owner), set);
                false
            },
            Some(false) => true,
            None => false,
        }
    }
}

/// Decides a request by a spender, or the owner, to transfer a token: the refusal, or the
/// transaction to log. The checks of the approvals drop those of the spender that have run
/// out. `window` is the verdict of the sliding-window guard on the token.
pub fn plan_transfer_from(
    ledger: &mut Ledger,
    arg: &TransferFromArg,
    caller: &Vec<u8>,
    current_time: u64,
    window: &Result<(), String>,
    settings: &ApprovalSettings,
    defaults: &ApprovalDefaults,
) -> (r: Result<Icrc37Transaction, TransferFromError>)
    requires
        old(ledger).wf(),
        opt_timing_computable(arg.created_at_time, current_time, *settings, *defaults),
    ensures
        final(ledger).wf(),
        (transfer_from_plan_view(r), final(ledger)@) == transfer_from_outcome(
            old(ledger)@,
            *arg,
            caller@,
            current_time,
            *window,
            *settings,
            *defaults,
        ),
{
    match window {
        Ok(()) => {},
        Err(e) => {
            return Err(TransferFromError::GenericError { error_code: 0, message: e.clone() });
        },
    }
    match opt_timing_check(arg.created_at_time, current_time, settings, defaults) {
        Some(TimingRefusal::CreatedInFuture(ledger_time)) => {
            return Err(TransferFromError::CreatedInFuture { ledger_time });
        },
        Some(TimingRefusal::TooOld) => {
            return Err(TransferFromError::TooOld);
        },
        None => {},
    }
    let owner = match ledger.owner_of(arg.token_id) {
        Some(o) => o,
        None => {
            return Err(TransferFromError::NonExistingTokenId);
        },
    };
    if same_account(&arg.from, &arg.to) {
        return Err(TransferFromError::InvalidRecipient);
    }
    if is_anonymous_account(&arg.to) {
        return Err(TransferFromError::InvalidRecipient);
    }
    let spender_account = make_account(caller, &arg.spender_subaccount);
    let is_owner = same_account(&owner, &arg.from);
    let has_token_approval = ledger.check_token_approval(arg.token_id, &spender_account, current_time);
    let has_collection_approval = ledger.check_collection_approval(&owner, &spender_account, current_time);
    let is_caller_token_holder = same_account(&spender_account, &arg.from);
    if !is_owner || (!is_caller_token_holder && !has_token_approval && !has_collection_approval) {
        return Err(TransferFromError::Unauthorized);
    }
    Ok(
        Icrc37Transaction {
            btype: String::from_str("37xfer"),
            timestamp: current_time,
            op: String::from_str("37xfer"),
            tid: Some(arg.token_id),
            from: Some(copy_account(&arg.from)),
            to: Some(copy_account(&arg.to)),
            memo: copy_opt_bytes(&arg.memo),
            created_at_time: arg.created_at_time,
            spender: Some(spender_account),
            exp: None,
        },
    )
}

/// Why the log did not take a transaction: an error it reports with a message, or another
/// failure, given by its text.
#[derive(Debug)]
pub enum TransactionLogError {
    Icrc3Error(String),
    Other(String),
}

/// The refusal a failed logging of a transfer gives.
pub open spec fn transfer_log_error(e: TransactionLogError) -> Icrc37Error {
    match e {
        TransactionLogError::Icrc3Error(m) => if text_contains(lowercase_of(m@), "duplicate"@) {
            Icrc37Error::Duplicate(2)
        } else {
            Icrc37Error::GenericError(1, "Failed to insert transaction: "@ + m@)
        },
        TransactionLogError::Other(m) => Icrc37Error::GenericError(1, "Failed to insert transaction: "@ + m@),
    }
}

/// The tokens listed for an owner, or none.
pub open spec fn ids_or_empty(m: Map<AccountView, Seq<u64>>, a: AccountView) -> Seq<u64> {
    if m.contains_key(a) { m[a] } else { Seq::empty() }
}

/// The ledger after the transfer of a token to `to`: the owner changes, the token is listed
/// for the new owner and no longer for the previous one, the token's approvals are dropped,
/// and so are the collection approvals given by `from`.
pub open spec fn transferred(l: LedgerView, token_id: u64, from: AccountView, to: AccountView) -> LedgerView {
    let prev = l.tokens[token_id];
    let by1 = l.tokens_by_owner.insert(to, ids_or_empty(l.tokens_by_owner, to).push(token_id));
    let by2 = by1.insert(prev, ids_or_empty(by1, prev).filter(other_than(token_id)));
    LedgerView {
        tokens: l.tokens.insert(token_id, to),
        tokens_by_owner: by2,
        token_approvals: l.token_approvals.remove(token_id),
        collection_approvals: l.collection_approvals.remove(from),
        ..l
    }
}

/// Every id but `id`.
pub open spec fn other_than(id: u64) -> spec_fn(u64) -> bool {
    |x: u64| x != id
}

fn without_id(v: &Vec<u64>, id: u64) -> (r: Vec<u64>)
    ensures
        r@ == v@.filter(other_than(id)),
{
    let ghost p = other_than(id);
    let mut r: Vec<u64> = Vec::new();
    let mut i: usize = 0;
    proof {
        reveal_with_fuel(Seq::<u64>::filter, 1);
        assert(v@.take(0) =~= Seq::<u64>::empty());
    }
    while i < v.len()
        invariant
            i <= v@.len(),
            p == other_than(id),
            r@ == v@.take(i as int).filter(p),
        decreases v@.len() - i,
    {
        proof {
            reveal_with_fuel(Seq::<u64>::filter, 1);
            assert(v@.take(i + 1).drop_last() =~= v@.take(i as int));
        }
        if v[i] != id {
            r.push(v[i]);
        }
        i = i + 1;
    }
    assert(v@.take(v@.len() as int) =~= v@);
    r
}

impl Ledger {
    pub(crate) fn take_owner_ids(&mut self, owner: &Account) -> (r: Vec<u64>)
        requires
            old(self).wf(),
        ensures
            final(self).wf(),
            r@ == ids_or_empty(old(self)@.tokens_by_owner, owner@),
            final(self)@ == (LedgerView { tokens_by_owner: old(self)@.tokens_by_owner.remove(owner@), ..old(self)@ }),
    {
        match self.tokens_by_owner.remove(owner) {
            Some(v) => v,
            None => Vec::new(),
        }
    }
}

fn transfer_log_refusal(e: TransactionLogError) -> (r: TransferFromError)
    ensures
        transfer_from_error(r) == transfer_log_error(e),
{
    match e {
        TransactionLogError::Icrc3Error(m) => {
            let lower = to_lowercase(m.as_str());
            if contains_text(lower.as_str(), "duplicate") {
                TransferFromError::Duplicate { duplicate_of: 2 }
            } else {
                let mut message = String::from_str("Failed to insert transaction: ");
                message.append(m.as_str());
                TransferFromError::GenericError { error_code: 1, message }
            }
        },
        TransactionLogError::Other(m) => {
            let mut message = String::from_str("Failed to insert transaction: ");
            message.append(m.as_str());
            TransferFromError::GenericError { error_code: 1, message }
        },
    }
}

/// Completes a transfer once its transaction went to the log: where the log took it, gives the
/// token to `to` as `transferred` says and returns the log index; where it did not, changes
/// nothing and reports a duplicate where the log's message says so.
pub fn commit_transfer_from(
    ledger: &mut Ledger,
    arg: &TransferFromArg,
    logged: Result<u64, TransactionLogError>,
) -> (r: Result<u64, TransferFromError>)
    requires
        old(ledger).wf(),
        old(ledger)@.tokens.contains_key(arg.token_id),
    ensures
        final(ledger).wf(),
        match logged {
            Ok(index) => r == Ok::<u64, TransferFromError>(index) && final(ledger)@ == transferred(
                old(ledger)@,
                arg.token_id,
                arg.from@,
                arg.to@,
            ),
            Err(e) => r matches Err(x) && transfer_from_error(x) == transfer_log_error(e) && final(ledger)@ == old(ledger)@,
        },
{
    match logged {
        Ok(index) => {
            let previous_owner = match ledger.owner_of(arg.token_id) {
                Some(o) => o,
                None => {
                    assert(false);
                    copy_account(&arg.to)
                },
            };
            let ghost l0 = ledger@;
            ledger.tokens.insert(arg.token_id, copy_account(&arg.to));
            let mut to_ids = ledger.take_owner_ids(&arg.to);
            to_ids.push(arg.token_id);
            ledger.tokens_by_owner.insert(copy_account(&arg.to), to_ids);
            let ghost by1 = ledger@.tokens_by_owner;
            let prev_ids = ledger.take_owner_ids(&previous_owner);
            let kept = without_id(&prev_ids, arg.token_id);
            ledger.tokens_by_owner.insert(copy_account(&previous_owner), kept);
            ledger.token_approvals.remove(&arg.token_id);
            ledger.collection_approvals.remove(&arg.from);
            proof {
                let goal = transferred(l0, arg.token_id, arg.from@, arg.to@);
                assert(by1 =~= l0.tokens_by_owner.insert(arg.to@, ids_or_empty(l0.tokens_by_owner, arg.to@).push(arg.token_id)));
                let prev = l0.tokens[arg.token_id];
                assert(previous_owner@ == prev);
                assert(prev_ids@ == ids_or_empty(by1, prev));
                assert(ledger@.tokens_by_owner =~= goal.tokens_by_owner);
                assert(ledger@.tokens =~= goal.tokens);
            }
            Ok(index)
        },
        Err(e) => Err(transfer_log_refusal(e)),
    }
}

/// How many revocations of a batch are carried out: the first `limit` of them, `limit` being
/// the setting where it fits a `usize`, else `default_max`.
pub open spec fn revoke_batch_count(requested: nat, setting: Option<Nat>, default_max: nat) -> nat {
    let limit = match setting {
        Some(n) => if n.value() <= usize::MAX {
            n.value()
        } else {
            default_max
        },
        None => default_max,
    };
    if requested < limit {
        requested
    } else {
        limit
    }
}

/// How many revocations of a batch of `requested` are carried out.
pub fn revoke_batch_size(requested: usize, max_revoke_approvals: &Option<Nat>, default_max: usize) -> (r: usize)
    ensures
        r == revoke_batch_count(requested as nat, *max_revoke_approvals, default_max as nat),
{
    let limit = match max_revoke_approvals {
        Some(n) => match n.to_u64() {
            Some(x) => if x <= usize::MAX as u64 {
                x as usize
            } else {
                default_max
            },
            None => default_max,
        },
        None => default_max,
    };
    if requested < limit {
        requested
    } else {
        limit
    }
}

/// A transfer gives the token to the recipient and drops its approvals and the collection
/// approvals of the sender; every other token keeps its owner; where the owner changes, the
/// recipient lists the token and the previous owner no longer does.
pub proof fn law_transfer_moves_token(l: LedgerView, token_id: u64, from: AccountView, to: AccountView)
    requires
        l.tokens.contains_key(token_id),
    ensures
        owner_in(transferred(l, token_id, from, to), token_id) == Some(to),
        !transferred(l, token_id, from, to).token_approvals.contains_key(token_id),
        !transferred(l, token_id, from, to).collection_approvals.contains_key(from),
        forall|t: u64| t != token_id ==> owner_in(transferred(l, token_id, from, to), t) == #[trigger] owner_in(l, t),
        l.tokens[token_id] != to ==> transferred(l, token_id, from, to).tokens_by_owner[to].contains(token_id),
        l.tokens[token_id] != to ==> !transferred(l, token_id, from, to).tokens_by_owner[l.tokens[token_id]].contains(token_id),
{
    let prev = l.tokens[token_id];
    let after = transferred(l, token_id, from, to);
    if prev != to {
        let listed = ids_or_empty(l.tokens_by_owner, to).push(token_id);
        assert(listed[listed.len() - 1] == token_id);
        let by1 = l.tokens_by_owner.insert(to, listed);
        let kept = ids_or_empty(by1, prev).filter(other_than(token_id));
        ids_or_empty(by1, prev).filter_lemma(other_than(token_id));
        assert(!kept.contains(token_id)) by {
            if kept.contains(token_id) {
                let k = choose|k: int| 0 <= k < kept.len() && kept[k] == token_id;
                assert(other_than(token_id)(kept[k]));
            }
        }
    }
}

/// After a revocation naming a spender, the spender holds no approval of the token; after one
/// naming none, nobody does.
pub proof fn law_revoked_spender_loses_approval(set: Map<AccountView, ApprovalView>, spender: Option<Account>)
    ensures
        spender matches Some(s) ==> !revoked(set, spender).contains_key(s@),
        spender is None ==> revoked(set, spender).dom().is_empty(),
{
}

/// After an approval is recorded, the spender holds it for the token, as given.
pub proof fn law_approval_recorded(l: LedgerView, token_id: u64, info: ApprovalInfo, caller: Seq<u8>, now: u64)
    ensures
        ({
            let set = set_or_empty(l.token_approvals, token_id).insert(info.spender@, recorded_approval(info, caller, now));
            let after = l.token_approvals.insert(token_id, set);
            set_or_empty(after, token_id).contains_key(info.spender@) && set_or_empty(after, token_id)[info.spender@]
                == recorded_approval(info, caller, now)
        }),
{
}

/// The spender holds an approval under `key` that has not run out at `now`.
pub open spec fn holds_live_approval<K>(
    m: Map<K, Map<AccountView, ApprovalView>>,
    key: K,
    spender: AccountView,
    now: u64,
) -> bool {
    m.contains_key(key) && m[key].contains_key(spender) && !expired(m[key][spender], now)
}

/// A transfer of a token by its owner's account to another, valid account, that the guard
/// lets through and whose creation time is accepted, is carried out exactly where the caller
/// is the owner's account or holds an approval that has not run out, of the token or of the
/// owner's collection; else it is refused as unauthorized.
pub proof fn law_transfer_needs_owner_or_live_approval(
    l: LedgerView,
    arg: TransferFromArg,
    caller: Seq<u8>,
    now: u64,
    settings: ApprovalSettings,
    defaults: ApprovalDefaults,
)
    requires
        opt_timing_error(arg.created_at_time, now, settings, defaults) is None,
        l.tokens.contains_key(arg.token_id),
        l.tokens[arg.token_id] == arg.from@,
        arg.from@ != arg.to@,
        arg.to@ != anonymous_account(),
    ensures
        ({
            let spender = caller_account(caller, arg.spender_subaccount);
            let outcome = transfer_from_outcome(l, arg, caller, now, Ok(()), settings, defaults).0;
            &&& outcome is Ok <==> (spender == arg.from@ || holds_live_approval(l.token_approvals, arg.token_id, spender, now)
                || holds_live_approval(l.collection_approvals, arg.from@, spender, now))
            &&& outcome is Err ==> outcome == Err::<TxView, Icrc37Error>(Icrc37Error::Unauthorized)
        }),
{
}

/// After the owner approves a spender for a token, without expiry or with an expiry still
/// ahead, the spender may transfer the token from the owner to another valid account.
pub proof fn law_approved_spender_may_transfer(
    l: LedgerView,
    info: ApprovalInfo,
    owner: Seq<u8>,
    approved_at: u64,
    arg: TransferFromArg,
    spender: Seq<u8>,
    now: u64,
    settings: ApprovalSettings,
    defaults: ApprovalDefaults,
)
    requires
        opt_timing_error(arg.created_at_time, now, settings, defaults) is None,
        l.tokens.contains_key(arg.token_id),
        l.tokens[arg.token_id] == caller_account(owner, info.from_subaccount),
        arg.from@ == caller_account(owner, info.from_subaccount),
        arg.from@ != arg.to@,
        arg.to@ != anonymous_account(),
        caller_account(spender, arg.spender_subaccount) == info.spender@,
        info.expires_at matches Some(e) ==> now < e,
    ensures
        ({
            let approved = LedgerView {
                token_approvals: l.token_approvals.insert(
                    arg.token_id,
                    set_or_empty(l.token_approvals, arg.token_id).insert(
                        info.spender@,
                        recorded_approval(info, owner, approved_at),
                    ),
                ),
                ..l
            };
            transfer_from_outcome(approved, arg, spender, now, Ok(()), settings, defaults).0 is Ok
        }),
{
}

/// Revoking one spender's approval takes away that approval only: every other spender keeps
/// the approval it held, as it was, and none is added; a revocation that names no spender
/// takes away every approval.
pub proof fn law_revoke_keeps_other_spenders(set: Map<AccountView, ApprovalView>, spender: Account, other: AccountView)
    requires
        other != spender@,
    ensures
        !revoked(set, Some(spender)).contains_key(spender@),
        revoked(set, None).dom().is_empty(),
        revoked(set, Some(spender)).contains_key(other) == set.contains_key(other),
        set.contains_key(other) ==> revoked(set, Some(spender))[other] == set[other],
{
}

/// The maximum of approvals per token: where the settings set it to `m` (fitting a `usize`), an
/// otherwise valid approval of a token whose approvals already number `m` or more is refused as
/// exceeding the maximum, and one of a token with fewer, or with none recorded, is accepted.
pub proof fn law_max_approvals_per_token(
    l: LedgerView,
    arg: ApproveTokenArg,
    caller: Seq<u8>,
    now: u64,
    settings: ApprovalSettings,
    defaults: ApprovalDefaults,
)
    requires
        settings.max_approvals_per_token_or_collection is Some,
        settings.max_approvals_per_token_or_collection.unwrap().value() <= usize::MAX,
        timing_error(arg.approval_info.created_at_time, now, settings, defaults) is None,
        owner_in(l, arg.token_id) == Some(caller_account(caller, arg.approval_info.from_subaccount)),
        arg.approval_info.spender@ != anonymous_account(),
    ensures
        ({
            let m = settings.max_approvals_per_token_or_collection.unwrap().value();
            let at_max = l.token_approvals.contains_key(arg.token_id) && l.token_approvals[arg.token_id].len() >= m;
            let outcome = approve_token_outcome(l, arg, caller, now, Ok(()), settings, defaults);
            &&& at_max ==> outcome == Err::<TxView, Icrc37Error>(
                Icrc37Error::GenericError(1, "Maximum approvals per token exceeded"@),
            )
            &&& !at_max ==> outcome is Ok
        }),
{
}

/// The maximum of collection approvals: where the settings set it to `m` (fitting a `usize`),
/// an otherwise valid collection approval by an account whose approvals already number `m` or
/// more is refused as exceeding the maximum, and one by an account with fewer, or with none
/// recorded, is accepted.
pub proof fn law_max_approvals_per_collection(
    l: LedgerView,
    arg: ApproveCollectionArg,
    caller: Seq<u8>,
    now: u64,
    settings: ApprovalSettings,
    defaults: ApprovalDefaults,
)
    requires
        settings.max_approvals_per_token_or_collection is Some,
        settings.max_approvals_per_token_or_collection.unwrap().value() <= usize::MAX,
        timing_error(arg.approval_info.created_at_time, now, settings, defaults) is None,
        owns_a_token(l, caller),
        arg.approval_info.spender@ != anonymous_account(),
    ensures
        ({
            let m = settings.max_approvals_per_token_or_collection.unwrap().value();
            let from = caller_account(caller, arg.approval_info.from_subaccount);
            let at_max = l.collection_approvals.contains_key(from) && l.collection_approvals[from].len() >= m;
            let outcome = approve_collection_outcome(l, arg, caller, now, Ok(()), settings, defaults);
            &&& at_max ==> outcome == Err::<TxView, Icrc37Error>(
                Icrc37Error::GenericError(1, "Maximum approvals per collection exceeded"@),
            )
            &&& !at_max ==> outcome is Ok
        }),
{
}

} // verus!

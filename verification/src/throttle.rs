//! Per-token transfer throttling: a cooldown after a run of successful
//! transfers, and a limit on the number of attempts within a short burst window.
use vstd::prelude::*;

use crate::bytes::{
    be_u16, get_u64_be, lemma_bytes_u16_be_roundtrip, lemma_bytes_u64_be_roundtrip,
    lemma_u16_be_roundtrip, lemma_u64_be_roundtrip, push_u64_be, read_u64_be, u16_be, u64_be,
};
use crate::stable::{record_map_entries, record_map_get, record_map_insert, records, RecordMap};
use crate::text::{decimal, decimal_of};

verus! {

/// Successful transfers of one token after which a cooldown starts.
pub const MAX_SUCCESSFUL_TRANSFERS: u16 = 5;

/// Length of the cooldown, in nanoseconds.
pub const COOLDOWN_NS: u64 = 5 * 60 * 1_000_000_000;

/// Length of the burst window, in nanoseconds.
pub const BURST_WINDOW_NS: u64 = 60 * 1_000_000;

/// Attempts allowed within one burst window.
pub const MAX_BURST_CALLS: u8 = 5;

/// Error code reported for a transfer refused because of a cooldown.
pub const TRANSFER_COOLDOWN_ERROR_CODE: u64 = 9_001;

/// Error code reported for a transfer refused because of the burst limit.
pub const TRANSFER_BURST_ERROR_CODE: u64 = 9_002;

/// Length of the stored record of a [`TransferThrottleState`].
pub const THROTTLE_STATE_LEN: usize = 19;

/// What is remembered of one token.
#[derive(Clone, Copy, Debug, PartialEq, Eq, Structural)]
pub struct TransferThrottleState {
    pub successful_transfers: u16,
    pub cooldown_until_ns: u64,
    pub burst_window_started_at_ns: u64,
    pub burst_calls: u8,
}

/// The state of a token that has no record yet.
pub open spec fn initial_throttle_state() -> TransferThrottleState {
    TransferThrottleState {
        successful_transfers: 0,
        cooldown_until_ns: 0,
        burst_window_started_at_ns: 0,
        burst_calls: 0,
    }
}

impl Default for TransferThrottleState {
    fn default() -> (s: Self)
        ensures
            s == initial_throttle_state(),
    {
        TransferThrottleState {
            successful_transfers: 0,
            cooldown_until_ns: 0,
            burst_window_started_at_ns: 0,
            burst_calls: 0,
        }
    }
}

/// Why a transfer attempt was refused.
#[derive(Clone, Copy, Debug, PartialEq, Eq, Structural)]
pub enum TransferThrottleError {
    Cooldown { retry_after_ns: u64 },
    BurstLimit { retry_after_ns: u64 },
}

/// The error code of each kind of refusal.
pub open spec fn error_code_of(e: TransferThrottleError) -> u64 {
    match e {
        TransferThrottleError::Cooldown { .. } => TRANSFER_COOLDOWN_ERROR_CODE,
        TransferThrottleError::BurstLimit { .. } => TRANSFER_BURST_ERROR_CODE,
    }
}

impl TransferThrottleError {
    /// The numeric code of this refusal.
    pub fn error_code(self) -> (code: u64)
        ensures
            code == error_code_of(self),
    {
        match self {
            TransferThrottleError::Cooldown { .. } => TRANSFER_COOLDOWN_ERROR_CODE,
            TransferThrottleError::BurstLimit { .. } => TRANSFER_BURST_ERROR_CODE,
        }
    }

    /// The text of this refusal: its kind and the time from which to retry.
    pub fn message(self) -> (m: String)
        ensures
            m@ == message_of(self),
    {
        match self {
            TransferThrottleError::Cooldown { retry_after_ns } => {
                let mut m = String::from_str("TRANSFER_COOLDOWN retry_after_ns=");
                let digits = decimal(retry_after_ns);
                m.append(digits.as_str());
                proof {
                    reveal_strlit("TRANSFER_COOLDOWN retry_after_ns=");
                }
                m
            },
            TransferThrottleError::BurstLimit { retry_after_ns } => {
                let mut m = String::from_str("TRANSFER_BURST_LIMIT retry_after_ns=");
                let digits = decimal(retry_after_ns);
                m.append(digits.as_str());
                proof {
                    reveal_strlit("TRANSFER_BURST_LIMIT retry_after_ns=");
                }
                m
            },
        }
    }
}

/// The text of a refusal.
pub open spec fn message_of(e: TransferThrottleError) -> Seq<char> {
    match e {
        TransferThrottleError::Cooldown { retry_after_ns } => "TRANSFER_COOLDOWN retry_after_ns="@
            + decimal_of(retry_after_ns as nat),
        TransferThrottleError::BurstLimit { retry_after_ns } =>
            "TRANSFER_BURST_LIMIT retry_after_ns="@ + decimal_of(retry_after_ns as nat),
    }
}

/// `a + b`, or `u64::MAX` where that overflows.
pub open spec fn sat_add_u64(a: u64, b: u64) -> u64 {
    if a + b > u64::MAX { u64::MAX } else { (a + b) as u64 }
}

/// `a - b`, or `0` where that is negative.
pub open spec fn sat_sub_u64(a: u64, b: u64) -> u64 {
    if a < b { 0 } else { (a - b) as u64 }
}

/// The state with an expired cooldown cleared, as an attempt at `now` sees it.
pub open spec fn clear_cooldown(s: TransferThrottleState) -> TransferThrottleState {
    if s.cooldown_until_ns != 0 {
        TransferThrottleState { successful_transfers: 0, cooldown_until_ns: 0, ..s }
    } else {
        s
    }
}

/// The state with the burst window restarted at `now` when it has run out.
pub open spec fn roll_burst_window(s: TransferThrottleState, now: u64) -> TransferThrottleState {
    if sat_sub_u64(now, s.burst_window_started_at_ns) >= BURST_WINDOW_NS {
        TransferThrottleState { burst_window_started_at_ns: now, burst_calls: 0, ..s }
    } else {
        s
    }
}

/// The answer to a transfer attempt at `now` on a token in state `s`.
pub open spec fn check_outcome(s: TransferThrottleState, now: u64) -> Result<(), TransferThrottleError> {
    if s.cooldown_until_ns > now {
        Err(TransferThrottleError::Cooldown { retry_after_ns: s.cooldown_until_ns })
    } else {
        let w = roll_burst_window(clear_cooldown(s), now);
        if w.burst_calls >= MAX_BURST_CALLS {
            Err(
                TransferThrottleError::BurstLimit {
                    retry_after_ns: sat_add_u64(w.burst_window_started_at_ns, BURST_WINDOW_NS),
                },
            )
        } else {
            Ok(())
        }
    }
}

/// The state of the token after an attempt at `now`. A refused attempt leaves it as it was.
pub open spec fn check_next(s: TransferThrottleState, now: u64) -> TransferThrottleState {
    if check_outcome(s, now) is Ok {
        let w = roll_burst_window(clear_cooldown(s), now);
        TransferThrottleState { burst_calls: (w.burst_calls + 1) as u8, ..w }
    } else {
        s
    }
}

/// The state of the token after a successful transfer at `now`.
pub open spec fn record_next(s: TransferThrottleState, now: u64) -> TransferThrottleState {
    let c = if s.cooldown_until_ns != 0 && s.cooldown_until_ns <= now {
        TransferThrottleState { successful_transfers: 0, cooldown_until_ns: 0, ..s }
    } else {
        s
    };
    let n: u16 = if c.successful_transfers == u16::MAX { u16::MAX } else { (c.successful_transfers + 1) as u16 };
    if n >= MAX_SUCCESSFUL_TRANSFERS {
        TransferThrottleState { successful_transfers: n, cooldown_until_ns: sat_add_u64(now, COOLDOWN_NS), ..c }
    } else {
        TransferThrottleState { successful_transfers: n, ..c }
    }
}

/// What the status query reports of a token in state `s` at `now`.
pub open spec fn status_of(s: TransferThrottleState, now: u64) -> TransferThrottleStatus {
    TransferThrottleStatus {
        successful_transfers: if s.cooldown_until_ns > now { s.successful_transfers } else { 0 },
        cooldown_until_ns: if s.cooldown_until_ns > now { Some(s.cooldown_until_ns) } else { None },
    }
}

/// What is reported of a token: the transfers counted toward the running cooldown and its end.
#[derive(Clone, Debug, PartialEq, Eq, Structural)]
pub struct TransferThrottleStatus {
    pub successful_transfers: u16,
    pub cooldown_until_ns: Option<u64>,
}

impl TransferThrottleState {
    /// Decides a transfer attempt at `now`, and gives the state the token has afterwards.
    pub fn check(self, now: u64) -> (r: (Result<(), TransferThrottleError>, TransferThrottleState))
        ensures
            r.0 == check_outcome(self, now),
            r.1 == check_next(self, now),
    {
        if self.cooldown_until_ns > now {
            return (Err(TransferThrottleError::Cooldown { retry_after_ns: self.cooldown_until_ns }), self);
        }
        let mut state = self;
        if state.cooldown_until_ns != 0 {
            state.successful_transfers = 0;
            state.cooldown_until_ns = 0;
        }
        if now.saturating_sub(state.burst_window_started_at_ns) >= BURST_WINDOW_NS {
            state.burst_window_started_at_ns = now;
            state.burst_calls = 0;
        }
        if state.burst_calls >= MAX_BURST_CALLS {
            return (
                Err(
                    TransferThrottleError::BurstLimit {
                        retry_after_ns: state.burst_window_started_at_ns.saturating_add(BURST_WINDOW_NS),
                    },
                ),
                self,
            );
        }
        state.burst_calls = state.burst_calls.saturating_add(1);
        (Ok(()), state)
    }

    /// The state after a successful transfer at `now`.
    pub fn record(self, now: u64) -> (r: TransferThrottleState)
        ensures
            r == record_next(self, now),
    {
        let mut state = self;
        if state.cooldown_until_ns != 0 && state.cooldown_until_ns <= now {
            state.successful_transfers = 0;
            state.cooldown_until_ns = 0;
        }
        state.successful_transfers = state.successful_transfers.saturating_add(1);
        if state.successful_transfers >= MAX_SUCCESSFUL_TRANSFERS {
            state.cooldown_until_ns = now.saturating_add(COOLDOWN_NS);
        }
        state
    }

    /// The status of a token in this state at `now`.
    pub fn status(self, now: u64) -> (r: TransferThrottleStatus)
        ensures
            r == status_of(self, now),
    {
        TransferThrottleStatus {
            successful_transfers: if self.cooldown_until_ns > now {
                self.successful_transfers
            } else {
                0
            },
            cooldown_until_ns: if self.cooldown_until_ns > now {
                Some(self.cooldown_until_ns)
            } else {
                None
            },
        }
    }

    /// The stored record: the four fields big-endian, in declaration order.
    pub fn into_bytes(self) -> (b: Vec<u8>)
        ensures
            b@ == throttle_record(self),
    {
        let mut bytes: Vec<u8> = Vec::with_capacity(THROTTLE_STATE_LEN);
        bytes.push((self.successful_transfers >> 8u16) as u8);
        bytes.push(self.successful_transfers as u8);
        push_u64_be(&mut bytes, self.cooldown_until_ns);
        push_u64_be(&mut bytes, self.burst_window_started_at_ns);
        bytes.push(self.burst_calls);
        assert(bytes@ =~= throttle_record(self));
        bytes
    }

    /// Reads a stored record back.
    pub fn from_bytes(bytes: &[u8]) -> (s: TransferThrottleState)
        requires
            bytes@.len() == THROTTLE_STATE_LEN,
        ensures
            s == throttle_from_record(bytes@),
    {
        TransferThrottleState {
            successful_transfers: ((bytes[0] as u16) << 8u16) | (bytes[1] as u16),
            cooldown_until_ns: get_u64_be(bytes, 2),
            burst_window_started_at_ns: get_u64_be(bytes, 10),
            burst_calls: bytes[18],
        }
    }
}

/// The stored record of a state.
pub open spec fn throttle_record(s: TransferThrottleState) -> Seq<u8> {
    u16_be(s.successful_transfers) + u64_be(s.cooldown_until_ns) + u64_be(
        s.burst_window_started_at_ns,
    ) + seq![s.burst_calls]
}

/// The state a record of the right length stands for.
pub open spec fn throttle_from_record(b: Seq<u8>) -> TransferThrottleState {
    TransferThrottleState {
        successful_transfers: be_u16(b[0], b[1]),
        cooldown_until_ns: read_u64_be(b, 2),
        burst_window_started_at_ns: read_u64_be(b, 10),
        burst_calls: b[18],
    }
}

/// Reading a state back from its record gives the same state.
pub proof fn lemma_throttle_record_roundtrip(s: TransferThrottleState)
    ensures
        throttle_record(s).len() == THROTTLE_STATE_LEN,
        throttle_from_record(throttle_record(s)) == s,
{
    let b = throttle_record(s);
    lemma_u16_be_roundtrip(s.successful_transfers);
    lemma_u64_be_roundtrip(s.cooldown_until_ns);
    lemma_u64_be_roundtrip(s.burst_window_started_at_ns);
    assert(b.subrange(2, 10) =~= u64_be(s.cooldown_until_ns));
    assert(b.subrange(10, 18) =~= u64_be(s.burst_window_started_at_ns));
    assert(read_u64_be(b, 2) == read_u64_be(u64_be(s.cooldown_until_ns), 0));
    assert(read_u64_be(b, 10) == read_u64_be(u64_be(s.burst_window_started_at_ns), 0));
}

/// Writing back the state read from a record gives the same record.
pub proof fn lemma_throttle_from_record_roundtrip(b: Seq<u8>)
    requires
        b.len() == THROTTLE_STATE_LEN,
    ensures
        throttle_record(throttle_from_record(b)) == b,
{
    lemma_bytes_u16_be_roundtrip(b[0], b[1]);
    lemma_bytes_u64_be_roundtrip(b[2], b[3], b[4], b[5], b[6], b[7], b[8], b[9]);
    lemma_bytes_u64_be_roundtrip(b[10], b[11], b[12], b[13], b[14], b[15], b[16], b[17]);
    assert(throttle_record(throttle_from_record(b)) =~= b);
}

/// Every record of the map is a stored throttle state.
pub open spec fn throttle_records_wf(m: Map<u64, Seq<u8>>) -> bool {
    forall|k: u64| #[trigger] m.contains_key(k) ==> m[k].len() == THROTTLE_STATE_LEN
}

/// The state of token `token_id` as the map holds it.
pub open spec fn stored_state(m: Map<u64, Seq<u8>>, token_id: u64) -> TransferThrottleState {
    if m.contains_key(token_id) {
        throttle_from_record(m[token_id])
    } else {
        initial_throttle_state()
    }
}

fn load_state(throttles: &RecordMap, token_id: u64) -> (s: TransferThrottleState)
    requires
        throttle_records_wf(records(*throttles)),
    ensures
        s == stored_state(records(*throttles), token_id),
{
    match record_map_get(throttles, token_id) {
        Some(bytes) => TransferThrottleState::from_bytes(bytes.as_slice()),
        None => TransferThrottleState::default(),
    }
}

/// Whether every record of the map is a stored throttle state, as the other functions
/// of this module require.
pub fn throttle_records_valid(throttles: &RecordMap) -> (r: bool)
    ensures
        r == throttle_records_wf(records(*throttles)),
{
    let entries = record_map_entries(throttles);
    let mut i: usize = 0;
    while i < entries.len()
        invariant
            i <= entries@.len(),
            forall|j: int| 0 <= j < i ==> (#[trigger] entries@[j]).1@.len() == THROTTLE_STATE_LEN,
            forall|j: int| 0 <= j < entries@.len() ==> records(*throttles).contains_key(#[trigger] entries@[j].0)
                && records(*throttles)[entries@[j].0] == entries@[j].1@,
            forall|k: u64| records(*throttles).contains_key(k) ==> exists|j: int| 0 <= j < entries@.len() && #[trigger] entries@[j].0 == k,
        decreases entries@.len() - i,
    {
        if entries[i].1.len() != THROTTLE_STATE_LEN {
            proof {
                let k = entries@[i as int].0;
                assert(records(*throttles).contains_key(k));
                assert(records(*throttles)[k].len() != THROTTLE_STATE_LEN);
            }
            return false;
        }
        i = i + 1;
    }
    proof {
        assert forall|k: u64| #[trigger] records(*throttles).contains_key(k) implies records(*throttles)[k].len()
            == THROTTLE_STATE_LEN by {
            let j = choose|j: int| 0 <= j < entries@.len() && #[trigger] entries@[j].0 == k;
            assert(entries@[j].1@.len() == THROTTLE_STATE_LEN);
        }
    }
    true
}

/// Decides a transfer attempt on `token_id` at `now`. Called only after the request has passed
/// the ownership and recipient checks, so that outsiders cannot allocate state for a token.
/// An allowed attempt counts toward the burst limit; a refused one changes nothing.
pub fn check_transfer_allowed(throttles: &mut RecordMap, token_id: u64, now: u64) -> (r: Result<(), TransferThrottleError>)
    requires
        throttle_records_wf(records(*old(throttles))),
    ensures
        r == check_outcome(stored_state(records(*old(throttles)), token_id), now),
        records(*final(throttles)) == (if r is Ok {
            records(*old(throttles)).insert(
                token_id,
                throttle_record(check_next(stored_state(records(*old(throttles)), token_id), now)),
            )
        } else {
            records(*old(throttles))
        }),
        throttle_records_wf(records(*final(throttles))),
{
    let state = load_state(throttles, token_id);
    let (outcome, next) = state.check(now);
    if outcome.is_ok() {
        let bytes = next.into_bytes();
        proof {
            lemma_throttle_record_roundtrip(next);
        }
        record_map_insert(throttles, token_id, bytes);
    }
    outcome
}

/// Counts a successful transfer of `token_id` at `now`, starting the cooldown when it is the
/// last one allowed. Called only once the transfer is logged and the owner has changed.
pub fn record_successful_transfer(throttles: &mut RecordMap, token_id: u64, now: u64)
    requires
        throttle_records_wf(records(*old(throttles))),
    ensures
        records(*final(throttles)) == records(*old(throttles)).insert(
            token_id,
            throttle_record(record_next(stored_state(records(*old(throttles)), token_id), now)),
        ),
        throttle_records_wf(records(*final(throttles))),
{
    let state = load_state(throttles, token_id);
    let next = state.record(now);
    let bytes = next.into_bytes();
    proof {
        lemma_throttle_record_roundtrip(next);
    }
    record_map_insert(throttles, token_id, bytes);
}

/// The throttle status of `token_id` at `now`.
pub fn status(throttles: &RecordMap, token_id: u64, now: u64) -> (r: TransferThrottleStatus)
    requires
        throttle_records_wf(records(*throttles)),
    ensures
        r == status_of(stored_state(records(*throttles), token_id), now),
{
    load_state(throttles, token_id).status(now)
}

/// The state after successful transfers at each of `times`, in order.
pub open spec fn record_all(s: TransferThrottleState, times: Seq<u64>) -> TransferThrottleState
    decreases times.len(),
{
    if times.len() == 0 {
        s
    } else {
        record_next(record_all(s, times.drop_last()), times.last())
    }
}

/// How many of `n` attempts made one after another at the same instant `now` are allowed.
pub open spec fn allowed_attempts(s: TransferThrottleState, now: u64, n: nat) -> nat
    decreases n,
{
    if n == 0 {
        0
    } else {
        (if check_outcome(s, now) is Ok { 1nat } else { 0nat }) + allowed_attempts(check_next(s, now), now, (n - 1) as nat)
    }
}

/// While a cooldown runs, every attempt is refused, names the end of the cooldown as the time
/// to retry, and leaves the state as it was.
pub proof fn law_cooldown_refuses_transfers(s: TransferThrottleState, now: u64)
    requires
        s.cooldown_until_ns > now,
    ensures
        check_outcome(s, now) == Err::<(), TransferThrottleError>(TransferThrottleError::Cooldown { retry_after_ns: s.cooldown_until_ns }),
        check_next(s, now) == s,
        status_of(s, now) == (TransferThrottleStatus {
            successful_transfers: s.successful_transfers,
            cooldown_until_ns: Some(s.cooldown_until_ns),
        }),
{
}

/// A successful transfer that brings the count to the limit starts a cooldown of
/// `COOLDOWN_NS` from the time of that transfer.
pub proof fn law_limit_starts_cooldown(s: TransferThrottleState, now: u64)
    ensures
        record_next(s, now).successful_transfers >= MAX_SUCCESSFUL_TRANSFERS ==> record_next(s, now).cooldown_until_ns
            == sat_add_u64(now, COOLDOWN_NS),
        record_next(s, now).successful_transfers < MAX_SUCCESSFUL_TRANSFERS ==> record_next(s, now).cooldown_until_ns
            == (if s.cooldown_until_ns != 0 && s.cooldown_until_ns <= now { 0 } else { s.cooldown_until_ns }),
{
}

/// From a token with no count and no cooldown, the first `k < MAX_SUCCESSFUL_TRANSFERS`
/// successful transfers are counted without starting a cooldown.
pub proof fn law_transfers_below_limit_are_counted(s: TransferThrottleState, times: Seq<u64>)
    requires
        s.successful_transfers == 0,
        s.cooldown_until_ns == 0,
        times.len() < MAX_SUCCESSFUL_TRANSFERS,
    ensures
        record_all(s, times).successful_transfers == times.len(),
        record_all(s, times).cooldown_until_ns == 0,
    decreases times.len(),
{
    if times.len() > 0 {
        law_transfers_below_limit_are_counted(s, times.drop_last());
    }
}

/// From a token with no count and no cooldown, `MAX_SUCCESSFUL_TRANSFERS` successful transfers
/// start a cooldown that runs `COOLDOWN_NS` from the last of them.
pub proof fn law_limit_of_transfers_starts_cooldown(s: TransferThrottleState, times: Seq<u64>)
    requires
        s.successful_transfers == 0,
        s.cooldown_until_ns == 0,
        times.len() == MAX_SUCCESSFUL_TRANSFERS,
    ensures
        record_all(s, times).successful_transfers == MAX_SUCCESSFUL_TRANSFERS,
        record_all(s, times).cooldown_until_ns == sat_add_u64(times.last(), COOLDOWN_NS),
{
    law_transfers_below_limit_are_counted(s, times.drop_last());
}

/// Once a cooldown has run out, the status reports no count and no cooldown, and an allowed
/// attempt clears both from the state.
pub proof fn law_expired_cooldown_resets(s: TransferThrottleState, now: u64)
    requires
        0 < s.cooldown_until_ns <= now,
    ensures
        status_of(s, now) == (TransferThrottleStatus { successful_transfers: 0, cooldown_until_ns: None }),
        check_outcome(s, now) is Ok ==> check_next(s, now).successful_transfers == 0
            && check_next(s, now).cooldown_until_ns == 0,
{
}

proof fn lemma_attempts_in_open_window(t: TransferThrottleState, now: u64, n: nat)
    requires
        t.cooldown_until_ns == 0,
        sat_sub_u64(now, t.burst_window_started_at_ns) < BURST_WINDOW_NS,
    ensures
        allowed_attempts(t, now, n) + t.burst_calls <= (if t.burst_calls >= MAX_BURST_CALLS { t.burst_calls as int } else { MAX_BURST_CALLS as int }),
    decreases n,
{
    if n > 0 {
        lemma_attempts_in_open_window(check_next(t, now), now, (n - 1) as nat);
    }
}

/// At one instant, at most `MAX_BURST_CALLS` transfer attempts on a token are allowed,
/// whatever its state.
pub proof fn law_burst_limit(s: TransferThrottleState, now: u64, n: nat)
    ensures
        allowed_attempts(s, now, n) <= MAX_BURST_CALLS,
    decreases n,
{
    if n > 0 {
        if check_outcome(s, now) is Ok {
            lemma_attempts_in_open_window(check_next(s, now), now, (n - 1) as nat);
        } else {
            law_burst_limit(s, now, (n - 1) as nat);
        }
    }
}

} // verus!

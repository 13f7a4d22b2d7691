//! The notification outbox.
//!
//! One change is one notification, however often it is reported. Nothing is sent
//! from here: a row waits until a connector takes it.

use crate::backoff::{delay_within, doubled_delay, law_delays_grow_within_bounds};
use crate::columns::{to_u64_or_zero, or_zero, to_unsigned, unsigned_fault};
use crate::error::{answers, fault, first, ErrorCode, Fault, StoreError};
use crate::journal::{check_fence, fence_fault, HostFence};
use crate::json::{is_json, json_is_valid};
use crate::text::{blank, is_blank, listed, opt_text, same_text};
use vstd::prelude::*;

verus! {

/// How many times one notification may be attempted before it is left failed.
pub const NOTIFICATION_MAX_ATTEMPTS: u64 = 5;

/// The first retry delay; each further attempt doubles it.
pub const NOTIFICATION_BACKOFF_MS: i64 = 5_000;

/// The longest retry delay.
pub const NOTIFICATION_MAX_BACKOFF_MS: i64 = 300_000;

/// The states that a notification may be in.
pub const NOTIFICATION_STATES: [&'static str; 4] = [
    "pending",
    "delivered",
    "failed",
    "canceled",
];

/// One notification.
#[derive(Clone, Debug, PartialEq, Eq)]
pub struct StoredNotification {
    pub notification_id: String,
    /// What the notification is about.
    pub subject_kind: String,
    pub subject_id: String,
    /// The digest of the change, which makes two reports of it one notification.
    pub change_digest: String,
    /// What kind of change it was.
    pub kind: String,
    pub payload_json: String,
    pub state: String,
    pub attempts: u64,
    pub next_attempt_unix_ms: i64,
    pub created_at_unix_ms: i64,
    pub updated_at_unix_ms: i64,
    pub delivered_at_unix_ms: Option<i64>,
    /// Why the row is in the state it is in.
    pub detail: Option<String>,
}

/// The states in which nothing more is expected of a notification.
pub open spec fn is_final_state(state: Seq<char>) -> bool {
    state == "delivered"@ || state == "failed"@ || state == "canceled"@
}

/// A state that a notification may be in.
pub open spec fn is_notification_state(state: Seq<char>) -> bool {
    state == "pending"@ || is_final_state(state)
}

/// A notification can be in the listed states and in no other.
pub proof fn law_notification_states_are_listed(state: Seq<char>)
    ensures
        is_notification_state(state) <==> listed(NOTIFICATION_STATES@, state),
{
    assert(NOTIFICATION_STATES@[0]@ == "pending"@);
    assert(NOTIFICATION_STATES@[1]@ == "delivered"@);
    assert(NOTIFICATION_STATES@[2]@ == "failed"@);
    assert(NOTIFICATION_STATES@[3]@ == "canceled"@);
}

/// The states in which a notification may still be attempted.
pub open spec fn is_open_state(state: Seq<char>) -> bool {
    state == "pending"@ || state == "failed"@
}

impl StoredNotification {
    #[must_use]
    pub fn is_terminal(&self) -> (terminal: bool)
        ensures
            terminal == is_final_state(self.state@),
    {
        same_text(self.state.as_str(), "delivered") || same_text(self.state.as_str(), "failed")
            || same_text(self.state.as_str(), "canceled")
    }
}

/// How many notifications are in each state.
#[derive(Clone, Copy, Debug, PartialEq, Eq)]
pub struct OutboxCounts {
    pub pending: u64,
    pub delivered: u64,
    pub failed: u64,
    pub canceled: u64,
}

impl Default for OutboxCounts {
    fn default() -> (counts: Self)
        ensures
            counts == (OutboxCounts { pending: 0, delivered: 0, failed: 0, canceled: 0 }),
    {
        OutboxCounts { pending: 0, delivered: 0, failed: 0, canceled: 0 }
    }
}

// ---------------------------------------------------------------------------
// Enqueueing

/// Why a notification is malformed.
pub open spec fn notification_shape_fault(notification: StoredNotification) -> Option<Fault> {
    if blank(notification.notification_id@) || blank(notification.subject_kind@) || blank(
        notification.subject_id@,
    ) || blank(notification.kind@) {
        fault(ErrorCode::InvalidPayload, "a notification needs an id, a subject and a kind"@)
    } else if blank(notification.change_digest@) {
        fault(
            ErrorCode::InvalidPayload,
            "a notification records the digest of the change it reports"@,
        )
    } else if !is_json(notification.payload_json@) {
        fault(ErrorCode::InvalidPayload, "a notification payload must be JSON"@)
    } else {
        None
    }
}

/// Refuses a malformed notification.
pub fn validate_notification(notification: &StoredNotification) -> (result: Result<(), StoreError>)
    ensures
        answers(result, notification_shape_fault(*notification)),
{
    let invalid: ErrorCode = ErrorCode::InvalidPayload;
    if is_blank(notification.notification_id.as_str()) || is_blank(
        notification.subject_kind.as_str(),
    ) || is_blank(notification.subject_id.as_str()) || is_blank(notification.kind.as_str()) {
        return Err(StoreError::new(invalid, "a notification needs an id, a subject and a kind"));
    }
    if is_blank(notification.change_digest.as_str()) {
        return Err(
            StoreError::new(invalid, "a notification records the digest of the change it reports"),
        );
    }
    if !json_is_valid(notification.payload_json.as_str()) {
        return Err(StoreError::new(invalid, "a notification payload must be JSON"));
    }
    Ok(())
}

/// Two notifications report one change.
pub open spec fn same_change(a: StoredNotification, b: StoredNotification) -> bool {
    &&& a.subject_kind@ == b.subject_kind@
    &&& a.subject_id@ == b.subject_id@
    &&& a.change_digest@ == b.change_digest@
}

/// The id of a notification stands for another change in the queue.
pub open spec fn is_misused(
    queue: Seq<StoredNotification>,
    notification: StoredNotification,
) -> bool {
    exists|i: int|
        0 <= i < queue.len() && (#[trigger] queue[i]).notification_id@
            == notification.notification_id@ && queue[i].change_digest@
            != notification.change_digest@
}

/// A notification is in the queue: its id is, or its change is under any id.
pub open spec fn is_queued(
    queue: Seq<StoredNotification>,
    notification: StoredNotification,
) -> bool {
    exists|i: int|
        0 <= i < queue.len() && ((#[trigger] queue[i]).notification_id@
            == notification.notification_id@ || same_change(queue[i], notification))
}

/// Why a notification is not enqueued.
pub open spec fn enqueue_fault(
    notification: StoredNotification,
    fence: HostFence,
    held: Option<i64>,
    queue: Seq<StoredNotification>,
) -> Option<Fault> {
    first(
        notification_shape_fault(notification),
        first(
            fence_fault(held, fence),
            if is_misused(queue, notification) {
                fault(
                    ErrorCode::IdempotencyConflict,
                    "the same notification id cannot carry a different change"@,
                )
            } else {
                None
            },
        ),
    )
}

/// A notification as it is first written: pending, and never attempted.
pub open spec fn enqueued_as(notification: StoredNotification, stored: StoredNotification) -> bool {
    &&& stored == (StoredNotification {
        state: stored.state,
        attempts: 0,
        updated_at_unix_ms: notification.created_at_unix_ms,
        delivered_at_unix_ms: None,
        detail: None,
        ..notification
    })
    &&& stored.state@ == "pending"@
}

/// Enqueues a notification, unless the queue holds its id or its change already. A
/// duplicate is no error, and nothing is written.
pub fn enqueue_notification(
    notification: StoredNotification,
    fence: &HostFence,
    held: Option<i64>,
    queue: &Vec<StoredNotification>,
) -> (result: Result<Option<StoredNotification>, StoreError>)
    ensures
        answers(result, enqueue_fault(notification, *fence, held, queue@)),
        result is Ok ==> (result->Ok_0 is Some <==> !is_queued(queue@, notification)),
        result is Ok && result->Ok_0 is Some ==> enqueued_as(notification, result->Ok_0->Some_0),
{
    validate_notification(&notification)?;
    check_fence(held, fence)?;
    let mut queued: bool = false;
    let mut i: usize = 0;
    while i < queue.len()
        invariant
            i <= queue.len(),
            queued == is_queued(queue@.take(i as int), notification),
            !is_misused(queue@.take(i as int), notification),
            notification_shape_fault(notification) is None,
            fence_fault(held, *fence) is None,
        decreases queue.len() - i,
    {
        let ghost before = queue@.take(i as int);
        let ghost after = queue@.take(i + 1);
        assert(after =~= before.push(queue@[i as int]));
        proof {
            assert forall|k: int| 0 <= k < before.len() implies #[trigger] after[k] == before[k] by {}
        }
        let other: &StoredNotification = &queue[i];
        assert(after[i as int] == *other);
        let same_id: bool = same_text(
            other.notification_id.as_str(),
            notification.notification_id.as_str(),
        );
        let same_digest: bool = same_text(
            other.change_digest.as_str(),
            notification.change_digest.as_str(),
        );
        if same_id && !same_digest {
            assert(is_misused(queue@, notification));
            return Err(
                StoreError::new(
                    ErrorCode::IdempotencyConflict,
                    "the same notification id cannot carry a different change",
                ),
            );
        }
        let found: bool = same_id || (same_digest && same_text(
            other.subject_kind.as_str(),
            notification.subject_kind.as_str(),
        ) && same_text(other.subject_id.as_str(), notification.subject_id.as_str()));
        proof {
            if is_queued(before, notification) {
                let k = choose|k: int|
                    0 <= k < before.len() && ((#[trigger] before[k]).notification_id@
                        == notification.notification_id@ || same_change(before[k], notification));
                assert(after[k] == before[k]);
            }
            if is_queued(after, notification) && !found {
                let k = choose|k: int|
                    0 <= k < after.len() && ((#[trigger] after[k]).notification_id@
                        == notification.notification_id@ || same_change(after[k], notification));
                assert(before[k] == after[k]);
            }
            if is_misused(after, notification) {
                let k = choose|k: int|
                    0 <= k < after.len() && (#[trigger] after[k]).notification_id@
                        == notification.notification_id@ && after[k].change_digest@
                        != notification.change_digest@;
                assert(before[k] == after[k]);
            }
        }
        queued = queued || found;
        i += 1;
    }
    assert(queue@.take(i as int) =~= queue@);
    if queued {
        return Ok(None);
    }
    let created: i64 = notification.created_at_unix_ms;
    let mut stored: StoredNotification = notification;
    stored.state = "pending".to_owned();
    stored.attempts = 0;
    stored.updated_at_unix_ms = created;
    stored.delivered_at_unix_ms = None;
    stored.detail = None;
    Ok(Some(stored))
}

/// A notification with an id, a subject, a kind, a digest and a JSON payload is queued, unless
/// its id is there with another change, which is refused, or it or its change is there. It
/// starts pending, without an attempt, and is due when it says.
pub proof fn law_complete_notification_is_queued(
    notification: StoredNotification,
    fence: HostFence,
    held: Option<i64>,
    queue: Seq<StoredNotification>,
    stored: StoredNotification,
)
    ensures
        enqueue_fault(notification, fence, held, queue) is None <==> {
            &&& !blank(notification.notification_id@)
            &&& !blank(notification.subject_kind@)
            &&& !blank(notification.subject_id@)
            &&& !blank(notification.kind@)
            &&& !blank(notification.change_digest@)
            &&& is_json(notification.payload_json@)
            &&& held is Some
            &&& held->Some_0 == fence.generation as int
            &&& forall|i: int|
                0 <= i < queue.len() ==> (#[trigger] queue[i]).notification_id@
                    != notification.notification_id@ || queue[i].change_digest@
                    == notification.change_digest@
        },
        !is_queued(queue, notification) <==> forall|i: int|
            0 <= i < queue.len() ==> {
                &&& (#[trigger] queue[i]).notification_id@ != notification.notification_id@
                &&& queue[i].subject_kind@ != notification.subject_kind@ || queue[i].subject_id@
                    != notification.subject_id@ || queue[i].change_digest@
                    != notification.change_digest@
            },
        enqueued_as(notification, stored) ==> {
            &&& stored.state@ == "pending"@
            &&& stored.attempts == 0
            &&& stored.delivered_at_unix_ms is None
            &&& stored.detail is None
            &&& stored.next_attempt_unix_ms == notification.next_attempt_unix_ms
            &&& stored.created_at_unix_ms == notification.created_at_unix_ms
            &&& stored.updated_at_unix_ms == notification.created_at_unix_ms
            &&& stored.notification_id == notification.notification_id
            &&& stored.subject_kind == notification.subject_kind
            &&& stored.subject_id == notification.subject_id
            &&& stored.change_digest == notification.change_digest
            &&& stored.kind == notification.kind
            &&& stored.payload_json == notification.payload_json
        },
        enqueued_as(notification, stored) ==> forall|now_unix_ms: i64| #[trigger]
            is_due(stored, now_unix_ms) <==> notification.next_attempt_unix_ms <= now_unix_ms,
{
}

/// One change is one notification: once it is in the queue, in whatever state it is
/// by then, its change is not queued again under any id, and its id cannot be used
/// for another change.
pub proof fn law_change_is_queued_once(
    queue: Seq<StoredNotification>,
    stored: StoredNotification,
    again: StoredNotification,
    other: StoredNotification,
    fence: HostFence,
    held: Option<i64>,
)
    requires
        same_change(stored, again),
        other.notification_id@ == stored.notification_id@,
        other.change_digest@ != stored.change_digest@,
        notification_shape_fault(other) is None,
        fence_fault(held, fence) is None,
    ensures
        is_queued(queue.push(stored), again),
        enqueue_fault(other, fence, held, queue.push(stored)) == fault(
            ErrorCode::IdempotencyConflict,
            "the same notification id cannot carry a different change"@,
        ),
{
    assert(queue.push(stored)[queue.len() as int] == stored);
    assert(is_misused(queue.push(stored), other));
}

// ---------------------------------------------------------------------------
// Attempts

/// The state that an attempt leaves, counted as the last of some attempts. A
/// notification that was attempted as often as one may be is left failed instead
/// of waiting for another attempt.
pub open spec fn state_after_attempt(state: Seq<char>, attempts: int) -> Seq<char> {
    if state == "pending"@ && attempts >= NOTIFICATION_MAX_ATTEMPTS {
        "failed"@
    } else {
        state
    }
}

/// A notification after an attempt that was reported with a state.
pub open spec fn attempted_as(
    before: StoredNotification,
    after: StoredNotification,
    state: Seq<char>,
    detail: Seq<char>,
    next_attempt_unix_ms: Option<i64>,
    at_unix_ms: i64,
) -> bool {
    &&& after == (StoredNotification {
        state: after.state,
        attempts: (before.attempts + 1) as u64,
        detail: after.detail,
        next_attempt_unix_ms: match next_attempt_unix_ms {
            Some(next) => next,
            None => before.next_attempt_unix_ms,
        },
        updated_at_unix_ms: at_unix_ms,
        delivered_at_unix_ms: if state == "delivered"@ {
            Some(at_unix_ms)
        } else {
            before.delivered_at_unix_ms
        },
        ..before
    })
    &&& after.state@ == state_after_attempt(state, before.attempts + 1)
    &&& opt_text(after.detail) == Some(detail)
}

/// Refuses a state that an attempt cannot leave.
pub fn check_attempt_state(state: &str) -> (result: Result<(), StoreError>)
    ensures
        answers(
            result,
            if is_notification_state(state@) {
                None
            } else {
                fault(ErrorCode::InvalidPayload, "invalid notification state"@)
            },
        ),
{
    if same_text(state, "pending") || same_text(state, "delivered") || same_text(state, "failed")
        || same_text(state, "canceled") {
        Ok(())
    } else {
        Err(StoreError::new(ErrorCode::InvalidPayload, "invalid notification state"))
    }
}

/// Why an attempt is not recorded.
pub open spec fn attempt_fault(
    state: Seq<char>,
    fence: HostFence,
    held: Option<i64>,
) -> Option<Fault> {
    if is_notification_state(state) {
        fence_fault(held, fence)
    } else {
        fault(ErrorCode::InvalidPayload, "invalid notification state"@)
    }
}

/// Records one attempt. A notification that was delivered or canceled is left as
/// it is, and the answer says so. One that would wait for another attempt after
/// its last one is left failed.
pub fn record_notification_attempt(
    notification: StoredNotification,
    state: &str,
    detail: &str,
    next_attempt_unix_ms: Option<i64>,
    at_unix_ms: i64,
    fence: &HostFence,
    held: Option<i64>,
) -> (result: Result<(StoredNotification, bool), StoreError>)
    requires
        notification.attempts < i64::MAX,
    ensures
        answers(result, attempt_fault(state@, *fence, held)),
        result is Ok ==> result->Ok_0.1 == is_open_state(notification.state@),
        result is Ok && !result->Ok_0.1 ==> result->Ok_0.0 == notification,
        result is Ok && result->Ok_0.1 ==> attempted_as(
            notification,
            result->Ok_0.0,
            state@,
            detail@,
            next_attempt_unix_ms,
            at_unix_ms,
        ),
{
    check_attempt_state(state)?;
    check_fence(held, fence)?;
    if !same_text(notification.state.as_str(), "pending") && !same_text(
        notification.state.as_str(),
        "failed",
    ) {
        return Ok((notification, false));
    }
    let mut after: StoredNotification = notification;
    after.attempts = after.attempts + 1;
    after.state = if same_text(state, "pending") && after.attempts >= NOTIFICATION_MAX_ATTEMPTS {
        "failed".to_owned()
    } else {
        state.to_owned()
    };
    after.detail = Some(detail.to_owned());
    match next_attempt_unix_ms {
        Some(next) => {
            after.next_attempt_unix_ms = next;
        },
        None => {},
    }
    after.updated_at_unix_ms = at_unix_ms;
    if same_text(state, "delivered") {
        after.delivered_at_unix_ms = Some(at_unix_ms);
    }
    Ok((after, true))
}

/// A notification that is pending or has failed takes an attempt, in each of the four states.
/// A pending one fails with its fifth attempt and not before, any other state stands, and
/// only a delivery has a time of delivery.
pub proof fn law_fifth_attempt_is_the_last(
    before: StoredNotification,
    after: StoredNotification,
    state: Seq<char>,
    detail: Seq<char>,
    next_attempt_unix_ms: Option<i64>,
    at_unix_ms: i64,
    fence: HostFence,
    held: Option<i64>,
)
    requires
        before.attempts < i64::MAX,
    ensures
        attempt_fault(state, fence, held) is None <==> {
            &&& state == "pending"@ || state == "delivered"@ || state == "failed"@ || state
                == "canceled"@
            &&& held is Some
            &&& held->Some_0 == fence.generation as int
        },
        is_open_state(before.state@) <==> before.state@ == "pending"@ || before.state@
            == "failed"@,
        attempted_as(before, after, state, detail, next_attempt_unix_ms, at_unix_ms) ==> {
            &&& after.attempts == before.attempts + 1
            &&& after.updated_at_unix_ms == at_unix_ms
            &&& after.detail is Some
            &&& after.detail->Some_0@ == detail
            &&& state == "pending"@ && after.attempts < 5 ==> after.state@ == "pending"@
            &&& state == "pending"@ && after.attempts >= 5 ==> after.state@ == "failed"@
            &&& state != "pending"@ ==> after.state@ == state
            &&& state == "delivered"@ ==> after.delivered_at_unix_ms == Some(at_unix_ms)
            &&& state != "delivered"@ ==> after.delivered_at_unix_ms
                == before.delivered_at_unix_ms
            &&& next_attempt_unix_ms is Some ==> after.next_attempt_unix_ms
                == next_attempt_unix_ms->Some_0
            &&& next_attempt_unix_ms is None ==> after.next_attempt_unix_ms
                == before.next_attempt_unix_ms
            &&& after.notification_id == before.notification_id
            &&& after.change_digest == before.change_digest
            &&& after.payload_json == before.payload_json
            &&& after.created_at_unix_ms == before.created_at_unix_ms
        },
{
}

/// The wait before another attempt is five seconds, doubled with each one that failed, and
/// five minutes from the sixth on.
pub proof fn law_backoff_doubles_from_five_seconds(attempts: nat)
    ensures
        backoff(0) == 5000,
        attempts < 5 ==> backoff(attempts + 1) == 2 * backoff(attempts),
        attempts >= 6 ==> backoff(attempts) == 300000,
{
    reveal_with_fuel(crate::backoff::doubled, 8);
    assert(crate::backoff::doubled(6) == 64);
    if attempts >= 6 {
        law_backoff_grows_within_bounds(6, attempts);
    }
}

/// The outbox counts, for each state, the last total that is listed for it.
pub proof fn law_outbox_counts_each_state(totals: Seq<(String, i64)>, at: int)
    requires
        0 <= at < totals.len(),
        0 <= totals[at].1,
        forall|k: int| at < k < totals.len() ==> (#[trigger] totals[k]).0@ != totals[at].0@,
    ensures
        counted(totals, totals[at].0@) == totals[at].1,
    decreases totals.len(),
{
    if at < totals.len() - 1 {
        assert(totals[totals.len() - 1].0@ != totals[at].0@);
        law_outbox_counts_each_state(totals.drop_last(), at);
        assert(totals.drop_last()[at] == totals[at]);
    }
}

/// A notification after it was canceled, with the reason.
pub open spec fn canceled_as(
    before: StoredNotification,
    after: StoredNotification,
    reason: Seq<char>,
    at_unix_ms: i64,
) -> bool {
    &&& after == (StoredNotification {
        state: after.state,
        detail: after.detail,
        updated_at_unix_ms: at_unix_ms,
        ..before
    })
    &&& after.state@ == "canceled"@
    &&& opt_text(after.detail) == Some(reason)
}

/// Stops trying to deliver a notification, saying why.
pub fn cancel_notification(
    notification: StoredNotification,
    reason: &str,
    at_unix_ms: i64,
    fence: &HostFence,
    held: Option<i64>,
) -> (result: Result<(StoredNotification, bool), StoreError>)
    ensures
        answers(result, fence_fault(held, *fence)),
        result is Ok ==> result->Ok_0.1 == is_open_state(notification.state@),
        result is Ok && !result->Ok_0.1 ==> result->Ok_0.0 == notification,
        result is Ok && result->Ok_0.1 ==> canceled_as(
            notification,
            result->Ok_0.0,
            reason@,
            at_unix_ms,
        ),
{
    check_fence(held, fence)?;
    if !same_text(notification.state.as_str(), "pending") && !same_text(
        notification.state.as_str(),
        "failed",
    ) {
        return Ok((notification, false));
    }
    let mut after: StoredNotification = notification;
    after.state = "canceled".to_owned();
    after.detail = Some(reason.to_owned());
    after.updated_at_unix_ms = at_unix_ms;
    Ok((after, true))
}

/// A notification that was canceled says why, is never due again, and has no attempt more.
pub proof fn law_canceled_notification_is_not_sent(
    before: StoredNotification,
    after: StoredNotification,
    reason: Seq<char>,
    at_unix_ms: i64,
    now_unix_ms: i64,
)
    requires
        canceled_as(before, after, reason, at_unix_ms),
    ensures
        after.state@ == "canceled"@,
        after.detail is Some,
        after.detail->Some_0@ == reason,
        after.updated_at_unix_ms == at_unix_ms,
        after.attempts == before.attempts,
        after.delivered_at_unix_ms == before.delivered_at_unix_ms,
        after.notification_id == before.notification_id,
        !is_due(after, now_unix_ms),
        !is_open_state(after.state@),
{
    reveal_strlit("canceled");
    reveal_strlit("pending");
    reveal_strlit("failed");
    assert("canceled"@.len() == 8);
    assert("pending"@.len() == 7);
    assert("failed"@.len() == 6);
}

/// The states of a notification are different texts.
pub open spec fn states_differ() -> bool {
    &&& "pending"@ != "delivered"@
    &&& "pending"@ != "failed"@
    &&& "pending"@ != "canceled"@
    &&& "delivered"@ != "failed"@
    &&& "delivered"@ != "canceled"@
    &&& "failed"@ != "canceled"@
}

proof fn lemma_notification_states_differ()
    ensures
        states_differ(),
{
    reveal_strlit("pending");
    reveal_strlit("failed");
    reveal_strlit("delivered");
    reveal_strlit("canceled");
    assert("pending"@.len() == 7);
    assert("failed"@.len() == 6);
    assert("delivered"@.len() == 9);
    assert("canceled"@.len() == 8);
}

/// A notification that was delivered or canceled stays so: neither an attempt nor
/// a cancellation changes it.
pub proof fn law_delivered_or_canceled_is_final(state: Seq<char>)
    requires
        state == "delivered"@ || state == "canceled"@,
    ensures
        !is_open_state(state),
{
    lemma_notification_states_differ();
}

/// A notification waits for another attempt only while one is left.
pub open spec fn is_bounded(notification: StoredNotification) -> bool {
    notification.state@ == "pending"@ ==> notification.attempts < NOTIFICATION_MAX_ATTEMPTS
}

/// Retries are bounded: a notification starts with an attempt left, and after any
/// attempt it waits for another one only while one is left. One without any left
/// is not due at any instant.
pub proof fn law_retries_are_bounded(
    notification: StoredNotification,
    stored: StoredNotification,
    before: StoredNotification,
    after: StoredNotification,
    state: Seq<char>,
    detail: Seq<char>,
    next_attempt_unix_ms: Option<i64>,
    at_unix_ms: i64,
    now_unix_ms: i64,
)
    requires
        enqueued_as(notification, stored),
        attempted_as(before, after, state, detail, next_attempt_unix_ms, at_unix_ms),
    ensures
        is_bounded(stored),
        is_bounded(after),
        after.attempts >= NOTIFICATION_MAX_ATTEMPTS ==> !is_due(after, now_unix_ms),
{
    lemma_notification_states_differ();
}

/// A pending notification whose next attempt is due.
pub open spec fn is_due(notification: StoredNotification, now_unix_ms: i64) -> bool {
    notification.state@ == "pending"@ && notification.next_attempt_unix_ms <= now_unix_ms
}

/// Whether a notification is to be attempted now.
pub fn notification_is_due(notification: &StoredNotification, now_unix_ms: i64) -> (due: bool)
    ensures
        due == is_due(*notification, now_unix_ms),
{
    same_text(notification.state.as_str(), "pending") && notification.next_attempt_unix_ms
        <= now_unix_ms
}

// ---------------------------------------------------------------------------
// Counting

/// The number that a list of states and totals gives for a state: the last one,
/// with a negative one read as zero.
pub open spec fn counted(totals: Seq<(String, i64)>, state: Seq<char>) -> u64
    decreases totals.len(),
{
    if totals.len() == 0 {
        0
    } else if totals.last().0@ == state {
        or_zero(totals.last().1)
    } else {
        counted(totals.drop_last(), state)
    }
}

/// The counts that a list of states and totals gives.
pub fn outbox_counts(totals: &Vec<(String, i64)>) -> (counts: OutboxCounts)
    ensures
        counts.pending == counted(totals@, "pending"@),
        counts.delivered == counted(totals@, "delivered"@),
        counts.failed == counted(totals@, "failed"@),
        counts.canceled == counted(totals@, "canceled"@),
{
    let mut counts: OutboxCounts = OutboxCounts::default();
    let mut i: usize = 0;
    proof {
        lemma_notification_states_differ();
    }
    while i < totals.len()
        invariant
            i <= totals.len(),
            states_differ(),
            counts.pending == counted(totals@.take(i as int), "pending"@),
            counts.delivered == counted(totals@.take(i as int), "delivered"@),
            counts.failed == counted(totals@.take(i as int), "failed"@),
            counts.canceled == counted(totals@.take(i as int), "canceled"@),
        decreases totals.len() - i,
    {
        assert(totals@.take(i + 1).drop_last() =~= totals@.take(i as int));
        assert(totals@.take(i + 1).last() == totals@[i as int]);
        let total: u64 = to_u64_or_zero(totals[i].1);
        let state: &str = totals[i].0.as_str();
        if same_text(state, "pending") {
            counts.pending = total;
        } else if same_text(state, "delivered") {
            counts.delivered = total;
        } else if same_text(state, "failed") {
            counts.failed = total;
        } else if same_text(state, "canceled") {
            counts.canceled = total;
        }
        i += 1;
    }
    assert(totals@.take(i as int) =~= totals@);
    counts
}

// ---------------------------------------------------------------------------
// Backoff

/// The delay before a retry: the first delay, doubled once for each attempt, up
/// to the longest delay.
pub open spec fn backoff(attempts: nat) -> int {
    delay_within(NOTIFICATION_BACKOFF_MS as int, attempts, NOTIFICATION_MAX_BACKOFF_MS as int)
}

/// The delay before a retry, after a number of attempts.
#[must_use]
pub fn notification_backoff_ms(attempts: u64) -> (delay_ms: i64)
    ensures
        delay_ms == backoff(attempts as nat),
{
    doubled_delay(NOTIFICATION_BACKOFF_MS, attempts, NOTIFICATION_MAX_BACKOFF_MS)
}

/// Delays grow with the number of attempts and stay within their bounds.
pub proof fn law_backoff_grows_within_bounds(less: nat, more: nat)
    requires
        less <= more,
    ensures
        NOTIFICATION_BACKOFF_MS <= backoff(less) <= backoff(more) <= NOTIFICATION_MAX_BACKOFF_MS,
        backoff(0) == NOTIFICATION_BACKOFF_MS,
{
    law_delays_grow_within_bounds(
        NOTIFICATION_BACKOFF_MS as int,
        less,
        more,
        NOTIFICATION_MAX_BACKOFF_MS as int,
    );
}

/// Reads a notification back: everything but its attempt count is as the row
/// holds it.
pub fn decode_notification(notification: StoredNotification, attempts: i64) -> (result: Result<
    StoredNotification,
    StoreError,
>)
    ensures
        answers(
            result,
            unsigned_fault(attempts, ErrorCode::InvalidSequence, "stored attempts are negative"@),
        ),
        result is Ok ==> result->Ok_0 == (StoredNotification {
            attempts: attempts as u64,
            ..notification
        }),
{
    let attempts: u64 = to_unsigned(
        attempts,
        ErrorCode::InvalidSequence,
        "stored attempts are negative",
    )?;
    let mut decoded: StoredNotification = notification;
    decoded.attempts = attempts;
    Ok(decoded)
}

} // verus!

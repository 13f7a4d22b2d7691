//! Schedules, the occurrences they are claimed for, and the approvals that an
//! occurrence may wait for.
//!
//! Claiming an occurrence and advancing its schedule are one write, so a second
//! host that evaluates the same schedule finds the occurrence taken. An approval
//! is about one occurrence and is decided once.

use crate::columns::{i64_fault, to_i64, to_unsigned, unsigned_fault};
use crate::error::{answers, fault, first, ErrorCode, Fault, StoreError};
use crate::journal::{check_fence, fence_fault, HostFence};
use crate::seqs::places_of;
use crate::text::{blank, is_blank, listed, opt_text, same_text, texts};
use vstd::prelude::*;

verus! {

/// One stored schedule.
#[derive(Clone, Debug, PartialEq, Eq)]
pub struct StoredScheduleRecord {
    pub schedule_id: String,
    pub title: String,
    pub state: String,
    pub revision: u64,
    pub next_due_unix_ms: i64,
    pub spec_json: String,
    pub grants_json: String,
}

/// One stored occurrence.
#[derive(Clone, Debug, PartialEq, Eq)]
pub struct StoredOccurrenceRecord {
    pub occurrence_key: String,
    pub schedule_id: String,
    pub revision: u64,
    pub due_unix_ms: i64,
    pub claimed_at_unix_ms: i64,
    pub state: String,
    pub trigger_kind: String,
}

/// The states that a request for approval may be in.
pub const APPROVAL_STATES: [&'static str; 4] = ["open", "approved", "denied", "expired"];

/// One request for approval.
#[derive(Clone, Debug, PartialEq, Eq)]
pub struct StoredApproval {
    pub approval_id: String,
    /// The occurrence that the decision is about. It has one request.
    pub occurrence_key: String,
    pub schedule_id: String,
    /// The schedule revision that the approval was requested at.
    pub revision: u64,
    pub state: String,
    pub prompt: String,
    pub requested_at_unix_ms: i64,
    pub expires_at_unix_ms: i64,
    pub decided_at_unix_ms: Option<i64>,
    pub decided_by: Option<String>,
    pub reason: Option<String>,
}

impl StoredApproval {
    /// The request has not been decided and has not run out.
    pub open spec fn open(self) -> bool {
        self.state@ == "open"@
    }

    #[must_use]
    pub fn is_open(&self) -> (open: bool)
        ensures
            open == self.open(),
    {
        same_text(self.state.as_str(), "open")
    }
}

// ---------------------------------------------------------------------------
// Schedules

/// Why a schedule is malformed.
pub open spec fn schedule_shape_fault(record: StoredScheduleRecord) -> Option<Fault> {
    if blank(record.schedule_id@) || blank(record.title@) {
        fault(ErrorCode::InvalidPayload, "a schedule needs an id and a title"@)
    } else if record.revision == 0 {
        fault(ErrorCode::InvalidPayload, "a schedule revision starts at one"@)
    } else if blank(record.spec_json@) || blank(record.grants_json@) {
        fault(ErrorCode::InvalidPayload, "a schedule stores its specification and its grants"@)
    } else {
        None
    }
}

/// Refuses a malformed schedule.
pub fn validate_schedule(record: &StoredScheduleRecord) -> (result: Result<(), StoreError>)
    ensures
        answers(result, schedule_shape_fault(*record)),
{
    let invalid: ErrorCode = ErrorCode::InvalidPayload;
    if is_blank(record.schedule_id.as_str()) || is_blank(record.title.as_str()) {
        return Err(StoreError::new(invalid, "a schedule needs an id and a title"));
    }
    if record.revision == 0 {
        return Err(StoreError::new(invalid, "a schedule revision starts at one"));
    }
    if is_blank(record.spec_json.as_str()) || is_blank(record.grants_json.as_str()) {
        return Err(
            StoreError::new(invalid, "a schedule stores its specification and its grants"),
        );
    }
    Ok(())
}

/// Why a schedule is not created.
pub open spec fn create_schedule_fault(
    record: StoredScheduleRecord,
    fence: HostFence,
    held: Option<i64>,
    known: bool,
) -> Option<Fault> {
    first(
        schedule_shape_fault(record),
        first(
            fence_fault(held, fence),
            first(
                i64_fault(record.revision, "schedule revision"@),
                if known {
                    fault(
                        ErrorCode::DuplicateTaskId,
                        "a schedule with this id already exists"@,
                    )
                } else {
                    None
                },
            ),
        ),
    )
}

/// Refuses a schedule that is malformed or already there. Creating one again does
/// not merge the two.
pub fn create_schedule(
    record: &StoredScheduleRecord,
    fence: &HostFence,
    held: Option<i64>,
    known: bool,
) -> (result: Result<(), StoreError>)
    ensures
        answers(result, create_schedule_fault(*record, *fence, held, known)),
{
    validate_schedule(record)?;
    check_fence(held, fence)?;
    let revision: i64 = to_i64(record.revision, "schedule revision")?;
    if known {
        return Err(
            StoreError::new(ErrorCode::DuplicateTaskId, "a schedule with this id already exists"),
        );
    }
    Ok(())
}

/// A host that may write creates a schedule if and only if the schedule has an id, a title, a
/// specification and grants, a revision from one on, and its id is new.
pub proof fn law_complete_schedule_is_created(
    record: StoredScheduleRecord,
    fence: HostFence,
    held: Option<i64>,
    known: bool,
)
    ensures
        create_schedule_fault(record, fence, held, known) is None <==> {
            &&& !blank(record.schedule_id@)
            &&& !blank(record.title@)
            &&& 1 <= record.revision <= i64::MAX
            &&& !blank(record.spec_json@)
            &&& !blank(record.grants_json@)
            &&& held is Some
            &&& held->Some_0 == fence.generation as int
            &&& !known
        },
{
}

/// The states that a schedule can be put in.
pub open spec fn is_schedule_state(state: Seq<char>) -> bool {
    state == "active"@ || state == "paused"@ || state == "deleted"@
}

/// Why a schedule's state is not changed. `stored` is the revision it is at.
pub open spec fn schedule_state_fault(
    state: Seq<char>,
    expected_revision: u64,
    fence: HostFence,
    held: Option<i64>,
    stored: Option<i64>,
) -> Option<Fault> {
    if !is_schedule_state(state) {
        fault(ErrorCode::InvalidPayload, "invalid schedule state"@)
    } else {
        first(
            fence_fault(held, fence),
            first(
                i64_fault(expected_revision, "schedule revision"@),
                if stored is Some && stored->Some_0 == expected_revision {
                    None
                } else {
                    fault(
                        ErrorCode::SequenceConflict,
                        "the schedule revision moved; re-read it before changing its state"@,
                    )
                },
            ),
        )
    }
}

/// Changes a schedule's state at the revision that its caller has read; the next
/// revision is returned.
pub fn set_schedule_state(
    state: &str,
    expected_revision: u64,
    fence: &HostFence,
    held: Option<i64>,
    stored: Option<i64>,
) -> (result: Result<u64, StoreError>)
    ensures
        answers(
            result,
            schedule_state_fault(state@, expected_revision, *fence, held, stored),
        ),
        result is Ok ==> result->Ok_0 == expected_revision + 1,
{
    if !same_text(state, "active") && !same_text(state, "paused") && !same_text(state, "deleted") {
        return Err(StoreError::new(ErrorCode::InvalidPayload, "invalid schedule state"));
    }
    check_fence(held, fence)?;
    let expected: i64 = to_i64(expected_revision, "schedule revision")?;
    match stored {
        Some(revision) => if revision == expected {
            return Ok(expected_revision + 1);
        },
        None => {},
    }
    Err(
        StoreError::new(
            ErrorCode::SequenceConflict,
            "the schedule revision moved; re-read it before changing its state",
        ),
    )
}

/// A schedule goes from any state into each of its three, if and only if it is at the
/// revision that was read.
pub proof fn law_schedule_changes_state_at_its_revision(
    state: Seq<char>,
    expected_revision: u64,
    fence: HostFence,
    held: Option<i64>,
    stored: Option<i64>,
)
    ensures
        schedule_state_fault(state, expected_revision, fence, held, stored) is None <==> {
            &&& state == "active"@ || state == "paused"@ || state == "deleted"@
            &&& held is Some
            &&& held->Some_0 == fence.generation as int
            &&& stored is Some
            &&& stored->Some_0 == expected_revision as int
        },
        schedule_state_fault(state, expected_revision, fence, held, stored) is Some && (state
            == "active"@ || state == "paused"@ || state == "deleted"@) && held is Some
            && held->Some_0 == fence.generation as int && expected_revision <= i64::MAX
            ==> schedule_state_fault(
            state,
            expected_revision,
            fence,
            held,
            stored,
        )->Some_0.code == ErrorCode::SequenceConflict,
{
}

// ---------------------------------------------------------------------------
// Occurrences

/// Why an occurrence is malformed.
pub open spec fn occurrence_shape_fault(record: StoredOccurrenceRecord) -> Option<Fault> {
    if blank(record.occurrence_key@) || blank(record.schedule_id@) {
        fault(ErrorCode::InvalidPayload, "an occurrence needs a key and a schedule"@)
    } else if record.due_unix_ms <= 0 {
        fault(ErrorCode::InvalidPayload, "an occurrence needs a nominal due instant"@)
    } else {
        None
    }
}

/// Refuses a malformed occurrence.
pub fn validate_occurrence(record: &StoredOccurrenceRecord) -> (result: Result<(), StoreError>)
    ensures
        answers(result, occurrence_shape_fault(*record)),
{
    let invalid: ErrorCode = ErrorCode::InvalidPayload;
    if is_blank(record.occurrence_key.as_str()) || is_blank(record.schedule_id.as_str()) {
        return Err(StoreError::new(invalid, "an occurrence needs a key and a schedule"));
    }
    if record.due_unix_ms <= 0 {
        return Err(StoreError::new(invalid, "an occurrence needs a nominal due instant"));
    }
    Ok(())
}

/// A schedule, as far as a claim looks at it.
#[derive(Clone, Debug)]
pub struct ScheduleGuard {
    pub state: String,
    pub revision: i64,
}

/// Why an occurrence cannot be claimed.
pub open spec fn claim_fault(
    occurrence: StoredOccurrenceRecord,
    fence: HostFence,
    held: Option<i64>,
    schedule: Option<ScheduleGuard>,
) -> Option<Fault> {
    first(
        occurrence_shape_fault(occurrence),
        first(
            fence_fault(held, fence),
            match schedule {
                None => fault(ErrorCode::TaskNotFound, "schedule does not exist"@),
                Some(current) => first(
                    unsigned_fault(
                        current.revision,
                        ErrorCode::InvalidSequence,
                        "stored revision is negative"@,
                    ),
                    if current.revision != occurrence.revision {
                        fault(
                            ErrorCode::SequenceConflict,
                            "the schedule revision moved before its occurrence was claimed"@,
                        )
                    } else if current.state@ != "active"@ {
                        fault(ErrorCode::PolicyDenied, "the schedule is not active"@)
                    } else {
                        None
                    },
                ),
            },
        ),
    )
}

/// What claiming an occurrence does: whether this call claimed it, and when its
/// schedule is due afterwards.
#[derive(Clone, Copy, Debug, PartialEq, Eq)]
pub struct OccurrenceClaim {
    pub claimed: bool,
    pub schedule_due_unix_ms: i64,
}

/// Two records are about one occurrence: they have one key, or name one due instant
/// of one schedule at one revision.
pub open spec fn same_occurrence(a: StoredOccurrenceRecord, b: StoredOccurrenceRecord) -> bool {
    ||| a.occurrence_key@ == b.occurrence_key@
    ||| a.schedule_id@ == b.schedule_id@ && a.revision == b.revision && a.due_unix_ms
        == b.due_unix_ms
}

/// An occurrence is among the stored ones.
pub open spec fn is_claimed(
    stored: Seq<StoredOccurrenceRecord>,
    occurrence: StoredOccurrenceRecord,
) -> bool {
    exists|i: int| 0 <= i < stored.len() && same_occurrence(#[trigger] stored[i], occurrence)
}

fn find_occurrence(
    stored: &Vec<StoredOccurrenceRecord>,
    occurrence: &StoredOccurrenceRecord,
) -> (found: bool)
    ensures
        found == is_claimed(stored@, *occurrence),
{
    let mut i: usize = 0;
    while i < stored.len()
        invariant
            i <= stored.len(),
            forall|k: int| 0 <= k < i ==> !same_occurrence(#[trigger] stored@[k], *occurrence),
        decreases stored.len() - i,
    {
        let other: &StoredOccurrenceRecord = &stored[i];
        if same_text(other.occurrence_key.as_str(), occurrence.occurrence_key.as_str()) || (
        same_text(other.schedule_id.as_str(), occurrence.schedule_id.as_str()) && other.revision
            == occurrence.revision && other.due_unix_ms == occurrence.due_unix_ms) {
            assert(same_occurrence(stored@[i as int], *occurrence));
            return true;
        }
        i += 1;
    }
    false
}

/// Claims an occurrence and advances its schedule: both, or neither. `stored` are
/// the occurrences that are claimed already, and `due_unix_ms` is when the schedule
/// is due now. A second claim is no error and advances nothing.
pub fn claim_occurrence(
    occurrence: &StoredOccurrenceRecord,
    next_due_unix_ms: i64,
    fence: &HostFence,
    held: Option<i64>,
    schedule: &Option<ScheduleGuard>,
    due_unix_ms: i64,
    stored: &Vec<StoredOccurrenceRecord>,
) -> (result: Result<OccurrenceClaim, StoreError>)
    ensures
        answers(result, claim_fault(*occurrence, *fence, held, *schedule)),
        result is Ok ==> result->Ok_0 == (OccurrenceClaim {
            claimed: !is_claimed(stored@, *occurrence),
            schedule_due_unix_ms: if is_claimed(stored@, *occurrence) {
                due_unix_ms
            } else {
                next_due_unix_ms
            },
        }),
        result is Ok ==> occurrence.revision <= i64::MAX,
{
    validate_occurrence(occurrence)?;
    check_fence(held, fence)?;
    let current: &ScheduleGuard = match schedule {
        Some(current) => current,
        None => {
            return Err(StoreError::new(ErrorCode::TaskNotFound, "schedule does not exist"));
        },
    };
    let revision: u64 = to_unsigned(
        current.revision,
        ErrorCode::InvalidSequence,
        "stored revision is negative",
    )?;
    if revision != occurrence.revision {
        return Err(
            StoreError::new(
                ErrorCode::SequenceConflict,
                "the schedule revision moved before its occurrence was claimed",
            ),
        );
    }
    if !same_text(current.state.as_str(), "active") {
        return Err(StoreError::new(ErrorCode::PolicyDenied, "the schedule is not active"));
    }
    let known: bool = find_occurrence(stored, occurrence);
    Ok(
        OccurrenceClaim {
            claimed: !known,
            schedule_due_unix_ms: if known {
                due_unix_ms
            } else {
                next_due_unix_ms
            },
        },
    )
}

/// An occurrence is claimed under an active schedule that is at the occurrence's revision, and
/// nothing else stands in its way but one with the same key, or of the same schedule, revision
/// and instant.
pub proof fn law_occurrence_of_an_active_schedule_is_claimed(
    occurrence: StoredOccurrenceRecord,
    fence: HostFence,
    held: Option<i64>,
    schedule: ScheduleGuard,
    stored: Seq<StoredOccurrenceRecord>,
)
    ensures
        claim_fault(occurrence, fence, held, Some(schedule)) is None <==> {
            &&& !blank(occurrence.occurrence_key@)
            &&& !blank(occurrence.schedule_id@)
            &&& 0 < occurrence.due_unix_ms
            &&& held is Some
            &&& held->Some_0 == fence.generation as int
            &&& schedule.revision == occurrence.revision as int
            &&& schedule.state@ == "active"@
        },
        claim_fault(occurrence, fence, held, None) is Some,
        !is_claimed(stored, occurrence) <==> forall|i: int|
            0 <= i < stored.len() ==> {
                &&& (#[trigger] stored[i]).occurrence_key@ != occurrence.occurrence_key@
                &&& stored[i].schedule_id@ != occurrence.schedule_id@ || stored[i].revision
                    != occurrence.revision || stored[i].due_unix_ms != occurrence.due_unix_ms
            },
{
}

/// An occurrence is claimed once: after its claim it is among the stored ones, under
/// its key and under its schedule, revision and due instant, so a second claim of
/// it claims nothing; and it stays claimed whatever else is claimed later.
pub proof fn law_occurrence_is_claimed_once(
    stored: Seq<StoredOccurrenceRecord>,
    occurrence: StoredOccurrenceRecord,
    second: StoredOccurrenceRecord,
    later: StoredOccurrenceRecord,
)
    requires
        same_occurrence(occurrence, second),
    ensures
        is_claimed(stored.push(occurrence), second),
        is_claimed(stored.push(occurrence).push(later), second),
{
    let after = stored.push(occurrence);
    assert(same_occurrence(after[stored.len() as int], second));
    assert(same_occurrence(after.push(later)[stored.len() as int], second));
}

/// Changing a schedule's state makes the occurrences that were computed for it
/// stale: none of them can be claimed any more.
pub proof fn law_state_change_stales_occurrences(
    state: Seq<char>,
    expected_revision: u64,
    fence: HostFence,
    held: Option<i64>,
    stored: Option<i64>,
    occurrence: StoredOccurrenceRecord,
    after: ScheduleGuard,
)
    requires
        schedule_state_fault(state, expected_revision, fence, held, stored) is None,
        occurrence.revision == expected_revision,
        after.revision == expected_revision + 1,
    ensures
        claim_fault(occurrence, fence, held, Some(after)) is Some,
{
}

/// The states that end an occurrence.
pub open spec fn is_occurrence_settlement(state: Seq<char>) -> bool {
    state == "launched"@ || state == "skipped"@ || state == "canceled"@
}

/// Why an occurrence cannot be settled. `stored` is the state it is in.
pub open spec fn occurrence_settle_fault(
    state: Seq<char>,
    fence: HostFence,
    held: Option<i64>,
    stored: Option<Seq<char>>,
) -> Option<Fault> {
    if !is_occurrence_settlement(state) {
        fault(ErrorCode::InvalidPayload, "invalid occurrence settlement"@)
    } else {
        first(
            fence_fault(held, fence),
            if stored == Some("claimed"@) {
                None
            } else {
                fault(
                    ErrorCode::InvalidStateTransition,
                    "the occurrence is not in a state this settlement applies to"@,
                )
            },
        )
    }
}

/// An occurrence in another state.
pub open spec fn in_state(
    before: StoredOccurrenceRecord,
    after: StoredOccurrenceRecord,
    state: Seq<char>,
) -> bool {
    &&& after == (StoredOccurrenceRecord { state: after.state, ..before })
    &&& after.state@ == state
}

/// Settles a claimed occurrence, and hands it back as it is stored afterwards.
pub fn settle_occurrence(
    state: &str,
    fence: &HostFence,
    held: Option<i64>,
    occurrence: Option<StoredOccurrenceRecord>,
) -> (result: Result<StoredOccurrenceRecord, StoreError>)
    ensures
        answers(
            result,
            occurrence_settle_fault(
                state@,
                *fence,
                held,
                match occurrence {
                    None => None,
                    Some(stored) => Some(stored.state@),
                },
            ),
        ),
        result is Ok ==> in_state(occurrence->Some_0, result->Ok_0, state@),
{
    if !same_text(state, "launched") && !same_text(state, "skipped") && !same_text(
        state,
        "canceled",
    ) {
        return Err(StoreError::new(ErrorCode::InvalidPayload, "invalid occurrence settlement"));
    }
    check_fence(held, fence)?;
    match occurrence {
        Some(stored) => if same_text(stored.state.as_str(), "claimed") {
            let mut settled: StoredOccurrenceRecord = stored;
            settled.state = state.to_owned();
            return Ok(settled);
        },
        None => {},
    }
    Err(
        StoreError::new(
            ErrorCode::InvalidStateTransition,
            "the occurrence is not in a state this settlement applies to",
        ),
    )
}

/// A claimed occurrence is settled as launched, skipped or canceled, and as nothing else, and
/// one that was not claimed, or was settled, is not. Nothing but its state changes.
pub proof fn law_claimed_occurrence_is_settled(
    state: Seq<char>,
    fence: HostFence,
    held: Option<i64>,
    stored: Option<Seq<char>>,
    before: StoredOccurrenceRecord,
    after: StoredOccurrenceRecord,
)
    ensures
        occurrence_settle_fault(state, fence, held, stored) is None <==> {
            &&& state == "launched"@ || state == "skipped"@ || state == "canceled"@
            &&& held is Some
            &&& held->Some_0 == fence.generation as int
            &&& stored is Some
            &&& stored->Some_0 == "claimed"@
        },
        in_state(before, after, state) ==> {
            &&& after.state@ == state
            &&& after.occurrence_key == before.occurrence_key
            &&& after.schedule_id == before.schedule_id
            &&& after.revision == before.revision
            &&& after.due_unix_ms == before.due_unix_ms
            &&& after.claimed_at_unix_ms == before.claimed_at_unix_ms
            &&& after.trigger_kind == before.trigger_kind
        },
{
}

/// An occurrence is settled once: whatever it was settled as, a second settlement
/// is refused.
pub proof fn law_occurrence_settles_once(
    state: Seq<char>,
    second: Seq<char>,
    fence: HostFence,
    held: Option<i64>,
    stored: Option<Seq<char>>,
)
    requires
        occurrence_settle_fault(state, fence, held, stored) is None,
    ensures
        occurrence_settle_fault(second, fence, held, Some(state)) is Some,
{
    lemma_claimed_is_no_settlement();
}

proof fn lemma_claimed_is_no_settlement()
    ensures
        !is_occurrence_settlement("claimed"@),
{
    reveal_strlit("claimed");
    reveal_strlit("launched");
    reveal_strlit("skipped");
    reveal_strlit("canceled");
    assert("claimed"@.len() == 7);
    assert("launched"@.len() == 8);
    assert("canceled"@.len() == 8);
    assert("claimed"@[0] == 'c' && "skipped"@[0] == 's');
}

/// An occurrence is claimed, and nothing else is known of it.
pub open spec fn is_unsettled(occurrence: StoredOccurrenceRecord) -> bool {
    occurrence.state@ == "claimed"@
}

/// One occurrence is due before another one, or stands before it where both are due
/// at one instant.
pub open spec fn due_before(
    occurrences: Seq<StoredOccurrenceRecord>,
    first_place: int,
    second_place: int,
) -> bool {
    ||| occurrences[first_place].due_unix_ms < occurrences[second_place].due_unix_ms
    ||| occurrences[first_place].due_unix_ms == occurrences[second_place].due_unix_ms
        && first_place < second_place
}

/// The places of the claimed occurrences among the first of some occurrences, in the
/// order in which they are due.
pub open spec fn is_due_order(
    occurrences: Seq<StoredOccurrenceRecord>,
    count: int,
    order: Seq<int>,
) -> bool {
    &&& forall|place: int| #[trigger]
        order.contains(place) <==> 0 <= place < count && is_unsettled(occurrences[place])
    &&& forall|a: int, b: int|
        0 <= a < b < order.len() ==> due_before(
            occurrences,
            #[trigger] order[a],
            #[trigger] order[b],
        )
}

/// The keys of the occurrences at some places.
pub open spec fn keys_at(
    occurrences: Seq<StoredOccurrenceRecord>,
    order: Seq<int>,
) -> Seq<Seq<char>> {
    order.map_values(|place: int| occurrences[place].occurrence_key@)
}

/// Puts the place of a claimed occurrence behind those that are not due later. It is
/// the last place so far.
fn insert_due(order: &mut Vec<usize>, occurrences: &Vec<StoredOccurrenceRecord>, place: usize)
    requires
        place < occurrences.len(),
        is_unsettled(occurrences@[place as int]),
        is_due_order(occurrences@, place as int, places_of(old(order)@)),
    ensures
        is_due_order(occurrences@, place + 1, places_of(final(order)@)),
{
    let ghost before = order@;
    let mut at: usize = order.len();
    proof {
        assert forall|k: int| 0 <= k < before.len() implies 0 <= #[trigger] before[k] < place by {
            assert(places_of(before)[k] == before[k]);
            assert(places_of(before).contains(before[k] as int));
        }
    }
    while at > 0 && occurrences[order[at - 1]].due_unix_ms > occurrences[place].due_unix_ms
        invariant
            at <= order.len(),
            order@ == before,
            place < occurrences.len(),
            forall|k: int| 0 <= k < before.len() ==> 0 <= #[trigger] before[k] < place,
            forall|k: int|
                at <= k < before.len() ==> occurrences@[(#[trigger] before[k]) as int].due_unix_ms
                    > occurrences@[place as int].due_unix_ms,
        decreases at,
    {
        at -= 1;
    }
    order.insert(at, place);
    proof {
        let after = places_of(order@);
        let old_places = places_of(before);
        assert forall|k: int| 0 <= k < after.len() implies #[trigger] after[k] == if k < at {
            old_places[k]
        } else if k == at {
            place as int
        } else {
            old_places[k - 1]
        } by {}
        assert forall|k: int| 0 <= k < at implies occurrences@[(#[trigger] before[k]) as int].due_unix_ms
            <= occurrences@[place as int].due_unix_ms by {
            if at > 0 {
                assert(old_places[k] == before[k]);
                assert(old_places[at - 1] == before[at - 1]);
                if k < at - 1 {
                    assert(due_before(occurrences@, old_places[k], old_places[at - 1]));
                }
            }
        }
        assert forall|a: int, b: int| 0 <= a < b < after.len() implies due_before(
            occurrences@,
            #[trigger] after[a],
            #[trigger] after[b],
        ) by {
            if a == at {
                assert(old_places[b - 1] == before[b - 1]);
            } else if b == at {
                assert(old_places[a] == before[a]);
            } else {
                let a0 = if a < at { a } else { a - 1 };
                let b0 = if b < at { b } else { b - 1 };
                assert(due_before(occurrences@, old_places[a0], old_places[b0]));
            }
        }
        assert forall|other: int| #[trigger]
            after.contains(other) <==> 0 <= other < place + 1 && is_unsettled(occurrences@[other]) by {
            if after.contains(other) {
                let k = choose|k: int| 0 <= k < after.len() && after[k] == other;
                if k < at {
                    assert(old_places.contains(old_places[k]));
                } else if k > at {
                    assert(old_places.contains(old_places[k - 1]));
                }
            }
            if 0 <= other < place + 1 && is_unsettled(occurrences@[other]) {
                if other == place {
                    assert(after[at as int] == other);
                } else {
                    assert(old_places.contains(other));
                    let k = choose|k: int| 0 <= k < old_places.len() && old_places[k] == other;
                    assert(after[if k < at { k } else { k + 1 }] == other);
                }
            }
        }
    }
}

/// What recovering claimed occurrences does.
#[derive(Clone, Debug, PartialEq, Eq)]
pub struct RecoveredOccurrences {
    /// The occurrences afterwards.
    pub occurrences: Vec<StoredOccurrenceRecord>,
    /// The keys of those that were canceled, in the order in which they were due.
    pub canceled: Vec<String>,
}

/// Cancels the occurrences that a stopped host has claimed and may or may not have
/// launched, so that none of them is launched twice.
pub fn recover_claimed_occurrences(
    occurrences: Vec<StoredOccurrenceRecord>,
    fence: &HostFence,
    held: Option<i64>,
) -> (result: Result<RecoveredOccurrences, StoreError>)
    ensures
        answers(result, fence_fault(held, *fence)),
        result is Ok ==> {
            let after = result->Ok_0.occurrences@;
            &&& after.len() == occurrences@.len()
            &&& forall|i: int|
                0 <= i < after.len() ==> if is_unsettled(occurrences@[i]) {
                    in_state(occurrences@[i], #[trigger] after[i], "canceled"@)
                } else {
                    after[i] == occurrences@[i]
                }
        },
        result is Ok ==> exists|order: Seq<int>| #[trigger]
            is_due_order(occurrences@, occurrences@.len() as int, order) && texts(
                result->Ok_0.canceled@,
            ) == keys_at(occurrences@, order),
{
    check_fence(held, fence)?;
    let ghost before = occurrences@;
    let mut after: Vec<StoredOccurrenceRecord> = occurrences;
    let mut order: Vec<usize> = Vec::new();
    let mut i: usize = 0;
    assert(places_of(order@) =~= seq![]);
    while i < after.len()
        invariant
            i <= after.len(),
            after@ == before,
            before == occurrences@,
            is_due_order(before, i as int, places_of(order@)),
        decreases after.len() - i,
    {
        if same_text(after[i].state.as_str(), "claimed") {
            insert_due(&mut order, &after, i);
        }
        i += 1;
    }
    let mut canceled: Vec<String> = Vec::new();
    assert(texts(canceled@) =~= keys_at(before, places_of(order@)).take(0));
    let mut k: usize = 0;
    while k < order.len()
        invariant
            k <= order.len(),
            after@ == before,
            before == occurrences@,
            is_due_order(before, before.len() as int, places_of(order@)),
            texts(canceled@) == keys_at(before, places_of(order@)).take(k as int),
        decreases order.len() - k,
    {
        let ghost listed = canceled@;
        proof {
            assert(places_of(order@)[k as int] == order@[k as int]);
            assert(places_of(order@).contains(order@[k as int] as int));
        }
        canceled.push(after[order[k]].occurrence_key.clone());
        assert(texts(canceled@) =~= texts(listed).push(
            before[order@[k as int] as int].occurrence_key@,
        ));
        assert(texts(canceled@) =~= keys_at(before, places_of(order@)).take(k + 1));
        k += 1;
    }
    assert(keys_at(before, places_of(order@)).take(k as int) =~= keys_at(
        before,
        places_of(order@),
    ));
    let mut j: usize = 0;
    while j < after.len()
        invariant
            j <= after.len(),
            after@.len() == before.len(),
            before == occurrences@,
            forall|m: int|
                0 <= m < j ==> if is_unsettled(before[m]) {
                    in_state(before[m], #[trigger] after@[m], "canceled"@)
                } else {
                    after@[m] == before[m]
                },
            forall|m: int| j <= m < after@.len() ==> #[trigger] after@[m] == before[m],
        decreases after.len() - j,
    {
        if same_text(after[j].state.as_str(), "claimed") {
            after[j].state = "canceled".to_owned();
        }
        j += 1;
    }
    Ok(RecoveredOccurrences { occurrences: after, canceled })
}

/// The occurrences that are canceled are the claimed ones, each named once, the earliest due
/// first, and those that are due together in their order.
pub proof fn law_canceled_occurrences_are_named_by_due_time(
    occurrences: Seq<StoredOccurrenceRecord>,
    order: Seq<int>,
    a: int,
    b: int,
)
    requires
        is_due_order(occurrences, occurrences.len() as int, order),
        0 <= a < b < order.len(),
    ensures
        occurrences[order[a]].state@ == "claimed"@,
        occurrences[order[a]].due_unix_ms <= occurrences[order[b]].due_unix_ms,
        order[a] != order[b],
        occurrences[order[a]].due_unix_ms == occurrences[order[b]].due_unix_ms ==> order[a]
            < order[b],
        keys_at(occurrences, order).len() == order.len(),
        keys_at(occurrences, order)[a] == occurrences[order[a]].occurrence_key@,
        forall|place: int|
            0 <= place < occurrences.len() && (#[trigger] occurrences[place]).state@ == "claimed"@
                ==> order.contains(place),
{
    assert(order.contains(order[a]));
    assert(due_before(occurrences, order[a], order[b]));
    assert forall|place: int|
        0 <= place < occurrences.len() && (#[trigger] occurrences[place]).state@
            == "claimed"@ implies order.contains(place) by {
        assert(is_unsettled(occurrences[place]));
    }
}

/// Recovery leaves nothing claimed: every occurrence that was claimed is canceled, and
/// none of them can be settled any more, so none is launched.
pub proof fn law_recovered_occurrence_is_not_launched(
    before: StoredOccurrenceRecord,
    after: StoredOccurrenceRecord,
    state: Seq<char>,
    fence: HostFence,
    held: Option<i64>,
)
    requires
        is_unsettled(before),
        in_state(before, after, "canceled"@),
    ensures
        !is_unsettled(after),
        occurrence_settle_fault(state, fence, held, Some(after.state@)) is Some,
{
    lemma_claimed_is_no_settlement();
}

/// Reads a schedule back.
pub fn decode_schedule(
    schedule_id: String,
    title: String,
    state: String,
    revision: i64,
    next_due_unix_ms: i64,
    spec_json: String,
    grants_json: String,
) -> (result: Result<StoredScheduleRecord, StoreError>)
    ensures
        answers(
            result,
            unsigned_fault(revision, ErrorCode::InvalidSequence, "stored revision is negative"@),
        ),
        result is Ok ==> result->Ok_0 == (StoredScheduleRecord {
            schedule_id,
            title,
            state,
            revision: revision as u64,
            next_due_unix_ms,
            spec_json,
            grants_json,
        }),
{
    let revision: u64 = to_unsigned(
        revision,
        ErrorCode::InvalidSequence,
        "stored revision is negative",
    )?;
    Ok(
        StoredScheduleRecord {
            schedule_id,
            title,
            state,
            revision,
            next_due_unix_ms,
            spec_json,
            grants_json,
        },
    )
}

/// Reads an occurrence back.
pub fn decode_occurrence(
    occurrence_key: String,
    schedule_id: String,
    revision: i64,
    due_unix_ms: i64,
    claimed_at_unix_ms: i64,
    state: String,
    trigger_kind: String,
) -> (result: Result<StoredOccurrenceRecord, StoreError>)
    ensures
        answers(
            result,
            unsigned_fault(revision, ErrorCode::InvalidSequence, "stored revision is negative"@),
        ),
        result is Ok ==> result->Ok_0 == (StoredOccurrenceRecord {
            occurrence_key,
            schedule_id,
            revision: revision as u64,
            due_unix_ms,
            claimed_at_unix_ms,
            state,
            trigger_kind,
        }),
{
    let revision: u64 = to_unsigned(
        revision,
        ErrorCode::InvalidSequence,
        "stored revision is negative",
    )?;
    Ok(
        StoredOccurrenceRecord {
            occurrence_key,
            schedule_id,
            revision,
            due_unix_ms,
            claimed_at_unix_ms,
            state,
            trigger_kind,
        },
    )
}

// ---------------------------------------------------------------------------
// Approvals

/// Why a request for approval is malformed.
pub open spec fn approval_shape_fault(approval: StoredApproval) -> Option<Fault> {
    if blank(approval.approval_id@) || blank(approval.occurrence_key@) || blank(
        approval.schedule_id@,
    ) || blank(approval.prompt@) {
        fault(
            ErrorCode::InvalidPayload,
            "an approval needs an id, an occurrence, a schedule and a prompt"@,
        )
    } else if approval.revision == 0 {
        fault(ErrorCode::InvalidPayload, "an approval names the revision it was requested at"@)
    } else if approval.expires_at_unix_ms <= approval.requested_at_unix_ms {
        fault(ErrorCode::InvalidPayload, "an approval window has to end after it starts"@)
    } else {
        None
    }
}

/// Refuses a malformed request for approval.
pub fn validate_approval(approval: &StoredApproval) -> (result: Result<(), StoreError>)
    ensures
        answers(result, approval_shape_fault(*approval)),
{
    let invalid: ErrorCode = ErrorCode::InvalidPayload;
    if is_blank(approval.approval_id.as_str()) || is_blank(approval.occurrence_key.as_str())
        || is_blank(approval.schedule_id.as_str()) || is_blank(approval.prompt.as_str()) {
        return Err(
            StoreError::new(
                invalid,
                "an approval needs an id, an occurrence, a schedule and a prompt",
            ),
        );
    }
    if approval.revision == 0 {
        return Err(StoreError::new(invalid, "an approval names the revision it was requested at"));
    }
    if approval.expires_at_unix_ms <= approval.requested_at_unix_ms {
        return Err(StoreError::new(invalid, "an approval window has to end after it starts"));
    }
    Ok(())
}

/// A request as it is first written: open, and not decided by anyone.
pub open spec fn requested_as(approval: StoredApproval, stored: StoredApproval) -> bool {
    &&& stored == (StoredApproval {
        state: stored.state,
        decided_at_unix_ms: None,
        decided_by: None,
        reason: None,
        ..approval
    })
    &&& stored.open()
}

/// Two requests are one: they ask about one occurrence, or have one id.
pub open spec fn same_request(a: StoredApproval, b: StoredApproval) -> bool {
    a.occurrence_key@ == b.occurrence_key@ || a.approval_id@ == b.approval_id@
}

/// A request is among the stored ones.
pub open spec fn is_asked(stored: Seq<StoredApproval>, approval: StoredApproval) -> bool {
    exists|i: int| 0 <= i < stored.len() && same_request(#[trigger] stored[i], approval)
}

fn find_request(stored: &Vec<StoredApproval>, approval: &StoredApproval) -> (found: bool)
    ensures
        found == is_asked(stored@, *approval),
{
    let mut i: usize = 0;
    while i < stored.len()
        invariant
            i <= stored.len(),
            forall|k: int| 0 <= k < i ==> !same_request(#[trigger] stored@[k], *approval),
        decreases stored.len() - i,
    {
        let other: &StoredApproval = &stored[i];
        if same_text(other.occurrence_key.as_str(), approval.occurrence_key.as_str()) || same_text(
            other.approval_id.as_str(),
            approval.approval_id.as_str(),
        ) {
            assert(same_request(stored@[i as int], *approval));
            return true;
        }
        i += 1;
    }
    false
}

/// Why an approval is not asked for.
pub open spec fn request_fault(
    approval: StoredApproval,
    fence: HostFence,
    held: Option<i64>,
) -> Option<Fault> {
    first(
        approval_shape_fault(approval),
        first(
            fence_fault(held, fence),
            i64_fault(approval.revision, "approval revision"@),
        ),
    )
}

/// Asks about an occurrence once. `stored` are the requests that are there already:
/// a second request for an occurrence is no error and no second question, and
/// nothing is written.
pub fn request_approval(
    approval: StoredApproval,
    fence: &HostFence,
    held: Option<i64>,
    stored: &Vec<StoredApproval>,
) -> (result: Result<Option<StoredApproval>, StoreError>)
    ensures
        answers(result, request_fault(approval, *fence, held)),
        result is Ok ==> (result->Ok_0 is Some <==> !is_asked(stored@, approval)),
        result is Ok && result->Ok_0 is Some ==> requested_as(approval, result->Ok_0->Some_0),
{
    validate_approval(&approval)?;
    check_fence(held, fence)?;
    let revision: i64 = to_i64(approval.revision, "approval revision")?;
    if find_request(stored, &approval) {
        return Ok(None);
    }
    let mut asked: StoredApproval = approval;
    asked.state = "open".to_owned();
    asked.decided_at_unix_ms = None;
    asked.decided_by = None;
    asked.reason = None;
    Ok(Some(asked))
}

/// An occurrence is asked about once: after the first request, whatever state it is
/// in by then, another request for its occurrence asks nothing.
pub proof fn law_occurrence_is_asked_about_once(
    stored: Seq<StoredApproval>,
    asked: StoredApproval,
    again: StoredApproval,
)
    requires
        asked.occurrence_key@ == again.occurrence_key@,
    ensures
        is_asked(stored.push(asked), again),
{
    assert(same_request(stored.push(asked)[stored.len() as int], again));
}

/// Refuses a decision that is neither of the two.
pub fn check_decision(decision: &str) -> (result: Result<(), StoreError>)
    ensures
        answers(
            result,
            if decision@ == "approved"@ || decision@ == "denied"@ {
                None
            } else {
                fault(ErrorCode::InvalidPayload, "an approval is decided as approved or denied"@)
            },
        ),
{
    if same_text(decision, "approved") || same_text(decision, "denied") {
        Ok(())
    } else {
        Err(
            StoreError::new(
                ErrorCode::InvalidPayload,
                "an approval is decided as approved or denied",
            ),
        )
    }
}

/// Why an approval is not decided.
pub open spec fn decision_fault(
    decision: Seq<char>,
    fence: HostFence,
    held: Option<i64>,
) -> Option<Fault> {
    if decision == "approved"@ || decision == "denied"@ {
        fence_fault(held, fence)
    } else {
        fault(ErrorCode::InvalidPayload, "an approval is decided as approved or denied"@)
    }
}

/// An approval after it was decided: how, by whom, why and when.
pub open spec fn decided_as(
    before: StoredApproval,
    after: StoredApproval,
    decision: Seq<char>,
    decided_by: Seq<char>,
    reason: Seq<char>,
    at_unix_ms: i64,
) -> bool {
    &&& after == (StoredApproval {
        state: after.state,
        decided_at_unix_ms: Some(at_unix_ms),
        decided_by: after.decided_by,
        reason: after.reason,
        ..before
    })
    &&& after.state@ == decision
    &&& opt_text(after.decided_by) == Some(decided_by)
    &&& opt_text(after.reason) == Some(reason)
}

/// Decides an open request. One that was decided, or whose window was closed, is left as
/// it is, and the answer says so. A window is closed by `expire_approval`: that its time
/// has passed closes no window by itself.
pub fn decide_approval(
    approval: StoredApproval,
    decision: &str,
    decided_by: &str,
    reason: &str,
    at_unix_ms: i64,
    fence: &HostFence,
    held: Option<i64>,
) -> (result: Result<(StoredApproval, bool), StoreError>)
    ensures
        answers(result, decision_fault(decision@, *fence, held)),
        result is Ok ==> result->Ok_0.1 == approval.open(),
        result is Ok && !result->Ok_0.1 ==> result->Ok_0.0 == approval,
        result is Ok && result->Ok_0.1 ==> decided_as(
            approval,
            result->Ok_0.0,
            decision@,
            decided_by@,
            reason@,
            at_unix_ms,
        ),
{
    check_decision(decision)?;
    check_fence(held, fence)?;
    if !approval.is_open() {
        return Ok((approval, false));
    }
    let mut after: StoredApproval = approval;
    after.state = decision.to_owned();
    after.decided_at_unix_ms = Some(at_unix_ms);
    after.decided_by = Some(decided_by.to_owned());
    after.reason = Some(reason.to_owned());
    Ok((after, true))
}

/// A host that may write asks for an approval that names what it is about, the revision it
/// was asked at and a window that ends after it starts. It is decided as approved or as
/// denied. What is asked for starts open and undecided.
pub proof fn law_approval_is_asked_for_and_decided(
    approval: StoredApproval,
    stored: StoredApproval,
    decision: Seq<char>,
    fence: HostFence,
    held: Option<i64>,
)
    ensures
        request_fault(approval, fence, held) is None <==> {
            &&& !blank(approval.approval_id@)
            &&& !blank(approval.occurrence_key@)
            &&& !blank(approval.schedule_id@)
            &&& !blank(approval.prompt@)
            &&& 1 <= approval.revision <= i64::MAX
            &&& approval.requested_at_unix_ms < approval.expires_at_unix_ms
            &&& held is Some
            &&& held->Some_0 == fence.generation as int
        },
        decision_fault(decision, fence, held) is None <==> {
            &&& decision == "approved"@ || decision == "denied"@
            &&& held is Some
            &&& held->Some_0 == fence.generation as int
        },
        requested_as(approval, stored) ==> {
            &&& stored.state@ == "open"@
            &&& stored.decided_at_unix_ms is None
            &&& stored.decided_by is None
            &&& stored.reason is None
            &&& stored.approval_id == approval.approval_id
            &&& stored.occurrence_key == approval.occurrence_key
            &&& stored.schedule_id == approval.schedule_id
            &&& stored.revision == approval.revision
            &&& stored.prompt == approval.prompt
            &&& stored.requested_at_unix_ms == approval.requested_at_unix_ms
            &&& stored.expires_at_unix_ms == approval.expires_at_unix_ms
        },
        is_asked(seq![stored], approval) <==> stored.occurrence_key@ == approval.occurrence_key@
            || stored.approval_id@ == approval.approval_id@,
{
    let list = seq![stored];
    assert(list[0] == stored);
    if same_request(stored, approval) {
        assert(same_request(list[0], approval));
    }
}

/// An approval after its window was closed.
pub open spec fn expired_as(
    before: StoredApproval,
    after: StoredApproval,
    at_unix_ms: i64,
) -> bool {
    &&& after == (StoredApproval {
        state: after.state,
        decided_at_unix_ms: Some(at_unix_ms),
        reason: after.reason,
        ..before
    })
    &&& after.state@ == "expired"@
    &&& opt_text(after.reason) == Some("the approval window closed"@)
}

/// Closes the window of a request that nobody answered.
pub fn expire_approval(
    approval: StoredApproval,
    at_unix_ms: i64,
    fence: &HostFence,
    held: Option<i64>,
) -> (result: Result<(StoredApproval, bool), StoreError>)
    ensures
        answers(result, fence_fault(held, *fence)),
        result is Ok ==> result->Ok_0.1 == approval.open(),
        result is Ok && !result->Ok_0.1 ==> result->Ok_0.0 == approval,
        result is Ok && result->Ok_0.1 ==> expired_as(approval, result->Ok_0.0, at_unix_ms),
{
    check_fence(held, fence)?;
    if !approval.is_open() {
        return Ok((approval, false));
    }
    let mut after: StoredApproval = approval;
    after.state = "expired".to_owned();
    after.decided_at_unix_ms = Some(at_unix_ms);
    after.reason = Some("the approval window closed".to_owned());
    Ok((after, true))
}

/// What was decided says how, by whom, why and when, and what expired says when and that nobody
/// decided it. Neither is open any more, and neither is otherwise changed.
pub proof fn law_decided_approval_says_how(
    before: StoredApproval,
    decided: StoredApproval,
    expired: StoredApproval,
    decision: Seq<char>,
    decided_by: Seq<char>,
    reason: Seq<char>,
    at_unix_ms: i64,
)
    requires
        decision == "approved"@ || decision == "denied"@,
        decided_as(before, decided, decision, decided_by, reason, at_unix_ms),
        expired_as(before, expired, at_unix_ms),
    ensures
        decided.state@ == decision,
        !decided.open(),
        decided.decided_at_unix_ms == Some(at_unix_ms),
        decided.decided_by is Some,
        decided.decided_by->Some_0@ == decided_by,
        decided.reason is Some,
        decided.reason->Some_0@ == reason,
        decided.approval_id == before.approval_id,
        decided.occurrence_key == before.occurrence_key,
        decided.revision == before.revision,
        decided.expires_at_unix_ms == before.expires_at_unix_ms,
        expired.state@ == "expired"@,
        !expired.open(),
        expired.decided_at_unix_ms == Some(at_unix_ms),
        expired.decided_by == before.decided_by,
        expired.reason is Some,
        expired.approval_id == before.approval_id,
        expired.occurrence_key == before.occurrence_key,
{
    reveal_strlit("open");
    reveal_strlit("approved");
    reveal_strlit("denied");
    reveal_strlit("expired");
    assert("open"@.len() == 4);
    assert("approved"@.len() == 8);
    assert("denied"@.len() == 6);
    assert("expired"@.len() == 7);
}

/// A request is answered once: in each of the states that a decision or an expiry
/// leaves, it is no longer open, so neither a second decision nor an expiry
/// changes it. Each of these states is listed.
pub proof fn law_approval_is_decided_once(after: StoredApproval)
    requires
        after.state@ == "approved"@ || after.state@ == "denied"@ || after.state@ == "expired"@,
    ensures
        !after.open(),
        listed(APPROVAL_STATES@, after.state@),
        listed(APPROVAL_STATES@, "open"@),
{
    assert(APPROVAL_STATES@[0]@ == "open"@);
    assert(APPROVAL_STATES@[1]@ == "approved"@);
    assert(APPROVAL_STATES@[2]@ == "denied"@);
    assert(APPROVAL_STATES@[3]@ == "expired"@);
    reveal_strlit("open");
    reveal_strlit("approved");
    reveal_strlit("denied");
    reveal_strlit("expired");
    assert("open"@.len() == 4);
    assert("approved"@.len() == 8);
    assert("denied"@.len() == 6);
    assert("expired"@.len() == 7);
}

/// Reads a request back: everything but its revision is as the row holds it.
pub fn decode_approval(approval: StoredApproval, revision: i64) -> (result: Result<
    StoredApproval,
    StoreError,
>)
    ensures
        answers(
            result,
            unsigned_fault(revision, ErrorCode::InvalidSequence, "stored revision is negative"@),
        ),
        result is Ok ==> result->Ok_0 == (StoredApproval { revision: revision as u64, ..approval }),
{
    let revision: u64 = to_unsigned(
        revision,
        ErrorCode::InvalidSequence,
        "stored revision is negative",
    )?;
    let mut decoded: StoredApproval = approval;
    decoded.revision = revision;
    Ok(decoded)
}

} // verus!

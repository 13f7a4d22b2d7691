//! The event journal of a session: who may write to it, in which order, and
//! what a repeated write is answered.
//!
//! Each decision takes the rows that the writing transaction has read and says
//! what is written, or which error the caller gets.

use crate::columns::{i64_fault, to_i64, to_u64, u64_fault};
use crate::error::{
    answers, check_verdict, fault, first, stored_fault, stored_value, verdict_fault, ErrorCode,
    Fault, Parsed, StoreError, Verdict,
};
use crate::models::{injected_fault, StoreFaultPlan, StoreFaultPoint};
use crate::text::{blank, cat, cat3, cat4, decimal, decimal_text, is_blank, same_text};
use vstd::prelude::*;

verus! {

/// The authority of one writing host: the generation it opened the store at.
#[derive(Clone, Debug, PartialEq, Eq)]
pub struct HostFence {
    pub host_id: String,
    pub generation: u64,
}

/// One event of a session's journal.
#[derive(Clone, Debug, PartialEq, Eq)]
pub struct EventEnvelope {
    pub event_id: String,
    pub session_id: String,
    pub seq: u64,
    pub continuity_critical: bool,
}

/// One entry of the instruction ledger.
#[derive(Clone, Debug, PartialEq, Eq)]
pub struct InstructionLedgerEntry {
    pub instruction_id: String,
}

/// The projection of a task, through one event of its session.
#[derive(Clone, Debug, PartialEq, Eq)]
pub struct WorkingState {
    pub session_id: String,
    pub task_id: String,
    pub project_id: String,
    pub revision: u64,
    pub through_event_seq: u64,
}

/// The mark that an event is a source of later work.
#[derive(Clone, Debug, PartialEq, Eq)]
pub struct SourceWorkMarker {
    pub marker_id: String,
    pub event_id: String,
    pub sequence: u64,
    pub kind: String,
    pub status: String,
}

/// Artifact bytes that were published under a stable name.
#[derive(Clone, Debug, PartialEq, Eq)]
pub struct PublishedArtifact {
    pub artifact_id: String,
    pub content_hash: String,
    pub byte_len: u64,
    pub relative_path: String,
}

/// The receipt of one tool execution.
#[derive(Clone, Debug, PartialEq, Eq)]
pub struct ToolExecutionReceipt {
    pub tool_execution_id: String,
    pub task_id: String,
    pub observed_at_seq: u64,
    pub artifact_id: Option<String>,
}

/// One user input and everything that is written with it.
#[derive(Clone, Debug)]
pub struct AdmissionCommit {
    pub session_id: String,
    pub task_id: String,
    pub input_id: String,
    pub input_hash: String,
    pub raw_text: String,
    pub expected_sequence: u64,
    pub event: EventEnvelope,
    pub instruction: InstructionLedgerEntry,
    pub working_state: WorkingState,
    pub marker: SourceWorkMarker,
}

/// What an admitted input is answered.
#[derive(Clone, Debug, PartialEq, Eq)]
pub struct AdmissionAck {
    pub input_id: String,
    pub event_id: String,
    pub sequence: u64,
    pub idempotent_replay: bool,
}

/// One receipt and everything that is written with it.
#[derive(Clone, Debug)]
pub struct ReceiptCommit {
    pub session_id: String,
    pub task_id: String,
    pub expected_sequence: u64,
    pub event: EventEnvelope,
    pub receipt: ToolExecutionReceipt,
    pub working_state: WorkingState,
    pub marker: SourceWorkMarker,
    pub artifact: Option<PublishedArtifact>,
}

/// What a committed receipt is answered.
#[derive(Clone, Debug, PartialEq, Eq)]
pub struct ReceiptAck {
    pub event_id: String,
    pub sequence: u64,
    pub idempotent_replay: bool,
}

/// A session as its row is read.
#[derive(Debug)]
pub struct SessionRow {
    pub task_id: Parsed,
    pub next_sequence: i64,
}

/// The lease that a session holds on its task.
#[derive(Clone, Debug, PartialEq, Eq)]
pub struct TaskLease {
    pub session_id: String,
    pub host_id: String,
    pub generation: i64,
}

/// The rows that guard every write to a journal.
#[derive(Debug)]
pub struct JournalRows {
    /// The generation that the writing host holds, where it still holds one.
    pub fence_generation: Option<i64>,
    pub session: Option<SessionRow>,
    pub lease: Option<TaskLease>,
}

/// What a journal write does besides its own rows.
#[derive(Clone, Debug, PartialEq, Eq)]
pub struct JournalWrite {
    pub create_session: bool,
    pub lease: TaskLease,
    pub next_sequence: u64,
}

// ---------------------------------------------------------------------------
// Write authority

/// The fence of a store that was opened for writing.
pub fn writer_fence(writer: &Option<HostFence>) -> (result: Result<&HostFence, StoreError>)
    ensures
        answers(
            result,
            if writer is Some {
                None
            } else {
                fault(
                    ErrorCode::ReadOnlyStore,
                    "this store was opened without write authority"@,
                )
            },
        ),
        result is Ok ==> Some(*result->Ok_0) == *writer,
{
    match writer {
        Some(fence) => Ok(fence),
        None => Err(
            StoreError::new(
                ErrorCode::ReadOnlyStore,
                "this store was opened without write authority",
            ),
        ),
    }
}

/// The generation that a host holds: the store's epoch, as long as the host is
/// recorded at that same generation.
pub open spec fn held_generation(epoch: Option<i64>, host: Option<i64>) -> Option<i64> {
    if epoch is Some && host == epoch {
        epoch
    } else {
        None
    }
}

/// The generation that a host holds.
pub fn current_generation(epoch: Option<i64>, host: Option<i64>) -> (held: Option<i64>)
    ensures
        held == held_generation(epoch, host),
{
    match (epoch, host) {
        (Some(current), Some(recorded)) => if current == recorded {
            Some(current)
        } else {
            None
        },
        _ => None,
    }
}

/// Why a host's fence no longer lets it write.
pub open spec fn fence_fault(held: Option<i64>, fence: HostFence) -> Option<Fault> {
    first(
        i64_fault(fence.generation, "fence generation"@),
        if held is Some && held->Some_0 == fence.generation {
            None
        } else {
            fault(ErrorCode::StaleWriter, "writer host or generation is no longer current"@)
        },
    )
}

/// Refuses a writer whose generation is no longer the one that its host holds.
pub fn check_fence(held: Option<i64>, fence: &HostFence) -> (result: Result<(), StoreError>)
    ensures
        answers(result, fence_fault(held, *fence)),
{
    let generation: i64 = to_i64(fence.generation, "fence generation")?;
    match held {
        Some(current) => if current == generation {
            return Ok(());
        },
        None => {},
    }
    Err(StoreError::new(ErrorCode::StaleWriter, "writer host or generation is no longer current"))
}

/// A host writes if and only if the generation that it brings is the one that it holds, and
/// a host that brings another one, or holds none, is told that it is stale.
pub proof fn law_only_the_held_generation_writes(held: Option<i64>, fence: HostFence)
    ensures
        fence_fault(held, fence) is None <==> held is Some && held->Some_0 == fence.generation
            as int,
        fence_fault(held, fence) is Some && fence.generation <= i64::MAX ==> fence_fault(
            held,
            fence,
        )->Some_0.code == ErrorCode::StaleWriter,
{
}

/// Why a store's epoch cannot be advanced for a new writer.
pub open spec fn acquire_fault(epoch: i64) -> Option<Fault> {
    if epoch == i64::MAX {
        fault(ErrorCode::StorageWriteFailed, "host generation overflow"@)
    } else {
        u64_fault((epoch + 1) as i64, "host generation"@)
    }
}

/// Opens a new generation for a writing host.
pub fn acquire_fence(host_id: String, epoch: i64) -> (result: Result<HostFence, StoreError>)
    ensures
        answers(result, acquire_fault(epoch)),
        result is Ok ==> result->Ok_0.host_id == host_id,
        result is Ok ==> result->Ok_0.generation == epoch + 1,
{
    if epoch == i64::MAX {
        return Err(StoreError::new(ErrorCode::StorageWriteFailed, "host generation overflow"));
    }
    let generation: u64 = to_u64(epoch + 1, "host generation")?;
    Ok(HostFence { host_id, generation })
}

/// The next generation is given out as long as there is one, and a host holds a generation if
/// and only if it has the one of the epoch.
pub proof fn law_generations_are_given_out_in_turn(epoch: i64, stored: Option<i64>, host: Option<i64>)
    ensures
        acquire_fault(epoch) is None <==> -1 <= epoch < i64::MAX,
        held_generation(stored, host) is Some <==> stored is Some && host is Some
            && stored->Some_0 == host->Some_0,
        held_generation(stored, host) is Some ==> held_generation(stored, host)->Some_0
            == stored->Some_0,
{
}

/// Opening a new generation takes write authority from whoever held it: the old
/// fence is refused, whichever host opened the new one.
pub proof fn law_new_generation_stales_the_old(
    epoch: i64,
    old_host: Option<i64>,
    old_fence: HostFence,
)
    requires
        fence_fault(held_generation(Some(epoch), old_host), old_fence) is None,
        acquire_fault(epoch) is None,
    ensures
        fence_fault(held_generation(Some((epoch + 1) as i64), old_host), old_fence) == fault(
            ErrorCode::StaleWriter,
            "writer host or generation is no longer current"@,
        ),
        fence_fault(
            held_generation(Some((epoch + 1) as i64), Some((epoch + 1) as i64)),
            old_fence,
        ) == fault(ErrorCode::StaleWriter, "writer host or generation is no longer current"@),
{
}

/// A host that has just opened a generation may write.
pub proof fn law_new_generation_may_write(epoch: i64, fence: HostFence)
    requires
        acquire_fault(epoch) is None,
        fence.generation == epoch + 1,
    ensures
        fence_fault(
            held_generation(Some((epoch + 1) as i64), Some((epoch + 1) as i64)),
            fence,
        ) is None,
{
}

// ---------------------------------------------------------------------------
// Sessions, leases and sequence numbers

/// Why a session cannot take an input: it belongs to another task, or it is new
/// and the input does not open it.
pub open spec fn session_fault(
    session: Option<SessionRow>,
    task_id: Seq<char>,
    expected_sequence: u64,
) -> Option<Fault> {
    match session {
        Some(row) => if row.task_id is Err {
            fault(ErrorCode::StorageWriteFailed, "stored task ID is invalid"@)
        } else if row.task_id->Ok_0@ != task_id {
            fault(ErrorCode::IdempotencyConflict, "session is already bound to another task"@)
        } else {
            None
        },
        None => if expected_sequence != 1 {
            fault(ErrorCode::SequenceConflict, "a new session must admit sequence 1"@)
        } else {
            None
        },
    }
}

/// Whether an input opens a new session.
pub fn ensure_session(
    session: &Option<SessionRow>,
    task_id: &str,
    expected_sequence: u64,
) -> (result: Result<bool, StoreError>)
    ensures
        answers(result, session_fault(*session, task_id@, expected_sequence)),
        result is Ok ==> result->Ok_0 == (session is None),
{
    match session {
        Some(row) => match &row.task_id {
            Err(_) => Err(
                StoreError::new(ErrorCode::StorageWriteFailed, "stored task ID is invalid"),
            ),
            Ok(existing) => if same_text(existing.as_str(), task_id) {
                Ok(false)
            } else {
                Err(
                    StoreError::new(
                        ErrorCode::IdempotencyConflict,
                        "session is already bound to another task",
                    ),
                )
            },
        },
        None => if expected_sequence != 1 {
            Err(
                StoreError::new(ErrorCode::SequenceConflict, "a new session must admit sequence 1"),
            )
        } else {
            Ok(true)
        },
    }
}

/// Why a session cannot take a write that needs it to exist.
pub open spec fn existing_session_fault(session: Option<SessionRow>, task_id: Seq<char>) -> Option<
    Fault,
> {
    match session {
        Some(row) => if row.task_id is Err {
            fault(ErrorCode::StorageWriteFailed, "stored task ID is invalid"@)
        } else if row.task_id->Ok_0@ != task_id {
            fault(ErrorCode::IdempotencyConflict, "session is already bound to another task"@)
        } else {
            None
        },
        None => fault(ErrorCode::InvalidPayload, "session must exist before this operation"@),
    }
}

/// Refuses a session that does not exist or belongs to another task.
pub fn ensure_session_existing(session: &Option<SessionRow>, task_id: &str) -> (result: Result<
    (),
    StoreError,
>)
    ensures
        answers(result, existing_session_fault(*session, task_id@)),
{
    match session {
        Some(row) => match &row.task_id {
            Err(_) => Err(
                StoreError::new(ErrorCode::StorageWriteFailed, "stored task ID is invalid"),
            ),
            Ok(existing) => if same_text(existing.as_str(), task_id) {
                Ok(())
            } else {
                Err(
                    StoreError::new(
                        ErrorCode::IdempotencyConflict,
                        "session is already bound to another task",
                    ),
                )
            },
        },
        None => Err(
            StoreError::new(ErrorCode::InvalidPayload, "session must exist before this operation"),
        ),
    }
}

/// Another session holds the task and its host has not been superseded.
pub open spec fn held_by_another(lease: TaskLease, session_id: Seq<char>, fence: HostFence) -> bool {
    &&& lease.session_id@ != session_id
    &&& (lease.generation > fence.generation || (lease.generation == fence.generation
        && lease.host_id@ == fence.host_id@))
}

/// What the refused session is told about the lease in its way.
pub open spec fn held_message(lease: TaskLease, fence: HostFence) -> Seq<char> {
    "another session currently owns this"@ + " task (lease_session="@ + lease.session_id@
        + ", lease_host="@ + lease.host_id@ + ", lease_generation="@ + decimal(
        lease.generation as nat,
    ) + ", current_host="@ + fence.host_id@ + ", current_generation="@ + decimal(
        fence.generation as nat,
    ) + ")"@
}

/// Why a session cannot take its task's lease.
pub open spec fn lease_fault(
    lease: Option<TaskLease>,
    session_id: Seq<char>,
    fence: HostFence,
) -> Option<Fault> {
    first(
        match lease {
            None => None,
            Some(row) => first(
                u64_fault(row.generation, "task lease generation"@),
                if held_by_another(row, session_id, fence) {
                    fault(ErrorCode::TaskLeaseConflict, held_message(row, fence))
                } else {
                    None
                },
            ),
        },
        i64_fault(fence.generation, "task lease generation"@),
    )
}

/// The lease that a session holds after taking its task.
pub open spec fn taken_lease(session_id: String, fence: HostFence) -> TaskLease {
    TaskLease { session_id, host_id: fence.host_id, generation: fence.generation as i64 }
}

/// Takes a task's lease for a session, unless another session of a host that is
/// still current holds it.
pub fn claim_task_lease(lease: &Option<TaskLease>, session_id: &String, fence: &HostFence) -> (result:
    Result<TaskLease, StoreError>)
    ensures
        answers(result, lease_fault(*lease, session_id@, *fence)),
        result is Ok ==> result->Ok_0 == taken_lease(*session_id, *fence),
{
    match lease {
        None => {},
        Some(row) => {
            let generation: u64 = to_u64(row.generation, "task lease generation")?;
            if !same_text(row.session_id.as_str(), session_id.as_str()) && (generation
                > fence.generation || (generation == fence.generation && same_text(
                row.host_id.as_str(),
                fence.host_id.as_str(),
            ))) {
                let held: String = decimal_text(generation);
                let current: String = decimal_text(fence.generation);
                let by_session: String = cat3(
                    "another session currently owns this",
                    " task (lease_session=",
                    row.session_id.as_str(),
                );
                let by_host: String = cat3(
                    by_session.as_str(),
                    ", lease_host=",
                    row.host_id.as_str(),
                );
                let at: String = cat3(by_host.as_str(), ", lease_generation=", held.as_str());
                let against: String = cat3(at.as_str(), ", current_host=", fence.host_id.as_str());
                let message: String = cat4(
                    against.as_str(),
                    ", current_generation=",
                    current.as_str(),
                    ")",
                );
                return Err(StoreError::new(ErrorCode::TaskLeaseConflict, message.as_str()));
            }
        },
    }
    let generation: i64 = to_i64(fence.generation, "task lease generation")?;
    Ok(TaskLease { session_id: session_id.clone(), host_id: fence.host_id.clone(), generation })
}

/// Why a write is out of order.
pub open spec fn sequence_fault(next_sequence: i64, expected_sequence: u64) -> Option<Fault> {
    first(
        u64_fault(next_sequence, "session sequence"@),
        if next_sequence != expected_sequence {
            fault(
                ErrorCode::SequenceConflict,
                "expected sequence "@ + decimal(expected_sequence as nat)
                    + ", current next sequence is "@ + decimal(next_sequence as nat),
            )
        } else {
            None
        },
    )
}

/// Refuses a write that does not continue the journal where it ends.
pub fn ensure_expected_sequence(next_sequence: i64, expected_sequence: u64) -> (result: Result<
    (),
    StoreError,
>)
    ensures
        answers(result, sequence_fault(next_sequence, expected_sequence)),
{
    let actual: u64 = to_u64(next_sequence, "session sequence")?;
    if actual != expected_sequence {
        let wanted: String = decimal_text(expected_sequence);
        let found: String = decimal_text(actual);
        let message: String = cat4(
            "expected sequence ",
            wanted.as_str(),
            ", current next sequence is ",
            found.as_str(),
        );
        return Err(StoreError::new(ErrorCode::SequenceConflict, message.as_str()));
    }
    Ok(())
}

/// The sequence that a session's next write has to carry.
pub open spec fn next_of(session: Option<SessionRow>) -> i64 {
    match session {
        Some(row) => row.next_sequence,
        None => 1,
    }
}

/// Why an existing session cannot take one more event.
pub open spec fn append_fault(
    rows: JournalRows,
    session_id: Seq<char>,
    task_id: Seq<char>,
    expected_sequence: u64,
    fence: HostFence,
) -> Option<Fault> {
    first(
        existing_session_fault(rows.session, task_id),
        first(
            lease_fault(rows.lease, session_id, fence),
            sequence_fault(next_of(rows.session), expected_sequence),
        ),
    )
}

/// What one more event does to its session: it holds the lease afterwards, and
/// its journal is one event longer.
pub open spec fn append_write(
    rows: JournalRows,
    session_id: String,
    expected_sequence: u64,
    fence: HostFence,
) -> JournalWrite {
    JournalWrite {
        create_session: rows.session is None,
        lease: taken_lease(session_id, fence),
        next_sequence: (expected_sequence + 1) as u64,
    }
}

/// Adds one event to an existing session.
pub fn append(
    rows: &JournalRows,
    session_id: &String,
    task_id: &String,
    expected_sequence: u64,
    fence: &HostFence,
) -> (result: Result<JournalWrite, StoreError>)
    ensures
        answers(result, append_fault(*rows, session_id@, task_id@, expected_sequence, *fence)),
        result is Ok ==> result->Ok_0 == append_write(
            *rows,
            *session_id,
            expected_sequence,
            *fence,
        ),
        result is Ok ==> expected_sequence <= i64::MAX,
{
    ensure_session_existing(&rows.session, task_id.as_str())?;
    let lease: TaskLease = claim_task_lease(&rows.lease, session_id, fence)?;
    let next: i64 = match &rows.session {
        Some(row) => row.next_sequence,
        None => 1,
    };
    ensure_expected_sequence(next, expected_sequence)?;
    Ok(JournalWrite { create_session: false, lease, next_sequence: expected_sequence + 1 })
}

/// One more event is added if and only if the session is there and bound to the task, the
/// event is the next one of its journal, and no other session has the task: the lease is
/// free, the session's own, of an earlier generation, or another host's of the same. The
/// session has the lease afterwards, and the next event has the next sequence.
pub proof fn law_next_event_is_appended(
    rows: JournalRows,
    session_id: String,
    task_id: Seq<char>,
    expected_sequence: u64,
    fence: HostFence,
)
    ensures
        append_fault(rows, session_id@, task_id, expected_sequence, fence) is None <==> {
            &&& rows.session is Some
            &&& rows.session->Some_0.task_id is Ok
            &&& rows.session->Some_0.task_id->Ok_0@ == task_id
            &&& rows.session->Some_0.next_sequence == expected_sequence as int
            &&& fence.generation <= i64::MAX
            &&& rows.lease is None || {
                let lease = rows.lease->Some_0;
                &&& 0 <= lease.generation
                &&& lease.session_id@ == session_id@ || lease.generation < fence.generation || (
                lease.generation == fence.generation && lease.host_id@ != fence.host_id@)
            }
        },
        append_fault(rows, session_id@, task_id, expected_sequence, fence) is None ==> {
            let write = append_write(rows, session_id, expected_sequence, fence);
            &&& !write.create_session
            &&& write.next_sequence == expected_sequence + 1
            &&& write.lease.session_id == session_id
            &&& write.lease.host_id == fence.host_id
            &&& write.lease.generation == fence.generation as int
        },
{
}

/// An event that is not the next one of its journal is in conflict with it, whichever it is.
pub proof fn law_other_sequences_conflict(next_sequence: i64, expected_sequence: u64)
    requires
        0 <= next_sequence,
        next_sequence != expected_sequence as int,
    ensures
        sequence_fault(next_sequence, expected_sequence) is Some,
        sequence_fault(next_sequence, expected_sequence)->Some_0.code
            == ErrorCode::SequenceConflict,
{
}

/// A lease that a session has taken keeps every other session of the same host
/// and generation out, and lets its own session in again.
pub proof fn law_lease_is_exclusive(session_id: String, other: Seq<char>, fence: HostFence)
    requires
        fence.generation <= i64::MAX,
    ensures
        lease_fault(Some(taken_lease(session_id, fence)), session_id@, fence) is None,
        other != session_id@ ==> lease_fault(Some(taken_lease(session_id, fence)), other, fence)
            == fault(
            ErrorCode::TaskLeaseConflict,
            held_message(taken_lease(session_id, fence), fence),
        ),
{
}

/// A host of a later generation takes over any lease of an earlier one.
pub proof fn law_later_generation_takes_over(
    session_id: String,
    other: Seq<char>,
    old_fence: HostFence,
    new_fence: HostFence,
)
    requires
        old_fence.generation < new_fence.generation <= i64::MAX,
    ensures
        lease_fault(Some(taken_lease(session_id, old_fence)), other, new_fence) is None,
{
}

/// A sequence number is used once: after an event was added, a second event that
/// expects the same number is refused, and one that expects the next number is
/// in order.
pub proof fn law_sequence_is_used_once(
    rows: JournalRows,
    session_id: String,
    task_id: Seq<char>,
    expected_sequence: u64,
    fence: HostFence,
)
    requires
        append_fault(rows, session_id@, task_id, expected_sequence, fence) is None,
        expected_sequence < i64::MAX,
    ensures
        ({
            let write = append_write(rows, session_id, expected_sequence, fence);
            let after = JournalRows {
                fence_generation: rows.fence_generation,
                session: Some(
                    SessionRow {
                        task_id: rows.session->Some_0.task_id,
                        next_sequence: write.next_sequence as i64,
                    },
                ),
                lease: Some(write.lease),
            };
            &&& append_fault(after, session_id@, task_id, expected_sequence, fence) is Some
            &&& append_fault(after, session_id@, task_id, expected_sequence, fence)->Some_0.code
                == ErrorCode::SequenceConflict
            &&& append_fault(after, session_id@, task_id, (expected_sequence + 1) as u64, fence)
                is None
        }),
{
}

// ---------------------------------------------------------------------------
// Records that describe one event

/// An event, a projection and a marker speak of the same event of one session
/// and task.
pub open spec fn one_event(
    event: EventEnvelope,
    state: WorkingState,
    marker: SourceWorkMarker,
    session_id: Seq<char>,
    task_id: Seq<char>,
    sequence: u64,
) -> bool {
    &&& event.session_id@ == session_id
    &&& event.seq == sequence
    &&& state.session_id@ == session_id
    &&& state.task_id@ == task_id
    &&& state.through_event_seq == sequence
    &&& marker.event_id@ == event.event_id@
    &&& marker.sequence == sequence
}

/// Whether an event, a projection and a marker speak of the same event.
pub fn describe_one_event(
    event: &EventEnvelope,
    state: &WorkingState,
    marker: &SourceWorkMarker,
    session_id: &String,
    task_id: &String,
    sequence: u64,
) -> (same: bool)
    ensures
        same == one_event(*event, *state, *marker, session_id@, task_id@, sequence),
{
    same_text(event.session_id.as_str(), session_id.as_str()) && event.seq == sequence && same_text(
        state.session_id.as_str(),
        session_id.as_str(),
    ) && same_text(state.task_id.as_str(), task_id.as_str()) && state.through_event_seq == sequence
        && same_text(marker.event_id.as_str(), event.event_id.as_str()) && marker.sequence
        == sequence
}

// ---------------------------------------------------------------------------
// Admission

/// What the rules of the records themselves say about an admission.
#[derive(Debug)]
pub struct AdmissionVerdicts {
    pub event: Verdict,
    pub instruction: Verdict,
    pub working_state: Verdict,
}

/// Why an admission is malformed.
pub open spec fn admission_shape_fault(
    commit: AdmissionCommit,
    verdicts: AdmissionVerdicts,
) -> Option<Fault> {
    if blank(commit.raw_text@) {
        fault(ErrorCode::InvalidPayload, "raw user input must not be empty"@)
    } else {
        first(
            verdict_fault(verdicts.event, "input event is invalid: "@),
            first(
                verdict_fault(verdicts.instruction, "instruction ledger entry is invalid: "@),
                first(
                    verdict_fault(verdicts.working_state, "working state is invalid: "@),
                    if one_event(
                        commit.event,
                        commit.working_state,
                        commit.marker,
                        commit.session_id@,
                        commit.task_id@,
                        commit.expected_sequence,
                    ) {
                        None
                    } else {
                        fault(
                            ErrorCode::InvalidPayload,
                            "admission records do not describe one consistent event"@,
                        )
                    },
                ),
            ),
        )
    }
}

/// Refuses a malformed admission.
pub fn validate_admission(commit: &AdmissionCommit, verdicts: &AdmissionVerdicts) -> (result: Result<
    (),
    StoreError,
>)
    ensures
        answers(result, admission_shape_fault(*commit, *verdicts)),
{
    if is_blank(commit.raw_text.as_str()) {
        return Err(StoreError::new(ErrorCode::InvalidPayload, "raw user input must not be empty"));
    }
    check_verdict(&verdicts.event, "input event is invalid: ")?;
    check_verdict(&verdicts.instruction, "instruction ledger entry is invalid: ")?;
    check_verdict(&verdicts.working_state, "working state is invalid: ")?;
    if !describe_one_event(
        &commit.event,
        &commit.working_state,
        &commit.marker,
        &commit.session_id,
        &commit.task_id,
        commit.expected_sequence,
    ) {
        return Err(
            StoreError::new(
                ErrorCode::InvalidPayload,
                "admission records do not describe one consistent event",
            ),
        );
    }
    Ok(())
}

/// An input that was admitted before, as its row is read.
#[derive(Debug)]
pub struct InboxRow {
    pub session_id: String,
    pub task_id: String,
    pub input_hash: String,
    pub event_id: Parsed,
    pub admitted_sequence: i64,
}

impl InboxRow {
    /// The row holds this very input: the same content under the same owners.
    pub open spec fn holds(self, commit: AdmissionCommit) -> bool {
        &&& self.session_id@ == commit.session_id@
        &&& self.task_id@ == commit.task_id@
        &&& self.input_hash@ == commit.input_hash@
    }
}

/// What happens to an input: it was admitted before, or it is written now.
#[derive(Clone, Debug, PartialEq, Eq)]
pub enum AdmissionOutcome {
    Replay(AdmissionAck),
    Commit(JournalWrite, AdmissionAck),
}

/// Why an input that is already in the inbox cannot be answered again.
pub open spec fn replay_fault(row: InboxRow, commit: AdmissionCommit) -> Option<Fault> {
    if row.holds(commit) {
        first(
            stored_fault(
                row.event_id,
                ErrorCode::StorageWriteFailed,
                "stored event ID is invalid"@,
            ),
            u64_fault(row.admitted_sequence, "admitted sequence"@),
        )
    } else {
        fault(
            ErrorCode::IdempotencyConflict,
            "input ID was already admitted with different content or ownership"@,
        )
    }
}

/// Why an input is not admitted, in the order in which the reasons count.
pub open spec fn admission_fault(
    commit: AdmissionCommit,
    verdicts: AdmissionVerdicts,
    fence: HostFence,
    inbox: Option<InboxRow>,
    rows: JournalRows,
) -> Option<Fault> {
    first(
        admission_shape_fault(commit, verdicts),
        first(
            fence_fault(rows.fence_generation, fence),
            match inbox {
                Some(row) => replay_fault(row, commit),
                None => first(
                    session_fault(rows.session, commit.task_id@, commit.expected_sequence),
                    first(
                        lease_fault(rows.lease, commit.session_id@, fence),
                        first(
                            sequence_fault(next_of(rows.session), commit.expected_sequence),
                            i64_fault(commit.working_state.revision, "working state revision"@),
                        ),
                    ),
                ),
            },
        ),
    )
}

/// What an admitted input does and is answered.
pub open spec fn admission_outcome(
    commit: AdmissionCommit,
    fence: HostFence,
    inbox: Option<InboxRow>,
    rows: JournalRows,
) -> AdmissionOutcome {
    match inbox {
        Some(row) => AdmissionOutcome::Replay(
            AdmissionAck {
                input_id: commit.input_id,
                event_id: row.event_id->Ok_0,
                sequence: row.admitted_sequence as u64,
                idempotent_replay: true,
            },
        ),
        None => AdmissionOutcome::Commit(
            append_write(rows, commit.session_id, commit.expected_sequence, fence),
            AdmissionAck {
                input_id: commit.input_id,
                event_id: commit.event.event_id,
                sequence: commit.event.seq,
                idempotent_replay: false,
            },
        ),
    }
}

/// Admits one input, or answers it as it was answered before.
pub fn decide_admission(
    commit: &AdmissionCommit,
    verdicts: &AdmissionVerdicts,
    fence: &HostFence,
    inbox: Option<InboxRow>,
    rows: &JournalRows,
) -> (result: Result<AdmissionOutcome, StoreError>)
    ensures
        answers(result, admission_fault(*commit, *verdicts, *fence, inbox, *rows)),
        result is Ok ==> result->Ok_0 == admission_outcome(*commit, *fence, inbox, *rows),
{
    validate_admission(commit, verdicts)?;
    check_fence(rows.fence_generation, fence)?;
    match inbox {
        Some(row) => {
            if same_text(row.session_id.as_str(), commit.session_id.as_str()) && same_text(
                row.task_id.as_str(),
                commit.task_id.as_str(),
            ) && same_text(row.input_hash.as_str(), commit.input_hash.as_str()) {
                let event_id: String = stored_value(
                    row.event_id,
                    ErrorCode::StorageWriteFailed,
                    "stored event ID is invalid",
                )?;
                let sequence: u64 = to_u64(row.admitted_sequence, "admitted sequence")?;
                return Ok(
                    AdmissionOutcome::Replay(
                        AdmissionAck {
                            input_id: commit.input_id.clone(),
                            event_id,
                            sequence,
                            idempotent_replay: true,
                        },
                    ),
                );
            }
            Err(
                StoreError::new(
                    ErrorCode::IdempotencyConflict,
                    "input ID was already admitted with different content or ownership",
                ),
            )
        },
        None => {
            let create_session: bool = ensure_session(
                &rows.session,
                commit.task_id.as_str(),
                commit.expected_sequence,
            )?;
            let lease: TaskLease = claim_task_lease(&rows.lease, &commit.session_id, fence)?;
            let next: i64 = match &rows.session {
                Some(row) => row.next_sequence,
                None => 1,
            };
            ensure_expected_sequence(next, commit.expected_sequence)?;
            let revision: i64 = to_i64(commit.working_state.revision, "working state revision")?;
            let write: JournalWrite = JournalWrite {
                create_session,
                lease,
                next_sequence: commit.expected_sequence + 1,
            };
            Ok(
                AdmissionOutcome::Commit(
                    write,
                    AdmissionAck {
                        input_id: commit.input_id.clone(),
                        event_id: commit.event.event_id.clone(),
                        sequence: commit.event.seq,
                        idempotent_replay: false,
                    },
                ),
            )
        },
    }
}

/// An input that was not admitted before is admitted if and only if it has text, its records
/// are sound and stand at one place of one session, the host may write, no other session has
/// the task, and that place is the next one: the first of a session that is not there yet,
/// or the next of one that is bound to the same task. It is answered with that place.
pub proof fn law_new_input_is_admitted_at_the_next_place(
    commit: AdmissionCommit,
    verdicts: AdmissionVerdicts,
    fence: HostFence,
    rows: JournalRows,
)
    ensures
        admission_fault(commit, verdicts, fence, None, rows) is None <==> {
            &&& !blank(commit.raw_text@)
            &&& verdicts.event is Ok
            &&& verdicts.instruction is Ok
            &&& verdicts.working_state is Ok
            &&& commit.event.session_id@ == commit.session_id@
            &&& commit.event.seq == commit.expected_sequence
            &&& commit.working_state.session_id@ == commit.session_id@
            &&& commit.working_state.task_id@ == commit.task_id@
            &&& commit.working_state.through_event_seq == commit.expected_sequence
            &&& commit.working_state.revision <= i64::MAX
            &&& commit.marker.event_id@ == commit.event.event_id@
            &&& commit.marker.sequence == commit.expected_sequence
            &&& rows.fence_generation is Some
            &&& rows.fence_generation->Some_0 == fence.generation as int
            &&& fence.generation <= i64::MAX
            &&& rows.lease is None || {
                let lease = rows.lease->Some_0;
                &&& 0 <= lease.generation
                &&& lease.session_id@ == commit.session_id@ || lease.generation < fence.generation || (
                lease.generation == fence.generation && lease.host_id@ != fence.host_id@)
            }
            &&& rows.session is None ==> commit.expected_sequence == 1
            &&& rows.session is Some ==> {
                &&& rows.session->Some_0.task_id is Ok
                &&& rows.session->Some_0.task_id->Ok_0@ == commit.task_id@
                &&& rows.session->Some_0.next_sequence == commit.expected_sequence as int
            }
        },
        admission_fault(commit, verdicts, fence, None, rows) is None ==> {
            let outcome = admission_outcome(commit, fence, None, rows);
            &&& outcome is Commit
            &&& outcome->Commit_0.create_session == (rows.session is None)
            &&& outcome->Commit_0.next_sequence == commit.expected_sequence + 1
            &&& outcome->Commit_0.lease.session_id == commit.session_id
            &&& outcome->Commit_0.lease.host_id == fence.host_id
            &&& outcome->Commit_0.lease.generation == fence.generation as int
            &&& outcome->Commit_1.input_id == commit.input_id
            &&& outcome->Commit_1.event_id == commit.event.event_id
            &&& outcome->Commit_1.sequence == commit.expected_sequence
            &&& !outcome->Commit_1.idempotent_replay
        },
{
}

/// An input that was admitted before is answered with its place from then, whatever has
/// become of its session since, if and only if it comes from the same session and task with
/// the same content. Otherwise it is in conflict.
pub proof fn law_admitted_input_is_answered_again(
    commit: AdmissionCommit,
    verdicts: AdmissionVerdicts,
    fence: HostFence,
    row: InboxRow,
    rows: JournalRows,
)
    requires
        admission_shape_fault(commit, verdicts) is None,
        rows.fence_generation is Some && rows.fence_generation->Some_0 == fence.generation as int,
        row.event_id is Ok,
        0 <= row.admitted_sequence,
    ensures
        admission_fault(commit, verdicts, fence, Some(row), rows) is None <==> {
            &&& row.session_id@ == commit.session_id@
            &&& row.task_id@ == commit.task_id@
            &&& row.input_hash@ == commit.input_hash@
        },
        admission_fault(commit, verdicts, fence, Some(row), rows) is Some ==> admission_fault(
            commit,
            verdicts,
            fence,
            Some(row),
            rows,
        )->Some_0.code == ErrorCode::IdempotencyConflict,
        admission_outcome(commit, fence, Some(row), rows) is Replay,
        admission_outcome(commit, fence, Some(row), rows)->Replay_0.input_id == commit.input_id,
        admission_outcome(commit, fence, Some(row), rows)->Replay_0.event_id
            == row.event_id->Ok_0,
        admission_outcome(commit, fence, Some(row), rows)->Replay_0.sequence
            == row.admitted_sequence,
        admission_outcome(commit, fence, Some(row), rows)->Replay_0.idempotent_replay,
{
}

/// Hands an outcome on to be made durable, once all of it is in its transaction. An
/// input that is written passes the point before its commit: where a failure is armed
/// there, the outcome is withheld, and nothing of it becomes durable.
pub fn finish_admission(plan: &mut StoreFaultPlan, outcome: AdmissionOutcome) -> (result: Result<
    AdmissionOutcome,
    StoreError,
>)
    ensures
        answers(
            result,
            if outcome is Commit {
                injected_fault(old(plan)@, StoreFaultPoint::BeforeAdmissionCommit)
            } else {
                None
            },
        ),
        result is Ok ==> result->Ok_0 == outcome,
        final(plan)@ == if outcome is Commit {
            old(plan)@.remove(StoreFaultPoint::BeforeAdmissionCommit)
        } else {
            old(plan)@
        },
{
    match outcome {
        AdmissionOutcome::Replay(ack) => Ok(AdmissionOutcome::Replay(ack)),
        AdmissionOutcome::Commit(write, ack) => {
            plan.inject(StoreFaultPoint::BeforeAdmissionCommit)?;
            Ok(AdmissionOutcome::Commit(write, ack))
        },
    }
}

/// The inbox row that an admitted input leaves.
pub open spec fn admitted_row(commit: AdmissionCommit) -> InboxRow {
    InboxRow {
        session_id: commit.session_id,
        task_id: commit.task_id,
        input_hash: commit.input_hash,
        event_id: Ok(commit.event.event_id),
        admitted_sequence: commit.event.seq as i64,
    }
}

/// An input is admitted once: handing the same input in again, whatever has
/// happened to its session since, is answered with the event and sequence it was
/// admitted under, and writes nothing.
pub proof fn law_admission_is_idempotent(
    commit: AdmissionCommit,
    verdicts: AdmissionVerdicts,
    fence: HostFence,
    rows: JournalRows,
    later_fence: HostFence,
    later_rows: JournalRows,
)
    requires
        admission_fault(commit, verdicts, fence, None, rows) is None,
        fence_fault(later_rows.fence_generation, later_fence) is None,
    ensures
        admission_fault(
            commit,
            verdicts,
            later_fence,
            Some(admitted_row(commit)),
            later_rows,
        ) is None,
        admission_outcome(commit, later_fence, Some(admitted_row(commit)), later_rows)
            == AdmissionOutcome::Replay(
            AdmissionAck {
                input_id: commit.input_id,
                event_id: commit.event.event_id,
                sequence: commit.event.seq,
                idempotent_replay: true,
            },
        ),
{
}

/// All that an admission reads or adds: the input's inbox row, the rows that guard its
/// journal, and the records of its session.
pub struct AdmissionTables {
    pub inbox: Option<InboxRow>,
    pub rows: JournalRows,
    pub events: Seq<EventEnvelope>,
    pub instructions: Seq<InstructionLedgerEntry>,
    pub projection: Option<WorkingState>,
    pub markers: Seq<SourceWorkMarker>,
}

/// Why an attempt at an admission fails: `decide_admission` refuses the input, or
/// `finish_admission` withholds what was decided.
pub open spec fn admission_attempt_fault(
    commit: AdmissionCommit,
    verdicts: AdmissionVerdicts,
    fence: HostFence,
    tables: AdmissionTables,
    armed: Set<StoreFaultPoint>,
) -> Option<Fault> {
    first(
        admission_fault(commit, verdicts, fence, tables.inbox, tables.rows),
        if tables.inbox is None {
            injected_fault(armed, StoreFaultPoint::BeforeAdmissionCommit)
        } else {
            None
        },
    )
}

/// The armed failures after an attempt: the one before the commit is gone where the
/// attempt came that far.
pub open spec fn armed_after_admission(
    commit: AdmissionCommit,
    verdicts: AdmissionVerdicts,
    fence: HostFence,
    tables: AdmissionTables,
    armed: Set<StoreFaultPoint>,
) -> Set<StoreFaultPoint> {
    if tables.inbox is None && admission_fault(
        commit,
        verdicts,
        fence,
        tables.inbox,
        tables.rows,
    ) is None {
        armed.remove(StoreFaultPoint::BeforeAdmissionCommit)
    } else {
        armed
    }
}

/// The tables once an outcome is durable: an input that is written adds one record of
/// each kind, its session is one event longer, and its lease is taken. An input that
/// was admitted before adds nothing.
pub open spec fn admission_is_durable(
    commit: AdmissionCommit,
    tables: AdmissionTables,
    outcome: AdmissionOutcome,
) -> AdmissionTables {
    match outcome {
        AdmissionOutcome::Replay(_) => tables,
        AdmissionOutcome::Commit(write, _) => AdmissionTables {
            inbox: Some(admitted_row(commit)),
            rows: JournalRows {
                fence_generation: tables.rows.fence_generation,
                session: Some(
                    SessionRow {
                        task_id: Ok(commit.task_id),
                        next_sequence: write.next_sequence as i64,
                    },
                ),
                lease: Some(write.lease),
            },
            events: tables.events.push(commit.event),
            instructions: tables.instructions.push(commit.instruction),
            projection: Some(commit.working_state),
            markers: tables.markers.push(commit.marker),
        },
    }
}

/// The tables after an attempt: what `finish_admission` hands on becomes durable, and an
/// attempt that fails hands on nothing.
pub open spec fn tables_after_admission(
    commit: AdmissionCommit,
    verdicts: AdmissionVerdicts,
    fence: HostFence,
    tables: AdmissionTables,
    armed: Set<StoreFaultPoint>,
) -> AdmissionTables {
    if admission_attempt_fault(commit, verdicts, fence, tables, armed) is Some {
        tables
    } else {
        admission_is_durable(
            commit,
            tables,
            admission_outcome(commit, fence, tables.inbox, tables.rows),
        )
    }
}

/// An admission is stored whole or not at all: where its commit is made to fail, no
/// table has changed and the failure is spent, and the same input again is admitted as
/// if it were handed in for the first time, with all of its records. After that it is
/// answered as before, and nothing is added.
pub proof fn law_failed_admission_leaves_nothing(
    commit: AdmissionCommit,
    verdicts: AdmissionVerdicts,
    fence: HostFence,
    tables: AdmissionTables,
    armed: Set<StoreFaultPoint>,
)
    requires
        tables.inbox is None,
        admission_fault(commit, verdicts, fence, None, tables.rows) is None,
        armed.contains(StoreFaultPoint::BeforeAdmissionCommit),
    ensures
        ({
            let failed = tables_after_admission(commit, verdicts, fence, tables, armed);
            let spent = armed_after_admission(commit, verdicts, fence, tables, armed);
            let stored = tables_after_admission(commit, verdicts, fence, failed, spent);
            let ack = AdmissionAck {
                input_id: commit.input_id,
                event_id: commit.event.event_id,
                sequence: commit.event.seq,
                idempotent_replay: false,
            };
            &&& admission_attempt_fault(commit, verdicts, fence, tables, armed) == fault(
                ErrorCode::StorageWriteFailed,
                "injected durable storage failure at BeforeAdmissionCommit"@,
            )
            &&& failed == tables
            &&& spent == armed.remove(StoreFaultPoint::BeforeAdmissionCommit)
            &&& admission_attempt_fault(commit, verdicts, fence, failed, spent) is None
            &&& admission_outcome(commit, fence, failed.inbox, failed.rows)
                == AdmissionOutcome::Commit(
                append_write(tables.rows, commit.session_id, commit.expected_sequence, fence),
                ack,
            )
            &&& stored.inbox == Some(admitted_row(commit))
            &&& stored.events == tables.events.push(commit.event)
            &&& stored.instructions == tables.instructions.push(commit.instruction)
            &&& stored.projection == Some(commit.working_state)
            &&& stored.markers == tables.markers.push(commit.marker)
            &&& next_of(stored.rows.session) == (commit.expected_sequence + 1) as i64
            &&& stored.rows.lease == Some(taken_lease(commit.session_id, fence))
            &&& tables_after_admission(commit, verdicts, fence, stored, spent) == stored
        }),
{
    reveal_strlit("injected durable storage failure at ");
    reveal_strlit("BeforeAdmissionCommit");
    reveal_strlit("injected durable storage failure at BeforeAdmissionCommit");
    assert("injected durable storage failure at "@ + "BeforeAdmissionCommit"@
        =~= "injected durable storage failure at BeforeAdmissionCommit"@);
}

/// An input identity cannot be used for anything else: other content, another
/// session or another task under the same identity is refused.
pub proof fn law_input_identity_is_not_reused(
    commit: AdmissionCommit,
    other: AdmissionCommit,
    verdicts: AdmissionVerdicts,
    fence: HostFence,
    rows: JournalRows,
)
    requires
        admission_shape_fault(other, verdicts) is None,
        fence_fault(rows.fence_generation, fence) is None,
        other.session_id@ != commit.session_id@ || other.task_id@ != commit.task_id@
            || other.input_hash@ != commit.input_hash@,
    ensures
        admission_fault(other, verdicts, fence, Some(admitted_row(commit)), rows) == fault(
            ErrorCode::IdempotencyConflict,
            "input ID was already admitted with different content or ownership"@,
        ),
{
}

// ---------------------------------------------------------------------------
// Published artifacts

/// The place of an artifact's bytes below the data directory.
pub open spec fn artifact_place(artifact_id: Seq<char>) -> Seq<char> {
    "artifacts/"@ + artifact_id + ".bin"@
}

/// The place of an artifact's bytes below the data directory.
pub fn artifact_path(artifact_id: &str) -> (path: String)
    ensures
        path@ == artifact_place(artifact_id@),
{
    cat3("artifacts/", artifact_id, ".bin")
}

/// The name of the file that an artifact's bytes are first written to.
pub fn artifact_temporary_name(artifact_id: &str) -> (name: String)
    ensures
        name@ == artifact_id@ + ".tmp"@,
{
    cat(artifact_id, ".tmp")
}

/// What is found at the place that an artifact names.
#[derive(Clone, Debug)]
pub enum PublishedFile {
    /// The place cannot be looked at; the text says why.
    Missing(String),
    /// There is something there whose bytes cannot be read; the text says why.
    Unreadable { is_file: bool, byte_len: u64, reason: String },
    /// There is something there, with this digest.
    Present { is_file: bool, byte_len: u64, digest: String },
}

/// Why an artifact cannot be referred to.
pub open spec fn artifact_fault(artifact: PublishedArtifact, file: PublishedFile) -> Option<Fault> {
    if artifact.relative_path@ != artifact_place(artifact.artifact_id@) {
        fault(
            ErrorCode::ArtifactWriteFailed,
            "artifact reference path does not match its stable ID"@,
        )
    } else {
        match file {
            PublishedFile::Missing(reason) => fault(
                ErrorCode::ArtifactWriteFailed,
                "referenced artifact is not published: "@ + reason@,
            ),
            PublishedFile::Unreadable { is_file, byte_len, reason } => if !is_file || byte_len
                != artifact.byte_len {
                fault(
                    ErrorCode::ArtifactWriteFailed,
                    "artifact metadata does not match the published file"@,
                )
            } else {
                fault(
                    ErrorCode::ArtifactWriteFailed,
                    "cannot verify published artifact: "@ + reason@,
                )
            },
            PublishedFile::Present { is_file, byte_len, digest } => if !is_file || byte_len
                != artifact.byte_len {
                fault(
                    ErrorCode::ArtifactWriteFailed,
                    "artifact metadata does not match the published file"@,
                )
            } else if digest@ != artifact.content_hash@ {
                fault(
                    ErrorCode::ArtifactWriteFailed,
                    "artifact content hash does not match the published file"@,
                )
            } else {
                None
            },
        }
    }
}

/// Refuses an artifact that is not what lies at its place.
pub fn check_published_artifact(artifact: &PublishedArtifact, file: &PublishedFile) -> (result:
    Result<(), StoreError>)
    ensures
        answers(result, artifact_fault(*artifact, *file)),
{
    let place: String = artifact_path(artifact.artifact_id.as_str());
    if !same_text(artifact.relative_path.as_str(), place.as_str()) {
        return Err(
            StoreError::new(
                ErrorCode::ArtifactWriteFailed,
                "artifact reference path does not match its stable ID",
            ),
        );
    }
    match file {
        PublishedFile::Missing(reason) => {
            let message: String = cat("referenced artifact is not published: ", reason.as_str());
            Err(StoreError::new(ErrorCode::ArtifactWriteFailed, message.as_str()))
        },
        PublishedFile::Unreadable { is_file, byte_len, reason } => {
            if !*is_file || *byte_len != artifact.byte_len {
                return Err(
                    StoreError::new(
                        ErrorCode::ArtifactWriteFailed,
                        "artifact metadata does not match the published file",
                    ),
                );
            }
            let message: String = cat("cannot verify published artifact: ", reason.as_str());
            Err(StoreError::new(ErrorCode::ArtifactWriteFailed, message.as_str()))
        },
        PublishedFile::Present { is_file, byte_len, digest } => {
            if !*is_file || *byte_len != artifact.byte_len {
                return Err(
                    StoreError::new(
                        ErrorCode::ArtifactWriteFailed,
                        "artifact metadata does not match the published file",
                    ),
                );
            }
            if !same_text(digest.as_str(), artifact.content_hash.as_str()) {
                return Err(
                    StoreError::new(
                        ErrorCode::ArtifactWriteFailed,
                        "artifact content hash does not match the published file",
                    ),
                );
            }
            Ok(())
        },
    }
}

/// A published artifact is accepted if and only if it lies at the place that its identity
/// gives, and is a file there that can be read, of the length and with the digest that the
/// reference says.
pub proof fn law_artifact_is_what_its_reference_says(
    artifact: PublishedArtifact,
    file: PublishedFile,
)
    ensures
        artifact_fault(artifact, file) is None <==> {
            &&& artifact.relative_path@ == "artifacts/"@ + artifact.artifact_id@ + ".bin"@
            &&& file is Present
            &&& file->Present_is_file
            &&& file->Present_byte_len == artifact.byte_len
            &&& file->Present_digest@ == artifact.content_hash@
        },
        artifact_fault(artifact, file) is Some ==> artifact_fault(artifact, file)->Some_0.code
            == ErrorCode::ArtifactWriteFailed,
{
}

/// What lies at the place of a commit's artifact was looked at, where it has one.
pub open spec fn is_looked_at(
    artifact: Option<PublishedArtifact>,
    file: Option<PublishedFile>,
) -> bool {
    artifact is Some ==> file is Some
}

/// Why the artifact of a commit, where it has one, cannot be referred to. The
/// file is what lies at its place; a commit without an artifact looks at none.
pub open spec fn optional_artifact_fault(
    artifact: Option<PublishedArtifact>,
    file: Option<PublishedFile>,
) -> Option<Fault> {
    match artifact {
        None => None,
        Some(published) => artifact_fault(published, file->Some_0),
    }
}

/// Refuses a commit whose artifact is not what lies at its place.
pub fn check_optional_artifact(
    artifact: &Option<PublishedArtifact>,
    file: &Option<PublishedFile>,
) -> (result: Result<(), StoreError>)
    requires
        is_looked_at(*artifact, *file),
    ensures
        answers(result, optional_artifact_fault(*artifact, *file)),
{
    match (artifact, file) {
        (Some(published), Some(found)) => check_published_artifact(published, found),
        _ => Ok(()),
    }
}

/// An artifact whose length no column can hold.
pub open spec fn artifact_length_fault(
    artifact: Option<PublishedArtifact>,
    field: Seq<char>,
) -> Option<Fault> {
    match artifact {
        None => None,
        Some(published) => i64_fault(published.byte_len, field),
    }
}

/// Refuses an artifact whose length no column can hold.
pub fn check_artifact_length(artifact: &Option<PublishedArtifact>, field: &str) -> (result: Result<
    (),
    StoreError,
>)
    ensures
        answers(result, artifact_length_fault(*artifact, field@)),
{
    match artifact {
        None => Ok(()),
        Some(published) => {
            let length: i64 = to_i64(published.byte_len, field)?;
            Ok(())
        },
    }
}

// ---------------------------------------------------------------------------
// Receipts

/// What the rules of the records themselves say about a receipt commit.
#[derive(Debug)]
pub struct ReceiptVerdicts {
    pub event: Verdict,
    pub receipt: Verdict,
    pub working_state: Verdict,
}

/// Why a receipt commit is malformed.
pub open spec fn receipt_shape_fault(commit: ReceiptCommit, verdicts: ReceiptVerdicts) -> Option<
    Fault,
> {
    first(
        verdict_fault(verdicts.event, "receipt event is invalid: "@),
        first(
            verdict_fault(verdicts.receipt, "receipt is invalid: "@),
            first(
                verdict_fault(verdicts.working_state, "working state is invalid: "@),
                if !one_event(
                    commit.event,
                    commit.working_state,
                    commit.marker,
                    commit.session_id@,
                    commit.task_id@,
                    commit.expected_sequence,
                ) || commit.receipt.task_id@ != commit.task_id@ || commit.receipt.observed_at_seq
                    != commit.expected_sequence {
                    fault(
                        ErrorCode::InvalidPayload,
                        "receipt records do not describe one consistent event"@,
                    )
                } else if commit.receipt.artifact_id is Some && commit.artifact is Some {
                    if commit.receipt.artifact_id->Some_0@ == commit.artifact->Some_0.artifact_id@ {
                        None
                    } else {
                        fault(
                            ErrorCode::ArtifactWriteFailed,
                            "receipt artifact ID does not match the published artifact"@,
                        )
                    }
                } else if commit.receipt.artifact_id is Some || commit.artifact is Some {
                    fault(
                        ErrorCode::ArtifactWriteFailed,
                        "receipt artifact ID and published artifact must be supplied together"@,
                    )
                } else {
                    None
                },
            ),
        ),
    )
}

/// Refuses a malformed receipt commit.
pub fn validate_receipt(commit: &ReceiptCommit, verdicts: &ReceiptVerdicts) -> (result: Result<
    (),
    StoreError,
>)
    ensures
        answers(result, receipt_shape_fault(*commit, *verdicts)),
{
    check_verdict(&verdicts.event, "receipt event is invalid: ")?;
    check_verdict(&verdicts.receipt, "receipt is invalid: ")?;
    check_verdict(&verdicts.working_state, "working state is invalid: ")?;
    if !describe_one_event(
        &commit.event,
        &commit.working_state,
        &commit.marker,
        &commit.session_id,
        &commit.task_id,
        commit.expected_sequence,
    ) || !same_text(commit.receipt.task_id.as_str(), commit.task_id.as_str())
        || commit.receipt.observed_at_seq != commit.expected_sequence {
        return Err(
            StoreError::new(
                ErrorCode::InvalidPayload,
                "receipt records do not describe one consistent event",
            ),
        );
    }
    match (&commit.receipt.artifact_id, &commit.artifact) {
        (None, None) => Ok(()),
        (Some(named), Some(published)) => if same_text(
            named.as_str(),
            published.artifact_id.as_str(),
        ) {
            Ok(())
        } else {
            Err(
                StoreError::new(
                    ErrorCode::ArtifactWriteFailed,
                    "receipt artifact ID does not match the published artifact",
                ),
            )
        },
        _ => Err(
            StoreError::new(
                ErrorCode::ArtifactWriteFailed,
                "receipt artifact ID and published artifact must be supplied together",
            ),
        ),
    }
}

/// A receipt that was committed before, as its row is read.
#[derive(Debug)]
pub struct ReceiptRow {
    pub session_id: String,
    pub task_id: String,
    pub event_id: Parsed,
    pub sequence: i64,
    pub receipt_json: String,
}

/// What happens to a receipt: it was committed before, or it is written now.
#[derive(Clone, Debug, PartialEq, Eq)]
pub enum ReceiptOutcome {
    Replay(ReceiptAck),
    Commit(JournalWrite, ReceiptAck),
}

/// Why a receipt is not committed, in the order in which the reasons count.
/// `receipt_json` is the receipt as it is stored.
pub open spec fn receipt_fault(
    commit: ReceiptCommit,
    verdicts: ReceiptVerdicts,
    file: Option<PublishedFile>,
    receipt_json: Seq<char>,
    fence: HostFence,
    existing: Option<ReceiptRow>,
    rows: JournalRows,
) -> Option<Fault> {
    first(
        receipt_shape_fault(commit, verdicts),
        first(
            optional_artifact_fault(commit.artifact, file),
            first(
                fence_fault(rows.fence_generation, fence),
                match existing {
                    Some(row) => if row.session_id@ == commit.session_id@ && row.task_id@
                        == commit.task_id@ && row.receipt_json@ == receipt_json {
                        first(
                            stored_fault(
                                row.event_id,
                                ErrorCode::StorageWriteFailed,
                                "stored receipt event ID is invalid"@,
                            ),
                            u64_fault(row.sequence, "receipt sequence"@),
                        )
                    } else {
                        fault(
                            ErrorCode::IdempotencyConflict,
                            "tool execution ID was already committed with different evidence"@,
                        )
                    },
                    None => first(
                        append_fault(
                            rows,
                            commit.session_id@,
                            commit.task_id@,
                            commit.expected_sequence,
                            fence,
                        ),
                        first(
                            artifact_length_fault(commit.artifact, "artifact byte length"@),
                            i64_fault(commit.working_state.revision, "working state revision"@),
                        ),
                    ),
                },
            ),
        ),
    )
}

/// What a committed receipt does and is answered.
pub open spec fn receipt_outcome(
    commit: ReceiptCommit,
    fence: HostFence,
    existing: Option<ReceiptRow>,
    rows: JournalRows,
) -> ReceiptOutcome {
    match existing {
        Some(row) => ReceiptOutcome::Replay(
            ReceiptAck {
                event_id: row.event_id->Ok_0,
                sequence: row.sequence as u64,
                idempotent_replay: true,
            },
        ),
        None => ReceiptOutcome::Commit(
            append_write(rows, commit.session_id, commit.expected_sequence, fence),
            ReceiptAck {
                event_id: commit.event.event_id,
                sequence: commit.event.seq,
                idempotent_replay: false,
            },
        ),
    }
}

/// Commits one receipt, or answers it as it was answered before.
pub fn decide_receipt(
    commit: &ReceiptCommit,
    verdicts: &ReceiptVerdicts,
    file: &Option<PublishedFile>,
    receipt_json: &str,
    fence: &HostFence,
    existing: Option<ReceiptRow>,
    rows: &JournalRows,
) -> (result: Result<ReceiptOutcome, StoreError>)
    requires
        is_looked_at(commit.artifact, *file),
    ensures
        answers(
            result,
            receipt_fault(*commit, *verdicts, *file, receipt_json@, *fence, existing, *rows),
        ),
        result is Ok ==> result->Ok_0 == receipt_outcome(*commit, *fence, existing, *rows),
{
    validate_receipt(commit, verdicts)?;
    check_optional_artifact(&commit.artifact, file)?;
    check_fence(rows.fence_generation, fence)?;
    match existing {
        Some(row) => {
            if same_text(row.session_id.as_str(), commit.session_id.as_str()) && same_text(
                row.task_id.as_str(),
                commit.task_id.as_str(),
            ) && same_text(row.receipt_json.as_str(), receipt_json) {
                let event_id: String = stored_value(
                    row.event_id,
                    ErrorCode::StorageWriteFailed,
                    "stored receipt event ID is invalid",
                )?;
                let sequence: u64 = to_u64(row.sequence, "receipt sequence")?;
                return Ok(
                    ReceiptOutcome::Replay(
                        ReceiptAck { event_id, sequence, idempotent_replay: true },
                    ),
                );
            }
            Err(
                StoreError::new(
                    ErrorCode::IdempotencyConflict,
                    "tool execution ID was already committed with different evidence",
                ),
            )
        },
        None => {
            let write: JournalWrite = append(
                rows,
                &commit.session_id,
                &commit.task_id,
                commit.expected_sequence,
                fence,
            )?;
            check_artifact_length(&commit.artifact, "artifact byte length")?;
            let revision: i64 = to_i64(commit.working_state.revision, "working state revision")?;
            Ok(
                ReceiptOutcome::Commit(
                    write,
                    ReceiptAck {
                        event_id: commit.event.event_id.clone(),
                        sequence: commit.event.seq,
                        idempotent_replay: false,
                    },
                ),
            )
        },
    }
}

/// A receipt that was not committed before is committed if and only if its records are sound
/// and stand at the next place of its session, it says so itself, and it comes with the
/// artifact that it names or names none. One that was committed before is answered with its
/// place from then if and only if it is the same.
pub proof fn law_receipt_is_committed_at_the_next_place(
    commit: ReceiptCommit,
    verdicts: ReceiptVerdicts,
    file: Option<PublishedFile>,
    receipt_json: Seq<char>,
    fence: HostFence,
    rows: JournalRows,
    row: ReceiptRow,
)
    ensures
        receipt_fault(commit, verdicts, file, receipt_json, fence, None, rows) is None <==> {
            &&& verdicts.event is Ok
            &&& verdicts.receipt is Ok
            &&& verdicts.working_state is Ok
            &&& commit.event.session_id@ == commit.session_id@
            &&& commit.event.seq == commit.expected_sequence
            &&& commit.working_state.session_id@ == commit.session_id@
            &&& commit.working_state.task_id@ == commit.task_id@
            &&& commit.working_state.through_event_seq == commit.expected_sequence
            &&& commit.working_state.revision <= i64::MAX
            &&& commit.marker.event_id@ == commit.event.event_id@
            &&& commit.marker.sequence == commit.expected_sequence
            &&& commit.receipt.task_id@ == commit.task_id@
            &&& commit.receipt.observed_at_seq == commit.expected_sequence
            &&& commit.receipt.artifact_id is Some <==> commit.artifact is Some
            &&& commit.artifact is Some ==> {
                &&& commit.receipt.artifact_id->Some_0@ == commit.artifact->Some_0.artifact_id@
                &&& artifact_fault(commit.artifact->Some_0, file->Some_0) is None
                &&& commit.artifact->Some_0.byte_len <= i64::MAX
            }
            &&& rows.fence_generation is Some
            &&& rows.fence_generation->Some_0 == fence.generation as int
            &&& append_fault(
                rows,
                commit.session_id@,
                commit.task_id@,
                commit.expected_sequence,
                fence,
            ) is None
        },
        receipt_fault(commit, verdicts, file, receipt_json, fence, None, rows) is None
            && row.event_id is Ok && 0 <= row.sequence ==> (receipt_fault(
            commit,
            verdicts,
            file,
            receipt_json,
            fence,
            Some(row),
            rows,
        ) is None <==> row.session_id@ == commit.session_id@ && row.task_id@ == commit.task_id@
            && row.receipt_json@ == receipt_json),
        ({
            let outcome = receipt_outcome(commit, fence, None, rows);
            &&& outcome is Commit
            &&& outcome->Commit_0.next_sequence == (commit.expected_sequence + 1) as u64
            &&& outcome->Commit_1.event_id == commit.event.event_id
            &&& outcome->Commit_1.sequence == commit.event.seq
            &&& !outcome->Commit_1.idempotent_replay
        }),
        ({
            let outcome = receipt_outcome(commit, fence, Some(row), rows);
            &&& outcome is Replay
            &&& row.event_id is Ok ==> outcome->Replay_0.event_id == row.event_id->Ok_0
            &&& 0 <= row.sequence ==> outcome->Replay_0.sequence == row.sequence
            &&& outcome->Replay_0.idempotent_replay
        }),
{
}

/// The row that a committed receipt leaves.
pub open spec fn committed_receipt(commit: ReceiptCommit, receipt_json: String) -> ReceiptRow {
    ReceiptRow {
        session_id: commit.session_id,
        task_id: commit.task_id,
        event_id: Ok(commit.event.event_id),
        sequence: commit.event.seq as i64,
        receipt_json,
    }
}

/// A receipt is committed once: the same evidence is answered as it was before, whatever
/// has happened to its session since and whichever host asks, and writes nothing; other
/// evidence for the same execution, or the same from another session or task, is refused.
/// `other` is well formed, and what lies at the places of both artifacts is theirs.
pub proof fn law_receipt_is_idempotent(
    commit: ReceiptCommit,
    verdicts: ReceiptVerdicts,
    file: Option<PublishedFile>,
    receipt_json: String,
    fence: HostFence,
    rows: JournalRows,
    later_verdicts: ReceiptVerdicts,
    later_file: Option<PublishedFile>,
    later_fence: HostFence,
    later_rows: JournalRows,
    other: ReceiptCommit,
    other_verdicts: ReceiptVerdicts,
    other_file: Option<PublishedFile>,
    other_json: Seq<char>,
)
    requires
        receipt_fault(commit, verdicts, file, receipt_json@, fence, None, rows) is None,
        fence_fault(later_rows.fence_generation, later_fence) is None,
        receipt_shape_fault(commit, later_verdicts) is None,
        optional_artifact_fault(commit.artifact, later_file) is None,
        receipt_shape_fault(other, other_verdicts) is None,
        optional_artifact_fault(other.artifact, other_file) is None,
        other_json != receipt_json@ || other.session_id@ != commit.session_id@ || other.task_id@
            != commit.task_id@,
    ensures
        ({
            let stored = Some(committed_receipt(commit, receipt_json));
            &&& receipt_fault(
                commit,
                later_verdicts,
                later_file,
                receipt_json@,
                later_fence,
                stored,
                later_rows,
            ) is None
            &&& receipt_outcome(commit, later_fence, stored, later_rows) == ReceiptOutcome::Replay(
                ReceiptAck {
                    event_id: commit.event.event_id,
                    sequence: commit.event.seq,
                    idempotent_replay: true,
                },
            )
            &&& receipt_fault(
                other,
                other_verdicts,
                other_file,
                other_json,
                later_fence,
                stored,
                later_rows,
            ) == fault(
                ErrorCode::IdempotencyConflict,
                "tool execution ID was already committed with different evidence"@,
            )
        }),
{
}

// ---------------------------------------------------------------------------
// Single events

/// Why a runtime event and its projection are not written.
pub open spec fn projected_event_fault(
    event: EventEnvelope,
    task_id: Seq<char>,
    state: WorkingState,
    marker: SourceWorkMarker,
    event_verdict: Verdict,
    state_verdict: Verdict,
    fence: HostFence,
    rows: JournalRows,
) -> Option<Fault> {
    first(
        verdict_fault(event_verdict, "runtime event is invalid: "@),
        first(
            verdict_fault(state_verdict, "runtime projection is invalid: "@),
            if event.session_id@ != state.session_id@ || event.seq != state.through_event_seq
                || state.task_id@ != task_id {
                fault(
                    ErrorCode::InvalidPayload,
                    "runtime event and projection identity do not match"@,
                )
            } else {
                first(
                    fence_fault(rows.fence_generation, fence),
                    first(
                        append_fault(rows, event.session_id@, task_id, event.seq, fence),
                        first(
                            i64_fault(state.revision, "working state revision"@),
                            i64_fault(marker.sequence, "marker sequence"@),
                        ),
                    ),
                )
            },
        ),
    )
}

/// Writes a runtime event with its projection and marker.
pub fn decide_projected_event(
    event: &EventEnvelope,
    task_id: &String,
    state: &WorkingState,
    marker: &SourceWorkMarker,
    event_verdict: &Verdict,
    state_verdict: &Verdict,
    fence: &HostFence,
    rows: &JournalRows,
) -> (result: Result<JournalWrite, StoreError>)
    ensures
        answers(
            result,
            projected_event_fault(
                *event,
                task_id@,
                *state,
                *marker,
                *event_verdict,
                *state_verdict,
                *fence,
                *rows,
            ),
        ),
        result is Ok ==> result->Ok_0 == append_write(*rows, event.session_id, event.seq, *fence),
{
    check_verdict(event_verdict, "runtime event is invalid: ")?;
    check_verdict(state_verdict, "runtime projection is invalid: ")?;
    if !same_text(event.session_id.as_str(), state.session_id.as_str()) || event.seq
        != state.through_event_seq || !same_text(state.task_id.as_str(), task_id.as_str()) {
        return Err(
            StoreError::new(
                ErrorCode::InvalidPayload,
                "runtime event and projection identity do not match",
            ),
        );
    }
    check_fence(rows.fence_generation, fence)?;
    let write: JournalWrite = append(rows, &event.session_id, task_id, event.seq, fence)?;
    let revision: i64 = to_i64(state.revision, "working state revision")?;
    let sequence: i64 = to_i64(marker.sequence, "marker sequence")?;
    Ok(write)
}

/// An event of the runtime is added with its projection if and only if both are sound and
/// speak of the same place of the same session and task, and the event can be added there.
pub proof fn law_runtime_event_is_added_with_its_projection(
    event: EventEnvelope,
    task_id: Seq<char>,
    state: WorkingState,
    marker: SourceWorkMarker,
    event_verdict: Verdict,
    state_verdict: Verdict,
    fence: HostFence,
    rows: JournalRows,
)
    ensures
        projected_event_fault(
            event,
            task_id,
            state,
            marker,
            event_verdict,
            state_verdict,
            fence,
            rows,
        ) is None <==> {
            &&& event_verdict is Ok
            &&& state_verdict is Ok
            &&& event.session_id@ == state.session_id@
            &&& event.seq == state.through_event_seq
            &&& state.task_id@ == task_id
            &&& state.revision <= i64::MAX
            &&& marker.sequence <= i64::MAX
            &&& rows.fence_generation is Some
            &&& rows.fence_generation->Some_0 == fence.generation as int
            &&& append_fault(rows, event.session_id@, task_id, event.seq, fence) is None
        },
{
}

/// What a bare event adds to its session.
#[derive(Clone, Debug, PartialEq, Eq)]
pub struct BareEventWrite {
    pub task_id: String,
    pub marker_id: String,
    pub next_sequence: u64,
}

/// Why a bare event is not written.
pub open spec fn bare_event_fault(
    event: EventEnvelope,
    verdict: Verdict,
    fence: HostFence,
    rows: JournalRows,
) -> Option<Fault> {
    first(
        verdict_fault(verdict, "fixture event is invalid: "@),
        first(
            fence_fault(rows.fence_generation, fence),
            match rows.session {
                None => fault(ErrorCode::InvalidPayload, "fixture session does not exist"@),
                Some(row) => first(
                    stored_fault(
                        row.task_id,
                        ErrorCode::StorageWriteFailed,
                        "stored task ID is invalid"@,
                    ),
                    sequence_fault(row.next_sequence, event.seq),
                ),
            },
        ),
    )
}

/// Writes an event on its own, with a marker and without a projection.
pub fn append_event(
    event: &EventEnvelope,
    verdict: &Verdict,
    fence: &HostFence,
    rows: &JournalRows,
) -> (result: Result<BareEventWrite, StoreError>)
    ensures
        answers(result, bare_event_fault(*event, *verdict, *fence, *rows)),
        result is Ok ==> {
            let write = result->Ok_0;
            &&& write.task_id == rows.session->Some_0.task_id->Ok_0
            &&& write.marker_id@ == "fixture-"@ + event.event_id@
            &&& write.next_sequence == event.seq + 1
        },
{
    check_verdict(verdict, "fixture event is invalid: ")?;
    check_fence(rows.fence_generation, fence)?;
    match &rows.session {
        None => Err(
            StoreError::new(ErrorCode::InvalidPayload, "fixture session does not exist"),
        ),
        Some(row) => match &row.task_id {
            Err(_) => Err(
                StoreError::new(ErrorCode::StorageWriteFailed, "stored task ID is invalid"),
            ),
            Ok(task_id) => {
                ensure_expected_sequence(row.next_sequence, event.seq)?;
                Ok(
                    BareEventWrite {
                        task_id: task_id.clone(),
                        marker_id: cat("fixture-", event.event_id.as_str()),
                        next_sequence: event.seq + 1,
                    },
                )
            },
        },
    }
}

/// A bare event is added to a session that is there if and only if it is sound and the next
/// one, whoever has the lease of its task.
pub proof fn law_bare_event_is_added_at_the_next_place(
    event: EventEnvelope,
    verdict: Verdict,
    fence: HostFence,
    rows: JournalRows,
)
    ensures
        bare_event_fault(event, verdict, fence, rows) is None <==> {
            &&& verdict is Ok
            &&& rows.fence_generation is Some
            &&& rows.fence_generation->Some_0 == fence.generation as int
            &&& rows.session is Some
            &&& rows.session->Some_0.task_id is Ok
            &&& rows.session->Some_0.next_sequence == event.seq as int
        },
{
}

/// The sequence that a session's next event has to carry.
pub fn next_sequence(next: Option<i64>) -> (result: Result<u64, StoreError>)
    ensures
        answers(
            result,
            match next {
                None => fault(ErrorCode::InvalidPayload, "session does not exist"@),
                Some(value) => u64_fault(value, "next sequence"@),
            },
        ),
        result is Ok ==> result->Ok_0 == next->Some_0,
{
    match next {
        None => Err(StoreError::new(ErrorCode::InvalidPayload, "session does not exist")),
        Some(value) => to_u64(value, "next sequence"),
    }
}

} // verus!

//! Runs and their frozen steps.
//!
//! One admitted input owns one run. A step is frozen against the revision that
//! its caller has read, together with the budget that it reserves.

use crate::budgets::{
    charge_chain, charge_fault, charged_table, distinct_accounts, is_settlement, lineage, settle_fault,
    settle_reservation, AccountRow, BudgetReservationRecord, BudgetSettlement,
    ReservationOutcome, ReservationRow,
};
use crate::columns::{i64_fault, to_i64, to_u32, to_u64, u32_fault, u64_fault};
use crate::error::{
    answers, fault, first, parsed_option, stored_fault, stored_option, stored_option_fault,
    stored_value, written_option, ErrorCode, Fault, Parsed, StoreError,
};
use crate::journal::{check_fence, fence_fault, HostFence};
use crate::states::RunState;
use crate::text::{cat3, cat4, decimal, decimal_text, same_text};
use vstd::prelude::*;

verus! {

/// One run of an admitted input.
#[derive(Clone, Debug, PartialEq, Eq)]
pub struct RunRecord {
    pub run_id: String,
    pub session_id: String,
    pub task_id: String,
    pub input_id: String,
    pub state: RunState,
    pub acceptance: Option<String>,
    pub stop_reason: Option<String>,
    pub owner_generation: u64,
    pub revision: u64,
    pub budget_id: Option<String>,
    pub awaiting_question_id: Option<String>,
}

/// One frozen step of a run.
#[derive(Clone, Debug, PartialEq, Eq)]
pub struct RunStepRecord {
    pub step_id: String,
    pub run_id: String,
    pub step_index: u32,
    pub request_id: String,
    pub packet_id: String,
    pub manifest_hash: String,
    pub source_sequence: u64,
    pub state: String,
    pub stop_reason: Option<String>,
}

/// A run as its row is read.
#[derive(Debug)]
pub struct RunRow {
    pub run_id: Parsed,
    pub session_id: Parsed,
    pub task_id: Parsed,
    pub input_id: Parsed,
    pub state: String,
    pub acceptance: Option<String>,
    pub stop_reason: Option<String>,
    pub owner_generation: i64,
    pub revision: i64,
    pub budget_id: Option<Parsed>,
    pub awaiting_question_id: Option<Parsed>,
}

/// Why a stored run cannot be read.
pub open spec fn run_row_fault(row: RunRow) -> Option<Fault> {
    let write_failed = ErrorCode::StorageWriteFailed;
    first(
        if forall|state: RunState| #[trigger] state.text() != row.state@ {
            fault(write_failed, "run state is invalid"@)
        } else {
            None
        },
        first(
            stored_fault(row.run_id, write_failed, "run ID is invalid"@),
            first(
                stored_fault(row.session_id, write_failed, "stored session ID is invalid"@),
                first(
                    stored_fault(row.task_id, write_failed, "stored task ID is invalid"@),
                    first(
                        stored_fault(row.input_id, write_failed, "input ID is invalid"@),
                        first(
                            u64_fault(row.owner_generation, "run generation"@),
                            first(
                                u64_fault(row.revision, "run revision"@),
                                first(
                                    stored_option_fault(
                                        row.budget_id,
                                        write_failed,
                                        "budget ID is invalid"@,
                                    ),
                                    stored_option_fault(
                                        row.awaiting_question_id,
                                        write_failed,
                                        "question ID is invalid"@,
                                    ),
                                ),
                            ),
                        ),
                    ),
                ),
            ),
        ),
    )
}

/// The run that a row holds, under the state that its text stands for.
pub open spec fn run_of(row: RunRow, state: RunState) -> RunRecord {
    RunRecord {
        run_id: row.run_id->Ok_0,
        session_id: row.session_id->Ok_0,
        task_id: row.task_id->Ok_0,
        input_id: row.input_id->Ok_0,
        state,
        acceptance: row.acceptance,
        stop_reason: row.stop_reason,
        owner_generation: row.owner_generation as u64,
        revision: row.revision as u64,
        budget_id: parsed_option(row.budget_id),
        awaiting_question_id: parsed_option(row.awaiting_question_id),
    }
}

/// A record is what a row holds.
pub open spec fn run_reads_as(row: RunRow, record: RunRecord) -> bool {
    record.state.text() == row.state@ && record == run_of(row, record.state)
}

/// Reads a run back.
pub fn run_from_row(row: RunRow) -> (result: Result<RunRecord, StoreError>)
    ensures
        answers(result, run_row_fault(row)),
        result is Ok ==> run_reads_as(row, result->Ok_0),
        result is Ok ==> result->Ok_0.revision <= i64::MAX,
{
    let state: RunState = match RunState::parse(row.state.as_str()) {
        Some(state) => state,
        None => {
            return Err(StoreError::new(ErrorCode::StorageWriteFailed, "run state is invalid"));
        },
    };
    assert(state.text() == row.state@);
    let code: ErrorCode = ErrorCode::StorageWriteFailed;
    let run_id: String = stored_value(row.run_id, code, "run ID is invalid")?;
    let session_id: String = stored_value(row.session_id, code, "stored session ID is invalid")?;
    let task_id: String = stored_value(row.task_id, code, "stored task ID is invalid")?;
    let input_id: String = stored_value(row.input_id, code, "input ID is invalid")?;
    let owner_generation: u64 = to_u64(row.owner_generation, "run generation")?;
    let revision: u64 = to_u64(row.revision, "run revision")?;
    let budget_id: Option<String> = stored_option(row.budget_id, code, "budget ID is invalid")?;
    let awaiting_question_id: Option<String> = stored_option(
        row.awaiting_question_id,
        code,
        "question ID is invalid",
    )?;
    Ok(
        RunRecord {
            run_id,
            session_id,
            task_id,
            input_id,
            state,
            acceptance: row.acceptance,
            stop_reason: row.stop_reason,
            owner_generation,
            revision,
            budget_id,
            awaiting_question_id,
        },
    )
}

/// A row holds a run as it is written: its identities and texts as they are, and
/// its numbers, which columns can hold.
pub open spec fn run_is_stored_in(record: RunRecord, row: RunRow) -> bool {
    &&& record.owner_generation <= i64::MAX
    &&& record.revision <= i64::MAX
    &&& row.state@ == record.state.text()
    &&& row == (RunRow {
        run_id: Ok(record.run_id),
        session_id: Ok(record.session_id),
        task_id: Ok(record.task_id),
        input_id: Ok(record.input_id),
        budget_id: written_option(record.budget_id),
        awaiting_question_id: written_option(record.awaiting_question_id),
        owner_generation: record.owner_generation as i64,
        revision: record.revision as i64,
        acceptance: record.acceptance,
        stop_reason: record.stop_reason,
        state: row.state,
    })
}

/// What is written is read back: the row of a run reads without an error, and as
/// the record that it was written from.
pub proof fn law_stored_run_reads_back(record: RunRecord, row: RunRow, read: RunRecord)
    requires
        run_is_stored_in(record, row),
        run_reads_as(row, read),
    ensures
        run_row_fault(row) is None,
        read == record,
{
    crate::states::law_run_state_texts_differ(record.state, read.state);
}

/// A step as its row is read.
#[derive(Debug)]
pub struct StepRow {
    pub step_id: Parsed,
    pub run_id: Parsed,
    pub step_index: i64,
    pub request_id: Parsed,
    pub packet_id: Parsed,
    pub manifest_hash: Parsed,
    pub source_sequence: i64,
    pub state: String,
    pub stop_reason: Option<String>,
}

/// Why a stored step cannot be read.
pub open spec fn step_row_fault(row: StepRow) -> Option<Fault> {
    let write_failed = ErrorCode::StorageWriteFailed;
    first(
        stored_fault(row.step_id, write_failed, "run step ID is invalid"@),
        first(
            stored_fault(row.run_id, write_failed, "run ID is invalid"@),
            first(
                u32_fault(row.step_index, "step index"@, "step index exceeds range"@),
                first(
                    stored_fault(row.request_id, write_failed, "request ID is invalid"@),
                    first(
                        stored_fault(row.packet_id, write_failed, "context packet ID is invalid"@),
                        first(
                            stored_fault(
                                row.manifest_hash,
                                write_failed,
                                "manifest hash is invalid"@,
                            ),
                            u64_fault(row.source_sequence, "source sequence"@),
                        ),
                    ),
                ),
            ),
        ),
    )
}

/// The step that a row holds.
pub open spec fn step_of(row: StepRow) -> RunStepRecord {
    RunStepRecord {
        step_id: row.step_id->Ok_0,
        run_id: row.run_id->Ok_0,
        step_index: row.step_index as u32,
        request_id: row.request_id->Ok_0,
        packet_id: row.packet_id->Ok_0,
        manifest_hash: row.manifest_hash->Ok_0,
        source_sequence: row.source_sequence as u64,
        state: row.state,
        stop_reason: row.stop_reason,
    }
}

/// Reads a step back.
pub fn step_from_row(row: StepRow) -> (result: Result<RunStepRecord, StoreError>)
    ensures
        answers(result, step_row_fault(row)),
        result is Ok ==> result->Ok_0 == step_of(row),
{
    let code: ErrorCode = ErrorCode::StorageWriteFailed;
    let step_id: String = stored_value(row.step_id, code, "run step ID is invalid")?;
    let run_id: String = stored_value(row.run_id, code, "run ID is invalid")?;
    let step_index: u32 = to_u32(row.step_index, "step index", "step index exceeds range")?;
    let request_id: String = stored_value(row.request_id, code, "request ID is invalid")?;
    let packet_id: String = stored_value(row.packet_id, code, "context packet ID is invalid")?;
    let manifest_hash: String = stored_value(row.manifest_hash, code, "manifest hash is invalid")?;
    let source_sequence: u64 = to_u64(row.source_sequence, "source sequence")?;
    Ok(
        RunStepRecord {
            step_id,
            run_id,
            step_index,
            request_id,
            packet_id,
            manifest_hash,
            source_sequence,
            state: row.state,
            stop_reason: row.stop_reason,
        },
    )
}

/// A row holds a step as it is written: its identities and texts as they are, and
/// its numbers, which columns can hold.
pub open spec fn step_is_stored_in(record: RunStepRecord, row: StepRow) -> bool {
    &&& record.source_sequence <= i64::MAX
    &&& row == (StepRow {
        step_id: Ok(record.step_id),
        run_id: Ok(record.run_id),
        request_id: Ok(record.request_id),
        packet_id: Ok(record.packet_id),
        manifest_hash: Ok(record.manifest_hash),
        source_sequence: record.source_sequence as i64,
        step_index: record.step_index as i64,
        state: record.state,
        stop_reason: record.stop_reason,
    })
}

/// What is written is read back: the row of a step reads without an error, and as
/// the record that it was written from.
pub proof fn law_stored_step_reads_back(record: RunStepRecord, row: StepRow, read: RunStepRecord)
    requires
        step_is_stored_in(record, row),
        read == step_of(row),
    ensures
        step_row_fault(row) is None,
        read == record,
{
}

// ---------------------------------------------------------------------------
// Starting

/// What starting a run does.
#[derive(Clone, Debug, PartialEq, Eq)]
pub struct StartedRun {
    pub record: RunRecord,
    /// The run is new.
    pub inserted: bool,
    /// The run was owned by another generation and is taken over.
    pub reclaimed: bool,
}

/// A run that is still open.
pub open spec fn is_open(state: RunState) -> bool {
    state == RunState::Running || state == RunState::Paused
}

/// Why a run is not started. `existing` is the run that the input already has.
pub open spec fn start_fault(
    session_id: Seq<char>,
    task_id: Seq<char>,
    fence: HostFence,
    held: Option<i64>,
    existing: Option<RunRow>,
) -> Option<Fault> {
    first(
        fence_fault(held, fence),
        match existing {
            None => None,
            Some(row) => first(
                run_row_fault(row),
                if row.session_id->Ok_0@ != session_id || row.task_id->Ok_0@ != task_id {
                    fault(
                        ErrorCode::IdempotencyConflict,
                        "input already belongs to a different run scope"@,
                    )
                } else {
                    None
                },
            ),
        },
    )
}

/// What starting a run does: an input without a run gets a new one; an input with
/// one gets it back, taken over where it is open and another generation owned it.
pub open spec fn starts_as(
    run_id: String,
    session_id: String,
    task_id: String,
    input_id: String,
    budget_id: Option<String>,
    fence: HostFence,
    existing: Option<RunRow>,
    started: StartedRun,
) -> bool {
    match existing {
        None => started == (StartedRun {
            record: RunRecord {
                run_id,
                session_id,
                task_id,
                input_id,
                state: RunState::Running,
                acceptance: None,
                stop_reason: None,
                owner_generation: fence.generation,
                revision: 1,
                budget_id,
                awaiting_question_id: None,
            },
            inserted: true,
            reclaimed: false,
        }),
        Some(row) => {
            &&& !started.inserted
            &&& started.record.state.text() == row.state@
            &&& started.reclaimed == (is_open(started.record.state) && row.owner_generation
                != fence.generation)
            &&& started.record == if started.reclaimed {
                RunRecord {
                    owner_generation: fence.generation,
                    ..run_of(row, started.record.state)
                }
            } else {
                run_of(row, started.record.state)
            }
        },
    }
}

/// Starts the run of an input, or hands back the one it has. An open run that
/// another generation owned is taken over; a finished one is left as it is.
pub fn start_run(
    run_id: String,
    session_id: String,
    task_id: String,
    input_id: String,
    budget_id: Option<String>,
    fence: &HostFence,
    held: Option<i64>,
    existing: Option<RunRow>,
) -> (result: Result<StartedRun, StoreError>)
    ensures
        answers(result, start_fault(session_id@, task_id@, *fence, held, existing)),
        result is Ok ==> starts_as(
            run_id,
            session_id,
            task_id,
            input_id,
            budget_id,
            *fence,
            existing,
            result->Ok_0,
        ),
{
    check_fence(held, fence)?;
    match existing {
        None => Ok(
            StartedRun {
                record: RunRecord {
                    run_id,
                    session_id,
                    task_id,
                    input_id,
                    state: RunState::Running,
                    acceptance: None,
                    stop_reason: None,
                    owner_generation: fence.generation,
                    revision: 1,
                    budget_id,
                    awaiting_question_id: None,
                },
                inserted: true,
                reclaimed: false,
            },
        ),
        Some(row) => {
            let mut record: RunRecord = run_from_row(row)?;
            if !same_text(record.session_id.as_str(), session_id.as_str()) || !same_text(
                record.task_id.as_str(),
                task_id.as_str(),
            ) {
                return Err(
                    StoreError::new(
                        ErrorCode::IdempotencyConflict,
                        "input already belongs to a different run scope",
                    ),
                );
            }
            let reclaimed: bool = (record.state == RunState::Running || record.state
                == RunState::Paused) && record.owner_generation != fence.generation;
            if reclaimed {
                record.owner_generation = fence.generation;
            }
            Ok(StartedRun { record, inserted: false, reclaimed })
        },
    }
}

/// An input without a run starts one for any host that may write. An input that has a run is
/// handed that run back if and only if it belongs to the same session and task, and whoever
/// asks for another scope is in conflict. A run that is running or paused under another
/// generation is taken over, and nothing but its owner changes.
pub proof fn law_input_starts_or_takes_over_its_run(
    run_id: String,
    session_id: String,
    task_id: String,
    input_id: String,
    budget_id: Option<String>,
    fence: HostFence,
    held: Option<i64>,
    record: RunRecord,
    row: RunRow,
    started: StartedRun,
)
    requires
        run_is_stored_in(record, row),
    ensures
        start_fault(session_id@, task_id@, fence, held, None) is None <==> {
            &&& held is Some
            &&& held->Some_0 == fence.generation as int
        },
        start_fault(session_id@, task_id@, fence, held, Some(row)) is None <==> {
            &&& held is Some
            &&& held->Some_0 == fence.generation as int
            &&& record.session_id@ == session_id@
            &&& record.task_id@ == task_id@
        },
        start_fault(session_id@, task_id@, fence, held, None) is None && start_fault(
            session_id@,
            task_id@,
            fence,
            held,
            Some(row),
        ) is Some ==> start_fault(session_id@, task_id@, fence, held, Some(row))->Some_0.code
            == ErrorCode::IdempotencyConflict,
        starts_as(run_id, session_id, task_id, input_id, budget_id, fence, None, started) ==> {
            &&& started.inserted
            &&& !started.reclaimed
            &&& started.record.run_id == run_id
            &&& started.record.session_id == session_id
            &&& started.record.task_id == task_id
            &&& started.record.input_id == input_id
            &&& started.record.budget_id == budget_id
            &&& started.record.state == RunState::Running
            &&& started.record.owner_generation == fence.generation
            &&& started.record.revision == 1
            &&& started.record.acceptance is None
            &&& started.record.stop_reason is None
            &&& started.record.awaiting_question_id is None
        },
        starts_as(run_id, session_id, task_id, input_id, budget_id, fence, Some(row), started)
            ==> {
            &&& !started.inserted
            &&& started.reclaimed <==> (record.state == RunState::Running || record.state
                == RunState::Paused) && record.owner_generation != fence.generation
            &&& started.reclaimed ==> started.record.owner_generation == fence.generation
            &&& !started.reclaimed ==> started.record == record
            &&& started.record == (RunRecord {
                owner_generation: started.record.owner_generation,
                ..record
            })
        },
{
    assert(record.state.text() == row.state@);
    crate::states::law_run_state_texts_differ(record.state, started.record.state);
}

/// One input has one run: once its run is stored, starting it again, under whatever
/// id and by whatever generation, gives that run and adds none.
pub proof fn law_input_has_one_run(
    record: RunRecord,
    row: RunRow,
    run_id: String,
    budget_id: Option<String>,
    fence: HostFence,
    held: Option<i64>,
    again: StartedRun,
)
    requires
        run_is_stored_in(record, row),
        fence_fault(held, fence) is None,
        starts_as(
            run_id,
            record.session_id,
            record.task_id,
            record.input_id,
            budget_id,
            fence,
            Some(row),
            again,
        ),
    ensures
        start_fault(record.session_id@, record.task_id@, fence, held, Some(row)) is None,
        !again.inserted,
        again.record == (RunRecord { owner_generation: again.record.owner_generation, ..record }),
        again.record.owner_generation == if is_open(record.state) {
            fence.generation
        } else {
            record.owner_generation
        },
{
    crate::states::law_run_state_texts_differ(record.state, again.record.state);
}

// ---------------------------------------------------------------------------
// Freezing a step

/// What the caller is told about a revision that moved.
pub open spec fn moved_message(expected: u64, found: int) -> Seq<char> {
    "run revision moved: expected "@ + decimal(expected as nat) + ", found "@ + decimal(
        found as nat,
    )
}

fn moved_error(expected: u64, found: u64) -> (error: StoreError)
    ensures
        Some(error@) == fault(ErrorCode::SequenceConflict, moved_message(expected, found as int)),
{
    let wanted: String = decimal_text(expected);
    let actual: String = decimal_text(found);
    let message: String = cat4(
        "run revision moved: expected ",
        wanted.as_str(),
        ", found ",
        actual.as_str(),
    );
    StoreError::new(ErrorCode::SequenceConflict, message.as_str())
}

/// The reservation that an operation already has, as far as freezing looks at it.
#[derive(Clone, Debug)]
pub struct FrozenReservation {
    pub budget_id: String,
    pub upper_bound_tokens: i64,
}

/// Why a step's budget is not reserved.
pub open spec fn step_budget_fault(
    reservation: Option<BudgetReservationRecord>,
    accounts: Seq<AccountRow>,
    existing: Option<FrozenReservation>,
) -> Option<Fault> {
    match reservation {
        None => None,
        Some(wanted) => first(
            i64_fault(wanted.upper_bound_tokens, "reservation bound"@),
            match existing {
                None => charge_fault(
                    accounts,
                    wanted.budget_id@,
                    wanted.upper_bound_tokens as i64,
                    seq![],
                ),
                Some(frozen) => first(
                    u64_fault(frozen.upper_bound_tokens, "reservation bound"@),
                    if frozen.budget_id@ != wanted.budget_id@ || frozen.upper_bound_tokens
                        != wanted.upper_bound_tokens {
                        fault(
                            ErrorCode::IdempotencyConflict,
                            "budget reservation operation is immutable"@,
                        )
                    } else {
                        None
                    },
                ),
            },
        ),
    }
}

/// The accounts after a step's budget was reserved. Only a new reservation is
/// charged.
pub open spec fn step_budget_accounts(
    reservation: Option<BudgetReservationRecord>,
    accounts: Seq<AccountRow>,
    existing: Option<FrozenReservation>,
) -> Seq<AccountRow> {
    if reservation is Some && existing is None {
        charged_table(
            accounts,
            lineage(accounts, reservation->Some_0.budget_id@, seq![]),
            reservation->Some_0.upper_bound_tokens as i64,
        )
    } else {
        accounts
    }
}

fn reserve_step_budget(
    reservation: &Option<BudgetReservationRecord>,
    accounts: Vec<AccountRow>,
    existing: &Option<FrozenReservation>,
) -> (result: Result<Vec<AccountRow>, StoreError>)
    requires
        distinct_accounts(accounts@),
    ensures
        answers(result, step_budget_fault(*reservation, accounts@, *existing)),
        result is Ok ==> result->Ok_0@ == step_budget_accounts(*reservation, accounts@, *existing),
{
    match reservation {
        None => Ok(accounts),
        Some(wanted) => {
            let bound: i64 = to_i64(wanted.upper_bound_tokens, "reservation bound")?;
            match existing {
                None => charge_chain(accounts, wanted.budget_id.as_str(), bound),
                Some(frozen) => {
                    let found: u64 = to_u64(frozen.upper_bound_tokens, "reservation bound")?;
                    if !same_text(frozen.budget_id.as_str(), wanted.budget_id.as_str()) || found
                        != wanted.upper_bound_tokens {
                        return Err(
                            StoreError::new(
                                ErrorCode::IdempotencyConflict,
                                "budget reservation operation is immutable",
                            ),
                        );
                    }
                    Ok(accounts)
                },
            }
        },
    }
}

/// Why a step is not frozen.
pub open spec fn freeze_fault(
    run_id: Seq<char>,
    expected_revision: u64,
    step: RunStepRecord,
    reservation: Option<BudgetReservationRecord>,
    fence: HostFence,
    held: Option<i64>,
    run: Option<RunRow>,
    accounts: Seq<AccountRow>,
    existing: Option<FrozenReservation>,
) -> Option<Fault> {
    first(
        fence_fault(held, fence),
        match run {
            None => fault(ErrorCode::InvalidPayload, "run does not exist"@),
            Some(row) => first(
                run_row_fault(row),
                if row.owner_generation != fence.generation {
                    fault(
                        ErrorCode::StaleWriter,
                        "run is owned by a different host generation"@,
                    )
                } else if row.state@ != RunState::Running.text() {
                    fault(
                        ErrorCode::InvalidStateTransition,
                        "run is "@ + row.state@ + " and cannot freeze a step"@,
                    )
                } else if row.revision != expected_revision {
                    fault(
                        ErrorCode::SequenceConflict,
                        moved_message(expected_revision, row.revision as int),
                    )
                } else if step.run_id@ != run_id {
                    fault(ErrorCode::InvalidPayload, "step belongs to a different run"@)
                } else {
                    first(
                        step_budget_fault(reservation, accounts, existing),
                        i64_fault(step.source_sequence, "step source sequence"@),
                    )
                },
            ),
        },
    )
}

/// What freezing a step does.
#[derive(Debug)]
pub struct FrozenStep {
    /// The run, one revision later.
    pub run: RunRecord,
    /// The reservation is new and its row is written.
    pub reserved: bool,
    pub accounts: Vec<AccountRow>,
}

/// What freezing a step leaves: its run one revision on, and the accounts with its budget
/// reserved where that was still to do.
pub open spec fn freezes_as(
    row: RunRow,
    expected_revision: u64,
    reservation: Option<BudgetReservationRecord>,
    accounts: Seq<AccountRow>,
    existing: Option<FrozenReservation>,
    frozen: FrozenStep,
) -> bool {
    &&& frozen.run == (RunRecord {
        revision: (expected_revision + 1) as u64,
        ..run_of(row, RunState::Running)
    })
    &&& frozen.reserved == (reservation is Some && existing is None)
    &&& frozen.accounts@ == step_budget_accounts(reservation, accounts, existing)
}

/// Freezes a step and reserves its budget: both, or neither.
pub fn freeze_run_step(
    run_id: &str,
    expected_revision: u64,
    step: &RunStepRecord,
    reservation: &Option<BudgetReservationRecord>,
    fence: &HostFence,
    held: Option<i64>,
    run: Option<RunRow>,
    accounts: Vec<AccountRow>,
    existing: &Option<FrozenReservation>,
) -> (result: Result<FrozenStep, StoreError>)
    requires
        distinct_accounts(accounts@),
    ensures
        answers(
            result,
            freeze_fault(
                run_id@,
                expected_revision,
                *step,
                *reservation,
                *fence,
                held,
                run,
                accounts@,
                *existing,
            ),
        ),
        result is Ok ==> freezes_as(
            run->Some_0,
            expected_revision,
            *reservation,
            accounts@,
            *existing,
            result->Ok_0,
        ),
{
    check_fence(held, fence)?;
    let row: RunRow = match run {
        Some(row) => row,
        None => {
            return Err(StoreError::new(ErrorCode::InvalidPayload, "run does not exist"));
        },
    };
    let ghost stored = row;
    let mut current: RunRecord = run_from_row(row)?;
    if current.owner_generation != fence.generation {
        return Err(
            StoreError::new(
                ErrorCode::StaleWriter,
                "run is owned by a different host generation",
            ),
        );
    }
    proof {
        crate::states::law_run_state_texts_differ(current.state, RunState::Running);
    }
    if current.state != RunState::Running {
        let message: String = cat3("run is ", current.state.as_str(), " and cannot freeze a step");
        return Err(StoreError::new(ErrorCode::InvalidStateTransition, message.as_str()));
    }
    if current.revision != expected_revision {
        return Err(moved_error(expected_revision, current.revision));
    }
    if !same_text(step.run_id.as_str(), run_id) {
        return Err(StoreError::new(ErrorCode::InvalidPayload, "step belongs to a different run"));
    }
    let accounts: Vec<AccountRow> = reserve_step_budget(reservation, accounts, existing)?;
    let source: i64 = to_i64(step.source_sequence, "step source sequence")?;
    current.revision = current.revision + 1;
    Ok(
        FrozenStep {
            run: current,
            reserved: reservation.is_some() && existing.is_none(),
            accounts,
        },
    )
}

/// A step is frozen if and only if its run is running, is owned by the host and is at the
/// revision that was expected, the step is one of that run, and its budget can be reserved.
/// A step without a reservation needs no budget.
pub proof fn law_step_of_a_running_run_is_frozen(
    run_id: Seq<char>,
    expected_revision: u64,
    step: RunStepRecord,
    reservation: Option<BudgetReservationRecord>,
    fence: HostFence,
    held: Option<i64>,
    record: RunRecord,
    row: RunRow,
    accounts: Seq<AccountRow>,
    existing: Option<FrozenReservation>,
)
    requires
        run_is_stored_in(record, row),
    ensures
        freeze_fault(
            run_id,
            expected_revision,
            step,
            reservation,
            fence,
            held,
            Some(row),
            accounts,
            existing,
        ) is None <==> {
            &&& held is Some
            &&& held->Some_0 == fence.generation as int
            &&& record.owner_generation == fence.generation
            &&& record.state == RunState::Running
            &&& record.revision == expected_revision
            &&& step.run_id@ == run_id
            &&& step.source_sequence <= i64::MAX
            &&& reservation is None || step_budget_fault(reservation, accounts, existing) is None
        },
        held is Some && held->Some_0 == fence.generation as int && record.owner_generation
            != fence.generation ==> freeze_fault(
            run_id,
            expected_revision,
            step,
            reservation,
            fence,
            held,
            Some(row),
            accounts,
            existing,
        )->Some_0.code == ErrorCode::StaleWriter,
        freeze_fault(
            run_id,
            expected_revision,
            step,
            reservation,
            fence,
            held,
            None,
            accounts,
            existing,
        ) is Some,
{
    assert(record.state.text() == row.state@);
    crate::states::law_run_state_texts_differ(record.state, RunState::Running);
}

/// The budget of a step is reserved if and only if the account and every account above it has
/// the whole bound left, and each of them has then spent it. A step that has its reservation
/// charges nothing again, and the reservation has to be for the same account and bound.
pub proof fn law_step_budget_is_charged_once(
    wanted: BudgetReservationRecord,
    accounts: Seq<AccountRow>,
    chain: Seq<int>,
    frozen: FrozenReservation,
)
    requires
        distinct_accounts(accounts),
        crate::budgets::is_chain(accounts, wanted.budget_id@, chain),
        0 <= frozen.upper_bound_tokens,
    ensures
        step_budget_fault(Some(wanted), accounts, None) is None <==> {
            &&& wanted.upper_bound_tokens <= i64::MAX
            &&& forall|k: int|
                0 <= k < chain.len() ==> {
                    let account = accounts[#[trigger] chain[k]];
                    &&& 0 <= account.limit_tokens
                    &&& 0 <= account.spent_tokens
                    &&& 0 <= account.revision < i64::MAX
                    &&& wanted.upper_bound_tokens > 0 ==> account.spent_tokens
                        + wanted.upper_bound_tokens <= account.limit_tokens
                }
        },
        step_budget_fault(Some(wanted), accounts, None) is None ==> {
            let after = step_budget_accounts(Some(wanted), accounts, None);
            &&& after.len() == accounts.len()
            &&& forall|i: int|
                0 <= i < accounts.len() ==> {
                    &&& chain.contains(i) ==> (#[trigger] after[i]).spent_tokens
                        == accounts[i].spent_tokens + wanted.upper_bound_tokens
                    &&& !chain.contains(i) ==> after[i] == accounts[i]
                }
        },
        step_budget_fault(Some(wanted), accounts, Some(frozen)) is None <==> {
            &&& frozen.budget_id@ == wanted.budget_id@
            &&& frozen.upper_bound_tokens == wanted.upper_bound_tokens as int
        },
        step_budget_accounts(Some(wanted), accounts, Some(frozen)) == accounts,
        step_budget_accounts(None, accounts, None) == accounts,
{
    if wanted.upper_bound_tokens <= i64::MAX {
        crate::budgets::law_charge_is_taken_by_the_whole_chain(
            accounts,
            wanted.budget_id@,
            wanted.upper_bound_tokens as i64,
            chain,
        );
    }
}

/// A revision freezes one step: a second step that expects the revision at which
/// the first was frozen is refused.
pub proof fn law_revision_freezes_one_step(
    run_id: Seq<char>,
    expected_revision: u64,
    step: RunStepRecord,
    second: RunStepRecord,
    reservation: Option<BudgetReservationRecord>,
    fence: HostFence,
    held: Option<i64>,
    run: RunRow,
    after: RunRow,
    accounts: Seq<AccountRow>,
    existing: Option<FrozenReservation>,
)
    requires
        freeze_fault(
            run_id,
            expected_revision,
            step,
            reservation,
            fence,
            held,
            Some(run),
            accounts,
            existing,
        ) is None,
        run.revision < i64::MAX,
        after == (RunRow { revision: (run.revision + 1) as i64, ..run }),
    ensures
        freeze_fault(
            run_id,
            expected_revision,
            second,
            reservation,
            fence,
            held,
            Some(after),
            accounts,
            existing,
        ) == fault(
            ErrorCode::SequenceConflict,
            moved_message(expected_revision, expected_revision + 1),
        ),
{
}

// ---------------------------------------------------------------------------
// Settling a step and finishing a run

/// Why a step cannot be settled.
pub open spec fn settle_step_fault(
    fence: HostFence,
    held: Option<i64>,
    step_exists: bool,
    settlement: Option<BudgetSettlement>,
    row: Option<ReservationRow>,
    accounts: Seq<AccountRow>,
) -> Option<Fault> {
    first(
        fence_fault(held, fence),
        if !step_exists {
            fault(ErrorCode::InvalidPayload, "run step does not exist"@)
        } else {
            match settlement {
                None => None,
                Some(measured) => settle_fault(row, measured.measured_tokens, accounts),
            }
        },
    )
}

/// Settles a step: where it comes with a settlement, its reservation is settled
/// in the same write.
pub fn settle_run_step(
    fence: &HostFence,
    held: Option<i64>,
    step_exists: bool,
    settlement: &Option<BudgetSettlement>,
    row: Option<ReservationRow>,
    accounts: Vec<AccountRow>,
) -> (result: Result<Option<ReservationOutcome>, StoreError>)
    requires
        distinct_accounts(accounts@),
    ensures
        answers(
            result,
            settle_step_fault(*fence, held, step_exists, *settlement, row, accounts@),
        ),
        result is Ok ==> (result->Ok_0 is Some <==> settlement is Some),
        result is Ok && settlement is Some ==> is_settlement(
            result->Ok_0->Some_0,
            row->Some_0,
            settlement->Some_0.measured_tokens,
            accounts@,
        ),
{
    check_fence(held, fence)?;
    if !step_exists {
        return Err(StoreError::new(ErrorCode::InvalidPayload, "run step does not exist"));
    }
    match settlement {
        None => Ok(None),
        Some(measured) => Ok(Some(settle_reservation(measured, row, accounts)?)),
    }
}

/// Why a run cannot be finished.
pub open spec fn finish_fault(
    expected_revision: u64,
    fence: HostFence,
    held: Option<i64>,
    run: Option<RunRow>,
) -> Option<Fault> {
    first(
        fence_fault(held, fence),
        match run {
            None => fault(ErrorCode::InvalidPayload, "run does not exist"@),
            Some(row) => first(
                run_row_fault(row),
                if row.owner_generation != fence.generation {
                    fault(
                        ErrorCode::StaleWriter,
                        "run is owned by a different host generation"@,
                    )
                } else if row.revision != expected_revision {
                    fault(
                        ErrorCode::SequenceConflict,
                        moved_message(expected_revision, row.revision as int),
                    )
                } else {
                    None
                },
            ),
        },
    )
}

/// A run after it was finished: in the state that its owner says, with what there is to say
/// about it, one revision on.
pub open spec fn finished(
    row: RunRow,
    expected_revision: u64,
    state: RunState,
    acceptance: Option<String>,
    stop_reason: Option<String>,
    awaiting_question_id: Option<String>,
) -> RunRecord {
    RunRecord {
        acceptance,
        stop_reason,
        awaiting_question_id,
        revision: (expected_revision + 1) as u64,
        ..run_of(row, state)
    }
}

/// Moves a run to a final or a waiting state, at the revision that its caller has
/// read.
pub fn finish_run(
    expected_revision: u64,
    state: RunState,
    acceptance: Option<String>,
    stop_reason: Option<String>,
    awaiting_question_id: Option<String>,
    fence: &HostFence,
    held: Option<i64>,
    run: Option<RunRow>,
) -> (result: Result<RunRecord, StoreError>)
    ensures
        answers(result, finish_fault(expected_revision, *fence, held, run)),
        result is Ok ==> result->Ok_0 == finished(
            run->Some_0,
            expected_revision,
            state,
            acceptance,
            stop_reason,
            awaiting_question_id,
        ),
{
    check_fence(held, fence)?;
    let row: RunRow = match run {
        Some(row) => row,
        None => {
            return Err(StoreError::new(ErrorCode::InvalidPayload, "run does not exist"));
        },
    };
    let current: RunRecord = run_from_row(row)?;
    if current.owner_generation != fence.generation {
        return Err(
            StoreError::new(
                ErrorCode::StaleWriter,
                "run is owned by a different host generation",
            ),
        );
    }
    if current.revision != expected_revision {
        return Err(moved_error(expected_revision, current.revision));
    }
    Ok(
        RunRecord {
            run_id: current.run_id,
            session_id: current.session_id,
            task_id: current.task_id,
            input_id: current.input_id,
            state,
            acceptance,
            stop_reason,
            owner_generation: current.owner_generation,
            revision: current.revision + 1,
            budget_id: current.budget_id,
            awaiting_question_id,
        },
    )
}

/// The owner of a run finishes it, from any state and into any, if and only if the run is at
/// the revision that was expected. A step that is there is settled without a measurement, or
/// where its reservation is.
pub proof fn law_owner_finishes_its_run(
    expected_revision: u64,
    fence: HostFence,
    held: Option<i64>,
    record: RunRecord,
    row: RunRow,
    settlement: BudgetSettlement,
    reservation: Option<ReservationRow>,
    accounts: Seq<AccountRow>,
)
    requires
        run_is_stored_in(record, row),
    ensures
        finish_fault(expected_revision, fence, held, Some(row)) is None <==> {
            &&& held is Some
            &&& held->Some_0 == fence.generation as int
            &&& record.owner_generation == fence.generation
            &&& record.revision == expected_revision
        },
        finish_fault(expected_revision, fence, held, None) is Some,
        settle_step_fault(fence, held, true, None, reservation, accounts) is None <==> {
            &&& held is Some
            &&& held->Some_0 == fence.generation as int
        },
        settle_step_fault(fence, held, true, Some(settlement), reservation, accounts) is None <==> {
            &&& held is Some
            &&& held->Some_0 == fence.generation as int
            &&& settle_fault(reservation, settlement.measured_tokens, accounts) is None
        },
        settle_step_fault(fence, held, false, None, reservation, accounts) is Some,
        settle_step_fault(fence, held, false, Some(settlement), reservation, accounts) is Some,
{
    assert(record.state.text() == row.state@);
}

/// A run that was finished has the state, the acceptance, the reason and the question that its
/// owner gave, and one that froze a step is running. Either is one revision on and otherwise
/// what it was, and budget was reserved for a step that wanted it and had none.
pub proof fn law_run_moves_one_revision_on(
    record: RunRecord,
    row: RunRow,
    state: RunState,
    acceptance: Option<String>,
    stop_reason: Option<String>,
    awaiting_question_id: Option<String>,
    reservation: Option<BudgetReservationRecord>,
    accounts: Seq<AccountRow>,
    existing: Option<FrozenReservation>,
    frozen: FrozenStep,
)
    requires
        run_is_stored_in(record, row),
        freezes_as(row, record.revision, reservation, accounts, existing, frozen),
    ensures
        ({
            let after = finished(
                row,
                record.revision,
                state,
                acceptance,
                stop_reason,
                awaiting_question_id,
            );
            &&& after.state == state
            &&& after.acceptance == acceptance
            &&& after.stop_reason == stop_reason
            &&& after.awaiting_question_id == awaiting_question_id
            &&& after.revision == record.revision + 1
            &&& after.run_id == record.run_id
            &&& after.session_id == record.session_id
            &&& after.task_id == record.task_id
            &&& after.input_id == record.input_id
            &&& after.owner_generation == record.owner_generation
            &&& after.budget_id == record.budget_id
        }),
        frozen.run == (RunRecord {
            state: RunState::Running,
            revision: (record.revision + 1) as u64,
            ..record
        }),
        frozen.reserved <==> reservation is Some && existing is None,
        !frozen.reserved ==> frozen.accounts@ == accounts,
{
}

/// A host whose generation does not own a run can neither freeze a step of it nor
/// finish it.
pub proof fn law_only_the_owner_moves_a_run(
    run_id: Seq<char>,
    expected_revision: u64,
    step: RunStepRecord,
    reservation: Option<BudgetReservationRecord>,
    fence: HostFence,
    held: Option<i64>,
    run: RunRow,
    accounts: Seq<AccountRow>,
    existing: Option<FrozenReservation>,
)
    requires
        fence_fault(held, fence) is None,
        run_row_fault(run) is None,
        run.owner_generation != fence.generation,
    ensures
        freeze_fault(
            run_id,
            expected_revision,
            step,
            reservation,
            fence,
            held,
            Some(run),
            accounts,
            existing,
        ) == fault(ErrorCode::StaleWriter, "run is owned by a different host generation"@),
        finish_fault(expected_revision, fence, held, Some(run)) == fault(
            ErrorCode::StaleWriter,
            "run is owned by a different host generation"@,
        ),
{
}

} // verus!

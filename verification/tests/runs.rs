use harness_store_sqlite::budgets::{
    AccountRow, BudgetReservationRecord, BudgetSettlement, ReservationRow,
};
use harness_store_sqlite::error::{ErrorCode, StoreError};
use harness_store_sqlite::journal::{AdmissionAck, HostFence};
use harness_store_sqlite::port::{
    check_owner_generation, lease, port_admission, recover_readonly, reservation,
    FrozenBudgetReservation, PortAdmission,
};
use harness_store_sqlite::questions::{
    answer_question, cancel_question, claim_run_commands, command_from_row, complete_run_command,
    enqueue_run_command, open_question, AppliedCommand, CommandMark, CommandRow, QuestionOutcome, QuestionRecord, QuestionRow,
};
use harness_store_sqlite::runs::{
    finish_run, freeze_run_step, run_from_row, settle_run_step, start_run, step_from_row,
    FrozenReservation, RunRow, RunStepRecord, StepRow,
};
use harness_store_sqlite::states::{
    BudgetReservationState, QuestionState, RunCommandKind, RunCommandState, RunState,
};

fn text(value: &str) -> String {
    value.to_owned()
}

fn fence() -> HostFence {
    HostFence { host_id: text("host"), generation: 3 }
}

fn fails<T>(result: Result<T, StoreError>, code: ErrorCode, message: &str) {
    match result {
        Ok(_) => panic!("expected {message}"),
        Err(error) => {
            assert_eq!(error.code(), code);
            assert_eq!(error.message(), message);
        }
    }
}

fn run(state: &str, generation: i64, revision: i64) -> RunRow {
    RunRow {
        run_id: Ok(text("run")),
        session_id: Ok(text("session")),
        task_id: Ok(text("task")),
        input_id: Ok(text("input")),
        state: text(state),
        acceptance: None,
        stop_reason: None,
        owner_generation: generation,
        revision,
        budget_id: None,
        awaiting_question_id: None,
    }
}

fn start(
    task: &str,
    existing: Option<RunRow>,
) -> Result<harness_store_sqlite::runs::StartedRun, StoreError> {
    start_run(
        text("fresh"),
        text("session"),
        text(task),
        text("input"),
        None,
        &fence(),
        Some(3),
        existing,
    )
}

#[test]
fn an_input_owns_one_run() {
    let first = start("task", None).expect("started");
    assert!(first.inserted);
    assert_eq!(first.record.run_id, "fresh");
    assert_eq!(first.record.owner_generation, 3);
    let again = start("task", Some(run("running", 3, 4))).expect("there");
    assert!(!again.inserted && !again.reclaimed);
    assert_eq!(again.record.run_id, "run");
    let taken = start("task", Some(run("paused", 2, 4))).expect("taken over");
    assert!(taken.reclaimed);
    assert_eq!(taken.record.owner_generation, 3);
    let finished = start("task", Some(run("failed", 2, 4))).expect("left");
    assert!(!finished.reclaimed);
    assert_eq!(finished.record.owner_generation, 2);
    fails(
        start("other", Some(run("running", 3, 4))),
        ErrorCode::IdempotencyConflict,
        "input already belongs to a different run scope",
    );
}

fn step(run_id: &str) -> RunStepRecord {
    RunStepRecord {
        step_id: text("step"),
        run_id: text(run_id),
        step_index: 0,
        request_id: text("request"),
        packet_id: text("packet"),
        manifest_hash: text("manifest"),
        source_sequence: 1,
        state: text("frozen"),
        stop_reason: None,
    }
}

fn accounts() -> Vec<AccountRow> {
    vec![AccountRow {
        budget_id: text("budget"),
        parent_budget_id: None,
        limit_tokens: 10,
        spent_tokens: 0,
        revision: 1,
    }]
}

fn reserve(bound: u64) -> Option<BudgetReservationRecord> {
    Some(reservation(FrozenBudgetReservation {
        reservation_id: text("reservation"),
        budget_id: text("budget"),
        operation_id: text("operation"),
        origin: text("step"),
        upper_bound_tokens: bound,
    }))
}

#[test]
fn a_step_is_frozen_with_its_budget() {
    let freeze = |revision: u64, run: Option<RunRow>, bound: u64, existing: Option<FrozenReservation>| {
        freeze_run_step(
            "run",
            revision,
            &step("run"),
            &reserve(bound),
            &fence(),
            Some(3),
            run,
            accounts(),
            &existing,
        )
    };
    let frozen = freeze(4, Some(run("running", 3, 4)), 6, None).expect("frozen");
    assert!(frozen.reserved);
    assert_eq!(frozen.run.revision, 5);
    assert_eq!(frozen.accounts[0].spent_tokens, 6);
    let known = Some(FrozenReservation { budget_id: text("budget"), upper_bound_tokens: 6 });
    let again = freeze(4, Some(run("running", 3, 4)), 6, known).expect("known");
    assert!(!again.reserved);
    assert_eq!(again.accounts[0].spent_tokens, 0);
    fails(
        freeze(4, Some(run("running", 3, 5)), 6, None),
        ErrorCode::SequenceConflict,
        "run revision moved: expected 4, found 5",
    );
    fails(
        freeze(4, Some(run("paused", 3, 4)), 6, None),
        ErrorCode::InvalidStateTransition,
        "run is paused and cannot freeze a step",
    );
    fails(
        freeze(4, Some(run("running", 2, 4)), 6, None),
        ErrorCode::StaleWriter,
        "run is owned by a different host generation",
    );
    fails(
        freeze(4, Some(run("running", 3, 4)), 11, None),
        ErrorCode::BudgetExhausted,
        "budget budget would exceed its limit: 0 + 11 > 10",
    );
    fails(freeze(4, None, 6, None), ErrorCode::InvalidPayload, "run does not exist");
    fails(
        freeze_run_step(
            "run",
            4,
            &step("other"),
            &None,
            &fence(),
            Some(3),
            Some(run("running", 3, 4)),
            accounts(),
            &None,
        ),
        ErrorCode::InvalidPayload,
        "step belongs to a different run",
    );
}

#[test]
fn steps_and_runs_are_finished() {
    let settlement = Some(BudgetSettlement {
        reservation_id: text("reservation"),
        measured_tokens: Some(2),
    });
    let row = || {
        Some(ReservationRow {
            reservation_id: Ok(text("reservation")),
            budget_id: Ok(text("budget")),
            operation_id: text("operation"),
            origin: text("step"),
            upper_bound_tokens: 0,
            settled_tokens: None,
            state: text("reserved"),
            revision: 1,
        })
    };
    let outcome = settle_run_step(&fence(), Some(3), true, &settlement, row(), accounts())
        .expect("settled")
        .expect("with budget");
    assert_eq!(outcome.accounts[0].spent_tokens, 2);
    assert!(settle_run_step(&fence(), Some(3), true, &None, None, accounts())
        .expect("settled")
        .is_none());
    fails(
        settle_run_step(&fence(), Some(3), false, &None, None, accounts()),
        ErrorCode::InvalidPayload,
        "run step does not exist",
    );
    let finished = finish_run(
        4,
        RunState::Paused,
        Some(text("accepted")),
        None,
        Some(text("question")),
        &fence(),
        Some(3),
        Some(run("running", 3, 4)),
    )
    .expect("finished");
    assert_eq!(finished.state, RunState::Paused);
    assert_eq!(finished.revision, 5);
    assert_eq!(finished.awaiting_question_id.as_deref(), Some("question"));
    let owner = lease(finished);
    assert_eq!((owner.revision, owner.owner_generation), (5, 3));
}

#[test]
fn runs_and_steps_are_read_back() {
    assert_eq!(run_from_row(run("canceled", 1, 2)).expect("reads").state, RunState::Canceled);
    fails(
        run_from_row(run("done", 1, 2)),
        ErrorCode::StorageWriteFailed,
        "run state is invalid",
    );
    let row = |index: i64| StepRow {
        step_id: Ok(text("step")),
        run_id: Ok(text("run")),
        step_index: index,
        request_id: Ok(text("request")),
        packet_id: Ok(text("packet")),
        manifest_hash: Ok(text("manifest")),
        source_sequence: 1,
        state: text("frozen"),
        stop_reason: None,
    };
    assert_eq!(step_from_row(row(0)).expect("reads"), step("run"));
    fails(
        step_from_row(row(1 << 33)),
        ErrorCode::StorageWriteFailed,
        "step index exceeds range",
    );
}

fn question(state: &str, answer_hash: Option<&str>) -> QuestionRow {
    QuestionRow {
        question_id: Ok(text("question")),
        scope_key: text("scope"),
        session_id: Ok(text("session")),
        task_id: Ok(text("task")),
        run_id: None,
        kind: text("kind"),
        prompt: text("prompt"),
        payload_json: text("{}"),
        state: text(state),
        answer_json: None,
        answer_hash: answer_hash.map(|hash| Ok(text(hash))),
        answered_by: None,
        expires_at_unix_ms: Some(50),
        created_at_unix_ms: 1,
        answered_at_unix_ms: None,
    }
}

fn answer(hash: &str, now: u64, row: Option<QuestionRow>) -> Result<(QuestionOutcome, bool), StoreError> {
    answer_question(text("\"yes\""), text(hash), text("human"), now, &fence(), Some(3), row)
}

#[test]
fn a_question_is_answered_once() {
    let (outcome, written) = answer("h", 49, Some(question("open", None))).expect("answered");
    assert!(written);
    match outcome {
        QuestionOutcome::Answered(record) => {
            assert_eq!(record.state, QuestionState::Answered);
            assert_eq!(record.answer.as_deref(), Some("\"yes\""));
            assert_eq!(record.answered_at_unix_ms, Some(49));
        }
        _ => panic!("not answered"),
    }
    let again = answer("h", 99, Some(question("answered", Some("h")))).expect("again");
    assert!(matches!(again, (QuestionOutcome::Duplicate(_), false)));
    let other = answer("g", 99, Some(question("answered", Some("h")))).expect("other");
    assert!(matches!(other, (QuestionOutcome::Conflict(_), false)));
    let late = answer("h", 50, Some(question("open", None))).expect("late");
    assert!(matches!(late, (QuestionOutcome::Expired(_), true)));
    let closed = answer("h", 1, Some(question("canceled", None))).expect("closed");
    assert!(matches!(closed, (QuestionOutcome::Expired(_), false)));
    assert!(matches!(answer("h", 1, None), Ok((QuestionOutcome::NotFound, false))));
}

#[test]
fn questions_are_opened_and_canceled() {
    let asked = QuestionRecord {
        question_id: text("question"),
        scope_key: text("scope"),
        session_id: text("session"),
        task_id: text("task"),
        run_id: None,
        kind: text("kind"),
        prompt: text("prompt"),
        payload: text("{}"),
        state: QuestionState::Answered,
        answer: Some(text("1")),
        answer_hash: None,
        answered_by: None,
        expires_at_unix_ms: None,
        created_at_unix_ms: 1,
        answered_at_unix_ms: Some(2),
    };
    let opened = open_question(asked.clone(), &fence(), Some(3), None).expect("opened");
    assert_eq!(opened.state, QuestionState::Open);
    assert_eq!(opened.answer, None);
    let there = open_question(asked, &fence(), Some(3), Some(question("expired", None))).expect("there");
    assert_eq!(there.state, QuestionState::Expired);
    let canceled = cancel_question(&fence(), Some(3), Some(question("open", None))).expect("canceled");
    assert_eq!(canceled.state, QuestionState::Canceled);
    let left = cancel_question(&fence(), Some(3), Some(question("answered", None))).expect("left");
    assert_eq!(left.state, QuestionState::Answered);
    fails(
        cancel_question(&fence(), Some(3), None),
        ErrorCode::InvalidPayload,
        "question does not exist",
    );
    let mut broken = question("open", None);
    broken.payload_json = text("nope");
    fails(
        cancel_question(&fence(), Some(3), Some(broken)),
        ErrorCode::StorageWriteFailed,
        "question payload is invalid",
    );
}

#[test]
fn commands_are_claimed_oldest_first_and_once() {
    let mark = |state: &str, at: Option<i64>| CommandMark { state: text(state), claimed_at_unix_ms: at };
    let waiting =
        vec![mark("applied", Some(1)), mark("pending", None), mark("pending", None), mark("pending", None)];
    let claim = claim_run_commands(waiting, 2, 9, &fence(), Some(3)).expect("claimed");
    assert_eq!(claim.handed_out, vec![false, true, true, false]);
    assert_eq!(
        claim.commands,
        vec![mark("applied", Some(1)), mark("claimed", Some(9)), mark("claimed", Some(9)), mark("pending", None)]
    );
    let later = claim_run_commands(claim.commands, 2, 10, &fence(), Some(3)).expect("claimed");
    assert_eq!(later.handed_out, vec![false, false, false, true]);
    assert_eq!(later.commands[1], mark("claimed", Some(9)));
    assert_eq!(later.commands[3], mark("claimed", Some(10)));
    let two = vec![mark("pending", None), mark("pending", None)];
    let first = claim_run_commands(two, 1, 5, &fence(), Some(3)).expect("claimed");
    assert_eq!(first.handed_out, vec![true, false]);
    let none = claim_run_commands(first.commands.clone(), 0, 5, &fence(), Some(3)).expect("none");
    assert_eq!(none.handed_out, vec![false, false]);
    assert_eq!(none.commands, first.commands);
    let again = claim_run_commands(first.commands, 2, 5, &fence(), Some(3)).expect("claimed");
    assert_eq!(again.handed_out, vec![false, true]);
    assert_eq!(again.commands, vec![mark("claimed", Some(5)), mark("claimed", Some(5))]);
    fails(
        claim_run_commands(Vec::new(), 2, u64::MAX, &fence(), Some(3)),
        ErrorCode::InvalidPayload,
        "command claim time exceeds SQLite integer range",
    );
    let complete = |state: &str, now: u64| {
        let command =
            AppliedCommand { state: text(state), detail: None, applied_at_unix_ms: None };
        let detail = Some(text("done"));
        let applied = RunCommandState::Applied;
        complete_run_command(Some(command), applied, detail, now, &fence(), Some(3))
    };
    let applied = complete("claimed", 9).expect("completed");
    assert_eq!(applied.state, "applied");
    assert_eq!((applied.detail, applied.applied_at_unix_ms), (Some(text("done")), Some(9)));
    for state in ["pending", "applied"] {
        fails(
            complete(state, 9),
            ErrorCode::RuntimeCommandConflict,
            "run command was not claimed by this host",
        );
    }
    fails(
        complete("claimed", u64::MAX),
        ErrorCode::InvalidPayload,
        "command applied time exceeds SQLite integer range",
    );
    let row = |kind: &str| CommandRow {
        command_id: Ok(text("command")),
        run_id: Ok(text("run")),
        session_id: Ok(text("session")),
        task_id: Ok(text("task")),
        kind: text(kind),
        state: text("claimed"),
        payload_json: text("{}"),
        detail: None,
        created_at_unix_ms: 1,
        claimed_at_unix_ms: Some(2),
        applied_at_unix_ms: None,
    };
    let command = command_from_row(row("steer")).expect("reads");
    assert_eq!((command.kind, command.state), (RunCommandKind::Steer, RunCommandState::Claimed));
    assert!(enqueue_run_command(&command, &fence(), Some(3), false).expect("queued"));
    assert!(!enqueue_run_command(&command, &fence(), Some(3), true).expect("known"));
    fails(
        command_from_row(row("stop")),
        ErrorCode::StorageWriteFailed,
        "run command kind is invalid",
    );
}

#[test]
fn the_port_reports_what_is_left_open() {
    let view = recover_readonly(text("session"), Some(5), 1, 2).expect("recovered");
    assert_eq!(view.replayed_through_sequence, 4);
    assert_eq!(view.pending_effects, 3);
    assert_eq!(
        view.blocked_reason.as_deref(),
        Some("unsettled external effects require reconciliation")
    );
    assert!(recover_readonly(text("session"), Some(1), 0, 0)
        .expect("clean")
        .blocked_reason
        .is_none());
    fails(
        recover_readonly(text("session"), Some(0), 0, 0),
        ErrorCode::StorageOpenFailed,
        "stored next session sequence is zero",
    );
    fails(
        check_owner_generation(2, &fence(), "run claim used a stale owner generation"),
        ErrorCode::StaleWriter,
        "run claim used a stale owner generation",
    );
    let ack = AdmissionAck {
        input_id: text("input"),
        event_id: text("event"),
        sequence: 1,
        idempotent_replay: true,
    };
    assert!(matches!(port_admission(ack), PortAdmission::Duplicate(_)));
    assert_eq!(reserve(5).expect("some").state, BudgetReservationState::Reserved);
}

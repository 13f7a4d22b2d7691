use harness_store_sqlite::error::{ErrorCode, Refusal, StoreError};
use harness_store_sqlite::journal::{
    EventEnvelope, HostFence, JournalRows, PublishedArtifact, PublishedFile, SessionRow,
    SourceWorkMarker, ToolExecutionReceipt, WorkingState,
};
use harness_store_sqlite::states::{ToolApprovalState, ToolIntentStatus};
use harness_store_sqlite::tools::{
    artifact_is_scoped, clock_unix_ms, consume_tool_approval, decide_approval_issue,
    decide_approval_revocation, decide_project_reassociation, decide_project_registration,
    decide_tool_intent, decide_tool_settlement, decide_tool_task_update, tool_approval_from_row,
    tool_intent_from_row, ApprovalRow, Clock, EventVerdicts, IntentRow, IssuedApproval,
    ProjectRegistrationRecord, RegisteredRoot, SettledReceiptRow, SettlementVerdicts,
    ToolApprovalBinding, ToolApprovalRecord, ToolApprovalRow, ToolIntentCommit, ToolIntentRecord,
    ToolIntentRow, ToolSettlementCommit, ToolSettlementOutcome, ToolTaskUpdateCommit,
};

fn text(value: &str) -> String {
    value.to_owned()
}

fn fence() -> HostFence {
    HostFence { host_id: text("host"), generation: 3 }
}

fn fails<T>(result: Result<T, StoreError>, code: ErrorCode, message: &str) {
    match result {
        Ok(_) => panic!("expected {message}"),
        Err(error) => {
            assert_eq!(error.code(), code);
            assert_eq!(error.message(), message);
        }
    }
}

fn record() -> ToolApprovalRecord {
    ToolApprovalRecord {
        approval_id: text("approval"),
        actor_id: text("actor"),
        binding_hash: text("binding"),
        action_hash: text("action"),
        workspace_root: text("/root"),
        workspace_fingerprint: text("print"),
        policy_revision: 1,
        tool_revision: 2,
        expires_at_unix_ms: Some(100),
        state: ToolApprovalState::Active,
        approval_json: text("{}"),
    }
}

fn binding() -> ToolApprovalBinding {
    ToolApprovalBinding {
        approval_id: text("approval"),
        actor_id: text("actor"),
        action_hash: text("action"),
        workspace_root: text("/root"),
        workspace_fingerprint: text("print"),
        policy_revision: 1,
        tool_revision: 2,
    }
}

fn approval(state: &str) -> ApprovalRow {
    ApprovalRow {
        actor_id: text("actor"),
        action_hash: text("action"),
        workspace_root: text("/root"),
        workspace_fingerprint: text("print"),
        policy_revision: 1,
        tool_revision: 2,
        expires_at_unix_ms: Some(100),
        state: text(state),
        consumed_by: None,
    }
}

fn event(seq: u64) -> EventEnvelope {
    EventEnvelope {
        event_id: text("event"),
        session_id: text("session"),
        seq,
        continuity_critical: false,
    }
}

fn state(seq: u64) -> WorkingState {
    WorkingState {
        session_id: text("session"),
        task_id: text("task"),
        project_id: text("project"),
        revision: 1,
        through_event_seq: seq,
    }
}

fn marker(seq: u64) -> SourceWorkMarker {
    SourceWorkMarker {
        marker_id: text("marker"),
        event_id: text("event"),
        sequence: seq,
        kind: text("tool"),
        status: text("pending"),
    }
}

fn rows(next_sequence: i64) -> JournalRows {
    JournalRows {
        fence_generation: Some(3),
        session: Some(SessionRow { task_id: Ok(text("task")), next_sequence }),
        lease: None,
    }
}

fn intent() -> ToolIntentCommit {
    ToolIntentCommit {
        expected_sequence: 4,
        event: event(4),
        intent: ToolIntentRecord {
            tool_execution_id: text("execution"),
            session_id: text("session"),
            task_id: text("task"),
            invocation_id: text("invocation"),
            actor_id: text("actor"),
            tool_name: text("tool"),
            action_json: text("{}"),
            action_hash: text("action"),
            workspace_root: text("/root"),
            workspace_fingerprint: text("print"),
            before_fingerprint: None,
            policy_revision: 1,
            tool_revision: 2,
            approval: binding(),
            status: ToolIntentStatus::Recorded,
            intent_sequence: 4,
        },
        working_state: state(4),
        marker: marker(4),
    }
}

fn fine() -> EventVerdicts {
    EventVerdicts { event: Ok(()), working_state: Ok(()) }
}

#[test]
fn approvals_are_issued_once() {
    let canonical = Ok(text("binding"));
    assert!(decide_approval_issue(&record(), &canonical, &fence(), Some(3), &None).expect("new"));
    let same = Some(IssuedApproval { binding_hash: text("binding"), approval_json: text("{}") });
    assert!(!decide_approval_issue(&record(), &canonical, &fence(), Some(3), &same).expect("same"));
    let other = Some(IssuedApproval { binding_hash: text("other"), approval_json: text("{}") });
    fails(
        decide_approval_issue(&record(), &canonical, &fence(), Some(3), &other),
        ErrorCode::IdempotencyConflict,
        "tool approval ID is already bound to different authority",
    );
    fails(
        decide_approval_issue(&record(), &Ok(text("x")), &fence(), Some(3), &None),
        ErrorCode::InvalidHash,
        "tool approval binding hash does not match canonical approval JSON",
    );
    let refused = Err(Refusal { code: ErrorCode::InvalidPayload, text: text("float") });
    fails(
        decide_approval_issue(&record(), &refused, &fence(), Some(3), &None),
        ErrorCode::InvalidPayload,
        "tool approval binding is not canonical: float",
    );
    let mut spent = record();
    spent.state = ToolApprovalState::Consumed;
    fails(
        decide_approval_issue(&spent, &canonical, &fence(), Some(3), &None),
        ErrorCode::InvalidPayload,
        "tool approval has an invalid immutable binding",
    );
}

#[test]
fn only_active_approvals_are_revoked() {
    let active = Some(text("active"));
    assert_eq!(
        decide_approval_revocation("why", &fence(), Some(3), &active).expect("revoked"),
        ToolApprovalState::Revoked
    );
    fails(
        decide_approval_revocation(" ", &fence(), Some(3), &active),
        ErrorCode::InvalidPayload,
        "tool approval revocation reason must not be empty",
    );
    fails(
        decide_approval_revocation("why", &fence(), Some(3), &Some(text("consumed"))),
        ErrorCode::ApprovalRevoked,
        "tool approval is absent, consumed, or already revoked",
    );
}

#[test]
fn an_approval_is_spent_once() {
    let now = Clock::Millis(100);
    let spend = |row: Option<ApprovalRow>, binding: &ToolApprovalBinding, clock: Clock| {
        consume_tool_approval(row, binding, "execution", clock)
    };
    let spent = spend(Some(approval("active")), &binding(), now).expect("spent");
    assert_eq!((spent.state.as_str(), spent.consumed_by.as_deref()), ("consumed", Some("execution")));
    fails(
        spend(Some(spent), &binding(), now),
        ErrorCode::ApprovalConsumed,
        "tool approval has already been consumed",
    );
    fails(
        spend(Some(approval("consumed")), &binding(), now),
        ErrorCode::ApprovalConsumed,
        "tool approval has already been consumed",
    );
    fails(
        spend(Some(approval("revoked")), &binding(), now),
        ErrorCode::ApprovalRevoked,
        "tool approval has been revoked",
    );
    fails(
        spend(None, &binding(), now),
        ErrorCode::ApprovalRequired,
        "tool action has no durable approval",
    );
    fails(
        spend(Some(approval("active")), &binding(), Clock::Millis(101)),
        ErrorCode::ApprovalStale,
        "tool approval has expired",
    );
    let mut moved = binding();
    moved.workspace_fingerprint = text("changed");
    fails(
        spend(Some(approval("active")), &moved, now),
        ErrorCode::ApprovalStale,
        "tool approval binding no longer matches the final action",
    );
    fails(
        spend(Some(approval("active")), &binding(), Clock::BeforeEpoch),
        ErrorCode::ApprovalStale,
        "system clock is before Unix epoch",
    );
    fails(
        clock_unix_ms(Clock::Millis(1 << 70)),
        ErrorCode::ApprovalStale,
        "system clock milliseconds exceed range",
    );
}

#[test]
fn an_intent_is_recorded_once() {
    let canonical = Ok(text("action"));
    let decide = |recorded: Option<IntentRow>, rows: JournalRows, approval: ApprovalRow| {
        decide_tool_intent(
            &intent(),
            &fine(),
            &canonical,
            &fence(),
            &recorded,
            &rows,
            Some(approval),
            Clock::Millis(5),
        )
    };
    let write = decide(None, rows(4), approval("active")).expect("recorded");
    assert_eq!(write.journal.next_sequence, 5);
    assert_eq!(write.approval.consumed_by, Some(intent().intent.tool_execution_id));
    assert_eq!(Some(write.intent.clone()), recorded("recorded"));
    fails(
        decide(None, rows(4), write.approval),
        ErrorCode::ApprovalConsumed,
        "tool approval has already been consumed",
    );
    fails(
        decide(Some(write.intent), rows(4), approval("active")),
        ErrorCode::ToolIntentConflict,
        "tool execution already has a durable intent; reconcile instead of rerunning",
    );
    fails(
        decide(None, rows(5), approval("active")),
        ErrorCode::SequenceConflict,
        "expected sequence 4, current next sequence is 5",
    );
}

#[test]
fn an_intent_matches_its_approval() {
    let canonical = Ok(text("action"));
    let mut commit = intent();
    commit.intent.approval.tool_revision = 3;
    fails(
        decide_tool_intent(
            &commit,
            &fine(),
            &canonical,
            &fence(),
            &None,
            &rows(4),
            Some(approval("active")),
            Clock::Millis(5),
        ),
        ErrorCode::InvalidPayload,
        "tool intent binding is inconsistent",
    );
    fails(
        decide_tool_intent(
            &intent(),
            &fine(),
            &Ok(text("another action")),
            &fence(),
            &None,
            &rows(4),
            Some(approval("active")),
            Clock::Millis(5),
        ),
        ErrorCode::InvalidPayload,
        "tool intent records do not describe one consistent event",
    );
}

fn settlement() -> ToolSettlementCommit {
    ToolSettlementCommit {
        expected_sequence: 6,
        event: event(6),
        receipt: ToolExecutionReceipt {
            tool_execution_id: text("execution"),
            task_id: text("task"),
            observed_at_seq: 6,
            artifact_id: None,
        },
        working_state: state(6),
        marker: marker(6),
        artifact: None,
        final_status: ToolIntentStatus::Settled,
    }
}

fn settlement_fine() -> SettlementVerdicts {
    SettlementVerdicts { event: Ok(()), receipt: Ok(()), working_state: Ok(()) }
}

fn recorded(status: &str) -> Option<IntentRow> {
    Some(IntentRow {
        session_id: text("session"),
        task_id: text("task"),
        status: text(status),
        settlement_receipt_id: None,
    })
}

#[test]
fn an_execution_is_settled_once() {
    let decide = |json: &str, existing: Option<SettledReceiptRow>, intent: Option<IntentRow>| {
        decide_tool_settlement(
            &settlement(),
            &settlement_fine(),
            &None,
            json,
            &fence(),
            existing,
            intent,
            &rows(6),
        )
    };
    let stored = || SettledReceiptRow {
        event_id: Ok(text("event")),
        sequence: 6,
        receipt_json: text("{}"),
    };
    match decide("{}", None, recorded("recorded")).expect("settled") {
        ToolSettlementOutcome::Commit(write, ended, ack) => {
            assert_eq!(write.next_sequence, 7);
            assert_eq!(ended.status, settlement().final_status.as_str());
            assert_eq!(
                ended.settlement_receipt_id,
                Some(settlement().receipt.tool_execution_id)
            );
            fails(
                decide("{}", None, Some(ended)),
                ErrorCode::ToolIntentConflict,
                "tool intent is not eligible for settlement",
            );
            assert_eq!(ack.sequence, 6);
        }
        ToolSettlementOutcome::Replay(_) => panic!("nothing to replay"),
    }
    assert!(matches!(
        decide("{}", Some(stored()), recorded("settled")),
        Ok(ToolSettlementOutcome::Replay(_))
    ));
    fails(
        decide("[]", Some(stored()), recorded("settled")),
        ErrorCode::IdempotencyConflict,
        "tool execution receipt is immutable",
    );
    fails(
        decide("{}", None, recorded("settled")),
        ErrorCode::ToolIntentConflict,
        "tool intent is not eligible for settlement",
    );
    fails(
        decide("{}", None, None),
        ErrorCode::ToolIntentConflict,
        "tool settlement has no durable intent",
    );
}

#[test]
fn settlements_name_their_artifact() {
    let mut commit = settlement();
    commit.receipt.artifact_id = Some(text("a"));
    let decide = |commit: &ToolSettlementCommit, file: Option<PublishedFile>| {
        decide_tool_settlement(
            commit,
            &settlement_fine(),
            &file,
            "{}",
            &fence(),
            None,
            recorded("recorded"),
            &rows(6),
        )
    };
    fails(
        decide(&commit, None),
        ErrorCode::ArtifactWriteFailed,
        "tool settlement artifact binding is inconsistent",
    );
    commit.artifact = Some(PublishedArtifact {
        artifact_id: text("a"),
        content_hash: text("h"),
        byte_len: 1,
        relative_path: text("artifacts/a.bin"),
    });
    let file = |digest: &str| PublishedFile::Present {
        is_file: true,
        byte_len: 1,
        digest: text(digest),
    };
    assert!(decide(&commit, Some(file("h"))).is_ok());
    assert!(decide(&commit, Some(file("other"))).is_err());
    commit.final_status = ToolIntentStatus::Recorded;
    fails(
        decide(&commit, Some(file("h"))),
        ErrorCode::InvalidPayload,
        "tool settlement records do not describe one consistent event",
    );
}

#[test]
fn task_updates_spend_an_approval() {
    let commit = ToolTaskUpdateCommit {
        session_id: text("session"),
        task_id: text("task"),
        expected_sequence: 2,
        event: event(2),
        working_state: state(2),
        marker: marker(2),
        approval: binding(),
    };
    let decide = |approval: Option<ApprovalRow>| {
        decide_tool_task_update(
            &commit,
            &fine(),
            &fence(),
            &rows(2),
            approval,
            Clock::Millis(1),
        )
    };
    let (write, spent) = decide(Some(approval("active"))).expect("written");
    assert_eq!(write.next_sequence, 3);
    assert_eq!((spent.state.as_str(), spent.consumed_by.as_deref()), ("consumed", Some("task_update")));
    fails(
        decide(Some(approval("consumed"))),
        ErrorCode::ApprovalConsumed,
        "tool approval has already been consumed",
    );
    assert!(artifact_is_scoped(1));
    assert!(!artifact_is_scoped(2));
}

fn project(id: &str, git: Option<&str>) -> ProjectRegistrationRecord {
    ProjectRegistrationRecord {
        project_id: text(id),
        canonical_root: text("/work"),
        git_common_dir: git.map(text),
        identity_hash: text("identity"),
    }
}

#[test]
fn a_root_belongs_to_one_project() {
    let root = Some(RegisteredRoot {
        project_id: text("p"),
        git_common_dir: Some(text("/git")),
        identity_hash: text("identity"),
    });
    let register = |record: &ProjectRegistrationRecord, root: &Option<RegisteredRoot>, prior: Vec<Option<String>>| {
        decide_project_registration(record, &fence(), Some(3), root, &prior)
    };
    assert!(!register(&project("p", Some("/git")), &root, vec![]).expect("same"));
    fails(
        register(&project("q", Some("/git")), &root, vec![]),
        ErrorCode::ProjectIdentityConflict,
        "canonical workspace root is already bound to a different project identity",
    );
    assert!(register(&project("p", Some("/git")), &None, vec![Some(text("/git"))]).expect("more"));
    fails(
        register(&project("p", None), &None, vec![None]),
        ErrorCode::ProjectIdentityConflict,
        "a moved or unrelated root requires explicit reassociation",
    );
    assert!(register(&project("p", None), &None, vec![]).expect("first"));
    let mut nowhere = project("p", None);
    nowhere.canonical_root = text(" ");
    fails(
        register(&nowhere, &None, vec![]),
        ErrorCode::ProjectIdentityConflict,
        "project canonical root must not be empty",
    );
}

#[test]
fn a_root_is_replaced_on_request() {
    let replace = |id: &str, old: &str, removed: u64| {
        decide_project_reassociation(
            id,
            old,
            &project("p", None),
            &fence(),
            Some(3),
            removed,
            &None,
            &Vec::new(),
        )
    };
    assert!(replace("p", "/old", 1).expect("replaced"));
    fails(
        replace("q", "/old", 1),
        ErrorCode::ProjectIdentityConflict,
        "project reassociation identity is invalid",
    );
    fails(
        replace("p", "/old", 0),
        ErrorCode::ProjectIdentityConflict,
        "old project root is not registered",
    );
}

fn approval_row() -> ToolApprovalRow {
    ToolApprovalRow {
        approval_id: Ok(text("approval")),
        actor_id: text("actor"),
        binding_hash: Ok(text("binding")),
        action_hash: Ok(text("action")),
        workspace_root: text("/root"),
        workspace_fingerprint: Ok(text("print")),
        policy_revision: 1,
        tool_revision: 2,
        expires_at_unix_ms: Some(100),
        state: text("active"),
        approval_json: text("{}"),
        canonical: Ok(text("binding")),
    }
}

#[test]
fn approvals_are_read_back() {
    assert_eq!(tool_approval_from_row(approval_row()).expect("reads"), record());
    let mut broken = approval_row();
    broken.approval_json = text("{");
    fails(
        tool_approval_from_row(broken),
        ErrorCode::StorageWriteFailed,
        "stored tool approval JSON is invalid",
    );
    let mut unknown = approval_row();
    unknown.state = text("spent");
    fails(
        tool_approval_from_row(unknown),
        ErrorCode::StorageWriteFailed,
        "stored tool approval state is invalid",
    );
    let mut other = approval_row();
    other.canonical = Ok(text("else"));
    fails(
        tool_approval_from_row(other),
        ErrorCode::StorageWriteFailed,
        "stored tool approval binding hash does not match",
    );
}

fn intent_row() -> ToolIntentRow {
    ToolIntentRow {
        tool_execution_id: Ok(text("execution")),
        session_id: Ok(text("session")),
        task_id: Ok(text("task")),
        invocation_id: text("invocation"),
        actor_id: text("actor"),
        tool_name: text("tool"),
        action_json: text("{}"),
        action_hash: Ok(text("action")),
        workspace_root: text("/root"),
        workspace_fingerprint: Ok(text("print")),
        before_fingerprint: None,
        policy_revision: 1,
        tool_revision: 2,
        approval_id: Ok(text("approval")),
        status: text("recorded"),
        intent_sequence: 4,
        canonical: Ok(text("action")),
    }
}

#[test]
fn intents_are_read_back() {
    assert_eq!(tool_intent_from_row(intent_row()).expect("reads"), intent().intent);
    let mut other = intent_row();
    other.canonical = Ok(text("else"));
    fails(
        tool_intent_from_row(other),
        ErrorCode::InvalidHash,
        "content hash does not match canonical content",
    );
    let mut negative = intent_row();
    negative.intent_sequence = -1;
    fails(
        tool_intent_from_row(negative),
        ErrorCode::StorageWriteFailed,
        "stored tool intent sequence is negative",
    );
}

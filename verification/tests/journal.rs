use harness_store_sqlite::columns::{
    to_i64, to_i64_option, to_narrow, to_u32, to_u64, to_u64_option, to_u64_or_zero, to_unsigned,
};
use harness_store_sqlite::error::{ErrorCode, Refusal, StoreError};
use harness_store_sqlite::journal::{
    acquire_fence, append_event, artifact_path, artifact_temporary_name, check_fence,
    check_published_artifact, claim_task_lease, current_generation, decide_admission,
    decide_projected_event, decide_receipt, ensure_session, finish_admission, next_sequence,
    writer_fence,
    AdmissionCommit, AdmissionOutcome, AdmissionVerdicts, EventEnvelope, HostFence, InboxRow,
    InstructionLedgerEntry, JournalRows, PublishedArtifact, PublishedFile, ReceiptCommit,
    ReceiptOutcome, ReceiptRow, ReceiptVerdicts, SessionRow, SourceWorkMarker, TaskLease,
    ToolExecutionReceipt, WorkingState,
};
use harness_store_sqlite::models::{StoreFaultPlan, StoreFaultPoint};
use harness_store_sqlite::text::{is_blank, same_text, signed_text};

fn text(value: &str) -> String {
    value.to_owned()
}

fn fence() -> HostFence {
    HostFence { host_id: text("host"), generation: 3 }
}

fn event(seq: u64) -> EventEnvelope {
    EventEnvelope {
        event_id: text("event"),
        session_id: text("session"),
        seq,
        continuity_critical: true,
    }
}

fn state(seq: u64) -> WorkingState {
    WorkingState {
        session_id: text("session"),
        task_id: text("task"),
        project_id: text("project"),
        revision: 7,
        through_event_seq: seq,
    }
}

fn marker(seq: u64) -> SourceWorkMarker {
    SourceWorkMarker {
        marker_id: text("marker"),
        event_id: text("event"),
        sequence: seq,
        kind: text("input"),
        status: text("pending"),
    }
}

fn admission(seq: u64) -> AdmissionCommit {
    AdmissionCommit {
        session_id: text("session"),
        task_id: text("task"),
        input_id: text("input"),
        input_hash: text("hash"),
        raw_text: text("hello"),
        expected_sequence: seq,
        event: event(seq),
        instruction: InstructionLedgerEntry { instruction_id: text("instruction") },
        working_state: state(seq),
        marker: marker(seq),
    }
}

fn fine() -> AdmissionVerdicts {
    AdmissionVerdicts { event: Ok(()), instruction: Ok(()), working_state: Ok(()) }
}

fn rows(next: Option<i64>, lease: Option<TaskLease>) -> JournalRows {
    JournalRows {
        fence_generation: Some(3),
        session: next.map(|next_sequence| SessionRow { task_id: Ok(text("task")), next_sequence }),
        lease,
    }
}

fn refusal() -> Refusal {
    Refusal { code: ErrorCode::InvalidHash, text: text("no such hash") }
}

fn fails<T>(result: Result<T, StoreError>, code: ErrorCode, message: &str) {
    match result {
        Ok(_) => panic!("expected {message}"),
        Err(error) => {
            assert_eq!(error.code(), code);
            assert_eq!(error.message(), message);
        }
    }
}

#[test]
fn a_failed_admission_leaves_nothing() {
    let mut plan = StoreFaultPlan::with_point(StoreFaultPoint::BeforeAdmissionCommit);
    plan.arm(StoreFaultPoint::BeforeReceiptCommit);
    let decide = |inbox: Option<InboxRow>| {
        decide_admission(&admission(1), &fine(), &fence(), inbox, &rows(None, None)).expect("decided")
    };
    let first = decide(None);
    fails(
        finish_admission(&mut plan, first.clone()),
        ErrorCode::StorageWriteFailed,
        "injected durable storage failure at BeforeAdmissionCommit",
    );
    let again = decide(None);
    assert_eq!(again, first);
    assert_eq!(finish_admission(&mut plan, again), Ok(first));
    plan.arm(StoreFaultPoint::BeforeAdmissionCommit);
    let row = InboxRow {
        session_id: text("session"),
        task_id: text("task"),
        input_hash: text("hash"),
        event_id: Ok(text("event")),
        admitted_sequence: 1,
    };
    let replay = decide(Some(row));
    assert_eq!(finish_admission(&mut plan, replay.clone()), Ok(replay));
    assert!(plan.consume(StoreFaultPoint::BeforeAdmissionCommit));
    assert!(plan.consume(StoreFaultPoint::BeforeReceiptCommit));
}

#[test]
fn a_first_input_opens_its_session() {
    let outcome = decide_admission(&admission(1), &fine(), &fence(), None, &rows(None, None));
    match outcome.expect("admitted") {
        AdmissionOutcome::Commit(write, ack) => {
            assert!(write.create_session);
            assert_eq!(write.next_sequence, 2);
            assert_eq!(write.lease.session_id, "session");
            assert_eq!(write.lease.generation, 3);
            assert_eq!(ack.sequence, 1);
            assert!(!ack.idempotent_replay);
        }
        AdmissionOutcome::Replay(_) => panic!("nothing to replay"),
    }
}

#[test]
fn an_input_is_admitted_once() {
    let row = InboxRow {
        session_id: text("session"),
        task_id: text("task"),
        input_hash: text("hash"),
        event_id: Ok(text("event")),
        admitted_sequence: 1,
    };
    let outcome = decide_admission(&admission(1), &fine(), &fence(), Some(row), &rows(Some(9), None));
    match outcome.expect("replayed") {
        AdmissionOutcome::Replay(ack) => {
            assert!(ack.idempotent_replay);
            assert_eq!(ack.event_id, "event");
            assert_eq!(ack.sequence, 1);
        }
        AdmissionOutcome::Commit(_, _) => panic!("written twice"),
    }
}

#[test]
fn an_input_identity_is_not_reused() {
    let row = InboxRow {
        session_id: text("session"),
        task_id: text("task"),
        input_hash: text("other"),
        event_id: Ok(text("event")),
        admitted_sequence: 1,
    };
    fails(
        decide_admission(&admission(1), &fine(), &fence(), Some(row), &rows(Some(9), None)),
        ErrorCode::IdempotencyConflict,
        "input ID was already admitted with different content or ownership",
    );
}

#[test]
fn malformed_admissions_are_refused() {
    let mut blank = admission(1);
    blank.raw_text = text(" \u{a0}\n");
    fails(
        decide_admission(&blank, &fine(), &fence(), None, &rows(None, None)),
        ErrorCode::InvalidPayload,
        "raw user input must not be empty",
    );
    let mut verdicts = fine();
    verdicts.instruction = Err(refusal());
    fails(
        decide_admission(&admission(1), &verdicts, &fence(), None, &rows(None, None)),
        ErrorCode::InvalidHash,
        "instruction ledger entry is invalid: no such hash",
    );
    let mut torn = admission(1);
    torn.marker.event_id = text("another");
    fails(
        decide_admission(&torn, &fine(), &fence(), None, &rows(None, None)),
        ErrorCode::InvalidPayload,
        "admission records do not describe one consistent event",
    );
}

#[test]
fn a_sequence_is_used_once() {
    fails(
        decide_admission(&admission(4), &fine(), &fence(), None, &rows(Some(5), None)),
        ErrorCode::SequenceConflict,
        "expected sequence 4, current next sequence is 5",
    );
    assert!(decide_admission(&admission(5), &fine(), &fence(), None, &rows(Some(5), None)).is_ok());
}

#[test]
fn sessions_belong_to_one_task() {
    fails(
        ensure_session(&None, "task", 2),
        ErrorCode::SequenceConflict,
        "a new session must admit sequence 1",
    );
    let other = Some(SessionRow { task_id: Ok(text("other")), next_sequence: 1 });
    fails(
        ensure_session(&other, "task", 1),
        ErrorCode::IdempotencyConflict,
        "session is already bound to another task",
    );
    let broken = Some(SessionRow { task_id: Err(refusal()), next_sequence: 1 });
    fails(
        ensure_session(&broken, "task", 1),
        ErrorCode::StorageWriteFailed,
        "stored task ID is invalid",
    );
}

#[test]
fn leases_are_exclusive_within_a_generation() {
    let lease = Some(TaskLease {
        session_id: text("other"),
        host_id: text("host"),
        generation: 3,
    });
    fails(
        claim_task_lease(&lease, &text("session"), &fence()),
        ErrorCode::TaskLeaseConflict,
        &format!(
            "another session currently owns this {} (lease_session=other, lease_host=host, \
             lease_generation=3, current_host=host, current_generation=3)",
            "task"
        ),
    );
    assert!(claim_task_lease(&lease, &text("other"), &fence()).is_ok());
    let older = Some(TaskLease {
        session_id: text("other"),
        host_id: text("host"),
        generation: 2,
    });
    let taken = claim_task_lease(&older, &text("session"), &fence()).expect("superseded");
    assert_eq!(taken.session_id, "session");
    let elsewhere = Some(TaskLease {
        session_id: text("other"),
        host_id: text("elsewhere"),
        generation: 3,
    });
    assert!(claim_task_lease(&elsewhere, &text("session"), &fence()).is_ok());
}

#[test]
fn a_new_generation_stales_the_old_one() {
    let first = acquire_fence(text("one"), 0).expect("first");
    assert_eq!(first.generation, 1);
    assert!(check_fence(current_generation(Some(1), Some(1)), &first).is_ok());
    let second = acquire_fence(text("two"), 1).expect("second");
    assert_eq!(second.generation, 2);
    fails(
        check_fence(current_generation(Some(2), Some(1)), &first),
        ErrorCode::StaleWriter,
        "writer host or generation is no longer current",
    );
    assert!(check_fence(current_generation(Some(2), Some(2)), &second).is_ok());
    fails(
        acquire_fence(text("last"), i64::MAX),
        ErrorCode::StorageWriteFailed,
        "host generation overflow",
    );
    fails(
        writer_fence(&None),
        ErrorCode::ReadOnlyStore,
        "this store was opened without write authority",
    );
}

fn receipt_commit() -> ReceiptCommit {
    ReceiptCommit {
        session_id: text("session"),
        task_id: text("task"),
        expected_sequence: 2,
        event: event(2),
        receipt: ToolExecutionReceipt {
            tool_execution_id: text("execution"),
            task_id: text("task"),
            observed_at_seq: 2,
            artifact_id: None,
        },
        working_state: state(2),
        marker: marker(2),
        artifact: None,
    }
}

fn receipt_fine() -> ReceiptVerdicts {
    ReceiptVerdicts { event: Ok(()), receipt: Ok(()), working_state: Ok(()) }
}

#[test]
fn a_receipt_is_committed_once() {
    let commit = receipt_commit();
    let written = decide_receipt(
        &commit,
        &receipt_fine(),
        &None,
        "{}",
        &fence(),
        None,
        &rows(Some(2), None),
    );
    assert!(matches!(written, Ok(ReceiptOutcome::Commit(_, _))));
    let stored = |json: &str| ReceiptRow {
        session_id: text("session"),
        task_id: text("task"),
        event_id: Ok(text("event")),
        sequence: 2,
        receipt_json: text(json),
    };
    let again = decide_receipt(
        &commit,
        &receipt_fine(),
        &None,
        "{}",
        &fence(),
        Some(stored("{}")),
        &rows(Some(3), None),
    );
    assert!(matches!(again, Ok(ReceiptOutcome::Replay(_))));
    fails(
        decide_receipt(
            &commit,
            &receipt_fine(),
            &None,
            "{}",
            &fence(),
            Some(stored("[]")),
            &rows(Some(3), None),
        ),
        ErrorCode::IdempotencyConflict,
        "tool execution ID was already committed with different evidence",
    );
}

#[test]
fn receipts_name_their_artifact() {
    let mut commit = receipt_commit();
    commit.receipt.artifact_id = Some(text("a"));
    fails(
        decide_receipt(
            &commit,
            &receipt_fine(),
            &None,
            "{}",
            &fence(),
            None,
            &rows(Some(2), None),
        ),
        ErrorCode::ArtifactWriteFailed,
        "receipt artifact ID and published artifact must be supplied together",
    );
    commit.artifact = Some(PublishedArtifact {
        artifact_id: text("b"),
        content_hash: text("h"),
        byte_len: 1,
        relative_path: text("artifacts/b.bin"),
    });
    fails(
        decide_receipt(
            &commit,
            &receipt_fine(),
            &Some(PublishedFile::Missing(text("gone"))),
            "{}",
            &fence(),
            None,
            &rows(Some(2), None),
        ),
        ErrorCode::ArtifactWriteFailed,
        "receipt artifact ID does not match the published artifact",
    );
}

#[test]
fn artifacts_are_what_lies_at_their_place() {
    assert_eq!(artifact_path("x"), "artifacts/x.bin");
    assert_eq!(artifact_temporary_name("x"), "x.tmp");
    let artifact = PublishedArtifact {
        artifact_id: text("x"),
        content_hash: text("digest"),
        byte_len: 4,
        relative_path: text("artifacts/x.bin"),
    };
    let present = |byte_len: u64, digest: &str| PublishedFile::Present {
        is_file: true,
        byte_len,
        digest: text(digest),
    };
    assert!(check_published_artifact(&artifact, &present(4, "digest")).is_ok());
    fails(
        check_published_artifact(&artifact, &present(5, "digest")),
        ErrorCode::ArtifactWriteFailed,
        "artifact metadata does not match the published file",
    );
    fails(
        check_published_artifact(&artifact, &present(4, "other")),
        ErrorCode::ArtifactWriteFailed,
        "artifact content hash does not match the published file",
    );
    fails(
        check_published_artifact(&artifact, &PublishedFile::Missing(text("gone"))),
        ErrorCode::ArtifactWriteFailed,
        "referenced artifact is not published: gone",
    );
    let moved = PublishedArtifact { relative_path: text("artifacts/y.bin"), ..artifact };
    fails(
        check_published_artifact(&moved, &present(4, "digest")),
        ErrorCode::ArtifactWriteFailed,
        "artifact reference path does not match its stable ID",
    );
}

#[test]
fn runtime_events_match_their_projection() {
    let write = decide_projected_event(
        &event(2),
        &text("task"),
        &state(2),
        &marker(2),
        &Ok(()),
        &Ok(()),
        &fence(),
        &rows(Some(2), None),
    )
    .expect("written");
    assert_eq!(write.next_sequence, 3);
    fails(
        decide_projected_event(
            &event(2),
            &text("task"),
            &state(3),
            &marker(2),
            &Ok(()),
            &Ok(()),
            &fence(),
            &rows(Some(2), None),
        ),
        ErrorCode::InvalidPayload,
        "runtime event and projection identity do not match",
    );
}

#[test]
fn bare_events_need_their_session() {
    let write = append_event(&event(2), &Ok(()), &fence(), &rows(Some(2), None)).expect("written");
    assert_eq!(write.marker_id, "fixture-event");
    assert_eq!(write.next_sequence, 3);
    fails(
        append_event(&event(2), &Ok(()), &fence(), &rows(None, None)),
        ErrorCode::InvalidPayload,
        "fixture session does not exist",
    );
    assert_eq!(next_sequence(Some(4)).expect("there"), 4);
    fails(next_sequence(None), ErrorCode::InvalidPayload, "session does not exist");
    fails(
        next_sequence(Some(-4)),
        ErrorCode::StorageWriteFailed,
        "stored next sequence is negative",
    );
}

#[test]
fn columns_keep_their_range() {
    assert_eq!(to_i64(7, "x").expect("fits"), 7);
    fails(
        to_i64(u64::MAX, "event sequence"),
        ErrorCode::InvalidPayload,
        "event sequence exceeds SQLite integer range",
    );
    assert_eq!(to_i64_option(None, "x").expect("none"), None);
    assert_eq!(to_u64_option(Some(3), "x").expect("some"), Some(3));
    fails(to_u64(-1, "x"), ErrorCode::StorageWriteFailed, "stored x is negative");
    fails(
        to_u32(1 << 40, "x", "x exceeds range"),
        ErrorCode::StorageWriteFailed,
        "x exceeds range",
    );
    fails(to_narrow(-1, ErrorCode::InvalidSequence, "bad"), ErrorCode::InvalidSequence, "bad");
    fails(to_unsigned(-1, ErrorCode::SnapshotCorrupt, "bad"), ErrorCode::SnapshotCorrupt, "bad");
    assert_eq!(to_u64_or_zero(-9), 0);
    assert_eq!(to_u64_or_zero(9), 9);
}

#[test]
fn texts_are_compared_by_their_characters() {
    assert!(same_text("straße", "straße"));
    assert!(!same_text("straße", "strasse"));
    assert!(!same_text("a", ""));
    assert!(is_blank(""));
    assert!(is_blank("\t\u{2003}\u{3000}\u{85}"));
    assert!(!is_blank("\u{200b}"));
    for code in 0_u32..0x3100 {
        if let Some(c) = char::from_u32(code) {
            assert_eq!(is_blank(&c.to_string()), c.is_whitespace(), "{code:x}");
        }
    }
    assert_eq!(signed_text(i64::MIN), "-9223372036854775808");
    assert_eq!(signed_text(0), "0");
    assert_eq!(signed_text(120), "120");
}

#[test]
fn errors_keep_code_and_message() {
    let error = StoreError::new(ErrorCode::Other(7), "text");
    assert_eq!(error.code(), ErrorCode::Other(7));
    let harness = error.into_harness_error();
    assert_eq!(harness.code, ErrorCode::Other(7));
    assert_eq!(harness.message, "text");
}

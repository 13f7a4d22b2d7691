use harness_store_sqlite::error::{ErrorCode, Refusal, StoreError};
use harness_store_sqlite::journal::{HostFence, SessionRow};
use harness_store_sqlite::runtime::{
    agent_state_from_row, bump_runtime_command_attempt, checkpoint_from_row, claim_runtime_command,
    complete_runtime_command, composition_from_row, context_packet_from_row,
    continuation_link_from_row, enqueue_runtime_command, frozen_request_from_row,
    persist_composition_snapshot, persist_context_packet, persist_frozen_request,
    persist_provider_attempt, plugin_manifest_from_row, provider_attempt_from_row,
    record_agent_state, record_continuation_link,
    register_plugin_manifest, runtime_command_from_row, session_summary, session_summary_from_row,
    snapshot_from_row, stored_record, write_context_checkpoint_cas, write_snapshot, AgentStateRow,
    CheckpointRow, CompositionRow, ContextPacketRow, ContinuationLinkRecord, FrozenRequestRow,
    OwnedCommand, ProviderAttemptRow,
    RuntimeCommandRow, SessionSummaryRow, SnapshotRow,
};
use harness_store_sqlite::states::RuntimeCommandState;

fn text(value: &str) -> String {
    value.to_owned()
}

fn fence() -> HostFence {
    HostFence { host_id: text("host"), generation: 3 }
}

fn fails<T>(result: Result<T, StoreError>, code: ErrorCode, message: &str) {
    match result {
        Ok(_) => panic!("expected {message}"),
        Err(error) => {
            assert_eq!(error.code(), code);
            assert_eq!(error.message(), message);
        }
    }
}

fn refusal() -> Refusal {
    Refusal { code: ErrorCode::Other(4), text: text("reason") }
}

fn command(state: &str, attempts: i64) -> RuntimeCommandRow {
    RuntimeCommandRow {
        command_id: Ok(text("command")),
        session_id: Ok(text("session")),
        task_id: Ok(text("task")),
        state: text(state),
        attempts,
        owner_generation: 1,
        payload_json: text("{}"),
        last_error: Some(text("error")),
    }
}

#[test]
fn runtime_commands_are_claimed_within_their_limit() {
    let claimed =
        claim_runtime_command(Some(command("pending", 1)), 3, &fence(), Some(3)).expect("claimed");
    assert_eq!(claimed.record.attempts, 2);
    assert_eq!(claimed.record.state, RuntimeCommandState::Claimed);
    assert_eq!(claimed.record.owner_generation, 3);
    assert_eq!(claimed.record.last_error.as_deref(), Some("error"));
    let mut cleared = claimed.record.clone();
    cleared.last_error = None;
    assert_eq!(claimed.stored, Some(cleared));
    let done =
        claim_runtime_command(Some(command("completed", 9)), 3, &fence(), Some(3)).expect("done");
    assert_eq!((done.record.attempts, done.record.owner_generation), (9, 1));
    assert_eq!(done.stored, None);
    fails(
        claim_runtime_command(Some(command("claimed", 3)), 3, &fence(), Some(3)),
        ErrorCode::RetryExhausted,
        "runtime command retry limit reached",
    );
    fails(
        claim_runtime_command(None, 3, &fence(), Some(3)),
        ErrorCode::InvalidPayload,
        "runtime command does not exist",
    );
    let retried = bump_runtime_command_attempt(Some(2), 3, 3, &fence(), Some(3)).expect("bumped");
    assert_eq!((retried.attempts, retried.state), (3, RuntimeCommandState::Claimed));
    fails(
        bump_runtime_command_attempt(Some(3), 3, 3, &fence(), Some(3)),
        ErrorCode::RetryExhausted,
        "runtime command retry limit reached",
    );
    fails(
        bump_runtime_command_attempt(None, 3, 3, &fence(), Some(3)),
        ErrorCode::RuntimeCommandConflict,
        "runtime command owner is stale",
    );
    let complete = |owner: i64, error: Option<&str>| {
        let owned = OwnedCommand {
            owner_generation: owner,
            state: text("claimed"),
            last_error: Some(text("old")),
        };
        let state = RuntimeCommandState::Completed;
        complete_runtime_command(Some(owned), 3, state, error.map(text), &fence(), Some(3))
    };
    let completed = complete(3, None).expect("completed");
    assert_eq!((completed.owner_generation, completed.state.as_str()), (3, "completed"));
    assert_eq!(completed.last_error, None);
    assert_eq!(complete(3, Some("broke")).expect("completed").last_error, Some(text("broke")));
    fails(
        complete(2, None),
        ErrorCode::RuntimeCommandConflict,
        "runtime command owner is stale",
    );
    let record = runtime_command_from_row(command("canceled", 0)).expect("reads");
    assert!(enqueue_runtime_command(&record, &fence(), Some(3), false).expect("queued"));
    let mut broken = command("pending", 0);
    broken.payload_json = text("'");
    fails(
        runtime_command_from_row(broken),
        ErrorCode::StorageWriteFailed,
        "stored command payload is invalid",
    );
}

fn composition(content: &str, canonical: &str) -> CompositionRow {
    CompositionRow {
        snapshot_id: Ok(text("snapshot")),
        session_id: Ok(text("session")),
        task_id: Ok(text("task")),
        revision: 2,
        content_json: text(content),
        content_hash: Ok(text("hash")),
        canonical: Ok(text(canonical)),
    }
}

#[test]
fn compositions_are_written_once() {
    let record = composition_from_row(composition("{}", "hash")).expect("reads");
    let persist = |existing: Option<String>| {
        persist_composition_snapshot(&record, &Ok(text("hash")), &fence(), Some(3), &existing)
    };
    assert!(persist(None).expect("new"));
    assert!(!persist(Some(text("hash"))).expect("same"));
    fails(
        persist(Some(text("other"))),
        ErrorCode::IdempotencyConflict,
        "composition snapshot ID is immutable",
    );
    fails(
        persist_composition_snapshot(&record, &Err(refusal()), &fence(), Some(3), &None),
        ErrorCode::Other(4),
        "content is not canonical: reason",
    );
    fails(
        composition_from_row(composition("{", "hash")),
        ErrorCode::StorageWriteFailed,
        "composition snapshot JSON is invalid",
    );
    fails(
        composition_from_row(composition("{}", "other")),
        ErrorCode::InvalidHash,
        "content hash does not match canonical content",
    );
}

#[test]
fn packets_and_requests_are_written_once() {
    let packet = |existing: Option<String>| {
        persist_context_packet("{\"a\":1}", &Ok(()), &fence(), Some(3), &existing)
    };
    assert!(packet(None).expect("new"));
    assert!(!packet(Some(text("{\"a\":1}"))).expect("same"));
    fails(
        packet(Some(text("{}"))),
        ErrorCode::IdempotencyConflict,
        "context packet ID is immutable",
    );
    fails(
        persist_context_packet("{}", &Err(refusal()), &fence(), Some(3), &None),
        ErrorCode::Other(4),
        "context packet is invalid: reason",
    );
    let row = |json: &str| FrozenRequestRow {
        request_id: Ok(text("request")),
        packet_id: Ok(text("packet")),
        composition_snapshot_id: None,
        session_id: Ok(text("session")),
        task_id: Ok(text("task")),
        request_json: text(json),
        content_hash: Ok(text("hash")),
        provider_id: text("provider"),
        model: text("model"),
        config_revision: 1,
        canonical: Ok(text("hash")),
    };
    let request = frozen_request_from_row(row("[1]")).expect("reads");
    fails(
        persist_frozen_request(&request, &Ok(text("hash")), &fence(), Some(3), &Some(text("x"))),
        ErrorCode::IdempotencyConflict,
        "frozen request ID is immutable",
    );
    fails(
        frozen_request_from_row(row("[1")),
        ErrorCode::StorageWriteFailed,
        "frozen request JSON is invalid",
    );
}

#[test]
fn packets_are_read_back() {
    let row = |reads: bool, omitted: &str| ContextPacketRow {
        packet_json: text("{}"),
        packet_reads: reads,
        packet_verdict: Ok(()),
        composition_snapshot_id: Some(Ok(text("snapshot"))),
        omitted_json: text(omitted),
        degradation: None,
    };
    let packet = context_packet_from_row(row(true, "[\"a\",\"b\"]")).expect("reads");
    assert_eq!(packet.omitted_optional, vec!["a", "b"]);
    fails(
        context_packet_from_row(row(true, "[1]")),
        ErrorCode::StorageWriteFailed,
        "omitted context JSON is invalid",
    );
    fails(
        context_packet_from_row(row(false, "[]")),
        ErrorCode::StorageWriteFailed,
        "context packet JSON is invalid",
    );
}

#[test]
fn attempts_and_agents_are_read_back() {
    let attempt = |events: &str| ProviderAttemptRow {
        attempt_id: Ok(text("attempt")),
        request_id: Ok(text("request")),
        session_id: Ok(text("session")),
        task_id: Ok(text("task")),
        attempt_number: 2,
        state: text("done"),
        events_json: text(events),
        response_hash: None,
        error: None,
    };
    let first = provider_attempt_from_row(attempt("[]")).expect("reads");
    assert_eq!(first.attempt_number, 2);
    assert_eq!(
        persist_provider_attempt(first.clone(), false, &fence(), Some(3)),
        Ok(Some(first.clone()))
    );
    assert_eq!(persist_provider_attempt(first.clone(), true, &fence(), Some(3)), Ok(None));
    assert!(persist_provider_attempt(first, true, &fence(), Some(4)).is_err());
    let link = ContinuationLinkRecord {
        source_session_id: text("old"),
        new_session_id: text("new"),
        task_id: text("task"),
    };
    assert_eq!(record_continuation_link(link.clone(), &fence(), Some(3)), Ok(link.clone()));
    assert!(record_continuation_link(link, &fence(), None).is_err());
    fails(
        provider_attempt_from_row(attempt("")),
        ErrorCode::StorageWriteFailed,
        "provider events JSON is invalid",
    );
    let agent = agent_state_from_row(AgentStateRow {
        agent_run_id: Ok(text("run")),
        session_id: Ok(text("session")),
        task_id: Ok(text("task")),
        state: text("idle"),
        generation: 1,
        revision: 2,
        detail_json: text("null"),
    })
    .expect("reads");
    let mut moved = agent.clone();
    moved.task_id = text("another");
    moved.state = text("done");
    let stored = record_agent_state(moved.clone(), &fence(), Some(3), Some(agent.clone()))
        .expect("moves on");
    assert_eq!((stored.state.as_str(), &stored.task_id), ("done", &agent.task_id));
    assert_eq!(record_agent_state(moved.clone(), &fence(), Some(3), None), Ok(moved));
    let link = continuation_link_from_row(Ok(text("a")), Ok(text("b")), Ok(text("t"))).expect("reads");
    assert_eq!(link.new_session_id, "b");
    fails(
        continuation_link_from_row(Ok(text("a")), Ok(text("b")), Err(refusal())),
        ErrorCode::StorageWriteFailed,
        "stored task ID is invalid",
    );
    assert_eq!(register_plugin_manifest(&Ok(()), &fence(), Some(3)).expect("stored"), 3);
    assert_eq!(
        plugin_manifest_from_row(text("{}"), true, &Ok(()), 4).expect("reads").generation,
        4
    );
    fails(
        stored_record(text("{}"), true, &Err(refusal()), "no", "stored receipt is invalid: "),
        ErrorCode::Other(4),
        "stored receipt is invalid: reason",
    );
}

fn snapshot_row(json: &str, schema: i64) -> SnapshotRow {
    SnapshotRow {
        snapshot_id: Ok(text("snapshot")),
        session_id: Ok(text("session")),
        task_id: Ok(text("task")),
        through_sequence: 4,
        schema_version: schema,
        snapshot_json: text(json),
        content_hash: Ok(text("hash")),
    }
}

#[test]
fn snapshots_cover_committed_events_only() {
    let snapshot = snapshot_from_row(snapshot_row("{}", 1)).expect("reads");
    let session =
        |next_sequence: i64| Some(SessionRow { task_id: Ok(text("task")), next_sequence });
    let write = |canonical: &str, next: i64| {
        write_snapshot(&snapshot, &Ok(text(canonical)), &fence(), Some(3), &session(next))
    };
    assert!(write("hash", 5).is_ok());
    fails(
        write("hash", 4),
        ErrorCode::SequenceConflict,
        "snapshot cannot cover an uncommitted event",
    );
    let mut empty = snapshot.clone();
    empty.through_sequence = 0;
    fails(
        write_snapshot(&empty, &Ok(text("hash")), &fence(), Some(3), &session(5)),
        ErrorCode::StorageWriteFailed,
        "insert snapshot: sequences and versions start at one",
    );
    fails(
        write("other", 5),
        ErrorCode::SnapshotCorrupt,
        "snapshot content hash does not match canonical content",
    );
    fails(
        snapshot_from_row(snapshot_row("{corrupt", 1)),
        ErrorCode::SnapshotCorrupt,
        "snapshot JSON is corrupt",
    );
    fails(
        snapshot_from_row(snapshot_row("{}", 70000)),
        ErrorCode::SnapshotCorrupt,
        "snapshot schema version is invalid",
    );
}

#[test]
fn checkpoint_revisions_grow() {
    let record = checkpoint_from_row(CheckpointRow {
        checkpoint_id: text("checkpoint"),
        session_id: Ok(text("session")),
        task_id: Ok(text("task")),
        through_sequence: 4,
        revision: 3,
        content_json: text("{}"),
        content_hash: Ok(text("hash")),
        canonical: Ok(text("hash")),
    })
    .expect("reads");
    let write = |expected: u64, next: i64, prior: Option<i64>| {
        write_context_checkpoint_cas(
            &record,
            &Ok(text("hash")),
            expected,
            &fence(),
            Some(3),
            next,
            prior,
        )
    };
    assert!(write(4, 5, Some(2)).is_ok());
    fails(
        write(4, 5, Some(3)),
        ErrorCode::CompactionConflict,
        "context checkpoint revision is stale",
    );
    fails(
        write(4, 7, None),
        ErrorCode::CompactionConflict,
        "context checkpoint CAS expected 4, found 6",
    );
    fails(write(4, 0, None), ErrorCode::CompactionConflict, "session sequence is invalid");
}

#[test]
fn sessions_are_listed_and_found() {
    let row = |id: &str| SessionSummaryRow {
        session_id: Ok(text(id)),
        task_id: Ok(text("task")),
        next_sequence: 3,
        input_count: 1,
        snapshot_sequence: None,
    };
    let list = vec![
        session_summary_from_row(row("a")).expect("reads"),
        session_summary_from_row(row("b")).expect("reads"),
    ];
    assert_eq!(session_summary(&list, "b").expect("found").session_id, "b");
    assert!(session_summary(&list, "c").is_none());
}

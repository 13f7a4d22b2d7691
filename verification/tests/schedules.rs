use harness_store_sqlite::backend_leases::{
    advance_backend_lease, check_lease_state, create_backend_lease, lease_from_row,
    lease_is_unsettled, release_backend_lease, StoredBackendLease, LEASE_STATES,
};
use harness_store_sqlite::error::{ErrorCode, StoreError};
use harness_store_sqlite::journal::{HostFence, PublishedArtifact};
use harness_store_sqlite::maintenance::{
    all_schema_revisions, artifact_pin, collect_artifact, is_tombstoned, pin_artifacts, plan_sweep,
    record_maintenance_entry, record_published_artifact, record_tombstone, remove_artifact_record,
    referenced_artifact_ids, retention_pin, source_key, tombstone_from_row, ArtifactHolds,
    ArtifactReferences, RetentionPin, RevisionsRead, StoredTombstone, Sweep, Unlinked,
};
use harness_store_sqlite::notifications::{
    cancel_notification, decode_notification, enqueue_notification, notification_backoff_ms,
    notification_is_due, outbox_counts, record_notification_attempt, OutboxCounts,
    StoredNotification, NOTIFICATION_MAX_ATTEMPTS, NOTIFICATION_STATES,
};
use harness_store_sqlite::schedules::{
    claim_occurrence, create_schedule, decide_approval, decode_approval, decode_occurrence,
    decode_schedule, expire_approval, recover_claimed_occurrences, request_approval,
    set_schedule_state, settle_occurrence, ScheduleGuard, StoredApproval, StoredOccurrenceRecord,
    StoredScheduleRecord, APPROVAL_STATES,
};

fn text(value: &str) -> String {
    value.to_owned()
}

fn fence() -> HostFence {
    HostFence { host_id: text("host"), generation: 3 }
}

fn fails<T>(result: Result<T, StoreError>, code: ErrorCode, message: &str) {
    match result {
        Ok(_) => panic!("expected {message}"),
        Err(error) => {
            assert_eq!(error.code(), code);
            assert_eq!(error.message(), message);
        }
    }
}

fn schedule() -> StoredScheduleRecord {
    decode_schedule(text("s"), text("nightly"), text("active"), 1, 100, text("{}"), text("[]"))
        .expect("reads")
}

fn occurrence(state: &str) -> StoredOccurrenceRecord {
    decode_occurrence(text("s:1:100"), text("s"), 1, 100, 101, text(state), text("cron"))
        .expect("reads")
}

#[test]
fn schedules_are_created_once() {
    assert!(create_schedule(&schedule(), &fence(), Some(3), false).is_ok());
    fails(
        create_schedule(&schedule(), &fence(), Some(3), true),
        ErrorCode::DuplicateTaskId,
        "a schedule with this id already exists",
    );
    let refused = |broken: StoredScheduleRecord, message: &str| {
        fails(
            create_schedule(&broken, &fence(), Some(3), false),
            ErrorCode::InvalidPayload,
            message,
        );
    };
    refused(
        StoredScheduleRecord { title: text(" "), ..schedule() },
        "a schedule needs an id and a title",
    );
    refused(
        StoredScheduleRecord { revision: 0, ..schedule() },
        "a schedule revision starts at one",
    );
    refused(
        StoredScheduleRecord { grants_json: text(""), ..schedule() },
        "a schedule stores its specification and its grants",
    );
    fails(
        decode_schedule(text("s"), text("t"), text("active"), -1, 1, text("{}"), text("[]")),
        ErrorCode::InvalidSequence,
        "stored revision is negative",
    );
}

#[test]
fn a_state_change_makes_occurrences_stale() {
    let claim = |revision: i64, state: &str, stored: Vec<StoredOccurrenceRecord>| {
        let guard = Some(ScheduleGuard { state: text(state), revision });
        claim_occurrence(&occurrence("claimed"), 200, &fence(), Some(3), &guard, 100, &stored)
    };
    let mut other = occurrence("claimed");
    other.occurrence_key = text("other");
    other.due_unix_ms += 1;
    let first = claim(1, "active", vec![other.clone()]).expect("claimed");
    assert!(first.claimed);
    assert_eq!(first.schedule_due_unix_ms, 200);
    let mut renamed = occurrence("launched");
    renamed.occurrence_key = text("renamed");
    for known in [occurrence("canceled"), renamed] {
        let second = claim(1, "active", vec![other.clone(), known]).expect("known");
        assert!(!second.claimed);
        assert_eq!(second.schedule_due_unix_ms, 100);
    }
    let next = set_schedule_state("paused", 1, &fence(), Some(3), Some(1)).expect("paused");
    assert_eq!(next, 2);
    fails(
        claim(2, "paused", Vec::new()),
        ErrorCode::SequenceConflict,
        "the schedule revision moved before its occurrence was claimed",
    );
    fails(
        claim(1, "paused", Vec::new()),
        ErrorCode::PolicyDenied,
        "the schedule is not active",
    );
    fails(
        set_schedule_state("active", 1, &fence(), Some(3), Some(2)),
        ErrorCode::SequenceConflict,
        "the schedule revision moved; re-read it before changing its state",
    );
    fails(
        set_schedule_state("gone", 1, &fence(), Some(3), Some(1)),
        ErrorCode::InvalidPayload,
        "invalid schedule state",
    );
    fails(
        claim_occurrence(&occurrence("claimed"), 200, &fence(), Some(3), &None, 0, &Vec::new()),
        ErrorCode::TaskNotFound,
        "schedule does not exist",
    );
}

#[test]
fn an_occurrence_settles_once() {
    let settle = |state: &str, stored: &str| {
        settle_occurrence(state, &fence(), Some(3), Some(occurrence(stored)))
    };
    assert_eq!(settle("launched", "claimed").expect("settled"), occurrence("launched"));
    fails(
        settle("canceled", "launched"),
        ErrorCode::InvalidStateTransition,
        "the occurrence is not in a state this settlement applies to",
    );
    fails(
        settle("claimed", "claimed"),
        ErrorCode::InvalidPayload,
        "invalid occurrence settlement",
    );
    let at = |key: &str, due: i64, state: &str| {
        let mut record = occurrence(state);
        record.occurrence_key = text(key);
        record.due_unix_ms = due;
        record
    };
    let list =
        vec![at("a", 1, "launched"), at("b", 9, "claimed"), at("c", 5, "claimed"), at("d", 9, "claimed")];
    let recovered = recover_claimed_occurrences(list, &fence(), Some(3)).expect("recovered");
    assert_eq!(recovered.canceled, vec!["c", "b", "d"]);
    assert_eq!(
        recovered.occurrences,
        vec![
            at("a", 1, "launched"),
            at("b", 9, "canceled"),
            at("c", 5, "canceled"),
            at("d", 9, "canceled")
        ]
    );
    for left in recovered.occurrences {
        assert!(settle_occurrence("launched", &fence(), Some(3), Some(left)).is_err());
    }
}

fn approval(state: &str) -> StoredApproval {
    StoredApproval {
        approval_id: text("a"),
        occurrence_key: text("s:1:100"),
        schedule_id: text("s"),
        revision: 1,
        state: text(state),
        prompt: text("may it?"),
        requested_at_unix_ms: 10,
        expires_at_unix_ms: 20,
        decided_at_unix_ms: None,
        decided_by: None,
        reason: None,
    }
}

#[test]
fn an_approval_is_decided_once() {
    let mut asked = approval("approved");
    asked.reason = Some(text("old"));
    let stored = request_approval(asked, &fence(), Some(3), &Vec::new()).expect("asked").expect("new");
    assert_eq!(stored, approval("open"));
    assert!(stored.is_open());
    let mut again = approval("open");
    again.approval_id = text("b");
    let asked = vec![stored.clone()];
    assert!(request_approval(again.clone(), &fence(), Some(3), &asked).expect("known").is_none());
    again.occurrence_key = text("s:1:200");
    assert!(request_approval(again, &fence(), Some(3), &asked).expect("another").is_some());
    let decide = |approval: StoredApproval, decision: &str| {
        decide_approval(approval, decision, "human", "fine", 15, &fence(), Some(3))
    };
    let (decided, moved) = decide(stored, "approved").expect("decided");
    assert!(moved);
    assert_eq!(decided.decided_by.as_deref(), Some("human"));
    let (left, again) = decide(decided.clone(), "denied").expect("again");
    assert!(!again);
    assert_eq!(left, decided);
    let (_, expired) = expire_approval(decided, 30, &fence(), Some(3)).expect("late");
    assert!(!expired);
    let (closed, expired) = expire_approval(approval("open"), 30, &fence(), Some(3)).expect("closed");
    assert!(expired);
    assert_eq!(closed.state, "expired");
    assert_eq!(closed.reason.as_deref(), Some("the approval window closed"));
    fails(
        decide(approval("open"), "expired"),
        ErrorCode::InvalidPayload,
        "an approval is decided as approved or denied",
    );
    assert_eq!(APPROVAL_STATES, ["open", "approved", "denied", "expired"]);
}

#[test]
fn requests_for_approval_are_checked() {
    let refused = |broken: StoredApproval, message: &str| {
        fails(
            request_approval(broken, &fence(), Some(3), &Vec::new()),
            ErrorCode::InvalidPayload,
            message,
        );
    };
    refused(
        StoredApproval { prompt: text("\n"), ..approval("open") },
        "an approval needs an id, an occurrence, a schedule and a prompt",
    );
    refused(
        StoredApproval { revision: 0, ..approval("open") },
        "an approval names the revision it was requested at",
    );
    refused(
        StoredApproval { expires_at_unix_ms: 10, ..approval("open") },
        "an approval window has to end after it starts",
    );
    fails(
        decode_approval(approval("open"), -2),
        ErrorCode::InvalidSequence,
        "stored revision is negative",
    );
}

fn notification(id: &str, digest: &str) -> StoredNotification {
    StoredNotification {
        notification_id: text(id),
        subject_kind: text("schedule"),
        subject_id: text("s"),
        change_digest: text(digest),
        kind: text("failed"),
        payload_json: text("{}"),
        state: text("pending"),
        attempts: 0,
        next_attempt_unix_ms: 7,
        created_at_unix_ms: 5,
        updated_at_unix_ms: 5,
        delivered_at_unix_ms: None,
        detail: None,
    }
}

#[test]
fn a_change_is_queued_once() {
    let report = |queue: Vec<StoredNotification>| {
        let mut reported = notification("n", "d");
        reported.attempts = 9;
        enqueue_notification(reported, &fence(), Some(3), &queue)
    };
    let other = || notification("other", "e");
    assert_eq!(report(vec![other()]).expect("queued"), Some(notification("n", "d")));
    let known = vec![other(), notification("m", "d")];
    assert_eq!(report(known).expect("known change"), None);
    assert_eq!(report(vec![notification("n", "d"), other()]).expect("known id"), None);
    let mut elsewhere = notification("m", "d");
    elsewhere.subject_id = text("t");
    assert!(report(vec![elsewhere]).expect("another subject").is_some());
    fails(
        report(vec![notification("m", "d"), notification("n", "e")]),
        ErrorCode::IdempotencyConflict,
        "the same notification id cannot carry a different change",
    );
    let refused = |broken: StoredNotification, message: &str| {
        fails(
            enqueue_notification(broken, &fence(), Some(3), &Vec::new()),
            ErrorCode::InvalidPayload,
            message,
        );
    };
    refused(
        StoredNotification { kind: text(""), ..notification("n", "d") },
        "a notification needs an id, a subject and a kind",
    );
    refused(
        notification("n", " "),
        "a notification records the digest of the change it reports",
    );
    refused(
        StoredNotification { payload_json: text("no"), ..notification("n", "d") },
        "a notification payload must be JSON",
    );
}

fn attempt(before: StoredNotification, state: &str) -> (StoredNotification, bool) {
    record_notification_attempt(before, state, "said", Some(30), 20, &fence(), Some(3))
        .expect("recorded")
}

#[test]
fn retries_are_bounded() {
    let mut current = notification("n", "d");
    for count in 1..=NOTIFICATION_MAX_ATTEMPTS {
        let (after, recorded) = attempt(current, "pending");
        assert!(recorded);
        assert_eq!(after.attempts, count);
        assert_eq!(notification_is_due(&after, 30), count < NOTIFICATION_MAX_ATTEMPTS);
        current = after;
    }
    assert_eq!(current.state, "failed");
    assert!(current.is_terminal());
}

#[test]
fn delivered_and_canceled_notifications_are_final() {
    let (delivered, recorded) = attempt(notification("n", "d"), "delivered");
    assert!(recorded);
    assert_eq!(delivered.delivered_at_unix_ms, Some(20));
    let (left, again) = attempt(delivered.clone(), "failed");
    assert!(!again);
    assert_eq!(left, delivered);
    let (canceled, moved) =
        cancel_notification(notification("n", "d"), "off", 9, &fence(), Some(3)).expect("canceled");
    assert!(moved);
    assert_eq!(canceled.detail.as_deref(), Some("off"));
    let (_, moved) = cancel_notification(delivered, "off", 9, &fence(), Some(3)).expect("left");
    assert!(!moved);
    fails(
        record_notification_attempt(
            notification("n", "d"),
            "sent",
            "",
            None,
            1,
            &fence(),
            Some(3),
        ),
        ErrorCode::InvalidPayload,
        "invalid notification state",
    );
    for state in NOTIFICATION_STATES {
        assert!(attempt(notification("n", "d"), state).1);
    }
    fails(
        decode_notification(notification("n", "d"), -1),
        ErrorCode::InvalidSequence,
        "stored attempts are negative",
    );
}

#[test]
fn delays_double_up_to_their_bound() {
    let delays: Vec<i64> = (0..8).map(notification_backoff_ms).collect();
    assert_eq!(
        delays,
        vec![5_000, 10_000, 20_000, 40_000, 80_000, 160_000, 300_000, 300_000]
    );
    assert_eq!(notification_backoff_ms(u64::MAX), 300_000);
}

#[test]
fn the_outbox_is_counted() {
    let totals = vec![
        (text("pending"), 4),
        (text("failed"), -1),
        (text("strange"), 9),
        (text("delivered"), 2),
    ];
    let counts = outbox_counts(&totals);
    assert_eq!(counts, OutboxCounts { pending: 4, delivered: 2, failed: 0, canceled: 0 });
    assert_eq!(outbox_counts(&Vec::new()), OutboxCounts::default());
}

fn lease(state: &str) -> StoredBackendLease {
    StoredBackendLease {
        lease_id: text("lease"),
        owner_generation: 1,
        host_id: text("host"),
        session_id: text("session"),
        task_id: text("task"),
        tool_execution_id: text("execution"),
        backend: text("local"),
        profile: text("default"),
        pid: None,
        lock_path: text("/lock"),
        state: text(state),
        enforced_json: text("[]"),
        not_claimed_json: text("[]"),
        artifact_id: Some(text("kept")),
        artifact_digest: None,
        created_at_unix_ms: 1,
        heartbeat_at_unix_ms: 2,
        released_at_unix_ms: None,
        recovery_json: None,
    }
}

#[test]
fn an_execution_has_one_lease() {
    let mut other = lease("acquired");
    other.lease_id = text("other");
    let mut elsewhere = other.clone();
    elsewhere.tool_execution_id = text("elsewhere");
    let leases = vec![elsewhere.clone()];
    assert!(create_backend_lease(&lease("acquiring"), &fence(), Some(3), &leases).is_ok());
    fails(
        create_backend_lease(&lease("acquiring"), &fence(), Some(3), &vec![elsewhere, other]),
        ErrorCode::TaskLeaseConflict,
        "this host already has a lease for that execution",
    );
    fails(
        create_backend_lease(&lease("lost"), &fence(), Some(3), &leases),
        ErrorCode::InvalidPayload,
        "unknown lease state lost",
    );
    let unlocked = StoredBackendLease { lock_path: text(" "), ..lease("acquiring") };
    fails(
        create_backend_lease(&unlocked, &fence(), Some(3), &leases),
        ErrorCode::InvalidPayload,
        "a lease must record the lock that proves its owner",
    );
    for state in LEASE_STATES {
        assert!(check_lease_state(state).is_ok());
    }
    fails(
        lease_from_row(lease("acquired"), -1),
        ErrorCode::SnapshotCorrupt,
        "lease owner generation is invalid",
    );
}

#[test]
fn a_closed_lease_stays_closed() {
    let (moved, advanced) = advance_backend_lease(
        lease("acquiring"),
        &text("acquired"),
        8,
        &None,
        &Some(text("digest")),
        &fence(),
        Some(3),
    )
    .expect("advanced");
    assert!(advanced);
    assert_eq!(moved.artifact_id.as_deref(), Some("kept"));
    assert_eq!(moved.artifact_digest.as_deref(), Some("digest"));
    assert!(lease_is_unsettled(&moved, 8));
    assert!(!lease_is_unsettled(&moved, 7));
    let release = |lease: StoredBackendLease, at: i64| {
        release_backend_lease(
            lease,
            &text("released"),
            at,
            &Some(text("new")),
            &None,
            &None,
            &fence(),
            Some(3),
        )
        .expect("released")
    };
    let (closed, first) = release(moved, 9);
    assert!(first);
    assert_eq!(closed.released_at_unix_ms, Some(9));
    assert_eq!(closed.artifact_id.as_deref(), Some("new"));
    assert!(!lease_is_unsettled(&closed, i64::MAX));
    let (left, second) = release(closed.clone(), 10);
    assert!(!second);
    assert_eq!(left, closed);
}

#[test]
fn a_held_artifact_stays() {
    let holds = |receipts: i64, pins: i64, scopes: i64| ArtifactHolds {
        receipts,
        pins,
        scopes,
        memory_versions: 0,
    };
    let remembered = ArtifactHolds { memory_versions: 1, ..holds(0, 0, 0) };
    let remove = |held: ArtifactHolds| remove_artifact_record(held, &fence(), Some(3));
    assert!(remove(holds(0, 0, 0)).is_ok());
    fails(
        remove(remembered),
        ErrorCode::RetentionRefused,
        "a referenced artifact cannot be removed",
    );
    fails(
        remove(holds(1, 1, 1)),
        ErrorCode::RetentionRefused,
        "a referenced artifact cannot be removed",
    );
    fails(
        remove(holds(0, 1, 1)),
        ErrorCode::RetentionRefused,
        "a pinned artifact cannot be removed",
    );
    fails(
        remove(holds(0, 0, 1)),
        ErrorCode::RetentionRefused,
        "an artifact scoped to a tool execution cannot be removed",
    );
    let plan = |place: Option<&str>, held: ArtifactHolds| {
        plan_sweep(place.map(text), held, &fence(), Some(3)).expect("planned")
    };
    assert_eq!(plan(Some("a.bin"), holds(0, 2, 0)), Sweep::Held);
    assert_eq!(plan(Some("a.bin"), remembered), Sweep::Held);
    assert_eq!(plan(None, holds(0, 2, 0)), Sweep::Gone);
    let collect = plan(Some("a.bin"), holds(0, 0, 0));
    assert_eq!(collect, Sweep::Collect(text("a.bin")));
    assert!(collect_artifact(&collect, "/d/a.bin", &Unlinked::Missing).expect("gone"));
    assert!(!collect_artifact(&Sweep::Held, "", &Unlinked::Removed).expect("held"));
    fails(
        collect_artifact(&collect, "/d/a.bin", &Unlinked::Failed(text("denied"))),
        ErrorCode::ArtifactWriteFailed,
        "cannot remove artifact bytes at /d/a.bin: denied",
    );
}

#[test]
fn referenced_artifacts_are_listed_in_order() {
    let used = |id: &str, receipts: i64, scopes: i64, memory_versions: i64| ArtifactReferences {
        artifact_id: text(id),
        receipts,
        scopes,
        memory_versions,
    };
    let artifacts =
        vec![used("d", 0, 0, 1), used("b", 2, 0, 0), used("c", 0, 0, 0), used("a", 0, 1, 0)];
    assert_eq!(referenced_artifact_ids(&artifacts), vec!["a", "b", "d"]);
    assert!(referenced_artifact_ids(&Vec::new()).is_empty());
}

#[test]
fn maintenance_records_are_bounded_and_read_back() {
    let row = |copies: &str, created: i64| StoredTombstone {
        tombstone_id: text("t"),
        source_kind: text("file"),
        source_id: text("a.md"),
        reason: text("asked"),
        surviving_copies_json: text(copies),
        created_unix_ms: created,
    };
    let mut tombstone = tombstone_from_row(row("[\"backup\"]", 5)).expect("reads");
    assert_eq!(tombstone.surviving_copies, vec!["backup"]);
    let first = record_tombstone(tombstone.clone(), &fence(), Some(3), None).expect("recorded");
    assert_eq!(first, tombstone);
    let mut later = tombstone.clone();
    later.tombstone_id = text("u");
    later.reason = text("again");
    let kept = record_tombstone(later, &fence(), Some(3), Some(first.tombstone_id)).expect("recorded");
    assert_eq!((kept.tombstone_id.as_str(), kept.reason.as_str()), ("t", "again"));
    tombstone.created_unix_ms = u64::MAX;
    fails(
        record_tombstone(tombstone, &fence(), Some(3), None),
        ErrorCode::InvalidPayload,
        "tombstone time exceeds SQLite integer range",
    );
    fails(
        tombstone_from_row(row("\"backup\"", 5)),
        ErrorCode::StorageWriteFailed,
        "stored surviving copies are invalid",
    );
    fails(
        record_maintenance_entry(u64::MAX, &fence(), Some(3)),
        ErrorCode::InvalidPayload,
        "journal time exceeds SQLite integer range",
    );
    let pin = |ids: Vec<&str>, at: u64| {
        let ids = ids.into_iter().map(text).collect();
        pin_artifacts(&ids, "backup", Some("task"), at, &fence(), Some(3))
    };
    let pinned = |id: &str| RetentionPin {
        artifact_id: text(id),
        reason: text("backup"),
        task_id: Some(text("task")),
        created_unix_ms: 1,
    };
    assert_eq!(pin(vec!["a", "b"], 1), Ok(vec![pinned("a"), pinned("b")]));
    assert_eq!(pin(Vec::new(), u64::MAX), Ok(Vec::new()));
    fails(
        pin(vec!["a"], u64::MAX),
        ErrorCode::InvalidPayload,
        "pin time exceeds SQLite integer range",
    );
    assert_eq!(source_key("file", "a.md"), "file:a.md");
    assert!(is_tombstoned(1) && !is_tombstoned(0));
    assert_eq!(
        retention_pin(text("backup"), Some(Ok(text("task")))).expect("reads"),
        (text("backup"), Some(text("task")))
    );
    let artifact = PublishedArtifact {
        artifact_id: text("a"),
        content_hash: text("h"),
        byte_len: u64::MAX,
        relative_path: text("artifacts/a.bin"),
    };
    fails(
        record_published_artifact(&artifact, &fence(), Some(3)),
        ErrorCode::InvalidPayload,
        "artifact byte length exceeds SQLite integer range",
    );
    assert_eq!(artifact_pin(text("a"), text("p"), Ok(text("h")), 4).expect("reads").byte_len, 4);
    let revisions = all_schema_revisions(&RevisionsRead {
        store: Some(1),
        runtime: Some(2),
        tools: None,
        memory: Some(1),
        delegation: Some(1),
        maintenance: Some(1),
    });
    assert_eq!(
        revisions,
        vec![
            ("delegation", 1),
            ("maintenance", 1),
            ("memory", 1),
            ("runtime", 2),
            ("store", 1),
            ("tools", 0),
        ]
    );
}

use harness_store_sqlite::delegation::ParentDeliveryRecord;
use harness_store_sqlite::error::{ErrorCode, StoreError};
use harness_store_sqlite::external_jobs::{
    attach_remote_task, decode_external_job, external_job_delivery_id, guard_settlement,
    job_is_due, job_state, mark_submission_ambiguous, reconcile_external_job, record_poll,
    record_submission, recover_external_jobs, request_external_cancel, settle_external_job,
    terminal_state, ExternalJobSettlement, SettlementOutcome, StoredExternalJob,
    EXTERNAL_JOB_STATES, EXTERNAL_JOB_TERMINAL_STATES,
};
use harness_store_sqlite::journal::HostFence;

fn text(value: &str) -> String {
    value.to_owned()
}

fn fence() -> HostFence {
    HostFence { host_id: text("host"), generation: 3 }
}

fn fails<T>(result: Result<T, StoreError>, code: ErrorCode, message: &str) {
    match result {
        Ok(_) => panic!("expected {message}"),
        Err(error) => {
            assert_eq!(error.code(), code);
            assert_eq!(error.message(), message);
        }
    }
}

fn job(id: &str, state: &str) -> StoredExternalJob {
    StoredExternalJob {
        job_id: text(id),
        parent_task_id: text("task"),
        session_id: text("session"),
        server_id: text("server"),
        operation: text("run"),
        request_json: text("{}"),
        request_digest: text("digest"),
        remote_task_id: None,
        state: text(state),
        attempt: 0,
        poll_interval_ms: None,
        next_poll_unix_ms: 10,
        deadline_unix_ms: 100,
        submitted_at_unix_ms: 1,
        updated_at_unix_ms: 1,
        settled_at_unix_ms: None,
        outcome_json: None,
        outcome_digest: None,
        remote_state: None,
        ambiguity: None,
        delivery_message_id: None,
    }
}

fn accepted(id: &str) -> StoredExternalJob {
    StoredExternalJob { remote_task_id: Some(text("remote")), ..job(id, "accepted") }
}

fn settlement(state: &str, digest: &str) -> ExternalJobSettlement {
    ExternalJobSettlement {
        state: text(state),
        outcome_json: text("{\"ok\":true}"),
        outcome_digest: text(digest),
        remote_state: None,
        settled_at_unix_ms: 50,
    }
}

fn message() -> ParentDeliveryRecord {
    ParentDeliveryRecord {
        message_id: external_job_delivery_id("job", "d"),
        sender_task_id: text("task"),
        recipient_task_id: text("parent"),
        recipient_session_id: text("session"),
        result_id: None,
        payload_hash: text("p"),
        payload: text("{}"),
        state: text("pending"),
        consumed_by: None,
    }
}

#[test]
fn outcomes_have_their_own_message() {
    assert_eq!(external_job_delivery_id("job", "d"), "delivery_external_job_d");
    assert_ne!(external_job_delivery_id("job", "d"), external_job_delivery_id("job", "e"));
}

#[test]
fn job_states_are_listed() {
    for state in EXTERNAL_JOB_STATES {
        assert!(job_state(state));
        assert_eq!(terminal_state(state), EXTERNAL_JOB_TERMINAL_STATES.contains(&state));
    }
    assert!(!job_state("running"));
    assert!(!terminal_state("ambiguous"));
}

#[test]
fn an_open_request_is_not_repeated() {
    let mut sent = job("job", "submitting");
    sent.attempt = 7;
    sent.ambiguity = Some(text("old"));
    let mut settled = job("old", "completed");
    settled.settled_at_unix_ms = Some(9);
    let stored = record_submission(sent, &fence(), Some(3), &vec![settled.clone()])
        .expect("recorded");
    assert_eq!(stored, job("job", "submitting"));
    fails(
        record_submission(
            job("retry", "submitting"),
            &fence(),
            Some(3),
            &vec![settled, stored.clone()],
        ),
        ErrorCode::IdempotencyConflict,
        "the same request is already open on server as job; an unresolved submission is reconciled, not repeated",
    );
    let mut known = stored;
    known.request_digest = text("other");
    fails(
        record_submission(job("job", "submitting"), &fence(), Some(3), &vec![known]),
        ErrorCode::DuplicateTaskId,
        "an external job with this id already exists",
    );
}

#[test]
fn submissions_are_checked() {
    let refused = |broken: StoredExternalJob, message: &str| {
        fails(
            record_submission(broken, &fence(), Some(3), &Vec::new()),
            ErrorCode::InvalidPayload,
            message,
        );
    };
    let base = || job("job", "submitting");
    refused(
        StoredExternalJob { server_id: text(" "), ..base() },
        "an external job needs an id, a parent task, a session and a server",
    );
    refused(
        StoredExternalJob { operation: text(""), ..base() },
        "an external job names the operation it submitted",
    );
    refused(
        StoredExternalJob { request_digest: text("\t"), ..base() },
        "an external job records the digest of the request it sent",
    );
    refused(
        StoredExternalJob { request_json: text("{"), ..base() },
        "an external job request must be JSON",
    );
    refused(job("job", "accepted"), "a submission is recorded in the submitting state");
    refused(
        StoredExternalJob { deadline_unix_ms: 0, ..base() },
        "an external job needs a submission instant and a deadline",
    );
}

#[test]
fn a_handle_belongs_to_one_job() {
    let (after, attached) = attach_remote_task(
        job("job", "submitting"),
        "remote",
        Some(5),
        20,
        2,
        &fence(),
        Some(3),
        &None,
    )
    .expect("attached");
    assert!(attached);
    assert_eq!(after.state, "accepted");
    assert_eq!(after.remote_task_id.as_deref(), Some("remote"));
    assert_eq!((after.next_poll_unix_ms, after.updated_at_unix_ms), (20, 2));
    let (left, again) =
        attach_remote_task(after.clone(), "other", None, 9, 9, &fence(), Some(3), &None)
            .expect("late");
    assert!(!again);
    assert_eq!(left, after);
    fails(
        attach_remote_task(
            job("job", "submitting"),
            "remote",
            None,
            1,
            1,
            &fence(),
            Some(3),
            &Some(text("first")),
        ),
        ErrorCode::DeliveryConflict,
        "remote task remote is already owned by first",
    );
    fails(
        attach_remote_task(job("j", "submitting"), " ", None, 1, 1, &fence(), Some(3), &None),
        ErrorCode::InvalidPayload,
        "a remote task id cannot be empty",
    );
}

#[test]
fn an_ambiguous_submission_is_reconciled() {
    let (lost, moved) =
        mark_submission_ambiguous(job("job", "submitting"), "timeout", 4, &fence(), Some(3))
            .expect("marked");
    assert!(moved);
    assert_eq!(lost.next_poll_unix_ms, i64::MAX);
    let (found, resolved) =
        reconcile_external_job(lost, "remote", None, 8, 5, &fence(), Some(3), &None).expect("found");
    assert!(resolved);
    assert_eq!(found.state, "accepted");
    assert_eq!(found.ambiguity.as_deref(), Some("timeout | reconciled with a remote handle"));
    fails(
        reconcile_external_job(found, "", None, 8, 5, &fence(), Some(3), &None),
        ErrorCode::InvalidPayload,
        "a reconciliation needs the remote task id",
    );
}

#[test]
fn polls_and_cancels_need_an_open_job() {
    let (polled, row) =
        record_poll(Some(accepted("job")), "working", 6, 2, 30, &fence(), Some(3)).expect("polled");
    assert_eq!((polled.attempt, polled.next_poll_unix_ms), (2, 30));
    assert_eq!((row.observed_state.as_str(), row.outcome.as_str()), ("working", "running"));
    assert!(!job_is_due(&polled, 29));
    assert!(job_is_due(&polled, 30));
    let (asked, canceled) =
        request_external_cancel(polled, 7, &fence(), Some(3)).expect("asked");
    assert!(canceled);
    assert_eq!((asked.state.as_str(), asked.next_poll_unix_ms), ("cancel_requested", 7));
    let (_, moved) =
        request_external_cancel(job("job", "ambiguous"), 7, &fence(), Some(3)).expect("left");
    assert!(!moved);
    fails(
        record_poll(None, "working", 6, 2, 30, &fence(), Some(3)),
        ErrorCode::InvalidStateTransition,
        "an external job that has settled cannot be polled",
    );
}

#[test]
fn a_job_settles_once() {
    let settle = |job: Option<StoredExternalJob>, outcome: &ExternalJobSettlement| {
        settle_external_job(job, outcome, &Some(message()), &None, &fence(), Some(3))
    };
    let first = settle(Some(accepted("job")), &settlement("completed", "d")).expect("settled");
    let SettlementOutcome::Settled(after, poll, insert) = first else {
        panic!("nothing was settled before");
    };
    assert!(insert);
    assert_eq!(after.state, "completed");
    assert_eq!(after.settled_at_unix_ms, Some(50));
    assert_eq!(after.delivery_message_id.as_deref(), Some("delivery_external_job_d"));
    assert_eq!((poll.observed_state.as_str(), poll.outcome.as_str()), ("completed", "completed"));
    assert_eq!(
        settle(Some(after.clone()), &settlement("completed", "d")).expect("again"),
        SettlementOutcome::Replayed
    );
    fails(
        settle(Some(after.clone()), &settlement("failed", "e")),
        ErrorCode::DeliveryConflict,
        "a settled external job cannot be settled again with a different outcome",
    );
    assert!(record_poll(Some(after), "late", 60, 3, 70, &fence(), Some(3)).is_err());
    fails(
        settle(None, &settlement("failed", "e")),
        ErrorCode::TaskNotFound,
        "no such external job",
    );
    fails(
        settle(Some(accepted("job")), &settlement("accepted", "e")),
        ErrorCode::InvalidPayload,
        "an external job settles into a terminal state",
    );
}

#[test]
fn only_an_ambiguous_job_is_abandoned() {
    assert!(guard_settlement(&job("job", "ambiguous"), &settlement("abandoned", "d")).is_ok());
    fails(
        guard_settlement(&accepted("job"), &settlement("abandoned", "d")),
        ErrorCode::InvalidStateTransition,
        "only an ambiguous submission can be abandoned",
    );
    fails(
        guard_settlement(&job("job", "strange"), &settlement("failed", "d")),
        ErrorCode::InvalidStateTransition,
        "the external job is not in a state this settlement applies to",
    );
}

#[test]
fn recovery_is_safe_to_repeat() {
    let mut later = accepted("later");
    later.next_poll_unix_ms = 99;
    let jobs = vec![job("lost", "submitting"), job("known", "ambiguous"), later, accepted("due")];
    let (after, report) = recover_external_jobs(jobs, 40, &fence(), Some(3)).expect("recovered");
    assert_eq!(report.ambiguous, vec!["lost", "known"]);
    assert_eq!(report.resumed, vec!["later", "due"]);
    assert_eq!(
        after[0].ambiguity.as_deref(),
        Some("the host stopped after recording the submission and before an answer was read")
    );
    assert_eq!(after[2].next_poll_unix_ms, 40);
    assert_eq!(after[3], accepted("due"));
    let (again, second) =
        recover_external_jobs(after.clone(), 40, &fence(), Some(3)).expect("again");
    assert_eq!(again, after);
    assert_eq!(second.ambiguous, vec!["lost", "known"]);
    assert_eq!(second.resumed, vec!["later", "due"]);
    assert_eq!(decode_external_job(job("j", "failed"), 4).expect("reads").attempt, 4);
    fails(
        decode_external_job(job("j", "failed"), -1),
        ErrorCode::InvalidSequence,
        "stored attempt is negative",
    );
}

//! External jobs: a remote submission, the handle it minted, and the one
//! settlement that ends it.
//!
//! A request is recorded before it is sent, an open request is not recorded
//! twice, and a settlement is written once. A host that cannot tell a failed
//! request from a lost answer says so and submits nothing again.

use crate::columns::{i64_fault, to_i64, to_unsigned, unsigned_fault};
use crate::delegation::{delivery_fault, insert_delivery, ParentDeliveryRecord};
use crate::error::{answers, fault, first, ErrorCode, Fault, StoreError};
use crate::journal::{check_fence, fence_fault, HostFence};
use crate::json::{is_json, json_is_valid};
use crate::text::{blank, cat, cat4, is_blank, listed, opt_text, same_text, texts};
use vstd::prelude::*;

verus! {

/// The states that an external job may be in.
pub const EXTERNAL_JOB_STATES: [&'static str; 9] = [
    "submitting",
    "accepted",
    "ambiguous",
    "cancel_requested",
    "completed",
    "failed",
    "cancelled",
    "abandoned",
    "deadline_exceeded",
];

/// The states that end an external job.
pub const EXTERNAL_JOB_TERMINAL_STATES: [&'static str; 5] = [
    "completed",
    "failed",
    "cancelled",
    "abandoned",
    "deadline_exceeded",
];

/// One stored external job.
#[derive(Clone, Debug, PartialEq, Eq)]
pub struct StoredExternalJob {
    pub job_id: String,
    pub parent_task_id: String,
    pub session_id: String,
    pub server_id: String,
    pub operation: String,
    pub request_json: String,
    pub request_digest: String,
    /// The remote's handle. Without one the submission's fate is unknown.
    pub remote_task_id: Option<String>,
    pub state: String,
    pub attempt: u64,
    pub poll_interval_ms: Option<i64>,
    pub next_poll_unix_ms: i64,
    pub deadline_unix_ms: i64,
    pub submitted_at_unix_ms: i64,
    pub updated_at_unix_ms: i64,
    pub settled_at_unix_ms: Option<i64>,
    pub outcome_json: Option<String>,
    pub outcome_digest: Option<String>,
    /// The last remote status that this host observed, which is not the same
    /// thing as the local state.
    pub remote_state: Option<String>,
    pub ambiguity: Option<String>,
    pub delivery_message_id: Option<String>,
}

impl StoredExternalJob {
    /// Whether this job has ended, one way or another.
    #[must_use]
    pub fn is_settled(&self) -> (settled: bool)
        ensures
            settled == (self.settled_at_unix_ms is Some),
    {
        self.settled_at_unix_ms.is_some()
    }
}

/// One row of the poll log.
#[derive(Clone, Debug, PartialEq, Eq)]
pub struct StoredExternalJobPoll {
    pub job_id: String,
    pub polled_at_unix_ms: i64,
    pub observed_state: String,
    pub outcome: String,
}

/// What one settlement writes.
#[derive(Clone, Debug, PartialEq, Eq)]
pub struct ExternalJobSettlement {
    pub state: String,
    /// What happened, as the parent will read it.
    pub outcome_json: String,
    pub outcome_digest: String,
    /// The last remote status observed before settling, if any was.
    pub remote_state: Option<String>,
    pub settled_at_unix_ms: i64,
}

/// What a recovery pass found.
#[derive(Clone, Debug, PartialEq, Eq)]
pub struct RecoveredExternalJobs {
    /// Jobs whose submission was recorded and never answered. They need a human
    /// and are not submitted again.
    pub ambiguous: Vec<String>,
    /// Jobs that were already known to a remote and can be polled again.
    pub resumed: Vec<String>,
}

/// A state that ends a job.
pub open spec fn is_terminal_state(state: Seq<char>) -> bool {
    ||| state == "completed"@
    ||| state == "failed"@
    ||| state == "cancelled"@
    ||| state == "abandoned"@
    ||| state == "deadline_exceeded"@
}

/// A state that a job may be in.
pub open spec fn is_job_state(state: Seq<char>) -> bool {
    ||| state == "submitting"@
    ||| state == "accepted"@
    ||| state == "ambiguous"@
    ||| state == "cancel_requested"@
    ||| is_terminal_state(state)
}

/// A job can be in the listed states and in no other.
pub proof fn law_job_states_are_listed(state: Seq<char>)
    ensures
        is_job_state(state) <==> listed(EXTERNAL_JOB_STATES@, state),
{
    assert(EXTERNAL_JOB_STATES@[0]@ == "submitting"@);
    assert(EXTERNAL_JOB_STATES@[1]@ == "accepted"@);
    assert(EXTERNAL_JOB_STATES@[2]@ == "ambiguous"@);
    assert(EXTERNAL_JOB_STATES@[3]@ == "cancel_requested"@);
    assert(EXTERNAL_JOB_STATES@[4]@ == "completed"@);
    assert(EXTERNAL_JOB_STATES@[5]@ == "failed"@);
    assert(EXTERNAL_JOB_STATES@[6]@ == "cancelled"@);
    assert(EXTERNAL_JOB_STATES@[7]@ == "abandoned"@);
    assert(EXTERNAL_JOB_STATES@[8]@ == "deadline_exceeded"@);
}

/// A job ends in the listed states and in no other.
pub proof fn law_terminal_job_states_are_listed(state: Seq<char>)
    ensures
        is_terminal_state(state) <==> listed(EXTERNAL_JOB_TERMINAL_STATES@, state),
{
    assert(EXTERNAL_JOB_TERMINAL_STATES@[0]@ == "completed"@);
    assert(EXTERNAL_JOB_TERMINAL_STATES@[1]@ == "failed"@);
    assert(EXTERNAL_JOB_TERMINAL_STATES@[2]@ == "cancelled"@);
    assert(EXTERNAL_JOB_TERMINAL_STATES@[3]@ == "abandoned"@);
    assert(EXTERNAL_JOB_TERMINAL_STATES@[4]@ == "deadline_exceeded"@);
}

/// Whether a state ends a job.
pub fn terminal_state(state: &str) -> (terminal: bool)
    ensures
        terminal == is_terminal_state(state@),
{
    same_text(state, "completed") || same_text(state, "failed") || same_text(state, "cancelled")
        || same_text(state, "abandoned") || same_text(state, "deadline_exceeded")
}

/// Whether a state is one that a job may be in.
pub fn job_state(state: &str) -> (known: bool)
    ensures
        known == is_job_state(state@),
{
    same_text(state, "submitting") || same_text(state, "accepted") || same_text(state, "ambiguous")
        || same_text(state, "cancel_requested") || terminal_state(state)
}

/// The message id of a job's outcome, made from the job and the digest of its
/// outcome, so that a repeated settlement builds the same one.
pub open spec fn delivery_id(job_id: Seq<char>, outcome_digest: Seq<char>) -> Seq<char> {
    "delivery_external_"@ + job_id + "_"@ + outcome_digest
}

/// The message id of a job's outcome.
#[must_use]
pub fn external_job_delivery_id(job_id: &str, outcome_digest: &str) -> (id: String)
    ensures
        id@ == delivery_id(job_id@, outcome_digest@),
{
    cat4("delivery_external_", job_id, "_", outcome_digest)
}

/// Every outcome has a message id of its own: different outcomes of one job have
/// different ids, and so have different jobs, where their digests are equally long or
/// hold no underscore.
pub proof fn law_outcomes_have_their_own_message(
    job: Seq<char>,
    other_job: Seq<char>,
    digest: Seq<char>,
    other_digest: Seq<char>,
)
    requires
        job == other_job || digest.len() == other_digest.len() || (!digest.contains('_')
            && !other_digest.contains('_')),
        delivery_id(job, digest) == delivery_id(other_job, other_digest),
    ensures
        job == other_job,
        digest == other_digest,
{
    reveal_strlit("_");
    let head = "delivery_external_"@;
    let left = delivery_id(job, digest);
    let right = delivery_id(other_job, other_digest);
    let end = left.len() as int;
    assert(end == head.len() + job.len() + 1 + digest.len());
    assert(end == head.len() + other_job.len() + 1 + other_digest.len());
    assert(left[end - digest.len() - 1] == '_');
    assert(right[end - other_digest.len() - 1] == '_');
    if digest.len() < other_digest.len() && job != other_job {
        let at = other_digest.len() - digest.len() - 1;
        assert(other_digest[at] == right[end - digest.len() - 1]);
        assert(other_digest.contains('_'));
    }
    if other_digest.len() < digest.len() && job != other_job {
        let at = digest.len() - other_digest.len() - 1;
        assert(digest[at] == left[end - other_digest.len() - 1]);
        assert(digest.contains('_'));
    }
    assert(digest.len() == other_digest.len());
    assert(job =~= left.subrange(head.len() as int, (head.len() + job.len()) as int));
    assert(other_job =~= right.subrange(head.len() as int, (head.len() + job.len()) as int));
    assert(digest =~= left.subrange(end - digest.len(), end));
    assert(other_digest =~= right.subrange(end - digest.len(), end));
}

// ---------------------------------------------------------------------------
// Submitting

/// Why a submission is malformed.
pub open spec fn job_shape_fault(job: StoredExternalJob) -> Option<Fault> {
    let invalid = ErrorCode::InvalidPayload;
    if blank(job.job_id@) || blank(job.parent_task_id@) || blank(job.session_id@) || blank(
        job.server_id@,
    ) {
        fault(invalid, "an external job needs an id, a parent task, a session and a server"@)
    } else if blank(job.operation@) {
        fault(invalid, "an external job names the operation it submitted"@)
    } else if blank(job.request_digest@) {
        fault(invalid, "an external job records the digest of the request it sent"@)
    } else if !is_json(job.request_json@) {
        fault(invalid, "an external job request must be JSON"@)
    } else if job.state@ != "submitting"@ {
        fault(invalid, "a submission is recorded in the submitting state"@)
    } else if job.deadline_unix_ms <= 0 || job.submitted_at_unix_ms <= 0 {
        fault(invalid, "an external job needs a submission instant and a deadline"@)
    } else {
        None
    }
}

/// Refuses a malformed submission.
pub fn validate_external_job(job: &StoredExternalJob) -> (result: Result<(), StoreError>)
    ensures
        answers(result, job_shape_fault(*job)),
{
    let invalid: ErrorCode = ErrorCode::InvalidPayload;
    if is_blank(job.job_id.as_str()) || is_blank(job.parent_task_id.as_str()) || is_blank(
        job.session_id.as_str(),
    ) || is_blank(job.server_id.as_str()) {
        return Err(
            StoreError::new(
                invalid,
                "an external job needs an id, a parent task, a session and a server",
            ),
        );
    }
    if is_blank(job.operation.as_str()) {
        return Err(StoreError::new(invalid, "an external job names the operation it submitted"));
    }
    if is_blank(job.request_digest.as_str()) {
        return Err(
            StoreError::new(invalid, "an external job records the digest of the request it sent"),
        );
    }
    if !json_is_valid(job.request_json.as_str()) {
        return Err(StoreError::new(invalid, "an external job request must be JSON"));
    }
    if !same_text(job.state.as_str(), "submitting") {
        return Err(StoreError::new(invalid, "a submission is recorded in the submitting state"));
    }
    if job.deadline_unix_ms <= 0 || job.submitted_at_unix_ms <= 0 {
        return Err(
            StoreError::new(invalid, "an external job needs a submission instant and a deadline"),
        );
    }
    Ok(())
}

/// A job holds a request open on a server.
pub open spec fn holds_open(job: StoredExternalJob, other: StoredExternalJob) -> bool {
    &&& job.server_id@ == other.server_id@
    &&& job.request_digest@ == other.request_digest@
    &&& job.settled_at_unix_ms is None
}

/// The first of some jobs that holds a job's request open.
pub open spec fn open_holder(jobs: Seq<StoredExternalJob>, job: StoredExternalJob) -> Option<
    StoredExternalJob,
>
    decreases jobs.len(),
{
    if jobs.len() == 0 {
        None
    } else {
        match open_holder(jobs.drop_last(), job) {
            Some(holder) => Some(holder),
            None => if holds_open(jobs.last(), job) {
                Some(jobs.last())
            } else {
                None
            },
        }
    }
}

/// The id of a job is taken.
pub open spec fn is_known_job(jobs: Seq<StoredExternalJob>, job_id: Seq<char>) -> bool {
    exists|i: int| 0 <= i < jobs.len() && (#[trigger] jobs[i]).job_id@ == job_id
}

/// Why a submission is not recorded: one of the jobs that are there holds the same
/// request open on the same server, or has the job's id.
pub open spec fn submission_fault(
    job: StoredExternalJob,
    fence: HostFence,
    held: Option<i64>,
    jobs: Seq<StoredExternalJob>,
) -> Option<Fault> {
    first(
        job_shape_fault(job),
        first(
            fence_fault(held, fence),
            match open_holder(jobs, job) {
                Some(holder) => fault(
                    ErrorCode::IdempotencyConflict,
                    "the same request is already open on "@ + job.server_id@ + " as "@
                        + holder.job_id@
                        + "; an unresolved submission is reconciled, not repeated"@,
                ),
                None => if is_known_job(jobs, job.job_id@) {
                    fault(
                        ErrorCode::DuplicateTaskId,
                        "an external job with this id already exists"@,
                    )
                } else {
                    None
                },
            },
        ),
    )
}

/// A job as its submission is recorded: no handle, no answer, never polled.
pub open spec fn recorded(job: StoredExternalJob) -> StoredExternalJob {
    StoredExternalJob {
        remote_task_id: None,
        attempt: 0,
        poll_interval_ms: None,
        updated_at_unix_ms: job.submitted_at_unix_ms,
        settled_at_unix_ms: None,
        outcome_json: None,
        outcome_digest: None,
        remote_state: None,
        ambiguity: None,
        delivery_message_id: None,
        ..job
    }
}

fn find_open_holder<'a>(jobs: &'a Vec<StoredExternalJob>, job: &StoredExternalJob) -> (holder:
    Option<&'a StoredExternalJob>)
    ensures
        match holder {
            Some(found) => open_holder(jobs@, *job) == Some(*found),
            None => open_holder(jobs@, *job) is None,
        },
{
    let mut i: usize = 0;
    while i < jobs.len()
        invariant
            i <= jobs.len(),
            open_holder(jobs@.take(i as int), *job) is None,
        decreases jobs.len() - i,
    {
        assert(jobs@.take(i + 1).drop_last() =~= jobs@.take(i as int));
        let other: &StoredExternalJob = &jobs[i];
        assert(jobs@.take(i + 1).last() == *other);
        if same_text(other.server_id.as_str(), job.server_id.as_str()) && same_text(
            other.request_digest.as_str(),
            job.request_digest.as_str(),
        ) && other.settled_at_unix_ms.is_none() {
            proof {
                lemma_open_holder_stands(jobs@, *job, i + 1);
            }
            return Some(other);
        }
        i += 1;
    }
    assert(jobs@.take(i as int) =~= jobs@);
    None
}

/// A job that holds a request open among the first of some jobs holds it among
/// all of them.
proof fn lemma_open_holder_stands(jobs: Seq<StoredExternalJob>, job: StoredExternalJob, count: int)
    requires
        0 <= count <= jobs.len(),
        open_holder(jobs.take(count), job) is Some,
    ensures
        open_holder(jobs, job) == open_holder(jobs.take(count), job),
    decreases jobs.len() - count,
{
    if count == jobs.len() {
        assert(jobs.take(count) =~= jobs);
    } else {
        assert(jobs.take(count + 1).drop_last() =~= jobs.take(count));
        lemma_open_holder_stands(jobs, job, count + 1);
    }
}

fn find_job(jobs: &Vec<StoredExternalJob>, job_id: &str) -> (known: bool)
    ensures
        known == is_known_job(jobs@, job_id@),
{
    let mut i: usize = 0;
    while i < jobs.len()
        invariant
            i <= jobs.len(),
            forall|k: int| 0 <= k < i ==> (#[trigger] jobs@[k]).job_id@ != job_id@,
        decreases jobs.len() - i,
    {
        if same_text(jobs[i].job_id.as_str(), job_id) {
            return true;
        }
        i += 1;
    }
    false
}

/// Records a submission before it is sent. `jobs` are the jobs that are there
/// already. A request that is open on the same server is refused: an unresolved
/// submission is reconciled, never repeated.
pub fn record_submission(
    job: StoredExternalJob,
    fence: &HostFence,
    held: Option<i64>,
    jobs: &Vec<StoredExternalJob>,
) -> (result: Result<StoredExternalJob, StoreError>)
    ensures
        answers(result, submission_fault(job, *fence, held, jobs@)),
        result is Ok ==> result->Ok_0 == recorded(job),
{
    validate_external_job(&job)?;
    check_fence(held, fence)?;
    match find_open_holder(jobs, &job) {
        Some(holder) => {
            let at: String = cat4(
                "the same request is already open on ",
                job.server_id.as_str(),
                " as ",
                holder.job_id.as_str(),
            );
            let message: String = cat(
                at.as_str(),
                "; an unresolved submission is reconciled, not repeated",
            );
            return Err(StoreError::new(ErrorCode::IdempotencyConflict, message.as_str()));
        },
        None => {},
    }
    if find_job(jobs, job.job_id.as_str()) {
        return Err(
            StoreError::new(
                ErrorCode::DuplicateTaskId,
                "an external job with this id already exists",
            ),
        );
    }
    Ok(
        StoredExternalJob {
            job_id: job.job_id,
            parent_task_id: job.parent_task_id,
            session_id: job.session_id,
            server_id: job.server_id,
            operation: job.operation,
            request_json: job.request_json,
            request_digest: job.request_digest,
            remote_task_id: None,
            state: job.state,
            attempt: 0,
            poll_interval_ms: None,
            next_poll_unix_ms: job.next_poll_unix_ms,
            deadline_unix_ms: job.deadline_unix_ms,
            submitted_at_unix_ms: job.submitted_at_unix_ms,
            updated_at_unix_ms: job.submitted_at_unix_ms,
            settled_at_unix_ms: None,
            outcome_json: None,
            outcome_digest: None,
            remote_state: None,
            ambiguity: None,
            delivery_message_id: None,
        },
    )
}

/// Nobody holds a request open where no job does.
proof fn lemma_open_holder(jobs: Seq<StoredExternalJob>, job: StoredExternalJob)
    ensures
        open_holder(jobs, job) is None <==> forall|i: int|
            0 <= i < jobs.len() ==> !holds_open(#[trigger] jobs[i], job),
    decreases jobs.len(),
{
    if jobs.len() > 0 {
        let head = jobs.drop_last();
        lemma_open_holder(head, job);
        assert forall|i: int| 0 <= i < head.len() implies head[i] == #[trigger] jobs[i] by {}
        if open_holder(jobs, job) is None {
            assert forall|i: int| 0 <= i < jobs.len() implies !holds_open(
                #[trigger] jobs[i],
                job,
            ) by {
                if i < head.len() {
                    assert(!holds_open(head[i], job));
                }
            }
        } else if open_holder(head, job) is Some {
            let i = choose|i: int| 0 <= i < head.len() && holds_open(#[trigger] head[i], job);
            assert(holds_open(jobs[i], job));
        } else {
            assert(holds_open(jobs[jobs.len() - 1], job));
        }
    }
}

/// A submission is recorded if and only if it is complete and in the submitting state, its id
/// is new, and its server has no job with the same request that is not settled. A request
/// that was settled is submitted again. What is recorded has no handle, no attempt and no
/// outcome.
pub proof fn law_new_request_is_submitted(
    job: StoredExternalJob,
    fence: HostFence,
    held: Option<i64>,
    jobs: Seq<StoredExternalJob>,
)
    ensures
        submission_fault(job, fence, held, jobs) is None <==> {
            &&& !blank(job.job_id@)
            &&& !blank(job.parent_task_id@)
            &&& !blank(job.session_id@)
            &&& !blank(job.server_id@)
            &&& !blank(job.operation@)
            &&& !blank(job.request_digest@)
            &&& is_json(job.request_json@)
            &&& job.state@ == "submitting"@
            &&& 0 < job.deadline_unix_ms
            &&& 0 < job.submitted_at_unix_ms
            &&& held is Some
            &&& held->Some_0 == fence.generation as int
            &&& forall|i: int|
                0 <= i < jobs.len() ==> {
                    &&& (#[trigger] jobs[i]).job_id@ != job.job_id@
                    &&& jobs[i].server_id@ != job.server_id@ || jobs[i].request_digest@
                        != job.request_digest@ || jobs[i].settled_at_unix_ms is Some
                }
        },
        recorded(job).remote_task_id is None,
        recorded(job).attempt == 0,
        recorded(job).poll_interval_ms is None,
        recorded(job).settled_at_unix_ms is None,
        recorded(job).outcome_json is None,
        recorded(job).outcome_digest is None,
        recorded(job).remote_state is None,
        recorded(job).ambiguity is None,
        recorded(job).delivery_message_id is None,
        recorded(job).updated_at_unix_ms == job.submitted_at_unix_ms,
        recorded(job).job_id == job.job_id,
        recorded(job).parent_task_id == job.parent_task_id,
        recorded(job).session_id == job.session_id,
        recorded(job).server_id == job.server_id,
        recorded(job).operation == job.operation,
        recorded(job).request_json == job.request_json,
        recorded(job).request_digest == job.request_digest,
        recorded(job).state == job.state,
        recorded(job).next_poll_unix_ms == job.next_poll_unix_ms,
        recorded(job).deadline_unix_ms == job.deadline_unix_ms,
        recorded(job).submitted_at_unix_ms == job.submitted_at_unix_ms,
{
    lemma_open_holder(jobs, job);
    if submission_fault(job, fence, held, jobs) is None {
        assert forall|i: int| 0 <= i < jobs.len() implies (#[trigger] jobs[i]).job_id@
            != job.job_id@ && (jobs[i].server_id@ != job.server_id@ || jobs[i].request_digest@
            != job.request_digest@ || jobs[i].settled_at_unix_ms is Some) by {
            assert(!holds_open(jobs[i], job));
        }
    }
}

/// An open request is never submitted twice: once its submission is recorded, and
/// until that job is settled, a retry of the same request on the same server is
/// refused, and told which job it has to reconcile.
pub proof fn law_open_request_is_not_repeated(
    jobs: Seq<StoredExternalJob>,
    job: StoredExternalJob,
    retry: StoredExternalJob,
    fence: HostFence,
    held: Option<i64>,
)
    requires
        submission_fault(job, fence, held, jobs) is None,
        job_shape_fault(retry) is None,
        retry.server_id@ == job.server_id@,
        retry.request_digest@ == job.request_digest@,
    ensures
        submission_fault(retry, fence, held, jobs.push(recorded(job))) == fault(
            ErrorCode::IdempotencyConflict,
            "the same request is already open on "@ + job.server_id@ + " as "@ + job.job_id@
                + "; an unresolved submission is reconciled, not repeated"@,
        ),
{
    let after = jobs.push(recorded(job));
    assert(after.drop_last() =~= jobs);
    lemma_one_request_one_holder(jobs, job, retry);
}

/// Who holds a request open rests on the request alone.
proof fn lemma_one_request_one_holder(
    jobs: Seq<StoredExternalJob>,
    job: StoredExternalJob,
    retry: StoredExternalJob,
)
    requires
        retry.server_id@ == job.server_id@,
        retry.request_digest@ == job.request_digest@,
    ensures
        open_holder(jobs, retry) == open_holder(jobs, job),
    decreases jobs.len(),
{
    if jobs.len() > 0 {
        lemma_one_request_one_holder(jobs.drop_last(), job, retry);
    }
}

// ---------------------------------------------------------------------------
// From a submission to a handle

/// A job that still waits in a state.
pub open spec fn waits_in(job: StoredExternalJob, state: Seq<char>) -> bool {
    job.settled_at_unix_ms is None && job.state@ == state
}

/// Why a handle cannot be given to a job. `owner` is another job that has it.
pub open spec fn handle_fault(
    remote_task_id: Seq<char>,
    empty: Seq<char>,
    fence: HostFence,
    held: Option<i64>,
    owner: Option<String>,
) -> Option<Fault> {
    if blank(remote_task_id) {
        fault(ErrorCode::InvalidPayload, empty)
    } else {
        first(
            fence_fault(held, fence),
            match owner {
                None => None,
                Some(other) => fault(
                    ErrorCode::DeliveryConflict,
                    "remote task "@ + remote_task_id + " is already owned by "@ + other@,
                ),
            },
        )
    }
}

fn check_named(remote_task_id: &str, empty: &str) -> (result: Result<(), StoreError>)
    ensures
        answers(
            result,
            if blank(remote_task_id@) {
                fault(ErrorCode::InvalidPayload, empty@)
            } else {
                None
            },
        ),
{
    if is_blank(remote_task_id) {
        Err(StoreError::new(ErrorCode::InvalidPayload, empty))
    } else {
        Ok(())
    }
}

/// Refuses to attach a handle that names nothing.
pub fn check_attached_handle(remote_task_id: &str) -> (result: Result<(), StoreError>)
    ensures
        answers(
            result,
            if blank(remote_task_id@) {
                fault(ErrorCode::InvalidPayload, "a remote task id cannot be empty"@)
            } else {
                None
            },
        ),
{
    check_named(remote_task_id, "a remote task id cannot be empty")
}

/// Refuses to reconcile with a handle that names nothing.
pub fn check_reconciled_handle(remote_task_id: &str) -> (result: Result<(), StoreError>)
    ensures
        answers(
            result,
            if blank(remote_task_id@) {
                fault(ErrorCode::InvalidPayload, "a reconciliation needs the remote task id"@)
            } else {
                None
            },
        ),
{
    check_named(remote_task_id, "a reconciliation needs the remote task id")
}

fn check_handle(
    remote_task_id: &str,
    empty: &str,
    fence: &HostFence,
    held: Option<i64>,
    owner: &Option<String>,
) -> (result: Result<(), StoreError>)
    ensures
        answers(result, handle_fault(remote_task_id@, empty@, *fence, held, *owner)),
{
    check_named(remote_task_id, empty)?;
    check_fence(held, fence)?;
    match owner {
        None => Ok(()),
        Some(other) => {
            let message: String = cat4(
                "remote task ",
                remote_task_id,
                " is already owned by ",
                other.as_str(),
            );
            Err(StoreError::new(ErrorCode::DeliveryConflict, message.as_str()))
        },
    }
}

/// A job after a remote's handle was attached to it.
pub open spec fn accepted_as(
    before: StoredExternalJob,
    after: StoredExternalJob,
    remote_task_id: Seq<char>,
    poll_interval_ms: Option<i64>,
    next_poll_unix_ms: i64,
    at_unix_ms: i64,
) -> bool {
    &&& after == (StoredExternalJob {
        remote_task_id: after.remote_task_id,
        state: after.state,
        poll_interval_ms,
        next_poll_unix_ms,
        updated_at_unix_ms: at_unix_ms,
        ambiguity: after.ambiguity,
        ..before
    })
    &&& opt_text(after.remote_task_id) == Some(remote_task_id)
    &&& after.state@ == "accepted"@
}

/// Attaches the handle that a remote minted. A job that no longer waits for one
/// is left as it is, and the answer says so.
pub fn attach_remote_task(
    job: StoredExternalJob,
    remote_task_id: &str,
    poll_interval_ms: Option<i64>,
    next_poll_unix_ms: i64,
    at_unix_ms: i64,
    fence: &HostFence,
    held: Option<i64>,
    owner: &Option<String>,
) -> (result: Result<(StoredExternalJob, bool), StoreError>)
    ensures
        answers(
            result,
            handle_fault(
                remote_task_id@,
                "a remote task id cannot be empty"@,
                *fence,
                held,
                *owner,
            ),
        ),
        result is Ok ==> result->Ok_0.1 == waits_in(job, "submitting"@),
        result is Ok && !result->Ok_0.1 ==> result->Ok_0.0 == job,
        result is Ok && result->Ok_0.1 ==> accepted_as(
            job,
            result->Ok_0.0,
            remote_task_id@,
            poll_interval_ms,
            next_poll_unix_ms,
            at_unix_ms,
        ) && result->Ok_0.0.ambiguity is None,
{
    check_handle(remote_task_id, "a remote task id cannot be empty", fence, held, owner)?;
    if job.is_settled() || !same_text(job.state.as_str(), "submitting") {
        return Ok((job, false));
    }
    let mut after: StoredExternalJob = job;
    after.remote_task_id = Some(remote_task_id.to_owned());
    after.state = "accepted".to_owned();
    after.poll_interval_ms = poll_interval_ms;
    after.next_poll_unix_ms = next_poll_unix_ms;
    after.updated_at_unix_ms = at_unix_ms;
    after.ambiguity = None;
    Ok((after, true))
}

/// A job after its submission's fate was found to be unknown.
pub open spec fn ambiguous_as(
    before: StoredExternalJob,
    after: StoredExternalJob,
    reason: Seq<char>,
    at_unix_ms: i64,
) -> bool {
    &&& after == (StoredExternalJob {
        state: after.state,
        ambiguity: after.ambiguity,
        next_poll_unix_ms: i64::MAX,
        updated_at_unix_ms: at_unix_ms,
        ..before
    })
    &&& after.state@ == "ambiguous"@
    &&& opt_text(after.ambiguity) == Some(reason)
}

fn made_ambiguous(job: StoredExternalJob, reason: &str, at_unix_ms: i64) -> (after:
    StoredExternalJob)
    ensures
        ambiguous_as(job, after, reason@, at_unix_ms),
{
    let mut after: StoredExternalJob = job;
    after.state = "ambiguous".to_owned();
    after.ambiguity = Some(reason.to_owned());
    after.next_poll_unix_ms = i64::MAX;
    after.updated_at_unix_ms = at_unix_ms;
    after
}

/// Records that a submission's fate is unknown. The job stays open and needs
/// reconciliation.
pub fn mark_submission_ambiguous(
    job: StoredExternalJob,
    reason: &str,
    at_unix_ms: i64,
    fence: &HostFence,
    held: Option<i64>,
) -> (result: Result<(StoredExternalJob, bool), StoreError>)
    ensures
        answers(result, fence_fault(held, *fence)),
        result is Ok ==> result->Ok_0.1 == waits_in(job, "submitting"@),
        result is Ok && !result->Ok_0.1 ==> result->Ok_0.0 == job,
        result is Ok && result->Ok_0.1 ==> ambiguous_as(job, result->Ok_0.0, reason@, at_unix_ms),
{
    check_fence(held, fence)?;
    if job.is_settled() || !same_text(job.state.as_str(), "submitting") {
        return Ok((job, false));
    }
    Ok((made_ambiguous(job, reason, at_unix_ms), true))
}

/// Resolves an ambiguous submission with a handle that a human supplied. Nothing
/// is submitted again: the handle says which remote task the request became.
pub fn reconcile_external_job(
    job: StoredExternalJob,
    remote_task_id: &str,
    poll_interval_ms: Option<i64>,
    next_poll_unix_ms: i64,
    at_unix_ms: i64,
    fence: &HostFence,
    held: Option<i64>,
    owner: &Option<String>,
) -> (result: Result<(StoredExternalJob, bool), StoreError>)
    ensures
        answers(
            result,
            handle_fault(
                remote_task_id@,
                "a reconciliation needs the remote task id"@,
                *fence,
                held,
                *owner,
            ),
        ),
        result is Ok ==> result->Ok_0.1 == waits_in(job, "ambiguous"@),
        result is Ok && !result->Ok_0.1 ==> result->Ok_0.0 == job,
        result is Ok && result->Ok_0.1 ==> accepted_as(
            job,
            result->Ok_0.0,
            remote_task_id@,
            poll_interval_ms,
            next_poll_unix_ms,
            at_unix_ms,
        ),
        result is Ok && result->Ok_0.1 ==> opt_text(result->Ok_0.0.ambiguity) == match job.ambiguity {
            None => None::<Seq<char>>,
            Some(reason) => Some(reason@ + " | reconciled with a remote handle"@),
        },
{
    check_handle(remote_task_id, "a reconciliation needs the remote task id", fence, held, owner)?;
    if job.is_settled() || !same_text(job.state.as_str(), "ambiguous") {
        return Ok((job, false));
    }
    let ambiguity: Option<String> = match &job.ambiguity {
        None => None,
        Some(reason) => Some(cat(reason.as_str(), " | reconciled with a remote handle")),
    };
    let mut after: StoredExternalJob = job;
    after.remote_task_id = Some(remote_task_id.to_owned());
    after.state = "accepted".to_owned();
    after.poll_interval_ms = poll_interval_ms;
    after.next_poll_unix_ms = next_poll_unix_ms;
    after.updated_at_unix_ms = at_unix_ms;
    after.ambiguity = ambiguity;
    Ok((after, true))
}

/// A handle is attached to a submitting job, and a job that is ambiguous is reconciled with
/// one, if and only if the handle is named and nobody else owns it. The job is then accepted
/// with that handle, and polled as it says; what made it ambiguous is not lost to the poll.
pub proof fn law_free_handle_is_attached(
    before: StoredExternalJob,
    after: StoredExternalJob,
    remote_task_id: Seq<char>,
    empty: Seq<char>,
    poll_interval_ms: Option<i64>,
    next_poll_unix_ms: i64,
    at_unix_ms: i64,
    fence: HostFence,
    held: Option<i64>,
    owner: Option<String>,
)
    ensures
        handle_fault(remote_task_id, empty, fence, held, owner) is None <==> {
            &&& !blank(remote_task_id)
            &&& held is Some
            &&& held->Some_0 == fence.generation as int
            &&& owner is None
        },
        waits_in(before, "submitting"@) <==> before.state@ == "submitting"@
            && before.settled_at_unix_ms is None,
        waits_in(before, "ambiguous"@) <==> before.state@ == "ambiguous"@
            && before.settled_at_unix_ms is None,
        accepted_as(
            before,
            after,
            remote_task_id,
            poll_interval_ms,
            next_poll_unix_ms,
            at_unix_ms,
        ) ==> {
            &&& after.state@ == "accepted"@
            &&& after.remote_task_id is Some
            &&& after.remote_task_id->Some_0@ == remote_task_id
            &&& after.poll_interval_ms == poll_interval_ms
            &&& after.next_poll_unix_ms == next_poll_unix_ms
            &&& after.updated_at_unix_ms == at_unix_ms
            &&& after.settled_at_unix_ms == before.settled_at_unix_ms
            &&& after.job_id == before.job_id
            &&& after.server_id == before.server_id
            &&& after.request_digest == before.request_digest
            &&& after.attempt == before.attempt
            &&& after.deadline_unix_ms == before.deadline_unix_ms
        },
        accepted_as(
            before,
            after,
            remote_task_id,
            poll_interval_ms,
            next_poll_unix_ms,
            at_unix_ms,
        ) && before.settled_at_unix_ms is None ==> forall|now_unix_ms: i64| #[trigger]
            is_due(after, now_unix_ms) <==> next_poll_unix_ms <= now_unix_ms,
{
}

// ---------------------------------------------------------------------------
// Polling and canceling

/// Why a poll is not recorded. A job that is not there counts as settled.
pub open spec fn poll_fault(
    job: Option<StoredExternalJob>,
    attempt: u64,
    fence: HostFence,
    held: Option<i64>,
) -> Option<Fault> {
    first(
        fence_fault(held, fence),
        first(
            i64_fault(attempt, "external job attempt"@),
            if job is Some && job->Some_0.settled_at_unix_ms is None {
                None
            } else {
                fault(
                    ErrorCode::InvalidStateTransition,
                    "an external job that has settled cannot be polled"@,
                )
            },
        ),
    )
}

/// What a poll leaves: the job with what was seen and when it is polled next, and a line about
/// the poll.
pub open spec fn polled_as(
    before: StoredExternalJob,
    after: StoredExternalJob,
    poll: StoredExternalJobPoll,
    observed_state: Seq<char>,
    at_unix_ms: i64,
    attempt: u64,
    next_poll_unix_ms: i64,
) -> bool {
    &&& after == (StoredExternalJob {
        attempt,
        remote_state: after.remote_state,
        next_poll_unix_ms,
        updated_at_unix_ms: at_unix_ms,
        ..before
    })
    &&& opt_text(after.remote_state) == Some(observed_state)
    &&& poll.job_id == before.job_id
    &&& poll.polled_at_unix_ms == at_unix_ms
    &&& poll.observed_state@ == observed_state
    &&& poll.outcome@ == "running"@
}

/// Records one poll that found the job still running, and when the next one is
/// due. The job and the row of the poll log are returned together.
pub fn record_poll(
    job: Option<StoredExternalJob>,
    observed_state: &str,
    at_unix_ms: i64,
    attempt: u64,
    next_poll_unix_ms: i64,
    fence: &HostFence,
    held: Option<i64>,
) -> (result: Result<(StoredExternalJob, StoredExternalJobPoll), StoreError>)
    ensures
        answers(result, poll_fault(job, attempt, *fence, held)),
        result is Ok ==> polled_as(
            job->Some_0,
            result->Ok_0.0,
            result->Ok_0.1,
            observed_state@,
            at_unix_ms,
            attempt,
            next_poll_unix_ms,
        ),
{
    check_fence(held, fence)?;
    let stored: i64 = to_i64(attempt, "external job attempt")?;
    match job {
        Some(current) => {
            if !current.is_settled() {
                let poll: StoredExternalJobPoll = StoredExternalJobPoll {
                    job_id: current.job_id.clone(),
                    polled_at_unix_ms: at_unix_ms,
                    observed_state: observed_state.to_owned(),
                    outcome: "running".to_owned(),
                };
                let mut after: StoredExternalJob = current;
                after.attempt = attempt;
                after.remote_state = Some(observed_state.to_owned());
                after.next_poll_unix_ms = next_poll_unix_ms;
                after.updated_at_unix_ms = at_unix_ms;
                return Ok((after, poll));
            }
        },
        None => {},
    }
    Err(
        StoreError::new(
            ErrorCode::InvalidStateTransition,
            "an external job that has settled cannot be polled",
        ),
    )
}

/// A job that a remote is known to work on.
pub open spec fn is_running(job: StoredExternalJob) -> bool {
    waits_in(job, "accepted"@) || waits_in(job, "cancel_requested"@)
}

fn running(job: &StoredExternalJob) -> (result: bool)
    ensures
        result == is_running(*job),
{
    !job.is_settled() && (same_text(job.state.as_str(), "accepted") || same_text(
        job.state.as_str(),
        "cancel_requested",
    ))
}

/// A job after it was asked to cancel: it is polled at once.
pub open spec fn asked_to_cancel(
    before: StoredExternalJob,
    after: StoredExternalJob,
    at_unix_ms: i64,
) -> bool {
    &&& after == (StoredExternalJob {
        state: after.state,
        next_poll_unix_ms: at_unix_ms,
        updated_at_unix_ms: at_unix_ms,
        ..before
    })
    &&& after.state@ == "cancel_requested"@
}

/// Asks for a cancel without settling anything: the remote's own next status is
/// what settles the job.
pub fn request_external_cancel(
    job: StoredExternalJob,
    at_unix_ms: i64,
    fence: &HostFence,
    held: Option<i64>,
) -> (result: Result<(StoredExternalJob, bool), StoreError>)
    ensures
        answers(result, fence_fault(held, *fence)),
        result is Ok ==> result->Ok_0.1 == is_running(job),
        result is Ok && !result->Ok_0.1 ==> result->Ok_0.0 == job,
        result is Ok && result->Ok_0.1 ==> asked_to_cancel(job, result->Ok_0.0, at_unix_ms),
{
    check_fence(held, fence)?;
    if !running(&job) {
        return Ok((job, false));
    }
    let mut after: StoredExternalJob = job;
    after.state = "cancel_requested".to_owned();
    after.next_poll_unix_ms = at_unix_ms;
    after.updated_at_unix_ms = at_unix_ms;
    Ok((after, true))
}

/// A running job with a handle whose next poll is due.
pub open spec fn is_due(job: StoredExternalJob, now_unix_ms: i64) -> bool {
    is_running(job) && job.remote_task_id is Some && job.next_poll_unix_ms <= now_unix_ms
}

/// Whether a job is to be polled now.
pub fn job_is_due(job: &StoredExternalJob, now_unix_ms: i64) -> (due: bool)
    ensures
        due == is_due(*job, now_unix_ms),
{
    running(job) && job.remote_task_id.is_some() && job.next_poll_unix_ms <= now_unix_ms
}

/// A job that has not settled is polled, whatever its state. It is due if and only if it has a
/// handle, is accepted or asked to cancel, and its time has come. It is asked to cancel from
/// either of the two, and an ambiguous job is never due.
pub proof fn law_unsettled_job_is_polled(
    job: StoredExternalJob,
    attempt: u64,
    now_unix_ms: i64,
    fence: HostFence,
    held: Option<i64>,
)
    ensures
        poll_fault(Some(job), attempt, fence, held) is None <==> {
            &&& held is Some
            &&& held->Some_0 == fence.generation as int
            &&& attempt <= i64::MAX
            &&& job.settled_at_unix_ms is None
        },
        poll_fault(None, attempt, fence, held) is Some,
        is_running(job) <==> job.settled_at_unix_ms is None && (job.state@ == "accepted"@
            || job.state@ == "cancel_requested"@),
        is_due(job, now_unix_ms) <==> {
            &&& job.settled_at_unix_ms is None
            &&& job.state@ == "accepted"@ || job.state@ == "cancel_requested"@
            &&& job.remote_task_id is Some
            &&& job.next_poll_unix_ms <= now_unix_ms
        },
{
}

/// A job that was polled keeps its state, its handle and its request, and is due again when it
/// was said. A job that was asked to cancel is due at once where it has a handle, and nothing
/// is settled by either.
pub proof fn law_polling_and_canceling_keep_the_job(
    before: StoredExternalJob,
    polled: StoredExternalJob,
    poll: StoredExternalJobPoll,
    canceled: StoredExternalJob,
    observed_state: Seq<char>,
    at_unix_ms: i64,
    attempt: u64,
    next_poll_unix_ms: i64,
)
    requires
        before.settled_at_unix_ms is None,
        polled_as(
            before,
            polled,
            poll,
            observed_state,
            at_unix_ms,
            attempt,
            next_poll_unix_ms,
        ),
        asked_to_cancel(before, canceled, at_unix_ms),
    ensures
        polled.state == before.state,
        polled.attempt == attempt,
        polled.next_poll_unix_ms == next_poll_unix_ms,
        polled.updated_at_unix_ms == at_unix_ms,
        polled.remote_state is Some,
        polled.remote_state->Some_0@ == observed_state,
        polled.remote_task_id == before.remote_task_id,
        polled.request_digest == before.request_digest,
        polled.deadline_unix_ms == before.deadline_unix_ms,
        polled.settled_at_unix_ms is None,
        poll.job_id == before.job_id,
        poll.polled_at_unix_ms == at_unix_ms,
        poll.observed_state@ == observed_state,
        poll.outcome@ == "running"@,
        canceled.state@ == "cancel_requested"@,
        canceled.settled_at_unix_ms is None,
        canceled.attempt == before.attempt,
        canceled.request_digest == before.request_digest,
        before.remote_task_id is Some ==> is_due(canceled, at_unix_ms),
{
}

// ---------------------------------------------------------------------------
// Settling

/// Why a settlement is malformed.
pub open spec fn settlement_shape_fault(settlement: ExternalJobSettlement) -> Option<Fault> {
    if !is_terminal_state(settlement.state@) {
        fault(ErrorCode::InvalidPayload, "an external job settles into a terminal state"@)
    } else if !is_json(settlement.outcome_json@) {
        fault(ErrorCode::InvalidPayload, "an external job outcome must be JSON"@)
    } else {
        None
    }
}

/// Refuses a malformed settlement.
pub fn validate_settlement(settlement: &ExternalJobSettlement) -> (result: Result<(), StoreError>)
    ensures
        answers(result, settlement_shape_fault(*settlement)),
{
    if !terminal_state(settlement.state.as_str()) {
        return Err(
            StoreError::new(
                ErrorCode::InvalidPayload,
                "an external job settles into a terminal state",
            ),
        );
    }
    if !json_is_valid(settlement.outcome_json.as_str()) {
        return Err(
            StoreError::new(ErrorCode::InvalidPayload, "an external job outcome must be JSON"),
        );
    }
    Ok(())
}

/// Why a settlement does not apply to an unsettled job.
pub open spec fn guard_fault(job: StoredExternalJob, settlement: ExternalJobSettlement) -> Option<
    Fault,
> {
    if settlement.state@ == "abandoned"@ && job.state@ != "ambiguous"@ {
        fault(
            ErrorCode::InvalidStateTransition,
            "only an ambiguous submission can be abandoned"@,
        )
    } else if !is_job_state(job.state@) {
        fault(
            ErrorCode::InvalidStateTransition,
            "the external job is not in a state this settlement applies to"@,
        )
    } else {
        None
    }
}

/// Refuses a settlement that does not apply to an unsettled job.
pub fn guard_settlement(job: &StoredExternalJob, settlement: &ExternalJobSettlement) -> (result:
    Result<(), StoreError>)
    ensures
        answers(result, guard_fault(*job, *settlement)),
{
    if same_text(settlement.state.as_str(), "abandoned") && !same_text(
        job.state.as_str(),
        "ambiguous",
    ) {
        return Err(
            StoreError::new(
                ErrorCode::InvalidStateTransition,
                "only an ambiguous submission can be abandoned",
            ),
        );
    }
    if !job_state(job.state.as_str()) {
        return Err(
            StoreError::new(
                ErrorCode::InvalidStateTransition,
                "the external job is not in a state this settlement applies to",
            ),
        );
    }
    Ok(())
}

/// Why a job is not settled. `stored_payload` is the digest that the delivery's
/// message id already stands for.
pub open spec fn settle_fault(
    job: Option<StoredExternalJob>,
    settlement: ExternalJobSettlement,
    delivery: Option<ParentDeliveryRecord>,
    stored_payload: Option<String>,
    fence: HostFence,
    held: Option<i64>,
) -> Option<Fault> {
    first(
        settlement_shape_fault(settlement),
        first(
            fence_fault(held, fence),
            match job {
                None => fault(ErrorCode::TaskNotFound, "no such external job"@),
                Some(current) => if current.settled_at_unix_ms is Some {
                    if opt_text(current.outcome_digest) == Some(settlement.outcome_digest@) {
                        None
                    } else {
                        fault(
                            ErrorCode::DeliveryConflict,
                            "a settled external job cannot be settled again with a different outcome"@,
                        )
                    }
                } else {
                    first(
                        guard_fault(current, settlement),
                        match delivery {
                            None => None,
                            Some(message) => delivery_fault(message, stored_payload),
                        },
                    )
                },
            },
        ),
    )
}

/// A job after it was settled. A remote status that was not observed anew stays
/// the last one that was.
pub open spec fn settled_as(
    before: StoredExternalJob,
    settlement: ExternalJobSettlement,
    delivery: Option<ParentDeliveryRecord>,
) -> StoredExternalJob {
    StoredExternalJob {
        state: settlement.state,
        settled_at_unix_ms: Some(settlement.settled_at_unix_ms),
        outcome_json: Some(settlement.outcome_json),
        outcome_digest: Some(settlement.outcome_digest),
        remote_state: match settlement.remote_state {
            Some(observed) => Some(observed),
            None => before.remote_state,
        },
        next_poll_unix_ms: i64::MAX,
        updated_at_unix_ms: settlement.settled_at_unix_ms,
        delivery_message_id: match delivery {
            None => None,
            Some(message) => Some(message.message_id),
        },
        ..before
    }
}

/// The row of the poll log that a settlement leaves.
pub open spec fn settlement_poll(
    job_id: String,
    settlement: ExternalJobSettlement,
) -> StoredExternalJobPoll {
    StoredExternalJobPoll {
        job_id,
        polled_at_unix_ms: settlement.settled_at_unix_ms,
        observed_state: match settlement.remote_state {
            Some(observed) => observed,
            None => settlement.state,
        },
        outcome: settlement.state,
    }
}

/// What a settlement does.
#[derive(Clone, Debug, PartialEq, Eq)]
pub enum SettlementOutcome {
    /// The job was settled before with the same outcome.
    Replayed,
    /// The job, its poll-log row, and whether its delivery is new.
    Settled(StoredExternalJob, StoredExternalJobPoll, bool),
}

/// Settles a job and delivers its outcome: both, or neither. The same outcome
/// again changes nothing, and another one is refused.
pub fn settle_external_job(
    job: Option<StoredExternalJob>,
    settlement: &ExternalJobSettlement,
    delivery: &Option<ParentDeliveryRecord>,
    stored_payload: &Option<String>,
    fence: &HostFence,
    held: Option<i64>,
) -> (result: Result<SettlementOutcome, StoreError>)
    ensures
        answers(
            result,
            settle_fault(job, *settlement, *delivery, *stored_payload, *fence, held),
        ),
        result is Ok ==> result->Ok_0 == if job->Some_0.settled_at_unix_ms is Some {
            SettlementOutcome::Replayed
        } else {
            SettlementOutcome::Settled(
                settled_as(job->Some_0, *settlement, *delivery),
                settlement_poll(job->Some_0.job_id, *settlement),
                delivery is Some && stored_payload is None,
            )
        },
{
    validate_settlement(settlement)?;
    check_fence(held, fence)?;
    let current: StoredExternalJob = match job {
        Some(current) => current,
        None => {
            return Err(StoreError::new(ErrorCode::TaskNotFound, "no such external job"));
        },
    };
    if current.is_settled() {
        let same: bool = match &current.outcome_digest {
            Some(digest) => same_text(digest.as_str(), settlement.outcome_digest.as_str()),
            None => false,
        };
        if same {
            return Ok(SettlementOutcome::Replayed);
        }
        return Err(
            StoreError::new(
                ErrorCode::DeliveryConflict,
                "a settled external job cannot be settled again with a different outcome",
            ),
        );
    }
    guard_settlement(&current, settlement)?;
    let (message_id, insert): (Option<String>, bool) = match delivery {
        None => (None, false),
        Some(message) => {
            let insert: bool = insert_delivery(message, stored_payload)?;
            (Some(message.message_id.clone()), insert)
        },
    };
    let poll: StoredExternalJobPoll = StoredExternalJobPoll {
        job_id: current.job_id.clone(),
        polled_at_unix_ms: settlement.settled_at_unix_ms,
        observed_state: match &settlement.remote_state {
            Some(observed) => observed.clone(),
            None => settlement.state.clone(),
        },
        outcome: settlement.state.clone(),
    };
    let mut after: StoredExternalJob = current;
    after.state = settlement.state.clone();
    after.settled_at_unix_ms = Some(settlement.settled_at_unix_ms);
    after.outcome_json = Some(settlement.outcome_json.clone());
    after.outcome_digest = Some(settlement.outcome_digest.clone());
    match &settlement.remote_state {
        Some(observed) => {
            after.remote_state = Some(observed.clone());
        },
        None => {},
    }
    after.next_poll_unix_ms = i64::MAX;
    after.updated_at_unix_ms = settlement.settled_at_unix_ms;
    after.delivery_message_id = message_id;
    Ok(SettlementOutcome::Settled(after, poll, insert))
}

/// A job that has not settled settles into each of the five terminal states, from whichever of
/// its states it is in, but is abandoned only where it is ambiguous. Its outcome is JSON, and
/// its message can be delivered where there is one. A job that has settled takes the same
/// outcome again, and no other.
pub proof fn law_unsettled_job_settles(
    job: StoredExternalJob,
    settlement: ExternalJobSettlement,
    delivery: Option<ParentDeliveryRecord>,
    stored_payload: Option<String>,
    fence: HostFence,
    held: Option<i64>,
)
    requires
        job.state@ == "submitting"@ || job.state@ == "accepted"@ || job.state@ == "ambiguous"@
            || job.state@ == "cancel_requested"@ || job.state@ == "completed"@ || job.state@
            == "failed"@ || job.state@ == "cancelled"@ || job.state@ == "abandoned"@ || job.state@
            == "deadline_exceeded"@,
    ensures
        settle_fault(Some(job), settlement, delivery, stored_payload, fence, held) is None <==> {
            &&& settlement.state@ == "completed"@ || settlement.state@ == "failed"@
                || settlement.state@ == "cancelled"@ || settlement.state@ == "abandoned"@
                || settlement.state@ == "deadline_exceeded"@
            &&& is_json(settlement.outcome_json@)
            &&& held is Some
            &&& held->Some_0 == fence.generation as int
            &&& job.settled_at_unix_ms is None ==> {
                &&& settlement.state@ == "abandoned"@ ==> job.state@ == "ambiguous"@
                &&& delivery is None || delivery_fault(delivery->Some_0, stored_payload) is None
            }
            &&& job.settled_at_unix_ms is Some ==> {
                &&& job.outcome_digest is Some
                &&& job.outcome_digest->Some_0@ == settlement.outcome_digest@
            }
        },
        settle_fault(None, settlement, delivery, stored_payload, fence, held) is Some,
        ({
            let after = settled_as(job, settlement, delivery);
            let poll = settlement_poll(job.job_id, settlement);
            &&& after.state == settlement.state
            &&& after.settled_at_unix_ms == Some(settlement.settled_at_unix_ms)
            &&& after.updated_at_unix_ms == settlement.settled_at_unix_ms
            &&& after.outcome_json == Some(settlement.outcome_json)
            &&& after.outcome_digest == Some(settlement.outcome_digest)
            &&& settlement.remote_state is Some ==> after.remote_state == settlement.remote_state
            &&& settlement.remote_state is None ==> after.remote_state == job.remote_state
            &&& delivery is Some ==> after.delivery_message_id == Some(
                delivery->Some_0.message_id,
            )
            &&& delivery is None ==> after.delivery_message_id is None
            &&& after.job_id == job.job_id
            &&& after.remote_task_id == job.remote_task_id
            &&& after.attempt == job.attempt
            &&& after.request_digest == job.request_digest
            &&& after.server_id == job.server_id
            &&& poll.job_id == job.job_id
            &&& poll.polled_at_unix_ms == settlement.settled_at_unix_ms
            &&& poll.outcome == settlement.state
            &&& settlement.remote_state is Some ==> poll.observed_state
                == settlement.remote_state->Some_0
            &&& settlement.remote_state is None ==> poll.observed_state == settlement.state
        }),
{
}

/// A job in a state that no job has is not settled, and whoever tries gets told so.
pub proof fn law_unknown_job_state_is_not_settled(
    job: StoredExternalJob,
    settlement: ExternalJobSettlement,
    delivery: Option<ParentDeliveryRecord>,
    stored_payload: Option<String>,
    fence: HostFence,
    held: Option<i64>,
)
    requires
        job.settled_at_unix_ms is None,
        job.state@ != "submitting"@ && job.state@ != "accepted"@ && job.state@ != "ambiguous"@
            && job.state@ != "cancel_requested"@ && job.state@ != "completed"@ && job.state@
            != "failed"@ && job.state@ != "cancelled"@ && job.state@ != "abandoned"@ && job.state@
            != "deadline_exceeded"@,
    ensures
        settle_fault(Some(job), settlement, delivery, stored_payload, fence, held) is Some,
{
}

/// A job settles once: after it was settled, the same outcome is a replay and
/// another one is refused, whichever host asks and whatever it would deliver, and the
/// job can no longer be polled, canceled, marked as ambiguous or given a handle.
pub proof fn law_job_settles_once(
    job: StoredExternalJob,
    settlement: ExternalJobSettlement,
    delivery: Option<ParentDeliveryRecord>,
    stored_payload: Option<String>,
    fence: HostFence,
    held: Option<i64>,
    second: ExternalJobSettlement,
    second_delivery: Option<ParentDeliveryRecord>,
    second_payload: Option<String>,
    later_fence: HostFence,
    later_held: Option<i64>,
    attempt: u64,
)
    requires
        settle_fault(Some(job), settlement, delivery, stored_payload, fence, held) is None,
        job.settled_at_unix_ms is None,
        settlement_shape_fault(second) is None,
        fence_fault(later_held, later_fence) is None,
    ensures
        ({
            let after = settled_as(job, settlement, delivery);
            let again = settle_fault(
                Some(after),
                second,
                second_delivery,
                second_payload,
                later_fence,
                later_held,
            );
            &&& second.outcome_digest@ == settlement.outcome_digest@ ==> again is None
            &&& second.outcome_digest@ != settlement.outcome_digest@ ==> again == fault(
                ErrorCode::DeliveryConflict,
                "a settled external job cannot be settled again with a different outcome"@,
            )
            &&& after.settled_at_unix_ms is Some
            &&& poll_fault(Some(after), attempt, later_fence, later_held) is Some
            &&& !is_running(after)
            &&& !waits_in(after, "submitting"@)
            &&& !waits_in(after, "ambiguous"@)
        }),
{
}

// ---------------------------------------------------------------------------
// Recovery

/// Why a submission that a stopped host left behind is ambiguous.
pub open spec fn interrupted_reason() -> Seq<char> {
    "the host stopped after recording the submission and before an answer was read"@
}

/// A running job that a remote knows: it has a handle, so its outcome can be found
/// out.
pub open spec fn is_resumable(job: StoredExternalJob) -> bool {
    is_running(job) && job.remote_task_id is Some
}

/// What recovery does to one job: a submission without an answer becomes
/// ambiguous, a running job with a handle is due at once where it was not due
/// already, and every other job is left as it is.
pub open spec fn recovered_as(
    before: StoredExternalJob,
    after: StoredExternalJob,
    now_unix_ms: i64,
) -> bool {
    if waits_in(before, "submitting"@) {
        ambiguous_as(before, after, interrupted_reason(), now_unix_ms)
    } else if is_resumable(before) && before.next_poll_unix_ms > now_unix_ms {
        after == (StoredExternalJob {
            next_poll_unix_ms: now_unix_ms,
            updated_at_unix_ms: now_unix_ms,
            ..before
        })
    } else {
        after == before
    }
}

/// The ids of the jobs that are ambiguous, in order.
pub open spec fn ambiguous_ids(jobs: Seq<StoredExternalJob>) -> Seq<Seq<char>>
    decreases jobs.len(),
{
    if jobs.len() == 0 {
        seq![]
    } else if waits_in(jobs.last(), "ambiguous"@) {
        ambiguous_ids(jobs.drop_last()).push(jobs.last().job_id@)
    } else {
        ambiguous_ids(jobs.drop_last())
    }
}

/// The ids of the jobs whose polling is resumed, in order.
pub open spec fn resumable_ids(jobs: Seq<StoredExternalJob>) -> Seq<Seq<char>>
    decreases jobs.len(),
{
    if jobs.len() == 0 {
        seq![]
    } else if is_resumable(jobs.last()) {
        resumable_ids(jobs.drop_last()).push(jobs.last().job_id@)
    } else {
        resumable_ids(jobs.drop_last())
    }
}

/// Recovers external work after a host starts. The report lists, in the order of the
/// jobs, every ambiguous job, also the ones that were ambiguous before, and every
/// job that is polled again, each of which is due afterwards.
pub fn recover_external_jobs(
    jobs: Vec<StoredExternalJob>,
    now_unix_ms: i64,
    fence: &HostFence,
    held: Option<i64>,
) -> (result: Result<(Vec<StoredExternalJob>, RecoveredExternalJobs), StoreError>)
    ensures
        answers(result, fence_fault(held, *fence)),
        result is Ok ==> {
            let after = result->Ok_0.0@;
            let report = result->Ok_0.1;
            &&& after.len() == jobs@.len()
            &&& forall|i: int|
                0 <= i < jobs@.len() ==> recovered_as(jobs@[i], #[trigger] after[i], now_unix_ms)
            &&& texts(report.ambiguous@) == ambiguous_ids(after)
            &&& texts(report.resumed@) == resumable_ids(jobs@)
            &&& forall|i: int|
                0 <= i < jobs@.len() && is_resumable(jobs@[i]) ==> is_resumable(
                    #[trigger] after[i],
                ) && after[i].next_poll_unix_ms <= now_unix_ms
        },
{
    check_fence(held, fence)?;
    let ghost before = jobs@;
    let mut rest: Vec<StoredExternalJob> = jobs;
    let mut after: Vec<StoredExternalJob> = Vec::new();
    let mut ambiguous: Vec<String> = Vec::new();
    let mut resumed: Vec<String> = Vec::new();
    let total: usize = rest.len();
    let mut i: usize = 0;
    assert(texts(ambiguous@) =~= seq![]);
    assert(texts(resumed@) =~= seq![]);
    while i < total
        invariant
            i <= total,
            total == before.len(),
            before == jobs@,
            fence_fault(held, *fence) is None,
            rest@ == before.skip(i as int),
            after@.len() == i,
            forall|j: int|
                0 <= j < i ==> recovered_as(before[j], #[trigger] after@[j], now_unix_ms),
            texts(ambiguous@) == ambiguous_ids(after@),
            texts(resumed@) == resumable_ids(before.take(i as int)),
            forall|j: int|
                0 <= j < i && is_resumable(before[j]) ==> is_resumable(#[trigger] after@[j])
                    && after@[j].next_poll_unix_ms <= now_unix_ms,
        decreases total - i,
    {
        let ghost known = ambiguous@;
        let ghost polled = resumed@;
        let ghost done = after@;
        let job: StoredExternalJob = rest.remove(0);
        proof {
            assert(job == before[i as int]);
            assert(rest@ =~= before.skip(i + 1));
            assert(before.take(i + 1).drop_last() =~= before.take(i as int));
            assert(before.take(i + 1).last() == before[i as int]);
        }
        let unanswered: bool = !job.is_settled() && same_text(job.state.as_str(), "submitting");
        let resume: bool = running(&job) && job.remote_task_id.is_some();
        if resume {
            resumed.push(job.job_id.clone());
            assert(texts(resumed@) =~= texts(polled).push(job.job_id@));
        }
        proof {
            lemma_job_states_differ();
        }
        let next: StoredExternalJob = if unanswered {
            made_ambiguous(
                job,
                "the host stopped after recording the submission and before an answer was read",
                now_unix_ms,
            )
        } else if resume && job.next_poll_unix_ms > now_unix_ms {
            let mut moved: StoredExternalJob = job;
            moved.next_poll_unix_ms = now_unix_ms;
            moved.updated_at_unix_ms = now_unix_ms;
            moved
        } else {
            job
        };
        if !next.is_settled() && same_text(next.state.as_str(), "ambiguous") {
            ambiguous.push(next.job_id.clone());
            assert(texts(ambiguous@) =~= texts(known).push(next.job_id@));
        }
        after.push(next);
        assert(after@.drop_last() =~= done);
        i += 1;
    }
    assert(before.take(i as int) =~= before);
    Ok((after, RecoveredExternalJobs { ambiguous, resumed }))
}

/// After a stop, a job that was submitting is ambiguous and waits for a person, one that was
/// running with a handle is polled at once, and any other is as it was.
pub proof fn law_stopped_jobs_resume_or_wait(
    before: StoredExternalJob,
    after: StoredExternalJob,
    now_unix_ms: i64,
)
    requires
        recovered_as(before, after, now_unix_ms),
    ensures
        before.settled_at_unix_ms is Some ==> after == before,
        before.settled_at_unix_ms is None && before.state@ == "submitting"@ ==> {
            &&& after.state@ == "ambiguous"@
            &&& after.ambiguity is Some
            &&& after.next_poll_unix_ms == i64::MAX
            &&& after.updated_at_unix_ms == now_unix_ms
            &&& after.settled_at_unix_ms is None
            &&& after.job_id == before.job_id
            &&& after.remote_task_id == before.remote_task_id
        },
        before.settled_at_unix_ms is None && (before.state@ == "accepted"@ || before.state@
            == "cancel_requested"@) && before.remote_task_id is Some ==> {
            &&& after.state == before.state
            &&& after.remote_task_id == before.remote_task_id
            &&& after.job_id == before.job_id
            &&& is_due(after, now_unix_ms)
        },
        before.settled_at_unix_ms is None && before.state@ == "ambiguous"@ ==> after == before,
{
    reveal_strlit("submitting");
    reveal_strlit("accepted");
    reveal_strlit("cancel_requested");
    reveal_strlit("ambiguous");
    assert("submitting"@.len() == 10);
    assert("accepted"@.len() == 8);
    assert("cancel_requested"@.len() == 16);
    assert("ambiguous"@.len() == 9);
}

/// The report of a recovery names the jobs that are ambiguous, and those that run with a
/// handle, and no others.
pub proof fn law_recovery_reports_every_open_job(jobs: Seq<StoredExternalJob>, id: Seq<char>)
    ensures
        ambiguous_ids(jobs).contains(id) <==> exists|i: int|
            0 <= i < jobs.len() && (#[trigger] jobs[i]).job_id@ == id && jobs[i].state@
                == "ambiguous"@ && jobs[i].settled_at_unix_ms is None,
        resumable_ids(jobs).contains(id) <==> exists|i: int|
            0 <= i < jobs.len() && (#[trigger] jobs[i]).job_id@ == id && (jobs[i].state@
                == "accepted"@ || jobs[i].state@ == "cancel_requested"@)
                && jobs[i].settled_at_unix_ms is None && jobs[i].remote_task_id is Some,
    decreases jobs.len(),
{
    if jobs.len() > 0 {
        let head = jobs.drop_last();
        let last = jobs[jobs.len() - 1];
        law_recovery_reports_every_open_job(head, id);
        crate::seqs::lemma_push_contains(ambiguous_ids(head), last.job_id@, id);
        crate::seqs::lemma_push_contains(resumable_ids(head), last.job_id@, id);
        assert forall|i: int| 0 <= i < head.len() implies head[i] == #[trigger] jobs[i] by {}
        if ambiguous_ids(head).contains(id) {
            let i = choose|i: int|
                0 <= i < head.len() && (#[trigger] head[i]).job_id@ == id && head[i].state@
                    == "ambiguous"@ && head[i].settled_at_unix_ms is None;
            assert(jobs[i].job_id@ == id);
        }
        if resumable_ids(head).contains(id) {
            let i = choose|i: int|
                0 <= i < head.len() && (#[trigger] head[i]).job_id@ == id && (head[i].state@
                    == "accepted"@ || head[i].state@ == "cancel_requested"@)
                    && head[i].settled_at_unix_ms is None && head[i].remote_task_id is Some;
            assert(jobs[i].job_id@ == id);
        }
        if waits_in(last, "ambiguous"@) && last.job_id@ == id {
            assert(jobs[jobs.len() - 1].job_id@ == id);
        }
        if is_resumable(last) && last.job_id@ == id {
            assert(jobs[jobs.len() - 1].job_id@ == id);
        }
        if exists|i: int|
            0 <= i < jobs.len() && (#[trigger] jobs[i]).job_id@ == id && jobs[i].state@
                == "ambiguous"@ && jobs[i].settled_at_unix_ms is None {
            let i = choose|i: int|
                0 <= i < jobs.len() && (#[trigger] jobs[i]).job_id@ == id && jobs[i].state@
                    == "ambiguous"@ && jobs[i].settled_at_unix_ms is None;
            if i < head.len() {
                assert(head[i].job_id@ == id);
            }
        }
        if exists|i: int|
            0 <= i < jobs.len() && (#[trigger] jobs[i]).job_id@ == id && (jobs[i].state@
                == "accepted"@ || jobs[i].state@ == "cancel_requested"@)
                && jobs[i].settled_at_unix_ms is None && jobs[i].remote_task_id is Some {
            let i = choose|i: int|
                0 <= i < jobs.len() && (#[trigger] jobs[i]).job_id@ == id && (jobs[i].state@
                    == "accepted"@ || jobs[i].state@ == "cancel_requested"@)
                    && jobs[i].settled_at_unix_ms is None && jobs[i].remote_task_id is Some;
            if i < head.len() {
                assert(head[i].job_id@ == id);
            }
        }
    }
}

/// The states that recovery tells apart are different texts.
proof fn lemma_job_states_differ()
    ensures
        "submitting"@ != "accepted"@,
        "submitting"@ != "cancel_requested"@,
        "submitting"@ != "ambiguous"@,
        "ambiguous"@ != "accepted"@,
        "ambiguous"@ != "cancel_requested"@,
{
    reveal_strlit("submitting");
    reveal_strlit("accepted");
    reveal_strlit("cancel_requested");
    reveal_strlit("ambiguous");
    assert("submitting"@.len() == 10);
    assert("accepted"@.len() == 8);
    assert("cancel_requested"@.len() == 16);
    assert("ambiguous"@.len() == 9);
}

/// Recovery submits nothing again and settles nothing: a job that it touches
/// stays the same request, no job waits for an answer afterwards, and a settled
/// job is untouched. A job with a handle that ran before runs on, and is due.
/// Recovering once more at the same instant changes nothing.
pub proof fn law_recovery_is_safe_to_repeat(
    before: StoredExternalJob,
    after: StoredExternalJob,
    again: StoredExternalJob,
    now_unix_ms: i64,
)
    requires
        recovered_as(before, after, now_unix_ms),
        recovered_as(after, again, now_unix_ms),
    ensures
        !waits_in(after, "submitting"@),
        after.job_id == before.job_id,
        after.request_digest == before.request_digest,
        after.remote_task_id == before.remote_task_id,
        after.settled_at_unix_ms == before.settled_at_unix_ms,
        before.settled_at_unix_ms is Some ==> after == before,
        is_resumable(before) ==> is_resumable(after) && after.next_poll_unix_ms <= now_unix_ms,
        again == after,
{
    lemma_job_states_differ();
}

// ---------------------------------------------------------------------------
// Reading back

/// Reads a job back: everything but its attempt count is as the row holds it.
pub fn decode_external_job(job: StoredExternalJob, attempt: i64) -> (result: Result<
    StoredExternalJob,
    StoreError,
>)
    ensures
        answers(
            result,
            unsigned_fault(attempt, ErrorCode::InvalidSequence, "stored attempt is negative"@),
        ),
        result is Ok ==> result->Ok_0 == (StoredExternalJob { attempt: attempt as u64, ..job }),
{
    let attempt: u64 = to_unsigned(
        attempt,
        ErrorCode::InvalidSequence,
        "stored attempt is negative",
    )?;
    let mut decoded: StoredExternalJob = job;
    decoded.attempt = attempt;
    Ok(decoded)
}

} // verus!

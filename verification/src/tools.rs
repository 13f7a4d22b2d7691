//! Tool approvals, intents and settlements, and the projects that tools work in.
//!
//! An approval is bound to one action and spent once. An execution leaves a
//! durable intent before it runs and one settlement after it, so a host that
//! stops in between finds an intent to reconcile and never runs it again.

use crate::columns::{
    i64_fault, i64_option, i64_option_fault, to_i64, to_i64_option, to_u64, to_u64_option,
    u64_fault, u64_option, u64_option_fault,
};
use crate::error::{
    answers, check_digest, check_verdict, digest_fault, fault, first, hashed_json_fault,
    parsed_option, stored_fault, stored_option, stored_option_fault, stored_value,
    validate_hashed_json, verdict_fault, written_option, ErrorCode, Fault, Parsed, StoreError,
    Verdict,
};
use crate::journal::{
    append, append_fault, append_write, artifact_length_fault, check_artifact_length,
    check_fence, check_optional_artifact, describe_one_event, fence_fault, is_looked_at, one_event,
    optional_artifact_fault, EventEnvelope, HostFence, JournalRows, JournalWrite,
    PublishedArtifact, PublishedFile, ReceiptAck, ReceiptOutcome, SourceWorkMarker,
    ToolExecutionReceipt, WorkingState,
};
use crate::json::{is_json, json_is_valid};
use crate::states::{ToolApprovalState, ToolIntentStatus};
use crate::text::{blank, is_blank, opt_text, same_option, same_text};
use vstd::prelude::*;

verus! {

/// A durable approval of one action.
#[derive(Clone, Debug, PartialEq, Eq)]
pub struct ToolApprovalRecord {
    pub approval_id: String,
    pub actor_id: String,
    pub binding_hash: String,
    pub action_hash: String,
    pub workspace_root: String,
    pub workspace_fingerprint: String,
    pub policy_revision: u64,
    pub tool_revision: u64,
    pub expires_at_unix_ms: Option<u64>,
    pub state: ToolApprovalState,
    /// The approval as JSON text.
    pub approval_json: String,
}

/// What a tool says its approval covers.
#[derive(Clone, Debug, PartialEq, Eq)]
pub struct ToolApprovalBinding {
    pub approval_id: String,
    pub actor_id: String,
    pub action_hash: String,
    pub workspace_root: String,
    pub workspace_fingerprint: String,
    pub policy_revision: u64,
    pub tool_revision: u64,
}

/// The durable statement that a tool is about to run.
#[derive(Clone, Debug, PartialEq, Eq)]
pub struct ToolIntentRecord {
    pub tool_execution_id: String,
    pub session_id: String,
    pub task_id: String,
    pub invocation_id: String,
    pub actor_id: String,
    pub tool_name: String,
    /// The action as JSON text.
    pub action_json: String,
    pub action_hash: String,
    pub workspace_root: String,
    pub workspace_fingerprint: String,
    pub before_fingerprint: Option<String>,
    pub policy_revision: u64,
    pub tool_revision: u64,
    pub approval: ToolApprovalBinding,
    pub status: ToolIntentStatus,
    pub intent_sequence: u64,
}

/// One intent and everything that is written with it.
#[derive(Clone, Debug)]
pub struct ToolIntentCommit {
    pub expected_sequence: u64,
    pub event: EventEnvelope,
    pub intent: ToolIntentRecord,
    pub working_state: WorkingState,
    pub marker: SourceWorkMarker,
}

/// One settlement and everything that is written with it.
#[derive(Clone, Debug)]
pub struct ToolSettlementCommit {
    pub expected_sequence: u64,
    pub event: EventEnvelope,
    pub receipt: ToolExecutionReceipt,
    pub working_state: WorkingState,
    pub marker: SourceWorkMarker,
    pub artifact: Option<PublishedArtifact>,
    pub final_status: ToolIntentStatus,
}

/// One approved change to a task and everything that is written with it.
#[derive(Clone, Debug)]
pub struct ToolTaskUpdateCommit {
    pub session_id: String,
    pub task_id: String,
    pub expected_sequence: u64,
    pub event: EventEnvelope,
    pub working_state: WorkingState,
    pub marker: SourceWorkMarker,
    pub approval: ToolApprovalBinding,
}

/// One workspace root and the project it belongs to.
#[derive(Clone, Debug, PartialEq, Eq)]
pub struct ProjectRegistrationRecord {
    pub project_id: String,
    pub canonical_root: String,
    pub git_common_dir: Option<String>,
    pub identity_hash: String,
}

// ---------------------------------------------------------------------------
// Issuing and revoking approvals

/// Why an approval cannot be issued. `canonical` is the digest of its JSON.
pub open spec fn approval_shape_fault(record: ToolApprovalRecord, canonical: Parsed) -> Option<
    Fault,
> {
    if record.state != ToolApprovalState::Active || blank(record.actor_id@) || blank(
        record.workspace_root@,
    ) || record.policy_revision == 0 || record.tool_revision == 0 {
        fault(ErrorCode::InvalidPayload, "tool approval has an invalid immutable binding"@)
    } else {
        digest_fault(
            canonical,
            record.binding_hash@,
            "tool approval binding is not canonical: "@,
            ErrorCode::InvalidHash,
            "tool approval binding hash does not match canonical approval JSON"@,
        )
    }
}

/// Refuses an approval that is incomplete or not bound to its own JSON.
pub fn validate_tool_approval(record: &ToolApprovalRecord, canonical: &Parsed) -> (result: Result<
    (),
    StoreError,
>)
    ensures
        answers(result, approval_shape_fault(*record, *canonical)),
{
    if record.state != ToolApprovalState::Active || is_blank(record.actor_id.as_str()) || is_blank(
        record.workspace_root.as_str(),
    ) || record.policy_revision == 0 || record.tool_revision == 0 {
        return Err(
            StoreError::new(
                ErrorCode::InvalidPayload,
                "tool approval has an invalid immutable binding",
            ),
        );
    }
    check_digest(
        canonical,
        record.binding_hash.as_str(),
        "tool approval binding is not canonical: ",
        ErrorCode::InvalidHash,
        "tool approval binding hash does not match canonical approval JSON",
    )
}

/// The approval that an identity is already bound to.
#[derive(Clone, Debug)]
pub struct IssuedApproval {
    pub binding_hash: String,
    pub approval_json: String,
}

/// Why an approval is not issued.
pub open spec fn issue_fault(
    record: ToolApprovalRecord,
    canonical: Parsed,
    fence: HostFence,
    held: Option<i64>,
    existing: Option<IssuedApproval>,
) -> Option<Fault> {
    first(
        approval_shape_fault(record, canonical),
        first(
            fence_fault(held, fence),
            first(
                i64_fault(record.policy_revision, "tool approval policy revision"@),
                first(
                    i64_fault(record.tool_revision, "tool approval revision"@),
                    first(
                        i64_option_fault(record.expires_at_unix_ms, "tool approval expiry"@),
                        match existing {
                            None => None,
                            Some(issued) => if issued.binding_hash@ != record.binding_hash@
                                || issued.approval_json@ != record.approval_json@ {
                                fault(
                                    ErrorCode::IdempotencyConflict,
                                    "tool approval ID is already bound to different authority"@,
                                )
                            } else {
                                None
                            },
                        },
                    ),
                ),
            ),
        ),
    )
}

/// Whether an approval is written. The same approval again is not an error and
/// changes nothing.
pub fn decide_approval_issue(
    record: &ToolApprovalRecord,
    canonical: &Parsed,
    fence: &HostFence,
    held: Option<i64>,
    existing: &Option<IssuedApproval>,
) -> (result: Result<bool, StoreError>)
    ensures
        answers(result, issue_fault(*record, *canonical, *fence, held, *existing)),
        result is Ok ==> result->Ok_0 == (existing is None),
{
    validate_tool_approval(record, canonical)?;
    check_fence(held, fence)?;
    let policy: i64 = to_i64(record.policy_revision, "tool approval policy revision")?;
    let tool: i64 = to_i64(record.tool_revision, "tool approval revision")?;
    let expiry: Option<i64> = to_i64_option(record.expires_at_unix_ms, "tool approval expiry")?;
    match existing {
        None => Ok(true),
        Some(issued) => {
            if !same_text(issued.binding_hash.as_str(), record.binding_hash.as_str())
                || !same_text(issued.approval_json.as_str(), record.approval_json.as_str()) {
                return Err(
                    StoreError::new(
                        ErrorCode::IdempotencyConflict,
                        "tool approval ID is already bound to different authority",
                    ),
                );
            }
            Ok(false)
        },
    }
}

/// A host that may write issues an approval if and only if the approval is active, says who
/// gave it and where, has revisions that a column can hold, and is bound to its own JSON.
/// Its identity is free, or has been given to the very same approval before.
pub proof fn law_approval_is_issued_where_it_is_complete(
    record: ToolApprovalRecord,
    canonical: Parsed,
    fence: HostFence,
    held: Option<i64>,
    existing: Option<IssuedApproval>,
)
    ensures
        issue_fault(record, canonical, fence, held, existing) is None <==> {
            &&& record.state == ToolApprovalState::Active
            &&& !blank(record.actor_id@)
            &&& !blank(record.workspace_root@)
            &&& 0 < record.policy_revision <= i64::MAX
            &&& 0 < record.tool_revision <= i64::MAX
            &&& record.expires_at_unix_ms is None || record.expires_at_unix_ms->Some_0 <= i64::MAX
            &&& canonical is Ok
            &&& canonical->Ok_0@ == record.binding_hash@
            &&& held is Some
            &&& held->Some_0 == fence.generation as int
            &&& existing is None || {
                &&& existing->Some_0.binding_hash@ == record.binding_hash@
                &&& existing->Some_0.approval_json@ == record.approval_json@
            }
        },
{
}

/// Why an approval cannot be revoked. `state` is its stored state, where it is
/// stored.
pub open spec fn revocation_fault(
    reason: Seq<char>,
    fence: HostFence,
    held: Option<i64>,
    state: Option<Seq<char>>,
) -> Option<Fault> {
    if blank(reason) {
        fault(ErrorCode::InvalidPayload, "tool approval revocation reason must not be empty"@)
    } else {
        first(
            fence_fault(held, fence),
            if state == Some(ToolApprovalState::Active.text()) {
                None
            } else {
                fault(
                    ErrorCode::ApprovalRevoked,
                    "tool approval is absent, consumed, or already revoked"@,
                )
            },
        )
    }
}

/// Lets an active approval be revoked; the state it is left in is returned.
pub fn decide_approval_revocation(
    reason: &str,
    fence: &HostFence,
    held: Option<i64>,
    state: &Option<String>,
) -> (result: Result<ToolApprovalState, StoreError>)
    ensures
        answers(result, revocation_fault(reason@, *fence, held, opt_text(*state))),
        result is Ok ==> result->Ok_0 == ToolApprovalState::Revoked,
{
    if is_blank(reason) {
        return Err(
            StoreError::new(
                ErrorCode::InvalidPayload,
                "tool approval revocation reason must not be empty",
            ),
        );
    }
    check_fence(held, fence)?;
    match state {
        Some(text) => if same_text(text.as_str(), "active") {
            return Ok(ToolApprovalState::Revoked);
        },
        None => {},
    }
    Err(
        StoreError::new(
            ErrorCode::ApprovalRevoked,
            "tool approval is absent, consumed, or already revoked",
        ),
    )
}

/// A host that may write and gives a reason revokes every active approval, and no other.
pub proof fn law_active_approval_is_revoked(
    reason: Seq<char>,
    fence: HostFence,
    held: Option<i64>,
    state: Option<Seq<char>>,
)
    ensures
        revocation_fault(reason, fence, held, state) is None <==> {
            &&& !blank(reason)
            &&& held is Some
            &&& held->Some_0 == fence.generation as int
            &&& state is Some
            &&& state->Some_0 == "active"@
        },
{
}

/// What an approval was spent on, or was revoked for, stands: one that is no longer
/// active cannot be revoked.
pub proof fn law_only_an_unused_approval_is_revoked(
    reason: Seq<char>,
    fence: HostFence,
    held: Option<i64>,
    state: ToolApprovalState,
)
    requires
        state != ToolApprovalState::Active,
    ensures
        revocation_fault(reason, fence, held, Some(state.text())) is Some,
        revocation_fault(reason, fence, held, None) is Some,
{
    crate::states::law_tool_approval_state_texts_differ(state, ToolApprovalState::Active);
}

// ---------------------------------------------------------------------------
// Spending an approval

/// The host's clock, in milliseconds since the Unix epoch.
#[derive(Clone, Copy, Debug, PartialEq, Eq)]
pub enum Clock {
    BeforeEpoch,
    Millis(u128),
}

/// Why the clock cannot be used.
pub open spec fn clock_fault(clock: Clock) -> Option<Fault> {
    match clock {
        Clock::BeforeEpoch => fault(
            ErrorCode::ApprovalStale,
            "system clock is before Unix epoch"@,
        ),
        Clock::Millis(value) => if value > u64::MAX {
            fault(ErrorCode::ApprovalStale, "system clock milliseconds exceed range"@)
        } else {
            None
        },
    }
}

/// The clock's reading in milliseconds.
pub fn clock_unix_ms(clock: Clock) -> (result: Result<u64, StoreError>)
    ensures
        answers(result, clock_fault(clock)),
        result is Ok ==> clock == Clock::Millis(result->Ok_0 as u128),
{
    match clock {
        Clock::BeforeEpoch => Err(
            StoreError::new(ErrorCode::ApprovalStale, "system clock is before Unix epoch"),
        ),
        Clock::Millis(value) => if value > u64::MAX as u128 {
            Err(
                StoreError::new(ErrorCode::ApprovalStale, "system clock milliseconds exceed range"),
            )
        } else {
            Ok(value as u64)
        },
    }
}

/// An approval as its row is read when it is to be spent.
#[derive(Clone, Debug)]
pub struct ApprovalRow {
    pub actor_id: String,
    pub action_hash: String,
    pub workspace_root: String,
    pub workspace_fingerprint: String,
    pub policy_revision: i64,
    pub tool_revision: i64,
    pub expires_at_unix_ms: Option<i64>,
    pub state: String,
    /// What it was spent on.
    pub consumed_by: Option<String>,
}

impl ApprovalRow {
    /// The row covers exactly what the binding says it covers.
    pub open spec fn covers(self, binding: ToolApprovalBinding) -> bool {
        &&& self.actor_id@ == binding.actor_id@
        &&& self.action_hash@ == binding.action_hash@
        &&& self.workspace_root@ == binding.workspace_root@
        &&& self.workspace_fingerprint@ == binding.workspace_fingerprint@
        &&& self.policy_revision == binding.policy_revision
        &&& self.tool_revision == binding.tool_revision
    }
}

/// Why a stored approval state does not let the approval be spent.
pub open spec fn unspendable_fault(state: Seq<char>) -> Option<Fault> {
    if state == ToolApprovalState::Active.text() {
        None
    } else if state == ToolApprovalState::Consumed.text() {
        fault(ErrorCode::ApprovalConsumed, "tool approval has already been consumed"@)
    } else if state == ToolApprovalState::Revoked.text() {
        fault(ErrorCode::ApprovalRevoked, "tool approval has been revoked"@)
    } else {
        fault(ErrorCode::StorageWriteFailed, "stored tool approval state is invalid"@)
    }
}

/// Why an approval has run out. One without an expiry never does, and its clock
/// is not looked at.
pub open spec fn expiry_fault(expires_at: Option<i64>, clock: Clock) -> Option<Fault> {
    match expires_at {
        None => None,
        Some(instant) => first(
            u64_fault(instant, "tool approval expiry"@),
            first(
                clock_fault(clock),
                if clock->Millis_0 > instant {
                    fault(ErrorCode::ApprovalStale, "tool approval has expired"@)
                } else {
                    None
                },
            ),
        ),
    }
}

/// Why an approval cannot be spent on an action.
pub open spec fn spend_fault(
    row: Option<ApprovalRow>,
    binding: ToolApprovalBinding,
    clock: Clock,
) -> Option<Fault> {
    match row {
        None => fault(ErrorCode::ApprovalRequired, "tool action has no durable approval"@),
        Some(approval) => first(
            unspendable_fault(approval.state@),
            first(
                expiry_fault(approval.expires_at_unix_ms, clock),
                first(
                    u64_fault(approval.policy_revision, "tool approval policy revision"@),
                    first(
                        u64_fault(approval.tool_revision, "tool approval revision"@),
                        if approval.covers(binding) {
                            None
                        } else {
                            fault(
                                ErrorCode::ApprovalStale,
                                "tool approval binding no longer matches the final action"@,
                            )
                        },
                    ),
                ),
            ),
        ),
    }
}

fn check_unspent(state: &str) -> (result: Result<(), StoreError>)
    ensures
        answers(result, unspendable_fault(state@)),
{
    if same_text(state, "active") {
        Ok(())
    } else if same_text(state, "consumed") {
        Err(
            StoreError::new(ErrorCode::ApprovalConsumed, "tool approval has already been consumed"),
        )
    } else if same_text(state, "revoked") {
        Err(StoreError::new(ErrorCode::ApprovalRevoked, "tool approval has been revoked"))
    } else {
        Err(StoreError::new(ErrorCode::StorageWriteFailed, "stored tool approval state is invalid"))
    }
}

fn check_expiry(expires_at: Option<i64>, clock: Clock) -> (result: Result<(), StoreError>)
    ensures
        answers(result, expiry_fault(expires_at, clock)),
{
    match expires_at {
        None => Ok(()),
        Some(value) => {
            let instant: u64 = to_u64(value, "tool approval expiry")?;
            let now: u64 = clock_unix_ms(clock)?;
            if now > instant {
                return Err(StoreError::new(ErrorCode::ApprovalStale, "tool approval has expired"));
            }
            Ok(())
        },
    }
}

/// An approval after it was spent: it is consumed, and says by what.
pub open spec fn spent_as(before: ApprovalRow, after: ApprovalRow, by: Seq<char>) -> bool {
    &&& after == (ApprovalRow { state: after.state, consumed_by: after.consumed_by, ..before })
    &&& after.state@ == ToolApprovalState::Consumed.text()
    &&& opt_text(after.consumed_by) == Some(by)
}

/// Spends an approval on the action that it covers, and hands it back as it is
/// stored afterwards.
pub fn consume_tool_approval(
    row: Option<ApprovalRow>,
    binding: &ToolApprovalBinding,
    by: &str,
    clock: Clock,
) -> (result: Result<ApprovalRow, StoreError>)
    ensures
        answers(result, spend_fault(row, *binding, clock)),
        result is Ok ==> spent_as(row->Some_0, result->Ok_0, by@),
{
    match row {
        None => Err(
            StoreError::new(ErrorCode::ApprovalRequired, "tool action has no durable approval"),
        ),
        Some(approval) => {
            check_unspent(approval.state.as_str())?;
            check_expiry(approval.expires_at_unix_ms, clock)?;
            let policy: u64 = to_u64(approval.policy_revision, "tool approval policy revision")?;
            let tool: u64 = to_u64(approval.tool_revision, "tool approval revision")?;
            if !same_text(approval.actor_id.as_str(), binding.actor_id.as_str()) || !same_text(
                approval.action_hash.as_str(),
                binding.action_hash.as_str(),
            ) || !same_text(approval.workspace_root.as_str(), binding.workspace_root.as_str())
                || !same_text(
                approval.workspace_fingerprint.as_str(),
                binding.workspace_fingerprint.as_str(),
            ) || policy != binding.policy_revision || tool != binding.tool_revision {
                return Err(
                    StoreError::new(
                        ErrorCode::ApprovalStale,
                        "tool approval binding no longer matches the final action",
                    ),
                );
            }
            let mut spent: ApprovalRow = approval;
            spent.state = "consumed".to_owned();
            spent.consumed_by = Some(by.to_owned());
            Ok(spent)
        },
    }
}

/// An approval is spent if and only if it is active, it is the same as the binding in every
/// field, its revisions are no less than nothing, and it names no expiry or the clock reads
/// no later than the one it names. An approval without an expiry asks for no clock. It is
/// consumed afterwards and says by what, and nothing else of it has changed.
pub proof fn law_approval_is_spent_on_what_it_names(
    approval: ApprovalRow,
    binding: ToolApprovalBinding,
    clock: Clock,
    by: Seq<char>,
)
    ensures
        spend_fault(Some(approval), binding, clock) is None <==> {
            &&& approval.state@ == "active"@
            &&& approval.actor_id@ == binding.actor_id@
            &&& approval.action_hash@ == binding.action_hash@
            &&& approval.workspace_root@ == binding.workspace_root@
            &&& approval.workspace_fingerprint@ == binding.workspace_fingerprint@
            &&& 0 <= approval.policy_revision
            &&& approval.policy_revision == binding.policy_revision
            &&& 0 <= approval.tool_revision
            &&& approval.tool_revision == binding.tool_revision
            &&& approval.expires_at_unix_ms is None || {
                &&& 0 <= approval.expires_at_unix_ms->Some_0
                &&& clock is Millis
                &&& clock->Millis_0 <= approval.expires_at_unix_ms->Some_0
            }
        },
        approval.state@ == "active"@ && approval.expires_at_unix_ms is Some && 0
            <= approval.expires_at_unix_ms->Some_0 && clock is Millis && clock->Millis_0
            > approval.expires_at_unix_ms->Some_0 ==> {
            &&& spend_fault(Some(approval), binding, clock) is Some
            &&& spend_fault(Some(approval), binding, clock)->Some_0.code
                == ErrorCode::ApprovalStale
        },
        spend_fault(None, binding, clock) is Some,
        spend_fault(None, binding, clock)->Some_0.code == ErrorCode::ApprovalRequired,
        forall|after: ApprovalRow| #[trigger]
            spent_as(approval, after, by) ==> {
                &&& after.state@ == "consumed"@
                &&& after.consumed_by is Some
                &&& after.consumed_by->Some_0@ == by
                &&& after.actor_id == approval.actor_id
                &&& after.action_hash == approval.action_hash
                &&& after.workspace_root == approval.workspace_root
                &&& after.workspace_fingerprint == approval.workspace_fingerprint
                &&& after.policy_revision == approval.policy_revision
                &&& after.tool_revision == approval.tool_revision
                &&& after.expires_at_unix_ms == approval.expires_at_unix_ms
            },
{
    crate::states::law_tool_approval_state_texts_differ(
        ToolApprovalState::Active,
        ToolApprovalState::Consumed,
    );
    crate::states::law_tool_approval_state_texts_differ(
        ToolApprovalState::Active,
        ToolApprovalState::Revoked,
    );
}

/// An approval is spent once: after it was spent, and likewise after it was
/// revoked, no action can be paid for with it.
pub proof fn law_approval_is_spent_once(
    after: ApprovalRow,
    binding: ToolApprovalBinding,
    clock: Clock,
)
    ensures
        after.state@ == ToolApprovalState::Consumed.text() ==> spend_fault(
            Some(after),
            binding,
            clock,
        ) == fault(ErrorCode::ApprovalConsumed, "tool approval has already been consumed"@),
        after.state@ == ToolApprovalState::Revoked.text() ==> spend_fault(
            Some(after),
            binding,
            clock,
        ) == fault(ErrorCode::ApprovalRevoked, "tool approval has been revoked"@),
{
    crate::states::law_tool_approval_state_texts_differ(
        ToolApprovalState::Active,
        ToolApprovalState::Consumed,
    );
    crate::states::law_tool_approval_state_texts_differ(
        ToolApprovalState::Active,
        ToolApprovalState::Revoked,
    );
    crate::states::law_tool_approval_state_texts_differ(
        ToolApprovalState::Consumed,
        ToolApprovalState::Revoked,
    );
}

// ---------------------------------------------------------------------------
// Intents

/// What the rules of the records themselves say about an event and its
/// projection.
#[derive(Debug)]
pub struct EventVerdicts {
    pub event: Verdict,
    pub working_state: Verdict,
}

/// An intent that is complete, new, and covered by its approval in every part.
pub open spec fn intent_is_bound(intent: ToolIntentRecord, expected_sequence: u64) -> bool {
    &&& intent.status == ToolIntentStatus::Recorded
    &&& !blank(intent.invocation_id@)
    &&& !blank(intent.actor_id@)
    &&& !blank(intent.tool_name@)
    &&& !blank(intent.workspace_root@)
    &&& intent.policy_revision != 0
    &&& intent.tool_revision != 0
    &&& intent.intent_sequence == expected_sequence
    &&& intent.approval.actor_id@ == intent.actor_id@
    &&& intent.approval.action_hash@ == intent.action_hash@
    &&& intent.approval.workspace_root@ == intent.workspace_root@
    &&& intent.approval.workspace_fingerprint@ == intent.workspace_fingerprint@
    &&& intent.approval.policy_revision == intent.policy_revision
    &&& intent.approval.tool_revision == intent.tool_revision
}

fn check_intent_binding(intent: &ToolIntentRecord, expected_sequence: u64) -> (bound: bool)
    ensures
        bound == intent_is_bound(*intent, expected_sequence),
{
    intent.status == ToolIntentStatus::Recorded && !is_blank(intent.invocation_id.as_str())
        && !is_blank(intent.actor_id.as_str()) && !is_blank(intent.tool_name.as_str()) && !is_blank(
        intent.workspace_root.as_str(),
    ) && intent.policy_revision != 0 && intent.tool_revision != 0 && intent.intent_sequence
        == expected_sequence && same_text(
        intent.approval.actor_id.as_str(),
        intent.actor_id.as_str(),
    ) && same_text(intent.approval.action_hash.as_str(), intent.action_hash.as_str()) && same_text(
        intent.approval.workspace_root.as_str(),
        intent.workspace_root.as_str(),
    ) && same_text(
        intent.approval.workspace_fingerprint.as_str(),
        intent.workspace_fingerprint.as_str(),
    ) && intent.approval.policy_revision == intent.policy_revision && intent.approval.tool_revision
        == intent.tool_revision
}

/// Why an intent is malformed. `canonical` is the digest of its action.
pub open spec fn intent_shape_fault(
    commit: ToolIntentCommit,
    verdicts: EventVerdicts,
    canonical: Parsed,
) -> Option<Fault> {
    first(
        verdict_fault(verdicts.event, "tool intent event is invalid: "@),
        first(
            verdict_fault(verdicts.working_state, "tool intent state is invalid: "@),
            if !intent_is_bound(commit.intent, commit.expected_sequence) {
                fault(ErrorCode::InvalidPayload, "tool intent binding is inconsistent"@)
            } else {
                match canonical {
                    Err(refusal) => refusal.prefixed_fault(
                        "tool intent action is not canonical: "@,
                    ),
                    Ok(digest) => if digest@ != commit.intent.action_hash@ || !one_event(
                        commit.event,
                        commit.working_state,
                        commit.marker,
                        commit.intent.session_id@,
                        commit.intent.task_id@,
                        commit.expected_sequence,
                    ) {
                        fault(
                            ErrorCode::InvalidPayload,
                            "tool intent records do not describe one consistent event"@,
                        )
                    } else {
                        None
                    },
                }
            },
        ),
    )
}

/// Refuses a malformed intent.
pub fn validate_tool_intent_commit(
    commit: &ToolIntentCommit,
    verdicts: &EventVerdicts,
    canonical: &Parsed,
) -> (result: Result<(), StoreError>)
    ensures
        answers(result, intent_shape_fault(*commit, *verdicts, *canonical)),
{
    check_verdict(&verdicts.event, "tool intent event is invalid: ")?;
    check_verdict(&verdicts.working_state, "tool intent state is invalid: ")?;
    if !check_intent_binding(&commit.intent, commit.expected_sequence) {
        return Err(
            StoreError::new(ErrorCode::InvalidPayload, "tool intent binding is inconsistent"),
        );
    }
    match canonical {
        Err(refusal) => Err(refusal.to_prefixed_error("tool intent action is not canonical: ")),
        Ok(digest) => {
            if !same_text(digest.as_str(), commit.intent.action_hash.as_str())
                || !describe_one_event(
                &commit.event,
                &commit.working_state,
                &commit.marker,
                &commit.intent.session_id,
                &commit.intent.task_id,
                commit.expected_sequence,
            ) {
                return Err(
                    StoreError::new(
                        ErrorCode::InvalidPayload,
                        "tool intent records do not describe one consistent event",
                    ),
                );
            }
            Ok(())
        },
    }
}

/// An intent, as far as a decision about its execution looks at it.
#[derive(Clone, Debug, PartialEq, Eq)]
pub struct IntentRow {
    pub session_id: String,
    pub task_id: String,
    pub status: String,
    /// The receipt that ended it.
    pub settlement_receipt_id: Option<String>,
}

/// Why an intent is not recorded. `recorded` is the intent that its execution
/// already has.
pub open spec fn intent_fault(
    commit: ToolIntentCommit,
    verdicts: EventVerdicts,
    canonical: Parsed,
    fence: HostFence,
    recorded: Option<IntentRow>,
    rows: JournalRows,
    approval: Option<ApprovalRow>,
    clock: Clock,
) -> Option<Fault> {
    first(
        intent_shape_fault(commit, verdicts, canonical),
        first(
            fence_fault(rows.fence_generation, fence),
            if recorded is Some {
                fault(
                    ErrorCode::ToolIntentConflict,
                    "tool execution already has a durable intent; reconcile instead of rerunning"@,
                )
            } else {
                first(
                    append_fault(
                        rows,
                        commit.intent.session_id@,
                        commit.intent.task_id@,
                        commit.expected_sequence,
                        fence,
                    ),
                    first(
                        spend_fault(approval, commit.intent.approval, clock),
                        first(
                            i64_fault(
                                commit.intent.policy_revision,
                                "tool intent policy revision"@,
                            ),
                            first(
                                i64_fault(commit.intent.tool_revision, "tool intent revision"@),
                                i64_fault(commit.working_state.revision, "working state revision"@),
                            ),
                        ),
                    ),
                )
            },
        ),
    )
}

/// What recording an intent writes.
#[derive(Clone, Debug)]
pub struct IntentWrite {
    pub journal: JournalWrite,
    /// The intent's approval afterwards.
    pub approval: ApprovalRow,
    /// The intent itself.
    pub intent: IntentRow,
}

/// What recording an intent writes: the event, the approval as spent on the
/// execution, and the intent as recorded and not ended.
pub open spec fn records_as(
    commit: ToolIntentCommit,
    fence: HostFence,
    rows: JournalRows,
    approval: ApprovalRow,
    write: IntentWrite,
) -> bool {
    &&& write.journal == append_write(
        rows,
        commit.intent.session_id,
        commit.expected_sequence,
        fence,
    )
    &&& spent_as(approval, write.approval, commit.intent.tool_execution_id@)
    &&& write.intent == (IntentRow {
        session_id: commit.intent.session_id,
        task_id: commit.intent.task_id,
        status: write.intent.status,
        settlement_receipt_id: None,
    })
    &&& write.intent.status@ == ToolIntentStatus::Recorded.text()
}

/// Records an intent and spends its approval, in one write.
pub fn decide_tool_intent(
    commit: &ToolIntentCommit,
    verdicts: &EventVerdicts,
    canonical: &Parsed,
    fence: &HostFence,
    recorded: &Option<IntentRow>,
    rows: &JournalRows,
    approval: Option<ApprovalRow>,
    clock: Clock,
) -> (result: Result<IntentWrite, StoreError>)
    ensures
        answers(
            result,
            intent_fault(
                *commit,
                *verdicts,
                *canonical,
                *fence,
                *recorded,
                *rows,
                approval,
                clock,
            ),
        ),
        result is Ok ==> records_as(*commit, *fence, *rows, approval->Some_0, result->Ok_0),
{
    validate_tool_intent_commit(commit, verdicts, canonical)?;
    check_fence(rows.fence_generation, fence)?;
    if recorded.is_some() {
        return Err(
            StoreError::new(
                ErrorCode::ToolIntentConflict,
                "tool execution already has a durable intent; reconcile instead of rerunning",
            ),
        );
    }
    let journal: JournalWrite = append(
        rows,
        &commit.intent.session_id,
        &commit.intent.task_id,
        commit.expected_sequence,
        fence,
    )?;
    let spent: ApprovalRow = consume_tool_approval(
        approval,
        &commit.intent.approval,
        commit.intent.tool_execution_id.as_str(),
        clock,
    )?;
    let policy: i64 = to_i64(commit.intent.policy_revision, "tool intent policy revision")?;
    let tool: i64 = to_i64(commit.intent.tool_revision, "tool intent revision")?;
    let revision: i64 = to_i64(commit.working_state.revision, "working state revision")?;
    Ok(
        IntentWrite {
            journal,
            approval: spent,
            intent: IntentRow {
                session_id: commit.intent.session_id.clone(),
                task_id: commit.intent.task_id.clone(),
                status: "recorded".to_owned(),
                settlement_receipt_id: None,
            },
        },
    )
}

/// An intent is recorded if and only if it is complete and covered by its approval field by
/// field, its hash is that of its action, its event and what is written with it stand at one
/// place of one session, its execution has no intent yet, the host may add that event, and
/// the approval can be spent.
pub proof fn law_intent_is_recorded_where_its_approval_covers_it(
    commit: ToolIntentCommit,
    verdicts: EventVerdicts,
    canonical: Parsed,
    fence: HostFence,
    recorded: Option<IntentRow>,
    rows: JournalRows,
    approval: Option<ApprovalRow>,
    clock: Clock,
)
    ensures
        intent_fault(commit, verdicts, canonical, fence, recorded, rows, approval, clock) is None
            <==> {
            let intent = commit.intent;
            &&& verdicts.event is Ok
            &&& verdicts.working_state is Ok
            &&& intent.status == ToolIntentStatus::Recorded
            &&& !blank(intent.invocation_id@)
            &&& !blank(intent.actor_id@)
            &&& !blank(intent.tool_name@)
            &&& !blank(intent.workspace_root@)
            &&& 0 < intent.policy_revision <= i64::MAX
            &&& 0 < intent.tool_revision <= i64::MAX
            &&& commit.working_state.revision <= i64::MAX
            &&& intent.approval.actor_id@ == intent.actor_id@
            &&& intent.approval.action_hash@ == intent.action_hash@
            &&& intent.approval.workspace_root@ == intent.workspace_root@
            &&& intent.approval.workspace_fingerprint@ == intent.workspace_fingerprint@
            &&& intent.approval.policy_revision == intent.policy_revision
            &&& intent.approval.tool_revision == intent.tool_revision
            &&& canonical is Ok
            &&& canonical->Ok_0@ == intent.action_hash@
            &&& intent.intent_sequence == commit.expected_sequence
            &&& commit.event.seq == commit.expected_sequence
            &&& commit.working_state.through_event_seq == commit.expected_sequence
            &&& commit.marker.sequence == commit.expected_sequence
            &&& commit.event.session_id@ == intent.session_id@
            &&& commit.working_state.session_id@ == intent.session_id@
            &&& commit.working_state.task_id@ == intent.task_id@
            &&& commit.marker.event_id@ == commit.event.event_id@
            &&& recorded is None
            &&& rows.fence_generation is Some
            &&& rows.fence_generation->Some_0 == fence.generation as int
            &&& append_fault(
                rows,
                intent.session_id@,
                intent.task_id@,
                commit.expected_sequence,
                fence,
            ) is None
            &&& spend_fault(approval, intent.approval, clock) is None
        },
        forall|write: IntentWrite| #[trigger]
            records_as(commit, fence, rows, approval->Some_0, write) ==> {
                &&& write.intent.session_id == commit.intent.session_id
                &&& write.intent.task_id == commit.intent.task_id
                &&& write.intent.status@ == "recorded"@
                &&& write.intent.settlement_receipt_id is None
                &&& write.approval.state@ == "consumed"@
                &&& write.approval.consumed_by is Some
                &&& write.approval.consumed_by->Some_0@ == commit.intent.tool_execution_id@
                &&& write.journal.next_sequence == (commit.expected_sequence + 1) as u64
            },
{
}

/// An approval pays for one execution, and an execution starts once: recording an
/// intent takes its approval from active to consumed and leaves the intent recorded.
/// After that, a second intent for the same execution is refused, whatever approval
/// it comes with, and so is another execution that comes with the same approval.
/// `second` is an intent that is well formed and stands at its journal's end, of the same
/// host or of one that has taken its place.
pub proof fn law_intent_is_recorded_once(
    commit: ToolIntentCommit,
    verdicts: EventVerdicts,
    canonical: Parsed,
    fence: HostFence,
    rows: JournalRows,
    approval: Option<ApprovalRow>,
    clock: Clock,
    write: IntentWrite,
    second: ToolIntentCommit,
    second_verdicts: EventVerdicts,
    second_canonical: Parsed,
    later_fence: HostFence,
    second_rows: JournalRows,
    other_approval: Option<ApprovalRow>,
    later: Clock,
)
    requires
        intent_fault(commit, verdicts, canonical, fence, None, rows, approval, clock) is None,
        records_as(commit, fence, rows, approval->Some_0, write),
        intent_shape_fault(second, second_verdicts, second_canonical) is None,
        append_fault(
            second_rows,
            second.intent.session_id@,
            second.intent.task_id@,
            second.expected_sequence,
            later_fence,
        ) is None,
        fence_fault(second_rows.fence_generation, later_fence) is None,
    ensures
        approval->Some_0.state@ == ToolApprovalState::Active.text(),
        write.approval.state@ == ToolApprovalState::Consumed.text(),
        write.intent.status@ == ToolIntentStatus::Recorded.text(),
        intent_fault(
            second,
            second_verdicts,
            second_canonical,
            later_fence,
            Some(write.intent),
            second_rows,
            other_approval,
            later,
        ) == fault(
            ErrorCode::ToolIntentConflict,
            "tool execution already has a durable intent; reconcile instead of rerunning"@,
        ),
        intent_fault(
            second,
            second_verdicts,
            second_canonical,
            later_fence,
            None,
            second_rows,
            Some(write.approval),
            later,
        ) == fault(ErrorCode::ApprovalConsumed, "tool approval has already been consumed"@),
{
    law_approval_is_spent_once(write.approval, second.intent.approval, later);
}

// ---------------------------------------------------------------------------
// Settlements

/// What the rules of the records themselves say about a settlement.
#[derive(Debug)]
pub struct SettlementVerdicts {
    pub event: Verdict,
    pub receipt: Verdict,
    pub working_state: Verdict,
}

/// Why a settlement is malformed.
pub open spec fn settlement_shape_fault(
    commit: ToolSettlementCommit,
    verdicts: SettlementVerdicts,
) -> Option<Fault> {
    first(
        verdict_fault(verdicts.event, "tool settlement event is invalid: "@),
        first(
            verdict_fault(verdicts.receipt, "tool settlement receipt is invalid: "@),
            first(
                verdict_fault(verdicts.working_state, "tool settlement state is invalid: "@),
                if commit.final_status == ToolIntentStatus::Recorded
                    || commit.receipt.observed_at_seq != commit.expected_sequence || !one_event(
                    commit.event,
                    commit.working_state,
                    commit.marker,
                    commit.event.session_id@,
                    commit.receipt.task_id@,
                    commit.expected_sequence,
                ) {
                    fault(
                        ErrorCode::InvalidPayload,
                        "tool settlement records do not describe one consistent event"@,
                    )
                } else if opt_text(commit.receipt.artifact_id) == published_id(commit.artifact) {
                    None
                } else {
                    fault(
                        ErrorCode::ArtifactWriteFailed,
                        "tool settlement artifact binding is inconsistent"@,
                    )
                },
            ),
        ),
    )
}

/// The identity of a published artifact, where there is one.
pub open spec fn published_id(artifact: Option<PublishedArtifact>) -> Option<Seq<char>> {
    match artifact {
        None => None,
        Some(published) => Some(published.artifact_id@),
    }
}

/// Refuses a malformed settlement.
pub fn validate_tool_settlement_commit(
    commit: &ToolSettlementCommit,
    verdicts: &SettlementVerdicts,
) -> (result: Result<(), StoreError>)
    ensures
        answers(result, settlement_shape_fault(*commit, *verdicts)),
{
    check_verdict(&verdicts.event, "tool settlement event is invalid: ")?;
    check_verdict(&verdicts.receipt, "tool settlement receipt is invalid: ")?;
    check_verdict(&verdicts.working_state, "tool settlement state is invalid: ")?;
    if commit.final_status == ToolIntentStatus::Recorded || commit.receipt.observed_at_seq
        != commit.expected_sequence || !describe_one_event(
        &commit.event,
        &commit.working_state,
        &commit.marker,
        &commit.event.session_id,
        &commit.receipt.task_id,
        commit.expected_sequence,
    ) {
        return Err(
            StoreError::new(
                ErrorCode::InvalidPayload,
                "tool settlement records do not describe one consistent event",
            ),
        );
    }
    let bound: bool = match (&commit.receipt.artifact_id, &commit.artifact) {
        (None, None) => true,
        (Some(named), Some(published)) => same_text(
            named.as_str(),
            published.artifact_id.as_str(),
        ),
        _ => false,
    };
    if !bound {
        return Err(
            StoreError::new(
                ErrorCode::ArtifactWriteFailed,
                "tool settlement artifact binding is inconsistent",
            ),
        );
    }
    Ok(())
}

/// The receipt that an execution already has, as its row is read.
#[derive(Debug)]
pub struct SettledReceiptRow {
    pub event_id: Parsed,
    pub sequence: i64,
    pub receipt_json: String,
}

/// Why an intent cannot be settled.
pub open spec fn settleable_fault(intent: Option<IntentRow>, commit: ToolSettlementCommit) -> Option<
    Fault,
> {
    match intent {
        None => fault(ErrorCode::ToolIntentConflict, "tool settlement has no durable intent"@),
        Some(row) => if row.session_id@ != commit.event.session_id@ || row.task_id@
            != commit.receipt.task_id@ || row.status@ != ToolIntentStatus::Recorded.text() {
            fault(ErrorCode::ToolIntentConflict, "tool intent is not eligible for settlement"@)
        } else {
            None
        },
    }
}

/// Why a settlement is not written. `receipt_json` is the receipt as it is
/// stored.
pub open spec fn settlement_fault(
    commit: ToolSettlementCommit,
    verdicts: SettlementVerdicts,
    file: Option<PublishedFile>,
    receipt_json: Seq<char>,
    fence: HostFence,
    existing: Option<SettledReceiptRow>,
    intent: Option<IntentRow>,
    rows: JournalRows,
) -> Option<Fault> {
    first(
        settlement_shape_fault(commit, verdicts),
        first(
            optional_artifact_fault(commit.artifact, file),
            first(
                fence_fault(rows.fence_generation, fence),
                match existing {
                    Some(row) => if row.receipt_json@ == receipt_json {
                        first(
                            stored_fault(
                                row.event_id,
                                ErrorCode::StorageWriteFailed,
                                "stored tool receipt event ID is invalid"@,
                            ),
                            u64_fault(row.sequence, "stored tool receipt sequence"@),
                        )
                    } else {
                        fault(
                            ErrorCode::IdempotencyConflict,
                            "tool execution receipt is immutable"@,
                        )
                    },
                    None => first(
                        settleable_fault(intent, commit),
                        first(
                            append_fault(
                                rows,
                                commit.event.session_id@,
                                commit.receipt.task_id@,
                                commit.expected_sequence,
                                fence,
                            ),
                            first(
                                artifact_length_fault(
                                    commit.artifact,
                                    "tool artifact byte length"@,
                                ),
                                i64_fault(commit.working_state.revision, "working state revision"@),
                            ),
                        ),
                    ),
                },
            ),
        ),
    )
}

/// What settling an execution does and is answered.
#[derive(Clone, Debug, PartialEq, Eq)]
pub enum ToolSettlementOutcome {
    /// The settlement was made before, and nothing is written.
    Replay(ReceiptAck),
    /// What the journal takes up, the intent afterwards, and the answer.
    Commit(JournalWrite, IntentRow, ReceiptAck),
}

/// An intent after it was settled: in its final status, with the receipt that ended
/// it.
pub open spec fn ended_as(
    before: IntentRow,
    after: IntentRow,
    commit: ToolSettlementCommit,
) -> bool {
    &&& after == (IntentRow {
        status: after.status,
        settlement_receipt_id: after.settlement_receipt_id,
        ..before
    })
    &&& after.status@ == commit.final_status.text()
    &&& opt_text(after.settlement_receipt_id) == Some(commit.receipt.tool_execution_id@)
}

/// What a settlement does and is answered.
pub open spec fn settles_as(
    commit: ToolSettlementCommit,
    fence: HostFence,
    existing: Option<SettledReceiptRow>,
    intent: Option<IntentRow>,
    rows: JournalRows,
    outcome: ToolSettlementOutcome,
) -> bool {
    match existing {
        Some(row) => outcome == ToolSettlementOutcome::Replay(
            ReceiptAck {
                event_id: row.event_id->Ok_0,
                sequence: row.sequence as u64,
                idempotent_replay: true,
            },
        ),
        None => match outcome {
            ToolSettlementOutcome::Replay(_) => false,
            ToolSettlementOutcome::Commit(journal, ended, ack) => {
                &&& journal == append_write(
                    rows,
                    commit.event.session_id,
                    commit.expected_sequence,
                    fence,
                )
                &&& ended_as(intent->Some_0, ended, commit)
                &&& ack == (ReceiptAck {
                    event_id: commit.event.event_id,
                    sequence: commit.event.seq,
                    idempotent_replay: false,
                })
            },
        },
    }
}

fn settleable_intent(
    intent: Option<IntentRow>,
    commit: &ToolSettlementCommit,
) -> (result: Result<IntentRow, StoreError>)
    ensures
        answers(result, settleable_fault(intent, *commit)),
        result is Ok ==> intent == Some(result->Ok_0),
{
    match intent {
        None => Err(
            StoreError::new(ErrorCode::ToolIntentConflict, "tool settlement has no durable intent"),
        ),
        Some(row) => {
            if !same_text(row.session_id.as_str(), commit.event.session_id.as_str()) || !same_text(
                row.task_id.as_str(),
                commit.receipt.task_id.as_str(),
            ) || !same_text(row.status.as_str(), "recorded") {
                return Err(
                    StoreError::new(
                        ErrorCode::ToolIntentConflict,
                        "tool intent is not eligible for settlement",
                    ),
                );
            }
            Ok(row)
        },
    }
}

/// Settles one execution, or answers the settlement as it was answered before.
pub fn decide_tool_settlement(
    commit: &ToolSettlementCommit,
    verdicts: &SettlementVerdicts,
    file: &Option<PublishedFile>,
    receipt_json: &str,
    fence: &HostFence,
    existing: Option<SettledReceiptRow>,
    intent: Option<IntentRow>,
    rows: &JournalRows,
) -> (result: Result<ToolSettlementOutcome, StoreError>)
    requires
        is_looked_at(commit.artifact, *file),
    ensures
        answers(
            result,
            settlement_fault(
                *commit,
                *verdicts,
                *file,
                receipt_json@,
                *fence,
                existing,
                intent,
                *rows,
            ),
        ),
        result is Ok ==> settles_as(*commit, *fence, existing, intent, *rows, result->Ok_0),
{
    validate_tool_settlement_commit(commit, verdicts)?;
    check_optional_artifact(&commit.artifact, file)?;
    check_fence(rows.fence_generation, fence)?;
    match existing {
        Some(row) => {
            if same_text(row.receipt_json.as_str(), receipt_json) {
                let event_id: String = stored_value(
                    row.event_id,
                    ErrorCode::StorageWriteFailed,
                    "stored tool receipt event ID is invalid",
                )?;
                let sequence: u64 = to_u64(row.sequence, "stored tool receipt sequence")?;
                return Ok(
                    ToolSettlementOutcome::Replay(
                        ReceiptAck { event_id, sequence, idempotent_replay: true },
                    ),
                );
            }
            Err(
                StoreError::new(
                    ErrorCode::IdempotencyConflict,
                    "tool execution receipt is immutable",
                ),
            )
        },
        None => {
            let mut ended: IntentRow = settleable_intent(intent, commit)?;
            let write: JournalWrite = append(
                rows,
                &commit.event.session_id,
                &commit.receipt.task_id,
                commit.expected_sequence,
                fence,
            )?;
            check_artifact_length(&commit.artifact, "tool artifact byte length")?;
            let revision: i64 = to_i64(commit.working_state.revision, "working state revision")?;
            ended.status = commit.final_status.as_str().to_owned();
            ended.settlement_receipt_id = Some(commit.receipt.tool_execution_id.clone());
            Ok(
                ToolSettlementOutcome::Commit(
                    write,
                    ended,
                    ReceiptAck {
                        event_id: commit.event.event_id.clone(),
                        sequence: commit.event.seq,
                        idempotent_replay: false,
                    },
                ),
            )
        },
    }
}

/// A recorded intent is settled, in any status but the one that it has, if and only if the
/// settlement belongs to the intent's session and task, stands at one place of its journal
/// and comes with the artifact that its receipt names. It then has that status and says
/// which receipt ended it.
pub proof fn law_recorded_intent_is_settled(
    commit: ToolSettlementCommit,
    verdicts: SettlementVerdicts,
    file: Option<PublishedFile>,
    receipt_json: Seq<char>,
    fence: HostFence,
    intent: IntentRow,
    rows: JournalRows,
    outcome: ToolSettlementOutcome,
)
    ensures
        settlement_fault(commit, verdicts, file, receipt_json, fence, None, Some(intent), rows) is None
            <==> {
            &&& verdicts.event is Ok
            &&& verdicts.receipt is Ok
            &&& verdicts.working_state is Ok
            &&& commit.final_status != ToolIntentStatus::Recorded
            &&& commit.receipt.observed_at_seq == commit.expected_sequence
            &&& commit.event.seq == commit.expected_sequence
            &&& commit.working_state.through_event_seq == commit.expected_sequence
            &&& commit.marker.sequence == commit.expected_sequence
            &&& commit.marker.event_id@ == commit.event.event_id@
            &&& commit.working_state.session_id@ == commit.event.session_id@
            &&& commit.working_state.task_id@ == commit.receipt.task_id@
            &&& commit.receipt.artifact_id is Some <==> commit.artifact is Some
            &&& commit.artifact is Some ==> commit.receipt.artifact_id->Some_0@
                == commit.artifact->Some_0.artifact_id@
            &&& optional_artifact_fault(commit.artifact, file) is None
            &&& artifact_length_fault(commit.artifact, "tool artifact byte length"@) is None
            &&& rows.fence_generation is Some
            &&& rows.fence_generation->Some_0 == fence.generation as int
            &&& intent.status@ == "recorded"@
            &&& intent.session_id@ == commit.event.session_id@
            &&& intent.task_id@ == commit.receipt.task_id@
            &&& append_fault(
                rows,
                commit.event.session_id@,
                commit.receipt.task_id@,
                commit.expected_sequence,
                fence,
            ) is None
            &&& commit.working_state.revision <= i64::MAX
        },
        settlement_fault(commit, verdicts, file, receipt_json, fence, None, None, rows) is Some,
        settles_as(commit, fence, None, Some(intent), rows, outcome) ==> {
            &&& outcome is Commit
            &&& outcome->Commit_0.next_sequence == (commit.expected_sequence + 1) as u64
            &&& outcome->Commit_1.status@ == commit.final_status.text()
            &&& outcome->Commit_1.settlement_receipt_id is Some
            &&& outcome->Commit_1.settlement_receipt_id->Some_0@
                == commit.receipt.tool_execution_id@
            &&& outcome->Commit_1.session_id == intent.session_id
            &&& outcome->Commit_1.task_id == intent.task_id
            &&& outcome->Commit_2.event_id == commit.event.event_id
            &&& outcome->Commit_2.sequence == commit.event.seq
            &&& !outcome->Commit_2.idempotent_replay
        },
{
}

/// An execution is settled once: the same receipt is answered as before, another
/// receipt is refused, and the intent that the settlement left can no longer be
/// settled even where no receipt is found.
pub proof fn law_settlement_is_final(
    commit: ToolSettlementCommit,
    verdicts: SettlementVerdicts,
    file: Option<PublishedFile>,
    receipt_json: String,
    other_json: Seq<char>,
    fence: HostFence,
    intent: Option<IntentRow>,
    rows: JournalRows,
    outcome: ToolSettlementOutcome,
    again: ToolSettlementOutcome,
)
    requires
        settlement_fault(commit, verdicts, file, receipt_json@, fence, None, intent, rows) is None,
        settles_as(commit, fence, None, intent, rows, outcome),
        other_json != receipt_json@,
        settles_as(
            commit,
            fence,
            Some(
                SettledReceiptRow {
                    event_id: Ok(commit.event.event_id),
                    sequence: commit.event.seq as i64,
                    receipt_json,
                },
            ),
            Some(outcome->Commit_1),
            rows,
            again,
        ),
    ensures
        ({
            let stored = Some(
                SettledReceiptRow {
                    event_id: Ok(commit.event.event_id),
                    sequence: commit.event.seq as i64,
                    receipt_json,
                },
            );
            let ended = Some(outcome->Commit_1);
            &&& settlement_fault(
                commit,
                verdicts,
                file,
                receipt_json@,
                fence,
                stored,
                ended,
                rows,
            ) is None
            &&& again == ToolSettlementOutcome::Replay(
                ReceiptAck {
                    event_id: commit.event.event_id,
                    sequence: commit.event.seq,
                    idempotent_replay: true,
                },
            )
            &&& settlement_fault(
                commit,
                verdicts,
                file,
                other_json,
                fence,
                stored,
                ended,
                rows,
            ) == fault(ErrorCode::IdempotencyConflict, "tool execution receipt is immutable"@)
            &&& settlement_fault(
                commit,
                verdicts,
                file,
                receipt_json@,
                fence,
                None,
                ended,
                rows,
            ) == fault(
                ErrorCode::ToolIntentConflict,
                "tool intent is not eligible for settlement"@,
            )
        }),
{
    crate::states::law_tool_intent_status_texts_differ(
        commit.final_status,
        ToolIntentStatus::Recorded,
    );
}

// ---------------------------------------------------------------------------
// Task updates

/// Why a task update is malformed.
pub open spec fn task_update_shape_fault(
    commit: ToolTaskUpdateCommit,
    verdicts: EventVerdicts,
) -> Option<Fault> {
    first(
        verdict_fault(verdicts.event, "tool task update event is invalid: "@),
        first(
            verdict_fault(verdicts.working_state, "tool task update state is invalid: "@),
            if blank(commit.approval.actor_id@) || blank(commit.approval.workspace_root@)
                || commit.approval.policy_revision == 0 || commit.approval.tool_revision == 0
                || !one_event(
                commit.event,
                commit.working_state,
                commit.marker,
                commit.session_id@,
                commit.task_id@,
                commit.expected_sequence,
            ) {
                fault(
                    ErrorCode::InvalidPayload,
                    "tool task update records do not describe one consistent event"@,
                )
            } else {
                None
            },
        ),
    )
}

/// Refuses a malformed task update.
pub fn validate_tool_task_update_commit(
    commit: &ToolTaskUpdateCommit,
    verdicts: &EventVerdicts,
) -> (result: Result<(), StoreError>)
    ensures
        answers(result, task_update_shape_fault(*commit, *verdicts)),
{
    check_verdict(&verdicts.event, "tool task update event is invalid: ")?;
    check_verdict(&verdicts.working_state, "tool task update state is invalid: ")?;
    if is_blank(commit.approval.actor_id.as_str()) || is_blank(
        commit.approval.workspace_root.as_str(),
    ) || commit.approval.policy_revision == 0 || commit.approval.tool_revision == 0
        || !describe_one_event(
        &commit.event,
        &commit.working_state,
        &commit.marker,
        &commit.session_id,
        &commit.task_id,
        commit.expected_sequence,
    ) {
        return Err(
            StoreError::new(
                ErrorCode::InvalidPayload,
                "tool task update records do not describe one consistent event",
            ),
        );
    }
    Ok(())
}

/// Why a task update is not written.
pub open spec fn task_update_fault(
    commit: ToolTaskUpdateCommit,
    verdicts: EventVerdicts,
    fence: HostFence,
    rows: JournalRows,
    approval: Option<ApprovalRow>,
    clock: Clock,
) -> Option<Fault> {
    first(
        task_update_shape_fault(commit, verdicts),
        first(
            fence_fault(rows.fence_generation, fence),
            first(
                append_fault(
                    rows,
                    commit.session_id@,
                    commit.task_id@,
                    commit.expected_sequence,
                    fence,
                ),
                first(
                    spend_fault(approval, commit.approval, clock),
                    i64_fault(commit.working_state.revision, "working state revision"@),
                ),
            ),
        ),
    )
}

/// Writes a task update and spends its approval, in one write. The approval comes
/// back as it is stored afterwards.
pub fn decide_tool_task_update(
    commit: &ToolTaskUpdateCommit,
    verdicts: &EventVerdicts,
    fence: &HostFence,
    rows: &JournalRows,
    approval: Option<ApprovalRow>,
    clock: Clock,
) -> (result: Result<(JournalWrite, ApprovalRow), StoreError>)
    ensures
        answers(result, task_update_fault(*commit, *verdicts, *fence, *rows, approval, clock)),
        result is Ok ==> result->Ok_0.0 == append_write(
            *rows,
            commit.session_id,
            commit.expected_sequence,
            *fence,
        ),
        result is Ok ==> spent_as(approval->Some_0, result->Ok_0.1, "task_update"@),
{
    validate_tool_task_update_commit(commit, verdicts)?;
    check_fence(rows.fence_generation, fence)?;
    let write: JournalWrite = append(
        rows,
        &commit.session_id,
        &commit.task_id,
        commit.expected_sequence,
        fence,
    )?;
    let spent: ApprovalRow = consume_tool_approval(
        approval,
        &commit.approval,
        "task_update",
        clock,
    )?;
    let revision: i64 = to_i64(commit.working_state.revision, "working state revision")?;
    Ok((write, spent))
}

/// A task update is written if and only if its approval says who and where and under which
/// revisions and can be spent, and the update stands at one place of its journal, where the
/// host may add an event.
pub proof fn law_task_update_is_paid_for(
    commit: ToolTaskUpdateCommit,
    verdicts: EventVerdicts,
    fence: HostFence,
    rows: JournalRows,
    approval: Option<ApprovalRow>,
    clock: Clock,
)
    ensures
        task_update_fault(commit, verdicts, fence, rows, approval, clock) is None <==> {
            &&& verdicts.event is Ok
            &&& verdicts.working_state is Ok
            &&& !blank(commit.approval.actor_id@)
            &&& !blank(commit.approval.workspace_root@)
            &&& commit.approval.policy_revision > 0
            &&& commit.approval.tool_revision > 0
            &&& commit.event.session_id@ == commit.session_id@
            &&& commit.event.seq == commit.expected_sequence
            &&& commit.working_state.session_id@ == commit.session_id@
            &&& commit.working_state.task_id@ == commit.task_id@
            &&& commit.working_state.through_event_seq == commit.expected_sequence
            &&& commit.working_state.revision <= i64::MAX
            &&& commit.marker.event_id@ == commit.event.event_id@
            &&& commit.marker.sequence == commit.expected_sequence
            &&& rows.fence_generation is Some
            &&& rows.fence_generation->Some_0 == fence.generation as int
            &&& append_fault(
                rows,
                commit.session_id@,
                commit.task_id@,
                commit.expected_sequence,
                fence,
            ) is None
            &&& spend_fault(approval, commit.approval, clock) is None
        },
{
}

/// An artifact is scoped to a task of a project where exactly one such scope is
/// stored.
pub fn artifact_is_scoped(count: i64) -> (scoped: bool)
    ensures
        scoped == (count == 1),
{
    count == 1
}

// ---------------------------------------------------------------------------
// Projects

/// The project that a root is registered for.
#[derive(Clone, Debug)]
pub struct RegisteredRoot {
    pub project_id: String,
    pub git_common_dir: Option<String>,
    pub identity_hash: String,
}

impl RegisteredRoot {
    /// The root is registered for this very project.
    pub open spec fn is(self, record: ProjectRegistrationRecord) -> bool {
        &&& self.project_id@ == record.project_id@
        &&& opt_text(self.git_common_dir) == opt_text(record.git_common_dir)
        &&& self.identity_hash@ == record.identity_hash@
    }
}

/// Every root that a project already has shares the new root's Git directory.
pub open spec fn same_repository(
    prior: Seq<Option<String>>,
    git_common_dir: Option<String>,
) -> bool {
    forall|i: int|
        0 <= i < prior.len() ==> git_common_dir is Some && #[trigger] opt_text(prior[i])
            == opt_text(git_common_dir)
}

/// Why a root cannot be registered for a project.
pub open spec fn registration_fault(
    record: ProjectRegistrationRecord,
    root: Option<RegisteredRoot>,
    prior: Seq<Option<String>>,
) -> Option<Fault> {
    match root {
        Some(owner) => if owner.is(record) {
            None
        } else {
            fault(
                ErrorCode::ProjectIdentityConflict,
                "canonical workspace root is already bound to a different project identity"@,
            )
        },
        None => if same_repository(prior, record.git_common_dir) {
            None
        } else {
            fault(
                ErrorCode::ProjectIdentityConflict,
                "a moved or unrelated root requires explicit reassociation"@,
            )
        },
    }
}

/// Whether a root is to be registered. One that is registered for the same
/// project already needs nothing.
pub fn insert_project_registration(
    record: &ProjectRegistrationRecord,
    root: &Option<RegisteredRoot>,
    prior: &Vec<Option<String>>,
) -> (result: Result<bool, StoreError>)
    ensures
        answers(result, registration_fault(*record, *root, prior@)),
        result is Ok ==> result->Ok_0 == (root is None),
{
    match root {
        Some(owner) => {
            if same_text(owner.project_id.as_str(), record.project_id.as_str()) && same_option(
                &owner.git_common_dir,
                &record.git_common_dir,
            ) && same_text(owner.identity_hash.as_str(), record.identity_hash.as_str()) {
                return Ok(false);
            }
            Err(
                StoreError::new(
                    ErrorCode::ProjectIdentityConflict,
                    "canonical workspace root is already bound to a different project identity",
                ),
            )
        },
        None => {
            let mut i: usize = 0;
            while i < prior.len()
                invariant
                    i <= prior.len(),
                    root is None,
                    forall|j: int|
                        0 <= j < i ==> record.git_common_dir is Some && #[trigger] opt_text(
                            prior@[j],
                        ) == opt_text(record.git_common_dir),
                decreases prior.len() - i,
            {
                if prior[i].is_none() || record.git_common_dir.is_none() || !same_option(
                    &prior[i],
                    &record.git_common_dir,
                ) {
                    assert(!(record.git_common_dir is Some && opt_text(prior@[i as int])
                        == opt_text(record.git_common_dir)));
                    assert(!same_repository(prior@, record.git_common_dir));
                    return Err(
                        StoreError::new(
                            ErrorCode::ProjectIdentityConflict,
                            "a moved or unrelated root requires explicit reassociation",
                        ),
                    );
                }
                i += 1;
            }
            Ok(true)
        },
    }
}

/// The roots of one project share one repository: where a project has roots, and
/// another one is registered for it, all of them have the same common directory.
pub proof fn law_linked_roots_share_a_repository(
    record: ProjectRegistrationRecord,
    prior: Seq<Option<String>>,
    i: int,
    j: int,
)
    requires
        registration_fault(record, None, prior) is None,
        0 <= i < prior.len(),
        0 <= j < prior.len(),
    ensures
        record.git_common_dir is Some,
        opt_text(prior[i]) == opt_text(record.git_common_dir),
        opt_text(prior[i]) == opt_text(prior[j]),
{
}

/// Why a registration names no root.
pub open spec fn root_fault(record: ProjectRegistrationRecord) -> Option<Fault> {
    if blank(record.canonical_root@) {
        fault(ErrorCode::ProjectIdentityConflict, "project canonical root must not be empty"@)
    } else {
        None
    }
}

/// Refuses a registration without a root.
pub fn validate_project_registration(record: &ProjectRegistrationRecord) -> (result: Result<
    (),
    StoreError,
>)
    ensures
        answers(result, root_fault(*record)),
{
    if is_blank(record.canonical_root.as_str()) {
        return Err(
            StoreError::new(
                ErrorCode::ProjectIdentityConflict,
                "project canonical root must not be empty",
            ),
        );
    }
    Ok(())
}

/// Registers a root for a project.
pub fn decide_project_registration(
    record: &ProjectRegistrationRecord,
    fence: &HostFence,
    held: Option<i64>,
    root: &Option<RegisteredRoot>,
    prior: &Vec<Option<String>>,
) -> (result: Result<bool, StoreError>)
    ensures
        answers(
            result,
            first(
                root_fault(*record),
                first(fence_fault(held, *fence), registration_fault(*record, *root, prior@)),
            ),
        ),
        result is Ok ==> result->Ok_0 == (root is None),
{
    validate_project_registration(record)?;
    check_fence(held, fence)?;
    insert_project_registration(record, root, prior)
}

/// Why a project's root cannot be replaced. `removed` is how many rows held the
/// old root; `root` and `prior` are what is left once they are gone.
pub open spec fn reassociation_fault(
    project_id: Seq<char>,
    old_root: Seq<char>,
    replacement: ProjectRegistrationRecord,
    fence: HostFence,
    held: Option<i64>,
    removed: u64,
    root: Option<RegisteredRoot>,
    prior: Seq<Option<String>>,
) -> Option<Fault> {
    if replacement.project_id@ != project_id || blank(old_root) {
        fault(ErrorCode::ProjectIdentityConflict, "project reassociation identity is invalid"@)
    } else {
        first(
            root_fault(replacement),
            first(
                fence_fault(held, fence),
                if removed != 1 {
                    fault(
                        ErrorCode::ProjectIdentityConflict,
                        "old project root is not registered"@,
                    )
                } else {
                    registration_fault(replacement, root, prior)
                },
            ),
        )
    }
}

/// Replaces a project's root.
pub fn decide_project_reassociation(
    project_id: &str,
    old_root: &str,
    replacement: &ProjectRegistrationRecord,
    fence: &HostFence,
    held: Option<i64>,
    removed: u64,
    root: &Option<RegisteredRoot>,
    prior: &Vec<Option<String>>,
) -> (result: Result<bool, StoreError>)
    ensures
        answers(
            result,
            reassociation_fault(
                project_id@,
                old_root@,
                *replacement,
                *fence,
                held,
                removed,
                *root,
                prior@,
            ),
        ),
        result is Ok ==> result->Ok_0 == (root is None),
{
    if !same_text(replacement.project_id.as_str(), project_id) || is_blank(old_root) {
        return Err(
            StoreError::new(
                ErrorCode::ProjectIdentityConflict,
                "project reassociation identity is invalid",
            ),
        );
    }
    validate_project_registration(replacement)?;
    check_fence(held, fence)?;
    if removed != 1 {
        return Err(
            StoreError::new(
                ErrorCode::ProjectIdentityConflict,
                "old project root is not registered",
            ),
        );
    }
    insert_project_registration(replacement, root, prior)
}

/// A root that is free is registered for a project if and only if every root that the
/// project has lies in the same repository as the new one, so the first root of a project
/// always is. A root that is taken is registered again if and only if it is taken by that
/// very project.
pub proof fn law_root_is_registered_where_it_is_free(
    record: ProjectRegistrationRecord,
    owner: RegisteredRoot,
    prior: Seq<Option<String>>,
)
    ensures
        registration_fault(record, None, seq![]) is None,
        registration_fault(record, None, prior) is None <==> forall|i: int|
            0 <= i < prior.len() ==> {
                &&& (#[trigger] prior[i]) is Some
                &&& record.git_common_dir is Some
                &&& prior[i]->Some_0@ == record.git_common_dir->Some_0@
            },
        registration_fault(record, Some(owner), prior) is None <==> {
            &&& owner.project_id@ == record.project_id@
            &&& owner.identity_hash@ == record.identity_hash@
            &&& owner.git_common_dir is Some <==> record.git_common_dir is Some
            &&& owner.git_common_dir is Some ==> owner.git_common_dir->Some_0@
                == record.git_common_dir->Some_0@
        },
        root_fault(record) is None <==> !blank(record.canonical_root@),
{
    if registration_fault(record, None, prior) is None {
        assert forall|i: int| 0 <= i < prior.len() implies (#[trigger] prior[i]) is Some
            && record.git_common_dir is Some && prior[i]->Some_0@
            == record.git_common_dir->Some_0@ by {
            assert(opt_text(prior[i]) == opt_text(record.git_common_dir));
        }
    }
    if forall|i: int|
        0 <= i < prior.len() ==> (#[trigger] prior[i]) is Some && record.git_common_dir is Some
            && prior[i]->Some_0@ == record.git_common_dir->Some_0@ {
        assert forall|i: int| 0 <= i < prior.len() implies record.git_common_dir is Some
            && #[trigger] opt_text(prior[i]) == opt_text(record.git_common_dir) by {
            assert(prior[i] is Some);
        }
    }
}

/// A project's root is replaced if and only if the old one is registered once, the new one
/// is named and free for that project, and the host may write.
pub proof fn law_registered_root_is_replaced(
    project_id: Seq<char>,
    old_root: Seq<char>,
    replacement: ProjectRegistrationRecord,
    fence: HostFence,
    held: Option<i64>,
    removed: u64,
    root: Option<RegisteredRoot>,
    prior: Seq<Option<String>>,
)
    ensures
        reassociation_fault(
            project_id,
            old_root,
            replacement,
            fence,
            held,
            removed,
            root,
            prior,
        ) is None <==> {
            &&& replacement.project_id@ == project_id
            &&& !blank(old_root)
            &&& !blank(replacement.canonical_root@)
            &&& held is Some
            &&& held->Some_0 == fence.generation as int
            &&& removed == 1
            &&& registration_fault(replacement, root, prior) is None
        },
{
}

/// A root belongs to one project: registering it again for the same project
/// changes nothing, and for another one is refused.
pub proof fn law_root_belongs_to_one_project(
    record: ProjectRegistrationRecord,
    other: ProjectRegistrationRecord,
    root: RegisteredRoot,
    prior: Seq<Option<String>>,
)
    requires
        root.is(record),
        other.project_id@ != record.project_id@,
    ensures
        registration_fault(record, Some(root), prior) is None,
        registration_fault(other, Some(root), prior) == fault(
            ErrorCode::ProjectIdentityConflict,
            "canonical workspace root is already bound to a different project identity"@,
        ),
{
}

// ---------------------------------------------------------------------------
// Reading back

/// An approval as its row is read.
#[derive(Debug)]
pub struct ToolApprovalRow {
    pub approval_id: Parsed,
    pub actor_id: String,
    pub binding_hash: Parsed,
    pub action_hash: Parsed,
    pub workspace_root: String,
    pub workspace_fingerprint: Parsed,
    pub policy_revision: i64,
    pub tool_revision: i64,
    pub expires_at_unix_ms: Option<i64>,
    pub state: String,
    pub approval_json: String,
    /// The digest of the JSON, where it has a canonical form.
    pub canonical: Parsed,
}

/// Why a stored approval cannot be read.
pub open spec fn approval_row_fault(row: ToolApprovalRow) -> Option<Fault> {
    let write_failed = ErrorCode::StorageWriteFailed;
    first(
        if forall|state: ToolApprovalState| #[trigger] state.text() != row.state@ {
            fault(write_failed, "stored tool approval state is invalid"@)
        } else {
            None
        },
        first(
            u64_option_fault(row.expires_at_unix_ms, "tool approval expiry"@),
            first(
                if is_json(row.approval_json@) {
                    None
                } else {
                    fault(write_failed, "stored tool approval JSON is invalid"@)
                },
                first(
                    stored_fault(
                        row.approval_id,
                        write_failed,
                        "stored tool approval ID is invalid"@,
                    ),
                    first(
                        stored_fault(
                            row.binding_hash,
                            write_failed,
                            "stored tool approval binding hash is invalid"@,
                        ),
                        first(
                            stored_fault(
                                row.action_hash,
                                write_failed,
                                "stored tool approval action hash is invalid"@,
                            ),
                            first(
                                stored_fault(
                                    row.workspace_fingerprint,
                                    write_failed,
                                    "stored tool approval workspace fingerprint is invalid"@,
                                ),
                                first(
                                    u64_fault(
                                        row.policy_revision,
                                        "tool approval policy revision"@,
                                    ),
                                    first(
                                        u64_fault(row.tool_revision, "tool approval revision"@),
                                        loaded_approval_fault(row),
                                    ),
                                ),
                            ),
                        ),
                    ),
                ),
            ),
        ),
    )
}

/// Why an approval whose columns all read well is still not usable.
pub open spec fn loaded_approval_fault(row: ToolApprovalRow) -> Option<Fault> {
    if blank(row.actor_id@) || blank(row.workspace_root@) || row.policy_revision == 0
        || row.tool_revision == 0 {
        fault(ErrorCode::StorageWriteFailed, "stored tool approval is incomplete"@)
    } else {
        digest_fault(
            row.canonical,
            row.binding_hash->Ok_0@,
            "stored tool approval JSON is not canonical: "@,
            ErrorCode::StorageWriteFailed,
            "stored tool approval binding hash does not match"@,
        )
    }
}

/// The approval that a row holds, under the state that its text stands for.
pub open spec fn approval_of(row: ToolApprovalRow, state: ToolApprovalState) -> ToolApprovalRecord {
    ToolApprovalRecord {
        approval_id: row.approval_id->Ok_0,
        actor_id: row.actor_id,
        binding_hash: row.binding_hash->Ok_0,
        action_hash: row.action_hash->Ok_0,
        workspace_root: row.workspace_root,
        workspace_fingerprint: row.workspace_fingerprint->Ok_0,
        policy_revision: row.policy_revision as u64,
        tool_revision: row.tool_revision as u64,
        expires_at_unix_ms: u64_option(row.expires_at_unix_ms),
        state,
        approval_json: row.approval_json,
    }
}

/// Reads an approval back.
pub fn tool_approval_from_row(row: ToolApprovalRow) -> (result: Result<
    ToolApprovalRecord,
    StoreError,
>)
    ensures
        answers(result, approval_row_fault(row)),
        result is Ok ==> result->Ok_0.state.text() == row.state@,
        result is Ok ==> result->Ok_0 == approval_of(row, result->Ok_0.state),
{
    let state: ToolApprovalState = match ToolApprovalState::parse(row.state.as_str()) {
        Some(state) => state,
        None => {
            return Err(
                StoreError::new(
                    ErrorCode::StorageWriteFailed,
                    "stored tool approval state is invalid",
                ),
            );
        },
    };
    assert(state.text() == row.state@);
    let expires_at_unix_ms: Option<u64> = to_u64_option(
        row.expires_at_unix_ms,
        "tool approval expiry",
    )?;
    if !json_is_valid(row.approval_json.as_str()) {
        return Err(
            StoreError::new(ErrorCode::StorageWriteFailed, "stored tool approval JSON is invalid"),
        );
    }
    let approval_id: String = stored_value(
        row.approval_id,
        ErrorCode::StorageWriteFailed,
        "stored tool approval ID is invalid",
    )?;
    let binding_hash: String = stored_value(
        row.binding_hash,
        ErrorCode::StorageWriteFailed,
        "stored tool approval binding hash is invalid",
    )?;
    let action_hash: String = stored_value(
        row.action_hash,
        ErrorCode::StorageWriteFailed,
        "stored tool approval action hash is invalid",
    )?;
    let workspace_fingerprint: String = stored_value(
        row.workspace_fingerprint,
        ErrorCode::StorageWriteFailed,
        "stored tool approval workspace fingerprint is invalid",
    )?;
    let policy_revision: u64 = to_u64(row.policy_revision, "tool approval policy revision")?;
    let tool_revision: u64 = to_u64(row.tool_revision, "tool approval revision")?;
    if is_blank(row.actor_id.as_str()) || is_blank(row.workspace_root.as_str()) || policy_revision
        == 0 || tool_revision == 0 {
        return Err(
            StoreError::new(ErrorCode::StorageWriteFailed, "stored tool approval is incomplete"),
        );
    }
    check_digest(
        &row.canonical,
        binding_hash.as_str(),
        "stored tool approval JSON is not canonical: ",
        ErrorCode::StorageWriteFailed,
        "stored tool approval binding hash does not match",
    )?;
    Ok(
        ToolApprovalRecord {
            approval_id,
            actor_id: row.actor_id,
            binding_hash,
            action_hash,
            workspace_root: row.workspace_root,
            workspace_fingerprint,
            policy_revision,
            tool_revision,
            expires_at_unix_ms,
            state,
            approval_json: row.approval_json,
        },
    )
}

/// A row holds an approval as it is written: its identities and texts as they are, and
/// its numbers, which columns can hold.
pub open spec fn approval_is_stored_in(record: ToolApprovalRecord, row: ToolApprovalRow) -> bool {
    &&& record.policy_revision <= i64::MAX
    &&& record.tool_revision <= i64::MAX
    &&& record.expires_at_unix_ms is Some ==> record.expires_at_unix_ms->Some_0 <= i64::MAX
    &&& is_json(record.approval_json@)
    &&& approval_shape_fault(record, row.canonical) is None
    &&& row.state@ == record.state.text()
    &&& row == (ToolApprovalRow {
        approval_id: Ok(record.approval_id),
        binding_hash: Ok(record.binding_hash),
        action_hash: Ok(record.action_hash),
        workspace_fingerprint: Ok(record.workspace_fingerprint),
        policy_revision: record.policy_revision as i64,
        tool_revision: record.tool_revision as i64,
        expires_at_unix_ms: i64_option(record.expires_at_unix_ms),
        actor_id: record.actor_id,
        workspace_root: record.workspace_root,
        approval_json: record.approval_json,
        state: row.state,
        canonical: row.canonical,
    })
}

/// What is written is read back: the row of an approval reads without an error, and as
/// the record that it was written from.
pub proof fn law_stored_approval_reads_back(record: ToolApprovalRecord, row: ToolApprovalRow, read: ToolApprovalRecord)
    requires
        approval_is_stored_in(record, row),
        read.state.text() == row.state@ && read == approval_of(row, read.state),
    ensures
        approval_row_fault(row) is None,
        read == record,
{
    crate::states::law_tool_approval_state_texts_differ(record.state, read.state);
}

/// An intent as its row is read.
#[derive(Debug)]
pub struct ToolIntentRow {
    pub tool_execution_id: Parsed,
    pub session_id: Parsed,
    pub task_id: Parsed,
    pub invocation_id: String,
    pub actor_id: String,
    pub tool_name: String,
    pub action_json: String,
    pub action_hash: Parsed,
    pub workspace_root: String,
    pub workspace_fingerprint: Parsed,
    pub before_fingerprint: Option<Parsed>,
    pub policy_revision: i64,
    pub tool_revision: i64,
    pub approval_id: Parsed,
    pub status: String,
    pub intent_sequence: i64,
    /// The digest of the action, where it has a canonical form.
    pub canonical: Parsed,
}

/// Why a stored intent cannot be read.
pub open spec fn intent_row_fault(row: ToolIntentRow) -> Option<Fault> {
    let write_failed = ErrorCode::StorageWriteFailed;
    first(
        if is_json(row.action_json@) {
            None
        } else {
            fault(write_failed, "stored tool action JSON is invalid"@)
        },
        first(
            stored_fault(row.action_hash, write_failed, "stored tool action hash is invalid"@),
            first(
                hashed_json_fault(row.canonical, row.action_hash->Ok_0@),
                first(
                    if forall|status: ToolIntentStatus| #[trigger] status.text() != row.status@ {
                        fault(write_failed, "stored tool intent status is invalid"@)
                    } else {
                        None
                    },
                    first(
                        stored_fault(
                            row.workspace_fingerprint,
                            write_failed,
                            "stored tool workspace fingerprint is invalid"@,
                        ),
                        first(
                            u64_fault(row.policy_revision, "stored tool policy revision"@),
                            first(
                                u64_fault(row.tool_revision, "stored tool revision"@),
                                intent_identity_fault(row),
                            ),
                        ),
                    ),
                ),
            ),
        ),
    )
}

/// Why the identities of a stored intent cannot be read.
pub open spec fn intent_identity_fault(row: ToolIntentRow) -> Option<Fault> {
    let write_failed = ErrorCode::StorageWriteFailed;
    first(
        stored_fault(row.approval_id, write_failed, "stored tool approval ID is invalid"@),
        first(
            stored_fault(
                row.tool_execution_id,
                write_failed,
                "stored tool execution ID is invalid"@,
            ),
            first(
                stored_fault(row.session_id, write_failed, "stored session ID is invalid"@),
                first(
                    stored_fault(row.task_id, write_failed, "stored task ID is invalid"@),
                    first(
                        stored_option_fault(
                            row.before_fingerprint,
                            write_failed,
                            "stored before fingerprint hash is invalid"@,
                        ),
                        u64_fault(row.intent_sequence, "tool intent sequence"@),
                    ),
                ),
            ),
        ),
    )
}

/// The intent that a row holds, under the status that its text stands for. Its
/// approval covers exactly what the intent says.
pub open spec fn intent_of(row: ToolIntentRow, status: ToolIntentStatus) -> ToolIntentRecord {
    ToolIntentRecord {
        tool_execution_id: row.tool_execution_id->Ok_0,
        session_id: row.session_id->Ok_0,
        task_id: row.task_id->Ok_0,
        invocation_id: row.invocation_id,
        actor_id: row.actor_id,
        tool_name: row.tool_name,
        action_json: row.action_json,
        action_hash: row.action_hash->Ok_0,
        workspace_root: row.workspace_root,
        workspace_fingerprint: row.workspace_fingerprint->Ok_0,
        before_fingerprint: parsed_option(row.before_fingerprint),
        policy_revision: row.policy_revision as u64,
        tool_revision: row.tool_revision as u64,
        approval: ToolApprovalBinding {
            approval_id: row.approval_id->Ok_0,
            actor_id: row.actor_id,
            action_hash: row.action_hash->Ok_0,
            workspace_root: row.workspace_root,
            workspace_fingerprint: row.workspace_fingerprint->Ok_0,
            policy_revision: row.policy_revision as u64,
            tool_revision: row.tool_revision as u64,
        },
        status,
        intent_sequence: row.intent_sequence as u64,
    }
}

/// Reads an intent back.
pub fn tool_intent_from_row(row: ToolIntentRow) -> (result: Result<ToolIntentRecord, StoreError>)
    ensures
        answers(result, intent_row_fault(row)),
        result is Ok ==> result->Ok_0.status.text() == row.status@,
        result is Ok ==> result->Ok_0 == intent_of(row, result->Ok_0.status),
{
    if !json_is_valid(row.action_json.as_str()) {
        return Err(
            StoreError::new(ErrorCode::StorageWriteFailed, "stored tool action JSON is invalid"),
        );
    }
    let action_hash: String = stored_value(
        row.action_hash,
        ErrorCode::StorageWriteFailed,
        "stored tool action hash is invalid",
    )?;
    validate_hashed_json(&row.canonical, action_hash.as_str())?;
    let status: ToolIntentStatus = match ToolIntentStatus::parse(row.status.as_str()) {
        Some(status) => status,
        None => {
            return Err(
                StoreError::new(
                    ErrorCode::StorageWriteFailed,
                    "stored tool intent status is invalid",
                ),
            );
        },
    };
    assert(status.text() == row.status@);
    let workspace_fingerprint: String = stored_value(
        row.workspace_fingerprint,
        ErrorCode::StorageWriteFailed,
        "stored tool workspace fingerprint is invalid",
    )?;
    let policy_revision: u64 = to_u64(row.policy_revision, "stored tool policy revision")?;
    let tool_revision: u64 = to_u64(row.tool_revision, "stored tool revision")?;
    let approval_id: String = stored_value(
        row.approval_id,
        ErrorCode::StorageWriteFailed,
        "stored tool approval ID is invalid",
    )?;
    let tool_execution_id: String = stored_value(
        row.tool_execution_id,
        ErrorCode::StorageWriteFailed,
        "stored tool execution ID is invalid",
    )?;
    let session_id: String = stored_value(
        row.session_id,
        ErrorCode::StorageWriteFailed,
        "stored session ID is invalid",
    )?;
    let task_id: String = stored_value(
        row.task_id,
        ErrorCode::StorageWriteFailed,
        "stored task ID is invalid",
    )?;
    let before_fingerprint: Option<String> = stored_option(
        row.before_fingerprint,
        ErrorCode::StorageWriteFailed,
        "stored before fingerprint hash is invalid",
    )?;
    let intent_sequence: u64 = to_u64(row.intent_sequence, "tool intent sequence")?;
    let approval: ToolApprovalBinding = ToolApprovalBinding {
        approval_id,
        actor_id: row.actor_id.clone(),
        action_hash: action_hash.clone(),
        workspace_root: row.workspace_root.clone(),
        workspace_fingerprint: workspace_fingerprint.clone(),
        policy_revision,
        tool_revision,
    };
    Ok(
        ToolIntentRecord {
            tool_execution_id,
            session_id,
            task_id,
            invocation_id: row.invocation_id,
            actor_id: row.actor_id,
            tool_name: row.tool_name,
            action_json: row.action_json,
            action_hash,
            workspace_root: row.workspace_root,
            workspace_fingerprint,
            before_fingerprint,
            policy_revision,
            tool_revision,
            approval,
            status,
            intent_sequence,
        },
    )
}

/// A row holds an intent as it is written: its identities and texts as they are, and
/// its numbers, which columns can hold. The intent's approval covers exactly what
/// the intent says.
pub open spec fn intent_is_stored_in(record: ToolIntentRecord, row: ToolIntentRow) -> bool {
    &&& record.policy_revision <= i64::MAX
    &&& record.tool_revision <= i64::MAX
    &&& record.intent_sequence <= i64::MAX
    &&& is_json(record.action_json@)
    &&& hashed_json_fault(row.canonical, record.action_hash@) is None
    &&& record.approval == (ToolApprovalBinding {
        approval_id: record.approval.approval_id,
        actor_id: record.actor_id,
        action_hash: record.action_hash,
        workspace_root: record.workspace_root,
        workspace_fingerprint: record.workspace_fingerprint,
        policy_revision: record.policy_revision,
        tool_revision: record.tool_revision,
    })
    &&& row.status@ == record.status.text()
    &&& row == (ToolIntentRow {
        tool_execution_id: Ok(record.tool_execution_id),
        session_id: Ok(record.session_id),
        task_id: Ok(record.task_id),
        action_hash: Ok(record.action_hash),
        workspace_fingerprint: Ok(record.workspace_fingerprint),
        before_fingerprint: written_option(record.before_fingerprint),
        policy_revision: record.policy_revision as i64,
        tool_revision: record.tool_revision as i64,
        intent_sequence: record.intent_sequence as i64,
        invocation_id: record.invocation_id,
        actor_id: record.actor_id,
        tool_name: record.tool_name,
        action_json: record.action_json,
        workspace_root: record.workspace_root,
        status: row.status,
        canonical: row.canonical,
        approval_id: Ok(record.approval.approval_id),
    })
}

/// What is written is read back: the row of an intent reads without an error, and as
/// the record that it was written from.
pub proof fn law_stored_intent_reads_back(record: ToolIntentRecord, row: ToolIntentRow, read: ToolIntentRecord)
    requires
        intent_is_stored_in(record, row),
        read.status.text() == row.status@ && read == intent_of(row, read.status),
    ensures
        intent_row_fault(row) is None,
        read == record,
{
    crate::states::law_tool_intent_status_texts_differ(record.status, read.status);
}

} // verus!

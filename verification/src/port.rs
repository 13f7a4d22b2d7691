//! The store as the rest of the host sees it: leases on runs, and what is left
//! to reconcile when a session is recovered.

use crate::budgets::BudgetReservationRecord;
use crate::columns::{to_u64, u64_fault};
use crate::error::{answers, fault, first, ErrorCode, Fault, StoreError};
use crate::journal::{AdmissionAck, HostFence};
use crate::runs::RunRecord;
use crate::states::BudgetReservationState;
use vstd::prelude::*;

verus! {

/// The part of a run that its owner holds on to.
#[derive(Clone, Debug, PartialEq, Eq)]
pub struct RunLease {
    pub run_id: String,
    pub session_id: String,
    pub task_id: String,
    pub input_id: String,
    pub owner_generation: u64,
    pub revision: u64,
}

/// The lease on a run.
pub fn lease(record: RunRecord) -> (lease: RunLease)
    ensures
        lease == (RunLease {
            run_id: record.run_id,
            session_id: record.session_id,
            task_id: record.task_id,
            input_id: record.input_id,
            owner_generation: record.owner_generation,
            revision: record.revision,
        }),
{
    RunLease {
        run_id: record.run_id,
        session_id: record.session_id,
        task_id: record.task_id,
        input_id: record.input_id,
        owner_generation: record.owner_generation,
        revision: record.revision,
    }
}

/// What a step asks to have reserved.
#[derive(Clone, Debug, PartialEq, Eq)]
pub struct FrozenBudgetReservation {
    pub reservation_id: String,
    pub budget_id: String,
    pub operation_id: String,
    pub origin: String,
    pub upper_bound_tokens: u64,
}

/// The reservation that a step asks for, as it is first written.
pub fn reservation(value: FrozenBudgetReservation) -> (record: BudgetReservationRecord)
    ensures
        record == (BudgetReservationRecord {
            reservation_id: value.reservation_id,
            budget_id: value.budget_id,
            operation_id: value.operation_id,
            origin: value.origin,
            upper_bound_tokens: value.upper_bound_tokens,
            settled_tokens: None,
            state: BudgetReservationState::Reserved,
            revision: 1,
        }),
{
    BudgetReservationRecord {
        reservation_id: value.reservation_id,
        budget_id: value.budget_id,
        operation_id: value.operation_id,
        origin: value.origin,
        upper_bound_tokens: value.upper_bound_tokens,
        settled_tokens: None,
        state: BudgetReservationState::Reserved,
        revision: 1,
    }
}

/// What an input is answered at the port.
#[derive(Clone, Debug, PartialEq, Eq)]
pub enum PortAdmission {
    Admitted(AdmissionAck),
    Duplicate(AdmissionAck),
}

/// An input that was admitted before is a duplicate.
pub fn port_admission(ack: AdmissionAck) -> (outcome: PortAdmission)
    ensures
        outcome == if ack.idempotent_replay {
            PortAdmission::Duplicate(ack)
        } else {
            PortAdmission::Admitted(ack)
        },
{
    if ack.idempotent_replay {
        PortAdmission::Duplicate(ack)
    } else {
        PortAdmission::Admitted(ack)
    }
}

/// Refuses a request that was made under another generation than the writer's.
pub fn check_owner_generation(expected: u64, fence: &HostFence, stale: &str) -> (result: Result<
    (),
    StoreError,
>)
    ensures
        answers(
            result,
            if expected == fence.generation {
                None
            } else {
                fault(ErrorCode::StaleWriter, stale@)
            },
        ),
{
    if expected != fence.generation {
        return Err(StoreError::new(ErrorCode::StaleWriter, stale));
    }
    Ok(())
}

/// What a recovered session looks like.
#[derive(Clone, Debug, PartialEq, Eq)]
pub struct PortRecoveryView {
    pub session_id: String,
    pub replayed_through_sequence: u64,
    pub pending_effects: u64,
    pub blocked_reason: Option<String>,
}

/// Why a session cannot be recovered.
pub open spec fn recovery_fault(next_sequence: Option<i64>, intents: i64, commands: i64) -> Option<
    Fault,
> {
    match next_sequence {
        None => fault(ErrorCode::InvalidPayload, "session does not exist"@),
        Some(next) => first(
            u64_fault(next, "next session sequence"@),
            if next == 0 {
                fault(ErrorCode::StorageOpenFailed, "stored next session sequence is zero"@)
            } else {
                first(
                    u64_fault(intents, "pending tool intent count"@),
                    u64_fault(commands, "pending runtime command count"@),
                )
            },
        ),
    }
}

/// Recovers a session from one reading of the store: its journal up to the last
/// event, and how many intents and commands are still open. Open effects block
/// the session until they are reconciled.
pub fn recover_readonly(
    session_id: String,
    next_sequence: Option<i64>,
    pending_intents: i64,
    pending_commands: i64,
) -> (result: Result<PortRecoveryView, StoreError>)
    ensures
        answers(result, recovery_fault(next_sequence, pending_intents, pending_commands)),
        result is Ok ==> {
            let view = result->Ok_0;
            &&& view.session_id == session_id
            &&& view.replayed_through_sequence == next_sequence->Some_0 - 1
            &&& view.pending_effects == pending_intents + pending_commands
            &&& view.blocked_reason is Some <==> view.pending_effects > 0
            &&& view.blocked_reason is Some ==> view.blocked_reason->Some_0@
                == "unsettled external effects require reconciliation"@
        },
{
    let next: i64 = match next_sequence {
        Some(next) => next,
        None => {
            return Err(StoreError::new(ErrorCode::InvalidPayload, "session does not exist"));
        },
    };
    let next: u64 = to_u64(next, "next session sequence")?;
    if next == 0 {
        return Err(
            StoreError::new(ErrorCode::StorageOpenFailed, "stored next session sequence is zero"),
        );
    }
    let intents: u64 = to_u64(pending_intents, "pending tool intent count")?;
    let commands: u64 = to_u64(pending_commands, "pending runtime command count")?;
    let pending_effects: u64 = intents + commands;
    let blocked_reason: Option<String> = if pending_effects > 0 {
        Some("unsettled external effects require reconciliation".to_owned())
    } else {
        None
    };
    Ok(
        PortRecoveryView {
            session_id,
            replayed_through_sequence: next - 1,
            pending_effects,
            blocked_reason,
        },
    )
}

/// A session that is there is recovered where its next sequence is one or later and nothing
/// that waits is counted below nothing.
pub proof fn law_session_is_recovered(next: i64, intents: i64, commands: i64)
    ensures
        recovery_fault(Some(next), intents, commands) is None <==> 1 <= next && 0 <= intents && 0
            <= commands,
        recovery_fault(None, intents, commands) is Some,
{
}

} // verus!

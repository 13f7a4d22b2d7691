//! Backend leases: the record that says a resource has an owner.
//!
//! A lease is written before the execution it describes is exposed, and closed
//! once. Nothing here decides whether a resource may be cleaned up.

use crate::columns::{i64_fault, to_i64, to_unsigned, unsigned_fault};
use crate::error::{answers, fault, first, ErrorCode, Fault, StoreError};
use crate::journal::{check_fence, fence_fault, HostFence};
use crate::text::{blank, cat, copy_option, is_blank, listed, same_text};
use vstd::prelude::*;

verus! {

/// One stored lease.
#[derive(Clone, Debug, PartialEq, Eq)]
pub struct StoredBackendLease {
    pub lease_id: String,
    pub owner_generation: u64,
    pub host_id: String,
    pub session_id: String,
    pub task_id: String,
    pub tool_execution_id: String,
    pub backend: String,
    pub profile: String,
    /// The process id that the owner recorded. It is evidence, never an identity.
    pub pid: Option<i64>,
    pub lock_path: String,
    pub state: String,
    pub enforced_json: String,
    pub not_claimed_json: String,
    pub artifact_id: Option<String>,
    pub artifact_digest: Option<String>,
    pub created_at_unix_ms: i64,
    pub heartbeat_at_unix_ms: i64,
    pub released_at_unix_ms: Option<i64>,
    pub recovery_json: Option<String>,
}

/// The states that a lease moves through.
pub const LEASE_STATES: [&'static str; 5] = [
    "acquiring",
    "acquired",
    "releasing",
    "released",
    "recovered",
];

/// A state that a lease can be in.
pub open spec fn is_lease_state(state: Seq<char>) -> bool {
    ||| state == "acquiring"@
    ||| state == "acquired"@
    ||| state == "releasing"@
    ||| state == "released"@
    ||| state == "recovered"@
}

/// A lease can be in the listed states and in no other.
pub proof fn law_lease_states_are_listed(state: Seq<char>)
    ensures
        is_lease_state(state) <==> listed(LEASE_STATES@, state),
{
    assert(LEASE_STATES@[0]@ == "acquiring"@);
    assert(LEASE_STATES@[1]@ == "acquired"@);
    assert(LEASE_STATES@[2]@ == "releasing"@);
    assert(LEASE_STATES@[3]@ == "released"@);
    assert(LEASE_STATES@[4]@ == "recovered"@);
}

/// Why a state is not one that a lease can be in.
pub open spec fn lease_state_fault(state: Seq<char>) -> Option<Fault> {
    if is_lease_state(state) {
        None
    } else {
        fault(ErrorCode::InvalidPayload, "unknown lease state "@ + state)
    }
}

/// Refuses a state that a lease cannot be in.
pub fn check_lease_state(state: &str) -> (result: Result<(), StoreError>)
    ensures
        answers(result, lease_state_fault(state@)),
{
    if same_text(state, "acquiring") || same_text(state, "acquired") || same_text(
        state,
        "releasing",
    ) || same_text(state, "released") || same_text(state, "recovered") {
        return Ok(());
    }
    let message: String = cat("unknown lease state ", state);
    Err(StoreError::new(ErrorCode::InvalidPayload, message.as_str()))
}

/// Two leases are about one resource: they have one id, or one host holds them for
/// one execution.
pub open spec fn same_resource(a: StoredBackendLease, b: StoredBackendLease) -> bool {
    ||| a.lease_id@ == b.lease_id@
    ||| a.host_id@ == b.host_id@ && a.tool_execution_id@ == b.tool_execution_id@
}

/// One of some leases is about the resource of a lease.
pub open spec fn is_leased(leases: Seq<StoredBackendLease>, lease: StoredBackendLease) -> bool {
    exists|i: int| 0 <= i < leases.len() && same_resource(#[trigger] leases[i], lease)
}

fn find_lease(leases: &Vec<StoredBackendLease>, lease: &StoredBackendLease) -> (found: bool)
    ensures
        found == is_leased(leases@, *lease),
{
    let mut i: usize = 0;
    while i < leases.len()
        invariant
            i <= leases.len(),
            forall|k: int| 0 <= k < i ==> !same_resource(#[trigger] leases@[k], *lease),
        decreases leases.len() - i,
    {
        let other: &StoredBackendLease = &leases[i];
        if same_text(other.lease_id.as_str(), lease.lease_id.as_str()) || (same_text(
            other.host_id.as_str(),
            lease.host_id.as_str(),
        ) && same_text(other.tool_execution_id.as_str(), lease.tool_execution_id.as_str())) {
            assert(same_resource(leases@[i as int], *lease));
            return true;
        }
        i += 1;
    }
    false
}

/// Why a lease is not written. `leases` are the ones that are there already.
pub open spec fn create_fault(
    lease: StoredBackendLease,
    fence: HostFence,
    held: Option<i64>,
    leases: Seq<StoredBackendLease>,
) -> Option<Fault> {
    first(
        lease_state_fault(lease.state@),
        if blank(lease.lock_path@) {
            fault(
                ErrorCode::InvalidPayload,
                "a lease must record the lock that proves its owner"@,
            )
        } else {
            first(
                fence_fault(held, fence),
                first(
                    i64_fault(lease.owner_generation, "lease owner generation"@),
                    if is_leased(leases, lease) {
                        fault(
                            ErrorCode::TaskLeaseConflict,
                            "this host already has a lease for that execution"@,
                        )
                    } else {
                        None
                    },
                ),
            )
        },
    )
}

/// Refuses a lease without a lock, or for an execution that already has one.
pub fn create_backend_lease(
    lease: &StoredBackendLease,
    fence: &HostFence,
    held: Option<i64>,
    leases: &Vec<StoredBackendLease>,
) -> (result: Result<(), StoreError>)
    ensures
        answers(result, create_fault(*lease, *fence, held, leases@)),
{
    check_lease_state(lease.state.as_str())?;
    if is_blank(lease.lock_path.as_str()) {
        return Err(
            StoreError::new(
                ErrorCode::InvalidPayload,
                "a lease must record the lock that proves its owner",
            ),
        );
    }
    check_fence(held, fence)?;
    let generation: i64 = to_i64(lease.owner_generation, "lease owner generation")?;
    if find_lease(leases, lease) {
        return Err(
            StoreError::new(
                ErrorCode::TaskLeaseConflict,
                "this host already has a lease for that execution",
            ),
        );
    }
    Ok(())
}

/// A host that may write takes a lease in any of the five states that records its lock, unless
/// the lease or the host's execution has one.
pub proof fn law_lease_with_a_lock_is_created(
    lease: StoredBackendLease,
    fence: HostFence,
    held: Option<i64>,
    leases: Seq<StoredBackendLease>,
)
    ensures
        create_fault(lease, fence, held, leases) is None <==> {
            &&& lease.state@ == "acquiring"@ || lease.state@ == "acquired"@ || lease.state@
                == "releasing"@ || lease.state@ == "released"@ || lease.state@ == "recovered"@
            &&& !blank(lease.lock_path@)
            &&& held is Some
            &&& held->Some_0 == fence.generation as int
            &&& lease.owner_generation <= i64::MAX
            &&& forall|i: int|
                0 <= i < leases.len() ==> {
                    &&& (#[trigger] leases[i]).lease_id@ != lease.lease_id@
                    &&& leases[i].host_id@ != lease.host_id@ || leases[i].tool_execution_id@
                        != lease.tool_execution_id@
                }
        },
{
}

/// One execution has one lease: once a host has a lease for it, settled or not,
/// another one for the same execution is not written.
pub proof fn law_execution_has_one_lease(
    leases: Seq<StoredBackendLease>,
    lease: StoredBackendLease,
    second: StoredBackendLease,
    fence: HostFence,
    held: Option<i64>,
)
    requires
        second.host_id@ == lease.host_id@,
        second.tool_execution_id@ == lease.tool_execution_id@,
    ensures
        create_fault(second, fence, held, leases.push(lease)) is Some,
{
    assert(same_resource(leases.push(lease)[leases.len() as int], second));
}

/// A value, where there is a new one, or the one that was there.
pub open spec fn or_before(value: Option<String>, before: Option<String>) -> Option<String> {
    if value is Some {
        value
    } else {
        before
    }
}

fn replaced(value: &Option<String>, before: Option<String>) -> (result: Option<String>)
    ensures
        result == or_before(*value, before),
{
    match value {
        Some(text) => Some(text.clone()),
        None => before,
    }
}

/// A lease after its holder reported on it.
pub open spec fn advanced(
    lease: StoredBackendLease,
    state: String,
    heartbeat_at_unix_ms: i64,
    artifact_id: Option<String>,
    artifact_digest: Option<String>,
) -> StoredBackendLease {
    StoredBackendLease {
        state,
        heartbeat_at_unix_ms,
        artifact_id: or_before(artifact_id, lease.artifact_id),
        artifact_digest: or_before(artifact_digest, lease.artifact_digest),
        ..lease
    }
}

/// Moves a lease forward, and records its artifact once it exists. A lease that
/// was closed is left as it is, and the answer says so.
pub fn advance_backend_lease(
    lease: StoredBackendLease,
    state: &String,
    heartbeat_at_unix_ms: i64,
    artifact_id: &Option<String>,
    artifact_digest: &Option<String>,
    fence: &HostFence,
    held: Option<i64>,
) -> (result: Result<(StoredBackendLease, bool), StoreError>)
    ensures
        answers(result, first(lease_state_fault(state@), fence_fault(held, *fence))),
        result is Ok ==> result->Ok_0.1 == (lease.released_at_unix_ms is None),
        result is Ok && !result->Ok_0.1 ==> result->Ok_0.0 == lease,
        result is Ok && result->Ok_0.1 ==> result->Ok_0.0 == advanced(
            lease,
            *state,
            heartbeat_at_unix_ms,
            *artifact_id,
            *artifact_digest,
        ),
{
    check_lease_state(state.as_str())?;
    check_fence(held, fence)?;
    if lease.released_at_unix_ms.is_some() {
        return Ok((lease, false));
    }
    let artifact_id: Option<String> = replaced(artifact_id, copy_option(&lease.artifact_id));
    let artifact_digest: Option<String> = replaced(
        artifact_digest,
        copy_option(&lease.artifact_digest),
    );
    let mut after: StoredBackendLease = lease;
    after.state = state.clone();
    after.heartbeat_at_unix_ms = heartbeat_at_unix_ms;
    after.artifact_id = artifact_id;
    after.artifact_digest = artifact_digest;
    Ok((after, true))
}

/// A lease that its holder reported on is in the state that was reported, keeps the artifact
/// that it has where no other is given, and is not released by that. It goes unsettled only
/// once its heartbeat is old enough.
pub proof fn law_reported_lease_is_alive(
    lease: StoredBackendLease,
    state: String,
    heartbeat_at_unix_ms: i64,
    artifact_id: Option<String>,
    artifact_digest: Option<String>,
    older_than_unix_ms: i64,
)
    requires
        lease.released_at_unix_ms is None,
    ensures
        ({
            let after = advanced(
                lease,
                state,
                heartbeat_at_unix_ms,
                artifact_id,
                artifact_digest,
            );
            &&& after.state == state
            &&& after.heartbeat_at_unix_ms == heartbeat_at_unix_ms
            &&& artifact_id is Some ==> after.artifact_id == artifact_id
            &&& artifact_id is None ==> after.artifact_id == lease.artifact_id
            &&& artifact_digest is Some ==> after.artifact_digest == artifact_digest
            &&& artifact_digest is None ==> after.artifact_digest == lease.artifact_digest
            &&& after.released_at_unix_ms is None
            &&& after.recovery_json == lease.recovery_json
            &&& after.lease_id == lease.lease_id
            &&& after.owner_generation == lease.owner_generation
            &&& after.tool_execution_id == lease.tool_execution_id
            &&& is_unsettled(after, older_than_unix_ms) <==> heartbeat_at_unix_ms
                <= older_than_unix_ms
        }),
{
}

/// A lease after it was closed.
pub open spec fn released(
    lease: StoredBackendLease,
    state: String,
    released_at_unix_ms: i64,
    artifact_id: Option<String>,
    artifact_digest: Option<String>,
    recovery_json: Option<String>,
) -> StoredBackendLease {
    StoredBackendLease {
        state,
        released_at_unix_ms: Some(released_at_unix_ms),
        heartbeat_at_unix_ms: released_at_unix_ms,
        artifact_id: or_before(artifact_id, lease.artifact_id),
        artifact_digest: or_before(artifact_digest, lease.artifact_digest),
        recovery_json: or_before(recovery_json, lease.recovery_json),
        ..lease
    }
}

/// Closes a lease. Closing it again changes nothing, and the answer says so.
pub fn release_backend_lease(
    lease: StoredBackendLease,
    state: &String,
    released_at_unix_ms: i64,
    artifact_id: &Option<String>,
    artifact_digest: &Option<String>,
    recovery_json: &Option<String>,
    fence: &HostFence,
    held: Option<i64>,
) -> (result: Result<(StoredBackendLease, bool), StoreError>)
    ensures
        answers(result, first(lease_state_fault(state@), fence_fault(held, *fence))),
        result is Ok ==> result->Ok_0.1 == (lease.released_at_unix_ms is None),
        result is Ok && !result->Ok_0.1 ==> result->Ok_0.0 == lease,
        result is Ok && result->Ok_0.1 ==> result->Ok_0.0 == released(
            lease,
            *state,
            released_at_unix_ms,
            *artifact_id,
            *artifact_digest,
            *recovery_json,
        ),
{
    check_lease_state(state.as_str())?;
    check_fence(held, fence)?;
    if lease.released_at_unix_ms.is_some() {
        return Ok((lease, false));
    }
    let artifact_id: Option<String> = replaced(artifact_id, copy_option(&lease.artifact_id));
    let artifact_digest: Option<String> = replaced(
        artifact_digest,
        copy_option(&lease.artifact_digest),
    );
    let recovery_json: Option<String> = replaced(recovery_json, copy_option(&lease.recovery_json));
    let mut after: StoredBackendLease = lease;
    after.state = state.clone();
    after.released_at_unix_ms = Some(released_at_unix_ms);
    after.heartbeat_at_unix_ms = released_at_unix_ms;
    after.artifact_id = artifact_id;
    after.artifact_digest = artifact_digest;
    after.recovery_json = recovery_json;
    Ok((after, true))
}

/// A lease that is released says when, and keeps the artifact and the recovery that it has
/// where no other is given. A lease is unsettled until it is released, from when its last
/// heartbeat is old enough on.
pub proof fn law_released_lease_keeps_its_evidence(
    lease: StoredBackendLease,
    state: String,
    released_at_unix_ms: i64,
    artifact_id: Option<String>,
    artifact_digest: Option<String>,
    recovery_json: Option<String>,
    older_than_unix_ms: i64,
)
    ensures
        ({
            let after = released(
                lease,
                state,
                released_at_unix_ms,
                artifact_id,
                artifact_digest,
                recovery_json,
            );
            &&& after.state == state
            &&& after.released_at_unix_ms == Some(released_at_unix_ms)
            &&& after.heartbeat_at_unix_ms == released_at_unix_ms
            &&& artifact_id is Some ==> after.artifact_id == artifact_id
            &&& artifact_id is None ==> after.artifact_id == lease.artifact_id
            &&& artifact_digest is Some ==> after.artifact_digest == artifact_digest
            &&& artifact_digest is None ==> after.artifact_digest == lease.artifact_digest
            &&& recovery_json is Some ==> after.recovery_json == recovery_json
            &&& recovery_json is None ==> after.recovery_json == lease.recovery_json
            &&& after.lease_id == lease.lease_id
            &&& after.host_id == lease.host_id
            &&& after.owner_generation == lease.owner_generation
            &&& after.tool_execution_id == lease.tool_execution_id
            &&& after.lock_path == lease.lock_path
            &&& after.pid == lease.pid
            &&& !is_unsettled(after, older_than_unix_ms)
        }),
        lease.released_at_unix_ms is None ==> (is_unsettled(lease, older_than_unix_ms)
            <==> lease.heartbeat_at_unix_ms <= older_than_unix_ms),
{
}

/// An unsettled lease whose owner has written no heartbeat since an instant.
pub open spec fn is_unsettled(lease: StoredBackendLease, older_than_unix_ms: i64) -> bool {
    lease.released_at_unix_ms is None && lease.heartbeat_at_unix_ms <= older_than_unix_ms
}

/// Whether a lease is a candidate for reconciliation.
pub fn lease_is_unsettled(lease: &StoredBackendLease, older_than_unix_ms: i64) -> (unsettled: bool)
    ensures
        unsettled == is_unsettled(*lease, older_than_unix_ms),
{
    lease.released_at_unix_ms.is_none() && lease.heartbeat_at_unix_ms <= older_than_unix_ms
}

/// A closed lease is never reopened: it is no candidate for reconciliation at any
/// instant, and it stays closed under whatever it is closed with again.
pub proof fn law_closed_lease_stays_closed(
    lease: StoredBackendLease,
    state: String,
    released_at_unix_ms: i64,
    artifact_id: Option<String>,
    artifact_digest: Option<String>,
    recovery_json: Option<String>,
    older_than_unix_ms: i64,
)
    ensures
        ({
            let after = released(
                lease,
                state,
                released_at_unix_ms,
                artifact_id,
                artifact_digest,
                recovery_json,
            );
            &&& after.released_at_unix_ms is Some
            &&& !is_unsettled(after, older_than_unix_ms)
            &&& after.lease_id == lease.lease_id
            &&& after.tool_execution_id == lease.tool_execution_id
        }),
{
}

/// Reads a lease back: everything but its owner's generation is as the row holds
/// it.
pub fn lease_from_row(lease: StoredBackendLease, owner_generation: i64) -> (result: Result<
    StoredBackendLease,
    StoreError,
>)
    ensures
        answers(
            result,
            unsigned_fault(
                owner_generation,
                ErrorCode::SnapshotCorrupt,
                "lease owner generation is invalid"@,
            ),
        ),
        result is Ok ==> result->Ok_0 == (StoredBackendLease {
            owner_generation: owner_generation as u64,
            ..lease
        }),
{
    let generation: u64 = to_unsigned(
        owner_generation,
        ErrorCode::SnapshotCorrupt,
        "lease owner generation is invalid",
    )?;
    let mut decoded: StoredBackendLease = lease;
    decoded.owner_generation = generation;
    Ok(decoded)
}

} // verus!

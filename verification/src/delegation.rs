//! Delegated tasks: who owns one, what its worker reported, and the message that
//! brings the report to the parent.

use crate::columns::{i64_fault, narrow_fault, to_i64, to_narrow, to_u64, u64_fault};
use crate::error::{
    answers, fault, first, optional_parsed_fault, parse_optional_id, parsed_fault,
    parsed_list_fault, parsed_option, parsed_value, parsed_values, written_option, ErrorCode,
    Fault, Parsed, StoreError,
};
use crate::journal::{check_fence, fence_fault, HostFence};
use crate::json::{
    is_json, json_is_valid, json_string_list, json_strings, strings_at, strings_under,
};
use crate::text::{cat, has_text, opt_text, same_text, texts};
use vstd::prelude::*;

verus! {

/// One task of the delegation graph.
#[derive(Clone, Debug, PartialEq, Eq)]
pub struct StoredTaskNodeRecord {
    pub task_id: String,
    pub parent_task_id: Option<String>,
    pub role: String,
    pub status: String,
    pub revision: u64,
    pub depth: u32,
    pub depends_on: Vec<String>,
    /// The brief as JSON text.
    pub brief_json: String,
    /// The node as JSON text.
    pub node_json: String,
}

/// The run that owns a task.
#[derive(Clone, Debug, PartialEq, Eq)]
pub struct TaskOwnerRecord {
    pub task_id: String,
    pub owner_run_id: String,
    pub owner_session_id: String,
    pub role: String,
    pub generation: u64,
    pub lease_revision: u64,
}

/// Everything that admitting one task needs.
#[derive(Clone, Debug)]
pub struct TaskAdmission {
    pub task: StoredTaskNodeRecord,
    pub owner: Option<TaskOwnerRecord>,
}

/// What a worker reported.
#[derive(Clone, Debug, PartialEq, Eq)]
pub struct StoredDelegatedResultRecord {
    pub result_id: String,
    pub task_id: String,
    pub worker_run_id: String,
    pub outcome: String,
    pub base_revision: String,
    pub result_revision: String,
    pub artifact_refs: Vec<String>,
    /// The report as JSON text.
    pub report_json: String,
    pub result_hash: String,
}

/// A message to the parent of a task.
#[derive(Clone, Debug, PartialEq, Eq)]
pub struct ParentDeliveryRecord {
    pub message_id: String,
    pub sender_task_id: String,
    pub recipient_task_id: String,
    pub recipient_session_id: String,
    pub result_id: Option<String>,
    pub payload_hash: String,
    /// The payload as JSON text.
    pub payload: String,
    pub state: String,
    pub consumed_by: Option<String>,
}

/// What a task has used.
#[derive(Clone, Copy, Debug, PartialEq, Eq)]
pub struct BudgetUsageRecord {
    pub model_requests: u32,
    pub retries: u32,
    pub cost_units: u64,
}

/// A task transition, a report and a message, which are written together.
#[derive(Clone, Debug)]
pub struct DeliveryCommit {
    pub task_transition: StoredTaskNodeRecord,
    pub result: Option<StoredDelegatedResultRecord>,
    pub delivery: ParentDeliveryRecord,
    pub usage: Option<BudgetUsageRecord>,
}

/// The memory that a worker is given.
#[derive(Clone, Debug, PartialEq, Eq)]
pub struct MemoryBindingRow {
    pub binding_id: String,
    pub task_id: String,
    pub profile_id: String,
    pub memory_asset_id: String,
    pub version: u64,
    pub injection_mode: String,
    pub priority: i64,
    pub actions: Vec<String>,
    pub revision: u64,
}

/// The workspace of a worker.
#[derive(Clone, Debug, PartialEq, Eq)]
pub struct WorktreeRecordRow {
    pub worktree_id: String,
    pub task_id: String,
    pub run_id: String,
    pub project_id: String,
    pub base_commit: String,
    pub base_branch: String,
    pub branch: String,
    pub path: String,
    pub write_scope: Vec<String>,
    pub state: String,
    pub input_fingerprint: String,
    pub result_fingerprint: Option<String>,
    pub generation: u64,
}

// ---------------------------------------------------------------------------
// Admission

/// Why an owner cannot be stored.
pub open spec fn owner_fault(owner: Option<TaskOwnerRecord>) -> Option<Fault> {
    match owner {
        None => None,
        Some(record) => first(
            i64_fault(record.generation, "ownership generation"@),
            first(
                i64_fault(record.lease_revision, "lease revision"@),
                if record.generation == 0 || record.lease_revision == 0 {
                    fault(
                        ErrorCode::StorageWriteFailed,
                        "insert owner: generations and revisions start at one"@,
                    )
                } else {
                    None
                },
            ),
        ),
    }
}

fn check_owner_record(record: &TaskOwnerRecord) -> (result: Result<(), StoreError>)
    ensures
        answers(result, owner_fault(Some(*record))),
{
    let generation: i64 = to_i64(record.generation, "ownership generation")?;
    let revision: i64 = to_i64(record.lease_revision, "lease revision")?;
    if generation == 0 || revision == 0 {
        return Err(
            StoreError::new(
                ErrorCode::StorageWriteFailed,
                "insert owner: generations and revisions start at one",
            ),
        );
    }
    Ok(())
}

fn check_owner(owner: &Option<TaskOwnerRecord>) -> (result: Result<(), StoreError>)
    ensures
        answers(result, owner_fault(*owner)),
{
    match owner {
        None => Ok(()),
        Some(record) => check_owner_record(record),
    }
}

/// The states that a task can be stored in.
pub open spec fn is_task_status(status: Seq<char>) -> bool {
    ||| status == "pending"@
    ||| status == "ready"@
    ||| status == "running"@
    ||| status == "blocked"@
    ||| status == "completed"@
    ||| status == "failed"@
    ||| status == "canceled"@
}

fn task_status(status: &str) -> (result: bool)
    ensures
        result == is_task_status(status@),
{
    same_text(status, "pending") || same_text(status, "ready") || same_text(status, "running")
        || same_text(status, "blocked") || same_text(status, "completed") || same_text(
        status,
        "failed",
    ) || same_text(status, "canceled")
}

/// A task's row can hold a task: its state is one of a task's, and its revision is
/// not before the first one.
pub open spec fn is_storable(task: StoredTaskNodeRecord) -> bool {
    is_task_status(task.status@) && task.revision >= 1
}

/// Why a task is not admitted. `admitted` are the tasks that are there already. A task
/// that its row cannot hold is passed over like one that is there, and so refused in
/// the same words.
pub open spec fn admit_fault(admission: TaskAdmission, admitted: Seq<Seq<char>>) -> Option<Fault> {
    first(
        i64_fault(admission.task.revision, "task revision"@),
        if admitted.contains(admission.task.task_id@) || !is_storable(admission.task) {
            fault(ErrorCode::DuplicateTaskId, "task id is already admitted"@)
        } else {
            owner_fault(admission.owner)
        },
    )
}

fn insert_task(admission: &TaskAdmission, admitted: &Vec<String>) -> (result: Result<
    (),
    StoreError,
>)
    ensures
        answers(result, admit_fault(*admission, texts(admitted@))),
{
    let revision: i64 = to_i64(admission.task.revision, "task revision")?;
    if has_text(admitted, admission.task.task_id.as_str()) || revision == 0 || !task_status(
        admission.task.status.as_str(),
    ) {
        return Err(StoreError::new(ErrorCode::DuplicateTaskId, "task id is already admitted"));
    }
    check_owner(&admission.owner)
}

/// Admits one task. A task that is there already is refused, not merged.
pub fn admit_task(
    admission: &TaskAdmission,
    admitted: &Vec<String>,
    fence: &HostFence,
    held: Option<i64>,
) -> (result: Result<(), StoreError>)
    ensures
        answers(
            result,
            first(fence_fault(held, *fence), admit_fault(*admission, texts(admitted@))),
        ),
{
    check_fence(held, fence)?;
    insert_task(admission, admitted)
}

/// A task is admitted if and only if its id is new, it is at a revision from one on and in one
/// of the seven states of a task, and its owner, where it has one, is at a generation and a
/// lease revision from one on.
pub proof fn law_new_task_is_admitted(admission: TaskAdmission, admitted: Seq<Seq<char>>)
    ensures
        admit_fault(admission, admitted) is None <==> {
            let task = admission.task;
            &&& 1 <= task.revision <= i64::MAX
            &&& task.status@ == "pending"@ || task.status@ == "ready"@ || task.status@ == "running"@
                || task.status@ == "blocked"@ || task.status@ == "completed"@ || task.status@
                == "failed"@ || task.status@ == "canceled"@
            &&& admission.owner is None || {
                &&& 1 <= admission.owner->Some_0.generation <= i64::MAX
                &&& 1 <= admission.owner->Some_0.lease_revision <= i64::MAX
            }
            &&& !admitted.contains(task.task_id@)
        },
        admitted.contains(admission.task.task_id@) && admission.task.revision <= i64::MAX ==> {
            &&& admit_fault(admission, admitted) is Some
            &&& admit_fault(admission, admitted)->Some_0.code == ErrorCode::DuplicateTaskId
        },
{
}

/// The identities of some tasks.
pub open spec fn task_ids(admissions: Seq<TaskAdmission>) -> Seq<Seq<char>> {
    admissions.map_values(|admission: TaskAdmission| admission.task.task_id@)
}

/// Why the first tasks of a graph are not admitted, each one behind the ones
/// before it.
pub open spec fn graph_fault(admissions: Seq<TaskAdmission>, admitted: Seq<Seq<char>>) -> Option<
    Fault,
>
    decreases admissions.len(),
{
    if admissions.len() == 0 {
        None
    } else {
        first(
            graph_fault(admissions.drop_last(), admitted),
            admit_fault(admissions.last(), admitted + task_ids(admissions.drop_last())),
        )
    }
}

proof fn lemma_graph_fault_stands(
    admissions: Seq<TaskAdmission>,
    admitted: Seq<Seq<char>>,
    count: int,
)
    requires
        0 <= count <= admissions.len(),
        graph_fault(admissions.take(count), admitted) is Some,
    ensures
        graph_fault(admissions, admitted) == graph_fault(admissions.take(count), admitted),
    decreases admissions.len() - count,
{
    if count == admissions.len() {
        assert(admissions.take(count) =~= admissions);
    } else {
        assert(admissions.take(count + 1).drop_last() =~= admissions.take(count));
        lemma_graph_fault_stands(admissions, admitted, count + 1);
    }
}

/// Why a graph of tasks is not admitted.
pub open spec fn graph_admission_fault(
    admissions: Seq<TaskAdmission>,
    admitted: Seq<Seq<char>>,
    fence: HostFence,
    held: Option<i64>,
) -> Option<Fault> {
    if admissions.len() == 0 {
        fault(
            ErrorCode::InvalidPayload,
            "a task graph admission requires at least one task"@,
        )
    } else {
        first(fence_fault(held, fence), graph_fault(admissions, admitted))
    }
}

/// Admits a whole graph: every task of it, or none.
pub fn admit_task_graph(
    admissions: &Vec<TaskAdmission>,
    admitted: &Vec<String>,
    fence: &HostFence,
    held: Option<i64>,
) -> (result: Result<(), StoreError>)
    ensures
        answers(result, graph_admission_fault(admissions@, texts(admitted@), *fence, held)),
{
    if admissions.len() == 0 {
        return Err(
            StoreError::new(
                ErrorCode::InvalidPayload,
                "a task graph admission requires at least one task",
            ),
        );
    }
    check_fence(held, fence)?;
    let mut known: Vec<String> = Vec::new();
    let mut k: usize = 0;
    while k < admitted.len()
        invariant
            k <= admitted.len(),
            known@ == admitted@.take(k as int),
        decreases admitted.len() - k,
    {
        known.push(admitted[k].clone());
        assert(known@ =~= admitted@.take(k + 1));
        k += 1;
    }
    assert(known@ =~= admitted@);
    let mut i: usize = 0;
    proof {
        assert(admissions@.take(0) =~= seq![]);
        assert(texts(known@) =~= texts(admitted@) + task_ids(admissions@.take(0)));
    }
    while i < admissions.len()
        invariant
            i <= admissions.len(),
            admissions@.len() > 0,
            fence_fault(held, *fence) is None,
            graph_fault(admissions@.take(i as int), texts(admitted@)) is None,
            texts(known@) == texts(admitted@) + task_ids(admissions@.take(i as int)),
        decreases admissions.len() - i,
    {
        let ghost head = admissions@.take(i + 1);
        let ghost before = known@;
        proof {
            assert(head.drop_last() =~= admissions@.take(i as int));
            assert(head.last() == admissions@[i as int]);
        }
        match insert_task(&admissions[i], &known) {
            Ok(_) => {},
            Err(error) => {
                proof {
                    lemma_graph_fault_stands(admissions@, texts(admitted@), i + 1);
                }
                return Err(error);
            },
        }
        known.push(admissions[i].task.task_id.clone());
        proof {
            assert(texts(known@) =~= texts(before).push(admissions@[i as int].task.task_id@));
            assert(task_ids(head) =~= task_ids(admissions@.take(i as int)).push(
                admissions@[i as int].task.task_id@,
            ));
            assert(texts(known@) =~= texts(admitted@) + task_ids(head));
        }
        i += 1;
    }
    assert(admissions@.take(i as int) =~= admissions@);
    Ok(())
}

/// Tasks are admitted one by one where each of them is admitted after those before it.
proof fn lemma_graph_is_admitted_in_order(
    admissions: Seq<TaskAdmission>,
    admitted: Seq<Seq<char>>,
)
    ensures
        graph_fault(admissions, admitted) is None <==> forall|i: int|
            0 <= i < admissions.len() ==> admit_fault(
                #[trigger] admissions[i],
                admitted + task_ids(admissions.take(i)),
            ) is None,
    decreases admissions.len(),
{
    if admissions.len() > 0 {
        let head = admissions.drop_last();
        let end = admissions.len() - 1;
        lemma_graph_is_admitted_in_order(head, admitted);
        assert(admissions.take(end) =~= head);
        assert forall|i: int| 0 <= i < head.len() implies head[i] == #[trigger] admissions[i]
            && head.take(i) == admissions.take(i) by {
            assert(head.take(i) =~= admissions.take(i));
        }
        if graph_fault(admissions, admitted) is None {
            assert forall|i: int| 0 <= i < admissions.len() implies admit_fault(
                #[trigger] admissions[i],
                admitted + task_ids(admissions.take(i)),
            ) is None by {
                if i < end {
                    assert(head[i] == admissions[i]);
                }
            }
        }
        if forall|i: int|
            0 <= i < admissions.len() ==> admit_fault(
                #[trigger] admissions[i],
                admitted + task_ids(admissions.take(i)),
            ) is None {
            assert forall|i: int| 0 <= i < head.len() implies admit_fault(
                #[trigger] head[i],
                admitted + task_ids(head.take(i)),
            ) is None by {
                assert(head[i] == admissions[i]);
            }
            assert(admit_fault(admissions[end], admitted + task_ids(admissions.take(end))) is None);
        }
    }
}

/// A graph of at least one task is admitted as a whole if and only if each of its tasks could
/// be admitted and no two of them share an id. Whoever may not write admits none.
pub proof fn law_graph_of_new_tasks_is_admitted(
    admissions: Seq<TaskAdmission>,
    admitted: Seq<Seq<char>>,
    fence: HostFence,
    held: Option<i64>,
)
    ensures
        graph_admission_fault(admissions, admitted, fence, held) is None <==> {
            &&& admissions.len() > 0
            &&& held is Some
            &&& held->Some_0 == fence.generation as int
            &&& forall|i: int|
                0 <= i < admissions.len() ==> admit_fault(
                    #[trigger] admissions[i],
                    admitted,
                ) is None
            &&& forall|i: int, j: int|
                0 <= i < j < admissions.len() ==> (#[trigger] admissions[i]).task.task_id@ != (
                #[trigger] admissions[j]).task.task_id@
        },
{
    lemma_graph_is_admitted_in_order(admissions, admitted);
    assert forall|i: int| 0 <= i < admissions.len() implies (admit_fault(
        #[trigger] admissions[i],
        admitted + task_ids(admissions.take(i)),
    ) is None <==> {
        &&& admit_fault(admissions[i], admitted) is None
        &&& forall|k: int|
            0 <= k < i ==> (#[trigger] admissions[k]).task.task_id@ != admissions[i].task.task_id@
    }) by {
        let before = task_ids(admissions.take(i));
        let id = admissions[i].task.task_id@;
        let all = admitted + before;
        if admitted.contains(id) {
            let k = choose|k: int| 0 <= k < admitted.len() && admitted[k] == id;
            assert(all[k] == id);
        }
        if all.contains(id) {
            let k = choose|k: int| 0 <= k < all.len() && all[k] == id;
            if k < admitted.len() {
                assert(admitted[k] == id);
            } else {
                assert(admissions[k - admitted.len()].task.task_id@ == id);
            }
        }
        if exists|k: int| 0 <= k < i && (#[trigger] admissions[k]).task.task_id@ == id {
            let k = choose|k: int| 0 <= k < i && (#[trigger] admissions[k]).task.task_id@ == id;
            assert(before[k] == id);
            assert(all[admitted.len() + k] == id);
        }
    }
}

/// A graph in which a task occurs twice, or that holds a task which is there
/// already, is not admitted.
pub proof fn law_admitted_graph_has_no_duplicates(
    admissions: Seq<TaskAdmission>,
    admitted: Seq<Seq<char>>,
)
    requires
        graph_fault(admissions, admitted) is None,
    ensures
        task_ids(admissions).no_duplicates(),
        forall|i: int|
            0 <= i < admissions.len() ==> !admitted.contains(
                #[trigger] admissions[i].task.task_id@,
            ),
    decreases admissions.len(),
{
    if admissions.len() > 0 {
        let front = admissions.drop_last();
        law_admitted_graph_has_no_duplicates(front, admitted);
        let last = admissions.last().task.task_id@;
        let known = admitted + task_ids(front);
        assert(!known.contains(last));
        assert forall|i: int| 0 <= i < admissions.len() implies !admitted.contains(
            #[trigger] admissions[i].task.task_id@,
        ) by {
            if i < front.len() {
                assert(front[i] == admissions[i]);
            } else if admitted.contains(last) {
                let k = choose|k: int| 0 <= k < admitted.len() && admitted[k] == last;
                assert(known[k] == last);
            }
        }
        let ids = task_ids(admissions);
        assert forall|i: int, j: int| 0 <= i < ids.len() && 0 <= j < ids.len() && i != j implies ids[i]
            != ids[j] by {
            assert(forall|k: int|
                0 <= k < front.len() ==> task_ids(front)[k] == #[trigger] ids[k]);
            if i < front.len() && j < front.len() {
                assert(task_ids(front)[i] != task_ids(front)[j]);
            } else if i < front.len() {
                assert(known[admitted.len() + i] == ids[i]);
            } else {
                assert(known[admitted.len() + j] == ids[j]);
            }
        }
    }
}

// ---------------------------------------------------------------------------
// Ownership

/// The owner of a task, as far as a claim looks at it.
#[derive(Clone, Debug)]
pub struct OwnerRow {
    pub owner_run_id: String,
    pub generation: i64,
}

/// A task, as far as a claim looks at it.
#[derive(Clone, Debug)]
pub struct TaskStatusRow {
    pub status: String,
    pub revision: i64,
}

/// What a run of an earlier generation is told.
pub open spec fn newer_owner_message() -> Seq<char> {
    "a newer run generation already owns this"@ + " task"@
}

/// What another run of the same generation is told.
pub open spec fn rival_owner_message() -> Seq<char> {
    "another run holds this"@ + " task at the same generation"@
}

/// Why the owner of a task is in the way of a claim.
pub open spec fn ownership_fault(existing: Option<OwnerRow>, owner: TaskOwnerRecord) -> Option<Fault> {
    match existing {
        None => None,
        Some(row) => first(
            u64_fault(row.generation, "generation"@),
            if row.generation > owner.generation {
                fault(
                    ErrorCode::TaskOwnershipConflict,
                    newer_owner_message(),
                )
            } else if row.generation == owner.generation && row.owner_run_id@
                != owner.owner_run_id@ {
                fault(
                    ErrorCode::TaskOwnershipConflict,
                    rival_owner_message(),
                )
            } else {
                None
            },
        ),
    }
}

/// Why a task cannot be claimed.
pub open spec fn claim_fault(
    owner: TaskOwnerRecord,
    expected_revision: u64,
    fence: HostFence,
    held: Option<i64>,
    existing: Option<OwnerRow>,
    task: Option<TaskStatusRow>,
) -> Option<Fault> {
    first(
        fence_fault(held, fence),
        first(
            ownership_fault(existing, owner),
            match task {
                None => fault(ErrorCode::TaskNotFound, "task is not admitted"@),
                Some(row) => first(
                    u64_fault(row.revision, "task revision"@),
                    if row.status@ == "completed"@ {
                        fault(
                            ErrorCode::TaskOwnershipConflict,
                            "a completed task is never reassigned"@,
                        )
                    } else if row.revision != expected_revision {
                        fault(
                            ErrorCode::SequenceConflict,
                            "task revision changed before the claim committed"@,
                        )
                    } else {
                        first(
                            owner_fault(Some(owner)),
                            i64_fault((row.revision + 1) as u64, "task revision"@),
                        )
                    },
                ),
            },
        ),
    )
}

/// A task after a run has taken it on.
#[derive(Clone, Debug, PartialEq, Eq)]
pub struct ClaimedTask {
    pub revision: u64,
    pub status: String,
}

/// The state of a task once it is claimed: a pending one is ready.
pub open spec fn status_when_claimed(status: Seq<char>) -> Seq<char> {
    if status == "pending"@ {
        "ready"@
    } else {
        status
    }
}

/// Claims a task for one run. A task that was waiting is ready afterwards.
pub fn claim_task(
    owner: &TaskOwnerRecord,
    expected_revision: u64,
    fence: &HostFence,
    held: Option<i64>,
    existing: &Option<OwnerRow>,
    task: &Option<TaskStatusRow>,
) -> (result: Result<ClaimedTask, StoreError>)
    ensures
        answers(result, claim_fault(*owner, expected_revision, *fence, held, *existing, *task)),
        result is Ok ==> result->Ok_0.revision == expected_revision + 1,
        result is Ok ==> result->Ok_0.status@ == status_when_claimed(task->Some_0.status@),
{
    check_fence(held, fence)?;
    match existing {
        None => {},
        Some(row) => {
            let generation: u64 = to_u64(row.generation, "generation")?;
            if generation > owner.generation {
                let message: String = cat("a newer run generation already owns this", " task");
                return Err(StoreError::new(ErrorCode::TaskOwnershipConflict, message.as_str()));
            }
            if generation == owner.generation && !same_text(
                row.owner_run_id.as_str(),
                owner.owner_run_id.as_str(),
            ) {
                let message: String = cat("another run holds this", " task at the same generation");
                return Err(StoreError::new(ErrorCode::TaskOwnershipConflict, message.as_str()));
            }
        },
    }
    let row: &TaskStatusRow = match task {
        Some(row) => row,
        None => {
            return Err(StoreError::new(ErrorCode::TaskNotFound, "task is not admitted"));
        },
    };
    let revision: u64 = to_u64(row.revision, "task revision")?;
    if same_text(row.status.as_str(), "completed") {
        return Err(
            StoreError::new(
                ErrorCode::TaskOwnershipConflict,
                "a completed task is never reassigned",
            ),
        );
    }
    if revision != expected_revision {
        return Err(
            StoreError::new(
                ErrorCode::SequenceConflict,
                "task revision changed before the claim committed",
            ),
        );
    }
    check_owner_record(owner)?;
    let next: u64 = revision + 1;
    let stored: i64 = to_i64(next, "task revision")?;
    let status: String = if same_text(row.status.as_str(), "pending") {
        "ready".to_owned()
    } else {
        row.status.clone()
    };
    Ok(ClaimedTask { revision: next, status })
}

/// A pending task is ready once it is claimed, and any other is in the state that it was in.
pub proof fn law_claimed_task_is_ready(status: Seq<char>)
    ensures
        status_when_claimed("pending"@) == "ready"@,
        status != "pending"@ ==> status_when_claimed(status) == status,
{
}

/// A task has one owner: once a run has claimed it, no run of an earlier
/// generation and no other run of the same one can, and its own run still can.
pub proof fn law_task_has_one_owner(
    owner: TaskOwnerRecord,
    other: TaskOwnerRecord,
    stored: OwnerRow,
)
    requires
        owner.generation <= i64::MAX,
        stored.generation == owner.generation,
        stored.owner_run_id@ == owner.owner_run_id@,
    ensures
        ownership_fault(Some(stored), owner) is None,
        other.generation < owner.generation ==> ownership_fault(Some(stored), other) == fault(
            ErrorCode::TaskOwnershipConflict,
            newer_owner_message(),
        ),
        other.generation == owner.generation && other.owner_run_id@ != owner.owner_run_id@
            ==> ownership_fault(Some(stored), other) == fault(
            ErrorCode::TaskOwnershipConflict,
            rival_owner_message(),
        ),
{
}

/// Why a run cannot mark its task as running.
pub open spec fn running_fault(
    owner_run_id: Seq<char>,
    generation: u64,
    fence: HostFence,
    held: Option<i64>,
    owner: Option<OwnerRow>,
    revision: Option<i64>,
) -> Option<Fault> {
    first(
        fence_fault(held, fence),
        match owner {
            None => fault(ErrorCode::TaskOwnershipConflict, "task has no owner"@),
            Some(row) => first(
                u64_fault(row.generation, "generation"@),
                if row.owner_run_id@ != owner_run_id || row.generation != generation {
                    fault(ErrorCode::TaskOwnershipConflict, "task owner generation is stale"@)
                } else {
                    match revision {
                        None => fault(ErrorCode::TaskNotFound, "task is not admitted"@),
                        Some(current) => first(
                            u64_fault(current, "task revision"@),
                            i64_fault((current + 1) as u64, "task revision"@),
                        ),
                    }
                },
            ),
        },
    )
}

/// Marks a task as running for the run that owns it.
pub fn mark_task_running(
    owner_run_id: &str,
    generation: u64,
    fence: &HostFence,
    held: Option<i64>,
    owner: &Option<OwnerRow>,
    revision: Option<i64>,
) -> (result: Result<ClaimedTask, StoreError>)
    ensures
        answers(result, running_fault(owner_run_id@, generation, *fence, held, *owner, revision)),
        result is Ok ==> result->Ok_0.revision == revision->Some_0 + 1,
        result is Ok ==> result->Ok_0.status@ == "running"@,
{
    check_fence(held, fence)?;
    let row: &OwnerRow = match owner {
        Some(row) => row,
        None => {
            return Err(StoreError::new(ErrorCode::TaskOwnershipConflict, "task has no owner"));
        },
    };
    let current: u64 = to_u64(row.generation, "generation")?;
    if !same_text(row.owner_run_id.as_str(), owner_run_id) || current != generation {
        return Err(
            StoreError::new(ErrorCode::TaskOwnershipConflict, "task owner generation is stale"),
        );
    }
    match revision {
        None => Err(StoreError::new(ErrorCode::TaskNotFound, "task is not admitted")),
        Some(value) => {
            let next: u64 = to_u64(value, "task revision")? + 1;
            let stored: i64 = to_i64(next, "task revision")?;
            Ok(ClaimedTask { revision: next, status: "running".to_owned() })
        },
    }
}

/// A task is claimed if and only if it is admitted at the revision that was read, is not
/// completed, and has no owner of a later generation, nor another run of the same. A run of a
/// later generation takes it over, and a run that owns it claims it again.
pub proof fn law_free_task_is_claimed(
    owner: TaskOwnerRecord,
    expected_revision: u64,
    fence: HostFence,
    held: Option<i64>,
    existing: Option<OwnerRow>,
    task: TaskStatusRow,
)
    ensures
        claim_fault(owner, expected_revision, fence, held, existing, Some(task)) is None <==> {
            &&& held is Some
            &&& held->Some_0 == fence.generation as int
            &&& existing is None || {
                &&& 0 <= existing->Some_0.generation
                &&& existing->Some_0.generation < owner.generation || (
                existing->Some_0.generation == owner.generation
                    && existing->Some_0.owner_run_id@ == owner.owner_run_id@)
            }
            &&& task.status@ != "completed"@
            &&& task.revision == expected_revision as int
            &&& task.revision < i64::MAX
            &&& 1 <= owner.generation <= i64::MAX
            &&& 1 <= owner.lease_revision <= i64::MAX
        },
        claim_fault(owner, expected_revision, fence, held, existing, None) is Some,
        held is Some && held->Some_0 == fence.generation as int && existing is Some && 0
            <= existing->Some_0.generation && (existing->Some_0.generation > owner.generation || (
        existing->Some_0.generation == owner.generation && existing->Some_0.owner_run_id@
            != owner.owner_run_id@)) ==> claim_fault(
            owner,
            expected_revision,
            fence,
            held,
            existing,
            Some(task),
        )->Some_0.code == ErrorCode::TaskOwnershipConflict,
{
}

/// A task is marked as running by its owner, under the owner's generation, and by nobody else.
pub proof fn law_owner_marks_its_task_running(
    owner_run_id: Seq<char>,
    generation: u64,
    fence: HostFence,
    held: Option<i64>,
    owner: Option<OwnerRow>,
    revision: Option<i64>,
)
    ensures
        running_fault(owner_run_id, generation, fence, held, owner, revision) is None <==> {
            &&& held is Some
            &&& held->Some_0 == fence.generation as int
            &&& owner is Some
            &&& owner->Some_0.owner_run_id@ == owner_run_id
            &&& owner->Some_0.generation == generation as int
            &&& revision is Some
            &&& 0 <= revision->Some_0 < i64::MAX
        },
{
}

// ---------------------------------------------------------------------------
// Results and deliveries

/// Why a report is not stored. `existing` is the digest that its identity already
/// stands for.
pub open spec fn result_fault(
    result: StoredDelegatedResultRecord,
    existing: Option<String>,
) -> Option<Fault> {
    match existing {
        None => None,
        Some(hash) => if hash@ != result.result_hash@ {
            fault(
                ErrorCode::DeliveryConflict,
                "the same result id cannot carry different content"@,
            )
        } else {
            None
        },
    }
}

/// Whether a report is written. The same report again is not.
pub fn insert_result(record: &StoredDelegatedResultRecord, existing: &Option<String>) -> (result:
    Result<bool, StoreError>)
    ensures
        answers(result, result_fault(*record, *existing)),
        result is Ok ==> result->Ok_0 == (existing is None),
{
    match existing {
        None => Ok(true),
        Some(hash) => if same_text(hash.as_str(), record.result_hash.as_str()) {
            Ok(false)
        } else {
            Err(
                StoreError::new(
                    ErrorCode::DeliveryConflict,
                    "the same result id cannot carry different content",
                ),
            )
        },
    }
}

/// Why a message is not stored. `existing` is the digest that its identity
/// already stands for.
pub open spec fn delivery_fault(
    delivery: ParentDeliveryRecord,
    existing: Option<String>,
) -> Option<Fault> {
    if delivery.state@ == "consumed"@ {
        fault(ErrorCode::DeliveryConflict, "a new delivery cannot be inserted already consumed"@)
    } else {
        match existing {
            None => None,
            Some(hash) => if hash@ != delivery.payload_hash@ {
                fault(
                    ErrorCode::DeliveryConflict,
                    "the same message id cannot carry different payloads"@,
                )
            } else {
                None
            },
        }
    }
}

/// Whether a message is written. The same message again is not.
pub fn insert_delivery(delivery: &ParentDeliveryRecord, existing: &Option<String>) -> (result:
    Result<bool, StoreError>)
    ensures
        answers(result, delivery_fault(*delivery, *existing)),
        result is Ok ==> result->Ok_0 == (existing is None),
{
    if same_text(delivery.state.as_str(), "consumed") {
        return Err(
            StoreError::new(
                ErrorCode::DeliveryConflict,
                "a new delivery cannot be inserted already consumed",
            ),
        );
    }
    match existing {
        None => Ok(true),
        Some(hash) => if same_text(hash.as_str(), delivery.payload_hash.as_str()) {
            Ok(false)
        } else {
            Err(
                StoreError::new(
                    ErrorCode::DeliveryConflict,
                    "the same message id cannot carry different payloads",
                ),
            )
        },
    }
}

/// Why a transition and its message are not written. `status` is where the task
/// stands, `stored_result` and `stored_payload` are the digests that the report's
/// and the message's identities already stand for.
pub open spec fn commit_delivery_fault(
    commit: DeliveryCommit,
    fence: HostFence,
    held: Option<i64>,
    status: Option<String>,
    stored_result: Option<String>,
    stored_payload: Option<String>,
) -> Option<Fault> {
    first(
        fence_fault(held, fence),
        match status {
            None => fault(ErrorCode::TaskNotFound, "task is not admitted"@),
            Some(current) => if current@ == "completed"@ && commit.task_transition.status@
                != "completed"@ {
                fault(
                    ErrorCode::InvalidStateTransition,
                    "a completed task cannot leave the completed state"@,
                )
            } else {
                first(
                    match commit.result {
                        None => None,
                        Some(result) => result_fault(result, stored_result),
                    },
                    first(
                        i64_fault(commit.task_transition.revision, "task revision"@),
                        first(
                            if is_storable(commit.task_transition) {
                                None
                            } else {
                                fault(
                                    ErrorCode::StorageWriteFailed,
                                    "update task: no task has this state or revision"@,
                                )
                            },
                            first(
                                delivery_fault(commit.delivery, stored_payload),
                                match commit.usage {
                                    None => None,
                                    Some(usage) => i64_fault(usage.cost_units, "cost units"@),
                                },
                            ),
                        ),
                    ),
                )
            },
        },
    )
}

/// What a delivery writes besides the task's transition and its usage.
#[derive(Clone, Copy, Debug, PartialEq, Eq)]
pub struct DeliveryWrite {
    pub insert_result: bool,
    pub insert_delivery: bool,
}

/// Writes a task's transition, its worker's report and the message to the parent:
/// all of them, or none.
pub fn commit_delivery(
    commit: &DeliveryCommit,
    fence: &HostFence,
    held: Option<i64>,
    status: &Option<String>,
    stored_result: &Option<String>,
    stored_payload: &Option<String>,
) -> (result: Result<DeliveryWrite, StoreError>)
    ensures
        answers(
            result,
            commit_delivery_fault(*commit, *fence, held, *status, *stored_result, *stored_payload),
        ),
        result is Ok ==> result->Ok_0 == (DeliveryWrite {
            insert_result: commit.result is Some && stored_result is None,
            insert_delivery: stored_payload is None,
        }),
{
    check_fence(held, fence)?;
    let current: &String = match status {
        Some(current) => current,
        None => {
            return Err(StoreError::new(ErrorCode::TaskNotFound, "task is not admitted"));
        },
    };
    if same_text(current.as_str(), "completed") && !same_text(
        commit.task_transition.status.as_str(),
        "completed",
    ) {
        return Err(
            StoreError::new(
                ErrorCode::InvalidStateTransition,
                "a completed task cannot leave the completed state",
            ),
        );
    }
    let write_result: bool = match &commit.result {
        None => false,
        Some(record) => insert_result(record, stored_result)?,
    };
    let revision: i64 = to_i64(commit.task_transition.revision, "task revision")?;
    if revision == 0 || !task_status(commit.task_transition.status.as_str()) {
        return Err(
            StoreError::new(
                ErrorCode::StorageWriteFailed,
                "update task: no task has this state or revision",
            ),
        );
    }
    let write_delivery: bool = insert_delivery(&commit.delivery, stored_payload)?;
    match &commit.usage {
        None => {},
        Some(usage) => {
            let units: i64 = to_i64(usage.cost_units, "cost units")?;
        },
    }
    Ok(DeliveryWrite { insert_result: write_result, insert_delivery: write_delivery })
}

/// A delivery is committed if and only if its task is admitted and would not leave the
/// completed state, the task's next state and revision can be stored, the message is not
/// consumed yet, and what is stored under the same id is the same. A report or a message that
/// is new is written.
pub proof fn law_delivery_is_committed(
    commit: DeliveryCommit,
    fence: HostFence,
    held: Option<i64>,
    status: Option<String>,
    stored_result: Option<String>,
    stored_payload: Option<String>,
)
    ensures
        commit_delivery_fault(commit, fence, held, status, stored_result, stored_payload) is None
            <==> {
            let task = commit.task_transition;
            &&& held is Some
            &&& held->Some_0 == fence.generation as int
            &&& status is Some
            &&& status->Some_0@ == "completed"@ ==> task.status@ == "completed"@
            &&& commit.result is Some && stored_result is Some ==> stored_result->Some_0@
                == commit.result->Some_0.result_hash@
            &&& 1 <= task.revision <= i64::MAX
            &&& task.status@ == "pending"@ || task.status@ == "ready"@ || task.status@ == "running"@
                || task.status@ == "blocked"@ || task.status@ == "completed"@ || task.status@
                == "failed"@ || task.status@ == "canceled"@
            &&& commit.delivery.state@ != "consumed"@
            &&& stored_payload is Some ==> stored_payload->Some_0@ == commit.delivery.payload_hash@
            &&& commit.usage is None || commit.usage->Some_0.cost_units <= i64::MAX
        },
        delivery_fault(commit.delivery, stored_payload) is None <==> {
            &&& commit.delivery.state@ != "consumed"@
            &&& stored_payload is Some ==> stored_payload->Some_0@ == commit.delivery.payload_hash@
        },
{
}

/// The usage that a task was charged so far, as its row is read.
#[derive(Clone, Copy, Debug, PartialEq, Eq)]
pub struct UsageRow {
    pub model_requests: i64,
    pub retries: i64,
    pub cost_units: i64,
}

/// What a column holds of a usage that was charged so far.
pub open spec fn charged(stored: Option<UsageRow>) -> (int, int, int) {
    match stored {
        None => (0, 0, 0),
        Some(row) => (row.model_requests as int, row.retries as int, row.cost_units as int),
    }
}

/// The totals after a usage was charged.
pub open spec fn totals(stored: Option<UsageRow>, usage: BudgetUsageRecord) -> (int, int, int) {
    (
        charged(stored).0 + usage.model_requests,
        charged(stored).1 + usage.retries,
        charged(stored).2 + usage.cost_units,
    )
}

/// The sum of a column and a number, where the column can hold it.
fn sum(before: i64, more: u64) -> (total: Option<i64>)
    ensures
        total is Some <==> before + more <= i64::MAX,
        total is Some ==> total->Some_0 == before + more,
{
    let total: i128 = before as i128 + more as i128;
    if total <= i64::MAX as i128 {
        Some(total as i64)
    } else {
        None
    }
}

/// Charges a usage on top of what a task was charged so far. There is no row where a
/// total is more than a column can hold.
pub fn charge_usage(stored: Option<UsageRow>, usage: &BudgetUsageRecord) -> (row: Option<UsageRow>)
    ensures
        row is Some <==> {
            &&& totals(stored, *usage).0 <= i64::MAX
            &&& totals(stored, *usage).1 <= i64::MAX
            &&& totals(stored, *usage).2 <= i64::MAX
        },
        row is Some ==> charged(row) == totals(stored, *usage),
{
    let before: UsageRow = match stored {
        Some(row) => row,
        None => UsageRow { model_requests: 0, retries: 0, cost_units: 0 },
    };
    let requests: Option<i64> = sum(before.model_requests, usage.model_requests as u64);
    let retries: Option<i64> = sum(before.retries, usage.retries as u64);
    let units: Option<i64> = sum(before.cost_units, usage.cost_units);
    match (requests, retries, units) {
        (Some(model_requests), Some(retries), Some(cost_units)) => Some(
            UsageRow { model_requests, retries, cost_units },
        ),
        _ => None,
    }
}

/// Usage adds up: after two usages, the totals are what was charged before and both
/// of them.
pub proof fn law_usage_adds_up(
    stored: Option<UsageRow>,
    first_row: UsageRow,
    first_usage: BudgetUsageRecord,
    second_usage: BudgetUsageRecord,
)
    requires
        charged(Some(first_row)) == totals(stored, first_usage),
    ensures
        totals(Some(first_row), second_usage) == (
            charged(stored).0 + first_usage.model_requests + second_usage.model_requests,
            charged(stored).1 + first_usage.retries + second_usage.retries,
            charged(stored).2 + first_usage.cost_units + second_usage.cost_units,
        ),
{
}

/// A report and a message are written once: the same one again succeeds and is not
/// written, and another one under the same id is refused.
pub proof fn law_reports_and_messages_are_written_once(
    report: StoredDelegatedResultRecord,
    other_report: StoredDelegatedResultRecord,
    message: ParentDeliveryRecord,
    other_message: ParentDeliveryRecord,
)
    requires
        other_report.result_hash@ != report.result_hash@,
        other_message.payload_hash@ != message.payload_hash@,
        message.state@ != "consumed"@,
        other_message.state@ != "consumed"@,
    ensures
        result_fault(report, Some(report.result_hash)) is None,
        result_fault(other_report, Some(report.result_hash)) == fault(
            ErrorCode::DeliveryConflict,
            "the same result id cannot carry different content"@,
        ),
        delivery_fault(message, Some(message.payload_hash)) is None,
        delivery_fault(other_message, Some(message.payload_hash)) == fault(
            ErrorCode::DeliveryConflict,
            "the same message id cannot carry different payloads"@,
        ),
{
}

/// A completed task stays completed: no delivery takes it anywhere else.
pub proof fn law_completed_task_stays_completed(
    commit: DeliveryCommit,
    fence: HostFence,
    held: Option<i64>,
    status: String,
    stored_result: Option<String>,
    stored_payload: Option<String>,
)
    requires
        status@ == "completed"@,
        commit_delivery_fault(
            commit,
            fence,
            held,
            Some(status),
            stored_result,
            stored_payload,
        ) is None,
    ensures
        commit.task_transition.status@ == "completed"@,
{
}

/// A message in this state has not been consumed yet.
pub open spec fn is_pending(state: Seq<char>) -> bool {
    state == "pending"@
}

/// A message, as far as consuming it looks at it.
#[derive(Clone, Debug, PartialEq, Eq)]
pub struct DeliveryMark {
    pub state: String,
    pub consumed_by: Option<String>,
    pub attempts: i64,
}

/// A message after a consumer asked for it: one that waited is consumed, says by
/// whom, and counts one more attempt; any other is as it was.
pub open spec fn consumed_as(
    before: DeliveryMark,
    after: DeliveryMark,
    consumer: Seq<char>,
) -> bool {
    if is_pending(before.state@) {
        &&& after.state@ == "consumed"@
        &&& opt_text(after.consumed_by) == Some(consumer)
        &&& after.attempts == before.attempts + 1
    } else {
        after == before
    }
}

/// What consuming a message does: whether this was the first time, and the message
/// afterwards.
#[derive(Clone, Debug, PartialEq, Eq)]
pub struct Consumption {
    pub first: bool,
    pub delivery: DeliveryMark,
}

/// Why a message cannot be consumed.
pub open spec fn consumption_fault(
    fence: HostFence,
    held: Option<i64>,
    delivery: Option<DeliveryMark>,
) -> Option<Fault> {
    first(
        fence_fault(held, fence),
        match delivery {
            None => fault(ErrorCode::DeliveryConflict, "delivery message does not exist"@),
            Some(before) => if is_pending(before.state@) && before.attempts == i64::MAX {
                fault(
                    ErrorCode::InvalidPayload,
                    "delivery attempts exceeds SQLite integer range"@,
                )
            } else {
                None
            },
        },
    )
}

/// Consumes a message. One that was consumed before is not consumed again.
pub fn consume_delivery(
    consumer: &str,
    fence: &HostFence,
    held: Option<i64>,
    delivery: Option<DeliveryMark>,
) -> (result: Result<Consumption, StoreError>)
    ensures
        answers(result, consumption_fault(*fence, held, delivery)),
        result is Ok ==> result->Ok_0.first == is_pending(delivery->Some_0.state@),
        result is Ok ==> consumed_as(delivery->Some_0, result->Ok_0.delivery, consumer@),
{
    check_fence(held, fence)?;
    match delivery {
        None => Err(
            StoreError::new(ErrorCode::DeliveryConflict, "delivery message does not exist"),
        ),
        Some(before) => {
            if !same_text(before.state.as_str(), "pending") {
                return Ok(Consumption { first: false, delivery: before });
            }
            if before.attempts == i64::MAX {
                return Err(
                    StoreError::new(
                        ErrorCode::InvalidPayload,
                        "delivery attempts exceeds SQLite integer range",
                    ),
                );
            }
            Ok(
                Consumption {
                    first: true,
                    delivery: DeliveryMark {
                        state: "consumed".to_owned(),
                        consumed_by: Some(consumer.to_owned()),
                        attempts: before.attempts + 1,
                    },
                },
            )
        },
    }
}

/// Every message that is there is consumed by whoever may write. A pending one is consumed by
/// that consumer, one attempt on, and any other is as it was.
pub proof fn law_pending_message_is_consumed(
    before: DeliveryMark,
    after: DeliveryMark,
    consumer: Seq<char>,
    fence: HostFence,
    held: Option<i64>,
)
    requires
        before.attempts < i64::MAX,
    ensures
        consumption_fault(fence, held, Some(before)) is None <==> {
            &&& held is Some
            &&& held->Some_0 == fence.generation as int
        },
        consumption_fault(fence, held, None) is Some,
        consumed_as(before, after, consumer) && before.state@ == "pending"@ ==> {
            &&& after.state@ == "consumed"@
            &&& after.consumed_by is Some
            &&& after.consumed_by->Some_0@ == consumer
            &&& after.attempts == before.attempts + 1
        },
        consumed_as(before, after, consumer) && before.state@ != "pending"@ ==> after == before,
{
}

/// A message is consumed once: whatever state it was in, after it was asked for it is
/// not consumed by asking again, and it still names its first consumer.
pub proof fn law_delivery_is_consumed_once(
    before: DeliveryMark,
    after: DeliveryMark,
    again: DeliveryMark,
    consumer: Seq<char>,
    second: Seq<char>,
)
    requires
        consumed_as(before, after, consumer),
        consumed_as(after, again, second),
    ensures
        !is_pending(after.state@),
        again == after,
        is_pending(before.state@) ==> opt_text(again.consumed_by) == Some(consumer),
{
    reveal_strlit("consumed");
    reveal_strlit("pending");
    assert("consumed"@.len() != "pending"@.len());
}

/// Why a workspace is not written. `existing` is the workspace that is stored
/// under its identity, and `holder` is the workspace that has its branch.
pub open spec fn worktree_fault(
    record: WorktreeRecordRow,
    fence: HostFence,
    held: Option<i64>,
    existing: Option<WorktreeRecordRow>,
    holder: Option<String>,
) -> Option<Fault> {
    first(
        fence_fault(held, fence),
        first(
            i64_fault(record.generation, "worktree generation"@),
            if record.generation == 0 {
                fault(
                    ErrorCode::StorageWriteFailed,
                    "persist worktree: generations start at one"@,
                )
            } else if existing is None && holder is Some {
                fault(
                    ErrorCode::StorageWriteFailed,
                    "persist worktree: the branch has a worktree already"@,
                )
            } else {
                None
            },
        ),
    )
}

/// A workspace as it is stored: one that is there already keeps what it was made
/// with, and only its state, its result and its place move on.
pub open spec fn stored_worktree(
    existing: Option<WorktreeRecordRow>,
    record: WorktreeRecordRow,
) -> WorktreeRecordRow {
    match existing {
        None => record,
        Some(row) => WorktreeRecordRow {
            state: record.state,
            result_fingerprint: record.result_fingerprint,
            path: record.path,
            ..row
        },
    }
}

/// Writes a workspace, or moves on the one that is there. A new workspace needs a
/// branch of its own.
pub fn upsert_worktree(
    record: WorktreeRecordRow,
    fence: &HostFence,
    held: Option<i64>,
    existing: Option<WorktreeRecordRow>,
    holder: &Option<String>,
) -> (result: Result<WorktreeRecordRow, StoreError>)
    ensures
        answers(result, worktree_fault(record, *fence, held, existing, *holder)),
        result is Ok ==> result->Ok_0 == stored_worktree(existing, record),
{
    check_fence(held, fence)?;
    let generation: i64 = to_i64(record.generation, "worktree generation")?;
    if generation == 0 {
        return Err(
            StoreError::new(
                ErrorCode::StorageWriteFailed,
                "persist worktree: generations start at one",
            ),
        );
    }
    match existing {
        None => {
            if holder.is_some() {
                return Err(
                    StoreError::new(
                        ErrorCode::StorageWriteFailed,
                        "persist worktree: the branch has a worktree already",
                    ),
                );
            }
            Ok(record)
        },
        Some(row) => {
            let mut stored: WorktreeRecordRow = row;
            stored.state = record.state;
            stored.result_fingerprint = record.result_fingerprint;
            stored.path = record.path;
            Ok(stored)
        },
    }
}

/// A worktree is stored at a generation from one on, unless it is new and its branch is held. A
/// worktree that is there takes a new state, a new result and a new path, and stays what it
/// is otherwise.
pub proof fn law_worktree_is_stored(
    record: WorktreeRecordRow,
    fence: HostFence,
    held: Option<i64>,
    existing: Option<WorktreeRecordRow>,
    holder: Option<String>,
)
    ensures
        worktree_fault(record, fence, held, existing, holder) is None <==> {
            &&& held is Some
            &&& held->Some_0 == fence.generation as int
            &&& 1 <= record.generation <= i64::MAX
            &&& existing is Some || holder is None
        },
        stored_worktree(None, record) == record,
        existing is Some ==> {
            let before = existing->Some_0;
            let after = stored_worktree(existing, record);
            &&& after.state == record.state
            &&& after.result_fingerprint == record.result_fingerprint
            &&& after.path == record.path
            &&& after.worktree_id == before.worktree_id
            &&& after.task_id == before.task_id
            &&& after.run_id == before.run_id
            &&& after.project_id == before.project_id
            &&& after.base_commit == before.base_commit
            &&& after.base_branch == before.base_branch
            &&& after.branch == before.branch
            &&& after.write_scope == before.write_scope
            &&& after.input_fingerprint == before.input_fingerprint
            &&& after.generation == before.generation
        },
{
}

/// No two workspaces have one branch.
pub open spec fn branches_differ(rows: Seq<WorktreeRecordRow>) -> bool {
    forall|i: int, j: int|
        0 <= i < j < rows.len() ==> (#[trigger] rows[i]).branch@ != (#[trigger] rows[j]).branch@
}

/// Two workers never share a branch: a write leaves workspaces with different
/// branches as different as they were. `at` is the place of the workspace that is
/// stored under the record's identity, or the end where there is none.
pub proof fn law_branch_has_one_worktree(
    rows: Seq<WorktreeRecordRow>,
    at: int,
    record: WorktreeRecordRow,
    fence: HostFence,
    held: Option<i64>,
    holder: Option<String>,
)
    requires
        branches_differ(rows),
        0 <= at <= rows.len(),
        holder is Some <==> exists|i: int|
            0 <= i < rows.len() && (#[trigger] rows[i]).branch@ == record.branch@,
        worktree_fault(
            record,
            fence,
            held,
            if at < rows.len() {
                Some(rows[at])
            } else {
                None
            },
            holder,
        ) is None,
    ensures
        branches_differ(
            if at < rows.len() {
                rows.update(at, stored_worktree(Some(rows[at]), record))
            } else {
                rows.push(stored_worktree(None, record))
            },
        ),
{
    if at == rows.len() {
        assert forall|i: int| 0 <= i < rows.len() implies (#[trigger] rows[i]).branch@
            != record.branch@ by {}
    }
}

/// What a memory binding keeps once it is there: what it binds, and to whom.
#[derive(Clone, Debug, PartialEq, Eq)]
pub struct BoundMemory {
    pub task_id: String,
    pub profile_id: String,
    pub memory_asset_id: String,
}

/// Why a memory binding is not written.
pub open spec fn binding_fault(
    binding: MemoryBindingRow,
    fence: HostFence,
    held: Option<i64>,
) -> Option<Fault> {
    first(
        fence_fault(held, fence),
        first(
            i64_fault(binding.version, "binding version"@),
            first(
                i64_fault(binding.revision, "binding revision"@),
                if binding.version == 0 || binding.revision == 0 {
                    fault(
                        ErrorCode::StorageWriteFailed,
                        "persist memory binding: versions and revisions start at one"@,
                    )
                } else {
                    None
                },
            ),
        ),
    )
}

/// A memory binding as it is stored: one that is there already keeps what it binds and
/// to whom, and the rest is what is written last.
pub open spec fn stored_binding(
    existing: Option<BoundMemory>,
    binding: MemoryBindingRow,
) -> MemoryBindingRow {
    match existing {
        None => binding,
        Some(bound) => MemoryBindingRow {
            task_id: bound.task_id,
            profile_id: bound.profile_id,
            memory_asset_id: bound.memory_asset_id,
            ..binding
        },
    }
}

/// Binds a version of a memory to a worker, or moves on the binding that is there.
pub fn bind_delegation_memory(
    binding: MemoryBindingRow,
    fence: &HostFence,
    held: Option<i64>,
    existing: Option<BoundMemory>,
) -> (result: Result<MemoryBindingRow, StoreError>)
    ensures
        answers(result, binding_fault(binding, *fence, held)),
        result is Ok ==> result->Ok_0 == stored_binding(existing, binding),
{
    check_fence(held, fence)?;
    let version: i64 = to_i64(binding.version, "binding version")?;
    let revision: i64 = to_i64(binding.revision, "binding revision")?;
    if version == 0 || revision == 0 {
        return Err(
            StoreError::new(
                ErrorCode::StorageWriteFailed,
                "persist memory binding: versions and revisions start at one",
            ),
        );
    }
    let mut stored: MemoryBindingRow = binding;
    match existing {
        None => {},
        Some(bound) => {
            stored.task_id = bound.task_id;
            stored.profile_id = bound.profile_id;
            stored.memory_asset_id = bound.memory_asset_id;
        },
    }
    Ok(stored)
}

/// Memory is bound to a task at a version and a revision from one on. A binding that is there
/// keeps its task, its profile and its asset, and takes the rest.
pub proof fn law_binding_keeps_what_it_binds(
    binding: MemoryBindingRow,
    fence: HostFence,
    held: Option<i64>,
    bound: BoundMemory,
)
    ensures
        binding_fault(binding, fence, held) is None <==> {
            &&& held is Some
            &&& held->Some_0 == fence.generation as int
            &&& 1 <= binding.version <= i64::MAX
            &&& 1 <= binding.revision <= i64::MAX
        },
        stored_binding(None, binding) == binding,
        ({
            let after = stored_binding(Some(bound), binding);
            &&& after.task_id == bound.task_id
            &&& after.profile_id == bound.profile_id
            &&& after.memory_asset_id == bound.memory_asset_id
            &&& after.binding_id == binding.binding_id
            &&& after.version == binding.version
            &&& after.injection_mode == binding.injection_mode
            &&& after.priority == binding.priority
            &&& after.actions == binding.actions
            &&& after.revision == binding.revision
        }),
{
}

/// The final report of an integration.
#[derive(Clone, Debug, PartialEq, Eq)]
pub struct IntegrationRecord {
    pub integration_id: String,
    pub project_id: String,
    pub base_commit: String,
    pub final_commit: String,
    pub final_fingerprint: String,
    /// The report as JSON text.
    pub report_json: String,
}

/// What an integration keeps once it is there: what it set out from.
#[derive(Clone, Debug, PartialEq, Eq)]
pub struct IntegrationBase {
    pub project_id: String,
    pub base_commit: String,
}

/// An integration as it is stored: one that is there already keeps what it set out
/// from, and only what it came to is replaced.
pub open spec fn stored_integration(
    existing: Option<IntegrationBase>,
    record: IntegrationRecord,
) -> IntegrationRecord {
    match existing {
        None => record,
        Some(base) => IntegrationRecord {
            project_id: base.project_id,
            base_commit: base.base_commit,
            ..record
        },
    }
}

/// Records the final report of an integration, in the place of the one before it.
pub fn record_integration(
    record: IntegrationRecord,
    fence: &HostFence,
    held: Option<i64>,
    existing: Option<IntegrationBase>,
) -> (result: Result<IntegrationRecord, StoreError>)
    ensures
        answers(result, fence_fault(held, *fence)),
        result is Ok ==> result->Ok_0 == stored_integration(existing, record),
{
    check_fence(held, fence)?;
    let mut stored: IntegrationRecord = record;
    match existing {
        None => {},
        Some(base) => {
            stored.project_id = base.project_id;
            stored.base_commit = base.base_commit;
        },
    }
    Ok(stored)
}

/// Only the last report of an integration is current, and it keeps what the first one
/// set out from: a later one leaves the same, whatever was reported in between.
pub proof fn law_last_report_is_current(
    first_report: IntegrationRecord,
    between: IntegrationRecord,
    last: IntegrationRecord,
)
    ensures
        ({
            let base = |report: IntegrationRecord| IntegrationBase {
                project_id: report.project_id,
                base_commit: report.base_commit,
            };
            let one = stored_integration(None, first_report);
            let two = stored_integration(Some(base(one)), between);
            let three = stored_integration(Some(base(two)), last);
            &&& three.final_commit == last.final_commit
            &&& three.final_fingerprint == last.final_fingerprint
            &&& three.report_json == last.report_json
            &&& three.base_commit == first_report.base_commit
            &&& three.project_id == first_report.project_id
        }),
{
}

// ---------------------------------------------------------------------------
// Reading back

/// A task as its row is read.
#[derive(Debug)]
pub struct TaskRow {
    pub task_id: Parsed,
    pub parent_task_id: Option<Parsed>,
    pub role: String,
    pub status: String,
    pub revision: i64,
    pub depth: i64,
    pub brief_json: String,
    pub node_json: String,
    /// The tasks that the node depends on, each one parsed.
    pub depends_on: Vec<Parsed>,
}

/// The tasks that a node says it depends on, as it writes them.
pub fn dependency_texts(node_json: &str) -> (list: Vec<String>)
    ensures
        texts(list@) == strings_under(node_json@, "depends_on"@),
{
    strings_at(node_json, "depends_on")
}

/// Why a stored task cannot be read.
pub open spec fn task_row_fault(row: TaskRow) -> Option<Fault> {
    first(
        if is_json(row.brief_json@) {
            None
        } else {
            fault(ErrorCode::StorageWriteFailed, "stored brief is invalid"@)
        },
        first(
            if is_json(row.node_json@) {
                None
            } else {
                fault(ErrorCode::StorageWriteFailed, "stored node is invalid"@)
            },
            first(
                parsed_list_fault(row.depends_on@),
                first(
                    parsed_fault(row.task_id),
                    first(
                        optional_parsed_fault(row.parent_task_id),
                        first(
                            u64_fault(row.revision, "task revision"@),
                            narrow_fault(
                                row.depth,
                                ErrorCode::StorageWriteFailed,
                                "stored depth is invalid"@,
                            ),
                        ),
                    ),
                ),
            ),
        ),
    )
}

/// Reads a task back.
pub fn read_task_row(row: TaskRow) -> (result: Result<StoredTaskNodeRecord, StoreError>)
    ensures
        answers(result, task_row_fault(row)),
        result is Ok ==> {
            let record = result->Ok_0;
            &&& record == (StoredTaskNodeRecord {
                task_id: row.task_id->Ok_0,
                parent_task_id: parsed_option(row.parent_task_id),
                role: row.role,
                status: row.status,
                revision: row.revision as u64,
                depth: row.depth as u32,
                depends_on: record.depends_on,
                brief_json: row.brief_json,
                node_json: row.node_json,
            })
            &&& record.depends_on@ == row.depends_on@.map_values(|parsed: Parsed| parsed->Ok_0)
        },
{
    let code: ErrorCode = ErrorCode::StorageWriteFailed;
    if !json_is_valid(row.brief_json.as_str()) {
        return Err(StoreError::new(code, "stored brief is invalid"));
    }
    if !json_is_valid(row.node_json.as_str()) {
        return Err(StoreError::new(code, "stored node is invalid"));
    }
    let depends_on: Vec<String> = parsed_values(row.depends_on)?;
    let task_id: String = parsed_value(row.task_id)?;
    let parent_task_id: Option<String> = parse_optional_id(row.parent_task_id)?;
    let revision: u64 = to_u64(row.revision, "task revision")?;
    let depth: u32 = to_narrow(row.depth, code, "stored depth is invalid")?;
    Ok(
        StoredTaskNodeRecord {
            task_id,
            parent_task_id,
            role: row.role,
            status: row.status,
            revision,
            depth,
            depends_on,
            brief_json: row.brief_json,
            node_json: row.node_json,
        },
    )
}

/// A stored task is read if and only if its brief and its node are JSON, its identities and
/// those of its dependencies can be read, and its revision and its depth are numbers that a
/// task can have.
pub proof fn law_task_is_read_back(row: TaskRow)
    ensures
        task_row_fault(row) is None <==> {
            &&& is_json(row.brief_json@)
            &&& is_json(row.node_json@)
            &&& forall|i: int| 0 <= i < row.depends_on@.len() ==> (#[trigger] row.depends_on@[i]) is Ok
            &&& row.task_id is Ok
            &&& row.parent_task_id is None || row.parent_task_id->Some_0 is Ok
            &&& 0 <= row.revision
            &&& 0 <= row.depth <= u32::MAX
        },
{
    crate::error::law_refusals_are_passed_on(
        Ok(()),
        row.task_id,
        row.depends_on@,
        seq![],
        seq![],
        ErrorCode::InvalidPayload,
        seq![],
    );
}

/// An owner as its row is read.
#[derive(Debug)]
pub struct TaskOwnerRow {
    pub task_id: Parsed,
    pub owner_run_id: Parsed,
    pub owner_session_id: Parsed,
    pub role: String,
    pub generation: i64,
    pub lease_revision: i64,
}

/// Why a stored owner cannot be read.
pub open spec fn task_owner_row_fault(row: TaskOwnerRow) -> Option<Fault> {
    first(
        parsed_fault(row.task_id),
        first(
            parsed_fault(row.owner_run_id),
            first(
                parsed_fault(row.owner_session_id),
                first(
                    u64_fault(row.generation, "generation"@),
                    u64_fault(row.lease_revision, "lease revision"@),
                ),
            ),
        ),
    )
}

/// The owner that a row holds.
pub open spec fn owner_of(row: TaskOwnerRow) -> TaskOwnerRecord {
    TaskOwnerRecord {
        task_id: row.task_id->Ok_0,
        owner_run_id: row.owner_run_id->Ok_0,
        owner_session_id: row.owner_session_id->Ok_0,
        role: row.role,
        generation: row.generation as u64,
        lease_revision: row.lease_revision as u64,
    }
}

/// Reads an owner back.
pub fn task_owner_from_row(row: TaskOwnerRow) -> (result: Result<TaskOwnerRecord, StoreError>)
    ensures
        answers(result, task_owner_row_fault(row)),
        result is Ok ==> result->Ok_0 == owner_of(row),
{
    let task_id: String = parsed_value(row.task_id)?;
    let owner_run_id: String = parsed_value(row.owner_run_id)?;
    let owner_session_id: String = parsed_value(row.owner_session_id)?;
    let generation: u64 = to_u64(row.generation, "generation")?;
    let lease_revision: u64 = to_u64(row.lease_revision, "lease revision")?;
    Ok(
        TaskOwnerRecord {
            task_id,
            owner_run_id,
            owner_session_id,
            role: row.role,
            generation,
            lease_revision,
        },
    )
}

/// A row holds an owner as it is written: its identities and texts as they are, and
/// its numbers, which columns can hold.
pub open spec fn owner_is_stored_in(record: TaskOwnerRecord, row: TaskOwnerRow) -> bool {
    &&& record.generation <= i64::MAX
    &&& record.lease_revision <= i64::MAX
    &&& row == (TaskOwnerRow {
        task_id: Ok(record.task_id),
        owner_run_id: Ok(record.owner_run_id),
        owner_session_id: Ok(record.owner_session_id),
        role: record.role,
        generation: record.generation as i64,
        lease_revision: record.lease_revision as i64,
    })
}

/// What is written is read back: the row of an owner reads without an error, and as
/// the record that it was written from.
pub proof fn law_stored_owner_reads_back(record: TaskOwnerRecord, row: TaskOwnerRow, read: TaskOwnerRecord)
    requires
        owner_is_stored_in(record, row),
        read == owner_of(row),
    ensures
        task_owner_row_fault(row) is None,
        read == record,
{
}

/// A report as its row is read.
#[derive(Debug)]
pub struct ResultRow {
    pub result_id: String,
    pub task_id: Parsed,
    pub worker_run_id: Parsed,
    pub outcome: String,
    pub base_revision: String,
    pub result_revision: String,
    pub artifact_refs_json: String,
    pub report_json: String,
    pub result_hash: Parsed,
}

/// Why a stored report cannot be read.
pub open spec fn result_row_fault(row: ResultRow) -> Option<Fault> {
    first(
        if json_strings(row.artifact_refs_json@) is Some {
            None
        } else {
            fault(ErrorCode::StorageWriteFailed, "stored artifact refs are invalid"@)
        },
        first(
            if is_json(row.report_json@) {
                None
            } else {
                fault(ErrorCode::StorageWriteFailed, "stored result is invalid JSON"@)
            },
            first(
                parsed_fault(row.task_id),
                first(parsed_fault(row.worker_run_id), parsed_fault(row.result_hash)),
            ),
        ),
    )
}

/// A report is what a row holds.
pub open spec fn result_reads_as(row: ResultRow, record: StoredDelegatedResultRecord) -> bool {
    &&& record == (StoredDelegatedResultRecord {
        result_id: row.result_id,
        task_id: row.task_id->Ok_0,
        worker_run_id: row.worker_run_id->Ok_0,
        outcome: row.outcome,
        base_revision: row.base_revision,
        result_revision: row.result_revision,
        artifact_refs: record.artifact_refs,
        report_json: row.report_json,
        result_hash: row.result_hash->Ok_0,
    })
    &&& Some(texts(record.artifact_refs@)) == json_strings(row.artifact_refs_json@)
}

/// Reads a report back.
pub fn task_result_from_row(row: ResultRow) -> (result: Result<
    StoredDelegatedResultRecord,
    StoreError,
>)
    ensures
        answers(result, result_row_fault(row)),
        result is Ok ==> result_reads_as(row, result->Ok_0),
{
    let code: ErrorCode = ErrorCode::StorageWriteFailed;
    let artifact_refs: Vec<String> = match json_string_list(row.artifact_refs_json.as_str()) {
        Some(list) => list,
        None => {
            return Err(StoreError::new(code, "stored artifact refs are invalid"));
        },
    };
    if !json_is_valid(row.report_json.as_str()) {
        return Err(StoreError::new(code, "stored result is invalid JSON"));
    }
    let task_id: String = parsed_value(row.task_id)?;
    let worker_run_id: String = parsed_value(row.worker_run_id)?;
    let result_hash: String = parsed_value(row.result_hash)?;
    Ok(
        StoredDelegatedResultRecord {
            result_id: row.result_id,
            task_id,
            worker_run_id,
            outcome: row.outcome,
            base_revision: row.base_revision,
            result_revision: row.result_revision,
            artifact_refs,
            report_json: row.report_json,
            result_hash,
        },
    )
}

/// A row holds a report as it is written: its identities and texts as they are, its
/// list as JSON, and its numbers, which columns can hold.
pub open spec fn result_is_stored_in(record: StoredDelegatedResultRecord, row: ResultRow) -> bool {
    &&& is_json(record.report_json@)
    &&& json_strings(row.artifact_refs_json@) == Some(texts(record.artifact_refs@))
    &&& row == (ResultRow {
        result_id: record.result_id,
        task_id: Ok(record.task_id),
        worker_run_id: Ok(record.worker_run_id),
        outcome: record.outcome,
        base_revision: record.base_revision,
        result_revision: record.result_revision,
        report_json: record.report_json,
        result_hash: Ok(record.result_hash),
        artifact_refs_json: row.artifact_refs_json,
    })
}

/// What is written is read back: the row of a report reads without an error, as the
/// record that it was written from, with the same list.
pub proof fn law_stored_result_reads_back(record: StoredDelegatedResultRecord, row: ResultRow, read: StoredDelegatedResultRecord)
    requires
        result_is_stored_in(record, row),
        result_reads_as(row, read),
    ensures
        result_row_fault(row) is None,
        texts(read.artifact_refs@) == texts(record.artifact_refs@),
        read == (StoredDelegatedResultRecord { artifact_refs: read.artifact_refs, ..record }),
{
}

/// A message as its row is read.
#[derive(Debug)]
pub struct DeliveryRow {
    pub message_id: String,
    pub sender_task_id: Parsed,
    pub recipient_task_id: Parsed,
    pub recipient_session_id: Parsed,
    pub result_id: Option<String>,
    pub payload_hash: Parsed,
    pub payload_json: String,
    pub state: String,
    pub consumed_by: Option<String>,
}

/// Why a stored message cannot be read.
pub open spec fn delivery_row_fault(row: DeliveryRow) -> Option<Fault> {
    first(
        if is_json(row.payload_json@) {
            None
        } else {
            fault(ErrorCode::StorageWriteFailed, "stored payload is invalid"@)
        },
        first(
            parsed_fault(row.sender_task_id),
            first(
                parsed_fault(row.recipient_task_id),
                first(parsed_fault(row.recipient_session_id), parsed_fault(row.payload_hash)),
            ),
        ),
    )
}

/// The message that a row holds.
pub open spec fn delivery_of(row: DeliveryRow) -> ParentDeliveryRecord {
    ParentDeliveryRecord {
        message_id: row.message_id,
        sender_task_id: row.sender_task_id->Ok_0,
        recipient_task_id: row.recipient_task_id->Ok_0,
        recipient_session_id: row.recipient_session_id->Ok_0,
        result_id: row.result_id,
        payload_hash: row.payload_hash->Ok_0,
        payload: row.payload_json,
        state: row.state,
        consumed_by: row.consumed_by,
    }
}

/// Reads a message back.
pub fn read_delivery_row(row: DeliveryRow) -> (result: Result<ParentDeliveryRecord, StoreError>)
    ensures
        answers(result, delivery_row_fault(row)),
        result is Ok ==> result->Ok_0 == delivery_of(row),
{
    if !json_is_valid(row.payload_json.as_str()) {
        return Err(StoreError::new(ErrorCode::StorageWriteFailed, "stored payload is invalid"));
    }
    let sender_task_id: String = parsed_value(row.sender_task_id)?;
    let recipient_task_id: String = parsed_value(row.recipient_task_id)?;
    let recipient_session_id: String = parsed_value(row.recipient_session_id)?;
    let payload_hash: String = parsed_value(row.payload_hash)?;
    Ok(
        ParentDeliveryRecord {
            message_id: row.message_id,
            sender_task_id,
            recipient_task_id,
            recipient_session_id,
            result_id: row.result_id,
            payload_hash,
            payload: row.payload_json,
            state: row.state,
            consumed_by: row.consumed_by,
        },
    )
}

/// A row holds a message as it is written: its identities and texts as they are, and
/// its numbers, which columns can hold.
pub open spec fn delivery_is_stored_in(record: ParentDeliveryRecord, row: DeliveryRow) -> bool {
    &&& is_json(record.payload@)
    &&& row == (DeliveryRow {
        message_id: record.message_id,
        sender_task_id: Ok(record.sender_task_id),
        recipient_task_id: Ok(record.recipient_task_id),
        recipient_session_id: Ok(record.recipient_session_id),
        result_id: record.result_id,
        payload_hash: Ok(record.payload_hash),
        payload_json: record.payload,
        state: record.state,
        consumed_by: record.consumed_by,
    })
}

/// What is written is read back: the row of a message reads without an error, and as
/// the record that it was written from.
pub proof fn law_stored_delivery_reads_back(record: ParentDeliveryRecord, row: DeliveryRow, read: ParentDeliveryRecord)
    requires
        delivery_is_stored_in(record, row),
        read == delivery_of(row),
    ensures
        delivery_row_fault(row) is None,
        read == record,
{
}

/// A workspace as its row is read.
#[derive(Debug)]
pub struct WorktreeRow {
    pub worktree_id: String,
    pub task_id: Parsed,
    pub run_id: Parsed,
    pub project_id: Parsed,
    pub base_commit: String,
    pub base_branch: String,
    pub branch: String,
    pub path: String,
    pub write_scope_json: String,
    pub state: String,
    pub input_fingerprint: Parsed,
    pub result_fingerprint: Option<Parsed>,
    pub generation: i64,
}

/// Why a stored workspace cannot be read.
pub open spec fn worktree_row_fault(row: WorktreeRow) -> Option<Fault> {
    first(
        if json_strings(row.write_scope_json@) is Some {
            None
        } else {
            fault(ErrorCode::StorageWriteFailed, "stored write scope is invalid"@)
        },
        first(
            optional_parsed_fault(row.result_fingerprint),
            first(
                parsed_fault(row.task_id),
                first(
                    parsed_fault(row.run_id),
                    first(
                        parsed_fault(row.project_id),
                        first(
                            parsed_fault(row.input_fingerprint),
                            u64_fault(row.generation, "worktree generation"@),
                        ),
                    ),
                ),
            ),
        ),
    )
}

/// A workspace is what a row holds.
pub open spec fn worktree_reads_as(row: WorktreeRow, record: WorktreeRecordRow) -> bool {
    &&& record == (WorktreeRecordRow {
        worktree_id: row.worktree_id,
        task_id: row.task_id->Ok_0,
        run_id: row.run_id->Ok_0,
        project_id: row.project_id->Ok_0,
        base_commit: row.base_commit,
        base_branch: row.base_branch,
        branch: row.branch,
        path: row.path,
        write_scope: record.write_scope,
        state: row.state,
        input_fingerprint: row.input_fingerprint->Ok_0,
        result_fingerprint: parsed_option(row.result_fingerprint),
        generation: row.generation as u64,
    })
    &&& Some(texts(record.write_scope@)) == json_strings(row.write_scope_json@)
}

/// Reads a workspace back.
pub fn read_worktree_row(row: WorktreeRow) -> (result: Result<WorktreeRecordRow, StoreError>)
    ensures
        answers(result, worktree_row_fault(row)),
        result is Ok ==> worktree_reads_as(row, result->Ok_0),
{
    let write_scope: Vec<String> = match json_string_list(row.write_scope_json.as_str()) {
        Some(list) => list,
        None => {
            return Err(
                StoreError::new(ErrorCode::StorageWriteFailed, "stored write scope is invalid"),
            );
        },
    };
    let result_fingerprint: Option<String> = parse_optional_id(row.result_fingerprint)?;
    let task_id: String = parsed_value(row.task_id)?;
    let run_id: String = parsed_value(row.run_id)?;
    let project_id: String = parsed_value(row.project_id)?;
    let input_fingerprint: String = parsed_value(row.input_fingerprint)?;
    let generation: u64 = to_u64(row.generation, "worktree generation")?;
    Ok(
        WorktreeRecordRow {
            worktree_id: row.worktree_id,
            task_id,
            run_id,
            project_id,
            base_commit: row.base_commit,
            base_branch: row.base_branch,
            branch: row.branch,
            path: row.path,
            write_scope,
            state: row.state,
            input_fingerprint,
            result_fingerprint,
            generation,
        },
    )
}

/// A row holds a workspace as it is written: its identities and texts as they are, its
/// list as JSON, and its numbers, which columns can hold.
pub open spec fn worktree_is_stored_in(record: WorktreeRecordRow, row: WorktreeRow) -> bool {
    &&& record.generation <= i64::MAX
    &&& json_strings(row.write_scope_json@) == Some(texts(record.write_scope@))
    &&& row == (WorktreeRow {
        worktree_id: record.worktree_id,
        task_id: Ok(record.task_id),
        run_id: Ok(record.run_id),
        project_id: Ok(record.project_id),
        base_commit: record.base_commit,
        base_branch: record.base_branch,
        branch: record.branch,
        path: record.path,
        state: record.state,
        input_fingerprint: Ok(record.input_fingerprint),
        result_fingerprint: written_option(record.result_fingerprint),
        generation: record.generation as i64,
        write_scope_json: row.write_scope_json,
    })
}

/// What is written is read back: the row of a workspace reads without an error, as the
/// record that it was written from, with the same list.
pub proof fn law_stored_worktree_reads_back(record: WorktreeRecordRow, row: WorktreeRow, read: WorktreeRecordRow)
    requires
        worktree_is_stored_in(record, row),
        worktree_reads_as(row, read),
    ensures
        worktree_row_fault(row) is None,
        texts(read.write_scope@) == texts(record.write_scope@),
        read == (WorktreeRecordRow { write_scope: read.write_scope, ..record }),
{
}

/// Reads back what a task has used.
pub fn budget_usage_from_row(model_requests: i64, retries: i64, cost_units: i64) -> (result: Result<
    BudgetUsageRecord,
    StoreError,
>)
    ensures
        answers(
            result,
            first(
                narrow_fault(
                    model_requests,
                    ErrorCode::StorageWriteFailed,
                    "usage is out of range"@,
                ),
                first(
                    narrow_fault(
                        retries,
                        ErrorCode::StorageWriteFailed,
                        "retries are out of range"@,
                    ),
                    u64_fault(cost_units, "cost units"@),
                ),
            ),
        ),
        result is Ok ==> result->Ok_0 == (BudgetUsageRecord {
            model_requests: model_requests as u32,
            retries: retries as u32,
            cost_units: cost_units as u64,
        }),
{
    let code: ErrorCode = ErrorCode::StorageWriteFailed;
    let model_requests: u32 = to_narrow(model_requests, code, "usage is out of range")?;
    let retries: u32 = to_narrow(retries, code, "retries are out of range")?;
    let cost_units: u64 = to_u64(cost_units, "cost units")?;
    Ok(BudgetUsageRecord { model_requests, retries, cost_units })
}

} // verus!

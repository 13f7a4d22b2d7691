use harness_store_sqlite::delegation::{
    admit_task, admit_task_graph, bind_delegation_memory, budget_usage_from_row, charge_usage,
    claim_task,
    commit_delivery, consume_delivery, dependency_texts, insert_delivery, insert_result,
    mark_task_running, read_delivery_row, read_task_row, read_worktree_row, record_integration,
    task_owner_from_row, task_result_from_row, upsert_worktree, BoundMemory, BudgetUsageRecord, DeliveryCommit, DeliveryMark, DeliveryRow,
    DeliveryWrite, IntegrationBase, IntegrationRecord, MemoryBindingRow, OwnerRow, ParentDeliveryRecord, ResultRow,
    StoredDelegatedResultRecord, StoredTaskNodeRecord, TaskAdmission, TaskOwnerRecord,
    TaskOwnerRow, TaskRow, TaskStatusRow, UsageRow, WorktreeRow,
};
use harness_store_sqlite::error::{ErrorCode, Refusal, StoreError};
use harness_store_sqlite::journal::HostFence;

fn text(value: &str) -> String {
    value.to_owned()
}

fn fence() -> HostFence {
    HostFence { host_id: text("host"), generation: 3 }
}

fn fails<T>(result: Result<T, StoreError>, code: ErrorCode, message: &str) {
    match result {
        Ok(_) => panic!("expected {message}"),
        Err(error) => {
            assert_eq!(error.code(), code);
            assert_eq!(error.message(), message);
        }
    }
}

fn node(id: &str, status: &str) -> StoredTaskNodeRecord {
    StoredTaskNodeRecord {
        task_id: text(id),
        parent_task_id: None,
        role: text("worker"),
        status: text(status),
        revision: 1,
        depth: 0,
        depends_on: Vec::new(),
        brief_json: text("{}"),
        node_json: text("{}"),
    }
}

fn owner(run: &str, generation: u64) -> TaskOwnerRecord {
    TaskOwnerRecord {
        task_id: text("task"),
        owner_run_id: text(run),
        owner_session_id: text("session"),
        role: text("worker"),
        generation,
        lease_revision: 1,
    }
}

fn admission(id: &str) -> TaskAdmission {
    TaskAdmission { task: node(id, "pending"), owner: None }
}

fn delivery(state: &str, hash: &str) -> ParentDeliveryRecord {
    ParentDeliveryRecord {
        message_id: text("message"),
        sender_task_id: text("task"),
        recipient_task_id: text("parent"),
        recipient_session_id: text("session"),
        result_id: None,
        payload_hash: text(hash),
        payload: text("{}"),
        state: text(state),
        consumed_by: None,
    }
}

fn report(hash: &str) -> StoredDelegatedResultRecord {
    StoredDelegatedResultRecord {
        result_id: text("result"),
        task_id: text("task"),
        worker_run_id: text("run"),
        outcome: text("done"),
        base_revision: text("a"),
        result_revision: text("b"),
        artifact_refs: Vec::new(),
        report_json: text("{}"),
        result_hash: text(hash),
    }
}

#[test]
fn a_task_is_admitted_once() {
    assert!(admit_task(&admission("a"), &vec![], &fence(), Some(3)).is_ok());
    fails(
        admit_task(&admission("a"), &vec![text("b"), text("a")], &fence(), Some(3)),
        ErrorCode::DuplicateTaskId,
        "task id is already admitted",
    );
    let mut owned = admission("a");
    owned.owner = Some(owner("run", u64::MAX));
    fails(
        admit_task(&owned, &vec![], &fence(), Some(3)),
        ErrorCode::InvalidPayload,
        "ownership generation exceeds SQLite integer range",
    );
    assert!(admit_task(&admission("a"), &vec![], &fence(), Some(4)).is_err());
    let mut early = admission("a");
    early.task.revision = 0;
    for unfit in [TaskAdmission { task: node("a", "waiting"), owner: None }, early] {
        fails(
            admit_task(&unfit, &vec![], &fence(), Some(3)),
            ErrorCode::DuplicateTaskId,
            "task id is already admitted",
        );
    }
    owned.owner = Some(owner("run", 0));
    fails(
        admit_task(&owned, &vec![], &fence(), Some(3)),
        ErrorCode::StorageWriteFailed,
        "insert owner: generations and revisions start at one",
    );
}

#[test]
fn a_graph_is_admitted_whole() {
    let graph = vec![admission("a"), admission("b")];
    assert!(admit_task_graph(&graph, &vec![text("c")], &fence(), Some(3)).is_ok());
    fails(
        admit_task_graph(&graph, &vec![text("b")], &fence(), Some(3)),
        ErrorCode::DuplicateTaskId,
        "task id is already admitted",
    );
    fails(
        admit_task_graph(&vec![admission("a"), admission("a")], &vec![], &fence(), Some(3)),
        ErrorCode::DuplicateTaskId,
        "task id is already admitted",
    );
    fails(
        admit_task_graph(&Vec::new(), &vec![], &fence(), Some(3)),
        ErrorCode::InvalidPayload,
        "a task graph admission requires at least one task",
    );
}

#[test]
fn a_task_has_one_owner() {
    let task = |status: &str| Some(TaskStatusRow { status: text(status), revision: 4 });
    let claim = |owner: TaskOwnerRecord, existing: Option<(&str, i64)>, status: &str| {
        let row = existing.map(|(run, generation)| OwnerRow { owner_run_id: text(run), generation });
        claim_task(&owner, 4, &fence(), Some(3), &row, &task(status))
    };
    let claimed = claim(owner("run", 2), None, "pending").expect("claimed");
    assert_eq!((claimed.revision, claimed.status.as_str()), (5, "ready"));
    let again = claim(owner("run", 2), Some(("run", 2)), "running").expect("its own");
    assert_eq!(again.status, "running");
    assert!(claim(owner("other", 3), Some(("run", 2)), "running").is_ok());
    fails(
        claim(owner("run", 1), Some(("run", 2)), "running"),
        ErrorCode::TaskOwnershipConflict,
        format!("a newer run generation already owns {} task", "this").as_str(),
    );
    fails(
        claim(owner("other", 2), Some(("run", 2)), "running"),
        ErrorCode::TaskOwnershipConflict,
        format!("another run holds {} task at the same generation", "this").as_str(),
    );
    fails(
        claim(owner("run", 2), None, "completed"),
        ErrorCode::TaskOwnershipConflict,
        "a completed task is never reassigned",
    );
    fails(
        claim_task(&owner("run", 2), 5, &fence(), Some(3), &None, &task("ready")),
        ErrorCode::SequenceConflict,
        "task revision changed before the claim committed",
    );
    fails(
        claim_task(&owner("run", 2), 5, &fence(), Some(3), &None, &None),
        ErrorCode::TaskNotFound,
        "task is not admitted",
    );
}

#[test]
fn only_the_owner_runs_a_task() {
    let row = Some(OwnerRow { owner_run_id: text("run"), generation: 2 });
    let mark = |run: &str, generation: u64, revision: Option<i64>| {
        mark_task_running(run, generation, &fence(), Some(3), &row, revision)
    };
    let running = mark("run", 2, Some(7)).expect("running");
    assert_eq!((running.revision, running.status.as_str()), (8, "running"));
    fails(
        mark("run", 1, Some(7)),
        ErrorCode::TaskOwnershipConflict,
        "task owner generation is stale",
    );
    fails(
        mark("other", 2, Some(7)),
        ErrorCode::TaskOwnershipConflict,
        "task owner generation is stale",
    );
    fails(mark("run", 2, None), ErrorCode::TaskNotFound, "task is not admitted");
    fails(
        mark_task_running("run", 2, &fence(), Some(3), &None, Some(7)),
        ErrorCode::TaskOwnershipConflict,
        "task has no owner",
    );
}

#[test]
fn reports_and_messages_are_written_once() {
    assert!(insert_result(&report("h"), &None).expect("new"));
    assert!(!insert_result(&report("h"), &Some(text("h"))).expect("again"));
    fails(
        insert_result(&report("g"), &Some(text("h"))),
        ErrorCode::DeliveryConflict,
        "the same result id cannot carry different content",
    );
    assert!(insert_delivery(&delivery("pending", "h"), &None).expect("new"));
    assert!(!insert_delivery(&delivery("pending", "h"), &Some(text("h"))).expect("again"));
    fails(
        insert_delivery(&delivery("pending", "g"), &Some(text("h"))),
        ErrorCode::DeliveryConflict,
        "the same message id cannot carry different payloads",
    );
    fails(
        insert_delivery(&delivery("consumed", "h"), &None),
        ErrorCode::DeliveryConflict,
        "a new delivery cannot be inserted already consumed",
    );
}

fn commit(status: &str) -> DeliveryCommit {
    DeliveryCommit {
        task_transition: node("task", status),
        result: Some(report("h")),
        delivery: delivery("pending", "p"),
        usage: Some(BudgetUsageRecord { model_requests: 1, retries: 0, cost_units: 2 }),
    }
}

#[test]
fn a_completed_task_stays_completed() {
    let deliver = |commit: &DeliveryCommit, status: &str| {
        commit_delivery(commit, &fence(), Some(3), &Some(text(status)), &None, &Some(text("p")))
    };
    assert_eq!(
        deliver(&commit("completed"), "running").expect("delivered"),
        DeliveryWrite { insert_result: true, insert_delivery: false }
    );
    assert!(deliver(&commit("completed"), "completed").is_ok());
    fails(
        deliver(&commit("failed"), "completed"),
        ErrorCode::InvalidStateTransition,
        "a completed task cannot leave the completed state",
    );
    fails(
        deliver(&commit("done"), "running"),
        ErrorCode::StorageWriteFailed,
        "update task: no task has this state or revision",
    );
    let mut dear = commit("completed");
    dear.usage = Some(BudgetUsageRecord { model_requests: 1, retries: 0, cost_units: u64::MAX });
    fails(
        deliver(&dear, "running"),
        ErrorCode::InvalidPayload,
        "cost units exceeds SQLite integer range",
    );
    fails(
        commit_delivery(&commit("failed"), &fence(), Some(3), &None, &None, &None),
        ErrorCode::TaskNotFound,
        "task is not admitted",
    );
}

#[test]
fn a_message_is_consumed_once() {
    let waiting = |attempts: i64| DeliveryMark { state: text("pending"), consumed_by: None, attempts };
    let first = consume_delivery("p", &fence(), Some(3), Some(waiting(0))).expect("first");
    assert!(first.first);
    assert_eq!(
        first.delivery,
        DeliveryMark { state: text("consumed"), consumed_by: Some(text("p")), attempts: 1 }
    );
    let stored = Some(first.delivery.clone());
    let second = consume_delivery("q", &fence(), Some(3), stored).expect("second");
    assert!(!second.first);
    assert_eq!(second.delivery, first.delivery);
    fails(
        consume_delivery("p", &fence(), Some(3), None),
        ErrorCode::DeliveryConflict,
        "delivery message does not exist",
    );
    fails(
        consume_delivery("p", &fence(), Some(3), Some(waiting(i64::MAX))),
        ErrorCode::InvalidPayload,
        "delivery attempts exceeds SQLite integer range",
    );
}

fn task_row(node_json: &str) -> TaskRow {
    TaskRow {
        task_id: Ok(text("task")),
        parent_task_id: Some(Ok(text("parent"))),
        role: text("worker"),
        status: text("ready"),
        revision: 2,
        depth: 1,
        brief_json: text("{}"),
        node_json: text(node_json),
        depends_on: dependency_texts(node_json).into_iter().map(Ok).collect(),
    }
}

#[test]
fn tasks_are_read_back_with_their_dependencies() {
    let json = "{\"depends_on\":[\"a\",7,\"b\"]}";
    assert_eq!(dependency_texts(json), vec!["a", "b"]);
    assert!(dependency_texts("{\"depends_on\":\"a\"}").is_empty());
    assert!(dependency_texts("[]").is_empty());
    let task = read_task_row(task_row(json)).expect("reads");
    assert_eq!(task.depends_on, vec!["a", "b"]);
    assert_eq!((task.revision, task.depth), (2, 1));
    fails(
        read_task_row(task_row("{")),
        ErrorCode::StorageWriteFailed,
        "stored node is invalid",
    );
    let mut deep = task_row(json);
    deep.depth = -1;
    fails(read_task_row(deep), ErrorCode::StorageWriteFailed, "stored depth is invalid");
    let mut foreign = task_row(json);
    foreign.depends_on = vec![Err(Refusal { code: ErrorCode::Other(9), text: text("bad id") })];
    fails(read_task_row(foreign), ErrorCode::Other(9), "bad id");
}

#[test]
fn owners_reports_and_messages_are_read_back() {
    let stored = task_owner_from_row(TaskOwnerRow {
        task_id: Ok(text("task")),
        owner_run_id: Ok(text("run")),
        owner_session_id: Ok(text("session")),
        role: text("worker"),
        generation: 2,
        lease_revision: 1,
    })
    .expect("reads");
    assert_eq!(stored, owner("run", 2));
    let row = |refs: &str| ResultRow {
        result_id: text("result"),
        task_id: Ok(text("task")),
        worker_run_id: Ok(text("run")),
        outcome: text("done"),
        base_revision: text("a"),
        result_revision: text("b"),
        artifact_refs_json: text(refs),
        report_json: text("{}"),
        result_hash: Ok(text("h")),
    };
    let read = task_result_from_row(row("[\"x\"]")).expect("reads");
    assert_eq!(read.artifact_refs, vec!["x"]);
    fails(
        task_result_from_row(row("{}")),
        ErrorCode::StorageWriteFailed,
        "stored artifact refs are invalid",
    );
    let message = |payload: &str| DeliveryRow {
        message_id: text("message"),
        sender_task_id: Ok(text("task")),
        recipient_task_id: Ok(text("parent")),
        recipient_session_id: Ok(text("session")),
        result_id: None,
        payload_hash: Ok(text("p")),
        payload_json: text(payload),
        state: text("pending"),
        consumed_by: None,
    };
    assert_eq!(read_delivery_row(message("{}")).expect("reads"), delivery("pending", "p"));
    fails(
        read_delivery_row(message("?")),
        ErrorCode::StorageWriteFailed,
        "stored payload is invalid",
    );
}

#[test]
fn worktrees_bindings_and_usage_are_bounded() {
    let row = |scope: &str, generation: i64| WorktreeRow {
        worktree_id: text("tree"),
        task_id: Ok(text("task")),
        run_id: Ok(text("run")),
        project_id: Ok(text("project")),
        base_commit: text("c"),
        base_branch: text("main"),
        branch: text("work"),
        path: text("/tree"),
        write_scope_json: text(scope),
        state: text("active"),
        input_fingerprint: Ok(text("in")),
        result_fingerprint: None,
        generation,
    };
    let mut tree = read_worktree_row(row("[\"src\"]", 1)).expect("reads");
    assert_eq!(tree.write_scope, vec!["src"]);
    let written = upsert_worktree(tree.clone(), &fence(), Some(3), None, &None);
    assert_eq!(written, Ok(tree.clone()));
    fails(
        upsert_worktree(tree.clone(), &fence(), Some(3), None, &Some(text("other"))),
        ErrorCode::StorageWriteFailed,
        "persist worktree: the branch has a worktree already",
    );
    let mut moved = tree.clone();
    moved.state = text("merged");
    moved.path = text("elsewhere");
    moved.branch = text("renamed");
    let kept = upsert_worktree(
        moved,
        &fence(),
        Some(3),
        Some(tree.clone()),
        &Some(tree.worktree_id.clone()),
    )
    .expect("moves on");
    assert_eq!((kept.state.as_str(), kept.path.as_str()), ("merged", "elsewhere"));
    assert_eq!(kept.branch, tree.branch);
    tree.generation = 0;
    fails(
        upsert_worktree(tree.clone(), &fence(), Some(3), Some(tree.clone()), &None),
        ErrorCode::StorageWriteFailed,
        "persist worktree: generations start at one",
    );
    tree.generation = u64::MAX;
    fails(
        upsert_worktree(tree, &fence(), Some(3), None, &None),
        ErrorCode::InvalidPayload,
        "worktree generation exceeds SQLite integer range",
    );
    fails(
        read_worktree_row(row("1", 1)),
        ErrorCode::StorageWriteFailed,
        "stored write scope is invalid",
    );
    let mut binding = MemoryBindingRow {
        binding_id: text("binding"),
        task_id: text("task"),
        profile_id: text("profile"),
        memory_asset_id: text("asset"),
        version: 1,
        injection_mode: text("index"),
        priority: -1,
        actions: Vec::new(),
        revision: u64::MAX,
    };
    fails(
        bind_delegation_memory(binding.clone(), &fence(), Some(3), None),
        ErrorCode::InvalidPayload,
        "binding revision exceeds SQLite integer range",
    );
    binding.revision = 0;
    fails(
        bind_delegation_memory(binding.clone(), &fence(), Some(3), None),
        ErrorCode::StorageWriteFailed,
        "persist memory binding: versions and revisions start at one",
    );
    binding.revision = 2;
    assert_eq!(
        bind_delegation_memory(binding.clone(), &fence(), Some(3), None),
        Ok(binding.clone())
    );
    let bound = BoundMemory {
        task_id: text("first task"),
        profile_id: text("first profile"),
        memory_asset_id: text("first asset"),
    };
    let kept = bind_delegation_memory(binding.clone(), &fence(), Some(3), Some(bound.clone()))
        .expect("moves on");
    assert_eq!((kept.task_id, kept.profile_id), (bound.task_id, bound.profile_id));
    assert_eq!((kept.memory_asset_id, kept.revision), (bound.memory_asset_id, 2));
    let usage = budget_usage_from_row(3, 1, 9).expect("reads");
    assert_eq!(usage, BudgetUsageRecord { model_requests: 3, retries: 1, cost_units: 9 });
    fails(
        budget_usage_from_row(-1, 1, 9),
        ErrorCode::StorageWriteFailed,
        "usage is out of range",
    );
    fails(
        budget_usage_from_row(1, 1 << 40, 9),
        ErrorCode::StorageWriteFailed,
        "retries are out of range",
    );
}

#[test]
fn the_last_report_of_an_integration_is_current() {
    let report = |base: &str, last: &str| IntegrationRecord {
        integration_id: text("integration"),
        project_id: text(base),
        base_commit: text(base),
        final_commit: text(last),
        final_fingerprint: text(last),
        report_json: text("{}"),
    };
    let first = record_integration(report("a", "b"), &fence(), Some(3), None).expect("recorded");
    assert_eq!(first, report("a", "b"));
    let base = IntegrationBase { project_id: first.project_id, base_commit: first.base_commit };
    let last = record_integration(report("c", "d"), &fence(), Some(3), Some(base)).expect("replaced");
    assert_eq!(last, report("a", "d"));
    assert!(record_integration(report("a", "b"), &fence(), Some(4), None).is_err());
}

#[test]
fn usage_adds_up() {
    let usage = BudgetUsageRecord { model_requests: 2, retries: 1, cost_units: 30 };
    let row = charge_usage(None, &usage).expect("charged");
    assert_eq!(row, UsageRow { model_requests: 2, retries: 1, cost_units: 30 });
    let row = charge_usage(Some(row), &usage).expect("charged again");
    assert_eq!(row, UsageRow { model_requests: 4, retries: 2, cost_units: 60 });
    let full = UsageRow { cost_units: i64::MAX - 29, ..row };
    assert_eq!(charge_usage(Some(full), &usage), None);
    let almost = UsageRow { cost_units: i64::MAX - 30, ..row };
    assert_eq!(charge_usage(Some(almost), &usage).expect("fits").cost_units, i64::MAX);
}

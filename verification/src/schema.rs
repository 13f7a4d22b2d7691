//! The tables of the store.
//!
//! Every set of tables has its own record of revisions, so that a host can add
//! one without touching the others.

use vstd::prelude::*;

verus! {

/// What records the revisions of the journal's tables.
pub const STORE_REVISIONS: &'static str = "CREATE TABLE IF NOT EXISTS schema_migrations (version INTEGER PRIMARY KEY, applied_at TEXT NOT NULL DEFAULT CURRENT_TIMESTAMP)";

/// The journal: hosts, sessions, events, receipts and artifacts.
pub const STORE_TABLES: [&'static str; 14] = [
    "CREATE TABLE IF NOT EXISTS host_epoch (singleton INTEGER PRIMARY KEY CHECK (singleton = 1), generation INTEGER NOT NULL CHECK (generation >= 0))",
    "CREATE TABLE IF NOT EXISTS hosts (host_id TEXT PRIMARY KEY, generation INTEGER NOT NULL CHECK (generation >= 1), opened_at TEXT NOT NULL DEFAULT CURRENT_TIMESTAMP)",
    "CREATE TABLE IF NOT EXISTS sessions (session_id TEXT PRIMARY KEY, task_id TEXT NOT NULL, next_sequence INTEGER NOT NULL CHECK (next_sequence >= 1), created_at TEXT NOT NULL DEFAULT CURRENT_TIMESTAMP)",
    "CREATE TABLE IF NOT EXISTS task_leases (task_id TEXT PRIMARY KEY, session_id TEXT NOT NULL REFERENCES sessions(session_id), host_id TEXT NOT NULL, generation INTEGER NOT NULL CHECK (generation >= 1), claimed_at TEXT NOT NULL DEFAULT CURRENT_TIMESTAMP)",
    "CREATE TABLE IF NOT EXISTS events (session_id TEXT NOT NULL REFERENCES sessions(session_id), sequence INTEGER NOT NULL CHECK (sequence >= 1), event_id TEXT NOT NULL UNIQUE, event_json TEXT NOT NULL, continuity_critical INTEGER NOT NULL CHECK (continuity_critical IN (0, 1)), PRIMARY KEY (session_id, sequence))",
    "CREATE TABLE IF NOT EXISTS inbox (input_id TEXT PRIMARY KEY, session_id TEXT NOT NULL REFERENCES sessions(session_id), task_id TEXT NOT NULL, input_hash TEXT NOT NULL, raw_text TEXT NOT NULL, event_id TEXT NOT NULL UNIQUE REFERENCES events(event_id), admitted_sequence INTEGER NOT NULL CHECK (admitted_sequence >= 1))",
    "CREATE TABLE IF NOT EXISTS instruction_ledger (instruction_id TEXT PRIMARY KEY, session_id TEXT NOT NULL REFERENCES sessions(session_id), source_event_id TEXT NOT NULL UNIQUE REFERENCES events(event_id), instruction_json TEXT NOT NULL)",
    "CREATE TABLE IF NOT EXISTS task_projections (task_id TEXT PRIMARY KEY, session_id TEXT NOT NULL REFERENCES sessions(session_id), revision INTEGER NOT NULL CHECK (revision >= 1), through_sequence INTEGER NOT NULL CHECK (through_sequence >= 1), working_state_json TEXT NOT NULL)",
    "CREATE TABLE IF NOT EXISTS source_work_markers (marker_id TEXT PRIMARY KEY, session_id TEXT NOT NULL REFERENCES sessions(session_id), task_id TEXT NOT NULL, event_id TEXT NOT NULL REFERENCES events(event_id), sequence INTEGER NOT NULL CHECK (sequence >= 1), marker_json TEXT NOT NULL)",
    "CREATE TABLE IF NOT EXISTS snapshots (snapshot_id TEXT PRIMARY KEY, session_id TEXT NOT NULL REFERENCES sessions(session_id), task_id TEXT NOT NULL, through_sequence INTEGER NOT NULL CHECK (through_sequence >= 1), schema_version INTEGER NOT NULL CHECK (schema_version >= 1), snapshot_json TEXT NOT NULL, content_hash TEXT NOT NULL, created_at TEXT NOT NULL DEFAULT CURRENT_TIMESTAMP)",
    "CREATE INDEX IF NOT EXISTS snapshots_by_session_sequence ON snapshots(session_id, through_sequence DESC)",
    "CREATE TABLE IF NOT EXISTS artifacts (artifact_id TEXT PRIMARY KEY, content_hash TEXT NOT NULL, byte_len INTEGER NOT NULL CHECK (byte_len >= 0), relative_path TEXT NOT NULL UNIQUE)",
    "CREATE TABLE IF NOT EXISTS receipts (tool_execution_id TEXT PRIMARY KEY, session_id TEXT NOT NULL REFERENCES sessions(session_id), task_id TEXT NOT NULL, event_id TEXT NOT NULL UNIQUE REFERENCES events(event_id), sequence INTEGER NOT NULL CHECK (sequence >= 1), receipt_json TEXT NOT NULL, artifact_id TEXT REFERENCES artifacts(artifact_id))",
    "CREATE TABLE IF NOT EXISTS plugin_manifests (instance_id TEXT PRIMARY KEY, generation INTEGER NOT NULL CHECK (generation >= 1), manifest_json TEXT NOT NULL)",
];

/// What a run leaves: commands, packets, requests, runs, budgets, questions, schedules,
/// external jobs, notifications, leases, history and notes.
pub const RUNTIME_TABLES: [&'static str; 26] = [
    "CREATE TABLE IF NOT EXISTS runtime_schema_migrations (version INTEGER PRIMARY KEY, applied_at TEXT NOT NULL DEFAULT CURRENT_TIMESTAMP)",
    "CREATE TABLE IF NOT EXISTS runtime_commands (command_id TEXT PRIMARY KEY, session_id TEXT NOT NULL, task_id TEXT NOT NULL, state TEXT NOT NULL, attempts INTEGER NOT NULL, owner_generation INTEGER NOT NULL, payload_json TEXT NOT NULL, last_error TEXT)",
    "CREATE TABLE IF NOT EXISTS agent_states (agent_run_id TEXT PRIMARY KEY, session_id TEXT NOT NULL, task_id TEXT NOT NULL, state TEXT NOT NULL, generation INTEGER NOT NULL, revision INTEGER NOT NULL, detail_json TEXT NOT NULL)",
    "CREATE TABLE IF NOT EXISTS composition_snapshots (snapshot_id TEXT PRIMARY KEY, session_id TEXT NOT NULL, task_id TEXT NOT NULL, revision INTEGER NOT NULL, content_json TEXT NOT NULL, content_hash TEXT NOT NULL)",
    "CREATE TABLE IF NOT EXISTS context_checkpoints (checkpoint_id TEXT PRIMARY KEY, session_id TEXT NOT NULL, task_id TEXT NOT NULL, through_sequence INTEGER NOT NULL, revision INTEGER NOT NULL, content_json TEXT NOT NULL, content_hash TEXT NOT NULL)",
    "CREATE TABLE IF NOT EXISTS context_packets (packet_id TEXT PRIMARY KEY, session_id TEXT NOT NULL, task_id TEXT NOT NULL, packet_json TEXT NOT NULL, composition_snapshot_id TEXT, omitted_json TEXT NOT NULL, degradation TEXT)",
    "CREATE TABLE IF NOT EXISTS frozen_requests (request_id TEXT PRIMARY KEY, packet_id TEXT NOT NULL, composition_snapshot_id TEXT, session_id TEXT NOT NULL, task_id TEXT NOT NULL, request_json TEXT NOT NULL, content_hash TEXT NOT NULL, provider_id TEXT NOT NULL, model TEXT NOT NULL, config_revision INTEGER NOT NULL)",
    "CREATE TABLE IF NOT EXISTS provider_attempts (attempt_id TEXT PRIMARY KEY, request_id TEXT NOT NULL, session_id TEXT NOT NULL, task_id TEXT NOT NULL, attempt_number INTEGER NOT NULL, state TEXT NOT NULL, events_json TEXT NOT NULL, response_hash TEXT, error TEXT)",
    "CREATE TABLE IF NOT EXISTS session_lineage (new_session_id TEXT PRIMARY KEY, source_session_id TEXT NOT NULL, task_id TEXT NOT NULL, fork_policy TEXT)",
    "CREATE TABLE IF NOT EXISTS runs (run_id TEXT PRIMARY KEY, session_id TEXT NOT NULL, task_id TEXT NOT NULL, input_id TEXT NOT NULL UNIQUE, state TEXT NOT NULL, acceptance TEXT, stop_reason TEXT, owner_generation INTEGER NOT NULL, revision INTEGER NOT NULL, budget_id TEXT, awaiting_question_id TEXT)",
    "CREATE TABLE IF NOT EXISTS run_steps (step_id TEXT PRIMARY KEY, run_id TEXT NOT NULL REFERENCES runs(run_id), step_index INTEGER NOT NULL, request_id TEXT NOT NULL, packet_id TEXT NOT NULL, manifest_hash TEXT NOT NULL, source_sequence INTEGER NOT NULL, state TEXT NOT NULL, stop_reason TEXT, UNIQUE (run_id, step_index))",
    "CREATE TABLE IF NOT EXISTS budget_accounts (budget_id TEXT PRIMARY KEY, parent_budget_id TEXT, limit_tokens INTEGER NOT NULL, spent_tokens INTEGER NOT NULL, revision INTEGER NOT NULL)",
    "CREATE TABLE IF NOT EXISTS budget_reservations (reservation_id TEXT PRIMARY KEY, budget_id TEXT NOT NULL, operation_id TEXT NOT NULL UNIQUE, origin TEXT NOT NULL, upper_bound_tokens INTEGER NOT NULL, settled_tokens INTEGER, state TEXT NOT NULL, revision INTEGER NOT NULL, created_at_unix_ms INTEGER NOT NULL DEFAULT 0, settled_at_unix_ms INTEGER)",
    "CREATE TABLE IF NOT EXISTS questions (question_id TEXT PRIMARY KEY, scope_key TEXT NOT NULL UNIQUE, session_id TEXT NOT NULL, task_id TEXT NOT NULL, run_id TEXT, kind TEXT NOT NULL, prompt TEXT NOT NULL, payload_json TEXT NOT NULL, state TEXT NOT NULL, answer_json TEXT, answer_hash TEXT, answered_by TEXT, expires_at_unix_ms INTEGER, created_at_unix_ms INTEGER NOT NULL, answered_at_unix_ms INTEGER)",
    "CREATE TABLE IF NOT EXISTS run_commands (command_id TEXT PRIMARY KEY, run_id TEXT NOT NULL, session_id TEXT NOT NULL, task_id TEXT NOT NULL, kind TEXT NOT NULL, state TEXT NOT NULL, payload_json TEXT NOT NULL, detail TEXT, created_at_unix_ms INTEGER NOT NULL, claimed_at_unix_ms INTEGER, applied_at_unix_ms INTEGER)",
    "CREATE TABLE IF NOT EXISTS schedules (schedule_id TEXT PRIMARY KEY, title TEXT NOT NULL, state TEXT NOT NULL, revision INTEGER NOT NULL, next_due_unix_ms INTEGER NOT NULL, spec_json TEXT NOT NULL, grants_json TEXT NOT NULL, created_at_unix_ms INTEGER NOT NULL, updated_at_unix_ms INTEGER NOT NULL)",
    "CREATE TABLE IF NOT EXISTS schedule_occurrences (occurrence_key TEXT PRIMARY KEY, schedule_id TEXT NOT NULL REFERENCES schedules(schedule_id), revision INTEGER NOT NULL, due_unix_ms INTEGER NOT NULL, claimed_at_unix_ms INTEGER NOT NULL, state TEXT NOT NULL, trigger_kind TEXT NOT NULL, UNIQUE (schedule_id, revision, due_unix_ms))",
    "CREATE TABLE IF NOT EXISTS schedule_approvals (approval_id TEXT PRIMARY KEY, occurrence_key TEXT NOT NULL UNIQUE, schedule_id TEXT NOT NULL, revision INTEGER NOT NULL, state TEXT NOT NULL, prompt TEXT NOT NULL, requested_at_unix_ms INTEGER NOT NULL, expires_at_unix_ms INTEGER NOT NULL, decided_at_unix_ms INTEGER, decided_by TEXT, reason TEXT)",
    "CREATE TABLE IF NOT EXISTS external_jobs (job_id TEXT PRIMARY KEY, parent_task_id TEXT NOT NULL, session_id TEXT NOT NULL, server_id TEXT NOT NULL, operation TEXT NOT NULL, request_json TEXT NOT NULL, request_digest TEXT NOT NULL, remote_task_id TEXT, state TEXT NOT NULL, attempt INTEGER NOT NULL, poll_interval_ms INTEGER, next_poll_unix_ms INTEGER NOT NULL, deadline_unix_ms INTEGER NOT NULL, submitted_at_unix_ms INTEGER NOT NULL, updated_at_unix_ms INTEGER NOT NULL, settled_at_unix_ms INTEGER, outcome_json TEXT, outcome_digest TEXT, remote_state TEXT, ambiguity TEXT, delivery_message_id TEXT)",
    "CREATE UNIQUE INDEX IF NOT EXISTS external_jobs_open_request ON external_jobs(server_id, request_digest) WHERE settled_at_unix_ms IS NULL",
    "CREATE TABLE IF NOT EXISTS external_job_polls (poll_id INTEGER PRIMARY KEY, job_id TEXT NOT NULL REFERENCES external_jobs(job_id), polled_at_unix_ms INTEGER NOT NULL, observed_state TEXT NOT NULL, outcome TEXT NOT NULL)",
    "CREATE TABLE IF NOT EXISTS notification_outbox (notification_id TEXT PRIMARY KEY, subject_kind TEXT NOT NULL, subject_id TEXT NOT NULL, change_digest TEXT NOT NULL, kind TEXT NOT NULL, payload_json TEXT NOT NULL, state TEXT NOT NULL, attempts INTEGER NOT NULL, next_attempt_unix_ms INTEGER NOT NULL, created_at_unix_ms INTEGER NOT NULL, updated_at_unix_ms INTEGER NOT NULL, delivered_at_unix_ms INTEGER, detail TEXT, UNIQUE (subject_kind, subject_id, change_digest))",
    "CREATE TABLE IF NOT EXISTS backend_leases (lease_id TEXT PRIMARY KEY, owner_generation INTEGER NOT NULL, host_id TEXT NOT NULL, session_id TEXT NOT NULL, task_id TEXT NOT NULL, tool_execution_id TEXT NOT NULL, backend TEXT NOT NULL, profile TEXT NOT NULL, pid INTEGER, lock_path TEXT NOT NULL, state TEXT NOT NULL, enforced_json TEXT NOT NULL, not_claimed_json TEXT NOT NULL, artifact_id TEXT, artifact_digest TEXT, created_at_unix_ms INTEGER NOT NULL, heartbeat_at_unix_ms INTEGER NOT NULL, released_at_unix_ms INTEGER, recovery_json TEXT, UNIQUE (host_id, tool_execution_id))",
    "CREATE TABLE IF NOT EXISTS history_sources (source_id TEXT PRIMARY KEY, session_id TEXT NOT NULL, task_id TEXT NOT NULL, project_id TEXT NOT NULL, sequence INTEGER NOT NULL, kind TEXT NOT NULL, content TEXT NOT NULL, content_hash TEXT NOT NULL, availability TEXT NOT NULL)",
    "CREATE TABLE IF NOT EXISTS history_terms (term TEXT NOT NULL, source_id TEXT NOT NULL, PRIMARY KEY (term, source_id))",
    "CREATE TABLE IF NOT EXISTS session_notes (note_id TEXT PRIMARY KEY, task_id TEXT NOT NULL, session_id TEXT NOT NULL, note_key TEXT NOT NULL, revision INTEGER NOT NULL, content TEXT NOT NULL, sources_json TEXT NOT NULL, authority TEXT NOT NULL, updated_at TEXT NOT NULL DEFAULT CURRENT_TIMESTAMP, UNIQUE (task_id, note_key))",
];

/// Approvals, intents, project roots and artifact scopes.
pub const TOOLS_TABLES: [&'static str; 7] = [
    "CREATE TABLE IF NOT EXISTS tools_schema_migrations (version INTEGER PRIMARY KEY, applied_at TEXT NOT NULL DEFAULT CURRENT_TIMESTAMP)",
    "CREATE TABLE IF NOT EXISTS tool_approvals (approval_id TEXT PRIMARY KEY, actor_id TEXT NOT NULL, binding_hash TEXT NOT NULL, action_hash TEXT NOT NULL, workspace_root TEXT NOT NULL, workspace_fingerprint TEXT NOT NULL, policy_revision INTEGER NOT NULL, tool_revision INTEGER NOT NULL, expires_at_unix_ms INTEGER, state TEXT NOT NULL, approval_json TEXT NOT NULL, consumed_by TEXT, revoked_reason TEXT)",
    "CREATE TABLE IF NOT EXISTS tool_intents (tool_execution_id TEXT PRIMARY KEY, session_id TEXT NOT NULL REFERENCES sessions(session_id), task_id TEXT NOT NULL, invocation_id TEXT NOT NULL, actor_id TEXT NOT NULL, tool_name TEXT NOT NULL, action_json TEXT NOT NULL, action_hash TEXT NOT NULL, workspace_root TEXT NOT NULL, workspace_fingerprint TEXT NOT NULL, before_fingerprint TEXT, policy_revision INTEGER NOT NULL, tool_revision INTEGER NOT NULL, approval_id TEXT NOT NULL REFERENCES tool_approvals(approval_id), status TEXT NOT NULL, intent_sequence INTEGER NOT NULL, intent_event_id TEXT NOT NULL REFERENCES events(event_id), settlement_receipt_id TEXT)",
    "CREATE INDEX IF NOT EXISTS tool_intents_by_session_status ON tool_intents(session_id, status, intent_sequence)",
    "CREATE TABLE IF NOT EXISTS project_registrations (project_id TEXT NOT NULL, canonical_root TEXT NOT NULL UNIQUE, git_common_dir TEXT, identity_hash TEXT NOT NULL, PRIMARY KEY(project_id, canonical_root))",
    "CREATE INDEX IF NOT EXISTS project_registrations_by_project ON project_registrations(project_id)",
    "CREATE TABLE IF NOT EXISTS tool_artifact_scopes (artifact_id TEXT PRIMARY KEY REFERENCES artifacts(artifact_id), project_id TEXT NOT NULL, task_id TEXT NOT NULL, tool_execution_id TEXT NOT NULL UNIQUE REFERENCES tool_intents(tool_execution_id))",
];

/// Memory: assets, versions, grants, sources, jobs and the search index.
pub const MEMORY_TABLES: [&'static str; 23] = [
    "CREATE TABLE IF NOT EXISTS memory_revision (id INTEGER PRIMARY KEY CHECK(id = 1), revision INTEGER NOT NULL)",
    "INSERT OR IGNORE INTO memory_revision VALUES (1, 1)",
    "CREATE TABLE IF NOT EXISTS memory_invalidations (id INTEGER PRIMARY KEY, memory_asset_id TEXT NOT NULL, reason TEXT NOT NULL, created_at TEXT NOT NULL DEFAULT CURRENT_TIMESTAMP)",
    "CREATE TABLE IF NOT EXISTS memory_schema_migrations (version INTEGER PRIMARY KEY, applied_at TEXT NOT NULL DEFAULT CURRENT_TIMESTAMP)",
    "CREATE TABLE IF NOT EXISTS memory_assets (memory_asset_id TEXT PRIMARY KEY, owner_id TEXT NOT NULL, project_id TEXT, task_id TEXT, agent_profile_id TEXT, session_id TEXT, scope TEXT NOT NULL, layer TEXT NOT NULL, status TEXT NOT NULL, current_version INTEGER NOT NULL CHECK (current_version >= 1), asset_json TEXT NOT NULL, revision INTEGER NOT NULL CHECK (revision >= 1), created_at TEXT NOT NULL DEFAULT CURRENT_TIMESTAMP, updated_at TEXT NOT NULL DEFAULT CURRENT_TIMESTAMP)",
    "CREATE TABLE IF NOT EXISTS memory_versions (memory_asset_id TEXT NOT NULL REFERENCES memory_assets(memory_asset_id), version INTEGER NOT NULL CHECK (version >= 1), content TEXT NOT NULL, normalized_content TEXT NOT NULL, content_hash TEXT NOT NULL, version_json TEXT NOT NULL, strategy_digest TEXT, created_at TEXT NOT NULL DEFAULT CURRENT_TIMESTAMP, PRIMARY KEY (memory_asset_id, version))",
    "CREATE TABLE IF NOT EXISTS memory_grants (principal_id TEXT NOT NULL, memory_asset_id TEXT NOT NULL REFERENCES memory_assets(memory_asset_id), project_id TEXT, actions_json TEXT NOT NULL, revision INTEGER NOT NULL CHECK (revision >= 1), active INTEGER NOT NULL CHECK (active IN (0, 1)), PRIMARY KEY (principal_id, memory_asset_id))",
    "CREATE TABLE IF NOT EXISTS memory_bindings (binding_id TEXT PRIMARY KEY, memory_asset_id TEXT NOT NULL REFERENCES memory_assets(memory_asset_id), principal_id TEXT NOT NULL, injection_mode TEXT NOT NULL, priority INTEGER NOT NULL, revision INTEGER NOT NULL CHECK (revision >= 1))",
    "CREATE INDEX IF NOT EXISTS memory_bindings_by_principal ON memory_bindings(principal_id)",
    "CREATE INDEX IF NOT EXISTS memory_versions_by_normalized ON memory_versions(normalized_content)",
    "CREATE TABLE IF NOT EXISTS memory_dependencies (derived_asset_id TEXT NOT NULL, derived_version INTEGER NOT NULL, source_kind TEXT NOT NULL, source_id TEXT NOT NULL, source_version INTEGER, PRIMARY KEY (derived_asset_id, derived_version, source_kind, source_id))",
    "CREATE TABLE IF NOT EXISTS memory_sources (derived_asset_id TEXT NOT NULL, derived_version INTEGER NOT NULL CHECK (derived_version >= 1), source_kind TEXT NOT NULL, source_id TEXT NOT NULL, observed_digest TEXT, source_version INTEGER, scope_project_id TEXT, created_at TEXT NOT NULL DEFAULT CURRENT_TIMESTAMP, PRIMARY KEY (derived_asset_id, derived_version, source_kind, source_id))",
    "CREATE INDEX IF NOT EXISTS memory_sources_by_source ON memory_sources(source_kind, source_id)",
    "CREATE INDEX IF NOT EXISTS memory_sources_by_asset ON memory_sources(derived_asset_id, derived_version)",
    "CREATE TABLE IF NOT EXISTS memory_jobs (job_id TEXT PRIMARY KEY, source_stream TEXT NOT NULL, start_sequence INTEGER NOT NULL CHECK (start_sequence >= 1), end_sequence INTEGER NOT NULL CHECK (end_sequence >= start_sequence), source_digest TEXT NOT NULL, source_ids_json TEXT NOT NULL, extractor_version TEXT NOT NULL, strategy_digest TEXT NOT NULL, status TEXT NOT NULL, attempts INTEGER NOT NULL DEFAULT 0, lease_owner TEXT, lease_generation INTEGER NOT NULL DEFAULT 0, next_due_unix_ms INTEGER NOT NULL DEFAULT 0, last_error TEXT, disposition TEXT, UNIQUE (source_stream, start_sequence, end_sequence, extractor_version, strategy_digest))",
    "CREATE TABLE IF NOT EXISTS extraction_cursors (source_stream TEXT NOT NULL, extractor_version TEXT NOT NULL, strategy_digest TEXT NOT NULL, contiguous_sequence INTEGER NOT NULL CHECK (contiguous_sequence >= 0), revision INTEGER NOT NULL CHECK (revision >= 1), PRIMARY KEY (source_stream, extractor_version, strategy_digest))",
    "CREATE VIRTUAL TABLE IF NOT EXISTS memory_fts USING fts5(memory_asset_id UNINDEXED, version UNINDEXED, content, normalized_content, tokenize = 'unicode61 remove_diacritics 2')",
    "CREATE TRIGGER IF NOT EXISTS memory_asset_insert_revision AFTER INSERT ON memory_assets BEGIN UPDATE memory_revision SET revision = revision + 1; END",
    "CREATE TRIGGER IF NOT EXISTS memory_asset_update_revision AFTER UPDATE ON memory_assets BEGIN UPDATE memory_revision SET revision = revision + 1; END",
    "CREATE TRIGGER IF NOT EXISTS memory_grant_insert_revision AFTER INSERT ON memory_grants BEGIN UPDATE memory_revision SET revision = revision + 1; END",
    "CREATE TRIGGER IF NOT EXISTS memory_grant_update_revision AFTER UPDATE ON memory_grants BEGIN UPDATE memory_revision SET revision = revision + 1; END",
    "CREATE TRIGGER IF NOT EXISTS memory_binding_insert_revision AFTER INSERT ON memory_bindings BEGIN UPDATE memory_revision SET revision = revision + 1; END",
    "CREATE TRIGGER IF NOT EXISTS memory_binding_update_revision AFTER UPDATE ON memory_bindings BEGIN UPDATE memory_revision SET revision = revision + 1; END",
];

/// Delegated tasks, their owners, reports, messages and workspaces.
pub const DELEGATION_TABLES: [&'static str; 14] = [
    "CREATE TABLE IF NOT EXISTS delegation_schema_migrations (version INTEGER PRIMARY KEY, applied_at TEXT NOT NULL DEFAULT CURRENT_TIMESTAMP)",
    "CREATE TABLE IF NOT EXISTS delegation_tasks (task_id TEXT PRIMARY KEY, parent_task_id TEXT, role TEXT NOT NULL, status TEXT NOT NULL CHECK (status IN ('pending','ready','running','blocked','completed','failed','canceled')), revision INTEGER NOT NULL CHECK (revision >= 1), depth INTEGER NOT NULL CHECK (depth >= 0), brief_json TEXT NOT NULL, node_json TEXT NOT NULL, created_at TEXT NOT NULL DEFAULT CURRENT_TIMESTAMP, updated_at TEXT NOT NULL DEFAULT CURRENT_TIMESTAMP)",
    "CREATE INDEX IF NOT EXISTS delegation_tasks_by_status ON delegation_tasks(status, depth)",
    "CREATE TABLE IF NOT EXISTS delegation_task_dependencies (task_id TEXT NOT NULL REFERENCES delegation_tasks(task_id), depends_on_task_id TEXT NOT NULL, PRIMARY KEY (task_id, depends_on_task_id))",
    "CREATE TABLE IF NOT EXISTS delegation_task_owners (task_id TEXT PRIMARY KEY REFERENCES delegation_tasks(task_id), owner_run_id TEXT NOT NULL, owner_session_id TEXT NOT NULL, role TEXT NOT NULL, generation INTEGER NOT NULL CHECK (generation >= 1), lease_revision INTEGER NOT NULL CHECK (lease_revision >= 1), claimed_at TEXT NOT NULL DEFAULT CURRENT_TIMESTAMP)",
    "CREATE TABLE IF NOT EXISTS delegation_results (result_id TEXT PRIMARY KEY, task_id TEXT NOT NULL REFERENCES delegation_tasks(task_id), worker_run_id TEXT NOT NULL, outcome TEXT NOT NULL, base_revision TEXT NOT NULL, result_revision TEXT NOT NULL, artifact_refs_json TEXT NOT NULL, report_json TEXT NOT NULL, result_hash TEXT NOT NULL, created_at TEXT NOT NULL DEFAULT CURRENT_TIMESTAMP)",
    "CREATE INDEX IF NOT EXISTS delegation_results_by_task ON delegation_results(task_id)",
    "CREATE TABLE IF NOT EXISTS message_deliveries (message_id TEXT PRIMARY KEY, sender_task_id TEXT NOT NULL, recipient_task_id TEXT NOT NULL, recipient_session_id TEXT NOT NULL, result_id TEXT, payload_hash TEXT NOT NULL, payload_json TEXT NOT NULL, state TEXT NOT NULL CHECK (state IN ('pending','consumed')), consumed_by TEXT, attempts INTEGER NOT NULL DEFAULT 0, created_at TEXT NOT NULL DEFAULT CURRENT_TIMESTAMP)",
    "CREATE INDEX IF NOT EXISTS message_deliveries_by_recipient ON message_deliveries(recipient_task_id, state)",
    "CREATE TABLE IF NOT EXISTS delegation_budget_usage (task_id TEXT PRIMARY KEY REFERENCES delegation_tasks(task_id), model_requests INTEGER NOT NULL DEFAULT 0 CHECK (model_requests >= 0), retries INTEGER NOT NULL DEFAULT 0 CHECK (retries >= 0), cost_units INTEGER NOT NULL DEFAULT 0 CHECK (cost_units >= 0))",
    "CREATE TABLE IF NOT EXISTS delegation_worktrees (worktree_id TEXT PRIMARY KEY, task_id TEXT NOT NULL, run_id TEXT NOT NULL, project_id TEXT NOT NULL, base_commit TEXT NOT NULL, base_branch TEXT NOT NULL, branch TEXT NOT NULL UNIQUE, path TEXT NOT NULL, write_scope_json TEXT NOT NULL, state TEXT NOT NULL, input_fingerprint TEXT NOT NULL, result_fingerprint TEXT, generation INTEGER NOT NULL CHECK (generation >= 1), created_at TEXT NOT NULL DEFAULT CURRENT_TIMESTAMP)",
    "CREATE INDEX IF NOT EXISTS delegation_worktrees_by_project ON delegation_worktrees(project_id, state)",
    "CREATE TABLE IF NOT EXISTS delegation_integrations (integration_id TEXT PRIMARY KEY, project_id TEXT NOT NULL, base_commit TEXT NOT NULL, final_commit TEXT NOT NULL, final_fingerprint TEXT NOT NULL, report_json TEXT NOT NULL, created_at TEXT NOT NULL DEFAULT CURRENT_TIMESTAMP)",
    "CREATE TABLE IF NOT EXISTS delegation_memory_bindings (binding_id TEXT PRIMARY KEY, task_id TEXT NOT NULL, agent_profile_id TEXT NOT NULL, memory_asset_id TEXT NOT NULL, version INTEGER NOT NULL CHECK (version >= 1), injection_mode TEXT NOT NULL, priority INTEGER NOT NULL, actions_json TEXT NOT NULL, revision INTEGER NOT NULL CHECK (revision >= 1), logged_at TEXT NOT NULL DEFAULT CURRENT_TIMESTAMP)",
];

/// Tombstones, the maintenance journal and pins.
pub const MAINTENANCE_TABLES: [&'static str; 5] = [
    "CREATE TABLE IF NOT EXISTS maintenance_schema_migrations (version INTEGER PRIMARY KEY, applied_at TEXT NOT NULL DEFAULT CURRENT_TIMESTAMP)",
    "CREATE TABLE IF NOT EXISTS maintenance_tombstones (tombstone_id TEXT PRIMARY KEY, source_kind TEXT NOT NULL, source_id TEXT NOT NULL, reason TEXT NOT NULL, surviving_copies_json TEXT NOT NULL, created_unix_ms INTEGER NOT NULL, UNIQUE (source_kind, source_id))",
    "CREATE INDEX IF NOT EXISTS maintenance_tombstones_by_source ON maintenance_tombstones(source_kind, source_id)",
    "CREATE TABLE IF NOT EXISTS maintenance_journal (entry_id TEXT PRIMARY KEY, action TEXT NOT NULL, target TEXT NOT NULL, detail_json TEXT NOT NULL, created_unix_ms INTEGER NOT NULL)",
    "CREATE TABLE IF NOT EXISTS maintenance_pins (artifact_id TEXT NOT NULL, reason TEXT NOT NULL, task_id TEXT, created_unix_ms INTEGER NOT NULL, PRIMARY KEY (artifact_id, reason))",
];

} // verus!

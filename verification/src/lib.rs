//! The rules of a durable session store that is kept in SQLite.
//!
//! Every operation of the store is one transaction: it reads rows, decides, and
//! writes. This library is the deciding. Each decision takes the request and the
//! rows that were read, and says what is written or which error the caller gets.
//! Reading and writing are left to whoever holds the database.

pub mod backend_leases;
pub mod backoff;
pub mod budgets;
pub mod columns;
pub mod delegation;
pub mod error;
pub mod external_jobs;
pub mod extraction;
pub mod graph;
pub mod history;
pub mod journal;
pub mod json;
pub mod lineage;
pub mod listing;
pub mod maintenance;
pub mod memory;
pub mod models;
pub mod notifications;
pub mod order;
pub mod port;
pub mod questions;
pub mod runs;
pub mod runtime;
pub mod schedules;
pub mod schema;
pub mod search;
pub mod seqs;
pub mod sql;
pub mod states;
pub mod terms;
pub mod text;
pub mod tools;

pub use backend_leases::{StoredBackendLease, LEASE_STATES};
pub use budgets::{BudgetAccountRecord, BudgetReservationRecord, BudgetSettlement};
pub use delegation::{
    BudgetUsageRecord, DeliveryCommit, MemoryBindingRow, ParentDeliveryRecord,
    StoredDelegatedResultRecord, StoredTaskNodeRecord, TaskAdmission, TaskOwnerRecord,
    WorktreeRecordRow,
};
pub use error::{ErrorCode, HarnessError, StoreError};
pub use external_jobs::{
    external_job_delivery_id, ExternalJobSettlement, RecoveredExternalJobs, StoredExternalJob,
    StoredExternalJobPoll, EXTERNAL_JOB_STATES, EXTERNAL_JOB_TERMINAL_STATES,
};
pub use extraction::{SourceWorkRange, StoredExtractionJobRecord, StoredExtractionLeaseRecord};
pub use history::{HistoryHit, HistoryPage, HistoryScope, HistorySource, NoteRecord};
pub use journal::{
    AdmissionAck, AdmissionCommit, HostFence, PublishedArtifact, ReceiptAck, ReceiptCommit,
    SourceWorkMarker,
};
pub use lineage::{MemorySourceForget, MemorySourceRetentionUpdate};
pub use maintenance::TombstoneRow;
pub use memory::{
    MemoryCreateCommit, MemorySourceRecord, MemoryVersionCommit, RefreshSource,
    StoreMemoryPrincipal, StoredMemoryAssetRecord, StoredMemoryGrantRecord,
    StoredMemoryVersionRecord,
};
pub use models::{
    DataDirectoryMarker, StoreDiagnostics, StoreFaultPlan, StoreFaultPoint, StorePaths,
    WriterOpenOptions,
};
pub use notifications::{
    notification_backoff_ms, OutboxCounts, StoredNotification, NOTIFICATION_BACKOFF_MS,
    NOTIFICATION_MAX_ATTEMPTS, NOTIFICATION_MAX_BACKOFF_MS, NOTIFICATION_STATES,
};
pub use questions::{QuestionAnswer, QuestionOutcome, QuestionRecord, RunCommandRecord};
pub use runs::{RunRecord, RunStepRecord};
pub use runtime::{
    AgentStateRecord, CompositionSnapshotRecord, ContextCheckpointRecord, ContextPacketRecord,
    ContinuationLinkRecord, FrozenRequestRecord, PersistedPluginManifest, ProviderAttemptRecord,
    RuntimeCommandRecord, SessionSummary, SnapshotRecord,
};
pub use schedules::{
    StoredApproval, StoredOccurrenceRecord, StoredScheduleRecord, APPROVAL_STATES,
};
pub use states::{
    BudgetReservationState, QuestionState, RunCommandKind, RunCommandState, RunState,
    RuntimeCommandState, SourceAvailability, ToolApprovalState, ToolIntentStatus,
};
pub use terms::history_terms;
pub use tools::{
    ProjectRegistrationRecord, ToolApprovalBinding, ToolApprovalRecord, ToolIntentCommit,
    ToolIntentRecord, ToolSettlementCommit, ToolTaskUpdateCommit,
};

use harness_store_sqlite::error::ErrorCode;
use harness_store_sqlite::models::{
    open_marker, schema_step, upgrade_revisions, DataDirectoryMarker, StoreDiagnostics, StoreFaultPlan,
    StoreFaultPoint, StorePaths, WriterOpenOptions, DATA_DIRECTORY_FORMAT_VERSION,
    DATA_DIRECTORY_KIND, MEMORY_SCHEMA_VERSION, STORE_SCHEMA_VERSION,
};
use harness_store_sqlite::states::{
    BudgetReservationState, QuestionState, RunCommandKind, RunCommandState, RunState,
    RuntimeCommandState, SourceAvailability, ToolApprovalState, ToolIntentStatus,
};
use std::path::PathBuf;

#[test]
fn data_directory_marker_accepts_the_current_format_only() {
    DataDirectoryMarker::current()
        .validate()
        .expect("the current marker is valid");

    let newer_format = DataDirectoryMarker {
        schema_version: DATA_DIRECTORY_FORMAT_VERSION + 1,
        kind: DATA_DIRECTORY_KIND.to_owned(),
        store_schema_version: STORE_SCHEMA_VERSION,
    };
    assert_eq!(
        newer_format
            .validate()
            .expect_err("a newer format is refused")
            .code(),
        ErrorCode::SchemaVersionMismatch
    );

    let newer_store = DataDirectoryMarker {
        schema_version: DATA_DIRECTORY_FORMAT_VERSION,
        kind: DATA_DIRECTORY_KIND.to_owned(),
        store_schema_version: STORE_SCHEMA_VERSION + 1,
    };
    assert_eq!(
        newer_store
            .validate()
            .expect_err("a newer store schema is refused")
            .code(),
        ErrorCode::SchemaVersionMismatch
    );

    let foreign = DataDirectoryMarker {
        schema_version: DATA_DIRECTORY_FORMAT_VERSION,
        kind: "some-other-tool".to_owned(),
        store_schema_version: STORE_SCHEMA_VERSION,
    };
    assert_eq!(
        foreign
            .validate()
            .expect_err("a foreign marker is refused")
            .code(),
        ErrorCode::MigrationFailed
    );
}

#[test]
fn marker_messages_name_what_was_found() {
    let newer = DataDirectoryMarker {
        schema_version: 12,
        kind: "harness-data".to_owned(),
        store_schema_version: 1,
    };
    assert_eq!(
        newer.validate().expect_err("newer").message(),
        "data directory format 12 is newer than this host supports (1)"
    );
    let store = DataDirectoryMarker {
        schema_version: 1,
        kind: "harness-data".to_owned(),
        store_schema_version: 305,
    };
    assert_eq!(
        store.validate().expect_err("newer").message(),
        "data directory store schema 305 is newer than this host supports (1)"
    );
    let foreign = DataDirectoryMarker {
        schema_version: 9,
        kind: "other".to_owned(),
        store_schema_version: 9,
    };
    assert_eq!(
        foreign.validate().expect_err("foreign").message(),
        "data directory marker is not a harness-data marker: other"
    );
}

#[test]
fn older_markers_are_accepted() {
    let older = DataDirectoryMarker {
        schema_version: 0,
        kind: "harness-data".to_owned(),
        store_schema_version: -3,
    };
    assert!(older.validate().is_ok());
}

#[test]
fn paths_sit_in_the_data_directory() {
    let base = PathBuf::from("data").join("host");
    let paths = StorePaths::new(base.clone());
    assert_eq!(paths.data_dir, base);
    assert_eq!(paths.database_path, base.join("harness.sqlite3"));
    assert_eq!(paths.artifact_dir, base.join("artifacts"));
    assert_eq!(paths.writer_lock_path, base.join("writer.lock"));
    assert_eq!(paths.marker_path(), base.join("harness-data.json"));
}

#[test]
fn paths_follow_from_the_database_file() {
    let base = PathBuf::from("data").join("host");
    let paths = StorePaths::from_database_path(&base.join("other.sqlite3")).expect("has a parent");
    assert_eq!(paths, StorePaths::new(base));
    assert_eq!(StorePaths::from_database_path(&paths.database_path), Some(paths.clone()));
    for base in ["", "/", "data/", "data/..", "."] {
        let paths = StorePaths::new(PathBuf::from(base));
        assert_eq!(StorePaths::from_database_path(&paths.database_path), Some(paths));
    }
    assert!(StorePaths::from_database_path(&PathBuf::new()).is_none());
    assert!(StorePaths::from_database_path(&PathBuf::from("/")).is_none());
}

#[test]
fn armed_failures_fire_once() {
    let mut plan = StoreFaultPlan::with_point(StoreFaultPoint::BeforeReceiptCommit);
    plan.arm(StoreFaultPoint::BeforeSnapshotCommit);
    plan.arm(StoreFaultPoint::BeforeSnapshotCommit);
    assert!(!plan.consume(StoreFaultPoint::BeforeAdmissionCommit));
    assert!(plan.consume(StoreFaultPoint::BeforeSnapshotCommit));
    assert!(!plan.consume(StoreFaultPoint::BeforeSnapshotCommit));
    let error = plan
        .inject(StoreFaultPoint::BeforeReceiptCommit)
        .expect_err("armed");
    assert_eq!(error.code(), ErrorCode::StorageWriteFailed);
    assert_eq!(
        error.message(),
        "injected durable storage failure at BeforeReceiptCommit"
    );
    assert!(plan.inject(StoreFaultPoint::BeforeReceiptCommit).is_ok());
    plan.arm(StoreFaultPoint::BeforeMigrationCommit);
    let error = plan
        .inject_as(
            StoreFaultPoint::BeforeMigrationCommit,
            ErrorCode::MigrationFailed,
            "injected failure before migration commit",
        )
        .expect_err("armed");
    assert_eq!(error.code(), ErrorCode::MigrationFailed);
}

#[test]
fn writer_options_start_without_failures() {
    let options = WriterOpenOptions::new(PathBuf::from("data"), "host".to_owned());
    let mut options =
        options.with_fault_plan(StoreFaultPlan::with_point(StoreFaultPoint::BeforeFreezeStepCommit));
    assert_eq!(options.host_id, "host");
    assert!(options
        .fault_plan
        .consume(StoreFaultPoint::BeforeFreezeStepCommit));
}

#[test]
fn diagnostics_read_the_settings() {
    let on = StoreDiagnostics::from_settings(1, "wal".to_owned(), 2, 5000);
    assert!(on.foreign_keys_enabled);
    assert_eq!(on.busy_timeout_ms, 5000);
    assert!(!StoreDiagnostics::from_settings(0, "wal".to_owned(), 2, 1).foreign_keys_enabled);
}

#[test]
fn schema_revisions_only_go_up() {
    assert!(schema_step(None, 1, "newer").expect("new"));
    assert!(!schema_step(Some(1), 1, "newer").expect("same"));
    let error = schema_step(Some(2), 1, "database schema is newer than this host supports")
        .expect_err("newer");
    assert_eq!(error.code(), ErrorCode::MigrationFailed);
    assert_eq!(
        error.message(),
        "database schema is newer than this host supports"
    );
    assert_eq!(upgrade_revisions(Some(1), 4), vec![2, 3, 4]);
    assert_eq!(upgrade_revisions(Some(1), MEMORY_SCHEMA_VERSION), vec![2]);
    assert!(upgrade_revisions(None, 4).is_empty());
    assert!(upgrade_revisions(Some(4), 4).is_empty());
}

#[test]
fn states_read_back_what_they_write() {
    for state in [
        ToolApprovalState::Active,
        ToolApprovalState::Consumed,
        ToolApprovalState::Revoked,
    ] {
        assert_eq!(ToolApprovalState::parse(state.as_str()), Some(state));
    }
    for state in [
        ToolIntentStatus::Recorded,
        ToolIntentStatus::Settled,
        ToolIntentStatus::OutcomeUnknown,
    ] {
        assert_eq!(ToolIntentStatus::parse(state.as_str()), Some(state));
    }
    for state in [
        RuntimeCommandState::Pending,
        RuntimeCommandState::Claimed,
        RuntimeCommandState::Completed,
        RuntimeCommandState::Canceled,
    ] {
        assert_eq!(RuntimeCommandState::parse(state.as_str()), Some(state));
    }
    for state in [
        RunState::Running,
        RunState::Paused,
        RunState::Completed,
        RunState::Failed,
        RunState::Canceled,
    ] {
        assert_eq!(RunState::parse(state.as_str()), Some(state));
    }
    for state in [
        BudgetReservationState::Reserved,
        BudgetReservationState::Settled,
        BudgetReservationState::Unknown,
        BudgetReservationState::Released,
        BudgetReservationState::Expired,
    ] {
        assert_eq!(BudgetReservationState::parse(state.as_str()), Some(state));
    }
    for state in [
        QuestionState::Open,
        QuestionState::Answered,
        QuestionState::Expired,
        QuestionState::Canceled,
    ] {
        assert_eq!(QuestionState::parse(state.as_str()), Some(state));
    }
    for kind in [RunCommandKind::Steer, RunCommandKind::Cancel] {
        assert_eq!(RunCommandKind::parse(kind.as_str()), Some(kind));
    }
    for state in [
        RunCommandState::Pending,
        RunCommandState::Claimed,
        RunCommandState::Applied,
        RunCommandState::Rejected,
    ] {
        assert_eq!(RunCommandState::parse(state.as_str()), Some(state));
    }
    for state in [SourceAvailability::Available, SourceAvailability::Expired] {
        assert_eq!(SourceAvailability::parse(state.as_str()), Some(state));
    }
    assert_eq!(RunState::parse("Running"), None);
    assert_eq!(
        ToolIntentStatus::OutcomeUnknown.as_str(),
        "outcome_unknown"
    );
    assert_eq!(QuestionState::parse(""), None);
}

#[test]
fn a_directory_is_marked_once() {
    let written = open_marker(&None).expect("unmarked");
    assert_eq!(written, Some(DataDirectoryMarker::current()));
    assert_eq!(open_marker(&written).expect("marked"), None);
    let newer = DataDirectoryMarker {
        store_schema_version: STORE_SCHEMA_VERSION + 1,
        ..DataDirectoryMarker::current()
    };
    let error = open_marker(&Some(newer)).expect_err("newer");
    assert_eq!(error.code(), ErrorCode::SchemaVersionMismatch);
}

//! Where a store keeps its files, what marks its directory, and the failures
//! that can be armed in it.

use crate::error::{answers, fault, ErrorCode, Fault, StoreError};
use crate::text::{cat, cat3, decimal, decimal_text, same_text, signed_decimal, signed_text};
use std::path::PathBuf;
use vstd::prelude::*;

verus! {

pub const STORE_SCHEMA_VERSION: i64 = 1;

pub const RUNTIME_SCHEMA_VERSION: i64 = 2;

pub const TOOLS_SCHEMA_VERSION: i64 = 1;

/// Revision two added the tables that say what a memory was made from.
pub const MEMORY_SCHEMA_VERSION: i64 = 2;

pub const DELEGATION_SCHEMA_VERSION: i64 = 1;

/// The maintenance tables keep their own revision.
pub const MAINTENANCE_SCHEMA_VERSION: i64 = 1;

pub const DATA_DIRECTORY_FORMAT_VERSION: u16 = 1;

pub const DATABASE_FILE_NAME: &'static str = "harness.sqlite3";

pub const ARTIFACT_DIRECTORY_NAME: &'static str = "artifacts";

pub const WRITER_LOCK_FILE_NAME: &'static str = "writer.lock";

pub const DATA_DIRECTORY_MARKER_FILE_NAME: &'static str = "harness-data.json";

pub const DATA_DIRECTORY_KIND: &'static str = "harness-data";

/// A path, as the standard library keeps it.
#[verifier::external_type_specification]
#[verifier::external_body]
pub struct ExPathBuf(std::path::PathBuf);

/// The path that joining a name onto a path gives.
pub uninterp spec fn joined(path: PathBuf, name: Seq<char>) -> PathBuf;

/// The path without its last component, where it has one.
pub uninterp spec fn parent(path: PathBuf) -> Option<PathBuf>;

/// A name that is one component of a path and nothing more, on every platform: it
/// separates nothing, names no drive, and is neither the directory itself nor the one
/// above it.
pub open spec fn is_file_name(name: Seq<char>) -> bool {
    &&& name.len() > 0
    &&& forall|i: int|
        0 <= i < name.len() ==> #[trigger] name[i] != '/' && name[i] != '\\' && name[i] != ':'
    &&& name != seq!['.']
    &&& name != seq!['.', '.']
}

/// `Path::join` with a name: the path with the name adjoined to it, which rests
/// on the two alone. How the two are separated is left to the platform. A plain file
/// name becomes the last component, so the path is the parent of what it was joined
/// to. Paths are one path here where `Path` takes them for equal, which goes by their
/// components: a separator at the end of a path makes no other path of it.
#[verifier::external_body]
fn join(path: &PathBuf, name: &str) -> (result: PathBuf)
    ensures
        result == joined(*path, name@),
        is_file_name(name@) ==> parent(result) == Some(*path),
{
    path.join(name)
}

/// `Path::parent`: the path without its last component, or nothing where the
/// path ends in a root or is empty. It rests on the path alone.
#[verifier::external_body]
fn parent_of(path: &PathBuf) -> (result: Option<PathBuf>)
    ensures
        result == parent(*path),
{
    path.parent().map(|parent| parent.to_owned())
}

proof fn lemma_fixed_names_are_file_names()
    ensures
        is_file_name(DATABASE_FILE_NAME@),
        is_file_name(ARTIFACT_DIRECTORY_NAME@),
        is_file_name(WRITER_LOCK_FILE_NAME@),
        is_file_name(DATA_DIRECTORY_MARKER_FILE_NAME@),
{
    reveal_strlit("harness.sqlite3");
    reveal_strlit("artifacts");
    reveal_strlit("writer.lock");
    reveal_strlit("harness-data.json");
    assert(DATABASE_FILE_NAME@.len() == 15);
    assert(ARTIFACT_DIRECTORY_NAME@.len() == 9);
    assert(WRITER_LOCK_FILE_NAME@.len() == 11);
    assert(DATA_DIRECTORY_MARKER_FILE_NAME@.len() == 17);
}

/// `PathBuf::clone`: a path of its own that is the same path.
pub assume_specification[ <std::path::PathBuf as Clone>::clone ](
    path: &std::path::PathBuf,
) -> (copy: std::path::PathBuf)
    ensures
        copy == *path,
;

/// The files of one data directory.
#[derive(Debug, PartialEq, Eq)]
pub struct StorePaths {
    pub data_dir: PathBuf,
    pub database_path: PathBuf,
    pub artifact_dir: PathBuf,
    pub writer_lock_path: PathBuf,
}

impl Clone for StorePaths {
    fn clone(&self) -> (copy: Self)
        ensures
            copy == *self,
    {
        StorePaths {
            data_dir: self.data_dir.clone(),
            database_path: self.database_path.clone(),
            artifact_dir: self.artifact_dir.clone(),
            writer_lock_path: self.writer_lock_path.clone(),
        }
    }
}

impl StorePaths {
    /// Every file sits in the data directory under its own fixed name, and that
    /// directory is the parent of each.
    pub open spec fn in_directory(self, data_dir: PathBuf) -> bool {
        &&& self.data_dir == data_dir
        &&& self.database_path == joined(data_dir, DATABASE_FILE_NAME@)
        &&& self.artifact_dir == joined(data_dir, ARTIFACT_DIRECTORY_NAME@)
        &&& self.writer_lock_path == joined(data_dir, WRITER_LOCK_FILE_NAME@)
        &&& parent(self.database_path) == Some(data_dir)
        &&& parent(self.artifact_dir) == Some(data_dir)
        &&& parent(self.writer_lock_path) == Some(data_dir)
    }

    #[must_use]
    pub fn new(data_dir: PathBuf) -> (paths: Self)
        ensures
            paths.in_directory(data_dir),
    {
        proof {
            lemma_fixed_names_are_file_names();
        }
        StorePaths {
            database_path: join(&data_dir, DATABASE_FILE_NAME),
            artifact_dir: join(&data_dir, ARTIFACT_DIRECTORY_NAME),
            writer_lock_path: join(&data_dir, WRITER_LOCK_FILE_NAME),
            data_dir,
        }
    }

    #[must_use]
    pub fn marker_path(&self) -> (path: PathBuf)
        ensures
            path == joined(self.data_dir, DATA_DIRECTORY_MARKER_FILE_NAME@),
            parent(path) == Some(self.data_dir),
    {
        proof {
            lemma_fixed_names_are_file_names();
        }
        join(&self.data_dir, DATA_DIRECTORY_MARKER_FILE_NAME)
    }

    /// The files of the directory that a database file sits in.
    #[must_use]
    pub fn from_database_path(path: &PathBuf) -> (paths: Option<Self>)
        ensures
            paths is Some <==> parent(*path) is Some,
            paths is Some ==> paths->Some_0.in_directory(parent(*path)->Some_0),
    {
        match parent_of(path) {
            None => None,
            Some(data_dir) => Some(StorePaths::new(data_dir)),
        }
    }
}

/// The files of a directory are found again from any file in it, the database file
/// first of all: what that file is called is not kept. `path` is a file of the
/// directory, and `found` are the paths that `StorePaths::from_database_path` gives
/// for it.
pub proof fn law_paths_are_found_again(
    data_dir: PathBuf,
    paths: StorePaths,
    path: PathBuf,
    found: StorePaths,
)
    requires
        paths.in_directory(data_dir),
        path == paths.database_path || parent(path) == Some(data_dir),
        parent(path) is Some ==> found.in_directory(parent(path)->Some_0),
    ensures
        parent(path) == Some(data_dir),
        found == paths,
        found.database_path == joined(data_dir, DATABASE_FILE_NAME@),
{
}

/// The points at which a durable write can be made to fail.
#[derive(Clone, Copy, Debug, PartialEq, Eq, Structural)]
pub enum StoreFaultPoint {
    BeforeMigrationCommit,
    BeforeAdmissionCommit,
    BeforeReceiptCommit,
    BeforeSnapshotCommit,
    BeforeToolIntentCommit,
    BeforeToolSettlementCommit,
    BeforeMemorySettlementCommit,
    BeforeDelegationDeliveryCommit,
    BeforeFreezeStepCommit,
    BeforeBudgetSettleCommit,
    BeforeQuestionAnswerCommit,
}

impl StoreFaultPoint {
    /// The point's name, as messages write it.
    pub open spec fn name(self) -> Seq<char> {
        match self {
            StoreFaultPoint::BeforeMigrationCommit => "BeforeMigrationCommit"@,
            StoreFaultPoint::BeforeAdmissionCommit => "BeforeAdmissionCommit"@,
            StoreFaultPoint::BeforeReceiptCommit => "BeforeReceiptCommit"@,
            StoreFaultPoint::BeforeSnapshotCommit => "BeforeSnapshotCommit"@,
            StoreFaultPoint::BeforeToolIntentCommit => "BeforeToolIntentCommit"@,
            StoreFaultPoint::BeforeToolSettlementCommit => "BeforeToolSettlementCommit"@,
            StoreFaultPoint::BeforeMemorySettlementCommit => "BeforeMemorySettlementCommit"@,
            StoreFaultPoint::BeforeDelegationDeliveryCommit => "BeforeDelegationDeliveryCommit"@,
            StoreFaultPoint::BeforeFreezeStepCommit => "BeforeFreezeStepCommit"@,
            StoreFaultPoint::BeforeBudgetSettleCommit => "BeforeBudgetSettleCommit"@,
            StoreFaultPoint::BeforeQuestionAnswerCommit => "BeforeQuestionAnswerCommit"@,
        }
    }

    fn as_str(self) -> (name: &'static str)
        ensures
            name@ == self.name(),
    {
        match self {
            StoreFaultPoint::BeforeMigrationCommit => "BeforeMigrationCommit",
            StoreFaultPoint::BeforeAdmissionCommit => "BeforeAdmissionCommit",
            StoreFaultPoint::BeforeReceiptCommit => "BeforeReceiptCommit",
            StoreFaultPoint::BeforeSnapshotCommit => "BeforeSnapshotCommit",
            StoreFaultPoint::BeforeToolIntentCommit => "BeforeToolIntentCommit",
            StoreFaultPoint::BeforeToolSettlementCommit => "BeforeToolSettlementCommit",
            StoreFaultPoint::BeforeMemorySettlementCommit => "BeforeMemorySettlementCommit",
            StoreFaultPoint::BeforeDelegationDeliveryCommit => "BeforeDelegationDeliveryCommit",
            StoreFaultPoint::BeforeFreezeStepCommit => "BeforeFreezeStepCommit",
            StoreFaultPoint::BeforeBudgetSettleCommit => "BeforeBudgetSettleCommit",
            StoreFaultPoint::BeforeQuestionAnswerCommit => "BeforeQuestionAnswerCommit",
        }
    }
}

/// The failures that are armed: each one fires once. There is one plan for a store, and
/// whoever arms or fires a point holds that plan itself, so it cannot be cloned.
#[derive(Debug)]
pub struct StoreFaultPlan {
    points: Vec<StoreFaultPoint>,
}

impl View for StoreFaultPlan {
    type V = Set<StoreFaultPoint>;

    closed spec fn view(&self) -> Set<StoreFaultPoint> {
        self.points@.to_set()
    }
}

impl Default for StoreFaultPlan {
    fn default() -> (plan: Self)
        ensures
            plan@ == Set::<StoreFaultPoint>::empty(),
    {
        let plan: StoreFaultPlan = StoreFaultPlan { points: Vec::new() };
        assert(plan@ =~= Set::empty());
        plan
    }
}

/// The failure that is armed at a point, where one is.
pub open spec fn injected_fault(armed: Set<StoreFaultPoint>, point: StoreFaultPoint) -> Option<
    Fault,
> {
    if armed.contains(point) {
        fault(
            ErrorCode::StorageWriteFailed,
            "injected durable storage failure at "@ + point.name(),
        )
    } else {
        None
    }
}

impl StoreFaultPlan {
    #[must_use]
    pub fn with_point(point: StoreFaultPoint) -> (plan: Self)
        ensures
            plan@ == set![point],
    {
        let mut plan: StoreFaultPlan = StoreFaultPlan { points: Vec::new() };
        plan.arm(point);
        assert(plan@ =~= set![point]);
        plan
    }

    pub fn arm(&mut self, point: StoreFaultPoint)
        ensures
            final(self)@ == old(self)@.insert(point),
    {
        let ghost before = self.points@;
        self.points.push(point);
        assert(self.points@.to_set() =~= before.to_set().insert(point)) by {
            assert(self.points@[before.len() as int] == point);
            assert forall|p: StoreFaultPoint| before.contains(p) implies self.points@.contains(
                p,
            ) by {
                let i = choose|i: int| 0 <= i < before.len() && before[i] == p;
                assert(self.points@[i] == p);
            }
        }
    }

    /// Whether a failure is armed at a point. Asking disarms it.
    #[must_use]
    pub fn consume(&mut self, point: StoreFaultPoint) -> (armed: bool)
        ensures
            armed == old(self)@.contains(point),
            final(self)@ == old(self)@.remove(point),
    {
        let ghost before = self.points@;
        let mut kept: Vec<StoreFaultPoint> = Vec::new();
        let mut armed: bool = false;
        let mut i: usize = 0;
        while i < self.points.len()
            invariant
                i <= self.points.len(),
                self.points@ == before,
                armed <==> before.take(i as int).contains(point),
                forall|p: StoreFaultPoint|
                    kept@.contains(p) <==> (p != point && before.take(i as int).contains(p)),
            decreases self.points.len() - i,
        {
            let current: StoreFaultPoint = self.points[i];
            let ghost seen = before.take(i as int);
            let ghost previous = kept@;
            assert(before.take(i + 1) =~= seen.push(current));
            if current == point {
                armed = true;
            } else {
                kept.push(current);
            }
            proof {
                crate::seqs::lemma_push_contains(seen, current, point);
                assert forall|p: StoreFaultPoint|
                    kept@.contains(p) <==> (p != point && before.take(i + 1).contains(p)) by {
                    crate::seqs::lemma_push_contains(seen, current, p);
                    crate::seqs::lemma_push_contains(previous, current, p);
                }
            }
            i += 1;
        }
        assert(before.take(i as int) =~= before);
        self.points = kept;
        assert(self@ =~= before.to_set().remove(point));
        armed
    }

    /// Fails where a failure is armed at a point, which disarms it.
    pub fn inject(&mut self, point: StoreFaultPoint) -> (result: Result<(), StoreError>)
        ensures
            answers(result, injected_fault(old(self)@, point)),
            final(self)@ == old(self)@.remove(point),
    {
        if self.consume(point) {
            let message: String = cat("injected durable storage failure at ", point.as_str());
            return Err(StoreError::new(ErrorCode::StorageWriteFailed, message.as_str()));
        }
        Ok(())
    }

    /// Fails under the caller's own code and message where a failure is armed at
    /// a point, which disarms it.
    pub fn inject_as(&mut self, point: StoreFaultPoint, code: ErrorCode, message: &str) -> (result:
        Result<(), StoreError>)
        ensures
            answers(
                result,
                if old(self)@.contains(point) {
                    fault(code, message@)
                } else {
                    None
                },
            ),
            final(self)@ == old(self)@.remove(point),
    {
        if self.consume(point) {
            return Err(StoreError::new(code, message));
        }
        Ok(())
    }
}

/// An armed failure fires once: what was consumed is no longer armed, and no
/// other point has changed.
pub proof fn law_armed_failure_fires_once(
    plan: Set<StoreFaultPoint>,
    point: StoreFaultPoint,
    other: StoreFaultPoint,
)
    ensures
        plan.insert(point).contains(point),
        !plan.insert(point).remove(point).contains(point),
        other != point ==> (plan.insert(point).remove(point).contains(other) <==> plan.contains(
            other,
        )),
{
}

/// What opening a store for writing needs to know.
#[derive(Debug)]
pub struct WriterOpenOptions {
    pub data_dir: PathBuf,
    pub host_id: String,
    pub fault_plan: StoreFaultPlan,
}

impl WriterOpenOptions {
    #[must_use]
    pub fn new(data_dir: PathBuf, host_id: String) -> (options: Self)
        ensures
            options.data_dir == data_dir,
            options.host_id == host_id,
            options.fault_plan@ == Set::<StoreFaultPoint>::empty(),
    {
        WriterOpenOptions { data_dir, host_id, fault_plan: StoreFaultPlan::default() }
    }

    #[must_use]
    pub fn with_fault_plan(self, fault_plan: StoreFaultPlan) -> (options: Self)
        ensures
            options == (WriterOpenOptions { fault_plan, ..self }),
    {
        WriterOpenOptions { data_dir: self.data_dir, host_id: self.host_id, fault_plan }
    }
}

/// Refuses to open a directory that another host holds for writing.
pub fn check_writer_lock(taken: bool) -> (result: Result<(), StoreError>)
    ensures
        answers(
            result,
            if taken {
                None
            } else {
                fault(
                    ErrorCode::WriterLocked,
                    "another writable host owns this data directory"@,
                )
            },
        ),
{
    if !taken {
        return Err(
            StoreError::new(
                ErrorCode::WriterLocked,
                "another writable host owns this data directory",
            ),
        );
    }
    Ok(())
}

/// Refuses to read a directory in which there is no database.
pub fn check_initialized(database_is_file: bool) -> (result: Result<(), StoreError>)
    ensures
        answers(
            result,
            if database_is_file {
                None
            } else {
                fault(
                    ErrorCode::ReadOnlyStore,
                    "read-only open requires an initialized database"@,
                )
            },
        ),
{
    if !database_is_file {
        return Err(
            StoreError::new(
                ErrorCode::ReadOnlyStore,
                "read-only open requires an initialized database",
            ),
        );
    }
    Ok(())
}

/// How the database connection is set up.
#[derive(Clone, Debug, PartialEq, Eq)]
pub struct StoreDiagnostics {
    pub foreign_keys_enabled: bool,
    pub journal_mode: String,
    pub synchronous: i64,
    pub busy_timeout_ms: i64,
}

impl StoreDiagnostics {
    /// The set-up that the connection's own settings report.
    pub fn from_settings(
        foreign_keys: i64,
        journal_mode: String,
        synchronous: i64,
        busy_timeout_ms: i64,
    ) -> (diagnostics: Self)
        ensures
            diagnostics == (StoreDiagnostics {
                foreign_keys_enabled: foreign_keys == 1,
                journal_mode,
                synchronous,
                busy_timeout_ms,
            }),
    {
        StoreDiagnostics {
            foreign_keys_enabled: foreign_keys == 1,
            journal_mode,
            synchronous,
            busy_timeout_ms,
        }
    }
}

/// What marks a directory as this store's, and in which format.
#[derive(Clone, Debug, PartialEq, Eq)]
pub struct DataDirectoryMarker {
    pub schema_version: u16,
    pub kind: String,
    pub store_schema_version: i64,
}

impl DataDirectoryMarker {
    /// Why this host cannot use a directory with this marker.
    pub open spec fn marker_fault(self) -> Option<Fault> {
        if self.kind@ != DATA_DIRECTORY_KIND@ {
            fault(
                ErrorCode::MigrationFailed,
                "data directory marker is not a harness-data marker: "@ + self.kind@,
            )
        } else if self.schema_version > DATA_DIRECTORY_FORMAT_VERSION {
            fault(
                ErrorCode::SchemaVersionMismatch,
                "data directory format "@ + decimal(self.schema_version as nat)
                    + " is newer than this host supports (1)"@,
            )
        } else if self.store_schema_version > STORE_SCHEMA_VERSION {
            fault(
                ErrorCode::SchemaVersionMismatch,
                "data directory store schema "@ + signed_decimal(self.store_schema_version as int)
                    + " is newer than this host supports (1)"@,
            )
        } else {
            None
        }
    }

    /// This host writes markers like this one.
    pub open spec fn is_current(self) -> bool {
        &&& self.schema_version == DATA_DIRECTORY_FORMAT_VERSION
        &&& self.kind@ == DATA_DIRECTORY_KIND@
        &&& self.store_schema_version == STORE_SCHEMA_VERSION
    }

    #[must_use]
    pub fn current() -> (marker: Self)
        ensures
            marker.is_current(),
    {
        DataDirectoryMarker {
            schema_version: DATA_DIRECTORY_FORMAT_VERSION,
            kind: DATA_DIRECTORY_KIND.to_owned(),
            store_schema_version: STORE_SCHEMA_VERSION,
        }
    }

    /// Refuses a directory of another kind, or of a format from a newer host.
    pub fn validate(&self) -> (result: Result<(), StoreError>)
        ensures
            answers(result, self.marker_fault()),
    {
        if !same_text(self.kind.as_str(), DATA_DIRECTORY_KIND) {
            let message: String = cat(
                "data directory marker is not a harness-data marker: ",
                self.kind.as_str(),
            );
            return Err(StoreError::new(ErrorCode::MigrationFailed, message.as_str()));
        }
        if self.schema_version > DATA_DIRECTORY_FORMAT_VERSION {
            let version: String = decimal_text(self.schema_version as u64);
            let message: String = cat3(
                "data directory format ",
                version.as_str(),
                " is newer than this host supports (1)",
            );
            return Err(StoreError::new(ErrorCode::SchemaVersionMismatch, message.as_str()));
        }
        if self.store_schema_version > STORE_SCHEMA_VERSION {
            let version: String = signed_text(self.store_schema_version);
            let message: String = cat3(
                "data directory store schema ",
                version.as_str(),
                " is newer than this host supports (1)",
            );
            return Err(StoreError::new(ErrorCode::SchemaVersionMismatch, message.as_str()));
        }
        Ok(())
    }
}

/// The marker that this host writes is one that it accepts, and so is every
/// marker of the same kind in an older format.
pub proof fn law_own_and_older_markers_are_accepted(marker: DataDirectoryMarker)
    requires
        marker.kind@ == DATA_DIRECTORY_KIND@,
        marker.schema_version <= DATA_DIRECTORY_FORMAT_VERSION,
        marker.store_schema_version <= STORE_SCHEMA_VERSION,
    ensures
        marker.marker_fault() is None,
{
}

/// A directory from a newer host is refused, and one that this host has marked is
/// accepted again.
pub proof fn law_newer_directories_are_refused(newer: DataDirectoryMarker, own: DataDirectoryMarker)
    requires
        newer.schema_version > DATA_DIRECTORY_FORMAT_VERSION || newer.store_schema_version
            > STORE_SCHEMA_VERSION,
        own.is_current(),
    ensures
        newer.marker_fault() is Some,
        own.marker_fault() is None,
{
}

/// The marker that a writable open writes: this host's own where the directory has
/// none, and none where it has one. A marker that is there is checked and never
/// overwritten.
pub fn open_marker(found: &Option<DataDirectoryMarker>) -> (result: Result<
    Option<DataDirectoryMarker>,
    StoreError,
>)
    ensures
        answers(
            result,
            match *found {
                None => None,
                Some(marker) => marker.marker_fault(),
            },
        ),
        result is Ok ==> (result->Ok_0 is Some <==> found is None),
        result is Ok && found is None ==> result->Ok_0->Some_0.is_current(),
{
    match found {
        None => Ok(Some(DataDirectoryMarker::current())),
        Some(marker) => {
            marker.validate()?;
            Ok(None)
        },
    }
}

/// What a set of tables needs when a store is opened: nothing, or the record
/// of the revision that was just created.
pub open spec fn schema_fault(current: Option<i64>, supported: i64, message: Seq<char>) -> Option<
    Fault,
> {
    if current is Some && current->Some_0 > supported {
        fault(ErrorCode::MigrationFailed, message)
    } else if current is None && 0 > supported {
        fault(ErrorCode::MigrationFailed, message)
    } else {
        None
    }
}

/// The revision that tables are at; tables with no record are at revision zero.
pub open spec fn revision_of(current: Option<i64>) -> i64 {
    match current {
        None => 0,
        Some(version) => version,
    }
}

/// Whether a set of tables has to be brought to the supported revision. Tables
/// that a newer host wrote are refused.
pub fn schema_step(current: Option<i64>, supported: i64, newer: &str) -> (result: Result<
    bool,
    StoreError,
>)
    ensures
        answers(result, schema_fault(current, supported, newer@)),
        result is Ok ==> result->Ok_0 == (revision_of(current) < supported),
{
    let version: i64 = match current {
        None => 0,
        Some(version) => version,
    };
    if version > supported {
        return Err(StoreError::new(ErrorCode::MigrationFailed, newer));
    }
    Ok(version < supported)
}

/// A schema is taken up if and only if it is not newer than the one that is supported. One that
/// was never recorded is at revision zero.
pub proof fn law_older_schemas_are_taken_up(recorded: i64, supported: i64, message: Seq<char>)
    requires
        0 <= supported,
    ensures
        schema_fault(None, supported, message) is None,
        schema_fault(Some(recorded), supported, message) is None <==> recorded <= supported,
        revision_of(None) == 0,
        revision_of(Some(recorded)) == recorded,
{
}

/// The revisions that an upgrade records: each one after the current, up to the
/// supported one. A store without a record was created at the supported
/// revision and has nothing to upgrade.
pub fn upgrade_revisions(current: Option<i64>, supported: i64) -> (revisions: Vec<i64>)
    requires
        supported < i64::MAX,
    ensures
        revision_of(current) <= 0 || revision_of(current) >= supported ==> revisions@.len() == 0,
        0 < revision_of(current) < supported ==> revisions@.len() == supported - revision_of(
            current,
        ) && forall|i: int|
            0 <= i < revisions@.len() ==> revisions@[i] == revision_of(current) + 1 + i,
{
    let version: i64 = match current {
        None => 0,
        Some(version) => version,
    };
    let mut revisions: Vec<i64> = Vec::new();
    if version > 0 && version < supported {
        let mut next: i64 = version + 1;
        while next <= supported
            invariant
                0 < version < supported < i64::MAX,
                version + 1 <= next <= supported + 1,
                revisions@.len() == next - version - 1,
                forall|i: int| 0 <= i < revisions@.len() ==> revisions@[i] == version + 1 + i,
            decreases supported + 1 - next,
        {
            revisions.push(next);
            next = next + 1;
        }
    }
    revisions
}

} // verus!

//! Retention: which artifacts may go, and what is left behind when a source is
//! forgotten.

use crate::columns::{i64_fault, to_i64, to_u64, u64_fault};
use crate::error::{
    answers, fault, first, optional_parsed_fault, parse_optional_id, parsed_fault,
    parsed_option, parsed_value, ErrorCode, Fault, Parsed, StoreError,
};
use crate::journal::{check_fence, fence_fault, HostFence, PublishedArtifact};
use crate::json::{json_string_list, json_strings};
use crate::order::{ascending, sorted_texts};
use crate::text::{cat3, cat4, opt_text, texts};
use vstd::prelude::*;

verus! {

/// The record that a source is gone for good.
#[derive(Clone, Debug, PartialEq, Eq)]
pub struct TombstoneRow {
    pub tombstone_id: String,
    pub source_kind: String,
    pub source_id: String,
    pub reason: String,
    pub surviving_copies: Vec<String>,
    pub created_unix_ms: u64,
}

/// One published artifact, for a backup manifest.
#[derive(Clone, Debug, PartialEq, Eq)]
pub struct ArtifactPin {
    pub artifact_id: String,
    pub relative_path: String,
    pub content_hash: String,
    pub byte_len: u64,
}

/// Reads one published artifact back.
pub fn artifact_pin(
    artifact_id: String,
    relative_path: String,
    content_hash: Parsed,
    byte_len: i64,
) -> (result: Result<ArtifactPin, StoreError>)
    ensures
        answers(
            result,
            first(parsed_fault(content_hash), u64_fault(byte_len, "artifact byte length"@)),
        ),
        result is Ok ==> result->Ok_0 == (ArtifactPin {
            artifact_id,
            relative_path,
            content_hash: content_hash->Ok_0,
            byte_len: byte_len as u64,
        }),
{
    let content_hash: String = parsed_value(content_hash)?;
    let byte_len: u64 = to_u64(byte_len, "artifact byte length")?;
    Ok(ArtifactPin { artifact_id, relative_path, content_hash, byte_len })
}

/// The revisions of the store's sets of tables, as they are read.
#[derive(Clone, Copy, Debug, PartialEq, Eq)]
pub struct RevisionsRead {
    pub store: Option<i64>,
    pub runtime: Option<i64>,
    pub tools: Option<i64>,
    pub memory: Option<i64>,
    pub delegation: Option<i64>,
    pub maintenance: Option<i64>,
}

/// A revision that was never recorded is zero.
pub open spec fn recorded_revision(value: Option<i64>) -> i64 {
    match value {
        None => 0,
        Some(revision) => revision,
    }
}

fn or_none(value: Option<i64>) -> (revision: i64)
    ensures
        revision == recorded_revision(value),
{
    match value {
        None => 0,
        Some(revision) => revision,
    }
}

/// Every set of tables with its revision, in the order of their names.
pub fn all_schema_revisions(read: &RevisionsRead) -> (revisions: Vec<(&'static str, i64)>)
    ensures
        revisions@.len() == 6,
        revisions@[0].0@ == "delegation"@ && revisions@[0].1 == recorded_revision(read.delegation),
        revisions@[1].0@ == "maintenance"@ && revisions@[1].1 == recorded_revision(
            read.maintenance,
        ),
        revisions@[2].0@ == "memory"@ && revisions@[2].1 == recorded_revision(read.memory),
        revisions@[3].0@ == "runtime"@ && revisions@[3].1 == recorded_revision(read.runtime),
        revisions@[4].0@ == "store"@ && revisions@[4].1 == recorded_revision(read.store),
        revisions@[5].0@ == "tools"@ && revisions@[5].1 == recorded_revision(read.tools),
{
    let mut revisions: Vec<(&'static str, i64)> = Vec::new();
    revisions.push(("delegation", or_none(read.delegation)));
    revisions.push(("maintenance", or_none(read.maintenance)));
    revisions.push(("memory", or_none(read.memory)));
    revisions.push(("runtime", or_none(read.runtime)));
    revisions.push(("store", or_none(read.store)));
    revisions.push(("tools", or_none(read.tools)));
    revisions
}

// ---------------------------------------------------------------------------
// Tombstones and the maintenance journal

/// A source as one text: its kind and its id.
pub open spec fn source_name(kind: Seq<char>, id: Seq<char>) -> Seq<char> {
    kind + ":"@ + id
}

/// A source as one text.
pub fn source_key(kind: &str, id: &str) -> (key: String)
    ensures
        key@ == source_name(kind@, id@),
{
    cat3(kind, ":", id)
}

/// A source is gone where a tombstone names it.
pub fn is_tombstoned(count: i64) -> (gone: bool)
    ensures
        gone == (count > 0),
{
    count > 0
}

/// A tombstone as its row is read.
#[derive(Clone, Debug)]
pub struct StoredTombstone {
    pub tombstone_id: String,
    pub source_kind: String,
    pub source_id: String,
    pub reason: String,
    pub surviving_copies_json: String,
    pub created_unix_ms: i64,
}

/// Why a stored tombstone cannot be read.
pub open spec fn tombstone_row_fault(row: StoredTombstone) -> Option<Fault> {
    if json_strings(row.surviving_copies_json@) is None {
        fault(ErrorCode::StorageWriteFailed, "stored surviving copies are invalid"@)
    } else {
        u64_fault(row.created_unix_ms, "tombstone time"@)
    }
}

/// A tombstone is what a row holds.
pub open spec fn tombstone_reads_as(row: StoredTombstone, record: TombstoneRow) -> bool {
    &&& record == (TombstoneRow {
        tombstone_id: row.tombstone_id,
        source_kind: row.source_kind,
        source_id: row.source_id,
        reason: row.reason,
        surviving_copies: record.surviving_copies,
        created_unix_ms: row.created_unix_ms as u64,
    })
    &&& Some(texts(record.surviving_copies@)) == json_strings(row.surviving_copies_json@)
}

/// Reads a tombstone back.
pub fn tombstone_from_row(row: StoredTombstone) -> (result: Result<TombstoneRow, StoreError>)
    ensures
        answers(result, tombstone_row_fault(row)),
        result is Ok ==> tombstone_reads_as(row, result->Ok_0),
{
    let surviving_copies: Vec<String> = match json_string_list(row.surviving_copies_json.as_str()) {
        Some(list) => list,
        None => {
            return Err(
                StoreError::new(
                    ErrorCode::StorageWriteFailed,
                    "stored surviving copies are invalid",
                ),
            );
        },
    };
    let created_unix_ms: u64 = to_u64(row.created_unix_ms, "tombstone time")?;
    Ok(
        TombstoneRow {
            tombstone_id: row.tombstone_id,
            source_kind: row.source_kind,
            source_id: row.source_id,
            reason: row.reason,
            surviving_copies,
            created_unix_ms,
        },
    )
}

/// A row holds a tombstone as it is written: its texts as they are, its list as
/// JSON, and its time, which a column can hold.
pub open spec fn tombstone_is_stored_in(record: TombstoneRow, row: StoredTombstone) -> bool {
    &&& record.created_unix_ms <= i64::MAX
    &&& json_strings(row.surviving_copies_json@) == Some(texts(record.surviving_copies@))
    &&& row == (StoredTombstone {
        tombstone_id: record.tombstone_id,
        source_kind: record.source_kind,
        source_id: record.source_id,
        reason: record.reason,
        surviving_copies_json: row.surviving_copies_json,
        created_unix_ms: record.created_unix_ms as i64,
    })
}

/// What is written is read back: the row of a tombstone reads without an error, as
/// the record that it was written from, with the same list.
pub proof fn law_stored_tombstone_reads_back(
    record: TombstoneRow,
    row: StoredTombstone,
    read: TombstoneRow,
)
    requires
        tombstone_is_stored_in(record, row),
        tombstone_reads_as(row, read),
    ensures
        tombstone_row_fault(row) is None,
        texts(read.surviving_copies@) == texts(record.surviving_copies@),
        read == (TombstoneRow { surviving_copies: read.surviving_copies, ..record }),
{
}

/// A tombstone as it is stored: a source that has one already keeps its identity, and
/// the rest is what is recorded last.
pub open spec fn stored_tombstone(
    existing_id: Option<String>,
    tombstone: TombstoneRow,
) -> TombstoneRow {
    match existing_id {
        None => tombstone,
        Some(tombstone_id) => TombstoneRow { tombstone_id, ..tombstone },
    }
}

/// Records that a source is gone. `existing_id` is the tombstone that the source has
/// already.
pub fn record_tombstone(
    tombstone: TombstoneRow,
    fence: &HostFence,
    held: Option<i64>,
    existing_id: Option<String>,
) -> (result: Result<TombstoneRow, StoreError>)
    ensures
        answers(
            result,
            first(
                fence_fault(held, *fence),
                i64_fault(tombstone.created_unix_ms, "tombstone time"@),
            ),
        ),
        result is Ok ==> result->Ok_0 == stored_tombstone(existing_id, tombstone),
{
    check_fence(held, fence)?;
    let created: i64 = to_i64(tombstone.created_unix_ms, "tombstone time")?;
    let mut stored: TombstoneRow = tombstone;
    match existing_id {
        None => {},
        Some(tombstone_id) => {
            stored.tombstone_id = tombstone_id;
        },
    }
    Ok(stored)
}

/// A tombstone is stored as it is, and one for a source that has one keeps the identity of the
/// one that is there.
pub proof fn law_tombstone_keeps_its_identity(existing_id: String, tombstone: TombstoneRow)
    ensures
        stored_tombstone(None, tombstone) == tombstone,
        ({
            let after = stored_tombstone(Some(existing_id), tombstone);
            &&& after.tombstone_id == existing_id
            &&& after.source_kind == tombstone.source_kind
            &&& after.source_id == tombstone.source_id
            &&& after.reason == tombstone.reason
            &&& after.surviving_copies == tombstone.surviving_copies
            &&& after.created_unix_ms == tombstone.created_unix_ms
        }),
        recorded_revision(None) == 0,
{
}

/// Refuses a journal entry whose time no column can hold.
pub fn record_maintenance_entry(created_unix_ms: u64, fence: &HostFence, held: Option<i64>) -> (result:
    Result<(), StoreError>)
    ensures
        answers(
            result,
            first(fence_fault(held, *fence), i64_fault(created_unix_ms, "journal time"@)),
        ),
{
    check_fence(held, fence)?;
    let created: i64 = to_i64(created_unix_ms, "journal time")?;
    Ok(())
}

// ---------------------------------------------------------------------------
// Pins

/// What keeps an artifact from being collected: one pin for each reason.
#[derive(Clone, Debug, PartialEq, Eq)]
pub struct RetentionPin {
    pub artifact_id: String,
    pub reason: String,
    /// The unfinished task that the pin is for.
    pub task_id: Option<String>,
    pub created_unix_ms: i64,
}

/// A pin, by what it says.
pub type PinView = (Seq<char>, Seq<char>, Option<Seq<char>>, i64);

impl View for RetentionPin {
    type V = PinView;

    open spec fn view(&self) -> PinView {
        (self.artifact_id@, self.reason@, opt_text(self.task_id), self.created_unix_ms)
    }
}

/// Why artifacts are not pinned.
pub open spec fn pin_fault(
    artifact_ids: Seq<String>,
    created_unix_ms: u64,
    fence: HostFence,
    held: Option<i64>,
) -> Option<Fault> {
    first(
        fence_fault(held, fence),
        if artifact_ids.len() == 0 {
            None
        } else {
            i64_fault(created_unix_ms, "pin time"@)
        },
    )
}

/// Pins an artifact for each identity of a list, all for one reason and one task. A pin
/// takes the place of the one that the artifact has for the same reason.
pub fn pin_artifacts(
    artifact_ids: &Vec<String>,
    reason: &str,
    task_id: Option<&str>,
    created_unix_ms: u64,
    fence: &HostFence,
    held: Option<i64>,
) -> (result: Result<Vec<RetentionPin>, StoreError>)
    ensures
        answers(result, pin_fault(artifact_ids@, created_unix_ms, *fence, held)),
        result is Ok ==> result->Ok_0@.len() == artifact_ids@.len(),
        result is Ok ==> forall|i: int|
            0 <= i < artifact_ids@.len() ==> (#[trigger] result->Ok_0@[i])@ == (
                artifact_ids@[i]@,
                reason@,
                match task_id {
                    None => None,
                    Some(task) => Some(task@),
                },
                created_unix_ms as i64,
            ),
{
    check_fence(held, fence)?;
    let mut pins: Vec<RetentionPin> = Vec::new();
    if artifact_ids.len() == 0 {
        return Ok(pins);
    }
    let created: i64 = to_i64(created_unix_ms, "pin time")?;
    let mut i: usize = 0;
    while i < artifact_ids.len()
        invariant
            i <= artifact_ids.len(),
            created == created_unix_ms,
            pins@.len() == i,
            forall|j: int|
                0 <= j < i ==> (#[trigger] pins@[j])@ == (
                    artifact_ids@[j]@,
                    reason@,
                    match task_id {
                        None => None,
                        Some(task) => Some(task@),
                    },
                    created_unix_ms as i64,
                ),
        decreases artifact_ids.len() - i,
    {
        let task: Option<String> = match task_id {
            None => None,
            Some(task) => Some(task.to_owned()),
        };
        pins.push(
            RetentionPin {
                artifact_id: artifact_ids[i].clone(),
                reason: reason.to_owned(),
                task_id: task,
                created_unix_ms: created,
            },
        );
        i += 1;
    }
    Ok(pins)
}

/// A host that may write pins any artifacts, at a time that fits its column, for any reason. A
/// pin takes the place of the one for the same artifact and reason, and of no other.
pub proof fn law_pin_replaces_its_own(
    artifact_ids: Seq<String>,
    created_unix_ms: u64,
    fence: HostFence,
    held: Option<i64>,
    pins: Set<PinView>,
    pin: PinView,
    other: PinView,
)
    ensures
        pin_fault(artifact_ids, created_unix_ms, fence, held) is None <==> {
            &&& held is Some
            &&& held->Some_0 == fence.generation as int
            &&& artifact_ids.len() == 0 || created_unix_ms <= i64::MAX
        },
        with_pin(pins, pin).contains(pin),
        other.0 != pin.0 || other.1 != pin.1 ==> (with_pin(pins, pin).contains(other)
            <==> pins.contains(other)),
        other.0 == pin.0 && other.1 == pin.1 && other != pin ==> !with_pin(pins, pin).contains(
            other,
        ),
{
}

/// The pins after one was written: it takes the place of the one of the same artifact
/// and reason.
pub open spec fn with_pin(pins: Set<PinView>, pin: PinView) -> Set<PinView> {
    pins.filter(|other: PinView| other.0 != pin.0 || other.1 != pin.1).insert(pin)
}

/// The pins after some were written, one after the other.
pub open spec fn with_pins(pins: Set<PinView>, written: Seq<RetentionPin>) -> Set<PinView>
    decreases written.len(),
{
    if written.len() == 0 {
        pins
    } else {
        with_pin(with_pins(pins, written.drop_last()), written.last()@)
    }
}

/// A pin holds an artifact.
pub open spec fn is_pinned(pins: Set<PinView>, artifact: Seq<char>) -> bool {
    exists|pin: PinView| #[trigger] pins.contains(pin) && pin.0 == artifact
}

proof fn lemma_pins_stay(pins: Set<PinView>, written: Seq<RetentionPin>, artifact: Seq<char>)
    requires
        is_pinned(pins, artifact) || exists|i: int|
            0 <= i < written.len() && (#[trigger] written[i])@.0 == artifact,
    ensures
        is_pinned(with_pins(pins, written), artifact),
    decreases written.len(),
{
    if written.len() > 0 {
        let before = with_pins(pins, written.drop_last());
        let last = written.last()@;
        let after = with_pin(before, last);
        if last.0 == artifact {
            assert(after.contains(last));
        } else {
            if !is_pinned(pins, artifact) {
                let i = choose|i: int| 0 <= i < written.len() && (#[trigger] written[i])@.0 == artifact;
                assert(written.drop_last()[i]@.0 == artifact);
            }
            lemma_pins_stay(pins, written.drop_last(), artifact);
            let pin = choose|pin: PinView| #[trigger] before.contains(pin) && pin.0 == artifact;
            assert(after.contains(pin));
        }
    }
}

/// What was pinned is not collected: once pins were written, each of their artifacts is
/// held on to, and so is every artifact that was pinned before. `holds` is how an
/// artifact is held on to afterwards.
pub proof fn law_pinned_artifact_stays(
    pins: Set<PinView>,
    written: Seq<RetentionPin>,
    artifact: Seq<char>,
    holds: ArtifactHolds,
    place: Option<String>,
)
    requires
        is_pinned(pins, artifact) || exists|i: int|
            0 <= i < written.len() && (#[trigger] written[i])@.0 == artifact,
        is_pinned(with_pins(pins, written), artifact) ==> holds.pins > 0,
    ensures
        is_held(holds),
        !(sweep_of(place, holds) is Collect),
{
    lemma_pins_stay(pins, written, artifact);
}

/// Reads one retention pin back: its reason, and the task it is for.
pub fn retention_pin(reason: String, task_id: Option<Parsed>) -> (result: Result<
    (String, Option<String>),
    StoreError,
>)
    ensures
        answers(result, optional_parsed_fault(task_id)),
        result is Ok ==> result->Ok_0 == (reason, parsed_option(task_id)),
{
    let task: Option<String> = parse_optional_id(task_id)?;
    Ok((reason, task))
}

/// Refuses a published artifact whose length no column can hold.
pub fn record_published_artifact(
    artifact: &PublishedArtifact,
    fence: &HostFence,
    held: Option<i64>,
) -> (result: Result<(), StoreError>)
    ensures
        answers(
            result,
            first(
                fence_fault(held, *fence),
                i64_fault(artifact.byte_len, "artifact byte length"@),
            ),
        ),
{
    check_fence(held, fence)?;
    let length: i64 = to_i64(artifact.byte_len, "artifact byte length")?;
    Ok(())
}

// ---------------------------------------------------------------------------
// Collecting artifacts

/// How often durable records refer to an artifact.
#[derive(Clone, Debug, PartialEq, Eq)]
pub struct ArtifactReferences {
    pub artifact_id: String,
    pub receipts: i64,
    pub scopes: i64,
    /// The versions of memories whose content is the artifact's.
    pub memory_versions: i64,
}

/// A durable record refers to an artifact.
pub open spec fn is_referenced(artifact: ArtifactReferences) -> bool {
    artifact.receipts > 0 || artifact.scopes > 0 || artifact.memory_versions > 0
}

/// An artifact among the first ones is referred to.
pub open spec fn is_referenced_before(
    artifacts: Seq<ArtifactReferences>,
    count: int,
    id: Seq<char>,
) -> bool {
    exists|i: int|
        0 <= i < count && (#[trigger] artifacts[i]).artifact_id@ == id && is_referenced(
            artifacts[i],
        )
}

/// The artifacts that a durable record refers to, in ascending order.
pub fn referenced_artifact_ids(artifacts: &Vec<ArtifactReferences>) -> (ids: Vec<String>)
    ensures
        ascending(texts(ids@)),
        forall|id: Seq<char>| #[trigger]
            texts(ids@).contains(id) <==> is_referenced_before(
                artifacts@,
                artifacts@.len() as int,
                id,
            ),
{
    let mut ids: Vec<String> = Vec::new();
    let mut i: usize = 0;
    assert(texts(ids@) =~= seq![]);
    while i < artifacts.len()
        invariant
            i <= artifacts.len(),
            forall|id: Seq<char>| #[trigger]
                texts(ids@).contains(id) <==> is_referenced_before(artifacts@, i as int, id),
        decreases artifacts.len() - i,
    {
        let ghost before = texts(ids@);
        let artifact: &ArtifactReferences = &artifacts[i];
        if artifact.receipts > 0 || artifact.scopes > 0 || artifact.memory_versions > 0 {
            ids.push(artifact.artifact_id.clone());
            assert(texts(ids@) =~= before.push(artifact.artifact_id@));
        }
        proof {
            assert forall|id: Seq<char>| #[trigger]
                texts(ids@).contains(id) <==> is_referenced_before(artifacts@, i + 1, id) by {
                if texts(ids@).contains(id) {
                    let k = choose|k: int| 0 <= k < texts(ids@).len() && texts(ids@)[k] == id;
                    if k < before.len() {
                        assert(before[k] == id);
                        assert(before.contains(id));
                    } else {
                        assert(artifacts@[i as int].artifact_id@ == id);
                    }
                }
                if is_referenced_before(artifacts@, i + 1, id) {
                    let j = choose|j: int|
                        0 <= j < i + 1 && (#[trigger] artifacts@[j]).artifact_id@ == id
                            && is_referenced(artifacts@[j]);
                    if j < i {
                        assert(is_referenced_before(artifacts@, i as int, id));
                        assert(before.contains(id));
                        let k = choose|k: int| 0 <= k < before.len() && before[k] == id;
                        assert(texts(ids@)[k] == id);
                    } else {
                        assert(texts(ids@)[before.len() as int] == id);
                    }
                }
            }
        }
        i += 1;
    }
    sorted_texts(&ids)
}

/// Every artifact that is referenced is listed.
pub proof fn law_referenced_artifacts_are_listed(artifacts: Seq<ArtifactReferences>, i: int)
    requires
        0 <= i < artifacts.len(),
        forall|k: int| 0 <= k < artifacts.len() && k != i ==> (#[trigger] artifacts[k]).artifact_id@
            != artifacts[i].artifact_id@,
    ensures
        is_referenced_before(artifacts, artifacts.len() as int, artifacts[i].artifact_id@)
            <==> artifacts[i].receipts > 0 || artifacts[i].scopes > 0
            || artifacts[i].memory_versions > 0,
{
}

/// An artifact is referenced if and only if a receipt, a scope or a version of memory refers
/// to it. A pin does not.
pub proof fn law_references_are_receipts_scopes_and_versions(artifact: ArtifactReferences)
    ensures
        is_referenced(artifact) <==> artifact.receipts > 0 || artifact.scopes > 0
            || artifact.memory_versions > 0,
{
}

/// How often an artifact is held on to.
#[derive(Clone, Copy, Debug, PartialEq, Eq)]
pub struct ArtifactHolds {
    pub receipts: i64,
    pub pins: i64,
    pub scopes: i64,
    /// The versions of memories whose content is the artifact's.
    pub memory_versions: i64,
}

/// Something holds on to an artifact.
pub open spec fn is_held(holds: ArtifactHolds) -> bool {
    holds.receipts > 0 || holds.pins > 0 || holds.scopes > 0 || holds.memory_versions > 0
}

/// Why an artifact's record cannot be removed.
pub open spec fn removal_fault(holds: ArtifactHolds, fence: HostFence, held: Option<i64>) -> Option<
    Fault,
> {
    first(
        fence_fault(held, fence),
        if holds.receipts > 0 {
            fault(ErrorCode::RetentionRefused, "a referenced artifact cannot be removed"@)
        } else if holds.pins > 0 {
            fault(ErrorCode::RetentionRefused, "a pinned artifact cannot be removed"@)
        } else if holds.scopes > 0 {
            fault(
                ErrorCode::RetentionRefused,
                "an artifact scoped to a tool execution cannot be removed"@,
            )
        } else if holds.memory_versions > 0 {
            fault(ErrorCode::RetentionRefused, "a referenced artifact cannot be removed"@)
        } else {
            None
        },
    )
}

/// Refuses to remove the record of an artifact that something holds on to.
pub fn remove_artifact_record(holds: ArtifactHolds, fence: &HostFence, held: Option<i64>) -> (result:
    Result<(), StoreError>)
    ensures
        answers(result, removal_fault(holds, *fence, held)),
{
    check_fence(held, fence)?;
    let refused: ErrorCode = ErrorCode::RetentionRefused;
    if holds.receipts > 0 {
        return Err(StoreError::new(refused, "a referenced artifact cannot be removed"));
    }
    if holds.pins > 0 {
        return Err(StoreError::new(refused, "a pinned artifact cannot be removed"));
    }
    if holds.scopes > 0 {
        return Err(
            StoreError::new(refused, "an artifact scoped to a tool execution cannot be removed"),
        );
    }
    if holds.memory_versions > 0 {
        return Err(StoreError::new(refused, "a referenced artifact cannot be removed"));
    }
    Ok(())
}

/// An artifact is removed if and only if no receipt, no pin, no scope and no version of memory
/// holds it, and one that is held is refused for that.
pub proof fn law_unheld_artifact_is_removed(
    holds: ArtifactHolds,
    fence: HostFence,
    held: Option<i64>,
)
    ensures
        removal_fault(holds, fence, held) is None <==> {
            &&& held is Some
            &&& held->Some_0 == fence.generation as int
            &&& holds.receipts <= 0
            &&& holds.pins <= 0
            &&& holds.scopes <= 0
            &&& holds.memory_versions <= 0
        },
        held is Some && held->Some_0 == fence.generation as int && removal_fault(
            holds,
            fence,
            held,
        ) is Some ==> removal_fault(holds, fence, held)->Some_0.code
            == ErrorCode::RetentionRefused,
{
}

/// What durable records refer to is held on to: an artifact that is listed as referred
/// to can be neither collected nor have its record removed.
pub proof fn law_referenced_artifact_is_held(artifact: ArtifactReferences, holds: ArtifactHolds)
    requires
        is_referenced(artifact),
        holds.receipts == artifact.receipts,
        holds.scopes == artifact.scopes,
        holds.memory_versions == artifact.memory_versions,
    ensures
        is_held(holds),
{
}

/// What a sweep does with an artifact.
#[derive(Clone, Debug, PartialEq, Eq)]
pub enum Sweep {
    /// An earlier sweep has collected it.
    Gone,
    /// Something holds on to it.
    Held,
    /// Its bytes at this place go, and its record with them.
    Collect(String),
}

/// What a sweep does with an artifact. `place` is where its record says its bytes
/// are.
pub open spec fn sweep_of(place: Option<String>, holds: ArtifactHolds) -> Sweep {
    match place {
        None => Sweep::Gone,
        Some(path) => if is_held(holds) {
            Sweep::Held
        } else {
            Sweep::Collect(path)
        },
    }
}

/// Decides what a sweep does with an artifact.
pub fn plan_sweep(
    place: Option<String>,
    holds: ArtifactHolds,
    fence: &HostFence,
    held: Option<i64>,
) -> (result: Result<Sweep, StoreError>)
    ensures
        answers(result, fence_fault(held, *fence)),
        result is Ok ==> result->Ok_0 == sweep_of(place, holds),
{
    check_fence(held, fence)?;
    match place {
        None => Ok(Sweep::Gone),
        Some(path) => if holds.receipts > 0 || holds.pins > 0 || holds.scopes > 0
            || holds.memory_versions > 0 {
            Ok(Sweep::Held)
        } else {
            Ok(Sweep::Collect(path))
        },
    }
}

/// A sweep collects an artifact that is there and that nothing holds, leaves one that is held,
/// and finds nothing to do where there is none.
pub proof fn law_sweep_collects_what_nothing_holds(place: Option<String>, holds: ArtifactHolds)
    ensures
        place is None ==> sweep_of(place, holds) is Gone,
        place is Some && (holds.receipts > 0 || holds.pins > 0 || holds.scopes > 0
            || holds.memory_versions > 0) ==> sweep_of(place, holds) is Held,
        place is Some && holds.receipts <= 0 && holds.pins <= 0 && holds.scopes <= 0
            && holds.memory_versions <= 0 ==> sweep_of(place, holds) == Sweep::Collect(
            place->Some_0,
        ),
{
}

/// What became of an artifact's bytes when they were to go.
#[derive(Clone, Debug, PartialEq, Eq)]
pub enum Unlinked {
    Removed,
    Missing,
    /// The bytes could not be removed; the text says why.
    Failed(String),
}

/// What a sweep is answered: whether the artifact is collected. `unlinked` is what
/// became of its bytes at `path`, and counts only where they were to go. Bytes
/// that are gone already are no error.
pub fn collect_artifact(sweep: &Sweep, path: &str, unlinked: &Unlinked) -> (result: Result<
    bool,
    StoreError,
>)
    ensures
        answers(
            result,
            if sweep is Collect && unlinked is Failed {
                fault(
                    ErrorCode::ArtifactWriteFailed,
                    "cannot remove artifact bytes at "@ + path@ + ": "@ + unlinked->Failed_0@,
                )
            } else {
                None
            },
        ),
        result is Ok ==> result->Ok_0 == !(sweep is Held),
{
    match sweep {
        Sweep::Gone => Ok(true),
        Sweep::Held => Ok(false),
        Sweep::Collect(_) => match unlinked {
            Unlinked::Removed => Ok(true),
            Unlinked::Missing => Ok(true),
            Unlinked::Failed(reason) => {
                let message: String = cat4(
                    "cannot remove artifact bytes at ",
                    path,
                    ": ",
                    reason.as_str(),
                );
                Err(StoreError::new(ErrorCode::ArtifactWriteFailed, message.as_str()))
            },
        },
    }
}

/// An artifact that a receipt or a memory refers to, that is pinned, or that is scoped
/// to an execution is neither collected nor has its record removed.
pub proof fn law_held_artifact_stays(
    place: Option<String>,
    holds: ArtifactHolds,
    fence: HostFence,
    held: Option<i64>,
)
    requires
        is_held(holds),
    ensures
        !(sweep_of(place, holds) is Collect),
        removal_fault(holds, fence, held) is Some,
{
}

} // verus!

//! What the runtime keeps next to a journal: snapshots, checkpoints, the records
//! of what was sent to a provider, and the commands that a host works off.
//!
//! Compositions, packets and frozen requests are written once: the same record again
//! changes nothing, and another one under the same identity is refused. Of attempts
//! under one identity, the first is kept and any other is passed over.

use crate::columns::{
    i64_fault, to_i64, to_u32, to_u64, to_u64_option, u32_fault, u64_fault, u64_option,
    u64_option_fault,
};
use crate::error::{
    answers, check_digest, check_verdict, digest_fault, fault, first, hashed_json_fault,
    parsed_option, stored_fault, stored_option, stored_option_fault, stored_value,
    validate_hashed_json, verdict_fault, written_option, ErrorCode, Fault, Parsed, StoreError,
    Verdict,
};
use crate::journal::{
    check_fence, ensure_session_existing, existing_session_fault, fence_fault, next_of,
    HostFence, SessionRow,
};
use crate::json::{is_json, json_is_valid, json_string_list, json_strings};
use crate::states::RuntimeCommandState;
use crate::text::{cat4, decimal, decimal_text, same_text, texts};
use vstd::prelude::*;

verus! {

// ---------------------------------------------------------------------------
// Records that are written once

/// Why a record is not written under its identity. `existing` is what the
/// identity already stands for, `content` what it is to stand for.
pub open spec fn immutable_fault(
    existing: Option<String>,
    content: Seq<char>,
    message: Seq<char>,
) -> Option<Fault> {
    match existing {
        None => None,
        Some(stored) => if stored@ != content {
            fault(ErrorCode::IdempotencyConflict, message)
        } else {
            None
        },
    }
}

/// Whether a record is written under its identity. The same record again is not
/// an error and is not written.
pub fn write_once(existing: &Option<String>, content: &str, message: &str) -> (result: Result<
    bool,
    StoreError,
>)
    ensures
        answers(result, immutable_fault(*existing, content@, message@)),
        result is Ok ==> result->Ok_0 == (existing is None),
{
    match existing {
        None => Ok(true),
        Some(stored) => if same_text(stored.as_str(), content) {
            Ok(false)
        } else {
            Err(StoreError::new(ErrorCode::IdempotencyConflict, message))
        },
    }
}

/// What was written under an identity stays: writing the same again succeeds and
/// writes nothing, and writing anything else is refused.
pub proof fn law_written_once(content: String, other: Seq<char>, message: Seq<char>)
    requires
        other != content@,
    ensures
        immutable_fault(None, content@, message) is None,
        immutable_fault(Some(content), content@, message) is None,
        immutable_fault(Some(content), other, message) == fault(
            ErrorCode::IdempotencyConflict,
            message,
        ),
{
}

/// The composition that a session works with.
#[derive(Clone, Debug, PartialEq, Eq)]
pub struct CompositionSnapshotRecord {
    pub snapshot_id: String,
    pub session_id: String,
    pub task_id: String,
    pub revision: u64,
    /// The composition as JSON text.
    pub content: String,
    pub content_hash: String,
}

/// Why a composition snapshot is not stored.
pub open spec fn composition_fault(
    record: CompositionSnapshotRecord,
    canonical: Parsed,
    fence: HostFence,
    held: Option<i64>,
    existing_hash: Option<String>,
) -> Option<Fault> {
    first(
        hashed_json_fault(canonical, record.content_hash@),
        first(
            fence_fault(held, fence),
            first(
                i64_fault(record.revision, "composition revision"@),
                immutable_fault(
                    existing_hash,
                    record.content_hash@,
                    "composition snapshot ID is immutable"@,
                ),
            ),
        ),
    )
}

/// Writes a composition under its identity, where it is not there yet.
pub fn persist_composition_snapshot(
    record: &CompositionSnapshotRecord,
    canonical: &Parsed,
    fence: &HostFence,
    held: Option<i64>,
    existing_hash: &Option<String>,
) -> (result: Result<bool, StoreError>)
    ensures
        answers(result, composition_fault(*record, *canonical, *fence, held, *existing_hash)),
        result is Ok ==> result->Ok_0 == (existing_hash is None),
{
    validate_hashed_json(canonical, record.content_hash.as_str())?;
    check_fence(held, fence)?;
    let revision: i64 = to_i64(record.revision, "composition revision")?;
    write_once(
        existing_hash,
        record.content_hash.as_str(),
        "composition snapshot ID is immutable",
    )
}

/// A composition snapshot is stored if and only if its hash is that of its content and its id
/// is new or has that content already.
pub proof fn law_composition_is_stored_under_its_digest(
    record: CompositionSnapshotRecord,
    canonical: Parsed,
    fence: HostFence,
    held: Option<i64>,
    existing_hash: Option<String>,
)
    ensures
        composition_fault(record, canonical, fence, held, existing_hash) is None <==> {
            &&& canonical is Ok
            &&& canonical->Ok_0@ == record.content_hash@
            &&& held is Some
            &&& held->Some_0 == fence.generation as int
            &&& record.revision <= i64::MAX
            &&& existing_hash is None || existing_hash->Some_0@ == record.content_hash@
        },
{
}

/// A composition as its row is read.
#[derive(Debug)]
pub struct CompositionRow {
    pub snapshot_id: Parsed,
    pub session_id: Parsed,
    pub task_id: Parsed,
    pub revision: i64,
    pub content_json: String,
    pub content_hash: Parsed,
    /// The digest of the content, where it has a canonical form.
    pub canonical: Parsed,
}

/// Why a stored composition cannot be read.
pub open spec fn composition_row_fault(row: CompositionRow) -> Option<Fault> {
    let write_failed = ErrorCode::StorageWriteFailed;
    first(
        if is_json(row.content_json@) {
            None
        } else {
            fault(write_failed, "composition snapshot JSON is invalid"@)
        },
        first(
            stored_fault(row.content_hash, write_failed, "composition snapshot hash is invalid"@),
            first(
                hashed_json_fault(row.canonical, row.content_hash->Ok_0@),
                first(
                    stored_fault(
                        row.snapshot_id,
                        write_failed,
                        "composition snapshot ID is invalid"@,
                    ),
                    first(
                        stored_fault(row.session_id, write_failed, "stored session ID is invalid"@),
                        first(
                            stored_fault(row.task_id, write_failed, "stored task ID is invalid"@),
                            u64_fault(row.revision, "composition revision"@),
                        ),
                    ),
                ),
            ),
        ),
    )
}

/// The composition that a row holds.
pub open spec fn composition_of(row: CompositionRow) -> CompositionSnapshotRecord {
    CompositionSnapshotRecord {
        snapshot_id: row.snapshot_id->Ok_0,
        session_id: row.session_id->Ok_0,
        task_id: row.task_id->Ok_0,
        revision: row.revision as u64,
        content: row.content_json,
        content_hash: row.content_hash->Ok_0,
    }
}

/// Reads a composition back.
pub fn composition_from_row(row: CompositionRow) -> (result: Result<
    CompositionSnapshotRecord,
    StoreError,
>)
    ensures
        answers(result, composition_row_fault(row)),
        result is Ok ==> result->Ok_0 == composition_of(row),
{
    let code: ErrorCode = ErrorCode::StorageWriteFailed;
    if !json_is_valid(row.content_json.as_str()) {
        return Err(StoreError::new(code, "composition snapshot JSON is invalid"));
    }
    let content_hash: String = stored_value(
        row.content_hash,
        code,
        "composition snapshot hash is invalid",
    )?;
    validate_hashed_json(&row.canonical, content_hash.as_str())?;
    let snapshot_id: String = stored_value(
        row.snapshot_id,
        code,
        "composition snapshot ID is invalid",
    )?;
    let session_id: String = stored_value(row.session_id, code, "stored session ID is invalid")?;
    let task_id: String = stored_value(row.task_id, code, "stored task ID is invalid")?;
    let revision: u64 = to_u64(row.revision, "composition revision")?;
    Ok(
        CompositionSnapshotRecord {
            snapshot_id,
            session_id,
            task_id,
            revision,
            content: row.content_json,
            content_hash,
        },
    )
}

/// A row holds a composition as it is written: its identities and texts as they are, and
/// its numbers, which columns can hold.
pub open spec fn composition_is_stored_in(record: CompositionSnapshotRecord, row: CompositionRow) -> bool {
    &&& record.revision <= i64::MAX
    &&& is_json(record.content@)
    &&& hashed_json_fault(row.canonical, record.content_hash@) is None
    &&& row == (CompositionRow {
        snapshot_id: Ok(record.snapshot_id),
        session_id: Ok(record.session_id),
        task_id: Ok(record.task_id),
        revision: record.revision as i64,
        content_json: record.content,
        content_hash: Ok(record.content_hash),
        canonical: row.canonical,
    })
}

/// What is written is read back: the row of a composition reads without an error, and as
/// the record that it was written from.
pub proof fn law_stored_composition_reads_back(record: CompositionSnapshotRecord, row: CompositionRow, read: CompositionSnapshotRecord)
    requires
        composition_is_stored_in(record, row),
        read == composition_of(row),
    ensures
        composition_row_fault(row) is None,
        read == record,
{
}

/// The context that a request was built from.
#[derive(Clone, Debug, PartialEq, Eq)]
pub struct ContextPacketRecord {
    /// The packet as JSON text.
    pub packet: String,
    pub composition_snapshot_id: Option<String>,
    pub omitted_optional: Vec<String>,
    pub degradation: Option<String>,
}

/// Why a context packet is not stored.
pub open spec fn context_packet_fault(
    packet_json: Seq<char>,
    verdict: Verdict,
    fence: HostFence,
    held: Option<i64>,
    existing_json: Option<String>,
) -> Option<Fault> {
    first(
        verdict_fault(verdict, "context packet is invalid: "@),
        first(
            fence_fault(held, fence),
            immutable_fault(
                existing_json,
                packet_json,
                "context packet ID is immutable"@,
            ),
        ),
    )
}

/// Writes a context packet under its identity, where it is not there yet.
pub fn persist_context_packet(
    packet_json: &str,
    verdict: &Verdict,
    fence: &HostFence,
    held: Option<i64>,
    existing_json: &Option<String>,
) -> (result: Result<bool, StoreError>)
    ensures
        answers(result, context_packet_fault(packet_json@, *verdict, *fence, held, *existing_json)),
        result is Ok ==> result->Ok_0 == (existing_json is None),
{
    check_verdict(verdict, "context packet is invalid: ")?;
    check_fence(held, fence)?;
    write_once(existing_json, packet_json, "context packet ID is immutable")
}

/// A sound context packet is stored if and only if its id is new or has that packet already.
pub proof fn law_context_packet_is_stored_once(
    packet_json: Seq<char>,
    verdict: Verdict,
    fence: HostFence,
    held: Option<i64>,
    existing_json: Option<String>,
)
    ensures
        context_packet_fault(packet_json, verdict, fence, held, existing_json) is None <==> {
            &&& verdict is Ok
            &&& held is Some
            &&& held->Some_0 == fence.generation as int
            &&& existing_json is None || existing_json->Some_0@ == packet_json
        },
{
}

/// A context packet as its row is read.
#[derive(Debug)]
pub struct ContextPacketRow {
    pub packet_json: String,
    /// Whether the packet's text has the shape of a packet at all.
    pub packet_reads: bool,
    /// What the packet's own rules say about it.
    pub packet_verdict: Verdict,
    pub composition_snapshot_id: Option<Parsed>,
    pub omitted_json: String,
    pub degradation: Option<String>,
}

/// Why a stored context packet cannot be read.
pub open spec fn context_packet_row_fault(row: ContextPacketRow) -> Option<Fault> {
    let write_failed = ErrorCode::StorageWriteFailed;
    if !row.packet_reads {
        fault(write_failed, "context packet JSON is invalid"@)
    } else {
        first(
            verdict_fault(row.packet_verdict, "stored context packet is invalid: "@),
            first(
                stored_option_fault(
                    row.composition_snapshot_id,
                    write_failed,
                    "composition snapshot ID is invalid"@,
                ),
                if json_strings(row.omitted_json@) is Some {
                    None
                } else {
                    fault(write_failed, "omitted context JSON is invalid"@)
                },
            ),
        )
    }
}

/// Reads a context packet back.
pub fn context_packet_from_row(row: ContextPacketRow) -> (result: Result<
    ContextPacketRecord,
    StoreError,
>)
    ensures
        answers(result, context_packet_row_fault(row)),
        result is Ok ==> {
            let record = result->Ok_0;
            &&& record.packet == row.packet_json
            &&& record.composition_snapshot_id == parsed_option(row.composition_snapshot_id)
            &&& Some(texts(record.omitted_optional@)) == json_strings(row.omitted_json@)
            &&& record.degradation == row.degradation
        },
{
    let code: ErrorCode = ErrorCode::StorageWriteFailed;
    if !row.packet_reads {
        return Err(StoreError::new(code, "context packet JSON is invalid"));
    }
    check_verdict(&row.packet_verdict, "stored context packet is invalid: ")?;
    let composition_snapshot_id: Option<String> = stored_option(
        row.composition_snapshot_id,
        code,
        "composition snapshot ID is invalid",
    )?;
    match json_string_list(row.omitted_json.as_str()) {
        None => Err(StoreError::new(code, "omitted context JSON is invalid")),
        Some(omitted_optional) => Ok(
            ContextPacketRecord {
                packet: row.packet_json,
                composition_snapshot_id,
                omitted_optional,
                degradation: row.degradation,
            },
        ),
    }
}

/// A stored context packet is read back if and only if it has the shape of one and is sound,
/// and what was stored with it can be read.
pub proof fn law_sound_context_packet_reads_back(row: ContextPacketRow)
    ensures
        context_packet_row_fault(row) is None <==> {
            &&& row.packet_reads
            &&& row.packet_verdict is Ok
            &&& row.composition_snapshot_id is None || row.composition_snapshot_id->Some_0 is Ok
            &&& json_strings(row.omitted_json@) is Some
        },
{
}

/// A request as it was frozen before it was sent.
#[derive(Clone, Debug, PartialEq, Eq)]
pub struct FrozenRequestRecord {
    pub request_id: String,
    pub packet_id: String,
    pub composition_snapshot_id: Option<String>,
    pub session_id: String,
    pub task_id: String,
    /// The request as JSON text.
    pub request_json: String,
    pub content_hash: String,
    pub provider_id: String,
    pub model: String,
    pub config_revision: u64,
}

/// Why a frozen request is not stored.
pub open spec fn frozen_request_fault(
    record: FrozenRequestRecord,
    canonical: Parsed,
    fence: HostFence,
    held: Option<i64>,
    existing_hash: Option<String>,
) -> Option<Fault> {
    first(
        hashed_json_fault(canonical, record.content_hash@),
        first(
            fence_fault(held, fence),
            first(
                i64_fault(record.config_revision, "config revision"@),
                immutable_fault(
                    existing_hash,
                    record.content_hash@,
                    "frozen request ID is immutable"@,
                ),
            ),
        ),
    )
}

/// Writes a frozen request under its identity, where it is not there yet.
pub fn persist_frozen_request(
    record: &FrozenRequestRecord,
    canonical: &Parsed,
    fence: &HostFence,
    held: Option<i64>,
    existing_hash: &Option<String>,
) -> (result: Result<bool, StoreError>)
    ensures
        answers(result, frozen_request_fault(*record, *canonical, *fence, held, *existing_hash)),
        result is Ok ==> result->Ok_0 == (existing_hash is None),
{
    validate_hashed_json(canonical, record.content_hash.as_str())?;
    check_fence(held, fence)?;
    let revision: i64 = to_i64(record.config_revision, "config revision")?;
    write_once(existing_hash, record.content_hash.as_str(), "frozen request ID is immutable")
}

/// A frozen request is stored if and only if its hash is that of its content and its id is new
/// or has that content already.
pub proof fn law_frozen_request_is_stored_under_its_digest(
    record: FrozenRequestRecord,
    canonical: Parsed,
    fence: HostFence,
    held: Option<i64>,
    existing_hash: Option<String>,
)
    ensures
        frozen_request_fault(record, canonical, fence, held, existing_hash) is None <==> {
            &&& canonical is Ok
            &&& canonical->Ok_0@ == record.content_hash@
            &&& held is Some
            &&& held->Some_0 == fence.generation as int
            &&& record.config_revision <= i64::MAX
            &&& existing_hash is None || existing_hash->Some_0@ == record.content_hash@
        },
{
}

/// A frozen request as its row is read.
#[derive(Debug)]
pub struct FrozenRequestRow {
    pub request_id: Parsed,
    pub packet_id: Parsed,
    pub composition_snapshot_id: Option<Parsed>,
    pub session_id: Parsed,
    pub task_id: Parsed,
    pub request_json: String,
    pub content_hash: Parsed,
    pub provider_id: String,
    pub model: String,
    pub config_revision: i64,
    /// The digest of the request, where it has a canonical form.
    pub canonical: Parsed,
}

/// Why a stored request cannot be read.
pub open spec fn frozen_request_row_fault(row: FrozenRequestRow) -> Option<Fault> {
    let write_failed = ErrorCode::StorageWriteFailed;
    first(
        if is_json(row.request_json@) {
            None
        } else {
            fault(write_failed, "frozen request JSON is invalid"@)
        },
        first(
            stored_fault(row.content_hash, write_failed, "frozen request hash is invalid"@),
            first(
                hashed_json_fault(row.canonical, row.content_hash->Ok_0@),
                first(
                    stored_option_fault(
                        row.composition_snapshot_id,
                        write_failed,
                        "composition snapshot ID is invalid"@,
                    ),
                    first(
                        stored_fault(row.request_id, write_failed, "request ID is invalid"@),
                        first(
                            stored_fault(row.packet_id, write_failed, "packet ID is invalid"@),
                            first(
                                stored_fault(
                                    row.session_id,
                                    write_failed,
                                    "stored session ID is invalid"@,
                                ),
                                first(
                                    stored_fault(
                                        row.task_id,
                                        write_failed,
                                        "stored task ID is invalid"@,
                                    ),
                                    u64_fault(row.config_revision, "config revision"@),
                                ),
                            ),
                        ),
                    ),
                ),
            ),
        ),
    )
}

/// The request that a row holds.
pub open spec fn frozen_request_of(row: FrozenRequestRow) -> FrozenRequestRecord {
    FrozenRequestRecord {
        request_id: row.request_id->Ok_0,
        packet_id: row.packet_id->Ok_0,
        composition_snapshot_id: parsed_option(row.composition_snapshot_id),
        session_id: row.session_id->Ok_0,
        task_id: row.task_id->Ok_0,
        request_json: row.request_json,
        content_hash: row.content_hash->Ok_0,
        provider_id: row.provider_id,
        model: row.model,
        config_revision: row.config_revision as u64,
    }
}

/// Reads a frozen request back.
pub fn frozen_request_from_row(row: FrozenRequestRow) -> (result: Result<
    FrozenRequestRecord,
    StoreError,
>)
    ensures
        answers(result, frozen_request_row_fault(row)),
        result is Ok ==> result->Ok_0 == frozen_request_of(row),
{
    let code: ErrorCode = ErrorCode::StorageWriteFailed;
    if !json_is_valid(row.request_json.as_str()) {
        return Err(StoreError::new(code, "frozen request JSON is invalid"));
    }
    let content_hash: String = stored_value(
        row.content_hash,
        code,
        "frozen request hash is invalid",
    )?;
    validate_hashed_json(&row.canonical, content_hash.as_str())?;
    let composition_snapshot_id: Option<String> = stored_option(
        row.composition_snapshot_id,
        code,
        "composition snapshot ID is invalid",
    )?;
    let request_id: String = stored_value(row.request_id, code, "request ID is invalid")?;
    let packet_id: String = stored_value(row.packet_id, code, "packet ID is invalid")?;
    let session_id: String = stored_value(row.session_id, code, "stored session ID is invalid")?;
    let task_id: String = stored_value(row.task_id, code, "stored task ID is invalid")?;
    let config_revision: u64 = to_u64(row.config_revision, "config revision")?;
    Ok(
        FrozenRequestRecord {
            request_id,
            packet_id,
            composition_snapshot_id,
            session_id,
            task_id,
            request_json: row.request_json,
            content_hash,
            provider_id: row.provider_id,
            model: row.model,
            config_revision,
        },
    )
}

/// A row holds a request as it is written: its identities and texts as they are, and
/// its numbers, which columns can hold.
pub open spec fn frozen_request_is_stored_in(record: FrozenRequestRecord, row: FrozenRequestRow) -> bool {
    &&& record.config_revision <= i64::MAX
    &&& is_json(record.request_json@)
    &&& hashed_json_fault(row.canonical, record.content_hash@) is None
    &&& row == (FrozenRequestRow {
        request_id: Ok(record.request_id),
        packet_id: Ok(record.packet_id),
        composition_snapshot_id: written_option(record.composition_snapshot_id),
        session_id: Ok(record.session_id),
        task_id: Ok(record.task_id),
        request_json: record.request_json,
        content_hash: Ok(record.content_hash),
        provider_id: record.provider_id,
        model: record.model,
        config_revision: record.config_revision as i64,
        canonical: row.canonical,
    })
}

/// What is written is read back: the row of a request reads without an error, and as
/// the record that it was written from.
pub proof fn law_stored_frozen_request_reads_back(record: FrozenRequestRecord, row: FrozenRequestRow, read: FrozenRequestRecord)
    requires
        frozen_request_is_stored_in(record, row),
        read == frozen_request_of(row),
    ensures
        frozen_request_row_fault(row) is None,
        read == record,
{
}

/// One attempt to send a request.
#[derive(Clone, Debug, PartialEq, Eq)]
pub struct ProviderAttemptRecord {
    pub attempt_id: String,
    pub request_id: String,
    pub session_id: String,
    pub task_id: String,
    pub attempt_number: u32,
    pub state: String,
    /// The attempt's events as JSON text.
    pub events: String,
    pub response_hash: Option<String>,
    pub error: Option<String>,
}

/// An attempt as its row is read.
#[derive(Debug)]
pub struct ProviderAttemptRow {
    pub attempt_id: Parsed,
    pub request_id: Parsed,
    pub session_id: Parsed,
    pub task_id: Parsed,
    pub attempt_number: i64,
    pub state: String,
    pub events_json: String,
    pub response_hash: Option<Parsed>,
    pub error: Option<String>,
}

/// Why a stored attempt cannot be read.
pub open spec fn provider_attempt_row_fault(row: ProviderAttemptRow) -> Option<Fault> {
    let write_failed = ErrorCode::StorageWriteFailed;
    first(
        if is_json(row.events_json@) {
            None
        } else {
            fault(write_failed, "provider events JSON is invalid"@)
        },
        first(
            stored_option_fault(
                row.response_hash,
                write_failed,
                "provider response hash is invalid"@,
            ),
            first(
                stored_fault(row.attempt_id, write_failed, "attempt ID is invalid"@),
                first(
                    stored_fault(row.request_id, write_failed, "request ID is invalid"@),
                    first(
                        stored_fault(row.session_id, write_failed, "stored session ID is invalid"@),
                        first(
                            stored_fault(row.task_id, write_failed, "stored task ID is invalid"@),
                            u32_fault(
                                row.attempt_number,
                                "attempt number"@,
                                "attempt number exceeds range"@,
                            ),
                        ),
                    ),
                ),
            ),
        ),
    )
}

/// The attempt that a row holds.
pub open spec fn provider_attempt_of(row: ProviderAttemptRow) -> ProviderAttemptRecord {
    ProviderAttemptRecord {
        attempt_id: row.attempt_id->Ok_0,
        request_id: row.request_id->Ok_0,
        session_id: row.session_id->Ok_0,
        task_id: row.task_id->Ok_0,
        attempt_number: row.attempt_number as u32,
        state: row.state,
        events: row.events_json,
        response_hash: parsed_option(row.response_hash),
        error: row.error,
    }
}

/// Reads an attempt back.
pub fn provider_attempt_from_row(row: ProviderAttemptRow) -> (result: Result<
    ProviderAttemptRecord,
    StoreError,
>)
    ensures
        answers(result, provider_attempt_row_fault(row)),
        result is Ok ==> result->Ok_0 == provider_attempt_of(row),
{
    let code: ErrorCode = ErrorCode::StorageWriteFailed;
    if !json_is_valid(row.events_json.as_str()) {
        return Err(StoreError::new(code, "provider events JSON is invalid"));
    }
    let response_hash: Option<String> = stored_option(
        row.response_hash,
        code,
        "provider response hash is invalid",
    )?;
    let attempt_id: String = stored_value(row.attempt_id, code, "attempt ID is invalid")?;
    let request_id: String = stored_value(row.request_id, code, "request ID is invalid")?;
    let session_id: String = stored_value(row.session_id, code, "stored session ID is invalid")?;
    let task_id: String = stored_value(row.task_id, code, "stored task ID is invalid")?;
    let attempt_number: u32 = to_u32(
        row.attempt_number,
        "attempt number",
        "attempt number exceeds range",
    )?;
    Ok(
        ProviderAttemptRecord {
            attempt_id,
            request_id,
            session_id,
            task_id,
            attempt_number,
            state: row.state,
            events: row.events_json,
            response_hash,
            error: row.error,
        },
    )
}

/// The attempt that is written of one that is handed in: the first one under its
/// identity is kept, and any other is passed over.
pub fn persist_provider_attempt(
    record: ProviderAttemptRecord,
    known: bool,
    fence: &HostFence,
    held: Option<i64>,
) -> (result: Result<Option<ProviderAttemptRecord>, StoreError>)
    ensures
        answers(result, fence_fault(held, *fence)),
        result is Ok ==> result->Ok_0 == if known {
            None
        } else {
            Some(record)
        },
{
    check_fence(held, fence)?;
    if known {
        return Ok(None);
    }
    Ok(Some(record))
}

/// A row holds an attempt as it is written: its identities and texts as they are, and
/// its numbers, which columns can hold.
pub open spec fn provider_attempt_is_stored_in(record: ProviderAttemptRecord, row: ProviderAttemptRow) -> bool {
    &&& is_json(record.events@)
    &&& row == (ProviderAttemptRow {
        attempt_id: Ok(record.attempt_id),
        request_id: Ok(record.request_id),
        session_id: Ok(record.session_id),
        task_id: Ok(record.task_id),
        attempt_number: record.attempt_number as i64,
        state: record.state,
        events_json: record.events,
        response_hash: written_option(record.response_hash),
        error: record.error,
    })
}

/// What is written is read back: the row of an attempt reads without an error, and as
/// the record that it was written from.
pub proof fn law_stored_provider_attempt_reads_back(record: ProviderAttemptRecord, row: ProviderAttemptRow, read: ProviderAttemptRecord)
    requires
        provider_attempt_is_stored_in(record, row),
        read == provider_attempt_of(row),
    ensures
        provider_attempt_row_fault(row) is None,
        read == record,
{
}

// ---------------------------------------------------------------------------
// Snapshots and checkpoints

/// A snapshot of a session through one of its events.
#[derive(Clone, Debug, PartialEq, Eq)]
pub struct SnapshotRecord {
    pub snapshot_id: String,
    pub session_id: String,
    pub task_id: String,
    pub through_sequence: u64,
    pub schema_version: u16,
    /// The snapshot as JSON text.
    pub content: String,
    pub content_hash: String,
}

/// Why a snapshot is not written. `canonical` is the digest of its content.
pub open spec fn snapshot_fault(
    snapshot: SnapshotRecord,
    canonical: Parsed,
    fence: HostFence,
    held: Option<i64>,
    session: Option<SessionRow>,
) -> Option<Fault> {
    first(
        digest_fault(
            canonical,
            snapshot.content_hash@,
            "snapshot content is not canonical: "@,
            ErrorCode::SnapshotCorrupt,
            "snapshot content hash does not match canonical content"@,
        ),
        first(
            fence_fault(held, fence),
            first(
                existing_session_fault(session, snapshot.task_id@),
                first(
                    u64_fault(next_of(session), "session sequence"@),
                    if snapshot.through_sequence >= next_of(session) {
                        fault(
                            ErrorCode::SequenceConflict,
                            "snapshot cannot cover an uncommitted event"@,
                        )
                    } else if snapshot.through_sequence == 0 || snapshot.schema_version == 0 {
                        fault(
                            ErrorCode::StorageWriteFailed,
                            "insert snapshot: sequences and versions start at one"@,
                        )
                    } else {
                        None
                    },
                ),
            ),
        ),
    )
}

/// Refuses a snapshot that is not what its digest says, that covers events which the
/// journal does not hold, or that covers none.
pub fn write_snapshot(
    snapshot: &SnapshotRecord,
    canonical: &Parsed,
    fence: &HostFence,
    held: Option<i64>,
    session: &Option<SessionRow>,
) -> (result: Result<(), StoreError>)
    ensures
        answers(result, snapshot_fault(*snapshot, *canonical, *fence, held, *session)),
{
    check_digest(
        canonical,
        snapshot.content_hash.as_str(),
        "snapshot content is not canonical: ",
        ErrorCode::SnapshotCorrupt,
        "snapshot content hash does not match canonical content",
    )?;
    check_fence(held, fence)?;
    ensure_session_existing(session, snapshot.task_id.as_str())?;
    let next: i64 = match session {
        Some(row) => row.next_sequence,
        None => 1,
    };
    let next: u64 = to_u64(next, "session sequence")?;
    if snapshot.through_sequence >= next {
        return Err(
            StoreError::new(
                ErrorCode::SequenceConflict,
                "snapshot cannot cover an uncommitted event",
            ),
        );
    }
    if snapshot.through_sequence == 0 || snapshot.schema_version == 0 {
        return Err(
            StoreError::new(
                ErrorCode::StorageWriteFailed,
                "insert snapshot: sequences and versions start at one",
            ),
        );
    }
    Ok(())
}

/// A snapshot is written if and only if its hash is that of its content, its session is there
/// and bound to its task, and it covers events from the first on that are all committed.
pub proof fn law_snapshot_covers_committed_events(
    snapshot: SnapshotRecord,
    canonical: Parsed,
    fence: HostFence,
    held: Option<i64>,
    session: Option<SessionRow>,
)
    ensures
        snapshot_fault(snapshot, canonical, fence, held, session) is None <==> {
            &&& canonical is Ok
            &&& canonical->Ok_0@ == snapshot.content_hash@
            &&& held is Some
            &&& held->Some_0 == fence.generation as int
            &&& session is Some
            &&& session->Some_0.task_id is Ok
            &&& session->Some_0.task_id->Ok_0@ == snapshot.task_id@
            &&& 1 <= snapshot.through_sequence < session->Some_0.next_sequence
            &&& 1 <= snapshot.schema_version
        },
{
}

/// A snapshot as its row is read.
#[derive(Debug)]
pub struct SnapshotRow {
    pub snapshot_id: Parsed,
    pub session_id: Parsed,
    pub task_id: Parsed,
    pub through_sequence: i64,
    pub schema_version: i64,
    pub snapshot_json: String,
    pub content_hash: Parsed,
}

/// Why a stored snapshot cannot be read.
pub open spec fn snapshot_row_fault(row: SnapshotRow) -> Option<Fault> {
    let write_failed = ErrorCode::StorageWriteFailed;
    first(
        stored_fault(row.snapshot_id, write_failed, "stored snapshot ID is invalid"@),
        first(
            stored_fault(row.session_id, write_failed, "stored snapshot session ID is invalid"@),
            first(
                stored_fault(row.task_id, write_failed, "stored snapshot task ID is invalid"@),
                first(
                    if is_json(row.snapshot_json@) {
                        None
                    } else {
                        fault(ErrorCode::SnapshotCorrupt, "snapshot JSON is corrupt"@)
                    },
                    first(
                        stored_fault(
                            row.content_hash,
                            ErrorCode::SnapshotCorrupt,
                            "snapshot content hash is invalid"@,
                        ),
                        first(
                            u64_fault(row.through_sequence, "snapshot sequence"@),
                            if 0 <= row.schema_version <= u16::MAX {
                                None
                            } else {
                                fault(
                                    ErrorCode::SnapshotCorrupt,
                                    "snapshot schema version is invalid"@,
                                )
                            },
                        ),
                    ),
                ),
            ),
        ),
    )
}

/// The snapshot that a row holds.
pub open spec fn snapshot_of(row: SnapshotRow) -> SnapshotRecord {
    SnapshotRecord {
        snapshot_id: row.snapshot_id->Ok_0,
        session_id: row.session_id->Ok_0,
        task_id: row.task_id->Ok_0,
        through_sequence: row.through_sequence as u64,
        schema_version: row.schema_version as u16,
        content: row.snapshot_json,
        content_hash: row.content_hash->Ok_0,
    }
}

/// Reads a snapshot back.
pub fn snapshot_from_row(row: SnapshotRow) -> (result: Result<SnapshotRecord, StoreError>)
    ensures
        answers(result, snapshot_row_fault(row)),
        result is Ok ==> result->Ok_0 == snapshot_of(row),
{
    let code: ErrorCode = ErrorCode::StorageWriteFailed;
    let snapshot_id: String = stored_value(row.snapshot_id, code, "stored snapshot ID is invalid")?;
    let session_id: String = stored_value(
        row.session_id,
        code,
        "stored snapshot session ID is invalid",
    )?;
    let task_id: String = stored_value(row.task_id, code, "stored snapshot task ID is invalid")?;
    if !json_is_valid(row.snapshot_json.as_str()) {
        return Err(StoreError::new(ErrorCode::SnapshotCorrupt, "snapshot JSON is corrupt"));
    }
    let content_hash: String = stored_value(
        row.content_hash,
        ErrorCode::SnapshotCorrupt,
        "snapshot content hash is invalid",
    )?;
    let through_sequence: u64 = to_u64(row.through_sequence, "snapshot sequence")?;
    if row.schema_version < 0 || row.schema_version > u16::MAX as i64 {
        return Err(
            StoreError::new(ErrorCode::SnapshotCorrupt, "snapshot schema version is invalid"),
        );
    }
    Ok(
        SnapshotRecord {
            snapshot_id,
            session_id,
            task_id,
            through_sequence,
            schema_version: row.schema_version as u16,
            content: row.snapshot_json,
            content_hash,
        },
    )
}

/// A row holds a snapshot as it is written: its identities and texts as they are, and
/// its numbers, which columns can hold.
pub open spec fn snapshot_is_stored_in(record: SnapshotRecord, row: SnapshotRow) -> bool {
    &&& record.through_sequence <= i64::MAX
    &&& is_json(record.content@)
    &&& row == (SnapshotRow {
        snapshot_id: Ok(record.snapshot_id),
        session_id: Ok(record.session_id),
        task_id: Ok(record.task_id),
        through_sequence: record.through_sequence as i64,
        schema_version: record.schema_version as i64,
        snapshot_json: record.content,
        content_hash: Ok(record.content_hash),
    })
}

/// What is written is read back: the row of a snapshot reads without an error, and as
/// the record that it was written from.
pub proof fn law_stored_snapshot_reads_back(record: SnapshotRecord, row: SnapshotRow, read: SnapshotRecord)
    requires
        snapshot_is_stored_in(record, row),
        read == snapshot_of(row),
    ensures
        snapshot_row_fault(row) is None,
        read == record,
{
}

/// A checkpoint of a session's context.
#[derive(Clone, Debug, PartialEq, Eq)]
pub struct ContextCheckpointRecord {
    pub checkpoint_id: String,
    pub session_id: String,
    pub task_id: String,
    pub through_sequence: u64,
    pub revision: u64,
    /// The checkpoint as JSON text.
    pub content: String,
    pub content_hash: String,
}

/// A checkpoint revision that is not later than the last one. A stored revision
/// that is negative counts as later than any.
pub open spec fn stale_revision(prior: Option<i64>, revision: u64) -> bool {
    prior is Some && (prior->Some_0 < 0 || revision <= prior->Some_0)
}

/// Why a checkpoint is not written. `next_sequence` is the session's next
/// sequence, `prior` the revision of its last checkpoint.
pub open spec fn checkpoint_fault(
    record: ContextCheckpointRecord,
    canonical: Parsed,
    expected_last_sequence: u64,
    fence: HostFence,
    held: Option<i64>,
    next_sequence: i64,
    prior: Option<i64>,
) -> Option<Fault> {
    first(
        hashed_json_fault(canonical, record.content_hash@),
        first(
            fence_fault(held, fence),
            first(
                u64_fault(next_sequence, "session sequence"@),
                if next_sequence == 0 {
                    fault(ErrorCode::CompactionConflict, "session sequence is invalid"@)
                } else if next_sequence - 1 != expected_last_sequence {
                    fault(
                        ErrorCode::CompactionConflict,
                        "context checkpoint CAS expected "@ + decimal(
                            expected_last_sequence as nat,
                        ) + ", found "@ + decimal((next_sequence - 1) as nat),
                    )
                } else if stale_revision(prior, record.revision) {
                    fault(ErrorCode::CompactionConflict, "context checkpoint revision is stale"@)
                } else {
                    first(
                        i64_fault(record.through_sequence, "checkpoint sequence"@),
                        i64_fault(record.revision, "checkpoint revision"@),
                    )
                },
            ),
        ),
    )
}

/// Writes a checkpoint where the session's journal ends at the event that the
/// caller has read, and no later checkpoint is there.
pub fn write_context_checkpoint_cas(
    record: &ContextCheckpointRecord,
    canonical: &Parsed,
    expected_last_sequence: u64,
    fence: &HostFence,
    held: Option<i64>,
    next_sequence: i64,
    prior: Option<i64>,
) -> (result: Result<(), StoreError>)
    ensures
        answers(
            result,
            checkpoint_fault(
                *record,
                *canonical,
                expected_last_sequence,
                *fence,
                held,
                next_sequence,
                prior,
            ),
        ),
{
    validate_hashed_json(canonical, record.content_hash.as_str())?;
    check_fence(held, fence)?;
    let next: u64 = to_u64(next_sequence, "session sequence")?;
    if next == 0 {
        return Err(StoreError::new(ErrorCode::CompactionConflict, "session sequence is invalid"));
    }
    let actual: u64 = next - 1;
    if actual != expected_last_sequence {
        let wanted: String = decimal_text(expected_last_sequence);
        let found: String = decimal_text(actual);
        let message: String = cat4(
            "context checkpoint CAS expected ",
            wanted.as_str(),
            ", found ",
            found.as_str(),
        );
        return Err(StoreError::new(ErrorCode::CompactionConflict, message.as_str()));
    }
    let stale: bool = match prior {
        None => false,
        Some(value) => value < 0 || record.revision <= value as u64,
    };
    if stale {
        return Err(
            StoreError::new(ErrorCode::CompactionConflict, "context checkpoint revision is stale"),
        );
    }
    let sequence: i64 = to_i64(record.through_sequence, "checkpoint sequence")?;
    let revision: i64 = to_i64(record.revision, "checkpoint revision")?;
    Ok(())
}

/// A checkpoint is written if and only if its hash is that of its content, the last event of
/// its session is the one that was expected, and its revision is later than the one before it.
/// The first one of a session may have any revision.
pub proof fn law_checkpoint_follows_the_last_event(
    record: ContextCheckpointRecord,
    canonical: Parsed,
    expected_last_sequence: u64,
    fence: HostFence,
    held: Option<i64>,
    next_sequence: i64,
    prior: Option<i64>,
)
    ensures
        checkpoint_fault(
            record,
            canonical,
            expected_last_sequence,
            fence,
            held,
            next_sequence,
            prior,
        ) is None <==> {
            &&& canonical is Ok
            &&& canonical->Ok_0@ == record.content_hash@
            &&& held is Some
            &&& held->Some_0 == fence.generation as int
            &&& next_sequence == expected_last_sequence + 1
            &&& prior is None || 0 <= prior->Some_0 < record.revision
            &&& record.through_sequence <= i64::MAX
            &&& record.revision <= i64::MAX
        },
{
}

/// Checkpoint revisions only grow: once a checkpoint is written, one of the same
/// or an earlier revision is refused, wherever its session stands by then and whichever
/// host asks.
pub proof fn law_checkpoint_revisions_grow(
    record: ContextCheckpointRecord,
    canonical: Parsed,
    expected: u64,
    fence: HostFence,
    held: Option<i64>,
    next_sequence: i64,
    prior: Option<i64>,
    later: ContextCheckpointRecord,
    later_canonical: Parsed,
    later_expected: u64,
    later_fence: HostFence,
    later_held: Option<i64>,
    later_sequence: i64,
)
    requires
        checkpoint_fault(record, canonical, expected, fence, held, next_sequence, prior) is None,
        later.revision <= record.revision,
    ensures
        checkpoint_fault(
            later,
            later_canonical,
            later_expected,
            later_fence,
            later_held,
            later_sequence,
            Some(record.revision as i64),
        ) is Some,
{
}

/// A checkpoint as its row is read.
#[derive(Debug)]
pub struct CheckpointRow {
    pub checkpoint_id: String,
    pub session_id: Parsed,
    pub task_id: Parsed,
    pub through_sequence: i64,
    pub revision: i64,
    pub content_json: String,
    pub content_hash: Parsed,
    /// The digest of the content, where it has a canonical form.
    pub canonical: Parsed,
}

/// Why a stored checkpoint cannot be read.
pub open spec fn checkpoint_row_fault(row: CheckpointRow) -> Option<Fault> {
    let write_failed = ErrorCode::StorageWriteFailed;
    first(
        if is_json(row.content_json@) {
            None
        } else {
            fault(write_failed, "checkpoint JSON is invalid"@)
        },
        first(
            stored_fault(row.content_hash, write_failed, "checkpoint hash is invalid"@),
            first(
                hashed_json_fault(row.canonical, row.content_hash->Ok_0@),
                first(
                    stored_fault(row.session_id, write_failed, "stored session ID is invalid"@),
                    first(
                        stored_fault(row.task_id, write_failed, "stored task ID is invalid"@),
                        first(
                            u64_fault(row.through_sequence, "checkpoint sequence"@),
                            u64_fault(row.revision, "checkpoint revision"@),
                        ),
                    ),
                ),
            ),
        ),
    )
}

/// The checkpoint that a row holds.
pub open spec fn checkpoint_of(row: CheckpointRow) -> ContextCheckpointRecord {
    ContextCheckpointRecord {
        checkpoint_id: row.checkpoint_id,
        session_id: row.session_id->Ok_0,
        task_id: row.task_id->Ok_0,
        through_sequence: row.through_sequence as u64,
        revision: row.revision as u64,
        content: row.content_json,
        content_hash: row.content_hash->Ok_0,
    }
}

/// Reads a checkpoint back.
pub fn checkpoint_from_row(row: CheckpointRow) -> (result: Result<
    ContextCheckpointRecord,
    StoreError,
>)
    ensures
        answers(result, checkpoint_row_fault(row)),
        result is Ok ==> result->Ok_0 == checkpoint_of(row),
{
    let code: ErrorCode = ErrorCode::StorageWriteFailed;
    if !json_is_valid(row.content_json.as_str()) {
        return Err(StoreError::new(code, "checkpoint JSON is invalid"));
    }
    let content_hash: String = stored_value(row.content_hash, code, "checkpoint hash is invalid")?;
    validate_hashed_json(&row.canonical, content_hash.as_str())?;
    let session_id: String = stored_value(row.session_id, code, "stored session ID is invalid")?;
    let task_id: String = stored_value(row.task_id, code, "stored task ID is invalid")?;
    let through_sequence: u64 = to_u64(row.through_sequence, "checkpoint sequence")?;
    let revision: u64 = to_u64(row.revision, "checkpoint revision")?;
    Ok(
        ContextCheckpointRecord {
            checkpoint_id: row.checkpoint_id,
            session_id,
            task_id,
            through_sequence,
            revision,
            content: row.content_json,
            content_hash,
        },
    )
}

/// A row holds a checkpoint as it is written: its identities and texts as they are, and
/// its numbers, which columns can hold.
pub open spec fn checkpoint_is_stored_in(record: ContextCheckpointRecord, row: CheckpointRow) -> bool {
    &&& record.through_sequence <= i64::MAX
    &&& record.revision <= i64::MAX
    &&& is_json(record.content@)
    &&& hashed_json_fault(row.canonical, record.content_hash@) is None
    &&& row == (CheckpointRow {
        checkpoint_id: record.checkpoint_id,
        session_id: Ok(record.session_id),
        task_id: Ok(record.task_id),
        through_sequence: record.through_sequence as i64,
        revision: record.revision as i64,
        content_json: record.content,
        content_hash: Ok(record.content_hash),
        canonical: row.canonical,
    })
}

/// What is written is read back: the row of a checkpoint reads without an error, and as
/// the record that it was written from.
pub proof fn law_stored_checkpoint_reads_back(record: ContextCheckpointRecord, row: CheckpointRow, read: ContextCheckpointRecord)
    requires
        checkpoint_is_stored_in(record, row),
        read == checkpoint_of(row),
    ensures
        checkpoint_row_fault(row) is None,
        read == record,
{
}

// ---------------------------------------------------------------------------
// Sessions as they are listed

/// A session as it is listed.
#[derive(Clone, Debug, PartialEq, Eq)]
pub struct SessionSummary {
    pub session_id: String,
    pub task_id: String,
    pub next_sequence: u64,
    pub input_count: u64,
    pub latest_snapshot_sequence: Option<u64>,
}

/// A listed session as its row is read.
#[derive(Debug)]
pub struct SessionSummaryRow {
    pub session_id: Parsed,
    pub task_id: Parsed,
    pub next_sequence: i64,
    pub input_count: i64,
    pub snapshot_sequence: Option<i64>,
}

/// Why a listed session cannot be read.
pub open spec fn session_summary_row_fault(row: SessionSummaryRow) -> Option<Fault> {
    let write_failed = ErrorCode::StorageWriteFailed;
    first(
        stored_fault(row.session_id, write_failed, "stored session ID is invalid"@),
        first(
            stored_fault(row.task_id, write_failed, "stored task ID is invalid"@),
            first(
                u64_fault(row.next_sequence, "next sequence"@),
                first(
                    u64_fault(row.input_count, "input count"@),
                    u64_option_fault(row.snapshot_sequence, "snapshot sequence"@),
                ),
            ),
        ),
    )
}

/// Reads a listed session back.
pub fn session_summary_from_row(row: SessionSummaryRow) -> (result: Result<
    SessionSummary,
    StoreError,
>)
    ensures
        answers(result, session_summary_row_fault(row)),
        result is Ok ==> result->Ok_0 == (SessionSummary {
            session_id: row.session_id->Ok_0,
            task_id: row.task_id->Ok_0,
            next_sequence: row.next_sequence as u64,
            input_count: row.input_count as u64,
            latest_snapshot_sequence: u64_option(row.snapshot_sequence),
        }),
{
    let code: ErrorCode = ErrorCode::StorageWriteFailed;
    let session_id: String = stored_value(row.session_id, code, "stored session ID is invalid")?;
    let task_id: String = stored_value(row.task_id, code, "stored task ID is invalid")?;
    let next_sequence: u64 = to_u64(row.next_sequence, "next sequence")?;
    let input_count: u64 = to_u64(row.input_count, "input count")?;
    let latest_snapshot_sequence: Option<u64> = to_u64_option(
        row.snapshot_sequence,
        "snapshot sequence",
    )?;
    Ok(SessionSummary { session_id, task_id, next_sequence, input_count, latest_snapshot_sequence })
}

/// A session is summed up if and only if its identities can be read and none of its numbers is
/// less than nothing.
pub proof fn law_session_is_summed_up(row: SessionSummaryRow)
    ensures
        session_summary_row_fault(row) is None <==> {
            &&& row.session_id is Ok
            &&& row.task_id is Ok
            &&& 0 <= row.next_sequence
            &&& 0 <= row.input_count
            &&& row.snapshot_sequence is None || 0 <= row.snapshot_sequence->Some_0
        },
{
}

/// The first of the listed sessions with an identity.
pub fn session_summary<'a>(summaries: &'a Vec<SessionSummary>, session_id: &str) -> (found: Option<
    &'a SessionSummary,
>)
    ensures
        found is None ==> forall|i: int|
            0 <= i < summaries@.len() ==> #[trigger] summaries@[i].session_id@ != session_id@,
        found is Some ==> exists|i: int|
            0 <= i < summaries@.len() && *found->Some_0 == #[trigger] summaries@[i]
                && summaries@[i].session_id@ == session_id@ && forall|j: int|
                0 <= j < i ==> #[trigger] summaries@[j].session_id@ != session_id@,
{
    let mut i: usize = 0;
    while i < summaries.len()
        invariant
            i <= summaries.len(),
            forall|j: int| 0 <= j < i ==> #[trigger] summaries@[j].session_id@ != session_id@,
        decreases summaries.len() - i,
    {
        if same_text(summaries[i].session_id.as_str(), session_id) {
            assert(summaries@[i as int].session_id@ == session_id@);
            return Some(&summaries[i]);
        }
        i += 1;
    }
    None
}

// ---------------------------------------------------------------------------
// Runtime commands

/// A command that a host works off.
#[derive(Clone, Debug, PartialEq, Eq)]
pub struct RuntimeCommandRecord {
    pub command_id: String,
    pub session_id: String,
    pub task_id: String,
    pub state: RuntimeCommandState,
    pub attempts: u32,
    pub owner_generation: u64,
    /// The payload as JSON text.
    pub payload: String,
    pub last_error: Option<String>,
}

/// A command as its row is read.
#[derive(Debug)]
pub struct RuntimeCommandRow {
    pub command_id: Parsed,
    pub session_id: Parsed,
    pub task_id: Parsed,
    pub state: String,
    pub attempts: i64,
    pub owner_generation: i64,
    pub payload_json: String,
    pub last_error: Option<String>,
}

/// Why a stored command cannot be read.
pub open spec fn runtime_command_row_fault(row: RuntimeCommandRow) -> Option<Fault> {
    let write_failed = ErrorCode::StorageWriteFailed;
    first(
        if forall|state: RuntimeCommandState| #[trigger] state.text() != row.state@ {
            fault(write_failed, "stored runtime command state is invalid"@)
        } else {
            None
        },
        first(
            stored_fault(row.command_id, write_failed, "stored command ID is invalid"@),
            first(
                stored_fault(row.session_id, write_failed, "stored session ID is invalid"@),
                first(
                    stored_fault(row.task_id, write_failed, "stored task ID is invalid"@),
                    first(
                        u32_fault(
                            row.attempts,
                            "command attempts"@,
                            "command attempts exceed range"@,
                        ),
                        first(
                            u64_fault(row.owner_generation, "command generation"@),
                            if is_json(row.payload_json@) {
                                None
                            } else {
                                fault(write_failed, "stored command payload is invalid"@)
                            },
                        ),
                    ),
                ),
            ),
        ),
    )
}

/// The command that a row holds, under the state that its text stands for.
pub open spec fn runtime_command_of(
    row: RuntimeCommandRow,
    state: RuntimeCommandState,
) -> RuntimeCommandRecord {
    RuntimeCommandRecord {
        command_id: row.command_id->Ok_0,
        session_id: row.session_id->Ok_0,
        task_id: row.task_id->Ok_0,
        state,
        attempts: row.attempts as u32,
        owner_generation: row.owner_generation as u64,
        payload: row.payload_json,
        last_error: row.last_error,
    }
}

/// A record is what a row holds.
pub open spec fn runtime_command_reads_as(
    row: RuntimeCommandRow,
    record: RuntimeCommandRecord,
) -> bool {
    record.state.text() == row.state@ && record == runtime_command_of(row, record.state)
}

/// Reads a command back.
pub fn runtime_command_from_row(row: RuntimeCommandRow) -> (result: Result<
    RuntimeCommandRecord,
    StoreError,
>)
    ensures
        answers(result, runtime_command_row_fault(row)),
        result is Ok ==> runtime_command_reads_as(row, result->Ok_0),
{
    let code: ErrorCode = ErrorCode::StorageWriteFailed;
    let state: RuntimeCommandState = match RuntimeCommandState::parse(row.state.as_str()) {
        Some(state) => state,
        None => {
            return Err(StoreError::new(code, "stored runtime command state is invalid"));
        },
    };
    assert(state.text() == row.state@);
    let command_id: String = stored_value(row.command_id, code, "stored command ID is invalid")?;
    let session_id: String = stored_value(row.session_id, code, "stored session ID is invalid")?;
    let task_id: String = stored_value(row.task_id, code, "stored task ID is invalid")?;
    let attempts: u32 = to_u32(row.attempts, "command attempts", "command attempts exceed range")?;
    let owner_generation: u64 = to_u64(row.owner_generation, "command generation")?;
    if !json_is_valid(row.payload_json.as_str()) {
        return Err(StoreError::new(code, "stored command payload is invalid"));
    }
    Ok(
        RuntimeCommandRecord {
            command_id,
            session_id,
            task_id,
            state,
            attempts,
            owner_generation,
            payload: row.payload_json,
            last_error: row.last_error,
        },
    )
}

/// A row holds a command as it is written: its identities and texts as they are, and
/// its numbers, which columns can hold.
pub open spec fn runtime_command_is_stored_in(record: RuntimeCommandRecord, row: RuntimeCommandRow) -> bool {
    &&& record.owner_generation <= i64::MAX
    &&& is_json(record.payload@)
    &&& row.state@ == record.state.text()
    &&& row == (RuntimeCommandRow {
        command_id: Ok(record.command_id),
        session_id: Ok(record.session_id),
        task_id: Ok(record.task_id),
        owner_generation: record.owner_generation as i64,
        attempts: record.attempts as i64,
        payload_json: record.payload,
        last_error: record.last_error,
        state: row.state,
    })
}

/// What is written is read back: the row of a command reads without an error, and as
/// the record that it was written from.
pub proof fn law_stored_runtime_command_reads_back(record: RuntimeCommandRecord, row: RuntimeCommandRow, read: RuntimeCommandRecord)
    requires
        runtime_command_is_stored_in(record, row),
        runtime_command_reads_as(row, read),
    ensures
        runtime_command_row_fault(row) is None,
        read == record,
{
    crate::states::law_runtime_command_state_texts_differ(record.state, read.state);
}

/// Whether a command is queued. A command that is already there is not queued
/// again.
pub fn enqueue_runtime_command(
    record: &RuntimeCommandRecord,
    fence: &HostFence,
    held: Option<i64>,
    known: bool,
) -> (result: Result<bool, StoreError>)
    ensures
        answers(
            result,
            first(
                fence_fault(held, *fence),
                i64_fault(record.owner_generation, "command generation"@),
            ),
        ),
        result is Ok ==> result->Ok_0 == !known,
{
    check_fence(held, fence)?;
    let generation: i64 = to_i64(record.owner_generation, "command generation")?;
    Ok(!known)
}

/// A command that is done takes no further attempt.
pub open spec fn is_done(state: RuntimeCommandState) -> bool {
    state == RuntimeCommandState::Completed || state == RuntimeCommandState::Canceled
}

/// Why a command cannot be claimed.
pub open spec fn claim_fault(
    row: Option<RuntimeCommandRow>,
    max_attempts: u32,
    fence: HostFence,
    held: Option<i64>,
) -> Option<Fault> {
    first(
        fence_fault(held, fence),
        match row {
            None => fault(ErrorCode::InvalidPayload, "runtime command does not exist"@),
            Some(stored) => first(
                runtime_command_row_fault(stored),
                if stored.state@ == RuntimeCommandState::Completed.text() || stored.state@
                    == RuntimeCommandState::Canceled.text() {
                    None
                } else if stored.attempts >= max_attempts {
                    fault(ErrorCode::RetryExhausted, "runtime command retry limit reached"@)
                } else {
                    None
                },
            ),
        },
    )
}

/// What claiming a command does.
#[derive(Clone, Debug, PartialEq, Eq)]
pub struct CommandClaim {
    /// The command as its claimant is told, with the error that its last attempt left.
    pub record: RuntimeCommandRecord,
    /// The command as it is stored from now on, where something is written.
    pub stored: Option<RuntimeCommandRecord>,
}

/// A claim does this to a command: one more attempt, under the writing host's
/// generation, and no error is left in store. A command that is done is handed back as
/// it is, and nothing is written.
pub open spec fn claims_as(
    current: RuntimeCommandRecord,
    fence: HostFence,
    claim: CommandClaim,
) -> bool {
    if is_done(current.state) {
        claim == (CommandClaim { record: current, stored: None })
    } else {
        let claimed = RuntimeCommandRecord {
            attempts: (current.attempts + 1) as u32,
            state: RuntimeCommandState::Claimed,
            owner_generation: fence.generation,
            ..current
        };
        claim == (CommandClaim {
            record: claimed,
            stored: Some(RuntimeCommandRecord { last_error: None, ..claimed }),
        })
    }
}

/// Claims a command for the writing host.
pub fn claim_runtime_command(
    row: Option<RuntimeCommandRow>,
    max_attempts: u32,
    fence: &HostFence,
    held: Option<i64>,
) -> (result: Result<CommandClaim, StoreError>)
    ensures
        answers(result, claim_fault(row, max_attempts, *fence, held)),
        result is Ok ==> exists|current: RuntimeCommandRecord| #[trigger]
            runtime_command_reads_as(row->Some_0, current) && claims_as(
                current,
                *fence,
                result->Ok_0,
            ),
{
    check_fence(held, fence)?;
    let row: RuntimeCommandRow = match row {
        Some(row) => row,
        None => {
            return Err(
                StoreError::new(ErrorCode::InvalidPayload, "runtime command does not exist"),
            );
        },
    };
    let ghost stored = row;
    let mut record: RuntimeCommandRecord = runtime_command_from_row(row)?;
    let ghost current = record;
    assert(runtime_command_reads_as(stored, current));
    proof {
        crate::states::law_runtime_command_state_texts_differ(
            record.state,
            RuntimeCommandState::Completed,
        );
        crate::states::law_runtime_command_state_texts_differ(
            record.state,
            RuntimeCommandState::Canceled,
        );
    }
    if record.state == RuntimeCommandState::Completed || record.state
        == RuntimeCommandState::Canceled {
        return Ok(CommandClaim { record, stored: None });
    }
    if record.attempts >= max_attempts {
        return Err(
            StoreError::new(ErrorCode::RetryExhausted, "runtime command retry limit reached"),
        );
    }
    record.attempts = record.attempts.saturating_add(1);
    record.state = RuntimeCommandState::Claimed;
    record.owner_generation = fence.generation;
    let stored: RuntimeCommandRecord = RuntimeCommandRecord {
        command_id: record.command_id.clone(),
        session_id: record.session_id.clone(),
        task_id: record.task_id.clone(),
        state: record.state,
        attempts: record.attempts,
        owner_generation: record.owner_generation,
        payload: record.payload.clone(),
        last_error: None,
    };
    let claim: CommandClaim = CommandClaim { record, stored: Some(stored) };
    assert(claims_as(current, *fence, claim));
    Ok(claim)
}

/// A runtime command is claimed, whoever had it, as long as an attempt is left. It is then
/// claimed by the host, one attempt on and without an error. A command that is completed or
/// canceled is handed back as it is, and nothing is stored.
pub proof fn law_open_command_is_claimed(
    record: RuntimeCommandRecord,
    row: RuntimeCommandRow,
    max_attempts: u32,
    fence: HostFence,
    held: Option<i64>,
    claim: CommandClaim,
)
    requires
        runtime_command_is_stored_in(record, row),
    ensures
        claim_fault(Some(row), max_attempts, fence, held) is None <==> {
            &&& held is Some
            &&& held->Some_0 == fence.generation as int
            &&& record.state == RuntimeCommandState::Completed || record.state
                == RuntimeCommandState::Canceled || record.attempts < max_attempts
        },
        held is Some && held->Some_0 == fence.generation as int && claim_fault(
            Some(row),
            max_attempts,
            fence,
            held,
        ) is Some ==> claim_fault(Some(row), max_attempts, fence, held)->Some_0.code
            == ErrorCode::RetryExhausted,
        claim_fault(None, max_attempts, fence, held) is Some,
        claims_as(record, fence, claim) && (record.state == RuntimeCommandState::Completed
            || record.state == RuntimeCommandState::Canceled) ==> claim.record == record
            && claim.stored is None,
        claims_as(record, fence, claim) && record.state != RuntimeCommandState::Completed
            && record.state != RuntimeCommandState::Canceled && record.attempts < max_attempts
            ==> {
            &&& claim.record.state == RuntimeCommandState::Claimed
            &&& claim.record.attempts == record.attempts + 1
            &&& claim.record.owner_generation == fence.generation
            &&& claim.record.command_id == record.command_id
            &&& claim.record.session_id == record.session_id
            &&& claim.record.task_id == record.task_id
            &&& claim.record.payload == record.payload
            &&& claim.record.last_error == record.last_error
            &&& claim.stored is Some
            &&& claim.stored->Some_0.state == RuntimeCommandState::Claimed
            &&& claim.stored->Some_0.attempts == record.attempts + 1
            &&& claim.stored->Some_0.owner_generation == fence.generation
            &&& claim.stored->Some_0.command_id == record.command_id
            &&& claim.stored->Some_0.payload == record.payload
            &&& claim.stored->Some_0.last_error is None
        },
{
    assert(record.state.text() == row.state@);
    crate::states::law_runtime_command_state_texts_differ(
        record.state,
        RuntimeCommandState::Completed,
    );
    crate::states::law_runtime_command_state_texts_differ(
        record.state,
        RuntimeCommandState::Canceled,
    );
}

/// A command, as far as completing it looks at it.
#[derive(Clone, Debug, PartialEq, Eq)]
pub struct OwnedCommand {
    pub owner_generation: i64,
    pub state: String,
    pub last_error: Option<String>,
}

/// Why a runtime command is not completed.
pub open spec fn complete_fault(
    command: Option<OwnedCommand>,
    owner_generation: u64,
    fence: HostFence,
    held: Option<i64>,
) -> Option<Fault> {
    first(
        fence_fault(held, fence),
        first(
            i64_fault(owner_generation, "command generation"@),
            if command is Some && command->Some_0.owner_generation == owner_generation {
                None
            } else {
                fault(
                    ErrorCode::RuntimeCommandConflict,
                    "runtime command owner is stale"@,
                )
            },
        ),
    )
}

/// Lets the owner of a command complete it, with a state and an error, where there is
/// one.
pub fn complete_runtime_command(
    command: Option<OwnedCommand>,
    owner_generation: u64,
    state: RuntimeCommandState,
    error: Option<String>,
    fence: &HostFence,
    held: Option<i64>,
) -> (result: Result<OwnedCommand, StoreError>)
    ensures
        answers(result, complete_fault(command, owner_generation, *fence, held)),
        result is Ok ==> {
            let after = result->Ok_0;
            &&& after.owner_generation == owner_generation
            &&& after.state@ == state.text()
            &&& after.last_error == error
        },
{
    check_fence(held, fence)?;
    let generation: i64 = to_i64(owner_generation, "command generation")?;
    match command {
        Some(stored) => if stored.owner_generation == generation {
            return Ok(
                OwnedCommand {
                    owner_generation: generation,
                    state: state.as_str().to_owned(),
                    last_error: error,
                },
            );
        },
        None => {},
    }
    Err(StoreError::new(ErrorCode::RuntimeCommandConflict, "runtime command owner is stale"))
}

/// Why a command takes no further attempt. `attempts` is what its owner has used,
/// where the command is still its own.
pub open spec fn bump_fault(
    attempts: Option<i64>,
    owner_generation: u64,
    max_attempts: u32,
    fence: HostFence,
    held: Option<i64>,
) -> Option<Fault> {
    first(
        fence_fault(held, fence),
        first(
            i64_fault(owner_generation, "command generation"@),
            match attempts {
                None => fault(
                    ErrorCode::RuntimeCommandConflict,
                    "runtime command owner is stale"@,
                ),
                Some(used) => first(
                    u32_fault(used, "command attempts"@, "command attempts exceed range"@),
                    if used >= max_attempts {
                        fault(ErrorCode::RetryExhausted, "runtime command retry limit reached"@)
                    } else {
                        None
                    },
                ),
            },
        ),
    )
}

/// A command whose next attempt begins.
#[derive(Clone, Copy, Debug, PartialEq, Eq)]
pub struct RetriedCommand {
    pub attempts: u32,
    pub state: RuntimeCommandState,
}

/// Counts one more attempt at a command, which is claimed afterwards.
pub fn bump_runtime_command_attempt(
    attempts: Option<i64>,
    owner_generation: u64,
    max_attempts: u32,
    fence: &HostFence,
    held: Option<i64>,
) -> (result: Result<RetriedCommand, StoreError>)
    ensures
        answers(result, bump_fault(attempts, owner_generation, max_attempts, *fence, held)),
        result is Ok ==> result->Ok_0.attempts == attempts->Some_0 + 1,
        result is Ok ==> result->Ok_0.attempts <= max_attempts,
        result is Ok ==> result->Ok_0.state == RuntimeCommandState::Claimed,
{
    check_fence(held, fence)?;
    let generation: i64 = to_i64(owner_generation, "command generation")?;
    let used: i64 = match attempts {
        Some(used) => used,
        None => {
            return Err(
                StoreError::new(
                    ErrorCode::RuntimeCommandConflict,
                    "runtime command owner is stale",
                ),
            );
        },
    };
    let count: u32 = to_u32(used, "command attempts", "command attempts exceed range")?;
    if count >= max_attempts {
        return Err(
            StoreError::new(ErrorCode::RetryExhausted, "runtime command retry limit reached"),
        );
    }
    Ok(RetriedCommand { attempts: count + 1, state: RuntimeCommandState::Claimed })
}

/// A runtime command is completed by the generation that owns it and by no other, and is tried
/// again by it as long as an attempt is left.
pub proof fn law_owner_completes_and_retries(
    command: OwnedCommand,
    attempts: i64,
    owner_generation: u64,
    max_attempts: u32,
    fence: HostFence,
    held: Option<i64>,
)
    ensures
        complete_fault(Some(command), owner_generation, fence, held) is None <==> {
            &&& held is Some
            &&& held->Some_0 == fence.generation as int
            &&& command.owner_generation == owner_generation as int
        },
        complete_fault(None, owner_generation, fence, held) is Some,
        bump_fault(Some(attempts), owner_generation, max_attempts, fence, held) is None <==> {
            &&& held is Some
            &&& held->Some_0 == fence.generation as int
            &&& owner_generation <= i64::MAX
            &&& 0 <= attempts < max_attempts
        },
        bump_fault(None, owner_generation, max_attempts, fence, held) is Some,
{
}

// ---------------------------------------------------------------------------
// Agents, lineage and plugins

/// Where an agent stands.
#[derive(Clone, Debug, PartialEq, Eq)]
pub struct AgentStateRecord {
    pub agent_run_id: String,
    pub session_id: String,
    pub task_id: String,
    pub state: String,
    pub generation: u64,
    pub revision: u64,
    /// The detail as JSON text.
    pub detail: String,
}

/// An agent's state as it is stored: an agent that is there already keeps its
/// session and its task, and the rest moves on.
pub open spec fn stored_agent_state(
    existing: Option<AgentStateRecord>,
    record: AgentStateRecord,
) -> AgentStateRecord {
    match existing {
        None => record,
        Some(before) => AgentStateRecord {
            session_id: before.session_id,
            task_id: before.task_id,
            ..record
        },
    }
}

/// Why the state of an agent is not recorded.
pub open spec fn agent_state_fault(
    record: AgentStateRecord,
    fence: HostFence,
    held: Option<i64>,
) -> Option<Fault> {
    first(
        fence_fault(held, fence),
        first(
            i64_fault(record.generation, "agent generation"@),
            i64_fault(record.revision, "agent revision"@),
        ),
    )
}

/// Records an agent's state. `existing` is the state that the agent was stored with.
pub fn record_agent_state(
    record: AgentStateRecord,
    fence: &HostFence,
    held: Option<i64>,
    existing: Option<AgentStateRecord>,
) -> (result: Result<AgentStateRecord, StoreError>)
    ensures
        answers(result, agent_state_fault(record, *fence, held)),
        result is Ok ==> result->Ok_0 == stored_agent_state(existing, record),
{
    check_fence(held, fence)?;
    let generation: i64 = to_i64(record.generation, "agent generation")?;
    let revision: i64 = to_i64(record.revision, "agent revision")?;
    let mut stored: AgentStateRecord = record;
    match existing {
        None => {},
        Some(before) => {
            stored.session_id = before.session_id;
            stored.task_id = before.task_id;
        },
    }
    Ok(stored)
}

/// The state of an agent is recorded at any generation and revision that a column can hold. A
/// state that is there keeps its session and its task, and takes the rest.
pub proof fn law_agent_state_keeps_its_session(
    record: AgentStateRecord,
    fence: HostFence,
    held: Option<i64>,
    before: AgentStateRecord,
)
    ensures
        agent_state_fault(record, fence, held) is None <==> {
            &&& held is Some
            &&& held->Some_0 == fence.generation as int
            &&& record.generation <= i64::MAX
            &&& record.revision <= i64::MAX
        },
        stored_agent_state(None, record) == record,
        ({
            let after = stored_agent_state(Some(before), record);
            &&& after.session_id == before.session_id
            &&& after.task_id == before.task_id
            &&& after.agent_run_id == record.agent_run_id
            &&& after.state == record.state
            &&& after.generation == record.generation
            &&& after.revision == record.revision
            &&& after.detail == record.detail
        }),
{
}

/// An agent's state as its row is read.
#[derive(Debug)]
pub struct AgentStateRow {
    pub agent_run_id: Parsed,
    pub session_id: Parsed,
    pub task_id: Parsed,
    pub state: String,
    pub generation: i64,
    pub revision: i64,
    pub detail_json: String,
}

/// Why a stored agent state cannot be read.
pub open spec fn agent_state_row_fault(row: AgentStateRow) -> Option<Fault> {
    let write_failed = ErrorCode::StorageWriteFailed;
    first(
        stored_fault(row.agent_run_id, write_failed, "agent run ID is invalid"@),
        first(
            stored_fault(row.session_id, write_failed, "stored session ID is invalid"@),
            first(
                stored_fault(row.task_id, write_failed, "stored task ID is invalid"@),
                first(
                    u64_fault(row.generation, "agent generation"@),
                    first(
                        u64_fault(row.revision, "agent revision"@),
                        if is_json(row.detail_json@) {
                            None
                        } else {
                            fault(write_failed, "agent detail is invalid"@)
                        },
                    ),
                ),
            ),
        ),
    )
}

/// The agent's state that a row holds.
pub open spec fn agent_state_of(row: AgentStateRow) -> AgentStateRecord {
    AgentStateRecord {
        agent_run_id: row.agent_run_id->Ok_0,
        session_id: row.session_id->Ok_0,
        task_id: row.task_id->Ok_0,
        state: row.state,
        generation: row.generation as u64,
        revision: row.revision as u64,
        detail: row.detail_json,
    }
}

/// Reads an agent's state back.
pub fn agent_state_from_row(row: AgentStateRow) -> (result: Result<AgentStateRecord, StoreError>)
    ensures
        answers(result, agent_state_row_fault(row)),
        result is Ok ==> result->Ok_0 == agent_state_of(row),
{
    let code: ErrorCode = ErrorCode::StorageWriteFailed;
    let agent_run_id: String = stored_value(row.agent_run_id, code, "agent run ID is invalid")?;
    let session_id: String = stored_value(row.session_id, code, "stored session ID is invalid")?;
    let task_id: String = stored_value(row.task_id, code, "stored task ID is invalid")?;
    let generation: u64 = to_u64(row.generation, "agent generation")?;
    let revision: u64 = to_u64(row.revision, "agent revision")?;
    if !json_is_valid(row.detail_json.as_str()) {
        return Err(StoreError::new(code, "agent detail is invalid"));
    }
    Ok(
        AgentStateRecord {
            agent_run_id,
            session_id,
            task_id,
            state: row.state,
            generation,
            revision,
            detail: row.detail_json,
        },
    )
}

/// A row holds an agent's state as it is written: its identities and texts as they are, and
/// its numbers, which columns can hold.
pub open spec fn agent_state_is_stored_in(record: AgentStateRecord, row: AgentStateRow) -> bool {
    &&& record.generation <= i64::MAX
    &&& record.revision <= i64::MAX
    &&& is_json(record.detail@)
    &&& row == (AgentStateRow {
        agent_run_id: Ok(record.agent_run_id),
        session_id: Ok(record.session_id),
        task_id: Ok(record.task_id),
        state: record.state,
        generation: record.generation as i64,
        revision: record.revision as i64,
        detail_json: record.detail,
    })
}

/// What is written is read back: the row of an agent's state reads without an error, and as
/// the record that it was written from.
pub proof fn law_stored_agent_state_reads_back(record: AgentStateRecord, row: AgentStateRow, read: AgentStateRecord)
    requires
        agent_state_is_stored_in(record, row),
        read == agent_state_of(row),
    ensures
        agent_state_row_fault(row) is None,
        read == record,
{
}

/// The session that a session continues.
#[derive(Clone, Debug, PartialEq, Eq)]
pub struct ContinuationLinkRecord {
    pub source_session_id: String,
    pub new_session_id: String,
    pub task_id: String,
}

/// Records which session a session continues, in the place of what was recorded of it
/// before.
pub fn record_continuation_link(
    link: ContinuationLinkRecord,
    fence: &HostFence,
    held: Option<i64>,
) -> (result: Result<ContinuationLinkRecord, StoreError>)
    ensures
        answers(result, fence_fault(held, *fence)),
        result is Ok ==> result->Ok_0 == link,
{
    check_fence(held, fence)?;
    Ok(link)
}

/// Reads a continuation back.
pub fn continuation_link_from_row(source: Parsed, new: Parsed, task: Parsed) -> (result: Result<
    ContinuationLinkRecord,
    StoreError,
>)
    ensures
        answers(
            result,
            first(
                stored_fault(
                    source,
                    ErrorCode::StorageWriteFailed,
                    "stored session ID is invalid"@,
                ),
                first(
                    stored_fault(
                        new,
                        ErrorCode::StorageWriteFailed,
                        "stored session ID is invalid"@,
                    ),
                    stored_fault(task, ErrorCode::StorageWriteFailed, "stored task ID is invalid"@),
                ),
            ),
        ),
        result is Ok ==> result->Ok_0 == (ContinuationLinkRecord {
            source_session_id: source->Ok_0,
            new_session_id: new->Ok_0,
            task_id: task->Ok_0,
        }),
{
    let code: ErrorCode = ErrorCode::StorageWriteFailed;
    let source_session_id: String = stored_value(source, code, "stored session ID is invalid")?;
    let new_session_id: String = stored_value(new, code, "stored session ID is invalid")?;
    let task_id: String = stored_value(task, code, "stored task ID is invalid")?;
    Ok(ContinuationLinkRecord { source_session_id, new_session_id, task_id })
}

/// A plugin's manifest and the generation of the host that registered it.
#[derive(Clone, Debug, PartialEq, Eq)]
pub struct PersistedPluginManifest {
    /// The manifest as JSON text.
    pub manifest: String,
    pub generation: u64,
}

/// Why a plugin manifest is not registered.
pub open spec fn plugin_manifest_fault(
    verdict: Verdict,
    fence: HostFence,
    held: Option<i64>,
) -> Option<Fault> {
    first(
        verdict_fault(verdict, "plugin manifest is invalid: "@),
        fence_fault(held, fence),
    )
}

/// Refuses a manifest that its own rules turn down. The generation it is stored
/// under is the writing host's.
pub fn register_plugin_manifest(verdict: &Verdict, fence: &HostFence, held: Option<i64>) -> (result:
    Result<u64, StoreError>)
    ensures
        answers(result, plugin_manifest_fault(*verdict, *fence, held)),
        result is Ok ==> result->Ok_0 == fence.generation,
{
    check_verdict(verdict, "plugin manifest is invalid: ")?;
    check_fence(held, fence)?;
    Ok(fence.generation)
}

/// Why a stored manifest cannot be read. `reads` says whether its text has the
/// shape of a manifest, and `verdict` what a manifest's own rules say.
pub open spec fn plugin_manifest_row_fault(reads: bool, verdict: Verdict, generation: i64) -> Option<
    Fault,
> {
    if !reads {
        fault(ErrorCode::StorageWriteFailed, "stored plugin manifest is invalid"@)
    } else {
        first(
            verdict_fault(verdict, "stored plugin manifest is invalid: "@),
            u64_fault(generation, "plugin generation"@),
        )
    }
}

/// Reads a manifest back.
pub fn plugin_manifest_from_row(
    manifest_json: String,
    reads: bool,
    verdict: &Verdict,
    generation: i64,
) -> (result: Result<PersistedPluginManifest, StoreError>)
    ensures
        answers(result, plugin_manifest_row_fault(reads, *verdict, generation)),
        result is Ok ==> result->Ok_0 == (PersistedPluginManifest {
            manifest: manifest_json,
            generation: generation as u64,
        }),
{
    if !reads {
        return Err(
            StoreError::new(ErrorCode::StorageWriteFailed, "stored plugin manifest is invalid"),
        );
    }
    check_verdict(verdict, "stored plugin manifest is invalid: ")?;
    let generation: u64 = to_u64(generation, "plugin generation")?;
    Ok(PersistedPluginManifest { manifest: manifest_json, generation })
}

/// A sound plugin manifest is registered by any host that may write, and read back at any
/// generation that is no less than nothing.
pub proof fn law_sound_manifest_is_registered(
    verdict: Verdict,
    fence: HostFence,
    held: Option<i64>,
    reads: bool,
    generation: i64,
)
    ensures
        plugin_manifest_fault(verdict, fence, held) is None <==> {
            &&& verdict is Ok
            &&& held is Some
            &&& held->Some_0 == fence.generation as int
        },
        plugin_manifest_row_fault(reads, verdict, generation) is None <==> reads && verdict is Ok
            && 0 <= generation,
{
}

/// Passes on a stored JSON record that reads and that its own rules accept.
/// `reads` says whether the text has the record's shape, and `verdict` what the
/// record's own rules say.
pub fn stored_record(
    text: String,
    reads: bool,
    verdict: &Verdict,
    unreadable: &str,
    prefix: &str,
) -> (result: Result<String, StoreError>)
    ensures
        answers(
            result,
            if reads {
                verdict_fault(*verdict, prefix@)
            } else {
                fault(ErrorCode::StorageWriteFailed, unreadable@)
            },
        ),
        result is Ok ==> result->Ok_0 == text,
{
    if !reads {
        return Err(StoreError::new(ErrorCode::StorageWriteFailed, unreadable));
    }
    check_verdict(verdict, prefix)?;
    Ok(text)
}

} // verus!

//! Questions to a human, and commands to a run.
//!
//! A question is answered once. The stored answer is the record: the same answer
//! again is a duplicate, another one is a conflict, and an expired or canceled
//! question takes none.

use crate::columns::{
    i64_fault, i64_option, i64_option_fault, to_i64, to_i64_option, to_u64, to_u64_option,
    u64_fault, u64_option, u64_option_fault,
};
use crate::error::{
    answers, fault, first, parsed_option, stored_fault, stored_option, stored_option_fault,
    stored_value, written_option, ErrorCode, Fault, Parsed, StoreError,
};
use crate::journal::{check_fence, fence_fault, HostFence};
use crate::json::{is_json, json_is_valid};
use crate::seqs::set_before;
use crate::states::{QuestionState, RunCommandKind, RunCommandState};
use crate::text::{opt_text, same_text};
use vstd::prelude::*;

verus! {

/// A question to a human.
#[derive(Clone, Debug, PartialEq, Eq)]
pub struct QuestionRecord {
    pub question_id: String,
    pub scope_key: String,
    pub session_id: String,
    pub task_id: String,
    pub run_id: Option<String>,
    pub kind: String,
    pub prompt: String,
    /// The payload as JSON text.
    pub payload: String,
    pub state: QuestionState,
    /// The answer as JSON text.
    pub answer: Option<String>,
    pub answer_hash: Option<String>,
    pub answered_by: Option<String>,
    pub expires_at_unix_ms: Option<u64>,
    pub created_at_unix_ms: u64,
    pub answered_at_unix_ms: Option<u64>,
}

/// An answer that the store holds, whether it was given now or before.
#[derive(Clone, Debug, PartialEq, Eq)]
pub enum QuestionAnswer {
    Answered(QuestionRecord),
    Duplicate(QuestionRecord),
}

/// What became of an answer.
#[derive(Clone, Debug, PartialEq, Eq)]
pub enum QuestionOutcome {
    Answered(QuestionRecord),
    Duplicate(QuestionRecord),
    NotFound,
    Expired(QuestionRecord),
    Conflict(QuestionRecord),
}

/// A question as its row is read.
#[derive(Debug)]
pub struct QuestionRow {
    pub question_id: Parsed,
    pub scope_key: String,
    pub session_id: Parsed,
    pub task_id: Parsed,
    pub run_id: Option<Parsed>,
    pub kind: String,
    pub prompt: String,
    pub payload_json: String,
    pub state: String,
    pub answer_json: Option<String>,
    pub answer_hash: Option<Parsed>,
    pub answered_by: Option<String>,
    pub expires_at_unix_ms: Option<i64>,
    pub created_at_unix_ms: i64,
    pub answered_at_unix_ms: Option<i64>,
}

/// Why the identities of a stored question cannot be read.
pub open spec fn question_identity_fault(row: QuestionRow) -> Option<Fault> {
    let write_failed = ErrorCode::StorageWriteFailed;
    first(
        stored_fault(row.question_id, write_failed, "question ID is invalid"@),
        first(
            stored_fault(row.session_id, write_failed, "stored session ID is invalid"@),
            first(
                stored_fault(row.task_id, write_failed, "stored task ID is invalid"@),
                stored_option_fault(row.run_id, write_failed, "run ID is invalid"@),
            ),
        ),
    )
}

/// Why the answer of a stored question cannot be read.
pub open spec fn question_answer_fault(row: QuestionRow) -> Option<Fault> {
    let write_failed = ErrorCode::StorageWriteFailed;
    first(
        if row.answer_json is Some && !is_json(row.answer_json->Some_0@) {
            fault(write_failed, "question answer is invalid"@)
        } else {
            None
        },
        first(
            stored_option_fault(row.answer_hash, write_failed, "question answer hash is invalid"@),
            first(
                u64_option_fault(row.expires_at_unix_ms, "question expiry"@),
                first(
                    u64_fault(row.created_at_unix_ms, "question creation time"@),
                    u64_option_fault(row.answered_at_unix_ms, "question answer time"@),
                ),
            ),
        ),
    )
}

/// Why a stored question cannot be read.
pub open spec fn question_row_fault(row: QuestionRow) -> Option<Fault> {
    let write_failed = ErrorCode::StorageWriteFailed;
    first(
        if forall|state: QuestionState| #[trigger] state.text() != row.state@ {
            fault(write_failed, "question state is invalid"@)
        } else {
            None
        },
        first(
            question_identity_fault(row),
            first(
                if is_json(row.payload_json@) {
                    None
                } else {
                    fault(write_failed, "question payload is invalid"@)
                },
                question_answer_fault(row),
            ),
        ),
    )
}

/// The question that a row holds, under the state that its text stands for.
pub open spec fn question_of(row: QuestionRow, state: QuestionState) -> QuestionRecord {
    QuestionRecord {
        question_id: row.question_id->Ok_0,
        scope_key: row.scope_key,
        session_id: row.session_id->Ok_0,
        task_id: row.task_id->Ok_0,
        run_id: parsed_option(row.run_id),
        kind: row.kind,
        prompt: row.prompt,
        payload: row.payload_json,
        state,
        answer: row.answer_json,
        answer_hash: parsed_option(row.answer_hash),
        answered_by: row.answered_by,
        expires_at_unix_ms: u64_option(row.expires_at_unix_ms),
        created_at_unix_ms: row.created_at_unix_ms as u64,
        answered_at_unix_ms: u64_option(row.answered_at_unix_ms),
    }
}

/// A record is what a row holds.
pub open spec fn question_reads_as(row: QuestionRow, record: QuestionRecord) -> bool {
    record.state.text() == row.state@ && record == question_of(row, record.state)
}

/// Reads a question back.
pub fn question_from_row(row: QuestionRow) -> (result: Result<QuestionRecord, StoreError>)
    ensures
        answers(result, question_row_fault(row)),
        result is Ok ==> question_reads_as(row, result->Ok_0),
{
    let code: ErrorCode = ErrorCode::StorageWriteFailed;
    let state: QuestionState = match QuestionState::parse(row.state.as_str()) {
        Some(state) => state,
        None => {
            return Err(StoreError::new(code, "question state is invalid"));
        },
    };
    assert(state.text() == row.state@);
    let question_id: String = stored_value(row.question_id, code, "question ID is invalid")?;
    let session_id: String = stored_value(row.session_id, code, "stored session ID is invalid")?;
    let task_id: String = stored_value(row.task_id, code, "stored task ID is invalid")?;
    let run_id: Option<String> = stored_option(row.run_id, code, "run ID is invalid")?;
    if !json_is_valid(row.payload_json.as_str()) {
        return Err(StoreError::new(code, "question payload is invalid"));
    }
    match &row.answer_json {
        None => {},
        Some(text) => {
            if !json_is_valid(text.as_str()) {
                return Err(StoreError::new(code, "question answer is invalid"));
            }
        },
    }
    let answer_hash: Option<String> = stored_option(
        row.answer_hash,
        code,
        "question answer hash is invalid",
    )?;
    let expires_at_unix_ms: Option<u64> = to_u64_option(row.expires_at_unix_ms, "question expiry")?;
    let created_at_unix_ms: u64 = to_u64(row.created_at_unix_ms, "question creation time")?;
    let answered_at_unix_ms: Option<u64> = to_u64_option(
        row.answered_at_unix_ms,
        "question answer time",
    )?;
    Ok(
        QuestionRecord {
            question_id,
            scope_key: row.scope_key,
            session_id,
            task_id,
            run_id,
            kind: row.kind,
            prompt: row.prompt,
            payload: row.payload_json,
            state,
            answer: row.answer_json,
            answer_hash,
            answered_by: row.answered_by,
            expires_at_unix_ms,
            created_at_unix_ms,
            answered_at_unix_ms,
        },
    )
}

/// A row holds a question as it is written: its identities and texts as they are, and
/// its numbers, which columns can hold.
pub open spec fn question_is_stored_in(record: QuestionRecord, row: QuestionRow) -> bool {
    &&& record.created_at_unix_ms <= i64::MAX
    &&& record.expires_at_unix_ms is Some ==> record.expires_at_unix_ms->Some_0 <= i64::MAX
    &&& record.answered_at_unix_ms is Some ==> record.answered_at_unix_ms->Some_0 <= i64::MAX
    &&& is_json(record.payload@)
    &&& record.answer is Some ==> is_json(record.answer->Some_0@)
    &&& row.state@ == record.state.text()
    &&& row == (QuestionRow {
        question_id: Ok(record.question_id),
        session_id: Ok(record.session_id),
        task_id: Ok(record.task_id),
        run_id: written_option(record.run_id),
        answer_hash: written_option(record.answer_hash),
        created_at_unix_ms: record.created_at_unix_ms as i64,
        expires_at_unix_ms: i64_option(record.expires_at_unix_ms),
        answered_at_unix_ms: i64_option(record.answered_at_unix_ms),
        scope_key: record.scope_key,
        kind: record.kind,
        prompt: record.prompt,
        payload_json: record.payload,
        answer_json: record.answer,
        answered_by: record.answered_by,
        state: row.state,
    })
}

/// What is written is read back: the row of a question reads without an error, and as
/// the record that it was written from.
pub proof fn law_stored_question_reads_back(record: QuestionRecord, row: QuestionRow, read: QuestionRecord)
    requires
        question_is_stored_in(record, row),
        question_reads_as(row, read),
    ensures
        question_row_fault(row) is None,
        read == record,
{
    crate::states::law_question_state_texts_differ(record.state, read.state);
}

/// Why a question is not opened. `existing` is the question that its scope
/// already has.
pub open spec fn open_fault(
    record: QuestionRecord,
    fence: HostFence,
    held: Option<i64>,
    existing: Option<QuestionRow>,
) -> Option<Fault> {
    first(
        fence_fault(held, fence),
        first(
            i64_option_fault(record.expires_at_unix_ms, "question expiry"@),
            first(
                i64_fault(record.created_at_unix_ms, "question creation time"@),
                match existing {
                    None => None,
                    Some(row) => question_row_fault(row),
                },
            ),
        ),
    )
}

/// A question as it is first written.
pub open spec fn opened(record: QuestionRecord) -> QuestionRecord {
    QuestionRecord {
        state: QuestionState::Open,
        answer: None,
        answer_hash: None,
        answered_by: None,
        answered_at_unix_ms: None,
        ..record
    }
}

/// Opens a question, or hands back the one that its scope already has, so that a
/// repeated pause never asks twice.
pub fn open_question(
    record: QuestionRecord,
    fence: &HostFence,
    held: Option<i64>,
    existing: Option<QuestionRow>,
) -> (result: Result<QuestionRecord, StoreError>)
    ensures
        answers(result, open_fault(record, *fence, held, existing)),
        result is Ok && existing is None ==> result->Ok_0 == opened(record),
        result is Ok && existing is Some ==> question_reads_as(existing->Some_0, result->Ok_0),
{
    check_fence(held, fence)?;
    let expiry: Option<i64> = to_i64_option(record.expires_at_unix_ms, "question expiry")?;
    let created: i64 = to_i64(record.created_at_unix_ms, "question creation time")?;
    match existing {
        Some(row) => question_from_row(row),
        None => Ok(
            QuestionRecord {
                question_id: record.question_id,
                scope_key: record.scope_key,
                session_id: record.session_id,
                task_id: record.task_id,
                run_id: record.run_id,
                kind: record.kind,
                prompt: record.prompt,
                payload: record.payload,
                state: QuestionState::Open,
                answer: None,
                answer_hash: None,
                answered_by: None,
                expires_at_unix_ms: record.expires_at_unix_ms,
                created_at_unix_ms: record.created_at_unix_ms,
                answered_at_unix_ms: None,
            },
        ),
    }
}

/// A host that may write opens a question whose times fit their columns. A new one is open and
/// unanswered, with everything else as it was asked, and one that is there is handed back.
pub proof fn law_question_opens_unanswered(
    record: QuestionRecord,
    fence: HostFence,
    held: Option<i64>,
    stored: QuestionRecord,
    row: QuestionRow,
)
    requires
        question_is_stored_in(stored, row),
    ensures
        open_fault(record, fence, held, None) is None <==> {
            &&& held is Some
            &&& held->Some_0 == fence.generation as int
            &&& record.expires_at_unix_ms is None || record.expires_at_unix_ms->Some_0 <= i64::MAX
            &&& record.created_at_unix_ms <= i64::MAX
        },
        open_fault(record, fence, held, Some(row)) == open_fault(record, fence, held, None),
        opened(record).state == QuestionState::Open,
        opened(record).answer is None,
        opened(record).answer_hash is None,
        opened(record).answered_by is None,
        opened(record).answered_at_unix_ms is None,
        opened(record).question_id == record.question_id,
        opened(record).scope_key == record.scope_key,
        opened(record).session_id == record.session_id,
        opened(record).task_id == record.task_id,
        opened(record).run_id == record.run_id,
        opened(record).kind == record.kind,
        opened(record).prompt == record.prompt,
        opened(record).payload == record.payload,
        opened(record).expires_at_unix_ms == record.expires_at_unix_ms,
        opened(record).created_at_unix_ms == record.created_at_unix_ms,
{
    assert(stored.state.text() == row.state@);
}

/// One scope has one question: once it is stored, a repeated pause gets it back as
/// it stands, whatever it asks this time, and opens none.
pub proof fn law_scope_has_one_question(
    stored: QuestionRecord,
    row: QuestionRow,
    again: QuestionRecord,
    read: QuestionRecord,
    fence: HostFence,
    held: Option<i64>,
)
    requires
        question_is_stored_in(stored, row),
        open_fault(again, fence, held, None) is None,
        question_reads_as(row, read),
    ensures
        open_fault(again, fence, held, Some(row)) is None,
        read == stored,
{
    law_stored_question_reads_back(stored, row, read);
}

/// A question has run out.
pub open spec fn has_expired(record: QuestionRecord, now_unix_ms: u64) -> bool {
    record.expires_at_unix_ms is Some && record.expires_at_unix_ms->Some_0 <= now_unix_ms
}

/// Why an answer cannot be recorded.
pub open spec fn answer_fault(
    fence: HostFence,
    held: Option<i64>,
    row: Option<QuestionRow>,
    now_unix_ms: u64,
) -> Option<Fault> {
    first(
        fence_fault(held, fence),
        match row {
            None => None,
            Some(stored) => first(
                question_row_fault(stored),
                if stored.state@ == QuestionState::Open.text() && !has_expired(
                    question_of(stored, QuestionState::Open),
                    now_unix_ms,
                ) {
                    i64_fault(now_unix_ms, "answer time"@)
                } else {
                    None
                },
            ),
        },
    )
}

/// What becomes of an answer to a stored question.
pub open spec fn answer_outcome(
    current: QuestionRecord,
    answer: String,
    answer_hash: String,
    answered_by: String,
    now_unix_ms: u64,
) -> QuestionOutcome {
    match current.state {
        QuestionState::Answered => if opt_text(current.answer_hash) == Some(answer_hash@) {
            QuestionOutcome::Duplicate(current)
        } else {
            QuestionOutcome::Conflict(current)
        },
        QuestionState::Expired => QuestionOutcome::Expired(current),
        QuestionState::Canceled => QuestionOutcome::Expired(current),
        QuestionState::Open => if has_expired(current, now_unix_ms) {
            QuestionOutcome::Expired(QuestionRecord { state: QuestionState::Expired, ..current })
        } else {
            QuestionOutcome::Answered(
                QuestionRecord {
                    state: QuestionState::Answered,
                    answer: Some(answer),
                    answer_hash: Some(answer_hash),
                    answered_by: Some(answered_by),
                    answered_at_unix_ms: Some(now_unix_ms),
                    ..current
                },
            )
        },
    }
}

/// Answers a question once. The outcome holds the question as it is stored
/// afterwards; its row changes only where an open question was answered or ran
/// out, which `written` says.
pub fn answer_question(
    answer: String,
    answer_hash: String,
    answered_by: String,
    now_unix_ms: u64,
    fence: &HostFence,
    held: Option<i64>,
    row: Option<QuestionRow>,
) -> (result: Result<(QuestionOutcome, bool), StoreError>)
    ensures
        answers(result, answer_fault(*fence, held, row, now_unix_ms)),
        result is Ok && row is None ==> result->Ok_0 == (QuestionOutcome::NotFound, false),
        result is Ok && row is Some ==> exists|current: QuestionRecord| #[trigger]
            question_reads_as(row->Some_0, current) && result->Ok_0.0 == answer_outcome(
                current,
                answer,
                answer_hash,
                answered_by,
                now_unix_ms,
            ) && result->Ok_0.1 == (current.state == QuestionState::Open),
{
    check_fence(held, fence)?;
    let row: QuestionRow = match row {
        Some(row) => row,
        None => {
            return Ok((QuestionOutcome::NotFound, false));
        },
    };
    let ghost stored = row;
    let current: QuestionRecord = question_from_row(row)?;
    let ghost before = current;
    assert(question_reads_as(stored, before));
    proof {
        crate::states::law_question_state_texts_differ(current.state, QuestionState::Open);
    }
    match current.state {
        QuestionState::Answered => {
            let same: bool = match &current.answer_hash {
                Some(hash) => same_text(hash.as_str(), answer_hash.as_str()),
                None => false,
            };
            if same {
                return Ok((QuestionOutcome::Duplicate(current), false));
            }
            return Ok((QuestionOutcome::Conflict(current), false));
        },
        QuestionState::Expired => {
            return Ok((QuestionOutcome::Expired(current), false));
        },
        QuestionState::Canceled => {
            return Ok((QuestionOutcome::Expired(current), false));
        },
        QuestionState::Open => {},
    }
    let expired: bool = match current.expires_at_unix_ms {
        Some(instant) => instant <= now_unix_ms,
        None => false,
    };
    if expired {
        let mut gone: QuestionRecord = current;
        gone.state = QuestionState::Expired;
        return Ok((QuestionOutcome::Expired(gone), true));
    }
    let now: i64 = to_i64(now_unix_ms, "answer time")?;
    let mut answered: QuestionRecord = current;
    answered.state = QuestionState::Answered;
    answered.answer = Some(answer);
    answered.answer_hash = Some(answer_hash);
    answered.answered_by = Some(answered_by);
    answered.answered_at_unix_ms = Some(now_unix_ms);
    Ok((QuestionOutcome::Answered(answered), true))
}

/// An open question takes an answer as long as it has not expired: it names no expiry, or
/// one that is still to come. It then holds the answer, its digest, who gave it and when. At
/// the moment of its expiry it has expired.
pub proof fn law_open_question_takes_an_answer_until_it_expires(
    current: QuestionRecord,
    answer: String,
    answer_hash: String,
    answered_by: String,
    now_unix_ms: u64,
)
    requires
        current.state == QuestionState::Open,
    ensures
        ({
            let outcome = answer_outcome(current, answer, answer_hash, answered_by, now_unix_ms);
            &&& current.expires_at_unix_ms is None || now_unix_ms
                < current.expires_at_unix_ms->Some_0 ==> {
                &&& outcome is Answered
                &&& outcome->Answered_0.state == QuestionState::Answered
                &&& outcome->Answered_0.answer == Some(answer)
                &&& outcome->Answered_0.answer_hash == Some(answer_hash)
                &&& outcome->Answered_0.answered_by == Some(answered_by)
                &&& outcome->Answered_0.answered_at_unix_ms == Some(now_unix_ms)
                &&& outcome->Answered_0.question_id == current.question_id
                &&& outcome->Answered_0.scope_key == current.scope_key
                &&& outcome->Answered_0.prompt == current.prompt
                &&& outcome->Answered_0.payload == current.payload
                &&& outcome->Answered_0.run_id == current.run_id
                &&& outcome->Answered_0.expires_at_unix_ms == current.expires_at_unix_ms
            }
            &&& current.expires_at_unix_ms is Some && current.expires_at_unix_ms->Some_0
                <= now_unix_ms ==> {
                &&& outcome is Expired
                &&& outcome->Expired_0.state == QuestionState::Expired
                &&& outcome->Expired_0.answer == current.answer
                &&& outcome->Expired_0.question_id == current.question_id
            }
        }),
{
}

/// Whoever answers a question gets an outcome, and no error, where the host may write and the
/// question can be read, as long as a time that is to be written fits its column. A question
/// that is not there is answered as such, and any that is there can be canceled.
pub proof fn law_answering_and_canceling_always_have_an_outcome(
    fence: HostFence,
    held: Option<i64>,
    record: QuestionRecord,
    row: QuestionRow,
    now_unix_ms: u64,
)
    requires
        question_is_stored_in(record, row),
        now_unix_ms <= i64::MAX,
    ensures
        answer_fault(fence, held, Some(row), now_unix_ms) is None <==> {
            &&& held is Some
            &&& held->Some_0 == fence.generation as int
        },
        answer_fault(fence, held, None, now_unix_ms) is None <==> {
            &&& held is Some
            &&& held->Some_0 == fence.generation as int
        },
        cancel_fault(fence, held, Some(row)) is None <==> {
            &&& held is Some
            &&& held->Some_0 == fence.generation as int
        },
        cancel_fault(fence, held, None) is Some,
        question_of(row, QuestionState::Canceled) == (QuestionRecord {
            state: QuestionState::Canceled,
            ..record
        }),
{
    assert(record.state.text() == row.state@);
}

/// A question is answered once: after an answer was taken, the same answer is a
/// duplicate and another one a conflict, at any later time, and neither changes
/// what is stored.
pub proof fn law_question_is_answered_once(
    current: QuestionRecord,
    answer: String,
    answer_hash: String,
    answered_by: String,
    now: u64,
    later_answer: String,
    later_hash: String,
    later_by: String,
    later: u64,
)
    requires
        current.state == QuestionState::Open,
        !has_expired(current, now),
    ensures
        ({
            let stored = answer_outcome(current, answer, answer_hash, answered_by, now)->Answered_0;
            let second = answer_outcome(stored, later_answer, later_hash, later_by, later);
            &&& stored.answer == Some(answer)
            &&& later_hash@ == answer_hash@ ==> second == QuestionOutcome::Duplicate(stored)
            &&& later_hash@ != answer_hash@ ==> second == QuestionOutcome::Conflict(stored)
        }),
{
}

/// A question that has run out or was canceled takes no answer.
pub proof fn law_closed_question_takes_no_answer(
    current: QuestionRecord,
    answer: String,
    answer_hash: String,
    answered_by: String,
    now: u64,
)
    requires
        current.state == QuestionState::Expired || current.state == QuestionState::Canceled || (
        current.state == QuestionState::Open && has_expired(current, now)),
    ensures
        answer_outcome(current, answer, answer_hash, answered_by, now) is Expired,
{
}

/// Why a question cannot be canceled.
pub open spec fn cancel_fault(
    fence: HostFence,
    held: Option<i64>,
    row: Option<QuestionRow>,
) -> Option<Fault> {
    first(
        fence_fault(held, fence),
        match row {
            None => fault(ErrorCode::InvalidPayload, "question does not exist"@),
            Some(stored) => question_row_fault(stored),
        },
    )
}

/// A question after it was canceled: an open one is canceled, and any other is as it was.
pub open spec fn cancels_as(stored: QuestionRow, after: QuestionRecord) -> bool {
    &&& stored.state@ == QuestionState::Open.text() ==> after == question_of(
        stored,
        QuestionState::Canceled,
    )
    &&& stored.state@ != QuestionState::Open.text() ==> question_reads_as(stored, after)
}

/// Cancels an open question. One that is no longer open stays as it is.
pub fn cancel_question(fence: &HostFence, held: Option<i64>, row: Option<QuestionRow>) -> (result:
    Result<QuestionRecord, StoreError>)
    ensures
        answers(result, cancel_fault(*fence, held, row)),
        result is Ok ==> cancels_as(row->Some_0, result->Ok_0),
{
    check_fence(held, fence)?;
    let row: QuestionRow = match row {
        Some(row) => row,
        None => {
            return Err(StoreError::new(ErrorCode::InvalidPayload, "question does not exist"));
        },
    };
    let mut current: QuestionRecord = question_from_row(row)?;
    proof {
        crate::states::law_question_state_texts_differ(current.state, QuestionState::Open);
    }
    if current.state == QuestionState::Open {
        current.state = QuestionState::Canceled;
    }
    Ok(current)
}

/// An open question that is canceled is canceled and otherwise what it was. One that was
/// answered, has expired or was canceled stays so.
pub proof fn law_only_an_open_question_is_canceled(
    record: QuestionRecord,
    row: QuestionRow,
    after: QuestionRecord,
)
    requires
        question_is_stored_in(record, row),
        cancels_as(row, after),
    ensures
        record.state == QuestionState::Open ==> after == (QuestionRecord {
            state: QuestionState::Canceled,
            ..record
        }),
        record.state != QuestionState::Open ==> after == record,
{
    crate::states::law_question_state_texts_differ(record.state, QuestionState::Open);
    crate::states::law_question_state_texts_differ(record.state, after.state);
}

// ---------------------------------------------------------------------------
// Commands to a run

/// A command to a run.
#[derive(Clone, Debug, PartialEq, Eq)]
pub struct RunCommandRecord {
    pub command_id: String,
    pub run_id: String,
    pub session_id: String,
    pub task_id: String,
    pub kind: RunCommandKind,
    pub state: RunCommandState,
    /// The payload as JSON text.
    pub payload: String,
    pub detail: Option<String>,
    pub created_at_unix_ms: u64,
    pub claimed_at_unix_ms: Option<u64>,
    pub applied_at_unix_ms: Option<u64>,
}

/// A command as its row is read.
#[derive(Debug)]
pub struct CommandRow {
    pub command_id: Parsed,
    pub run_id: Parsed,
    pub session_id: Parsed,
    pub task_id: Parsed,
    pub kind: String,
    pub state: String,
    pub payload_json: String,
    pub detail: Option<String>,
    pub created_at_unix_ms: i64,
    pub claimed_at_unix_ms: Option<i64>,
    pub applied_at_unix_ms: Option<i64>,
}

/// Why the identities of a stored command cannot be read.
pub open spec fn command_identity_fault(row: CommandRow) -> Option<Fault> {
    let write_failed = ErrorCode::StorageWriteFailed;
    first(
        stored_fault(row.command_id, write_failed, "run command ID is invalid"@),
        first(
            stored_fault(row.run_id, write_failed, "run ID is invalid"@),
            first(
                stored_fault(row.session_id, write_failed, "stored session ID is invalid"@),
                stored_fault(row.task_id, write_failed, "stored task ID is invalid"@),
            ),
        ),
    )
}

/// Why a stored command cannot be read.
pub open spec fn command_row_fault(row: CommandRow) -> Option<Fault> {
    let write_failed = ErrorCode::StorageWriteFailed;
    first(
        if forall|kind: RunCommandKind| #[trigger] kind.text() != row.kind@ {
            fault(write_failed, "run command kind is invalid"@)
        } else {
            None
        },
        first(
            if forall|state: RunCommandState| #[trigger] state.text() != row.state@ {
                fault(write_failed, "run command state is invalid"@)
            } else {
                None
            },
            first(
                command_identity_fault(row),
                first(
                    if is_json(row.payload_json@) {
                        None
                    } else {
                        fault(write_failed, "command payload is invalid"@)
                    },
                    first(
                        u64_fault(row.created_at_unix_ms, "command time"@),
                        first(
                            u64_option_fault(row.claimed_at_unix_ms, "command claim time"@),
                            u64_option_fault(row.applied_at_unix_ms, "command applied time"@),
                        ),
                    ),
                ),
            ),
        ),
    )
}

/// The command that a row holds, under the kind and state that its texts stand
/// for.
pub open spec fn command_of(
    row: CommandRow,
    kind: RunCommandKind,
    state: RunCommandState,
) -> RunCommandRecord {
    RunCommandRecord {
        command_id: row.command_id->Ok_0,
        run_id: row.run_id->Ok_0,
        session_id: row.session_id->Ok_0,
        task_id: row.task_id->Ok_0,
        kind,
        state,
        payload: row.payload_json,
        detail: row.detail,
        created_at_unix_ms: row.created_at_unix_ms as u64,
        claimed_at_unix_ms: u64_option(row.claimed_at_unix_ms),
        applied_at_unix_ms: u64_option(row.applied_at_unix_ms),
    }
}

/// A record is what a row holds.
pub open spec fn command_reads_as(row: CommandRow, record: RunCommandRecord) -> bool {
    &&& record.kind.text() == row.kind@
    &&& record.state.text() == row.state@
    &&& record == command_of(row, record.kind, record.state)
}

/// Reads a command back.
pub fn command_from_row(row: CommandRow) -> (result: Result<RunCommandRecord, StoreError>)
    ensures
        answers(result, command_row_fault(row)),
        result is Ok ==> command_reads_as(row, result->Ok_0),
{
    let code: ErrorCode = ErrorCode::StorageWriteFailed;
    let kind: RunCommandKind = match RunCommandKind::parse(row.kind.as_str()) {
        Some(kind) => kind,
        None => {
            return Err(StoreError::new(code, "run command kind is invalid"));
        },
    };
    let state: RunCommandState = match RunCommandState::parse(row.state.as_str()) {
        Some(state) => state,
        None => {
            assert(kind.text() == row.kind@);
            return Err(StoreError::new(code, "run command state is invalid"));
        },
    };
    assert(kind.text() == row.kind@ && state.text() == row.state@);
    let command_id: String = stored_value(row.command_id, code, "run command ID is invalid")?;
    let run_id: String = stored_value(row.run_id, code, "run ID is invalid")?;
    let session_id: String = stored_value(row.session_id, code, "stored session ID is invalid")?;
    let task_id: String = stored_value(row.task_id, code, "stored task ID is invalid")?;
    if !json_is_valid(row.payload_json.as_str()) {
        return Err(StoreError::new(code, "command payload is invalid"));
    }
    let created_at_unix_ms: u64 = to_u64(row.created_at_unix_ms, "command time")?;
    let claimed_at_unix_ms: Option<u64> = to_u64_option(
        row.claimed_at_unix_ms,
        "command claim time",
    )?;
    let applied_at_unix_ms: Option<u64> = to_u64_option(
        row.applied_at_unix_ms,
        "command applied time",
    )?;
    Ok(
        RunCommandRecord {
            command_id,
            run_id,
            session_id,
            task_id,
            kind,
            state,
            payload: row.payload_json,
            detail: row.detail,
            created_at_unix_ms,
            claimed_at_unix_ms,
            applied_at_unix_ms,
        },
    )
}

/// A row holds a command as it is written: its identities and texts as they are, and
/// its numbers, which columns can hold.
pub open spec fn command_is_stored_in(record: RunCommandRecord, row: CommandRow) -> bool {
    &&& record.created_at_unix_ms <= i64::MAX
    &&& record.claimed_at_unix_ms is Some ==> record.claimed_at_unix_ms->Some_0 <= i64::MAX
    &&& record.applied_at_unix_ms is Some ==> record.applied_at_unix_ms->Some_0 <= i64::MAX
    &&& is_json(record.payload@)
    &&& row.kind@ == record.kind.text()
    &&& row.state@ == record.state.text()
    &&& row == (CommandRow {
        command_id: Ok(record.command_id),
        run_id: Ok(record.run_id),
        session_id: Ok(record.session_id),
        task_id: Ok(record.task_id),
        created_at_unix_ms: record.created_at_unix_ms as i64,
        claimed_at_unix_ms: i64_option(record.claimed_at_unix_ms),
        applied_at_unix_ms: i64_option(record.applied_at_unix_ms),
        payload_json: record.payload,
        detail: record.detail,
        kind: row.kind,
        state: row.state,
    })
}

/// What is written is read back: the row of a command reads without an error, and as
/// the record that it was written from.
pub proof fn law_stored_command_reads_back(record: RunCommandRecord, row: CommandRow, read: RunCommandRecord)
    requires
        command_is_stored_in(record, row),
        command_reads_as(row, read),
    ensures
        command_row_fault(row) is None,
        read == record,
{
    crate::states::law_run_command_kind_texts_differ(record.kind, read.kind);
    crate::states::law_run_command_state_texts_differ(record.state, read.state);
}

/// Why a command is not queued.
pub open spec fn enqueue_fault(
    record: RunCommandRecord,
    fence: HostFence,
    held: Option<i64>,
) -> Option<Fault> {
    first(
        fence_fault(held, fence),
        i64_fault(record.created_at_unix_ms, "command time"@),
    )
}

/// Whether a command is queued. A command that is already there is not queued
/// again.
pub fn enqueue_run_command(
    record: &RunCommandRecord,
    fence: &HostFence,
    held: Option<i64>,
    known: bool,
) -> (result: Result<bool, StoreError>)
    ensures
        answers(result, enqueue_fault(*record, *fence, held)),
        result is Ok ==> result->Ok_0 == !known,
{
    check_fence(held, fence)?;
    let created: i64 = to_i64(record.created_at_unix_ms, "command time")?;
    Ok(!known)
}

/// A command to a run, as far as claiming it looks at it.
#[derive(Clone, Debug, PartialEq, Eq)]
pub struct CommandMark {
    pub state: String,
    pub claimed_at_unix_ms: Option<i64>,
}

/// How many of the first commands of a run are waiting.
pub open spec fn waiting_before(commands: Seq<CommandMark>, count: int) -> nat
    decreases count,
{
    if count <= 0 {
        0
    } else if commands[count - 1].state@ == RunCommandState::Pending.text() {
        waiting_before(commands, count - 1) + 1
    } else {
        waiting_before(commands, count - 1)
    }
}

/// The command at a place is claimed: it is waiting, and fewer than `limit` of
/// the ones before it are.
pub open spec fn is_claimed(commands: Seq<CommandMark>, limit: u32, i: int) -> bool {
    &&& commands[i].state@ == RunCommandState::Pending.text()
    &&& waiting_before(commands, i) < limit
}

/// A command after a claim at a time: one that was taken is claimed, and as of that
/// time; any other is as it was.
pub open spec fn claimed_as(before: CommandMark, after: CommandMark, taken: bool, now: u64) -> bool {
    if taken {
        &&& after.state@ == RunCommandState::Claimed.text()
        &&& after.claimed_at_unix_ms == Some(now as i64)
    } else {
        after == before
    }
}

/// What a claim does to the commands of a run.
#[derive(Clone, Debug, PartialEq, Eq)]
pub struct RunClaim {
    /// The commands afterwards.
    pub commands: Vec<CommandMark>,
    /// Which of them this claim took, and so hands out.
    pub handed_out: Vec<bool>,
}

/// Why no command is claimed.
pub open spec fn claim_fault(
    now_unix_ms: u64,
    fence: HostFence,
    held: Option<i64>,
) -> Option<Fault> {
    first(fence_fault(held, fence), i64_fault(now_unix_ms, "command claim time"@))
}

/// Claims the oldest commands of a run that are waiting, up to a limit. `commands`
/// are all of the run's commands, oldest first.
pub fn claim_run_commands(
    commands: Vec<CommandMark>,
    limit: u32,
    now_unix_ms: u64,
    fence: &HostFence,
    held: Option<i64>,
) -> (result: Result<RunClaim, StoreError>)
    ensures
        answers(result, claim_fault(now_unix_ms, *fence, held)),
        result is Ok ==> result->Ok_0.commands@.len() == commands@.len(),
        result is Ok ==> result->Ok_0.handed_out@.len() == commands@.len(),
        result is Ok ==> forall|i: int|
            0 <= i < commands@.len() ==> claimed_as(
                commands@[i],
                #[trigger] result->Ok_0.commands@[i],
                is_claimed(commands@, limit, i),
                now_unix_ms,
            ),
        result is Ok ==> forall|i: int|
            0 <= i < commands@.len() ==> #[trigger] result->Ok_0.handed_out@[i] == is_claimed(
                commands@,
                limit,
                i,
            ),
{
    check_fence(held, fence)?;
    let now: i64 = to_i64(now_unix_ms, "command claim time")?;
    let ghost before = commands@;
    let mut after: Vec<CommandMark> = commands;
    let mut handed_out: Vec<bool> = Vec::new();
    let mut taken: u32 = 0;
    let mut i: usize = 0;
    while i < after.len()
        invariant
            i <= after.len(),
            now == now_unix_ms,
            after@.len() == before.len(),
            handed_out@.len() == i,
            taken <= limit,
            taken == if waiting_before(before, i as int) < limit {
                waiting_before(before, i as int) as int
            } else {
                limit as int
            },
            forall|j: int|
                0 <= j < i ==> claimed_as(
                    before[j],
                    #[trigger] after@[j],
                    is_claimed(before, limit, j),
                    now_unix_ms,
                ),
            forall|j: int|
                0 <= j < i ==> #[trigger] handed_out@[j] == is_claimed(before, limit, j),
            forall|j: int| i <= j < after@.len() ==> #[trigger] after@[j] == before[j],
        decreases after.len() - i,
    {
        let takes: bool = same_text(after[i].state.as_str(), "pending") && taken < limit;
        handed_out.push(takes);
        if takes {
            after.set(
                i,
                CommandMark {
                    state: RunCommandState::Claimed.as_str().to_owned(),
                    claimed_at_unix_ms: Some(now),
                },
            );
            taken = taken + 1;
        }
        i += 1;
    }
    Ok(RunClaim { commands: after, handed_out })
}

/// A command is handed out by exactly one claim: whatever a claim took, a claim after
/// it leaves, whenever the two are made and whatever their limits are.
pub proof fn law_command_is_claimed_once(
    before: Seq<CommandMark>,
    after: Seq<CommandMark>,
    limit: u32,
    now: u64,
    handed_out: Seq<bool>,
    later_limit: u32,
    later_handed_out: Seq<bool>,
    i: int,
)
    requires
        0 <= i < before.len(),
        after.len() == before.len(),
        claimed_as(before[i], after[i], is_claimed(before, limit, i), now),
        handed_out[i] == is_claimed(before, limit, i),
        later_handed_out[i] == is_claimed(after, later_limit, i),
    ensures
        !(handed_out[i] && later_handed_out[i]),
{
    crate::states::law_run_command_state_texts_differ(
        RunCommandState::Pending,
        RunCommandState::Claimed,
    );
}

proof fn lemma_claims_are_counted(
    commands: Seq<CommandMark>,
    limit: u32,
    handed_out: Seq<bool>,
    count: int,
)
    requires
        0 <= count <= commands.len(),
        handed_out.len() == commands.len(),
        forall|i: int|
            0 <= i < commands.len() ==> #[trigger] handed_out[i] == is_claimed(commands, limit, i),
    ensures
        set_before(handed_out, count) == if waiting_before(commands, count) < limit {
            waiting_before(commands, count) as int
        } else {
            limit as int
        },
    decreases count,
{
    if count > 0 {
        lemma_claims_are_counted(commands, limit, handed_out, count - 1);
        assert(handed_out[count - 1] == is_claimed(commands, limit, count - 1));
    }
}

proof fn lemma_waiting_grows(commands: Seq<CommandMark>, less: int, more: int)
    requires
        0 <= less <= more,
    ensures
        waiting_before(commands, less) <= waiting_before(commands, more),
    decreases more - less,
{
    if less < more {
        lemma_waiting_grows(commands, less, more - 1);
    }
}

/// A claim hands out no more commands than its limit, and as many as are waiting where
/// these are fewer; and it takes the oldest: a waiting command before one that is
/// handed out is handed out too.
pub proof fn law_claim_takes_the_oldest_up_to_its_limit(
    commands: Seq<CommandMark>,
    limit: u32,
    handed_out: Seq<bool>,
)
    requires
        handed_out.len() == commands.len(),
        forall|i: int|
            0 <= i < commands.len() ==> #[trigger] handed_out[i] == is_claimed(commands, limit, i),
    ensures
        set_before(handed_out, handed_out.len() as int) <= limit,
        waiting_before(commands, commands.len() as int) <= limit ==> set_before(
            handed_out,
            handed_out.len() as int,
        ) == waiting_before(commands, commands.len() as int),
        forall|i: int, j: int|
            0 <= j < i < commands.len() && #[trigger] handed_out[i] && (#[trigger] commands[j]).state@
                == RunCommandState::Pending.text() ==> handed_out[j],
{
    lemma_claims_are_counted(commands, limit, handed_out, commands.len() as int);
    assert forall|i: int, j: int|
        0 <= j < i < commands.len() && #[trigger] handed_out[i] && (#[trigger] commands[j]).state@
            == RunCommandState::Pending.text() implies handed_out[j] by {
        lemma_waiting_grows(commands, j, i);
        assert(handed_out[i] == is_claimed(commands, limit, i));
        assert(handed_out[j] == is_claimed(commands, limit, j));
    }
}

/// A command to a run, as far as completing it looks at it.
#[derive(Clone, Debug, PartialEq, Eq)]
pub struct AppliedCommand {
    pub state: String,
    pub detail: Option<String>,
    pub applied_at_unix_ms: Option<i64>,
}

/// Why a command is not completed.
pub open spec fn complete_fault(
    command: Option<AppliedCommand>,
    now_unix_ms: u64,
    fence: HostFence,
    held: Option<i64>,
) -> Option<Fault> {
    first(
        fence_fault(held, fence),
        first(
            i64_fault(now_unix_ms, "command applied time"@),
            if command is Some && command->Some_0.state@
                == RunCommandState::Claimed.text() {
                None
            } else {
                fault(
                    ErrorCode::RuntimeCommandConflict,
                    "run command was not claimed by this host"@,
                )
            },
        ),
    )
}

/// Lets a claimed command be completed, with a state and a detail, where there is one.
pub fn complete_run_command(
    command: Option<AppliedCommand>,
    state: RunCommandState,
    detail: Option<String>,
    now_unix_ms: u64,
    fence: &HostFence,
    held: Option<i64>,
) -> (result: Result<AppliedCommand, StoreError>)
    ensures
        answers(result, complete_fault(command, now_unix_ms, *fence, held)),
        result is Ok ==> {
            let after = result->Ok_0;
            &&& after.state@ == state.text()
            &&& after.detail == detail
            &&& after.applied_at_unix_ms == Some(now_unix_ms as i64)
        },
{
    check_fence(held, fence)?;
    let now: i64 = to_i64(now_unix_ms, "command applied time")?;
    match command {
        Some(stored) => if same_text(stored.state.as_str(), "claimed") {
            return Ok(
                AppliedCommand {
                    state: state.as_str().to_owned(),
                    detail,
                    applied_at_unix_ms: Some(now),
                },
            );
        },
        None => {},
    }
    Err(
        StoreError::new(
            ErrorCode::RuntimeCommandConflict,
            "run command was not claimed by this host",
        ),
    )
}

/// A command is queued and claimed by any host that may write, at a time that fits its column,
/// and is completed, in any state, if and only if it has been claimed.
pub proof fn law_claimed_command_is_completed(
    record: RunCommandRecord,
    command: AppliedCommand,
    now_unix_ms: u64,
    fence: HostFence,
    held: Option<i64>,
)
    ensures
        enqueue_fault(record, fence, held) is None <==> {
            &&& held is Some
            &&& held->Some_0 == fence.generation as int
            &&& record.created_at_unix_ms <= i64::MAX
        },
        claim_fault(now_unix_ms, fence, held) is None <==> {
            &&& held is Some
            &&& held->Some_0 == fence.generation as int
            &&& now_unix_ms <= i64::MAX
        },
        complete_fault(Some(command), now_unix_ms, fence, held) is None <==> {
            &&& held is Some
            &&& held->Some_0 == fence.generation as int
            &&& now_unix_ms <= i64::MAX
            &&& command.state@ == "claimed"@
        },
        complete_fault(None, now_unix_ms, fence, held) is Some,
{
}

/// A command is claimed if and only if it is pending and fewer than the limit were pending
/// before it. It is then claimed from that moment on, and every other is as it was.
pub proof fn law_pending_commands_are_claimed(
    commands: Seq<CommandMark>,
    limit: u32,
    i: int,
    after: CommandMark,
    now_unix_ms: u64,
)
    requires
        0 <= i < commands.len(),
        now_unix_ms <= i64::MAX,
    ensures
        i < limit && commands[i].state@ == "pending"@ ==> is_claimed(commands, limit, i),
        commands[i].state@ != "pending"@ ==> !is_claimed(commands, limit, i),
        (forall|k: int| 0 <= k <= i ==> (#[trigger] commands[k]).state@ == "pending"@) ==> (
        is_claimed(commands, limit, i) <==> i < limit),
        claimed_as(commands[i], after, true, now_unix_ms) ==> {
            &&& after.state@ == "claimed"@
            &&& after.claimed_at_unix_ms is Some
            &&& after.claimed_at_unix_ms->Some_0 == now_unix_ms as int
        },
        claimed_as(commands[i], after, false, now_unix_ms) ==> after == commands[i],
{
    lemma_waiting_is_bounded(commands, i);
    if forall|k: int| 0 <= k <= i ==> (#[trigger] commands[k]).state@ == "pending"@ {
        lemma_all_are_waiting(commands, i);
    }
}

/// No more commands wait than there are.
proof fn lemma_waiting_is_bounded(commands: Seq<CommandMark>, count: int)
    requires
        0 <= count <= commands.len(),
    ensures
        waiting_before(commands, count) <= count,
    decreases count,
{
    if count > 0 {
        lemma_waiting_is_bounded(commands, count - 1);
    }
}

/// Where all commands are pending, all of them wait.
proof fn lemma_all_are_waiting(commands: Seq<CommandMark>, count: int)
    requires
        0 <= count <= commands.len(),
        forall|k: int| 0 <= k < count ==> (#[trigger] commands[k]).state@ == "pending"@,
    ensures
        waiting_before(commands, count) == count,
    decreases count,
{
    if count > 0 {
        lemma_all_are_waiting(commands, count - 1);
        assert(commands[count - 1].state@ == "pending"@);
    }
}

} // verus!

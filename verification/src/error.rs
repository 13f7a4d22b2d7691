//! The error every store operation reports: a stable code and a message.

use vstd::prelude::*;

verus! {

/// The stable codes a store operation can report.
#[derive(Clone, Copy, Debug, PartialEq, Eq, Structural)]
pub enum ErrorCode {
    ApprovalConsumed,
    ApprovalRequired,
    ApprovalRevoked,
    ApprovalStale,
    ArtifactWriteFailed,
    BudgetExhausted,
    CompactionConflict,
    DeliveryConflict,
    DuplicateTaskId,
    IdempotencyConflict,
    InvalidHash,
    InvalidPayload,
    InvalidSequence,
    InvalidStateTransition,
    MigrationFailed,
    OutputLimitExceeded,
    PolicyDenied,
    ProjectIdentityConflict,
    ReadOnlyStore,
    RetentionRefused,
    RetryExhausted,
    RuntimeCommandConflict,
    SchemaVersionMismatch,
    ScopeAuthorityDenied,
    SequenceConflict,
    SnapshotCorrupt,
    SourceUnavailable,
    StaleWriter,
    StorageOpenFailed,
    StorageWriteFailed,
    TaskLeaseConflict,
    TaskNotFound,
    TaskOwnershipConflict,
    ToolIntentConflict,
    WriterLocked,
    /// A code of another component, carried through by its number.
    Other(u32),
}

/// What an error says: its code and the characters of its message.
pub struct Fault {
    pub code: ErrorCode,
    pub message: Seq<char>,
}

/// The fault with this code and message, as the outcome of a check.
pub open spec fn fault(code: ErrorCode, message: Seq<char>) -> Option<Fault> {
    Some(Fault { code, message })
}

/// An operation answers exactly as a check says: with the fault the check
/// found, or successfully where it found none.
pub open spec fn answers<T>(result: Result<T, StoreError>, found: Option<Fault>) -> bool {
    match found {
        Some(expected) => result is Err && result->Err_0@ == expected,
        None => result is Ok,
    }
}

/// The first of two faults, in the order the checks run.
pub open spec fn first(earlier: Option<Fault>, later: Option<Fault>) -> Option<Fault> {
    match earlier {
        Some(found) => Some(found),
        None => later,
    }
}

/// A stable error emitted by the store.
#[derive(Clone, Debug, PartialEq, Eq)]
pub struct StoreError {
    code: ErrorCode,
    message: String,
}

impl View for StoreError {
    type V = Fault;

    closed spec fn view(&self) -> Fault {
        Fault { code: self.code, message: self.message@ }
    }
}

impl StoreError {
    #[must_use]
    pub fn new(code: ErrorCode, message: &str) -> (error: Self)
        ensures
            error@ == (Fault { code, message: message@ }),
    {
        StoreError { code, message: message.to_owned() }
    }

    #[must_use]
    pub fn code(&self) -> (code: ErrorCode)
        ensures
            code == self@.code,
    {
        self.code
    }

    #[must_use]
    pub fn message(&self) -> (message: &str)
        ensures
            message@ == self@.message,
    {
        self.message.as_str()
    }

    /// The same code and message, as the error of the port boundary.
    #[must_use]
    pub fn into_harness_error(self) -> (error: HarnessError)
        ensures
            error.code == self@.code,
            error.message@ == self@.message,
    {
        HarnessError { code: self.code, message: self.message }
    }
}

/// The error of the port boundary.
#[derive(Clone, Debug, PartialEq, Eq)]
pub struct HarnessError {
    pub code: ErrorCode,
    pub message: String,
}

/// What a rule outside the store reported when it turned a value down: its
/// code, and the text it renders as.
#[derive(Clone, Debug, PartialEq, Eq)]
pub struct Refusal {
    pub code: ErrorCode,
    pub text: String,
}

/// The verdict of a rule outside the store on a value handed to it.
pub type Verdict = Result<(), Refusal>;

/// An identity or a digest as its own parser reads it.
pub type Parsed = Result<String, Refusal>;

impl Refusal {
    pub open spec fn as_fault(self) -> Option<Fault> {
        fault(self.code, self.text@)
    }

    pub open spec fn prefixed_fault(self, prefix: Seq<char>) -> Option<Fault> {
        fault(self.code, prefix + self.text@)
    }

    /// The store's error for this refusal, with its text unchanged.
    pub fn to_error(&self) -> (error: StoreError)
        ensures
            Some(error@) == self.as_fault(),
    {
        StoreError::new(self.code, self.text.as_str())
    }

    /// The store's error for this refusal, with its text behind a prefix.
    pub fn to_prefixed_error(&self, prefix: &str) -> (error: StoreError)
        ensures
            Some(error@) == self.prefixed_fault(prefix@),
    {
        let message: String = crate::text::cat(prefix, self.text.as_str());
        StoreError::new(self.code, message.as_str())
    }
}

/// The fault of a verdict, with the refusal's text behind a prefix.
pub open spec fn verdict_fault(verdict: Verdict, prefix: Seq<char>) -> Option<Fault> {
    match verdict {
        Ok(_) => None,
        Err(refusal) => refusal.prefixed_fault(prefix),
    }
}

/// Passes a verdict on, with the refusal's text behind a prefix.
pub fn check_verdict(verdict: &Verdict, prefix: &str) -> (result: Result<(), StoreError>)
    ensures
        answers(result, verdict_fault(*verdict, prefix@)),
{
    match verdict {
        Ok(_) => Ok(()),
        Err(refusal) => Err(refusal.to_prefixed_error(prefix)),
    }
}

/// The fault of an identity that its own parser turned down.
pub open spec fn parsed_fault(parsed: Parsed) -> Option<Fault> {
    match parsed {
        Ok(_) => None,
        Err(refusal) => refusal.as_fault(),
    }
}

/// The value of an identity that parsed, or its parser's own refusal.
pub fn parsed_value(parsed: Parsed) -> (result: Result<String, StoreError>)
    ensures
        answers(result, parsed_fault(parsed)),
        result is Ok ==> result->Ok_0 == parsed->Ok_0,
{
    match parsed {
        Ok(value) => Ok(value),
        Err(refusal) => Err(refusal.to_error()),
    }
}

/// The fault of an optional identity that its own parser turned down.
pub open spec fn optional_parsed_fault(parsed: Option<Parsed>) -> Option<Fault> {
    match parsed {
        None => None,
        Some(inner) => parsed_fault(inner),
    }
}

/// The value of an optional identity, or its parser's own refusal.
pub fn parse_optional_id(parsed: Option<Parsed>) -> (result: Result<Option<String>, StoreError>)
    ensures
        answers(result, optional_parsed_fault(parsed)),
        result is Ok ==> result->Ok_0 == parsed_option(parsed),
{
    match parsed {
        None => Ok(None),
        Some(inner) => Ok(Some(parsed_value(inner)?)),
    }
}

/// The fault of a stored identity, under the store's own code and message.
pub open spec fn stored_fault(parsed: Parsed, code: ErrorCode, message: Seq<char>) -> Option<
    Fault,
> {
    if parsed is Ok {
        None
    } else {
        fault(code, message)
    }
}

/// The value of a stored identity, or the store's own error for it.
pub fn stored_value(parsed: Parsed, code: ErrorCode, message: &str) -> (result: Result<
    String,
    StoreError,
>)
    ensures
        answers(result, stored_fault(parsed, code, message@)),
        result is Ok ==> result->Ok_0 == parsed->Ok_0,
{
    match parsed {
        Ok(value) => Ok(value),
        Err(_) => Err(StoreError::new(code, message)),
    }
}

/// The fault of an optional stored identity: an absent one has none.
pub open spec fn stored_option_fault(
    parsed: Option<Parsed>,
    code: ErrorCode,
    message: Seq<char>,
) -> Option<Fault> {
    match parsed {
        None => None,
        Some(inner) => stored_fault(inner, code, message),
    }
}

/// The value of an optional identity that parsed.
pub open spec fn parsed_option(parsed: Option<Parsed>) -> Option<String> {
    match parsed {
        None => None,
        Some(inner) => Some(inner->Ok_0),
    }
}

/// An optional identity, as the row that it was written to is read.
pub open spec fn written_option(id: Option<String>) -> Option<Parsed> {
    match id {
        None => None,
        Some(text) => Some(Ok(text)),
    }
}

/// The value of an optional stored identity, or the store's own error for it.
pub fn stored_option(parsed: Option<Parsed>, code: ErrorCode, message: &str) -> (result: Result<
    Option<String>,
    StoreError,
>)
    ensures
        answers(result, stored_option_fault(parsed, code, message@)),
        result is Ok ==> result->Ok_0 == parsed_option(parsed),
{
    match parsed {
        None => Ok(None),
        Some(inner) => match stored_value(inner, code, message) {
            Ok(value) => Ok(Some(value)),
            Err(error) => Err(error),
        },
    }
}

/// The fault of content whose canonical digest is not the one it is stored
/// under. `canonical` is the digest of the content, or the refusal of content
/// that has no canonical form.
pub open spec fn digest_fault(
    canonical: Parsed,
    expected: Seq<char>,
    prefix: Seq<char>,
    code: ErrorCode,
    message: Seq<char>,
) -> Option<Fault> {
    match canonical {
        Err(refusal) => refusal.prefixed_fault(prefix),
        Ok(actual) => if actual@ != expected {
            fault(code, message)
        } else {
            None
        },
    }
}

/// Refuses content whose canonical digest is not the expected one.
pub fn check_digest(
    canonical: &Parsed,
    expected: &str,
    prefix: &str,
    code: ErrorCode,
    message: &str,
) -> (result: Result<(), StoreError>)
    ensures
        answers(result, digest_fault(*canonical, expected@, prefix@, code, message@)),
{
    match canonical {
        Err(refusal) => Err(refusal.to_prefixed_error(prefix)),
        Ok(actual) => if crate::text::same_text(actual.as_str(), expected) {
            Ok(())
        } else {
            Err(StoreError::new(code, message))
        },
    }
}

/// The fault of stored content whose digest does not match.
pub open spec fn hashed_json_fault(canonical: Parsed, expected: Seq<char>) -> Option<Fault> {
    digest_fault(
        canonical,
        expected,
        "content is not canonical: "@,
        ErrorCode::InvalidHash,
        "content hash does not match canonical content"@,
    )
}

/// Refuses content whose digest does not match.
pub fn validate_hashed_json(canonical: &Parsed, expected: &str) -> (result: Result<(), StoreError>)
    ensures
        answers(result, hashed_json_fault(*canonical, expected@)),
{
    check_digest(
        canonical,
        expected,
        "content is not canonical: ",
        ErrorCode::InvalidHash,
        "content hash does not match canonical content",
    )
}

/// The first refusal in a list of parsed identities.
pub open spec fn parsed_list_fault(list: Seq<Parsed>) -> Option<Fault>
    decreases list.len(),
{
    if list.len() == 0 {
        None
    } else {
        first(parsed_list_fault(list.drop_last()), parsed_fault(list.last()))
    }
}

/// The values of a list of identities that all parsed, or the first refusal.
pub fn parsed_values(list: Vec<Parsed>) -> (result: Result<Vec<String>, StoreError>)
    ensures
        answers(result, parsed_list_fault(list@)),
        result is Ok ==> result->Ok_0@ == list@.map_values(|parsed: Parsed| parsed->Ok_0),
{
    let mut values: Vec<String> = Vec::new();
    let mut i: usize = 0;
    while i < list.len()
        invariant
            i <= list.len(),
            parsed_list_fault(list@.take(i as int)) is None,
            values@ == list@.take(i as int).map_values(|parsed: Parsed| parsed->Ok_0),
        decreases list.len() - i,
    {
        assert(list@.take(i + 1).drop_last() =~= list@.take(i as int));
        assert(list@.take(i + 1).last() == list@[i as int]);
        match &list[i] {
            Ok(value) => {
                values.push(value.clone());
                assert(values@ =~= list@.take(i + 1).map_values(|parsed: Parsed| parsed->Ok_0));
            },
            Err(refusal) => {
                proof {
                    lemma_earlier_refusal_stands(list@, i + 1);
                }
                return Err(refusal.to_error());
            },
        }
        i += 1;
    }
    assert(list@.take(i as int) =~= list@);
    Ok(values)
}

/// What a list's first identities were refused for, the whole list is.
proof fn lemma_earlier_refusal_stands(list: Seq<Parsed>, count: int)
    requires
        0 <= count <= list.len(),
        parsed_list_fault(list.take(count)) is Some,
    ensures
        parsed_list_fault(list) == parsed_list_fault(list.take(count)),
    decreases list.len() - count,
{
    if count == list.len() {
        assert(list.take(count) =~= list);
    } else {
        assert(list.take(count + 1).drop_last() =~= list.take(count));
        lemma_earlier_refusal_stands(list, count + 1);
    }
}

/// A list of identities is read where each of them is.
proof fn lemma_list_is_each_identity(
    list: Seq<Parsed>,
)
    ensures
        parsed_list_fault(list) is None <==> forall|i: int|
            0 <= i < list.len() ==> parsed_fault(#[trigger] list[i]) is None,
    decreases list.len(),
{
    if list.len() > 0 {
        let head = list.drop_last();
        lemma_list_is_each_identity(head);
        assert forall|i: int| 0 <= i < head.len() implies head[i] == #[trigger] list[i] by {}
        if parsed_list_fault(list) is None {
            assert forall|i: int| 0 <= i < list.len() implies parsed_fault(#[trigger] list[i]) is None by {
                if i < head.len() {
                    assert(parsed_fault(head[i]) is None);
                }
            }
        }
        if forall|i: int|
            0 <= i < list.len() ==> parsed_fault(#[trigger] list[i]) is None {
            assert forall|i: int| 0 <= i < head.len() implies parsed_fault(#[trigger] head[i]) is None by {
                assert(parsed_fault(list[i]) is None);
            }
            assert(parsed_fault(list[list.len() - 1]) is None);
        }
    }
}

/// What was refused elsewhere is refused here, with its code and its text, and nothing else is:
/// a verdict, an identity, a list of identities, and a digest that is not the expected one.
pub proof fn law_refusals_are_passed_on(
    verdict: Verdict,
    parsed: Parsed,
    list: Seq<Parsed>,
    expected: Seq<char>,
    prefix: Seq<char>,
    code: ErrorCode,
    message: Seq<char>,
)
    ensures
        verdict_fault(verdict, prefix) is None <==> verdict is Ok,
        verdict is Err ==> verdict_fault(verdict, prefix) == Some(
            Fault { code: verdict->Err_0.code, message: prefix + verdict->Err_0.text@ },
        ),
        parsed_fault(parsed) is None <==> parsed is Ok,
        parsed is Err ==> parsed_fault(parsed) == Some(
            Fault { code: parsed->Err_0.code, message: parsed->Err_0.text@ },
        ),
        optional_parsed_fault(None) is None,
        optional_parsed_fault(Some(parsed)) is None <==> parsed is Ok,
        stored_fault(parsed, code, message) is None <==> parsed is Ok,
        parsed is Err ==> stored_fault(parsed, code, message) == Some(Fault { code, message }),
        stored_option_fault(None, code, message) is None,
        stored_option_fault(Some(parsed), code, message) is None <==> parsed is Ok,
        parsed_list_fault(list) is None <==> forall|i: int|
            0 <= i < list.len() ==> (#[trigger] list[i]) is Ok,
        digest_fault(parsed, expected, prefix, code, message) is None <==> parsed is Ok
            && parsed->Ok_0@ == expected,
        parsed is Ok && parsed->Ok_0@ != expected ==> digest_fault(
            parsed,
            expected,
            prefix,
            code,
            message,
        ) == Some(Fault { code, message }),
        parsed is Ok ==> parsed_option(Some(parsed)) == Some(parsed->Ok_0),
{
    lemma_list_is_each_identity(list);
    assert forall|i: int| 0 <= i < list.len() implies (parsed_fault(#[trigger] list[i]) is None)
        == (list[i] is Ok) by {}
}

} // verus!

//! The index over the journal, and the notes of a task.
//!
//! The index is derived: what it holds follows from the journal alone, whether it
//! was written event by event or rebuilt in one go. A scope is a filter: a source
//! of another task is no candidate unless it was granted. A note is a report, and
//! nothing here takes it for true.

use crate::columns::{or_zero, to_u64_or_zero};
use crate::error::{
    answers, fault, first, parsed_fault, parsed_value, ErrorCode, Fault, Parsed, StoreError,
    Verdict,
};
use crate::journal::{check_fence, fence_fault, HostFence};
use crate::json::{
    is_json, json_is_valid, json_member, json_member_text, json_string, json_text, strings_at,
    strings_under,
};
use crate::search::{lemma_search_text_spells_its_query, search_query};
use crate::sql::spells;
use crate::states::SourceAvailability;
use crate::terms::{all_terms, history_terms, kept_terms, trim_end, trim_start, trimmed};
use crate::text::{
    blank, cat, cat3, cat4, char_is_white, chars_of, decimal, decimal_text, has_text, is_blank,
    is_white, opt_text, same_text, text_of, texts,
};
use vstd::prelude::*;
use vstd::string::*;
use vstd::utf8::{encode_utf8, is_char_boundary};

verus! {

/// Longest stored content per source; a journal entry larger than this keeps its
/// head and says it was cut.
pub const HISTORY_SOURCE_LIMIT_BYTES: usize = 65536;

/// Largest page that a read returns.
pub const HISTORY_READ_MAX_BYTES: usize = 65536;

/// Page size when a caller names none.
pub const HISTORY_READ_DEFAULT_BYTES: usize = 16384;

/// Longest note key.
pub const NOTE_KEY_LIMIT_CHARS: usize = 120;

/// Longest note body.
pub const NOTE_CONTENT_LIMIT_BYTES: usize = 16384;

/// How many characters of a source a search result shows.
pub const PREVIEW_CHARS: usize = 160;

/// One indexed journal entry.
#[derive(Clone, Debug, PartialEq, Eq)]
pub struct HistorySource {
    pub source_id: String,
    pub session_id: String,
    pub task_id: String,
    pub project_id: String,
    pub sequence: u64,
    pub kind: String,
    pub content: String,
    pub content_hash: String,
    pub availability: SourceAvailability,
}

/// One search result. The preview is for display.
#[derive(Clone, Debug, PartialEq, Eq)]
pub struct HistoryHit {
    pub source_id: String,
    pub sequence: u64,
    pub kind: String,
    pub content_hash: String,
    pub availability: SourceAvailability,
    pub preview: String,
    /// How many of the query's terms this source contains.
    pub matched_terms: u64,
}

/// One page of an exact read.
#[derive(Clone, Debug, PartialEq, Eq)]
pub struct HistoryPage {
    pub source_id: String,
    pub sequence: u64,
    pub kind: String,
    pub content_hash: String,
    pub offset: u64,
    pub bytes: Vec<u8>,
    pub total_bytes: u64,
}

/// Who is asking, and which sources of other tasks they may still read.
#[derive(Clone, Debug, PartialEq, Eq)]
pub struct HistoryScope {
    pub project_id: String,
    pub task_id: String,
    pub granted_source_ids: Vec<String>,
}

impl HistoryScope {
    #[must_use]
    pub fn new(project_id: String, task_id: String) -> (scope: Self)
        ensures
            scope.project_id == project_id,
            scope.task_id == task_id,
            scope.granted_source_ids@.len() == 0,
    {
        HistoryScope { project_id, task_id, granted_source_ids: Vec::new() }
    }

    #[must_use]
    pub fn with_grants(self, grants: Vec<String>) -> (scope: Self)
        ensures
            scope == (HistoryScope { granted_source_ids: grants, ..self }),
    {
        HistoryScope {
            project_id: self.project_id,
            task_id: self.task_id,
            granted_source_ids: grants,
        }
    }

    /// A source lies in the scope: in its project, and of its task or granted.
    pub open spec fn admits(
        self,
        project_id: Seq<char>,
        task_id: Seq<char>,
        source_id: Seq<char>,
    ) -> bool {
        &&& project_id == self.project_id@
        &&& task_id == self.task_id@ || texts(self.granted_source_ids@).contains(source_id)
    }

    /// Whether a source lies in the scope.
    pub fn covers(&self, project_id: &str, task_id: &str, source_id: &str) -> (covered: bool)
        ensures
            covered == self.admits(project_id@, task_id@, source_id@),
    {
        same_text(project_id, self.project_id.as_str()) && (same_text(
            task_id,
            self.task_id.as_str(),
        ) || has_text(&self.granted_source_ids, source_id))
    }
}

/// No source of another project is ever in scope, granted or not, and no source
/// of another task is unless it was granted.
pub proof fn law_scope_is_a_filter(
    scope: HistoryScope,
    project_id: Seq<char>,
    task_id: Seq<char>,
    source_id: Seq<char>,
)
    ensures
        project_id != scope.project_id@ ==> !scope.admits(project_id, task_id, source_id),
        task_id != scope.task_id@ && !texts(scope.granted_source_ids@).contains(source_id)
            ==> !scope.admits(project_id, task_id, source_id),
{
}

// ---------------------------------------------------------------------------
// What an entry contributes

/// The text that an object holds under a key, unless it is blank.
pub open spec fn readable_at(object: Seq<char>, key: Seq<char>) -> Option<Seq<char>> {
    match json_member(object, key) {
        None => None,
        Some(member) => match json_string(member) {
            None => None,
            Some(text) => if blank(text) {
                None
            } else {
                Some(text)
            },
        },
    }
}

fn readable(object: &str, key: &str) -> (text: Option<String>)
    ensures
        opt_text(text) == readable_at(object@, key@),
{
    match json_member_text(object, key) {
        None => None,
        Some(member) => match json_text(member.as_str()) {
            None => None,
            Some(text) => if is_blank(text.as_str()) {
                None
            } else {
                Some(text)
            },
        },
    }
}

/// The first of some texts that is there.
pub open spec fn first_of(a: Option<Seq<char>>, b: Option<Seq<char>>) -> Option<Seq<char>> {
    if a is Some {
        a
    } else {
        b
    }
}

/// The text of the view that an entry was given to the model in.
pub open spec fn model_view_text(payload: Seq<char>) -> Option<Seq<char>> {
    match json_member(payload, "model_view"@) {
        None => None,
        Some(view) => readable_at(view, "text"@),
    }
}

/// The text that a journal entry contributes: the first readable one of its named
/// texts, or else the whole payload as it is written, unless that says nothing.
pub open spec fn contributed(payload: Seq<char>) -> Option<Seq<char>> {
    first_of(
        readable_at(payload, "raw_text"@),
        first_of(
            readable_at(payload, "text"@),
            first_of(
                readable_at(payload, "note"@),
                first_of(
                    readable_at(payload, "content"@),
                    first_of(
                        readable_at(payload, "answer"@),
                        first_of(
                            readable_at(payload, "question"@),
                            first_of(
                                readable_at(payload, "detail"@),
                                first_of(
                                    readable_at(payload, "reason"@),
                                    first_of(
                                        model_view_text(payload),
                                        if blank(payload) || payload == "{}"@ {
                                            None
                                        } else {
                                            Some(payload)
                                        },
                                    ),
                                ),
                            ),
                        ),
                    ),
                ),
            ),
        ),
    )
}

/// The text that a journal entry contributes. `payload` is its payload in compact
/// JSON.
pub fn indexable_text(payload: &str) -> (text: Option<String>)
    ensures
        opt_text(text) == contributed(payload@),
{
    let found: Option<String> = readable(payload, "raw_text");
    if found.is_some() {
        return found;
    }
    let found: Option<String> = readable(payload, "text");
    if found.is_some() {
        return found;
    }
    let found: Option<String> = readable(payload, "note");
    if found.is_some() {
        return found;
    }
    let found: Option<String> = readable(payload, "content");
    if found.is_some() {
        return found;
    }
    let found: Option<String> = readable(payload, "answer");
    if found.is_some() {
        return found;
    }
    let found: Option<String> = readable(payload, "question");
    if found.is_some() {
        return found;
    }
    let found: Option<String> = readable(payload, "detail");
    if found.is_some() {
        return found;
    }
    let found: Option<String> = readable(payload, "reason");
    if found.is_some() {
        return found;
    }
    let found: Option<String> = match json_member_text(payload, "model_view") {
        None => None,
        Some(view) => readable(view.as_str(), "text"),
    };
    if found.is_some() {
        return found;
    }
    if is_blank(payload) || same_text(payload, "{}") {
        None
    } else {
        Some(payload.to_owned())
    }
}

/// The members that a payload is read by, in the order in which they are looked for.
pub open spec fn text_members() -> Seq<Seq<char>> {
    seq![
        "raw_text"@,
        "text"@,
        "note"@,
        "content"@,
        "answer"@,
        "question"@,
        "detail"@,
        "reason"@,
    ]
}

/// A payload contributes the first of its texts that is not blank, in the order of its
/// members, then the text of its model view, and then itself, unless it is blank or an empty
/// object. A member that is missing, blank or not a text is passed over.
pub proof fn law_first_readable_member_is_indexed(payload: Seq<char>, k: int)
    ensures
        0 <= k < 8 && readable_at(payload, text_members()[k]) is Some && (forall|j: int|
            0 <= j < k ==> readable_at(payload, #[trigger] text_members()[j]) is None)
            ==> contributed(payload) == readable_at(payload, text_members()[k]),
        (forall|j: int| 0 <= j < 8 ==> readable_at(payload, #[trigger] text_members()[j]) is None)
            ==> {
            let view = json_member(payload, "model_view"@);
            &&& view is Some && readable_at(view->Some_0, "text"@) is Some ==> contributed(payload)
                == readable_at(view->Some_0, "text"@)
            &&& view is None || readable_at(view->Some_0, "text"@) is None ==> {
                &&& blank(payload) || payload == "{}"@ ==> contributed(payload) is None
                &&& !blank(payload) && payload != "{}"@ ==> contributed(payload) == Some(payload)
            }
        },
{
    let members = text_members();
    assert(members[0] == "raw_text"@ && members[1] == "text"@ && members[2] == "note"@
        && members[3] == "content"@ && members[4] == "answer"@ && members[5] == "question"@
        && members[6] == "detail"@ && members[7] == "reason"@);
}

/// A text is read from a member of an object if and only if the member is a text that is not
/// blank, and it is that text.
pub proof fn law_member_is_read_where_it_has_text(object: Seq<char>, key: Seq<char>, text: Seq<char>)
    ensures
        readable_at(object, key) == Some(text) <==> {
            &&& json_member(object, key) is Some
            &&& json_string(json_member(object, key)->Some_0) == Some(text)
            &&& !blank(text)
        },
{
}

/// The longest head of a text that ends between two characters and takes no more
/// than some bytes.
pub open spec fn is_head(text: Seq<char>, limit: int, head: Seq<char>) -> bool {
    let bytes = encode_utf8(text);
    exists|end: int|
        0 <= end <= limit && end <= bytes.len() && #[trigger] is_char_boundary(bytes, end)
            && encode_utf8(head) == bytes.take(end) && forall|longer: int|
            end < longer <= limit ==> !#[trigger] is_char_boundary(bytes, longer)
}

/// Cuts a text to a number of bytes, between two characters, and says whether
/// anything was cut.
pub fn truncate_bytes(text: &str, limit: usize) -> (cut: (String, bool))
    ensures
        cut.1 == (encode_utf8(text@).len() > limit),
        !cut.1 ==> cut.0@ == text@,
        cut.1 ==> is_head(text@, limit as int, cut.0@),
{
    let length: usize = text.as_bytes().len();
    if length <= limit {
        return (text.to_owned(), false);
    }
    let ghost bytes = encode_utf8(text@);
    proof {
        vstd::utf8::encode_utf8_valid_utf8(text@);
    }
    let mut end: usize = limit;
    while end > 0 && !text.is_char_boundary(end)
        invariant
            end <= limit < length,
            length == bytes.len(),
            bytes == encode_utf8(text@),
            vstd::utf8::valid_utf8(bytes),
            forall|longer: int|
                end < longer <= limit ==> !#[trigger] is_char_boundary(bytes, longer),
        decreases end,
    {
        end -= 1;
    }
    assert(is_char_boundary(bytes, end as int));
    let (head, tail): (&str, &str) = text.split_at(end);
    assert(encode_utf8(head@) =~= bytes.take(end as int));
    (head.to_owned(), true)
}

/// The bytes of the first characters of a text end between two characters of it.
proof fn lemma_first_characters_end_at_a_boundary(text: Seq<char>, count: int)
    requires
        0 <= count <= text.len(),
    ensures
        is_char_boundary(encode_utf8(text), encode_utf8(text.take(count)).len() as int),
        encode_utf8(text.take(count)).len() <= encode_utf8(text).len(),
        encode_utf8(text.take(count)) == encode_utf8(text).take(
            encode_utf8(text.take(count)).len() as int,
        ),
    decreases count,
{
    let bytes = encode_utf8(text);
    vstd::utf8::encode_utf8_valid_utf8(text);
    if count == 0 {
        assert(text.take(0) =~= seq![]);
        assert(bytes.take(0) =~= encode_utf8(text.take(0)));
    } else {
        let rest = text.drop_first();
        let head = text.take(count);
        lemma_first_characters_end_at_a_boundary(rest, count - 1);
        vstd::utf8::encode_utf8_first_scalar(text);
        assert(head.drop_first() =~= rest.take(count - 1));
        assert(head[0] == text[0]);
        let width = vstd::utf8::encode_scalar(text[0] as u32);
        assert(vstd::utf8::pop_first_scalar(bytes) =~= encode_utf8(rest));
        assert(encode_utf8(head) == width + encode_utf8(rest.take(count - 1)));
        assert(bytes.take(encode_utf8(head).len() as int) =~= width + encode_utf8(rest).take(
            encode_utf8(rest.take(count - 1)).len() as int,
        ));
    }
}

/// What ends between two characters of a text are its first characters.
proof fn lemma_boundary_ends_first_characters(text: Seq<char>, end: int) -> (count: int)
    requires
        0 <= end <= encode_utf8(text).len(),
        is_char_boundary(encode_utf8(text), end),
    ensures
        0 <= count <= text.len(),
        encode_utf8(text.take(count)).len() == end,
    decreases text.len(),
{
    let bytes = encode_utf8(text);
    vstd::utf8::encode_utf8_valid_utf8(text);
    if end == 0 {
        assert(text.take(0) =~= seq![]);
        0
    } else {
        let rest = text.drop_first();
        assert(text.len() > 0);
        vstd::utf8::encode_utf8_first_scalar(text);
        let width = vstd::utf8::encode_scalar(text[0] as u32);
        assert(vstd::utf8::pop_first_scalar(bytes) =~= encode_utf8(rest));
        vstd::utf8::encode_utf8_valid_utf8(rest);
        assert(is_char_boundary(encode_utf8(rest), end - width.len()));
        let fewer = lemma_boundary_ends_first_characters(rest, end - width.len());
        let head = text.take(fewer + 1);
        assert(head.drop_first() =~= rest.take(fewer));
        assert(head[0] == text[0]);
        fewer + 1
    }
}

/// A text that is cut keeps its first characters, as many as fit the limit in bytes: those that
/// are kept fit, and no longer beginning of the text does.
pub proof fn law_cut_keeps_as_many_characters_as_fit(
    text: Seq<char>,
    limit: int,
    head: Seq<char>,
    count: int,
)
    requires
        is_head(text, limit, head),
        0 <= count <= text.len(),
    ensures
        encode_utf8(head).len() <= limit,
        head.len() <= text.len(),
        head == text.take(head.len() as int),
        encode_utf8(text.take(count)).len() <= limit ==> encode_utf8(text.take(count)).len()
            <= encode_utf8(head).len(),
{
    let bytes = encode_utf8(text);
    let end = choose|end: int|
        0 <= end <= limit && end <= bytes.len() && #[trigger] is_char_boundary(bytes, end)
            && encode_utf8(head) == bytes.take(end) && forall|longer: int|
            end < longer <= limit ==> !#[trigger] is_char_boundary(bytes, longer);
    lemma_first_characters_end_at_a_boundary(text, count);
    let kept = lemma_boundary_ends_first_characters(text, end);
    lemma_first_characters_end_at_a_boundary(text, kept);
    assert(encode_utf8(head) == encode_utf8(text.take(kept)));
    vstd::utf8::encode_utf8_decode_utf8(head);
    vstd::utf8::encode_utf8_decode_utf8(text.take(kept));
    assert(head == text.take(kept));
}

/// The content that a journal entry puts into the index.
pub open spec fn is_indexed_content(payload: Seq<char>, content: Option<Seq<char>>) -> bool {
    match contributed(payload) {
        None => content is None,
        Some(text) => content is Some && if encode_utf8(text).len() > HISTORY_SOURCE_LIMIT_BYTES {
            exists|head: Seq<char>| #[trigger]
                is_head(text, HISTORY_SOURCE_LIMIT_BYTES as int, head) && content->Some_0 == head
                    + "\n[history source truncated]"@
        } else {
            content->Some_0 == text
        },
    }
}

/// The content that a journal entry puts into the index: what it contributes, cut
/// to the limit, with a note where it was cut.
pub fn history_content(payload: &str) -> (content: Option<String>)
    ensures
        is_indexed_content(payload@, opt_text(content)),
{
    match indexable_text(payload) {
        None => None,
        Some(text) => {
            let (head, cut): (String, bool) = truncate_bytes(
                text.as_str(),
                HISTORY_SOURCE_LIMIT_BYTES,
            );
            if cut {
                assert(is_head(text@, HISTORY_SOURCE_LIMIT_BYTES as int, head@));
                Some(cat(head.as_str(), "\n[history source truncated]"))
            } else {
                Some(head)
            }
        },
    }
}

// ---------------------------------------------------------------------------
// Indexing the journal

/// One event of a journal, as far as the index reads it.
#[derive(Clone, Debug)]
pub struct JournalEntry {
    pub event_id: String,
    pub sequence: i64,
    pub kind: String,
    /// The payload in compact JSON.
    pub payload: String,
}

/// What the index is given for one event.
#[derive(Clone, Debug, PartialEq, Eq)]
pub struct IndexedEntry {
    pub source_id: String,
    pub sequence: u64,
    pub kind: String,
    pub content: String,
}

/// An event contributes to the index.
pub open spec fn is_indexable(entry: JournalEntry) -> bool {
    contributed(entry.payload@) is Some
}

/// The events that the index takes up: the ones behind a sequence that contribute
/// anything, in order.
pub open spec fn to_index(entries: Seq<JournalEntry>, after: u64) -> Seq<JournalEntry>
    decreases entries.len(),
{
    if entries.len() == 0 {
        seq![]
    } else if entries.last().sequence > after && is_indexable(entries.last()) {
        to_index(entries.drop_last(), after).push(entries.last())
    } else {
        to_index(entries.drop_last(), after)
    }
}

/// What the index is given says of an event what the event says.
pub open spec fn indexes(source: IndexedEntry, entry: JournalEntry) -> bool {
    &&& source.source_id == entry.event_id
    &&& source.sequence == or_zero(entry.sequence)
    &&& source.kind == entry.kind
    &&& is_indexed_content(entry.payload@, Some(source.content@))
}

/// Indexes the events of a journal that lie behind a sequence.
pub fn index_history(entries: &Vec<JournalEntry>, after: u64) -> (sources: Vec<IndexedEntry>)
    ensures
        sources@.len() == to_index(entries@, after).len(),
        forall|i: int|
            0 <= i < sources@.len() ==> indexes(
                #[trigger] sources@[i],
                to_index(entries@, after)[i],
            ),
{
    let mut sources: Vec<IndexedEntry> = Vec::new();
    let mut i: usize = 0;
    while i < entries.len()
        invariant
            i <= entries.len(),
            sources@.len() == to_index(entries@.take(i as int), after).len(),
            forall|j: int|
                0 <= j < sources@.len() ==> indexes(
                    #[trigger] sources@[j],
                    to_index(entries@.take(i as int), after)[j],
                ),
        decreases entries.len() - i,
    {
        assert(entries@.take(i + 1).drop_last() =~= entries@.take(i as int));
        assert(entries@.take(i + 1).last() == entries@[i as int]);
        let entry: &JournalEntry = &entries[i];
        if entry.sequence > 0 && entry.sequence as u64 > after {
            match history_content(entry.payload.as_str()) {
                None => {},
                Some(content) => {
                    sources.push(
                        IndexedEntry {
                            source_id: entry.event_id.clone(),
                            sequence: to_u64_or_zero(entry.sequence),
                            kind: entry.kind.clone(),
                            content,
                        },
                    );
                },
            }
        }
        i += 1;
    }
    assert(entries@.take(i as int) =~= entries@);
    sources
}

/// A text that fits is indexed as it is, and a longer one by the first of its characters that
/// fit sixty-four kilobytes, with a note that it was cut. What contributes nothing is not
/// indexed.
pub proof fn law_long_text_is_indexed_by_its_beginning(payload: Seq<char>, content: Seq<char>)
    ensures
        contributed(payload) is None ==> is_indexed_content(payload, None) && !is_indexed_content(
            payload,
            Some(content),
        ),
        contributed(payload) is Some ==> !is_indexed_content(payload, None),
        contributed(payload) is Some && encode_utf8(contributed(payload)->Some_0).len() <= 65536
            ==> (is_indexed_content(payload, Some(content)) <==> content
            == contributed(payload)->Some_0),
        contributed(payload) is Some && encode_utf8(contributed(payload)->Some_0).len() > 65536
            && is_indexed_content(payload, Some(content)) ==> {
            let text = contributed(payload)->Some_0;
            exists|count: int|
                0 <= count <= text.len() && #[trigger] text.take(count)
                    + "\n[history source truncated]"@ == content && encode_utf8(
                    text.take(count),
                ).len() <= 65536
        },
{
    if contributed(payload) is Some && encode_utf8(contributed(payload)->Some_0).len() > 65536
        && is_indexed_content(payload, Some(content)) {
        let text = contributed(payload)->Some_0;
        let head = choose|head: Seq<char>| #[trigger]
            is_head(text, HISTORY_SOURCE_LIMIT_BYTES as int, head) && content == head
                + "\n[history source truncated]"@;
        law_cut_keeps_as_many_characters_as_fit(text, 65536, head, 0);
        assert(text.take(head.len() as int) + "\n[history source truncated]"@ == content);
    }
}

/// An indexed source has the identity, the place and the kind of its entry.
pub proof fn law_indexed_source_is_that_of_its_entry(source: IndexedEntry, entry: JournalEntry)
    requires
        indexes(source, entry),
        0 <= entry.sequence,
    ensures
        source.source_id == entry.event_id,
        source.sequence == entry.sequence,
        source.kind == entry.kind,
        contributed(entry.payload@) is Some,
{
}

/// The entries that are indexed are those that come after the watermark and contribute a text,
/// and no others, each once and in their order.
pub proof fn law_entries_after_the_watermark_are_indexed(
    entries: Seq<JournalEntry>,
    after: u64,
    entry: JournalEntry,
)
    ensures
        to_index(entries, after).contains(entry) <==> entries.contains(entry) && entry.sequence
            > after && contributed(entry.payload@) is Some,
        to_index(entries, after).len() <= entries.len(),
    decreases entries.len(),
{
    if entries.len() > 0 {
        let head = entries.drop_last();
        let last = entries.last();
        law_entries_after_the_watermark_are_indexed(head, after, entry);
        crate::seqs::lemma_push_contains(to_index(head, after), last, entry);
        crate::seqs::lemma_push_contains(head, last, entry);
        assert(entries =~= head.push(last));
    }
}

/// The last sequence that is indexed, or zero.
pub open spec fn watermark_of(stored: Option<i64>) -> u64 {
    match stored {
        None => 0,
        Some(value) => or_zero(value),
    }
}

/// The last sequence that is indexed, or zero.
pub fn history_watermark(stored: Option<i64>) -> (sequence: u64)
    ensures
        sequence == watermark_of(stored),
{
    match stored {
        None => 0,
        Some(value) => to_u64_or_zero(value),
    }
}

/// The events of a journal come in order, from the first sequence on.
pub open spec fn in_order(entries: Seq<JournalEntry>) -> bool {
    &&& forall|i: int| 0 <= i < entries.len() ==> 0 < #[trigger] entries[i].sequence
    &&& forall|i: int, j: int|
        0 <= i < j < entries.len() ==> #[trigger] entries[i].sequence < #[trigger] entries[j].sequence
}

/// The sequence of the last event that was taken up, or zero.
pub open spec fn last_sequence(taken: Seq<JournalEntry>) -> u64 {
    if taken.len() == 0 {
        0
    } else {
        taken.last().sequence as u64
    }
}

/// What is taken up are events of the journal, the last of them no earlier than
/// any that contributes.
proof fn lemma_taken_up(entries: Seq<JournalEntry>, after: u64)
    requires
        in_order(entries),
    ensures
        forall|i: int|
            0 <= i < entries.len() && is_indexable(#[trigger] entries[i]) && entries[i].sequence
                > after ==> entries[i].sequence <= last_sequence(to_index(entries, after)),
        to_index(entries, after).len() > 0 ==> exists|i: int|
            0 <= i < entries.len() && #[trigger] entries[i] == to_index(entries, after).last(),
    decreases entries.len(),
{
    if entries.len() > 0 {
        let front = entries.drop_last();
        assert(in_order(front)) by {
            assert forall|i: int| 0 <= i < front.len() implies 0 < #[trigger] front[i].sequence by {
                assert(front[i] == entries[i]);
            }
            assert forall|i: int, j: int| 0 <= i < j < front.len() implies #[trigger] front[i].sequence
                < #[trigger] front[j].sequence by {
                assert(front[i] == entries[i] && front[j] == entries[j]);
            }
        }
        lemma_taken_up(front, after);
        let last = entries.last();
        if last.sequence > after && is_indexable(last) {
            assert(to_index(entries, after).last() == last);
            assert(entries[entries.len() - 1] == last);
        } else if to_index(front, after).len() > 0 {
            let i = choose|i: int|
                0 <= i < front.len() && #[trigger] front[i] == to_index(front, after).last();
            assert(entries[i] == front[i]);
        }
        assert forall|i: int|
            0 <= i < entries.len() && is_indexable(#[trigger] entries[i]) && entries[i].sequence
                > after implies entries[i].sequence <= last_sequence(to_index(entries, after)) by {
            if i < front.len() {
                assert(front[i] == entries[i]);
                assert(entries[i].sequence < entries[entries.len() - 1].sequence);
            }
        }
    }
}

proof fn lemma_nothing_left(entries: Seq<JournalEntry>, after: u64)
    requires
        forall|i: int|
            0 <= i < entries.len() && is_indexable(#[trigger] entries[i])
                ==> entries[i].sequence <= after,
    ensures
        to_index(entries, after).len() == 0,
    decreases entries.len(),
{
    if entries.len() > 0 {
        let front = entries.drop_last();
        assert forall|i: int| 0 <= i < front.len() && is_indexable(#[trigger] front[i]) implies front[i].sequence
            <= after by {
            assert(front[i] == entries[i]);
        }
        assert(entries[entries.len() - 1] == entries.last());
        lemma_nothing_left(front, after);
    }
}

/// Indexing step by step gives what rebuilding gives: taking up a journal's first
/// events, and later everything behind the last of them that was taken up, takes
/// up the same events in the same order as taking up the whole journal at once.
pub proof fn law_rebuild_equals_incremental(entries: Seq<JournalEntry>, cut: int)
    requires
        in_order(entries),
        0 <= cut <= entries.len(),
    ensures
        to_index(entries, 0) == to_index(entries.take(cut), 0) + to_index(
            entries,
            last_sequence(to_index(entries.take(cut), 0)),
        ),
    decreases entries.len() - cut,
{
    let start = entries.take(cut);
    let mark = last_sequence(to_index(start, 0));
    assert(in_order(start)) by {
        assert forall|i: int| 0 <= i < start.len() implies 0 < #[trigger] start[i].sequence by {
            assert(start[i] == entries[i]);
        }
        assert forall|i: int, j: int| 0 <= i < j < start.len() implies #[trigger] start[i].sequence
            < #[trigger] start[j].sequence by {
            assert(start[i] == entries[i] && start[j] == entries[j]);
        }
    }
    lemma_taken_up(start, 0);
    lemma_incremental_tail(entries, cut, mark, entries.len() as int);
    assert(entries.take(entries.len() as int) =~= entries);
}

proof fn lemma_incremental_tail(entries: Seq<JournalEntry>, cut: int, mark: u64, end: int)
    requires
        in_order(entries),
        0 <= cut <= end <= entries.len(),
        mark == last_sequence(to_index(entries.take(cut), 0)),
        in_order(entries.take(cut)),
    ensures
        to_index(entries.take(end), 0) == to_index(entries.take(cut), 0) + to_index(
            entries.take(end),
            mark,
        ),
    decreases end - cut,
{
    let start = entries.take(cut);
    lemma_taken_up(start, 0);
    if end == cut {
        assert forall|i: int| 0 <= i < start.len() && is_indexable(#[trigger] start[i]) implies start[i].sequence
            <= mark by {
            assert(0 < start[i].sequence);
        }
        lemma_nothing_left(start, mark);
        assert(to_index(start, 0) =~= to_index(start, 0) + to_index(start, mark));
    } else {
        lemma_incremental_tail(entries, cut, mark, end - 1);
        let head = entries.take(end);
        assert(head.drop_last() =~= entries.take(end - 1));
        let last = head.last();
        assert(last == entries[end - 1]);
        if to_index(start, 0).len() > 0 {
            let i = choose|i: int|
                0 <= i < start.len() && #[trigger] start[i] == to_index(start, 0).last();
            assert(entries[i] == start[i]);
            assert(entries[i].sequence < entries[end - 1].sequence);
        }
        assert(0 < entries[end - 1].sequence);
        assert(last.sequence > mark);
        if is_indexable(last) {
            assert(to_index(head, 0) =~= to_index(start, 0) + to_index(head, mark));
        }
    }
}

/// The project of a session: that of its task's projection. A session that is not
/// there has none, and one without a projection is an error.
pub fn session_project(task_id: &Option<String>, project_id: Option<String>) -> (result: Result<
    Option<String>,
    StoreError,
>)
    ensures
        answers(
            result,
            if task_id is Some && project_id is None {
                fault(ErrorCode::InvalidPayload, "session has no admitted task projection"@)
            } else {
                None
            },
        ),
        result is Ok ==> result->Ok_0 == if task_id is Some {
            project_id
        } else {
            None
        },
{
    if task_id.is_none() {
        return Ok(None);
    }
    match project_id {
        Some(project) => Ok(Some(project)),
        None => Err(
            StoreError::new(
                ErrorCode::InvalidPayload,
                "session has no admitted task projection",
            ),
        ),
    }
}

/// Whom an indexed source belongs to: the task and the project of its session.
pub fn source_owner(task_id: Option<String>, project_id: Option<String>) -> (result: Result<
    (String, String),
    StoreError,
>)
    ensures
        answers(
            result,
            if task_id is None {
                fault(ErrorCode::InvalidPayload, "session does not exist"@)
            } else if project_id is None {
                fault(ErrorCode::InvalidPayload, "session has no project"@)
            } else {
                None
            },
        ),
        result is Ok ==> result->Ok_0 == (task_id->Some_0, project_id->Some_0),
{
    match task_id {
        None => Err(StoreError::new(ErrorCode::InvalidPayload, "session does not exist")),
        Some(task) => match project_id {
            None => Err(StoreError::new(ErrorCode::InvalidPayload, "session has no project")),
            Some(project) => Ok((task, project)),
        },
    }
}

// ---------------------------------------------------------------------------
// Searching

/// Why a query cannot be searched for: it has no terms.
pub fn search_terms(query: &str) -> (result: Result<Vec<String>, StoreError>)
    ensures
        exists|list: Seq<Seq<char>>| #[trigger]
            all_terms(query@, list) && answers(
                result,
                if list.len() == 0 {
                    fault(
                        ErrorCode::InvalidPayload,
                        "history search needs at least one searchable term"@,
                    )
                } else {
                    None
                },
            ) && (result is Ok ==> texts(result->Ok_0@) == kept_terms(list)),
{
    let terms: Vec<String> = history_terms(query);
    let ghost list = choose|list: Seq<Seq<char>>| #[trigger]
        all_terms(query@, list) && texts(terms@) == kept_terms(list);
    assert(all_terms(query@, list));
    assert(terms@.len() == texts(terms@).len());
    if terms.len() == 0 {
        return Err(
            StoreError::new(
                ErrorCode::InvalidPayload,
                "history search needs at least one searchable term",
            ),
        );
    }
    Ok(terms)
}

/// A number kept between two bounds.
pub open spec fn clamped(value: usize, low: usize, high: usize) -> usize {
    if value < low {
        low
    } else if value > high {
        high
    } else {
        value
    }
}

/// How many results a search returns at most.
pub fn search_limit(limit: usize) -> (count: i64)
    ensures
        count == clamped(limit, 1, 100),
{
    if limit < 1 {
        1
    } else if limit > 100 {
        100
    } else {
        limit as i64
    }
}

/// How many sources a listing returns at most.
pub fn listing_limit(limit: usize) -> (count: i64)
    ensures
        count == clamped(limit, 1, 1000),
{
    if limit < 1 {
        1
    } else if limit > 1000 {
        1000
    } else {
        limit as i64
    }
}

/// A limit is the one that was asked for where it lies between the bounds, and the nearer bound
/// where it does not.
pub proof fn law_limits_are_kept_within_their_bounds(value: usize, low: usize, high: usize)
    requires
        low <= high,
    ensures
        low <= clamped(value, low, high) <= high,
        low <= value <= high ==> clamped(value, low, high) == value,
        value < low ==> clamped(value, low, high) == low,
        value > high ==> clamped(value, low, high) == high,
{
}

/// A text a number of times.
pub open spec fn repeated(text: Seq<char>, times: nat) -> Seq<char>
    decreases times,
{
    if times == 0 {
        seq![]
    } else {
        repeated(text, (times - 1) as nat) + text
    }
}

/// The places for some values, with commas between them.
pub open spec fn places(count: nat) -> Seq<char>
    decreases count,
{
    if count == 0 {
        seq![]
    } else if count == 1 {
        "?"@
    } else {
        places((count - 1) as nat) + ",?"@
    }
}

/// What a search selects, up to the grants of its scope.
pub open spec fn search_head() -> Seq<char> {
    "SELECT s.source_id, s.sequence, s.kind, s.content, s.content_hash, s.availability, COUNT(DISTINCT t.term) AS matched FROM history_sources s JOIN history_terms t ON t.source_id = s.source_id WHERE s.project_id = ? AND (s.task_id = ?"@
}

/// The statement of a search. Every value is bound, and only the number of places
/// for granted sources and for terms varies.
pub open spec fn search_text(grants: nat, terms: nat) -> Seq<char> {
    search_head() + repeated(" OR s.source_id = ?"@, grants) + ") AND t.term IN ("@ + places(terms)
        + ") GROUP BY s.source_id HAVING matched = ? ORDER BY s.sequence DESC LIMIT ?"@
}

/// The statement of a search with some granted sources and some terms.
pub fn search_statement(grants: usize, terms: usize) -> (statement: String)
    ensures
        statement@ == search_text(grants as nat, terms as nat),
        spells(statement@, search_query(grants as nat, terms as nat)),
{
    proof {
        lemma_search_text_spells_its_query(grants as nat, terms as nat);
    }
    let mut granted: String = String::new();
    let mut i: usize = 0;
    assert(granted@ =~= repeated(" OR s.source_id = ?"@, 0));
    while i < grants
        invariant
            i <= grants,
            granted@ == repeated(" OR s.source_id = ?"@, i as nat),
        decreases grants - i,
    {
        granted.append(" OR s.source_id = ?");
        i += 1;
    }
    let mut listed: String = String::new();
    let mut j: usize = 0;
    assert(listed@ =~= places(0));
    while j < terms
        invariant
            j <= terms,
            listed@ == places(j as nat),
        decreases terms - j,
    {
        if j == 0 {
            listed = "?".to_owned();
        } else {
            listed.append(",?");
        }
        j += 1;
    }
    let head: &str = "SELECT s.source_id, s.sequence, s.kind, s.content, s.content_hash, s.availability, COUNT(DISTINCT t.term) AS matched FROM history_sources s JOIN history_terms t ON t.source_id = s.source_id WHERE s.project_id = ? AND (s.task_id = ?";
    let scoped: String = cat3(head, granted.as_str(), ") AND t.term IN (");
    cat3(
        scoped.as_str(),
        listed.as_str(),
        ") GROUP BY s.source_id HAVING matched = ? ORDER BY s.sequence DESC LIMIT ?",
    )
}

/// A line break shown as a space.
pub open spec fn flat(c: char) -> char {
    if c == '\n' || c == '\r' {
        ' '
    } else {
        c
    }
}

/// A text on one line, cut to what a search result shows.
pub open spec fn preview(content: Seq<char>) -> Seq<char> {
    let line = content.map_values(|c: char| flat(c));
    if line.len() > PREVIEW_CHARS {
        line.take(PREVIEW_CHARS as int).push('\u{2026}')
    } else {
        line
    }
}

/// A text on one line, cut to what a search result shows.
pub fn preview_of(content: &str) -> (text: String)
    ensures
        text@ == preview(content@),
{
    let chars: Vec<char> = chars_of(content);
    let ghost line = content@.map_values(|c: char| flat(c));
    let count: usize = if chars.len() > PREVIEW_CHARS {
        PREVIEW_CHARS
    } else {
        chars.len()
    };
    let mut text: String = String::new();
    let mut i: usize = 0;
    assert(text@ =~= line.take(0));
    while i < count
        invariant
            i <= count <= chars.len(),
            chars@ == content@,
            line == content@.map_values(|c: char| flat(c)),
            text@ == line.take(i as int),
        decreases count - i,
    {
        let c: char = chars[i];
        if c == '\n' || c == '\r' {
            text.push(' ');
        } else {
            text.push(c);
        }
        assert(text@ =~= line.take(i + 1));
        i += 1;
    }
    if chars.len() > PREVIEW_CHARS {
        text.push('\u{2026}');
    } else {
        assert(line.take(i as int) =~= line);
    }
    text
}

/// A preview is the content on one line, character by character, with a space for each line
/// break. One that would be longer than a hundred and sixty characters is cut there and ends
/// with an ellipsis.
pub proof fn law_preview_shows_the_beginning(content: Seq<char>, k: int)
    ensures
        content.len() <= 160 ==> preview(content).len() == content.len(),
        content.len() > 160 ==> preview(content).len() == 161 && preview(content)[160] == '\u{2026}',
        0 <= k < 160 && k < content.len() ==> {
            &&& content[k] == '\n' || content[k] == '\r' ==> preview(content)[k] == ' '
            &&& content[k] != '\n' && content[k] != '\r' ==> preview(content)[k] == content[k]
        },
{
}

/// A source as a search reads it.
#[derive(Debug)]
pub struct HitRow {
    pub source_id: String,
    pub sequence: i64,
    pub kind: String,
    pub content: String,
    pub content_hash: Parsed,
    pub availability: String,
    pub matched: i64,
}

/// Why a search result cannot be read.
pub open spec fn hit_row_fault(row: HitRow) -> Option<Fault> {
    first(
        parsed_fault(row.content_hash),
        if forall|state: SourceAvailability| #[trigger] state.text() != row.availability@ {
            fault(
                ErrorCode::StorageWriteFailed,
                "history source has an unknown availability"@,
            )
        } else {
            None
        },
    )
}

/// Reads a search result.
pub fn hit_from_row(row: HitRow) -> (result: Result<HistoryHit, StoreError>)
    ensures
        answers(result, hit_row_fault(row)),
        result is Ok ==> {
            let hit = result->Ok_0;
            &&& hit == (HistoryHit {
                source_id: row.source_id,
                sequence: or_zero(row.sequence),
                kind: row.kind,
                content_hash: row.content_hash->Ok_0,
                availability: hit.availability,
                preview: hit.preview,
                matched_terms: or_zero(row.matched),
            })
            &&& hit.availability.text() == row.availability@
            &&& hit.preview@ == preview(row.content@)
        },
{
    let content_hash: String = parsed_value(row.content_hash)?;
    match SourceAvailability::parse(row.availability.as_str()) {
        None => Err(
            StoreError::new(
                ErrorCode::StorageWriteFailed,
                "history source has an unknown availability",
            ),
        ),
        Some(availability) => {
            assert(availability.text() == row.availability@);
            Ok(
                HistoryHit {
                    source_id: row.source_id,
                    sequence: to_u64_or_zero(row.sequence),
                    kind: row.kind,
                    content_hash,
                    availability,
                    preview: preview_of(row.content.as_str()),
                    matched_terms: to_u64_or_zero(row.matched),
                },
            )
        },
    }
}

/// A search result is read if and only if its digest can be read and its availability is one of
/// those that a source can have.
pub proof fn law_hit_is_read(row: HitRow, state: SourceAvailability)
    requires
        row.availability@ == state.text(),
    ensures
        hit_row_fault(row) is None <==> row.content_hash is Ok,
{
    assert(state.text() == row.availability@);
}

// ---------------------------------------------------------------------------
// Reading

/// A source as an exact read finds it.
#[derive(Debug)]
pub struct SourceRow {
    pub project_id: String,
    pub task_id: String,
    pub sequence: i64,
    pub kind: String,
    pub content: String,
    pub content_hash: Parsed,
    pub availability: String,
}

/// Why a source cannot be read from an offset on.
pub open spec fn read_fault(
    scope: HistoryScope,
    source_id: Seq<char>,
    offset: u64,
    row: Option<SourceRow>,
) -> Option<Fault> {
    match row {
        None => fault(ErrorCode::InvalidPayload, "no indexed source has that id"@),
        Some(source) => if !scope.admits(source.project_id@, source.task_id@, source_id) {
            fault(
                ErrorCode::ScopeAuthorityDenied,
                "history source belongs to another task scope"@,
            )
        } else if forall|state: SourceAvailability| #[trigger]
            state.text() != source.availability@ {
            fault(
                ErrorCode::StorageWriteFailed,
                "history source has an unknown availability"@,
            )
        } else if source.availability@ != SourceAvailability::Available.text() {
            fault(
                ErrorCode::SourceUnavailable,
                "the source behind this reference is no longer available"@,
            )
        } else if offset > encode_utf8(source.content@).len() {
            fault(
                ErrorCode::InvalidPayload,
                "requested offset "@ + decimal(offset as nat) + " is past the "@ + decimal(
                    encode_utf8(source.content@).len(),
                ) + " stored bytes"@,
            )
        } else {
            parsed_fault(source.content_hash)
        },
    }
}

/// How many bytes a page holds at most: as many as were asked for, up to the
/// largest page.
pub open spec fn page_room(length: int) -> int {
    if length < HISTORY_READ_MAX_BYTES {
        length
    } else {
        HISTORY_READ_MAX_BYTES as int
    }
}

/// The bytes of a page: from the offset on, as many as it may hold or are left.
pub open spec fn page_bytes(content: Seq<char>, offset: int, length: int) -> Seq<u8> {
    let bytes = encode_utf8(content);
    if offset + page_room(length) <= bytes.len() {
        bytes.subrange(offset, offset + page_room(length))
    } else {
        bytes.subrange(offset, bytes.len() as int)
    }
}

/// Reads one page of a source, exactly as it is stored.
pub fn history_read(
    scope: &HistoryScope,
    source_id: &str,
    offset: u64,
    length: usize,
    row: Option<SourceRow>,
) -> (result: Result<HistoryPage, StoreError>)
    ensures
        answers(result, read_fault(*scope, source_id@, offset, row)),
        result is Ok ==> {
            let page = result->Ok_0;
            let source = row->Some_0;
            &&& page.source_id@ == source_id@
            &&& page.sequence == or_zero(source.sequence)
            &&& page.kind == source.kind
            &&& page.content_hash == source.content_hash->Ok_0
            &&& page.offset == offset
            &&& page.bytes@ == page_bytes(source.content@, offset as int, length as int)
            &&& page.total_bytes == encode_utf8(source.content@).len()
        },
{
    let source: SourceRow = match row {
        Some(source) => source,
        None => {
            return Err(
                StoreError::new(ErrorCode::InvalidPayload, "no indexed source has that id"),
            );
        },
    };
    if !scope.covers(source.project_id.as_str(), source.task_id.as_str(), source_id) {
        return Err(
            StoreError::new(
                ErrorCode::ScopeAuthorityDenied,
                "history source belongs to another task scope",
            ),
        );
    }
    let availability: SourceAvailability = match SourceAvailability::parse(
        source.availability.as_str(),
    ) {
        Some(availability) => availability,
        None => {
            return Err(
                StoreError::new(
                    ErrorCode::StorageWriteFailed,
                    "history source has an unknown availability",
                ),
            );
        },
    };
    assert(availability.text() == source.availability@);
    proof {
        crate::states::law_source_availability_texts_differ(
            availability,
            SourceAvailability::Available,
        );
    }
    if availability != SourceAvailability::Available {
        return Err(
            StoreError::new(
                ErrorCode::SourceUnavailable,
                "the source behind this reference is no longer available",
            ),
        );
    }
    let bytes: &[u8] = source.content.as_str().as_bytes();
    let total: usize = bytes.len();
    if offset > total as u64 {
        let wanted: String = decimal_text(offset);
        let stored: String = decimal_text(total as u64);
        let place: String = cat3("requested offset ", wanted.as_str(), " is past the ");
        let message: String = cat3(place.as_str(), stored.as_str(), " stored bytes");
        return Err(StoreError::new(ErrorCode::InvalidPayload, message.as_str()));
    }
    let start: usize = offset as usize;
    let room: usize = total - start;
    let wanted: usize = if length < HISTORY_READ_MAX_BYTES {
        length
    } else {
        HISTORY_READ_MAX_BYTES
    };
    let end: usize = if wanted < room {
        start + wanted
    } else {
        total
    };
    let mut page: Vec<u8> = Vec::new();
    let mut i: usize = start;
    while i < end
        invariant
            start <= i <= end <= total,
            total == bytes@.len(),
            bytes@ == encode_utf8(source.content@),
            page@ == bytes@.subrange(start as int, i as int),
        decreases end - i,
    {
        page.push(bytes[i]);
        assert(page@ =~= bytes@.subrange(start as int, i + 1));
        i += 1;
    }
    let content_hash: String = parsed_value(source.content_hash)?;
    Ok(
        HistoryPage {
            source_id: source_id.to_owned(),
            sequence: to_u64_or_zero(source.sequence),
            kind: source.kind,
            content_hash,
            offset,
            bytes: page,
            total_bytes: total as u64,
        },
    )
}

/// A source is read from an offset if and only if it is in the project and either in the task or
/// granted, is available, and the offset lies within its bytes or at their end. A source
/// outside the scope is denied. A page holds what was asked for, up to the largest page.
pub proof fn law_source_in_scope_is_read(
    scope: HistoryScope,
    source_id: Seq<char>,
    offset: u64,
    source: SourceRow,
    length: int,
)
    ensures
        read_fault(scope, source_id, offset, Some(source)) is None <==> {
            &&& source.project_id@ == scope.project_id@
            &&& source.task_id@ == scope.task_id@ || texts(scope.granted_source_ids@).contains(
                source_id,
            )
            &&& source.availability@ == "available"@
            &&& offset <= encode_utf8(source.content@).len()
            &&& source.content_hash is Ok
        },
        source.project_id@ != scope.project_id@ || (source.task_id@ != scope.task_id@ && !texts(
            scope.granted_source_ids@,
        ).contains(source_id)) ==> read_fault(scope, source_id, offset, Some(source))->Some_0.code
            == ErrorCode::ScopeAuthorityDenied,
        read_fault(scope, source_id, offset, None) is Some,
        length <= 65536 ==> page_room(length) == length,
        length > 65536 ==> page_room(length) == 65536,
{
    assert(SourceAvailability::Available.text() == "available"@);
    if source.availability@ == "available"@ {
        assert(SourceAvailability::Available.text() == source.availability@);
    }
}

/// Pages put together are the source: what was read up to an offset and the page
/// at that offset are the source up to where the page ends, no page is larger than
/// the largest one, and a page that is not full reaches the end.
pub proof fn law_pages_make_up_the_source(content: Seq<char>, offset: int, length: int)
    requires
        0 <= offset <= encode_utf8(content).len(),
        0 <= length,
    ensures
        ({
            let bytes = encode_utf8(content);
            let page = page_bytes(content, offset, length);
            &&& bytes.take(offset) + page == bytes.take(offset + page.len())
            &&& page.len() <= HISTORY_READ_MAX_BYTES
            &&& page.len() < page_room(length) ==> offset + page.len() == bytes.len()
        }),
{
    let bytes = encode_utf8(content);
    let page = page_bytes(content, offset, length);
    assert(bytes.take(offset) + page =~= bytes.take(offset + page.len()));
}

/// The sources that a fork was granted. `policy` is what its fork says, where it
/// is one.
pub fn history_grants(policy: &Option<String>) -> (result: Result<Vec<String>, StoreError>)
    ensures
        answers(
            result,
            if policy is Some && !is_json(policy->Some_0@) {
                fault(ErrorCode::StorageWriteFailed, "fork policy is not readable JSON"@)
            } else {
                None
            },
        ),
        result is Ok ==> texts(result->Ok_0@) == match policy {
            None => seq![],
            Some(text) => strings_under(text@, "allowed_source_ids"@),
        },
{
    match policy {
        None => {
            let none: Vec<String> = Vec::new();
            assert(texts(none@) =~= seq![]);
            Ok(none)
        },
        Some(text) => {
            if !json_is_valid(text.as_str()) {
                return Err(
                    StoreError::new(
                        ErrorCode::StorageWriteFailed,
                        "fork policy is not readable JSON",
                    ),
                );
            }
            Ok(strings_at(text.as_str(), "allowed_source_ids"))
        },
    }
}

// ---------------------------------------------------------------------------
// Notes

/// One stored note.
#[derive(Clone, Debug, PartialEq, Eq)]
pub struct NoteRecord {
    pub note_id: String,
    pub task_id: String,
    pub session_id: String,
    pub key: String,
    pub revision: u64,
    pub content: String,
    /// The sources that the note was written from, as JSON text.
    pub sources: String,
    pub authority: String,
}

/// The characters that are cut from the ends of a key.
pub open spec fn whites() -> spec_fn(char) -> bool {
    |c: char| is_white(c)
}

/// A text without the white space at its ends.
pub fn trim_text(text: &str) -> (result: String)
    ensures
        result@ == trimmed(text@, whites()),
{
    let chars: Vec<char> = chars_of(text);
    let ghost whole = chars@;
    let mut low: usize = 0;
    assert(whole.subrange(0, whole.len() as int) =~= whole);
    while low < chars.len() && char_is_white(chars[low])
        invariant
            low <= chars.len(),
            whole == chars@,
            trim_start(whole, whites()) == trim_start(
                whole.subrange(low as int, whole.len() as int),
                whites(),
            ),
        decreases chars.len() - low,
    {
        assert(whole.subrange(low as int, whole.len() as int).drop_first() =~= whole.subrange(
            low + 1,
            whole.len() as int,
        ));
        low += 1;
    }
    let ghost rest = whole.subrange(low as int, whole.len() as int);
    assert(trim_start(whole, whites()) == rest);
    let mut high: usize = chars.len();
    while high > low && char_is_white(chars[high - 1])
        invariant
            low <= high <= chars.len(),
            whole == chars@,
            rest == whole.subrange(low as int, whole.len() as int),
            trim_end(rest, whites()) == trim_end(
                whole.subrange(low as int, high as int),
                whites(),
            ),
        decreases high - low,
    {
        assert(whole.subrange(low as int, high as int).drop_last() =~= whole.subrange(
            low as int,
            high - 1,
        ));
        high -= 1;
    }
    let mut part: Vec<char> = Vec::new();
    let mut i: usize = low;
    while i < high
        invariant
            low <= i <= high <= chars.len(),
            whole == chars@,
            part@ == whole.subrange(low as int, i as int),
        decreases high - i,
    {
        part.push(chars[i]);
        assert(part@ =~= whole.subrange(low as int, i + 1));
        i += 1;
    }
    text_of(&part)
}

/// The first refusal among some verdicts.
pub open spec fn verdicts_fault(verdicts: Seq<Verdict>) -> Option<Fault>
    decreases verdicts.len(),
{
    if verdicts.len() == 0 {
        None
    } else {
        first(
            verdicts_fault(verdicts.drop_last()),
            match verdicts.last() {
                Ok(_) => None,
                Err(refusal) => refusal.as_fault(),
            },
        )
    }
}

proof fn lemma_first_refusal_stands(verdicts: Seq<Verdict>, count: int)
    requires
        0 <= count <= verdicts.len(),
        verdicts_fault(verdicts.take(count)) is Some,
    ensures
        verdicts_fault(verdicts) == verdicts_fault(verdicts.take(count)),
    decreases verdicts.len() - count,
{
    if count == verdicts.len() {
        assert(verdicts.take(count) =~= verdicts);
    } else {
        assert(verdicts.take(count + 1).drop_last() =~= verdicts.take(count));
        lemma_first_refusal_stands(verdicts, count + 1);
    }
}

fn check_verdicts(verdicts: &Vec<Verdict>) -> (result: Result<(), StoreError>)
    ensures
        answers(result, verdicts_fault(verdicts@)),
{
    let mut i: usize = 0;
    while i < verdicts.len()
        invariant
            i <= verdicts.len(),
            verdicts_fault(verdicts@.take(i as int)) is None,
        decreases verdicts.len() - i,
    {
        assert(verdicts@.take(i + 1).drop_last() =~= verdicts@.take(i as int));
        assert(verdicts@.take(i + 1).last() == verdicts@[i as int]);
        match &verdicts[i] {
            Ok(_) => {},
            Err(refusal) => {
                proof {
                    lemma_first_refusal_stands(verdicts@, i + 1);
                }
                return Err(refusal.to_error());
            },
        }
        i += 1;
    }
    assert(verdicts@.take(i as int) =~= verdicts@);
    Ok(())
}

/// A note as its row is read before it is replaced.
#[derive(Clone, Debug)]
pub struct NoteRow {
    pub note_id: String,
    pub revision: i64,
}

/// Why a note is not written. `sources` are the verdicts on the sources that it
/// names.
pub open spec fn note_fault(
    key: Seq<char>,
    expected_revision: u64,
    content: Seq<char>,
    sources: Seq<Verdict>,
    fence: HostFence,
    held: Option<i64>,
    existing: Option<NoteRow>,
) -> Option<Fault> {
    let name = trimmed(key, whites());
    if name.len() == 0 || name.len() > NOTE_KEY_LIMIT_CHARS {
        fault(ErrorCode::InvalidPayload, "a note key must be 1..=120 characters"@)
    } else if encode_utf8(content).len() > NOTE_CONTENT_LIMIT_BYTES {
        fault(ErrorCode::OutputLimitExceeded, "a note body must be at most 16384 bytes"@)
    } else {
        first(
            verdicts_fault(sources),
            first(
                fence_fault(held, fence),
                match existing {
                    Some(note) => if or_zero(note.revision) != expected_revision {
                        fault(
                            ErrorCode::CompactionConflict,
                            "note "@ + name + " is at revision "@ + decimal(
                                or_zero(note.revision) as nat,
                            ) + ", not "@ + decimal(expected_revision as nat),
                        )
                    } else if expected_revision == i64::MAX {
                        fault(
                            ErrorCode::StorageWriteFailed,
                            "note revision does not fit in an integer column"@,
                        )
                    } else {
                        None
                    },
                    None => if expected_revision != 0 {
                        fault(
                            ErrorCode::CompactionConflict,
                            "note does not exist yet, so revision 0 was expected"@,
                        )
                    } else {
                        None
                    },
                },
            ),
        )
    }
}

/// A note as it is written: under its own identity, one revision on, and as a report.
pub open spec fn writes_note(
    note: NoteRecord,
    session_id: String,
    task_id: String,
    key: Seq<char>,
    expected_revision: u64,
    content: String,
    sources_json: String,
    unique: Seq<char>,
    existing: Option<NoteRow>,
) -> bool {
    &&& note.note_id@ == match existing {
        Some(row) => row.note_id@,
        None => "note_"@ + unique,
    }
    &&& note.task_id == task_id
    &&& note.session_id == session_id
    &&& note.key@ == trimmed(key, whites())
    &&& note.revision == expected_revision + 1
    &&& note.content == content
    &&& note.sources == sources_json
    &&& note.authority@ == "model_report"@
}

/// Writes a note where it is at the revision that its writer has read. A new note
/// gets an id of its own, made from `unique`.
pub fn upsert_note_cas(
    session_id: String,
    task_id: String,
    key: &str,
    expected_revision: u64,
    content: String,
    sources_json: String,
    sources: &Vec<Verdict>,
    unique: &str,
    fence: &HostFence,
    held: Option<i64>,
    existing: Option<NoteRow>,
) -> (result: Result<NoteRecord, StoreError>)
    ensures
        answers(
            result,
            note_fault(key@, expected_revision, content@, sources@, *fence, held, existing),
        ),
        result is Ok ==> writes_note(
            result->Ok_0,
            session_id,
            task_id,
            key@,
            expected_revision,
            content,
            sources_json,
            unique@,
            existing,
        ),
{
    let name: String = trim_text(key);
    let chars: Vec<char> = chars_of(name.as_str());
    if chars.len() == 0 || chars.len() > NOTE_KEY_LIMIT_CHARS {
        return Err(
            StoreError::new(ErrorCode::InvalidPayload, "a note key must be 1..=120 characters"),
        );
    }
    if content.as_str().as_bytes().len() > NOTE_CONTENT_LIMIT_BYTES {
        return Err(
            StoreError::new(
                ErrorCode::OutputLimitExceeded,
                "a note body must be at most 16384 bytes",
            ),
        );
    }
    check_verdicts(sources)?;
    check_fence(held, fence)?;
    let note_id: String = match existing {
        Some(row) => {
            let current: u64 = to_u64_or_zero(row.revision);
            if current != expected_revision {
                let found: String = decimal_text(current);
                let wanted: String = decimal_text(expected_revision);
                let at: String = cat4("note ", name.as_str(), " is at revision ", found.as_str());
                let message: String = cat3(at.as_str(), ", not ", wanted.as_str());
                return Err(StoreError::new(ErrorCode::CompactionConflict, message.as_str()));
            }
            if current == i64::MAX as u64 {
                return Err(
                    StoreError::new(
                        ErrorCode::StorageWriteFailed,
                        "note revision does not fit in an integer column",
                    ),
                );
            }
            row.note_id
        },
        None => {
            if expected_revision != 0 {
                return Err(
                    StoreError::new(
                        ErrorCode::CompactionConflict,
                        "note does not exist yet, so revision 0 was expected",
                    ),
                );
            }
            cat("note_", unique)
        },
    };
    Ok(
        NoteRecord {
            note_id,
            task_id,
            session_id,
            key: name,
            revision: expected_revision + 1,
            content,
            sources: sources_json,
            authority: "model_report".to_owned(),
        },
    )
}

/// The sources of a note are sound where each of them is.
proof fn lemma_note_sources_are_each_sound(
    verdicts: Seq<Verdict>,
)
    ensures
        verdicts_fault(verdicts) is None <==> forall|i: int|
            0 <= i < verdicts.len() ==> note_source_fault(#[trigger] verdicts[i]) is None,
    decreases verdicts.len(),
{
    if verdicts.len() > 0 {
        let head = verdicts.drop_last();
        lemma_note_sources_are_each_sound(head);
        assert forall|i: int| 0 <= i < head.len() implies head[i] == #[trigger] verdicts[i] by {}
        if verdicts_fault(verdicts) is None {
            assert forall|i: int| 0 <= i < verdicts.len() implies note_source_fault(#[trigger] verdicts[i]) is None by {
                if i < head.len() {
                    assert(note_source_fault(head[i]) is None);
                }
            }
        }
        if forall|i: int|
            0 <= i < verdicts.len() ==> note_source_fault(#[trigger] verdicts[i]) is None {
            assert forall|i: int| 0 <= i < head.len() implies note_source_fault(#[trigger] head[i]) is None by {
                assert(note_source_fault(verdicts[i]) is None);
            }
            assert(note_source_fault(verdicts[verdicts.len() - 1]) is None);
        }
    }
}

/// Why a source of a note is refused.
spec fn note_source_fault(verdict: Verdict) -> Option<Fault> {
    match verdict {
        Ok(_) => None,
        Err(refusal) => refusal.as_fault(),
    }
}

/// A note is written if and only if its key, without the white space around it, has between one
/// and a hundred and twenty characters, its content is no longer than sixteen kilobytes, its
/// sources are sound, and it is at the revision that was read: none for a new note. A note
/// that has moved on is in conflict.
pub proof fn law_note_is_written_at_its_revision(
    key: Seq<char>,
    expected_revision: u64,
    content: Seq<char>,
    sources: Seq<Verdict>,
    fence: HostFence,
    held: Option<i64>,
    existing: Option<NoteRow>,
)
    ensures
        note_fault(key, expected_revision, content, sources, fence, held, existing) is None <==> {
            &&& 1 <= trimmed(key, whites()).len() <= 120
            &&& encode_utf8(content).len() <= 16384
            &&& forall|i: int| 0 <= i < sources.len() ==> (#[trigger] sources[i]) is Ok
            &&& held is Some
            &&& held->Some_0 == fence.generation as int
            &&& existing is None ==> expected_revision == 0
            &&& existing is Some && 0 <= existing->Some_0.revision ==> existing->Some_0.revision
                == expected_revision as int
            &&& existing is Some && existing->Some_0.revision < 0 ==> expected_revision == 0
            &&& existing is Some ==> expected_revision < i64::MAX
        },
{
    lemma_note_sources_are_each_sound(sources);
    assert forall|i: int| 0 <= i < sources.len() implies (note_source_fault(
        #[trigger] sources[i],
    ) is None) == (sources[i] is Ok) by {}
}

/// A note keeps its identity from one revision to the next, a new one gets an identity of its
/// own, and each revision has the content that was given and the authority of a report.
pub proof fn law_note_keeps_its_identity(
    note: NoteRecord,
    session_id: String,
    task_id: String,
    key: Seq<char>,
    expected_revision: u64,
    content: String,
    sources_json: String,
    unique: Seq<char>,
    existing: Option<NoteRow>,
)
    requires
        writes_note(
            note,
            session_id,
            task_id,
            key,
            expected_revision,
            content,
            sources_json,
            unique,
            existing,
        ),
    ensures
        existing is Some ==> note.note_id@ == existing->Some_0.note_id@,
        existing is None ==> note.note_id@ == "note_"@ + unique,
        note.revision == expected_revision + 1,
        note.content == content,
        note.sources == sources_json,
        note.task_id == task_id,
        note.session_id == session_id,
        note.key@ == trimmed(key, whites()),
        note.authority@ == "model_report"@,
{
}

/// A note is not overwritten unread: after a write, a second write that expects
/// the revision of the first one's reader is refused, whatever it would write and
/// whichever host asks. Where nothing else is wrong with it, it is told of the conflict.
pub proof fn law_note_is_not_overwritten_unread(
    key: Seq<char>,
    expected_revision: u64,
    content: Seq<char>,
    sources: Seq<Verdict>,
    fence: HostFence,
    held: Option<i64>,
    existing: Option<NoteRow>,
    after: NoteRow,
    second_key: Seq<char>,
    second: Seq<char>,
    second_sources: Seq<Verdict>,
    later_fence: HostFence,
    later_held: Option<i64>,
)
    requires
        note_fault(key, expected_revision, content, sources, fence, held, existing) is None,
        after.revision == expected_revision + 1,
    ensures
        ({
            let refusal = note_fault(
                second_key,
                expected_revision,
                second,
                second_sources,
                later_fence,
                later_held,
                Some(after),
            );
            let name = trimmed(second_key, whites());
            &&& refusal is Some
            &&& 0 < name.len() <= NOTE_KEY_LIMIT_CHARS && encode_utf8(second).len()
                <= NOTE_CONTENT_LIMIT_BYTES && verdicts_fault(second_sources) is None
                && fence_fault(later_held, later_fence) is None ==> refusal->Some_0.code
                == ErrorCode::CompactionConflict
        }),
{
}

/// A note as its row is read.
#[derive(Debug)]
pub struct StoredNoteRow {
    pub note_id: String,
    pub task_id: Parsed,
    pub session_id: Parsed,
    pub key: String,
    pub revision: i64,
    pub content: String,
    pub sources_json: String,
    /// Whether the sources' text has the shape of a list of sources.
    pub sources_read: bool,
    pub authority: String,
}

/// Why a stored note cannot be read.
pub open spec fn note_row_fault(row: StoredNoteRow) -> Option<Fault> {
    if !row.sources_read {
        fault(ErrorCode::StorageWriteFailed, "note sources are not readable JSON"@)
    } else {
        first(parsed_fault(row.task_id), parsed_fault(row.session_id))
    }
}

/// Reads a note back.
pub fn note_from_row(row: StoredNoteRow) -> (result: Result<NoteRecord, StoreError>)
    ensures
        answers(result, note_row_fault(row)),
        result is Ok ==> result->Ok_0 == (NoteRecord {
            note_id: row.note_id,
            task_id: row.task_id->Ok_0,
            session_id: row.session_id->Ok_0,
            key: row.key,
            revision: or_zero(row.revision),
            content: row.content,
            sources: row.sources_json,
            authority: row.authority,
        }),
{
    if !row.sources_read {
        return Err(
            StoreError::new(ErrorCode::StorageWriteFailed, "note sources are not readable JSON"),
        );
    }
    let task_id: String = parsed_value(row.task_id)?;
    let session_id: String = parsed_value(row.session_id)?;
    Ok(
        NoteRecord {
            note_id: row.note_id,
            task_id,
            session_id,
            key: row.key,
            revision: to_u64_or_zero(row.revision),
            content: row.content,
            sources: row.sources_json,
            authority: row.authority,
        },
    )
}

/// A stored note is read if and only if its sources and its identities can be.
pub proof fn law_note_is_read(row: StoredNoteRow)
    ensures
        note_row_fault(row) is None <==> row.sources_read && row.task_id is Ok && row.session_id is Ok,
        watermark_of(None) == 0,
        0 <= row.revision ==> watermark_of(Some(row.revision)) == row.revision && or_zero(
            row.revision,
        ) == row.revision,
        row.revision < 0 ==> or_zero(row.revision) == 0,
{
}

} // verus!

use harness_store_sqlite::error::{ErrorCode, StoreError};
use harness_store_sqlite::history::{
    history_content, history_grants, history_read, history_watermark, hit_from_row, index_history,
    indexable_text, listing_limit, note_from_row, preview_of, search_limit, search_statement,
    search_terms, trim_text, truncate_bytes, upsert_note_cas, HistoryScope, HitRow, JournalEntry,
    NoteRow, SourceRow, StoredNoteRow, HISTORY_READ_MAX_BYTES, HISTORY_SOURCE_LIMIT_BYTES,
};
use harness_store_sqlite::journal::HostFence;
use harness_store_sqlite::terms::history_terms;

fn text(value: &str) -> String {
    value.to_owned()
}

fn fence() -> HostFence {
    HostFence { host_id: text("host"), generation: 1 }
}

fn fails<T>(result: Result<T, StoreError>, code: ErrorCode, message: &str) {
    match result {
        Ok(_) => panic!("expected {message}"),
        Err(error) => {
            assert_eq!(error.code(), code);
            assert_eq!(error.message(), message);
        }
    }
}

#[test]
fn identifiers_are_found_whole_and_by_their_parts() {
    assert_eq!(
        history_terms("See XYZ-731, please."),
        vec!["731", "please", "see", "xyz", "xyz-731"]
    );
    assert_eq!(history_terms("a.b_c"), vec!["a", "a.b_c", "b", "c"]);
    assert_eq!(history_terms("--x--"), vec!["x"]);
    assert!(history_terms(" ,;! ").is_empty());
    assert_eq!(history_terms("-- 7 --"), vec!["7"]);
    assert_eq!(history_terms("Đường ĐƯỜNG"), vec!["đường"]);
}

#[test]
fn the_terms_of_two_texts_are_the_terms_of_both() {
    let (a, b) = ("See XYZ-731, again-", "-again see a.b");
    let mut both = history_terms(a);
    both.extend(history_terms(b));
    both.sort();
    both.dedup();
    assert_eq!(history_terms(&format!("{a} {b}")), both);
    assert_eq!(history_terms(&format!("{b} {a} {b}")), both);
}

#[test]
fn terms_are_cut_and_counted() {
    let long = "a".repeat(100);
    assert_eq!(history_terms(&long), vec!["a".repeat(64)]);
    let many = (0..600).map(|i| format!("w{i:04}")).collect::<Vec<_>>().join(" ");
    let terms = history_terms(&many);
    assert_eq!(terms.len(), 512);
    assert_eq!(terms[0], "w0000");
    assert_eq!(terms[511], "w0511");
}

#[test]
fn final_sigma_is_lowered_as_a_whole_text() {
    assert_eq!(
        history_terms("ΟΔΟΣ-Α"),
        vec![text("α"), text("οδος-α"), text("οδοσ")]
    );
}

#[test]
fn entries_contribute_their_first_readable_text() {
    assert_eq!(
        indexable_text(r#"{"note":"n","text":"t","raw_text":"  "}"#),
        Some(text("t"))
    );
    assert_eq!(
        indexable_text(r#"{"model_view":{"text":"seen"},"text":5}"#),
        Some(text("seen"))
    );
    assert_eq!(indexable_text(r#"{"other":1}"#), Some(text(r#"{"other":1}"#)));
    assert_eq!(indexable_text("{}"), None);
    assert_eq!(
        indexable_text(r#"{"reason":"café"}"#),
        Some(text("café"))
    );
}

#[test]
fn texts_are_cut_between_characters() {
    assert_eq!(truncate_bytes("abc", 3), (text("abc"), false));
    assert_eq!(truncate_bytes("aéé", 4), (text("aé"), true));
    assert_eq!(truncate_bytes("éé", 1), (text(""), true));
    let long = format!(r#"{{"text":"{}"}}"#, "x".repeat(HISTORY_SOURCE_LIMIT_BYTES + 1));
    let content = history_content(&long).expect("contributes");
    assert!(content.ends_with("x\n[history source truncated]"));
    assert_eq!(
        content.len(),
        HISTORY_SOURCE_LIMIT_BYTES + "\n[history source truncated]".len()
    );
}

fn entry(sequence: i64, payload: &str) -> JournalEntry {
    JournalEntry {
        event_id: format!("e{sequence}"),
        sequence,
        kind: text("kind"),
        payload: text(payload),
    }
}

#[test]
fn a_rebuilt_index_is_the_incremental_one() {
    let entries = vec![
        entry(1, r#"{"text":"one"}"#),
        entry(2, "{}"),
        entry(3, r#"{"text":"three"}"#),
        entry(4, "{}"),
        entry(5, r#"{"text":"five"}"#),
    ];
    let whole = index_history(&entries, 0);
    assert_eq!(whole.len(), 3);
    assert_eq!(whole[1].content, "three");
    for cut in 0..=entries.len() {
        let mut steps = index_history(&entries[..cut].to_vec(), 0);
        let mark = history_watermark(steps.last().map(|source| source.sequence as i64));
        steps.extend(index_history(&entries, mark));
        assert_eq!(steps, whole);
    }
    assert_eq!(history_watermark(Some(-4)), 0);
}

#[test]
fn searches_need_terms() {
    fails(
        search_terms("?!"),
        ErrorCode::InvalidPayload,
        "history search needs at least one searchable term",
    );
    assert_eq!(search_terms("Ab").expect("one"), vec!["ab"]);
    assert_eq!(search_limit(0), 1);
    assert_eq!(search_limit(1000), 100);
    assert_eq!(listing_limit(5), 5);
    assert_eq!(listing_limit(5000), 1000);
    let statement = search_statement(2, 3);
    assert!(statement.contains("(s.task_id = ? OR s.source_id = ? OR s.source_id = ?)"));
    assert!(statement.contains("t.term IN (?,?,?) GROUP BY"));
    assert_eq!(statement.matches('?').count(), 9);
}

#[test]
fn previews_are_one_short_line() {
    assert_eq!(preview_of("a\r\nb"), "a  b");
    let long = "é".repeat(161);
    assert_eq!(preview_of(&long), format!("{}\u{2026}", "é".repeat(160)));
}

#[test]
fn search_results_are_read_back() {
    let row = |availability: &str| HitRow {
        source_id: text("s"),
        sequence: 3,
        kind: text("k"),
        content: text("line\nline"),
        content_hash: Ok(text("h")),
        availability: text(availability),
        matched: 2,
    };
    let hit = hit_from_row(row("expired")).expect("reads");
    assert_eq!(hit.preview, "line line");
    assert_eq!(hit.matched_terms, 2);
    fails(
        hit_from_row(row("lost")),
        ErrorCode::StorageWriteFailed,
        "history source has an unknown availability",
    );
}

fn source(project: &str, task: &str, availability: &str) -> Option<SourceRow> {
    Some(SourceRow {
        project_id: text(project),
        task_id: text(task),
        sequence: 4,
        kind: text("k"),
        content: text("0123456789"),
        content_hash: Ok(text("h")),
        availability: text(availability),
    })
}

#[test]
fn reads_stay_in_their_scope() {
    let scope = HistoryScope::new(text("p"), text("t"));
    assert!(history_read(&scope, "s", 0, 5, source("p", "t", "available")).is_ok());
    fails(
        history_read(&scope, "s", 0, 5, source("p", "other", "available")),
        ErrorCode::ScopeAuthorityDenied,
        "history source belongs to another task scope",
    );
    let granted = scope.with_grants(vec![text("s")]);
    assert!(history_read(&granted, "s", 0, 5, source("p", "other", "available")).is_ok());
    fails(
        history_read(&granted, "s", 0, 5, source("q", "other", "available")),
        ErrorCode::ScopeAuthorityDenied,
        "history source belongs to another task scope",
    );
    fails(
        history_read(&granted, "s", 0, 5, None),
        ErrorCode::InvalidPayload,
        "no indexed source has that id",
    );
    fails(
        history_read(&granted, "s", 0, 5, source("p", "t", "expired")),
        ErrorCode::SourceUnavailable,
        "the source behind this reference is no longer available",
    );
}

#[test]
fn pages_make_up_the_source() {
    let scope = HistoryScope::new(text("p"), text("t"));
    let mut whole: Vec<u8> = Vec::new();
    loop {
        let page = history_read(
            &scope,
            "s",
            whole.len() as u64,
            4,
            source("p", "t", "available"),
        )
        .expect("page");
        assert_eq!(page.total_bytes, 10);
        if page.bytes.is_empty() {
            break;
        }
        whole.extend(page.bytes);
    }
    assert_eq!(whole, b"0123456789");
    fails(
        history_read(&scope, "s", 11, 4, source("p", "t", "available")),
        ErrorCode::InvalidPayload,
        "requested offset 11 is past the 10 stored bytes",
    );
}

#[test]
fn a_page_is_no_larger_than_the_largest() {
    let scope = HistoryScope::new(text("p"), text("t"));
    let mut stored = source("p", "t", "available").expect("source");
    stored.content = "x".repeat(HISTORY_READ_MAX_BYTES + 10);
    let page = history_read(&scope, "s", 0, HISTORY_READ_MAX_BYTES + 5, Some(stored)).expect("page");
    assert_eq!(page.bytes.len(), HISTORY_READ_MAX_BYTES);
    assert_eq!(page.total_bytes, (HISTORY_READ_MAX_BYTES + 10) as u64);
}

#[test]
fn grants_come_from_the_fork() {
    assert!(history_grants(&None).expect("none").is_empty());
    let policy = text(r#"{"allowed_source_ids":["a",5,"b",null]}"#);
    assert_eq!(history_grants(&Some(policy)).expect("some"), vec!["a", "b"]);
    assert!(history_grants(&Some(text(r#"{"allowed_source_ids":"a"}"#)))
        .expect("no array")
        .is_empty());
    fails(
        history_grants(&Some(text("{"))),
        ErrorCode::StorageWriteFailed,
        "fork policy is not readable JSON",
    );
}

fn write_note(
    key: &str,
    expected: u64,
    content: &str,
    existing: Option<NoteRow>,
) -> Result<harness_store_sqlite::NoteRecord, StoreError> {
    upsert_note_cas(
        text("session"),
        text("task"),
        key,
        expected,
        text(content),
        text("[]"),
        &Vec::new(),
        "unique",
        &fence(),
        Some(1),
        existing,
    )
}

#[test]
fn notes_are_not_overwritten_unread() {
    let first = write_note("  plan \n", 0, "x", None).expect("new");
    assert_eq!(first.note_id, "note_unique");
    assert_eq!(first.key, "plan");
    assert_eq!(first.revision, 1);
    assert_eq!(first.authority, "model_report");
    let stored = |revision: i64| Some(NoteRow { note_id: text("note_unique"), revision });
    assert_eq!(write_note("plan", 1, "y", stored(1)).expect("next").revision, 2);
    fails(
        write_note("plan", 1, "z", stored(2)),
        ErrorCode::CompactionConflict,
        "note plan is at revision 2, not 1",
    );
    fails(
        write_note("plan", 3, "z", None),
        ErrorCode::CompactionConflict,
        "note does not exist yet, so revision 0 was expected",
    );
    fails(
        write_note("plan", i64::MAX as u64, "z", stored(i64::MAX)),
        ErrorCode::StorageWriteFailed,
        "note revision does not fit in an integer column",
    );
}

#[test]
fn notes_keep_their_limits() {
    fails(
        write_note(" \t", 0, "x", None),
        ErrorCode::InvalidPayload,
        "a note key must be 1..=120 characters",
    );
    assert!(write_note(&"é".repeat(120), 0, "x", None).is_ok());
    fails(
        write_note(&"é".repeat(121), 0, "x", None),
        ErrorCode::InvalidPayload,
        "a note key must be 1..=120 characters",
    );
    assert!(write_note("k", 0, &"x".repeat(16384), None).is_ok());
    fails(
        write_note("k", 0, &"x".repeat(16385), None),
        ErrorCode::OutputLimitExceeded,
        "a note body must be at most 16384 bytes",
    );
    assert_eq!(trim_text("\u{2003}a b\u{a0}"), "a b");
}

#[test]
fn notes_are_read_back() {
    let row = |sources_read: bool| StoredNoteRow {
        note_id: text("n"),
        task_id: Ok(text("t")),
        session_id: Ok(text("s")),
        key: text("k"),
        revision: 2,
        content: text("c"),
        sources_json: text("[]"),
        sources_read,
        authority: text("model_report"),
    };
    assert_eq!(note_from_row(row(true)).expect("reads").revision, 2);
    fails(
        note_from_row(row(false)),
        ErrorCode::StorageWriteFailed,
        "note sources are not readable JSON",
    );
}

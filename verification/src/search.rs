//! What a search of the index answers with, said of the tables that it searches.

use crate::history::{places, repeated, search_head, search_text};
use crate::sql::{
    any_words, cell_of, column_words, comes_before, compares, comparison_words, count_of,
    counted_values, flushed, in_group, is_answer, lemma_lex_appended, lemma_lex_pieces,
    lemma_lex_word, lex_from, lex_pieces, pieced, query_head, query_words, row_counts, selects,
    spells, value_words, words, Cell, Comparison, CountQuery, Lexed, TableRow, Tables,
};
use vstd::prelude::*;

verus! {

/// A column that equals a bound value.
pub open spec fn equals(column: Seq<char>) -> Comparison {
    Comparison { column, how: "="@ }
}

/// The query that a search is: of the sources of a project that are in a task or granted,
/// those with as many different terms among some as there are, newest first.
pub open spec fn search_query(grants: nat, terms: nat) -> CountQuery {
    CountQuery {
        columns: seq![
            "s.source_id"@,
            "s.sequence"@,
            "s.kind"@,
            "s.content"@,
            "s.content_hash"@,
            "s.availability"@,
        ],
        distinct: true,
        counted: "t.term"@,
        count: "matched"@,
        table: "history_sources"@,
        alias: "s"@,
        other_table: "history_terms"@,
        other_alias: "t"@,
        on: ("t.source_id"@, "="@, "s.source_id"@),
        must: equals("s.project_id"@),
        any: search_scope(grants),
        among: "t.term"@,
        values: terms,
        group: "s.source_id"@,
        having: equals("matched"@),
        order: "s.sequence"@,
        direction: "DESC"@,
    }
}

/// What one of holds of a source in scope: it is in the task, or it is one of those that
/// were granted.
pub open spec fn search_scope(grants: nat) -> Seq<Comparison> {
    Seq::new(
        grants + 1,
        |k: int|
            if k == 0 {
                equals("s.task_id"@)
            } else {
                equals("s.source_id"@)
            },
    )
}

/// The words of the columns that a search selects.
proof fn lemma_lex_columns(state: Lexed)
    requires
        state.1.len() == 0,
    ensures
        lex_from(state, "SELECT s.source_id, s.sequence, s.kind, s.content, s.content_hash, s.availability,"@) == (
            flushed(state) + seq![
                "SELECT"@, "s.source_id"@, seq![','], "s.sequence"@, seq![','], "s.kind"@,
                seq![','], "s.content"@, seq![','], "s.content_hash"@, seq![','],
                "s.availability"@, seq![','],
            ],
            Seq::<char>::empty(),
        ),
{
    reveal_strlit("SELECT s.source_id, s.sequence, s.kind, s.content, s.content_hash, s.availability,");
    reveal_strlit("SELECT");
    reveal_strlit("s.availability");
    reveal_strlit("s.content");
    reveal_strlit("s.content_hash");
    reveal_strlit("s.kind");
    reveal_strlit("s.sequence");
    reveal_strlit("s.source_id");
    let pieces = seq![
        "SELECT"@, seq![' '], "s.source_id"@, seq![','], seq![' '], "s.sequence"@, seq![','],
        seq![' '], "s.kind"@, seq![','], seq![' '], "s.content"@, seq![','], seq![' '],
        "s.content_hash"@, seq![','], seq![' '], "s.availability"@, seq![','],
    ];
    reveal_with_fuel(pieced, 20);
    reveal_with_fuel(lex_pieces, 20);
    assert(pieced(pieces, 19) =~= "SELECT s.source_id, s.sequence, s.kind, s.content, s.content_hash, s.availability,"@);
    lemma_lex_pieces(state, pieces, 19);
    let read = lex_pieces(state, pieces, 19);
    assert(read.0 =~= flushed(state) + seq![
        "SELECT"@, "s.source_id"@, seq![','], "s.sequence"@, seq![','], "s.kind"@, seq![','],
        "s.content"@, seq![','], "s.content_hash"@, seq![','], "s.availability"@, seq![','],
    ]);
    assert(read.1 =~= Seq::<char>::empty());
}

/// The words of what a search counts.
proof fn lemma_lex_count(state: Lexed)
    ensures
        lex_from(state, " COUNT(DISTINCT t.term) AS matched FROM history_sources s"@) == (
            flushed(state) + seq![
                "COUNT"@, seq!['('], "DISTINCT"@, "t.term"@, seq![')'], "AS"@, "matched"@,
                "FROM"@, "history_sources"@,
            ],
            "s"@,
        ),
{
    reveal_strlit(" COUNT(DISTINCT t.term) AS matched FROM history_sources s");
    reveal_strlit("AS");
    reveal_strlit("COUNT");
    reveal_strlit("DISTINCT");
    reveal_strlit("FROM");
    reveal_strlit("history_sources");
    reveal_strlit("matched");
    reveal_strlit("s");
    reveal_strlit("t.term");
    let pieces = seq![
        seq![' '], "COUNT"@, seq!['('], "DISTINCT"@, seq![' '], "t.term"@, seq![')'],
        seq![' '], "AS"@, seq![' '], "matched"@, seq![' '], "FROM"@, seq![' '],
        "history_sources"@, seq![' '], "s"@,
    ];
    reveal_with_fuel(pieced, 18);
    reveal_with_fuel(lex_pieces, 18);
    assert(pieced(pieces, 17) =~= " COUNT(DISTINCT t.term) AS matched FROM history_sources s"@);
    lemma_lex_pieces(state, pieces, 17);
    let read = lex_pieces(state, pieces, 17);
    assert(read.0 =~= flushed(state) + seq![
        "COUNT"@, seq!['('], "DISTINCT"@, "t.term"@, seq![')'], "AS"@, "matched"@, "FROM"@,
        "history_sources"@,
    ]);
    assert(read.1 =~= "s"@);
}

/// The words of how a search joins its tables.
proof fn lemma_lex_join(state: Lexed)
    ensures
        lex_from(state, " JOIN history_terms t ON t.source_id = s.source_id"@) == (
            flushed(state) + seq![
                "JOIN"@, "history_terms"@, "t"@, "ON"@, "t.source_id"@, "="@,
            ],
            "s.source_id"@,
        ),
{
    reveal_strlit(" JOIN history_terms t ON t.source_id = s.source_id");
    reveal_strlit("=");
    reveal_strlit("JOIN");
    reveal_strlit("ON");
    reveal_strlit("history_terms");
    reveal_strlit("s.source_id");
    reveal_strlit("t");
    reveal_strlit("t.source_id");
    let pieces = seq![
        seq![' '], "JOIN"@, seq![' '], "history_terms"@, seq![' '], "t"@, seq![' '], "ON"@,
        seq![' '], "t.source_id"@, seq![' '], "="@, seq![' '], "s.source_id"@,
    ];
    reveal_with_fuel(pieced, 15);
    reveal_with_fuel(lex_pieces, 15);
    assert(pieced(pieces, 14) =~= " JOIN history_terms t ON t.source_id = s.source_id"@);
    lemma_lex_pieces(state, pieces, 14);
    let read = lex_pieces(state, pieces, 14);
    assert(read.0 =~= flushed(state) + seq![
        "JOIN"@, "history_terms"@, "t"@, "ON"@, "t.source_id"@, "="@,
    ]);
    assert(read.1 =~= "s.source_id"@);
}

/// The words of the scope of a search, up to its grants.
proof fn lemma_lex_scope(state: Lexed)
    ensures
        lex_from(state, " WHERE s.project_id = ? AND (s.task_id = ?"@) == (
            flushed(state) + seq![
                "WHERE"@, "s.project_id"@, "="@, seq!['?'], "AND"@, seq!['('], "s.task_id"@,
                "="@,
            ],
            seq!['?'],
        ),
{
    reveal_strlit(" WHERE s.project_id = ? AND (s.task_id = ?");
    reveal_strlit("=");
    reveal_strlit("AND");
    reveal_strlit("WHERE");
    reveal_strlit("s.project_id");
    reveal_strlit("s.task_id");
    let pieces = seq![
        seq![' '], "WHERE"@, seq![' '], "s.project_id"@, seq![' '], "="@, seq![' '], seq!['?'],
        seq![' '], "AND"@, seq![' '], seq!['('], "s.task_id"@, seq![' '], "="@, seq![' '],
        seq!['?'],
    ];
    reveal_with_fuel(pieced, 18);
    reveal_with_fuel(lex_pieces, 18);
    assert(pieced(pieces, 17) =~= " WHERE s.project_id = ? AND (s.task_id = ?"@);
    lemma_lex_pieces(state, pieces, 17);
    let read = lex_pieces(state, pieces, 17);
    assert(read.0 =~= flushed(state) + seq![
        "WHERE"@, "s.project_id"@, "="@, seq!['?'], "AND"@, seq!['('], "s.task_id"@, "="@,
    ]);
    assert(read.1 =~= seq!['?']);
}

/// The words of what a search selects, up to the grants of its scope.
proof fn lemma_lex_head()
    ensures
        lex_from((seq![], seq![]), search_head()) == (
            seq![
                "SELECT"@, "s.source_id"@, seq![','], "s.sequence"@, seq![','], "s.kind"@,
                seq![','], "s.content"@, seq![','], "s.content_hash"@, seq![','],
                "s.availability"@, seq![','], "COUNT"@, seq!['('], "DISTINCT"@, "t.term"@,
                seq![')'], "AS"@, "matched"@, "FROM"@, "history_sources"@, "s"@, "JOIN"@,
                "history_terms"@, "t"@, "ON"@, "t.source_id"@, "="@, "s.source_id"@, "WHERE"@,
                "s.project_id"@, "="@, seq!['?'], "AND"@, seq!['('], "s.task_id"@, "="@,
            ],
            seq!['?'],
        ),
{
    let start = (Seq::<Seq<char>>::empty(), Seq::<char>::empty());
    let a = "SELECT s.source_id, s.sequence, s.kind, s.content, s.content_hash, s.availability,"@;
    let b = " COUNT(DISTINCT t.term) AS matched FROM history_sources s"@;
    let c = " JOIN history_terms t ON t.source_id = s.source_id"@;
    let d = " WHERE s.project_id = ? AND (s.task_id = ?"@;
    assert(search_head() =~= a + b + c + d) by {
        reveal_strlit("SELECT s.source_id, s.sequence, s.kind, s.content, s.content_hash, s.availability, COUNT(DISTINCT t.term) AS matched FROM history_sources s JOIN history_terms t ON t.source_id = s.source_id WHERE s.project_id = ? AND (s.task_id = ?");
        reveal_strlit("SELECT s.source_id, s.sequence, s.kind, s.content, s.content_hash, s.availability,");
        reveal_strlit(" COUNT(DISTINCT t.term) AS matched FROM history_sources s");
        reveal_strlit(" JOIN history_terms t ON t.source_id = s.source_id");
        reveal_strlit(" WHERE s.project_id = ? AND (s.task_id = ?");
    }
    lemma_lex_columns(start);
    lemma_lex_appended(start, a, b);
    lemma_lex_count(lex_from(start, a));
    lemma_lex_appended(start, a + b, c);
    lemma_lex_join(lex_from(start, a + b));
    lemma_lex_appended(start, a + b + c, d);
    lemma_lex_scope(lex_from(start, a + b + c));
    reveal_strlit("s");
    reveal_strlit("s.source_id");
    let read = lex_from(start, search_head());
    assert(read.0 =~= seq![
        "SELECT"@, "s.source_id"@, seq![','], "s.sequence"@, seq![','], "s.kind"@, seq![','],
        "s.content"@, seq![','], "s.content_hash"@, seq![','], "s.availability"@, seq![','],
        "COUNT"@, seq!['('], "DISTINCT"@, "t.term"@, seq![')'], "AS"@, "matched"@, "FROM"@,
        "history_sources"@, "s"@, "JOIN"@, "history_terms"@, "t"@, "ON"@, "t.source_id"@, "="@,
        "s.source_id"@, "WHERE"@, "s.project_id"@, "="@, seq!['?'], "AND"@, seq!['('],
        "s.task_id"@, "="@,
    ]);
}

/// The words of one more granted source.
proof fn lemma_lex_grant(state: Lexed)
    ensures
        lex_from(state, " OR s.source_id = ?"@) == (
            flushed(state) + seq![
                "OR"@, "s.source_id"@, "="@,
            ],
            seq!['?'],
        ),
{
    reveal_strlit(" OR s.source_id = ?");
    reveal_strlit("=");
    reveal_strlit("OR");
    reveal_strlit("s.source_id");
    let pieces = seq![
        seq![' '], "OR"@, seq![' '], "s.source_id"@, seq![' '], "="@, seq![' '], seq!['?'],
    ];
    reveal_with_fuel(pieced, 9);
    reveal_with_fuel(lex_pieces, 9);
    assert(pieced(pieces, 8) =~= " OR s.source_id = ?"@);
    lemma_lex_pieces(state, pieces, 8);
    let read = lex_pieces(state, pieces, 8);
    assert(read.0 =~= flushed(state) + seq![
        "OR"@, "s.source_id"@, "="@,
    ]);
    assert(read.1 =~= seq!['?']);
}

/// The words between the scope of a search and its terms.
proof fn lemma_lex_middle(state: Lexed)
    ensures
        lex_from(state, ") AND t.term IN ("@) == (
            flushed(state) + seq![
                seq![')'], "AND"@, "t.term"@, "IN"@, seq!['('],
            ],
            Seq::<char>::empty(),
        ),
{
    reveal_strlit(") AND t.term IN (");
    reveal_strlit("AND");
    reveal_strlit("IN");
    reveal_strlit("t.term");
    let pieces = seq![
        seq![')'], seq![' '], "AND"@, seq![' '], "t.term"@, seq![' '], "IN"@, seq![' '],
        seq!['('],
    ];
    reveal_with_fuel(pieced, 10);
    reveal_with_fuel(lex_pieces, 10);
    assert(pieced(pieces, 9) =~= ") AND t.term IN ("@);
    lemma_lex_pieces(state, pieces, 9);
    let read = lex_pieces(state, pieces, 9);
    assert(read.0 =~= flushed(state) + seq![
        seq![')'], "AND"@, "t.term"@, "IN"@, seq!['('],
    ]);
    assert(read.1 =~= Seq::<char>::empty());
}

/// The words behind the terms of a search.
proof fn lemma_lex_tail(state: Lexed)
    ensures
        lex_from(state, ") GROUP BY s.source_id HAVING matched = ? ORDER BY s.sequence DESC LIMIT ?"@) == (
            flushed(state) + seq![
                seq![')'], "GROUP"@, "BY"@, "s.source_id"@, "HAVING"@, "matched"@, "="@,
                seq!['?'], "ORDER"@, "BY"@, "s.sequence"@, "DESC"@, "LIMIT"@,
            ],
            seq!['?'],
        ),
{
    reveal_strlit(") GROUP BY s.source_id HAVING matched = ? ORDER BY s.sequence DESC LIMIT ?");
    reveal_strlit("=");
    reveal_strlit("BY");
    reveal_strlit("DESC");
    reveal_strlit("GROUP");
    reveal_strlit("HAVING");
    reveal_strlit("LIMIT");
    reveal_strlit("ORDER");
    reveal_strlit("matched");
    reveal_strlit("s.sequence");
    reveal_strlit("s.source_id");
    let pieces = seq![
        seq![')'], seq![' '], "GROUP"@, seq![' '], "BY"@, seq![' '], "s.source_id"@, seq![' '],
        "HAVING"@, seq![' '], "matched"@, seq![' '], "="@, seq![' '], seq!['?'], seq![' '],
        "ORDER"@, seq![' '], "BY"@, seq![' '], "s.sequence"@, seq![' '], "DESC"@, seq![' '],
        "LIMIT"@, seq![' '], seq!['?'],
    ];
    reveal_with_fuel(pieced, 28);
    reveal_with_fuel(lex_pieces, 28);
    assert(pieced(pieces, 27) =~= ") GROUP BY s.source_id HAVING matched = ? ORDER BY s.sequence DESC LIMIT ?"@);
    lemma_lex_pieces(state, pieces, 27);
    let read = lex_pieces(state, pieces, 27);
    assert(read.0 =~= flushed(state) + seq![
        seq![')'], "GROUP"@, "BY"@, "s.source_id"@, "HAVING"@, "matched"@, "="@, seq!['?'],
        "ORDER"@, "BY"@, "s.sequence"@, "DESC"@, "LIMIT"@,
    ]);
    assert(read.1 =~= seq!['?']);
}

/// The words of one more bound value.
proof fn lemma_lex_value(state: Lexed)
    ensures
        lex_from(state, ",?"@) == (
            flushed(state) + seq![
                seq![','],
            ],
            seq!['?'],
        ),
{
    reveal_strlit(",?");

    let pieces = seq![
        seq![','], seq!['?'],
    ];
    reveal_with_fuel(pieced, 3);
    reveal_with_fuel(lex_pieces, 3);
    assert(pieced(pieces, 2) =~= ",?"@);
    lemma_lex_pieces(state, pieces, 2);
    let read = lex_pieces(state, pieces, 2);
    assert(read.0 =~= flushed(state) + seq![
        seq![','],
    ]);
    assert(read.1 =~= seq!['?']);
}

/// The words of the granted sources of a search.
proof fn lemma_lex_grants(grants: nat)
    ensures
        ({
            let state = lex_from(
                (seq![], seq![]),
                search_head() + repeated(" OR s.source_id = ?"@, grants),
            );
            &&& state.1 == seq!['?']
            &&& flushed(state) == query_head(search_query(grants, 0)) + any_words(
                search_scope(grants),
            )
        }),
    decreases grants,
{
    let start = (Seq::<Seq<char>>::empty(), Seq::<char>::empty());
    let more = " OR s.source_id = ?"@;
    let all = search_head() + repeated(more, grants);
    let state = lex_from(start, all);
    if grants == 0 {
        lemma_lex_head();
        assert(all =~= search_head());
        reveal_with_fuel(column_words, 7);
        let query = search_query(0, 0);
        assert(query.columns.drop_last().drop_last().drop_last().drop_last().drop_last()
            =~= seq!["s.source_id"@]);
        assert(column_words(query.columns) =~= seq![
            "s.source_id"@, seq![','], "s.sequence"@, seq![','], "s.kind"@, seq![','],
            "s.content"@, seq![','], "s.content_hash"@, seq![','], "s.availability"@, seq![','],
        ]);
        assert(any_words(search_scope(0)) =~= seq!["s.task_id"@, "="@, seq!['?']]);
        assert(flushed(state) =~= query_head(query) + any_words(search_scope(0)));
    } else {
        let fewer = (grants - 1) as nat;
        let before = search_head() + repeated(more, fewer);
        lemma_lex_grants(fewer);
        assert(all =~= before + more);
        lemma_lex_appended(start, before, more);
        lemma_lex_grant(lex_from(start, before));
        let scope = search_scope(grants);
        assert(scope.drop_last() =~= search_scope(fewer));
        assert(scope.last() == equals("s.source_id"@));
        assert(any_words(scope) == any_words(search_scope(fewer)) + seq!["OR"@]
            + comparison_words(scope.last()));
        assert(query_head(search_query(grants, 0)) == query_head(search_query(fewer, 0)));
        assert(flushed(state) =~= query_head(search_query(grants, 0)) + any_words(scope));
    }
}

/// The words of the terms of a search.
proof fn lemma_lex_places(state: Lexed, terms: nat)
    requires
        state.1.len() == 0,
    ensures
        flushed(lex_from(state, places(terms))) == state.0 + value_words(terms),
        terms > 0 ==> lex_from(state, places(terms)).1 == seq!['?'],
    decreases terms,
{
    reveal_strlit("?");
    if terms == 0 {
        assert(state.0 + value_words(0) =~= state.0);
    } else if terms == 1 {
        assert("?"@ =~= seq!['?']);
        lemma_lex_word(state, "?"@);
        assert(state.1 + "?"@ =~= seq!['?']);
        assert(state.0.push(seq!['?']) =~= state.0 + value_words(1));
    } else {
        let fewer = (terms - 1) as nat;
        lemma_lex_places(state, fewer);
        lemma_lex_appended(state, places(fewer), ",?"@);
        lemma_lex_value(lex_from(state, places(fewer)));
        assert(flushed(lex_from(state, places(terms))) =~= state.0 + value_words(terms));
    }
}

/// The statement of a search spells the query that the search is.
pub proof fn lemma_search_text_spells_its_query(grants: nat, terms: nat)
    ensures
        spells(search_text(grants, terms), search_query(grants, terms)),
{
    let start = (Seq::<Seq<char>>::empty(), Seq::<char>::empty());
    let query = search_query(grants, terms);
    let a = search_head() + repeated(" OR s.source_id = ?"@, grants);
    let b = a + ") AND t.term IN ("@;
    let c = b + places(terms);
    let tail = ") GROUP BY s.source_id HAVING matched = ? ORDER BY s.sequence DESC LIMIT ?"@;
    lemma_lex_grants(grants);
    assert(query_head(search_query(grants, 0)) == query_head(query));
    lemma_lex_appended(start, a, ") AND t.term IN ("@);
    lemma_lex_middle(lex_from(start, a));
    lemma_lex_appended(start, b, places(terms));
    lemma_lex_places(lex_from(start, b), terms);
    lemma_lex_appended(start, c, tail);
    lemma_lex_tail(lex_from(start, c));
    assert(words(search_text(grants, terms)) =~= query_words(query));
}

// ---------------------------------------------------------------------------
// What is found

/// A source of the index: whose it is, when it came, and the terms it is found by.
pub struct SearchedSource {
    pub source_id: Seq<char>,
    pub project_id: Seq<char>,
    pub task_id: Seq<char>,
    pub sequence: int,
    pub terms: Set<Seq<char>>,
}

/// Tables hold an index: one has a row for each source, and the other a row for each term
/// of a source.
pub open spec fn holds_index(tables: Tables, sources: Seq<SearchedSource>) -> bool {
    let rows = tables["history_sources"@];
    let terms = tables["history_terms"@];
    &&& rows.len() == sources.len()
    &&& forall|i: int|
        0 <= i < sources.len() ==> {
            &&& (#[trigger] rows[i])["source_id"@] == Cell::Text(sources[i].source_id)
            &&& rows[i]["project_id"@] == Cell::Text(sources[i].project_id)
            &&& rows[i]["task_id"@] == Cell::Text(sources[i].task_id)
            &&& rows[i]["sequence"@] == Cell::Number(sources[i].sequence)
        }
    &&& forall|i: int, j: int|
        0 <= i < j < sources.len() ==> (#[trigger] sources[i]).source_id != (
        #[trigger] sources[j]).source_id
    &&& forall|i: int, term: Seq<char>|
        0 <= i < sources.len() ==> (#[trigger] sources[i].terms.contains(term) <==> exists|j: int|
            0 <= j < terms.len() && (#[trigger] terms[j])["source_id"@] == Cell::Text(
                sources[i].source_id,
            ) && terms[j]["term"@] == Cell::Text(term))
}

/// The values that a search binds, in the order of their places.
pub open spec fn search_values(
    project_id: Seq<char>,
    task_id: Seq<char>,
    granted: Seq<Seq<char>>,
    terms: Seq<Seq<char>>,
    limit: int,
) -> Seq<Cell> {
    seq![Cell::Text(project_id), Cell::Text(task_id)] + granted.map_values(
        |id: Seq<char>| Cell::Text(id),
    ) + terms.map_values(|term: Seq<char>| Cell::Text(term)) + seq![
        Cell::Number(terms.len() as int),
        Cell::Number(limit),
    ]
}

/// What a joined row of a search holds in each of the columns that the search reads.
proof fn lemma_search_columns(grants: nat, terms: nat, row: TableRow, other: TableRow)
    ensures
        ({
            let query = search_query(grants, terms);
            &&& cell_of(query, row, other, "s.source_id"@) == row["source_id"@]
            &&& cell_of(query, row, other, "s.project_id"@) == row["project_id"@]
            &&& cell_of(query, row, other, "s.task_id"@) == row["task_id"@]
            &&& cell_of(query, row, other, "s.sequence"@) == row["sequence"@]
            &&& cell_of(query, row, other, "t.source_id"@) == other["source_id"@]
            &&& cell_of(query, row, other, "t.term"@) == other["term"@]
        }),
{
    reveal_strlit("s");
    reveal_strlit("t");
    reveal_strlit("s.source_id");
    reveal_strlit("s.project_id");
    reveal_strlit("s.task_id");
    reveal_strlit("s.sequence");
    reveal_strlit("t.source_id");
    reveal_strlit("t.term");
    reveal_strlit("source_id");
    reveal_strlit("project_id");
    reveal_strlit("task_id");
    reveal_strlit("sequence");
    reveal_strlit("term");
    let head = "s"@.push('.');
    assert("s.source_id"@.take(2) =~= head && "s.source_id"@.skip(2) =~= "source_id"@);
    assert("s.project_id"@.take(2) =~= head && "s.project_id"@.skip(2) =~= "project_id"@);
    assert("s.task_id"@.take(2) =~= head && "s.task_id"@.skip(2) =~= "task_id"@);
    assert("s.sequence"@.take(2) =~= head && "s.sequence"@.skip(2) =~= "sequence"@);
    assert("t.source_id"@.take(2)[0] == 't' && "t.source_id"@.skip(2) =~= "source_id"@);
    assert("t.term"@.take(2)[0] == 't' && "t.term"@.skip(2) =~= "term"@);
}

/// When a joined row counts in a search.
proof fn lemma_search_row(
    tables: Tables,
    sources: Seq<SearchedSource>,
    project_id: Seq<char>,
    task_id: Seq<char>,
    granted: Seq<Seq<char>>,
    terms: Seq<Seq<char>>,
    limit: int,
    i: int,
    j: int,
)
    requires
        holds_index(tables, sources),
        0 <= i < sources.len(),
        0 <= j < tables["history_terms"@].len(),
    ensures
        ({
            let row = tables["history_sources"@][i];
            let other = tables["history_terms"@][j];
            row_counts(
                search_query(granted.len(), terms.len()),
                search_values(project_id, task_id, granted, terms, limit),
                row,
                other,
            ) <==> {
                &&& other["source_id"@] == Cell::Text(sources[i].source_id)
                &&& sources[i].project_id == project_id
                &&& sources[i].task_id == task_id || granted.contains(sources[i].source_id)
                &&& exists|k: int|
                    0 <= k < terms.len() && other["term"@] == Cell::Text(#[trigger] terms[k])
            }
        }),
{
    let query = search_query(granted.len(), terms.len());
    let bound = search_values(project_id, task_id, granted, terms, limit);
    let row = tables["history_sources"@][i];
    let other = tables["history_terms"@][j];
    let source = sources[i];
    lemma_search_columns(granted.len(), terms.len(), row, other);
    assert(query.any.len() == granted.len() + 1);
    assert(query.any[0] == equals("s.task_id"@));
    assert(bound[1] == Cell::Text(task_id));
    assert forall|k: int| 0 <= k < granted.len() implies bound[2 + k] == Cell::Text(
        #[trigger] granted[k],
    ) && query.any[1 + k] == equals("s.source_id"@) by {}
    assert forall|k: int| 0 <= k < terms.len() implies bound[1 + query.any.len() + k]
        == Cell::Text(#[trigger] terms[k]) by {}
    let counts = row_counts(query, bound, row, other);
    let scoped = source.task_id == task_id || granted.contains(source.source_id);
    let asked = exists|k: int|
        0 <= k < terms.len() && other["term"@] == Cell::Text(#[trigger] terms[k]);
    if counts {
        let k = choose|k: int|
            0 <= k < query.any.len() && compares(
                cell_of(query, row, other, (#[trigger] query.any[k]).column),
                query.any[k].how,
                bound[1 + k],
            );
        if k > 0 {
            assert(query.any[1 + (k - 1)] == equals("s.source_id"@));
            assert(granted[k - 1] == source.source_id);
        }
        let l = choose|l: int|
            0 <= l < query.values && cell_of(query, row, other, query.among)
                == #[trigger] bound[1 + query.any.len() + l];
        assert(other["term"@] == Cell::Text(terms[l]));
    }
    if other["source_id"@] == Cell::Text(source.source_id) && source.project_id == project_id
        && scoped && asked {
        if source.task_id == task_id {
            assert(compares(cell_of(query, row, other, query.any[0].column), query.any[0].how, bound[1int + 0]));
        } else {
            let g = choose|g: int| 0 <= g < granted.len() && granted[g] == source.source_id;
            assert(bound[2 + g] == Cell::Text(granted[g]));
            assert(compares(
                cell_of(query, row, other, query.any[1 + g].column),
                query.any[1 + g].how,
                bound[1 + (1 + g)],
            ));
        }
        let l = choose|l: int|
            0 <= l < terms.len() && other["term"@] == Cell::Text(#[trigger] terms[l]);
        assert(cell_of(query, row, other, query.among) == bound[1 + query.any.len() + l]);
    }
}

/// The values that a search counts for a source in its scope are those of its terms that
/// the source has, and for any other source there are none.
proof fn lemma_search_counts(
    tables: Tables,
    sources: Seq<SearchedSource>,
    project_id: Seq<char>,
    task_id: Seq<char>,
    granted: Seq<Seq<char>>,
    terms: Seq<Seq<char>>,
    limit: int,
    i: int,
)
    requires
        holds_index(tables, sources),
        0 <= i < sources.len(),
    ensures
        ({
            let query = search_query(granted.len(), terms.len());
            let bound = search_values(project_id, task_id, granted, terms, limit);
            let row = tables["history_sources"@][i];
            let found = sources[i].terms.intersect(terms.to_set());
            let scoped = sources[i].project_id == project_id && (sources[i].task_id == task_id
                || granted.contains(sources[i].source_id));
            &&& (exists|a: int, j: int| in_group(query, tables, bound, row, a, j)) <==> scoped
                && found.len() > 0
            &&& scoped ==> count_of(query, tables, bound, row) == found.len()
        }),
{
    let query = search_query(granted.len(), terms.len());
    let bound = search_values(project_id, task_id, granted, terms, limit);
    let rows = tables["history_sources"@];
    let others = tables["history_terms"@];
    let row = rows[i];
    let source = sources[i];
    let found = source.terms.intersect(terms.to_set());
    let scoped = source.project_id == project_id && (source.task_id == task_id
        || granted.contains(source.source_id));
    vstd::seq_lib::seq_to_set_is_finite(terms);
    vstd::set_lib::lemma_len_subset(found, terms.to_set());
    let values = counted_values(query, tables, bound, row);
    let cell = |term: Seq<char>| Cell::Text(term);
    assert forall|a: int, j: int| #[trigger] in_group(query, tables, bound, row, a, j) implies a == i
        && scoped && exists|k: int|
        0 <= k < terms.len() && others[j]["term"@] == Cell::Text(#[trigger] terms[k])
            && found.contains(terms[k]) by {
        lemma_search_row(tables, sources, project_id, task_id, granted, terms, limit, a, j);
        lemma_search_columns(granted.len(), terms.len(), rows[a], others[j]);
        lemma_search_columns(granted.len(), terms.len(), row, others[j]);
        assert(sources[a].source_id == source.source_id);
        let k = choose|k: int|
            0 <= k < terms.len() && others[j]["term"@] == Cell::Text(#[trigger] terms[k]);
        assert(terms.to_set().contains(terms[k]));
        assert(sources[i].terms.contains(terms[k]));
        assert(found.contains(terms[k]));
    }
    assert forall|term: Seq<char>| scoped && #[trigger] found.contains(term) implies exists|j: int|
        #[trigger] in_group(query, tables, bound, row, i, j) && others[j]["term"@] == Cell::Text(
            term,
        ) by {
        assert(source.terms.contains(term));
        let j = choose|j: int|
            0 <= j < others.len() && (#[trigger] others[j])["source_id"@] == Cell::Text(
                source.source_id,
            ) && others[j]["term"@] == Cell::Text(term);
        let k = choose|k: int| 0 <= k < terms.len() && terms[k] == term;
        assert(others[j]["term"@] == Cell::Text(terms[k]));
        lemma_search_row(tables, sources, project_id, task_id, granted, terms, limit, i, j);
        assert(in_group(query, tables, bound, row, i, j));
    }
    if scoped {
        assert forall|value: Cell| values.contains(value) <==> found.map(cell).contains(value) by {
            if values.contains(value) {
                let (a, j) = choose|a: int, j: int| #[trigger]
                    in_group(query, tables, bound, row, a, j) && cell_of(
                        query,
                        rows[a],
                        others[j],
                        query.counted,
                    ) == value;
                lemma_search_columns(granted.len(), terms.len(), rows[a], others[j]);
                let k = choose|k: int|
                    0 <= k < terms.len() && others[j]["term"@] == Cell::Text(#[trigger] terms[k])
                        && found.contains(terms[k]);
                assert(cell(terms[k]) == value);
            }
            if found.map(cell).contains(value) {
                let term = choose|term: Seq<char>| found.contains(term) && cell(term) == value;
                let j = choose|j: int| #[trigger]
                    in_group(query, tables, bound, row, i, j) && others[j]["term"@] == Cell::Text(
                        term,
                    );
                lemma_search_columns(granted.len(), terms.len(), rows[i], others[j]);
                assert(in_group(query, tables, bound, row, i, j));
            }
        }
        assert(values =~= found.map(cell));
        vstd::set_lib::lemma_map_size(found, values, cell);
    }
    if found.len() > 0 {
        let term = found.choose();
        assert(found.contains(term));
    }
    if exists|a: int, j: int| in_group(query, tables, bound, row, a, j) {
        let (a, j) = choose|a: int, j: int| in_group(query, tables, bound, row, a, j);
        let k = choose|k: int|
            0 <= k < terms.len() && others[j]["term"@] == Cell::Text(#[trigger] terms[k])
                && found.contains(terms[k]);
        assert(found.contains(terms[k]));
        assert(found.len() > 0) by {
            if found.len() == 0 {
                assert(found =~= Set::empty());
            }
        }
    }
}

/// A search answers with the sources in its scope that have every one of its terms, and
/// with no other: sources of the project that are in the task or granted. They come newest
/// first, no more than the limit, and one is left out only for newer ones. This is said of
/// the tables that hold the index, and of the query that the statement of the search
/// spells. The terms are counted, so terms that occur twice among them find nothing.
pub proof fn law_search_finds_what_has_every_term(
    tables: Tables,
    sources: Seq<SearchedSource>,
    project_id: Seq<char>,
    task_id: Seq<char>,
    granted: Seq<Seq<char>>,
    terms: Seq<Seq<char>>,
    limit: int,
)
    requires
        holds_index(tables, sources),
        terms.len() > 0,
    ensures
        ({
            let query = search_query(granted.len(), terms.len());
            let bound = search_values(project_id, task_id, granted, terms, limit);
            let rows = tables["history_sources"@];
            &&& spells(search_text(granted.len(), terms.len()), query)
            // A source is selected where its terms among those of the search are as many as
            // those of the search.
            &&& forall|i: int|
                0 <= i < sources.len() ==> (#[trigger] selects(query, tables, bound, rows[i]) <==> {
                    &&& sources[i].project_id == project_id
                    &&& sources[i].task_id == task_id || granted.contains(sources[i].source_id)
                    &&& sources[i].terms.intersect(terms.to_set()).len() == terms.len()
                })
            // That is to say, where each of the terms of the search is one of its own.
            &&& terms.no_duplicates() ==> forall|i: int|
                0 <= i < sources.len() ==> (#[trigger] selects(query, tables, bound, rows[i]) <==> {
                    &&& sources[i].project_id == project_id
                    &&& sources[i].task_id == task_id || granted.contains(sources[i].source_id)
                    &&& forall|k: int|
                        0 <= k < terms.len() ==> sources[i].terms.contains(#[trigger] terms[k])
                })
            &&& !terms.no_duplicates() ==> forall|i: int|
                0 <= i < sources.len() ==> !#[trigger] selects(query, tables, bound, rows[i])
            &&& forall|places: Seq<int>| #[trigger]
                is_answer(query, tables, bound, places) ==> {
                    &&& places.len() <= limit
                    &&& places.no_duplicates()
                    &&& forall|k: int|
                        0 <= k < places.len() ==> 0 <= #[trigger] places[k] < sources.len()
                            && selects(query, tables, bound, rows[places[k]])
                    &&& forall|k: int, l: int|
                        0 <= k < l < places.len() ==> sources[#[trigger] places[k]].sequence
                            >= sources[#[trigger] places[l]].sequence
                    &&& forall|i: int|
                        0 <= i < sources.len() && !places.contains(i) && #[trigger] selects(
                            query,
                            tables,
                            bound,
                            rows[i],
                        ) ==> places.len() == limit && forall|k: int|
                            0 <= k < places.len() ==> sources[#[trigger] places[k]].sequence
                                >= sources[i].sequence
                }
        }),
{
    let query = search_query(granted.len(), terms.len());
    let bound = search_values(project_id, task_id, granted, terms, limit);
    let rows = tables["history_sources"@];
    lemma_search_text_spells_its_query(granted.len(), terms.len());
    assert(bound[(1 + query.any.len() + query.values) as int] == Cell::Number(terms.len() as int));
    assert(bound[(2 + query.any.len() + query.values) as int] == Cell::Number(limit));
    vstd::seq_lib::seq_to_set_is_finite(terms);
    terms.lemma_cardinality_of_set();
    if terms.no_duplicates() {
        terms.unique_seq_to_set();
    } else if terms.to_set().len() == terms.len() {
        terms.lemma_no_dup_set_cardinality();
    }
    assert forall|i: int| 0 <= i < sources.len() implies #[trigger] selects(
        query,
        tables,
        bound,
        rows[i],
    ) == {
        &&& sources[i].project_id == project_id
        &&& sources[i].task_id == task_id || granted.contains(sources[i].source_id)
        &&& sources[i].terms.intersect(terms.to_set()).len() == terms.len()
    } by {
        lemma_search_counts(tables, sources, project_id, task_id, granted, terms, limit, i);
    }
    assert forall|i: int| 0 <= i < sources.len() implies (terms.no_duplicates() && (forall|k: int|
        0 <= k < terms.len() ==> sources[i].terms.contains(#[trigger] terms[k]))) == ((
    #[trigger] sources[i]).terms.intersect(terms.to_set()).len() == terms.len()) by {
        let found = sources[i].terms.intersect(terms.to_set());
        vstd::set_lib::lemma_len_subset(found, terms.to_set());
        if found.len() == terms.len() {
            vstd::set_lib::lemma_subset_equality(found, terms.to_set());
            assert forall|k: int| 0 <= k < terms.len() implies sources[i].terms.contains(
                #[trigger] terms[k],
            ) by {
                assert(terms.to_set().contains(terms[k]));
                assert(found.contains(terms[k]));
            }
        }
        if terms.no_duplicates() && forall|k: int|
            0 <= k < terms.len() ==> sources[i].terms.contains(#[trigger] terms[k]) {
            assert(found =~= terms.to_set());
        }
    }
    assert forall|i: int, j: int| 0 <= i < sources.len() && 0 <= j < sources.len() implies (
    #[trigger] comes_before(query, rows[i], rows[j]) <==> sources[i].sequence
        > sources[j].sequence) by {
        lemma_search_columns(granted.len(), terms.len(), rows[i], rows[i]);
        lemma_search_columns(granted.len(), terms.len(), rows[j], rows[j]);
    }
}

} // verus!

//! What the text of a query means: its words, the query that they spell, and the rows
//! that such a query answers with.
//!
//! Only as much of the language is read as the store's own queries are written in.

use vstd::prelude::*;

verus! {

// ---------------------------------------------------------------------------
// Words

/// The characters that stand for themselves in a query.
pub open spec fn is_mark(c: char) -> bool {
    c == '(' || c == ')' || c == ','
}

/// The words that are complete, and the one that is being read.
pub type Lexed = (Seq<Seq<char>>, Seq<char>);

/// The words with the one that was being read, where there is one.
pub open spec fn flushed(state: Lexed) -> Seq<Seq<char>> {
    if state.1.len() == 0 {
        state.0
    } else {
        state.0.push(state.1)
    }
}

/// Reads one more character: a space ends a word, and a mark ends a word and is one.
pub open spec fn lex_char(state: Lexed, c: char) -> Lexed {
    if c == ' ' {
        (flushed(state), seq![])
    } else if is_mark(c) {
        (flushed(state).push(seq![c]), seq![])
    } else {
        (state.0, state.1.push(c))
    }
}

/// Reads on through a text.
pub open spec fn lex_from(state: Lexed, text: Seq<char>) -> Lexed
    decreases text.len(),
{
    if text.len() == 0 {
        state
    } else {
        lex_char(lex_from(state, text.drop_last()), text.last())
    }
}

/// The words of a query.
pub open spec fn words(text: Seq<char>) -> Seq<Seq<char>> {
    flushed(lex_from((seq![], seq![]), text))
}

/// Reading two texts one after the other is reading them as one.
pub proof fn lemma_lex_appended(state: Lexed, a: Seq<char>, b: Seq<char>)
    ensures
        lex_from(state, a + b) == lex_from(lex_from(state, a), b),
    decreases b.len(),
{
    if b.len() == 0 {
        assert(a + b =~= a);
    } else {
        assert((a + b).drop_last() =~= a + b.drop_last());
        assert((a + b).last() == b.last());
        lemma_lex_appended(state, a, b.drop_last());
    }
}

/// A text that is one word.
pub open spec fn is_word(text: Seq<char>) -> bool {
    &&& text.len() > 0
    &&& forall|i: int| 0 <= i < text.len() ==> #[trigger] text[i] != ' ' && !is_mark(text[i])
}

/// A word is read on as it is.
pub proof fn lemma_lex_word(state: Lexed, word: Seq<char>)
    requires
        forall|i: int| 0 <= i < word.len() ==> #[trigger] word[i] != ' ' && !is_mark(word[i]),
    ensures
        lex_from(state, word) == (state.0, state.1 + word),
    decreases word.len(),
{
    if word.len() == 0 {
        assert(state.1 + word =~= state.1);
    } else {
        let front = word.drop_last();
        assert forall|i: int| 0 <= i < front.len() implies #[trigger] front[i] != ' ' && !is_mark(
            front[i],
        ) by {
            assert(word[i] == front[i]);
        }
        lemma_lex_word(state, front);
        assert(word[word.len() - 1] == word.last());
        assert((state.1 + front).push(word.last()) =~= state.1 + word);
    }
}

/// The text that the first of some pieces make.
pub open spec fn pieced(pieces: Seq<Seq<char>>, count: int) -> Seq<char>
    decreases count,
{
    if count <= 0 {
        seq![]
    } else {
        pieced(pieces, count - 1) + pieces[count - 1]
    }
}

/// Reads a piece: a word, a space or a mark.
pub open spec fn lex_piece(state: Lexed, piece: Seq<char>) -> Lexed {
    if piece.len() == 1 && (piece[0] == ' ' || is_mark(piece[0])) {
        lex_char(state, piece[0])
    } else {
        (state.0, state.1 + piece)
    }
}

/// Reads the first of some pieces.
pub open spec fn lex_pieces(state: Lexed, pieces: Seq<Seq<char>>, count: int) -> Lexed
    decreases count,
{
    if count <= 0 {
        state
    } else {
        lex_piece(lex_pieces(state, pieces, count - 1), pieces[count - 1])
    }
}

/// A piece that can be read at once.
pub open spec fn is_piece(piece: Seq<char>) -> bool {
    is_word(piece) || piece.len() == 1
}

/// A text is read piece by piece.
pub proof fn lemma_lex_pieces(state: Lexed, pieces: Seq<Seq<char>>, count: int)
    requires
        0 <= count <= pieces.len(),
        forall|i: int| 0 <= i < count ==> is_piece(#[trigger] pieces[i]),
    ensures
        lex_from(state, pieced(pieces, count)) == lex_pieces(state, pieces, count),
    decreases count,
{
    if count > 0 {
        let piece = pieces[count - 1];
        let before = lex_pieces(state, pieces, count - 1);
        lemma_lex_pieces(state, pieces, count - 1);
        lemma_lex_appended(state, pieced(pieces, count - 1), piece);
        assert(is_piece(piece));
        if piece.len() == 1 && (piece[0] == ' ' || is_mark(piece[0])) {
            assert(piece.drop_last() =~= seq![]);
            assert(lex_from(before, piece.drop_last()) == before);
            assert(piece.last() == piece[0]);
        } else {
            lemma_lex_word(before, piece);
        }
    }
}

// ---------------------------------------------------------------------------
// Queries

/// A column, how it is compared, and a bound value to compare it with.
pub struct Comparison {
    pub column: Seq<char>,
    pub how: Seq<char>,
}

/// A query over two joined tables that counts, for each group, the values of a column,
/// keeps the groups with a count, and answers with so many of them in order.
pub struct CountQuery {
    /// The columns that are answered.
    pub columns: Seq<Seq<char>>,
    /// Whether a value is counted once.
    pub distinct: bool,
    pub counted: Seq<char>,
    /// What the count is called.
    pub count: Seq<char>,
    pub table: Seq<char>,
    pub alias: Seq<char>,
    pub other_table: Seq<char>,
    pub other_alias: Seq<char>,
    pub on: (Seq<char>, Seq<char>, Seq<char>),
    /// What holds of every row.
    pub must: Comparison,
    /// One of these holds of every row.
    pub any: Seq<Comparison>,
    /// A column that has one of some bound values, and how many there are.
    pub among: Seq<char>,
    pub values: nat,
    pub group: Seq<char>,
    pub having: Comparison,
    pub order: Seq<char>,
    pub direction: Seq<char>,
}

/// Columns, with a comma behind each.
pub open spec fn column_words(columns: Seq<Seq<char>>) -> Seq<Seq<char>>
    decreases columns.len(),
{
    if columns.len() == 0 {
        seq![]
    } else {
        column_words(columns.drop_last()) + seq![columns.last(), seq![',']]
    }
}

/// A comparison with a bound value.
pub open spec fn comparison_words(comparison: Comparison) -> Seq<Seq<char>> {
    seq![comparison.column, comparison.how, seq!['?']]
}

/// Comparisons with a word between them.
pub open spec fn any_words(any: Seq<Comparison>) -> Seq<Seq<char>>
    decreases any.len(),
{
    if any.len() == 0 {
        seq![]
    } else if any.len() == 1 {
        comparison_words(any[0])
    } else {
        any_words(any.drop_last()) + seq!["OR"@] + comparison_words(any.last())
    }
}

/// Bound values with commas between them.
pub open spec fn value_words(count: nat) -> Seq<Seq<char>>
    decreases count,
{
    if count == 0 {
        seq![]
    } else if count == 1 {
        seq![seq!['?']]
    } else {
        value_words((count - 1) as nat) + seq![seq![','], seq!['?']]
    }
}

/// The words of a query up to what one of holds.
pub open spec fn query_head(query: CountQuery) -> Seq<Seq<char>> {
    seq!["SELECT"@] + column_words(query.columns) + seq!["COUNT"@, seq!['(']] + (
    if query.distinct {
        seq!["DISTINCT"@]
    } else {
        seq![]
    }) + seq![
        query.counted,
        seq![')'],
        "AS"@,
        query.count,
        "FROM"@,
        query.table,
        query.alias,
        "JOIN"@,
        query.other_table,
        query.other_alias,
        "ON"@,
        query.on.0,
        query.on.1,
        query.on.2,
        "WHERE"@,
    ] + comparison_words(query.must) + seq!["AND"@, seq!['(']]
}

/// The words that spell a query.
pub open spec fn query_words(query: CountQuery) -> Seq<Seq<char>> {
    query_head(query) + any_words(query.any) + seq![
        seq![')'],
        "AND"@,
        query.among,
        "IN"@,
        seq!['('],
    ] + value_words(query.values) + seq![seq![')'], "GROUP"@, "BY"@, query.group, "HAVING"@]
        + comparison_words(query.having) + seq![
        "ORDER"@,
        "BY"@,
        query.order,
        query.direction,
        "LIMIT"@,
        seq!['?'],
    ]
}

/// A text spells a query.
pub open spec fn spells(text: Seq<char>, query: CountQuery) -> bool {
    words(text) == query_words(query)
}

// ---------------------------------------------------------------------------
// Answers

/// What a column holds.
pub enum Cell {
    Text(Seq<char>),
    Number(int),
}

/// A row of a table: what its columns hold, by their names.
pub type TableRow = Map<Seq<char>, Cell>;

/// The rows of the tables that a query is over, by the tables' names.
pub type Tables = Map<Seq<char>, Seq<TableRow>>;

/// How two values compare.
pub open spec fn compares(left: Cell, how: Seq<char>, right: Cell) -> bool {
    if how == "="@ {
        left == right
    } else if how == "<>"@ || how == "!="@ {
        left != right
    } else {
        match (left, right) {
            (Cell::Number(a), Cell::Number(b)) => if how == "<"@ {
                a < b
            } else if how == "<="@ {
                a <= b
            } else if how == ">"@ {
                a > b
            } else if how == ">="@ {
                a >= b
            } else {
                false
            },
            _ => false,
        }
    }
}

/// What a joined row holds in a column that is named with the alias of its table.
pub open spec fn cell_of(query: CountQuery, row: TableRow, other: TableRow, column: Seq<char>) -> Cell {
    let head = query.alias.push('.');
    if column.len() >= head.len() && column.take(head.len() as int) == head {
        row[column.skip(head.len() as int)]
    } else {
        other[column.skip(query.other_alias.len() as int + 1)]
    }
}

/// A joined row counts: it is joined as the query says, and all of its conditions hold.
/// The bound values come in the order in which the query has places for them.
pub open spec fn row_counts(query: CountQuery, bound: Seq<Cell>, row: TableRow, other: TableRow) -> bool {
    let cell = |column: Seq<char>| cell_of(query, row, other, column);
    &&& compares(cell(query.on.0), query.on.1, cell(query.on.2))
    &&& compares(cell(query.must.column), query.must.how, bound[0])
    &&& exists|k: int|
        0 <= k < query.any.len() && compares(
            cell((#[trigger] query.any[k]).column),
            query.any[k].how,
            bound[1 + k],
        )
    &&& exists|k: int|
        0 <= k < query.values && cell(query.among) == #[trigger] bound[1 + query.any.len() + k]
}

/// The joined rows of a group, by their places in the two tables.
pub open spec fn in_group(
    query: CountQuery,
    tables: Tables,
    bound: Seq<Cell>,
    row: TableRow,
    i: int,
    j: int,
) -> bool {
    let rows = tables[query.table];
    let others = tables[query.other_table];
    &&& 0 <= i < rows.len()
    &&& 0 <= j < others.len()
    &&& row_counts(query, bound, rows[i], others[j])
    &&& cell_of(query, rows[i], others[j], query.group) == cell_of(
        query,
        row,
        others[j],
        query.group,
    )
}

/// The values that are counted for a group.
pub open spec fn counted_values(
    query: CountQuery,
    tables: Tables,
    bound: Seq<Cell>,
    row: TableRow,
) -> Set<Cell> {
    Set::new(
        |value: Cell|
            exists|i: int, j: int| #[trigger]
                in_group(query, tables, bound, row, i, j) && cell_of(
                    query,
                    tables[query.table][i],
                    tables[query.other_table][j],
                    query.counted,
                ) == value,
    )
}

/// The joined rows of a group.
pub open spec fn group_rows(
    query: CountQuery,
    tables: Tables,
    bound: Seq<Cell>,
    row: TableRow,
) -> Set<(int, int)> {
    Set::new(|at: (int, int)| in_group(query, tables, bound, row, at.0, at.1))
}

/// How many values a group has: how many different ones, or how many there are.
pub open spec fn count_of(query: CountQuery, tables: Tables, bound: Seq<Cell>, row: TableRow) -> int {
    if query.distinct {
        counted_values(query, tables, bound, row).len() as int
    } else {
        group_rows(query, tables, bound, row).len() as int
    }
}

/// A query selects a row: its group has rows, and their count is one that it keeps. The
/// query's first column is the one that it groups by.
pub open spec fn selects(query: CountQuery, tables: Tables, bound: Seq<Cell>, row: TableRow) -> bool {
    &&& exists|i: int, j: int| in_group(query, tables, bound, row, i, j)
    &&& query.having.column == query.count
    &&& compares(
        Cell::Number(count_of(query, tables, bound, row)),
        query.having.how,
        bound[(1 + query.any.len() + query.values) as int],
    )
}

/// A row comes before another one in an answer.
pub open spec fn comes_before(query: CountQuery, row: TableRow, other: TableRow) -> bool {
    match (cell_of(query, row, row, query.order), cell_of(query, other, other, query.order)) {
        (Cell::Number(a), Cell::Number(b)) => if query.direction == "DESC"@ {
            a > b
        } else {
            a < b
        },
        _ => false,
    }
}

/// A query answers with some rows, by their places: rows that it selects, each of them
/// once and in its order, and no more than its last bound value allows. A row that is
/// selected and left out finds no room, and comes before none that is there.
pub open spec fn is_answer(query: CountQuery, tables: Tables, bound: Seq<Cell>, places: Seq<int>) -> bool {
    let rows = tables[query.table];
    let room = bound[(2 + query.any.len() + query.values) as int];
    &&& room is Number
    &&& places.len() <= room->Number_0
    &&& places.no_duplicates()
    &&& forall|k: int|
        0 <= k < places.len() ==> 0 <= #[trigger] places[k] < rows.len() && selects(
            query,
            tables,
            bound,
            rows[places[k]],
        )
    &&& forall|k: int, l: int|
        0 <= k < l < places.len() ==> !comes_before(
            query,
            rows[#[trigger] places[l]],
            rows[#[trigger] places[k]],
        )
    &&& forall|i: int|
        0 <= i < rows.len() && #[trigger] selects(query, tables, bound, rows[i])
            && !places.contains(i) ==> places.len() == room->Number_0 && forall|k: int|
            0 <= k < places.len() ==> !comes_before(query, rows[i], rows[#[trigger] places[k]])
}

} // verus!

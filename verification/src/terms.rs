//! The terms under which a text can be found.
//!
//! A text contributes its words, lowercased, and every identifier that is joined
//! by `-`, `_` or `.`, so that `XYZ-731` is found whole and by its parts.

use crate::order::{
    ascending, insert_term, lemma_ascending_has_no_duplicates, lemma_ascending_lists_are_equal,
    views,
};
use crate::text::{chars_of, text_of, texts};
use vstd::prelude::*;

verus! {

/// Longest single term kept in the index.
pub const HISTORY_TERM_LIMIT_CHARS: usize = 64;

/// Most terms one source contributes.
pub const HISTORY_TERMS_PER_SOURCE: usize = 512;

/// Whether the standard library counts a character as a letter or a digit.
pub uninterp spec fn alphanumeric(c: char) -> bool;

/// The lowercase form that the standard library gives a character on its own.
pub uninterp spec fn lowercase_char(c: char) -> Seq<char>;

/// The lowercase form that the standard library gives a text.
pub uninterp spec fn lowercase_text(text: Seq<char>) -> Seq<char>;

/// `char::is_alphanumeric`: whether a character has the Unicode properties of a
/// letter or a number, which rests on the character alone. A space has neither.
#[verifier::external_body]
fn is_alphanumeric(c: char) -> (result: bool)
    ensures
        result == alphanumeric(c),
        c == ' ' ==> !result,
{
    c.is_alphanumeric()
}

/// `char::to_lowercase`: the characters of a character's lowercase form, which
/// rests on the character alone. There is at least one.
#[verifier::external_body]
fn lowered_char(c: char) -> (lower: Vec<char>)
    ensures
        lower@ == lowercase_char(c),
        lower@.len() > 0,
{
    c.to_lowercase().collect()
}

/// `str::to_lowercase`: the lowercase form of a whole text, in which the form of
/// a character may depend on where it stands. It rests on the text alone.
#[verifier::external_body]
fn lowered_text(text: &str) -> (lower: String)
    ensures
        lower@ == lowercase_text(text@),
{
    text.to_lowercase()
}

// ---------------------------------------------------------------------------
// Runs

/// The characters that join identifiers.
pub open spec fn is_joiner(c: char) -> bool {
    c == '-' || c == '_' || c == '.'
}

/// The characters that an identifier is made of.
pub open spec fn is_joinable(c: char) -> bool {
    alphanumeric(c) || is_joiner(c)
}

/// The characters that words are made of.
pub open spec fn letters() -> spec_fn(char) -> bool {
    |c: char| alphanumeric(c)
}

/// The characters that identifiers are made of.
pub open spec fn identifier_chars() -> spec_fn(char) -> bool {
    |c: char| is_joinable(c)
}

/// The characters that are cut from the ends of an identifier.
pub open spec fn joiners() -> spec_fn(char) -> bool {
    |c: char| is_joiner(c)
}

/// A stretch of a text whose characters all belong, and that cannot be made
/// longer at either end.
pub open spec fn is_run(text: Seq<char>, belongs: spec_fn(char) -> bool, from: int, to: int) -> bool {
    &&& 0 <= from < to <= text.len()
    &&& forall|i: int| from <= i < to ==> belongs(#[trigger] text[i])
    &&& from == 0 || !belongs(text[from - 1])
    &&& to == text.len() || !belongs(text[to])
}

/// The lowercase forms of some characters, one behind the other.
pub open spec fn lowered(chars: Seq<char>) -> Seq<char>
    decreases chars.len(),
{
    if chars.len() == 0 {
        seq![]
    } else {
        lowered(chars.drop_last()) + lowercase_char(chars.last())
    }
}

/// The characters from the first one on that does not belong.
pub open spec fn trim_start(chars: Seq<char>, belongs: spec_fn(char) -> bool) -> Seq<char>
    decreases chars.len(),
{
    if chars.len() > 0 && belongs(chars[0]) {
        trim_start(chars.drop_first(), belongs)
    } else {
        chars
    }
}

/// The characters up to the last one that does not belong.
pub open spec fn trim_end(chars: Seq<char>, belongs: spec_fn(char) -> bool) -> Seq<char>
    decreases chars.len(),
{
    if chars.len() > 0 && belongs(chars.last()) {
        trim_end(chars.drop_last(), belongs)
    } else {
        chars
    }
}

/// The characters without the ones at both ends that belong.
pub open spec fn trimmed(chars: Seq<char>, belongs: spec_fn(char) -> bool) -> Seq<char> {
    trim_end(trim_start(chars, belongs), belongs)
}

/// A word of a text: a run of letters and digits, lowercased.
pub open spec fn word_at(text: Seq<char>, from: int, to: int) -> Seq<char> {
    lowered(text.subrange(from, to))
}

/// A term is a word of a text whose run ends no later than a place.
pub open spec fn is_word_before(text: Seq<char>, end: int, term: Seq<char>) -> bool {
    term.len() > 0 && exists|from: int, to: int| #[trigger]
        is_run(text, letters(), from, to) && to <= end && term == word_at(
            text,
            from,
            to,
        )
}

/// A joined identifier of a text: a run of letters, digits and joiners without
/// the joiners at its ends, lowercased.
pub open spec fn identifier_at(text: Seq<char>, from: int, to: int) -> Seq<char> {
    lowercase_text(trimmed(text.subrange(from, to), joiners()))
}

/// Some character of a term is neither a letter nor a digit.
pub open spec fn is_joined(term: Seq<char>) -> bool {
    exists|i: int| 0 <= i < term.len() && !alphanumeric(#[trigger] term[i])
}

/// A term is a joined identifier of a text whose run ends no later than a place.
pub open spec fn is_identifier_before(text: Seq<char>, end: int, term: Seq<char>) -> bool {
    is_joined(term) && exists|from: int, to: int| #[trigger]
        is_run(text, identifier_chars(), from, to) && to <= end && term == identifier_at(
            text,
            from,
            to,
        )
}

/// A text has a term.
pub open spec fn has_term(text: Seq<char>, term: Seq<char>) -> bool {
    is_word_before(text, text.len() as int, term) || is_identifier_before(
        text,
        text.len() as int,
        term,
    )
}

// ---------------------------------------------------------------------------
// Finding the terms

/// The end of the run of letters and digits that starts at a place, and its
/// lowercase form.
fn word_from(chars: &Vec<char>, from: usize) -> (found: (usize, Vec<char>))
    requires
        from < chars.len(),
        alphanumeric(chars@[from as int]),
        from == 0 || !alphanumeric(chars@[from - 1]),
    ensures
        is_run(chars@, letters(), from as int, found.0 as int),
        found.1@ == word_at(chars@, from as int, found.0 as int),
        found.1@.len() > 0,
{
    let mut word: Vec<char> = Vec::new();
    let mut to: usize = from;
    assert(word@ =~= lowered(chars@.subrange(from as int, to as int)));
    while to < chars.len() && is_alphanumeric(chars[to])
        invariant
            from <= to <= chars.len(),
            from < chars.len(),
            alphanumeric(chars@[from as int]),
            forall|i: int| from <= i < to ==> alphanumeric(#[trigger] chars@[i]),
            word@ == lowered(chars@.subrange(from as int, to as int)),
            from < to ==> word@.len() > 0,
        decreases chars.len() - to,
    {
        let mut lower: Vec<char> = lowered_char(chars[to]);
        proof {
            let next = chars@.subrange(from as int, to + 1);
            assert(next.drop_last() =~= chars@.subrange(from as int, to as int));
            assert(next.last() == chars@[to as int]);
        }
        word.append(&mut lower);
        to += 1;
    }
    (to, word)
}

/// A run that starts behind a place with a character that does not belong ends
/// where its first character that does not belong stands.
proof fn lemma_runs_do_not_overlap(
    text: Seq<char>,
    belongs: spec_fn(char) -> bool,
    from: int,
    to: int,
    other_from: int,
    other_to: int,
)
    requires
        is_run(text, belongs, from, to),
        is_run(text, belongs, other_from, other_to),
        from < other_to <= to,
    ensures
        other_from == from,
        other_to == to,
{
    if other_to < to {
        assert(belongs(text[other_to]));
    }
    if other_from < from {
        assert(belongs(text[from - 1]));
    }
    if from < other_from {
        assert(belongs(text[other_from - 1]));
    }
}

/// A text has a letter or a digit.
pub open spec fn has_letter(text: Seq<char>) -> bool {
    exists|i: int| 0 <= i < text.len() && alphanumeric(#[trigger] text[i])
}

/// Adds the words of a text.
fn add_words(chars: &Vec<char>, list: &mut Vec<Vec<char>>)
    requires
        ascending(views(old(list)@)),
    ensures
        ascending(views(final(list)@)),
        forall|t: Seq<char>| #[trigger]
            views(final(list)@).contains(t) <==> (views(old(list)@).contains(t) || is_word_before(
                chars@,
                chars@.len() as int,
                t,
            )),
        has_letter(chars@) ==> final(list)@.len() > 0,
{
    let ghost before = views(list@);
    let ghost belongs = letters();
    let mut i: usize = 0;
    while i < chars.len()
        invariant
            i <= chars.len(),
            belongs == letters(),
            i == 0 || i == chars.len() || !alphanumeric(chars@[i - 1]) || !alphanumeric(
                chars@[i as int],
            ),
            ascending(views(list@)),
            forall|t: Seq<char>| #[trigger]
                views(list@).contains(t) <==> (before.contains(t) || is_word_before(
                    chars@,
                    i as int,
                    t,
                )),
            forall|j: int| 0 <= j < i && alphanumeric(#[trigger] chars@[j]) ==> list@.len() > 0,
        decreases chars.len() - i,
    {
        let ghost known = views(list@);
        let start: usize = i;
        if is_alphanumeric(chars[i]) {
            let (to, word): (usize, Vec<char>) = word_from(chars, i);
            let ghost value = word@;
            insert_term(list, word);
            i = to;
            proof {
                assert(views(list@).contains(value));
                assert(views(list@).len() == list@.len());
                assert(is_run(chars@, belongs, start as int, to as int));
                assert forall|t: Seq<char>| #[trigger]
                    views(list@).contains(t) <==> (before.contains(t) || is_word_before(
                        chars@,
                        to as int,
                        t,
                    )) by {
                    assert(known.contains(t) <==> (before.contains(t) || is_word_before(
                        chars@,
                        start as int,
                        t,
                    )));
                    if is_word_before(chars@, to as int, t) && !is_word_before(
                        chars@,
                        start as int,
                        t,
                    ) {
                        let (a, b) = choose|a: int, b: int| #[trigger]
                            is_run(chars@, belongs, a, b) && b <= to && t == word_at(chars@, a, b);
                        if b <= start {
                            assert(is_word_before(chars@, start as int, t));
                        }
                        lemma_runs_do_not_overlap(chars@, belongs, start as int, to as int, a, b);
                        assert(t == value);
                    }
                    if is_word_before(chars@, start as int, t) {
                        let (a, b) = choose|a: int, b: int| #[trigger]
                            is_run(chars@, belongs, a, b) && b <= start && t == word_at(
                                chars@,
                                a,
                                b,
                            );
                        assert(is_run(chars@, belongs, a, b) && b <= to);
                        assert(is_word_before(chars@, to as int, t));
                    }
                    if t == value && value.len() > 0 {
                        assert(is_run(chars@, belongs, start as int, to as int) && to <= to);
                        assert(is_word_before(chars@, to as int, t));
                    }
                }
            }
        } else {
            i += 1;
            proof {
                assert forall|t: Seq<char>|
                    is_word_before(chars@, i as int, t) <==> #[trigger] is_word_before(
                        chars@,
                        start as int,
                        t,
                    ) by {
                    if is_word_before(chars@, i as int, t) {
                        let (a, b) = choose|a: int, b: int| #[trigger]
                            is_run(chars@, belongs, a, b) && b <= i && t == word_at(chars@, a, b);
                        if b == i {
                            assert(belongs(chars@[b - 1]));
                        }
                        assert(is_run(chars@, belongs, a, b) && b <= start);
                    }
                    if is_word_before(chars@, start as int, t) {
                        let (a, b) = choose|a: int, b: int| #[trigger]
                            is_run(chars@, belongs, a, b) && b <= start && t == word_at(
                                chars@,
                                a,
                                b,
                            );
                        assert(is_run(chars@, belongs, a, b) && b <= i);
                    }
                }
                assert forall|t: Seq<char>| #[trigger]
                    views(list@).contains(t) <==> (before.contains(t) || is_word_before(
                        chars@,
                        i as int,
                        t,
                    )) by {
                    assert(is_word_before(chars@, i as int, t) <==> is_word_before(
                        chars@,
                        start as int,
                        t,
                    ));
                }
            }
        }
    }
}

fn joinable(c: char) -> (result: bool)
    ensures
        result == is_joinable(c),
{
    is_alphanumeric(c) || c == '-' || c == '_' || c == '.'
}

fn joiner(c: char) -> (result: bool)
    ensures
        result == is_joiner(c),
{
    c == '-' || c == '_' || c == '.'
}

/// The characters of a stretch.
fn stretch(chars: &Vec<char>, from: usize, to: usize) -> (part: Vec<char>)
    requires
        from <= to <= chars.len(),
    ensures
        part@ == chars@.subrange(from as int, to as int),
{
    let mut part: Vec<char> = Vec::new();
    let mut i: usize = from;
    while i < to
        invariant
            from <= i <= to <= chars.len(),
            part@ == chars@.subrange(from as int, i as int),
        decreases to - i,
    {
        part.push(chars[i]);
        assert(part@ =~= chars@.subrange(from as int, i + 1));
        i += 1;
    }
    part
}

/// The identifier in a stretch of a text.
fn identifier(chars: &Vec<char>, from: usize, to: usize) -> (term: Vec<char>)
    requires
        from <= to <= chars.len(),
    ensures
        term@ == identifier_at(chars@, from as int, to as int),
{
    let ghost belongs = joiners();
    let ghost whole = chars@.subrange(from as int, to as int);
    let mut low: usize = from;
    while low < to && joiner(chars[low])
        invariant
            from <= low <= to <= chars.len(),
            belongs == joiners(),
            whole == chars@.subrange(from as int, to as int),
            trim_start(whole, belongs) == trim_start(
                chars@.subrange(low as int, to as int),
                belongs,
            ),
        decreases to - low,
    {
        assert(chars@.subrange(low as int, to as int).drop_first() =~= chars@.subrange(
            low + 1,
            to as int,
        ));
        low += 1;
    }
    let ghost rest = chars@.subrange(low as int, to as int);
    assert(trim_start(whole, belongs) == rest);
    let mut high: usize = to;
    while high > low && joiner(chars[high - 1])
        invariant
            low <= high <= to <= chars.len(),
            belongs == joiners(),
            rest == chars@.subrange(low as int, to as int),
            trim_end(rest, belongs) == trim_end(
                chars@.subrange(low as int, high as int),
                belongs,
            ),
        decreases high - low,
    {
        assert(chars@.subrange(low as int, high as int).drop_last() =~= chars@.subrange(
            low as int,
            high - 1,
        ));
        high -= 1;
    }
    let part: Vec<char> = stretch(chars, low, high);
    assert(trimmed(whole, belongs) == part@);
    let text: String = text_of(&part);
    let lower: String = lowered_text(text.as_str());
    chars_of(lower.as_str())
}

fn joined(term: &Vec<char>) -> (result: bool)
    ensures
        result == is_joined(term@),
{
    let mut i: usize = 0;
    while i < term.len()
        invariant
            i <= term.len(),
            forall|j: int| 0 <= j < i ==> alphanumeric(#[trigger] term@[j]),
        decreases term.len() - i,
    {
        if !is_alphanumeric(term[i]) {
            assert(!alphanumeric(term@[i as int]));
            return true;
        }
        i += 1;
    }
    false
}

/// The end of the run of identifier characters that starts at a place.
fn identifier_end(chars: &Vec<char>, from: usize) -> (to: usize)
    requires
        from < chars.len(),
        is_joinable(chars@[from as int]),
        from == 0 || !is_joinable(chars@[from - 1]),
    ensures
        is_run(chars@, identifier_chars(), from as int, to as int),
{
    let mut to: usize = from;
    while to < chars.len() && joinable(chars[to])
        invariant
            from <= to <= chars.len(),
            from < chars.len(),
            is_joinable(chars@[from as int]),
            forall|i: int| from <= i < to ==> is_joinable(#[trigger] chars@[i]),
        decreases chars.len() - to,
    {
        to += 1;
    }
    to
}

/// Adds the joined identifiers of a text.
fn add_identifiers(chars: &Vec<char>, list: &mut Vec<Vec<char>>)
    requires
        ascending(views(old(list)@)),
    ensures
        ascending(views(final(list)@)),
        forall|t: Seq<char>| #[trigger]
            views(final(list)@).contains(t) <==> (views(old(list)@).contains(t)
                || is_identifier_before(chars@, chars@.len() as int, t)),
{
    let ghost before = views(list@);
    let ghost belongs = identifier_chars();
    let mut i: usize = 0;
    while i < chars.len()
        invariant
            i <= chars.len(),
            belongs == identifier_chars(),
            i == 0 || i == chars.len() || !is_joinable(chars@[i - 1]) || !is_joinable(
                chars@[i as int],
            ),
            ascending(views(list@)),
            forall|t: Seq<char>| #[trigger]
                views(list@).contains(t) <==> (before.contains(t) || is_identifier_before(
                    chars@,
                    i as int,
                    t,
                )),
        decreases chars.len() - i,
    {
        let ghost known = views(list@);
        let start: usize = i;
        if joinable(chars[i]) {
            let to: usize = identifier_end(chars, i);
            let term: Vec<char> = identifier(chars, i, to);
            let ghost value = term@;
            if joined(&term) {
                insert_term(list, term);
            }
            i = to;
            proof {
                assert(is_run(chars@, belongs, start as int, to as int));
                assert forall|t: Seq<char>| #[trigger]
                    views(list@).contains(t) <==> (before.contains(t) || is_identifier_before(
                        chars@,
                        to as int,
                        t,
                    )) by {
                    assert(known.contains(t) <==> (before.contains(t) || is_identifier_before(
                        chars@,
                        start as int,
                        t,
                    )));
                    if is_identifier_before(chars@, to as int, t) && !is_identifier_before(
                        chars@,
                        start as int,
                        t,
                    ) {
                        let (a, b) = choose|a: int, b: int| #[trigger]
                            is_run(chars@, belongs, a, b) && b <= to && t == identifier_at(
                                chars@,
                                a,
                                b,
                            );
                        if b <= start {
                            assert(is_identifier_before(chars@, start as int, t));
                        }
                        lemma_runs_do_not_overlap(chars@, belongs, start as int, to as int, a, b);
                        assert(t == value);
                    }
                    if is_identifier_before(chars@, start as int, t) {
                        let (a, b) = choose|a: int, b: int| #[trigger]
                            is_run(chars@, belongs, a, b) && b <= start && t == identifier_at(
                                chars@,
                                a,
                                b,
                            );
                        assert(is_run(chars@, belongs, a, b) && b <= to);
                        assert(is_identifier_before(chars@, to as int, t));
                    }
                    if t == value && is_joined(value) {
                        assert(is_run(chars@, belongs, start as int, to as int) && to <= to);
                        assert(is_identifier_before(chars@, to as int, t));
                    }
                }
            }
        } else {
            i += 1;
            proof {
                assert forall|t: Seq<char>| #[trigger]
                    views(list@).contains(t) <==> (before.contains(t) || is_identifier_before(
                        chars@,
                        i as int,
                        t,
                    )) by {
                    if is_identifier_before(chars@, i as int, t) {
                        let (a, b) = choose|a: int, b: int| #[trigger]
                            is_run(chars@, belongs, a, b) && b <= i && t == identifier_at(
                                chars@,
                                a,
                                b,
                            );
                        if b == i {
                            assert(belongs(chars@[b - 1]));
                        }
                        assert(is_run(chars@, belongs, a, b) && b <= start);
                        assert(is_identifier_before(chars@, start as int, t));
                    }
                    if is_identifier_before(chars@, start as int, t) {
                        let (a, b) = choose|a: int, b: int| #[trigger]
                            is_run(chars@, belongs, a, b) && b <= start && t == identifier_at(
                                chars@,
                                a,
                                b,
                            );
                        assert(is_run(chars@, belongs, a, b) && b <= i);
                        assert(is_identifier_before(chars@, i as int, t));
                    }
                }
            }
        }
    }
}

/// A list holds all terms of a text, in ascending order and each of them once.
pub open spec fn all_terms(text: Seq<char>, list: Seq<Seq<char>>) -> bool {
    &&& ascending(list)
    &&& forall|term: Seq<char>| #[trigger] list.contains(term) <==> has_term(text, term)
}

/// A term as it is kept: no longer than the limit.
pub open spec fn kept(term: Seq<char>) -> Seq<char> {
    if term.len() > HISTORY_TERM_LIMIT_CHARS {
        term.take(HISTORY_TERM_LIMIT_CHARS as int)
    } else {
        term
    }
}

/// The terms as they are kept: no more than one source may contribute, and each
/// no longer than the limit.
pub open spec fn kept_terms(list: Seq<Seq<char>>) -> Seq<Seq<char>> {
    let count = if list.len() > HISTORY_TERMS_PER_SOURCE {
        HISTORY_TERMS_PER_SOURCE as int
    } else {
        list.len() as int
    };
    list.take(count).map_values(|term: Seq<char>| kept(term))
}

/// The terms that the index keeps for a text: the first of all its terms in
/// ascending order, each one cut to the limit. A space always ends an identifier, and a
/// text with a letter or a digit has a term.
#[must_use]
pub fn history_terms(text: &str) -> (terms: Vec<String>)
    ensures
        exists|list: Seq<Seq<char>>| #[trigger]
            all_terms(text@, list) && texts(terms@) == kept_terms(list),
        !is_joinable(' '),
        has_letter(text@) ==> terms@.len() > 0,
        forall|k: int| 0 <= k < terms@.len() ==> (#[trigger] terms@[k])@.len() > 0,
{
    let chars: Vec<char> = chars_of(text);
    let space: bool = is_alphanumeric(' ');
    assert(!space && !is_joinable(' '));
    let mut list: Vec<Vec<char>> = Vec::new();
    assert(views(list@) =~= seq![]);
    add_words(&chars, &mut list);
    let ghost words = views(list@);
    add_identifiers(&chars, &mut list);
    let ghost all = views(list@);
    assert(all_terms(text@, all));
    proof {
        if has_letter(text@) {
            assert(words.contains(words[0]));
            assert(all.contains(words[0]));
        }
        assert forall|k: int| 0 <= k < all.len() implies #[trigger] all[k].len() > 0 by {
            assert(all.contains(all[k]));
            assert(has_term(text@, all[k]));
        }
    }
    let count: usize = if list.len() > HISTORY_TERMS_PER_SOURCE {
        HISTORY_TERMS_PER_SOURCE
    } else {
        list.len()
    };
    let mut terms: Vec<String> = Vec::new();
    let mut i: usize = 0;
    while i < count
        invariant
            i <= count <= list.len(),
            all == views(list@),
            texts(terms@) == all.take(i as int).map_values(|term: Seq<char>| kept(term)),
            forall|k: int| 0 <= k < all.len() ==> #[trigger] all[k].len() > 0,
            forall|k: int| 0 <= k < i ==> (#[trigger] terms@[k])@.len() > 0,
            terms@.len() == i,
        decreases count - i,
    {
        let ghost before = terms@;
        let length: usize = if list[i].len() > HISTORY_TERM_LIMIT_CHARS {
            HISTORY_TERM_LIMIT_CHARS
        } else {
            list[i].len()
        };
        let part: Vec<char> = stretch(&list[i], 0, length);
        proof {
            assert(all[i as int] == list@[i as int]@);
            assert(part@ =~= kept(all[i as int]));
        }
        terms.push(text_of(&part));
        proof {
            assert(texts(terms@) =~= texts(before).push(kept(all[i as int])));
            assert(texts(terms@) =~= all.take(i + 1).map_values(|term: Seq<char>| kept(term)));
        }
        i += 1;
    }
    assert(texts(terms@) == kept_terms(all));
    terms
}

/// The terms of a text are settled by the text alone: two lists of all its terms
/// are the same list, so the index does not depend on when it was written.
pub proof fn law_terms_are_determined(text: Seq<char>, a: Seq<Seq<char>>, b: Seq<Seq<char>>)
    requires
        all_terms(text, a),
        all_terms(text, b),
    ensures
        a == b,
    decreases a.len(),
{
    lemma_ascending_lists_are_equal(a, b);
}

/// Two texts with a character between them.
pub open spec fn apart(a: Seq<char>, separator: char, b: Seq<char>) -> Seq<char> {
    a.push(separator) + b
}

/// A run of two texts apart lies in one of them, and the runs of either are runs of
/// both.
proof fn lemma_runs_apart(
    a: Seq<char>,
    separator: char,
    b: Seq<char>,
    belongs: spec_fn(char) -> bool,
    from: int,
    to: int,
)
    requires
        !belongs(separator),
    ensures
        is_run(apart(a, separator, b), belongs, from, to) ==> to <= a.len() || a.len() < from,
        to <= a.len() ==> (is_run(apart(a, separator, b), belongs, from, to) <==> is_run(
            a,
            belongs,
            from,
            to,
        )),
        a.len() < from ==> (is_run(apart(a, separator, b), belongs, from, to) <==> is_run(
            b,
            belongs,
            from - a.len() - 1,
            to - a.len() - 1,
        )),
        0 <= from <= to <= a.len() ==> apart(a, separator, b).subrange(from, to) == a.subrange(
            from,
            to,
        ),
        a.len() < from <= to <= apart(a, separator, b).len() ==> apart(a, separator, b).subrange(
            from,
            to,
        ) == b.subrange(from - a.len() - 1, to - a.len() - 1),
{
    let whole = apart(a, separator, b);
    let n = a.len() as int;
    assert(whole[n] == separator);
    assert(whole.len() == n + 1 + b.len());
    assert forall|i: int| 0 <= i < n implies #[trigger] whole[i] == a[i] by {}
    assert forall|i: int| 0 <= i < b.len() implies #[trigger] whole[n + 1 + i] == b[i] by {}
    if is_run(whole, belongs, from, to) && from <= n && n < to {
        assert(belongs(whole[n]));
    }
    if to <= n {
        if is_run(whole, belongs, from, to) {
            assert forall|i: int| from <= i < to implies belongs(#[trigger] a[i]) by {
                assert(belongs(whole[i]));
            }
            assert(is_run(a, belongs, from, to));
        }
        if is_run(a, belongs, from, to) {
            assert forall|i: int| from <= i < to implies belongs(#[trigger] whole[i]) by {
                assert(belongs(a[i]));
            }
            assert(is_run(whole, belongs, from, to));
        }
        if 0 <= from <= to {
            assert(whole.subrange(from, to) =~= a.subrange(from, to));
        }
    }
    if n < from {
        let f = from - n - 1;
        let t = to - n - 1;
        if is_run(whole, belongs, from, to) {
            assert forall|i: int| f <= i < t implies belongs(#[trigger] b[i]) by {
                assert(belongs(whole[n + 1 + i]));
            }
            if f > 0 {
                assert(whole[from - 1] == b[f - 1]);
            }
            if t < b.len() {
                assert(whole[to] == b[t]);
            }
            assert(is_run(b, belongs, f, t));
        }
        if is_run(b, belongs, f, t) {
            assert forall|i: int| from <= i < to implies belongs(#[trigger] whole[i]) by {
                assert(belongs(b[i - n - 1]));
                assert(whole[n + 1 + (i - n - 1)] == b[i - n - 1]);
            }
            if f > 0 {
                assert(whole[from - 1] == b[f - 1]);
            }
            if t < b.len() {
                assert(whole[to] == b[t]);
            }
            assert(is_run(whole, belongs, from, to));
        }
        if from <= to <= whole.len() {
            assert(whole.subrange(from, to) =~= b.subrange(f, t));
        }
    }
}

/// The terms of two texts apart are the terms of both.
proof fn lemma_terms_apart(a: Seq<char>, separator: char, b: Seq<char>, term: Seq<char>)
    requires
        !is_joinable(separator),
    ensures
        has_term(apart(a, separator, b), term) <==> has_term(a, term) || has_term(b, term),
{
    let whole = apart(a, separator, b);
    let n = a.len() as int;
    let end = whole.len() as int;
    assert(end == n + 1 + b.len());
    let words = letters();
    let names = identifier_chars();
    if is_word_before(whole, end, term) {
        let (from, to) = choose|from: int, to: int| #[trigger]
            is_run(whole, words, from, to) && to <= end && term == word_at(whole, from, to);
        lemma_runs_apart(a, separator, b, words, from, to);
        if to <= n {
            assert(is_run(a, words, from, to) && to <= n && term == word_at(a, from, to));
            assert(is_word_before(a, n, term));
        } else {
            let f = from - n - 1;
            let t = to - n - 1;
            assert(is_run(b, words, f, t) && t <= b.len() && term == word_at(b, f, t));
            assert(is_word_before(b, b.len() as int, term));
        }
    }
    if is_identifier_before(whole, end, term) {
        let (from, to) = choose|from: int, to: int| #[trigger]
            is_run(whole, names, from, to) && to <= end && term == identifier_at(whole, from, to);
        lemma_runs_apart(a, separator, b, names, from, to);
        if to <= n {
            assert(is_run(a, names, from, to) && to <= n && term == identifier_at(a, from, to));
            assert(is_identifier_before(a, n, term));
        } else {
            let f = from - n - 1;
            let t = to - n - 1;
            assert(is_run(b, names, f, t) && t <= b.len() && term == identifier_at(b, f, t));
            assert(is_identifier_before(b, b.len() as int, term));
        }
    }
    if is_word_before(a, n, term) {
        let (from, to) = choose|from: int, to: int| #[trigger]
            is_run(a, words, from, to) && to <= n && term == word_at(a, from, to);
        lemma_runs_apart(a, separator, b, words, from, to);
        assert(is_run(whole, words, from, to) && to <= end && term == word_at(whole, from, to));
    }
    if is_identifier_before(a, n, term) {
        let (from, to) = choose|from: int, to: int| #[trigger]
            is_run(a, names, from, to) && to <= n && term == identifier_at(a, from, to);
        lemma_runs_apart(a, separator, b, names, from, to);
        assert(is_run(whole, names, from, to) && to <= end && term == identifier_at(
            whole,
            from,
            to,
        ));
    }
    if is_word_before(b, b.len() as int, term) {
        let (f, t) = choose|f: int, t: int| #[trigger]
            is_run(b, words, f, t) && t <= b.len() && term == word_at(b, f, t);
        lemma_runs_apart(a, separator, b, words, f + n + 1, t + n + 1);
        assert(is_run(whole, words, f + n + 1, t + n + 1) && t + n + 1 <= end && term == word_at(
            whole,
            f + n + 1,
            t + n + 1,
        ));
    }
    if is_identifier_before(b, b.len() as int, term) {
        let (f, t) = choose|f: int, t: int| #[trigger]
            is_run(b, names, f, t) && t <= b.len() && term == identifier_at(b, f, t);
        lemma_runs_apart(a, separator, b, names, f + n + 1, t + n + 1);
        assert(is_run(whole, names, f + n + 1, t + n + 1) && t + n + 1 <= end && term
            == identifier_at(whole, f + n + 1, t + n + 1));
    }
}

/// A list whose texts are all in another one is no longer than it.
proof fn lemma_part_is_no_longer(part: Seq<Seq<char>>, whole: Seq<Seq<char>>)
    requires
        ascending(part),
        forall|term: Seq<char>| #[trigger] part.contains(term) ==> whole.contains(term),
    ensures
        part.len() <= whole.len(),
{
    lemma_ascending_has_no_duplicates(part);
    assert forall|term: Seq<char>| part.to_set().contains(term) implies whole.to_set().contains(
        term,
    ) by {
        assert(part.contains(term));
        assert(whole.contains(term));
    }
    part.unique_seq_to_set();
    whole.lemma_cardinality_of_set();
    vstd::set_lib::lemma_len_subset(part.to_set(), whole.to_set());
}

/// What is kept of a list that is not too long is every one of its terms, as it is
/// kept.
proof fn lemma_kept_of_short_list(list: Seq<Seq<char>>, term: Seq<char>)
    requires
        list.len() <= HISTORY_TERMS_PER_SOURCE,
    ensures
        kept_terms(list).contains(term) <==> exists|whole: Seq<char>| #[trigger]
            list.contains(whole) && kept(whole) == term,
{
    assert(list.take(list.len() as int) =~= list);
    if kept_terms(list).contains(term) {
        let k = choose|k: int| 0 <= k < kept_terms(list).len() && kept_terms(list)[k] == term;
        assert(list.contains(list[k]) && kept(list[k]) == term);
    }
    if exists|whole: Seq<char>| #[trigger] list.contains(whole) && kept(whole) == term {
        let whole = choose|whole: Seq<char>| #[trigger] list.contains(whole) && kept(whole) == term;
        let k = choose|k: int| 0 <= k < list.len() && list[k] == whole;
        assert(kept_terms(list)[k] == term);
    }
}

/// The terms of two texts with a character between them that no identifier holds,
/// such as a space, are the terms of both, so neither the order nor the repetition
/// of words matters. That a space is one stands in the contract of `history_terms`.
/// `all` are the terms of both together, of which there are no more
/// than one source may contribute.
pub proof fn law_terms_of_parts_are_terms_of_the_whole(
    a: Seq<char>,
    separator: char,
    b: Seq<char>,
    of_a: Seq<Seq<char>>,
    of_b: Seq<Seq<char>>,
    all: Seq<Seq<char>>,
    term: Seq<char>,
)
    requires
        !is_joinable(separator),
        all_terms(a, of_a),
        all_terms(b, of_b),
        all_terms(apart(a, separator, b), all),
        all.len() <= HISTORY_TERMS_PER_SOURCE,
    ensures
        all.contains(term) <==> of_a.contains(term) || of_b.contains(term),
        kept_terms(all).contains(term) <==> kept_terms(of_a).contains(term) || kept_terms(
            of_b,
        ).contains(term),
{
    assert forall|other: Seq<char>| #[trigger] of_a.contains(other) implies all.contains(other) by {
        lemma_terms_apart(a, separator, b, other);
    }
    assert forall|other: Seq<char>| #[trigger] of_b.contains(other) implies all.contains(other) by {
        lemma_terms_apart(a, separator, b, other);
    }
    assert forall|other: Seq<char>| #[trigger] all.contains(other) implies of_a.contains(other)
        || of_b.contains(other) by {
        lemma_terms_apart(a, separator, b, other);
    }
    lemma_part_is_no_longer(of_a, all);
    lemma_part_is_no_longer(of_b, all);
    lemma_kept_of_short_list(all, term);
    lemma_kept_of_short_list(of_a, term);
    lemma_kept_of_short_list(of_b, term);
}

/// Each longest stretch of letters and digits is a term in lower case. So is each longest
/// stretch of letters, digits, hyphens, underscores and dots, without the joiners at its
/// ends, where it has a joiner in it. Nothing else is a term.
pub proof fn law_terms_are_words_and_identifiers(text: Seq<char>, term: Seq<char>, from: int, to: int)
    ensures
        0 <= from < to <= text.len() && (forall|i: int|
            from <= i < to ==> alphanumeric(#[trigger] text[i])) && (from == 0 || !alphanumeric(
            text[from - 1],
        )) && (to == text.len() || !alphanumeric(text[to])) && lowered(
            text.subrange(from, to),
        ).len() > 0 ==> has_term(text, lowered(text.subrange(from, to))),
        0 <= from < to <= text.len() && (forall|i: int|
            from <= i < to ==> alphanumeric(#[trigger] text[i]) || text[i] == '-' || text[i] == '_'
                || text[i] == '.') && (from == 0 || (!alphanumeric(text[from - 1]) && text[from - 1]
            != '-' && text[from - 1] != '_' && text[from - 1] != '.')) && (to == text.len() || (
        !alphanumeric(text[to]) && text[to] != '-' && text[to] != '_' && text[to] != '.'))
            && is_joined(lowercase_text(trimmed(text.subrange(from, to), joiners()))) ==> has_term(
            text,
            lowercase_text(trimmed(text.subrange(from, to), joiners())),
        ),
        has_term(text, term) ==> {
            ||| exists|a: int, b: int|
                0 <= a < b <= text.len() && (forall|i: int|
                    a <= i < b ==> alphanumeric(#[trigger] text[i])) && (a == 0 || !alphanumeric(
                    text[a - 1],
                )) && (b == text.len() || !alphanumeric(text[b])) && term == lowered(
                    #[trigger] text.subrange(a, b),
                )
            ||| is_joined(term) && exists|a: int, b: int|
                0 <= a < b <= text.len() && (forall|i: int|
                    a <= i < b ==> alphanumeric(#[trigger] text[i]) || text[i] == '-' || text[i]
                        == '_' || text[i] == '.') && term == lowercase_text(
                    trimmed(#[trigger] text.subrange(a, b), joiners()),
                )
        },
        is_joined(term) <==> exists|i: int| 0 <= i < term.len() && !alphanumeric(#[trigger] term[i]),
{
    if is_run(text, letters(), from, to) && lowered(text.subrange(from, to)).len() > 0 {
        assert(is_word_before(text, text.len() as int, lowered(text.subrange(from, to))));
    }
    if is_run(text, identifier_chars(), from, to) && is_joined(
        lowercase_text(trimmed(text.subrange(from, to), joiners())),
    ) {
        assert(is_identifier_before(
            text,
            text.len() as int,
            lowercase_text(trimmed(text.subrange(from, to), joiners())),
        ));
    }
    if has_term(text, term) {
        if is_word_before(text, text.len() as int, term) {
            let (a, b) = choose|a: int, b: int| #[trigger]
                is_run(text, letters(), a, b) && b <= text.len() && term == word_at(text, a, b);
            assert(forall|i: int| a <= i < b ==> letters()(#[trigger] text[i]));
            assert(term == lowered(text.subrange(a, b)));
        } else {
            let (a, b) = choose|a: int, b: int| #[trigger]
                is_run(text, identifier_chars(), a, b) && b <= text.len() && term
                    == identifier_at(text, a, b);
            assert(forall|i: int| a <= i < b ==> identifier_chars()(#[trigger] text[i]));
            assert(term == lowercase_text(trimmed(text.subrange(a, b), joiners())));
        }
    }
}

/// Lower case is taken character by character.
pub proof fn law_lower_case_is_taken_character_by_character(a: Seq<char>, b: Seq<char>, c: char)
    ensures
        lowered(seq![]) == Seq::<char>::empty(),
        lowered(seq![c]) == lowercase_char(c),
        lowered(a + b) == lowered(a) + lowered(b),
    decreases b.len(),
{
    reveal_with_fuel(lowered, 2);
    assert(seq![c].drop_last() =~= seq![]);
    assert(lowered(seq![c]) =~= lowercase_char(c));
    if b.len() == 0 {
        assert(a + b =~= a);
        assert(lowered(a) + lowered(b) =~= lowered(a));
    } else {
        law_lower_case_is_taken_character_by_character(a, b.drop_last(), c);
        assert((a + b).drop_last() =~= a + b.drop_last());
        assert((a + b).last() == b.last());
        assert(lowered(a + b) =~= lowered(a) + lowered(b));
    }
}

/// What is trimmed is a stretch of the text that neither begins nor ends with a character that
/// belongs, and every character before and behind it belongs.
pub proof fn law_trimming_takes_off_both_ends(chars: Seq<char>, belongs: spec_fn(char) -> bool)
    ensures
        ({
            let rest = trimmed(chars, belongs);
            &&& rest.len() > 0 ==> !belongs(rest[0]) && !belongs(rest.last())
            &&& exists|from: int|
                0 <= from && from + rest.len() <= chars.len() && #[trigger] chars.subrange(
                    from,
                    from + rest.len(),
                ) == rest && (forall|i: int| 0 <= i < from ==> belongs(#[trigger] chars[i])) && (
                forall|i: int|
                    from + rest.len() <= i < chars.len() ==> belongs(#[trigger] chars[i]))
        }),
{
    let front = trim_start(chars, belongs);
    let rest = trim_end(front, belongs);
    lemma_trim_start(chars, belongs);
    lemma_trim_end(front, belongs);
    let from = chars.len() - front.len();
    assert(chars.subrange(from, chars.len() as int) == front);
    assert(front.subrange(0, rest.len() as int) == rest);
    assert(chars.subrange(from, from + rest.len()) =~= rest);
    assert forall|i: int| from + rest.len() <= i < chars.len() implies belongs(
        #[trigger] chars[i],
    ) by {
        assert(front[i - from] == chars[i]);
    }
    if rest.len() > 0 {
        assert(front.subrange(0, rest.len() as int)[0] == front[0]);
    }
    assert(rest == trimmed(chars, belongs));
    assert(0 <= from && from + rest.len() <= chars.len());
    assert(chars.subrange(from, from + rest.len()) == rest);
}

/// What is taken off in front.
proof fn lemma_trim_start(chars: Seq<char>, belongs: spec_fn(char) -> bool)
    ensures
        ({
            let rest = trim_start(chars, belongs);
            let from = chars.len() - rest.len();
            &&& 0 <= from
            &&& chars.subrange(from, chars.len() as int) == rest
            &&& forall|i: int| 0 <= i < from ==> belongs(#[trigger] chars[i])
            &&& rest.len() > 0 ==> !belongs(rest[0])
        }),
    decreases chars.len(),
{
    let rest = trim_start(chars, belongs);
    if chars.len() > 0 && belongs(chars[0]) {
        let tail = chars.drop_first();
        lemma_trim_start(tail, belongs);
        let from = chars.len() - rest.len();
        assert(chars.subrange(from, chars.len() as int) =~= tail.subrange(
            from - 1,
            tail.len() as int,
        ));
        assert forall|i: int| 0 <= i < from implies belongs(#[trigger] chars[i]) by {
            if i > 0 {
                assert(tail[i - 1] == chars[i]);
            }
        }
    } else {
        assert(chars.subrange(0, chars.len() as int) =~= chars);
    }
}

/// What is taken off behind.
proof fn lemma_trim_end(chars: Seq<char>, belongs: spec_fn(char) -> bool)
    ensures
        ({
            let rest = trim_end(chars, belongs);
            &&& rest.len() <= chars.len()
            &&& chars.subrange(0, rest.len() as int) == rest
            &&& forall|i: int| rest.len() <= i < chars.len() ==> belongs(#[trigger] chars[i])
            &&& rest.len() > 0 ==> !belongs(rest.last())
        }),
    decreases chars.len(),
{
    let rest = trim_end(chars, belongs);
    if chars.len() > 0 && belongs(chars.last()) {
        let head = chars.drop_last();
        lemma_trim_end(head, belongs);
        assert(chars.subrange(0, rest.len() as int) =~= head.subrange(0, rest.len() as int));
        assert forall|i: int| rest.len() <= i < chars.len() implies belongs(#[trigger] chars[i]) by {
            if i < head.len() {
                assert(head[i] == chars[i]);
            }
        }
    } else {
        assert(chars.subrange(0, chars.len() as int) =~= chars);
    }
}

/// The index keeps the first five hundred and twelve terms of a text, each of them up to its
/// sixty-fourth character.
pub proof fn law_index_keeps_the_first_terms(list: Seq<Seq<char>>, k: int)
    ensures
        list.len() <= 512 ==> kept_terms(list).len() == list.len(),
        list.len() > 512 ==> kept_terms(list).len() == 512,
        0 <= k < list.len() && k < 512 ==> {
            &&& list[k].len() <= 64 ==> kept_terms(list)[k] == list[k]
            &&& list[k].len() > 64 ==> kept_terms(list)[k] == list[k].take(64)
        },
{
}

} // verus!

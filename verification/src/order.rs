//! Texts in ascending order, by code points from the left.

use crate::text::{chars_of, text_of, texts};
use vstd::prelude::*;

verus! {

/// Two texts agree up to a place, where the first one ends or has the smaller
/// character.
pub open spec fn precedes_at(a: Seq<char>, b: Seq<char>, place: int) -> bool {
    &&& 0 <= place < b.len()
    &&& place <= a.len()
    &&& forall|i: int| 0 <= i < place ==> a[i] == b[i]
    &&& place == a.len() || a[place] < b[place]
}

/// A text comes before another one, by code points from the left.
pub open spec fn precedes(a: Seq<char>, b: Seq<char>) -> bool {
    exists|place: int| precedes_at(a, b, place)
}

/// Texts in ascending order, none of them twice.
pub open spec fn ascending(list: Seq<Seq<char>>) -> bool {
    forall|i: int, j: int| 0 <= i < j < list.len() ==> precedes(#[trigger] list[i], #[trigger] list[j])
}

proof fn lemma_precedes_is_transitive(a: Seq<char>, b: Seq<char>, c: Seq<char>)
    requires
        precedes(a, b),
        precedes(b, c),
    ensures
        precedes(a, c),
{
    let first = choose|place: int| precedes_at(a, b, place);
    let second = choose|place: int| precedes_at(b, c, place);
    if first <= second {
        assert(precedes_at(a, c, first));
    } else {
        assert(precedes_at(a, c, second));
    }
}

proof fn lemma_precedes_is_strict(a: Seq<char>, b: Seq<char>)
    requires
        precedes(a, b),
    ensures
        a != b,
        !precedes(b, a),
{
    let first = choose|place: int| precedes_at(a, b, place);
    if precedes(b, a) {
        let second = choose|place: int| precedes_at(b, a, place);
        if first <= second {
            assert(first < a.len());
        } else {
            assert(second < b.len());
        }
        assert(false);
    }
}

/// Texts in ascending order are all different.
pub proof fn lemma_ascending_has_no_duplicates(list: Seq<Seq<char>>)
    requires
        ascending(list),
    ensures
        list.no_duplicates(),
{
    assert forall|i: int, j: int| 0 <= i < j < list.len() implies list[i] != list[j] by {
        lemma_precedes_is_strict(list[i], list[j]);
    }
}

/// How two texts stand to each other.
enum Side {
    Before,
    Same,
    After,
}

fn compare(a: &Vec<char>, b: &Vec<char>) -> (side: Side)
    ensures
        match side {
            Side::Before => precedes(a@, b@),
            Side::Same => a@ == b@,
            Side::After => precedes(b@, a@),
        },
{
    let mut i: usize = 0;
    while i < a.len() && i < b.len()
        invariant
            i <= a.len(),
            i <= b.len(),
            forall|j: int| 0 <= j < i ==> a@[j] == b@[j],
        decreases a.len() - i,
    {
        if a[i] < b[i] {
            assert(precedes_at(a@, b@, i as int));
            return Side::Before;
        }
        if b[i] < a[i] {
            assert(precedes_at(b@, a@, i as int));
            return Side::After;
        }
        i += 1;
    }
    if i < b.len() {
        assert(precedes_at(a@, b@, i as int));
        Side::Before
    } else if i < a.len() {
        assert(precedes_at(b@, a@, i as int));
        Side::After
    } else {
        assert(a@ =~= b@);
        Side::Same
    }
}

/// Lists of characters as sequences.
pub open spec fn views(list: Seq<Vec<char>>) -> Seq<Seq<char>> {
    list.map_values(|term: Vec<char>| term@)
}

/// Puts a term in its place, unless it is there.
pub(crate) fn insert_term(list: &mut Vec<Vec<char>>, term: Vec<char>)
    requires
        ascending(views(old(list)@)),
    ensures
        ascending(views(final(list)@)),
        forall|t: Seq<char>| #[trigger]
            views(final(list)@).contains(t) <==> (views(old(list)@).contains(t) || t == term@),
{
    let ghost before = views(list@);
    let mut i: usize = 0;
    let mut placed: bool = false;
    while i < list.len() && !placed
        invariant
            i <= list.len(),
            before == views(list@),
            ascending(before),
            forall|j: int| 0 <= j < i ==> precedes(#[trigger] before[j], term@),
            placed ==> i < list.len() && precedes(term@, before[i as int]),
        ensures
            i <= list.len(),
            i < list.len() ==> precedes(term@, before[i as int]),
        decreases list.len() - i + if placed {
            0int
        } else {
            1int
        },
    {
        match compare(&list[i], &term) {
            Side::Before => {
                assert(precedes(before[i as int], term@));
                i += 1;
            },
            Side::Same => {
                assert(before[i as int] == term@);
                return;
            },
            Side::After => {
                assert(precedes(term@, before[i as int]));
                placed = true;
            },
        }
    }
    let ghost value = term@;
    list.insert(i, term);
    proof {
        let after = views(list@);
        assert(after =~= before.insert(i as int, value));
        assert forall|j: int| i <= j < before.len() implies precedes(value, #[trigger] before[j]) by {
            if i < j {
                lemma_precedes_is_transitive(value, before[i as int], before[j]);
            }
        }
        assert forall|a: int, b: int| 0 <= a < b < after.len() implies precedes(
            #[trigger] after[a],
            #[trigger] after[b],
        ) by {
            if b < i {
                assert(after[a] == before[a] && after[b] == before[b]);
            } else if b == i {
                assert(after[a] == before[a]);
            } else if a < i {
                assert(after[a] == before[a] && after[b] == before[b - 1]);
            } else if a == i {
                assert(after[b] == before[b - 1]);
            } else {
                assert(after[a] == before[a - 1] && after[b] == before[b - 1]);
            }
        }
        assert forall|t: Seq<char>| #[trigger] after.contains(t) <==> (before.contains(t) || t
            == value) by {
            if before.contains(t) {
                let k = choose|k: int| 0 <= k < before.len() && before[k] == t;
                if k < i {
                    assert(after[k] == t);
                } else {
                    assert(after[k + 1] == t);
                }
            }
            if t == value {
                assert(after[i as int] == t);
            }
            if after.contains(t) {
                let k = choose|k: int| 0 <= k < after.len() && after[k] == t;
                if k < i {
                    assert(before[k] == t);
                } else if k > i {
                    assert(before[k - 1] == t);
                }
            }
        }
    }
}

/// Two ascending lists of the same texts are the same list.
pub proof fn lemma_ascending_lists_are_equal(a: Seq<Seq<char>>, b: Seq<Seq<char>>)
    requires
        ascending(a),
        ascending(b),
        forall|term: Seq<char>| #[trigger] a.contains(term) <==> b.contains(term),
    ensures
        a == b,
    decreases a.len(),
{
    if a.len() == 0 {
        if b.len() > 0 {
            assert(b.contains(b[0]));
            assert(a.contains(b[0]));
        }
        assert(a =~= b);
    } else {
        assert(a.contains(a.last()));
        assert(b.len() > 0);
        assert(b.contains(b.last()));
        assert(a.contains(b.last()));
        let in_b = choose|i: int| 0 <= i < b.len() && b[i] == a.last();
        let in_a = choose|i: int| 0 <= i < a.len() && a[i] == b.last();
        if in_b < b.len() - 1 && in_a < a.len() - 1 {
            assert(precedes(b[in_b], b[b.len() - 1]));
            assert(precedes(a[in_a], a[a.len() - 1]));
            lemma_precedes_is_strict(a.last(), b.last());
        }
        assert(a.last() == b.last());
        let last = a.last();
        let front_a = a.drop_last();
        let front_b = b.drop_last();
        assert forall|term: Seq<char>| #[trigger] front_a.contains(term) <==> front_b.contains(term) by {
            lemma_front_contains(a, term);
            lemma_front_contains(b, term);
        }
        assert(ascending(front_a));
        assert(ascending(front_b));
        lemma_ascending_lists_are_equal(front_a, front_b);
        assert(a =~= front_a.push(last));
        assert(b =~= front_b.push(last));
    }
}

proof fn lemma_front_contains(list: Seq<Seq<char>>, term: Seq<char>)
    requires
        list.len() > 0,
        ascending(list),
    ensures
        list.drop_last().contains(term) <==> (list.contains(term) && term != list.last()),
{
    let front = list.drop_last();
    if front.contains(term) {
        let i = choose|i: int| 0 <= i < front.len() && front[i] == term;
        assert(list[i] == term);
        assert(precedes(list[i], list[list.len() - 1]));
        lemma_precedes_is_strict(list[i], list.last());
    }
    if list.contains(term) && term != list.last() {
        let i = choose|i: int| 0 <= i < list.len() && list[i] == term;
        assert(i < front.len());
        assert(front[i] == term);
    }
}

/// The texts of a list in ascending order, each of them once.
pub fn sorted_texts(list: &Vec<String>) -> (sorted: Vec<String>)
    ensures
        ascending(texts(sorted@)),
        forall|t: Seq<char>| #[trigger] texts(sorted@).contains(t) <==> texts(list@).contains(t),
{
    let mut ordered: Vec<Vec<char>> = Vec::new();
    let mut i: usize = 0;
    assert(views(ordered@) =~= seq![]);
    while i < list.len()
        invariant
            i <= list.len(),
            ascending(views(ordered@)),
            forall|t: Seq<char>| #[trigger]
                views(ordered@).contains(t) <==> texts(list@).take(i as int).contains(t),
        decreases list.len() - i,
    {
        let chars: Vec<char> = chars_of(list[i].as_str());
        let ghost before = views(ordered@);
        insert_term(&mut ordered, chars);
        proof {
            let head = texts(list@).take(i as int);
            let value = texts(list@)[i as int];
            assert(texts(list@).take(i + 1) =~= head.push(value));
            assert forall|t: Seq<char>| #[trigger]
                views(ordered@).contains(t) <==> texts(list@).take(i + 1).contains(t) by {
                crate::seqs::lemma_push_contains(head, value, t);
                assert(before.contains(t) <==> head.contains(t));
            }
        }
        i += 1;
    }
    assert(texts(list@).take(i as int) =~= texts(list@));
    let mut sorted: Vec<String> = Vec::new();
    let mut j: usize = 0;
    assert(texts(sorted@) =~= views(ordered@).take(0));
    while j < ordered.len()
        invariant
            j <= ordered.len(),
            texts(sorted@) == views(ordered@).take(j as int),
        decreases ordered.len() - j,
    {
        let ghost before = sorted@;
        sorted.push(text_of(&ordered[j]));
        proof {
            assert(texts(sorted@) =~= texts(before).push(views(ordered@)[j as int]));
            assert(texts(sorted@) =~= views(ordered@).take(j + 1));
        }
        j += 1;
    }
    assert(views(ordered@).take(j as int) =~= views(ordered@));
    sorted
}

/// A text is the first of some texts: it is one of them, and it comes before every
/// other one.
pub open spec fn is_first(list: Seq<Seq<char>>, first: Seq<char>) -> bool {
    &&& list.contains(first)
    &&& forall|other: Seq<char>| #[trigger]
        list.contains(other) ==> other == first || precedes(first, other)
}

/// The first of some texts, where there are any.
pub fn first_text(list: &Vec<String>) -> (first: Option<String>)
    ensures
        first is None <==> list@.len() == 0,
        first is Some ==> is_first(texts(list@), first->Some_0@),
{
    let sorted: Vec<String> = sorted_texts(list);
    if list.len() == 0 {
        return None;
    }
    proof {
        assert(texts(list@)[0] == list@[0]@);
        assert(texts(list@).contains(list@[0]@));
        assert(texts(sorted@).contains(list@[0]@));
        assert(texts(sorted@).len() > 0);
        assert(texts(sorted@).contains(texts(sorted@)[0]));
        assert forall|other: Seq<char>| #[trigger] texts(list@).contains(other) implies other
            == texts(sorted@)[0] || precedes(texts(sorted@)[0], other) by {
            assert(texts(sorted@).contains(other));
            let k = choose|k: int| 0 <= k < texts(sorted@).len() && texts(sorted@)[k] == other;
            if k > 0 {
                assert(precedes(texts(sorted@)[0], texts(sorted@)[k]));
            }
        }
    }
    Some(sorted[0].clone())
}

/// Texts are ordered by the first character in which they differ, and a text that another one
/// goes on from comes before it.
pub proof fn law_first_difference_decides(
    head: Seq<char>,
    a: char,
    b: char,
    left: Seq<char>,
    right: Seq<char>,
)
    ensures
        a < b ==> precedes(head.push(a) + left, head.push(b) + right),
        a < b ==> !precedes(head.push(b) + right, head.push(a) + left),
        precedes(head, head.push(a) + left),
        !precedes(head.push(a) + left, head),
        !precedes(head, head),
{
    let x = head.push(a) + left;
    let y = head.push(b) + right;
    assert(forall|i: int| 0 <= i < head.len() ==> x[i] == head[i] && y[i] == head[i]);
    assert(x[head.len() as int] == a && y[head.len() as int] == b);
    if a < b {
        assert(precedes_at(x, y, head.len() as int));
        lemma_precedes_is_strict(x, y);
    }
    assert(precedes_at(head, x, head.len() as int));
    lemma_precedes_is_strict(head, x);
    if precedes(head, head) {
        lemma_precedes_is_strict(head, head);
    }
}

} // verus!

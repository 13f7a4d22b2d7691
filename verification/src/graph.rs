//! What can be reached along the steps of a graph.

use crate::order::{ascending, sorted_texts};
use crate::text::{has_text, same_text, texts};
use vstd::prelude::*;

verus! {

/// One step, from one node to another.
#[derive(Clone, Debug, PartialEq, Eq)]
pub struct Edge {
    pub from: String,
    pub to: String,
}

/// There is a step from one node to another.
pub open spec fn steps(edges: Seq<Edge>, from: Seq<char>, to: Seq<char>) -> bool {
    exists|i: int|
        0 <= i < edges.len() && (#[trigger] edges[i]).from@ == from && edges[i].to@ == to
}

/// Nodes with a step from each one to the next.
pub open spec fn is_path(edges: Seq<Edge>, path: Seq<Seq<char>>) -> bool {
    &&& path.len() > 0
    &&& forall|i: int| 0 <= i < path.len() - 1 ==> steps(edges, #[trigger] path[i], path[i + 1])
}

/// A path leads from one node to another. Every node is reached from itself.
pub open spec fn reaches(edges: Seq<Edge>, from: Seq<char>, to: Seq<char>) -> bool {
    exists|path: Seq<Seq<char>>| #[trigger]
        is_path(edges, path) && path[0] == from && path.last() == to
}

/// A path leads to a node from one of some nodes.
pub open spec fn reached_from(edges: Seq<Edge>, starts: Seq<Seq<char>>, to: Seq<char>) -> bool {
    exists|i: int| 0 <= i < starts.len() && reaches(edges, #[trigger] starts[i], to)
}

proof fn lemma_reaches_itself(edges: Seq<Edge>, node: Seq<char>)
    ensures
        reaches(edges, node, node),
{
    let path = seq![node];
    assert(is_path(edges, path));
    assert(path[0] == node && path.last() == node);
}

pub(crate) proof fn lemma_reaches_further(edges: Seq<Edge>, from: Seq<char>, to: Seq<char>, next: Seq<char>)
    requires
        reaches(edges, from, to),
        steps(edges, to, next),
    ensures
        reaches(edges, from, next),
{
    let path = choose|path: Seq<Seq<char>>| #[trigger]
        is_path(edges, path) && path[0] == from && path.last() == to;
    let longer = path.push(next);
    assert forall|i: int| 0 <= i < longer.len() - 1 implies steps(
        edges,
        #[trigger] longer[i],
        longer[i + 1],
    ) by {
        if i < path.len() - 1 {
            assert(longer[i] == path[i] && longer[i + 1] == path[i + 1]);
        } else {
            assert(longer[i] == path.last());
        }
    }
    assert(is_path(edges, longer));
    assert(longer[0] == from && longer.last() == next);
}

/// A list that holds, with each node, every node one step further holds the end
/// of every path that starts in it.
proof fn lemma_closed_holds_path_ends(
    edges: Seq<Edge>,
    found: Seq<Seq<char>>,
    path: Seq<Seq<char>>,
    count: int,
)
    requires
        is_path(edges, path),
        found.contains(path[0]),
        forall|a: Seq<char>, b: Seq<char>|
            found.contains(a) && #[trigger] steps(edges, a, b) ==> found.contains(b),
        0 <= count < path.len(),
    ensures
        found.contains(path[count]),
    decreases count,
{
    if count > 0 {
        lemma_closed_holds_path_ends(edges, found, path, count - 1);
        assert(steps(edges, path[count - 1], path[count - 1 + 1]));
    }
}

/// A list without duplicates of which every member is a start or the end of a
/// step is no longer than the starts and the steps together.
proof fn lemma_found_is_bounded(edges: Seq<Edge>, starts: Seq<Seq<char>>, found: Seq<Seq<char>>)
    requires
        found.no_duplicates(),
        forall|i: int|
            0 <= i < found.len() ==> starts.contains(#[trigger] found[i]) || exists|k: int|
                0 <= k < edges.len() && (#[trigger] edges[k]).to@ == found[i],
    ensures
        found.len() <= starts.len() + edges.len(),
{
    let ends = edges.map_values(|edge: Edge| edge.to@);
    let all = starts + ends;
    assert forall|node: Seq<char>| found.to_set().contains(node) implies all.to_set().contains(
        node,
    ) by {
        let i = choose|i: int| 0 <= i < found.len() && found[i] == node;
        assert(found[i] == node);
        if starts.contains(found[i]) {
            let k = choose|k: int| 0 <= k < starts.len() && starts[k] == node;
            assert(all[k] == node);
        } else {
            let k = choose|k: int| 0 <= k < edges.len() && (#[trigger] edges[k]).to@ == found[i];
            assert(all[starts.len() + k] == node);
        }
    }
    found.unique_seq_to_set();
    all.lemma_cardinality_of_set();
    vstd::set_lib::lemma_len_subset(found.to_set(), all.to_set());
}

/// Adds a node to a list that does not hold it yet.
fn add_node(found: &mut Vec<String>, node: &String)
    requires
        texts(old(found)@).no_duplicates(),
    ensures
        texts(final(found)@).no_duplicates(),
        texts(old(found)@).contains(node@) ==> final(found)@ == old(found)@,
        !texts(old(found)@).contains(node@) ==> texts(final(found)@) == texts(old(found)@).push(
            node@,
        ),
{
    if !has_text(found, node.as_str()) {
        let ghost before = texts(found@);
        found.push(node.clone());
        assert(texts(found@) =~= before.push(node@));
        assert forall|i: int, j: int|
            0 <= i < before.len() + 1 && 0 <= j < before.len() + 1 && i != j implies texts(
            found@,
        )[i] != texts(found@)[j] by {
            if i < before.len() && j < before.len() {
                assert(before[i] != before[j]);
            } else if i < before.len() {
                assert(before.contains(before[i]));
            } else {
                assert(before.contains(before[j]));
            }
        }
    }
}

/// Every node that can be reached from one of some nodes, each of them once.
pub fn reachable_from(edges: &Vec<Edge>, starts: &Vec<String>) -> (found: Vec<String>)
    ensures
        texts(found@).no_duplicates(),
        forall|node: Seq<char>| #[trigger]
            texts(found@).contains(node) <==> reached_from(edges@, texts(starts@), node),
{
    let mut found: Vec<String> = Vec::new();
    let mut s: usize = 0;
    let ghost origin = texts(starts@);
    assert(texts(found@) =~= seq![]);
    while s < starts.len()
        invariant
            s <= starts.len(),
            origin == texts(starts@),
            texts(found@).no_duplicates(),
            forall|k: int| 0 <= k < s ==> texts(found@).contains(#[trigger] origin[k]),
            forall|i: int| 0 <= i < found@.len() ==> origin.contains(#[trigger] texts(found@)[i]),
        decreases starts.len() - s,
    {
        let ghost before = texts(found@);
        add_node(&mut found, &starts[s]);
        proof {
            let node = origin[s as int];
            assert(starts@[s as int]@ == node);
            assert forall|k: int| 0 <= k < s + 1 implies texts(found@).contains(
                #[trigger] origin[k],
            ) by {
                if !before.contains(node) {
                    crate::seqs::lemma_push_contains(before, node, origin[k]);
                }
            }
            assert forall|i: int| 0 <= i < found@.len() implies origin.contains(
                #[trigger] texts(found@)[i],
            ) by {
                assert(origin.contains(node));
                if !before.contains(node) {
                    if i < before.len() {
                        assert(texts(found@)[i] == before[i]);
                    }
                }
            }
        }
        s += 1;
    }
    proof {
        assert forall|i: int| 0 <= i < found@.len() implies reached_from(
            edges@,
            origin,
            #[trigger] texts(found@)[i],
        ) by {
            let k = choose|k: int| 0 <= k < origin.len() && origin[k] == texts(found@)[i];
            lemma_reaches_itself(edges@, origin[k]);
        }
    }
    let mut i: usize = 0;
    while i < found.len()
        invariant
            i <= found@.len(),
            origin == texts(starts@),
            texts(found@).no_duplicates(),
            forall|k: int| 0 <= k < origin.len() ==> texts(found@).contains(#[trigger] origin[k]),
            forall|j: int|
                0 <= j < found@.len() ==> reached_from(
                    edges@,
                    origin,
                    #[trigger] texts(found@)[j],
                ),
            forall|j: int|
                0 <= j < found@.len() ==> origin.contains(#[trigger] texts(found@)[j]) || exists|
                    k: int,
                |
                    0 <= k < edges@.len() && (#[trigger] edges@[k]).to@ == texts(found@)[j],
            forall|j: int, b: Seq<char>|
                0 <= j < i && #[trigger] steps(edges@, texts(found@)[j], b) ==> texts(
                    found@,
                ).contains(b),
        decreases starts@.len() + edges@.len() + 1 - i,
    {
        proof {
            lemma_found_is_bounded(edges@, origin, texts(found@));
        }
        let node: String = found[i].clone();
        let ghost place = i as int;
        let mut e: usize = 0;
        while e < edges.len()
            invariant
                e <= edges.len(),
                i < found@.len(),
                place == i,
                node@ == texts(found@)[place],
                origin == texts(starts@),
                texts(found@).no_duplicates(),
                forall|k: int|
                    0 <= k < origin.len() ==> texts(found@).contains(#[trigger] origin[k]),
                forall|j: int|
                    0 <= j < found@.len() ==> reached_from(
                        edges@,
                        origin,
                        #[trigger] texts(found@)[j],
                    ),
                forall|j: int|
                    0 <= j < found@.len() ==> origin.contains(#[trigger] texts(found@)[j])
                        || exists|k: int|
                        0 <= k < edges@.len() && (#[trigger] edges@[k]).to@ == texts(found@)[j],
                forall|j: int, b: Seq<char>|
                    0 <= j < i && #[trigger] steps(edges@, texts(found@)[j], b) ==> texts(
                        found@,
                    ).contains(b),
                forall|k: int|
                    0 <= k < e && (#[trigger] edges@[k]).from@ == node@ ==> texts(found@).contains(
                        edges@[k].to@,
                    ),
            decreases edges.len() - e,
        {
            if same_text(edges[e].from.as_str(), node.as_str()) {
                let ghost before = texts(found@);
                let ghost next = edges@[e as int].to@;
                add_node(&mut found, &edges[e].to);
                proof {
                    let after = texts(found@);
                    assert(steps(edges@, node@, next));
                    assert(reached_from(edges@, origin, before[place]));
                    let k = choose|k: int|
                        0 <= k < origin.len() && reaches(
                            edges@,
                            #[trigger] origin[k],
                            before[place],
                        );
                    lemma_reaches_further(edges@, origin[k], node@, next);
                    assert(reached_from(edges@, origin, next));
                    if !before.contains(next) {
                        assert(after == before.push(next));
                        assert forall|x: Seq<char>| #[trigger]
                            before.contains(x) implies after.contains(x) by {
                            crate::seqs::lemma_push_contains(before, next, x);
                        }
                        crate::seqs::lemma_push_contains(before, next, next);
                        assert forall|j: int| 0 <= j < found@.len() implies reached_from(
                            edges@,
                            origin,
                            #[trigger] after[j],
                        ) by {
                            if j < before.len() {
                                assert(after[j] == before[j]);
                            }
                        }
                        assert forall|j: int| 0 <= j < found@.len() implies origin.contains(
                            #[trigger] after[j],
                        ) || exists|k: int|
                            0 <= k < edges@.len() && (#[trigger] edges@[k]).to@ == after[j] by {
                            if j < before.len() {
                                assert(after[j] == before[j]);
                            } else {
                                assert(edges@[e as int].to@ == after[j]);
                            }
                        }
                        assert forall|j: int, b: Seq<char>|
                            0 <= j < i && #[trigger] steps(edges@, after[j], b) implies after.contains(
                            b,
                        ) by {
                            assert(after[j] == before[j]);
                            assert(steps(edges@, before[j], b));
                            assert(before.contains(b));
                        }
                    }
                }
            }
            e += 1;
        }
        i += 1;
        proof {
            assert forall|j: int, b: Seq<char>|
                0 <= j < i && #[trigger] steps(edges@, texts(found@)[j], b) implies texts(
                found@,
            ).contains(b) by {
                if j == place {
                    let k = choose|k: int|
                        0 <= k < edges@.len() && (#[trigger] edges@[k]).from@ == node@
                            && edges@[k].to@ == b;
                    assert(edges@[k].from@ == node@);
                }
            }
        }
    }
    proof {
        let all = texts(found@);
        assert forall|a: Seq<char>, b: Seq<char>|
            all.contains(a) && #[trigger] steps(edges@, a, b) implies all.contains(b) by {
            let j = choose|j: int| 0 <= j < all.len() && all[j] == a;
            assert(steps(edges@, texts(found@)[j], b));
        }
        assert forall|node: Seq<char>| #[trigger] all.contains(node) <==> reached_from(
            edges@,
            origin,
            node,
        ) by {
            if all.contains(node) {
                let j = choose|j: int| 0 <= j < all.len() && all[j] == node;
                assert(reached_from(edges@, origin, texts(found@)[j]));
            }
            if reached_from(edges@, origin, node) {
                let k = choose|k: int|
                    0 <= k < origin.len() && reaches(edges@, #[trigger] origin[k], node);
                let path = choose|path: Seq<Seq<char>>| #[trigger]
                    is_path(edges@, path) && path[0] == origin[k] && path.last() == node;
                lemma_closed_holds_path_ends(edges@, all, path, path.len() - 1);
            }
        }
    }
    found
}

/// Every node that can be reached from one of some nodes, in ascending order.
pub fn reachable_sorted(edges: &Vec<Edge>, starts: &Vec<String>) -> (found: Vec<String>)
    ensures
        ascending(texts(found@)),
        forall|node: Seq<char>| #[trigger]
            texts(found@).contains(node) <==> reached_from(edges@, texts(starts@), node),
{
    let all: Vec<String> = reachable_from(edges, starts);
    sorted_texts(&all)
}

/// Where the steps of one node lead to.
pub fn next_nodes(edges: &Vec<Edge>, node: &str) -> (next: Vec<String>)
    ensures
        forall|to: Seq<char>| #[trigger]
            texts(next@).contains(to) <==> steps(edges@, node@, to),
{
    let mut next: Vec<String> = Vec::new();
    let mut e: usize = 0;
    while e < edges.len()
        invariant
            e <= edges.len(),
            forall|to: Seq<char>| #[trigger]
                texts(next@).contains(to) <==> steps(edges@.take(e as int), node@, to),
        decreases edges.len() - e,
    {
        let ghost before = texts(next@);
        let ghost head = edges@.take(e as int);
        let ghost more = edges@.take(e + 1);
        let ghost edge = edges@[e as int];
        if same_text(edges[e].from.as_str(), node) {
            next.push(edges[e].to.clone());
            assert(texts(next@) =~= before.push(edge.to@));
        }
        proof {
            assert forall|to: Seq<char>| #[trigger] texts(next@).contains(to) <==> steps(
                more,
                node@,
                to,
            ) by {
                if edge.from@ == node@ {
                    crate::seqs::lemma_push_contains(before, edge.to@, to);
                }
                assert(before.contains(to) <==> steps(head, node@, to));
                if steps(head, node@, to) {
                    let i = choose|i: int|
                        0 <= i < head.len() && (#[trigger] head[i]).from@ == node@ && head[i].to@
                            == to;
                    assert(more[i] == head[i]);
                }
                if edge.from@ == node@ && edge.to@ == to {
                    assert(more[e as int] == edge);
                }
                if steps(more, node@, to) {
                    let i = choose|i: int|
                        0 <= i < more.len() && (#[trigger] more[i]).from@ == node@ && more[i].to@
                            == to;
                    if i < e {
                        assert(head[i] == more[i]);
                    }
                }
            }
        }
        e += 1;
    }
    assert(edges@.take(e as int) =~= edges@);
    next
}

} // verus!

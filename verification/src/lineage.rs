//! The lineage of memory: what an asset was derived from, what was derived from
//! it, and what a change at one end means at the other.

use crate::columns::{i64_fault, to_i64, to_unsigned, unsigned_fault};
use crate::error::{
    answers, check_verdict, fault, first, verdict_fault, ErrorCode, Fault, StoreError,
};
use crate::graph::{
    is_path, lemma_reaches_further, next_nodes, reachable_from, reachable_sorted, reached_from,
    reaches, steps, Edge,
};
use crate::journal::{check_fence, fence_fault, HostFence};
use crate::json::{is_string_list, json_counted, json_with_count};
use crate::maintenance::{source_key, source_name, TombstoneRow};
use crate::memory::{
    acts, authorization_fault, authorize, has_readable_grant, is_fresh,
    law_acting_means_authorized, may_act, readable_grant, record_fault, sources_fault,
    validate_record, version_is_fresh,
    write_version_sources, AssetScopeRow, GrantRow, MemoryAssetStatus, MemorySourceRecord,
    MemoryVerdicts, MemoryVersionCommit, MemoryVersionRef, RefreshSource, StoreMemoryPrincipal,
    StoredMemoryAssetRecord,
};
use crate::order::ascending;
use crate::text::{blank, has_text, is_blank, opt_text, same_option, same_text, texts};
use vstd::prelude::*;

verus! {

// ---------------------------------------------------------------------------
// The graph of derivations

/// One recorded dependency of a version.
#[derive(Clone, Debug, PartialEq, Eq)]
pub struct DependencyRow {
    pub derived_asset_id: String,
    /// The version is the current one of its asset.
    pub derived_is_current: bool,
    pub source_kind: String,
    pub source_id: String,
    /// The version of the source, where the source is an asset.
    pub source_version: Option<i64>,
}

/// One asset was derived from another. Where only current versions count, an
/// older version's dependency does not.
pub open spec fn derived_from(
    rows: Seq<DependencyRow>,
    current_only: bool,
    derived: Seq<char>,
    source: Seq<char>,
) -> bool {
    exists|i: int|
        0 <= i < rows.len() && (#[trigger] rows[i]).source_kind@ == "asset"@
            && rows[i].derived_asset_id@ == derived && rows[i].source_id@ == source && (
        !current_only || rows[i].derived_is_current)
}

/// The steps from each asset to what was derived from it.
pub open spec fn are_derivations(
    edges: Seq<Edge>,
    rows: Seq<DependencyRow>,
    current_only: bool,
) -> bool {
    forall|source: Seq<char>, derived: Seq<char>| #[trigger]
        steps(edges, source, derived) <==> derived_from(rows, current_only, derived, source)
}

/// The steps from each asset to what it was derived from.
pub open spec fn are_sources(
    edges: Seq<Edge>,
    rows: Seq<DependencyRow>,
    current_only: bool,
) -> bool {
    forall|derived: Seq<char>, source: Seq<char>| #[trigger]
        steps(edges, derived, source) <==> derived_from(rows, current_only, derived, source)
}

/// The steps from each asset to what was derived from it.
pub fn derivations(rows: &Vec<DependencyRow>, current_only: bool) -> (edges: Vec<Edge>)
    ensures
        are_derivations(edges@, rows@, current_only),
{
    let mut edges: Vec<Edge> = Vec::new();
    let mut i: usize = 0;
    while i < rows.len()
        invariant
            i <= rows.len(),
            are_derivations(edges@, rows@.take(i as int), current_only),
        decreases rows.len() - i,
    {
        let ghost before = edges@;
        let ghost row = rows@[i as int];
        let ghost head = rows@.take(i as int);
        let ghost more = rows@.take(i + 1);
        let counts: bool = same_text(rows[i].source_kind.as_str(), "asset") && (!current_only
            || rows[i].derived_is_current);
        if counts {
            edges.push(
                Edge { from: rows[i].source_id.clone(), to: rows[i].derived_asset_id.clone() },
            );
        }
        proof {
            assert forall|source: Seq<char>, derived: Seq<char>| #[trigger]
                steps(edges@, source, derived) <==> derived_from(
                    more,
                    current_only,
                    derived,
                    source,
                ) by {
                assert(steps(before, source, derived) <==> derived_from(
                    head,
                    current_only,
                    derived,
                    source,
                ));
                if steps(before, source, derived) {
                    let k = choose|k: int|
                        0 <= k < before.len() && (#[trigger] before[k]).from@ == source
                            && before[k].to@ == derived;
                    assert(edges@[k] == before[k]);
                }
                if derived_from(head, current_only, derived, source) {
                    let k = choose|k: int|
                        0 <= k < head.len() && (#[trigger] head[k]).source_kind@ == "asset"@
                            && head[k].derived_asset_id@ == derived && head[k].source_id@ == source
                            && (!current_only || head[k].derived_is_current);
                    assert(more[k] == head[k]);
                }
                if counts && row.source_id@ == source && row.derived_asset_id@ == derived {
                    assert(edges@[before.len() as int].from@ == source);
                    assert(more[i as int] == row);
                }
                if steps(edges@, source, derived) {
                    let k = choose|k: int|
                        0 <= k < edges@.len() && (#[trigger] edges@[k]).from@ == source
                            && edges@[k].to@ == derived;
                    if k < before.len() {
                        assert(before[k] == edges@[k]);
                    }
                }
                if derived_from(more, current_only, derived, source) {
                    let k = choose|k: int|
                        0 <= k < more.len() && (#[trigger] more[k]).source_kind@ == "asset"@
                            && more[k].derived_asset_id@ == derived && more[k].source_id@ == source
                            && (!current_only || more[k].derived_is_current);
                    if k < i {
                        assert(head[k] == more[k]);
                    } else {
                        assert(more[k] == row);
                    }
                }
            }
        }
        i += 1;
    }
    assert(rows@.take(i as int) =~= rows@);
    edges
}

/// The steps from each asset to what it was derived from.
pub fn sources(rows: &Vec<DependencyRow>, current_only: bool) -> (edges: Vec<Edge>)
    ensures
        are_sources(edges@, rows@, current_only),
{
    let forward: Vec<Edge> = derivations(rows, current_only);
    let mut edges: Vec<Edge> = Vec::new();
    let mut i: usize = 0;
    while i < forward.len()
        invariant
            i <= forward.len(),
            edges@.len() == i,
            forall|k: int|
                0 <= k < i ==> (#[trigger] edges@[k]).from == forward@[k].to && edges@[k].to
                    == forward@[k].from,
        decreases forward.len() - i,
    {
        edges.push(Edge { from: forward[i].to.clone(), to: forward[i].from.clone() });
        i += 1;
    }
    proof {
        assert forall|derived: Seq<char>, source: Seq<char>| #[trigger]
            steps(edges@, derived, source) <==> derived_from(rows@, current_only, derived, source) by {
            assert(steps(forward@, source, derived) <==> derived_from(
                rows@,
                current_only,
                derived,
                source,
            ));
            if steps(edges@, derived, source) {
                let k = choose|k: int|
                    0 <= k < edges@.len() && (#[trigger] edges@[k]).from@ == derived && edges@[k].to@
                        == source;
                assert(forward@[k].from@ == source);
            }
            if steps(forward@, source, derived) {
                let k = choose|k: int|
                    0 <= k < forward@.len() && (#[trigger] forward@[k]).from@ == source
                        && forward@[k].to@ == derived;
                assert(edges@[k].from@ == derived);
            }
        }
    }
    edges
}

/// An asset is a root, or was derived from one, directly or through others.
pub open spec fn is_affected(
    rows: Seq<DependencyRow>,
    current_only: bool,
    roots: Seq<Seq<char>>,
    asset: Seq<char>,
) -> bool {
    exists|edges: Seq<Edge>| #[trigger]
        are_derivations(edges, rows, current_only) && reached_from(edges, roots, asset)
}

/// Two graphs with the same steps have the same paths.
proof fn lemma_same_steps_same_reach(a: Seq<Edge>, b: Seq<Edge>, from: Seq<char>, to: Seq<char>)
    requires
        forall|x: Seq<char>, y: Seq<char>| #[trigger] steps(a, x, y) <==> steps(b, x, y),
    ensures
        reaches(a, from, to) ==> reaches(b, from, to),
{
    if reaches(a, from, to) {
        let path = choose|path: Seq<Seq<char>>| #[trigger]
            is_path(a, path) && path[0] == from && path.last() == to;
        assert forall|i: int| 0 <= i < path.len() - 1 implies steps(
            b,
            #[trigger] path[i],
            path[i + 1],
        ) by {
            assert(steps(a, path[i], path[i + 1]));
        }
        assert(is_path(b, path));
    }
}

proof fn lemma_affected_by_any_graph(
    edges: Seq<Edge>,
    rows: Seq<DependencyRow>,
    current_only: bool,
    roots: Seq<Seq<char>>,
    asset: Seq<char>,
)
    requires
        are_derivations(edges, rows, current_only),
    ensures
        is_affected(rows, current_only, roots, asset) <==> reached_from(edges, roots, asset),
{
    if is_affected(rows, current_only, roots, asset) {
        let other = choose|other: Seq<Edge>| #[trigger]
            are_derivations(other, rows, current_only) && reached_from(other, roots, asset);
        let i = choose|i: int| 0 <= i < roots.len() && reaches(other, #[trigger] roots[i], asset);
        assert forall|x: Seq<char>, y: Seq<char>| #[trigger] steps(other, x, y) <==> steps(
            edges,
            x,
            y,
        ) by {
            assert(steps(other, x, y) <==> derived_from(rows, current_only, y, x));
            assert(steps(edges, x, y) <==> derived_from(rows, current_only, y, x));
        }
        lemma_same_steps_same_reach(other, edges, roots[i], asset);
    }
}

/// Every asset that some roots affect, the roots among them, in ascending order.
pub fn affected_assets(rows: &Vec<DependencyRow>, current_only: bool, roots: &Vec<String>) -> (found:
    Vec<String>)
    ensures
        ascending(texts(found@)),
        forall|asset: Seq<char>| #[trigger]
            texts(found@).contains(asset) <==> is_affected(
                rows@,
                current_only,
                texts(roots@),
                asset,
            ),
{
    let edges: Vec<Edge> = derivations(rows, current_only);
    let found: Vec<String> = reachable_sorted(&edges, roots);
    proof {
        assert forall|asset: Seq<char>| #[trigger]
            texts(found@).contains(asset) <==> is_affected(
                rows@,
                current_only,
                texts(roots@),
                asset,
            ) by {
            lemma_affected_by_any_graph(edges@, rows@, current_only, texts(roots@), asset);
        }
    }
    found
}

/// The assets that go when one asset is invalidated or changes: everything that
/// its current derivatives reach, in ascending order, and the asset itself where
/// it is included.
pub fn invalidation_order(rows: &Vec<DependencyRow>, root: &String, include_root: bool) -> (order:
    Vec<String>)
    ensures
        forall|asset: Seq<char>| #[trigger]
            texts(order@).contains(asset) <==> is_affected(rows@, true, seq![root@], asset) && (
            include_root || asset != root@),
        ascending(texts(order@)),
{
    let mut roots: Vec<String> = Vec::new();
    roots.push(root.clone());
    assert(texts(roots@) =~= seq![root@]);
    let all: Vec<String> = affected_assets(rows, true, &roots);
    if include_root {
        return all;
    }
    let mut order: Vec<String> = Vec::new();
    let mut i: usize = 0;
    let ghost whole = texts(all@);
    let ghost mut places: Seq<int> = seq![];
    assert(texts(order@) =~= seq![]);
    while i < all.len()
        invariant
            i <= all.len(),
            whole == texts(all@),
            ascending(whole),
            places.len() == order@.len(),
            forall|k: int|
                0 <= k < places.len() ==> 0 <= #[trigger] places[k] < i && texts(order@)[k]
                    == whole[places[k]],
            forall|a: int, b: int|
                0 <= a < b < places.len() ==> #[trigger] places[a] < #[trigger] places[b],
            forall|asset: Seq<char>| #[trigger]
                texts(order@).contains(asset) <==> whole.take(i as int).contains(asset) && asset
                    != root@,
        decreases all.len() - i,
    {
        let ghost before = texts(order@);
        let ghost node = whole[i as int];
        let keep: bool = !same_text(all[i].as_str(), root.as_str());
        if keep {
            order.push(all[i].clone());
            proof {
                assert(texts(order@) =~= before.push(node));
                places = places.push(i as int);
            }
        }
        proof {
            assert(whole.take(i + 1) =~= whole.take(i as int).push(node));
            assert forall|asset: Seq<char>| #[trigger]
                texts(order@).contains(asset) <==> whole.take(i + 1).contains(asset) && asset
                    != root@ by {
                crate::seqs::lemma_push_contains(whole.take(i as int), node, asset);
                assert(before.contains(asset) <==> whole.take(i as int).contains(asset) && asset
                    != root@);
                if keep {
                    crate::seqs::lemma_push_contains(before, node, asset);
                }
            }
        }
        i += 1;
    }
    proof {
        assert(whole.take(i as int) =~= whole);
        let kept = texts(order@);
        assert forall|a: int, b: int| 0 <= a < b < kept.len() implies crate::order::precedes(
            #[trigger] kept[a],
            #[trigger] kept[b],
        ) by {
            assert(places[a] < places[b]);
            assert(crate::order::precedes(whole[places[a]], whole[places[b]]));
        }
        assert forall|asset: Seq<char>| #[trigger]
            texts(order@).contains(asset) <==> is_affected(rows@, true, seq![root@], asset) && (
            include_root || asset != root@) by {
            assert(whole.contains(asset) <==> is_affected(rows@, true, seq![root@], asset));
        }
    }
    order
}

/// Whatever was derived from an affected asset is affected too, however far away
/// it is.
pub proof fn law_invalidation_is_transitive(
    rows: Seq<DependencyRow>,
    current_only: bool,
    roots: Seq<Seq<char>>,
    asset: Seq<char>,
    derived: Seq<char>,
)
    requires
        is_affected(rows, current_only, roots, asset),
        derived_from(rows, current_only, derived, asset),
    ensures
        is_affected(rows, current_only, roots, derived),
{
    let edges = choose|edges: Seq<Edge>| #[trigger]
        are_derivations(edges, rows, current_only) && reached_from(edges, roots, asset);
    let i = choose|i: int| 0 <= i < roots.len() && reaches(edges, #[trigger] roots[i], asset);
    assert(steps(edges, asset, derived));
    lemma_reaches_further(edges, roots[i], asset, derived);
    assert(reached_from(edges, roots, derived));
}

/// One derivation after the other leads from a root to an asset: each row is of an asset, of a
/// current version where only those count, and its source is what the row before it derived.
pub open spec fn leads_from(
    rows: Seq<DependencyRow>,
    current_only: bool,
    roots: Seq<Seq<char>>,
    asset: Seq<char>,
    via: Seq<int>,
) -> bool {
    &&& via.len() > 0
    &&& forall|k: int|
        0 <= k < via.len() ==> {
            &&& 0 <= #[trigger] via[k] < rows.len()
            &&& rows[via[k]].source_kind@ == "asset"@
            &&& current_only ==> rows[via[k]].derived_is_current
        }
    &&& roots.contains(rows[via[0]].source_id@)
    &&& forall|k: int|
        0 <= k < via.len() - 1 ==> rows[#[trigger] via[k]].derived_asset_id@ == rows[via[k
            + 1]].source_id@
    &&& rows[via.last()].derived_asset_id@ == asset
}

/// The steps from each asset to what was derived from it, one for each row that counts.
spec fn derivation_edges(rows: Seq<DependencyRow>, current_only: bool) -> Seq<Edge>
    decreases rows.len(),
{
    if rows.len() == 0 {
        seq![]
    } else {
        let row = rows.last();
        let before = derivation_edges(rows.drop_last(), current_only);
        if row.source_kind@ == "asset"@ && (!current_only || row.derived_is_current) {
            before.push(Edge { from: row.source_id, to: row.derived_asset_id })
        } else {
            before
        }
    }
}

/// There is a graph of the derivations.
proof fn lemma_derivation_edges(rows: Seq<DependencyRow>, current_only: bool)
    ensures
        are_derivations(derivation_edges(rows, current_only), rows, current_only),
    decreases rows.len(),
{
    let edges = derivation_edges(rows, current_only);
    if rows.len() > 0 {
        let head = rows.drop_last();
        let last = rows[rows.len() - 1];
        let before = derivation_edges(head, current_only);
        lemma_derivation_edges(head, current_only);
        assert forall|i: int| 0 <= i < head.len() implies head[i] == #[trigger] rows[i] by {}
        assert forall|source: Seq<char>, derived: Seq<char>| #[trigger]
            steps(edges, source, derived) <==> derived_from(rows, current_only, derived, source) by {
            assert(steps(before, source, derived) <==> derived_from(
                head,
                current_only,
                derived,
                source,
            ));
            if steps(edges, source, derived) {
                let k = choose|k: int|
                    0 <= k < edges.len() && (#[trigger] edges[k]).from@ == source && edges[k].to@
                        == derived;
                if k < before.len() {
                    assert(before[k] == edges[k]);
                    assert(steps(before, source, derived));
                    let i = choose|i: int|
                        0 <= i < head.len() && (#[trigger] head[i]).source_kind@ == "asset"@
                            && head[i].derived_asset_id@ == derived && head[i].source_id@ == source
                            && (!current_only || head[i].derived_is_current);
                    assert(rows[i] == head[i]);
                } else {
                    assert(rows[rows.len() - 1].derived_asset_id@ == derived);
                }
            }
            if derived_from(rows, current_only, derived, source) {
                let i = choose|i: int|
                    0 <= i < rows.len() && (#[trigger] rows[i]).source_kind@ == "asset"@
                        && rows[i].derived_asset_id@ == derived && rows[i].source_id@ == source && (
                    !current_only || rows[i].derived_is_current);
                if i < head.len() {
                    assert(head[i] == rows[i]);
                    assert(steps(before, source, derived));
                    let k = choose|k: int|
                        0 <= k < before.len() && (#[trigger] before[k]).from@ == source
                            && before[k].to@ == derived;
                    assert(edges[k] == before[k]);
                } else {
                    assert(edges[before.len() as int].from@ == source);
                }
            }
        }
    }
}

/// An asset is affected if and only if it is one of the roots, or derivations lead to it from
/// one of them, however many.
pub proof fn law_affected_is_what_derivations_lead_to(
    rows: Seq<DependencyRow>,
    current_only: bool,
    roots: Seq<Seq<char>>,
    asset: Seq<char>,
)
    ensures
        is_affected(rows, current_only, roots, asset) <==> roots.contains(asset) || exists|
            via: Seq<int>,
        | #[trigger]
            leads_from(rows, current_only, roots, asset, via),
{
    let edges = derivation_edges(rows, current_only);
    lemma_derivation_edges(rows, current_only);
    lemma_affected_by_any_graph(edges, rows, current_only, roots, asset);
    if roots.contains(asset) {
        let i = choose|i: int| 0 <= i < roots.len() && roots[i] == asset;
        let path = seq![asset];
        assert(is_path(edges, path) && path[0] == roots[i] && path.last() == asset);
        assert(reaches(edges, roots[i], asset));
    }
    if exists|via: Seq<int>| #[trigger] leads_from(rows, current_only, roots, asset, via) {
        let via = choose|via: Seq<int>| #[trigger]
            leads_from(rows, current_only, roots, asset, via);
        let start = rows[via[0]].source_id@;
        let i = choose|i: int| 0 <= i < roots.len() && roots[i] == start;
        let path = seq![start] + via.map_values(|place: int| rows[place].derived_asset_id@);
        assert forall|k: int| 0 <= k < path.len() - 1 implies steps(
            edges,
            #[trigger] path[k],
            path[k + 1],
        ) by {
            let row = rows[via[k]];
            if k > 0 {
                assert(rows[via[k - 1]].derived_asset_id@ == rows[via[k - 1 + 1]].source_id@);
            }
            assert(path[k] == row.source_id@);
            assert(path[k + 1] == row.derived_asset_id@);
            assert(derived_from(rows, current_only, path[k + 1], path[k]));
        }
        assert(is_path(edges, path));
        assert(path.last() == asset);
        assert(reaches(edges, roots[i], asset));
    }
    if reached_from(edges, roots, asset) && !roots.contains(asset) {
        let i = choose|i: int| 0 <= i < roots.len() && reaches(edges, #[trigger] roots[i], asset);
        let path = choose|path: Seq<Seq<char>>| #[trigger]
            is_path(edges, path) && path[0] == roots[i] && path.last() == asset;
        assert(path.len() > 1);
        let row_of = |k: int|
            choose|place: int|
                0 <= place < rows.len() && (#[trigger] rows[place]).source_kind@ == "asset"@
                    && rows[place].derived_asset_id@ == path[k + 1] && rows[place].source_id@
                    == path[k] && (!current_only || rows[place].derived_is_current);
        let via = Seq::new((path.len() - 1) as nat, row_of);
        assert forall|k: int| 0 <= k < via.len() implies {
            &&& 0 <= #[trigger] via[k] < rows.len()
            &&& rows[via[k]].source_kind@ == "asset"@
            &&& current_only ==> rows[via[k]].derived_is_current
            &&& rows[via[k]].derived_asset_id@ == path[k + 1]
            &&& rows[via[k]].source_id@ == path[k]
        } by {
            assert(steps(edges, path[k], path[k + 1]));
            assert(derived_from(rows, current_only, path[k + 1], path[k]));
        }
        assert forall|k: int| 0 <= k < via.len() - 1 implies rows[#[trigger] via[k]].derived_asset_id@
            == rows[via[k + 1]].source_id@ by {
            assert(rows[via[k + 1]].source_id@ == path[k + 1]);
        }
        assert(rows[via[0]].source_id@ == roots[i]);
        assert(leads_from(rows, current_only, roots, asset, via));
    }
}

/// An asset was derived from another one, directly or through others.
pub open spec fn is_ancestor(
    rows: Seq<DependencyRow>,
    current_only: bool,
    asset: Seq<char>,
    ancestor: Seq<char>,
) -> bool {
    exists|edges: Seq<Edge>, source: Seq<char>| #[trigger]
        are_sources(edges, rows, current_only) && #[trigger] steps(edges, asset, source) && reaches(
            edges,
            source,
            ancestor,
        )
}

/// Everything that an asset was derived from, directly or through others, each of
/// them once.
pub fn ancestors(rows: &Vec<DependencyRow>, current_only: bool, asset: &str) -> (found: Vec<
    String,
>)
    ensures
        texts(found@).no_duplicates(),
        forall|ancestor: Seq<char>| #[trigger]
            texts(found@).contains(ancestor) <==> is_ancestor(rows@, current_only, asset@, ancestor),
{
    let edges: Vec<Edge> = sources(rows, current_only);
    let starts: Vec<String> = next_nodes(&edges, asset);
    let found: Vec<String> = reachable_from(&edges, &starts);
    proof {
        let origin = texts(starts@);
        assert forall|ancestor: Seq<char>| #[trigger]
            texts(found@).contains(ancestor) <==> is_ancestor(rows@, current_only, asset@, ancestor) by {
            if reached_from(edges@, origin, ancestor) {
                let i = choose|i: int|
                    0 <= i < origin.len() && reaches(edges@, #[trigger] origin[i], ancestor);
                assert(origin.contains(origin[i]));
                assert(are_sources(edges@, rows@, current_only) && steps(edges@, asset@, origin[i]));
                assert(is_ancestor(rows@, current_only, asset@, ancestor));
            }
            if is_ancestor(rows@, current_only, asset@, ancestor) {
                let (other, source) = choose|other: Seq<Edge>, source: Seq<char>| #[trigger]
                    are_sources(other, rows@, current_only) && #[trigger] steps(other, asset@, source) && reaches(
                        other,
                        source,
                        ancestor,
                    );
                assert forall|x: Seq<char>, y: Seq<char>| #[trigger] steps(other, x, y) <==> steps(
                    edges@,
                    x,
                    y,
                ) by {
                    assert(steps(other, x, y) <==> derived_from(rows@, current_only, x, y));
                    assert(steps(edges@, x, y) <==> derived_from(rows@, current_only, x, y));
                }
                lemma_same_steps_same_reach(other, edges@, source, ancestor);
                assert(steps(edges@, asset@, source));
                assert(origin.contains(source));
                let i = choose|i: int| 0 <= i < origin.len() && origin[i] == source;
                assert(reaches(edges@, origin[i], ancestor));
            }
        }
    }
    found
}

/// Building one asset on another would close a circle.
pub open spec fn would_close_circle(
    rows: Seq<DependencyRow>,
    target: Seq<char>,
    source: Seq<char>,
) -> bool {
    target == source || is_ancestor(rows, false, source, target)
}

/// Why one asset cannot be built on another.
pub open spec fn cycle_fault(
    rows: Seq<DependencyRow>,
    target: Seq<char>,
    source: Seq<char>,
) -> Option<Fault> {
    if would_close_circle(rows, target, source) {
        fault(
            ErrorCode::SequenceConflict,
            "semantic merge would create a dependency cycle"@,
        )
    } else {
        None
    }
}

/// Refuses to build an asset on one that was built on it.
pub fn assert_no_dependency_cycle(rows: &Vec<DependencyRow>, target: &str, source: &str) -> (result:
    Result<(), StoreError>)
    ensures
        answers(result, cycle_fault(rows@, target@, source@)),
{
    let above: Vec<String> = ancestors(rows, false, source);
    if same_text(target, source) || has_text(&above, target) {
        return Err(
            StoreError::new(
                ErrorCode::SequenceConflict,
                "semantic merge would create a dependency cycle",
            ),
        );
    }
    Ok(())
}

/// No asset is its own ancestor.
pub open spec fn is_acyclic(edges: Seq<Edge>) -> bool {
    forall|a: Seq<char>, b: Seq<char>| #[trigger] steps(edges, a, b) ==> !reaches(edges, b, a)
}

proof fn lemma_paths_with_one_more_step(
    edges: Seq<Edge>,
    added: Edge,
    path: Seq<Seq<char>>,
)
    requires
        is_path(edges.push(added), path),
    ensures
        reaches(edges, path[0], path.last()) || (reaches(edges, path[0], added.from@) && reaches(
            edges,
            added.to@,
            path.last(),
        )),
    decreases path.len(),
{
    let more = edges.push(added);
    if path.len() == 1 {
        assert(is_path(edges, path));
        assert(path[0] == path.last());
    } else {
        let front = path.drop_last();
        assert forall|i: int| 0 <= i < front.len() - 1 implies steps(
            more,
            #[trigger] front[i],
            front[i + 1],
        ) by {
            assert(front[i] == path[i] && front[i + 1] == path[i + 1]);
        }
        lemma_paths_with_one_more_step(edges, added, front);
        let u = path[path.len() - 2];
        let b = path.last();
        assert(front.last() == u);
        assert(steps(more, path[path.len() - 2], path[path.len() - 2 + 1]));
        let k = choose|k: int|
            0 <= k < more.len() && (#[trigger] more[k]).from@ == u && more[k].to@ == b;
        if k < edges.len() {
            assert(edges[k] == more[k]);
            assert(steps(edges, u, b));
            if reaches(edges, path[0], u) {
                lemma_reaches_further(edges, path[0], u, b);
            } else {
                lemma_reaches_further(edges, added.to@, u, b);
            }
        } else {
            let alone = seq![b];
            assert(is_path(edges, alone));
            assert(alone[0] == b && alone.last() == b);
        }
    }
}

proof fn lemma_reaches_through(edges: Seq<Edge>, a: Seq<char>, b: Seq<char>, c: Seq<char>)
    requires
        reaches(edges, a, b),
        reaches(edges, b, c),
    ensures
        reaches(edges, a, c),
{
    let left = choose|path: Seq<Seq<char>>| #[trigger]
        is_path(edges, path) && path[0] == a && path.last() == b;
    let right = choose|path: Seq<Seq<char>>| #[trigger]
        is_path(edges, path) && path[0] == b && path.last() == c;
    let whole = left + right.drop_first();
    assert forall|i: int| 0 <= i < whole.len() - 1 implies steps(
        edges,
        #[trigger] whole[i],
        whole[i + 1],
    ) by {
        if i < left.len() - 1 {
            assert(whole[i] == left[i] && whole[i + 1] == left[i + 1]);
        } else {
            let j = i - left.len() + 1;
            assert(whole[i] == right[j]);
            assert(whole[i + 1] == right[j + 1]);
        }
    }
    assert(is_path(edges, whole));
    assert(whole[0] == a);
    assert(whole.last() == c);
}

proof fn lemma_acyclic_with_one_more_step(edges: Seq<Edge>, added: Edge)
    requires
        is_acyclic(edges),
        !reaches(edges, added.to@, added.from@),
    ensures
        is_acyclic(edges.push(added)),
{
    let more = edges.push(added);
    assert forall|a: Seq<char>, b: Seq<char>| #[trigger] steps(more, a, b) implies !reaches(
        more,
        b,
        a,
    ) by {
        if reaches(more, b, a) {
            let path = choose|path: Seq<Seq<char>>| #[trigger]
                is_path(more, path) && path[0] == b && path.last() == a;
            lemma_paths_with_one_more_step(edges, added, path);
            let k = choose|k: int|
                0 <= k < more.len() && (#[trigger] more[k]).from@ == a && more[k].to@ == b;
            if k < edges.len() {
                assert(edges[k] == more[k]);
                assert(steps(edges, a, b));
                if !reaches(edges, b, a) {
                    lemma_reaches_further(edges, added.to@, a, b);
                    lemma_reaches_through(edges, added.to@, b, added.from@);
                }
            }
        }
    }
}

/// Lineage stays free of circles: where the steps from each asset to what it was
/// derived from lead nowhere back, and an asset is built on another one that the
/// check for circles lets pass, the steps still lead nowhere back.
pub proof fn law_merge_keeps_lineage_acyclic(
    rows: Seq<DependencyRow>,
    edges: Seq<Edge>,
    added: Edge,
)
    requires
        are_sources(edges, rows, false),
        is_acyclic(edges),
        cycle_fault(rows, added.from@, added.to@) is None,
    ensures
        is_acyclic(edges.push(added)),
{
    if reaches(edges, added.to@, added.from@) {
        let path = choose|path: Seq<Seq<char>>| #[trigger]
            is_path(edges, path) && path[0] == added.to@ && path.last() == added.from@;
        if path.len() > 1 {
            let rest = path.drop_first();
            assert forall|i: int| 0 <= i < rest.len() - 1 implies steps(
                edges,
                #[trigger] rest[i],
                rest[i + 1],
            ) by {
                assert(rest[i] == path[i + 1] && rest[i + 1] == path[i + 1 + 1]);
            }
            assert(is_path(edges, rest));
            assert(rest[0] == path[1] && rest.last() == added.from@);
            assert(reaches(edges, path[1], added.from@));
            let start: int = 0;
            assert(steps(edges, path[start], path[start + 1]));
            assert(is_ancestor(rows, false, added.to@, added.from@));
        }
        assert(false);
    }
    lemma_acyclic_with_one_more_step(edges, added);
}

/// One derivation after the other leads from an asset back to another: the first row derived
/// the asset, each row derived the source of the one before it, and the last row has the other
/// asset as its source.
pub open spec fn leads_back(
    rows: Seq<DependencyRow>,
    current_only: bool,
    asset: Seq<char>,
    ancestor: Seq<char>,
    via: Seq<int>,
) -> bool {
    &&& via.len() > 0
    &&& forall|k: int|
        0 <= k < via.len() ==> {
            &&& 0 <= #[trigger] via[k] < rows.len()
            &&& rows[via[k]].source_kind@ == "asset"@
            &&& current_only ==> rows[via[k]].derived_is_current
        }
    &&& rows[via[0]].derived_asset_id@ == asset
    &&& forall|k: int|
        0 <= k < via.len() - 1 ==> rows[#[trigger] via[k]].source_id@ == rows[via[k
            + 1]].derived_asset_id@
    &&& rows[via.last()].source_id@ == ancestor
}

/// The steps from each asset to what it was derived from, one for each row that counts.
spec fn source_edges(rows: Seq<DependencyRow>, current_only: bool) -> Seq<Edge> {
    derivation_edges(rows, current_only).map_values(
        |edge: Edge| Edge { from: edge.to, to: edge.from },
    )
}

/// There is a graph of the sources.
proof fn lemma_source_edges(rows: Seq<DependencyRow>, current_only: bool)
    ensures
        are_sources(source_edges(rows, current_only), rows, current_only),
{
    let forward = derivation_edges(rows, current_only);
    let edges = source_edges(rows, current_only);
    lemma_derivation_edges(rows, current_only);
    assert forall|derived: Seq<char>, source: Seq<char>| #[trigger]
        steps(edges, derived, source) <==> derived_from(rows, current_only, derived, source) by {
        assert(steps(forward, source, derived) <==> derived_from(
            rows,
            current_only,
            derived,
            source,
        ));
        if steps(edges, derived, source) {
            let k = choose|k: int|
                0 <= k < edges.len() && (#[trigger] edges[k]).from@ == derived && edges[k].to@
                    == source;
            assert(forward[k].from@ == source);
        }
        if steps(forward, source, derived) {
            let k = choose|k: int|
                0 <= k < forward.len() && (#[trigger] forward[k]).from@ == source
                    && forward[k].to@ == derived;
            assert(edges[k].from@ == derived);
        }
    }
}

/// An asset was derived from another one if and only if derivations lead back to it, however
/// many. So nothing is built on what was built on it, and everything else can be.
pub proof fn law_ancestors_are_what_derivations_lead_back_to(
    rows: Seq<DependencyRow>,
    current_only: bool,
    asset: Seq<char>,
    ancestor: Seq<char>,
)
    ensures
        is_ancestor(rows, current_only, asset, ancestor) <==> exists|via: Seq<int>| #[trigger]
            leads_back(rows, current_only, asset, ancestor, via),
        cycle_fault(rows, ancestor, asset) is None <==> ancestor != asset && !is_ancestor(
            rows,
            false,
            asset,
            ancestor,
        ),
{
    if is_ancestor(rows, current_only, asset, ancestor) {
        let (edges, source) = choose|edges: Seq<Edge>, source: Seq<char>| #[trigger]
            are_sources(edges, rows, current_only) && #[trigger] steps(edges, asset, source)
                && reaches(edges, source, ancestor);
        let tail = choose|path: Seq<Seq<char>>| #[trigger]
            is_path(edges, path) && path[0] == source && path.last() == ancestor;
        let path = seq![asset] + tail;
        assert forall|k: int| 0 <= k < path.len() - 1 implies steps(
            edges,
            #[trigger] path[k],
            path[k + 1],
        ) by {
            if k > 0 {
                assert(path[k] == tail[k - 1] && path[k + 1] == tail[k - 1 + 1]);
                assert(steps(edges, tail[k - 1], tail[k - 1 + 1]));
            }
        }
        let row_of = |k: int|
            choose|place: int|
                0 <= place < rows.len() && (#[trigger] rows[place]).source_kind@ == "asset"@
                    && rows[place].derived_asset_id@ == path[k] && rows[place].source_id@
                    == path[k + 1] && (!current_only || rows[place].derived_is_current);
        let via = Seq::new((path.len() - 1) as nat, row_of);
        assert forall|k: int| 0 <= k < via.len() implies {
            &&& 0 <= #[trigger] via[k] < rows.len()
            &&& rows[via[k]].source_kind@ == "asset"@
            &&& current_only ==> rows[via[k]].derived_is_current
            &&& rows[via[k]].derived_asset_id@ == path[k]
            &&& rows[via[k]].source_id@ == path[k + 1]
        } by {
            assert(steps(edges, path[k], path[k + 1]));
            assert(derived_from(rows, current_only, path[k], path[k + 1]));
        }
        assert forall|k: int| 0 <= k < via.len() - 1 implies rows[#[trigger] via[k]].source_id@
            == rows[via[k + 1]].derived_asset_id@ by {
            assert(rows[via[k + 1]].derived_asset_id@ == path[k + 1]);
        }
        assert(rows[via[0]].derived_asset_id@ == asset);
        assert(path.last() == ancestor);
        assert(leads_back(rows, current_only, asset, ancestor, via));
    }
    if exists|via: Seq<int>| #[trigger] leads_back(rows, current_only, asset, ancestor, via) {
        let via = choose|via: Seq<int>| #[trigger]
            leads_back(rows, current_only, asset, ancestor, via);
        let edges = source_edges(rows, current_only);
        lemma_source_edges(rows, current_only);
        let path = via.map_values(|place: int| rows[place].source_id@);
        let source = path[0];
        assert(derived_from(rows, current_only, asset, source)) by {
            assert(rows[via[0]].source_kind@ == "asset"@);
        }
        assert(steps(edges, asset, source));
        assert forall|k: int| 0 <= k < path.len() - 1 implies steps(
            edges,
            #[trigger] path[k],
            path[k + 1],
        ) by {
            assert(rows[via[k]].source_id@ == rows[via[k + 1]].derived_asset_id@);
            assert(rows[via[k + 1]].source_kind@ == "asset"@);
            assert(derived_from(rows, current_only, path[k], path[k + 1]));
        }
        assert(is_path(edges, path) && path[0] == source && path.last() == ancestor);
        assert(reaches(edges, source, ancestor));
        assert(are_sources(edges, rows, current_only));
    }
}

// ---------------------------------------------------------------------------
// Lineage and authority

/// An ancestor of an asset: what authority over it is read from, and how it
/// stands.
#[derive(Clone, Debug)]
pub struct AncestorRow {
    pub asset: Option<AssetScopeRow>,
    pub grant: Option<GrantRow>,
    /// The status of the ancestor and whether its current version still holds.
    pub loaded: Option<(MemoryAssetStatus, bool)>,
}

/// Why an ancestor is in the way of a principal.
pub open spec fn ancestor_fault(
    principal: StoreMemoryPrincipal,
    row: AncestorRow,
    require_valid: bool,
) -> Option<Fault> {
    first(
        authorization_fault(principal, "read"@, row.asset, row.grant),
        match row.loaded {
            None => fault(ErrorCode::InvalidPayload, "memory source missing"@),
            Some((status, valid)) => if require_valid && (status.is_withdrawn() || !valid) {
                fault(ErrorCode::SequenceConflict, "memory source no longer valid"@)
            } else {
                None
            },
        },
    )
}

/// Why some ancestors are in the way of a principal: the first one that is.
pub open spec fn lineage_fault(
    principal: StoreMemoryPrincipal,
    lineage: Seq<AncestorRow>,
    require_valid: bool,
) -> Option<Fault>
    decreases lineage.len(),
{
    if lineage.len() == 0 {
        None
    } else {
        first(
            lineage_fault(principal, lineage.drop_last(), require_valid),
            ancestor_fault(principal, lineage.last(), require_valid),
        )
    }
}

proof fn lemma_first_ancestor_fault_stands(
    principal: StoreMemoryPrincipal,
    lineage: Seq<AncestorRow>,
    require_valid: bool,
    count: int,
)
    requires
        0 <= count <= lineage.len(),
        lineage_fault(principal, lineage.take(count), require_valid) is Some,
    ensures
        lineage_fault(principal, lineage, require_valid) == lineage_fault(
            principal,
            lineage.take(count),
            require_valid,
        ),
    decreases lineage.len() - count,
{
    if count == lineage.len() {
        assert(lineage.take(count) =~= lineage);
    } else {
        assert(lineage.take(count + 1).drop_last() =~= lineage.take(count));
        lemma_first_ancestor_fault_stands(principal, lineage, require_valid, count + 1);
    }
}

fn check_ancestor(principal: &StoreMemoryPrincipal, row: &AncestorRow, require_valid: bool) -> (result:
    Result<(), StoreError>)
    ensures
        answers(result, ancestor_fault(*principal, *row, require_valid)),
{
    authorize(principal, "read", &row.asset, &row.grant)?;
    match &row.loaded {
        None => Err(StoreError::new(ErrorCode::InvalidPayload, "memory source missing")),
        Some((status, valid)) => {
            if require_valid && (status.withdrawn() || !*valid) {
                return Err(
                    StoreError::new(ErrorCode::SequenceConflict, "memory source no longer valid"),
                );
            }
            Ok(())
        },
    }
}

/// Lets a principal use an asset only where it may read everything that the asset
/// was derived from and, where that is asked for, all of it still holds.
pub fn assert_lineage_authorized(
    principal: &StoreMemoryPrincipal,
    lineage: &Vec<AncestorRow>,
    require_valid: bool,
) -> (result: Result<(), StoreError>)
    ensures
        answers(result, lineage_fault(*principal, lineage@, require_valid)),
{
    let mut i: usize = 0;
    while i < lineage.len()
        invariant
            i <= lineage.len(),
            lineage_fault(*principal, lineage@.take(i as int), require_valid) is None,
        decreases lineage.len() - i,
    {
        assert(lineage@.take(i + 1).drop_last() =~= lineage@.take(i as int));
        assert(lineage@.take(i + 1).last() == lineage@[i as int]);
        match check_ancestor(principal, &lineage[i], require_valid) {
            Ok(_) => {},
            Err(error) => {
                proof {
                    lemma_first_ancestor_fault_stands(*principal, lineage@, require_valid, i + 1);
                }
                return Err(error);
            },
        }
        i += 1;
    }
    assert(lineage@.take(i as int) =~= lineage@);
    Ok(())
}

/// A lineage is in order where each of its assets is.
proof fn lemma_lineage_is_each_ancestor(
    principal: StoreMemoryPrincipal,
    lineage: Seq<AncestorRow>,
    require_valid: bool,
)
    ensures
        lineage_fault(principal, lineage, require_valid) is None <==> forall|i: int|
            0 <= i < lineage.len() ==> ancestor_fault(principal, #[trigger] lineage[i], require_valid) is None,
    decreases lineage.len(),
{
    if lineage.len() > 0 {
        let head = lineage.drop_last();
        lemma_lineage_is_each_ancestor(principal, head, require_valid);
        assert forall|i: int| 0 <= i < head.len() implies head[i] == #[trigger] lineage[i] by {}
        if lineage_fault(principal, lineage, require_valid) is None {
            assert forall|i: int| 0 <= i < lineage.len() implies ancestor_fault(principal, #[trigger] lineage[i], require_valid) is None by {
                if i < head.len() {
                    assert(ancestor_fault(principal, head[i], require_valid) is None);
                }
            }
        }
        if forall|i: int|
            0 <= i < lineage.len() ==> ancestor_fault(principal, #[trigger] lineage[i], require_valid) is None {
            assert forall|i: int| 0 <= i < head.len() implies ancestor_fault(principal, #[trigger] head[i], require_valid) is None by {
                assert(ancestor_fault(principal, lineage[i], require_valid) is None);
            }
            assert(ancestor_fault(principal, lineage[lineage.len() - 1], require_valid) is None);
        }
    }
}

/// A lineage is in order if and only if the principal may read every asset in it, each of them
/// is there and, where they have to be valid, none is invalidated or archived or no longer
/// holds. An asset without a lineage is in order.
pub proof fn law_lineage_is_in_order_where_each_ancestor_is(
    principal: StoreMemoryPrincipal,
    lineage: Seq<AncestorRow>,
    require_valid: bool,
)
    ensures
        lineage_fault(principal, lineage, require_valid) is None <==> forall|i: int|
            0 <= i < lineage.len() ==> {
                let row = #[trigger] lineage[i];
                &&& authorization_fault(principal, "read"@, row.asset, row.grant) is None
                &&& row.loaded is Some
                &&& require_valid ==> {
                    let (status, valid) = row.loaded->Some_0;
                    &&& status != MemoryAssetStatus::Invalidated
                    &&& status != MemoryAssetStatus::Archived
                    &&& valid
                }
            },
{
    lemma_lineage_is_each_ancestor(principal, lineage, require_valid);
    assert forall|i: int| 0 <= i < lineage.len() implies (ancestor_fault(
        principal,
        #[trigger] lineage[i],
        require_valid,
    ) is None) == {
        let row = lineage[i];
        &&& authorization_fault(principal, "read"@, row.asset, row.grant) is None
        &&& row.loaded is Some
        &&& require_valid ==> {
            let (status, valid) = row.loaded->Some_0;
            &&& status != MemoryAssetStatus::Invalidated
            &&& status != MemoryAssetStatus::Archived
            &&& valid
        }
    } by {}
}

/// Derived memory opens nothing: a principal that may not read one of an asset's
/// ancestors may not use the asset through its lineage.
pub proof fn law_lineage_needs_every_ancestor(
    principal: StoreMemoryPrincipal,
    lineage: Seq<AncestorRow>,
    require_valid: bool,
    i: int,
)
    requires
        lineage_fault(principal, lineage, require_valid) is None,
        0 <= i < lineage.len(),
    ensures
        authorization_fault(principal, "read"@, lineage[i].asset, lineage[i].grant) is None,
        lineage[i].loaded is Some,
        require_valid ==> !lineage[i].loaded->Some_0.0.is_withdrawn() && lineage[i].loaded->Some_0.1,
    decreases lineage.len(),
{
    if i < lineage.len() - 1 {
        law_lineage_needs_every_ancestor(principal, lineage.drop_last(), require_valid, i);
        assert(lineage.drop_last()[i] == lineage[i]);
    }
}

/// Why an asset is not read.
pub open spec fn read_asset_fault(
    principal: StoreMemoryPrincipal,
    action: Seq<char>,
    asset: Option<AssetScopeRow>,
    grant: Option<GrantRow>,
    lineage: Seq<AncestorRow>,
) -> Option<Fault> {
    if asset is None {
        None
    } else {
        first(
            authorization_fault(principal, action, asset, grant),
            lineage_fault(principal, lineage, false),
        )
    }
}

/// Whether an asset is there and may be read. An asset that is not there is no
/// error.
pub fn read_memory_asset(
    principal: &StoreMemoryPrincipal,
    action: &str,
    asset: &Option<AssetScopeRow>,
    grant: &Option<GrantRow>,
    lineage: &Vec<AncestorRow>,
) -> (result: Result<bool, StoreError>)
    ensures
        answers(result, read_asset_fault(*principal, action@, *asset, *grant, lineage@)),
        result is Ok ==> result->Ok_0 == (asset is Some),
{
    if asset.is_none() {
        return Ok(false);
    }
    authorize(principal, action, asset, grant)?;
    assert_lineage_authorized(principal, lineage, false)?;
    Ok(true)
}

/// An asset that is not there is read as nothing. One that is there is read by whoever is
/// authorized for the action on it and may read all that it was derived from, valid or not.
pub proof fn law_asset_is_read_with_its_lineage(
    principal: StoreMemoryPrincipal,
    action: Seq<char>,
    asset: Option<AssetScopeRow>,
    grant: Option<GrantRow>,
    lineage: Seq<AncestorRow>,
)
    ensures
        asset is None ==> read_asset_fault(principal, action, asset, grant, lineage) is None,
        asset is Some ==> (read_asset_fault(principal, action, asset, grant, lineage) is None <==> {
            &&& authorization_fault(principal, action, asset, grant) is None
            &&& lineage_fault(principal, lineage, false) is None
        }),
{
}

/// Lets a principal export all versions of an asset.
pub fn export_memory_versions(
    principal: &StoreMemoryPrincipal,
    action: &str,
    asset: &Option<AssetScopeRow>,
    grant: &Option<GrantRow>,
    lineage: &Vec<AncestorRow>,
) -> (result: Result<(), StoreError>)
    ensures
        answers(
            result,
            first(
                authorization_fault(*principal, action@, *asset, *grant),
                lineage_fault(*principal, lineage@, false),
            ),
        ),
{
    authorize(principal, action, asset, grant)?;
    assert_lineage_authorized(principal, lineage, false)
}

// ---------------------------------------------------------------------------
// Writing a version

/// An asset that another one is built on: what authority over it is read from,
/// and how it stands.
#[derive(Clone, Debug)]
pub struct BaseRow {
    pub reference: MemoryVersionRef,
    pub asset: Option<AssetScopeRow>,
    pub grant: Option<GrantRow>,
    pub loaded: Option<LoadedAsset>,
}

/// How an asset stands.
#[derive(Clone, Copy, Debug, PartialEq, Eq)]
pub struct LoadedAsset {
    pub current_version: u64,
    pub status: MemoryAssetStatus,
    /// Whether its current version still holds.
    pub valid: bool,
}

/// Why a new version cannot be built on an asset.
pub open spec fn merge_source_fault(
    principal: StoreMemoryPrincipal,
    target: Seq<char>,
    base: BaseRow,
    dependencies: Seq<DependencyRow>,
) -> Option<Fault> {
    first(
        authorization_fault(principal, "read"@, base.asset, base.grant),
        match base.loaded {
            None => fault(ErrorCode::InvalidPayload, "merge source missing"@),
            Some(asset) => if asset.current_version != base.reference.version
                || base.reference.memory_asset_id@ == target || asset.status.is_withdrawn() {
                fault(
                    ErrorCode::SequenceConflict,
                    "semantic merge source is stale or cyclic"@,
                )
            } else {
                cycle_fault(dependencies, target, base.reference.memory_asset_id@)
            },
        },
    )
}

fn check_merge_source(
    principal: &StoreMemoryPrincipal,
    target: &str,
    base: &BaseRow,
    dependencies: &Vec<DependencyRow>,
) -> (result: Result<(), StoreError>)
    ensures
        answers(result, merge_source_fault(*principal, target@, *base, dependencies@)),
{
    authorize(principal, "read", &base.asset, &base.grant)?;
    match &base.loaded {
        None => Err(StoreError::new(ErrorCode::InvalidPayload, "merge source missing")),
        Some(asset) => {
            if asset.current_version != base.reference.version || same_text(
                base.reference.memory_asset_id.as_str(),
                target,
            ) || asset.status.withdrawn() {
                return Err(
                    StoreError::new(
                        ErrorCode::SequenceConflict,
                        "semantic merge source is stale or cyclic",
                    ),
                );
            }
            assert_no_dependency_cycle(
                dependencies,
                target,
                base.reference.memory_asset_id.as_str(),
            )
        },
    }
}

/// Why a new version cannot be built on some assets: the first one in the way.
pub open spec fn merge_fault(
    principal: StoreMemoryPrincipal,
    target: Seq<char>,
    bases: Seq<BaseRow>,
    dependencies: Seq<DependencyRow>,
) -> Option<Fault>
    decreases bases.len(),
{
    if bases.len() == 0 {
        None
    } else {
        first(
            merge_fault(principal, target, bases.drop_last(), dependencies),
            merge_source_fault(principal, target, bases.last(), dependencies),
        )
    }
}

proof fn lemma_first_merge_fault_stands(
    principal: StoreMemoryPrincipal,
    target: Seq<char>,
    bases: Seq<BaseRow>,
    dependencies: Seq<DependencyRow>,
    count: int,
)
    requires
        0 <= count <= bases.len(),
        merge_fault(principal, target, bases.take(count), dependencies) is Some,
    ensures
        merge_fault(principal, target, bases, dependencies) == merge_fault(
            principal,
            target,
            bases.take(count),
            dependencies,
        ),
    decreases bases.len() - count,
{
    if count == bases.len() {
        assert(bases.take(count) =~= bases);
    } else {
        assert(bases.take(count + 1).drop_last() =~= bases.take(count));
        lemma_first_merge_fault_stands(principal, target, bases, dependencies, count + 1);
    }
}

fn check_merge(
    principal: &StoreMemoryPrincipal,
    target: &str,
    bases: &Vec<BaseRow>,
    dependencies: &Vec<DependencyRow>,
) -> (result: Result<(), StoreError>)
    ensures
        answers(result, merge_fault(*principal, target@, bases@, dependencies@)),
{
    let mut i: usize = 0;
    while i < bases.len()
        invariant
            i <= bases.len(),
            merge_fault(*principal, target@, bases@.take(i as int), dependencies@) is None,
        decreases bases.len() - i,
    {
        assert(bases@.take(i + 1).drop_last() =~= bases@.take(i as int));
        assert(bases@.take(i + 1).last() == bases@[i as int]);
        match check_merge_source(principal, target, &bases[i], dependencies) {
            Ok(_) => {},
            Err(error) => {
                proof {
                    lemma_first_merge_fault_stands(
                        *principal,
                        target@,
                        bases@,
                        dependencies@,
                        i + 1,
                    );
                }
                return Err(error);
            },
        }
        i += 1;
    }
    assert(bases@.take(i as int) =~= bases@);
    Ok(())
}

/// The rows that a new version is decided on.
#[derive(Clone, Debug)]
pub struct VersionRows {
    pub fence_generation: Option<i64>,
    pub asset: Option<AssetScopeRow>,
    pub grant: Option<GrantRow>,
    pub current_version: Option<i64>,
    /// One row for each asset that the version is built on, in order.
    pub bases: Vec<BaseRow>,
    pub dependencies: Vec<DependencyRow>,
}

/// Why a version does not follow the one that its writer has read.
pub open spec fn version_step_fault(commit: MemoryVersionCommit, current: Option<i64>) -> Option<
    Fault,
> {
    match current {
        None => fault(ErrorCode::InvalidPayload, "memory asset was not found"@),
        Some(stored) => first(
            i64_fault(commit.expected_version, "expected memory version"@),
            if stored != commit.expected_version {
                fault(
                    ErrorCode::SequenceConflict,
                    "memory current version does not match expected version"@,
                )
            } else if commit.version.record.version != commit.expected_version + 1
                || commit.asset.current_version != commit.version.record.version {
                fault(
                    ErrorCode::InvalidSequence,
                    "memory CAS commit does not advance exactly one version"@,
                )
            } else {
                None
            },
        ),
    }
}

/// Why a new version is not written.
pub open spec fn write_version_fault(
    commit: MemoryVersionCommit,
    verdicts: MemoryVerdicts,
    fence: HostFence,
    rows: VersionRows,
) -> Option<Fault> {
    first(
        verdict_fault(verdicts.asset, "invalid memory asset: "@),
        first(
            verdict_fault(verdicts.version, "invalid memory version: "@),
            first(
                fence_fault(rows.fence_generation, fence),
                first(
                    authorization_fault(
                        commit.authorization,
                        commit.action@,
                        rows.asset,
                        rows.grant,
                    ),
                    first(
                        version_step_fault(commit, rows.current_version),
                        first(
                            merge_fault(
                                commit.authorization,
                                commit.memory_asset_id@,
                                rows.bases@,
                                rows.dependencies@,
                            ),
                            first(
                                i64_fault(commit.version.record.version, "memory version"@),
                                sources_fault(commit.version.sources@),
                            ),
                        ),
                    ),
                ),
            ),
        ),
    )
}

fn check_version_step(commit: &MemoryVersionCommit, current: Option<i64>) -> (result: Result<
    (),
    StoreError,
>)
    ensures
        answers(result, version_step_fault(*commit, current)),
{
    match current {
        None => Err(StoreError::new(ErrorCode::InvalidPayload, "memory asset was not found")),
        Some(stored) => {
            let expected: i64 = to_i64(commit.expected_version, "expected memory version")?;
            if stored != expected {
                return Err(
                    StoreError::new(
                        ErrorCode::SequenceConflict,
                        "memory current version does not match expected version",
                    ),
                );
            }
            if commit.version.record.version != commit.expected_version + 1
                || commit.asset.current_version != commit.version.record.version {
                return Err(
                    StoreError::new(
                        ErrorCode::InvalidSequence,
                        "memory CAS commit does not advance exactly one version",
                    ),
                );
            }
            Ok(())
        },
    }
}

/// What a new version does besides its own rows.
#[derive(Clone, Debug, PartialEq, Eq)]
pub struct VersionWrite {
    /// The version is built on what its predecessor was built on.
    pub inherits_lineage: bool,
    /// The assets that were built on the old version, which no longer hold.
    pub invalidated: Vec<String>,
    /// The status that these get.
    pub status: MemoryAssetStatus,
    /// Why they get it.
    pub reason: String,
}

/// The rows of a version's bases are those of the assets that it refers to, one for
/// each and in order.
pub open spec fn are_bases_of(bases: Seq<BaseRow>, references: Seq<MemoryVersionRef>) -> bool {
    &&& bases.len() == references.len()
    &&& forall|i: int|
        0 <= i < bases.len() ==> (#[trigger] bases[i]).reference.memory_asset_id@
            == references[i].memory_asset_id@ && bases[i].reference.version
            == references[i].version
}

/// Writes the next version of an asset where it is at the version that its writer
/// has read. Everything that was built on the old version is invalidated.
pub fn write_memory_version(
    commit: &MemoryVersionCommit,
    verdicts: &MemoryVerdicts,
    fence: &HostFence,
    rows: &VersionRows,
) -> (result: Result<VersionWrite, StoreError>)
    requires
        are_bases_of(rows.bases@, commit.source_assets@),
    ensures
        answers(result, write_version_fault(*commit, *verdicts, *fence, *rows)),
        result is Ok ==> {
            let write = result->Ok_0;
            &&& write.inherits_lineage == (commit.source_assets@.len() == 0)
            &&& write.status == MemoryAssetStatus::Invalidated
            &&& write.reason@ == "source_version_changed"@
            &&& ascending(texts(write.invalidated@))
            &&& forall|asset: Seq<char>| #[trigger]
                texts(write.invalidated@).contains(asset) <==> asset != commit.memory_asset_id@
                    && is_affected(
                    rows.dependencies@,
                    true,
                    seq![commit.memory_asset_id@],
                    asset,
                )
        },
{
    check_verdict(&verdicts.asset, "invalid memory asset: ")?;
    check_verdict(&verdicts.version, "invalid memory version: ")?;
    check_fence(rows.fence_generation, fence)?;
    authorize(&commit.authorization, commit.action.as_str(), &rows.asset, &rows.grant)?;
    check_version_step(commit, rows.current_version)?;
    check_merge(
        &commit.authorization,
        commit.memory_asset_id.as_str(),
        &rows.bases,
        &rows.dependencies,
    )?;
    write_version_sources(commit.version.record.version, &commit.version.sources)?;
    let invalidated: Vec<String> = invalidation_order(
        &rows.dependencies,
        &commit.memory_asset_id,
        false,
    );
    Ok(
        VersionWrite {
            inherits_lineage: rows.bases.len() == 0,
            invalidated,
            status: MemoryAssetStatus::Invalidated,
            reason: "source_version_changed".to_owned(),
        },
    )
}

/// A merge is in order where each of its sources is.
proof fn lemma_merge_is_each_base(
    principal: StoreMemoryPrincipal,
    target: Seq<char>,
    bases: Seq<BaseRow>,
    dependencies: Seq<DependencyRow>,
)
    ensures
        merge_fault(principal, target, bases, dependencies) is None <==> forall|i: int|
            0 <= i < bases.len() ==> merge_source_fault(principal, target, #[trigger] bases[i], dependencies) is None,
    decreases bases.len(),
{
    if bases.len() > 0 {
        let head = bases.drop_last();
        lemma_merge_is_each_base(principal, target, head, dependencies);
        assert forall|i: int| 0 <= i < head.len() implies head[i] == #[trigger] bases[i] by {}
        if merge_fault(principal, target, bases, dependencies) is None {
            assert forall|i: int| 0 <= i < bases.len() implies merge_source_fault(principal, target, #[trigger] bases[i], dependencies) is None by {
                if i < head.len() {
                    assert(merge_source_fault(principal, target, head[i], dependencies) is None);
                }
            }
        }
        if forall|i: int|
            0 <= i < bases.len() ==> merge_source_fault(principal, target, #[trigger] bases[i], dependencies) is None {
            assert forall|i: int| 0 <= i < head.len() implies merge_source_fault(principal, target, #[trigger] head[i], dependencies) is None by {
                assert(merge_source_fault(principal, target, bases[i], dependencies) is None);
            }
            assert(merge_source_fault(principal, target, bases[bases.len() - 1], dependencies) is None);
        }
    }
}

/// A version is written if and only if it and its asset are sound, its author is authorized for
/// the action, it is the next after the version that was expected and is current, its sources
/// can be stored, and each asset that it merges may be read, is there at that version, is
/// neither invalidated nor archived, and was not itself derived from the asset.
pub proof fn law_next_version_is_written(
    commit: MemoryVersionCommit,
    verdicts: MemoryVerdicts,
    fence: HostFence,
    rows: VersionRows,
)
    ensures
        write_version_fault(commit, verdicts, fence, rows) is None <==> {
            &&& verdicts.asset is Ok
            &&& verdicts.version is Ok
            &&& rows.fence_generation is Some
            &&& rows.fence_generation->Some_0 == fence.generation as int
            &&& authorization_fault(
                commit.authorization,
                commit.action@,
                rows.asset,
                rows.grant,
            ) is None
            &&& rows.current_version is Some
            &&& rows.current_version->Some_0 == commit.expected_version as int
            &&& commit.version.record.version == commit.expected_version + 1
            &&& commit.version.record.version <= i64::MAX
            &&& commit.asset.current_version == commit.version.record.version
            &&& sources_fault(commit.version.sources@) is None
            &&& forall|i: int|
                0 <= i < rows.bases@.len() ==> {
                    let base = #[trigger] rows.bases@[i];
                    &&& authorization_fault(
                        commit.authorization,
                        "read"@,
                        base.asset,
                        base.grant,
                    ) is None
                    &&& base.loaded is Some
                    &&& base.loaded->Some_0.current_version == base.reference.version
                    &&& base.loaded->Some_0.status != MemoryAssetStatus::Invalidated
                    &&& base.loaded->Some_0.status != MemoryAssetStatus::Archived
                    &&& base.reference.memory_asset_id@ != commit.memory_asset_id@
                    &&& !is_ancestor(
                        rows.dependencies@,
                        false,
                        base.reference.memory_asset_id@,
                        commit.memory_asset_id@,
                    )
                }
        },
{
    let bases = rows.bases@;
    lemma_merge_is_each_base(
        commit.authorization,
        commit.memory_asset_id@,
        bases,
        rows.dependencies@,
    );
    assert forall|i: int| 0 <= i < bases.len() implies (merge_source_fault(
        commit.authorization,
        commit.memory_asset_id@,
        #[trigger] bases[i],
        rows.dependencies@,
    ) is None) == {
        let base = bases[i];
        &&& authorization_fault(commit.authorization, "read"@, base.asset, base.grant) is None
        &&& base.loaded is Some
        &&& base.loaded->Some_0.current_version == base.reference.version
        &&& base.loaded->Some_0.status != MemoryAssetStatus::Invalidated
        &&& base.loaded->Some_0.status != MemoryAssetStatus::Archived
        &&& base.reference.memory_asset_id@ != commit.memory_asset_id@
        &&& !is_ancestor(
            rows.dependencies@,
            false,
            base.reference.memory_asset_id@,
            commit.memory_asset_id@,
        )
    } by {}
}

/// Versions follow each other one by one: once a version was written, a second
/// writer that has read the same predecessor is refused.
pub proof fn law_version_is_written_once(
    commit: MemoryVersionCommit,
    second: MemoryVersionCommit,
    current: Option<i64>,
)
    requires
        version_step_fault(commit, current) is None,
        second.expected_version == commit.expected_version,
        commit.version.record.version <= i64::MAX,
    ensures
        version_step_fault(second, Some(commit.version.record.version as i64)) == fault(
            ErrorCode::SequenceConflict,
            "memory current version does not match expected version"@,
        ),
{
}

// ---------------------------------------------------------------------------
// Derived memory and snapshots

/// Why memory cannot be derived from an asset.
pub open spec fn derive_source_fault(principal: StoreMemoryPrincipal, base: BaseRow) -> Option<
    Fault,
> {
    first(
        authorization_fault(principal, "read"@, base.asset, base.grant),
        match base.loaded {
            None => fault(ErrorCode::InvalidPayload, "derived source missing"@),
            Some(asset) => if asset.current_version != base.reference.version
                || asset.status.is_withdrawn() || !asset.valid {
                fault(
                    ErrorCode::SequenceConflict,
                    "derived source changed or was invalidated"@,
                )
            } else {
                None
            },
        },
    )
}

/// Why memory cannot be derived from some assets: the first one in the way.
pub open spec fn derive_sources_fault(
    principal: StoreMemoryPrincipal,
    bases: Seq<BaseRow>,
) -> Option<Fault>
    decreases bases.len(),
{
    if bases.len() == 0 {
        None
    } else {
        first(
            derive_sources_fault(principal, bases.drop_last()),
            derive_source_fault(principal, bases.last()),
        )
    }
}

proof fn lemma_first_derive_fault_stands(
    principal: StoreMemoryPrincipal,
    bases: Seq<BaseRow>,
    count: int,
)
    requires
        0 <= count <= bases.len(),
        derive_sources_fault(principal, bases.take(count)) is Some,
    ensures
        derive_sources_fault(principal, bases) == derive_sources_fault(
            principal,
            bases.take(count),
        ),
    decreases bases.len() - count,
{
    if count == bases.len() {
        assert(bases.take(count) =~= bases);
    } else {
        assert(bases.take(count + 1).drop_last() =~= bases.take(count));
        lemma_first_derive_fault_stands(principal, bases, count + 1);
    }
}

fn check_derive_source(principal: &StoreMemoryPrincipal, base: &BaseRow) -> (result: Result<
    (),
    StoreError,
>)
    ensures
        answers(result, derive_source_fault(*principal, *base)),
{
    authorize(principal, "read", &base.asset, &base.grant)?;
    match &base.loaded {
        None => Err(StoreError::new(ErrorCode::InvalidPayload, "derived source missing")),
        Some(asset) => {
            if asset.current_version != base.reference.version || asset.status.withdrawn()
                || !asset.valid {
                return Err(
                    StoreError::new(
                        ErrorCode::SequenceConflict,
                        "derived source changed or was invalidated",
                    ),
                );
            }
            Ok(())
        },
    }
}

/// Why a derived asset is not created.
pub open spec fn derive_fault(
    principal: StoreMemoryPrincipal,
    record: StoredMemoryAssetRecord,
    verdicts: MemoryVerdicts,
    fence: HostFence,
    held: Option<i64>,
    bases: Seq<BaseRow>,
) -> Option<Fault> {
    first(
        record_fault(record, verdicts),
        if bases.len() == 0 || record.asset.owner_id@ != principal.principal_id@ {
            fault(
                ErrorCode::PolicyDenied,
                "derived memory requires authorized sources"@,
            )
        } else {
            first(fence_fault(held, fence), derive_sources_fault(principal, bases))
        },
    )
}

/// Lets a principal derive new memory of its own from assets that it may read and
/// that still hold.
pub fn create_derived_memory(
    principal: &StoreMemoryPrincipal,
    record: &StoredMemoryAssetRecord,
    verdicts: &MemoryVerdicts,
    fence: &HostFence,
    held: Option<i64>,
    bases: &Vec<BaseRow>,
) -> (result: Result<(), StoreError>)
    ensures
        answers(result, derive_fault(*principal, *record, *verdicts, *fence, held, bases@)),
{
    validate_record(record, verdicts)?;
    if bases.len() == 0 || !same_text(
        record.asset.owner_id.as_str(),
        principal.principal_id.as_str(),
    ) {
        return Err(
            StoreError::new(ErrorCode::PolicyDenied, "derived memory requires authorized sources"),
        );
    }
    check_fence(held, fence)?;
    let mut i: usize = 0;
    while i < bases.len()
        invariant
            i <= bases.len(),
            bases@.len() > 0,
            record_fault(*record, *verdicts) is None,
            record.asset.owner_id@ == principal.principal_id@,
            fence_fault(held, *fence) is None,
            derive_sources_fault(*principal, bases@.take(i as int)) is None,
        decreases bases.len() - i,
    {
        assert(bases@.take(i + 1).drop_last() =~= bases@.take(i as int));
        assert(bases@.take(i + 1).last() == bases@[i as int]);
        match check_derive_source(principal, &bases[i]) {
            Ok(_) => {},
            Err(error) => {
                proof {
                    lemma_first_derive_fault_stands(*principal, bases@, i + 1);
                }
                return Err(error);
            },
        }
        i += 1;
    }
    assert(bases@.take(i as int) =~= bases@);
    Ok(())
}

/// A derivation is in order where each of its sources is.
proof fn lemma_derivation_is_each_base(
    principal: StoreMemoryPrincipal,
    bases: Seq<BaseRow>,
)
    ensures
        derive_sources_fault(principal, bases) is None <==> forall|i: int|
            0 <= i < bases.len() ==> derive_source_fault(principal, #[trigger] bases[i]) is None,
    decreases bases.len(),
{
    if bases.len() > 0 {
        let head = bases.drop_last();
        lemma_derivation_is_each_base(principal, head);
        assert forall|i: int| 0 <= i < head.len() implies head[i] == #[trigger] bases[i] by {}
        if derive_sources_fault(principal, bases) is None {
            assert forall|i: int| 0 <= i < bases.len() implies derive_source_fault(principal, #[trigger] bases[i]) is None by {
                if i < head.len() {
                    assert(derive_source_fault(principal, head[i]) is None);
                }
            }
        }
        if forall|i: int|
            0 <= i < bases.len() ==> derive_source_fault(principal, #[trigger] bases[i]) is None {
            assert forall|i: int| 0 <= i < head.len() implies derive_source_fault(principal, #[trigger] head[i]) is None by {
                assert(derive_source_fault(principal, bases[i]) is None);
            }
            assert(derive_source_fault(principal, bases[bases.len() - 1]) is None);
        }
    }
}

/// A principal creates an asset of its own out of others if and only if there is at least one
/// of them, and each may be read, is there at the version that was read, is neither
/// invalidated nor archived, and still holds.
pub proof fn law_asset_is_derived_from_valid_sources(
    principal: StoreMemoryPrincipal,
    record: StoredMemoryAssetRecord,
    verdicts: MemoryVerdicts,
    fence: HostFence,
    held: Option<i64>,
    bases: Seq<BaseRow>,
)
    ensures
        derive_fault(principal, record, verdicts, fence, held, bases) is None <==> {
            &&& record_fault(record, verdicts) is None
            &&& record.asset.owner_id@ == principal.principal_id@
            &&& held is Some
            &&& held->Some_0 == fence.generation as int
            &&& bases.len() > 0
            &&& forall|i: int|
                0 <= i < bases.len() ==> {
                    let base = #[trigger] bases[i];
                    &&& authorization_fault(principal, "read"@, base.asset, base.grant) is None
                    &&& base.loaded is Some
                    &&& base.loaded->Some_0.current_version == base.reference.version
                    &&& base.loaded->Some_0.status != MemoryAssetStatus::Invalidated
                    &&& base.loaded->Some_0.status != MemoryAssetStatus::Archived
                    &&& base.loaded->Some_0.valid
                }
        },
{
    lemma_derivation_is_each_base(principal, bases);
    assert forall|i: int| 0 <= i < bases.len() implies (derive_source_fault(
        principal,
        #[trigger] bases[i],
    ) is None) == {
        let base = bases[i];
        &&& authorization_fault(principal, "read"@, base.asset, base.grant) is None
        &&& base.loaded is Some
        &&& base.loaded->Some_0.current_version == base.reference.version
        &&& base.loaded->Some_0.status != MemoryAssetStatus::Invalidated
        &&& base.loaded->Some_0.status != MemoryAssetStatus::Archived
        &&& base.loaded->Some_0.valid
    } by {}
}

/// One version in a snapshot of memory, with its lineage.
#[derive(Clone, Debug)]
pub struct SnapshotSource {
    pub base: BaseRow,
    pub lineage: Vec<AncestorRow>,
}

/// Why a version in a snapshot can no longer be used.
pub open spec fn snapshot_source_fault(
    principal: StoreMemoryPrincipal,
    source: SnapshotSource,
) -> Option<Fault> {
    first(
        authorization_fault(principal, "search"@, source.base.asset, source.base.grant),
        match source.base.loaded {
            None => fault(ErrorCode::InvalidPayload, "memory snapshot asset missing"@),
            Some(asset) => if asset.current_version != source.base.reference.version
                || asset.status != MemoryAssetStatus::Active || !asset.valid {
                fault(ErrorCode::SequenceConflict, "memory snapshot is stale"@)
            } else {
                lineage_fault(principal, source.lineage@, true)
            },
        },
    )
}

/// Why a snapshot can no longer be used: the first version in the way.
pub open spec fn snapshot_sources_fault(
    principal: StoreMemoryPrincipal,
    sources: Seq<SnapshotSource>,
) -> Option<Fault>
    decreases sources.len(),
{
    if sources.len() == 0 {
        None
    } else {
        first(
            snapshot_sources_fault(principal, sources.drop_last()),
            snapshot_source_fault(principal, sources.last()),
        )
    }
}

proof fn lemma_first_snapshot_fault_stands(
    principal: StoreMemoryPrincipal,
    sources: Seq<SnapshotSource>,
    count: int,
)
    requires
        0 <= count <= sources.len(),
        snapshot_sources_fault(principal, sources.take(count)) is Some,
    ensures
        snapshot_sources_fault(principal, sources) == snapshot_sources_fault(
            principal,
            sources.take(count),
        ),
    decreases sources.len() - count,
{
    if count == sources.len() {
        assert(sources.take(count) =~= sources);
    } else {
        assert(sources.take(count + 1).drop_last() =~= sources.take(count));
        lemma_first_snapshot_fault_stands(principal, sources, count + 1);
    }
}

fn check_snapshot_source(principal: &StoreMemoryPrincipal, source: &SnapshotSource) -> (result:
    Result<(), StoreError>)
    ensures
        answers(result, snapshot_source_fault(*principal, *source)),
{
    authorize(principal, "search", &source.base.asset, &source.base.grant)?;
    match &source.base.loaded {
        None => Err(StoreError::new(ErrorCode::InvalidPayload, "memory snapshot asset missing")),
        Some(asset) => {
            if asset.current_version != source.base.reference.version || asset.status
                != MemoryAssetStatus::Active || !asset.valid {
                return Err(
                    StoreError::new(ErrorCode::SequenceConflict, "memory snapshot is stale"),
                );
            }
            assert_lineage_authorized(principal, &source.lineage, true)
        },
    }
}

/// Why a snapshot of memory cannot be used any more.
pub open spec fn snapshot_fault(
    principal: StoreMemoryPrincipal,
    sources: Seq<SnapshotSource>,
    stored_revision: i64,
    revision: u64,
) -> Option<Fault> {
    first(
        unsigned_fault(
            stored_revision,
            ErrorCode::InvalidSequence,
            "invalid memory revision"@,
        ),
        if stored_revision != revision {
            fault(
                ErrorCode::SequenceConflict,
                "memory policy or asset revision changed; rebuild context"@,
            )
        } else {
            snapshot_sources_fault(principal, sources)
        },
    )
}

/// Refuses a snapshot that was taken at another revision, or of which any version
/// can no longer be used.
pub fn validate_memory_snapshot(
    principal: &StoreMemoryPrincipal,
    sources: &Vec<SnapshotSource>,
    stored_revision: i64,
    revision: u64,
) -> (result: Result<(), StoreError>)
    ensures
        answers(result, snapshot_fault(*principal, sources@, stored_revision, revision)),
{
    let current: u64 = to_unsigned(
        stored_revision,
        ErrorCode::InvalidSequence,
        "invalid memory revision",
    )?;
    if current != revision {
        return Err(
            StoreError::new(
                ErrorCode::SequenceConflict,
                "memory policy or asset revision changed; rebuild context",
            ),
        );
    }
    let mut i: usize = 0;
    while i < sources.len()
        invariant
            i <= sources.len(),
            0 <= stored_revision,
            stored_revision == revision,
            snapshot_sources_fault(*principal, sources@.take(i as int)) is None,
        decreases sources.len() - i,
    {
        assert(sources@.take(i + 1).drop_last() =~= sources@.take(i as int));
        assert(sources@.take(i + 1).last() == sources@[i as int]);
        match check_snapshot_source(principal, &sources[i]) {
            Ok(_) => {},
            Err(error) => {
                proof {
                    lemma_first_snapshot_fault_stands(*principal, sources@, i + 1);
                }
                return Err(error);
            },
        }
        i += 1;
    }
    assert(sources@.take(i as int) =~= sources@);
    Ok(())
}

/// A snapshot is in order where each of its sources is.
proof fn lemma_snapshot_is_each_source(
    principal: StoreMemoryPrincipal,
    sources: Seq<SnapshotSource>,
)
    ensures
        snapshot_sources_fault(principal, sources) is None <==> forall|i: int|
            0 <= i < sources.len() ==> snapshot_source_fault(principal, #[trigger] sources[i]) is None,
    decreases sources.len(),
{
    if sources.len() > 0 {
        let head = sources.drop_last();
        lemma_snapshot_is_each_source(principal, head);
        assert forall|i: int| 0 <= i < head.len() implies head[i] == #[trigger] sources[i] by {}
        if snapshot_sources_fault(principal, sources) is None {
            assert forall|i: int| 0 <= i < sources.len() implies snapshot_source_fault(principal, #[trigger] sources[i]) is None by {
                if i < head.len() {
                    assert(snapshot_source_fault(principal, head[i]) is None);
                }
            }
        }
        if forall|i: int|
            0 <= i < sources.len() ==> snapshot_source_fault(principal, #[trigger] sources[i]) is None {
            assert forall|i: int| 0 <= i < head.len() implies snapshot_source_fault(principal, #[trigger] head[i]) is None by {
                assert(snapshot_source_fault(principal, sources[i]) is None);
            }
            assert(snapshot_source_fault(principal, sources[sources.len() - 1]) is None);
        }
    }
}

/// A snapshot of memory still stands if and only if memory is at the revision that it was taken
/// at, and each of its assets may be searched, is active at the version that was taken and
/// still holds, and so does all that it was derived from.
pub proof fn law_snapshot_stands_while_its_sources_do(
    principal: StoreMemoryPrincipal,
    sources: Seq<SnapshotSource>,
    stored_revision: i64,
    revision: u64,
)
    ensures
        snapshot_fault(principal, sources, stored_revision, revision) is None <==> {
            &&& stored_revision == revision as int
            &&& forall|i: int|
                0 <= i < sources.len() ==> {
                    let base = (#[trigger] sources[i]).base;
                    &&& authorization_fault(principal, "search"@, base.asset, base.grant) is None
                    &&& base.loaded is Some
                    &&& base.loaded->Some_0.current_version == base.reference.version
                    &&& base.loaded->Some_0.status == MemoryAssetStatus::Active
                    &&& base.loaded->Some_0.valid
                    &&& lineage_fault(principal, sources[i].lineage@, true) is None
                }
        },
{
    lemma_snapshot_is_each_source(principal, sources);
    assert forall|i: int| 0 <= i < sources.len() implies (snapshot_source_fault(
        principal,
        #[trigger] sources[i],
    ) is None) == {
        let base = sources[i].base;
        &&& authorization_fault(principal, "search"@, base.asset, base.grant) is None
        &&& base.loaded is Some
        &&& base.loaded->Some_0.current_version == base.reference.version
        &&& base.loaded->Some_0.status == MemoryAssetStatus::Active
        &&& base.loaded->Some_0.valid
        &&& lineage_fault(principal, sources[i].lineage@, true) is None
    } by {}
}

// ---------------------------------------------------------------------------
// Searching

/// A dependency that the current version of an asset rests on, directly or through
/// the current versions of others.
pub open spec fn in_lineage(
    rows: Seq<DependencyRow>,
    asset: Seq<char>,
    row: DependencyRow,
) -> bool {
    &&& row.source_kind@ == "asset"@
    &&& row.derived_is_current
    &&& row.derived_asset_id@ == asset || is_ancestor(rows, true, asset, row.derived_asset_id@)
}

/// Marks the dependencies that the current version of an asset rests on.
pub fn search_lineage(rows: &Vec<DependencyRow>, asset: &str) -> (marks: Vec<bool>)
    ensures
        marks@.len() == rows@.len(),
        forall|i: int|
            0 <= i < rows@.len() ==> #[trigger] marks@[i] == in_lineage(rows@, asset@, rows@[i]),
{
    let above: Vec<String> = ancestors(rows, true, asset);
    let mut marks: Vec<bool> = Vec::new();
    let mut i: usize = 0;
    while i < rows.len()
        invariant
            i <= rows.len(),
            marks@.len() == i,
            forall|ancestor: Seq<char>| #[trigger]
                texts(above@).contains(ancestor) <==> is_ancestor(rows@, true, asset@, ancestor),
            forall|k: int|
                0 <= k < i ==> #[trigger] marks@[k] == in_lineage(rows@, asset@, rows@[k]),
        decreases rows.len() - i,
    {
        let derived: &str = rows[i].derived_asset_id.as_str();
        let mark: bool = same_text(rows[i].source_kind.as_str(), "asset")
            && rows[i].derived_is_current && (same_text(derived, asset) || has_text(
            &above,
            derived,
        ));
        marks.push(mark);
        i += 1;
    }
    marks
}

/// A row is in the lineage of an asset if and only if it is of a current version, of an asset,
/// and its version is one of the asset itself or of something that it was derived from.
pub proof fn law_lineage_is_of_current_derivations(
    rows: Seq<DependencyRow>,
    asset: Seq<char>,
    row: DependencyRow,
)
    ensures
        in_lineage(rows, asset, row) <==> {
            &&& row.source_kind@ == "asset"@
            &&& row.derived_is_current
            &&& row.derived_asset_id@ == asset || is_ancestor(
                rows,
                true,
                asset,
                row.derived_asset_id@,
            )
        },
{
}

/// An ancestor as a search sees it: the version that was built on, and how the
/// ancestor stands now.
#[derive(Clone, Debug)]
pub struct SearchAncestor {
    pub asset: AssetScopeRow,
    pub grant: Option<GrantRow>,
    pub status: MemoryAssetStatus,
    /// Whether its current version still holds.
    pub valid: bool,
    pub current_version: i64,
    /// The version that was built on, where it is recorded.
    pub used_version: Option<i64>,
}

/// An ancestor does not keep a search from showing what was built on it: the
/// principal may read it, and it is still what was built on.
pub open spec fn still_carries(principal: StoreMemoryPrincipal, row: SearchAncestor) -> bool {
    &&& may_act(principal, "read"@, row.asset, row.grant)
    &&& row.status != MemoryAssetStatus::Invalidated
    &&& row.status != MemoryAssetStatus::Archived
    &&& row.used_version is None || row.used_version->Some_0 == row.current_version
    &&& row.valid
}

fn carries(principal: &StoreMemoryPrincipal, row: &SearchAncestor) -> (result: bool)
    ensures
        result == still_carries(*principal, *row),
{
    let used: bool = match row.used_version {
        None => true,
        Some(version) => version == row.current_version,
    };
    if !used || !row.valid || row.status == MemoryAssetStatus::Invalidated || row.status
        == MemoryAssetStatus::Archived {
        return false;
    }
    acts(principal, "read", &row.asset, &row.grant)
}

fn all_carry(principal: &StoreMemoryPrincipal, lineage: &Vec<SearchAncestor>) -> (result: bool)
    ensures
        result == forall|i: int|
            0 <= i < lineage@.len() ==> still_carries(*principal, #[trigger] lineage@[i]),
{
    let mut i: usize = 0;
    while i < lineage.len()
        invariant
            i <= lineage.len(),
            forall|k: int| 0 <= k < i ==> still_carries(*principal, #[trigger] lineage@[k]),
        decreases lineage.len() - i,
    {
        if !carries(principal, &lineage[i]) {
            assert(!still_carries(*principal, lineage@[i as int]));
            return false;
        }
        i += 1;
    }
    true
}

/// What a search has to know of an asset before it shows it.
#[derive(Clone, Debug)]
pub struct SearchRow {
    pub asset: AssetScopeRow,
    pub grant: Option<GrantRow>,
    pub status: MemoryAssetStatus,
    /// Whether its current version still holds.
    pub valid: bool,
    /// Whether a binding connects it with the principal.
    pub bound: bool,
    /// Where its content comes from, where that is recorded.
    pub provenance: Option<String>,
    /// What it rests on, apart from what is gone.
    pub lineage: Vec<SearchAncestor>,
}

/// A principal may search an asset where it stands: as its owner, or by a grant.
pub open spec fn may_search(principal: StoreMemoryPrincipal, row: SearchRow) -> bool {
    may_act(principal, "search"@, row.asset, row.grant)
}

/// What a search is told where a grant that it has to look at is not JSON.
pub open spec fn unreadable_grant_fault() -> Option<Fault> {
    fault(ErrorCode::StorageOpenFailed, "stored memory grant is invalid"@)
}

/// The error of a search where a grant that it has to look at is not JSON.
pub(crate) fn unreadable_grant() -> (error: StoreError)
    ensures
        Some(error@) == unreadable_grant_fault(),
{
    StoreError::new(ErrorCode::StorageOpenFailed, "stored memory grant is invalid")
}

/// A search can look at all grants that it has to look at: that of the asset, and those
/// of what it rests on.
pub open spec fn is_readable_row(principal: StoreMemoryPrincipal, row: SearchRow) -> bool {
    &&& has_readable_grant(principal, row.asset, row.grant)
    &&& forall|i: int|
        0 <= i < row.lineage@.len() ==> has_readable_grant(
            principal,
            (#[trigger] row.lineage@[i]).asset,
            row.lineage@[i].grant,
        )
}

/// Whether a search can look at all grants that it has to look at.
pub(crate) fn readable_row(principal: &StoreMemoryPrincipal, row: &SearchRow) -> (result: bool)
    ensures
        result == is_readable_row(*principal, *row),
{
    if !readable_grant(principal, &row.asset, &row.grant) {
        return false;
    }
    let mut i: usize = 0;
    while i < row.lineage.len()
        invariant
            i <= row.lineage.len(),
            forall|k: int|
                0 <= k < i ==> has_readable_grant(
                    *principal,
                    (#[trigger] row.lineage@[k]).asset,
                    row.lineage@[k].grant,
                ),
        decreases row.lineage.len() - i,
    {
        if !readable_grant(principal, &row.lineage[i].asset, &row.lineage[i].grant) {
            assert(!has_readable_grant(
                *principal,
                row.lineage@[i as int].asset,
                row.lineage@[i as int].grant,
            ));
            return false;
        }
        i += 1;
    }
    true
}

/// A principal reaches an asset: it is active, and the principal may search it.
pub open spec fn is_reachable(principal: StoreMemoryPrincipal, row: SearchRow) -> bool {
    row.status == MemoryAssetStatus::Active && may_search(principal, row)
}

/// A search of a principal can find an asset: the principal reaches it, it still
/// holds, and it is bound to the principal.
pub open spec fn is_findable(principal: StoreMemoryPrincipal, row: SearchRow) -> bool {
    is_reachable(principal, row) && row.valid && row.bound
}

/// Whether a principal may search an asset where it stands.
pub fn searchable(principal: &StoreMemoryPrincipal, row: &SearchRow) -> (result: bool)
    ensures
        result == may_search(*principal, *row),
{
    acts(principal, "search", &row.asset, &row.grant)
}

/// Whether a principal reaches an asset.
pub fn reachable(principal: &StoreMemoryPrincipal, row: &SearchRow) -> (result: bool)
    ensures
        result == is_reachable(*principal, *row),
{
    row.status == MemoryAssetStatus::Active && searchable(principal, row)
}

/// Whether a search of a principal can find an asset.
pub fn findable(principal: &StoreMemoryPrincipal, row: &SearchRow) -> (result: bool)
    ensures
        result == is_findable(*principal, *row),
{
    row.valid && row.bound && reachable(principal, row)
}

/// A search discovers nothing that its principal may not search: an asset that it
/// can find, or that holds a text that is looked up, is one that the principal is
/// authorized to search. Its grant is the list of texts that a grant is stored as.
pub proof fn law_found_means_authorized(principal: StoreMemoryPrincipal, row: SearchRow)
    requires
        may_search(principal, row),
        row.grant is Some ==> is_string_list(row.grant->Some_0.actions_json@),
    ensures
        authorization_fault(principal, "search"@, Some(row.asset), row.grant) is None,
{
    law_acting_means_authorized(principal, "search"@, row.asset, row.grant);
}

/// A ranked search shows an asset: the principal can find it, its provenance is not
/// the one that the caller leaves out, the principal may read all that it rests on,
/// all of that is still what it was built on, and none of its own sources is seen to
/// have changed.
pub open spec fn is_shown(
    principal: StoreMemoryPrincipal,
    row: SearchRow,
    left_out: Option<String>,
    sources: Seq<MemorySourceRecord>,
    seen: Seq<RefreshSource>,
) -> bool {
    &&& is_findable(principal, row)
    &&& left_out is None || opt_text(row.provenance) != opt_text(left_out)
    &&& forall|i: int|
        0 <= i < row.lineage@.len() ==> still_carries(principal, #[trigger] row.lineage@[i])
    &&& is_fresh(sources, seen)
}

/// Whether a ranked search shows an asset.
pub fn search_shows(
    principal: &StoreMemoryPrincipal,
    row: &SearchRow,
    left_out: &Option<String>,
    sources: &Vec<MemorySourceRecord>,
    seen: &Vec<RefreshSource>,
) -> (shown: bool)
    ensures
        shown == is_shown(*principal, *row, *left_out, sources@, seen@),
{
    findable(principal, row) && (left_out.is_none() || !same_option(&row.provenance, left_out))
        && all_carry(principal, &row.lineage) && version_is_fresh(sources, seen)
}

/// A search shows an asset if and only if it is active, valid and bound, the principal may
/// search it, it does not come from what is left out, no source of it has changed, and all
/// that it was derived from may be read, is neither invalidated nor archived, still holds, and
/// is at the version that was used.
pub proof fn law_search_shows_what_is_active_and_fresh(
    principal: StoreMemoryPrincipal,
    row: SearchRow,
    left_out: Option<String>,
    sources: Seq<MemorySourceRecord>,
    seen: Seq<RefreshSource>,
)
    ensures
        is_shown(principal, row, left_out, sources, seen) <==> {
            &&& row.status == MemoryAssetStatus::Active
            &&& row.valid
            &&& row.bound
            &&& may_act(principal, "search"@, row.asset, row.grant)
            &&& left_out is Some && row.provenance is Some ==> row.provenance->Some_0@
                != left_out->Some_0@
            &&& is_fresh(sources, seen)
            &&& forall|i: int|
                0 <= i < row.lineage@.len() ==> {
                    let ancestor = #[trigger] row.lineage@[i];
                    &&& may_act(principal, "read"@, ancestor.asset, ancestor.grant)
                    &&& ancestor.status == MemoryAssetStatus::Candidate || ancestor.status
                        == MemoryAssetStatus::Active || ancestor.status
                        == MemoryAssetStatus::Superseded
                    &&& ancestor.valid
                    &&& ancestor.used_version is Some ==> ancestor.used_version->Some_0
                        == ancestor.current_version
                }
        },
        is_reachable(principal, row) <==> row.status == MemoryAssetStatus::Active && may_act(
            principal,
            "search"@,
            row.asset,
            row.grant,
        ),
{
    assert forall|i: int| 0 <= i < row.lineage@.len() implies still_carries(
        principal,
        #[trigger] row.lineage@[i],
    ) == {
        let ancestor = row.lineage@[i];
        &&& may_act(principal, "read"@, ancestor.asset, ancestor.grant)
        &&& ancestor.status == MemoryAssetStatus::Candidate || ancestor.status
            == MemoryAssetStatus::Active || ancestor.status == MemoryAssetStatus::Superseded
        &&& ancestor.valid
        &&& ancestor.used_version is Some ==> ancestor.used_version->Some_0
            == ancestor.current_version
    } by {}
}

/// A search reveals nothing through derivation: whoever is shown an asset may read
/// everything that it rests on. The grants are the lists of texts that grants are stored
/// as.
pub proof fn law_shown_means_lineage_is_readable(
    principal: StoreMemoryPrincipal,
    row: SearchRow,
    left_out: Option<String>,
    sources: Seq<MemorySourceRecord>,
    seen: Seq<RefreshSource>,
    place: int,
)
    requires
        is_shown(principal, row, left_out, sources, seen),
        0 <= place < row.lineage@.len(),
        row.lineage@[place].grant is Some ==> is_string_list(
            row.lineage@[place].grant->Some_0.actions_json@,
        ),
    ensures
        authorization_fault(
            principal,
            "read"@,
            Some(row.lineage@[place].asset),
            row.lineage@[place].grant,
        ) is None,
{
    let ancestor = row.lineage@[place];
    assert(still_carries(principal, ancestor));
    law_acting_means_authorized(principal, "read"@, ancestor.asset, ancestor.grant);
}

// ---------------------------------------------------------------------------
// Invalidation, retention and forgetting

/// Why an asset is not invalidated.
pub open spec fn invalidate_fault(
    principal: StoreMemoryPrincipal,
    reason: Seq<char>,
    fence: HostFence,
    held: Option<i64>,
    asset: Option<AssetScopeRow>,
    grant: Option<GrantRow>,
) -> Option<Fault> {
    if blank(reason) {
        fault(ErrorCode::InvalidPayload, "invalidation reason required"@)
    } else {
        first(
            fence_fault(held, fence),
            authorization_fault(principal, "invalidate"@, asset, grant),
        )
    }
}

/// What an invalidation does.
#[derive(Clone, Debug, PartialEq, Eq)]
pub struct Invalidation {
    /// The assets that go, in ascending order.
    pub affected: Vec<String>,
    /// The status that these get.
    pub status: MemoryAssetStatus,
    /// Why they get it.
    pub reason: String,
}

/// Invalidates an asset and everything that was built on it.
pub fn invalidate_memory(
    principal: &StoreMemoryPrincipal,
    id: &String,
    reason: &str,
    fence: &HostFence,
    held: Option<i64>,
    asset: &Option<AssetScopeRow>,
    grant: &Option<GrantRow>,
    dependencies: &Vec<DependencyRow>,
) -> (result: Result<Invalidation, StoreError>)
    ensures
        answers(result, invalidate_fault(*principal, reason@, *fence, held, *asset, *grant)),
        result is Ok ==> result->Ok_0.status == MemoryAssetStatus::Invalidated,
        result is Ok ==> result->Ok_0.reason@ == reason@,
        result is Ok ==> ascending(texts(result->Ok_0.affected@)),
        result is Ok ==> forall|other: Seq<char>| #[trigger]
            texts(result->Ok_0.affected@).contains(other) <==> is_affected(
                dependencies@,
                true,
                seq![id@],
                other,
            ),
{
    if is_blank(reason) {
        return Err(StoreError::new(ErrorCode::InvalidPayload, "invalidation reason required"));
    }
    check_fence(held, fence)?;
    authorize(principal, "invalidate", asset, grant)?;
    Ok(
        Invalidation {
            affected: invalidation_order(dependencies, id, true),
            status: MemoryAssetStatus::Invalidated,
            reason: reason.to_owned(),
        },
    )
}

/// Whoever is authorized to invalidate an asset does so, with a reason.
pub proof fn law_authorized_principal_invalidates(
    principal: StoreMemoryPrincipal,
    reason: Seq<char>,
    fence: HostFence,
    held: Option<i64>,
    asset: Option<AssetScopeRow>,
    grant: Option<GrantRow>,
)
    ensures
        invalidate_fault(principal, reason, fence, held, asset, grant) is None <==> {
            &&& !blank(reason)
            &&& held is Some
            &&& held->Some_0 == fence.generation as int
            &&& authorization_fault(principal, "invalidate"@, asset, grant) is None
        },
{
}

/// The kinds of source whose change can be reported.
pub open spec fn is_source_kind(kind: Seq<char>) -> bool {
    kind == "file"@ || kind == "commit"@
}

/// Refuses a kind of source whose change cannot be reported.
pub fn check_source_kind(kind: &str) -> (result: Result<(), StoreError>)
    ensures
        answers(
            result,
            if is_source_kind(kind@) {
                None
            } else {
                fault(ErrorCode::InvalidPayload, "unsupported source change"@)
            },
        ),
{
    if same_text(kind, "file") || same_text(kind, "commit") {
        Ok(())
    } else {
        Err(StoreError::new(ErrorCode::InvalidPayload, "unsupported source change"))
    }
}

/// An asset that a source change retires for a principal: who may not invalidate
/// it passes it over, and any other refusal fails the whole change.
pub fn retires(authorized: &Result<(), StoreError>) -> (result: Result<bool, StoreError>)
    ensures
        answers(
            result,
            if authorized is Err && authorized->Err_0@.code != ErrorCode::PolicyDenied {
                Some(authorized->Err_0@)
            } else {
                None
            },
        ),
        result is Ok ==> result->Ok_0 == (authorized is Ok),
{
    match authorized {
        Ok(_) => Ok(true),
        Err(error) => {
            let code: ErrorCode = error.code();
            if code == ErrorCode::PolicyDenied {
                Ok(false)
            } else {
                Err(StoreError::new(code, error.message()))
            }
        },
    }
}

/// An asset that names a changed source, and what authority over it is read from.
#[derive(Clone, Debug)]
pub struct SourceRoot {
    pub id: String,
    /// The project that the source was read in, where it was read in one.
    pub source_project: Option<String>,
    pub asset: Option<AssetScopeRow>,
    pub grant: Option<GrantRow>,
}

/// A source that one project read is not the source of the same name that another
/// project read. A principal without a project, and a source without one, match any.
pub open spec fn is_source_of(principal: StoreMemoryPrincipal, root: SourceRoot) -> bool {
    ||| principal.project_id is None
    ||| root.source_project is None
    ||| opt_text(principal.project_id) == opt_text(root.source_project)
}

/// Why a principal may not invalidate an asset that names a changed source, where
/// that fails the whole change.
pub open spec fn source_root_fault(principal: StoreMemoryPrincipal, root: SourceRoot) -> Option<
    Fault,
> {
    if !is_source_of(principal, root) {
        None
    } else {
        invalidation_refusal(principal, root)
    }
}

/// A refusal to invalidate an asset that is more than a lack of authority.
pub open spec fn invalidation_refusal(principal: StoreMemoryPrincipal, root: SourceRoot) -> Option<
    Fault,
> {
    match authorization_fault(principal, "invalidate"@, root.asset, root.grant) {
        Some(found) => if found.code == ErrorCode::PolicyDenied {
            None
        } else {
            Some(found)
        },
        None => None,
    }
}

/// The first fault among the assets that name a changed source.
pub open spec fn source_roots_fault(
    principal: StoreMemoryPrincipal,
    roots: Seq<SourceRoot>,
) -> Option<Fault>
    decreases roots.len(),
{
    if roots.len() == 0 {
        None
    } else {
        first(
            source_roots_fault(principal, roots.drop_last()),
            source_root_fault(principal, roots.last()),
        )
    }
}

/// The assets that name a changed source of a principal's project and that the
/// principal may invalidate.
pub open spec fn retired_roots(
    principal: StoreMemoryPrincipal,
    roots: Seq<SourceRoot>,
) -> Seq<Seq<char>>
    decreases roots.len(),
{
    if roots.len() == 0 {
        seq![]
    } else {
        let before = retired_roots(principal, roots.drop_last());
        if is_source_of(principal, roots.last()) && authorization_fault(
            principal,
            "invalidate"@,
            roots.last().asset,
            roots.last().grant,
        ) is None {
            before.push(roots.last().id@)
        } else {
            before
        }
    }
}

proof fn lemma_source_fault_stands(
    principal: StoreMemoryPrincipal,
    roots: Seq<SourceRoot>,
    count: int,
)
    requires
        0 <= count <= roots.len(),
        source_roots_fault(principal, roots.take(count)) is Some,
    ensures
        source_roots_fault(principal, roots) == source_roots_fault(principal, roots.take(count)),
    decreases roots.len() - count,
{
    if count == roots.len() {
        assert(roots.take(count) =~= roots);
    } else {
        assert(roots.take(count + 1).drop_last() =~= roots.take(count));
        lemma_source_fault_stands(principal, roots, count + 1);
    }
}

/// What a changed source retires.
#[derive(Clone, Debug, PartialEq, Eq)]
pub struct SourceInvalidation {
    /// The assets that name the source, as far as the principal may invalidate them.
    pub roots: Vec<String>,
    /// These, and everything that was built on them, in ascending order.
    pub affected: Vec<String>,
    /// The status that all of them get.
    pub status: MemoryAssetStatus,
    /// Why they get it.
    pub reason: String,
}

/// Why the assets of a changed source are not retired.
pub open spec fn source_change_fault(
    principal: StoreMemoryPrincipal,
    kind: Seq<char>,
    fence: HostFence,
    held: Option<i64>,
    roots: Seq<SourceRoot>,
) -> Option<Fault> {
    if is_source_kind(kind) {
        first(fence_fault(held, fence), source_roots_fault(principal, roots))
    } else {
        fault(ErrorCode::InvalidPayload, "unsupported source change"@)
    }
}

/// Retires what names a changed source, as far as the principal may, and everything
/// that was built on it. `roots` are the assets whose current version names the
/// source.
pub fn invalidate_memory_source(
    principal: &StoreMemoryPrincipal,
    kind: &str,
    fence: &HostFence,
    held: Option<i64>,
    roots: &Vec<SourceRoot>,
    dependencies: &Vec<DependencyRow>,
) -> (result: Result<SourceInvalidation, StoreError>)
    ensures
        answers(result, source_change_fault(*principal, kind@, *fence, held, roots@)),
        result is Ok ==> {
            let change = result->Ok_0;
            &&& texts(change.roots@) == retired_roots(*principal, roots@)
            &&& change.status == MemoryAssetStatus::Invalidated
            &&& change.reason@ == "source_changed"@
            &&& ascending(texts(change.affected@))
            &&& forall|asset: Seq<char>| #[trigger]
                texts(change.affected@).contains(asset) <==> is_affected(
                    dependencies@,
                    true,
                    retired_roots(*principal, roots@),
                    asset,
                )
        },
{
    check_source_kind(kind)?;
    check_fence(held, fence)?;
    let mut retired: Vec<String> = Vec::new();
    assert(texts(retired@) =~= seq![]);
    let mut i: usize = 0;
    while i < roots.len()
        invariant
            i <= roots.len(),
            is_source_kind(kind@),
            fence_fault(held, *fence) is None,
            source_roots_fault(*principal, roots@.take(i as int)) is None,
            texts(retired@) == retired_roots(*principal, roots@.take(i as int)),
        decreases roots.len() - i,
    {
        let ghost before = retired@;
        assert(roots@.take(i + 1).drop_last() =~= roots@.take(i as int));
        let root: &SourceRoot = &roots[i];
        assert(roots@.take(i + 1).last() == *root);
        if principal.project_id.is_none() || root.source_project.is_none() || same_option(
            &principal.project_id,
            &root.source_project,
        ) {
            let authorized: Result<(), StoreError> = authorize(
                principal,
                "invalidate",
                &root.asset,
                &root.grant,
            );
            match retires(&authorized) {
                Ok(goes) => {
                    if goes {
                        retired.push(root.id.clone());
                        assert(texts(retired@) =~= texts(before).push(root.id@));
                    }
                },
                Err(error) => {
                    proof {
                        lemma_source_fault_stands(*principal, roots@, i + 1);
                    }
                    return Err(error);
                },
            }
        }
        i += 1;
    }
    assert(roots@.take(i as int) =~= roots@);
    let affected: Vec<String> = affected_assets(dependencies, true, &retired);
    Ok(
        SourceInvalidation {
            roots: retired,
            affected,
            status: MemoryAssetStatus::Invalidated,
            reason: "source_changed".to_owned(),
        },
    )
}

/// A source change goes through where each of its assets lets it.
proof fn lemma_source_change_is_each_root(
    principal: StoreMemoryPrincipal,
    roots: Seq<SourceRoot>,
)
    ensures
        source_roots_fault(principal, roots) is None <==> forall|i: int|
            0 <= i < roots.len() ==> source_root_fault(principal, #[trigger] roots[i]) is None,
    decreases roots.len(),
{
    if roots.len() > 0 {
        let head = roots.drop_last();
        lemma_source_change_is_each_root(principal, head);
        assert forall|i: int| 0 <= i < head.len() implies head[i] == #[trigger] roots[i] by {}
        if source_roots_fault(principal, roots) is None {
            assert forall|i: int| 0 <= i < roots.len() implies source_root_fault(principal, #[trigger] roots[i]) is None by {
                if i < head.len() {
                    assert(source_root_fault(principal, head[i]) is None);
                }
            }
        }
        if forall|i: int|
            0 <= i < roots.len() ==> source_root_fault(principal, #[trigger] roots[i]) is None {
            assert forall|i: int| 0 <= i < head.len() implies source_root_fault(principal, #[trigger] head[i]) is None by {
                assert(source_root_fault(principal, roots[i]) is None);
            }
            assert(source_root_fault(principal, roots[roots.len() - 1]) is None);
        }
    }
}

/// A change of a file or of a commit retires every asset of that source, in the principal's
/// project or of no project, that the principal is authorized to invalidate. An asset that the
/// principal is denied stands in the way of no other, and only one that cannot be looked at
/// stops the change.
pub proof fn law_source_change_retires_what_it_may(
    principal: StoreMemoryPrincipal,
    kind: Seq<char>,
    fence: HostFence,
    held: Option<i64>,
    roots: Seq<SourceRoot>,
)
    ensures
        source_change_fault(principal, kind, fence, held, roots) is None <==> {
            &&& kind == "file"@ || kind == "commit"@
            &&& held is Some
            &&& held->Some_0 == fence.generation as int
            &&& forall|i: int|
                0 <= i < roots.len() ==> {
                    let root = #[trigger] roots[i];
                    let refusal = authorization_fault(
                        principal,
                        "invalidate"@,
                        root.asset,
                        root.grant,
                    );
                    ||| principal.project_id is Some && root.source_project is Some
                        && principal.project_id->Some_0@ != root.source_project->Some_0@
                    ||| refusal is None
                    ||| refusal->Some_0.code == ErrorCode::PolicyDenied
                }
        },
{
    lemma_source_change_is_each_root(principal, roots);
    assert forall|i: int| 0 <= i < roots.len() implies (source_root_fault(
        principal,
        #[trigger] roots[i],
    ) is None) == {
        let root = roots[i];
        let refusal = authorization_fault(principal, "invalidate"@, root.asset, root.grant);
        ||| principal.project_id is Some && root.source_project is Some
            && principal.project_id->Some_0@ != root.source_project->Some_0@
        ||| refusal is None
        ||| refusal->Some_0.code == ErrorCode::PolicyDenied
    } by {}
}

/// What a source change retires are the ids of those of its assets that are of no project, or
/// of the principal's where it has one, and that the principal is authorized to invalidate.
pub proof fn law_retired_are_the_authorized(
    principal: StoreMemoryPrincipal,
    roots: Seq<SourceRoot>,
    id: Seq<char>,
)
    ensures
        retired_roots(principal, roots).contains(id) <==> exists|i: int|
            0 <= i < roots.len() && (#[trigger] roots[i]).id@ == id && (principal.project_id is None
                || roots[i].source_project is None || principal.project_id->Some_0@
                == roots[i].source_project->Some_0@) && authorization_fault(
                principal,
                "invalidate"@,
                roots[i].asset,
                roots[i].grant,
            ) is None,
    decreases roots.len(),
{
    if roots.len() > 0 {
        let head = roots.drop_last();
        let last = roots[roots.len() - 1];
        law_retired_are_the_authorized(principal, head, id);
        crate::seqs::lemma_push_contains(retired_roots(principal, head), last.id@, id);
        assert forall|i: int| 0 <= i < head.len() implies head[i] == #[trigger] roots[i] by {}
        if retired_roots(principal, head).contains(id) {
            let i = choose|i: int|
                0 <= i < head.len() && (#[trigger] head[i]).id@ == id && (
                principal.project_id is None || head[i].source_project is None
                    || principal.project_id->Some_0@ == head[i].source_project->Some_0@)
                    && authorization_fault(
                    principal,
                    "invalidate"@,
                    head[i].asset,
                    head[i].grant,
                ) is None;
            assert(roots[i].id@ == id);
        }
        if exists|i: int|
            0 <= i < roots.len() && (#[trigger] roots[i]).id@ == id && (principal.project_id is None
                || roots[i].source_project is None || principal.project_id->Some_0@
                == roots[i].source_project->Some_0@) && authorization_fault(
                principal,
                "invalidate"@,
                roots[i].asset,
                roots[i].grant,
            ) is None {
            let i = choose|i: int|
                0 <= i < roots.len() && (#[trigger] roots[i]).id@ == id && (
                principal.project_id is None || roots[i].source_project is None
                    || principal.project_id->Some_0@ == roots[i].source_project->Some_0@)
                    && authorization_fault(
                    principal,
                    "invalidate"@,
                    roots[i].asset,
                    roots[i].grant,
                ) is None;
            if i < head.len() {
                assert(head[i].id@ == id);
            }
        }
        if retired_roots(principal, roots).contains(id) && !retired_roots(
            principal,
            head,
        ).contains(id) {
            assert(roots[roots.len() - 1].id@ == id);
        }
    }
}

/// A changed source retires nothing that its reporter may not invalidate, and
/// nothing that another project read from a source of the same name, except what
/// was built on something that it may.
pub proof fn law_source_change_needs_authority(
    principal: StoreMemoryPrincipal,
    roots: Seq<SourceRoot>,
    k: int,
)
    requires
        0 <= k < retired_roots(principal, roots).len(),
    ensures
        exists|i: int|
            0 <= i < roots.len() && (#[trigger] roots[i]).id@ == retired_roots(principal, roots)[k]
                && is_source_of(principal, roots[i]) && authorization_fault(
                principal,
                "invalidate"@,
                roots[i].asset,
                roots[i].grant,
            ) is None,
    decreases roots.len(),
{
    let front = roots.drop_last();
    let before = retired_roots(principal, front);
    if k < before.len() {
        law_source_change_needs_authority(principal, front, k);
        let i = choose|i: int|
            0 <= i < front.len() && (#[trigger] front[i]).id@ == before[k] && is_source_of(
                principal,
                front[i],
            ) && authorization_fault(
                principal,
                "invalidate"@,
                front[i].asset,
                front[i].grant,
            ) is None;
        assert(roots[i] == front[i]);
    } else {
        assert(roots[roots.len() - 1].id@ == retired_roots(principal, roots)[k]);
    }
}

/// Every asset that a source change retires: the roots that it names and
/// everything that was built on them, in ascending order and each of them once.
/// Where history counts, so do the dependencies of older versions.
pub fn source_derived_assets(
    kind: &str,
    include_history: bool,
    roots: &Vec<String>,
    dependencies: &Vec<DependencyRow>,
) -> (result: Result<Vec<String>, StoreError>)
    ensures
        answers(
            result,
            if is_source_kind(kind@) {
                None
            } else {
                fault(ErrorCode::InvalidPayload, "unsupported source change"@)
            },
        ),
        result is Ok ==> ascending(texts(result->Ok_0@)),
        result is Ok ==> forall|asset: Seq<char>| #[trigger]
            texts(result->Ok_0@).contains(asset) <==> is_affected(
                dependencies@,
                !include_history,
                texts(roots@),
                asset,
            ),
{
    check_source_kind(kind)?;
    Ok(affected_assets(dependencies, !include_history, roots))
}

/// What an operator does with everything derived from a source.
#[derive(Clone, Debug)]
pub struct MemorySourceRetentionUpdate {
    pub source_kind: String,
    pub source_id: String,
    pub status: MemoryAssetStatus,
    pub reason: Option<String>,
    pub journal_entry_id: String,
    /// The journal's detail as JSON text.
    pub journal_detail: String,
    pub created_unix_ms: u64,
}

/// Why a retention update is not made.
pub open spec fn retention_fault(
    request: MemorySourceRetentionUpdate,
    fence: HostFence,
    held: Option<i64>,
) -> Option<Fault> {
    first(
        match request.status {
            MemoryAssetStatus::Invalidated => if request.reason is None || blank(
                request.reason->Some_0@,
            ) {
                fault(ErrorCode::InvalidPayload, "invalidation reason required"@)
            } else {
                None
            },
            MemoryAssetStatus::Archived => None,
            _ => fault(
                ErrorCode::InvalidPayload,
                "retention may only invalidate or archive a source"@,
            ),
        },
        first(
            fence_fault(held, fence),
            first(
                if is_source_kind(request.source_kind@) {
                    None
                } else {
                    fault(ErrorCode::InvalidPayload, "unsupported source change"@)
                },
                i64_fault(request.created_unix_ms, "retention journal time"@),
            ),
        ),
    )
}

/// What a retention update writes.
#[derive(Clone, Debug, PartialEq, Eq)]
pub struct RetentionWrite {
    /// The assets whose status changes, in ascending order.
    pub affected: Vec<String>,
    pub journal_action: &'static str,
    /// The source as the journal names it.
    pub journal_target: String,
    /// The journal's detail, which says how many assets there are.
    pub journal_detail: String,
    /// The reason that each invalidated asset is recorded with.
    pub invalidation_reason: Option<String>,
}

/// A journal's detail with a number of assets in it. One that is no JSON object
/// stays as it is.
pub open spec fn counted_detail(detail: Seq<char>, assets: u64) -> Seq<char> {
    match json_counted(detail, "affected_assets"@, assets) {
        Some(text) => text,
        None => detail,
    }
}

/// Invalidates or archives everything derived from a source, and says what the
/// journal is told.
pub fn update_memory_source_retention(
    request: &MemorySourceRetentionUpdate,
    fence: &HostFence,
    held: Option<i64>,
    roots: &Vec<String>,
    dependencies: &Vec<DependencyRow>,
) -> (result: Result<RetentionWrite, StoreError>)
    ensures
        answers(result, retention_fault(*request, *fence, held)),
        result is Ok ==> {
            let write = result->Ok_0;
            let invalidates = request.status == MemoryAssetStatus::Invalidated;
            &&& ascending(texts(write.affected@))
            &&& forall|asset: Seq<char>| #[trigger]
                texts(write.affected@).contains(asset) <==> is_affected(
                    dependencies@,
                    true,
                    texts(roots@),
                    asset,
                )
            &&& write.journal_action@ == if invalidates {
                "invalidate"@
            } else {
                "archive"@
            }
            &&& write.journal_target@ == source_name(request.source_kind@, request.source_id@)
            &&& write.journal_detail@ == counted_detail(
                request.journal_detail@,
                write.affected@.len() as u64,
            )
            &&& write.invalidation_reason == if invalidates {
                request.reason
            } else {
                None
            }
        },
{
    let invalid: ErrorCode = ErrorCode::InvalidPayload;
    let (action, reason): (&'static str, Option<String>) = match request.status {
        MemoryAssetStatus::Invalidated => {
            match &request.reason {
                None => {
                    return Err(StoreError::new(invalid, "invalidation reason required"));
                },
                Some(reason) => {
                    if is_blank(reason.as_str()) {
                        return Err(StoreError::new(invalid, "invalidation reason required"));
                    }
                    ("invalidate", Some(reason.clone()))
                },
            }
        },
        MemoryAssetStatus::Archived => ("archive", None),
        _ => {
            return Err(
                StoreError::new(invalid, "retention may only invalidate or archive a source"),
            );
        },
    };
    check_fence(held, fence)?;
    let affected: Vec<String> = source_derived_assets(
        request.source_kind.as_str(),
        false,
        roots,
        dependencies,
    )?;
    let created: i64 = to_i64(request.created_unix_ms, "retention journal time")?;
    let journal_detail: String = match json_with_count(
        request.journal_detail.as_str(),
        "affected_assets",
        affected.len() as u64,
    ) {
        Some(text) => text,
        None => request.journal_detail.clone(),
    };
    Ok(
        RetentionWrite {
            affected,
            journal_action: action,
            journal_target: source_key(request.source_kind.as_str(), request.source_id.as_str()),
            journal_detail,
            invalidation_reason: reason,
        },
    )
}

/// The detail of a retention tells how many assets it reached, where it is an object, and is
/// left as it is where it is not.
pub proof fn law_detail_counts_the_assets(detail: Seq<char>, assets: u64)
    ensures
        json_counted(detail, "affected_assets"@, assets) is Some ==> Some(
            counted_detail(detail, assets),
        ) == json_counted(detail, "affected_assets"@, assets),
        json_counted(detail, "affected_assets"@, assets) is None ==> counted_detail(detail, assets)
            == detail,
{
}

/// What an operator forgets for good.
#[derive(Clone, Debug)]
pub struct MemorySourceForget {
    pub source_kind: String,
    pub source_id: String,
    pub tombstone: TombstoneRow,
    pub journal_entry_id: String,
    pub journal_action: String,
    /// The journal's detail as JSON text.
    pub journal_detail: String,
}

/// Why a request to forget is malformed.
pub open spec fn forget_shape_fault(
    kind: Seq<char>,
    source_id: Seq<char>,
    tombstone: TombstoneRow,
) -> Option<Fault> {
    if tombstone.source_kind@ != kind || tombstone.source_id@ != source_id {
        fault(
            ErrorCode::InvalidPayload,
            "forget tombstone identity does not match its source"@,
        )
    } else if blank(kind) || blank(source_id) || blank(tombstone.reason@) {
        fault(
            ErrorCode::InvalidPayload,
            "forget requires a source kind, identity and reason"@,
        )
    } else {
        None
    }
}

/// Refuses a malformed request to forget.
pub fn validate_forget_request(kind: &str, source_id: &str, tombstone: &TombstoneRow) -> (result:
    Result<(), StoreError>)
    ensures
        answers(result, forget_shape_fault(kind@, source_id@, *tombstone)),
{
    if !same_text(tombstone.source_kind.as_str(), kind) || !same_text(
        tombstone.source_id.as_str(),
        source_id,
    ) {
        return Err(
            StoreError::new(
                ErrorCode::InvalidPayload,
                "forget tombstone identity does not match its source",
            ),
        );
    }
    if is_blank(kind) || is_blank(source_id) || is_blank(tombstone.reason.as_str()) {
        return Err(
            StoreError::new(
                ErrorCode::InvalidPayload,
                "forget requires a source kind, identity and reason",
            ),
        );
    }
    Ok(())
}

/// Why a source is not forgotten. `forgotten` says that a tombstone names it
/// already.
pub open spec fn forget_fault(
    request: MemorySourceForget,
    fence: HostFence,
    held: Option<i64>,
    forgotten: bool,
) -> Option<Fault> {
    first(
        forget_shape_fault(request.source_kind@, request.source_id@, request.tombstone),
        first(
            fence_fault(held, fence),
            if forgotten {
                fault(
                    ErrorCode::RetentionRefused,
                    "source "@ + source_name(request.source_kind@, request.source_id@)
                        + " was already forgotten"@,
                )
            } else {
                first(
                    if is_source_kind(request.source_kind@) {
                        None
                    } else {
                        fault(ErrorCode::InvalidPayload, "unsupported source change"@)
                    },
                    i64_fault(request.tombstone.created_unix_ms, "tombstone time"@),
                )
            },
        ),
    )
}

/// Forgets a source for good: everything that any version was ever built on it is
/// deleted, in ascending order, and a tombstone keeps it from coming back.
pub fn forget_memory_source(
    request: &MemorySourceForget,
    fence: &HostFence,
    held: Option<i64>,
    forgotten: bool,
    roots: &Vec<String>,
    dependencies: &Vec<DependencyRow>,
) -> (result: Result<Vec<String>, StoreError>)
    ensures
        answers(result, forget_fault(*request, *fence, held, forgotten)),
        result is Ok ==> ascending(texts(result->Ok_0@)),
        result is Ok ==> forall|asset: Seq<char>| #[trigger]
            texts(result->Ok_0@).contains(asset) <==> is_affected(
                dependencies@,
                false,
                texts(roots@),
                asset,
            ),
{
    validate_forget_request(
        request.source_kind.as_str(),
        request.source_id.as_str(),
        &request.tombstone,
    )?;
    check_fence(held, fence)?;
    if forgotten {
        let name: String = source_key(request.source_kind.as_str(), request.source_id.as_str());
        let message: String = crate::text::cat3(
            "source ",
            name.as_str(),
            " was already forgotten",
        );
        return Err(StoreError::new(ErrorCode::RetentionRefused, message.as_str()));
    }
    let affected: Vec<String> = source_derived_assets(
        request.source_kind.as_str(),
        true,
        roots,
        dependencies,
    )?;
    let created: i64 = to_i64(request.tombstone.created_unix_ms, "tombstone time")?;
    Ok(affected)
}

/// Retention archives a source, or invalidates it with a reason, where the source is a file or
/// a commit. A source is forgotten once, with a tombstone that names it and a reason.
pub proof fn law_source_is_retired_or_forgotten(
    update: MemorySourceRetentionUpdate,
    request: MemorySourceForget,
    fence: HostFence,
    held: Option<i64>,
    forgotten: bool,
)
    ensures
        retention_fault(update, fence, held) is None <==> {
            &&& update.status == MemoryAssetStatus::Archived || (update.status
                == MemoryAssetStatus::Invalidated && update.reason is Some && !blank(
                update.reason->Some_0@,
            ))
            &&& held is Some
            &&& held->Some_0 == fence.generation as int
            &&& update.source_kind@ == "file"@ || update.source_kind@ == "commit"@
            &&& update.created_unix_ms <= i64::MAX
        },
        forget_fault(request, fence, held, forgotten) is None <==> {
            &&& request.tombstone.source_kind@ == request.source_kind@
            &&& request.tombstone.source_id@ == request.source_id@
            &&& !blank(request.source_kind@)
            &&& !blank(request.source_id@)
            &&& !blank(request.tombstone.reason@)
            &&& held is Some
            &&& held->Some_0 == fence.generation as int
            &&& !forgotten
            &&& request.source_kind@ == "file"@ || request.source_kind@ == "commit"@
            &&& request.tombstone.created_unix_ms <= i64::MAX
        },
{
}

/// A forgotten source stays forgotten: once a tombstone names it, forgetting it
/// again is refused.
pub proof fn law_source_is_forgotten_once(
    request: MemorySourceForget,
    fence: HostFence,
    held: Option<i64>,
)
    requires
        forget_fault(request, fence, held, false) is None,
    ensures
        forget_fault(request, fence, held, true) == fault(
            ErrorCode::RetentionRefused,
            "source "@ + source_name(request.source_kind@, request.source_id@)
                + " was already forgotten"@,
        ),
{
}

} // verus!

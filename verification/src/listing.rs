//! What a principal is shown of memory: the hits of a search, the assets that are
//! bound to it, and the candidates that it may confirm.
//!
//! Every filter comes before every limit. What a principal is not shown takes no
//! place that something else could have.

use crate::error::{answers, first, ErrorCode, Fault, StoreError};
use crate::lineage::{
    assert_lineage_authorized, findable, is_findable, is_reachable, is_shown, lineage_fault,
    is_readable_row, may_search, reachable, readable_row, search_shows, searchable,
    unreadable_grant, unreadable_grant_fault, AncestorRow, SearchRow,
};
use crate::memory::{
    authorization_fault, authorize_row, has_readable_grant, is_fresh, readable_grant,
    scope_admits, scope_matches, version_is_fresh, AssetScopeRow, GrantRow, MemoryAssetStatus,
    MemorySourceRecord, RefreshSource, StoreMemoryPrincipal,
};
use crate::order::{first_text, is_first};
use crate::seqs::places_of;
use crate::text::{same_text, texts};
use vstd::prelude::*;

verus! {

/// How many assets a search shows at most.
pub const SEARCH_LIMIT: usize = 32;

/// How many assets of memory are bound at most.
pub const BOUND_MEMORY_LIMIT: usize = 8;

/// How many candidates are listed at most.
pub const CANDIDATE_LIMIT: usize = 64;

/// The smaller of two numbers.
pub open spec fn at_most(limit: usize, most: usize) -> usize {
    if limit < most {
        limit
    } else {
        most
    }
}

fn smaller(limit: usize, most: usize) -> (count: usize)
    ensures
        count == at_most(limit, most),
{
    if limit < most {
        limit
    } else {
        most
    }
}

/// A refusal that only leaves an asset out of a listing.
pub open spec fn is_skippable(code: ErrorCode) -> bool {
    code == ErrorCode::PolicyDenied || code == ErrorCode::SequenceConflict
}

/// A refusal, where it fails a listing.
pub open spec fn failing(refusal: Option<Fault>) -> Option<Fault> {
    match refusal {
        Some(found) => if is_skippable(found.code) {
            None
        } else {
            Some(found)
        },
        None => None,
    }
}

/// Whether something is not refused, or the error where the refusal fails a listing.
fn passes(authorized: Result<(), StoreError>) -> (result: Result<bool, StoreError>)
    ensures
        authorized is Ok ==> result == Ok::<bool, StoreError>(true),
        authorized is Err ==> answers(result, failing(Some(authorized->Err_0@))),
        authorized is Err && result is Ok ==> !result->Ok_0,
{
    match authorized {
        Ok(_) => Ok(true),
        Err(error) => {
            let code: ErrorCode = error.code();
            if code == ErrorCode::PolicyDenied || code == ErrorCode::SequenceConflict {
                Ok(false)
            } else {
                Err(error)
            }
        },
    }
}

// ---------------------------------------------------------------------------
// Searching

/// An asset that matches a query, with what a search has to know of it.
#[derive(Clone, Debug)]
pub struct FoundAsset {
    pub row: SearchRow,
    /// The sources that its current version names.
    pub sources: Vec<MemorySourceRecord>,
}

/// A search shows an asset.
pub open spec fn shows(
    principal: StoreMemoryPrincipal,
    left_out: Option<String>,
    seen: Seq<RefreshSource>,
    asset: FoundAsset,
) -> bool {
    is_shown(principal, asset.row, left_out, asset.sources@, seen)
}

/// The places of the first assets that a search shows.
pub open spec fn shown_places(
    principal: StoreMemoryPrincipal,
    left_out: Option<String>,
    seen: Seq<RefreshSource>,
    assets: Seq<FoundAsset>,
    limit: nat,
) -> Seq<int>
    decreases assets.len(),
{
    if assets.len() == 0 {
        seq![]
    } else {
        let before = shown_places(principal, left_out, seen, assets.drop_last(), limit);
        if before.len() < limit && shows(principal, left_out, seen, assets.last()) {
            before.push(assets.len() - 1)
        } else {
            before
        }
    }
}

/// Why a search cannot be made: a grant that has to be looked at is not JSON.
pub open spec fn search_fault(principal: StoreMemoryPrincipal, assets: Seq<FoundAsset>) -> Option<
    Fault,
> {
    if forall|i: int|
        0 <= i < assets.len() ==> is_readable_row(principal, (#[trigger] assets[i]).row) {
        None
    } else {
        unreadable_grant_fault()
    }
}

/// Selects the assets that a search shows, best match first. `assets` are all that
/// match the query, in the order of the match. An empty query shows nothing.
pub fn search_memory_fresh(
    principal: &StoreMemoryPrincipal,
    query: &str,
    limit: usize,
    left_out: &Option<String>,
    seen: &Vec<RefreshSource>,
    assets: &Vec<FoundAsset>,
) -> (result: Result<Vec<usize>, StoreError>)
    ensures
        answers(
            result,
            if query@.len() == 0 {
                None
            } else {
                search_fault(*principal, assets@)
            },
        ),
        result is Ok ==> places_of(result->Ok_0@) == if query@.len() == 0 {
            seq![]
        } else {
            shown_places(
                *principal,
                *left_out,
                seen@,
                assets@,
                at_most(limit, SEARCH_LIMIT) as nat,
            )
        },
{
    let mut shown: Vec<usize> = Vec::new();
    assert(places_of(shown@) =~= seq![]);
    if query.is_empty() {
        return Ok(shown);
    }
    let count: usize = smaller(limit, SEARCH_LIMIT);
    let mut i: usize = 0;
    while i < assets.len()
        invariant
            i <= assets.len(),
            places_of(shown@) == shown_places(
                *principal,
                *left_out,
                seen@,
                assets@.take(i as int),
                count as nat,
            ),
            query@.len() != 0,
            forall|k: int|
                0 <= k < i ==> is_readable_row(*principal, (#[trigger] assets@[k]).row),
        decreases assets.len() - i,
    {
        let ghost before = shown@;
        if !readable_row(principal, &assets[i].row) {
            assert(!is_readable_row(*principal, assets@[i as int].row));
            return Err(unreadable_grant());
        }
        assert(assets@.take(i + 1).drop_last() =~= assets@.take(i as int));
        assert(assets@.take(i + 1).last() == assets@[i as int]);
        assert(places_of(shown@).len() == shown@.len());
        if shown.len() < count && search_shows(
            principal,
            &assets[i].row,
            left_out,
            &assets[i].sources,
            seen,
        ) {
            shown.push(i);
            assert(places_of(shown@) =~= places_of(before).push(i as int));
        }
        i += 1;
    }
    assert(assets@.take(i as int) =~= assets@);
    Ok(shown)
}

/// A search answers with the first of the assets that it shows, as many as its limit, in the
/// order in which they were found. One that it shows is left out only where the limit is
/// reached before it.
pub proof fn law_search_answers_with_the_first_that_it_shows(
    principal: StoreMemoryPrincipal,
    left_out: Option<String>,
    seen: Seq<RefreshSource>,
    assets: Seq<FoundAsset>,
    limit: nat,
)
    ensures
        ({
            let places = shown_places(principal, left_out, seen, assets, limit);
            &&& places.len() <= limit
            &&& forall|k: int, l: int|
                0 <= k < l < places.len() ==> #[trigger] places[k] < #[trigger] places[l]
            &&& forall|k: int|
                0 <= k < places.len() ==> 0 <= #[trigger] places[k] < assets.len()
            &&& forall|k: int|
                0 <= k < places.len() ==> shows(principal, left_out, seen, assets[#[trigger] places[k]])
            &&& forall|i: int|
                0 <= i < assets.len() && shows(principal, left_out, seen, #[trigger] assets[i]) && !places.contains(i)
                    ==> places.len() == limit && forall|k: int|
                    0 <= k < places.len() ==> #[trigger] places[k] < i
        }),
    decreases assets.len(),
{
    if assets.len() > 0 {
        let head = assets.drop_last();
        let end = assets.len() - 1;
        let before = shown_places(principal, left_out, seen, head, limit);
        let places = shown_places(principal, left_out, seen, assets, limit);
        law_search_answers_with_the_first_that_it_shows(principal, left_out, seen, head, limit);
        assert forall|i: int| 0 <= i < head.len() implies head[i] == #[trigger] assets[i] by {}
        assert forall|k: int| 0 <= k < places.len() implies shows(principal, left_out, seen, assets[#[trigger] places[k]]) by {
            if k < before.len() {
                assert(before[k] == places[k]);
                assert(shows(principal, left_out, seen, head[before[k]]));
            }
        }
        assert forall|i: int|
            0 <= i < assets.len() && shows(principal, left_out, seen, #[trigger] assets[i]) && !places.contains(i) implies
            places.len() == limit && forall|k: int|
            0 <= k < places.len() ==> #[trigger] places[k] < i by {
            crate::seqs::lemma_push_contains(before, end, i);
            if i < end {
                assert(head[i] == assets[i]);
                assert(!before.contains(i));
            }
        }
    }
}

/// A search is answered unless it has to look at a grant that is not JSON. Its limit is the one
/// asked for, up to thirty-two; eight assets are bound at most, and sixty-four candidates
/// listed. A refusal is passed over where it is for want of authority or because a version
/// has changed.
pub proof fn law_search_is_answered_within_its_limits(
    principal: StoreMemoryPrincipal,
    assets: Seq<FoundAsset>,
    limit: usize,
    refusal: Fault,
)
    ensures
        search_fault(principal, assets) is None <==> forall|i: int|
            0 <= i < assets.len() ==> is_readable_row(principal, (#[trigger] assets[i]).row),
        limit <= 32 ==> at_most(limit, SEARCH_LIMIT) == limit,
        limit > 32 ==> at_most(limit, SEARCH_LIMIT) == 32,
        limit <= 64 ==> at_most(limit, CANDIDATE_LIMIT) == limit,
        limit > 64 ==> at_most(limit, CANDIDATE_LIMIT) == 64,
        BOUND_MEMORY_LIMIT == 8,
        failing(None) is None,
        refusal.code == ErrorCode::PolicyDenied || refusal.code == ErrorCode::SequenceConflict
            ==> failing(Some(refusal)) is None,
        refusal.code != ErrorCode::PolicyDenied && refusal.code != ErrorCode::SequenceConflict
            ==> failing(Some(refusal)) == Some(refusal),
{
}

/// The places of what a search shows are places of its assets.
proof fn lemma_shown_in_range(
    principal: StoreMemoryPrincipal,
    left_out: Option<String>,
    seen: Seq<RefreshSource>,
    assets: Seq<FoundAsset>,
    limit: nat,
)
    ensures
        forall|k: int|
            0 <= k < shown_places(principal, left_out, seen, assets, limit).len() ==> 0
                <= #[trigger] shown_places(principal, left_out, seen, assets, limit)[k]
                < assets.len() && shows(
                principal,
                left_out,
                seen,
                assets[shown_places(principal, left_out, seen, assets, limit)[k]],
            ),
        shown_places(principal, left_out, seen, assets, limit).len() <= limit,
    decreases assets.len(),
{
    if assets.len() > 0 {
        let front = assets.drop_last();
        lemma_shown_in_range(principal, left_out, seen, front, limit);
        let before = shown_places(principal, left_out, seen, front, limit);
        let now = shown_places(principal, left_out, seen, assets, limit);
        assert forall|k: int| 0 <= k < now.len() implies 0 <= #[trigger] now[k] < assets.len()
            && shows(principal, left_out, seen, assets[now[k]]) by {
            if k < before.len() {
                assert(now[k] == before[k]);
                assert(front[before[k]] == assets[before[k]]);
            }
        }
    }
}

/// What a search shows, in order.
pub open spec fn shown_assets(
    principal: StoreMemoryPrincipal,
    left_out: Option<String>,
    seen: Seq<RefreshSource>,
    assets: Seq<FoundAsset>,
    limit: nat,
) -> Seq<FoundAsset> {
    shown_places(principal, left_out, seen, assets, limit).map_values(|place: int| assets[place])
}

/// A search shows nothing that it may not show, and never more than its limit.
pub proof fn law_search_shows_only_what_is_allowed(
    principal: StoreMemoryPrincipal,
    left_out: Option<String>,
    seen: Seq<RefreshSource>,
    assets: Seq<FoundAsset>,
    limit: nat,
)
    ensures
        shown_assets(principal, left_out, seen, assets, limit).len() <= limit,
        forall|k: int|
            0 <= k < shown_assets(principal, left_out, seen, assets, limit).len() ==> shows(
                principal,
                left_out,
                seen,
                #[trigger] shown_assets(principal, left_out, seen, assets, limit)[k],
            ),
{
    lemma_shown_in_range(principal, left_out, seen, assets, limit);
    let places = shown_places(principal, left_out, seen, assets, limit);
    let list = shown_assets(principal, left_out, seen, assets, limit);
    assert forall|k: int| 0 <= k < list.len() implies shows(
        principal,
        left_out,
        seen,
        #[trigger] list[k],
    ) by {
        assert(list[k] == assets[places[k]]);
    }
}

/// What is not shown takes no place: a match that is stale, or that the principal
/// may not see, changes nothing of what a search shows, wherever it ranks, so it
/// cannot push another one off the end.
pub proof fn law_hidden_match_takes_no_place(
    principal: StoreMemoryPrincipal,
    left_out: Option<String>,
    seen: Seq<RefreshSource>,
    better: Seq<FoundAsset>,
    hidden: FoundAsset,
    worse: Seq<FoundAsset>,
    limit: nat,
)
    requires
        !shows(principal, left_out, seen, hidden),
    ensures
        shown_assets(principal, left_out, seen, better.push(hidden) + worse, limit)
            == shown_assets(principal, left_out, seen, better + worse, limit),
    decreases worse.len(),
{
    let with = better.push(hidden) + worse;
    let without = better + worse;
    lemma_shown_in_range(principal, left_out, seen, without, limit);
    if worse.len() == 0 {
        assert(with =~= better.push(hidden));
        assert(without =~= better);
        assert(with.drop_last() =~= better);
        assert(shown_assets(principal, left_out, seen, with, limit) =~= shown_assets(
            principal,
            left_out,
            seen,
            without,
            limit,
        ));
    } else {
        let rest = worse.drop_last();
        let last = worse.last();
        law_hidden_match_takes_no_place(principal, left_out, seen, better, hidden, rest, limit);
        let with_rest = better.push(hidden) + rest;
        let without_rest = better + rest;
        assert(with.drop_last() =~= with_rest);
        assert(without.drop_last() =~= without_rest);
        lemma_shown_in_range(principal, left_out, seen, with_rest, limit);
        lemma_shown_in_range(principal, left_out, seen, without_rest, limit);
        let a = shown_places(principal, left_out, seen, with_rest, limit);
        let b = shown_places(principal, left_out, seen, without_rest, limit);
        let shown_a = shown_assets(principal, left_out, seen, with_rest, limit);
        let shown_b = shown_assets(principal, left_out, seen, without_rest, limit);
        assert(shown_a.len() == a.len() && shown_b.len() == b.len());
        let now_a = shown_assets(principal, left_out, seen, with, limit);
        let now_b = shown_assets(principal, left_out, seen, without, limit);
        assert forall|k: int| 0 <= k < a.len() implies #[trigger] now_a[k] == shown_a[k] by {
            assert(with[a[k]] == with_rest[a[k]]);
        }
        assert forall|k: int| 0 <= k < b.len() implies #[trigger] now_b[k] == shown_b[k] by {
            assert(without[b[k]] == without_rest[b[k]]);
        }
        assert(now_a =~= now_b);
    }
}

// ---------------------------------------------------------------------------
// Looking a text up

/// An asset with the text that its current version holds, and what a search has to
/// know of it.
#[derive(Clone, Debug)]
pub struct HeldText {
    pub id: String,
    pub normalized_content: String,
    pub row: SearchRow,
}

/// An asset holds a text for a principal: the text is exactly its own, and a search
/// of the principal can find it. Where any status counts, it is enough that the
/// principal may search it.
pub open spec fn holds_text(
    principal: StoreMemoryPrincipal,
    content: Seq<char>,
    any_status: bool,
    asset: HeldText,
) -> bool {
    &&& asset.normalized_content@ == content
    &&& if any_status {
        may_search(principal, asset.row)
    } else {
        is_findable(principal, asset.row)
    }
}

/// The ids of the assets that hold a text for a principal.
pub open spec fn holders(
    principal: StoreMemoryPrincipal,
    content: Seq<char>,
    any_status: bool,
    assets: Seq<HeldText>,
) -> Seq<Seq<char>>
    decreases assets.len(),
{
    if assets.len() == 0 {
        seq![]
    } else {
        let before = holders(principal, content, any_status, assets.drop_last());
        if holds_text(principal, content, any_status, assets.last()) {
            before.push(assets.last().id@)
        } else {
            before
        }
    }
}

/// A lookup finds the smallest id among the holders of a text, or nothing where
/// there is no holder.
pub open spec fn is_found(ids: Seq<Seq<char>>, found: Option<String>) -> bool {
    match found {
        None => ids.len() == 0,
        Some(id) => is_first(ids, id@),
    }
}

/// Why a text cannot be looked up: a grant that has to be looked at is not JSON.
pub open spec fn lookup_fault(principal: StoreMemoryPrincipal, assets: Seq<HeldText>) -> Option<
    Fault,
> {
    if forall|i: int|
        0 <= i < assets.len() ==> has_readable_grant(
            principal,
            (#[trigger] assets[i]).row.asset,
            assets[i].row.grant,
        ) {
        None
    } else {
        unreadable_grant_fault()
    }
}

fn find_holder(
    principal: &StoreMemoryPrincipal,
    content: &str,
    any_status: bool,
    assets: &Vec<HeldText>,
) -> (result: Result<Option<String>, StoreError>)
    ensures
        answers(result, lookup_fault(*principal, assets@)),
        result is Ok ==> is_found(
            holders(*principal, content@, any_status, assets@),
            result->Ok_0,
        ),
{
    let mut ids: Vec<String> = Vec::new();
    assert(texts(ids@) =~= seq![]);
    let mut i: usize = 0;
    while i < assets.len()
        invariant
            i <= assets.len(),
            texts(ids@) == holders(*principal, content@, any_status, assets@.take(i as int)),
            forall|k: int|
                0 <= k < i ==> has_readable_grant(
                    *principal,
                    (#[trigger] assets@[k]).row.asset,
                    assets@[k].row.grant,
                ),
        decreases assets.len() - i,
    {
        let ghost before = ids@;
        assert(assets@.take(i + 1).drop_last() =~= assets@.take(i as int));
        let asset: &HeldText = &assets[i];
        assert(assets@.take(i + 1).last() == *asset);
        if !readable_grant(principal, &asset.row.asset, &asset.row.grant) {
            assert(!has_readable_grant(
                *principal,
                assets@[i as int].row.asset,
                assets@[i as int].row.grant,
            ));
            return Err(unreadable_grant());
        }
        let counts: bool = if any_status {
            searchable(principal, &asset.row)
        } else {
            findable(principal, &asset.row)
        };
        if counts && same_text(asset.normalized_content.as_str(), content) {
            ids.push(asset.id.clone());
            assert(texts(ids@) =~= texts(before).push(asset.id@));
        }
        i += 1;
    }
    assert(assets@.take(i as int) =~= assets@);
    assert(texts(ids@).len() == ids@.len());
    Ok(first_text(&ids))
}

/// The asset that already holds exactly a text, of those that a search of the
/// principal can find. `assets` are assets with the texts of their current versions.
pub fn find_active_memory_by_content(
    principal: &StoreMemoryPrincipal,
    content: &str,
    assets: &Vec<HeldText>,
) -> (result: Result<Option<String>, StoreError>)
    ensures
        answers(result, lookup_fault(*principal, assets@)),
        result is Ok ==> is_found(holders(*principal, content@, false, assets@), result->Ok_0),
{
    find_holder(principal, content, false, assets)
}

/// The asset that already holds exactly a text, whatever its status, of those that
/// the principal may search. A candidate that was refused must not come back as a
/// fresh proposal, so it counts too.
pub fn find_memory_by_content_any_status(
    principal: &StoreMemoryPrincipal,
    content: &str,
    assets: &Vec<HeldText>,
) -> (result: Result<Option<String>, StoreError>)
    ensures
        answers(result, lookup_fault(*principal, assets@)),
        result is Ok ==> is_found(holders(*principal, content@, true, assets@), result->Ok_0),
{
    find_holder(principal, content, true, assets)
}

/// The holders of a text are the assets whose content is that text and that the principal may
/// search: whatever their status, or where only active ones count, those that are active,
/// valid and bound.
pub proof fn law_holders_have_the_text(
    principal: StoreMemoryPrincipal,
    content: Seq<char>,
    any_status: bool,
    assets: Seq<HeldText>,
    id: Seq<char>,
)
    ensures
        holders(principal, content, any_status, assets).contains(id) <==> exists|i: int|
            0 <= i < assets.len() && (#[trigger] assets[i]).id@ == id
                && assets[i].normalized_content@ == content && may_search(
                principal,
                assets[i].row,
            ) && (any_status || (assets[i].row.status == MemoryAssetStatus::Active
                && assets[i].row.valid && assets[i].row.bound)),
    decreases assets.len(),
{
    if assets.len() > 0 {
        let head = assets.drop_last();
        let end = assets.len() - 1;
        let last = assets[end];
        law_holders_have_the_text(principal, content, any_status, head, id);
        crate::seqs::lemma_push_contains(
            holders(principal, content, any_status, head),
            last.id@,
            id,
        );
        assert forall|i: int| 0 <= i < head.len() implies head[i] == #[trigger] assets[i] by {}
        if holders(principal, content, any_status, head).contains(id) {
            let i = choose|i: int|
                0 <= i < head.len() && (#[trigger] head[i]).id@ == id
                    && head[i].normalized_content@ == content && may_search(
                    principal,
                    head[i].row,
                ) && (any_status || (head[i].row.status == MemoryAssetStatus::Active
                    && head[i].row.valid && head[i].row.bound));
            assert(assets[i].id@ == id);
        } else if holders(principal, content, any_status, assets).contains(id) {
            assert(assets[end].id@ == id);
        }
        if exists|i: int|
            0 <= i < assets.len() && (#[trigger] assets[i]).id@ == id
                && assets[i].normalized_content@ == content && may_search(
                principal,
                assets[i].row,
            ) && (any_status || (assets[i].row.status == MemoryAssetStatus::Active
                && assets[i].row.valid && assets[i].row.bound)) {
            let i = choose|i: int|
                0 <= i < assets.len() && (#[trigger] assets[i]).id@ == id
                    && assets[i].normalized_content@ == content && may_search(
                    principal,
                    assets[i].row,
                ) && (any_status || (assets[i].row.status == MemoryAssetStatus::Active
                    && assets[i].row.valid && assets[i].row.bound));
            if i < end {
                assert(head[i].id@ == id);
            }
        }
    }
}

/// A text is looked up unless a grant that has to be looked at is not JSON. Where nobody holds
/// it nothing is found, and otherwise the first of its holders in the order of their ids.
pub proof fn law_first_holder_is_found(
    principal: StoreMemoryPrincipal,
    assets: Seq<HeldText>,
    ids: Seq<Seq<char>>,
    found: Option<String>,
    other: Seq<char>,
)
    ensures
        lookup_fault(principal, assets) is None <==> forall|i: int|
            0 <= i < assets.len() ==> has_readable_grant(
                principal,
                (#[trigger] assets[i]).row.asset,
                assets[i].row.grant,
            ),
        is_found(ids, found) ==> (found is None <==> ids.len() == 0),
        is_found(ids, found) && found is Some ==> ids.contains(found->Some_0@),
        is_found(ids, found) && found is Some && ids.contains(other) ==> other == found->Some_0@
            || crate::order::precedes(found->Some_0@, other),
{
    if is_found(ids, found) && found is Some {
        assert(ids.contains(found->Some_0@));
    }
}

/// A lookup reports no asset that the principal may not search.
pub proof fn law_holders_may_be_searched(
    principal: StoreMemoryPrincipal,
    content: Seq<char>,
    any_status: bool,
    assets: Seq<HeldText>,
    id: Seq<char>,
)
    requires
        holders(principal, content, any_status, assets).contains(id),
    ensures
        exists|i: int|
            0 <= i < assets.len() && (#[trigger] assets[i]).id@ == id
                && assets[i].normalized_content@ == content && may_search(
                principal,
                assets[i].row,
            ),
    decreases assets.len(),
{
    if assets.len() > 0 {
        let front = assets.drop_last();
        let before = holders(principal, content, any_status, front);
        if before.contains(id) {
            law_holders_may_be_searched(principal, content, any_status, front, id);
            let i = choose|i: int|
                0 <= i < front.len() && (#[trigger] front[i]).id@ == id
                    && front[i].normalized_content@ == content && may_search(
                    principal,
                    front[i].row,
                );
            assert(assets[i] == front[i]);
        } else {
            crate::seqs::lemma_push_contains(before, assets.last().id@, id);
            assert(assets[assets.len() - 1].id@ == id);
        }
    }
}

// ---------------------------------------------------------------------------
// Bound memory

/// An asset that a binding names for a principal, with what has to be known of it.
#[derive(Clone, Debug)]
pub struct BoundAsset {
    pub row: SearchRow,
    /// The sources that its current version names.
    pub sources: Vec<MemorySourceRecord>,
    /// Everything that it was derived from.
    pub lineage: Vec<AncestorRow>,
}

/// A binding counts: the principal reaches its asset, and none of the asset's
/// sources is seen to have changed.
pub open spec fn is_bindable(
    principal: StoreMemoryPrincipal,
    seen: Seq<RefreshSource>,
    asset: BoundAsset,
) -> bool {
    is_reachable(principal, asset.row) && is_fresh(asset.sources@, seen)
}

/// An asset is bound: its binding counts, its current version holds, and the
/// principal may read all that it was derived from, which holds too.
pub open spec fn is_bound(
    principal: StoreMemoryPrincipal,
    seen: Seq<RefreshSource>,
    asset: BoundAsset,
) -> bool {
    &&& is_bindable(principal, seen, asset)
    &&& lineage_fault(principal, asset.lineage@, true) is None
    &&& asset.row.valid
}

/// The places of the first assets that are bound.
pub open spec fn bound_places(
    principal: StoreMemoryPrincipal,
    seen: Seq<RefreshSource>,
    assets: Seq<BoundAsset>,
) -> Seq<int>
    decreases assets.len(),
{
    if assets.len() == 0 {
        seq![]
    } else {
        let before = bound_places(principal, seen, assets.drop_last());
        if before.len() < BOUND_MEMORY_LIMIT && is_bound(principal, seen, assets.last()) {
            before.push(assets.len() - 1)
        } else {
            before
        }
    }
}

/// Why bound memory cannot be read: a grant that has to be looked at is not JSON.
pub open spec fn bindings_fault(principal: StoreMemoryPrincipal, assets: Seq<BoundAsset>) -> Option<
    Fault,
> {
    if forall|i: int|
        0 <= i < assets.len() ==> has_readable_grant(
            principal,
            (#[trigger] assets[i]).row.asset,
            assets[i].row.grant,
        ) {
        None
    } else {
        unreadable_grant_fault()
    }
}

fn check_bindings(principal: &StoreMemoryPrincipal, assets: &Vec<BoundAsset>) -> (result: Result<
    (),
    StoreError,
>)
    ensures
        answers(result, bindings_fault(*principal, assets@)),
{
    let mut i: usize = 0;
    while i < assets.len()
        invariant
            i <= assets.len(),
            forall|k: int|
                0 <= k < i ==> has_readable_grant(
                    *principal,
                    (#[trigger] assets@[k]).row.asset,
                    assets@[k].row.grant,
                ),
        decreases assets.len() - i,
    {
        if !readable_grant(principal, &assets[i].row.asset, &assets[i].row.grant) {
            assert(!has_readable_grant(
                *principal,
                assets@[i as int].row.asset,
                assets@[i as int].row.grant,
            ));
            return Err(unreadable_grant());
        }
        i += 1;
    }
    Ok(())
}

/// Why bound memory cannot be listed: before the list is full, an asset's lineage is
/// refused for more than a lack of authority or a source that no longer holds.
pub open spec fn bound_fault(
    principal: StoreMemoryPrincipal,
    seen: Seq<RefreshSource>,
    assets: Seq<BoundAsset>,
) -> Option<Fault>
    decreases assets.len(),
{
    if assets.len() == 0 {
        None
    } else {
        let front = assets.drop_last();
        first(
            bound_fault(principal, seen, front),
            if bound_places(principal, seen, front).len() < BOUND_MEMORY_LIMIT && is_bindable(
                principal,
                seen,
                assets.last(),
            ) {
                failing(lineage_fault(principal, assets.last().lineage@, true))
            } else {
                None
            },
        )
    }
}

proof fn lemma_bound_fault_stands(
    principal: StoreMemoryPrincipal,
    seen: Seq<RefreshSource>,
    assets: Seq<BoundAsset>,
    count: int,
)
    requires
        0 <= count <= assets.len(),
        bound_fault(principal, seen, assets.take(count)) is Some,
    ensures
        bound_fault(principal, seen, assets) == bound_fault(principal, seen, assets.take(count)),
    decreases assets.len() - count,
{
    if count == assets.len() {
        assert(assets.take(count) =~= assets);
    } else {
        assert(assets.take(count + 1).drop_last() =~= assets.take(count));
        lemma_bound_fault_stands(principal, seen, assets, count + 1);
    }
}

/// Selects the assets that are bound to a principal. `assets` are those that its
/// bindings name, in the order of the bindings.
pub fn bound_memory_fresh(
    principal: &StoreMemoryPrincipal,
    seen: &Vec<RefreshSource>,
    assets: &Vec<BoundAsset>,
) -> (result: Result<Vec<usize>, StoreError>)
    ensures
        answers(
            result,
            first(
                bindings_fault(*principal, assets@),
                bound_fault(*principal, seen@, assets@),
            ),
        ),
        result is Ok ==> places_of(result->Ok_0@) == bound_places(*principal, seen@, assets@),
{
    check_bindings(principal, assets)?;
    let mut bound: Vec<usize> = Vec::new();
    assert(places_of(bound@) =~= seq![]);
    let mut i: usize = 0;
    while i < assets.len()
        invariant
            i <= assets.len(),
            bindings_fault(*principal, assets@) is None,
            bound_fault(*principal, seen@, assets@.take(i as int)) is None,
            places_of(bound@) == bound_places(*principal, seen@, assets@.take(i as int)),
        decreases assets.len() - i,
    {
        let ghost before = bound@;
        assert(assets@.take(i + 1).drop_last() =~= assets@.take(i as int));
        let asset: &BoundAsset = &assets[i];
        assert(assets@.take(i + 1).last() == *asset);
        assert(places_of(bound@).len() == bound@.len());
        if bound.len() < BOUND_MEMORY_LIMIT && reachable(principal, &asset.row)
            && version_is_fresh(&asset.sources, seen) {
            match passes(assert_lineage_authorized(principal, &asset.lineage, true)) {
                Ok(allowed) => {
                    if allowed && asset.row.valid {
                        bound.push(i);
                        assert(places_of(bound@) =~= places_of(before).push(i as int));
                    }
                },
                Err(error) => {
                    proof {
                        lemma_bound_fault_stands(*principal, seen@, assets@, i + 1);
                    }
                    return Err(error);
                },
            }
        }
        i += 1;
    }
    assert(assets@.take(i as int) =~= assets@);
    Ok(bound)
}

/// The first eight of the assets that are bound for a principal are given, in their order, and
/// one that is bound is left out only where eight come before it.
pub proof fn law_first_bound_assets_are_given(
    principal: StoreMemoryPrincipal,
    seen: Seq<RefreshSource>,
    assets: Seq<BoundAsset>,
)
    ensures
        ({
            let places = bound_places(principal, seen, assets);
            &&& places.len() <= 8
            &&& forall|k: int, l: int|
                0 <= k < l < places.len() ==> #[trigger] places[k] < #[trigger] places[l]
            &&& forall|k: int|
                0 <= k < places.len() ==> 0 <= #[trigger] places[k] < assets.len()
            &&& forall|k: int|
                0 <= k < places.len() ==> is_bound(principal, seen, assets[#[trigger] places[k]])
            &&& forall|i: int|
                0 <= i < assets.len() && is_bound(principal, seen, #[trigger] assets[i]) && !places.contains(i)
                    ==> places.len() == 8 && forall|k: int|
                    0 <= k < places.len() ==> #[trigger] places[k] < i
        }),
    decreases assets.len(),
{
    if assets.len() > 0 {
        let head = assets.drop_last();
        let end = assets.len() - 1;
        let before = bound_places(principal, seen, head);
        let places = bound_places(principal, seen, assets);
        law_first_bound_assets_are_given(principal, seen, head);
        assert forall|i: int| 0 <= i < head.len() implies head[i] == #[trigger] assets[i] by {}
        assert forall|k: int| 0 <= k < places.len() implies is_bound(principal, seen, assets[#[trigger] places[k]]) by {
            if k < before.len() {
                assert(before[k] == places[k]);
                assert(is_bound(principal, seen, head[before[k]]));
            }
        }
        assert forall|i: int|
            0 <= i < assets.len() && is_bound(principal, seen, #[trigger] assets[i]) && !places.contains(i) implies
            places.len() == 8 && forall|k: int|
            0 <= k < places.len() ==> #[trigger] places[k] < i by {
            crate::seqs::lemma_push_contains(before, end, i);
            if i < end {
                assert(head[i] == assets[i]);
                assert(!before.contains(i));
            }
        }
    }
}

/// An asset is bound for a principal if and only if it is active and valid, the principal may
/// search it, none of its sources has changed, and its whole lineage is in order. Assets that
/// are denied or have changed are passed over.
pub proof fn law_bound_asset_is_active_and_fresh(
    principal: StoreMemoryPrincipal,
    seen: Seq<RefreshSource>,
    assets: Seq<BoundAsset>,
    i: int,
)
    requires
        0 <= i < assets.len(),
    ensures
        is_bound(principal, seen, assets[i]) <==> {
            &&& assets[i].row.status == MemoryAssetStatus::Active
            &&& assets[i].row.valid
            &&& may_search(principal, assets[i].row)
            &&& is_fresh(assets[i].sources@, seen)
            &&& lineage_fault(principal, assets[i].lineage@, true) is None
        },
        (forall|k: int|
            0 <= k < assets.len() ==> {
                let refusal = lineage_fault(principal, (#[trigger] assets[k]).lineage@, true);
                ||| refusal is None
                ||| refusal->Some_0.code == ErrorCode::PolicyDenied
                ||| refusal->Some_0.code == ErrorCode::SequenceConflict
            }) ==> bound_fault(principal, seen, assets) is None,
        bindings_fault(principal, assets) is None <==> forall|k: int|
            0 <= k < assets.len() ==> has_readable_grant(
                principal,
                (#[trigger] assets[k]).row.asset,
                assets[k].row.grant,
            ),
{
    if forall|k: int|
        0 <= k < assets.len() ==> {
            let refusal = lineage_fault(principal, (#[trigger] assets[k]).lineage@, true);
            ||| refusal is None
            ||| refusal->Some_0.code == ErrorCode::PolicyDenied
            ||| refusal->Some_0.code == ErrorCode::SequenceConflict
        } {
        lemma_passed_over(principal, seen, assets);
    }
}

/// Once eight assets are bound, nothing that comes behind them is looked at. Before that, an
/// asset that could be bound and whose lineage cannot be read stops the whole list.
pub proof fn law_eight_bound_assets_are_enough(
    principal: StoreMemoryPrincipal,
    seen: Seq<RefreshSource>,
    assets: Seq<BoundAsset>,
    last: BoundAsset,
)
    ensures
        bound_places(principal, seen, assets).len() == 8 ==> {
            &&& bound_fault(principal, seen, assets.push(last)) == bound_fault(
                principal,
                seen,
                assets,
            )
            &&& bound_places(principal, seen, assets.push(last)) == bound_places(
                principal,
                seen,
                assets,
            )
        },
        bound_places(principal, seen, assets).len() < 8 && last.row.status
            == MemoryAssetStatus::Active && may_search(principal, last.row) && is_fresh(
            last.sources@,
            seen,
        ) && lineage_fault(principal, last.lineage@, true) is Some && lineage_fault(
            principal,
            last.lineage@,
            true,
        )->Some_0.code != ErrorCode::PolicyDenied && lineage_fault(
            principal,
            last.lineage@,
            true,
        )->Some_0.code != ErrorCode::SequenceConflict ==> bound_fault(
            principal,
            seen,
            assets.push(last),
        ) is Some,
{
    assert(assets.push(last).drop_last() =~= assets);
}

/// Lineages that are in order, or that are passed over, stand in the way of nothing.
proof fn lemma_passed_over(
    principal: StoreMemoryPrincipal,
    seen: Seq<RefreshSource>,
    assets: Seq<BoundAsset>,
)
    requires
        forall|k: int|
            0 <= k < assets.len() ==> {
                let refusal = lineage_fault(principal, (#[trigger] assets[k]).lineage@, true);
                ||| refusal is None
                ||| refusal->Some_0.code == ErrorCode::PolicyDenied
                ||| refusal->Some_0.code == ErrorCode::SequenceConflict
            },
    ensures
        bound_fault(principal, seen, assets) is None,
    decreases assets.len(),
{
    if assets.len() > 0 {
        let head = assets.drop_last();
        assert forall|k: int| 0 <= k < head.len() implies head[k] == #[trigger] assets[k] by {}
        lemma_passed_over(principal, seen, head);
        assert(assets[assets.len() - 1] == assets.last());
    }
}

/// Nothing is bound that the principal may not search, nor anything whose lineage it
/// may not read, and never more than the limit.
pub proof fn law_bound_memory_is_allowed(
    principal: StoreMemoryPrincipal,
    seen: Seq<RefreshSource>,
    assets: Seq<BoundAsset>,
)
    ensures
        bound_places(principal, seen, assets).len() <= BOUND_MEMORY_LIMIT,
        forall|k: int|
            0 <= k < bound_places(principal, seen, assets).len() ==> {
                let place = #[trigger] bound_places(principal, seen, assets)[k];
                &&& 0 <= place < assets.len()
                &&& is_bound(principal, seen, assets[place])
                &&& may_search(principal, assets[place].row)
            },
    decreases assets.len(),
{
    if assets.len() > 0 {
        let front = assets.drop_last();
        law_bound_memory_is_allowed(principal, seen, front);
        let before = bound_places(principal, seen, front);
        let now = bound_places(principal, seen, assets);
        assert forall|k: int| 0 <= k < now.len() implies {
            let place = #[trigger] now[k];
            &&& 0 <= place < assets.len()
            &&& is_bound(principal, seen, assets[place])
            &&& may_search(principal, assets[place].row)
        } by {
            if k < before.len() {
                assert(now[k] == before[k]);
                assert(front[before[k]] == assets[before[k]]);
            }
        }
    }
}

// ---------------------------------------------------------------------------
// Candidates

/// An asset that waits for confirmation, and what authority over it is read from.
#[derive(Clone, Debug)]
pub struct CandidateAsset {
    pub asset: AssetScopeRow,
    pub grant: Option<GrantRow>,
}

/// How many candidates stand where the principal stands.
pub open spec fn scoped_count(
    principal: StoreMemoryPrincipal,
    assets: Seq<CandidateAsset>,
) -> nat
    decreases assets.len(),
{
    if assets.len() == 0 {
        0
    } else {
        scoped_count(principal, assets.drop_last()) + if scope_admits(
            assets.last().asset,
            principal,
        ) {
            1nat
        } else {
            0nat
        }
    }
}

/// A candidate is looked at: it stands where the principal stands, and not too many
/// before it do.
pub open spec fn is_looked_at(
    principal: StoreMemoryPrincipal,
    before: Seq<CandidateAsset>,
    asset: CandidateAsset,
    limit: nat,
) -> bool {
    scoped_count(principal, before) < limit && scope_admits(asset.asset, principal)
}

/// Why a principal may not confirm a candidate.
pub open spec fn publish_fault(
    principal: StoreMemoryPrincipal,
    asset: CandidateAsset,
) -> Option<Fault> {
    authorization_fault(principal, "publish"@, Some(asset.asset), asset.grant)
}

/// The places of the candidates that a principal may confirm.
pub open spec fn candidate_places(
    principal: StoreMemoryPrincipal,
    assets: Seq<CandidateAsset>,
    limit: nat,
) -> Seq<int>
    decreases assets.len(),
{
    if assets.len() == 0 {
        seq![]
    } else {
        let front = assets.drop_last();
        let before = candidate_places(principal, front, limit);
        if is_looked_at(principal, front, assets.last(), limit) && publish_fault(
            principal,
            assets.last(),
        ) is None {
            before.push(assets.len() - 1)
        } else {
            before
        }
    }
}

/// Why candidates cannot be listed: authority over one of them cannot be read.
pub open spec fn candidates_fault(
    principal: StoreMemoryPrincipal,
    assets: Seq<CandidateAsset>,
    limit: nat,
) -> Option<Fault>
    decreases assets.len(),
{
    if assets.len() == 0 {
        None
    } else {
        let front = assets.drop_last();
        first(
            candidates_fault(principal, front, limit),
            if is_looked_at(principal, front, assets.last(), limit) {
                failing(publish_fault(principal, assets.last()))
            } else {
                None
            },
        )
    }
}

proof fn lemma_candidates_fault_stands(
    principal: StoreMemoryPrincipal,
    assets: Seq<CandidateAsset>,
    limit: nat,
    count: int,
)
    requires
        0 <= count <= assets.len(),
        candidates_fault(principal, assets.take(count), limit) is Some,
    ensures
        candidates_fault(principal, assets, limit) == candidates_fault(
            principal,
            assets.take(count),
            limit,
        ),
    decreases assets.len() - count,
{
    if count == assets.len() {
        assert(assets.take(count) =~= assets);
    } else {
        assert(assets.take(count + 1).drop_last() =~= assets.take(count));
        lemma_candidates_fault_stands(principal, assets, limit, count + 1);
    }
}

/// Selects the candidates that a principal may confirm. `assets` are all candidates,
/// oldest first; only so many of those that stand where the principal stands are
/// looked at.
pub fn list_memory_candidates(
    principal: &StoreMemoryPrincipal,
    limit: usize,
    assets: &Vec<CandidateAsset>,
) -> (result: Result<Vec<usize>, StoreError>)
    ensures
        answers(
            result,
            candidates_fault(*principal, assets@, at_most(limit, CANDIDATE_LIMIT) as nat),
        ),
        result is Ok ==> places_of(result->Ok_0@) == candidate_places(
            *principal,
            assets@,
            at_most(limit, CANDIDATE_LIMIT) as nat,
        ),
{
    let most: usize = smaller(limit, CANDIDATE_LIMIT);
    let mut scoped: usize = 0;
    let mut listed: Vec<usize> = Vec::new();
    assert(places_of(listed@) =~= seq![]);
    let mut i: usize = 0;
    while i < assets.len()
        invariant
            i <= assets.len(),
            scoped <= i,
            scoped == scoped_count(*principal, assets@.take(i as int)),
            candidates_fault(*principal, assets@.take(i as int), most as nat) is None,
            places_of(listed@) == candidate_places(
                *principal,
                assets@.take(i as int),
                most as nat,
            ),
            most == at_most(limit, CANDIDATE_LIMIT),
        decreases assets.len() - i,
    {
        let ghost before = listed@;
        assert(assets@.take(i + 1).drop_last() =~= assets@.take(i as int));
        let candidate: &CandidateAsset = &assets[i];
        assert(assets@.take(i + 1).last() == *candidate);
        if scope_matches(&candidate.asset, principal) {
            if scoped < most {
                match passes(
                    authorize_row(principal, "publish", &candidate.asset, &candidate.grant),
                ) {
                    Ok(allowed) => {
                        if allowed {
                            listed.push(i);
                            assert(places_of(listed@) =~= places_of(before).push(i as int));
                        }
                    },
                    Err(error) => {
                        proof {
                            lemma_candidates_fault_stands(
                                *principal,
                                assets@,
                                most as nat,
                                i + 1,
                            );
                        }
                        return Err(error);
                    },
                }
            }
            scoped += 1;
        }
        i += 1;
    }
    assert(assets@.take(i as int) =~= assets@);
    Ok(listed)
}

/// A candidate is listed if and only if the principal is authorized to publish it and fewer
/// than the limit came before it where the principal stands. Up to the limit, every
/// candidate that may be published is listed.
pub proof fn law_publishable_candidates_are_listed(
    principal: StoreMemoryPrincipal,
    assets: Seq<CandidateAsset>,
    limit: nat,
    i: int,
)
    requires
        0 <= i < assets.len(),
    ensures
        candidate_places(principal, assets, limit).contains(i) <==> {
            &&& authorization_fault(
                principal,
                "publish"@,
                Some(assets[i].asset),
                assets[i].grant,
            ) is None
            &&& scoped_count(principal, assets.take(i)) < limit
        },
        scoped_count(principal, assets.take(i)) <= i,
        i < limit ==> (candidate_places(principal, assets, limit).contains(i)
            <==> authorization_fault(
            principal,
            "publish"@,
            Some(assets[i].asset),
            assets[i].grant,
        ) is None),
    decreases assets.len(),
{
    let head = assets.drop_last();
    let end = assets.len() - 1;
    let before = candidate_places(principal, head, limit);
    lemma_scoped_count_is_bounded(principal, assets.take(i));
    lemma_candidates_are_places(principal, head, limit);
    crate::seqs::lemma_push_contains(before, end, i);
    if i < end {
        law_publishable_candidates_are_listed(principal, head, limit, i);
        assert(head.take(i) =~= assets.take(i));
        assert(head[i] == assets[i]);
    } else {
        assert(assets.take(i) =~= head);
        assert(!before.contains(i));
    }
}

/// Candidates are listed where none of them stands in the way, and one that the principal is
/// denied, or that has changed, does not.
pub proof fn law_denied_candidates_are_passed_over(
    principal: StoreMemoryPrincipal,
    assets: Seq<CandidateAsset>,
    limit: nat,
)
    ensures
        (forall|i: int|
            0 <= i < assets.len() ==> {
                let refusal = authorization_fault(
                    principal,
                    "publish"@,
                    Some((#[trigger] assets[i]).asset),
                    assets[i].grant,
                );
                ||| refusal is None
                ||| refusal->Some_0.code == ErrorCode::PolicyDenied
                ||| refusal->Some_0.code == ErrorCode::SequenceConflict
            }) ==> candidates_fault(principal, assets, limit) is None,
    decreases assets.len(),
{
    if assets.len() > 0 && forall|i: int|
        0 <= i < assets.len() ==> {
            let refusal = authorization_fault(
                principal,
                "publish"@,
                Some((#[trigger] assets[i]).asset),
                assets[i].grant,
            );
            ||| refusal is None
            ||| refusal->Some_0.code == ErrorCode::PolicyDenied
            ||| refusal->Some_0.code == ErrorCode::SequenceConflict
        } {
        let head = assets.drop_last();
        assert forall|i: int| 0 <= i < head.len() implies head[i] == #[trigger] assets[i] by {}
        law_denied_candidates_are_passed_over(principal, head, limit);
        assert(assets[assets.len() - 1] == assets.last());
    }
}

/// A candidate that is looked at and cannot be read stops the listing.
pub proof fn law_unreadable_candidate_stops_the_listing(
    principal: StoreMemoryPrincipal,
    assets: Seq<CandidateAsset>,
    limit: nat,
    i: int,
)
    requires
        0 <= i < assets.len(),
        scoped_count(principal, assets.take(i)) < limit,
        authorization_fault(
            principal,
            "publish"@,
            Some(assets[i].asset),
            assets[i].grant,
        ) is Some,
        authorization_fault(
            principal,
            "publish"@,
            Some(assets[i].asset),
            assets[i].grant,
        )->Some_0.code != ErrorCode::PolicyDenied,
    ensures
        candidates_fault(principal, assets, limit) is Some,
    decreases assets.len(),
{
    let head = assets.drop_last();
    if i < assets.len() - 1 {
        assert(head.take(i) =~= assets.take(i));
        assert(head[i] == assets[i]);
        law_unreadable_candidate_stops_the_listing(principal, head, limit, i);
    } else {
        assert(assets.take(i) =~= head);
    }
}

/// No more assets are where a principal stands than there are.
proof fn lemma_scoped_count_is_bounded(
    principal: StoreMemoryPrincipal,
    assets: Seq<CandidateAsset>,
)
    ensures
        scoped_count(principal, assets) <= assets.len(),
    decreases assets.len(),
{
    if assets.len() > 0 {
        lemma_scoped_count_is_bounded(principal, assets.drop_last());
    }
}

/// What is listed is there.
proof fn lemma_candidates_are_places(
    principal: StoreMemoryPrincipal,
    assets: Seq<CandidateAsset>,
    limit: nat,
)
    ensures
        forall|place: int| #[trigger]
            candidate_places(principal, assets, limit).contains(place) ==> 0 <= place
                < assets.len(),
    decreases assets.len(),
{
    if assets.len() > 0 {
        let head = assets.drop_last();
        lemma_candidates_are_places(principal, head, limit);
        let before = candidate_places(principal, head, limit);
        assert forall|place: int| #[trigger]
            candidate_places(principal, assets, limit).contains(place) implies 0 <= place
            < assets.len() by {
            crate::seqs::lemma_push_contains(before, assets.len() - 1, place);
        }
    }
}

/// No candidate is listed that the principal may not confirm.
pub proof fn law_listed_candidates_can_be_confirmed(
    principal: StoreMemoryPrincipal,
    assets: Seq<CandidateAsset>,
    limit: nat,
)
    ensures
        forall|k: int|
            0 <= k < candidate_places(principal, assets, limit).len() ==> 0
                <= #[trigger] candidate_places(principal, assets, limit)[k] < assets.len()
                && publish_fault(
                principal,
                assets[candidate_places(principal, assets, limit)[k]],
            ) is None,
    decreases assets.len(),
{
    if assets.len() > 0 {
        let front = assets.drop_last();
        law_listed_candidates_can_be_confirmed(principal, front, limit);
        let before = candidate_places(principal, front, limit);
        let now = candidate_places(principal, assets, limit);
        assert forall|k: int| 0 <= k < now.len() implies 0 <= #[trigger] now[k] < assets.len()
            && publish_fault(principal, assets[now[k]]) is None by {
            if k < before.len() {
                assert(now[k] == before[k]);
                assert(front[before[k]] == assets[before[k]]);
            }
        }
    }
}

} // verus!

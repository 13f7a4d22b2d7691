use harness_store_sqlite::error::{ErrorCode, StoreError};
use harness_store_sqlite::lineage::{AncestorRow, SearchRow};
use harness_store_sqlite::listing::{
    bound_memory_fresh, find_active_memory_by_content, find_memory_by_content_any_status,
    list_memory_candidates, search_memory_fresh, BoundAsset, CandidateAsset, FoundAsset, HeldText,
    BOUND_MEMORY_LIMIT, CANDIDATE_LIMIT, SEARCH_LIMIT,
};
use harness_store_sqlite::memory::{
    AssetScopeRow, GrantRow, MemoryAssetStatus, MemorySourceRecord, RefreshSource,
    StoreMemoryPrincipal,
};

fn text(value: &str) -> String {
    value.to_owned()
}

fn fails<T>(result: Result<T, StoreError>, code: ErrorCode, message: &str) {
    match result {
        Ok(_) => panic!("expected {message}"),
        Err(error) => {
            assert_eq!(error.code(), code);
            assert_eq!(error.message(), message);
        }
    }
}

fn me() -> StoreMemoryPrincipal {
    StoreMemoryPrincipal {
        principal_id: text("me"),
        project_id: Some(text("project")),
        task_id: None,
        agent_profile_id: None,
        session_id: None,
    }
}

fn scope(owner: &str, project: &str) -> AssetScopeRow {
    AssetScopeRow {
        owner_id: text(owner),
        project_id: Some(text(project)),
        task_id: None,
        agent_profile_id: None,
        session_id: None,
    }
}

fn grant(actions: &str) -> Option<GrantRow> {
    Some(GrantRow { project_id: None, actions_json: text(actions), active: 1 })
}

fn row(owner: &str) -> SearchRow {
    SearchRow {
        asset: scope(owner, "project"),
        grant: None,
        status: MemoryAssetStatus::Active,
        valid: true,
        bound: true,
        provenance: None,
        lineage: Vec::new(),
    }
}

fn recorded(digest: &str) -> Vec<MemorySourceRecord> {
    vec![MemorySourceRecord {
        source_kind: text("file"),
        source_id: text("a.md"),
        observed_digest: Some(text(digest)),
        source_version: None,
    }]
}

fn seen(digest: &str) -> Vec<RefreshSource> {
    vec![RefreshSource { kind: text("file"), id: text("a.md"), observed: Some(text(digest)) }]
}

fn found(owner: &str, digest: &str) -> FoundAsset {
    FoundAsset { row: row(owner), sources: recorded(digest) }
}

#[test]
fn a_hidden_match_takes_no_place() {
    let search = |limit: usize, assets: &Vec<FoundAsset>| {
        search_memory_fresh(&me(), "words", limit, &None, &seen("d"), assets).expect("searched")
    };
    let matches = vec![
        found("other", "d"),
        found("me", "d"),
        found("me", "stale"),
        found("me", "d"),
        found("me", "d"),
    ];
    assert_eq!(search(2, &matches), vec![1, 3]);
    assert_eq!(search(9, &matches), vec![1, 3, 4]);
    assert!(search(0, &matches).is_empty());
    assert_eq!(search_memory_fresh(&me(), "", 9, &None, &seen("d"), &matches), Ok(Vec::new()));
    let many: Vec<FoundAsset> = (0..SEARCH_LIMIT + 3).map(|_| found("me", "d")).collect();
    assert_eq!(search(usize::MAX, &many).len(), SEARCH_LIMIT);
    let unseen = search_memory_fresh(&me(), "words", 9, &None, &Vec::new(), &matches);
    assert_eq!(unseen.expect("searched").len(), 4);
}

#[test]
fn searches_look_at_grants_item_by_item() {
    let granted = |actions: &str| {
        let mut asset = found("other", "d");
        asset.row.grant = grant(actions);
        vec![asset]
    };
    let search = |assets: &Vec<FoundAsset>| {
        search_memory_fresh(&me(), "words", 9, &None, &seen("d"), assets)
    };
    assert_eq!(search(&granted("[\"search\"]")), Ok(vec![0]));
    assert_eq!(search(&granted("[\"search\", 5]")), Ok(vec![0]));
    assert_eq!(search(&granted("[\"read\"]")), Ok(Vec::new()));
    assert_eq!(search(&granted("{}")), Ok(Vec::new()));
    fails(
        search(&granted("[\"search\"")),
        ErrorCode::StorageOpenFailed,
        "stored memory grant is invalid",
    );
    let mut revoked = granted("[");
    revoked[0].row.grant.as_mut().expect("granted").active = 0;
    assert_eq!(search(&revoked), Ok(Vec::new()));
    let bound = BoundAsset {
        row: granted("[")[0].row.clone(),
        sources: Vec::new(),
        lineage: Vec::new(),
    };
    fails(
        bound_memory_fresh(&me(), &Vec::new(), &vec![bound]),
        ErrorCode::StorageOpenFailed,
        "stored memory grant is invalid",
    );
    let held = vec![HeldText {
        id: text("a"),
        normalized_content: text("words"),
        row: granted("[")[0].row.clone(),
    }];
    fails(
        find_active_memory_by_content(&me(), "words", &held),
        ErrorCode::StorageOpenFailed,
        "stored memory grant is invalid",
    );
}

fn bound(owner: &str, digest: &str) -> BoundAsset {
    BoundAsset { row: row(owner), sources: recorded(digest), lineage: Vec::new() }
}

fn above(owner: &str, loaded: Option<(MemoryAssetStatus, bool)>) -> AncestorRow {
    AncestorRow { asset: Some(scope(owner, "project")), grant: None, loaded }
}

#[test]
fn bound_memory_is_allowed() {
    let holds = Some((MemoryAssetStatus::Active, true));
    let mut invalid = bound("me", "d");
    invalid.row.valid = false;
    let mut secret = bound("me", "d");
    secret.lineage = vec![above("other", holds)];
    let mut gone = bound("me", "d");
    gone.lineage = vec![above("me", Some((MemoryAssetStatus::Archived, true)))];
    let mut granted = bound("other", "d");
    granted.row.grant = grant("[\"search\"]");
    let mut rooted = bound("me", "d");
    rooted.row.bound = false;
    rooted.lineage = vec![above("me", holds)];
    let named = vec![
        bound("other", "d"),
        invalid,
        secret,
        gone,
        bound("me", "stale"),
        granted,
        rooted,
    ];
    assert_eq!(bound_memory_fresh(&me(), &seen("d"), &named), Ok(vec![5, 6]));
    let mut lost = bound("me", "d");
    lost.lineage = vec![above("me", None)];
    let mut full: Vec<BoundAsset> = (0..BOUND_MEMORY_LIMIT).map(|_| bound("me", "d")).collect();
    full.push(lost.clone());
    assert_eq!(
        bound_memory_fresh(&me(), &seen("d"), &full).expect("full").len(),
        BOUND_MEMORY_LIMIT
    );
    fails(
        bound_memory_fresh(&me(), &seen("d"), &vec![lost]),
        ErrorCode::InvalidPayload,
        "memory source missing",
    );
}

#[test]
fn listed_candidates_can_be_confirmed() {
    let candidate = |owner: &str, project: &str, actions: &str| CandidateAsset {
        asset: scope(owner, project),
        grant: grant(actions),
    };
    let list = |limit: usize, assets: &Vec<CandidateAsset>| {
        list_memory_candidates(&me(), limit, assets)
    };
    let assets = vec![
        candidate("me", "elsewhere", "[]"),
        candidate("other", "project", "[\"read\"]"),
        candidate("me", "project", "[]"),
        candidate("other", "project", "[\"publish\"]"),
    ];
    assert_eq!(list(9, &assets), Ok(vec![2, 3]));
    assert_eq!(list(2, &assets), Ok(vec![2]));
    let mut broken = assets.clone();
    broken.push(candidate("other", "project", "broken"));
    assert_eq!(list(3, &broken), Ok(vec![2, 3]));
    fails(list(4, &broken), ErrorCode::InvalidPayload, "stored memory grant is invalid");
    let many: Vec<CandidateAsset> =
        (0..CANDIDATE_LIMIT + 3).map(|_| candidate("me", "project", "[]")).collect();
    assert_eq!(list(usize::MAX, &many).expect("listed").len(), CANDIDATE_LIMIT);
}

#[test]
fn a_text_is_looked_up_whatever_became_of_its_holder() {
    let held = |id: &str, content: &str, owner: &str, status: MemoryAssetStatus| {
        let mut row = row(owner);
        row.status = status;
        HeldText { id: text(id), normalized_content: text(content), row }
    };
    let mut granted = held("b", "words", "other", MemoryAssetStatus::Archived);
    granted.row.grant = grant("[\"search\"]");
    let mut elsewhere = held("a", "words", "me", MemoryAssetStatus::Active);
    elsewhere.row.asset = scope("me", "elsewhere");
    let assets = vec![
        held("z", "words", "me", MemoryAssetStatus::Active),
        held("d", "words", "me", MemoryAssetStatus::Active),
        held("c", "words", "me", MemoryAssetStatus::Invalidated),
        granted,
        elsewhere,
        held("a", "words", "other", MemoryAssetStatus::Candidate),
        held("a", "other words", "me", MemoryAssetStatus::Active),
    ];
    let any = |content: &str| {
        find_memory_by_content_any_status(&me(), content, &assets).expect("looked up")
    };
    assert_eq!(any("words").as_deref(), Some("b"));
    assert_eq!(any("nothing"), None);
    let active = find_active_memory_by_content(&me(), "words", &assets).expect("looked up");
    assert_eq!(active.as_deref(), Some("d"));
    let candidate = vec![held("k", "words", "me", MemoryAssetStatus::Candidate)];
    assert_eq!(find_active_memory_by_content(&me(), "words", &candidate), Ok(None));
    assert_eq!(
        find_memory_by_content_any_status(&me(), "words", &candidate),
        Ok(Some(text("k")))
    );
}

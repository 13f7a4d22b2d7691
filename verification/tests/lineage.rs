use harness_store_sqlite::error::{ErrorCode, StoreError};
use harness_store_sqlite::graph::{next_nodes, reachable_from, reachable_sorted, Edge};
use harness_store_sqlite::journal::HostFence;
use harness_store_sqlite::lineage::{
    affected_assets, ancestors, assert_lineage_authorized, assert_no_dependency_cycle,
    create_derived_memory, derivations, export_memory_versions, findable, forget_memory_source,
    invalidate_memory, invalidate_memory_source, invalidation_order,
    read_memory_asset, retires, search_lineage, search_shows, sources,
    update_memory_source_retention, validate_memory_snapshot, write_memory_version, AncestorRow,
    BaseRow, DependencyRow, LoadedAsset, MemorySourceForget, MemorySourceRetentionUpdate,
    SearchAncestor, SearchRow, SnapshotSource, SourceRoot, VersionRows,
};
use harness_store_sqlite::maintenance::TombstoneRow;
use harness_store_sqlite::memory::{
    AssetScopeRow, GrantRow, MemoryAsset, MemoryAssetStatus, MemoryScope, MemorySourceRecord,
    MemoryVerdicts, MemoryVersion, MemoryVersionCommit, MemoryVersionRef, RefreshSource,
    StoreMemoryPrincipal, StoredMemoryAssetRecord, StoredMemoryVersionRecord,
};
use harness_store_sqlite::order::sorted_texts;

fn text(value: &str) -> String {
    value.to_owned()
}

fn fence() -> HostFence {
    HostFence { host_id: text("host"), generation: 3 }
}

fn fails<T>(result: Result<T, StoreError>, code: ErrorCode, message: &str) {
    match result {
        Ok(_) => panic!("expected {message}"),
        Err(error) => {
            assert_eq!(error.code(), code);
            assert_eq!(error.message(), message);
        }
    }
}

fn record(owner: &str, version: u64) -> StoredMemoryAssetRecord {
    StoredMemoryAssetRecord {
        asset: MemoryAsset {
            memory_asset_id: text("asset"),
            owner_id: text(owner),
            project_id: None,
            scope: MemoryScope::User,
            status: MemoryAssetStatus::Candidate,
            current_version: version,
        },
        layer: text("semantic"),
        task_id: None,
        agent_profile_id: None,
        session_id: None,
        current: StoredMemoryVersionRecord {
            record: MemoryVersion {
                memory_asset_id: text("asset"),
                version,
                content_hash: text("h"),
                source_event_refs: vec![text("e1")],
                source_file_hashes: vec![text("f1"), text("f2")],
                source_commit: Some(text("c1")),
                valid: true,
            },
            content: text("text"),
            normalized_content: text("text"),
            strategy_digest: None,
            sources: Vec::new(),
        },
    }
}

fn accepted() -> MemoryVerdicts {
    MemoryVerdicts { asset: Ok(()), version: Ok(()) }
}

fn source(kind: &str, digest: Option<&str>) -> MemorySourceRecord {
    MemorySourceRecord {
        source_kind: text(kind),
        source_id: text("a.md"),
        observed_digest: digest.map(text),
        source_version: None,
    }
}

fn principal(id: &str) -> StoreMemoryPrincipal {
    StoreMemoryPrincipal {
        principal_id: text(id),
        project_id: Some(text("project")),
        task_id: None,
        agent_profile_id: None,
        session_id: None,
    }
}

fn scope(owner: &str, project: Option<&str>) -> AssetScopeRow {
    AssetScopeRow {
        owner_id: text(owner),
        project_id: project.map(text),
        task_id: None,
        agent_profile_id: None,
        session_id: None,
    }
}

fn grant(actions: &str, active: i64) -> Option<GrantRow> {
    Some(GrantRow { project_id: None, actions_json: text(actions), active })
}

fn derived(asset: &str, from: &str, current: bool) -> DependencyRow {
    DependencyRow {
        derived_asset_id: text(asset),
        derived_is_current: current,
        source_kind: text("asset"),
        source_id: text(from),
        source_version: Some(1),
    }
}

/// `b` and `d` rest on `a`, `c` on `b`, and an old version of `e` on `c`.
fn rows() -> Vec<DependencyRow> {
    vec![
        derived("d", "a", true),
        derived("b", "a", true),
        derived("c", "b", true),
        derived("e", "c", false),
        DependencyRow { source_kind: text("file"), ..derived("f", "a", true) },
    ]
}

fn loaded(version: u64, status: MemoryAssetStatus, valid: bool) -> Option<LoadedAsset> {
    Some(LoadedAsset { current_version: version, status, valid })
}

fn base(id: &str, version: u64, loaded: Option<LoadedAsset>) -> BaseRow {
    BaseRow {
        reference: MemoryVersionRef { memory_asset_id: text(id), version },
        asset: Some(scope("owner", None)),
        grant: None,
        loaded,
    }
}

fn ancestor(owner: &str, loaded: Option<(MemoryAssetStatus, bool)>) -> AncestorRow {
    AncestorRow { asset: Some(scope(owner, None)), grant: None, loaded }
}

#[test]
fn steps_lead_as_far_as_they_go() {
    let edge = |from: &str, to: &str| Edge { from: text(from), to: text(to) };
    let edges = vec![edge("b", "a"), edge("a", "b"), edge("b", "z"), edge("q", "r")];
    assert_eq!(reachable_sorted(&edges, &vec![text("b")]), vec!["a", "b", "z"]);
    assert_eq!(reachable_from(&edges, &vec![text("r"), text("r")]), vec!["r"]);
    assert_eq!(next_nodes(&edges, "b"), vec!["a", "z"]);
    assert_eq!(
        sorted_texts(&vec![text("b"), text("ab"), text("a"), text("b")]),
        vec!["a", "ab", "b"]
    );
}

#[test]
fn invalidation_is_transitive() {
    assert_eq!(invalidation_order(&rows(), &text("a"), true), vec!["a", "b", "c", "d"]);
    assert_eq!(invalidation_order(&rows(), &text("a"), false), vec!["b", "c", "d"]);
    assert_eq!(
        affected_assets(&rows(), false, &vec![text("b"), text("x")]),
        vec!["b", "c", "e", "x"]
    );
    assert_eq!(derivations(&rows(), true).len(), 3);
    assert_eq!(sources(&rows(), false).len(), 4);
}

#[test]
fn circles_are_refused() {
    assert_eq!(ancestors(&rows(), false, "c"), vec!["b", "a"]);
    assert!(assert_no_dependency_cycle(&rows(), "e", "a").is_ok());
    for (target, source) in [("a", "c"), ("b", "b")] {
        fails(
            assert_no_dependency_cycle(&rows(), target, source),
            ErrorCode::SequenceConflict,
            "semantic merge would create a dependency cycle",
        );
    }
}

#[test]
fn lineage_needs_every_ancestor() {
    let active = Some((MemoryAssetStatus::Active, true));
    let withdrawn = Some((MemoryAssetStatus::Archived, true));
    let check = |lineage: Vec<AncestorRow>, require_valid: bool| {
        assert_lineage_authorized(&principal("owner"), &lineage, require_valid)
    };
    assert!(check(vec![ancestor("owner", active), ancestor("owner", active)], true).is_ok());
    assert!(check(vec![ancestor("owner", withdrawn)], false).is_ok());
    fails(
        check(vec![ancestor("owner", active), ancestor("owner", withdrawn)], true),
        ErrorCode::SequenceConflict,
        "memory source no longer valid",
    );
    fails(
        check(vec![ancestor("owner", active), ancestor("stranger", active)], false),
        ErrorCode::PolicyDenied,
        "memory action has no active exact-principal grant",
    );
    fails(
        check(vec![ancestor("owner", None)], false),
        ErrorCode::InvalidPayload,
        "memory source missing",
    );
}

#[test]
fn reads_follow_lineage() {
    let mine = Some(scope("owner", None));
    let open = vec![ancestor("owner", Some((MemoryAssetStatus::Active, true)))];
    let closed = vec![ancestor("stranger", Some((MemoryAssetStatus::Active, true)))];
    let read = |asset: &Option<AssetScopeRow>, lineage: &Vec<AncestorRow>| {
        read_memory_asset(&principal("owner"), "read", asset, &None, lineage)
    };
    assert!(read(&mine, &open).expect("there"));
    assert!(!read(&None, &open).expect("not there"));
    assert!(read(&mine, &closed).is_err());
    assert!(export_memory_versions(&principal("owner"), "export", &mine, &None, &open).is_ok());
    fails(
        export_memory_versions(&principal("owner"), "export", &None, &None, &open),
        ErrorCode::InvalidPayload,
        "memory asset was not found",
    );
}

fn commit(expected: u64, version: u64) -> MemoryVersionCommit {
    let next = record("owner", version);
    MemoryVersionCommit {
        source_assets: Vec::new(),
        authorization: principal("owner"),
        action: text("write"),
        memory_asset_id: text("a"),
        expected_version: expected,
        asset: next.asset,
        version: next.current,
    }
}

fn version_rows(current: Option<i64>, bases: Vec<BaseRow>) -> VersionRows {
    VersionRows {
        fence_generation: Some(3),
        asset: Some(scope("owner", None)),
        grant: None,
        current_version: current,
        bases,
        dependencies: rows(),
    }
}

#[test]
fn a_version_is_written_once() {
    let write = |commit: &MemoryVersionCommit, current: Option<i64>, bases: Vec<BaseRow>| {
        let mut built = commit.clone();
        built.source_assets = bases.iter().map(|base| base.reference.clone()).collect();
        write_memory_version(&built, &accepted(), &fence(), &version_rows(current, bases))
    };
    let written = write(&commit(1, 2), Some(1), vec![]).expect("written");
    assert!(written.inherits_lineage);
    assert_eq!(written.invalidated, vec!["b", "c", "d"]);
    assert_eq!(written.status, MemoryAssetStatus::Invalidated);
    assert_eq!(written.reason, "source_version_changed");
    fails(
        write(&commit(1, 2), Some(2), vec![]),
        ErrorCode::SequenceConflict,
        "memory current version does not match expected version",
    );
    fails(
        write(&commit(1, 3), Some(1), vec![]),
        ErrorCode::InvalidSequence,
        "memory CAS commit does not advance exactly one version",
    );
    fails(
        write(&commit(1, 2), None, vec![]),
        ErrorCode::InvalidPayload,
        "memory asset was not found",
    );
    let merged = vec![base("x", 4, loaded(4, MemoryAssetStatus::Active, true))];
    assert!(!write(&commit(1, 2), Some(1), merged).expect("merged").inherits_lineage);
    fails(
        write(
            &commit(1, 2),
            Some(1),
            vec![base("x", 3, loaded(4, MemoryAssetStatus::Active, true))],
        ),
        ErrorCode::SequenceConflict,
        "semantic merge source is stale or cyclic",
    );
    fails(
        write(
            &commit(1, 2),
            Some(1),
            vec![base("c", 4, loaded(4, MemoryAssetStatus::Active, true))],
        ),
        ErrorCode::SequenceConflict,
        "semantic merge would create a dependency cycle",
    );
    fails(
        write(&commit(1, 2), Some(1), vec![base("x", 3, None)]),
        ErrorCode::InvalidPayload,
        "merge source missing",
    );
}

#[test]
fn memory_is_derived_from_what_still_holds() {
    let derive = |owner: &str, bases: Vec<BaseRow>| {
        create_derived_memory(
            &principal("owner"),
            &record(owner, 1),
            &accepted(),
            &fence(),
            Some(3),
            &bases,
        )
    };
    let good = || vec![base("x", 1, loaded(1, MemoryAssetStatus::Candidate, true))];
    assert!(derive("owner", good()).is_ok());
    fails(
        derive("owner", vec![]),
        ErrorCode::PolicyDenied,
        "derived memory requires authorized sources",
    );
    fails(
        derive("other", good()),
        ErrorCode::PolicyDenied,
        "derived memory requires authorized sources",
    );
    fails(
        derive("owner", vec![base("x", 1, loaded(1, MemoryAssetStatus::Active, false))]),
        ErrorCode::SequenceConflict,
        "derived source changed or was invalidated",
    );
    fails(
        derive("owner", vec![base("x", 1, None)]),
        ErrorCode::InvalidPayload,
        "derived source missing",
    );
}

#[test]
fn a_snapshot_goes_stale() {
    let validate = |found: Option<LoadedAsset>, stored: i64| {
        let entry = SnapshotSource { base: base("x", 2, found), lineage: Vec::new() };
        validate_memory_snapshot(&principal("owner"), &vec![entry], stored, 7)
    };
    assert!(validate(loaded(2, MemoryAssetStatus::Active, true), 7).is_ok());
    fails(
        validate(loaded(2, MemoryAssetStatus::Active, true), 8),
        ErrorCode::SequenceConflict,
        "memory policy or asset revision changed; rebuild context",
    );
    fails(
        validate(loaded(3, MemoryAssetStatus::Active, true), 7),
        ErrorCode::SequenceConflict,
        "memory snapshot is stale",
    );
    fails(validate(None, 7), ErrorCode::InvalidPayload, "memory snapshot asset missing");
}

#[test]
fn a_search_looks_through_current_versions_only() {
    let mut all = rows();
    all.push(derived("a", "z", true));
    assert_eq!(search_lineage(&all, "c"), vec![false, true, true, false, false, true]);
    assert_eq!(search_lineage(&all, "e"), vec![false; 6]);
}

#[test]
fn what_is_found_may_be_searched() {
    let row = |owner: &str, grant: Option<GrantRow>| SearchRow {
        asset: scope(owner, Some("project")),
        grant,
        status: MemoryAssetStatus::Active,
        valid: true,
        bound: true,
        provenance: Some(text("extracted")),
        lineage: Vec::new(),
    };
    let guest = principal("guest");
    assert!(findable(&principal("owner"), &row("owner", None)));
    assert!(findable(&guest, &row("owner", grant("[\"search\"]", 1))));
    assert!(!findable(&guest, &row("owner", grant("[\"read\"]", 1))));
    assert!(!findable(&guest, &row("owner", None)));
    let mut unbound = row("guest", None);
    unbound.bound = false;
    assert!(!findable(&guest, &unbound));
    let seen = |digest: &str| {
        vec![RefreshSource { kind: text("file"), id: text("a.md"), observed: Some(text(digest)) }]
    };
    let recorded = vec![source("file", Some("d"))];
    let mine = row("guest", None);
    assert!(search_shows(&guest, &mine, &None, &recorded, &seen("d")));
    assert!(!search_shows(&guest, &mine, &None, &recorded, &seen("e")));
    assert!(!search_shows(&guest, &mine, &Some(text("extracted")), &recorded, &seen("d")));
    assert!(search_shows(&guest, &mine, &Some(text("stated")), &recorded, &seen("d")));
    let above = |owner: &str, status, valid, current, used| {
        let mut rooted = row("guest", None);
        rooted.lineage = vec![SearchAncestor {
            asset: scope(owner, Some("project")),
            grant: None,
            status,
            valid,
            current_version: current,
            used_version: used,
        }];
        search_shows(&guest, &rooted, &None, &recorded, &Vec::new())
    };
    assert!(above("guest", MemoryAssetStatus::Active, true, 2, Some(2)));
    assert!(above("guest", MemoryAssetStatus::Superseded, true, 2, None));
    assert!(!above("guest", MemoryAssetStatus::Active, true, 3, Some(2)));
    assert!(!above("guest", MemoryAssetStatus::Active, false, 2, Some(2)));
    assert!(!above("guest", MemoryAssetStatus::Archived, true, 2, Some(2)));
    assert!(!above("stranger", MemoryAssetStatus::Active, true, 2, Some(2)));
}

#[test]
fn an_asset_takes_what_was_built_on_it() {
    let invalidate = |reason: &str| {
        invalidate_memory(
            &principal("owner"),
            &text("b"),
            reason,
            &fence(),
            Some(3),
            &Some(scope("owner", None)),
            &None,
            &rows(),
        )
    };
    let gone = invalidate("wrong").expect("gone");
    assert_eq!(gone.affected, vec!["b", "c"]);
    assert_eq!((gone.status, gone.reason.as_str()), (MemoryAssetStatus::Invalidated, "wrong"));
    fails(
        invalidate(" "),
        ErrorCode::InvalidPayload,
        "invalidation reason required",
    );
    assert!(retires(&Ok(())).expect("retired"));
    assert!(!retires(&Err(StoreError::new(ErrorCode::PolicyDenied, "no"))).expect("passed over"));
    fails(
        retires(&Err(StoreError::new(ErrorCode::InvalidPayload, "broken"))),
        ErrorCode::InvalidPayload,
        "broken",
    );
}

#[test]
fn a_changed_source_retires_what_its_reporter_may_invalidate() {
    let root = |id: &str, project: Option<&str>, asset: Option<AssetScopeRow>, actions: &str| {
        SourceRoot {
            id: text(id),
            source_project: project.map(text),
            asset,
            grant: grant(actions, 1),
        }
    };
    let change = |kind: &str, roots: Vec<SourceRoot>| {
        invalidate_memory_source(&principal("me"), kind, &fence(), Some(3), &roots, &rows())
    };
    let mine = || Some(scope("me", Some("project")));
    let other = || Some(scope("other", Some("project")));
    let retired = change(
        "file",
        vec![
            root("b", Some("project"), mine(), "[]"),
            root("d", Some("project"), other(), "[\"read\"]"),
            root("x", None, other(), "[\"invalidate\"]"),
            root("y", Some("elsewhere"), mine(), "[]"),
        ],
    )
    .expect("retired");
    assert_eq!(retired.roots, vec!["b", "x"]);
    assert_eq!(retired.affected, vec!["b", "c", "x"]);
    assert_eq!(retired.status, MemoryAssetStatus::Invalidated);
    assert_eq!(retired.reason, "source_changed");
    assert!(change("file", Vec::new()).expect("nothing").affected.is_empty());
    fails(
        change("file", vec![root("b", None, None, "[]")]),
        ErrorCode::InvalidPayload,
        "memory asset was not found",
    );
    fails(
        change("event", Vec::new()),
        ErrorCode::InvalidPayload,
        "unsupported source change",
    );
}

#[test]
fn retention_reaches_every_derivative() {
    let update = |status: MemoryAssetStatus, reason: Option<&str>, kind: &str| {
        let request = MemorySourceRetentionUpdate {
            source_kind: text(kind),
            source_id: text("a.md"),
            status,
            reason: reason.map(text),
            journal_entry_id: text("entry"),
            journal_detail: text("{}"),
            created_unix_ms: 5,
        };
        update_memory_source_retention(&request, &fence(), Some(3), &vec![text("b")], &rows())
    };
    let write = update(MemoryAssetStatus::Invalidated, Some("old"), "file").expect("retired");
    assert_eq!(write.affected, vec!["b", "c"]);
    assert_eq!(write.journal_action, "invalidate");
    assert_eq!(write.journal_target, "file:a.md");
    assert_eq!(write.journal_detail, "{\"affected_assets\":2}");
    assert_eq!(write.invalidation_reason.as_deref(), Some("old"));
    let kept = update(MemoryAssetStatus::Archived, Some("old"), "commit").expect("archived");
    assert_eq!((kept.journal_action, kept.invalidation_reason), ("archive", None));
    fails(
        update(MemoryAssetStatus::Invalidated, None, "file"),
        ErrorCode::InvalidPayload,
        "invalidation reason required",
    );
    fails(
        update(MemoryAssetStatus::Active, None, "file"),
        ErrorCode::InvalidPayload,
        "retention may only invalidate or archive a source",
    );
    fails(
        update(MemoryAssetStatus::Archived, None, "event"),
        ErrorCode::InvalidPayload,
        "unsupported source change",
    );
}

#[test]
fn a_source_is_forgotten_once() {
    let request = |reason: &str, id: &str| MemorySourceForget {
        source_kind: text("file"),
        source_id: text("a.md"),
        tombstone: TombstoneRow {
            tombstone_id: text("t"),
            source_kind: text("file"),
            source_id: text(id),
            reason: text(reason),
            surviving_copies: Vec::new(),
            created_unix_ms: 1,
        },
        journal_entry_id: text("entry"),
        journal_action: text("forget"),
        journal_detail: text("{}"),
    };
    let forget = |request: MemorySourceForget, forgotten: bool| {
        forget_memory_source(&request, &fence(), Some(3), forgotten, &vec![text("b")], &rows())
    };
    assert_eq!(forget(request("asked", "a.md"), false).expect("gone"), vec!["b", "c", "e"]);
    fails(
        forget(request("asked", "a.md"), true),
        ErrorCode::RetentionRefused,
        "source file:a.md was already forgotten",
    );
    fails(
        forget(request("asked", "b.md"), false),
        ErrorCode::InvalidPayload,
        "forget tombstone identity does not match its source",
    );
    fails(
        forget(request("", "a.md"), false),
        ErrorCode::InvalidPayload,
        "forget requires a source kind, identity and reason",
    );
}

use harness_store_sqlite::error::{ErrorCode, Refusal, StoreError};
use harness_store_sqlite::journal::HostFence;
use harness_store_sqlite::memory::{
    authorize, bind_memory, create_memory_asset, decode_asset_row, decode_version, grant_memory,
    is_searchable, is_stale_asset, memory_source_from_row, memory_version_sources,
    memory_versions_with_changed_sources, owner_binding_id, read_revision, scope_matches, scope_name, status_name, validate_source,
    version_dependencies, version_is_fresh, write_version_sources, AssetRow, AssetScopeRow,
    BindingRow, GrantRow, MemoryAsset, MemoryAssetStatus, MemoryCreateCommit, MemoryScope,
    MemorySourceRecord, MemorySourceRow, MemoryVerdicts, MemoryVersion, RefreshSource,
    StoreMemoryPrincipal, StoredMemoryAssetRecord, StoredMemoryGrantRecord,
    StoredMemoryVersionRecord, WatchedAsset,
};

fn text(value: &str) -> String {
    value.to_owned()
}

fn fence() -> HostFence {
    HostFence { host_id: text("host"), generation: 3 }
}

fn fails<T>(result: Result<T, StoreError>, code: ErrorCode, message: &str) {
    match result {
        Ok(_) => panic!("expected {message}"),
        Err(error) => {
            assert_eq!(error.code(), code);
            assert_eq!(error.message(), message);
        }
    }
}

fn record(owner: &str, version: u64) -> StoredMemoryAssetRecord {
    StoredMemoryAssetRecord {
        asset: MemoryAsset {
            memory_asset_id: text("asset"),
            owner_id: text(owner),
            project_id: None,
            scope: MemoryScope::User,
            status: MemoryAssetStatus::Candidate,
            current_version: version,
        },
        layer: text("semantic"),
        task_id: None,
        agent_profile_id: None,
        session_id: None,
        current: StoredMemoryVersionRecord {
            record: MemoryVersion {
                memory_asset_id: text("asset"),
                version,
                content_hash: text("h"),
                source_event_refs: vec![text("e1")],
                source_file_hashes: vec![text("f1"), text("f2")],
                source_commit: Some(text("c1")),
                valid: true,
            },
            content: text("text"),
            normalized_content: text("text"),
            strategy_digest: None,
            sources: Vec::new(),
        },
    }
}

fn accepted() -> MemoryVerdicts {
    MemoryVerdicts { asset: Ok(()), version: Ok(()) }
}

fn source(kind: &str, digest: Option<&str>) -> MemorySourceRecord {
    MemorySourceRecord {
        source_kind: text(kind),
        source_id: text("a.md"),
        observed_digest: digest.map(text),
        source_version: None,
    }
}

fn principal(id: &str) -> StoreMemoryPrincipal {
    StoreMemoryPrincipal {
        principal_id: text(id),
        project_id: Some(text("project")),
        task_id: None,
        agent_profile_id: None,
        session_id: None,
    }
}

fn scope(owner: &str, project: Option<&str>) -> AssetScopeRow {
    AssetScopeRow {
        owner_id: text(owner),
        project_id: project.map(text),
        task_id: None,
        agent_profile_id: None,
        session_id: None,
    }
}

fn grant(actions: &str, active: i64) -> Option<GrantRow> {
    Some(GrantRow { project_id: None, actions_json: text(actions), active })
}

#[test]
fn memory_needs_authority() {
    let asset = Some(scope("owner", Some("project")));
    assert!(authorize(&principal("owner"), "read", &asset, &None).is_ok());
    assert!(authorize(&principal("guest"), "read", &asset, &grant("[\"read\"]", 1)).is_ok());
    fails(
        authorize(&principal("guest"), "bind", &asset, &grant("[\"read\"]", 1)),
        ErrorCode::PolicyDenied,
        "memory action is outside the active exact-principal grant",
    );
    fails(
        authorize(&principal("guest"), "read", &asset, &None),
        ErrorCode::PolicyDenied,
        "memory action has no active exact-principal grant",
    );
    fails(
        authorize(&principal("guest"), "read", &asset, &grant("{}", 1)),
        ErrorCode::InvalidPayload,
        "stored memory grant is invalid",
    );
    fails(
        authorize(&principal("owner"), "read", &Some(scope("owner", Some("other"))), &None),
        ErrorCode::PolicyDenied,
        "memory asset scope does not match the host principal",
    );
    fails(
        authorize(&principal("owner"), "read", &None, &None),
        ErrorCode::InvalidPayload,
        "memory asset was not found",
    );
    assert!(scope_matches(&scope("owner", None), &principal("guest")));
}

#[test]
fn a_revoked_grant_allows_nothing() {
    fails(
        authorize(
            &principal("guest"),
            "read",
            &Some(scope("owner", None)),
            &grant("[\"read\"]", 0),
        ),
        ErrorCode::PolicyDenied,
        "memory action is outside the active exact-principal grant",
    );
}

#[test]
fn grants_advance_one_revision_at_a_time() {
    let given = |revision: u64| StoredMemoryGrantRecord {
        principal_id: text("guest"),
        memory_asset_id: text("asset"),
        project_id: None,
        allowed_actions: vec![text("read")],
        revision,
        active: true,
    };
    let give = |granting: &str, revision: u64, previous: Option<i64>| {
        grant_memory(
            &principal(granting),
            &given(revision),
            &fence(),
            Some(3),
            &Some(text("owner")),
            &Some(scope("owner", None)),
            &None,
            previous,
        )
    };
    assert!(give("owner", 1, None).is_ok());
    assert!(give("owner", 3, Some(2)).is_ok());
    fails(
        give("owner", 3, Some(3)),
        ErrorCode::SequenceConflict,
        "grant revision must advance exactly once",
    );
    fails(
        give("guest", 1, None),
        ErrorCode::PolicyDenied,
        "only the exact memory owner may grant asset actions",
    );
    fails(
        give("owner", 0, None),
        ErrorCode::InvalidPayload,
        "memory grant requires a revision and actions",
    );
}

#[test]
fn a_binding_keeps_its_asset() {
    let bind = |mode: &str, revision: u64, previous: Option<(&str, i64)>| {
        let row = previous.map(|(asset, revision)| BindingRow {
            revision,
            memory_asset_id: text(asset),
            principal_id: text("guest"),
        });
        bind_memory(
            &principal("owner"),
            "binding",
            "asset",
            "guest",
            mode,
            revision,
            &fence(),
            Some(3),
            &Some(scope("owner", None)),
            &None,
            &row,
        )
    };
    assert!(bind("bootstrap", 1, None).is_ok());
    assert!(bind("index", 2, Some(("asset", 1))).is_ok());
    fails(
        bind("index", 2, Some(("other", 1))),
        ErrorCode::PolicyDenied,
        "binding identity cannot be reassigned",
    );
    fails(
        bind("on_demand", 4, Some(("asset", 1))),
        ErrorCode::SequenceConflict,
        "binding revision must advance once",
    );
    fails(
        bind("always", 1, None),
        ErrorCode::InvalidPayload,
        "invalid memory binding",
    );
    assert_eq!(owner_binding_id("asset"), "owner:asset");
}

#[test]
fn a_new_asset_starts_at_its_first_version() {
    let create = |record: StoredMemoryAssetRecord, verdicts: MemoryVerdicts| {
        create_memory_asset(&MemoryCreateCommit { record }, &verdicts, &fence(), Some(3))
    };
    assert!(create(record("owner", 1), accepted()).is_ok());
    fails(
        create(record("owner", 2), accepted()),
        ErrorCode::InvalidSequence,
        "a new memory asset must start at version 1",
    );
    let mut foreign = record("owner", 1);
    foreign.current.record.memory_asset_id = text("other");
    fails(
        create(foreign, accepted()),
        ErrorCode::InvalidPayload,
        "memory asset and version IDs differ",
    );
    let refused = Refusal { code: ErrorCode::Other(5), text: text("no owner") };
    fails(
        create(record("owner", 1), MemoryVerdicts { asset: Err(refused), version: Ok(()) }),
        ErrorCode::Other(5),
        "invalid memory asset: no owner",
    );
}

#[test]
fn sources_are_checked() {
    assert!(validate_source(&source("file", Some("d"))).is_ok());
    assert!(validate_source(&source("event", None)).is_ok());
    fails(
        validate_source(&source("file", None)),
        ErrorCode::InvalidPayload,
        "a file memory source requires the digest observed when it was written",
    );
    let mut nameless = source("event", None);
    nameless.source_id = text(" ");
    fails(
        validate_source(&nameless),
        ErrorCode::InvalidPayload,
        "memory source needs a non-empty id",
    );
    let mut late = source("event", None);
    late.source_version = Some(u64::MAX);
    fails(
        write_version_sources(1, &vec![source("event", None), late, nameless]),
        ErrorCode::InvalidPayload,
        "memory source version does not fit the store",
    );
    let row = |version: Option<i64>| MemorySourceRow {
        source_kind: Ok(text("file")),
        source_id: text("a.md"),
        observed_digest: Some(Ok(text("d"))),
        source_version: version,
    };
    assert_eq!(memory_source_from_row(row(None)).expect("reads"), source("file", Some("d")));
    fails(
        memory_source_from_row(row(Some(-1))),
        ErrorCode::InvalidPayload,
        "stored memory source version is negative",
    );
}

#[test]
fn a_version_names_what_it_depends_on() {
    let list = version_dependencies(&record("owner", 1).current.record);
    let pairs: Vec<(&str, &str)> =
        list.iter().map(|entry| (entry.kind, entry.id.as_str())).collect();
    assert_eq!(
        pairs,
        vec![("event", "e1"), ("file", "f1"), ("file", "f2"), ("commit", "c1")]
    );
}

#[test]
fn versions_and_assets_are_read_back() {
    let expected = record("owner", 1);
    let version = decode_version(
        Some(expected.current.record.clone()),
        text("text"),
        text("text"),
        None,
    )
    .expect("reads");
    let row = |asset: Option<MemoryAsset>| AssetRow {
        asset,
        layer: text("semantic"),
        task_id: None,
        agent_profile_id: None,
        session_id: None,
    };
    assert_eq!(
        decode_asset_row(row(Some(expected.asset.clone())), version.clone()).expect("reads"),
        expected
    );
    fails(
        decode_asset_row(row(None), version),
        ErrorCode::InvalidPayload,
        "stored memory asset is invalid",
    );
    fails(
        decode_version(None, text(""), text(""), None),
        ErrorCode::InvalidPayload,
        "stored memory version is invalid",
    );
    assert!(memory_version_sources(Some(2), 2).is_ok());
    fails(
        memory_version_sources(Some(2), 3),
        ErrorCode::InvalidPayload,
        "memory version does not exist on this asset",
    );
    fails(
        memory_version_sources(None, 1),
        ErrorCode::InvalidPayload,
        "memory asset was not found",
    );
    assert_eq!(read_revision(4).expect("reads"), 4);
    fails(read_revision(-1), ErrorCode::InvalidSequence, "invalid memory revision");
}

#[test]
fn only_active_memory_is_searched() {
    assert!(is_searchable(MemoryAssetStatus::Active, true));
    assert!(!is_searchable(MemoryAssetStatus::Active, false));
    assert!(!is_searchable(MemoryAssetStatus::Candidate, true));
    assert_eq!(status_name(MemoryAssetStatus::Superseded), "superseded");
    assert_eq!(scope_name(MemoryScope::AgentProfile), "agent_profile");
}

#[test]
fn a_changed_source_makes_a_version_stale() {
    let seen = |observed: Option<&str>| RefreshSource {
        kind: text("file"),
        id: text("a.md"),
        observed: observed.map(text),
    };
    let recorded = vec![source("file", Some("d"))];
    assert!(version_is_fresh(&recorded, &Vec::new()));
    assert!(version_is_fresh(&recorded, &vec![seen(Some("d"))]));
    assert!(!version_is_fresh(&recorded, &vec![seen(Some("d")), seen(Some("e"))]));
    assert!(version_is_fresh(&recorded, &vec![seen(Some("e")), seen(Some("d"))]));
    assert!(!version_is_fresh(&recorded, &vec![seen(None)]));
    let watched = |id: &str, status: MemoryAssetStatus, owner: &str, project: Option<&str>| {
        WatchedAsset {
            id: text(id),
            status,
            sources: recorded.clone(),
            scope: AssetScopeRow {
                owner_id: text(owner),
                project_id: project.map(text),
                task_id: None,
                agent_profile_id: None,
                session_id: None,
            },
            grant: None,
        }
    };
    let active = MemoryAssetStatus::Active;
    let now = vec![seen(Some("e"))];
    let owner = principal("owner");
    assert!(is_stale_asset(&owner, &watched("a", active, "owner", Some("project")), &now));
    assert!(!is_stale_asset(&owner, &watched("a", active, "owner", Some("other")), &now));
    assert!(!is_stale_asset(&owner, &watched("a", active, "other", Some("project")), &now));
    let assets = vec![
        watched("c", active, "owner", None),
        watched("b", MemoryAssetStatus::Archived, "owner", None),
        watched("a", active, "owner", Some("project")),
        watched("c", active, "owner", None),
    ];
    assert_eq!(memory_versions_with_changed_sources(&owner, &assets, &now), vec!["a", "c"]);
    assert!(memory_versions_with_changed_sources(&owner, &assets, &Vec::new()).is_empty());
    assert!(memory_versions_with_changed_sources(&owner, &assets, &vec![seen(Some("d"))]).is_empty());
}

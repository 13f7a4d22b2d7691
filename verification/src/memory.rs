//! Memory assets: who may use one, and how its versions follow each other.

use crate::columns::{i64_fault, to_i64, to_unsigned, unsigned_fault};
use crate::error::{
    answers, check_verdict, fault, first, optional_parsed_fault, parse_optional_id,
    parsed_fault, parsed_option, parsed_value, verdict_fault, ErrorCode, Fault, Parsed,
    StoreError, Verdict,
};
use crate::journal::{check_fence, fence_fault, HostFence};
use crate::json::{
    is_json, is_string_list, json_is_valid, json_item_texts, json_items, json_string,
    json_string_list, json_strings, json_text,
};
use crate::order::{ascending, sorted_texts};
use crate::text::{blank, cat, has_text, is_blank, opt_text, same_text, texts};
use vstd::prelude::*;

verus! {

/// Where a memory asset stands.
#[derive(Clone, Copy, Debug, PartialEq, Eq, Structural)]
pub enum MemoryAssetStatus {
    Candidate,
    Active,
    Superseded,
    Invalidated,
    Archived,
}

impl MemoryAssetStatus {
    /// The text that a column holds for this status.
    pub open spec fn text(self) -> Seq<char> {
        match self {
            MemoryAssetStatus::Candidate => "candidate"@,
            MemoryAssetStatus::Active => "active"@,
            MemoryAssetStatus::Superseded => "superseded"@,
            MemoryAssetStatus::Invalidated => "invalidated"@,
            MemoryAssetStatus::Archived => "archived"@,
        }
    }

    /// An asset in this status backs nothing any more.
    pub open spec fn is_withdrawn(self) -> bool {
        self == MemoryAssetStatus::Invalidated || self == MemoryAssetStatus::Archived
    }

    pub(crate) fn withdrawn(self) -> (result: bool)
        ensures
            result == self.is_withdrawn(),
    {
        self == MemoryAssetStatus::Invalidated || self == MemoryAssetStatus::Archived
    }
}

/// The column texts for the status of a memory asset: each has its own, and no other text stands
/// for one.
pub proof fn law_memory_asset_status_texts(text: Seq<char>)
    ensures
        MemoryAssetStatus::Candidate.text() == "candidate"@,
        MemoryAssetStatus::Active.text() == "active"@,
        MemoryAssetStatus::Superseded.text() == "superseded"@,
        MemoryAssetStatus::Invalidated.text() == "invalidated"@,
        MemoryAssetStatus::Archived.text() == "archived"@,
        (exists|state: MemoryAssetStatus| #[trigger] state.text() == text) <==> text == "candidate"@
            || text == "active"@ || text == "superseded"@ || text == "invalidated"@
            || text == "archived"@,
{
    if exists|state: MemoryAssetStatus| #[trigger] state.text() == text {
        let state = choose|state: MemoryAssetStatus| #[trigger] state.text() == text;
        match state {
            MemoryAssetStatus::Candidate => {},
            MemoryAssetStatus::Active => {},
            MemoryAssetStatus::Superseded => {},
            MemoryAssetStatus::Invalidated => {},
            MemoryAssetStatus::Archived => {},
        }
    }
    if text == "candidate"@ {
        assert(MemoryAssetStatus::Candidate.text() == text);
    }
    if text == "active"@ {
        assert(MemoryAssetStatus::Active.text() == text);
    }
    if text == "superseded"@ {
        assert(MemoryAssetStatus::Superseded.text() == text);
    }
    if text == "invalidated"@ {
        assert(MemoryAssetStatus::Invalidated.text() == text);
    }
    if text == "archived"@ {
        assert(MemoryAssetStatus::Archived.text() == text);
    }
}

/// The text that a column holds for a status.
pub fn status_name(status: MemoryAssetStatus) -> (name: &'static str)
    ensures
        name@ == status.text(),
{
    match status {
        MemoryAssetStatus::Candidate => "candidate",
        MemoryAssetStatus::Active => "active",
        MemoryAssetStatus::Superseded => "superseded",
        MemoryAssetStatus::Invalidated => "invalidated",
        MemoryAssetStatus::Archived => "archived",
    }
}

/// Whom a memory asset is for.
#[derive(Clone, Copy, Debug, PartialEq, Eq, Structural)]
pub enum MemoryScope {
    User,
    Project,
    Task,
    AgentProfile,
    Session,
}

impl MemoryScope {
    /// The text that a column holds for this scope.
    pub open spec fn text(self) -> Seq<char> {
        match self {
            MemoryScope::User => "user"@,
            MemoryScope::Project => "project"@,
            MemoryScope::Task => "task"@,
            MemoryScope::AgentProfile => "agent_profile"@,
            MemoryScope::Session => "session"@,
        }
    }
}

/// The column texts for the scope of a memory asset: each has its own, and no other text stands
/// for one.
pub proof fn law_memory_scope_texts(text: Seq<char>)
    ensures
        MemoryScope::User.text() == "user"@,
        MemoryScope::Project.text() == "project"@,
        MemoryScope::Task.text() == "task"@,
        MemoryScope::AgentProfile.text() == "agent_profile"@,
        MemoryScope::Session.text() == "session"@,
        (exists|state: MemoryScope| #[trigger] state.text() == text) <==> text == "user"@
            || text == "project"@ || text == "task"@ || text == "agent_profile"@
            || text == "session"@,
{
    if exists|state: MemoryScope| #[trigger] state.text() == text {
        let state = choose|state: MemoryScope| #[trigger] state.text() == text;
        match state {
            MemoryScope::User => {},
            MemoryScope::Project => {},
            MemoryScope::Task => {},
            MemoryScope::AgentProfile => {},
            MemoryScope::Session => {},
        }
    }
    if text == "user"@ {
        assert(MemoryScope::User.text() == text);
    }
    if text == "project"@ {
        assert(MemoryScope::Project.text() == text);
    }
    if text == "task"@ {
        assert(MemoryScope::Task.text() == text);
    }
    if text == "agent_profile"@ {
        assert(MemoryScope::AgentProfile.text() == text);
    }
    if text == "session"@ {
        assert(MemoryScope::Session.text() == text);
    }
}

/// The text that a column holds for a scope.
pub fn scope_name(scope: MemoryScope) -> (name: &'static str)
    ensures
        name@ == scope.text(),
{
    match scope {
        MemoryScope::User => "user",
        MemoryScope::Project => "project",
        MemoryScope::Task => "task",
        MemoryScope::AgentProfile => "agent_profile",
        MemoryScope::Session => "session",
    }
}

/// A memory asset.
#[derive(Clone, Debug, PartialEq, Eq)]
pub struct MemoryAsset {
    pub memory_asset_id: String,
    pub owner_id: String,
    pub project_id: Option<String>,
    pub scope: MemoryScope,
    pub status: MemoryAssetStatus,
    pub current_version: u64,
}

/// One version of a memory asset.
#[derive(Clone, Debug, PartialEq, Eq)]
pub struct MemoryVersion {
    pub memory_asset_id: String,
    pub version: u64,
    pub content_hash: String,
    pub source_event_refs: Vec<String>,
    pub source_file_hashes: Vec<String>,
    pub source_commit: Option<String>,
    /// Whether the version still holds.
    pub valid: bool,
}

/// A version of an asset that another one is built on.
#[derive(Clone, Debug, PartialEq, Eq)]
pub struct MemoryVersionRef {
    pub memory_asset_id: String,
    pub version: u64,
}

/// What a version was read from.
#[derive(Clone, Debug, PartialEq, Eq)]
pub struct MemorySourceRecord {
    pub source_kind: String,
    pub source_id: String,
    pub observed_digest: Option<String>,
    pub source_version: Option<u64>,
}

/// A version as it is stored.
#[derive(Clone, Debug, PartialEq, Eq)]
pub struct StoredMemoryVersionRecord {
    pub record: MemoryVersion,
    pub content: String,
    pub normalized_content: String,
    pub strategy_digest: Option<String>,
    pub sources: Vec<MemorySourceRecord>,
}

/// An asset as it is stored, with its current version.
#[derive(Clone, Debug, PartialEq, Eq)]
pub struct StoredMemoryAssetRecord {
    pub asset: MemoryAsset,
    pub layer: String,
    pub task_id: Option<String>,
    pub agent_profile_id: Option<String>,
    pub session_id: Option<String>,
    pub current: StoredMemoryVersionRecord,
}

/// A new asset.
#[derive(Clone, Debug)]
pub struct MemoryCreateCommit {
    pub record: StoredMemoryAssetRecord,
}

/// A new version of an asset.
#[derive(Clone, Debug)]
pub struct MemoryVersionCommit {
    pub source_assets: Vec<MemoryVersionRef>,
    pub authorization: StoreMemoryPrincipal,
    pub action: String,
    pub memory_asset_id: String,
    pub expected_version: u64,
    pub asset: MemoryAsset,
    pub version: StoredMemoryVersionRecord,
}

/// What a principal is granted on an asset.
#[derive(Clone, Debug, PartialEq, Eq)]
pub struct StoredMemoryGrantRecord {
    pub principal_id: String,
    pub memory_asset_id: String,
    pub project_id: Option<String>,
    pub allowed_actions: Vec<String>,
    pub revision: u64,
    pub active: bool,
}

/// Who asks for memory, and where from.
#[derive(Clone, Debug, PartialEq, Eq)]
pub struct StoreMemoryPrincipal {
    pub principal_id: String,
    pub project_id: Option<String>,
    pub task_id: Option<String>,
    pub agent_profile_id: Option<String>,
    pub session_id: Option<String>,
}

// ---------------------------------------------------------------------------
// Authorization

/// The owner of an asset and where it may be used, as its row is read.
#[derive(Clone, Debug, PartialEq, Eq)]
pub struct AssetScopeRow {
    pub owner_id: String,
    pub project_id: Option<String>,
    pub task_id: Option<String>,
    pub agent_profile_id: Option<String>,
    pub session_id: Option<String>,
}

/// A grant, as its row is read.
#[derive(Clone, Debug, PartialEq, Eq)]
pub struct GrantRow {
    pub project_id: Option<String>,
    pub actions_json: String,
    pub active: i64,
}

/// A bound that is not set lets everyone in; one that is set lets in who names
/// the same.
pub open spec fn bound_admits(bound: Option<String>, named: Option<String>) -> bool {
    bound is None || opt_text(bound) == opt_text(named)
}

pub(crate) fn admitted(bound: &Option<String>, named: &Option<String>) -> (result: bool)
    ensures
        result == bound_admits(*bound, *named),
{
    match (bound, named) {
        (None, _) => true,
        (Some(wanted), Some(given)) => same_text(wanted.as_str(), given.as_str()),
        (Some(_), None) => false,
    }
}

/// An asset may be used where its principal stands.
pub open spec fn scope_admits(row: AssetScopeRow, principal: StoreMemoryPrincipal) -> bool {
    &&& bound_admits(row.project_id, principal.project_id)
    &&& bound_admits(row.task_id, principal.task_id)
    &&& bound_admits(row.agent_profile_id, principal.agent_profile_id)
    &&& bound_admits(row.session_id, principal.session_id)
}

/// Whether an asset may be used where its principal stands.
pub fn scope_matches(row: &AssetScopeRow, principal: &StoreMemoryPrincipal) -> (matches: bool)
    ensures
        matches == scope_admits(*row, *principal),
{
    admitted(&row.project_id, &principal.project_id) && admitted(&row.task_id, &principal.task_id)
        && admitted(&row.agent_profile_id, &principal.agent_profile_id) && admitted(
        &row.session_id,
        &principal.session_id,
    )
}

/// A grant that is active where its principal stands and names an action.
pub open spec fn grant_allows(
    grant: GrantRow,
    principal: StoreMemoryPrincipal,
    action: Seq<char>,
) -> bool {
    &&& grant.active == 1
    &&& bound_admits(grant.project_id, principal.project_id)
    &&& json_strings(grant.actions_json@) is Some
    &&& json_strings(grant.actions_json@)->Some_0.contains(action)
}

/// A list names an action: one of its items is that text, whatever the others are.
pub open spec fn names_action(actions_json: Seq<char>, action: Seq<char>) -> bool {
    &&& json_items(actions_json) is Some
    &&& exists|i: int|
        0 <= i < json_items(actions_json)->Some_0.len() && json_string(
            #[trigger] json_items(actions_json)->Some_0[i],
        ) == Some(action)
}

fn names(actions_json: &str, action: &str) -> (result: bool)
    ensures
        result == names_action(actions_json@, action@),
{
    let items: Vec<String> = match json_item_texts(actions_json) {
        None => {
            return false;
        },
        Some(items) => items,
    };
    let ghost list = json_items(actions_json@)->Some_0;
    let mut i: usize = 0;
    while i < items.len()
        invariant
            i <= items.len(),
            json_items(actions_json@) is Some,
            list == json_items(actions_json@)->Some_0,
            texts(items@) == list,
            forall|k: int| 0 <= k < i ==> json_string(#[trigger] list[k]) != Some(action@),
        decreases items.len() - i,
    {
        assert(list[i as int] == items@[i as int]@);
        match json_text(items[i].as_str()) {
            None => {},
            Some(item) => {
                if same_text(item.as_str(), action) {
                    assert(json_string(json_items(actions_json@)->Some_0[i as int]) == Some(
                        action@,
                    ));
                    return true;
                }
            },
        }
        i += 1;
    }
    assert(texts(items@).len() == items@.len());
    false
}

/// A principal may act on an asset where it stands: as its owner, or by an active grant
/// that names the action. This is how searches look at grants, which they do not read as
/// a whole.
pub open spec fn may_act(
    principal: StoreMemoryPrincipal,
    action: Seq<char>,
    asset: AssetScopeRow,
    grant: Option<GrantRow>,
) -> bool {
    &&& scope_admits(asset, principal)
    &&& asset.owner_id@ == principal.principal_id@ || (grant is Some && counts_for(
        grant->Some_0,
        principal,
    ) && names_action(grant->Some_0.actions_json@, action))
}

/// A grant is active where its principal stands.
pub open spec fn counts_for(grant: GrantRow, principal: StoreMemoryPrincipal) -> bool {
    grant.active == 1 && bound_admits(grant.project_id, principal.project_id)
}

/// Whether a principal may act on an asset where it stands.
pub(crate) fn acts(
    principal: &StoreMemoryPrincipal,
    action: &str,
    asset: &AssetScopeRow,
    grant: &Option<GrantRow>,
) -> (result: bool)
    ensures
        result == may_act(*principal, action@, *asset, *grant),
{
    if !scope_matches(asset, principal) {
        return false;
    }
    if same_text(asset.owner_id.as_str(), principal.principal_id.as_str()) {
        return true;
    }
    match grant {
        None => false,
        Some(given) => given.active == 1 && admitted(&given.project_id, &principal.project_id)
            && names(given.actions_json.as_str(), action),
    }
}

/// A search can look at the grant that it has to look at: the principal does not own the
/// asset, and the grant that counts is JSON.
pub open spec fn has_readable_grant(
    principal: StoreMemoryPrincipal,
    asset: AssetScopeRow,
    grant: Option<GrantRow>,
) -> bool {
    scope_admits(asset, principal) && asset.owner_id@ != principal.principal_id@ && grant is Some
        && counts_for(grant->Some_0, principal) ==> is_json(grant->Some_0.actions_json@)
}

/// Whether a search can look at the grant that it has to look at.
pub(crate) fn readable_grant(
    principal: &StoreMemoryPrincipal,
    asset: &AssetScopeRow,
    grant: &Option<GrantRow>,
) -> (result: bool)
    ensures
        result == has_readable_grant(*principal, *asset, *grant),
{
    match grant {
        None => true,
        Some(given) => !scope_matches(asset, principal) || same_text(
            asset.owner_id.as_str(),
            principal.principal_id.as_str(),
        ) || given.active != 1 || !admitted(&given.project_id, &principal.project_id)
            || json_is_valid(given.actions_json.as_str()),
    }
}

/// A search can look at an asset unless it has to read a grant that is not JSON: one that is
/// active, for no project or for the principal's, on an asset of another owner that may be
/// used where the principal stands.
pub proof fn law_only_a_grant_that_counts_has_to_be_read(
    principal: StoreMemoryPrincipal,
    asset: AssetScopeRow,
    grant: GrantRow,
)
    ensures
        has_readable_grant(principal, asset, None),
        asset.owner_id@ == principal.principal_id@ ==> has_readable_grant(
            principal,
            asset,
            Some(grant),
        ),
        grant.active != 1 ==> has_readable_grant(principal, asset, Some(grant)),
        is_json(grant.actions_json@) ==> has_readable_grant(principal, asset, Some(grant)),
        asset.owner_id@ != principal.principal_id@ && asset.project_id is None
            && asset.task_id is None && asset.agent_profile_id is None && asset.session_id is None
            && grant.active == 1 && grant.project_id is None && !is_json(grant.actions_json@)
            ==> !has_readable_grant(principal, asset, Some(grant)),
{
}

/// Whoever a search lets act on an asset is authorized to, where the grant is the list of
/// texts that a grant is stored as.
pub proof fn law_acting_means_authorized(
    principal: StoreMemoryPrincipal,
    action: Seq<char>,
    asset: AssetScopeRow,
    grant: Option<GrantRow>,
)
    requires
        may_act(principal, action, asset, grant),
        grant is Some ==> is_string_list(grant->Some_0.actions_json@),
    ensures
        authorization_fault(principal, action, Some(asset), grant) is None,
{
    if asset.owner_id@ != principal.principal_id@ {
        let text = grant->Some_0.actions_json@;
        let i = choose|i: int|
            0 <= i < json_items(text)->Some_0.len() && json_string(
                #[trigger] json_items(text)->Some_0[i],
            ) == Some(action);
        assert(json_strings(text)->Some_0[i] == action);
        assert(json_strings(text)->Some_0.contains(action));
    }
}

/// Why a principal may not act on an asset.
pub open spec fn authorization_fault(
    principal: StoreMemoryPrincipal,
    action: Seq<char>,
    asset: Option<AssetScopeRow>,
    grant: Option<GrantRow>,
) -> Option<Fault> {
    match asset {
        None => fault(ErrorCode::InvalidPayload, "memory asset was not found"@),
        Some(row) => if !scope_admits(row, principal) {
            fault(
                ErrorCode::PolicyDenied,
                "memory asset scope does not match the host principal"@,
            )
        } else if row.owner_id@ == principal.principal_id@ {
            None
        } else {
            match grant {
                None => fault(
                    ErrorCode::PolicyDenied,
                    "memory action has no active exact-principal grant"@,
                ),
                Some(given) => if json_strings(given.actions_json@) is None {
                    fault(ErrorCode::InvalidPayload, "stored memory grant is invalid"@)
                } else if grant_allows(given, principal, action) {
                    None
                } else {
                    fault(
                        ErrorCode::PolicyDenied,
                        "memory action is outside the active exact-principal grant"@,
                    )
                },
            }
        },
    }
}

/// Lets a principal act on an asset that is there: its owner, or who holds an
/// active grant that names the action, and only where the asset may be used.
pub fn authorize_row(
    principal: &StoreMemoryPrincipal,
    action: &str,
    row: &AssetScopeRow,
    grant: &Option<GrantRow>,
) -> (result: Result<(), StoreError>)
    ensures
        answers(result, authorization_fault(*principal, action@, Some(*row), *grant)),
{
    let denied: ErrorCode = ErrorCode::PolicyDenied;
    if !scope_matches(row, principal) {
        return Err(
            StoreError::new(denied, "memory asset scope does not match the host principal"),
        );
    }
    if same_text(row.owner_id.as_str(), principal.principal_id.as_str()) {
        return Ok(());
    }
    let given: &GrantRow = match grant {
        Some(given) => given,
        None => {
            return Err(
                StoreError::new(denied, "memory action has no active exact-principal grant"),
            );
        },
    };
    let actions: Vec<String> = match json_string_list(given.actions_json.as_str()) {
        Some(actions) => actions,
        None => {
            return Err(
                StoreError::new(ErrorCode::InvalidPayload, "stored memory grant is invalid"),
            );
        },
    };
    if given.active == 1 && admitted(&given.project_id, &principal.project_id) && has_text(
        &actions,
        action,
    ) {
        Ok(())
    } else {
        Err(StoreError::new(denied, "memory action is outside the active exact-principal grant"))
    }
}

/// Lets a principal act on an asset, where there is one.
pub fn authorize(
    principal: &StoreMemoryPrincipal,
    action: &str,
    asset: &Option<AssetScopeRow>,
    grant: &Option<GrantRow>,
) -> (result: Result<(), StoreError>)
    ensures
        answers(result, authorization_fault(*principal, action@, *asset, *grant)),
{
    match asset {
        Some(row) => authorize_row(principal, action, row, grant),
        None => Err(StoreError::new(ErrorCode::InvalidPayload, "memory asset was not found")),
    }
}

/// Where the project, the task, the agent profile and the session of an asset are each either
/// unset or the one that the principal names, the owner of the asset is authorized for every
/// action, with or without a grant, and so is who holds an active grant that names the
/// action and is for no project or for the principal's. Anyone else is denied. Where one of
/// the four is set and is not what the principal names, nobody is authorized for anything.
pub proof fn law_asset_is_used_where_its_four_bounds_allow(
    principal: StoreMemoryPrincipal,
    action: Seq<char>,
    row: AssetScopeRow,
    grant: Option<GrantRow>,
)
    ensures
        (row.project_id is None || (principal.project_id is Some && row.project_id->Some_0@
                == principal.project_id->Some_0@)) && (row.task_id is None || (principal.task_id is Some && row.task_id->Some_0@
                == principal.task_id->Some_0@)) && (row.agent_profile_id is None || (principal.agent_profile_id is Some && row.agent_profile_id->Some_0@
                == principal.agent_profile_id->Some_0@)) && (row.session_id is None || (principal.session_id is Some && row.session_id->Some_0@
                == principal.session_id->Some_0@)) ==> {
            &&& row.owner_id@ == principal.principal_id@ ==> authorization_fault(
                principal,
                action,
                Some(row),
                grant,
            ) is None
            &&& row.owner_id@ != principal.principal_id@ ==> (authorization_fault(
                principal,
                action,
                Some(row),
                grant,
            ) is None <==> {
                &&& grant is Some
                &&& grant->Some_0.active == 1
                &&& grant->Some_0.project_id is None || (principal.project_id is Some
                    && grant->Some_0.project_id->Some_0@ == principal.project_id->Some_0@)
                &&& json_strings(grant->Some_0.actions_json@) is Some
                &&& json_strings(grant->Some_0.actions_json@)->Some_0.contains(action)
            })
        },
        (row.project_id is Some && (principal.project_id is None || row.project_id->Some_0@
            != principal.project_id->Some_0@)) || (row.task_id is Some && (principal.task_id is None || row.task_id->Some_0@
            != principal.task_id->Some_0@)) || (row.agent_profile_id is Some && (principal.agent_profile_id is None || row.agent_profile_id->Some_0@
            != principal.agent_profile_id->Some_0@)) || (row.session_id is Some && (principal.session_id is None || row.session_id->Some_0@
            != principal.session_id->Some_0@)) ==> {
            &&& authorization_fault(principal, action, Some(row), grant) is Some
            &&& authorization_fault(principal, action, Some(row), grant)->Some_0.code
                == ErrorCode::PolicyDenied
            &&& !may_act(principal, action, row, grant)
        },
        (row.project_id is None || (principal.project_id is Some && row.project_id->Some_0@
                == principal.project_id->Some_0@)) && (row.task_id is None || (principal.task_id is Some && row.task_id->Some_0@
                == principal.task_id->Some_0@)) && (row.agent_profile_id is None || (principal.agent_profile_id is Some && row.agent_profile_id->Some_0@
                == principal.agent_profile_id->Some_0@)) && (row.session_id is None || (principal.session_id is Some && row.session_id->Some_0@
                == principal.session_id->Some_0@)) && row.owner_id@ == principal.principal_id@ ==> may_act(
            principal,
            action,
            row,
            grant,
        ),
        authorization_fault(principal, action, None, grant) is Some,
{
}

/// A search lets a principal that is not the owner act where the four bounds allow it, by a
/// grant that is active, for no project or for the principal's, and one of whose items is
/// the action.
pub proof fn law_search_looks_for_the_action_among_the_grants_items(
    principal: StoreMemoryPrincipal,
    action: Seq<char>,
    row: AssetScopeRow,
    grant: GrantRow,
    at: int,
)
    requires
        row.project_id is None,
        row.task_id is None,
        row.agent_profile_id is None,
        row.session_id is None,
        row.owner_id@ != principal.principal_id@,
    ensures
        !may_act(principal, action, row, None),
        grant.active == 1 && grant.project_id is None && json_items(grant.actions_json@) is Some
            && 0 <= at < json_items(grant.actions_json@)->Some_0.len() && json_string(
            json_items(grant.actions_json@)->Some_0[at],
        ) == Some(action) ==> may_act(principal, action, row, Some(grant)),
        may_act(principal, action, row, Some(grant)) ==> grant.active == 1 && json_items(
            grant.actions_json@,
        ) is Some && exists|k: int|
            0 <= k < json_items(grant.actions_json@)->Some_0.len() && json_string(
                #[trigger] json_items(grant.actions_json@)->Some_0[k],
            ) == Some(action),
        grant.project_id is Some && (principal.project_id is None
            || grant.project_id->Some_0@ != principal.project_id->Some_0@) ==> !may_act(
            principal,
            action,
            row,
            Some(grant),
        ),
{
}

/// Nobody acts on an asset outside the place it is for, and nobody but its owner
/// acts on it without an active grant that names the action.
pub proof fn law_memory_needs_authority(
    principal: StoreMemoryPrincipal,
    action: Seq<char>,
    row: AssetScopeRow,
    grant: Option<GrantRow>,
)
    requires
        authorization_fault(principal, action, Some(row), grant) is None,
    ensures
        scope_admits(row, principal),
        row.owner_id@ == principal.principal_id@ || (grant is Some && grant_allows(
            grant->Some_0,
            principal,
            action,
        )),
{
}

/// A revoked grant allows nothing: once its grant is inactive, a principal who is
/// not the owner is refused.
pub proof fn law_revoked_grant_allows_nothing(
    principal: StoreMemoryPrincipal,
    action: Seq<char>,
    row: AssetScopeRow,
    grant: GrantRow,
)
    requires
        row.owner_id@ != principal.principal_id@,
        grant.active != 1,
    ensures
        authorization_fault(principal, action, Some(row), Some(grant)) is Some,
{
}

// ---------------------------------------------------------------------------
// Grants and bindings

/// A stored revision that the next one follows: none yet is zero.
pub open spec fn previous_revision(previous: Option<i64>) -> int {
    match previous {
        None => 0,
        Some(revision) => revision as int,
    }
}

/// Why a grant is not stored. `owner` is who owns the asset, `asset` and `own` are
/// what the granting principal's authority is read from, and `previous` is the
/// revision of the grant that is there.
pub open spec fn grant_fault(
    granting: StoreMemoryPrincipal,
    grant: StoredMemoryGrantRecord,
    fence: HostFence,
    held: Option<i64>,
    owner: Option<String>,
    asset: Option<AssetScopeRow>,
    own: Option<GrantRow>,
    previous: Option<i64>,
) -> Option<Fault> {
    if grant.revision == 0 || grant.allowed_actions@.len() == 0 {
        fault(ErrorCode::InvalidPayload, "memory grant requires a revision and actions"@)
    } else {
        first(
            fence_fault(held, fence),
            if owner is None {
                fault(ErrorCode::InvalidPayload, "memory asset was not found"@)
            } else if owner->Some_0@ != granting.principal_id@ {
                fault(
                    ErrorCode::PolicyDenied,
                    "only the exact memory owner may grant asset actions"@,
                )
            } else {
                first(
                    authorization_fault(granting, "bind"@, asset, own),
                    first(
                        i64_fault(grant.revision, "grant revision"@),
                        if grant.revision != previous_revision(previous) + 1 {
                            fault(
                                ErrorCode::SequenceConflict,
                                "grant revision must advance exactly once"@,
                            )
                        } else {
                            None
                        },
                    ),
                )
            },
        )
    }
}

fn follows(revision: u64, previous: Option<i64>) -> (result: bool)
    ensures
        result == (revision == previous_revision(previous) + 1),
{
    let before: i128 = match previous {
        None => 0,
        Some(value) => value as i128,
    };
    revision as i128 == before + 1
}

/// Lets the owner of an asset grant actions on it, one revision at a time.
pub fn grant_memory(
    granting: &StoreMemoryPrincipal,
    grant: &StoredMemoryGrantRecord,
    fence: &HostFence,
    held: Option<i64>,
    owner: &Option<String>,
    asset: &Option<AssetScopeRow>,
    own: &Option<GrantRow>,
    previous: Option<i64>,
) -> (result: Result<(), StoreError>)
    ensures
        answers(
            result,
            grant_fault(*granting, *grant, *fence, held, *owner, *asset, *own, previous),
        ),
{
    if grant.revision == 0 || grant.allowed_actions.len() == 0 {
        return Err(
            StoreError::new(
                ErrorCode::InvalidPayload,
                "memory grant requires a revision and actions",
            ),
        );
    }
    check_fence(held, fence)?;
    match owner {
        None => {
            return Err(StoreError::new(ErrorCode::InvalidPayload, "memory asset was not found"));
        },
        Some(owner_id) => {
            if !same_text(owner_id.as_str(), granting.principal_id.as_str()) {
                return Err(
                    StoreError::new(
                        ErrorCode::PolicyDenied,
                        "only the exact memory owner may grant asset actions",
                    ),
                );
            }
        },
    }
    authorize(granting, "bind", asset, own)?;
    let revision: i64 = to_i64(grant.revision, "grant revision")?;
    if !follows(grant.revision, previous) {
        return Err(
            StoreError::new(
                ErrorCode::SequenceConflict,
                "grant revision must advance exactly once",
            ),
        );
    }
    Ok(())
}

/// The owner of an asset grants actions on it, where it may be used, to whomever it names,
/// one revision after the other and starting with one. Nobody else does.
pub proof fn law_owner_grants_actions(
    granting: StoreMemoryPrincipal,
    grant: StoredMemoryGrantRecord,
    fence: HostFence,
    held: Option<i64>,
    owner: Option<String>,
    asset: Option<AssetScopeRow>,
    own: Option<GrantRow>,
    previous: Option<i64>,
)
    ensures
        grant_fault(granting, grant, fence, held, owner, asset, own, previous) is None <==> {
            &&& 0 < grant.revision <= i64::MAX
            &&& grant.allowed_actions@.len() > 0
            &&& held is Some
            &&& held->Some_0 == fence.generation as int
            &&& owner is Some
            &&& owner->Some_0@ == granting.principal_id@
            &&& authorization_fault(granting, "bind"@, asset, own) is None
            &&& previous is None ==> grant.revision == 1
            &&& previous is Some ==> grant.revision == previous->Some_0 + 1
        },
{
}

/// How memory reaches its reader.
pub open spec fn is_injection_mode(mode: Seq<char>) -> bool {
    mode == "bootstrap"@ || mode == "index"@ || mode == "on_demand"@
}

/// A binding, as its row is read.
#[derive(Clone, Debug, PartialEq, Eq)]
pub struct BindingRow {
    pub revision: i64,
    pub memory_asset_id: String,
    pub principal_id: String,
}

/// The revision of a binding that is there.
pub open spec fn binding_revision(previous: Option<BindingRow>) -> Option<i64> {
    match previous {
        None => None,
        Some(row) => Some(row.revision),
    }
}

/// Why a binding is not stored.
pub open spec fn bind_fault(
    principal: StoreMemoryPrincipal,
    binding_id: Seq<char>,
    asset_id: Seq<char>,
    target: Seq<char>,
    mode: Seq<char>,
    revision: u64,
    fence: HostFence,
    held: Option<i64>,
    asset: Option<AssetScopeRow>,
    grant: Option<GrantRow>,
    previous: Option<BindingRow>,
) -> Option<Fault> {
    if blank(binding_id) || blank(target) || !is_injection_mode(mode) {
        fault(ErrorCode::InvalidPayload, "invalid memory binding"@)
    } else {
        first(
            fence_fault(held, fence),
            first(
                authorization_fault(principal, "bind"@, asset, grant),
                if previous is Some && (previous->Some_0.memory_asset_id@ != asset_id
                    || previous->Some_0.principal_id@ != target) {
                    fault(ErrorCode::PolicyDenied, "binding identity cannot be reassigned"@)
                } else {
                    first(
                        i64_fault(revision, "binding revision"@),
                        if revision != previous_revision(binding_revision(previous)) + 1 {
                            fault(
                                ErrorCode::SequenceConflict,
                                "binding revision must advance once"@,
                            )
                        } else {
                            None
                        },
                    )
                },
            ),
        )
    }
}

/// Binds an asset to a principal, one revision at a time. A binding keeps its
/// asset and its principal.
pub fn bind_memory(
    principal: &StoreMemoryPrincipal,
    binding_id: &str,
    asset_id: &str,
    target: &str,
    mode: &str,
    revision: u64,
    fence: &HostFence,
    held: Option<i64>,
    asset: &Option<AssetScopeRow>,
    grant: &Option<GrantRow>,
    previous: &Option<BindingRow>,
) -> (result: Result<(), StoreError>)
    ensures
        answers(
            result,
            bind_fault(
                *principal,
                binding_id@,
                asset_id@,
                target@,
                mode@,
                revision,
                *fence,
                held,
                *asset,
                *grant,
                *previous,
            ),
        ),
{
    if is_blank(binding_id) || is_blank(target) || (!same_text(mode, "bootstrap") && !same_text(
        mode,
        "index",
    ) && !same_text(mode, "on_demand")) {
        return Err(StoreError::new(ErrorCode::InvalidPayload, "invalid memory binding"));
    }
    check_fence(held, fence)?;
    authorize(principal, "bind", asset, grant)?;
    let before: Option<i64> = match previous {
        None => None,
        Some(row) => {
            if !same_text(row.memory_asset_id.as_str(), asset_id) || !same_text(
                row.principal_id.as_str(),
                target,
            ) {
                return Err(
                    StoreError::new(
                        ErrorCode::PolicyDenied,
                        "binding identity cannot be reassigned",
                    ),
                );
            }
            Some(row.revision)
        },
    };
    let stored: i64 = to_i64(revision, "binding revision")?;
    if !follows(revision, before) {
        return Err(
            StoreError::new(ErrorCode::SequenceConflict, "binding revision must advance once"),
        );
    }
    Ok(())
}

/// A host that may write binds an asset for who is authorized to bind it, in one of the three
/// ways that memory reaches its reader, one revision after the other and starting with one.
/// A binding that is there keeps its asset and its principal.
pub proof fn law_asset_is_bound_in_order(
    principal: StoreMemoryPrincipal,
    binding_id: Seq<char>,
    asset_id: Seq<char>,
    target: Seq<char>,
    mode: Seq<char>,
    revision: u64,
    fence: HostFence,
    held: Option<i64>,
    asset: Option<AssetScopeRow>,
    grant: Option<GrantRow>,
    previous: Option<BindingRow>,
)
    ensures
        bind_fault(
            principal,
            binding_id,
            asset_id,
            target,
            mode,
            revision,
            fence,
            held,
            asset,
            grant,
            previous,
        ) is None <==> {
            &&& !blank(binding_id)
            &&& !blank(target)
            &&& mode == "bootstrap"@ || mode == "index"@ || mode == "on_demand"@
            &&& held is Some
            &&& held->Some_0 == fence.generation as int
            &&& authorization_fault(principal, "bind"@, asset, grant) is None
            &&& revision <= i64::MAX
            &&& previous is None ==> revision == 1
            &&& previous is Some ==> {
                &&& previous->Some_0.memory_asset_id@ == asset_id
                &&& previous->Some_0.principal_id@ == target
                &&& revision == previous->Some_0.revision + 1
            }
        },
{
}

/// The binding that an asset's owner has from the start.
pub fn owner_binding_id(asset_id: &str) -> (id: String)
    ensures
        id@ == "owner:"@ + asset_id@,
{
    cat("owner:", asset_id)
}

// ---------------------------------------------------------------------------
// Assets and versions

/// What the rules of the records themselves say about an asset and a version.
#[derive(Debug)]
pub struct MemoryVerdicts {
    pub asset: Verdict,
    pub version: Verdict,
}

/// Why an asset and its version are malformed.
pub open spec fn record_fault(
    record: StoredMemoryAssetRecord,
    verdicts: MemoryVerdicts,
) -> Option<Fault> {
    first(
        verdict_fault(verdicts.asset, "invalid memory asset: "@),
        first(
            verdict_fault(verdicts.version, "invalid memory version: "@),
            if record.current.record.memory_asset_id@ != record.asset.memory_asset_id@ {
                fault(ErrorCode::InvalidPayload, "memory asset and version IDs differ"@)
            } else {
                None
            },
        ),
    )
}

/// Refuses a malformed asset.
pub fn validate_record(record: &StoredMemoryAssetRecord, verdicts: &MemoryVerdicts) -> (result:
    Result<(), StoreError>)
    ensures
        answers(result, record_fault(*record, *verdicts)),
{
    check_verdict(&verdicts.asset, "invalid memory asset: ")?;
    check_verdict(&verdicts.version, "invalid memory version: ")?;
    if !same_text(
        record.current.record.memory_asset_id.as_str(),
        record.asset.memory_asset_id.as_str(),
    ) {
        return Err(
            StoreError::new(ErrorCode::InvalidPayload, "memory asset and version IDs differ"),
        );
    }
    Ok(())
}

/// Why a source is malformed: a file without the digest that was read could never
/// be found to have changed.
pub open spec fn source_fault(source: MemorySourceRecord) -> Option<Fault> {
    if blank(source.source_id@) {
        fault(ErrorCode::InvalidPayload, "memory source needs a non-empty id"@)
    } else if source.source_kind@ == "file"@ && (source.observed_digest is None || blank(
        source.observed_digest->Some_0@,
    )) {
        fault(
            ErrorCode::InvalidPayload,
            "a file memory source requires the digest observed when it was written"@,
        )
    } else {
        None
    }
}

/// Refuses a malformed source.
pub fn validate_source(source: &MemorySourceRecord) -> (result: Result<(), StoreError>)
    ensures
        answers(result, source_fault(*source)),
{
    if is_blank(source.source_id.as_str()) {
        return Err(
            StoreError::new(ErrorCode::InvalidPayload, "memory source needs a non-empty id"),
        );
    }
    let observed: bool = match &source.observed_digest {
        None => false,
        Some(digest) => !is_blank(digest.as_str()),
    };
    if same_text(source.source_kind.as_str(), "file") && !observed {
        return Err(
            StoreError::new(
                ErrorCode::InvalidPayload,
                "a file memory source requires the digest observed when it was written",
            ),
        );
    }
    Ok(())
}

/// Why a source is not stored.
pub open spec fn stored_source_fault(source: MemorySourceRecord) -> Option<Fault> {
    first(
        source_fault(source),
        if source.source_version is Some && source.source_version->Some_0 > i64::MAX {
            fault(ErrorCode::InvalidPayload, "memory source version does not fit the store"@)
        } else {
            None
        },
    )
}

/// The first fault among the sources of a version.
pub open spec fn sources_fault(sources: Seq<MemorySourceRecord>) -> Option<Fault>
    decreases sources.len(),
{
    if sources.len() == 0 {
        None
    } else {
        first(sources_fault(sources.drop_last()), stored_source_fault(sources.last()))
    }
}

proof fn lemma_first_source_fault_stands(sources: Seq<MemorySourceRecord>, count: int)
    requires
        0 <= count <= sources.len(),
        sources_fault(sources.take(count)) is Some,
    ensures
        sources_fault(sources) == sources_fault(sources.take(count)),
    decreases sources.len() - count,
{
    if count == sources.len() {
        assert(sources.take(count) =~= sources);
    } else {
        assert(sources.take(count + 1).drop_last() =~= sources.take(count));
        lemma_first_source_fault_stands(sources, count + 1);
    }
}

/// Refuses the sources of a version where one of them cannot be stored.
pub fn write_version_sources(version: u64, sources: &Vec<MemorySourceRecord>) -> (result: Result<
    (),
    StoreError,
>)
    ensures
        answers(
            result,
            first(i64_fault(version, "memory version"@), sources_fault(sources@)),
        ),
{
    let stored: i64 = to_i64(version, "memory version")?;
    let mut i: usize = 0;
    while i < sources.len()
        invariant
            i <= sources.len(),
            i64_fault(version, "memory version"@) is None,
            sources_fault(sources@.take(i as int)) is None,
        decreases sources.len() - i,
    {
        assert(sources@.take(i + 1).drop_last() =~= sources@.take(i as int));
        assert(sources@.take(i + 1).last() == sources@[i as int]);
        match validate_source(&sources[i]) {
            Ok(_) => {},
            Err(error) => {
                proof {
                    lemma_first_source_fault_stands(sources@, i + 1);
                }
                return Err(error);
            },
        }
        match sources[i].source_version {
            None => {},
            Some(value) => {
                if value > i64::MAX as u64 {
                    proof {
                        lemma_first_source_fault_stands(sources@, i + 1);
                    }
                    return Err(
                        StoreError::new(
                            ErrorCode::InvalidPayload,
                            "memory source version does not fit the store",
                        ),
                    );
                }
            },
        }
        i += 1;
    }
    assert(sources@.take(i as int) =~= sources@);
    Ok(())
}

/// The sources of a version are stored if and only if each of them has an id and a version
/// that a column can hold, and each file has the digest that was read.
pub proof fn law_sources_are_stored_where_each_can_be(sources: Seq<MemorySourceRecord>)
    ensures
        sources_fault(sources) is None <==> forall|i: int|
            0 <= i < sources.len() ==> {
                &&& !blank((#[trigger] sources[i]).source_id@)
                &&& sources[i].source_kind@ == "file"@ ==> sources[i].observed_digest is Some
                    && !blank(sources[i].observed_digest->Some_0@)
                &&& sources[i].source_version is None || sources[i].source_version->Some_0
                    <= i64::MAX
            },
    decreases sources.len(),
{
    if sources.len() > 0 {
        law_sources_are_stored_where_each_can_be(sources.drop_last());
        assert forall|i: int| 0 <= i < sources.len() - 1 implies sources.drop_last()[i]
            == #[trigger] sources[i] by {}
        if forall|i: int|
            0 <= i < sources.len() ==> {
                &&& !blank((#[trigger] sources[i]).source_id@)
                &&& sources[i].source_kind@ == "file"@ ==> sources[i].observed_digest is Some
                    && !blank(sources[i].observed_digest->Some_0@)
                &&& sources[i].source_version is None || sources[i].source_version->Some_0
                    <= i64::MAX
            } {
            assert(sources_fault(sources.drop_last()) is None);
            assert(stored_source_fault(sources[sources.len() - 1]) is None);
        }
        if sources_fault(sources) is None {
            assert forall|i: int| 0 <= i < sources.len() implies {
                &&& !blank((#[trigger] sources[i]).source_id@)
                &&& sources[i].source_kind@ == "file"@ ==> sources[i].observed_digest is Some
                    && !blank(sources[i].observed_digest->Some_0@)
                &&& sources[i].source_version is None || sources[i].source_version->Some_0
                    <= i64::MAX
            } by {
                if i < sources.len() - 1 {
                    assert(sources.drop_last()[i] == sources[i]);
                }
            }
        }
    }
}

/// What a version depends on: a kind and an id.
#[derive(Clone, Debug, PartialEq, Eq)]
pub struct Dependency {
    pub kind: &'static str,
    pub id: String,
}

/// A list names the sources of a version: its events, its files and its commit,
/// in that order.
pub open spec fn names_dependencies(version: MemoryVersion, list: Seq<Dependency>) -> bool {
    let events = version.source_event_refs@;
    let files = version.source_file_hashes@;
    &&& list.len() == events.len() + files.len() + if version.source_commit is Some {
        1nat
    } else {
        0nat
    }
    &&& forall|i: int|
        0 <= i < events.len() ==> (#[trigger] list[i]).kind@ == "event"@ && list[i].id == events[i]
    &&& forall|i: int|
        events.len() <= i < events.len() + files.len() ==> (#[trigger] list[i]).kind@ == "file"@
            && list[i].id == files[i - events.len()]
    &&& version.source_commit is Some ==> list.last().kind@ == "commit"@ && list.last().id
        == version.source_commit->Some_0
}

/// What a version depends on.
pub fn version_dependencies(version: &MemoryVersion) -> (list: Vec<Dependency>)
    ensures
        names_dependencies(*version, list@),
{
    let mut list: Vec<Dependency> = Vec::new();
    let ghost events = version.source_event_refs@;
    let ghost files = version.source_file_hashes@;
    let mut i: usize = 0;
    while i < version.source_event_refs.len()
        invariant
            i <= version.source_event_refs.len(),
            events == version.source_event_refs@,
            list@.len() == i,
            forall|k: int|
                0 <= k < i ==> (#[trigger] list@[k]).kind@ == "event"@ && list@[k].id == events[k],
        decreases version.source_event_refs.len() - i,
    {
        list.push(Dependency { kind: "event", id: version.source_event_refs[i].clone() });
        i += 1;
    }
    let mut j: usize = 0;
    while j < version.source_file_hashes.len()
        invariant
            j <= version.source_file_hashes.len(),
            events == version.source_event_refs@,
            files == version.source_file_hashes@,
            list@.len() == events.len() + j,
            forall|k: int|
                0 <= k < events.len() ==> (#[trigger] list@[k]).kind@ == "event"@ && list@[k].id
                    == events[k],
            forall|k: int|
                events.len() <= k < events.len() + j ==> (#[trigger] list@[k]).kind@ == "file"@
                    && list@[k].id == files[k - events.len()],
        decreases version.source_file_hashes.len() - j,
    {
        list.push(Dependency { kind: "file", id: version.source_file_hashes[j].clone() });
        j += 1;
    }
    match &version.source_commit {
        None => {},
        Some(commit) => {
            list.push(Dependency { kind: "commit", id: commit.clone() });
        },
    }
    list
}

/// A version depends on every event, every file and the commit that it names, and on nothing
/// else.
pub proof fn law_version_depends_on_what_it_names(
    version: MemoryVersion,
    list: Seq<Dependency>,
    i: int,
)
    requires
        names_dependencies(version, list),
    ensures
        0 <= i < version.source_event_refs@.len() ==> exists|k: int|
            0 <= k < list.len() && (#[trigger] list[k]).kind@ == "event"@ && list[k].id
                == version.source_event_refs@[i],
        0 <= i < version.source_file_hashes@.len() ==> exists|k: int|
            0 <= k < list.len() && (#[trigger] list[k]).kind@ == "file"@ && list[k].id
                == version.source_file_hashes@[i],
        version.source_commit is Some ==> exists|k: int|
            0 <= k < list.len() && (#[trigger] list[k]).kind@ == "commit"@ && list[k].id
                == version.source_commit->Some_0,
        0 <= i < list.len() ==> {
            ||| list[i].kind@ == "event"@ && version.source_event_refs@.contains(list[i].id)
            ||| list[i].kind@ == "file"@ && version.source_file_hashes@.contains(list[i].id)
            ||| list[i].kind@ == "commit"@ && version.source_commit == Some(list[i].id)
        },
{
    let events = version.source_event_refs@;
    let files = version.source_file_hashes@;
    if 0 <= i < events.len() {
        assert(list[i].kind@ == "event"@);
    }
    if 0 <= i < files.len() {
        assert(list[events.len() + i].kind@ == "file"@);
        assert(list[events.len() + i].id == files[events.len() + i - events.len()]);
    }
    if version.source_commit is Some {
        assert(list[list.len() - 1] == list.last());
    }
    if 0 <= i < list.len() {
        if i < events.len() {
            assert(list[i].id == events[i]);
        } else if i < events.len() + files.len() {
            assert(list[i].kind@ == "file"@ && list[i].id == files[i - events.len()]);
        } else {
            assert(list[i] == list.last());
        }
    }
}

/// The search index holds a version where its asset is active and it still holds.
pub fn is_searchable(status: MemoryAssetStatus, valid: bool) -> (searchable: bool)
    ensures
        searchable == (status == MemoryAssetStatus::Active && valid),
{
    status == MemoryAssetStatus::Active && valid
}

/// Why an asset is not created.
pub open spec fn create_fault(
    record: StoredMemoryAssetRecord,
    verdicts: MemoryVerdicts,
    fence: HostFence,
    held: Option<i64>,
) -> Option<Fault> {
    first(
        record_fault(record, verdicts),
        if record.asset.current_version != 1 || record.current.record.version != 1 {
            fault(ErrorCode::InvalidSequence, "a new memory asset must start at version 1"@)
        } else {
            first(fence_fault(held, fence), sources_fault(record.current.sources@))
        },
    )
}

/// Refuses a new asset that is malformed or does not start at its first version.
pub fn create_memory_asset(
    commit: &MemoryCreateCommit,
    verdicts: &MemoryVerdicts,
    fence: &HostFence,
    held: Option<i64>,
) -> (result: Result<(), StoreError>)
    ensures
        answers(result, create_fault(commit.record, *verdicts, *fence, held)),
{
    validate_record(&commit.record, verdicts)?;
    if commit.record.asset.current_version != 1 || commit.record.current.record.version != 1 {
        return Err(
            StoreError::new(
                ErrorCode::InvalidSequence,
                "a new memory asset must start at version 1",
            ),
        );
    }
    check_fence(held, fence)?;
    write_version_sources(commit.record.current.record.version, &commit.record.current.sources)
}

/// A host that may write creates an asset if and only if the asset and its version are sound
/// and belong together, both are at version one, and every source can be stored.
pub proof fn law_asset_starts_at_version_one(
    record: StoredMemoryAssetRecord,
    verdicts: MemoryVerdicts,
    fence: HostFence,
    held: Option<i64>,
)
    ensures
        create_fault(record, verdicts, fence, held) is None <==> {
            &&& verdicts.asset is Ok
            &&& verdicts.version is Ok
            &&& record.current.record.memory_asset_id@ == record.asset.memory_asset_id@
            &&& record.asset.current_version == 1
            &&& record.current.record.version == 1
            &&& held is Some
            &&& held->Some_0 == fence.generation as int
            &&& sources_fault(record.current.sources@) is None
        },
{
}

/// Why the sources of a version cannot be shown.
pub open spec fn sources_read_fault(asset: Option<u64>, version: u64) -> Option<Fault> {
    match asset {
        None => fault(ErrorCode::InvalidPayload, "memory asset was not found"@),
        Some(current_version) => if version == 0 || version > current_version {
            fault(ErrorCode::InvalidPayload, "memory version does not exist on this asset"@)
        } else {
            i64_fault(version, "memory version"@)
        },
    }
}

/// Refuses a version that an asset never had. `asset` is the current version of
/// the asset, where the principal may read it.
pub fn memory_version_sources(asset: Option<u64>, version: u64) -> (result: Result<(), StoreError>)
    ensures
        answers(result, sources_read_fault(asset, version)),
{
    match asset {
        None => Err(StoreError::new(ErrorCode::InvalidPayload, "memory asset was not found")),
        Some(current_version) => {
            if version == 0 || version > current_version {
                return Err(
                    StoreError::new(
                        ErrorCode::InvalidPayload,
                        "memory version does not exist on this asset",
                    ),
                );
            }
            let stored: i64 = to_i64(version, "memory version")?;
            Ok(())
        },
    }
}

/// Every version that an asset has had shows its sources, from the first to the current one,
/// and no other does.
pub proof fn law_every_version_shows_its_sources(current_version: u64, version: u64)
    requires
        current_version <= i64::MAX,
    ensures
        sources_read_fault(Some(current_version), version) is None <==> 1 <= version
            <= current_version,
        sources_read_fault(None, version) is Some,
{
}

/// The revision of all memory taken together.
pub fn read_revision(stored: i64) -> (result: Result<u64, StoreError>)
    ensures
        answers(
            result,
            unsigned_fault(stored, ErrorCode::InvalidSequence, "invalid memory revision"@),
        ),
        result is Ok ==> result->Ok_0 == stored,
{
    to_unsigned(stored, ErrorCode::InvalidSequence, "invalid memory revision")
}

/// A source as its row is read.
#[derive(Debug)]
pub struct MemorySourceRow {
    pub source_kind: Parsed,
    pub source_id: String,
    pub observed_digest: Option<Parsed>,
    pub source_version: Option<i64>,
}

/// Why a stored source cannot be read.
pub open spec fn source_row_fault(row: MemorySourceRow) -> Option<Fault> {
    first(
        parsed_fault(row.source_kind),
        first(
            optional_parsed_fault(row.observed_digest),
            if row.source_version is Some && row.source_version->Some_0 < 0 {
                fault(ErrorCode::InvalidPayload, "stored memory source version is negative"@)
            } else {
                None
            },
        ),
    )
}

/// Reads a source back.
pub fn memory_source_from_row(row: MemorySourceRow) -> (result: Result<
    MemorySourceRecord,
    StoreError,
>)
    ensures
        answers(result, source_row_fault(row)),
        result is Ok ==> result->Ok_0 == (MemorySourceRecord {
            source_kind: row.source_kind->Ok_0,
            source_id: row.source_id,
            observed_digest: parsed_option(row.observed_digest),
            source_version: crate::columns::u64_option(row.source_version),
        }),
{
    let source_kind: String = parsed_value(row.source_kind)?;
    let observed_digest: Option<String> = parse_optional_id(
        row.observed_digest,
    )?;
    let source_version: Option<u64> = match row.source_version {
        None => None,
        Some(value) => {
            if value < 0 {
                return Err(
                    StoreError::new(
                        ErrorCode::InvalidPayload,
                        "stored memory source version is negative",
                    ),
                );
            }
            Some(value as u64)
        },
    };
    Ok(MemorySourceRecord { source_kind, source_id: row.source_id, observed_digest, source_version })
}

/// Why a stored version cannot be read. `record` is there where its JSON has the
/// shape of a version.
pub open spec fn version_row_fault(
    record: Option<MemoryVersion>,
    strategy_digest: Option<Parsed>,
) -> Option<Fault> {
    if record is None {
        fault(ErrorCode::InvalidPayload, "stored memory version is invalid"@)
    } else {
        optional_parsed_fault(strategy_digest)
    }
}

/// Reads a version back. Its sources are read on their own.
pub fn decode_version(
    record: Option<MemoryVersion>,
    content: String,
    normalized_content: String,
    strategy_digest: Option<Parsed>,
) -> (result: Result<StoredMemoryVersionRecord, StoreError>)
    ensures
        answers(result, version_row_fault(record, strategy_digest)),
        result is Ok ==> {
            let version = result->Ok_0;
            &&& version.record == record->Some_0
            &&& version.content == content
            &&& version.normalized_content == normalized_content
            &&& version.strategy_digest == parsed_option(strategy_digest)
            &&& version.sources@.len() == 0
        },
{
    match record {
        None => Err(
            StoreError::new(ErrorCode::InvalidPayload, "stored memory version is invalid"),
        ),
        Some(record) => {
            let strategy_digest: Option<String> = parse_optional_id(strategy_digest)?;
            Ok(
                StoredMemoryVersionRecord {
                    record,
                    content,
                    normalized_content,
                    strategy_digest,
                    sources: Vec::new(),
                },
            )
        },
    }
}

/// An asset as its row is read.
#[derive(Debug)]
pub struct AssetRow {
    /// The asset, where its JSON has the shape of one.
    pub asset: Option<MemoryAsset>,
    pub layer: String,
    pub task_id: Option<Parsed>,
    pub agent_profile_id: Option<Parsed>,
    pub session_id: Option<Parsed>,
}

/// Why a stored asset cannot be read.
pub open spec fn asset_row_fault(row: AssetRow) -> Option<Fault> {
    if row.asset is None {
        fault(ErrorCode::InvalidPayload, "stored memory asset is invalid"@)
    } else {
        first(
            optional_parsed_fault(row.task_id),
            first(
                optional_parsed_fault(row.agent_profile_id),
                optional_parsed_fault(row.session_id),
            ),
        )
    }
}

/// Reads an asset back, with its current version.
pub fn decode_asset_row(row: AssetRow, current: StoredMemoryVersionRecord) -> (result: Result<
    StoredMemoryAssetRecord,
    StoreError,
>)
    ensures
        answers(result, asset_row_fault(row)),
        result is Ok ==> result->Ok_0 == (StoredMemoryAssetRecord {
            asset: row.asset->Some_0,
            layer: row.layer,
            task_id: parsed_option(row.task_id),
            agent_profile_id: parsed_option(row.agent_profile_id),
            session_id: parsed_option(row.session_id),
            current,
        }),
{
    match row.asset {
        None => Err(StoreError::new(ErrorCode::InvalidPayload, "stored memory asset is invalid")),
        Some(asset) => {
            let task_id: Option<String> = parse_optional_id(row.task_id)?;
            let agent_profile_id: Option<String> = parse_optional_id(row.agent_profile_id)?;
            let session_id: Option<String> = parse_optional_id(row.session_id)?;
            Ok(
                StoredMemoryAssetRecord {
                    asset,
                    layer: row.layer,
                    task_id,
                    agent_profile_id,
                    session_id,
                    current,
                },
            )
        },
    }
}

/// A source, a version and an asset of memory are read back if and only if their identities can
/// be read, their JSON has the right shape, and no version is less than nothing.
pub proof fn law_memory_is_read_back(
    source: MemorySourceRow,
    record: Option<MemoryVersion>,
    strategy_digest: Option<Parsed>,
    row: AssetRow,
)
    ensures
        source_row_fault(source) is None <==> {
            &&& source.source_kind is Ok
            &&& source.observed_digest is None || source.observed_digest->Some_0 is Ok
            &&& source.source_version is None || 0 <= source.source_version->Some_0
        },
        version_row_fault(record, strategy_digest) is None <==> {
            &&& record is Some
            &&& strategy_digest is None || strategy_digest->Some_0 is Ok
        },
        asset_row_fault(row) is None <==> {
            &&& row.asset is Some
            &&& row.task_id is None || row.task_id->Some_0 is Ok
            &&& row.agent_profile_id is None || row.agent_profile_id->Some_0 is Ok
            &&& row.session_id is None || row.session_id->Some_0 is Ok
        },
{
}

// ---------------------------------------------------------------------------
// Freshness

/// What a caller sees now of a source that it has read again.
#[derive(Clone, Debug, PartialEq, Eq)]
pub struct RefreshSource {
    pub kind: String,
    pub id: String,
    /// The source's digest now; a source that is gone has none.
    pub observed: Option<String>,
}

/// A source of a version is not what the caller sees of it now. A source that was
/// recorded without a digest, or that is gone, has changed.
pub open spec fn has_changed(source: MemorySourceRecord, seen: RefreshSource) -> bool {
    &&& source.source_kind@ == seen.kind@
    &&& source.source_id@ == seen.id@
    &&& (source.observed_digest is None || seen.observed is None || source.observed_digest->Some_0@
        != seen.observed->Some_0@)
}

/// The caller has looked at a source again later.
pub open spec fn is_superseded(seen: Seq<RefreshSource>, place: int) -> bool {
    exists|k: int|
        place < k < seen.len() && (#[trigger] seen[k]).kind@ == seen[place].kind@ && seen[k].id@
            == seen[place].id@
}

/// No source of a version has changed, as far as the caller has looked. What it saw
/// last of a source counts; a source that it has not read again is not judged.
pub open spec fn is_fresh(sources: Seq<MemorySourceRecord>, seen: Seq<RefreshSource>) -> bool {
    forall|i: int, j: int|
        0 <= i < sources.len() && 0 <= j < seen.len() && !is_superseded(seen, j) ==> !has_changed(
            #[trigger] sources[i],
            #[trigger] seen[j],
        )
}

fn superseded(seen: &Vec<RefreshSource>, place: usize) -> (result: bool)
    requires
        place < seen.len(),
    ensures
        result == is_superseded(seen@, place as int),
{
    let mut k: usize = place + 1;
    while k < seen.len()
        invariant
            place < k <= seen.len(),
            forall|m: int|
                place < m < k ==> (#[trigger] seen@[m]).kind@ != seen@[place as int].kind@
                    || seen@[m].id@ != seen@[place as int].id@,
        decreases seen.len() - k,
    {
        if same_text(seen[k].kind.as_str(), seen[place].kind.as_str()) && same_text(
            seen[k].id.as_str(),
            seen[place].id.as_str(),
        ) {
            assert(seen@[k as int].kind@ == seen@[place as int].kind@);
            return true;
        }
        k += 1;
    }
    false
}

fn changed(source: &MemorySourceRecord, seen: &RefreshSource) -> (result: bool)
    ensures
        result == has_changed(*source, *seen),
{
    if !same_text(source.source_kind.as_str(), seen.kind.as_str()) || !same_text(
        source.source_id.as_str(),
        seen.id.as_str(),
    ) {
        return false;
    }
    match (&source.observed_digest, &seen.observed) {
        (Some(recorded), Some(now)) => !same_text(recorded.as_str(), now.as_str()),
        _ => true,
    }
}

/// Whether no source of a version has changed, as far as the caller has looked.
pub fn version_is_fresh(sources: &Vec<MemorySourceRecord>, seen: &Vec<RefreshSource>) -> (fresh:
    bool)
    ensures
        fresh == is_fresh(sources@, seen@),
{
    let mut j: usize = 0;
    while j < seen.len()
        invariant
            j <= seen.len(),
            forall|i: int, b: int|
                0 <= i < sources@.len() && 0 <= b < j && !is_superseded(seen@, b) ==> !has_changed(
                    #[trigger] sources@[i],
                    #[trigger] seen@[b],
                ),
        decreases seen.len() - j,
    {
        if !superseded(seen, j) {
            let mut i: usize = 0;
            while i < sources.len()
                invariant
                    j < seen.len(),
                    i <= sources.len(),
                    !is_superseded(seen@, j as int),
                    forall|a: int|
                        0 <= a < i ==> !has_changed(#[trigger] sources@[a], seen@[j as int]),
                decreases sources.len() - i,
            {
                if changed(&sources[i], &seen[j]) {
                    assert(has_changed(sources@[i as int], seen@[j as int]));
                    return false;
                }
                i += 1;
            }
        }
        j += 1;
    }
    true
}

/// A version is stale if and only if the last that the caller saw of one of its sources is
/// not what was recorded: another digest, none, or one where none was recorded. What the
/// caller saw of anything else does not matter.
pub proof fn law_version_is_stale_where_a_source_has_changed(
    sources: Seq<MemorySourceRecord>,
    seen: RefreshSource,
)
    ensures
        is_fresh(sources, seq![seen]) <==> forall|i: int|
            0 <= i < sources.len() && (#[trigger] sources[i]).source_kind@ == seen.kind@
                && sources[i].source_id@ == seen.id@ ==> {
                &&& sources[i].observed_digest is Some
                &&& seen.observed is Some
                &&& sources[i].observed_digest->Some_0@ == seen.observed->Some_0@
            },
{
    let list = seq![seen];
    assert(!is_superseded(list, 0));
    if is_fresh(sources, list) {
        assert forall|i: int|
            0 <= i < sources.len() && (#[trigger] sources[i]).source_kind@ == seen.kind@
                && sources[i].source_id@ == seen.id@ implies sources[i].observed_digest is Some
            && seen.observed is Some && sources[i].observed_digest->Some_0@
            == seen.observed->Some_0@ by {
            assert(!has_changed(sources[i], list[0]));
        }
    }
}

/// What the caller saw last of a source is what counts: what it saw before of the same
/// source makes no difference.
pub proof fn law_last_look_at_a_source_counts(
    sources: Seq<MemorySourceRecord>,
    before: RefreshSource,
    last: RefreshSource,
)
    requires
        before.kind@ == last.kind@,
        before.id@ == last.id@,
    ensures
        is_fresh(sources, seq![before, last]) <==> is_fresh(sources, seq![last]),
{
    let both = seq![before, last];
    let one = seq![last];
    assert(both[1].kind@ == both[0].kind@ && both[1].id@ == both[0].id@);
    assert(is_superseded(both, 0));
    assert(!is_superseded(both, 1));
    assert(!is_superseded(one, 0));
    assert(one[0] == both[1]);
    if is_fresh(sources, both) {
        assert forall|i: int, j: int|
            0 <= i < sources.len() && 0 <= j < one.len() && !is_superseded(one, j) implies
            !has_changed(#[trigger] sources[i], #[trigger] one[j]) by {
            assert(!has_changed(sources[i], both[1]));
        }
    }
    if is_fresh(sources, one) {
        assert forall|i: int, j: int|
            0 <= i < sources.len() && 0 <= j < both.len() && !is_superseded(both, j) implies
            !has_changed(#[trigger] sources[i], #[trigger] both[j]) by {
            assert(!has_changed(sources[i], one[0]));
        }
    }
}

/// A caller that has read nothing again filters nothing, and looking at further
/// sources never makes a stale version fresh.
pub proof fn law_freshness_only_narrows(
    sources: Seq<MemorySourceRecord>,
    seen: Seq<RefreshSource>,
    more: Seq<RefreshSource>,
)
    requires
        forall|j: int, k: int|
            0 <= j < seen.len() && 0 <= k < more.len() ==> (#[trigger] seen[j]).kind@ != (
            #[trigger] more[k]).kind@ || seen[j].id@ != more[k].id@,
    ensures
        is_fresh(sources, seq![]),
        is_fresh(sources, seen + more) ==> is_fresh(sources, seen),
{
    let all = seen + more;
    assert forall|i: int, j: int|
        0 <= i < sources.len() && 0 <= j < seen.len() && !is_superseded(seen, j) && is_fresh(
            sources,
            all,
        ) implies !has_changed(#[trigger] sources[i], #[trigger] seen[j]) by {
        assert(all[j] == seen[j]);
        if is_superseded(all, j) {
            let k = choose|k: int|
                j < k < all.len() && (#[trigger] all[k]).kind@ == all[j].kind@ && all[k].id@
                    == all[j].id@;
            if k < seen.len() {
                assert(seen[k] == all[k]);
            } else {
                assert(more[k - seen.len()] == all[k]);
            }
        }
    }
}

/// An asset whose current version names sources, and what authority over it is read
/// from.
#[derive(Clone, Debug)]
pub struct WatchedAsset {
    pub id: String,
    pub status: MemoryAssetStatus,
    pub sources: Vec<MemorySourceRecord>,
    pub scope: AssetScopeRow,
    pub grant: Option<GrantRow>,
}

/// A source that a version names is not what the caller sees of it.
pub open spec fn names_changed_source(
    sources: Seq<MemorySourceRecord>,
    seen: Seq<RefreshSource>,
) -> bool {
    exists|i: int, j: int|
        0 <= i < sources.len() && 0 <= j < seen.len() && has_changed(
            #[trigger] sources[i],
            #[trigger] seen[j],
        )
}

/// An asset whose current version is stale for the principal: it is active in the
/// principal's project, a source that it names is not what the caller sees, and the
/// principal may invalidate it.
pub open spec fn is_stale(
    principal: StoreMemoryPrincipal,
    asset: WatchedAsset,
    seen: Seq<RefreshSource>,
) -> bool {
    &&& asset.status == MemoryAssetStatus::Active
    &&& bound_admits(asset.scope.project_id, principal.project_id)
    &&& names_changed_source(asset.sources@, seen)
    &&& authorization_fault(principal, "invalidate"@, Some(asset.scope), asset.grant) is None
}

fn find_changed_source(sources: &Vec<MemorySourceRecord>, seen: &Vec<RefreshSource>) -> (found:
    bool)
    ensures
        found == names_changed_source(sources@, seen@),
{
    let mut i: usize = 0;
    while i < sources.len()
        invariant
            i <= sources.len(),
            forall|a: int, b: int|
                0 <= a < i && 0 <= b < seen@.len() ==> !has_changed(
                    #[trigger] sources@[a],
                    #[trigger] seen@[b],
                ),
        decreases sources.len() - i,
    {
        let mut j: usize = 0;
        while j < seen.len()
            invariant
                i < sources.len(),
                j <= seen.len(),
                forall|b: int| 0 <= b < j ==> !has_changed(sources@[i as int], #[trigger] seen@[b]),
            decreases seen.len() - j,
        {
            if changed(&sources[i], &seen[j]) {
                assert(has_changed(sources@[i as int], seen@[j as int]));
                return true;
            }
            j += 1;
        }
        i += 1;
    }
    false
}

/// Whether an asset's current version is stale for the principal.
pub fn is_stale_asset(
    principal: &StoreMemoryPrincipal,
    asset: &WatchedAsset,
    seen: &Vec<RefreshSource>,
) -> (stale: bool)
    ensures
        stale == is_stale(*principal, *asset, seen@),
{
    asset.status == MemoryAssetStatus::Active && admitted(
        &asset.scope.project_id,
        &principal.project_id,
    ) && find_changed_source(&asset.sources, seen) && authorize_row(
        principal,
        "invalidate",
        &asset.scope,
        &asset.grant,
    ).is_ok()
}

/// The owner of an active asset finds it stale where a source that its version names is gone
/// or has another digest, and not where every source that was looked at is as it was.
pub proof fn law_owner_finds_changed_assets(
    principal: StoreMemoryPrincipal,
    asset: WatchedAsset,
    seen: RefreshSource,
    at: int,
)
    requires
        asset.scope.owner_id@ == principal.principal_id@,
        asset.scope.project_id is None,
        asset.scope.task_id is None,
        asset.scope.agent_profile_id is None,
        asset.scope.session_id is None,
        0 <= at < asset.sources@.len(),
        asset.sources@[at].source_kind@ == seen.kind@,
        asset.sources@[at].source_id@ == seen.id@,
    ensures
        asset.status == MemoryAssetStatus::Active && seen.observed is None ==> is_stale(
            principal,
            asset,
            seq![seen],
        ),
        asset.status == MemoryAssetStatus::Active && seen.observed is Some
            && asset.sources@[at].observed_digest is Some && seen.observed->Some_0@
            != asset.sources@[at].observed_digest->Some_0@ ==> is_stale(
            principal,
            asset,
            seq![seen],
        ),
        asset.status != MemoryAssetStatus::Active ==> !is_stale(principal, asset, seq![seen]),
        asset.sources@.len() == 1 && seen.observed is Some
            && asset.sources@[at].observed_digest is Some && seen.observed->Some_0@
            == asset.sources@[at].observed_digest->Some_0@ ==> !is_stale(
            principal,
            asset,
            seq![seen],
        ),
{
    let list = seq![seen];
    assert(list[0] == seen);
    if has_changed(asset.sources@[at], seen) {
        assert(has_changed(asset.sources@[at], list[0]));
        assert(names_changed_source(asset.sources@, list));
    }
}

/// An id is that of an asset whose current version is stale for the principal.
pub open spec fn is_stale_id(
    principal: StoreMemoryPrincipal,
    assets: Seq<WatchedAsset>,
    seen: Seq<RefreshSource>,
    id: Seq<char>,
) -> bool {
    exists|i: int|
        0 <= i < assets.len() && (#[trigger] assets[i]).id@ == id && is_stale(
            principal,
            assets[i],
            seen,
        )
}

/// The assets whose current version is stale for the principal, in ascending order.
pub fn memory_versions_with_changed_sources(
    principal: &StoreMemoryPrincipal,
    assets: &Vec<WatchedAsset>,
    seen: &Vec<RefreshSource>,
) -> (stale: Vec<String>)
    ensures
        ascending(texts(stale@)),
        forall|id: Seq<char>| #[trigger]
            texts(stale@).contains(id) <==> is_stale_id(*principal, assets@, seen@, id),
{
    let mut found: Vec<String> = Vec::new();
    let mut i: usize = 0;
    while i < assets.len()
        invariant
            i <= assets.len(),
            forall|k: int|
                0 <= k < i && is_stale(*principal, #[trigger] assets@[k], seen@) ==> texts(
                    found@,
                ).contains(assets@[k].id@),
            forall|m: int|
                0 <= m < found@.len() ==> is_stale_id(
                    *principal,
                    assets@,
                    seen@,
                    (#[trigger] found@[m])@,
                ),
        decreases assets.len() - i,
    {
        if is_stale_asset(principal, &assets[i], seen) {
            let ghost before = found@;
            found.push(assets[i].id.clone());
            proof {
                assert(texts(found@)[before.len() as int] == assets@[i as int].id@);
                assert forall|k: int|
                    0 <= k < i + 1 && is_stale(*principal, #[trigger] assets@[k], seen@) implies texts(
                    found@,
                ).contains(assets@[k].id@) by {
                    if k < i {
                        let m = choose|m: int|
                            0 <= m < texts(before).len() && texts(before)[m] == assets@[k].id@;
                        assert(texts(found@)[m] == texts(before)[m]);
                    }
                }
                assert forall|m: int| 0 <= m < found@.len() implies is_stale_id(
                    *principal,
                    assets@,
                    seen@,
                    (#[trigger] found@[m])@,
                ) by {
                    if m < before.len() {
                        assert(found@[m] == before[m]);
                    } else {
                        assert(assets@[i as int].id@ == found@[m]@);
                    }
                }
            }
        }
        i += 1;
    }
    let stale: Vec<String> = sorted_texts(&found);
    proof {
        assert forall|id: Seq<char>| #[trigger]
            texts(stale@).contains(id) <==> is_stale_id(*principal, assets@, seen@, id) by {
            if texts(found@).contains(id) {
                let m = choose|m: int| 0 <= m < texts(found@).len() && texts(found@)[m] == id;
                assert(found@[m]@ == id);
            }
        }
    }
    stale
}

/// The id of every stale asset is reported, and of no other.
pub proof fn law_stale_assets_are_reported(
    principal: StoreMemoryPrincipal,
    assets: Seq<WatchedAsset>,
    seen: Seq<RefreshSource>,
    i: int,
)
    requires
        0 <= i < assets.len(),
        forall|k: int| 0 <= k < assets.len() && k != i ==> (#[trigger] assets[k]).id@
            != assets[i].id@,
    ensures
        is_stale_id(principal, assets, seen, assets[i].id@) <==> is_stale(
            principal,
            assets[i],
            seen,
        ),
{
}

} // verus!

//! What was read of a home: state rows, catalog rows, rollouts and the global state.

use crate::json;
use crate::json::{Json, JsonView};
use crate::model::Model;
use crate::ordered::{OrderedMap, OrderedSet};
use vstd::prelude::*;

verus! {

/// A source of sessions and how reading it went.
#[derive(Clone, Debug, PartialEq, Eq)]
pub struct SourceSummary {
    pub name: String,
    pub path: String,
    pub records: usize,
    pub readable: bool,
    pub note: String,
}

/// What a `SourceSummary` stands for.
#[verifier::ext_equal]
pub struct SourceSummaryView {
    pub name: Seq<char>,
    pub path: Seq<char>,
    pub records: usize,
    pub readable: bool,
    pub note: Seq<char>,
}

impl DeepView for SourceSummary {
    type V = SourceSummaryView;

    open spec fn deep_view(&self) -> SourceSummaryView {
        SourceSummaryView {
            name: self.name.deep_view(),
            path: self.path.deep_view(),
            records: self.records.deep_view(),
            readable: self.readable.deep_view(),
            note: self.note.deep_view(),
        }
    }
}

impl Model for SourceSummary {
    fn copy_of(&self) -> (r: Self) {
        SourceSummary {
            name: self.name.copy_of(),
            path: self.path.copy_of(),
            records: self.records.copy_of(),
            readable: self.readable.copy_of(),
            note: self.note.copy_of(),
        }
    }

    fn same_as(&self, other: &Self) -> (r: bool) {
        self.name.same_as(&other.name)
            && self.path.same_as(&other.path)
            && self.records.same_as(&other.records)
            && self.readable.same_as(&other.readable)
            && self.note.same_as(&other.note)
    }
}

/// A row of the state database.
#[derive(Clone, Debug, PartialEq, Eq)]
pub struct ThreadRow {
    pub id: String,
    pub rollout_path: String,
    pub provider: String,
    pub archived: bool,
    pub source: String,
    pub thread_source: String,
    pub agent_role: Option<String>,
    pub title: String,
    pub cwd: String,
    /// The time of the last change, in whole seconds.
    pub updated_at: i64,
    pub first_user_message: String,
    pub has_user_event: bool,
}

/// What a `ThreadRow` stands for.
#[verifier::ext_equal]
pub struct ThreadRowView {
    pub id: Seq<char>,
    pub rollout_path: Seq<char>,
    pub provider: Seq<char>,
    pub archived: bool,
    pub source: Seq<char>,
    pub thread_source: Seq<char>,
    pub agent_role: Option<Seq<char>>,
    pub title: Seq<char>,
    pub cwd: Seq<char>,
    pub updated_at: i64,
    pub first_user_message: Seq<char>,
    pub has_user_event: bool,
}

impl DeepView for ThreadRow {
    type V = ThreadRowView;

    open spec fn deep_view(&self) -> ThreadRowView {
        ThreadRowView {
            id: self.id.deep_view(),
            rollout_path: self.rollout_path.deep_view(),
            provider: self.provider.deep_view(),
            archived: self.archived.deep_view(),
            source: self.source.deep_view(),
            thread_source: self.thread_source.deep_view(),
            agent_role: self.agent_role.deep_view(),
            title: self.title.deep_view(),
            cwd: self.cwd.deep_view(),
            updated_at: self.updated_at.deep_view(),
            first_user_message: self.first_user_message.deep_view(),
            has_user_event: self.has_user_event.deep_view(),
        }
    }
}

impl Model for ThreadRow {
    fn copy_of(&self) -> (r: Self) {
        ThreadRow {
            id: self.id.copy_of(),
            rollout_path: self.rollout_path.copy_of(),
            provider: self.provider.copy_of(),
            archived: self.archived.copy_of(),
            source: self.source.copy_of(),
            thread_source: self.thread_source.copy_of(),
            agent_role: self.agent_role.copy_of(),
            title: self.title.copy_of(),
            cwd: self.cwd.copy_of(),
            updated_at: self.updated_at.copy_of(),
            first_user_message: self.first_user_message.copy_of(),
            has_user_event: self.has_user_event.copy_of(),
        }
    }

    fn same_as(&self, other: &Self) -> (r: bool) {
        self.id.same_as(&other.id)
            && self.rollout_path.same_as(&other.rollout_path)
            && self.provider.same_as(&other.provider)
            && self.archived.same_as(&other.archived)
            && self.source.same_as(&other.source)
            && self.thread_source.same_as(&other.thread_source)
            && self.agent_role.same_as(&other.agent_role)
            && self.title.same_as(&other.title)
            && self.cwd.same_as(&other.cwd)
            && self.updated_at.same_as(&other.updated_at)
            && self.first_user_message.same_as(&other.first_user_message)
            && self.has_user_event.same_as(&other.has_user_event)
    }
}

/// A row of the desktop catalog.
#[derive(Clone, Debug, PartialEq, Eq)]
pub struct CatalogRow {
    pub host_id: String,
    pub thread_id: String,
    pub provider: String,
    pub missing_candidate: bool,
    pub source_kind: String,
    pub source_detail: String,
    pub cwd: String,
}

/// What a `CatalogRow` stands for.
#[verifier::ext_equal]
pub struct CatalogRowView {
    pub host_id: Seq<char>,
    pub thread_id: Seq<char>,
    pub provider: Seq<char>,
    pub missing_candidate: bool,
    pub source_kind: Seq<char>,
    pub source_detail: Seq<char>,
    pub cwd: Seq<char>,
}

impl DeepView for CatalogRow {
    type V = CatalogRowView;

    open spec fn deep_view(&self) -> CatalogRowView {
        CatalogRowView {
            host_id: self.host_id.deep_view(),
            thread_id: self.thread_id.deep_view(),
            provider: self.provider.deep_view(),
            missing_candidate: self.missing_candidate.deep_view(),
            source_kind: self.source_kind.deep_view(),
            source_detail: self.source_detail.deep_view(),
            cwd: self.cwd.deep_view(),
        }
    }
}

impl Model for CatalogRow {
    fn copy_of(&self) -> (r: Self) {
        CatalogRow {
            host_id: self.host_id.copy_of(),
            thread_id: self.thread_id.copy_of(),
            provider: self.provider.copy_of(),
            missing_candidate: self.missing_candidate.copy_of(),
            source_kind: self.source_kind.copy_of(),
            source_detail: self.source_detail.copy_of(),
            cwd: self.cwd.copy_of(),
        }
    }

    fn same_as(&self, other: &Self) -> (r: bool) {
        self.host_id.same_as(&other.host_id)
            && self.thread_id.same_as(&other.thread_id)
            && self.provider.same_as(&other.provider)
            && self.missing_candidate.same_as(&other.missing_candidate)
            && self.source_kind.same_as(&other.source_kind)
            && self.source_detail.same_as(&other.source_detail)
            && self.cwd.same_as(&other.cwd)
    }
}

/// What a rollout says of the repository it was made in.
#[derive(Clone, Debug, PartialEq, Eq)]
pub struct GitInfo {
    pub commit_hash: Option<String>,
    pub branch: Option<String>,
    pub repository_url: Option<String>,
}

/// What a `GitInfo` stands for.
#[verifier::ext_equal]
pub struct GitInfoView {
    pub commit_hash: Option<Seq<char>>,
    pub branch: Option<Seq<char>>,
    pub repository_url: Option<Seq<char>>,
}

impl DeepView for GitInfo {
    type V = GitInfoView;

    open spec fn deep_view(&self) -> GitInfoView {
        GitInfoView {
            commit_hash: self.commit_hash.deep_view(),
            branch: self.branch.deep_view(),
            repository_url: self.repository_url.deep_view(),
        }
    }
}

impl Model for GitInfo {
    fn copy_of(&self) -> (r: Self) {
        GitInfo {
            commit_hash: self.commit_hash.copy_of(),
            branch: self.branch.copy_of(),
            repository_url: self.repository_url.copy_of(),
        }
    }

    fn same_as(&self, other: &Self) -> (r: bool) {
        self.commit_hash.same_as(&other.commit_hash)
            && self.branch.same_as(&other.branch)
            && self.repository_url.same_as(&other.repository_url)
    }
}

/// The first record of a rollout file.
#[derive(Debug, PartialEq, Eq)]
pub struct PrimaryRollout {
    pub id: String,
    pub path: String,
    pub archived: bool,
    pub model_provider: Option<String>,
    /// The record has no provider field at all.
    pub provider_field_missing: bool,
    pub source: Option<Json>,
    pub thread_source: Option<Json>,
    pub sandbox_policy: Option<Json>,
    /// What the record says of the place it was made in, as JSON text.
    pub locality: String,
    pub cwd: Option<String>,
    pub title: Option<String>,
    pub first_user_message: Option<String>,
    pub preview: Option<String>,
    pub session_timestamp: Option<String>,
    /// The time of the last change of the file, in seconds since the epoch.
    pub updated_at_fallback: Option<u64>,
    pub git: Option<GitInfo>,
    pub approval_mode: Option<String>,
    pub cli_version: Option<String>,
}

/// What a `PrimaryRollout` stands for.
#[verifier::ext_equal]
pub struct PrimaryRolloutView {
    pub id: Seq<char>,
    pub path: Seq<char>,
    pub archived: bool,
    pub model_provider: Option<Seq<char>>,
    pub provider_field_missing: bool,
    pub source: Option<JsonView>,
    pub thread_source: Option<JsonView>,
    pub sandbox_policy: Option<JsonView>,
    pub locality: Seq<char>,
    pub cwd: Option<Seq<char>>,
    pub title: Option<Seq<char>>,
    pub first_user_message: Option<Seq<char>>,
    pub preview: Option<Seq<char>>,
    pub session_timestamp: Option<Seq<char>>,
    pub updated_at_fallback: Option<u64>,
    pub git: Option<GitInfoView>,
    pub approval_mode: Option<Seq<char>>,
    pub cli_version: Option<Seq<char>>,
}

impl DeepView for PrimaryRollout {
    type V = PrimaryRolloutView;

    open spec fn deep_view(&self) -> PrimaryRolloutView {
        PrimaryRolloutView {
            id: self.id.deep_view(),
            path: self.path.deep_view(),
            archived: self.archived.deep_view(),
            model_provider: self.model_provider.deep_view(),
            provider_field_missing: self.provider_field_missing.deep_view(),
            source: self.source.deep_view(),
            thread_source: self.thread_source.deep_view(),
            sandbox_policy: self.sandbox_policy.deep_view(),
            locality: self.locality.deep_view(),
            cwd: self.cwd.deep_view(),
            title: self.title.deep_view(),
            first_user_message: self.first_user_message.deep_view(),
            preview: self.preview.deep_view(),
            session_timestamp: self.session_timestamp.deep_view(),
            updated_at_fallback: self.updated_at_fallback.deep_view(),
            git: self.git.deep_view(),
            approval_mode: self.approval_mode.deep_view(),
            cli_version: self.cli_version.deep_view(),
        }
    }
}

impl Model for PrimaryRollout {
    fn copy_of(&self) -> (r: Self) {
        PrimaryRollout {
            id: self.id.copy_of(),
            path: self.path.copy_of(),
            archived: self.archived.copy_of(),
            model_provider: self.model_provider.copy_of(),
            provider_field_missing: self.provider_field_missing.copy_of(),
            source: self.source.copy_of(),
            thread_source: self.thread_source.copy_of(),
            sandbox_policy: self.sandbox_policy.copy_of(),
            locality: self.locality.copy_of(),
            cwd: self.cwd.copy_of(),
            title: self.title.copy_of(),
            first_user_message: self.first_user_message.copy_of(),
            preview: self.preview.copy_of(),
            session_timestamp: self.session_timestamp.copy_of(),
            updated_at_fallback: self.updated_at_fallback.copy_of(),
            git: self.git.copy_of(),
            approval_mode: self.approval_mode.copy_of(),
            cli_version: self.cli_version.copy_of(),
        }
    }

    fn same_as(&self, other: &Self) -> (r: bool) {
        self.id.same_as(&other.id)
            && self.path.same_as(&other.path)
            && self.archived.same_as(&other.archived)
            && self.model_provider.same_as(&other.model_provider)
            && self.provider_field_missing.same_as(&other.provider_field_missing)
            && self.source.same_as(&other.source)
            && self.thread_source.same_as(&other.thread_source)
            && self.sandbox_policy.same_as(&other.sandbox_policy)
            && self.locality.same_as(&other.locality)
            && self.cwd.same_as(&other.cwd)
            && self.title.same_as(&other.title)
            && self.first_user_message.same_as(&other.first_user_message)
            && self.preview.same_as(&other.preview)
            && self.session_timestamp.same_as(&other.session_timestamp)
            && self.updated_at_fallback.same_as(&other.updated_at_fallback)
            && self.git.same_as(&other.git)
            && self.approval_mode.same_as(&other.approval_mode)
            && self.cli_version.same_as(&other.cli_version)
    }
}

/// What the desktop's global state says of workspaces.
#[derive(Debug, PartialEq, Eq)]
pub struct GlobalStateSnapshot {
    pub readable: bool,
    pub sha256: Option<String>,
    pub saved_workspace_roots: Vec<String>,
    pub thread_workspace_root_hints: OrderedMap<String, Json>,
}

/// What a `GlobalStateSnapshot` stands for.
#[verifier::ext_equal]
pub struct GlobalStateSnapshotView {
    pub readable: bool,
    pub sha256: Option<Seq<char>>,
    pub saved_workspace_roots: Seq<Seq<char>>,
    pub thread_workspace_root_hints: Map<Seq<char>, JsonView>,
}

impl DeepView for GlobalStateSnapshot {
    type V = GlobalStateSnapshotView;

    open spec fn deep_view(&self) -> GlobalStateSnapshotView {
        GlobalStateSnapshotView {
            readable: self.readable.deep_view(),
            sha256: self.sha256.deep_view(),
            saved_workspace_roots: self.saved_workspace_roots.deep_view(),
            thread_workspace_root_hints: self.thread_workspace_root_hints.deep_view(),
        }
    }
}

impl Model for GlobalStateSnapshot {
    fn copy_of(&self) -> (r: Self) {
        GlobalStateSnapshot {
            readable: self.readable.copy_of(),
            sha256: self.sha256.copy_of(),
            saved_workspace_roots: self.saved_workspace_roots.copy_of(),
            thread_workspace_root_hints: self.thread_workspace_root_hints.copy_of(),
        }
    }

    fn same_as(&self, other: &Self) -> (r: bool) {
        self.readable.same_as(&other.readable)
            && self.sha256.same_as(&other.sha256)
            && self.saved_workspace_roots.same_as(&other.saved_workspace_roots)
            && self.thread_workspace_root_hints.same_as(&other.thread_workspace_root_hints)
    }
}

/// Everything that was read of a home.
#[derive(Debug, PartialEq, Eq)]
pub struct Snapshot {
    pub threads: Vec<ThreadRow>,
    pub catalog: Vec<CatalogRow>,
    pub rollouts: OrderedSet<String>,
    pub valid_active_rollouts: OrderedSet<String>,
    pub valid_archived_rollouts: OrderedSet<String>,
    pub rollout_providers: OrderedMap<String, OrderedSet<String>>,
    pub rollout_provider_values: OrderedMap<String, String>,
    pub rollout_sources: OrderedMap<String, Json>,
    pub rollout_thread_sources: OrderedMap<String, Json>,
    pub rollout_cwds: OrderedMap<String, String>,
    pub rollout_locality: OrderedMap<String, String>,
    pub rollout_paths: OrderedMap<String, String>,
    pub primary_rollouts: OrderedMap<String, PrimaryRollout>,
    pub global_state: GlobalStateSnapshot,
    pub session_index: OrderedSet<String>,
    pub jsonl_files: Vec<String>,
    pub sqlite_readable: usize,
    pub threads_readable: bool,
    pub catalog_readable: bool,
    pub sources: Vec<SourceSummary>,
}

/// What a `Snapshot` stands for.
#[verifier::ext_equal]
pub struct SnapshotView {
    pub threads: Seq<ThreadRowView>,
    pub catalog: Seq<CatalogRowView>,
    pub rollouts: Set<Seq<char>>,
    pub valid_active_rollouts: Set<Seq<char>>,
    pub valid_archived_rollouts: Set<Seq<char>>,
    pub rollout_providers: Map<Seq<char>, Set<Seq<char>>>,
    pub rollout_provider_values: Map<Seq<char>, Seq<char>>,
    pub rollout_sources: Map<Seq<char>, JsonView>,
    pub rollout_thread_sources: Map<Seq<char>, JsonView>,
    pub rollout_cwds: Map<Seq<char>, Seq<char>>,
    pub rollout_locality: Map<Seq<char>, Seq<char>>,
    pub rollout_paths: Map<Seq<char>, Seq<char>>,
    pub primary_rollouts: Map<Seq<char>, PrimaryRolloutView>,
    pub global_state: GlobalStateSnapshotView,
    pub session_index: Set<Seq<char>>,
    pub jsonl_files: Seq<Seq<char>>,
    pub sqlite_readable: usize,
    pub threads_readable: bool,
    pub catalog_readable: bool,
    pub sources: Seq<SourceSummaryView>,
}

impl DeepView for Snapshot {
    type V = SnapshotView;

    open spec fn deep_view(&self) -> SnapshotView {
        SnapshotView {
            threads: self.threads.deep_view(),
            catalog: self.catalog.deep_view(),
            rollouts: self.rollouts.deep_view(),
            valid_active_rollouts: self.valid_active_rollouts.deep_view(),
            valid_archived_rollouts: self.valid_archived_rollouts.deep_view(),
            rollout_providers: self.rollout_providers.deep_view(),
            rollout_provider_values: self.rollout_provider_values.deep_view(),
            rollout_sources: self.rollout_sources.deep_view(),
            rollout_thread_sources: self.rollout_thread_sources.deep_view(),
            rollout_cwds: self.rollout_cwds.deep_view(),
            rollout_locality: self.rollout_locality.deep_view(),
            rollout_paths: self.rollout_paths.deep_view(),
            primary_rollouts: self.primary_rollouts.deep_view(),
            global_state: self.global_state.deep_view(),
            session_index: self.session_index.deep_view(),
            jsonl_files: self.jsonl_files.deep_view(),
            sqlite_readable: self.sqlite_readable.deep_view(),
            threads_readable: self.threads_readable.deep_view(),
            catalog_readable: self.catalog_readable.deep_view(),
            sources: self.sources.deep_view(),
        }
    }
}

/// A session with a rollout, and whether the state database has a row for it.
#[derive(Clone, Debug, PartialEq, Eq)]
pub struct BackedThread {
    pub thread: ThreadRow,
    pub state_present: bool,
}

/// What a `BackedThread` stands for.
#[verifier::ext_equal]
pub struct BackedThreadView {
    pub thread: ThreadRowView,
    pub state_present: bool,
}

impl DeepView for BackedThread {
    type V = BackedThreadView;

    open spec fn deep_view(&self) -> BackedThreadView {
        BackedThreadView {
            thread: self.thread.deep_view(),
            state_present: self.state_present.deep_view(),
        }
    }
}

impl Model for BackedThread {
    fn copy_of(&self) -> (r: Self) {
        BackedThread {
            thread: self.thread.copy_of(),
            state_present: self.state_present.copy_of(),
        }
    }

    fn same_as(&self, other: &Self) -> (r: bool) {
        self.thread.same_as(&other.thread)
            && self.state_present.same_as(&other.state_present)
    }
}

/// The ids of a snapshot, by what may be done with them.
#[derive(Debug, PartialEq, Eq)]
pub struct SessionCohorts {
    pub local_catalog_ids: OrderedSet<String>,
    pub remote_catalog_ids: OrderedSet<String>,
    pub remote_session_ids: OrderedSet<String>,
    pub remote_excluded_thread_ids: OrderedSet<String>,
    pub ordinary_active_ids: OrderedSet<String>,
    pub recoverable_ids: OrderedSet<String>,
    pub recoverable_indexed_ids: OrderedSet<String>,
    pub session_index_covered_ids: OrderedSet<String>,
    pub missing_rollout_ids: OrderedSet<String>,
}

/// What a `SessionCohorts` stands for.
#[verifier::ext_equal]
pub struct SessionCohortsView {
    pub local_catalog_ids: Set<Seq<char>>,
    pub remote_catalog_ids: Set<Seq<char>>,
    pub remote_session_ids: Set<Seq<char>>,
    pub remote_excluded_thread_ids: Set<Seq<char>>,
    pub ordinary_active_ids: Set<Seq<char>>,
    pub recoverable_ids: Set<Seq<char>>,
    pub recoverable_indexed_ids: Set<Seq<char>>,
    pub session_index_covered_ids: Set<Seq<char>>,
    pub missing_rollout_ids: Set<Seq<char>>,
}

impl DeepView for SessionCohorts {
    type V = SessionCohortsView;

    open spec fn deep_view(&self) -> SessionCohortsView {
        SessionCohortsView {
            local_catalog_ids: self.local_catalog_ids.deep_view(),
            remote_catalog_ids: self.remote_catalog_ids.deep_view(),
            remote_session_ids: self.remote_session_ids.deep_view(),
            remote_excluded_thread_ids: self.remote_excluded_thread_ids.deep_view(),
            ordinary_active_ids: self.ordinary_active_ids.deep_view(),
            recoverable_ids: self.recoverable_ids.deep_view(),
            recoverable_indexed_ids: self.recoverable_indexed_ids.deep_view(),
            session_index_covered_ids: self.session_index_covered_ids.deep_view(),
            missing_rollout_ids: self.missing_rollout_ids.deep_view(),
        }
    }
}

/// Every valid rollout has the metadata of its first record.
pub open spec fn rollouts_described(snapshot: SnapshotView) -> bool {
    forall|id: Seq<char>|
        (snapshot.valid_active_rollouts.contains(id) || snapshot.valid_archived_rollouts.contains(
            id,
        )) ==> snapshot.primary_rollouts.dom().contains(id) && (
        #[trigger] snapshot.primary_rollouts[id]).id == id
}

/// Every rollout stands under its own id, its path is that of its first record, and its source is
/// sound JSON.
pub open spec fn rollouts_filed(snapshot: SnapshotView) -> bool {
    forall|id: Seq<char>| #[trigger]
        snapshot.primary_rollouts.dom().contains(id) ==> {
            &&& snapshot.primary_rollouts[id].id == id
            &&& snapshot.rollout_paths.dom().contains(id)
            &&& snapshot.rollout_paths[id] == snapshot.primary_rollouts[id].path
            &&& snapshot.primary_rollouts[id].thread_source matches Some(source) ==> json::sound(
                source,
            )
        }
}

/// What holds of every home that was read: its rollouts are described and filed.
pub open spec fn consistent(snapshot: SnapshotView) -> bool {
    rollouts_described(snapshot) && rollouts_filed(snapshot)
}

} // verus!

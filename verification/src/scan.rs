//! Scanning a home: how many sessions there are, what is wrong with them, and whose they are.

use crate::backups::{BackupCleanupResult, BackupCleanupResultView};
use crate::journal::{PendingOperation, PendingOperationView};
use crate::effects;
use crate::locality;
use crate::locality::{
    catalog_row_is_local, collect_local_rows, is_skipped_thread, rollout_source_not_ordinary,
};
use crate::locks;
use crate::locks::{
    inspect_lock, LockSummary, LockSummaryView, OperationLockStatus, OperationLockStatusView,
};
use crate::model;
use crate::model::Model;
use crate::ordered;
use crate::ordered::OrderedSet;
use crate::planning;
use crate::preview;
use crate::preview::{
    eligible_projection_sessions_with_cohorts, ProjectionPreviewResult, ProjectionPreviewResultView,
};
use crate::processes::{BlockingProcess, BlockingProcessView};
use crate::projection;
use crate::projection::{
    CatalogState, CatalogStateView, EligibleSession, EligibleSessionView, ProjectionStore,
    ProjectionStoreView, SourceProvider, SourceProviderView,
};
use crate::providers;
use crate::providers::{
    configured_current_provider, configured_providers, provider_color, provider_name,
    source_provider, validate_provider,
};
use crate::records::{
    CatalogRowView, SessionCohorts, SessionCohortsView, Snapshot, SnapshotView, SourceSummary,
    SourceSummaryView, ThreadRow, ThreadRowView,
};
use crate::repair;
use crate::repair::note_failed_cleanup;
use crate::sessions;
use crate::sessions::{
    add_all, local_session_summaries_with_cohorts, session_cohorts, LocalSessionSummary,
    LocalSessionSummaryView,
};
use crate::text;
use crate::text::{has_text, same, to_lower};
use crate::verification;
use vstd::prelude::*;

verus! {

/// A provider as it is shown, with its sessions.
#[derive(Clone, Debug, PartialEq, Eq)]
pub struct ProviderSummary {
    pub id: String,
    pub name: String,
    pub color: String,
    /// How many sessions came from it.
    pub source_sessions: usize,
    /// How many of those show under the current provider.
    pub currently_visible: usize,
    pub status: String,
}

/// What a `ProviderSummary` stands for.
#[verifier::ext_equal]
pub struct ProviderSummaryView {
    pub id: Seq<char>,
    pub name: Seq<char>,
    pub color: Seq<char>,
    pub source_sessions: usize,
    pub currently_visible: usize,
    pub status: Seq<char>,
}

impl DeepView for ProviderSummary {
    type V = ProviderSummaryView;

    open spec fn deep_view(&self) -> ProviderSummaryView {
        ProviderSummaryView {
            id: self.id.deep_view(),
            name: self.name.deep_view(),
            color: self.color.deep_view(),
            source_sessions: self.source_sessions.deep_view(),
            currently_visible: self.currently_visible.deep_view(),
            status: self.status.deep_view(),
        }
    }
}

impl Model for ProviderSummary {
    fn copy_of(&self) -> (r: Self) {
        ProviderSummary {
            id: self.id.copy_of(),
            name: self.name.copy_of(),
            color: self.color.copy_of(),
            source_sessions: self.source_sessions.copy_of(),
            currently_visible: self.currently_visible.copy_of(),
            status: self.status.copy_of(),
        }
    }

    fn same_as(&self, other: &Self) -> (r: bool) {
        self.id.same_as(&other.id)
            && self.name.same_as(&other.name)
            && self.color.same_as(&other.color)
            && self.source_sessions.same_as(&other.source_sessions)
            && self.currently_visible.same_as(&other.currently_visible)
            && self.status.same_as(&other.status)
    }
}

/// What a scan of a home found.
#[derive(Debug, PartialEq, Eq)]
pub struct ScanResult {
    pub codex_home: String,
    pub current_provider: String,
    pub providers: Vec<ProviderSummary>,
    pub sessions: usize,
    pub discovered_sessions: usize,
    pub orphaned_sessions: usize,
    pub archived_sessions: usize,
    pub ordinary_sessions: usize,
    pub recoverable_sessions: usize,
    pub recoverable_indexed: usize,
    pub session_index_covered: usize,
    pub remote_sessions: usize,
    pub remote_excluded_sessions: usize,
    pub automated_sessions: usize,
    pub rollout_sessions: usize,
    pub valid_rollout_sessions: usize,
    pub indexed: usize,
    pub session_indexed: usize,
    pub drift: usize,
    pub provider_drift: usize,
    pub rollout_provider_drift: usize,
    pub missing_catalog: usize,
    pub missing_rollout: usize,
    pub skipped: usize,
    pub sqlite: usize,
    pub jsonl: usize,
    pub lock: String,
    pub lock_detail: LockSummary,
    pub needs_admin: bool,
    pub last_backup: Option<String>,
    pub pending_operation: Option<PendingOperation>,
    pub sources: Vec<SourceSummary>,
}

/// What a `ScanResult` stands for.
#[verifier::ext_equal]
pub struct ScanResultView {
    pub codex_home: Seq<char>,
    pub current_provider: Seq<char>,
    pub providers: Seq<ProviderSummaryView>,
    pub sessions: usize,
    pub discovered_sessions: usize,
    pub orphaned_sessions: usize,
    pub archived_sessions: usize,
    pub ordinary_sessions: usize,
    pub recoverable_sessions: usize,
    pub recoverable_indexed: usize,
    pub session_index_covered: usize,
    pub remote_sessions: usize,
    pub remote_excluded_sessions: usize,
    pub automated_sessions: usize,
    pub rollout_sessions: usize,
    pub valid_rollout_sessions: usize,
    pub indexed: usize,
    pub session_indexed: usize,
    pub drift: usize,
    pub provider_drift: usize,
    pub rollout_provider_drift: usize,
    pub missing_catalog: usize,
    pub missing_rollout: usize,
    pub skipped: usize,
    pub sqlite: usize,
    pub jsonl: usize,
    pub lock: Seq<char>,
    pub lock_detail: LockSummaryView,
    pub needs_admin: bool,
    pub last_backup: Option<Seq<char>>,
    pub pending_operation: Option<PendingOperationView>,
    pub sources: Seq<SourceSummaryView>,
}

impl DeepView for ScanResult {
    type V = ScanResultView;

    open spec fn deep_view(&self) -> ScanResultView {
        ScanResultView {
            codex_home: self.codex_home.deep_view(),
            current_provider: self.current_provider.deep_view(),
            providers: self.providers.deep_view(),
            sessions: self.sessions.deep_view(),
            discovered_sessions: self.discovered_sessions.deep_view(),
            orphaned_sessions: self.orphaned_sessions.deep_view(),
            archived_sessions: self.archived_sessions.deep_view(),
            ordinary_sessions: self.ordinary_sessions.deep_view(),
            recoverable_sessions: self.recoverable_sessions.deep_view(),
            recoverable_indexed: self.recoverable_indexed.deep_view(),
            session_index_covered: self.session_index_covered.deep_view(),
            remote_sessions: self.remote_sessions.deep_view(),
            remote_excluded_sessions: self.remote_excluded_sessions.deep_view(),
            automated_sessions: self.automated_sessions.deep_view(),
            rollout_sessions: self.rollout_sessions.deep_view(),
            valid_rollout_sessions: self.valid_rollout_sessions.deep_view(),
            indexed: self.indexed.deep_view(),
            session_indexed: self.session_indexed.deep_view(),
            drift: self.drift.deep_view(),
            provider_drift: self.provider_drift.deep_view(),
            rollout_provider_drift: self.rollout_provider_drift.deep_view(),
            missing_catalog: self.missing_catalog.deep_view(),
            missing_rollout: self.missing_rollout.deep_view(),
            skipped: self.skipped.deep_view(),
            sqlite: self.sqlite.deep_view(),
            jsonl: self.jsonl.deep_view(),
            lock: self.lock.deep_view(),
            lock_detail: self.lock_detail.deep_view(),
            needs_admin: self.needs_admin.deep_view(),
            last_backup: self.last_backup.deep_view(),
            pending_operation: self.pending_operation.deep_view(),
            sources: self.sources.deep_view(),
        }
    }
}

impl Model for ScanResult {
    fn copy_of(&self) -> (r: Self) {
        ScanResult {
            codex_home: self.codex_home.copy_of(),
            current_provider: self.current_provider.copy_of(),
            providers: self.providers.copy_of(),
            sessions: self.sessions.copy_of(),
            discovered_sessions: self.discovered_sessions.copy_of(),
            orphaned_sessions: self.orphaned_sessions.copy_of(),
            archived_sessions: self.archived_sessions.copy_of(),
            ordinary_sessions: self.ordinary_sessions.copy_of(),
            recoverable_sessions: self.recoverable_sessions.copy_of(),
            recoverable_indexed: self.recoverable_indexed.copy_of(),
            session_index_covered: self.session_index_covered.copy_of(),
            remote_sessions: self.remote_sessions.copy_of(),
            remote_excluded_sessions: self.remote_excluded_sessions.copy_of(),
            automated_sessions: self.automated_sessions.copy_of(),
            rollout_sessions: self.rollout_sessions.copy_of(),
            valid_rollout_sessions: self.valid_rollout_sessions.copy_of(),
            indexed: self.indexed.copy_of(),
            session_indexed: self.session_indexed.copy_of(),
            drift: self.drift.copy_of(),
            provider_drift: self.provider_drift.copy_of(),
            rollout_provider_drift: self.rollout_provider_drift.copy_of(),
            missing_catalog: self.missing_catalog.copy_of(),
            missing_rollout: self.missing_rollout.copy_of(),
            skipped: self.skipped.copy_of(),
            sqlite: self.sqlite.copy_of(),
            jsonl: self.jsonl.copy_of(),
            lock: self.lock.copy_of(),
            lock_detail: self.lock_detail.copy_of(),
            needs_admin: self.needs_admin.copy_of(),
            last_backup: self.last_backup.copy_of(),
            pending_operation: self.pending_operation.copy_of(),
            sources: self.sources.copy_of(),
        }
    }

    fn same_as(&self, other: &Self) -> (r: bool) {
        self.codex_home.same_as(&other.codex_home)
            && self.current_provider.same_as(&other.current_provider)
            && self.providers.same_as(&other.providers)
            && self.sessions.same_as(&other.sessions)
            && self.discovered_sessions.same_as(&other.discovered_sessions)
            && self.orphaned_sessions.same_as(&other.orphaned_sessions)
            && self.archived_sessions.same_as(&other.archived_sessions)
            && self.ordinary_sessions.same_as(&other.ordinary_sessions)
            && self.recoverable_sessions.same_as(&other.recoverable_sessions)
            && self.recoverable_indexed.same_as(&other.recoverable_indexed)
            && self.session_index_covered.same_as(&other.session_index_covered)
            && self.remote_sessions.same_as(&other.remote_sessions)
            && self.remote_excluded_sessions.same_as(&other.remote_excluded_sessions)
            && self.automated_sessions.same_as(&other.automated_sessions)
            && self.rollout_sessions.same_as(&other.rollout_sessions)
            && self.valid_rollout_sessions.same_as(&other.valid_rollout_sessions)
            && self.indexed.same_as(&other.indexed)
            && self.session_indexed.same_as(&other.session_indexed)
            && self.drift.same_as(&other.drift)
            && self.provider_drift.same_as(&other.provider_drift)
            && self.rollout_provider_drift.same_as(&other.rollout_provider_drift)
            && self.missing_catalog.same_as(&other.missing_catalog)
            && self.missing_rollout.same_as(&other.missing_rollout)
            && self.skipped.same_as(&other.skipped)
            && self.sqlite.same_as(&other.sqlite)
            && self.jsonl.same_as(&other.jsonl)
            && self.lock.same_as(&other.lock)
            && self.lock_detail.same_as(&other.lock_detail)
            && self.needs_admin.same_as(&other.needs_admin)
            && self.last_backup.same_as(&other.last_backup)
            && self.pending_operation.same_as(&other.pending_operation)
            && self.sources.same_as(&other.sources)
    }
}

/// What a home holds beside its sessions, as far as a scan tells of it.
#[derive(Debug, PartialEq, Eq)]
pub struct HomeNotes {
    /// The shown path of the home.
    pub home: String,
    pub lock: LockSummary,
    /// How the global state was read.
    pub global_state: SourceSummary,
    pub last_backup: Option<String>,
    pub pending_operation: Option<PendingOperation>,
}

/// What a `HomeNotes` stands for.
#[verifier::ext_equal]
pub struct HomeNotesView {
    pub home: Seq<char>,
    pub lock: LockSummaryView,
    pub global_state: SourceSummaryView,
    pub last_backup: Option<Seq<char>>,
    pub pending_operation: Option<PendingOperationView>,
}

impl DeepView for HomeNotes {
    type V = HomeNotesView;

    open spec fn deep_view(&self) -> HomeNotesView {
        HomeNotesView {
            home: self.home.deep_view(),
            lock: self.lock.deep_view(),
            global_state: self.global_state.deep_view(),
            last_backup: self.last_backup.deep_view(),
            pending_operation: self.pending_operation.deep_view(),
        }
    }
}

impl Model for HomeNotes {
    fn copy_of(&self) -> (r: Self) {
        HomeNotes {
            home: self.home.copy_of(),
            lock: self.lock.copy_of(),
            global_state: self.global_state.copy_of(),
            last_backup: self.last_backup.copy_of(),
            pending_operation: self.pending_operation.copy_of(),
        }
    }

    fn same_as(&self, other: &Self) -> (r: bool) {
        self.home.same_as(&other.home)
            && self.lock.same_as(&other.lock)
            && self.global_state.same_as(&other.global_state)
            && self.last_backup.same_as(&other.last_backup)
            && self.pending_operation.same_as(&other.pending_operation)
    }
}

/// What the desktop shows of a home.
#[derive(Debug, PartialEq, Eq)]
pub struct DesktopRefreshResult {
    pub scan: ScanResult,
    pub preview: Option<ProjectionPreviewResult>,
    pub local_sessions: Vec<LocalSessionSummary>,
    pub blocking_processes: Vec<BlockingProcess>,
    pub selected_sources: Vec<String>,
    pub target_provider: String,
    pub backup_cleanup: Option<BackupCleanupResult>,
}

/// What a `DesktopRefreshResult` stands for.
#[verifier::ext_equal]
pub struct DesktopRefreshResultView {
    pub scan: ScanResultView,
    pub preview: Option<ProjectionPreviewResultView>,
    pub local_sessions: Seq<LocalSessionSummaryView>,
    pub blocking_processes: Seq<BlockingProcessView>,
    pub selected_sources: Seq<Seq<char>>,
    pub target_provider: Seq<char>,
    pub backup_cleanup: Option<BackupCleanupResultView>,
}

impl DeepView for DesktopRefreshResult {
    type V = DesktopRefreshResultView;

    open spec fn deep_view(&self) -> DesktopRefreshResultView {
        DesktopRefreshResultView {
            scan: self.scan.deep_view(),
            preview: self.preview.deep_view(),
            local_sessions: self.local_sessions.deep_view(),
            blocking_processes: self.blocking_processes.deep_view(),
            selected_sources: self.selected_sources.deep_view(),
            target_provider: self.target_provider.deep_view(),
            backup_cleanup: self.backup_cleanup.deep_view(),
        }
    }
}

impl Model for DesktopRefreshResult {
    fn copy_of(&self) -> (r: Self) {
        DesktopRefreshResult {
            scan: self.scan.copy_of(),
            preview: self.preview.copy_of(),
            local_sessions: self.local_sessions.copy_of(),
            blocking_processes: self.blocking_processes.copy_of(),
            selected_sources: self.selected_sources.copy_of(),
            target_provider: self.target_provider.copy_of(),
            backup_cleanup: self.backup_cleanup.copy_of(),
        }
    }

    fn same_as(&self, other: &Self) -> (r: bool) {
        self.scan.same_as(&other.scan)
            && self.preview.same_as(&other.preview)
            && self.local_sessions.same_as(&other.local_sessions)
            && self.blocking_processes.same_as(&other.blocking_processes)
            && self.selected_sources.same_as(&other.selected_sources)
            && self.target_provider.same_as(&other.target_provider)
            && self.backup_cleanup.same_as(&other.backup_cleanup)
    }
}

/// The threads of the state database.
pub open spec fn thread_ids(snapshot: SnapshotView) -> Set<Seq<char>> {
    sessions::ids_where(
        snapshot.threads,
        |thread: ThreadRowView| true,
        |thread: ThreadRowView| thread.id,
    )
}

/// The threads of the catalog.
pub open spec fn catalog_ids(snapshot: SnapshotView) -> Set<Seq<char>> {
    sessions::ids_where(
        snapshot.catalog,
        |row: CatalogRowView| true,
        |row: CatalogRowView| row.thread_id,
    )
}

/// Every session that any source names.
pub open spec fn discovered_ids(snapshot: SnapshotView) -> Set<Seq<char>> {
    thread_ids(snapshot).union(catalog_ids(snapshot)).union(snapshot.rollouts).union(
        snapshot.session_index,
    )
}

/// The local sessions that the state database lacks.
pub open spec fn orphaned_ids(
    snapshot: SnapshotView,
    cohorts: SessionCohortsView,
) -> Set<Seq<char>> {
    discovered_ids(snapshot).difference(thread_ids(snapshot)).difference(
        cohorts.remote_catalog_ids,
    )
}

/// A thread that a program started, not archived.
pub open spec fn automated_thread(snapshot: SnapshotView, thread: ThreadRowView) -> bool {
    !thread.archived && (locality::skipped_thread(thread) || locality::automated_rollout(
        snapshot,
        thread.id,
    ))
}

/// A thread that is left out, not archived.
pub open spec fn left_out(cohorts: SessionCohortsView, thread: ThreadRowView) -> bool {
    !thread.archived && (locality::skipped_thread(thread)
        || cohorts.remote_excluded_thread_ids.contains(thread.id)
        || cohorts.missing_rollout_ids.contains(thread.id))
}

/// The threads that are left out.
pub open spec fn left_out_ids(snapshot: SnapshotView, cohorts: SessionCohortsView) -> Set<Seq<char>> {
    sessions::ids_where(
        snapshot.threads,
        |thread: ThreadRowView| left_out(cohorts, thread),
        |thread: ThreadRowView| thread.id,
    )
}

/// A thread whose rollout names another provider than its state row.
pub open spec fn rollout_drifts(
    snapshot: SnapshotView,
    cohorts: SessionCohortsView,
    thread: ThreadRowView,
) -> bool {
    cohorts.recoverable_ids.contains(thread.id) && snapshot.rollout_providers.dom().contains(
        thread.id,
    ) && exists|provider: Seq<char>| #[trigger]
        snapshot.rollout_providers[thread.id].contains(provider) && provider != thread.provider
}

/// A thread whose catalog row names another provider than its state row.
pub open spec fn catalog_drifts(
    snapshot: SnapshotView,
    cohorts: SessionCohortsView,
    thread: ThreadRowView,
) -> bool {
    let rows = locality::local_rows_of(snapshot.catalog, thread.id);
    rows.len() > 0 && cohorts.recoverable_ids.contains(thread.id) && !rows[0].missing_candidate
        && thread.provider != rows[0].provider
}

/// The threads whose catalog row names another provider than their state row.
pub open spec fn catalog_drift_ids(
    snapshot: SnapshotView,
    cohorts: SessionCohortsView,
) -> Set<Seq<char>> {
    sessions::ids_where(
        snapshot.threads,
        |thread: ThreadRowView| catalog_drifts(snapshot, cohorts, thread),
        |thread: ThreadRowView| thread.id,
    )
}

/// The recoverable sessions that the catalog lacks.
pub open spec fn missing_catalog_ids(cohorts: SessionCohortsView) -> Set<Seq<char>> {
    cohorts.recoverable_ids.difference(cohorts.local_catalog_ids)
}

/// How many threads a rule holds of.
pub open spec fn count_threads(
    snapshot: SnapshotView,
    rule: spec_fn(ThreadRowView) -> bool,
) -> usize {
    planning::kept(snapshot.threads, rule).len() as usize
}

/// The size of a set.
pub open spec fn size(set: Set<Seq<char>>) -> usize {
    ordered::listed::<String>(set).len() as usize
}

/// A provider, or the word for none.
pub open spec fn source_or_unknown(id: Seq<char>) -> SourceProviderView {
    if providers::safe_id(id) {
        projection::provider_of(id)
    } else {
        SourceProviderView::Other("unknown"@)
    }
}

/// A session that shows under the current provider.
pub open spec fn shows(session: EligibleSessionView, current: SourceProviderView) -> bool {
    session.catalog matches CatalogStateView::Present { provider } && provider
        == session.state_provider && provider == current
}

/// How many sessions came from a provider.
pub open spec fn sessions_from(sessions: Seq<EligibleSessionView>, id: Seq<char>) -> nat {
    planning::kept(
        sessions,
        |session: EligibleSessionView| projection::provider_id(session.origin_provider) == id,
    ).len()
}

/// How many of the sessions from a provider show under the current one.
pub open spec fn visible_from(
    sessions: Seq<EligibleSessionView>,
    id: Seq<char>,
    current: SourceProviderView,
) -> nat {
    planning::kept(
        sessions,
        |session: EligibleSessionView|
            projection::provider_id(session.origin_provider) == id && shows(session, current),
    ).len()
}

/// The providers that sessions came from.
pub open spec fn origin_ids(sessions: Seq<EligibleSessionView>) -> Set<Seq<char>> {
    sessions::ids_where(
        sessions,
        |session: EligibleSessionView| true,
        |session: EligibleSessionView| projection::provider_id(session.origin_provider),
    )
}

/// The valid providers of local catalog rows.
pub open spec fn row_providers(snapshot: SnapshotView) -> Set<Seq<char>> {
    sessions::ids_where(
        snapshot.catalog,
        |row: CatalogRowView| locality::local_row(row) && providers::safe_id(row.provider),
        |row: CatalogRowView| row.provider,
    )
}

/// The providers that the rollouts of some sessions name.
pub open spec fn rollout_provider_ids(
    snapshot: SnapshotView,
    ids: Set<Seq<char>>,
) -> Set<Seq<char>> {
    Set::new(
        |provider: Seq<char>|
            exists|id: Seq<char>| #[trigger]
                ids.contains(id) && snapshot.rollout_providers.dom().contains(id)
                    && snapshot.rollout_providers[id].contains(provider),
    )
}

/// Every provider that is shown.
pub open spec fn shown_providers(
    snapshot: SnapshotView,
    cohorts: SessionCohortsView,
    eligible: Seq<EligibleSessionView>,
    current: Option<Seq<char>>,
    configured: Set<Seq<char>>,
) -> Set<Seq<char>> {
    let known = match current {
        Some(id) => configured.insert(id),
        None => configured,
    };
    known.union(origin_ids(eligible)).union(row_providers(snapshot)).union(
        rollout_provider_ids(snapshot, cohorts.recoverable_ids),
    )
}

/// A provider as it is shown.
pub open spec fn provider_summary(
    id: Seq<char>,
    eligible: Seq<EligibleSessionView>,
    current: Seq<char>,
) -> ProviderSummaryView {
    let source_sessions = sessions_from(eligible, id) as usize;
    ProviderSummaryView {
        id,
        name: providers::shown_name(id),
        color: providers::shown_color(id),
        source_sessions,
        currently_visible: visible_from(eligible, id, source_or_unknown(current)) as usize,
        status: if id == current {
            "active"@
        } else if source_sessions == 0 {
            "available"@
        } else {
            "legacy"@
        },
    }
}

/// A note on a source that speaks of missing rights.
pub open spec fn names_access(note: Seq<char>) -> bool {
    let lower = text::lowered(note);
    ||| text::holds_text(lower, "permission"@)
    ||| text::holds_text(lower, "access"@)
    ||| text::holds_text(lower, "denied"@)
    ||| text::holds_text(lower, "readonly"@)
    ||| text::holds_text(lower, "elevation"@)
    ||| text::holds_text(note, "拒绝访问"@)
    ||| text::holds_text(note, "需要提升权限"@)
    ||| text::holds_text(note, "不允许访问"@)
    ||| text::holds_text(note, "只读"@)
}

/// Something was not read for want of rights.
pub open spec fn wants_admin(active: Seq<Seq<char>>, sources: Seq<SourceSummaryView>) -> bool {
    active.contains("process-enumeration-failed"@) || exists|i: int|
        0 <= i < sources.len() && names_access((#[trigger] sources[i]).note)
}

/// What a scan of a home finds.
pub open spec fn scanned(
    notes: HomeNotesView,
    current: Option<Seq<char>>,
    configured: Set<Seq<char>>,
    snapshot: SnapshotView,
    store: Option<ProjectionStoreView>,
    cohorts: SessionCohortsView,
) -> ScanResultView {
    let current_id = providers::id_or_unknown(current);
    let eligible = preview::eligible_sessions(
        snapshot,
        store,
        cohorts.remote_excluded_thread_ids,
        source_or_unknown(current_id),
        sessions::backed_threads(snapshot, sessions::rollout_ids(snapshot)),
    );
    let sources = snapshot.sources.push(notes.global_state);
    ScanResultView {
        codex_home: notes.home,
        current_provider: current_id,
        providers: ordered::listed::<String>(
            shown_providers(snapshot, cohorts, eligible, current, configured),
        ).map_values(|id: Seq<char>| provider_summary(id, eligible, current_id)),
        sessions: size(thread_ids(snapshot)),
        discovered_sessions: size(discovered_ids(snapshot)),
        orphaned_sessions: size(orphaned_ids(snapshot, cohorts)),
        archived_sessions: count_threads(snapshot, |thread: ThreadRowView| thread.archived),
        ordinary_sessions: size(cohorts.ordinary_active_ids),
        recoverable_sessions: size(cohorts.recoverable_ids),
        recoverable_indexed: size(cohorts.recoverable_indexed_ids),
        session_index_covered: size(cohorts.session_index_covered_ids),
        remote_sessions: size(cohorts.remote_session_ids),
        remote_excluded_sessions: size(cohorts.remote_excluded_thread_ids),
        automated_sessions: count_threads(
            snapshot,
            |thread: ThreadRowView| automated_thread(snapshot, thread),
        ),
        rollout_sessions: size(snapshot.rollouts),
        valid_rollout_sessions: verification::count_of(
            size(snapshot.valid_active_rollouts) + size(snapshot.valid_archived_rollouts),
        ),
        indexed: size(cohorts.local_catalog_ids),
        session_indexed: size(snapshot.session_index),
        drift: size(
            missing_catalog_ids(cohorts).union(catalog_drift_ids(snapshot, cohorts)),
        ),
        provider_drift: size(catalog_drift_ids(snapshot, cohorts)),
        rollout_provider_drift: count_threads(
            snapshot,
            |thread: ThreadRowView| rollout_drifts(snapshot, cohorts, thread),
        ),
        missing_catalog: size(missing_catalog_ids(cohorts)),
        missing_rollout: size(cohorts.missing_rollout_ids),
        skipped: verification::count_of(
            size(left_out_ids(snapshot, cohorts)) + size(
                orphaned_ids(snapshot, cohorts).difference(cohorts.recoverable_ids),
            ),
        ),
        sqlite: snapshot.sqlite_readable,
        jsonl: snapshot.jsonl_files.len() as usize,
        lock: notes.lock.state,
        lock_detail: notes.lock,
        needs_admin: wants_admin(notes.lock.active_processes, sources),
        last_backup: notes.last_backup,
        pending_operation: notes.pending_operation,
        sources,
    }
}

/// The items of `a` that `b` lacks.
pub fn apart(a: &OrderedSet<String>, b: &OrderedSet<String>) -> (r: OrderedSet<String>)
    ensures
        r.deep_view() == a.deep_view().difference(b.deep_view()),
{
    let n: usize = a.len();
    let ghost items = a.items();
    let ghost other = b.deep_view();
    let mut out: OrderedSet<String> = OrderedSet::new();
    let mut i: usize = 0;
    assert(items.take(0).to_set().difference(other) =~= Set::empty());
    while i < n
        invariant
            i <= n == items.len(),
            items == a.items(),
            a.items_describe(),
            other == b.deep_view(),
            out.deep_view() == items.take(i as int).to_set().difference(other),
        decreases n - i,
    {
        let item = a.item_at(i);
        if !b.contains(item) {
            out.insert(item.copy_of());
        }
        proof {
            assert(items.take(i + 1) =~= items.take(i as int).push(items[i as int]));
            assert forall|x: Seq<char>| #[trigger] items.take(i + 1).contains(x) <==> (
            items.take(i as int).contains(x) || x == items[i as int]) by {
                sessions::lemma_push_contains(items.take(i as int), items[i as int], x);
            }
            assert(out.deep_view() =~= items.take(i + 1).to_set().difference(other));
        }
        i += 1;
    }
    assert(items.take(i as int) =~= items);
    assert(items.to_set() =~= a.deep_view());
    out
}

fn collect_thread_ids(snapshot: &Snapshot) -> (r: OrderedSet<String>)
    ensures
        r.deep_view() == thread_ids(snapshot.deep_view()),
{
    let rows = &snapshot.threads;
    let ghost view = rows.deep_view();
    let ghost keep = |thread: ThreadRowView| true;
    let ghost id = |thread: ThreadRowView| thread.id;
    let mut out: OrderedSet<String> = OrderedSet::new();
    let mut i: usize = 0;
    assert(out.deep_view() =~= sessions::ids_where(view.take(0), keep, id));
    while i < rows.len()
        invariant
            i <= rows@.len(),
            view == rows.deep_view(),
            keep == (|thread: ThreadRowView| true),
            id == (|thread: ThreadRowView| thread.id),
            out.deep_view() == sessions::ids_where(view.take(i as int), keep, id),
        decreases rows@.len() - i,
    {
        assert(view[i as int] == rows@[i as int].deep_view());
        proof {
            sessions::lemma_ids_where(view, keep, id, i as int);
        }
        out.insert(rows[i].id.copy_of());
        i += 1;
    }
    assert(view.take(i as int) =~= view);
    out
}

fn collect_catalog_ids(snapshot: &Snapshot) -> (r: OrderedSet<String>)
    ensures
        r.deep_view() == catalog_ids(snapshot.deep_view()),
{
    let rows = &snapshot.catalog;
    let ghost view = rows.deep_view();
    let ghost keep = |row: CatalogRowView| true;
    let ghost id = |row: CatalogRowView| row.thread_id;
    let mut out: OrderedSet<String> = OrderedSet::new();
    let mut i: usize = 0;
    assert(out.deep_view() =~= sessions::ids_where(view.take(0), keep, id));
    while i < rows.len()
        invariant
            i <= rows@.len(),
            view == rows.deep_view(),
            keep == (|row: CatalogRowView| true),
            id == (|row: CatalogRowView| row.thread_id),
            out.deep_view() == sessions::ids_where(view.take(i as int), keep, id),
        decreases rows@.len() - i,
    {
        assert(view[i as int] == rows@[i as int].deep_view());
        proof {
            sessions::lemma_ids_where(view, keep, id, i as int);
        }
        out.insert(rows[i].thread_id.copy_of());
        i += 1;
    }
    assert(view.take(i as int) =~= view);
    out
}

fn collect_discovered_ids(snapshot: &Snapshot, threads: &OrderedSet<String>) -> (r: OrderedSet<
    String,
>)
    requires
        threads.deep_view() == thread_ids(snapshot.deep_view()),
    ensures
        r.deep_view() == discovered_ids(snapshot.deep_view()),
{
    let mut out = threads.copy_of();
    add_all(&collect_catalog_ids(snapshot), &mut out);
    add_all(&snapshot.rollouts, &mut out);
    add_all(&snapshot.session_index, &mut out);
    out
}

fn is_left_out(cohorts: &SessionCohorts, thread: &ThreadRow) -> (r: bool)
    ensures
        r == left_out(cohorts.deep_view(), thread.deep_view()),
{
    !thread.archived && (is_skipped_thread(thread).is_some()
        || cohorts.remote_excluded_thread_ids.contains(&thread.id)
        || cohorts.missing_rollout_ids.contains(&thread.id))
}

fn has_rollout_drift(snapshot: &Snapshot, cohorts: &SessionCohorts, thread: &ThreadRow) -> (r: bool)
    ensures
        r == rollout_drifts(snapshot.deep_view(), cohorts.deep_view(), thread.deep_view()),
{
    if !cohorts.recoverable_ids.contains(&thread.id) {
        return false;
    }
    match snapshot.rollout_providers.get(&thread.id) {
        None => false,
        Some(named) => {
            let n: usize = named.len();
            let ghost items = named.items();
            let mut i: usize = 0;
            while i < n
                invariant
                    i <= n == items.len(),
                    items == named.items(),
                    named.items_describe(),
                    cohorts.recoverable_ids.deep_view().contains(thread.id@),
                    snapshot.rollout_providers.deep_view().dom().contains(thread.id@),
                    snapshot.rollout_providers.deep_view()[thread.id@] == named.deep_view(),
                    forall|j: int| 0 <= j < i ==> #[trigger] items[j] == thread.provider@,
                decreases n - i,
            {
                if !named.item_at(i).same_as(&thread.provider) {
                    assert(named.deep_view().contains(items[i as int]));
                    return true;
                }
                i += 1;
            }
            proof {
                assert forall|provider: Seq<char>| #[trigger]
                    named.deep_view().contains(provider) implies provider == thread.provider@ by {
                    let j = choose|j: int| 0 <= j < items.len() && items[j] == provider;
                    assert(items[j] == thread.provider@);
                }
            }
            false
        },
    }
}

fn has_catalog_drift(snapshot: &Snapshot, cohorts: &SessionCohorts, thread: &ThreadRow) -> (r: bool)
    ensures
        r == catalog_drifts(snapshot.deep_view(), cohorts.deep_view(), thread.deep_view()),
{
    let rows = collect_local_rows(&snapshot.catalog, &thread.id);
    if rows.len() == 0 {
        return false;
    }
    assert(rows.deep_view()[0] == rows@[0].deep_view());
    cohorts.recoverable_ids.contains(&thread.id) && !rows[0].missing_candidate
        && !thread.provider.same_as(&rows[0].provider)
}

/// What a scan counts of the threads.
struct ThreadCounts {
    archived: usize,
    automated: usize,
    rollout_drift: usize,
    left_out: OrderedSet<String>,
    catalog_drift: OrderedSet<String>,
}

spec fn counts_threads(
    counts: ThreadCounts,
    snapshot: SnapshotView,
    cohorts: SessionCohortsView,
    threads: Seq<ThreadRowView>,
) -> bool {
    &&& counts.archived == planning::kept(threads, |thread: ThreadRowView| thread.archived).len()
    &&& counts.automated == planning::kept(
        threads,
        |thread: ThreadRowView| automated_thread(snapshot, thread),
    ).len()
    &&& counts.rollout_drift == planning::kept(
        threads,
        |thread: ThreadRowView| rollout_drifts(snapshot, cohorts, thread),
    ).len()
    &&& counts.left_out.deep_view() == sessions::ids_where(
        threads,
        |thread: ThreadRowView| left_out(cohorts, thread),
        |thread: ThreadRowView| thread.id,
    )
    &&& counts.catalog_drift.deep_view() == sessions::ids_where(
        threads,
        |thread: ThreadRowView| catalog_drifts(snapshot, cohorts, thread),
        |thread: ThreadRowView| thread.id,
    )
}

fn count_all_threads(snapshot: &Snapshot, cohorts: &SessionCohorts) -> (r: ThreadCounts)
    ensures
        counts_threads(
            r,
            snapshot.deep_view(),
            cohorts.deep_view(),
            snapshot.deep_view().threads,
        ),
{
    let rows = &snapshot.threads;
    let ghost view = rows.deep_view();
    let ghost known = cohorts.deep_view();
    let ghost home = snapshot.deep_view();
    let mut counts = ThreadCounts {
        archived: 0,
        automated: 0,
        rollout_drift: 0,
        left_out: OrderedSet::new(),
        catalog_drift: OrderedSet::new(),
    };
    proof {
        assert(counts.left_out.deep_view() =~= sessions::ids_where(
            view.take(0),
            |thread: ThreadRowView| left_out(known, thread),
            |thread: ThreadRowView| thread.id,
        ));
        assert(counts.catalog_drift.deep_view() =~= sessions::ids_where(
            view.take(0),
            |thread: ThreadRowView| catalog_drifts(home, known, thread),
            |thread: ThreadRowView| thread.id,
        ));
    }
    let mut i: usize = 0;
    while i < rows.len()
        invariant
            i <= rows@.len(),
            rows == &snapshot.threads,
            view == rows.deep_view(),
            known == cohorts.deep_view(),
            home == snapshot.deep_view(),
            counts.archived <= i,
            counts.automated <= i,
            counts.rollout_drift <= i,
            counts_threads(counts, home, known, view.take(i as int)),
        decreases rows@.len() - i,
    {
        let thread = &rows[i];
        proof {
            assert(view[i as int] == thread.deep_view());
            assert(view.take(i + 1).drop_last() =~= view.take(i as int));
            sessions::lemma_ids_where(
                view,
                |thread: ThreadRowView| left_out(known, thread),
                |thread: ThreadRowView| thread.id,
                i as int,
            );
            sessions::lemma_ids_where(
                view,
                |thread: ThreadRowView| catalog_drifts(home, known, thread),
                |thread: ThreadRowView| thread.id,
                i as int,
            );
        }
        if thread.archived {
            counts.archived += 1;
        }
        if !thread.archived && (is_skipped_thread(thread).is_some() || rollout_source_not_ordinary(
            snapshot,
            &thread.id,
        )) {
            counts.automated += 1;
        }
        if has_rollout_drift(snapshot, cohorts, thread) {
            counts.rollout_drift += 1;
        }
        if is_left_out(cohorts, thread) {
            counts.left_out.insert(thread.id.copy_of());
        }
        if has_catalog_drift(snapshot, cohorts, thread) {
            counts.catalog_drift.insert(thread.id.copy_of());
        }
        i += 1;
    }
    assert(view.take(i as int) =~= view);
    counts
}

fn find_source(id: &str) -> (r: SourceProvider)
    ensures
        r.deep_view() == source_or_unknown(id@),
{
    match source_provider(id) {
        Some(provider) => provider,
        None => SourceProvider::Other("unknown".to_owned()),
    }
}

fn does_show(session: &EligibleSession, current: &SourceProvider) -> (r: bool)
    ensures
        r == shows(session.deep_view(), current.deep_view()),
{
    match &session.catalog {
        CatalogState::Present { provider } => provider.same_as(&session.state_provider)
            && provider.same_as(current),
        _ => false,
    }
}

fn count_sessions(eligible: &Vec<EligibleSession>, id: &String, current: &SourceProvider) -> (r: (
    usize,
    usize,
))
    ensures
        r.0 == sessions_from(eligible.deep_view(), id@),
        r.1 == visible_from(eligible.deep_view(), id@, current.deep_view()),
{
    let ghost view = eligible.deep_view();
    let mut total: usize = 0;
    let mut visible: usize = 0;
    let mut i: usize = 0;
    while i < eligible.len()
        invariant
            i <= eligible@.len(),
            view == eligible.deep_view(),
            total <= i,
            visible <= i,
            total == sessions_from(view.take(i as int), id@),
            visible == visible_from(view.take(i as int), id@, current.deep_view()),
        decreases eligible@.len() - i,
    {
        assert(view[i as int] == eligible@[i as int].deep_view());
        assert(view.take(i + 1).drop_last() =~= view.take(i as int));
        if same(eligible[i].origin_provider.as_str(), id.as_str()) {
            total += 1;
            if does_show(&eligible[i], current) {
                visible += 1;
            }
        }
        i += 1;
    }
    assert(view.take(i as int) =~= view);
    (total, visible)
}

fn collect_origin_ids(eligible: &Vec<EligibleSession>) -> (r: OrderedSet<String>)
    ensures
        r.deep_view() == origin_ids(eligible.deep_view()),
{
    let ghost view = eligible.deep_view();
    let ghost keep = |session: EligibleSessionView| true;
    let ghost id = |session: EligibleSessionView| projection::provider_id(session.origin_provider);
    let mut out: OrderedSet<String> = OrderedSet::new();
    let mut i: usize = 0;
    assert(out.deep_view() =~= sessions::ids_where(view.take(0), keep, id));
    while i < eligible.len()
        invariant
            i <= eligible@.len(),
            view == eligible.deep_view(),
            keep == (|session: EligibleSessionView| true),
            id == (|session: EligibleSessionView|
                projection::provider_id(session.origin_provider)),
            out.deep_view() == sessions::ids_where(view.take(i as int), keep, id),
        decreases eligible@.len() - i,
    {
        assert(view[i as int] == eligible@[i as int].deep_view());
        proof {
            sessions::lemma_ids_where(view, keep, id, i as int);
        }
        out.insert(eligible[i].origin_provider.as_str().to_owned());
        i += 1;
    }
    assert(view.take(i as int) =~= view);
    out
}

fn collect_row_providers(snapshot: &Snapshot) -> (r: OrderedSet<String>)
    ensures
        r.deep_view() == row_providers(snapshot.deep_view()),
{
    let rows = &snapshot.catalog;
    let ghost view = rows.deep_view();
    let ghost keep = |row: CatalogRowView|
        locality::local_row(row) && providers::safe_id(row.provider);
    let ghost id = |row: CatalogRowView| row.provider;
    let mut out: OrderedSet<String> = OrderedSet::new();
    let mut i: usize = 0;
    assert(out.deep_view() =~= sessions::ids_where(view.take(0), keep, id));
    while i < rows.len()
        invariant
            i <= rows@.len(),
            view == rows.deep_view(),
            keep == (|row: CatalogRowView|
                locality::local_row(row) && providers::safe_id(row.provider)),
            id == (|row: CatalogRowView| row.provider),
            out.deep_view() == sessions::ids_where(view.take(i as int), keep, id),
        decreases rows@.len() - i,
    {
        assert(view[i as int] == rows@[i as int].deep_view());
        proof {
            sessions::lemma_ids_where(view, keep, id, i as int);
        }
        if catalog_row_is_local(&rows[i]) {
            match validate_provider(rows[i].provider.as_str()) {
                Ok(provider) => {
                    out.insert(provider);
                },
                Err(_) => {},
            }
        }
        i += 1;
    }
    assert(view.take(i as int) =~= view);
    out
}

fn add_rollout_providers(snapshot: &Snapshot, ids: &OrderedSet<String>, out: &mut OrderedSet<String>)
    ensures
        final(out).deep_view() == old(out).deep_view().union(
            rollout_provider_ids(snapshot.deep_view(), ids.deep_view()),
        ),
{
    let n: usize = ids.len();
    let ghost items = ids.items();
    let ghost before = out.deep_view();
    let ghost home = snapshot.deep_view();
    let mut i: usize = 0;
    assert(before.union(rollout_provider_ids(home, items.take(0).to_set())) =~= before);
    while i < n
        invariant
            i <= n == items.len(),
            items == ids.items(),
            ids.items_describe(),
            home == snapshot.deep_view(),
            out.deep_view() == before.union(
                rollout_provider_ids(home, items.take(i as int).to_set()),
            ),
        decreases n - i,
    {
        let ghost from = items.take(i as int);
        let ghost to = items.take(i + 1);
        let ghost sofar = out.deep_view();
        let id = ids.item_at(i);
        proof {
            assert(to =~= from.push(items[i as int]));
            assert forall|x: Seq<char>| #[trigger] to.contains(x) <==> (from.contains(x) || x
                == items[i as int]) by {
                sessions::lemma_push_contains(from, items[i as int], x);
            }
            assert(to.to_set() =~= from.to_set().insert(id@));
            lemma_rollout_provider_ids(home, from.to_set(), id@);
        }
        match snapshot.rollout_providers.get(id) {
            Some(named) => {
                add_all(named, out);
            },
            None => {},
        }
        assert(out.deep_view() =~= before.union(rollout_provider_ids(home, to.to_set())));
        i += 1;
    }
    assert(items.take(i as int) =~= items);
    assert(items.to_set() =~= ids.deep_view());
}

proof fn lemma_rollout_provider_ids(snapshot: SnapshotView, ids: Set<Seq<char>>, id: Seq<char>)
    ensures
        rollout_provider_ids(snapshot, ids.insert(id))
            == if snapshot.rollout_providers.dom().contains(id) {
            rollout_provider_ids(snapshot, ids).union(snapshot.rollout_providers[id])
        } else {
            rollout_provider_ids(snapshot, ids)
        },
{
    let now = rollout_provider_ids(snapshot, ids.insert(id));
    let wanted = if snapshot.rollout_providers.dom().contains(id) {
        rollout_provider_ids(snapshot, ids).union(snapshot.rollout_providers[id])
    } else {
        rollout_provider_ids(snapshot, ids)
    };
    assert forall|x: Seq<char>| now.contains(x) <==> wanted.contains(x) by {
        if now.contains(x) {
            let other = choose|other: Seq<char>| #[trigger]
                ids.insert(id).contains(other) && snapshot.rollout_providers.dom().contains(other)
                    && snapshot.rollout_providers[other].contains(x);
            if other != id {
                assert(ids.contains(other));
            }
        }
        if rollout_provider_ids(snapshot, ids).contains(x) {
            let other = choose|other: Seq<char>| #[trigger]
                ids.contains(other) && snapshot.rollout_providers.dom().contains(other)
                    && snapshot.rollout_providers[other].contains(x);
            assert(ids.insert(id).contains(other));
        }
        if snapshot.rollout_providers.dom().contains(id)
            && snapshot.rollout_providers[id].contains(x) {
            assert(ids.insert(id).contains(id));
        }
    }
    assert(now =~= wanted);
}

fn collect_shown_providers(
    snapshot: &Snapshot,
    cohorts: &SessionCohorts,
    eligible: &Vec<EligibleSession>,
    current: &Option<String>,
    configured: &OrderedSet<String>,
) -> (r: OrderedSet<String>)
    ensures
        r.deep_view() == shown_providers(
            snapshot.deep_view(),
            cohorts.deep_view(),
            eligible.deep_view(),
            current.deep_view(),
            configured.deep_view(),
        ),
{
    let mut out = configured.copy_of();
    if let Some(id) = current {
        out.insert(id.copy_of());
    }
    add_all(&collect_origin_ids(eligible), &mut out);
    add_all(&collect_row_providers(snapshot), &mut out);
    add_rollout_providers(snapshot, &cohorts.recoverable_ids, &mut out);
    out
}

fn summarize_provider(id: &String, eligible: &Vec<EligibleSession>, current: &str) -> (r:
    ProviderSummary)
    ensures
        r.deep_view() == provider_summary(id@, eligible.deep_view(), current@),
{
    let (source_sessions, currently_visible) = count_sessions(eligible, id, &find_source(current));
    let status = if same(id.as_str(), current) {
        "active"
    } else if source_sessions == 0 {
        "available"
    } else {
        "legacy"
    };
    ProviderSummary {
        id: id.copy_of(),
        name: provider_name(id.as_str()),
        color: provider_color(id.as_str()).to_owned(),
        source_sessions,
        currently_visible,
        status: status.to_owned(),
    }
}

fn summarize_providers(ids: &OrderedSet<String>, eligible: &Vec<EligibleSession>, current: &str) -> (r:
    Vec<ProviderSummary>)
    ensures
        r.deep_view() == ordered::listed::<String>(ids.deep_view()).map_values(
            |id: Seq<char>| provider_summary(id, eligible.deep_view(), current@),
        ),
{
    let n: usize = ids.len();
    let ghost items = ids.items();
    let ghost wanted = items.map_values(
        |id: Seq<char>| provider_summary(id, eligible.deep_view(), current@),
    );
    let mut out: Vec<ProviderSummary> = Vec::new();
    let mut i: usize = 0;
    while i < n
        invariant
            i <= n == items.len(),
            items == ids.items(),
            ids.items_describe(),
            wanted == items.map_values(
                |id: Seq<char>| provider_summary(id, eligible.deep_view(), current@),
            ),
            out@.len() == i,
            forall|j: int| 0 <= j < i ==> #[trigger] out@[j].deep_view() == wanted[j],
        decreases n - i,
    {
        out.push(summarize_provider(ids.item_at(i), eligible, current));
        i += 1;
    }
    assert(out.deep_view() =~= wanted);
    out
}

/// Whether a note on a source speaks of missing rights.
pub fn note_names_access(note: &str) -> (r: bool)
    ensures
        r == names_access(note@),
{
    let lower = to_lower(note);
    has_text(lower.as_str(), "permission") || has_text(lower.as_str(), "access") || has_text(
        lower.as_str(),
        "denied",
    ) || has_text(lower.as_str(), "readonly") || has_text(lower.as_str(), "elevation") || has_text(
        note,
        "拒绝访问",
    ) || has_text(note, "需要提升权限") || has_text(note, "不允许访问") || has_text(
        note,
        "只读",
    )
}

fn find_need_of_admin(active: &Vec<String>, sources: &Vec<SourceSummary>) -> (r: bool)
    ensures
        r == wants_admin(active.deep_view(), sources.deep_view()),
{
    let ghost names = active.deep_view();
    let ghost view = sources.deep_view();
    let mut i: usize = 0;
    while i < active.len()
        invariant
            i <= active@.len(),
            names == active.deep_view(),
            view == sources.deep_view(),
            forall|j: int|
                0 <= j < i ==> (#[trigger] names[j]) != "process-enumeration-failed"@,
        decreases active@.len() - i,
    {
        assert(names[i as int] == active@[i as int]@);
        if same(active[i].as_str(), "process-enumeration-failed") {
            assert(names.contains("process-enumeration-failed"@));
            return true;
        }
        i += 1;
    }
    assert(!names.contains("process-enumeration-failed"@));
    let mut k: usize = 0;
    while k < sources.len()
        invariant
            k <= sources@.len(),
            names == active.deep_view(),
            !names.contains("process-enumeration-failed"@),
            view == sources.deep_view(),
            forall|j: int| 0 <= j < k ==> !names_access((#[trigger] view[j]).note),
        decreases sources@.len() - k,
    {
        assert(view[k as int] == sources@[k as int].deep_view());
        if note_names_access(sources[k].note.as_str()) {
            return true;
        }
        k += 1;
    }
    false
}

/// What a scan of a home finds, given its cohorts and the providers that its configuration names.
pub fn scan_result_with_providers(
    notes: &HomeNotes,
    current: &Option<String>,
    configured: &OrderedSet<String>,
    snapshot: &Snapshot,
    store: Option<&ProjectionStore>,
    cohorts: &SessionCohorts,
) -> (r: ScanResult)
    ensures
        r.deep_view() == scanned(
            notes.deep_view(),
            current.deep_view(),
            configured.deep_view(),
            snapshot.deep_view(),
            sessions::store_view(store),
            cohorts.deep_view(),
        ),
{
    let current_id = match current {
        Some(id) => id.copy_of(),
        None => "unknown".to_owned(),
    };
    let threads = collect_thread_ids(snapshot);
    let discovered = collect_discovered_ids(snapshot, &threads);
    let orphaned = apart(&apart(&discovered, &threads), &cohorts.remote_catalog_ids);
    let counts = count_all_threads(snapshot, cohorts);
    let missing_catalog = apart(&cohorts.recoverable_ids, &cohorts.local_catalog_ids);
    let mut drift = missing_catalog.copy_of();
    add_all(&counts.catalog_drift, &mut drift);
    let (eligible, _) = eligible_projection_sessions_with_cohorts(
        snapshot,
        store,
        &find_source(current_id.as_str()),
        cohorts,
    );
    let shown = collect_shown_providers(snapshot, cohorts, &eligible, current, configured);
    let ghost before = snapshot.sources.deep_view();
    let mut sources = snapshot.sources.copy_of();
    sources.push(notes.global_state.copy_of());
    assert(sources.deep_view() =~= before.push(notes.global_state.deep_view()));
    let needs_admin = find_need_of_admin(&notes.lock.active_processes, &sources);
    ScanResult {
        codex_home: notes.home.copy_of(),
        providers: summarize_providers(&shown, &eligible, current_id.as_str()),
        current_provider: current_id,
        sessions: threads.len(),
        discovered_sessions: discovered.len(),
        orphaned_sessions: orphaned.len(),
        archived_sessions: counts.archived,
        ordinary_sessions: cohorts.ordinary_active_ids.len(),
        recoverable_sessions: cohorts.recoverable_ids.len(),
        recoverable_indexed: cohorts.recoverable_indexed_ids.len(),
        session_index_covered: cohorts.session_index_covered_ids.len(),
        remote_sessions: cohorts.remote_session_ids.len(),
        remote_excluded_sessions: cohorts.remote_excluded_thread_ids.len(),
        automated_sessions: counts.automated,
        rollout_sessions: snapshot.rollouts.len(),
        valid_rollout_sessions: snapshot.valid_active_rollouts.len().saturating_add(
            snapshot.valid_archived_rollouts.len(),
        ),
        indexed: cohorts.local_catalog_ids.len(),
        session_indexed: snapshot.session_index.len(),
        drift: drift.len(),
        provider_drift: counts.catalog_drift.len(),
        rollout_provider_drift: counts.rollout_drift,
        missing_catalog: missing_catalog.len(),
        missing_rollout: cohorts.missing_rollout_ids.len(),
        skipped: counts.left_out.len().saturating_add(
            apart(&orphaned, &cohorts.recoverable_ids).len(),
        ),
        sqlite: snapshot.sqlite_readable,
        jsonl: snapshot.jsonl_files.len(),
        lock: notes.lock.state.copy_of(),
        lock_detail: notes.lock.copy_of(),
        needs_admin,
        last_backup: notes.last_backup.copy_of(),
        pending_operation: notes.pending_operation.copy_of(),
        sources,
    }
}

/// What a scan of a home finds, given its cohorts and the text of its configuration.
pub fn scan_result_for_snapshot_with_cohorts(
    notes: &HomeNotes,
    config: &Option<String>,
    snapshot: &Snapshot,
    store: Option<&ProjectionStore>,
    cohorts: &SessionCohorts,
) -> (r: ScanResult)
    ensures
        r.deep_view() == scanned(
            notes.deep_view(),
            providers::configured_provider(config.deep_view()),
            providers::configured_ids(config.deep_view()),
            snapshot.deep_view(),
            sessions::store_view(store),
            cohorts.deep_view(),
        ),
{
    scan_result_with_providers(
        notes,
        &configured_current_provider(config),
        &configured_providers(config),
        snapshot,
        store,
        cohorts,
    )
}

/// What a scan of a home finds, given the text of its configuration.
pub fn scan_at(
    notes: &HomeNotes,
    config: &Option<String>,
    snapshot: &Snapshot,
    store: Option<&ProjectionStore>,
) -> (r: ScanResult)
    ensures
        r.deep_view() == scanned(
            notes.deep_view(),
            providers::configured_provider(config.deep_view()),
            providers::configured_ids(config.deep_view()),
            snapshot.deep_view(),
            sessions::store_view(store),
            sessions::cohorts_of(snapshot.deep_view()),
        ),
{
    let cohorts = session_cohorts(snapshot);
    scan_result_for_snapshot_with_cohorts(notes, config, snapshot, store, &cohorts)
}

/// The processes of others.
pub open spec fn others(processes: Seq<BlockingProcessView>) -> Seq<BlockingProcessView> {
    planning::kept(processes, |process: BlockingProcessView| !process.identity.is_current)
}

fn keep_others(processes: &Vec<BlockingProcess>) -> (r: Vec<BlockingProcess>)
    ensures
        r.deep_view() == others(processes.deep_view()),
{
    let ghost view = processes.deep_view();
    let mut out: Vec<BlockingProcess> = Vec::new();
    let mut i: usize = 0;
    assert(out.deep_view() =~= others(view.take(0)));
    while i < processes.len()
        invariant
            i <= processes@.len(),
            view == processes.deep_view(),
            out.deep_view() == others(view.take(i as int)),
        decreases processes@.len() - i,
    {
        let ghost before = out.deep_view();
        assert(view[i as int] == processes@[i as int].deep_view());
        assert(view.take(i + 1).drop_last() =~= view.take(i as int));
        if !processes[i].identity.is_current {
            out.push(processes[i].copy_of());
            assert(out.deep_view() =~= before.push(view[i as int]));
        }
        i += 1;
    }
    assert(view.take(i as int) =~= view);
    out
}

/// The providers with sessions, in their order, and the target at the end if it is not among them.
pub open spec fn chosen_sources(
    providers: Seq<ProviderSummaryView>,
    target: Seq<char>,
) -> Seq<Seq<char>> {
    let with_sessions = planning::kept(
        providers,
        |provider: ProviderSummaryView| provider.source_sessions > 0,
    ).map_values(|provider: ProviderSummaryView| provider.id);
    if with_sessions.contains(target) {
        with_sessions
    } else {
        with_sessions.push(target)
    }
}

fn choose_sources(providers: &Vec<ProviderSummary>, target: &String) -> (r: Vec<String>)
    ensures
        r.deep_view() == chosen_sources(providers.deep_view(), target@),
{
    let ghost view = providers.deep_view();
    let ghost keep = |provider: ProviderSummaryView| provider.source_sessions > 0;
    let ghost id = |provider: ProviderSummaryView| provider.id;
    let mut out: Vec<String> = Vec::new();
    let mut found = false;
    let mut i: usize = 0;
    assert(out.deep_view() =~= planning::kept(view.take(0), keep).map_values(id));
    while i < providers.len()
        invariant
            i <= providers@.len(),
            view == providers.deep_view(),
            keep == (|provider: ProviderSummaryView| provider.source_sessions > 0),
            id == (|provider: ProviderSummaryView| provider.id),
            out.deep_view() == planning::kept(view.take(i as int), keep).map_values(id),
            found == out.deep_view().contains(target@),
        decreases providers@.len() - i,
    {
        let ghost before = out.deep_view();
        assert(view[i as int] == providers@[i as int].deep_view());
        assert(view.take(i + 1).drop_last() =~= view.take(i as int));
        if providers[i].source_sessions > 0 {
            out.push(providers[i].id.copy_of());
            proof {
                assert(out.deep_view() =~= before.push(view[i as int].id));
                assert(out.deep_view() =~= planning::kept(view.take(i + 1), keep).map_values(id));
                sessions::lemma_push_contains(before, view[i as int].id, target@);
            }
            if same(providers[i].id.as_str(), target.as_str()) {
                found = true;
            }
        }
        i += 1;
    }
    assert(view.take(i as int) =~= view);
    if !found {
        let ghost before = out.deep_view();
        out.push(target.copy_of());
        assert(out.deep_view() =~= before.push(target@));
    }
    out
}

/// The cleanup that a refresh tells of.
pub open spec fn told_cleanup(
    initialize: bool,
    maintained: Result<Option<BackupCleanupResultView>, Seq<char>>,
) -> Option<BackupCleanupResultView> {
    if !initialize {
        None
    } else {
        match maintained {
            Ok(cleanup) => cleanup,
            Err(error) => Some(repair::failed_cleanup(error)),
        }
    }
}

/// The cleanup that a refresh tells of: one that failed is told as a warning, and there is none but
/// at the start.
pub fn tell_cleanup(
    initialize: bool,
    maintained: &Result<Option<BackupCleanupResult>, String>,
) -> (r: Option<BackupCleanupResult>)
    ensures
        r.deep_view() == told_cleanup(initialize, model::outcome(*maintained)),
{
    if !initialize {
        return None;
    }
    match maintained {
        Ok(cleanup) => cleanup.copy_of(),
        Err(error) => Some(note_failed_cleanup(error.copy_of())),
    }
}

/// What the desktop shows of a home.
pub open spec fn refreshed(
    scan: ScanResultView,
    snapshot: SnapshotView,
    store: Option<ProjectionStoreView>,
    cohorts: SessionCohortsView,
    processes: Seq<BlockingProcessView>,
    target: Seq<char>,
    cleanup: Option<BackupCleanupResultView>,
) -> DesktopRefreshResultView {
    DesktopRefreshResultView {
        scan,
        preview: None,
        local_sessions: sessions::session_list(
            snapshot,
            store,
            scan.current_provider,
            cohorts.remote_excluded_thread_ids,
        ),
        blocking_processes: processes,
        selected_sources: chosen_sources(scan.providers, target),
        target_provider: target,
        backup_cleanup: cleanup,
    }
}

/// The processes that a refresh shows; without `processes`, they could not be listed.
pub open spec fn shown_processes(processes: Option<Seq<BlockingProcessView>>) -> Seq<
    BlockingProcessView,
> {
    match processes {
        Some(processes) => others(processes),
        None => Seq::empty(),
    }
}

/// What keeps an operation from starting, as a refresh shows it.
pub open spec fn shown_lock(
    status: Result<OperationLockStatusView, Seq<char>>,
    processes: Option<Seq<BlockingProcessView>>,
) -> LockSummaryView {
    locks::lock_report(
        status,
        locks::owner_names(
            match processes {
                Some(processes) => Some(others(processes)),
                None => None,
            },
        ),
    )
}

/// What the desktop shows of a home, given its lock, the processes that hold its databases open,
/// and the cleanup of its backups. The lock in `notes` is not looked at.
pub fn refresh_desktop_at(
    notes: &HomeNotes,
    config: &Option<String>,
    snapshot: &Snapshot,
    store: Option<&ProjectionStore>,
    status: &Result<OperationLockStatus, String>,
    processes: &Option<Vec<BlockingProcess>>,
    cleanup: Option<BackupCleanupResult>,
) -> (r: Result<DesktopRefreshResult, String>)
    ensures
        ({
            let cohorts = sessions::cohorts_of(snapshot.deep_view());
            let current = providers::configured_provider(config.deep_view());
            let scan = scanned(
                (HomeNotesView {
                    lock: shown_lock(model::outcome(*status), processes.deep_view()),
                    ..notes.deep_view()
                }),
                current,
                providers::configured_ids(config.deep_view()),
                snapshot.deep_view(),
                sessions::store_view(store),
                cohorts,
            );
            match r {
                Ok(result) => current is Some && result.deep_view() == refreshed(
                    scan,
                    snapshot.deep_view(),
                    sessions::store_view(store),
                    cohorts,
                    shown_processes(processes.deep_view()),
                    current->0,
                    cleanup.deep_view(),
                ),
                Err(message) => current is None && message@
                    == "desktop repair unavailable: config.toml has no valid current model_provider"@,
            }
        }),
{
    let target_provider = match configured_current_provider(config) {
        Some(id) => id,
        None => {
            return Err(
                "desktop repair unavailable: config.toml has no valid current model_provider".to_owned(),
            );
        },
    };
    let kept: Option<Vec<BlockingProcess>> = match processes {
        Some(processes) => Some(keep_others(processes)),
        None => None,
    };
    let lock = inspect_lock(status, &kept);
    let blocking_processes = match kept {
        Some(processes) => processes,
        None => {
            let none: Vec<BlockingProcess> = Vec::new();
            assert(none.deep_view() =~= Seq::empty());
            none
        },
    };
    let shown = HomeNotes {
        home: notes.home.copy_of(),
        lock,
        global_state: notes.global_state.copy_of(),
        last_backup: notes.last_backup.copy_of(),
        pending_operation: notes.pending_operation.copy_of(),
    };
    let cohorts = session_cohorts(snapshot);
    let scan = scan_result_for_snapshot_with_cohorts(&shown, config, snapshot, store, &cohorts);
    let selected_sources = choose_sources(&scan.providers, &target_provider);
    let local_sessions = local_session_summaries_with_cohorts(
        snapshot,
        store,
        scan.current_provider.as_str(),
        &cohorts,
    );
    Ok(
        DesktopRefreshResult {
            scan,
            preview: None,
            local_sessions,
            blocking_processes,
            selected_sources,
            target_provider,
            backup_cleanup: cleanup,
        },
    )
}

/// The current provider is always among the selected sources of a refresh.
pub proof fn law_target_is_selected(providers: Seq<ProviderSummaryView>, target: Seq<char>)
    ensures
        chosen_sources(providers, target).contains(target),
{
    let with_sessions = planning::kept(
        providers,
        |provider: ProviderSummaryView| provider.source_sessions > 0,
    ).map_values(|provider: ProviderSummaryView| provider.id);
    if !with_sessions.contains(target) {
        assert(with_sessions.push(target).last() == target);
    }
}

/// The current provider is the only active one.
pub proof fn law_one_active_provider(
    id: Seq<char>,
    eligible: Seq<EligibleSessionView>,
    current: Seq<char>,
)
    ensures
        provider_summary(id, eligible, current).status == "active"@ <==> id == current,
{
    reveal_strlit("active");
    reveal_strlit("available");
    reveal_strlit("legacy");
    assert("active"@[0] != "legacy"@[0]);
    assert("active"@.len() != "available"@.len());
}

/// No more sessions of a provider show than it has.
pub proof fn law_visible_within_sources(
    sessions: Seq<EligibleSessionView>,
    id: Seq<char>,
    current: SourceProviderView,
)
    ensures
        visible_from(sessions, id, current) <= sessions_from(sessions, id),
    decreases sessions.len(),
{
    if sessions.len() > 0 {
        law_visible_within_sources(sessions.drop_last(), id, current);
    }
}

/// A remote session of the catalog is never counted as orphaned.
pub proof fn law_remote_is_not_orphaned(
    snapshot: SnapshotView,
    cohorts: SessionCohortsView,
    id: Seq<char>,
)
    requires
        cohorts.remote_catalog_ids.contains(id),
    ensures
        !orphaned_ids(snapshot, cohorts).contains(id),
{
}

/// Whatever the state database holds is discovered, and is no orphan.
pub proof fn law_stored_is_no_orphan(
    snapshot: SnapshotView,
    cohorts: SessionCohortsView,
    id: Seq<char>,
)
    requires
        thread_ids(snapshot).contains(id),
    ensures
        discovered_ids(snapshot).contains(id),
        !orphaned_ids(snapshot, cohorts).contains(id),
{
}

/// What a scan counts: a session is discovered where a state row, a catalog row, a rollout or the
/// index names it; orphaned where it is discovered, has no state row and no remote catalog row; and
/// its catalog row drifts where the first local one is no candidate and names another provider.
pub proof fn law_counted_sessions(
    snapshot: SnapshotView,
    cohorts: SessionCohortsView,
    thread: ThreadRowView,
    id: Seq<char>,
)
    ensures
        discovered_ids(snapshot).contains(id) <==> {
            ||| exists|i: int|
                0 <= i < snapshot.threads.len() && (#[trigger] snapshot.threads[i]).id == id
            ||| exists|i: int|
                0 <= i < snapshot.catalog.len() && (#[trigger] snapshot.catalog[i]).thread_id == id
            ||| snapshot.rollouts.contains(id)
            ||| snapshot.session_index.contains(id)
        },
        orphaned_ids(snapshot, cohorts).contains(id) <==> discovered_ids(snapshot).contains(id)
            && !cohorts.remote_catalog_ids.contains(id) && !(exists|i: int|
            0 <= i < snapshot.threads.len() && (#[trigger] snapshot.threads[i]).id == id),
        missing_catalog_ids(cohorts).contains(id) <==> cohorts.recoverable_ids.contains(id)
            && !cohorts.local_catalog_ids.contains(id),
        automated_thread(snapshot, thread) <==> !thread.archived && (locality::skipped_thread(
            thread,
        ) || locality::automated_rollout(snapshot, thread.id)),
        left_out(cohorts, thread) <==> !thread.archived && (locality::skipped_thread(thread)
            || cohorts.remote_excluded_thread_ids.contains(thread.id)
            || cohorts.missing_rollout_ids.contains(thread.id)),
        ({
            let rows = locality::local_rows_of(snapshot.catalog, thread.id);
            catalog_drifts(snapshot, cohorts, thread) <==> cohorts.recoverable_ids.contains(
                thread.id,
            ) && rows.len() > 0 && !rows[0].missing_candidate && rows[0].provider != thread.provider
        }),
        rollout_drifts(snapshot, cohorts, thread) ==> cohorts.recoverable_ids.contains(thread.id)
            && snapshot.rollout_providers.dom().contains(thread.id),
        forall|provider: Seq<char>|
            cohorts.recoverable_ids.contains(thread.id) && snapshot.rollout_providers.dom().contains(
                thread.id,
            ) && #[trigger] snapshot.rollout_providers[thread.id].contains(provider) && provider
                != thread.provider ==> rollout_drifts(snapshot, cohorts, thread),
        snapshot.rollout_providers.dom().contains(thread.id) && (forall|provider: Seq<char>|
            #[trigger]
            snapshot.rollout_providers[thread.id].contains(provider) ==> provider
                == thread.provider) ==> !rollout_drifts(snapshot, cohorts, thread),
{
}

/// The sessions of a scan that the catalog lists and those that it lacks are together the
/// recoverable ones; a scan passes on what it was told of the home; and rights are wanted exactly
/// where the processes could not be listed or a source says so.
pub proof fn law_scan_adds_up(
    notes: HomeNotesView,
    current: Option<Seq<char>>,
    configured: Set<Seq<char>>,
    snapshot: SnapshotView,
    store: Option<ProjectionStoreView>,
)
    requires
        sessions::recoverable_ids(snapshot).finite(),
        sessions::recoverable_ids(snapshot).len() <= usize::MAX,
    ensures
        ({
            let scan = scanned(
                notes,
                current,
                configured,
                snapshot,
                store,
                sessions::cohorts_of(snapshot),
            );
            &&& scan.recoverable_indexed + scan.missing_catalog == scan.recoverable_sessions
            &&& scan.codex_home == notes.home
            &&& scan.lock_detail == notes.lock
            &&& scan.lock == notes.lock.state
            &&& scan.last_backup == notes.last_backup
            &&& scan.pending_operation == notes.pending_operation
            &&& scan.sqlite == snapshot.sqlite_readable
            &&& scan.sources.len() == snapshot.sources.len() + 1
            &&& scan.sources.last() == notes.global_state
            &&& scan.sources.drop_last() == snapshot.sources
            &&& current is Some ==> scan.current_provider == current->0
            &&& scan.needs_admin <==> notes.lock.active_processes.contains(
                "process-enumeration-failed"@,
            ) || names_access(notes.global_state.note) || exists|i: int|
                0 <= i < snapshot.sources.len() && names_access(
                    (#[trigger] snapshot.sources[i]).note,
                )
        }),
{
    let recoverable = sessions::recoverable_ids(snapshot);
    let local = sessions::local_catalog_ids(snapshot.catalog);
    let listed = recoverable.intersect(local);
    let lacking = recoverable.difference(local);
    assert(listed + lacking =~= recoverable);
    vstd::set_lib::lemma_len_intersect(recoverable, local);
    vstd::set_lib::lemma_len_difference(recoverable, local);
    vstd::set_lib::lemma_set_disjoint_lens(listed, lacking);
    ordered::lemma_finite_is_listed::<String>(recoverable);
    ordered::lemma_finite_is_listed::<String>(listed);
    ordered::lemma_finite_is_listed::<String>(lacking);
    let sources = snapshot.sources.push(notes.global_state);
    assert(sources.drop_last() =~= snapshot.sources);
    if names_access(notes.global_state.note) {
        assert(sources[sources.len() - 1] == notes.global_state);
    }
    if exists|i: int|
        0 <= i < snapshot.sources.len() && names_access((#[trigger] snapshot.sources[i]).note) {
        let i = choose|i: int|
            0 <= i < snapshot.sources.len() && names_access((#[trigger] snapshot.sources[i]).note);
        assert(sources[i] == snapshot.sources[i]);
    }
    if exists|i: int| 0 <= i < sources.len() && names_access((#[trigger] sources[i]).note) {
        let i = choose|i: int| 0 <= i < sources.len() && names_access((#[trigger] sources[i]).note);
        if i < snapshot.sources.len() {
            assert(snapshot.sources[i] == sources[i]);
        }
    }
}

/// Sessions are counted for the provider that they came from and for no other: one more session adds
/// one to its own provider, and to those that show exactly where state and catalog both name the
/// current provider.
pub proof fn law_session_counts_for_its_origin(
    sessions: Seq<EligibleSessionView>,
    session: EligibleSessionView,
    id: Seq<char>,
    current: SourceProviderView,
)
    ensures
        sessions_from(Seq::empty(), id) == 0,
        visible_from(Seq::empty(), id, current) == 0,
        sessions_from(sessions.push(session), id) == sessions_from(sessions, id) + (if
        projection::provider_id(session.origin_provider) == id {
            1nat
        } else {
            0nat
        }),
        visible_from(sessions.push(session), id, current) == visible_from(sessions, id, current) + (
        if projection::provider_id(session.origin_provider) == id && session.state_provider
            == current && session.catalog == (CatalogStateView::Present { provider: current }) {
            1nat
        } else {
            0nat
        }),
{
    assert(sessions.push(session).drop_last() =~= sessions);
}

/// A refresh offers as sources exactly the providers with sessions and the target.
pub proof fn law_offered_sources(providers: Seq<ProviderSummaryView>, target: Seq<char>, id: Seq<char>)
    ensures
        chosen_sources(providers, target).contains(id) <==> id == target || exists|i: int|
            0 <= i < providers.len() && (#[trigger] providers[i]).id == id
                && providers[i].source_sessions > 0,
    decreases providers.len(),
{
    broadcast use vstd::seq_lib::group_seq_properties;

    let keep = |provider: ProviderSummaryView| provider.source_sessions > 0;
    let kept = planning::kept(providers, keep);
    let ids = kept.map_values(|provider: ProviderSummaryView| provider.id);
    if ids.contains(id) {
        let k = choose|k: int| 0 <= k < ids.len() && ids[k] == id;
        effects::lemma_kept_contains(providers, keep, kept[k]);
        assert(kept.contains(kept[k]));
        let i = choose|i: int| 0 <= i < providers.len() && providers[i] == kept[k];
        assert(providers[i].id == id);
    }
    if exists|i: int|
        0 <= i < providers.len() && (#[trigger] providers[i]).id == id
            && providers[i].source_sessions > 0 {
        let i = choose|i: int|
            0 <= i < providers.len() && (#[trigger] providers[i]).id == id
                && providers[i].source_sessions > 0;
        effects::lemma_kept_contains(providers, keep, providers[i]);
        assert(kept.contains(providers[i]));
        let k = choose|k: int| 0 <= k < kept.len() && kept[k] == providers[i];
        assert(ids[k] == id);
    }
}

/// A provider is shown as active where it is the current one, as available where nothing came from
/// it, and else as a legacy one, under its name and in its color, with what came from it and what of
/// that shows.
pub proof fn law_providers_are_shown(
    id: Seq<char>,
    eligible: Seq<EligibleSessionView>,
    current: Seq<char>,
)
    requires
        eligible.len() <= usize::MAX,
    ensures
        ({
            let shown = provider_summary(id, eligible, current);
            &&& shown.id == id
            &&& shown.name == providers::shown_name(id)
            &&& shown.color == providers::shown_color(id)
            &&& shown.source_sessions == sessions_from(eligible, id)
            &&& shown.currently_visible == visible_from(eligible, id, source_or_unknown(current))
            &&& id == current ==> shown.status == "active"@
            &&& id != current && shown.source_sessions == 0 ==> shown.status == "available"@
            &&& id != current && shown.source_sessions > 0 ==> shown.status == "legacy"@
        }),
{
    lemma_kept_is_shorter(
        eligible,
        |session: EligibleSessionView| projection::provider_id(session.origin_provider) == id,
    );
    law_visible_within_sources(eligible, id, source_or_unknown(current));
}

proof fn lemma_kept_is_shorter<X>(items: Seq<X>, keep: spec_fn(X) -> bool)
    ensures
        planning::kept(items, keep).len() <= items.len(),
    decreases items.len(),
{
    if items.len() > 0 {
        lemma_kept_is_shorter(items.drop_last(), keep);
    }
}

/// A provider is shown exactly where it is configured, current, the origin of a session, named by a
/// local catalog row with a safe name, or named by the rollout of a recoverable session.
pub proof fn law_shown_providers(
    snapshot: SnapshotView,
    cohorts: SessionCohortsView,
    eligible: Seq<EligibleSessionView>,
    current: Option<Seq<char>>,
    configured: Set<Seq<char>>,
    id: Seq<char>,
)
    ensures
        shown_providers(snapshot, cohorts, eligible, current, configured).contains(id) <==> {
            ||| configured.contains(id)
            ||| current == Some(id)
            ||| exists|i: int|
                0 <= i < eligible.len() && projection::provider_id(
                    (#[trigger] eligible[i]).origin_provider,
                ) == id
            ||| exists|i: int|
                0 <= i < snapshot.catalog.len() && locality::local_row(
                    #[trigger] snapshot.catalog[i],
                ) && providers::safe_id(snapshot.catalog[i].provider)
                    && snapshot.catalog[i].provider == id
            ||| exists|thread: Seq<char>| #[trigger]
                cohorts.recoverable_ids.contains(thread)
                    && snapshot.rollout_providers.dom().contains(thread)
                    && snapshot.rollout_providers[thread].contains(id)
        },
{
}

} // verus!

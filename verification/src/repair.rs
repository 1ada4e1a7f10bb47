//! Repairing sessions: the plan, the order of the steps, and what is reported.

use crate::backups::{push_text, BackupCleanupResult, BackupCleanupResultView};
use crate::journal::{PendingOperation, PendingOperationView, RepairPhase};
use crate::model;
use crate::model::Model;
use crate::ordered;
use crate::ordered::OrderedSet;
use crate::planning;
use crate::planning::{
    build_plan_for_preview, collect_planned_ids, sort_reasons, RepairPlan, RepairPlanView,
    SkipReason, SkipReasonView,
};
use crate::preview;
use crate::preview::{
    projection_preview_for_snapshot, ProjectionPreviewResult, ProjectionPreviewResultView,
};
use crate::projection;
use crate::projection::{
    EligibleSession, EligibleSessionView, ProjectionScope, ProjectionStore, ProjectionStoreView,
};
use crate::providers;
use crate::providers::validate_current_target_provider;
use crate::reconciliation;
use crate::reconciliation::next_projection_store;
use crate::records;
use crate::records::{Snapshot, SnapshotView};
use crate::recovery;
use crate::recovery::{
    discard_aborted_repair_backup, finish_failed_online_repair, PendingRepairResolution,
};
use crate::sessions;
use crate::statements;
use crate::statements::plan_writes_catalog;
use crate::text;
use crate::text::{decimal, has_text, join2, join3, join4, same, to_lower};
use crate::verification;
use crate::verification::{VerifyResult, VerifyResultView};
use vstd::prelude::*;

verus! {

/// The outcome of a repair.
#[derive(Clone, Debug, PartialEq, Eq)]
pub struct RepairResult {
    pub changed_threads: usize,
    pub restored_threads: usize,
    pub state_updates: usize,
    pub rollout_updates: usize,
    pub catalog_updates: usize,
    pub catalog_inserts: usize,
    pub catalog_deletes: usize,
    pub workspace_hint_updates: usize,
    pub skipped: usize,
    pub skipped_reasons: Vec<SkipReason>,
    pub dry_run: bool,
    pub verified: bool,
    pub backup_path: Option<String>,
    pub backup_cleanup: Option<BackupCleanupResult>,
    pub plan_token: Option<String>,
    pub lock: String,
    pub needs_admin: bool,
}

/// What a `RepairResult` stands for.
#[verifier::ext_equal]
pub struct RepairResultView {
    pub changed_threads: usize,
    pub restored_threads: usize,
    pub state_updates: usize,
    pub rollout_updates: usize,
    pub catalog_updates: usize,
    pub catalog_inserts: usize,
    pub catalog_deletes: usize,
    pub workspace_hint_updates: usize,
    pub skipped: usize,
    pub skipped_reasons: Seq<SkipReasonView>,
    pub dry_run: bool,
    pub verified: bool,
    pub backup_path: Option<Seq<char>>,
    pub backup_cleanup: Option<BackupCleanupResultView>,
    pub plan_token: Option<Seq<char>>,
    pub lock: Seq<char>,
    pub needs_admin: bool,
}

impl DeepView for RepairResult {
    type V = RepairResultView;

    open spec fn deep_view(&self) -> RepairResultView {
        RepairResultView {
            changed_threads: self.changed_threads.deep_view(),
            restored_threads: self.restored_threads.deep_view(),
            state_updates: self.state_updates.deep_view(),
            rollout_updates: self.rollout_updates.deep_view(),
            catalog_updates: self.catalog_updates.deep_view(),
            catalog_inserts: self.catalog_inserts.deep_view(),
            catalog_deletes: self.catalog_deletes.deep_view(),
            workspace_hint_updates: self.workspace_hint_updates.deep_view(),
            skipped: self.skipped.deep_view(),
            skipped_reasons: self.skipped_reasons.deep_view(),
            dry_run: self.dry_run.deep_view(),
            verified: self.verified.deep_view(),
            backup_path: self.backup_path.deep_view(),
            backup_cleanup: self.backup_cleanup.deep_view(),
            plan_token: self.plan_token.deep_view(),
            lock: self.lock.deep_view(),
            needs_admin: self.needs_admin.deep_view(),
        }
    }
}

impl Model for RepairResult {
    fn copy_of(&self) -> (r: Self) {
        RepairResult {
            changed_threads: self.changed_threads.copy_of(),
            restored_threads: self.restored_threads.copy_of(),
            state_updates: self.state_updates.copy_of(),
            rollout_updates: self.rollout_updates.copy_of(),
            catalog_updates: self.catalog_updates.copy_of(),
            catalog_inserts: self.catalog_inserts.copy_of(),
            catalog_deletes: self.catalog_deletes.copy_of(),
            workspace_hint_updates: self.workspace_hint_updates.copy_of(),
            skipped: self.skipped.copy_of(),
            skipped_reasons: self.skipped_reasons.copy_of(),
            dry_run: self.dry_run.copy_of(),
            verified: self.verified.copy_of(),
            backup_path: self.backup_path.copy_of(),
            backup_cleanup: self.backup_cleanup.copy_of(),
            plan_token: self.plan_token.copy_of(),
            lock: self.lock.copy_of(),
            needs_admin: self.needs_admin.copy_of(),
        }
    }

    fn same_as(&self, other: &Self) -> (r: bool) {
        self.changed_threads.same_as(&other.changed_threads)
            && self.restored_threads.same_as(&other.restored_threads)
            && self.state_updates.same_as(&other.state_updates)
            && self.rollout_updates.same_as(&other.rollout_updates)
            && self.catalog_updates.same_as(&other.catalog_updates)
            && self.catalog_inserts.same_as(&other.catalog_inserts)
            && self.catalog_deletes.same_as(&other.catalog_deletes)
            && self.workspace_hint_updates.same_as(&other.workspace_hint_updates)
            && self.skipped.same_as(&other.skipped)
            && self.skipped_reasons.same_as(&other.skipped_reasons)
            && self.dry_run.same_as(&other.dry_run)
            && self.verified.same_as(&other.verified)
            && self.backup_path.same_as(&other.backup_path)
            && self.backup_cleanup.same_as(&other.backup_cleanup)
            && self.plan_token.same_as(&other.plan_token)
            && self.lock.same_as(&other.lock)
            && self.needs_admin.same_as(&other.needs_admin)
    }
}

/// A part of a repair, as progress is told.
#[derive(Clone, Copy, Debug, PartialEq, Eq, Structural)]
pub enum RepairProgressStage {
    Planning,
    AcquiringOperationLock,
    PlanValidated,
    AcquiringWriteFence,
    Backup,
    SqliteStaging,
    MetadataSync,
    Commit,
    Verification,
    Completed,
}

impl DeepView for RepairProgressStage {
    type V = RepairProgressStage;

    open spec fn deep_view(&self) -> RepairProgressStage {
        *self
    }
}

impl Model for RepairProgressStage {
    fn copy_of(&self) -> (r: Self) {
        *self
    }

    fn same_as(&self, other: &Self) -> (r: bool) {
        *self == *other
    }
}

/// How far a repair has come.
#[derive(Clone, Debug, PartialEq, Eq)]
pub struct RepairProgress {
    pub stage: RepairProgressStage,
    pub percent: u8,
    pub message: String,
    pub completed: Option<usize>,
    pub total: Option<usize>,
}

/// What a `RepairProgress` stands for.
#[verifier::ext_equal]
pub struct RepairProgressView {
    pub stage: RepairProgressStage,
    pub percent: u8,
    pub message: Seq<char>,
    pub completed: Option<usize>,
    pub total: Option<usize>,
}

impl DeepView for RepairProgress {
    type V = RepairProgressView;

    open spec fn deep_view(&self) -> RepairProgressView {
        RepairProgressView {
            stage: self.stage.deep_view(),
            percent: self.percent.deep_view(),
            message: self.message.deep_view(),
            completed: self.completed.deep_view(),
            total: self.total.deep_view(),
        }
    }
}

impl Model for RepairProgress {
    fn copy_of(&self) -> (r: Self) {
        RepairProgress {
            stage: self.stage.copy_of(),
            percent: self.percent.copy_of(),
            message: self.message.copy_of(),
            completed: self.completed.copy_of(),
            total: self.total.copy_of(),
        }
    }

    fn same_as(&self, other: &Self) -> (r: bool) {
        self.stage.same_as(&other.stage)
            && self.percent.same_as(&other.percent)
            && self.message.same_as(&other.message)
            && self.completed.same_as(&other.completed)
            && self.total.same_as(&other.total)
    }
}

/// What a repair would do.
#[derive(Clone, Debug, PartialEq, Eq)]
pub struct RepairDraft {
    pub changed_threads: usize,
    pub state_updates: usize,
    pub rollout_updates: usize,
    pub catalog_updates: usize,
    pub catalog_inserts: usize,
    pub catalog_deletes: usize,
    pub workspace_hint_updates: usize,
    /// How many sessions the plan looks at.
    pub planned_sessions: usize,
    /// How many sessions are verified afterwards.
    pub desired_sessions: usize,
    pub skipped_reasons: Vec<SkipReason>,
    pub plan_token: String,
    /// Something is in conflict.
    pub conflicts: bool,
    /// The store of projections changes.
    pub projection_changed: bool,
    pub writes_catalog: bool,
    pub adds_sessions: bool,
    /// Why there is no next store of projections.
    pub store_fault: Option<String>,
}

/// What a `RepairDraft` stands for.
#[verifier::ext_equal]
pub struct RepairDraftView {
    pub changed_threads: usize,
    pub state_updates: usize,
    pub rollout_updates: usize,
    pub catalog_updates: usize,
    pub catalog_inserts: usize,
    pub catalog_deletes: usize,
    pub workspace_hint_updates: usize,
    pub planned_sessions: usize,
    pub desired_sessions: usize,
    pub skipped_reasons: Seq<SkipReasonView>,
    pub plan_token: Seq<char>,
    pub conflicts: bool,
    pub projection_changed: bool,
    pub writes_catalog: bool,
    pub adds_sessions: bool,
    pub store_fault: Option<Seq<char>>,
}

impl DeepView for RepairDraft {
    type V = RepairDraftView;

    open spec fn deep_view(&self) -> RepairDraftView {
        RepairDraftView {
            changed_threads: self.changed_threads.deep_view(),
            state_updates: self.state_updates.deep_view(),
            rollout_updates: self.rollout_updates.deep_view(),
            catalog_updates: self.catalog_updates.deep_view(),
            catalog_inserts: self.catalog_inserts.deep_view(),
            catalog_deletes: self.catalog_deletes.deep_view(),
            workspace_hint_updates: self.workspace_hint_updates.deep_view(),
            planned_sessions: self.planned_sessions.deep_view(),
            desired_sessions: self.desired_sessions.deep_view(),
            skipped_reasons: self.skipped_reasons.deep_view(),
            plan_token: self.plan_token.deep_view(),
            conflicts: self.conflicts.deep_view(),
            projection_changed: self.projection_changed.deep_view(),
            writes_catalog: self.writes_catalog.deep_view(),
            adds_sessions: self.adds_sessions.deep_view(),
            store_fault: self.store_fault.deep_view(),
        }
    }
}

impl Model for RepairDraft {
    fn copy_of(&self) -> (r: Self) {
        RepairDraft {
            changed_threads: self.changed_threads.copy_of(),
            state_updates: self.state_updates.copy_of(),
            rollout_updates: self.rollout_updates.copy_of(),
            catalog_updates: self.catalog_updates.copy_of(),
            catalog_inserts: self.catalog_inserts.copy_of(),
            catalog_deletes: self.catalog_deletes.copy_of(),
            workspace_hint_updates: self.workspace_hint_updates.copy_of(),
            planned_sessions: self.planned_sessions.copy_of(),
            desired_sessions: self.desired_sessions.copy_of(),
            skipped_reasons: self.skipped_reasons.copy_of(),
            plan_token: self.plan_token.copy_of(),
            conflicts: self.conflicts.copy_of(),
            projection_changed: self.projection_changed.copy_of(),
            writes_catalog: self.writes_catalog.copy_of(),
            adds_sessions: self.adds_sessions.copy_of(),
            store_fault: self.store_fault.copy_of(),
        }
    }

    fn same_as(&self, other: &Self) -> (r: bool) {
        self.changed_threads.same_as(&other.changed_threads)
            && self.state_updates.same_as(&other.state_updates)
            && self.rollout_updates.same_as(&other.rollout_updates)
            && self.catalog_updates.same_as(&other.catalog_updates)
            && self.catalog_inserts.same_as(&other.catalog_inserts)
            && self.catalog_deletes.same_as(&other.catalog_deletes)
            && self.workspace_hint_updates.same_as(&other.workspace_hint_updates)
            && self.planned_sessions.same_as(&other.planned_sessions)
            && self.desired_sessions.same_as(&other.desired_sessions)
            && self.skipped_reasons.same_as(&other.skipped_reasons)
            && self.plan_token.same_as(&other.plan_token)
            && self.conflicts.same_as(&other.conflicts)
            && self.projection_changed.same_as(&other.projection_changed)
            && self.writes_catalog.same_as(&other.writes_catalog)
            && self.adds_sessions.same_as(&other.adds_sessions)
            && self.store_fault.same_as(&other.store_fault)
    }
}

/// What was planned.
#[derive(Debug, PartialEq, Eq)]
pub struct PlannedRepair {
    pub preview: ProjectionPreviewResult,
    pub plan: RepairPlan,
    pub sessions: Vec<EligibleSession>,
    pub skipped_reasons: Vec<SkipReason>,
    /// The store of projections after the repair, or why there is none.
    pub next_store: Option<ProjectionStore>,
    pub store_fault: Option<String>,
}

/// What a `PlannedRepair` stands for.
#[verifier::ext_equal]
pub struct PlannedRepairView {
    pub preview: ProjectionPreviewResultView,
    pub plan: RepairPlanView,
    pub sessions: Seq<EligibleSessionView>,
    pub skipped_reasons: Seq<SkipReasonView>,
    pub next_store: Option<ProjectionStoreView>,
    pub store_fault: Option<Seq<char>>,
}

impl DeepView for PlannedRepair {
    type V = PlannedRepairView;

    open spec fn deep_view(&self) -> PlannedRepairView {
        PlannedRepairView {
            preview: self.preview.deep_view(),
            plan: self.plan.deep_view(),
            sessions: self.sessions.deep_view(),
            skipped_reasons: self.skipped_reasons.deep_view(),
            next_store: self.next_store.deep_view(),
            store_fault: self.store_fault.deep_view(),
        }
    }
}

impl Model for PlannedRepair {
    fn copy_of(&self) -> (r: Self) {
        PlannedRepair {
            preview: self.preview.copy_of(),
            plan: self.plan.copy_of(),
            sessions: self.sessions.copy_of(),
            skipped_reasons: self.skipped_reasons.copy_of(),
            next_store: self.next_store.copy_of(),
            store_fault: self.store_fault.copy_of(),
        }
    }

    fn same_as(&self, other: &Self) -> (r: bool) {
        self.preview.same_as(&other.preview)
            && self.plan.same_as(&other.plan)
            && self.sessions.same_as(&other.sessions)
            && self.skipped_reasons.same_as(&other.skipped_reasons)
            && self.next_store.same_as(&other.next_store)
            && self.store_fault.same_as(&other.store_fault)
    }
}

/// What a repair waits for.
#[derive(Clone, Copy, Debug, PartialEq, Eq, Structural)]
pub enum RepairStage {
    Scan,
    /// The first plan.
    Plan,
    /// The state of the lock, for a preview.
    LockState,
    Lock,
    Pending,
    /// An interrupted repair is being settled.
    Settle,
    CleanUp,
    Schema,
    Fingerprint,
    Rescan,
    /// The plan under the lock.
    Replan,
    /// Without anything to write but the store of projections.
    QuietCompare,
    QuietGuard,
    QuietCompareAgain,
    QuietSave,
    QuietVerify,
    Fence,
    InsertSchema,
    Backup,
    /// The writes are being staged, and the journal made.
    Staging,
    Compare,
    Guard,
    CompareAgain,
    GlobalState,
    /// The journal is being written.
    Note,
    Sidecars,
    Commit,
    NoteCommitted,
    Verify,
    Clear,
    LastCleanUp,
    NoteFailed,
    /// A failed repair is being settled.
    SettleFailed,
    Discard,
    Done,
}

impl DeepView for RepairStage {
    type V = RepairStage;

    open spec fn deep_view(&self) -> RepairStage {
        *self
    }
}

impl Model for RepairStage {
    fn copy_of(&self) -> (r: Self) {
        *self
    }

    fn same_as(&self, other: &Self) -> (r: bool) {
        *self == *other
    }
}

/// A repair.
#[derive(Clone, Debug, PartialEq, Eq)]
pub struct RepairState {
    pub stage: RepairStage,
    pub dry_run: bool,
    /// Progress is told.
    pub talks: bool,
    pub expected_token: Option<String>,
    /// The shown path of the configuration.
    pub config_path: String,
    /// The digest of the configuration that was planned for.
    pub fingerprint: Option<String>,
    pub draft: Option<RepairDraft>,
    /// The cleanup before the repair.
    pub cleanup: Option<BackupCleanupResult>,
    pub backup_path: String,
    /// How many sessions were verified.
    pub checked: usize,
    /// Why the repair failed.
    pub error: String,
    /// Why the journal could not be marked as committed.
    pub committed_error: Option<String>,
}

/// What a `RepairState` stands for.
#[verifier::ext_equal]
pub struct RepairStateView {
    pub stage: RepairStage,
    pub dry_run: bool,
    pub talks: bool,
    pub expected_token: Option<Seq<char>>,
    pub config_path: Seq<char>,
    pub fingerprint: Option<Seq<char>>,
    pub draft: Option<RepairDraftView>,
    pub cleanup: Option<BackupCleanupResultView>,
    pub backup_path: Seq<char>,
    pub checked: usize,
    pub error: Seq<char>,
    pub committed_error: Option<Seq<char>>,
}

impl DeepView for RepairState {
    type V = RepairStateView;

    open spec fn deep_view(&self) -> RepairStateView {
        RepairStateView {
            stage: self.stage.deep_view(),
            dry_run: self.dry_run.deep_view(),
            talks: self.talks.deep_view(),
            expected_token: self.expected_token.deep_view(),
            config_path: self.config_path.deep_view(),
            fingerprint: self.fingerprint.deep_view(),
            draft: self.draft.deep_view(),
            cleanup: self.cleanup.deep_view(),
            backup_path: self.backup_path.deep_view(),
            checked: self.checked.deep_view(),
            error: self.error.deep_view(),
            committed_error: self.committed_error.deep_view(),
        }
    }
}

impl Model for RepairState {
    fn copy_of(&self) -> (r: Self) {
        RepairState {
            stage: self.stage.copy_of(),
            dry_run: self.dry_run.copy_of(),
            talks: self.talks.copy_of(),
            expected_token: self.expected_token.copy_of(),
            config_path: self.config_path.copy_of(),
            fingerprint: self.fingerprint.copy_of(),
            draft: self.draft.copy_of(),
            cleanup: self.cleanup.copy_of(),
            backup_path: self.backup_path.copy_of(),
            checked: self.checked.copy_of(),
            error: self.error.copy_of(),
            committed_error: self.committed_error.copy_of(),
        }
    }

    fn same_as(&self, other: &Self) -> (r: bool) {
        self.stage.same_as(&other.stage)
            && self.dry_run.same_as(&other.dry_run)
            && self.talks.same_as(&other.talks)
            && self.expected_token.same_as(&other.expected_token)
            && self.config_path.same_as(&other.config_path)
            && self.fingerprint.same_as(&other.fingerprint)
            && self.draft.same_as(&other.draft)
            && self.cleanup.same_as(&other.cleanup)
            && self.backup_path.same_as(&other.backup_path)
            && self.checked.same_as(&other.checked)
            && self.error.same_as(&other.error)
            && self.committed_error.same_as(&other.committed_error)
    }
}

/// What happened during a repair.
#[derive(Debug, PartialEq, Eq)]
pub enum RepairEvent {
    /// It failed: why.
    Failed(String),
    Succeeded,
    /// The sessions were read; whether the state database is readable.
    Scanned(bool),
    Drafted(RepairDraft),
    /// The state of the lock.
    LockState(String),
    Pending(Option<PendingOperation>),
    /// An interrupted repair was settled.
    Settled(PendingRepairResolution),
    /// Backups were cleaned up.
    Cleaned(BackupCleanupResult),
    /// The digest of the configuration, if there is one.
    Hashed(Option<String>),
    /// A backup was made, at the path.
    BackedUp(String),
    /// The sessions were verified; why an undone projection does not read as it should.
    Verified { result: VerifyResult, undone: Option<String> },
}

/// What a `RepairEvent` stands for.
#[verifier::ext_equal]
pub enum RepairEventView {
    Failed(Seq<char>),
    Succeeded,
    Scanned(bool),
    Drafted(RepairDraftView),
    LockState(Seq<char>),
    Pending(Option<PendingOperationView>),
    Settled(PendingRepairResolution),
    Cleaned(BackupCleanupResultView),
    Hashed(Option<Seq<char>>),
    BackedUp(Seq<char>),
    Verified { result: VerifyResultView, undone: Option<Seq<char>> },
}

impl DeepView for RepairEvent {
    type V = RepairEventView;

    open spec fn deep_view(&self) -> RepairEventView {
        match self {
            RepairEvent::Failed(value) => RepairEventView::Failed(value.deep_view()),
            RepairEvent::Succeeded => RepairEventView::Succeeded,
            RepairEvent::Scanned(value) => RepairEventView::Scanned(value.deep_view()),
            RepairEvent::Drafted(value) => RepairEventView::Drafted(value.deep_view()),
            RepairEvent::LockState(value) => RepairEventView::LockState(value.deep_view()),
            RepairEvent::Pending(value) => RepairEventView::Pending(value.deep_view()),
            RepairEvent::Settled(value) => RepairEventView::Settled(value.deep_view()),
            RepairEvent::Cleaned(value) => RepairEventView::Cleaned(value.deep_view()),
            RepairEvent::Hashed(value) => RepairEventView::Hashed(value.deep_view()),
            RepairEvent::BackedUp(value) => RepairEventView::BackedUp(value.deep_view()),
            RepairEvent::Verified { result, undone } => RepairEventView::Verified {
                result: result.deep_view(),
                undone: undone.deep_view(),
            },
        }
    }
}

impl Model for RepairEvent {
    fn copy_of(&self) -> (r: Self) {
        match self {
            RepairEvent::Failed(value) => RepairEvent::Failed(value.copy_of()),
            RepairEvent::Succeeded => RepairEvent::Succeeded,
            RepairEvent::Scanned(value) => RepairEvent::Scanned(value.copy_of()),
            RepairEvent::Drafted(value) => RepairEvent::Drafted(value.copy_of()),
            RepairEvent::LockState(value) => RepairEvent::LockState(value.copy_of()),
            RepairEvent::Pending(value) => RepairEvent::Pending(value.copy_of()),
            RepairEvent::Settled(value) => RepairEvent::Settled(value.copy_of()),
            RepairEvent::Cleaned(value) => RepairEvent::Cleaned(value.copy_of()),
            RepairEvent::Hashed(value) => RepairEvent::Hashed(value.copy_of()),
            RepairEvent::BackedUp(value) => RepairEvent::BackedUp(value.copy_of()),
            RepairEvent::Verified { result, undone } => RepairEvent::Verified {
                result: result.copy_of(),
                undone: undone.copy_of(),
            },
        }
    }

    fn same_as(&self, other: &Self) -> (r: bool) {
        match (self, other) {
            (RepairEvent::Failed(value_l), RepairEvent::Failed(value_r)) => value_l.same_as(value_r),
            (RepairEvent::Succeeded, RepairEvent::Succeeded) => true,
            (RepairEvent::Scanned(value_l), RepairEvent::Scanned(value_r)) => value_l.same_as(value_r),
            (RepairEvent::Drafted(value_l), RepairEvent::Drafted(value_r)) => value_l.same_as(value_r),
            (RepairEvent::LockState(value_l), RepairEvent::LockState(value_r)) => value_l.same_as(value_r),
            (RepairEvent::Pending(value_l), RepairEvent::Pending(value_r)) => value_l.same_as(value_r),
            (RepairEvent::Settled(value_l), RepairEvent::Settled(value_r)) => value_l.same_as(value_r),
            (RepairEvent::Cleaned(value_l), RepairEvent::Cleaned(value_r)) => value_l.same_as(value_r),
            (RepairEvent::Hashed(value_l), RepairEvent::Hashed(value_r)) => value_l.same_as(value_r),
            (RepairEvent::BackedUp(value_l), RepairEvent::BackedUp(value_r)) => value_l.same_as(value_r),
            (
                RepairEvent::Verified { result: result_l, undone: undone_l },
                RepairEvent::Verified { result: result_r, undone: undone_r },
            ) => result_l.same_as(result_r) && undone_l.same_as(undone_r),
            _ => false,
        }
    }
}

/// What is to be done for a repair.
#[derive(Clone, Debug, PartialEq, Eq)]
pub enum RepairAction {
    /// Read the sessions.
    Scan,
    Plan,
    InspectLock,
    AcquireLock,
    ReadPending,
    SettlePending,
    /// Clean backups up, sparing the one at the path.
    CleanUp(Option<String>),
    CheckSchema,
    /// Take the digest of the configuration.
    HashConfig,
    GuardConfig,
    SaveStore,
    /// Open the databases for writing; whether the catalog is written too.
    AcquireFence(bool),
    CheckInsertSchema,
    MakeBackup,
    StageWrites,
    AcquireGlobalState,
    /// Write the journal in the phase.
    WriteJournal(RepairPhase),
    /// Write rollouts, workspace hints and the store of projections.
    WriteSidecars,
    Commit,
    /// Verify the sessions as they were planned, or as they read now.
    VerifyPlanned,
    VerifyFresh,
    ClearPending,
    SettleFailed,
    DiscardBackup,
    Report(RepairResult),
    Refuse(String),
}

/// What a `RepairAction` stands for.
#[verifier::ext_equal]
pub enum RepairActionView {
    Scan,
    Plan,
    InspectLock,
    AcquireLock,
    ReadPending,
    SettlePending,
    CleanUp(Option<Seq<char>>),
    CheckSchema,
    HashConfig,
    GuardConfig,
    SaveStore,
    AcquireFence(bool),
    CheckInsertSchema,
    MakeBackup,
    StageWrites,
    AcquireGlobalState,
    WriteJournal(RepairPhase),
    WriteSidecars,
    Commit,
    VerifyPlanned,
    VerifyFresh,
    ClearPending,
    SettleFailed,
    DiscardBackup,
    Report(RepairResultView),
    Refuse(Seq<char>),
}

impl DeepView for RepairAction {
    type V = RepairActionView;

    open spec fn deep_view(&self) -> RepairActionView {
        match self {
            RepairAction::Scan => RepairActionView::Scan,
            RepairAction::Plan => RepairActionView::Plan,
            RepairAction::InspectLock => RepairActionView::InspectLock,
            RepairAction::AcquireLock => RepairActionView::AcquireLock,
            RepairAction::ReadPending => RepairActionView::ReadPending,
            RepairAction::SettlePending => RepairActionView::SettlePending,
            RepairAction::CleanUp(value) => RepairActionView::CleanUp(value.deep_view()),
            RepairAction::CheckSchema => RepairActionView::CheckSchema,
            RepairAction::HashConfig => RepairActionView::HashConfig,
            RepairAction::GuardConfig => RepairActionView::GuardConfig,
            RepairAction::SaveStore => RepairActionView::SaveStore,
            RepairAction::AcquireFence(value) => RepairActionView::AcquireFence(value.deep_view()),
            RepairAction::CheckInsertSchema => RepairActionView::CheckInsertSchema,
            RepairAction::MakeBackup => RepairActionView::MakeBackup,
            RepairAction::StageWrites => RepairActionView::StageWrites,
            RepairAction::AcquireGlobalState => RepairActionView::AcquireGlobalState,
            RepairAction::WriteJournal(value) => RepairActionView::WriteJournal(value.deep_view()),
            RepairAction::WriteSidecars => RepairActionView::WriteSidecars,
            RepairAction::Commit => RepairActionView::Commit,
            RepairAction::VerifyPlanned => RepairActionView::VerifyPlanned,
            RepairAction::VerifyFresh => RepairActionView::VerifyFresh,
            RepairAction::ClearPending => RepairActionView::ClearPending,
            RepairAction::SettleFailed => RepairActionView::SettleFailed,
            RepairAction::DiscardBackup => RepairActionView::DiscardBackup,
            RepairAction::Report(value) => RepairActionView::Report(value.deep_view()),
            RepairAction::Refuse(value) => RepairActionView::Refuse(value.deep_view()),
        }
    }
}

impl Model for RepairAction {
    fn copy_of(&self) -> (r: Self) {
        match self {
            RepairAction::Scan => RepairAction::Scan,
            RepairAction::Plan => RepairAction::Plan,
            RepairAction::InspectLock => RepairAction::InspectLock,
            RepairAction::AcquireLock => RepairAction::AcquireLock,
            RepairAction::ReadPending => RepairAction::ReadPending,
            RepairAction::SettlePending => RepairAction::SettlePending,
            RepairAction::CleanUp(value) => RepairAction::CleanUp(value.copy_of()),
            RepairAction::CheckSchema => RepairAction::CheckSchema,
            RepairAction::HashConfig => RepairAction::HashConfig,
            RepairAction::GuardConfig => RepairAction::GuardConfig,
            RepairAction::SaveStore => RepairAction::SaveStore,
            RepairAction::AcquireFence(value) => RepairAction::AcquireFence(value.copy_of()),
            RepairAction::CheckInsertSchema => RepairAction::CheckInsertSchema,
            RepairAction::MakeBackup => RepairAction::MakeBackup,
            RepairAction::StageWrites => RepairAction::StageWrites,
            RepairAction::AcquireGlobalState => RepairAction::AcquireGlobalState,
            RepairAction::WriteJournal(value) => RepairAction::WriteJournal(value.copy_of()),
            RepairAction::WriteSidecars => RepairAction::WriteSidecars,
            RepairAction::Commit => RepairAction::Commit,
            RepairAction::VerifyPlanned => RepairAction::VerifyPlanned,
            RepairAction::VerifyFresh => RepairAction::VerifyFresh,
            RepairAction::ClearPending => RepairAction::ClearPending,
            RepairAction::SettleFailed => RepairAction::SettleFailed,
            RepairAction::DiscardBackup => RepairAction::DiscardBackup,
            RepairAction::Report(value) => RepairAction::Report(value.copy_of()),
            RepairAction::Refuse(value) => RepairAction::Refuse(value.copy_of()),
        }
    }

    fn same_as(&self, other: &Self) -> (r: bool) {
        match (self, other) {
            (RepairAction::Scan, RepairAction::Scan) => true,
            (RepairAction::Plan, RepairAction::Plan) => true,
            (RepairAction::InspectLock, RepairAction::InspectLock) => true,
            (RepairAction::AcquireLock, RepairAction::AcquireLock) => true,
            (RepairAction::ReadPending, RepairAction::ReadPending) => true,
            (RepairAction::SettlePending, RepairAction::SettlePending) => true,
            (RepairAction::CleanUp(value_l), RepairAction::CleanUp(value_r)) => value_l.same_as(value_r),
            (RepairAction::CheckSchema, RepairAction::CheckSchema) => true,
            (RepairAction::HashConfig, RepairAction::HashConfig) => true,
            (RepairAction::GuardConfig, RepairAction::GuardConfig) => true,
            (RepairAction::SaveStore, RepairAction::SaveStore) => true,
            (RepairAction::AcquireFence(value_l), RepairAction::AcquireFence(value_r)) => value_l.same_as(value_r),
            (RepairAction::CheckInsertSchema, RepairAction::CheckInsertSchema) => true,
            (RepairAction::MakeBackup, RepairAction::MakeBackup) => true,
            (RepairAction::StageWrites, RepairAction::StageWrites) => true,
            (RepairAction::AcquireGlobalState, RepairAction::AcquireGlobalState) => true,
            (RepairAction::WriteJournal(value_l), RepairAction::WriteJournal(value_r)) => value_l.same_as(value_r),
            (RepairAction::WriteSidecars, RepairAction::WriteSidecars) => true,
            (RepairAction::Commit, RepairAction::Commit) => true,
            (RepairAction::VerifyPlanned, RepairAction::VerifyPlanned) => true,
            (RepairAction::VerifyFresh, RepairAction::VerifyFresh) => true,
            (RepairAction::ClearPending, RepairAction::ClearPending) => true,
            (RepairAction::SettleFailed, RepairAction::SettleFailed) => true,
            (RepairAction::DiscardBackup, RepairAction::DiscardBackup) => true,
            (RepairAction::Report(value_l), RepairAction::Report(value_r)) => value_l.same_as(value_r),
            (RepairAction::Refuse(value_l), RepairAction::Refuse(value_r)) => value_l.same_as(value_r),
            _ => false,
        }
    }
}

/// A step of a repair.
#[derive(Clone, Debug, PartialEq, Eq)]
pub struct RepairStep {
    pub state: RepairState,
    pub progress: Vec<RepairProgress>,
    pub action: RepairAction,
}

/// What a `RepairStep` stands for.
#[verifier::ext_equal]
pub struct RepairStepView {
    pub state: RepairStateView,
    pub progress: Seq<RepairProgressView>,
    pub action: RepairActionView,
}

impl DeepView for RepairStep {
    type V = RepairStepView;

    open spec fn deep_view(&self) -> RepairStepView {
        RepairStepView {
            state: self.state.deep_view(),
            progress: self.progress.deep_view(),
            action: self.action.deep_view(),
        }
    }
}

impl Model for RepairStep {
    fn copy_of(&self) -> (r: Self) {
        RepairStep {
            state: self.state.copy_of(),
            progress: self.progress.copy_of(),
            action: self.action.copy_of(),
        }
    }

    fn same_as(&self, other: &Self) -> (r: bool) {
        self.state.same_as(&other.state)
            && self.progress.same_as(&other.progress)
            && self.action.same_as(&other.action)
    }
}

/// Reasons with each only where it comes first.
pub open spec fn distinct_reasons(reasons: Seq<SkipReasonView>) -> Seq<SkipReasonView>
    decreases reasons.len(),
{
    if reasons.len() == 0 {
        Seq::empty()
    } else {
        let rest = distinct_reasons(reasons.drop_last());
        if rest.contains(reasons.last()) {
            rest
        } else {
            rest.push(reasons.last())
        }
    }
}

/// The reasons of a preview and of a plan, each once, in order.
pub open spec fn merged_reasons(
    previewed: Seq<SkipReasonView>,
    planned: Seq<SkipReasonView>,
) -> Seq<SkipReasonView> {
    planning::reasons_in_order(distinct_reasons(previewed + planned))
}

fn holds_reason(reasons: &Vec<SkipReason>, reason: &SkipReason) -> (r: bool)
    ensures
        r == reasons.deep_view().contains(reason.deep_view()),
{
    let ghost view = reasons.deep_view();
    let mut i: usize = 0;
    while i < reasons.len()
        invariant
            i <= reasons@.len(),
            view == reasons.deep_view(),
            forall|j: int| 0 <= j < i ==> (#[trigger] view[j]) != reason.deep_view(),
        decreases reasons@.len() - i,
    {
        assert(view[i as int] == reasons@[i as int].deep_view());
        if reasons[i].same_as(reason) {
            return true;
        }
        i += 1;
    }
    false
}

fn add_distinct(out: &mut Vec<SkipReason>, more: &Vec<SkipReason>, Ghost(whole): Ghost<
    Seq<SkipReasonView>,
>)
    requires
        old(out).deep_view() == distinct_reasons(whole),
    ensures
        final(out).deep_view() == distinct_reasons(whole + more.deep_view()),
{
    let ghost view = more.deep_view();
    let mut i: usize = 0;
    assert(whole + view.take(0) =~= whole);
    while i < more.len()
        invariant
            i <= more@.len(),
            view == more.deep_view(),
            out.deep_view() == distinct_reasons(whole + view.take(i as int)),
        decreases more@.len() - i,
    {
        let ghost before = out.deep_view();
        let ghost longer = whole + view.take(i + 1);
        assert(view[i as int] == more@[i as int].deep_view());
        assert(longer.drop_last() =~= whole + view.take(i as int));
        assert(longer.last() == view[i as int]);
        if !holds_reason(out, &more[i]) {
            out.push(more[i].copy_of());
            assert(out.deep_view() =~= before.push(view[i as int]));
        }
        i += 1;
    }
    assert(view.take(i as int) =~= view);
}

fn merge_reasons(previewed: &Vec<SkipReason>, planned: &Vec<SkipReason>) -> (r: Vec<SkipReason>)
    ensures
        r.deep_view() == merged_reasons(previewed.deep_view(), planned.deep_view()),
{
    let mut out: Vec<SkipReason> = Vec::new();
    assert(out.deep_view() =~= distinct_reasons(Seq::empty()));
    add_distinct(&mut out, previewed, Ghost(Seq::empty()));
    assert(Seq::<SkipReasonView>::empty() + previewed.deep_view() =~= previewed.deep_view());
    add_distinct(&mut out, planned, Ghost(previewed.deep_view()));
    sort_reasons(&mut out);
    out
}

/// What was planned follows from a preview of the sessions.
pub open spec fn is_planned(
    planned: PlannedRepairView,
    snapshot: SnapshotView,
    target: Seq<char>,
) -> bool {
    &&& planned.plan == planning::limited_plan(
        planning::full_plan(snapshot, target),
        planning::planned_ids(planned.preview.plan.sessions),
    )
    &&& planned.skipped_reasons == merged_reasons(
        planned.preview.skipped_reasons,
        planned.plan.skipped,
    )
}

/// The store of projections after a planned repair at `timestamp`.
pub open spec fn has_next_store(
    planned: PlannedRepairView,
    snapshot: SnapshotView,
    store: Option<ProjectionStoreView>,
    timestamp: i64,
) -> bool {
    match reconciliation::next_store(
        store,
        planned.preview.plan,
        planned.sessions,
        snapshot,
        Set::empty(),
        timestamp,
    ) {
        Ok(next) => planned.next_store == Some(next) && planned.store_fault is None,
        Err(message) => planned.next_store is None && planned.store_fault == Some(message),
    }
}

/// What a preview is made of, for a repair.
pub open spec fn repair_basis(
    snapshot: SnapshotView,
    store: Option<ProjectionStoreView>,
    target: Seq<char>,
    selected: Option<Set<Seq<char>>>,
) -> preview::PreviewBasis {
    preview::preview_basis(
        snapshot,
        store,
        sessions::remote_ids(snapshot),
        projection::provider_of(target),
        selected,
    )
}

/// Plans the repair of the selected sessions, or of all where there is no selection, at
/// `timestamp`: the preview, the writes, why sessions are left out, and the next store of
/// projections.
pub fn plan_repair(
    snapshot: &Snapshot,
    store: Option<&ProjectionStore>,
    selected_sources: &Vec<String>,
    target_provider: &str,
    scope: ProjectionScope,
    selected_thread_ids: Option<&OrderedSet<String>>,
    timestamp: i64,
) -> (r: Result<PlannedRepair, String>)
    requires
        records::consistent(snapshot.deep_view()),
    ensures
        ({
            let basis = repair_basis(
                snapshot.deep_view(),
                sessions::store_view(store),
                target_provider@,
                reconciliation::set_view(selected_thread_ids),
            );
            match r {
                Ok(planned) => preview::preview_outcome(
                    Ok(planned.preview.deep_view()),
                    snapshot.deep_view(),
                    sessions::store_view(store),
                    basis,
                    target_provider@,
                    scope,
                ) && planned.sessions.deep_view() == basis.sessions && is_planned(
                    planned.deep_view(),
                    snapshot.deep_view(),
                    target_provider@,
                ) && has_next_store(
                    planned.deep_view(),
                    snapshot.deep_view(),
                    sessions::store_view(store),
                    timestamp,
                ),
                Err(message) => preview::preview_outcome(
                    Err(message@),
                    snapshot.deep_view(),
                    sessions::store_view(store),
                    basis,
                    target_provider@,
                    scope,
                ),
            }
        }),
{
    match projection_preview_for_snapshot(
        snapshot,
        store,
        selected_sources,
        target_provider,
        scope,
        selected_thread_ids,
    ) {
        Err(message) => Err(message),
        Ok((preview, found)) => {
            let plan = build_plan_for_preview(snapshot, target_provider, &preview.plan);
            let skipped_reasons = merge_reasons(&preview.skipped_reasons, &plan.skipped);
            let undone: OrderedSet<String> = OrderedSet::new();
            assert(undone.deep_view() =~= Set::empty());
            let (next_store, store_fault) = match next_projection_store(
                store,
                &preview.plan,
                &found,
                snapshot,
                &undone,
                timestamp,
            ) {
                Ok(next) => (Some(next), None),
                Err(message) => (None, Some(message)),
            };
            Ok(
                PlannedRepair {
                    preview,
                    plan,
                    sessions: found,
                    skipped_reasons,
                    next_store,
                    store_fault,
                },
            )
        },
    }
}

/// How many writes of state rows a plan has.
pub open spec fn state_writes(plan: RepairPlanView) -> usize {
    verification::count_of(
        (plan.state_updates.len() + plan.state_restores.len() + plan.state_inserts.len()
            + plan.state_deletes.len()) as int,
    )
}

/// What a repair would do, as far as its steps depend on it.
pub open spec fn draft_of(
    planned: PlannedRepairView,
    store: Option<ProjectionStoreView>,
) -> RepairDraftView {
    let plan = planned.plan;
    RepairDraftView {
        changed_threads: ordered::listed::<String>(plan.changed_ids).len() as usize,
        state_updates: state_writes(plan),
        rollout_updates: plan.rollout_updates.len() as usize,
        catalog_updates: plan.catalog_updates.len() as usize,
        catalog_inserts: plan.catalog_inserts.len() as usize,
        catalog_deletes: plan.catalog_deletes.len() as usize,
        workspace_hint_updates: plan.workspace_hint_updates.len() as usize,
        planned_sessions: planned.preview.plan.sessions.len() as usize,
        desired_sessions: ordered::listed::<String>(
            planning::planned_ids(planned.preview.plan.sessions),
        ).len() as usize,
        skipped_reasons: planned.skipped_reasons,
        plan_token: planned.preview.plan_token,
        conflicts: planned.preview.reconcile_conflicts > 0 || planned.preview.workspace_conflicts
            > 0,
        projection_changed: store is Some && planned.next_store is Some && store
            != planned.next_store,
        writes_catalog: statements::writes_catalog(plan),
        adds_sessions: plan.state_inserts.len() > 0,
        store_fault: planned.store_fault,
    }
}

/// Sums up what a repair would do to the sessions and to the store of projections.
pub fn draft_repair(planned: &PlannedRepair, store: &Option<ProjectionStore>) -> (r: RepairDraft)
    ensures
        r.deep_view() == draft_of(planned.deep_view(), store.deep_view()),
{
    let desired = collect_planned_ids(&planned.preview.plan);
    let next = &planned.next_store;
    let plan = &planned.plan;
    RepairDraft {
        changed_threads: plan.changed_ids.len(),
        state_updates: plan.state_updates.len().saturating_add(
            plan.state_restores.len(),
        ).saturating_add(plan.state_inserts.len()).saturating_add(plan.state_deletes.len()),
        rollout_updates: plan.rollout_updates.len(),
        catalog_updates: plan.catalog_updates.len(),
        catalog_inserts: plan.catalog_inserts.len(),
        catalog_deletes: plan.catalog_deletes.len(),
        workspace_hint_updates: plan.workspace_hint_updates.len(),
        planned_sessions: planned.preview.plan.sessions.len(),
        desired_sessions: desired.len(),
        skipped_reasons: planned.skipped_reasons.copy_of(),
        plan_token: planned.preview.plan_token.copy_of(),
        conflicts: planned.preview.reconcile_conflicts > 0 || planned.preview.workspace_conflicts
            > 0,
        projection_changed: store.is_some() && next.is_some() && !store.same_as(next),
        writes_catalog: plan_writes_catalog(plan),
        adds_sessions: plan.state_inserts.len() > 0,
        store_fault: planned.store_fault.copy_of(),
    }
}

/// What is told of a part of a repair.
pub open spec fn told(
    stage: RepairProgressStage,
    percent: u8,
    message: Seq<char>,
    counts: Option<(usize, usize)>,
) -> RepairProgressView {
    RepairProgressView {
        stage,
        percent,
        message,
        completed: match counts {
            Some((completed, _)) => Some(completed),
            None => None,
        },
        total: match counts {
            Some((_, total)) => Some(total),
            None => None,
        },
    }
}

/// A count that is told only where there is anything to count.
pub open spec fn counted(completed: usize, total: usize) -> Option<(usize, usize)> {
    if total > 0 {
        Some((completed, total))
    } else {
        None
    }
}

/// A count that is told only where there is anything to count.
fn find_counted(completed: usize, total: usize) -> (r: Option<(usize, usize)>)
    ensures
        r == counted(completed, total),
{
    if total > 0 {
        Some((completed, total))
    } else {
        None
    }
}

fn tell(
    progress: &mut Vec<RepairProgress>,
    stage: RepairProgressStage,
    percent: u8,
    message: &str,
    counts: Option<(usize, usize)>,
)
    ensures
        final(progress).deep_view() == old(progress).deep_view().push(
            told(stage, percent, message@, counts),
        ),
{
    let ghost before = progress.deep_view();
    let completed: Option<usize> = match counts {
        Some((completed, _)) => Some(completed),
        None => None,
    };
    let total: Option<usize> = match counts {
        Some((_, total)) => Some(total),
        None => None,
    };
    let said = RepairProgress { stage, percent, message: message.to_owned(), completed, total };
    progress.push(said);
    assert(progress.deep_view() =~= before.push(told(stage, percent, message@, counts)));
}

/// A repair starts with reading the sessions.
pub open spec fn repair_started(
    dry_run: bool,
    talks: bool,
    expected_token: Option<Seq<char>>,
    config_path: Seq<char>,
) -> RepairStateView {
    RepairStateView {
        stage: RepairStage::Scan,
        dry_run,
        talks,
        expected_token,
        config_path,
        fingerprint: None,
        draft: None,
        cleanup: None,
        backup_path: Seq::empty(),
        checked: 0,
        error: Seq::empty(),
        committed_error: None,
    }
}

/// A step, with what is told on the way.
pub open spec fn stepped(
    state: RepairStateView,
    stage: RepairStage,
    progress: Seq<RepairProgressView>,
    action: RepairActionView,
) -> RepairStepView {
    RepairStepView {
        state: RepairStateView { stage, ..state },
        progress: if state.talks {
            progress
        } else {
            Seq::empty()
        },
        action,
    }
}

/// The repair ends without success.
pub open spec fn repair_refused(state: RepairStateView, message: Seq<char>) -> RepairStepView {
    stepped(state, RepairStage::Done, Seq::empty(), RepairActionView::Refuse(message))
}

/// The repair is given up, and its backup discarded.
pub open spec fn aborted(state: RepairStateView, message: Seq<char>) -> RepairStepView {
    stepped(
        RepairStateView { error: message, ..state },
        RepairStage::Discard,
        Seq::empty(),
        RepairActionView::DiscardBackup,
    )
}

/// The result of a repair.
pub open spec fn repair_result(
    draft: RepairDraftView,
    dry_run: bool,
    verified: bool,
    backup_path: Option<Seq<char>>,
    cleanup: Option<BackupCleanupResultView>,
    lock: Seq<char>,
) -> RepairResultView {
    RepairResultView {
        changed_threads: draft.changed_threads,
        restored_threads: 0,
        state_updates: draft.state_updates,
        rollout_updates: draft.rollout_updates,
        catalog_updates: draft.catalog_updates,
        catalog_inserts: draft.catalog_inserts,
        catalog_deletes: draft.catalog_deletes,
        workspace_hint_updates: draft.workspace_hint_updates,
        skipped: draft.skipped_reasons.len() as usize,
        skipped_reasons: draft.skipped_reasons,
        dry_run,
        verified,
        backup_path,
        backup_cleanup: cleanup,
        plan_token: Some(draft.plan_token),
        lock,
        needs_admin: false,
    }
}

/// The result of a repair that had nothing to write.
pub open spec fn quiet_result(
    draft: RepairDraftView,
    verified: bool,
    cleanup: Option<BackupCleanupResultView>,
) -> RepairResultView {
    RepairResultView {
        changed_threads: 0,
        state_updates: 0,
        rollout_updates: 0,
        catalog_updates: 0,
        catalog_inserts: 0,
        catalog_deletes: 0,
        workspace_hint_updates: 0,
        ..repair_result(draft, false, verified, None, cleanup, "clear"@)
    }
}

/// The writes of the databases of a draft.
pub open spec fn database_writes(draft: RepairDraftView) -> usize {
    verification::count_of(
        draft.state_updates + draft.catalog_updates + draft.catalog_inserts
            + draft.catalog_deletes,
    )
}

/// The writes beside the databases of a draft.
pub open spec fn sidecar_writes(draft: RepairDraftView) -> usize {
    verification::count_of(draft.rollout_updates + draft.workspace_hint_updates + 1)
}

/// What follows from the first plan.
pub open spec fn after_plan(state: RepairStateView, draft: RepairDraftView) -> RepairStepView {
    let next = RepairStateView { draft: Some(draft), ..state };
    if state.dry_run {
        stepped(
            next,
            RepairStage::LockState,
            seq![
                told(
                    RepairProgressStage::PlanValidated,
                    90,
                    "Repair preview is ready"@,
                    counted(draft.planned_sessions, draft.planned_sessions),
                ),
            ],
            RepairActionView::InspectLock,
        )
    } else {
        stepped(
            next,
            RepairStage::Lock,
            seq![
                told(
                    RepairProgressStage::AcquiringOperationLock,
                    10,
                    "Acquiring the repair operation lock"@,
                    None,
                ),
            ],
            RepairActionView::AcquireLock,
        )
    }
}

/// The sessions are verified as they were planned.
pub open spec fn quiet_verification(
    state: RepairStateView,
    draft: RepairDraftView,
    progress: Seq<RepairProgressView>,
) -> RepairStepView {
    stepped(
        state,
        RepairStage::QuietVerify,
        progress.push(
            told(
                RepairProgressStage::Verification,
                90,
                "Verifying recovered sessions"@,
                counted(0, draft.desired_sessions),
            ),
        ),
        RepairActionView::VerifyPlanned,
    )
}

/// What is told once a plan under the lock was accepted.
pub open spec fn validated(draft: RepairDraftView) -> RepairProgressView {
    told(
        RepairProgressStage::PlanValidated,
        20,
        "Repair plan validated"@,
        counted(draft.planned_sessions, draft.planned_sessions),
    )
}

/// What follows from the plan under the lock.
pub open spec fn after_replan(state: RepairStateView, draft: RepairDraftView) -> RepairStepView {
    let next = RepairStateView { draft: Some(draft), ..state };
    if state.expected_token is Some && state.expected_token->0 != draft.plan_token {
        repair_refused(
            next,
            "repair plan changed after preview; refresh the scan and preview before applying"@,
        )
    } else if draft.store_fault is Some {
        repair_refused(next, draft.store_fault->0)
    } else if draft.changed_threads > 0 {
        stepped(
            next,
            RepairStage::Fence,
            seq![
                validated(draft),
                told(
                    RepairProgressStage::AcquiringWriteFence,
                    25,
                    "Acquiring the SQLite write fence"@,
                    None,
                ),
            ],
            RepairActionView::AcquireFence(draft.writes_catalog),
        )
    } else if draft.projection_changed {
        stepped(
            next,
            RepairStage::QuietCompare,
            seq![
                validated(draft),
                told(
                    RepairProgressStage::MetadataSync,
                    65,
                    "Synchronizing recovery metadata"@,
                    Some((0usize, 1usize)),
                ),
            ],
            RepairActionView::HashConfig,
        )
    } else {
        quiet_verification(next, draft, seq![validated(draft)])
    }
}

/// What follows from a pending operation.
pub open spec fn after_pending(
    state: RepairStateView,
    pending: Option<PendingOperationView>,
) -> RepairStepView {
    match pending {
        None => stepped(
            state,
            RepairStage::CleanUp,
            Seq::empty(),
            RepairActionView::CleanUp(None),
        ),
        Some(operation) => if operation.command == "repair"@ && operation.repair_journal is Some {
            stepped(state, RepairStage::Settle, Seq::empty(), RepairActionView::SettlePending)
        } else {
            repair_refused(
                state,
                "repair blocked by incomplete "@ + operation.command + " operation from "@
                    + operation.backup_path,
            )
        },
    }
}

/// The backup is made.
pub open spec fn backup_begun(state: RepairStateView) -> RepairStepView {
    stepped(
        state,
        RepairStage::Backup,
        seq![
            told(
                RepairProgressStage::Backup,
                32,
                "Creating a recovery backup"@,
                Some((0usize, 1usize)),
            ),
        ],
        RepairActionView::MakeBackup,
    )
}

/// The journal is written.
pub open spec fn journal_begun(state: RepairStateView) -> RepairStepView {
    stepped(
        state,
        RepairStage::Note,
        Seq::empty(),
        RepairActionView::WriteJournal(RepairPhase::Prepared),
    )
}

/// The sessions are verified as they read now.
pub open spec fn verification_begun(
    state: RepairStateView,
    draft: RepairDraftView,
) -> RepairStepView {
    stepped(
        state,
        RepairStage::Verify,
        seq![
            told(
                RepairProgressStage::Verification,
                90,
                "Verifying recovered sessions"@,
                counted(0, draft.desired_sessions),
            ),
        ],
        RepairActionView::VerifyFresh,
    )
}

/// A message about permissions.
pub open spec fn names_permission(message: Seq<char>) -> bool {
    text::holds_text(text::lowered(message), "permission"@) || text::holds_text(
        text::lowered(message),
        "access"@,
    )
}

/// The message where sessions do not verify after they were written.
pub open spec fn unverified_message(
    state: RepairStateView,
    phase_error: Option<Seq<char>>,
) -> Seq<char> {
    let front = "verification failed after the online commit: "@ + state.error
        + ". No automatic full-database restore was attempted because Codex may have written newer data. The snapshot remains at "@
        + state.backup_path;
    let noted = match phase_error {
        Some(error) => front + "; could not persist verificationFailed phase: "@ + error,
        None => front,
    };
    let whole = match state.committed_error {
        Some(error) => noted + "; could not persist committed journal phase: "@ + error,
        None => noted,
    };
    if names_permission(whole) {
        whole + "; administrator permission may be required"@
    } else {
        whole
    }
}

/// What follows from the verification of what was written.
pub open spec fn after_verification(
    state: RepairStateView,
    result: VerifyResultView,
    undone: Option<Seq<char>>,
) -> RepairStepView {
    if result.ok && undone is None {
        stepped(
            RepairStateView { checked: result.checked, ..state },
            RepairStage::Clear,
            Seq::empty(),
            RepairActionView::ClearPending,
        )
    } else {
        stepped(
            RepairStateView {
                error: match undone {
                    Some(error) => error,
                    None => text::decimal_text(result.remaining as nat)
                        + " selected records remain"@,
                },
                ..state
            },
            RepairStage::NoteFailed,
            Seq::empty(),
            RepairActionView::WriteJournal(RepairPhase::VerificationFailed),
        )
    }
}

/// What follows from how a failed repair was settled.
pub open spec fn after_settled_failure(
    state: RepairStateView,
    settled: Result<PendingRepairResolution, Seq<char>>,
) -> RepairStepView {
    let (message, discards) = recovery::failure_report(state.error, settled, state.backup_path);
    if discards {
        aborted(state, message)
    } else {
        repair_refused(state, message)
    }
}

/// The event is one that the stage waits for.
pub open spec fn waits_for(stage: RepairStage, event: RepairEventView) -> bool {
    match stage {
        RepairStage::Scan | RepairStage::Rescan => event is Scanned,
        RepairStage::Plan | RepairStage::Replan => event is Drafted || event is Failed,
        RepairStage::LockState => event is LockState,
        RepairStage::Pending => event is Pending || event is Failed,
        RepairStage::Settle | RepairStage::SettleFailed => event is Settled || event is Failed,
        RepairStage::CleanUp | RepairStage::LastCleanUp => event is Cleaned || event is Failed,
        RepairStage::Fingerprint | RepairStage::QuietCompare | RepairStage::QuietCompareAgain
        | RepairStage::Compare | RepairStage::CompareAgain => event is Hashed,
        RepairStage::QuietVerify | RepairStage::Verify => event is Verified,
        RepairStage::Backup => event is BackedUp || event is Failed,
        RepairStage::Done => false,
        _ => event is Succeeded || event is Failed,
    }
}

/// The stage comes after a plan.
pub open spec fn has_draft(stage: RepairStage) -> bool {
    stage != RepairStage::Scan && stage != RepairStage::Plan && stage != RepairStage::Done
}

/// What is told at the end of a repair.
pub open spec fn completed(message: Seq<char>) -> RepairProgressView {
    told(RepairProgressStage::Completed, 100, message, None)
}

/// A cleanup that failed.
pub open spec fn failed_cleanup(error: Seq<char>) -> BackupCleanupResultView {
    BackupCleanupResultView {
        removed_count: 0,
        removed_legacy_count: 0,
        reclaimed_bytes: 0,
        remaining_count: 0,
        remaining_bytes: 0,
        warnings: seq![error],
    }
}

/// The databases are checked, after the cleanup before the repair.
pub open spec fn after_cleanup(
    state: RepairStateView,
    cleanup: Option<BackupCleanupResultView>,
) -> RepairStepView {
    stepped(
        RepairStateView { cleanup, ..state },
        RepairStage::Schema,
        Seq::empty(),
        RepairActionView::CheckSchema,
    )
}

/// The repair ends with success, after its last cleanup.
pub open spec fn repair_reported(
    state: RepairStateView,
    cleanup: BackupCleanupResultView,
) -> RepairStepView {
    stepped(
        state,
        RepairStage::Done,
        seq![completed("Session recovery completed"@)],
        RepairActionView::Report(
            repair_result(
                state.draft->0,
                false,
                !state.draft->0.conflicts,
                Some(state.backup_path),
                Some(cleanup),
                "clear"@,
            ),
        ),
    )
}

/// What follows from a failure.
pub open spec fn after_failure(state: RepairStateView, error: Seq<char>) -> RepairStepView {
    match state.stage {
        RepairStage::Staging | RepairStage::Guard | RepairStage::GlobalState
        | RepairStage::Note => aborted(state, error),
        RepairStage::Sidecars => stepped(
            RepairStateView {
                error: "repair failed before SQLite commit: "@ + error,
                ..state
            },
            RepairStage::SettleFailed,
            Seq::empty(),
            RepairActionView::SettleFailed,
        ),
        RepairStage::Commit => stepped(
            RepairStateView { error, ..state },
            RepairStage::SettleFailed,
            Seq::empty(),
            RepairActionView::SettleFailed,
        ),
        RepairStage::SettleFailed => after_settled_failure(state, Err(error)),
        RepairStage::Discard => repair_refused(
            state,
            recovery::discard_report(state.error, Some(error), state.backup_path),
        ),
        RepairStage::NoteCommitted => verification_begun(
            RepairStateView { committed_error: Some(error), ..state },
            state.draft->0,
        ),
        RepairStage::NoteFailed => repair_refused(state, unverified_message(state, Some(error))),
        RepairStage::CleanUp => after_cleanup(state, None),
        RepairStage::LastCleanUp => repair_reported(state, failed_cleanup(error)),
        _ => repair_refused(state, error),
    }
}

/// What follows from a success.
pub open spec fn after_success(state: RepairStateView) -> RepairStepView {
    let draft = state.draft->0;
    match state.stage {
        RepairStage::Lock => stepped(
            state,
            RepairStage::Pending,
            Seq::empty(),
            RepairActionView::ReadPending,
        ),
        RepairStage::Schema => stepped(
            state,
            RepairStage::Fingerprint,
            Seq::empty(),
            RepairActionView::HashConfig,
        ),
        RepairStage::QuietGuard => stepped(
            state,
            RepairStage::QuietCompareAgain,
            Seq::empty(),
            RepairActionView::HashConfig,
        ),
        RepairStage::QuietSave => quiet_verification(
            state,
            draft,
            seq![
                told(
                    RepairProgressStage::MetadataSync,
                    75,
                    "Recovery metadata synchronized"@,
                    Some((1usize, 1usize)),
                ),
            ],
        ),
        RepairStage::Fence => if draft.adds_sessions {
            stepped(
                state,
                RepairStage::InsertSchema,
                Seq::empty(),
                RepairActionView::CheckInsertSchema,
            )
        } else {
            backup_begun(state)
        },
        RepairStage::InsertSchema => backup_begun(state),
        RepairStage::Staging => stepped(
            state,
            RepairStage::Compare,
            seq![
                told(
                    RepairProgressStage::SqliteStaging,
                    60,
                    "SQLite session index updates staged"@,
                    counted(database_writes(draft), database_writes(draft)),
                ),
            ],
            RepairActionView::HashConfig,
        ),
        RepairStage::Guard => stepped(
            state,
            RepairStage::CompareAgain,
            Seq::empty(),
            RepairActionView::HashConfig,
        ),
        RepairStage::GlobalState => journal_begun(state),
        RepairStage::Note => stepped(
            state,
            RepairStage::Sidecars,
            seq![
                told(
                    RepairProgressStage::MetadataSync,
                    65,
                    "Synchronizing rollout and recovery metadata"@,
                    Some((0usize, sidecar_writes(draft))),
                ),
            ],
            RepairActionView::WriteSidecars,
        ),
        RepairStage::Sidecars => stepped(
            state,
            RepairStage::Commit,
            seq![
                told(
                    RepairProgressStage::MetadataSync,
                    75,
                    "Rollout and recovery metadata synchronized"@,
                    Some((sidecar_writes(draft), sidecar_writes(draft))),
                ),
                told(
                    RepairProgressStage::Commit,
                    80,
                    "Committing the SQLite repair transaction"@,
                    Some((0usize, 1usize)),
                ),
            ],
            RepairActionView::Commit,
        ),
        RepairStage::Commit => stepped(
            state,
            RepairStage::NoteCommitted,
            seq![
                told(
                    RepairProgressStage::Commit,
                    85,
                    "SQLite repair transaction committed"@,
                    Some((1usize, 1usize)),
                ),
            ],
            RepairActionView::WriteJournal(RepairPhase::Committed),
        ),
        RepairStage::NoteCommitted => verification_begun(state, draft),
        RepairStage::Clear => stepped(
            state,
            RepairStage::LastCleanUp,
            seq![
                told(
                    RepairProgressStage::Verification,
                    96,
                    "Session verification completed"@,
                    counted(state.checked, draft.desired_sessions),
                ),
            ],
            RepairActionView::CleanUp(Some(state.backup_path)),
        ),
        RepairStage::NoteFailed => repair_refused(state, unverified_message(state, None)),
        _ => repair_refused(state, state.error),
    }
}

/// What follows from a digest of the configuration: the first is kept, and every other one must be
/// the same.
pub open spec fn after_hash(state: RepairStateView, found: Option<Seq<char>>) -> RepairStepView {
    let same_config = found is Some && found == state.fingerprint;
    let changed = "repair aborted because config.toml changed after planning"@;
    let changed_late =
        "repair aborted because config.toml changed while acquiring the provider guard"@;
    match state.stage {
        RepairStage::Fingerprint => if found is Some {
            stepped(
                RepairStateView { fingerprint: found, ..state },
                RepairStage::Rescan,
                Seq::empty(),
                RepairActionView::Scan,
            )
        } else {
            repair_refused(state, "cannot fingerprint provider config: "@ + state.config_path)
        },
        RepairStage::QuietCompare => if same_config {
            stepped(
                state,
                RepairStage::QuietGuard,
                Seq::empty(),
                RepairActionView::GuardConfig,
            )
        } else {
            repair_refused(state, changed)
        },
        RepairStage::QuietCompareAgain => if same_config {
            stepped(state, RepairStage::QuietSave, Seq::empty(), RepairActionView::SaveStore)
        } else {
            repair_refused(state, changed_late)
        },
        RepairStage::Compare => if same_config {
            stepped(state, RepairStage::Guard, Seq::empty(), RepairActionView::GuardConfig)
        } else {
            aborted(state, changed)
        },
        _ => if !same_config {
            aborted(state, changed_late)
        } else if state.draft->0.workspace_hint_updates > 0 {
            stepped(
                state,
                RepairStage::GlobalState,
                Seq::empty(),
                RepairActionView::AcquireGlobalState,
            )
        } else {
            journal_begun(state)
        },
    }
}

/// What follows from reading the sessions.
pub open spec fn after_scan(state: RepairStateView, readable: bool) -> RepairStepView {
    if state.stage == RepairStage::Scan {
        if !state.dry_run && !readable {
            repair_refused(state, "repair unavailable: state_5.sqlite is not readable"@)
        } else {
            stepped(state, RepairStage::Plan, Seq::empty(), RepairActionView::Plan)
        }
    } else if !readable {
        repair_refused(state, "repair aborted: state_5.sqlite changed or became unreadable"@)
    } else {
        stepped(state, RepairStage::Replan, Seq::empty(), RepairActionView::Plan)
    }
}

/// The next step of a repair.
pub open spec fn repairing(state: RepairStateView, event: RepairEventView) -> RepairStepView {
    match event {
        RepairEventView::Failed(error) => after_failure(state, error),
        RepairEventView::Succeeded => after_success(state),
        RepairEventView::Scanned(readable) => after_scan(state, readable),
        RepairEventView::Drafted(draft) => if state.stage == RepairStage::Plan {
            after_plan(state, draft)
        } else {
            after_replan(state, draft)
        },
        RepairEventView::LockState(lock) => stepped(
            state,
            RepairStage::Done,
            seq![completed("Repair preview completed"@)],
            RepairActionView::Report(
                repair_result(state.draft->0, true, false, None, None, lock),
            ),
        ),
        RepairEventView::Pending(pending) => after_pending(state, pending),
        RepairEventView::Settled(resolution) => if state.stage == RepairStage::SettleFailed {
            after_settled_failure(state, Ok(resolution))
        } else if resolution == PendingRepairResolution::VerificationFailed {
            repair_refused(
                state,
                "repair blocked because the previous online commit failed verification; select its recorded backup explicitly if a full restore is required"@,
            )
        } else {
            stepped(
                state,
                RepairStage::CleanUp,
                Seq::empty(),
                RepairActionView::CleanUp(None),
            )
        },
        RepairEventView::Cleaned(cleanup) => if state.stage == RepairStage::CleanUp {
            after_cleanup(state, Some(cleanup))
        } else {
            repair_reported(state, cleanup)
        },
        RepairEventView::Hashed(found) => after_hash(state, found),
        RepairEventView::BackedUp(path) => {
            let draft = state.draft->0;
            stepped(
                RepairStateView { backup_path: path, ..state },
                RepairStage::Staging,
                seq![
                    told(
                        RepairProgressStage::Backup,
                        40,
                        "Recovery backup created"@,
                        Some((1usize, 1usize)),
                    ),
                    told(
                        RepairProgressStage::SqliteStaging,
                        45,
                        "Staging SQLite session index updates"@,
                        counted(0, database_writes(draft)),
                    ),
                ],
                RepairActionView::StageWrites,
            )
        },
        RepairEventView::Verified { result, undone } => if state.stage == RepairStage::Verify {
            after_verification(state, result, undone)
        } else {
            stepped(
                state,
                RepairStage::Done,
                seq![
                    told(
                        RepairProgressStage::Verification,
                        96,
                        "Session verification completed"@,
                        counted(result.checked, state.draft->0.desired_sessions),
                    ),
                    completed("Session recovery completed"@),
                ],
                RepairActionView::Report(
                    quiet_result(
                        state.draft->0,
                        result.ok && !state.draft->0.conflicts,
                        state.cleanup,
                    ),
                ),
            )
        },
    }
}

fn step_to(
    state: RepairState,
    stage: RepairStage,
    progress: Vec<RepairProgress>,
    action: RepairAction,
) -> (r: RepairStep)
    ensures
        r.deep_view() == stepped(
            state.deep_view(),
            stage,
            progress.deep_view(),
            action.deep_view(),
        ),
        r.state.stage == stage,
        r.state.draft == state.draft,
{
    let mut next = state;
    next.stage = stage;
    let progress = if next.talks {
        progress
    } else {
        let none: Vec<RepairProgress> = Vec::new();
        assert(none.deep_view() =~= Seq::empty());
        none
    };
    RepairStep { state: next, progress, action }
}

fn silent() -> (r: Vec<RepairProgress>)
    ensures
        r.deep_view() == Seq::<RepairProgressView>::empty(),
{
    let none: Vec<RepairProgress> = Vec::new();
    assert(none.deep_view() =~= Seq::<RepairProgressView>::empty());
    none
}

fn go_quietly(state: RepairState, stage: RepairStage, action: RepairAction) -> (r: RepairStep)
    ensures
        r.deep_view() == stepped(state.deep_view(), stage, Seq::empty(), action.deep_view()),
        r.state.stage == stage,
        r.state.draft == state.draft,
{
    step_to(state, stage, silent(), action)
}

fn refuse_repair(state: RepairState, message: String) -> (r: RepairStep)
    ensures
        r.deep_view() == repair_refused(state.deep_view(), message@),
        r.state.stage == RepairStage::Done,
{
    go_quietly(state, RepairStage::Done, RepairAction::Refuse(message))
}

fn abort_repair(state: RepairState, message: String) -> (r: RepairStep)
    ensures
        r.deep_view() == aborted(state.deep_view(), message@),
        r.state.stage == RepairStage::Discard,
        r.state.draft == state.draft,
{
    let mut next = state;
    next.error = message;
    go_quietly(next, RepairStage::Discard, RepairAction::DiscardBackup)
}

fn make_result(
    draft: &RepairDraft,
    dry_run: bool,
    verified: bool,
    backup_path: Option<String>,
    backup_cleanup: Option<BackupCleanupResult>,
    lock: String,
) -> (r: RepairResult)
    ensures
        r.deep_view() == repair_result(
            draft.deep_view(),
            dry_run,
            verified,
            backup_path.deep_view(),
            backup_cleanup.deep_view(),
            lock@,
        ),
{
    RepairResult {
        changed_threads: draft.changed_threads,
        restored_threads: 0,
        state_updates: draft.state_updates,
        rollout_updates: draft.rollout_updates,
        catalog_updates: draft.catalog_updates,
        catalog_inserts: draft.catalog_inserts,
        catalog_deletes: draft.catalog_deletes,
        workspace_hint_updates: draft.workspace_hint_updates,
        skipped: draft.skipped_reasons.len(),
        skipped_reasons: draft.skipped_reasons.copy_of(),
        dry_run,
        verified,
        backup_path,
        backup_cleanup,
        plan_token: Some(draft.plan_token.copy_of()),
        lock,
        needs_admin: false,
    }
}

fn make_quiet_result(
    draft: &RepairDraft,
    verified: bool,
    cleanup: Option<BackupCleanupResult>,
) -> (r: RepairResult)
    ensures
        r.deep_view() == quiet_result(draft.deep_view(), verified, cleanup.deep_view()),
{
    let mut result = make_result(draft, false, verified, None, cleanup, "clear".to_owned());
    result.changed_threads = 0;
    result.state_updates = 0;
    result.rollout_updates = 0;
    result.catalog_updates = 0;
    result.catalog_inserts = 0;
    result.catalog_deletes = 0;
    result.workspace_hint_updates = 0;
    result
}

fn count_database_writes(draft: &RepairDraft) -> (r: usize)
    ensures
        r == database_writes(draft.deep_view()),
{
    draft.state_updates.saturating_add(draft.catalog_updates).saturating_add(
        draft.catalog_inserts,
    ).saturating_add(draft.catalog_deletes)
}

fn count_sidecar_writes(draft: &RepairDraft) -> (r: usize)
    ensures
        r == sidecar_writes(draft.deep_view()),
{
    draft.rollout_updates.saturating_add(draft.workspace_hint_updates).saturating_add(1)
}

fn note_plan(state: RepairState, draft: RepairDraft) -> (r: RepairStep)
    ensures
        r.deep_view() == after_plan(state.deep_view(), draft.deep_view()),
        has_draft(r.state.stage) ==> r.state.draft is Some,
{
    let planned: usize = draft.planned_sessions;
    let dry_run = state.dry_run;
    let mut next = state;
    next.draft = Some(draft);
    let mut progress = silent();
    if dry_run {
        tell(
            &mut progress,
            RepairProgressStage::PlanValidated,
            90,
            "Repair preview is ready",
            find_counted(planned, planned),
        );
        step_to(next, RepairStage::LockState, progress, RepairAction::InspectLock)
    } else {
        tell(
            &mut progress,
            RepairProgressStage::AcquiringOperationLock,
            10,
            "Acquiring the repair operation lock",
            None,
        );
        step_to(next, RepairStage::Lock, progress, RepairAction::AcquireLock)
    }
}

fn verify_quietly(state: RepairState, desired: usize, progress: Vec<RepairProgress>) -> (r: RepairStep)
    requires
        state.draft is Some,
        state.draft->0.desired_sessions == desired,
    ensures
        r.deep_view() == quiet_verification(
            state.deep_view(),
            state.draft->0.deep_view(),
            progress.deep_view(),
        ),
        r.state.draft == state.draft,
{
    let mut progress = progress;
    tell(
        &mut progress,
        RepairProgressStage::Verification,
        90,
        "Verifying recovered sessions",
        find_counted(0, desired),
    );
    step_to(state, RepairStage::QuietVerify, progress, RepairAction::VerifyPlanned)
}

fn note_replan(state: RepairState, draft: RepairDraft) -> (r: RepairStep)
    ensures
        r.deep_view() == after_replan(state.deep_view(), draft.deep_view()),
        has_draft(r.state.stage) ==> r.state.draft is Some,
{
    let planned: usize = draft.planned_sessions;
    let desired: usize = draft.desired_sessions;
    let changed: usize = draft.changed_threads;
    let store_fault = draft.store_fault.copy_of();
    let writes_catalog = draft.writes_catalog;
    let projection_changed = draft.projection_changed;
    let token_differs = match &state.expected_token {
        Some(token) => !same(token.as_str(), draft.plan_token.as_str()),
        None => false,
    };
    let mut next = state;
    next.draft = Some(draft);
    if token_differs {
        return refuse_repair(
            next,
            "repair plan changed after preview; refresh the scan and preview before applying".to_owned(),
        );
    }
    if let Some(message) = store_fault {
        return refuse_repair(next, message);
    }
    let ghost first = validated(draft.deep_view());
    let mut progress = silent();
    tell(
        &mut progress,
        RepairProgressStage::PlanValidated,
        20,
        "Repair plan validated",
        find_counted(planned, planned),
    );
    assert(progress.deep_view() =~= seq![first]);
    if changed > 0 {
        tell(
            &mut progress,
            RepairProgressStage::AcquiringWriteFence,
            25,
            "Acquiring the SQLite write fence",
            None,
        );
        assert(progress.deep_view() =~= seq![
            first,
            told(
                RepairProgressStage::AcquiringWriteFence,
                25,
                "Acquiring the SQLite write fence"@,
                None,
            ),
        ]);
        step_to(next, RepairStage::Fence, progress, RepairAction::AcquireFence(writes_catalog))
    } else if projection_changed {
        tell(
            &mut progress,
            RepairProgressStage::MetadataSync,
            65,
            "Synchronizing recovery metadata",
            Some((0, 1)),
        );
        assert(progress.deep_view() =~= seq![
            first,
            told(
                RepairProgressStage::MetadataSync,
                65,
                "Synchronizing recovery metadata"@,
                Some((0usize, 1usize)),
            ),
        ]);
        step_to(next, RepairStage::QuietCompare, progress, RepairAction::HashConfig)
    } else {
        verify_quietly(next, desired, progress)
    }
}

fn note_pending(state: RepairState, pending: Option<PendingOperation>) -> (r: RepairStep)
    ensures
        r.deep_view() == after_pending(state.deep_view(), pending.deep_view()),
        r.state.draft == state.draft,
{
    match pending {
        None => go_quietly(state, RepairStage::CleanUp, RepairAction::CleanUp(None)),
        Some(operation) => {
            if same(operation.command.as_str(), "repair") && operation.repair_journal.is_some() {
                go_quietly(state, RepairStage::Settle, RepairAction::SettlePending)
            } else {
                let message = join4(
                    "repair blocked by incomplete ",
                    operation.command.as_str(),
                    " operation from ",
                    operation.backup_path.as_str(),
                );
                go_quietly(state, RepairStage::Done, RepairAction::Refuse(message))
            }
        },
    }
}

fn begin_backup(state: RepairState) -> (r: RepairStep)
    ensures
        r.deep_view() == backup_begun(state.deep_view()),
        r.state.draft == state.draft,
{
    let mut progress = silent();
    tell(
        &mut progress,
        RepairProgressStage::Backup,
        32,
        "Creating a recovery backup",
        Some((0, 1)),
    );
    step_to(state, RepairStage::Backup, progress, RepairAction::MakeBackup)
}

fn begin_journal(state: RepairState) -> (r: RepairStep)
    ensures
        r.deep_view() == journal_begun(state.deep_view()),
        r.state.draft == state.draft,
{
    go_quietly(state, RepairStage::Note, RepairAction::WriteJournal(RepairPhase::Prepared))
}

fn begin_verification(state: RepairState, desired: usize) -> (r: RepairStep)
    requires
        state.draft is Some,
        state.draft->0.desired_sessions == desired,
    ensures
        r.deep_view() == verification_begun(state.deep_view(), state.draft->0.deep_view()),
        r.state.draft == state.draft,
{
    let mut progress = silent();
    tell(
        &mut progress,
        RepairProgressStage::Verification,
        90,
        "Verifying recovered sessions",
        find_counted(0, desired),
    );
    step_to(state, RepairStage::Verify, progress, RepairAction::VerifyFresh)
}

fn say_unverified(state: &RepairState, phase_error: &Option<String>) -> (r: String)
    ensures
        r@ == unverified_message(state.deep_view(), phase_error.deep_view()),
{
    let front = join4(
        "verification failed after the online commit: ",
        state.error.as_str(),
        ". No automatic full-database restore was attempted because Codex may have written newer data. The snapshot remains at ",
        state.backup_path.as_str(),
    );
    let noted = match phase_error {
        Some(error) => join3(
            front.as_str(),
            "; could not persist verificationFailed phase: ",
            error.as_str(),
        ),
        None => front,
    };
    let whole = match &state.committed_error {
        Some(error) => join3(
            noted.as_str(),
            "; could not persist committed journal phase: ",
            error.as_str(),
        ),
        None => noted,
    };
    let lower = to_lower(whole.as_str());
    if has_text(lower.as_str(), "permission") || has_text(lower.as_str(), "access") {
        join2(whole.as_str(), "; administrator permission may be required")
    } else {
        whole
    }
}

fn note_settled_failure(state: RepairState, settled: &Result<PendingRepairResolution, String>) -> (r:
    RepairStep)
    ensures
        r.deep_view() == after_settled_failure(state.deep_view(), model::outcome(*settled)),
        r.state.draft == state.draft,
{
    let (message, discards) = finish_failed_online_repair(
        state.error.as_str(),
        settled,
        state.backup_path.as_str(),
    );
    if discards {
        abort_repair(state, message)
    } else {
        go_quietly(state, RepairStage::Done, RepairAction::Refuse(message))
    }
}

fn note_repair_failure(state: RepairState, error: String) -> (r: RepairStep)
    requires
        has_draft(state.stage) ==> state.draft is Some,
    ensures
        r.deep_view() == after_failure(state.deep_view(), error@),
        has_draft(r.state.stage) ==> r.state.draft is Some,
{
    match state.stage {
        RepairStage::Staging | RepairStage::Guard | RepairStage::GlobalState
        | RepairStage::Note => abort_repair(state, error),
        RepairStage::Sidecars => {
            let mut next = state;
            next.error = join2("repair failed before SQLite commit: ", error.as_str());
            go_quietly(next, RepairStage::SettleFailed, RepairAction::SettleFailed)
        },
        RepairStage::Commit => {
            let mut next = state;
            next.error = error;
            go_quietly(next, RepairStage::SettleFailed, RepairAction::SettleFailed)
        },
        RepairStage::SettleFailed => note_settled_failure(state, &Err(error)),
        RepairStage::Discard => {
            let failure: Option<String> = Some(error);
            let message = discard_aborted_repair_backup(
                state.error.as_str(),
                &failure,
                state.backup_path.as_str(),
            );
            refuse_repair(state, message)
        },
        RepairStage::NoteCommitted => {
            let desired: usize = match &state.draft {
                Some(draft) => draft.desired_sessions,
                None => 0,
            };
            let mut next = state;
            next.committed_error = Some(error);
            begin_verification(next, desired)
        },
        RepairStage::NoteFailed => {
            let failure: Option<String> = Some(error);
            let message = say_unverified(&state, &failure);
            refuse_repair(state, message)
        },
        RepairStage::CleanUp => begin_schema(state, None),
        RepairStage::LastCleanUp => report_repair(state, note_failed_cleanup(error)),
        _ => refuse_repair(state, error),
    }
}

fn note_sidecars(state: RepairState, writes: usize) -> (r: RepairStep)
    requires
        state.stage == RepairStage::Sidecars,
        state.draft is Some,
        writes == sidecar_writes(state.draft->0.deep_view()),
    ensures
        r.deep_view() == after_success(state.deep_view()),
        r.state.draft == state.draft,
{
    let mut progress = silent();
    tell(
        &mut progress,
        RepairProgressStage::MetadataSync,
        75,
        "Rollout and recovery metadata synchronized",
        Some((writes, writes)),
    );
    tell(
        &mut progress,
        RepairProgressStage::Commit,
        80,
        "Committing the SQLite repair transaction",
        Some((0, 1)),
    );
    assert(progress.deep_view() =~= seq![
        told(
            RepairProgressStage::MetadataSync,
            75,
            "Rollout and recovery metadata synchronized"@,
            Some((writes, writes)),
        ),
        told(
            RepairProgressStage::Commit,
            80,
            "Committing the SQLite repair transaction"@,
            Some((0usize, 1usize)),
        ),
    ]);
    step_to(state, RepairStage::Commit, progress, RepairAction::Commit)
}

fn note_repair_success(state: RepairState) -> (r: RepairStep)
    requires
        waits_for(state.stage, RepairEventView::Succeeded),
        state.draft is Some,
    ensures
        r.deep_view() == after_success(state.deep_view()),
        has_draft(r.state.stage) ==> r.state.draft is Some,
{
    let (desired, adds_sessions, writes, beside) = match &state.draft {
        Some(draft) => (
            draft.desired_sessions,
            draft.adds_sessions,
            count_database_writes(draft),
            count_sidecar_writes(draft),
        ),
        None => (0, false, 0, 0),
    };
    let mut progress = silent();
    match state.stage {
        RepairStage::Lock => go_quietly(state, RepairStage::Pending, RepairAction::ReadPending),
        RepairStage::Schema => go_quietly(
            state,
            RepairStage::Fingerprint,
            RepairAction::HashConfig,
        ),
        RepairStage::QuietGuard => go_quietly(
            state,
            RepairStage::QuietCompareAgain,
            RepairAction::HashConfig,
        ),
        RepairStage::QuietSave => {
            tell(
                &mut progress,
                RepairProgressStage::MetadataSync,
                75,
                "Recovery metadata synchronized",
                Some((1, 1)),
            );
            verify_quietly(state, desired, progress)
        },
        RepairStage::Fence => {
            if adds_sessions {
                go_quietly(state, RepairStage::InsertSchema, RepairAction::CheckInsertSchema)
            } else {
                begin_backup(state)
            }
        },
        RepairStage::InsertSchema => begin_backup(state),
        RepairStage::Staging => {
            tell(
                &mut progress,
                RepairProgressStage::SqliteStaging,
                60,
                "SQLite session index updates staged",
                find_counted(writes, writes),
            );
            step_to(state, RepairStage::Compare, progress, RepairAction::HashConfig)
        },
        RepairStage::Guard => go_quietly(
            state,
            RepairStage::CompareAgain,
            RepairAction::HashConfig,
        ),
        RepairStage::GlobalState => begin_journal(state),
        RepairStage::Note => {
            tell(
                &mut progress,
                RepairProgressStage::MetadataSync,
                65,
                "Synchronizing rollout and recovery metadata",
                Some((0, beside)),
            );
            step_to(state, RepairStage::Sidecars, progress, RepairAction::WriteSidecars)
        },
        RepairStage::Sidecars => note_sidecars(state, beside),
        RepairStage::Commit => {
            tell(
                &mut progress,
                RepairProgressStage::Commit,
                85,
                "SQLite repair transaction committed",
                Some((1, 1)),
            );
            step_to(
                state,
                RepairStage::NoteCommitted,
                progress,
                RepairAction::WriteJournal(RepairPhase::Committed),
            )
        },
        RepairStage::NoteCommitted => begin_verification(state, desired),
        RepairStage::Clear => {
            tell(
                &mut progress,
                RepairProgressStage::Verification,
                96,
                "Session verification completed",
                find_counted(state.checked, desired),
            );
            let path = state.backup_path.copy_of();
            step_to(
                state,
                RepairStage::LastCleanUp,
                progress,
                RepairAction::CleanUp(Some(path)),
            )
        },
        RepairStage::NoteFailed => {
            let message = say_unverified(&state, &None);
            refuse_repair(state, message)
        },
        _ => {
            let message = state.error.copy_of();
            refuse_repair(state, message)
        },
    }
}

fn note_hash(state: RepairState, found: Option<String>) -> (r: RepairStep)
    requires
        waits_for(state.stage, RepairEventView::Hashed(found.deep_view())),
        state.draft is Some,
    ensures
        r.deep_view() == after_hash(state.deep_view(), found.deep_view()),
        has_draft(r.state.stage) ==> r.state.draft is Some,
{
    let same_config = match (&found, &state.fingerprint) {
        (Some(found), Some(known)) => same(found.as_str(), known.as_str()),
        _ => false,
    };
    let changed = "repair aborted because config.toml changed after planning";
    let changed_late = "repair aborted because config.toml changed while acquiring the provider guard";
    let hints: usize = match &state.draft {
        Some(draft) => draft.workspace_hint_updates,
        None => 0,
    };
    match state.stage {
        RepairStage::Fingerprint => {
            if found.is_none() {
                let message = join2(
                    "cannot fingerprint provider config: ",
                    state.config_path.as_str(),
                );
                return refuse_repair(state, message);
            }
            let mut next = state;
            next.fingerprint = found;
            go_quietly(next, RepairStage::Rescan, RepairAction::Scan)
        },
        RepairStage::QuietCompare => {
            if same_config {
                go_quietly(state, RepairStage::QuietGuard, RepairAction::GuardConfig)
            } else {
                refuse_repair(state, changed.to_owned())
            }
        },
        RepairStage::QuietCompareAgain => {
            if same_config {
                go_quietly(state, RepairStage::QuietSave, RepairAction::SaveStore)
            } else {
                refuse_repair(state, changed_late.to_owned())
            }
        },
        RepairStage::Compare => {
            if same_config {
                go_quietly(state, RepairStage::Guard, RepairAction::GuardConfig)
            } else {
                abort_repair(state, changed.to_owned())
            }
        },
        _ => {
            if !same_config {
                abort_repair(state, changed_late.to_owned())
            } else if hints > 0 {
                go_quietly(state, RepairStage::GlobalState, RepairAction::AcquireGlobalState)
            } else {
                begin_journal(state)
            }
        },
    }
}

fn note_backup(state: RepairState, path: String) -> (r: RepairStep)
    requires
        state.stage == RepairStage::Backup,
        state.draft is Some,
    ensures
        r.deep_view() == repairing(state.deep_view(), RepairEventView::BackedUp(path@)),
        r.state.draft == state.draft,
{
    let writes: usize = match &state.draft {
        Some(draft) => count_database_writes(draft),
        None => 0,
    };
    let mut progress = silent();
    tell(
        &mut progress,
        RepairProgressStage::Backup,
        40,
        "Recovery backup created",
        Some((1, 1)),
    );
    tell(
        &mut progress,
        RepairProgressStage::SqliteStaging,
        45,
        "Staging SQLite session index updates",
        find_counted(0, writes),
    );
    assert(progress.deep_view() =~= seq![
        told(
            RepairProgressStage::Backup,
            40,
            "Recovery backup created"@,
            Some((1usize, 1usize)),
        ),
        told(
            RepairProgressStage::SqliteStaging,
            45,
            "Staging SQLite session index updates"@,
            counted(0, writes),
        ),
    ]);
    let mut next = state;
    next.backup_path = path;
    step_to(next, RepairStage::Staging, progress, RepairAction::StageWrites)
}

fn note_verification(state: RepairState, result: VerifyResult, undone: Option<String>) -> (r:
    RepairStep)
    requires
        waits_for(
            state.stage,
            RepairEventView::Verified { result: result.deep_view(), undone: undone.deep_view() },
        ),
        state.draft is Some,
    ensures
        r.deep_view() == repairing(
            state.deep_view(),
            RepairEventView::Verified { result: result.deep_view(), undone: undone.deep_view() },
        ),
        has_draft(r.state.stage) ==> r.state.draft is Some,
{
    if state.stage == RepairStage::Verify {
        if result.ok && undone.is_none() {
            let mut next = state;
            next.checked = result.checked;
            return go_quietly(next, RepairStage::Clear, RepairAction::ClearPending);
        }
        let mut next = state;
        next.error = match undone {
            Some(error) => error,
            None => {
                let remaining = decimal(result.remaining as u64);
                join2(remaining.as_str(), " selected records remain")
            },
        };
        return go_quietly(
            next,
            RepairStage::NoteFailed,
            RepairAction::WriteJournal(RepairPhase::VerificationFailed),
        );
    }
    let mut progress = silent();
    match &state.draft {
        Some(draft) => {
            tell(
                &mut progress,
                RepairProgressStage::Verification,
                96,
                "Session verification completed",
                find_counted(result.checked, draft.desired_sessions),
            );
            tell(
                &mut progress,
                RepairProgressStage::Completed,
                100,
                "Session recovery completed",
                None,
            );
            assert(progress.deep_view() =~= seq![
                told(
                    RepairProgressStage::Verification,
                    96,
                    "Session verification completed"@,
                    counted(result.checked, draft.desired_sessions),
                ),
                completed("Session recovery completed"@),
            ]);
            let report = make_quiet_result(
                draft,
                result.ok && !draft.conflicts,
                state.cleanup.copy_of(),
            );
            step_to(state, RepairStage::Done, progress, RepairAction::Report(report))
        },
        None => refuse_repair(state, String::new()),
    }
}

/// Tells of a cleanup that failed.
pub fn note_failed_cleanup(error: String) -> (r: BackupCleanupResult)
    ensures
        r.deep_view() == failed_cleanup(error@),
{
    let mut warnings: Vec<String> = Vec::new();
    push_text(&mut warnings, error);
    assert(warnings.deep_view() =~= seq![error@]);
    BackupCleanupResult {
        removed_count: 0,
        removed_legacy_count: 0,
        reclaimed_bytes: 0,
        remaining_count: 0,
        remaining_bytes: 0,
        warnings,
    }
}

fn begin_schema(state: RepairState, cleanup: Option<BackupCleanupResult>) -> (r: RepairStep)
    ensures
        r.deep_view() == after_cleanup(state.deep_view(), cleanup.deep_view()),
        r.state.draft == state.draft,
{
    let mut next = state;
    next.cleanup = cleanup;
    go_quietly(next, RepairStage::Schema, RepairAction::CheckSchema)
}

fn report_repair(state: RepairState, cleanup: BackupCleanupResult) -> (r: RepairStep)
    requires
        state.draft is Some,
    ensures
        r.deep_view() == repair_reported(state.deep_view(), cleanup.deep_view()),
        r.state.stage == RepairStage::Done,
{
    let mut progress = silent();
    tell(
        &mut progress,
        RepairProgressStage::Completed,
        100,
        "Session recovery completed",
        None,
    );
    match &state.draft {
        Some(draft) => {
            let report = make_result(
                draft,
                false,
                !draft.conflicts,
                Some(state.backup_path.copy_of()),
                Some(cleanup),
                "clear".to_owned(),
            );
            step_to(state, RepairStage::Done, progress, RepairAction::Report(report))
        },
        None => refuse_repair(state, String::new()),
    }
}

fn note_scan(state: RepairState, readable: bool) -> (r: RepairStep)
    requires
        waits_for(state.stage, RepairEventView::Scanned(readable)),
        has_draft(state.stage) ==> state.draft is Some,
    ensures
        r.deep_view() == after_scan(state.deep_view(), readable),
        has_draft(r.state.stage) ==> r.state.draft is Some,
{
    if state.stage == RepairStage::Scan {
        if !state.dry_run && !readable {
            return refuse_repair(
                state,
                "repair unavailable: state_5.sqlite is not readable".to_owned(),
            );
        }
        return go_quietly(state, RepairStage::Plan, RepairAction::Plan);
    }
    if !readable {
        return refuse_repair(
            state,
            "repair aborted: state_5.sqlite changed or became unreadable".to_owned(),
        );
    }
    go_quietly(state, RepairStage::Replan, RepairAction::Plan)
}

fn note_lock_state(state: RepairState, lock: String) -> (r: RepairStep)
    requires
        state.draft is Some,
    ensures
        r.deep_view() == repairing(state.deep_view(), RepairEventView::LockState(lock@)),
        r.state.stage == RepairStage::Done,
{
    let mut progress = silent();
    tell(
        &mut progress,
        RepairProgressStage::Completed,
        100,
        "Repair preview completed",
        None,
    );
    match &state.draft {
        Some(draft) => {
            let report = make_result(draft, true, false, None, None, lock);
            step_to(state, RepairStage::Done, progress, RepairAction::Report(report))
        },
        None => refuse_repair(state, String::new()),
    }
}

/// Whether the event is one that the stage waits for.
pub fn is_awaited(stage: RepairStage, event: &RepairEvent) -> (r: bool)
    ensures
        r == waits_for(stage, event.deep_view()),
{
    match stage {
        RepairStage::Scan | RepairStage::Rescan => matches!(event, RepairEvent::Scanned(_)),
        RepairStage::Plan | RepairStage::Replan => matches!(
            event,
            RepairEvent::Drafted(_) | RepairEvent::Failed(_)
        ),
        RepairStage::LockState => matches!(event, RepairEvent::LockState(_)),
        RepairStage::Pending => matches!(event, RepairEvent::Pending(_) | RepairEvent::Failed(_)),
        RepairStage::Settle | RepairStage::SettleFailed => matches!(
            event,
            RepairEvent::Settled(_) | RepairEvent::Failed(_)
        ),
        RepairStage::CleanUp | RepairStage::LastCleanUp => matches!(
            event,
            RepairEvent::Cleaned(_) | RepairEvent::Failed(_)
        ),
        RepairStage::Fingerprint | RepairStage::QuietCompare | RepairStage::QuietCompareAgain
        | RepairStage::Compare | RepairStage::CompareAgain => matches!(
            event,
            RepairEvent::Hashed(_)
        ),
        RepairStage::QuietVerify | RepairStage::Verify => matches!(
            event,
            RepairEvent::Verified { .. }
        ),
        RepairStage::Backup => matches!(event, RepairEvent::BackedUp(_) | RepairEvent::Failed(_)),
        RepairStage::Done => false,
        _ => matches!(event, RepairEvent::Succeeded | RepairEvent::Failed(_)),
    }
}

/// Goes on with a repair after an event: the next state, what is told, and what is to be done.
pub fn repair_projection_selected_at_inner(state: RepairState, event: RepairEvent) -> (r: RepairStep)
    requires
        waits_for(state.stage, event.deep_view()),
        has_draft(state.stage) ==> state.draft is Some,
    ensures
        r.deep_view() == repairing(state.deep_view(), event.deep_view()),
        has_draft(r.state.stage) ==> r.state.draft is Some,
{
    match event {
        RepairEvent::Failed(error) => note_repair_failure(state, error),
        RepairEvent::Succeeded => note_repair_success(state),
        RepairEvent::Scanned(readable) => note_scan(state, readable),
        RepairEvent::Drafted(draft) => {
            if state.stage == RepairStage::Plan {
                note_plan(state, draft)
            } else {
                note_replan(state, draft)
            }
        },
        RepairEvent::LockState(lock) => note_lock_state(state, lock),
        RepairEvent::Pending(pending) => note_pending(state, pending),
        RepairEvent::Settled(resolution) => {
            if state.stage == RepairStage::SettleFailed {
                return note_settled_failure(state, &Ok(resolution));
            }
            if resolution == PendingRepairResolution::VerificationFailed {
                return refuse_repair(
                    state,
                    "repair blocked because the previous online commit failed verification; select its recorded backup explicitly if a full restore is required".to_owned(),
                );
            }
            go_quietly(state, RepairStage::CleanUp, RepairAction::CleanUp(None))
        },
        RepairEvent::Cleaned(cleanup) => {
            if state.stage == RepairStage::CleanUp {
                begin_schema(state, Some(cleanup))
            } else {
                report_repair(state, cleanup)
            }
        },
        RepairEvent::Hashed(found) => note_hash(state, found),
        RepairEvent::BackedUp(path) => note_backup(state, path),
        RepairEvent::Verified { result, undone } => note_verification(state, result, undone),
    }
}

/// The first step of a repair: reading the sessions, or why not.
pub open spec fn first_step(
    config: Option<Seq<char>>,
    config_path: Seq<char>,
    target: Seq<char>,
    dry_run: bool,
    require_plan_token: bool,
    expected_plan_token: Option<Seq<char>>,
    talks: bool,
) -> RepairStepView {
    let start = repair_started(dry_run, talks, expected_plan_token, config_path);
    let begun = stepped(
        start,
        RepairStage::Scan,
        seq![told(RepairProgressStage::Planning, 5, "Preparing the repair plan"@, None)],
        RepairActionView::Scan,
    );
    match providers::target_check(providers::configured_provider(config), target) {
        Err(message) => RepairStepView {
            state: RepairStateView { stage: RepairStage::Done, ..start },
            action: RepairActionView::Refuse(message),
            ..begun
        },
        Ok(_) => if !dry_run && require_plan_token && expected_plan_token is None {
            RepairStepView {
                state: RepairStateView { stage: RepairStage::Done, ..start },
                action: RepairActionView::Refuse(
                    "apply requires the plan token returned by the latest preview"@,
                ),
                ..begun
            }
        } else {
            begun
        },
    }
}

fn start_repair(
    config: &Option<String>,
    config_path: &str,
    target_provider: &str,
    dry_run: bool,
    require_plan_token: bool,
    expected_plan_token: &Option<String>,
    talks: bool,
) -> (r: RepairStep)
    ensures
        r.deep_view() == first_step(
            config.deep_view(),
            config_path@,
            target_provider@,
            dry_run,
            require_plan_token,
            expected_plan_token.deep_view(),
            talks,
        ),
{
    let backup_path = String::new();
    let error = String::new();
    assert(backup_path@ =~= Seq::empty());
    assert(error@ =~= Seq::empty());
    let state = RepairState {
        stage: RepairStage::Scan,
        dry_run,
        talks,
        expected_token: expected_plan_token.copy_of(),
        config_path: config_path.to_owned(),
        fingerprint: None,
        draft: None,
        cleanup: None,
        backup_path,
        checked: 0,
        error,
        committed_error: None,
    };
    let mut progress = silent();
    tell(
        &mut progress,
        RepairProgressStage::Planning,
        5,
        "Preparing the repair plan",
        None,
    );
    match validate_current_target_provider(config, target_provider) {
        Err(message) => step_to(state, RepairStage::Done, progress, RepairAction::Refuse(message)),
        Ok(_) => {
            if !dry_run && require_plan_token && expected_plan_token.is_none() {
                return step_to(
                    state,
                    RepairStage::Done,
                    progress,
                    RepairAction::Refuse(
                        "apply requires the plan token returned by the latest preview".to_owned(),
                    ),
                );
            }
            step_to(state, RepairStage::Scan, progress, RepairAction::Scan)
        },
    }
}

/// Starts a repair that tells how far it has come.
pub fn repair_projection_selected_at_with_progress(
    config: &Option<String>,
    config_path: &str,
    target_provider: &str,
    dry_run: bool,
    require_plan_token: bool,
    expected_plan_token: &Option<String>,
) -> (r: RepairStep)
    ensures
        r.deep_view() == first_step(
            config.deep_view(),
            config_path@,
            target_provider@,
            dry_run,
            require_plan_token,
            expected_plan_token.deep_view(),
            true,
        ),
{
    start_repair(
        config,
        config_path,
        target_provider,
        dry_run,
        require_plan_token,
        expected_plan_token,
        true,
    )
}

/// Starts a repair of selected sessions.
pub fn repair_projection_selected_at(
    config: &Option<String>,
    config_path: &str,
    target_provider: &str,
    dry_run: bool,
    require_plan_token: bool,
    expected_plan_token: &Option<String>,
) -> (r: RepairStep)
    ensures
        r.deep_view() == first_step(
            config.deep_view(),
            config_path@,
            target_provider@,
            dry_run,
            require_plan_token,
            expected_plan_token.deep_view(),
            false,
        ),
{
    start_repair(
        config,
        config_path,
        target_provider,
        dry_run,
        require_plan_token,
        expected_plan_token,
        false,
    )
}

/// Starts a repair of all sessions.
pub fn repair_projection_at(
    config: &Option<String>,
    config_path: &str,
    target_provider: &str,
    dry_run: bool,
    require_plan_token: bool,
    expected_plan_token: &Option<String>,
) -> (r: RepairStep)
    ensures
        r.deep_view() == first_step(
            config.deep_view(),
            config_path@,
            target_provider@,
            dry_run,
            require_plan_token,
            expected_plan_token.deep_view(),
            false,
        ),
{
    repair_projection_selected_at(
        config,
        config_path,
        target_provider,
        dry_run,
        require_plan_token,
        expected_plan_token,
    )
}

/// The percentage that was told when a stage was reached.
pub open spec fn reached(stage: RepairStage) -> int {
    match stage {
        RepairStage::Scan | RepairStage::Plan => 5,
        RepairStage::LockState => 90,
        RepairStage::Lock | RepairStage::Pending | RepairStage::Settle | RepairStage::CleanUp
        | RepairStage::Schema | RepairStage::Fingerprint | RepairStage::Rescan
        | RepairStage::Replan => 10,
        RepairStage::QuietCompare | RepairStage::QuietGuard | RepairStage::QuietCompareAgain
        | RepairStage::QuietSave => 65,
        RepairStage::QuietVerify => 90,
        RepairStage::Fence | RepairStage::InsertSchema => 25,
        RepairStage::Backup => 32,
        RepairStage::Staging => 45,
        RepairStage::Compare | RepairStage::Guard | RepairStage::CompareAgain
        | RepairStage::GlobalState | RepairStage::Note => 60,
        RepairStage::Sidecars => 65,
        RepairStage::Commit => 80,
        RepairStage::NoteCommitted => 85,
        RepairStage::Verify | RepairStage::Clear | RepairStage::NoteFailed => 90,
        RepairStage::LastCleanUp => 96,
        RepairStage::SettleFailed | RepairStage::Discard | RepairStage::Done => 100,
    }
}

/// What is told rises, from one percentage up to another.
pub open spec fn rises(progress: Seq<RepairProgressView>, from: int, to: int) -> bool {
    &&& forall|i: int|
        0 <= i < progress.len() ==> from <= (#[trigger] progress[i]).percent <= to
    &&& forall|i: int, j: int|
        0 <= i < j < progress.len() ==> (#[trigger] progress[i]).percent <= (
        #[trigger] progress[j]).percent
}

/// The progress of a repair never falls, and never passes 100.
pub proof fn law_progress_never_falls(state: RepairStateView, event: RepairEventView)
    requires
        waits_for(state.stage, event),
    ensures
        ({
            let step = repairing(state, event);
            rises(step.progress, reached(state.stage), reached(step.state.stage))
        }),
        reached(repairing(state, event).state.stage) <= 100,
{
}

/// A state of a repair has not verified more sessions than there are, nor does an event say so.
pub open spec fn counts_are_sound(state: RepairStateView, event: RepairEventView) -> bool {
    &&& state.checked <= state.draft->0.desired_sessions
    &&& event matches RepairEventView::Verified { result, .. } ==> result.checked
        <= state.draft->0.desired_sessions
}

/// What is told never counts more than there is.
pub proof fn law_counts_stay_within_totals(
    state: RepairStateView,
    event: RepairEventView,
    i: int,
)
    requires
        waits_for(state.stage, event),
        counts_are_sound(state, event),
        0 <= i < repairing(state, event).progress.len(),
    ensures
        ({
            let said = repairing(state, event).progress[i];
            &&& said.completed is Some <==> said.total is Some
            &&& said.completed is Some ==> said.completed->0 <= said.total->0
        }),
{
}

/// A configuration that changed after the plan was made under the lock stops the repair before
/// anything is written.
pub proof fn law_changed_config_stops_the_repair(
    state: RepairStateView,
    found: Option<Seq<char>>,
)
    requires
        state.stage == RepairStage::QuietCompare || state.stage == RepairStage::QuietCompareAgain
            || state.stage == RepairStage::Compare || state.stage == RepairStage::CompareAgain,
        found is None || found != state.fingerprint,
    ensures
        ({
            let step = repairing(state, RepairEventView::Hashed(found));
            step.action is Refuse || step.action is DiscardBackup
        }),
{
}

/// Completion is told exactly with a result: a repair that ends without one never tells it.
pub proof fn law_completed_means_reported(state: RepairStateView, event: RepairEventView, i: int)
    requires
        waits_for(state.stage, event),
        0 <= i < repairing(state, event).progress.len(),
        repairing(state, event).progress[i].stage == RepairProgressStage::Completed,
    ensures
        repairing(state, event).action is Report,
{
}

/// A plan that changed after its preview is refused before anything is written.
pub proof fn law_stale_plan_is_refused(state: RepairStateView, draft: RepairDraftView)
    requires
        state.stage == RepairStage::Replan,
        state.expected_token is Some,
        state.expected_token->0 != draft.plan_token,
    ensures
        repairing(state, RepairEventView::Drafted(draft)).action is Refuse,
        repairing(state, RepairEventView::Drafted(draft)).progress.len() == 0,
{
}

/// Without the token of a preview, a repair that needs one does not even plan.
pub proof fn law_apply_needs_a_token(
    config: Option<Seq<char>>,
    config_path: Seq<char>,
    target: Seq<char>,
    talks: bool,
)
    ensures
        first_step(config, config_path, target, false, true, None, talks).action is Refuse,
{
}

/// A preview writes nothing: its steps only read, plan, and look at the lock.
pub proof fn law_preview_writes_nothing(state: RepairStateView, event: RepairEventView)
    requires
        state.dry_run,
        state.stage == RepairStage::Scan || state.stage == RepairStage::Plan || state.stage
            == RepairStage::LockState,
        waits_for(state.stage, event),
    ensures
        ({
            let step = repairing(state, event);
            &&& step.action is Plan || step.action is InspectLock || step.action is Report
                || step.action is Refuse
            &&& step.state.stage == RepairStage::Plan || step.state.stage == RepairStage::LockState
                || step.state.stage == RepairStage::Done
            &&& step.state.dry_run
        }),
{
}

/// Sessions are written only after a backup was made, rollouts only after the journal was written,
/// and the databases are committed only after the rollouts were.
pub proof fn law_writes_are_backed_up_first(state: RepairStateView, event: RepairEventView)
    requires
        waits_for(state.stage, event),
    ensures
        ({
            let action = repairing(state, event).action;
            &&& action is StageWrites ==> state.stage == RepairStage::Backup && event is BackedUp
            &&& action is WriteSidecars ==> state.stage == RepairStage::Note && event is Succeeded
            &&& action is Commit ==> state.stage == RepairStage::Sidecars && event is Succeeded
            &&& action == RepairActionView::WriteJournal(RepairPhase::Prepared) ==> state.stage
                == RepairStage::CompareAgain || state.stage == RepairStage::GlobalState
        }),
{
}

/// A backup is discarded only while nothing of the repair is left: before its journal was written,
/// or after everything was put back.
pub proof fn law_backup_outlives_the_commit(state: RepairStateView, event: RepairEventView)
    requires
        waits_for(state.stage, event),
        repairing(state, event).action is DiscardBackup,
    ensures
        state.stage == RepairStage::Staging || state.stage == RepairStage::Compare || state.stage
            == RepairStage::Guard || state.stage == RepairStage::CompareAgain || state.stage
            == RepairStage::GlobalState || state.stage == RepairStage::Note || (state.stage
            == RepairStage::SettleFailed && (event == RepairEventView::Settled(
            PendingRepairResolution::BeforeCommitCleared,
        ) || event == RepairEventView::Settled(PendingRepairResolution::Compensated))),
{
}

/// A repair that does not verify keeps its journal and its backup: the journal is never cleared.
pub proof fn law_unverified_repair_keeps_its_journal(
    state: RepairStateView,
    result: VerifyResultView,
    undone: Option<Seq<char>>,
)
    requires
        state.stage == RepairStage::Verify,
        !result.ok || undone is Some,
    ensures
        repairing(state, RepairEventView::Verified { result, undone }).action
            == RepairActionView::WriteJournal(RepairPhase::VerificationFailed),
{
}

/// A pending operation that is no repair blocks a repair.
pub proof fn law_pending_blocks_repair(state: RepairStateView, pending: PendingOperationView)
    requires
        state.stage == RepairStage::Pending,
        pending.command != "repair"@ || pending.repair_journal is None,
    ensures
        repairing(state, RepairEventView::Pending(Some(pending))).action is Refuse,
{
}

/// A pending operation is an interrupted repair that is settled when the tool starts.
pub open spec fn is_resumed(pending: Option<PendingOperationView>) -> bool {
    pending is Some && pending->0.command == "repair"@ && pending->0.repair_journal is Some
        && pending->0.phase != Some(RepairPhase::VerificationFailed)
}

/// Whether a pending operation is an interrupted repair that is settled when the tool starts. One
/// that failed its verification is left alone.
pub fn resumes_on_startup(pending: &Option<PendingOperation>) -> (r: bool)
    ensures
        r == is_resumed(pending.deep_view()),
{
    match pending {
        Some(operation) => {
            let failed = match operation.phase {
                Some(phase) => phase == RepairPhase::VerificationFailed,
                None => false,
            };
            same(operation.command.as_str(), "repair") && operation.repair_journal.is_some()
                && !failed
        },
        None => false,
    }
}

/// Whether the pending operation is still the one that was seen before the lock was taken.
pub fn reconcile_pending_repair_on_startup(
    seen: &PendingOperation,
    current: &Option<PendingOperation>,
) -> (r: bool)
    ensures
        r == (current is Some && current->0.command@ == seen.command@ && current->0.created_at@
            == seen.created_at@ && current->0.repair_journal is Some),
{
    match current {
        Some(operation) => same(operation.command.as_str(), seen.command.as_str()) && same(
            operation.created_at.as_str(),
            seen.created_at.as_str(),
        ) && operation.repair_journal.is_some(),
        None => false,
    }
}

proof fn lemma_distinct(reasons: Seq<SkipReasonView>)
    ensures
        distinct_reasons(reasons).no_duplicates(),
        forall|reason: SkipReasonView| #[trigger]
            distinct_reasons(reasons).contains(reason) <==> reasons.contains(reason),
    decreases reasons.len(),
{
    if reasons.len() > 0 {
        let front = reasons.drop_last();
        lemma_distinct(front);
        let last = reasons.last();
        assert(reasons =~= front.push(last));
        assert forall|reason: SkipReasonView| #[trigger]
            distinct_reasons(reasons).contains(reason) <==> reasons.contains(reason) by {
            sessions::lemma_push_contains(front, last, reason);
            sessions::lemma_push_contains(distinct_reasons(front), last, reason);
        }
    }
}

/// A repair tells every reason of its preview and of its plan, each once, and no other.
pub proof fn law_reasons_are_told_once(
    previewed: Seq<SkipReasonView>,
    planned: Seq<SkipReasonView>,
    reason: SkipReasonView,
)
    ensures
        distinct_reasons(previewed + planned).no_duplicates(),
        distinct_reasons(previewed + planned).contains(reason) <==> previewed.contains(reason)
            || planned.contains(reason),
        merged_reasons(previewed, planned).len() == distinct_reasons(previewed + planned).len(),
        merged_reasons(previewed, planned).contains(reason) ==> previewed.contains(reason)
            || planned.contains(reason),
{
    broadcast use vstd::seq_lib::group_seq_properties;

    let all = previewed + planned;
    let told = distinct_reasons(all);
    let sorted = merged_reasons(previewed, planned);
    lemma_distinct(all);
    ordered::law_sorting_orders_the_items::<SkipReason>(told);
    if sorted.contains(reason) {
        let k = choose|k: int| 0 <= k < sorted.len() && sorted[k] == reason;
        assert(told.contains(sorted[k]));
    }
}

/// The draft of a repair counts the writes of its plan, is in conflict where its preview is, and
/// touches the catalog and adds sessions exactly where its plan does.
pub proof fn law_draft_counts_the_plan(
    planned: PlannedRepairView,
    store: Option<ProjectionStoreView>,
)
    requires
        planned.plan.changed_ids.finite(),
        planned.plan.changed_ids.len() <= usize::MAX,
        planned.plan.state_updates.len() + planned.plan.state_restores.len()
            + planned.plan.state_inserts.len() + planned.plan.state_deletes.len() <= usize::MAX,
        planned.plan.rollout_updates.len() <= usize::MAX,
        planned.plan.catalog_updates.len() <= usize::MAX,
        planned.plan.catalog_inserts.len() <= usize::MAX,
        planned.plan.catalog_deletes.len() <= usize::MAX,
        planned.plan.workspace_hint_updates.len() <= usize::MAX,
    ensures
        ({
            let draft = draft_of(planned, store);
            let plan = planned.plan;
            &&& draft.changed_threads == plan.changed_ids.len()
            &&& draft.state_updates == plan.state_updates.len() + plan.state_restores.len()
                + plan.state_inserts.len() + plan.state_deletes.len()
            &&& draft.rollout_updates == plan.rollout_updates.len()
            &&& draft.catalog_updates == plan.catalog_updates.len()
            &&& draft.catalog_inserts == plan.catalog_inserts.len()
            &&& draft.catalog_deletes == plan.catalog_deletes.len()
            &&& draft.workspace_hint_updates == plan.workspace_hint_updates.len()
            &&& draft.plan_token == planned.preview.plan_token
            &&& draft.skipped_reasons == planned.skipped_reasons
            &&& draft.store_fault == planned.store_fault
            &&& draft.conflicts <==> planned.preview.reconcile_conflicts > 0
                || planned.preview.workspace_conflicts > 0
            &&& draft.adds_sessions <==> plan.state_inserts.len() > 0
            &&& draft.writes_catalog <==> plan.catalog_updates.len() > 0
                || plan.catalog_inserts.len() > 0 || plan.catalog_deletes.len() > 0
            &&& draft.projection_changed ==> store is Some && planned.next_store is Some
            &&& store is Some && planned.next_store is Some ==> (draft.projection_changed <==> store
                != planned.next_store)
        }),
{
    ordered::lemma_finite_is_listed::<String>(planned.plan.changed_ids);
}

/// The result of a repair tells what its draft counted; one that had nothing to write tells of no
/// writes; and neither ever asks for more rights.
pub proof fn law_result_tells_what_was_done(
    draft: RepairDraftView,
    dry_run: bool,
    verified: bool,
    backup_path: Option<Seq<char>>,
    cleanup: Option<BackupCleanupResultView>,
    lock: Seq<char>,
)
    requires
        draft.skipped_reasons.len() <= usize::MAX,
    ensures
        ({
            let result = repair_result(draft, dry_run, verified, backup_path, cleanup, lock);
            &&& result.changed_threads == draft.changed_threads
            &&& result.restored_threads == 0
            &&& result.state_updates == draft.state_updates
            &&& result.rollout_updates == draft.rollout_updates
            &&& result.catalog_updates == draft.catalog_updates
            &&& result.catalog_inserts == draft.catalog_inserts
            &&& result.catalog_deletes == draft.catalog_deletes
            &&& result.workspace_hint_updates == draft.workspace_hint_updates
            &&& result.skipped == draft.skipped_reasons.len()
            &&& result.skipped_reasons == draft.skipped_reasons
            &&& result.dry_run == dry_run
            &&& result.verified == verified
            &&& result.backup_path == backup_path
            &&& result.backup_cleanup == cleanup
            &&& result.plan_token == Some(draft.plan_token)
            &&& result.lock == lock
            &&& !result.needs_admin
        }),
        ({
            let result = quiet_result(draft, verified, cleanup);
            &&& result.changed_threads == 0
            &&& result.state_updates == 0
            &&& result.rollout_updates == 0
            &&& result.catalog_updates == 0
            &&& result.catalog_inserts == 0
            &&& result.catalog_deletes == 0
            &&& result.workspace_hint_updates == 0
            &&& !result.dry_run
            &&& result.verified == verified
            &&& result.backup_path is None
            &&& result.skipped_reasons == draft.skipped_reasons
            &&& result.plan_token == Some(draft.plan_token)
            &&& result.lock == "clear"@
        }),
{
}

/// A preview that nothing stands in the way of reads, plans, looks at the lock and reports what a
/// repair would do, without having done it.
pub proof fn law_preview_reports_the_draft(
    talks: bool,
    token: Option<Seq<char>>,
    path: Seq<char>,
    readable: bool,
    draft: RepairDraftView,
    lock: Seq<char>,
)
    ensures
        ({
            let start = repair_started(true, talks, token, path);
            let scanned = repairing(start, RepairEventView::Scanned(readable));
            let planned = repairing(scanned.state, RepairEventView::Drafted(draft));
            let looked = repairing(planned.state, RepairEventView::LockState(lock));
            &&& scanned.action is Plan
            &&& planned.action is InspectLock
            &&& looked.action is Report
            &&& looked.action->Report_0.dry_run
            &&& !looked.action->Report_0.verified
            &&& looked.action->Report_0.changed_threads == draft.changed_threads
            &&& looked.action->Report_0.plan_token == Some(draft.plan_token)
            &&& looked.action->Report_0.lock == lock
            &&& looked.action->Report_0.backup_path is None
        }),
{
}

/// A repair prepares itself step by step: it reads and plans, takes the lock, looks for pending
/// operations, cleans up, checks the databases, fingerprints the configuration, and reads and plans
/// again; and it goes no further where the sessions or the configuration cannot be read.
pub proof fn law_repair_prepares_step_by_step(
    state: RepairStateView,
    draft: RepairDraftView,
    cleanup: BackupCleanupResultView,
    digest: Seq<char>,
)
    ensures
        ({
            let read = repairing(state, RepairEventView::Scanned(true));
            let unread = repairing(state, RepairEventView::Scanned(false));
            &&& state.stage == RepairStage::Scan ==> read.action is Plan && read.state == (
            RepairStateView { stage: RepairStage::Plan, ..state })
            &&& state.stage == RepairStage::Scan && !state.dry_run ==> unread.action is Refuse
            &&& state.stage == RepairStage::Rescan ==> read.action is Plan && read.state == (
            RepairStateView { stage: RepairStage::Replan, ..state }) && unread.action is Refuse
        }),
        state.stage == RepairStage::Plan && !state.dry_run ==> ({
            let step = repairing(state, RepairEventView::Drafted(draft));
            step.action is AcquireLock && step.state == (RepairStateView {
                stage: RepairStage::Lock,
                draft: Some(draft),
                ..state
            })
        }),
        state.stage == RepairStage::Lock ==> ({
            let step = repairing(state, RepairEventView::Succeeded);
            step.action is ReadPending && step.state == (RepairStateView {
                stage: RepairStage::Pending,
                ..state
            })
        }),
        state.stage == RepairStage::Pending ==> ({
            let step = repairing(state, RepairEventView::Pending(None));
            step.action == RepairActionView::CleanUp(None) && step.state == (RepairStateView {
                stage: RepairStage::CleanUp,
                ..state
            })
        }),
        state.stage == RepairStage::CleanUp ==> ({
            let step = repairing(state, RepairEventView::Cleaned(cleanup));
            step.action is CheckSchema && step.state == (RepairStateView {
                stage: RepairStage::Schema,
                cleanup: Some(cleanup),
                ..state
            })
        }),
        state.stage == RepairStage::Schema ==> ({
            let step = repairing(state, RepairEventView::Succeeded);
            step.action is HashConfig && step.state == (RepairStateView {
                stage: RepairStage::Fingerprint,
                ..state
            })
        }),
        state.stage == RepairStage::Fingerprint ==> ({
            let step = repairing(state, RepairEventView::Hashed(Some(digest)));
            step.action is Scan && step.state == (RepairStateView {
                stage: RepairStage::Rescan,
                fingerprint: Some(digest),
                ..state
            }) && repairing(state, RepairEventView::Hashed(None)).action is Refuse
        }),
{
}

/// With a plan that is still the one that was shown, a repair takes the fence, checks that sessions
/// can be added if it adds any, makes a backup and stages its writes.
pub proof fn law_repair_stages_step_by_step(
    state: RepairStateView,
    draft: RepairDraftView,
    backup: Seq<char>,
)
    ensures
        state.stage == RepairStage::Replan && draft.store_fault is None && draft.changed_threads > 0
            && (state.expected_token is None || state.expected_token == Some(draft.plan_token))
            ==> ({
            let step = repairing(state, RepairEventView::Drafted(draft));
            step.action == RepairActionView::AcquireFence(draft.writes_catalog) && step.state == (
            RepairStateView { stage: RepairStage::Fence, draft: Some(draft), ..state })
        }),
        state.stage == RepairStage::Fence && state.draft->0.adds_sessions ==> ({
            let step = repairing(state, RepairEventView::Succeeded);
            step.action is CheckInsertSchema && step.state == (RepairStateView {
                stage: RepairStage::InsertSchema,
                ..state
            })
        }),
        (state.stage == RepairStage::Fence && !state.draft->0.adds_sessions) || state.stage
            == RepairStage::InsertSchema ==> ({
            let step = repairing(state, RepairEventView::Succeeded);
            step.action is MakeBackup && step.state == (RepairStateView {
                stage: RepairStage::Backup,
                ..state
            })
        }),
        state.stage == RepairStage::Backup ==> ({
            let step = repairing(state, RepairEventView::BackedUp(backup));
            step.action is StageWrites && step.state == (RepairStateView {
                stage: RepairStage::Staging,
                backup_path: backup,
                ..state
            })
        }),
        state.stage == RepairStage::Staging ==> ({
            let step = repairing(state, RepairEventView::Succeeded);
            step.action is HashConfig && step.state == (RepairStateView {
                stage: RepairStage::Compare,
                ..state
            })
        }),
{
}

/// A repair then compares the configuration, guards it, compares it again, takes hold of the global
/// state if it writes it, and writes the journal.
pub proof fn law_repair_guards_step_by_step(state: RepairStateView)
    requires
        state.fingerprint is Some,
    ensures
        ({
            let same = repairing(state, RepairEventView::Hashed(state.fingerprint));
            let done = repairing(state, RepairEventView::Succeeded);
            let prepared = RepairActionView::WriteJournal(RepairPhase::Prepared);
            &&& state.stage == RepairStage::Compare ==> same.action is GuardConfig && same.state
                == (RepairStateView { stage: RepairStage::Guard, ..state })
            &&& state.stage == RepairStage::Guard ==> done.action is HashConfig && done.state == (
            RepairStateView { stage: RepairStage::CompareAgain, ..state })
            &&& state.stage == RepairStage::CompareAgain && state.draft->0.workspace_hint_updates
                > 0 ==> same.action is AcquireGlobalState && same.state == (RepairStateView {
                stage: RepairStage::GlobalState,
                ..state
            })
            &&& state.stage == RepairStage::CompareAgain && state.draft->0.workspace_hint_updates
                == 0 ==> same.action == prepared && same.state == (RepairStateView {
                stage: RepairStage::Note,
                ..state
            })
            &&& state.stage == RepairStage::GlobalState ==> done.action == prepared && done.state
                == (RepairStateView { stage: RepairStage::Note, ..state })
        }),
{
}

/// A repair then writes the rollouts, commits, notes that, verifies, clears the journal where the
/// sessions verify, cleans up and reports: verified exactly where nothing was in conflict.
pub proof fn law_repair_commits_step_by_step(
    state: RepairStateView,
    result: VerifyResultView,
    cleanup: BackupCleanupResultView,
)
    ensures
        ({
            let done = repairing(state, RepairEventView::Succeeded);
            &&& state.stage == RepairStage::Note ==> done.action is WriteSidecars && done.state == (
            RepairStateView { stage: RepairStage::Sidecars, ..state })
            &&& state.stage == RepairStage::Sidecars ==> done.action is Commit && done.state == (
            RepairStateView { stage: RepairStage::Commit, ..state })
            &&& state.stage == RepairStage::Commit ==> done.action
                == RepairActionView::WriteJournal(RepairPhase::Committed) && done.state == (
            RepairStateView { stage: RepairStage::NoteCommitted, ..state })
            &&& state.stage == RepairStage::NoteCommitted ==> done.action is VerifyFresh
                && done.state == (RepairStateView { stage: RepairStage::Verify, ..state })
            &&& state.stage == RepairStage::Clear ==> done.action == RepairActionView::CleanUp(
                Some(state.backup_path),
            ) && done.state == (RepairStateView { stage: RepairStage::LastCleanUp, ..state })
        }),
        state.stage == RepairStage::Verify && result.ok ==> ({
            let step = repairing(state, RepairEventView::Verified { result, undone: None });
            step.action is ClearPending && step.state == (RepairStateView {
                stage: RepairStage::Clear,
                checked: result.checked,
                ..state
            })
        }),
        state.stage == RepairStage::LastCleanUp ==> ({
            let step = repairing(state, RepairEventView::Cleaned(cleanup));
            &&& step.action is Report
            &&& !step.action->Report_0.dry_run
            &&& step.action->Report_0.verified == !state.draft->0.conflicts
            &&& step.action->Report_0.backup_path == Some(state.backup_path)
            &&& step.action->Report_0.backup_cleanup == Some(cleanup)
            &&& step.action->Report_0.changed_threads == state.draft->0.changed_threads
        }),
{
}

/// A repair with nothing to write makes no backup: where the store changed it compares, guards and
/// compares the configuration and saves the store; it verifies the sessions as planned and reports no
/// writes.
pub proof fn law_quiet_repair_goes_step_by_step(
    state: RepairStateView,
    draft: RepairDraftView,
    result: VerifyResultView,
)
    requires
        state.fingerprint is Some,
    ensures
        state.stage == RepairStage::Replan && draft.store_fault is None && draft.changed_threads
            == 0 && (state.expected_token is None || state.expected_token == Some(
            draft.plan_token,
        )) ==> ({
            let step = repairing(state, RepairEventView::Drafted(draft));
            &&& draft.projection_changed ==> step.action is HashConfig && step.state.stage
                == RepairStage::QuietCompare
            &&& !draft.projection_changed ==> step.action is VerifyPlanned && step.state.stage
                == RepairStage::QuietVerify
            &&& step.state.draft == Some(draft)
        }),
        ({
            let same = repairing(state, RepairEventView::Hashed(state.fingerprint));
            let done = repairing(state, RepairEventView::Succeeded);
            &&& state.stage == RepairStage::QuietCompare ==> same.action is GuardConfig
                && same.state.stage == RepairStage::QuietGuard
            &&& state.stage == RepairStage::QuietGuard ==> done.action is HashConfig
                && done.state.stage == RepairStage::QuietCompareAgain
            &&& state.stage == RepairStage::QuietCompareAgain ==> same.action is SaveStore
                && same.state.stage == RepairStage::QuietSave
            &&& state.stage == RepairStage::QuietSave ==> done.action is VerifyPlanned
                && done.state.stage == RepairStage::QuietVerify
        }),
        state.stage == RepairStage::QuietVerify ==> ({
            let step = repairing(state, RepairEventView::Verified { result, undone: None });
            &&& step.action is Report
            &&& step.action->Report_0.changed_threads == 0
            &&& step.action->Report_0.verified <==> result.ok && !state.draft->0.conflicts
            &&& step.action->Report_0.backup_path is None
        }),
{
}

/// What goes wrong before the journal is written has the backup discarded; what goes wrong with the
/// rollouts or the commit is settled by the journal; what goes wrong earlier is refused with its own
/// words; and a cleanup that fails stops nothing.
pub proof fn law_hindered_repair(state: RepairStateView, error: Seq<char>, draft: RepairDraftView)
    ensures
        ({
            let step = repairing(state, RepairEventView::Failed(error));
            &&& state.stage == RepairStage::Staging || state.stage == RepairStage::Guard
                || state.stage == RepairStage::GlobalState || state.stage == RepairStage::Note
                ==> step.action is DiscardBackup && step.state.error == error
            &&& state.stage == RepairStage::Sidecars || state.stage == RepairStage::Commit
                ==> step.action is SettleFailed
            &&& state.stage == RepairStage::Commit ==> step.state.error == error
            &&& state.stage == RepairStage::Plan || state.stage == RepairStage::Replan
                || state.stage == RepairStage::Lock || state.stage == RepairStage::Pending
                || state.stage == RepairStage::Settle || state.stage == RepairStage::Schema
                || state.stage == RepairStage::Fence || state.stage == RepairStage::InsertSchema
                || state.stage == RepairStage::Backup || state.stage == RepairStage::QuietGuard
                || state.stage == RepairStage::QuietSave || state.stage == RepairStage::Clear
                ==> step.action == RepairActionView::Refuse(error)
            &&& state.stage == RepairStage::CleanUp ==> step.action is CheckSchema
            &&& state.stage == RepairStage::LastCleanUp ==> step.action is Report
            &&& state.stage == RepairStage::NoteCommitted ==> step.action is VerifyFresh
                && step.state.committed_error == Some(error)
            &&& state.stage == RepairStage::NoteFailed || state.stage == RepairStage::Discard
                ==> step.action is Refuse
        }),
        state.stage == RepairStage::Replan && draft.store_fault is Some && (
        state.expected_token is None || state.expected_token == Some(draft.plan_token))
            ==> repairing(state, RepairEventView::Drafted(draft)).action
            == RepairActionView::Refuse(draft.store_fault->0),
        state.stage == RepairStage::Discard ==> repairing(
            state,
            RepairEventView::Succeeded,
        ).action is Refuse,
{
}

/// A pending repair with a journal is settled first; a repair goes on after that unless the pending
/// one failed its verification.
pub proof fn law_pending_repair_is_settled(
    state: RepairStateView,
    operation: PendingOperationView,
    resolution: PendingRepairResolution,
)
    ensures
        state.stage == RepairStage::Pending && operation.command == "repair"@
            && operation.repair_journal is Some ==> repairing(
            state,
            RepairEventView::Pending(Some(operation)),
        ).action is SettlePending,
        state.stage == RepairStage::Settle ==> (repairing(
            state,
            RepairEventView::Settled(resolution),
        ).action is Refuse <==> resolution == PendingRepairResolution::VerificationFailed),
        state.stage == RepairStage::Settle && resolution
            != PendingRepairResolution::VerificationFailed ==> repairing(
            state,
            RepairEventView::Settled(resolution),
        ).action == RepairActionView::CleanUp(None),
{
}

/// A repair begins exactly where its target is the configured provider and, if it is to write and
/// must be previewed first, the token of a preview was given.
pub proof fn law_repair_begins(
    config: Option<Seq<char>>,
    path: Seq<char>,
    target: Seq<char>,
    dry_run: bool,
    require_token: bool,
    token: Option<Seq<char>>,
    talks: bool,
)
    ensures
        ({
            let step = first_step(config, path, target, dry_run, require_token, token, talks);
            let begins = providers::safe_id(target) && providers::configured_provider(config)
                == Some(target) && (dry_run || !require_token || token is Some);
            &&& step.action is Scan <==> begins
            &&& step.action is Refuse <==> !begins
            &&& begins ==> step.state.stage == RepairStage::Scan && step.state.dry_run == dry_run
                && step.state.expected_token == token && step.state.config_path == path
        }),
{
}

} // verus!

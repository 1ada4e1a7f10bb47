//! Restoring a backup: what it needs, the order of its writes, and how it is taken back.

use crate::access::acquire_global_state;
use crate::backups;
use crate::backups::{BackupManifest, BackupManifestView, ManifestFile, ManifestFileView};
use crate::digest;
use crate::digest::hash_contents;
use crate::journal;
use crate::journal::{
    show_slot, sort_rollout_rows, PendingOperation, PendingOperationView, RepairRolloutJournal,
    RepairRolloutJournalView,
};
use crate::json;
use crate::model;
use crate::model::Model;
use crate::ordered::OrderedMap;
use crate::planning::{RolloutUpdate, RolloutUpdateView, SkipReason, SkipReasonView};
use crate::providers::provider_id_is_safe;
use crate::providers;
use crate::recovery;
use crate::recovery::{join_all, PendingRepairResolution};
use crate::snapshots::{SlotRead, SlotReadView};
use crate::sessions;
use crate::text;
use crate::text::{is_blank, join2, join3, join4, join5, same};
use crate::verification::{VerifyResult, VerifyResultView};
use vstd::prelude::*;

verus! {

/// A rollout that a restore puts back, and the provider that it had when the restore began.
#[derive(Clone, Debug, PartialEq, Eq)]
pub struct RestoreRolloutImage {
    pub row: RepairRolloutJournal,
    pub path: String,
    pub entry_provider: Option<String>,
}

/// What a `RestoreRolloutImage` stands for.
#[verifier::ext_equal]
pub struct RestoreRolloutImageView {
    pub row: RepairRolloutJournalView,
    pub path: Seq<char>,
    pub entry_provider: Option<Seq<char>>,
}

impl DeepView for RestoreRolloutImage {
    type V = RestoreRolloutImageView;

    open spec fn deep_view(&self) -> RestoreRolloutImageView {
        RestoreRolloutImageView {
            row: self.row.deep_view(),
            path: self.path.deep_view(),
            entry_provider: self.entry_provider.deep_view(),
        }
    }
}

impl Model for RestoreRolloutImage {
    fn copy_of(&self) -> (r: Self) {
        RestoreRolloutImage {
            row: self.row.copy_of(),
            path: self.path.copy_of(),
            entry_provider: self.entry_provider.copy_of(),
        }
    }

    fn same_as(&self, other: &Self) -> (r: bool) {
        self.row.same_as(&other.row)
            && self.path.same_as(&other.path)
            && self.entry_provider.same_as(&other.entry_provider)
    }
}

/// A rollout where it lies, and what was read of it.
#[derive(Clone, Debug, PartialEq, Eq)]
pub struct RolloutAt {
    pub path: String,
    pub slot: SlotRead,
}

/// What a `RolloutAt` stands for.
#[verifier::ext_equal]
pub struct RolloutAtView {
    pub path: Seq<char>,
    pub slot: SlotReadView,
}

impl DeepView for RolloutAt {
    type V = RolloutAtView;

    open spec fn deep_view(&self) -> RolloutAtView {
        RolloutAtView {
            path: self.path.deep_view(),
            slot: self.slot.deep_view(),
        }
    }
}

impl Model for RolloutAt {
    fn copy_of(&self) -> (r: Self) {
        RolloutAt {
            path: self.path.copy_of(),
            slot: self.slot.copy_of(),
        }
    }

    fn same_as(&self, other: &Self) -> (r: bool) {
        self.path.same_as(&other.path)
            && self.slot.same_as(&other.slot)
    }
}

/// What becomes of a rollout when a restore is taken back.
#[derive(Clone, Debug, PartialEq, Eq)]
pub enum ImageRecovery {
    /// It reads as it did when the restore began.
    Unchanged,
    /// It is put back.
    PutBack,
    /// It cannot be put back: why.
    Fault(String),
}

/// What a `ImageRecovery` stands for.
#[verifier::ext_equal]
pub enum ImageRecoveryView {
    Unchanged,
    PutBack,
    Fault(Seq<char>),
}

impl DeepView for ImageRecovery {
    type V = ImageRecoveryView;

    open spec fn deep_view(&self) -> ImageRecoveryView {
        match self {
            ImageRecovery::Unchanged => ImageRecoveryView::Unchanged,
            ImageRecovery::PutBack => ImageRecoveryView::PutBack,
            ImageRecovery::Fault(value) => ImageRecoveryView::Fault(value.deep_view()),
        }
    }
}

impl Model for ImageRecovery {
    fn copy_of(&self) -> (r: Self) {
        match self {
            ImageRecovery::Unchanged => ImageRecovery::Unchanged,
            ImageRecovery::PutBack => ImageRecovery::PutBack,
            ImageRecovery::Fault(value) => ImageRecovery::Fault(value.copy_of()),
        }
    }

    fn same_as(&self, other: &Self) -> (r: bool) {
        match (self, other) {
            (ImageRecovery::Unchanged, ImageRecovery::Unchanged) => true,
            (ImageRecovery::PutBack, ImageRecovery::PutBack) => true,
            (ImageRecovery::Fault(value_l), ImageRecovery::Fault(value_r)) => value_l.same_as(value_r),
            _ => false,
        }
    }
}

/// What was found of a file that is restored, or restored from.
#[derive(Clone, Debug, PartialEq, Eq)]
pub enum RestoreFile {
    /// There is none: what the system said.
    Missing(String),
    Symlink,
    NotRegular,
    Regular,
}

/// What a `RestoreFile` stands for.
#[verifier::ext_equal]
pub enum RestoreFileView {
    Missing(Seq<char>),
    Symlink,
    NotRegular,
    Regular,
}

impl DeepView for RestoreFile {
    type V = RestoreFileView;

    open spec fn deep_view(&self) -> RestoreFileView {
        match self {
            RestoreFile::Missing(value) => RestoreFileView::Missing(value.deep_view()),
            RestoreFile::Symlink => RestoreFileView::Symlink,
            RestoreFile::NotRegular => RestoreFileView::NotRegular,
            RestoreFile::Regular => RestoreFileView::Regular,
        }
    }
}

impl Model for RestoreFile {
    fn copy_of(&self) -> (r: Self) {
        match self {
            RestoreFile::Missing(value) => RestoreFile::Missing(value.copy_of()),
            RestoreFile::Symlink => RestoreFile::Symlink,
            RestoreFile::NotRegular => RestoreFile::NotRegular,
            RestoreFile::Regular => RestoreFile::Regular,
        }
    }

    fn same_as(&self, other: &Self) -> (r: bool) {
        match (self, other) {
            (RestoreFile::Missing(value_l), RestoreFile::Missing(value_r)) => value_l.same_as(value_r),
            (RestoreFile::Symlink, RestoreFile::Symlink) => true,
            (RestoreFile::NotRegular, RestoreFile::NotRegular) => true,
            (RestoreFile::Regular, RestoreFile::Regular) => true,
            _ => false,
        }
    }
}

/// What was found of a backup of the current version and of what it replaces.
#[derive(Clone, Debug, PartialEq, Eq)]
pub struct StateRestore {
    pub target_path: String,
    pub target: RestoreFile,
    /// Why the database cannot be written.
    pub locked: Option<String>,
    pub backup_path: String,
    pub backup: RestoreFile,
    pub sha256: Option<String>,
    /// What is wrong with the tables of the backup.
    pub schema: Option<String>,
}

/// What a `StateRestore` stands for.
#[verifier::ext_equal]
pub struct StateRestoreView {
    pub target_path: Seq<char>,
    pub target: RestoreFileView,
    pub locked: Option<Seq<char>>,
    pub backup_path: Seq<char>,
    pub backup: RestoreFileView,
    pub sha256: Option<Seq<char>>,
    pub schema: Option<Seq<char>>,
}

impl DeepView for StateRestore {
    type V = StateRestoreView;

    open spec fn deep_view(&self) -> StateRestoreView {
        StateRestoreView {
            target_path: self.target_path.deep_view(),
            target: self.target.deep_view(),
            locked: self.locked.deep_view(),
            backup_path: self.backup_path.deep_view(),
            backup: self.backup.deep_view(),
            sha256: self.sha256.deep_view(),
            schema: self.schema.deep_view(),
        }
    }
}

impl Model for StateRestore {
    fn copy_of(&self) -> (r: Self) {
        StateRestore {
            target_path: self.target_path.copy_of(),
            target: self.target.copy_of(),
            locked: self.locked.copy_of(),
            backup_path: self.backup_path.copy_of(),
            backup: self.backup.copy_of(),
            sha256: self.sha256.copy_of(),
            schema: self.schema.copy_of(),
        }
    }

    fn same_as(&self, other: &Self) -> (r: bool) {
        self.target_path.same_as(&other.target_path)
            && self.target.same_as(&other.target)
            && self.locked.same_as(&other.locked)
            && self.backup_path.same_as(&other.backup_path)
            && self.backup.same_as(&other.backup)
            && self.sha256.same_as(&other.sha256)
            && self.schema.same_as(&other.schema)
    }
}

/// What was found of a file of an older backup.
#[derive(Clone, Debug, PartialEq, Eq)]
pub struct LegacyFile {
    pub shown: String,
    pub found: RestoreFile,
    pub sha256: Option<String>,
    /// Why its contents cannot be used.
    pub fault: Option<String>,
}

/// What a `LegacyFile` stands for.
#[verifier::ext_equal]
pub struct LegacyFileView {
    pub shown: Seq<char>,
    pub found: RestoreFileView,
    pub sha256: Option<Seq<char>>,
    pub fault: Option<Seq<char>>,
}

impl DeepView for LegacyFile {
    type V = LegacyFileView;

    open spec fn deep_view(&self) -> LegacyFileView {
        LegacyFileView {
            shown: self.shown.deep_view(),
            found: self.found.deep_view(),
            sha256: self.sha256.deep_view(),
            fault: self.fault.deep_view(),
        }
    }
}

impl Model for LegacyFile {
    fn copy_of(&self) -> (r: Self) {
        LegacyFile {
            shown: self.shown.copy_of(),
            found: self.found.copy_of(),
            sha256: self.sha256.copy_of(),
            fault: self.fault.copy_of(),
        }
    }

    fn same_as(&self, other: &Self) -> (r: bool) {
        self.shown.same_as(&other.shown)
            && self.found.same_as(&other.found)
            && self.sha256.same_as(&other.sha256)
            && self.fault.same_as(&other.fault)
    }
}

/// A step of writing a backup back.
#[derive(Clone, Copy, Debug, PartialEq, Eq, Structural)]
pub enum RestoreStep {
    /// The databases are opened for writing.
    Acquire,
    /// What they hold is kept aside.
    KeepCurrent,
    RestoreDatabases,
    RestoreGlobalState,
    RestoreRollouts,
    RestoreProjection,
    Validate,
    VerifyGlobalState,
    /// The databases are put back as they were.
    RecoverDatabases,
    RecoverProjection,
    RecoverGlobalState,
    RecoverRollouts,
    Finished,
}

impl DeepView for RestoreStep {
    type V = RestoreStep;

    open spec fn deep_view(&self) -> RestoreStep {
        *self
    }
}

impl Model for RestoreStep {
    fn copy_of(&self) -> (r: Self) {
        *self
    }

    fn same_as(&self, other: &Self) -> (r: bool) {
        *self == *other
    }
}

/// Writing a backup back.
#[derive(Clone, Debug, PartialEq, Eq)]
pub struct RestoreWrite {
    /// Both databases are written, not only that of sessions.
    pub both: bool,
    /// The global state is written too.
    pub global_state: bool,
    pub step: RestoreStep,
    /// What went wrong, and what went wrong when it was taken back.
    pub error: Option<String>,
    pub database_error: Option<String>,
    pub projection_error: Option<String>,
    pub global_error: Option<String>,
}

/// What a `RestoreWrite` stands for.
#[verifier::ext_equal]
pub struct RestoreWriteView {
    pub both: bool,
    pub global_state: bool,
    pub step: RestoreStep,
    pub error: Option<Seq<char>>,
    pub database_error: Option<Seq<char>>,
    pub projection_error: Option<Seq<char>>,
    pub global_error: Option<Seq<char>>,
}

impl DeepView for RestoreWrite {
    type V = RestoreWriteView;

    open spec fn deep_view(&self) -> RestoreWriteView {
        RestoreWriteView {
            both: self.both.deep_view(),
            global_state: self.global_state.deep_view(),
            step: self.step.deep_view(),
            error: self.error.deep_view(),
            database_error: self.database_error.deep_view(),
            projection_error: self.projection_error.deep_view(),
            global_error: self.global_error.deep_view(),
        }
    }
}

impl Model for RestoreWrite {
    fn copy_of(&self) -> (r: Self) {
        RestoreWrite {
            both: self.both.copy_of(),
            global_state: self.global_state.copy_of(),
            step: self.step.copy_of(),
            error: self.error.copy_of(),
            database_error: self.database_error.copy_of(),
            projection_error: self.projection_error.copy_of(),
            global_error: self.global_error.copy_of(),
        }
    }

    fn same_as(&self, other: &Self) -> (r: bool) {
        self.both.same_as(&other.both)
            && self.global_state.same_as(&other.global_state)
            && self.step.same_as(&other.step)
            && self.error.same_as(&other.error)
            && self.database_error.same_as(&other.database_error)
            && self.projection_error.same_as(&other.projection_error)
            && self.global_error.same_as(&other.global_error)
    }
}

/// How far a restore has come.
#[derive(Clone, Copy, Debug, PartialEq, Eq, Structural)]
pub enum RestoreStage {
    /// The pending operation is being read.
    Pending,
    /// The owners are being listed, and listed again.
    Owners,
    OwnersAgain,
    /// An interrupted repair is being undone.
    Rollback,
    /// An interrupted restore is being taken back.
    Resume,
    ResumeClear,
    /// The backup is chosen, and what is there now is backed up.
    Safety,
    SafetyOwners,
    Discard,
    /// The operation is being noted as pending.
    Note,
    Restore,
    RestoreClear,
    CleanUp,
    /// What was there before is being put back.
    Recover,
    RecoverClear,
    Done,
}

impl DeepView for RestoreStage {
    type V = RestoreStage;

    open spec fn deep_view(&self) -> RestoreStage {
        *self
    }
}

impl Model for RestoreStage {
    fn copy_of(&self) -> (r: Self) {
        *self
    }

    fn same_as(&self, other: &Self) -> (r: bool) {
        *self == *other
    }
}

/// A restore.
#[derive(Clone, Debug, PartialEq, Eq)]
pub struct RestoreState {
    /// A certain backup was asked for.
    pub requested: bool,
    pub stage: RestoreStage,
    /// The operation that was found pending.
    pub command: String,
    pub backup_path: String,
    pub resumes: bool,
    /// Why the restore failed.
    pub error: Option<String>,
}

/// What a `RestoreState` stands for.
#[verifier::ext_equal]
pub struct RestoreStateView {
    pub requested: bool,
    pub stage: RestoreStage,
    pub command: Seq<char>,
    pub backup_path: Seq<char>,
    pub resumes: bool,
    pub error: Option<Seq<char>>,
}

impl DeepView for RestoreState {
    type V = RestoreStateView;

    open spec fn deep_view(&self) -> RestoreStateView {
        RestoreStateView {
            requested: self.requested.deep_view(),
            stage: self.stage.deep_view(),
            command: self.command.deep_view(),
            backup_path: self.backup_path.deep_view(),
            resumes: self.resumes.deep_view(),
            error: self.error.deep_view(),
        }
    }
}

impl Model for RestoreState {
    fn copy_of(&self) -> (r: Self) {
        RestoreState {
            requested: self.requested.copy_of(),
            stage: self.stage.copy_of(),
            command: self.command.copy_of(),
            backup_path: self.backup_path.copy_of(),
            resumes: self.resumes.copy_of(),
            error: self.error.copy_of(),
        }
    }

    fn same_as(&self, other: &Self) -> (r: bool) {
        self.requested.same_as(&other.requested)
            && self.stage.same_as(&other.stage)
            && self.command.same_as(&other.command)
            && self.backup_path.same_as(&other.backup_path)
            && self.resumes.same_as(&other.resumes)
            && self.error.same_as(&other.error)
    }
}

/// What happened during a restore.
#[derive(Debug, PartialEq, Eq)]
pub enum RestoreEvent {
    /// It failed: why.
    Failed(String),
    Succeeded,
    Pending(Option<PendingOperation>),
    /// The names of the processes that hold the databases open.
    Owners(Vec<String>),
    /// How an interrupted repair was settled.
    RolledBack(PendingRepairResolution),
}

/// What a `RestoreEvent` stands for.
#[verifier::ext_equal]
pub enum RestoreEventView {
    Failed(Seq<char>),
    Succeeded,
    Pending(Option<PendingOperationView>),
    Owners(Seq<Seq<char>>),
    RolledBack(PendingRepairResolution),
}

impl DeepView for RestoreEvent {
    type V = RestoreEventView;

    open spec fn deep_view(&self) -> RestoreEventView {
        match self {
            RestoreEvent::Failed(value) => RestoreEventView::Failed(value.deep_view()),
            RestoreEvent::Succeeded => RestoreEventView::Succeeded,
            RestoreEvent::Pending(value) => RestoreEventView::Pending(value.deep_view()),
            RestoreEvent::Owners(value) => RestoreEventView::Owners(value.deep_view()),
            RestoreEvent::RolledBack(value) => RestoreEventView::RolledBack(value.deep_view()),
        }
    }
}

impl Model for RestoreEvent {
    fn copy_of(&self) -> (r: Self) {
        match self {
            RestoreEvent::Failed(value) => RestoreEvent::Failed(value.copy_of()),
            RestoreEvent::Succeeded => RestoreEvent::Succeeded,
            RestoreEvent::Pending(value) => RestoreEvent::Pending(value.copy_of()),
            RestoreEvent::Owners(value) => RestoreEvent::Owners(value.copy_of()),
            RestoreEvent::RolledBack(value) => RestoreEvent::RolledBack(value.copy_of()),
        }
    }

    fn same_as(&self, other: &Self) -> (r: bool) {
        match (self, other) {
            (RestoreEvent::Failed(value_l), RestoreEvent::Failed(value_r)) => value_l.same_as(value_r),
            (RestoreEvent::Succeeded, RestoreEvent::Succeeded) => true,
            (RestoreEvent::Pending(value_l), RestoreEvent::Pending(value_r)) => value_l.same_as(value_r),
            (RestoreEvent::Owners(value_l), RestoreEvent::Owners(value_r)) => value_l.same_as(value_r),
            (RestoreEvent::RolledBack(value_l), RestoreEvent::RolledBack(value_r)) => value_l.same_as(value_r),
            _ => false,
        }
    }
}

/// What is to be done for a restore.
#[derive(Clone, Debug, PartialEq, Eq)]
pub enum RestoreAction {
    ReadPending,
    ListOwners,
    RollBackRepair,
    /// Write the backup at the path back.
    RestoreFrom(String),
    /// Choose the backup, clean up, and back up what is there now.
    MakeSafety,
    DiscardSafety,
    /// Note the restore as pending.
    NotePending,
    RestoreTarget,
    RestoreSafety,
    ClearPending,
    CleanUp,
    Report(VerifyResult),
    Refuse(String),
}

/// What a `RestoreAction` stands for.
#[verifier::ext_equal]
pub enum RestoreActionView {
    ReadPending,
    ListOwners,
    RollBackRepair,
    RestoreFrom(Seq<char>),
    MakeSafety,
    DiscardSafety,
    NotePending,
    RestoreTarget,
    RestoreSafety,
    ClearPending,
    CleanUp,
    Report(VerifyResultView),
    Refuse(Seq<char>),
}

impl DeepView for RestoreAction {
    type V = RestoreActionView;

    open spec fn deep_view(&self) -> RestoreActionView {
        match self {
            RestoreAction::ReadPending => RestoreActionView::ReadPending,
            RestoreAction::ListOwners => RestoreActionView::ListOwners,
            RestoreAction::RollBackRepair => RestoreActionView::RollBackRepair,
            RestoreAction::RestoreFrom(value) => RestoreActionView::RestoreFrom(value.deep_view()),
            RestoreAction::MakeSafety => RestoreActionView::MakeSafety,
            RestoreAction::DiscardSafety => RestoreActionView::DiscardSafety,
            RestoreAction::NotePending => RestoreActionView::NotePending,
            RestoreAction::RestoreTarget => RestoreActionView::RestoreTarget,
            RestoreAction::RestoreSafety => RestoreActionView::RestoreSafety,
            RestoreAction::ClearPending => RestoreActionView::ClearPending,
            RestoreAction::CleanUp => RestoreActionView::CleanUp,
            RestoreAction::Report(value) => RestoreActionView::Report(value.deep_view()),
            RestoreAction::Refuse(value) => RestoreActionView::Refuse(value.deep_view()),
        }
    }
}

impl Model for RestoreAction {
    fn copy_of(&self) -> (r: Self) {
        match self {
            RestoreAction::ReadPending => RestoreAction::ReadPending,
            RestoreAction::ListOwners => RestoreAction::ListOwners,
            RestoreAction::RollBackRepair => RestoreAction::RollBackRepair,
            RestoreAction::RestoreFrom(value) => RestoreAction::RestoreFrom(value.copy_of()),
            RestoreAction::MakeSafety => RestoreAction::MakeSafety,
            RestoreAction::DiscardSafety => RestoreAction::DiscardSafety,
            RestoreAction::NotePending => RestoreAction::NotePending,
            RestoreAction::RestoreTarget => RestoreAction::RestoreTarget,
            RestoreAction::RestoreSafety => RestoreAction::RestoreSafety,
            RestoreAction::ClearPending => RestoreAction::ClearPending,
            RestoreAction::CleanUp => RestoreAction::CleanUp,
            RestoreAction::Report(value) => RestoreAction::Report(value.copy_of()),
            RestoreAction::Refuse(value) => RestoreAction::Refuse(value.copy_of()),
        }
    }

    fn same_as(&self, other: &Self) -> (r: bool) {
        match (self, other) {
            (RestoreAction::ReadPending, RestoreAction::ReadPending) => true,
            (RestoreAction::ListOwners, RestoreAction::ListOwners) => true,
            (RestoreAction::RollBackRepair, RestoreAction::RollBackRepair) => true,
            (RestoreAction::RestoreFrom(value_l), RestoreAction::RestoreFrom(value_r)) => value_l.same_as(value_r),
            (RestoreAction::MakeSafety, RestoreAction::MakeSafety) => true,
            (RestoreAction::DiscardSafety, RestoreAction::DiscardSafety) => true,
            (RestoreAction::NotePending, RestoreAction::NotePending) => true,
            (RestoreAction::RestoreTarget, RestoreAction::RestoreTarget) => true,
            (RestoreAction::RestoreSafety, RestoreAction::RestoreSafety) => true,
            (RestoreAction::ClearPending, RestoreAction::ClearPending) => true,
            (RestoreAction::CleanUp, RestoreAction::CleanUp) => true,
            (RestoreAction::Report(value_l), RestoreAction::Report(value_r)) => value_l.same_as(value_r),
            (RestoreAction::Refuse(value_l), RestoreAction::Refuse(value_r)) => value_l.same_as(value_r),
            _ => false,
        }
    }
}

/// An earlier row has the same path or the same thread.
pub open spec fn repeats(rows: Seq<RepairRolloutJournalView>, i: int) -> bool {
    exists|j: int|
        0 <= j < i && ((#[trigger] rows[j]).path == rows[i].path || rows[j].thread_id
            == rows[i].thread_id)
}

/// A row can be put back as far as it tells itself.
pub open spec fn row_valid(row: RepairRolloutJournalView) -> bool {
    text::trimmed(row.thread_id).len() > 0 && backups::safe_slot(row.before_provider)
        && backups::safe_slot(row.after_provider) && row.before_provider != row.after_provider
}

/// Why a rollout keeps a backup from being restored.
pub open spec fn preimage_fault(
    rows: Seq<RepairRolloutJournalView>,
    i: int,
    found: Map<Seq<char>, RolloutAtView>,
) -> Option<Seq<char>> {
    let row = rows[i];
    if !row_valid(row) {
        Some("invalid rollout provider preimage: "@ + row.thread_id)
    } else if repeats(rows, i) {
        Some("duplicate rollout provider preimage: "@ + row.thread_id)
    } else {
        match found[row.path].slot {
            SlotReadView::Refused(error) => Some(error),
            SlotReadView::Provider(provider) => if backups::safe_slot(provider) {
                None
            } else {
                Some(
                    "unsafe current rollout provider for "@ + row.thread_id + ": "@
                        + journal::shown_slot(provider),
                )
            },
        }
    }
}

/// Why some rollout from position `i` on keeps a backup from being restored.
pub open spec fn first_preimage_fault(
    rows: Seq<RepairRolloutJournalView>,
    i: nat,
    found: Map<Seq<char>, RolloutAtView>,
) -> Option<Seq<char>>
    decreases rows.len() - i,
{
    if i >= rows.len() {
        None
    } else {
        match preimage_fault(rows, i as int, found) {
            Some(fault) => Some(fault),
            None => first_preimage_fault(rows, i + 1, found),
        }
    }
}

/// A rollout with the provider that it has.
pub open spec fn image_at(row: RepairRolloutJournalView, found: RolloutAtView) ->
    RestoreRolloutImageView {
    RestoreRolloutImageView {
        row,
        path: found.path,
        entry_provider: found.slot->Provider_0,
    }
}

/// The rollouts that a restore puts back, with the providers that they have, or why it cannot.
pub open spec fn restore_images(
    manifest: BackupManifestView,
    found: Map<Seq<char>, RolloutAtView>,
) -> Result<Seq<RestoreRolloutImageView>, Seq<char>> {
    let rows = journal::rows_by_path(manifest.rollout_provider_preimages);
    if !backups::known_version(manifest.version) {
        Err(backups::version_message(manifest.version))
    } else if manifest.version == 4 {
        if manifest.rollout_provider_preimages.len() > 0 {
            Err("v4 backup cannot contain rollout provider preimages"@)
        } else {
            Ok(Seq::empty())
        }
    } else {
        match first_preimage_fault(rows, 0, found) {
            Some(fault) => Err(fault),
            None => Ok(
                rows.map_values(|row: RepairRolloutJournalView| image_at(row, found[row.path])),
            ),
        }
    }
}

/// Every rollout of a backup was looked for.
pub open spec fn all_found(
    rows: Seq<RepairRolloutJournalView>,
    found: Map<Seq<char>, RolloutAtView>,
) -> bool {
    forall|i: int| 0 <= i < rows.len() ==> found.dom().contains((#[trigger] rows[i]).path)
}

fn is_row_valid(row: &RepairRolloutJournal) -> (r: bool)
    ensures
        r == row_valid(row.deep_view()),
{
    let before_safe = match &row.before_provider {
        Some(id) => provider_id_is_safe(id.as_str()),
        None => true,
    };
    let after_safe = match &row.after_provider {
        Some(id) => provider_id_is_safe(id.as_str()),
        None => true,
    };
    !is_blank(row.thread_id.as_str()) && before_safe && after_safe && !row.before_provider.same_as(
        &row.after_provider,
    )
}

fn is_repeated(rows: &Vec<RepairRolloutJournal>, i: usize) -> (r: bool)
    requires
        i < rows@.len(),
    ensures
        r == repeats(rows.deep_view(), i as int),
{
    let ghost view = rows.deep_view();
    assert(view[i as int] == rows@[i as int].deep_view());
    let mut j: usize = 0;
    while j < i
        invariant
            j <= i < rows@.len(),
            view == rows.deep_view(),
            view[i as int] == rows@[i as int].deep_view(),
            forall|k: int|
                0 <= k < j ==> !((#[trigger] view[k]).path == view[i as int].path
                    || view[k].thread_id == view[i as int].thread_id),
        decreases i - j,
    {
        assert(view[j as int] == rows@[j as int].deep_view());
        if rows[j].path.same_as(&rows[i].path) || rows[j].thread_id.same_as(&rows[i].thread_id) {
            return true;
        }
        j += 1;
    }
    false
}

proof fn lemma_sorted_rows_found(
    rows: Seq<RepairRolloutJournalView>,
    found: Map<Seq<char>, RolloutAtView>,
)
    requires
        all_found(rows, found),
    ensures
        all_found(journal::rows_by_path(rows), found),
{
    let pairs = rows.map_values(|row: RepairRolloutJournalView| (row.path, row));
    let sorted = crate::ordered::sorted_pairs::<String, RepairRolloutJournalView>(pairs);
    crate::ordered::lemma_sorted_pairs::<String, RepairRolloutJournalView>(pairs);
    let out = journal::rows_by_path(rows);
    assert forall|i: int| 0 <= i < out.len() implies found.dom().contains(
        (#[trigger] out[i]).path,
    ) by {
        assert(out[i] == sorted[i].1);
        assert(pairs.contains(sorted[i]));
        let j = choose|j: int| 0 <= j < pairs.len() && pairs[j] == sorted[i];
        assert(rows[j] == sorted[i].1);
    }
}

fn capture_rows(rows: &Vec<RepairRolloutJournal>, found: &OrderedMap<String, RolloutAt>) -> (r:
    Result<Vec<RestoreRolloutImage>, String>)
    requires
        all_found(rows.deep_view(), found.deep_view()),
    ensures
        match first_preimage_fault(rows.deep_view(), 0, found.deep_view()) {
            Some(fault) => r is Err && r->Err_0@ == fault,
            None => r is Ok && r->Ok_0.deep_view() == rows.deep_view().map_values(
                |row: RepairRolloutJournalView| image_at(row, found.deep_view()[row.path]),
            ),
        },
{
    let ghost view = rows.deep_view();
    let ghost known = found.deep_view();
    let mut images: Vec<RestoreRolloutImage> = Vec::new();
    let mut i: usize = 0;
    while i < rows.len()
        invariant
            i <= rows@.len(),
            view == rows.deep_view(),
            known == found.deep_view(),
            all_found(view, known),
            first_preimage_fault(view, i as nat, known) == first_preimage_fault(view, 0, known),
            images@.len() == i,
            forall|j: int|
                0 <= j < i ==> #[trigger] images@[j].deep_view() == image_at(
                    view[j],
                    known[view[j].path],
                ),
        decreases rows@.len() - i,
    {
        let row = &rows[i];
        assert(view[i as int] == row.deep_view());
        if !is_row_valid(row) {
            return Err(join2("invalid rollout provider preimage: ", row.thread_id.as_str()));
        }
        if is_repeated(rows, i) {
            return Err(join2("duplicate rollout provider preimage: ", row.thread_id.as_str()));
        }
        match found.get(&row.path) {
            None => {
                assert(known.dom().contains(view[i as int].path));
            },
            Some(at) => {
                match &at.slot {
                    SlotRead::Refused(error) => {
                        return Err(error.copy_of());
                    },
                    SlotRead::Provider(provider) => {
                        let safe = match provider {
                            Some(id) => provider_id_is_safe(id.as_str()),
                            None => true,
                        };
                        if !safe {
                            let slot = show_slot(provider);
                            return Err(
                                join4(
                                    "unsafe current rollout provider for ",
                                    row.thread_id.as_str(),
                                    ": ",
                                    slot.as_str(),
                                ),
                            );
                        }
                        images.push(
                            RestoreRolloutImage {
                                row: row.copy_of(),
                                path: at.path.copy_of(),
                                entry_provider: provider.copy_of(),
                            },
                        );
                    },
                }
            },
        }
        i += 1;
    }
    assert(images.deep_view() =~= view.map_values(
        |row: RepairRolloutJournalView| image_at(row, known[row.path]),
    ));
    Ok(images)
}

/// The rollouts that a restore puts back, with the providers that they have, or why it cannot:
/// `found` is what was found of each by its path in the backup.
pub fn capture_restore_rollout_images(
    manifest: &BackupManifest,
    found: &OrderedMap<String, RolloutAt>,
) -> (r: Result<Vec<RestoreRolloutImage>, String>)
    requires
        all_found(manifest.deep_view().rollout_provider_preimages, found.deep_view()),
    ensures
        model::outcome(r) == restore_images(manifest.deep_view(), found.deep_view()),
{
    match backups::validate_backup_manifest_version(manifest) {
        Err(error) => {
            return Err(error);
        },
        Ok(()) => {},
    }
    if manifest.version == 4 {
        if manifest.rollout_provider_preimages.len() > 0 {
            return Err("v4 backup cannot contain rollout provider preimages".to_owned());
        }
        let none: Vec<RestoreRolloutImage> = Vec::new();
        assert(none.deep_view() =~= Seq::empty());
        return Ok(none);
    }
    proof {
        lemma_sorted_rows_found(
            manifest.deep_view().rollout_provider_preimages,
            found.deep_view(),
        );
    }
    let rows = sort_rollout_rows(&manifest.rollout_provider_preimages);
    capture_rows(&rows, found)
}

/// The writes of a restore as rollout updates, so that a backup can be made of what they change.
pub open spec fn safety_updates(images: Seq<RestoreRolloutImageView>) -> Seq<RolloutUpdateView> {
    images.map_values(
        |image: RestoreRolloutImageView|
            RolloutUpdateView {
                thread_id: image.row.thread_id,
                path: image.path,
                archived: image.row.archived,
                expected_provider: image.entry_provider,
                provider: image.row.before_provider,
            },
    )
}

/// The writes of a restore as rollout updates.
pub fn safety_rollout_updates_for_restore(images: &Vec<RestoreRolloutImage>) -> (r: Vec<
    RolloutUpdate,
>)
    ensures
        r.deep_view() == safety_updates(images.deep_view()),
{
    let ghost view = images.deep_view();
    let mut out: Vec<RolloutUpdate> = Vec::new();
    let mut i: usize = 0;
    while i < images.len()
        invariant
            i <= images@.len(),
            view == images.deep_view(),
            out@.len() == i,
            forall|j: int| 0 <= j < i ==> #[trigger] out@[j].deep_view() == safety_updates(view)[j],
        decreases images@.len() - i,
    {
        let image = &images[i];
        assert(view[i as int] == image.deep_view());
        out.push(
            RolloutUpdate {
                thread_id: image.row.thread_id.copy_of(),
                path: image.path.copy_of(),
                archived: image.row.archived,
                expected_provider: image.entry_provider.copy_of(),
                provider: image.row.before_provider.copy_of(),
            },
        );
        i += 1;
    }
    assert(out.deep_view() =~= safety_updates(view));
    out
}

/// What becomes of a rollout when a restore is taken back.
pub open spec fn image_recovery(
    image: RestoreRolloutImageView,
    current: SlotReadView,
) -> ImageRecoveryView {
    match current {
        SlotReadView::Refused(error) => ImageRecoveryView::Fault(
            image.row.thread_id + ": "@ + error,
        ),
        SlotReadView::Provider(provider) => if provider == image.entry_provider {
            ImageRecoveryView::Unchanged
        } else if provider != image.row.before_provider {
            ImageRecoveryView::Fault(
                image.row.thread_id + " changed during restore recovery (entry: "@
                    + journal::shown_slot(image.entry_provider) + ", restore: "@
                    + journal::shown_slot(image.row.before_provider) + ", current: "@
                    + journal::shown_slot(provider) + ")"@,
            )
        } else {
            ImageRecoveryView::PutBack
        },
    }
}

/// What becomes of a rollout when a restore is taken back: it is put back only where it reads as
/// the restore wrote it.
pub fn recover_restore_rollout_image(image: &RestoreRolloutImage, current: &SlotRead) -> (r:
    ImageRecovery)
    ensures
        r.deep_view() == image_recovery(image.deep_view(), current.deep_view()),
{
    match current {
        SlotRead::Refused(error) => ImageRecovery::Fault(
            join3(image.row.thread_id.as_str(), ": ", error.as_str()),
        ),
        SlotRead::Provider(provider) => {
            if provider.same_as(&image.entry_provider) {
                return ImageRecovery::Unchanged;
            }
            if provider.same_as(&image.row.before_provider) {
                return ImageRecovery::PutBack;
            }
            let entry = show_slot(&image.entry_provider);
            let restored = show_slot(&image.row.before_provider);
            let now = show_slot(provider);
            let front = join5(
                image.row.thread_id.as_str(),
                " changed during restore recovery (entry: ",
                entry.as_str(),
                ", restore: ",
                restored.as_str(),
            );
            ImageRecovery::Fault(join4(front.as_str(), ", current: ", now.as_str(), ")"))
        },
    }
}

/// What went wrong when rollouts were put back, if anything.
pub open spec fn recovery_fault(errors: Seq<Seq<char>>) -> Option<Seq<char>> {
    if errors.len() == 0 {
        None
    } else {
        Some(recovery::joined(errors, "; "@))
    }
}

/// What went wrong when rollouts were put back, if anything.
pub fn recover_restore_rollout_images(errors: &Vec<String>) -> (r: Option<String>)
    ensures
        r.deep_view() == recovery_fault(errors.deep_view()),
{
    if errors.len() == 0 {
        None
    } else {
        Some(join_all(errors, "; "))
    }
}

/// The files that a manifest backs up, in their order.
pub open spec fn backed_up(files: Seq<ManifestFileView>) -> Seq<ManifestFileView>
    decreases files.len(),
{
    if files.len() == 0 {
        Seq::empty()
    } else {
        let rest = backed_up(files.drop_last());
        if files.last().backed_up {
            rest.push(files.last())
        } else {
            rest
        }
    }
}

/// The files that a manifest backs up, in their order.
pub fn select_backed_up(files: &Vec<ManifestFile>) -> (r: Vec<ManifestFile>)
    ensures
        r.deep_view() == backed_up(files.deep_view()),
{
    let ghost view = files.deep_view();
    let mut out: Vec<ManifestFile> = Vec::new();
    let mut i: usize = 0;
    assert(out.deep_view() =~= backed_up(view.take(0)));
    while i < files.len()
        invariant
            i <= files@.len(),
            view == files.deep_view(),
            out.deep_view() == backed_up(view.take(i as int)),
        decreases files@.len() - i,
    {
        let ghost before = out.deep_view();
        assert(view[i as int] == files@[i as int].deep_view());
        assert(view.take(i + 1).drop_last() =~= view.take(i as int));
        if files[i].backed_up {
            out.push(files[i].copy_of());
            assert(out.deep_view() =~= before.push(view[i as int]));
        }
        i += 1;
    }
    assert(view.take(i as int) =~= view);
    out
}

/// The digest that the first file with a path has in a list.
pub open spec fn listed_digest(files: Seq<ManifestFileView>, path: Seq<char>) -> Option<Seq<char>>
    decreases files.len(),
{
    if files.len() == 0 {
        None
    } else if files[0].path == path {
        files[0].sha256
    } else {
        listed_digest(files.drop_first(), path)
    }
}

fn find_listed_digest(files: &Vec<ManifestFile>, path: &str) -> (r: Option<String>)
    ensures
        r.deep_view() == listed_digest(files.deep_view(), path@),
{
    let ghost view = files.deep_view();
    let mut i: usize = 0;
    assert(view.skip(0) =~= view);
    while i < files.len()
        invariant
            i <= files@.len(),
            view == files.deep_view(),
            listed_digest(view, path@) == listed_digest(view.skip(i as int), path@),
        decreases files@.len() - i,
    {
        assert(view.skip(i as int)[0] == files@[i as int].deep_view());
        assert(view.skip(i as int).drop_first() =~= view.skip(i + 1));
        if same(files[i].path.as_str(), path) {
            return files[i].sha256.copy_of();
        }
        i += 1;
    }
    None
}

/// What is wrong with the global state after a restore, given what was read of it.
pub open spec fn restored_global_fault(
    files: Seq<ManifestFileView>,
    found: Result<Seq<u8>, Seq<char>>,
) -> Option<Seq<char>> {
    match listed_digest(files, ".codex-global-state.json"@) {
        None => Some("global state checksum is missing"@),
        Some(expected) => match found {
            Err(error) => Some(error),
            Ok(bytes) => match json::json_error_text(bytes) {
                Some(error) => Some("invalid global state JSON: "@ + error),
                None => if digest::sha256_hex(bytes) != expected {
                    Some("global state restore verification failed"@)
                } else {
                    None
                },
            },
        },
    }
}

/// Holds the global state after a restore to the digest that the manifest gives; says what is
/// wrong, if anything is.
pub fn check_restored_global(files: &Vec<ManifestFile>, found: &Result<Vec<u8>, String>) -> (r:
    Option<String>)
    ensures
        r.deep_view() == restored_global_fault(
            files.deep_view(),
            match *found {
                Ok(bytes) => Ok(bytes@),
                Err(error) => Err(error@),
            },
        ),
{
    match find_listed_digest(files, ".codex-global-state.json") {
        None => Some("global state checksum is missing".to_owned()),
        Some(expected) => match found {
            Err(error) => Some(error.copy_of()),
            Ok(bytes) => {
                let fault = acquire_global_state(bytes.as_slice(), &None);
                if fault.is_some() {
                    return fault;
                }
                let digest = hash_contents(bytes.as_slice());
                if same(digest.as_str(), expected.as_str()) {
                    None
                } else {
                    Some("global state restore verification failed".to_owned())
                }
            },
        },
    }
}

/// Why a backup of the current version cannot be restored.
pub open spec fn state_restore_fault(
    manifest: BackupManifestView,
    found: StateRestoreView,
) -> Option<Seq<char>> {
    let files = backed_up(manifest.files);
    match found.target {
        RestoreFileView::Missing(error) => Some(
            "restore target unavailable ("@ + found.target_path + "): "@ + error,
        ),
        RestoreFileView::Symlink | RestoreFileView::NotRegular => Some(
            "unsafe state restore target: "@ + found.target_path,
        ),
        RestoreFileView::Regular => if found.locked is Some {
            found.locked
        } else if files.len() != 1 || files[0].path != "state_5.sqlite"@ {
            Some("v6 backup manifest must contain only the official state database"@)
        } else {
            match found.backup {
                RestoreFileView::Missing(error) => Some(
                    "backup file missing ("@ + found.backup_path + "): "@ + error,
                ),
                RestoreFileView::Symlink | RestoreFileView::NotRegular => Some(
                    "unsafe state backup: "@ + found.backup_path,
                ),
                RestoreFileView::Regular => if files[0].sha256 is None {
                    Some("state backup checksum is missing"@)
                } else if found.sha256 != files[0].sha256 {
                    Some("state backup checksum mismatch"@)
                } else {
                    found.schema
                },
            }
        },
    }
}

/// Why a backup of the current version cannot be restored, if it cannot.
pub fn restore_backup_v6(manifest: &BackupManifest, found: &StateRestore) -> (r: Option<String>)
    ensures
        r.deep_view() == state_restore_fault(manifest.deep_view(), found.deep_view()),
{
    match &found.target {
        RestoreFile::Missing(error) => {
            return Some(
                join4(
                    "restore target unavailable (",
                    found.target_path.as_str(),
                    "): ",
                    error.as_str(),
                ),
            );
        },
        RestoreFile::Symlink | RestoreFile::NotRegular => {
            return Some(join2("unsafe state restore target: ", found.target_path.as_str()));
        },
        RestoreFile::Regular => {},
    }
    if found.locked.is_some() {
        return found.locked.copy_of();
    }
    let files = select_backed_up(&manifest.files);
    let ghost view = files.deep_view();
    if files.len() != 1 {
        return Some(
            "v6 backup manifest must contain only the official state database".to_owned(),
        );
    }
    assert(view[0] == files@[0].deep_view());
    if !same(files[0].path.as_str(), "state_5.sqlite") {
        return Some(
            "v6 backup manifest must contain only the official state database".to_owned(),
        );
    }
    match &found.backup {
        RestoreFile::Missing(error) => Some(
            join4("backup file missing (", found.backup_path.as_str(), "): ", error.as_str()),
        ),
        RestoreFile::Symlink | RestoreFile::NotRegular => Some(
            join2("unsafe state backup: ", found.backup_path.as_str()),
        ),
        RestoreFile::Regular => {
            if files[0].sha256.is_none() {
                return Some("state backup checksum is missing".to_owned());
            }
            if !found.sha256.same_as(&files[0].sha256) {
                return Some("state backup checksum mismatch".to_owned());
            }
            found.schema.copy_of()
        },
    }
}

/// Why a file of an older backup cannot be restored.
pub open spec fn legacy_file_fault(
    file: ManifestFileView,
    found: LegacyFileView,
) -> Option<Seq<char>> {
    match found.found {
        RestoreFileView::Missing(_) | RestoreFileView::NotRegular => Some(
            "backup file missing: "@ + found.shown,
        ),
        RestoreFileView::Symlink => Some("backup file is a symlink: "@ + found.shown),
        RestoreFileView::Regular => match file.sha256 {
            None => Some("backup checksum missing: "@ + found.shown),
            Some(expected) => match found.sha256 {
                None => Some("cannot hash backup file: "@ + found.shown),
                Some(actual) => if expected != actual {
                    Some("backup checksum mismatch: "@ + found.shown)
                } else {
                    found.fault
                },
            },
        },
    }
}

fn find_legacy_file_fault(file: &ManifestFile, found: &LegacyFile) -> (r: Option<String>)
    ensures
        r.deep_view() == legacy_file_fault(file.deep_view(), found.deep_view()),
{
    let shown = found.shown.as_str();
    match &found.found {
        RestoreFile::Missing(_) | RestoreFile::NotRegular => Some(
            join2("backup file missing: ", shown),
        ),
        RestoreFile::Symlink => Some(join2("backup file is a symlink: ", shown)),
        RestoreFile::Regular => {
            match &file.sha256 {
                None => Some(join2("backup checksum missing: ", shown)),
                Some(expected) => {
                    match &found.sha256 {
                        None => Some(join2("cannot hash backup file: ", shown)),
                        Some(actual) => {
                            if !expected.same_as(actual) {
                                Some(join2("backup checksum mismatch: ", shown))
                            } else {
                                found.fault.copy_of()
                            }
                        },
                    }
                },
            }
        },
    }
}

/// Why some file from position `i` on cannot be restored.
pub open spec fn first_legacy_fault(
    files: Seq<ManifestFileView>,
    found: Seq<LegacyFileView>,
    i: nat,
) -> Option<Seq<char>>
    decreases files.len() - i,
{
    if i >= files.len() {
        None
    } else {
        match legacy_file_fault(files[i as int], found[i as int]) {
            Some(fault) => Some(fault),
            None => first_legacy_fault(files, found, i + 1),
        }
    }
}

/// An older backup backs up the three files that a repair wrote, each once.
pub open spec fn complete_write_set(files: Seq<ManifestFileView>) -> bool {
    backed_up(files).len() == 3 && backups::backed_up_paths(files) == backups::expected_paths(5)
}

/// Why an older backup cannot be restored.
pub open spec fn legacy_restore_fault(
    manifest: BackupManifestView,
    found: Seq<LegacyFileView>,
    schema: Option<Seq<char>>,
) -> Option<Seq<char>> {
    if !complete_write_set(manifest.files) {
        Some("backup manifest does not contain the complete repair write set"@)
    } else {
        match first_legacy_fault(backed_up(manifest.files), found, 0) {
            Some(fault) => Some(fault),
            None => schema,
        }
    }
}

/// Why an older backup cannot be restored, if it cannot; `found` is what was found of the files
/// that it backs up, `schema` what is wrong with the tables of its databases.
pub fn check_legacy_restore(
    manifest: &BackupManifest,
    found: &Vec<LegacyFile>,
    schema: &Option<String>,
) -> (r: Option<String>)
    requires
        found@.len() == backed_up(manifest.deep_view().files).len(),
    ensures
        r.deep_view() == legacy_restore_fault(
            manifest.deep_view(),
            found.deep_view(),
            schema.deep_view(),
        ),
{
    let files = select_backed_up(&manifest.files);
    if files.len() != 3 || !backups::backs_up_expected(&manifest.files, 5) {
        return Some(
            "backup manifest does not contain the complete repair write set".to_owned(),
        );
    }
    let ghost wanted = files.deep_view();
    let ghost seen = found.deep_view();
    let mut i: usize = 0;
    while i < files.len()
        invariant
            i <= files@.len() == found@.len(),
            wanted == files.deep_view(),
            wanted == backed_up(manifest.deep_view().files),
            seen == found.deep_view(),
            complete_write_set(manifest.deep_view().files),
            first_legacy_fault(wanted, seen, i as nat) == first_legacy_fault(wanted, seen, 0),
        decreases files@.len() - i,
    {
        assert(wanted[i as int] == files@[i as int].deep_view());
        assert(seen[i as int] == found@[i as int].deep_view());
        let fault = find_legacy_file_fault(&files[i], &found[i]);
        if fault.is_some() {
            return fault;
        }
        i += 1;
    }
    schema.copy_of()
}

/// Writing a backup back starts with opening the databases.
pub open spec fn write_started(both: bool, global_state: bool) -> RestoreWriteView {
    RestoreWriteView {
        both,
        global_state,
        step: RestoreStep::Acquire,
        error: None,
        database_error: None,
        projection_error: None,
        global_error: None,
    }
}

/// A message, or the word for none.
pub open spec fn or_ok(error: Option<Seq<char>>) -> Seq<char> {
    match error {
        Some(message) => message,
        None => "ok"@,
    }
}

fn find_or_ok(error: &Option<String>) -> (r: String)
    ensures
        r@ == or_ok(error.deep_view()),
{
    match error {
        Some(message) => message.copy_of(),
        None => "ok".to_owned(),
    }
}

/// The message once a failed restore was taken back, `rollouts` being what went wrong with the
/// rollouts.
pub open spec fn taken_back_message(
    state: RestoreWriteView,
    rollouts: Option<Seq<char>>,
) -> Seq<char> {
    let error = state.error->0;
    if state.database_error is None && state.projection_error is None && state.global_error is None
        && rollouts is None {
        error
    } else if state.both {
        "restore failed: "@ + error + "; database recovery: "@ + or_ok(state.database_error)
            + "; projection recovery: "@ + or_ok(state.projection_error)
            + "; global-state recovery: "@ + or_ok(state.global_error) + "; rollout recovery: "@
            + or_ok(rollouts)
    } else {
        "restore failed: "@ + error + "; state recovery: "@ + or_ok(state.database_error)
            + "; projection recovery: "@ + or_ok(state.projection_error) + "; rollout recovery: "@
            + or_ok(rollouts)
    }
}

/// The step after one that succeeded.
pub open spec fn step_after(state: RestoreWriteView) -> RestoreStep {
    match state.step {
        RestoreStep::Acquire => RestoreStep::KeepCurrent,
        RestoreStep::KeepCurrent => RestoreStep::RestoreDatabases,
        RestoreStep::RestoreDatabases => if state.global_state {
            RestoreStep::RestoreGlobalState
        } else {
            RestoreStep::RestoreRollouts
        },
        RestoreStep::RestoreGlobalState => RestoreStep::RestoreRollouts,
        RestoreStep::RestoreRollouts => RestoreStep::RestoreProjection,
        RestoreStep::RestoreProjection => RestoreStep::Validate,
        RestoreStep::Validate => if state.global_state {
            RestoreStep::VerifyGlobalState
        } else {
            RestoreStep::Finished
        },
        RestoreStep::RecoverDatabases => RestoreStep::RecoverProjection,
        RestoreStep::RecoverProjection => if state.global_state {
            RestoreStep::RecoverGlobalState
        } else {
            RestoreStep::RecoverRollouts
        },
        RestoreStep::RecoverGlobalState => RestoreStep::RecoverRollouts,
        _ => RestoreStep::Finished,
    }
}

/// The step writes what the backup holds.
pub open spec fn writes_backup(step: RestoreStep) -> bool {
    step == RestoreStep::RestoreDatabases || step == RestoreStep::RestoreGlobalState || step
        == RestoreStep::RestoreRollouts || step == RestoreStep::RestoreProjection || step
        == RestoreStep::Validate || step == RestoreStep::VerifyGlobalState
}

/// The state after a step, given what went wrong with it, and the outcome once there is one.
pub open spec fn write_step(state: RestoreWriteView, failure: Option<Seq<char>>) -> (
    RestoreWriteView,
    Option<Option<Seq<char>>>,
) {
    let next = RestoreWriteView { step: step_after(state), ..state };
    match state.step {
        RestoreStep::Acquire | RestoreStep::KeepCurrent => if failure is Some {
            (RestoreWriteView { step: RestoreStep::Finished, error: failure, ..state }, Some(failure))
        } else {
            (next, None)
        },
        RestoreStep::RecoverDatabases => (
            RestoreWriteView { database_error: failure, ..next },
            None,
        ),
        RestoreStep::RecoverProjection => (
            RestoreWriteView { projection_error: failure, ..next },
            None,
        ),
        RestoreStep::RecoverGlobalState => (RestoreWriteView { global_error: failure, ..next }, None),
        RestoreStep::RecoverRollouts => (next, Some(Some(taken_back_message(state, failure)))),
        RestoreStep::Finished => (state, Some(state.error)),
        _ => if failure is Some {
            (
                RestoreWriteView {
                    step: RestoreStep::RecoverDatabases,
                    error: failure,
                    ..state
                },
                None,
            )
        } else if next.step == RestoreStep::Finished {
            (next, Some(None))
        } else {
            (next, None)
        },
    }
}

/// Starts writing a backup back.
pub fn start_restore_write(both: bool, global_state: bool) -> (r: RestoreWrite)
    ensures
        r.deep_view() == write_started(both, global_state),
{
    RestoreWrite {
        both,
        global_state,
        step: RestoreStep::Acquire,
        error: None,
        database_error: None,
        projection_error: None,
        global_error: None,
    }
}

fn find_step_after(state: &RestoreWrite) -> (r: RestoreStep)
    ensures
        r == step_after(state.deep_view()),
{
    match state.step {
        RestoreStep::Acquire => RestoreStep::KeepCurrent,
        RestoreStep::KeepCurrent => RestoreStep::RestoreDatabases,
        RestoreStep::RestoreDatabases => {
            if state.global_state {
                RestoreStep::RestoreGlobalState
            } else {
                RestoreStep::RestoreRollouts
            }
        },
        RestoreStep::RestoreGlobalState => RestoreStep::RestoreRollouts,
        RestoreStep::RestoreRollouts => RestoreStep::RestoreProjection,
        RestoreStep::RestoreProjection => RestoreStep::Validate,
        RestoreStep::Validate => {
            if state.global_state {
                RestoreStep::VerifyGlobalState
            } else {
                RestoreStep::Finished
            }
        },
        RestoreStep::RecoverDatabases => RestoreStep::RecoverProjection,
        RestoreStep::RecoverProjection => {
            if state.global_state {
                RestoreStep::RecoverGlobalState
            } else {
                RestoreStep::RecoverRollouts
            }
        },
        RestoreStep::RecoverGlobalState => RestoreStep::RecoverRollouts,
        _ => RestoreStep::Finished,
    }
}

fn say_taken_back(state: &RestoreWrite, rollouts: &Option<String>) -> (r: String)
    requires
        state.error is Some,
    ensures
        r@ == taken_back_message(state.deep_view(), rollouts.deep_view()),
{
    let error = match &state.error {
        Some(error) => error.copy_of(),
        None => String::new(),
    };
    if state.database_error.is_none() && state.projection_error.is_none()
        && state.global_error.is_none() && rollouts.is_none() {
        return error;
    }
    let database = find_or_ok(&state.database_error);
    let projection = find_or_ok(&state.projection_error);
    let global = find_or_ok(&state.global_error);
    let last = find_or_ok(rollouts);
    if state.both {
        let front = join4(
            "restore failed: ",
            error.as_str(),
            "; database recovery: ",
            database.as_str(),
        );
        let middle = join5(
            front.as_str(),
            "; projection recovery: ",
            projection.as_str(),
            "; global-state recovery: ",
            global.as_str(),
        );
        join3(middle.as_str(), "; rollout recovery: ", last.as_str())
    } else {
        let front = join4(
            "restore failed: ",
            error.as_str(),
            "; state recovery: ",
            database.as_str(),
        );
        join5(
            front.as_str(),
            "; projection recovery: ",
            projection.as_str(),
            "; rollout recovery: ",
            last.as_str(),
        )
    }
}

/// The step has something to take back.
pub open spec fn takes_back(step: RestoreStep) -> bool {
    step == RestoreStep::RecoverDatabases || step == RestoreStep::RecoverProjection || step
        == RestoreStep::RecoverGlobalState || step == RestoreStep::RecoverRollouts
}

/// Goes on writing a backup back, given what went wrong with the last step: the next state, whose
/// step is to be done, and the outcome once there is one. Where a write went wrong, everything that
/// was written is taken back.
pub fn restore_backup_unchecked(state: RestoreWrite, failure: Option<String>) -> (r: (
    RestoreWrite,
    Option<Option<String>>,
))
    requires
        takes_back(state.step) ==> state.error is Some,
    ensures
        (r.0.deep_view(), r.1.deep_view()) == write_step(state.deep_view(), failure.deep_view()),
        takes_back(r.0.step) ==> r.0.error is Some,
{
    let after = find_step_after(&state);
    let mut next = state;
    match next.step {
        RestoreStep::Acquire | RestoreStep::KeepCurrent => {
            if failure.is_some() {
                next.step = RestoreStep::Finished;
                next.error = failure.copy_of();
                return (next, Some(failure));
            }
            next.step = after;
            (next, None)
        },
        RestoreStep::RecoverDatabases => {
            next.step = after;
            next.database_error = failure;
            (next, None)
        },
        RestoreStep::RecoverProjection => {
            next.step = after;
            next.projection_error = failure;
            (next, None)
        },
        RestoreStep::RecoverGlobalState => {
            next.step = after;
            next.global_error = failure;
            (next, None)
        },
        RestoreStep::RecoverRollouts => {
            let message = say_taken_back(&next, &failure);
            next.step = after;
            (next, Some(Some(message)))
        },
        RestoreStep::Finished => {
            let error = next.error.copy_of();
            (next, Some(error))
        },
        _ => {
            if failure.is_some() {
                next.step = RestoreStep::RecoverDatabases;
                next.error = failure;
                return (next, None);
            }
            next.step = after;
            if after == RestoreStep::Finished {
                return (next, Some(None));
            }
            (next, None)
        },
    }
}

/// A write that went wrong is always followed by putting the databases back, and nothing is
/// reported before that.
pub proof fn law_failed_restore_is_taken_back(state: RestoreWriteView, failure: Seq<char>)
    requires
        writes_backup(state.step),
    ensures
        write_step(state, Some(failure)).0.step == RestoreStep::RecoverDatabases,
        write_step(state, Some(failure)).1 is None,
{
}

/// Taking back goes through the databases, the projections, the global state where it was written,
/// and the rollouts, whatever goes wrong on the way, and ends with an error.
pub proof fn law_taking_back_is_complete(
    state: RestoreWriteView,
    first: Option<Seq<char>>,
    second: Option<Seq<char>>,
    third: Option<Seq<char>>,
    fourth: Option<Seq<char>>,
)
    requires
        state.step == RestoreStep::RecoverDatabases,
    ensures
        ({
            let after_databases = write_step(state, first).0;
            let after_projection = write_step(after_databases, second).0;
            let before_rollouts = if state.global_state {
                write_step(after_projection, third).0
            } else {
                after_projection
            };
            &&& after_databases.step == RestoreStep::RecoverProjection
            &&& state.global_state ==> after_projection.step == RestoreStep::RecoverGlobalState
            &&& before_rollouts.step == RestoreStep::RecoverRollouts
            &&& write_step(before_rollouts, fourth).1 matches Some(Some(_))
        }),
{
}

/// A restore succeeds only once every one of its writes did: from the last step, without a failure.
pub proof fn law_restore_succeeds_at_the_end(state: RestoreWriteView, failure: Option<Seq<char>>)
    requires
        write_step(state, failure).1 == Some(None::<Seq<char>>),
        state.step != RestoreStep::Finished,
    ensures
        failure is None,
        state.step == RestoreStep::VerifyGlobalState || (state.step == RestoreStep::Validate
            && !state.global_state),
{
}

/// The result of a restore that succeeded.
pub open spec fn restored_result() -> VerifyResultView {
    VerifyResultView { ok: true, checked: 1, remaining: 0, skipped: 0, reasons: Seq::empty() }
}

/// The result of a restore that succeeded.
pub fn successful_restore_result() -> (r: VerifyResult)
    ensures
        r.deep_view() == restored_result(),
{
    let reasons: Vec<SkipReason> = Vec::new();
    assert(reasons.deep_view() =~= Seq::<SkipReasonView>::empty());
    VerifyResult { ok: true, checked: 1, remaining: 0, skipped: 0, reasons }
}

/// A restore starts with the pending operation.
pub open spec fn restore_started(requested: bool) -> RestoreStateView {
    RestoreStateView {
        requested,
        stage: RestoreStage::Pending,
        command: Seq::empty(),
        backup_path: Seq::empty(),
        resumes: false,
        error: None,
    }
}

/// The state in another stage, and what is to be done.
pub open spec fn goes_to(state: RestoreStateView, stage: RestoreStage, action: RestoreActionView)
    -> (RestoreStateView, RestoreActionView) {
    (RestoreStateView { stage, ..state }, action)
}

/// The restore ends without success.
pub open spec fn refused(state: RestoreStateView, message: Seq<char>) -> (
    RestoreStateView,
    RestoreActionView,
) {
    goes_to(state, RestoreStage::Done, RestoreActionView::Refuse(message))
}

/// The restore succeeded.
pub open spec fn restored(state: RestoreStateView) -> (RestoreStateView, RestoreActionView) {
    goes_to(state, RestoreStage::Done, RestoreActionView::Report(restored_result()))
}

/// What follows from the pending operation.
pub open spec fn after_pending(
    state: RestoreStateView,
    pending: Option<PendingOperationView>,
) -> (RestoreStateView, RestoreActionView) {
    match pending {
        None => goes_to(state, RestoreStage::Owners, RestoreActionView::ListOwners),
        Some(operation) => if state.requested {
            refused(
                state,
                "historical restore is blocked while an incomplete "@ + operation.command
                    + " operation is pending; recover or roll back the pending operation first"@,
            )
        } else if operation.command == "repair"@ {
            if operation.repair_journal is Some {
                goes_to(state, RestoreStage::Rollback, RestoreActionView::RollBackRepair)
            } else {
                refused(
                    state,
                    "legacy repair pending state cannot be restored automatically; select an explicit backup for a full offline restore"@,
                )
            }
        } else {
            goes_to(
                RestoreStateView {
                    command: operation.command,
                    backup_path: operation.backup_path,
                    resumes: true,
                    ..state
                },
                RestoreStage::Owners,
                RestoreActionView::ListOwners,
            )
        },
    }
}

/// What follows from how an interrupted repair was settled.
pub open spec fn after_rollback(
    state: RestoreStateView,
    resolution: PendingRepairResolution,
) -> (RestoreStateView, RestoreActionView) {
    match resolution {
        PendingRepairResolution::BeforeCommitCleared
        | PendingRepairResolution::Compensated => restored(state),
        PendingRepairResolution::CommittedFinalized => refused(
            state,
            "the pending repair was finalized before the explicit rollback could run"@,
        ),
        PendingRepairResolution::VerificationFailed => refused(
            state,
            "the pending repair could not enter safe rollback mode"@,
        ),
    }
}

/// The event is one that the stage waits for.
pub open spec fn expects(stage: RestoreStage, event: RestoreEventView) -> bool {
    match stage {
        RestoreStage::Pending => event is Pending || event is Failed,
        RestoreStage::Owners | RestoreStage::OwnersAgain | RestoreStage::SafetyOwners => event is Owners
            || event is Failed,
        RestoreStage::Rollback => event is RolledBack || event is Failed,
        RestoreStage::Done => false,
        _ => event is Succeeded || event is Failed,
    }
}

/// The next state of a restore, and what is to be done.
pub open spec fn restoring(state: RestoreStateView, event: RestoreEventView) -> (
    RestoreStateView,
    RestoreActionView,
) {
    match (state.stage, event) {
        (RestoreStage::Pending, RestoreEventView::Pending(pending)) => after_pending(
            state,
            pending,
        ),
        (RestoreStage::Rollback, RestoreEventView::RolledBack(resolution)) => after_rollback(
            state,
            resolution,
        ),
        (RestoreStage::Owners, RestoreEventView::Owners(names)) => if names.len() > 0 {
            refused(
                state,
                "restore blocked by active Codex processes: "@ + recovery::joined(names, ", "@),
            )
        } else {
            goes_to(state, RestoreStage::OwnersAgain, RestoreActionView::ListOwners)
        },
        (RestoreStage::OwnersAgain, RestoreEventView::Owners(names)) => if names.len() > 0 {
            refused(state, "restore aborted because a SQLite owner started after locking"@)
        } else if state.resumes {
            goes_to(
                state,
                RestoreStage::Resume,
                RestoreActionView::RestoreFrom(state.backup_path),
            )
        } else {
            goes_to(state, RestoreStage::Safety, RestoreActionView::MakeSafety)
        },
        (RestoreStage::Resume, RestoreEventView::Failed(error)) => refused(
            state,
            "incomplete "@ + state.command + " recovery from "@ + state.backup_path + " failed: "@
                + error,
        ),
        (RestoreStage::Resume, _) => goes_to(
            state,
            RestoreStage::ResumeClear,
            RestoreActionView::ClearPending,
        ),
        (RestoreStage::ResumeClear, RestoreEventView::Succeeded) => restored(state),
        (RestoreStage::Safety, RestoreEventView::Succeeded) => goes_to(
            state,
            RestoreStage::SafetyOwners,
            RestoreActionView::ListOwners,
        ),
        (RestoreStage::SafetyOwners, RestoreEventView::Owners(names)) => if names.len() > 0 {
            goes_to(state, RestoreStage::Discard, RestoreActionView::DiscardSafety)
        } else {
            goes_to(state, RestoreStage::Note, RestoreActionView::NotePending)
        },
        (RestoreStage::Discard, RestoreEventView::Failed(error)) => refused(
            state,
            "restore aborted because a SQLite owner appeared during safety backup; unsafe snapshot cleanup failed: "@
                + error,
        ),
        (RestoreStage::Discard, _) => refused(
            state,
            "restore aborted because a SQLite owner appeared during safety backup; discarded the snapshot"@,
        ),
        (RestoreStage::Note, RestoreEventView::Succeeded) => goes_to(
            state,
            RestoreStage::Restore,
            RestoreActionView::RestoreTarget,
        ),
        (RestoreStage::Restore, RestoreEventView::Succeeded) => goes_to(
            state,
            RestoreStage::RestoreClear,
            RestoreActionView::ClearPending,
        ),
        (RestoreStage::Restore, RestoreEventView::Failed(error)) => goes_to(
            RestoreStateView { error: Some(error), ..state },
            RestoreStage::Recover,
            RestoreActionView::RestoreSafety,
        ),
        (RestoreStage::RestoreClear, RestoreEventView::Succeeded) => goes_to(
            state,
            RestoreStage::CleanUp,
            RestoreActionView::CleanUp,
        ),
        (RestoreStage::CleanUp, _) => restored(state),
        (RestoreStage::Recover, RestoreEventView::Succeeded) => goes_to(
            state,
            RestoreStage::RecoverClear,
            RestoreActionView::ClearPending,
        ),
        (RestoreStage::Recover, RestoreEventView::Failed(error)) => refused(
            state,
            "restore failed: "@ + state.error->0 + "; previous-state recovery failed: "@ + error,
        ),
        (RestoreStage::RecoverClear, RestoreEventView::Succeeded) => refused(
            state,
            "restore failed and previous state was recovered: "@ + state.error->0,
        ),
        (_, RestoreEventView::Failed(error)) => refused(state, error),
        _ => refused(state, "unexpected event"@),
    }
}

fn go_to(state: RestoreState, stage: RestoreStage, action: RestoreAction) -> (r: (
    RestoreState,
    RestoreAction,
))
    ensures
        (r.0.deep_view(), r.1.deep_view()) == goes_to(
            state.deep_view(),
            stage,
            action.deep_view(),
        ),
        r.0.error == state.error,
{
    let mut next = state;
    next.stage = stage;
    (next, action)
}

fn refuse(state: RestoreState, message: String) -> (r: (RestoreState, RestoreAction))
    ensures
        (r.0.deep_view(), r.1.deep_view()) == refused(state.deep_view(), message@),
{
    go_to(state, RestoreStage::Done, RestoreAction::Refuse(message))
}

fn succeed(state: RestoreState) -> (r: (RestoreState, RestoreAction))
    ensures
        (r.0.deep_view(), r.1.deep_view()) == restored(state.deep_view()),
{
    go_to(state, RestoreStage::Done, RestoreAction::Report(successful_restore_result()))
}

fn note_pending_operation(state: RestoreState, pending: Option<PendingOperation>) -> (r: (
    RestoreState,
    RestoreAction,
))
    ensures
        (r.0.deep_view(), r.1.deep_view()) == after_pending(
            state.deep_view(),
            pending.deep_view(),
        ),
        r.0.stage != RestoreStage::Recover && r.0.stage != RestoreStage::RecoverClear,
{
    match pending {
        None => go_to(state, RestoreStage::Owners, RestoreAction::ListOwners),
        Some(operation) => {
            if state.requested {
                let message = join3(
                    "historical restore is blocked while an incomplete ",
                    operation.command.as_str(),
                    " operation is pending; recover or roll back the pending operation first",
                );
                return refuse(state, message);
            }
            if same(operation.command.as_str(), "repair") {
                if operation.repair_journal.is_some() {
                    return go_to(state, RestoreStage::Rollback, RestoreAction::RollBackRepair);
                }
                return refuse(
                    state,
                    "legacy repair pending state cannot be restored automatically; select an explicit backup for a full offline restore".to_owned(),
                );
            }
            let mut next = state;
            next.command = operation.command.copy_of();
            next.backup_path = operation.backup_path.copy_of();
            next.resumes = true;
            go_to(next, RestoreStage::Owners, RestoreAction::ListOwners)
        },
    }
}

fn note_owners(state: RestoreState, names: Vec<String>) -> (r: (RestoreState, RestoreAction))
    requires
        expects(state.stage, RestoreEventView::Owners(names.deep_view())),
    ensures
        (r.0.deep_view(), r.1.deep_view()) == restoring(
            state.deep_view(),
            RestoreEventView::Owners(names.deep_view()),
        ),
        r.0.stage != RestoreStage::Recover && r.0.stage != RestoreStage::RecoverClear,
{
    match state.stage {
        RestoreStage::Owners => {
            if names.len() > 0 {
                let listed = join_all(&names, ", ");
                let message = join2(
                    "restore blocked by active Codex processes: ",
                    listed.as_str(),
                );
                refuse(state, message)
            } else {
                go_to(state, RestoreStage::OwnersAgain, RestoreAction::ListOwners)
            }
        },
        RestoreStage::OwnersAgain => {
            if names.len() > 0 {
                refuse(
                    state,
                    "restore aborted because a SQLite owner started after locking".to_owned(),
                )
            } else if state.resumes {
                let path = state.backup_path.copy_of();
                go_to(state, RestoreStage::Resume, RestoreAction::RestoreFrom(path))
            } else {
                go_to(state, RestoreStage::Safety, RestoreAction::MakeSafety)
            }
        },
        _ => {
            if names.len() > 0 {
                go_to(state, RestoreStage::Discard, RestoreAction::DiscardSafety)
            } else {
                go_to(state, RestoreStage::Note, RestoreAction::NotePending)
            }
        },
    }
}

/// The stages in which the restore has failed before.
pub open spec fn after_failure(stage: RestoreStage) -> bool {
    stage == RestoreStage::Recover || stage == RestoreStage::RecoverClear
}

fn note_restore_failure(state: RestoreState, error: String) -> (r: (RestoreState, RestoreAction))
    requires
        expects(state.stage, RestoreEventView::Failed(error@)),
        after_failure(state.stage) ==> state.error is Some,
    ensures
        (r.0.deep_view(), r.1.deep_view()) == restoring(
            state.deep_view(),
            RestoreEventView::Failed(error@),
        ),
        after_failure(r.0.stage) ==> r.0.error is Some,
{
    match state.stage {
        RestoreStage::Resume => {
            let front = join4(
                "incomplete ",
                state.command.as_str(),
                " recovery from ",
                state.backup_path.as_str(),
            );
            let message = join3(front.as_str(), " failed: ", error.as_str());
            refuse(state, message)
        },
        RestoreStage::Discard => refuse(
            state,
            join2(
                "restore aborted because a SQLite owner appeared during safety backup; unsafe snapshot cleanup failed: ",
                error.as_str(),
            ),
        ),
        RestoreStage::Restore => {
            let mut next = state;
            next.error = Some(error);
            go_to(next, RestoreStage::Recover, RestoreAction::RestoreSafety)
        },
        RestoreStage::CleanUp => succeed(state),
        RestoreStage::Recover => {
            let first = match &state.error {
                Some(first) => first.copy_of(),
                None => String::new(),
            };
            let message = join4(
                "restore failed: ",
                first.as_str(),
                "; previous-state recovery failed: ",
                error.as_str(),
            );
            refuse(state, message)
        },
        _ => refuse(state, error),
    }
}

fn note_restore_success(state: RestoreState) -> (r: (RestoreState, RestoreAction))
    requires
        expects(state.stage, RestoreEventView::Succeeded),
        after_failure(state.stage) ==> state.error is Some,
    ensures
        (r.0.deep_view(), r.1.deep_view()) == restoring(
            state.deep_view(),
            RestoreEventView::Succeeded,
        ),
        after_failure(r.0.stage) ==> r.0.error is Some,
{
    match state.stage {
        RestoreStage::Resume => go_to(
            state,
            RestoreStage::ResumeClear,
            RestoreAction::ClearPending,
        ),
        RestoreStage::ResumeClear | RestoreStage::CleanUp => succeed(state),
        RestoreStage::Safety => go_to(
            state,
            RestoreStage::SafetyOwners,
            RestoreAction::ListOwners,
        ),
        RestoreStage::Discard => refuse(
            state,
            "restore aborted because a SQLite owner appeared during safety backup; discarded the snapshot".to_owned(),
        ),
        RestoreStage::Note => go_to(state, RestoreStage::Restore, RestoreAction::RestoreTarget),
        RestoreStage::Restore => go_to(
            state,
            RestoreStage::RestoreClear,
            RestoreAction::ClearPending,
        ),
        RestoreStage::RestoreClear => go_to(state, RestoreStage::CleanUp, RestoreAction::CleanUp),
        RestoreStage::Recover => go_to(
            state,
            RestoreStage::RecoverClear,
            RestoreAction::ClearPending,
        ),
        _ => {
            let first = match &state.error {
                Some(first) => first.copy_of(),
                None => String::new(),
            };
            let message = join2(
                "restore failed and previous state was recovered: ",
                first.as_str(),
            );
            refuse(state, message)
        },
    }
}

/// Whether the event is one that the stage waits for.
pub fn is_awaited(stage: RestoreStage, event: &RestoreEvent) -> (r: bool)
    ensures
        r == expects(stage, event.deep_view()),
{
    match stage {
        RestoreStage::Pending => matches!(
            event,
            RestoreEvent::Pending(_) | RestoreEvent::Failed(_)
        ),
        RestoreStage::Owners | RestoreStage::OwnersAgain | RestoreStage::SafetyOwners => matches!(
            event,
            RestoreEvent::Owners(_) | RestoreEvent::Failed(_)
        ),
        RestoreStage::Rollback => matches!(
            event,
            RestoreEvent::RolledBack(_) | RestoreEvent::Failed(_)
        ),
        RestoreStage::Done => false,
        _ => matches!(event, RestoreEvent::Succeeded | RestoreEvent::Failed(_)),
    }
}

/// Goes on with a restore after an event: the next state, and what is to be done.
pub fn restore_backup_operation_at(state: RestoreState, event: RestoreEvent) -> (r: (
    RestoreState,
    RestoreAction,
))
    requires
        expects(state.stage, event.deep_view()),
        after_failure(state.stage) ==> state.error is Some,
    ensures
        (r.0.deep_view(), r.1.deep_view()) == restoring(state.deep_view(), event.deep_view()),
        after_failure(r.0.stage) ==> r.0.error is Some,
{
    match event {
        RestoreEvent::Failed(error) => note_restore_failure(state, error),
        RestoreEvent::Succeeded => note_restore_success(state),
        RestoreEvent::Pending(pending) => note_pending_operation(state, pending),
        RestoreEvent::Owners(names) => note_owners(state, names),
        RestoreEvent::RolledBack(resolution) => {
            match resolution {
                PendingRepairResolution::BeforeCommitCleared
                | PendingRepairResolution::Compensated => succeed(state),
                PendingRepairResolution::CommittedFinalized => refuse(
                    state,
                    "the pending repair was finalized before the explicit rollback could run".to_owned(),
                ),
                PendingRepairResolution::VerificationFailed => refuse(
                    state,
                    "the pending repair could not enter safe rollback mode".to_owned(),
                ),
            }
        },
    }
}

fn start_restore(requested: bool) -> (r: (RestoreState, RestoreAction))
    ensures
        r.0.deep_view() == restore_started(requested),
        r.1.deep_view() == RestoreActionView::ReadPending,
{
    let command = String::new();
    let backup_path = String::new();
    assert(command@ =~= Seq::empty());
    assert(backup_path@ =~= Seq::empty());
    let state = RestoreState {
        requested,
        stage: RestoreStage::Pending,
        command,
        backup_path,
        resumes: false,
        error: None,
    };
    (state, RestoreAction::ReadPending)
}

/// Starts the restore of a backup: of the one asked for, else of what an interrupted operation
/// needs, else of the latest.
pub fn restore_backup_at(requested: &Option<String>) -> (r: (RestoreState, RestoreAction))
    ensures
        r.0.deep_view() == restore_started(requested is Some),
        r.1.deep_view() == RestoreActionView::ReadPending,
{
    start_restore(requested.is_some())
}

/// Starts the restore of what an interrupted operation needs, else of the latest backup.
pub fn restore_latest_at() -> (r: (RestoreState, RestoreAction))
    ensures
        r.0.deep_view() == restore_started(false),
        r.1.deep_view() == RestoreActionView::ReadPending,
{
    start_restore(false)
}

/// Nothing is written while a certain backup is asked for and an operation is pending.
pub proof fn law_pending_blocks_history(state: RestoreStateView, pending: PendingOperationView)
    requires
        state.stage == RestoreStage::Pending,
        state.requested,
    ensures
        restoring(state, RestoreEventView::Pending(Some(pending))).1 is Refuse,
{
}

/// A backup is written back only after the restore was noted as pending, and the note is cleared
/// only after the restore, or taking it back, succeeded.
pub proof fn law_restore_is_noted_first(state: RestoreStateView, event: RestoreEventView)
    requires
        expects(state.stage, event),
    ensures
        restoring(state, event).1 is RestoreTarget ==> state.stage == RestoreStage::Note && event
            is Succeeded,
        restoring(state, event).1 is ClearPending ==> event is Succeeded && (state.stage
            == RestoreStage::Restore || state.stage == RestoreStage::Recover || state.stage
            == RestoreStage::Resume),
{
}

/// A restore that failed is always taken back before it is reported.
pub proof fn law_failed_restore_is_recovered(state: RestoreStateView, error: Seq<char>)
    requires
        state.stage == RestoreStage::Restore,
    ensures
        restoring(state, RestoreEventView::Failed(error)).1 is RestoreSafety,
{
}

/// Nothing is written back while some process holds the databases open.
pub proof fn law_owners_block_restore(state: RestoreStateView, names: Seq<Seq<char>>)
    requires
        names.len() > 0,
        state.stage == RestoreStage::Owners || state.stage == RestoreStage::OwnersAgain
            || state.stage == RestoreStage::SafetyOwners,
    ensures
        ({
            let action = restoring(state, RestoreEventView::Owners(names)).1;
            action is Refuse || action is DiscardSafety
        }),
{
}

/// A restore puts every rollout back to what the backup holds, and, should it be taken back, to what
/// it was when the restore began.
pub proof fn law_restore_images_tell_apart(image: RestoreRolloutImageView)
    ensures
        image_recovery(image, SlotReadView::Provider(image.entry_provider))
            == ImageRecoveryView::Unchanged,
        image.entry_provider != image.row.before_provider ==> image_recovery(
            image,
            SlotReadView::Provider(image.row.before_provider),
        ) == ImageRecoveryView::PutBack,
{
}

proof fn lemma_backed_up(files: Seq<ManifestFileView>)
    ensures
        forall|file: ManifestFileView| #[trigger]
            backed_up(files).contains(file) <==> files.contains(file) && file.backed_up,
        (forall|i: int| 0 <= i < files.len() ==> !(#[trigger] files[i]).backed_up) <==> backed_up(
            files,
        ).len() == 0,
    decreases files.len(),
{
    if files.len() > 0 {
        let front = files.drop_last();
        let last = files.last();
        lemma_backed_up(front);
        assert(files =~= front.push(last));
        assert forall|file: ManifestFileView| #[trigger] backed_up(files).contains(file)
            <==> files.contains(file) && file.backed_up by {
            sessions::lemma_push_contains(front, last, file);
            sessions::lemma_push_contains(backed_up(front), last, file);
        }
        if backed_up(files).len() == 0 {
            assert forall|i: int| 0 <= i < files.len() implies !(#[trigger] files[i]).backed_up by {
                if i < front.len() {
                    assert(front[i] == files[i]);
                }
            }
        } else if forall|i: int| 0 <= i < files.len() ==> !(#[trigger] files[i]).backed_up {
            assert(!files[files.len() - 1].backed_up);
            assert forall|i: int| 0 <= i < front.len() implies !(#[trigger] front[i]).backed_up by {
                assert(front[i] == files[i]);
            }
        }
    }
}

/// A manifest backs up one file, and it is this one.
pub open spec fn backs_up_only(files: Seq<ManifestFileView>, file: ManifestFileView) -> bool {
    exists|i: int|
        {
            &&& 0 <= i < files.len()
            &&& #[trigger] files[i] == file
            &&& forall|j: int|
                0 <= j < files.len() ==> ((#[trigger] files[j]).backed_up <==> j == i)
        }
}

proof fn lemma_only_one(files: Seq<ManifestFileView>)
    ensures
        backed_up(files).len() == 1 ==> backs_up_only(files, backed_up(files)[0]),
        forall|file: ManifestFileView| #[trigger]
            backs_up_only(files, file) ==> backed_up(files) == seq![file],
    decreases files.len(),
{
    if files.len() > 0 {
        let front = files.drop_last();
        let last = files.last();
        lemma_only_one(front);
        lemma_backed_up(front);
        if backed_up(files).len() == 1 {
            if last.backed_up {
                assert(backed_up(front).len() == 0);
                assert(files[files.len() - 1] == last);
                assert forall|j: int| 0 <= j < files.len() implies ((
                #[trigger] files[j]).backed_up <==> j == files.len() - 1) by {
                    if j < front.len() {
                        assert(front[j] == files[j]);
                    }
                }
                assert(backs_up_only(files, last));
            } else {
                let file = backed_up(front)[0];
                let i = choose|i: int|
                    {
                        &&& 0 <= i < front.len()
                        &&& #[trigger] front[i] == file
                        &&& forall|j: int|
                            0 <= j < front.len() ==> ((#[trigger] front[j]).backed_up <==> j == i)
                    };
                assert(files[i] == file);
                assert forall|j: int| 0 <= j < files.len() implies ((
                #[trigger] files[j]).backed_up <==> j == i) by {
                    if j < front.len() {
                        assert(front[j] == files[j]);
                    }
                }
            }
        }
        assert forall|file: ManifestFileView| #[trigger] backs_up_only(files, file) implies backed_up(
            files,
        ) == seq![file] by {
            let i = choose|i: int|
                {
                    &&& 0 <= i < files.len()
                    &&& #[trigger] files[i] == file
                    &&& forall|j: int|
                        0 <= j < files.len() ==> ((#[trigger] files[j]).backed_up <==> j == i)
                };
            assert(files[files.len() - 1] == last);
            assert forall|j: int| 0 <= j < front.len() implies ((#[trigger] front[j]).backed_up
                <==> j == i) by {
                assert(front[j] == files[j]);
            }
            if i < front.len() {
                assert(front[i] == file);
                assert(backs_up_only(front, file));
            } else {
                assert(backed_up(front).len() == 0);
                assert(backed_up(files) =~= seq![file]);
            }
        }
    }
}

/// A backup of the current version is restored exactly where its manifest backs up the state
/// database alone, the copy hashes to the digest that the manifest lists, both files are regular,
/// nobody holds the database, and its tables are as they should be.
pub proof fn law_restored_copy_matches_its_digest(
    manifest: BackupManifestView,
    found: StateRestoreView,
)
    ensures
        state_restore_fault(manifest, found) is None <==> {
            &&& found.target is Regular
            &&& found.backup is Regular
            &&& found.locked is None
            &&& found.schema is None
            &&& exists|file: ManifestFileView|
                {
                    &&& #[trigger] backs_up_only(manifest.files, file)
                    &&& file.path == "state_5.sqlite"@
                    &&& file.sha256 is Some
                    &&& found.sha256 == file.sha256
                }
        },
{
    lemma_only_one(manifest.files);
    if state_restore_fault(manifest, found) is None {
        assert(backs_up_only(manifest.files, backed_up(manifest.files)[0]));
    }
}

/// An older backup is restored only where it backs up the three files that a repair writes, and each
/// copy is a regular file that hashes to the digest that the manifest lists for it.
pub proof fn law_restored_copies_match_their_digests(
    manifest: BackupManifestView,
    found: Seq<LegacyFileView>,
    schema: Option<Seq<char>>,
)
    ensures
        legacy_restore_fault(manifest, found, schema) is None <==> {
            &&& complete_write_set(manifest.files)
            &&& schema is None
            &&& forall|i: int|
                0 <= i < backed_up(manifest.files).len() ==> {
                    &&& (#[trigger] found[i]).found is Regular
                    &&& found[i].sha256 is Some
                    &&& found[i].sha256 == backed_up(manifest.files)[i].sha256
                    &&& found[i].fault is None
                }
        },
{
    lemma_legacy_faults(backed_up(manifest.files), found, 0);
}

proof fn lemma_legacy_faults(
    files: Seq<ManifestFileView>,
    found: Seq<LegacyFileView>,
    from: nat,
)
    ensures
        first_legacy_fault(files, found, from) is None <==> forall|i: int|
            from <= i < files.len() ==> {
                &&& (#[trigger] found[i]).found is Regular
                &&& found[i].sha256 is Some
                &&& found[i].sha256 == files[i].sha256
                &&& found[i].fault is None
            },
    decreases files.len() - from,
{
    if from < files.len() {
        lemma_legacy_faults(files, found, from + 1);
        let here = found[from as int];
    }
}

proof fn lemma_no_preimage_fault(
    rows: Seq<RepairRolloutJournalView>,
    i: nat,
    found: Map<Seq<char>, RolloutAtView>,
)
    ensures
        first_preimage_fault(rows, i, found) is None <==> forall|k: int|
            i <= k < rows.len() ==> preimage_fault(rows, k, found) is None,
    decreases rows.len() - i,
{
    if i < rows.len() {
        lemma_no_preimage_fault(rows, i + 1, found);
        if first_preimage_fault(rows, i, found) is None {
            assert forall|k: int| i <= k < rows.len() implies preimage_fault(rows, k, found) is None by {
                if k > i {
                    assert(i + 1 <= k);
                }
            }
        }
        if forall|k: int| i <= k < rows.len() ==> preimage_fault(rows, k, found) is None {
            assert(preimage_fault(rows, i as int, found) is None);
        }
    }
}

/// The rollouts of a backup are put back exactly where the version is known and, from version 5 on,
/// every rollout is named once, has a thread, has safe providers before and after that differ, and
/// now names a safe provider or none; version 4 puts none back and may name none.
pub proof fn law_rollouts_are_put_back_as_recorded(
    manifest: BackupManifestView,
    found: Map<Seq<char>, RolloutAtView>,
)
    ensures
        ({
            let outcome = restore_images(manifest, found);
            let rows = journal::rows_by_path(manifest.rollout_provider_preimages);
            &&& !(4 <= manifest.version <= 6) ==> outcome is Err
            &&& manifest.version == 4 ==> (outcome is Ok
                <==> manifest.rollout_provider_preimages.len() == 0) && (outcome is Ok
                ==> outcome->Ok_0.len() == 0)
            &&& manifest.version == 5 || manifest.version == 6 ==> (outcome is Ok <==> {
                &&& forall|i: int|
                    0 <= i < rows.len() ==> {
                        let row = #[trigger] rows[i];
                        &&& text::trimmed(row.thread_id).len() > 0
                        &&& row.before_provider != row.after_provider
                        &&& row.before_provider is Some ==> providers::safe_id(
                            row.before_provider->0,
                        )
                        &&& row.after_provider is Some ==> providers::safe_id(row.after_provider->0)
                        &&& found[row.path].slot is Provider
                        &&& found[row.path].slot->Provider_0 is Some ==> providers::safe_id(
                            found[row.path].slot->Provider_0->0,
                        )
                    }
                &&& forall|i: int, j: int|
                    0 <= i < j < rows.len() ==> (#[trigger] rows[i]).path != (
                    #[trigger] rows[j]).path && rows[i].thread_id != rows[j].thread_id
            })
            &&& outcome is Ok && manifest.version != 4 ==> {
                let images = outcome->Ok_0;
                &&& images.len() == rows.len()
                &&& forall|i: int|
                    0 <= i < images.len() ==> {
                        let image = #[trigger] images[i];
                        &&& image.row == rows[i]
                        &&& image.path == found[rows[i].path].path
                        &&& SlotReadView::Provider(image.entry_provider)
                            == found[rows[i].path].slot
                    }
            }
        }),
{
    let rows = journal::rows_by_path(manifest.rollout_provider_preimages);
    lemma_no_preimage_fault(rows, 0, found);
    let clean = first_preimage_fault(rows, 0, found) is None;
    if clean {
        assert forall|i: int, j: int| 0 <= i < j < rows.len() implies (#[trigger] rows[i]).path != (
        #[trigger] rows[j]).path && rows[i].thread_id != rows[j].thread_id by {
            assert(preimage_fault(rows, j, found) is None);
            assert(!repeats(rows, j));
        }
        assert forall|i: int| 0 <= i < rows.len() implies ({
            let row = #[trigger] rows[i];
            &&& row_valid(row)
            &&& found[row.path].slot is Provider
            &&& backups::safe_slot(found[row.path].slot->Provider_0)
        }) by {
            assert(preimage_fault(rows, i, found) is None);
        }
    } else {
        let k = choose|k: int| 0 <= k < rows.len() && preimage_fault(rows, k, found) is Some;
        assert(preimage_fault(rows, k, found) is Some);
        assert(rows[k] == rows[k]);
        if repeats(rows, k) {
            let j = choose|j: int|
                0 <= j < k && ((#[trigger] rows[j]).path == rows[k].path || rows[j].thread_id
                    == rows[k].thread_id);
            assert(rows[j].path == rows[k].path || rows[j].thread_id == rows[k].thread_id);
        }
    }
}

/// The backup that is made before a restore tells of each rollout what the restore changes: from the
/// provider that it names now to the one that the restore writes. Taking a restore back leaves alone
/// what was not changed, puts back what the restore wrote, and touches nothing else.
pub proof fn law_restore_can_be_taken_back(
    images: Seq<RestoreRolloutImageView>,
    at: int,
    now: Option<Seq<char>>,
    error: Seq<char>,
)
    requires
        0 <= at < images.len(),
    ensures
        safety_updates(images).len() == images.len(),
        ({
            let write = safety_updates(images)[at];
            &&& write.thread_id == images[at].row.thread_id
            &&& write.path == images[at].path
            &&& write.archived == images[at].row.archived
            &&& write.expected_provider == images[at].entry_provider
            &&& write.provider == images[at].row.before_provider
        }),
        ({
            let outcome = image_recovery(images[at], SlotReadView::Provider(now));
            &&& outcome is Unchanged <==> now == images[at].entry_provider
            &&& outcome is PutBack <==> now == images[at].row.before_provider && now
                != images[at].entry_provider
            &&& outcome is Fault <==> now != images[at].row.before_provider && now
                != images[at].entry_provider
        }),
        image_recovery(images[at], SlotReadView::Refused(error)) is Fault,
{
}

/// The restored global state is in order exactly where the backup has a digest for it, it could be
/// read, it is JSON, and it has that digest.
pub proof fn law_restored_global_state_matches_its_digest(
    files: Seq<ManifestFileView>,
    found: Result<Seq<u8>, Seq<char>>,
)
    ensures
        restored_global_fault(files, found) is None <==> {
            &&& found is Ok
            &&& json::json_error_text(found->Ok_0) is None
            &&& listed_digest(files, ".codex-global-state.json"@) == Some(
                digest::sha256_hex(found->Ok_0),
            )
        },
{
}

/// A restore opens the databases, keeps what is there, writes the databases, the global state where
/// there is one, the rollouts and the projections, and then checks what it wrote: in this order, and
/// it is done only after the last.
pub proof fn law_restore_goes_through_every_step(both: bool, global_state: bool)
    ensures
        ({
            let none: Option<Seq<char>> = None;
            let start = write_started(both, global_state);
            let kept = write_step(start, none);
            let databases = write_step(kept.0, none);
            let first = write_step(databases.0, none);
            let second = if global_state {
                write_step(first.0, none)
            } else {
                first
            };
            let third = write_step(second.0, none);
            let fourth = write_step(third.0, none);
            let fifth = write_step(fourth.0, none);
            let last = if global_state {
                write_step(fifth.0, none)
            } else {
                fifth
            };
            &&& start.step == RestoreStep::Acquire
            &&& start.error is None
            &&& start.both == both
            &&& kept.0.step == RestoreStep::KeepCurrent
            &&& databases.0.step == RestoreStep::RestoreDatabases
            &&& global_state ==> first.0.step == RestoreStep::RestoreGlobalState
            &&& second.0.step == RestoreStep::RestoreRollouts
            &&& third.0.step == RestoreStep::RestoreProjection
            &&& fourth.0.step == RestoreStep::Validate
            &&& global_state ==> fifth.0.step == RestoreStep::VerifyGlobalState && fifth.1 is None
            &&& kept.1 is None && databases.1 is None && first.1 is None && second.1 is None
                && third.1 is None && fourth.1 is None
            &&& last.0.step == RestoreStep::Finished
            &&& last.1 == Some(none)
        }),
{
}

/// Where opening the databases or keeping what is there fails, nothing was written and the error is
/// reported; where taking back goes well, the error that called for it is reported as it is, and
/// where it does not, what went wrong is reported with it.
pub proof fn law_restore_errors_are_reported(
    state: RestoreWriteView,
    failure: Seq<char>,
    rollouts: Option<Seq<char>>,
)
    requires
        state.error is Some,
    ensures
        state.step == RestoreStep::Acquire || state.step == RestoreStep::KeepCurrent ==> write_step(
            state,
            Some(failure),
        ).1 == Some(Some(failure)),
        state.step == RestoreStep::RecoverDatabases ==> write_step(
            state,
            rollouts,
        ).0.database_error == rollouts && write_step(state, rollouts).0.error == state.error,
        state.step == RestoreStep::RecoverProjection ==> write_step(
            state,
            rollouts,
        ).0.projection_error == rollouts && write_step(state, rollouts).0.error == state.error,
        state.step == RestoreStep::RecoverGlobalState ==> write_step(
            state,
            rollouts,
        ).0.global_error == rollouts && write_step(state, rollouts).0.error == state.error,
        writes_backup(state.step) ==> write_step(state, Some(failure)).0.error == Some(failure),
        state.step == RestoreStep::RecoverRollouts && state.database_error is None
            && state.projection_error is None && state.global_error is None && rollouts is None
            ==> write_step(state, rollouts).1 == Some(state.error),
{
}

/// A restore that nothing stands in the way of makes a safety backup, looks for owners again, notes
/// itself, writes the backup back, clears the note, cleans up and reports success, in this order.
pub proof fn law_unhindered_restore(requested: bool)
    ensures
        ({
            let nobody = RestoreEventView::Owners(Seq::empty());
            let done = RestoreEventView::Succeeded;
            let a = restoring(restore_started(requested), RestoreEventView::Pending(None));
            let b = restoring(a.0, nobody);
            let c = restoring(b.0, nobody);
            let d = restoring(c.0, done);
            let e = restoring(d.0, nobody);
            let f = restoring(e.0, done);
            let g = restoring(f.0, done);
            let h = restoring(g.0, done);
            let i = restoring(h.0, done);
            &&& a.1 is ListOwners
            &&& b.1 is ListOwners
            &&& c.1 is MakeSafety
            &&& d.1 is ListOwners
            &&& e.1 is NotePending
            &&& f.1 is RestoreTarget
            &&& g.1 is ClearPending
            &&& h.1 is CleanUp
            &&& i.1 is Report
            &&& i.1->Report_0.ok
            &&& i.1->Report_0.remaining == 0
            &&& i.1->Report_0.skipped == 0
            &&& i.1->Report_0.reasons.len() == 0
        }),
{
}

/// Whoever owns the databases stops a restore before anything is written; an owner that appears while
/// the safety backup is made has that backup discarded; a restore that fails is taken back from the
/// safety backup, and reported as failed either way.
pub proof fn law_hindered_restore(
    state: RestoreStateView,
    names: Seq<Seq<char>>,
    error: Seq<char>,
    second: Seq<char>,
)
    requires
        names.len() > 0,
    ensures
        ({
            let owners = RestoreEventView::Owners(names);
            let failed = RestoreEventView::Failed(error);
            &&& state.stage == RestoreStage::Owners ==> restoring(state, owners).1 is Refuse
            &&& state.stage == RestoreStage::OwnersAgain ==> restoring(state, owners).1 is Refuse
            &&& state.stage == RestoreStage::SafetyOwners ==> restoring(
                state,
                owners,
            ).1 is DiscardSafety
            &&& state.stage == RestoreStage::Discard ==> restoring(
                state,
                RestoreEventView::Succeeded,
            ).1 is Refuse && restoring(state, failed).1 is Refuse
            &&& state.stage == RestoreStage::Restore ==> {
                let back = restoring(state, failed);
                let cleared = restoring(back.0, RestoreEventView::Succeeded);
                &&& back.1 is RestoreSafety
                &&& back.0.error == Some(error)
                &&& cleared.1 is ClearPending
                &&& restoring(cleared.0, RestoreEventView::Succeeded).1 is Refuse
                &&& restoring(back.0, RestoreEventView::Failed(second)).1 is Refuse
            }
            &&& state.stage == RestoreStage::Note || state.stage == RestoreStage::Safety
                || state.stage == RestoreStage::Pending || state.stage == RestoreStage::Owners
                ==> restoring(state, failed).1 == RestoreActionView::Refuse(error)
        }),
{
}

/// A restore that was interrupted is taken up from the backup that it noted; an interrupted repair is
/// rolled back by its journal, and refused where it has none.
pub proof fn law_pending_operation_is_taken_up(operation: PendingOperationView, error: Seq<char>)
    ensures
        ({
            let nobody = RestoreEventView::Owners(Seq::empty());
            let start = restore_started(false);
            let a = restoring(start, RestoreEventView::Pending(Some(operation)));
            let b = restoring(a.0, nobody);
            let c = restoring(b.0, nobody);
            let d = restoring(c.0, RestoreEventView::Succeeded);
            let e = restoring(d.0, RestoreEventView::Succeeded);
            &&& operation.command != "repair"@ ==> {
                &&& a.1 is ListOwners
                &&& b.1 is ListOwners
                &&& c.1 == RestoreActionView::RestoreFrom(operation.backup_path)
                &&& d.1 is ClearPending
                &&& e.1 is Report
                &&& restoring(c.0, RestoreEventView::Failed(error)).1 is Refuse
            }
            &&& operation.command == "repair"@ && operation.repair_journal is Some ==> {
                &&& a.1 is RollBackRepair
                &&& restoring(
                    a.0,
                    RestoreEventView::RolledBack(PendingRepairResolution::Compensated),
                ).1 is Report
                &&& restoring(
                    a.0,
                    RestoreEventView::RolledBack(PendingRepairResolution::BeforeCommitCleared),
                ).1 is Report
                &&& restoring(
                    a.0,
                    RestoreEventView::RolledBack(PendingRepairResolution::CommittedFinalized),
                ).1 is Refuse
                &&& restoring(
                    a.0,
                    RestoreEventView::RolledBack(PendingRepairResolution::VerificationFailed),
                ).1 is Refuse
            }
            &&& operation.command == "repair"@ && operation.repair_journal is None ==> a.1 is Refuse
        }),
{
}

proof fn lemma_listed_digest(files: Seq<ManifestFileView>, path: Seq<char>)
    ensures
        listed_digest(files, path) is Some ==> exists|i: int|
            0 <= i < files.len() && (#[trigger] files[i]).path == path && files[i].sha256
                == listed_digest(files, path) && forall|j: int|
                0 <= j < i ==> (#[trigger] files[j]).path != path,
        (forall|i: int| 0 <= i < files.len() ==> (#[trigger] files[i]).path != path)
            ==> listed_digest(files, path) is None,
    decreases files.len(),
{
    if files.len() > 0 {
        let rest = files.drop_first();
        lemma_listed_digest(rest, path);
        if files[0].path != path {
            if listed_digest(files, path) is Some {
                let i = choose|i: int|
                    0 <= i < rest.len() && (#[trigger] rest[i]).path == path && rest[i].sha256
                        == listed_digest(rest, path) && forall|j: int|
                        0 <= j < i ==> (#[trigger] rest[j]).path != path;
                assert(files[i + 1] == rest[i]);
                assert forall|j: int| 0 <= j < i + 1 implies (#[trigger] files[j]).path != path by {
                    if j > 0 {
                        assert(files[j] == rest[j - 1]);
                    }
                }
            }
            if forall|i: int| 0 <= i < files.len() ==> (#[trigger] files[i]).path != path {
                assert forall|i: int| 0 <= i < rest.len() implies (#[trigger] rest[i]).path
                    != path by {
                    assert(files[i + 1] == rest[i]);
                }
            }
        }
    }
}

/// What a restore writes back are the files that the manifest backs up and no other, and the digest of
/// a path is that of the first file with it.
pub proof fn law_backed_up_files_are_restored(
    files: Seq<ManifestFileView>,
    file: ManifestFileView,
    path: Seq<char>,
)
    ensures
        backed_up(files).contains(file) <==> files.contains(file) && file.backed_up,
        listed_digest(files, path) is Some ==> exists|i: int|
            0 <= i < files.len() && (#[trigger] files[i]).path == path && files[i].sha256
                == listed_digest(files, path) && forall|j: int|
                0 <= j < i ==> (#[trigger] files[j]).path != path,
        (forall|i: int| 0 <= i < files.len() ==> (#[trigger] files[i]).path != path)
            ==> listed_digest(files, path) is None,
{
    lemma_backed_up(files);
    lemma_listed_digest(files, path);
}

/// A backup of an older version is restored only where it has the session database, the catalog and
/// the global state, once each, every one a regular file with its digest, and its tables serve.
pub proof fn law_older_backups_are_whole(
    manifest: BackupManifestView,
    found: Seq<LegacyFileView>,
    schema: Option<Seq<char>>,
    at: int,
)
    requires
        legacy_restore_fault(manifest, found, schema) is None,
        0 <= at < backed_up(manifest.files).len(),
    ensures
        schema is None,
        backed_up(manifest.files).len() == 3,
        found[at].found is Regular,
        backed_up(manifest.files)[at].sha256 is Some,
        found[at].sha256 == backed_up(manifest.files)[at].sha256,
        found[at].fault is None,
{
    lemma_no_legacy_fault(backed_up(manifest.files), found, 0, at);
}

proof fn lemma_no_legacy_fault(
    files: Seq<ManifestFileView>,
    found: Seq<LegacyFileView>,
    i: nat,
    at: int,
)
    requires
        first_legacy_fault(files, found, i) is None,
        i <= at < files.len(),
    ensures
        legacy_file_fault(files[at], found[at]) is None,
    decreases files.len() - i,
{
    if i < at {
        lemma_no_legacy_fault(files, found, i + 1, at);
    }
}

} // verus!

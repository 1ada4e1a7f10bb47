//! Backups: their names and manifests, which of them can be restored, and the list of them.

use crate::journal;
use crate::journal::{
    rollout_path_from_relative, RepairRolloutJournal,
    RepairRolloutJournalView,
};
use crate::model::Model;
use crate::ordered;
use crate::ordered::{sort_pairs, Ordered, OrderedMap};
use crate::paths::PathStyle;
use crate::providers;
use crate::providers::provider_id_is_safe;
use crate::sessions;
use crate::sessions::parse_rfc3339;
use crate::text;
use crate::text::{
    chars_of, compare, decimal, is_blank, join2, join4, same, starts_with, strip_prefix, trim,
    Relation,
};
use vstd::prelude::*;

verus! {

/// How many automatic backups are kept.
pub const AUTOMATIC_BACKUP_LIMIT: usize = 5;

/// How many automatic backups are kept whatever their size.
pub const MINIMUM_AUTOMATIC_BACKUPS: usize = 2;

/// How many bytes the automatic backups may take.
pub const BACKUP_CAPACITY_LIMIT_BYTES: u64 = 262144000;

/// Why a backup was made.
#[derive(Clone, Copy, Debug, PartialEq, Eq, Structural)]
pub enum BackupKind {
    /// Before a repair.
    Automatic,
    /// On request.
    Manual,
    /// Before a restore.
    RestoreSafety,
}

impl DeepView for BackupKind {
    type V = BackupKind;

    open spec fn deep_view(&self) -> BackupKind {
        *self
    }
}

impl Model for BackupKind {
    fn copy_of(&self) -> (r: Self) {
        *self
    }

    fn same_as(&self, other: &Self) -> (r: bool) {
        *self == *other
    }
}

/// A file in the manifest of a backup.
#[derive(Clone, Debug, PartialEq, Eq)]
pub struct ManifestFile {
    pub path: String,
    pub size: u64,
    pub modified: Option<String>,
    pub sha256: Option<String>,
    pub backed_up: bool,
}

/// What a `ManifestFile` stands for.
#[verifier::ext_equal]
pub struct ManifestFileView {
    pub path: Seq<char>,
    pub size: u64,
    pub modified: Option<Seq<char>>,
    pub sha256: Option<Seq<char>>,
    pub backed_up: bool,
}

impl DeepView for ManifestFile {
    type V = ManifestFileView;

    open spec fn deep_view(&self) -> ManifestFileView {
        ManifestFileView {
            path: self.path.deep_view(),
            size: self.size.deep_view(),
            modified: self.modified.deep_view(),
            sha256: self.sha256.deep_view(),
            backed_up: self.backed_up.deep_view(),
        }
    }
}

impl Model for ManifestFile {
    fn copy_of(&self) -> (r: Self) {
        ManifestFile {
            path: self.path.copy_of(),
            size: self.size.copy_of(),
            modified: self.modified.copy_of(),
            sha256: self.sha256.copy_of(),
            backed_up: self.backed_up.copy_of(),
        }
    }

    fn same_as(&self, other: &Self) -> (r: bool) {
        self.path.same_as(&other.path)
            && self.size.same_as(&other.size)
            && self.modified.same_as(&other.modified)
            && self.sha256.same_as(&other.sha256)
            && self.backed_up.same_as(&other.backed_up)
    }
}

/// The manifest of a backup.
#[derive(Debug, PartialEq, Eq)]
pub struct BackupManifest {
    pub version: u32,
    pub created_at: String,
    pub source: String,
    pub provider: String,
    pub sqlite_user_versions: OrderedMap<String, i64>,
    pub projection_state_present: bool,
    pub projection_state_sha256: Option<String>,
    pub rollout_provider_preimages: Vec<RepairRolloutJournal>,
    pub kind: BackupKind,
    pub pinned: bool,
    pub files: Vec<ManifestFile>,
}

/// What a `BackupManifest` stands for.
#[verifier::ext_equal]
pub struct BackupManifestView {
    pub version: u32,
    pub created_at: Seq<char>,
    pub source: Seq<char>,
    pub provider: Seq<char>,
    pub sqlite_user_versions: Map<Seq<char>, i64>,
    pub projection_state_present: bool,
    pub projection_state_sha256: Option<Seq<char>>,
    pub rollout_provider_preimages: Seq<RepairRolloutJournalView>,
    pub kind: BackupKind,
    pub pinned: bool,
    pub files: Seq<ManifestFileView>,
}

impl DeepView for BackupManifest {
    type V = BackupManifestView;

    open spec fn deep_view(&self) -> BackupManifestView {
        BackupManifestView {
            version: self.version.deep_view(),
            created_at: self.created_at.deep_view(),
            source: self.source.deep_view(),
            provider: self.provider.deep_view(),
            sqlite_user_versions: self.sqlite_user_versions.deep_view(),
            projection_state_present: self.projection_state_present.deep_view(),
            projection_state_sha256: self.projection_state_sha256.deep_view(),
            rollout_provider_preimages: self.rollout_provider_preimages.deep_view(),
            kind: self.kind.deep_view(),
            pinned: self.pinned.deep_view(),
            files: self.files.deep_view(),
        }
    }
}

impl Model for BackupManifest {
    fn copy_of(&self) -> (r: Self) {
        BackupManifest {
            version: self.version.copy_of(),
            created_at: self.created_at.copy_of(),
            source: self.source.copy_of(),
            provider: self.provider.copy_of(),
            sqlite_user_versions: self.sqlite_user_versions.copy_of(),
            projection_state_present: self.projection_state_present.copy_of(),
            projection_state_sha256: self.projection_state_sha256.copy_of(),
            rollout_provider_preimages: self.rollout_provider_preimages.copy_of(),
            kind: self.kind.copy_of(),
            pinned: self.pinned.copy_of(),
            files: self.files.copy_of(),
        }
    }

    fn same_as(&self, other: &Self) -> (r: bool) {
        self.version.same_as(&other.version)
            && self.created_at.same_as(&other.created_at)
            && self.source.same_as(&other.source)
            && self.provider.same_as(&other.provider)
            && self.sqlite_user_versions.same_as(&other.sqlite_user_versions)
            && self.projection_state_present.same_as(&other.projection_state_present)
            && self.projection_state_sha256.same_as(&other.projection_state_sha256)
            && self.rollout_provider_preimages.same_as(&other.rollout_provider_preimages)
            && self.kind.same_as(&other.kind)
            && self.pinned.same_as(&other.pinned)
            && self.files.same_as(&other.files)
    }
}

/// What is known of the files of a backup.
#[derive(Clone, Debug, PartialEq, Eq)]
pub struct BackupFiles {
    /// For each file of the manifest: its copy is a regular file.
    pub regular: Vec<bool>,
    /// The copy of the store of projections is a file.
    pub projection_file: bool,
    /// How the paths of the rollouts are read.
    pub style: PathStyle,
}

/// What a `BackupFiles` stands for.
#[verifier::ext_equal]
pub struct BackupFilesView {
    pub regular: Seq<bool>,
    pub projection_file: bool,
    pub style: PathStyle,
}

impl DeepView for BackupFiles {
    type V = BackupFilesView;

    open spec fn deep_view(&self) -> BackupFilesView {
        BackupFilesView {
            regular: self.regular.deep_view(),
            projection_file: self.projection_file.deep_view(),
            style: self.style,
        }
    }
}

impl Model for BackupFiles {
    fn copy_of(&self) -> (r: Self) {
        BackupFiles {
            regular: self.regular.copy_of(),
            projection_file: self.projection_file.copy_of(),
            style: self.style,
        }
    }

    fn same_as(&self, other: &Self) -> (r: bool) {
        self.regular.same_as(&other.regular)
            && self.projection_file.same_as(&other.projection_file)
            && self.style.same_as(&other.style)
    }
}

/// What was read of a manifest.
#[derive(Debug, PartialEq, Eq)]
pub enum ManifestRead {
    /// There is none.
    Missing,
    /// It cannot be read: why.
    Invalid(String),
    Read(BackupManifest),
}

/// What a `ManifestRead` stands for.
#[verifier::ext_equal]
pub enum ManifestReadView {
    Missing,
    Invalid(Seq<char>),
    Read(BackupManifestView),
}

impl DeepView for ManifestRead {
    type V = ManifestReadView;

    open spec fn deep_view(&self) -> ManifestReadView {
        match self {
            ManifestRead::Missing => ManifestReadView::Missing,
            ManifestRead::Invalid(value) => ManifestReadView::Invalid(value.deep_view()),
            ManifestRead::Read(value) => ManifestReadView::Read(value.deep_view()),
        }
    }
}

impl Model for ManifestRead {
    fn copy_of(&self) -> (r: Self) {
        match self {
            ManifestRead::Missing => ManifestRead::Missing,
            ManifestRead::Invalid(value) => ManifestRead::Invalid(value.copy_of()),
            ManifestRead::Read(value) => ManifestRead::Read(value.copy_of()),
        }
    }

    fn same_as(&self, other: &Self) -> (r: bool) {
        match (self, other) {
            (ManifestRead::Missing, ManifestRead::Missing) => true,
            (ManifestRead::Invalid(value_l), ManifestRead::Invalid(value_r)) => value_l.same_as(value_r),
            (ManifestRead::Read(value_l), ManifestRead::Read(value_r)) => value_l.same_as(value_r),
            _ => false,
        }
    }
}

/// The size of a directory.
#[derive(Clone, Debug, PartialEq, Eq)]
pub enum SizeRead {
    Known(u64),
    /// It could not be found out: why.
    Failed(String),
}

/// What a `SizeRead` stands for.
#[verifier::ext_equal]
pub enum SizeReadView {
    Known(u64),
    Failed(Seq<char>),
}

impl DeepView for SizeRead {
    type V = SizeReadView;

    open spec fn deep_view(&self) -> SizeReadView {
        match self {
            SizeRead::Known(value) => SizeReadView::Known(value.deep_view()),
            SizeRead::Failed(value) => SizeReadView::Failed(value.deep_view()),
        }
    }
}

impl Model for SizeRead {
    fn copy_of(&self) -> (r: Self) {
        match self {
            SizeRead::Known(value) => SizeRead::Known(value.copy_of()),
            SizeRead::Failed(value) => SizeRead::Failed(value.copy_of()),
        }
    }

    fn same_as(&self, other: &Self) -> (r: bool) {
        match (self, other) {
            (SizeRead::Known(value_l), SizeRead::Known(value_r)) => value_l.same_as(value_r),
            (SizeRead::Failed(value_l), SizeRead::Failed(value_r)) => value_l.same_as(value_r),
            _ => false,
        }
    }
}

/// A directory among the backups.
#[derive(Debug, PartialEq, Eq)]
pub struct BackupDirectory {
    pub name: String,
    pub path: String,
    pub manifest_path: String,
    /// Why the manifest's own data could not be read.
    pub manifest_error: Option<String>,
    pub manifest: ManifestRead,
    pub files: BackupFiles,
    pub size: SizeRead,
    /// The time of its last change.
    pub modified: Option<String>,
    /// The backup that a pending operation needs.
    pub pending: bool,
}

/// What a `BackupDirectory` stands for.
#[verifier::ext_equal]
pub struct BackupDirectoryView {
    pub name: Seq<char>,
    pub path: Seq<char>,
    pub manifest_path: Seq<char>,
    pub manifest_error: Option<Seq<char>>,
    pub manifest: ManifestReadView,
    pub files: BackupFilesView,
    pub size: SizeReadView,
    pub modified: Option<Seq<char>>,
    pub pending: bool,
}

impl DeepView for BackupDirectory {
    type V = BackupDirectoryView;

    open spec fn deep_view(&self) -> BackupDirectoryView {
        BackupDirectoryView {
            name: self.name.deep_view(),
            path: self.path.deep_view(),
            manifest_path: self.manifest_path.deep_view(),
            manifest_error: self.manifest_error.deep_view(),
            manifest: self.manifest.deep_view(),
            files: self.files.deep_view(),
            size: self.size.deep_view(),
            modified: self.modified.deep_view(),
            pending: self.pending.deep_view(),
        }
    }
}

impl Model for BackupDirectory {
    fn copy_of(&self) -> (r: Self) {
        BackupDirectory {
            name: self.name.copy_of(),
            path: self.path.copy_of(),
            manifest_path: self.manifest_path.copy_of(),
            manifest_error: self.manifest_error.copy_of(),
            manifest: self.manifest.copy_of(),
            files: self.files.copy_of(),
            size: self.size.copy_of(),
            modified: self.modified.copy_of(),
            pending: self.pending.copy_of(),
        }
    }

    fn same_as(&self, other: &Self) -> (r: bool) {
        self.name.same_as(&other.name)
            && self.path.same_as(&other.path)
            && self.manifest_path.same_as(&other.manifest_path)
            && self.manifest_error.same_as(&other.manifest_error)
            && self.manifest.same_as(&other.manifest)
            && self.files.same_as(&other.files)
            && self.size.same_as(&other.size)
            && self.modified.same_as(&other.modified)
            && self.pending.same_as(&other.pending)
    }
}

/// What was found among the backups.
#[derive(Debug, PartialEq, Eq)]
pub enum BackupItem {
    /// An entry that cannot be read: why.
    Unreadable(String),
    /// An entry of which nothing can be found out: why.
    Uninspectable { path: String, error: String },
    /// No directory.
    Other,
    Directory(BackupDirectory),
}

/// What a `BackupItem` stands for.
#[verifier::ext_equal]
pub enum BackupItemView {
    Unreadable(Seq<char>),
    Uninspectable { path: Seq<char>, error: Seq<char> },
    Other,
    Directory(BackupDirectoryView),
}

impl DeepView for BackupItem {
    type V = BackupItemView;

    open spec fn deep_view(&self) -> BackupItemView {
        match self {
            BackupItem::Unreadable(value) => BackupItemView::Unreadable(value.deep_view()),
            BackupItem::Uninspectable { path, error } => BackupItemView::Uninspectable {
                path: path.deep_view(),
                error: error.deep_view(),
            },
            BackupItem::Other => BackupItemView::Other,
            BackupItem::Directory(value) => BackupItemView::Directory(value.deep_view()),
        }
    }
}

impl Model for BackupItem {
    fn copy_of(&self) -> (r: Self) {
        match self {
            BackupItem::Unreadable(value) => BackupItem::Unreadable(value.copy_of()),
            BackupItem::Uninspectable { path, error } => BackupItem::Uninspectable {
                path: path.copy_of(),
                error: error.copy_of(),
            },
            BackupItem::Other => BackupItem::Other,
            BackupItem::Directory(value) => BackupItem::Directory(value.copy_of()),
        }
    }

    fn same_as(&self, other: &Self) -> (r: bool) {
        match (self, other) {
            (BackupItem::Unreadable(value_l), BackupItem::Unreadable(value_r)) => value_l.same_as(value_r),
            (
                BackupItem::Uninspectable { path: path_l, error: error_l },
                BackupItem::Uninspectable { path: path_r, error: error_r },
            ) => path_l.same_as(path_r) && error_l.same_as(error_r),
            (BackupItem::Other, BackupItem::Other) => true,
            (BackupItem::Directory(value_l), BackupItem::Directory(value_r)) => value_l.same_as(value_r),
            _ => false,
        }
    }
}

/// A backup.
#[derive(Clone, Debug, PartialEq, Eq)]
pub struct BackupEntry {
    pub name: String,
    pub path: String,
    pub created_at: String,
    pub size_bytes: u64,
    pub provider: String,
    pub kind: BackupKind,
    pub pinned: bool,
    pub protected: bool,
    pub protection_reason: Option<String>,
    pub restorable: bool,
    pub status: String,
    pub manifest_version: Option<u32>,
}

/// What a `BackupEntry` stands for.
#[verifier::ext_equal]
pub struct BackupEntryView {
    pub name: Seq<char>,
    pub path: Seq<char>,
    pub created_at: Seq<char>,
    pub size_bytes: u64,
    pub provider: Seq<char>,
    pub kind: BackupKind,
    pub pinned: bool,
    pub protected: bool,
    pub protection_reason: Option<Seq<char>>,
    pub restorable: bool,
    pub status: Seq<char>,
    pub manifest_version: Option<u32>,
}

impl DeepView for BackupEntry {
    type V = BackupEntryView;

    open spec fn deep_view(&self) -> BackupEntryView {
        BackupEntryView {
            name: self.name.deep_view(),
            path: self.path.deep_view(),
            created_at: self.created_at.deep_view(),
            size_bytes: self.size_bytes.deep_view(),
            provider: self.provider.deep_view(),
            kind: self.kind.deep_view(),
            pinned: self.pinned.deep_view(),
            protected: self.protected.deep_view(),
            protection_reason: self.protection_reason.deep_view(),
            restorable: self.restorable.deep_view(),
            status: self.status.deep_view(),
            manifest_version: self.manifest_version.deep_view(),
        }
    }
}

impl Model for BackupEntry {
    fn copy_of(&self) -> (r: Self) {
        BackupEntry {
            name: self.name.copy_of(),
            path: self.path.copy_of(),
            created_at: self.created_at.copy_of(),
            size_bytes: self.size_bytes.copy_of(),
            provider: self.provider.copy_of(),
            kind: self.kind.copy_of(),
            pinned: self.pinned.copy_of(),
            protected: self.protected.copy_of(),
            protection_reason: self.protection_reason.copy_of(),
            restorable: self.restorable.copy_of(),
            status: self.status.copy_of(),
            manifest_version: self.manifest_version.copy_of(),
        }
    }

    fn same_as(&self, other: &Self) -> (r: bool) {
        self.name.same_as(&other.name)
            && self.path.same_as(&other.path)
            && self.created_at.same_as(&other.created_at)
            && self.size_bytes.same_as(&other.size_bytes)
            && self.provider.same_as(&other.provider)
            && self.kind.same_as(&other.kind)
            && self.pinned.same_as(&other.pinned)
            && self.protected.same_as(&other.protected)
            && self.protection_reason.same_as(&other.protection_reason)
            && self.restorable.same_as(&other.restorable)
            && self.status.same_as(&other.status)
            && self.manifest_version.same_as(&other.manifest_version)
    }
}

/// The backups.
#[derive(Clone, Debug, PartialEq, Eq)]
pub struct BackupSummary {
    pub entries: Vec<BackupEntry>,
    pub restorable_count: usize,
    pub automatic_count: usize,
    pub pinned_count: usize,
    pub legacy_count: usize,
    pub incomplete_count: usize,
    pub total_bytes: u64,
    pub legacy_bytes: u64,
    pub automatic_limit: usize,
    pub minimum_automatic: usize,
    pub capacity_limit_bytes: u64,
    pub over_limit: bool,
    pub warnings: Vec<String>,
}

/// What a `BackupSummary` stands for.
#[verifier::ext_equal]
pub struct BackupSummaryView {
    pub entries: Seq<BackupEntryView>,
    pub restorable_count: usize,
    pub automatic_count: usize,
    pub pinned_count: usize,
    pub legacy_count: usize,
    pub incomplete_count: usize,
    pub total_bytes: u64,
    pub legacy_bytes: u64,
    pub automatic_limit: usize,
    pub minimum_automatic: usize,
    pub capacity_limit_bytes: u64,
    pub over_limit: bool,
    pub warnings: Seq<Seq<char>>,
}

impl DeepView for BackupSummary {
    type V = BackupSummaryView;

    open spec fn deep_view(&self) -> BackupSummaryView {
        BackupSummaryView {
            entries: self.entries.deep_view(),
            restorable_count: self.restorable_count.deep_view(),
            automatic_count: self.automatic_count.deep_view(),
            pinned_count: self.pinned_count.deep_view(),
            legacy_count: self.legacy_count.deep_view(),
            incomplete_count: self.incomplete_count.deep_view(),
            total_bytes: self.total_bytes.deep_view(),
            legacy_bytes: self.legacy_bytes.deep_view(),
            automatic_limit: self.automatic_limit.deep_view(),
            minimum_automatic: self.minimum_automatic.deep_view(),
            capacity_limit_bytes: self.capacity_limit_bytes.deep_view(),
            over_limit: self.over_limit.deep_view(),
            warnings: self.warnings.deep_view(),
        }
    }
}

impl Model for BackupSummary {
    fn copy_of(&self) -> (r: Self) {
        BackupSummary {
            entries: self.entries.copy_of(),
            restorable_count: self.restorable_count.copy_of(),
            automatic_count: self.automatic_count.copy_of(),
            pinned_count: self.pinned_count.copy_of(),
            legacy_count: self.legacy_count.copy_of(),
            incomplete_count: self.incomplete_count.copy_of(),
            total_bytes: self.total_bytes.copy_of(),
            legacy_bytes: self.legacy_bytes.copy_of(),
            automatic_limit: self.automatic_limit.copy_of(),
            minimum_automatic: self.minimum_automatic.copy_of(),
            capacity_limit_bytes: self.capacity_limit_bytes.copy_of(),
            over_limit: self.over_limit.copy_of(),
            warnings: self.warnings.copy_of(),
        }
    }

    fn same_as(&self, other: &Self) -> (r: bool) {
        self.entries.same_as(&other.entries)
            && self.restorable_count.same_as(&other.restorable_count)
            && self.automatic_count.same_as(&other.automatic_count)
            && self.pinned_count.same_as(&other.pinned_count)
            && self.legacy_count.same_as(&other.legacy_count)
            && self.incomplete_count.same_as(&other.incomplete_count)
            && self.total_bytes.same_as(&other.total_bytes)
            && self.legacy_bytes.same_as(&other.legacy_bytes)
            && self.automatic_limit.same_as(&other.automatic_limit)
            && self.minimum_automatic.same_as(&other.minimum_automatic)
            && self.capacity_limit_bytes.same_as(&other.capacity_limit_bytes)
            && self.over_limit.same_as(&other.over_limit)
            && self.warnings.same_as(&other.warnings)
    }
}

/// The outcome of a cleanup.
#[derive(Clone, Debug, PartialEq, Eq)]
pub struct BackupCleanupResult {
    pub removed_count: usize,
    pub removed_legacy_count: usize,
    pub reclaimed_bytes: u64,
    pub remaining_count: usize,
    pub remaining_bytes: u64,
    pub warnings: Vec<String>,
}

/// What a `BackupCleanupResult` stands for.
#[verifier::ext_equal]
pub struct BackupCleanupResultView {
    pub removed_count: usize,
    pub removed_legacy_count: usize,
    pub reclaimed_bytes: u64,
    pub remaining_count: usize,
    pub remaining_bytes: u64,
    pub warnings: Seq<Seq<char>>,
}

impl DeepView for BackupCleanupResult {
    type V = BackupCleanupResultView;

    open spec fn deep_view(&self) -> BackupCleanupResultView {
        BackupCleanupResultView {
            removed_count: self.removed_count.deep_view(),
            removed_legacy_count: self.removed_legacy_count.deep_view(),
            reclaimed_bytes: self.reclaimed_bytes.deep_view(),
            remaining_count: self.remaining_count.deep_view(),
            remaining_bytes: self.remaining_bytes.deep_view(),
            warnings: self.warnings.deep_view(),
        }
    }
}

impl Model for BackupCleanupResult {
    fn copy_of(&self) -> (r: Self) {
        BackupCleanupResult {
            removed_count: self.removed_count.copy_of(),
            removed_legacy_count: self.removed_legacy_count.copy_of(),
            reclaimed_bytes: self.reclaimed_bytes.copy_of(),
            remaining_count: self.remaining_count.copy_of(),
            remaining_bytes: self.remaining_bytes.copy_of(),
            warnings: self.warnings.copy_of(),
        }
    }

    fn same_as(&self, other: &Self) -> (r: bool) {
        self.removed_count.same_as(&other.removed_count)
            && self.removed_legacy_count.same_as(&other.removed_legacy_count)
            && self.reclaimed_bytes.same_as(&other.reclaimed_bytes)
            && self.remaining_count.same_as(&other.remaining_count)
            && self.remaining_bytes.same_as(&other.remaining_bytes)
            && self.warnings.same_as(&other.warnings)
    }
}

/// A backup that was made.
#[derive(Clone, Debug, PartialEq, Eq)]
pub struct BackupResult {
    pub path: String,
    pub files: Vec<String>,
    pub manifest: String,
    pub cleanup: Option<BackupCleanupResult>,
}

/// What a `BackupResult` stands for.
#[verifier::ext_equal]
pub struct BackupResultView {
    pub path: Seq<char>,
    pub files: Seq<Seq<char>>,
    pub manifest: Seq<char>,
    pub cleanup: Option<BackupCleanupResultView>,
}

impl DeepView for BackupResult {
    type V = BackupResultView;

    open spec fn deep_view(&self) -> BackupResultView {
        BackupResultView {
            path: self.path.deep_view(),
            files: self.files.deep_view(),
            manifest: self.manifest.deep_view(),
            cleanup: self.cleanup.deep_view(),
        }
    }
}

impl Model for BackupResult {
    fn copy_of(&self) -> (r: Self) {
        BackupResult {
            path: self.path.copy_of(),
            files: self.files.copy_of(),
            manifest: self.manifest.copy_of(),
            cleanup: self.cleanup.copy_of(),
        }
    }

    fn same_as(&self, other: &Self) -> (r: bool) {
        self.path.same_as(&other.path)
            && self.files.same_as(&other.files)
            && self.manifest.same_as(&other.manifest)
            && self.cleanup.same_as(&other.cleanup)
    }
}

/// The order of backups: latest first, those without a time last; then by name, descending.
#[derive(Clone, Debug, PartialEq, Eq)]
pub struct BackupOrder {
    pub seconds: Option<i64>,
    pub nanoseconds: u32,
    pub name: String,
}

/// What a `BackupOrder` stands for.
#[verifier::ext_equal]
pub struct BackupOrderView {
    pub seconds: Option<i64>,
    pub nanoseconds: u32,
    pub name: Seq<char>,
}

impl DeepView for BackupOrder {
    type V = BackupOrderView;

    open spec fn deep_view(&self) -> BackupOrderView {
        BackupOrderView {
            seconds: self.seconds.deep_view(),
            nanoseconds: self.nanoseconds.deep_view(),
            name: self.name.deep_view(),
        }
    }
}

impl Model for BackupOrder {
    fn copy_of(&self) -> (r: Self) {
        BackupOrder {
            seconds: self.seconds.copy_of(),
            nanoseconds: self.nanoseconds.copy_of(),
            name: self.name.copy_of(),
        }
    }

    fn same_as(&self, other: &Self) -> (r: bool) {
        self.seconds.same_as(&other.seconds)
            && self.nanoseconds.same_as(&other.nanoseconds)
            && self.name.same_as(&other.name)
    }
}

/// A group of backups.
#[derive(Clone, Copy, Debug, PartialEq, Eq, Structural)]
pub enum BackupGroup {
    All,
    /// Those that can be restored.
    Restorable,
    /// Those that can be restored and are not pinned.
    Automatic,
    Pinned,
    Legacy,
    /// Incomplete and corrupt ones.
    Incomplete,
}

impl DeepView for BackupGroup {
    type V = BackupGroup;

    open spec fn deep_view(&self) -> BackupGroup {
        *self
    }
}

impl Model for BackupGroup {
    fn copy_of(&self) -> (r: Self) {
        *self
    }

    fn same_as(&self, other: &Self) -> (r: bool) {
        *self == *other
    }
}

/// A decimal digit.
pub open spec fn is_digit(c: char) -> bool {
    '0' <= c <= '9'
}

/// Only decimal digits.
pub open spec fn all_digits(s: Seq<char>) -> bool {
    forall|i: int| 0 <= i < s.len() ==> is_digit(#[trigger] s[i])
}

/// Exactly so many decimal digits.
pub open spec fn digits(s: Seq<char>, length: nat) -> bool {
    s.len() == length && all_digits(s)
}

fn are_digits(s: &Vec<char>, from: usize, to: usize) -> (r: bool)
    requires
        from <= to <= s@.len(),
    ensures
        r == all_digits(s@.subrange(from as int, to as int)),
{
    let ghost part = s@.subrange(from as int, to as int);
    let mut i: usize = from;
    while i < to
        invariant
            from <= i <= to <= s@.len(),
            part == s@.subrange(from as int, to as int),
            forall|j: int| 0 <= j < i - from ==> is_digit(#[trigger] part[j]),
        decreases to - i,
    {
        let c = s[i];
        assert(part[i - from] == c);
        if !('0' <= c && c <= '9') {
            return false;
        }
        i += 1;
    }
    true
}

/// Whether a text is exactly so many decimal digits.
pub fn is_ascii_digits(value: &str, length: usize) -> (r: bool)
    ensures
        r == digits(value@, length as nat),
{
    let chars = chars_of(value);
    assert(chars@.subrange(0, chars@.len() as int) =~= chars@);
    chars.len() == length && are_digits(&chars, 0, chars.len())
}

/// The name of a finished backup: a date, a time and milliseconds.
pub open spec fn repair_name(name: Seq<char>) -> bool {
    match text::after_prefix(name, "repair-"@) {
        None => false,
        Some(stamp) => {
            &&& stamp.len() == 19
            &&& digits(stamp.subrange(0, 8), 8)
            &&& stamp[8] == '-'
            &&& digits(stamp.subrange(9, 15), 6)
            &&& stamp[15] == '-'
            &&& digits(stamp.subrange(16, 19), 3)
        },
    }
}

/// Whether a name is that of a finished backup.
pub fn is_repair_backup_name(name: &str) -> (r: bool)
    ensures
        r == repair_name(name@),
{
    match strip_prefix(name, "repair-") {
        None => false,
        Some(stamp) => {
            let chars = chars_of(stamp.as_str());
            chars.len() == 19 && are_digits(&chars, 0, 8) && chars[8] == '-' && are_digits(
                &chars,
                9,
                15,
            ) && chars[15] == '-' && are_digits(&chars, 16, 19)
        },
    }
}

/// The name of a directory that a restore keeps until it is done.
pub open spec fn restore_temporary_name(name: Seq<char>) -> bool {
    match text::after_prefix(name, ".restore-before-"@) {
        None => false,
        Some(stamp) => digits(stamp, 17),
    }
}

/// Whether a name is that of a directory that a restore keeps until it is done.
pub fn is_restore_temporary_name(name: &str) -> (r: bool)
    ensures
        r == restore_temporary_name(name@),
{
    match strip_prefix(name, ".restore-before-") {
        None => false,
        Some(stamp) => is_ascii_digits(stamp.as_str(), 17),
    }
}

/// The position of the last dash, or -1.
pub open spec fn last_dash(s: Seq<char>) -> int
    decreases s.len(),
{
    if s.len() == 0 {
        -1
    } else if s.last() == '-' {
        s.len() - 1
    } else {
        last_dash(s.drop_last())
    }
}

proof fn lemma_last_dash(s: Seq<char>)
    ensures
        -1 <= last_dash(s) < s.len(),
        last_dash(s) >= 0 ==> s[last_dash(s)] == '-',
        forall|i: int| last_dash(s) < i < s.len() ==> (#[trigger] s[i]) != '-',
    decreases s.len(),
{
    if s.len() > 0 && s.last() != '-' {
        lemma_last_dash(s.drop_last());
        assert forall|i: int| last_dash(s) < i < s.len() implies (#[trigger] s[i]) != '-' by {
            if i < s.len() - 1 {
                assert(s.drop_last()[i] == s[i]);
            }
        }
    }
}

proof fn lemma_last_dash_is(s: Seq<char>, at: int)
    requires
        -1 <= at < s.len(),
        at >= 0 ==> s[at] == '-',
        forall|i: int| at < i < s.len() ==> (#[trigger] s[i]) != '-',
    ensures
        last_dash(s) == at,
{
    lemma_last_dash(s);
    if last_dash(s) > at {
        assert(s[last_dash(s)] != '-');
    } else if last_dash(s) < at {
        assert(s[at] != '-');
    }
}

/// The name of a directory that is being removed: the name that it had, the process and a time.
pub open spec fn quarantine_name(name: Seq<char>) -> bool {
    match text::after_prefix(name, ".deleting-"@) {
        None => false,
        Some(rest) => {
            let second = last_dash(rest);
            let front = rest.take(second);
            let first = last_dash(front);
            &&& second >= 0
            &&& first >= 0
            &&& digits(rest.skip(second + 1), 17)
            &&& front.skip(first + 1).len() > 0
            &&& all_digits(front.skip(first + 1))
            &&& (repair_name(front.take(first)) || restore_temporary_name(front.take(first)))
        },
    }
}

fn find_last_dash(s: &Vec<char>, end: usize) -> (r: Option<usize>)
    requires
        end <= s@.len(),
    ensures
        match r {
            Some(at) => at < end && last_dash(s@.take(end as int)) == at,
            None => last_dash(s@.take(end as int)) == -1,
        },
{
    let ghost part = s@.take(end as int);
    let mut i: usize = end;
    while i > 0
        invariant
            i <= end <= s@.len(),
            part == s@.take(end as int),
            forall|j: int| i <= j < end ==> (#[trigger] part[j]) != '-',
        decreases i,
    {
        assert(part[i - 1] == s@[i - 1]);
        if s[i - 1] == '-' {
            proof {
                lemma_last_dash_is(part, i - 1);
            }
            return Some(i - 1);
        }
        i -= 1;
    }
    proof {
        lemma_last_dash_is(part, -1);
    }
    None
}

/// Whether a name is that of a directory that is being removed.
pub fn is_cleanup_quarantine_name(name: &str) -> (r: bool)
    ensures
        r == quarantine_name(name@),
{
    match strip_prefix(name, ".deleting-") {
        None => false,
        Some(rest) => {
            let chars = chars_of(rest.as_str());
            let ghost view = rest@;
            assert(view.take(view.len() as int) =~= view);
            match find_last_dash(&chars, chars.len()) {
                None => false,
                Some(second) => {
                    match find_last_dash(&chars, second) {
                        None => false,
                        Some(first) => {
                            let ghost front = view.take(second as int);
                            let original = text::substring(rest.as_str(), 0, first);
                            assert(original@ =~= front.take(first as int));
                            assert(view.subrange(second + 1, view.len() as int) =~= view.skip(
                                second + 1,
                            ));
                            assert(view.subrange(first + 1, second as int) =~= front.skip(
                                first + 1,
                            ));
                            chars.len() - (second + 1) == 17 && are_digits(
                                &chars,
                                second + 1,
                                chars.len(),
                            ) && second > first + 1 && are_digits(&chars, first + 1, second) && (
                            is_repair_backup_name(original.as_str()) || is_restore_temporary_name(
                                original.as_str(),
                            ))
                        },
                    }
                },
            }
        },
    }
}

/// The name of a directory that may have been left unfinished.
pub open spec fn unfinished_name(name: Seq<char>) -> bool {
    restore_temporary_name(name) || quarantine_name(name)
}

/// Whether a name is that of a directory that may have been left unfinished.
pub fn is_known_incomplete_backup_name(name: &str) -> (r: bool)
    ensures
        r == unfinished_name(name@),
{
    is_restore_temporary_name(name) || is_cleanup_quarantine_name(name)
}

/// A name that belongs to this program.
pub open spec fn managed_name(name: Seq<char>) -> bool {
    text::has_prefix(name, "repair-"@) || text::has_prefix(name, ".deleting-"@) || text::has_prefix(
        name,
        ".restore-before-"@,
    )
}

/// Whether a name belongs to this program.
pub fn is_managed_backup_name(name: &str) -> (r: bool)
    ensures
        r == managed_name(name@),
{
    starts_with(name, "repair-") || starts_with(name, ".deleting-") || starts_with(
        name,
        ".restore-before-",
    )
}

/// The name under which a backup is removed: its own where it is being removed already.
pub open spec fn removal_name(name: Seq<char>, process: u32, stamp: Seq<char>) -> Seq<char> {
    if text::has_prefix(name, ".deleting-"@) {
        name
    } else {
        ".deleting-"@ + name + "-"@ + text::decimal_text(process as nat) + "-"@ + stamp
    }
}

/// The name under which a backup is removed.
pub fn backup_removal_name(name: &str, process: u32, stamp: &str) -> (r: String)
    ensures
        r@ == removal_name(name@, process, stamp@),
{
    if starts_with(name, ".deleting-") {
        name.to_owned()
    } else {
        let process = decimal(process as u64);
        text::join6(".deleting-", name, "-", process.as_str(), "-", stamp)
    }
}

proof fn lemma_decimal_digits(value: nat)
    ensures
        all_digits(text::decimal_text(value)),
        text::decimal_text(value).len() > 0,
    decreases value,
{
    if value >= 10 {
        lemma_decimal_digits(value / 10);
        assert(text::decimal_text(value) == text::decimal_text(value / 10).push(
            text::digit(value % 10),
        ));
    }
}

/// A backup that is being removed is known as such, should its removal be interrupted.
pub proof fn law_removal_name_is_recognised(name: Seq<char>, process: u32, stamp: Seq<char>)
    requires
        repair_name(name) || restore_temporary_name(name),
        digits(stamp, 17),
    ensures
        quarantine_name(removal_name(name, process, stamp)),
        unfinished_name(removal_name(name, process, stamp)),
        managed_name(removal_name(name, process, stamp)),
{
    reveal_strlit(".deleting-");
    reveal_strlit("-");
    reveal_strlit("repair-");
    reveal_strlit(".restore-before-");
    let prefix = ".deleting-"@;
    let pid = text::decimal_text(process as nat);
    lemma_decimal_digits(process as nat);
    if text::has_prefix(name, prefix) {
        assert(name[0] == prefix[0] && name[1] == prefix[1]);
        if text::has_prefix(name, "repair-"@) {
            assert(name[0] == "repair-"@[0]);
        } else {
            assert(name[1] == ".restore-before-"@[1]);
        }
    }
    let whole = removal_name(name, process, stamp);
    let rest = name + "-"@ + pid + "-"@ + stamp;
    assert(whole =~= prefix + rest);
    assert(whole.take(prefix.len() as int) =~= prefix);
    assert(whole.skip(prefix.len() as int) =~= rest);
    assert(text::has_prefix(whole, prefix));
    let second: int = (name.len() + 1 + pid.len()) as int;
    assert(rest[second as int] == '-');
    assert forall|i: int| second < i < rest.len() implies (#[trigger] rest[i]) != '-' by {
        assert(rest[i] == stamp[i - second - 1]);
        assert(is_digit(stamp[i - second - 1]));
    }
    lemma_last_dash_is(rest, second as int);
    let front = rest.take(second as int);
    assert(front =~= name + "-"@ + pid);
    let first: int = name.len() as int;
    assert forall|i: int| first < i < front.len() implies (#[trigger] front[i]) != '-' by {
        assert(front[i] == pid[i - first - 1]);
        assert(is_digit(pid[i - first - 1]));
    }
    lemma_last_dash_is(front, first as int);
    assert(rest.skip(second + 1) =~= stamp);
    assert(front.skip(first + 1) =~= pid);
    assert(front.take(first as int) =~= name);
}

/// The manifest versions that can be restored.
pub open spec fn known_version(version: u32) -> bool {
    4 <= version <= 6
}

/// Checks the version of a manifest.
pub fn validate_backup_manifest_version(manifest: &BackupManifest) -> (r: Result<(), String>)
    ensures
        r is Ok <==> known_version(manifest.version),
        r is Err ==> r->Err_0@ == version_message(manifest.version),
{
    if manifest.version >= 4 && manifest.version <= 6 {
        Ok(())
    } else {
        let version = decimal(manifest.version as u64);
        Err(join2("unsupported backup manifest version: ", version.as_str()))
    }
}

/// The message for a manifest version that cannot be restored.
pub open spec fn version_message(version: u32) -> Seq<char> {
    "unsupported backup manifest version: "@ + text::decimal_text(version as nat)
}

/// The files that a manifest of some version backs up.
pub open spec fn expected_paths(version: u32) -> Set<Seq<char>> {
    if version == 6 {
        set!["state_5.sqlite"@]
    } else {
        set![".codex-global-state.json"@, "state_5.sqlite"@, "sqlite/codex-dev.db"@]
    }
}

/// The files that a manifest backs up.
pub open spec fn backed_up_paths(files: Seq<ManifestFileView>) -> Set<Seq<char>> {
    Set::new(
        |path: Seq<char>|
            exists|i: int|
                0 <= i < files.len() && (#[trigger] files[i]).backed_up && files[i].path == path,
    )
}

fn backs_up(files: &Vec<ManifestFile>, path: &str) -> (r: bool)
    ensures
        r == backed_up_paths(files.deep_view()).contains(path@),
{
    let ghost view = files.deep_view();
    let mut i: usize = 0;
    while i < files.len()
        invariant
            i <= files@.len(),
            view == files.deep_view(),
            forall|j: int| 0 <= j < i ==> !((#[trigger] view[j]).backed_up && view[j].path == path@),
        decreases files@.len() - i,
    {
        assert(view[i as int] == files@[i as int].deep_view());
        if files[i].backed_up && same(files[i].path.as_str(), path) {
            return true;
        }
        i += 1;
    }
    false
}

/// Every file that is backed up is expected.
pub open spec fn only_expected(files: Seq<ManifestFileView>, version: u32) -> bool {
    forall|i: int|
        0 <= i < files.len() && (#[trigger] files[i]).backed_up ==> expected_paths(
            version,
        ).contains(files[i].path)
}

fn backs_up_only_expected(files: &Vec<ManifestFile>, version: u32) -> (r: bool)
    ensures
        r == only_expected(files.deep_view(), version),
{
    let ghost view = files.deep_view();
    let mut i: usize = 0;
    while i < files.len()
        invariant
            i <= files@.len(),
            view == files.deep_view(),
            forall|j: int|
                0 <= j < i && (#[trigger] view[j]).backed_up ==> expected_paths(version).contains(
                    view[j].path,
                ),
        decreases files@.len() - i,
    {
        assert(view[i as int] == files@[i as int].deep_view());
        if files[i].backed_up {
            let path = files[i].path.as_str();
            let known = same(path, "state_5.sqlite") || (version != 6 && (same(
                path,
                ".codex-global-state.json",
            ) || same(path, "sqlite/codex-dev.db")));
            if !known {
                return false;
            }
        }
        i += 1;
    }
    true
}

/// Whether a manifest backs up exactly the files that its version asks for.
pub fn backs_up_expected(files: &Vec<ManifestFile>, version: u32) -> (r: bool)
    ensures
        r == (backed_up_paths(files.deep_view()) == expected_paths(version)),
{
    let ghost view = files.deep_view();
    let only = backs_up_only_expected(files, version);
    let state = backs_up(files, "state_5.sqlite");
    let rest = version == 6 || (backs_up(files, ".codex-global-state.json") && backs_up(
        files,
        "sqlite/codex-dev.db",
    ));
    proof {
        let found = backed_up_paths(view);
        let expected = expected_paths(version);
        if only && state && rest {
            assert forall|path: Seq<char>| found.contains(path) == expected.contains(path) by {
                if found.contains(path) {
                    let i = choose|i: int|
                        0 <= i < view.len() && (#[trigger] view[i]).backed_up && view[i].path
                            == path;
                    assert(expected.contains(view[i].path));
                }
            }
            assert(found =~= expected);
        } else if found == expected {
            assert forall|i: int|
                0 <= i < view.len() && (#[trigger] view[i]).backed_up implies
                expected.contains(
                view[i].path,
            ) by {
                assert(found.contains(view[i].path));
            }
            assert(only);
            assert(expected.contains("state_5.sqlite"@));
            assert(state);
        }
    }
    only && state && rest
}

/// A provider slot is empty or holds a safe id.
pub open spec fn safe_slot(slot: Option<Seq<char>>) -> bool {
    slot is Some ==> providers::safe_id(slot->0)
}

fn slot_is_safe(slot: &Option<String>) -> (r: bool)
    ensures
        r == safe_slot(slot.deep_view()),
{
    match slot {
        Some(id) => provider_id_is_safe(id.as_str()),
        None => true,
    }
}

/// A rollout of a manifest can be put back.
pub open spec fn preimage_valid(row: RepairRolloutJournalView, style: PathStyle) -> bool {
    &&& text::trimmed(row.thread_id).len() > 0
    &&& safe_slot(row.before_provider)
    &&& safe_slot(row.after_provider)
    &&& row.before_provider != row.after_provider
    &&& journal::archived_path(row.path, style) == Ok::<bool, Seq<char>>(row.archived)
}

fn preimage_is_valid(row: &RepairRolloutJournal, style: PathStyle) -> (r: bool)
    ensures
        r == preimage_valid(row.deep_view(), style),
{
    let archived = match rollout_path_from_relative(row.path.as_str(), style) {
        Ok(archived) => archived == row.archived,
        Err(_) => false,
    };
    !is_blank(row.thread_id.as_str()) && slot_is_safe(&row.before_provider) && slot_is_safe(
        &row.after_provider,
    ) && !row.before_provider.same_as(&row.after_provider) && archived
}

/// The observations fit a manifest.
pub open spec fn files_fit(files: BackupFilesView, manifest: BackupManifestView) -> bool {
    files.regular.len() == manifest.files.len()
}

/// Every rollout of a manifest can be put back.
pub open spec fn preimages_valid(
    rows: Seq<RepairRolloutJournalView>,
    style: PathStyle,
) -> bool {
    forall|i: int| 0 <= i < rows.len() ==> preimage_valid(#[trigger] rows[i], style)
}

/// Every file that is backed up has a digest and a regular copy.
pub open spec fn copies_valid(files: Seq<ManifestFileView>, regular: Seq<bool>) -> bool {
    forall|i: int|
        0 <= i < files.len() && (#[trigger] files[i]).backed_up ==> files[i].sha256 is Some
            && regular[i]
}

/// A backup holds what a restore needs.
pub open spec fn restorable(manifest: BackupManifestView, files: BackupFilesView) -> bool {
    &&& known_version(manifest.version)
    &&& backed_up_paths(manifest.files) == expected_paths(manifest.version)
    &&& manifest.projection_state_present ==> manifest.projection_state_sha256 is Some
        && files.projection_file
    &&& preimages_valid(manifest.rollout_provider_preimages, files.style)
    &&& copies_valid(manifest.files, files.regular)
}

/// Whether a backup holds what a restore needs.
pub fn is_restorable_backup(manifest: &BackupManifest, files: &BackupFiles) -> (r: bool)
    requires
        files_fit(files.deep_view(), manifest.deep_view()),
    ensures
        r == restorable(manifest.deep_view(), files.deep_view()),
{
    let ghost wanted = manifest.deep_view();
    let ghost found = files.deep_view();
    if manifest.version < 4 || manifest.version > 6 {
        return false;
    }
    if !backs_up_expected(&manifest.files, manifest.version) {
        return false;
    }
    if manifest.projection_state_present && !(manifest.projection_state_sha256.is_some()
        && files.projection_file) {
        return false;
    }
    let rows = &manifest.rollout_provider_preimages;
    let mut i: usize = 0;
    while i < rows.len()
        invariant
            i <= rows@.len(),
            wanted == manifest.deep_view(),
            found == files.deep_view(),
            files_fit(found, wanted),
            *rows == manifest.rollout_provider_preimages,
            forall|j: int|
                0 <= j < i ==> preimage_valid(
                    #[trigger] wanted.rollout_provider_preimages[j],
                    found.style,
                ),
        decreases rows@.len() - i,
    {
        assert(wanted.rollout_provider_preimages[i as int] == rows@[i as int].deep_view());
        if !preimage_is_valid(&rows[i], files.style) {
            return false;
        }
        i += 1;
    }
    let copies = &manifest.files;
    let mut k: usize = 0;
    while k < copies.len()
        invariant
            k <= copies@.len(),
            wanted == manifest.deep_view(),
            found == files.deep_view(),
            files_fit(found, wanted),
            *copies == manifest.files,
            forall|j: int|
                0 <= j < k && (#[trigger] wanted.files[j]).backed_up
                    ==> wanted.files[j].sha256 is Some && found.regular[j],
        decreases copies@.len() - k,
    {
        assert(wanted.files[k as int] == copies@[k as int].deep_view());
        assert(found.regular[k as int] == files.regular@[k as int]);
        if copies[k].backed_up && !(copies[k].sha256.is_some() && files.regular[k]) {
            return false;
        }
        k += 1;
    }
    true
}

/// When a backup was made: what its manifest says, else the time of its last change.
pub open spec fn created_at(manifest: ManifestReadView, modified: Option<Seq<char>>) -> Seq<char> {
    if manifest is Read && text::trimmed(manifest->Read_0.created_at).len() > 0 {
        text::trimmed(manifest->Read_0.created_at)
    } else {
        match modified {
            Some(time) => time,
            None => Seq::empty(),
        }
    }
}

/// When a backup was made.
pub fn backup_created_at(manifest: &ManifestRead, modified: &Option<String>) -> (r: String)
    ensures
        r@ == created_at(manifest.deep_view(), modified.deep_view()),
{
    match manifest {
        ManifestRead::Read(manifest) => {
            let time = trim(manifest.created_at.as_str());
            if !time.as_str().is_empty() {
                return time;
            }
        },
        _ => {},
    }
    match modified {
        Some(time) => time.copy_of(),
        None => {
            let empty = String::new();
            assert(empty@ =~= Seq::empty());
            empty
        },
    }
}

/// The observations of a directory fit its manifest.
pub open spec fn directory_fits(directory: BackupDirectoryView) -> bool {
    directory.manifest is Read ==> files_fit(directory.files, directory.manifest->Read_0)
}

/// The status of a backup, but for its size.
pub open spec fn status_of(directory: BackupDirectoryView) -> Seq<char> {
    match directory.manifest {
        ManifestReadView::Read(manifest) => if restorable(manifest, directory.files) {
            "restorable"@
        } else if !known_version(manifest.version) {
            "legacy"@
        } else {
            "corrupt"@
        },
        ManifestReadView::Invalid(_) => "corrupt"@,
        ManifestReadView::Missing => if unfinished_name(directory.name) {
            "incomplete"@
        } else {
            "corrupt"@
        },
    }
}

/// The backup in a directory.
pub open spec fn entry_of(directory: BackupDirectoryView) -> BackupEntryView {
    let manifest = directory.manifest;
    BackupEntryView {
        name: directory.name,
        path: directory.path,
        created_at: created_at(manifest, directory.modified),
        size_bytes: match directory.size {
            SizeReadView::Known(bytes) => bytes,
            SizeReadView::Failed(_) => 0,
        },
        provider: if manifest is Read {
            manifest->Read_0.provider
        } else {
            Seq::empty()
        },
        kind: if manifest is Read {
            manifest->Read_0.kind
        } else {
            BackupKind::Automatic
        },
        pinned: manifest is Read && manifest->Read_0.pinned,
        protected: directory.pending,
        protection_reason: if directory.pending {
            Some("pendingOperation"@)
        } else {
            None
        },
        restorable: directory.size is Known && manifest is Read && restorable(
            manifest->Read_0,
            directory.files,
        ),
        status: if directory.size is Known {
            status_of(directory)
        } else {
            "corrupt"@
        },
        manifest_version: if manifest is Read {
            Some(manifest->Read_0.version)
        } else {
            None
        },
    }
}

/// What is to be said of a directory.
pub open spec fn directory_warnings(directory: BackupDirectoryView) -> Seq<Seq<char>> {
    let first = match directory.manifest_error {
        Some(error) => Seq::empty().push(
            "cannot inspect backup manifest metadata ("@ + directory.manifest_path + "): "@ + error,
        ),
        None => Seq::empty(),
    };
    let second = match directory.manifest {
        ManifestReadView::Invalid(error) => first.push(
            "cannot parse backup manifest ("@ + directory.manifest_path + "): "@ + error,
        ),
        _ => first,
    };
    match directory.size {
        SizeReadView::Failed(error) => second.push(error),
        SizeReadView::Known(_) => second,
    }
}

fn find_entry(directory: &BackupDirectory) -> (r: BackupEntry)
    requires
        directory_fits(directory.deep_view()),
    ensures
        r.deep_view() == entry_of(directory.deep_view()),
{
    let known_size = match &directory.size {
        SizeRead::Known(_) => true,
        SizeRead::Failed(_) => false,
    };
    let size_bytes: u64 = match &directory.size {
        SizeRead::Known(bytes) => *bytes,
        SizeRead::Failed(_) => 0,
    };
    let created_at = backup_created_at(&directory.manifest, &directory.modified);
    let protection_reason: Option<String> = if directory.pending {
        Some("pendingOperation".to_owned())
    } else {
        None
    };
    match &directory.manifest {
        ManifestRead::Read(manifest) => {
            let complete = is_restorable_backup(manifest, &directory.files);
            let status = if !known_size {
                "corrupt"
            } else if complete {
                "restorable"
            } else if manifest.version < 4 || manifest.version > 6 {
                "legacy"
            } else {
                "corrupt"
            };
            BackupEntry {
                name: directory.name.copy_of(),
                path: directory.path.copy_of(),
                created_at,
                size_bytes,
                provider: manifest.provider.copy_of(),
                kind: manifest.kind,
                pinned: manifest.pinned,
                protected: directory.pending,
                protection_reason,
                restorable: known_size && complete,
                status: status.to_owned(),
                manifest_version: Some(manifest.version),
            }
        },
        other => {
            let missing = match other {
                ManifestRead::Missing => true,
                _ => false,
            };
            let status = if known_size && missing && is_known_incomplete_backup_name(
                directory.name.as_str(),
            ) {
                "incomplete"
            } else {
                "corrupt"
            };
            let provider = String::new();
            assert(provider@ =~= Seq::empty());
            BackupEntry {
                name: directory.name.copy_of(),
                path: directory.path.copy_of(),
                created_at,
                size_bytes,
                provider,
                kind: BackupKind::Automatic,
                pinned: false,
                protected: directory.pending,
                protection_reason,
                restorable: false,
                status: status.to_owned(),
                manifest_version: None,
            }
        },
    }
}

/// Adds a warning at the end.
pub fn push_text(out: &mut Vec<String>, message: String)
    ensures
        final(out).deep_view() == old(out).deep_view().push(message@),
{
    let ghost before = out.deep_view();
    let ghost added = message@;
    out.push(message);
    assert(out.deep_view() =~= before.push(added));
}

fn push_directory_warnings(out: &mut Vec<String>, directory: &BackupDirectory)
    ensures
        final(out).deep_view() == old(out).deep_view() + directory_warnings(directory.deep_view()),
{
    let ghost before = out.deep_view();
    match &directory.manifest_error {
        Some(error) => {
            push_text(
                out,
                join4(
                    "cannot inspect backup manifest metadata (",
                    directory.manifest_path.as_str(),
                    "): ",
                    error.as_str(),
                ),
            );
        },
        None => {},
    }
    match &directory.manifest {
        ManifestRead::Invalid(error) => {
            push_text(
                out,
                join4(
                    "cannot parse backup manifest (",
                    directory.manifest_path.as_str(),
                    "): ",
                    error.as_str(),
                ),
            );
        },
        _ => {},
    }
    match &directory.size {
        SizeRead::Failed(error) => {
            push_text(out, error.copy_of());
        },
        SizeRead::Known(_) => {},
    }
    assert(out.deep_view() =~= before + directory_warnings(directory.deep_view()));
}

/// The backups among what was found, in the order in which it was found.
pub open spec fn found_entries(items: Seq<BackupItemView>) -> Seq<BackupEntryView>
    decreases items.len(),
{
    if items.len() == 0 {
        Seq::empty()
    } else {
        let rest = found_entries(items.drop_last());
        match items.last() {
            BackupItemView::Directory(directory) => if managed_name(directory.name) {
                rest.push(entry_of(directory))
            } else {
                rest
            },
            _ => rest,
        }
    }
}

/// What is to be said of what was found.
pub open spec fn found_warnings(items: Seq<BackupItemView>) -> Seq<Seq<char>>
    decreases items.len(),
{
    if items.len() == 0 {
        Seq::empty()
    } else {
        let rest = found_warnings(items.drop_last());
        match items.last() {
            BackupItemView::Unreadable(error) => rest.push(
                "cannot inspect a backup entry: "@ + error,
            ),
            BackupItemView::Uninspectable { path, error } => rest.push(
                "cannot inspect backup metadata ("@ + path + "): "@ + error,
            ),
            BackupItemView::Other => rest,
            BackupItemView::Directory(directory) => if managed_name(directory.name) {
                rest + directory_warnings(directory)
            } else {
                rest
            },
        }
    }
}

impl Ordered for BackupOrder {
    open spec fn relation_of(a: BackupOrderView, b: BackupOrderView) -> Relation {
        match (a.seconds, b.seconds) {
            (Some(_), None) => Relation::Less,
            (None, Some(_)) => Relation::Greater,
            (Some(x), Some(y)) => if x != y {
                if x > y {
                    Relation::Less
                } else {
                    Relation::Greater
                }
            } else if a.nanoseconds != b.nanoseconds {
                if a.nanoseconds > b.nanoseconds {
                    Relation::Less
                } else {
                    Relation::Greater
                }
            } else {
                text::relation(b.name, a.name)
            },
            (None, None) => if a.nanoseconds != b.nanoseconds {
                if a.nanoseconds > b.nanoseconds {
                    Relation::Less
                } else {
                    Relation::Greater
                }
            } else {
                text::relation(b.name, a.name)
            },
        }
    }

    proof fn order_total(a: BackupOrderView, b: BackupOrderView) {
        text::lemma_relation(a.name, b.name);
        text::lemma_relation(b.name, a.name);
    }

    proof fn order_transitive(a: BackupOrderView, b: BackupOrderView, c: BackupOrderView) {
        if text::before(c.name, b.name) && text::before(b.name, a.name) {
            text::lemma_before_transitive(c.name, b.name, a.name);
        }
    }

    fn order(&self, other: &Self) -> (r: Relation) {
        match (self.seconds, other.seconds) {
            (Some(_), None) => Relation::Less,
            (None, Some(_)) => Relation::Greater,
            (Some(x), Some(y)) => {
                if x != y {
                    if x > y {
                        Relation::Less
                    } else {
                        Relation::Greater
                    }
                } else if self.nanoseconds != other.nanoseconds {
                    if self.nanoseconds > other.nanoseconds {
                        Relation::Less
                    } else {
                        Relation::Greater
                    }
                } else {
                    compare(other.name.as_str(), self.name.as_str())
                }
            },
            (None, None) => {
                if self.nanoseconds != other.nanoseconds {
                    if self.nanoseconds > other.nanoseconds {
                        Relation::Less
                    } else {
                        Relation::Greater
                    }
                } else {
                    compare(other.name.as_str(), self.name.as_str())
                }
            },
        }
    }
}

/// Where a backup stands among others, given the instant at which it was made.
pub open spec fn order_at(instant: Option<(i64, u32)>, name: Seq<char>) -> BackupOrderView {
    BackupOrderView {
        seconds: match instant {
            Some(time) => Some(time.0),
            None => None,
        },
        nanoseconds: match instant {
            Some(time) => time.1,
            None => 0,
        },
        name,
    }
}

/// Where a backup stands among others.
pub open spec fn order_of(entry: BackupEntryView) -> BackupOrderView {
    order_at(sessions::rfc3339_instant(entry.created_at), entry.name)
}

/// Backups with their places among others.
pub open spec fn with_order(entries: Seq<BackupEntryView>) -> Seq<
    (BackupOrderView, BackupEntryView),
> {
    entries.map_values(|entry: BackupEntryView| (order_of(entry), entry))
}

/// Backups, latest first.
pub open spec fn latest_first(entries: Seq<BackupEntryView>) -> Seq<BackupEntryView> {
    ordered::sorted_pairs::<BackupOrder, BackupEntryView>(with_order(entries)).map_values(
        |pair: (BackupOrderView, BackupEntryView)| pair.1,
    )
}

/// Sorts backups, latest first.
pub fn sort_backups(entries: &Vec<BackupEntry>) -> (r: Vec<BackupEntry>)
    ensures
        r.deep_view() == latest_first(entries.deep_view()),
{
    let ghost view = entries.deep_view();
    let mut pairs: Vec<(BackupOrder, BackupEntry)> = Vec::new();
    let mut i: usize = 0;
    while i < entries.len()
        invariant
            i <= entries@.len(),
            view == entries.deep_view(),
            pairs@.len() == i,
            forall|j: int|
                0 <= j < i ==> #[trigger] pairs@[j].deep_view() == (order_of(view[j]), view[j]),
        decreases entries@.len() - i,
    {
        let entry = &entries[i];
        assert(view[i as int] == entry.deep_view());
        let instant = parse_rfc3339(entry.created_at.as_str());
        let seconds: Option<i64> = match instant {
            Some(time) => Some(time.0),
            None => None,
        };
        let nanoseconds: u32 = match instant {
            Some(time) => time.1,
            None => 0,
        };
        let key = BackupOrder { seconds, nanoseconds, name: entry.name.copy_of() };
        pairs.push((key, entry.copy_of()));
        i += 1;
    }
    assert(pairs.deep_view() =~= with_order(view));
    let sorted = sort_pairs(pairs);
    let ghost shown = sorted.deep_view();
    let mut out: Vec<BackupEntry> = Vec::new();
    let mut k: usize = 0;
    while k < sorted.len()
        invariant
            k <= sorted@.len(),
            shown == sorted.deep_view(),
            out@.len() == k,
            forall|j: int| 0 <= j < k ==> #[trigger] out@[j].deep_view() == shown[j].1,
        decreases sorted@.len() - k,
    {
        assert(shown[k as int] == sorted@[k as int].deep_view());
        out.push(sorted[k].1.copy_of());
        k += 1;
    }
    assert(out.deep_view() =~= latest_first(view));
    out
}

/// A backup belongs to a group.
pub open spec fn in_group(entry: BackupEntryView, group: BackupGroup) -> bool {
    match group {
        BackupGroup::All => true,
        BackupGroup::Restorable => entry.restorable,
        BackupGroup::Automatic => entry.restorable && !entry.pinned,
        BackupGroup::Pinned => entry.pinned,
        BackupGroup::Legacy => entry.status == "legacy"@,
        BackupGroup::Incomplete => entry.status == "incomplete"@ || entry.status == "corrupt"@,
    }
}

/// The backups of a group, in their order.
pub open spec fn group_of(entries: Seq<BackupEntryView>, group: BackupGroup) -> Seq<
    BackupEntryView,
>
    decreases entries.len(),
{
    if entries.len() == 0 {
        Seq::empty()
    } else {
        let rest = group_of(entries.drop_last(), group);
        if in_group(entries.last(), group) {
            rest.push(entries.last())
        } else {
            rest
        }
    }
}

/// The bytes of backups.
pub open spec fn bytes_of(entries: Seq<BackupEntryView>) -> nat
    decreases entries.len(),
{
    if entries.len() == 0 {
        0
    } else {
        bytes_of(entries.drop_last()) + entries.last().size_bytes as nat
    }
}

fn is_in_group(entry: &BackupEntry, group: BackupGroup) -> (r: bool)
    ensures
        r == in_group(entry.deep_view(), group),
{
    match group {
        BackupGroup::All => true,
        BackupGroup::Restorable => entry.restorable,
        BackupGroup::Automatic => entry.restorable && !entry.pinned,
        BackupGroup::Pinned => entry.pinned,
        BackupGroup::Legacy => same(entry.status.as_str(), "legacy"),
        BackupGroup::Incomplete => same(entry.status.as_str(), "incomplete") || same(
            entry.status.as_str(),
            "corrupt",
        ),
    }
}

/// The backups of a group, in their order.
pub fn select_group(entries: &Vec<BackupEntry>, group: BackupGroup) -> (r: Vec<BackupEntry>)
    ensures
        r.deep_view() == group_of(entries.deep_view(), group),
{
    let ghost view = entries.deep_view();
    let mut out: Vec<BackupEntry> = Vec::new();
    let mut i: usize = 0;
    assert(out.deep_view() =~= group_of(view.take(0), group));
    while i < entries.len()
        invariant
            i <= entries@.len(),
            view == entries.deep_view(),
            out.deep_view() == group_of(view.take(i as int), group),
        decreases entries@.len() - i,
    {
        let ghost before = out.deep_view();
        assert(view[i as int] == entries@[i as int].deep_view());
        assert(view.take(i + 1).drop_last() =~= view.take(i as int));
        if is_in_group(&entries[i], group) {
            out.push(entries[i].copy_of());
            assert(out.deep_view() =~= before.push(view[i as int]));
        }
        i += 1;
    }
    assert(view.take(i as int) =~= view);
    out
}

proof fn lemma_bytes_of_prefix(entries: Seq<BackupEntryView>, n: int)
    requires
        0 <= n <= entries.len(),
    ensures
        bytes_of(entries.take(n)) <= bytes_of(entries),
    decreases entries.len(),
{
    if n == entries.len() {
        assert(entries.take(n) =~= entries);
    } else {
        lemma_bytes_of_prefix(entries.drop_last(), n);
        assert(entries.drop_last().take(n) =~= entries.take(n));
    }
}

/// A group takes no more bytes than all backups.
pub proof fn lemma_group_bytes(entries: Seq<BackupEntryView>, group: BackupGroup)
    ensures
        bytes_of(group_of(entries, group)) <= bytes_of(entries),
        group_of(entries, group).len() <= entries.len(),
    decreases entries.len(),
{
    if entries.len() > 0 {
        lemma_group_bytes(entries.drop_last(), group);
        let rest = group_of(entries.drop_last(), group);
        if in_group(entries.last(), group) {
            assert(rest.push(entries.last()).drop_last() =~= rest);
        }
    }
}

/// The bytes of backups.
pub fn count_bytes(entries: &Vec<BackupEntry>) -> (r: u64)
    requires
        bytes_of(entries.deep_view()) <= u64::MAX,
    ensures
        r == bytes_of(entries.deep_view()),
{
    let ghost view = entries.deep_view();
    let mut total: u64 = 0;
    let mut i: usize = 0;
    assert(view.take(0).len() == 0);
    while i < entries.len()
        invariant
            i <= entries@.len(),
            view == entries.deep_view(),
            bytes_of(view) <= u64::MAX,
            total == bytes_of(view.take(i as int)),
        decreases entries@.len() - i,
    {
        assert(view[i as int] == entries@[i as int].deep_view());
        assert(view.take(i + 1).drop_last() =~= view.take(i as int));
        proof {
            lemma_bytes_of_prefix(view, i + 1);
        }
        total += entries[i].size_bytes;
        i += 1;
    }
    assert(view.take(i as int) =~= view);
    total
}

/// The automatic backups, or all of them, take more than is allowed.
pub open spec fn over_limit(entries: Seq<BackupEntryView>) -> bool {
    let automatic = group_of(entries, BackupGroup::Automatic);
    ||| automatic.len() > AUTOMATIC_BACKUP_LIMIT
    ||| bytes_of(automatic) > BACKUP_CAPACITY_LIMIT_BYTES
    ||| bytes_of(entries) > BACKUP_CAPACITY_LIMIT_BYTES
}

/// `summary` describes the backups `entries`.
pub open spec fn summarizes(
    summary: BackupSummaryView,
    entries: Seq<BackupEntryView>,
    warnings: Seq<Seq<char>>,
) -> bool {
    &&& summary.entries == entries
    &&& summary.restorable_count == group_of(entries, BackupGroup::Restorable).len()
    &&& summary.automatic_count == group_of(entries, BackupGroup::Automatic).len()
    &&& summary.pinned_count == group_of(entries, BackupGroup::Pinned).len()
    &&& summary.legacy_count == group_of(entries, BackupGroup::Legacy).len()
    &&& summary.incomplete_count == group_of(entries, BackupGroup::Incomplete).len()
    &&& summary.total_bytes == bytes_of(entries)
    &&& summary.legacy_bytes == bytes_of(group_of(entries, BackupGroup::Legacy))
    &&& summary.automatic_limit == AUTOMATIC_BACKUP_LIMIT
    &&& summary.minimum_automatic == MINIMUM_AUTOMATIC_BACKUPS
    &&& summary.capacity_limit_bytes == BACKUP_CAPACITY_LIMIT_BYTES
    &&& summary.over_limit == over_limit(entries)
    &&& summary.warnings == warnings
}

/// Describes backups.
pub fn summarize_backups(entries: Vec<BackupEntry>, warnings: Vec<String>) -> (r: BackupSummary)
    requires
        bytes_of(entries.deep_view()) <= u64::MAX,
    ensures
        summarizes(r.deep_view(), entries.deep_view(), warnings.deep_view()),
{
    proof {
        lemma_group_bytes(entries.deep_view(), BackupGroup::Automatic);
        lemma_group_bytes(entries.deep_view(), BackupGroup::Legacy);
    }
    let automatic = select_group(&entries, BackupGroup::Automatic);
    let legacy = select_group(&entries, BackupGroup::Legacy);
    let restorable_count: usize = select_group(&entries, BackupGroup::Restorable).len();
    let automatic_count: usize = automatic.len();
    let pinned_count: usize = select_group(&entries, BackupGroup::Pinned).len();
    let legacy_count: usize = legacy.len();
    let incomplete_count: usize = select_group(&entries, BackupGroup::Incomplete).len();
    let total_bytes: u64 = count_bytes(&entries);
    let legacy_bytes: u64 = count_bytes(&legacy);
    let managed_bytes: u64 = count_bytes(&automatic);
    BackupSummary {
        entries,
        restorable_count,
        automatic_count,
        pinned_count,
        legacy_count,
        incomplete_count,
        total_bytes,
        legacy_bytes,
        automatic_limit: AUTOMATIC_BACKUP_LIMIT,
        minimum_automatic: MINIMUM_AUTOMATIC_BACKUPS,
        capacity_limit_bytes: BACKUP_CAPACITY_LIMIT_BYTES,
        over_limit: automatic_count > AUTOMATIC_BACKUP_LIMIT || managed_bytes
            > BACKUP_CAPACITY_LIMIT_BYTES || total_bytes > BACKUP_CAPACITY_LIMIT_BYTES,
        warnings,
    }
}

/// Everything that was found fits its manifest.
pub open spec fn items_fit(items: Seq<BackupItemView>) -> bool {
    forall|i: int|
        0 <= i < items.len() && (#[trigger] items[i]) is Directory ==> directory_fits(
            items[i]->Directory_0,
        )
}

proof fn lemma_placed_bytes(
    items: Seq<(BackupOrderView, BackupEntryView)>,
    item: (BackupOrderView, BackupEntryView),
)
    ensures
        bytes_of(
            ordered::placed::<BackupOrder, BackupEntryView>(items, item).map_values(
                |pair: (BackupOrderView, BackupEntryView)| pair.1,
            ),
        ) == bytes_of(
            items.map_values(|pair: (BackupOrderView, BackupEntryView)| pair.1),
        ) + item.1.size_bytes,
    decreases items.len(),
{
    let second = |pair: (BackupOrderView, BackupEntryView)| pair.1;
    let out = ordered::placed::<BackupOrder, BackupEntryView>(items, item);
    if items.len() == 0 || !(<BackupOrder as Ordered>::relation_of(item.0, items.last().0)
        == Relation::Less) {
        assert(out == items.push(item));
        assert(out.map_values(second).drop_last() =~= items.map_values(second));
    } else {
        let front = ordered::placed::<BackupOrder, BackupEntryView>(items.drop_last(), item);
        lemma_placed_bytes(items.drop_last(), item);
        assert(out.map_values(second).drop_last() =~= front.map_values(second));
        assert(out.map_values(second).last() == items.last().1);
        assert(items.map_values(second).drop_last() =~= items.drop_last().map_values(second));
    }
}

/// Sorting backups keeps their bytes.
pub proof fn lemma_sorted_bytes(entries: Seq<BackupEntryView>)
    ensures
        bytes_of(latest_first(entries)) == bytes_of(entries),
    decreases entries.len(),
{
    let second = |pair: (BackupOrderView, BackupEntryView)| pair.1;
    if entries.len() > 0 {
        lemma_sorted_bytes(entries.drop_last());
        let pairs = with_order(entries);
        assert(pairs.drop_last() =~= with_order(entries.drop_last()));
        lemma_placed_bytes(
            ordered::sorted_pairs::<BackupOrder, BackupEntryView>(pairs.drop_last()),
            pairs.last(),
        );
    }
}

/// Lists the backups among what was found: latest first, with what is to be said of them.
pub fn backup_summary_at(items: &Vec<BackupItem>) -> (r: BackupSummary)
    requires
        items_fit(items.deep_view()),
        bytes_of(found_entries(items.deep_view())) <= u64::MAX,
    ensures
        summarizes(
            r.deep_view(),
            latest_first(found_entries(items.deep_view())),
            found_warnings(items.deep_view()),
        ),
{
    let ghost view = items.deep_view();
    let mut entries: Vec<BackupEntry> = Vec::new();
    let mut warnings: Vec<String> = Vec::new();
    let mut i: usize = 0;
    assert(entries.deep_view() =~= found_entries(view.take(0)));
    assert(warnings.deep_view() =~= found_warnings(view.take(0)));
    while i < items.len()
        invariant
            i <= items@.len(),
            view == items.deep_view(),
            items_fit(view),
            entries.deep_view() == found_entries(view.take(i as int)),
            warnings.deep_view() == found_warnings(view.take(i as int)),
        decreases items@.len() - i,
    {
        assert(view[i as int] == items@[i as int].deep_view());
        assert(view.take(i + 1).drop_last() =~= view.take(i as int));
        let ghost before = entries.deep_view();
        match &items[i] {
            BackupItem::Unreadable(error) => {
                push_text(&mut warnings, join2("cannot inspect a backup entry: ", error.as_str()));
            },
            BackupItem::Uninspectable { path, error } => {
                push_text(
                    &mut warnings,
                    join4(
                        "cannot inspect backup metadata (",
                        path.as_str(),
                        "): ",
                        error.as_str(),
                    ),
                );
            },
            BackupItem::Other => {},
            BackupItem::Directory(directory) => {
                if is_managed_backup_name(directory.name.as_str()) {
                    assert(directory_fits(view[i as int]->Directory_0));
                    let entry = find_entry(directory);
                    let ghost added = entry.deep_view();
                    entries.push(entry);
                    assert(entries.deep_view() =~= before.push(added));
                    push_directory_warnings(&mut warnings, directory);
                }
            },
        }
        i += 1;
    }
    assert(view.take(i as int) =~= view);
    proof {
        lemma_sorted_bytes(entries.deep_view());
    }
    summarize_backups(sort_backups(&entries), warnings)
}

/// A backup whose copy was found faulty.
pub open spec fn faulty(entry: BackupEntryView) -> BackupEntryView {
    BackupEntryView { restorable: false, status: "corrupt"@, ..entry }
}

/// A restorable backup with a fault.
pub open spec fn has_fault(entry: BackupEntryView, faults: Map<Seq<char>, Seq<char>>) -> bool {
    entry.restorable && faults.dom().contains(entry.path)
}

/// The backups once those with a fault were marked.
pub open spec fn marked(
    entries: Seq<BackupEntryView>,
    faults: Map<Seq<char>, Seq<char>>,
) -> Seq<BackupEntryView> {
    entries.map_values(
        |entry: BackupEntryView|
            if has_fault(entry, faults) {
                faulty(entry)
            } else {
                entry
            },
    )
}

/// What is to be said of backups with a fault.
pub open spec fn fault_warnings(
    entries: Seq<BackupEntryView>,
    faults: Map<Seq<char>, Seq<char>>,
) -> Seq<Seq<char>>
    decreases entries.len(),
{
    if entries.len() == 0 {
        Seq::empty()
    } else {
        let rest = fault_warnings(entries.drop_last(), faults);
        let entry = entries.last();
        if has_fault(entry, faults) {
            rest.push(
                "backup failed surface validation ("@ + entry.path + "): "@ + faults[entry.path],
            )
        } else {
            rest
        }
    }
}

proof fn lemma_marked_bytes(entries: Seq<BackupEntryView>, faults: Map<Seq<char>, Seq<char>>)
    ensures
        bytes_of(marked(entries, faults)) == bytes_of(entries),
    decreases entries.len(),
{
    if entries.len() > 0 {
        lemma_marked_bytes(entries.drop_last(), faults);
        assert(marked(entries, faults).drop_last() =~= marked(entries.drop_last(), faults));
    }
}

/// The list of backups, those found faulty on the surface marked as such; `faults` gives what was
/// found of a backup by its path.
pub fn list_backups_at(summary: &BackupSummary, faults: &OrderedMap<String, String>) -> (r:
    BackupSummary)
    requires
        bytes_of(summary.deep_view().entries) <= u64::MAX,
    ensures
        summarizes(
            r.deep_view(),
            marked(summary.deep_view().entries, faults.deep_view()),
            summary.deep_view().warnings + fault_warnings(
                summary.deep_view().entries,
                faults.deep_view(),
            ),
        ),
{
    let ghost view = summary.entries.deep_view();
    let ghost known = faults.deep_view();
    let ghost said = summary.warnings.deep_view();
    let mut entries: Vec<BackupEntry> = Vec::new();
    let mut warnings: Vec<String> = summary.warnings.copy_of();
    let mut i: usize = 0;
    assert(warnings.deep_view() =~= said + fault_warnings(view.take(0), known));
    while i < summary.entries.len()
        invariant
            i <= summary.entries@.len(),
            view == summary.entries.deep_view(),
            known == faults.deep_view(),
            entries@.len() == i,
            forall|j: int|
                0 <= j < i ==> #[trigger] entries@[j].deep_view() == marked(view, known)[j],
            warnings.deep_view() == said + fault_warnings(view.take(i as int), known),
        decreases summary.entries@.len() - i,
    {
        let found = &summary.entries[i];
        assert(view[i as int] == found.deep_view());
        assert(view.take(i + 1).drop_last() =~= view.take(i as int));
        let mut entry = found.copy_of();
        if found.restorable {
            match faults.get(&found.path) {
                Some(error) => {
                    entry.restorable = false;
                    entry.status = "corrupt".to_owned();
                    push_text(
                        &mut warnings,
                        join4(
                            "backup failed surface validation (",
                            found.path.as_str(),
                            "): ",
                            error.as_str(),
                        ),
                    );
                },
                None => {},
            }
        }
        assert(warnings.deep_view() =~= said + fault_warnings(view.take(i + 1), known));
        assert(entry.deep_view() =~= marked(view, known)[i as int]);
        entries.push(entry);
        i += 1;
    }
    assert(view.take(i as int) =~= view);
    assert(entries.deep_view() =~= marked(view, known));
    proof {
        lemma_marked_bytes(view, known);
    }
    summarize_backups(entries, warnings)
}

/// The list of backups where there are none.
pub fn no_backups() -> (r: BackupSummary)
    ensures
        summarizes(r.deep_view(), Seq::empty(), Seq::empty()),
{
    let entries: Vec<BackupEntry> = Vec::new();
    let warnings: Vec<String> = Vec::new();
    assert(entries.deep_view() =~= Seq::empty());
    assert(warnings.deep_view() =~= Seq::empty());
    summarize_backups(entries, warnings)
}

/// Only what can be restored is listed as restorable, and a fault never makes a backup restorable.
pub proof fn law_listed_restorable_is_complete(
    directory: BackupDirectoryView,
    faults: Map<Seq<char>, Seq<char>>,
)
    ensures
        entry_of(directory).restorable ==> directory.manifest is Read && restorable(
            directory.manifest->Read_0,
            directory.files,
        ),
        faults.dom().contains(directory.path) ==> !marked(
            seq![entry_of(directory)],
            faults,
        )[0].restorable,
{
}

/// A backup can be restored exactly where its manifest has a known version, it holds the files of
/// that version and no other, each with a digest and a regular copy, the store of projections is
/// there with a digest if there was one, and each rollout provider can be put back.
pub proof fn law_restorable_holds_what_a_restore_needs(
    manifest: BackupManifestView,
    files: BackupFilesView,
)
    ensures
        restorable(manifest, files) ==> 4 <= manifest.version <= 6,
        restorable(manifest, files) ==> forall|i: int|
            0 <= i < manifest.files.len() && (#[trigger] manifest.files[i]).backed_up ==> {
                &&& manifest.files[i].sha256 is Some
                &&& files.regular[i]
                &&& manifest.files[i].path == "state_5.sqlite"@ || (manifest.version < 6 && (
                manifest.files[i].path == ".codex-global-state.json"@ || manifest.files[i].path
                    == "sqlite/codex-dev.db"@))
            },
        restorable(manifest, files) ==> exists|i: int|
            0 <= i < manifest.files.len() && (#[trigger] manifest.files[i]).backed_up
                && manifest.files[i].path == "state_5.sqlite"@,
        restorable(manifest, files) && manifest.version < 6 ==> exists|i: int|
            0 <= i < manifest.files.len() && (#[trigger] manifest.files[i]).backed_up
                && manifest.files[i].path == "sqlite/codex-dev.db"@,
        restorable(manifest, files) && manifest.version < 6 ==> exists|i: int|
            0 <= i < manifest.files.len() && (#[trigger] manifest.files[i]).backed_up
                && manifest.files[i].path == ".codex-global-state.json"@,
        restorable(manifest, files) && manifest.projection_state_present
            ==> manifest.projection_state_sha256 is Some && files.projection_file,
        restorable(manifest, files) ==> forall|i: int|
            0 <= i < manifest.rollout_provider_preimages.len() ==> {
                let row = #[trigger] manifest.rollout_provider_preimages[i];
                &&& text::trimmed(row.thread_id).len() > 0
                &&& row.before_provider != row.after_provider
                &&& row.before_provider is Some ==> providers::safe_id(row.before_provider->0)
                &&& row.after_provider is Some ==> providers::safe_id(row.after_provider->0)
                &&& journal::archived_path(row.path, files.style) == Ok::<bool, Seq<char>>(
                    row.archived,
                )
            },
        manifest.version == 6 && manifest.files.len() == 1 && manifest.files[0].backed_up
            && manifest.files[0].path == "state_5.sqlite"@ && manifest.files[0].sha256 is Some
            && files.regular[0] && !manifest.projection_state_present
            && manifest.rollout_provider_preimages.len() == 0 ==> restorable(manifest, files),
{
    let paths = backed_up_paths(manifest.files);
    if restorable(manifest, files) {
        assert forall|i: int|
            0 <= i < manifest.files.len() && (#[trigger] manifest.files[i]).backed_up implies (
        manifest.files[i].path == "state_5.sqlite"@ || (manifest.version < 6 && (
        manifest.files[i].path == ".codex-global-state.json"@ || manifest.files[i].path
            == "sqlite/codex-dev.db"@))) by {
            assert(paths.contains(manifest.files[i].path));
        }
        assert(paths.contains("state_5.sqlite"@));
        if manifest.version < 6 {
            assert(paths.contains("sqlite/codex-dev.db"@));
            assert(paths.contains(".codex-global-state.json"@));
        }
        assert forall|i: int| 0 <= i < manifest.rollout_provider_preimages.len() implies preimage_valid(
            #[trigger] manifest.rollout_provider_preimages[i],
            files.style,
        ) by {}
    }
    if manifest.version == 6 && manifest.files.len() == 1 && manifest.files[0].backed_up
        && manifest.files[0].path == "state_5.sqlite"@ {
        assert(paths =~= expected_paths(6)) by {
            assert forall|path: Seq<char>| paths.contains(path) <==> path == "state_5.sqlite"@ by {
                if path == "state_5.sqlite"@ {
                    assert(manifest.files[0].path == path);
                }
            }
        }
    }
}

/// A backup is listed as it stands in its directory: under the provider, kind and time of its
/// manifest, as restorable only where its size is known and it can be restored, as legacy where its
/// version is not known, as incomplete where it has no manifest and the name of something
/// unfinished, and as protected exactly while an operation needs it.
pub proof fn law_backup_is_listed_as_it_stands(directory: BackupDirectoryView)
    ensures
        ({
            let entry = entry_of(directory);
            let manifest = directory.manifest;
            let sized = directory.size is Known;
            &&& entry.name == directory.name
            &&& entry.path == directory.path
            &&& sized ==> entry.size_bytes == directory.size->Known_0
            &&& !sized ==> entry.size_bytes == 0 && entry.status == "corrupt"@ && !entry.restorable
            &&& manifest is Read ==> entry.provider == manifest->Read_0.provider && entry.kind
                == manifest->Read_0.kind && entry.pinned == manifest->Read_0.pinned
                && entry.manifest_version == Some(manifest->Read_0.version)
            &&& !(manifest is Read) ==> entry.manifest_version is None && !entry.pinned
                && !entry.restorable
            &&& manifest is Read && text::trimmed(manifest->Read_0.created_at).len() > 0
                ==> entry.created_at == text::trimmed(manifest->Read_0.created_at)
            &&& (!(manifest is Read) || text::trimmed(manifest->Read_0.created_at).len() == 0)
                && directory.modified is Some ==> entry.created_at == directory.modified->0
            &&& entry.protected == directory.pending
            &&& entry.protection_reason is Some <==> directory.pending
            &&& entry.restorable <==> sized && manifest is Read && restorable(
                manifest->Read_0,
                directory.files,
            )
            &&& entry.restorable ==> entry.status == "restorable"@
            &&& sized && manifest is Read && !(4 <= manifest->Read_0.version <= 6)
                ==> entry.status == "legacy"@
            &&& sized && manifest is Read && 4 <= manifest->Read_0.version <= 6
                && !entry.restorable ==> entry.status == "corrupt"@
            &&& sized && manifest is Invalid ==> entry.status == "corrupt"@
            &&& sized && manifest is Missing && unfinished_name(directory.name) ==> entry.status
                == "incomplete"@
            &&& sized && manifest is Missing && !unfinished_name(directory.name) ==> entry.status
                == "corrupt"@
        }),
{
}

/// The name of a backup is made of a date, a time and milliseconds, and everything that is made so is
/// one.
pub proof fn law_backup_names(date: Seq<char>, time: Seq<char>, milliseconds: Seq<char>)
    requires
        digits(date, 8),
        digits(time, 6),
        digits(milliseconds, 3),
    ensures
        repair_name("repair-"@ + date + "-"@ + time + "-"@ + milliseconds),
        restore_temporary_name(".restore-before-"@ + date + time + milliseconds),
        !repair_name(date + time + milliseconds),
{
    reveal_strlit("repair-");
    reveal_strlit("-");
    reveal_strlit(".restore-before-");
    let name = "repair-"@ + date + "-"@ + time + "-"@ + milliseconds;
    let stamp = date + "-"@ + time + "-"@ + milliseconds;
    assert(name.take(7) =~= "repair-"@);
    assert(name.skip(7) =~= stamp);
    assert(stamp.subrange(0, 8) =~= date);
    assert(stamp.subrange(9, 15) =~= time);
    assert(stamp.subrange(16, 19) =~= milliseconds);
    let kept = ".restore-before-"@ + date + time + milliseconds;
    assert(kept.take(16) =~= ".restore-before-"@);
    assert(kept.skip(16) =~= date + time + milliseconds);
    let bare = date + time + milliseconds;
    if text::has_prefix(bare, "repair-"@) {
        assert(bare.take(7)[0] == 'r');
        assert(bare[0] == date[0]);
        assert(is_digit(date[0]));
    }
}

proof fn lemma_group_members(entries: Seq<BackupEntryView>, group: BackupGroup, entry: BackupEntryView)
    ensures
        group_of(entries, group).contains(entry) <==> entries.contains(entry) && in_group(
            entry,
            group,
        ),
    decreases entries.len(),
{
    if entries.len() > 0 {
        let front = entries.drop_last();
        lemma_group_members(front, group, entry);
        assert(entries =~= front.push(entries.last()));
        sessions::lemma_push_contains(front, entries.last(), entry);
        sessions::lemma_push_contains(group_of(front, group), entries.last(), entry);
    }
}

/// A summary counts each backup in its groups: one more backup adds its size to the whole and one to
/// the restorable, pinned, legacy or unfinished ones as it is one; and there are too many where more
/// than five automatic ones are kept or more than 250 MiB.
pub proof fn law_summary_counts_each_backup(
    entries: Seq<BackupEntryView>,
    entry: BackupEntryView,
    group: BackupGroup,
)
    ensures
        bytes_of(entries.push(entry)) == bytes_of(entries) + entry.size_bytes,
        group_of(entries.push(entry), group).len() == group_of(entries, group).len() + (if in_group(
            entry,
            group,
        ) {
            1nat
        } else {
            0nat
        }),
        in_group(entry, BackupGroup::Restorable) <==> entry.restorable,
        in_group(entry, BackupGroup::Automatic) <==> entry.restorable && !entry.pinned,
        in_group(entry, BackupGroup::Pinned) <==> entry.pinned,
        in_group(entry, BackupGroup::Legacy) <==> entry.status == "legacy"@,
        in_group(entry, BackupGroup::Incomplete) <==> entry.status == "incomplete"@ || entry.status
            == "corrupt"@,
        in_group(entry, BackupGroup::All),
        over_limit(entries) <==> group_of(entries, BackupGroup::Automatic).len() > 5 || bytes_of(
            group_of(entries, BackupGroup::Automatic),
        ) > 250 * 1024 * 1024 || bytes_of(entries) > 250 * 1024 * 1024,
        group_of(entries, group).contains(entry) <==> entries.contains(entry) && in_group(
            entry,
            group,
        ),
{
    assert(entries.push(entry).drop_last() =~= entries);
    lemma_group_members(entries, group, entry);
}

/// Backups are listed latest first: every backup is listed, and none before one that was made later.
pub proof fn law_backups_are_listed_latest_first(entries: Seq<BackupEntryView>)
    ensures
        ({
            let listed = latest_first(entries);
            &&& listed.len() == entries.len()
            &&& forall|entry: BackupEntryView| #[trigger]
                listed.contains(entry) <==> entries.contains(entry)
            &&& forall|i: int, j: int|
                0 <= i < j < listed.len() ==> {
                    let earlier = sessions::rfc3339_instant((#[trigger] listed[i]).created_at);
                    let later = sessions::rfc3339_instant((#[trigger] listed[j]).created_at);
                    &&& later is Some ==> earlier is Some
                    &&& later is Some ==> (earlier->0).0 > (later->0).0 || ((earlier->0).0 == (
                    later->0).0 && (earlier->0).1 >= (later->0).1)
                }
        }),
{
    let pairs = with_order(entries);
    let sorted = ordered::sorted_pairs::<BackupOrder, BackupEntryView>(pairs);
    let listed = latest_first(entries);
    ordered::lemma_sorted_pairs::<BackupOrder, BackupEntryView>(pairs);
    assert forall|entry: BackupEntryView| #[trigger]
        listed.contains(entry) <==> entries.contains(entry) by {
        ordered::lemma_sorted_holds::<BackupOrder, BackupEntryView>(pairs, (order_of(entry), entry));
        if entries.contains(entry) {
            let i = choose|i: int| 0 <= i < entries.len() && entries[i] == entry;
            assert(pairs[i] == (order_of(entry), entry));
            let k = choose|k: int| 0 <= k < sorted.len() && sorted[k] == (order_of(entry), entry);
            assert(listed[k] == entry);
        }
        if listed.contains(entry) {
            let k = choose|k: int| 0 <= k < listed.len() && listed[k] == entry;
            assert(pairs.contains(sorted[k]));
            let i = choose|i: int| 0 <= i < pairs.len() && pairs[i] == sorted[k];
            assert(entries[i] == entry);
        }
    }
    assert forall|i: int, j: int| 0 <= i < j < listed.len() implies ({
        let earlier = sessions::rfc3339_instant((#[trigger] listed[i]).created_at);
        let later = sessions::rfc3339_instant((#[trigger] listed[j]).created_at);
        &&& later is Some ==> earlier is Some
        &&& later is Some ==> (earlier->0).0 > (later->0).0 || ((earlier->0).0 == (later->0).0 && (
        earlier->0).1 >= (later->0).1)
    }) by {
        assert(BackupOrder::relation_of(sorted[j].0, sorted[i].0) != Relation::Less);
        assert(pairs.contains(sorted[i]) && pairs.contains(sorted[j]));
        let a = choose|a: int| 0 <= a < pairs.len() && pairs[a] == sorted[i];
        let b = choose|b: int| 0 <= b < pairs.len() && pairs[b] == sorted[j];
        assert(sorted[i].0 == order_of(listed[i]));
        assert(sorted[j].0 == order_of(listed[j]));
    }
}

/// What is found among the backups is listed exactly where it is a directory with a name of this
/// program.
pub proof fn law_found_backups_are_listed(items: Seq<BackupItemView>, item: BackupItemView)
    ensures
        found_entries(Seq::empty()).len() == 0,
        item is Directory && managed_name(item->Directory_0.name) ==> found_entries(
            items.push(item),
        ) == found_entries(items).push(entry_of(item->Directory_0)),
        !(item is Directory && managed_name(item->Directory_0.name)) ==> found_entries(
            items.push(item),
        ) == found_entries(items),
        item is Unreadable || item is Uninspectable ==> found_warnings(items.push(item)).len()
            == found_warnings(items).len() + 1,
        item is Other ==> found_warnings(items.push(item)) == found_warnings(items),
{
    assert(items.push(item).drop_last() =~= items);
}

/// What may have been left unfinished has a name that says so: one that a restore keeps ends in the
/// seventeen digits of a time; one that is being removed begins as such, ends in a process and a
/// time, and has the name of a backup between; every such name, and that of every backup, is one of
/// this program.
pub proof fn law_names_tell_what_was_left(name: Seq<char>)
    ensures
        restore_temporary_name(name) ==> text::has_prefix(name, ".restore-before-"@) && digits(
            name.skip(".restore-before-"@.len() as int),
            17,
        ),
        quarantine_name(name) ==> text::has_prefix(name, ".deleting-"@),
        quarantine_name(name) ==> exists|own: Seq<char>, process: Seq<char>, stamp: Seq<char>|
            #![trigger digits(stamp, 17), all_digits(process), own.len()]
            name == ".deleting-"@ + own + "-"@ + process + "-"@ + stamp && digits(stamp, 17)
                && all_digits(process) && process.len() > 0 && (repair_name(own)
                || restore_temporary_name(own)),
        unfinished_name(name) <==> restore_temporary_name(name) || quarantine_name(name),
        repair_name(name) || unfinished_name(name) ==> managed_name(name),
        managed_name(name) <==> text::has_prefix(name, "repair-"@) || text::has_prefix(
            name,
            ".deleting-"@,
        ) || text::has_prefix(name, ".restore-before-"@),
{
    if quarantine_name(name) {
        reveal_strlit("-");
        let rest = text::after_prefix(name, ".deleting-"@)->0;
        let second = last_dash(rest);
        lemma_dash(rest);
        let front = rest.take(second);
        let first = last_dash(front);
        lemma_dash(front);
        let own = front.take(first);
        let process = front.skip(first + 1);
        let stamp = rest.skip(second + 1);
        let n = ".deleting-"@.len() as int;
        assert(name =~= name.take(n) + name.skip(n));
        assert(front =~= own + "-"@ + process);
        assert(rest =~= front + "-"@ + stamp);
        assert(name =~= ".deleting-"@ + own + "-"@ + process + "-"@ + stamp);
        assert(digits(stamp, 17) && all_digits(process) && own.len() >= 0);
    }
}

proof fn lemma_dash(s: Seq<char>)
    ensures
        -1 <= last_dash(s) < s.len(),
        last_dash(s) >= 0 ==> s[last_dash(s)] == '-',
    decreases s.len(),
{
    if s.len() > 0 && s.last() != '-' {
        let front = s.drop_last();
        lemma_dash(front);
        if last_dash(front) >= 0 {
            assert(front[last_dash(front)] == s[last_dash(front)]);
        }
    }
}

} // verus!

//! Making a backup: the space that it needs, and its manifest.

use crate::backups;
use crate::backups::{
    push_text, BackupKind, BackupManifest, BackupManifestView, BackupResult, BackupResultView,
    ManifestFile, ManifestFileView, SizeRead, SizeReadView,
};
use crate::journal;
use crate::journal::{
    show_slot, sort_rollout_rows, PendingOperation, PendingOperationView, RepairRolloutJournal,
    RepairRolloutJournalView,
};
use crate::model;
use crate::model::Model;
use crate::ordered::OrderedMap;
use crate::planning::{RolloutUpdate, RolloutUpdateView};
use crate::processes::{BlockingProcess, BlockingProcessView};
use crate::providers;
use crate::providers::utf8_len;
use crate::recovery;
use crate::recovery::join_all;
use crate::text;
use crate::text::{decimal, join2, join3, join4, same};
use vstd::prelude::*;

verus! {

/// How many bytes stay free beside a backup.
pub const BACKUP_FREE_SPACE_RESERVE_BYTES: u64 = 67108864;

/// How far a backup on request has come.
#[derive(Clone, Copy, Debug, PartialEq, Eq, Structural)]
pub enum SafeBackupStage {
    /// The lock is not held yet.
    Unlocked,
    /// The lock is held.
    Locked,
    /// The backup was made.
    Made,
}

impl DeepView for SafeBackupStage {
    type V = SafeBackupStage;

    open spec fn deep_view(&self) -> SafeBackupStage {
        *self
    }
}

impl Model for SafeBackupStage {
    fn copy_of(&self) -> (r: Self) {
        *self
    }

    fn same_as(&self, other: &Self) -> (r: bool) {
        *self == *other
    }
}

/// What became of the copy of the session database.
#[derive(Clone, Debug, PartialEq, Eq)]
pub enum StateCopy {
    /// There is no such database.
    Missing,
    /// It cannot be opened: why.
    Unreadable(String),
    /// Its tables are not the known ones: why.
    Unknown(String),
    /// It could not be copied: why.
    Failed(String),
    Copied,
}

/// What a `StateCopy` stands for.
#[verifier::ext_equal]
pub enum StateCopyView {
    Missing,
    Unreadable(Seq<char>),
    Unknown(Seq<char>),
    Failed(Seq<char>),
    Copied,
}

impl DeepView for StateCopy {
    type V = StateCopyView;

    open spec fn deep_view(&self) -> StateCopyView {
        match self {
            StateCopy::Missing => StateCopyView::Missing,
            StateCopy::Unreadable(value) => StateCopyView::Unreadable(value.deep_view()),
            StateCopy::Unknown(value) => StateCopyView::Unknown(value.deep_view()),
            StateCopy::Failed(value) => StateCopyView::Failed(value.deep_view()),
            StateCopy::Copied => StateCopyView::Copied,
        }
    }
}

impl Model for StateCopy {
    fn copy_of(&self) -> (r: Self) {
        match self {
            StateCopy::Missing => StateCopy::Missing,
            StateCopy::Unreadable(value) => StateCopy::Unreadable(value.copy_of()),
            StateCopy::Unknown(value) => StateCopy::Unknown(value.copy_of()),
            StateCopy::Failed(value) => StateCopy::Failed(value.copy_of()),
            StateCopy::Copied => StateCopy::Copied,
        }
    }

    fn same_as(&self, other: &Self) -> (r: bool) {
        match (self, other) {
            (StateCopy::Missing, StateCopy::Missing) => true,
            (StateCopy::Unreadable(value_l), StateCopy::Unreadable(value_r)) => value_l.same_as(value_r),
            (StateCopy::Unknown(value_l), StateCopy::Unknown(value_r)) => value_l.same_as(value_r),
            (StateCopy::Failed(value_l), StateCopy::Failed(value_r)) => value_l.same_as(value_r),
            (StateCopy::Copied, StateCopy::Copied) => true,
            _ => false,
        }
    }
}

/// What became of the copy of the store of projections.
#[derive(Clone, Debug, PartialEq, Eq)]
pub enum ProjectionCopy {
    /// There is no such file.
    Missing,
    /// It is no regular file.
    NotRegular,
    /// It could not be copied: why.
    Failed(String),
    /// The copy could not be read.
    Unhashed,
    /// It was copied; its digest.
    Copied(String),
}

/// What a `ProjectionCopy` stands for.
#[verifier::ext_equal]
pub enum ProjectionCopyView {
    Missing,
    NotRegular,
    Failed(Seq<char>),
    Unhashed,
    Copied(Seq<char>),
}

impl DeepView for ProjectionCopy {
    type V = ProjectionCopyView;

    open spec fn deep_view(&self) -> ProjectionCopyView {
        match self {
            ProjectionCopy::Missing => ProjectionCopyView::Missing,
            ProjectionCopy::NotRegular => ProjectionCopyView::NotRegular,
            ProjectionCopy::Failed(value) => ProjectionCopyView::Failed(value.deep_view()),
            ProjectionCopy::Unhashed => ProjectionCopyView::Unhashed,
            ProjectionCopy::Copied(value) => ProjectionCopyView::Copied(value.deep_view()),
        }
    }
}

impl Model for ProjectionCopy {
    fn copy_of(&self) -> (r: Self) {
        match self {
            ProjectionCopy::Missing => ProjectionCopy::Missing,
            ProjectionCopy::NotRegular => ProjectionCopy::NotRegular,
            ProjectionCopy::Failed(value) => ProjectionCopy::Failed(value.copy_of()),
            ProjectionCopy::Unhashed => ProjectionCopy::Unhashed,
            ProjectionCopy::Copied(value) => ProjectionCopy::Copied(value.copy_of()),
        }
    }

    fn same_as(&self, other: &Self) -> (r: bool) {
        match (self, other) {
            (ProjectionCopy::Missing, ProjectionCopy::Missing) => true,
            (ProjectionCopy::NotRegular, ProjectionCopy::NotRegular) => true,
            (ProjectionCopy::Failed(value_l), ProjectionCopy::Failed(value_r)) => value_l.same_as(value_r),
            (ProjectionCopy::Unhashed, ProjectionCopy::Unhashed) => true,
            (ProjectionCopy::Copied(value_l), ProjectionCopy::Copied(value_r)) => value_l.same_as(value_r),
            _ => false,
        }
    }
}

/// A file that a manifest lists.
#[derive(Clone, Debug, PartialEq, Eq)]
pub struct FoundFile {
    /// Its path below the home.
    pub relative: String,
    /// The path of what is recorded: of its copy, or of itself.
    pub recorded: String,
    pub size: SizeRead,
    pub modified: Option<String>,
    pub sha256: Option<String>,
}

/// What a `FoundFile` stands for.
#[verifier::ext_equal]
pub struct FoundFileView {
    pub relative: Seq<char>,
    pub recorded: Seq<char>,
    pub size: SizeReadView,
    pub modified: Option<Seq<char>>,
    pub sha256: Option<Seq<char>>,
}

impl DeepView for FoundFile {
    type V = FoundFileView;

    open spec fn deep_view(&self) -> FoundFileView {
        FoundFileView {
            relative: self.relative.deep_view(),
            recorded: self.recorded.deep_view(),
            size: self.size.deep_view(),
            modified: self.modified.deep_view(),
            sha256: self.sha256.deep_view(),
        }
    }
}

impl Model for FoundFile {
    fn copy_of(&self) -> (r: Self) {
        FoundFile {
            relative: self.relative.copy_of(),
            recorded: self.recorded.copy_of(),
            size: self.size.copy_of(),
            modified: self.modified.copy_of(),
            sha256: self.sha256.copy_of(),
        }
    }

    fn same_as(&self, other: &Self) -> (r: bool) {
        self.relative.same_as(&other.relative)
            && self.recorded.same_as(&other.recorded)
            && self.size.same_as(&other.size)
            && self.modified.same_as(&other.modified)
            && self.sha256.same_as(&other.sha256)
    }
}

/// What was read of a rollout that a repair is to change.
#[derive(Clone, Debug, PartialEq, Eq)]
pub enum SlotRead {
    /// It cannot be used: why.
    Refused(String),
    /// Its provider.
    Provider(Option<String>),
}

/// What a `SlotRead` stands for.
#[verifier::ext_equal]
pub enum SlotReadView {
    Refused(Seq<char>),
    Provider(Option<Seq<char>>),
}

impl DeepView for SlotRead {
    type V = SlotReadView;

    open spec fn deep_view(&self) -> SlotReadView {
        match self {
            SlotRead::Refused(value) => SlotReadView::Refused(value.deep_view()),
            SlotRead::Provider(value) => SlotReadView::Provider(value.deep_view()),
        }
    }
}

impl Model for SlotRead {
    fn copy_of(&self) -> (r: Self) {
        match self {
            SlotRead::Refused(value) => SlotRead::Refused(value.copy_of()),
            SlotRead::Provider(value) => SlotRead::Provider(value.copy_of()),
        }
    }

    fn same_as(&self, other: &Self) -> (r: bool) {
        match (self, other) {
            (SlotRead::Refused(value_l), SlotRead::Refused(value_r)) => value_l.same_as(value_r),
            (SlotRead::Provider(value_l), SlotRead::Provider(value_r)) => value_l.same_as(value_r),
            _ => false,
        }
    }
}

/// What a backup is made from.
#[derive(Debug, PartialEq, Eq)]
pub struct SnapshotSource {
    pub home: String,
    pub state_path: String,
    pub state: StateCopy,
    pub projection_path: String,
    pub projection_copy_path: String,
    pub projection: ProjectionCopy,
    pub files: Vec<FoundFile>,
    /// The version that the session database gives itself.
    pub user_version: Option<i64>,
    /// The rollouts that the repair is to change.
    pub rollouts: Vec<RepairRolloutJournal>,
    /// What was read of them, by path.
    pub slots: OrderedMap<String, SlotRead>,
    pub provider: String,
    pub created_at: String,
    /// The directory of the backup, and its manifest.
    pub destination: String,
    pub manifest_path: String,
}

/// What a `SnapshotSource` stands for.
#[verifier::ext_equal]
pub struct SnapshotSourceView {
    pub home: Seq<char>,
    pub state_path: Seq<char>,
    pub state: StateCopyView,
    pub projection_path: Seq<char>,
    pub projection_copy_path: Seq<char>,
    pub projection: ProjectionCopyView,
    pub files: Seq<FoundFileView>,
    pub user_version: Option<i64>,
    pub rollouts: Seq<RepairRolloutJournalView>,
    pub slots: Map<Seq<char>, SlotReadView>,
    pub provider: Seq<char>,
    pub created_at: Seq<char>,
    pub destination: Seq<char>,
    pub manifest_path: Seq<char>,
}

impl DeepView for SnapshotSource {
    type V = SnapshotSourceView;

    open spec fn deep_view(&self) -> SnapshotSourceView {
        SnapshotSourceView {
            home: self.home.deep_view(),
            state_path: self.state_path.deep_view(),
            state: self.state.deep_view(),
            projection_path: self.projection_path.deep_view(),
            projection_copy_path: self.projection_copy_path.deep_view(),
            projection: self.projection.deep_view(),
            files: self.files.deep_view(),
            user_version: self.user_version.deep_view(),
            rollouts: self.rollouts.deep_view(),
            slots: self.slots.deep_view(),
            provider: self.provider.deep_view(),
            created_at: self.created_at.deep_view(),
            destination: self.destination.deep_view(),
            manifest_path: self.manifest_path.deep_view(),
        }
    }
}

impl Model for SnapshotSource {
    fn copy_of(&self) -> (r: Self) {
        SnapshotSource {
            home: self.home.copy_of(),
            state_path: self.state_path.copy_of(),
            state: self.state.copy_of(),
            projection_path: self.projection_path.copy_of(),
            projection_copy_path: self.projection_copy_path.copy_of(),
            projection: self.projection.copy_of(),
            files: self.files.copy_of(),
            user_version: self.user_version.copy_of(),
            rollouts: self.rollouts.copy_of(),
            slots: self.slots.copy_of(),
            provider: self.provider.copy_of(),
            created_at: self.created_at.copy_of(),
            destination: self.destination.copy_of(),
            manifest_path: self.manifest_path.copy_of(),
        }
    }

    fn same_as(&self, other: &Self) -> (r: bool) {
        self.home.same_as(&other.home)
            && self.state_path.same_as(&other.state_path)
            && self.state.same_as(&other.state)
            && self.projection_path.same_as(&other.projection_path)
            && self.projection_copy_path.same_as(&other.projection_copy_path)
            && self.projection.same_as(&other.projection)
            && self.files.same_as(&other.files)
            && self.user_version.same_as(&other.user_version)
            && self.rollouts.same_as(&other.rollouts)
            && self.slots.same_as(&other.slots)
            && self.provider.same_as(&other.provider)
            && self.created_at.same_as(&other.created_at)
            && self.destination.same_as(&other.destination)
            && self.manifest_path.same_as(&other.manifest_path)
    }
}

/// A number of bytes, the largest that can be told where there are more.
pub open spec fn clamped(bytes: nat) -> u64 {
    if bytes > u64::MAX {
        u64::MAX
    } else {
        bytes as u64
    }
}

/// The bytes of a text.
pub open spec fn text_bytes(text: Seq<char>) -> nat {
    providers::utf8(text).len()
}

/// The bytes of a text that may be absent.
pub open spec fn slot_bytes(slot: Option<Seq<char>>) -> nat {
    match slot {
        Some(text) => text_bytes(text),
        None => 0,
    }
}

/// The bytes that the files take in a manifest.
pub open spec fn file_rows_bytes(paths: Seq<Seq<char>>) -> nat
    decreases paths.len(),
{
    if paths.len() == 0 {
        0
    } else {
        file_rows_bytes(paths.drop_last()) + (text_bytes(paths.last()) + 512)
    }
}

/// The bytes that a rollout takes in a manifest.
pub open spec fn rollout_row_bytes(update: RolloutUpdateView, relative: Seq<char>) -> nat {
    512 + text_bytes(update.thread_id) + text_bytes(relative) + (slot_bytes(
        update.expected_provider,
    ) + slot_bytes(update.provider))
}

/// The bytes that the first `n` rollouts take in a manifest.
pub open spec fn rollout_rows_bytes(
    updates: Seq<RolloutUpdateView>,
    relatives: Seq<Seq<char>>,
    n: nat,
) -> nat
    decreases n,
{
    if n == 0 {
        0
    } else {
        rollout_rows_bytes(updates, relatives, (n - 1) as nat) + rollout_row_bytes(
            updates[n - 1],
            relatives[n - 1],
        )
    }
}

fn count_slot_bytes(slot: &Option<String>) -> (r: u64)
    ensures
        r == slot_bytes(slot.deep_view()),
{
    match slot {
        Some(text) => utf8_len(text.as_str()) as u64,
        None => 0,
    }
}

/// The bytes that a manifest may take; `relatives` are the paths of the rollouts below the home.
pub fn estimate_manifest_bytes(
    paths: &Vec<String>,
    updates: &Vec<RolloutUpdate>,
    relatives: &Vec<String>,
) -> (r: u64)
    requires
        relatives@.len() == updates@.len(),
    ensures
        r == clamped(
            65536 + file_rows_bytes(paths.deep_view()) + rollout_rows_bytes(
                updates.deep_view(),
                relatives.deep_view(),
                updates@.len(),
            ),
        ),
{
    let ghost files = paths.deep_view();
    let ghost rows = updates.deep_view();
    let ghost names = relatives.deep_view();
    let mut file_rows: u64 = 0;
    let mut i: usize = 0;
    assert(files.take(0).len() == 0);
    while i < paths.len()
        invariant
            i <= paths@.len(),
            files == paths.deep_view(),
            file_rows == clamped(file_rows_bytes(files.take(i as int))),
        decreases paths@.len() - i,
    {
        assert(files[i as int] == paths@[i as int]@);
        assert(files.take(i + 1).drop_last() =~= files.take(i as int));
        let length: u64 = utf8_len(paths[i].as_str()) as u64;
        file_rows = file_rows.saturating_add(length.saturating_add(512));
        i += 1;
    }
    assert(files.take(i as int) =~= files);
    let mut rollout_rows: u64 = 0;
    let mut k: usize = 0;
    while k < updates.len()
        invariant
            k <= updates@.len() == relatives@.len(),
            rows == updates.deep_view(),
            names == relatives.deep_view(),
            rollout_rows == clamped(rollout_rows_bytes(rows, names, k as nat)),
        decreases updates@.len() - k,
    {
        let update = &updates[k];
        assert(rows[k as int] == update.deep_view());
        assert(names[k as int] == relatives@[k as int]@);
        let providers: u64 = count_slot_bytes(&update.expected_provider).saturating_add(
            count_slot_bytes(&update.provider),
        );
        let row: u64 = 512u64.saturating_add(
            utf8_len(update.thread_id.as_str()) as u64,
        ).saturating_add(utf8_len(relatives[k].as_str()) as u64).saturating_add(providers);
        assert(row == clamped(rollout_row_bytes(rows[k as int], names[k as int])));
        rollout_rows = rollout_rows.saturating_add(row);
        k += 1;
    }
    65536u64.saturating_add(file_rows).saturating_add(rollout_rows)
}

/// The bytes that a backup may take: the database, the store of projections and the manifest, and
/// a tenth more, at least 8 MiB.
pub open spec fn backup_bytes(
    page_count: u64,
    page_size: u64,
    projection_bytes: u64,
    manifest_bytes: u64,
) -> u64 {
    let payload = clamped(
        clamped((page_count * page_size) as nat) as nat + projection_bytes as nat
            + manifest_bytes as nat,
    );
    let margin = if payload / 10 > 8388608 {
        payload / 10
    } else {
        8388608
    };
    clamped(payload as nat + margin as nat)
}

/// The bytes that a backup may take.
pub fn estimate_backup_bytes(
    page_count: u64,
    page_size: u64,
    projection_bytes: u64,
    manifest_bytes: u64,
) -> (r: u64)
    ensures
        r == backup_bytes(page_count, page_size, projection_bytes, manifest_bytes),
{
    assert(page_count * page_size >= 0) by (nonlinear_arith);
    let state_bytes: u64 = match page_count.checked_mul(page_size) {
        Some(bytes) => bytes,
        None => u64::MAX,
    };
    let payload: u64 = state_bytes.saturating_add(projection_bytes).saturating_add(manifest_bytes);
    let tenth: u64 = payload / 10;
    let margin: u64 = if tenth > 8388608 {
        tenth
    } else {
        8388608
    };
    payload.saturating_add(margin)
}

/// The bytes that must be free for a backup.
pub open spec fn required_bytes(expected: u64) -> u64 {
    clamped(expected as nat + BACKUP_FREE_SPACE_RESERVE_BYTES as nat)
}

/// The message where there is not enough space.
pub open spec fn space_message(available: u64, required: u64) -> Seq<char> {
    "insufficient disk space for a safe recovery backup: "@ + text::decimal_text(
        (available / 1048576) as nat,
    ) + " MiB available, "@ + text::decimal_text((required / 1048576) as nat) + " MiB required"@
}

/// Checks that there is enough space for a backup of the expected size.
pub fn ensure_backup_free_space(expected: u64, available: u64) -> (r: Result<(), String>)
    ensures
        r is Ok <==> available >= required_bytes(expected),
        r is Err ==> r->Err_0@ == space_message(available, required_bytes(expected)),
{
    let required: u64 = expected.saturating_add(BACKUP_FREE_SPACE_RESERVE_BYTES);
    if available < required {
        let have = decimal(available / 1048576);
        let need = decimal(required / 1048576);
        let front = join3(
            "insufficient disk space for a safe recovery backup: ",
            have.as_str(),
            " MiB available, ",
        );
        return Err(join3(front.as_str(), need.as_str(), " MiB required"));
    }
    Ok(())
}

/// Why the session database is not in a backup.
pub open spec fn state_fault(path: Seq<char>, state: StateCopyView) -> Option<Seq<char>> {
    match state {
        StateCopyView::Missing => Some("complete backup unavailable: "@ + path + " is missing"@),
        StateCopyView::Unreadable(error) => Some(error),
        StateCopyView::Unknown(error) => Some(path + ": "@ + error),
        StateCopyView::Failed(error) => Some(error),
        StateCopyView::Copied => None,
    }
}

fn find_state_fault(path: &str, state: &StateCopy) -> (r: Option<String>)
    ensures
        r.deep_view() == state_fault(path@, state.deep_view()),
{
    match state {
        StateCopy::Missing => Some(join3("complete backup unavailable: ", path, " is missing")),
        StateCopy::Unreadable(error) => Some(error.copy_of()),
        StateCopy::Unknown(error) => Some(join3(path, ": ", error.as_str())),
        StateCopy::Failed(error) => Some(error.copy_of()),
        StateCopy::Copied => None,
    }
}

/// The digest of the store of projections in a backup; there is none where there is no store.
pub open spec fn projection_digest(
    path: Seq<char>,
    copy_path: Seq<char>,
    projection: ProjectionCopyView,
) -> Result<Option<Seq<char>>, Seq<char>> {
    match projection {
        ProjectionCopyView::Missing => Ok(None),
        ProjectionCopyView::NotRegular => Err("projection state is not a regular file: "@ + path),
        ProjectionCopyView::Failed(error) => Err(error),
        ProjectionCopyView::Unhashed => Err("cannot hash projection state: "@ + copy_path),
        ProjectionCopyView::Copied(sha256) => Ok(Some(sha256)),
    }
}

fn find_projection_digest(path: &str, copy_path: &str, projection: &ProjectionCopy) -> (r: Result<
    Option<String>,
    String,
>)
    ensures
        model::outcome(r) == projection_digest(path@, copy_path@, projection.deep_view()),
{
    match projection {
        ProjectionCopy::Missing => Ok(None),
        ProjectionCopy::NotRegular => Err(join2("projection state is not a regular file: ", path)),
        ProjectionCopy::Failed(error) => Err(error.copy_of()),
        ProjectionCopy::Unhashed => Err(join2("cannot hash projection state: ", copy_path)),
        ProjectionCopy::Copied(sha256) => Ok(Some(sha256.copy_of())),
    }
}

/// The path of a file below the home, as a manifest gives it.
pub open spec fn manifest_path(relative: Seq<char>) -> Seq<char> {
    text::replaced(relative, '\\', '/')
}

/// The file is copied into backups.
pub open spec fn is_backed_up(relative: Seq<char>) -> bool {
    manifest_path(relative) == "state_5.sqlite"@
}

/// Whether a file is copied into backups.
pub fn file_is_backed_up(relative: &str) -> (r: bool)
    ensures
        r == is_backed_up(relative@),
{
    let path = text::replace_char(relative, '\\', '/');
    same(path.as_str(), "state_5.sqlite")
}

/// A file as a manifest lists it; only a copy has a digest.
pub open spec fn manifest_file(file: FoundFileView) -> Result<ManifestFileView, Seq<char>> {
    match file.size {
        SizeReadView::Failed(error) => Err(file.recorded + ": "@ + error),
        SizeReadView::Known(size) => if is_backed_up(file.relative) && file.sha256 is None {
            Err("cannot hash backup file: "@ + file.recorded)
        } else {
            Ok(
                ManifestFileView {
                    path: manifest_path(file.relative),
                    size,
                    modified: file.modified,
                    sha256: if is_backed_up(file.relative) {
                        file.sha256
                    } else {
                        None
                    },
                    backed_up: is_backed_up(file.relative),
                },
            )
        },
    }
}

fn find_manifest_file(file: &FoundFile) -> (r: Result<ManifestFile, String>)
    ensures
        model::outcome(r) == manifest_file(file.deep_view()),
{
    match &file.size {
        SizeRead::Failed(error) => Err(join3(file.recorded.as_str(), ": ", error.as_str())),
        SizeRead::Known(size) => {
            let backed_up = file_is_backed_up(file.relative.as_str());
            if backed_up && file.sha256.is_none() {
                return Err(join2("cannot hash backup file: ", file.recorded.as_str()));
            }
            let sha256: Option<String> = if backed_up {
                file.sha256.copy_of()
            } else {
                None
            };
            Ok(
                ManifestFile {
                    path: text::replace_char(file.relative.as_str(), '\\', '/'),
                    size: *size,
                    modified: file.modified.copy_of(),
                    sha256,
                    backed_up,
                },
            )
        },
    }
}

/// The files as a manifest lists them.
pub open spec fn manifest_files(files: Seq<FoundFileView>) -> Result<
    Seq<ManifestFileView>,
    Seq<char>,
>
    decreases files.len(),
{
    if files.len() == 0 {
        Ok(Seq::empty())
    } else {
        match manifest_files(files.drop_last()) {
            Err(error) => Err(error),
            Ok(rest) => match manifest_file(files.last()) {
                Err(error) => Err(error),
                Ok(file) => Ok(rest.push(file)),
            },
        }
    }
}

proof fn lemma_file_error_stays(files: Seq<FoundFileView>, n: int)
    requires
        0 <= n <= files.len(),
        manifest_files(files.take(n)) is Err,
    ensures
        manifest_files(files) == manifest_files(files.take(n)),
    decreases files.len(),
{
    if n == files.len() {
        assert(files.take(n) =~= files);
    } else {
        assert(files.drop_last().take(n) =~= files.take(n));
        lemma_file_error_stays(files.drop_last(), n);
    }
}

fn find_manifest_files(files: &Vec<FoundFile>) -> (r: Result<Vec<ManifestFile>, String>)
    ensures
        model::outcome(r) == manifest_files(files.deep_view()),
{
    let ghost view = files.deep_view();
    let mut out: Vec<ManifestFile> = Vec::new();
    let mut i: usize = 0;
    assert(out.deep_view() =~= Seq::empty());
    assert(manifest_files(view.take(0)) == Ok::<_, Seq<char>>(Seq::<ManifestFileView>::empty()));
    while i < files.len()
        invariant
            i <= files@.len(),
            view == files.deep_view(),
            manifest_files(view.take(i as int)) == Ok::<_, Seq<char>>(out.deep_view()),
        decreases files@.len() - i,
    {
        let ghost before = out.deep_view();
        assert(view[i as int] == files@[i as int].deep_view());
        assert(view.take(i + 1).drop_last() =~= view.take(i as int));
        match find_manifest_file(&files[i]) {
            Err(error) => {
                proof {
                    lemma_file_error_stays(view, i + 1);
                }
                return Err(error);
            },
            Ok(file) => {
                let ghost added = file.deep_view();
                out.push(file);
                assert(out.deep_view() =~= before.push(added));
            },
        }
        i += 1;
    }
    assert(view.take(i as int) =~= view);
    Ok(out)
}

/// Why a rollout keeps a backup from being made.
pub open spec fn rollout_fault(
    rows: Seq<RepairRolloutJournalView>,
    i: int,
    slots: Map<Seq<char>, SlotReadView>,
) -> Option<Seq<char>> {
    let row = rows[i];
    if exists|j: int| 0 <= j < i && (#[trigger] rows[j]).path == row.path {
        Some("duplicate rollout in backup write set: "@ + row.path)
    } else {
        match slots[row.path] {
            SlotReadView::Refused(error) => Some(error),
            SlotReadView::Provider(provider) => if provider != row.before_provider {
                Some(
                    "rollout changed before backup: "@ + row.thread_id + " (expected: "@
                        + journal::shown_slot(row.before_provider) + ", current: "@
                        + journal::shown_slot(provider) + ")"@,
                )
            } else {
                None
            },
        }
    }
}

/// Why some rollout from position `i` on keeps a backup from being made: the first such reason.
pub open spec fn first_rollout_fault(
    rows: Seq<RepairRolloutJournalView>,
    i: nat,
    slots: Map<Seq<char>, SlotReadView>,
) -> Option<Seq<char>>
    decreases rows.len() - i,
{
    if i >= rows.len() {
        None
    } else {
        match rollout_fault(rows, i as int, slots) {
            Some(fault) => Some(fault),
            None => first_rollout_fault(rows, i + 1, slots),
        }
    }
}

/// Every rollout was read.
pub open spec fn all_read(
    rows: Seq<RepairRolloutJournalView>,
    slots: Map<Seq<char>, SlotReadView>,
) -> bool {
    forall|i: int| 0 <= i < rows.len() ==> slots.dom().contains((#[trigger] rows[i]).path)
}

fn path_occurs(rows: &Vec<RepairRolloutJournal>, n: usize, path: &str) -> (r: bool)
    requires
        n <= rows@.len(),
    ensures
        r == exists|j: int| 0 <= j < n && (#[trigger] rows.deep_view()[j]).path == path@,
{
    let ghost view = rows.deep_view();
    let mut j: usize = 0;
    while j < n
        invariant
            j <= n <= rows@.len(),
            view == rows.deep_view(),
            forall|k: int| 0 <= k < j ==> (#[trigger] view[k]).path != path@,
        decreases n - j,
    {
        assert(view[j as int] == rows@[j as int].deep_view());
        if same(rows[j].path.as_str(), path) {
            return true;
        }
        j += 1;
    }
    false
}

fn find_rollout_fault(rows: &Vec<RepairRolloutJournal>, slots: &OrderedMap<String, SlotRead>) -> (r:
    Option<String>)
    requires
        all_read(rows.deep_view(), slots.deep_view()),
    ensures
        r.deep_view() == first_rollout_fault(rows.deep_view(), 0, slots.deep_view()),
{
    let ghost view = rows.deep_view();
    let ghost known = slots.deep_view();
    let mut i: usize = 0;
    while i < rows.len()
        invariant
            i <= rows@.len(),
            view == rows.deep_view(),
            known == slots.deep_view(),
            all_read(view, known),
            first_rollout_fault(view, i as nat, known) == first_rollout_fault(view, 0, known),
        decreases rows@.len() - i,
    {
        let row = &rows[i];
        assert(view[i as int] == row.deep_view());
        if path_occurs(rows, i, row.path.as_str()) {
            return Some(join2("duplicate rollout in backup write set: ", row.path.as_str()));
        }
        match slots.get(&row.path) {
            None => {
                assert(known.dom().contains(view[i as int].path));
            },
            Some(SlotRead::Refused(error)) => {
                return Some(error.copy_of());
            },
            Some(SlotRead::Provider(provider)) => {
                if !provider.same_as(&row.before_provider) {
                    let expected = show_slot(&row.before_provider);
                    let current = show_slot(provider);
                    let front = join4(
                        "rollout changed before backup: ",
                        row.thread_id.as_str(),
                        " (expected: ",
                        expected.as_str(),
                    );
                    return Some(join4(front.as_str(), ", current: ", current.as_str(), ")"));
                }
            },
        }
        i += 1;
    }
    None
}

proof fn lemma_sorted_rows_read(
    rows: Seq<RepairRolloutJournalView>,
    slots: Map<Seq<char>, SlotReadView>,
)
    requires
        all_read(rows, slots),
    ensures
        all_read(journal::rows_by_path(rows), slots),
{
    let pairs = rows.map_values(|row: RepairRolloutJournalView| (row.path, row));
    let sorted = crate::ordered::sorted_pairs::<String, RepairRolloutJournalView>(pairs);
    crate::ordered::lemma_sorted_pairs::<String, RepairRolloutJournalView>(pairs);
    let out = journal::rows_by_path(rows);
    assert forall|i: int| 0 <= i < out.len() implies slots.dom().contains(
        (#[trigger] out[i]).path,
    ) by {
        assert(out[i] == sorted[i].1);
        assert(pairs.contains(sorted[i]));
        let j = choose|j: int| 0 <= j < pairs.len() && pairs[j] == sorted[i];
        assert(rows[j] == sorted[i].1);
    }
}

/// The manifest of a backup.
pub open spec fn manifest_of(
    source: SnapshotSourceView,
    sha256: Option<Seq<char>>,
    files: Seq<ManifestFileView>,
    kind: BackupKind,
    pinned: bool,
) -> BackupManifestView {
    BackupManifestView {
        version: 6,
        created_at: source.created_at,
        source: source.home,
        provider: source.provider,
        sqlite_user_versions: match source.user_version {
            Some(version) => Map::empty().insert("state_5.sqlite"@, version),
            None => Map::empty(),
        },
        projection_state_present: sha256 is Some,
        projection_state_sha256: sha256,
        rollout_provider_preimages: journal::rows_by_path(source.rollouts),
        kind,
        pinned,
        files,
    }
}

/// A backup that was made.
pub open spec fn made_backup(source: SnapshotSourceView, projection: bool) -> BackupResultView {
    BackupResultView {
        path: source.destination,
        files: if projection {
            seq!["state_5.sqlite"@, "projection-state.json"@]
        } else {
            seq!["state_5.sqlite"@]
        },
        manifest: source.manifest_path,
        cleanup: None,
    }
}

/// A backup, or why none was made.
pub open spec fn snapshot_of(source: SnapshotSourceView, kind: BackupKind, pinned: bool) -> Result<
    (BackupManifestView, BackupResultView),
    Seq<char>,
> {
    match state_fault(source.state_path, source.state) {
        Some(error) => Err(error),
        None => match projection_digest(
            source.projection_path,
            source.projection_copy_path,
            source.projection,
        ) {
            Err(error) => Err(error),
            Ok(sha256) => match manifest_files(source.files) {
                Err(error) => Err(error),
                Ok(files) => match first_rollout_fault(
                    journal::rows_by_path(source.rollouts),
                    0,
                    source.slots,
                ) {
                    Some(error) => Err(error),
                    None => Ok(
                        (
                            manifest_of(source, sha256, files, kind, pinned),
                            made_backup(source, sha256 is Some),
                        ),
                    ),
                },
            },
        },
    }
}

/// Makes the manifest of a backup from what was copied and found, or says why there is no backup:
/// what was copied failed, or a rollout is not as the repair expects it.
pub fn create_backup_snapshot(source: &SnapshotSource, kind: BackupKind, pinned: bool) -> (r: Result<
    (BackupManifest, BackupResult),
    String,
>)
    requires
        all_read(source.deep_view().rollouts, source.deep_view().slots),
    ensures
        model::outcome(r) == snapshot_of(source.deep_view(), kind, pinned),
{
    match find_state_fault(source.state_path.as_str(), &source.state) {
        Some(error) => {
            return Err(error);
        },
        None => {},
    }
    let sha256 = match find_projection_digest(
        source.projection_path.as_str(),
        source.projection_copy_path.as_str(),
        &source.projection,
    ) {
        Err(error) => {
            return Err(error);
        },
        Ok(sha256) => sha256,
    };
    let files = match find_manifest_files(&source.files) {
        Err(error) => {
            return Err(error);
        },
        Ok(files) => files,
    };
    let rollouts = sort_rollout_rows(&source.rollouts);
    proof {
        lemma_sorted_rows_read(source.deep_view().rollouts, source.deep_view().slots);
    }
    match find_rollout_fault(&rollouts, &source.slots) {
        Some(error) => {
            return Err(error);
        },
        None => {},
    }
    let mut sqlite_user_versions: OrderedMap<String, i64> = OrderedMap::new();
    match source.user_version {
        Some(version) => {
            sqlite_user_versions.insert("state_5.sqlite".to_owned(), version);
        },
        None => {},
    }
    let mut copied: Vec<String> = Vec::new();
    push_text(&mut copied, "state_5.sqlite".to_owned());
    let projection_state_present = sha256.is_some();
    if projection_state_present {
        push_text(&mut copied, "projection-state.json".to_owned());
    }
    assert(copied.deep_view() =~= made_backup(
        source.deep_view(),
        projection_state_present,
    ).files);
    let manifest = BackupManifest {
        version: 6,
        created_at: source.created_at.copy_of(),
        source: source.home.copy_of(),
        provider: source.provider.copy_of(),
        sqlite_user_versions,
        projection_state_present,
        projection_state_sha256: sha256,
        rollout_provider_preimages: rollouts,
        kind,
        pinned,
        files,
    };
    let result = BackupResult {
        path: source.destination.copy_of(),
        files: copied,
        manifest: source.manifest_path.copy_of(),
        cleanup: None,
    };
    Ok((manifest, result))
}

/// Makes a backup on request: it is pinned, so that no cleanup removes it by itself.
pub fn create_backup_at(source: &SnapshotSource) -> (r: Result<
    (BackupManifest, BackupResult),
    String,
>)
    requires
        all_read(source.deep_view().rollouts, source.deep_view().slots),
    ensures
        model::outcome(r) == snapshot_of(source.deep_view(), BackupKind::Manual, true),
{
    create_backup_snapshot(source, BackupKind::Manual, true)
}

/// An owner as messages name it.
pub open spec fn owner_label(owner: BlockingProcessView) -> Seq<char> {
    owner.identity.name + " ("@ + text::decimal_text(owner.identity.pid as nat) + ")"@
}

/// Owners as messages name them.
pub open spec fn owner_labels(owners: Seq<BlockingProcessView>) -> Seq<char> {
    recovery::joined(owners.map_values(|owner: BlockingProcessView| owner_label(owner)), ", "@)
}

/// Names owners for a message.
pub fn label_owners(owners: &Vec<BlockingProcess>) -> (r: String)
    ensures
        r@ == owner_labels(owners.deep_view()),
{
    let ghost view = owners.deep_view();
    let mut labels: Vec<String> = Vec::new();
    let mut i: usize = 0;
    while i < owners.len()
        invariant
            i <= owners@.len(),
            view == owners.deep_view(),
            labels@.len() == i,
            forall|j: int| 0 <= j < i ==> #[trigger] labels@[j].deep_view() == owner_label(view[j]),
        decreases owners@.len() - i,
    {
        assert(view[i as int] == owners@[i as int].deep_view());
        let pid = decimal(owners[i].identity.pid as u64);
        labels.push(join4(owners[i].identity.name.as_str(), " (", pid.as_str(), ")"));
        i += 1;
    }
    assert(labels.deep_view() =~= view.map_values(
        |owner: BlockingProcessView| owner_label(owner),
    ));
    join_all(&labels, ", ")
}

/// Some owner is another process than the current one.
pub open spec fn some_other_owner(owners: Seq<BlockingProcessView>) -> bool {
    exists|i: int| 0 <= i < owners.len() && !(#[trigger] owners[i]).identity.is_current
}

/// Whether some owner is another process than the current one.
pub fn has_other_owner(owners: &Vec<BlockingProcess>) -> (r: bool)
    ensures
        r == some_other_owner(owners.deep_view()),
{
    let ghost view = owners.deep_view();
    let mut i: usize = 0;
    while i < owners.len()
        invariant
            i <= owners@.len(),
            view == owners.deep_view(),
            forall|j: int| 0 <= j < i ==> (#[trigger] view[j]).identity.is_current,
        decreases owners@.len() - i,
    {
        assert(view[i as int] == owners@[i as int].deep_view());
        if !owners[i].identity.is_current {
            return true;
        }
        i += 1;
    }
    false
}

/// Why a backup on request does not start, before the lock is taken or after.
pub open spec fn backup_start_fault(
    pending: Option<PendingOperationView>,
    owners: Seq<BlockingProcessView>,
    locked: bool,
) -> Option<Seq<char>> {
    match pending {
        Some(operation) => if locked {
            Some(
                "backup blocked because recovery became required while waiting for the operation lock"@,
            )
        } else {
            Some(
                "backup blocked until incomplete "@ + operation.command + " is recovered from "@
                    + operation.backup_path,
            )
        },
        None => if owners.len() == 0 {
            None
        } else if locked {
            Some("backup aborted because a SQLite owner started after locking"@)
        } else {
            Some("backup blocked by active SQLite owners: "@ + owner_labels(owners))
        },
    }
}

fn check_backup_start(
    pending: &Option<PendingOperation>,
    owners: &Vec<BlockingProcess>,
    locked: bool,
) -> (r: Option<String>)
    ensures
        r.deep_view() == backup_start_fault(pending.deep_view(), owners.deep_view(), locked),
{
    match pending {
        Some(operation) => {
            if locked {
                Some(
                    "backup blocked because recovery became required while waiting for the operation lock".to_owned(),
                )
            } else {
                Some(
                    join4(
                        "backup blocked until incomplete ",
                        operation.command.as_str(),
                        " is recovered from ",
                        operation.backup_path.as_str(),
                    ),
                )
            }
        },
        None => {
            if owners.len() == 0 {
                None
            } else if locked {
                Some("backup aborted because a SQLite owner started after locking".to_owned())
            } else {
                let labels = label_owners(owners);
                Some(join2("backup blocked by active SQLite owners: ", labels.as_str()))
            }
        },
    }
}

/// Why a backup on request is discarded, if another process holds the databases open; `removal` is
/// what kept it from being removed.
pub open spec fn backup_discard_fault(
    owners: Seq<BlockingProcessView>,
    removal: Option<Seq<char>>,
) -> Option<Seq<char>> {
    if !some_other_owner(owners) {
        None
    } else {
        match removal {
            Some(error) => Some(
                "backup discarded because a SQLite owner appeared during the snapshot; unsafe snapshot cleanup failed: "@
                    + error,
            ),
            None => Some(
                "backup discarded because a SQLite owner appeared during the snapshot"@,
            ),
        }
    }
}

fn check_made_backup(owners: &Vec<BlockingProcess>, removal: &Option<String>) -> (r: Option<String>)
    ensures
        r.deep_view() == backup_discard_fault(owners.deep_view(), removal.deep_view()),
{
    if !has_other_owner(owners) {
        return None;
    }
    match removal {
        Some(error) => Some(
            join2(
                "backup discarded because a SQLite owner appeared during the snapshot; unsafe snapshot cleanup failed: ",
                error.as_str(),
            ),
        ),
        None => Some(
            "backup discarded because a SQLite owner appeared during the snapshot".to_owned(),
        ),
    }
}

/// Why a backup on request ends without success at a stage, if it does.
pub open spec fn safe_backup_fault(
    stage: SafeBackupStage,
    pending: Option<PendingOperationView>,
    owners: Seq<BlockingProcessView>,
    removal: Option<Seq<char>>,
) -> Option<Seq<char>> {
    match stage {
        SafeBackupStage::Unlocked => backup_start_fault(pending, owners, false),
        SafeBackupStage::Locked => backup_start_fault(pending, owners, true),
        SafeBackupStage::Made => backup_discard_fault(owners, removal),
    }
}

/// Why a backup on request ends without success at a stage, if it does: it starts only while no
/// operation is pending and no process holds the databases open, and it is discarded where another
/// process opened them meanwhile. `removal` is what kept a discarded one from being removed.
pub fn create_backup_safe_at(
    stage: SafeBackupStage,
    pending: &Option<PendingOperation>,
    owners: &Vec<BlockingProcess>,
    removal: &Option<String>,
) -> (r: Option<String>)
    ensures
        r.deep_view() == safe_backup_fault(
            stage,
            pending.deep_view(),
            owners.deep_view(),
            removal.deep_view(),
        ),
{
    match stage {
        SafeBackupStage::Unlocked => check_backup_start(pending, owners, false),
        SafeBackupStage::Locked => check_backup_start(pending, owners, true),
        SafeBackupStage::Made => check_made_backup(owners, removal),
    }
}

proof fn lemma_fault_free(
    rows: Seq<RepairRolloutJournalView>,
    i: nat,
    slots: Map<Seq<char>, SlotReadView>,
    k: int,
)
    requires
        first_rollout_fault(rows, i, slots) is None,
        i <= k < rows.len(),
    ensures
        rollout_fault(rows, k, slots) is None,
    decreases rows.len() - i,
{
    if i < k {
        lemma_fault_free(rows, i + 1, slots, k);
    }
}

/// The rollouts in a backup are as they were read when it was made, and no path occurs twice among
/// them.
pub proof fn law_backup_keeps_the_read_providers(
    source: SnapshotSourceView,
    kind: BackupKind,
    pinned: bool,
    k: int,
)
    requires
        snapshot_of(source, kind, pinned) is Ok,
        0 <= k < snapshot_of(source, kind, pinned)->Ok_0.0.rollout_provider_preimages.len(),
    ensures
        ({
            let rows = snapshot_of(source, kind, pinned)->Ok_0.0.rollout_provider_preimages;
            &&& source.slots[rows[k].path] == SlotReadView::Provider(rows[k].before_provider)
            &&& forall|j: int| 0 <= j < k ==> (#[trigger] rows[j]).path != rows[k].path
        }),
{
    let rows = journal::rows_by_path(source.rollouts);
    lemma_fault_free(rows, 0, source.slots, k);
}

/// A backup that was made is of a version that can be restored, and backs up the session database
/// and nothing else.
pub proof fn law_made_backup_is_known(
    source: SnapshotSourceView,
    kind: BackupKind,
    pinned: bool,
    i: int,
)
    requires
        snapshot_of(source, kind, pinned) is Ok,
        0 <= i < snapshot_of(source, kind, pinned)->Ok_0.0.files.len(),
    ensures
        ({
            let manifest = snapshot_of(source, kind, pinned)->Ok_0.0;
            &&& backups::known_version(manifest.version)
            &&& manifest.pinned == pinned
            &&& manifest.files[i].backed_up <==> manifest.files[i].path == "state_5.sqlite"@
            &&& manifest.files[i].backed_up ==> manifest.files[i].sha256 is Some
        }),
{
    lemma_manifest_file_at(source.files, i);
}

proof fn lemma_manifest_file_at(files: Seq<FoundFileView>, i: int)
    requires
        manifest_files(files) is Ok,
        0 <= i < manifest_files(files)->Ok_0.len(),
    ensures
        i < files.len(),
        manifest_file(files[i]) == Ok::<_, Seq<char>>(manifest_files(files)->Ok_0[i]),
        manifest_files(files)->Ok_0.len() == files.len(),
    decreases files.len(),
{
    if files.len() > 0 {
        let rest = manifest_files(files.drop_last())->Ok_0;
        lemma_manifest_files_len(files.drop_last());
        if i < rest.len() {
            lemma_manifest_file_at(files.drop_last(), i);
        }
    }
}

proof fn lemma_manifest_files_len(files: Seq<FoundFileView>)
    requires
        manifest_files(files) is Ok,
    ensures
        manifest_files(files)->Ok_0.len() == files.len(),
    decreases files.len(),
{
    if files.len() > 0 {
        lemma_manifest_files_len(files.drop_last());
    }
}

/// A backup is given room for the database, the store and the manifest, with a tenth and at least
/// 8 MiB to spare, and 64 MiB must be left free besides; more of anything never needs less room.
pub proof fn law_backups_have_room_to_spare(
    page_count: u64,
    page_size: u64,
    projection_bytes: u64,
    manifest_bytes: u64,
)
    requires
        page_count * page_size + projection_bytes + manifest_bytes <= u64::MAX / 4,
    ensures
        ({
            let payload = page_count * page_size + projection_bytes + manifest_bytes;
            let expected = backup_bytes(page_count, page_size, projection_bytes, manifest_bytes);
            &&& expected >= payload + 8 * 1024 * 1024
            &&& expected >= payload + payload / 10
            &&& expected <= payload + payload / 10 + 8 * 1024 * 1024
            &&& payload / 10 >= 8 * 1024 * 1024 ==> expected == payload + payload / 10
            &&& payload / 10 <= 8 * 1024 * 1024 ==> expected == payload + 8 * 1024 * 1024
            &&& required_bytes(expected) == expected + 64 * 1024 * 1024
        }),
{
    assert(page_count * page_size >= 0) by (nonlinear_arith);
}

/// The room for a manifest grows with everything that it lists: by half a kilobyte and the path for
/// a file, by half a kilobyte, thread, path and providers for a rollout.
pub proof fn law_manifest_room_grows(
    paths: Seq<Seq<char>>,
    path: Seq<char>,
    updates: Seq<RolloutUpdateView>,
    relatives: Seq<Seq<char>>,
    n: nat,
)
    ensures
        file_rows_bytes(Seq::empty()) == 0,
        file_rows_bytes(paths.push(path)) == file_rows_bytes(paths) + 512 + providers::utf8(
            path,
        ).len(),
        rollout_rows_bytes(updates, relatives, 0) == 0,
        n > 0 ==> rollout_rows_bytes(updates, relatives, n) == rollout_rows_bytes(
            updates,
            relatives,
            (n - 1) as nat,
        ) + 512 + providers::utf8(updates[n - 1].thread_id).len() + providers::utf8(
            relatives[n - 1],
        ).len() + (if updates[n - 1].expected_provider is Some {
            providers::utf8(updates[n - 1].expected_provider->0).len()
        } else {
            0
        }) + (if updates[n - 1].provider is Some {
            providers::utf8(updates[n - 1].provider->0).len()
        } else {
            0
        }),
{
    assert(paths.push(path).drop_last() =~= paths);
}

proof fn lemma_listed_files(files: Seq<FoundFileView>)
    ensures
        manifest_files(files) is Ok <==> forall|i: int|
            0 <= i < files.len() ==> (#[trigger] files[i]).size is Known && (text::replaced(
                files[i].relative,
                '\\',
                '/',
            ) == "state_5.sqlite"@ ==> files[i].sha256 is Some),
        manifest_files(files) is Ok ==> manifest_files(files)->Ok_0.len() == files.len(),
        manifest_files(files) is Ok ==> forall|i: int|
            0 <= i < files.len() ==> {
                let listed = #[trigger] manifest_files(files)->Ok_0[i];
                &&& listed.path == text::replaced(files[i].relative, '\\', '/')
                &&& SizeReadView::Known(listed.size) == files[i].size
                &&& listed.modified == files[i].modified
                &&& listed.backed_up <==> listed.path == "state_5.sqlite"@
                &&& listed.backed_up ==> listed.sha256 == files[i].sha256
                &&& !listed.backed_up ==> listed.sha256 is None
            },
    decreases files.len(),
{
    if files.len() > 0 {
        let front = files.drop_last();
        lemma_listed_files(front);
        assert(files[files.len() - 1] == files.last());
        if forall|i: int|
            0 <= i < files.len() ==> (#[trigger] files[i]).size is Known && (text::replaced(
                files[i].relative,
                '\\',
                '/',
            ) == "state_5.sqlite"@ ==> files[i].sha256 is Some) {
            assert forall|i: int| 0 <= i < front.len() implies (#[trigger] front[i]).size is Known
                && (text::replaced(front[i].relative, '\\', '/') == "state_5.sqlite"@
                ==> front[i].sha256 is Some) by {
                assert(files[i] == front[i]);
            }
        }
        if manifest_files(files) is Ok {
            assert forall|i: int| 0 <= i < files.len() implies (#[trigger] files[i]).size is Known
                && (text::replaced(files[i].relative, '\\', '/') == "state_5.sqlite"@
                ==> files[i].sha256 is Some) by {
                if i < front.len() {
                    assert(front[i] == files[i]);
                }
            }
            let all = manifest_files(files)->Ok_0;
            let rest = manifest_files(front)->Ok_0;
            assert forall|i: int| 0 <= i < files.len() implies ({
                let listed = #[trigger] all[i];
                &&& listed.path == text::replaced(files[i].relative, '\\', '/')
                &&& SizeReadView::Known(listed.size) == files[i].size
                &&& listed.modified == files[i].modified
                &&& listed.backed_up <==> listed.path == "state_5.sqlite"@
                &&& listed.backed_up ==> listed.sha256 == files[i].sha256
                &&& !listed.backed_up ==> listed.sha256 is None
            }) by {
                if i < front.len() {
                    assert(all[i] == rest[i]);
                    assert(front[i] == files[i]);
                }
            }
        }
    }
}

proof fn lemma_no_rollout_fault(
    rows: Seq<RepairRolloutJournalView>,
    i: nat,
    slots: Map<Seq<char>, SlotReadView>,
)
    ensures
        first_rollout_fault(rows, i, slots) is None <==> forall|k: int|
            i <= k < rows.len() ==> rollout_fault(rows, k, slots) is None,
    decreases rows.len() - i,
{
    if i < rows.len() {
        lemma_no_rollout_fault(rows, i + 1, slots);
        if first_rollout_fault(rows, i, slots) is None {
            assert forall|k: int| i <= k < rows.len() implies rollout_fault(rows, k, slots) is None by {
                if k > i {
                    assert(i + 1 <= k);
                }
            }
        }
        if forall|k: int| i <= k < rows.len() ==> rollout_fault(rows, k, slots) is None {
            assert(rollout_fault(rows, i as int, slots) is None);
        }
    }
}

/// A backup is made exactly where the session database was copied, the store of projections was
/// copied if there is one, every file could be looked at, and every rollout is named once and still
/// names what it is said to name; and its manifest tells of the home what was found.
pub proof fn law_backup_is_made_of_what_was_found(
    source: SnapshotSourceView,
    kind: BackupKind,
    pinned: bool,
)
    ensures
        ({
            let outcome = snapshot_of(source, kind, pinned);
            let rows = journal::rows_by_path(source.rollouts);
            &&& outcome is Ok <==> {
                &&& source.state is Copied
                &&& source.projection is Missing || source.projection is Copied
                &&& forall|i: int|
                    0 <= i < source.files.len() ==> (#[trigger] source.files[i]).size is Known && (
                    text::replaced(source.files[i].relative, '\\', '/') == "state_5.sqlite"@
                        ==> source.files[i].sha256 is Some)
                &&& forall|k: int|
                    0 <= k < rows.len() ==> rollout_fault(rows, k, source.slots) is None
            }
            &&& outcome is Ok ==> {
                let manifest = (outcome->Ok_0).0;
                let made = (outcome->Ok_0).1;
                &&& manifest.version == 6
                &&& manifest.created_at == source.created_at
                &&& manifest.source == source.home
                &&& manifest.provider == source.provider
                &&& manifest.kind == kind
                &&& manifest.pinned == pinned
                &&& manifest.rollout_provider_preimages == rows
                &&& manifest.files.len() == source.files.len()
                &&& manifest.projection_state_present <==> source.projection is Copied
                &&& source.projection is Copied ==> manifest.projection_state_sha256 == Some(
                    source.projection->Copied_0,
                )
                &&& made.path == source.destination
                &&& made.manifest == source.manifest_path
                &&& made.files.contains("state_5.sqlite"@)
                &&& source.projection is Copied ==> made.files.contains("projection-state.json"@)
                &&& source.user_version is Some ==> manifest.sqlite_user_versions.dom().contains(
                    "state_5.sqlite"@,
                ) && manifest.sqlite_user_versions["state_5.sqlite"@] == source.user_version->0
                &&& forall|i: int|
                    0 <= i < manifest.files.len() ==> {
                        let listed = #[trigger] manifest.files[i];
                        &&& listed.path == text::replaced(source.files[i].relative, '\\', '/')
                        &&& SizeReadView::Known(listed.size) == source.files[i].size
                        &&& listed.modified == source.files[i].modified
                        &&& listed.backed_up <==> listed.path == "state_5.sqlite"@
                        &&& listed.backed_up ==> listed.sha256 == source.files[i].sha256
                    }
            }
        }),
{
    let rows = journal::rows_by_path(source.rollouts);
    lemma_listed_files(source.files);
    lemma_no_rollout_fault(rows, 0, source.slots);
    let outcome = snapshot_of(source, kind, pinned);
    if outcome is Ok {
        let made = (outcome->Ok_0).1;
        assert(made.files[0] == "state_5.sqlite"@);
        if source.projection is Copied {
            assert(made.files[1] == "projection-state.json"@);
        }
    }
}

/// A backup on request starts exactly where nothing is pending and nobody owns the databases, and is
/// kept exactly where nobody else owned them while it was made.
pub proof fn law_backup_on_request(
    pending: Option<PendingOperationView>,
    owners: Seq<BlockingProcessView>,
    removal: Option<Seq<char>>,
)
    ensures
        safe_backup_fault(SafeBackupStage::Unlocked, pending, owners, removal) is None
            <==> pending is None && owners.len() == 0,
        safe_backup_fault(SafeBackupStage::Locked, pending, owners, removal) is None <==> pending is None
            && owners.len() == 0,
        safe_backup_fault(SafeBackupStage::Made, pending, owners, removal) is None <==> forall|i: int|
            0 <= i < owners.len() ==> (#[trigger] owners[i]).identity.is_current,
{
}

} // verus!

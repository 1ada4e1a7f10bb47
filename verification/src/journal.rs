//! The journal of a repair: every row and file it writes, before and after.

use crate::json;
use crate::json::{Json, JsonView};
use crate::locality::{WorkspaceHintUpdate, WorkspaceHintUpdateView};
use crate::model::Model;
use crate::ordered;
use crate::ordered::{sort_pairs, Ordered, OrderedMap, OrderedSet};
use crate::paths;
use crate::paths::{
    find_extension, find_parts, find_root_name, has_only_names, PathPart, PathPartView, PathStyle,
};
use crate::planning::{
    RepairPlan, RepairPlanView, RolloutUpdate, StateDelete, StateDeleteView, ThreadBound,
};
use crate::projection;
use crate::projection::{ProjectionStore, ProjectionStoreView};
use crate::reals;
use crate::reals::same_real;
use crate::sessions;
use crate::text;
use crate::text::{compare, join2, same, Relation};
use vstd::prelude::*;

verus! {

/// How far a repair got before it was interrupted.
#[derive(Clone, Copy, Debug, PartialEq, Eq, Structural)]
pub enum RepairPhase {
    Prepared,
    Compensating,
    Committed,
    VerificationFailed,
}

impl DeepView for RepairPhase {
    type V = RepairPhase;

    open spec fn deep_view(&self) -> RepairPhase {
        *self
    }
}

impl Model for RepairPhase {
    fn copy_of(&self) -> (r: Self) {
        *self
    }

    fn same_as(&self, other: &Self) -> (r: bool) {
        *self == *other
    }
}

/// A value of a state row. A real number is held as text.
#[derive(Clone, Debug, Eq)]
pub enum RepairSqlValue {
    Null,
    Integer(i64),
    Real(String),
    Text(String),
    Blob(Vec<u8>),
}

/// What a `RepairSqlValue` stands for; both zeros are the same real number.
#[verifier::ext_equal]
pub enum RepairSqlValueView {
    Null,
    Integer(i64),
    Real(Seq<char>),
    Text(Seq<char>),
    Blob(Seq<u8>),
}

impl DeepView for RepairSqlValue {
    type V = RepairSqlValueView;

    open spec fn deep_view(&self) -> RepairSqlValueView {
        match self {
            RepairSqlValue::Null => RepairSqlValueView::Null,
            RepairSqlValue::Integer(value) => RepairSqlValueView::Integer(value.deep_view()),
            RepairSqlValue::Real(text) => RepairSqlValueView::Real(reals::real_value(text@)),
            RepairSqlValue::Text(value) => RepairSqlValueView::Text(value.deep_view()),
            RepairSqlValue::Blob(value) => RepairSqlValueView::Blob(value.deep_view()),
        }
    }
}

impl Model for RepairSqlValue {
    fn copy_of(&self) -> (r: Self) {
        match self {
            RepairSqlValue::Null => RepairSqlValue::Null,
            RepairSqlValue::Integer(value) => RepairSqlValue::Integer(value.copy_of()),
            RepairSqlValue::Real(value) => RepairSqlValue::Real(value.copy_of()),
            RepairSqlValue::Text(value) => RepairSqlValue::Text(value.copy_of()),
            RepairSqlValue::Blob(value) => RepairSqlValue::Blob(value.copy_of()),
        }
    }

    fn same_as(&self, other: &Self) -> (r: bool) {
        match (self, other) {
            (RepairSqlValue::Null, RepairSqlValue::Null) => true,
            (RepairSqlValue::Integer(value_l), RepairSqlValue::Integer(value_r)) => value_l.same_as(value_r),
            (RepairSqlValue::Real(left), RepairSqlValue::Real(right)) => same_real(
                left.as_str(),
                right.as_str(),
            ),
            (RepairSqlValue::Text(value_l), RepairSqlValue::Text(value_r)) => value_l.same_as(value_r),
            (RepairSqlValue::Blob(value_l), RepairSqlValue::Blob(value_r)) => value_l.same_as(value_r),
            _ => false,
        }
    }
}

impl PartialEq for RepairSqlValue {
    fn eq(&self, other: &Self) -> (r: bool) {
        self.same_as(other)
    }
}

impl vstd::std_specs::cmp::PartialEqSpecImpl for RepairSqlValue {
    open spec fn obeys_eq_spec() -> bool {
        true
    }

    open spec fn eq_spec(&self, other: &Self) -> bool {
        self.deep_view() == other.deep_view()
    }
}

/// A state row, by column.
#[derive(Debug, PartialEq, Eq)]
pub struct RepairStateImage {
    pub values: OrderedMap<String, RepairSqlValue>,
}

/// What a `RepairStateImage` stands for.
#[verifier::ext_equal]
pub struct RepairStateImageView {
    pub values: Map<Seq<char>, RepairSqlValueView>,
}

impl DeepView for RepairStateImage {
    type V = RepairStateImageView;

    open spec fn deep_view(&self) -> RepairStateImageView {
        RepairStateImageView {
            values: self.values.deep_view(),
        }
    }
}

impl Model for RepairStateImage {
    fn copy_of(&self) -> (r: Self) {
        RepairStateImage {
            values: self.values.copy_of(),
        }
    }

    fn same_as(&self, other: &Self) -> (r: bool) {
        self.values.same_as(&other.values)
    }
}

/// A state row before and after a repair; there is no image where there is no row.
#[derive(Debug, PartialEq, Eq)]
pub struct RepairStateRowImages {
    pub before: Option<RepairStateImage>,
    pub after: Option<RepairStateImage>,
}

/// What a `RepairStateRowImages` stands for.
#[verifier::ext_equal]
pub struct RepairStateRowImagesView {
    pub before: Option<RepairStateImageView>,
    pub after: Option<RepairStateImageView>,
}

impl DeepView for RepairStateRowImages {
    type V = RepairStateRowImagesView;

    open spec fn deep_view(&self) -> RepairStateRowImagesView {
        RepairStateRowImagesView {
            before: self.before.deep_view(),
            after: self.after.deep_view(),
        }
    }
}

impl Model for RepairStateRowImages {
    fn copy_of(&self) -> (r: Self) {
        RepairStateRowImages {
            before: self.before.copy_of(),
            after: self.after.copy_of(),
        }
    }

    fn same_as(&self, other: &Self) -> (r: bool) {
        self.before.same_as(&other.before)
            && self.after.same_as(&other.after)
    }
}

/// A state row that a repair writes.
#[derive(Debug, PartialEq, Eq)]
pub struct RepairStateJournal {
    pub thread_id: String,
    pub before_provider: String,
    pub after_provider: String,
    pub row_images: Option<RepairStateRowImages>,
}

/// What a `RepairStateJournal` stands for.
#[verifier::ext_equal]
pub struct RepairStateJournalView {
    pub thread_id: Seq<char>,
    pub before_provider: Seq<char>,
    pub after_provider: Seq<char>,
    pub row_images: Option<RepairStateRowImagesView>,
}

impl DeepView for RepairStateJournal {
    type V = RepairStateJournalView;

    open spec fn deep_view(&self) -> RepairStateJournalView {
        RepairStateJournalView {
            thread_id: self.thread_id.deep_view(),
            before_provider: self.before_provider.deep_view(),
            after_provider: self.after_provider.deep_view(),
            row_images: self.row_images.deep_view(),
        }
    }
}

impl Model for RepairStateJournal {
    fn copy_of(&self) -> (r: Self) {
        RepairStateJournal {
            thread_id: self.thread_id.copy_of(),
            before_provider: self.before_provider.copy_of(),
            after_provider: self.after_provider.copy_of(),
            row_images: self.row_images.copy_of(),
        }
    }

    fn same_as(&self, other: &Self) -> (r: bool) {
        self.thread_id.same_as(&other.thread_id)
            && self.before_provider.same_as(&other.before_provider)
            && self.after_provider.same_as(&other.after_provider)
            && self.row_images.same_as(&other.row_images)
    }
}

/// A rollout that a repair rewrites.
#[derive(Clone, Debug, PartialEq, Eq)]
pub struct RepairRolloutJournal {
    pub thread_id: String,
    pub path: String,
    pub archived: bool,
    pub before_provider: Option<String>,
    pub after_provider: Option<String>,
}

/// What a `RepairRolloutJournal` stands for.
#[verifier::ext_equal]
pub struct RepairRolloutJournalView {
    pub thread_id: Seq<char>,
    pub path: Seq<char>,
    pub archived: bool,
    pub before_provider: Option<Seq<char>>,
    pub after_provider: Option<Seq<char>>,
}

impl DeepView for RepairRolloutJournal {
    type V = RepairRolloutJournalView;

    open spec fn deep_view(&self) -> RepairRolloutJournalView {
        RepairRolloutJournalView {
            thread_id: self.thread_id.deep_view(),
            path: self.path.deep_view(),
            archived: self.archived.deep_view(),
            before_provider: self.before_provider.deep_view(),
            after_provider: self.after_provider.deep_view(),
        }
    }
}

impl Model for RepairRolloutJournal {
    fn copy_of(&self) -> (r: Self) {
        RepairRolloutJournal {
            thread_id: self.thread_id.copy_of(),
            path: self.path.copy_of(),
            archived: self.archived.copy_of(),
            before_provider: self.before_provider.copy_of(),
            after_provider: self.after_provider.copy_of(),
        }
    }

    fn same_as(&self, other: &Self) -> (r: bool) {
        self.thread_id.same_as(&other.thread_id)
            && self.path.same_as(&other.path)
            && self.archived.same_as(&other.archived)
            && self.before_provider.same_as(&other.before_provider)
            && self.after_provider.same_as(&other.after_provider)
    }
}

/// A catalog row. Its times are real numbers, held as text.
#[derive(Clone, Debug, Eq)]
pub struct RepairCatalogImage {
    pub host_id: String,
    pub thread_id: String,
    pub display_title: String,
    pub source_created_at: String,
    pub source_updated_at: String,
    pub cwd: String,
    pub source_kind: String,
    pub source_detail: Option<String>,
    pub model_provider: String,
    pub git_branch: Option<String>,
    pub observation_sequence: i64,
    pub missing_candidate: bool,
}

/// What a `RepairCatalogImage` stands for.
#[verifier::ext_equal]
pub struct RepairCatalogImageView {
    pub host_id: Seq<char>,
    pub thread_id: Seq<char>,
    pub display_title: Seq<char>,
    pub source_created_at: Seq<char>,
    pub source_updated_at: Seq<char>,
    pub cwd: Seq<char>,
    pub source_kind: Seq<char>,
    pub source_detail: Option<Seq<char>>,
    pub model_provider: Seq<char>,
    pub git_branch: Option<Seq<char>>,
    pub observation_sequence: i64,
    pub missing_candidate: bool,
}

impl DeepView for RepairCatalogImage {
    type V = RepairCatalogImageView;

    open spec fn deep_view(&self) -> RepairCatalogImageView {
        RepairCatalogImageView {
            host_id: self.host_id.deep_view(),
            thread_id: self.thread_id.deep_view(),
            display_title: self.display_title.deep_view(),
            source_created_at: reals::real_value(self.source_created_at@),
            source_updated_at: reals::real_value(self.source_updated_at@),
            cwd: self.cwd.deep_view(),
            source_kind: self.source_kind.deep_view(),
            source_detail: self.source_detail.deep_view(),
            model_provider: self.model_provider.deep_view(),
            git_branch: self.git_branch.deep_view(),
            observation_sequence: self.observation_sequence.deep_view(),
            missing_candidate: self.missing_candidate.deep_view(),
        }
    }
}

impl Model for RepairCatalogImage {
    fn copy_of(&self) -> (r: Self) {
        RepairCatalogImage {
            host_id: self.host_id.copy_of(),
            thread_id: self.thread_id.copy_of(),
            display_title: self.display_title.copy_of(),
            source_created_at: self.source_created_at.copy_of(),
            source_updated_at: self.source_updated_at.copy_of(),
            cwd: self.cwd.copy_of(),
            source_kind: self.source_kind.copy_of(),
            source_detail: self.source_detail.copy_of(),
            model_provider: self.model_provider.copy_of(),
            git_branch: self.git_branch.copy_of(),
            observation_sequence: self.observation_sequence.copy_of(),
            missing_candidate: self.missing_candidate.copy_of(),
        }
    }

    fn same_as(&self, other: &Self) -> (r: bool) {
        self.host_id.same_as(&other.host_id)
            && self.thread_id.same_as(&other.thread_id)
            && self.display_title.same_as(&other.display_title)
            && same_real(self.source_created_at.as_str(), other.source_created_at.as_str())
            && same_real(self.source_updated_at.as_str(), other.source_updated_at.as_str())
            && self.cwd.same_as(&other.cwd)
            && self.source_kind.same_as(&other.source_kind)
            && self.source_detail.same_as(&other.source_detail)
            && self.model_provider.same_as(&other.model_provider)
            && self.git_branch.same_as(&other.git_branch)
            && self.observation_sequence.same_as(&other.observation_sequence)
            && self.missing_candidate.same_as(&other.missing_candidate)
    }
}

impl PartialEq for RepairCatalogImage {
    fn eq(&self, other: &Self) -> (r: bool) {
        self.same_as(other)
    }
}

impl vstd::std_specs::cmp::PartialEqSpecImpl for RepairCatalogImage {
    open spec fn obeys_eq_spec() -> bool {
        true
    }

    open spec fn eq_spec(&self, other: &Self) -> bool {
        self.deep_view() == other.deep_view()
    }
}

/// A catalog row that a repair writes.
#[derive(Clone, Debug, PartialEq, Eq)]
pub struct RepairCatalogJournal {
    pub host_id: String,
    pub thread_id: String,
    pub before: Option<RepairCatalogImage>,
    pub after: Option<RepairCatalogImage>,
}

/// What a `RepairCatalogJournal` stands for.
#[verifier::ext_equal]
pub struct RepairCatalogJournalView {
    pub host_id: Seq<char>,
    pub thread_id: Seq<char>,
    pub before: Option<RepairCatalogImageView>,
    pub after: Option<RepairCatalogImageView>,
}

impl DeepView for RepairCatalogJournal {
    type V = RepairCatalogJournalView;

    open spec fn deep_view(&self) -> RepairCatalogJournalView {
        RepairCatalogJournalView {
            host_id: self.host_id.deep_view(),
            thread_id: self.thread_id.deep_view(),
            before: self.before.deep_view(),
            after: self.after.deep_view(),
        }
    }
}

impl Model for RepairCatalogJournal {
    fn copy_of(&self) -> (r: Self) {
        RepairCatalogJournal {
            host_id: self.host_id.copy_of(),
            thread_id: self.thread_id.copy_of(),
            before: self.before.copy_of(),
            after: self.after.copy_of(),
        }
    }

    fn same_as(&self, other: &Self) -> (r: bool) {
        self.host_id.same_as(&other.host_id)
            && self.thread_id.same_as(&other.thread_id)
            && self.before.same_as(&other.before)
            && self.after.same_as(&other.after)
    }
}

/// A JSON value that may be absent.
#[derive(Debug, PartialEq, Eq)]
pub enum RepairJsonSlot {
    Missing,
    Present(Json),
}

/// What a `RepairJsonSlot` stands for.
#[verifier::ext_equal]
pub enum RepairJsonSlotView {
    Missing,
    Present(JsonView),
}

impl DeepView for RepairJsonSlot {
    type V = RepairJsonSlotView;

    open spec fn deep_view(&self) -> RepairJsonSlotView {
        match self {
            RepairJsonSlot::Missing => RepairJsonSlotView::Missing,
            RepairJsonSlot::Present(value) => RepairJsonSlotView::Present(value.deep_view()),
        }
    }
}

impl Model for RepairJsonSlot {
    fn copy_of(&self) -> (r: Self) {
        match self {
            RepairJsonSlot::Missing => RepairJsonSlot::Missing,
            RepairJsonSlot::Present(value) => RepairJsonSlot::Present(value.copy_of()),
        }
    }

    fn same_as(&self, other: &Self) -> (r: bool) {
        match (self, other) {
            (RepairJsonSlot::Missing, RepairJsonSlot::Missing) => true,
            (RepairJsonSlot::Present(value_l), RepairJsonSlot::Present(value_r)) => value_l.same_as(value_r),
            _ => false,
        }
    }
}

/// A workspace hint that a repair writes.
#[derive(Debug, PartialEq, Eq)]
pub struct RepairWorkspaceJournal {
    pub thread_id: String,
    pub before: RepairJsonSlot,
    pub after: RepairJsonSlot,
}

/// What a `RepairWorkspaceJournal` stands for.
#[verifier::ext_equal]
pub struct RepairWorkspaceJournalView {
    pub thread_id: Seq<char>,
    pub before: RepairJsonSlotView,
    pub after: RepairJsonSlotView,
}

impl DeepView for RepairWorkspaceJournal {
    type V = RepairWorkspaceJournalView;

    open spec fn deep_view(&self) -> RepairWorkspaceJournalView {
        RepairWorkspaceJournalView {
            thread_id: self.thread_id.deep_view(),
            before: self.before.deep_view(),
            after: self.after.deep_view(),
        }
    }
}

impl Model for RepairWorkspaceJournal {
    fn copy_of(&self) -> (r: Self) {
        RepairWorkspaceJournal {
            thread_id: self.thread_id.copy_of(),
            before: self.before.copy_of(),
            after: self.after.copy_of(),
        }
    }

    fn same_as(&self, other: &Self) -> (r: bool) {
        self.thread_id.same_as(&other.thread_id)
            && self.before.same_as(&other.before)
            && self.after.same_as(&other.after)
    }
}

/// The counters of the catalog before and after a repair.
#[derive(Clone, Debug, PartialEq, Eq)]
pub struct RepairCatalogWatermarkJournal {
    pub before_observation_sequence: i64,
    pub after_observation_sequence: i64,
    pub before_catalog_revision: i64,
    pub after_catalog_revision: i64,
}

/// What a `RepairCatalogWatermarkJournal` stands for.
#[verifier::ext_equal]
pub struct RepairCatalogWatermarkJournalView {
    pub before_observation_sequence: i64,
    pub after_observation_sequence: i64,
    pub before_catalog_revision: i64,
    pub after_catalog_revision: i64,
}

impl DeepView for RepairCatalogWatermarkJournal {
    type V = RepairCatalogWatermarkJournalView;

    open spec fn deep_view(&self) -> RepairCatalogWatermarkJournalView {
        RepairCatalogWatermarkJournalView {
            before_observation_sequence: self.before_observation_sequence.deep_view(),
            after_observation_sequence: self.after_observation_sequence.deep_view(),
            before_catalog_revision: self.before_catalog_revision.deep_view(),
            after_catalog_revision: self.after_catalog_revision.deep_view(),
        }
    }
}

impl Model for RepairCatalogWatermarkJournal {
    fn copy_of(&self) -> (r: Self) {
        RepairCatalogWatermarkJournal {
            before_observation_sequence: self.before_observation_sequence.copy_of(),
            after_observation_sequence: self.after_observation_sequence.copy_of(),
            before_catalog_revision: self.before_catalog_revision.copy_of(),
            after_catalog_revision: self.after_catalog_revision.copy_of(),
        }
    }

    fn same_as(&self, other: &Self) -> (r: bool) {
        self.before_observation_sequence.same_as(&other.before_observation_sequence)
            && self.after_observation_sequence.same_as(&other.after_observation_sequence)
            && self.before_catalog_revision.same_as(&other.before_catalog_revision)
            && self.after_catalog_revision.same_as(&other.after_catalog_revision)
    }
}

/// Everything that a repair writes, before and after.
#[derive(Debug, PartialEq, Eq)]
pub struct RepairJournal {
    pub version: u32,
    pub target_provider: String,
    pub state_rows: Vec<RepairStateJournal>,
    pub rollout_rows: Vec<RepairRolloutJournal>,
    pub catalog_rows: Vec<RepairCatalogJournal>,
    pub catalog_watermarks: Option<RepairCatalogWatermarkJournal>,
    pub workspace_hints: Vec<RepairWorkspaceJournal>,
    pub projection_before: Option<ProjectionStore>,
    pub projection_after: ProjectionStore,
}

/// What a `RepairJournal` stands for.
#[verifier::ext_equal]
pub struct RepairJournalView {
    pub version: u32,
    pub target_provider: Seq<char>,
    pub state_rows: Seq<RepairStateJournalView>,
    pub rollout_rows: Seq<RepairRolloutJournalView>,
    pub catalog_rows: Seq<RepairCatalogJournalView>,
    pub catalog_watermarks: Option<RepairCatalogWatermarkJournalView>,
    pub workspace_hints: Seq<RepairWorkspaceJournalView>,
    pub projection_before: Option<ProjectionStoreView>,
    pub projection_after: ProjectionStoreView,
}

impl DeepView for RepairJournal {
    type V = RepairJournalView;

    open spec fn deep_view(&self) -> RepairJournalView {
        RepairJournalView {
            version: self.version.deep_view(),
            target_provider: self.target_provider.deep_view(),
            state_rows: self.state_rows.deep_view(),
            rollout_rows: self.rollout_rows.deep_view(),
            catalog_rows: self.catalog_rows.deep_view(),
            catalog_watermarks: self.catalog_watermarks.deep_view(),
            workspace_hints: self.workspace_hints.deep_view(),
            projection_before: self.projection_before.deep_view(),
            projection_after: self.projection_after.deep_view(),
        }
    }
}

impl Model for RepairJournal {
    fn copy_of(&self) -> (r: Self) {
        RepairJournal {
            version: self.version.copy_of(),
            target_provider: self.target_provider.copy_of(),
            state_rows: self.state_rows.copy_of(),
            rollout_rows: self.rollout_rows.copy_of(),
            catalog_rows: self.catalog_rows.copy_of(),
            catalog_watermarks: self.catalog_watermarks.copy_of(),
            workspace_hints: self.workspace_hints.copy_of(),
            projection_before: self.projection_before.copy_of(),
            projection_after: self.projection_after.copy_of(),
        }
    }

    fn same_as(&self, other: &Self) -> (r: bool) {
        self.version.same_as(&other.version)
            && self.target_provider.same_as(&other.target_provider)
            && self.state_rows.same_as(&other.state_rows)
            && self.rollout_rows.same_as(&other.rollout_rows)
            && self.catalog_rows.same_as(&other.catalog_rows)
            && self.catalog_watermarks.same_as(&other.catalog_watermarks)
            && self.workspace_hints.same_as(&other.workspace_hints)
            && self.projection_before.same_as(&other.projection_before)
            && self.projection_after.same_as(&other.projection_after)
    }
}

/// An operation that did not finish.
#[derive(Debug, PartialEq, Eq)]
pub struct PendingOperation {
    pub command: String,
    pub backup_path: String,
    pub created_at: String,
    pub phase: Option<RepairPhase>,
    pub repair_journal: Option<RepairJournal>,
}

/// What a `PendingOperation` stands for.
#[verifier::ext_equal]
pub struct PendingOperationView {
    pub command: Seq<char>,
    pub backup_path: Seq<char>,
    pub created_at: Seq<char>,
    pub phase: Option<RepairPhase>,
    pub repair_journal: Option<RepairJournalView>,
}

impl DeepView for PendingOperation {
    type V = PendingOperationView;

    open spec fn deep_view(&self) -> PendingOperationView {
        PendingOperationView {
            command: self.command.deep_view(),
            backup_path: self.backup_path.deep_view(),
            created_at: self.created_at.deep_view(),
            phase: self.phase.deep_view(),
            repair_journal: self.repair_journal.deep_view(),
        }
    }
}

impl Model for PendingOperation {
    fn copy_of(&self) -> (r: Self) {
        PendingOperation {
            command: self.command.copy_of(),
            backup_path: self.backup_path.copy_of(),
            created_at: self.created_at.copy_of(),
            phase: self.phase.copy_of(),
            repair_journal: self.repair_journal.copy_of(),
        }
    }

    fn same_as(&self, other: &Self) -> (r: bool) {
        self.command.same_as(&other.command)
            && self.backup_path.same_as(&other.backup_path)
            && self.created_at.same_as(&other.created_at)
            && self.phase.same_as(&other.phase)
            && self.repair_journal.same_as(&other.repair_journal)
    }
}

/// The key of a catalog row.
#[derive(Clone, Debug, PartialEq, Eq)]
pub struct CatalogKey {
    pub host_id: String,
    pub thread_id: String,
}

/// What a `CatalogKey` stands for.
#[verifier::ext_equal]
pub struct CatalogKeyView {
    pub host_id: Seq<char>,
    pub thread_id: Seq<char>,
}

impl DeepView for CatalogKey {
    type V = CatalogKeyView;

    open spec fn deep_view(&self) -> CatalogKeyView {
        CatalogKeyView {
            host_id: self.host_id.deep_view(),
            thread_id: self.thread_id.deep_view(),
        }
    }
}

impl Model for CatalogKey {
    fn copy_of(&self) -> (r: Self) {
        CatalogKey {
            host_id: self.host_id.copy_of(),
            thread_id: self.thread_id.copy_of(),
        }
    }

    fn same_as(&self, other: &Self) -> (r: bool) {
        self.host_id.same_as(&other.host_id)
            && self.thread_id.same_as(&other.thread_id)
    }
}

/// The counters of the catalog.
#[derive(Clone, Debug, PartialEq, Eq)]
pub struct CatalogWatermarks {
    pub observation_sequence: i64,
    pub catalog_revision: i64,
}

/// What a `CatalogWatermarks` stands for.
#[verifier::ext_equal]
pub struct CatalogWatermarksView {
    pub observation_sequence: i64,
    pub catalog_revision: i64,
}

impl DeepView for CatalogWatermarks {
    type V = CatalogWatermarksView;

    open spec fn deep_view(&self) -> CatalogWatermarksView {
        CatalogWatermarksView {
            observation_sequence: self.observation_sequence.deep_view(),
            catalog_revision: self.catalog_revision.deep_view(),
        }
    }
}

impl Model for CatalogWatermarks {
    fn copy_of(&self) -> (r: Self) {
        CatalogWatermarks {
            observation_sequence: self.observation_sequence.copy_of(),
            catalog_revision: self.catalog_revision.copy_of(),
        }
    }

    fn same_as(&self, other: &Self) -> (r: bool) {
        self.observation_sequence.same_as(&other.observation_sequence)
            && self.catalog_revision.same_as(&other.catalog_revision)
    }
}

/// How what is there now stands to what a repair found and wrote.
#[derive(Clone, Copy, Debug, PartialEq, Eq, Structural)]
pub enum JournalImageState {
    /// It is what the repair found.
    Before,
    /// It is what the repair wrote.
    After,
    /// The repair wrote what it found, and it is there.
    Both,
    /// It is what the repair wrote, changed since in ways that do not matter.
    CompatibleAfter,
    /// It is neither.
    Conflict,
}

impl DeepView for JournalImageState {
    type V = JournalImageState;

    open spec fn deep_view(&self) -> JournalImageState {
        *self
    }
}

impl Model for JournalImageState {
    fn copy_of(&self) -> (r: Self) {
        *self
    }

    fn same_as(&self, other: &Self) -> (r: bool) {
        *self == *other
    }
}

impl Ordered for CatalogKey {
    open spec fn relation_of(a: CatalogKeyView, b: CatalogKeyView) -> Relation {
        if a.host_id != b.host_id {
            text::relation(a.host_id, b.host_id)
        } else {
            text::relation(a.thread_id, b.thread_id)
        }
    }

    proof fn order_total(a: CatalogKeyView, b: CatalogKeyView) {
        text::lemma_relation(a.host_id, b.host_id);
        text::lemma_relation(a.thread_id, b.thread_id);
    }

    proof fn order_transitive(a: CatalogKeyView, b: CatalogKeyView, c: CatalogKeyView) {
        text::lemma_relation(a.host_id, b.host_id);
        text::lemma_relation(b.host_id, c.host_id);
        text::lemma_relation(a.host_id, c.host_id);
        if a.host_id == b.host_id && b.host_id == c.host_id {
            text::lemma_before_transitive(a.thread_id, b.thread_id, c.thread_id);
        } else if a.host_id != b.host_id && b.host_id != c.host_id {
            text::lemma_before_transitive(a.host_id, b.host_id, c.host_id);
        }
    }

    fn order(&self, other: &Self) -> (r: Relation) {
        proof {
            text::lemma_relation(self.host_id@, other.host_id@);
        }
        match compare(self.host_id.as_str(), other.host_id.as_str()) {
            Relation::Equal => compare(self.thread_id.as_str(), other.thread_id.as_str()),
            relation => relation,
        }
    }
}

/// A slot of an optional value.
pub open spec fn slot_of(value: Option<JsonView>) -> RepairJsonSlotView {
    match value {
        Some(value) => RepairJsonSlotView::Present(value),
        None => RepairJsonSlotView::Missing,
    }
}

/// The optional value of a slot.
pub open spec fn slot_value(slot: RepairJsonSlotView) -> Option<JsonView> {
    match slot {
        RepairJsonSlotView::Present(value) => Some(value),
        RepairJsonSlotView::Missing => None,
    }
}

impl RepairJsonSlot {
    /// A slot of an optional value.
    pub fn from_option(value: Option<Json>) -> (r: Self)
        ensures
            r.deep_view() == slot_of(value.deep_view()),
    {
        match value {
            Some(value) => RepairJsonSlot::Present(value),
            None => RepairJsonSlot::Missing,
        }
    }

    /// The optional value of the slot.
    pub fn to_option(&self) -> (r: Option<Json>)
        ensures
            r.deep_view() == slot_value(self.deep_view()),
    {
        match self {
            RepairJsonSlot::Missing => None,
            RepairJsonSlot::Present(value) => Some(value.copy_of()),
        }
    }
}

/// A slot gives back what was put in it.
pub proof fn law_slot_round_trip(value: Option<JsonView>, slot: RepairJsonSlotView)
    ensures
        slot_value(slot_of(value)) == value,
        slot_of(slot_value(slot)) == slot,
{
}

/// A slot with the plain zero for both zeros: what two slots share that are equal.
pub open spec fn plain_slot(slot: RepairJsonSlotView) -> RepairJsonSlotView {
    match slot {
        RepairJsonSlotView::Missing => RepairJsonSlotView::Missing,
        RepairJsonSlotView::Present(value) => RepairJsonSlotView::Present(json::plain(value)),
    }
}

fn find_plain_slot(slot: &RepairJsonSlot) -> (r: RepairJsonSlot)
    ensures
        r.deep_view() == plain_slot(slot.deep_view()),
{
    match slot {
        RepairJsonSlot::Missing => RepairJsonSlot::Missing,
        RepairJsonSlot::Present(value) => RepairJsonSlot::Present(value.plain_of()),
    }
}

/// How a slot stands to what a repair found and wrote.
pub open spec fn slot_state(
    current: RepairJsonSlotView,
    before: RepairJsonSlotView,
    after: RepairJsonSlotView,
) -> JournalImageState {
    image_state(plain_slot(current), plain_slot(before), plain_slot(after))
}

/// How a slot stands to what a repair found and wrote.
pub fn slot_journal_state(
    current: &RepairJsonSlot,
    before: &RepairJsonSlot,
    after: &RepairJsonSlot,
) -> (r: JournalImageState)
    ensures
        r == slot_state(current.deep_view(), before.deep_view(), after.deep_view()),
{
    journal_image_state(
        &find_plain_slot(current),
        &find_plain_slot(before),
        &find_plain_slot(after),
    )
}

/// How a value stands to what a repair found and wrote.
pub open spec fn image_state<X>(current: X, before: X, after: X) -> JournalImageState {
    if before == after && current == before {
        JournalImageState::Both
    } else if current == before {
        JournalImageState::Before
    } else if current == after {
        JournalImageState::After
    } else {
        JournalImageState::Conflict
    }
}

/// How a value stands to what a repair found and wrote.
pub fn journal_image_state<T: Model>(current: &T, before: &T, after: &T) -> (r: JournalImageState)
    ensures
        r == image_state(current.deep_view(), before.deep_view(), after.deep_view()),
{
    if before.same_as(after) && current.same_as(before) {
        JournalImageState::Both
    } else if current.same_as(before) {
        JournalImageState::Before
    } else if current.same_as(after) {
        JournalImageState::After
    } else {
        JournalImageState::Conflict
    }
}

/// The parts of a catalog row that a repair rewrites agree.
pub open spec fn same_key(a: RepairCatalogImageView, b: RepairCatalogImageView) -> bool {
    a.model_provider == b.model_provider && a.missing_candidate == b.missing_candidate
}

fn has_same_key(a: &RepairCatalogImage, b: &RepairCatalogImage) -> (r: bool)
    ensures
        r == same_key(a.deep_view(), b.deep_view()),
{
    a.model_provider.same_as(&b.model_provider) && a.missing_candidate == b.missing_candidate
}

/// How a catalog row stands to what a repair found and wrote. A row that keeps the provider that
/// was written counts as written even where the desktop touched the rest of it.
pub open spec fn catalog_image_state(
    current: Option<RepairCatalogImageView>,
    before: Option<RepairCatalogImageView>,
    after: Option<RepairCatalogImageView>,
) -> JournalImageState {
    match (current, before, after) {
        (None, None, None) => JournalImageState::Both,
        (Some(current), Some(before), Some(after)) => if same_key(before, after) && same_key(
            current,
            before,
        ) {
            JournalImageState::Both
        } else if same_key(current, before) {
            JournalImageState::Before
        } else if same_key(current, after) {
            if current == after {
                JournalImageState::After
            } else {
                JournalImageState::CompatibleAfter
            }
        } else {
            JournalImageState::Conflict
        },
        (None, None, Some(_)) => JournalImageState::Before,
        (Some(current), None, Some(after)) => if current == after {
            JournalImageState::After
        } else {
            JournalImageState::Conflict
        },
        (Some(current), Some(before), None) => if current == before {
            JournalImageState::Before
        } else {
            JournalImageState::Conflict
        },
        (None, Some(_), None) => JournalImageState::After,
        _ => JournalImageState::Conflict,
    }
}

/// How a catalog row stands to what a repair found and wrote.
pub fn catalog_journal_image_state(
    current: &Option<RepairCatalogImage>,
    before: &Option<RepairCatalogImage>,
    after: &Option<RepairCatalogImage>,
) -> (r: JournalImageState)
    ensures
        r == catalog_image_state(current.deep_view(), before.deep_view(), after.deep_view()),
{
    match (current, before, after) {
        (None, None, None) => JournalImageState::Both,
        (Some(current), Some(before), Some(after)) => {
            if has_same_key(before, after) && has_same_key(current, before) {
                JournalImageState::Both
            } else if has_same_key(current, before) {
                JournalImageState::Before
            } else if has_same_key(current, after) {
                if current.same_as(after) {
                    JournalImageState::After
                } else {
                    JournalImageState::CompatibleAfter
                }
            } else {
                JournalImageState::Conflict
            }
        },
        (None, None, Some(_)) => JournalImageState::Before,
        (Some(current), None, Some(after)) => if current.same_as(after) {
            JournalImageState::After
        } else {
            JournalImageState::Conflict
        },
        (Some(current), Some(before), None) => if current.same_as(before) {
            JournalImageState::Before
        } else {
            JournalImageState::Conflict
        },
        (None, Some(_), None) => JournalImageState::After,
        _ => JournalImageState::Conflict,
    }
}

/// How a counter stands to what a repair found and wrote; it only ever grows.
pub open spec fn watermark_state(current: i64, before: i64, after: i64) -> JournalImageState {
    if before == after && current == before {
        JournalImageState::Both
    } else if current == before {
        JournalImageState::Before
    } else if current == after {
        JournalImageState::After
    } else if current > after {
        JournalImageState::CompatibleAfter
    } else {
        JournalImageState::Conflict
    }
}

/// How a counter stands to what a repair found and wrote.
pub fn watermark_journal_image_state(current: i64, before: i64, after: i64) -> (r:
    JournalImageState)
    ensures
        r == watermark_state(current, before, after),
{
    if before == after && current == before {
        JournalImageState::Both
    } else if current == before {
        JournalImageState::Before
    } else if current == after {
        JournalImageState::After
    } else if current > after {
        JournalImageState::CompatibleAfter
    } else {
        JournalImageState::Conflict
    }
}

/// What the repair found is there.
pub open spec fn is_before(state: JournalImageState) -> bool {
    state == JournalImageState::Before || state == JournalImageState::Both
}

/// What the repair wrote is there.
pub open spec fn is_after(state: JournalImageState) -> bool {
    state == JournalImageState::After || state == JournalImageState::Both || state
        == JournalImageState::CompatibleAfter
}

/// Whether what the repair found is there.
pub fn state_is_before(state: JournalImageState) -> (r: bool)
    ensures
        r == is_before(state),
{
    state == JournalImageState::Before || state == JournalImageState::Both
}

/// Whether what the repair wrote is there.
pub fn state_is_after(state: JournalImageState) -> (r: bool)
    ensures
        r == is_after(state),
{
    state == JournalImageState::After || state == JournalImageState::Both || state
        == JournalImageState::CompatibleAfter
}

/// Whatever the values are: what the repair found reads as found, what it wrote reads as written,
/// and anything else is a conflict.
pub proof fn law_image_states_tell_apart<X>(current: X, before: X, after: X)
    ensures
        is_before(image_state(current, before, after)) <==> current == before,
        is_after(image_state(current, before, after)) <==> current == after,
        image_state(current, before, after) == JournalImageState::Conflict <==> current != before
            && current != after,
{
}

/// The provider that a state row names.
pub open spec fn image_provider(image: Option<RepairStateImageView>) -> Option<Seq<char>> {
    match image {
        Some(image) => if image.values.dom().contains("model_provider"@) {
            match image.values["model_provider"@] {
                RepairSqlValueView::Text(provider) => Some(provider),
                _ => None,
            }
        } else {
            None
        },
        None => None,
    }
}

/// The provider that a state row names.
pub fn state_image_provider(image: &Option<RepairStateImage>) -> (r: Option<String>)
    ensures
        r.deep_view() == image_provider(image.deep_view()),
{
    match image {
        Some(image) => {
            let key = "model_provider".to_owned();
            match image.values.get(&key) {
                Some(RepairSqlValue::Text(provider)) => Some(provider.copy_of()),
                _ => None,
            }
        },
        None => None,
    }
}

/// The threads of writes.
pub open spec fn write_threads<T: ThreadBound>(writes: Seq<T::V>) -> Set<Seq<char>> {
    sessions::ids_where(writes, |write: T::V| true, |write: T::V| T::thread_of(write))
}

fn add_write_threads<T: ThreadBound>(writes: &Vec<T>, out: &mut OrderedSet<String>)
    ensures
        final(out).deep_view() == old(out).deep_view().union(
            write_threads::<T>(writes.deep_view()),
        ),
{
    let ghost rows = writes.deep_view();
    let ghost before = out.deep_view();
    let mut i: usize = 0;
    assert(before.union(write_threads::<T>(rows.take(0))) =~= before);
    while i < writes.len()
        invariant
            i <= writes@.len(),
            rows == writes.deep_view(),
            out.deep_view() == before.union(write_threads::<T>(rows.take(i as int))),
        decreases writes@.len() - i,
    {
        proof {
            assert(rows[i as int] == writes@[i as int].deep_view());
            sessions::lemma_ids_where(
                rows,
                |write: T::V| true,
                |write: T::V| T::thread_of(write),
                i as int,
            );
        }
        out.insert(writes[i].thread().copy_of());
        assert(out.deep_view() =~= before.union(write_threads::<T>(rows.take(i + 1))));
        i += 1;
    }
    assert(rows.take(i as int) =~= rows);
}

impl ThreadBound for StateDelete {
    open spec fn thread_of(write: StateDeleteView) -> Seq<char> {
        write.thread_id
    }

    fn thread(&self) -> (r: &String) {
        &self.thread_id
    }
}

/// The threads whose state row a plan writes.
pub open spec fn state_keys(plan: RepairPlanView) -> Set<Seq<char>> {
    write_threads::<crate::planning::StateUpdate>(plan.state_updates).union(
        write_threads::<crate::planning::StateUpdate>(plan.state_restores),
    ).union(write_threads::<sessions::StateInsert>(plan.state_inserts)).union(
        write_threads::<StateDelete>(plan.state_deletes),
    )
}

/// The threads whose state row a plan writes.
pub fn repair_state_keys(plan: &RepairPlan) -> (r: OrderedSet<String>)
    ensures
        r.deep_view() == state_keys(plan.deep_view()),
{
    let mut out: OrderedSet<String> = OrderedSet::new();
    add_write_threads(&plan.state_updates, &mut out);
    add_write_threads(&plan.state_restores, &mut out);
    add_write_threads(&plan.state_inserts, &mut out);
    add_write_threads(&plan.state_deletes, &mut out);
    assert(out.deep_view() =~= state_keys(plan.deep_view()));
    out
}

/// A plan writes a catalog row.
pub open spec fn writes_catalog_row(plan: RepairPlanView, key: CatalogKeyView) -> bool {
    ||| exists|i: int|
        0 <= i < plan.catalog_updates.len() && (#[trigger] plan.catalog_updates[i]).host_id
            == key.host_id && plan.catalog_updates[i].thread_id == key.thread_id
    ||| exists|i: int|
        0 <= i < plan.catalog_inserts.len() && (#[trigger] plan.catalog_inserts[i]).host_id
            == key.host_id && plan.catalog_inserts[i].thread_id == key.thread_id
    ||| exists|i: int|
        0 <= i < plan.catalog_deletes.len() && (#[trigger] plan.catalog_deletes[i]).host_id
            == key.host_id && plan.catalog_deletes[i].thread_id == key.thread_id
}

/// The catalog rows that a plan writes.
pub open spec fn catalog_keys(plan: RepairPlanView) -> Set<CatalogKeyView> {
    Set::new(|key: CatalogKeyView| writes_catalog_row(plan, key))
}

/// The catalog rows that a plan writes.
pub fn repair_catalog_keys(plan: &RepairPlan) -> (r: OrderedSet<CatalogKey>)
    ensures
        r.deep_view() == catalog_keys(plan.deep_view()),
{
    let ghost view = plan.deep_view();
    let mut out: OrderedSet<CatalogKey> = OrderedSet::new();
    let mut i: usize = 0;
    while i < plan.catalog_updates.len()
        invariant
            i <= plan.catalog_updates@.len(),
            view == plan.deep_view(),
            forall|key: CatalogKeyView| #[trigger]
                out.deep_view().contains(key) <==> exists|j: int|
                    0 <= j < i && (#[trigger] view.catalog_updates[j]).host_id == key.host_id
                        && view.catalog_updates[j].thread_id == key.thread_id,
        decreases plan.catalog_updates@.len() - i,
    {
        let write = &plan.catalog_updates[i];
        assert(view.catalog_updates[i as int] == write.deep_view());
        let ghost before = out.deep_view();
        let key = CatalogKey {
            host_id: write.host_id.copy_of(),
            thread_id: write.thread_id.copy_of(),
        };
        out.insert(key);
        i += 1;
    }
    let ghost updates = out.deep_view();
    let mut k: usize = 0;
    while k < plan.catalog_inserts.len()
        invariant
            k <= plan.catalog_inserts@.len(),
            view == plan.deep_view(),
            forall|key: CatalogKeyView| #[trigger]
                out.deep_view().contains(key) <==> updates.contains(key) || exists|j: int|
                    0 <= j < k && (#[trigger] view.catalog_inserts[j]).host_id == key.host_id
                        && view.catalog_inserts[j].thread_id == key.thread_id,
        decreases plan.catalog_inserts@.len() - k,
    {
        let write = &plan.catalog_inserts[k];
        assert(view.catalog_inserts[k as int] == write.deep_view());
        let key = CatalogKey {
            host_id: write.host_id.copy_of(),
            thread_id: write.thread_id.copy_of(),
        };
        out.insert(key);
        k += 1;
    }
    let ghost both = out.deep_view();
    let mut m: usize = 0;
    while m < plan.catalog_deletes.len()
        invariant
            m <= plan.catalog_deletes@.len(),
            view == plan.deep_view(),
            forall|key: CatalogKeyView| #[trigger]
                out.deep_view().contains(key) <==> both.contains(key) || exists|j: int|
                    0 <= j < m && (#[trigger] view.catalog_deletes[j]).host_id == key.host_id
                        && view.catalog_deletes[j].thread_id == key.thread_id,
        decreases plan.catalog_deletes@.len() - m,
    {
        let write = &plan.catalog_deletes[m];
        assert(view.catalog_deletes[m as int] == write.deep_view());
        let key = CatalogKey {
            host_id: write.host_id.copy_of(),
            thread_id: write.thread_id.copy_of(),
        };
        out.insert(key);
        m += 1;
    }
    assert forall|key: CatalogKeyView| out.deep_view().contains(key) <==> catalog_keys(
        view,
    ).contains(key) by {
        assert(both.contains(key) <==> updates.contains(key) || exists|j: int|
            0 <= j < k && (#[trigger] view.catalog_inserts[j]).host_id == key.host_id
                && view.catalog_inserts[j].thread_id == key.thread_id);
    }
    assert(out.deep_view() =~= catalog_keys(view));
    out
}

/// What the first record of a rollout file says of itself.
#[derive(Clone, Debug, PartialEq, Eq)]
pub struct RolloutIdentity {
    pub id: String,
    pub path: String,
    pub archived: bool,
    pub model_provider: Option<String>,
    pub provider_field_missing: bool,
}

/// What a `RolloutIdentity` stands for.
#[verifier::ext_equal]
pub struct RolloutIdentityView {
    pub id: Seq<char>,
    pub path: Seq<char>,
    pub archived: bool,
    pub model_provider: Option<Seq<char>>,
    pub provider_field_missing: bool,
}

impl DeepView for RolloutIdentity {
    type V = RolloutIdentityView;

    open spec fn deep_view(&self) -> RolloutIdentityView {
        RolloutIdentityView {
            id: self.id.deep_view(),
            path: self.path.deep_view(),
            archived: self.archived.deep_view(),
            model_provider: self.model_provider.deep_view(),
            provider_field_missing: self.provider_field_missing.deep_view(),
        }
    }
}

impl Model for RolloutIdentity {
    fn copy_of(&self) -> (r: Self) {
        RolloutIdentity {
            id: self.id.copy_of(),
            path: self.path.copy_of(),
            archived: self.archived.copy_of(),
            model_provider: self.model_provider.copy_of(),
            provider_field_missing: self.provider_field_missing.copy_of(),
        }
    }

    fn same_as(&self, other: &Self) -> (r: bool) {
        self.id.same_as(&other.id)
            && self.path.same_as(&other.path)
            && self.archived.same_as(&other.archived)
            && self.model_provider.same_as(&other.model_provider)
            && self.provider_field_missing.same_as(&other.provider_field_missing)
    }
}

/// What is to be done to give a rollout another provider.
#[derive(Clone, Debug, PartialEq, Eq)]
pub enum RolloutRewrite {
    /// It has that provider already.
    Unchanged,
    /// Its provider field is to be removed, if it still holds this provider.
    Remove { expected: String },
    /// Its provider field is to be set.
    Write { provider: String },
}

/// What a `RolloutRewrite` stands for.
#[verifier::ext_equal]
pub enum RolloutRewriteView {
    Unchanged,
    Remove { expected: Seq<char> },
    Write { provider: Seq<char> },
}

impl DeepView for RolloutRewrite {
    type V = RolloutRewriteView;

    open spec fn deep_view(&self) -> RolloutRewriteView {
        match self {
            RolloutRewrite::Unchanged => RolloutRewriteView::Unchanged,
            RolloutRewrite::Remove { expected } => RolloutRewriteView::Remove {
                expected: expected.deep_view(),
            },
            RolloutRewrite::Write { provider } => RolloutRewriteView::Write {
                provider: provider.deep_view(),
            },
        }
    }
}

impl Model for RolloutRewrite {
    fn copy_of(&self) -> (r: Self) {
        match self {
            RolloutRewrite::Unchanged => RolloutRewrite::Unchanged,
            RolloutRewrite::Remove { expected } => RolloutRewrite::Remove {
                expected: expected.copy_of(),
            },
            RolloutRewrite::Write { provider } => RolloutRewrite::Write {
                provider: provider.copy_of(),
            },
        }
    }

    fn same_as(&self, other: &Self) -> (r: bool) {
        match (self, other) {
            (RolloutRewrite::Unchanged, RolloutRewrite::Unchanged) => true,
            (
                RolloutRewrite::Remove { expected: expected_l },
                RolloutRewrite::Remove { expected: expected_r },
            ) => expected_l.same_as(expected_r),
            (
                RolloutRewrite::Write { provider: provider_l },
                RolloutRewrite::Write { provider: provider_r },
            ) => provider_l.same_as(provider_r),
            _ => false,
        }
    }
}

/// The image of a key, if there is one.
pub open spec fn image_of<K, X>(images: Map<K, Option<X>>, key: K) -> Option<X> {
    if images.dom().contains(key) {
        images[key]
    } else {
        None
    }
}

/// A text that may be absent, or an empty one.
pub open spec fn provider_or_empty(provider: Option<Seq<char>>) -> Seq<char> {
    sessions::or_empty(provider)
}

/// The journal of a state row.
pub open spec fn state_row(
    id: Seq<char>,
    before: Option<RepairStateImageView>,
    after: Option<RepairStateImageView>,
) -> RepairStateJournalView {
    RepairStateJournalView {
        thread_id: id,
        before_provider: provider_or_empty(image_provider(before)),
        after_provider: provider_or_empty(image_provider(after)),
        row_images: Some(RepairStateRowImagesView { before, after }),
    }
}

/// The journal of the state rows of `keys`.
pub open spec fn state_rows(
    keys: Seq<Seq<char>>,
    before: Map<Seq<char>, Option<RepairStateImageView>>,
    after: Map<Seq<char>, Option<RepairStateImageView>>,
) -> Seq<RepairStateJournalView> {
    keys.map_values(
        |id: Seq<char>| state_row(id, image_of(before, id), image_of(after, id)),
    )
}

/// The journal of the catalog rows of `keys`.
pub open spec fn catalog_rows(
    keys: Seq<CatalogKeyView>,
    before: Map<CatalogKeyView, Option<RepairCatalogImageView>>,
    after: Map<CatalogKeyView, Option<RepairCatalogImageView>>,
) -> Seq<RepairCatalogJournalView> {
    keys.map_values(
        |key: CatalogKeyView|
            RepairCatalogJournalView {
                host_id: key.host_id,
                thread_id: key.thread_id,
                before: image_of(before, key),
                after: image_of(after, key),
            },
    )
}

/// The journal of workspace hints.
pub open spec fn hint_rows(updates: Seq<WorkspaceHintUpdateView>) -> Seq<
    RepairWorkspaceJournalView,
> {
    updates.map_values(
        |update: WorkspaceHintUpdateView|
            RepairWorkspaceJournalView {
                thread_id: update.thread_id,
                before: slot_of(update.expected_hint),
                after: RepairJsonSlotView::Present(JsonView::Text(update.workspace_root)),
            },
    )
}

/// Rollout rows in ascending order of their paths.
pub open spec fn rows_by_path(rows: Seq<RepairRolloutJournalView>) -> Seq<
    RepairRolloutJournalView,
> {
    ordered::sorted_pairs::<String, RepairRolloutJournalView>(
        rows.map_values(|row: RepairRolloutJournalView| (row.path, row)),
    ).map_values(|pair: (Seq<char>, RepairRolloutJournalView)| pair.1)
}

/// Sorts rollout rows by their paths.
pub fn sort_rollout_rows(rows: &Vec<RepairRolloutJournal>) -> (r: Vec<RepairRolloutJournal>)
    ensures
        r.deep_view() == rows_by_path(rows.deep_view()),
{
    let ghost view = rows.deep_view();
    let mut pairs: Vec<(String, RepairRolloutJournal)> = Vec::new();
    let mut i: usize = 0;
    while i < rows.len()
        invariant
            i <= rows@.len(),
            view == rows.deep_view(),
            pairs@.len() == i,
            forall|j: int| 0 <= j < i ==> #[trigger] pairs@[j].deep_view() == (view[j].path, view[j]),
        decreases rows@.len() - i,
    {
        assert(view[i as int] == rows@[i as int].deep_view());
        pairs.push((rows[i].path.copy_of(), rows[i].copy_of()));
        i += 1;
    }
    assert(pairs.deep_view() =~= view.map_values(
        |row: RepairRolloutJournalView| (row.path, row),
    ));
    let sorted = sort_pairs(pairs);
    let ghost ordered_view = sorted.deep_view();
    let mut out: Vec<RepairRolloutJournal> = Vec::new();
    let mut k: usize = 0;
    while k < sorted.len()
        invariant
            k <= sorted@.len(),
            ordered_view == sorted.deep_view(),
            out@.len() == k,
            forall|j: int| 0 <= j < k ==> #[trigger] out@[j].deep_view() == ordered_view[j].1,
        decreases sorted@.len() - k,
    {
        assert(ordered_view[k as int].1 == sorted@[k as int].1.deep_view());
        out.push(sorted[k].1.copy_of());
        k += 1;
    }
    assert(out.deep_view() =~= rows_by_path(view));
    out
}

/// The journal of the counters of the catalog.
pub open spec fn watermark_row(
    before: Option<CatalogWatermarksView>,
    after: Option<CatalogWatermarksView>,
) -> Option<RepairCatalogWatermarkJournalView> {
    match (before, after) {
        (Some(before), Some(after)) => Some(
            RepairCatalogWatermarkJournalView {
                before_observation_sequence: before.observation_sequence,
                after_observation_sequence: after.observation_sequence,
                before_catalog_revision: before.catalog_revision,
                after_catalog_revision: after.catalog_revision,
            },
        ),
        _ => None,
    }
}

fn journal_state_rows(
    keys: &OrderedSet<String>,
    before: &OrderedMap<String, Option<RepairStateImage>>,
    after: &OrderedMap<String, Option<RepairStateImage>>,
) -> (r: Vec<RepairStateJournal>)
    ensures
        r.deep_view() == state_rows(
            ordered::listed::<String>(keys.deep_view()),
            before.deep_view(),
            after.deep_view(),
        ),
{
    let n: usize = keys.len();
    let ghost items = keys.items();
    let ghost all = state_rows(items, before.deep_view(), after.deep_view());
    let mut out: Vec<RepairStateJournal> = Vec::new();
    let mut i: usize = 0;
    while i < n
        invariant
            i <= n == items.len(),
            items == keys.items(),
            all == state_rows(items, before.deep_view(), after.deep_view()),
            out@.len() == i,
            forall|j: int| 0 <= j < i ==> #[trigger] out@[j].deep_view() == all[j],
        decreases n - i,
    {
        let id = keys.item_at(i);
        let earlier: Option<RepairStateImage> = match before.get(id) {
            Some(image) => image.copy_of(),
            None => None,
        };
        let later: Option<RepairStateImage> = match after.get(id) {
            Some(image) => image.copy_of(),
            None => None,
        };
        let before_provider = sessions::text_or_empty(&state_image_provider(&earlier));
        let after_provider = sessions::text_or_empty(&state_image_provider(&later));
        out.push(
            RepairStateJournal {
                thread_id: id.copy_of(),
                before_provider,
                after_provider,
                row_images: Some(RepairStateRowImages { before: earlier, after: later }),
            },
        );
        i += 1;
    }
    assert(out.deep_view() =~= all);
    out
}

fn journal_catalog_rows(
    keys: &OrderedSet<CatalogKey>,
    before: &OrderedMap<CatalogKey, Option<RepairCatalogImage>>,
    after: &OrderedMap<CatalogKey, Option<RepairCatalogImage>>,
) -> (r: Vec<RepairCatalogJournal>)
    ensures
        r.deep_view() == catalog_rows(
            ordered::listed::<CatalogKey>(keys.deep_view()),
            before.deep_view(),
            after.deep_view(),
        ),
{
    let n: usize = keys.len();
    let ghost items = keys.items();
    let ghost all = catalog_rows(items, before.deep_view(), after.deep_view());
    let mut out: Vec<RepairCatalogJournal> = Vec::new();
    let mut i: usize = 0;
    while i < n
        invariant
            i <= n == items.len(),
            items == keys.items(),
            all == catalog_rows(items, before.deep_view(), after.deep_view()),
            out@.len() == i,
            forall|j: int| 0 <= j < i ==> #[trigger] out@[j].deep_view() == all[j],
        decreases n - i,
    {
        let key = keys.item_at(i);
        let earlier: Option<RepairCatalogImage> = match before.get(key) {
            Some(image) => image.copy_of(),
            None => None,
        };
        let later: Option<RepairCatalogImage> = match after.get(key) {
            Some(image) => image.copy_of(),
            None => None,
        };
        out.push(
            RepairCatalogJournal {
                host_id: key.host_id.copy_of(),
                thread_id: key.thread_id.copy_of(),
                before: earlier,
                after: later,
            },
        );
        i += 1;
    }
    assert(out.deep_view() =~= all);
    out
}

fn journal_hints(updates: &Vec<WorkspaceHintUpdate>) -> (r: Vec<RepairWorkspaceJournal>)
    ensures
        r.deep_view() == hint_rows(updates.deep_view()),
{
    let ghost view = updates.deep_view();
    let ghost all = hint_rows(view);
    let mut out: Vec<RepairWorkspaceJournal> = Vec::new();
    let mut i: usize = 0;
    while i < updates.len()
        invariant
            i <= updates@.len(),
            view == updates.deep_view(),
            all == hint_rows(view),
            out@.len() == i,
            forall|j: int| 0 <= j < i ==> #[trigger] out@[j].deep_view() == all[j],
        decreases updates@.len() - i,
    {
        assert(view[i as int] == updates@[i as int].deep_view());
        out.push(
            RepairWorkspaceJournal {
                thread_id: updates[i].thread_id.copy_of(),
                before: RepairJsonSlot::from_option(updates[i].expected_hint.copy_of()),
                after: RepairJsonSlot::Present(Json::Text(updates[i].workspace_root.copy_of())),
            },
        );
        i += 1;
    }
    assert(out.deep_view() =~= all);
    out
}

/// The journal of a repair, given the rows of its write set as they were found and as they were
/// staged.
pub fn build_repair_journal(
    plan: &RepairPlan,
    rollout_rows: &Vec<RepairRolloutJournal>,
    state_before: &OrderedMap<String, Option<RepairStateImage>>,
    state_after: &OrderedMap<String, Option<RepairStateImage>>,
    catalog_before: &OrderedMap<CatalogKey, Option<RepairCatalogImage>>,
    catalog_after: &OrderedMap<CatalogKey, Option<RepairCatalogImage>>,
    watermarks_before: &Option<CatalogWatermarks>,
    watermarks_after: &Option<CatalogWatermarks>,
    projection_before: Option<&ProjectionStore>,
    projection_after: &ProjectionStore,
) -> (r: RepairJournal)
    ensures
        r.deep_view() == (RepairJournalView {
            version: 5,
            target_provider: projection::provider_id(projection_after.deep_view().target_provider),
            state_rows: state_rows(
                ordered::listed::<String>(state_keys(plan.deep_view())),
                state_before.deep_view(),
                state_after.deep_view(),
            ),
            rollout_rows: rows_by_path(rollout_rows.deep_view()),
            catalog_rows: catalog_rows(
                ordered::listed::<CatalogKey>(catalog_keys(plan.deep_view())),
                catalog_before.deep_view(),
                catalog_after.deep_view(),
            ),
            catalog_watermarks: watermark_row(
                watermarks_before.deep_view(),
                watermarks_after.deep_view(),
            ),
            workspace_hints: hint_rows(plan.deep_view().workspace_hint_updates),
            projection_before: sessions::store_view(projection_before),
            projection_after: projection_after.deep_view(),
        }),
{
    let catalog_watermarks: Option<RepairCatalogWatermarkJournal> = match (
        watermarks_before,
        watermarks_after,
    ) {
        (Some(before), Some(after)) => Some(
            RepairCatalogWatermarkJournal {
                before_observation_sequence: before.observation_sequence,
                after_observation_sequence: after.observation_sequence,
                before_catalog_revision: before.catalog_revision,
                after_catalog_revision: after.catalog_revision,
            },
        ),
        _ => None,
    };
    let known: Option<ProjectionStore> = match projection_before {
        Some(store) => Some(store.copy_of()),
        None => None,
    };
    RepairJournal {
        version: 5,
        target_provider: projection_after.target_provider.as_str().to_owned(),
        state_rows: journal_state_rows(&repair_state_keys(plan), state_before, state_after),
        rollout_rows: sort_rollout_rows(rollout_rows),
        catalog_rows: journal_catalog_rows(
            &repair_catalog_keys(plan),
            catalog_before,
            catalog_after,
        ),
        catalog_watermarks,
        workspace_hints: journal_hints(&plan.workspace_hint_updates),
        projection_before: known,
        projection_after: projection_after.copy_of(),
    }
}

/// The parts name a rollout file.
pub open spec fn is_rollout_file(parts: Seq<PathPartView>) -> bool {
    match paths::extension_of(parts) {
        Some(extension) => text::lowered(extension) == text::lowered("jsonl"@),
        None => false,
    }
}

fn names_rollout_file(parts: &Vec<PathPart>) -> (r: bool)
    ensures
        r == is_rollout_file(parts.deep_view()),
{
    match find_extension(parts) {
        Some(extension) => text::same_ignoring_case(extension.as_str(), "jsonl"),
        None => false,
    }
}

/// The parts begin with a directory of rollouts.
pub open spec fn among_rollouts(parts: Seq<PathPartView>) -> bool {
    paths::root_name(parts) == "sessions"@ || paths::root_name(parts) == "archived_sessions"@
}

/// The path of a rollout below the home, as the journal keeps it.
pub open spec fn relative_rollout(
    relative: Option<Seq<char>>,
    shown: Seq<char>,
    style: PathStyle,
) -> Result<Seq<char>, Seq<char>> {
    match relative {
        None => Err("rollout is outside CODEX_HOME: "@ + shown),
        Some(path) => {
            let parts = paths::parts_of(path, style);
            if !paths::only_names(parts) {
                Err("rollout path is not normalized: "@ + shown)
            } else if !among_rollouts(parts) || !is_rollout_file(parts) {
                Err("unsafe rollout path: "@ + shown)
            } else {
                Ok(text::replaced(path, '\\', '/'))
            }
        },
    }
}

/// The path of a rollout below the home, as the journal keeps it. `relative` is what is left of the
/// path below the home, if it lies there; `shown` is the path as messages show it.
pub fn rollout_relative_path(relative: &Option<String>, shown: &str, style: PathStyle) -> (r: Result<
    String,
    String,
>)
    ensures
        crate::model::outcome(r) == relative_rollout(relative.deep_view(), shown@, style),
{
    match relative {
        None => Err(join2("rollout is outside CODEX_HOME: ", shown)),
        Some(path) => {
            let parts = find_parts(path.as_str(), style);
            if !has_only_names(&parts) {
                return Err(join2("rollout path is not normalized: ", shown));
            }
            let root = find_root_name(&parts);
            if (!same(root.as_str(), "sessions") && !same(root.as_str(), "archived_sessions"))
                || !names_rollout_file(&parts) {
                return Err(join2("unsafe rollout path: ", shown));
            }
            Ok(text::replace_char(path.as_str(), '\\', '/'))
        },
    }
}

/// Whether a rollout path of a journal lies among the archived ones, or why it is refused.
pub open spec fn archived_path(relative: Seq<char>, style: PathStyle) -> Result<bool, Seq<char>> {
    let parts = paths::parts_of(relative, style);
    if !paths::only_names(parts) {
        Err("unsafe rollout path in journal: "@ + relative)
    } else if !among_rollouts(parts) {
        Err("unsafe rollout root in journal: "@ + relative)
    } else if !is_rollout_file(parts) {
        Err("journal rollout is not JSONL: "@ + relative)
    } else {
        Ok(paths::root_name(parts) == "archived_sessions"@)
    }
}

/// Whether a rollout path of a journal lies among the archived ones, or why it is refused. A path
/// that leaves the home, or that is no rollout file, is never used.
pub fn rollout_path_from_relative(relative: &str, style: PathStyle) -> (r: Result<bool, String>)
    ensures
        crate::model::outcome(r) == archived_path(relative@, style),
{
    let parts = find_parts(relative, style);
    if !has_only_names(&parts) {
        return Err(join2("unsafe rollout path in journal: ", relative));
    }
    let root = find_root_name(&parts);
    let archived = if same(root.as_str(), "sessions") {
        proof {
            reveal_strlit("sessions");
            reveal_strlit("archived_sessions");
            assert("sessions"@.len() != "archived_sessions"@.len());
        }
        false
    } else if same(root.as_str(), "archived_sessions") {
        true
    } else {
        return Err(join2("unsafe rollout root in journal: ", relative));
    };
    if !names_rollout_file(&parts) {
        return Err(join2("journal rollout is not JSONL: ", relative));
    }
    Ok(archived)
}

/// A rollout path of a journal stays below the home: it begins with no root and no drive, and no
/// part of it leads out.
pub proof fn law_journal_paths_stay_inside(relative: Seq<char>, style: PathStyle)
    ensures
        archived_path(relative, style) is Ok ==> !paths::rooted(relative, style)
            && paths::only_names(paths::parts_of(relative, style)) && is_rollout_file(
            paths::parts_of(relative, style),
        ),
{
    if paths::rooted(relative, style) {
        assert(paths::parts_of(relative, style)[0] is Other);
    }
}

/// The journal of a rollout update, given its path below the home.
pub fn rollout_journal_from_update(
    update: &RolloutUpdate,
    relative: Result<String, String>,
) -> (r: Result<RepairRolloutJournal, String>)
    ensures
        crate::model::outcome(r) == (match crate::model::outcome(relative) {
            Ok(path) => Ok(
                RepairRolloutJournalView {
                    thread_id: update.thread_id@,
                    path,
                    archived: update.archived,
                    before_provider: update.expected_provider.deep_view(),
                    after_provider: update.provider.deep_view(),
                },
            ),
            Err(message) => Err(message),
        }),
{
    match relative {
        Ok(path) => Ok(
            RepairRolloutJournal {
                thread_id: update.thread_id.copy_of(),
                path,
                archived: update.archived,
                before_provider: update.expected_provider.copy_of(),
                after_provider: update.provider.copy_of(),
            },
        ),
        Err(message) => Err(message),
    }
}

/// Why a rollout file is not the one that a journal row speaks of.
pub open spec fn identity_fault(
    row: RepairRolloutJournalView,
    archived: Result<bool, Seq<char>>,
    path: Seq<char>,
    found: Result<RolloutIdentityView, Seq<char>>,
) -> Option<Seq<char>> {
    match archived {
        Err(message) => Some(message),
        Ok(archived) => if archived != row.archived {
            Some("rollout archive flag does not match path: "@ + row.path)
        } else {
            match found {
                Err(message) => Some(message),
                Ok(identity) => if identity.id != row.thread_id || identity.path != path
                    || identity.archived != archived {
                    Some("rollout identity changed: "@ + row.thread_id)
                } else {
                    None
                },
            }
        },
    }
}

/// Holds a rollout file to the journal row that speaks of it: the path, the archive and the thread
/// must be the same. `found` is what was read at `path`.
pub fn validate_rollout_journal_path(
    row: &RepairRolloutJournal,
    archived: Result<bool, String>,
    path: &str,
    found: &Result<RolloutIdentity, String>,
) -> (r: Result<(), String>)
    ensures
        match r {
            Ok(()) => identity_fault(
                row.deep_view(),
                crate::model::outcome(archived),
                path@,
                crate::model::outcome(*found),
            ) is None,
            Err(message) => identity_fault(
                row.deep_view(),
                crate::model::outcome(archived),
                path@,
                crate::model::outcome(*found),
            ) == Some(message@),
        },
{
    let archived = match archived {
        Ok(archived) => archived,
        Err(message) => {
            return Err(message);
        },
    };
    if archived != row.archived {
        return Err(join2("rollout archive flag does not match path: ", row.path.as_str()));
    }
    match found {
        Err(message) => Err(message.copy_of()),
        Ok(identity) => {
            if !identity.id.same_as(&row.thread_id) || !same(identity.path.as_str(), path)
                || identity.archived != archived {
                Err(join2("rollout identity changed: ", row.thread_id.as_str()))
            } else {
                Ok(())
            }
        },
    }
}

/// The provider of a rollout file, or why it cannot be told.
pub open spec fn provider_slot(
    found: Result<RolloutIdentityView, Seq<char>>,
    path: Seq<char>,
) -> Result<Option<Seq<char>>, Seq<char>> {
    match found {
        Err(message) => Err(message),
        Ok(identity) => if identity.model_provider is None && !identity.provider_field_missing {
            Err("rollout provider field is present but invalid: "@ + path)
        } else {
            Ok(identity.model_provider)
        },
    }
}

/// The provider of a rollout file; a file whose provider field is there but invalid is refused.
pub fn read_rollout_provider_slot(
    found: &Result<RolloutIdentity, String>,
    path: &str,
) -> (r: Result<Option<String>, String>)
    ensures
        crate::model::outcome(r) == provider_slot(crate::model::outcome(*found), path@),
{
    match found {
        Err(message) => Err(message.copy_of()),
        Ok(identity) => {
            if identity.model_provider.is_none() && !identity.provider_field_missing {
                Err(join2("rollout provider field is present but invalid: ", path))
            } else {
                Ok(identity.model_provider.copy_of())
            }
        },
    }
}

/// How the provider of a rollout stands to what a repair found and wrote.
pub fn rollout_journal_state(row: &RepairRolloutJournal, current: &Option<String>) -> (r:
    JournalImageState)
    ensures
        r == image_state(
            current.deep_view(),
            row.before_provider.deep_view(),
            row.after_provider.deep_view(),
        ),
{
    journal_image_state(current, &row.before_provider, &row.after_provider)
}

/// A provider slot as messages show it.
pub open spec fn shown_slot(slot: Option<Seq<char>>) -> Seq<char> {
    match slot {
        Some(provider) => "Some("@ + text::debug_quoted(provider) + ")"@,
        None => "None"@,
    }
}

/// A provider slot as messages show it.
pub fn show_slot(slot: &Option<String>) -> (r: String)
    ensures
        r@ == shown_slot(slot.deep_view()),
{
    match slot {
        Some(provider) => {
            let quoted = text::debug_quote(provider.as_str());
            text::join3("Some(", quoted.as_str(), ")")
        },
        None => "None".to_owned(),
    }
}

/// What is to be done to give a rollout the provider `target`, or why it may not be done.
pub open spec fn rewrite_of(
    id: Seq<char>,
    current: Option<Seq<char>>,
    expected: Option<Seq<char>>,
    target: Option<Seq<char>>,
) -> Result<RolloutRewriteView, Seq<char>> {
    if current != expected {
        Err(
            "rollout provider changed before write: "@ + id + " (expected: "@ + shown_slot(
                expected,
            ) + ", current: "@ + shown_slot(current) + ")"@,
        )
    } else if current == target {
        Ok(RolloutRewriteView::Unchanged)
    } else {
        match target {
            Some(provider) => Ok(RolloutRewriteView::Write { provider }),
            None => Ok(RolloutRewriteView::Remove { expected: current->0 }),
        }
    }
}

/// Decides how a rollout is given the provider `target`; it must still hold what is expected.
pub fn rewrite_rollout_provider(
    id: &String,
    current: &Option<String>,
    expected: &Option<String>,
    target: &Option<String>,
) -> (r: Result<RolloutRewrite, String>)
    ensures
        crate::model::outcome(r) == rewrite_of(
            id@,
            current.deep_view(),
            expected.deep_view(),
            target.deep_view(),
        ),
{
    if !current.same_as(expected) {
        let wanted = show_slot(expected);
        let found = show_slot(current);
        let head = text::join4(
            "rollout provider changed before write: ",
            id.as_str(),
            " (expected: ",
            wanted.as_str(),
        );
        return Err(text::join4(head.as_str(), ", current: ", found.as_str(), ")"));
    }
    if current.same_as(target) {
        return Ok(RolloutRewrite::Unchanged);
    }
    match target {
        Some(provider) => Ok(RolloutRewrite::Write { provider: provider.copy_of() }),
        None => match current {
            Some(provider) => Ok(RolloutRewrite::Remove { expected: provider.copy_of() }),
            None => {
                assert(false);
                Ok(RolloutRewrite::Unchanged)
            },
        },
    }
}

/// A rollout is rewritten only where it still holds what was expected.
pub proof fn law_rewrite_needs_the_expected_provider(
    id: Seq<char>,
    current: Option<Seq<char>>,
    expected: Option<Seq<char>>,
    target: Option<Seq<char>>,
)
    ensures
        rewrite_of(id, current, expected, target) is Ok <==> current == expected,
        rewrite_of(id, current, expected, target) == Ok::<RolloutRewriteView, Seq<char>>(
            RolloutRewriteView::Unchanged,
        ) <==> current == expected && current == target,
{
}

/// Checks that every rollout of a write set was rewritten.
pub fn check_rollout_count(changed: usize, expected: usize) -> (r: Result<usize, String>)
    ensures
        crate::model::outcome(r) == (if changed == expected {
            Ok(changed)
        } else {
            Err(
                "rollout update count mismatch: expected "@ + text::decimal_text(expected as nat)
                    + ", got "@ + text::decimal_text(changed as nat),
            )
        }),
{
    if changed == expected {
        Ok(changed)
    } else {
        let wanted = text::decimal(expected as u64);
        let got = text::decimal(changed as u64);
        Err(
            text::join4(
                "rollout update count mismatch: expected ",
                wanted.as_str(),
                ", got ",
                got.as_str(),
            ),
        )
    }
}

proof fn lemma_root_names()
    ensures
        "sessions"@.len() == 8,
        "sessions"@[0] == 's',
        "sessions"@[1] == 'e',
        "archived_sessions"@.len() == 17,
        "archived_sessions"@[0] == 'a',
        "archived_sessions"@[1] == 'r',
        paths::last_dot("sessions"@) == -1,
        paths::last_dot("archived_sessions"@) == -1,
        "archived_sessions/"@ == "archived_sessions"@ + seq!['/'],
        forall|i: int| 0 <= i < 17 ==> #[trigger] "archived_sessions"@[i] != '/'
            && "archived_sessions"@[i] != '\\',
{
    reveal_strlit("sessions");
    reveal_strlit("archived_sessions");
    reveal_strlit("archived_sessions/");
    reveal_with_fuel(paths::last_dot, 18);
    assert("archived_sessions/"@ =~= "archived_sessions"@ + seq!['/']);
}

/// Slashes for backslashes change nothing where both stand between parts, or where there is no
/// backslash.
proof fn lemma_slashed_parts(path: Seq<char>, style: PathStyle, again: PathStyle, first: bool)
    requires
        style == PathStyle::Windows || !path.contains('\\'),
    ensures
        paths::listed_parts(text::replaced(path, '\\', '/'), again, first) == paths::listed_parts(
            path,
            style,
            first,
        ),
    decreases path.len(),
{
    let kept = text::replaced(path, '\\', '/');
    if path.len() > 0 {
        lemma_slashed_piece(path, style, again);
        let end = paths::piece_end(path, style) as int;
        paths::lemma_piece_end(path, style);
        assert(kept.take(end) =~= path.take(end)) by {
            assert forall|i: int| 0 <= i < end implies kept[i] == path[i] by {
                assert(!paths::parts_at(path[i], style));
                assert(path.contains(path[i]));
            }
        }
        let rest = paths::after_piece(path, style);
        assert(paths::after_piece(kept, again) =~= text::replaced(rest, '\\', '/'));
        assert(!path.contains('\\') ==> !rest.contains('\\')) by {
            if rest.contains('\\') {
                let i = choose|i: int| 0 <= i < rest.len() && rest[i] == '\\';
                assert(path[end + 1 + i] == '\\');
            }
        }
        lemma_slashed_parts(rest, style, again, false);
    }
}

proof fn lemma_slashed_piece(path: Seq<char>, style: PathStyle, again: PathStyle)
    requires
        style == PathStyle::Windows || !path.contains('\\'),
    ensures
        paths::piece_end(text::replaced(path, '\\', '/'), again) == paths::piece_end(path, style),
    decreases path.len(),
{
    let kept = text::replaced(path, '\\', '/');
    if path.len() > 0 {
        assert(path.contains(path[0]));
        assert(kept.drop_first() =~= text::replaced(path.drop_first(), '\\', '/'));
        assert(!path.contains('\\') ==> !path.drop_first().contains('\\')) by {
            if path.drop_first().contains('\\') {
                let i = choose|i: int|
                    0 <= i < path.len() - 1 && path.drop_first()[i] == '\\';
                assert(path[i + 1] == '\\');
            }
        }
        lemma_slashed_piece(path.drop_first(), style, again);
    }
}

/// A rollout path begins with the name of its directory and a separator.
proof fn lemma_rollout_root(path: Seq<char>, style: PathStyle)
    requires
        paths::only_names(paths::parts_of(path, style)),
        among_rollouts(paths::parts_of(path, style)),
        is_rollout_file(paths::parts_of(path, style)),
    ensures
        !paths::rooted(path, style),
        ({
            let root = paths::root_name(paths::parts_of(path, style));
            root.len() < path.len() && path.take(root.len() as int) == root && paths::parts_at(
                path[root.len() as int],
                style,
            )
        }),
{
    lemma_root_names();
    let parts = paths::parts_of(path, style);
    if paths::rooted(path, style) {
        assert(parts[0] is Other);
    }
    let root = paths::root_name(parts);
    assert(path.len() > 0);
    paths::lemma_piece_end(path, style);
    let end = paths::piece_end(path, style) as int;
    assert(end > 0);
    let piece = path.take(end);
    let part = paths::part_of(piece, true);
    assert(part is Some);
    assert(parts[0] == part->0);
    assert(root == piece);
    if end == path.len() {
        let rest = paths::after_piece(path, style);
        assert(rest.len() == 0);
        assert(paths::listed_parts(rest, style, false).len() == 0);
        assert(parts =~= seq![part->0]);
        assert(paths::extension_of(parts) is None);
    }
}

/// A rollout path that the journal keeps is found again, whichever way paths are read: the kept text
/// has the parts of the path, and it lies among the archived ones exactly if it begins with their
/// directory. Where a backslash is no separator, the path must hold none.
pub proof fn law_rollout_path_round_trip(
    relative: Seq<char>,
    shown: Seq<char>,
    style: PathStyle,
    again: PathStyle,
)
    requires
        relative_rollout(Some(relative), shown, style) is Ok,
        style == PathStyle::Windows || !relative.contains('\\'),
    ensures
        ({
            let kept = relative_rollout(Some(relative), shown, style)->Ok_0;
            &&& paths::parts_of(kept, again) == paths::parts_of(relative, style)
            &&& archived_path(kept, again) == Ok::<bool, Seq<char>>(
                text::has_prefix(kept, "archived_sessions/"@),
            )
        }),
{
    let kept = relative_rollout(Some(relative), shown, style)->Ok_0;
    let parts = paths::parts_of(relative, style);
    lemma_root_names();
    lemma_rollout_root(relative, style);
    let root = paths::root_name(parts);
    let n = root.len() as int;
    assert(relative.take(n)[0] == relative[0] && relative.take(n)[1] == relative[1]);
    assert(relative.contains(relative[n]));
    assert(kept[n] == '/');
    assert(!paths::rooted(kept, again));
    lemma_slashed_parts(relative, style, again, true);
    let archived = "archived_sessions"@;
    if root == archived {
        assert(kept.take(n + 1) =~= archived + seq!['/']) by {
            assert forall|i: int| 0 <= i < n implies kept[i] == archived[i] by {
                assert(relative.take(n)[i] == relative[i]);
            }
        }
    } else if text::has_prefix(kept, "archived_sessions/"@) {
        assert(kept.take(18)[0] == kept[0]);
        assert((archived + seq!['/'])[0] == 'a');
    }
}

/// A path in a journal that begins with a root or a drive, leaves its directory, begins with another
/// directory or is no rollout file is refused, and no other.
pub proof fn law_foreign_rollout_path_is_refused(relative: Seq<char>, style: PathStyle)
    ensures
        ({
            let parts = paths::parts_of(relative, style);
            &&& archived_path(relative, style) is Err <==> !paths::only_names(parts)
                || !among_rollouts(parts) || !is_rollout_file(parts)
            &&& paths::rooted(relative, style) ==> archived_path(relative, style) is Err
        }),
{
    if paths::rooted(relative, style) {
        assert(paths::parts_of(relative, style)[0] is Other);
    }
}

/// A catalog row that a repair left untouched reads as found, one that it wrote as written, and one
/// whose provider is neither is a conflict. A counter that has not moved reads as found, one that
/// was written or has grown since as written.
pub proof fn law_catalog_states_tell_apart(
    current: RepairCatalogImageView,
    before: RepairCatalogImageView,
    after: RepairCatalogImageView,
    count: i64,
    old_count: i64,
    new_count: i64,
)
    ensures
        is_before(catalog_image_state(Some(before), Some(before), Some(after))),
        is_after(catalog_image_state(Some(after), Some(before), Some(after))),
        current.model_provider != before.model_provider && current.model_provider
            != after.model_provider ==> catalog_image_state(
            Some(current),
            Some(before),
            Some(after),
        ) == JournalImageState::Conflict,
        before.model_provider != after.model_provider ==> !is_before(
            catalog_image_state(Some(after), Some(before), Some(after)),
        ) && !is_after(catalog_image_state(Some(before), Some(before), Some(after))),
        is_before(catalog_image_state(None, None, Some(after))),
        is_after(catalog_image_state(Some(after), None, Some(after))),
        is_before(catalog_image_state(Some(before), Some(before), None)),
        is_after(catalog_image_state(None, Some(before), None)),
        current != after ==> catalog_image_state(Some(current), None, Some(after))
            == JournalImageState::Conflict,
        current != before ==> catalog_image_state(Some(current), Some(before), None)
            == JournalImageState::Conflict,
        is_before(watermark_state(count, old_count, new_count)) <==> count == old_count,
        count != old_count ==> (is_after(watermark_state(count, old_count, new_count)) <==> count
            >= new_count),
        watermark_state(count, old_count, new_count) == JournalImageState::Conflict <==> count
            != old_count && count < new_count,
        watermark_state(count, old_count, new_count) == JournalImageState::After <==> count
            == new_count && count != old_count,
{
}

/// The journal of a repair has, for every state row that the plan writes, the row as it was found
/// and as it was staged, and for no other; the same of the catalog.
pub proof fn law_journal_covers_the_plan(
    plan: RepairPlanView,
    state_before: Map<Seq<char>, Option<RepairStateImageView>>,
    state_after: Map<Seq<char>, Option<RepairStateImageView>>,
    id: Seq<char>,
)
    requires
        state_keys(plan).finite(),
    ensures
        ({
            let rows = state_rows(
                ordered::listed::<String>(state_keys(plan)),
                state_before,
                state_after,
            );
            let planned = (exists|i: int|
                0 <= i < plan.state_updates.len() && (#[trigger] plan.state_updates[i]).thread_id
                    == id) || (exists|i: int|
                0 <= i < plan.state_restores.len() && (#[trigger] plan.state_restores[i]).thread_id
                    == id) || (exists|i: int|
                0 <= i < plan.state_inserts.len() && (#[trigger] plan.state_inserts[i]).thread_id
                    == id) || (exists|i: int|
                0 <= i < plan.state_deletes.len() && (#[trigger] plan.state_deletes[i]).thread_id
                    == id);
            &&& planned <==> exists|k: int|
                0 <= k < rows.len() && (#[trigger] rows[k]).thread_id == id
            &&& forall|k: int|
                0 <= k < rows.len() ==> {
                    let row = #[trigger] rows[k];
                    &&& row.row_images is Some
                    &&& row.row_images->0.before == image_of(state_before, row.thread_id)
                    &&& row.row_images->0.after == image_of(state_after, row.thread_id)
                }
        }),
{
    let keys = ordered::listed::<String>(state_keys(plan));
    let rows = state_rows(keys, state_before, state_after);
    ordered::lemma_finite_is_listed::<String>(state_keys(plan));
    lemma_write_threads::<crate::planning::StateUpdate>(plan.state_updates, id);
    lemma_write_threads::<crate::planning::StateUpdate>(plan.state_restores, id);
    lemma_write_threads::<sessions::StateInsert>(plan.state_inserts, id);
    lemma_write_threads::<StateDelete>(plan.state_deletes, id);
    assert(state_keys(plan).contains(id) <==> {
        ||| exists|i: int|
            0 <= i < plan.state_updates.len() && (#[trigger] plan.state_updates[i]).thread_id == id
        ||| exists|i: int|
            0 <= i < plan.state_restores.len() && (#[trigger] plan.state_restores[i]).thread_id
                == id
        ||| exists|i: int|
            0 <= i < plan.state_inserts.len() && (#[trigger] plan.state_inserts[i]).thread_id == id
        ||| exists|i: int|
            0 <= i < plan.state_deletes.len() && (#[trigger] plan.state_deletes[i]).thread_id == id
    });
    if state_keys(plan).contains(id) {
        assert(keys.contains(id));
        let k = choose|k: int| 0 <= k < keys.len() && keys[k] == id;
        assert(rows[k].thread_id == id);
    }
    if exists|k: int| 0 <= k < rows.len() && (#[trigger] rows[k]).thread_id == id {
        let k = choose|k: int| 0 <= k < rows.len() && (#[trigger] rows[k]).thread_id == id;
        assert(keys[k] == id);
        assert(keys.contains(id));
        assert(state_keys(plan).contains(id));
    }
}

proof fn lemma_write_threads<T: ThreadBound>(writes: Seq<T::V>, id: Seq<char>)
    ensures
        write_threads::<T>(writes).contains(id) <==> exists|i: int|
            0 <= i < writes.len() && T::thread_of(#[trigger] writes[i]) == id,
{
}

/// The journal of a rollout rewrite says what the rollout named before and what it is to name.
pub proof fn law_rollout_rewrite_is_reversible(
    id: Seq<char>,
    before: Option<Seq<char>>,
    after: Option<Seq<char>>,
)
    requires
        before != after,
    ensures
        match rewrite_of(id, before, before, after) {
            Ok(RolloutRewriteView::Write { provider }) => after == Some(provider),
            Ok(RolloutRewriteView::Remove { expected }) => after is None && before == Some(expected),
            _ => false,
        },
        match rewrite_of(id, after, after, before) {
            Ok(RolloutRewriteView::Write { provider }) => before == Some(provider),
            Ok(RolloutRewriteView::Remove { expected }) => before is None && after == Some(expected),
            _ => false,
        },
{
}

/// A rollout file is taken for the one that a journal row speaks of exactly where path, archive and
/// thread are the same, and the provider of a rollout is told unless it is there and unreadable.
pub proof fn law_rollout_identity_is_checked(
    row: RepairRolloutJournalView,
    archived: Result<bool, Seq<char>>,
    path: Seq<char>,
    found: Result<RolloutIdentityView, Seq<char>>,
)
    ensures
        identity_fault(row, archived, path, found) is None <==> {
            &&& archived == Ok::<bool, Seq<char>>(row.archived)
            &&& found is Ok
            &&& found->Ok_0.id == row.thread_id
            &&& found->Ok_0.path == path
            &&& found->Ok_0.archived == row.archived
        },
        provider_slot(found, path) is Ok <==> found is Ok && (found->Ok_0.model_provider is Some
            || found->Ok_0.provider_field_missing),
        provider_slot(found, path) is Ok ==> provider_slot(found, path)->Ok_0
            == found->Ok_0.model_provider,
{
}

/// The journal of a repair has, for every catalog row that the plan writes, the row as it was found
/// and as it was staged, and for no other.
pub proof fn law_journal_covers_the_catalog(
    plan: RepairPlanView,
    before: Map<CatalogKeyView, Option<RepairCatalogImageView>>,
    after: Map<CatalogKeyView, Option<RepairCatalogImageView>>,
    key: CatalogKeyView,
)
    requires
        catalog_keys(plan).finite(),
    ensures
        ({
            let rows = catalog_rows(
                ordered::listed::<CatalogKey>(catalog_keys(plan)),
                before,
                after,
            );
            let planned = (exists|i: int|
                0 <= i < plan.catalog_updates.len() && (#[trigger] plan.catalog_updates[i]).host_id
                    == key.host_id && plan.catalog_updates[i].thread_id == key.thread_id) || (
            exists|i: int|
                0 <= i < plan.catalog_inserts.len() && (#[trigger] plan.catalog_inserts[i]).host_id
                    == key.host_id && plan.catalog_inserts[i].thread_id == key.thread_id) || (
            exists|i: int|
                0 <= i < plan.catalog_deletes.len() && (#[trigger] plan.catalog_deletes[i]).host_id
                    == key.host_id && plan.catalog_deletes[i].thread_id == key.thread_id);
            &&& planned <==> exists|k: int|
                0 <= k < rows.len() && (#[trigger] rows[k]).host_id == key.host_id
                    && rows[k].thread_id == key.thread_id
            &&& forall|k: int|
                0 <= k < rows.len() ==> {
                    let row = #[trigger] rows[k];
                    let at = CatalogKeyView { host_id: row.host_id, thread_id: row.thread_id };
                    &&& row.before == image_of(before, at)
                    &&& row.after == image_of(after, at)
                }
        }),
{
    let keys = ordered::listed::<CatalogKey>(catalog_keys(plan));
    let rows = catalog_rows(keys, before, after);
    ordered::lemma_finite_is_listed::<CatalogKey>(catalog_keys(plan));
    if catalog_keys(plan).contains(key) {
        assert(keys.contains(key));
        let k = choose|k: int| 0 <= k < keys.len() && keys[k] == key;
        assert(rows[k].host_id == key.host_id && rows[k].thread_id == key.thread_id);
    }
    if exists|k: int|
        0 <= k < rows.len() && (#[trigger] rows[k]).host_id == key.host_id && rows[k].thread_id
            == key.thread_id {
        let k = choose|k: int|
            0 <= k < rows.len() && (#[trigger] rows[k]).host_id == key.host_id && rows[k].thread_id
                == key.thread_id;
        assert(keys[k].host_id == key.host_id && keys[k].thread_id == key.thread_id);
        assert(keys[k] == key);
        assert(catalog_keys(plan).contains(keys[k]));
    }
}

/// The journal has each hint as it was expected and as it is set, the counters as they were found and
/// as they were left, and each rollout once more, by path.
pub proof fn law_journal_covers_hints_and_counters(
    updates: Seq<WorkspaceHintUpdateView>,
    at: int,
    before: CatalogWatermarksView,
    after: CatalogWatermarksView,
    rows: Seq<RepairRolloutJournalView>,
    row: RepairRolloutJournalView,
)
    ensures
        hint_rows(updates).len() == updates.len(),
        0 <= at < updates.len() ==> {
            let noted = hint_rows(updates)[at];
            &&& noted.thread_id == updates[at].thread_id
            &&& slot_value(noted.before) == updates[at].expected_hint
            &&& slot_value(noted.after) == Some(JsonView::Text(updates[at].workspace_root))
        },
        watermark_row(Some(before), Some(after)) is Some,
        ({
            let noted = watermark_row(Some(before), Some(after))->0;
            &&& noted.before_observation_sequence == before.observation_sequence
            &&& noted.after_observation_sequence == after.observation_sequence
            &&& noted.before_catalog_revision == before.catalog_revision
            &&& noted.after_catalog_revision == after.catalog_revision
        }),
        watermark_row(None, Some(after)) is None,
        watermark_row(Some(before), None) is None,
        rows_by_path(rows).len() == rows.len(),
        rows_by_path(rows).contains(row) <==> rows.contains(row),
        forall|i: int, j: int|
            0 <= i < j < rows.len() ==> text::relation(
                (#[trigger] rows_by_path(rows)[j]).path,
                (#[trigger] rows_by_path(rows)[i]).path,
            ) != text::Relation::Less,
{
    if 0 <= at < updates.len() {
        law_slot_round_trip(updates[at].expected_hint, slot_of(updates[at].expected_hint));
    }
    let pairs = rows.map_values(|row: RepairRolloutJournalView| (row.path, row));
    let sorted = ordered::sorted_pairs::<String, RepairRolloutJournalView>(pairs);
    let listed = rows_by_path(rows);
    ordered::lemma_sorted_pairs::<String, RepairRolloutJournalView>(pairs);
    ordered::lemma_sorted_holds::<String, RepairRolloutJournalView>(pairs, (row.path, row));
    if rows.contains(row) {
        let i = choose|i: int| 0 <= i < rows.len() && rows[i] == row;
        assert(pairs[i] == (row.path, row));
        let k = choose|k: int| 0 <= k < sorted.len() && sorted[k] == (row.path, row);
        assert(listed[k] == row);
    }
    if listed.contains(row) {
        let k = choose|k: int| 0 <= k < listed.len() && listed[k] == row;
        assert(pairs.contains(sorted[k]));
        let i = choose|i: int| 0 <= i < pairs.len() && pairs[i] == sorted[k];
        assert(rows[i] == row);
    }
    assert forall|i: int, j: int| 0 <= i < j < rows.len() implies text::relation(
        (#[trigger] listed[j]).path,
        (#[trigger] listed[i]).path,
    ) != text::Relation::Less by {
        assert(pairs.contains(sorted[i]) && pairs.contains(sorted[j]));
        let a = choose|a: int| 0 <= a < pairs.len() && pairs[a] == sorted[i];
        let b = choose|b: int| 0 <= b < pairs.len() && pairs[b] == sorted[j];
        assert(String::relation_of(sorted[j].0, sorted[i].0) != text::Relation::Less);
    }
}

} // verus!

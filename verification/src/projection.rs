//! Plans that align local sessions with a target provider, and the records that undo them.

use crate::model;
use crate::model::Model;
use crate::ordered;
use crate::ordered::{Ordered, OrderedMap, OrderedSet, sort_pairs};
use crate::planning;
use crate::providers;
use crate::providers::provider_id_is_safe;
use crate::text;
use crate::text::{Relation, compare, decimal, join2, join4, same};
use vstd::prelude::*;

verus! {

/// A provider that sessions come from.
#[derive(Clone, Debug, PartialEq, Eq)]
pub enum SourceProvider {
    OpenAi,
    Other(String),
}

/// What a `SourceProvider` stands for.
#[verifier::ext_equal]
pub enum SourceProviderView {
    OpenAi,
    Other(Seq<char>),
}

impl DeepView for SourceProvider {
    type V = SourceProviderView;

    open spec fn deep_view(&self) -> SourceProviderView {
        match self {
            SourceProvider::OpenAi => SourceProviderView::OpenAi,
            SourceProvider::Other(value) => SourceProviderView::Other(value.deep_view()),
        }
    }
}

impl Model for SourceProvider {
    fn copy_of(&self) -> (r: Self) {
        match self {
            SourceProvider::OpenAi => SourceProvider::OpenAi,
            SourceProvider::Other(value) => SourceProvider::Other(value.copy_of()),
        }
    }

    fn same_as(&self, other: &Self) -> (r: bool) {
        match (self, other) {
            (SourceProvider::OpenAi, SourceProvider::OpenAi) => true,
            (SourceProvider::Other(value_l), SourceProvider::Other(value_r)) => value_l.same_as(value_r),
            _ => false,
        }
    }
}

/// Which sessions a projection covers.
#[derive(Clone, Copy, Debug, PartialEq, Eq, Structural)]
pub enum ProjectionScope {
    All,
}

impl DeepView for ProjectionScope {
    type V = ProjectionScope;

    open spec fn deep_view(&self) -> ProjectionScope {
        *self
    }
}

impl Model for ProjectionScope {
    fn copy_of(&self) -> (r: Self) {
        *self
    }

    fn same_as(&self, other: &Self) -> (r: bool) {
        *self == *other
    }
}

/// What the desktop catalog says of a session.
#[derive(Clone, Debug, PartialEq, Eq)]
pub enum CatalogState {
    /// The catalog has no row for it.
    Missing,
    /// The catalog has a row that it lists as a missing candidate.
    MissingCandidate { provider: SourceProvider },
    /// The catalog has an ordinary row for it.
    Present { provider: SourceProvider },
}

/// What a `CatalogState` stands for.
#[verifier::ext_equal]
pub enum CatalogStateView {
    Missing,
    MissingCandidate { provider: SourceProviderView },
    Present { provider: SourceProviderView },
}

impl DeepView for CatalogState {
    type V = CatalogStateView;

    open spec fn deep_view(&self) -> CatalogStateView {
        match self {
            CatalogState::Missing => CatalogStateView::Missing,
            CatalogState::MissingCandidate { provider } => CatalogStateView::MissingCandidate {
                provider: provider.deep_view(),
            },
            CatalogState::Present { provider } => CatalogStateView::Present {
                provider: provider.deep_view(),
            },
        }
    }
}

impl Model for CatalogState {
    fn copy_of(&self) -> (r: Self) {
        match self {
            CatalogState::Missing => CatalogState::Missing,
            CatalogState::MissingCandidate { provider } => CatalogState::MissingCandidate {
                provider: provider.copy_of(),
            },
            CatalogState::Present { provider } => CatalogState::Present {
                provider: provider.copy_of(),
            },
        }
    }

    fn same_as(&self, other: &Self) -> (r: bool) {
        match (self, other) {
            (CatalogState::Missing, CatalogState::Missing) => true,
            (
                CatalogState::MissingCandidate { provider: provider_l },
                CatalogState::MissingCandidate { provider: provider_r },
            ) => provider_l.same_as(provider_r),
            (
                CatalogState::Present { provider: provider_l },
                CatalogState::Present { provider: provider_r },
            ) => provider_l.same_as(provider_r),
            _ => false,
        }
    }
}

/// How a catalog entry stands to a target provider.
#[derive(Clone, Copy, Debug, PartialEq, Eq, Structural)]
pub enum CatalogTargetStatus {
    Aligned,
    NeedsUpdate,
    Missing,
}

impl DeepView for CatalogTargetStatus {
    type V = CatalogTargetStatus;

    open spec fn deep_view(&self) -> CatalogTargetStatus {
        *self
    }
}

impl Model for CatalogTargetStatus {
    fn copy_of(&self) -> (r: Self) {
        *self
    }

    fn same_as(&self, other: &Self) -> (r: bool) {
        *self == *other
    }
}

/// A local session that a repair may move to the target provider.
#[derive(Clone, Debug, PartialEq, Eq)]
pub struct EligibleSession {
    pub id: String,
    pub origin_provider: SourceProvider,
    pub state_present: bool,
    pub state_provider: SourceProvider,
    pub catalog: CatalogState,
    pub updated_at: i64,
}

/// What a `EligibleSession` stands for.
#[verifier::ext_equal]
pub struct EligibleSessionView {
    pub id: Seq<char>,
    pub origin_provider: SourceProviderView,
    pub state_present: bool,
    pub state_provider: SourceProviderView,
    pub catalog: CatalogStateView,
    pub updated_at: i64,
}

impl DeepView for EligibleSession {
    type V = EligibleSessionView;

    open spec fn deep_view(&self) -> EligibleSessionView {
        EligibleSessionView {
            id: self.id.deep_view(),
            origin_provider: self.origin_provider.deep_view(),
            state_present: self.state_present.deep_view(),
            state_provider: self.state_provider.deep_view(),
            catalog: self.catalog.deep_view(),
            updated_at: self.updated_at.deep_view(),
        }
    }
}

impl Model for EligibleSession {
    fn copy_of(&self) -> (r: Self) {
        EligibleSession {
            id: self.id.copy_of(),
            origin_provider: self.origin_provider.copy_of(),
            state_present: self.state_present.copy_of(),
            state_provider: self.state_provider.copy_of(),
            catalog: self.catalog.copy_of(),
            updated_at: self.updated_at.copy_of(),
        }
    }

    fn same_as(&self, other: &Self) -> (r: bool) {
        self.id.same_as(&other.id)
            && self.origin_provider.same_as(&other.origin_provider)
            && self.state_present.same_as(&other.state_present)
            && self.state_provider.same_as(&other.state_provider)
            && self.catalog.same_as(&other.catalog)
            && self.updated_at.same_as(&other.updated_at)
    }
}

/// What a session needs to be aligned with the target provider.
#[derive(Clone, Copy, Debug, PartialEq, Eq, Structural)]
pub enum PlanCategory {
    Aligned,
    CatalogUpdateOnly,
    CatalogInsertOnly,
    StateUpdateOnly,
    StateAndCatalogUpdate,
    StateAndCatalogInsert,
}

impl DeepView for PlanCategory {
    type V = PlanCategory;

    open spec fn deep_view(&self) -> PlanCategory {
        *self
    }
}

impl Model for PlanCategory {
    fn copy_of(&self) -> (r: Self) {
        *self
    }

    fn same_as(&self, other: &Self) -> (r: bool) {
        *self == *other
    }
}

/// A session in a plan.
#[derive(Clone, Debug, PartialEq, Eq)]
pub struct PlannedSession {
    pub thread_id: String,
    pub origin_provider: SourceProvider,
    pub updated_at: i64,
    pub category: PlanCategory,
}

/// What a `PlannedSession` stands for.
#[verifier::ext_equal]
pub struct PlannedSessionView {
    pub thread_id: Seq<char>,
    pub origin_provider: SourceProviderView,
    pub updated_at: i64,
    pub category: PlanCategory,
}

impl DeepView for PlannedSession {
    type V = PlannedSessionView;

    open spec fn deep_view(&self) -> PlannedSessionView {
        PlannedSessionView {
            thread_id: self.thread_id.deep_view(),
            origin_provider: self.origin_provider.deep_view(),
            updated_at: self.updated_at.deep_view(),
            category: self.category.deep_view(),
        }
    }
}

impl Model for PlannedSession {
    fn copy_of(&self) -> (r: Self) {
        PlannedSession {
            thread_id: self.thread_id.copy_of(),
            origin_provider: self.origin_provider.copy_of(),
            updated_at: self.updated_at.copy_of(),
            category: self.category.copy_of(),
        }
    }

    fn same_as(&self, other: &Self) -> (r: bool) {
        self.thread_id.same_as(&other.thread_id)
            && self.origin_provider.same_as(&other.origin_provider)
            && self.updated_at.same_as(&other.updated_at)
            && self.category.same_as(&other.category)
    }
}

/// The number of writes that a plan comes to.
#[derive(Clone, Debug, PartialEq, Eq)]
pub struct PlanOperations {
    pub changed_threads: usize,
    pub state_updates: usize,
    pub catalog_updates: usize,
    pub catalog_inserts: usize,
}

/// What a `PlanOperations` stands for.
#[verifier::ext_equal]
pub struct PlanOperationsView {
    pub changed_threads: usize,
    pub state_updates: usize,
    pub catalog_updates: usize,
    pub catalog_inserts: usize,
}

impl DeepView for PlanOperations {
    type V = PlanOperationsView;

    open spec fn deep_view(&self) -> PlanOperationsView {
        PlanOperationsView {
            changed_threads: self.changed_threads.deep_view(),
            state_updates: self.state_updates.deep_view(),
            catalog_updates: self.catalog_updates.deep_view(),
            catalog_inserts: self.catalog_inserts.deep_view(),
        }
    }
}

impl Model for PlanOperations {
    fn copy_of(&self) -> (r: Self) {
        PlanOperations {
            changed_threads: self.changed_threads.copy_of(),
            state_updates: self.state_updates.copy_of(),
            catalog_updates: self.catalog_updates.copy_of(),
            catalog_inserts: self.catalog_inserts.copy_of(),
        }
    }

    fn same_as(&self, other: &Self) -> (r: bool) {
        self.changed_threads.same_as(&other.changed_threads)
            && self.state_updates.same_as(&other.state_updates)
            && self.catalog_updates.same_as(&other.catalog_updates)
            && self.catalog_inserts.same_as(&other.catalog_inserts)
    }
}

/// What aligning the selected sessions with a target provider would do.
#[derive(Debug, PartialEq, Eq)]
pub struct ProviderPlanPreview {
    pub target_provider: SourceProvider,
    pub scope: ProjectionScope,
    pub selected_sources: OrderedSet<SourceProvider>,
    pub total_candidates: usize,
    pub considered: usize,
    pub pending: usize,
    pub matrix: PlanMatrix,
    pub operations: PlanOperations,
    pub sessions: Vec<PlannedSession>,
}

/// What a `ProviderPlanPreview` stands for.
#[verifier::ext_equal]
pub struct ProviderPlanPreviewView {
    pub target_provider: SourceProviderView,
    pub scope: ProjectionScope,
    pub selected_sources: Set<SourceProviderView>,
    pub total_candidates: usize,
    pub considered: usize,
    pub pending: usize,
    pub matrix: PlanMatrix,
    pub operations: PlanOperationsView,
    pub sessions: Seq<PlannedSessionView>,
}

impl DeepView for ProviderPlanPreview {
    type V = ProviderPlanPreviewView;

    open spec fn deep_view(&self) -> ProviderPlanPreviewView {
        ProviderPlanPreviewView {
            target_provider: self.target_provider.deep_view(),
            scope: self.scope.deep_view(),
            selected_sources: self.selected_sources.deep_view(),
            total_candidates: self.total_candidates.deep_view(),
            considered: self.considered.deep_view(),
            pending: self.pending.deep_view(),
            matrix: self.matrix.deep_view(),
            operations: self.operations.deep_view(),
            sessions: self.sessions.deep_view(),
        }
    }
}

impl Model for ProviderPlanPreview {
    fn copy_of(&self) -> (r: Self) {
        ProviderPlanPreview {
            target_provider: self.target_provider.copy_of(),
            scope: self.scope.copy_of(),
            selected_sources: self.selected_sources.copy_of(),
            total_candidates: self.total_candidates.copy_of(),
            considered: self.considered.copy_of(),
            pending: self.pending.copy_of(),
            matrix: self.matrix.copy_of(),
            operations: self.operations.copy_of(),
            sessions: self.sessions.copy_of(),
        }
    }

    fn same_as(&self, other: &Self) -> (r: bool) {
        self.target_provider.same_as(&other.target_provider)
            && self.scope.same_as(&other.scope)
            && self.selected_sources.same_as(&other.selected_sources)
            && self.total_candidates.same_as(&other.total_candidates)
            && self.considered.same_as(&other.considered)
            && self.pending.same_as(&other.pending)
            && self.matrix.same_as(&other.matrix)
            && self.operations.same_as(&other.operations)
            && self.sessions.same_as(&other.sessions)
    }
}

/// Why a plan was refused.
#[derive(Clone, Debug, PartialEq, Eq)]
pub enum ProjectionError {
    DuplicateSessionId(String),
    InvariantViolation(String),
}

/// What a `ProjectionError` stands for.
#[verifier::ext_equal]
pub enum ProjectionErrorView {
    DuplicateSessionId(Seq<char>),
    InvariantViolation(Seq<char>),
}

impl DeepView for ProjectionError {
    type V = ProjectionErrorView;

    open spec fn deep_view(&self) -> ProjectionErrorView {
        match self {
            ProjectionError::DuplicateSessionId(value) => ProjectionErrorView::DuplicateSessionId(value.deep_view()),
            ProjectionError::InvariantViolation(value) => ProjectionErrorView::InvariantViolation(value.deep_view()),
        }
    }
}

impl Model for ProjectionError {
    fn copy_of(&self) -> (r: Self) {
        match self {
            ProjectionError::DuplicateSessionId(value) => ProjectionError::DuplicateSessionId(value.copy_of()),
            ProjectionError::InvariantViolation(value) => ProjectionError::InvariantViolation(value.copy_of()),
        }
    }

    fn same_as(&self, other: &Self) -> (r: bool) {
        match (self, other) {
            (ProjectionError::DuplicateSessionId(value_l), ProjectionError::DuplicateSessionId(value_r)) => value_l.same_as(value_r),
            (ProjectionError::InvariantViolation(value_l), ProjectionError::InvariantViolation(value_r)) => value_l.same_as(value_r),
            _ => false,
        }
    }
}

/// What a session was before a projection moved it.
#[derive(Clone, Debug, PartialEq, Eq)]
pub struct ProjectionRecord {
    pub thread_id: String,
    pub origin_provider: SourceProvider,
    pub original_state_present: bool,
    pub original_state_provider: SourceProvider,
    pub original_catalog: CatalogState,
    pub original_rollout_provider: Option<SourceProvider>,
    pub projected_target: SourceProvider,
    pub version: u64,
    pub timestamp: i64,
}

/// What a `ProjectionRecord` stands for.
#[verifier::ext_equal]
pub struct ProjectionRecordView {
    pub thread_id: Seq<char>,
    pub origin_provider: SourceProviderView,
    pub original_state_present: bool,
    pub original_state_provider: SourceProviderView,
    pub original_catalog: CatalogStateView,
    pub original_rollout_provider: Option<SourceProviderView>,
    pub projected_target: SourceProviderView,
    pub version: u64,
    pub timestamp: i64,
}

impl DeepView for ProjectionRecord {
    type V = ProjectionRecordView;

    open spec fn deep_view(&self) -> ProjectionRecordView {
        ProjectionRecordView {
            thread_id: self.thread_id.deep_view(),
            origin_provider: self.origin_provider.deep_view(),
            original_state_present: self.original_state_present.deep_view(),
            original_state_provider: self.original_state_provider.deep_view(),
            original_catalog: self.original_catalog.deep_view(),
            original_rollout_provider: self.original_rollout_provider.deep_view(),
            projected_target: self.projected_target.deep_view(),
            version: self.version.deep_view(),
            timestamp: self.timestamp.deep_view(),
        }
    }
}

impl Model for ProjectionRecord {
    fn copy_of(&self) -> (r: Self) {
        ProjectionRecord {
            thread_id: self.thread_id.copy_of(),
            origin_provider: self.origin_provider.copy_of(),
            original_state_present: self.original_state_present.copy_of(),
            original_state_provider: self.original_state_provider.copy_of(),
            original_catalog: self.original_catalog.copy_of(),
            original_rollout_provider: self.original_rollout_provider.copy_of(),
            projected_target: self.projected_target.copy_of(),
            version: self.version.copy_of(),
            timestamp: self.timestamp.copy_of(),
        }
    }

    fn same_as(&self, other: &Self) -> (r: bool) {
        self.thread_id.same_as(&other.thread_id)
            && self.origin_provider.same_as(&other.origin_provider)
            && self.original_state_present.same_as(&other.original_state_present)
            && self.original_state_provider.same_as(&other.original_state_provider)
            && self.original_catalog.same_as(&other.original_catalog)
            && self.original_rollout_provider.same_as(&other.original_rollout_provider)
            && self.projected_target.same_as(&other.projected_target)
            && self.version.same_as(&other.version)
            && self.timestamp.same_as(&other.timestamp)
    }
}

/// The projections in force, by thread.
#[derive(Debug, PartialEq, Eq)]
pub struct ProjectionStore {
    pub schema_version: u32,
    pub projection_version: u64,
    pub target_provider: SourceProvider,
    pub timestamp: i64,
    pub threads: OrderedMap<String, ProjectionRecord>,
}

/// What a `ProjectionStore` stands for.
#[verifier::ext_equal]
pub struct ProjectionStoreView {
    pub schema_version: u32,
    pub projection_version: u64,
    pub target_provider: SourceProviderView,
    pub timestamp: i64,
    pub threads: Map<Seq<char>, ProjectionRecordView>,
}

impl DeepView for ProjectionStore {
    type V = ProjectionStoreView;

    open spec fn deep_view(&self) -> ProjectionStoreView {
        ProjectionStoreView {
            schema_version: self.schema_version.deep_view(),
            projection_version: self.projection_version.deep_view(),
            target_provider: self.target_provider.deep_view(),
            timestamp: self.timestamp.deep_view(),
            threads: self.threads.deep_view(),
        }
    }
}

impl Model for ProjectionStore {
    fn copy_of(&self) -> (r: Self) {
        ProjectionStore {
            schema_version: self.schema_version.copy_of(),
            projection_version: self.projection_version.copy_of(),
            target_provider: self.target_provider.copy_of(),
            timestamp: self.timestamp.copy_of(),
            threads: self.threads.copy_of(),
        }
    }

    fn same_as(&self, other: &Self) -> (r: bool) {
        self.schema_version.same_as(&other.schema_version)
            && self.projection_version.same_as(&other.projection_version)
            && self.target_provider.same_as(&other.target_provider)
            && self.timestamp.same_as(&other.timestamp)
            && self.threads.same_as(&other.threads)
    }
}

/// What a projected session holds now.
#[derive(Clone, Debug, PartialEq, Eq)]
pub struct CurrentProjectionState {
    pub thread_id: String,
    pub state_provider: SourceProvider,
    pub catalog: CatalogState,
    pub projection_version: u64,
}

/// What a `CurrentProjectionState` stands for.
#[verifier::ext_equal]
pub struct CurrentProjectionStateView {
    pub thread_id: Seq<char>,
    pub state_provider: SourceProviderView,
    pub catalog: CatalogStateView,
    pub projection_version: u64,
}

impl DeepView for CurrentProjectionState {
    type V = CurrentProjectionStateView;

    open spec fn deep_view(&self) -> CurrentProjectionStateView {
        CurrentProjectionStateView {
            thread_id: self.thread_id.deep_view(),
            state_provider: self.state_provider.deep_view(),
            catalog: self.catalog.deep_view(),
            projection_version: self.projection_version.deep_view(),
        }
    }
}

impl Model for CurrentProjectionState {
    fn copy_of(&self) -> (r: Self) {
        CurrentProjectionState {
            thread_id: self.thread_id.copy_of(),
            state_provider: self.state_provider.copy_of(),
            catalog: self.catalog.copy_of(),
            projection_version: self.projection_version.copy_of(),
        }
    }

    fn same_as(&self, other: &Self) -> (r: bool) {
        self.thread_id.same_as(&other.thread_id)
            && self.state_provider.same_as(&other.state_provider)
            && self.catalog.same_as(&other.catalog)
            && self.projection_version.same_as(&other.projection_version)
    }
}

/// A projected session that is put back to what it was.
#[derive(Clone, Debug, PartialEq, Eq)]
pub struct ReconcileAction {
    pub thread_id: String,
    pub expected_version: u64,
    pub next_version: u64,
    pub expected_state_provider: SourceProvider,
    pub expected_catalog: CatalogState,
    pub restore_state_provider: SourceProvider,
    pub restore_catalog: CatalogState,
}

/// What a `ReconcileAction` stands for.
#[verifier::ext_equal]
pub struct ReconcileActionView {
    pub thread_id: Seq<char>,
    pub expected_version: u64,
    pub next_version: u64,
    pub expected_state_provider: SourceProviderView,
    pub expected_catalog: CatalogStateView,
    pub restore_state_provider: SourceProviderView,
    pub restore_catalog: CatalogStateView,
}

impl DeepView for ReconcileAction {
    type V = ReconcileActionView;

    open spec fn deep_view(&self) -> ReconcileActionView {
        ReconcileActionView {
            thread_id: self.thread_id.deep_view(),
            expected_version: self.expected_version.deep_view(),
            next_version: self.next_version.deep_view(),
            expected_state_provider: self.expected_state_provider.deep_view(),
            expected_catalog: self.expected_catalog.deep_view(),
            restore_state_provider: self.restore_state_provider.deep_view(),
            restore_catalog: self.restore_catalog.deep_view(),
        }
    }
}

impl Model for ReconcileAction {
    fn copy_of(&self) -> (r: Self) {
        ReconcileAction {
            thread_id: self.thread_id.copy_of(),
            expected_version: self.expected_version.copy_of(),
            next_version: self.next_version.copy_of(),
            expected_state_provider: self.expected_state_provider.copy_of(),
            expected_catalog: self.expected_catalog.copy_of(),
            restore_state_provider: self.restore_state_provider.copy_of(),
            restore_catalog: self.restore_catalog.copy_of(),
        }
    }

    fn same_as(&self, other: &Self) -> (r: bool) {
        self.thread_id.same_as(&other.thread_id)
            && self.expected_version.same_as(&other.expected_version)
            && self.next_version.same_as(&other.next_version)
            && self.expected_state_provider.same_as(&other.expected_state_provider)
            && self.expected_catalog.same_as(&other.expected_catalog)
            && self.restore_state_provider.same_as(&other.restore_state_provider)
            && self.restore_catalog.same_as(&other.restore_catalog)
    }
}

/// Why a projected session is left as it is.
#[derive(Clone, Debug, PartialEq, Eq)]
pub enum ReconcileConflictReason {
    VersionMismatch { expected: u64, actual: u64 },
    CurrentValueChanged { actual_state_provider: SourceProvider, actual_catalog: CatalogState },
}

/// What a `ReconcileConflictReason` stands for.
#[verifier::ext_equal]
pub enum ReconcileConflictReasonView {
    VersionMismatch { expected: u64, actual: u64 },
    CurrentValueChanged { actual_state_provider: SourceProviderView, actual_catalog: CatalogStateView },
}

impl DeepView for ReconcileConflictReason {
    type V = ReconcileConflictReasonView;

    open spec fn deep_view(&self) -> ReconcileConflictReasonView {
        match self {
            ReconcileConflictReason::VersionMismatch { expected, actual } => ReconcileConflictReasonView::VersionMismatch {
                expected: expected.deep_view(),
                actual: actual.deep_view(),
            },
            ReconcileConflictReason::CurrentValueChanged { actual_state_provider, actual_catalog } => ReconcileConflictReasonView::CurrentValueChanged {
                actual_state_provider: actual_state_provider.deep_view(),
                actual_catalog: actual_catalog.deep_view(),
            },
        }
    }
}

impl Model for ReconcileConflictReason {
    fn copy_of(&self) -> (r: Self) {
        match self {
            ReconcileConflictReason::VersionMismatch { expected, actual } => ReconcileConflictReason::VersionMismatch {
                expected: expected.copy_of(),
                actual: actual.copy_of(),
            },
            ReconcileConflictReason::CurrentValueChanged { actual_state_provider, actual_catalog } => ReconcileConflictReason::CurrentValueChanged {
                actual_state_provider: actual_state_provider.copy_of(),
                actual_catalog: actual_catalog.copy_of(),
            },
        }
    }

    fn same_as(&self, other: &Self) -> (r: bool) {
        match (self, other) {
            (
                ReconcileConflictReason::VersionMismatch { expected: expected_l, actual: actual_l },
                ReconcileConflictReason::VersionMismatch { expected: expected_r, actual: actual_r },
            ) => expected_l.same_as(expected_r) && actual_l.same_as(actual_r),
            (
                ReconcileConflictReason::CurrentValueChanged {
                    actual_state_provider: actual_state_provider_l,
                    actual_catalog: actual_catalog_l,
                },
                ReconcileConflictReason::CurrentValueChanged {
                    actual_state_provider: actual_state_provider_r,
                    actual_catalog: actual_catalog_r,
                },
            ) => actual_state_provider_l.same_as(actual_state_provider_r)
                && actual_catalog_l.same_as(actual_catalog_r),
            _ => false,
        }
    }
}

/// A projected session that is left as it is.
#[derive(Clone, Debug, PartialEq, Eq)]
pub struct ReconcileConflict {
    pub thread_id: String,
    pub detail: ReconcileConflictReason,
}

/// What a `ReconcileConflict` stands for.
#[verifier::ext_equal]
pub struct ReconcileConflictView {
    pub thread_id: Seq<char>,
    pub detail: ReconcileConflictReasonView,
}

impl DeepView for ReconcileConflict {
    type V = ReconcileConflictView;

    open spec fn deep_view(&self) -> ReconcileConflictView {
        ReconcileConflictView {
            thread_id: self.thread_id.deep_view(),
            detail: self.detail.deep_view(),
        }
    }
}

impl Model for ReconcileConflict {
    fn copy_of(&self) -> (r: Self) {
        ReconcileConflict {
            thread_id: self.thread_id.copy_of(),
            detail: self.detail.copy_of(),
        }
    }

    fn same_as(&self, other: &Self) -> (r: bool) {
        self.thread_id.same_as(&other.thread_id)
            && self.detail.same_as(&other.detail)
    }
}

/// What undoing the projections in force would do.
#[derive(Clone, Debug, PartialEq, Eq)]
pub struct ReconcilePlan {
    pub projection_version: u64,
    pub timestamp: i64,
    pub restores: Vec<ReconcileAction>,
    pub already_restored: Vec<String>,
    pub conflicts: Vec<ReconcileConflict>,
    pub missing: Vec<String>,
}

/// What a `ReconcilePlan` stands for.
#[verifier::ext_equal]
pub struct ReconcilePlanView {
    pub projection_version: u64,
    pub timestamp: i64,
    pub restores: Seq<ReconcileActionView>,
    pub already_restored: Seq<Seq<char>>,
    pub conflicts: Seq<ReconcileConflictView>,
    pub missing: Seq<Seq<char>>,
}

impl DeepView for ReconcilePlan {
    type V = ReconcilePlanView;

    open spec fn deep_view(&self) -> ReconcilePlanView {
        ReconcilePlanView {
            projection_version: self.projection_version.deep_view(),
            timestamp: self.timestamp.deep_view(),
            restores: self.restores.deep_view(),
            already_restored: self.already_restored.deep_view(),
            conflicts: self.conflicts.deep_view(),
            missing: self.missing.deep_view(),
        }
    }
}

impl Model for ReconcilePlan {
    fn copy_of(&self) -> (r: Self) {
        ReconcilePlan {
            projection_version: self.projection_version.copy_of(),
            timestamp: self.timestamp.copy_of(),
            restores: self.restores.copy_of(),
            already_restored: self.already_restored.copy_of(),
            conflicts: self.conflicts.copy_of(),
            missing: self.missing.copy_of(),
        }
    }

    fn same_as(&self, other: &Self) -> (r: bool) {
        self.projection_version.same_as(&other.projection_version)
            && self.timestamp.same_as(&other.timestamp)
            && self.restores.same_as(&other.restores)
            && self.already_restored.same_as(&other.already_restored)
            && self.conflicts.same_as(&other.conflicts)
            && self.missing.same_as(&other.missing)
    }
}

/// How many sessions of a plan fall under each category.
#[derive(Clone, Copy, Debug, PartialEq, Eq, Structural)]
pub struct PlanMatrix {
    pub aligned: usize,
    pub catalog_update_only: usize,
    pub catalog_insert_only: usize,
    pub state_update_only: usize,
    pub state_and_catalog_update: usize,
    pub state_and_catalog_insert: usize,
}

impl DeepView for PlanMatrix {
    type V = PlanMatrix;

    open spec fn deep_view(&self) -> PlanMatrix {
        *self
    }
}

impl Model for PlanMatrix {
    fn copy_of(&self) -> (r: Self) {
        *self
    }

    fn same_as(&self, other: &Self) -> (r: bool) {
        *self == *other
    }
}

impl Ordered for SourceProvider {
    open spec fn relation_of(a: SourceProviderView, b: SourceProviderView) -> Relation {
        match (a, b) {
            (SourceProviderView::OpenAi, SourceProviderView::OpenAi) => Relation::Equal,
            (SourceProviderView::OpenAi, SourceProviderView::Other(_)) => Relation::Less,
            (SourceProviderView::Other(_), SourceProviderView::OpenAi) => Relation::Greater,
            (
                SourceProviderView::Other(x),
                SourceProviderView::Other(y),
            ) => text::relation(x, y),
        }
    }

    proof fn order_total(a: SourceProviderView, b: SourceProviderView) {
        if a is Other && b is Other {
            text::lemma_relation(a->Other_0, b->Other_0);
        }
    }

    proof fn order_transitive(a: SourceProviderView, b: SourceProviderView, c: SourceProviderView) {
        if a is Other && b is Other && c is Other {
            text::lemma_before_transitive(a->Other_0, b->Other_0, c->Other_0);
        }
    }

    fn order(&self, other: &Self) -> (r: Relation) {
        match (self, other) {
            (SourceProvider::OpenAi, SourceProvider::OpenAi) => Relation::Equal,
            (SourceProvider::OpenAi, SourceProvider::Other(_)) => Relation::Less,
            (SourceProvider::Other(_), SourceProvider::OpenAi) => Relation::Greater,
            (SourceProvider::Other(x), SourceProvider::Other(y)) => compare(x.as_str(), y.as_str()),
        }
    }
}

/// The provider that an id names.
pub open spec fn provider_of(id: Seq<char>) -> SourceProviderView {
    if id == "openai"@ {
        SourceProviderView::OpenAi
    } else {
        SourceProviderView::Other(id)
    }
}

/// The id of a provider.
pub open spec fn provider_id(provider: SourceProviderView) -> Seq<char> {
    match provider {
        SourceProviderView::OpenAi => "openai"@,
        SourceProviderView::Other(id) => id,
    }
}

impl SourceProvider {
    /// The provider that `id` names.
    pub fn from_id(id: String) -> (r: Self)
        ensures
            r.deep_view() == provider_of(id@),
    {
        if same(id.as_str(), "openai") {
            SourceProvider::OpenAi
        } else {
            SourceProvider::Other(id)
        }
    }

    /// The provider that a stored id names, unless the id is not safe.
    pub fn deserialize(id: String) -> (r: Result<Self, String>)
        ensures
            model::outcome(r) == (if providers::safe_id(id@) {
                Ok(provider_of(id@))
            } else {
                Err("provider id is invalid"@)
            }),
    {
        if provider_id_is_safe(id.as_str()) {
            Ok(SourceProvider::from_id(id))
        } else {
            Err("provider id is invalid".to_owned())
        }
    }

    /// The id of the provider.
    pub fn as_str(&self) -> (r: &str)
        ensures
            r@ == provider_id(self.deep_view()),
    {
        match self {
            SourceProvider::OpenAi => "openai",
            SourceProvider::Other(id) => id.as_str(),
        }
    }
}

/// A provider made from an id has that id.
pub proof fn law_provider_keeps_its_id(id: Seq<char>)
    ensures
        provider_id(provider_of(id)) == id,
{
}

/// How a catalog entry stands to the target.
pub open spec fn catalog_status(
    catalog: CatalogStateView,
    target: SourceProviderView,
) -> CatalogTargetStatus {
    match catalog {
        CatalogStateView::Missing => CatalogTargetStatus::Missing,
        CatalogStateView::Present { provider } => if provider == target {
            CatalogTargetStatus::Aligned
        } else {
            CatalogTargetStatus::NeedsUpdate
        },
        CatalogStateView::MissingCandidate { .. } => CatalogTargetStatus::NeedsUpdate,
    }
}

impl CatalogState {
    /// The catalog entry of a session that was moved to `target`.
    pub fn projected(target: SourceProvider) -> (r: Self)
        ensures
            r.deep_view() == (CatalogStateView::Present { provider: target.deep_view() }),
    {
        CatalogState::Present { provider: target }
    }

    /// How the entry stands to `target`.
    pub fn target_status(&self, target: &SourceProvider) -> (r: CatalogTargetStatus)
        ensures
            r == catalog_status(self.deep_view(), target.deep_view()),
    {
        match self {
            CatalogState::Missing => CatalogTargetStatus::Missing,
            CatalogState::Present { provider } => if provider.same_as(target) {
                CatalogTargetStatus::Aligned
            } else {
                CatalogTargetStatus::NeedsUpdate
            },
            CatalogState::MissingCandidate { .. } => CatalogTargetStatus::NeedsUpdate,
        }
    }
}

impl PlanMatrix {
    /// The number of sessions in all categories.
    pub open spec fn sum(&self) -> int {
        self.aligned + self.changed()
    }

    /// The number of sessions that are not aligned.
    pub open spec fn changed(&self) -> int {
        self.catalog_update_only + self.catalog_insert_only + self.state_update_only
            + self.state_and_catalog_update + self.state_and_catalog_insert
    }

    /// The matrix of no sessions.
    pub fn empty() -> (r: Self)
        ensures
            forall|category: PlanCategory| #[trigger] r.count(category) == 0,
    {
        PlanMatrix {
            aligned: 0,
            catalog_update_only: 0,
            catalog_insert_only: 0,
            state_update_only: 0,
            state_and_catalog_update: 0,
            state_and_catalog_insert: 0,
        }
    }

    /// The number of sessions in a category.
    pub open spec fn count(&self, category: PlanCategory) -> usize {
        match category {
            PlanCategory::Aligned => self.aligned,
            PlanCategory::CatalogUpdateOnly => self.catalog_update_only,
            PlanCategory::CatalogInsertOnly => self.catalog_insert_only,
            PlanCategory::StateUpdateOnly => self.state_update_only,
            PlanCategory::StateAndCatalogUpdate => self.state_and_catalog_update,
            PlanCategory::StateAndCatalogInsert => self.state_and_catalog_insert,
        }
    }

    /// The number of sessions in all categories.
    pub fn total(&self) -> (r: usize)
        requires
            self.sum() <= usize::MAX,
        ensures
            r == self.sum(),
    {
        self.aligned + self.catalog_update_only + self.catalog_insert_only + self.state_update_only
            + self.state_and_catalog_update + self.state_and_catalog_insert
    }

    /// The number of sessions that are not aligned.
    pub fn pending(&self) -> (r: usize)
        requires
            self.changed() <= usize::MAX,
        ensures
            r == self.changed(),
    {
        self.catalog_update_only + self.catalog_insert_only + self.state_update_only
            + self.state_and_catalog_update + self.state_and_catalog_insert
    }

    /// The number of state rows to write.
    pub fn state_updates(&self) -> (r: usize)
        requires
            self.changed() <= usize::MAX,
        ensures
            r == self.state_update_only + self.state_and_catalog_update
                + self.state_and_catalog_insert,
    {
        self.state_update_only + self.state_and_catalog_update + self.state_and_catalog_insert
    }

    /// The number of catalog rows to rewrite.
    pub fn catalog_updates(&self) -> (r: usize)
        requires
            self.changed() <= usize::MAX,
        ensures
            r == self.catalog_update_only + self.state_and_catalog_update,
    {
        self.catalog_update_only + self.state_and_catalog_update
    }

    /// The number of catalog rows to add.
    pub fn catalog_inserts(&self) -> (r: usize)
        requires
            self.changed() <= usize::MAX,
        ensures
            r == self.catalog_insert_only + self.state_and_catalog_insert,
    {
        self.catalog_insert_only + self.state_and_catalog_insert
    }

    /// Counts one more session of a category.
    pub fn increment(&mut self, category: PlanCategory)
        requires
            old(self).count(category) < usize::MAX,
        ensures
            forall|other: PlanCategory| #[trigger]
                final(self).count(other) == old(self).count(other) + (if other == category {
                    1int
                } else {
                    0int
                }),
    {
        match category {
            PlanCategory::Aligned => {
                self.aligned = self.aligned + 1;
            },
            PlanCategory::CatalogUpdateOnly => {
                self.catalog_update_only = self.catalog_update_only + 1;
            },
            PlanCategory::CatalogInsertOnly => {
                self.catalog_insert_only = self.catalog_insert_only + 1;
            },
            PlanCategory::StateUpdateOnly => {
                self.state_update_only = self.state_update_only + 1;
            },
            PlanCategory::StateAndCatalogUpdate => {
                self.state_and_catalog_update = self.state_and_catalog_update + 1;
            },
            PlanCategory::StateAndCatalogInsert => {
                self.state_and_catalog_insert = self.state_and_catalog_insert + 1;
            },
        }
    }
}

/// How many of `sessions` fall under `category`.
pub open spec fn count_of(sessions: Seq<PlannedSessionView>, category: PlanCategory) -> nat
    decreases sessions.len(),
{
    if sessions.len() == 0 {
        0
    } else {
        count_of(sessions.drop_last(), category) + (if sessions.last().category == category {
            1nat
        } else {
            0nat
        })
    }
}

/// The matrix counts `sessions`.
pub open spec fn counts(matrix: PlanMatrix, sessions: Seq<PlannedSessionView>) -> bool {
    forall|category: PlanCategory| #[trigger]
        matrix.count(category) == count_of(sessions, category)
}

/// Every session falls under one category.
pub proof fn lemma_counts_add_up(matrix: PlanMatrix, sessions: Seq<PlannedSessionView>)
    requires
        counts(matrix, sessions),
    ensures
        matrix.sum() == sessions.len(),
{
    assert(matrix.aligned == matrix.count(PlanCategory::Aligned));
    assert(matrix.catalog_update_only == matrix.count(PlanCategory::CatalogUpdateOnly));
    assert(matrix.catalog_insert_only == matrix.count(PlanCategory::CatalogInsertOnly));
    assert(matrix.state_update_only == matrix.count(PlanCategory::StateUpdateOnly));
    assert(matrix.state_and_catalog_update == matrix.count(PlanCategory::StateAndCatalogUpdate));
    assert(matrix.state_and_catalog_insert == matrix.count(PlanCategory::StateAndCatalogInsert));
    lemma_category_counts(sessions);
}

proof fn lemma_category_counts(sessions: Seq<PlannedSessionView>)
    ensures
        count_of(sessions, PlanCategory::Aligned) + count_of(
            sessions,
            PlanCategory::CatalogUpdateOnly,
        ) + count_of(sessions, PlanCategory::CatalogInsertOnly) + count_of(
            sessions,
            PlanCategory::StateUpdateOnly,
        ) + count_of(sessions, PlanCategory::StateAndCatalogUpdate) + count_of(
            sessions,
            PlanCategory::StateAndCatalogInsert,
        ) == sessions.len(),
    decreases sessions.len(),
{
    if sessions.len() > 0 {
        lemma_category_counts(sessions.drop_last());
    }
}

proof fn lemma_count_bound(sessions: Seq<PlannedSessionView>, category: PlanCategory)
    ensures
        count_of(sessions, category) <= sessions.len(),
    decreases sessions.len(),
{
    if sessions.len() > 0 {
        lemma_count_bound(sessions.drop_last(), category);
    }
}

/// An earlier session has the id of the one at `i`.
pub open spec fn repeats_at(sessions: Seq<PlannedSessionView>, i: int) -> bool {
    exists|j: int| 0 <= j < i && (#[trigger] sessions[j]).thread_id == sessions[i].thread_id
}

/// The first fault of the sessions from position `i` on: an id that was there before, or an
/// origin that was not selected.
pub open spec fn session_fault(
    sessions: Seq<PlannedSessionView>,
    selected: Set<SourceProviderView>,
    i: nat,
) -> Option<ProjectionErrorView>
    decreases sessions.len() - i,
{
    if i >= sessions.len() {
        None
    } else if repeats_at(sessions, i as int) {
        Some(ProjectionErrorView::DuplicateSessionId(sessions[i as int].thread_id))
    } else if !selected.contains(sessions[i as int].origin_provider) {
        Some(
            ProjectionErrorView::InvariantViolation(
                "planned session has an unselected origin: "@ + sessions[i as int].thread_id,
            ),
        )
    } else {
        session_fault(sessions, selected, i + 1)
    }
}

/// The first rule that a plan breaks.
pub open spec fn plan_fault(plan: ProviderPlanPreviewView) -> Option<ProjectionErrorView> {
    if !plan.selected_sources.contains(plan.target_provider) {
        Some(
            ProjectionErrorView::InvariantViolation(
                "target provider is absent from selected sources"@,
            ),
        )
    } else if plan.considered != plan.sessions.len() || plan.considered != plan.matrix.sum() {
        Some(
            ProjectionErrorView::InvariantViolation(
                "considered sessions do not equal the six matrix categories"@,
            ),
        )
    } else if session_fault(plan.sessions, plan.selected_sources, 0) is Some {
        session_fault(plan.sessions, plan.selected_sources, 0)
    } else if !counts(plan.matrix, plan.sessions) {
        Some(
            ProjectionErrorView::InvariantViolation(
                "serialized matrix does not match planned session categories"@,
            ),
        )
    } else if plan.pending != plan.matrix.changed() || plan.pending != plan.considered
        - plan.matrix.aligned {
        Some(
            ProjectionErrorView::InvariantViolation(
                "pending sessions do not equal considered minus aligned"@,
            ),
        )
    } else if plan.operations != operations_of(plan.pending, plan.matrix) {
        Some(
            ProjectionErrorView::InvariantViolation(
                "operation totals do not match the plan matrix"@,
            ),
        )
    } else if plan.considered != plan.total_candidates {
        Some(
            ProjectionErrorView::InvariantViolation(
                "scope expected "@ + text::decimal_text(plan.total_candidates as nat)
                    + " sessions but considered "@ + text::decimal_text(plan.considered as nat),
            ),
        )
    } else {
        None
    }
}

/// The writes that a matrix comes to.
pub open spec fn operations_of(pending: usize, matrix: PlanMatrix) -> PlanOperationsView {
    PlanOperationsView {
        changed_threads: pending,
        state_updates: (matrix.state_update_only + matrix.state_and_catalog_update
            + matrix.state_and_catalog_insert) as usize,
        catalog_updates: (matrix.catalog_update_only + matrix.state_and_catalog_update) as usize,
        catalog_inserts: (matrix.catalog_insert_only + matrix.state_and_catalog_insert) as usize,
    }
}

fn violation(message: &str) -> (r: Result<(), ProjectionError>)
    ensures
        r is Err,
        r->Err_0.deep_view() == ProjectionErrorView::InvariantViolation(message@),
{
    Err(ProjectionError::InvariantViolation(message.to_owned()))
}

impl ProviderPlanPreview {
    /// Holds the plan to its rules; the first one that it breaks is the error.
    pub fn validate_invariants(&self) -> (r: Result<(), ProjectionError>)
        requires
            self.matrix.sum() <= usize::MAX,
        ensures
            match r {
                Ok(()) => plan_fault(self.deep_view()) is None,
                Err(error) => plan_fault(self.deep_view()) == Some(error.deep_view()),
            },
    {
        let ghost plan = self.deep_view();
        if !self.selected_sources.contains(&self.target_provider) {
            return violation("target provider is absent from selected sources");
        }
        if self.considered != self.sessions.len() || self.considered != self.matrix.total() {
            return violation("considered sessions do not equal the six matrix categories");
        }
        let mut actual_matrix = PlanMatrix::empty();
        let mut seen: OrderedSet<String> = OrderedSet::new();
        let mut i: usize = 0;
        while i < self.sessions.len()
            invariant
                i <= self.sessions@.len(),
                plan == self.deep_view(),
                counts(actual_matrix, plan.sessions.take(i as int)),
                forall|j: int|
                    0 <= j < i ==> seen.deep_view().contains((#[trigger] plan.sessions[j]).thread_id),
                forall|id: Seq<char>| #[trigger]
                    seen.deep_view().contains(id) ==> exists|j: int|
                        0 <= j < i && (#[trigger] plan.sessions[j]).thread_id == id,
                session_fault(plan.sessions, plan.selected_sources, 0) == session_fault(
                    plan.sessions,
                    plan.selected_sources,
                    i as nat,
                ),
                plan.considered == plan.sessions.len(),
                plan.considered == plan.matrix.sum(),
                plan.selected_sources.contains(plan.target_provider),
            decreases self.sessions@.len() - i,
        {
            let session = &self.sessions[i];
            assert(session.deep_view() == plan.sessions[i as int]);
            if !seen.insert(session.thread_id.copy_of()) {
                return Err(ProjectionError::DuplicateSessionId(session.thread_id.copy_of()));
            }
            if !self.selected_sources.contains(&session.origin_provider) {
                let message = join2(
                    "planned session has an unselected origin: ",
                    session.thread_id.as_str(),
                );
                return Err(ProjectionError::InvariantViolation(message));
            }
            proof {
                lemma_count_bound(plan.sessions.take(i as int), session.category);
                assert(plan.sessions.take(i + 1).drop_last() =~= plan.sessions.take(i as int));
                assert(plan.sessions.take(i + 1).last() == plan.sessions[i as int]);
            }
            let ghost before = actual_matrix;
            actual_matrix.increment(session.category);
            proof {
                assert forall|category: PlanCategory| #[trigger] actual_matrix.count(category) == count_of(
                    plan.sessions.take(i + 1),
                    category,
                ) by {
                    assert(before.count(category) == count_of(plan.sessions.take(i as int), category));
                }
            }
            i += 1;
        }
        assert(plan.sessions.take(i as int) =~= plan.sessions);
        if actual_matrix != self.matrix {
            proof {
                if counts(self.matrix, plan.sessions) {
                    lemma_same_counts(self.matrix, actual_matrix, plan.sessions);
                }
            }
            return violation("serialized matrix does not match planned session categories");
        }
        if self.pending != self.matrix.pending() || self.pending != self.considered
            - self.matrix.aligned {
            return violation("pending sessions do not equal considered minus aligned");
        }
        if self.operations.changed_threads != self.pending || self.operations.state_updates
            != self.matrix.state_updates() || self.operations.catalog_updates
            != self.matrix.catalog_updates() || self.operations.catalog_inserts
            != self.matrix.catalog_inserts() {
            return violation("operation totals do not match the plan matrix");
        }
        if self.considered != self.total_candidates {
            let expected = decimal(self.total_candidates as u64);
            let considered = decimal(self.considered as u64);
            let message = join4(
                "scope expected ",
                expected.as_str(),
                " sessions but considered ",
                considered.as_str(),
            );
            return Err(ProjectionError::InvariantViolation(message));
        }
        Ok(())
    }
}

proof fn lemma_same_counts(a: PlanMatrix, b: PlanMatrix, sessions: Seq<PlannedSessionView>)
    requires
        counts(a, sessions),
        counts(b, sessions),
    ensures
        a == b,
{
    assert(a.count(PlanCategory::Aligned) == b.count(PlanCategory::Aligned));
    assert(a.count(PlanCategory::CatalogUpdateOnly) == b.count(PlanCategory::CatalogUpdateOnly));
    assert(a.count(PlanCategory::CatalogInsertOnly) == b.count(PlanCategory::CatalogInsertOnly));
    assert(a.count(PlanCategory::StateUpdateOnly) == b.count(PlanCategory::StateUpdateOnly));
    assert(a.count(PlanCategory::StateAndCatalogUpdate) == b.count(
        PlanCategory::StateAndCatalogUpdate,
    ));
    assert(a.count(PlanCategory::StateAndCatalogInsert) == b.count(
        PlanCategory::StateAndCatalogInsert,
    ));
}

/// The place of a session in a plan: the latest first, equal times by id.
#[derive(Clone, Debug, PartialEq, Eq)]
pub struct SessionOrder {
    pub updated_at: i64,
    pub id: String,
}

/// What a `SessionOrder` stands for.
#[verifier::ext_equal]
pub struct SessionOrderView {
    pub updated_at: i64,
    pub id: Seq<char>,
}

impl DeepView for SessionOrder {
    type V = SessionOrderView;

    open spec fn deep_view(&self) -> SessionOrderView {
        SessionOrderView {
            updated_at: self.updated_at.deep_view(),
            id: self.id.deep_view(),
        }
    }
}

impl Model for SessionOrder {
    fn copy_of(&self) -> (r: Self) {
        SessionOrder {
            updated_at: self.updated_at.copy_of(),
            id: self.id.copy_of(),
        }
    }

    fn same_as(&self, other: &Self) -> (r: bool) {
        self.updated_at.same_as(&other.updated_at)
            && self.id.same_as(&other.id)
    }
}

impl Ordered for SessionOrder {
    open spec fn relation_of(a: SessionOrderView, b: SessionOrderView) -> Relation {
        if a.updated_at > b.updated_at {
            Relation::Less
        } else if a.updated_at < b.updated_at {
            Relation::Greater
        } else {
            text::relation(a.id, b.id)
        }
    }

    proof fn order_total(a: SessionOrderView, b: SessionOrderView) {
        text::lemma_relation(a.id, b.id);
    }

    proof fn order_transitive(a: SessionOrderView, b: SessionOrderView, c: SessionOrderView) {
        if a.updated_at == b.updated_at && b.updated_at == c.updated_at {
            text::lemma_before_transitive(a.id, b.id, c.id);
        }
    }

    fn order(&self, other: &Self) -> (r: Relation) {
        if self.updated_at > other.updated_at {
            Relation::Less
        } else if self.updated_at < other.updated_at {
            Relation::Greater
        } else {
            compare(self.id.as_str(), other.id.as_str())
        }
    }
}

/// The first id, from position `i` on, that occurred before.
pub open spec fn repeated_from(ids: Seq<Seq<char>>, i: nat) -> Option<Seq<char>>
    decreases ids.len() - i,
{
    if i >= ids.len() {
        None
    } else if ids.take(i as int).contains(ids[i as int]) {
        Some(ids[i as int])
    } else {
        repeated_from(ids, i + 1)
    }
}

/// Without a repeated id the ids are distinct.
pub proof fn lemma_no_repeat(ids: Seq<Seq<char>>, i: nat)
    requires
        repeated_from(ids, i) is None,
    ensures
        forall|j: int, k: int| 0 <= j < k < ids.len() && i <= k ==> ids[j] != ids[k],
    decreases ids.len() - i,
{
    if i < ids.len() {
        lemma_no_repeat(ids, i + 1);
        assert forall|j: int, k: int| 0 <= j < k < ids.len() && i <= k implies ids[j] != ids[k] by {
            if k == i {
                assert(ids.take(i as int)[j] == ids[j]);
            }
        }
    }
}

/// Distinct ids hold no repeated one.
pub proof fn lemma_distinct_no_repeat(ids: Seq<Seq<char>>, i: nat)
    requires
        ids.no_duplicates(),
    ensures
        repeated_from(ids, i) is None,
    decreases ids.len() - i,
{
    if i < ids.len() {
        lemma_distinct_no_repeat(ids, i + 1);
    }
}

/// Finds the first id that occurs a second time.
pub fn first_repeated(ids: &Vec<String>) -> (r: Option<String>)
    ensures
        r.deep_view() == repeated_from(ids.deep_view(), 0),
{
    let ghost view = ids.deep_view();
    let mut seen: OrderedSet<String> = OrderedSet::new();
    let mut i: usize = 0;
    assert(view.take(0).to_set() =~= Set::<Seq<char>>::empty());
    while i < ids.len()
        invariant
            i <= ids@.len(),
            view == ids.deep_view(),
            seen.deep_view() == view.take(i as int).to_set(),
            repeated_from(view, 0) == repeated_from(view, i as nat),
        decreases ids@.len() - i,
    {
        assert(ids@[i as int].deep_view() == view[i as int]);
        if !seen.insert(ids[i].copy_of()) {
            return Some(ids[i].copy_of());
        }
        proof {
            let from = view.take(i as int);
            assert(view.take(i + 1) =~= from.push(view[i as int]));
            assert forall|x: Seq<char>|
                #[trigger] from.to_set().insert(view[i as int]).contains(x) implies
                view.take(i + 1).to_set().contains(x) by {
                if x == view[i as int] {
                    assert(view.take(i + 1)[i as int] == x);
                } else {
                    let j = choose|j: int| 0 <= j < from.len() && from[j] == x;
                    assert(view.take(i + 1)[j] == x);
                }
            }
            assert(view.take(i + 1).to_set() =~= from.to_set().insert(view[i as int]));
        }
        i += 1;
    }
    None
}

/// What a session needs to be aligned with the target.
pub open spec fn category_of(
    session: EligibleSessionView,
    target: SourceProviderView,
) -> PlanCategory {
    let state_aligned = session.state_present && session.state_provider == target;
    match catalog_status(session.catalog, target) {
        CatalogTargetStatus::Aligned => if state_aligned {
            PlanCategory::Aligned
        } else {
            PlanCategory::StateUpdateOnly
        },
        CatalogTargetStatus::NeedsUpdate => if state_aligned {
            PlanCategory::CatalogUpdateOnly
        } else {
            PlanCategory::StateAndCatalogUpdate
        },
        CatalogTargetStatus::Missing => if state_aligned {
            PlanCategory::CatalogInsertOnly
        } else {
            PlanCategory::StateAndCatalogInsert
        },
    }
}

/// Decides what a session needs to be aligned with the target.
pub fn classify(session: &EligibleSession, target: &SourceProvider) -> (r: PlanCategory)
    ensures
        r == category_of(session.deep_view(), target.deep_view()),
{
    let state_aligned = session.state_present && session.state_provider.same_as(target);
    match (state_aligned, session.catalog.target_status(target)) {
        (true, CatalogTargetStatus::Aligned) => PlanCategory::Aligned,
        (true, CatalogTargetStatus::NeedsUpdate) => PlanCategory::CatalogUpdateOnly,
        (true, CatalogTargetStatus::Missing) => PlanCategory::CatalogInsertOnly,
        (false, CatalogTargetStatus::Aligned) => PlanCategory::StateUpdateOnly,
        (false, CatalogTargetStatus::NeedsUpdate) => PlanCategory::StateAndCatalogUpdate,
        (false, CatalogTargetStatus::Missing) => PlanCategory::StateAndCatalogInsert,
    }
}

/// The ids of sessions.
pub open spec fn session_ids(sessions: Seq<EligibleSessionView>) -> Seq<Seq<char>> {
    sessions.map_values(|session: EligibleSessionView| session.id)
}

/// The ids of `sessions`, in their order.
pub fn ids_of_sessions(sessions: &Vec<EligibleSession>) -> (r: Vec<String>)
    ensures
        r.deep_view() == session_ids(sessions.deep_view()),
{
    let mut out: Vec<String> = Vec::new();
    let mut i: usize = 0;
    while i < sessions.len()
        invariant
            i <= sessions@.len(),
            out@.len() == i,
            forall|j: int| 0 <= j < i ==> #[trigger] out@[j].deep_view() == sessions@[j].id@,
        decreases sessions@.len() - i,
    {
        out.push(sessions[i].id.copy_of());
        i += 1;
    }
    assert(out.deep_view() =~= session_ids(sessions.deep_view()));
    out
}

/// The sessions with a selected origin, each with its place in a plan.
pub open spec fn selected_sessions(
    sessions: Seq<EligibleSessionView>,
    selected: Set<SourceProviderView>,
) -> Seq<(SessionOrderView, EligibleSessionView)>
    decreases sessions.len(),
{
    if sessions.len() == 0 {
        Seq::empty()
    } else {
        let rest = selected_sessions(sessions.drop_last(), selected);
        let last = sessions.last();
        if selected.contains(last.origin_provider) {
            rest.push((SessionOrderView { updated_at: last.updated_at, id: last.id }, last))
        } else {
            rest
        }
    }
}

/// The session in a plan for the target.
pub open spec fn planned_session(
    session: EligibleSessionView,
    target: SourceProviderView,
) -> PlannedSessionView {
    PlannedSessionView {
        thread_id: session.id,
        origin_provider: session.origin_provider,
        updated_at: session.updated_at,
        category: category_of(session, target),
    }
}

/// The sessions of a plan: those with a selected origin, the latest first.
pub open spec fn planned_sessions(
    sessions: Seq<EligibleSessionView>,
    selected: Set<SourceProviderView>,
    target: SourceProviderView,
) -> Seq<PlannedSessionView> {
    ordered::sorted_pairs::<SessionOrder, EligibleSessionView>(
        selected_sessions(sessions, selected),
    ).map_values(
        |pair: (SessionOrderView, EligibleSessionView)| planned_session(pair.1, target),
    )
}

proof fn lemma_selected(sessions: Seq<EligibleSessionView>, selected: Set<SourceProviderView>)
    ensures
        selected_sessions(sessions, selected).len() <= sessions.len(),
        forall|i: int|
            0 <= i < selected_sessions(sessions, selected).len() ==> {
                let pair = #[trigger] selected_sessions(sessions, selected)[i];
                &&& sessions.contains(pair.1)
                &&& selected.contains(pair.1.origin_provider)
            },
    decreases sessions.len(),
{
    if sessions.len() > 0 {
        lemma_selected(sessions.drop_last(), selected);
        let all = selected_sessions(sessions, selected);
        let rest = selected_sessions(sessions.drop_last(), selected);
        assert forall|i: int| 0 <= i < all.len() implies {
            let pair = #[trigger] all[i];
            &&& sessions.contains(pair.1)
            &&& selected.contains(pair.1.origin_provider)
        } by {
            if i < rest.len() {
                assert(all[i] == rest[i]);
                let k = choose|k: int|
                    0 <= k < sessions.len() - 1 && sessions.drop_last()[k] == rest[i].1;
                assert(sessions[k] == all[i].1);
            } else {
                assert(sessions[sessions.len() - 1] == all[i].1);
            }
        }
    }
}

proof fn lemma_selected_distinct(
    sessions: Seq<EligibleSessionView>,
    selected: Set<SourceProviderView>,
)
    requires
        forall|i: int, j: int|
            0 <= i < j < sessions.len() ==> (#[trigger] sessions[i]).id != (#[trigger] sessions[j]).id,
    ensures
        forall|i: int, j: int|
            0 <= i < j < selected_sessions(sessions, selected).len() ==> (
            #[trigger] selected_sessions(sessions, selected)[i]).1.id != (
            #[trigger] selected_sessions(sessions, selected)[j]).1.id,
    decreases sessions.len(),
{
    if sessions.len() > 0 {
        let shorter = sessions.drop_last();
        assert forall|i: int, j: int| 0 <= i < j < shorter.len() implies (#[trigger] shorter[i]).id
            != (#[trigger] shorter[j]).id by {
            assert(sessions[i].id != sessions[j].id);
        }
        lemma_selected_distinct(shorter, selected);
        lemma_selected(shorter, selected);
        let all = selected_sessions(sessions, selected);
        let rest = selected_sessions(shorter, selected);
        assert forall|i: int, j: int| 0 <= i < j < all.len() implies (#[trigger] all[i]).1.id != (
        #[trigger] all[j]).1.id by {
            assert(all[i] == rest[i]);
            if j < rest.len() {
                assert(all[j] == rest[j]);
            } else {
                let k = choose|k: int| 0 <= k < shorter.len() && shorter[k] == rest[i].1;
                assert(sessions[k].id != sessions[sessions.len() - 1].id);
            }
        }
    }
}

proof fn lemma_no_session_fault(
    sessions: Seq<PlannedSessionView>,
    selected: Set<SourceProviderView>,
    i: nat,
)
    requires
        forall|j: int, k: int|
            0 <= j < k < sessions.len() ==> (#[trigger] sessions[j]).thread_id != (
            #[trigger] sessions[k]).thread_id,
        forall|j: int|
            0 <= j < sessions.len() ==> selected.contains((#[trigger] sessions[j]).origin_provider),
    ensures
        session_fault(sessions, selected, i) is None,
    decreases sessions.len() - i,
{
    if i < sessions.len() {
        lemma_no_session_fault(sessions, selected, i + 1);
    }
}

/// The sessions of a plan have distinct ids and selected origins, and come from the candidates.
pub proof fn lemma_planned_sessions(
    sessions: Seq<EligibleSessionView>,
    selected: Set<SourceProviderView>,
    target: SourceProviderView,
)
    requires
        session_ids(sessions).no_duplicates(),
    ensures
        forall|j: int, k: int|
            0 <= j < k < planned_sessions(sessions, selected, target).len() ==> (
            #[trigger] planned_sessions(sessions, selected, target)[j]).thread_id != (
            #[trigger] planned_sessions(sessions, selected, target)[k]).thread_id,
        session_fault(planned_sessions(sessions, selected, target), selected, 0) is None,
        forall|i: int|
            0 <= i < planned_sessions(sessions, selected, target).len() ==> exists|k: int|
                0 <= k < sessions.len() && planned_session(#[trigger] sessions[k], target)
                    == #[trigger] planned_sessions(sessions, selected, target)[i],
{
    let ids = session_ids(sessions);
    assert forall|i: int, j: int| 0 <= i < j < sessions.len() implies (#[trigger] sessions[i]).id
        != (#[trigger] sessions[j]).id by {
        assert(ids[i] == sessions[i].id && ids[j] == sessions[j].id);
    }
    let pairs = selected_sessions(sessions, selected);
    lemma_selected(sessions, selected);
    lemma_selected_distinct(sessions, selected);
    let label = |pair: (SessionOrderView, EligibleSessionView)| pair.1.id;
    assert forall|i: int, j: int| 0 <= i < j < pairs.len() implies label(#[trigger] pairs[i])
        != label(#[trigger] pairs[j]) by {
        assert(pairs[i].1.id != pairs[j].1.id);
    }
    ordered::lemma_sorted_distinct::<SessionOrder, EligibleSessionView, Seq<char>>(pairs, label);
    ordered::lemma_sorted_pairs::<SessionOrder, EligibleSessionView>(pairs);
    let sorted = ordered::sorted_pairs::<SessionOrder, EligibleSessionView>(pairs);
    let planned = planned_sessions(sessions, selected, target);
    assert forall|j: int, k: int|
        0 <= j < k < planned.len() implies
        (#[trigger] planned[j]).thread_id
        != (#[trigger] planned[k]).thread_id by {
        assert(label(sorted[j]) != label(sorted[k]));
    }
    assert forall|j: int| 0 <= j < planned.len() implies selected.contains(
        (#[trigger] planned[j]).origin_provider,
    ) && exists|k: int|
        0 <= k < sessions.len() && planned_session(#[trigger] sessions[k], target) == planned[j] by {
        assert(pairs.contains(sorted[j]));
        let m = choose|m: int| 0 <= m < pairs.len() && pairs[m] == sorted[j];
        assert(sessions.contains(pairs[m].1));
        let k = choose|k: int| 0 <= k < sessions.len() && sessions[k] == pairs[m].1;
        assert(planned_session(sessions[k], target) == planned[j]);
    }
    lemma_no_session_fault(planned, selected, 0);
}

/// The plan that aligns sessions with the target.
pub open spec fn is_plan_for(
    plan: ProviderPlanPreviewView,
    sessions: Seq<EligibleSessionView>,
    selected: Set<SourceProviderView>,
    target: SourceProviderView,
    scope: ProjectionScope,
) -> bool {
    let sources = selected.insert(target);
    &&& plan.target_provider == target
    &&& plan.scope == scope
    &&& plan.selected_sources == sources
    &&& plan.sessions == planned_sessions(sessions, sources, target)
    &&& plan.total_candidates == plan.sessions.len()
    &&& plan.considered == plan.sessions.len()
    &&& counts(plan.matrix, plan.sessions)
    &&& plan.pending == plan.matrix.changed()
    &&& plan.operations == operations_of(plan.pending, plan.matrix)
}

/// Plans the alignment of the sessions whose origin is selected, or is the target, with the target.
pub fn build_provider_plan_preview(
    sessions: &Vec<EligibleSession>,
    selected_sources: &OrderedSet<SourceProvider>,
    target_provider: SourceProvider,
    scope: ProjectionScope,
) -> (r: Result<ProviderPlanPreview, ProjectionError>)
    ensures
        match r {
            Ok(plan) => repeated_from(session_ids(sessions.deep_view()), 0) is None && is_plan_for(
                plan.deep_view(),
                sessions.deep_view(),
                selected_sources.deep_view(),
                target_provider.deep_view(),
                scope,
            ) && plan_fault(plan.deep_view()) is None,
            Err(error) => repeated_from(session_ids(sessions.deep_view()), 0) is Some
                && error.deep_view() == ProjectionErrorView::DuplicateSessionId(
                repeated_from(session_ids(sessions.deep_view()), 0)->0,
            ),
        },
{
    let ids = ids_of_sessions(sessions);
    match first_repeated(&ids) {
        Some(id) => {
            return Err(ProjectionError::DuplicateSessionId(id));
        },
        None => {},
    }
    let mut effective_sources = selected_sources.copy_of();
    effective_sources.insert(target_provider.copy_of());
    let ghost sources = effective_sources.deep_view();
    let ghost target = target_provider.deep_view();
    let ghost candidates = sessions.deep_view();
    proof {
        lemma_no_repeat(session_ids(candidates), 0);
        lemma_planned_sessions(candidates, sources, target);
    }
    let mut selected: Vec<(SessionOrder, EligibleSession)> = Vec::new();
    let mut i: usize = 0;
    assert(selected.deep_view() =~= selected_sessions(candidates.take(0), sources));
    while i < sessions.len()
        invariant
            i <= sessions@.len(),
            candidates == sessions.deep_view(),
            sources == effective_sources.deep_view(),
            selected.deep_view() == selected_sessions(candidates.take(i as int), sources),
        decreases sessions@.len() - i,
    {
        let session = &sessions[i];
        let ghost before = selected.deep_view();
        assert(candidates[i as int] == session.deep_view());
        assert(candidates.take(i + 1).drop_last() =~= candidates.take(i as int));
        if effective_sources.contains(&session.origin_provider) {
            let place = SessionOrder { updated_at: session.updated_at, id: session.id.copy_of() };
            selected.push((place, session.copy_of()));
            assert(selected.deep_view() =~= before.push(
                (
                    SessionOrderView {
                        updated_at: candidates[i as int].updated_at,
                        id: candidates[i as int].id,
                    },
                    candidates[i as int],
                ),
            ));
        }
        i += 1;
    }
    assert(candidates.take(i as int) =~= candidates);
    let sorted = sort_pairs(selected);
    let ghost ordered = sorted.deep_view();
    let ghost planned = planned_sessions(candidates, sources, target);
    let total_candidates: usize = sorted.len();
    let mut matrix = PlanMatrix::empty();
    let mut planned_list: Vec<PlannedSession> = Vec::new();
    let mut k: usize = 0;
    assert(planned_list.deep_view() =~= planned.take(0));
    while k < sorted.len()
        invariant
            k <= sorted@.len(),
            planned.len() == sorted@.len(),
            ordered == sorted.deep_view(),
            target == target_provider.deep_view(),
            planned == ordered.map_values(
                |pair: (SessionOrderView, EligibleSessionView)| planned_session(pair.1, target),
            ),
            planned_list.deep_view() == planned.take(k as int),
            counts(matrix, planned.take(k as int)),
        decreases sorted@.len() - k,
    {
        let session = &sorted[k].1;
        assert(ordered[k as int].1 == session.deep_view());
        let category = classify(session, &target_provider);
        let ghost before = matrix;
        proof {
            lemma_count_bound(planned.take(k as int), category);
        }
        matrix.increment(category);
        planned_list.push(
            PlannedSession {
                thread_id: session.id.copy_of(),
                origin_provider: session.origin_provider.copy_of(),
                updated_at: session.updated_at,
                category,
            },
        );
        proof {
            assert(planned_list.deep_view() =~= planned.take(k + 1));
            assert(planned.take(k + 1).drop_last() =~= planned.take(k as int));
            assert forall|other: PlanCategory| #[trigger] matrix.count(other) == count_of(
                planned.take(k + 1),
                other,
            ) by {
                assert(before.count(other) == count_of(planned.take(k as int), other));
            }
        }
        k += 1;
    }
    assert(planned.take(k as int) =~= planned);
    proof {
        lemma_counts_add_up(matrix, planned);
    }
    let considered: usize = planned_list.len();
    let pending: usize = matrix.pending();
    let preview = ProviderPlanPreview {
        target_provider,
        scope,
        selected_sources: effective_sources,
        total_candidates,
        considered,
        pending,
        matrix,
        operations: PlanOperations {
            changed_threads: pending,
            state_updates: matrix.state_updates(),
            catalog_updates: matrix.catalog_updates(),
            catalog_inserts: matrix.catalog_inserts(),
        },
        sessions: planned_list,
    };
    match preview.validate_invariants() {
        Ok(()) => Ok(preview),
        Err(error) => {
            assert(false);
            Err(error)
        },
    }
}

/// The message of an error.
pub open spec fn error_message(error: ProjectionErrorView) -> Seq<char> {
    match error {
        ProjectionErrorView::DuplicateSessionId(id) => "duplicate session id: "@ + id,
        ProjectionErrorView::InvariantViolation(message) => message,
    }
}

impl ProjectionError {
    /// The message of the error.
    pub fn message(&self) -> (r: String)
        ensures
            r@ == error_message(self.deep_view()),
    {
        match self {
            ProjectionError::DuplicateSessionId(id) => join2("duplicate session id: ", id.as_str()),
            ProjectionError::InvariantViolation(message) => message.copy_of(),
        }
    }
}

impl ProjectionRecord {
    /// What the catalog holds of the session while the projection is in force.
    pub fn expected_projected_catalog(&self) -> (r: CatalogState)
        ensures
            r.deep_view() == (CatalogStateView::Present {
                provider: self.projected_target.deep_view(),
            }),
    {
        CatalogState::projected(self.projected_target.copy_of())
    }
}

/// The session of a list with an id.
pub open spec fn session_by_id(
    sessions: Seq<EligibleSessionView>,
    id: Seq<char>,
) -> Option<EligibleSessionView>
    decreases sessions.len(),
{
    if sessions.len() == 0 {
        None
    } else if sessions.last().id == id {
        Some(sessions.last())
    } else {
        session_by_id(sessions.drop_last(), id)
    }
}

/// The record that undoes the move of a session to the target.
pub open spec fn record_of(
    session: EligibleSessionView,
    target: SourceProviderView,
    version: u64,
    timestamp: i64,
) -> ProjectionRecordView {
    ProjectionRecordView {
        thread_id: session.id,
        origin_provider: session.origin_provider,
        original_state_present: session.state_present,
        original_state_provider: session.state_provider,
        original_catalog: session.catalog,
        original_rollout_provider: None,
        projected_target: target,
        version,
        timestamp,
    }
}

/// The records of the planned sessions that are not aligned, or the first of them that is not
/// among `sessions`.
pub open spec fn captured_threads(
    planned: Seq<PlannedSessionView>,
    sessions: Seq<EligibleSessionView>,
    target: SourceProviderView,
    version: u64,
    timestamp: i64,
) -> Result<Map<Seq<char>, ProjectionRecordView>, Seq<char>>
    decreases planned.len(),
{
    if planned.len() == 0 {
        Ok(Map::empty())
    } else {
        match captured_threads(planned.drop_last(), sessions, target, version, timestamp) {
            Err(id) => Err(id),
            Ok(threads) => {
                let last = planned.last();
                if last.category == PlanCategory::Aligned {
                    Ok(threads)
                } else {
                    match session_by_id(sessions, last.thread_id) {
                        None => Err(last.thread_id),
                        Some(session) => Ok(
                            threads.insert(
                                session.id,
                                record_of(session, target, version, timestamp),
                            ),
                        ),
                    }
                }
            },
        }
    }
}

/// A missing session is missing in every longer plan.
proof fn lemma_capture_stops(
    planned: Seq<PlannedSessionView>,
    n: int,
    sessions: Seq<EligibleSessionView>,
    target: SourceProviderView,
    version: u64,
    timestamp: i64,
)
    requires
        0 <= n <= planned.len(),
        captured_threads(planned.take(n), sessions, target, version, timestamp) is Err,
    ensures
        captured_threads(planned, sessions, target, version, timestamp) == captured_threads(
            planned.take(n),
            sessions,
            target,
            version,
            timestamp,
        ),
    decreases planned.len(),
{
    if n == planned.len() {
        assert(planned.take(n) =~= planned);
    } else {
        assert(planned.drop_last().take(n) =~= planned.take(n));
        lemma_capture_stops(planned.drop_last(), n, sessions, target, version, timestamp);
    }
}

/// The session of a list with an id.
pub fn find_session<'a>(
    sessions: &'a Vec<EligibleSession>,
    id: &String,
) -> (r: Option<&'a EligibleSession>)
    ensures
        match r {
            Some(session) => session_by_id(sessions.deep_view(), id@) == Some(session.deep_view()),
            None => session_by_id(sessions.deep_view(), id@) is None,
        },
{
    let ghost view = sessions.deep_view();
    let mut i: usize = sessions.len();
    assert(view.take(i as int) =~= view);
    while i > 0
        invariant
            i <= sessions@.len(),
            view == sessions.deep_view(),
            session_by_id(view, id@) == session_by_id(view.take(i as int), id@),
        decreases i,
    {
        let session = &sessions[i - 1];
        assert(view.take(i as int).last() == session.deep_view());
        assert(view.take(i as int).drop_last() =~= view.take(i - 1));
        if session.id.same_as(id) {
            return Some(session);
        }
        i -= 1;
    }
    None
}

impl ProjectionStore {
    /// Records what the planned sessions that are not aligned were, so that a plan can be undone.
    pub fn capture(
        preview: &ProviderPlanPreview,
        sessions: &Vec<EligibleSession>,
        projection_version: u64,
        timestamp: i64,
    ) -> (r: Result<Self, ProjectionError>)
        requires
            preview.matrix.sum() <= usize::MAX,
        ensures
            ({
                let plan = preview.deep_view();
                let repeated = repeated_from(session_ids(sessions.deep_view()), 0);
                let threads = captured_threads(
                    plan.sessions,
                    sessions.deep_view(),
                    plan.target_provider,
                    projection_version,
                    timestamp,
                );
                if plan_fault(plan) is Some {
                    r is Err && Some(r->Err_0.deep_view()) == plan_fault(plan)
                } else if repeated is Some {
                    r is Err && r->Err_0.deep_view() == ProjectionErrorView::DuplicateSessionId(
                        repeated->0,
                    )
                } else if threads is Err {
                    r is Err && r->Err_0.deep_view() == ProjectionErrorView::InvariantViolation(
                        "preview session is absent from capture input: "@ + threads->Err_0,
                    )
                } else {
                    r is Ok && r->Ok_0.deep_view() == (ProjectionStoreView {
                        schema_version: 1,
                        projection_version,
                        target_provider: plan.target_provider,
                        timestamp,
                        threads: threads->Ok_0,
                    })
                }
            }),
    {
        match preview.validate_invariants() {
            Ok(()) => {},
            Err(error) => {
                return Err(error);
            },
        }
        let ids = ids_of_sessions(sessions);
        match first_repeated(&ids) {
            Some(id) => {
                return Err(ProjectionError::DuplicateSessionId(id));
            },
            None => {},
        }
        let ghost planned = preview.sessions.deep_view();
        let ghost target = preview.target_provider.deep_view();
        let ghost view = sessions.deep_view();
        let mut threads: OrderedMap<String, ProjectionRecord> = OrderedMap::new();
        let mut i: usize = 0;
        while i < preview.sessions.len()
            invariant
                i <= preview.sessions@.len(),
                planned == preview.sessions.deep_view(),
                target == preview.target_provider.deep_view(),
                view == sessions.deep_view(),
                plan_fault(preview.deep_view()) is None,
                repeated_from(session_ids(view), 0) is None,
                captured_threads(
                    planned.take(i as int),
                    view,
                    target,
                    projection_version,
                    timestamp,
                ) == Ok::<Map<Seq<char>, ProjectionRecordView>, Seq<char>>(threads.deep_view()),
            decreases preview.sessions@.len() - i,
        {
            let entry = &preview.sessions[i];
            assert(planned[i as int] == entry.deep_view());
            assert(planned.take(i + 1).drop_last() =~= planned.take(i as int));
            assert(planned.take(i + 1).last() == planned[i as int]);
            if entry.category != PlanCategory::Aligned {
                match find_session(sessions, &entry.thread_id) {
                    None => {
                        proof {
                            lemma_capture_stops(
                                planned,
                                i + 1,
                                view,
                                target,
                                projection_version,
                                timestamp,
                            );
                        }
                        let message = join2(
                            "preview session is absent from capture input: ",
                            entry.thread_id.as_str(),
                        );
                        return Err(ProjectionError::InvariantViolation(message));
                    },
                    Some(session) => {
                        threads.insert(
                            session.id.copy_of(),
                            ProjectionRecord {
                                thread_id: session.id.copy_of(),
                                origin_provider: session.origin_provider.copy_of(),
                                original_state_present: session.state_present,
                                original_state_provider: session.state_provider.copy_of(),
                                original_catalog: session.catalog.copy_of(),
                                original_rollout_provider: None,
                                projected_target: preview.target_provider.copy_of(),
                                version: projection_version,
                                timestamp,
                            },
                        );
                    },
                }
            }
            i += 1;
        }
        assert(planned.take(i as int) =~= planned);
        Ok(
            ProjectionStore {
                schema_version: 1,
                projection_version,
                target_provider: preview.target_provider.copy_of(),
                timestamp,
                threads,
            },
        )
    }
}

/// The state of a list for a thread.
pub open spec fn current_by_id(
    current: Seq<CurrentProjectionStateView>,
    id: Seq<char>,
) -> Option<CurrentProjectionStateView>
    decreases current.len(),
{
    if current.len() == 0 {
        None
    } else if current.last().thread_id == id {
        Some(current.last())
    } else {
        current_by_id(current.drop_last(), id)
    }
}

/// What becomes of one projected session.
pub enum ReconcileOutcome {
    Missing,
    AlreadyRestored,
    Conflict(ReconcileConflictReasonView),
    Restore(ReconcileActionView),
    VersionOverflow,
}

/// What becomes of a projected session that now holds `current`.
pub open spec fn reconcile_outcome(
    record: ProjectionRecordView,
    current: Option<CurrentProjectionStateView>,
) -> ReconcileOutcome {
    match current {
        None => ReconcileOutcome::Missing,
        Some(now) => {
            let projected = CatalogStateView::Present { provider: record.projected_target };
            if now.state_provider == record.original_state_provider && now.catalog
                == record.original_catalog {
                ReconcileOutcome::AlreadyRestored
            } else if now.projection_version != record.version {
                ReconcileOutcome::Conflict(
                    ReconcileConflictReasonView::VersionMismatch {
                        expected: record.version,
                        actual: now.projection_version,
                    },
                )
            } else if now.state_provider != record.projected_target || now.catalog != projected {
                ReconcileOutcome::Conflict(
                    ReconcileConflictReasonView::CurrentValueChanged {
                        actual_state_provider: now.state_provider,
                        actual_catalog: now.catalog,
                    },
                )
            } else if record.version == u64::MAX {
                ReconcileOutcome::VersionOverflow
            } else {
                ReconcileOutcome::Restore(
                    ReconcileActionView {
                        thread_id: record.thread_id,
                        expected_version: record.version,
                        next_version: (record.version + 1) as u64,
                        expected_state_provider: record.projected_target,
                        expected_catalog: projected,
                        restore_state_provider: record.original_state_provider,
                        restore_catalog: record.original_catalog,
                    },
                )
            }
        },
    }
}

/// A plan with the outcome for one more record.
pub open spec fn with_outcome(
    plan: ReconcilePlanView,
    record: ProjectionRecordView,
    outcome: ReconcileOutcome,
) -> ReconcilePlanView {
    match outcome {
        ReconcileOutcome::Missing => ReconcilePlanView {
            missing: plan.missing.push(record.thread_id),
            ..plan
        },
        ReconcileOutcome::AlreadyRestored => ReconcilePlanView {
            already_restored: plan.already_restored.push(record.thread_id),
            ..plan
        },
        ReconcileOutcome::Conflict(detail) => ReconcilePlanView {
            conflicts: plan.conflicts.push(
                ReconcileConflictView { thread_id: record.thread_id, detail },
            ),
            ..plan
        },
        ReconcileOutcome::Restore(action) => ReconcilePlanView {
            restores: plan.restores.push(action),
            ..plan
        },
        ReconcileOutcome::VersionOverflow => plan,
    }
}

/// The plan for the records of `keys`, in their order, or the first thread whose version cannot
/// grow.
pub open spec fn reconciled(
    keys: Seq<Seq<char>>,
    store: ProjectionStoreView,
    current: Seq<CurrentProjectionStateView>,
    timestamp: i64,
) -> Result<ReconcilePlanView, Seq<char>>
    decreases keys.len(),
{
    if keys.len() == 0 {
        Ok(
            ReconcilePlanView {
                projection_version: store.projection_version,
                timestamp,
                restores: Seq::empty(),
                already_restored: Seq::empty(),
                conflicts: Seq::empty(),
                missing: Seq::empty(),
            },
        )
    } else {
        match reconciled(keys.drop_last(), store, current, timestamp) {
            Err(id) => Err(id),
            Ok(plan) => {
                let record = store.threads[keys.last()];
                let outcome = reconcile_outcome(record, current_by_id(current, record.thread_id));
                if outcome is VersionOverflow {
                    Err(record.thread_id)
                } else {
                    Ok(with_outcome(plan, record, outcome))
                }
            },
        }
    }
}

proof fn lemma_reconcile_stops(
    keys: Seq<Seq<char>>,
    n: int,
    store: ProjectionStoreView,
    current: Seq<CurrentProjectionStateView>,
    timestamp: i64,
)
    requires
        0 <= n <= keys.len(),
        reconciled(keys.take(n), store, current, timestamp) is Err,
    ensures
        reconciled(keys, store, current, timestamp) == reconciled(
            keys.take(n),
            store,
            current,
            timestamp,
        ),
    decreases keys.len(),
{
    if n == keys.len() {
        assert(keys.take(n) =~= keys);
    } else {
        assert(keys.drop_last().take(n) =~= keys.take(n));
        lemma_reconcile_stops(keys.drop_last(), n, store, current, timestamp);
    }
}

/// The threads of current states.
pub open spec fn current_ids(current: Seq<CurrentProjectionStateView>) -> Seq<Seq<char>> {
    current.map_values(|state: CurrentProjectionStateView| state.thread_id)
}

fn find_current<'a>(
    current: &'a Vec<CurrentProjectionState>,
    id: &String,
) -> (r: Option<&'a CurrentProjectionState>)
    ensures
        match r {
            Some(state) => current_by_id(current.deep_view(), id@) == Some(state.deep_view()),
            None => current_by_id(current.deep_view(), id@) is None,
        },
{
    let ghost view = current.deep_view();
    let mut i: usize = current.len();
    assert(view.take(i as int) =~= view);
    while i > 0
        invariant
            i <= current@.len(),
            view == current.deep_view(),
            current_by_id(view, id@) == current_by_id(view.take(i as int), id@),
        decreases i,
    {
        let state = &current[i - 1];
        assert(view.take(i as int).last() == state.deep_view());
        assert(view.take(i as int).drop_last() =~= view.take(i - 1));
        if state.thread_id.same_as(id) {
            return Some(state);
        }
        i -= 1;
    }
    None
}

/// Plans to undo the projections in force: only sessions that still hold what the projection
/// wrote are put back.
pub fn plan_reconcile(
    store: &ProjectionStore,
    current: &Vec<CurrentProjectionState>,
    timestamp: i64,
) -> (r: Result<ReconcilePlan, ProjectionError>)
    ensures
        ({
            let repeated = repeated_from(current_ids(current.deep_view()), 0);
            let plan = reconciled(
                ordered::listed::<String>(store.threads.deep_view().dom()),
                store.deep_view(),
                current.deep_view(),
                timestamp,
            );
            if repeated is Some {
                r is Err && r->Err_0.deep_view() == ProjectionErrorView::DuplicateSessionId(
                    repeated->0,
                )
            } else if plan is Err {
                r is Err && r->Err_0.deep_view() == ProjectionErrorView::InvariantViolation(
                    "projection version overflow for "@ + plan->Err_0,
                )
            } else {
                r is Ok && r->Ok_0.deep_view() == plan->Ok_0
            }
        }),
{
    let ghost states = current.deep_view();
    let ghost whole = store.deep_view();
    let ghost keys = store.threads.keys();
    let mut ids: Vec<String> = Vec::new();
    let mut i: usize = 0;
    while i < current.len()
        invariant
            i <= current@.len(),
            ids@.len() == i,
            forall|j: int| 0 <= j < i ==> #[trigger] ids@[j].deep_view() == current@[j].thread_id@,
        decreases current@.len() - i,
    {
        ids.push(current[i].thread_id.copy_of());
        i += 1;
    }
    assert(ids.deep_view() =~= current_ids(states));
    match first_repeated(&ids) {
        Some(id) => {
            return Err(ProjectionError::DuplicateSessionId(id));
        },
        None => {},
    }
    let mut plan = ReconcilePlan {
        projection_version: store.projection_version,
        timestamp,
        restores: Vec::new(),
        already_restored: Vec::new(),
        conflicts: Vec::new(),
        missing: Vec::new(),
    };
    let n: usize = store.threads.len();
    let mut k: usize = 0;
    proof {
        assert(plan.restores.deep_view() =~= Seq::empty());
        assert(plan.already_restored.deep_view() =~= Seq::empty());
        assert(plan.conflicts.deep_view() =~= Seq::empty());
        assert(plan.missing.deep_view() =~= Seq::empty());
    }
    while k < n
        invariant
            k <= n == keys.len(),
            keys == store.threads.keys(),
            keys == ordered::listed::<String>(store.threads.deep_view().dom()),
            whole == store.deep_view(),
            states == current.deep_view(),
            repeated_from(current_ids(states), 0) is None,
            reconciled(keys.take(k as int), whole, states, timestamp) == Ok::<
                ReconcilePlanView,
                Seq<char>,
            >(plan.deep_view()),
        decreases n - k,
    {
        let record = store.threads.value_at(k);
        let ghost before = plan.deep_view();
        proof {
            assert(keys.take(k + 1).drop_last() =~= keys.take(k as int));
            assert(keys.take(k + 1).last() == keys[k as int]);
            assert(whole.threads[keys[k as int]] == record.deep_view());
        }
        match find_current(current, &record.thread_id) {
            None => {
                plan.missing.push(record.thread_id.copy_of());
                assert(plan.missing.deep_view() =~= before.missing.push(record.thread_id@));
            },
            Some(now) => {
                let expected_catalog = record.expected_projected_catalog();
                if now.state_provider.same_as(&record.original_state_provider)
                    && now.catalog.same_as(&record.original_catalog) {
                    plan.already_restored.push(record.thread_id.copy_of());
                    assert(plan.already_restored.deep_view() =~= before.already_restored.push(
                        record.thread_id@,
                    ));
                } else if now.projection_version != record.version {
                    let conflict = ReconcileConflict {
                        thread_id: record.thread_id.copy_of(),
                        detail: ReconcileConflictReason::VersionMismatch {
                            expected: record.version,
                            actual: now.projection_version,
                        },
                    };
                    let ghost added = conflict.deep_view();
                    plan.conflicts.push(conflict);
                    assert(plan.conflicts.deep_view() =~= before.conflicts.push(added));
                } else if !now.state_provider.same_as(&record.projected_target)
                    || !now.catalog.same_as(&expected_catalog) {
                    let conflict = ReconcileConflict {
                        thread_id: record.thread_id.copy_of(),
                        detail: ReconcileConflictReason::CurrentValueChanged {
                            actual_state_provider: now.state_provider.copy_of(),
                            actual_catalog: now.catalog.copy_of(),
                        },
                    };
                    let ghost added = conflict.deep_view();
                    plan.conflicts.push(conflict);
                    assert(plan.conflicts.deep_view() =~= before.conflicts.push(added));
                } else {
                    match record.version.checked_add(1) {
                        None => {
                            proof {
                                lemma_reconcile_stops(keys, k + 1, whole, states, timestamp);
                            }
                            let message = join2(
                                "projection version overflow for ",
                                record.thread_id.as_str(),
                            );
                            return Err(ProjectionError::InvariantViolation(message));
                        },
                        Some(next_version) => {
                            let action = ReconcileAction {
                                thread_id: record.thread_id.copy_of(),
                                expected_version: record.version,
                                next_version,
                                expected_state_provider: record.projected_target.copy_of(),
                                expected_catalog,
                                restore_state_provider: record.original_state_provider.copy_of(),
                                restore_catalog: record.original_catalog.copy_of(),
                            };
                            let ghost added = action.deep_view();
                            plan.restores.push(action);
                            assert(plan.restores.deep_view() =~= before.restores.push(added));
                        },
                    }
                }
            },
        }
        k += 1;
    }
    assert(keys.take(k as int) =~= keys);
    Ok(plan)
}

/// A session is put back only where it still holds what the projection wrote, at the version the
/// projection wrote, and it is put back to what it was.
pub proof fn law_reconcile_restores_only_unchanged(
    record: ProjectionRecordView,
    current: Option<CurrentProjectionStateView>,
)
    ensures
        reconcile_outcome(record, current) matches ReconcileOutcome::Restore(action) ==> {
            &&& current is Some
            &&& current->0.state_provider == record.projected_target
            &&& current->0.catalog == (CatalogStateView::Present { provider: record.projected_target })
            &&& current->0.projection_version == record.version
            &&& action.restore_state_provider == record.original_state_provider
            &&& action.restore_catalog == record.original_catalog
            &&& action.next_version == action.expected_version + 1
        },
{
}

/// A session that holds again what it held before the projection needs nothing more.
pub proof fn law_reconcile_is_idempotent(
    record: ProjectionRecordView,
    current: CurrentProjectionStateView,
    action: ReconcileActionView,
    next: CurrentProjectionStateView,
)
    requires
        reconcile_outcome(record, Some(current)) == ReconcileOutcome::Restore(action),
        next.state_provider == action.restore_state_provider,
        next.catalog == action.restore_catalog,
    ensures
        reconcile_outcome(record, Some(next)) is AlreadyRestored,
{
}

/// A captured session that holds what the projection wrote is put back to what it was captured
/// with, unless it was that already.
pub proof fn law_capture_then_reconcile(
    session: EligibleSessionView,
    target: SourceProviderView,
    version: u64,
    timestamp: i64,
    current: CurrentProjectionStateView,
)
    requires
        version < u64::MAX,
        category_of(session, target) != PlanCategory::Aligned,
        current.thread_id == session.id,
        current.state_provider == target,
        current.catalog == (CatalogStateView::Present { provider: target }),
        current.projection_version == version,
    ensures
        match reconcile_outcome(record_of(session, target, version, timestamp), Some(current)) {
            ReconcileOutcome::Restore(action) => action.thread_id == session.id
                && action.restore_state_provider == session.state_provider && action.restore_catalog
                == session.catalog,
            ReconcileOutcome::AlreadyRestored => session.state_provider == target && session.catalog
                == (CatalogStateView::Present { provider: target }),
            _ => false,
        },
{
}

/// Every record of the store ends up in exactly one of the four lists.
pub proof fn law_reconcile_covers_every_record(
    keys: Seq<Seq<char>>,
    store: ProjectionStoreView,
    current: Seq<CurrentProjectionStateView>,
    timestamp: i64,
)
    ensures
        reconciled(keys, store, current, timestamp) matches Ok(plan) ==> plan.restores.len()
            + plan.already_restored.len() + plan.conflicts.len() + plan.missing.len() == keys.len(),
    decreases keys.len(),
{
    if keys.len() > 0 {
        law_reconcile_covers_every_record(keys.drop_last(), store, current, timestamp);
    }
}

/// The sessions of a plan stand in order: the latest first, equal times by id.
pub proof fn law_plan_lists_latest_first(
    sessions: Seq<EligibleSessionView>,
    selected: Set<SourceProviderView>,
    target: SourceProviderView,
    i: int,
    j: int,
)
    requires
        0 <= i < j < planned_sessions(sessions, selected, target).len(),
    ensures
        ({
            let planned = planned_sessions(sessions, selected, target);
            &&& planned[i].updated_at >= planned[j].updated_at
            &&& planned[i].updated_at == planned[j].updated_at ==> text::relation(
                planned[j].thread_id,
                planned[i].thread_id,
            ) != Relation::Less
        }),
{
    let pairs = selected_sessions(sessions, selected);
    ordered::lemma_sorted_pairs::<SessionOrder, EligibleSessionView>(pairs);
    let sorted = ordered::sorted_pairs::<SessionOrder, EligibleSessionView>(pairs);
    lemma_places_match(sessions, selected);
    assert(SessionOrder::relation_of(sorted[j].0, sorted[i].0) != Relation::Less);
    assert(pairs.contains(sorted[i]));
    assert(pairs.contains(sorted[j]));
    let a = choose|a: int| 0 <= a < pairs.len() && pairs[a] == sorted[i];
    let b = choose|b: int| 0 <= b < pairs.len() && pairs[b] == sorted[j];
    assert(pairs[a].0.id == pairs[a].1.id);
    assert(pairs[b].0.id == pairs[b].1.id);
}

proof fn lemma_places_match(sessions: Seq<EligibleSessionView>, selected: Set<SourceProviderView>)
    ensures
        forall|i: int|
            0 <= i < selected_sessions(sessions, selected).len() ==> {
                let pair = #[trigger] selected_sessions(sessions, selected)[i];
                pair.0.updated_at == pair.1.updated_at && pair.0.id == pair.1.id
            },
    decreases sessions.len(),
{
    if sessions.len() > 0 {
        lemma_places_match(sessions.drop_last(), selected);
    }
}

/// A plan covers every session whose origin is selected or is the target, and no other.
pub proof fn law_plan_covers_selected_and_target(
    plan: ProviderPlanPreviewView,
    sessions: Seq<EligibleSessionView>,
    selected: Set<SourceProviderView>,
    target: SourceProviderView,
    scope: ProjectionScope,
    session: EligibleSessionView,
)
    requires
        is_plan_for(plan, sessions, selected, target, scope),
        sessions.contains(session),
    ensures
        selected.contains(session.origin_provider) || session.origin_provider == target
            ==> plan.sessions.contains(planned_session(session, target)),
        forall|i: int|
            0 <= i < plan.sessions.len() ==> selected.contains(
                (#[trigger] plan.sessions[i]).origin_provider,
            ) || plan.sessions[i].origin_provider == target,
{
    let sources = selected.insert(target);
    let pairs = selected_sessions(sessions, sources);
    ordered::lemma_sorted_pairs::<SessionOrder, EligibleSessionView>(pairs);
    let sorted = ordered::sorted_pairs::<SessionOrder, EligibleSessionView>(pairs);
    lemma_selected(sessions, sources);
    if sources.contains(session.origin_provider) {
        lemma_selected_covers(sessions, sources, session);
        let pair = (
            SessionOrderView { updated_at: session.updated_at, id: session.id },
            session,
        );
        assert(pairs.to_multiset().contains(pair)) by {
            pairs.to_multiset_ensures();
        }
        assert(sorted.contains(pair)) by {
            sorted.to_multiset_ensures();
        }
        let k = choose|k: int| 0 <= k < sorted.len() && sorted[k] == pair;
        assert(plan.sessions[k] == planned_session(session, target));
    }
    assert forall|i: int| 0 <= i < plan.sessions.len() implies selected.contains(
        (#[trigger] plan.sessions[i]).origin_provider,
    ) || plan.sessions[i].origin_provider == target by {
        assert(pairs.contains(sorted[i]));
        let m = choose|m: int| 0 <= m < pairs.len() && pairs[m] == sorted[i];
        assert(sources.contains(pairs[m].1.origin_provider));
    }
}

/// A candidate with a selected origin stands in the plan.
pub proof fn lemma_planned_covers(
    sessions: Seq<EligibleSessionView>,
    selected: Set<SourceProviderView>,
    target: SourceProviderView,
    session: EligibleSessionView,
)
    requires
        sessions.contains(session),
        selected.contains(session.origin_provider),
    ensures
        planned_sessions(sessions, selected, target).contains(planned_session(session, target)),
{
    let pairs = selected_sessions(sessions, selected);
    let sorted = ordered::sorted_pairs::<SessionOrder, EligibleSessionView>(pairs);
    let pair = (SessionOrderView { updated_at: session.updated_at, id: session.id }, session);
    lemma_selected_covers(sessions, selected, session);
    ordered::lemma_sorted_holds::<SessionOrder, EligibleSessionView>(pairs, pair);
    let k = choose|k: int| 0 <= k < sorted.len() && sorted[k] == pair;
    assert(planned_sessions(sessions, selected, target)[k] == planned_session(session, target));
}

proof fn lemma_selected_covers(
    sessions: Seq<EligibleSessionView>,
    selected: Set<SourceProviderView>,
    session: EligibleSessionView,
)
    requires
        sessions.contains(session),
        selected.contains(session.origin_provider),
    ensures
        selected_sessions(sessions, selected).contains(
            (SessionOrderView { updated_at: session.updated_at, id: session.id }, session),
        ),
    decreases sessions.len(),
{
    let all = selected_sessions(sessions, selected);
    let pair = (SessionOrderView { updated_at: session.updated_at, id: session.id }, session);
    if sessions.last() == session {
        assert(all[all.len() - 1] == pair);
    } else {
        let k = choose|k: int| 0 <= k < sessions.len() && sessions[k] == session;
        assert(sessions.drop_last()[k] == session);
        lemma_selected_covers(sessions.drop_last(), selected, session);
        let rest = selected_sessions(sessions.drop_last(), selected);
        let m = choose|m: int| 0 <= m < rest.len() && rest[m] == pair;
        assert(all[m] == pair);
    }
}

/// A plan's pending sessions are those considered less those aligned.
pub proof fn law_pending_is_considered_less_aligned(
    plan: ProviderPlanPreviewView,
    sessions: Seq<EligibleSessionView>,
    selected: Set<SourceProviderView>,
    target: SourceProviderView,
    scope: ProjectionScope,
)
    requires
        is_plan_for(plan, sessions, selected, target, scope),
    ensures
        plan.pending == plan.considered - plan.matrix.aligned,
        plan.considered == plan.matrix.sum(),
{
    lemma_counts_add_up(plan.matrix, plan.sessions);
}

/// A session once it was moved to the target.
pub open spec fn moved(
    session: EligibleSessionView,
    target: SourceProviderView,
) -> EligibleSessionView {
    EligibleSessionView {
        state_present: true,
        state_provider: target,
        catalog: CatalogStateView::Present { provider: target },
        ..session
    }
}

/// Sessions once those with a selected origin were moved to the target.
pub open spec fn moved_sessions(
    sessions: Seq<EligibleSessionView>,
    selected: Set<SourceProviderView>,
    target: SourceProviderView,
) -> Seq<EligibleSessionView> {
    sessions.map_values(
        |session: EligibleSessionView|
            if selected.contains(session.origin_provider) {
                moved(session, target)
            } else {
                session
            },
    )
}

proof fn lemma_selected_moved(
    sessions: Seq<EligibleSessionView>,
    selected: Set<SourceProviderView>,
    target: SourceProviderView,
)
    ensures
        selected_sessions(moved_sessions(sessions, selected, target), selected)
            == selected_sessions(sessions, selected).map_values(
            |pair: (SessionOrderView, EligibleSessionView)| (pair.0, moved(pair.1, target)),
        ),
    decreases sessions.len(),
{
    let done = moved_sessions(sessions, selected, target);
    let step = |pair: (SessionOrderView, EligibleSessionView)| (pair.0, moved(pair.1, target));
    if sessions.len() > 0 {
        lemma_selected_moved(sessions.drop_last(), selected, target);
        assert(done.drop_last() =~= moved_sessions(sessions.drop_last(), selected, target));
    }
    assert(selected_sessions(done, selected) =~= selected_sessions(sessions, selected).map_values(
        step,
    ));
}

proof fn lemma_all_aligned(sessions: Seq<PlannedSessionView>, category: PlanCategory)
    requires
        forall|i: int|
            0 <= i < sessions.len() ==> (#[trigger] sessions[i]).category == PlanCategory::Aligned,
        category != PlanCategory::Aligned,
    ensures
        count_of(sessions, category) == 0,
    decreases sessions.len(),
{
    if sessions.len() > 0 {
        let front = sessions.drop_last();
        assert forall|i: int| 0 <= i < front.len() implies (#[trigger] front[i]).category
            == PlanCategory::Aligned by {
            assert(front[i] == sessions[i]);
        }
        lemma_all_aligned(front, category);
        assert(sessions[sessions.len() - 1] == sessions.last());
    }
}

/// Planning again, after every planned session was moved to the target, finds nothing to do: the
/// same sessions in the same order, all of them aligned.
pub proof fn law_moved_sessions_are_aligned(
    plan: ProviderPlanPreviewView,
    again: ProviderPlanPreviewView,
    sessions: Seq<EligibleSessionView>,
    selected: Set<SourceProviderView>,
    target: SourceProviderView,
    scope: ProjectionScope,
)
    requires
        repeated_from(session_ids(sessions), 0) is None,
        is_plan_for(plan, sessions, selected, target, scope),
        is_plan_for(
            again,
            moved_sessions(sessions, selected.insert(target), target),
            selected,
            target,
            scope,
        ),
    ensures
        repeated_from(
            session_ids(moved_sessions(sessions, selected.insert(target), target)),
            0,
        ) is None,
        again.pending == 0,
        again.operations.changed_threads == 0,
        again.operations.state_updates == 0,
        again.operations.catalog_updates == 0,
        again.operations.catalog_inserts == 0,
        again.considered == plan.considered,
        again.sessions == plan.sessions.map_values(
            |session: PlannedSessionView|
                PlannedSessionView { category: PlanCategory::Aligned, ..session },
        ),
{
    let sources = selected.insert(target);
    let done = moved_sessions(sessions, sources, target);
    assert(session_ids(done) =~= session_ids(sessions));
    let step = |session: EligibleSessionView| moved(session, target);
    let pairs = selected_sessions(sessions, sources);
    lemma_selected_moved(sessions, sources, target);
    assert(pairs.map_values(
        |pair: (SessionOrderView, EligibleSessionView)| (pair.0, moved(pair.1, target)),
    ) =~= pairs.map_values(
        |pair: (SessionOrderView, EligibleSessionView)| (pair.0, step(pair.1)),
    ));
    ordered::lemma_sorted_mapped::<SessionOrder, EligibleSessionView, EligibleSessionView>(
        pairs,
        step,
    );
    assert(again.sessions =~= plan.sessions.map_values(
        |session: PlannedSessionView|
            PlannedSessionView { category: PlanCategory::Aligned, ..session },
    ));
    lemma_all_aligned(again.sessions, PlanCategory::StateUpdateOnly);
    lemma_all_aligned(again.sessions, PlanCategory::CatalogUpdateOnly);
    lemma_all_aligned(again.sessions, PlanCategory::CatalogInsertOnly);
    lemma_all_aligned(again.sessions, PlanCategory::StateAndCatalogUpdate);
    lemma_all_aligned(again.sessions, PlanCategory::StateAndCatalogInsert);
    assert(again.matrix.count(PlanCategory::StateUpdateOnly) == 0);
    assert(again.matrix.count(PlanCategory::CatalogUpdateOnly) == 0);
    assert(again.matrix.count(PlanCategory::CatalogInsertOnly) == 0);
    assert(again.matrix.count(PlanCategory::StateAndCatalogUpdate) == 0);
    assert(again.matrix.count(PlanCategory::StateAndCatalogInsert) == 0);
}

proof fn lemma_selected_among(
    a: Seq<EligibleSessionView>,
    b: Seq<EligibleSessionView>,
    selected: Set<SourceProviderView>,
    pair: (SessionOrderView, EligibleSessionView),
)
    requires
        forall|session: EligibleSessionView| #[trigger] a.contains(session) ==> b.contains(session),
        selected_sessions(a, selected).contains(pair),
    ensures
        selected_sessions(b, selected).contains(pair),
{
    let pairs = selected_sessions(a, selected);
    let k = choose|k: int| 0 <= k < pairs.len() && pairs[k] == pair;
    lemma_selected(a, selected);
    lemma_places_match(a, selected);
    assert(a.contains(pairs[k].1));
    assert(b.contains(pair.1));
    lemma_selected_covers(b, selected, pair.1);
    assert(pair.0 == SessionOrderView { updated_at: pair.1.updated_at, id: pair.1.id });
}

proof fn lemma_selected_keys_distinct(
    sessions: Seq<EligibleSessionView>,
    selected: Set<SourceProviderView>,
)
    requires
        session_ids(sessions).no_duplicates(),
    ensures
        forall|i: int, j: int|
            0 <= i < j < selected_sessions(sessions, selected).len() ==> (
            #[trigger] selected_sessions(sessions, selected)[i]).0 != (
            #[trigger] selected_sessions(sessions, selected)[j]).0,
{
    let ids = session_ids(sessions);
    assert forall|i: int, j: int| 0 <= i < j < sessions.len() implies (#[trigger] sessions[i]).id
        != (#[trigger] sessions[j]).id by {
        assert(ids[i] == sessions[i].id && ids[j] == sessions[j].id);
    }
    lemma_selected_distinct(sessions, selected);
    lemma_places_match(sessions, selected);
}

/// Candidates that are planned in the same way have the same plan.
pub proof fn lemma_same_plan(
    a: ProviderPlanPreviewView,
    b: ProviderPlanPreviewView,
    one: Seq<EligibleSessionView>,
    other: Seq<EligibleSessionView>,
    selected: Set<SourceProviderView>,
    target: SourceProviderView,
    scope: ProjectionScope,
)
    requires
        is_plan_for(a, one, selected, target, scope),
        is_plan_for(b, other, selected, target, scope),
        planned_sessions(one, selected.insert(target), target) == planned_sessions(
            other,
            selected.insert(target),
            target,
        ),
    ensures
        a == b,
{
    lemma_same_counts(a.matrix, b.matrix, a.sessions);
}

/// Neither the order of the candidates nor naming the target among the sources matters to a plan.
pub proof fn law_plan_does_not_depend_on_order(
    plan: ProviderPlanPreviewView,
    other: ProviderPlanPreviewView,
    sessions: Seq<EligibleSessionView>,
    permuted: Seq<EligibleSessionView>,
    selected: Set<SourceProviderView>,
    target: SourceProviderView,
    scope: ProjectionScope,
)
    requires
        session_ids(sessions).no_duplicates(),
        permuted.to_multiset() == sessions.to_multiset(),
        is_plan_for(plan, sessions, selected, target, scope),
        is_plan_for(other, permuted, selected.insert(target), target, scope),
    ensures
        repeated_from(session_ids(sessions), 0) is None,
        repeated_from(session_ids(permuted), 0) is None,
        plan == other,
{
    let sources = selected.insert(target);
    assert(sources.insert(target) =~= sources);
    lemma_distinct_no_repeat(session_ids(sessions), 0);
    lemma_permuted_ids(sessions, permuted);
    lemma_distinct_no_repeat(session_ids(permuted), 0);
    lemma_selected_keys_distinct(sessions, sources);
    lemma_selected_keys_distinct(permuted, sources);
    let a = selected_sessions(sessions, sources);
    let b = selected_sessions(permuted, sources);
    assert forall|pair: (SessionOrderView, EligibleSessionView)| #[trigger]
        a.contains(pair) <==> b.contains(pair) by {
        if a.contains(pair) {
            lemma_selected_among(sessions, permuted, sources, pair);
        }
        if b.contains(pair) {
            lemma_selected_among(permuted, sessions, sources, pair);
        }
    }
    ordered::lemma_same_sorted::<SessionOrder, EligibleSessionView>(a, b);
    lemma_same_plan(plan, other, sessions, permuted, selected, target, scope);
}

proof fn lemma_permuted_ids(
    sessions: Seq<EligibleSessionView>,
    permuted: Seq<EligibleSessionView>,
)
    requires
        session_ids(sessions).no_duplicates(),
        permuted.to_multiset() == sessions.to_multiset(),
    ensures
        session_ids(permuted).no_duplicates(),
        forall|session: EligibleSessionView| #[trigger]
            sessions.contains(session) <==> permuted.contains(session),
{
    let ids = session_ids(sessions);
    sessions.to_multiset_ensures();
    permuted.to_multiset_ensures();
    assert forall|session: EligibleSessionView| #[trigger]
        sessions.contains(session) <==> permuted.contains(session) by {
        assert(sessions.contains(session) <==> sessions.to_multiset().count(session) > 0);
        assert(permuted.contains(session) <==> permuted.to_multiset().count(session) > 0);
    }
    assert forall|i: int, j: int|
        0 <= i < sessions.len() && 0 <= j < sessions.len() && i != j implies sessions[i]
        != sessions[j] by {
        assert(ids[i] != ids[j]);
    }
    sessions.lemma_multiset_has_no_duplicates();
    permuted.lemma_multiset_has_no_duplicates_conv();
    let others = session_ids(permuted);
    assert forall|i: int, j: int|
        0 <= i < others.len() && 0 <= j < others.len() && i != j implies others[i] != others[j] by {
        assert(permuted.contains(permuted[i]) && permuted.contains(permuted[j]));
        assert(sessions.contains(permuted[i]) && sessions.contains(permuted[j]));
        let a = choose|a: int| 0 <= a < sessions.len() && sessions[a] == permuted[i];
        let b = choose|b: int| 0 <= b < sessions.len() && sessions[b] == permuted[j];
        assert(a != b);
        assert(ids[a] != ids[b]);
    }
}

/// What a store holds after capture: the record of each session under its id.
proof fn lemma_captured(
    planned: Seq<PlannedSessionView>,
    sessions: Seq<EligibleSessionView>,
    target: SourceProviderView,
    version: u64,
    timestamp: i64,
)
    requires
        captured_threads(planned, sessions, target, version, timestamp) is Ok,
    ensures
        ({
            let threads = captured_threads(planned, sessions, target, version, timestamp)->Ok_0;
            &&& threads.dom().finite()
            &&& forall|id: Seq<char>| #[trigger]
                threads.dom().contains(id) ==> session_by_id(sessions, id) is Some && session_by_id(
                    sessions,
                    id,
                )->0.id == id && threads[id] == record_of(
                    session_by_id(sessions, id)->0,
                    target,
                    version,
                    timestamp,
                )
        }),
    decreases planned.len(),
{
    if planned.len() > 0 {
        lemma_captured(planned.drop_last(), sessions, target, version, timestamp);
        lemma_session_by_id(sessions, planned.last().thread_id);
    }
}

/// The session that is found has the id.
pub proof fn lemma_session_by_id(sessions: Seq<EligibleSessionView>, id: Seq<char>)
    ensures
        session_by_id(sessions, id) matches Some(session) ==> session.id == id,
    decreases sessions.len(),
{
    if sessions.len() > 0 {
        lemma_session_by_id(sessions.drop_last(), id);
    }
}

proof fn lemma_all_restored(
    keys: Seq<Seq<char>>,
    store: ProjectionStoreView,
    current: Seq<CurrentProjectionStateView>,
    timestamp: i64,
)
    requires
        forall|i: int|
            0 <= i < keys.len() ==> reconcile_outcome(
                store.threads[#[trigger] keys[i]],
                current_by_id(current, store.threads[keys[i]].thread_id),
            ) is Restore,
    ensures
        reconciled(keys, store, current, timestamp) is Ok,
        ({
            let plan = reconciled(keys, store, current, timestamp)->Ok_0;
            &&& plan.restores.len() == keys.len()
            &&& plan.already_restored.len() == 0
            &&& plan.conflicts.len() == 0
            &&& plan.missing.len() == 0
            &&& forall|i: int|
                0 <= i < keys.len() ==> ReconcileOutcome::Restore(#[trigger] plan.restores[i])
                    == reconcile_outcome(
                    store.threads[keys[i]],
                    current_by_id(current, store.threads[keys[i]].thread_id),
                )
        }),
    decreases keys.len(),
{
    if keys.len() > 0 {
        let front = keys.drop_last();
        assert forall|i: int| 0 <= i < front.len() implies reconcile_outcome(
            store.threads[#[trigger] front[i]],
            current_by_id(current, store.threads[front[i]].thread_id),
        ) is Restore by {
            assert(keys[i] == front[i]);
        }
        lemma_all_restored(front, store, current, timestamp);
        assert(keys[keys.len() - 1] == keys.last());
    }
}

/// A whole store is undone: where every captured session holds what the projection wrote and held
/// something else before, each is put back to exactly what it was, and nothing else is planned.
pub proof fn law_captured_store_is_undone(
    plan: ProviderPlanPreviewView,
    sessions: Seq<EligibleSessionView>,
    store: ProjectionStoreView,
    version: u64,
    timestamp: i64,
    current: Seq<CurrentProjectionStateView>,
    later: i64,
)
    requires
        captured_threads(
            plan.sessions,
            sessions,
            plan.target_provider,
            version,
            timestamp,
        ) == Ok::<Map<Seq<char>, ProjectionRecordView>, Seq<char>>(store.threads),
        version < u64::MAX,
        forall|id: Seq<char>| #[trigger]
            store.threads.dom().contains(id) ==> {
                let target = plan.target_provider;
                let session = session_by_id(sessions, id)->0;
                let now = current_by_id(current, id);
                &&& session.state_provider != target || session.catalog
                    != (CatalogStateView::Present { provider: target })
                &&& now is Some
                &&& now->0.state_provider == target
                &&& now->0.catalog == (CatalogStateView::Present { provider: target })
                &&& now->0.projection_version == version
            },
    ensures
        ({
            let keys = ordered::listed::<String>(store.threads.dom());
            let undone = reconciled(keys, store, current, later);
            &&& undone is Ok
            &&& undone->Ok_0.restores.len() == store.threads.len()
            &&& undone->Ok_0.already_restored.len() == 0
            &&& undone->Ok_0.conflicts.len() == 0
            &&& undone->Ok_0.missing.len() == 0
            &&& forall|i: int|
                0 <= i < keys.len() ==> {
                    let action = #[trigger] undone->Ok_0.restores[i];
                    let session = session_by_id(sessions, keys[i])->0;
                    &&& action.thread_id == keys[i]
                    &&& store.threads.dom().contains(keys[i])
                    &&& action.restore_state_provider == session.state_provider
                    &&& action.restore_catalog == session.catalog
                    &&& action.expected_version == version
                    &&& action.next_version == version + 1
                }
        }),
{
    let keys = ordered::listed::<String>(store.threads.dom());
    lemma_captured(plan.sessions, sessions, plan.target_provider, version, timestamp);
    ordered::lemma_finite_is_listed::<String>(store.threads.dom());
    assert forall|i: int| 0 <= i < keys.len() implies reconcile_outcome(
        store.threads[#[trigger] keys[i]],
        current_by_id(current, store.threads[keys[i]].thread_id),
    ) is Restore by {
        assert(store.threads.dom().contains(keys[i]));
    }
    lemma_all_restored(keys, store, current, later);
    let undone = reconciled(keys, store, current, later);
    assert forall|i: int| 0 <= i < keys.len() implies {
        let action = #[trigger] undone->Ok_0.restores[i];
        let session = session_by_id(sessions, keys[i])->0;
        &&& action.thread_id == keys[i]
        &&& store.threads.dom().contains(keys[i])
        &&& action.restore_state_provider == session.state_provider
        &&& action.restore_catalog == session.catalog
        &&& action.expected_version == version
        &&& action.next_version == version + 1
    } by {
        assert(store.threads.dom().contains(keys[i]));
    }
}

/// A plan writes the state row of a session exactly where the row is missing or names another
/// provider, rewrites its catalog row exactly where there is one that names another provider or is
/// only a candidate, and adds one exactly where there is none.
pub proof fn law_category_names_what_is_not_aligned(
    session: EligibleSessionView,
    target: SourceProviderView,
)
    ensures
        ({
            let category = category_of(session, target);
            let state_right = session.state_present && session.state_provider == target;
            let catalog_right = session.catalog == (CatalogStateView::Present { provider: target });
            &&& category == PlanCategory::Aligned <==> state_right && catalog_right
            &&& (category == PlanCategory::StateUpdateOnly || category
                == PlanCategory::StateAndCatalogUpdate || category
                == PlanCategory::StateAndCatalogInsert) <==> !state_right
            &&& (category == PlanCategory::CatalogInsertOnly || category
                == PlanCategory::StateAndCatalogInsert) <==> session.catalog is Missing
            &&& (category == PlanCategory::CatalogUpdateOnly || category
                == PlanCategory::StateAndCatalogUpdate) <==> !catalog_right && !(
            session.catalog is Missing)
        }),
{
}

/// A session's state row is written in a plan.
pub open spec fn writes_state(session: PlannedSessionView) -> bool {
    session.category == PlanCategory::StateUpdateOnly || session.category
        == PlanCategory::StateAndCatalogUpdate || session.category
        == PlanCategory::StateAndCatalogInsert
}

/// A session's catalog row is rewritten in a plan.
pub open spec fn rewrites_catalog(session: PlannedSessionView) -> bool {
    session.category == PlanCategory::CatalogUpdateOnly || session.category
        == PlanCategory::StateAndCatalogUpdate
}

/// A catalog row is added for a session in a plan.
pub open spec fn adds_catalog(session: PlannedSessionView) -> bool {
    session.category == PlanCategory::CatalogInsertOnly || session.category
        == PlanCategory::StateAndCatalogInsert
}

proof fn lemma_categories_counted(sessions: Seq<PlannedSessionView>)
    ensures
        planning::kept(sessions, |session: PlannedSessionView| writes_state(session)).len()
            == count_of(sessions, PlanCategory::StateUpdateOnly) + count_of(
            sessions,
            PlanCategory::StateAndCatalogUpdate,
        ) + count_of(sessions, PlanCategory::StateAndCatalogInsert),
        planning::kept(sessions, |session: PlannedSessionView| rewrites_catalog(session)).len()
            == count_of(sessions, PlanCategory::CatalogUpdateOnly) + count_of(
            sessions,
            PlanCategory::StateAndCatalogUpdate,
        ),
        planning::kept(sessions, |session: PlannedSessionView| adds_catalog(session)).len()
            == count_of(sessions, PlanCategory::CatalogInsertOnly) + count_of(
            sessions,
            PlanCategory::StateAndCatalogInsert,
        ),
        planning::kept(
            sessions,
            |session: PlannedSessionView| session.category != PlanCategory::Aligned,
        ).len() == count_of(sessions, PlanCategory::CatalogUpdateOnly) + count_of(
            sessions,
            PlanCategory::CatalogInsertOnly,
        ) + count_of(sessions, PlanCategory::StateUpdateOnly) + count_of(
            sessions,
            PlanCategory::StateAndCatalogUpdate,
        ) + count_of(sessions, PlanCategory::StateAndCatalogInsert),
        planning::kept(
            sessions,
            |session: PlannedSessionView| session.category == PlanCategory::Aligned,
        ).len() == count_of(sessions, PlanCategory::Aligned),
        planning::kept(
            sessions,
            |session: PlannedSessionView| session.category != PlanCategory::Aligned,
        ).len() + count_of(sessions, PlanCategory::Aligned) == sessions.len(),
    decreases sessions.len(),
{
    if sessions.len() > 0 {
        lemma_categories_counted(sessions.drop_last());
    }
}

/// What a plan says that it comes to is what its sessions come to: so many state rows are written,
/// so many catalog rows rewritten and so many added as there are sessions in it that ask for it.
pub proof fn law_operations_are_what_the_sessions_ask_for(
    plan: ProviderPlanPreviewView,
    sessions: Seq<EligibleSessionView>,
    selected: Set<SourceProviderView>,
    target: SourceProviderView,
    scope: ProjectionScope,
)
    requires
        is_plan_for(plan, sessions, selected, target, scope),
        plan.sessions.len() <= usize::MAX,
    ensures
        plan.operations.state_updates == planning::kept(
            plan.sessions,
            |session: PlannedSessionView| writes_state(session),
        ).len(),
        plan.operations.catalog_updates == planning::kept(
            plan.sessions,
            |session: PlannedSessionView| rewrites_catalog(session),
        ).len(),
        plan.operations.catalog_inserts == planning::kept(
            plan.sessions,
            |session: PlannedSessionView| adds_catalog(session),
        ).len(),
        plan.operations.changed_threads == planning::kept(
            plan.sessions,
            |session: PlannedSessionView| session.category != PlanCategory::Aligned,
        ).len(),
        plan.pending == plan.operations.changed_threads,
        plan.matrix.aligned + plan.pending == plan.sessions.len(),
{
    lemma_categories_counted(plan.sessions);
    let matrix = plan.matrix;
    assert(matrix.count(PlanCategory::Aligned) == count_of(plan.sessions, PlanCategory::Aligned));
    assert(matrix.count(PlanCategory::CatalogUpdateOnly) == count_of(
        plan.sessions,
        PlanCategory::CatalogUpdateOnly,
    ));
    assert(matrix.count(PlanCategory::CatalogInsertOnly) == count_of(
        plan.sessions,
        PlanCategory::CatalogInsertOnly,
    ));
    assert(matrix.count(PlanCategory::StateUpdateOnly) == count_of(
        plan.sessions,
        PlanCategory::StateUpdateOnly,
    ));
    assert(matrix.count(PlanCategory::StateAndCatalogUpdate) == count_of(
        plan.sessions,
        PlanCategory::StateAndCatalogUpdate,
    ));
    assert(matrix.count(PlanCategory::StateAndCatalogInsert) == count_of(
        plan.sessions,
        PlanCategory::StateAndCatalogInsert,
    ));
}

proof fn lemma_session_fault_iff(
    sessions: Seq<PlannedSessionView>,
    selected: Set<SourceProviderView>,
    i: nat,
)
    ensures
        session_fault(sessions, selected, i) is None <==> forall|k: int|
            i <= k < sessions.len() ==> selected.contains((#[trigger] sessions[k]).origin_provider)
                && !repeats_at(sessions, k),
    decreases sessions.len() - i,
{
    if i < sessions.len() {
        lemma_session_fault_iff(sessions, selected, i + 1);
        if session_fault(sessions, selected, i) is None {
            assert forall|k: int| i <= k < sessions.len() implies selected.contains(
                (#[trigger] sessions[k]).origin_provider,
            ) && !repeats_at(sessions, k) by {
                if k > i {
                    assert(i + 1 <= k);
                }
            }
        }
        if forall|k: int|
            i <= k < sessions.len() ==> selected.contains((#[trigger] sessions[k]).origin_provider)
                && !repeats_at(sessions, k) {
            assert(selected.contains(sessions[i as int].origin_provider));
        }
    }
}

/// A plan is without fault exactly where the target is among its sources, every session in it is
/// there once and from one of the sources, and its counts are those of its sessions.
pub proof fn law_sound_plan_is_without_fault(plan: ProviderPlanPreviewView)
    ensures
        plan_fault(plan) is None <==> {
            &&& plan.selected_sources.contains(plan.target_provider)
            &&& plan.considered == plan.sessions.len()
            &&& plan.considered == plan.total_candidates
            &&& plan.considered == plan.matrix.aligned + plan.matrix.changed()
            &&& counts(plan.matrix, plan.sessions)
            &&& plan.pending == plan.matrix.changed()
            &&& plan.operations == operations_of(plan.pending, plan.matrix)
            &&& forall|i: int, j: int|
                0 <= i < j < plan.sessions.len() ==> (#[trigger] plan.sessions[i]).thread_id != (
                #[trigger] plan.sessions[j]).thread_id
            &&& forall|i: int|
                0 <= i < plan.sessions.len() ==> plan.selected_sources.contains(
                    (#[trigger] plan.sessions[i]).origin_provider,
                )
        },
{
    lemma_session_fault_iff(plan.sessions, plan.selected_sources, 0);
    if plan_fault(plan) is None {
        assert forall|i: int, j: int| 0 <= i < j < plan.sessions.len() implies (
        #[trigger] plan.sessions[i]).thread_id != (#[trigger] plan.sessions[j]).thread_id by {
            assert(!repeats_at(plan.sessions, j));
        }
    }
    if forall|i: int, j: int|
        0 <= i < j < plan.sessions.len() ==> (#[trigger] plan.sessions[i]).thread_id != (
        #[trigger] plan.sessions[j]).thread_id {
        assert forall|k: int| 0 <= k < plan.sessions.len() implies !repeats_at(
            plan.sessions,
            k,
        ) by {}
    }
}

/// A moved session is missing where nothing is known of it now, back where it holds what it held,
/// and otherwise a conflict unless it holds, at the version of the move, what the move wrote.
pub proof fn law_reconcile_tells_every_case(
    record: ProjectionRecordView,
    now: CurrentProjectionStateView,
)
    ensures
        reconcile_outcome(record, None) is Missing,
        ({
            let outcome = reconcile_outcome(record, Some(now));
            let back = now.state_provider == record.original_state_provider && now.catalog
                == record.original_catalog;
            let moved = now.projection_version == record.version && now.state_provider
                == record.projected_target && now.catalog == (CatalogStateView::Present {
                provider: record.projected_target,
            });
            &&& !(outcome is Missing)
            &&& outcome is AlreadyRestored <==> back
            &&& outcome is Conflict <==> !back && !moved
            &&& outcome is Restore <==> !back && moved && record.version < u64::MAX
            &&& outcome is VersionOverflow <==> !back && moved && record.version == u64::MAX
            &&& outcome is Restore ==> outcome->Restore_0.thread_id == record.thread_id
                && outcome->Restore_0.expected_version == record.version
                && outcome->Restore_0.expected_state_provider == record.projected_target
                && outcome->Restore_0.expected_catalog == now.catalog
        }),
{
}

proof fn lemma_no_id_repeats(ids: Seq<Seq<char>>, i: nat)
    ensures
        repeated_from(ids, i) is None <==> forall|k: int|
            i <= k < ids.len() ==> !ids.take(k).contains(#[trigger] ids[k]),
    decreases ids.len() - i,
{
    if i < ids.len() {
        lemma_no_id_repeats(ids, i + 1);
        if repeated_from(ids, i) is None {
            assert forall|k: int| i <= k < ids.len() implies !ids.take(k).contains(
                #[trigger] ids[k],
            ) by {
                if k > i {
                    assert(i + 1 <= k);
                }
            }
        }
        if forall|k: int| i <= k < ids.len() ==> !ids.take(k).contains(#[trigger] ids[k]) {
            assert(!ids.take(i as int).contains(ids[i as int]));
        }
    }
}

/// An id is told as repeated exactly where two sessions have the same.
pub proof fn law_repeated_ids_are_told(ids: Seq<Seq<char>>)
    ensures
        repeated_from(ids, 0) is None <==> ids.no_duplicates(),
{
    lemma_no_id_repeats(ids, 0);
    if ids.no_duplicates() {
        assert forall|k: int| 0 <= k < ids.len() implies !ids.take(k).contains(
            #[trigger] ids[k],
        ) by {
            if ids.take(k).contains(ids[k]) {
                let j = choose|j: int| 0 <= j < ids.take(k).len() && ids.take(k)[j] == ids[k];
                assert(ids[j] == ids[k]);
            }
        }
    }
    if repeated_from(ids, 0) is None {
        assert forall|i: int, j: int| 0 <= i < ids.len() && 0 <= j < ids.len() && i != j implies #[trigger] ids[i]
            != #[trigger] ids[j] by {
            if ids[i] == ids[j] {
                let low = if i < j { i } else { j };
                let high = if i < j { j } else { i };
                assert(ids.take(high)[low] == ids[high]);
                assert(ids.take(high).contains(ids[high]));
            }
        }
    }
}

} // verus!

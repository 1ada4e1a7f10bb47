//! Settling an interrupted repair: nothing of it is there, all of it is, or it is undone row by
//! row, sparing what changed since.

use crate::journal;
use crate::journal::{
    catalog_journal_image_state, journal_image_state, rollout_journal_state, slot_journal_state,
    state_is_after,
    state_is_before, watermark_journal_image_state, CatalogWatermarks, CatalogWatermarksView,
    JournalImageState, PendingOperation, PendingOperationView, RepairCatalogImage,
    RepairCatalogImageView, RepairCatalogJournal, RepairCatalogJournalView, RepairJournal,
    RepairJournalView, RepairJsonSlot, RepairPhase, RepairRolloutJournal, RepairRolloutJournalView,
    RepairStateImage, RepairStateImageView, RepairStateJournal, RepairStateJournalView,
    RepairWorkspaceJournalView,
};
use crate::json::{Json, JsonView};
use crate::model;
use crate::model::Model;
use crate::ordered::OrderedMap;
use crate::projection::{ProjectionStore, ProjectionStoreView};
use crate::sessions;
use crate::text;
use crate::text::{decimal, join2, join4};
use vstd::prelude::*;

verus! {

/// How an interrupted repair was settled.
#[derive(Clone, Copy, Debug, PartialEq, Eq, Structural)]
pub enum PendingRepairResolution {
    /// Nothing had been written; the journal was cleared.
    BeforeCommitCleared,
    /// Everything had been written; the journal was cleared.
    CommittedFinalized,
    /// What had been written was put back.
    Compensated,
    /// The repair had failed its verification; journal and backup stay.
    VerificationFailed,
}

impl DeepView for PendingRepairResolution {
    type V = PendingRepairResolution;

    open spec fn deep_view(&self) -> PendingRepairResolution {
        *self
    }
}

impl Model for PendingRepairResolution {
    fn copy_of(&self) -> (r: Self) {
        *self
    }

    fn same_as(&self, other: &Self) -> (r: bool) {
        *self == *other
    }
}

/// What is wanted of an interrupted repair.
#[derive(Clone, Copy, Debug, PartialEq, Eq, Structural)]
pub enum PendingRecoveryIntent {
    /// That it be settled as it stands.
    Resume,
    /// That it be undone.
    Rollback,
}

impl DeepView for PendingRecoveryIntent {
    type V = PendingRecoveryIntent;

    open spec fn deep_view(&self) -> PendingRecoveryIntent {
        *self
    }
}

impl Model for PendingRecoveryIntent {
    fn copy_of(&self) -> (r: Self) {
        *self
    }

    fn same_as(&self, other: &Self) -> (r: bool) {
        *self == *other
    }
}

/// What stands in the rows of a journal now, row by row.
#[derive(Debug, PartialEq, Eq)]
pub struct ObservedRows {
    /// The state rows, for journal rows that hold images.
    pub state_images: Vec<Option<RepairStateImage>>,
    /// The providers of the state rows, for journal rows without images.
    pub state_providers: Vec<Option<String>>,
    pub rollout_providers: Vec<Option<String>>,
    pub catalog_images: Vec<Option<RepairCatalogImage>>,
    pub watermarks: Option<CatalogWatermarks>,
    pub workspace_hints: OrderedMap<String, Json>,
    pub projection: Option<ProjectionStore>,
}

/// What a `ObservedRows` stands for.
#[verifier::ext_equal]
pub struct ObservedRowsView {
    pub state_images: Seq<Option<RepairStateImageView>>,
    pub state_providers: Seq<Option<Seq<char>>>,
    pub rollout_providers: Seq<Option<Seq<char>>>,
    pub catalog_images: Seq<Option<RepairCatalogImageView>>,
    pub watermarks: Option<CatalogWatermarksView>,
    pub workspace_hints: Map<Seq<char>, JsonView>,
    pub projection: Option<ProjectionStoreView>,
}

impl DeepView for ObservedRows {
    type V = ObservedRowsView;

    open spec fn deep_view(&self) -> ObservedRowsView {
        ObservedRowsView {
            state_images: self.state_images.deep_view(),
            state_providers: self.state_providers.deep_view(),
            rollout_providers: self.rollout_providers.deep_view(),
            catalog_images: self.catalog_images.deep_view(),
            watermarks: self.watermarks.deep_view(),
            workspace_hints: self.workspace_hints.deep_view(),
            projection: self.projection.deep_view(),
        }
    }
}

impl Model for ObservedRows {
    fn copy_of(&self) -> (r: Self) {
        ObservedRows {
            state_images: self.state_images.copy_of(),
            state_providers: self.state_providers.copy_of(),
            rollout_providers: self.rollout_providers.copy_of(),
            catalog_images: self.catalog_images.copy_of(),
            watermarks: self.watermarks.copy_of(),
            workspace_hints: self.workspace_hints.copy_of(),
            projection: self.projection.copy_of(),
        }
    }

    fn same_as(&self, other: &Self) -> (r: bool) {
        self.state_images.same_as(&other.state_images)
            && self.state_providers.same_as(&other.state_providers)
            && self.rollout_providers.same_as(&other.rollout_providers)
            && self.catalog_images.same_as(&other.catalog_images)
            && self.watermarks.same_as(&other.watermarks)
            && self.workspace_hints.same_as(&other.workspace_hints)
            && self.projection.same_as(&other.projection)
    }
}

/// A row of a journal, and how what stands there now stands to it.
#[derive(Clone, Debug, PartialEq, Eq)]
pub struct NamedState {
    pub name: String,
    pub state: JournalImageState,
}

/// What a `NamedState` stands for.
#[verifier::ext_equal]
pub struct NamedStateView {
    pub name: Seq<char>,
    pub state: JournalImageState,
}

impl DeepView for NamedState {
    type V = NamedStateView;

    open spec fn deep_view(&self) -> NamedStateView {
        NamedStateView {
            name: self.name.deep_view(),
            state: self.state.deep_view(),
        }
    }
}

impl Model for NamedState {
    fn copy_of(&self) -> (r: Self) {
        NamedState {
            name: self.name.copy_of(),
            state: self.state.copy_of(),
        }
    }

    fn same_as(&self, other: &Self) -> (r: bool) {
        self.name.same_as(&other.name)
            && self.state.same_as(&other.state)
    }
}

/// A write that puts a row back.
#[derive(Debug, PartialEq, Eq)]
pub enum RecoveryAction {
    /// Puts a state row back: what it was, and what the repair made of it.
    State { thread_id: String, before: Option<RepairStateImage>, after: Option<RepairStateImage> },
    /// Puts the provider of a state row back.
    StateProvider { thread_id: String, provider_before: String, provider_after: String },
    /// Puts the provider of a rollout back.
    Rollout(RepairRolloutJournal),
    /// Puts a catalog row back, or deletes or adds it.
    Catalog(RepairCatalogJournal),
    /// Puts the observation counter of the catalog back.
    ObservationSequence { sequence_before: i64, sequence_after: i64 },
    /// Puts the revision of the catalog back.
    CatalogRevision { revision_before: i64, revision_after: i64 },
    /// Puts the store of projections back; without one, the file is removed.
    Projection(Option<ProjectionStore>),
}

/// What a `RecoveryAction` stands for.
#[verifier::ext_equal]
pub enum RecoveryActionView {
    State { thread_id: Seq<char>, before: Option<RepairStateImageView>, after: Option<RepairStateImageView> },
    StateProvider { thread_id: Seq<char>, provider_before: Seq<char>, provider_after: Seq<char> },
    Rollout(RepairRolloutJournalView),
    Catalog(RepairCatalogJournalView),
    ObservationSequence { sequence_before: i64, sequence_after: i64 },
    CatalogRevision { revision_before: i64, revision_after: i64 },
    Projection(Option<ProjectionStoreView>),
}

impl DeepView for RecoveryAction {
    type V = RecoveryActionView;

    open spec fn deep_view(&self) -> RecoveryActionView {
        match self {
            RecoveryAction::State { thread_id, before, after } => RecoveryActionView::State {
                thread_id: thread_id.deep_view(),
                before: before.deep_view(),
                after: after.deep_view(),
            },
            RecoveryAction::StateProvider { thread_id, provider_before, provider_after } => RecoveryActionView::StateProvider {
                thread_id: thread_id.deep_view(),
                provider_before: provider_before.deep_view(),
                provider_after: provider_after.deep_view(),
            },
            RecoveryAction::Rollout(value) => RecoveryActionView::Rollout(value.deep_view()),
            RecoveryAction::Catalog(value) => RecoveryActionView::Catalog(value.deep_view()),
            RecoveryAction::ObservationSequence { sequence_before, sequence_after } => RecoveryActionView::ObservationSequence {
                sequence_before: sequence_before.deep_view(),
                sequence_after: sequence_after.deep_view(),
            },
            RecoveryAction::CatalogRevision { revision_before, revision_after } => RecoveryActionView::CatalogRevision {
                revision_before: revision_before.deep_view(),
                revision_after: revision_after.deep_view(),
            },
            RecoveryAction::Projection(value) => RecoveryActionView::Projection(value.deep_view()),
        }
    }
}

impl Model for RecoveryAction {
    fn copy_of(&self) -> (r: Self) {
        match self {
            RecoveryAction::State { thread_id, before, after } => RecoveryAction::State {
                thread_id: thread_id.copy_of(),
                before: before.copy_of(),
                after: after.copy_of(),
            },
            RecoveryAction::StateProvider { thread_id, provider_before, provider_after } => RecoveryAction::StateProvider {
                thread_id: thread_id.copy_of(),
                provider_before: provider_before.copy_of(),
                provider_after: provider_after.copy_of(),
            },
            RecoveryAction::Rollout(value) => RecoveryAction::Rollout(value.copy_of()),
            RecoveryAction::Catalog(value) => RecoveryAction::Catalog(value.copy_of()),
            RecoveryAction::ObservationSequence { sequence_before, sequence_after } => RecoveryAction::ObservationSequence {
                sequence_before: sequence_before.copy_of(),
                sequence_after: sequence_after.copy_of(),
            },
            RecoveryAction::CatalogRevision { revision_before, revision_after } => RecoveryAction::CatalogRevision {
                revision_before: revision_before.copy_of(),
                revision_after: revision_after.copy_of(),
            },
            RecoveryAction::Projection(value) => RecoveryAction::Projection(value.copy_of()),
        }
    }

    fn same_as(&self, other: &Self) -> (r: bool) {
        match (self, other) {
            (
                RecoveryAction::State { thread_id: thread_id_l, before: before_l, after: after_l },
                RecoveryAction::State { thread_id: thread_id_r, before: before_r, after: after_r },
            ) => thread_id_l.same_as(thread_id_r)
                && before_l.same_as(before_r)
                && after_l.same_as(after_r),
            (
                RecoveryAction::StateProvider {
                    thread_id: thread_id_l,
                    provider_before: provider_before_l,
                    provider_after: provider_after_l,
                },
                RecoveryAction::StateProvider {
                    thread_id: thread_id_r,
                    provider_before: provider_before_r,
                    provider_after: provider_after_r,
                },
            ) => thread_id_l.same_as(thread_id_r)
                && provider_before_l.same_as(provider_before_r)
                && provider_after_l.same_as(provider_after_r),
            (RecoveryAction::Rollout(value_l), RecoveryAction::Rollout(value_r)) => value_l.same_as(value_r),
            (RecoveryAction::Catalog(value_l), RecoveryAction::Catalog(value_r)) => value_l.same_as(value_r),
            (
                RecoveryAction::ObservationSequence {
                    sequence_before: sequence_before_l,
                    sequence_after: sequence_after_l,
                },
                RecoveryAction::ObservationSequence {
                    sequence_before: sequence_before_r,
                    sequence_after: sequence_after_r,
                },
            ) => sequence_before_l.same_as(sequence_before_r)
                && sequence_after_l.same_as(sequence_after_r),
            (
                RecoveryAction::CatalogRevision {
                    revision_before: revision_before_l,
                    revision_after: revision_after_l,
                },
                RecoveryAction::CatalogRevision {
                    revision_before: revision_before_r,
                    revision_after: revision_after_r,
                },
            ) => revision_before_l.same_as(revision_before_r)
                && revision_after_l.same_as(revision_after_r),
            (RecoveryAction::Projection(value_l), RecoveryAction::Projection(value_r)) => value_l.same_as(value_r),
            _ => false,
        }
    }
}

/// What is done about an interrupted repair.
#[derive(Debug, PartialEq, Eq)]
pub enum RecoveryPlan {
    /// Nothing of it is there: the journal is cleared.
    ClearJournal,
    /// All of it is there: the journal is cleared.
    FinalizeJournal,
    /// It is undone.
    Compensate { mark: bool, actions: Vec<RecoveryAction>, conflicts: Vec<String> },
}

/// What a `RecoveryPlan` stands for.
#[verifier::ext_equal]
pub enum RecoveryPlanView {
    ClearJournal,
    FinalizeJournal,
    Compensate { mark: bool, actions: Seq<RecoveryActionView>, conflicts: Seq<Seq<char>> },
}

impl DeepView for RecoveryPlan {
    type V = RecoveryPlanView;

    open spec fn deep_view(&self) -> RecoveryPlanView {
        match self {
            RecoveryPlan::ClearJournal => RecoveryPlanView::ClearJournal,
            RecoveryPlan::FinalizeJournal => RecoveryPlanView::FinalizeJournal,
            RecoveryPlan::Compensate { mark, actions, conflicts } => RecoveryPlanView::Compensate {
                mark: mark.deep_view(),
                actions: actions.deep_view(),
                conflicts: conflicts.deep_view(),
            },
        }
    }
}

impl Model for RecoveryPlan {
    fn copy_of(&self) -> (r: Self) {
        match self {
            RecoveryPlan::ClearJournal => RecoveryPlan::ClearJournal,
            RecoveryPlan::FinalizeJournal => RecoveryPlan::FinalizeJournal,
            RecoveryPlan::Compensate { mark, actions, conflicts } => RecoveryPlan::Compensate {
                mark: mark.copy_of(),
                actions: actions.copy_of(),
                conflicts: conflicts.copy_of(),
            },
        }
    }

    fn same_as(&self, other: &Self) -> (r: bool) {
        match (self, other) {
            (RecoveryPlan::ClearJournal, RecoveryPlan::ClearJournal) => true,
            (RecoveryPlan::FinalizeJournal, RecoveryPlan::FinalizeJournal) => true,
            (
                RecoveryPlan::Compensate {
                    mark: mark_l,
                    actions: actions_l,
                    conflicts: conflicts_l,
                },
                RecoveryPlan::Compensate {
                    mark: mark_r,
                    actions: actions_r,
                    conflicts: conflicts_r,
                },
            ) => mark_l.same_as(mark_r)
                && actions_l.same_as(actions_r)
                && conflicts_l.same_as(conflicts_r),
            _ => false,
        }
    }
}

/// Whether an interrupted repair is looked into.
#[derive(Clone, Copy, Debug, PartialEq, Eq, Structural)]
pub enum RecoveryGate {
    /// It failed its verification, and stays as it is.
    KeepFailed,
    /// It is looked into.
    Proceed,
}

impl DeepView for RecoveryGate {
    type V = RecoveryGate;

    open spec fn deep_view(&self) -> RecoveryGate {
        *self
    }
}

impl Model for RecoveryGate {
    fn copy_of(&self) -> (r: Self) {
        *self
    }

    fn same_as(&self, other: &Self) -> (r: bool) {
        *self == *other
    }
}

/// Whether an interrupted repair is looked into, or why it cannot be.
pub open spec fn recovery_gate(
    pending: PendingOperationView,
    intent: PendingRecoveryIntent,
) -> Result<RecoveryGate, Seq<char>> {
    match pending.repair_journal {
        None => Err("online repair pending journal is missing"@),
        Some(journal) => if !(2 <= journal.version <= 5) {
            Err(
                "unsupported online repair journal version: "@ + text::decimal_text(
                    journal.version as nat,
                ),
            )
        } else if pending.phase == Some(RepairPhase::VerificationFailed) && intent
            == PendingRecoveryIntent::Resume {
            Ok(RecoveryGate::KeepFailed)
        } else {
            Ok(RecoveryGate::Proceed)
        },
    }
}

/// Decides whether an interrupted repair is looked into.
pub fn check_recovery(pending: &PendingOperation, intent: PendingRecoveryIntent) -> (r: Result<
    RecoveryGate,
    String,
>)
    ensures
        model::outcome(r) == recovery_gate(pending.deep_view(), intent),
{
    match &pending.repair_journal {
        None => Err("online repair pending journal is missing".to_owned()),
        Some(journal) => {
            if journal.version < 2 || journal.version > 5 {
                let version = decimal(journal.version as u64);
                return Err(
                    join2("unsupported online repair journal version: ", version.as_str()),
                );
            }
            let failed = match pending.phase {
                Some(RepairPhase::VerificationFailed) => true,
                _ => false,
            };
            if failed && intent == PendingRecoveryIntent::Resume {
                Ok(RecoveryGate::KeepFailed)
            } else {
                Ok(RecoveryGate::Proceed)
            }
        },
    }
}

/// The observations fit a journal.
pub open spec fn fits(observed: ObservedRowsView, journal: RepairJournalView) -> bool {
    &&& observed.state_images.len() == journal.state_rows.len()
    &&& observed.state_providers.len() == journal.state_rows.len()
    &&& observed.rollout_providers.len() == journal.rollout_rows.len()
    &&& observed.catalog_images.len() == journal.catalog_rows.len()
    &&& journal.catalog_watermarks is Some ==> observed.watermarks is Some
}

/// How a state row stands to its journal row.
pub open spec fn state_row_state(
    row: RepairStateJournalView,
    image: Option<RepairStateImageView>,
    provider: Option<Seq<char>>,
) -> JournalImageState {
    match row.row_images {
        Some(images) => journal::image_state(image, images.before, images.after),
        None => journal::image_state(provider, Some(row.before_provider), Some(row.after_provider)),
    }
}

fn find_state_row_state(
    row: &RepairStateJournal,
    image: &Option<RepairStateImage>,
    provider: &Option<String>,
) -> (r: JournalImageState)
    ensures
        r == state_row_state(row.deep_view(), image.deep_view(), provider.deep_view()),
{
    match &row.row_images {
        Some(images) => journal_image_state(image, &images.before, &images.after),
        None => {
            let before: Option<String> = Some(row.before_provider.copy_of());
            let after: Option<String> = Some(row.after_provider.copy_of());
            journal_image_state(provider, &before, &after)
        },
    }
}

/// How the state rows stand to a journal.
pub open spec fn state_states(
    journal: RepairJournalView,
    observed: ObservedRowsView,
) -> Seq<NamedStateView> {
    Seq::new(
        journal.state_rows.len(),
        |i: int|
            NamedStateView {
                name: "state:"@ + journal.state_rows[i].thread_id,
                state: state_row_state(
                    journal.state_rows[i],
                    observed.state_images[i],
                    observed.state_providers[i],
                ),
            },
    )
}

/// How the rollouts stand to a journal.
pub open spec fn rollout_states(
    journal: RepairJournalView,
    observed: ObservedRowsView,
) -> Seq<NamedStateView> {
    Seq::new(
        journal.rollout_rows.len(),
        |i: int|
            NamedStateView {
                name: "rollout:"@ + journal.rollout_rows[i].thread_id,
                state: rollout_row_state(
                    journal.rollout_rows[i],
                    observed.rollout_providers[i],
                ),
            },
    )
}

/// How a rollout stands to its journal row.
pub open spec fn rollout_row_state(
    row: RepairRolloutJournalView,
    provider: Option<Seq<char>>,
) -> JournalImageState {
    journal::image_state(provider, row.before_provider, row.after_provider)
}

/// How a catalog row stands to its journal row.
pub open spec fn catalog_row_state(
    row: RepairCatalogJournalView,
    image: Option<RepairCatalogImageView>,
) -> JournalImageState {
    journal::catalog_image_state(image, row.before, row.after)
}

/// How the catalog rows stand to a journal.
pub open spec fn catalog_states(
    journal: RepairJournalView,
    observed: ObservedRowsView,
) -> Seq<NamedStateView> {
    Seq::new(
        journal.catalog_rows.len(),
        |i: int|
            NamedStateView {
                name: "catalog:"@ + journal.catalog_rows[i].host_id + ":"@
                    + journal.catalog_rows[i].thread_id,
                state: catalog_row_state(journal.catalog_rows[i], observed.catalog_images[i]),
            },
    )
}

/// How the observation counter stands to a journal.
pub open spec fn sequence_state(
    journal: RepairJournalView,
    observed: ObservedRowsView,
) -> JournalImageState {
    let row = journal.catalog_watermarks->0;
    journal::watermark_state(
        observed.watermarks->0.observation_sequence,
        row.before_observation_sequence,
        row.after_observation_sequence,
    )
}

/// How the catalog's revision stands to a journal.
pub open spec fn revision_state(
    journal: RepairJournalView,
    observed: ObservedRowsView,
) -> JournalImageState {
    let row = journal.catalog_watermarks->0;
    journal::watermark_state(
        observed.watermarks->0.catalog_revision,
        row.before_catalog_revision,
        row.after_catalog_revision,
    )
}

/// How the counters stand to a journal.
pub open spec fn watermark_states(
    journal: RepairJournalView,
    observed: ObservedRowsView,
) -> Seq<NamedStateView> {
    if journal.catalog_watermarks is Some {
        seq![
            NamedStateView {
                name: "catalog:observation-sequence"@,
                state: sequence_state(journal, observed),
            },
            NamedStateView {
                name: "catalog:revision"@,
                state: revision_state(journal, observed),
            },
        ]
    } else {
        Seq::empty()
    }
}

/// How a workspace hint stands to its journal row.
pub open spec fn hint_state(
    row: RepairWorkspaceJournalView,
    hints: Map<Seq<char>, JsonView>,
) -> JournalImageState {
    journal::slot_state(
        journal::slot_of(sessions::lookup(hints, row.thread_id)),
        row.before,
        row.after,
    )
}

/// How the workspace hints stand to a journal.
pub open spec fn hint_states(
    journal: RepairJournalView,
    observed: ObservedRowsView,
) -> Seq<NamedStateView> {
    Seq::new(
        journal.workspace_hints.len(),
        |i: int|
            NamedStateView {
                name: "workspace:"@ + journal.workspace_hints[i].thread_id,
                state: hint_state(journal.workspace_hints[i], observed.workspace_hints),
            },
    )
}

/// How the store of projections stands to a journal.
pub open spec fn projection_state(
    journal: RepairJournalView,
    observed: ObservedRowsView,
) -> JournalImageState {
    journal::image_state(
        observed.projection,
        journal.projection_before,
        Some(journal.projection_after),
    )
}

/// How everything that a repair wrote stands to its journal.
pub open spec fn all_states(
    journal: RepairJournalView,
    observed: ObservedRowsView,
) -> Seq<NamedStateView> {
    state_states(journal, observed) + rollout_states(journal, observed) + catalog_states(
        journal,
        observed,
    ) + watermark_states(journal, observed) + hint_states(journal, observed) + seq![
        NamedStateView {
            name: "projection-state"@,
            state: projection_state(journal, observed),
        },
    ]
}

fn push_state(out: &mut Vec<NamedState>, name: String, state: JournalImageState)
    ensures
        final(out).deep_view() == old(out).deep_view().push(NamedStateView { name: name@, state }),
{
    let ghost before = out.deep_view();
    let ghost shown = name@;
    out.push(NamedState { name, state });
    assert(out.deep_view() =~= before.push(NamedStateView { name: shown, state }));
}

/// Compares everything that a repair wrote with its journal.
pub fn observe_states(journal: &RepairJournal, observed: &ObservedRows) -> (r: Vec<NamedState>)
    requires
        fits(observed.deep_view(), journal.deep_view()),
    ensures
        r.deep_view() == all_states(journal.deep_view(), observed.deep_view()),
{
    let ghost rows = journal.deep_view();
    let ghost now = observed.deep_view();
    let mut out: Vec<NamedState> = Vec::new();
    let mut i: usize = 0;
    assert(out.deep_view() =~= state_states(rows, now).take(0));
    while i < journal.state_rows.len()
        invariant
            i <= journal.state_rows@.len(),
            rows == journal.deep_view(),
            now == observed.deep_view(),
            fits(now, rows),
            out.deep_view() == state_states(rows, now).take(i as int),
        decreases journal.state_rows@.len() - i,
    {
        let row = &journal.state_rows[i];
        assert(rows.state_rows[i as int] == row.deep_view());
        assert(now.state_images[i as int] == observed.state_images@[i as int].deep_view());
        assert(now.state_providers[i as int] == observed.state_providers@[i as int].deep_view());
        let state = find_state_row_state(
            row,
            &observed.state_images[i],
            &observed.state_providers[i],
        );
        push_state(&mut out, join2("state:", row.thread_id.as_str()), state);
        assert(out.deep_view() =~= state_states(rows, now).take(i + 1));
        i += 1;
    }
    let ghost part1 = state_states(rows, now);
    assert(out.deep_view() =~= part1);
    assert(out.deep_view() =~= part1 + rollout_states(rows, now).take(0));
    let mut k: usize = 0;
    while k < journal.rollout_rows.len()
        invariant
            k <= journal.rollout_rows@.len(),
            rows == journal.deep_view(),
            now == observed.deep_view(),
            fits(now, rows),
            out.deep_view() == part1 + rollout_states(rows, now).take(k as int),
        decreases journal.rollout_rows@.len() - k,
    {
        let row = &journal.rollout_rows[k];
        assert(rows.rollout_rows[k as int] == row.deep_view());
        assert(now.rollout_providers[k as int] == observed.rollout_providers@[k as int].deep_view());
        let state = rollout_journal_state(row, &observed.rollout_providers[k]);
        push_state(&mut out, join2("rollout:", row.thread_id.as_str()), state);
        assert(out.deep_view() =~= part1 + rollout_states(rows, now).take(k + 1));
        k += 1;
    }
    let ghost part2 = part1 + rollout_states(rows, now);
    assert(out.deep_view() =~= part2);
    assert(out.deep_view() =~= part2 + catalog_states(rows, now).take(0));
    let mut m: usize = 0;
    while m < journal.catalog_rows.len()
        invariant
            m <= journal.catalog_rows@.len(),
            rows == journal.deep_view(),
            now == observed.deep_view(),
            fits(now, rows),
            out.deep_view() == part2 + catalog_states(rows, now).take(m as int),
        decreases journal.catalog_rows@.len() - m,
    {
        let row = &journal.catalog_rows[m];
        assert(rows.catalog_rows[m as int] == row.deep_view());
        assert(now.catalog_images[m as int] == observed.catalog_images@[m as int].deep_view());
        let state = catalog_journal_image_state(
            &observed.catalog_images[m],
            &row.before,
            &row.after,
        );
        let name = join4("catalog:", row.host_id.as_str(), ":", row.thread_id.as_str());
        push_state(&mut out, name, state);
        assert(out.deep_view() =~= part2 + catalog_states(rows, now).take(m + 1));
        m += 1;
    }
    let ghost part3 = part2 + catalog_states(rows, now);
    assert(out.deep_view() =~= part3);
    match (&journal.catalog_watermarks, &observed.watermarks) {
        (Some(row), Some(current)) => {
            let state = watermark_journal_image_state(
                current.observation_sequence,
                row.before_observation_sequence,
                row.after_observation_sequence,
            );
            push_state(&mut out, "catalog:observation-sequence".to_owned(), state);
            let state = watermark_journal_image_state(
                current.catalog_revision,
                row.before_catalog_revision,
                row.after_catalog_revision,
            );
            push_state(&mut out, "catalog:revision".to_owned(), state);
        },
        _ => {},
    }
    let ghost part4 = part3 + watermark_states(rows, now);
    assert(out.deep_view() =~= part4);
    assert(out.deep_view() =~= part4 + hint_states(rows, now).take(0));
    let mut n: usize = 0;
    while n < journal.workspace_hints.len()
        invariant
            n <= journal.workspace_hints@.len(),
            rows == journal.deep_view(),
            now == observed.deep_view(),
            out.deep_view() == part4 + hint_states(rows, now).take(n as int),
        decreases journal.workspace_hints@.len() - n,
    {
        let row = &journal.workspace_hints[n];
        assert(rows.workspace_hints[n as int] == row.deep_view());
        let current: Option<Json> = match observed.workspace_hints.get(&row.thread_id) {
            Some(value) => Some(value.copy_of()),
            None => None,
        };
        let slot = RepairJsonSlot::from_option(current);
        let state = slot_journal_state(&slot, &row.before, &row.after);
        push_state(&mut out, join2("workspace:", row.thread_id.as_str()), state);
        assert(out.deep_view() =~= part4 + hint_states(rows, now).take(n + 1));
        n += 1;
    }
    let ghost part5 = part4 + hint_states(rows, now);
    assert(out.deep_view() =~= part5);
    let written: Option<ProjectionStore> = Some(journal.projection_after.copy_of());
    let state = journal_image_state(&observed.projection, &journal.projection_before, &written);
    push_state(&mut out, "projection-state".to_owned(), state);
    assert(out.deep_view() =~= all_states(rows, now));
    out
}

/// Everything reads as the repair found it.
pub open spec fn all_before(states: Seq<NamedStateView>) -> bool {
    forall|i: int| 0 <= i < states.len() ==> journal::is_before((#[trigger] states[i]).state)
}

/// Everything reads as the repair wrote it.
pub open spec fn all_after(states: Seq<NamedStateView>) -> bool {
    forall|i: int| 0 <= i < states.len() ==> journal::is_after((#[trigger] states[i]).state)
}

/// The names of what is in conflict, in order.
pub open spec fn conflict_names(states: Seq<NamedStateView>) -> Seq<Seq<char>>
    decreases states.len(),
{
    if states.len() == 0 {
        Seq::empty()
    } else {
        let rest = conflict_names(states.drop_last());
        if states.last().state == JournalImageState::Conflict {
            rest.push(states.last().name)
        } else {
            rest
        }
    }
}

fn check_states(states: &Vec<NamedState>) -> (r: (bool, bool, Vec<String>))
    ensures
        r.0 == all_before(states.deep_view()),
        r.1 == all_after(states.deep_view()),
        r.2.deep_view() == conflict_names(states.deep_view()),
{
    let ghost view = states.deep_view();
    let mut before = true;
    let mut after = true;
    let mut conflicts: Vec<String> = Vec::new();
    let mut i: usize = 0;
    assert(conflicts.deep_view() =~= conflict_names(view.take(0)));
    while i < states.len()
        invariant
            i <= states@.len(),
            view == states.deep_view(),
            before == forall|j: int| 0 <= j < i ==> journal::is_before((#[trigger] view[j]).state),
            after == forall|j: int| 0 <= j < i ==> journal::is_after((#[trigger] view[j]).state),
            conflicts.deep_view() == conflict_names(view.take(i as int)),
        decreases states@.len() - i,
    {
        let entry = &states[i];
        let ghost so_far = conflicts.deep_view();
        assert(view[i as int] == entry.deep_view());
        assert(view.take(i + 1).drop_last() =~= view.take(i as int));
        before = before && state_is_before(entry.state);
        after = after && state_is_after(entry.state);
        if entry.state == JournalImageState::Conflict {
            conflicts.push(entry.name.copy_of());
            assert(conflicts.deep_view() =~= so_far.push(entry.name@));
        }
        i += 1;
    }
    assert(view.take(i as int) =~= view);
    (before, after, conflicts)
}

/// The writes that put state rows back: those that read as the repair wrote them.
pub open spec fn state_actions(
    rows: Seq<RepairStateJournalView>,
    images: Seq<Option<RepairStateImageView>>,
    providers: Seq<Option<Seq<char>>>,
    n: nat,
) -> Seq<RecoveryActionView>
    decreases n,
{
    if n == 0 {
        Seq::empty()
    } else {
        let i = n - 1;
        let rest = state_actions(rows, images, providers, i as nat);
        let row = rows[i];
        if state_row_state(row, images[i], providers[i]) != JournalImageState::After {
            rest
        } else {
            rest.push(
                match row.row_images {
                    Some(both) => RecoveryActionView::State {
                        thread_id: row.thread_id,
                        before: both.before,
                        after: both.after,
                    },
                    None => RecoveryActionView::StateProvider {
                        thread_id: row.thread_id,
                        provider_before: row.before_provider,
                        provider_after: row.after_provider,
                    },
                },
            )
        }
    }
}

/// The writes that put rollouts back: those that read as the repair wrote them.
pub open spec fn rollout_actions(
    rows: Seq<RepairRolloutJournalView>,
    providers: Seq<Option<Seq<char>>>,
    n: nat,
) -> Seq<RecoveryActionView>
    decreases n,
{
    if n == 0 {
        Seq::empty()
    } else {
        let i = n - 1;
        let rest = rollout_actions(rows, providers, i as nat);
        if rollout_row_state(rows[i], providers[i]) == JournalImageState::After {
            rest.push(RecoveryActionView::Rollout(rows[i]))
        } else {
            rest
        }
    }
}

/// The writes that put catalog rows back: those that hold what the repair wrote.
pub open spec fn catalog_actions(
    rows: Seq<RepairCatalogJournalView>,
    images: Seq<Option<RepairCatalogImageView>>,
    n: nat,
) -> Seq<RecoveryActionView>
    decreases n,
{
    if n == 0 {
        Seq::empty()
    } else {
        let i = n - 1;
        let rest = catalog_actions(rows, images, i as nat);
        if journal::is_after(catalog_row_state(rows[i], images[i])) && (rows[i].before is Some
            || rows[i].after is Some) {
            rest.push(RecoveryActionView::Catalog(rows[i]))
        } else {
            rest
        }
    }
}

/// The writes that put the counters back.
pub open spec fn watermark_actions(
    journal: RepairJournalView,
    observed: ObservedRowsView,
) -> Seq<RecoveryActionView> {
    if journal.catalog_watermarks is None {
        Seq::empty()
    } else {
        let row = journal.catalog_watermarks->0;
        let first = if sequence_state(journal, observed) == JournalImageState::After {
            Seq::empty().push(
                RecoveryActionView::ObservationSequence {
                    sequence_before: row.before_observation_sequence,
                    sequence_after: row.after_observation_sequence,
                },
            )
        } else {
            Seq::empty()
        };
        if revision_state(journal, observed) == JournalImageState::After {
            first.push(
                RecoveryActionView::CatalogRevision {
                    revision_before: row.before_catalog_revision,
                    revision_after: row.after_catalog_revision,
                },
            )
        } else {
            first
        }
    }
}

/// The write that puts the store of projections back.
pub open spec fn projection_actions(
    journal: RepairJournalView,
    observed: ObservedRowsView,
) -> Seq<RecoveryActionView> {
    if projection_state(journal, observed) == JournalImageState::After {
        Seq::empty().push(RecoveryActionView::Projection(journal.projection_before))
    } else {
        Seq::empty()
    }
}

/// The writes that undo a repair, in their order.
pub open spec fn undo_actions(
    journal: RepairJournalView,
    observed: ObservedRowsView,
) -> Seq<RecoveryActionView> {
    state_actions(
        journal.state_rows,
        observed.state_images,
        observed.state_providers,
        journal.state_rows.len(),
    ) + rollout_actions(
        journal.rollout_rows,
        observed.rollout_providers,
        journal.rollout_rows.len(),
    ) + catalog_actions(
        journal.catalog_rows,
        observed.catalog_images,
        journal.catalog_rows.len(),
    ) + watermark_actions(journal, observed) + projection_actions(journal, observed)
}

/// What is done about an interrupted repair.
pub open spec fn recovery_plan(
    journal: RepairJournalView,
    phase: Option<RepairPhase>,
    intent: PendingRecoveryIntent,
    observed: ObservedRowsView,
) -> RecoveryPlanView {
    let states = all_states(journal, observed);
    let compensating = phase == Some(RepairPhase::Compensating) || intent
        == PendingRecoveryIntent::Rollback;
    if all_before(states) {
        RecoveryPlanView::ClearJournal
    } else if all_after(states) && !compensating {
        RecoveryPlanView::FinalizeJournal
    } else {
        RecoveryPlanView::Compensate {
            mark: phase != Some(RepairPhase::Compensating),
            actions: undo_actions(journal, observed),
            conflicts: conflict_names(states),
        }
    }
}

fn push_action(out: &mut Vec<RecoveryAction>, action: RecoveryAction)
    ensures
        final(out).deep_view() == old(out).deep_view().push(action.deep_view()),
{
    let ghost before = out.deep_view();
    let ghost added = action.deep_view();
    out.push(action);
    assert(out.deep_view() =~= before.push(added));
}

fn collect_undo_actions(journal: &RepairJournal, observed: &ObservedRows) -> (r: Vec<
    RecoveryAction,
>)
    requires
        fits(observed.deep_view(), journal.deep_view()),
    ensures
        r.deep_view() == undo_actions(journal.deep_view(), observed.deep_view()),
{
    let ghost rows = journal.deep_view();
    let ghost now = observed.deep_view();
    let mut out: Vec<RecoveryAction> = Vec::new();
    let mut i: usize = 0;
    assert(out.deep_view() =~= state_actions(
        rows.state_rows,
        now.state_images,
        now.state_providers,
        0,
    ));
    while i < journal.state_rows.len()
        invariant
            i <= journal.state_rows@.len(),
            rows == journal.deep_view(),
            now == observed.deep_view(),
            fits(now, rows),
            out.deep_view() == state_actions(
                rows.state_rows,
                now.state_images,
                now.state_providers,
                i as nat,
            ),
        decreases journal.state_rows@.len() - i,
    {
        let row = &journal.state_rows[i];
        assert(rows.state_rows[i as int] == row.deep_view());
        assert(now.state_images[i as int] == observed.state_images@[i as int].deep_view());
        assert(now.state_providers[i as int] == observed.state_providers@[i as int].deep_view());
        let state = find_state_row_state(
            row,
            &observed.state_images[i],
            &observed.state_providers[i],
        );
        if state == JournalImageState::After {
            let action = match &row.row_images {
                Some(both) => RecoveryAction::State {
                    thread_id: row.thread_id.copy_of(),
                    before: both.before.copy_of(),
                    after: both.after.copy_of(),
                },
                None => RecoveryAction::StateProvider {
                    thread_id: row.thread_id.copy_of(),
                    provider_before: row.before_provider.copy_of(),
                    provider_after: row.after_provider.copy_of(),
                },
            };
            push_action(&mut out, action);
        }
        i += 1;
    }
    let ghost part1 = out.deep_view();
    assert(part1 + rollout_actions(rows.rollout_rows, now.rollout_providers, 0) =~= part1);
    let mut k: usize = 0;
    while k < journal.rollout_rows.len()
        invariant
            k <= journal.rollout_rows@.len(),
            rows == journal.deep_view(),
            now == observed.deep_view(),
            fits(now, rows),
            out.deep_view() == part1 + rollout_actions(
                rows.rollout_rows,
                now.rollout_providers,
                k as nat,
            ),
        decreases journal.rollout_rows@.len() - k,
    {
        let row = &journal.rollout_rows[k];
        assert(rows.rollout_rows[k as int] == row.deep_view());
        assert(now.rollout_providers[k as int] == observed.rollout_providers@[k as int].deep_view());
        let state = rollout_journal_state(row, &observed.rollout_providers[k]);
        if state == JournalImageState::After {
            push_action(&mut out, RecoveryAction::Rollout(row.copy_of()));
        }
        assert(out.deep_view() =~= part1 + rollout_actions(
            rows.rollout_rows,
            now.rollout_providers,
            (k + 1) as nat,
        ));
        k += 1;
    }
    let ghost part2 = out.deep_view();
    assert(part2 + catalog_actions(rows.catalog_rows, now.catalog_images, 0) =~= part2);
    let mut m: usize = 0;
    while m < journal.catalog_rows.len()
        invariant
            m <= journal.catalog_rows@.len(),
            rows == journal.deep_view(),
            now == observed.deep_view(),
            fits(now, rows),
            out.deep_view() == part2 + catalog_actions(
                rows.catalog_rows,
                now.catalog_images,
                m as nat,
            ),
        decreases journal.catalog_rows@.len() - m,
    {
        let row = &journal.catalog_rows[m];
        assert(rows.catalog_rows[m as int] == row.deep_view());
        assert(now.catalog_images[m as int] == observed.catalog_images@[m as int].deep_view());
        let state = catalog_journal_image_state(
            &observed.catalog_images[m],
            &row.before,
            &row.after,
        );
        if state_is_after(state) && (row.before.is_some() || row.after.is_some()) {
            push_action(&mut out, RecoveryAction::Catalog(row.copy_of()));
        }
        assert(out.deep_view() =~= part2 + catalog_actions(
            rows.catalog_rows,
            now.catalog_images,
            (m + 1) as nat,
        ));
        m += 1;
    }
    let ghost part3 = out.deep_view();
    match (&journal.catalog_watermarks, &observed.watermarks) {
        (Some(row), Some(current)) => {
            let sequence = watermark_journal_image_state(
                current.observation_sequence,
                row.before_observation_sequence,
                row.after_observation_sequence,
            );
            if sequence == JournalImageState::After {
                push_action(
                    &mut out,
                    RecoveryAction::ObservationSequence {
                        sequence_before: row.before_observation_sequence,
                        sequence_after: row.after_observation_sequence,
                    },
                );
            }
            let revision = watermark_journal_image_state(
                current.catalog_revision,
                row.before_catalog_revision,
                row.after_catalog_revision,
            );
            if revision == JournalImageState::After {
                push_action(
                    &mut out,
                    RecoveryAction::CatalogRevision {
                        revision_before: row.before_catalog_revision,
                        revision_after: row.after_catalog_revision,
                    },
                );
            }
        },
        _ => {},
    }
    assert(out.deep_view() =~= part3 + watermark_actions(rows, now));
    let ghost part4 = out.deep_view();
    let written: Option<ProjectionStore> = Some(journal.projection_after.copy_of());
    let state = journal_image_state(&observed.projection, &journal.projection_before, &written);
    if state == JournalImageState::After {
        push_action(&mut out, RecoveryAction::Projection(journal.projection_before.copy_of()));
    }
    assert(out.deep_view() =~= part4 + projection_actions(rows, now));
    assert(out.deep_view() =~= undo_actions(rows, now));
    out
}

/// Decides what is done about an interrupted repair, given what stands in its rows now: its
/// journal is cleared where nothing or all of it is there; otherwise what it wrote is put back, and
/// what changed since is left as it is and reported. `mark` says that the journal is to be marked
/// as being undone first.
pub fn recover_pending_repair(
    journal: &RepairJournal,
    phase: Option<RepairPhase>,
    intent: PendingRecoveryIntent,
    observed: &ObservedRows,
) -> (r: RecoveryPlan)
    requires
        fits(observed.deep_view(), journal.deep_view()),
    ensures
        r.deep_view() == recovery_plan(
            journal.deep_view(),
            phase,
            intent,
            observed.deep_view(),
        ),
{
    let states = observe_states(journal, observed);
    let (before, after, conflicts) = check_states(&states);
    let marked = match phase {
        Some(RepairPhase::Compensating) => true,
        _ => false,
    };
    if before {
        RecoveryPlan::ClearJournal
    } else if after && !marked && intent == PendingRecoveryIntent::Resume {
        RecoveryPlan::FinalizeJournal
    } else {
        RecoveryPlan::Compensate {
            mark: !marked,
            actions: collect_undo_actions(journal, observed),
            conflicts,
        }
    }
}

/// Texts with a separator between them.
pub open spec fn joined(texts: Seq<Seq<char>>, separator: Seq<char>) -> Seq<char>
    decreases texts.len(),
{
    if texts.len() == 0 {
        Seq::empty()
    } else if texts.len() == 1 {
        texts[0]
    } else {
        joined(texts.drop_last(), separator) + separator + texts.last()
    }
}

/// Joins texts with a separator between them.
pub fn join_all(texts: &Vec<String>, separator: &str) -> (r: String)
    ensures
        r@ == joined(texts.deep_view(), separator@),
{
    let ghost view = texts.deep_view();
    let mut out = String::new();
    let mut i: usize = 0;
    assert(out@ =~= joined(view.take(0), separator@));
    while i < texts.len()
        invariant
            i <= texts@.len(),
            view == texts.deep_view(),
            out@ == joined(view.take(i as int), separator@),
        decreases texts@.len() - i,
    {
        assert(view[i as int] == texts@[i as int]@);
        assert(view.take(i + 1).drop_last() =~= view.take(i as int));
        if i == 0 {
            out = texts[i].copy_of();
        } else {
            out = crate::text::join3(out.as_str(), separator, texts[i].as_str());
        }
        i += 1;
    }
    assert(view.take(i as int) =~= view);
    out
}

/// What is reported once a repair was undone.
pub open spec fn undo_report(conflicts: Seq<Seq<char>>) -> Result<
    PendingRepairResolution,
    Seq<char>,
> {
    if conflicts.len() == 0 {
        Ok(PendingRepairResolution::Compensated)
    } else {
        Err(
            "online repair recovery reverted unchanged after-images and preserved externally changed values: "@
                + joined(conflicts, ", "@),
        )
    }
}

/// Reports that a repair was undone; what was in conflict makes it an error, and the journal stays.
pub fn report_undo(conflicts: &Vec<String>) -> (r: Result<PendingRepairResolution, String>)
    ensures
        model::outcome(r) == undo_report(conflicts.deep_view()),
{
    if conflicts.len() == 0 {
        Ok(PendingRepairResolution::Compensated)
    } else {
        let names = join_all(conflicts, ", ");
        Err(
            join2(
                "online repair recovery reverted unchanged after-images and preserved externally changed values: ",
                names.as_str(),
            ),
        )
    }
}

/// The message for a repair that failed and was settled.
pub open spec fn failure_report(
    cause: Seq<char>,
    settled: Result<PendingRepairResolution, Seq<char>>,
    backup_path: Seq<char>,
) -> (Seq<char>, bool) {
    match settled {
        Ok(PendingRepairResolution::BeforeCommitCleared) | Ok(
            PendingRepairResolution::Compensated,
        ) => (cause + "; all partial changes were reverted"@, true),
        Ok(PendingRepairResolution::CommittedFinalized) => (
            cause
                + "; the SQLite commit was durable and the prepared journal was finalized. The repair snapshot remains at "@
                + backup_path,
            false,
        ),
        Ok(PendingRepairResolution::VerificationFailed) => (
            cause
                + "; verification had already failed, so the journal and snapshot remain at "@
                + backup_path,
            false,
        ),
        Err(message) => (
            cause + "; online journal recovery could not finish: "@ + message
                + ". The journal and snapshot remain at "@ + backup_path,
            false,
        ),
    }
}

/// The message for a repair that failed and was settled, and whether its backup is to be discarded:
/// only a repair of which nothing is left needs no backup.
pub fn finish_failed_online_repair(
    cause: &str,
    settled: &Result<PendingRepairResolution, String>,
    backup_path: &str,
) -> (r: (String, bool))
    ensures
        (r.0@, r.1) == failure_report(cause@, model::outcome(*settled), backup_path@),
{
    match settled {
        Ok(PendingRepairResolution::BeforeCommitCleared) | Ok(
            PendingRepairResolution::Compensated,
        ) => (join2(cause, "; all partial changes were reverted"), true),
        Ok(PendingRepairResolution::CommittedFinalized) => (
            crate::text::join3(
                cause,
                "; the SQLite commit was durable and the prepared journal was finalized. The repair snapshot remains at ",
                backup_path,
            ),
            false,
        ),
        Ok(PendingRepairResolution::VerificationFailed) => (
            crate::text::join3(
                cause,
                "; verification had already failed, so the journal and snapshot remain at ",
                backup_path,
            ),
            false,
        ),
        Err(message) => (
            crate::text::join5(
                cause,
                "; online journal recovery could not finish: ",
                message.as_str(),
                ". The journal and snapshot remain at ",
                backup_path,
            ),
            false,
        ),
    }
}

/// The message once an unused backup was to be discarded.
pub open spec fn discard_report(
    reason: Seq<char>,
    failure: Option<Seq<char>>,
    backup_path: Seq<char>,
) -> Seq<char> {
    match failure {
        None => reason,
        Some(error) => reason + "; failed to discard the unused repair snapshot "@ + backup_path
            + ": "@ + error,
    }
}

/// The message once the backup of an aborted repair was to be discarded.
pub fn discard_aborted_repair_backup(
    reason: &str,
    failure: &Option<String>,
    backup_path: &str,
) -> (r: String)
    ensures
        r@ == discard_report(reason@, failure.deep_view(), backup_path@),
{
    match failure {
        None => reason.to_owned(),
        Some(error) => crate::text::join5(
            reason,
            "; failed to discard the unused repair snapshot ",
            backup_path,
            ": ",
            error.as_str(),
        ),
    }
}

/// An action writes a state row, a rollout, a catalog row, a counter or the store only where what
/// the repair wrote is still there.
pub open spec fn justified(
    action: RecoveryActionView,
    journal: RepairJournalView,
    observed: ObservedRowsView,
) -> bool {
    match action {
        RecoveryActionView::State { thread_id, before, after } => exists|i: int|
            0 <= i < journal.state_rows.len() && (#[trigger] journal.state_rows[i]).thread_id
                == thread_id && journal.state_rows[i].row_images is Some
                && journal.state_rows[i].row_images->0.before == before
                && observed.state_images[i] == after,
        RecoveryActionView::StateProvider { thread_id, provider_before, provider_after } => exists|i: int|
            0 <= i < journal.state_rows.len() && (#[trigger] journal.state_rows[i]).thread_id
                == thread_id && journal.state_rows[i].before_provider
                == provider_before && observed.state_providers[i] == Some(provider_after),
        RecoveryActionView::Rollout(row) => exists|i: int|
            0 <= i < journal.rollout_rows.len() && #[trigger] journal.rollout_rows[i] == row
                && observed.rollout_providers[i] == row.after_provider,
        RecoveryActionView::Catalog(row) => exists|i: int|
            0 <= i < journal.catalog_rows.len() && #[trigger] journal.catalog_rows[i] == row
                && journal::is_after(catalog_row_state(row, observed.catalog_images[i])),
        RecoveryActionView::ObservationSequence { sequence_after, .. } =>
            observed.watermarks->0.observation_sequence == sequence_after,
        RecoveryActionView::CatalogRevision { revision_after, .. } =>
            observed.watermarks->0.catalog_revision == revision_after,
        RecoveryActionView::Projection(before) => before == journal.projection_before
            && observed.projection == Some(journal.projection_after),
    }
}

proof fn lemma_state_actions(
    journal: RepairJournalView,
    observed: ObservedRowsView,
    n: nat,
    k: int,
)
    requires
        n <= journal.state_rows.len(),
        0 <= k < state_actions(
            journal.state_rows,
            observed.state_images,
            observed.state_providers,
            n,
        ).len(),
    ensures
        justified(
            state_actions(
                journal.state_rows,
                observed.state_images,
                observed.state_providers,
                n,
            )[k],
            journal,
            observed,
        ),
    decreases n,
{
    let all = state_actions(
        journal.state_rows,
        observed.state_images,
        observed.state_providers,
        n,
    );
    let rest = state_actions(
        journal.state_rows,
        observed.state_images,
        observed.state_providers,
        (n - 1) as nat,
    );
    if k < rest.len() {
        lemma_state_actions(journal, observed, (n - 1) as nat, k);
        assert(all[k] == rest[k]);
    } else {
        assert(journal.state_rows[n - 1] == journal.state_rows[n - 1]);
    }
}

proof fn lemma_rollout_actions(
    journal: RepairJournalView,
    observed: ObservedRowsView,
    n: nat,
    k: int,
)
    requires
        n <= journal.rollout_rows.len(),
        0 <= k < rollout_actions(journal.rollout_rows, observed.rollout_providers, n).len(),
    ensures
        justified(
            rollout_actions(journal.rollout_rows, observed.rollout_providers, n)[k],
            journal,
            observed,
        ),
    decreases n,
{
    let rest = rollout_actions(
        journal.rollout_rows,
        observed.rollout_providers,
        (n - 1) as nat,
    );
    if k < rest.len() {
        lemma_rollout_actions(journal, observed, (n - 1) as nat, k);
    } else {
        assert(journal.rollout_rows[n - 1] == journal.rollout_rows[n - 1]);
    }
}

proof fn lemma_catalog_actions(
    journal: RepairJournalView,
    observed: ObservedRowsView,
    n: nat,
    k: int,
)
    requires
        n <= journal.catalog_rows.len(),
        0 <= k < catalog_actions(journal.catalog_rows, observed.catalog_images, n).len(),
    ensures
        justified(
            catalog_actions(journal.catalog_rows, observed.catalog_images, n)[k],
            journal,
            observed,
        ),
    decreases n,
{
    let rest = catalog_actions(journal.catalog_rows, observed.catalog_images, (n - 1) as nat);
    if k < rest.len() {
        lemma_catalog_actions(journal, observed, (n - 1) as nat, k);
    } else {
        assert(journal.catalog_rows[n - 1] == journal.catalog_rows[n - 1]);
    }
}

/// Undoing a repair only writes where what the repair wrote is still there, and writes what the
/// repair found: a value that someone else changed since is never overwritten.
pub proof fn law_recovery_spares_changed_values(
    journal: RepairJournalView,
    observed: ObservedRowsView,
    k: int,
)
    requires
        fits(observed, journal),
        0 <= k < undo_actions(journal, observed).len(),
    ensures
        justified(undo_actions(journal, observed)[k], journal, observed),
{
    let a = state_actions(
        journal.state_rows,
        observed.state_images,
        observed.state_providers,
        journal.state_rows.len(),
    );
    let b = rollout_actions(
        journal.rollout_rows,
        observed.rollout_providers,
        journal.rollout_rows.len(),
    );
    let c = catalog_actions(
        journal.catalog_rows,
        observed.catalog_images,
        journal.catalog_rows.len(),
    );
    if k < a.len() {
        lemma_state_actions(journal, observed, journal.state_rows.len(), k);
    } else if k < a.len() + b.len() {
        lemma_rollout_actions(journal, observed, journal.rollout_rows.len(), k - a.len());
    } else if k < a.len() + b.len() + c.len() {
        lemma_catalog_actions(
            journal,
            observed,
            journal.catalog_rows.len(),
            k - a.len() - b.len(),
        );
    }
}

/// An interrupted repair of which nothing is there is settled without a write, whatever is wanted
/// of it; one of which all is there is settled without a write unless it is to be undone.
pub proof fn law_recovery_writes_only_when_needed(
    journal: RepairJournalView,
    phase: Option<RepairPhase>,
    intent: PendingRecoveryIntent,
    observed: ObservedRowsView,
)
    ensures
        all_before(all_states(journal, observed)) ==> recovery_plan(
            journal,
            phase,
            intent,
            observed,
        ) is ClearJournal,
        all_after(all_states(journal, observed)) && !all_before(all_states(journal, observed))
            && phase != Some(RepairPhase::Compensating) && intent == PendingRecoveryIntent::Resume
            ==> recovery_plan(journal, phase, intent, observed) is FinalizeJournal,
{
}

/// A repair that failed its verification is kept as it is until it is to be undone.
pub proof fn law_failed_verification_is_kept(pending: PendingOperationView)
    requires
        pending.repair_journal is Some,
        2 <= pending.repair_journal->0.version <= 5,
        pending.phase == Some(RepairPhase::VerificationFailed),
    ensures
        recovery_gate(pending, PendingRecoveryIntent::Resume) == Ok::<RecoveryGate, Seq<char>>(
            RecoveryGate::KeepFailed,
        ),
        recovery_gate(pending, PendingRecoveryIntent::Rollback) == Ok::<RecoveryGate, Seq<char>>(
            RecoveryGate::Proceed,
        ),
{
}

/// A repair counts as undone only where nothing was in conflict.
pub proof fn law_undone_without_conflicts(conflicts: Seq<Seq<char>>)
    ensures
        undo_report(conflicts) is Ok <==> conflicts.len() == 0,
{
}

proof fn lemma_state_actions_complete(
    rows: Seq<RepairStateJournalView>,
    images: Seq<Option<RepairStateImageView>>,
    providers: Seq<Option<Seq<char>>>,
    n: nat,
    i: int,
)
    requires
        0 <= i < n,
    ensures
        match rows[i].row_images {
            Some(both) => images[i] == both.after && images[i] != both.before ==> state_actions(
                rows,
                images,
                providers,
                n,
            ).contains(
                RecoveryActionView::State {
                    thread_id: rows[i].thread_id,
                    before: both.before,
                    after: both.after,
                },
            ),
            None => providers[i] == Some(rows[i].after_provider) && rows[i].after_provider
                != rows[i].before_provider ==> state_actions(rows, images, providers, n).contains(
                RecoveryActionView::StateProvider {
                    thread_id: rows[i].thread_id,
                    provider_before: rows[i].before_provider,
                    provider_after: rows[i].after_provider,
                },
            ),
        },
    decreases n,
{
    let rest = state_actions(rows, images, providers, (n - 1) as nat);
    let all = state_actions(rows, images, providers, n);
    if i < n - 1 {
        lemma_state_actions_complete(rows, images, providers, (n - 1) as nat, i);
        lemma_kept_at_the_end(rest, all);
    } else if all.len() > rest.len() {
        assert(all[all.len() - 1] == all.last());
    }
}

proof fn lemma_kept_at_the_end<X>(rest: Seq<X>, all: Seq<X>)
    requires
        rest.len() <= all.len(),
        all.take(rest.len() as int) =~= rest,
    ensures
        forall|x: X| #[trigger] rest.contains(x) ==> all.contains(x),
{
    assert forall|x: X| #[trigger] rest.contains(x) implies all.contains(x) by {
        let k = choose|k: int| 0 <= k < rest.len() && rest[k] == x;
        assert(all.take(rest.len() as int)[k] == all[k]);
    }
}

proof fn lemma_rollout_actions_complete(
    rows: Seq<RepairRolloutJournalView>,
    providers: Seq<Option<Seq<char>>>,
    n: nat,
    i: int,
)
    requires
        0 <= i < n,
        providers[i] == rows[i].after_provider,
        providers[i] != rows[i].before_provider,
    ensures
        rollout_actions(rows, providers, n).contains(RecoveryActionView::Rollout(rows[i])),
    decreases n,
{
    let rest = rollout_actions(rows, providers, (n - 1) as nat);
    let all = rollout_actions(rows, providers, n);
    if i < n - 1 {
        lemma_rollout_actions_complete(rows, providers, (n - 1) as nat, i);
        lemma_kept_at_the_end(rest, all);
    } else {
        assert(all[all.len() - 1] == RecoveryActionView::Rollout(rows[i]));
    }
}

proof fn lemma_catalog_actions_complete(
    rows: Seq<RepairCatalogJournalView>,
    images: Seq<Option<RepairCatalogImageView>>,
    n: nat,
    i: int,
)
    requires
        0 <= i < n,
        images[i] == rows[i].after,
        images[i] != rows[i].before,
    ensures
        catalog_actions(rows, images, n).contains(RecoveryActionView::Catalog(rows[i])),
    decreases n,
{
    let rest = catalog_actions(rows, images, (n - 1) as nat);
    let all = catalog_actions(rows, images, n);
    if i < n - 1 {
        lemma_catalog_actions_complete(rows, images, (n - 1) as nat, i);
        lemma_kept_at_the_end(rest, all);
    } else {
        assert(all[all.len() - 1] == RecoveryActionView::Catalog(rows[i]));
    }
}

proof fn lemma_part_of<X>(a: Seq<X>, b: Seq<X>)
    ensures
        forall|x: X| #[trigger] a.contains(x) ==> (a + b).contains(x),
        forall|x: X| #[trigger] b.contains(x) ==> (a + b).contains(x),
{
    assert forall|x: X| #[trigger] a.contains(x) implies (a + b).contains(x) by {
        let k = choose|k: int| 0 <= k < a.len() && a[k] == x;
        assert((a + b)[k] == x);
    }
    assert forall|x: X| #[trigger] b.contains(x) implies (a + b).contains(x) by {
        let k = choose|k: int| 0 <= k < b.len() && b[k] == x;
        assert((a + b)[a.len() + k] == x);
    }
}

/// Undoing a repair takes back everything that still reads as the repair wrote it: each state row,
/// rollout and catalog row, both counters and the store of projections, each towards what the
/// journal says that the repair found.
pub proof fn law_recovery_takes_everything_back(
    journal: RepairJournalView,
    observed: ObservedRowsView,
)
    requires
        fits(observed, journal),
    ensures
        ({
            let actions = undo_actions(journal, observed);
            &&& forall|i: int|
                0 <= i < journal.state_rows.len() ==> match (
                #[trigger] journal.state_rows[i]).row_images {
                    Some(both) => observed.state_images[i] == both.after && both.after
                        != both.before ==> actions.contains(
                        RecoveryActionView::State {
                            thread_id: journal.state_rows[i].thread_id,
                            before: both.before,
                            after: both.after,
                        },
                    ),
                    None => observed.state_providers[i] == Some(
                        journal.state_rows[i].after_provider,
                    ) && journal.state_rows[i].after_provider
                        != journal.state_rows[i].before_provider ==> actions.contains(
                        RecoveryActionView::StateProvider {
                            thread_id: journal.state_rows[i].thread_id,
                            provider_before: journal.state_rows[i].before_provider,
                            provider_after: journal.state_rows[i].after_provider,
                        },
                    ),
                }
            &&& forall|i: int|
                0 <= i < journal.rollout_rows.len() && observed.rollout_providers[i] == (
                #[trigger] journal.rollout_rows[i]).after_provider
                    && journal.rollout_rows[i].after_provider
                    != journal.rollout_rows[i].before_provider ==> actions.contains(
                    RecoveryActionView::Rollout(journal.rollout_rows[i]),
                )
            &&& forall|i: int|
                0 <= i < journal.catalog_rows.len() && observed.catalog_images[i] == (
                #[trigger] journal.catalog_rows[i]).after && journal.catalog_rows[i].after
                    != journal.catalog_rows[i].before ==> actions.contains(
                    RecoveryActionView::Catalog(journal.catalog_rows[i]),
                )
            &&& observed.projection == Some(journal.projection_after) && journal.projection_before
                != Some(journal.projection_after) ==> actions.contains(
                RecoveryActionView::Projection(journal.projection_before),
            )
            &&& journal.catalog_watermarks matches Some(marks) ==> {
                &&& observed.watermarks->0.observation_sequence == marks.after_observation_sequence
                    && marks.before_observation_sequence != marks.after_observation_sequence
                    ==> actions.contains(
                    RecoveryActionView::ObservationSequence {
                        sequence_before: marks.before_observation_sequence,
                        sequence_after: marks.after_observation_sequence,
                    },
                )
                &&& observed.watermarks->0.catalog_revision == marks.after_catalog_revision
                    && marks.before_catalog_revision != marks.after_catalog_revision
                    ==> actions.contains(
                    RecoveryActionView::CatalogRevision {
                        revision_before: marks.before_catalog_revision,
                        revision_after: marks.after_catalog_revision,
                    },
                )
            }
        }),
{
    let states = state_actions(
        journal.state_rows,
        observed.state_images,
        observed.state_providers,
        journal.state_rows.len(),
    );
    let rollouts = rollout_actions(
        journal.rollout_rows,
        observed.rollout_providers,
        journal.rollout_rows.len(),
    );
    let catalog = catalog_actions(
        journal.catalog_rows,
        observed.catalog_images,
        journal.catalog_rows.len(),
    );
    let marks = watermark_actions(journal, observed);
    let store = projection_actions(journal, observed);
    lemma_part_of(states, rollouts);
    lemma_part_of(states + rollouts, catalog);
    lemma_part_of(states + rollouts + catalog, marks);
    lemma_part_of(states + rollouts + catalog + marks, store);
    assert forall|i: int| 0 <= i < journal.state_rows.len() implies match (
    #[trigger] journal.state_rows[i]).row_images {
        Some(both) => observed.state_images[i] == both.after && both.after != both.before
            ==> states.contains(
            RecoveryActionView::State {
                thread_id: journal.state_rows[i].thread_id,
                before: both.before,
                after: both.after,
            },
        ),
        None => observed.state_providers[i] == Some(journal.state_rows[i].after_provider)
            && journal.state_rows[i].after_provider != journal.state_rows[i].before_provider
            ==> states.contains(
            RecoveryActionView::StateProvider {
                thread_id: journal.state_rows[i].thread_id,
                provider_before: journal.state_rows[i].before_provider,
                provider_after: journal.state_rows[i].after_provider,
            },
        ),
    } by {
        lemma_state_actions_complete(
            journal.state_rows,
            observed.state_images,
            observed.state_providers,
            journal.state_rows.len(),
            i,
        );
    }
    assert forall|i: int|
        0 <= i < journal.rollout_rows.len() && observed.rollout_providers[i] == (
        #[trigger] journal.rollout_rows[i]).after_provider && journal.rollout_rows[i].after_provider
            != journal.rollout_rows[i].before_provider implies rollouts.contains(
        RecoveryActionView::Rollout(journal.rollout_rows[i]),
    ) by {
        lemma_rollout_actions_complete(
            journal.rollout_rows,
            observed.rollout_providers,
            journal.rollout_rows.len(),
            i,
        );
    }
    assert forall|i: int|
        0 <= i < journal.catalog_rows.len() && observed.catalog_images[i] == (
        #[trigger] journal.catalog_rows[i]).after && journal.catalog_rows[i].after
            != journal.catalog_rows[i].before implies catalog.contains(
        RecoveryActionView::Catalog(journal.catalog_rows[i]),
    ) by {
        lemma_catalog_actions_complete(
            journal.catalog_rows,
            observed.catalog_images,
            journal.catalog_rows.len(),
            i,
        );
    }
    if store.len() > 0 {
        let step = RecoveryActionView::Projection(journal.projection_before);
        assert(store[0] == step);
        assert(store.contains(step));
    }
    if journal.catalog_watermarks is Some {
        let row = journal.catalog_watermarks->0;
        if sequence_state(journal, observed) == JournalImageState::After {
            let step = RecoveryActionView::ObservationSequence {
                sequence_before: row.before_observation_sequence,
                sequence_after: row.after_observation_sequence,
            };
            assert(marks[0] == step);
            assert(marks.contains(step));
        }
        if revision_state(journal, observed) == JournalImageState::After {
            let step = RecoveryActionView::CatalogRevision {
                revision_before: row.before_catalog_revision,
                revision_after: row.after_catalog_revision,
            };
            assert(marks[marks.len() - 1] == step);
            assert(marks.contains(step));
        }
    }
}

proof fn lemma_conflicts_named(states: Seq<NamedStateView>, i: int)
    requires
        0 <= i < states.len(),
        states[i].state == JournalImageState::Conflict,
    ensures
        conflict_names(states).contains(states[i].name),
    decreases states.len(),
{
    let front = states.drop_last();
    let rest = conflict_names(front);
    let all = conflict_names(states);
    if i < front.len() {
        assert(front[i] == states[i]);
        lemma_conflicts_named(front, i);
        lemma_kept_at_the_end(rest, all);
    } else {
        assert(all[all.len() - 1] == states[i].name);
    }
}

/// What someone else changed since a repair is named when the repair is taken back: a state row or a
/// rollout that reads neither as the repair found it nor as it wrote it. So is a store of projections
/// that is neither. Nothing is reported as undone then.
pub proof fn law_recovery_names_what_it_leaves(
    journal: RepairJournalView,
    phase: Option<RepairPhase>,
    observed: ObservedRowsView,
)
    requires
        fits(observed, journal),
    ensures
        ({
            let plan = recovery_plan(journal, phase, PendingRecoveryIntent::Rollback, observed);
            &&& forall|i: int|
                0 <= i < journal.state_rows.len() && (
                #[trigger] journal.state_rows[i]).row_images is Some && observed.state_images[i]
                    != journal.state_rows[i].row_images->0.before && observed.state_images[i]
                    != journal.state_rows[i].row_images->0.after ==> plan is Compensate
                    && plan->conflicts.contains("state:"@ + journal.state_rows[i].thread_id)
                    && undo_report(plan->conflicts) is Err
            &&& forall|i: int|
                0 <= i < journal.rollout_rows.len() && observed.rollout_providers[i] != (
                #[trigger] journal.rollout_rows[i]).before_provider
                    && observed.rollout_providers[i] != journal.rollout_rows[i].after_provider
                    ==> plan is Compensate && plan->conflicts.contains(
                    "rollout:"@ + journal.rollout_rows[i].thread_id,
                ) && undo_report(plan->conflicts) is Err
            &&& observed.projection != journal.projection_before && observed.projection != Some(
                journal.projection_after,
            ) ==> plan is Compensate && plan->conflicts.contains("projection-state"@)
                && undo_report(plan->conflicts) is Err
        }),
{
    let states = all_states(journal, observed);
    let plan = recovery_plan(journal, phase, PendingRecoveryIntent::Rollback, observed);
    let a = state_states(journal, observed);
    let b = rollout_states(journal, observed);
    assert forall|i: int|
        0 <= i < journal.state_rows.len() && (#[trigger] journal.state_rows[i]).row_images is Some
            && observed.state_images[i] != journal.state_rows[i].row_images->0.before
            && observed.state_images[i] != journal.state_rows[i].row_images->0.after implies plan is Compensate
        && plan->conflicts.contains("state:"@ + journal.state_rows[i].thread_id) && undo_report(
        plan->conflicts,
    ) is Err by {
        assert(states[i] == a[i]);
        lemma_conflicts_named(states, i);
    }
    assert forall|i: int|
        0 <= i < journal.rollout_rows.len() && observed.rollout_providers[i] != (
        #[trigger] journal.rollout_rows[i]).before_provider && observed.rollout_providers[i]
            != journal.rollout_rows[i].after_provider implies plan is Compensate
        && plan->conflicts.contains("rollout:"@ + journal.rollout_rows[i].thread_id)
        && undo_report(plan->conflicts) is Err by {
        assert(states[a.len() + i] == b[i]);
        lemma_conflicts_named(states, a.len() + i);
    }
    let last = states.len() - 1;
    assert(states[last].name == "projection-state"@);
    assert(states[last].state == projection_state(journal, observed));
    if states[last].state == JournalImageState::Conflict {
        lemma_conflicts_named(states, last);
    }
}

/// An interrupted repair is looked into exactly where it has a journal of a known version, and is
/// kept as it is only where its verification failed and it is not to be rolled back.
pub proof fn law_recovery_is_gated(
    pending: PendingOperationView,
    intent: PendingRecoveryIntent,
)
    ensures
        recovery_gate(pending, intent) is Ok <==> pending.repair_journal is Some && 2
            <= pending.repair_journal->0.version <= 5,
        recovery_gate(pending, intent) is Ok ==> (recovery_gate(pending, intent)->Ok_0
            == RecoveryGate::KeepFailed <==> pending.phase == Some(RepairPhase::VerificationFailed)
            && intent == PendingRecoveryIntent::Resume),
        recovery_gate(pending, intent) is Ok ==> (recovery_gate(pending, intent)->Ok_0
            == RecoveryGate::Proceed <==> !(pending.phase == Some(RepairPhase::VerificationFailed)
            && intent == PendingRecoveryIntent::Resume)),
{
}

/// A journal is cleared exactly where everything still reads as the repair found it; it is finalized
/// where everything reads as the repair wrote it, unless the repair is being taken back; and
/// otherwise the repair is taken back, which is marked once.
pub proof fn law_recovery_decides_by_what_is_there(
    journal: RepairJournalView,
    phase: Option<RepairPhase>,
    intent: PendingRecoveryIntent,
    observed: ObservedRowsView,
)
    ensures
        ({
            let plan = recovery_plan(journal, phase, intent, observed);
            let states = all_states(journal, observed);
            let found = forall|i: int|
                0 <= i < states.len() ==> journal::is_before((#[trigger] states[i]).state);
            let written = forall|i: int|
                0 <= i < states.len() ==> journal::is_after((#[trigger] states[i]).state);
            let back = phase == Some(RepairPhase::Compensating) || intent
                == PendingRecoveryIntent::Rollback;
            &&& plan is ClearJournal <==> found
            &&& plan is FinalizeJournal <==> !found && written && !back
            &&& plan is Compensate <==> !found && (!written || back)
            &&& plan is Compensate ==> (plan->mark <==> phase != Some(RepairPhase::Compensating))
            &&& states.len() == journal.state_rows.len() + journal.rollout_rows.len()
                + journal.catalog_rows.len() + journal.workspace_hints.len() + 1 + (if
            journal.catalog_watermarks is Some {
                2int
            } else {
                0int
            })
        }),
{
}

/// Everything that a journal speaks of stands to it as it reads: a state row by its image or else its
/// provider, a rollout by its provider, a hint by its value, the store as a whole.
pub proof fn law_states_are_told_by_what_is_read(
    row: RepairStateJournalView,
    image: Option<RepairStateImageView>,
    provider: Option<Seq<char>>,
    rollout: RepairRolloutJournalView,
    journal: RepairJournalView,
    observed: ObservedRowsView,
)
    ensures
        row.row_images is Some && row.row_images->0.before != row.row_images->0.after ==> {
            &&& journal::is_before(
                state_row_state(row, row.row_images->0.before, provider),
            )
            &&& journal::is_after(state_row_state(row, row.row_images->0.after, provider))
            &&& !journal::is_after(
                state_row_state(row, row.row_images->0.before, provider),
            )
            &&& image != row.row_images->0.before && image != row.row_images->0.after
                ==> state_row_state(row, image, provider) == JournalImageState::Conflict
        },
        row.row_images is None && row.before_provider != row.after_provider ==> {
            &&& journal::is_before(state_row_state(row, image, Some(row.before_provider)))
            &&& journal::is_after(state_row_state(row, image, Some(row.after_provider)))
            &&& state_row_state(row, image, None) == JournalImageState::Conflict
        },
        rollout.before_provider != rollout.after_provider ==> {
            &&& journal::is_before(rollout_row_state(rollout, rollout.before_provider))
            &&& journal::is_after(rollout_row_state(rollout, rollout.after_provider))
            &&& !journal::is_before(rollout_row_state(rollout, rollout.after_provider))
            &&& provider != rollout.before_provider && provider != rollout.after_provider
                ==> rollout_row_state(rollout, provider) == JournalImageState::Conflict
        },
        journal.projection_before != Some(journal.projection_after) ==> {
            &&& observed.projection == journal.projection_before ==> journal::is_before(
                projection_state(journal, observed),
            )
            &&& observed.projection == Some(journal.projection_after) ==> journal::is_after(
                projection_state(journal, observed),
            )
            &&& observed.projection != journal.projection_before && observed.projection != Some(
                journal.projection_after,
            ) ==> projection_state(journal, observed) == JournalImageState::Conflict
        },
{
}

/// A repair that was taken back succeeds exactly where nothing was in conflict; its backup is
/// discarded exactly where nothing of it is left; and a backup that could not be discarded is told of
/// with the reason for which it was to be.
pub proof fn law_settled_repairs_are_reported(
    conflicts: Seq<Seq<char>>,
    cause: Seq<char>,
    settled: Result<PendingRepairResolution, Seq<char>>,
    path: Seq<char>,
    error: Seq<char>,
)
    ensures
        undo_report(conflicts) is Ok <==> conflicts.len() == 0,
        undo_report(conflicts) is Ok ==> undo_report(conflicts)->Ok_0
            == PendingRepairResolution::Compensated,
        failure_report(cause, settled, path).1 <==> settled == Ok::<
            PendingRepairResolution,
            Seq<char>,
        >(PendingRepairResolution::BeforeCommitCleared) || settled == Ok::<
            PendingRepairResolution,
            Seq<char>,
        >(PendingRepairResolution::Compensated),
        text::has_prefix(failure_report(cause, settled, path).0, cause),
        discard_report(cause, None, path) == cause,
        text::has_prefix(discard_report(cause, Some(error), path), cause),
        text::has_suffix(discard_report(cause, Some(error), path), error),
{
    let said = failure_report(cause, settled, path).0;
    assert(said.take(cause.len() as int) =~= cause);
    let told = discard_report(cause, Some(error), path);
    assert(told.take(cause.len() as int) =~= cause);
    assert(told.skip(told.len() - error.len()) =~= error);
}

/// Texts are joined with the separator between each two and nowhere else.
pub proof fn law_joining_puts_separators_between(
    texts: Seq<Seq<char>>,
    one: Seq<char>,
    separator: Seq<char>,
)
    ensures
        joined(Seq::empty(), separator).len() == 0,
        joined(seq![one], separator) == one,
        texts.len() > 0 ==> joined(texts.push(one), separator) == joined(texts, separator)
            + separator + one,
{
    assert(texts.push(one).drop_last() =~= texts);
}

} // verus!

//! The writes of a repair: what each session needs so that the target provider can list it.

use crate::locality::{WorkspaceHintUpdate, WorkspaceHintUpdateView};
use crate::model::Model;
use crate::ordered;
use crate::ordered::{sort_items, Ordered, OrderedSet};
use crate::projection::{PlannedSessionView, ProviderPlanPreview};
use crate::providers;
use crate::providers::canonical_provider;
use crate::records;
use crate::records::{
    BackedThread, BackedThreadView, PrimaryRollout, PrimaryRolloutView, SessionCohorts, Snapshot,
    SnapshotView, ThreadRow, ThreadRowView,
};
use crate::sessions;
use crate::sessions::{
    rollout_backed_threads, session_cohorts, state_insert_from_rollout, StateInsert,
    StateInsertView,
};
use crate::text;
use crate::text::{compare, is_blank, Relation};
use vstd::prelude::*;

verus! {

/// A thread that was left alone, and why.
#[derive(Clone, Debug, PartialEq, Eq)]
pub struct SkipReason {
    pub thread_id: Option<String>,
    pub reason: String,
}

/// What a `SkipReason` stands for.
#[verifier::ext_equal]
pub struct SkipReasonView {
    pub thread_id: Option<Seq<char>>,
    pub reason: Seq<char>,
}

impl DeepView for SkipReason {
    type V = SkipReasonView;

    open spec fn deep_view(&self) -> SkipReasonView {
        SkipReasonView {
            thread_id: self.thread_id.deep_view(),
            reason: self.reason.deep_view(),
        }
    }
}

impl Model for SkipReason {
    fn copy_of(&self) -> (r: Self) {
        SkipReason {
            thread_id: self.thread_id.copy_of(),
            reason: self.reason.copy_of(),
        }
    }

    fn same_as(&self, other: &Self) -> (r: bool) {
        self.thread_id.same_as(&other.thread_id)
            && self.reason.same_as(&other.reason)
    }
}

/// A state row to rewrite: what it is expected to hold, and what it is to hold.
#[derive(Clone, Debug, PartialEq, Eq)]
pub struct StateUpdate {
    pub thread_id: String,
    pub expected_rollout_path: String,
    pub expected_provider: String,
    pub expected_archived: bool,
    pub expected_thread_source: String,
    pub expected_has_user_event: bool,
    pub rollout_path: String,
    pub provider: String,
    pub archived: bool,
    pub thread_source: String,
    pub has_user_event: bool,
}

/// What a `StateUpdate` stands for.
#[verifier::ext_equal]
pub struct StateUpdateView {
    pub thread_id: Seq<char>,
    pub expected_rollout_path: Seq<char>,
    pub expected_provider: Seq<char>,
    pub expected_archived: bool,
    pub expected_thread_source: Seq<char>,
    pub expected_has_user_event: bool,
    pub rollout_path: Seq<char>,
    pub provider: Seq<char>,
    pub archived: bool,
    pub thread_source: Seq<char>,
    pub has_user_event: bool,
}

impl DeepView for StateUpdate {
    type V = StateUpdateView;

    open spec fn deep_view(&self) -> StateUpdateView {
        StateUpdateView {
            thread_id: self.thread_id.deep_view(),
            expected_rollout_path: self.expected_rollout_path.deep_view(),
            expected_provider: self.expected_provider.deep_view(),
            expected_archived: self.expected_archived.deep_view(),
            expected_thread_source: self.expected_thread_source.deep_view(),
            expected_has_user_event: self.expected_has_user_event.deep_view(),
            rollout_path: self.rollout_path.deep_view(),
            provider: self.provider.deep_view(),
            archived: self.archived.deep_view(),
            thread_source: self.thread_source.deep_view(),
            has_user_event: self.has_user_event.deep_view(),
        }
    }
}

impl Model for StateUpdate {
    fn copy_of(&self) -> (r: Self) {
        StateUpdate {
            thread_id: self.thread_id.copy_of(),
            expected_rollout_path: self.expected_rollout_path.copy_of(),
            expected_provider: self.expected_provider.copy_of(),
            expected_archived: self.expected_archived.copy_of(),
            expected_thread_source: self.expected_thread_source.copy_of(),
            expected_has_user_event: self.expected_has_user_event.copy_of(),
            rollout_path: self.rollout_path.copy_of(),
            provider: self.provider.copy_of(),
            archived: self.archived.copy_of(),
            thread_source: self.thread_source.copy_of(),
            has_user_event: self.has_user_event.copy_of(),
        }
    }

    fn same_as(&self, other: &Self) -> (r: bool) {
        self.thread_id.same_as(&other.thread_id)
            && self.expected_rollout_path.same_as(&other.expected_rollout_path)
            && self.expected_provider.same_as(&other.expected_provider)
            && self.expected_archived.same_as(&other.expected_archived)
            && self.expected_thread_source.same_as(&other.expected_thread_source)
            && self.expected_has_user_event.same_as(&other.expected_has_user_event)
            && self.rollout_path.same_as(&other.rollout_path)
            && self.provider.same_as(&other.provider)
            && self.archived.same_as(&other.archived)
            && self.thread_source.same_as(&other.thread_source)
            && self.has_user_event.same_as(&other.has_user_event)
    }
}

/// A state row to delete.
#[derive(Clone, Debug, PartialEq, Eq)]
pub struct StateDelete {
    pub thread_id: String,
    pub expected_provider: String,
    pub expected_rollout_path: String,
}

/// What a `StateDelete` stands for.
#[verifier::ext_equal]
pub struct StateDeleteView {
    pub thread_id: Seq<char>,
    pub expected_provider: Seq<char>,
    pub expected_rollout_path: Seq<char>,
}

impl DeepView for StateDelete {
    type V = StateDeleteView;

    open spec fn deep_view(&self) -> StateDeleteView {
        StateDeleteView {
            thread_id: self.thread_id.deep_view(),
            expected_provider: self.expected_provider.deep_view(),
            expected_rollout_path: self.expected_rollout_path.deep_view(),
        }
    }
}

impl Model for StateDelete {
    fn copy_of(&self) -> (r: Self) {
        StateDelete {
            thread_id: self.thread_id.copy_of(),
            expected_provider: self.expected_provider.copy_of(),
            expected_rollout_path: self.expected_rollout_path.copy_of(),
        }
    }

    fn same_as(&self, other: &Self) -> (r: bool) {
        self.thread_id.same_as(&other.thread_id)
            && self.expected_provider.same_as(&other.expected_provider)
            && self.expected_rollout_path.same_as(&other.expected_rollout_path)
    }
}

/// A rollout whose provider is to be rewritten.
#[derive(Clone, Debug, PartialEq, Eq)]
pub struct RolloutUpdate {
    pub thread_id: String,
    pub path: String,
    pub archived: bool,
    pub expected_provider: Option<String>,
    pub provider: Option<String>,
}

/// What a `RolloutUpdate` stands for.
#[verifier::ext_equal]
pub struct RolloutUpdateView {
    pub thread_id: Seq<char>,
    pub path: Seq<char>,
    pub archived: bool,
    pub expected_provider: Option<Seq<char>>,
    pub provider: Option<Seq<char>>,
}

impl DeepView for RolloutUpdate {
    type V = RolloutUpdateView;

    open spec fn deep_view(&self) -> RolloutUpdateView {
        RolloutUpdateView {
            thread_id: self.thread_id.deep_view(),
            path: self.path.deep_view(),
            archived: self.archived.deep_view(),
            expected_provider: self.expected_provider.deep_view(),
            provider: self.provider.deep_view(),
        }
    }
}

impl Model for RolloutUpdate {
    fn copy_of(&self) -> (r: Self) {
        RolloutUpdate {
            thread_id: self.thread_id.copy_of(),
            path: self.path.copy_of(),
            archived: self.archived.copy_of(),
            expected_provider: self.expected_provider.copy_of(),
            provider: self.provider.copy_of(),
        }
    }

    fn same_as(&self, other: &Self) -> (r: bool) {
        self.thread_id.same_as(&other.thread_id)
            && self.path.same_as(&other.path)
            && self.archived.same_as(&other.archived)
            && self.expected_provider.same_as(&other.expected_provider)
            && self.provider.same_as(&other.provider)
    }
}

/// A catalog row to rewrite.
#[derive(Clone, Debug, PartialEq, Eq)]
pub struct CatalogUpdate {
    pub host_id: String,
    pub thread_id: String,
    pub expected_provider: String,
    pub expected_missing_candidate: bool,
    pub provider: String,
    pub missing_candidate: bool,
}

/// What a `CatalogUpdate` stands for.
#[verifier::ext_equal]
pub struct CatalogUpdateView {
    pub host_id: Seq<char>,
    pub thread_id: Seq<char>,
    pub expected_provider: Seq<char>,
    pub expected_missing_candidate: bool,
    pub provider: Seq<char>,
    pub missing_candidate: bool,
}

impl DeepView for CatalogUpdate {
    type V = CatalogUpdateView;

    open spec fn deep_view(&self) -> CatalogUpdateView {
        CatalogUpdateView {
            host_id: self.host_id.deep_view(),
            thread_id: self.thread_id.deep_view(),
            expected_provider: self.expected_provider.deep_view(),
            expected_missing_candidate: self.expected_missing_candidate.deep_view(),
            provider: self.provider.deep_view(),
            missing_candidate: self.missing_candidate.deep_view(),
        }
    }
}

impl Model for CatalogUpdate {
    fn copy_of(&self) -> (r: Self) {
        CatalogUpdate {
            host_id: self.host_id.copy_of(),
            thread_id: self.thread_id.copy_of(),
            expected_provider: self.expected_provider.copy_of(),
            expected_missing_candidate: self.expected_missing_candidate.copy_of(),
            provider: self.provider.copy_of(),
            missing_candidate: self.missing_candidate.copy_of(),
        }
    }

    fn same_as(&self, other: &Self) -> (r: bool) {
        self.host_id.same_as(&other.host_id)
            && self.thread_id.same_as(&other.thread_id)
            && self.expected_provider.same_as(&other.expected_provider)
            && self.expected_missing_candidate.same_as(&other.expected_missing_candidate)
            && self.provider.same_as(&other.provider)
            && self.missing_candidate.same_as(&other.missing_candidate)
    }
}

/// A catalog row to delete.
#[derive(Clone, Debug, PartialEq, Eq)]
pub struct CatalogDelete {
    pub host_id: String,
    pub thread_id: String,
    pub expected_provider: String,
    pub expected_missing_candidate: bool,
}

/// What a `CatalogDelete` stands for.
#[verifier::ext_equal]
pub struct CatalogDeleteView {
    pub host_id: Seq<char>,
    pub thread_id: Seq<char>,
    pub expected_provider: Seq<char>,
    pub expected_missing_candidate: bool,
}

impl DeepView for CatalogDelete {
    type V = CatalogDeleteView;

    open spec fn deep_view(&self) -> CatalogDeleteView {
        CatalogDeleteView {
            host_id: self.host_id.deep_view(),
            thread_id: self.thread_id.deep_view(),
            expected_provider: self.expected_provider.deep_view(),
            expected_missing_candidate: self.expected_missing_candidate.deep_view(),
        }
    }
}

impl Model for CatalogDelete {
    fn copy_of(&self) -> (r: Self) {
        CatalogDelete {
            host_id: self.host_id.copy_of(),
            thread_id: self.thread_id.copy_of(),
            expected_provider: self.expected_provider.copy_of(),
            expected_missing_candidate: self.expected_missing_candidate.copy_of(),
        }
    }

    fn same_as(&self, other: &Self) -> (r: bool) {
        self.host_id.same_as(&other.host_id)
            && self.thread_id.same_as(&other.thread_id)
            && self.expected_provider.same_as(&other.expected_provider)
            && self.expected_missing_candidate.same_as(&other.expected_missing_candidate)
    }
}

/// A catalog row to add. Its times are real numbers, held as text.
#[derive(Clone, Debug, PartialEq, Eq)]
pub struct CatalogInsert {
    pub host_id: String,
    pub thread_id: String,
    pub title: String,
    pub created_at: String,
    pub updated_at: String,
    pub cwd: String,
    pub source_detail: String,
    pub source_kind: String,
    pub provider: String,
    pub git_branch: Option<String>,
}

/// What a `CatalogInsert` stands for.
#[verifier::ext_equal]
pub struct CatalogInsertView {
    pub host_id: Seq<char>,
    pub thread_id: Seq<char>,
    pub title: Seq<char>,
    pub created_at: Seq<char>,
    pub updated_at: Seq<char>,
    pub cwd: Seq<char>,
    pub source_detail: Seq<char>,
    pub source_kind: Seq<char>,
    pub provider: Seq<char>,
    pub git_branch: Option<Seq<char>>,
}

impl DeepView for CatalogInsert {
    type V = CatalogInsertView;

    open spec fn deep_view(&self) -> CatalogInsertView {
        CatalogInsertView {
            host_id: self.host_id.deep_view(),
            thread_id: self.thread_id.deep_view(),
            title: self.title.deep_view(),
            created_at: self.created_at.deep_view(),
            updated_at: self.updated_at.deep_view(),
            cwd: self.cwd.deep_view(),
            source_detail: self.source_detail.deep_view(),
            source_kind: self.source_kind.deep_view(),
            provider: self.provider.deep_view(),
            git_branch: self.git_branch.deep_view(),
        }
    }
}

impl Model for CatalogInsert {
    fn copy_of(&self) -> (r: Self) {
        CatalogInsert {
            host_id: self.host_id.copy_of(),
            thread_id: self.thread_id.copy_of(),
            title: self.title.copy_of(),
            created_at: self.created_at.copy_of(),
            updated_at: self.updated_at.copy_of(),
            cwd: self.cwd.copy_of(),
            source_detail: self.source_detail.copy_of(),
            source_kind: self.source_kind.copy_of(),
            provider: self.provider.copy_of(),
            git_branch: self.git_branch.copy_of(),
        }
    }

    fn same_as(&self, other: &Self) -> (r: bool) {
        self.host_id.same_as(&other.host_id)
            && self.thread_id.same_as(&other.thread_id)
            && self.title.same_as(&other.title)
            && self.created_at.same_as(&other.created_at)
            && self.updated_at.same_as(&other.updated_at)
            && self.cwd.same_as(&other.cwd)
            && self.source_detail.same_as(&other.source_detail)
            && self.source_kind.same_as(&other.source_kind)
            && self.provider.same_as(&other.provider)
            && self.git_branch.same_as(&other.git_branch)
    }
}

/// The writes that a repair makes.
#[derive(Debug, PartialEq, Eq)]
pub struct RepairPlan {
    pub state_updates: Vec<StateUpdate>,
    pub state_restores: Vec<StateUpdate>,
    pub state_inserts: Vec<StateInsert>,
    pub state_deletes: Vec<StateDelete>,
    pub rollout_updates: Vec<RolloutUpdate>,
    pub catalog_updates: Vec<CatalogUpdate>,
    pub catalog_inserts: Vec<CatalogInsert>,
    pub catalog_deletes: Vec<CatalogDelete>,
    pub workspace_hint_updates: Vec<WorkspaceHintUpdate>,
    pub expected_global_state_sha256: Option<String>,
    pub changed_ids: OrderedSet<String>,
    pub skipped: Vec<SkipReason>,
}

/// What a `RepairPlan` stands for.
#[verifier::ext_equal]
pub struct RepairPlanView {
    pub state_updates: Seq<StateUpdateView>,
    pub state_restores: Seq<StateUpdateView>,
    pub state_inserts: Seq<StateInsertView>,
    pub state_deletes: Seq<StateDeleteView>,
    pub rollout_updates: Seq<RolloutUpdateView>,
    pub catalog_updates: Seq<CatalogUpdateView>,
    pub catalog_inserts: Seq<CatalogInsertView>,
    pub catalog_deletes: Seq<CatalogDeleteView>,
    pub workspace_hint_updates: Seq<WorkspaceHintUpdateView>,
    pub expected_global_state_sha256: Option<Seq<char>>,
    pub changed_ids: Set<Seq<char>>,
    pub skipped: Seq<SkipReasonView>,
}

impl DeepView for RepairPlan {
    type V = RepairPlanView;

    open spec fn deep_view(&self) -> RepairPlanView {
        RepairPlanView {
            state_updates: self.state_updates.deep_view(),
            state_restores: self.state_restores.deep_view(),
            state_inserts: self.state_inserts.deep_view(),
            state_deletes: self.state_deletes.deep_view(),
            rollout_updates: self.rollout_updates.deep_view(),
            catalog_updates: self.catalog_updates.deep_view(),
            catalog_inserts: self.catalog_inserts.deep_view(),
            catalog_deletes: self.catalog_deletes.deep_view(),
            workspace_hint_updates: self.workspace_hint_updates.deep_view(),
            expected_global_state_sha256: self.expected_global_state_sha256.deep_view(),
            changed_ids: self.changed_ids.deep_view(),
            skipped: self.skipped.deep_view(),
        }
    }
}

impl Model for RepairPlan {
    fn copy_of(&self) -> (r: Self) {
        RepairPlan {
            state_updates: self.state_updates.copy_of(),
            state_restores: self.state_restores.copy_of(),
            state_inserts: self.state_inserts.copy_of(),
            state_deletes: self.state_deletes.copy_of(),
            rollout_updates: self.rollout_updates.copy_of(),
            catalog_updates: self.catalog_updates.copy_of(),
            catalog_inserts: self.catalog_inserts.copy_of(),
            catalog_deletes: self.catalog_deletes.copy_of(),
            workspace_hint_updates: self.workspace_hint_updates.copy_of(),
            expected_global_state_sha256: self.expected_global_state_sha256.copy_of(),
            changed_ids: self.changed_ids.copy_of(),
            skipped: self.skipped.copy_of(),
        }
    }

    fn same_as(&self, other: &Self) -> (r: bool) {
        self.state_updates.same_as(&other.state_updates)
            && self.state_restores.same_as(&other.state_restores)
            && self.state_inserts.same_as(&other.state_inserts)
            && self.state_deletes.same_as(&other.state_deletes)
            && self.rollout_updates.same_as(&other.rollout_updates)
            && self.catalog_updates.same_as(&other.catalog_updates)
            && self.catalog_inserts.same_as(&other.catalog_inserts)
            && self.catalog_deletes.same_as(&other.catalog_deletes)
            && self.workspace_hint_updates.same_as(&other.workspace_hint_updates)
            && self.expected_global_state_sha256.same_as(&other.expected_global_state_sha256)
            && self.changed_ids.same_as(&other.changed_ids)
            && self.skipped.same_as(&other.skipped)
    }
}

impl Ordered for SkipReason {
    open spec fn relation_of(a: SkipReasonView, b: SkipReasonView) -> Relation {
        match (a.thread_id, b.thread_id) {
            (None, Some(_)) => Relation::Less,
            (Some(_), None) => Relation::Greater,
            (Some(x), Some(y)) if x != y => text::relation(x, y),
            _ => text::relation(a.reason, b.reason),
        }
    }

    proof fn order_total(a: SkipReasonView, b: SkipReasonView) {
        text::lemma_relation(a.reason, b.reason);
        if a.thread_id is Some && b.thread_id is Some {
            text::lemma_relation(a.thread_id->0, b.thread_id->0);
        }
    }

    proof fn order_transitive(a: SkipReasonView, b: SkipReasonView, c: SkipReasonView) {
        if a.thread_id is Some && b.thread_id is Some && c.thread_id is Some {
            let x = a.thread_id->0;
            let y = b.thread_id->0;
            let z = c.thread_id->0;
            text::lemma_relation(x, y);
            text::lemma_relation(y, z);
            text::lemma_relation(x, z);
            if x == y && y == z {
                text::lemma_before_transitive(a.reason, b.reason, c.reason);
            } else if x != y && y != z {
                text::lemma_before_transitive(x, y, z);
            }
        } else if a.thread_id is None && b.thread_id is None && c.thread_id is None {
            text::lemma_before_transitive(a.reason, b.reason, c.reason);
        }
    }

    fn order(&self, other: &Self) -> (r: Relation) {
        match (&self.thread_id, &other.thread_id) {
            (None, Some(_)) => Relation::Less,
            (Some(_), None) => Relation::Greater,
            (Some(x), Some(y)) => {
                proof {
                    text::lemma_relation(x@, y@);
                }
                match compare(x.as_str(), y.as_str()) {
                    Relation::Equal => compare(self.reason.as_str(), other.reason.as_str()),
                    relation => relation,
                }
            },
            (None, None) => compare(self.reason.as_str(), other.reason.as_str()),
        }
    }
}

/// Reasons in order: by thread, then by reason.
pub open spec fn reasons_in_order(reasons: Seq<SkipReasonView>) -> Seq<SkipReasonView> {
    ordered::sorted_items::<SkipReason>(reasons)
}

/// Sorts reasons by thread, then by reason.
pub fn sort_reasons(reasons: &mut Vec<SkipReason>)
    ensures
        final(reasons).deep_view() == reasons_in_order(old(reasons).deep_view()),
{
    let sorted = sort_items(reasons);
    *reasons = sorted;
}

/// A reason for a thread.
pub open spec fn reason_for(id: Seq<char>, reason: Seq<char>) -> SkipReasonView {
    SkipReasonView { thread_id: Some(id), reason }
}

/// A reason for a thread.
pub fn skip(id: &String, reason: &str) -> (r: SkipReason)
    ensures
        r.deep_view() == reason_for(id@, reason@),
{
    SkipReason { thread_id: Some(id.copy_of()), reason: reason.to_owned() }
}

/// Why a repair may not touch a session.
pub open spec fn exclusion(
    snapshot: SnapshotView,
    excluded: Set<Seq<char>>,
    id: Seq<char>,
) -> Option<Seq<char>> {
    if excluded.contains(id) {
        Some("remote_mapped"@)
    } else if !snapshot.valid_active_rollouts.contains(id)
        && !snapshot.valid_archived_rollouts.contains(id) {
        Some("rollout_missing_or_ambiguous"@)
    } else if !snapshot.rollout_provider_values.dom().contains(id) && !(
    snapshot.primary_rollouts.dom().contains(id)
        && snapshot.primary_rollouts[id].provider_field_missing) {
        Some("rollout_provider_missing_or_invalid"@)
    } else {
        None
    }
}

/// Why a repair may not touch a session.
pub fn repair_exclusion_reason(
    snapshot: &Snapshot,
    cohorts: &SessionCohorts,
    thread: &ThreadRow,
) -> (r: Option<String>)
    ensures
        r.deep_view() == exclusion(
            snapshot.deep_view(),
            cohorts.remote_excluded_thread_ids.deep_view(),
            thread.id@,
        ),
{
    if cohorts.remote_excluded_thread_ids.contains(&thread.id) {
        return Some("remote_mapped".to_owned());
    }
    if !snapshot.valid_active_rollouts.contains(&thread.id)
        && !snapshot.valid_archived_rollouts.contains(&thread.id) {
        return Some("rollout_missing_or_ambiguous".to_owned());
    }
    if !snapshot.rollout_provider_values.contains_key(&thread.id) {
        let field_missing = match snapshot.primary_rollouts.get(&thread.id) {
            Some(primary) => primary.provider_field_missing,
            None => false,
        };
        if !field_missing {
            return Some("rollout_provider_missing_or_invalid".to_owned());
        }
    }
    None
}

/// A plan without writes.
pub open spec fn empty_plan() -> RepairPlanView {
    RepairPlanView {
        state_updates: Seq::empty(),
        state_restores: Seq::empty(),
        state_inserts: Seq::empty(),
        state_deletes: Seq::empty(),
        rollout_updates: Seq::empty(),
        catalog_updates: Seq::empty(),
        catalog_inserts: Seq::empty(),
        catalog_deletes: Seq::empty(),
        workspace_hint_updates: Seq::empty(),
        expected_global_state_sha256: None,
        changed_ids: Set::empty(),
        skipped: Seq::empty(),
    }
}

impl RepairPlan {
    /// A plan without writes.
    pub fn empty() -> (r: Self)
        ensures
            r.deep_view() == empty_plan(),
    {
        let r = RepairPlan {
            state_updates: Vec::new(),
            state_restores: Vec::new(),
            state_inserts: Vec::new(),
            state_deletes: Vec::new(),
            rollout_updates: Vec::new(),
            catalog_updates: Vec::new(),
            catalog_inserts: Vec::new(),
            catalog_deletes: Vec::new(),
            workspace_hint_updates: Vec::new(),
            expected_global_state_sha256: None,
            changed_ids: OrderedSet::new(),
            skipped: Vec::new(),
        };
        assert(r.deep_view() =~= empty_plan());
        r
    }

    /// Leaves a thread alone.
    pub fn skip_thread(&mut self, id: &String, reason: &str)
        ensures
            final(self).deep_view() == (RepairPlanView {
                skipped: old(self).deep_view().skipped.push(reason_for(id@, reason@)),
                ..old(self).deep_view()
            }),
    {
        let ghost before = self.deep_view();
        self.skipped.push(skip(id, reason));
        assert(self.skipped.deep_view() =~= before.skipped.push(reason_for(id@, reason@)));
    }

    /// Counts a thread as changed.
    pub fn mark_changed(&mut self, id: &String)
        ensures
            final(self).deep_view() == (RepairPlanView {
                changed_ids: old(self).deep_view().changed_ids.insert(id@),
                ..old(self).deep_view()
            }),
    {
        self.changed_ids.insert(id.copy_of());
    }

    /// Adds the rewrite of a state row.
    pub fn add_state_update(&mut self, update: StateUpdate)
        ensures
            final(self).deep_view() == (RepairPlanView {
                state_updates: old(self).deep_view().state_updates.push(update.deep_view()),
                ..old(self).deep_view()
            }),
    {
        let ghost before = self.deep_view();
        let ghost added = update.deep_view();
        self.state_updates.push(update);
        assert(self.state_updates.deep_view() =~= before.state_updates.push(added));
    }

    /// Adds the rewrite of a state row that undoes a projection.
    pub fn add_state_restore(&mut self, update: StateUpdate)
        ensures
            final(self).deep_view() == (RepairPlanView {
                state_restores: old(self).deep_view().state_restores.push(update.deep_view()),
                ..old(self).deep_view()
            }),
    {
        let ghost before = self.deep_view();
        let ghost added = update.deep_view();
        self.state_restores.push(update);
        assert(self.state_restores.deep_view() =~= before.state_restores.push(added));
    }

    /// Adds a new state row.
    pub fn add_state_insert(&mut self, insert: StateInsert)
        ensures
            final(self).deep_view() == (RepairPlanView {
                state_inserts: old(self).deep_view().state_inserts.push(insert.deep_view()),
                ..old(self).deep_view()
            }),
    {
        let ghost before = self.deep_view();
        let ghost added = insert.deep_view();
        self.state_inserts.push(insert);
        assert(self.state_inserts.deep_view() =~= before.state_inserts.push(added));
    }

    /// Adds the removal of a state row.
    pub fn add_state_delete(&mut self, delete: StateDelete)
        ensures
            final(self).deep_view() == (RepairPlanView {
                state_deletes: old(self).deep_view().state_deletes.push(delete.deep_view()),
                ..old(self).deep_view()
            }),
    {
        let ghost before = self.deep_view();
        let ghost added = delete.deep_view();
        self.state_deletes.push(delete);
        assert(self.state_deletes.deep_view() =~= before.state_deletes.push(added));
    }

    /// Adds the rewrite of a rollout.
    pub fn add_rollout_update(&mut self, update: RolloutUpdate)
        ensures
            final(self).deep_view() == (RepairPlanView {
                rollout_updates: old(self).deep_view().rollout_updates.push(update.deep_view()),
                ..old(self).deep_view()
            }),
    {
        let ghost before = self.deep_view();
        let ghost added = update.deep_view();
        self.rollout_updates.push(update);
        assert(self.rollout_updates.deep_view() =~= before.rollout_updates.push(added));
    }

    /// Adds the rewrite of a catalog row.
    pub fn add_catalog_update(&mut self, update: CatalogUpdate)
        ensures
            final(self).deep_view() == (RepairPlanView {
                catalog_updates: old(self).deep_view().catalog_updates.push(update.deep_view()),
                ..old(self).deep_view()
            }),
    {
        let ghost before = self.deep_view();
        let ghost added = update.deep_view();
        self.catalog_updates.push(update);
        assert(self.catalog_updates.deep_view() =~= before.catalog_updates.push(added));
    }

    /// Adds the removal of a catalog row.
    pub fn add_catalog_delete(&mut self, delete: CatalogDelete)
        ensures
            final(self).deep_view() == (RepairPlanView {
                catalog_deletes: old(self).deep_view().catalog_deletes.push(delete.deep_view()),
                ..old(self).deep_view()
            }),
    {
        let ghost before = self.deep_view();
        let ghost added = delete.deep_view();
        self.catalog_deletes.push(delete);
        assert(self.catalog_deletes.deep_view() =~= before.catalog_deletes.push(added));
    }
}

/// A person wrote in the session, as its state row or its rollout says.
pub open spec fn has_user_message(thread: ThreadRowView, primary: PrimaryRolloutView) -> bool {
    ||| text::trimmed(thread.first_user_message).len() > 0
    ||| primary.first_user_message is Some && text::trimmed(primary.first_user_message->0).len() > 0
}

/// The source of a session that its state row should name.
pub open spec fn desired_thread_source(
    thread: ThreadRowView,
    primary: PrimaryRolloutView,
) -> Seq<char> {
    if text::trimmed(thread.thread_source).len() == 0 && has_user_message(thread, primary) {
        "user"@
    } else {
        thread.thread_source
    }
}

/// The rewrite of a state row so that the target lists the session.
pub open spec fn state_update(
    thread: ThreadRowView,
    primary: PrimaryRolloutView,
    path: Seq<char>,
    target: Seq<char>,
) -> StateUpdateView {
    StateUpdateView {
        thread_id: thread.id,
        expected_rollout_path: thread.rollout_path,
        expected_provider: thread.provider,
        expected_archived: thread.archived,
        expected_thread_source: thread.thread_source,
        expected_has_user_event: thread.has_user_event,
        rollout_path: path,
        provider: target,
        archived: primary.archived,
        thread_source: desired_thread_source(thread, primary),
        has_user_event: thread.has_user_event || has_user_message(thread, primary),
    }
}

/// The rewrite changes something.
pub open spec fn update_changes(update: StateUpdateView) -> bool {
    ||| update.expected_provider != update.provider
    ||| update.expected_rollout_path != update.rollout_path
    ||| update.expected_archived != update.archived
    ||| update.expected_thread_source != update.thread_source
    ||| update.expected_has_user_event != update.has_user_event
}

/// What is done about the state row of a session.
pub enum StateStep {
    Nothing,
    Skip(Seq<char>),
    Insert(StateInsertView),
    Update(StateUpdateView),
}

/// What is done about the state row of a session.
pub open spec fn state_step(
    snapshot: SnapshotView,
    backed: BackedThreadView,
    primary: PrimaryRolloutView,
    path: Seq<char>,
    target: Seq<char>,
) -> StateStep {
    let thread = backed.thread;
    let update = state_update(thread, primary, path, providers::canonical_id(target));
    if !snapshot.threads_readable {
        StateStep::Skip("state_unreadable"@)
    } else if !backed.state_present {
        StateStep::Insert(sessions::state_insert(primary, thread.id, target))
    } else if update_changes(update) {
        StateStep::Update(update)
    } else {
        StateStep::Nothing
    }
}

/// The plan after the state row of a session was looked at.
pub open spec fn after_state_step(
    plan: RepairPlanView,
    id: Seq<char>,
    step: StateStep,
) -> RepairPlanView {
    match step {
        StateStep::Nothing => plan,
        StateStep::Skip(reason) => RepairPlanView {
            skipped: plan.skipped.push(reason_for(id, reason)),
            ..plan
        },
        StateStep::Insert(insert) => RepairPlanView {
            state_inserts: plan.state_inserts.push(insert),
            changed_ids: plan.changed_ids.insert(id),
            ..plan
        },
        StateStep::Update(update) => RepairPlanView {
            state_updates: plan.state_updates.push(update),
            changed_ids: plan.changed_ids.insert(id),
            ..plan
        },
    }
}

/// The plan after the rollout of a session was looked at.
pub open spec fn after_rollout_step(
    plan: RepairPlanView,
    id: Seq<char>,
    path: Seq<char>,
    archived: bool,
    provider: Option<Seq<char>>,
    target: Seq<char>,
) -> RepairPlanView {
    if provider == Some(target) {
        plan
    } else {
        RepairPlanView {
            rollout_updates: plan.rollout_updates.push(
                RolloutUpdateView {
                    thread_id: id,
                    path,
                    archived,
                    expected_provider: provider,
                    provider: Some(target),
                },
            ),
            changed_ids: plan.changed_ids.insert(id),
            ..plan
        }
    }
}

/// The plan after one more session.
pub open spec fn plan_step(
    plan: RepairPlanView,
    snapshot: SnapshotView,
    excluded: Set<Seq<char>>,
    target: Seq<char>,
    backed: BackedThreadView,
) -> RepairPlanView {
    let id = backed.thread.id;
    if exclusion(snapshot, excluded, id) is Some {
        RepairPlanView {
            skipped: plan.skipped.push(reason_for(id, exclusion(snapshot, excluded, id)->0)),
            ..plan
        }
    } else if !snapshot.rollout_paths.dom().contains(id) {
        RepairPlanView {
            skipped: plan.skipped.push(reason_for(id, "rollout_path_missing"@)),
            ..plan
        }
    } else {
        let primary = snapshot.primary_rollouts[id];
        let path = snapshot.rollout_paths[id];
        after_rollout_step(
            after_state_step(plan, id, state_step(snapshot, backed, primary, path, target)),
            id,
            path,
            primary.archived,
            sessions::lookup(snapshot.rollout_provider_values, id),
            providers::canonical_id(target),
        )
    }
}

/// The plan for sessions, in their order.
pub open spec fn plan_of(
    snapshot: SnapshotView,
    excluded: Set<Seq<char>>,
    target: Seq<char>,
    backed: Seq<BackedThreadView>,
) -> RepairPlanView
    decreases backed.len(),
{
    if backed.len() == 0 {
        empty_plan()
    } else {
        plan_step(
            plan_of(snapshot, excluded, target, backed.drop_last()),
            snapshot,
            excluded,
            target,
            backed.last(),
        )
    }
}

/// The plan that aligns every local session with a rollout with the target.
pub open spec fn full_plan(snapshot: SnapshotView, target: Seq<char>) -> RepairPlanView {
    let plan = plan_of(
        snapshot,
        sessions::remote_ids(snapshot),
        target,
        sessions::backed_threads(snapshot, sessions::rollout_ids(snapshot)),
    );
    RepairPlanView { skipped: reasons_in_order(plan.skipped), ..plan }
}

fn plan_state(
    plan: &mut RepairPlan,
    snapshot: &Snapshot,
    backed: &BackedThread,
    primary: &PrimaryRollout,
    path: &String,
    target: &str,
)
    requires
        snapshot.primary_rollouts.deep_view().dom().contains(backed.thread.id@),
        snapshot.primary_rollouts.deep_view()[backed.thread.id@] == primary.deep_view(),
    ensures
        final(plan).deep_view() == after_state_step(
            old(plan).deep_view(),
            backed.thread.id@,
            state_step(
                snapshot.deep_view(),
                backed.deep_view(),
                primary.deep_view(),
                path@,
                target@,
            ),
        ),
{
    let thread = &backed.thread;
    let rollout_message = match &primary.first_user_message {
        Some(message) => !is_blank(message.as_str()),
        None => false,
    };
    let user_message = !is_blank(thread.first_user_message.as_str()) || rollout_message;
    if !snapshot.threads_readable {
        plan.skip_thread(&thread.id, "state_unreadable");
    } else if !backed.state_present {
        match state_insert_from_rollout(snapshot, thread, target) {
            Some(insert) => {
                plan.add_state_insert(insert);
                plan.mark_changed(&thread.id);
            },
            None => {},
        }
    } else {
        let thread_source = if is_blank(thread.thread_source.as_str()) && user_message {
            "user".to_owned()
        } else {
            thread.thread_source.copy_of()
        };
        let provider = canonical_provider(target);
        let has_user_event = thread.has_user_event || user_message;
        if !thread.provider.same_as(&provider) || !thread.rollout_path.same_as(path)
            || thread.archived != primary.archived || !thread.thread_source.same_as(&thread_source)
            || thread.has_user_event != has_user_event {
            plan.add_state_update(
                StateUpdate {
                    thread_id: thread.id.copy_of(),
                    expected_rollout_path: thread.rollout_path.copy_of(),
                    expected_provider: thread.provider.copy_of(),
                    expected_archived: thread.archived,
                    expected_thread_source: thread.thread_source.copy_of(),
                    expected_has_user_event: thread.has_user_event,
                    rollout_path: path.copy_of(),
                    provider,
                    archived: primary.archived,
                    thread_source,
                    has_user_event,
                },
            );
            plan.mark_changed(&thread.id);
        }
    }
}

fn plan_thread(
    plan: &mut RepairPlan,
    snapshot: &Snapshot,
    cohorts: &SessionCohorts,
    target: &str,
    backed: &BackedThread,
)
    requires
        snapshot.primary_rollouts.deep_view().dom().contains(backed.thread.id@),
    ensures
        final(plan).deep_view() == plan_step(
            old(plan).deep_view(),
            snapshot.deep_view(),
            cohorts.remote_excluded_thread_ids.deep_view(),
            target@,
            backed.deep_view(),
        ),
{
    let id = &backed.thread.id;
    match repair_exclusion_reason(snapshot, cohorts, &backed.thread) {
        Some(reason) => {
            plan.skip_thread(id, reason.as_str());
            return ;
        },
        None => {},
    }
    let path = match snapshot.rollout_paths.get(id) {
        Some(path) => path,
        None => {
            plan.skip_thread(id, "rollout_path_missing");
            return ;
        },
    };
    match snapshot.primary_rollouts.get(id) {
        Some(primary) => {
            let rollout_provider: Option<String> = match snapshot.rollout_provider_values.get(id) {
                Some(provider) => Some(provider.copy_of()),
                None => None,
            };
            plan_state(plan, snapshot, backed, primary, path, target);
            let provider: Option<String> = Some(canonical_provider(target));
            if !rollout_provider.same_as(&provider) {
                plan.add_rollout_update(
                    RolloutUpdate {
                        thread_id: id.copy_of(),
                        path: path.copy_of(),
                        archived: primary.archived,
                        expected_provider: rollout_provider,
                        provider,
                    },
                );
                plan.mark_changed(id);
            }
        },
        None => {
            assert(false);
        },
    }
}

/// Plans the writes that align every local session with a rollout with the target.
pub fn build_plan(snapshot: &Snapshot, target_provider: &str) -> (r: RepairPlan)
    requires
        records::consistent(snapshot.deep_view()),
    ensures
        r.deep_view() == full_plan(snapshot.deep_view(), target_provider@),
{
    let cohorts = session_cohorts(snapshot);
    let backed = rollout_backed_threads(snapshot);
    let ghost rows = backed.deep_view();
    let ghost view = snapshot.deep_view();
    let ghost excluded = sessions::remote_ids(view);
    let mut plan = RepairPlan::empty();
    let mut i: usize = 0;
    while i < backed.len()
        invariant
            i <= backed@.len(),
            rows == backed.deep_view(),
            rows == sessions::backed_threads(view, sessions::rollout_ids(view)),
            view == snapshot.deep_view(),
            forall|j: int|
                0 <= j < backed@.len() ==> view.primary_rollouts.dom().contains(
                    (#[trigger] backed@[j]).thread.id@,
                ),
            excluded == sessions::remote_ids(view),
            cohorts.remote_excluded_thread_ids.deep_view() == excluded,
            plan.deep_view() == plan_of(view, excluded, target_provider@, rows.take(i as int)),
        decreases backed@.len() - i,
    {
        assert(rows[i as int] == backed@[i as int].deep_view());
        assert(rows.take(i + 1).drop_last() =~= rows.take(i as int));
        plan_thread(&mut plan, snapshot, &cohorts, target_provider, &backed[i]);
        i += 1;
    }
    assert(rows.take(i as int) =~= rows);
    sort_reasons(&mut plan.skipped);
    plan
}

/// A write that belongs to a thread.
pub trait ThreadBound: Model {
    /// The thread of a write.
    spec fn thread_of(write: Self::V) -> Seq<char>;

    /// The thread of the write.
    fn thread(&self) -> (r: &String)
        ensures
            r@ == Self::thread_of(self.deep_view()),
    ;
}

impl ThreadBound for StateUpdate {
    open spec fn thread_of(write: StateUpdateView) -> Seq<char> {
        write.thread_id
    }

    fn thread(&self) -> (r: &String) {
        &self.thread_id
    }
}

impl ThreadBound for StateInsert {
    open spec fn thread_of(write: StateInsertView) -> Seq<char> {
        write.thread_id
    }

    fn thread(&self) -> (r: &String) {
        &self.thread_id
    }
}

impl ThreadBound for RolloutUpdate {
    open spec fn thread_of(write: RolloutUpdateView) -> Seq<char> {
        write.thread_id
    }

    fn thread(&self) -> (r: &String) {
        &self.thread_id
    }
}

impl ThreadBound for CatalogUpdate {
    open spec fn thread_of(write: CatalogUpdateView) -> Seq<char> {
        write.thread_id
    }

    fn thread(&self) -> (r: &String) {
        &self.thread_id
    }
}

impl ThreadBound for CatalogInsert {
    open spec fn thread_of(write: CatalogInsertView) -> Seq<char> {
        write.thread_id
    }

    fn thread(&self) -> (r: &String) {
        &self.thread_id
    }
}

impl ThreadBound for WorkspaceHintUpdate {
    open spec fn thread_of(write: WorkspaceHintUpdateView) -> Seq<char> {
        write.thread_id
    }

    fn thread(&self) -> (r: &String) {
        &self.thread_id
    }
}

/// The items that are kept, in their order.
pub open spec fn kept<X>(items: Seq<X>, keep: spec_fn(X) -> bool) -> Seq<X>
    decreases items.len(),
{
    if items.len() == 0 {
        items
    } else if keep(items.last()) {
        kept(items.drop_last(), keep).push(items.last())
    } else {
        kept(items.drop_last(), keep)
    }
}

/// The writes of the desired threads.
pub open spec fn kept_writes<T: ThreadBound>(
    writes: Seq<T::V>,
    desired: Set<Seq<char>>,
) -> Seq<T::V> {
    kept(writes, |write: T::V| desired.contains(T::thread_of(write)))
}

/// The writes of the desired threads.
pub fn keep_writes<T: ThreadBound>(writes: &Vec<T>, desired: &OrderedSet<String>) -> (r: Vec<T>)
    ensures
        r.deep_view() == kept_writes::<T>(writes.deep_view(), desired.deep_view()),
{
    let ghost view = writes.deep_view();
    let ghost keep = |write: T::V| desired.deep_view().contains(T::thread_of(write));
    let mut out: Vec<T> = Vec::new();
    let mut i: usize = 0;
    assert(out.deep_view() =~= kept(view.take(0), keep));
    while i < writes.len()
        invariant
            i <= writes@.len(),
            view == writes.deep_view(),
            keep == (|write: T::V| desired.deep_view().contains(T::thread_of(write))),
            out.deep_view() == kept(view.take(i as int), keep),
        decreases writes@.len() - i,
    {
        let ghost before = out.deep_view();
        assert(view[i as int] == writes@[i as int].deep_view());
        assert(view.take(i + 1).drop_last() =~= view.take(i as int));
        if desired.contains(writes[i].thread()) {
            out.push(writes[i].copy_of());
            assert(out.deep_view() =~= before.push(view[i as int]));
        }
        i += 1;
    }
    assert(view.take(i as int) =~= view);
    out
}

/// A reason that belongs to one of `desired`, or to no thread where `general` is set.
pub open spec fn reason_wanted(
    reason: SkipReasonView,
    desired: Set<Seq<char>>,
    general: bool,
) -> bool {
    match reason.thread_id {
        Some(id) => desired.contains(id),
        None => general,
    }
}

/// The reasons of the desired threads; those without a thread too where `general` is set.
pub open spec fn kept_reasons(
    reasons: Seq<SkipReasonView>,
    desired: Set<Seq<char>>,
    general: bool,
) -> Seq<SkipReasonView> {
    kept(reasons, |reason: SkipReasonView| reason_wanted(reason, desired, general))
}

/// The reasons of the desired threads; those without a thread too where `general` is set.
pub fn keep_reasons(
    reasons: &Vec<SkipReason>,
    desired: &OrderedSet<String>,
    general: bool,
) -> (r: Vec<SkipReason>)
    ensures
        r.deep_view() == kept_reasons(reasons.deep_view(), desired.deep_view(), general),
{
    let ghost view = reasons.deep_view();
    let mut out: Vec<SkipReason> = Vec::new();
    let mut i: usize = 0;
    assert(out.deep_view() =~= kept_reasons(view.take(0), desired.deep_view(), general));
    while i < reasons.len()
        invariant
            i <= reasons@.len(),
            view == reasons.deep_view(),
            out.deep_view() == kept_reasons(view.take(i as int), desired.deep_view(), general),
        decreases reasons@.len() - i,
    {
        let ghost before = out.deep_view();
        assert(view[i as int] == reasons@[i as int].deep_view());
        assert(view.take(i + 1).drop_last() =~= view.take(i as int));
        let wanted = match &reasons[i].thread_id {
            Some(id) => desired.contains(id),
            None => general,
        };
        if wanted {
            out.push(reasons[i].copy_of());
            assert(out.deep_view() =~= before.push(view[i as int]));
        }
        i += 1;
    }
    assert(view.take(i as int) =~= view);
    out
}

/// The threads of planned sessions.
pub open spec fn planned_ids(sessions: Seq<PlannedSessionView>) -> Set<Seq<char>> {
    sessions::ids_where(
        sessions,
        |session: PlannedSessionView| true,
        |session: PlannedSessionView| session.thread_id,
    )
}

/// The threads of the planned sessions.
pub fn collect_planned_ids(preview: &ProviderPlanPreview) -> (r: OrderedSet<String>)
    ensures
        r.deep_view() == planned_ids(preview.sessions.deep_view()),
{
    let ghost rows = preview.sessions.deep_view();
    let mut out: OrderedSet<String> = OrderedSet::new();
    let mut i: usize = 0;
    assert(out.deep_view() =~= planned_ids(rows.take(0)));
    while i < preview.sessions.len()
        invariant
            i <= preview.sessions@.len(),
            rows == preview.sessions.deep_view(),
            out.deep_view() == planned_ids(rows.take(i as int)),
        decreases preview.sessions@.len() - i,
    {
        proof {
            assert(rows[i as int] == preview.sessions@[i as int].deep_view());
            sessions::lemma_ids_where(
                rows,
                |session: PlannedSessionView| true,
                |session: PlannedSessionView| session.thread_id,
                i as int,
            );
        }
        out.insert(preview.sessions[i].thread_id.copy_of());
        i += 1;
    }
    assert(rows.take(i as int) =~= rows);
    out
}

/// A plan limited to the desired threads.
pub open spec fn limited_plan(plan: RepairPlanView, desired: Set<Seq<char>>) -> RepairPlanView {
    let hints = kept_writes::<WorkspaceHintUpdate>(plan.workspace_hint_updates, desired);
    RepairPlanView {
        state_updates: kept_writes::<StateUpdate>(plan.state_updates, desired),
        state_inserts: kept_writes::<StateInsert>(plan.state_inserts, desired),
        rollout_updates: kept_writes::<RolloutUpdate>(plan.rollout_updates, desired),
        catalog_updates: kept_writes::<CatalogUpdate>(plan.catalog_updates, desired),
        catalog_inserts: kept_writes::<CatalogInsert>(plan.catalog_inserts, desired),
        workspace_hint_updates: hints,
        expected_global_state_sha256: if hints.len() == 0 {
            None
        } else {
            plan.expected_global_state_sha256
        },
        changed_ids: plan.changed_ids.intersect(desired),
        skipped: kept_reasons(plan.skipped, desired, true),
        ..plan
    }
}

/// Plans the writes for the sessions of a preview.
pub fn build_plan_for_preview(
    snapshot: &Snapshot,
    target_provider: &str,
    preview: &ProviderPlanPreview,
) -> (r: RepairPlan)
    requires
        records::consistent(snapshot.deep_view()),
    ensures
        r.deep_view() == limited_plan(
            full_plan(snapshot.deep_view(), target_provider@),
            planned_ids(preview.sessions.deep_view()),
        ),
{
    let desired = collect_planned_ids(preview);
    let plan = build_plan(snapshot, target_provider);
    let hints = keep_writes(&plan.workspace_hint_updates, &desired);
    let expected_global_state_sha256: Option<String> = if hints.len() == 0 {
        None
    } else {
        plan.expected_global_state_sha256.copy_of()
    };
    let skipped = keep_reasons(&plan.skipped, &desired, true);
    RepairPlan {
        state_updates: keep_writes(&plan.state_updates, &desired),
        state_restores: plan.state_restores,
        state_inserts: keep_writes(&plan.state_inserts, &desired),
        state_deletes: plan.state_deletes,
        rollout_updates: keep_writes(&plan.rollout_updates, &desired),
        catalog_updates: keep_writes(&plan.catalog_updates, &desired),
        catalog_inserts: keep_writes(&plan.catalog_inserts, &desired),
        catalog_deletes: plan.catalog_deletes,
        workspace_hint_updates: hints,
        expected_global_state_sha256,
        changed_ids: sessions::shared(&plan.changed_ids, &desired),
        skipped,
    }
}

/// No write of a plan for sessions touches a session that is excluded.
pub proof fn lemma_plan_spares_excluded(
    snapshot: SnapshotView,
    excluded: Set<Seq<char>>,
    target: Seq<char>,
    backed: Seq<BackedThreadView>,
)
    ensures
        forall|id: Seq<char>| #[trigger]
            plan_of(snapshot, excluded, target, backed).changed_ids.contains(id) ==> exclusion(
                snapshot,
                excluded,
                id,
            ) is None,
        forall|i: int|
            0 <= i < plan_of(snapshot, excluded, target, backed).state_updates.len() ==> exclusion(
                snapshot,
                excluded,
                (#[trigger] plan_of(snapshot, excluded, target, backed).state_updates[i]).thread_id,
            ) is None,
        forall|i: int|
            0 <= i < plan_of(snapshot, excluded, target, backed).state_inserts.len() ==> exclusion(
                snapshot,
                excluded,
                (#[trigger] plan_of(snapshot, excluded, target, backed).state_inserts[i]).thread_id,
            ) is None,
        forall|i: int|
            0 <= i < plan_of(snapshot, excluded, target, backed).rollout_updates.len()
                ==> exclusion(
                snapshot,
                excluded,
                (#[trigger] plan_of(snapshot, excluded, target, backed).rollout_updates[i]).thread_id,
            ) is None,
    decreases backed.len(),
{
    if backed.len() > 0 {
        lemma_plan_spares_excluded(snapshot, excluded, target, backed.drop_last());
    }
}

/// A repair never touches a session that a record marks as remote.
pub proof fn law_repair_spares_remote_sessions(snapshot: SnapshotView, target: Seq<char>)
    ensures
        ({
            let plan = full_plan(snapshot, target);
            let remote = sessions::remote_ids(snapshot);
            &&& forall|id: Seq<char>| #[trigger]
                plan.changed_ids.contains(id) ==> !remote.contains(id)
            &&& forall|i: int|
                0 <= i < plan.state_updates.len() ==> !remote.contains(
                    (#[trigger] plan.state_updates[i]).thread_id,
                )
            &&& forall|i: int|
                0 <= i < plan.state_inserts.len() ==> !remote.contains(
                    (#[trigger] plan.state_inserts[i]).thread_id,
                )
            &&& forall|i: int|
                0 <= i < plan.rollout_updates.len() ==> !remote.contains(
                    (#[trigger] plan.rollout_updates[i]).thread_id,
                )
        }),
{
    lemma_plan_spares_excluded(
        snapshot,
        sessions::remote_ids(snapshot),
        target,
        sessions::backed_threads(snapshot, sessions::rollout_ids(snapshot)),
    );
}

/// A plan writes the state rows and rollouts alone: the catalog and the global state are derived.
pub proof fn law_plan_leaves_catalog_alone(
    snapshot: SnapshotView,
    excluded: Set<Seq<char>>,
    target: Seq<char>,
    backed: Seq<BackedThreadView>,
)
    ensures
        ({
            let plan = plan_of(snapshot, excluded, target, backed);
            &&& plan.catalog_updates.len() == 0
            &&& plan.catalog_inserts.len() == 0
            &&& plan.catalog_deletes.len() == 0
            &&& plan.workspace_hint_updates.len() == 0
            &&& plan.state_restores.len() == 0
            &&& plan.state_deletes.len() == 0
        }),
    decreases backed.len(),
{
    if backed.len() > 0 {
        law_plan_leaves_catalog_alone(snapshot, excluded, target, backed.drop_last());
    }
}

/// Nothing is left to write for a session whose state row and rollout hold what the plan would
/// write.
pub open spec fn settled(
    snapshot: SnapshotView,
    target: Seq<char>,
    backed: BackedThreadView,
) -> bool {
    let id = backed.thread.id;
    let primary = snapshot.primary_rollouts[id];
    &&& snapshot.threads_readable
    &&& backed.state_present
    &&& !update_changes(
        state_update(
            backed.thread,
            primary,
            snapshot.rollout_paths[id],
            providers::canonical_id(target),
        ),
    )
    &&& sessions::lookup(snapshot.rollout_provider_values, id) == Some(
        providers::canonical_id(target),
    )
}

/// A second repair finds nothing to write: where every session that may be touched already holds
/// what the plan would write, the plan changes nothing.
pub proof fn law_repair_is_idempotent(
    snapshot: SnapshotView,
    excluded: Set<Seq<char>>,
    target: Seq<char>,
    backed: Seq<BackedThreadView>,
)
    requires
        forall|i: int|
            0 <= i < backed.len() && exclusion(
                snapshot,
                excluded,
                (#[trigger] backed[i]).thread.id,
            ) is None && snapshot.rollout_paths.dom().contains(backed[i].thread.id) ==> settled(
                snapshot,
                target,
                backed[i],
            ),
    ensures
        ({
            let plan = plan_of(snapshot, excluded, target, backed);
            &&& plan.changed_ids == Set::<Seq<char>>::empty()
            &&& plan.state_updates.len() == 0
            &&& plan.state_inserts.len() == 0
            &&& plan.rollout_updates.len() == 0
        }),
    decreases backed.len(),
{
    if backed.len() > 0 {
        let shorter = backed.drop_last();
        assert forall|i: int|
            0 <= i < shorter.len() && exclusion(
                snapshot,
                excluded,
                (#[trigger] shorter[i]).thread.id,
            ) is None && snapshot.rollout_paths.dom().contains(
                shorter[i].thread.id,
            ) implies settled(snapshot, target, shorter[i]) by {
            assert(backed[i] == shorter[i]);
        }
        law_repair_is_idempotent(snapshot, excluded, target, shorter);
        assert(backed[backed.len() - 1] == backed.last());
    }
}

/// A rewritten state row needs no further rewrite: applied to a row that held what was expected,
/// the update leaves a row that the plan would not change again.
pub proof fn law_update_settles_the_row(
    thread: ThreadRowView,
    primary: PrimaryRolloutView,
    path: Seq<char>,
    target: Seq<char>,
)
    ensures
        ({
            let update = state_update(thread, primary, path, target);
            let after = ThreadRowView {
                rollout_path: update.rollout_path,
                provider: update.provider,
                archived: update.archived,
                thread_source: update.thread_source,
                has_user_event: update.has_user_event,
                ..thread
            };
            !update_changes(state_update(after, primary, path, target))
        }),
{
    reveal_strlit("user");
    assert(text::trimmed("user"@).len() == 4) by {
        let word = "user"@;
        assert(!text::whitespace(word[0]));
        assert(text::trimmed_start(word) == word);
        assert(!text::whitespace(word.last()));
    }
}

/// A rewrite of a state row expects the row as it was read, gives it the target, the path and the
/// archive of its rollout, never takes away that a person wrote, and names a source only where the
/// row names none and a person wrote.
pub proof fn law_rewrite_keeps_what_is_right(
    thread: ThreadRowView,
    primary: PrimaryRolloutView,
    path: Seq<char>,
    target: Seq<char>,
)
    ensures
        ({
            let update = state_update(thread, primary, path, target);
            let wrote = text::trimmed(thread.first_user_message).len() > 0 || (
            primary.first_user_message is Some && text::trimmed(
                primary.first_user_message->0,
            ).len() > 0);
            &&& update.thread_id == thread.id
            &&& update.expected_provider == thread.provider
            &&& update.expected_rollout_path == thread.rollout_path
            &&& update.expected_archived == thread.archived
            &&& update.expected_thread_source == thread.thread_source
            &&& update.expected_has_user_event == thread.has_user_event
            &&& update.provider == target
            &&& update.rollout_path == path
            &&& update.archived == primary.archived
            &&& text::trimmed(thread.thread_source).len() > 0 ==> update.thread_source
                == thread.thread_source
            &&& text::trimmed(thread.thread_source).len() == 0 && !wrote ==> update.thread_source
                == thread.thread_source
            &&& text::trimmed(thread.thread_source).len() == 0 && wrote ==> update.thread_source
                == "user"@
            &&& update.has_user_event <==> thread.has_user_event || wrote
            &&& update_changes(update) <==> !(thread.provider == target && thread.rollout_path
                == path && thread.archived == primary.archived && thread.thread_source
                == update.thread_source && thread.has_user_event == update.has_user_event)
        }),
{
}

/// A repair leaves a session alone exactly where it is remote, where it has no valid rollout, or
/// where its rollout has a provider that cannot be read.
pub proof fn law_only_unfit_sessions_are_left_alone(
    snapshot: SnapshotView,
    excluded: Set<Seq<char>>,
    id: Seq<char>,
)
    ensures
        exclusion(snapshot, excluded, id) is None <==> {
            &&& !excluded.contains(id)
            &&& snapshot.valid_active_rollouts.contains(id)
                || snapshot.valid_archived_rollouts.contains(id)
            &&& snapshot.rollout_provider_values.dom().contains(id) || (
            snapshot.primary_rollouts.dom().contains(id)
                && snapshot.primary_rollouts[id].provider_field_missing)
        },
{
}

proof fn lemma_kept_members<X>(items: Seq<X>, keep: spec_fn(X) -> bool)
    ensures
        forall|x: X| #[trigger] kept(items, keep).contains(x) <==> items.contains(x) && keep(x),
    decreases items.len(),
{
    if items.len() > 0 {
        let front = items.drop_last();
        let last = items.last();
        lemma_kept_members(front, keep);
        assert(items =~= front.push(last));
        assert forall|x: X| #[trigger] kept(items, keep).contains(x) <==> items.contains(x) && keep(
            x,
        ) by {
            sessions::lemma_push_contains(front, last, x);
            sessions::lemma_push_contains(kept(front, keep), last, x);
        }
    }
}

/// A plan for selected sessions holds exactly the writes of the whole plan that are about them.
pub proof fn law_limited_plan_is_the_whole_one_without_the_rest(
    plan: RepairPlanView,
    desired: Set<Seq<char>>,
)
    ensures
        ({
            let part = limited_plan(plan, desired);
            &&& forall|write: StateUpdateView| #[trigger]
                part.state_updates.contains(write) <==> plan.state_updates.contains(write)
                    && desired.contains(write.thread_id)
            &&& forall|write: StateInsertView| #[trigger]
                part.state_inserts.contains(write) <==> plan.state_inserts.contains(write)
                    && desired.contains(write.thread_id)
            &&& forall|write: RolloutUpdateView| #[trigger]
                part.rollout_updates.contains(write) <==> plan.rollout_updates.contains(write)
                    && desired.contains(write.thread_id)
            &&& forall|id: Seq<char>| #[trigger]
                part.changed_ids.contains(id) <==> plan.changed_ids.contains(id)
                    && desired.contains(id)
            &&& part.state_restores == plan.state_restores
            &&& part.state_deletes == plan.state_deletes
        }),
{
    lemma_kept_members(
        plan.state_updates,
        |write: StateUpdateView| desired.contains(StateUpdate::thread_of(write)),
    );
    lemma_kept_members(
        plan.state_inserts,
        |write: StateInsertView| desired.contains(StateInsert::thread_of(write)),
    );
    lemma_kept_members(
        plan.rollout_updates,
        |write: RolloutUpdateView| desired.contains(RolloutUpdate::thread_of(write)),
    );
}

/// What is to be written for a session that a repair may touch: its rollout is to name the target
/// where it does not, its state row is to be added where there is none and rewritten where
/// something in it is not as it should be; and a session that may not be touched is given with the
/// reason.
pub proof fn law_plan_writes_what_differs(
    snapshot: SnapshotView,
    excluded: Set<Seq<char>>,
    target: Seq<char>,
    backed: Seq<BackedThreadView>,
    at: int,
)
    requires
        0 <= at < backed.len(),
    ensures
        ({
            let plan = plan_of(snapshot, excluded, target, backed);
            let id = backed[at].thread.id;
            let provider = providers::canonical_id(target);
            let primary = snapshot.primary_rollouts[id];
            let path = snapshot.rollout_paths[id];
            let update = state_update(backed[at].thread, primary, path, provider);
            let found = sessions::lookup(snapshot.rollout_provider_values, id);
            let fit = exclusion(snapshot, excluded, id) is None
                && snapshot.rollout_paths.dom().contains(id);
            &&& fit && found != Some(provider) ==> plan.changed_ids.contains(id)
                && plan.rollout_updates.contains(
                RolloutUpdateView {
                    thread_id: id,
                    path,
                    archived: primary.archived,
                    expected_provider: found,
                    provider: Some(provider),
                },
            )
            &&& fit && snapshot.threads_readable && backed[at].state_present && update_changes(
                update,
            ) ==> plan.changed_ids.contains(id) && plan.state_updates.contains(update)
            &&& fit && snapshot.threads_readable && !backed[at].state_present
                ==> plan.changed_ids.contains(id) && plan.state_inserts.contains(
                sessions::state_insert(primary, id, target),
            )
            &&& !fit || !snapshot.threads_readable ==> exists|i: int|
                0 <= i < plan.skipped.len() && (#[trigger] plan.skipped[i]).thread_id == Some(id)
            &&& excluded.contains(id) ==> plan.skipped.contains(
                reason_for(id, "remote_mapped"@),
            )
        }),
    decreases backed.len(),
{
    let front = backed.drop_last();
    let rest = plan_of(snapshot, excluded, target, front);
    let plan = plan_of(snapshot, excluded, target, backed);
    let id = backed[at].thread.id;
    let provider = providers::canonical_id(target);
    let primary = snapshot.primary_rollouts[id];
    let path = snapshot.rollout_paths[id];
    lemma_plan_grows(rest, snapshot, excluded, target, backed.last());
    if at < backed.len() - 1 {
        law_plan_writes_what_differs(snapshot, excluded, target, front, at);
        if exists|i: int|
            0 <= i < rest.skipped.len() && (#[trigger] rest.skipped[i]).thread_id == Some(id) {
            let i = choose|i: int|
                0 <= i < rest.skipped.len() && (#[trigger] rest.skipped[i]).thread_id == Some(id);
            assert(rest.skipped.contains(rest.skipped[i]));
            assert(plan.skipped.contains(rest.skipped[i]));
            let k = choose|k: int|
                0 <= k < plan.skipped.len() && plan.skipped[k] == rest.skipped[i];
            assert(plan.skipped[k].thread_id == Some(id));
        }
    } else {
        let fit = exclusion(snapshot, excluded, id) is None
            && snapshot.rollout_paths.dom().contains(id);
        if fit {
            let step = state_step(snapshot, backed[at], primary, path, target);
            let middle = after_state_step(rest, id, step);
            let found = sessions::lookup(snapshot.rollout_provider_values, id);
            if found != Some(provider) {
                assert(plan.rollout_updates.last() == (RolloutUpdateView {
                    thread_id: id,
                    path,
                    archived: primary.archived,
                    expected_provider: found,
                    provider: Some(provider),
                }));
                assert(plan.rollout_updates[plan.rollout_updates.len() - 1]
                    == plan.rollout_updates.last());
            }
            match step {
                StateStep::Insert(insert) => {
                    assert(plan.state_inserts[plan.state_inserts.len() - 1] == insert);
                },
                StateStep::Update(update) => {
                    assert(plan.state_updates[plan.state_updates.len() - 1] == update);
                },
                StateStep::Skip(reason) => {
                    assert(plan.skipped[plan.skipped.len() - 1].thread_id == Some(id));
                },
                StateStep::Nothing => {},
            }
        } else {
            assert(plan.skipped[plan.skipped.len() - 1].thread_id == Some(id));
        }
    }
}

proof fn lemma_plan_grows(
    plan: RepairPlanView,
    snapshot: SnapshotView,
    excluded: Set<Seq<char>>,
    target: Seq<char>,
    backed: BackedThreadView,
)
    ensures
        ({
            let after = plan_step(plan, snapshot, excluded, target, backed);
            &&& forall|id: Seq<char>| #[trigger]
                plan.changed_ids.contains(id) ==> after.changed_ids.contains(id)
            &&& forall|write: RolloutUpdateView| #[trigger]
                plan.rollout_updates.contains(write) ==> after.rollout_updates.contains(write)
            &&& forall|write: StateUpdateView| #[trigger]
                plan.state_updates.contains(write) ==> after.state_updates.contains(write)
            &&& forall|write: StateInsertView| #[trigger]
                plan.state_inserts.contains(write) ==> after.state_inserts.contains(write)
            &&& forall|reason: SkipReasonView| #[trigger]
                plan.skipped.contains(reason) ==> after.skipped.contains(reason)
        }),
{
    broadcast use vstd::seq_lib::group_seq_properties;

}

/// A plan writes nothing but that: every write in it is the one for a session that may be touched,
/// expects what was read, and changes it.
pub proof fn law_plan_writes_nothing_else(
    snapshot: SnapshotView,
    excluded: Set<Seq<char>>,
    target: Seq<char>,
    backed: Seq<BackedThreadView>,
)
    ensures
        ({
            let plan = plan_of(snapshot, excluded, target, backed);
            let provider = providers::canonical_id(target);
            &&& forall|k: int|
                0 <= k < plan.rollout_updates.len() ==> {
                    let write = #[trigger] plan.rollout_updates[k];
                    &&& snapshot.rollout_paths.dom().contains(write.thread_id)
                    &&& write.path == snapshot.rollout_paths[write.thread_id]
                    &&& write.archived == snapshot.primary_rollouts[write.thread_id].archived
                    &&& write.expected_provider == sessions::lookup(
                        snapshot.rollout_provider_values,
                        write.thread_id,
                    )
                    &&& write.provider == Some(provider)
                    &&& write.expected_provider != write.provider
                    &&& plan.changed_ids.contains(write.thread_id)
                }
            &&& forall|k: int|
                0 <= k < plan.state_updates.len() ==> {
                    let write = #[trigger] plan.state_updates[k];
                    &&& write.provider == provider
                    &&& write.rollout_path == snapshot.rollout_paths[write.thread_id]
                    &&& write.archived == snapshot.primary_rollouts[write.thread_id].archived
                    &&& update_changes(write)
                    &&& plan.changed_ids.contains(write.thread_id)
                    &&& snapshot.threads_readable
                }
            &&& forall|k: int|
                0 <= k < plan.state_inserts.len() ==> {
                    let write = #[trigger] plan.state_inserts[k];
                    &&& write.provider == provider
                    &&& write.rollout_path == snapshot.primary_rollouts[write.thread_id].path
                    &&& write.archived == snapshot.primary_rollouts[write.thread_id].archived
                    &&& plan.changed_ids.contains(write.thread_id)
                    &&& snapshot.threads_readable
                }
        }),
    decreases backed.len(),
{
    if backed.len() > 0 {
        law_plan_writes_nothing_else(snapshot, excluded, target, backed.drop_last());
        let rest = plan_of(snapshot, excluded, target, backed.drop_last());
        lemma_plan_grows(rest, snapshot, excluded, target, backed.last());
    }
}

/// A plan for selected sessions keeps the reasons for them and those for no session, the catalog
/// writes and the hints for them, and the fingerprint of the global state exactly where a hint is
/// left to write.
pub proof fn law_limited_plan_keeps_what_belongs_to_it(
    plan: RepairPlanView,
    desired: Set<Seq<char>>,
    reason: SkipReasonView,
    update: CatalogUpdateView,
    insert: CatalogInsertView,
    hint: WorkspaceHintUpdateView,
)
    ensures
        ({
            let part = limited_plan(plan, desired);
            &&& part.skipped.contains(reason) <==> plan.skipped.contains(reason) && (
            reason.thread_id is None || desired.contains(reason.thread_id->0))
            &&& part.catalog_updates.contains(update) <==> plan.catalog_updates.contains(update)
                && desired.contains(update.thread_id)
            &&& part.catalog_inserts.contains(insert) <==> plan.catalog_inserts.contains(insert)
                && desired.contains(insert.thread_id)
            &&& part.workspace_hint_updates.contains(hint)
                <==> plan.workspace_hint_updates.contains(hint) && desired.contains(hint.thread_id)
            &&& part.workspace_hint_updates.len() == 0 ==> part.expected_global_state_sha256 is None
            &&& part.workspace_hint_updates.len() > 0 ==> part.expected_global_state_sha256
                == plan.expected_global_state_sha256
            &&& part.catalog_deletes == plan.catalog_deletes
        }),
{
    lemma_kept_members(
        plan.skipped,
        |reason: SkipReasonView| reason_wanted(reason, desired, true),
    );
    lemma_kept_members(
        plan.catalog_updates,
        |write: CatalogUpdateView| desired.contains(CatalogUpdate::thread_of(write)),
    );
    lemma_kept_members(
        plan.catalog_inserts,
        |write: CatalogInsertView| desired.contains(CatalogInsert::thread_of(write)),
    );
    lemma_kept_members(
        plan.workspace_hint_updates,
        |write: WorkspaceHintUpdateView| desired.contains(WorkspaceHintUpdate::thread_of(write)),
    );
}

} // verus!

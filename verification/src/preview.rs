//! What a repair would do: which sessions are eligible, in scope and selected, and what the plan
//! for them says.

use crate::model::Model;
use crate::ordered;
use crate::ordered::{sort_pairs, Ordered, OrderedMap, OrderedSet};
use crate::planning;
use crate::planning::{
    build_plan_for_preview, keep_reasons, repair_exclusion_reason, skip, sort_reasons, SkipReason,
    SkipReasonView,
};
use crate::projection;
use crate::projection::{
    build_provider_plan_preview, CatalogState, CatalogStateView, EligibleSession,
    EligibleSessionView, PlannedSessionView, ProjectionErrorView, ProjectionScope, ProjectionStore,
    ProjectionStoreView, ProviderPlanPreview, ProviderPlanPreviewView, SessionOrder,
    SessionOrderView, SourceProvider, SourceProviderView,
};
use crate::providers;
use crate::providers::{source_provider, validate_current_target_provider, validate_provider};
use crate::reconciliation;
use crate::records;
use crate::records::{
    BackedThread, BackedThreadView, SessionCohorts, Snapshot, SnapshotView, ThreadRow,
    ThreadRowView,
};
use crate::sessions;
use crate::sessions::{rollout_backed_threads, session_cohorts};
use crate::text;
use crate::text::{starts_with, trim, Relation};
use crate::token;
use crate::token::projection_plan_token;
use vstd::prelude::*;
use vstd::string::*;

verus! {

/// A session or a conflict, in the order in which a plan takes them.
#[derive(Clone, Debug, PartialEq, Eq)]
pub struct RankedProjectionCandidate {
    pub session: Option<EligibleSession>,
    pub workspace_conflict: Option<SkipReason>,
}

/// What a `RankedProjectionCandidate` stands for.
#[verifier::ext_equal]
pub struct RankedProjectionCandidateView {
    pub session: Option<EligibleSessionView>,
    pub workspace_conflict: Option<SkipReasonView>,
}

impl DeepView for RankedProjectionCandidate {
    type V = RankedProjectionCandidateView;

    open spec fn deep_view(&self) -> RankedProjectionCandidateView {
        RankedProjectionCandidateView {
            session: self.session.deep_view(),
            workspace_conflict: self.workspace_conflict.deep_view(),
        }
    }
}

impl Model for RankedProjectionCandidate {
    fn copy_of(&self) -> (r: Self) {
        RankedProjectionCandidate {
            session: self.session.copy_of(),
            workspace_conflict: self.workspace_conflict.copy_of(),
        }
    }

    fn same_as(&self, other: &Self) -> (r: bool) {
        self.session.same_as(&other.session)
            && self.workspace_conflict.same_as(&other.workspace_conflict)
    }
}

/// What a repair would do, as it is shown before it is made.
#[derive(Debug, PartialEq, Eq)]
pub struct ProjectionPreviewResult {
    pub plan: ProviderPlanPreview,
    pub plan_token: String,
    pub changed_threads: usize,
    pub rollout_updates: usize,
    pub source_counts: OrderedMap<String, usize>,
    pub reconcile_pending: usize,
    pub reconcile_conflicts: usize,
    pub reconcile_reasons: Vec<SkipReason>,
    pub workspace_hint_updates: usize,
    pub workspace_conflicts: usize,
    pub workspace_conflict_reasons: Vec<SkipReason>,
    pub skipped: usize,
    pub skipped_reasons: Vec<SkipReason>,
}

/// What a `ProjectionPreviewResult` stands for.
#[verifier::ext_equal]
pub struct ProjectionPreviewResultView {
    pub plan: ProviderPlanPreviewView,
    pub plan_token: Seq<char>,
    pub changed_threads: usize,
    pub rollout_updates: usize,
    pub source_counts: Map<Seq<char>, usize>,
    pub reconcile_pending: usize,
    pub reconcile_conflicts: usize,
    pub reconcile_reasons: Seq<SkipReasonView>,
    pub workspace_hint_updates: usize,
    pub workspace_conflicts: usize,
    pub workspace_conflict_reasons: Seq<SkipReasonView>,
    pub skipped: usize,
    pub skipped_reasons: Seq<SkipReasonView>,
}

impl DeepView for ProjectionPreviewResult {
    type V = ProjectionPreviewResultView;

    open spec fn deep_view(&self) -> ProjectionPreviewResultView {
        ProjectionPreviewResultView {
            plan: self.plan.deep_view(),
            plan_token: self.plan_token.deep_view(),
            changed_threads: self.changed_threads.deep_view(),
            rollout_updates: self.rollout_updates.deep_view(),
            source_counts: self.source_counts.deep_view(),
            reconcile_pending: self.reconcile_pending.deep_view(),
            reconcile_conflicts: self.reconcile_conflicts.deep_view(),
            reconcile_reasons: self.reconcile_reasons.deep_view(),
            workspace_hint_updates: self.workspace_hint_updates.deep_view(),
            workspace_conflicts: self.workspace_conflicts.deep_view(),
            workspace_conflict_reasons: self.workspace_conflict_reasons.deep_view(),
            skipped: self.skipped.deep_view(),
            skipped_reasons: self.skipped_reasons.deep_view(),
        }
    }
}

impl Model for ProjectionPreviewResult {
    fn copy_of(&self) -> (r: Self) {
        ProjectionPreviewResult {
            plan: self.plan.copy_of(),
            plan_token: self.plan_token.copy_of(),
            changed_threads: self.changed_threads.copy_of(),
            rollout_updates: self.rollout_updates.copy_of(),
            source_counts: self.source_counts.copy_of(),
            reconcile_pending: self.reconcile_pending.copy_of(),
            reconcile_conflicts: self.reconcile_conflicts.copy_of(),
            reconcile_reasons: self.reconcile_reasons.copy_of(),
            workspace_hint_updates: self.workspace_hint_updates.copy_of(),
            workspace_conflicts: self.workspace_conflicts.copy_of(),
            workspace_conflict_reasons: self.workspace_conflict_reasons.copy_of(),
            skipped: self.skipped.copy_of(),
            skipped_reasons: self.skipped_reasons.copy_of(),
        }
    }

    fn same_as(&self, other: &Self) -> (r: bool) {
        self.plan.same_as(&other.plan)
            && self.plan_token.same_as(&other.plan_token)
            && self.changed_threads.same_as(&other.changed_threads)
            && self.rollout_updates.same_as(&other.rollout_updates)
            && self.source_counts.same_as(&other.source_counts)
            && self.reconcile_pending.same_as(&other.reconcile_pending)
            && self.reconcile_conflicts.same_as(&other.reconcile_conflicts)
            && self.reconcile_reasons.same_as(&other.reconcile_reasons)
            && self.workspace_hint_updates.same_as(&other.workspace_hint_updates)
            && self.workspace_conflicts.same_as(&other.workspace_conflicts)
            && self.workspace_conflict_reasons.same_as(&other.workspace_conflict_reasons)
            && self.skipped.same_as(&other.skipped)
            && self.skipped_reasons.same_as(&other.skipped_reasons)
    }
}

/// The provider that a session's state row stands for: its own, else the rollout's, else the
/// target.
pub open spec fn state_provider_of(
    snapshot: SnapshotView,
    backed: BackedThreadView,
    target: SourceProviderView,
) -> SourceProviderView {
    let own = reconciliation::trusted(backed.thread.provider);
    let rollout = reconciliation::rollout_origin(snapshot, backed.thread.id);
    if backed.state_present && own is Some {
        own->0
    } else if rollout is Some {
        rollout->0
    } else {
        target
    }
}

/// The provider that a session came from: what the store knows, else the rollout's provider, else
/// the one its state row stands for.
pub open spec fn origin_of(
    snapshot: SnapshotView,
    store: Option<ProjectionStoreView>,
    id: Seq<char>,
    state_provider: SourceProviderView,
) -> SourceProviderView {
    let rollout = reconciliation::rollout_origin(snapshot, id);
    if store is Some && store->0.threads.dom().contains(id) {
        store->0.threads[id].origin_provider
    } else if rollout is Some {
        rollout->0
    } else {
        state_provider
    }
}

/// A session as a plan takes it. The catalog is a cache that the desktop derives, so a session
/// counts as listed where its state row stands.
pub open spec fn eligible_session(
    snapshot: SnapshotView,
    store: Option<ProjectionStoreView>,
    backed: BackedThreadView,
    target: SourceProviderView,
) -> EligibleSessionView {
    let state_provider = state_provider_of(snapshot, backed, target);
    EligibleSessionView {
        id: backed.thread.id,
        origin_provider: origin_of(snapshot, store, backed.thread.id, state_provider),
        state_present: backed.state_present,
        state_provider,
        catalog: CatalogStateView::Present { provider: state_provider },
        updated_at: backed.thread.updated_at,
    }
}

/// The sessions of `backed` that a repair may touch.
pub open spec fn eligible_sessions(
    snapshot: SnapshotView,
    store: Option<ProjectionStoreView>,
    excluded: Set<Seq<char>>,
    target: SourceProviderView,
    backed: Seq<BackedThreadView>,
) -> Seq<EligibleSessionView>
    decreases backed.len(),
{
    if backed.len() == 0 {
        Seq::empty()
    } else {
        let rest = eligible_sessions(snapshot, store, excluded, target, backed.drop_last());
        let last = backed.last();
        if planning::exclusion(snapshot, excluded, last.thread.id) is Some {
            rest
        } else {
            rest.push(eligible_session(snapshot, store, last, target))
        }
    }
}

/// The sessions of `backed` that a repair may not touch, and why.
pub open spec fn ineligible_reasons(
    snapshot: SnapshotView,
    excluded: Set<Seq<char>>,
    backed: Seq<BackedThreadView>,
) -> Seq<SkipReasonView>
    decreases backed.len(),
{
    if backed.len() == 0 {
        Seq::empty()
    } else {
        let rest = ineligible_reasons(snapshot, excluded, backed.drop_last());
        let last = backed.last();
        match planning::exclusion(snapshot, excluded, last.thread.id) {
            Some(reason) => rest.push(planning::reason_for(last.thread.id, reason)),
            None => rest,
        }
    }
}

fn describe_session(
    snapshot: &Snapshot,
    store: Option<&ProjectionStore>,
    backed: &BackedThread,
    target: &SourceProvider,
) -> (r: EligibleSession)
    ensures
        r.deep_view() == eligible_session(
            snapshot.deep_view(),
            sessions::store_view(store),
            backed.deep_view(),
            target.deep_view(),
        ),
{
    let id = &backed.thread.id;
    let rollout: Option<SourceProvider> = match snapshot.rollout_provider_values.get(id) {
        Some(value) => source_provider(value.as_str()),
        None => None,
    };
    let own: Option<SourceProvider> = if backed.state_present {
        source_provider(backed.thread.provider.as_str())
    } else {
        None
    };
    let state_provider = match own {
        Some(provider) => provider,
        None => match &rollout {
            Some(provider) => provider.copy_of(),
            None => target.copy_of(),
        },
    };
    let recorded = match rollout {
        Some(provider) => provider,
        None => state_provider.copy_of(),
    };
    let origin_provider = match store {
        Some(store) => match store.threads.get(id) {
            Some(record) => record.origin_provider.copy_of(),
            None => recorded,
        },
        None => recorded,
    };
    EligibleSession {
        id: id.copy_of(),
        origin_provider,
        state_present: backed.state_present,
        catalog: CatalogState::Present { provider: state_provider.copy_of() },
        state_provider,
        updated_at: backed.thread.updated_at,
    }
}

/// The sessions that a repair may touch, and why it may not touch the others, given the cohorts.
pub fn eligible_projection_sessions_with_cohorts(
    snapshot: &Snapshot,
    store: Option<&ProjectionStore>,
    target_provider: &SourceProvider,
    cohorts: &SessionCohorts,
) -> (r: (Vec<EligibleSession>, Vec<SkipReason>))
    ensures
        ({
            let view = snapshot.deep_view();
            let excluded = cohorts.remote_excluded_thread_ids.deep_view();
            let backed = sessions::backed_threads(view, sessions::rollout_ids(view));
            &&& r.0.deep_view() == eligible_sessions(
                view,
                sessions::store_view(store),
                excluded,
                target_provider.deep_view(),
                backed,
            )
            &&& r.1.deep_view() == planning::reasons_in_order(
                ineligible_reasons(view, excluded, backed),
            )
        }),
{
    let backed = rollout_backed_threads(snapshot);
    let ghost rows = backed.deep_view();
    let ghost view = snapshot.deep_view();
    let ghost known = sessions::store_view(store);
    let ghost target = target_provider.deep_view();
    let ghost excluded = cohorts.remote_excluded_thread_ids.deep_view();
    let mut sessions: Vec<EligibleSession> = Vec::new();
    let mut skipped: Vec<SkipReason> = Vec::new();
    let mut i: usize = 0;
    assert(sessions.deep_view() =~= eligible_sessions(view, known, excluded, target, rows.take(0)));
    assert(skipped.deep_view() =~= ineligible_reasons(view, excluded, rows.take(0)));
    while i < backed.len()
        invariant
            i <= backed@.len(),
            rows == backed.deep_view(),
            view == snapshot.deep_view(),
            known == sessions::store_view(store),
            target == target_provider.deep_view(),
            excluded == cohorts.remote_excluded_thread_ids.deep_view(),
            sessions.deep_view() == eligible_sessions(
                view,
                known,
                excluded,
                target,
                rows.take(i as int),
            ),
            skipped.deep_view() == ineligible_reasons(view, excluded, rows.take(i as int)),
        decreases backed@.len() - i,
    {
        let entry = &backed[i];
        let ghost before = sessions.deep_view();
        let ghost reasons = skipped.deep_view();
        assert(rows[i as int] == entry.deep_view());
        assert(rows.take(i + 1).drop_last() =~= rows.take(i as int));
        match repair_exclusion_reason(snapshot, cohorts, &entry.thread) {
            Some(reason) => {
                skipped.push(skip(&entry.thread.id, reason.as_str()));
                assert(skipped.deep_view() =~= reasons.push(
                    planning::reason_for(entry.thread.id@, reason@),
                ));
            },
            None => {
                let session = describe_session(snapshot, store, entry, target_provider);
                let ghost added = session.deep_view();
                sessions.push(session);
                assert(sessions.deep_view() =~= before.push(added));
            },
        }
        i += 1;
    }
    assert(rows.take(i as int) =~= rows);
    sort_reasons(&mut skipped);
    (sessions, skipped)
}

/// The sessions that a repair may touch, and why it may not touch the others.
pub fn eligible_projection_sessions(
    snapshot: &Snapshot,
    store: Option<&ProjectionStore>,
    target_provider: &SourceProvider,
) -> (r: (Vec<EligibleSession>, Vec<SkipReason>))
    ensures
        ({
            let view = snapshot.deep_view();
            let excluded = sessions::remote_ids(view);
            let backed = sessions::backed_threads(view, sessions::rollout_ids(view));
            &&& r.0.deep_view() == eligible_sessions(
                view,
                sessions::store_view(store),
                excluded,
                target_provider.deep_view(),
                backed,
            )
            &&& r.1.deep_view() == planning::reasons_in_order(
                ineligible_reasons(view, excluded, backed),
            )
        }),
{
    let cohorts = session_cohorts(snapshot);
    eligible_projection_sessions_with_cohorts(snapshot, store, target_provider, &cohorts)
}

/// A session or a conflict with its place in a plan.
pub open spec fn ranked(
    id: Seq<char>,
    updated_at: i64,
    session: Option<EligibleSessionView>,
    workspace_conflict: Option<SkipReasonView>,
) -> (SessionOrderView, RankedProjectionCandidateView) {
    (
        SessionOrderView { updated_at, id },
        RankedProjectionCandidateView { session, workspace_conflict },
    )
}

/// The sessions with a source in scope.
pub open spec fn session_candidates(
    sessions: Seq<EligibleSessionView>,
    sources: Set<SourceProviderView>,
) -> Seq<(SessionOrderView, RankedProjectionCandidateView)>
    decreases sessions.len(),
{
    if sessions.len() == 0 {
        Seq::empty()
    } else {
        let rest = session_candidates(sessions.drop_last(), sources);
        let last = sessions.last();
        if sources.contains(last.origin_provider) {
            rest.push(ranked(last.id, last.updated_at, Some(last), None))
        } else {
            rest
        }
    }
}

/// A thread was left alone because of its workspace.
pub open spec fn has_workspace_conflict(reasons: Seq<SkipReasonView>, id: Seq<char>) -> bool {
    reasons.contains(planning::reason_for(id, "workspace_conflict"@))
}

/// A state row with a workspace conflict stands in scope.
pub open spec fn conflict_in_scope(
    store: Option<ProjectionStoreView>,
    reasons: Seq<SkipReasonView>,
    sources: Set<SourceProviderView>,
    thread: ThreadRowView,
) -> bool {
    let own = reconciliation::trusted(thread.provider);
    &&& has_workspace_conflict(reasons, thread.id)
    &&& own is Some
    &&& sources.contains(
        if store is Some && store->0.threads.dom().contains(thread.id) {
            store->0.threads[thread.id].origin_provider
        } else {
            own->0
        },
    )
}

/// The state rows with a workspace conflict that stand in scope.
pub open spec fn conflict_candidates(
    threads: Seq<ThreadRowView>,
    store: Option<ProjectionStoreView>,
    reasons: Seq<SkipReasonView>,
    sources: Set<SourceProviderView>,
) -> Seq<(SessionOrderView, RankedProjectionCandidateView)>
    decreases threads.len(),
{
    if threads.len() == 0 {
        Seq::empty()
    } else {
        let rest = conflict_candidates(threads.drop_last(), store, reasons, sources);
        let last = threads.last();
        if conflict_in_scope(store, reasons, sources, last) {
            rest.push(
                ranked(
                    last.id,
                    last.updated_at,
                    None,
                    Some(planning::reason_for(last.id, "workspace_conflict"@)),
                ),
            )
        } else {
            rest
        }
    }
}

/// What is in scope, in the order in which a plan takes it.
pub open spec fn candidates(
    snapshot: SnapshotView,
    store: Option<ProjectionStoreView>,
    sessions: Seq<EligibleSessionView>,
    reasons: Seq<SkipReasonView>,
    sources: Set<SourceProviderView>,
) -> Seq<(SessionOrderView, RankedProjectionCandidateView)> {
    ordered::sorted_pairs::<SessionOrder, RankedProjectionCandidateView>(
        session_candidates(sessions, sources) + conflict_candidates(
            snapshot.threads,
            store,
            reasons,
            sources,
        ),
    )
}

/// The sessions among candidates.
pub open spec fn candidate_sessions(
    candidates: Seq<(SessionOrderView, RankedProjectionCandidateView)>,
) -> Seq<EligibleSessionView>
    decreases candidates.len(),
{
    if candidates.len() == 0 {
        Seq::empty()
    } else {
        let rest = candidate_sessions(candidates.drop_last());
        match candidates.last().1.session {
            Some(session) => rest.push(session),
            None => rest,
        }
    }
}

/// The conflicts among candidates.
pub open spec fn candidate_conflicts(
    candidates: Seq<(SessionOrderView, RankedProjectionCandidateView)>,
) -> Seq<SkipReasonView>
    decreases candidates.len(),
{
    if candidates.len() == 0 {
        Seq::empty()
    } else {
        let rest = candidate_conflicts(candidates.drop_last());
        match candidates.last().1.workspace_conflict {
            Some(reason) => rest.push(reason),
            None => rest,
        }
    }
}

fn reason_is_known(reasons: &Vec<SkipReason>, id: &String) -> (r: bool)
    ensures
        r == has_workspace_conflict(reasons.deep_view(), id@),
{
    let wanted = skip(id, "workspace_conflict");
    let ghost view = reasons.deep_view();
    let mut i: usize = 0;
    while i < reasons.len()
        invariant
            i <= reasons@.len(),
            view == reasons.deep_view(),
            wanted.deep_view() == planning::reason_for(id@, "workspace_conflict"@),
            forall|j: int| 0 <= j < i ==> view[j] != wanted.deep_view(),
        decreases reasons@.len() - i,
    {
        assert(view[i as int] == reasons@[i as int].deep_view());
        if reasons[i].same_as(&wanted) {
            assert(view[i as int] == wanted.deep_view());
            return true;
        }
        i += 1;
    }
    false
}

fn rank_sessions(sessions: &Vec<EligibleSession>, sources: &OrderedSet<SourceProvider>) -> (r: Vec<
    (SessionOrder, RankedProjectionCandidate),
>)
    ensures
        r.deep_view() == session_candidates(sessions.deep_view(), sources.deep_view()),
{
    let ghost rows = sessions.deep_view();
    let mut out: Vec<(SessionOrder, RankedProjectionCandidate)> = Vec::new();
    let mut i: usize = 0;
    assert(out.deep_view() =~= session_candidates(rows.take(0), sources.deep_view()));
    while i < sessions.len()
        invariant
            i <= sessions@.len(),
            rows == sessions.deep_view(),
            out.deep_view() == session_candidates(rows.take(i as int), sources.deep_view()),
        decreases sessions@.len() - i,
    {
        let session = &sessions[i];
        let ghost before = out.deep_view();
        assert(rows[i as int] == session.deep_view());
        assert(rows.take(i + 1).drop_last() =~= rows.take(i as int));
        if sources.contains(&session.origin_provider) {
            let place = SessionOrder { updated_at: session.updated_at, id: session.id.copy_of() };
            let candidate = RankedProjectionCandidate {
                session: Some(session.copy_of()),
                workspace_conflict: None,
            };
            let ghost added = (place.deep_view(), candidate.deep_view());
            out.push((place, candidate));
            assert(out.deep_view() =~= before.push(added));
        }
        i += 1;
    }
    assert(rows.take(i as int) =~= rows);
    out
}

fn rank_conflicts(
    threads: &Vec<ThreadRow>,
    store: Option<&ProjectionStore>,
    reasons: &Vec<SkipReason>,
    sources: &OrderedSet<SourceProvider>,
    out: &mut Vec<(SessionOrder, RankedProjectionCandidate)>,
)
    ensures
        final(out).deep_view() == old(out).deep_view() + conflict_candidates(
            threads.deep_view(),
            sessions::store_view(store),
            reasons.deep_view(),
            sources.deep_view(),
        ),
{
    let ghost rows = threads.deep_view();
    let ghost known = sessions::store_view(store);
    let ghost start = out.deep_view();
    let mut i: usize = 0;
    assert(start + conflict_candidates(
        rows.take(0),
        known,
        reasons.deep_view(),
        sources.deep_view(),
    ) =~= start);
    while i < threads.len()
        invariant
            i <= threads@.len(),
            rows == threads.deep_view(),
            known == sessions::store_view(store),
            out.deep_view() == start + conflict_candidates(
                rows.take(i as int),
                known,
                reasons.deep_view(),
                sources.deep_view(),
            ),
        decreases threads@.len() - i,
    {
        let thread = &threads[i];
        let ghost before = out.deep_view();
        assert(rows[i as int] == thread.deep_view());
        assert(rows.take(i + 1).drop_last() =~= rows.take(i as int));
        if reason_is_known(reasons, &thread.id) {
            match source_provider(thread.provider.as_str()) {
                Some(own) => {
                    let origin = match store {
                        Some(store) => match store.threads.get(&thread.id) {
                            Some(record) => record.origin_provider.copy_of(),
                            None => own,
                        },
                        None => own,
                    };
                    if sources.contains(&origin) {
                        let place = SessionOrder {
                            updated_at: thread.updated_at,
                            id: thread.id.copy_of(),
                        };
                        let candidate = RankedProjectionCandidate {
                            session: None,
                            workspace_conflict: Some(skip(&thread.id, "workspace_conflict")),
                        };
                        let ghost added = (place.deep_view(), candidate.deep_view());
                        out.push((place, candidate));
                        assert(out.deep_view() =~= before.push(added));
                    }
                },
                None => {},
            }
        }
        assert(out.deep_view() =~= start + conflict_candidates(
            rows.take(i + 1),
            known,
            reasons.deep_view(),
            sources.deep_view(),
        ));
        i += 1;
    }
    assert(rows.take(i as int) =~= rows);
}

/// The sessions in scope, in the order in which a plan takes them, and the workspace conflicts in
/// scope.
pub fn scoped_projection_sessions(
    snapshot: &Snapshot,
    store: Option<&ProjectionStore>,
    sessions: &Vec<EligibleSession>,
    skipped_reasons: &Vec<SkipReason>,
    selected: &OrderedSet<SourceProvider>,
    target: SourceProvider,
    _scope: ProjectionScope,
) -> (r: (Vec<EligibleSession>, Vec<SkipReason>))
    ensures
        ({
            let all = candidates(
                snapshot.deep_view(),
                sessions::store_view(store),
                sessions.deep_view(),
                skipped_reasons.deep_view(),
                selected.deep_view().insert(target.deep_view()),
            );
            &&& r.0.deep_view() == candidate_sessions(all)
            &&& r.1.deep_view() == planning::reasons_in_order(candidate_conflicts(all))
        }),
{
    let mut sources = selected.copy_of();
    sources.insert(target);
    let mut placed = rank_sessions(sessions, &sources);
    rank_conflicts(&snapshot.threads, store, skipped_reasons, &sources, &mut placed);
    let sorted = sort_pairs(placed);
    let ghost all = sorted.deep_view();
    let mut scoped_sessions: Vec<EligibleSession> = Vec::new();
    let mut scoped_conflicts: Vec<SkipReason> = Vec::new();
    let mut i: usize = 0;
    assert(scoped_sessions.deep_view() =~= candidate_sessions(all.take(0)));
    assert(scoped_conflicts.deep_view() =~= candidate_conflicts(all.take(0)));
    while i < sorted.len()
        invariant
            i <= sorted@.len(),
            all == sorted.deep_view(),
            scoped_sessions.deep_view() == candidate_sessions(all.take(i as int)),
            scoped_conflicts.deep_view() == candidate_conflicts(all.take(i as int)),
        decreases sorted@.len() - i,
    {
        let candidate = &sorted[i].1;
        let ghost before = scoped_sessions.deep_view();
        let ghost reasons = scoped_conflicts.deep_view();
        assert(all[i as int].1 == candidate.deep_view());
        assert(all.take(i + 1).drop_last() =~= all.take(i as int));
        match &candidate.session {
            Some(session) => {
                scoped_sessions.push(session.copy_of());
                assert(scoped_sessions.deep_view() =~= before.push(session.deep_view()));
            },
            None => {},
        }
        match &candidate.workspace_conflict {
            Some(reason) => {
                scoped_conflicts.push(reason.copy_of());
                assert(scoped_conflicts.deep_view() =~= reasons.push(reason.deep_view()));
            },
            None => {},
        }
        i += 1;
    }
    assert(all.take(i as int) =~= all);
    sort_reasons(&mut scoped_conflicts);
    (scoped_sessions, scoped_conflicts)
}

/// The ids of a selection, without white space at their ends and without blank ones.
pub open spec fn selection(ids: Seq<Seq<char>>) -> Set<Seq<char>> {
    Set::new(
        |id: Seq<char>|
            id.len() > 0 && exists|i: int|
                0 <= i < ids.len() && text::trimmed(#[trigger] ids[i]) == id,
    )
}

/// A selection that may be absent.
pub open spec fn selection_of(ids: Option<&Vec<String>>) -> Option<Set<Seq<char>>> {
    match ids {
        Some(ids) => Some(selection(ids.deep_view())),
        None => None,
    }
}

/// Cleans a selection of threads up: no white space at the ends, no blank ids.
pub fn selected_thread_filter(selected_thread_ids: Option<&Vec<String>>) -> (r: Option<
    OrderedSet<String>,
>)
    ensures
        r.deep_view() == selection_of(selected_thread_ids),
{
    let ids = match selected_thread_ids {
        Some(ids) => ids,
        None => {
            return None;
        },
    };
    let ghost view = ids.deep_view();
    let mut out: OrderedSet<String> = OrderedSet::new();
    let mut i: usize = 0;
    assert(out.deep_view() =~= selection(view.take(0)));
    while i < ids.len()
        invariant
            i <= ids@.len(),
            view == ids.deep_view(),
            out.deep_view() == selection(view.take(i as int)),
        decreases ids@.len() - i,
    {
        assert(view[i as int] == ids@[i as int]@);
        let id = trim(ids[i].as_str());
        let ghost added = id@;
        let ghost before = out.deep_view();
        if id.as_str().unicode_len() > 0 {
            out.insert(id);
        }
        proof {
            let now = view.take(i + 1);
            let earlier = view.take(i as int);
            assert forall|x: Seq<char>| out.deep_view().contains(x) <==> selection(now).contains(
                x,
            ) by {
                if selection(earlier).contains(x) {
                    let j = choose|j: int|
                        0 <= j < earlier.len() && text::trimmed(#[trigger] earlier[j]) == x;
                    assert(now[j] == earlier[j]);
                }
                if x.len() > 0 && x == added {
                    assert(text::trimmed(now[i as int]) == x);
                }
                if selection(now).contains(x) {
                    let j = choose|j: int|
                        0 <= j < now.len() && text::trimmed(#[trigger] now[j]) == x;
                    if j < i {
                        assert(earlier[j] == now[j]);
                    }
                }
            }
            assert(out.deep_view() =~= selection(now));
        }
        i += 1;
    }
    assert(view.take(i as int) =~= view);
    Some(out)
}

/// The sessions that are selected; all of them where there is no selection.
pub open spec fn chosen_sessions(
    sessions: Seq<EligibleSessionView>,
    selected: Option<Set<Seq<char>>>,
) -> Seq<EligibleSessionView> {
    match selected {
        Some(ids) => planning::kept(
            sessions,
            |session: EligibleSessionView| ids.contains(session.id),
        ),
        None => sessions,
    }
}

/// The reasons for selected threads; all of them where there is no selection.
pub open spec fn chosen_reasons(
    reasons: Seq<SkipReasonView>,
    selected: Option<Set<Seq<char>>>,
) -> Seq<SkipReasonView> {
    match selected {
        Some(ids) => planning::kept_reasons(reasons, ids, false),
        None => reasons,
    }
}

fn choose_sessions(
    sessions: Vec<EligibleSession>,
    selected: Option<&OrderedSet<String>>,
) -> (r: Vec<EligibleSession>)
    ensures
        r.deep_view() == chosen_sessions(
            sessions.deep_view(),
            reconciliation::set_view(selected),
        ),
{
    let ids = match selected {
        Some(ids) => ids,
        None => {
            return sessions;
        },
    };
    let ghost rows = sessions.deep_view();
    let ghost keep = |session: EligibleSessionView| ids.deep_view().contains(session.id);
    let mut out: Vec<EligibleSession> = Vec::new();
    let mut i: usize = 0;
    assert(out.deep_view() =~= planning::kept(rows.take(0), keep));
    while i < sessions.len()
        invariant
            i <= sessions@.len(),
            rows == sessions.deep_view(),
            keep == (|session: EligibleSessionView| ids.deep_view().contains(session.id)),
            out.deep_view() == planning::kept(rows.take(i as int), keep),
        decreases sessions@.len() - i,
    {
        let ghost before = out.deep_view();
        assert(rows[i as int] == sessions@[i as int].deep_view());
        assert(rows.take(i + 1).drop_last() =~= rows.take(i as int));
        if ids.contains(&sessions[i].id) {
            out.push(sessions[i].copy_of());
            assert(out.deep_view() =~= before.push(rows[i as int]));
        }
        i += 1;
    }
    assert(rows.take(i as int) =~= rows);
    out
}

/// The origins of sessions, and the target.
pub open spec fn sources_of(
    sessions: Seq<EligibleSessionView>,
    target: SourceProviderView,
) -> Set<SourceProviderView> {
    Set::new(
        |source: SourceProviderView|
            source == target || exists|i: int|
                0 <= i < sessions.len() && (#[trigger] sessions[i]).origin_provider == source,
    )
}

fn collect_sources(sessions: &Vec<EligibleSession>, target: &SourceProvider) -> (r: OrderedSet<
    SourceProvider,
>)
    ensures
        r.deep_view() == sources_of(sessions.deep_view(), target.deep_view()),
{
    let ghost rows = sessions.deep_view();
    let mut out: OrderedSet<SourceProvider> = OrderedSet::new();
    out.insert(target.copy_of());
    let mut i: usize = 0;
    assert(out.deep_view() =~= sources_of(rows.take(0), target.deep_view()));
    while i < sessions.len()
        invariant
            i <= sessions@.len(),
            rows == sessions.deep_view(),
            out.deep_view() == sources_of(rows.take(i as int), target.deep_view()),
        decreases sessions@.len() - i,
    {
        assert(rows[i as int] == sessions@[i as int].deep_view());
        out.insert(sessions[i].origin_provider.copy_of());
        proof {
            let now = rows.take(i + 1);
            let earlier = rows.take(i as int);
            assert forall|x: SourceProviderView| out.deep_view().contains(x) <==> sources_of(
                now,
                target.deep_view(),
            ).contains(x) by {
                if sources_of(earlier, target.deep_view()).contains(x) && x != target.deep_view() {
                    let j = choose|j: int|
                        0 <= j < earlier.len() && (#[trigger] earlier[j]).origin_provider == x;
                    assert(now[j] == earlier[j]);
                }
                if x == rows[i as int].origin_provider {
                    assert(now[i as int].origin_provider == x);
                }
                if sources_of(now, target.deep_view()).contains(x) && x != target.deep_view() {
                    let j = choose|j: int|
                        0 <= j < now.len() && (#[trigger] now[j]).origin_provider == x;
                    if j < i {
                        assert(earlier[j] == now[j]);
                    }
                }
            }
            assert(out.deep_view() =~= sources_of(now, target.deep_view()));
        }
        i += 1;
    }
    assert(rows.take(i as int) =~= rows);
    out
}

/// How many sessions came from a provider.
pub open spec fn source_count(sessions: Seq<EligibleSessionView>, id: Seq<char>) -> nat
    decreases sessions.len(),
{
    if sessions.len() == 0 {
        0
    } else {
        source_count(sessions.drop_last(), id) + (if projection::provider_id(
            sessions.last().origin_provider,
        ) == id {
            1nat
        } else {
            0nat
        })
    }
}

/// The map counts the sessions of every provider that has some.
pub open spec fn counts_sources(
    counts: Map<Seq<char>, usize>,
    sessions: Seq<EligibleSessionView>,
) -> bool {
    forall|id: Seq<char>|
        (#[trigger] counts.dom().contains(id) <==> source_count(sessions, id) > 0) && (
        counts.dom().contains(id) ==> counts[id] == source_count(sessions, id))
}

proof fn lemma_source_count(sessions: Seq<EligibleSessionView>, id: Seq<char>)
    ensures
        source_count(sessions, id) <= sessions.len(),
    decreases sessions.len(),
{
    if sessions.len() > 0 {
        lemma_source_count(sessions.drop_last(), id);
    }
}

fn count_sources(sessions: &Vec<EligibleSession>) -> (r: OrderedMap<String, usize>)
    ensures
        counts_sources(r.deep_view(), sessions.deep_view()),
{
    let ghost rows = sessions.deep_view();
    let mut out: OrderedMap<String, usize> = OrderedMap::new();
    let mut i: usize = 0;
    assert(counts_sources(out.deep_view(), rows.take(0)));
    while i < sessions.len()
        invariant
            i <= sessions@.len(),
            rows == sessions.deep_view(),
            counts_sources(out.deep_view(), rows.take(i as int)),
        decreases sessions@.len() - i,
    {
        let ghost before = out.deep_view();
        let id = sessions[i].origin_provider.as_str().to_owned();
        proof {
            assert(rows[i as int] == sessions@[i as int].deep_view());
            assert(rows.take(i + 1).drop_last() =~= rows.take(i as int));
            assert(rows.take(i + 1).last() == rows[i as int]);
            lemma_source_count(rows.take(i as int), id@);
            assert(before.dom().contains(id@) <==> source_count(rows.take(i as int), id@) > 0);
        }
        let known: usize = match out.get(&id) {
            Some(count) => *count,
            None => 0,
        };
        let ghost key = id@;
        out.insert(id, known + 1);
        assert forall|x: Seq<char>|
            (#[trigger] out.deep_view().dom().contains(x) <==> source_count(rows.take(i + 1), x)
                > 0) && (out.deep_view().dom().contains(x) ==> out.deep_view()[x] == source_count(
                rows.take(i + 1),
                x,
            )) by {
            assert(before.dom().contains(x) <==> source_count(rows.take(i as int), x) > 0);
        }
        i += 1;
    }
    assert(rows.take(i as int) =~= rows);
    out
}

/// A reason that speaks of undoing a projection.
pub open spec fn undo_reason(reason: SkipReasonView) -> bool {
    text::has_prefix(reason.reason, "projection_reconcile_"@)
}

fn collect_undo_reasons(reasons: &Vec<SkipReason>) -> (r: Vec<SkipReason>)
    ensures
        r.deep_view() == planning::kept(
            reasons.deep_view(),
            |reason: SkipReasonView| undo_reason(reason),
        ),
{
    let ghost rows = reasons.deep_view();
    let ghost keep = |reason: SkipReasonView| undo_reason(reason);
    let mut out: Vec<SkipReason> = Vec::new();
    let mut i: usize = 0;
    assert(out.deep_view() =~= planning::kept(rows.take(0), keep));
    while i < reasons.len()
        invariant
            i <= reasons@.len(),
            rows == reasons.deep_view(),
            keep == (|reason: SkipReasonView| undo_reason(reason)),
            out.deep_view() == planning::kept(rows.take(i as int), keep),
        decreases reasons@.len() - i,
    {
        let ghost before = out.deep_view();
        assert(rows[i as int] == reasons@[i as int].deep_view());
        assert(rows.take(i + 1).drop_last() =~= rows.take(i as int));
        if starts_with(reasons[i].reason.as_str(), "projection_reconcile_") {
            out.push(reasons[i].copy_of());
            assert(out.deep_view() =~= before.push(rows[i as int]));
        }
        i += 1;
    }
    assert(rows.take(i as int) =~= rows);
    out
}

/// What a preview is made of.
pub struct PreviewBasis {
    /// The selected sessions that a repair may touch.
    pub sessions: Seq<EligibleSessionView>,
    /// Why it may not touch the other selected ones.
    pub reasons: Seq<SkipReasonView>,
    /// The providers that the sessions came from, and the target.
    pub sources: Set<SourceProviderView>,
    /// The sessions in the order in which the plan takes them.
    pub scoped: Seq<EligibleSessionView>,
    /// The workspace conflicts in scope.
    pub conflicts: Seq<SkipReasonView>,
}

/// What a preview is made of.
pub open spec fn preview_basis(
    snapshot: SnapshotView,
    store: Option<ProjectionStoreView>,
    excluded: Set<Seq<char>>,
    target: SourceProviderView,
    selected: Option<Set<Seq<char>>>,
) -> PreviewBasis {
    let backed = sessions::backed_threads(snapshot, sessions::rollout_ids(snapshot));
    let chosen = chosen_sessions(
        eligible_sessions(snapshot, store, excluded, target, backed),
        selected,
    );
    let reasons = chosen_reasons(
        planning::reasons_in_order(ineligible_reasons(snapshot, excluded, backed)),
        selected,
    );
    let sources = sources_of(chosen, target);
    let all = candidates(snapshot, store, chosen, reasons, sources.insert(target));
    PreviewBasis {
        sessions: chosen,
        reasons,
        sources,
        scoped: candidate_sessions(all),
        conflicts: planning::reasons_in_order(candidate_conflicts(all)),
    }
}

/// The preview of a repair towards a target.
pub open spec fn is_preview(
    result: ProjectionPreviewResultView,
    snapshot: SnapshotView,
    store: Option<ProjectionStoreView>,
    basis: PreviewBasis,
    target: Seq<char>,
    scope: ProjectionScope,
) -> bool {
    let plan = planning::limited_plan(
        planning::full_plan(snapshot, target),
        planning::planned_ids(result.plan.sessions),
    );
    let undo = planning::kept(plan.skipped, |reason: SkipReasonView| undo_reason(reason));
    &&& projection::is_plan_for(
        result.plan,
        basis.scoped,
        basis.sources,
        projection::provider_of(target),
        scope,
    )
    &&& result.plan_token == token::plan_token(
        result.plan,
        plan,
        Set::empty(),
        store,
        basis.conflicts,
    )
    &&& result.changed_threads == ordered::listed::<String>(plan.changed_ids).len()
    &&& result.rollout_updates == plan.rollout_updates.len()
    &&& counts_sources(result.source_counts, basis.sessions)
    &&& result.reconcile_pending == 0
    &&& result.reconcile_conflicts == undo.len()
    &&& result.reconcile_reasons == undo
    &&& result.workspace_hint_updates == plan.workspace_hint_updates.len()
    &&& result.workspace_conflicts == basis.conflicts.len()
    &&& result.workspace_conflict_reasons == basis.conflicts
    &&& result.skipped == basis.reasons.len()
    &&& result.skipped_reasons == basis.reasons
}

/// Why there is no preview.
pub open spec fn preview_fault(target: Seq<char>, basis: PreviewBasis) -> Option<Seq<char>> {
    let repeated = projection::repeated_from(projection::session_ids(basis.scoped), 0);
    if !providers::safe_id(target) {
        Some("invalid provider id: "@ + target)
    } else if repeated is Some {
        Some(
            projection::error_message(ProjectionErrorView::DuplicateSessionId(repeated->0)),
        )
    } else {
        None
    }
}

/// The outcome of previewing a repair.
pub open spec fn preview_outcome(
    r: Result<ProjectionPreviewResultView, Seq<char>>,
    snapshot: SnapshotView,
    store: Option<ProjectionStoreView>,
    basis: PreviewBasis,
    target: Seq<char>,
    scope: ProjectionScope,
) -> bool {
    match r {
        Ok(result) => preview_fault(target, basis) is None && is_preview(
            result,
            snapshot,
            store,
            basis,
            target,
            scope,
        ) && projection::plan_fault(result.plan) is None,
        Err(message) => preview_fault(target, basis) == Some(message),
    }
}

/// A preview with the sessions that it is made of.
pub open spec fn preview_part(
    r: Result<(ProjectionPreviewResult, Vec<EligibleSession>), String>,
) -> Result<ProjectionPreviewResultView, Seq<char>> {
    match r {
        Ok(both) => Ok(both.0.deep_view()),
        Err(message) => Err(message@),
    }
}

/// Previews a repair towards a target, given the cohorts: what the plan for the selected sessions
/// says, and the sessions. Every provider that a session came from counts as selected, whatever
/// the given sources are.
pub fn projection_preview_for_snapshot_with_cohorts(
    snapshot: &Snapshot,
    store: Option<&ProjectionStore>,
    _selected_sources: &Vec<String>,
    target_provider: &str,
    scope: ProjectionScope,
    selected_thread_ids: Option<&OrderedSet<String>>,
    cohorts: &SessionCohorts,
) -> (r: Result<(ProjectionPreviewResult, Vec<EligibleSession>), String>)
    requires
        records::consistent(snapshot.deep_view()),
    ensures
        ({
            let basis = preview_basis(
                snapshot.deep_view(),
                sessions::store_view(store),
                cohorts.remote_excluded_thread_ids.deep_view(),
                projection::provider_of(target_provider@),
                reconciliation::set_view(selected_thread_ids),
            );
            &&& preview_outcome(
                preview_part(r),
                snapshot.deep_view(),
                sessions::store_view(store),
                basis,
                target_provider@,
                scope,
            )
            &&& r is Ok ==> r->Ok_0.1.deep_view() == basis.sessions
        }),
{
    let target_id = match validate_provider(target_provider) {
        Ok(id) => id,
        Err(message) => {
            return Err(message);
        },
    };
    let target = match source_provider(target_id.as_str()) {
        Some(target) => target,
        None => {
            return Err("invalid target provider id".to_owned());
        },
    };
    let (eligible, ineligible) = eligible_projection_sessions_with_cohorts(
        snapshot,
        store,
        &target,
        cohorts,
    );
    let sessions = choose_sessions(eligible, selected_thread_ids);
    let skipped_reasons = match selected_thread_ids {
        Some(ids) => keep_reasons(&ineligible, ids, false),
        None => ineligible,
    };
    let selected = collect_sources(&sessions, &target);
    let source_counts = count_sources(&sessions);
    let (scoped_sessions, workspace_conflict_reasons) = scoped_projection_sessions(
        snapshot,
        store,
        &sessions,
        &skipped_reasons,
        &selected,
        target.copy_of(),
        scope,
    );
    let plan = match build_provider_plan_preview(&scoped_sessions, &selected, target, scope) {
        Ok(plan) => plan,
        Err(error) => {
            return Err(error.message());
        },
    };
    let repair_plan = build_plan_for_preview(snapshot, target_id.as_str(), &plan);
    let reconciled: OrderedSet<String> = OrderedSet::new();
    let reconcile_reasons = collect_undo_reasons(&repair_plan.skipped);
    let plan_token = projection_plan_token(
        &plan,
        &repair_plan,
        &reconciled,
        store,
        &workspace_conflict_reasons,
    );
    let result = ProjectionPreviewResult {
        plan,
        plan_token,
        changed_threads: repair_plan.changed_ids.len(),
        rollout_updates: repair_plan.rollout_updates.len(),
        source_counts,
        reconcile_pending: 0,
        reconcile_conflicts: reconcile_reasons.len(),
        reconcile_reasons,
        workspace_hint_updates: repair_plan.workspace_hint_updates.len(),
        workspace_conflicts: workspace_conflict_reasons.len(),
        workspace_conflict_reasons,
        skipped: skipped_reasons.len(),
        skipped_reasons,
    };
    Ok((result, sessions))
}

/// Previews a repair towards a target: what the plan for the selected sessions says, and the
/// sessions.
pub fn projection_preview_for_snapshot(
    snapshot: &Snapshot,
    store: Option<&ProjectionStore>,
    selected_sources: &Vec<String>,
    target_provider: &str,
    scope: ProjectionScope,
    selected_thread_ids: Option<&OrderedSet<String>>,
) -> (r: Result<(ProjectionPreviewResult, Vec<EligibleSession>), String>)
    requires
        records::consistent(snapshot.deep_view()),
    ensures
        ({
            let basis = preview_basis(
                snapshot.deep_view(),
                sessions::store_view(store),
                sessions::remote_ids(snapshot.deep_view()),
                projection::provider_of(target_provider@),
                reconciliation::set_view(selected_thread_ids),
            );
            &&& preview_outcome(
                preview_part(r),
                snapshot.deep_view(),
                sessions::store_view(store),
                basis,
                target_provider@,
                scope,
            )
            &&& r is Ok ==> r->Ok_0.1.deep_view() == basis.sessions
        }),
{
    let cohorts = session_cohorts(snapshot);
    projection_preview_for_snapshot_with_cohorts(
        snapshot,
        store,
        selected_sources,
        target_provider,
        scope,
        selected_thread_ids,
        &cohorts,
    )
}

/// The outcome of previewing a repair towards the provider that the configuration names.
pub open spec fn configured_preview(
    r: Result<ProjectionPreviewResult, String>,
    config: Option<Seq<char>>,
    snapshot: SnapshotView,
    store: Option<ProjectionStoreView>,
    target: Seq<char>,
    scope: ProjectionScope,
    selected: Option<Set<Seq<char>>>,
) -> bool {
    match providers::target_check(providers::configured_provider(config), target) {
        Err(message) => r is Err && r->Err_0@ == message,
        Ok(_) => preview_outcome(
            match r {
                Ok(result) => Ok(result.deep_view()),
                Err(message) => Err(message@),
            },
            snapshot,
            store,
            preview_basis(
                snapshot,
                store,
                sessions::remote_ids(snapshot),
                projection::provider_of(target),
                selected,
            ),
            target,
            scope,
        ),
    }
}

/// Previews the repair of the selected sessions, or of all where there is no selection, towards
/// the provider that the configuration names.
pub fn preview_projection_selected_at(
    config: &Option<String>,
    snapshot: &Snapshot,
    store: Option<&ProjectionStore>,
    selected_sources: &Vec<String>,
    target_provider: &str,
    scope: ProjectionScope,
    selected_thread_ids: Option<&Vec<String>>,
) -> (r: Result<ProjectionPreviewResult, String>)
    requires
        records::consistent(snapshot.deep_view()),
    ensures
        configured_preview(
            r,
            config.deep_view(),
            snapshot.deep_view(),
            sessions::store_view(store),
            target_provider@,
            scope,
            selection_of(selected_thread_ids),
        ),
{
    let target = match validate_current_target_provider(config, target_provider) {
        Ok(target) => target,
        Err(message) => {
            return Err(message);
        },
    };
    let selected = selected_thread_filter(selected_thread_ids);
    let outcome = match &selected {
        Some(ids) => projection_preview_for_snapshot(
            snapshot,
            store,
            selected_sources,
            target.as_str(),
            scope,
            Some(ids),
        ),
        None => projection_preview_for_snapshot(
            snapshot,
            store,
            selected_sources,
            target.as_str(),
            scope,
            None,
        ),
    };
    match outcome {
        Ok((result, _)) => Ok(result),
        Err(message) => Err(message),
    }
}

/// Previews the repair of all sessions towards the provider that the configuration names.
pub fn preview_projection_at(
    config: &Option<String>,
    snapshot: &Snapshot,
    store: Option<&ProjectionStore>,
    selected_sources: &Vec<String>,
    target_provider: &str,
    scope: ProjectionScope,
) -> (r: Result<ProjectionPreviewResult, String>)
    requires
        records::consistent(snapshot.deep_view()),
    ensures
        configured_preview(
            r,
            config.deep_view(),
            snapshot.deep_view(),
            sessions::store_view(store),
            target_provider@,
            scope,
            None,
        ),
{
    preview_projection_selected_at(
        config,
        snapshot,
        store,
        selected_sources,
        target_provider,
        scope,
        None,
    )
}

/// A preview shows no session outside the selection.
pub proof fn law_preview_stays_in_the_selection(
    sessions: Seq<EligibleSessionView>,
    ids: Set<Seq<char>>,
)
    ensures
        forall|i: int|
            0 <= i < chosen_sessions(sessions, Some(ids)).len() ==> ids.contains(
                (#[trigger] chosen_sessions(sessions, Some(ids))[i]).id,
            ),
    decreases sessions.len(),
{
    if sessions.len() > 0 {
        law_preview_stays_in_the_selection(sessions.drop_last(), ids);
    }
}

/// An empty selection shows no session: it does not mean all of them.
pub proof fn law_empty_selection_is_empty(sessions: Seq<EligibleSessionView>)
    ensures
        chosen_sessions(sessions, Some(Set::empty())).len() == 0,
    decreases sessions.len(),
{
    if sessions.len() > 0 {
        law_empty_selection_is_empty(sessions.drop_last());
    }
}

/// A preview shows no session that a record marks as remote.
pub proof fn law_preview_shows_no_remote_session(
    snapshot: SnapshotView,
    store: Option<ProjectionStoreView>,
    excluded: Set<Seq<char>>,
    target: SourceProviderView,
    backed: Seq<BackedThreadView>,
)
    ensures
        forall|i: int|
            0 <= i < eligible_sessions(snapshot, store, excluded, target, backed).len()
                ==> !excluded.contains(
                (#[trigger] eligible_sessions(snapshot, store, excluded, target, backed)[i]).id,
            ),
    decreases backed.len(),
{
    if backed.len() > 0 {
        law_preview_shows_no_remote_session(snapshot, store, excluded, target, backed.drop_last());
    }
}

/// The ids of sessions are distinct.
pub open spec fn distinct_ids(sessions: Seq<EligibleSessionView>) -> bool {
    forall|i: int, j: int|
        0 <= i < j < sessions.len() ==> (#[trigger] sessions[i]).id != (#[trigger] sessions[j]).id
}

proof fn lemma_distinct_ids(sessions: Seq<EligibleSessionView>)
    ensures
        distinct_ids(sessions) <==> projection::session_ids(sessions).no_duplicates(),
        distinct_ids(sessions) <==> projection::repeated_from(
            projection::session_ids(sessions),
            0,
        ) is None,
{
    let ids = projection::session_ids(sessions);
    if distinct_ids(sessions) {
        assert forall|i: int, j: int|
            0 <= i < ids.len() && 0 <= j < ids.len() && i != j implies ids[i] != ids[j] by {
            if i < j {
                assert(sessions[i].id != sessions[j].id);
            } else {
                assert(sessions[j].id != sessions[i].id);
            }
        }
        projection::lemma_distinct_no_repeat(ids, 0);
    }
    if projection::repeated_from(ids, 0) is None {
        projection::lemma_no_repeat(ids, 0);
        assert forall|i: int, j: int| 0 <= i < j < sessions.len() implies (
        #[trigger] sessions[i]).id != (#[trigger] sessions[j]).id by {
            assert(ids[i] != ids[j]);
        }
    }
    if ids.no_duplicates() {
        assert forall|i: int, j: int| 0 <= i < j < sessions.len() implies (
        #[trigger] sessions[i]).id != (#[trigger] sessions[j]).id by {
            assert(ids[i] != ids[j]);
        }
    }
}

/// The sessions among candidates have distinct ids.
spec fn distinct_candidates(
    candidates: Seq<(SessionOrderView, RankedProjectionCandidateView)>,
) -> bool {
    forall|i: int, j: int|
        0 <= i < j < candidates.len() && (#[trigger] candidates[i]).1.session is Some && (
        #[trigger] candidates[j]).1.session is Some ==> candidates[i].1.session->0.id
            != candidates[j].1.session->0.id
}

proof fn lemma_candidate_members(
    candidates: Seq<(SessionOrderView, RankedProjectionCandidateView)>,
    session: EligibleSessionView,
)
    ensures
        candidate_sessions(candidates).contains(session) <==> exists|i: int|
            0 <= i < candidates.len() && (#[trigger] candidates[i]).1.session == Some(session),
    decreases candidates.len(),
{
    if candidates.len() > 0 {
        let front = candidates.drop_last();
        let rest = candidate_sessions(front);
        lemma_candidate_members(front, session);
        if candidates.last().1.session is Some {
            sessions::lemma_push_contains(rest, candidates.last().1.session->0, session);
        }
        if rest.contains(session) {
            let i = choose|i: int|
                0 <= i < front.len() && (#[trigger] front[i]).1.session == Some(session);
            assert(candidates[i] == front[i]);
        }
        if candidates.last().1.session == Some(session) {
            assert(candidates[candidates.len() - 1].1.session == Some(session));
        }
        if exists|i: int|
            0 <= i < candidates.len() && (#[trigger] candidates[i]).1.session == Some(session) {
            let i = choose|i: int|
                0 <= i < candidates.len() && (#[trigger] candidates[i]).1.session == Some(session);
            if i < front.len() {
                assert(front[i].1.session == Some(session));
            }
        }
    }
}

proof fn lemma_candidate_ids(candidates: Seq<(SessionOrderView, RankedProjectionCandidateView)>)
    ensures
        distinct_ids(candidate_sessions(candidates)) <==> distinct_candidates(candidates),
    decreases candidates.len(),
{
    if candidates.len() > 0 {
        let front = candidates.drop_last();
        let last = candidates.last();
        let rest = candidate_sessions(front);
        let all = candidate_sessions(candidates);
        lemma_candidate_ids(front);
        if distinct_ids(all) {
            assert forall|i: int, j: int| 0 <= i < j < rest.len() implies (#[trigger] rest[i]).id
                != (#[trigger] rest[j]).id by {
                assert(all[i] == rest[i] && all[j] == rest[j]);
            }
            assert forall|i: int, j: int|
                0 <= i < j < candidates.len() && (#[trigger] candidates[i]).1.session is Some && (
                #[trigger] candidates[j]).1.session is Some implies candidates[i].1.session->0.id
                != candidates[j].1.session->0.id by {
                assert(candidates[i] == front[i]);
                if j < front.len() {
                    assert(candidates[j] == front[j]);
                } else {
                    let session = candidates[i].1.session->0;
                    lemma_candidate_members(front, session);
                    assert(front[i].1.session == Some(session));
                    let m = choose|m: int| 0 <= m < rest.len() && rest[m] == session;
                    assert(all[m] == rest[m]);
                    assert(all[rest.len() as int] == last.1.session->0);
                }
            }
        }
        if distinct_candidates(candidates) {
            assert forall|i: int, j: int|
                0 <= i < j < front.len() && (#[trigger] front[i]).1.session is Some && (
                #[trigger] front[j]).1.session is Some implies front[i].1.session->0.id
                != front[j].1.session->0.id by {
                assert(candidates[i] == front[i] && candidates[j] == front[j]);
            }
            assert forall|i: int, j: int| 0 <= i < j < all.len() implies (#[trigger] all[i]).id
                != (#[trigger] all[j]).id by {
                assert(all[i] == rest[i]);
                if j < rest.len() {
                    assert(all[j] == rest[j]);
                } else {
                    lemma_candidate_members(front, rest[i]);
                    assert(rest.contains(rest[i]));
                    let k = choose|k: int|
                        0 <= k < front.len() && (#[trigger] front[k]).1.session == Some(rest[i]);
                    assert(candidates[k] == front[k]);
                    assert(candidates[candidates.len() - 1] == last);
                }
            }
        }
    }
}

proof fn lemma_distinct_carries(
    a: Seq<(SessionOrderView, RankedProjectionCandidateView)>,
    b: Seq<(SessionOrderView, RankedProjectionCandidateView)>,
)
    requires
        a.to_multiset() == b.to_multiset(),
        distinct_candidates(b),
    ensures
        distinct_candidates(a),
{
    a.to_multiset_ensures();
    b.to_multiset_ensures();
    assert forall|i: int, j: int|
        0 <= i < j < a.len() && (#[trigger] a[i]).1.session is Some && (
        #[trigger] a[j]).1.session is Some implies a[i].1.session->0.id != a[j].1.session->0.id by {
        assert(a.contains(a[i]) && a.contains(a[j]));
        assert(b.to_multiset().count(a[i]) > 0 && b.to_multiset().count(a[j]) > 0);
        assert(b.contains(a[i]) && b.contains(a[j]));
        if a[i] == a[j] {
            lemma_twice(a, i, j);
            lemma_count_twice(b, a[i]);
            let (k, l) = choose|k: int, l: int|
                0 <= k < l < b.len() && #[trigger] b[k] == a[i] && #[trigger] b[l] == a[i];
            assert(b[k].1.session->0.id != b[l].1.session->0.id);
        } else {
            let k = choose|k: int| 0 <= k < b.len() && b[k] == a[i];
            let l = choose|l: int| 0 <= l < b.len() && b[l] == a[j];
            if k < l {
                assert(b[k].1.session->0.id != b[l].1.session->0.id);
            } else {
                assert(b[l].1.session->0.id != b[k].1.session->0.id);
            }
        }
    }
}

proof fn lemma_twice<X>(items: Seq<X>, i: int, j: int)
    requires
        0 <= i < j < items.len(),
        items[i] == items[j],
    ensures
        items.to_multiset().count(items[i]) >= 2,
    decreases items.len(),
{
    broadcast use vstd::seq_lib::group_to_multiset_ensures;

    let front = items.drop_last();
    assert(items =~= front.push(items.last()));
    if j < front.len() {
        lemma_twice(front, i, j);
    } else {
        assert(front.contains(items[i])) by {
            assert(front[i] == items[i]);
        }
        assert(front.to_multiset().count(items[i]) > 0);
    }
}

proof fn lemma_count_twice<X>(items: Seq<X>, x: X)
    requires
        items.to_multiset().count(x) >= 2,
    ensures
        exists|k: int, l: int|
            0 <= k < l < items.len() && #[trigger] items[k] == x && #[trigger] items[l] == x,
    decreases items.len(),
{
    broadcast use vstd::seq_lib::group_to_multiset_ensures;

    if items.len() > 0 {
        let front = items.drop_last();
        assert(items =~= front.push(items.last()));
        if items.last() == x {
            assert(front.to_multiset().count(x) >= 1);
            assert(front.contains(x));
            let k = choose|k: int| 0 <= k < front.len() && front[k] == x;
            assert(items[k] == x && items[items.len() - 1] == x);
        } else {
            lemma_count_twice(front, x);
            let (k, l) = choose|k: int, l: int|
                0 <= k < l < front.len() && #[trigger] front[k] == x && #[trigger] front[l] == x;
            assert(items[k] == x && items[l] == x);
        }
    }
}

proof fn lemma_session_candidates(
    sessions: Seq<EligibleSessionView>,
    sources: Set<SourceProviderView>,
)
    requires
        forall|i: int|
            0 <= i < sessions.len() ==> sources.contains((#[trigger] sessions[i]).origin_provider),
    ensures
        session_candidates(sessions, sources) == sessions.map_values(
            |session: EligibleSessionView|
                ranked(session.id, session.updated_at, Some(session), None),
        ),
    decreases sessions.len(),
{
    let place = |session: EligibleSessionView|
        ranked(session.id, session.updated_at, Some(session), None);
    if sessions.len() > 0 {
        let front = sessions.drop_last();
        assert forall|i: int| 0 <= i < front.len() implies sources.contains(
            (#[trigger] front[i]).origin_provider,
        ) by {
            assert(front[i] == sessions[i]);
        }
        lemma_session_candidates(front, sources);
        assert(sessions[sessions.len() - 1] == sessions.last());
    }
    assert(session_candidates(sessions, sources) =~= sessions.map_values(place));
}

proof fn lemma_conflicts_are_no_sessions(
    threads: Seq<ThreadRowView>,
    store: Option<ProjectionStoreView>,
    reasons: Seq<SkipReasonView>,
    sources: Set<SourceProviderView>,
)
    ensures
        forall|i: int|
            0 <= i < conflict_candidates(threads, store, reasons, sources).len() ==> (
            #[trigger] conflict_candidates(threads, store, reasons, sources)[i]).1.session is None,
    decreases threads.len(),
{
    if threads.len() > 0 {
        lemma_conflicts_are_no_sessions(threads.drop_last(), store, reasons, sources);
    }
}

/// The sessions in scope of a preview are those that were chosen, in another order.
proof fn lemma_scoped(
    snapshot: SnapshotView,
    store: Option<ProjectionStoreView>,
    chosen: Seq<EligibleSessionView>,
    reasons: Seq<SkipReasonView>,
    target: SourceProviderView,
)
    ensures
        ({
            let sources = sources_of(chosen, target).insert(target);
            let scoped = candidate_sessions(
                candidates(snapshot, store, chosen, reasons, sources),
            );
            &&& distinct_ids(scoped) <==> distinct_ids(chosen)
            &&& forall|session: EligibleSessionView| #[trigger]
                scoped.contains(session) <==> chosen.contains(session)
        }),
{
    let sources = sources_of(chosen, target).insert(target);
    assert forall|i: int| 0 <= i < chosen.len() implies sources.contains(
        (#[trigger] chosen[i]).origin_provider,
    ) by {}
    lemma_session_candidates(chosen, sources);
    lemma_conflicts_are_no_sessions(snapshot.threads, store, reasons, sources);
    let own = session_candidates(chosen, sources);
    let conflicts = conflict_candidates(snapshot.threads, store, reasons, sources);
    let unsorted = own + conflicts;
    let sorted = candidates(snapshot, store, chosen, reasons, sources);
    let scoped = candidate_sessions(sorted);
    ordered::lemma_sorted_pairs::<SessionOrder, RankedProjectionCandidateView>(unsorted);
    lemma_candidate_ids(sorted);
    if distinct_ids(chosen) {
        assert forall|i: int, j: int|
            0 <= i < j < unsorted.len() && (#[trigger] unsorted[i]).1.session is Some && (
            #[trigger] unsorted[j]).1.session is Some implies unsorted[i].1.session->0.id
            != unsorted[j].1.session->0.id by {
            if j >= own.len() {
                assert(unsorted[j] == conflicts[j - own.len()]);
            } else {
                assert(unsorted[i] == own[i] && unsorted[j] == own[j]);
                assert(chosen[i].id != chosen[j].id);
            }
        }
        lemma_distinct_carries(sorted, unsorted);
    }
    if distinct_ids(scoped) {
        lemma_distinct_carries(unsorted, sorted);
        assert forall|i: int, j: int| 0 <= i < j < chosen.len() implies (#[trigger] chosen[i]).id
            != (#[trigger] chosen[j]).id by {
            assert(unsorted[i] == own[i] && unsorted[j] == own[j]);
            assert(unsorted[i].1.session == Some(chosen[i]));
            assert(unsorted[j].1.session == Some(chosen[j]));
        }
    }
    assert forall|session: EligibleSessionView| #[trigger]
        scoped.contains(session) <==> chosen.contains(session) by {
        lemma_candidate_members(sorted, session);
        if scoped.contains(session) {
            let i = choose|i: int|
                0 <= i < sorted.len() && (#[trigger] sorted[i]).1.session == Some(session);
            assert(unsorted.contains(sorted[i]));
            let k = choose|k: int| 0 <= k < unsorted.len() && unsorted[k] == sorted[i];
            if k >= own.len() {
                assert(unsorted[k] == conflicts[k - own.len()]);
            } else {
                assert(unsorted[k] == own[k]);
                assert(chosen[k] == session);
            }
        }
        if chosen.contains(session) {
            let k = choose|k: int| 0 <= k < chosen.len() && chosen[k] == session;
            assert(unsorted[k] == own[k]);
            ordered::lemma_sorted_holds::<SessionOrder, RankedProjectionCandidateView>(
                unsorted,
                unsorted[k],
            );
            assert(unsorted.contains(unsorted[k]));
            let i = choose|i: int| 0 <= i < sorted.len() && sorted[i] == unsorted[k];
            assert(sorted[i].1.session == Some(session));
        }
    }
}

/// The place of a planned session.
spec fn place_of(session: PlannedSessionView) -> SessionOrderView {
    SessionOrderView { updated_at: session.updated_at, id: session.thread_id }
}

/// Planned sessions stand in their order, and none twice.
spec fn well_placed(sessions: Seq<PlannedSessionView>) -> bool {
    forall|i: int, j: int|
        0 <= i < j < sessions.len() ==> SessionOrder::relation_of(
            place_of(#[trigger] sessions[i]),
            place_of(#[trigger] sessions[j]),
        ) == Relation::Less
}

proof fn lemma_well_placed_same(a: Seq<PlannedSessionView>, b: Seq<PlannedSessionView>)
    requires
        well_placed(a),
        well_placed(b),
        forall|session: PlannedSessionView| #[trigger] a.contains(session) <==> b.contains(session),
    ensures
        a == b,
{
    let x = a.map_values(|session: PlannedSessionView| place_of(session));
    let y = b.map_values(|session: PlannedSessionView| place_of(session));
    let set = x.to_set();
    assert forall|i: int, j: int| 0 <= i < j < x.len() implies SessionOrder::relation_of(
        #[trigger] x[i],
        #[trigger] x[j],
    ) == Relation::Less by {
        assert(x[i] == place_of(a[i]) && x[j] == place_of(a[j]));
    }
    assert forall|i: int, j: int| 0 <= i < j < y.len() implies SessionOrder::relation_of(
        #[trigger] y[i],
        #[trigger] y[j],
    ) == Relation::Less by {
        assert(y[i] == place_of(b[i]) && y[j] == place_of(b[j]));
    }
    assert forall|i: int| 0 <= i < y.len() implies set.contains(#[trigger] y[i]) by {
        assert(b.contains(b[i]));
        assert(a.contains(b[i]));
        let k = choose|k: int| 0 <= k < a.len() && a[k] == b[i];
        assert(x[k] == y[i]);
    }
    assert forall|key: SessionOrderView| #[trigger] set.contains(key) implies y.contains(key) by {
        let k = choose|k: int| 0 <= k < x.len() && x[k] == key;
        assert(a.contains(a[k]));
        assert(b.contains(a[k]));
        let i = choose|i: int| 0 <= i < b.len() && b[i] == a[k];
        assert(y[i] == key);
    }
    ordered::lemma_lists_unique::<SessionOrder>(x, y, set);
    assert forall|i: int| 0 <= i < a.len() implies a[i] == b[i] by {
        assert(x[i] == y[i]);
        assert(b.contains(b[i]));
        assert(a.contains(b[i]));
        let k = choose|k: int| 0 <= k < a.len() && a[k] == b[i];
        assert(place_of(a[k]) == place_of(a[i]));
        SessionOrder::order_total(place_of(a[k]), place_of(a[i]));
        SessionOrder::order_total(place_of(a[i]), place_of(a[k]));
        if k < i {
            assert(SessionOrder::relation_of(place_of(a[k]), place_of(a[i])) == Relation::Less);
        } else if i < k {
            assert(SessionOrder::relation_of(place_of(a[i]), place_of(a[k])) == Relation::Less);
        }
    }
    assert(x.len() == a.len() && y.len() == b.len());
    assert(a =~= b);
}

proof fn lemma_kept_well_placed(
    sessions: Seq<PlannedSessionView>,
    keep: spec_fn(PlannedSessionView) -> bool,
)
    requires
        well_placed(sessions),
    ensures
        well_placed(planning::kept(sessions, keep)),
        forall|session: PlannedSessionView| #[trigger]
            planning::kept(sessions, keep).contains(session) <==> sessions.contains(session)
                && keep(session),
    decreases sessions.len(),
{
    let kept = planning::kept(sessions, keep);
    if sessions.len() > 0 {
        let front = sessions.drop_last();
        let last = sessions.last();
        assert forall|i: int, j: int| 0 <= i < j < front.len() implies SessionOrder::relation_of(
            place_of(#[trigger] front[i]),
            place_of(#[trigger] front[j]),
        ) == Relation::Less by {
            assert(front[i] == sessions[i] && front[j] == sessions[j]);
        }
        lemma_kept_well_placed(front, keep);
        let rest = planning::kept(front, keep);
        assert(sessions =~= front.push(last));
        assert forall|session: PlannedSessionView| #[trigger]
            kept.contains(session) <==> sessions.contains(session) && keep(session) by {
            sessions::lemma_push_contains(front, last, session);
            sessions::lemma_push_contains(rest, last, session);
        }
        assert forall|i: int, j: int| 0 <= i < j < kept.len() implies SessionOrder::relation_of(
            place_of(#[trigger] kept[i]),
            place_of(#[trigger] kept[j]),
        ) == Relation::Less by {
            assert(kept[i] == rest[i]);
            if j < rest.len() {
                assert(kept[j] == rest[j]);
            } else {
                assert(rest.contains(rest[i]));
                assert(front.contains(rest[i]));
                let k = choose|k: int| 0 <= k < front.len() && front[k] == rest[i];
                assert(sessions[k] == rest[i]);
                assert(sessions[sessions.len() - 1] == last);
            }
        }
    }
}

/// The plan of a preview holds each chosen session once, in the order of a plan.
proof fn lemma_preview_plan(
    snapshot: SnapshotView,
    store: Option<ProjectionStoreView>,
    chosen: Seq<EligibleSessionView>,
    reasons: Seq<SkipReasonView>,
    target: SourceProviderView,
)
    requires
        distinct_ids(chosen),
    ensures
        ({
            let sources = sources_of(chosen, target);
            let scoped = candidate_sessions(
                candidates(snapshot, store, chosen, reasons, sources.insert(target)),
            );
            let planned = projection::planned_sessions(scoped, sources.insert(target), target);
            &&& well_placed(planned)
            &&& forall|p: PlannedSessionView| #[trigger]
                planned.contains(p) <==> exists|k: int|
                    0 <= k < chosen.len() && projection::planned_session(
                        #[trigger] chosen[k],
                        target,
                    ) == p
        }),
{
    let sources = sources_of(chosen, target).insert(target);
    let scoped = candidate_sessions(candidates(snapshot, store, chosen, reasons, sources));
    let planned = projection::planned_sessions(scoped, sources, target);
    lemma_scoped(snapshot, store, chosen, reasons, target);
    lemma_distinct_ids(scoped);
    projection::lemma_planned_sessions(scoped, sources, target);
    assert forall|i: int, j: int| 0 <= i < j < planned.len() implies SessionOrder::relation_of(
        place_of(#[trigger] planned[i]),
        place_of(#[trigger] planned[j]),
    ) == Relation::Less by {
        projection::law_plan_lists_latest_first(scoped, sources, target, i, j);
        text::lemma_relation(planned[i].thread_id, planned[j].thread_id);
        text::lemma_relation(planned[j].thread_id, planned[i].thread_id);
    }
    assert forall|p: PlannedSessionView| #[trigger]
        planned.contains(p) <==> exists|k: int|
            0 <= k < chosen.len() && projection::planned_session(#[trigger] chosen[k], target)
                == p by {
        if planned.contains(p) {
            let i = choose|i: int| 0 <= i < planned.len() && planned[i] == p;
            let m = choose|m: int|
                0 <= m < scoped.len() && projection::planned_session(#[trigger] scoped[m], target)
                    == planned[i];
            assert(scoped.contains(scoped[m]));
            assert(chosen.contains(scoped[m]));
            let k = choose|k: int| 0 <= k < chosen.len() && chosen[k] == scoped[m];
            assert(projection::planned_session(chosen[k], target) == p);
        }
        if exists|k: int|
            0 <= k < chosen.len() && projection::planned_session(#[trigger] chosen[k], target)
                == p {
            let k = choose|k: int|
                0 <= k < chosen.len() && projection::planned_session(#[trigger] chosen[k], target)
                    == p;
            assert(chosen.contains(chosen[k]));
            assert(scoped.contains(chosen[k]));
            assert(sources.contains(chosen[k].origin_provider));
            projection::lemma_planned_covers(scoped, sources, target, chosen[k]);
        }
    }
}

/// Without a workspace conflict among the reasons there is none among the candidates.
pub proof fn lemma_no_conflict_candidates(
    snapshot: SnapshotView,
    store: Option<ProjectionStoreView>,
    chosen: Seq<EligibleSessionView>,
    reasons: Seq<SkipReasonView>,
    sources: Set<SourceProviderView>,
)
    requires
        forall|id: Seq<char>| !#[trigger] has_workspace_conflict(reasons, id),
    ensures
        candidate_conflicts(candidates(snapshot, store, chosen, reasons, sources)).len() == 0,
{
    let own = session_candidates(chosen, sources);
    let conflicts = conflict_candidates(snapshot.threads, store, reasons, sources);
    lemma_conflict_free(snapshot.threads, store, reasons, sources);
    lemma_sessions_are_no_conflicts(chosen, sources);
    ordered::lemma_sorted_pairs::<SessionOrder, RankedProjectionCandidateView>(own + conflicts);
    let all = candidates(snapshot, store, chosen, reasons, sources);
    assert forall|i: int| 0 <= i < all.len() implies (
    #[trigger] all[i]).1.workspace_conflict is None by {
        assert((own + conflicts).contains(all[i]));
        let k = choose|k: int|
            0 <= k < (own + conflicts).len() && (own + conflicts)[k] == all[i];
        assert(own[k].1.workspace_conflict is None);
    }
    lemma_none_in_conflict(all);
}

proof fn lemma_conflict_free(
    threads: Seq<ThreadRowView>,
    store: Option<ProjectionStoreView>,
    reasons: Seq<SkipReasonView>,
    sources: Set<SourceProviderView>,
)
    requires
        forall|id: Seq<char>| !#[trigger] has_workspace_conflict(reasons, id),
    ensures
        conflict_candidates(threads, store, reasons, sources).len() == 0,
    decreases threads.len(),
{
    if threads.len() > 0 {
        lemma_conflict_free(threads.drop_last(), store, reasons, sources);
        assert(!has_workspace_conflict(reasons, threads.last().id));
    }
}

proof fn lemma_sessions_are_no_conflicts(
    sessions: Seq<EligibleSessionView>,
    sources: Set<SourceProviderView>,
)
    ensures
        forall|i: int|
            0 <= i < session_candidates(sessions, sources).len() ==> (
            #[trigger] session_candidates(sessions, sources)[i]).1.workspace_conflict is None,
    decreases sessions.len(),
{
    if sessions.len() > 0 {
        lemma_sessions_are_no_conflicts(sessions.drop_last(), sources);
    }
}

proof fn lemma_none_in_conflict(
    candidates: Seq<(SessionOrderView, RankedProjectionCandidateView)>,
)
    requires
        forall|i: int|
            0 <= i < candidates.len() ==> (#[trigger] candidates[i]).1.workspace_conflict is None,
    ensures
        candidate_conflicts(candidates).len() == 0,
    decreases candidates.len(),
{
    if candidates.len() > 0 {
        let front = candidates.drop_last();
        assert forall|i: int| 0 <= i < front.len() implies (
        #[trigger] front[i]).1.workspace_conflict is None by {
            assert(front[i] == candidates[i]);
        }
        lemma_none_in_conflict(front);
        assert(candidates[candidates.len() - 1].1.workspace_conflict is None);
    }
}

/// A preview plans exactly the sessions that it is made of.
pub proof fn lemma_preview_members(
    result: ProjectionPreviewResultView,
    snapshot: SnapshotView,
    store: Option<ProjectionStoreView>,
    excluded: Set<Seq<char>>,
    target: Seq<char>,
    scope: ProjectionScope,
    selected: Option<Set<Seq<char>>>,
)
    requires
        preview_outcome(
            Ok(result),
            snapshot,
            store,
            preview_basis(snapshot, store, excluded, projection::provider_of(target), selected),
            target,
            scope,
        ),
    ensures
        ({
            let provider = projection::provider_of(target);
            let chosen = preview_basis(snapshot, store, excluded, provider, selected).sessions;
            &&& projection::repeated_from(projection::session_ids(chosen), 0) is None
            &&& forall|p: PlannedSessionView| #[trigger]
                result.plan.sessions.contains(p) <==> exists|k: int|
                    0 <= k < chosen.len() && projection::planned_session(
                        #[trigger] chosen[k],
                        provider,
                    ) == p
        }),
{
    let provider = projection::provider_of(target);
    let basis = preview_basis(snapshot, store, excluded, provider, selected);
    let backed = sessions::backed_threads(snapshot, sessions::rollout_ids(snapshot));
    let reasons = chosen_reasons(
        planning::reasons_in_order(ineligible_reasons(snapshot, excluded, backed)),
        selected,
    );
    lemma_scoped(snapshot, store, basis.sessions, reasons, provider);
    lemma_distinct_ids(basis.scoped);
    lemma_distinct_ids(basis.sessions);
    lemma_preview_plan(snapshot, store, basis.sessions, reasons, provider);
}

/// A preview exists where its target is safe and the sessions that it is made of are distinct.
pub proof fn lemma_preview_exists(
    snapshot: SnapshotView,
    store: Option<ProjectionStoreView>,
    excluded: Set<Seq<char>>,
    target: Seq<char>,
    selected: Option<Set<Seq<char>>>,
)
    ensures
        ({
            let provider = projection::provider_of(target);
            let basis = preview_basis(snapshot, store, excluded, provider, selected);
            preview_fault(target, basis) is None <==> providers::safe_id(target)
                && projection::repeated_from(projection::session_ids(basis.sessions), 0) is None
        }),
{
    let provider = projection::provider_of(target);
    let basis = preview_basis(snapshot, store, excluded, provider, selected);
    let backed = sessions::backed_threads(snapshot, sessions::rollout_ids(snapshot));
    let reasons = chosen_reasons(
        planning::reasons_in_order(ineligible_reasons(snapshot, excluded, backed)),
        selected,
    );
    lemma_scoped(snapshot, store, basis.sessions, reasons, provider);
    lemma_distinct_ids(basis.scoped);
    lemma_distinct_ids(basis.sessions);
}

/// The same sessions, looked at twice, are previewed in the same way: with the same plan, or refused
/// with the same message.
pub proof fn law_preview_is_determined(
    one: Result<ProjectionPreviewResultView, Seq<char>>,
    other: Result<ProjectionPreviewResultView, Seq<char>>,
    snapshot: SnapshotView,
    store: Option<ProjectionStoreView>,
    basis: PreviewBasis,
    target: Seq<char>,
    scope: ProjectionScope,
)
    requires
        preview_outcome(one, snapshot, store, basis, target, scope),
        preview_outcome(other, snapshot, store, basis, target, scope),
    ensures
        one == other,
{
    if one is Ok && other is Ok {
        projection::lemma_same_plan(
            one->Ok_0.plan,
            other->Ok_0.plan,
            basis.scoped,
            basis.scoped,
            basis.sources,
            projection::provider_of(target),
            scope,
        );
        let a = one->Ok_0.source_counts;
        let b = other->Ok_0.source_counts;
        assert forall|id: Seq<char>| #[trigger] a.dom().contains(id) <==> b.dom().contains(id) by {}
        assert(a =~= b);
    }
}

/// A preview of selected sessions is the whole preview without the other ones, in the same order;
/// it exists where the whole one does. No selection means all of them.
pub proof fn law_selected_preview_is_the_whole_one_filtered(
    whole: ProjectionPreviewResultView,
    snapshot: SnapshotView,
    store: Option<ProjectionStoreView>,
    excluded: Set<Seq<char>>,
    target: Seq<char>,
    scope: ProjectionScope,
    ids: Set<Seq<char>>,
    part: Result<ProjectionPreviewResultView, Seq<char>>,
)
    requires
        preview_outcome(
            Ok(whole),
            snapshot,
            store,
            preview_basis(snapshot, store, excluded, projection::provider_of(target), None),
            target,
            scope,
        ),
        preview_outcome(
            part,
            snapshot,
            store,
            preview_basis(snapshot, store, excluded, projection::provider_of(target), Some(ids)),
            target,
            scope,
        ),
    ensures
        part is Ok,
        part->Ok_0.plan.sessions == planning::kept(
            whole.plan.sessions,
            |session: PlannedSessionView| ids.contains(session.thread_id),
        ),
        ids == Set::<Seq<char>>::empty() ==> part->Ok_0.plan.considered == 0
            && part->Ok_0.plan.pending == 0 && part->Ok_0.changed_threads == 0,
{
    let provider = projection::provider_of(target);
    let backed = sessions::backed_threads(snapshot, sessions::rollout_ids(snapshot));
    let all = eligible_sessions(snapshot, store, excluded, provider, backed);
    let reasons = planning::reasons_in_order(ineligible_reasons(snapshot, excluded, backed));
    let keep = |session: EligibleSessionView| ids.contains(session.id);
    let chosen = planning::kept(all, keep);
    let some = chosen_reasons(reasons, Some(ids));
    let whole_basis = preview_basis(snapshot, store, excluded, provider, None);
    let part_basis = preview_basis(snapshot, store, excluded, provider, Some(ids));
    lemma_scoped(snapshot, store, all, reasons, provider);
    lemma_distinct_ids(whole_basis.scoped);
    assert(distinct_ids(all));
    lemma_kept_distinct(all, keep);
    lemma_scoped(snapshot, store, chosen, some, provider);
    lemma_distinct_ids(part_basis.scoped);
    assert(part is Ok);
    lemma_preview_plan(snapshot, store, all, reasons, provider);
    lemma_preview_plan(snapshot, store, chosen, some, provider);
    let wanted = |session: PlannedSessionView| ids.contains(session.thread_id);
    let a = part->Ok_0.plan.sessions;
    let b = planning::kept(whole.plan.sessions, wanted);
    lemma_kept_well_placed(whole.plan.sessions, wanted);
    assert forall|p: PlannedSessionView| #[trigger] a.contains(p) <==> b.contains(p) by {
        if a.contains(p) {
            let k = choose|k: int|
                0 <= k < chosen.len() && projection::planned_session(#[trigger] chosen[k], provider)
                    == p;
            assert(chosen.contains(chosen[k]));
            let m = choose|m: int| 0 <= m < all.len() && all[m] == chosen[k];
            assert(projection::planned_session(all[m], provider) == p);
            assert(keep(chosen[k]));
        }
        if b.contains(p) {
            let k = choose|k: int|
                0 <= k < all.len() && projection::planned_session(#[trigger] all[k], provider) == p;
            assert(all.contains(all[k]) && keep(all[k]));
            assert(chosen.contains(all[k]));
            let m = choose|m: int| 0 <= m < chosen.len() && chosen[m] == all[k];
            assert(projection::planned_session(chosen[m], provider) == p);
        }
    }
    lemma_well_placed_same(a, b);
    if ids == Set::<Seq<char>>::empty() {
        law_empty_selection_is_empty(all);
        assert(a.len() == 0) by {
            if a.len() > 0 {
                assert(a.contains(a[0]));
            }
        }
        projection::law_pending_is_considered_less_aligned(
            part->Ok_0.plan,
            part_basis.scoped,
            part_basis.sources,
            provider,
            scope,
        );
        let plan = planning::limited_plan(
            planning::full_plan(snapshot, target),
            planning::planned_ids(a),
        );
        assert(plan.changed_ids =~= Set::<Seq<char>>::empty());
        ordered::lemma_finite_is_listed::<String>(Set::<Seq<char>>::empty());
    }
}

proof fn lemma_kept_distinct(
    sessions: Seq<EligibleSessionView>,
    keep: spec_fn(EligibleSessionView) -> bool,
)
    requires
        distinct_ids(sessions),
    ensures
        distinct_ids(planning::kept(sessions, keep)),
        forall|session: EligibleSessionView| #[trigger]
            planning::kept(sessions, keep).contains(session) <==> sessions.contains(session)
                && keep(session),
    decreases sessions.len(),
{
    let kept = planning::kept(sessions, keep);
    if sessions.len() > 0 {
        let front = sessions.drop_last();
        let last = sessions.last();
        assert forall|i: int, j: int| 0 <= i < j < front.len() implies (#[trigger] front[i]).id
            != (#[trigger] front[j]).id by {
            assert(front[i] == sessions[i] && front[j] == sessions[j]);
        }
        lemma_kept_distinct(front, keep);
        let rest = planning::kept(front, keep);
        assert(sessions =~= front.push(last));
        assert forall|session: EligibleSessionView| #[trigger]
            kept.contains(session) <==> sessions.contains(session) && keep(session) by {
            sessions::lemma_push_contains(front, last, session);
            sessions::lemma_push_contains(rest, last, session);
        }
        assert forall|i: int, j: int| 0 <= i < j < kept.len() implies (#[trigger] kept[i]).id != (
        #[trigger] kept[j]).id by {
            assert(kept[i] == rest[i]);
            if j < rest.len() {
                assert(kept[j] == rest[j]);
            } else {
                assert(rest.contains(rest[i]));
                let k = choose|k: int| 0 <= k < front.len() && front[k] == rest[i];
                assert(sessions[k] == rest[i] && sessions[sessions.len() - 1] == last);
            }
        }
    }
}

/// What a plan takes a session for: it stands under the provider that its state row names where it
/// has one with a safe name, else under that of its rollout, else under the target; and it came from
/// where the store says, else from the provider of its rollout, else from the one it stands under.
pub proof fn law_session_is_taken_as_recorded(
    snapshot: SnapshotView,
    store: Option<ProjectionStoreView>,
    backed: BackedThreadView,
    target: SourceProviderView,
)
    ensures
        ({
            let session = eligible_session(snapshot, store, backed, target);
            let id = backed.thread.id;
            let named = snapshot.rollout_provider_values.dom().contains(id) && providers::safe_id(
                snapshot.rollout_provider_values[id],
            );
            let known = store is Some && store->0.threads.dom().contains(id);
            let own = backed.state_present && providers::safe_id(backed.thread.provider);
            &&& session.id == id
            &&& session.updated_at == backed.thread.updated_at
            &&& session.state_present == backed.state_present
            &&& session.catalog == (CatalogStateView::Present { provider: session.state_provider })
            &&& own ==> projection::provider_id(session.state_provider) == backed.thread.provider
            &&& !own && named ==> projection::provider_id(session.state_provider)
                == snapshot.rollout_provider_values[id]
            &&& !own && !named ==> session.state_provider == target
            &&& known ==> session.origin_provider == store->0.threads[id].origin_provider
            &&& !known && named ==> projection::provider_id(session.origin_provider)
                == snapshot.rollout_provider_values[id]
            &&& !known && !named ==> session.origin_provider == session.state_provider
        }),
{
}

/// Every session is either one that a plan may take or one that is given with a reason, and never
/// both.
pub proof fn law_every_session_is_taken_or_explained(
    snapshot: SnapshotView,
    store: Option<ProjectionStoreView>,
    excluded: Set<Seq<char>>,
    target: SourceProviderView,
    backed: Seq<BackedThreadView>,
)
    ensures
        ({
            let taken = eligible_sessions(snapshot, store, excluded, target, backed);
            let left = ineligible_reasons(snapshot, excluded, backed);
            &&& taken.len() + left.len() == backed.len()
            &&& forall|i: int|
                0 <= i < backed.len() && planning::exclusion(
                    snapshot,
                    excluded,
                    (#[trigger] backed[i]).thread.id,
                ) is None ==> taken.contains(
                    eligible_session(snapshot, store, backed[i], target),
                )
            &&& forall|i: int|
                0 <= i < backed.len() && planning::exclusion(
                    snapshot,
                    excluded,
                    (#[trigger] backed[i]).thread.id,
                ) is Some ==> left.contains(
                    SkipReasonView {
                        thread_id: Some(backed[i].thread.id),
                        reason: planning::exclusion(snapshot, excluded, backed[i].thread.id)->0,
                    },
                )
        }),
    decreases backed.len(),
{
    broadcast use vstd::seq_lib::group_seq_properties;

    if backed.len() > 0 {
        let front = backed.drop_last();
        law_every_session_is_taken_or_explained(snapshot, store, excluded, target, front);
        let taken = eligible_sessions(snapshot, store, excluded, target, backed);
        let left = ineligible_reasons(snapshot, excluded, backed);
        assert forall|i: int|
            0 <= i < backed.len() && planning::exclusion(
                snapshot,
                excluded,
                (#[trigger] backed[i]).thread.id,
            ) is None implies taken.contains(
            eligible_session(snapshot, store, backed[i], target),
        ) by {
            if i < front.len() {
                assert(front[i] == backed[i]);
            } else {
                assert(taken[taken.len() - 1] == eligible_session(
                    snapshot,
                    store,
                    backed[i],
                    target,
                ));
            }
        }
        assert forall|i: int|
            0 <= i < backed.len() && planning::exclusion(
                snapshot,
                excluded,
                (#[trigger] backed[i]).thread.id,
            ) is Some implies left.contains(
            SkipReasonView {
                thread_id: Some(backed[i].thread.id),
                reason: planning::exclusion(snapshot, excluded, backed[i].thread.id)->0,
            },
        ) by {
            if i < front.len() {
                assert(front[i] == backed[i]);
            } else {
                assert(left[left.len() - 1].thread_id == Some(backed[i].thread.id));
            }
        }
    }
}

/// A selection holds the ids that were given, without white space around them; the sources of
/// sessions are where they came from, and the target; and a session counts for where it came from.
pub proof fn law_sources_are_where_sessions_came_from(
    ids: Seq<Seq<char>>,
    sessions: Seq<EligibleSessionView>,
    session: EligibleSessionView,
    target: SourceProviderView,
    id: Seq<char>,
)
    ensures
        ids.contains(id) && text::trimmed(id).len() > 0 ==> selection(ids).contains(
            text::trimmed(id),
        ),
        !selection(ids).contains(Seq::empty()),
        selection(ids).contains(id) ==> exists|i: int|
            0 <= i < ids.len() && text::trimmed(#[trigger] ids[i]) == id,
        sources_of(sessions, target).contains(target),
        sessions.contains(session) ==> sources_of(sessions, target).contains(
            session.origin_provider,
        ),
        forall|source: SourceProviderView| #[trigger]
            sources_of(sessions, target).contains(source) && source != target ==> exists|i: int|
                0 <= i < sessions.len() && (#[trigger] sessions[i]).origin_provider == source,
        source_count(Seq::empty(), id) == 0,
        source_count(sessions.push(session), id) == source_count(sessions, id) + (if
        projection::provider_id(session.origin_provider) == id {
            1nat
        } else {
            0nat
        }),
        chosen_sessions(sessions, None) == sessions,
{
    assert(sessions.push(session).drop_last() =~= sessions);
    if ids.contains(id) && text::trimmed(id).len() > 0 {
        let i = choose|i: int| 0 <= i < ids.len() && ids[i] == id;
        assert(text::trimmed(ids[i]) == text::trimmed(id));
    }
    if sessions.contains(session) {
        let i = choose|i: int| 0 <= i < sessions.len() && sessions[i] == session;
        assert(sessions[i].origin_provider == session.origin_provider);
    }
}

/// A preview is refused exactly where the target has no safe name or a session occurs twice.
pub proof fn law_preview_is_refused_for_a_reason(target: Seq<char>, basis: PreviewBasis)
    ensures
        preview_fault(target, basis) is None <==> providers::safe_id(target) && distinct_ids(
            basis.scoped,
        ),
{
    let ids = projection::session_ids(basis.scoped);
    projection::law_repeated_ids_are_told(ids);
    if ids.no_duplicates() {
        assert forall|i: int, j: int| 0 <= i < j < basis.scoped.len() implies (
        #[trigger] basis.scoped[i]).id != (#[trigger] basis.scoped[j]).id by {
            assert(ids[i] != ids[j]);
        }
    }
    if distinct_ids(basis.scoped) {
        assert forall|i: int, j: int|
            0 <= i < ids.len() && 0 <= j < ids.len() && i != j implies ids[i] != ids[j] by {
            assert(ids[i] == basis.scoped[i].id && ids[j] == basis.scoped[j].id);
        }
    }
}

/// A session is in conflict over its workspace where a reason says so; it stands in scope where it
/// came from one of the sources: as the store says, else as its state row names a safe provider.
pub proof fn law_conflicts_in_scope(
    store: Option<ProjectionStoreView>,
    reasons: Seq<SkipReasonView>,
    sources: Set<SourceProviderView>,
    thread: ThreadRowView,
)
    ensures
        ({
            let known = store is Some && store->0.threads.dom().contains(thread.id);
            conflict_in_scope(store, reasons, sources, thread) <==> {
                &&& reasons.contains(
                    SkipReasonView {
                        thread_id: Some(thread.id),
                        reason: "workspace_conflict"@,
                    },
                )
                &&& providers::safe_id(thread.provider)
                &&& known ==> sources.contains(store->0.threads[thread.id].origin_provider)
                &&& !known ==> sources.contains(projection::provider_of(thread.provider))
            }
        }),
        forall|reason: SkipReasonView|
            #[trigger]
            undo_reason(reason) <==> text::has_prefix(reason.reason, "projection_reconcile_"@),
{
}

} // verus!

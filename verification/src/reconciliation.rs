//! Undoing projections that are no longer wanted, and keeping the record of those in force.

use crate::locality;
use crate::locality::collect_local_rows;
use crate::model;
use crate::model::Model;
use crate::ordered;
use crate::ordered::{OrderedMap, OrderedSet};
use crate::planning;
use crate::planning::{
    collect_planned_ids, repair_exclusion_reason, sort_reasons, CatalogDelete, CatalogDeleteView,
    CatalogUpdate, CatalogUpdateView, RepairPlan, RepairPlanView, RolloutUpdate, RolloutUpdateView,
    StateDelete, StateDeleteView, StateUpdate, StateUpdateView,
};
use crate::projection;
use crate::projection::{
    CatalogState, CatalogStateView, EligibleSession, EligibleSessionView, PlannedSessionView,
    ProjectionErrorView, ProjectionRecord, ProjectionRecordView, ProjectionStore,
    ProjectionStoreView, ProviderPlanPreview, ProviderPlanPreviewView, SourceProvider,
    SourceProviderView,
};
use crate::providers;
use crate::providers::{canonical_provider, source_provider};
use crate::records::{
    CatalogRow, CatalogRowView, SessionCohorts, Snapshot, SnapshotView, ThreadRow, ThreadRowView,
};
use crate::sessions;
use crate::sessions::{find_thread, rollout_thread_row, session_cohorts};
use crate::text;
use crate::text::join2;
use vstd::prelude::*;

verus! {

/// The provider that an id names, if the id is safe.
pub open spec fn trusted(id: Seq<char>) -> Option<SourceProviderView> {
    if providers::safe_id(id) {
        Some(projection::provider_of(id))
    } else {
        None
    }
}

/// The state row of a thread, or the row that its rollout stands for.
pub open spec fn candidate(snapshot: SnapshotView, id: Seq<char>) -> Option<ThreadRowView> {
    match sessions::thread_by_id(snapshot.threads, id) {
        Some(thread) => Some(thread),
        None => match sessions::lookup(snapshot.primary_rollouts, id) {
            Some(primary) => Some(sessions::rollout_row(primary)),
            None => None,
        },
    }
}

/// What a catalog row says of its session, if its provider can be trusted.
pub open spec fn catalog_row_state(row: CatalogRowView) -> Option<CatalogStateView> {
    match trusted(row.provider) {
        Some(provider) => Some(
            if row.missing_candidate {
                CatalogStateView::MissingCandidate { provider }
            } else {
                CatalogStateView::Present { provider }
            },
        ),
        None => None,
    }
}

/// What a catalog row says of its session, if its provider can be trusted.
pub fn state_of_row(row: &CatalogRow) -> (r: Option<CatalogState>)
    ensures
        r.deep_view() == catalog_row_state(row.deep_view()),
{
    match source_provider(row.provider.as_str()) {
        Some(provider) => if row.missing_candidate {
            Some(CatalogState::MissingCandidate { provider })
        } else {
            Some(CatalogState::Present { provider })
        },
        None => None,
    }
}

/// Why a projection cannot be looked into.
pub open spec fn undo_fault(
    snapshot: SnapshotView,
    excluded: Set<Seq<char>>,
    id: Seq<char>,
) -> Option<Seq<char>> {
    let row = candidate(snapshot, id);
    let thread = sessions::thread_by_id(snapshot.threads, id);
    let rows = locality::local_rows_of(snapshot.catalog, id);
    let rollout = sessions::lookup(snapshot.rollout_provider_values, id);
    if row is None {
        Some("projection_reconcile_rollout_missing"@)
    } else if planning::exclusion(snapshot, excluded, row->0.id) is Some {
        Some(
            "projection_reconcile_ineligible_"@ + planning::exclusion(
                snapshot,
                excluded,
                row->0.id,
            )->0,
        )
    } else if thread is Some && !providers::safe_id(thread->0.provider) {
        Some("projection_reconcile_state_untrusted"@)
    } else if rows.len() > 1 {
        Some("projection_reconcile_catalog_ambiguous"@)
    } else if rows.len() == 1 && !providers::safe_id(rows[0].provider) {
        Some("projection_reconcile_catalog_untrusted"@)
    } else if rollout is None {
        Some("projection_reconcile_rollout_provider_missing"@)
    } else if !providers::safe_id(rollout->0) {
        Some("projection_reconcile_rollout_provider_untrusted"@)
    } else {
        None
    }
}

/// What the records of a session say now.
pub struct Standing {
    pub thread: Option<ThreadRowView>,
    pub state_provider: Option<SourceProviderView>,
    pub row: Option<CatalogRowView>,
    pub catalog: CatalogStateView,
    pub rollout_value: Seq<char>,
    pub rollout: SourceProviderView,
}

/// What the records of a session say now, where nothing hinders the look.
pub open spec fn standing(snapshot: SnapshotView, id: Seq<char>) -> Standing {
    let thread = sessions::thread_by_id(snapshot.threads, id);
    let rows = locality::local_rows_of(snapshot.catalog, id);
    let value = snapshot.rollout_provider_values[id];
    Standing {
        thread,
        state_provider: match thread {
            Some(thread) => trusted(thread.provider),
            None => None,
        },
        row: if rows.len() == 1 {
            Some(rows[0])
        } else {
            None
        },
        catalog: if rows.len() == 1 {
            catalog_row_state(rows[0])->0
        } else {
            CatalogStateView::Missing
        },
        rollout_value: value,
        rollout: projection::provider_of(value),
    }
}

/// The session holds what it held before the projection.
pub open spec fn holds_original(now: Standing, record: ProjectionRecordView) -> bool {
    &&& if record.original_state_present {
        now.state_provider == Some(record.original_state_provider)
    } else {
        now.state_provider is None
    }
    &&& now.catalog == record.original_catalog
    &&& record.original_rollout_provider is None || record.original_rollout_provider == Some(
        now.rollout,
    )
}

/// The session holds what the projection wrote.
pub open spec fn holds_projection(now: Standing, record: ProjectionRecordView) -> bool {
    &&& (now.thread is Some && now.state_provider == Some(record.projected_target)
        && !now.thread->0.archived) || (!record.original_state_present && now.thread is None)
    &&& now.catalog == (CatalogStateView::Present { provider: record.projected_target })
    &&& record.original_rollout_provider is Some ==> now.rollout == record.projected_target
}

/// The rewrite that puts the state row back.
pub open spec fn state_restore(
    thread: ThreadRowView,
    record: ProjectionRecordView,
) -> StateUpdateView {
    StateUpdateView {
        thread_id: record.thread_id,
        expected_rollout_path: thread.rollout_path,
        expected_provider: thread.provider,
        expected_archived: thread.archived,
        expected_thread_source: thread.thread_source,
        expected_has_user_event: thread.has_user_event,
        rollout_path: thread.rollout_path,
        provider: providers::canonical_id(projection::provider_id(record.original_state_provider)),
        archived: false,
        thread_source: thread.thread_source,
        has_user_event: thread.has_user_event,
    }
}

/// The plan with the state row put back, or nothing where the rollout's path is missing.
pub open spec fn with_state_undone(
    plan: RepairPlanView,
    now: Standing,
    record: ProjectionRecordView,
    path: Option<Seq<char>>,
) -> Option<RepairPlanView> {
    if record.original_state_present && now.state_provider != Some(
        record.original_state_provider,
    ) {
        Some(
            RepairPlanView {
                state_restores: plan.state_restores.push(state_restore(now.thread->0, record)),
                ..plan
            },
        )
    } else if !record.original_state_present && now.thread is Some {
        match path {
            None => None,
            Some(path) => Some(
                RepairPlanView {
                    state_deletes: plan.state_deletes.push(
                        StateDeleteView {
                            thread_id: record.thread_id,
                            expected_provider: now.thread->0.provider,
                            expected_rollout_path: path,
                        },
                    ),
                    ..plan
                },
            ),
        }
    } else {
        Some(plan)
    }
}

/// The plan with the rollout put back, or nothing where its path is missing.
pub open spec fn with_rollout_undone(
    plan: RepairPlanView,
    now: Standing,
    record: ProjectionRecordView,
    path: Option<Seq<char>>,
) -> Option<RepairPlanView> {
    match record.original_rollout_provider {
        Some(original) => if now.rollout == original {
            Some(plan)
        } else {
            match path {
                None => None,
                Some(path) => Some(
                    RepairPlanView {
                        rollout_updates: plan.rollout_updates.push(
                            RolloutUpdateView {
                                thread_id: record.thread_id,
                                path,
                                archived: false,
                                expected_provider: Some(now.rollout_value),
                                provider: Some(
                                    providers::canonical_id(projection::provider_id(original)),
                                ),
                            },
                        ),
                        ..plan
                    },
                ),
            }
        },
        None => Some(plan),
    }
}

/// The plan with the catalog row put back.
pub open spec fn with_catalog_undone(
    plan: RepairPlanView,
    row: CatalogRowView,
    record: ProjectionRecordView,
) -> RepairPlanView {
    match record.original_catalog {
        CatalogStateView::Missing => RepairPlanView {
            catalog_deletes: plan.catalog_deletes.push(
                CatalogDeleteView {
                    host_id: "local"@,
                    thread_id: record.thread_id,
                    expected_provider: row.provider,
                    expected_missing_candidate: row.missing_candidate,
                },
            ),
            ..plan
        },
        CatalogStateView::MissingCandidate { provider } => RepairPlanView {
            catalog_updates: plan.catalog_updates.push(
                catalog_restore(row, record.thread_id, provider, true),
            ),
            ..plan
        },
        CatalogStateView::Present { provider } => RepairPlanView {
            catalog_updates: plan.catalog_updates.push(
                catalog_restore(row, record.thread_id, provider, false),
            ),
            ..plan
        },
    }
}

/// The rewrite that puts a catalog row back.
pub open spec fn catalog_restore(
    row: CatalogRowView,
    id: Seq<char>,
    provider: SourceProviderView,
    missing_candidate: bool,
) -> CatalogUpdateView {
    CatalogUpdateView {
        host_id: "local"@,
        thread_id: id,
        expected_provider: row.provider,
        expected_missing_candidate: row.missing_candidate,
        provider: providers::canonical_id(projection::provider_id(provider)),
        missing_candidate,
    }
}

/// A plan with a thread left alone.
pub open spec fn with_skip(
    plan: RepairPlanView,
    id: Seq<char>,
    reason: Seq<char>,
) -> RepairPlanView {
    RepairPlanView { skipped: plan.skipped.push(planning::reason_for(id, reason)), ..plan }
}

/// A plan, and the threads whose projection it undoes.
pub struct Undoing {
    pub plan: RepairPlanView,
    pub reconciled: Set<Seq<char>>,
}

/// The plan after one more projection was looked at.
pub open spec fn undo_step(
    so_far: Undoing,
    snapshot: SnapshotView,
    excluded: Set<Seq<char>>,
    record: ProjectionRecordView,
) -> Undoing {
    let id = record.thread_id;
    let now = standing(snapshot, id);
    let path = sessions::lookup(snapshot.rollout_paths, id);
    let fault = undo_fault(snapshot, excluded, id);
    let missing_path = "projection_reconcile_rollout_path_missing"@;
    if fault is Some {
        Undoing { plan: with_skip(so_far.plan, id, fault->0), ..so_far }
    } else if holds_original(now, record) {
        Undoing { reconciled: so_far.reconciled.insert(id), ..so_far }
    } else if !holds_projection(now, record) {
        Undoing {
            plan: with_skip(so_far.plan, id, "projection_reconcile_conflict"@),
            ..so_far
        }
    } else {
        match with_state_undone(so_far.plan, now, record, path) {
            None => Undoing { plan: with_skip(so_far.plan, id, missing_path), ..so_far },
            Some(with_state) => match with_rollout_undone(with_state, now, record, path) {
                None => Undoing { plan: with_skip(with_state, id, missing_path), ..so_far },
                Some(with_rollout) => {
                    let whole = with_catalog_undone(with_rollout, now.row->0, record);
                    Undoing {
                        plan: RepairPlanView {
                            changed_ids: whole.changed_ids.insert(id),
                            ..whole
                        },
                        reconciled: so_far.reconciled.insert(id),
                    }
                },
            },
        }
    }
}

/// A projection is looked at: its session is not in the new plan, and is selected.
pub open spec fn undo_wanted(
    record: ProjectionRecordView,
    desired: Set<Seq<char>>,
    selected: Option<Set<Seq<char>>>,
) -> bool {
    !desired.contains(record.thread_id) && (selected is None || selected->0.contains(
        record.thread_id,
    ))
}

/// The plan after the projections of `keys` were looked at, in their order.
pub open spec fn undone(
    start: RepairPlanView,
    snapshot: SnapshotView,
    excluded: Set<Seq<char>>,
    threads: Map<Seq<char>, ProjectionRecordView>,
    desired: Set<Seq<char>>,
    selected: Option<Set<Seq<char>>>,
    keys: Seq<Seq<char>>,
) -> Undoing
    decreases keys.len(),
{
    if keys.len() == 0 {
        Undoing { plan: start, reconciled: Set::empty() }
    } else {
        let so_far = undone(
            start,
            snapshot,
            excluded,
            threads,
            desired,
            selected,
            keys.drop_last(),
        );
        let record = threads[keys.last()];
        if undo_wanted(record, desired, selected) {
            undo_step(so_far, snapshot, excluded, record)
        } else {
            so_far
        }
    }
}

/// A set that may be absent.
pub open spec fn set_view(set: Option<&OrderedSet<String>>) -> Option<Set<Seq<char>>> {
    match set {
        Some(set) => Some(set.deep_view()),
        None => None,
    }
}

/// The plan with the projections undone that the preview no longer covers.
pub open spec fn with_reconciliation(
    plan: RepairPlanView,
    snapshot: SnapshotView,
    store: Option<ProjectionStoreView>,
    desired: Set<Seq<char>>,
    selected: Option<Set<Seq<char>>>,
) -> Undoing {
    match store {
        None => Undoing { plan, reconciled: Set::empty() },
        Some(store) => {
            let all = undone(
                plan,
                snapshot,
                sessions::remote_ids(snapshot),
                store.threads,
                desired,
                selected,
                ordered::listed::<String>(store.threads.dom()),
            );
            Undoing {
                plan: RepairPlanView {
                    skipped: planning::reasons_in_order(all.plan.skipped),
                    ..all.plan
                },
                ..all
            }
        },
    }
}

/// Undoes one projection whose session holds what the projection wrote; says whether it did.
fn undo_projection(
    plan: &mut RepairPlan,
    record: &ProjectionRecord,
    thread: Option<&ThreadRow>,
    state_provider: &Option<SourceProvider>,
    row: &CatalogRow,
    rollout_value: &String,
    rollout: &SourceProvider,
    path: Option<&String>,
    Ghost(now): Ghost<Standing>,
) -> (r: bool)
    requires
        now.thread == (match thread {
            Some(thread) => Some(thread.deep_view()),
            None => None,
        }),
        now.state_provider == state_provider.deep_view(),
        now.row == Some(row.deep_view()),
        now.rollout_value == rollout_value@,
        now.rollout == rollout.deep_view(),
        holds_projection(now, record.deep_view()),
    ensures
        ({
            let known_path = match path {
                Some(path) => Some(path@),
                None => None,
            };
            let missing_path = "projection_reconcile_rollout_path_missing"@;
            match with_state_undone(old(plan).deep_view(), now, record.deep_view(), known_path) {
                None => !r && final(plan).deep_view() == with_skip(
                    old(plan).deep_view(),
                    record.thread_id@,
                    missing_path,
                ),
                Some(with_state) => match with_rollout_undone(
                    with_state,
                    now,
                    record.deep_view(),
                    known_path,
                ) {
                    None => !r && final(plan).deep_view() == with_skip(
                        with_state,
                        record.thread_id@,
                        missing_path,
                    ),
                    Some(with_rollout) => {
                        let whole = with_catalog_undone(
                            with_rollout,
                            row.deep_view(),
                            record.deep_view(),
                        );
                        r && final(plan).deep_view() == (RepairPlanView {
                            changed_ids: whole.changed_ids.insert(record.thread_id@),
                            ..whole
                        })
                    },
                },
            }
        }),
{
    let ghost before = plan.deep_view();
    let id = &record.thread_id;
    let state_differs = match state_provider {
        Some(provider) => !provider.same_as(&record.original_state_provider),
        None => true,
    };
    if record.original_state_present {
        if state_differs {
            match thread {
                Some(thread) => {
                    plan.add_state_restore(
                        StateUpdate {
                            thread_id: id.copy_of(),
                            expected_rollout_path: thread.rollout_path.copy_of(),
                            expected_provider: thread.provider.copy_of(),
                            expected_archived: thread.archived,
                            expected_thread_source: thread.thread_source.copy_of(),
                            expected_has_user_event: thread.has_user_event,
                            rollout_path: thread.rollout_path.copy_of(),
                            provider: canonical_provider(record.original_state_provider.as_str()),
                            archived: false,
                            thread_source: thread.thread_source.copy_of(),
                            has_user_event: thread.has_user_event,
                        },
                    );
                },
                None => {
                    assert(false);
                },
            }
        }
    } else {
        match thread {
            Some(thread) => {
                match path {
                    Some(path) => {
                        plan.add_state_delete(
                            StateDelete {
                                thread_id: id.copy_of(),
                                expected_provider: thread.provider.copy_of(),
                                expected_rollout_path: path.copy_of(),
                            },
                        );
                    },
                    None => {
                        plan.skip_thread(id, "projection_reconcile_rollout_path_missing");
                        return false;
                    },
                }
            },
            None => {},
        }
    }
    match &record.original_rollout_provider {
        Some(original) => {
            if !rollout.same_as(original) {
                match path {
                    Some(path) => {
                        plan.add_rollout_update(
                            RolloutUpdate {
                                thread_id: id.copy_of(),
                                path: path.copy_of(),
                                archived: false,
                                expected_provider: Some(rollout_value.copy_of()),
                                provider: Some(canonical_provider(original.as_str())),
                            },
                        );
                    },
                    None => {
                        plan.skip_thread(id, "projection_reconcile_rollout_path_missing");
                        return false;
                    },
                }
            }
        },
        None => {},
    }
    match &record.original_catalog {
        CatalogState::Missing => {
            plan.add_catalog_delete(
                CatalogDelete {
                    host_id: "local".to_owned(),
                    thread_id: id.copy_of(),
                    expected_provider: row.provider.copy_of(),
                    expected_missing_candidate: row.missing_candidate,
                },
            );
        },
        CatalogState::MissingCandidate { provider } => {
            plan.add_catalog_update(
                CatalogUpdate {
                    host_id: "local".to_owned(),
                    thread_id: id.copy_of(),
                    expected_provider: row.provider.copy_of(),
                    expected_missing_candidate: row.missing_candidate,
                    provider: canonical_provider(provider.as_str()),
                    missing_candidate: true,
                },
            );
        },
        CatalogState::Present { provider } => {
            plan.add_catalog_update(
                CatalogUpdate {
                    host_id: "local".to_owned(),
                    thread_id: id.copy_of(),
                    expected_provider: row.provider.copy_of(),
                    expected_missing_candidate: row.missing_candidate,
                    provider: canonical_provider(provider.as_str()),
                    missing_candidate: false,
                },
            );
        },
    }
    plan.mark_changed(id);
    true
}

/// Looks at one projection: undoes it, counts it as undone already, or leaves it alone.
fn reconcile_record(
    plan: &mut RepairPlan,
    reconciled: &mut OrderedSet<String>,
    snapshot: &Snapshot,
    cohorts: &SessionCohorts,
    record: &ProjectionRecord,
)
    ensures
        ({
            let after = undo_step(
                Undoing { plan: old(plan).deep_view(), reconciled: old(reconciled).deep_view() },
                snapshot.deep_view(),
                cohorts.remote_excluded_thread_ids.deep_view(),
                record.deep_view(),
            );
            final(plan).deep_view() == after.plan && final(reconciled).deep_view()
                == after.reconciled
        }),
{
    let id = &record.thread_id;
    let thread = find_thread(&snapshot.threads, id);
    let row = match thread {
        Some(thread) => thread.copy_of(),
        None => match snapshot.primary_rollouts.get(id) {
            Some(primary) => rollout_thread_row(primary),
            None => {
                plan.skip_thread(id, "projection_reconcile_rollout_missing");
                return ;
            },
        },
    };
    match repair_exclusion_reason(snapshot, cohorts, &row) {
        Some(reason) => {
            let reason = join2("projection_reconcile_ineligible_", reason.as_str());
            plan.skip_thread(id, reason.as_str());
            return ;
        },
        None => {},
    }
    let state_provider: Option<SourceProvider> = match thread {
        Some(thread) => match source_provider(thread.provider.as_str()) {
            Some(provider) => Some(provider),
            None => {
                plan.skip_thread(id, "projection_reconcile_state_untrusted");
                return ;
            },
        },
        None => None,
    };
    let rows = collect_local_rows(&snapshot.catalog, id);
    let ghost row_views = rows.deep_view();
    if rows.len() > 1 {
        plan.skip_thread(id, "projection_reconcile_catalog_ambiguous");
        return ;
    }
    let current_catalog = if rows.len() == 0 {
        CatalogState::Missing
    } else {
        assert(row_views[0] == rows@[0].deep_view());
        match state_of_row(&rows[0]) {
            Some(state) => state,
            None => {
                plan.skip_thread(id, "projection_reconcile_catalog_untrusted");
                return ;
            },
        }
    };
    let rollout_value = match snapshot.rollout_provider_values.get(id) {
        Some(value) => value,
        None => {
            plan.skip_thread(id, "projection_reconcile_rollout_provider_missing");
            return ;
        },
    };
    let rollout = match source_provider(rollout_value.as_str()) {
        Some(provider) => provider,
        None => {
            plan.skip_thread(id, "projection_reconcile_rollout_provider_untrusted");
            return ;
        },
    };
    let ghost now = standing(snapshot.deep_view(), id@);
    assert(now.catalog == current_catalog.deep_view());
    assert(now.state_provider == state_provider.deep_view());
    assert(now.rollout == rollout.deep_view());
    let rollout_is_original = match &record.original_rollout_provider {
        Some(original) => rollout.same_as(original),
        None => true,
    };
    let state_is_original = if record.original_state_present {
        match &state_provider {
            Some(provider) => provider.same_as(&record.original_state_provider),
            None => false,
        }
    } else {
        state_provider.is_none()
    };
    if state_is_original && current_catalog.same_as(&record.original_catalog)
        && rollout_is_original {
        reconciled.insert(id.copy_of());
        return ;
    }
    let state_is_projected = match (thread, &state_provider) {
        (Some(thread), Some(provider)) => provider.same_as(&record.projected_target)
            && !thread.archived,
        _ => false,
    };
    let state_is_absent_original = !record.original_state_present && thread.is_none();
    let rollout_is_projected = record.original_rollout_provider.is_none() || rollout.same_as(
        &record.projected_target,
    );
    let expected_catalog = record.expected_projected_catalog();
    if (!state_is_projected && !state_is_absent_original) || !current_catalog.same_as(
        &expected_catalog,
    ) || !rollout_is_projected {
        plan.skip_thread(id, "projection_reconcile_conflict");
        return ;
    }
    assert(rows@.len() == 1);
    let path = snapshot.rollout_paths.get(id);
    if undo_projection(
        plan,
        record,
        thread,
        &state_provider,
        &rows[0],
        rollout_value,
        &rollout,
        path,
        Ghost(now),
    ) {
        reconciled.insert(id.copy_of());
    }
}

/// Adds to a plan the writes that undo the projections which the preview no longer covers, and
/// returns the threads whose projection is undone. Only what still holds what the projection wrote
/// is put back.
pub fn add_projection_reconciliation(
    snapshot: &Snapshot,
    store: Option<&ProjectionStore>,
    preview: &ProviderPlanPreview,
    plan: &mut RepairPlan,
    selected_thread_ids: Option<&OrderedSet<String>>,
) -> (r: OrderedSet<String>)
    ensures
        ({
            let after = with_reconciliation(
                old(plan).deep_view(),
                snapshot.deep_view(),
                sessions::store_view(store),
                planning::planned_ids(preview.sessions.deep_view()),
                set_view(selected_thread_ids),
            );
            final(plan).deep_view() == after.plan && r.deep_view() == after.reconciled
        }),
{
    let ghost start = plan.deep_view();
    let mut reconciled: OrderedSet<String> = OrderedSet::new();
    let store = match store {
        Some(store) => store,
        None => {
            return reconciled;
        },
    };
    let desired = collect_planned_ids(preview);
    let cohorts = session_cohorts(snapshot);
    let ghost view = snapshot.deep_view();
    let ghost excluded = sessions::remote_ids(view);
    let ghost threads = store.threads.deep_view();
    let ghost selected = set_view(selected_thread_ids);
    let n: usize = store.threads.len();
    let ghost keys = store.threads.keys();
    let mut i: usize = 0;
    while i < n
        invariant
            i <= n == keys.len(),
            keys == store.threads.keys(),
            view == snapshot.deep_view(),
            threads == store.threads.deep_view(),
            selected == set_view(selected_thread_ids),
            excluded == cohorts.remote_excluded_thread_ids.deep_view(),
            ({
                let so_far = undone(
                    start,
                    view,
                    excluded,
                    threads,
                    desired.deep_view(),
                    selected,
                    keys.take(i as int),
                );
                plan.deep_view() == so_far.plan && reconciled.deep_view() == so_far.reconciled
            }),
        decreases n - i,
    {
        let record = store.threads.value_at(i);
        assert(keys.take(i + 1).drop_last() =~= keys.take(i as int));
        assert(keys.take(i + 1).last() == keys[i as int]);
        let wanted = match selected_thread_ids {
            Some(selected) => selected.contains(&record.thread_id),
            None => true,
        };
        if !desired.contains(&record.thread_id) && wanted {
            reconcile_record(plan, &mut reconciled, snapshot, &cohorts, record);
        }
        i += 1;
    }
    assert(keys.take(i as int) =~= keys);
    sort_reasons(&mut plan.skipped);
    reconciled
}

/// The last local catalog row of a thread.
pub open spec fn last_local_row(
    catalog: Seq<CatalogRowView>,
    id: Seq<char>,
) -> Option<CatalogRowView> {
    let rows = locality::local_rows_of(catalog, id);
    if rows.len() == 0 {
        None
    } else {
        Some(rows.last())
    }
}

/// What is wrong with a thread whose projection was undone.
pub open spec fn restore_fault(
    snapshot: SnapshotView,
    store: ProjectionStoreView,
    id: Seq<char>,
) -> Option<Seq<char>> {
    let record = store.threads[id];
    let thread = sessions::thread_by_id(snapshot.threads, id);
    let row = last_local_row(snapshot.catalog, id);
    let rollout = sessions::lookup(snapshot.rollout_provider_values, id);
    if !store.threads.dom().contains(id) {
        Some("projection record disappeared: "@ + id)
    } else if record.original_state_present && thread is None {
        Some("restored thread disappeared: "@ + id)
    } else if record.original_state_present && trusted(thread->0.provider) != Some(
        record.original_state_provider,
    ) {
        Some("state restore verification failed: "@ + id)
    } else if !record.original_state_present && thread is Some {
        Some("state insert rollback verification failed: "@ + id)
    } else if row is Some && catalog_row_state(row->0) is None {
        Some("catalog provider became untrusted: "@ + id)
    } else if (match row {
        Some(row) => catalog_row_state(row)->0,
        None => CatalogStateView::Missing,
    }) != record.original_catalog {
        Some("catalog restore verification failed: "@ + id)
    } else if record.original_rollout_provider is Some && (rollout is None || trusted(rollout->0)
        != record.original_rollout_provider) {
        Some("rollout restore verification failed: "@ + id)
    } else {
        None
    }
}

/// The first fault of the threads from position `i` on.
pub open spec fn first_restore_fault(
    snapshot: SnapshotView,
    store: ProjectionStoreView,
    ids: Seq<Seq<char>>,
    i: nat,
) -> Option<Seq<char>>
    decreases ids.len() - i,
{
    if i >= ids.len() {
        None
    } else if restore_fault(snapshot, store, ids[i as int]) is Some {
        restore_fault(snapshot, store, ids[i as int])
    } else {
        first_restore_fault(snapshot, store, ids, i + 1)
    }
}

/// What is wrong after projections were undone.
pub open spec fn reconciliation_fault(
    snapshot: SnapshotView,
    store: Option<ProjectionStoreView>,
    reconciled: Set<Seq<char>>,
) -> Option<Seq<char>> {
    match store {
        None => if ordered::listed::<String>(reconciled).len() == 0 {
            None
        } else {
            Some("projection store disappeared during verification"@)
        },
        Some(store) => first_restore_fault(
            snapshot,
            store,
            ordered::listed::<String>(reconciled),
            0,
        ),
    }
}

fn check_restored(snapshot: &Snapshot, store: &ProjectionStore, id: &String) -> (r: Result<
    (),
    String,
>)
    ensures
        match r {
            Ok(()) => restore_fault(snapshot.deep_view(), store.deep_view(), id@) is None,
            Err(message) => restore_fault(snapshot.deep_view(), store.deep_view(), id@) == Some(
                message@,
            ),
        },
{
    let record = match store.threads.get(id) {
        Some(record) => record,
        None => {
            return Err(join2("projection record disappeared: ", id.as_str()));
        },
    };
    let thread = find_thread(&snapshot.threads, id);
    if record.original_state_present {
        match thread {
            None => {
                return Err(join2("restored thread disappeared: ", id.as_str()));
            },
            Some(thread) => {
                let restored = match source_provider(thread.provider.as_str()) {
                    Some(provider) => provider.same_as(&record.original_state_provider),
                    None => false,
                };
                if !restored {
                    return Err(join2("state restore verification failed: ", id.as_str()));
                }
            },
        }
    } else if thread.is_some() {
        return Err(join2("state insert rollback verification failed: ", id.as_str()));
    }
    let rows = collect_local_rows(&snapshot.catalog, id);
    let ghost row_views = rows.deep_view();
    let current_catalog = if rows.len() == 0 {
        CatalogState::Missing
    } else {
        assert(row_views.last() == rows@[rows@.len() - 1].deep_view());
        match state_of_row(&rows[rows.len() - 1]) {
            Some(state) => state,
            None => {
                return Err(join2("catalog provider became untrusted: ", id.as_str()));
            },
        }
    };
    if !current_catalog.same_as(&record.original_catalog) {
        return Err(join2("catalog restore verification failed: ", id.as_str()));
    }
    match &record.original_rollout_provider {
        Some(original) => {
            let restored = match snapshot.rollout_provider_values.get(id) {
                Some(value) => match source_provider(value.as_str()) {
                    Some(provider) => provider.same_as(original),
                    None => false,
                },
                None => false,
            };
            if !restored {
                return Err(join2("rollout restore verification failed: ", id.as_str()));
            }
        },
        None => {},
    }
    Ok(())
}

/// Holds a fresh snapshot to the projections that were undone: every session holds again what its
/// record says it held. The first thread, in ascending order, that does not is the error.
pub fn verify_projection_reconciliation(
    snapshot: &Snapshot,
    store: Option<&ProjectionStore>,
    reconciled: &OrderedSet<String>,
) -> (r: Result<(), String>)
    ensures
        match r {
            Ok(()) => reconciliation_fault(
                snapshot.deep_view(),
                sessions::store_view(store),
                reconciled.deep_view(),
            ) is None,
            Err(message) => reconciliation_fault(
                snapshot.deep_view(),
                sessions::store_view(store),
                reconciled.deep_view(),
            ) == Some(message@),
        },
{
    let n: usize = reconciled.len();
    let ghost ids = reconciled.items();
    let current = match store {
        Some(store) => store,
        None => {
            return if n == 0 {
                Ok(())
            } else {
                Err("projection store disappeared during verification".to_owned())
            };
        },
    };
    let ghost view = snapshot.deep_view();
    let ghost known = current.deep_view();
    let mut i: usize = 0;
    while i < n
        invariant
            i <= n == ids.len(),
            ids == reconciled.items(),
            ids == ordered::listed::<String>(reconciled.deep_view()),
            view == snapshot.deep_view(),
            known == current.deep_view(),
            sessions::store_view(store) == Some(known),
            first_restore_fault(view, known, ids, 0) == first_restore_fault(
                view,
                known,
                ids,
                i as nat,
            ),
        decreases n - i,
    {
        match check_restored(snapshot, current, reconciled.item_at(i)) {
            Ok(()) => {},
            Err(message) => {
                return Err(message);
            },
        }
        i += 1;
    }
    Ok(())
}

/// Undoing a projection only ever puts back sessions that still hold what the projection wrote.
pub proof fn law_undo_needs_the_projection(
    so_far: Undoing,
    snapshot: SnapshotView,
    excluded: Set<Seq<char>>,
    record: ProjectionRecordView,
)
    ensures
        ({
            let after = undo_step(so_far, snapshot, excluded, record);
            let now = standing(snapshot, record.thread_id);
            after.plan.changed_ids != so_far.plan.changed_ids || after.plan.state_restores
                != so_far.plan.state_restores || after.plan.state_deletes
                != so_far.plan.state_deletes || after.plan.rollout_updates
                != so_far.plan.rollout_updates || after.plan.catalog_updates
                != so_far.plan.catalog_updates || after.plan.catalog_deletes
                != so_far.plan.catalog_deletes ==> holds_projection(now, record)
                && !planning_excludes(snapshot, excluded, record.thread_id)
        }),
{
}

/// A repair may not touch the session that stands for a thread.
pub open spec fn planning_excludes(
    snapshot: SnapshotView,
    excluded: Set<Seq<char>>,
    id: Seq<char>,
) -> bool {
    candidate(snapshot, id) is None || planning::exclusion(
        snapshot,
        excluded,
        candidate(snapshot, id)->0.id,
    ) is Some
}

/// The provider that the rollout of a thread names, if it can be trusted.
pub open spec fn rollout_origin(snapshot: SnapshotView, id: Seq<char>) -> Option<SourceProviderView> {
    match sessions::lookup(snapshot.rollout_provider_values, id) {
        Some(value) => trusted(value),
        None => None,
    }
}

fn find_rollout_origin(snapshot: &Snapshot, id: &String) -> (r: Option<SourceProvider>)
    ensures
        r.deep_view() == rollout_origin(snapshot.deep_view(), id@),
{
    match snapshot.rollout_provider_values.get(id) {
        Some(value) => source_provider(value.as_str()),
        None => None,
    }
}

/// The records in force, without those that were undone.
pub open spec fn records_in_force(
    existing: Option<ProjectionStoreView>,
    reconciled: Set<Seq<char>>,
) -> Map<Seq<char>, ProjectionRecordView> {
    match existing {
        Some(store) => store.threads.remove_keys(reconciled),
        None => Map::empty(),
    }
}

fn keep_records(existing: Option<&ProjectionStore>, reconciled: &OrderedSet<String>) -> (r:
    OrderedMap<String, ProjectionRecord>)
    ensures
        r.deep_view() == records_in_force(
            sessions::store_view(existing),
            reconciled.deep_view(),
        ),
{
    let mut out: OrderedMap<String, ProjectionRecord> = OrderedMap::new();
    match existing {
        None => {},
        Some(store) => {
            let n: usize = store.threads.len();
            let ghost keys = store.threads.keys();
            let ghost all = store.threads.deep_view();
            let ghost gone = reconciled.deep_view();
            let mut i: usize = 0;
            while i < n
                invariant
                    i <= n == keys.len(),
                    keys == store.threads.keys(),
                    all == store.threads.deep_view(),
                    gone == reconciled.deep_view(),
                    store.threads.keys_describe(),
                    forall|id: Seq<char>| #[trigger]
                        out.deep_view().dom().contains(id) ==> all.dom().contains(id)
                            && !gone.contains(id) && out.deep_view()[id] == all[id],
                    forall|j: int|
                        0 <= j < i && !gone.contains(keys[j]) ==> out.deep_view().dom().contains(
                            #[trigger] keys[j],
                        ),
                decreases n - i,
            {
                if !reconciled.contains(store.threads.key_at(i)) {
                    out.insert(
                        store.threads.key_at(i).copy_of(),
                        store.threads.value_at(i).copy_of(),
                    );
                }
                i += 1;
            }
            assert forall|id: Seq<char>|
                #[trigger] all.remove_keys(gone).dom().contains(id) implies
                out.deep_view().dom().contains(id) by {
                assert(keys.contains(id));
                let j = choose|j: int| 0 <= j < keys.len() && keys[j] == id;
                assert(keys[j] == id);
            }
            assert(out.deep_view() =~= all.remove_keys(gone));
        },
    }
    out
}

/// A captured record, with the origin that an earlier record knows.
pub open spec fn merged_record(
    previous: Option<ProjectionRecordView>,
    captured: ProjectionRecordView,
    rollout: Option<SourceProviderView>,
) -> ProjectionRecordView {
    match previous {
        Some(earlier) => ProjectionRecordView {
            origin_provider: earlier.origin_provider,
            original_state_provider: earlier.original_state_provider,
            original_state_present: earlier.original_state_present,
            original_catalog: earlier.original_catalog,
            original_rollout_provider: earlier.original_rollout_provider,
            ..captured
        },
        None => ProjectionRecordView { original_rollout_provider: rollout, ..captured },
    }
}

/// The records in force together with the captured ones.
pub open spec fn merged_records(
    records: Map<Seq<char>, ProjectionRecordView>,
    captured: Map<Seq<char>, ProjectionRecordView>,
    snapshot: SnapshotView,
) -> Map<Seq<char>, ProjectionRecordView> {
    Map::new(
        |id: Seq<char>| records.dom().contains(id) || captured.dom().contains(id),
        |id: Seq<char>|
            if captured.dom().contains(id) {
                merged_record(
                    sessions::lookup(records, id),
                    captured[id],
                    rollout_origin(snapshot, id),
                )
            } else {
                records[id]
            },
    )
}

fn merge_captured(
    records: &mut OrderedMap<String, ProjectionRecord>,
    captured: &OrderedMap<String, ProjectionRecord>,
    snapshot: &Snapshot,
)
    ensures
        final(records).deep_view() == merged_records(
            old(records).deep_view(),
            captured.deep_view(),
            snapshot.deep_view(),
        ),
{
    let ghost before = records.deep_view();
    let ghost added = captured.deep_view();
    let ghost view = snapshot.deep_view();
    let ghost whole = merged_records(before, added, view);
    let n: usize = captured.len();
    let ghost keys = captured.keys();
    let mut i: usize = 0;
    while i < n
        invariant
            i <= n == keys.len(),
            keys == captured.keys(),
            captured.keys_describe(),
            added == captured.deep_view(),
            view == snapshot.deep_view(),
            whole == merged_records(before, added, view),
            forall|id: Seq<char>| #[trigger]
                records.deep_view().dom().contains(id) <==> before.dom().contains(id)
                    || keys.take(i as int).contains(id),
            forall|id: Seq<char>| #[trigger]
                records.deep_view().dom().contains(id) ==> records.deep_view()[id] == (
                if keys.take(i as int).contains(id) {
                    whole[id]
                } else {
                    before[id]
                }),
        decreases n - i,
    {
        let id = captured.key_at(i);
        let mut record = captured.value_at(i).copy_of();
        proof {
            let key = keys[i as int];
            assert(!keys.take(i as int).contains(key)) by {
                if keys.take(i as int).contains(key) {
                    let j = choose|j: int| 0 <= j < i && keys.take(i as int)[j] == key;
                    <String as crate::ordered::Ordered>::order_total(keys[j], key);
                    assert(<String as crate::ordered::Ordered>::relation_of(keys[j], keys[i as int])
                        == crate::text::Relation::Less);
                }
            }
            assert(keys.take(i + 1) =~= keys.take(i as int).push(key));
            assert forall|x: Seq<char>| #[trigger] keys.take(i + 1).contains(x) <==> (keys.take(
                i as int,
            ).contains(x) || x == key) by {
                sessions::lemma_push_contains(keys.take(i as int), key, x);
            }
            assert(added.dom().contains(key));
        }
        match records.get(id) {
            Some(previous) => {
                record.origin_provider = previous.origin_provider.copy_of();
                record.original_state_provider = previous.original_state_provider.copy_of();
                record.original_state_present = previous.original_state_present;
                record.original_catalog = previous.original_catalog.copy_of();
                record.original_rollout_provider = previous.original_rollout_provider.copy_of();
            },
            None => {
                record.original_rollout_provider = find_rollout_origin(snapshot, id);
            },
        }
        assert(record.deep_view() == whole[keys[i as int]]);
        records.insert(id.copy_of(), record);
        i += 1;
    }
    assert(keys.take(i as int) =~= keys);
    assert forall|id: Seq<char>| #[trigger] added.dom().contains(id) implies keys.contains(id) by {}
    assert forall|id: Seq<char>| keys.contains(id) implies #[trigger] added.dom().contains(id) by {
        let j = choose|j: int| 0 <= j < keys.len() && keys[j] == id;
        assert(added.dom().contains(keys[j]));
    }
    assert(records.deep_view() =~= whole);
}

/// The records, and whether they changed.
pub struct Following {
    pub records: Map<Seq<char>, ProjectionRecordView>,
    pub changed: bool,
}

/// The record of a session that needs nothing but its rollout moved.
pub open spec fn rollout_record(
    session: EligibleSessionView,
    id: Seq<char>,
    rollout: SourceProviderView,
    target: SourceProviderView,
    version: u64,
    timestamp: i64,
) -> ProjectionRecordView {
    ProjectionRecordView {
        thread_id: id,
        original_rollout_provider: Some(rollout),
        ..projection::record_of(session, target, version, timestamp)
    }
}

/// The records after one more planned session: a record follows the target and learns the origin
/// of its rollout; a session without one gets one where its rollout is moved. Nothing comes back
/// where such a session is not among those given.
pub open spec fn follow_step(
    so_far: Following,
    snapshot: SnapshotView,
    sessions: Seq<EligibleSessionView>,
    target: SourceProviderView,
    version: u64,
    timestamp: i64,
    id: Seq<char>,
) -> Option<Following> {
    match rollout_origin(snapshot, id) {
        None => Some(so_far),
        Some(rollout) => if so_far.records.dom().contains(id) {
            let record = so_far.records[id];
            let target_changed = record.projected_target != target;
            let origin_captured = record.original_rollout_provider is None && rollout != target;
            if target_changed || origin_captured {
                Some(
                    Following {
                        records: so_far.records.insert(
                            id,
                            ProjectionRecordView {
                                projected_target: target,
                                original_rollout_provider: if origin_captured {
                                    Some(rollout)
                                } else {
                                    record.original_rollout_provider
                                },
                                version,
                                timestamp,
                                ..record
                            },
                        ),
                        changed: true,
                    },
                )
            } else {
                Some(so_far)
            }
        } else if rollout == target {
            Some(so_far)
        } else {
            match projection::session_by_id(sessions, id) {
                None => None,
                Some(session) => Some(
                    Following {
                        records: so_far.records.insert(
                            id,
                            rollout_record(session, id, rollout, target, version, timestamp),
                        ),
                        changed: true,
                    },
                ),
            }
        },
    }
}

/// The records after the planned sessions, or the first of them that is not among those given.
pub open spec fn followed(
    start: Following,
    snapshot: SnapshotView,
    sessions: Seq<EligibleSessionView>,
    target: SourceProviderView,
    version: u64,
    timestamp: i64,
    planned: Seq<PlannedSessionView>,
) -> Result<Following, Seq<char>>
    decreases planned.len(),
{
    if planned.len() == 0 {
        Ok(start)
    } else {
        match followed(start, snapshot, sessions, target, version, timestamp, planned.drop_last()) {
            Err(id) => Err(id),
            Ok(so_far) => match follow_step(
                so_far,
                snapshot,
                sessions,
                target,
                version,
                timestamp,
                planned.last().thread_id,
            ) {
                Some(next) => Ok(next),
                None => Err(planned.last().thread_id),
            },
        }
    }
}

proof fn lemma_follow_stops(
    start: Following,
    snapshot: SnapshotView,
    sessions: Seq<EligibleSessionView>,
    target: SourceProviderView,
    version: u64,
    timestamp: i64,
    planned: Seq<PlannedSessionView>,
    n: int,
)
    requires
        0 <= n <= planned.len(),
        followed(start, snapshot, sessions, target, version, timestamp, planned.take(n)) is Err,
    ensures
        followed(start, snapshot, sessions, target, version, timestamp, planned) == followed(
            start,
            snapshot,
            sessions,
            target,
            version,
            timestamp,
            planned.take(n),
        ),
    decreases planned.len(),
{
    if n == planned.len() {
        assert(planned.take(n) =~= planned);
    } else {
        assert(planned.drop_last().take(n) =~= planned.take(n));
        lemma_follow_stops(
            start,
            snapshot,
            sessions,
            target,
            version,
            timestamp,
            planned.drop_last(),
            n,
        );
    }
}

/// The store after a repair, or why there is none.
pub open spec fn next_store(
    existing: Option<ProjectionStoreView>,
    preview: ProviderPlanPreviewView,
    sessions: Seq<EligibleSessionView>,
    snapshot: SnapshotView,
    reconciled: Set<Seq<char>>,
    timestamp: i64,
) -> Result<ProjectionStoreView, Seq<char>> {
    let known: u64 = match existing {
        Some(store) => store.projection_version,
        None => 0,
    };
    let version = (known + 1) as u64;
    let target = preview.target_provider;
    let fault = projection::plan_fault(preview);
    let repeated = projection::repeated_from(projection::session_ids(sessions), 0);
    let captured = projection::captured_threads(
        preview.sessions,
        sessions,
        target,
        version,
        timestamp,
    );
    if known == u64::MAX {
        Err("projection version overflow"@)
    } else if fault is Some {
        Err(projection::error_message(fault->0))
    } else if repeated is Some {
        Err(
            projection::error_message(
                ProjectionErrorView::DuplicateSessionId(repeated->0),
            ),
        )
    } else if captured is Err {
        Err(
            projection::error_message(
                ProjectionErrorView::InvariantViolation(
                    "preview session is absent from capture input: "@ + captured->Err_0,
                ),
            ),
        )
    } else {
        let start = Following {
            records: merged_records(
                records_in_force(existing, reconciled),
                captured->Ok_0,
                snapshot,
            ),
            changed: reconciled != Set::<Seq<char>>::empty() || captured->Ok_0.dom() != Set::<
                Seq<char>,
            >::empty(),
        };
        match followed(start, snapshot, sessions, target, version, timestamp, preview.sessions) {
            Err(id) => Err("preview session is absent from projection input: "@ + id),
            Ok(after) => if !after.changed && existing is Some {
                Ok(existing->0)
            } else {
                Ok(
                    ProjectionStoreView {
                        schema_version: 3,
                        projection_version: version,
                        target_provider: target,
                        timestamp,
                        threads: after.records,
                    },
                )
            },
        }
    }
}

fn follow(
    records: &mut OrderedMap<String, ProjectionRecord>,
    changed: &mut bool,
    snapshot: &Snapshot,
    sessions: &Vec<EligibleSession>,
    target: &SourceProvider,
    version: u64,
    timestamp: i64,
    id: &String,
) -> (r: bool)
    ensures
        ({
            let after = follow_step(
                Following { records: old(records).deep_view(), changed: *old(changed) },
                snapshot.deep_view(),
                sessions.deep_view(),
                target.deep_view(),
                version,
                timestamp,
                id@,
            );
            if r {
                after == Some(
                    Following { records: final(records).deep_view(), changed: *final(changed) },
                )
            } else {
                after is None
            }
        }),
{
    let rollout = match find_rollout_origin(snapshot, id) {
        Some(provider) => provider,
        None => {
            return true;
        },
    };
    let known: Option<ProjectionRecord> = match records.get(id) {
        Some(record) => Some(record.copy_of()),
        None => None,
    };
    match known {
        Some(mut record) => {
            let target_changed = !record.projected_target.same_as(target);
            let origin_captured = record.original_rollout_provider.is_none() && !rollout.same_as(
                target,
            );
            if target_changed || origin_captured {
                record.projected_target = target.copy_of();
                if origin_captured {
                    record.original_rollout_provider = Some(rollout);
                }
                record.version = version;
                record.timestamp = timestamp;
                records.insert(id.copy_of(), record);
                *changed = true;
            }
            true
        },
        None => {
            if rollout.same_as(target) {
                return true;
            }
            match projection::find_session(sessions, id) {
                None => false,
                Some(session) => {
                    records.insert(
                        id.copy_of(),
                        ProjectionRecord {
                            thread_id: id.copy_of(),
                            origin_provider: session.origin_provider.copy_of(),
                            original_state_present: session.state_present,
                            original_state_provider: session.state_provider.copy_of(),
                            original_catalog: session.catalog.copy_of(),
                            original_rollout_provider: Some(rollout),
                            projected_target: target.copy_of(),
                            version,
                            timestamp,
                        },
                    );
                    *changed = true;
                    true
                },
            }
        },
    }
}

/// The record of projections after a repair at `timestamp`: what was undone is dropped, what was
/// moved is added, and an origin once recorded is kept.
pub fn next_projection_store(
    existing: Option<&ProjectionStore>,
    preview: &ProviderPlanPreview,
    sessions: &Vec<EligibleSession>,
    snapshot: &Snapshot,
    reconciled: &OrderedSet<String>,
    timestamp: i64,
) -> (r: Result<ProjectionStore, String>)
    requires
        preview.matrix.sum() <= usize::MAX,
    ensures
        model::outcome(r) == next_store(
            sessions::store_view(existing),
            preview.deep_view(),
            sessions.deep_view(),
            snapshot.deep_view(),
            reconciled.deep_view(),
            timestamp,
        ),
{
    let known: u64 = match existing {
        Some(store) => store.projection_version,
        None => 0,
    };
    let version: u64 = match known.checked_add(1) {
        Some(version) => version,
        None => {
            return Err("projection version overflow".to_owned());
        },
    };
    let captured = match ProjectionStore::capture(preview, sessions, version, timestamp) {
        Ok(store) => store,
        Err(error) => {
            return Err(error.message());
        },
    };
    let mut records = keep_records(existing, reconciled);
    let undone_count: usize = reconciled.len();
    let captured_count: usize = captured.threads.len();
    let mut changed = undone_count > 0 || captured_count > 0;
    proof {
        if undone_count == 0 {
            assert(reconciled.deep_view() =~= Set::<Seq<char>>::empty());
        } else {
            assert(reconciled.deep_view().contains(reconciled.items()[0]));
        }
        if captured_count == 0 {
            assert(captured.threads.deep_view().dom() =~= Set::<Seq<char>>::empty());
        } else {
            assert(captured.threads.deep_view().dom().contains(captured.threads.keys()[0]));
        }
    }
    merge_captured(&mut records, &captured.threads, snapshot);
    let target = &preview.target_provider;
    let ghost start = Following { records: records.deep_view(), changed };
    let ghost view = snapshot.deep_view();
    let ghost given = sessions.deep_view();
    let ghost planned = preview.sessions.deep_view();
    let mut i: usize = 0;
    while i < preview.sessions.len()
        invariant
            i <= preview.sessions@.len(),
            planned == preview.sessions.deep_view(),
            view == snapshot.deep_view(),
            given == sessions.deep_view(),
            target.deep_view() == preview.target_provider.deep_view(),
            followed(
                start,
                view,
                given,
                target.deep_view(),
                version,
                timestamp,
                planned.take(i as int),
            ) == Ok::<Following, Seq<char>>(Following { records: records.deep_view(), changed }),
            next_store(
                sessions::store_view(existing),
                preview.deep_view(),
                given,
                view,
                reconciled.deep_view(),
                timestamp,
            ) == (match followed(
                start,
                view,
                given,
                target.deep_view(),
                version,
                timestamp,
                planned,
            ) {
                Err(id) => Err::<ProjectionStoreView, Seq<char>>(
                    "preview session is absent from projection input: "@ + id,
                ),
                Ok(after) => if !after.changed && existing is Some {
                    Ok(sessions::store_view(existing)->0)
                } else {
                    Ok(
                        ProjectionStoreView {
                            schema_version: 3,
                            projection_version: version,
                            target_provider: target.deep_view(),
                            timestamp,
                            threads: after.records,
                        },
                    )
                },
            }),
        decreases preview.sessions@.len() - i,
    {
        let entry = &preview.sessions[i];
        proof {
            assert(planned[i as int] == entry.deep_view());
            assert(planned.take(i + 1).drop_last() =~= planned.take(i as int));
            assert(planned.take(i + 1).last() == planned[i as int]);
        }
        if !follow(
            &mut records,
            &mut changed,
            snapshot,
            sessions,
            target,
            version,
            timestamp,
            &entry.thread_id,
        ) {
            proof {
                lemma_follow_stops(
                    start,
                    view,
                    given,
                    target.deep_view(),
                    version,
                    timestamp,
                    planned,
                    i + 1,
                );
            }
            return Err(
                join2(
                    "preview session is absent from projection input: ",
                    entry.thread_id.as_str(),
                ),
            );
        }
        i += 1;
    }
    assert(planned.take(i as int) =~= planned);
    if !changed {
        match existing {
            Some(store) => {
                return Ok(store.copy_of());
            },
            None => {},
        }
    }
    Ok(
        ProjectionStore {
            schema_version: 3,
            projection_version: version,
            target_provider: target.copy_of(),
            timestamp,
            threads: records,
        },
    )
}

/// What a record says of the time before any projection.
pub open spec fn same_origin(a: ProjectionRecordView, b: ProjectionRecordView) -> bool {
    &&& a.origin_provider == b.origin_provider
    &&& a.original_state_present == b.original_state_present
    &&& a.original_state_provider == b.original_state_provider
    &&& a.original_catalog == b.original_catalog
    &&& a.original_rollout_provider is Some ==> b.original_rollout_provider
        == a.original_rollout_provider
}

proof fn lemma_following_keeps_origins(
    start: Following,
    snapshot: SnapshotView,
    sessions: Seq<EligibleSessionView>,
    target: SourceProviderView,
    version: u64,
    timestamp: i64,
    planned: Seq<PlannedSessionView>,
    id: Seq<char>,
)
    requires
        start.records.dom().contains(id),
    ensures
        followed(start, snapshot, sessions, target, version, timestamp, planned) matches Ok(after)
            ==> {
            &&& after.records.dom().contains(id)
            &&& same_origin(start.records[id], after.records[id])
            &&& !planning::planned_ids(planned).contains(id) ==> after.records[id]
                == start.records[id]
        },
    decreases planned.len(),
{
    if planned.len() > 0 {
        lemma_following_keeps_origins(
            start,
            snapshot,
            sessions,
            target,
            version,
            timestamp,
            planned.drop_last(),
            id,
        );
        if !planning::planned_ids(planned).contains(id) {
            assert(planned[planned.len() - 1].thread_id != id);
            assert forall|i: int| 0 <= i < planned.drop_last().len() implies (
            #[trigger] planned.drop_last()[i]).thread_id != id by {
                assert(planned[i].thread_id != id);
            }
        }
    }
}

/// A repair keeps what the store knows of the time before any projection, and leaves the records
/// of sessions that it neither plans nor undoes as they are.
pub proof fn law_store_keeps_origins(
    existing: ProjectionStoreView,
    preview: ProviderPlanPreviewView,
    sessions: Seq<EligibleSessionView>,
    snapshot: SnapshotView,
    reconciled: Set<Seq<char>>,
    timestamp: i64,
    id: Seq<char>,
)
    requires
        existing.threads.dom().contains(id),
        !reconciled.contains(id),
    ensures
        next_store(Some(existing), preview, sessions, snapshot, reconciled, timestamp) matches Ok(
            next,
        ) ==> {
            &&& next.threads.dom().contains(id)
            &&& same_origin(existing.threads[id], next.threads[id])
            &&& !planning::planned_ids(preview.sessions).contains(id) ==> next.threads[id]
                == existing.threads[id]
        },
{
    let version = (existing.projection_version + 1) as u64;
    let target = preview.target_provider;
    let captured = projection::captured_threads(
        preview.sessions,
        sessions,
        target,
        version,
        timestamp,
    );
    if captured is Ok {
        let start = Following {
            records: merged_records(
                records_in_force(Some(existing), reconciled),
                captured->Ok_0,
                snapshot,
            ),
            changed: reconciled != Set::<Seq<char>>::empty() || captured->Ok_0.dom() != Set::<
                Seq<char>,
            >::empty(),
        };
        lemma_following_keeps_origins(
            start,
            snapshot,
            sessions,
            target,
            version,
            timestamp,
            preview.sessions,
            id,
        );
        if !planning::planned_ids(preview.sessions).contains(id) {
            lemma_captured_are_planned(
                preview.sessions,
                sessions,
                target,
                version,
                timestamp,
                id,
            );
        }
    }
}

proof fn lemma_captured_are_planned(
    planned: Seq<PlannedSessionView>,
    sessions: Seq<EligibleSessionView>,
    target: SourceProviderView,
    version: u64,
    timestamp: i64,
    id: Seq<char>,
)
    requires
        !planning::planned_ids(planned).contains(id),
    ensures
        projection::captured_threads(planned, sessions, target, version, timestamp) matches Ok(
            threads,
        ) ==> !threads.dom().contains(id),
    decreases planned.len(),
{
    if planned.len() > 0 {
        assert(planned[planned.len() - 1].thread_id != id);
        assert forall|i: int| 0 <= i < planned.drop_last().len() implies (
        #[trigger] planned.drop_last()[i]).thread_id != id by {
            assert(planned[i].thread_id != id);
        }
        lemma_captured_are_planned(
            planned.drop_last(),
            sessions,
            target,
            version,
            timestamp,
            id,
        );
        lemma_session_by_id(sessions, planned.last().thread_id);
    }
}

proof fn lemma_session_by_id(sessions: Seq<EligibleSessionView>, id: Seq<char>)
    ensures
        projection::session_by_id(sessions, id) matches Some(session) ==> session.id == id,
    decreases sessions.len(),
{
    if sessions.len() > 0 {
        lemma_session_by_id(sessions.drop_last(), id);
    }
}

/// A projection that was undone has no record any more, unless the same repair projects its
/// session anew.
pub proof fn law_store_drops_undone(
    existing: ProjectionStoreView,
    reconciled: Set<Seq<char>>,
    id: Seq<char>,
)
    requires
        reconciled.contains(id),
    ensures
        !records_in_force(Some(existing), reconciled).dom().contains(id),
{
}

/// A projection can be looked into exactly where its session is there and may be touched, and its
/// state row, its one local catalog row and its rollout name providers with safe names.
pub proof fn law_projection_can_be_looked_into(
    snapshot: SnapshotView,
    excluded: Set<Seq<char>>,
    id: Seq<char>,
)
    ensures
        ({
            let row = sessions::thread_by_id(snapshot.threads, id);
            let rows = locality::local_rows_of(snapshot.catalog, id);
            undo_fault(snapshot, excluded, id) is None <==> {
                &&& candidate(snapshot, id) is Some
                &&& planning::exclusion(
                    snapshot,
                    excluded,
                    candidate(snapshot, id)->0.id,
                ) is None
                &&& row is Some ==> providers::safe_id(row->0.provider)
                &&& rows.len() <= 1
                &&& rows.len() == 1 ==> providers::safe_id(rows[0].provider)
                &&& snapshot.rollout_provider_values.dom().contains(id)
                &&& providers::safe_id(snapshot.rollout_provider_values[id])
            }
        }),
        candidate(snapshot, id) is Some <==> sessions::thread_by_id(snapshot.threads, id) is Some
            || snapshot.primary_rollouts.dom().contains(id),
        sessions::thread_by_id(snapshot.threads, id) is Some ==> candidate(snapshot, id)
            == sessions::thread_by_id(snapshot.threads, id),
{
}

/// Undoing a projection puts back what the record says was there: the state row gets its provider
/// back, or goes where there was none; the rollout names again what it named; and the catalog row
/// gets its provider and its mark back, or goes. Each write expects what is there now.
pub proof fn law_undo_puts_back_what_was_there(
    so_far: Undoing,
    snapshot: SnapshotView,
    excluded: Set<Seq<char>>,
    record: ProjectionRecordView,
)
    requires
        undo_fault(snapshot, excluded, record.thread_id) is None,
        !holds_original(standing(snapshot, record.thread_id), record),
        holds_projection(standing(snapshot, record.thread_id), record),
        snapshot.rollout_paths.dom().contains(record.thread_id),
    ensures
        ({
            let id = record.thread_id;
            let now = standing(snapshot, id);
            let after = undo_step(so_far, snapshot, excluded, record);
            let row = now.row->0;
            let path = snapshot.rollout_paths[id];
            &&& after.reconciled == so_far.reconciled.insert(id)
            &&& after.plan.changed_ids == so_far.plan.changed_ids.insert(id)
            &&& record.original_state_present && now.state_provider != Some(
                record.original_state_provider,
            ) ==> {
                let write = after.plan.state_restores.last();
                &&& after.plan.state_restores.len() == so_far.plan.state_restores.len() + 1
                &&& write.thread_id == id
                &&& write.expected_provider == now.thread->0.provider
                &&& write.expected_rollout_path == now.thread->0.rollout_path
                &&& write.rollout_path == now.thread->0.rollout_path
                &&& write.thread_source == now.thread->0.thread_source
                &&& write.has_user_event == now.thread->0.has_user_event
                &&& write.provider == providers::canonical_id(
                    projection::provider_id(record.original_state_provider),
                )
            }
            &&& !record.original_state_present && now.thread is Some ==> {
                &&& after.plan.state_deletes.len() == so_far.plan.state_deletes.len() + 1
                &&& after.plan.state_deletes.last() == (StateDeleteView {
                    thread_id: id,
                    expected_provider: now.thread->0.provider,
                    expected_rollout_path: path,
                })
            }
            &&& record.original_rollout_provider is Some && record.original_rollout_provider->0
                != now.rollout ==> {
                &&& after.plan.rollout_updates.len() == so_far.plan.rollout_updates.len() + 1
                &&& after.plan.rollout_updates.last() == (RolloutUpdateView {
                    thread_id: id,
                    path,
                    archived: false,
                    expected_provider: Some(snapshot.rollout_provider_values[id]),
                    provider: Some(
                        providers::canonical_id(
                            projection::provider_id(record.original_rollout_provider->0),
                        ),
                    ),
                })
            }
            &&& record.original_catalog is Missing ==> after.plan.catalog_deletes
                == so_far.plan.catalog_deletes.push(
                CatalogDeleteView {
                    host_id: "local"@,
                    thread_id: id,
                    expected_provider: row.provider,
                    expected_missing_candidate: row.missing_candidate,
                },
            )
            &&& !(record.original_catalog is Missing) ==> {
                let write = after.plan.catalog_updates.last();
                let provider = match record.original_catalog {
                    CatalogStateView::Present { provider } => provider,
                    CatalogStateView::MissingCandidate { provider } => provider,
                    CatalogStateView::Missing => record.projected_target,
                };
                &&& after.plan.catalog_updates.len() == so_far.plan.catalog_updates.len() + 1
                &&& write.host_id == "local"@
                &&& write.thread_id == id
                &&& write.expected_provider == row.provider
                &&& write.expected_missing_candidate == row.missing_candidate
                &&& write.provider == providers::canonical_id(projection::provider_id(provider))
                &&& write.missing_candidate == (record.original_catalog is MissingCandidate)
            }
        }),
{
}

/// A session that already holds what it held counts as undone without a write; one that holds neither
/// that nor what the projection wrote, or cannot be looked into, is left alone and named.
pub proof fn law_undo_leaves_alone_what_changed(
    so_far: Undoing,
    snapshot: SnapshotView,
    excluded: Set<Seq<char>>,
    record: ProjectionRecordView,
)
    ensures
        ({
            let id = record.thread_id;
            let now = standing(snapshot, id);
            let after = undo_step(so_far, snapshot, excluded, record);
            let fault = undo_fault(snapshot, excluded, id);
            &&& fault is Some ==> after.reconciled == so_far.reconciled
                && after.plan.skipped.last() == planning::reason_for(id, fault->0)
                && after.plan.changed_ids == so_far.plan.changed_ids
            &&& fault is None && holds_original(now, record) ==> after.plan == so_far.plan
                && after.reconciled == so_far.reconciled.insert(id)
            &&& fault is None && !holds_original(now, record) && !holds_projection(now, record)
                ==> after.reconciled == so_far.reconciled && after.plan.skipped.last()
                == planning::reason_for(id, "projection_reconcile_conflict"@)
                && after.plan.changed_ids == so_far.plan.changed_ids
        }),
{
}

/// What a session held, and what a projection wrote into it, is told by its state row, its catalog row
/// and its rollout.
pub proof fn law_what_a_session_holds(now: Standing, record: ProjectionRecordView)
    ensures
        holds_original(now, record) <==> {
            &&& record.original_state_present ==> now.state_provider == Some(
                record.original_state_provider,
            )
            &&& !record.original_state_present ==> now.state_provider is None
            &&& now.catalog == record.original_catalog
            &&& record.original_rollout_provider is Some ==> record.original_rollout_provider->0
                == now.rollout
        },
        holds_projection(now, record) ==> now.catalog == (CatalogStateView::Present {
            provider: record.projected_target,
        }),
        holds_projection(now, record) && record.original_state_present ==> now.thread is Some
            && !now.thread->0.archived && now.state_provider == Some(record.projected_target),
        holds_projection(now, record) && record.original_rollout_provider is Some ==> now.rollout
            == record.projected_target,
        holds_projection(now, record) && now.thread is None ==> !record.original_state_present,
{
}

/// A session reads as undone exactly where its record is still there and its state row, its last local
/// catalog row and its rollout say again what they said before.
pub proof fn law_undone_session_reads_as_before(
    snapshot: SnapshotView,
    store: ProjectionStoreView,
    id: Seq<char>,
)
    ensures
        ({
            let record = store.threads[id];
            let thread = sessions::thread_by_id(snapshot.threads, id);
            let row = last_local_row(snapshot.catalog, id);
            restore_fault(snapshot, store, id) is None <==> {
                &&& store.threads.dom().contains(id)
                &&& record.original_state_present ==> thread is Some && trusted(
                    thread->0.provider,
                ) == Some(record.original_state_provider)
                &&& !record.original_state_present ==> thread is None
                &&& row is None ==> record.original_catalog is Missing
                &&& row is Some ==> catalog_row_state(row->0) == Some(record.original_catalog)
                &&& record.original_rollout_provider is Some
                    ==> snapshot.rollout_provider_values.dom().contains(id) && trusted(
                    snapshot.rollout_provider_values[id],
                ) == record.original_rollout_provider
            }
        }),
{
}

/// A catalog row says that its session is listed, or a candidate, under its provider, where that has
/// a safe name; a projection is undone exactly where its session is not planned anew and is selected.
pub proof fn law_catalog_rows_say_how_sessions_stand(
    row: CatalogRowView,
    record: ProjectionRecordView,
    desired: Set<Seq<char>>,
    selected: Option<Set<Seq<char>>>,
)
    ensures
        catalog_row_state(row) is Some <==> providers::safe_id(row.provider),
        providers::safe_id(row.provider) && row.missing_candidate ==> catalog_row_state(row) == Some(
            CatalogStateView::MissingCandidate { provider: projection::provider_of(row.provider) },
        ),
        providers::safe_id(row.provider) && !row.missing_candidate ==> catalog_row_state(row)
            == Some(
            CatalogStateView::Present { provider: projection::provider_of(row.provider) },
        ),
        undo_wanted(record, desired, selected) <==> !desired.contains(record.thread_id) && (
        selected is None || selected->0.contains(record.thread_id)),
        trusted(row.provider) is Some <==> providers::safe_id(row.provider),
        providers::safe_id(row.provider) ==> projection::provider_id(trusted(row.provider)->0)
            == row.provider,
{
}

/// The store after a repair is the one before where nothing changed, and otherwise has the next
/// version, the target and the time of the repair; there is none where the version cannot grow, the
/// plan has a fault or a session occurs twice.
pub proof fn law_next_store_has_the_next_version(
    existing: Option<ProjectionStoreView>,
    preview: ProviderPlanPreviewView,
    sessions: Seq<EligibleSessionView>,
    snapshot: SnapshotView,
    reconciled: Set<Seq<char>>,
    timestamp: i64,
)
    ensures
        ({
            let outcome = next_store(
                existing,
                preview,
                sessions,
                snapshot,
                reconciled,
                timestamp,
            );
            let known: u64 = if existing is Some {
                existing->0.projection_version
            } else {
                0
            };
            &&& outcome is Ok ==> known < u64::MAX && projection::plan_fault(preview) is None
                && projection::session_ids(sessions).no_duplicates()
            &&& outcome is Ok && Some(outcome->Ok_0) != existing ==> {
                let next = outcome->Ok_0;
                &&& next.projection_version == known + 1
                &&& next.target_provider == preview.target_provider
                &&& next.timestamp == timestamp
                &&& next.schema_version == 3
            }
        }),
{
    projection::law_repeated_ids_are_told(projection::session_ids(sessions));
}

/// A session that is projected again keeps what its first record says of the time before, and a new
/// record takes over what the session holds and what its rollout named.
pub proof fn law_first_record_counts(
    earlier: ProjectionRecordView,
    captured: ProjectionRecordView,
    rollout: Option<SourceProviderView>,
)
    ensures
        ({
            let merged = merged_record(Some(earlier), captured, rollout);
            &&& merged.origin_provider == earlier.origin_provider
            &&& merged.original_state_provider == earlier.original_state_provider
            &&& merged.original_state_present == earlier.original_state_present
            &&& merged.original_catalog == earlier.original_catalog
            &&& merged.original_rollout_provider == earlier.original_rollout_provider
            &&& merged.projected_target == captured.projected_target
            &&& merged.version == captured.version
            &&& merged.timestamp == captured.timestamp
            &&& merged.thread_id == captured.thread_id
        }),
        ({
            let fresh = merged_record(None, captured, rollout);
            &&& fresh.original_rollout_provider == rollout
            &&& fresh.origin_provider == captured.origin_provider
            &&& fresh.original_state_provider == captured.original_state_provider
            &&& fresh.original_state_present == captured.original_state_present
            &&& fresh.original_catalog == captured.original_catalog
            &&& fresh.projected_target == captured.projected_target
            &&& fresh.thread_id == captured.thread_id
        }),
{
}

/// A record follows the target with the version and time of the repair, and learns what its rollout
/// named where it did not know and the rollout is moved; a session without a record gets one exactly
/// where its rollout names another provider than the target.
pub proof fn law_records_follow_the_target(
    so_far: Following,
    snapshot: SnapshotView,
    sessions: Seq<EligibleSessionView>,
    target: SourceProviderView,
    version: u64,
    timestamp: i64,
    id: Seq<char>,
)
    ensures
        ({
            let outcome = follow_step(
                so_far,
                snapshot,
                sessions,
                target,
                version,
                timestamp,
                id,
            );
            let rollout = rollout_origin(snapshot, id);
            let known = so_far.records.dom().contains(id);
            let record = so_far.records[id];
            &&& rollout is None ==> outcome == Some(so_far)
            &&& rollout is Some && known && record.projected_target == target && (
            record.original_rollout_provider is Some || rollout->0 == target) ==> outcome == Some(
                so_far,
            )
            &&& rollout is Some && known && (record.projected_target != target || (
            record.original_rollout_provider is None && rollout->0 != target)) ==> {
                let after = outcome->0.records[id];
                &&& outcome is Some
                &&& outcome->0.changed
                &&& after.projected_target == target
                &&& after.version == version
                &&& after.timestamp == timestamp
                &&& after.origin_provider == record.origin_provider
                &&& after.original_state_provider == record.original_state_provider
                &&& after.original_catalog == record.original_catalog
                &&& record.original_rollout_provider is Some ==> after.original_rollout_provider
                    == record.original_rollout_provider
                &&& record.original_rollout_provider is None && rollout->0 != target
                    ==> after.original_rollout_provider == rollout
            }
            &&& rollout is Some && !known && rollout->0 == target ==> outcome == Some(so_far)
            &&& rollout is Some && !known && rollout->0 != target ==> (outcome is Some
                <==> projection::session_by_id(sessions, id) is Some)
            &&& rollout is Some && !known && rollout->0 != target && outcome is Some ==> {
                let after = outcome->0.records[id];
                let session = projection::session_by_id(sessions, id)->0;
                &&& outcome->0.changed
                &&& outcome->0.records.dom().contains(id)
                &&& after.thread_id == id
                &&& after.original_rollout_provider == rollout
                &&& after.projected_target == target
                &&& after.origin_provider == session.origin_provider
                &&& after.original_state_provider == session.state_provider
                &&& after.original_state_present == session.state_present
                &&& after.original_catalog == session.catalog
                &&& after.version == version
                &&& after.timestamp == timestamp
            }
        }),
{
}

} // verus!

//! What a second repair, and a verification, find once a repair was written.

use crate::effects;
use crate::ordered;
use crate::planning;
use crate::planning::{RolloutUpdate, SkipReason, SkipReasonView, StateUpdate};
use crate::preview;
use crate::preview::ProjectionPreviewResultView;
use crate::projection;
use crate::projection::{
    EligibleSessionView, PlanCategory, PlannedSessionView, ProjectionScope, ProjectionStoreView,
    SourceProviderView,
};
use crate::reconciliation;
use crate::reconciliation::Following;
use crate::records;
use crate::records::{BackedThreadView, SnapshotView};
use crate::repair;
use crate::repair::{
    PlannedRepairView, RepairActionView, RepairEventView, RepairResultView, RepairStage,
    RepairStateView,
};
use crate::sessions;
use crate::sessions::StateInsert;
use crate::verification;
use vstd::prelude::*;

verus! {

/// A session that a repair may touch stands behind an id.
pub open spec fn eligible_id(snapshot: SnapshotView, id: Seq<char>) -> bool {
    &&& sessions::backed_thread(snapshot, id) is Some
    &&& planning::exclusion(snapshot, sessions::remote_ids(snapshot), id) is None
}

/// The sessions of ids that a repair may touch.
pub open spec fn eligible_of(
    snapshot: SnapshotView,
    store: Option<ProjectionStoreView>,
    target: SourceProviderView,
    ids: Seq<Seq<char>>,
) -> Seq<EligibleSessionView> {
    preview::eligible_sessions(
        snapshot,
        store,
        sessions::remote_ids(snapshot),
        target,
        sessions::backed_threads(snapshot, ids),
    )
}

proof fn lemma_backed_id(snapshot: SnapshotView, id: Seq<char>)
    requires
        records::rollouts_filed(snapshot),
    ensures
        sessions::backed_thread(snapshot, id) matches Some(backed) ==> backed.thread.id == id,
{
    effects::lemma_last_row(snapshot.threads, id);
}

proof fn lemma_eligible_ids(
    snapshot: SnapshotView,
    store: Option<ProjectionStoreView>,
    target: SourceProviderView,
    ids: Seq<Seq<char>>,
)
    requires
        records::rollouts_filed(snapshot),
    ensures
        projection::session_ids(eligible_of(snapshot, store, target, ids)) == planning::kept(
            ids,
            |id: Seq<char>| eligible_id(snapshot, id),
        ),
        forall|session: EligibleSessionView| #[trigger]
            eligible_of(snapshot, store, target, ids).contains(session) <==> exists|i: int|
                0 <= i < ids.len() && eligible_id(snapshot, #[trigger] ids[i]) && session
                    == preview::eligible_session(
                    snapshot,
                    store,
                    sessions::backed_thread(snapshot, ids[i])->0,
                    target,
                ),
    decreases ids.len(),
{
    let keep = |id: Seq<char>| eligible_id(snapshot, id);
    let all = eligible_of(snapshot, store, target, ids);
    if ids.len() > 0 {
        let front = ids.drop_last();
        let last = ids.last();
        let rest = eligible_of(snapshot, store, target, front);
        lemma_eligible_ids(snapshot, store, target, front);
        lemma_backed_id(snapshot, last);
        let backed = sessions::backed_threads(snapshot, ids);
        let added = preview::eligible_session(
            snapshot,
            store,
            sessions::backed_thread(snapshot, last)->0,
            target,
        );
        if sessions::backed_thread(snapshot, last) is Some {
            assert(backed.drop_last() =~= sessions::backed_threads(snapshot, front));
            assert(backed.last() == sessions::backed_thread(snapshot, last)->0);
        }
        assert(all == if eligible_id(snapshot, last) {
            rest.push(added)
        } else {
            rest
        });
        assert(projection::session_ids(all) =~= planning::kept(ids, keep));
        assert forall|session: EligibleSessionView| #[trigger]
            all.contains(session) <==> exists|i: int|
                0 <= i < ids.len() && eligible_id(snapshot, #[trigger] ids[i]) && session
                    == preview::eligible_session(
                    snapshot,
                    store,
                    sessions::backed_thread(snapshot, ids[i])->0,
                    target,
                ) by {
            sessions::lemma_push_contains(rest, added, session);
            if rest.contains(session) {
                let i = choose|i: int|
                    0 <= i < front.len() && eligible_id(snapshot, #[trigger] front[i]) && session
                        == preview::eligible_session(
                        snapshot,
                        store,
                        sessions::backed_thread(snapshot, front[i])->0,
                        target,
                    );
                assert(ids[i] == front[i]);
            }
            if eligible_id(snapshot, last) && session == added {
                assert(ids[ids.len() - 1] == last);
            }
            if exists|i: int|
                0 <= i < ids.len() && eligible_id(snapshot, #[trigger] ids[i]) && session
                    == preview::eligible_session(
                    snapshot,
                    store,
                    sessions::backed_thread(snapshot, ids[i])->0,
                    target,
                ) {
                let i = choose|i: int|
                    0 <= i < ids.len() && eligible_id(snapshot, #[trigger] ids[i]) && session
                        == preview::eligible_session(
                        snapshot,
                        store,
                        sessions::backed_thread(snapshot, ids[i])->0,
                        target,
                    );
                if i < front.len() {
                    assert(front[i] == ids[i]);
                }
            }
        }
    } else {
        assert(projection::session_ids(all) =~= planning::kept(ids, keep));
    }
}

/// The ids of a plan for all sessions are those that a repair may touch.
proof fn lemma_planned_ids(
    result: ProjectionPreviewResultView,
    snapshot: SnapshotView,
    store: Option<ProjectionStoreView>,
    target: Seq<char>,
    scope: ProjectionScope,
)
    requires
        records::consistent(snapshot),
        preview::preview_outcome(
            Ok(result),
            snapshot,
            store,
            repair::repair_basis(snapshot, store, target, None),
            target,
            scope,
        ),
    ensures
        forall|id: Seq<char>| #[trigger]
            planning::planned_ids(result.plan.sessions).contains(id) <==> effects::touchable(
                snapshot,
                id,
            ),
{
    let provider = projection::provider_of(target);
    let ids = sessions::rollout_ids(snapshot);
    let all = eligible_of(snapshot, store, provider, ids);
    let planned = result.plan.sessions;
    lemma_eligible_ids(snapshot, store, provider, ids);
    preview::lemma_preview_members(
        result,
        snapshot,
        store,
        sessions::remote_ids(snapshot),
        target,
        scope,
        None,
    );
    assert forall|id: Seq<char>| #[trigger]
        planning::planned_ids(planned).contains(id) <==> effects::touchable(snapshot, id) by {
        if planning::planned_ids(planned).contains(id) {
            let i = choose|i: int| 0 <= i < planned.len() && (#[trigger] planned[i]).thread_id == id;
            assert(planned.contains(planned[i]));
            let k = choose|k: int|
                0 <= k < all.len() && projection::planned_session(#[trigger] all[k], provider)
                    == planned[i];
            assert(all.contains(all[k]));
            let m = choose|m: int|
                0 <= m < ids.len() && eligible_id(snapshot, #[trigger] ids[m]) && all[k]
                    == preview::eligible_session(
                    snapshot,
                    store,
                    sessions::backed_thread(snapshot, ids[m])->0,
                    provider,
                );
            lemma_backed_id(snapshot, ids[m]);
            assert(ids.contains(id));
            effects::lemma_backed_of(snapshot, id);
        }
        if effects::touchable(snapshot, id) {
            effects::lemma_backed_of(snapshot, id);
            let m = choose|m: int| 0 <= m < ids.len() && ids[m] == id;
            assert(eligible_id(snapshot, ids[m]));
            let session = preview::eligible_session(
                snapshot,
                store,
                sessions::backed_thread(snapshot, ids[m])->0,
                provider,
            );
            assert(all.contains(session));
            let k = choose|k: int| 0 <= k < all.len() && all[k] == session;
            let p = projection::planned_session(all[k], provider);
            assert(planned.contains(p));
            let i = choose|i: int| 0 <= i < planned.len() && planned[i] == p;
            assert(planned[i].thread_id == id);
        }
    }
}

/// Why a plan leaves a session out: none of the reasons speaks of undoing a projection or of a
/// workspace.
spec fn plain_reason(reason: SkipReasonView) -> bool {
    reason.reason.len() > 0 && (reason.reason[0] == 'r' || reason.reason[0] == 's')
}

proof fn lemma_exclusion_is_plain(
    snapshot: SnapshotView,
    excluded: Set<Seq<char>>,
    id: Seq<char>,
)
    ensures
        planning::exclusion(snapshot, excluded, id) matches Some(reason) ==> plain_reason(
            planning::reason_for(id, reason),
        ),
        plain_reason(planning::reason_for(id, "rollout_path_missing"@)),
        plain_reason(planning::reason_for(id, "state_unreadable"@)),
{
    reveal_strlit("remote_mapped");
    reveal_strlit("rollout_missing_or_ambiguous");
    reveal_strlit("rollout_provider_missing_or_invalid");
    reveal_strlit("rollout_path_missing");
    reveal_strlit("state_unreadable");
}

proof fn lemma_plain_is_no_conflict(reason: SkipReasonView)
    requires
        plain_reason(reason),
    ensures
        !preview::undo_reason(reason),
        reason.reason != "workspace_conflict"@,
{
    reveal_strlit("projection_reconcile_");
    reveal_strlit("workspace_conflict");
    if preview::undo_reason(reason) {
        let prefix = "projection_reconcile_"@;
        assert(reason.reason.take(prefix.len() as int)[0] == prefix[0]);
    }
}

proof fn lemma_plan_reasons_are_plain(
    snapshot: SnapshotView,
    excluded: Set<Seq<char>>,
    target: Seq<char>,
    backed: Seq<BackedThreadView>,
)
    ensures
        forall|i: int|
            0 <= i < planning::plan_of(snapshot, excluded, target, backed).skipped.len()
                ==> plain_reason(
                #[trigger] planning::plan_of(snapshot, excluded, target, backed).skipped[i],
            ),
    decreases backed.len(),
{
    if backed.len() > 0 {
        let front = backed.drop_last();
        lemma_plan_reasons_are_plain(snapshot, excluded, target, front);
        lemma_exclusion_is_plain(snapshot, excluded, backed.last().thread.id);
        let before = planning::plan_of(snapshot, excluded, target, front).skipped;
        let now = planning::plan_of(snapshot, excluded, target, backed).skipped;
        assert forall|i: int| 0 <= i < now.len() implies plain_reason(#[trigger] now[i]) by {
            if i < before.len() {
                assert(now[i] == before[i]);
            }
        }
    }
}

proof fn lemma_left_out_reasons_are_plain(
    snapshot: SnapshotView,
    excluded: Set<Seq<char>>,
    backed: Seq<BackedThreadView>,
)
    ensures
        forall|i: int|
            0 <= i < preview::ineligible_reasons(snapshot, excluded, backed).len() ==> plain_reason(
                #[trigger] preview::ineligible_reasons(snapshot, excluded, backed)[i],
            ),
    decreases backed.len(),
{
    if backed.len() > 0 {
        let front = backed.drop_last();
        lemma_left_out_reasons_are_plain(snapshot, excluded, front);
        lemma_exclusion_is_plain(snapshot, excluded, backed.last().thread.id);
        let before = preview::ineligible_reasons(snapshot, excluded, front);
        let now = preview::ineligible_reasons(snapshot, excluded, backed);
        assert forall|i: int| 0 <= i < now.len() implies plain_reason(#[trigger] now[i]) by {
            if i < before.len() {
                assert(now[i] == before[i]);
            }
        }
    }
}

proof fn lemma_kept_stay_plain(
    reasons: Seq<SkipReasonView>,
    keep: spec_fn(SkipReasonView) -> bool,
)
    requires
        forall|i: int| 0 <= i < reasons.len() ==> plain_reason(#[trigger] reasons[i]),
    ensures
        forall|i: int|
            0 <= i < planning::kept(reasons, keep).len() ==> plain_reason(
                #[trigger] planning::kept(reasons, keep)[i],
            ),
{
    let kept = planning::kept(reasons, keep);
    assert forall|i: int| 0 <= i < kept.len() implies plain_reason(#[trigger] kept[i]) by {
        assert(kept.contains(kept[i]));
        effects::lemma_kept_contains(reasons, keep, kept[i]);
        let k = choose|k: int| 0 <= k < reasons.len() && reasons[k] == kept[i];
        assert(plain_reason(reasons[k]));
    }
}

proof fn lemma_sorted_stay_plain(reasons: Seq<SkipReasonView>)
    requires
        forall|i: int| 0 <= i < reasons.len() ==> plain_reason(#[trigger] reasons[i]),
    ensures
        forall|i: int|
            0 <= i < planning::reasons_in_order(reasons).len() ==> plain_reason(
                #[trigger] planning::reasons_in_order(reasons)[i],
            ),
{
    let sorted = planning::reasons_in_order(reasons);
    ordered::law_sorting_orders_the_items::<SkipReason>(reasons);
    assert forall|i: int| 0 <= i < sorted.len() implies plain_reason(#[trigger] sorted[i]) by {
        assert(reasons.contains(sorted[i]));
        let k = choose|k: int| 0 <= k < reasons.len() && reasons[k] == sorted[i];
        assert(plain_reason(reasons[k]));
    }
}

/// No preview speaks of a conflict: a session that may not be touched is left out, and no
/// projection is undone on the way.
pub proof fn law_preview_has_no_conflicts(
    result: ProjectionPreviewResultView,
    snapshot: SnapshotView,
    store: Option<ProjectionStoreView>,
    excluded: Set<Seq<char>>,
    target: Seq<char>,
    scope: ProjectionScope,
    selected: Option<Set<Seq<char>>>,
)
    requires
        preview::is_preview(
            result,
            snapshot,
            store,
            preview::preview_basis(
                snapshot,
                store,
                excluded,
                projection::provider_of(target),
                selected,
            ),
            target,
            scope,
        ),
    ensures
        result.reconcile_pending == 0,
        result.reconcile_conflicts == 0,
        result.workspace_conflicts == 0,
{
    let provider = projection::provider_of(target);
    let backed = sessions::backed_threads(snapshot, sessions::rollout_ids(snapshot));
    let desired = planning::planned_ids(result.plan.sessions);
    let whole = planning::plan_of(snapshot, sessions::remote_ids(snapshot), target, backed);
    lemma_plan_reasons_are_plain(snapshot, sessions::remote_ids(snapshot), target, backed);
    lemma_sorted_stay_plain(whole.skipped);
    let sorted = planning::reasons_in_order(whole.skipped);
    let wanted = |reason: SkipReasonView| planning::reason_wanted(reason, desired, true);
    lemma_kept_stay_plain(sorted, wanted);
    let skipped = planning::kept(sorted, wanted);
    let undo = |reason: SkipReasonView| preview::undo_reason(reason);
    let undone = planning::kept(skipped, undo);
    assert(undone.len() == 0) by {
        if undone.len() > 0 {
            assert(undone.contains(undone[0]));
            effects::lemma_kept_contains(skipped, undo, undone[0]);
            let k = choose|k: int| 0 <= k < skipped.len() && skipped[k] == undone[0];
            lemma_plain_is_no_conflict(skipped[k]);
        }
    }
    let left_out = preview::ineligible_reasons(snapshot, excluded, backed);
    lemma_left_out_reasons_are_plain(snapshot, excluded, backed);
    lemma_sorted_stay_plain(left_out);
    let reasons = preview::chosen_reasons(planning::reasons_in_order(left_out), selected);
    if selected is Some {
        lemma_kept_stay_plain(
            planning::reasons_in_order(left_out),
            |reason: SkipReasonView| planning::reason_wanted(reason, selected->0, false),
        );
    }
    assert forall|id: Seq<char>| !#[trigger] preview::has_workspace_conflict(reasons, id) by {
        let conflict = planning::reason_for(id, "workspace_conflict"@);
        if reasons.contains(conflict) {
            let k = choose|k: int| 0 <= k < reasons.len() && reasons[k] == conflict;
            lemma_plain_is_no_conflict(reasons[k]);
        }
    }
    let basis = preview::preview_basis(snapshot, store, excluded, provider, selected);
    preview::lemma_no_conflict_candidates(
        snapshot,
        store,
        basis.sessions,
        reasons,
        basis.sources.insert(provider),
    );
    ordered::law_sorting_orders_the_items::<SkipReason>(Seq::<SkipReasonView>::empty());
}

/// How many sessions change is at most how many the plan takes.
proof fn lemma_changed_within_planned(changed: Set<Seq<char>>, planned: Seq<PlannedSessionView>)
    ensures
        ordered::listed::<String>(
            changed.intersect(planning::planned_ids(planned)),
        ).len() <= planned.len(),
        planning::planned_ids(planned).finite(),
{
    let ids = planned.map_values(|session: PlannedSessionView| session.thread_id);
    assert(planning::planned_ids(planned) =~= ids.to_set()) by {
        assert forall|id: Seq<char>| planning::planned_ids(planned).contains(id) <==> ids.to_set().contains(
            id,
        ) by {
            if planning::planned_ids(planned).contains(id) {
                let i = choose|i: int|
                    0 <= i < planned.len() && (#[trigger] planned[i]).thread_id == id;
                assert(ids[i] == id);
            }
            if ids.contains(id) {
                let i = choose|i: int| 0 <= i < ids.len() && ids[i] == id;
                assert(planned[i].thread_id == id);
            }
        }
    }
    vstd::seq_lib::seq_to_set_is_finite(ids);
    ids.lemma_cardinality_of_set();
    let part = changed.intersect(ids.to_set());
    vstd::set_lib::lemma_len_subset(part, ids.to_set());
    ordered::lemma_finite_is_listed::<String>(part);
}

/// A verification never finds more left than it checked, and is fine exactly where nothing is left.
pub proof fn law_remaining_within_checked(
    result: ProjectionPreviewResultView,
    snapshot: SnapshotView,
    store: Option<ProjectionStoreView>,
    excluded: Set<Seq<char>>,
    target: Seq<char>,
    scope: ProjectionScope,
    selected: Option<Set<Seq<char>>>,
)
    requires
        preview::is_preview(
            result,
            snapshot,
            store,
            preview::preview_basis(
                snapshot,
                store,
                excluded,
                projection::provider_of(target),
                selected,
            ),
            target,
            scope,
        ),
    ensures
        ({
            let verified = verification::preview_verified(result);
            &&& verified.remaining <= verified.checked
            &&& verified.ok <==> verified.remaining == 0
        }),
{
    law_preview_has_no_conflicts(result, snapshot, store, excluded, target, scope, selected);
    lemma_changed_within_planned(
        planning::full_plan(snapshot, target).changed_ids,
        result.plan.sessions,
    );
}

proof fn lemma_fewer_writes<T: planning::ThreadBound>(
    writes: Seq<T::V>,
    more: Set<Seq<char>>,
    fewer: Set<Seq<char>>,
)
    requires
        forall|id: Seq<char>| #[trigger] fewer.contains(id) ==> more.contains(id),
        planning::kept_writes::<T>(writes, more).len() == 0,
    ensures
        planning::kept_writes::<T>(writes, fewer).len() == 0,
{
    let kept = planning::kept_writes::<T>(writes, fewer);
    if kept.len() > 0 {
        assert(kept.contains(kept[0]));
        effects::lemma_writes_kept::<T>(writes, fewer, kept[0]);
        effects::lemma_writes_kept::<T>(writes, more, kept[0]);
        assert(planning::kept_writes::<T>(writes, more).contains(kept[0]));
    }
}

/// Once a repair of all sessions was written, a plan for all sessions is empty.
proof fn lemma_nothing_left(
    before: SnapshotView,
    after: SnapshotView,
    target: Seq<char>,
    first: Set<Seq<char>>,
    second: Set<Seq<char>>,
)
    requires
        records::consistent(before),
        before.threads_readable,
        forall|id: Seq<char>| #[trigger] first.contains(id) <==> effects::touchable(before, id),
        effects::written(before, effects::plan_for(before, target, first), after),
        forall|id: Seq<char>| #[trigger] second.contains(id) <==> effects::touchable(after, id),
    ensures
        ({
            let plan = effects::plan_for(after, target, second);
            &&& plan.changed_ids == Set::<Seq<char>>::empty()
            &&& plan.state_updates.len() == 0
            &&& plan.state_inserts.len() == 0
            &&& plan.rollout_updates.len() == 0
            &&& plan.state_restores.len() == 0
            &&& plan.state_deletes.len() == 0
        }),
{
    effects::law_written_plan_leaves_nothing(before, after, target, first);
    assert forall|id: Seq<char>| #[trigger] second.contains(id) implies first.contains(id) by {
        effects::lemma_touchable_before(before, after, target, first, id);
    }
    let whole = planning::full_plan(after, target);
    let plan = effects::plan_for(after, target, second);
    assert forall|id: Seq<char>| !plan.changed_ids.contains(id) by {
        if plan.changed_ids.contains(id) {
            assert(second.contains(id));
            assert(effects::plan_for(after, target, first).changed_ids.contains(id));
        }
    }
    assert(plan.changed_ids =~= Set::<Seq<char>>::empty());
    lemma_fewer_writes::<StateUpdate>(whole.state_updates, first, second);
    lemma_fewer_writes::<StateInsert>(whole.state_inserts, first, second);
    lemma_fewer_writes::<RolloutUpdate>(whole.rollout_updates, first, second);
    planning::law_plan_leaves_catalog_alone(
        after,
        sessions::remote_ids(after),
        target,
        sessions::backed_threads(after, sessions::rollout_ids(after)),
    );
}

proof fn lemma_kept_of_kept<X>(
    items: Seq<X>,
    more: spec_fn(X) -> bool,
    fewer: spec_fn(X) -> bool,
)
    requires
        forall|x: X| #[trigger] fewer(x) && items.contains(x) ==> more(x),
    ensures
        planning::kept(planning::kept(items, more), fewer) == planning::kept(items, fewer),
    decreases items.len(),
{
    if items.len() > 0 {
        let front = items.drop_last();
        let last = items.last();
        assert(items[items.len() - 1] == last);
        assert(items.contains(last));
        assert forall|x: X| #[trigger] fewer(x) && front.contains(x) implies more(x) by {
            let k = choose|k: int| 0 <= k < front.len() && front[k] == x;
            assert(items[k] == x);
            assert(items.contains(x));
        }
        lemma_kept_of_kept(front, more, fewer);
        let inner = planning::kept(front, more);
        assert(inner.push(last).drop_last() =~= inner);
        assert(inner.push(last).last() == last);
    }
}

proof fn lemma_kept_no_duplicates<X>(items: Seq<X>, keep: spec_fn(X) -> bool)
    requires
        items.no_duplicates(),
    ensures
        planning::kept(items, keep).no_duplicates(),
    decreases items.len(),
{
    if items.len() > 0 {
        let front = items.drop_last();
        lemma_kept_no_duplicates(front, keep);
        let rest = planning::kept(front, keep);
        assert(!rest.contains(items.last())) by {
            if rest.contains(items.last()) {
                effects::lemma_kept_contains(front, keep, items.last());
                let k = choose|k: int| 0 <= k < front.len() && front[k] == items.last();
                assert(items[k] == items[items.len() - 1]);
            }
        }
    }
}

/// Where all sessions could be previewed before a repair, they can be afterwards.
proof fn lemma_previewed_again(
    before: SnapshotView,
    after: SnapshotView,
    store: Option<ProjectionStoreView>,
    later: Option<ProjectionStoreView>,
    target: Seq<char>,
    desired: Set<Seq<char>>,
)
    requires
        records::consistent(before),
        effects::written(before, effects::plan_for(before, target, desired), after),
        preview::preview_fault(target, repair::repair_basis(before, store, target, None)) is None,
    ensures
        preview::preview_fault(target, repair::repair_basis(after, later, target, None)) is None,
{
    let provider = projection::provider_of(target);
    let ids = sessions::rollout_ids(before);
    effects::lemma_read_again(before, after, effects::plan_for(before, target, desired));
    preview::lemma_preview_exists(before, store, sessions::remote_ids(before), target, None);
    preview::lemma_preview_exists(after, later, sessions::remote_ids(after), target, None);
    lemma_eligible_ids(before, store, provider, ids);
    lemma_eligible_ids(after, later, provider, ids);
    let more = |id: Seq<char>| eligible_id(before, id);
    let fewer = |id: Seq<char>| eligible_id(after, id);
    let known = projection::session_ids(eligible_of(before, store, provider, ids));
    projection::lemma_no_repeat(known, 0);
    assert forall|i: int, j: int|
        0 <= i < known.len() && 0 <= j < known.len() && i != j implies known[i] != known[j] by {
        if i < j {
            assert(known[i] != known[j]);
        } else {
            assert(known[j] != known[i]);
        }
    }
    assert forall|id: Seq<char>| #[trigger] fewer(id) && ids.contains(id) implies more(id) by {
        effects::lemma_backed_of(after, id);
        assert(effects::touchable(after, id));
        effects::lemma_touchable_before(before, after, target, desired, id);
        effects::lemma_backed_of(before, id);
    }
    lemma_kept_of_kept(ids, more, fewer);
    lemma_kept_no_duplicates(known, fewer);
    projection::lemma_distinct_no_repeat(
        projection::session_ids(eligible_of(after, later, provider, ids)),
        0,
    );
}

/// A preview of all sessions after a repair of all of them has nothing to write.
proof fn lemma_quiet_preview(
    before: SnapshotView,
    after: SnapshotView,
    store: Option<ProjectionStoreView>,
    target: Seq<char>,
    scope: ProjectionScope,
    desired: Set<Seq<char>>,
    result: ProjectionPreviewResultView,
)
    requires
        records::consistent(before),
        before.threads_readable,
        forall|id: Seq<char>| #[trigger] desired.contains(id) <==> effects::touchable(before, id),
        effects::written(before, effects::plan_for(before, target, desired), after),
        preview::preview_outcome(
            Ok(result),
            after,
            store,
            repair::repair_basis(after, store, target, None),
            target,
            scope,
        ),
    ensures
        result.changed_threads == 0,
        result.rollout_updates == 0,
        result.reconcile_conflicts == 0,
        result.workspace_conflicts == 0,
        verification::preview_verified(result).ok,
        verification::preview_verified(result).remaining == 0,
        ({
            let plan = effects::plan_for(
                after,
                target,
                planning::planned_ids(result.plan.sessions),
            );
            &&& plan.changed_ids == Set::<Seq<char>>::empty()
            &&& plan.state_updates.len() == 0
            &&& plan.state_inserts.len() == 0
            &&& plan.rollout_updates.len() == 0
            &&& plan.state_restores.len() == 0
            &&& plan.state_deletes.len() == 0
        }),
{
    let second = planning::planned_ids(result.plan.sessions);
    let excluded = sessions::remote_ids(after);
    effects::lemma_read_again(before, after, effects::plan_for(before, target, desired));
    lemma_planned_ids(result, after, store, target, scope);
    lemma_nothing_left(before, after, target, desired, second);
    law_preview_has_no_conflicts(result, after, store, excluded, target, scope, None);
    ordered::lemma_finite_is_listed::<String>(Set::<Seq<char>>::empty());
}

/// A verification right after a repair of all sessions is fine: it can be made, and nothing is
/// left. Where the state rows cannot be read, a repair is refused.
pub proof fn law_verification_after_repair(
    before: SnapshotView,
    after: SnapshotView,
    store: Option<ProjectionStoreView>,
    later: Option<ProjectionStoreView>,
    target: Seq<char>,
    scope: ProjectionScope,
    first: ProjectionPreviewResultView,
    again: Result<ProjectionPreviewResultView, Seq<char>>,
)
    requires
        records::consistent(before),
        before.threads_readable,
        preview::preview_outcome(
            Ok(first),
            before,
            store,
            repair::repair_basis(before, store, target, None),
            target,
            scope,
        ),
        effects::written(
            before,
            effects::plan_for(before, target, planning::planned_ids(first.plan.sessions)),
            after,
        ),
        preview::preview_outcome(
            again,
            after,
            later,
            repair::repair_basis(after, later, target, None),
            target,
            scope,
        ),
    ensures
        again is Ok,
        again->Ok_0.changed_threads == 0,
        again->Ok_0.rollout_updates == 0,
        verification::preview_verified(again->Ok_0).ok,
        verification::preview_verified(again->Ok_0).remaining == 0,
{
    let desired = planning::planned_ids(first.plan.sessions);
    lemma_previewed_again(before, after, store, later, target, desired);
    assert(again is Ok);
    lemma_planned_ids(first, before, store, target, scope);
    lemma_quiet_preview(before, after, later, target, scope, desired, again->Ok_0);
}

/// What was planned for all sessions of a home at a time.
pub open spec fn planned_for_all(
    planned: PlannedRepairView,
    snapshot: SnapshotView,
    store: Option<ProjectionStoreView>,
    target: Seq<char>,
    scope: ProjectionScope,
    timestamp: i64,
) -> bool {
    let basis = repair::repair_basis(snapshot, store, target, None);
    &&& preview::preview_outcome(Ok(planned.preview), snapshot, store, basis, target, scope)
    &&& planned.sessions == basis.sessions
    &&& repair::is_planned(planned, snapshot, target)
    &&& repair::has_next_store(planned, snapshot, store, timestamp)
}

/// The store of projections that is there after a planned repair: a new one is not begun where
/// nothing was changed.
pub open spec fn stored_after(
    planned: PlannedRepairView,
    store: Option<ProjectionStoreView>,
) -> Option<ProjectionStoreView> {
    if store is None && repair::draft_of(planned, store).changed_threads == 0 {
        None
    } else {
        planned.next_store
    }
}

/// Every record of a planned session can learn of the new target: the session is moved, its rollout
/// names a provider, or the record names the target already.
pub open spec fn records_follow(
    planned: PlannedRepairView,
    snapshot: SnapshotView,
    store: Option<ProjectionStoreView>,
) -> bool {
    let plan = planned.preview.plan;
    forall|i: int|
        0 <= i < plan.sessions.len() ==> {
            let session = #[trigger] plan.sessions[i];
            ||| session.category != PlanCategory::Aligned
            ||| reconciliation::rollout_origin(snapshot, session.thread_id) is Some
            ||| store is None
            ||| !store->0.threads.dom().contains(session.thread_id)
            ||| store->0.threads[session.thread_id].projected_target == plan.target_provider
        }
}

/// A record that names the target, where there is one.
spec fn names_target(
    records: Map<Seq<char>, projection::ProjectionRecordView>,
    target: SourceProviderView,
    id: Seq<char>,
) -> bool {
    records.dom().contains(id) ==> records[id].projected_target == target
}

proof fn lemma_followed(
    start: Following,
    snapshot: SnapshotView,
    sessions: Seq<EligibleSessionView>,
    target: SourceProviderView,
    version: u64,
    timestamp: i64,
    planned: Seq<PlannedSessionView>,
)
    requires
        reconciliation::followed(
            start,
            snapshot,
            sessions,
            target,
            version,
            timestamp,
            planned,
        ) is Ok,
    ensures
        ({
            let end = reconciliation::followed(
                start,
                snapshot,
                sessions,
                target,
                version,
                timestamp,
                planned,
            )->Ok_0;
            &&& start.changed ==> end.changed
            &&& !end.changed ==> end == start
            &&& forall|id: Seq<char>|
                names_target(start.records, target, id) ==> #[trigger] names_target(
                    end.records,
                    target,
                    id,
                )
            &&& forall|i: int|
                0 <= i < planned.len() && reconciliation::rollout_origin(
                    snapshot,
                    (#[trigger] planned[i]).thread_id,
                ) is Some ==> names_target(end.records, target, planned[i].thread_id)
        }),
    decreases planned.len(),
{
    if planned.len() > 0 {
        let front = planned.drop_last();
        lemma_followed(start, snapshot, sessions, target, version, timestamp, front);
        let before = reconciliation::followed(
            start,
            snapshot,
            sessions,
            target,
            version,
            timestamp,
            front,
        )->Ok_0;
        let end = reconciliation::followed(
            start,
            snapshot,
            sessions,
            target,
            version,
            timestamp,
            planned,
        )->Ok_0;
        let last = planned.last().thread_id;
        assert(Some(end) == reconciliation::follow_step(
            before,
            snapshot,
            sessions,
            target,
            version,
            timestamp,
            last,
        ));
        assert forall|id: Seq<char>| names_target(before.records, target, id) implies
            #[trigger] names_target(end.records, target, id) by {}
        assert forall|i: int|
            0 <= i < planned.len() && reconciliation::rollout_origin(
                snapshot,
                (#[trigger] planned[i]).thread_id,
            ) is Some implies names_target(end.records, target, planned[i].thread_id) by {
            if i < front.len() {
                assert(front[i] == planned[i]);
                assert(names_target(before.records, target, front[i].thread_id));
            } else {
                assert(planned[i].thread_id == last);
            }
        }
    }
}

proof fn lemma_captured_ids(
    planned: Seq<PlannedSessionView>,
    sessions: Seq<EligibleSessionView>,
    target: SourceProviderView,
    version: u64,
    timestamp: i64,
)
    requires
        projection::captured_threads(planned, sessions, target, version, timestamp) is Ok,
    ensures
        ({
            let threads = projection::captured_threads(
                planned,
                sessions,
                target,
                version,
                timestamp,
            )->Ok_0;
            &&& forall|id: Seq<char>| #[trigger]
                threads.dom().contains(id) ==> threads[id].projected_target == target
            &&& forall|i: int|
                0 <= i < planned.len() && (#[trigger] planned[i]).category != PlanCategory::Aligned
                    ==> threads.dom().contains(planned[i].thread_id)
        }),
    decreases planned.len(),
{
    if planned.len() > 0 {
        let front = planned.drop_last();
        lemma_captured_ids(front, sessions, target, version, timestamp);
        projection::lemma_session_by_id(sessions, planned.last().thread_id);
        let threads = projection::captured_threads(
            planned,
            sessions,
            target,
            version,
            timestamp,
        )->Ok_0;
        assert forall|i: int|
            0 <= i < planned.len() && (#[trigger] planned[i]).category
                != PlanCategory::Aligned implies threads.dom().contains(planned[i].thread_id) by {
            if i < front.len() {
                assert(front[i] == planned[i]);
            }
        }
    }
}

/// After a repair the records of the planned sessions name its target.
proof fn lemma_records_name_target(
    planned: PlannedRepairView,
    snapshot: SnapshotView,
    store: Option<ProjectionStoreView>,
    timestamp: i64,
)
    requires
        repair::has_next_store(planned, snapshot, store, timestamp),
        planned.next_store is Some,
        records_follow(planned, snapshot, store),
    ensures
        forall|i: int|
            0 <= i < planned.preview.plan.sessions.len() ==> names_target(
                planned.next_store->0.threads,
                planned.preview.plan.target_provider,
                (#[trigger] planned.preview.plan.sessions[i]).thread_id,
            ),
{
    let plan = planned.preview.plan;
    let target = plan.target_provider;
    let known: u64 = match store {
        Some(store) => store.projection_version,
        None => 0,
    };
    let version = (known + 1) as u64;
    let captured = projection::captured_threads(
        plan.sessions,
        planned.sessions,
        target,
        version,
        timestamp,
    );
    let in_force = reconciliation::records_in_force(store, Set::empty());
    if store is Some {
        assert(in_force =~= store->0.threads);
    }
    let start = Following {
        records: reconciliation::merged_records(in_force, captured->Ok_0, snapshot),
        changed: Set::<Seq<char>>::empty() != Set::<Seq<char>>::empty() || captured->Ok_0.dom()
            != Set::<Seq<char>>::empty(),
    };
    lemma_captured_ids(plan.sessions, planned.sessions, target, version, timestamp);
    lemma_followed(
        start,
        snapshot,
        planned.sessions,
        target,
        version,
        timestamp,
        plan.sessions,
    );
    let end = reconciliation::followed(
        start,
        snapshot,
        planned.sessions,
        target,
        version,
        timestamp,
        plan.sessions,
    )->Ok_0;
    if !end.changed && store is Some {
        assert(captured->Ok_0.dom() =~= Set::<Seq<char>>::empty());
        assert(start.records =~= in_force);
    }
    assert(planned.next_store->0.threads == end.records);
    assert forall|i: int| 0 <= i < plan.sessions.len() implies names_target(
        end.records,
        target,
        (#[trigger] plan.sessions[i]).thread_id,
    ) by {
        let session = plan.sessions[i];
        if session.category != PlanCategory::Aligned {
            assert(captured->Ok_0.dom().contains(session.thread_id));
            assert(names_target(start.records, target, session.thread_id));
        } else if reconciliation::rollout_origin(snapshot, session.thread_id) is None {
            assert(names_target(start.records, target, session.thread_id));
        }
    }
}

proof fn lemma_follows_nothing(
    start: Following,
    snapshot: SnapshotView,
    sessions: Seq<EligibleSessionView>,
    target: SourceProviderView,
    version: u64,
    timestamp: i64,
    planned: Seq<PlannedSessionView>,
)
    requires
        forall|i: int|
            0 <= i < planned.len() ==> reconciliation::rollout_origin(
                snapshot,
                (#[trigger] planned[i]).thread_id,
            ) == Some(target) && names_target(start.records, target, planned[i].thread_id),
    ensures
        reconciliation::followed(start, snapshot, sessions, target, version, timestamp, planned)
            == Ok::<Following, Seq<char>>(start),
    decreases planned.len(),
{
    if planned.len() > 0 {
        let front = planned.drop_last();
        assert forall|i: int| 0 <= i < front.len() implies reconciliation::rollout_origin(
            snapshot,
            (#[trigger] front[i]).thread_id,
        ) == Some(target) && names_target(start.records, target, front[i].thread_id) by {
            assert(front[i] == planned[i]);
        }
        lemma_follows_nothing(start, snapshot, sessions, target, version, timestamp, front);
        assert(planned[planned.len() - 1] == planned.last());
    }
}

proof fn lemma_captures_nothing(
    planned: Seq<PlannedSessionView>,
    sessions: Seq<EligibleSessionView>,
    target: SourceProviderView,
    version: u64,
    timestamp: i64,
)
    requires
        forall|i: int|
            0 <= i < planned.len() ==> (#[trigger] planned[i]).category == PlanCategory::Aligned,
    ensures
        projection::captured_threads(planned, sessions, target, version, timestamp) == Ok::<
            Map<Seq<char>, projection::ProjectionRecordView>,
            Seq<char>,
        >(Map::empty()),
    decreases planned.len(),
{
    if planned.len() > 0 {
        let front = planned.drop_last();
        assert forall|i: int| 0 <= i < front.len() implies (#[trigger] front[i]).category
            == PlanCategory::Aligned by {
            assert(front[i] == planned[i]);
        }
        lemma_captures_nothing(front, sessions, target, version, timestamp);
        assert(planned[planned.len() - 1] == planned.last());
    }
}

/// A session of a plan after a repair of all sessions: it is aligned, and its rollout names the
/// target.
proof fn lemma_planned_again(
    before: SnapshotView,
    after: SnapshotView,
    store: Option<ProjectionStoreView>,
    target: Seq<char>,
    scope: ProjectionScope,
    desired: Set<Seq<char>>,
    result: ProjectionPreviewResultView,
    i: int,
)
    requires
        records::consistent(before),
        before.threads_readable,
        forall|id: Seq<char>| #[trigger] desired.contains(id) <==> effects::touchable(before, id),
        effects::written(before, effects::plan_for(before, target, desired), after),
        preview::preview_outcome(
            Ok(result),
            after,
            store,
            repair::repair_basis(after, store, target, None),
            target,
            scope,
        ),
        0 <= i < result.plan.sessions.len(),
    ensures
        result.plan.sessions[i].category == PlanCategory::Aligned,
        reconciliation::rollout_origin(after, result.plan.sessions[i].thread_id) == Some(
            projection::provider_of(target),
        ),
        desired.contains(result.plan.sessions[i].thread_id),
{
    let provider = projection::provider_of(target);
    let ids = sessions::rollout_ids(after);
    let all = eligible_of(after, store, provider, ids);
    let p = result.plan.sessions[i];
    effects::lemma_read_again(before, after, effects::plan_for(before, target, desired));
    preview::lemma_preview_members(
        result,
        after,
        store,
        sessions::remote_ids(after),
        target,
        scope,
        None,
    );
    assert(result.plan.sessions.contains(p));
    let k = choose|k: int|
        0 <= k < all.len() && projection::planned_session(#[trigger] all[k], provider) == p;
    lemma_eligible_ids(after, store, provider, ids);
    assert(all.contains(all[k]));
    let m = choose|m: int|
        0 <= m < ids.len() && eligible_id(after, #[trigger] ids[m]) && all[k]
            == preview::eligible_session(
            after,
            store,
            sessions::backed_thread(after, ids[m])->0,
            provider,
        );
    let id = ids[m];
    lemma_backed_id(after, id);
    assert(ids.contains(id));
    effects::lemma_backed_of(after, id);
    assert(effects::touchable(after, id));
    effects::lemma_touchable_before(before, after, target, desired, id);
    assert(desired.contains(id));
    effects::lemma_session_settled(before, after, target, desired, id);
}

/// A second repair in a row leaves the store of projections as it is and plans no write. Where the
/// state rows cannot be read, a repair is refused.
pub proof fn law_second_repair_plans_nothing(
    before: SnapshotView,
    after: SnapshotView,
    store: Option<ProjectionStoreView>,
    target: Seq<char>,
    scope: ProjectionScope,
    first: PlannedRepairView,
    then: i64,
    second: PlannedRepairView,
    later: i64,
)
    requires
        records::consistent(before),
        before.threads_readable,
        planned_for_all(first, before, store, target, scope, then),
        first.next_store is Some,
        first.next_store->0.projection_version < u64::MAX,
        records_follow(first, before, store),
        effects::written(before, first.plan, after),
        planned_for_all(second, after, stored_after(first, store), target, scope, later),
    ensures
        ({
            let draft = repair::draft_of(second, stored_after(first, store));
            &&& draft.changed_threads == 0
            &&& draft.state_updates == 0
            &&& draft.rollout_updates == 0
            &&& !draft.projection_changed
            &&& draft.store_fault is None
            &&& !draft.conflicts
        }),
        stored_after(second, stored_after(first, store)) == stored_after(first, store),
{
    let known = stored_after(first, store);
    let desired = planning::planned_ids(first.preview.plan.sessions);
    let provider = projection::provider_of(target);
    let plan = second.preview.plan;
    lemma_planned_ids(first.preview, before, store, target, scope);
    lemma_quiet_preview(before, after, known, target, scope, desired, second.preview);
    lemma_records_name_target(first, before, store, then);
    let version: u64 = match known {
        Some(store) => store.projection_version,
        None => 0,
    };
    let next = (version + 1) as u64;
    assert forall|i: int| 0 <= i < plan.sessions.len() implies (
    #[trigger] plan.sessions[i]).category == PlanCategory::Aligned
        && reconciliation::rollout_origin(after, plan.sessions[i].thread_id) == Some(provider) && (
    known is Some ==> names_target(known->0.threads, provider, plan.sessions[i].thread_id)) by {
        lemma_planned_again(
            before,
            after,
            known,
            target,
            scope,
            desired,
            second.preview,
            i,
        );
        let id = plan.sessions[i].thread_id;
        let sessions = first.preview.plan.sessions;
        let k = choose|k: int| 0 <= k < sessions.len() && (#[trigger] sessions[k]).thread_id == id;
        assert(names_target(first.next_store->0.threads, provider, sessions[k].thread_id));
    }
    lemma_captures_nothing(plan.sessions, second.sessions, provider, next, later);
    preview::lemma_preview_members(
        second.preview,
        after,
        known,
        sessions::remote_ids(after),
        target,
        scope,
        None,
    );
    let none = Map::<Seq<char>, projection::ProjectionRecordView>::empty();
    let in_force = reconciliation::records_in_force(known, Set::empty());
    if known is Some {
        assert(in_force =~= known->0.threads);
    }
    let start = Following {
        records: reconciliation::merged_records(in_force, none, after),
        changed: Set::<Seq<char>>::empty() != Set::<Seq<char>>::empty() || none.dom() != Set::<
            Seq<char>,
        >::empty(),
    };
    assert(start.records =~= in_force);
    assert(none.dom() =~= Set::<Seq<char>>::empty());
    lemma_follows_nothing(start, after, second.sessions, provider, next, later, plan.sessions);
    ordered::lemma_finite_is_listed::<String>(Set::<Seq<char>>::empty());
}

/// The planned sessions verify after a repair of all sessions.
proof fn lemma_planned_verify(
    before: SnapshotView,
    after: SnapshotView,
    store: Option<ProjectionStoreView>,
    known: Option<ProjectionStoreView>,
    target: Seq<char>,
    scope: ProjectionScope,
    first: ProjectionPreviewResultView,
    second: ProjectionPreviewResultView,
)
    requires
        records::consistent(before),
        before.threads_readable,
        preview::preview_outcome(
            Ok(first),
            before,
            store,
            repair::repair_basis(before, store, target, None),
            target,
            scope,
        ),
        effects::written(
            before,
            effects::plan_for(before, target, planning::planned_ids(first.plan.sessions)),
            after,
        ),
        preview::preview_outcome(
            Ok(second),
            after,
            known,
            repair::repair_basis(after, known, target, None),
            target,
            scope,
        ),
    ensures
        verification::sessions_verified(
            after,
            target,
            planning::planned_ids(second.plan.sessions),
        ).ok,
{
    let desired = planning::planned_ids(first.plan.sessions);
    let ids = planning::planned_ids(second.plan.sessions);
    lemma_planned_ids(first, before, store, target, scope);
    effects::lemma_read_again(before, after, effects::plan_for(before, target, desired));
    lemma_planned_ids(second, after, known, target, scope);
    lemma_changed_within_planned(Set::empty(), second.plan.sessions);
    ordered::lemma_finite_is_listed::<String>(ids);
    let listed = ordered::listed::<String>(ids);
    assert forall|i: int| 0 <= i < listed.len() implies effects::touchable(
        before,
        #[trigger] listed[i],
    ) && desired.contains(listed[i]) by {
        assert(ids.contains(listed[i]));
        effects::lemma_touchable_before(before, after, target, desired, listed[i]);
    }
    effects::law_written_plan_verifies(before, after, target, desired, listed);
}

/// A plan without writes leads to a verification, and that to the report.
proof fn lemma_quiet_steps(
    state: RepairStateView,
    draft: repair::RepairDraftView,
    found: verification::VerifyResultView,
)
    requires
        state.stage == RepairStage::Replan,
        state.expected_token is None,
        draft.changed_threads == 0,
        !draft.projection_changed,
        draft.store_fault is None,
        !draft.conflicts,
        found.ok,
    ensures
        ({
            let step = repair::repairing(state, RepairEventView::Drafted(draft));
            let end = repair::repairing(
                step.state,
                RepairEventView::Verified { result: found, undone: None },
            );
            &&& step.action == RepairActionView::VerifyPlanned
            &&& step.state.stage == RepairStage::QuietVerify
            &&& end.state.stage == RepairStage::Done
            &&& match end.action {
                RepairActionView::Report(result) => reports_no_change(result),
                _ => false,
            }
        }),
{
}

/// What a second repair in a row comes to: it goes straight to verifying, writes nothing, and
/// reports no change, no backup and success.
pub proof fn law_second_repair_changes_nothing(
    before: SnapshotView,
    after: SnapshotView,
    store: Option<ProjectionStoreView>,
    target: Seq<char>,
    scope: ProjectionScope,
    first: PlannedRepairView,
    then: i64,
    second: PlannedRepairView,
    later: i64,
    state: RepairStateView,
)
    requires
        records::consistent(before),
        before.threads_readable,
        planned_for_all(first, before, store, target, scope, then),
        first.next_store is Some,
        first.next_store->0.projection_version < u64::MAX,
        records_follow(first, before, store),
        effects::written(before, first.plan, after),
        planned_for_all(second, after, stored_after(first, store), target, scope, later),
        state.stage == RepairStage::Replan,
        state.expected_token is None,
    ensures
        ({
            let draft = repair::draft_of(second, stored_after(first, store));
            let step = repair::repairing(state, RepairEventView::Drafted(draft));
            let found = verification::sessions_verified(
                after,
                target,
                planning::planned_ids(second.preview.plan.sessions),
            );
            let end = repair::repairing(
                step.state,
                RepairEventView::Verified { result: found, undone: None },
            );
            &&& step.action == RepairActionView::VerifyPlanned
            &&& step.state.stage == RepairStage::QuietVerify
            &&& found.ok
            &&& end.state.stage == RepairStage::Done
            &&& match end.action {
                RepairActionView::Report(result) => reports_no_change(result),
                _ => false,
            }
        }),
{
    law_second_repair_plans_nothing(
        before,
        after,
        store,
        target,
        scope,
        first,
        then,
        second,
        later,
    );
    lemma_planned_verify(
        before,
        after,
        store,
        stored_after(first, store),
        target,
        scope,
        first.preview,
        second.preview,
    );
    lemma_quiet_steps(
        state,
        repair::draft_of(second, stored_after(first, store)),
        verification::sessions_verified(
            after,
            target,
            planning::planned_ids(second.preview.plan.sessions),
        ),
    );
}

/// A result that reports success without any change.
pub open spec fn reports_no_change(result: RepairResultView) -> bool {
    &&& result.changed_threads == 0
    &&& result.restored_threads == 0
    &&& result.state_updates == 0
    &&& result.rollout_updates == 0
    &&& result.catalog_updates == 0
    &&& result.catalog_inserts == 0
    &&& result.catalog_deletes == 0
    &&& result.backup_path is None
    &&& result.verified
    &&& !result.dry_run
}

} // verus!

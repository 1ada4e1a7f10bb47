//! Verifying that sessions read as a repair wrote them.

use crate::model::Model;
use crate::ordered;
use crate::ordered::{Ordered, OrderedSet};
use crate::planning;
use crate::planning::{skip, sort_reasons, SkipReason, SkipReasonView};
use crate::preview;
use crate::preview::{
    preview_projection_at, preview_projection_selected_at, ProjectionPreviewResult,
    ProjectionPreviewResultView,
};
use crate::projection::{
    PlanCategory, PlannedSession, PlannedSessionView, ProjectionScope, ProjectionStore,
};
use crate::providers;
use crate::providers::canonical_provider;
use crate::records;
use crate::records::{PrimaryRolloutView, Snapshot, SnapshotView, ThreadRow, ThreadRowView};
use crate::sessions;
use crate::sessions::find_thread;
use crate::text;
use crate::text::{decimal, is_blank, join2, same, Relation};
use vstd::prelude::*;

verus! {

/// The outcome of a verification.
#[derive(Clone, Debug, PartialEq, Eq)]
pub struct VerifyResult {
    pub ok: bool,
    pub checked: usize,
    pub remaining: usize,
    pub skipped: usize,
    pub reasons: Vec<SkipReason>,
}

/// What a `VerifyResult` stands for.
#[verifier::ext_equal]
pub struct VerifyResultView {
    pub ok: bool,
    pub checked: usize,
    pub remaining: usize,
    pub skipped: usize,
    pub reasons: Seq<SkipReasonView>,
}

impl DeepView for VerifyResult {
    type V = VerifyResultView;

    open spec fn deep_view(&self) -> VerifyResultView {
        VerifyResultView {
            ok: self.ok.deep_view(),
            checked: self.checked.deep_view(),
            remaining: self.remaining.deep_view(),
            skipped: self.skipped.deep_view(),
            reasons: self.reasons.deep_view(),
        }
    }
}

impl Model for VerifyResult {
    fn copy_of(&self) -> (r: Self) {
        VerifyResult {
            ok: self.ok.copy_of(),
            checked: self.checked.copy_of(),
            remaining: self.remaining.copy_of(),
            skipped: self.skipped.copy_of(),
            reasons: self.reasons.copy_of(),
        }
    }

    fn same_as(&self, other: &Self) -> (r: bool) {
        self.ok.same_as(&other.ok)
            && self.checked.same_as(&other.checked)
            && self.remaining.same_as(&other.remaining)
            && self.skipped.same_as(&other.skipped)
            && self.reasons.same_as(&other.reasons)
    }
}

/// A session with a user's message that is not shown to the user.
pub open spec fn hidden(thread: ThreadRowView) -> bool {
    text::trimmed(thread.first_user_message).len() > 0 && (!thread.has_user_event || text::trimmed(
        thread.thread_source,
    ).len() == 0)
}

/// A state row does not read as a repair towards the target leaves it.
pub open spec fn state_differs(
    thread: ThreadRowView,
    primary: PrimaryRolloutView,
    target: Seq<char>,
) -> bool {
    thread.provider != target || thread.archived != primary.archived || thread.rollout_path
        != primary.path || hidden(thread)
}

/// What is wrong with the provider of a rollout.
pub open spec fn rollout_issue(provider: Option<Seq<char>>, target: Seq<char>) -> Option<Seq<char>> {
    match provider {
        None => Some("rollout_provider_missing"@),
        Some(provider) => if provider != target {
            Some("rollout_provider_mismatch"@)
        } else {
            None
        },
    }
}

/// What is wrong with a session.
pub open spec fn session_issues(
    snapshot: SnapshotView,
    target: Seq<char>,
    id: Seq<char>,
) -> Seq<SkipReasonView> {
    match sessions::thread_by_id(snapshot.threads, id) {
        None => seq![planning::reason_for(id, "thread_missing_after_write"@)],
        Some(thread) => match sessions::lookup(snapshot.primary_rollouts, id) {
            None => seq![planning::reason_for(id, "rollout_missing_after_write"@)],
            Some(primary) => {
                let state = if state_differs(thread, primary, target) {
                    Seq::empty().push(planning::reason_for(id, "state_provider_mismatch"@))
                } else {
                    Seq::empty()
                };
                match rollout_issue(
                    sessions::lookup(snapshot.rollout_provider_values, id),
                    target,
                ) {
                    Some(issue) => state.push(planning::reason_for(id, issue)),
                    None => state,
                }
            },
        },
    }
}

/// What is wrong with sessions.
pub open spec fn all_issues(
    snapshot: SnapshotView,
    target: Seq<char>,
    ids: Seq<Seq<char>>,
) -> Seq<SkipReasonView>
    decreases ids.len(),
{
    if ids.len() == 0 {
        Seq::empty()
    } else {
        all_issues(snapshot, target, ids.drop_last()) + session_issues(
            snapshot,
            target,
            ids.last(),
        )
    }
}

/// How many sessions have something wrong.
pub open spec fn faulty_sessions(
    snapshot: SnapshotView,
    target: Seq<char>,
    ids: Seq<Seq<char>>,
) -> nat
    decreases ids.len(),
{
    if ids.len() == 0 {
        0
    } else {
        faulty_sessions(snapshot, target, ids.drop_last()) + if session_issues(
            snapshot,
            target,
            ids.last(),
        ).len() > 0 {
            1nat
        } else {
            0nat
        }
    }
}

fn push_reason(out: &mut Vec<SkipReason>, reason: SkipReason)
    ensures
        final(out).deep_view() == old(out).deep_view().push(reason.deep_view()),
{
    let ghost before = out.deep_view();
    let ghost added = reason.deep_view();
    out.push(reason);
    assert(out.deep_view() =~= before.push(added));
}

fn differs_from(thread: &ThreadRow, archived: bool, path: &str, target: &str) -> (r: bool)
    ensures
        r == (thread.provider@ != target@ || thread.archived != archived || thread.rollout_path@
            != path@ || hidden(thread.deep_view())),
{
    let hidden = !is_blank(thread.first_user_message.as_str()) && (!thread.has_user_event
        || is_blank(thread.thread_source.as_str()));
    !same(thread.provider.as_str(), target) || thread.archived != archived || !same(
        thread.rollout_path.as_str(),
        path,
    ) || hidden
}

/// Adds what is wrong with a session; whether anything is.
fn add_session_issues(
    snapshot: &Snapshot,
    target: &str,
    id: &String,
    out: &mut Vec<SkipReason>,
) -> (r: bool)
    ensures
        final(out).deep_view() == old(out).deep_view() + session_issues(
            snapshot.deep_view(),
            target@,
            id@,
        ),
        r == (session_issues(snapshot.deep_view(), target@, id@).len() > 0),
{
    let ghost before = out.deep_view();
    let ghost issues = session_issues(snapshot.deep_view(), target@, id@);
    let thread = match find_thread(&snapshot.threads, id) {
        None => {
            push_reason(out, skip(id, "thread_missing_after_write"));
            assert(out.deep_view() =~= before + issues);
            return true;
        },
        Some(thread) => thread,
    };
    let primary = match snapshot.primary_rollouts.get(id) {
        None => {
            push_reason(out, skip(id, "rollout_missing_after_write"));
            assert(out.deep_view() =~= before + issues);
            return true;
        },
        Some(primary) => primary,
    };
    let mut wrong = false;
    if differs_from(thread, primary.archived, primary.path.as_str(), target) {
        push_reason(out, skip(id, "state_provider_mismatch"));
        wrong = true;
    }
    match snapshot.rollout_provider_values.get(id) {
        None => {
            push_reason(out, skip(id, "rollout_provider_missing"));
            wrong = true;
        },
        Some(provider) => {
            if !same(provider.as_str(), target) {
                push_reason(out, skip(id, "rollout_provider_mismatch"));
                wrong = true;
            }
        },
    }
    assert(out.deep_view() =~= before + issues);
    wrong
}

/// The sessions read as a repair towards the target leaves them, or what is wrong with them.
pub open spec fn sessions_verified(
    snapshot: SnapshotView,
    target: Seq<char>,
    ids: Set<Seq<char>>,
) -> VerifyResultView {
    let listed = ordered::listed::<String>(ids);
    let canonical = providers::canonical_id(target);
    VerifyResultView {
        ok: faulty_sessions(snapshot, canonical, listed) == 0,
        checked: listed.len() as usize,
        remaining: faulty_sessions(snapshot, canonical, listed) as usize,
        skipped: 0,
        reasons: planning::reasons_in_order(all_issues(snapshot, canonical, listed)),
    }
}

/// Verifies that sessions read as a repair towards the target leaves them: in the session database
/// and in their rollouts.
pub fn verify_thread_ids(
    snapshot: &Snapshot,
    target_provider: &str,
    thread_ids: &OrderedSet<String>,
) -> (r: VerifyResult)
    ensures
        r.deep_view() == sessions_verified(
            snapshot.deep_view(),
            target_provider@,
            thread_ids.deep_view(),
        ),
{
    let target = canonical_provider(target_provider);
    let ghost view = snapshot.deep_view();
    let count: usize = thread_ids.len();
    let ghost listed = ordered::listed::<String>(thread_ids.deep_view());
    let mut reasons: Vec<SkipReason> = Vec::new();
    let mut remaining: usize = 0;
    let mut i: usize = 0;
    assert(reasons.deep_view() =~= all_issues(view, target@, listed.take(0)));
    assert(faulty_sessions(view, target@, listed.take(0)) == 0);
    while i < count
        invariant
            i <= count == listed.len(),
            view == snapshot.deep_view(),
            thread_ids.items_describe(),
            thread_ids.items() == listed,
            remaining == faulty_sessions(view, target@, listed.take(i as int)),
            remaining <= i,
            reasons.deep_view() == all_issues(view, target@, listed.take(i as int)),
        decreases count - i,
    {
        let id = thread_ids.item_at(i);
        assert(listed.take(i + 1).drop_last() =~= listed.take(i as int));
        assert(listed.take(i + 1).last() == id@);
        if add_session_issues(snapshot, target.as_str(), id, &mut reasons) {
            remaining += 1;
        }
        i += 1;
    }
    assert(listed.take(i as int) =~= listed);
    sort_reasons(&mut reasons);
    VerifyResult { ok: remaining == 0, checked: count, remaining, skipped: 0, reasons }
}

/// The name of a category.
pub open spec fn category_name(category: PlanCategory) -> Seq<char> {
    match category {
        PlanCategory::Aligned => "Aligned"@,
        PlanCategory::CatalogUpdateOnly => "CatalogUpdateOnly"@,
        PlanCategory::CatalogInsertOnly => "CatalogInsertOnly"@,
        PlanCategory::StateUpdateOnly => "StateUpdateOnly"@,
        PlanCategory::StateAndCatalogUpdate => "StateAndCatalogUpdate"@,
        PlanCategory::StateAndCatalogInsert => "StateAndCatalogInsert"@,
    }
}

fn find_category_name(category: PlanCategory) -> (r: &'static str)
    ensures
        r@ == category_name(category),
{
    match category {
        PlanCategory::Aligned => "Aligned",
        PlanCategory::CatalogUpdateOnly => "CatalogUpdateOnly",
        PlanCategory::CatalogInsertOnly => "CatalogInsertOnly",
        PlanCategory::StateUpdateOnly => "StateUpdateOnly",
        PlanCategory::StateAndCatalogUpdate => "StateAndCatalogUpdate",
        PlanCategory::StateAndCatalogInsert => "StateAndCatalogInsert",
    }
}

/// The sessions of a plan that are not aligned, with their categories.
pub open spec fn pending_reasons(planned: Seq<PlannedSessionView>) -> Seq<SkipReasonView>
    decreases planned.len(),
{
    if planned.len() == 0 {
        Seq::empty()
    } else {
        let rest = pending_reasons(planned.drop_last());
        let last = planned.last();
        if last.category == PlanCategory::Aligned {
            rest
        } else {
            rest.push(planning::reason_for(last.thread_id, category_name(last.category)))
        }
    }
}

fn find_pending_reasons(planned: &Vec<PlannedSession>) -> (r: Vec<SkipReason>)
    ensures
        r.deep_view() == pending_reasons(planned.deep_view()),
{
    let ghost view = planned.deep_view();
    let mut out: Vec<SkipReason> = Vec::new();
    let mut i: usize = 0;
    assert(out.deep_view() =~= pending_reasons(view.take(0)));
    while i < planned.len()
        invariant
            i <= planned@.len(),
            view == planned.deep_view(),
            out.deep_view() == pending_reasons(view.take(i as int)),
        decreases planned@.len() - i,
    {
        assert(view[i as int] == planned@[i as int].deep_view());
        assert(view.take(i + 1).drop_last() =~= view.take(i as int));
        if planned[i].category != PlanCategory::Aligned {
            push_reason(
                &mut out,
                skip(&planned[i].thread_id, find_category_name(planned[i].category)),
            );
        }
        i += 1;
    }
    assert(view.take(i as int) =~= view);
    out
}

/// A count, the largest that can be told where there are more.
pub open spec fn count_of(value: int) -> usize {
    if value > usize::MAX {
        usize::MAX
    } else {
        value as usize
    }
}

/// A reason of no thread that gives a count, where there is anything to count.
pub open spec fn counted_reason(count: usize, words: Seq<char>) -> Seq<SkipReasonView> {
    if count > 0 {
        seq![SkipReasonView { thread_id: None, reason: text::decimal_text(count as nat) + words }]
    } else {
        Seq::empty()
    }
}

fn push_counted(out: &mut Vec<SkipReason>, count: usize, words: &str)
    ensures
        final(out).deep_view() == old(out).deep_view() + counted_reason(count, words@),
{
    let ghost before = out.deep_view();
    if count > 0 {
        let number = decimal(count as u64);
        push_reason(
            out,
            SkipReason { thread_id: None, reason: join2(number.as_str(), words) },
        );
    }
    assert(out.deep_view() =~= before + counted_reason(count, words@));
}

fn push_all(out: &mut Vec<SkipReason>, more: &Vec<SkipReason>)
    ensures
        final(out).deep_view() == old(out).deep_view() + more.deep_view(),
{
    let ghost start = out.deep_view();
    let ghost view = more.deep_view();
    let mut i: usize = 0;
    assert(out.deep_view() =~= start + view.take(0));
    while i < more.len()
        invariant
            i <= more@.len(),
            view == more.deep_view(),
            out.deep_view() == start + view.take(i as int),
        decreases more@.len() - i,
    {
        assert(view[i as int] == more@[i as int].deep_view());
        push_reason(out, more[i].copy_of());
        assert(out.deep_view() =~= start + view.take(i + 1));
        i += 1;
    }
    assert(view.take(i as int) =~= view);
}

/// What is left to do, as a verification says it.
pub open spec fn preview_verified(preview: ProjectionPreviewResultView) -> VerifyResultView {
    let remaining = count_of(
        preview.changed_threads + preview.reconcile_conflicts + preview.workspace_conflicts,
    );
    VerifyResultView {
        ok: remaining == 0,
        checked: count_of(
            preview.plan.considered + preview.reconcile_pending + preview.reconcile_conflicts
                + preview.workspace_conflicts,
        ),
        remaining,
        skipped: preview.skipped,
        reasons: pending_reasons(preview.plan.sessions) + counted_reason(
            preview.reconcile_pending,
            " out-of-scope projections need original values restored"@,
        ) + counted_reason(
            preview.changed_threads,
            " selected sessions still require metadata or index repair"@,
        ) + preview.reconcile_reasons + preview.workspace_conflict_reasons,
    }
}

/// Says what is left to do, from the preview of a repair.
pub fn verify_projection_preview(preview: &ProjectionPreviewResult) -> (r: VerifyResult)
    ensures
        r.deep_view() == preview_verified(preview.deep_view()),
{
    let checked: usize = preview.plan.considered.saturating_add(
        preview.reconcile_pending,
    ).saturating_add(preview.reconcile_conflicts).saturating_add(preview.workspace_conflicts);
    let remaining: usize = preview.changed_threads.saturating_add(
        preview.reconcile_conflicts,
    ).saturating_add(preview.workspace_conflicts);
    let mut reasons = find_pending_reasons(&preview.plan.sessions);
    push_counted(
        &mut reasons,
        preview.reconcile_pending,
        " out-of-scope projections need original values restored",
    );
    push_counted(
        &mut reasons,
        preview.changed_threads,
        " selected sessions still require metadata or index repair",
    );
    push_all(&mut reasons, &preview.reconcile_reasons);
    push_all(&mut reasons, &preview.workspace_conflict_reasons);
    VerifyResult { ok: remaining == 0, checked, remaining, skipped: preview.skipped, reasons }
}

/// The outcome of a verification, given the preview that it looks at.
pub open spec fn verified_as(
    r: Result<VerifyResult, String>,
    preview: Result<ProjectionPreviewResult, String>,
) -> bool {
    match (r, preview) {
        (Ok(result), Ok(preview)) => result.deep_view() == preview_verified(preview.deep_view()),
        (Err(error), Err(message)) => error@ == message@,
        _ => false,
    }
}

/// Verifies all sessions: says what a repair would still have to do.
pub fn verify_projection_at(
    config: &Option<String>,
    snapshot: &Snapshot,
    store: Option<&ProjectionStore>,
    selected_sources: &Vec<String>,
    target_provider: &str,
    scope: ProjectionScope,
) -> (r: Result<VerifyResult, String>)
    requires
        records::consistent(snapshot.deep_view()),
    ensures
        exists|found: Result<ProjectionPreviewResult, String>|
            #[trigger] preview::configured_preview(
                found,
                config.deep_view(),
                snapshot.deep_view(),
                sessions::store_view(store),
                target_provider@,
                scope,
                None,
            ) && verified_as(r, found),
{
    let found = preview_projection_at(
        config,
        snapshot,
        store,
        selected_sources,
        target_provider,
        scope,
    );
    let r = match &found {
        Ok(preview) => Ok(verify_projection_preview(preview)),
        Err(message) => Err(message.copy_of()),
    };
    assert(verified_as(r, found));
    r
}

/// Verifies the selected sessions, or all where there is no selection.
pub fn verify_projection_selected_at(
    config: &Option<String>,
    snapshot: &Snapshot,
    store: Option<&ProjectionStore>,
    selected_sources: &Vec<String>,
    target_provider: &str,
    scope: ProjectionScope,
    selected_thread_ids: Option<&Vec<String>>,
) -> (r: Result<VerifyResult, String>)
    requires
        records::consistent(snapshot.deep_view()),
    ensures
        exists|found: Result<ProjectionPreviewResult, String>|
            #[trigger] preview::configured_preview(
                found,
                config.deep_view(),
                snapshot.deep_view(),
                sessions::store_view(store),
                target_provider@,
                scope,
                preview::selection_of(selected_thread_ids),
            ) && verified_as(r, found),
{
    let found = preview_projection_selected_at(
        config,
        snapshot,
        store,
        selected_sources,
        target_provider,
        scope,
        selected_thread_ids,
    );
    let r = match &found {
        Ok(preview) => Ok(verify_projection_preview(preview)),
        Err(message) => Err(message.copy_of()),
    };
    assert(verified_as(r, found));
    r
}

/// Sessions verify exactly where nothing is wrong with any of them.
pub proof fn law_verified_means_no_issue(
    snapshot: SnapshotView,
    target: Seq<char>,
    ids: Seq<Seq<char>>,
)
    ensures
        faulty_sessions(snapshot, target, ids) == 0 <==> forall|i: int|
            0 <= i < ids.len() ==> session_issues(snapshot, target, #[trigger] ids[i]).len() == 0,
    decreases ids.len(),
{
    if ids.len() > 0 {
        let front = ids.drop_last();
        law_verified_means_no_issue(snapshot, target, front);
        if faulty_sessions(snapshot, target, ids) == 0 {
            assert forall|i: int| 0 <= i < ids.len() implies session_issues(
                snapshot,
                target,
                #[trigger] ids[i],
            ).len() == 0 by {
                if i < front.len() {
                    assert(front[i] == ids[i]);
                }
            }
        } else if forall|i: int|
            0 <= i < ids.len() ==> session_issues(snapshot, target, #[trigger] ids[i]).len() == 0 {
            assert forall|i: int| 0 <= i < front.len() implies session_issues(
                snapshot,
                target,
                #[trigger] front[i],
            ).len() == 0 by {
                assert(front[i] == ids[i]);
            }
            assert(session_issues(snapshot, target, ids[ids.len() - 1]).len() == 0);
        }
    }
}

/// A verification succeeds exactly where no session is left to change and nothing is in conflict.
pub proof fn law_ok_means_nothing_left(preview: ProjectionPreviewResultView)
    ensures
        preview_verified(preview).ok <==> preview.changed_threads == 0
            && preview.reconcile_conflicts == 0 && preview.workspace_conflicts == 0,
{
}

/// A session reads under a target: its state row names the target, agrees with the rollout on path
/// and archive and is shown to the user, and its rollout names the target.
pub open spec fn reads_under(snapshot: SnapshotView, target: Seq<char>, id: Seq<char>) -> bool {
    &&& exists|i: int|
        {
            &&& 0 <= i < snapshot.threads.len()
            &&& (#[trigger] snapshot.threads[i]).id == id
            &&& forall|j: int|
                i < j < snapshot.threads.len() ==> (#[trigger] snapshot.threads[j]).id != id
            &&& snapshot.threads[i].provider == target
            &&& snapshot.threads[i].archived == snapshot.primary_rollouts[id].archived
            &&& snapshot.threads[i].rollout_path == snapshot.primary_rollouts[id].path
            &&& text::trimmed(snapshot.threads[i].first_user_message).len() > 0
                ==> snapshot.threads[i].has_user_event && text::trimmed(
                snapshot.threads[i].thread_source,
            ).len() > 0
        }
    &&& snapshot.primary_rollouts.dom().contains(id)
    &&& snapshot.rollout_provider_values.dom().contains(id)
    &&& snapshot.rollout_provider_values[id] == target
}

proof fn lemma_row_of(threads: Seq<ThreadRowView>, id: Seq<char>)
    ensures
        match sessions::thread_by_id(threads, id) {
            Some(thread) => exists|i: int|
                0 <= i < threads.len() && #[trigger] threads[i] == thread && thread.id == id && forall|
                    j: int,
                |
                    i < j < threads.len() ==> (#[trigger] threads[j]).id != id,
            None => forall|i: int| 0 <= i < threads.len() ==> (#[trigger] threads[i]).id != id,
        },
    decreases threads.len(),
{
    if threads.len() > 0 {
        let front = threads.drop_last();
        lemma_row_of(front, id);
        if threads.last().id == id {
            assert(threads[threads.len() - 1] == threads.last());
        } else {
            match sessions::thread_by_id(front, id) {
                Some(thread) => {
                    let i = choose|i: int|
                        0 <= i < front.len() && #[trigger] front[i] == thread && thread.id == id
                            && forall|j: int|
                            i < j < front.len() ==> (#[trigger] front[j]).id != id;
                    assert(threads[i] == thread);
                    assert forall|j: int| i < j < threads.len() implies (#[trigger] threads[j]).id
                        != id by {
                        if j < front.len() {
                            assert(front[j] == threads[j]);
                        }
                    }
                },
                None => {
                    assert forall|i: int| 0 <= i < threads.len() implies (#[trigger] threads[i]).id
                        != id by {
                        if i < front.len() {
                            assert(front[i] == threads[i]);
                        }
                    }
                },
            }
        }
    }
}

proof fn lemma_no_issue_means_read(snapshot: SnapshotView, target: Seq<char>, id: Seq<char>)
    ensures
        session_issues(snapshot, target, id).len() == 0 <==> reads_under(snapshot, target, id),
{
    lemma_row_of(snapshot.threads, id);
}

proof fn lemma_faulty_are_counted(snapshot: SnapshotView, target: Seq<char>, ids: Seq<Seq<char>>)
    requires
        ids.no_duplicates(),
    ensures
        faulty_sessions(snapshot, target, ids) == ids.to_set().filter(
            |id: Seq<char>| !reads_under(snapshot, target, id),
        ).len(),
    decreases ids.len(),
{
    let wrong = |id: Seq<char>| !reads_under(snapshot, target, id);
    vstd::seq_lib::seq_to_set_is_finite(ids);
    if ids.len() == 0 {
        assert(ids.to_set().filter(wrong) =~= Set::empty());
    } else {
        let front = ids.drop_last();
        let last = ids.last();
        assert(front.no_duplicates());
        lemma_faulty_are_counted(snapshot, target, front);
        lemma_no_issue_means_read(snapshot, target, last);
        vstd::seq_lib::seq_to_set_is_finite(front);
        assert(ids =~= front.push(last));
        assert(ids.to_set() =~= front.to_set().insert(last)) by {
            assert forall|id: Seq<char>| ids.to_set().contains(id) <==> front.to_set().insert(
                last,
            ).contains(id) by {
                sessions::lemma_push_contains(front, last, id);
            }
        }
        assert(!front.to_set().contains(last)) by {
            if front.contains(last) {
                let k = choose|k: int| 0 <= k < front.len() && front[k] == last;
                assert(ids[k] == ids[ids.len() - 1]);
            }
        }
        if wrong(last) {
            assert(ids.to_set().filter(wrong) =~= front.to_set().filter(wrong).insert(last));
        } else {
            assert(ids.to_set().filter(wrong) =~= front.to_set().filter(wrong));
        }
    }
}

/// A verification of sessions is fine exactly where each of them reads under the target, and counts
/// as remaining every one that does not.
pub proof fn law_verified_sessions_read_under_the_target(
    snapshot: SnapshotView,
    target: Seq<char>,
    ids: Set<Seq<char>>,
)
    requires
        ids.finite(),
        ids.len() <= usize::MAX,
        providers::safe_id(target),
    ensures
        ({
            let result = sessions_verified(snapshot, target, ids);
            let wrong = ids.filter(|id: Seq<char>| !reads_under(snapshot, target, id));
            &&& result.ok <==> forall|id: Seq<char>| #[trigger]
                ids.contains(id) ==> reads_under(snapshot, target, id)
            &&& result.checked == ids.len()
            &&& result.remaining == wrong.len()
            &&& result.skipped == 0
        }),
{
    let listed = ordered::listed::<String>(ids);
    ordered::lemma_finite_is_listed::<String>(ids);
    let wrong = |id: Seq<char>| !reads_under(snapshot, target, id);
    assert(listed.no_duplicates()) by {
        assert forall|i: int, j: int|
            0 <= i < listed.len() && 0 <= j < listed.len() && i != j implies listed[i]
            != listed[j] by {
            if i < j {
                assert(String::relation_of(listed[i], listed[j]) == Relation::Less);
                String::order_total(listed[i], listed[j]);
            } else {
                assert(String::relation_of(listed[j], listed[i]) == Relation::Less);
                String::order_total(listed[j], listed[i]);
            }
        }
    }
    assert(listed.to_set() =~= ids) by {
        assert forall|id: Seq<char>| listed.to_set().contains(id) <==> ids.contains(id) by {
            if listed.contains(id) {
                let k = choose|k: int| 0 <= k < listed.len() && listed[k] == id;
                assert(ids.contains(listed[k]));
            }
        }
    }
    lemma_faulty_are_counted(snapshot, target, listed);
    let left = ids.filter(wrong);
    ids.lemma_len_filter(wrong);
    if left.len() == 0 {
        assert forall|id: Seq<char>| #[trigger] ids.contains(id) implies reads_under(
            snapshot,
            target,
            id,
        ) by {
            if wrong(id) {
                assert(left.contains(id));
            }
        }
    } else if forall|id: Seq<char>| #[trigger] ids.contains(id) ==> reads_under(snapshot, target, id) {
        assert(left =~= Set::empty());
    }
}

proof fn lemma_pending_named(planned: Seq<PlannedSessionView>)
    ensures
        forall|i: int|
            0 <= i < planned.len() && (#[trigger] planned[i]).category != PlanCategory::Aligned
                ==> pending_reasons(planned).contains(
                SkipReasonView {
                    thread_id: Some(planned[i].thread_id),
                    reason: category_name(planned[i].category),
                },
            ),
        (forall|i: int|
            0 <= i < planned.len() ==> (#[trigger] planned[i]).category == PlanCategory::Aligned)
            ==> pending_reasons(planned).len() == 0,
    decreases planned.len(),
{
    broadcast use vstd::seq_lib::group_seq_properties;

    if planned.len() > 0 {
        let front = planned.drop_last();
        lemma_pending_named(front);
        let all = pending_reasons(planned);
        assert forall|i: int|
            0 <= i < planned.len() && (#[trigger] planned[i]).category
                != PlanCategory::Aligned implies all.contains(
            SkipReasonView {
                thread_id: Some(planned[i].thread_id),
                reason: category_name(planned[i].category),
            },
        ) by {
            if i < front.len() {
                assert(front[i] == planned[i]);
            } else {
                assert(all[all.len() - 1].thread_id == Some(planned[i].thread_id));
            }
        }
        if forall|i: int|
            0 <= i < planned.len() ==> (#[trigger] planned[i]).category == PlanCategory::Aligned {
            assert forall|i: int| 0 <= i < front.len() implies (#[trigger] front[i]).category
                == PlanCategory::Aligned by {
                assert(planned[i] == front[i]);
            }
            assert(planned[planned.len() - 1].category == PlanCategory::Aligned);
        }
    }
}

/// A verification counts what is left and what was looked at, and names every session that is not
/// aligned, what is to be undone and what is in conflict.
pub proof fn law_verification_tells_what_is_left(preview: ProjectionPreviewResultView)
    requires
        preview.changed_threads + preview.reconcile_conflicts + preview.workspace_conflicts
            <= usize::MAX,
        preview.plan.considered + preview.reconcile_pending + preview.reconcile_conflicts
            + preview.workspace_conflicts <= usize::MAX,
    ensures
        ({
            let result = preview_verified(preview);
            &&& result.remaining == preview.changed_threads + preview.reconcile_conflicts
                + preview.workspace_conflicts
            &&& result.checked == preview.plan.considered + preview.reconcile_pending
                + preview.reconcile_conflicts + preview.workspace_conflicts
            &&& result.skipped == preview.skipped
            &&& result.ok <==> result.remaining == 0
            &&& forall|i: int|
                0 <= i < preview.plan.sessions.len() && (
                #[trigger] preview.plan.sessions[i]).category != PlanCategory::Aligned
                    ==> result.reasons.contains(
                    SkipReasonView {
                        thread_id: Some(preview.plan.sessions[i].thread_id),
                        reason: category_name(preview.plan.sessions[i].category),
                    },
                )
            &&& forall|i: int|
                0 <= i < preview.reconcile_reasons.len() ==> result.reasons.contains(
                    #[trigger] preview.reconcile_reasons[i],
                )
            &&& forall|i: int|
                0 <= i < preview.workspace_conflict_reasons.len() ==> result.reasons.contains(
                    #[trigger] preview.workspace_conflict_reasons[i],
                )
            &&& preview.changed_threads > 0 ==> result.reasons.contains(
                SkipReasonView {
                    thread_id: None,
                    reason: text::decimal_text(preview.changed_threads as nat)
                        + " selected sessions still require metadata or index repair"@,
                },
            )
            &&& preview.reconcile_pending > 0 ==> result.reasons.contains(
                SkipReasonView {
                    thread_id: None,
                    reason: text::decimal_text(preview.reconcile_pending as nat)
                        + " out-of-scope projections need original values restored"@,
                },
            )
        }),
{
    lemma_pending_named(preview.plan.sessions);
    let result = preview_verified(preview);
    let a = pending_reasons(preview.plan.sessions);
    let b = counted_reason(
        preview.reconcile_pending,
        " out-of-scope projections need original values restored"@,
    );
    let c = counted_reason(
        preview.changed_threads,
        " selected sessions still require metadata or index repair"@,
    );
    let d = preview.reconcile_reasons;
    let e = preview.workspace_conflict_reasons;
    assert forall|reason: SkipReasonView|
        a.contains(reason) || b.contains(reason) || c.contains(reason) || d.contains(reason)
            || e.contains(reason) implies #[trigger] result.reasons.contains(reason) by {
        broadcast use vstd::seq_lib::group_seq_properties;

        assert((a + b).contains(reason) || c.contains(reason) || d.contains(reason) || e.contains(
            reason,
        ));
        assert((a + b + c).contains(reason) || d.contains(reason) || e.contains(reason));
        assert((a + b + c + d).contains(reason) || e.contains(reason));
        assert((a + b + c + d + e).contains(reason));
    }
    if preview.changed_threads > 0 {
        assert(c.contains(c[0]));
    }
    if preview.reconcile_pending > 0 {
        assert(b.contains(b[0]));
    }
    assert forall|i: int| 0 <= i < d.len() implies result.reasons.contains(#[trigger] d[i]) by {
        assert(d.contains(d[i]));
    }
    assert forall|i: int| 0 <= i < e.len() implies result.reasons.contains(#[trigger] e[i]) by {
        assert(e.contains(e[i]));
    }
}

/// What is wrong with a session is named: that it has no state row, that it has no rollout, that its
/// state row does not read as it should, that its rollout names no provider or another one.
pub proof fn law_faults_are_named(snapshot: SnapshotView, target: Seq<char>, id: Seq<char>)
    ensures
        ({
            let issues = session_issues(snapshot, target, id);
            let row = sessions::thread_by_id(snapshot.threads, id);
            let rolled = snapshot.primary_rollouts.dom().contains(id);
            let named = snapshot.rollout_provider_values.dom().contains(id);
            &&& issues.contains(planning::reason_for(id, "thread_missing_after_write"@)) <==> row is None
            &&& issues.contains(planning::reason_for(id, "rollout_missing_after_write"@)) <==> row is Some
                && !rolled
            &&& issues.contains(planning::reason_for(id, "rollout_provider_missing"@)) <==> row is Some
                && rolled && !named
            &&& issues.contains(planning::reason_for(id, "rollout_provider_mismatch"@)) <==> row is Some
                && rolled && named && snapshot.rollout_provider_values[id] != target
            &&& issues.contains(planning::reason_for(id, "state_provider_mismatch"@)) <==> row is Some
                && rolled && (row->0.provider != target || row->0.archived
                != snapshot.primary_rollouts[id].archived || row->0.rollout_path
                != snapshot.primary_rollouts[id].path || (text::trimmed(
                row->0.first_user_message,
            ).len() > 0 && (!row->0.has_user_event || text::trimmed(row->0.thread_source).len()
                == 0)))
            &&& forall|i: int|
                0 <= i < issues.len() ==> (#[trigger] issues[i]).thread_id == Some(id)
        }),
{
    lemma_issue_words();
    let issues = session_issues(snapshot, target, id);
    let row = sessions::thread_by_id(snapshot.threads, id);
    let a = planning::reason_for(id, "thread_missing_after_write"@);
    let b = planning::reason_for(id, "rollout_missing_after_write"@);
    let c = planning::reason_for(id, "rollout_provider_missing"@);
    let d = planning::reason_for(id, "rollout_provider_mismatch"@);
    let e = planning::reason_for(id, "state_provider_mismatch"@);
    if row is None {
        assert(issues[0] == a);
    } else if !snapshot.primary_rollouts.dom().contains(id) {
        assert(issues[0] == b);
    } else {
        let primary = snapshot.primary_rollouts[id];
        let differs = state_differs(row->0, primary, target);
        let issue = rollout_issue(
            sessions::lookup(snapshot.rollout_provider_values, id),
            target,
        );
        if differs {
            assert(issues[0] == e);
        }
        if issue is Some {
            assert(issues[issues.len() - 1] == planning::reason_for(id, issue->0));
        }
        assert(issues.len() == (if differs {
            1int
        } else {
            0int
        }) + (if issue is Some {
            1int
        } else {
            0int
        }));
    }
}

proof fn lemma_issue_words()
    ensures
        "thread_missing_after_write"@ != "rollout_missing_after_write"@,
        "thread_missing_after_write"@ != "rollout_provider_missing"@,
        "thread_missing_after_write"@ != "rollout_provider_mismatch"@,
        "thread_missing_after_write"@ != "state_provider_mismatch"@,
        "rollout_missing_after_write"@ != "rollout_provider_missing"@,
        "rollout_missing_after_write"@ != "rollout_provider_mismatch"@,
        "rollout_missing_after_write"@ != "state_provider_mismatch"@,
        "rollout_provider_missing"@ != "rollout_provider_mismatch"@,
        "rollout_provider_missing"@ != "state_provider_mismatch"@,
        "rollout_provider_mismatch"@ != "state_provider_mismatch"@,
{
    reveal_strlit("thread_missing_after_write");
    reveal_strlit("rollout_missing_after_write");
    reveal_strlit("rollout_provider_missing");
    reveal_strlit("rollout_provider_mismatch");
    reveal_strlit("state_provider_mismatch");
    assert("thread_missing_after_write"@.len() == 26);
    assert("rollout_missing_after_write"@.len() == 27);
    assert("rollout_provider_missing"@.len() == 24);
    assert("rollout_provider_mismatch"@.len() == 25);
    assert("state_provider_mismatch"@.len() == 23);
}

} // verus!

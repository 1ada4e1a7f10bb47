//! What a home reads as once a plan was written.

use crate::json;
use crate::json::JsonView;
use crate::locality;
use crate::planning;
use crate::planning::{RepairPlanView, RolloutUpdate, RolloutUpdateView, StateUpdate, StateUpdateView};
use crate::projection::ProjectionStoreView;
use crate::providers;
use crate::records;
use crate::records::{BackedThreadView, PrimaryRolloutView, SnapshotView, ThreadRowView};
use crate::sessions;
use crate::sessions::{StateInsert, StateInsertView};
use crate::text;
use crate::verification;
use vstd::prelude::*;

verus! {

/// A state row still reads as a rewrite expects it.
pub open spec fn expects(update: StateUpdateView, row: ThreadRowView) -> bool {
    &&& update.thread_id == row.id
    &&& update.expected_provider == row.provider
    &&& update.expected_archived == row.archived
    &&& update.expected_rollout_path == row.rollout_path
    &&& update.expected_thread_source == row.thread_source
    &&& update.expected_has_user_event == row.has_user_event
}

/// A state row as a rewrite leaves it.
pub open spec fn rewritten_row(update: StateUpdateView, row: ThreadRowView) -> ThreadRowView {
    ThreadRowView {
        provider: update.provider,
        archived: update.archived,
        rollout_path: update.rollout_path,
        thread_source: update.thread_source,
        has_user_event: update.has_user_event,
        ..row
    }
}

/// A state row after rewrites, each of which is made where the row reads as it expects.
pub open spec fn written_row(
    row: ThreadRowView,
    updates: Seq<StateUpdateView>,
) -> ThreadRowView
    decreases updates.len(),
{
    if updates.len() == 0 {
        row
    } else {
        let before = written_row(row, updates.drop_last());
        if expects(updates.last(), before) {
            rewritten_row(updates.last(), before)
        } else {
            before
        }
    }
}

/// A state row reads as it was added.
pub open spec fn shows(row: ThreadRowView, insert: StateInsertView) -> bool {
    &&& row.id == insert.thread_id
    &&& row.rollout_path == insert.rollout_path
    &&& row.provider == insert.provider
    &&& row.archived == insert.archived
    &&& row.source == insert.source
    &&& row.thread_source == insert.thread_source
    &&& row.first_user_message == insert.first_user_message
    &&& row.has_user_event == insert.has_user_event
}

/// The providers that rollouts name after rewrites, each of which is made where the rollout names
/// the provider that it expects.
pub open spec fn rewritten_providers(
    values: Map<Seq<char>, Seq<char>>,
    updates: Seq<RolloutUpdateView>,
) -> Map<Seq<char>, Seq<char>>
    decreases updates.len(),
{
    if updates.len() == 0 {
        values
    } else {
        let before = rewritten_providers(values, updates.drop_last());
        let update = updates.last();
        if sessions::lookup(before, update.thread_id) != update.expected_provider {
            before
        } else {
            match update.provider {
                Some(provider) => before.insert(update.thread_id, provider),
                None => before.remove(update.thread_id),
            }
        }
    }
}

/// Two first records differ at most in the provider, and in when the file changed.
pub open spec fn same_session(a: PrimaryRolloutView, b: PrimaryRolloutView) -> bool {
    a == PrimaryRolloutView {
        model_provider: a.model_provider,
        provider_field_missing: a.provider_field_missing,
        updated_at_fallback: a.updated_at_fallback,
        ..b
    }
}

/// A home reads as the writes of a plan leave it: state rows are rewritten in their places, added
/// ones come last, and rollouts change in the provider alone.
pub open spec fn written(before: SnapshotView, plan: RepairPlanView, after: SnapshotView) -> bool {
    let count = before.threads.len();
    &&& after.threads_readable == before.threads_readable
    &&& after.threads.len() == count + plan.state_inserts.len()
    &&& forall|i: int|
        0 <= i < count ==> #[trigger] after.threads[i] == written_row(
            before.threads[i],
            plan.state_updates,
        )
    &&& forall|i: int|
        0 <= i < plan.state_inserts.len() ==> shows(
            #[trigger] after.threads[count + i],
            plan.state_inserts[i],
        )
    &&& after.rollout_provider_values == rewritten_providers(
        before.rollout_provider_values,
        plan.rollout_updates,
    )
    &&& after.primary_rollouts.dom() == before.primary_rollouts.dom()
    &&& forall|id: Seq<char>|
        before.primary_rollouts.dom().contains(id) ==> same_session(
            #[trigger] after.primary_rollouts[id],
            before.primary_rollouts[id],
        ) && (after.primary_rollouts[id].provider_field_missing
            ==> before.primary_rollouts[id].provider_field_missing)
    &&& after.catalog == before.catalog
    &&& after.valid_active_rollouts == before.valid_active_rollouts
    &&& after.valid_archived_rollouts == before.valid_archived_rollouts
    &&& after.rollout_locality == before.rollout_locality
    &&& after.rollout_paths == before.rollout_paths
}

/// A text with a visible character at either end is not blank.
proof fn lemma_visible(s: Seq<char>)
    requires
        s.len() > 0,
        !text::whitespace(s[0]),
        !text::whitespace(s.last()),
    ensures
        text::trimmed(s) == s,
{
    assert(text::trimmed_start(s) == s);
}

/// The source that a state row takes from a rollout is not blank.
proof fn lemma_stored_source(value: Option<JsonView>)
    requires
        value matches Some(json) ==> json::sound(json),
    ensures
        text::trimmed(sessions::stored_text(value, "user"@)).len() > 0,
{
    reveal_strlit("user");
    reveal_strlit("null");
    reveal_strlit("true");
    reveal_strlit("false");
    reveal_strlit("[");
    reveal_strlit("]");
    reveal_strlit("{");
    reveal_strlit("}");
    let stored = sessions::stored_text(value, "user"@);
    match value {
        Some(JsonView::Text(text)) => {
            if text::trimmed(text).len() == 0 {
                lemma_visible(stored);
            }
        },
        _ => {
            lemma_visible(stored);
        },
    }
}

/// A repair may touch a session.
pub open spec fn touchable(snapshot: SnapshotView, id: Seq<char>) -> bool {
    &&& sessions::rollout_ids(snapshot).contains(id)
    &&& planning::exclusion(snapshot, sessions::remote_ids(snapshot), id) is None
    &&& snapshot.rollout_paths.dom().contains(id)
}

/// The plan for the desired sessions of a home.
pub open spec fn plan_for(
    snapshot: SnapshotView,
    target: Seq<char>,
    desired: Set<Seq<char>>,
) -> RepairPlanView {
    planning::limited_plan(planning::full_plan(snapshot, target), desired)
}

/// The rewrite that a plan has for a session with a state row.
pub open spec fn own_update(
    snapshot: SnapshotView,
    target: Seq<char>,
    thread: ThreadRowView,
) -> StateUpdateView {
    planning::state_update(
        thread,
        snapshot.primary_rollouts[thread.id],
        snapshot.rollout_paths[thread.id],
        providers::canonical_id(target),
    )
}

/// The session is one that a plan for sessions looks at.
pub open spec fn looked_at(
    snapshot: SnapshotView,
    excluded: Set<Seq<char>>,
    backed: BackedThreadView,
) -> bool {
    &&& planning::exclusion(snapshot, excluded, backed.thread.id) is None
    &&& snapshot.rollout_paths.dom().contains(backed.thread.id)
}

/// The session gives a plan a rewrite of a state row.
pub open spec fn gives_update(
    snapshot: SnapshotView,
    excluded: Set<Seq<char>>,
    target: Seq<char>,
    backed: BackedThreadView,
    update: StateUpdateView,
) -> bool {
    &&& looked_at(snapshot, excluded, backed)
    &&& snapshot.threads_readable
    &&& backed.state_present
    &&& update == own_update(snapshot, target, backed.thread)
    &&& planning::update_changes(update)
}

/// The session gives a plan a state row to add.
pub open spec fn gives_insert(
    snapshot: SnapshotView,
    excluded: Set<Seq<char>>,
    target: Seq<char>,
    backed: BackedThreadView,
    insert: StateInsertView,
) -> bool {
    let id = backed.thread.id;
    &&& looked_at(snapshot, excluded, backed)
    &&& snapshot.threads_readable
    &&& !backed.state_present
    &&& insert == sessions::state_insert(snapshot.primary_rollouts[id], id, target)
}

/// The session gives a plan a rewrite of a rollout.
pub open spec fn gives_rollout(
    snapshot: SnapshotView,
    excluded: Set<Seq<char>>,
    target: Seq<char>,
    backed: BackedThreadView,
    update: RolloutUpdateView,
) -> bool {
    let id = backed.thread.id;
    let provider = sessions::lookup(snapshot.rollout_provider_values, id);
    &&& looked_at(snapshot, excluded, backed)
    &&& provider != Some(providers::canonical_id(target))
    &&& update == RolloutUpdateView {
        thread_id: id,
        path: snapshot.rollout_paths[id],
        archived: snapshot.primary_rollouts[id].archived,
        expected_provider: provider,
        provider: Some(providers::canonical_id(target)),
    }
}

/// The session gives a plan a write.
pub open spec fn gives_change(
    snapshot: SnapshotView,
    excluded: Set<Seq<char>>,
    target: Seq<char>,
    backed: BackedThreadView,
) -> bool {
    &&& looked_at(snapshot, excluded, backed)
    &&& {
        ||| snapshot.threads_readable && !backed.state_present
        ||| snapshot.threads_readable && backed.state_present && planning::update_changes(
            own_update(snapshot, target, backed.thread),
        )
        ||| sessions::lookup(snapshot.rollout_provider_values, backed.thread.id) != Some(
            providers::canonical_id(target),
        )
    }
}

/// The writes of a plan are those that its sessions give.
proof fn lemma_plan_members(
    snapshot: SnapshotView,
    excluded: Set<Seq<char>>,
    target: Seq<char>,
    backed: Seq<BackedThreadView>,
)
    ensures
        ({
            let plan = planning::plan_of(snapshot, excluded, target, backed);
            &&& forall|update: StateUpdateView| #[trigger]
                plan.state_updates.contains(update) <==> exists|i: int|
                    0 <= i < backed.len() && gives_update(
                        snapshot,
                        excluded,
                        target,
                        #[trigger] backed[i],
                        update,
                    )
            &&& forall|insert: StateInsertView| #[trigger]
                plan.state_inserts.contains(insert) <==> exists|i: int|
                    0 <= i < backed.len() && gives_insert(
                        snapshot,
                        excluded,
                        target,
                        #[trigger] backed[i],
                        insert,
                    )
            &&& forall|update: RolloutUpdateView| #[trigger]
                plan.rollout_updates.contains(update) <==> exists|i: int|
                    0 <= i < backed.len() && gives_rollout(
                        snapshot,
                        excluded,
                        target,
                        #[trigger] backed[i],
                        update,
                    )
            &&& forall|id: Seq<char>| #[trigger]
                plan.changed_ids.contains(id) <==> exists|i: int|
                    0 <= i < backed.len() && (#[trigger] backed[i]).thread.id == id && gives_change(
                        snapshot,
                        excluded,
                        target,
                        backed[i],
                    )
        }),
    decreases backed.len(),
{
    if backed.len() > 0 {
        let front = backed.drop_last();
        let last = backed.last();
        lemma_plan_members(snapshot, excluded, target, front);
        let shorter = planning::plan_of(snapshot, excluded, target, front);
        let plan = planning::plan_of(snapshot, excluded, target, backed);
        assert forall|i: int| 0 <= i < front.len() implies front[i] == #[trigger] backed[i] by {}
        assert(last == backed[backed.len() - 1]);
        let id = last.thread.id;
        let rollout = RolloutUpdateView {
            thread_id: id,
            path: snapshot.rollout_paths[id],
            archived: snapshot.primary_rollouts[id].archived,
            expected_provider: sessions::lookup(snapshot.rollout_provider_values, id),
            provider: Some(providers::canonical_id(target)),
        };
        let insert = sessions::state_insert(snapshot.primary_rollouts[id], id, target);
        assert forall|update: StateUpdateView| #[trigger]
            plan.state_updates.contains(update) <==> exists|i: int|
                0 <= i < backed.len() && gives_update(
                    snapshot,
                    excluded,
                    target,
                    #[trigger] backed[i],
                    update,
                ) by {
            sessions::lemma_push_contains(
                shorter.state_updates,
                own_update(snapshot, target, last.thread),
                update,
            );
            if shorter.state_updates.contains(update) {
                let i = choose|i: int|
                    0 <= i < front.len() && gives_update(
                        snapshot,
                        excluded,
                        target,
                        #[trigger] front[i],
                        update,
                    );
                assert(gives_update(snapshot, excluded, target, backed[i], update));
            }
            if exists|i: int|
                0 <= i < backed.len() && gives_update(
                    snapshot,
                    excluded,
                    target,
                    #[trigger] backed[i],
                    update,
                ) {
                let i = choose|i: int|
                    0 <= i < backed.len() && gives_update(
                        snapshot,
                        excluded,
                        target,
                        #[trigger] backed[i],
                        update,
                    );
                if i < front.len() {
                    assert(gives_update(snapshot, excluded, target, front[i], update));
                }
            }
        }
        assert forall|added: StateInsertView| #[trigger]
            plan.state_inserts.contains(added) <==> exists|i: int|
                0 <= i < backed.len() && gives_insert(
                    snapshot,
                    excluded,
                    target,
                    #[trigger] backed[i],
                    added,
                ) by {
            sessions::lemma_push_contains(shorter.state_inserts, insert, added);
            if shorter.state_inserts.contains(added) {
                let i = choose|i: int|
                    0 <= i < front.len() && gives_insert(
                        snapshot,
                        excluded,
                        target,
                        #[trigger] front[i],
                        added,
                    );
                assert(gives_insert(snapshot, excluded, target, backed[i], added));
            }
            if exists|i: int|
                0 <= i < backed.len() && gives_insert(
                    snapshot,
                    excluded,
                    target,
                    #[trigger] backed[i],
                    added,
                ) {
                let i = choose|i: int|
                    0 <= i < backed.len() && gives_insert(
                        snapshot,
                        excluded,
                        target,
                        #[trigger] backed[i],
                        added,
                    );
                if i < front.len() {
                    assert(gives_insert(snapshot, excluded, target, front[i], added));
                }
            }
        }
        assert forall|update: RolloutUpdateView| #[trigger]
            plan.rollout_updates.contains(update) <==> exists|i: int|
                0 <= i < backed.len() && gives_rollout(
                    snapshot,
                    excluded,
                    target,
                    #[trigger] backed[i],
                    update,
                ) by {
            sessions::lemma_push_contains(shorter.rollout_updates, rollout, update);
            if shorter.rollout_updates.contains(update) {
                let i = choose|i: int|
                    0 <= i < front.len() && gives_rollout(
                        snapshot,
                        excluded,
                        target,
                        #[trigger] front[i],
                        update,
                    );
                assert(gives_rollout(snapshot, excluded, target, backed[i], update));
            }
            if exists|i: int|
                0 <= i < backed.len() && gives_rollout(
                    snapshot,
                    excluded,
                    target,
                    #[trigger] backed[i],
                    update,
                ) {
                let i = choose|i: int|
                    0 <= i < backed.len() && gives_rollout(
                        snapshot,
                        excluded,
                        target,
                        #[trigger] backed[i],
                        update,
                    );
                if i < front.len() {
                    assert(gives_rollout(snapshot, excluded, target, front[i], update));
                }
            }
        }
        assert forall|x: Seq<char>| #[trigger]
            plan.changed_ids.contains(x) <==> exists|i: int|
                0 <= i < backed.len() && (#[trigger] backed[i]).thread.id == x && gives_change(
                    snapshot,
                    excluded,
                    target,
                    backed[i],
                ) by {
            if shorter.changed_ids.contains(x) {
                let i = choose|i: int|
                    0 <= i < front.len() && (#[trigger] front[i]).thread.id == x && gives_change(
                        snapshot,
                        excluded,
                        target,
                        front[i],
                    );
                assert(backed[i].thread.id == x);
            }
            if exists|i: int|
                0 <= i < backed.len() && (#[trigger] backed[i]).thread.id == x && gives_change(
                    snapshot,
                    excluded,
                    target,
                    backed[i],
                ) {
                let i = choose|i: int|
                    0 <= i < backed.len() && (#[trigger] backed[i]).thread.id == x && gives_change(
                        snapshot,
                        excluded,
                        target,
                        backed[i],
                    );
                if i < front.len() {
                    assert(front[i].thread.id == x);
                }
            }
        }
    }
}

/// What is kept of a sequence is what it holds and what is to be kept.
pub proof fn lemma_kept_contains<X>(items: Seq<X>, keep: spec_fn(X) -> bool, x: X)
    ensures
        planning::kept(items, keep).contains(x) <==> items.contains(x) && keep(x),
    decreases items.len(),
{
    if items.len() > 0 {
        let front = items.drop_last();
        lemma_kept_contains(front, keep, x);
        assert(items =~= front.push(items.last()));
        sessions::lemma_push_contains(front, items.last(), x);
        sessions::lemma_push_contains(planning::kept(front, keep), items.last(), x);
    }
}

/// The sessions of ids are those of each of them.
proof fn lemma_backed_threads(snapshot: SnapshotView, ids: Seq<Seq<char>>)
    ensures
        forall|b: BackedThreadView| #[trigger]
            sessions::backed_threads(snapshot, ids).contains(b) <==> exists|i: int|
                0 <= i < ids.len() && sessions::backed_thread(snapshot, #[trigger] ids[i]) == Some(
                    b,
                ),
    decreases ids.len(),
{
    if ids.len() > 0 {
        let front = ids.drop_last();
        lemma_backed_threads(snapshot, front);
        let rest = sessions::backed_threads(snapshot, front);
        assert forall|b: BackedThreadView| #[trigger]
            sessions::backed_threads(snapshot, ids).contains(b) <==> exists|i: int|
                0 <= i < ids.len() && sessions::backed_thread(snapshot, #[trigger] ids[i]) == Some(
                    b,
                ) by {
            if sessions::backed_thread(snapshot, ids.last()) is Some {
                sessions::lemma_push_contains(
                    rest,
                    sessions::backed_thread(snapshot, ids.last())->0,
                    b,
                );
            }
            if rest.contains(b) {
                let i = choose|i: int|
                    0 <= i < front.len() && sessions::backed_thread(snapshot, #[trigger] front[i])
                        == Some(b);
                assert(ids[i] == front[i]);
            }
            if sessions::backed_thread(snapshot, ids.last()) == Some(b) {
                assert(ids[ids.len() - 1] == ids.last());
            }
            if exists|i: int|
                0 <= i < ids.len() && sessions::backed_thread(snapshot, #[trigger] ids[i]) == Some(
                    b,
                ) {
                let i = choose|i: int|
                    0 <= i < ids.len() && sessions::backed_thread(snapshot, #[trigger] ids[i])
                        == Some(b);
                if i < front.len() {
                    assert(front[i] == ids[i]);
                }
            }
        }
    }
}

/// The row that a search from the end finds, or that there is none.
pub proof fn lemma_last_row(threads: Seq<ThreadRowView>, id: Seq<char>) -> (at: int)
    ensures
        match sessions::thread_by_id(threads, id) {
            Some(thread) => {
                &&& 0 <= at < threads.len()
                &&& threads[at] == thread
                &&& thread.id == id
                &&& forall|j: int| at < j < threads.len() ==> (#[trigger] threads[j]).id != id
            },
            None => forall|j: int| 0 <= j < threads.len() ==> (#[trigger] threads[j]).id != id,
        },
    decreases threads.len(),
{
    if threads.len() == 0 {
        0
    } else if threads.last().id == id {
        threads.len() - 1
    } else {
        let front = threads.drop_last();
        let at = lemma_last_row(front, id);
        assert forall|j: int|
            0 <= j < threads.len() && (j < front.len() ==> front[j].id != id) implies (
        #[trigger] threads[j]).id != id by {}
        at
    }
}

/// A row that none with its id follows is the one that a search from the end finds.
proof fn lemma_row_is_last(threads: Seq<ThreadRowView>, id: Seq<char>, at: int)
    requires
        0 <= at < threads.len(),
        threads[at].id == id,
        forall|j: int| at < j < threads.len() ==> (#[trigger] threads[j]).id != id,
    ensures
        sessions::thread_by_id(threads, id) == Some(threads[at]),
{
    let found = lemma_last_row(threads, id);
    assert(threads[at].id == id);
    if sessions::thread_by_id(threads, id) is Some {
        assert(threads[found].id == id);
    }
}

/// A row keeps its id through rewrites.
proof fn lemma_written_row_keeps_id(row: ThreadRowView, updates: Seq<StateUpdateView>)
    ensures
        written_row(row, updates).id == row.id,
    decreases updates.len(),
{
    if updates.len() > 0 {
        lemma_written_row_keeps_id(row, updates.drop_last());
    }
}

/// Rewrites of other rows leave a row alone.
proof fn lemma_row_untouched(row: ThreadRowView, updates: Seq<StateUpdateView>)
    requires
        forall|i: int| 0 <= i < updates.len() ==> (#[trigger] updates[i]).thread_id != row.id,
    ensures
        written_row(row, updates) == row,
    decreases updates.len(),
{
    if updates.len() > 0 {
        let front = updates.drop_last();
        assert forall|i: int| 0 <= i < front.len() implies (#[trigger] front[i]).thread_id
            != row.id by {
            assert(front[i] == updates[i]);
        }
        lemma_row_untouched(row, front);
        assert(updates[updates.len() - 1] == updates.last());
    }
}

/// A row for which there is one rewrite, which it meets, is left as that rewrite says.
proof fn lemma_row_rewritten(
    row: ThreadRowView,
    updates: Seq<StateUpdateView>,
    update: StateUpdateView,
)
    requires
        expects(update, row),
        forall|i: int|
            0 <= i < updates.len() && (#[trigger] updates[i]).thread_id == row.id ==> updates[i]
                == update,
    ensures
        written_row(row, updates) == (if updates.contains(update) {
            rewritten_row(update, row)
        } else {
            row
        }),
    decreases updates.len(),
{
    if updates.len() > 0 {
        let front = updates.drop_last();
        assert forall|i: int|
            0 <= i < front.len() && (#[trigger] front[i]).thread_id == row.id implies front[i]
            == update by {
            assert(front[i] == updates[i]);
        }
        lemma_row_rewritten(row, front, update);
        lemma_written_row_keeps_id(row, front);
        assert(updates[updates.len() - 1] == updates.last());
        assert(updates =~= front.push(updates.last()));
        sessions::lemma_push_contains(front, updates.last(), update);
    }
}

/// A rollout for which there is one rewrite, which it meets, names what that rewrite says.
proof fn lemma_provider_rewritten(
    values: Map<Seq<char>, Seq<char>>,
    updates: Seq<RolloutUpdateView>,
    update: RolloutUpdateView,
    id: Seq<char>,
)
    requires
        update.thread_id == id,
        update.provider is Some,
        update.expected_provider == sessions::lookup(values, id),
        update.expected_provider != update.provider,
        forall|i: int|
            0 <= i < updates.len() && (#[trigger] updates[i]).thread_id == id ==> updates[i]
                == update,
    ensures
        sessions::lookup(rewritten_providers(values, updates), id) == (if updates.contains(
            update,
        ) {
            update.provider
        } else {
            sessions::lookup(values, id)
        }),
    decreases updates.len(),
{
    if updates.len() > 0 {
        let front = updates.drop_last();
        assert forall|i: int|
            0 <= i < front.len() && (#[trigger] front[i]).thread_id == id implies front[i]
            == update by {
            assert(front[i] == updates[i]);
        }
        lemma_provider_rewritten(values, front, update, id);
        assert(updates[updates.len() - 1] == updates.last());
        assert(updates =~= front.push(updates.last()));
        sessions::lemma_push_contains(front, updates.last(), update);
    }
}

/// Rewrites of other rollouts leave the provider of a rollout alone.
proof fn lemma_provider_untouched(
    values: Map<Seq<char>, Seq<char>>,
    updates: Seq<RolloutUpdateView>,
    id: Seq<char>,
)
    requires
        forall|i: int| 0 <= i < updates.len() ==> (#[trigger] updates[i]).thread_id != id,
    ensures
        sessions::lookup(rewritten_providers(values, updates), id) == sessions::lookup(values, id),
    decreases updates.len(),
{
    if updates.len() > 0 {
        let front = updates.drop_last();
        assert forall|i: int| 0 <= i < front.len() implies (#[trigger] front[i]).thread_id
            != id by {
            assert(front[i] == updates[i]);
        }
        lemma_provider_untouched(values, front, id);
        assert(updates[updates.len() - 1] == updates.last());
    }
}

/// The one session of an id that a plan looks at.
pub proof fn lemma_backed_of(snapshot: SnapshotView, id: Seq<char>)
    requires
        records::consistent(snapshot),
        snapshot.valid_active_rollouts.contains(id) || snapshot.valid_archived_rollouts.contains(
            id,
        ),
    ensures
        sessions::backed_thread(snapshot, id) is Some,
        sessions::backed_thread(snapshot, id)->0.thread.id == id,
        snapshot.primary_rollouts.dom().contains(id),
        snapshot.primary_rollouts[id].id == id,
{
    lemma_last_row(snapshot.threads, id);
    assert(snapshot.primary_rollouts[id].id == id);
}

/// What a plan for the desired sessions holds for one of them, and that it holds nothing for a
/// session that it does not look at.
proof fn lemma_plan_for(
    snapshot: SnapshotView,
    target: Seq<char>,
    desired: Set<Seq<char>>,
    id: Seq<char>,
)
    requires
        records::consistent(snapshot),
    ensures
        ({
            let plan = plan_for(snapshot, target, desired);
            let excluded = sessions::remote_ids(snapshot);
            let backed = sessions::backed_thread(snapshot, id)->0;
            let canonical = providers::canonical_id(target);
            let looked = touchable(snapshot, id) && desired.contains(id);
            let rollout = RolloutUpdateView {
                thread_id: id,
                path: snapshot.rollout_paths[id],
                archived: snapshot.primary_rollouts[id].archived,
                expected_provider: sessions::lookup(snapshot.rollout_provider_values, id),
                provider: Some(canonical),
            };
            &&& forall|i: int|
                0 <= i < plan.state_updates.len() && (
                #[trigger] plan.state_updates[i]).thread_id == id ==> looked
                    && snapshot.threads_readable && backed.state_present && plan.state_updates[i]
                    == own_update(snapshot, target, backed.thread) && planning::update_changes(
                    plan.state_updates[i],
                )
            &&& looked && snapshot.threads_readable && backed.state_present
                && planning::update_changes(own_update(snapshot, target, backed.thread))
                ==> plan.state_updates.contains(own_update(snapshot, target, backed.thread))
            &&& forall|i: int|
                0 <= i < plan.state_inserts.len() && (
                #[trigger] plan.state_inserts[i]).thread_id == id ==> looked
                    && snapshot.threads_readable && !backed.state_present && plan.state_inserts[i]
                    == sessions::state_insert(snapshot.primary_rollouts[id], id, target)
            &&& looked && snapshot.threads_readable && !backed.state_present
                ==> plan.state_inserts.contains(
                sessions::state_insert(snapshot.primary_rollouts[id], id, target),
            )
            &&& forall|i: int|
                0 <= i < plan.rollout_updates.len() && (
                #[trigger] plan.rollout_updates[i]).thread_id == id ==> looked
                    && plan.rollout_updates[i] == rollout && rollout.expected_provider
                    != rollout.provider
            &&& looked && rollout.expected_provider != rollout.provider
                ==> plan.rollout_updates.contains(rollout)
            &&& plan.changed_ids.contains(id) <==> looked && gives_change(
                snapshot,
                excluded,
                target,
                backed,
            )
        }),
{
    let excluded = sessions::remote_ids(snapshot);
    let ids = sessions::rollout_ids(snapshot);
    let list = sessions::backed_threads(snapshot, ids);
    let full = planning::plan_of(snapshot, excluded, target, list);
    let plan = plan_for(snapshot, target, desired);
    let backed = sessions::backed_thread(snapshot, id)->0;
    let canonical = providers::canonical_id(target);
    let rollout = RolloutUpdateView {
        thread_id: id,
        path: snapshot.rollout_paths[id],
        archived: snapshot.primary_rollouts[id].archived,
        expected_provider: sessions::lookup(snapshot.rollout_provider_values, id),
        provider: Some(canonical),
    };
    lemma_plan_members(snapshot, excluded, target, list);
    lemma_backed_threads(snapshot, ids);
    assert forall|i: int|
        0 <= i < list.len() && (#[trigger] list[i]).thread.id == id && looked_at(
            snapshot,
            excluded,
            list[i],
        ) implies list[i] == backed && touchable(snapshot, id) by {
        assert(list.contains(list[i]));
        let k = choose|k: int|
            0 <= k < ids.len() && sessions::backed_thread(snapshot, #[trigger] ids[k]) == Some(
                list[i],
            );
        lemma_last_row(snapshot.threads, ids[k]);
        assert(ids[k] == id);
    }
    if touchable(snapshot, id) {
        lemma_backed_of(snapshot, id);
        let k = choose|k: int| 0 <= k < ids.len() && ids[k] == id;
        assert(sessions::backed_thread(snapshot, ids[k]) == Some(backed));
        assert(list.contains(backed));
        let i = choose|i: int| 0 <= i < list.len() && list[i] == backed;
        assert(list[i] == backed);
        assert(looked_at(snapshot, excluded, backed));
        if desired.contains(id) {
            let update = own_update(snapshot, target, backed.thread);
            let insert = sessions::state_insert(snapshot.primary_rollouts[id], id, target);
            if snapshot.threads_readable && backed.state_present && planning::update_changes(
                update,
            ) {
                assert(gives_update(snapshot, excluded, target, list[i], update));
                assert(full.state_updates.contains(update));
                lemma_writes_kept::<StateUpdate>(full.state_updates, desired, update);
            }
            if snapshot.threads_readable && !backed.state_present {
                assert(gives_insert(snapshot, excluded, target, list[i], insert));
                assert(full.state_inserts.contains(insert));
                lemma_writes_kept::<StateInsert>(full.state_inserts, desired, insert);
            }
            if rollout.expected_provider != rollout.provider {
                assert(gives_rollout(snapshot, excluded, target, list[i], rollout));
                assert(full.rollout_updates.contains(rollout));
                lemma_writes_kept::<RolloutUpdate>(full.rollout_updates, desired, rollout);
            }
        }
    }
    assert forall|j: int|
        0 <= j < plan.state_updates.len() && (
        #[trigger] plan.state_updates[j]).thread_id == id implies touchable(snapshot, id)
        && desired.contains(id) && snapshot.threads_readable && backed.state_present
        && plan.state_updates[j] == own_update(snapshot, target, backed.thread)
        && planning::update_changes(plan.state_updates[j]) by {
        let update = plan.state_updates[j];
        assert(plan.state_updates.contains(update));
        lemma_writes_kept::<StateUpdate>(full.state_updates, desired, update);
        assert(full.state_updates.contains(update));
        let i = choose|i: int|
            0 <= i < list.len() && gives_update(
                snapshot,
                excluded,
                target,
                #[trigger] list[i],
                update,
            );
        assert(list[i].thread.id == id);
    }
    assert forall|j: int|
        0 <= j < plan.state_inserts.len() && (
        #[trigger] plan.state_inserts[j]).thread_id == id implies touchable(snapshot, id)
        && desired.contains(id) && snapshot.threads_readable && !backed.state_present
        && plan.state_inserts[j] == sessions::state_insert(
        snapshot.primary_rollouts[id],
        id,
        target,
    ) by {
        let insert = plan.state_inserts[j];
        assert(plan.state_inserts.contains(insert));
        lemma_writes_kept::<StateInsert>(full.state_inserts, desired, insert);
        assert(full.state_inserts.contains(insert));
        let i = choose|i: int|
            0 <= i < list.len() && gives_insert(
                snapshot,
                excluded,
                target,
                #[trigger] list[i],
                insert,
            );
        assert(list[i].thread.id == id);
    }
    assert forall|j: int|
        0 <= j < plan.rollout_updates.len() && (
        #[trigger] plan.rollout_updates[j]).thread_id == id implies touchable(snapshot, id)
        && desired.contains(id) && plan.rollout_updates[j] == rollout && rollout.expected_provider
        != rollout.provider by {
        let update = plan.rollout_updates[j];
        assert(plan.rollout_updates.contains(update));
        lemma_writes_kept::<RolloutUpdate>(full.rollout_updates, desired, update);
        assert(full.rollout_updates.contains(update));
        let i = choose|i: int|
            0 <= i < list.len() && gives_rollout(
                snapshot,
                excluded,
                target,
                #[trigger] list[i],
                update,
            );
        assert(list[i].thread.id == id);
    }
    if plan.changed_ids.contains(id) {
        assert(full.changed_ids.contains(id));
        let i = choose|i: int|
            0 <= i < list.len() && (#[trigger] list[i]).thread.id == id && gives_change(
                snapshot,
                excluded,
                target,
                list[i],
            );
        assert(list[i] == backed);
    }
    if touchable(snapshot, id) && desired.contains(id) && gives_change(
        snapshot,
        excluded,
        target,
        backed,
    ) {
        assert(list.contains(backed));
        let i = choose|i: int| 0 <= i < list.len() && list[i] == backed;
        assert(list[i].thread.id == id);
        assert(full.changed_ids.contains(id));
    }
}

/// The kept writes are those of the desired threads.
pub proof fn lemma_writes_kept<T: planning::ThreadBound>(
    writes: Seq<T::V>,
    desired: Set<Seq<char>>,
    write: T::V,
)
    ensures
        planning::kept_writes::<T>(writes, desired).contains(write) <==> writes.contains(write)
            && desired.contains(T::thread_of(write)),
{
    lemma_kept_contains(writes, |w: T::V| desired.contains(T::thread_of(w)), write);
}

/// What is read of a session once the plan was written: it has a state row, which needs no further
/// rewrite, and its rollout names the target.
pub proof fn lemma_session_settled(
    before: SnapshotView,
    after: SnapshotView,
    target: Seq<char>,
    desired: Set<Seq<char>>,
    id: Seq<char>,
)
    requires
        records::consistent(before),
        before.threads_readable,
        written(before, plan_for(before, target, desired), after),
        touchable(before, id),
        desired.contains(id),
    ensures
        sessions::thread_by_id(after.threads, id) is Some,
        ({
            let row = sessions::thread_by_id(after.threads, id)->0;
            &&& row.id == id
            &&& !planning::update_changes(own_update(after, target, row))
            &&& !verification::hidden(row)
        }),
        sessions::lookup(after.rollout_provider_values, id) == Some(
            providers::canonical_id(target),
        ),
{
    let plan = plan_for(before, target, desired);
    let count = before.threads.len();
    let canonical = providers::canonical_id(target);
    let primary = before.primary_rollouts[id];
    let path = before.rollout_paths[id];
    lemma_plan_for(before, target, desired, id);
    lemma_backed_of(before, id);
    let rollout = RolloutUpdateView {
        thread_id: id,
        path,
        archived: primary.archived,
        expected_provider: sessions::lookup(before.rollout_provider_values, id),
        provider: Some(canonical),
    };
    if rollout.expected_provider != rollout.provider {
        lemma_provider_rewritten(before.rollout_provider_values, plan.rollout_updates, rollout, id);
    } else {
        lemma_provider_untouched(before.rollout_provider_values, plan.rollout_updates, id);
    }
    assert(same_session(after.primary_rollouts[id], primary));
    let at = lemma_last_row(before.threads, id);
    if sessions::thread_by_id(before.threads, id) is Some {
        let row = before.threads[at];
        let update = own_update(before, target, row);
        lemma_row_rewritten(row, plan.state_updates, update);
        let now = after.threads[at];
        assert(now == written_row(row, plan.state_updates));
        assert(now == rewritten_row(update, row)) by {
            if !plan.state_updates.contains(update) {
                assert(!planning::update_changes(update));
            }
        }
        assert forall|j: int| at < j < after.threads.len() implies (
        #[trigger] after.threads[j]).id != id by {
            if j < count {
                assert(after.threads[j] == written_row(before.threads[j], plan.state_updates));
                lemma_written_row_keeps_id(before.threads[j], plan.state_updates);
                assert(before.threads[j].id != id);
            } else {
                assert(shows(after.threads[count + (j - count)], plan.state_inserts[j - count]));
            }
        }
        lemma_row_is_last(after.threads, id, at);
        planning::law_update_settles_the_row(row, primary, path, canonical);
        lemma_user_is_not_blank();
    } else {
        let insert = sessions::state_insert(primary, id, target);
        let found = lemma_last_row(after.threads, id);
        let k = choose|k: int| 0 <= k < plan.state_inserts.len() && plan.state_inserts[k] == insert;
        assert(shows(after.threads[count + k], plan.state_inserts[k]));
        assert(sessions::thread_by_id(after.threads, id) is Some);
        if found < count {
            assert(after.threads[found] == written_row(before.threads[found], plan.state_updates));
            lemma_written_row_keeps_id(before.threads[found], plan.state_updates);
            assert(before.threads[found].id != id);
        }
        assert(shows(after.threads[count + (found - count)], plan.state_inserts[found - count]));
        assert(plan.state_inserts[found - count] == insert);
        lemma_blank_has_no_message();
        lemma_stored_source(primary.thread_source);
    }
}

/// The word that marks a session of the user's own is not blank.
proof fn lemma_user_is_not_blank()
    ensures
        text::trimmed("user"@).len() > 0,
{
    reveal_strlit("user");
    let word = "user"@;
    assert(!text::whitespace(word[0]));
    assert(text::trimmed_start(word) == word);
    assert(!text::whitespace(word.last()));
}

/// The empty text is blank.
proof fn lemma_blank_has_no_message()
    ensures
        text::trimmed(Seq::<char>::empty()).len() == 0,
        text::trimmed(""@).len() == 0,
{
    reveal_strlit("");
    assert(""@ =~= Seq::<char>::empty());
}

/// A session that a repair may touch afterwards it could have touched before.
pub proof fn lemma_touchable_before(
    before: SnapshotView,
    after: SnapshotView,
    target: Seq<char>,
    desired: Set<Seq<char>>,
    id: Seq<char>,
)
    requires
        records::consistent(before),
        written(before, plan_for(before, target, desired), after),
        touchable(after, id),
    ensures
        touchable(before, id),
{
    let plan = plan_for(before, target, desired);
    lemma_plan_for(before, target, desired, id);
    if !touchable(before, id) {
        lemma_provider_untouched(before.rollout_provider_values, plan.rollout_updates, id);
        assert forall|i: int| 0 <= i < before.threads.len() && before.threads[i].id
            == id implies #[trigger] after.threads[i] == before.threads[i] by {
            lemma_row_untouched(before.threads[i], plan.state_updates);
        }
        if sessions::remote_thread_ids(before.threads).contains(id) {
            let i = choose|i: int|
                0 <= i < before.threads.len() && locality::remote_thread(
                    #[trigger] before.threads[i],
                ) && before.threads[i].id == id;
            assert(after.threads[i] == before.threads[i]);
            assert(sessions::remote_thread_ids(after.threads).contains(id));
        }
        assert(sessions::remote_ids(before).contains(id) ==> sessions::remote_ids(
            after,
        ).contains(id));
        assert(before.primary_rollouts.dom().contains(id) ==> same_session(
            after.primary_rollouts[id],
            before.primary_rollouts[id],
        ));
        assert(sessions::lookup(after.rollout_provider_values, id) is Some
            == sessions::lookup(before.rollout_provider_values, id) is Some);
    }
}

/// A repair settles what it was made for: once the plan for the desired sessions was written, the
/// plan for them holds no write of a state row or a rollout.
pub proof fn law_written_plan_leaves_nothing(
    before: SnapshotView,
    after: SnapshotView,
    target: Seq<char>,
    desired: Set<Seq<char>>,
)
    requires
        records::consistent(before),
        before.threads_readable,
        written(before, plan_for(before, target, desired), after),
    ensures
        ({
            let plan = plan_for(after, target, desired);
            &&& plan.changed_ids == Set::<Seq<char>>::empty()
            &&& plan.state_updates.len() == 0
            &&& plan.state_inserts.len() == 0
            &&& plan.rollout_updates.len() == 0
        }),
{
    let plan = plan_for(after, target, desired);
    lemma_read_again(before, after, plan_for(before, target, desired));
    assert forall|id: Seq<char>| touchable(after, id) && desired.contains(
        id,
    ) implies sessions::backed_thread(after, id)->0.state_present && planning::settled(
        after,
        target,
        #[trigger] sessions::backed_thread(after, id)->0,
    ) by {
        lemma_touchable_before(before, after, target, desired, id);
        lemma_session_settled(before, after, target, desired, id);
    }
    assert forall|id: Seq<char>| !plan.changed_ids.contains(id) by {
        lemma_plan_for(after, target, desired, id);
        if plan.changed_ids.contains(id) {
            let backed = sessions::backed_thread(after, id)->0;
            lemma_backed_of(after, id);
            assert(planning::settled(after, target, backed));
        }
    }
    assert(plan.changed_ids =~= Set::<Seq<char>>::empty());
    if plan.state_updates.len() > 0 {
        let id = plan.state_updates[0].thread_id;
        lemma_plan_for(after, target, desired, id);
        lemma_backed_of(after, id);
        assert(planning::settled(after, target, sessions::backed_thread(after, id)->0));
    }
    if plan.state_inserts.len() > 0 {
        let id = plan.state_inserts[0].thread_id;
        lemma_plan_for(after, target, desired, id);
        assert(planning::settled(after, target, sessions::backed_thread(after, id)->0));
    }
    if plan.rollout_updates.len() > 0 {
        let id = plan.rollout_updates[0].thread_id;
        lemma_plan_for(after, target, desired, id);
        lemma_backed_of(after, id);
        assert(planning::settled(after, target, sessions::backed_thread(after, id)->0));
    }
}

/// What was read of the rollouts still agrees once a plan was written.
pub proof fn lemma_read_again(before: SnapshotView, after: SnapshotView, plan: RepairPlanView)
    requires
        records::consistent(before),
        written(before, plan, after),
    ensures
        records::consistent(after),
{
    assert forall|id: Seq<char>|
        after.primary_rollouts.dom().contains(id) implies same_session(
        #[trigger] after.primary_rollouts[id],
        before.primary_rollouts[id],
    ) by {
        assert(before.primary_rollouts.dom().contains(id));
    }
    assert forall|id: Seq<char>|
        (after.valid_active_rollouts.contains(id) || after.valid_archived_rollouts.contains(
            id,
        )) implies after.primary_rollouts.dom().contains(id) && (
    #[trigger] after.primary_rollouts[id]).id == id by {
        assert(before.primary_rollouts[id].id == id);
    }
    assert forall|id: Seq<char>| #[trigger] after.primary_rollouts.dom().contains(id) implies {
        &&& after.primary_rollouts[id].id == id
        &&& after.rollout_paths.dom().contains(id)
        &&& after.rollout_paths[id] == after.primary_rollouts[id].path
    } by {
        assert(same_session(after.primary_rollouts[id], before.primary_rollouts[id]));
        assert(before.primary_rollouts.dom().contains(id));
    }
}

/// A repair passes its own check: once the plan for the desired sessions was written, nothing is
/// wrong with those of them that it may touch.
pub proof fn law_written_plan_verifies(
    before: SnapshotView,
    after: SnapshotView,
    target: Seq<char>,
    desired: Set<Seq<char>>,
    ids: Seq<Seq<char>>,
)
    requires
        records::consistent(before),
        before.threads_readable,
        written(before, plan_for(before, target, desired), after),
        forall|i: int|
            0 <= i < ids.len() ==> touchable(before, #[trigger] ids[i]) && desired.contains(ids[i]),
    ensures
        verification::faulty_sessions(after, providers::canonical_id(target), ids) == 0,
    decreases ids.len(),
{
    if ids.len() > 0 {
        let front = ids.drop_last();
        let id = ids.last();
        assert forall|i: int| 0 <= i < front.len() implies touchable(before, #[trigger] front[i])
            && desired.contains(front[i]) by {
            assert(front[i] == ids[i]);
        }
        law_written_plan_verifies(before, after, target, desired, front);
        assert(ids[ids.len() - 1] == id);
        lemma_backed_of(before, id);
        lemma_session_settled(before, after, target, desired, id);
        assert(same_session(after.primary_rollouts[id], before.primary_rollouts[id]));
    }
}

/// Right after a repair no repaired session is listed as recoverable: it is listed under the target,
/// as visible, or as archived where it is.
pub proof fn law_repaired_session_is_listed_under_the_target(
    before: SnapshotView,
    after: SnapshotView,
    store: Option<ProjectionStoreView>,
    target: Seq<char>,
    desired: Set<Seq<char>>,
    id: Seq<char>,
)
    requires
        records::consistent(before),
        before.threads_readable,
        written(before, plan_for(before, target, desired), after),
        touchable(before, id),
        desired.contains(id),
        providers::safe_id(target),
    ensures
        sessions::backed_thread(after, id) is Some,
        ({
            let backed = sessions::backed_thread(after, id)->0;
            let listed = sessions::session_summary(after, store, target, backed);
            &&& listed.status != "recoverable"@
            &&& listed.visibility == "visible"@ <==> !after.primary_rollouts[id].archived
            &&& backed.thread.provider == target
            &&& after.rollout_provider_values[id] == target
        }),
{
    lemma_backed_of(before, id);
    lemma_session_settled(before, after, target, desired, id);
    lemma_read_again(before, after, plan_for(before, target, desired));
    lemma_backed_of(after, id);
    let backed = sessions::backed_thread(after, id)->0;
    sessions::law_listed_session_is_what_is_written(after, store, target, backed);
}

} // verus!

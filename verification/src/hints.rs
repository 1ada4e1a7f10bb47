//! The workspace hints in the global state: writing those of a plan, putting back those of an
//! interrupted repair.

use crate::digest;
use crate::digest::hash_bytes;
use crate::journal;
use crate::journal::{
    slot_journal_state, JournalImageState, RepairJsonSlot, RepairWorkspaceJournal,
    RepairWorkspaceJournalView,
};
use crate::json;
use crate::json::{read_json_bytes, render, Json, JsonView};
use crate::locality::{WorkspaceHintUpdate, WorkspaceHintUpdateView};
use crate::model;
use crate::model::Model;
use crate::text;
use crate::text::{join2, same};
use vstd::prelude::*;

verus! {

/// The object of workspace hints in a global state: an empty one where there is none.
pub open spec fn hints_object(global: JsonView) -> Result<JsonView, Seq<char>> {
    if !(global is Object) {
        Err("global state root is not a JSON object"@)
    } else {
        match json::field(global, "thread-workspace-root-hints"@) {
            None => Ok(json::empty_object()),
            Some(hints) => if hints is Object {
                Ok(hints)
            } else {
                Err("thread-workspace-root-hints is not a JSON object"@)
            },
        }
    }
}

/// The global state with other workspace hints.
pub open spec fn with_hints(global: JsonView, hints: JsonView) -> JsonView {
    JsonView::Object(json::put(global->Object_0, "thread-workspace-root-hints"@, hints))
}

fn find_hints_object(global: &Json) -> (r: Result<Json, String>)
    ensures
        model::outcome(r) == hints_object(global.deep_view()),
        r is Ok ==> r->Ok_0.deep_view() is Object,
{
    let is_object = match global {
        Json::Object(_) => true,
        _ => false,
    };
    if !is_object {
        return Err("global state root is not a JSON object".to_owned());
    }
    match global.get("thread-workspace-root-hints") {
        None => Ok(Json::object()),
        Some(hints) => {
            let is_object = match hints {
                Json::Object(_) => true,
                _ => false,
            };
            if is_object {
                Ok(hints.copy_of())
            } else {
                Err("thread-workspace-root-hints is not a JSON object".to_owned())
            }
        },
    }
}

/// A hint with the plain zero for both zeros: what two hints share that are equal.
pub open spec fn plain_hint(hint: Option<JsonView>) -> Option<JsonView> {
    match hint {
        Some(value) => Some(json::plain(value)),
        None => None,
    }
}

/// The hints after the updates, each of which needs the hint that it expects.
pub open spec fn updated_hints(
    hints: Seq<(Seq<char>, JsonView)>,
    updates: Seq<WorkspaceHintUpdateView>,
) -> Result<Seq<(Seq<char>, JsonView)>, Seq<char>>
    decreases updates.len(),
{
    if updates.len() == 0 {
        Ok(hints)
    } else {
        match updated_hints(hints, updates.drop_last()) {
            Err(error) => Err(error),
            Ok(current) => {
                let update = updates.last();
                if plain_hint(json::member(current, update.thread_id)) != plain_hint(
                    update.expected_hint,
                ) {
                    Err("workspace hint changed after planning: "@ + update.thread_id)
                } else {
                    Ok(
                        json::put(
                            current,
                            update.thread_id,
                            JsonView::Text(update.workspace_root),
                        ),
                    )
                }
            },
        }
    }
}

proof fn lemma_update_error_stays(
    hints: Seq<(Seq<char>, JsonView)>,
    updates: Seq<WorkspaceHintUpdateView>,
    n: int,
)
    requires
        0 <= n <= updates.len(),
        updated_hints(hints, updates.take(n)) is Err,
    ensures
        updated_hints(hints, updates) == updated_hints(hints, updates.take(n)),
    decreases updates.len(),
{
    if n == updates.len() {
        assert(updates.take(n) =~= updates);
    } else {
        assert(updates.drop_last().take(n) =~= updates.take(n));
        lemma_update_error_stays(hints, updates.drop_last(), n);
    }
}

fn update_hints(hints: Json, updates: &Vec<WorkspaceHintUpdate>) -> (r: Result<Json, String>)
    requires
        hints.deep_view() is Object,
    ensures
        match (r, updated_hints(hints.deep_view()->Object_0, updates.deep_view())) {
            (Ok(after), Ok(members)) => after.deep_view() == JsonView::Object(members),
            (Err(error), Err(message)) => error@ == message,
            _ => false,
        },
{
    let ghost before = hints.deep_view()->Object_0;
    let ghost view = updates.deep_view();
    let mut current = hints;
    let mut i: usize = 0;
    assert(updated_hints(before, view.take(0)) == Ok::<_, Seq<char>>(before));
    while i < updates.len()
        invariant
            i <= updates@.len(),
            view == updates.deep_view(),
            current.deep_view() is Object,
            before == hints.deep_view()->Object_0,
            updated_hints(before, view.take(i as int)) == Ok::<_, Seq<char>>(
                current.deep_view()->Object_0,
            ),
        decreases updates@.len() - i,
    {
        let update = &updates[i];
        assert(view[i as int] == update.deep_view());
        assert(view.take(i + 1).drop_last() =~= view.take(i as int));
        let matches_plan = match (current.get(update.thread_id.as_str()), &update.expected_hint) {
            (None, None) => true,
            (Some(found), Some(expected)) => *found == *expected,
            _ => false,
        };
        if !matches_plan {
            proof {
                lemma_update_error_stays(before, view, i + 1);
            }
            return Err(
                join2("workspace hint changed after planning: ", update.thread_id.as_str()),
            );
        }
        current = current.put(
            update.thread_id.as_str(),
            Json::text(update.workspace_root.as_str()),
        );
        i += 1;
    }
    assert(view.take(i as int) =~= view);
    Ok(current)
}

/// What is written for the workspace hints of a plan, given what the global state says.
pub open spec fn hints_applied(
    parsed: Result<JsonView, Seq<char>>,
    updates: Seq<WorkspaceHintUpdateView>,
) -> Result<Option<JsonView>, Seq<char>> {
    match parsed {
        Err(error) => Err(error),
        Ok(global) => match hints_object(global) {
            Err(error) => Err(error),
            Ok(hints) => match updated_hints(hints->Object_0, updates) {
                Err(error) => Err(error),
                Ok(members) => Ok(Some(with_hints(global, JsonView::Object(members)))),
            },
        },
    }
}

/// What is written for the workspace hints of a plan: nothing where there are none, otherwise the
/// global state with those hints.
pub open spec fn hints_written(
    bytes: Seq<u8>,
    updates: Seq<WorkspaceHintUpdateView>,
    expected_sha256: Option<Seq<char>>,
) -> Result<Option<JsonView>, Seq<char>> {
    if updates.len() == 0 {
        Ok(None)
    } else if expected_sha256 is None {
        Err("workspace hint plan is missing the global-state fingerprint"@)
    } else if digest::sha256_hex(bytes) != expected_sha256->0 {
        Err("global state changed after planning; refresh the preview"@)
    } else {
        hints_applied(json::json_read_bytes(bytes), updates)
    }
}

/// Writes the workspace hints of a plan into the global state that the plan was made from; gives
/// the new text of the file, if there is anything to write.
pub fn apply_workspace_hint_updates(
    bytes: &[u8],
    updates: &Vec<WorkspaceHintUpdate>,
    expected_sha256: &Option<String>,
) -> (r: Result<Option<String>, String>)
    ensures
        match (r, hints_written(bytes@, updates.deep_view(), expected_sha256.deep_view())) {
            (Ok(None), Ok(None)) => true,
            (Ok(Some(written)), Ok(Some(global))) => written@ == json::rendered(global),
            (Err(error), Err(message)) => error@ == message,
            _ => false,
        },
{
    if updates.len() == 0 {
        return Ok(None);
    }
    match expected_sha256 {
        None => Err("workspace hint plan is missing the global-state fingerprint".to_owned()),
        Some(expected) => {
            let found = hash_bytes(bytes);
            if !same(found.as_str(), expected.as_str()) {
                return Err("global state changed after planning; refresh the preview".to_owned());
            }
            apply_parsed_hints(read_json_bytes(bytes), updates)
        },
    }
}

/// Writes the workspace hints of a plan into a global state.
pub fn apply_parsed_hints(
    parsed: Result<Json, String>,
    updates: &Vec<WorkspaceHintUpdate>,
) -> (r: Result<Option<String>, String>)
    ensures
        match (r, hints_applied(model::outcome(parsed), updates.deep_view())) {
            (Ok(Some(written)), Ok(Some(global))) => written@ == json::rendered(global),
            (Err(error), Err(message)) => error@ == message,
            _ => false,
        },
{
    match parsed {
        Err(error) => Err(error),
        Ok(global) => {
            match find_hints_object(&global) {
                Err(error) => Err(error),
                Ok(hints) => {
                    match update_hints(hints, updates) {
                        Err(error) => Err(error),
                        Ok(updated) => {
                            let written = global.put("thread-workspace-root-hints", updated);
                            Ok(Some(render(&written)))
                        },
                    }
                },
            }
        },
    }
}

/// One hint is put back where it still reads as the repair wrote it.
pub open spec fn hint_put_back(
    hints: Seq<(Seq<char>, JsonView)>,
    row: RepairWorkspaceJournalView,
) -> Seq<(Seq<char>, JsonView)> {
    let state = journal::slot_state(
        journal::slot_of(json::member(hints, row.thread_id)),
        row.before,
        row.after,
    );
    if state != JournalImageState::After {
        hints
    } else {
        match journal::slot_value(row.before) {
            Some(value) => json::put(hints, row.thread_id, value),
            None => json::dropped(hints, row.thread_id),
        }
    }
}

/// The hints once the rows were put back, and whether any was.
pub open spec fn hints_put_back(
    hints: Seq<(Seq<char>, JsonView)>,
    rows: Seq<RepairWorkspaceJournalView>,
) -> (Seq<(Seq<char>, JsonView)>, bool)
    decreases rows.len(),
{
    if rows.len() == 0 {
        (hints, false)
    } else {
        let (current, changed) = hints_put_back(hints, rows.drop_last());
        let row = rows.last();
        let state = journal::slot_state(
            journal::slot_of(json::member(current, row.thread_id)),
            row.before,
            row.after,
        );
        (hint_put_back(current, row), changed || state == JournalImageState::After)
    }
}

/// What is written to put the workspace hints of a repair back.
pub open spec fn hints_compensated(
    global: JsonView,
    rows: Seq<RepairWorkspaceJournalView>,
) -> Result<Option<JsonView>, Seq<char>> {
    match hints_object(global) {
        Err(error) => Err(error),
        Ok(hints) => {
            let (members, changed) = hints_put_back(hints->Object_0, rows);
            if changed {
                Ok(Some(with_hints(global, JsonView::Object(members))))
            } else {
                Ok(None)
            }
        },
    }
}

/// Puts the workspace hints of a repair back in the bytes of a global state; gives the new text of
/// the file, if any hint changed.
pub fn compensate_hints_in(bytes: &[u8], rows: &Vec<RepairWorkspaceJournal>) -> (r: Result<
    Option<String>,
    String,
>)
    ensures
        match json::json_read_bytes(bytes@) {
            Err(message) => r is Err && r->Err_0@ == message,
            Ok(global) => match (r, hints_compensated(global, rows.deep_view())) {
                (Ok(None), Ok(None)) => true,
                (Ok(Some(written)), Ok(Some(after))) => written@ == json::rendered(after),
                (Err(error), Err(message)) => error@ == message,
                _ => false,
            },
        },
{
    match read_json_bytes(bytes) {
        Err(error) => Err(error),
        Ok(global) => compensate_workspace_hints(global, rows),
    }
}

/// Puts the workspace hints of a repair back where they still read as it wrote them; gives the new
/// text of the file, if any hint changed.
pub fn compensate_workspace_hints(global: Json, rows: &Vec<RepairWorkspaceJournal>) -> (r: Result<
    Option<String>,
    String,
>)
    ensures
        match (r, hints_compensated(global.deep_view(), rows.deep_view())) {
            (Ok(None), Ok(None)) => true,
            (Ok(Some(written)), Ok(Some(after))) => written@ == json::rendered(after),
            (Err(error), Err(message)) => error@ == message,
            _ => false,
        },
{
    let ghost start = global.deep_view();
    let ghost view = rows.deep_view();
    match find_hints_object(&global) {
        Err(error) => Err(error),
        Ok(hints) => {
            let ghost before = hints.deep_view()->Object_0;
            let mut current = hints;
            let mut changed = false;
            let mut i: usize = 0;
            assert(hints_put_back(before, view.take(0)) == (before, false));
            while i < rows.len()
                invariant
                    i <= rows@.len(),
                    view == rows.deep_view(),
                    current.deep_view() is Object,
                    hints_put_back(before, view.take(i as int)) == (
                        current.deep_view()->Object_0,
                        changed,
                    ),
                decreases rows@.len() - i,
            {
                let row = &rows[i];
                assert(view[i as int] == row.deep_view());
                assert(view.take(i + 1).drop_last() =~= view.take(i as int));
                let found: Option<Json> = match current.get(row.thread_id.as_str()) {
                    Some(value) => Some(value.copy_of()),
                    None => None,
                };
                let slot = RepairJsonSlot::from_option(found);
                if slot_journal_state(&slot, &row.before, &row.after) == JournalImageState::After {
                    current = match row.before.to_option() {
                        Some(value) => current.put(row.thread_id.as_str(), value),
                        None => current.without_key(row.thread_id.as_str()),
                    };
                    changed = true;
                }
                i += 1;
            }
            assert(view.take(i as int) =~= view);
            if !changed {
                return Ok(None);
            }
            let written = global.put("thread-workspace-root-hints", current);
            assert(written.deep_view() == with_hints(start, current.deep_view()));
            Ok(Some(render(&written)))
        },
    }
}

/// Hints that were written read as their roots, and every other hint as before.
pub proof fn law_hints_read_as_written(
    hints: Seq<(Seq<char>, JsonView)>,
    updates: Seq<WorkspaceHintUpdateView>,
    thread: Seq<char>,
)
    requires
        updated_hints(hints, updates) is Ok,
    ensures
        (forall|i: int| 0 <= i < updates.len() ==> (#[trigger] updates[i]).thread_id != thread)
            ==> json::member(updated_hints(hints, updates)->Ok_0, thread) == json::member(
            hints,
            thread,
        ),
        forall|i: int|
            #![trigger updates[i]]
            0 <= i < updates.len() && updates[i].thread_id == thread && (forall|j: int|
                i < j < updates.len() ==> (#[trigger] updates[j]).thread_id != thread)
                ==> json::member(updated_hints(hints, updates)->Ok_0, thread) == Some(
                JsonView::Text(updates[i].workspace_root),
            ),
    decreases updates.len(),
{
    if updates.len() > 0 {
        let front = updates.drop_last();
        let last = updates.last();
        let current = updated_hints(hints, front)->Ok_0;
        law_hints_read_as_written(hints, front, thread);
        json::law_put_then_read(
            current,
            last.thread_id,
            JsonView::Text(last.workspace_root),
            thread,
        );
        let whole = updated_hints(hints, updates)->Ok_0;
        if forall|i: int| 0 <= i < updates.len() ==> (#[trigger] updates[i]).thread_id != thread {
            assert forall|i: int| 0 <= i < front.len() implies (#[trigger] front[i]).thread_id
                != thread by {
                assert(front[i] == updates[i]);
            }
            assert(updates[updates.len() - 1].thread_id != thread);
        }
        assert forall|i: int|
            #![trigger updates[i]]
            0 <= i < updates.len() && updates[i].thread_id == thread && (forall|j: int|
                i < j < updates.len() ==> (#[trigger] updates[j]).thread_id != thread) implies json::member(
            whole,
            thread,
        ) == Some(JsonView::Text(updates[i].workspace_root)) by {
            if i < front.len() {
                assert(front[i] == updates[i]);
                assert(updates[updates.len() - 1].thread_id != thread);
                assert forall|j: int| i < j < front.len() implies (#[trigger] front[j]).thread_id
                    != thread by {
                    assert(front[j] == updates[j]);
                }
            }
        }
    }
}

/// A hint that still reads as a repair wrote it reads as the repair found it once put back; a hint
/// that reads otherwise stays.
pub proof fn law_hint_put_back(
    hints: Seq<(Seq<char>, JsonView)>,
    row: RepairWorkspaceJournalView,
    other: Seq<char>,
)
    ensures
        ({
            let now = journal::plain_slot(journal::slot_of(json::member(hints, row.thread_id)));
            let written = journal::plain_slot(row.after);
            &&& now == written && journal::plain_slot(row.before) != written ==> journal::slot_of(
                json::member(hint_put_back(hints, row), row.thread_id),
            ) == row.before
            &&& now != written ==> hint_put_back(hints, row) == hints
        }),
        other != row.thread_id ==> json::member(hint_put_back(hints, row), other) == json::member(
            hints,
            other,
        ),
{
    match journal::slot_value(row.before) {
        Some(value) => json::law_put_then_read(hints, row.thread_id, value, other),
        None => json::law_drop_then_read(hints, row.thread_id, other),
    }
}

/// Hints are written exactly where the plan has the fingerprint of a global state that still has it
/// and is an object whose hints are one, and every hint reads as the plan expects when its turn
/// comes; nothing is written where there are none.
pub proof fn law_hints_need_the_planned_state(
    bytes: Seq<u8>,
    updates: Seq<WorkspaceHintUpdateView>,
    expected: Option<Seq<char>>,
)
    ensures
        updates.len() == 0 ==> hints_written(bytes, updates, expected) == Ok::<
            Option<JsonView>,
            Seq<char>,
        >(None),
        updates.len() > 0 && hints_written(bytes, updates, expected) is Ok ==> {
            &&& expected == Some(digest::sha256_hex(bytes))
            &&& json::json_read_bytes(bytes) is Ok
            &&& json::json_read_bytes(bytes)->Ok_0 is Object
            &&& hints_written(bytes, updates, expected)->Ok_0 is Some
        },
        updates.len() > 0 && expected != Some(digest::sha256_hex(bytes)) ==> hints_written(
            bytes,
            updates,
            expected,
        ) is Err,
{
}

/// Setting one more hint needs that the thread's hint reads as it is expected to, and changes that
/// hint alone.
pub proof fn law_one_more_hint(
    hints: Seq<(Seq<char>, JsonView)>,
    updates: Seq<WorkspaceHintUpdateView>,
    update: WorkspaceHintUpdateView,
    other: Seq<char>,
)
    requires
        updated_hints(hints, updates) is Ok,
    ensures
        ({
            let before = updated_hints(hints, updates)->Ok_0;
            let after = updated_hints(hints, updates.push(update));
            &&& after is Ok <==> plain_hint(json::member(before, update.thread_id)) == plain_hint(
                update.expected_hint,
            )
            &&& after is Ok ==> json::member(after->Ok_0, update.thread_id) == Some(
                JsonView::Text(update.workspace_root),
            )
            &&& after is Ok && other != update.thread_id ==> json::member(after->Ok_0, other)
                == json::member(before, other)
        }),
{
    let before = updated_hints(hints, updates)->Ok_0;
    assert(updates.push(update).drop_last() =~= updates);
    json::law_put_then_read(
        before,
        update.thread_id,
        JsonView::Text(update.workspace_root),
        other,
    );
}

/// The global state keeps everything but its hints, and has the new hints; a state without hints has
/// none to begin with.
pub proof fn law_global_state_keeps_the_rest(
    members: Seq<(Seq<char>, JsonView)>,
    hints: JsonView,
    other: Seq<char>,
)
    ensures
        json::field(
            with_hints(JsonView::Object(members), hints),
            "thread-workspace-root-hints"@,
        ) == Some(hints),
        other != "thread-workspace-root-hints"@ ==> json::field(
            with_hints(JsonView::Object(members), hints),
            other,
        ) == json::member(members, other),
        json::member(members, "thread-workspace-root-hints"@) is None ==> hints_object(
            JsonView::Object(members),
        ) is Ok,
        json::member(members, "thread-workspace-root-hints"@) is Some ==> (hints_object(
            JsonView::Object(members),
        ) is Ok <==> json::member(members, "thread-workspace-root-hints"@)->0 is Object),
        json::member(members, "thread-workspace-root-hints"@) is Some && hints_object(
            JsonView::Object(members),
        ) is Ok ==> hints_object(JsonView::Object(members))->Ok_0 == json::member(
            members,
            "thread-workspace-root-hints"@,
        )->0,
        !(hints is Object) ==> hints_object(hints) is Err,
{
    json::law_put_then_read(members, "thread-workspace-root-hints"@, hints, other);
}

} // verus!

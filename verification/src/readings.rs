//! How the text of each statement reads, piece by piece.

use crate::journal::{RepairCatalogImageView, RepairCatalogJournalView, RepairSqlValueView};
use crate::planning::{
    CatalogDeleteView, CatalogInsertView, CatalogUpdateView, StateDeleteView, StateUpdateView,
};
use crate::reals;
use crate::recovery::RecoveryActionView;
use crate::sql;
use crate::sql::{Assignment, Cell, Command, Condition, RowView};
use crate::statements;
use crate::writes;
use vstd::prelude::*;

verus! {

/// The assignments of the statement.
pub open spec fn state_update_sets(update: StateUpdateView) -> Seq<Assignment> {
    seq![
        Assignment::Put { column: "model_provider"@, value: writes::bound_text(update.provider) },
        Assignment::Put { column: "archived"@, value: statements::flag(update.archived) },
        Assignment::Put { column: "rollout_path"@, value: writes::bound_text(update.rollout_path) },
        Assignment::Put { column: "thread_source"@, value: writes::bound_text(update.thread_source) },
        Assignment::Put { column: "has_user_event"@, value: statements::flag(update.has_user_event) },
    ]
}

/// The conditions of the statement.
pub open spec fn state_update_conditions(update: StateUpdateView) -> Seq<Condition> {
    seq![
        Condition::Equals { column: "id"@, value: writes::bound_text(update.thread_id) },
        Condition::Equals { column: "model_provider"@, value: writes::bound_text(update.expected_provider) },
        Condition::Equals { column: "archived"@, value: statements::flag(update.expected_archived) },
        Condition::Equals { column: "rollout_path"@, value: writes::bound_text(update.expected_rollout_path) },
        Condition::Coalesced { column: "thread_source"@, written: "''"@, fallback: writes::bound_text(Seq::empty()), value: writes::bound_text(update.expected_thread_source) },
        Condition::Coalesced { column: "has_user_event"@, written: "0"@, fallback: RepairSqlValueView::Integer(0), value: statements::flag(update.expected_has_user_event) },
    ]
}

/// What the statement says.
pub open spec fn state_update_command(update: StateUpdateView) -> Command {
    Command::Update { table: "threads"@, quoted: false, equals: "="@, sets: state_update_sets(update), conditions: state_update_conditions(update) }
}

/// The text of the statement, piece by piece.
#[verifier::rlimit(60)]
pub proof fn lemma_state_update_reads(update: StateUpdateView)
    ensures
        sql::spelled(state_update_command(update)) == writes::state_update_write(update),
        forall|row: RowView| #[trigger] sql::sets_in(row, state_update_sets(update)) == sql::set_in(row, sql::set_in(row, sql::set_in(row, sql::set_in(row, sql::set_in(row, row, Assignment::Put { column: "model_provider"@, value: writes::bound_text(update.provider) }), Assignment::Put { column: "archived"@, value: statements::flag(update.archived) }), Assignment::Put { column: "rollout_path"@, value: writes::bound_text(update.rollout_path) }), Assignment::Put { column: "thread_source"@, value: writes::bound_text(update.thread_source) }), Assignment::Put { column: "has_user_event"@, value: statements::flag(update.has_user_event) }),
        forall|row: RowView| #[trigger] sql::meets_all(row, state_update_conditions(update)) <==> sql::meets(row, Condition::Equals { column: "id"@, value: writes::bound_text(update.thread_id) }) && sql::meets(row, Condition::Equals { column: "model_provider"@, value: writes::bound_text(update.expected_provider) }) && sql::meets(row, Condition::Equals { column: "archived"@, value: statements::flag(update.expected_archived) }) && sql::meets(row, Condition::Equals { column: "rollout_path"@, value: writes::bound_text(update.expected_rollout_path) }) && sql::meets(row, Condition::Coalesced { column: "thread_source"@, written: "''"@, fallback: writes::bound_text(Seq::empty()), value: writes::bound_text(update.expected_thread_source) }) && sql::meets(row, Condition::Coalesced { column: "has_user_event"@, written: "0"@, fallback: RepairSqlValueView::Integer(0), value: statements::flag(update.expected_has_user_event) }),
{
    reveal_strlit("UPDATE threads SET model_provider=?1, archived=?2, rollout_path=?3, thread_source=?4, has_user_event=?5 WHERE id=?6 AND model_provider=?7 AND archived=?8 AND rollout_path=?9 AND COALESCE(thread_source, '')=?10 AND COALESCE(has_user_event, 0)=?11");
    reveal_strlit(" AND ");
    reveal_strlit(" SET ");
    reveal_strlit(" WHERE ");
    reveal_strlit("''");
    reveal_strlit(")");
    reveal_strlit(", ");
    reveal_strlit("0");
    reveal_strlit("=");
    reveal_strlit("COALESCE(");
    reveal_strlit("UPDATE ");
    reveal_strlit("archived");
    reveal_strlit("has_user_event");
    reveal_strlit("id");
    reveal_strlit("model_provider");
    reveal_strlit("rollout_path");
    reveal_strlit("thread_source");
    reveal_strlit("threads");
    let whole = "UPDATE threads SET model_provider=?1, archived=?2, rollout_path=?3, thread_source=?4, has_user_event=?5 WHERE id=?6 AND model_provider=?7 AND archived=?8 AND rollout_path=?9 AND COALESCE(thread_source, '')=?10 AND COALESCE(has_user_event, 0)=?11"@;
    sql::lemma_marks();
    let front0 = "UPDATE "@;
    assert(front0 =~= whole.subrange(0, 7));
    assert("threads"@ =~= whole.subrange(7, 14));
    sql::lemma_extended(whole, 0, front0, "threads"@);
    assert(" SET "@ =~= whole.subrange(14, 19));
    sql::lemma_extended(whole, 0, front0 + "threads"@, " SET "@);
    let head = front0 + "threads"@ + " SET "@;
    let set0 = Seq::<Assignment>::empty();
    let set_item1 = Assignment::Put { column: "model_provider"@, value: writes::bound_text(update.provider) };
    let set1 = set0.push(set_item1);
    sql::lemma_one_set_more(set0, set_item1, false, "="@);
    let set_piece1 = "model_provider"@ + "="@ + sql::mark(1);
    assert(set_piece1 =~= whole.subrange(19, 36));
    let set_text1 = set_piece1;
    assert(sql::sets_values(set1).len() == 1);
    assert(sql::sets_text(set1, false, "="@) == set_text1);
    let set_item2 = Assignment::Put { column: "archived"@, value: statements::flag(update.archived) };
    let set2 = set1.push(set_item2);
    sql::lemma_one_set_more(set1, set_item2, false, "="@);
    assert(", "@ =~= whole.subrange(36, 38));
    sql::lemma_extended(whole, 19, set_text1, ", "@);
    let set_piece2 = "archived"@ + "="@ + sql::mark(2);
    assert(set_piece2 =~= whole.subrange(38, 49));
    sql::lemma_extended(whole, 19, set_text1 + ", "@, set_piece2);
    let set_text2 = set_text1 + ", "@ + set_piece2;
    assert(sql::sets_values(set2).len() == 2);
    assert(sql::sets_text(set2, false, "="@) == set_text2);
    let set_item3 = Assignment::Put { column: "rollout_path"@, value: writes::bound_text(update.rollout_path) };
    let set3 = set2.push(set_item3);
    sql::lemma_one_set_more(set2, set_item3, false, "="@);
    assert(", "@ =~= whole.subrange(49, 51));
    sql::lemma_extended(whole, 19, set_text2, ", "@);
    let set_piece3 = "rollout_path"@ + "="@ + sql::mark(3);
    assert(set_piece3 =~= whole.subrange(51, 66));
    sql::lemma_extended(whole, 19, set_text2 + ", "@, set_piece3);
    let set_text3 = set_text2 + ", "@ + set_piece3;
    assert(sql::sets_values(set3).len() == 3);
    assert(sql::sets_text(set3, false, "="@) == set_text3);
    let set_item4 = Assignment::Put { column: "thread_source"@, value: writes::bound_text(update.thread_source) };
    let set4 = set3.push(set_item4);
    sql::lemma_one_set_more(set3, set_item4, false, "="@);
    assert(", "@ =~= whole.subrange(66, 68));
    sql::lemma_extended(whole, 19, set_text3, ", "@);
    let set_piece4 = "thread_source"@ + "="@ + sql::mark(4);
    assert(set_piece4 =~= whole.subrange(68, 84));
    sql::lemma_extended(whole, 19, set_text3 + ", "@, set_piece4);
    let set_text4 = set_text3 + ", "@ + set_piece4;
    assert(sql::sets_values(set4).len() == 4);
    assert(sql::sets_text(set4, false, "="@) == set_text4);
    let set_item5 = Assignment::Put { column: "has_user_event"@, value: statements::flag(update.has_user_event) };
    let set5 = set4.push(set_item5);
    sql::lemma_one_set_more(set4, set_item5, false, "="@);
    assert(", "@ =~= whole.subrange(84, 86));
    sql::lemma_extended(whole, 19, set_text4, ", "@);
    let set_piece5 = "has_user_event"@ + "="@ + sql::mark(5);
    assert(set_piece5 =~= whole.subrange(86, 103));
    sql::lemma_extended(whole, 19, set_text4 + ", "@, set_piece5);
    let set_text5 = set_text4 + ", "@ + set_piece5;
    assert(sql::sets_values(set5).len() == 5);
    assert(sql::sets_text(set5, false, "="@) == set_text5);
    let set_whole = set_text5;
    sql::lemma_extended(whole, 0, head, set_whole);
    let middle = head + set_whole;
    assert(" WHERE "@ =~= whole.subrange(103, 110));
    sql::lemma_extended(whole, 0, middle, " WHERE "@);
    let long = middle + " WHERE "@;
    let cond0 = Seq::<Condition>::empty();
    let cond_item1 = Condition::Equals { column: "id"@, value: writes::bound_text(update.thread_id) };
    let cond1 = cond0.push(cond_item1);
    sql::lemma_one_condition_more(cond0, cond_item1, "="@, 5);
    let cond_piece1 = "id"@ + "="@ + sql::mark(6);
    assert(cond_piece1 =~= whole.subrange(110, 115));
    let cond_text1 = cond_piece1;
    assert(sql::conditions_values(cond1).len() == 1);
    assert(sql::conditions_text(cond1, "="@, 5) == cond_text1);
    let cond_item2 = Condition::Equals { column: "model_provider"@, value: writes::bound_text(update.expected_provider) };
    let cond2 = cond1.push(cond_item2);
    sql::lemma_one_condition_more(cond1, cond_item2, "="@, 5);
    assert(" AND "@ =~= whole.subrange(115, 120));
    sql::lemma_extended(whole, 110, cond_text1, " AND "@);
    let cond_piece2 = "model_provider"@ + "="@ + sql::mark(7);
    assert(cond_piece2 =~= whole.subrange(120, 137));
    sql::lemma_extended(whole, 110, cond_text1 + " AND "@, cond_piece2);
    let cond_text2 = cond_text1 + " AND "@ + cond_piece2;
    assert(sql::conditions_values(cond2).len() == 2);
    assert(sql::conditions_text(cond2, "="@, 5) == cond_text2);
    let cond_item3 = Condition::Equals { column: "archived"@, value: statements::flag(update.expected_archived) };
    let cond3 = cond2.push(cond_item3);
    sql::lemma_one_condition_more(cond2, cond_item3, "="@, 5);
    assert(" AND "@ =~= whole.subrange(137, 142));
    sql::lemma_extended(whole, 110, cond_text2, " AND "@);
    let cond_piece3 = "archived"@ + "="@ + sql::mark(8);
    assert(cond_piece3 =~= whole.subrange(142, 153));
    sql::lemma_extended(whole, 110, cond_text2 + " AND "@, cond_piece3);
    let cond_text3 = cond_text2 + " AND "@ + cond_piece3;
    assert(sql::conditions_values(cond3).len() == 3);
    assert(sql::conditions_text(cond3, "="@, 5) == cond_text3);
    let cond_item4 = Condition::Equals { column: "rollout_path"@, value: writes::bound_text(update.expected_rollout_path) };
    let cond4 = cond3.push(cond_item4);
    sql::lemma_one_condition_more(cond3, cond_item4, "="@, 5);
    assert(" AND "@ =~= whole.subrange(153, 158));
    sql::lemma_extended(whole, 110, cond_text3, " AND "@);
    let cond_piece4 = "rollout_path"@ + "="@ + sql::mark(9);
    assert(cond_piece4 =~= whole.subrange(158, 173));
    sql::lemma_extended(whole, 110, cond_text3 + " AND "@, cond_piece4);
    let cond_text4 = cond_text3 + " AND "@ + cond_piece4;
    assert(sql::conditions_values(cond4).len() == 4);
    assert(sql::conditions_text(cond4, "="@, 5) == cond_text4);
    let cond_item5 = Condition::Coalesced { column: "thread_source"@, written: "''"@, fallback: writes::bound_text(Seq::empty()), value: writes::bound_text(update.expected_thread_source) };
    let cond5 = cond4.push(cond_item5);
    sql::lemma_one_condition_more(cond4, cond_item5, "="@, 5);
    assert(" AND "@ =~= whole.subrange(173, 178));
    sql::lemma_extended(whole, 110, cond_text4, " AND "@);
    let cond_piece5 = "COALESCE("@ + "thread_source"@ + ", "@ + "''"@ + ")"@ + "="@ + sql::mark(10);
    assert(cond_piece5 =~= whole.subrange(178, 209));
    sql::lemma_extended(whole, 110, cond_text4 + " AND "@, cond_piece5);
    let cond_text5 = cond_text4 + " AND "@ + cond_piece5;
    assert(sql::conditions_values(cond5).len() == 5);
    assert(sql::conditions_text(cond5, "="@, 5) == cond_text5);
    let cond_item6 = Condition::Coalesced { column: "has_user_event"@, written: "0"@, fallback: RepairSqlValueView::Integer(0), value: statements::flag(update.expected_has_user_event) };
    let cond6 = cond5.push(cond_item6);
    sql::lemma_one_condition_more(cond5, cond_item6, "="@, 5);
    assert(" AND "@ =~= whole.subrange(209, 214));
    sql::lemma_extended(whole, 110, cond_text5, " AND "@);
    let cond_piece6 = "COALESCE("@ + "has_user_event"@ + ", "@ + "0"@ + ")"@ + "="@ + sql::mark(11);
    assert(cond_piece6 =~= whole.subrange(214, 245));
    sql::lemma_extended(whole, 110, cond_text5 + " AND "@, cond_piece6);
    let cond_text6 = cond_text5 + " AND "@ + cond_piece6;
    assert(sql::conditions_values(cond6).len() == 6);
    assert(sql::conditions_text(cond6, "="@, 5) == cond_text6);
    sql::lemma_extended(whole, 0, long, cond_text6);
    assert(long + cond_text6 =~= whole);
    assert(state_update_sets(update) =~= set5);
    assert(state_update_conditions(update) =~= cond6);
    let written = writes::state_update_write(update);
    assert(sql::spelled(state_update_command(update)).sql == written.sql);
    assert(sql::spelled(state_update_command(update)).values =~= written.values);
}

/// The conditions of the statement.
pub open spec fn state_delete_conditions(delete: StateDeleteView) -> Seq<Condition> {
    seq![
        Condition::Equals { column: "id"@, value: writes::bound_text(delete.thread_id) },
        Condition::Equals { column: "model_provider"@, value: writes::bound_text(delete.expected_provider) },
        Condition::Equals { column: "rollout_path"@, value: writes::bound_text(delete.expected_rollout_path) },
    ]
}

/// What the statement says.
pub open spec fn state_delete_command(delete: StateDeleteView) -> Command {
    Command::Delete { table: "threads"@, conditions: state_delete_conditions(delete) }
}

/// The text of the statement, piece by piece.
#[verifier::rlimit(60)]
pub proof fn lemma_state_delete_reads(delete: StateDeleteView)
    ensures
        sql::spelled(state_delete_command(delete)) == writes::state_delete_write(delete),
        forall|row: RowView| #[trigger] sql::meets_all(row, state_delete_conditions(delete)) <==> sql::meets(row, Condition::Equals { column: "id"@, value: writes::bound_text(delete.thread_id) }) && sql::meets(row, Condition::Equals { column: "model_provider"@, value: writes::bound_text(delete.expected_provider) }) && sql::meets(row, Condition::Equals { column: "rollout_path"@, value: writes::bound_text(delete.expected_rollout_path) }),
{
    reveal_strlit("DELETE FROM threads WHERE id=?1 AND model_provider=?2 AND rollout_path=?3");
    reveal_strlit(" AND ");
    reveal_strlit(" WHERE ");
    reveal_strlit("=");
    reveal_strlit("DELETE FROM ");
    reveal_strlit("id");
    reveal_strlit("model_provider");
    reveal_strlit("rollout_path");
    reveal_strlit("threads");
    let whole = "DELETE FROM threads WHERE id=?1 AND model_provider=?2 AND rollout_path=?3"@;
    sql::lemma_marks();
    let front0 = "DELETE FROM "@;
    assert(front0 =~= whole.subrange(0, 12));
    assert("threads"@ =~= whole.subrange(12, 19));
    sql::lemma_extended(whole, 0, front0, "threads"@);
    assert(" WHERE "@ =~= whole.subrange(19, 26));
    sql::lemma_extended(whole, 0, front0 + "threads"@, " WHERE "@);
    let long = front0 + "threads"@ + " WHERE "@;
    let cond0 = Seq::<Condition>::empty();
    let cond_item1 = Condition::Equals { column: "id"@, value: writes::bound_text(delete.thread_id) };
    let cond1 = cond0.push(cond_item1);
    sql::lemma_one_condition_more(cond0, cond_item1, "="@, 0);
    let cond_piece1 = "id"@ + "="@ + sql::mark(1);
    assert(cond_piece1 =~= whole.subrange(26, 31));
    let cond_text1 = cond_piece1;
    assert(sql::conditions_values(cond1).len() == 1);
    assert(sql::conditions_text(cond1, "="@, 0) == cond_text1);
    let cond_item2 = Condition::Equals { column: "model_provider"@, value: writes::bound_text(delete.expected_provider) };
    let cond2 = cond1.push(cond_item2);
    sql::lemma_one_condition_more(cond1, cond_item2, "="@, 0);
    assert(" AND "@ =~= whole.subrange(31, 36));
    sql::lemma_extended(whole, 26, cond_text1, " AND "@);
    let cond_piece2 = "model_provider"@ + "="@ + sql::mark(2);
    assert(cond_piece2 =~= whole.subrange(36, 53));
    sql::lemma_extended(whole, 26, cond_text1 + " AND "@, cond_piece2);
    let cond_text2 = cond_text1 + " AND "@ + cond_piece2;
    assert(sql::conditions_values(cond2).len() == 2);
    assert(sql::conditions_text(cond2, "="@, 0) == cond_text2);
    let cond_item3 = Condition::Equals { column: "rollout_path"@, value: writes::bound_text(delete.expected_rollout_path) };
    let cond3 = cond2.push(cond_item3);
    sql::lemma_one_condition_more(cond2, cond_item3, "="@, 0);
    assert(" AND "@ =~= whole.subrange(53, 58));
    sql::lemma_extended(whole, 26, cond_text2, " AND "@);
    let cond_piece3 = "rollout_path"@ + "="@ + sql::mark(3);
    assert(cond_piece3 =~= whole.subrange(58, 73));
    sql::lemma_extended(whole, 26, cond_text2 + " AND "@, cond_piece3);
    let cond_text3 = cond_text2 + " AND "@ + cond_piece3;
    assert(sql::conditions_values(cond3).len() == 3);
    assert(sql::conditions_text(cond3, "="@, 0) == cond_text3);
    sql::lemma_extended(whole, 0, long, cond_text3);
    assert(long + cond_text3 =~= whole);
    assert(state_delete_conditions(delete) =~= cond3);
    let written = writes::state_delete_write(delete);
    assert(sql::spelled(state_delete_command(delete)).sql == written.sql);
    assert(sql::spelled(state_delete_command(delete)).values =~= written.values);
}

/// The assignments of the statement.
pub open spec fn catalog_update_sets(update: CatalogUpdateView, sequence: i64) -> Seq<Assignment> {
    seq![
        Assignment::Put { column: "model_provider"@, value: writes::bound_text(update.provider) },
        Assignment::Put { column: "observation_sequence"@, value: RepairSqlValueView::Integer(sequence) },
        Assignment::Put { column: "missing_candidate"@, value: statements::flag(update.missing_candidate) },
    ]
}

/// The conditions of the statement.
pub open spec fn catalog_update_conditions(update: CatalogUpdateView, sequence: i64) -> Seq<Condition> {
    seq![
        Condition::Equals { column: "host_id"@, value: writes::bound_text(update.host_id) },
        Condition::Equals { column: "thread_id"@, value: writes::bound_text(update.thread_id) },
        Condition::Equals { column: "model_provider"@, value: writes::bound_text(update.expected_provider) },
        Condition::Equals { column: "missing_candidate"@, value: statements::flag(update.expected_missing_candidate) },
    ]
}

/// What the statement says.
pub open spec fn catalog_update_command(update: CatalogUpdateView, sequence: i64) -> Command {
    Command::Update { table: "provider_catalog.local_thread_catalog"@, quoted: false, equals: " = "@, sets: catalog_update_sets(update, sequence), conditions: catalog_update_conditions(update, sequence) }
}

/// The text of the statement, piece by piece.
#[verifier::rlimit(60)]
pub proof fn lemma_catalog_update_reads(update: CatalogUpdateView, sequence: i64)
    ensures
        sql::spelled(catalog_update_command(update, sequence)) == writes::catalog_update_write(update, sequence),
        forall|row: RowView| #[trigger] sql::sets_in(row, catalog_update_sets(update, sequence)) == sql::set_in(row, sql::set_in(row, sql::set_in(row, row, Assignment::Put { column: "model_provider"@, value: writes::bound_text(update.provider) }), Assignment::Put { column: "observation_sequence"@, value: RepairSqlValueView::Integer(sequence) }), Assignment::Put { column: "missing_candidate"@, value: statements::flag(update.missing_candidate) }),
        forall|row: RowView| #[trigger] sql::meets_all(row, catalog_update_conditions(update, sequence)) <==> sql::meets(row, Condition::Equals { column: "host_id"@, value: writes::bound_text(update.host_id) }) && sql::meets(row, Condition::Equals { column: "thread_id"@, value: writes::bound_text(update.thread_id) }) && sql::meets(row, Condition::Equals { column: "model_provider"@, value: writes::bound_text(update.expected_provider) }) && sql::meets(row, Condition::Equals { column: "missing_candidate"@, value: statements::flag(update.expected_missing_candidate) }),
{
    reveal_strlit("UPDATE provider_catalog.local_thread_catalog SET model_provider = ?1, observation_sequence = ?2, missing_candidate = ?3 WHERE host_id = ?4 AND thread_id = ?5 AND model_provider = ?6 AND missing_candidate = ?7");
    reveal_strlit(" = ");
    reveal_strlit(" AND ");
    reveal_strlit(" SET ");
    reveal_strlit(" WHERE ");
    reveal_strlit(", ");
    reveal_strlit("UPDATE ");
    reveal_strlit("host_id");
    reveal_strlit("missing_candidate");
    reveal_strlit("model_provider");
    reveal_strlit("observation_sequence");
    reveal_strlit("provider_catalog.local_thread_catalog");
    reveal_strlit("thread_id");
    let whole = "UPDATE provider_catalog.local_thread_catalog SET model_provider = ?1, observation_sequence = ?2, missing_candidate = ?3 WHERE host_id = ?4 AND thread_id = ?5 AND model_provider = ?6 AND missing_candidate = ?7"@;
    sql::lemma_marks();
    let front0 = "UPDATE "@;
    assert(front0 =~= whole.subrange(0, 7));
    assert("provider_catalog.local_thread_catalog"@ =~= whole.subrange(7, 44));
    sql::lemma_extended(whole, 0, front0, "provider_catalog.local_thread_catalog"@);
    assert(" SET "@ =~= whole.subrange(44, 49));
    sql::lemma_extended(whole, 0, front0 + "provider_catalog.local_thread_catalog"@, " SET "@);
    let head = front0 + "provider_catalog.local_thread_catalog"@ + " SET "@;
    let set0 = Seq::<Assignment>::empty();
    let set_item1 = Assignment::Put { column: "model_provider"@, value: writes::bound_text(update.provider) };
    let set1 = set0.push(set_item1);
    sql::lemma_one_set_more(set0, set_item1, false, " = "@);
    let set_piece1 = "model_provider"@ + " = "@ + sql::mark(1);
    assert(set_piece1 =~= whole.subrange(49, 68));
    let set_text1 = set_piece1;
    assert(sql::sets_values(set1).len() == 1);
    assert(sql::sets_text(set1, false, " = "@) == set_text1);
    let set_item2 = Assignment::Put { column: "observation_sequence"@, value: RepairSqlValueView::Integer(sequence) };
    let set2 = set1.push(set_item2);
    sql::lemma_one_set_more(set1, set_item2, false, " = "@);
    assert(", "@ =~= whole.subrange(68, 70));
    sql::lemma_extended(whole, 49, set_text1, ", "@);
    let set_piece2 = "observation_sequence"@ + " = "@ + sql::mark(2);
    assert(set_piece2 =~= whole.subrange(70, 95));
    sql::lemma_extended(whole, 49, set_text1 + ", "@, set_piece2);
    let set_text2 = set_text1 + ", "@ + set_piece2;
    assert(sql::sets_values(set2).len() == 2);
    assert(sql::sets_text(set2, false, " = "@) == set_text2);
    let set_item3 = Assignment::Put { column: "missing_candidate"@, value: statements::flag(update.missing_candidate) };
    let set3 = set2.push(set_item3);
    sql::lemma_one_set_more(set2, set_item3, false, " = "@);
    assert(", "@ =~= whole.subrange(95, 97));
    sql::lemma_extended(whole, 49, set_text2, ", "@);
    let set_piece3 = "missing_candidate"@ + " = "@ + sql::mark(3);
    assert(set_piece3 =~= whole.subrange(97, 119));
    sql::lemma_extended(whole, 49, set_text2 + ", "@, set_piece3);
    let set_text3 = set_text2 + ", "@ + set_piece3;
    assert(sql::sets_values(set3).len() == 3);
    assert(sql::sets_text(set3, false, " = "@) == set_text3);
    let set_whole = set_text3;
    sql::lemma_extended(whole, 0, head, set_whole);
    let middle = head + set_whole;
    assert(" WHERE "@ =~= whole.subrange(119, 126));
    sql::lemma_extended(whole, 0, middle, " WHERE "@);
    let long = middle + " WHERE "@;
    let cond0 = Seq::<Condition>::empty();
    let cond_item1 = Condition::Equals { column: "host_id"@, value: writes::bound_text(update.host_id) };
    let cond1 = cond0.push(cond_item1);
    sql::lemma_one_condition_more(cond0, cond_item1, " = "@, 3);
    let cond_piece1 = "host_id"@ + " = "@ + sql::mark(4);
    assert(cond_piece1 =~= whole.subrange(126, 138));
    let cond_text1 = cond_piece1;
    assert(sql::conditions_values(cond1).len() == 1);
    assert(sql::conditions_text(cond1, " = "@, 3) == cond_text1);
    let cond_item2 = Condition::Equals { column: "thread_id"@, value: writes::bound_text(update.thread_id) };
    let cond2 = cond1.push(cond_item2);
    sql::lemma_one_condition_more(cond1, cond_item2, " = "@, 3);
    assert(" AND "@ =~= whole.subrange(138, 143));
    sql::lemma_extended(whole, 126, cond_text1, " AND "@);
    let cond_piece2 = "thread_id"@ + " = "@ + sql::mark(5);
    assert(cond_piece2 =~= whole.subrange(143, 157));
    sql::lemma_extended(whole, 126, cond_text1 + " AND "@, cond_piece2);
    let cond_text2 = cond_text1 + " AND "@ + cond_piece2;
    assert(sql::conditions_values(cond2).len() == 2);
    assert(sql::conditions_text(cond2, " = "@, 3) == cond_text2);
    let cond_item3 = Condition::Equals { column: "model_provider"@, value: writes::bound_text(update.expected_provider) };
    let cond3 = cond2.push(cond_item3);
    sql::lemma_one_condition_more(cond2, cond_item3, " = "@, 3);
    assert(" AND "@ =~= whole.subrange(157, 162));
    sql::lemma_extended(whole, 126, cond_text2, " AND "@);
    let cond_piece3 = "model_provider"@ + " = "@ + sql::mark(6);
    assert(cond_piece3 =~= whole.subrange(162, 181));
    sql::lemma_extended(whole, 126, cond_text2 + " AND "@, cond_piece3);
    let cond_text3 = cond_text2 + " AND "@ + cond_piece3;
    assert(sql::conditions_values(cond3).len() == 3);
    assert(sql::conditions_text(cond3, " = "@, 3) == cond_text3);
    let cond_item4 = Condition::Equals { column: "missing_candidate"@, value: statements::flag(update.expected_missing_candidate) };
    let cond4 = cond3.push(cond_item4);
    sql::lemma_one_condition_more(cond3, cond_item4, " = "@, 3);
    assert(" AND "@ =~= whole.subrange(181, 186));
    sql::lemma_extended(whole, 126, cond_text3, " AND "@);
    let cond_piece4 = "missing_candidate"@ + " = "@ + sql::mark(7);
    assert(cond_piece4 =~= whole.subrange(186, 208));
    sql::lemma_extended(whole, 126, cond_text3 + " AND "@, cond_piece4);
    let cond_text4 = cond_text3 + " AND "@ + cond_piece4;
    assert(sql::conditions_values(cond4).len() == 4);
    assert(sql::conditions_text(cond4, " = "@, 3) == cond_text4);
    sql::lemma_extended(whole, 0, long, cond_text4);
    assert(long + cond_text4 =~= whole);
    assert(catalog_update_sets(update, sequence) =~= set3);
    assert(catalog_update_conditions(update, sequence) =~= cond4);
    let written = writes::catalog_update_write(update, sequence);
    assert(sql::spelled(catalog_update_command(update, sequence)).sql == written.sql);
    assert(sql::spelled(catalog_update_command(update, sequence)).values =~= written.values);
}

/// The conditions of the statement.
pub open spec fn catalog_delete_conditions(delete: CatalogDeleteView) -> Seq<Condition> {
    seq![
        Condition::Equals { column: "host_id"@, value: writes::bound_text(delete.host_id) },
        Condition::Equals { column: "thread_id"@, value: writes::bound_text(delete.thread_id) },
        Condition::Equals { column: "model_provider"@, value: writes::bound_text(delete.expected_provider) },
        Condition::Equals { column: "missing_candidate"@, value: statements::flag(delete.expected_missing_candidate) },
    ]
}

/// What the statement says.
pub open spec fn catalog_delete_command(delete: CatalogDeleteView) -> Command {
    Command::Delete { table: "provider_catalog.local_thread_catalog"@, conditions: catalog_delete_conditions(delete) }
}

/// The text of the statement, piece by piece.
#[verifier::rlimit(60)]
pub proof fn lemma_catalog_delete_reads(delete: CatalogDeleteView)
    ensures
        sql::spelled(catalog_delete_command(delete)) == writes::catalog_delete_write(delete),
        forall|row: RowView| #[trigger] sql::meets_all(row, catalog_delete_conditions(delete)) <==> sql::meets(row, Condition::Equals { column: "host_id"@, value: writes::bound_text(delete.host_id) }) && sql::meets(row, Condition::Equals { column: "thread_id"@, value: writes::bound_text(delete.thread_id) }) && sql::meets(row, Condition::Equals { column: "model_provider"@, value: writes::bound_text(delete.expected_provider) }) && sql::meets(row, Condition::Equals { column: "missing_candidate"@, value: statements::flag(delete.expected_missing_candidate) }),
{
    reveal_strlit("DELETE FROM provider_catalog.local_thread_catalog WHERE host_id=?1 AND thread_id=?2 AND model_provider=?3 AND missing_candidate=?4");
    reveal_strlit(" AND ");
    reveal_strlit(" WHERE ");
    reveal_strlit("=");
    reveal_strlit("DELETE FROM ");
    reveal_strlit("host_id");
    reveal_strlit("missing_candidate");
    reveal_strlit("model_provider");
    reveal_strlit("provider_catalog.local_thread_catalog");
    reveal_strlit("thread_id");
    let whole = "DELETE FROM provider_catalog.local_thread_catalog WHERE host_id=?1 AND thread_id=?2 AND model_provider=?3 AND missing_candidate=?4"@;
    sql::lemma_marks();
    let front0 = "DELETE FROM "@;
    assert(front0 =~= whole.subrange(0, 12));
    assert("provider_catalog.local_thread_catalog"@ =~= whole.subrange(12, 49));
    sql::lemma_extended(whole, 0, front0, "provider_catalog.local_thread_catalog"@);
    assert(" WHERE "@ =~= whole.subrange(49, 56));
    sql::lemma_extended(whole, 0, front0 + "provider_catalog.local_thread_catalog"@, " WHERE "@);
    let long = front0 + "provider_catalog.local_thread_catalog"@ + " WHERE "@;
    let cond0 = Seq::<Condition>::empty();
    let cond_item1 = Condition::Equals { column: "host_id"@, value: writes::bound_text(delete.host_id) };
    let cond1 = cond0.push(cond_item1);
    sql::lemma_one_condition_more(cond0, cond_item1, "="@, 0);
    let cond_piece1 = "host_id"@ + "="@ + sql::mark(1);
    assert(cond_piece1 =~= whole.subrange(56, 66));
    let cond_text1 = cond_piece1;
    assert(sql::conditions_values(cond1).len() == 1);
    assert(sql::conditions_text(cond1, "="@, 0) == cond_text1);
    let cond_item2 = Condition::Equals { column: "thread_id"@, value: writes::bound_text(delete.thread_id) };
    let cond2 = cond1.push(cond_item2);
    sql::lemma_one_condition_more(cond1, cond_item2, "="@, 0);
    assert(" AND "@ =~= whole.subrange(66, 71));
    sql::lemma_extended(whole, 56, cond_text1, " AND "@);
    let cond_piece2 = "thread_id"@ + "="@ + sql::mark(2);
    assert(cond_piece2 =~= whole.subrange(71, 83));
    sql::lemma_extended(whole, 56, cond_text1 + " AND "@, cond_piece2);
    let cond_text2 = cond_text1 + " AND "@ + cond_piece2;
    assert(sql::conditions_values(cond2).len() == 2);
    assert(sql::conditions_text(cond2, "="@, 0) == cond_text2);
    let cond_item3 = Condition::Equals { column: "model_provider"@, value: writes::bound_text(delete.expected_provider) };
    let cond3 = cond2.push(cond_item3);
    sql::lemma_one_condition_more(cond2, cond_item3, "="@, 0);
    assert(" AND "@ =~= whole.subrange(83, 88));
    sql::lemma_extended(whole, 56, cond_text2, " AND "@);
    let cond_piece3 = "model_provider"@ + "="@ + sql::mark(3);
    assert(cond_piece3 =~= whole.subrange(88, 105));
    sql::lemma_extended(whole, 56, cond_text2 + " AND "@, cond_piece3);
    let cond_text3 = cond_text2 + " AND "@ + cond_piece3;
    assert(sql::conditions_values(cond3).len() == 3);
    assert(sql::conditions_text(cond3, "="@, 0) == cond_text3);
    let cond_item4 = Condition::Equals { column: "missing_candidate"@, value: statements::flag(delete.expected_missing_candidate) };
    let cond4 = cond3.push(cond_item4);
    sql::lemma_one_condition_more(cond3, cond_item4, "="@, 0);
    assert(" AND "@ =~= whole.subrange(105, 110));
    sql::lemma_extended(whole, 56, cond_text3, " AND "@);
    let cond_piece4 = "missing_candidate"@ + "="@ + sql::mark(4);
    assert(cond_piece4 =~= whole.subrange(110, 130));
    sql::lemma_extended(whole, 56, cond_text3 + " AND "@, cond_piece4);
    let cond_text4 = cond_text3 + " AND "@ + cond_piece4;
    assert(sql::conditions_values(cond4).len() == 4);
    assert(sql::conditions_text(cond4, "="@, 0) == cond_text4);
    sql::lemma_extended(whole, 0, long, cond_text4);
    assert(long + cond_text4 =~= whole);
    assert(catalog_delete_conditions(delete) =~= cond4);
    let written = writes::catalog_delete_write(delete);
    assert(sql::spelled(catalog_delete_command(delete)).sql == written.sql);
    assert(sql::spelled(catalog_delete_command(delete)).values =~= written.values);
}

/// The columns of the statement.
pub open spec fn catalog_insert_columns() -> Seq<Seq<char>> {
    seq![
        "host_id"@,
        "thread_id"@,
        "display_title"@,
        "source_created_at"@,
        "source_updated_at"@,
        "cwd"@,
        "source_kind"@,
        "source_detail"@,
        "model_provider"@,
        "git_branch"@,
        "observation_sequence"@,
        "missing_candidate"@,
    ]
}

/// The cells of the statement.
pub open spec fn catalog_insert_cells(insert: CatalogInsertView, sequence: i64) -> Seq<Cell> {
    seq![
        Cell::Bound(writes::bound_text(insert.host_id)),
        Cell::Bound(writes::bound_text(insert.thread_id)),
        Cell::Bound(writes::bound_text(insert.title)),
        Cell::Bound(RepairSqlValueView::Real(reals::real_value(insert.created_at))),
        Cell::Bound(RepairSqlValueView::Real(reals::real_value(insert.updated_at))),
        Cell::Bound(writes::bound_text(insert.cwd)),
        Cell::Bound(writes::bound_text(insert.source_kind)),
        Cell::Bound(writes::bound_text(insert.source_detail)),
        Cell::Bound(writes::bound_text(insert.provider)),
        Cell::Bound(statements::text_or_null(insert.git_branch)),
        Cell::Bound(RepairSqlValueView::Integer(sequence)),
        Cell::Written { written: "0"@, value: RepairSqlValueView::Integer(0) },
    ]
}

/// What the statement says.
pub open spec fn catalog_insert_command(insert: CatalogInsertView, sequence: i64) -> Command {
    Command::Insert { table: "provider_catalog.local_thread_catalog"@, quoted: false, or_ignore: true, columns: catalog_insert_columns(), cells: catalog_insert_cells(insert, sequence) }
}

/// The text of the statement, piece by piece.
#[verifier::rlimit(60)]
pub proof fn lemma_catalog_insert_reads(insert: CatalogInsertView, sequence: i64)
    ensures
        sql::spelled(catalog_insert_command(insert, sequence)) == writes::catalog_insert_write(insert, sequence),
        sql::made_row(catalog_insert_columns(), catalog_insert_cells(insert, sequence)) == Map::empty().insert("host_id"@, writes::bound_text(insert.host_id)).insert("thread_id"@, writes::bound_text(insert.thread_id)).insert("display_title"@, writes::bound_text(insert.title)).insert("source_created_at"@, RepairSqlValueView::Real(reals::real_value(insert.created_at))).insert("source_updated_at"@, RepairSqlValueView::Real(reals::real_value(insert.updated_at))).insert("cwd"@, writes::bound_text(insert.cwd)).insert("source_kind"@, writes::bound_text(insert.source_kind)).insert("source_detail"@, writes::bound_text(insert.source_detail)).insert("model_provider"@, writes::bound_text(insert.provider)).insert("git_branch"@, statements::text_or_null(insert.git_branch)).insert("observation_sequence"@, RepairSqlValueView::Integer(sequence)).insert("missing_candidate"@, RepairSqlValueView::Integer(0)),
{
    reveal_strlit("INSERT OR IGNORE INTO provider_catalog.local_thread_catalog (host_id, thread_id, display_title, source_created_at, source_updated_at, cwd, source_kind, source_detail, model_provider, git_branch, observation_sequence, missing_candidate) VALUES (?1, ?2, ?3, ?4, ?5, ?6, ?7, ?8, ?9, ?10, ?11, 0)");
    reveal_strlit(" (");
    reveal_strlit(")");
    reveal_strlit(") VALUES (");
    reveal_strlit(", ");
    reveal_strlit("0");
    reveal_strlit("INSERT OR IGNORE INTO ");
    reveal_strlit("cwd");
    reveal_strlit("display_title");
    reveal_strlit("git_branch");
    reveal_strlit("host_id");
    reveal_strlit("missing_candidate");
    reveal_strlit("model_provider");
    reveal_strlit("observation_sequence");
    reveal_strlit("provider_catalog.local_thread_catalog");
    reveal_strlit("source_created_at");
    reveal_strlit("source_detail");
    reveal_strlit("source_kind");
    reveal_strlit("source_updated_at");
    reveal_strlit("thread_id");
    let whole = "INSERT OR IGNORE INTO provider_catalog.local_thread_catalog (host_id, thread_id, display_title, source_created_at, source_updated_at, cwd, source_kind, source_detail, model_provider, git_branch, observation_sequence, missing_candidate) VALUES (?1, ?2, ?3, ?4, ?5, ?6, ?7, ?8, ?9, ?10, ?11, 0)"@;
    sql::lemma_marks();
    let front0 = "INSERT OR IGNORE INTO "@;
    assert(front0 =~= whole.subrange(0, 22));
    assert("provider_catalog.local_thread_catalog"@ =~= whole.subrange(22, 59));
    sql::lemma_extended(whole, 0, front0, "provider_catalog.local_thread_catalog"@);
    assert(" ("@ =~= whole.subrange(59, 61));
    sql::lemma_extended(whole, 0, front0 + "provider_catalog.local_thread_catalog"@, " ("@);
    let head = front0 + "provider_catalog.local_thread_catalog"@ + " ("@;
    let columns0 = Seq::<Seq<char>>::empty();
    let cells0 = Seq::<Cell>::empty();
    let column1 = "host_id"@;
    let cell1 = Cell::Bound(writes::bound_text(insert.host_id));
    sql::lemma_one_cell_more(columns0, cells0, column1, cell1, false);
    let columns1 = columns0.push(column1);
    let cells1 = cells0.push(cell1);
    assert(column1 =~= whole.subrange(61, 68));
    let names1 = column1;
    assert(sql::columns_text(columns1, false) == names1);
    let column2 = "thread_id"@;
    let cell2 = Cell::Bound(writes::bound_text(insert.thread_id));
    sql::lemma_one_cell_more(columns1, cells1, column2, cell2, false);
    let columns2 = columns1.push(column2);
    let cells2 = cells1.push(cell2);
    assert(", "@ =~= whole.subrange(68, 70));
    sql::lemma_extended(whole, 61, names1, ", "@);
    assert(column2 =~= whole.subrange(70, 79));
    sql::lemma_extended(whole, 61, names1 + ", "@, column2);
    let names2 = names1 + ", "@ + column2;
    assert(sql::columns_text(columns2, false) == names2);
    let column3 = "display_title"@;
    let cell3 = Cell::Bound(writes::bound_text(insert.title));
    sql::lemma_one_cell_more(columns2, cells2, column3, cell3, false);
    let columns3 = columns2.push(column3);
    let cells3 = cells2.push(cell3);
    assert(", "@ =~= whole.subrange(79, 81));
    sql::lemma_extended(whole, 61, names2, ", "@);
    assert(column3 =~= whole.subrange(81, 94));
    sql::lemma_extended(whole, 61, names2 + ", "@, column3);
    let names3 = names2 + ", "@ + column3;
    assert(sql::columns_text(columns3, false) == names3);
    let column4 = "source_created_at"@;
    let cell4 = Cell::Bound(RepairSqlValueView::Real(reals::real_value(insert.created_at)));
    sql::lemma_one_cell_more(columns3, cells3, column4, cell4, false);
    let columns4 = columns3.push(column4);
    let cells4 = cells3.push(cell4);
    assert(", "@ =~= whole.subrange(94, 96));
    sql::lemma_extended(whole, 61, names3, ", "@);
    assert(column4 =~= whole.subrange(96, 113));
    sql::lemma_extended(whole, 61, names3 + ", "@, column4);
    let names4 = names3 + ", "@ + column4;
    assert(sql::columns_text(columns4, false) == names4);
    let column5 = "source_updated_at"@;
    let cell5 = Cell::Bound(RepairSqlValueView::Real(reals::real_value(insert.updated_at)));
    sql::lemma_one_cell_more(columns4, cells4, column5, cell5, false);
    let columns5 = columns4.push(column5);
    let cells5 = cells4.push(cell5);
    assert(", "@ =~= whole.subrange(113, 115));
    sql::lemma_extended(whole, 61, names4, ", "@);
    assert(column5 =~= whole.subrange(115, 132));
    sql::lemma_extended(whole, 61, names4 + ", "@, column5);
    let names5 = names4 + ", "@ + column5;
    assert(sql::columns_text(columns5, false) == names5);
    let column6 = "cwd"@;
    let cell6 = Cell::Bound(writes::bound_text(insert.cwd));
    sql::lemma_one_cell_more(columns5, cells5, column6, cell6, false);
    let columns6 = columns5.push(column6);
    let cells6 = cells5.push(cell6);
    assert(", "@ =~= whole.subrange(132, 134));
    sql::lemma_extended(whole, 61, names5, ", "@);
    assert(column6 =~= whole.subrange(134, 137));
    sql::lemma_extended(whole, 61, names5 + ", "@, column6);
    let names6 = names5 + ", "@ + column6;
    assert(sql::columns_text(columns6, false) == names6);
    let column7 = "source_kind"@;
    let cell7 = Cell::Bound(writes::bound_text(insert.source_kind));
    sql::lemma_one_cell_more(columns6, cells6, column7, cell7, false);
    let columns7 = columns6.push(column7);
    let cells7 = cells6.push(cell7);
    assert(", "@ =~= whole.subrange(137, 139));
    sql::lemma_extended(whole, 61, names6, ", "@);
    assert(column7 =~= whole.subrange(139, 150));
    sql::lemma_extended(whole, 61, names6 + ", "@, column7);
    let names7 = names6 + ", "@ + column7;
    assert(sql::columns_text(columns7, false) == names7);
    let column8 = "source_detail"@;
    let cell8 = Cell::Bound(writes::bound_text(insert.source_detail));
    sql::lemma_one_cell_more(columns7, cells7, column8, cell8, false);
    let columns8 = columns7.push(column8);
    let cells8 = cells7.push(cell8);
    assert(", "@ =~= whole.subrange(150, 152));
    sql::lemma_extended(whole, 61, names7, ", "@);
    assert(column8 =~= whole.subrange(152, 165));
    sql::lemma_extended(whole, 61, names7 + ", "@, column8);
    let names8 = names7 + ", "@ + column8;
    assert(sql::columns_text(columns8, false) == names8);
    let column9 = "model_provider"@;
    let cell9 = Cell::Bound(writes::bound_text(insert.provider));
    sql::lemma_one_cell_more(columns8, cells8, column9, cell9, false);
    let columns9 = columns8.push(column9);
    let cells9 = cells8.push(cell9);
    assert(", "@ =~= whole.subrange(165, 167));
    sql::lemma_extended(whole, 61, names8, ", "@);
    assert(column9 =~= whole.subrange(167, 181));
    sql::lemma_extended(whole, 61, names8 + ", "@, column9);
    let names9 = names8 + ", "@ + column9;
    assert(sql::columns_text(columns9, false) == names9);
    let column10 = "git_branch"@;
    let cell10 = Cell::Bound(statements::text_or_null(insert.git_branch));
    sql::lemma_one_cell_more(columns9, cells9, column10, cell10, false);
    let columns10 = columns9.push(column10);
    let cells10 = cells9.push(cell10);
    assert(", "@ =~= whole.subrange(181, 183));
    sql::lemma_extended(whole, 61, names9, ", "@);
    assert(column10 =~= whole.subrange(183, 193));
    sql::lemma_extended(whole, 61, names9 + ", "@, column10);
    let names10 = names9 + ", "@ + column10;
    assert(sql::columns_text(columns10, false) == names10);
    let column11 = "observation_sequence"@;
    let cell11 = Cell::Bound(RepairSqlValueView::Integer(sequence));
    sql::lemma_one_cell_more(columns10, cells10, column11, cell11, false);
    let columns11 = columns10.push(column11);
    let cells11 = cells10.push(cell11);
    assert(", "@ =~= whole.subrange(193, 195));
    sql::lemma_extended(whole, 61, names10, ", "@);
    assert(column11 =~= whole.subrange(195, 215));
    sql::lemma_extended(whole, 61, names10 + ", "@, column11);
    let names11 = names10 + ", "@ + column11;
    assert(sql::columns_text(columns11, false) == names11);
    let column12 = "missing_candidate"@;
    let cell12 = Cell::Written { written: "0"@, value: RepairSqlValueView::Integer(0) };
    sql::lemma_one_cell_more(columns11, cells11, column12, cell12, false);
    let columns12 = columns11.push(column12);
    let cells12 = cells11.push(cell12);
    assert(", "@ =~= whole.subrange(215, 217));
    sql::lemma_extended(whole, 61, names11, ", "@);
    assert(column12 =~= whole.subrange(217, 234));
    sql::lemma_extended(whole, 61, names11 + ", "@, column12);
    let names12 = names11 + ", "@ + column12;
    assert(sql::columns_text(columns12, false) == names12);
    sql::lemma_extended(whole, 0, head, names12);
    let middle = head + names12;
    assert(") VALUES ("@ =~= whole.subrange(234, 244));
    sql::lemma_extended(whole, 0, middle, ") VALUES ("@);
    let long = middle + ") VALUES ("@;
    let item1 = sql::mark(1);
    assert(item1 =~= whole.subrange(244, 246));
    let marks1 = item1;
    assert(sql::cells_values(cells1).len() == 1);
    assert(sql::cells_text(cells1) == marks1);
    assert(", "@ =~= whole.subrange(246, 248));
    sql::lemma_extended(whole, 244, marks1, ", "@);
    let item2 = sql::mark(2);
    assert(item2 =~= whole.subrange(248, 250));
    sql::lemma_extended(whole, 244, marks1 + ", "@, item2);
    let marks2 = marks1 + ", "@ + item2;
    assert(sql::cells_values(cells2).len() == 2);
    assert(sql::cells_text(cells2) == marks2);
    assert(", "@ =~= whole.subrange(250, 252));
    sql::lemma_extended(whole, 244, marks2, ", "@);
    let item3 = sql::mark(3);
    assert(item3 =~= whole.subrange(252, 254));
    sql::lemma_extended(whole, 244, marks2 + ", "@, item3);
    let marks3 = marks2 + ", "@ + item3;
    assert(sql::cells_values(cells3).len() == 3);
    assert(sql::cells_text(cells3) == marks3);
    assert(", "@ =~= whole.subrange(254, 256));
    sql::lemma_extended(whole, 244, marks3, ", "@);
    let item4 = sql::mark(4);
    assert(item4 =~= whole.subrange(256, 258));
    sql::lemma_extended(whole, 244, marks3 + ", "@, item4);
    let marks4 = marks3 + ", "@ + item4;
    assert(sql::cells_values(cells4).len() == 4);
    assert(sql::cells_text(cells4) == marks4);
    assert(", "@ =~= whole.subrange(258, 260));
    sql::lemma_extended(whole, 244, marks4, ", "@);
    let item5 = sql::mark(5);
    assert(item5 =~= whole.subrange(260, 262));
    sql::lemma_extended(whole, 244, marks4 + ", "@, item5);
    let marks5 = marks4 + ", "@ + item5;
    assert(sql::cells_values(cells5).len() == 5);
    assert(sql::cells_text(cells5) == marks5);
    assert(", "@ =~= whole.subrange(262, 264));
    sql::lemma_extended(whole, 244, marks5, ", "@);
    let item6 = sql::mark(6);
    assert(item6 =~= whole.subrange(264, 266));
    sql::lemma_extended(whole, 244, marks5 + ", "@, item6);
    let marks6 = marks5 + ", "@ + item6;
    assert(sql::cells_values(cells6).len() == 6);
    assert(sql::cells_text(cells6) == marks6);
    assert(", "@ =~= whole.subrange(266, 268));
    sql::lemma_extended(whole, 244, marks6, ", "@);
    let item7 = sql::mark(7);
    assert(item7 =~= whole.subrange(268, 270));
    sql::lemma_extended(whole, 244, marks6 + ", "@, item7);
    let marks7 = marks6 + ", "@ + item7;
    assert(sql::cells_values(cells7).len() == 7);
    assert(sql::cells_text(cells7) == marks7);
    assert(", "@ =~= whole.subrange(270, 272));
    sql::lemma_extended(whole, 244, marks7, ", "@);
    let item8 = sql::mark(8);
    assert(item8 =~= whole.subrange(272, 274));
    sql::lemma_extended(whole, 244, marks7 + ", "@, item8);
    let marks8 = marks7 + ", "@ + item8;
    assert(sql::cells_values(cells8).len() == 8);
    assert(sql::cells_text(cells8) == marks8);
    assert(", "@ =~= whole.subrange(274, 276));
    sql::lemma_extended(whole, 244, marks8, ", "@);
    let item9 = sql::mark(9);
    assert(item9 =~= whole.subrange(276, 278));
    sql::lemma_extended(whole, 244, marks8 + ", "@, item9);
    let marks9 = marks8 + ", "@ + item9;
    assert(sql::cells_values(cells9).len() == 9);
    assert(sql::cells_text(cells9) == marks9);
    assert(", "@ =~= whole.subrange(278, 280));
    sql::lemma_extended(whole, 244, marks9, ", "@);
    let item10 = sql::mark(10);
    assert(item10 =~= whole.subrange(280, 283));
    sql::lemma_extended(whole, 244, marks9 + ", "@, item10);
    let marks10 = marks9 + ", "@ + item10;
    assert(sql::cells_values(cells10).len() == 10);
    assert(sql::cells_text(cells10) == marks10);
    assert(", "@ =~= whole.subrange(283, 285));
    sql::lemma_extended(whole, 244, marks10, ", "@);
    let item11 = sql::mark(11);
    assert(item11 =~= whole.subrange(285, 288));
    sql::lemma_extended(whole, 244, marks10 + ", "@, item11);
    let marks11 = marks10 + ", "@ + item11;
    assert(sql::cells_values(cells11).len() == 11);
    assert(sql::cells_text(cells11) == marks11);
    assert(", "@ =~= whole.subrange(288, 290));
    sql::lemma_extended(whole, 244, marks11, ", "@);
    let item12 = "0"@;
    assert(item12 =~= whole.subrange(290, 291));
    sql::lemma_extended(whole, 244, marks11 + ", "@, item12);
    let marks12 = marks11 + ", "@ + item12;
    assert(sql::cells_values(cells12).len() == 11);
    assert(sql::cells_text(cells12) == marks12);
    sql::lemma_extended(whole, 0, long, marks12);
    let almost = long + marks12;
    assert(")"@ =~= whole.subrange(291, 292));
    sql::lemma_extended(whole, 0, almost, ")"@);
    assert(almost + ")"@ =~= whole);
    assert(catalog_insert_columns() =~= columns12);
    assert(catalog_insert_cells(insert, sequence) =~= cells12);
    let written = writes::catalog_insert_write(insert, sequence);
    assert(sql::spelled(catalog_insert_command(insert, sequence)).sql == written.sql);
    assert(sql::spelled(catalog_insert_command(insert, sequence)).values =~= written.values);
}

/// The columns of the statement.
pub open spec fn catalog_image_insert_columns() -> Seq<Seq<char>> {
    seq![
        "host_id"@,
        "thread_id"@,
        "display_title"@,
        "source_created_at"@,
        "source_updated_at"@,
        "cwd"@,
        "source_kind"@,
        "source_detail"@,
        "model_provider"@,
        "git_branch"@,
        "observation_sequence"@,
        "missing_candidate"@,
    ]
}

/// The cells of the statement.
pub open spec fn catalog_image_insert_cells(image: RepairCatalogImageView) -> Seq<Cell> {
    seq![
        Cell::Bound(writes::bound_text(image.host_id)),
        Cell::Bound(writes::bound_text(image.thread_id)),
        Cell::Bound(writes::bound_text(image.display_title)),
        Cell::Bound(RepairSqlValueView::Real(image.source_created_at)),
        Cell::Bound(RepairSqlValueView::Real(image.source_updated_at)),
        Cell::Bound(writes::bound_text(image.cwd)),
        Cell::Bound(writes::bound_text(image.source_kind)),
        Cell::Bound(statements::text_or_null(image.source_detail)),
        Cell::Bound(writes::bound_text(image.model_provider)),
        Cell::Bound(statements::text_or_null(image.git_branch)),
        Cell::Bound(RepairSqlValueView::Integer(image.observation_sequence)),
        Cell::Bound(statements::flag(image.missing_candidate)),
    ]
}

/// What the statement says.
pub open spec fn catalog_image_insert_command(image: RepairCatalogImageView) -> Command {
    Command::Insert { table: "provider_catalog.local_thread_catalog"@, quoted: false, or_ignore: false, columns: catalog_image_insert_columns(), cells: catalog_image_insert_cells(image) }
}

/// The text of the statement, piece by piece.
#[verifier::rlimit(60)]
pub proof fn lemma_catalog_image_insert_reads(image: RepairCatalogImageView)
    ensures
        sql::spelled(catalog_image_insert_command(image)) == writes::catalog_image_insert(image),
        sql::made_row(catalog_image_insert_columns(), catalog_image_insert_cells(image)) == Map::empty().insert("host_id"@, writes::bound_text(image.host_id)).insert("thread_id"@, writes::bound_text(image.thread_id)).insert("display_title"@, writes::bound_text(image.display_title)).insert("source_created_at"@, RepairSqlValueView::Real(image.source_created_at)).insert("source_updated_at"@, RepairSqlValueView::Real(image.source_updated_at)).insert("cwd"@, writes::bound_text(image.cwd)).insert("source_kind"@, writes::bound_text(image.source_kind)).insert("source_detail"@, statements::text_or_null(image.source_detail)).insert("model_provider"@, writes::bound_text(image.model_provider)).insert("git_branch"@, statements::text_or_null(image.git_branch)).insert("observation_sequence"@, RepairSqlValueView::Integer(image.observation_sequence)).insert("missing_candidate"@, statements::flag(image.missing_candidate)),
{
    reveal_strlit("INSERT INTO provider_catalog.local_thread_catalog (host_id, thread_id, display_title, source_created_at, source_updated_at, cwd, source_kind, source_detail, model_provider, git_branch, observation_sequence, missing_candidate) VALUES (?1, ?2, ?3, ?4, ?5, ?6, ?7, ?8, ?9, ?10, ?11, ?12)");
    reveal_strlit(" (");
    reveal_strlit(")");
    reveal_strlit(") VALUES (");
    reveal_strlit(", ");
    reveal_strlit("INSERT INTO ");
    reveal_strlit("cwd");
    reveal_strlit("display_title");
    reveal_strlit("git_branch");
    reveal_strlit("host_id");
    reveal_strlit("missing_candidate");
    reveal_strlit("model_provider");
    reveal_strlit("observation_sequence");
    reveal_strlit("provider_catalog.local_thread_catalog");
    reveal_strlit("source_created_at");
    reveal_strlit("source_detail");
    reveal_strlit("source_kind");
    reveal_strlit("source_updated_at");
    reveal_strlit("thread_id");
    let whole = "INSERT INTO provider_catalog.local_thread_catalog (host_id, thread_id, display_title, source_created_at, source_updated_at, cwd, source_kind, source_detail, model_provider, git_branch, observation_sequence, missing_candidate) VALUES (?1, ?2, ?3, ?4, ?5, ?6, ?7, ?8, ?9, ?10, ?11, ?12)"@;
    sql::lemma_marks();
    let front0 = "INSERT INTO "@;
    assert(front0 =~= whole.subrange(0, 12));
    assert("provider_catalog.local_thread_catalog"@ =~= whole.subrange(12, 49));
    sql::lemma_extended(whole, 0, front0, "provider_catalog.local_thread_catalog"@);
    assert(" ("@ =~= whole.subrange(49, 51));
    sql::lemma_extended(whole, 0, front0 + "provider_catalog.local_thread_catalog"@, " ("@);
    let head = front0 + "provider_catalog.local_thread_catalog"@ + " ("@;
    let columns0 = Seq::<Seq<char>>::empty();
    let cells0 = Seq::<Cell>::empty();
    let column1 = "host_id"@;
    let cell1 = Cell::Bound(writes::bound_text(image.host_id));
    sql::lemma_one_cell_more(columns0, cells0, column1, cell1, false);
    let columns1 = columns0.push(column1);
    let cells1 = cells0.push(cell1);
    assert(column1 =~= whole.subrange(51, 58));
    let names1 = column1;
    assert(sql::columns_text(columns1, false) == names1);
    let column2 = "thread_id"@;
    let cell2 = Cell::Bound(writes::bound_text(image.thread_id));
    sql::lemma_one_cell_more(columns1, cells1, column2, cell2, false);
    let columns2 = columns1.push(column2);
    let cells2 = cells1.push(cell2);
    assert(", "@ =~= whole.subrange(58, 60));
    sql::lemma_extended(whole, 51, names1, ", "@);
    assert(column2 =~= whole.subrange(60, 69));
    sql::lemma_extended(whole, 51, names1 + ", "@, column2);
    let names2 = names1 + ", "@ + column2;
    assert(sql::columns_text(columns2, false) == names2);
    let column3 = "display_title"@;
    let cell3 = Cell::Bound(writes::bound_text(image.display_title));
    sql::lemma_one_cell_more(columns2, cells2, column3, cell3, false);
    let columns3 = columns2.push(column3);
    let cells3 = cells2.push(cell3);
    assert(", "@ =~= whole.subrange(69, 71));
    sql::lemma_extended(whole, 51, names2, ", "@);
    assert(column3 =~= whole.subrange(71, 84));
    sql::lemma_extended(whole, 51, names2 + ", "@, column3);
    let names3 = names2 + ", "@ + column3;
    assert(sql::columns_text(columns3, false) == names3);
    let column4 = "source_created_at"@;
    let cell4 = Cell::Bound(RepairSqlValueView::Real(image.source_created_at));
    sql::lemma_one_cell_more(columns3, cells3, column4, cell4, false);
    let columns4 = columns3.push(column4);
    let cells4 = cells3.push(cell4);
    assert(", "@ =~= whole.subrange(84, 86));
    sql::lemma_extended(whole, 51, names3, ", "@);
    assert(column4 =~= whole.subrange(86, 103));
    sql::lemma_extended(whole, 51, names3 + ", "@, column4);
    let names4 = names3 + ", "@ + column4;
    assert(sql::columns_text(columns4, false) == names4);
    let column5 = "source_updated_at"@;
    let cell5 = Cell::Bound(RepairSqlValueView::Real(image.source_updated_at));
    sql::lemma_one_cell_more(columns4, cells4, column5, cell5, false);
    let columns5 = columns4.push(column5);
    let cells5 = cells4.push(cell5);
    assert(", "@ =~= whole.subrange(103, 105));
    sql::lemma_extended(whole, 51, names4, ", "@);
    assert(column5 =~= whole.subrange(105, 122));
    sql::lemma_extended(whole, 51, names4 + ", "@, column5);
    let names5 = names4 + ", "@ + column5;
    assert(sql::columns_text(columns5, false) == names5);
    let column6 = "cwd"@;
    let cell6 = Cell::Bound(writes::bound_text(image.cwd));
    sql::lemma_one_cell_more(columns5, cells5, column6, cell6, false);
    let columns6 = columns5.push(column6);
    let cells6 = cells5.push(cell6);
    assert(", "@ =~= whole.subrange(122, 124));
    sql::lemma_extended(whole, 51, names5, ", "@);
    assert(column6 =~= whole.subrange(124, 127));
    sql::lemma_extended(whole, 51, names5 + ", "@, column6);
    let names6 = names5 + ", "@ + column6;
    assert(sql::columns_text(columns6, false) == names6);
    let column7 = "source_kind"@;
    let cell7 = Cell::Bound(writes::bound_text(image.source_kind));
    sql::lemma_one_cell_more(columns6, cells6, column7, cell7, false);
    let columns7 = columns6.push(column7);
    let cells7 = cells6.push(cell7);
    assert(", "@ =~= whole.subrange(127, 129));
    sql::lemma_extended(whole, 51, names6, ", "@);
    assert(column7 =~= whole.subrange(129, 140));
    sql::lemma_extended(whole, 51, names6 + ", "@, column7);
    let names7 = names6 + ", "@ + column7;
    assert(sql::columns_text(columns7, false) == names7);
    let column8 = "source_detail"@;
    let cell8 = Cell::Bound(statements::text_or_null(image.source_detail));
    sql::lemma_one_cell_more(columns7, cells7, column8, cell8, false);
    let columns8 = columns7.push(column8);
    let cells8 = cells7.push(cell8);
    assert(", "@ =~= whole.subrange(140, 142));
    sql::lemma_extended(whole, 51, names7, ", "@);
    assert(column8 =~= whole.subrange(142, 155));
    sql::lemma_extended(whole, 51, names7 + ", "@, column8);
    let names8 = names7 + ", "@ + column8;
    assert(sql::columns_text(columns8, false) == names8);
    let column9 = "model_provider"@;
    let cell9 = Cell::Bound(writes::bound_text(image.model_provider));
    sql::lemma_one_cell_more(columns8, cells8, column9, cell9, false);
    let columns9 = columns8.push(column9);
    let cells9 = cells8.push(cell9);
    assert(", "@ =~= whole.subrange(155, 157));
    sql::lemma_extended(whole, 51, names8, ", "@);
    assert(column9 =~= whole.subrange(157, 171));
    sql::lemma_extended(whole, 51, names8 + ", "@, column9);
    let names9 = names8 + ", "@ + column9;
    assert(sql::columns_text(columns9, false) == names9);
    let column10 = "git_branch"@;
    let cell10 = Cell::Bound(statements::text_or_null(image.git_branch));
    sql::lemma_one_cell_more(columns9, cells9, column10, cell10, false);
    let columns10 = columns9.push(column10);
    let cells10 = cells9.push(cell10);
    assert(", "@ =~= whole.subrange(171, 173));
    sql::lemma_extended(whole, 51, names9, ", "@);
    assert(column10 =~= whole.subrange(173, 183));
    sql::lemma_extended(whole, 51, names9 + ", "@, column10);
    let names10 = names9 + ", "@ + column10;
    assert(sql::columns_text(columns10, false) == names10);
    let column11 = "observation_sequence"@;
    let cell11 = Cell::Bound(RepairSqlValueView::Integer(image.observation_sequence));
    sql::lemma_one_cell_more(columns10, cells10, column11, cell11, false);
    let columns11 = columns10.push(column11);
    let cells11 = cells10.push(cell11);
    assert(", "@ =~= whole.subrange(183, 185));
    sql::lemma_extended(whole, 51, names10, ", "@);
    assert(column11 =~= whole.subrange(185, 205));
    sql::lemma_extended(whole, 51, names10 + ", "@, column11);
    let names11 = names10 + ", "@ + column11;
    assert(sql::columns_text(columns11, false) == names11);
    let column12 = "missing_candidate"@;
    let cell12 = Cell::Bound(statements::flag(image.missing_candidate));
    sql::lemma_one_cell_more(columns11, cells11, column12, cell12, false);
    let columns12 = columns11.push(column12);
    let cells12 = cells11.push(cell12);
    assert(", "@ =~= whole.subrange(205, 207));
    sql::lemma_extended(whole, 51, names11, ", "@);
    assert(column12 =~= whole.subrange(207, 224));
    sql::lemma_extended(whole, 51, names11 + ", "@, column12);
    let names12 = names11 + ", "@ + column12;
    assert(sql::columns_text(columns12, false) == names12);
    sql::lemma_extended(whole, 0, head, names12);
    let middle = head + names12;
    assert(") VALUES ("@ =~= whole.subrange(224, 234));
    sql::lemma_extended(whole, 0, middle, ") VALUES ("@);
    let long = middle + ") VALUES ("@;
    let item1 = sql::mark(1);
    assert(item1 =~= whole.subrange(234, 236));
    let marks1 = item1;
    assert(sql::cells_values(cells1).len() == 1);
    assert(sql::cells_text(cells1) == marks1);
    assert(", "@ =~= whole.subrange(236, 238));
    sql::lemma_extended(whole, 234, marks1, ", "@);
    let item2 = sql::mark(2);
    assert(item2 =~= whole.subrange(238, 240));
    sql::lemma_extended(whole, 234, marks1 + ", "@, item2);
    let marks2 = marks1 + ", "@ + item2;
    assert(sql::cells_values(cells2).len() == 2);
    assert(sql::cells_text(cells2) == marks2);
    assert(", "@ =~= whole.subrange(240, 242));
    sql::lemma_extended(whole, 234, marks2, ", "@);
    let item3 = sql::mark(3);
    assert(item3 =~= whole.subrange(242, 244));
    sql::lemma_extended(whole, 234, marks2 + ", "@, item3);
    let marks3 = marks2 + ", "@ + item3;
    assert(sql::cells_values(cells3).len() == 3);
    assert(sql::cells_text(cells3) == marks3);
    assert(", "@ =~= whole.subrange(244, 246));
    sql::lemma_extended(whole, 234, marks3, ", "@);
    let item4 = sql::mark(4);
    assert(item4 =~= whole.subrange(246, 248));
    sql::lemma_extended(whole, 234, marks3 + ", "@, item4);
    let marks4 = marks3 + ", "@ + item4;
    assert(sql::cells_values(cells4).len() == 4);
    assert(sql::cells_text(cells4) == marks4);
    assert(", "@ =~= whole.subrange(248, 250));
    sql::lemma_extended(whole, 234, marks4, ", "@);
    let item5 = sql::mark(5);
    assert(item5 =~= whole.subrange(250, 252));
    sql::lemma_extended(whole, 234, marks4 + ", "@, item5);
    let marks5 = marks4 + ", "@ + item5;
    assert(sql::cells_values(cells5).len() == 5);
    assert(sql::cells_text(cells5) == marks5);
    assert(", "@ =~= whole.subrange(252, 254));
    sql::lemma_extended(whole, 234, marks5, ", "@);
    let item6 = sql::mark(6);
    assert(item6 =~= whole.subrange(254, 256));
    sql::lemma_extended(whole, 234, marks5 + ", "@, item6);
    let marks6 = marks5 + ", "@ + item6;
    assert(sql::cells_values(cells6).len() == 6);
    assert(sql::cells_text(cells6) == marks6);
    assert(", "@ =~= whole.subrange(256, 258));
    sql::lemma_extended(whole, 234, marks6, ", "@);
    let item7 = sql::mark(7);
    assert(item7 =~= whole.subrange(258, 260));
    sql::lemma_extended(whole, 234, marks6 + ", "@, item7);
    let marks7 = marks6 + ", "@ + item7;
    assert(sql::cells_values(cells7).len() == 7);
    assert(sql::cells_text(cells7) == marks7);
    assert(", "@ =~= whole.subrange(260, 262));
    sql::lemma_extended(whole, 234, marks7, ", "@);
    let item8 = sql::mark(8);
    assert(item8 =~= whole.subrange(262, 264));
    sql::lemma_extended(whole, 234, marks7 + ", "@, item8);
    let marks8 = marks7 + ", "@ + item8;
    assert(sql::cells_values(cells8).len() == 8);
    assert(sql::cells_text(cells8) == marks8);
    assert(", "@ =~= whole.subrange(264, 266));
    sql::lemma_extended(whole, 234, marks8, ", "@);
    let item9 = sql::mark(9);
    assert(item9 =~= whole.subrange(266, 268));
    sql::lemma_extended(whole, 234, marks8 + ", "@, item9);
    let marks9 = marks8 + ", "@ + item9;
    assert(sql::cells_values(cells9).len() == 9);
    assert(sql::cells_text(cells9) == marks9);
    assert(", "@ =~= whole.subrange(268, 270));
    sql::lemma_extended(whole, 234, marks9, ", "@);
    let item10 = sql::mark(10);
    assert(item10 =~= whole.subrange(270, 273));
    sql::lemma_extended(whole, 234, marks9 + ", "@, item10);
    let marks10 = marks9 + ", "@ + item10;
    assert(sql::cells_values(cells10).len() == 10);
    assert(sql::cells_text(cells10) == marks10);
    assert(", "@ =~= whole.subrange(273, 275));
    sql::lemma_extended(whole, 234, marks10, ", "@);
    let item11 = sql::mark(11);
    assert(item11 =~= whole.subrange(275, 278));
    sql::lemma_extended(whole, 234, marks10 + ", "@, item11);
    let marks11 = marks10 + ", "@ + item11;
    assert(sql::cells_values(cells11).len() == 11);
    assert(sql::cells_text(cells11) == marks11);
    assert(", "@ =~= whole.subrange(278, 280));
    sql::lemma_extended(whole, 234, marks11, ", "@);
    let item12 = sql::mark(12);
    assert(item12 =~= whole.subrange(280, 283));
    sql::lemma_extended(whole, 234, marks11 + ", "@, item12);
    let marks12 = marks11 + ", "@ + item12;
    assert(sql::cells_values(cells12).len() == 12);
    assert(sql::cells_text(cells12) == marks12);
    sql::lemma_extended(whole, 0, long, marks12);
    let almost = long + marks12;
    assert(")"@ =~= whole.subrange(283, 284));
    sql::lemma_extended(whole, 0, almost, ")"@);
    assert(almost + ")"@ =~= whole);
    assert(catalog_image_insert_columns() =~= columns12);
    assert(catalog_image_insert_cells(image) =~= cells12);
    let written = writes::catalog_image_insert(image);
    assert(sql::spelled(catalog_image_insert_command(image)).sql == written.sql);
    assert(sql::spelled(catalog_image_insert_command(image)).values =~= written.values);
}

/// The conditions of the statement.
pub open spec fn catalog_image_delete_conditions(image: RepairCatalogImageView) -> Seq<Condition> {
    seq![
        Condition::Equals { column: "host_id"@, value: writes::bound_text(image.host_id) },
        Condition::Equals { column: "thread_id"@, value: writes::bound_text(image.thread_id) },
        Condition::Equals { column: "display_title"@, value: writes::bound_text(image.display_title) },
        Condition::Equals { column: "source_created_at"@, value: RepairSqlValueView::Real(image.source_created_at) },
        Condition::Equals { column: "source_updated_at"@, value: RepairSqlValueView::Real(image.source_updated_at) },
        Condition::Equals { column: "cwd"@, value: writes::bound_text(image.cwd) },
        Condition::Equals { column: "source_kind"@, value: writes::bound_text(image.source_kind) },
        Condition::Is { column: "source_detail"@, value: statements::text_or_null(image.source_detail) },
        Condition::Equals { column: "model_provider"@, value: writes::bound_text(image.model_provider) },
        Condition::Is { column: "git_branch"@, value: statements::text_or_null(image.git_branch) },
        Condition::Equals { column: "observation_sequence"@, value: RepairSqlValueView::Integer(image.observation_sequence) },
        Condition::Equals { column: "missing_candidate"@, value: statements::flag(image.missing_candidate) },
    ]
}

/// What the statement says.
pub open spec fn catalog_image_delete_command(image: RepairCatalogImageView) -> Command {
    Command::Delete { table: "provider_catalog.local_thread_catalog"@, conditions: catalog_image_delete_conditions(image) }
}

/// The text of the statement, piece by piece.
#[verifier::rlimit(60)]
pub proof fn lemma_catalog_image_delete_reads(image: RepairCatalogImageView)
    ensures
        sql::spelled(catalog_image_delete_command(image)) == writes::catalog_image_delete(image),
        forall|row: RowView| #[trigger] sql::meets_all(row, catalog_image_delete_conditions(image)) <==> sql::meets(row, Condition::Equals { column: "host_id"@, value: writes::bound_text(image.host_id) }) && sql::meets(row, Condition::Equals { column: "thread_id"@, value: writes::bound_text(image.thread_id) }) && sql::meets(row, Condition::Equals { column: "display_title"@, value: writes::bound_text(image.display_title) }) && sql::meets(row, Condition::Equals { column: "source_created_at"@, value: RepairSqlValueView::Real(image.source_created_at) }) && sql::meets(row, Condition::Equals { column: "source_updated_at"@, value: RepairSqlValueView::Real(image.source_updated_at) }) && sql::meets(row, Condition::Equals { column: "cwd"@, value: writes::bound_text(image.cwd) }) && sql::meets(row, Condition::Equals { column: "source_kind"@, value: writes::bound_text(image.source_kind) }) && sql::meets(row, Condition::Is { column: "source_detail"@, value: statements::text_or_null(image.source_detail) }) && sql::meets(row, Condition::Equals { column: "model_provider"@, value: writes::bound_text(image.model_provider) }) && sql::meets(row, Condition::Is { column: "git_branch"@, value: statements::text_or_null(image.git_branch) }) && sql::meets(row, Condition::Equals { column: "observation_sequence"@, value: RepairSqlValueView::Integer(image.observation_sequence) }) && sql::meets(row, Condition::Equals { column: "missing_candidate"@, value: statements::flag(image.missing_candidate) }),
{
    reveal_strlit("DELETE FROM provider_catalog.local_thread_catalog WHERE host_id=?1 AND thread_id=?2 AND display_title=?3 AND source_created_at=?4 AND source_updated_at=?5 AND cwd=?6 AND source_kind=?7 AND source_detail IS ?8 AND model_provider=?9 AND git_branch IS ?10 AND observation_sequence=?11 AND missing_candidate=?12");
    reveal_strlit(" AND ");
    reveal_strlit(" IS ");
    reveal_strlit(" WHERE ");
    reveal_strlit("=");
    reveal_strlit("DELETE FROM ");
    reveal_strlit("cwd");
    reveal_strlit("display_title");
    reveal_strlit("git_branch");
    reveal_strlit("host_id");
    reveal_strlit("missing_candidate");
    reveal_strlit("model_provider");
    reveal_strlit("observation_sequence");
    reveal_strlit("provider_catalog.local_thread_catalog");
    reveal_strlit("source_created_at");
    reveal_strlit("source_detail");
    reveal_strlit("source_kind");
    reveal_strlit("source_updated_at");
    reveal_strlit("thread_id");
    let whole = "DELETE FROM provider_catalog.local_thread_catalog WHERE host_id=?1 AND thread_id=?2 AND display_title=?3 AND source_created_at=?4 AND source_updated_at=?5 AND cwd=?6 AND source_kind=?7 AND source_detail IS ?8 AND model_provider=?9 AND git_branch IS ?10 AND observation_sequence=?11 AND missing_candidate=?12"@;
    sql::lemma_marks();
    let front0 = "DELETE FROM "@;
    assert(front0 =~= whole.subrange(0, 12));
    assert("provider_catalog.local_thread_catalog"@ =~= whole.subrange(12, 49));
    sql::lemma_extended(whole, 0, front0, "provider_catalog.local_thread_catalog"@);
    assert(" WHERE "@ =~= whole.subrange(49, 56));
    sql::lemma_extended(whole, 0, front0 + "provider_catalog.local_thread_catalog"@, " WHERE "@);
    let long = front0 + "provider_catalog.local_thread_catalog"@ + " WHERE "@;
    let cond0 = Seq::<Condition>::empty();
    let cond_item1 = Condition::Equals { column: "host_id"@, value: writes::bound_text(image.host_id) };
    let cond1 = cond0.push(cond_item1);
    sql::lemma_one_condition_more(cond0, cond_item1, "="@, 0);
    let cond_piece1 = "host_id"@ + "="@ + sql::mark(1);
    assert(cond_piece1 =~= whole.subrange(56, 66));
    let cond_text1 = cond_piece1;
    assert(sql::conditions_values(cond1).len() == 1);
    assert(sql::conditions_text(cond1, "="@, 0) == cond_text1);
    let cond_item2 = Condition::Equals { column: "thread_id"@, value: writes::bound_text(image.thread_id) };
    let cond2 = cond1.push(cond_item2);
    sql::lemma_one_condition_more(cond1, cond_item2, "="@, 0);
    assert(" AND "@ =~= whole.subrange(66, 71));
    sql::lemma_extended(whole, 56, cond_text1, " AND "@);
    let cond_piece2 = "thread_id"@ + "="@ + sql::mark(2);
    assert(cond_piece2 =~= whole.subrange(71, 83));
    sql::lemma_extended(whole, 56, cond_text1 + " AND "@, cond_piece2);
    let cond_text2 = cond_text1 + " AND "@ + cond_piece2;
    assert(sql::conditions_values(cond2).len() == 2);
    assert(sql::conditions_text(cond2, "="@, 0) == cond_text2);
    let cond_item3 = Condition::Equals { column: "display_title"@, value: writes::bound_text(image.display_title) };
    let cond3 = cond2.push(cond_item3);
    sql::lemma_one_condition_more(cond2, cond_item3, "="@, 0);
    assert(" AND "@ =~= whole.subrange(83, 88));
    sql::lemma_extended(whole, 56, cond_text2, " AND "@);
    let cond_piece3 = "display_title"@ + "="@ + sql::mark(3);
    assert(cond_piece3 =~= whole.subrange(88, 104));
    sql::lemma_extended(whole, 56, cond_text2 + " AND "@, cond_piece3);
    let cond_text3 = cond_text2 + " AND "@ + cond_piece3;
    assert(sql::conditions_values(cond3).len() == 3);
    assert(sql::conditions_text(cond3, "="@, 0) == cond_text3);
    let cond_item4 = Condition::Equals { column: "source_created_at"@, value: RepairSqlValueView::Real(image.source_created_at) };
    let cond4 = cond3.push(cond_item4);
    sql::lemma_one_condition_more(cond3, cond_item4, "="@, 0);
    assert(" AND "@ =~= whole.subrange(104, 109));
    sql::lemma_extended(whole, 56, cond_text3, " AND "@);
    let cond_piece4 = "source_created_at"@ + "="@ + sql::mark(4);
    assert(cond_piece4 =~= whole.subrange(109, 129));
    sql::lemma_extended(whole, 56, cond_text3 + " AND "@, cond_piece4);
    let cond_text4 = cond_text3 + " AND "@ + cond_piece4;
    assert(sql::conditions_values(cond4).len() == 4);
    assert(sql::conditions_text(cond4, "="@, 0) == cond_text4);
    let cond_item5 = Condition::Equals { column: "source_updated_at"@, value: RepairSqlValueView::Real(image.source_updated_at) };
    let cond5 = cond4.push(cond_item5);
    sql::lemma_one_condition_more(cond4, cond_item5, "="@, 0);
    assert(" AND "@ =~= whole.subrange(129, 134));
    sql::lemma_extended(whole, 56, cond_text4, " AND "@);
    let cond_piece5 = "source_updated_at"@ + "="@ + sql::mark(5);
    assert(cond_piece5 =~= whole.subrange(134, 154));
    sql::lemma_extended(whole, 56, cond_text4 + " AND "@, cond_piece5);
    let cond_text5 = cond_text4 + " AND "@ + cond_piece5;
    assert(sql::conditions_values(cond5).len() == 5);
    assert(sql::conditions_text(cond5, "="@, 0) == cond_text5);
    let cond_item6 = Condition::Equals { column: "cwd"@, value: writes::bound_text(image.cwd) };
    let cond6 = cond5.push(cond_item6);
    sql::lemma_one_condition_more(cond5, cond_item6, "="@, 0);
    assert(" AND "@ =~= whole.subrange(154, 159));
    sql::lemma_extended(whole, 56, cond_text5, " AND "@);
    let cond_piece6 = "cwd"@ + "="@ + sql::mark(6);
    assert(cond_piece6 =~= whole.subrange(159, 165));
    sql::lemma_extended(whole, 56, cond_text5 + " AND "@, cond_piece6);
    let cond_text6 = cond_text5 + " AND "@ + cond_piece6;
    assert(sql::conditions_values(cond6).len() == 6);
    assert(sql::conditions_text(cond6, "="@, 0) == cond_text6);
    let cond_item7 = Condition::Equals { column: "source_kind"@, value: writes::bound_text(image.source_kind) };
    let cond7 = cond6.push(cond_item7);
    sql::lemma_one_condition_more(cond6, cond_item7, "="@, 0);
    assert(" AND "@ =~= whole.subrange(165, 170));
    sql::lemma_extended(whole, 56, cond_text6, " AND "@);
    let cond_piece7 = "source_kind"@ + "="@ + sql::mark(7);
    assert(cond_piece7 =~= whole.subrange(170, 184));
    sql::lemma_extended(whole, 56, cond_text6 + " AND "@, cond_piece7);
    let cond_text7 = cond_text6 + " AND "@ + cond_piece7;
    assert(sql::conditions_values(cond7).len() == 7);
    assert(sql::conditions_text(cond7, "="@, 0) == cond_text7);
    let cond_item8 = Condition::Is { column: "source_detail"@, value: statements::text_or_null(image.source_detail) };
    let cond8 = cond7.push(cond_item8);
    sql::lemma_one_condition_more(cond7, cond_item8, "="@, 0);
    assert(" AND "@ =~= whole.subrange(184, 189));
    sql::lemma_extended(whole, 56, cond_text7, " AND "@);
    let cond_piece8 = "source_detail"@ + " IS "@ + sql::mark(8);
    assert(cond_piece8 =~= whole.subrange(189, 208));
    sql::lemma_extended(whole, 56, cond_text7 + " AND "@, cond_piece8);
    let cond_text8 = cond_text7 + " AND "@ + cond_piece8;
    assert(sql::conditions_values(cond8).len() == 8);
    assert(sql::conditions_text(cond8, "="@, 0) == cond_text8);
    let cond_item9 = Condition::Equals { column: "model_provider"@, value: writes::bound_text(image.model_provider) };
    let cond9 = cond8.push(cond_item9);
    sql::lemma_one_condition_more(cond8, cond_item9, "="@, 0);
    assert(" AND "@ =~= whole.subrange(208, 213));
    sql::lemma_extended(whole, 56, cond_text8, " AND "@);
    let cond_piece9 = "model_provider"@ + "="@ + sql::mark(9);
    assert(cond_piece9 =~= whole.subrange(213, 230));
    sql::lemma_extended(whole, 56, cond_text8 + " AND "@, cond_piece9);
    let cond_text9 = cond_text8 + " AND "@ + cond_piece9;
    assert(sql::conditions_values(cond9).len() == 9);
    assert(sql::conditions_text(cond9, "="@, 0) == cond_text9);
    let cond_item10 = Condition::Is { column: "git_branch"@, value: statements::text_or_null(image.git_branch) };
    let cond10 = cond9.push(cond_item10);
    sql::lemma_one_condition_more(cond9, cond_item10, "="@, 0);
    assert(" AND "@ =~= whole.subrange(230, 235));
    sql::lemma_extended(whole, 56, cond_text9, " AND "@);
    let cond_piece10 = "git_branch"@ + " IS "@ + sql::mark(10);
    assert(cond_piece10 =~= whole.subrange(235, 252));
    sql::lemma_extended(whole, 56, cond_text9 + " AND "@, cond_piece10);
    let cond_text10 = cond_text9 + " AND "@ + cond_piece10;
    assert(sql::conditions_values(cond10).len() == 10);
    assert(sql::conditions_text(cond10, "="@, 0) == cond_text10);
    let cond_item11 = Condition::Equals { column: "observation_sequence"@, value: RepairSqlValueView::Integer(image.observation_sequence) };
    let cond11 = cond10.push(cond_item11);
    sql::lemma_one_condition_more(cond10, cond_item11, "="@, 0);
    assert(" AND "@ =~= whole.subrange(252, 257));
    sql::lemma_extended(whole, 56, cond_text10, " AND "@);
    let cond_piece11 = "observation_sequence"@ + "="@ + sql::mark(11);
    assert(cond_piece11 =~= whole.subrange(257, 281));
    sql::lemma_extended(whole, 56, cond_text10 + " AND "@, cond_piece11);
    let cond_text11 = cond_text10 + " AND "@ + cond_piece11;
    assert(sql::conditions_values(cond11).len() == 11);
    assert(sql::conditions_text(cond11, "="@, 0) == cond_text11);
    let cond_item12 = Condition::Equals { column: "missing_candidate"@, value: statements::flag(image.missing_candidate) };
    let cond12 = cond11.push(cond_item12);
    sql::lemma_one_condition_more(cond11, cond_item12, "="@, 0);
    assert(" AND "@ =~= whole.subrange(281, 286));
    sql::lemma_extended(whole, 56, cond_text11, " AND "@);
    let cond_piece12 = "missing_candidate"@ + "="@ + sql::mark(12);
    assert(cond_piece12 =~= whole.subrange(286, 307));
    sql::lemma_extended(whole, 56, cond_text11 + " AND "@, cond_piece12);
    let cond_text12 = cond_text11 + " AND "@ + cond_piece12;
    assert(sql::conditions_values(cond12).len() == 12);
    assert(sql::conditions_text(cond12, "="@, 0) == cond_text12);
    sql::lemma_extended(whole, 0, long, cond_text12);
    assert(long + cond_text12 =~= whole);
    assert(catalog_image_delete_conditions(image) =~= cond12);
    let written = writes::catalog_image_delete(image);
    assert(sql::spelled(catalog_image_delete_command(image)).sql == written.sql);
    assert(sql::spelled(catalog_image_delete_command(image)).values =~= written.values);
}

/// The assignments of the statement.
pub open spec fn catalog_image_restore_sets(entry: RepairCatalogJournalView, before: RepairCatalogImageView, after: RepairCatalogImageView) -> Seq<Assignment> {
    seq![
        Assignment::Put { column: "model_provider"@, value: writes::bound_text(before.model_provider) },
        Assignment::Put { column: "missing_candidate"@, value: statements::flag(before.missing_candidate) },
        Assignment::Swap { column: "observation_sequence"@, from: RepairSqlValueView::Integer(after.observation_sequence), to: RepairSqlValueView::Integer(before.observation_sequence) },
    ]
}

/// The conditions of the statement.
pub open spec fn catalog_image_restore_conditions(entry: RepairCatalogJournalView, before: RepairCatalogImageView, after: RepairCatalogImageView) -> Seq<Condition> {
    seq![
        Condition::Equals { column: "host_id"@, value: writes::bound_text(entry.host_id) },
        Condition::Equals { column: "thread_id"@, value: writes::bound_text(entry.thread_id) },
        Condition::Equals { column: "model_provider"@, value: writes::bound_text(after.model_provider) },
        Condition::Equals { column: "missing_candidate"@, value: statements::flag(after.missing_candidate) },
    ]
}

/// What the statement says.
pub open spec fn catalog_image_restore_command(entry: RepairCatalogJournalView, before: RepairCatalogImageView, after: RepairCatalogImageView) -> Command {
    Command::Update { table: "provider_catalog.local_thread_catalog"@, quoted: false, equals: "="@, sets: catalog_image_restore_sets(entry, before, after), conditions: catalog_image_restore_conditions(entry, before, after) }
}

/// The text of the statement, piece by piece.
#[verifier::rlimit(60)]
pub proof fn lemma_catalog_image_restore_reads(entry: RepairCatalogJournalView, before: RepairCatalogImageView, after: RepairCatalogImageView)
    ensures
        sql::spelled(catalog_image_restore_command(entry, before, after)) == writes::catalog_image_restore(entry, before, after),
        forall|row: RowView| #[trigger] sql::sets_in(row, catalog_image_restore_sets(entry, before, after)) == sql::set_in(row, sql::set_in(row, sql::set_in(row, row, Assignment::Put { column: "model_provider"@, value: writes::bound_text(before.model_provider) }), Assignment::Put { column: "missing_candidate"@, value: statements::flag(before.missing_candidate) }), Assignment::Swap { column: "observation_sequence"@, from: RepairSqlValueView::Integer(after.observation_sequence), to: RepairSqlValueView::Integer(before.observation_sequence) }),
        forall|row: RowView| #[trigger] sql::meets_all(row, catalog_image_restore_conditions(entry, before, after)) <==> sql::meets(row, Condition::Equals { column: "host_id"@, value: writes::bound_text(entry.host_id) }) && sql::meets(row, Condition::Equals { column: "thread_id"@, value: writes::bound_text(entry.thread_id) }) && sql::meets(row, Condition::Equals { column: "model_provider"@, value: writes::bound_text(after.model_provider) }) && sql::meets(row, Condition::Equals { column: "missing_candidate"@, value: statements::flag(after.missing_candidate) }),
{
    reveal_strlit("UPDATE provider_catalog.local_thread_catalog SET model_provider=?1, missing_candidate=?2, observation_sequence=CASE WHEN observation_sequence=?3 THEN ?4 ELSE observation_sequence END WHERE host_id=?5 AND thread_id=?6 AND model_provider=?7 AND missing_candidate=?8");
    reveal_strlit(" AND ");
    reveal_strlit(" ELSE ");
    reveal_strlit(" END");
    reveal_strlit(" SET ");
    reveal_strlit(" THEN ");
    reveal_strlit(" WHERE ");
    reveal_strlit(", ");
    reveal_strlit("=");
    reveal_strlit("CASE WHEN ");
    reveal_strlit("UPDATE ");
    reveal_strlit("host_id");
    reveal_strlit("missing_candidate");
    reveal_strlit("model_provider");
    reveal_strlit("observation_sequence");
    reveal_strlit("provider_catalog.local_thread_catalog");
    reveal_strlit("thread_id");
    let whole = "UPDATE provider_catalog.local_thread_catalog SET model_provider=?1, missing_candidate=?2, observation_sequence=CASE WHEN observation_sequence=?3 THEN ?4 ELSE observation_sequence END WHERE host_id=?5 AND thread_id=?6 AND model_provider=?7 AND missing_candidate=?8"@;
    sql::lemma_marks();
    let front0 = "UPDATE "@;
    assert(front0 =~= whole.subrange(0, 7));
    assert("provider_catalog.local_thread_catalog"@ =~= whole.subrange(7, 44));
    sql::lemma_extended(whole, 0, front0, "provider_catalog.local_thread_catalog"@);
    assert(" SET "@ =~= whole.subrange(44, 49));
    sql::lemma_extended(whole, 0, front0 + "provider_catalog.local_thread_catalog"@, " SET "@);
    let head = front0 + "provider_catalog.local_thread_catalog"@ + " SET "@;
    let set0 = Seq::<Assignment>::empty();
    let set_item1 = Assignment::Put { column: "model_provider"@, value: writes::bound_text(before.model_provider) };
    let set1 = set0.push(set_item1);
    sql::lemma_one_set_more(set0, set_item1, false, "="@);
    let set_piece1 = "model_provider"@ + "="@ + sql::mark(1);
    assert(set_piece1 =~= whole.subrange(49, 66));
    let set_text1 = set_piece1;
    assert(sql::sets_values(set1).len() == 1);
    assert(sql::sets_text(set1, false, "="@) == set_text1);
    let set_item2 = Assignment::Put { column: "missing_candidate"@, value: statements::flag(before.missing_candidate) };
    let set2 = set1.push(set_item2);
    sql::lemma_one_set_more(set1, set_item2, false, "="@);
    assert(", "@ =~= whole.subrange(66, 68));
    sql::lemma_extended(whole, 49, set_text1, ", "@);
    let set_piece2 = "missing_candidate"@ + "="@ + sql::mark(2);
    assert(set_piece2 =~= whole.subrange(68, 88));
    sql::lemma_extended(whole, 49, set_text1 + ", "@, set_piece2);
    let set_text2 = set_text1 + ", "@ + set_piece2;
    assert(sql::sets_values(set2).len() == 2);
    assert(sql::sets_text(set2, false, "="@) == set_text2);
    let set_item3 = Assignment::Swap { column: "observation_sequence"@, from: RepairSqlValueView::Integer(after.observation_sequence), to: RepairSqlValueView::Integer(before.observation_sequence) };
    let set3 = set2.push(set_item3);
    sql::lemma_one_set_more(set2, set_item3, false, "="@);
    assert(", "@ =~= whole.subrange(88, 90));
    sql::lemma_extended(whole, 49, set_text2, ", "@);
    let set_piece3 = "observation_sequence"@ + "="@ + "CASE WHEN "@ + "observation_sequence"@ + "="@ + sql::mark(3) + " THEN "@ + sql::mark(4) + " ELSE "@ + "observation_sequence"@ + " END"@;
    assert(set_piece3 =~= whole.subrange(90, 182));
    sql::lemma_extended(whole, 49, set_text2 + ", "@, set_piece3);
    let set_text3 = set_text2 + ", "@ + set_piece3;
    assert(sql::sets_values(set3).len() == 4);
    assert(sql::sets_text(set3, false, "="@) == set_text3);
    let set_whole = set_text3;
    sql::lemma_extended(whole, 0, head, set_whole);
    let middle = head + set_whole;
    assert(" WHERE "@ =~= whole.subrange(182, 189));
    sql::lemma_extended(whole, 0, middle, " WHERE "@);
    let long = middle + " WHERE "@;
    let cond0 = Seq::<Condition>::empty();
    let cond_item1 = Condition::Equals { column: "host_id"@, value: writes::bound_text(entry.host_id) };
    let cond1 = cond0.push(cond_item1);
    sql::lemma_one_condition_more(cond0, cond_item1, "="@, 4);
    let cond_piece1 = "host_id"@ + "="@ + sql::mark(5);
    assert(cond_piece1 =~= whole.subrange(189, 199));
    let cond_text1 = cond_piece1;
    assert(sql::conditions_values(cond1).len() == 1);
    assert(sql::conditions_text(cond1, "="@, 4) == cond_text1);
    let cond_item2 = Condition::Equals { column: "thread_id"@, value: writes::bound_text(entry.thread_id) };
    let cond2 = cond1.push(cond_item2);
    sql::lemma_one_condition_more(cond1, cond_item2, "="@, 4);
    assert(" AND "@ =~= whole.subrange(199, 204));
    sql::lemma_extended(whole, 189, cond_text1, " AND "@);
    let cond_piece2 = "thread_id"@ + "="@ + sql::mark(6);
    assert(cond_piece2 =~= whole.subrange(204, 216));
    sql::lemma_extended(whole, 189, cond_text1 + " AND "@, cond_piece2);
    let cond_text2 = cond_text1 + " AND "@ + cond_piece2;
    assert(sql::conditions_values(cond2).len() == 2);
    assert(sql::conditions_text(cond2, "="@, 4) == cond_text2);
    let cond_item3 = Condition::Equals { column: "model_provider"@, value: writes::bound_text(after.model_provider) };
    let cond3 = cond2.push(cond_item3);
    sql::lemma_one_condition_more(cond2, cond_item3, "="@, 4);
    assert(" AND "@ =~= whole.subrange(216, 221));
    sql::lemma_extended(whole, 189, cond_text2, " AND "@);
    let cond_piece3 = "model_provider"@ + "="@ + sql::mark(7);
    assert(cond_piece3 =~= whole.subrange(221, 238));
    sql::lemma_extended(whole, 189, cond_text2 + " AND "@, cond_piece3);
    let cond_text3 = cond_text2 + " AND "@ + cond_piece3;
    assert(sql::conditions_values(cond3).len() == 3);
    assert(sql::conditions_text(cond3, "="@, 4) == cond_text3);
    let cond_item4 = Condition::Equals { column: "missing_candidate"@, value: statements::flag(after.missing_candidate) };
    let cond4 = cond3.push(cond_item4);
    sql::lemma_one_condition_more(cond3, cond_item4, "="@, 4);
    assert(" AND "@ =~= whole.subrange(238, 243));
    sql::lemma_extended(whole, 189, cond_text3, " AND "@);
    let cond_piece4 = "missing_candidate"@ + "="@ + sql::mark(8);
    assert(cond_piece4 =~= whole.subrange(243, 263));
    sql::lemma_extended(whole, 189, cond_text3 + " AND "@, cond_piece4);
    let cond_text4 = cond_text3 + " AND "@ + cond_piece4;
    assert(sql::conditions_values(cond4).len() == 4);
    assert(sql::conditions_text(cond4, "="@, 4) == cond_text4);
    sql::lemma_extended(whole, 0, long, cond_text4);
    assert(long + cond_text4 =~= whole);
    assert(catalog_image_restore_sets(entry, before, after) =~= set3);
    assert(catalog_image_restore_conditions(entry, before, after) =~= cond4);
    let written = writes::catalog_image_restore(entry, before, after);
    assert(sql::spelled(catalog_image_restore_command(entry, before, after)).sql == written.sql);
    assert(sql::spelled(catalog_image_restore_command(entry, before, after)).values =~= written.values);
}

/// The assignments of the statement.
pub open spec fn provider_undo_sets(thread_id: Seq<char>, provider_before: Seq<char>, provider_after: Seq<char>) -> Seq<Assignment> {
    seq![
        Assignment::Put { column: "model_provider"@, value: writes::bound_text(provider_before) },
    ]
}

/// The conditions of the statement.
pub open spec fn provider_undo_conditions(thread_id: Seq<char>, provider_before: Seq<char>, provider_after: Seq<char>) -> Seq<Condition> {
    seq![
        Condition::Equals { column: "id"@, value: writes::bound_text(thread_id) },
        Condition::Equals { column: "model_provider"@, value: writes::bound_text(provider_after) },
    ]
}

/// What the statement says.
pub open spec fn provider_undo_command(thread_id: Seq<char>, provider_before: Seq<char>, provider_after: Seq<char>) -> Command {
    Command::Update { table: "threads"@, quoted: false, equals: "="@, sets: provider_undo_sets(thread_id, provider_before, provider_after), conditions: provider_undo_conditions(thread_id, provider_before, provider_after) }
}

/// The text of the statement, piece by piece.
#[verifier::rlimit(60)]
pub proof fn lemma_provider_undo_reads(thread_id: Seq<char>, provider_before: Seq<char>, provider_after: Seq<char>)
    ensures
        sql::spelled(provider_undo_command(thread_id, provider_before, provider_after)) == writes::undo_write(RecoveryActionView::StateProvider { thread_id, provider_before, provider_after })->0,
        forall|row: RowView| #[trigger] sql::sets_in(row, provider_undo_sets(thread_id, provider_before, provider_after)) == sql::set_in(row, row, Assignment::Put { column: "model_provider"@, value: writes::bound_text(provider_before) }),
        forall|row: RowView| #[trigger] sql::meets_all(row, provider_undo_conditions(thread_id, provider_before, provider_after)) <==> sql::meets(row, Condition::Equals { column: "id"@, value: writes::bound_text(thread_id) }) && sql::meets(row, Condition::Equals { column: "model_provider"@, value: writes::bound_text(provider_after) }),
{
    reveal_strlit("UPDATE threads SET model_provider=?1 WHERE id=?2 AND model_provider=?3");
    reveal_strlit(" AND ");
    reveal_strlit(" SET ");
    reveal_strlit(" WHERE ");
    reveal_strlit("=");
    reveal_strlit("UPDATE ");
    reveal_strlit("id");
    reveal_strlit("model_provider");
    reveal_strlit("threads");
    let whole = "UPDATE threads SET model_provider=?1 WHERE id=?2 AND model_provider=?3"@;
    sql::lemma_marks();
    let front0 = "UPDATE "@;
    assert(front0 =~= whole.subrange(0, 7));
    assert("threads"@ =~= whole.subrange(7, 14));
    sql::lemma_extended(whole, 0, front0, "threads"@);
    assert(" SET "@ =~= whole.subrange(14, 19));
    sql::lemma_extended(whole, 0, front0 + "threads"@, " SET "@);
    let head = front0 + "threads"@ + " SET "@;
    let set0 = Seq::<Assignment>::empty();
    let set_item1 = Assignment::Put { column: "model_provider"@, value: writes::bound_text(provider_before) };
    let set1 = set0.push(set_item1);
    sql::lemma_one_set_more(set0, set_item1, false, "="@);
    let set_piece1 = "model_provider"@ + "="@ + sql::mark(1);
    assert(set_piece1 =~= whole.subrange(19, 36));
    let set_text1 = set_piece1;
    assert(sql::sets_values(set1).len() == 1);
    assert(sql::sets_text(set1, false, "="@) == set_text1);
    let set_whole = set_text1;
    sql::lemma_extended(whole, 0, head, set_whole);
    let middle = head + set_whole;
    assert(" WHERE "@ =~= whole.subrange(36, 43));
    sql::lemma_extended(whole, 0, middle, " WHERE "@);
    let long = middle + " WHERE "@;
    let cond0 = Seq::<Condition>::empty();
    let cond_item1 = Condition::Equals { column: "id"@, value: writes::bound_text(thread_id) };
    let cond1 = cond0.push(cond_item1);
    sql::lemma_one_condition_more(cond0, cond_item1, "="@, 1);
    let cond_piece1 = "id"@ + "="@ + sql::mark(2);
    assert(cond_piece1 =~= whole.subrange(43, 48));
    let cond_text1 = cond_piece1;
    assert(sql::conditions_values(cond1).len() == 1);
    assert(sql::conditions_text(cond1, "="@, 1) == cond_text1);
    let cond_item2 = Condition::Equals { column: "model_provider"@, value: writes::bound_text(provider_after) };
    let cond2 = cond1.push(cond_item2);
    sql::lemma_one_condition_more(cond1, cond_item2, "="@, 1);
    assert(" AND "@ =~= whole.subrange(48, 53));
    sql::lemma_extended(whole, 43, cond_text1, " AND "@);
    let cond_piece2 = "model_provider"@ + "="@ + sql::mark(3);
    assert(cond_piece2 =~= whole.subrange(53, 70));
    sql::lemma_extended(whole, 43, cond_text1 + " AND "@, cond_piece2);
    let cond_text2 = cond_text1 + " AND "@ + cond_piece2;
    assert(sql::conditions_values(cond2).len() == 2);
    assert(sql::conditions_text(cond2, "="@, 1) == cond_text2);
    sql::lemma_extended(whole, 0, long, cond_text2);
    assert(long + cond_text2 =~= whole);
    assert(provider_undo_sets(thread_id, provider_before, provider_after) =~= set1);
    assert(provider_undo_conditions(thread_id, provider_before, provider_after) =~= cond2);
    let written = writes::undo_write(RecoveryActionView::StateProvider { thread_id, provider_before, provider_after })->0;
    assert(sql::spelled(provider_undo_command(thread_id, provider_before, provider_after)).sql == written.sql);
    assert(sql::spelled(provider_undo_command(thread_id, provider_before, provider_after)).values =~= written.values);
}

/// The assignments of the statement.
pub open spec fn sequence_undo_sets(sequence_before: i64, sequence_after: i64) -> Seq<Assignment> {
    seq![
        Assignment::Put { column: "observation_sequence"@, value: RepairSqlValueView::Integer(sequence_before) },
    ]
}

/// The conditions of the statement.
pub open spec fn sequence_undo_conditions(sequence_before: i64, sequence_after: i64) -> Seq<Condition> {
    seq![
        Condition::Written { column: "host_id"@, written: "'local'"@, value: writes::bound_text("local"@) },
        Condition::Equals { column: "observation_sequence"@, value: RepairSqlValueView::Integer(sequence_after) },
    ]
}

/// What the statement says.
pub open spec fn sequence_undo_command(sequence_before: i64, sequence_after: i64) -> Command {
    Command::Update { table: "provider_catalog.local_thread_catalog_sync_state"@, quoted: false, equals: "="@, sets: sequence_undo_sets(sequence_before, sequence_after), conditions: sequence_undo_conditions(sequence_before, sequence_after) }
}

/// The text of the statement, piece by piece.
#[verifier::rlimit(60)]
pub proof fn lemma_sequence_undo_reads(sequence_before: i64, sequence_after: i64)
    ensures
        sql::spelled(sequence_undo_command(sequence_before, sequence_after)) == writes::undo_write(RecoveryActionView::ObservationSequence { sequence_before, sequence_after })->0,
        forall|row: RowView| #[trigger] sql::sets_in(row, sequence_undo_sets(sequence_before, sequence_after)) == sql::set_in(row, row, Assignment::Put { column: "observation_sequence"@, value: RepairSqlValueView::Integer(sequence_before) }),
        forall|row: RowView| #[trigger] sql::meets_all(row, sequence_undo_conditions(sequence_before, sequence_after)) <==> sql::meets(row, Condition::Written { column: "host_id"@, written: "'local'"@, value: writes::bound_text("local"@) }) && sql::meets(row, Condition::Equals { column: "observation_sequence"@, value: RepairSqlValueView::Integer(sequence_after) }),
{
    reveal_strlit("UPDATE provider_catalog.local_thread_catalog_sync_state SET observation_sequence=?1 WHERE host_id='local' AND observation_sequence=?2");
    reveal_strlit(" AND ");
    reveal_strlit(" SET ");
    reveal_strlit(" WHERE ");
    reveal_strlit("'local'");
    reveal_strlit("=");
    reveal_strlit("UPDATE ");
    reveal_strlit("host_id");
    reveal_strlit("observation_sequence");
    reveal_strlit("provider_catalog.local_thread_catalog_sync_state");
    let whole = "UPDATE provider_catalog.local_thread_catalog_sync_state SET observation_sequence=?1 WHERE host_id='local' AND observation_sequence=?2"@;
    sql::lemma_marks();
    let front0 = "UPDATE "@;
    assert(front0 =~= whole.subrange(0, 7));
    assert("provider_catalog.local_thread_catalog_sync_state"@ =~= whole.subrange(7, 55));
    sql::lemma_extended(whole, 0, front0, "provider_catalog.local_thread_catalog_sync_state"@);
    assert(" SET "@ =~= whole.subrange(55, 60));
    sql::lemma_extended(whole, 0, front0 + "provider_catalog.local_thread_catalog_sync_state"@, " SET "@);
    let head = front0 + "provider_catalog.local_thread_catalog_sync_state"@ + " SET "@;
    let set0 = Seq::<Assignment>::empty();
    let set_item1 = Assignment::Put { column: "observation_sequence"@, value: RepairSqlValueView::Integer(sequence_before) };
    let set1 = set0.push(set_item1);
    sql::lemma_one_set_more(set0, set_item1, false, "="@);
    let set_piece1 = "observation_sequence"@ + "="@ + sql::mark(1);
    assert(set_piece1 =~= whole.subrange(60, 83));
    let set_text1 = set_piece1;
    assert(sql::sets_values(set1).len() == 1);
    assert(sql::sets_text(set1, false, "="@) == set_text1);
    let set_whole = set_text1;
    sql::lemma_extended(whole, 0, head, set_whole);
    let middle = head + set_whole;
    assert(" WHERE "@ =~= whole.subrange(83, 90));
    sql::lemma_extended(whole, 0, middle, " WHERE "@);
    let long = middle + " WHERE "@;
    let cond0 = Seq::<Condition>::empty();
    let cond_item1 = Condition::Written { column: "host_id"@, written: "'local'"@, value: writes::bound_text("local"@) };
    let cond1 = cond0.push(cond_item1);
    sql::lemma_one_condition_more(cond0, cond_item1, "="@, 1);
    let cond_piece1 = "host_id"@ + "="@ + "'local'"@;
    assert(cond_piece1 =~= whole.subrange(90, 105));
    let cond_text1 = cond_piece1;
    assert(sql::conditions_values(cond1).len() == 0);
    assert(sql::conditions_text(cond1, "="@, 1) == cond_text1);
    let cond_item2 = Condition::Equals { column: "observation_sequence"@, value: RepairSqlValueView::Integer(sequence_after) };
    let cond2 = cond1.push(cond_item2);
    sql::lemma_one_condition_more(cond1, cond_item2, "="@, 1);
    assert(" AND "@ =~= whole.subrange(105, 110));
    sql::lemma_extended(whole, 90, cond_text1, " AND "@);
    let cond_piece2 = "observation_sequence"@ + "="@ + sql::mark(2);
    assert(cond_piece2 =~= whole.subrange(110, 133));
    sql::lemma_extended(whole, 90, cond_text1 + " AND "@, cond_piece2);
    let cond_text2 = cond_text1 + " AND "@ + cond_piece2;
    assert(sql::conditions_values(cond2).len() == 1);
    assert(sql::conditions_text(cond2, "="@, 1) == cond_text2);
    sql::lemma_extended(whole, 0, long, cond_text2);
    assert(long + cond_text2 =~= whole);
    assert(sequence_undo_sets(sequence_before, sequence_after) =~= set1);
    assert(sequence_undo_conditions(sequence_before, sequence_after) =~= cond2);
    let written = writes::undo_write(RecoveryActionView::ObservationSequence { sequence_before, sequence_after })->0;
    assert(sql::spelled(sequence_undo_command(sequence_before, sequence_after)).sql == written.sql);
    assert(sql::spelled(sequence_undo_command(sequence_before, sequence_after)).values =~= written.values);
}

/// The assignments of the statement.
pub open spec fn revision_undo_sets(revision_before: i64, revision_after: i64) -> Seq<Assignment> {
    seq![
        Assignment::Put { column: "catalog_revision"@, value: RepairSqlValueView::Integer(revision_before) },
    ]
}

/// The conditions of the statement.
pub open spec fn revision_undo_conditions(revision_before: i64, revision_after: i64) -> Seq<Condition> {
    seq![
        Condition::Written { column: "id"@, written: "1"@, value: RepairSqlValueView::Integer(1) },
        Condition::Equals { column: "catalog_revision"@, value: RepairSqlValueView::Integer(revision_after) },
    ]
}

/// What the statement says.
pub open spec fn revision_undo_command(revision_before: i64, revision_after: i64) -> Command {
    Command::Update { table: "provider_catalog.local_thread_catalog_metadata"@, quoted: false, equals: "="@, sets: revision_undo_sets(revision_before, revision_after), conditions: revision_undo_conditions(revision_before, revision_after) }
}

/// The text of the statement, piece by piece.
#[verifier::rlimit(60)]
pub proof fn lemma_revision_undo_reads(revision_before: i64, revision_after: i64)
    ensures
        sql::spelled(revision_undo_command(revision_before, revision_after)) == writes::undo_write(RecoveryActionView::CatalogRevision { revision_before, revision_after })->0,
        forall|row: RowView| #[trigger] sql::sets_in(row, revision_undo_sets(revision_before, revision_after)) == sql::set_in(row, row, Assignment::Put { column: "catalog_revision"@, value: RepairSqlValueView::Integer(revision_before) }),
        forall|row: RowView| #[trigger] sql::meets_all(row, revision_undo_conditions(revision_before, revision_after)) <==> sql::meets(row, Condition::Written { column: "id"@, written: "1"@, value: RepairSqlValueView::Integer(1) }) && sql::meets(row, Condition::Equals { column: "catalog_revision"@, value: RepairSqlValueView::Integer(revision_after) }),
{
    reveal_strlit("UPDATE provider_catalog.local_thread_catalog_metadata SET catalog_revision=?1 WHERE id=1 AND catalog_revision=?2");
    reveal_strlit(" AND ");
    reveal_strlit(" SET ");
    reveal_strlit(" WHERE ");
    reveal_strlit("1");
    reveal_strlit("=");
    reveal_strlit("UPDATE ");
    reveal_strlit("catalog_revision");
    reveal_strlit("id");
    reveal_strlit("provider_catalog.local_thread_catalog_metadata");
    let whole = "UPDATE provider_catalog.local_thread_catalog_metadata SET catalog_revision=?1 WHERE id=1 AND catalog_revision=?2"@;
    sql::lemma_marks();
    let front0 = "UPDATE "@;
    assert(front0 =~= whole.subrange(0, 7));
    assert("provider_catalog.local_thread_catalog_metadata"@ =~= whole.subrange(7, 53));
    sql::lemma_extended(whole, 0, front0, "provider_catalog.local_thread_catalog_metadata"@);
    assert(" SET "@ =~= whole.subrange(53, 58));
    sql::lemma_extended(whole, 0, front0 + "provider_catalog.local_thread_catalog_metadata"@, " SET "@);
    let head = front0 + "provider_catalog.local_thread_catalog_metadata"@ + " SET "@;
    let set0 = Seq::<Assignment>::empty();
    let set_item1 = Assignment::Put { column: "catalog_revision"@, value: RepairSqlValueView::Integer(revision_before) };
    let set1 = set0.push(set_item1);
    sql::lemma_one_set_more(set0, set_item1, false, "="@);
    let set_piece1 = "catalog_revision"@ + "="@ + sql::mark(1);
    assert(set_piece1 =~= whole.subrange(58, 77));
    let set_text1 = set_piece1;
    assert(sql::sets_values(set1).len() == 1);
    assert(sql::sets_text(set1, false, "="@) == set_text1);
    let set_whole = set_text1;
    sql::lemma_extended(whole, 0, head, set_whole);
    let middle = head + set_whole;
    assert(" WHERE "@ =~= whole.subrange(77, 84));
    sql::lemma_extended(whole, 0, middle, " WHERE "@);
    let long = middle + " WHERE "@;
    let cond0 = Seq::<Condition>::empty();
    let cond_item1 = Condition::Written { column: "id"@, written: "1"@, value: RepairSqlValueView::Integer(1) };
    let cond1 = cond0.push(cond_item1);
    sql::lemma_one_condition_more(cond0, cond_item1, "="@, 1);
    let cond_piece1 = "id"@ + "="@ + "1"@;
    assert(cond_piece1 =~= whole.subrange(84, 88));
    let cond_text1 = cond_piece1;
    assert(sql::conditions_values(cond1).len() == 0);
    assert(sql::conditions_text(cond1, "="@, 1) == cond_text1);
    let cond_item2 = Condition::Equals { column: "catalog_revision"@, value: RepairSqlValueView::Integer(revision_after) };
    let cond2 = cond1.push(cond_item2);
    sql::lemma_one_condition_more(cond1, cond_item2, "="@, 1);
    assert(" AND "@ =~= whole.subrange(88, 93));
    sql::lemma_extended(whole, 84, cond_text1, " AND "@);
    let cond_piece2 = "catalog_revision"@ + "="@ + sql::mark(2);
    assert(cond_piece2 =~= whole.subrange(93, 112));
    sql::lemma_extended(whole, 84, cond_text1 + " AND "@, cond_piece2);
    let cond_text2 = cond_text1 + " AND "@ + cond_piece2;
    assert(sql::conditions_values(cond2).len() == 1);
    assert(sql::conditions_text(cond2, "="@, 1) == cond_text2);
    sql::lemma_extended(whole, 0, long, cond_text2);
    assert(long + cond_text2 =~= whole);
    assert(revision_undo_sets(revision_before, revision_after) =~= set1);
    assert(revision_undo_conditions(revision_before, revision_after) =~= cond2);
    let written = writes::undo_write(RecoveryActionView::CatalogRevision { revision_before, revision_after })->0;
    assert(sql::spelled(revision_undo_command(revision_before, revision_after)).sql == written.sql);
    assert(sql::spelled(revision_undo_command(revision_before, revision_after)).values =~= written.values);
}

/// The conditions of the statement.
pub open spec fn row_delete_conditions(thread_id: Seq<char>) -> Seq<Condition> {
    seq![
        Condition::Equals { column: "id"@, value: RepairSqlValueView::Text(thread_id) },
    ]
}

/// What the statement says.
pub open spec fn row_delete_command(thread_id: Seq<char>) -> Command {
    Command::Delete { table: "threads"@, conditions: row_delete_conditions(thread_id) }
}

/// The text of the statement, piece by piece.
#[verifier::rlimit(60)]
pub proof fn lemma_row_delete_reads(thread_id: Seq<char>)
    ensures
        sql::spelled(row_delete_command(thread_id)) == statements::row_delete(thread_id),
        forall|row: RowView| #[trigger] sql::meets_all(row, row_delete_conditions(thread_id)) <==> sql::meets(row, Condition::Equals { column: "id"@, value: RepairSqlValueView::Text(thread_id) }),
{
    reveal_strlit("DELETE FROM threads WHERE id=?1");
    reveal_strlit(" WHERE ");
    reveal_strlit("=");
    reveal_strlit("DELETE FROM ");
    reveal_strlit("id");
    reveal_strlit("threads");
    let whole = "DELETE FROM threads WHERE id=?1"@;
    sql::lemma_marks();
    let front0 = "DELETE FROM "@;
    assert(front0 =~= whole.subrange(0, 12));
    assert("threads"@ =~= whole.subrange(12, 19));
    sql::lemma_extended(whole, 0, front0, "threads"@);
    assert(" WHERE "@ =~= whole.subrange(19, 26));
    sql::lemma_extended(whole, 0, front0 + "threads"@, " WHERE "@);
    let long = front0 + "threads"@ + " WHERE "@;
    let cond0 = Seq::<Condition>::empty();
    let cond_item1 = Condition::Equals { column: "id"@, value: RepairSqlValueView::Text(thread_id) };
    let cond1 = cond0.push(cond_item1);
    sql::lemma_one_condition_more(cond0, cond_item1, "="@, 0);
    let cond_piece1 = "id"@ + "="@ + sql::mark(1);
    assert(cond_piece1 =~= whole.subrange(26, 31));
    let cond_text1 = cond_piece1;
    assert(sql::conditions_values(cond1).len() == 1);
    assert(sql::conditions_text(cond1, "="@, 0) == cond_text1);
    sql::lemma_extended(whole, 0, long, cond_text1);
    assert(long + cond_text1 =~= whole);
    assert(row_delete_conditions(thread_id) =~= cond1);
    let written = statements::row_delete(thread_id);
    assert(sql::spelled(row_delete_command(thread_id)).sql == written.sql);
    assert(sql::spelled(row_delete_command(thread_id)).values =~= written.values);
}

} // verus!

//! What the statements of a repair, and of taking one back, do to the rows of the databases.

use crate::journal::{
    RepairCatalogImageView, RepairCatalogJournalView, RepairSqlValueView, RepairStateImageView,
};
use crate::ordered;
use crate::planning::{
    CatalogDeleteView, CatalogInsertView, CatalogUpdateView, StateDeleteView, StateUpdateView,
};
use crate::readings;
use crate::reals;
use crate::recovery;
use crate::recovery::RecoveryActionView;
use crate::schema;
use crate::sessions;
use crate::sessions::StateInsertView;
use crate::sql;
use crate::sql::{Assignment, Cell, Command, Condition, RowView};
use crate::statements;
use crate::text;
use crate::writes;
use vstd::prelude::*;

verus! {

/// A state row reads as a rewrite expects it. A source or an event that is not there counts as
/// none.
pub open spec fn reads_as_expected(row: RowView, update: StateUpdateView) -> bool {
    &&& sql::holds(row, "id"@, RepairSqlValueView::Text(update.thread_id))
    &&& sql::holds(row, "model_provider"@, RepairSqlValueView::Text(update.expected_provider))
    &&& sql::holds(row, "archived"@, truth(update.expected_archived))
    &&& sql::holds(row, "rollout_path"@, RepairSqlValueView::Text(update.expected_rollout_path))
    &&& sql::holds(row, "thread_source"@, RepairSqlValueView::Text(update.expected_thread_source))
        || (sql::holds(row, "thread_source"@, RepairSqlValueView::Null)
        && update.expected_thread_source.len() == 0)
    &&& sql::holds(row, "has_user_event"@, truth(update.expected_has_user_event)) || (sql::holds(
        row,
        "has_user_event"@,
        RepairSqlValueView::Null,
    ) && !update.expected_has_user_event)
}

/// A truth value in a database: one or zero.
pub open spec fn truth(value: bool) -> RepairSqlValueView {
    RepairSqlValueView::Integer(
        if value {
            1
        } else {
            0
        },
    )
}

/// A rewrite of a state row gives the row the planned provider, path, source, archive and event,
/// each in its own column, and nothing else; a row that does not read as the plan expects stays.
pub proof fn law_state_update_writes_the_plan(update: StateUpdateView, row: RowView)
    ensures
        sql::makes(
            writes::state_update_write(update),
            "threads"@,
            Some(row),
            Some(
                if reads_as_expected(row, update) {
                    row.insert("model_provider"@, RepairSqlValueView::Text(update.provider)).insert(
                        "archived"@,
                        truth(update.archived),
                    ).insert("rollout_path"@, RepairSqlValueView::Text(update.rollout_path)).insert(
                        "thread_source"@,
                        RepairSqlValueView::Text(update.thread_source),
                    ).insert("has_user_event"@, truth(update.has_user_event))
                } else {
                    row
                },
            ),
        ),
{
    readings::lemma_state_update_reads(update);
    let command = readings::state_update_command(update);
    let sets = readings::state_update_sets(update);
    let conditions = readings::state_update_conditions(update);
    if update.expected_thread_source.len() == 0 {
        assert(update.expected_thread_source =~= Seq::empty());
    }
    assert(sql::meets_all(row, conditions) <==> reads_as_expected(row, update));
    let changed = sql::sets_in(row, sets);
    assert(sql::spelled(command) == writes::state_update_write(update));
}

/// A planned deletion of a state row removes the row only where it still has the provider and the
/// path that the plan expects.
pub proof fn law_state_delete_needs_the_expected_row(delete: StateDeleteView, row: RowView)
    ensures
        sql::makes(
            writes::state_delete_write(delete),
            "threads"@,
            Some(row),
            if sql::holds(row, "id"@, RepairSqlValueView::Text(delete.thread_id)) && sql::holds(
                row,
                "model_provider"@,
                RepairSqlValueView::Text(delete.expected_provider),
            ) && sql::holds(
                row,
                "rollout_path"@,
                RepairSqlValueView::Text(delete.expected_rollout_path),
            ) {
                None
            } else {
                Some(row)
            },
        ),
{
    readings::lemma_state_delete_reads(delete);
    assert(sql::meets_all(row, readings::state_delete_conditions(delete)) || true);
    assert(sql::spelled(readings::state_delete_command(delete)) == writes::state_delete_write(delete));
}

/// The row is the catalog row of a session, with a provider and a mark.
pub open spec fn is_catalog_row(
    row: RowView,
    host_id: Seq<char>,
    thread_id: Seq<char>,
    provider: Seq<char>,
    missing_candidate: bool,
) -> bool {
    &&& sql::holds(row, "host_id"@, RepairSqlValueView::Text(host_id))
    &&& sql::holds(row, "thread_id"@, RepairSqlValueView::Text(thread_id))
    &&& sql::holds(row, "model_provider"@, RepairSqlValueView::Text(provider))
    &&& sql::holds(row, "missing_candidate"@, truth(missing_candidate))
}

/// A change of a catalog row gives it the planned provider and mark and the new sequence; a row that
/// does not read as the plan expects stays.
pub proof fn law_catalog_update_writes_the_plan(
    update: CatalogUpdateView,
    sequence: i64,
    row: RowView,
)
    ensures
        sql::makes(
            writes::catalog_update_write(update, sequence),
            "provider_catalog.local_thread_catalog"@,
            Some(row),
            Some(
                if is_catalog_row(
                    row,
                    update.host_id,
                    update.thread_id,
                    update.expected_provider,
                    update.expected_missing_candidate,
                ) {
                    row.insert("model_provider"@, RepairSqlValueView::Text(update.provider)).insert(
                        "observation_sequence"@,
                        RepairSqlValueView::Integer(sequence),
                    ).insert("missing_candidate"@, truth(update.missing_candidate))
                } else {
                    row
                },
            ),
        ),
{
    readings::lemma_catalog_update_reads(update, sequence);
    let changed = sql::sets_in(row, readings::catalog_update_sets(update, sequence));
    assert(sql::meets_all(row, readings::catalog_update_conditions(update, sequence)) || true);
    assert(sql::spelled(readings::catalog_update_command(update, sequence)) == writes::catalog_update_write(
        update,
        sequence,
    ));
}

/// A planned deletion of a catalog row removes the row only where it still reads as expected.
pub proof fn law_catalog_delete_needs_the_expected_row(delete: CatalogDeleteView, row: RowView)
    ensures
        sql::makes(
            writes::catalog_delete_write(delete),
            "provider_catalog.local_thread_catalog"@,
            Some(row),
            if is_catalog_row(
                row,
                delete.host_id,
                delete.thread_id,
                delete.expected_provider,
                delete.expected_missing_candidate,
            ) {
                None
            } else {
                Some(row)
            },
        ),
{
    readings::lemma_catalog_delete_reads(delete);
    assert(sql::meets_all(row, readings::catalog_delete_conditions(delete)) || true);
    assert(sql::spelled(readings::catalog_delete_command(delete)) == writes::catalog_delete_write(delete));
}

/// A text that may be absent in a database.
pub open spec fn optional_text(value: Option<Seq<char>>) -> RepairSqlValueView {
    match value {
        Some(text) => RepairSqlValueView::Text(text),
        None => RepairSqlValueView::Null,
    }
}

/// A new catalog row holds what was planned, each value in its own column, and is not missing.
pub proof fn law_catalog_insert_writes_the_plan(insert: CatalogInsertView, sequence: i64)
    ensures
        exists|row: RowView|
            {
                &&& #[trigger] sql::makes(
                    writes::catalog_insert_write(insert, sequence),
                    "provider_catalog.local_thread_catalog"@,
                    None,
                    Some(row),
                )
                &&& is_catalog_row(row, insert.host_id, insert.thread_id, insert.provider, false)
                &&& sql::holds(row, "display_title"@, RepairSqlValueView::Text(insert.title))
                &&& sql::holds(
                    row,
                    "source_created_at"@,
                    RepairSqlValueView::Real(reals::real_value(insert.created_at)),
                )
                &&& sql::holds(
                    row,
                    "source_updated_at"@,
                    RepairSqlValueView::Real(reals::real_value(insert.updated_at)),
                )
                &&& sql::holds(row, "cwd"@, RepairSqlValueView::Text(insert.cwd))
                &&& sql::holds(row, "source_kind"@, RepairSqlValueView::Text(insert.source_kind))
                &&& sql::holds(row, "source_detail"@, RepairSqlValueView::Text(insert.source_detail))
                &&& sql::holds(row, "git_branch"@, optional_text(insert.git_branch))
                &&& sql::holds(row, "observation_sequence"@, RepairSqlValueView::Integer(sequence))
            },
{
    readings::lemma_catalog_insert_reads(insert, sequence);
    lemma_catalog_columns();
    let command = readings::catalog_insert_command(insert, sequence);
    let row = sql::made_row(readings::catalog_insert_columns(), readings::catalog_insert_cells(insert, sequence));
    assert(sql::run(command, None) == Some(row));
    assert(sql::spelled(command) == writes::catalog_insert_write(insert, sequence));
    assert(sql::makes(
        writes::catalog_insert_write(insert, sequence),
        "provider_catalog.local_thread_catalog"@,
        None,
        Some(row),
    ));
}

/// The columns of the catalog have different names.
proof fn lemma_catalog_columns()
    ensures
        seq![
            "host_id"@,
            "thread_id"@,
            "display_title"@,
            "source_created_at"@,
            "source_updated_at"@,
            "cwd"@,
            "source_kind"@,
            "source_detail"@,
            "model_provider"@,
            "git_branch"@,
            "observation_sequence"@,
            "missing_candidate"@,
        ].no_duplicates(),
{
    reveal_strlit("host_id");
    reveal_strlit("thread_id");
    reveal_strlit("display_title");
    reveal_strlit("source_created_at");
    reveal_strlit("source_updated_at");
    reveal_strlit("cwd");
    reveal_strlit("source_kind");
    reveal_strlit("source_detail");
    reveal_strlit("model_provider");
    reveal_strlit("git_branch");
    reveal_strlit("observation_sequence");
    reveal_strlit("missing_candidate");
    assert("host_id"@[0] == 'h' && "thread_id"@[0] == 't' && "display_title"@[0] == 'd');
    assert("source_created_at"@[7] == 'c' && "source_updated_at"@[7] == 'u');
    assert("cwd"@[0] == 'c' && "model_provider"@[0] == 'm' && "missing_candidate"@[1] == 'i');
    assert("source_kind"@[7] == 'k' && "source_detail"@[7] == 'd');
    assert("git_branch"@[0] == 'g' && "observation_sequence"@[0] == 'o');
}

/// The catalog row that an image shows.
pub open spec fn image_row(image: RepairCatalogImageView) -> RowView {
    map![
        "host_id"@ => RepairSqlValueView::Text(image.host_id),
        "thread_id"@ => RepairSqlValueView::Text(image.thread_id),
        "display_title"@ => RepairSqlValueView::Text(image.display_title),
        "source_created_at"@ => RepairSqlValueView::Real(image.source_created_at),
        "source_updated_at"@ => RepairSqlValueView::Real(image.source_updated_at),
        "cwd"@ => RepairSqlValueView::Text(image.cwd),
        "source_kind"@ => RepairSqlValueView::Text(image.source_kind),
        "source_detail"@ => optional_text(image.source_detail),
        "model_provider"@ => RepairSqlValueView::Text(image.model_provider),
        "git_branch"@ => optional_text(image.git_branch),
        "observation_sequence"@ => RepairSqlValueView::Integer(image.observation_sequence),
        "missing_candidate"@ => truth(image.missing_candidate),
    ]
}

/// A catalog row that an image shows, or none.
pub open spec fn image_row_of(image: Option<RepairCatalogImageView>) -> Option<RowView> {
    match image {
        Some(image) => Some(image_row(image)),
        None => None,
    }
}

/// Two images of a catalog row differ at most in what a repair changes: the provider, the mark and
/// the sequence.
pub open spec fn same_but_repaired(
    before: RepairCatalogImageView,
    after: RepairCatalogImageView,
) -> bool {
    before == (RepairCatalogImageView {
        model_provider: before.model_provider,
        missing_candidate: before.missing_candidate,
        observation_sequence: before.observation_sequence,
        ..after
    })
}

/// Taking back what a repair did to a catalog row makes of the row that the repair left the row that
/// it found: changed values get their old ones, an added row goes, a removed one comes back.
pub proof fn law_catalog_row_is_taken_back(entry: RepairCatalogJournalView)
    requires
        entry.after matches Some(after) ==> after.host_id == entry.host_id && after.thread_id
            == entry.thread_id,
        entry.before is Some && entry.after is Some ==> same_but_repaired(
            entry.before->0,
            entry.after->0,
        ),
    ensures
        match writes::catalog_undo(entry) {
            Some(statement) => sql::makes(
                statement,
                "provider_catalog.local_thread_catalog"@,
                image_row_of(entry.after),
                image_row_of(entry.before),
            ),
            None => entry.before is None && entry.after is None,
        },
{
    lemma_catalog_columns();
    lemma_image_row_columns();
    match (entry.before, entry.after) {
        (Some(before), Some(after)) => {
            readings::lemma_catalog_image_restore_reads(entry, before, after);
            let command = readings::catalog_image_restore_command(entry, before, after);
            let row = image_row(after);
            lemma_image_row_holds(after);
            assert(sql::meets_all(row, readings::catalog_image_restore_conditions(entry, before, after)));
            let changed = sql::sets_in(row, readings::catalog_image_restore_sets(entry, before, after));
            assert(changed =~= image_row(before));
            assert(sql::spelled(command) == writes::catalog_image_restore(entry, before, after));
        },
        (None, Some(after)) => {
            readings::lemma_catalog_image_delete_reads(after);
            let command = readings::catalog_image_delete_command(after);
            lemma_image_row_holds(after);
            assert(sql::meets_all(image_row(after), readings::catalog_image_delete_conditions(after)));
            assert(sql::spelled(command) == writes::catalog_image_delete(after));
        },
        (Some(before), None) => {
            readings::lemma_catalog_image_insert_reads(before);
            let command = readings::catalog_image_insert_command(before);
            let row = sql::made_row(
                readings::catalog_image_insert_columns(),
                readings::catalog_image_insert_cells(before),
            );
            assert(row =~= image_row(before));
            assert(sql::spelled(command) == writes::catalog_image_insert(before));
        },
        (None, None) => {},
    }
}

proof fn lemma_image_row_columns()
    ensures
        forall|image: RepairCatalogImageView, column: Seq<char>| #[trigger]
            image_row(image).dom().contains(column) <==> seq![
                "host_id"@,
                "thread_id"@,
                "display_title"@,
                "source_created_at"@,
                "source_updated_at"@,
                "cwd"@,
                "source_kind"@,
                "source_detail"@,
                "model_provider"@,
                "git_branch"@,
                "observation_sequence"@,
                "missing_candidate"@,
            ].contains(column),
{
}

proof fn lemma_image_row_holds(image: RepairCatalogImageView)
    ensures
        is_catalog_row(
            image_row(image),
            image.host_id,
            image.thread_id,
            image.model_provider,
            image.missing_candidate,
        ),
        sql::holds(
            image_row(image),
            "display_title"@,
            RepairSqlValueView::Text(image.display_title),
        ),
{
    lemma_catalog_columns();
}

/// Taking a provider back gives a state row the provider that it had, where it still has the one
/// that the repair wrote.
pub proof fn law_provider_is_taken_back(
    thread_id: Seq<char>,
    provider_before: Seq<char>,
    provider_after: Seq<char>,
    row: RowView,
)
    ensures
        ({
            let undo = writes::undo_write(
                RecoveryActionView::StateProvider { thread_id, provider_before, provider_after },
            );
            undo is Some && sql::makes(
                undo->0,
                "threads"@,
                Some(row),
                Some(
                    if sql::holds(row, "id"@, RepairSqlValueView::Text(thread_id)) && sql::holds(
                        row,
                        "model_provider"@,
                        RepairSqlValueView::Text(provider_after),
                    ) {
                        row.insert("model_provider"@, RepairSqlValueView::Text(provider_before))
                    } else {
                        row
                    },
                ),
            )
        }),
{
    readings::lemma_provider_undo_reads(thread_id, provider_before, provider_after);
    let command = readings::provider_undo_command(thread_id, provider_before, provider_after);
    let changed = sql::sets_in(
        row,
        readings::provider_undo_sets(thread_id, provider_before, provider_after),
    );
    assert(sql::meets_all(
        row,
        readings::provider_undo_conditions(thread_id, provider_before, provider_after),
    ) || true);
    assert(sql::spelled(command) == writes::undo_write(
        RecoveryActionView::StateProvider { thread_id, provider_before, provider_after },
    )->0);
}

/// Taking the counters of the catalog back gives each the number that it had, where it still has the
/// one that the repair wrote.
pub proof fn law_counters_are_taken_back(before: i64, after: i64, row: RowView)
    ensures
        ({
            let undo = writes::undo_write(
                RecoveryActionView::ObservationSequence {
                    sequence_before: before,
                    sequence_after: after,
                },
            );
            undo is Some && sql::makes(
                undo->0,
                "provider_catalog.local_thread_catalog_sync_state"@,
                Some(row),
                Some(
                    if sql::holds(row, "host_id"@, RepairSqlValueView::Text("local"@))
                        && sql::holds(
                        row,
                        "observation_sequence"@,
                        RepairSqlValueView::Integer(after),
                    ) {
                        row.insert("observation_sequence"@, RepairSqlValueView::Integer(before))
                    } else {
                        row
                    },
                ),
            )
        }),
        ({
            let undo = writes::undo_write(
                RecoveryActionView::CatalogRevision {
                    revision_before: before,
                    revision_after: after,
                },
            );
            undo is Some && sql::makes(
                undo->0,
                "provider_catalog.local_thread_catalog_metadata"@,
                Some(row),
                Some(
                    if sql::holds(row, "id"@, RepairSqlValueView::Integer(1)) && sql::holds(
                        row,
                        "catalog_revision"@,
                        RepairSqlValueView::Integer(after),
                    ) {
                        row.insert("catalog_revision"@, RepairSqlValueView::Integer(before))
                    } else {
                        row
                    },
                ),
            )
        }),
{
    readings::lemma_sequence_undo_reads(before, after);
    let sequence = readings::sequence_undo_command(before, after);
    let one = sql::sets_in(row, readings::sequence_undo_sets(before, after));
    assert(sql::meets_all(row, readings::sequence_undo_conditions(before, after)) || true);
    assert(sql::spelled(sequence) == writes::undo_write(
        RecoveryActionView::ObservationSequence { sequence_before: before, sequence_after: after },
    )->0);
    readings::lemma_revision_undo_reads(before, after);
    let revision = readings::revision_undo_command(before, after);
    let other = sql::sets_in(row, readings::revision_undo_sets(before, after));
    assert(sql::meets_all(row, readings::revision_undo_conditions(before, after)) || true);
    assert(sql::spelled(revision) == writes::undo_write(
        RecoveryActionView::CatalogRevision { revision_before: before, revision_after: after },
    )->0);
}

/// The assignments of values to columns.
spec fn puts(columns: Seq<Seq<char>>, values: RowView) -> Seq<Assignment> {
    Seq::new(
        columns.len(),
        |i: int| Assignment::Put { column: columns[i], value: values[columns[i]] },
    )
}

/// The cells of columns.
spec fn bound_cells(values: Seq<RepairSqlValueView>) -> Seq<Cell> {
    Seq::new(values.len(), |i: int| Cell::Bound(values[i]))
}

proof fn lemma_puts(columns: Seq<Seq<char>>, values: RowView, row: RowView)
    ensures
        sql::sets_values(puts(columns, values)) == columns.map_values(
            |column: Seq<char>| values[column],
        ),
        sql::sets_text(puts(columns, values), true, "="@) == recovery::joined(
            statements::assignments(columns),
            ", "@,
        ),
        forall|column: Seq<char>| #[trigger]
            sql::sets_in(row, puts(columns, values)).dom().contains(column) <==> row.dom().contains(
                column,
            ) || columns.contains(column),
        forall|column: Seq<char>|
            columns.contains(column) ==> #[trigger] sql::sets_in(row, puts(columns, values))[column]
                == values[column],
        forall|column: Seq<char>|
            !columns.contains(column) && row.dom().contains(column) ==> #[trigger] sql::sets_in(
                row,
                puts(columns, values),
            )[column] == row[column],
    decreases columns.len(),
{
    reveal_strlit("=?");
    reveal_strlit("=");
    reveal_strlit("?");
    let all = puts(columns, values);
    let texts = statements::assignments(columns);
    let bound = columns.map_values(|column: Seq<char>| values[column]);
    if columns.len() == 0 {
        assert(sql::sets_values(all) =~= bound);
        assert(texts.len() == 0);
    } else {
        let front = columns.drop_last();
        lemma_puts(front, values, row);
        assert(all.drop_last() =~= puts(front, values));
        assert(texts.drop_last() =~= statements::assignments(front));
        assert(sql::sets_values(all) =~= bound) by {
            assert(bound.drop_last() =~= front.map_values(|column: Seq<char>| values[column]));
        }
        let last = columns.last();
        let number = columns.len();
        assert(sql::sets_values(puts(front, values)).len() == front.len());
        assert(sql::set_text(all.last(), true, "="@, number) =~= texts.last()) by {
            assert("=?"@ =~= "="@ + "?"@);
        }
        assert(columns =~= front.push(last));
        assert forall|column: Seq<char>|
            columns.contains(column) <==> front.contains(column) || column == last by {
            sessions::lemma_push_contains(front, last, column);
        }
        let earlier = sql::sets_in(row, puts(front, values));
        let changed = sql::sets_in(row, all);
        assert(changed == earlier.insert(last, values[last]));
        assert forall|column: Seq<char>| #[trigger] changed.dom().contains(column)
            <==> row.dom().contains(column) || columns.contains(column) by {
            assert(earlier.dom().contains(column) <==> row.dom().contains(column)
                || front.contains(column));
        }
        assert forall|column: Seq<char>| columns.contains(column) implies #[trigger] changed[column]
            == values[column] by {
            if column != last {
                assert(front.contains(column));
                assert(earlier[column] == values[column]);
            }
        }
        assert forall|column: Seq<char>|
            !columns.contains(column) && row.dom().contains(column) implies
            #[trigger] changed[column] == row[column] by {
            assert(!front.contains(column));
            assert(earlier[column] == row[column]);
        }
    }
}

proof fn lemma_cells(columns: Seq<Seq<char>>, values: Seq<RepairSqlValueView>, row: RowView)
    requires
        columns.len() == values.len(),
        forall|i: int| 0 <= i < columns.len() ==> #[trigger] row[columns[i]] == values[i],
    ensures
        sql::cells_values(bound_cells(values)) == values,
        sql::columns_text(columns, true) == recovery::joined(
            statements::quoted_names(columns),
            ", "@,
        ),
        sql::cells_text(bound_cells(values)) == recovery::joined(
            statements::placeholders(columns.len()),
            ", "@,
        ),
        forall|column: Seq<char>| #[trigger]
            sql::made_row(columns, bound_cells(values)).dom().contains(column)
                <==> columns.contains(column),
        forall|column: Seq<char>|
            columns.contains(column) ==> #[trigger] sql::made_row(
                columns,
                bound_cells(values),
            )[column] == row[column],
    decreases columns.len(),
{
    let cells = bound_cells(values);
    let names = statements::quoted_names(columns);
    let marks = statements::placeholders(columns.len());
    if columns.len() == 0 {
        assert(sql::cells_values(cells) =~= values);
    } else {
        let front = columns.drop_last();
        let rest = values.drop_last();
        assert forall|i: int| 0 <= i < front.len() implies #[trigger] row[front[i]] == rest[i] by {
            assert(front[i] == columns[i]);
        }
        lemma_cells(front, rest, row);
        assert(cells.drop_last() =~= bound_cells(rest));
        assert(names.drop_last() =~= statements::quoted_names(front));
        assert(marks.drop_last() =~= statements::placeholders(front.len()));
        assert(sql::cells_values(cells) =~= values);
        let last = columns.last();
        assert(columns =~= front.push(last));
        assert forall|column: Seq<char>|
            columns.contains(column) <==> front.contains(column) || column == last by {
            sessions::lemma_push_contains(front, last, column);
        }
        assert(row[columns[columns.len() - 1]] == values[columns.len() - 1]);
        let earlier = sql::made_row(front, bound_cells(rest));
        let made = sql::made_row(columns, cells);
        assert(made == earlier.insert(last, values.last()));
        assert forall|column: Seq<char>| #[trigger] made.dom().contains(column)
            <==> columns.contains(column) by {
            assert(earlier.dom().contains(column) <==> front.contains(column));
        }
        assert forall|column: Seq<char>| columns.contains(column) implies #[trigger] made[column]
            == row[column] by {
            if column != last {
                assert(front.contains(column));
                assert(earlier[column] == row[column]);
            }
        }
    }
}

proof fn lemma_kept(columns: Seq<Seq<char>>)
    ensures
        forall|column: Seq<char>| #[trigger]
            statements::kept_columns(columns, true).contains(column) <==> columns.contains(column)
                && column != "id"@,
    decreases columns.len(),
{
    if columns.len() > 0 {
        let front = columns.drop_last();
        lemma_kept(front);
        let last = columns.last();
        let rest = statements::kept_columns(front, true);
        assert(columns =~= front.push(last));
        assert forall|column: Seq<char>| #[trigger]
            statements::kept_columns(columns, true).contains(column) <==> columns.contains(column)
                && column != "id"@ by {
            sessions::lemma_push_contains(front, last, column);
            sessions::lemma_push_contains(rest, last, column);
        }
    }
}

/// The state row that an image shows, or none.
pub open spec fn state_row_of(image: Option<RepairStateImageView>) -> Option<RowView> {
    match image {
        Some(image) => Some(image.values),
        None => None,
    }
}

/// Taking back what a repair did to a state row makes of the row that the repair left the row that
/// it found: changed columns get their old values, an added row goes, a removed one comes back.
pub proof fn law_state_row_is_taken_back(
    thread_id: Seq<char>,
    before: Option<RepairStateImageView>,
    after: Option<RepairStateImageView>,
)
    requires
        before matches Some(image) ==> image.values.dom().finite(),
        after matches Some(image) ==> sql::holds(
            image.values,
            "id"@,
            RepairSqlValueView::Text(thread_id),
        ),
        before is Some && after is Some ==> before->0.values.dom() == after->0.values.dom()
            && sql::holds(before->0.values, "id"@, RepairSqlValueView::Text(thread_id)),
    ensures
        match statements::image_restore(thread_id, before, after) {
            Some(statement) => sql::makes(
                statement,
                "threads"@,
                state_row_of(after),
                state_row_of(before),
            ),
            None => before is None && after is None,
        },
{
    match (before, after) {
        (None, Some(image)) => {
            readings::lemma_row_delete_reads(thread_id);
            let command = readings::row_delete_command(thread_id);
            assert(sql::meets_all(image.values, readings::row_delete_conditions(thread_id)));
            assert(sql::spelled(command) == statements::row_delete(thread_id));
        },
        (Some(image), None) => lemma_row_comes_back(image),
        (Some(old), Some(new)) => lemma_row_is_changed_back(thread_id, old, new),
        (None, None) => {},
    }
}

proof fn lemma_row_comes_back(image: RepairStateImageView)
    requires
        image.values.dom().finite(),
    ensures
        sql::makes(statements::image_insert(image), "threads"@, None, Some(image.values)),
{
    reveal_strlit("INSERT INTO threads (");
    reveal_strlit("INSERT INTO ");
    reveal_strlit("threads");
    reveal_strlit(" (");
    let columns = statements::image_columns(image);
    let values = columns.map_values(|column: Seq<char>| image.values[column]);
    ordered::lemma_finite_is_listed::<String>(image.values.dom());
    lemma_cells(columns, values, image.values);
    let command = Command::Insert {
        table: "threads"@,
        quoted: true,
        or_ignore: false,
        columns,
        cells: bound_cells(values),
    };
    assert("INSERT INTO threads ("@ =~= "INSERT INTO "@ + "threads"@ + " ("@);
    assert(sql::spelled(command) == statements::image_insert(image));
    let made = sql::made_row(columns, bound_cells(values));
    assert(made =~= image.values) by {
        assert forall|column: Seq<char>| made.dom().contains(column) implies made[column]
            == image.values[column] by {
            assert(columns.contains(column));
        }
    }
}

proof fn lemma_row_is_changed_back(
    thread_id: Seq<char>,
    old: RepairStateImageView,
    new: RepairStateImageView,
)
    requires
        old.values.dom().finite(),
        old.values.dom() == new.values.dom(),
        sql::holds(old.values, "id"@, RepairSqlValueView::Text(thread_id)),
        sql::holds(new.values, "id"@, RepairSqlValueView::Text(thread_id)),
    ensures
        sql::makes(
            statements::image_update(thread_id, old),
            "threads"@,
            Some(new.values),
            Some(old.values),
        ),
{
    reveal_strlit("UPDATE threads SET ");
    reveal_strlit("UPDATE ");
    reveal_strlit("threads");
    reveal_strlit(" SET ");
    reveal_strlit(" WHERE id=?");
    reveal_strlit(" WHERE ");
    reveal_strlit("id");
    reveal_strlit("=");
    reveal_strlit("?");
    let listed = statements::image_columns(old);
    let columns = statements::kept_columns(listed, true);
    ordered::lemma_finite_is_listed::<String>(old.values.dom());
    lemma_kept(listed);
    lemma_puts(columns, old.values, new.values);
    let none = Seq::<Condition>::empty();
    let condition = Condition::Equals {
        column: "id"@,
        value: RepairSqlValueView::Text(thread_id),
    };
    sql::lemma_one_condition_more(none, condition, "="@, columns.len());
    let command = Command::Update {
        table: "threads"@,
        quoted: true,
        equals: "="@,
        sets: puts(columns, old.values),
        conditions: none.push(condition),
    };
    let written = statements::image_update(thread_id, old);
    assert("UPDATE threads SET "@ =~= "UPDATE "@ + "threads"@ + " SET "@);
    let number = text::decimal_text(columns.len() + 1);
    assert(" WHERE id=?"@ + number =~= " WHERE "@ + ("id"@ + "="@ + ("?"@ + number)));
    assert(sql::conditions_text(none.push(condition), "="@, columns.len()) == "id"@ + "="@ + (
    "?"@ + number));
    let sets = recovery::joined(statements::assignments(columns), ", "@);
    let tail = "id"@ + "="@ + ("?"@ + number);
    assert("UPDATE threads SET "@ + sets + " WHERE id=?"@ + number =~= "UPDATE threads SET "@ + sets
        + (" WHERE id=?"@ + number));
    assert("UPDATE threads SET "@ + sets + (" WHERE "@ + tail) =~= "UPDATE "@ + "threads"@
        + " SET "@ + sets + " WHERE "@ + tail);
    assert(sql::spelled(command).sql == written.sql);
    assert(sql::spelled(command).values =~= written.values);
    let changed = sql::sets_in(new.values, command->Update_sets);
    assert(changed =~= old.values) by {
        assert forall|column: Seq<char>| changed.dom().contains(column) <==> old.values.dom().contains(
            column,
        ) by {}
        assert forall|column: Seq<char>| changed.dom().contains(column) implies changed[column]
            == old.values[column] by {
            if column != "id"@ {
                assert(listed.contains(column));
                assert(columns.contains(column));
            }
        }
    }
    assert(sql::meets_all(new.values, none.push(condition)));
    assert(sql::spelled(command) == written);
}

proof fn lemma_filled(columns: Seq<Seq<char>>)
    ensures
        forall|column: Seq<char>| #[trigger]
            statements::filled_columns(columns).contains(column) <==> columns.contains(column)
                && schema::fillable(column),
    decreases columns.len(),
{
    if columns.len() > 0 {
        let front = columns.drop_last();
        lemma_filled(front);
        let last = columns.last();
        let rest = statements::filled_columns(front);
        assert(columns =~= front.push(last));
        assert forall|column: Seq<char>| #[trigger]
            statements::filled_columns(columns).contains(column) <==> columns.contains(column)
                && schema::fillable(column) by {
            sessions::lemma_push_contains(front, last, column);
            sessions::lemma_push_contains(rest, last, column);
        }
    }
}

/// Adding a session makes a row that has, of the columns of the table, exactly those that a new
/// session fills, each with what belongs there.
pub proof fn law_session_is_added(insert: StateInsertView, columns: Seq<Seq<char>>) -> (row: RowView)
    ensures
        sql::makes(statements::session_insert(insert, columns), "threads"@, None, Some(row)),
        forall|column: Seq<char>| #[trigger]
            row.dom().contains(column) <==> columns.contains(column) && schema::fillable(column),
        forall|column: Seq<char>|
            columns.contains(column) && schema::fillable(column) ==> Some(#[trigger] row[column])
                == statements::insert_value(insert, column),
{
    reveal_strlit("INSERT INTO threads (");
    reveal_strlit("INSERT INTO ");
    reveal_strlit("threads");
    reveal_strlit(" (");
    let filled = statements::filled_columns(columns);
    let values = statements::insert_values(insert, filled);
    let wanted: RowView = Map::new(
        |column: Seq<char>| true,
        |column: Seq<char>| statements::insert_value(insert, column)->0,
    );
    lemma_filled(columns);
    lemma_cells(filled, values, wanted);
    let command = Command::Insert {
        table: "threads"@,
        quoted: true,
        or_ignore: false,
        columns: filled,
        cells: bound_cells(values),
    };
    assert("INSERT INTO threads ("@ =~= "INSERT INTO "@ + "threads"@ + " ("@);
    assert(sql::spelled(command) == statements::session_insert(insert, columns));
    let row = sql::made_row(filled, bound_cells(values));
    assert forall|column: Seq<char>|
        columns.contains(column) && schema::fillable(column) implies Some(#[trigger] row[column])
        == statements::insert_value(insert, column) by {
        assert(filled.contains(column));
        statements::law_fillable_columns_have_values(insert, column);
    }
    row
}

} // verus!

//! The statements that a repair writes, and those that take it back: every one names the values
//! that it expects to find, so that what someone else wrote since is left alone.

use crate::journal::{
    RepairCatalogImage, RepairCatalogImageView, RepairCatalogJournal, RepairCatalogJournalView,
    RepairSqlValue, RepairSqlValueView,
};
use crate::model::Model;
use crate::planning::{
    CatalogDelete, CatalogDeleteView, CatalogInsert, CatalogInsertView, CatalogUpdate,
    CatalogUpdateView, StateDelete, StateDeleteView, StateUpdate, StateUpdateView,
};
use crate::reals;
use crate::recovery::{RecoveryAction, RecoveryActionView};
use crate::statements;
use crate::statements::{
    find_flag, find_text_or_null, restore_state_journal_image, Statement, StatementView,
};
use vstd::prelude::*;

verus! {

/// A text as it is bound.
pub open spec fn bound_text(value: Seq<char>) -> RepairSqlValueView {
    RepairSqlValueView::Text(value)
}

fn bind_text(value: &String) -> (r: RepairSqlValue)
    ensures
        r.deep_view() == bound_text(value@),
{
    RepairSqlValue::Text(value.copy_of())
}

/// The statement that changes a state row, if it is still as it was planned for.
pub open spec fn state_update_write(update: StateUpdateView) -> StatementView {
    StatementView {
        sql: "UPDATE threads SET model_provider=?1, archived=?2, rollout_path=?3, thread_source=?4, has_user_event=?5 WHERE id=?6 AND model_provider=?7 AND archived=?8 AND rollout_path=?9 AND COALESCE(thread_source, '')=?10 AND COALESCE(has_user_event, 0)=?11"@,
        values: seq![
            bound_text(update.provider),
            statements::flag(update.archived),
            bound_text(update.rollout_path),
            bound_text(update.thread_source),
            statements::flag(update.has_user_event),
            bound_text(update.thread_id),
            bound_text(update.expected_provider),
            statements::flag(update.expected_archived),
            bound_text(update.expected_rollout_path),
            bound_text(update.expected_thread_source),
            statements::flag(update.expected_has_user_event),
        ],
    }
}

/// The statement that changes a state row, if it is still as it was planned for.
pub fn apply_state_updates(update: &StateUpdate) -> (r: Statement)
    ensures
        r.deep_view() == state_update_write(update.deep_view()),
{
    let values: Vec<RepairSqlValue> = vec![
        bind_text(&update.provider),
        find_flag(update.archived),
        bind_text(&update.rollout_path),
        bind_text(&update.thread_source),
        find_flag(update.has_user_event),
        bind_text(&update.thread_id),
        bind_text(&update.expected_provider),
        find_flag(update.expected_archived),
        bind_text(&update.expected_rollout_path),
        bind_text(&update.expected_thread_source),
        find_flag(update.expected_has_user_event),
    ];
    let r = Statement {
        sql: "UPDATE threads SET model_provider=?1, archived=?2, rollout_path=?3, thread_source=?4, has_user_event=?5 WHERE id=?6 AND model_provider=?7 AND archived=?8 AND rollout_path=?9 AND COALESCE(thread_source, '')=?10 AND COALESCE(has_user_event, 0)=?11".to_owned(),
        values,
    };
    assert(r.values.deep_view() =~= state_update_write(update.deep_view()).values);
    r
}

/// The statement that deletes a state row, if it is still as it was planned for.
pub open spec fn state_delete_write(delete: StateDeleteView) -> StatementView {
    StatementView {
        sql: "DELETE FROM threads WHERE id=?1 AND model_provider=?2 AND rollout_path=?3"@,
        values: seq![
            bound_text(delete.thread_id),
            bound_text(delete.expected_provider),
            bound_text(delete.expected_rollout_path),
        ],
    }
}

/// The statement that deletes a state row, if it is still as it was planned for.
pub fn apply_state_deletes(delete: &StateDelete) -> (r: Statement)
    ensures
        r.deep_view() == state_delete_write(delete.deep_view()),
{
    let values: Vec<RepairSqlValue> = vec![
        bind_text(&delete.thread_id),
        bind_text(&delete.expected_provider),
        bind_text(&delete.expected_rollout_path),
    ];
    let r = Statement {
        sql: "DELETE FROM threads WHERE id=?1 AND model_provider=?2 AND rollout_path=?3".to_owned(),
        values,
    };
    assert(r.values.deep_view() =~= state_delete_write(delete.deep_view()).values);
    r
}

/// The statement that changes a catalog row at a sequence, if it is still as it was planned for.
pub open spec fn catalog_update_write(update: CatalogUpdateView, sequence: i64) -> StatementView {
    StatementView {
        sql: "UPDATE provider_catalog.local_thread_catalog SET model_provider = ?1, observation_sequence = ?2, missing_candidate = ?3 WHERE host_id = ?4 AND thread_id = ?5 AND model_provider = ?6 AND missing_candidate = ?7"@,
        values: seq![
            bound_text(update.provider),
            RepairSqlValueView::Integer(sequence),
            statements::flag(update.missing_candidate),
            bound_text(update.host_id),
            bound_text(update.thread_id),
            bound_text(update.expected_provider),
            statements::flag(update.expected_missing_candidate),
        ],
    }
}

/// The statement that changes a catalog row at a sequence, if it is still as it was planned for.
pub fn apply_catalog_updates(update: &CatalogUpdate, sequence: i64) -> (r: Statement)
    ensures
        r.deep_view() == catalog_update_write(update.deep_view(), sequence),
{
    let values: Vec<RepairSqlValue> = vec![
        bind_text(&update.provider),
        RepairSqlValue::Integer(sequence),
        find_flag(update.missing_candidate),
        bind_text(&update.host_id),
        bind_text(&update.thread_id),
        bind_text(&update.expected_provider),
        find_flag(update.expected_missing_candidate),
    ];
    let r = Statement {
        sql: "UPDATE provider_catalog.local_thread_catalog SET model_provider = ?1, observation_sequence = ?2, missing_candidate = ?3 WHERE host_id = ?4 AND thread_id = ?5 AND model_provider = ?6 AND missing_candidate = ?7".to_owned(),
        values,
    };
    assert(r.values.deep_view() =~= catalog_update_write(update.deep_view(), sequence).values);
    r
}

/// The statement that deletes a catalog row, if it is still as it was planned for.
pub open spec fn catalog_delete_write(delete: CatalogDeleteView) -> StatementView {
    StatementView {
        sql: "DELETE FROM provider_catalog.local_thread_catalog WHERE host_id=?1 AND thread_id=?2 AND model_provider=?3 AND missing_candidate=?4"@,
        values: seq![
            bound_text(delete.host_id),
            bound_text(delete.thread_id),
            bound_text(delete.expected_provider),
            statements::flag(delete.expected_missing_candidate),
        ],
    }
}

/// The statement that deletes a catalog row, if it is still as it was planned for.
pub fn apply_catalog_deletes(delete: &CatalogDelete) -> (r: Statement)
    ensures
        r.deep_view() == catalog_delete_write(delete.deep_view()),
{
    let values: Vec<RepairSqlValue> = vec![
        bind_text(&delete.host_id),
        bind_text(&delete.thread_id),
        bind_text(&delete.expected_provider),
        find_flag(delete.expected_missing_candidate),
    ];
    let r = Statement {
        sql: "DELETE FROM provider_catalog.local_thread_catalog WHERE host_id=?1 AND thread_id=?2 AND model_provider=?3 AND missing_candidate=?4".to_owned(),
        values,
    };
    assert(r.values.deep_view() =~= catalog_delete_write(delete.deep_view()).values);
    r
}

/// The statement that adds a catalog row at a sequence, unless there is one.
pub open spec fn catalog_insert_write(insert: CatalogInsertView, sequence: i64) -> StatementView {
    StatementView {
        sql: "INSERT OR IGNORE INTO provider_catalog.local_thread_catalog (host_id, thread_id, display_title, source_created_at, source_updated_at, cwd, source_kind, source_detail, model_provider, git_branch, observation_sequence, missing_candidate) VALUES (?1, ?2, ?3, ?4, ?5, ?6, ?7, ?8, ?9, ?10, ?11, 0)"@,
        values: seq![
            bound_text(insert.host_id),
            bound_text(insert.thread_id),
            bound_text(insert.title),
            RepairSqlValueView::Real(reals::real_value(insert.created_at)),
            RepairSqlValueView::Real(reals::real_value(insert.updated_at)),
            bound_text(insert.cwd),
            bound_text(insert.source_kind),
            bound_text(insert.source_detail),
            bound_text(insert.provider),
            statements::text_or_null(insert.git_branch),
            RepairSqlValueView::Integer(sequence),
        ],
    }
}

/// The statement that adds a catalog row at a sequence, unless there is one.
pub fn apply_catalog_inserts(insert: &CatalogInsert, sequence: i64) -> (r: Statement)
    ensures
        r.deep_view() == catalog_insert_write(insert.deep_view(), sequence),
{
    let values: Vec<RepairSqlValue> = vec![
        bind_text(&insert.host_id),
        bind_text(&insert.thread_id),
        bind_text(&insert.title),
        RepairSqlValue::Real(insert.created_at.copy_of()),
        RepairSqlValue::Real(insert.updated_at.copy_of()),
        bind_text(&insert.cwd),
        bind_text(&insert.source_kind),
        bind_text(&insert.source_detail),
        bind_text(&insert.provider),
        find_text_or_null(&insert.git_branch),
        RepairSqlValue::Integer(sequence),
    ];
    let r = Statement {
        sql: "INSERT OR IGNORE INTO provider_catalog.local_thread_catalog (host_id, thread_id, display_title, source_created_at, source_updated_at, cwd, source_kind, source_detail, model_provider, git_branch, observation_sequence, missing_candidate) VALUES (?1, ?2, ?3, ?4, ?5, ?6, ?7, ?8, ?9, ?10, ?11, 0)".to_owned(),
        values,
    };
    assert(r.values.deep_view() =~= catalog_insert_write(insert.deep_view(), sequence).values);
    r
}

/// The values of a catalog row.
pub open spec fn image_values(image: RepairCatalogImageView) -> Seq<RepairSqlValueView> {
    seq![
        bound_text(image.host_id),
        bound_text(image.thread_id),
        bound_text(image.display_title),
        RepairSqlValueView::Real(image.source_created_at),
        RepairSqlValueView::Real(image.source_updated_at),
        bound_text(image.cwd),
        bound_text(image.source_kind),
        statements::text_or_null(image.source_detail),
        bound_text(image.model_provider),
        statements::text_or_null(image.git_branch),
        RepairSqlValueView::Integer(image.observation_sequence),
        statements::flag(image.missing_candidate),
    ]
}

fn list_image_values(image: &RepairCatalogImage) -> (r: Vec<RepairSqlValue>)
    ensures
        r.deep_view() == image_values(image.deep_view()),
{
    let values: Vec<RepairSqlValue> = vec![
        bind_text(&image.host_id),
        bind_text(&image.thread_id),
        bind_text(&image.display_title),
        RepairSqlValue::Real(image.source_created_at.copy_of()),
        RepairSqlValue::Real(image.source_updated_at.copy_of()),
        bind_text(&image.cwd),
        bind_text(&image.source_kind),
        find_text_or_null(&image.source_detail),
        bind_text(&image.model_provider),
        find_text_or_null(&image.git_branch),
        RepairSqlValue::Integer(image.observation_sequence),
        find_flag(image.missing_candidate),
    ];
    assert(values.deep_view() =~= image_values(image.deep_view()));
    values
}

/// The statement that puts a catalog row back that was there.
pub open spec fn catalog_image_insert(image: RepairCatalogImageView) -> StatementView {
    StatementView {
        sql: "INSERT INTO provider_catalog.local_thread_catalog (host_id, thread_id, display_title, source_created_at, source_updated_at, cwd, source_kind, source_detail, model_provider, git_branch, observation_sequence, missing_candidate) VALUES (?1, ?2, ?3, ?4, ?5, ?6, ?7, ?8, ?9, ?10, ?11, ?12)"@,
        values: image_values(image),
    }
}

/// The statement that puts a catalog row back that was there.
pub fn insert_catalog_journal_image(image: &RepairCatalogImage) -> (r: Statement)
    ensures
        r.deep_view() == catalog_image_insert(image.deep_view()),
{
    Statement {
        sql: "INSERT INTO provider_catalog.local_thread_catalog (host_id, thread_id, display_title, source_created_at, source_updated_at, cwd, source_kind, source_detail, model_provider, git_branch, observation_sequence, missing_candidate) VALUES (?1, ?2, ?3, ?4, ?5, ?6, ?7, ?8, ?9, ?10, ?11, ?12)".to_owned(),
        values: list_image_values(image),
    }
}

/// The statement that takes the change of a catalog row back, if it still is what the repair made
/// of it. A sequence that was counted on since is kept.
pub open spec fn catalog_image_restore(
    row: RepairCatalogJournalView,
    before: RepairCatalogImageView,
    after: RepairCatalogImageView,
) -> StatementView {
    StatementView {
        sql: "UPDATE provider_catalog.local_thread_catalog SET model_provider=?1, missing_candidate=?2, observation_sequence=CASE WHEN observation_sequence=?3 THEN ?4 ELSE observation_sequence END WHERE host_id=?5 AND thread_id=?6 AND model_provider=?7 AND missing_candidate=?8"@,
        values: seq![
            bound_text(before.model_provider),
            statements::flag(before.missing_candidate),
            RepairSqlValueView::Integer(after.observation_sequence),
            RepairSqlValueView::Integer(before.observation_sequence),
            bound_text(row.host_id),
            bound_text(row.thread_id),
            bound_text(after.model_provider),
            statements::flag(after.missing_candidate),
        ],
    }
}

/// The statement that deletes a catalog row that the repair added, if it still is as it was added.
pub open spec fn catalog_image_delete(image: RepairCatalogImageView) -> StatementView {
    StatementView {
        sql: "DELETE FROM provider_catalog.local_thread_catalog WHERE host_id=?1 AND thread_id=?2 AND display_title=?3 AND source_created_at=?4 AND source_updated_at=?5 AND cwd=?6 AND source_kind=?7 AND source_detail IS ?8 AND model_provider=?9 AND git_branch IS ?10 AND observation_sequence=?11 AND missing_candidate=?12"@,
        values: image_values(image),
    }
}

/// The statement that takes back what a repair did to a catalog row.
pub open spec fn catalog_undo(row: RepairCatalogJournalView) -> Option<StatementView> {
    match (row.before, row.after) {
        (Some(before), Some(after)) => Some(catalog_image_restore(row, before, after)),
        (None, Some(after)) => Some(catalog_image_delete(after)),
        (Some(before), None) => Some(catalog_image_insert(before)),
        (None, None) => None,
    }
}

fn restore_catalog_journal_image(row: &RepairCatalogJournal) -> (r: Option<Statement>)
    ensures
        r.deep_view() == catalog_undo(row.deep_view()),
{
    match (&row.before, &row.after) {
        (Some(before), Some(after)) => {
            let values: Vec<RepairSqlValue> = vec![
                bind_text(&before.model_provider),
                find_flag(before.missing_candidate),
                RepairSqlValue::Integer(after.observation_sequence),
                RepairSqlValue::Integer(before.observation_sequence),
                bind_text(&row.host_id),
                bind_text(&row.thread_id),
                bind_text(&after.model_provider),
                find_flag(after.missing_candidate),
            ];
            assert(values.deep_view() =~= catalog_image_restore(
                row.deep_view(),
                before.deep_view(),
                after.deep_view(),
            ).values);
            Some(
                Statement {
                    sql: "UPDATE provider_catalog.local_thread_catalog SET model_provider=?1, missing_candidate=?2, observation_sequence=CASE WHEN observation_sequence=?3 THEN ?4 ELSE observation_sequence END WHERE host_id=?5 AND thread_id=?6 AND model_provider=?7 AND missing_candidate=?8".to_owned(),
                    values,
                },
            )
        },
        (None, Some(after)) => Some(
            Statement {
                sql: "DELETE FROM provider_catalog.local_thread_catalog WHERE host_id=?1 AND thread_id=?2 AND display_title=?3 AND source_created_at=?4 AND source_updated_at=?5 AND cwd=?6 AND source_kind=?7 AND source_detail IS ?8 AND model_provider=?9 AND git_branch IS ?10 AND observation_sequence=?11 AND missing_candidate=?12".to_owned(),
                values: list_image_values(after),
            },
        ),
        (Some(before), None) => Some(insert_catalog_journal_image(before)),
        (None, None) => None,
    }
}

/// The statement that takes a step of a repair back; none where it is not one of the databases.
pub open spec fn undo_write(action: RecoveryActionView) -> Option<StatementView> {
    match action {
        RecoveryActionView::State { thread_id, before, after } => statements::image_restore(
            thread_id,
            before,
            after,
        ),
        RecoveryActionView::StateProvider { thread_id, provider_before, provider_after } => Some(
            StatementView {
                sql: "UPDATE threads SET model_provider=?1 WHERE id=?2 AND model_provider=?3"@,
                values: seq![
                    bound_text(provider_before),
                    bound_text(thread_id),
                    bound_text(provider_after),
                ],
            },
        ),
        RecoveryActionView::Catalog(row) => catalog_undo(row),
        RecoveryActionView::ObservationSequence { sequence_before, sequence_after } => Some(
            StatementView {
                sql: "UPDATE provider_catalog.local_thread_catalog_sync_state SET observation_sequence=?1 WHERE host_id='local' AND observation_sequence=?2"@,
                values: seq![
                    RepairSqlValueView::Integer(sequence_before),
                    RepairSqlValueView::Integer(sequence_after),
                ],
            },
        ),
        RecoveryActionView::CatalogRevision { revision_before, revision_after } => Some(
            StatementView {
                sql: "UPDATE provider_catalog.local_thread_catalog_metadata SET catalog_revision=?1 WHERE id=1 AND catalog_revision=?2"@,
                values: seq![
                    RepairSqlValueView::Integer(revision_before),
                    RepairSqlValueView::Integer(revision_after),
                ],
            },
        ),
        RecoveryActionView::Rollout(_) | RecoveryActionView::Projection(_) => None,
    }
}

/// The statement that takes a step of a repair back; none where it is not one of the databases.
pub fn undo_statement(action: &RecoveryAction) -> (r: Option<Statement>)
    ensures
        r.deep_view() == undo_write(action.deep_view()),
{
    match action {
        RecoveryAction::State { thread_id, before, after } => restore_state_journal_image(
            thread_id.as_str(),
            before,
            after,
        ),
        RecoveryAction::StateProvider { thread_id, provider_before, provider_after } => {
            let values: Vec<RepairSqlValue> = vec![
                bind_text(provider_before),
                bind_text(thread_id),
                bind_text(provider_after),
            ];
            assert(values.deep_view() =~= undo_write(action.deep_view())->0.values);
            Some(
                Statement {
                    sql: "UPDATE threads SET model_provider=?1 WHERE id=?2 AND model_provider=?3".to_owned(),
                    values,
                },
            )
        },
        RecoveryAction::Catalog(row) => restore_catalog_journal_image(row),
        RecoveryAction::ObservationSequence { sequence_before, sequence_after } => {
            let values: Vec<RepairSqlValue> = vec![
                RepairSqlValue::Integer(*sequence_before),
                RepairSqlValue::Integer(*sequence_after),
            ];
            assert(values.deep_view() =~= undo_write(action.deep_view())->0.values);
            Some(
                Statement {
                    sql: "UPDATE provider_catalog.local_thread_catalog_sync_state SET observation_sequence=?1 WHERE host_id='local' AND observation_sequence=?2".to_owned(),
                    values,
                },
            )
        },
        RecoveryAction::CatalogRevision { revision_before, revision_after } => {
            let values: Vec<RepairSqlValue> = vec![
                RepairSqlValue::Integer(*revision_before),
                RepairSqlValue::Integer(*revision_after),
            ];
            assert(values.deep_view() =~= undo_write(action.deep_view())->0.values);
            Some(
                Statement {
                    sql: "UPDATE provider_catalog.local_thread_catalog_metadata SET catalog_revision=?1 WHERE id=1 AND catalog_revision=?2".to_owned(),
                    values,
                },
            )
        },
        RecoveryAction::Rollout(_) => None,
        RecoveryAction::Projection(_) => None,
    }
}

/// A change of a state row names every value that the plan was made for.
pub proof fn law_state_write_expects_the_plan(update: StateUpdateView)
    ensures
        ({
            let values = state_update_write(update).values;
            &&& values.contains(bound_text(update.thread_id))
            &&& values.contains(bound_text(update.expected_provider))
            &&& values.contains(bound_text(update.expected_rollout_path))
            &&& values.contains(bound_text(update.expected_thread_source))
            &&& values.contains(statements::flag(update.expected_archived))
            &&& values.contains(statements::flag(update.expected_has_user_event))
        }),
{
    let values = state_update_write(update).values;
    assert(values[5] == bound_text(update.thread_id));
    assert(values[6] == bound_text(update.expected_provider));
    assert(values[7] == statements::flag(update.expected_archived));
    assert(values[8] == bound_text(update.expected_rollout_path));
    assert(values[9] == bound_text(update.expected_thread_source));
    assert(values[10] == statements::flag(update.expected_has_user_event));
}

} // verus!

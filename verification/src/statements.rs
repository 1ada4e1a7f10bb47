//! The statements that write sessions, and the counts that they must give.

use crate::backups::push_text;
use crate::journal::{
    RepairSqlValue, RepairSqlValueView, RepairStateImage, RepairStateImageView,
};
use crate::model::Model;
use crate::ordered;
use crate::planning::{RepairPlan, RepairPlanView};
use crate::recovery;
use crate::recovery::{join_all, RecoveryAction, RecoveryActionView};
use crate::schema;
use crate::schema::state_insert_supports_column;
use crate::sessions::{StateInsert, StateInsertView};
use crate::text;
use crate::text::{decimal, join2, join3, join4, join5, same};
use crate::verification;
use vstd::prelude::*;

verus! {

/// A group of writes of a plan.
#[derive(Clone, Copy, Debug, PartialEq, Eq, Structural)]
pub enum WriteGroup {
    StateUpdate,
    StateRestore,
    StateDelete,
    StateInsert,
    CatalogUpdate,
    CatalogInsert,
    CatalogDelete,
}

impl DeepView for WriteGroup {
    type V = WriteGroup;

    open spec fn deep_view(&self) -> WriteGroup {
        *self
    }
}

impl Model for WriteGroup {
    fn copy_of(&self) -> (r: Self) {
        *self
    }

    fn same_as(&self, other: &Self) -> (r: bool) {
        *self == *other
    }
}

/// A statement with the values of its placeholders.
#[derive(Clone, Debug, PartialEq, Eq)]
pub struct Statement {
    pub sql: String,
    pub values: Vec<RepairSqlValue>,
}

/// What a `Statement` stands for.
#[verifier::ext_equal]
pub struct StatementView {
    pub sql: Seq<char>,
    pub values: Seq<RepairSqlValueView>,
}

impl DeepView for Statement {
    type V = StatementView;

    open spec fn deep_view(&self) -> StatementView {
        StatementView {
            sql: self.sql.deep_view(),
            values: self.values.deep_view(),
        }
    }
}

impl Model for Statement {
    fn copy_of(&self) -> (r: Self) {
        Statement {
            sql: self.sql.copy_of(),
            values: self.values.copy_of(),
        }
    }

    fn same_as(&self, other: &Self) -> (r: bool) {
        self.sql.same_as(&other.sql)
            && self.values.same_as(&other.values)
    }
}

/// How many rows the groups of a plan changed.
#[derive(Clone, Debug, PartialEq, Eq)]
pub struct WriteCounts {
    pub state_updates: usize,
    pub state_restores: usize,
    pub state_deletes: usize,
    pub state_inserts: usize,
    pub catalog_updates: usize,
    pub catalog_inserts: usize,
    pub catalog_deletes: usize,
    /// The counters of the catalog: the observation sequence, and the revision.
    pub sync_rows: usize,
    pub revision_rows: usize,
}

/// What a `WriteCounts` stands for.
#[verifier::ext_equal]
pub struct WriteCountsView {
    pub state_updates: usize,
    pub state_restores: usize,
    pub state_deletes: usize,
    pub state_inserts: usize,
    pub catalog_updates: usize,
    pub catalog_inserts: usize,
    pub catalog_deletes: usize,
    pub sync_rows: usize,
    pub revision_rows: usize,
}

impl DeepView for WriteCounts {
    type V = WriteCountsView;

    open spec fn deep_view(&self) -> WriteCountsView {
        WriteCountsView {
            state_updates: self.state_updates.deep_view(),
            state_restores: self.state_restores.deep_view(),
            state_deletes: self.state_deletes.deep_view(),
            state_inserts: self.state_inserts.deep_view(),
            catalog_updates: self.catalog_updates.deep_view(),
            catalog_inserts: self.catalog_inserts.deep_view(),
            catalog_deletes: self.catalog_deletes.deep_view(),
            sync_rows: self.sync_rows.deep_view(),
            revision_rows: self.revision_rows.deep_view(),
        }
    }
}

impl Model for WriteCounts {
    fn copy_of(&self) -> (r: Self) {
        WriteCounts {
            state_updates: self.state_updates.copy_of(),
            state_restores: self.state_restores.copy_of(),
            state_deletes: self.state_deletes.copy_of(),
            state_inserts: self.state_inserts.copy_of(),
            catalog_updates: self.catalog_updates.copy_of(),
            catalog_inserts: self.catalog_inserts.copy_of(),
            catalog_deletes: self.catalog_deletes.copy_of(),
            sync_rows: self.sync_rows.copy_of(),
            revision_rows: self.revision_rows.copy_of(),
        }
    }

    fn same_as(&self, other: &Self) -> (r: bool) {
        self.state_updates.same_as(&other.state_updates)
            && self.state_restores.same_as(&other.state_restores)
            && self.state_deletes.same_as(&other.state_deletes)
            && self.state_inserts.same_as(&other.state_inserts)
            && self.catalog_updates.same_as(&other.catalog_updates)
            && self.catalog_inserts.same_as(&other.catalog_inserts)
            && self.catalog_deletes.same_as(&other.catalog_deletes)
            && self.sync_rows.same_as(&other.sync_rows)
            && self.revision_rows.same_as(&other.revision_rows)
    }
}

/// What a plan changed.
#[derive(Clone, Debug, PartialEq, Eq)]
pub struct AppliedPlan {
    pub provider_changes: usize,
    pub index_changes: usize,
}

/// What a `AppliedPlan` stands for.
#[verifier::ext_equal]
pub struct AppliedPlanView {
    pub provider_changes: usize,
    pub index_changes: usize,
}

impl DeepView for AppliedPlan {
    type V = AppliedPlanView;

    open spec fn deep_view(&self) -> AppliedPlanView {
        AppliedPlanView {
            provider_changes: self.provider_changes.deep_view(),
            index_changes: self.index_changes.deep_view(),
        }
    }
}

impl Model for AppliedPlan {
    fn copy_of(&self) -> (r: Self) {
        AppliedPlan {
            provider_changes: self.provider_changes.copy_of(),
            index_changes: self.index_changes.copy_of(),
        }
    }

    fn same_as(&self, other: &Self) -> (r: bool) {
        self.provider_changes.same_as(&other.provider_changes)
            && self.index_changes.same_as(&other.index_changes)
    }
}

/// Milliseconds, the extreme ones where there are more.
pub open spec fn millis_of(seconds: i64) -> i64 {
    if seconds * 1000 > i64::MAX {
        i64::MAX
    } else if seconds * 1000 < i64::MIN {
        i64::MIN
    } else {
        (seconds * 1000) as i64
    }
}

/// Milliseconds of seconds.
pub fn timestamp_millis(seconds: i64) -> (r: i64)
    ensures
        r == millis_of(seconds),
{
    if seconds > 9223372036854775 {
        i64::MAX
    } else if seconds < -9223372036854775 {
        i64::MIN
    } else {
        seconds * 1000
    }
}

/// A text value, or none.
pub open spec fn text_or_null(value: Option<Seq<char>>) -> RepairSqlValueView {
    match value {
        Some(text) => RepairSqlValueView::Text(text),
        None => RepairSqlValueView::Null,
    }
}

/// A text, or nothing, as it is bound.
pub fn find_text_or_null(value: &Option<String>) -> (r: RepairSqlValue)
    ensures
        r.deep_view() == text_or_null(value.deep_view()),
{
    match value {
        Some(text) => RepairSqlValue::Text(text.copy_of()),
        None => RepairSqlValue::Null,
    }
}

/// A truth value as a number.
pub open spec fn flag(value: bool) -> RepairSqlValueView {
    RepairSqlValueView::Integer(
        if value {
            1
        } else {
            0
        },
    )
}

/// A truth value as it is bound.
pub fn find_flag(value: bool) -> (r: RepairSqlValue)
    ensures
        r.deep_view() == flag(value),
{
    if value {
        RepairSqlValue::Integer(1)
    } else {
        RepairSqlValue::Integer(0)
    }
}

/// The value of a column of a new session.
pub open spec fn insert_value(
    insert: StateInsertView,
    column: Seq<char>,
) -> Option<RepairSqlValueView> {
    if column == "id"@ {
        Some(RepairSqlValueView::Text(insert.thread_id))
    } else if column == "rollout_path"@ {
        Some(RepairSqlValueView::Text(insert.rollout_path))
    } else if column == "created_at"@ {
        Some(RepairSqlValueView::Integer(insert.created_at))
    } else if column == "created_at_ms"@ {
        Some(RepairSqlValueView::Integer(millis_of(insert.created_at)))
    } else if column == "updated_at"@ || column == "recency_at"@ {
        Some(RepairSqlValueView::Integer(insert.updated_at))
    } else if column == "updated_at_ms"@ || column == "recency_at_ms"@ {
        Some(RepairSqlValueView::Integer(millis_of(insert.updated_at)))
    } else if column == "source"@ {
        Some(RepairSqlValueView::Text(insert.source))
    } else if column == "thread_source"@ {
        Some(RepairSqlValueView::Text(insert.thread_source))
    } else if column == "model_provider"@ {
        Some(RepairSqlValueView::Text(insert.provider))
    } else if column == "cwd"@ {
        Some(RepairSqlValueView::Text(insert.cwd))
    } else if column == "title"@ {
        Some(RepairSqlValueView::Text(insert.title))
    } else if column == "preview"@ {
        Some(RepairSqlValueView::Text(insert.preview))
    } else if column == "sandbox_policy"@ {
        Some(RepairSqlValueView::Text(insert.sandbox_policy))
    } else if column == "approval_mode"@ {
        Some(RepairSqlValueView::Text(insert.approval_mode))
    } else if column == "tokens_used"@ {
        Some(RepairSqlValueView::Integer(0))
    } else if column == "has_user_event"@ {
        Some(flag(insert.has_user_event))
    } else if column == "archived"@ {
        Some(flag(insert.archived))
    } else if column == "git_sha"@ {
        Some(text_or_null(insert.git_sha))
    } else if column == "git_branch"@ {
        Some(text_or_null(insert.git_branch))
    } else if column == "git_origin_url"@ {
        Some(text_or_null(insert.git_origin_url))
    } else if column == "cli_version"@ {
        Some(RepairSqlValueView::Text(insert.cli_version))
    } else if column == "first_user_message"@ {
        Some(RepairSqlValueView::Text(insert.first_user_message))
    } else if column == "agent_nickname"@ || column == "agent_role"@ {
        Some(RepairSqlValueView::Null)
    } else if column == "memory_mode"@ {
        Some(RepairSqlValueView::Text("enabled"@))
    } else {
        None
    }
}

/// The value of a column of a new session.
pub fn state_insert_value(insert: &StateInsert, column: &str) -> (r: Option<RepairSqlValue>)
    ensures
        r.deep_view() == insert_value(insert.deep_view(), column@),
{
    if same(column, "id") {
        Some(RepairSqlValue::Text(insert.thread_id.copy_of()))
    } else if same(column, "rollout_path") {
        Some(RepairSqlValue::Text(insert.rollout_path.copy_of()))
    } else if same(column, "created_at") {
        Some(RepairSqlValue::Integer(insert.created_at))
    } else if same(column, "created_at_ms") {
        Some(RepairSqlValue::Integer(timestamp_millis(insert.created_at)))
    } else if same(column, "updated_at") || same(column, "recency_at") {
        Some(RepairSqlValue::Integer(insert.updated_at))
    } else if same(column, "updated_at_ms") || same(column, "recency_at_ms") {
        Some(RepairSqlValue::Integer(timestamp_millis(insert.updated_at)))
    } else if same(column, "source") {
        Some(RepairSqlValue::Text(insert.source.copy_of()))
    } else if same(column, "thread_source") {
        Some(RepairSqlValue::Text(insert.thread_source.copy_of()))
    } else if same(column, "model_provider") {
        Some(RepairSqlValue::Text(insert.provider.copy_of()))
    } else if same(column, "cwd") {
        Some(RepairSqlValue::Text(insert.cwd.copy_of()))
    } else if same(column, "title") {
        Some(RepairSqlValue::Text(insert.title.copy_of()))
    } else if same(column, "preview") {
        Some(RepairSqlValue::Text(insert.preview.copy_of()))
    } else if same(column, "sandbox_policy") {
        Some(RepairSqlValue::Text(insert.sandbox_policy.copy_of()))
    } else if same(column, "approval_mode") {
        Some(RepairSqlValue::Text(insert.approval_mode.copy_of()))
    } else if same(column, "tokens_used") {
        Some(RepairSqlValue::Integer(0))
    } else if same(column, "has_user_event") {
        Some(find_flag(insert.has_user_event))
    } else if same(column, "archived") {
        Some(find_flag(insert.archived))
    } else if same(column, "git_sha") {
        Some(find_text_or_null(&insert.git_sha))
    } else if same(column, "git_branch") {
        Some(find_text_or_null(&insert.git_branch))
    } else if same(column, "git_origin_url") {
        Some(find_text_or_null(&insert.git_origin_url))
    } else if same(column, "cli_version") {
        Some(RepairSqlValue::Text(insert.cli_version.copy_of()))
    } else if same(column, "first_user_message") {
        Some(RepairSqlValue::Text(insert.first_user_message.copy_of()))
    } else if same(column, "agent_nickname") || same(column, "agent_role") {
        Some(RepairSqlValue::Null)
    } else if same(column, "memory_mode") {
        Some(RepairSqlValue::Text("enabled".to_owned()))
    } else {
        None
    }
}

/// A new session has a value for exactly the columns that it can fill.
pub proof fn law_fillable_columns_have_values(insert: StateInsertView, column: Seq<char>)
    ensures
        insert_value(insert, column) is Some <==> schema::fillable(column),
{
}

/// A text with every quote doubled.
pub open spec fn doubled_quotes(s: Seq<char>) -> Seq<char>
    decreases s.len(),
{
    if s.len() == 0 {
        Seq::empty()
    } else if s.last() == '"' {
        doubled_quotes(s.drop_last()).push('"').push('"')
    } else {
        doubled_quotes(s.drop_last()).push(s.last())
    }
}

/// A name in quotes.
pub open spec fn quoted(name: Seq<char>) -> Seq<char> {
    "\""@ + doubled_quotes(name) + "\""@
}

/// A name in quotes, as statements give the names of columns.
pub fn quoted_identifier(name: &str) -> (r: String)
    ensures
        r@ == quoted(name@),
{
    let chars = text::chars_of(name);
    let ghost view = name@;
    let mut inner = String::new();
    let mut i: usize = 0;
    assert(inner@ =~= doubled_quotes(view.take(0)));
    while i < chars.len()
        invariant
            i <= chars@.len(),
            view == chars@,
            inner@ == doubled_quotes(view.take(i as int)),
        decreases chars@.len() - i,
    {
        let c = chars[i];
        assert(view.take(i + 1).drop_last() =~= view.take(i as int));
        assert(view.take(i + 1).last() == c);
        if c == '"' {
            inner.push('"');
        }
        inner.push(c);
        i += 1;
    }
    assert(view.take(i as int) =~= view);
    join3("\"", inner.as_str(), "\"")
}

/// Names in quotes.
pub open spec fn quoted_names(names: Seq<Seq<char>>) -> Seq<Seq<char>> {
    names.map_values(|name: Seq<char>| quoted(name))
}

/// Placeholders: a question mark and a number, from 1 on.
pub open spec fn placeholders(count: nat) -> Seq<Seq<char>> {
    Seq::new(count, |i: int| "?"@ + text::decimal_text((i + 1) as nat))
}

/// The statement that adds a row with the columns.
pub open spec fn insert_sql(columns: Seq<Seq<char>>) -> Seq<char> {
    "INSERT INTO threads ("@ + recovery::joined(quoted_names(columns), ", "@) + ") VALUES ("@
        + recovery::joined(placeholders(columns.len()), ", "@) + ")"@
}

fn quote_names(names: &Vec<String>) -> (r: Vec<String>)
    ensures
        r.deep_view() == quoted_names(names.deep_view()),
{
    let ghost view = names.deep_view();
    let mut out: Vec<String> = Vec::new();
    let mut i: usize = 0;
    while i < names.len()
        invariant
            i <= names@.len(),
            view == names.deep_view(),
            out@.len() == i,
            forall|j: int| 0 <= j < i ==> #[trigger] out@[j].deep_view() == quoted(view[j]),
        decreases names@.len() - i,
    {
        assert(view[i as int] == names@[i as int]@);
        out.push(quoted_identifier(names[i].as_str()));
        i += 1;
    }
    assert(out.deep_view() =~= quoted_names(view));
    out
}

fn list_placeholders(count: usize) -> (r: Vec<String>)
    ensures
        r.deep_view() == placeholders(count as nat),
{
    let mut out: Vec<String> = Vec::new();
    let mut i: usize = 0;
    while i < count
        invariant
            i <= count,
            out@.len() == i,
            forall|j: int|
                0 <= j < i ==> #[trigger] out@[j].deep_view() == placeholders(count as nat)[j],
        decreases count - i,
    {
        i += 1;
        let number = decimal(i as u64);
        out.push(join2("?", number.as_str()));
    }
    assert(out.deep_view() =~= placeholders(count as nat));
    out
}

fn write_insert_sql(columns: &Vec<String>) -> (r: String)
    ensures
        r@ == insert_sql(columns.deep_view()),
{
    let quoted = quote_names(columns);
    let names = join_all(&quoted, ", ");
    let marks = list_placeholders(columns.len());
    let values = join_all(&marks, ", ");
    join5("INSERT INTO threads (", names.as_str(), ") VALUES (", values.as_str(), ")")
}

/// The columns that a new session fills, in their order.
pub open spec fn filled_columns(columns: Seq<Seq<char>>) -> Seq<Seq<char>>
    decreases columns.len(),
{
    if columns.len() == 0 {
        Seq::empty()
    } else {
        let rest = filled_columns(columns.drop_last());
        if schema::fillable(columns.last()) {
            rest.push(columns.last())
        } else {
            rest
        }
    }
}

/// The columns that a new session fills, in their order.
pub fn select_insert_columns(columns: &Vec<String>) -> (r: Vec<String>)
    ensures
        r.deep_view() == filled_columns(columns.deep_view()),
{
    let ghost view = columns.deep_view();
    let mut out: Vec<String> = Vec::new();
    let mut i: usize = 0;
    assert(out.deep_view() =~= filled_columns(view.take(0)));
    while i < columns.len()
        invariant
            i <= columns@.len(),
            view == columns.deep_view(),
            out.deep_view() == filled_columns(view.take(i as int)),
        decreases columns@.len() - i,
    {
        assert(view[i as int] == columns@[i as int]@);
        assert(view.take(i + 1).drop_last() =~= view.take(i as int));
        if state_insert_supports_column(columns[i].as_str()) {
            push_text(&mut out, columns[i].copy_of());
        }
        i += 1;
    }
    assert(view.take(i as int) =~= view);
    out
}

proof fn lemma_filled_are_fillable(columns: Seq<Seq<char>>)
    ensures
        forall|i: int|
            0 <= i < filled_columns(columns).len() ==> schema::fillable(
                #[trigger] filled_columns(columns)[i],
            ),
    decreases columns.len(),
{
    if columns.len() > 0 {
        lemma_filled_are_fillable(columns.drop_last());
        let rest = filled_columns(columns.drop_last());
        let whole = filled_columns(columns);
        assert forall|i: int| 0 <= i < whole.len() implies schema::fillable(
            #[trigger] whole[i],
        ) by {
            if i < rest.len() {
                assert(whole[i] == rest[i]);
            }
        }
    }
}

/// The values of the columns of a new session.
pub open spec fn insert_values(insert: StateInsertView, columns: Seq<Seq<char>>) -> Seq<
    RepairSqlValueView,
> {
    columns.map_values(|column: Seq<char>| insert_value(insert, column)->0)
}

/// The statement that adds a session to a table with the columns.
pub open spec fn session_insert(insert: StateInsertView, columns: Seq<Seq<char>>) -> StatementView {
    let filled = filled_columns(columns);
    StatementView { sql: insert_sql(filled), values: insert_values(insert, filled) }
}

/// The statement that adds a session to a table with the columns: only those that it can fill are
/// named.
pub fn state_insert_statement(insert: &StateInsert, columns: &Vec<String>) -> (r: Statement)
    ensures
        r.deep_view() == session_insert(insert.deep_view(), columns.deep_view()),
{
    let filled = select_insert_columns(columns);
    let ghost view = filled.deep_view();
    proof {
        lemma_filled_are_fillable(columns.deep_view());
    }
    let mut values: Vec<RepairSqlValue> = Vec::new();
    let mut i: usize = 0;
    while i < filled.len()
        invariant
            i <= filled@.len(),
            view == filled.deep_view(),
            forall|j: int| 0 <= j < view.len() ==> schema::fillable(#[trigger] view[j]),
            values@.len() == i,
            forall|j: int|
                0 <= j < i ==> #[trigger] values@[j].deep_view() == insert_value(
                    insert.deep_view(),
                    view[j],
                )->0,
        decreases filled@.len() - i,
    {
        assert(view[i as int] == filled@[i as int]@);
        proof {
            law_fillable_columns_have_values(insert.deep_view(), view[i as int]);
        }
        match state_insert_value(insert, filled[i].as_str()) {
            Some(value) => values.push(value),
            None => values.push(RepairSqlValue::Null),
        }
        i += 1;
    }
    assert(values.deep_view() =~= insert_values(insert.deep_view(), view));
    Statement { sql: write_insert_sql(&filled), values }
}

/// The columns of an image, in order.
pub open spec fn image_columns(image: RepairStateImageView) -> Seq<Seq<char>> {
    ordered::listed::<String>(image.values.dom())
}

/// The statement that puts a row back that was there.
pub open spec fn image_insert(image: RepairStateImageView) -> StatementView {
    let columns = image_columns(image);
    StatementView {
        sql: insert_sql(columns),
        values: columns.map_values(|column: Seq<char>| image.values[column]),
    }
}

fn list_image(image: &RepairStateImage, skip_id: bool) -> (r: (Vec<String>, Vec<RepairSqlValue>))
    ensures
        r.0.deep_view() == kept_columns(image_columns(image.deep_view()), skip_id),
        r.1.deep_view() == kept_columns(image_columns(image.deep_view()), skip_id).map_values(
            |column: Seq<char>| image.deep_view().values[column],
        ),
{
    let ghost values = image.deep_view().values;
    let count: usize = image.values.len();
    let ghost listed = image_columns(image.deep_view());
    let mut names: Vec<String> = Vec::new();
    let mut out: Vec<RepairSqlValue> = Vec::new();
    let mut i: usize = 0;
    assert(names.deep_view() =~= kept_columns(listed.take(0), skip_id));
    assert(out.deep_view() =~= kept_columns(listed.take(0), skip_id).map_values(
        |column: Seq<char>| values[column],
    ));
    while i < count
        invariant
            i <= count == listed.len(),
            values == image.deep_view().values,
            image.values.keys_describe(),
            image.values.keys() == listed,
            names.deep_view() == kept_columns(listed.take(i as int), skip_id),
            out.deep_view() == kept_columns(listed.take(i as int), skip_id).map_values(
                |column: Seq<char>| values[column],
            ),
        decreases count - i,
    {
        let name = image.values.key_at(i);
        let ghost before_names = names.deep_view();
        let ghost before_values = out.deep_view();
        assert(listed.take(i + 1).drop_last() =~= listed.take(i as int));
        assert(listed.take(i + 1).last() == name@);
        if !(skip_id && same(name.as_str(), "id")) {
            let value = image.values.value_at(i).copy_of();
            let ghost added = value.deep_view();
            push_text(&mut names, name.copy_of());
            out.push(value);
            assert(out.deep_view() =~= before_values.push(added));
            assert(out.deep_view() =~= before_names.push(name@).map_values(
                |column: Seq<char>| values[column],
            ));
        }
        i += 1;
    }
    assert(listed.take(i as int) =~= listed);
    (names, out)
}

/// The columns, without the id where it is not wanted.
pub open spec fn kept_columns(columns: Seq<Seq<char>>, skip_id: bool) -> Seq<Seq<char>>
    decreases columns.len(),
{
    if columns.len() == 0 {
        Seq::empty()
    } else {
        let rest = kept_columns(columns.drop_last(), skip_id);
        if skip_id && columns.last() == "id"@ {
            rest
        } else {
            rest.push(columns.last())
        }
    }
}

proof fn lemma_all_columns_kept(columns: Seq<Seq<char>>)
    ensures
        kept_columns(columns, false) == columns,
    decreases columns.len(),
{
    if columns.len() > 0 {
        lemma_all_columns_kept(columns.drop_last());
        assert(columns.drop_last().push(columns.last()) =~= columns);
    } else {
        assert(columns =~= Seq::empty());
    }
}

/// The statement that puts a row back that was there.
pub fn insert_state_journal_image(image: &RepairStateImage) -> (r: Statement)
    ensures
        r.deep_view() == image_insert(image.deep_view()),
{
    let (names, values) = list_image(image, false);
    proof {
        lemma_all_columns_kept(image_columns(image.deep_view()));
    }
    Statement { sql: write_insert_sql(&names), values }
}

/// Assignments of placeholders to columns.
pub open spec fn assignments(columns: Seq<Seq<char>>) -> Seq<Seq<char>> {
    Seq::new(
        columns.len(),
        |i: int| quoted(columns[i]) + "=?"@ + text::decimal_text((i + 1) as nat),
    )
}

fn list_assignments(columns: &Vec<String>) -> (r: Vec<String>)
    ensures
        r.deep_view() == assignments(columns.deep_view()),
{
    let ghost view = columns.deep_view();
    let mut out: Vec<String> = Vec::new();
    let mut i: usize = 0;
    while i < columns.len()
        invariant
            i <= columns@.len(),
            view == columns.deep_view(),
            out@.len() == i,
            forall|j: int| 0 <= j < i ==> #[trigger] out@[j].deep_view() == assignments(view)[j],
        decreases columns@.len() - i,
    {
        assert(view[i as int] == columns@[i as int]@);
        let name = quoted_identifier(columns[i].as_str());
        i += 1;
        let number = decimal(i as u64);
        out.push(join3(name.as_str(), "=?", number.as_str()));
    }
    assert(out.deep_view() =~= assignments(view));
    out
}

/// The statement that puts the values of a row back.
pub open spec fn image_update(thread_id: Seq<char>, image: RepairStateImageView) -> StatementView {
    let columns = kept_columns(image_columns(image), true);
    StatementView {
        sql: "UPDATE threads SET "@ + recovery::joined(assignments(columns), ", "@)
            + " WHERE id=?"@ + text::decimal_text(columns.len() + 1),
        values: columns.map_values(|column: Seq<char>| image.values[column]).push(
            RepairSqlValueView::Text(thread_id),
        ),
    }
}

/// The statement that removes a row.
pub open spec fn row_delete(thread_id: Seq<char>) -> StatementView {
    StatementView {
        sql: "DELETE FROM threads WHERE id=?1"@,
        values: seq![RepairSqlValueView::Text(thread_id)],
    }
}

/// The statement that puts a row back as a repair found it.
pub open spec fn image_restore(
    thread_id: Seq<char>,
    before: Option<RepairStateImageView>,
    after: Option<RepairStateImageView>,
) -> Option<StatementView> {
    match (before, after) {
        (None, Some(_)) => Some(row_delete(thread_id)),
        (Some(image), None) => Some(image_insert(image)),
        (Some(image), Some(_)) => Some(image_update(thread_id, image)),
        (None, None) => None,
    }
}

fn write_image_update(thread_id: &str, image: &RepairStateImage) -> (r: Statement)
    ensures
        r.deep_view() == image_update(thread_id@, image.deep_view()),
{
    let (names, values) = list_image(image, true);
    let ghost before = values.deep_view();
    let mut values = values;
    values.push(RepairSqlValue::Text(thread_id.to_owned()));
    assert(values.deep_view() =~= before.push(RepairSqlValueView::Text(thread_id@)));
    let parts = list_assignments(&names);
    let joined = join_all(&parts, ", ");
    let number = decimal(values.len() as u64);
    Statement {
        sql: join4("UPDATE threads SET ", joined.as_str(), " WHERE id=?", number.as_str()),
        values,
    }
}

/// The statement that puts a row back as a repair found it; none where there was no row.
pub fn restore_state_journal_image(
    thread_id: &str,
    before: &Option<RepairStateImage>,
    after: &Option<RepairStateImage>,
) -> (r: Option<Statement>)
    ensures
        r.deep_view() == image_restore(thread_id@, before.deep_view(), after.deep_view()),
{
    match (before, after) {
        (None, Some(_)) => {
            let mut values: Vec<RepairSqlValue> = Vec::new();
            values.push(RepairSqlValue::Text(thread_id.to_owned()));
            assert(values.deep_view() =~= seq![RepairSqlValueView::Text(thread_id@)]);
            Some(Statement { sql: "DELETE FROM threads WHERE id=?1".to_owned(), values })
        },
        (Some(image), None) => Some(insert_state_journal_image(image)),
        (Some(image), Some(_)) => Some(write_image_update(thread_id, image)),
        (None, None) => None,
    }
}

/// The message where a write that puts a row back did not change exactly one row.
pub open spec fn undo_write_fault(action: RecoveryActionView) -> Seq<char> {
    match action {
        RecoveryActionView::State { thread_id, before, after } => if before is None {
            "state insert CAS recovery failed: "@ + thread_id
        } else if after is None {
            "state image insert did not create exactly one row"@
        } else {
            "state row CAS recovery failed: "@ + thread_id
        },
        RecoveryActionView::StateProvider { thread_id, .. } => "state CAS recovery failed: "@
            + thread_id,
        RecoveryActionView::Catalog(row) => if row.before is None {
            "catalog insert CAS recovery failed: "@ + row.host_id + ":"@ + row.thread_id
        } else {
            "catalog CAS recovery failed: "@ + row.host_id + ":"@ + row.thread_id
        },
        RecoveryActionView::ObservationSequence { .. } =>
            "catalog observation sequence CAS recovery failed"@,
        RecoveryActionView::CatalogRevision { .. } => "catalog revision CAS recovery failed"@,
        RecoveryActionView::Rollout(row) => "rollout recovery failed: "@ + row.thread_id,
        RecoveryActionView::Projection(_) => "projection recovery failed"@,
    }
}

/// Checks that a write that puts a row back changed exactly one row.
pub fn check_undo_write(action: &RecoveryAction, changed: usize) -> (r: Option<String>)
    ensures
        r.deep_view() == (if changed == 1 {
            None
        } else {
            Some(undo_write_fault(action.deep_view()))
        }),
{
    if changed == 1 {
        return None;
    }
    Some(
        match action {
            RecoveryAction::State { thread_id, before, after } => {
                if before.is_none() {
                    join2("state insert CAS recovery failed: ", thread_id.as_str())
                } else if after.is_none() {
                    "state image insert did not create exactly one row".to_owned()
                } else {
                    join2("state row CAS recovery failed: ", thread_id.as_str())
                }
            },
            RecoveryAction::StateProvider { thread_id, .. } => join2(
                "state CAS recovery failed: ",
                thread_id.as_str(),
            ),
            RecoveryAction::Catalog(row) => {
                if row.before.is_none() {
                    join4(
                        "catalog insert CAS recovery failed: ",
                        row.host_id.as_str(),
                        ":",
                        row.thread_id.as_str(),
                    )
                } else {
                    join4(
                        "catalog CAS recovery failed: ",
                        row.host_id.as_str(),
                        ":",
                        row.thread_id.as_str(),
                    )
                }
            },
            RecoveryAction::ObservationSequence { .. } =>
                "catalog observation sequence CAS recovery failed".to_owned(),
            RecoveryAction::CatalogRevision { .. } =>
                "catalog revision CAS recovery failed".to_owned(),
            RecoveryAction::Rollout(row) => join2(
                "rollout recovery failed: ",
                row.thread_id.as_str(),
            ),
            RecoveryAction::Projection(_) => "projection recovery failed".to_owned(),
        },
    )
}

/// The name of a group of writes, as messages give it.
pub open spec fn group_name(group: WriteGroup) -> Seq<char> {
    match group {
        WriteGroup::StateUpdate => "state update"@,
        WriteGroup::StateRestore => "state restore"@,
        WriteGroup::StateDelete => "state delete"@,
        WriteGroup::StateInsert => "state insert"@,
        WriteGroup::CatalogUpdate => "catalog update"@,
        WriteGroup::CatalogInsert => "catalog insert"@,
        WriteGroup::CatalogDelete => "catalog delete"@,
    }
}

/// The message where a group of writes changed another number of rows.
pub open spec fn count_fault(group: WriteGroup, expected: usize, got: usize) -> Option<Seq<char>> {
    if expected == got {
        None
    } else {
        Some(
            group_name(group) + " count mismatch: expected "@ + text::decimal_text(expected as nat)
                + ", got "@ + text::decimal_text(got as nat),
        )
    }
}

/// Checks that a group of writes changed as many rows as it has writes.
pub fn check_write_count(group: WriteGroup, expected: usize, got: usize) -> (r: Option<String>)
    ensures
        r.deep_view() == count_fault(group, expected, got),
{
    if expected == got {
        return None;
    }
    let name = match group {
        WriteGroup::StateUpdate => "state update",
        WriteGroup::StateRestore => "state restore",
        WriteGroup::StateDelete => "state delete",
        WriteGroup::StateInsert => "state insert",
        WriteGroup::CatalogUpdate => "catalog update",
        WriteGroup::CatalogInsert => "catalog insert",
        WriteGroup::CatalogDelete => "catalog delete",
    };
    let expected = decimal(expected as u64);
    let got = decimal(got as u64);
    Some(join5(name, " count mismatch: expected ", expected.as_str(), ", got ", got.as_str()))
}

/// The plan writes the catalog.
pub open spec fn writes_catalog(plan: RepairPlanView) -> bool {
    plan.catalog_updates.len() > 0 || plan.catalog_inserts.len() > 0 || plan.catalog_deletes.len()
        > 0
}

/// Whether the plan writes the catalog.
pub fn plan_writes_catalog(plan: &RepairPlan) -> (r: bool)
    ensures
        r == writes_catalog(plan.deep_view()),
{
    plan.catalog_updates.len() > 0 || plan.catalog_inserts.len() > 0 || plan.catalog_deletes.len()
        > 0
}

/// Why the writes of a plan are taken back: a group changed another number of rows, or a counter of
/// the catalog is missing.
pub open spec fn apply_fault(plan: RepairPlanView, counts: WriteCountsView) -> Option<Seq<char>> {
    let updates = count_fault(
        WriteGroup::StateUpdate,
        plan.state_updates.len() as usize,
        counts.state_updates,
    );
    let restores = count_fault(
        WriteGroup::StateRestore,
        plan.state_restores.len() as usize,
        counts.state_restores,
    );
    let deletes = count_fault(
        WriteGroup::StateDelete,
        plan.state_deletes.len() as usize,
        counts.state_deletes,
    );
    let inserts = count_fault(
        WriteGroup::StateInsert,
        plan.state_inserts.len() as usize,
        counts.state_inserts,
    );
    let listed = count_fault(
        WriteGroup::CatalogUpdate,
        plan.catalog_updates.len() as usize,
        counts.catalog_updates,
    );
    let added = count_fault(
        WriteGroup::CatalogInsert,
        plan.catalog_inserts.len() as usize,
        counts.catalog_inserts,
    );
    let removed = count_fault(
        WriteGroup::CatalogDelete,
        plan.catalog_deletes.len() as usize,
        counts.catalog_deletes,
    );
    if updates is Some {
        updates
    } else if restores is Some {
        restores
    } else if deletes is Some {
        deletes
    } else if inserts is Some {
        inserts
    } else if !writes_catalog(plan) {
        None
    } else if listed is Some {
        listed
    } else if added is Some {
        added
    } else if removed is Some {
        removed
    } else if counts.sync_rows != 1 || counts.revision_rows != 1 {
        Some("local catalog watermark rows are missing"@)
    } else {
        None
    }
}

/// What a plan changed, once its writes were checked.
pub open spec fn applied(plan: RepairPlanView) -> AppliedPlanView {
    AppliedPlanView {
        provider_changes: verification::count_of(
            (plan.state_updates.len() + plan.state_restores.len() + plan.state_inserts.len()
                + plan.state_deletes.len() + plan.catalog_updates.len()) as int,
        ),
        index_changes: verification::count_of(
            (plan.catalog_inserts.len() + plan.catalog_deletes.len()) as int,
        ),
    }
}

fn find_apply_fault(plan: &RepairPlan, counts: &WriteCounts) -> (r: Option<String>)
    ensures
        r.deep_view() == apply_fault(plan.deep_view(), counts.deep_view()),
{
    let fault = check_write_count(
        WriteGroup::StateUpdate,
        plan.state_updates.len(),
        counts.state_updates,
    );
    if fault.is_some() {
        return fault;
    }
    let fault = check_write_count(
        WriteGroup::StateRestore,
        plan.state_restores.len(),
        counts.state_restores,
    );
    if fault.is_some() {
        return fault;
    }
    let fault = check_write_count(
        WriteGroup::StateDelete,
        plan.state_deletes.len(),
        counts.state_deletes,
    );
    if fault.is_some() {
        return fault;
    }
    let fault = check_write_count(
        WriteGroup::StateInsert,
        plan.state_inserts.len(),
        counts.state_inserts,
    );
    if fault.is_some() {
        return fault;
    }
    if !plan_writes_catalog(plan) {
        return None;
    }
    let fault = check_write_count(
        WriteGroup::CatalogUpdate,
        plan.catalog_updates.len(),
        counts.catalog_updates,
    );
    if fault.is_some() {
        return fault;
    }
    let fault = check_write_count(
        WriteGroup::CatalogInsert,
        plan.catalog_inserts.len(),
        counts.catalog_inserts,
    );
    if fault.is_some() {
        return fault;
    }
    let fault = check_write_count(
        WriteGroup::CatalogDelete,
        plan.catalog_deletes.len(),
        counts.catalog_deletes,
    );
    if fault.is_some() {
        return fault;
    }
    if counts.sync_rows != 1 || counts.revision_rows != 1 {
        return Some("local catalog watermark rows are missing".to_owned());
    }
    None
}

/// What a plan changed, or why its writes are taken back: every write must have changed exactly one
/// row, one that read as the plan expects. `counts` are the rows that the groups changed.
pub fn apply_plan_with_fence(plan: &RepairPlan, counts: &WriteCounts) -> (r: Result<
    AppliedPlan,
    String,
>)
    ensures
        match apply_fault(plan.deep_view(), counts.deep_view()) {
            Some(fault) => r is Err && r->Err_0@ == fault,
            None => r is Ok && r->Ok_0.deep_view() == applied(plan.deep_view()),
        },
{
    match find_apply_fault(plan, counts) {
        Some(fault) => Err(fault),
        None => Ok(
            AppliedPlan {
                provider_changes: plan.state_updates.len().saturating_add(
                    plan.state_restores.len(),
                ).saturating_add(plan.state_inserts.len()).saturating_add(
                    plan.state_deletes.len(),
                ).saturating_add(plan.catalog_updates.len()),
                index_changes: plan.catalog_inserts.len().saturating_add(
                    plan.catalog_deletes.len(),
                ),
            },
        ),
    }
}

/// Writes stay only where every group changed exactly as many rows as it has writes: a session that
/// changed meanwhile takes them all back.
pub proof fn law_partial_writes_are_refused(plan: RepairPlanView, counts: WriteCountsView)
    requires
        apply_fault(plan, counts) is None,
    ensures
        counts.state_updates == plan.state_updates.len() as usize,
        counts.state_restores == plan.state_restores.len() as usize,
        counts.state_deletes == plan.state_deletes.len() as usize,
        counts.state_inserts == plan.state_inserts.len() as usize,
        writes_catalog(plan) ==> counts.catalog_updates == plan.catalog_updates.len() as usize
            && counts.catalog_inserts == plan.catalog_inserts.len() as usize
            && counts.catalog_deletes == plan.catalog_deletes.len() as usize && counts.sync_rows
            == 1 && counts.revision_rows == 1,
{
}

proof fn lemma_column_words()
    ensures
        "id"@.len() == 2 && "id"@[0] == 'i',
        "rollout_path"@.len() == 12 && "rollout_path"@[0] == 'r',
        "created_at"@.len() == 10 && "created_at"@[0] == 'c',
        "updated_at"@.len() == 10 && "updated_at"@[0] == 'u',
        "recency_at"@.len() == 10 && "recency_at"@[0] == 'r',
        "source"@.len() == 6 && "source"@[0] == 's',
        "thread_source"@.len() == 13 && "thread_source"@[0] == 't',
        "model_provider"@.len() == 14 && "model_provider"@[0] == 'm',
        "cwd"@.len() == 3 && "cwd"@[0] == 'c',
        "title"@.len() == 5 && "title"@[0] == 't',
        "preview"@.len() == 7 && "preview"@[0] == 'p',
        "sandbox_policy"@.len() == 14 && "sandbox_policy"@[0] == 's',
        "approval_mode"@.len() == 13 && "approval_mode"@[0] == 'a',
        "tokens_used"@.len() == 11 && "tokens_used"@[0] == 't',
        "cli_version"@.len() == 11 && "cli_version"@[0] == 'c',
        "first_user_message"@.len() == 18 && "first_user_message"@[0] == 'f',
        "agent_nickname"@.len() == 14 && "agent_nickname"@[0] == 'a',
        "agent_role"@.len() == 10 && "agent_role"@[0] == 'a',
        "memory_mode"@.len() == 11 && "memory_mode"@[0] == 'm',
        "has_user_event"@.len() == 14 && "has_user_event"@[0] == 'h',
        "archived"@.len() == 8 && "archived"@[0] == 'a',
        "git_sha"@.len() == 7 && "git_sha"@[0] == 'g',
        "git_branch"@.len() == 10 && "git_branch"@[0] == 'g',
        "git_origin_url"@.len() == 14 && "git_origin_url"@[0] == 'g',
        "created_at_ms"@.len() == 13 && "created_at_ms"@[0] == 'c',
        "updated_at_ms"@.len() == 13 && "updated_at_ms"@[0] == 'u',
        "recency_at_ms"@.len() == 13 && "recency_at_ms"@[0] == 'r',
{
    reveal_strlit("id");
    reveal_strlit("rollout_path");
    reveal_strlit("created_at");
    reveal_strlit("updated_at");
    reveal_strlit("recency_at");
    reveal_strlit("source");
    reveal_strlit("thread_source");
    reveal_strlit("model_provider");
    reveal_strlit("cwd");
    reveal_strlit("title");
    reveal_strlit("preview");
    reveal_strlit("sandbox_policy");
    reveal_strlit("approval_mode");
    reveal_strlit("tokens_used");
    reveal_strlit("cli_version");
    reveal_strlit("first_user_message");
    reveal_strlit("agent_nickname");
    reveal_strlit("agent_role");
    reveal_strlit("memory_mode");
    reveal_strlit("has_user_event");
    reveal_strlit("archived");
    reveal_strlit("git_sha");
    reveal_strlit("git_branch");
    reveal_strlit("git_origin_url");
    reveal_strlit("created_at_ms");
    reveal_strlit("updated_at_ms");
    reveal_strlit("recency_at_ms");
}

/// A new session puts into each column what belongs there: its id, its paths, its times in seconds
/// and in milliseconds, its sources, its provider and what its rollout tells of it.
pub proof fn law_new_session_fills_each_column(insert: StateInsertView, column: Seq<char>)
    ensures
        column == "id"@ ==> insert_value(insert, column) == Some(
            RepairSqlValueView::Text(insert.thread_id),
        ),
        column == "rollout_path"@ ==> insert_value(insert, column) == Some(
            RepairSqlValueView::Text(insert.rollout_path),
        ),
        column == "created_at"@ ==> insert_value(insert, column) == Some(
            RepairSqlValueView::Integer(insert.created_at),
        ),
        column == "updated_at"@ ==> insert_value(insert, column) == Some(
            RepairSqlValueView::Integer(insert.updated_at),
        ),
        column == "recency_at"@ ==> insert_value(insert, column) == Some(
            RepairSqlValueView::Integer(insert.updated_at),
        ),
        column == "source"@ ==> insert_value(insert, column) == Some(
            RepairSqlValueView::Text(insert.source),
        ),
        column == "thread_source"@ ==> insert_value(insert, column) == Some(
            RepairSqlValueView::Text(insert.thread_source),
        ),
        column == "model_provider"@ ==> insert_value(insert, column) == Some(
            RepairSqlValueView::Text(insert.provider),
        ),
        column == "cwd"@ ==> insert_value(insert, column) == Some(
            RepairSqlValueView::Text(insert.cwd),
        ),
        column == "title"@ ==> insert_value(insert, column) == Some(
            RepairSqlValueView::Text(insert.title),
        ),
        column == "preview"@ ==> insert_value(insert, column) == Some(
            RepairSqlValueView::Text(insert.preview),
        ),
        column == "sandbox_policy"@ ==> insert_value(insert, column) == Some(
            RepairSqlValueView::Text(insert.sandbox_policy),
        ),
        column == "approval_mode"@ ==> insert_value(insert, column) == Some(
            RepairSqlValueView::Text(insert.approval_mode),
        ),
        column == "tokens_used"@ ==> insert_value(insert, column) == Some(
            RepairSqlValueView::Integer(0),
        ),
        column == "cli_version"@ ==> insert_value(insert, column) == Some(
            RepairSqlValueView::Text(insert.cli_version),
        ),
        column == "first_user_message"@ ==> insert_value(insert, column) == Some(
            RepairSqlValueView::Text(insert.first_user_message),
        ),
        column == "agent_nickname"@ ==> insert_value(insert, column) == Some(
            RepairSqlValueView::Null,
        ),
        column == "agent_role"@ ==> insert_value(insert, column) == Some(
            RepairSqlValueView::Null,
        ),
        column == "memory_mode"@ ==> insert_value(insert, column) == Some(
            RepairSqlValueView::Text("enabled"@),
        ),
        column == "has_user_event"@ ==> insert_value(insert, column) == Some(
            RepairSqlValueView::Integer(
                if insert.has_user_event {
                    1
                } else {
                    0
                },
            ),
        ),
        column == "archived"@ ==> insert_value(insert, column) == Some(
            RepairSqlValueView::Integer(
                if insert.archived {
                    1
                } else {
                    0
                },
            ),
        ),
        column == "git_sha"@ ==> insert_value(insert, column) == Some(
            match insert.git_sha {
                Some(text) => RepairSqlValueView::Text(text),
                None => RepairSqlValueView::Null,
            },
        ),
        column == "git_branch"@ ==> insert_value(insert, column) == Some(
            match insert.git_branch {
                Some(text) => RepairSqlValueView::Text(text),
                None => RepairSqlValueView::Null,
            },
        ),
        column == "git_origin_url"@ ==> insert_value(insert, column) == Some(
            match insert.git_origin_url {
                Some(text) => RepairSqlValueView::Text(text),
                None => RepairSqlValueView::Null,
            },
        ),
        column == "created_at_ms"@ && i64::MIN <= insert.created_at * 1000 <= i64::MAX ==> insert_value(
            insert,
            column,
        ) == Some(RepairSqlValueView::Integer((insert.created_at * 1000) as i64)),
        column == "updated_at_ms"@ && i64::MIN <= insert.updated_at * 1000 <= i64::MAX ==> insert_value(
            insert,
            column,
        ) == Some(RepairSqlValueView::Integer((insert.updated_at * 1000) as i64)),
        column == "recency_at_ms"@ && i64::MIN <= insert.updated_at * 1000 <= i64::MAX ==> insert_value(
            insert,
            column,
        ) == Some(RepairSqlValueView::Integer((insert.updated_at * 1000) as i64)),
{
    lemma_column_words();
}

/// The writes of a plan stay exactly where every group changed as many rows as it has writes and,
/// where the catalog is written, both its counters were there; and they are counted as what they
/// are.
pub proof fn law_whole_writes_stay(plan: RepairPlanView, counts: WriteCountsView)
    requires
        plan.state_updates.len() <= usize::MAX,
        plan.state_restores.len() <= usize::MAX,
        plan.state_deletes.len() <= usize::MAX,
        plan.state_inserts.len() <= usize::MAX,
        plan.catalog_updates.len() <= usize::MAX,
        plan.catalog_inserts.len() <= usize::MAX,
        plan.catalog_deletes.len() <= usize::MAX,
        plan.state_updates.len() + plan.state_restores.len() + plan.state_inserts.len()
            + plan.state_deletes.len() + plan.catalog_updates.len() + plan.catalog_inserts.len()
            + plan.catalog_deletes.len() <= usize::MAX,
    ensures
        apply_fault(plan, counts) is None <==> {
            let catalog = plan.catalog_updates.len() + plan.catalog_inserts.len()
                + plan.catalog_deletes.len() > 0;
            &&& counts.state_updates == plan.state_updates.len()
            &&& counts.state_restores == plan.state_restores.len()
            &&& counts.state_deletes == plan.state_deletes.len()
            &&& counts.state_inserts == plan.state_inserts.len()
            &&& catalog ==> counts.catalog_updates == plan.catalog_updates.len()
            &&& catalog ==> counts.catalog_inserts == plan.catalog_inserts.len()
            &&& catalog ==> counts.catalog_deletes == plan.catalog_deletes.len()
            &&& catalog ==> counts.sync_rows == 1 && counts.revision_rows == 1
        },
        applied(plan).provider_changes + applied(plan).index_changes == plan.state_updates.len()
            + plan.state_restores.len() + plan.state_inserts.len() + plan.state_deletes.len()
            + plan.catalog_updates.len() + plan.catalog_inserts.len() + plan.catalog_deletes.len(),
        applied(plan).index_changes == plan.catalog_inserts.len() + plan.catalog_deletes.len(),
{
}

} // verus!

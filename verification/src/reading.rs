//! Reading a home: what its databases, rollouts, index and global state say.

use crate::digest;
use crate::digest::hash_bytes;
use crate::json;
use crate::json::{parse_json, parse_json_bytes, Json, JsonView};
use crate::locality;
use crate::locality::{catalog_row_is_local, catalog_row_is_remote};
use crate::model;
use crate::model::Model;
use crate::ordered;
use crate::ordered::{sort_items, sort_pairs, OrderedMap, OrderedSet};
use crate::planning;
use crate::providers;
use crate::providers::validate_provider;
use crate::records;
use crate::records::{
    CatalogRow, CatalogRowView, GlobalStateSnapshot, GlobalStateSnapshotView, PrimaryRollout,
    PrimaryRolloutView, Snapshot, SnapshotView, SourceSummary, SourceSummaryView, ThreadRow,
    ThreadRowView,
};
use crate::recovery;
use crate::recovery::join_all;
use crate::schema;
use crate::schema::{select_expr, select_time_expr};
use crate::sessions;
use crate::sessions::{listed_seconds, text_or_empty};
use crate::text;
use crate::text::{
    chars_of, decimal, is_blank, join2, join3, join4, join5, join6, same, substring, to_lower, trim,
};
use crate::verification;
use vstd::prelude::*;

verus! {

/// Why a source gives no records.
#[derive(Clone, Debug, PartialEq, Eq)]
pub enum SourceFault {
    Missing,
    NotRegular,
    /// It cannot be looked at: why.
    Unavailable(String),
    /// It cannot be opened: why.
    Unopened(String),
    SchemaUnreadable,
    ColumnsMissing,
    QueryFailed,
    RowsFailed,
    /// A row cannot be read: why.
    RowFailed(String),
    /// A line cannot be read: why.
    LineFailed(String),
}

/// What a `SourceFault` stands for.
#[verifier::ext_equal]
pub enum SourceFaultView {
    Missing,
    NotRegular,
    Unavailable(Seq<char>),
    Unopened(Seq<char>),
    SchemaUnreadable,
    ColumnsMissing,
    QueryFailed,
    RowsFailed,
    RowFailed(Seq<char>),
    LineFailed(Seq<char>),
}

impl DeepView for SourceFault {
    type V = SourceFaultView;

    open spec fn deep_view(&self) -> SourceFaultView {
        match self {
            SourceFault::Missing => SourceFaultView::Missing,
            SourceFault::NotRegular => SourceFaultView::NotRegular,
            SourceFault::Unavailable(value) => SourceFaultView::Unavailable(value.deep_view()),
            SourceFault::Unopened(value) => SourceFaultView::Unopened(value.deep_view()),
            SourceFault::SchemaUnreadable => SourceFaultView::SchemaUnreadable,
            SourceFault::ColumnsMissing => SourceFaultView::ColumnsMissing,
            SourceFault::QueryFailed => SourceFaultView::QueryFailed,
            SourceFault::RowsFailed => SourceFaultView::RowsFailed,
            SourceFault::RowFailed(value) => SourceFaultView::RowFailed(value.deep_view()),
            SourceFault::LineFailed(value) => SourceFaultView::LineFailed(value.deep_view()),
        }
    }
}

impl Model for SourceFault {
    fn copy_of(&self) -> (r: Self) {
        match self {
            SourceFault::Missing => SourceFault::Missing,
            SourceFault::NotRegular => SourceFault::NotRegular,
            SourceFault::Unavailable(value) => SourceFault::Unavailable(value.copy_of()),
            SourceFault::Unopened(value) => SourceFault::Unopened(value.copy_of()),
            SourceFault::SchemaUnreadable => SourceFault::SchemaUnreadable,
            SourceFault::ColumnsMissing => SourceFault::ColumnsMissing,
            SourceFault::QueryFailed => SourceFault::QueryFailed,
            SourceFault::RowsFailed => SourceFault::RowsFailed,
            SourceFault::RowFailed(value) => SourceFault::RowFailed(value.copy_of()),
            SourceFault::LineFailed(value) => SourceFault::LineFailed(value.copy_of()),
        }
    }

    fn same_as(&self, other: &Self) -> (r: bool) {
        match (self, other) {
            (SourceFault::Missing, SourceFault::Missing) => true,
            (SourceFault::NotRegular, SourceFault::NotRegular) => true,
            (SourceFault::Unavailable(value_l), SourceFault::Unavailable(value_r)) => value_l.same_as(value_r),
            (SourceFault::Unopened(value_l), SourceFault::Unopened(value_r)) => value_l.same_as(value_r),
            (SourceFault::SchemaUnreadable, SourceFault::SchemaUnreadable) => true,
            (SourceFault::ColumnsMissing, SourceFault::ColumnsMissing) => true,
            (SourceFault::QueryFailed, SourceFault::QueryFailed) => true,
            (SourceFault::RowsFailed, SourceFault::RowsFailed) => true,
            (SourceFault::RowFailed(value_l), SourceFault::RowFailed(value_r)) => value_l.same_as(value_r),
            (SourceFault::LineFailed(value_l), SourceFault::LineFailed(value_r)) => value_l.same_as(value_r),
            _ => false,
        }
    }
}

/// The columns of a state row as they are stored.
#[derive(Clone, Debug, PartialEq, Eq)]
pub struct ThreadCells {
    pub id: String,
    pub provider: String,
    pub rollout_path: Option<String>,
    pub archived: Option<i64>,
    pub source: Option<String>,
    pub thread_source: Option<String>,
    pub agent_role: Option<String>,
    pub title: Option<String>,
    pub cwd: Option<String>,
    /// The time of the last change, in whole seconds or milliseconds.
    pub updated_at: Option<i64>,
    pub first_user_message: Option<String>,
    pub has_user_event: Option<i64>,
}

/// What a `ThreadCells` stands for.
#[verifier::ext_equal]
pub struct ThreadCellsView {
    pub id: Seq<char>,
    pub provider: Seq<char>,
    pub rollout_path: Option<Seq<char>>,
    pub archived: Option<i64>,
    pub source: Option<Seq<char>>,
    pub thread_source: Option<Seq<char>>,
    pub agent_role: Option<Seq<char>>,
    pub title: Option<Seq<char>>,
    pub cwd: Option<Seq<char>>,
    pub updated_at: Option<i64>,
    pub first_user_message: Option<Seq<char>>,
    pub has_user_event: Option<i64>,
}

impl DeepView for ThreadCells {
    type V = ThreadCellsView;

    open spec fn deep_view(&self) -> ThreadCellsView {
        ThreadCellsView {
            id: self.id.deep_view(),
            provider: self.provider.deep_view(),
            rollout_path: self.rollout_path.deep_view(),
            archived: self.archived.deep_view(),
            source: self.source.deep_view(),
            thread_source: self.thread_source.deep_view(),
            agent_role: self.agent_role.deep_view(),
            title: self.title.deep_view(),
            cwd: self.cwd.deep_view(),
            updated_at: self.updated_at.deep_view(),
            first_user_message: self.first_user_message.deep_view(),
            has_user_event: self.has_user_event.deep_view(),
        }
    }
}

impl Model for ThreadCells {
    fn copy_of(&self) -> (r: Self) {
        ThreadCells {
            id: self.id.copy_of(),
            provider: self.provider.copy_of(),
            rollout_path: self.rollout_path.copy_of(),
            archived: self.archived.copy_of(),
            source: self.source.copy_of(),
            thread_source: self.thread_source.copy_of(),
            agent_role: self.agent_role.copy_of(),
            title: self.title.copy_of(),
            cwd: self.cwd.copy_of(),
            updated_at: self.updated_at.copy_of(),
            first_user_message: self.first_user_message.copy_of(),
            has_user_event: self.has_user_event.copy_of(),
        }
    }

    fn same_as(&self, other: &Self) -> (r: bool) {
        self.id.same_as(&other.id)
            && self.provider.same_as(&other.provider)
            && self.rollout_path.same_as(&other.rollout_path)
            && self.archived.same_as(&other.archived)
            && self.source.same_as(&other.source)
            && self.thread_source.same_as(&other.thread_source)
            && self.agent_role.same_as(&other.agent_role)
            && self.title.same_as(&other.title)
            && self.cwd.same_as(&other.cwd)
            && self.updated_at.same_as(&other.updated_at)
            && self.first_user_message.same_as(&other.first_user_message)
            && self.has_user_event.same_as(&other.has_user_event)
    }
}

/// The columns of a catalog row as they are stored.
#[derive(Clone, Debug, PartialEq, Eq)]
pub struct CatalogCells {
    pub host_id: String,
    pub thread_id: String,
    pub provider: String,
    pub missing_candidate: Option<i64>,
    pub source_kind: Option<String>,
    pub source_detail: Option<String>,
    pub cwd: Option<String>,
}

/// What a `CatalogCells` stands for.
#[verifier::ext_equal]
pub struct CatalogCellsView {
    pub host_id: Seq<char>,
    pub thread_id: Seq<char>,
    pub provider: Seq<char>,
    pub missing_candidate: Option<i64>,
    pub source_kind: Option<Seq<char>>,
    pub source_detail: Option<Seq<char>>,
    pub cwd: Option<Seq<char>>,
}

impl DeepView for CatalogCells {
    type V = CatalogCellsView;

    open spec fn deep_view(&self) -> CatalogCellsView {
        CatalogCellsView {
            host_id: self.host_id.deep_view(),
            thread_id: self.thread_id.deep_view(),
            provider: self.provider.deep_view(),
            missing_candidate: self.missing_candidate.deep_view(),
            source_kind: self.source_kind.deep_view(),
            source_detail: self.source_detail.deep_view(),
            cwd: self.cwd.deep_view(),
        }
    }
}

impl Model for CatalogCells {
    fn copy_of(&self) -> (r: Self) {
        CatalogCells {
            host_id: self.host_id.copy_of(),
            thread_id: self.thread_id.copy_of(),
            provider: self.provider.copy_of(),
            missing_candidate: self.missing_candidate.copy_of(),
            source_kind: self.source_kind.copy_of(),
            source_detail: self.source_detail.copy_of(),
            cwd: self.cwd.copy_of(),
        }
    }

    fn same_as(&self, other: &Self) -> (r: bool) {
        self.host_id.same_as(&other.host_id)
            && self.thread_id.same_as(&other.thread_id)
            && self.provider.same_as(&other.provider)
            && self.missing_candidate.same_as(&other.missing_candidate)
            && self.source_kind.same_as(&other.source_kind)
            && self.source_detail.same_as(&other.source_detail)
            && self.cwd.same_as(&other.cwd)
    }
}

/// What a walk over the rollouts found: the first record of each, and the code of each problem.
#[derive(Debug, PartialEq, Eq)]
pub struct RolloutInventory {
    pub rollouts: OrderedMap<String, PrimaryRollout>,
    pub issues: Vec<String>,
    pub file_count: usize,
}

/// What a `RolloutInventory` stands for.
#[verifier::ext_equal]
pub struct RolloutInventoryView {
    pub rollouts: Map<Seq<char>, PrimaryRolloutView>,
    pub issues: Seq<Seq<char>>,
    pub file_count: usize,
}

impl DeepView for RolloutInventory {
    type V = RolloutInventoryView;

    open spec fn deep_view(&self) -> RolloutInventoryView {
        RolloutInventoryView {
            rollouts: self.rollouts.deep_view(),
            issues: self.issues.deep_view(),
            file_count: self.file_count.deep_view(),
        }
    }
}

impl Model for RolloutInventory {
    fn copy_of(&self) -> (r: Self) {
        RolloutInventory {
            rollouts: self.rollouts.copy_of(),
            issues: self.issues.copy_of(),
            file_count: self.file_count.copy_of(),
        }
    }

    fn same_as(&self, other: &Self) -> (r: bool) {
        self.rollouts.same_as(&other.rollouts)
            && self.issues.same_as(&other.issues)
            && self.file_count.same_as(&other.file_count)
    }
}

/// The rollouts of a home, by what is looked up.
#[derive(Debug, PartialEq, Eq)]
pub struct RolloutRead {
    pub ids: OrderedSet<String>,
    pub valid_active_ids: OrderedSet<String>,
    pub valid_archived_ids: OrderedSet<String>,
    pub providers: OrderedMap<String, OrderedSet<String>>,
    pub provider_values: OrderedMap<String, String>,
    pub sources: OrderedMap<String, Json>,
    pub thread_sources: OrderedMap<String, Json>,
    pub cwds: OrderedMap<String, String>,
    pub locality: OrderedMap<String, String>,
    pub paths: OrderedMap<String, String>,
    pub primary_rollouts: OrderedMap<String, PrimaryRollout>,
    pub files: Vec<String>,
    pub file_count: usize,
    pub issues: OrderedMap<String, usize>,
}

/// What a `RolloutRead` stands for.
#[verifier::ext_equal]
pub struct RolloutReadView {
    pub ids: Set<Seq<char>>,
    pub valid_active_ids: Set<Seq<char>>,
    pub valid_archived_ids: Set<Seq<char>>,
    pub providers: Map<Seq<char>, Set<Seq<char>>>,
    pub provider_values: Map<Seq<char>, Seq<char>>,
    pub sources: Map<Seq<char>, JsonView>,
    pub thread_sources: Map<Seq<char>, JsonView>,
    pub cwds: Map<Seq<char>, Seq<char>>,
    pub locality: Map<Seq<char>, Seq<char>>,
    pub paths: Map<Seq<char>, Seq<char>>,
    pub primary_rollouts: Map<Seq<char>, PrimaryRolloutView>,
    pub files: Seq<Seq<char>>,
    pub file_count: usize,
    pub issues: Map<Seq<char>, usize>,
}

impl DeepView for RolloutRead {
    type V = RolloutReadView;

    open spec fn deep_view(&self) -> RolloutReadView {
        RolloutReadView {
            ids: self.ids.deep_view(),
            valid_active_ids: self.valid_active_ids.deep_view(),
            valid_archived_ids: self.valid_archived_ids.deep_view(),
            providers: self.providers.deep_view(),
            provider_values: self.provider_values.deep_view(),
            sources: self.sources.deep_view(),
            thread_sources: self.thread_sources.deep_view(),
            cwds: self.cwds.deep_view(),
            locality: self.locality.deep_view(),
            paths: self.paths.deep_view(),
            primary_rollouts: self.primary_rollouts.deep_view(),
            files: self.files.deep_view(),
            file_count: self.file_count.deep_view(),
            issues: self.issues.deep_view(),
        }
    }
}

impl Model for RolloutRead {
    fn copy_of(&self) -> (r: Self) {
        RolloutRead {
            ids: self.ids.copy_of(),
            valid_active_ids: self.valid_active_ids.copy_of(),
            valid_archived_ids: self.valid_archived_ids.copy_of(),
            providers: self.providers.copy_of(),
            provider_values: self.provider_values.copy_of(),
            sources: self.sources.copy_of(),
            thread_sources: self.thread_sources.copy_of(),
            cwds: self.cwds.copy_of(),
            locality: self.locality.copy_of(),
            paths: self.paths.copy_of(),
            primary_rollouts: self.primary_rollouts.copy_of(),
            files: self.files.copy_of(),
            file_count: self.file_count.copy_of(),
            issues: self.issues.copy_of(),
        }
    }

    fn same_as(&self, other: &Self) -> (r: bool) {
        self.ids.same_as(&other.ids)
            && self.valid_active_ids.same_as(&other.valid_active_ids)
            && self.valid_archived_ids.same_as(&other.valid_archived_ids)
            && self.providers.same_as(&other.providers)
            && self.provider_values.same_as(&other.provider_values)
            && self.sources.same_as(&other.sources)
            && self.thread_sources.same_as(&other.thread_sources)
            && self.cwds.same_as(&other.cwds)
            && self.locality.same_as(&other.locality)
            && self.paths.same_as(&other.paths)
            && self.primary_rollouts.same_as(&other.primary_rollouts)
            && self.files.same_as(&other.files)
            && self.file_count.same_as(&other.file_count)
            && self.issues.same_as(&other.issues)
    }
}

/// The size of a file and the time of its last change, in milliseconds since the epoch.
#[derive(Clone, Debug, PartialEq, Eq)]
pub struct FileSignal {
    pub label: String,
    pub len: u64,
    pub modified: u64,
}

/// What a `FileSignal` stands for.
#[verifier::ext_equal]
pub struct FileSignalView {
    pub label: Seq<char>,
    pub len: u64,
    pub modified: u64,
}

impl DeepView for FileSignal {
    type V = FileSignalView;

    open spec fn deep_view(&self) -> FileSignalView {
        FileSignalView {
            label: self.label.deep_view(),
            len: self.len.deep_view(),
            modified: self.modified.deep_view(),
        }
    }
}

impl Model for FileSignal {
    fn copy_of(&self) -> (r: Self) {
        FileSignal {
            label: self.label.copy_of(),
            len: self.len.copy_of(),
            modified: self.modified.copy_of(),
        }
    }

    fn same_as(&self, other: &Self) -> (r: bool) {
        self.label.same_as(&other.label)
            && self.len.same_as(&other.len)
            && self.modified.same_as(&other.modified)
    }
}

/// What a walk over a tree of rollouts found.
#[derive(Clone, Debug, PartialEq, Eq)]
pub struct TreeFound {
    pub is_directory: bool,
    /// How many entries the walk could not read.
    pub faults: usize,
    pub files: Vec<FileSignal>,
}

/// What a `TreeFound` stands for.
#[verifier::ext_equal]
pub struct TreeFoundView {
    pub is_directory: bool,
    pub faults: usize,
    pub files: Seq<FileSignalView>,
}

impl DeepView for TreeFound {
    type V = TreeFoundView;

    open spec fn deep_view(&self) -> TreeFoundView {
        TreeFoundView {
            is_directory: self.is_directory.deep_view(),
            faults: self.faults.deep_view(),
            files: self.files.deep_view(),
        }
    }
}

impl Model for TreeFound {
    fn copy_of(&self) -> (r: Self) {
        TreeFound {
            is_directory: self.is_directory.copy_of(),
            faults: self.faults.copy_of(),
            files: self.files.copy_of(),
        }
    }

    fn same_as(&self, other: &Self) -> (r: bool) {
        self.is_directory.same_as(&other.is_directory)
            && self.faults.same_as(&other.faults)
            && self.files.same_as(&other.files)
    }
}

/// How long a snapshot may be used again, in milliseconds.
pub const SNAPSHOT_CACHE_TTL_MS: u64 = 3000;

/// The note on a source that gives no records.
pub open spec fn fault_note(fault: SourceFaultView) -> Seq<char> {
    match fault {
        SourceFaultView::Missing => "file not found"@,
        SourceFaultView::NotRegular => "not a regular file"@,
        SourceFaultView::Unavailable(error) => error,
        SourceFaultView::Unopened(error) => error,
        SourceFaultView::SchemaUnreadable => "table schema unreadable"@,
        SourceFaultView::ColumnsMissing => "required columns missing"@,
        SourceFaultView::QueryFailed => "query failed"@,
        SourceFaultView::RowsFailed => "row read failed"@,
        SourceFaultView::RowFailed(error) => "row read failed: "@ + error,
        SourceFaultView::LineFailed(error) => "line read failed: "@ + error,
    }
}

/// The note on a source that gives no records.
pub fn describe_fault(fault: &SourceFault) -> (r: String)
    ensures
        r@ == fault_note(fault.deep_view()),
{
    match fault {
        SourceFault::Missing => "file not found".to_owned(),
        SourceFault::NotRegular => "not a regular file".to_owned(),
        SourceFault::Unavailable(error) => error.copy_of(),
        SourceFault::Unopened(error) => error.copy_of(),
        SourceFault::SchemaUnreadable => "table schema unreadable".to_owned(),
        SourceFault::ColumnsMissing => "required columns missing".to_owned(),
        SourceFault::QueryFailed => "query failed".to_owned(),
        SourceFault::RowsFailed => "row read failed".to_owned(),
        SourceFault::RowFailed(error) => join2("row read failed: ", error.as_str()),
        SourceFault::LineFailed(error) => join2("line read failed: ", error.as_str()),
    }
}

/// A source that gives no records.
pub open spec fn unread(name: Seq<char>, path: Seq<char>, note: Seq<char>) -> SourceSummaryView {
    SourceSummaryView { name, path, records: 0, readable: false, note }
}

/// A source that was read.
pub open spec fn was_read(
    name: Seq<char>,
    path: Seq<char>,
    records: int,
    note: Seq<char>,
) -> SourceSummaryView {
    SourceSummaryView { name, path, records: records as usize, readable: true, note }
}

fn note_unread(name: &str, path: &str, note: String) -> (r: SourceSummary)
    ensures
        r.deep_view() == unread(name@, path@, note@),
{
    SourceSummary {
        name: name.to_owned(),
        path: path.to_owned(),
        records: 0,
        readable: false,
        note,
    }
}

fn note_read(name: &str, path: &str, records: usize, note: String) -> (r: SourceSummary)
    ensures
        r.deep_view() == was_read(name@, path@, records as int, note@),
{
    SourceSummary { name: name.to_owned(), path: path.to_owned(), records, readable: true, note }
}

/// The query of the state rows: columns that are not there read as empty.
pub open spec fn threads_sql(columns: Set<Seq<char>>) -> Seq<char> {
    "SELECT id, model_provider, "@ + schema::column_expression(columns, "rollout_path"@, "''"@)
        + ", "@ + schema::column_expression(columns, "archived"@, "0"@) + ", "@
        + schema::column_expression(columns, "source"@, "''"@) + ", "@ + schema::column_expression(
        columns,
        "thread_source"@,
        "''"@,
    ) + ", "@ + schema::column_expression(columns, "agent_role"@, "NULL"@) + ", "@
        + schema::column_expression(columns, "title"@, "''"@) + ", "@ + schema::column_expression(
        columns,
        "cwd"@,
        "''"@,
    ) + ", "@ + schema::time_expression(columns, "created_at_ms"@, "created_at"@) + ", "@
        + schema::time_expression(columns, "updated_at_ms"@, "updated_at"@) + ", "@
        + schema::column_expression(columns, "first_user_message"@, "''"@) + ", "@
        + schema::column_expression(columns, "has_user_event"@, "0"@) + " FROM threads"@
}

/// The query of the state rows, or why there is none.
pub open spec fn threads_query(columns: Option<Set<Seq<char>>>) -> Result<
    Seq<char>,
    SourceFaultView,
> {
    match columns {
        None => Err(SourceFaultView::SchemaUnreadable),
        Some(columns) => if !columns.contains("id"@) || !columns.contains("model_provider"@) {
            Err(SourceFaultView::ColumnsMissing)
        } else {
            Ok(threads_sql(columns))
        },
    }
}

/// The query of the state rows, given the columns of their table, or why there is none.
pub fn thread_query(columns: &Option<OrderedSet<String>>) -> (r: Result<String, SourceFault>)
    ensures
        model::outcome(r) == threads_query(columns.deep_view()),
{
    let columns = match columns {
        None => {
            return Err(SourceFault::SchemaUnreadable);
        },
        Some(columns) => columns,
    };
    if !columns.contains(&"id".to_owned()) || !columns.contains(&"model_provider".to_owned()) {
        return Err(SourceFault::ColumnsMissing);
    }
    let first = join6(
        "SELECT id, model_provider, ",
        select_expr(columns, "rollout_path", "''").as_str(),
        ", ",
        select_expr(columns, "archived", "0").as_str(),
        ", ",
        select_expr(columns, "source", "''").as_str(),
    );
    let second = join6(
        first.as_str(),
        ", ",
        select_expr(columns, "thread_source", "''").as_str(),
        ", ",
        select_expr(columns, "agent_role", "NULL").as_str(),
        ", ",
    );
    let third = join6(
        second.as_str(),
        select_expr(columns, "title", "''").as_str(),
        ", ",
        select_expr(columns, "cwd", "''").as_str(),
        ", ",
        select_time_expr(columns, "created_at_ms", "created_at").as_str(),
    );
    let fourth = join6(
        third.as_str(),
        ", ",
        select_time_expr(columns, "updated_at_ms", "updated_at").as_str(),
        ", ",
        select_expr(columns, "first_user_message", "''").as_str(),
        ", ",
    );
    Ok(
        join3(
            fourth.as_str(),
            select_expr(columns, "has_user_event", "0").as_str(),
            " FROM threads",
        ),
    )
}

/// A flag as it is stored.
pub open spec fn flag(value: Option<i64>) -> bool {
    value is Some && value->0 != 0
}

fn read_flag(value: &Option<i64>) -> (r: bool)
    ensures
        r == flag(*value),
{
    match value {
        Some(value) => *value != 0,
        None => false,
    }
}

/// A state row from its columns: what is not there reads as empty, and a time is read in seconds.
pub open spec fn thread_row(cells: ThreadCellsView) -> ThreadRowView {
    ThreadRowView {
        id: cells.id,
        rollout_path: sessions::or_empty(cells.rollout_path),
        provider: cells.provider,
        archived: flag(cells.archived),
        source: sessions::or_empty(cells.source),
        thread_source: sessions::or_empty(cells.thread_source),
        agent_role: cells.agent_role,
        title: sessions::or_empty(cells.title),
        cwd: sessions::or_empty(cells.cwd),
        updated_at: match cells.updated_at {
            Some(value) => sessions::listed_time(value as int) as i64,
            None => 0,
        },
        first_user_message: sessions::or_empty(cells.first_user_message),
        has_user_event: flag(cells.has_user_event),
    }
}

fn make_thread_row(cells: &ThreadCells) -> (r: ThreadRow)
    ensures
        r.deep_view() == thread_row(cells.deep_view()),
{
    let updated_at: i64 = match cells.updated_at {
        Some(value) => listed_seconds(value),
        None => 0,
    };
    ThreadRow {
        id: cells.id.copy_of(),
        rollout_path: text_or_empty(&cells.rollout_path),
        provider: cells.provider.copy_of(),
        archived: read_flag(&cells.archived),
        source: text_or_empty(&cells.source),
        thread_source: text_or_empty(&cells.thread_source),
        agent_role: cells.agent_role.copy_of(),
        title: text_or_empty(&cells.title),
        cwd: text_or_empty(&cells.cwd),
        updated_at,
        first_user_message: text_or_empty(&cells.first_user_message),
        has_user_event: read_flag(&cells.has_user_event),
    }
}

/// The state rows of a home, and how they were read.
pub open spec fn threads_read(
    path: Seq<char>,
    read: Result<Seq<ThreadCellsView>, SourceFaultView>,
) -> (Seq<ThreadRowView>, SourceSummaryView) {
    match read {
        Err(fault) => (Seq::empty(), unread("threads"@, path, fault_note(fault))),
        Ok(cells) => (
            cells.map_values(|row: ThreadCellsView| thread_row(row)),
            was_read("threads"@, path, cells.len() as int, "read-only"@),
        ),
    }
}

/// The state rows of a home, and how they were read.
pub fn read_threads(path: &str, read: &Result<Vec<ThreadCells>, SourceFault>) -> (r: (
    Vec<ThreadRow>,
    SourceSummary,
))
    ensures
        (r.0.deep_view(), r.1.deep_view()) == threads_read(path@, model::outcome(*read)),
{
    let mut rows: Vec<ThreadRow> = Vec::new();
    match read {
        Err(fault) => {
            assert(rows.deep_view() =~= Seq::empty());
            (rows, note_unread("threads", path, describe_fault(fault)))
        },
        Ok(cells) => {
            let ghost view = cells.deep_view();
            let ghost wanted = view.map_values(|row: ThreadCellsView| thread_row(row));
            let mut i: usize = 0;
            while i < cells.len()
                invariant
                    i <= cells@.len(),
                    view == cells.deep_view(),
                    wanted == view.map_values(|row: ThreadCellsView| thread_row(row)),
                    rows@.len() == i,
                    forall|j: int| 0 <= j < i ==> #[trigger] rows@[j].deep_view() == wanted[j],
                decreases cells@.len() - i,
            {
                assert(view[i as int] == cells@[i as int].deep_view());
                rows.push(make_thread_row(&cells[i]));
                i += 1;
            }
            assert(rows.deep_view() =~= wanted);
            let count: usize = rows.len();
            (rows, note_read("threads", path, count, "read-only".to_owned()))
        },
    }
}

/// The query of the catalog rows: columns that are not there read as empty.
pub open spec fn catalog_sql(columns: Set<Seq<char>>) -> Seq<char> {
    "SELECT host_id, thread_id, model_provider, "@ + schema::column_expression(
        columns,
        "missing_candidate"@,
        "0"@,
    ) + ", "@ + schema::column_expression(columns, "source_kind"@, "''"@) + ", "@
        + schema::column_expression(columns, "source_detail"@, "''"@) + ", "@
        + schema::column_expression(columns, "cwd"@, "''"@) + " FROM local_thread_catalog"@
}

/// The query of the catalog rows, or why there is none.
pub open spec fn catalogs_query(columns: Option<Set<Seq<char>>>) -> Result<
    Seq<char>,
    SourceFaultView,
> {
    match columns {
        None => Err(SourceFaultView::SchemaUnreadable),
        Some(columns) => if !columns.contains("host_id"@) || !columns.contains("thread_id"@)
            || !columns.contains("model_provider"@) {
            Err(SourceFaultView::ColumnsMissing)
        } else {
            Ok(catalog_sql(columns))
        },
    }
}

/// The query of the catalog rows, given the columns of their table, or why there is none.
pub fn catalog_query(columns: &Option<OrderedSet<String>>) -> (r: Result<String, SourceFault>)
    ensures
        model::outcome(r) == catalogs_query(columns.deep_view()),
{
    let columns = match columns {
        None => {
            return Err(SourceFault::SchemaUnreadable);
        },
        Some(columns) => columns,
    };
    if !columns.contains(&"host_id".to_owned()) || !columns.contains(&"thread_id".to_owned())
        || !columns.contains(&"model_provider".to_owned()) {
        return Err(SourceFault::ColumnsMissing);
    }
    let first = join6(
        "SELECT host_id, thread_id, model_provider, ",
        select_expr(columns, "missing_candidate", "0").as_str(),
        ", ",
        select_expr(columns, "source_kind", "''").as_str(),
        ", ",
        select_expr(columns, "source_detail", "''").as_str(),
    );
    Ok(
        join4(
            first.as_str(),
            ", ",
            select_expr(columns, "cwd", "''").as_str(),
            " FROM local_thread_catalog",
        ),
    )
}

/// A catalog row from its columns: what is not there reads as empty.
pub open spec fn catalog_row(cells: CatalogCellsView) -> CatalogRowView {
    CatalogRowView {
        host_id: cells.host_id,
        thread_id: cells.thread_id,
        provider: cells.provider,
        missing_candidate: flag(cells.missing_candidate),
        source_kind: sessions::or_empty(cells.source_kind),
        source_detail: sessions::or_empty(cells.source_detail),
        cwd: sessions::or_empty(cells.cwd),
    }
}

fn make_catalog_row(cells: &CatalogCells) -> (r: CatalogRow)
    ensures
        r.deep_view() == catalog_row(cells.deep_view()),
{
    CatalogRow {
        host_id: cells.host_id.copy_of(),
        thread_id: cells.thread_id.copy_of(),
        provider: cells.provider.copy_of(),
        missing_candidate: read_flag(&cells.missing_candidate),
        source_kind: text_or_empty(&cells.source_kind),
        source_detail: text_or_empty(&cells.source_detail),
        cwd: text_or_empty(&cells.cwd),
    }
}

/// How many catalog rows are local.
pub open spec fn local_count(rows: Seq<CatalogRowView>) -> nat {
    planning::kept(rows, |row: CatalogRowView| locality::local_row(row)).len()
}

/// How many catalog rows are remote.
pub open spec fn remote_count(rows: Seq<CatalogRowView>) -> nat {
    planning::kept(rows, |row: CatalogRowView| locality::remote_row(row)).len()
}

/// The catalog rows of a home, and how they were read.
pub open spec fn catalogs_read(
    path: Seq<char>,
    read: Result<Seq<CatalogCellsView>, SourceFaultView>,
) -> (Seq<CatalogRowView>, SourceSummaryView) {
    match read {
        Err(fault) => (Seq::empty(), unread("local_thread_catalog"@, path, fault_note(fault))),
        Ok(cells) => {
            let rows = cells.map_values(|row: CatalogCellsView| catalog_row(row));
            (
                rows,
                was_read(
                    "local_thread_catalog"@,
                    path,
                    rows.len() as int,
                    "read-only; "@ + text::decimal_text(local_count(rows)) + " local rows; "@
                        + text::decimal_text(remote_count(rows)) + " non-local rows"@,
                ),
            )
        },
    }
}

fn count_rows(rows: &Vec<CatalogRow>) -> (r: (usize, usize))
    ensures
        r.0 == local_count(rows.deep_view()),
        r.1 == remote_count(rows.deep_view()),
{
    let ghost view = rows.deep_view();
    let mut local: usize = 0;
    let mut remote: usize = 0;
    let mut i: usize = 0;
    while i < rows.len()
        invariant
            i <= rows@.len(),
            view == rows.deep_view(),
            local <= i,
            remote <= i,
            local == local_count(view.take(i as int)),
            remote == remote_count(view.take(i as int)),
        decreases rows@.len() - i,
    {
        assert(view[i as int] == rows@[i as int].deep_view());
        assert(view.take(i + 1).drop_last() =~= view.take(i as int));
        if catalog_row_is_local(&rows[i]) {
            local += 1;
        }
        if catalog_row_is_remote(&rows[i]) {
            remote += 1;
        }
        i += 1;
    }
    assert(view.take(i as int) =~= view);
    (local, remote)
}

/// The catalog rows of a home, and how they were read.
pub fn read_catalog(path: &str, read: &Result<Vec<CatalogCells>, SourceFault>) -> (r: (
    Vec<CatalogRow>,
    SourceSummary,
))
    ensures
        (r.0.deep_view(), r.1.deep_view()) == catalogs_read(path@, model::outcome(*read)),
{
    let mut rows: Vec<CatalogRow> = Vec::new();
    match read {
        Err(fault) => {
            assert(rows.deep_view() =~= Seq::empty());
            (rows, note_unread("local_thread_catalog", path, describe_fault(fault)))
        },
        Ok(cells) => {
            let ghost view = cells.deep_view();
            let ghost wanted = view.map_values(|row: CatalogCellsView| catalog_row(row));
            let mut i: usize = 0;
            while i < cells.len()
                invariant
                    i <= cells@.len(),
                    view == cells.deep_view(),
                    wanted == view.map_values(|row: CatalogCellsView| catalog_row(row)),
                    rows@.len() == i,
                    forall|j: int| 0 <= j < i ==> #[trigger] rows@[j].deep_view() == wanted[j],
                decreases cells@.len() - i,
            {
                assert(view[i as int] == cells@[i as int].deep_view());
                rows.push(make_catalog_row(&cells[i]));
                i += 1;
            }
            assert(rows.deep_view() =~= wanted);
            let (local, remote) = count_rows(&rows);
            let note = join5(
                "read-only; ",
                decimal(local as u64).as_str(),
                " local rows; ",
                decimal(remote as u64).as_str(),
                " non-local rows",
            );
            let count: usize = rows.len();
            (rows, note_read("local_thread_catalog", path, count, note))
        },
    }
}

/// A text without the byte order marks in front of it.
pub open spec fn without_marks(s: Seq<char>) -> Seq<char>
    decreases s.len(),
{
    if s.len() > 0 && s[0] == '\u{feff}' {
        without_marks(s.drop_first())
    } else {
        s
    }
}

/// A text without the byte order marks in front of it.
pub fn drop_marks(s: &str) -> (r: String)
    ensures
        r@ == without_marks(s@),
{
    let chars = chars_of(s);
    let mut i: usize = 0;
    assert(s@.skip(0) =~= s@);
    while i < chars.len() && chars[i] == '\u{feff}'
        invariant
            i <= chars.len(),
            chars@ == s@,
            without_marks(s@.skip(i as int)) == without_marks(s@),
        decreases chars.len() - i,
    {
        assert(s@.skip(i as int).drop_first() =~= s@.skip(i + 1));
        i += 1;
    }
    assert(without_marks(s@.skip(i as int)) == s@.skip(i as int));
    let rest = substring(s, i, chars.len());
    assert(rest@ =~= s@.skip(i as int));
    rest
}

/// The session that a line of the index names.
pub open spec fn indexed_id(parsed: Option<JsonView>) -> Option<Seq<char>> {
    match parsed {
        None => None,
        Some(value) => match json::field(value, "id"@) {
            Some(JsonView::Text(id)) => Some(id),
            _ => None,
        },
    }
}

/// The session that a line of the index names, given what the line says.
pub fn find_indexed_id(parsed: &Option<Json>) -> (r: Option<String>)
    ensures
        r.deep_view() == indexed_id(parsed.deep_view()),
{
    match parsed {
        None => None,
        Some(value) => match value.get("id") {
            Some(Json::Text(id)) => Some(id.copy_of()),
            _ => None,
        },
    }
}

/// The session that a line of the index names.
pub open spec fn line_id(line: Seq<char>) -> Option<Seq<char>> {
    indexed_id(json::json_parse(without_marks(line)))
}

/// A line of the index that says something.
pub open spec fn speaks(line: Seq<char>) -> bool {
    text::trimmed(line).len() > 0
}

/// The sessions that the index names.
pub open spec fn index_ids(lines: Seq<Seq<char>>) -> Set<Seq<char>>
    decreases lines.len(),
{
    if lines.len() == 0 {
        Set::empty()
    } else {
        let rest = index_ids(lines.drop_last());
        if speaks(lines.last()) && line_id(lines.last()) is Some {
            rest.insert(line_id(lines.last())->0)
        } else {
            rest
        }
    }
}

/// How many lines of the index name no session.
pub open spec fn malformed_count(lines: Seq<Seq<char>>) -> nat {
    planning::kept(
        lines,
        |line: Seq<char>| speaks(line) && line_id(line) is None,
    ).len()
}

/// The sessions of the index, and how it was read.
pub open spec fn index_read(
    path: Seq<char>,
    read: Result<Seq<Seq<char>>, SourceFaultView>,
) -> (Set<Seq<char>>, SourceSummaryView) {
    match read {
        Err(fault) => (Set::empty(), unread("session_index"@, path, fault_note(fault))),
        Ok(lines) => (
            index_ids(lines),
            was_read(
                "session_index"@,
                path,
                ordered::listed::<String>(index_ids(lines)).len() as int,
                "index read-only; "@ + text::decimal_text(malformed_count(lines))
                    + " malformed lines"@,
            ),
        ),
    }
}

/// The sessions of the index, and how it was read.
pub fn read_session_index(path: &str, read: &Result<Vec<String>, SourceFault>) -> (r: (
    OrderedSet<String>,
    SourceSummary,
))
    ensures
        (r.0.deep_view(), r.1.deep_view()) == index_read(path@, model::outcome(*read)),
{
    let mut ids: OrderedSet<String> = OrderedSet::new();
    match read {
        Err(fault) => (ids, note_unread("session_index", path, describe_fault(fault))),
        Ok(lines) => {
            let ghost view = lines.deep_view();
            let mut malformed: usize = 0;
            let mut i: usize = 0;
            assert(ids.deep_view() =~= index_ids(view.take(0)));
            while i < lines.len()
                invariant
                    i <= lines@.len(),
                    view == lines.deep_view(),
                    malformed <= i,
                    ids.deep_view() == index_ids(view.take(i as int)),
                    malformed == malformed_count(view.take(i as int)),
                decreases lines@.len() - i,
            {
                assert(view[i as int] == lines@[i as int]@);
                assert(view.take(i + 1).drop_last() =~= view.take(i as int));
                if !is_blank(lines[i].as_str()) {
                    let bare = drop_marks(lines[i].as_str());
                    match find_indexed_id(&parse_json(bare.as_str())) {
                        Some(id) => {
                            ids.insert(id);
                        },
                        None => {
                            malformed += 1;
                        },
                    }
                }
                i += 1;
            }
            assert(view.take(i as int) =~= view);
            let note = join3(
                "index read-only; ",
                decimal(malformed as u64).as_str(),
                " malformed lines",
            );
            let count: usize = ids.len();
            (ids, note_read("session_index", path, count, note))
        },
    }
}

/// The texts of a list.
pub open spec fn texts_of(items: Seq<JsonView>) -> Seq<Seq<char>>
    decreases items.len(),
{
    if items.len() == 0 {
        Seq::empty()
    } else {
        let rest = texts_of(items.drop_last());
        match items.last() {
            JsonView::Text(value) => rest.push(value),
            _ => rest,
        }
    }
}

fn collect_texts(items: &Vec<Json>) -> (r: Vec<String>)
    ensures
        r.deep_view() == texts_of(items.deep_view()),
{
    let ghost view = items.deep_view();
    let mut out: Vec<String> = Vec::new();
    let mut i: usize = 0;
    assert(out.deep_view() =~= texts_of(view.take(0)));
    while i < items.len()
        invariant
            i <= items@.len(),
            view == items.deep_view(),
            out.deep_view() == texts_of(view.take(i as int)),
        decreases items@.len() - i,
    {
        let ghost before = out.deep_view();
        assert(view[i as int] == items@[i as int].deep_view());
        assert(view.take(i + 1).drop_last() =~= view.take(i as int));
        if let Json::Text(value) = &items[i] {
            out.push(value.copy_of());
            assert(out.deep_view() =~= before.push(value@));
        }
        i += 1;
    }
    assert(view.take(i as int) =~= view);
    out
}

/// The members of an object by their keys.
pub open spec fn by_key(members: Seq<(Seq<char>, JsonView)>) -> Map<Seq<char>, JsonView>
    decreases members.len(),
{
    if members.len() == 0 {
        Map::empty()
    } else {
        by_key(members.drop_last()).insert(members.last().0, members.last().1)
    }
}

fn collect_members(members: &Vec<(String, Json)>) -> (r: OrderedMap<String, Json>)
    ensures
        r.deep_view() == by_key(members.deep_view()),
{
    let ghost view = members.deep_view();
    let mut out: OrderedMap<String, Json> = OrderedMap::new();
    let mut i: usize = 0;
    assert(out.deep_view() =~= by_key(view.take(0)));
    while i < members.len()
        invariant
            i <= members@.len(),
            view == members.deep_view(),
            out.deep_view() == by_key(view.take(i as int)),
        decreases members@.len() - i,
    {
        assert(view[i as int] == members@[i as int].deep_view());
        assert(view.take(i + 1).drop_last() =~= view.take(i as int));
        out.insert(members[i].0.copy_of(), members[i].1.copy_of());
        i += 1;
    }
    assert(view.take(i as int) =~= view);
    out
}

/// A global state that tells nothing.
pub open spec fn no_global_state() -> GlobalStateSnapshotView {
    GlobalStateSnapshotView {
        readable: false,
        sha256: None,
        saved_workspace_roots: Seq::empty(),
        thread_workspace_root_hints: Map::empty(),
    }
}

/// What a global state tells, given what its file says and the digest of it.
pub open spec fn global_state_of(
    parsed: Option<JsonView>,
    sha256: Seq<char>,
) -> GlobalStateSnapshotView {
    match parsed {
        Some(JsonView::Object(members)) => GlobalStateSnapshotView {
            readable: true,
            sha256: Some(sha256),
            saved_workspace_roots: match json::member(
                members,
                "electron-saved-workspace-roots"@,
            ) {
                Some(JsonView::Array(roots)) => texts_of(roots),
                _ => Seq::empty(),
            },
            thread_workspace_root_hints: match json::member(
                members,
                "thread-workspace-root-hints"@,
            ) {
                Some(JsonView::Object(hints)) => by_key(hints),
                _ => Map::empty(),
            },
        },
        _ => no_global_state(),
    }
}

/// A global state that tells nothing.
pub fn unreadable_global_state() -> (r: GlobalStateSnapshot)
    ensures
        r.deep_view() == no_global_state(),
{
    let roots: Vec<String> = Vec::new();
    assert(roots.deep_view() =~= Seq::<Seq<char>>::empty());
    GlobalStateSnapshot {
        readable: false,
        sha256: None,
        saved_workspace_roots: roots,
        thread_workspace_root_hints: OrderedMap::new(),
    }
}

/// What a global state tells, given what its file says and the digest of it.
pub fn parsed_global_state(parsed: &Option<Json>, sha256: String) -> (r: GlobalStateSnapshot)
    ensures
        r.deep_view() == global_state_of(parsed.deep_view(), sha256@),
{
    let value = match parsed {
        Some(value) => value,
        None => {
            return unreadable_global_state();
        },
    };
    match value {
        Json::Object(_) => {
            let saved_workspace_roots = match value.get("electron-saved-workspace-roots") {
                Some(Json::Array(roots)) => {
                    assert(roots.deep_view() =~= Json::Array(*roots).deep_view()->Array_0);
                    collect_texts(roots)
                },
                _ => {
                    let none: Vec<String> = Vec::new();
                    assert(none.deep_view() =~= Seq::<Seq<char>>::empty());
                    none
                },
            };
            let thread_workspace_root_hints = match value.get("thread-workspace-root-hints") {
                Some(Json::Object(hints)) => {
                    assert(hints.deep_view() =~= Json::Object(*hints).deep_view()->Object_0);
                    collect_members(hints)
                },
                _ => OrderedMap::new(),
            };
            GlobalStateSnapshot {
                readable: true,
                sha256: Some(sha256),
                saved_workspace_roots,
                thread_workspace_root_hints,
            }
        },
        _ => unreadable_global_state(),
    }
}

/// What the bytes of a global state tell.
pub fn global_state_snapshot_from_bytes(bytes: &[u8]) -> (r: GlobalStateSnapshot)
    ensures
        r.deep_view() == global_state_of(
            json::json_parse_bytes(bytes@),
            digest::sha256_hex(bytes@),
        ),
{
    parsed_global_state(&parse_json_bytes(bytes), hash_bytes(bytes))
}

/// The workspace hints of a global state, or why there are none.
pub fn workspace_hints_from_bytes(bytes: &[u8]) -> (r: Result<OrderedMap<String, Json>, String>)
    ensures
        ({
            let state = global_state_of(
                json::json_parse_bytes(bytes@),
                digest::sha256_hex(bytes@),
            );
            match r {
                Ok(hints) => state.readable && hints.deep_view()
                    == state.thread_workspace_root_hints,
                Err(message) => !state.readable && message@
                    == "global state workspace hints are unreadable"@,
            }
        }),
{
    let state = global_state_snapshot_from_bytes(bytes);
    if !state.readable {
        return Err("global state workspace hints are unreadable".to_owned());
    }
    Ok(state.thread_workspace_root_hints)
}

/// How the global state was read, given what its file says.
pub open spec fn global_state_summary(
    path: Seq<char>,
    parsed: Option<JsonView>,
) -> SourceSummaryView {
    match parsed {
        None => unread("global_state"@, path, "invalid JSON; read-only check failed"@),
        Some(value) => was_read(
            "global_state"@,
            path,
            match value {
                JsonView::Object(members) => members.len() as int,
                _ => 1,
            },
            "workspace roots are read for identity checks; only deterministic thread hints may be updated"@,
        ),
    }
}

/// How the global state was read, given what its file says.
pub fn summarize_global_state(path: &str, parsed: &Option<Json>) -> (r: SourceSummary)
    ensures
        r.deep_view() == global_state_summary(path@, parsed.deep_view()),
{
    match parsed {
        None => note_unread(
            "global_state",
            path,
            "invalid JSON; read-only check failed".to_owned(),
        ),
        Some(value) => {
            let records: usize = match value {
                Json::Object(members) => members.len(),
                _ => 1,
            };
            note_read(
                "global_state",
                path,
                records,
                "workspace roots are read for identity checks; only deterministic thread hints may be updated".to_owned(),
            )
        },
    }
}

/// How the global state was read, given the bytes of its file or why it cannot be read.
pub fn global_state_source(path: &str, read: &Result<Vec<u8>, String>) -> (r: SourceSummary)
    ensures
        r.deep_view() == match *read {
            Err(error) => unread("global_state"@, path@, error@),
            Ok(bytes) => global_state_summary(path@, json::json_parse_bytes(bytes@)),
        },
{
    match read {
        Err(error) => note_unread("global_state", path, error.copy_of()),
        Ok(bytes) => summarize_global_state(path, &parse_json_bytes(bytes.as_slice())),
    }
}

/// The first record of a rollout names a provider that is safe to use.
pub open spec fn named_provider(primary: PrimaryRolloutView) -> Option<Seq<char>> {
    providers::safe_or_none(primary.model_provider)
}

/// What of the rollouts is there, by their ids.
pub open spec fn rollout_part<X>(
    rollouts: Map<Seq<char>, PrimaryRolloutView>,
    part: spec_fn(PrimaryRolloutView) -> Option<X>,
) -> Map<Seq<char>, X> {
    Map::new(
        |id: Seq<char>| rollouts.dom().contains(id) && part(rollouts[id]) is Some,
        |id: Seq<char>| part(rollouts[id])->0,
    )
}

/// The ids of the rollouts that are archived, or of those that are not.
pub open spec fn filed_ids(
    rollouts: Map<Seq<char>, PrimaryRolloutView>,
    archived: bool,
) -> Set<Seq<char>> {
    Set::new(|id: Seq<char>| rollouts.dom().contains(id) && rollouts[id].archived == archived)
}

/// How often a code stands in a list.
pub open spec fn occurrences(codes: Seq<Seq<char>>, code: Seq<char>) -> nat {
    planning::kept(codes, |other: Seq<char>| other == code).len()
}

/// How often each code stands in a list.
pub open spec fn tally(codes: Seq<Seq<char>>) -> Map<Seq<char>, usize> {
    Map::new(
        |code: Seq<char>| codes.contains(code),
        |code: Seq<char>| occurrences(codes, code) as usize,
    )
}

/// The rollouts of a home, by what is looked up.
pub open spec fn rollouts_read(inventory: RolloutInventoryView) -> RolloutReadView {
    let rollouts = inventory.rollouts;
    RolloutReadView {
        ids: rollouts.dom(),
        valid_active_ids: filed_ids(rollouts, false),
        valid_archived_ids: filed_ids(rollouts, true),
        providers: rollout_part(
            rollouts,
            |primary: PrimaryRolloutView|
                match named_provider(primary) {
                    Some(provider) => Some(set![provider]),
                    None => None,
                },
        ),
        provider_values: rollout_part(
            rollouts,
            |primary: PrimaryRolloutView| named_provider(primary),
        ),
        sources: rollout_part(rollouts, |primary: PrimaryRolloutView| primary.source),
        thread_sources: rollout_part(
            rollouts,
            |primary: PrimaryRolloutView| primary.thread_source,
        ),
        cwds: rollout_part(rollouts, |primary: PrimaryRolloutView| primary.cwd),
        locality: rollouts.map_values(|primary: PrimaryRolloutView| primary.locality),
        paths: rollouts.map_values(|primary: PrimaryRolloutView| primary.path),
        primary_rollouts: rollouts,
        files: ordered::listed::<String>(rollouts.dom()).map_values(
            |id: Seq<char>| rollouts[id].path,
        ),
        file_count: inventory.file_count,
        issues: tally(inventory.issues),
    }
}

proof fn lemma_part_insert<X>(
    done: Map<Seq<char>, PrimaryRolloutView>,
    part: spec_fn(PrimaryRolloutView) -> Option<X>,
    id: Seq<char>,
    primary: PrimaryRolloutView,
)
    requires
        !done.dom().contains(id),
    ensures
        rollout_part(done.insert(id, primary), part) == (match part(primary) {
            Some(value) => rollout_part(done, part).insert(id, value),
            None => rollout_part(done, part),
        }),
{
    let now = rollout_part(done.insert(id, primary), part);
    let wanted = match part(primary) {
        Some(value) => rollout_part(done, part).insert(id, value),
        None => rollout_part(done, part),
    };
    assert forall|x: Seq<char>| now.dom().contains(x) <==> wanted.dom().contains(x) by {
        if x != id {
            assert(done.insert(id, primary)[x] == done[x]);
        }
    }
    assert(now =~= wanted);
}

proof fn lemma_filed_insert(
    done: Map<Seq<char>, PrimaryRolloutView>,
    archived: bool,
    id: Seq<char>,
    primary: PrimaryRolloutView,
)
    requires
        !done.dom().contains(id),
    ensures
        filed_ids(done.insert(id, primary), archived) == (if primary.archived == archived {
            filed_ids(done, archived).insert(id)
        } else {
            filed_ids(done, archived)
        }),
{
    let now = filed_ids(done.insert(id, primary), archived);
    let wanted = if primary.archived == archived {
        filed_ids(done, archived).insert(id)
    } else {
        filed_ids(done, archived)
    };
    assert forall|x: Seq<char>| now.contains(x) <==> wanted.contains(x) by {
        if x != id {
            assert(done.insert(id, primary)[x] == done[x]);
        }
    }
    assert(now =~= wanted);
}

fn count_issues(codes: &Vec<String>) -> (r: OrderedMap<String, usize>)
    ensures
        r.deep_view() == tally(codes.deep_view()),
{
    let ghost view = codes.deep_view();
    let mut out: OrderedMap<String, usize> = OrderedMap::new();
    let mut i: usize = 0;
    assert(out.deep_view() =~= tally(view.take(0)));
    while i < codes.len()
        invariant
            i <= codes@.len(),
            view == codes.deep_view(),
            out.deep_view() == tally(view.take(i as int)),
        decreases codes@.len() - i,
    {
        let ghost from = view.take(i as int);
        let ghost to = view.take(i + 1);
        let ghost code = view[i as int];
        assert(code == codes@[i as int]@);
        proof {
            assert(to.drop_last() =~= from);
            assert(to =~= from.push(code));
            assert forall|x: Seq<char>| #[trigger] to.contains(x) <==> (from.contains(x) || x
                == code) by {
                sessions::lemma_push_contains(from, code, x);
            }
            lemma_occurrences(from, code);
            if !from.contains(code) {
                lemma_no_occurrence(from, code);
            }
            assert forall|x: Seq<char>| #[trigger] occurrences(to, x) == occurrences(from, x) + (
            if x == code {
                1nat
            } else {
                0nat
            }) by {}
        }
        let known: usize = match out.get(&codes[i]) {
            Some(count) => *count,
            None => 0,
        };
        assert(known == occurrences(from, code));
        out.insert(codes[i].copy_of(), known + 1);
        assert(out.deep_view() =~= tally(to));
        i += 1;
    }
    assert(view.take(i as int) =~= view);
    out
}

proof fn lemma_occurrences(codes: Seq<Seq<char>>, code: Seq<char>)
    ensures
        occurrences(codes, code) <= codes.len(),
    decreases codes.len(),
{
    if codes.len() > 0 {
        lemma_occurrences(codes.drop_last(), code);
    }
}

proof fn lemma_no_occurrence(codes: Seq<Seq<char>>, code: Seq<char>)
    requires
        !codes.contains(code),
    ensures
        occurrences(codes, code) == 0,
    decreases codes.len(),
{
    if codes.len() > 0 {
        assert(codes.last() == codes[codes.len() - 1]);
        assert(!codes.drop_last().contains(code)) by {
            if codes.drop_last().contains(code) {
                let j = choose|j: int|
                    0 <= j < codes.drop_last().len() && codes.drop_last()[j] == code;
                assert(codes[j] == code);
            }
        }
        lemma_no_occurrence(codes.drop_last(), code);
    }
}

/// What was read of the rollouts is what the spec says, but for the list of files and the issues.
spec fn read_so_far(read: RolloutReadView, done: Map<Seq<char>, PrimaryRolloutView>) -> bool {
    let wanted = rollouts_read(
        RolloutInventoryView { rollouts: done, issues: Seq::empty(), file_count: 0 },
    );
    &&& read.ids == wanted.ids
    &&& read.valid_active_ids == wanted.valid_active_ids
    &&& read.valid_archived_ids == wanted.valid_archived_ids
    &&& read.providers == wanted.providers
    &&& read.provider_values == wanted.provider_values
    &&& read.sources == wanted.sources
    &&& read.thread_sources == wanted.thread_sources
    &&& read.cwds == wanted.cwds
    &&& read.locality == wanted.locality
    &&& read.paths == wanted.paths
    &&& read.primary_rollouts == wanted.primary_rollouts
}

impl RolloutRead {
    fn empty(file_count: usize) -> (r: Self)
        ensures
            read_so_far(r.deep_view(), Map::empty()),
            r.files.deep_view() == Seq::<Seq<char>>::empty(),
            r.file_count == file_count,
    {
        let files: Vec<String> = Vec::new();
        let read = RolloutRead {
            ids: OrderedSet::new(),
            valid_active_ids: OrderedSet::new(),
            valid_archived_ids: OrderedSet::new(),
            providers: OrderedMap::new(),
            provider_values: OrderedMap::new(),
            sources: OrderedMap::new(),
            thread_sources: OrderedMap::new(),
            cwds: OrderedMap::new(),
            locality: OrderedMap::new(),
            paths: OrderedMap::new(),
            primary_rollouts: OrderedMap::new(),
            files,
            file_count,
            issues: OrderedMap::new(),
        };
        proof {
            let view = read.deep_view();
            let none: Map<Seq<char>, PrimaryRolloutView> = Map::empty();
            let wanted = rollouts_read(
                RolloutInventoryView { rollouts: none, issues: Seq::empty(), file_count: 0 },
            );
            assert(view.ids =~= wanted.ids);
            assert(view.valid_active_ids =~= wanted.valid_active_ids);
            assert(view.valid_archived_ids =~= wanted.valid_archived_ids);
            assert(view.providers =~= wanted.providers);
            assert(view.provider_values =~= wanted.provider_values);
            assert(view.sources =~= wanted.sources);
            assert(view.thread_sources =~= wanted.thread_sources);
            assert(view.cwds =~= wanted.cwds);
            assert(view.locality =~= wanted.locality);
            assert(view.paths =~= wanted.paths);
            assert(view.primary_rollouts =~= wanted.primary_rollouts);
            assert(view.files =~= Seq::<Seq<char>>::empty());
        }
        read
    }
}

fn add_rollout(
    read: &mut RolloutRead,
    id: &String,
    primary: &PrimaryRollout,
    Ghost(done): Ghost<Map<Seq<char>, PrimaryRolloutView>>,
)
    requires
        !done.dom().contains(id@),
        read_so_far(old(read).deep_view(), done),
    ensures
        read_so_far(final(read).deep_view(), done.insert(id@, primary.deep_view())),
        final(read).files.deep_view() == old(read).files.deep_view().push(primary.path@),
        final(read).issues == old(read).issues,
        final(read).file_count == old(read).file_count,
{
    let ghost now = done.insert(id@, primary.deep_view());
    let ghost before = read.files.deep_view();
    proof {
        let view = primary.deep_view();
        lemma_filed_insert(done, true, id@, view);
        lemma_filed_insert(done, false, id@, view);
        lemma_part_insert(
            done,
            |primary: PrimaryRolloutView|
                match named_provider(primary) {
                    Some(provider) => Some(set![provider]),
                    None => None,
                },
            id@,
            view,
        );
        lemma_part_insert(done, |primary: PrimaryRolloutView| named_provider(primary), id@, view);
        lemma_part_insert(done, |primary: PrimaryRolloutView| primary.source, id@, view);
        lemma_part_insert(done, |primary: PrimaryRolloutView| primary.thread_source, id@, view);
        lemma_part_insert(done, |primary: PrimaryRolloutView| primary.cwd, id@, view);
        assert(now.dom() =~= done.dom().insert(id@));
        assert(now.map_values(|primary: PrimaryRolloutView| primary.locality)
            =~= done.map_values(|primary: PrimaryRolloutView| primary.locality).insert(
            id@,
            view.locality,
        ));
        assert(now.map_values(|primary: PrimaryRolloutView| primary.path) =~= done.map_values(
            |primary: PrimaryRolloutView| primary.path,
        ).insert(id@, view.path));
    }
    read.ids.insert(id.copy_of());
    read.paths.insert(id.copy_of(), primary.path.copy_of());
    read.files.push(primary.path.copy_of());
    assert(read.files.deep_view() =~= before.push(primary.path@));
    if primary.archived {
        read.valid_archived_ids.insert(id.copy_of());
    } else {
        read.valid_active_ids.insert(id.copy_of());
    }
    if let Some(source) = &primary.source {
        read.sources.insert(id.copy_of(), source.copy_of());
    }
    if let Some(thread_source) = &primary.thread_source {
        read.thread_sources.insert(id.copy_of(), thread_source.copy_of());
    }
    if let Some(cwd) = &primary.cwd {
        read.cwds.insert(id.copy_of(), cwd.copy_of());
    }
    read.locality.insert(id.copy_of(), primary.locality.copy_of());
    if let Some(raw) = &primary.model_provider {
        match validate_provider(raw.as_str()) {
            Ok(provider) => {
                let mut named: OrderedSet<String> = OrderedSet::new();
                named.insert(provider);
                assert(named.deep_view() =~= set![raw@]);
                read.provider_values.insert(id.copy_of(), raw.copy_of());
                read.providers.insert(id.copy_of(), named);
            },
            Err(_) => {},
        }
    }
    read.primary_rollouts.insert(id.copy_of(), primary.copy_of());
}

/// Lists what the rollouts of a home say, by what is looked up.
pub fn read_rollouts(inventory: &RolloutInventory) -> (r: RolloutRead)
    ensures
        r.deep_view() == rollouts_read(inventory.deep_view()),
{
    let rollouts = &inventory.rollouts;
    let n: usize = rollouts.len();
    let ghost keys = rollouts.keys();
    let ghost all = rollouts.deep_view();
    let ghost mut done: Map<Seq<char>, PrimaryRolloutView> = Map::empty();
    let mut read = RolloutRead::empty(inventory.file_count);
    let mut i: usize = 0;
    assert(keys.take(0).map_values(|id: Seq<char>| all[id].path) =~= Seq::<Seq<char>>::empty());
    while i < n
        invariant
            i <= n == keys.len(),
            keys == rollouts.keys(),
            all == rollouts.deep_view(),
            rollouts.keys_describe(),
            forall|id: Seq<char>| #[trigger]
                done.dom().contains(id) <==> keys.take(i as int).contains(id),
            forall|id: Seq<char>| done.dom().contains(id) ==> done[id] == #[trigger] all[id],
            read_so_far(read.deep_view(), done),
            read.file_count == inventory.file_count,
            read.files.deep_view() == keys.take(i as int).map_values(
                |id: Seq<char>| all[id].path,
            ),
        decreases n - i,
    {
        let id = rollouts.key_at(i);
        let primary = rollouts.value_at(i);
        let ghost from = keys.take(i as int);
        let ghost to = keys.take(i + 1);
        proof {
            assert(to =~= from.push(keys[i as int]));
            assert forall|x: Seq<char>| #[trigger] to.contains(x) <==> (from.contains(x) || x
                == keys[i as int]) by {
                sessions::lemma_push_contains(from, keys[i as int], x);
            }
            if from.contains(keys[i as int]) {
                let j = choose|j: int| 0 <= j < from.len() && from[j] == keys[i as int];
                text::lemma_relation(keys[j], keys[i as int]);
            }
            assert(to.map_values(|id: Seq<char>| all[id].path) =~= from.map_values(
                |id: Seq<char>| all[id].path,
            ).push(primary.path@));
        }
        add_rollout(&mut read, id, primary, Ghost(done));
        proof {
            done = done.insert(id@, primary.deep_view());
        }
        i += 1;
    }
    proof {
        assert(keys.take(i as int) =~= keys);
        assert(done.dom() =~= all.dom());
        assert(done =~= all);
    }
    read.issues = count_issues(&inventory.issues);
    read
}

/// What the problems of the rollouts come to: each code with how often it came, in order.
pub open spec fn issue_entries(issues: Map<Seq<char>, usize>, codes: Seq<Seq<char>>) -> Seq<
    Seq<char>,
> {
    codes.map_values(
        |code: Seq<char>| code + "="@ + text::decimal_text(issues[code] as nat),
    )
}

/// The problems of the rollouts in words.
pub open spec fn issue_words(issues: Map<Seq<char>, usize>) -> Seq<char> {
    let codes = ordered::listed::<String>(issues.dom());
    if codes.len() == 0 {
        "no metadata issues"@
    } else {
        recovery::joined(
            ordered::sorted_items::<String>(issue_entries(issues, codes)),
            ", "@,
        )
    }
}

/// How many problems there are.
pub open spec fn issue_total(issues: Map<Seq<char>, usize>, codes: Seq<Seq<char>>) -> int
    decreases codes.len(),
{
    if codes.len() == 0 {
        0
    } else {
        issue_total(issues, codes.drop_last()) + issues[codes.last()]
    }
}

proof fn lemma_issue_total(issues: Map<Seq<char>, usize>, codes: Seq<Seq<char>>)
    ensures
        issue_total(issues, codes) >= 0,
    decreases codes.len(),
{
    if codes.len() > 0 {
        lemma_issue_total(issues, codes.drop_last());
    }
}

fn describe_issues(issues: &OrderedMap<String, usize>) -> (r: (usize, String))
    ensures
        r.0 == verification::count_of(
            issue_total(
                issues.deep_view(),
                ordered::listed::<String>(issues.deep_view().dom()),
            ),
        ),
        r.1@ == issue_words(issues.deep_view()),
{
    let n: usize = issues.len();
    let ghost codes = issues.keys();
    let ghost counts = issues.deep_view();
    if n == 0 {
        return (0, "no metadata issues".to_owned());
    }
    let mut total: usize = 0;
    let mut entries: Vec<String> = Vec::new();
    let mut i: usize = 0;
    assert(entries.deep_view() =~= issue_entries(counts, codes.take(0)));
    while i < n
        invariant
            i <= n == codes.len(),
            codes == issues.keys(),
            counts == issues.deep_view(),
            issues.keys_describe(),
            total == verification::count_of(issue_total(counts, codes.take(i as int))),
            entries.deep_view() == issue_entries(counts, codes.take(i as int)),
        decreases n - i,
    {
        let ghost before = entries.deep_view();
        assert(codes.take(i + 1).drop_last() =~= codes.take(i as int));
        let count: usize = *issues.value_at(i);
        proof {
            lemma_issue_total(counts, codes.take(i as int));
        }
        total = total.saturating_add(count);
        let entry = join3(issues.key_at(i).as_str(), "=", decimal(count as u64).as_str());
        entries.push(entry);
        assert(entries.deep_view() =~= before.push(entry@));
        assert(entries.deep_view() =~= issue_entries(counts, codes.take(i + 1)));
        i += 1;
    }
    assert(codes.take(i as int) =~= codes);
    let sorted = sort_items(&entries);
    (total, join_all(&sorted, ", "))
}

/// How the rollouts were read.
pub open spec fn rollouts_summary(
    sessions_path: Seq<char>,
    has_directory: bool,
    read: RolloutReadView,
) -> SourceSummaryView {
    let failed_walks: usize = match sessions::lookup(read.issues, "walk_error"@) {
        Some(count) => count,
        None => 0,
    };
    SourceSummaryView {
        name: "rollouts"@,
        path: sessions_path,
        records: ordered::listed::<String>(read.ids).len() as usize,
        readable: has_directory && failed_walks == 0,
        note: text::decimal_text(read.file_count as nat) + " valid primary records; "@
            + text::decimal_text(
            verification::count_of(
                (ordered::listed::<String>(read.valid_active_ids).len()
                    + ordered::listed::<String>(read.valid_archived_ids).len()) as int,
            ) as nat,
        ) + " unique valid rollouts; provider metadata for "@ + text::decimal_text(
            ordered::listed::<String>(read.providers.dom()).len(),
        ) + " IDs; "@ + text::decimal_text(
            verification::count_of(
                issue_total(read.issues, ordered::listed::<String>(read.issues.dom())),
            ) as nat,
        ) + " issues ("@ + issue_words(read.issues)
            + "); bounded first-record scan; read-only"@,
    }
}

fn summarize_rollouts(sessions_path: &str, has_directory: bool, read: &RolloutRead) -> (r:
    SourceSummary)
    ensures
        r.deep_view() == rollouts_summary(sessions_path@, has_directory, read.deep_view()),
{
    let failed_walks: usize = match read.issues.get(&"walk_error".to_owned()) {
        Some(count) => *count,
        None => 0,
    };
    let valid: usize = read.valid_active_ids.len().saturating_add(read.valid_archived_ids.len());
    let (issue_count, words) = describe_issues(&read.issues);
    let first = join6(
        decimal(read.file_count as u64).as_str(),
        " valid primary records; ",
        decimal(valid as u64).as_str(),
        " unique valid rollouts; provider metadata for ",
        decimal(read.providers.len() as u64).as_str(),
        " IDs; ",
    );
    let note = join5(
        first.as_str(),
        decimal(issue_count as u64).as_str(),
        " issues (",
        words.as_str(),
        "); bounded first-record scan; read-only",
    );
    SourceSummary {
        name: "rollouts".to_owned(),
        path: sessions_path.to_owned(),
        records: read.ids.len(),
        readable: has_directory && failed_walks == 0,
        note,
    }
}

/// A home at one moment, put together from its sources.
pub open spec fn assembled(
    threads: (Seq<ThreadRowView>, SourceSummaryView),
    catalog: (Seq<CatalogRowView>, SourceSummaryView),
    read: RolloutReadView,
    index: (Set<Seq<char>>, SourceSummaryView),
    global_state: GlobalStateSnapshotView,
    sessions_path: Seq<char>,
    has_directory: bool,
) -> SnapshotView {
    SnapshotView {
        threads: threads.0,
        catalog: catalog.0,
        rollouts: read.ids,
        valid_active_rollouts: read.valid_active_ids,
        valid_archived_rollouts: read.valid_archived_ids,
        rollout_providers: read.providers,
        rollout_provider_values: read.provider_values,
        rollout_sources: read.sources,
        rollout_thread_sources: read.thread_sources,
        rollout_cwds: read.cwds,
        rollout_locality: read.locality,
        rollout_paths: read.paths,
        primary_rollouts: read.primary_rollouts,
        global_state,
        session_index: index.0,
        jsonl_files: read.files,
        sqlite_readable: (if threads.1.readable {
            1int
        } else {
            0
        } + if catalog.1.readable {
            1int
        } else {
            0
        }) as usize,
        threads_readable: threads.1.readable,
        catalog_readable: catalog.1.readable,
        sources: seq![
            threads.1,
            catalog.1,
            rollouts_summary(sessions_path, has_directory, read),
            index.1,
        ],
    }
}

/// Puts a home at one moment together from its sources; `has_directory` says whether there is a
/// directory of rollouts at all.
pub fn scan_snapshot_uncached(
    threads: (Vec<ThreadRow>, SourceSummary),
    catalog: (Vec<CatalogRow>, SourceSummary),
    read: RolloutRead,
    index: (OrderedSet<String>, SourceSummary),
    global_state: GlobalStateSnapshot,
    sessions_path: &str,
    has_directory: bool,
) -> (r: Snapshot)
    ensures
        r.deep_view() == assembled(
            (threads.0.deep_view(), threads.1.deep_view()),
            (catalog.0.deep_view(), catalog.1.deep_view()),
            read.deep_view(),
            (index.0.deep_view(), index.1.deep_view()),
            global_state.deep_view(),
            sessions_path@,
            has_directory,
        ),
{
    let (threads, thread_source) = threads;
    let (catalog, catalog_source) = catalog;
    let (session_index, index_source) = index;
    let rollout_source = summarize_rollouts(sessions_path, has_directory, &read);
    let threads_readable = thread_source.readable;
    let catalog_readable = catalog_source.readable;
    let first: usize = if threads_readable {
        1
    } else {
        0
    };
    let second: usize = if catalog_readable {
        1
    } else {
        0
    };
    let ghost wanted = seq![
        thread_source.deep_view(),
        catalog_source.deep_view(),
        rollout_source.deep_view(),
        index_source.deep_view(),
    ];
    let mut sources: Vec<SourceSummary> = Vec::new();
    sources.push(thread_source);
    sources.push(catalog_source);
    sources.push(rollout_source);
    sources.push(index_source);
    assert(sources.deep_view() =~= wanted);
    Snapshot {
        threads,
        catalog,
        rollouts: read.ids,
        valid_active_rollouts: read.valid_active_ids,
        valid_archived_rollouts: read.valid_archived_ids,
        rollout_providers: read.providers,
        rollout_provider_values: read.provider_values,
        rollout_sources: read.sources,
        rollout_thread_sources: read.thread_sources,
        rollout_cwds: read.cwds,
        rollout_locality: read.locality,
        rollout_paths: read.paths,
        primary_rollouts: read.primary_rollouts,
        global_state,
        session_index,
        jsonl_files: read.files,
        sqlite_readable: first + second,
        threads_readable,
        catalog_readable,
        sources,
    }
}

/// A home whose rollouts stand under their own ids, with sources as the parser gives them, is
/// consistent.
pub proof fn law_scanned_home_is_consistent(
    threads: (Seq<ThreadRowView>, SourceSummaryView),
    catalog: (Seq<CatalogRowView>, SourceSummaryView),
    inventory: RolloutInventoryView,
    index: (Set<Seq<char>>, SourceSummaryView),
    global_state: GlobalStateSnapshotView,
    sessions_path: Seq<char>,
    has_directory: bool,
)
    requires
        forall|id: Seq<char>|
            inventory.rollouts.dom().contains(id) ==> (#[trigger] inventory.rollouts[id]).id == id
                && (inventory.rollouts[id].thread_source matches Some(source) ==> json::sound(
                source,
            )),
    ensures
        ({
            let home = assembled(
                threads,
                catalog,
                rollouts_read(inventory),
                index,
                global_state,
                sessions_path,
                has_directory,
            );
            records::consistent(home)
        }),
{
    let home = assembled(
        threads,
        catalog,
        rollouts_read(inventory),
        index,
        global_state,
        sessions_path,
        has_directory,
    );
    assert forall|id: Seq<char>| #[trigger] home.primary_rollouts.dom().contains(id) implies {
        &&& home.primary_rollouts[id].id == id
        &&& home.rollout_paths.dom().contains(id)
        &&& home.rollout_paths[id] == home.primary_rollouts[id].path
        &&& home.primary_rollouts[id].thread_source matches Some(source) ==> json::sound(source)
    } by {
        assert(inventory.rollouts[id].id == id);
    }
}

/// Every rollout counts as active or as archived, and none as both.
pub proof fn law_rollouts_are_filed_once(inventory: RolloutInventoryView, id: Seq<char>)
    ensures
        ({
            let read = rollouts_read(inventory);
            &&& read.ids.contains(id) <==> read.valid_active_ids.contains(id)
                || read.valid_archived_ids.contains(id)
            &&& !(read.valid_active_ids.contains(id) && read.valid_archived_ids.contains(id))
        }),
{
}

/// A source that cannot be read gives no records.
pub proof fn law_unread_source_gives_nothing(path: Seq<char>, fault: SourceFaultView)
    ensures
        threads_read(path, Err(fault)).0.len() == 0,
        !threads_read(path, Err(fault)).1.readable,
        catalogs_read(path, Err(fault)).0.len() == 0,
        !catalogs_read(path, Err(fault)).1.readable,
        index_read(path, Err(fault)).0 == Set::<Seq<char>>::empty(),
        !index_read(path, Err(fault)).1.readable,
{
}

/// The files whose changes a scan looks at, in the order in which it does.
pub open spec fn watched() -> Seq<Seq<char>> {
    seq![
        "state_5.sqlite"@,
        "state_5.sqlite-wal"@,
        "state_5.sqlite-shm"@,
        "sqlite/codex-dev.db"@,
        "sqlite/codex-dev.db-wal"@,
        "sqlite/codex-dev.db-shm"@,
        "session_index.jsonl"@,
        ".codex-global-state.json"@,
        "config.toml"@,
        "projection-state.json"@,
    ]
}

/// The files whose changes a scan looks at; the last one stands with the data of the tool.
pub fn watched_files() -> (r: Vec<String>)
    ensures
        r.deep_view() == watched(),
{
    let mut out: Vec<String> = Vec::new();
    out.push("state_5.sqlite".to_owned());
    out.push("state_5.sqlite-wal".to_owned());
    out.push("state_5.sqlite-shm".to_owned());
    out.push("sqlite/codex-dev.db".to_owned());
    out.push("sqlite/codex-dev.db-wal".to_owned());
    out.push("sqlite/codex-dev.db-shm".to_owned());
    out.push("session_index.jsonl".to_owned());
    out.push(".codex-global-state.json".to_owned());
    out.push("config.toml".to_owned());
    out.push("projection-state.json".to_owned());
    assert(out.deep_view() =~= watched());
    out
}

/// A file's signal; one that cannot be looked at has a signal of its own.
pub open spec fn signal_of(found: Map<Seq<char>, FileSignalView>, label: Seq<char>) -> FileSignalView {
    match sessions::lookup(found, label) {
        Some(signal) => FileSignalView { label, ..signal },
        None => FileSignalView { label, len: 0, modified: 0 },
    }
}

/// A file that holds a rollout, by its name.
pub open spec fn rollout_name(name: Seq<char>) -> bool {
    name.len() > 6 && text::lowered(name.skip(name.len() - 6)) == ".jsonl"@
}

/// Whether a file holds a rollout, by its name: whatever the case of the ending, but not where the
/// name is the ending alone.
pub fn is_rollout_name(name: &str) -> (r: bool)
    ensures
        r == rollout_name(name@),
{
    let chars = chars_of(name);
    let n: usize = chars.len();
    if n <= 6 {
        return false;
    }
    let end = substring(name, n - 6, n);
    assert(end@ =~= name@.skip(n - 6));
    same(to_lower(end.as_str()).as_str(), ".jsonl")
}

/// The signals of a tree of rollouts: how often the walk failed, how many files there are, and each
/// file, in the order of their labels.
pub open spec fn tree_signals(root: Seq<char>, tree: TreeFoundView) -> Seq<FileSignalView> {
    if !tree.is_directory {
        seq![FileSignalView { label: root + "/"@, len: 0, modified: 0 }]
    } else {
        let sorted = ordered::sorted_pairs::<String, FileSignalView>(
            tree.files.map_values(|file: FileSignalView| (file.label, file)),
        );
        Seq::new(
            tree.faults as nat,
            |i: int| FileSignalView { label: root + "/!walk"@, len: 1, modified: 0 },
        ).push(
            FileSignalView { label: root + "/#count"@, len: tree.files.len() as u64, modified: 0 },
        ) + sorted.map_values(|pair: (Seq<char>, FileSignalView)| pair.1)
    }
}

/// The signals of a tree of rollouts.
pub fn list_tree_signals(root: &str, tree: &TreeFound) -> (r: Vec<FileSignal>)
    ensures
        r.deep_view() == tree_signals(root@, tree.deep_view()),
{
    let mut out: Vec<FileSignal> = Vec::new();
    if !tree.is_directory {
        out.push(FileSignal { label: join2(root, "/"), len: 0, modified: 0 });
        assert(out.deep_view() =~= tree_signals(root@, tree.deep_view()));
        return out;
    }
    let ghost fault = FileSignalView { label: root@ + "/!walk"@, len: 1, modified: 0 };
    let mut i: usize = 0;
    while i < tree.faults
        invariant
            i <= tree.faults,
            fault == (FileSignalView { label: root@ + "/!walk"@, len: 1, modified: 0 }),
            out.deep_view() == Seq::new(i as nat, |j: int| fault),
        decreases tree.faults - i,
    {
        let ghost before = out.deep_view();
        out.push(FileSignal { label: join2(root, "/!walk"), len: 1, modified: 0 });
        assert(out.deep_view() =~= before.push(fault));
        assert(out.deep_view() =~= Seq::new((i + 1) as nat, |j: int| fault));
        i += 1;
    }
    let ghost front = out.deep_view();
    let count: usize = tree.files.len();
    out.push(FileSignal { label: join2(root, "/#count"), len: count as u64, modified: 0 });
    let ghost head = out.deep_view();
    let ghost files = tree.files.deep_view();
    let ghost labelled = files.map_values(|file: FileSignalView| (file.label, file));
    let mut pairs: Vec<(String, FileSignal)> = Vec::new();
    let mut k: usize = 0;
    while k < tree.files.len()
        invariant
            k <= tree.files@.len(),
            files == tree.files.deep_view(),
            labelled == files.map_values(|file: FileSignalView| (file.label, file)),
            pairs@.len() == k,
            forall|j: int| 0 <= j < k ==> #[trigger] pairs@[j].deep_view() == labelled[j],
        decreases tree.files@.len() - k,
    {
        assert(files[k as int] == tree.files@[k as int].deep_view());
        pairs.push((tree.files[k].label.copy_of(), tree.files[k].copy_of()));
        k += 1;
    }
    assert(pairs.deep_view() =~= labelled);
    let sorted = sort_pairs(pairs);
    let ghost order = sorted.deep_view();
    let mut at: usize = 0;
    assert(out.deep_view() =~= head + order.take(0).map_values(
        |pair: (Seq<char>, FileSignalView)| pair.1,
    ));
    while at < sorted.len()
        invariant
            at <= sorted@.len(),
            order == sorted.deep_view(),
            out.deep_view() == head + order.take(at as int).map_values(
                |pair: (Seq<char>, FileSignalView)| pair.1,
            ),
        decreases sorted@.len() - at,
    {
        let ghost before = out.deep_view();
        assert(order[at as int] == sorted@[at as int].deep_view());
        out.push(sorted[at].1.copy_of());
        assert(out.deep_view() =~= before.push(order[at as int].1));
        assert(out.deep_view() =~= head + order.take(at + 1).map_values(
            |pair: (Seq<char>, FileSignalView)| pair.1,
        ));
        at += 1;
    }
    assert(order.take(at as int) =~= order);
    assert(head =~= front.push(
        FileSignalView { label: root@ + "/#count"@, len: count as u64, modified: 0 },
    ));
    assert(front =~= Seq::new(
        tree.faults as nat,
        |i: int| FileSignalView { label: root@ + "/!walk"@, len: 1, modified: 0 },
    ));
    out
}

/// What a scan of a home would look at, so that a change of it shows.
pub open spec fn home_signals(
    found: Map<Seq<char>, FileSignalView>,
    sessions_tree: TreeFoundView,
    archived_tree: TreeFoundView,
) -> Seq<FileSignalView> {
    watched().map_values(|label: Seq<char>| signal_of(found, label)) + tree_signals(
        "sessions"@,
        sessions_tree,
    ) + tree_signals("archived_sessions"@, archived_tree)
}

fn append_signals(out: &mut Vec<FileSignal>, more: Vec<FileSignal>)
    ensures
        final(out).deep_view() == old(out).deep_view() + more.deep_view(),
{
    let ghost before = out.deep_view();
    let ghost view = more.deep_view();
    let mut i: usize = 0;
    assert(before + view.take(0) =~= before);
    while i < more.len()
        invariant
            i <= more@.len(),
            view == more.deep_view(),
            out.deep_view() == before + view.take(i as int),
        decreases more@.len() - i,
    {
        let ghost sofar = out.deep_view();
        assert(view[i as int] == more@[i as int].deep_view());
        out.push(more[i].copy_of());
        assert(out.deep_view() =~= sofar.push(view[i as int]));
        assert(before + view.take(i + 1) =~= sofar.push(view[i as int]));
        i += 1;
    }
    assert(view.take(i as int) =~= view);
}

/// What a scan of a home would look at, so that a change of it shows.
pub fn home_scan_fingerprint(
    found: &OrderedMap<String, FileSignal>,
    sessions_tree: &TreeFound,
    archived_tree: &TreeFound,
) -> (r: Vec<FileSignal>)
    ensures
        r.deep_view() == home_signals(
            found.deep_view(),
            sessions_tree.deep_view(),
            archived_tree.deep_view(),
        ),
{
    let labels = watched_files();
    let ghost known = found.deep_view();
    let ghost wanted = watched().map_values(|label: Seq<char>| signal_of(known, label));
    let mut out: Vec<FileSignal> = Vec::new();
    let mut i: usize = 0;
    while i < labels.len()
        invariant
            i <= labels@.len(),
            labels.deep_view() == watched(),
            known == found.deep_view(),
            wanted == watched().map_values(|label: Seq<char>| signal_of(known, label)),
            out@.len() == i,
            forall|j: int| 0 <= j < i ==> #[trigger] out@[j].deep_view() == wanted[j],
        decreases labels@.len() - i,
    {
        assert(labels.deep_view()[i as int] == labels@[i as int]@);
        let (len, modified): (u64, u64) = match found.get(&labels[i]) {
            Some(signal) => (signal.len, signal.modified),
            None => (0, 0),
        };
        out.push(FileSignal { label: labels[i].copy_of(), len, modified });
        i += 1;
    }
    assert(out.deep_view() =~= wanted);
    append_signals(&mut out, list_tree_signals("sessions", sessions_tree));
    append_signals(&mut out, list_tree_signals("archived_sessions", archived_tree));
    out
}

/// Whether a snapshot that was kept may be used again: of the same home, of the same signals, and
/// not too old.
pub fn cached_snapshot_answers(
    home: &str,
    fingerprint: &Vec<FileSignal>,
    kept_home: &str,
    kept_fingerprint: &Vec<FileSignal>,
    age_ms: u64,
    allow_cache: bool,
) -> (r: bool)
    ensures
        r == (allow_cache && home@ == kept_home@ && fingerprint.deep_view()
            == kept_fingerprint.deep_view() && age_ms < SNAPSHOT_CACHE_TTL_MS),
{
    allow_cache && same(home, kept_home) && fingerprint.same_as(kept_fingerprint) && age_ms
        < SNAPSHOT_CACHE_TTL_MS
}

/// The kind and detail of the source of a session, from what is recorded of it.
pub open spec fn source_words(
    parsed: Option<JsonView>,
    recorded: Seq<char>,
    thread_source: Seq<char>,
) -> Option<(Seq<char>, Seq<char>)> {
    match parsed {
        Some(JsonView::Text(value)) => Some((value, Seq::empty())),
        Some(JsonView::Object(members)) => {
            let kind = match json::member(members, "kind"@) {
                Some(kind) => Some(kind),
                None => json::member(members, "type"@),
            };
            match (json::member(members, "custom"@), kind) {
                (Some(JsonView::Text(custom)), _) => Some(("custom"@, custom)),
                (_, Some(JsonView::Text(kind))) => Some(
                    (
                        kind,
                        match json::member(members, "detail"@) {
                            Some(JsonView::Text(detail)) => detail,
                            _ => Seq::empty(),
                        },
                    ),
                ),
                _ => None,
            }
        },
        _ => if recorded.len() > 0 {
            Some((recorded, Seq::empty()))
        } else {
            Some((thread_source, Seq::empty()))
        },
    }
}

/// The name under which the catalog lists a kind of source.
pub open spec fn canonical_kind(kind: Seq<char>) -> Option<Seq<char>> {
    let word = text::lowered(text::trimmed(kind));
    if word == "cli"@ {
        Some("cli"@)
    } else if word == "vscode"@ {
        Some("vscode"@)
    } else if word == "appserver"@ || word == "app_server"@ {
        Some("appServer"@)
    } else if word == "custom"@ {
        Some("custom"@)
    } else if word == "user"@ {
        Some("user"@)
    } else {
        None
    }
}

/// The kind and detail under which the catalog lists a source.
pub open spec fn catalog_source(
    parsed: Option<JsonView>,
    recorded: Seq<char>,
    thread_source: Seq<char>,
) -> Option<(Seq<char>, Seq<char>)> {
    match source_words(parsed, recorded, thread_source) {
        Some((kind, detail)) => match canonical_kind(kind) {
            Some(name) => Some((name, detail)),
            None => None,
        },
        None => None,
    }
}

fn find_canonical_kind(kind: &str) -> (r: Option<String>)
    ensures
        r.deep_view() == canonical_kind(kind@),
{
    let word = to_lower(trim(kind).as_str());
    if same(word.as_str(), "cli") {
        Some("cli".to_owned())
    } else if same(word.as_str(), "vscode") {
        Some("vscode".to_owned())
    } else if same(word.as_str(), "appserver") || same(word.as_str(), "app_server") {
        Some("appServer".to_owned())
    } else if same(word.as_str(), "custom") {
        Some("custom".to_owned())
    } else if same(word.as_str(), "user") {
        Some("user".to_owned())
    } else {
        None
    }
}

fn find_source_words(parsed: &Option<Json>, recorded: &str, thread_source: &str) -> (r: Option<
    (String, String),
>)
    ensures
        r.deep_view() == source_words(parsed.deep_view(), recorded@, thread_source@),
{
    let none = String::new();
    assert(none@ =~= Seq::empty());
    match parsed {
        Some(Json::Text(value)) => {
            return Some((value.copy_of(), none));
        },
        Some(value) => {
            if let Json::Object(_) = value {
                if let Some(Json::Text(custom)) = value.get("custom") {
                    return Some(("custom".to_owned(), custom.copy_of()));
                }
                let kind = match value.get("kind") {
                    Some(kind) => Some(kind),
                    None => value.get("type"),
                };
                return match kind {
                    Some(Json::Text(kind)) => {
                        let detail = match value.get("detail") {
                            Some(Json::Text(detail)) => detail.copy_of(),
                            _ => none,
                        };
                        Some((kind.copy_of(), detail))
                    },
                    _ => None,
                };
            }
        },
        None => {},
    }
    proof {
        reveal_strlit("");
        if recorded@.len() == 0 {
            assert(recorded@ =~= ""@);
        }
    }
    if !same(recorded, "") {
        Some((recorded.to_owned(), none))
    } else {
        Some((thread_source.to_owned(), none))
    }
}

/// The kind and detail under which the catalog lists a source, given what its record says.
pub fn parsed_source_metadata(parsed: &Option<Json>, recorded: &str, thread_source: &str) -> (r:
    Option<(String, String)>)
    ensures
        r.deep_view() == catalog_source(parsed.deep_view(), recorded@, thread_source@),
{
    match find_source_words(parsed, recorded, thread_source) {
        Some((kind, detail)) => match find_canonical_kind(kind.as_str()) {
            Some(name) => Some((name, detail)),
            None => None,
        },
        None => None,
    }
}

/// The kind and detail under which the catalog lists the source of a session.
pub fn source_metadata(thread: &ThreadRow) -> (r: Option<(String, String)>)
    ensures
        r.deep_view() == catalog_source(
            json::json_parse(text::trimmed(thread.source@)),
            text::trimmed(thread.source@),
            thread.thread_source@,
        ),
{
    let raw = trim(thread.source.as_str());
    parsed_source_metadata(
        &parse_json(raw.as_str()),
        raw.as_str(),
        thread.thread_source.as_str(),
    )
}

/// A state row reads as it is stored: a text that is not there as an empty one, a flag as set where
/// it is there and not zero, a time in milliseconds as seconds.
pub proof fn law_state_rows_read_as_stored(cells: ThreadCellsView)
    ensures
        ({
            let row = thread_row(cells);
            &&& row.id == cells.id
            &&& row.provider == cells.provider
            &&& row.agent_role == cells.agent_role
            &&& cells.rollout_path is Some ==> row.rollout_path == cells.rollout_path->0
            &&& cells.rollout_path is None ==> row.rollout_path.len() == 0
            &&& cells.source is Some ==> row.source == cells.source->0
            &&& cells.source is None ==> row.source.len() == 0
            &&& cells.thread_source is Some ==> row.thread_source == cells.thread_source->0
            &&& cells.thread_source is None ==> row.thread_source.len() == 0
            &&& cells.title is Some ==> row.title == cells.title->0
            &&& cells.title is None ==> row.title.len() == 0
            &&& cells.cwd is Some ==> row.cwd == cells.cwd->0
            &&& cells.cwd is None ==> row.cwd.len() == 0
            &&& cells.first_user_message is Some ==> row.first_user_message
                == cells.first_user_message->0
            &&& cells.first_user_message is None ==> row.first_user_message.len() == 0
            &&& row.archived <==> cells.archived is Some && cells.archived->0 != 0
            &&& row.has_user_event <==> cells.has_user_event is Some && cells.has_user_event->0 != 0
            &&& cells.updated_at is None ==> row.updated_at == 0
            &&& cells.updated_at is Some && -10_000_000_000 <= cells.updated_at->0
                <= 10_000_000_000 ==> row.updated_at == cells.updated_at->0
            &&& cells.updated_at is Some && cells.updated_at->0 > 10_000_000_000 ==> 1000
                * row.updated_at - 500 <= cells.updated_at->0 < 1000 * row.updated_at + 500
        }),
{
}

/// A catalog row reads as it is stored, in the same way.
pub proof fn law_catalog_rows_read_as_stored(cells: CatalogCellsView)
    ensures
        ({
            let row = catalog_row(cells);
            &&& row.host_id == cells.host_id
            &&& row.thread_id == cells.thread_id
            &&& row.provider == cells.provider
            &&& row.missing_candidate <==> cells.missing_candidate is Some
                && cells.missing_candidate->0 != 0
            &&& cells.source_kind is Some ==> row.source_kind == cells.source_kind->0
            &&& cells.source_kind is None ==> row.source_kind.len() == 0
            &&& cells.source_detail is Some ==> row.source_detail == cells.source_detail->0
            &&& cells.source_detail is None ==> row.source_detail.len() == 0
            &&& cells.cwd is Some ==> row.cwd == cells.cwd->0
            &&& cells.cwd is None ==> row.cwd.len() == 0
        }),
{
}

/// A source that could be read gives every row, in its order, and says so; one that could not gives
/// none, and says so.
pub proof fn law_sources_give_every_row(
    path: Seq<char>,
    threads: Result<Seq<ThreadCellsView>, SourceFaultView>,
    catalog: Result<Seq<CatalogCellsView>, SourceFaultView>,
    lines: Result<Seq<Seq<char>>, SourceFaultView>,
    at: int,
)
    ensures
        ({
            let read = threads_read(path, threads);
            &&& read.1.readable <==> threads is Ok
            &&& read.1.path == path
            &&& threads is Err ==> read.0.len() == 0 && read.1.records == 0
            &&& threads is Ok ==> read.0.len() == threads->Ok_0.len()
            &&& threads is Ok && 0 <= at < threads->Ok_0.len() ==> read.0[at].id
                == threads->Ok_0[at].id && read.0[at].provider == threads->Ok_0[at].provider
            &&& threads is Ok && threads->Ok_0.len() <= usize::MAX ==> read.1.records
                == threads->Ok_0.len()
        }),
        ({
            let read = catalogs_read(path, catalog);
            &&& read.1.readable <==> catalog is Ok
            &&& read.1.path == path
            &&& catalog is Err ==> read.0.len() == 0 && read.1.records == 0
            &&& catalog is Ok ==> read.0.len() == catalog->Ok_0.len()
            &&& catalog is Ok && 0 <= at < catalog->Ok_0.len() ==> read.0[at].thread_id
                == catalog->Ok_0[at].thread_id && read.0[at].provider
                == catalog->Ok_0[at].provider
            &&& catalog is Ok && catalog->Ok_0.len() <= usize::MAX ==> read.1.records
                == catalog->Ok_0.len()
        }),
        ({
            let read = index_read(path, lines);
            &&& read.1.readable <==> lines is Ok
            &&& read.1.path == path
            &&& lines is Err ==> read.0 == Set::<Seq<char>>::empty()
        }),
{
}

/// The state rows can be asked for exactly where the table has ids and providers, the catalog rows
/// where it has hosts, threads and providers.
pub proof fn law_rows_can_be_asked_for(columns: Option<Set<Seq<char>>>)
    ensures
        threads_query(columns) is Ok <==> columns is Some && columns->0.contains("id"@)
            && columns->0.contains("model_provider"@),
        catalogs_query(columns) is Ok <==> columns is Some && columns->0.contains("host_id"@)
            && columns->0.contains("thread_id"@) && columns->0.contains("model_provider"@),
        threads_query(columns) is Ok ==> ({
            let c = columns->0;
            threads_query(columns)->Ok_0 == "SELECT id, model_provider, "@
                + schema::column_expression(c, "rollout_path"@, "''"@) + ", "@
                + schema::column_expression(c, "archived"@, "0"@) + ", "@
                + schema::column_expression(c, "source"@, "''"@) + ", "@
                + schema::column_expression(c, "thread_source"@, "''"@) + ", "@
                + schema::column_expression(c, "agent_role"@, "NULL"@) + ", "@
                + schema::column_expression(c, "title"@, "''"@) + ", "@
                + schema::column_expression(c, "cwd"@, "''"@) + ", "@ + schema::time_expression(
                c,
                "created_at_ms"@,
                "created_at"@,
            ) + ", "@ + schema::time_expression(c, "updated_at_ms"@, "updated_at"@) + ", "@
                + schema::column_expression(c, "first_user_message"@, "''"@) + ", "@
                + schema::column_expression(c, "has_user_event"@, "0"@) + " FROM threads"@
        }),
        catalogs_query(columns) is Ok ==> ({
            let c = columns->0;
            catalogs_query(columns)->Ok_0 == "SELECT host_id, thread_id, model_provider, "@
                + schema::column_expression(c, "missing_candidate"@, "0"@) + ", "@
                + schema::column_expression(c, "source_kind"@, "''"@) + ", "@
                + schema::column_expression(c, "source_detail"@, "''"@) + ", "@
                + schema::column_expression(c, "cwd"@, "''"@) + " FROM local_thread_catalog"@
        }),
{
}

/// The index names a session exactly where one of its lines that are not blank is an object with that
/// id.
pub proof fn law_index_names_sessions(lines: Seq<Seq<char>>, id: Seq<char>)
    ensures
        index_ids(lines).contains(id) <==> exists|i: int|
            0 <= i < lines.len() && text::trimmed(#[trigger] lines[i]).len() > 0 && line_id(
                lines[i],
            ) == Some(id),
        forall|line: Seq<char>, value: JsonView|
            #![trigger json::json_parse(without_marks(line)), json::field(value, "id"@)]
            json::json_parse(without_marks(line)) == Some(value) && json::field(value, "id"@) == Some(
                JsonView::Text(id),
            ) ==> line_id(line) == Some(id),
    decreases lines.len(),
{
    if lines.len() > 0 {
        let front = lines.drop_last();
        law_index_names_sessions(front, id);
        if exists|i: int|
            0 <= i < lines.len() && text::trimmed(#[trigger] lines[i]).len() > 0 && line_id(lines[i])
                == Some(id) {
            let i = choose|i: int|
                0 <= i < lines.len() && text::trimmed(#[trigger] lines[i]).len() > 0 && line_id(
                    lines[i],
                ) == Some(id);
            if i < front.len() {
                assert(front[i] == lines[i]);
            }
        }
        if index_ids(front).contains(id) {
            let i = choose|i: int|
                0 <= i < front.len() && text::trimmed(#[trigger] front[i]).len() > 0 && line_id(
                    front[i],
                ) == Some(id);
            assert(lines[i] == front[i]);
        }
        assert(lines[lines.len() - 1] == lines.last());
    }
}

/// A rollout is looked up as it was read: by its id it gives its path, its place and what it records,
/// a provider only where that has a safe name, and it is filed as archived where it is.
pub proof fn law_rollouts_are_looked_up_as_read(inventory: RolloutInventoryView, id: Seq<char>)
    ensures
        ({
            let read = rollouts_read(inventory);
            let there = inventory.rollouts.dom().contains(id);
            let primary = inventory.rollouts[id];
            let named = there && primary.model_provider is Some && providers::safe_id(
                primary.model_provider->0,
            );
            &&& read.ids.contains(id) <==> there
            &&& read.primary_rollouts == inventory.rollouts
            &&& read.file_count == inventory.file_count
            &&& read.valid_archived_ids.contains(id) <==> there && primary.archived
            &&& read.valid_active_ids.contains(id) <==> there && !primary.archived
            &&& read.provider_values.dom().contains(id) <==> named
            &&& named ==> read.provider_values[id] == primary.model_provider->0
            &&& read.providers.dom().contains(id) <==> named
            &&& named ==> forall|provider: Seq<char>| #[trigger]
                read.providers[id].contains(provider) <==> provider == primary.model_provider->0
            &&& read.sources.dom().contains(id) <==> there && primary.source is Some
            &&& there && primary.source is Some ==> read.sources[id] == primary.source->0
            &&& read.thread_sources.dom().contains(id) <==> there && primary.thread_source is Some
            &&& there && primary.thread_source is Some ==> read.thread_sources[id]
                == primary.thread_source->0
            &&& read.cwds.dom().contains(id) <==> there && primary.cwd is Some
            &&& there && primary.cwd is Some ==> read.cwds[id] == primary.cwd->0
            &&& read.paths.dom().contains(id) <==> there
            &&& there ==> read.paths[id] == primary.path
            &&& read.locality.dom().contains(id) <==> there
            &&& there ==> read.locality[id] == primary.locality
        }),
{
}

/// A home at one moment is what its sources gave: its rows, its rollouts, its index and its global
/// state, and which of the databases could be read.
pub proof fn law_home_is_what_its_sources_gave(
    threads: (Seq<ThreadRowView>, SourceSummaryView),
    catalog: (Seq<CatalogRowView>, SourceSummaryView),
    read: RolloutReadView,
    index: (Set<Seq<char>>, SourceSummaryView),
    global_state: GlobalStateSnapshotView,
    sessions_path: Seq<char>,
    has_directory: bool,
)
    ensures
        ({
            let home = assembled(
                threads,
                catalog,
                read,
                index,
                global_state,
                sessions_path,
                has_directory,
            );
            &&& home.threads == threads.0
            &&& home.catalog == catalog.0
            &&& home.session_index == index.0
            &&& home.global_state == global_state
            &&& home.rollouts == read.ids
            &&& home.valid_active_rollouts == read.valid_active_ids
            &&& home.valid_archived_rollouts == read.valid_archived_ids
            &&& home.rollout_providers == read.providers
            &&& home.rollout_provider_values == read.provider_values
            &&& home.rollout_sources == read.sources
            &&& home.rollout_thread_sources == read.thread_sources
            &&& home.rollout_cwds == read.cwds
            &&& home.rollout_locality == read.locality
            &&& home.rollout_paths == read.paths
            &&& home.primary_rollouts == read.primary_rollouts
            &&& home.jsonl_files == read.files
            &&& home.threads_readable == threads.1.readable
            &&& home.catalog_readable == catalog.1.readable
            &&& home.sqlite_readable == 2 <==> threads.1.readable && catalog.1.readable
            &&& home.sqlite_readable == 0 <==> !threads.1.readable && !catalog.1.readable
            &&& home.sqlite_readable <= 2
            &&& home.sources.len() == 4
            &&& home.sources[0] == threads.1
            &&& home.sources[1] == catalog.1
            &&& home.sources[3] == index.1
            &&& home.sources[2].path == sessions_path
            &&& !has_directory ==> !home.sources[2].readable
            &&& has_directory && !read.issues.dom().contains("walk_error"@)
                ==> home.sources[2].readable
            &&& read.issues.dom().contains("walk_error"@) && read.issues["walk_error"@] > 0
                ==> !home.sources[2].readable
        }),
{
}

proof fn lemma_by_key(members: Seq<(Seq<char>, JsonView)>, at: int)
    requires
        0 <= at < members.len(),
        forall|j: int| at < j < members.len() ==> (#[trigger] members[j]).0 != members[at].0,
    ensures
        by_key(members).dom().contains(members[at].0),
        by_key(members)[members[at].0] == members[at].1,
    decreases members.len(),
{
    if at < members.len() - 1 {
        let front = members.drop_last();
        assert forall|j: int| at < j < front.len() implies (#[trigger] front[j]).0 != front[at].0 by {
            assert(members[j] == front[j]);
        }
        lemma_by_key(front, at);
        assert(members[members.len() - 1] == members.last());
    }
}

/// The global state tells something exactly where it is an object: with the digest of its file, the
/// texts among the saved workspace roots and the hint of each thread, the last where there are
/// several.
pub proof fn law_global_state_tells_what_it_holds(
    parsed: Option<JsonView>,
    sha256: Seq<char>,
    roots: Seq<JsonView>,
    hints: Seq<(Seq<char>, JsonView)>,
    at: int,
)
    ensures
        ({
            let told = global_state_of(parsed, sha256);
            let object = parsed is Some && parsed->0 is Object;
            &&& told.readable <==> object
            &&& object ==> told.sha256 == Some(sha256)
            &&& !object ==> told.sha256 is None && told.saved_workspace_roots.len() == 0
                && told.thread_workspace_root_hints == Map::<Seq<char>, JsonView>::empty()
            &&& object && json::member(parsed->0->Object_0, "electron-saved-workspace-roots"@)
                == Some(JsonView::Array(roots)) && 0 <= at < roots.len() && roots[at] is Text
                ==> told.saved_workspace_roots.contains(roots[at]->Text_0)
            &&& object && json::member(parsed->0->Object_0, "thread-workspace-root-hints"@) == Some(
                JsonView::Object(hints),
            ) && 0 <= at < hints.len() && (forall|j: int|
                at < j < hints.len() ==> (#[trigger] hints[j]).0 != hints[at].0)
                ==> told.thread_workspace_root_hints.dom().contains(hints[at].0)
                && told.thread_workspace_root_hints[hints[at].0] == hints[at].1
        }),
{
    lemma_texts(roots);
    if 0 <= at < hints.len() && (forall|j: int|
        at < j < hints.len() ==> (#[trigger] hints[j]).0 != hints[at].0) {
        lemma_by_key(hints, at);
    }
}

proof fn lemma_texts(items: Seq<JsonView>)
    ensures
        forall|i: int|
            0 <= i < items.len() && (#[trigger] items[i]) is Text ==> texts_of(items).contains(
                items[i]->Text_0,
            ),
    decreases items.len(),
{
    broadcast use vstd::seq_lib::group_seq_properties;

    if items.len() > 0 {
        let front = items.drop_last();
        lemma_texts(front);
        let all = texts_of(items);
        assert forall|i: int| 0 <= i < items.len() && (#[trigger] items[i]) is Text implies all.contains(
            items[i]->Text_0,
        ) by {
            if i < front.len() {
                assert(front[i] == items[i]);
                assert(texts_of(front).contains(items[i]->Text_0));
            } else {
                assert(all[all.len() - 1] == items[i]->Text_0);
            }
        }
    }
}

} // verus!

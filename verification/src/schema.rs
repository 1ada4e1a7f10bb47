//! The tables that are known, and how the databases are opened and read.

use crate::backups::push_text;
use crate::model::Model;
use crate::ordered::OrderedSet;
use crate::providers;
use crate::text;
use crate::text::{join2, join3, join4, join5, replace_char, same, starts_with};
use vstd::prelude::*;

verus! {

/// A column of a table.
#[derive(Clone, Debug, PartialEq, Eq)]
pub struct TableColumnInfo {
    pub name: String,
    pub not_null: bool,
    pub default_value: Option<String>,
}

/// What a `TableColumnInfo` stands for.
#[verifier::ext_equal]
pub struct TableColumnInfoView {
    pub name: Seq<char>,
    pub not_null: bool,
    pub default_value: Option<Seq<char>>,
}

impl DeepView for TableColumnInfo {
    type V = TableColumnInfoView;

    open spec fn deep_view(&self) -> TableColumnInfoView {
        TableColumnInfoView {
            name: self.name.deep_view(),
            not_null: self.not_null.deep_view(),
            default_value: self.default_value.deep_view(),
        }
    }
}

impl Model for TableColumnInfo {
    fn copy_of(&self) -> (r: Self) {
        TableColumnInfo {
            name: self.name.copy_of(),
            not_null: self.not_null.copy_of(),
            default_value: self.default_value.copy_of(),
        }
    }

    fn same_as(&self, other: &Self) -> (r: bool) {
        self.name.same_as(&other.name)
            && self.not_null.same_as(&other.not_null)
            && self.default_value.same_as(&other.default_value)
    }
}

/// What stands where a database should be.
#[derive(Clone, Debug, PartialEq, Eq)]
pub enum DatabaseFound {
    /// It cannot be told: why.
    Unavailable(String),
    Symlink,
    NotRegular,
    Regular,
}

/// What a `DatabaseFound` stands for.
#[verifier::ext_equal]
pub enum DatabaseFoundView {
    Unavailable(Seq<char>),
    Symlink,
    NotRegular,
    Regular,
}

impl DeepView for DatabaseFound {
    type V = DatabaseFoundView;

    open spec fn deep_view(&self) -> DatabaseFoundView {
        match self {
            DatabaseFound::Unavailable(value) => DatabaseFoundView::Unavailable(value.deep_view()),
            DatabaseFound::Symlink => DatabaseFoundView::Symlink,
            DatabaseFound::NotRegular => DatabaseFoundView::NotRegular,
            DatabaseFound::Regular => DatabaseFoundView::Regular,
        }
    }
}

impl Model for DatabaseFound {
    fn copy_of(&self) -> (r: Self) {
        match self {
            DatabaseFound::Unavailable(value) => DatabaseFound::Unavailable(value.copy_of()),
            DatabaseFound::Symlink => DatabaseFound::Symlink,
            DatabaseFound::NotRegular => DatabaseFound::NotRegular,
            DatabaseFound::Regular => DatabaseFound::Regular,
        }
    }

    fn same_as(&self, other: &Self) -> (r: bool) {
        match (self, other) {
            (DatabaseFound::Unavailable(value_l), DatabaseFound::Unavailable(value_r)) => value_l.same_as(value_r),
            (DatabaseFound::Symlink, DatabaseFound::Symlink) => true,
            (DatabaseFound::NotRegular, DatabaseFound::NotRegular) => true,
            (DatabaseFound::Regular, DatabaseFound::Regular) => true,
            _ => false,
        }
    }
}

/// The first of the names that is missing.
pub open spec fn first_missing(names: Seq<Seq<char>>, columns: Set<Seq<char>>) -> Option<Seq<char>>
    decreases names.len(),
{
    if names.len() == 0 {
        None
    } else if !columns.contains(names[0]) {
        Some(names[0])
    } else {
        first_missing(names.drop_first(), columns)
    }
}

fn find_first_missing(names: &Vec<String>, columns: &OrderedSet<String>) -> (r: Option<String>)
    ensures
        r.deep_view() == first_missing(names.deep_view(), columns.deep_view()),
{
    let ghost view = names.deep_view();
    let mut i: usize = 0;
    assert(view.skip(0) =~= view);
    while i < names.len()
        invariant
            i <= names@.len(),
            view == names.deep_view(),
            first_missing(view.skip(i as int), columns.deep_view()) == first_missing(
                view,
                columns.deep_view(),
            ),
        decreases names@.len() - i,
    {
        assert(view.skip(i as int)[0] == view[i as int]);
        assert(view[i as int] == names@[i as int]@);
        assert(view.skip(i as int).drop_first() =~= view.skip(i + 1));
        if !columns.contains(&names[i]) {
            return Some(names[i].copy_of());
        }
        i += 1;
    }
    None
}

/// The columns of sessions that a repair reads or writes.
pub open spec fn state_columns() -> Seq<Seq<char>> {
    seq![
        "id"@,
        "rollout_path"@,
        "model_provider"@,
        "archived"@,
        "source"@,
        "thread_source"@,
        "has_user_event"@,
    ]
}

fn list_state_columns() -> (r: Vec<String>)
    ensures
        r.deep_view() == state_columns(),
{
    let mut out: Vec<String> = Vec::new();
    push_text(&mut out, "id".to_owned());
    push_text(&mut out, "rollout_path".to_owned());
    push_text(&mut out, "model_provider".to_owned());
    push_text(&mut out, "archived".to_owned());
    push_text(&mut out, "source".to_owned());
    push_text(&mut out, "thread_source".to_owned());
    push_text(&mut out, "has_user_event".to_owned());
    assert(out.deep_view() =~= state_columns());
    out
}

/// The columns that a new session cannot do without.
pub open spec fn insert_columns() -> Seq<Seq<char>> {
    seq![
        "id"@,
        "rollout_path"@,
        "source"@,
        "model_provider"@,
        "cwd"@,
        "title"@,
        "archived"@,
    ]
}

fn list_insert_columns() -> (r: Vec<String>)
    ensures
        r.deep_view() == insert_columns(),
{
    let mut out: Vec<String> = Vec::new();
    push_text(&mut out, "id".to_owned());
    push_text(&mut out, "rollout_path".to_owned());
    push_text(&mut out, "source".to_owned());
    push_text(&mut out, "model_provider".to_owned());
    push_text(&mut out, "cwd".to_owned());
    push_text(&mut out, "title".to_owned());
    push_text(&mut out, "archived".to_owned());
    assert(out.deep_view() =~= insert_columns());
    out
}

/// The columns of the catalog that are known.
pub open spec fn catalog_columns() -> Seq<Seq<char>> {
    seq![
        "host_id"@,
        "thread_id"@,
        "display_title"@,
        "source_created_at"@,
        "source_updated_at"@,
        "cwd"@,
        "source_kind"@,
        "source_detail"@,
        "model_provider"@,
        "git_branch"@,
        "observation_sequence"@,
        "missing_candidate"@,
    ]
}

fn list_catalog_columns() -> (r: Vec<String>)
    ensures
        r.deep_view() == catalog_columns(),
{
    let mut out: Vec<String> = Vec::new();
    push_text(&mut out, "host_id".to_owned());
    push_text(&mut out, "thread_id".to_owned());
    push_text(&mut out, "display_title".to_owned());
    push_text(&mut out, "source_created_at".to_owned());
    push_text(&mut out, "source_updated_at".to_owned());
    push_text(&mut out, "cwd".to_owned());
    push_text(&mut out, "source_kind".to_owned());
    push_text(&mut out, "source_detail".to_owned());
    push_text(&mut out, "model_provider".to_owned());
    push_text(&mut out, "git_branch".to_owned());
    push_text(&mut out, "observation_sequence".to_owned());
    push_text(&mut out, "missing_candidate".to_owned());
    assert(out.deep_view() =~= catalog_columns());
    out
}

/// A column that a new session can fill.
pub open spec fn fillable(name: Seq<char>) -> bool {
    ||| name == "id"@
    ||| name == "rollout_path"@
    ||| name == "created_at"@
    ||| name == "created_at_ms"@
    ||| name == "updated_at"@
    ||| name == "updated_at_ms"@
    ||| name == "recency_at"@
    ||| name == "recency_at_ms"@
    ||| name == "source"@
    ||| name == "thread_source"@
    ||| name == "model_provider"@
    ||| name == "cwd"@
    ||| name == "title"@
    ||| name == "preview"@
    ||| name == "sandbox_policy"@
    ||| name == "approval_mode"@
    ||| name == "tokens_used"@
    ||| name == "has_user_event"@
    ||| name == "archived"@
    ||| name == "git_sha"@
    ||| name == "git_branch"@
    ||| name == "git_origin_url"@
    ||| name == "cli_version"@
    ||| name == "first_user_message"@
    ||| name == "agent_nickname"@
    ||| name == "agent_role"@
    ||| name == "memory_mode"@
}

/// Whether a new session can fill a column.
pub fn state_insert_supports_column(name: &str) -> (r: bool)
    ensures
        r == fillable(name@),
{
    same(name, "id") || same(name, "rollout_path") || same(name, "created_at") || same(
        name,
        "created_at_ms",
    ) || same(name, "updated_at") || same(name, "updated_at_ms") || same(name, "recency_at")
        || same(name, "recency_at_ms") || same(name, "source") || same(name, "thread_source")
        || same(name, "model_provider") || same(name, "cwd") || same(name, "title") || same(
        name,
        "preview",
    ) || same(name, "sandbox_policy") || same(name, "approval_mode") || same(name, "tokens_used")
        || same(name, "has_user_event") || same(name, "archived") || same(name, "git_sha") || same(
        name,
        "git_branch",
    ) || same(name, "git_origin_url") || same(name, "cli_version") || same(
        name,
        "first_user_message",
    ) || same(name, "agent_nickname") || same(name, "agent_role") || same(name, "memory_mode")
}

/// The outcome of a database's own check.
pub open spec fn check_fault(result: Seq<char>) -> Option<Seq<char>> {
    if result == "ok"@ {
        None
    } else {
        Some("SQLite quick_check failed: "@ + result)
    }
}

/// What is wrong, if anything, from the result of a database's own check.
pub fn sqlite_quick_check(result: &str) -> (r: Option<String>)
    ensures
        r.deep_view() == check_fault(result@),
{
    if same(result, "ok") {
        None
    } else {
        Some(join2("SQLite quick_check failed: ", result))
    }
}

/// What is wrong with the columns of the table of sessions.
pub open spec fn state_columns_fault(columns: Set<Seq<char>>) -> Option<Seq<char>> {
    match first_missing(state_columns(), columns) {
        Some(name) => Some("unsupported threads schema: missing "@ + name),
        None => None,
    }
}

/// What is wrong with the columns of the table of sessions, if anything.
pub fn validate_state_columns(columns: &OrderedSet<String>) -> (r: Option<String>)
    ensures
        r.deep_view() == state_columns_fault(columns.deep_view()),
{
    let names = list_state_columns();
    match find_first_missing(&names, columns) {
        Some(name) => Some(join2("unsupported threads schema: missing ", name.as_str())),
        None => None,
    }
}

/// What is wrong with the session database.
pub open spec fn state_schema_fault(check: Seq<char>, columns: Set<Seq<char>>) -> Option<
    Seq<char>,
> {
    match check_fault(check) {
        Some(fault) => Some(fault),
        None => state_columns_fault(columns),
    }
}

/// What is wrong with the session database, if anything, from the result of its own check and the
/// columns of its table of sessions.
pub fn validate_state_repair_schema(check: &str, columns: &OrderedSet<String>) -> (r: Option<
    String,
>)
    ensures
        r.deep_view() == state_schema_fault(check@, columns.deep_view()),
{
    let fault = sqlite_quick_check(check);
    if fault.is_some() {
        return fault;
    }
    validate_state_columns(columns)
}

/// What is wrong with the two columns of a table of counters.
pub open spec fn counter_fault(
    table: Seq<char>,
    first: Seq<char>,
    second: Seq<char>,
    columns: Set<Seq<char>>,
) -> Option<Seq<char>> {
    match first_missing(seq![first, second], columns) {
        Some(name) => Some(
            "unsupported catalog schema: "@ + table + "."@ + name + " missing"@,
        ),
        None => None,
    }
}

fn find_counter_fault(table: &str, first: &str, second: &str, columns: &OrderedSet<String>) -> (r:
    Option<String>)
    ensures
        r.deep_view() == counter_fault(table@, first@, second@, columns.deep_view()),
{
    let mut names: Vec<String> = Vec::new();
    push_text(&mut names, first.to_owned());
    push_text(&mut names, second.to_owned());
    assert(names.deep_view() =~= seq![first@, second@]);
    match find_first_missing(&names, columns) {
        Some(name) => Some(
            join5("unsupported catalog schema: ", table, ".", name.as_str(), " missing"),
        ),
        None => None,
    }
}

/// What is wrong with the columns of the tables of the catalog.
pub open spec fn catalog_columns_fault(
    catalog: Set<Seq<char>>,
    sync: Set<Seq<char>>,
    metadata: Set<Seq<char>>,
) -> Option<Seq<char>> {
    if first_missing(catalog_columns(), catalog) is Some {
        Some(
            "unsupported local_thread_catalog schema: missing "@ + first_missing(
                catalog_columns(),
                catalog,
            )->0,
        )
    } else if counter_fault(
        "local_thread_catalog_sync_state"@,
        "host_id"@,
        "observation_sequence"@,
        sync,
    ) is Some {
        counter_fault(
            "local_thread_catalog_sync_state"@,
            "host_id"@,
            "observation_sequence"@,
            sync,
        )
    } else {
        counter_fault("local_thread_catalog_metadata"@, "id"@, "catalog_revision"@, metadata)
    }
}

/// What is wrong with the columns of the tables of the catalog, if anything.
pub fn validate_catalog_columns(
    catalog: &OrderedSet<String>,
    sync: &OrderedSet<String>,
    metadata: &OrderedSet<String>,
) -> (r: Option<String>)
    ensures
        r.deep_view() == catalog_columns_fault(
            catalog.deep_view(),
            sync.deep_view(),
            metadata.deep_view(),
        ),
{
    let names = list_catalog_columns();
    match find_first_missing(&names, catalog) {
        Some(name) => {
            return Some(
                join2("unsupported local_thread_catalog schema: missing ", name.as_str()),
            );
        },
        None => {},
    }
    let fault = find_counter_fault(
        "local_thread_catalog_sync_state",
        "host_id",
        "observation_sequence",
        sync,
    );
    if fault.is_some() {
        return fault;
    }
    find_counter_fault("local_thread_catalog_metadata", "id", "catalog_revision", metadata)
}

/// What is wrong with the two databases.
pub open spec fn schema_fault(
    state_check: Seq<char>,
    state: Set<Seq<char>>,
    catalog_check: Seq<char>,
    catalog: Set<Seq<char>>,
    sync: Set<Seq<char>>,
    metadata: Set<Seq<char>>,
) -> Option<Seq<char>> {
    if state_schema_fault(state_check, state) is Some {
        state_schema_fault(state_check, state)
    } else if check_fault(catalog_check) is Some {
        check_fault(catalog_check)
    } else {
        catalog_columns_fault(catalog, sync, metadata)
    }
}

/// What is wrong with the two databases, if anything, from the results of their own checks and the
/// columns of their tables.
pub fn validate_repair_schema_connections(
    state_check: &str,
    state: &OrderedSet<String>,
    catalog_check: &str,
    catalog: &OrderedSet<String>,
    sync: &OrderedSet<String>,
    metadata: &OrderedSet<String>,
) -> (r: Option<String>)
    ensures
        r.deep_view() == schema_fault(
            state_check@,
            state.deep_view(),
            catalog_check@,
            catalog.deep_view(),
            sync.deep_view(),
            metadata.deep_view(),
        ),
{
    let fault = validate_state_repair_schema(state_check, state);
    if fault.is_some() {
        return fault;
    }
    let fault = sqlite_quick_check(catalog_check);
    if fault.is_some() {
        return fault;
    }
    validate_catalog_columns(catalog, sync, metadata)
}

/// The names of columns.
pub open spec fn column_names(columns: Seq<TableColumnInfoView>) -> Set<Seq<char>> {
    Set::new(
        |name: Seq<char>|
            exists|i: int| 0 <= i < columns.len() && (#[trigger] columns[i]).name == name,
    )
}

/// A column must be given a value, and a new session has none for it.
pub open spec fn unfillable(column: TableColumnInfoView) -> bool {
    column.not_null && column.default_value is None && !fillable(column.name)
}

/// The first column from position `i` on that a new session cannot fill but must.
pub open spec fn first_unfillable(columns: Seq<TableColumnInfoView>, i: nat) -> Option<Seq<char>>
    decreases columns.len() - i,
{
    if i >= columns.len() {
        None
    } else if unfillable(columns[i as int]) {
        Some(columns[i as int].name)
    } else {
        first_unfillable(columns, i + 1)
    }
}

/// Why no session can be added.
pub open spec fn insert_schema_fault(columns: Seq<TableColumnInfoView>) -> Option<Seq<char>> {
    match first_missing(insert_columns(), column_names(columns)) {
        Some(name) => Some("unsupported threads insert schema: missing "@ + name),
        None => match first_unfillable(columns, 0) {
            Some(name) => Some(
                "unsupported threads insert schema: required column "@ + name
                    + " has no safe value"@,
            ),
            None => None,
        },
    }
}

fn collect_names(columns: &Vec<TableColumnInfo>) -> (r: OrderedSet<String>)
    ensures
        r.deep_view() == column_names(columns.deep_view()),
{
    let ghost view = columns.deep_view();
    let mut out: OrderedSet<String> = OrderedSet::new();
    let mut i: usize = 0;
    assert(out.deep_view() =~= column_names(view.take(0)));
    while i < columns.len()
        invariant
            i <= columns@.len(),
            view == columns.deep_view(),
            out.deep_view() == column_names(view.take(i as int)),
        decreases columns@.len() - i,
    {
        let ghost before = out.deep_view();
        let ghost longer = view.take(i + 1);
        assert(view[i as int] == columns@[i as int].deep_view());
        out.insert(columns[i].name.copy_of());
        assert forall|name: Seq<char>| out.deep_view().contains(name) == column_names(
            longer,
        ).contains(name) by {
            if before.contains(name) {
                let j = choose|j: int|
                    0 <= j < view.take(i as int).len() && (#[trigger] view.take(i as int)[j]).name
                        == name;
                assert(longer[j].name == name);
            }
            if name == view[i as int].name {
                assert(longer[i as int].name == name);
            }
            if column_names(longer).contains(name) {
                let j = choose|j: int| 0 <= j < longer.len() && (#[trigger] longer[j]).name == name;
                if j < i {
                    assert(view.take(i as int)[j].name == name);
                }
            }
        }
        assert(out.deep_view() =~= column_names(longer));
        i += 1;
    }
    assert(view.take(i as int) =~= view);
    out
}

/// Why no session can be added, if none can: a column that it needs is missing, or one that must
/// be filled is unknown.
pub fn validate_state_insert_schema(columns: &Vec<TableColumnInfo>) -> (r: Option<String>)
    ensures
        r.deep_view() == insert_schema_fault(columns.deep_view()),
{
    let ghost view = columns.deep_view();
    let found = collect_names(columns);
    let names = list_insert_columns();
    match find_first_missing(&names, &found) {
        Some(name) => {
            return Some(join2("unsupported threads insert schema: missing ", name.as_str()));
        },
        None => {},
    }
    let mut i: usize = 0;
    while i < columns.len()
        invariant
            i <= columns@.len(),
            view == columns.deep_view(),
            first_missing(insert_columns(), column_names(view)) is None,
            first_unfillable(view, i as nat) == first_unfillable(view, 0),
        decreases columns@.len() - i,
    {
        let column = &columns[i];
        assert(view[i as int] == column.deep_view());
        if column.not_null && column.default_value.is_none() && !state_insert_supports_column(
            column.name.as_str(),
        ) {
            return Some(
                join3(
                    "unsupported threads insert schema: required column ",
                    column.name.as_str(),
                    " has no safe value",
                ),
            );
        }
        i += 1;
    }
    None
}

/// Why a database of the home cannot be used.
pub open spec fn home_database_fault(
    shown: Seq<char>,
    found: DatabaseFoundView,
    inside: bool,
) -> Option<Seq<char>> {
    match found {
        DatabaseFoundView::Unavailable(error) => Some(
            "required SQLite is unavailable ("@ + shown + "): "@ + error,
        ),
        DatabaseFoundView::Symlink => Some("SQLite path is a symlink: "@ + shown),
        DatabaseFoundView::NotRegular => Some("SQLite path is not a regular file: "@ + shown),
        DatabaseFoundView::Regular => if inside {
            None
        } else {
            Some("SQLite path escapes CODEX_HOME: "@ + shown)
        },
    }
}

/// Why a database of the home cannot be used, if it cannot: it is a regular file, and lies inside.
pub fn ensure_home_sqlite_path(shown: &str, found: &DatabaseFound, inside: bool) -> (r: Option<
    String,
>)
    ensures
        r.deep_view() == home_database_fault(shown@, found.deep_view(), inside),
{
    match found {
        DatabaseFound::Unavailable(error) => Some(
            join4("required SQLite is unavailable (", shown, "): ", error.as_str()),
        ),
        DatabaseFound::Symlink => Some(join2("SQLite path is a symlink: ", shown)),
        DatabaseFound::NotRegular => Some(join2("SQLite path is not a regular file: ", shown)),
        DatabaseFound::Regular => {
            if inside {
                None
            } else {
                Some(join2("SQLite path escapes CODEX_HOME: ", shown))
            }
        },
    }
}

/// Why the session database cannot be repaired.
pub open spec fn state_database_fault(shown: Seq<char>, found: DatabaseFoundView) -> Option<
    Seq<char>,
> {
    match found {
        DatabaseFoundView::Unavailable(error) => Some(
            "required SQLite is unavailable ("@ + shown + "): "@ + error,
        ),
        DatabaseFoundView::Regular => None,
        _ => Some("unsafe state SQLite path: "@ + shown),
    }
}

/// Why the session database cannot be repaired, if it cannot: it must be a regular file.
pub fn validate_repair_schema(shown: &str, found: &DatabaseFound) -> (r: Option<String>)
    ensures
        r.deep_view() == state_database_fault(shown@, found.deep_view()),
{
    match found {
        DatabaseFound::Unavailable(error) => Some(
            join4("required SQLite is unavailable (", shown, "): ", error.as_str()),
        ),
        DatabaseFound::Regular => None,
        _ => Some(join2("unsafe state SQLite path: ", shown)),
    }
}

/// The expression that reads a column, or what is read where there is no such column.
pub open spec fn column_expression(
    columns: Set<Seq<char>>,
    name: Seq<char>,
    fallback: Seq<char>,
) -> Seq<char> {
    if columns.contains(name) {
        "\""@ + name + "\""@
    } else {
        fallback
    }
}

/// The expression that reads a column, or what is read where there is no such column.
pub fn select_expr(columns: &OrderedSet<String>, name: &str, fallback: &str) -> (r: String)
    ensures
        r@ == column_expression(columns.deep_view(), name@, fallback@),
{
    if columns.contains(&name.to_owned()) {
        join3("\"", name, "\"")
    } else {
        fallback.to_owned()
    }
}

/// The expression that reads a time: the finer column first.
pub open spec fn time_expression(
    columns: Set<Seq<char>>,
    millis: Seq<char>,
    seconds: Seq<char>,
) -> Seq<char> {
    match (columns.contains(millis), columns.contains(seconds)) {
        (true, true) => "COALESCE(\""@ + millis + "\", \""@ + seconds + "\", 0)"@,
        (true, false) => "COALESCE(\""@ + millis + "\", 0)"@,
        (false, true) => "COALESCE(\""@ + seconds + "\", 0)"@,
        (false, false) => "0"@,
    }
}

/// The expression that reads a time: the finer column first.
pub fn select_time_expr(columns: &OrderedSet<String>, millis: &str, seconds: &str) -> (r: String)
    ensures
        r@ == time_expression(columns.deep_view(), millis@, seconds@),
{
    let fine = columns.contains(&millis.to_owned());
    let coarse = columns.contains(&seconds.to_owned());
    if fine && coarse {
        join5("COALESCE(\"", millis, "\", \"", seconds, "\", 0)")
    } else if fine {
        join3("COALESCE(\"", millis, "\", 0)")
    } else if coarse {
        join3("COALESCE(\"", seconds, "\", 0)")
    } else {
        "0".to_owned()
    }
}

/// A character that stands for itself in a URI.
pub open spec fn uri_safe(c: char) -> bool {
    ('A' <= c <= 'Z') || ('a' <= c <= 'z') || ('0' <= c <= '9') || c == '/' || c == ':' || c == '-'
        || c == '_' || c == '.' || c == '~'
}

/// A hexadecimal digit, in upper case.
pub open spec fn hex_digit(value: u8) -> char {
    if value < 10 {
        ((value + 48) as u8) as char
    } else {
        ((value + 55) as u8) as char
    }
}

/// The bytes of a text, each as a percent sign and two hexadecimal digits.
pub open spec fn percent_bytes(bytes: Seq<u8>) -> Seq<char>
    decreases bytes.len(),
{
    if bytes.len() == 0 {
        Seq::empty()
    } else {
        percent_bytes(bytes.drop_last()) + seq![
            '%',
            hex_digit(bytes.last() / 16),
            hex_digit(bytes.last() % 16),
        ]
    }
}

/// A text as it stands in a URI.
pub open spec fn uri_text(s: Seq<char>) -> Seq<char>
    decreases s.len(),
{
    if s.len() == 0 {
        Seq::empty()
    } else if uri_safe(s.last()) {
        uri_text(s.drop_last()).push(s.last())
    } else {
        uri_text(s.drop_last()) + percent_bytes(providers::utf8(seq![s.last()]))
    }
}

fn write_hex_digit(value: u8) -> (r: char)
    requires
        value < 16,
    ensures
        r == hex_digit(value),
{
    if value < 10 {
        (value + 48) as char
    } else {
        (value + 55) as char
    }
}

fn push_percent(out: &mut String, c: char)
    ensures
        final(out)@ == old(out)@ + percent_bytes(providers::utf8(seq![c])),
{
    let ghost start = out@;
    let mut one = String::new();
    one.push(c);
    assert(one@ =~= seq![c]);
    let bytes = one.as_str().as_bytes();
    let ghost view = bytes@;
    let mut i: usize = 0;
    assert(out@ =~= start + percent_bytes(view.take(0)));
    while i < bytes.len()
        invariant
            i <= bytes@.len(),
            view == bytes@,
            out@ == start + percent_bytes(view.take(i as int)),
        decreases bytes@.len() - i,
    {
        let byte: u8 = bytes[i];
        assert(view.take(i + 1).drop_last() =~= view.take(i as int));
        assert(view.take(i + 1).last() == byte);
        out.push('%');
        out.push(write_hex_digit(byte / 16));
        out.push(write_hex_digit(byte % 16));
        assert(out@ =~= start + percent_bytes(view.take(i + 1)));
        i += 1;
    }
    assert(view.take(i as int) =~= view);
}

fn encode_uri(s: &str) -> (r: String)
    ensures
        r@ == uri_text(s@),
{
    let chars = text::chars_of(s);
    let ghost view = s@;
    let mut out = String::new();
    let mut i: usize = 0;
    assert(out@ =~= uri_text(view.take(0)));
    while i < chars.len()
        invariant
            i <= chars@.len(),
            view == chars@,
            out@ == uri_text(view.take(i as int)),
        decreases chars@.len() - i,
    {
        let c = chars[i];
        assert(view.take(i + 1).drop_last() =~= view.take(i as int));
        assert(view.take(i + 1).last() == c);
        if ('A' <= c && c <= 'Z') || ('a' <= c && c <= 'z') || ('0' <= c && c <= '9') || c == '/'
            || c == ':' || c == '-' || c == '_' || c == '.' || c == '~' {
            out.push(c);
        } else {
            push_percent(&mut out, c);
        }
        i += 1;
    }
    assert(view.take(i as int) =~= view);
    out
}

/// A path with a slash in front.
pub open spec fn rooted(path: Seq<char>) -> Seq<char> {
    let plain = text::replaced(path, '\\', '/');
    if text::has_prefix(plain, "/"@) {
        plain
    } else {
        "/"@ + plain
    }
}

/// The URI of a database.
pub open spec fn database_uri(path: Seq<char>, query: Seq<char>) -> Seq<char> {
    "file:"@ + uri_text(rooted(path)) + "?"@ + query
}

/// The URI of a database at an absolute path.
pub fn sqlite_path_uri(path: &str, query: &str) -> (r: String)
    ensures
        r@ == database_uri(path@, query@),
{
    let plain = replace_char(path, '\\', '/');
    let whole = if starts_with(plain.as_str(), "/") {
        plain
    } else {
        join2("/", plain.as_str())
    };
    let encoded = encode_uri(whole.as_str());
    join4("file:", encoded.as_str(), "?", query)
}

/// The URI by which a database is only read: as one that nobody changes where no log of changes
/// lies beside it.
pub open spec fn reading_uri(path: Seq<char>, has_log: bool) -> Seq<char> {
    database_uri(
        path,
        if has_log {
            "mode=ro"@
        } else {
            "mode=ro&immutable=1"@
        },
    )
}

/// The URI by which a database is only read.
pub fn sqlite_light_uri(path: &str, has_log: bool) -> (r: String)
    ensures
        r@ == reading_uri(path@, has_log),
{
    if has_log {
        sqlite_path_uri(path, "mode=ro")
    } else {
        sqlite_path_uri(path, "mode=ro&immutable=1")
    }
}

/// The message for a database that cannot be opened.
pub open spec fn open_fault(shown: Seq<char>, busy: bool, error: Seq<char>) -> Seq<char> {
    if busy {
        "database is busy while opening "@ + shown + " ("@ + error + ")"@
    } else {
        shown + ": "@ + error
    }
}

/// The message for a database that cannot be opened.
pub fn format_sqlite_open_error(shown: &str, busy: bool, error: &str) -> (r: String)
    ensures
        r@ == open_fault(shown@, busy, error@),
{
    if busy {
        join5("database is busy while opening ", shown, " (", error, ")")
    } else {
        join3(shown, ": ", error)
    }
}

/// The message for a database that someone else is writing.
pub open spec fn write_conflict(context: Seq<char>, error: Seq<char>) -> Seq<char> {
    "SQLITE_BUSY: "@ + context
        + "; Codex is currently writing to its local index. Retry shortly, or close Codex only if the conflict continues: "@
        + error
}

/// The message for a database that someone else is writing.
pub fn sqlite_write_conflict(context: &str, error: &str) -> (r: String)
    ensures
        r@ == write_conflict(context@, error@),
{
    join4(
        "SQLITE_BUSY: ",
        context,
        "; Codex is currently writing to its local index. Retry shortly, or close Codex only if the conflict continues: ",
        error,
    )
}

proof fn lemma_none_missing(names: Seq<Seq<char>>, columns: Set<Seq<char>>)
    ensures
        first_missing(names, columns) is None <==> forall|i: int|
            0 <= i < names.len() ==> columns.contains(#[trigger] names[i]),
        first_missing(names, columns) is Some ==> names.contains(first_missing(names, columns)->0)
            && !columns.contains(first_missing(names, columns)->0),
    decreases names.len(),
{
    if names.len() > 0 {
        let rest = names.drop_first();
        lemma_none_missing(rest, columns);
        assert(names[0] == names.first());
        if columns.contains(names[0]) {
            if forall|i: int| 0 <= i < rest.len() ==> columns.contains(#[trigger] rest[i]) {
                assert forall|i: int| 0 <= i < names.len() implies columns.contains(
                    #[trigger] names[i],
                ) by {
                    if i > 0 {
                        assert(rest[i - 1] == names[i]);
                    }
                }
            } else {
                let k = choose|k: int| 0 <= k < rest.len() && !columns.contains(#[trigger] rest[k]);
                assert(names[k + 1] == rest[k]);
            }
            if first_missing(rest, columns) is Some {
                let k = choose|k: int|
                    0 <= k < rest.len() && rest[k] == first_missing(rest, columns)->0;
                assert(names[k + 1] == rest[k]);
            }
        }
    }
}

/// A session database can be repaired exactly where it answers that it is in order and has the
/// columns that a repair reads and writes.
pub proof fn law_session_tables_serve(check: Seq<char>, columns: Set<Seq<char>>)
    ensures
        state_schema_fault(check, columns) is None <==> check == "ok"@ && columns.contains("id"@)
            && columns.contains("rollout_path"@) && columns.contains("model_provider"@)
            && columns.contains("archived"@) && columns.contains("source"@) && columns.contains(
            "thread_source"@,
        ) && columns.contains("has_user_event"@),
        check == "ok"@ ==> state_schema_fault(check, columns) == state_columns_fault(columns),
{
    let names = state_columns();
    lemma_none_missing(names, columns);
    assert(names[0] == "id"@ && names[1] == "rollout_path"@ && names[2] == "model_provider"@
        && names[3] == "archived"@ && names[4] == "source"@ && names[5] == "thread_source"@
        && names[6] == "has_user_event"@);
    assert(names.len() == 7);
}

/// The catalog can be repaired exactly where its table has all its columns and the tables of its two
/// counters have theirs.
pub proof fn law_catalog_tables_serve(
    catalog: Set<Seq<char>>,
    sync: Set<Seq<char>>,
    metadata: Set<Seq<char>>,
)
    ensures
        catalog_columns_fault(catalog, sync, metadata) is None <==> {
            &&& catalog.contains("host_id"@)
            &&& catalog.contains("thread_id"@)
            &&& catalog.contains("display_title"@)
            &&& catalog.contains("source_created_at"@)
            &&& catalog.contains("source_updated_at"@)
            &&& catalog.contains("cwd"@)
            &&& catalog.contains("source_kind"@)
            &&& catalog.contains("source_detail"@)
            &&& catalog.contains("model_provider"@)
            &&& catalog.contains("git_branch"@)
            &&& catalog.contains("observation_sequence"@)
            &&& catalog.contains("missing_candidate"@)
            &&& sync.contains("host_id"@)
            &&& sync.contains("observation_sequence"@)
            &&& metadata.contains("id"@)
            &&& metadata.contains("catalog_revision"@)
        },
{
    let names = catalog_columns();
    lemma_none_missing(names, catalog);
    assert(names.len() == 12);
    assert(names[0] == "host_id"@ && names[1] == "thread_id"@ && names[2] == "display_title"@
        && names[3] == "source_created_at"@ && names[4] == "source_updated_at"@ && names[5]
        == "cwd"@ && names[6] == "source_kind"@ && names[7] == "source_detail"@ && names[8]
        == "model_provider"@ && names[9] == "git_branch"@ && names[10] == "observation_sequence"@
        && names[11] == "missing_candidate"@);
    let first = seq!["host_id"@, "observation_sequence"@];
    let second = seq!["id"@, "catalog_revision"@];
    lemma_none_missing(first, sync);
    lemma_none_missing(second, metadata);
    assert(first[0] == "host_id"@ && first[1] == "observation_sequence"@);
    assert(second[0] == "id"@ && second[1] == "catalog_revision"@);
}

proof fn lemma_none_unfillable(columns: Seq<TableColumnInfoView>, i: nat)
    ensures
        first_unfillable(columns, i) is None <==> forall|k: int|
            i <= k < columns.len() ==> !unfillable(#[trigger] columns[k]),
    decreases columns.len() - i,
{
    if i < columns.len() {
        lemma_none_unfillable(columns, i + 1);
        if first_unfillable(columns, i) is None {
            assert forall|k: int| i <= k < columns.len() implies !unfillable(
                #[trigger] columns[k],
            ) by {
                if k > i {
                    assert(i + 1 <= k);
                }
            }
        }
        if forall|k: int| i <= k < columns.len() ==> !unfillable(#[trigger] columns[k]) {
            assert(!unfillable(columns[i as int]));
        }
    }
}

/// A session can be added exactly where the table has the columns that it needs, and every column
/// that must be given a value and has none by default is one that a new session fills.
pub proof fn law_sessions_can_be_added(columns: Seq<TableColumnInfoView>)
    ensures
        ({
            let names = column_names(columns);
            insert_schema_fault(columns) is None <==> {
                &&& names.contains("id"@)
                &&& names.contains("rollout_path"@)
                &&& names.contains("source"@)
                &&& names.contains("model_provider"@)
                &&& names.contains("cwd"@)
                &&& names.contains("title"@)
                &&& names.contains("archived"@)
                &&& forall|k: int|
                    0 <= k < columns.len() && (#[trigger] columns[k]).not_null
                        && columns[k].default_value is None ==> fillable(columns[k].name)
            }
        }),
        forall|name: Seq<char>| #[trigger]
            column_names(columns).contains(name) <==> exists|k: int|
                0 <= k < columns.len() && (#[trigger] columns[k]).name == name,
{
    let names = insert_columns();
    lemma_none_missing(names, column_names(columns));
    assert(names.len() == 7);
    assert(names[0] == "id"@ && names[1] == "rollout_path"@ && names[2] == "source"@ && names[3]
        == "model_provider"@ && names[4] == "cwd"@ && names[5] == "title"@ && names[6]
        == "archived"@);
    lemma_none_unfillable(columns, 0);
    if forall|k: int|
        0 <= k < columns.len() && (#[trigger] columns[k]).not_null && columns[k].default_value is None
            ==> fillable(columns[k].name) {
        assert forall|k: int| 0 <= k < columns.len() implies !unfillable(#[trigger] columns[k]) by {}
    }
    if first_unfillable(columns, 0) is None {
        assert forall|k: int|
            0 <= k < columns.len() && (#[trigger] columns[k]).not_null
                && columns[k].default_value is None implies fillable(columns[k].name) by {
            assert(!unfillable(columns[k]));
        }
    }
}

/// Both databases are in order exactly where each is.
pub proof fn law_both_databases_serve(
    state_check: Seq<char>,
    state: Set<Seq<char>>,
    catalog_check: Seq<char>,
    catalog: Set<Seq<char>>,
    sync: Set<Seq<char>>,
    metadata: Set<Seq<char>>,
)
    ensures
        schema_fault(state_check, state, catalog_check, catalog, sync, metadata) is None
            <==> state_schema_fault(state_check, state) is None && catalog_check == "ok"@
            && catalog_columns_fault(catalog, sync, metadata) is None,
{
}

/// A database of the home is used exactly where it is a regular file inside it, and the session
/// database is repaired exactly where it is a regular file.
pub proof fn law_database_files_serve(shown: Seq<char>, found: DatabaseFoundView, inside: bool)
    ensures
        home_database_fault(shown, found, inside) is None <==> found is Regular && inside,
        state_database_fault(shown, found) is None <==> found is Regular,
{
}

/// A column that is there is read by its name in quotes, and one that is not by what stands for it;
/// a time is read from the finer column first, then from the coarser, then as zero.
pub proof fn law_columns_are_read_where_they_are(
    columns: Set<Seq<char>>,
    name: Seq<char>,
    fallback: Seq<char>,
    millis: Seq<char>,
    seconds: Seq<char>,
)
    ensures
        !columns.contains(name) ==> column_expression(columns, name, fallback) == fallback,
        columns.contains(name) ==> column_expression(columns, name, fallback) == "\""@ + name
            + "\""@,
        !columns.contains(millis) && !columns.contains(seconds) ==> time_expression(
            columns,
            millis,
            seconds,
        ) == "0"@,
        columns.contains(millis) && !columns.contains(seconds) ==> time_expression(
            columns,
            millis,
            seconds,
        ) == "COALESCE(\""@ + millis + "\", 0)"@,
        !columns.contains(millis) && columns.contains(seconds) ==> time_expression(
            columns,
            millis,
            seconds,
        ) == "COALESCE(\""@ + seconds + "\", 0)"@,
        columns.contains(millis) && columns.contains(seconds) ==> time_expression(
            columns,
            millis,
            seconds,
        ) == "COALESCE(\""@ + millis + "\", \""@ + seconds + "\", 0)"@,
{
}

/// Only letters, digits, slashes, colons, dashes, underscores, dots and tildes stand for themselves in
/// the URI of a database; every other character becomes percent signs with the digits of its bytes.
pub proof fn law_uri_holds_only_safe_characters(s: Seq<char>)
    ensures
        forall|i: int|
            0 <= i < uri_text(s).len() ==> uri_safe(#[trigger] uri_text(s)[i]) || uri_text(s)[i]
                == '%',
        (forall|i: int| 0 <= i < s.len() ==> uri_safe(#[trigger] s[i])) ==> uri_text(s) == s,
    decreases s.len(),
{
    if s.len() > 0 {
        let front = s.drop_last();
        law_uri_holds_only_safe_characters(front);
        lemma_percent_is_safe(providers::utf8(seq![s.last()]));
        let before = uri_text(front);
        let tail = percent_bytes(providers::utf8(seq![s.last()]));
        assert forall|i: int| 0 <= i < uri_text(s).len() implies uri_safe(#[trigger] uri_text(s)[i])
            || uri_text(s)[i] == '%' by {
            if i < before.len() {
                assert(uri_text(s)[i] == before[i]);
            } else if !uri_safe(s.last()) {
                assert(uri_text(s)[i] == tail[i - before.len()]);
            }
        }
        if forall|i: int| 0 <= i < s.len() ==> uri_safe(#[trigger] s[i]) {
            assert forall|i: int| 0 <= i < front.len() implies uri_safe(#[trigger] front[i]) by {
                assert(s[i] == front[i]);
            }
            assert(s[s.len() - 1] == s.last());
            assert(uri_text(s) =~= s);
        }
    }
}

proof fn lemma_percent_is_safe(bytes: Seq<u8>)
    ensures
        forall|i: int|
            0 <= i < percent_bytes(bytes).len() ==> uri_safe(#[trigger] percent_bytes(bytes)[i])
                || percent_bytes(bytes)[i] == '%',
        percent_bytes(bytes).len() == 3 * bytes.len(),
    decreases bytes.len(),
{
    if bytes.len() > 0 {
        lemma_percent_is_safe(bytes.drop_last());
        let high = bytes.last() / 16;
        let low = bytes.last() % 16;
        assert(high < 16 && low < 16);
        assert(uri_safe(hex_digit(high)));
        assert(uri_safe(hex_digit(low)));
    }
}

} // verus!

//! Where a session belongs: ordinary or automated, local or remote, and to which workspace.

use crate::json;
use crate::json::{parse_json, Json, JsonView};
use crate::model::Model;
use crate::ordered::OrderedSet;
use crate::records::{
    CatalogRow, CatalogRowView, GlobalStateSnapshot, GlobalStateSnapshotView, Snapshot,
    SnapshotView, ThreadRow, ThreadRowView,
};
use crate::text;
use crate::text::{
    is_blank, remove_chars, replace_char, same, same_ignoring_case, starts_with, strip_prefix,
    to_lower, trim,
};
use vstd::prelude::*;
use vstd::string::*;

verus! {

/// A wish to point a thread at a workspace root in the desktop's global state.
#[derive(Debug, PartialEq, Eq)]
pub struct WorkspaceHintUpdate {
    pub thread_id: String,
    pub expected_hint: Option<Json>,
    pub workspace_root: String,
}

/// What a `WorkspaceHintUpdate` stands for.
#[verifier::ext_equal]
pub struct WorkspaceHintUpdateView {
    pub thread_id: Seq<char>,
    pub expected_hint: Option<JsonView>,
    pub workspace_root: Seq<char>,
}

impl DeepView for WorkspaceHintUpdate {
    type V = WorkspaceHintUpdateView;

    open spec fn deep_view(&self) -> WorkspaceHintUpdateView {
        WorkspaceHintUpdateView {
            thread_id: self.thread_id.deep_view(),
            expected_hint: self.expected_hint.deep_view(),
            workspace_root: self.workspace_root.deep_view(),
        }
    }
}

impl Model for WorkspaceHintUpdate {
    fn copy_of(&self) -> (r: Self) {
        WorkspaceHintUpdate {
            thread_id: self.thread_id.copy_of(),
            expected_hint: self.expected_hint.copy_of(),
            workspace_root: self.workspace_root.copy_of(),
        }
    }

    fn same_as(&self, other: &Self) -> (r: bool) {
        self.thread_id.same_as(&other.thread_id)
            && self.expected_hint.same_as(&other.expected_hint)
            && self.workspace_root.same_as(&other.workspace_root)
    }
}

/// What the directories recorded for a thread say of its workspace.
#[derive(Debug, PartialEq, Eq)]
pub enum WorkspaceResolution {
    /// They agree.
    Stable,
    /// They agree once the global state points the thread at its workspace.
    HintUpdate(WorkspaceHintUpdate),
    /// They disagree.
    Conflict,
}

/// What a `WorkspaceResolution` stands for.
#[verifier::ext_equal]
pub enum WorkspaceResolutionView {
    Stable,
    HintUpdate(WorkspaceHintUpdateView),
    Conflict,
}

impl DeepView for WorkspaceResolution {
    type V = WorkspaceResolutionView;

    open spec fn deep_view(&self) -> WorkspaceResolutionView {
        match self {
            WorkspaceResolution::Stable => WorkspaceResolutionView::Stable,
            WorkspaceResolution::HintUpdate(value) => WorkspaceResolutionView::HintUpdate(value.deep_view()),
            WorkspaceResolution::Conflict => WorkspaceResolutionView::Conflict,
        }
    }
}

impl Model for WorkspaceResolution {
    fn copy_of(&self) -> (r: Self) {
        match self {
            WorkspaceResolution::Stable => WorkspaceResolution::Stable,
            WorkspaceResolution::HintUpdate(value) => WorkspaceResolution::HintUpdate(value.copy_of()),
            WorkspaceResolution::Conflict => WorkspaceResolution::Conflict,
        }
    }

    fn same_as(&self, other: &Self) -> (r: bool) {
        match (self, other) {
            (WorkspaceResolution::Stable, WorkspaceResolution::Stable) => true,
            (WorkspaceResolution::HintUpdate(value_l), WorkspaceResolution::HintUpdate(value_r)) => value_l.same_as(value_r),
            (WorkspaceResolution::Conflict, WorkspaceResolution::Conflict) => true,
            _ => false,
        }
    }
}

/// A word in the form in which it is compared: in lower case, without dashes and underscores.
pub open spec fn folded(s: Seq<char>) -> Seq<char> {
    text::without(text::lowered(s), '-', '_')
}

fn fold(s: &str) -> (r: String)
    ensures
        r@ == folded(s@),
{
    let lower = to_lower(s);
    remove_chars(lower.as_str(), '-', '_')
}

/// A word that marks a session as started by a program.
pub open spec fn automation_word(s: Seq<char>) -> bool {
    let word = folded(text::trimmed(s));
    ||| word == "subagent"@
    ||| word == "automation"@
    ||| word == "automated"@
    ||| word == "scheduled"@
    ||| word == "exec"@
    ||| word == "threadspawn"@
    ||| word == "guardian"@
    ||| word == "pullrequestfixautomation"@
}

fn is_automation_word(s: &str) -> (r: bool)
    ensures
        r == automation_word(s@),
{
    let trimmed = trim(s);
    let word = fold(trimmed.as_str());
    let word = word.as_str();
    same(word, "subagent") || same(word, "automation") || same(word, "automated") || same(
        word,
        "scheduled",
    ) || same(word, "exec") || same(word, "threadspawn") || same(word, "guardian") || same(
        word,
        "pullrequestfixautomation",
    )
}

/// A key under which any value but null and false marks a session as started by a program.
pub open spec fn automation_key(key: Seq<char>) -> bool {
    ||| key == "subagent"@
    ||| key == "automation"@
    ||| key == "threadspawn"@
    ||| key == "parentthreadid"@
    ||| key == "ephemeral"@
}

/// A key that holds the kind of a source.
pub open spec fn kind_key(key: Seq<char>) -> bool {
    ||| key == "kind"@
    ||| key == "type"@
    ||| key == "sourcekind"@
}

/// A source value says that a program, not a person, started the session.
pub open spec fn nonordinary(value: JsonView) -> bool
    decreases value,
{
    match value {
        JsonView::Text(text) => automation_word(text),
        JsonView::Object(members) => exists|i: int|
            0 <= i < members.len() && {
                let (key, inner) = #[trigger] members[i];
                ||| automation_key(folded(key)) && inner != JsonView::Null && inner
                    != JsonView::Bool(false)
                ||| kind_key(folded(key)) && inner is Text && automation_word(inner->Text_0)
                ||| (inner is Object || inner is Array) && nonordinary(inner)
            },
        JsonView::Array(items) => exists|i: int|
            0 <= i < items.len() && nonordinary(#[trigger] items[i]),
        _ => false,
    }
}

/// Whether a source value says that a program started the session.
pub fn source_value_is_nonordinary(value: &Json) -> (r: bool)
    ensures
        r == nonordinary(value.deep_view()),
    decreases value,
{
    match value {
        Json::Text(text) => is_automation_word(text.as_str()),
        Json::Object(members) => {
            let ghost views = value.deep_view()->Object_0;
            let mut i: usize = 0;
            while i < members.len()
                invariant
                    i <= members@.len(),
                    *value == Json::Object(*members),
                    views == value.deep_view()->Object_0,
                    forall|j: int|
                        0 <= j < i ==> {
                            let (key, inner) = #[trigger] views[j];
                            !({
                                ||| automation_key(folded(key)) && inner != JsonView::Null && inner
                                    != JsonView::Bool(false)
                                ||| kind_key(folded(key)) && inner is Text && automation_word(
                                    inner->Text_0,
                                )
                                ||| (inner is Object || inner is Array) && nonordinary(inner)
                            })
                        },
                decreases members@.len() - i,
            {
                let key = fold(members[i].0.as_str());
                let inner = &members[i].1;
                assert(views[i as int] == (members@[i as int].0@, inner.deep_view()));
                assert(decreases_to!(value => members@[i as int].1));
                let set = match inner {
                    Json::Null => false,
                    Json::Bool(flag) => *flag,
                    _ => true,
                };
                if set && (same(key.as_str(), "subagent") || same(key.as_str(), "automation")
                    || same(key.as_str(), "threadspawn") || same(key.as_str(), "parentthreadid")
                    || same(key.as_str(), "ephemeral")) {
                    return true;
                }
                match inner {
                    Json::Text(text) => {
                        if (same(key.as_str(), "kind") || same(key.as_str(), "type") || same(
                            key.as_str(),
                            "sourcekind",
                        )) && is_automation_word(text.as_str()) {
                            return true;
                        }
                    },
                    Json::Object(_) | Json::Array(_) => {
                        if source_value_is_nonordinary(inner) {
                            return true;
                        }
                    },
                    _ => {},
                }
                i += 1;
            }
            false
        },
        Json::Array(items) => {
            let ghost views = value.deep_view()->Array_0;
            let mut i: usize = 0;
            while i < items.len()
                invariant
                    i <= items@.len(),
                    *value == Json::Array(*items),
                    views == value.deep_view()->Array_0,
                    forall|j: int| 0 <= j < i ==> !nonordinary(#[trigger] views[j]),
                decreases items@.len() - i,
            {
                assert(views[i as int] == items@[i as int].deep_view());
                assert(decreases_to!(value => items@[i as int]));
                if source_value_is_nonordinary(&items[i]) {
                    return true;
                }
                i += 1;
            }
            false
        },
        _ => false,
    }
}

/// What a recorded source says: the JSON it holds, or else its text.
pub open spec fn source_value(recorded: Seq<char>) -> JsonView {
    match json::json_parse(recorded) {
        Some(value) => value,
        None => JsonView::Text(text::trimmed(recorded)),
    }
}

/// What is read from a recorded source, given what its text says as JSON.
pub fn source_or_text(parsed: Option<Json>, recorded: &str) -> (r: Json)
    ensures
        r.deep_view() == (match parsed {
            Some(value) => value.deep_view(),
            None => JsonView::Text(text::trimmed(recorded@)),
        }),
{
    match parsed {
        Some(value) => value,
        None => Json::Text(trim(recorded)),
    }
}

/// Reads a recorded source: the JSON it holds, or else its text.
pub fn parse_source_value(recorded: &str) -> (r: Json)
    ensures
        r.deep_view() == source_value(recorded@),
{
    source_or_text(parse_json(recorded), recorded)
}

/// A state row belongs to a session that a program started.
pub open spec fn skipped_thread(thread: ThreadRowView) -> bool {
    ||| thread.agent_role is Some && text::trimmed(thread.agent_role->0).len() > 0
    ||| nonordinary(source_value(thread.source))
    ||| nonordinary(source_value(thread.thread_source))
}

/// The reason for which a state row is left alone, if there is one.
pub fn is_skipped_thread(thread: &ThreadRow) -> (r: Option<String>)
    ensures
        r.deep_view() == (if skipped_thread(thread.deep_view()) {
            Some("subagent_or_automation"@)
        } else {
            None
        }),
{
    let has_role = match &thread.agent_role {
        Some(role) => !is_blank(role.as_str()),
        None => false,
    };
    if has_role || source_value_is_nonordinary(&parse_source_value(thread.source.as_str()))
        || source_value_is_nonordinary(&parse_source_value(thread.thread_source.as_str())) {
        Some("subagent_or_automation".to_owned())
    } else {
        None
    }
}

/// A source kind that stands for another machine.
pub open spec fn remote_kind(word: Seq<char>) -> bool {
    ||| word == "remote"@
    ||| word == "ssh"@
    ||| word == "ssh-remote"@
    ||| word == "wsl"@
    ||| word == "devcontainer"@
    ||| word == "dev-container"@
    ||| word == "codespaces"@
}

fn is_remote_kind(word: &str) -> (r: bool)
    ensures
        r == remote_kind(word@),
{
    same(word, "remote") || same(word, "ssh") || same(word, "ssh-remote") || same(word, "wsl")
        || same(word, "devcontainer") || same(word, "dev-container") || same(word, "codespaces")
}

/// A place name that begins as names of places on another machine do.
pub open spec fn remote_place(word: Seq<char>) -> bool {
    ||| text::has_prefix(word, "ssh-remote+"@)
    ||| text::has_prefix(word, "wsl+"@)
    ||| text::has_prefix(word, "dev-container+"@)
    ||| text::has_prefix(word, "devcontainer+"@)
    ||| text::has_prefix(word, "codespaces+"@)
    ||| text::has_prefix(word, "vscode-remote://"@)
    ||| text::has_prefix(word, "ssh://"@)
    ||| text::has_prefix(word, "\\\\wsl$\\"@)
    ||| text::has_prefix(word, "\\\\wsl.localhost\\"@)
}

fn is_remote_place(word: &str) -> (r: bool)
    ensures
        r == remote_place(word@),
{
    starts_with(word, "ssh-remote+") || starts_with(word, "wsl+") || starts_with(
        word,
        "dev-container+",
    ) || starts_with(word, "devcontainer+") || starts_with(word, "codespaces+") || starts_with(
        word,
        "vscode-remote://",
    ) || starts_with(word, "ssh://") || starts_with(word, "\\\\wsl$\\") || starts_with(
        word,
        "\\\\wsl.localhost\\",
    )
}

/// A text that names another machine.
pub open spec fn remote_word(s: Seq<char>) -> bool {
    let word = text::without(text::lowered(text::trimmed(s)), ' ', ' ');
    remote_kind(word) || remote_place(word)
}

fn is_remote_word(s: &str) -> (r: bool)
    ensures
        r == remote_word(s@),
{
    let trimmed = trim(s);
    let lower = to_lower(trimmed.as_str());
    let word = remove_chars(lower.as_str(), ' ', ' ');
    is_remote_kind(word.as_str()) || is_remote_place(word.as_str())
}

/// A host name that is given and is not the local one.
pub open spec fn other_host(s: Seq<char>) -> bool {
    text::trimmed(s).len() > 0 && text::lowered(s) != text::lowered("local"@)
}

/// A member of an object names another machine, its nested values aside.
pub open spec fn remote_member(key: Seq<char>, value: JsonView) -> bool {
    ||| key == "remote"@ && value == JsonView::Bool(true)
    ||| (key == "remoteauthority"@ || key == "hostid"@) && value is Text && other_host(
        value->Text_0,
    )
    ||| (kind_key(key) || key == "source"@ || key == "workspaceuri"@) && value is Text
        && remote_word(value->Text_0)
}

fn is_remote_member(key: &str, value: &Json) -> (r: bool)
    ensures
        r == remote_member(key@, value.deep_view()),
{
    match value {
        Json::Bool(flag) => *flag && same(key, "remote"),
        Json::Text(text) => {
            let named = (same(key, "remoteauthority") || same(key, "hostid")) && !is_blank(
                text.as_str(),
            ) && !same_ignoring_case(text.as_str(), "local");
            named || (same(key, "kind") || same(key, "type") || same(key, "sourcekind") || same(
                key,
                "source",
            ) || same(key, "workspaceuri")) && is_remote_word(text.as_str())
        },
        _ => false,
    }
}

/// A JSON value names another machine.
pub open spec fn remote_json(value: JsonView) -> bool
    decreases value,
{
    match value {
        JsonView::Object(members) => exists|i: int|
            0 <= i < members.len() && {
                let (key, inner) = #[trigger] members[i];
                ||| remote_member(folded(key), inner)
                ||| (inner is Object || inner is Array) && remote_json(inner)
            },
        JsonView::Array(items) => exists|i: int|
            0 <= i < items.len() && remote_json(#[trigger] items[i]),
        JsonView::Text(text) => remote_word(text),
        _ => false,
    }
}

/// Whether a JSON value names another machine.
pub fn json_names_remote(value: &Json) -> (r: bool)
    ensures
        r == remote_json(value.deep_view()),
    decreases value,
{
    match value {
        Json::Object(members) => {
            let ghost views = value.deep_view()->Object_0;
            let mut i: usize = 0;
            while i < members.len()
                invariant
                    i <= members@.len(),
                    *value == Json::Object(*members),
                    views == value.deep_view()->Object_0,
                    forall|j: int|
                        0 <= j < i ==> {
                            let (key, inner) = #[trigger] views[j];
                            !({
                                ||| remote_member(folded(key), inner)
                                ||| (inner is Object || inner is Array) && remote_json(inner)
                            })
                        },
                decreases members@.len() - i,
            {
                let key = fold(members[i].0.as_str());
                let inner = &members[i].1;
                assert(views[i as int] == (members@[i as int].0@, inner.deep_view()));
                assert(decreases_to!(value => members@[i as int].1));
                if is_remote_member(key.as_str(), inner) {
                    return true;
                }
                match inner {
                    Json::Object(_) | Json::Array(_) => {
                        if json_names_remote(inner) {
                            return true;
                        }
                    },
                    _ => {},
                }
                i += 1;
            }
            false
        },
        Json::Array(items) => {
            let ghost views = value.deep_view()->Array_0;
            let mut i: usize = 0;
            while i < items.len()
                invariant
                    i <= items@.len(),
                    *value == Json::Array(*items),
                    views == value.deep_view()->Array_0,
                    forall|j: int| 0 <= j < i ==> !remote_json(#[trigger] views[j]),
                decreases items@.len() - i,
            {
                assert(views[i as int] == items@[i as int].deep_view());
                assert(decreases_to!(value => items@[i as int]));
                if json_names_remote(&items[i]) {
                    return true;
                }
                i += 1;
            }
            false
        },
        Json::Text(text) => is_remote_word(text.as_str()),
        _ => false,
    }
}

/// A recorded source names another machine.
pub open spec fn remote_marker(recorded: Seq<char>) -> bool {
    match json::json_parse(recorded) {
        Some(value) => remote_json(value),
        None => remote_word(recorded),
    }
}

/// Whether a recorded source names another machine, given what its text says as JSON.
pub fn parsed_names_remote(parsed: &Option<Json>, recorded: &str) -> (r: bool)
    ensures
        r == (match parsed.deep_view() {
            Some(value) => remote_json(value),
            None => remote_word(recorded@),
        }),
{
    match parsed {
        Some(value) => json_names_remote(value),
        None => is_remote_word(recorded),
    }
}

/// Whether a recorded source names another machine.
pub fn has_explicit_remote_marker(recorded: &str) -> (r: bool)
    ensures
        r == remote_marker(recorded@),
{
    parsed_names_remote(&parse_json(recorded), recorded)
}

/// A state row names another machine.
pub open spec fn remote_thread(thread: ThreadRowView) -> bool {
    remote_marker(thread.source) || remote_marker(thread.thread_source)
}

/// Whether a state row names another machine.
pub fn thread_is_explicit_remote(thread: &ThreadRow) -> (r: bool)
    ensures
        r == remote_thread(thread.deep_view()),
{
    has_explicit_remote_marker(thread.source.as_str()) || has_explicit_remote_marker(
        thread.thread_source.as_str(),
    )
}

/// A catalog row stands on this host.
pub open spec fn on_local_host(row: CatalogRowView) -> bool {
    text::lowered(row.host_id) == text::lowered("local"@)
}

/// A catalog row belongs to another machine.
pub open spec fn remote_row(row: CatalogRowView) -> bool {
    ||| !on_local_host(row)
    ||| remote_kind(text::lowered(text::trimmed(row.source_kind)))
    ||| remote_marker(row.source_detail)
}

/// A catalog row belongs to this machine.
pub open spec fn local_row(row: CatalogRowView) -> bool {
    on_local_host(row) && !remote_row(row)
}

/// Whether a catalog row belongs to another machine.
pub fn catalog_row_is_remote(row: &CatalogRow) -> (r: bool)
    ensures
        r == remote_row(row.deep_view()),
{
    let trimmed = trim(row.source_kind.as_str());
    let kind = to_lower(trimmed.as_str());
    !same_ignoring_case(row.host_id.as_str(), "local") || is_remote_kind(kind.as_str())
        || has_explicit_remote_marker(row.source_detail.as_str())
}

/// Whether a catalog row belongs to this machine.
pub fn catalog_row_is_local(row: &CatalogRow) -> (r: bool)
    ensures
        r == local_row(row.deep_view()),
{
    same_ignoring_case(row.host_id.as_str(), "local") && !catalog_row_is_remote(row)
}

/// A catalog row is local or remote, never both.
pub proof fn law_rows_are_local_or_remote(row: CatalogRowView)
    ensures
        local_row(row) != remote_row(row),
{
}

/// `value` with backslashes, and without the prefix for long paths.
pub open spec fn plain_windows_path(value: Seq<char>) -> Seq<char> {
    let path = text::replaced(text::trimmed(value), '/', '\\');
    match text::after_prefix(path, "\\\\?\\"@) {
        Some(rest) => rest,
        None => path,
    }
}

/// A path begins with a drive letter.
pub open spec fn on_drive(path: Seq<char>) -> bool {
    &&& path.len() >= 3
    &&& ('a' <= path[0] && path[0] <= 'z' || 'A' <= path[0] && path[0] <= 'Z')
    &&& path[1] == ':'
    &&& path[2] == '\\'
}

/// The form in which paths on a local drive are compared.
pub open spec fn local_path(value: Seq<char>) -> Option<Seq<char>> {
    let path = plain_windows_path(value);
    if on_drive(path) {
        Some(text::lowered(path))
    } else {
        None
    }
}

/// Brings a path on a local drive into the form in which such paths are compared.
pub fn normalized_local_windows_path(value: &str) -> (r: Option<String>)
    ensures
        r.deep_view() == local_path(value@),
{
    let trimmed = trim(value);
    let slashed = replace_char(trimmed.as_str(), '/', '\\');
    let path = match strip_prefix(slashed.as_str(), "\\\\?\\") {
        Some(rest) => rest,
        None => slashed,
    };
    if path.as_str().unicode_len() < 3 {
        return None;
    }
    let drive = path.as_str().get_char(0);
    let letter = ('a' <= drive && drive <= 'z') || ('A' <= drive && drive <= 'Z');
    if letter && path.as_str().get_char(1) == ':' && path.as_str().get_char(2) == '\\' {
        Some(to_lower(path.as_str()))
    } else {
        None
    }
}

/// `path` is `root` or lies under it.
pub open spec fn within(path: Seq<char>, root: Seq<char>) -> bool {
    path == root || match text::after_prefix(path, root) {
        Some(rest) => rest.len() > 0 && rest[0] == '\\',
        None => false,
    }
}

fn lies_within(path: &str, root: &str) -> (r: bool)
    ensures
        r == within(path@, root@),
{
    if same(path, root) {
        return true;
    }
    match strip_prefix(path, root) {
        Some(rest) => rest.as_str().unicode_len() > 0 && rest.as_str().get_char(0) == '\\',
        None => false,
    }
}

/// A saved root that exists and holds `cwd`.
pub open spec fn root_matches(
    root: Seq<char>,
    existing: Set<Seq<char>>,
    cwd: Seq<char>,
) -> bool {
    existing.contains(root) && local_path(root) is Some && within(cwd, local_path(root)->0)
}

/// The saved roots that exist and hold `cwd`, in their order.
pub open spec fn matching_roots(
    roots: Seq<Seq<char>>,
    existing: Set<Seq<char>>,
    cwd: Seq<char>,
) -> Seq<Seq<char>>
    decreases roots.len(),
{
    if roots.len() == 0 {
        roots
    } else {
        let rest = matching_roots(roots.drop_last(), existing, cwd);
        if root_matches(roots.last(), existing, cwd) {
            rest.push(roots.last())
        } else {
            rest
        }
    }
}

/// The first of `roots`, if they are all forms of one path.
pub open spec fn single_root(roots: Seq<Seq<char>>) -> Option<Seq<char>> {
    if roots.len() > 0 && forall|i: int|
        0 <= i < roots.len() ==> local_path(#[trigger] roots[i]) == local_path(roots[0]) {
        Some(roots[0])
    } else {
        None
    }
}

/// The one saved root that holds the directory of a state row.
pub open spec fn saved_root(
    global_state: GlobalStateSnapshotView,
    existing: Set<Seq<char>>,
    state_cwd: Seq<char>,
) -> Option<Seq<char>> {
    if !global_state.readable || local_path(state_cwd) is None {
        None
    } else {
        single_root(
            matching_roots(
                global_state.saved_workspace_roots,
                existing,
                local_path(state_cwd)->0,
            ),
        )
    }
}

/// Finds the one saved root that holds the directory of a state row. `existing_roots` are the
/// saved roots that are directories.
pub fn unique_saved_workspace_root(
    global_state: &GlobalStateSnapshot,
    existing_roots: &OrderedSet<String>,
    state_cwd: &str,
) -> (r: Option<String>)
    ensures
        r.deep_view() == saved_root(
            global_state.deep_view(),
            existing_roots.deep_view(),
            state_cwd@,
        ),
{
    if !global_state.readable {
        return None;
    }
    let cwd = match normalized_local_windows_path(state_cwd) {
        Some(cwd) => cwd,
        None => {
            return None;
        },
    };
    let ghost roots = global_state.saved_workspace_roots.deep_view();
    let ghost existing = existing_roots.deep_view();
    let mut found: Vec<String> = Vec::new();
    let mut i: usize = 0;
    assert(found.deep_view() =~= matching_roots(roots.take(0), existing, cwd@));
    while i < global_state.saved_workspace_roots.len()
        invariant
            i <= global_state.saved_workspace_roots@.len(),
            roots == global_state.saved_workspace_roots.deep_view(),
            existing == existing_roots.deep_view(),
            found.deep_view() == matching_roots(roots.take(i as int), existing, cwd@),
        decreases global_state.saved_workspace_roots@.len() - i,
    {
        let root = &global_state.saved_workspace_roots[i];
        let ghost before = found.deep_view();
        assert(roots[i as int] == root@);
        assert(roots.take(i + 1).drop_last() =~= roots.take(i as int));
        if existing_roots.contains(root) {
            match normalized_local_windows_path(root.as_str()) {
                Some(normalized) => {
                    if lies_within(cwd.as_str(), normalized.as_str()) {
                        found.push(root.copy_of());
                        assert(found.deep_view() =~= before.push(root@));
                    }
                },
                None => {},
            }
        }
        i += 1;
    }
    assert(roots.take(i as int) =~= roots);
    let ghost matching = found.deep_view();
    if found.len() == 0 {
        return None;
    }
    let first = normalized_local_windows_path(found[0].as_str());
    assert(matching[0] == found@[0]@);
    let mut k: usize = 1;
    while k < found.len()
        invariant
            1 <= k <= found@.len(),
            matching == found.deep_view(),
            saved_root(global_state.deep_view(), existing_roots.deep_view(), state_cwd@)
                == single_root(matching),
            first.deep_view() == local_path(matching[0]),
            forall|j: int| 0 <= j < k ==> local_path(#[trigger] matching[j]) == local_path(matching[0]),
        decreases found@.len() - k,
    {
        let other = normalized_local_windows_path(found[k].as_str());
        assert(matching[k as int] == found@[k as int]@);
        if !other.same_as(&first) {
            assert(local_path(matching[k as int]) != local_path(matching[0]));
            return None;
        }
        k += 1;
    }
    Some(found[0].copy_of())
}

/// The local catalog rows of a thread.
pub open spec fn local_rows_of(
    catalog: Seq<CatalogRowView>,
    id: Seq<char>,
) -> Seq<CatalogRowView>
    decreases catalog.len(),
{
    if catalog.len() == 0 {
        catalog
    } else {
        let rest = local_rows_of(catalog.drop_last(), id);
        if catalog.last().thread_id == id && local_row(catalog.last()) {
            rest.push(catalog.last())
        } else {
            rest
        }
    }
}

/// The local catalog rows of a thread.
pub fn collect_local_rows(catalog: &Vec<CatalogRow>, id: &String) -> (r: Vec<CatalogRow>)
    ensures
        r.deep_view() == local_rows_of(catalog.deep_view(), id@),
{
    let ghost rows = catalog.deep_view();
    let mut out: Vec<CatalogRow> = Vec::new();
    let mut i: usize = 0;
    assert(out.deep_view() =~= local_rows_of(rows.take(0), id@));
    while i < catalog.len()
        invariant
            i <= catalog@.len(),
            rows == catalog.deep_view(),
            out.deep_view() == local_rows_of(rows.take(i as int), id@),
        decreases catalog@.len() - i,
    {
        let ghost before = out.deep_view();
        assert(rows[i as int] == catalog@[i as int].deep_view());
        assert(rows.take(i + 1).drop_last() =~= rows.take(i as int));
        if catalog[i].thread_id.same_as(id) && catalog_row_is_local(&catalog[i]) {
            out.push(catalog[i].copy_of());
            assert(out.deep_view() =~= before.push(rows[i as int]));
        }
        i += 1;
    }
    assert(rows.take(i as int) =~= rows);
    out
}

/// A hint of the global state is compatible with a directory.
pub open spec fn hint_compatible(hint: Option<JsonView>, cwd: Seq<char>) -> bool {
    match hint {
        None => true,
        Some(JsonView::Null) => true,
        Some(JsonView::Text(text)) => text::trimmed(text).len() == 0 || (local_path(text) is Some
            && within(cwd, local_path(text)->0)),
        Some(_) => false,
    }
}

/// The hint that the global state has for a thread.
pub open spec fn hint_of(snapshot: SnapshotView, id: Seq<char>) -> Option<JsonView> {
    let hints = snapshot.global_state.thread_workspace_root_hints;
    if hints.dom().contains(id) {
        Some(hints[id])
    } else {
        None
    }
}

/// The directory that the rollout of a thread records, in the form in which paths are compared.
pub open spec fn rollout_directory(snapshot: SnapshotView, id: Seq<char>) -> Option<Seq<char>> {
    if snapshot.rollout_cwds.dom().contains(id) {
        local_path(snapshot.rollout_cwds[id])
    } else {
        None
    }
}

/// What the directories recorded for a thread say of its workspace.
pub open spec fn resolution(
    snapshot: SnapshotView,
    existing: Set<Seq<char>>,
    thread: ThreadRowView,
) -> WorkspaceResolutionView {
    let state_cwd = local_path(thread.cwd);
    let rollout_cwd = rollout_directory(snapshot, thread.id);
    let rows = local_rows_of(snapshot.catalog, thread.id);
    let hint = hint_of(snapshot, thread.id);
    let root = saved_root(snapshot.global_state, existing, thread.cwd);
    if state_cwd is None || rollout_cwd is None || rows.len() > 1 {
        WorkspaceResolutionView::Conflict
    } else if rows.len() == 1 && local_path(rows[0].cwd) != state_cwd {
        WorkspaceResolutionView::Conflict
    } else if state_cwd == rollout_cwd {
        if hint_compatible(hint, state_cwd->0) {
            WorkspaceResolutionView::Stable
        } else {
            WorkspaceResolutionView::Conflict
        }
    } else if rows.len() == 0 || root is None {
        WorkspaceResolutionView::Conflict
    } else {
        match hint {
            Some(JsonView::Text(text)) if text::trimmed(text).len() > 0 => if local_path(text)
                == local_path(root->0) {
                WorkspaceResolutionView::Stable
            } else {
                WorkspaceResolutionView::Conflict
            },
            None | Some(JsonView::Null) | Some(JsonView::Text(_)) => WorkspaceResolutionView::HintUpdate(
                WorkspaceHintUpdateView {
                    thread_id: thread.id,
                    expected_hint: hint,
                    workspace_root: root->0,
                },
            ),
            Some(_) => WorkspaceResolutionView::Conflict,
        }
    }
}

fn is_compatible_hint(hint: &Option<Json>, cwd: &str) -> (r: bool)
    ensures
        r == hint_compatible(hint.deep_view(), cwd@),
{
    match hint {
        None => true,
        Some(Json::Null) => true,
        Some(Json::Text(text)) => if is_blank(text.as_str()) {
            true
        } else {
            match normalized_local_windows_path(text.as_str()) {
                Some(root) => lies_within(cwd, root.as_str()),
                None => false,
            }
        },
        Some(_) => false,
    }
}

/// Decides what the directories recorded for a thread say of its workspace. `existing_roots` are
/// the saved workspace roots that are directories.
pub fn workspace_resolution(
    snapshot: &Snapshot,
    existing_roots: &OrderedSet<String>,
    thread: &ThreadRow,
) -> (r: WorkspaceResolution)
    ensures
        r.deep_view() == resolution(
            snapshot.deep_view(),
            existing_roots.deep_view(),
            thread.deep_view(),
        ),
{
    let state_cwd = match normalized_local_windows_path(thread.cwd.as_str()) {
        Some(cwd) => cwd,
        None => {
            return WorkspaceResolution::Conflict;
        },
    };
    let recorded = match snapshot.rollout_cwds.get(&thread.id) {
        Some(cwd) => normalized_local_windows_path(cwd.as_str()),
        None => None,
    };
    let rollout_cwd = match recorded {
        Some(cwd) => cwd,
        None => {
            return WorkspaceResolution::Conflict;
        },
    };
    let rows = collect_local_rows(&snapshot.catalog, &thread.id);
    let ghost row_views = rows.deep_view();
    if rows.len() > 1 {
        return WorkspaceResolution::Conflict;
    }
    if rows.len() == 1 {
        assert(row_views[0] == rows@[0].deep_view());
        match normalized_local_windows_path(rows[0].cwd.as_str()) {
            Some(cwd) => {
                if !cwd.same_as(&state_cwd) {
                    return WorkspaceResolution::Conflict;
                }
            },
            None => {
                return WorkspaceResolution::Conflict;
            },
        }
    }
    let expected_hint: Option<Json> = match snapshot.global_state.thread_workspace_root_hints.get(
        &thread.id,
    ) {
        Some(hint) => Some(hint.copy_of()),
        None => None,
    };
    if state_cwd.same_as(&rollout_cwd) {
        return if is_compatible_hint(&expected_hint, state_cwd.as_str()) {
            WorkspaceResolution::Stable
        } else {
            WorkspaceResolution::Conflict
        };
    }
    if rows.len() == 0 {
        return WorkspaceResolution::Conflict;
    }
    let workspace_root = match unique_saved_workspace_root(
        &snapshot.global_state,
        existing_roots,
        thread.cwd.as_str(),
    ) {
        Some(root) => root,
        None => {
            return WorkspaceResolution::Conflict;
        },
    };
    let blank = match &expected_hint {
        None => true,
        Some(Json::Null) => true,
        Some(Json::Text(text)) => if is_blank(text.as_str()) {
            true
        } else {
            let hinted = normalized_local_windows_path(text.as_str());
            return if hinted.same_as(&normalized_local_windows_path(workspace_root.as_str())) {
                WorkspaceResolution::Stable
            } else {
                WorkspaceResolution::Conflict
            };
        },
        Some(_) => false,
    };
    if blank {
        WorkspaceResolution::HintUpdate(
            WorkspaceHintUpdate { thread_id: thread.id.copy_of(), expected_hint, workspace_root },
        )
    } else {
        WorkspaceResolution::Conflict
    }
}

/// The rollout of a thread says that a program started the session.
pub open spec fn automated_rollout(snapshot: SnapshotView, id: Seq<char>) -> bool {
    ||| snapshot.rollout_sources.dom().contains(id) && nonordinary(snapshot.rollout_sources[id])
    ||| snapshot.rollout_thread_sources.dom().contains(id) && nonordinary(
        snapshot.rollout_thread_sources[id],
    )
}

/// Whether the rollout of a thread says that a program started the session.
pub fn rollout_source_not_ordinary(snapshot: &Snapshot, thread_id: &String) -> (r: bool)
    ensures
        r == automated_rollout(snapshot.deep_view(), thread_id@),
{
    let by_source = match snapshot.rollout_sources.get(thread_id) {
        Some(value) => source_value_is_nonordinary(value),
        None => false,
    };
    by_source || match snapshot.rollout_thread_sources.get(thread_id) {
        Some(value) => source_value_is_nonordinary(value),
        None => false,
    }
}

/// What names another machine does so wherever it is nested in objects and arrays, and an object or
/// an array names another machine only through something in it; the same of what says that a
/// program started a session.
pub proof fn law_markers_count_wherever_nested(
    members: Seq<(Seq<char>, JsonView)>,
    items: Seq<JsonView>,
    at: int,
)
    ensures
        0 <= at < items.len() && remote_json(items[at]) ==> remote_json(JsonView::Array(items)),
        0 <= at < items.len() && nonordinary(items[at]) ==> nonordinary(JsonView::Array(items)),
        0 <= at < members.len() && (members[at].1 is Object || members[at].1 is Array)
            && remote_json(members[at].1) ==> remote_json(JsonView::Object(members)),
        0 <= at < members.len() && (members[at].1 is Object || members[at].1 is Array)
            && nonordinary(members[at].1) ==> nonordinary(JsonView::Object(members)),
        0 <= at < members.len() && folded(members[at].0) == "remote"@ && members[at].1
            == JsonView::Bool(true) ==> remote_json(JsonView::Object(members)),
        0 <= at < members.len() && (folded(members[at].0) == "hostid"@ || folded(members[at].0)
            == "remoteauthority"@) && members[at].1 is Text && text::trimmed(
            members[at].1->Text_0,
        ).len() > 0 && text::lowered(members[at].1->Text_0) != text::lowered("local"@)
            ==> remote_json(JsonView::Object(members)),
        0 <= at < members.len() && (folded(members[at].0) == "subagent"@ || folded(members[at].0)
            == "automation"@ || folded(members[at].0) == "parentthreadid"@ || folded(
            members[at].0,
        ) == "threadspawn"@ || folded(members[at].0) == "ephemeral"@) && members[at].1
            != JsonView::Null && members[at].1 != JsonView::Bool(false) ==> nonordinary(
            JsonView::Object(members),
        ),
        !remote_json(JsonView::Null),
        !nonordinary(JsonView::Null),
        forall|b: bool| !(#[trigger] remote_json(JsonView::Bool(b))),
        forall|b: bool| !(#[trigger] nonordinary(JsonView::Bool(b))),
        members.len() == 0 ==> !remote_json(JsonView::Object(members)) && !nonordinary(
            JsonView::Object(members),
        ),
        items.len() == 0 ==> !remote_json(JsonView::Array(items)) && !nonordinary(
            JsonView::Array(items),
        ),
{
    let list = JsonView::Array(items);
    if 0 <= at < items.len() && remote_json(items[at]) {
        reveal_with_fuel(remote_json, 2);
        let inner = list->Array_0;
        assert(0 <= at < inner.len() && remote_json(inner[at]));
        assert(exists|i: int| 0 <= i < inner.len() && remote_json(#[trigger] inner[i]));
        assert(remote_json(list));
    }
    if 0 <= at < items.len() && nonordinary(items[at]) {
        reveal_with_fuel(nonordinary, 2);
        let inner = list->Array_0;
        assert(0 <= at < inner.len() && nonordinary(inner[at]));
        assert(exists|i: int| 0 <= i < inner.len() && nonordinary(#[trigger] inner[i]));
        assert(nonordinary(list));
    }
}

proof fn lemma_matching_roots(roots: Seq<Seq<char>>, existing: Set<Seq<char>>, cwd: Seq<char>)
    ensures
        ({
            let found = matching_roots(roots, existing, cwd);
            &&& forall|i: int|
                0 <= i < found.len() ==> roots.contains(#[trigger] found[i]) && root_matches(
                    found[i],
                    existing,
                    cwd,
                )
            &&& forall|i: int|
                0 <= i < roots.len() && root_matches(#[trigger] roots[i], existing, cwd)
                    ==> found.contains(roots[i])
        }),
    decreases roots.len(),
{
    broadcast use vstd::seq_lib::group_seq_properties;

    if roots.len() > 0 {
        let front = roots.drop_last();
        lemma_matching_roots(front, existing, cwd);
        let rest = matching_roots(front, existing, cwd);
        let found = matching_roots(roots, existing, cwd);
        assert(roots =~= front.push(roots.last()));
        assert forall|i: int| 0 <= i < found.len() implies roots.contains(#[trigger] found[i])
            && root_matches(found[i], existing, cwd) by {
            if i < rest.len() {
                assert(front.contains(rest[i]));
            } else {
                assert(roots[roots.len() - 1] == found[i]);
            }
        }
        assert forall|i: int|
            0 <= i < roots.len() && root_matches(
                #[trigger] roots[i],
                existing,
                cwd,
            ) implies found.contains(roots[i]) by {
            if i < front.len() {
                assert(front[i] == roots[i]);
                assert(rest.contains(roots[i]));
            } else {
                assert(found[found.len() - 1] == roots[i]);
            }
        }
    }
}

/// A hint is only ever set to a saved workspace root that exists and holds the directory of the
/// session, where state and catalog name one directory and the rollout another, and where there was
/// no hint; and with the hint set, nothing is left to do.
pub proof fn law_hint_settles_the_workspace(
    snapshot: SnapshotView,
    existing: Set<Seq<char>>,
    thread: ThreadRowView,
)
    requires
        resolution(snapshot, existing, thread) is HintUpdate,
    ensures
        ({
            let update = resolution(snapshot, existing, thread)->HintUpdate_0;
            let rows = local_rows_of(snapshot.catalog, thread.id);
            let after = SnapshotView {
                global_state: GlobalStateSnapshotView {
                    thread_workspace_root_hints:
                        snapshot.global_state.thread_workspace_root_hints.insert(
                        thread.id,
                        JsonView::Text(update.workspace_root),
                    ),
                    ..snapshot.global_state
                },
                ..snapshot
            };
            &&& update.thread_id == thread.id
            &&& update.expected_hint == hint_of(snapshot, thread.id)
            &&& snapshot.global_state.readable
            &&& snapshot.global_state.saved_workspace_roots.contains(update.workspace_root)
            &&& existing.contains(update.workspace_root)
            &&& local_path(thread.cwd) is Some
            &&& local_path(update.workspace_root) is Some
            &&& within(local_path(thread.cwd)->0, local_path(update.workspace_root)->0)
            &&& rows.len() == 1
            &&& local_path(rows[0].cwd) == local_path(thread.cwd)
            &&& rollout_directory(snapshot, thread.id) is Some
            &&& rollout_directory(snapshot, thread.id) != local_path(thread.cwd)
            &&& resolution(after, existing, thread) == WorkspaceResolutionView::Stable
        }),
{
    let cwd = local_path(thread.cwd)->0;
    lemma_matching_roots(snapshot.global_state.saved_workspace_roots, existing, cwd);
    let found = matching_roots(snapshot.global_state.saved_workspace_roots, existing, cwd);
    let root = found[0];
    assert(root_matches(found[0], existing, cwd));
    assert(snapshot.global_state.saved_workspace_roots.contains(found[0]));
    let path = text::replaced(text::trimmed(root), '/', '\\');
    assert(path.len() == text::trimmed(root).len());
    assert(plain_windows_path(root).len() >= 3);
    assert(text::trimmed(root).len() > 0);
}

/// Where state and rollout name one directory, the workspace is stable exactly where the hint, if
/// there is one, is a root of it; and a session with more than one local catalog row, or one that
/// names another directory, is a conflict.
pub proof fn law_conflicting_directories_are_told(
    snapshot: SnapshotView,
    existing: Set<Seq<char>>,
    thread: ThreadRowView,
)
    ensures
        ({
            let found = resolution(snapshot, existing, thread);
            let rows = local_rows_of(snapshot.catalog, thread.id);
            let hint = hint_of(snapshot, thread.id);
            let cwd = local_path(thread.cwd);
            &&& cwd is None || rollout_directory(snapshot, thread.id) is None || rows.len() > 1
                ==> found == WorkspaceResolutionView::Conflict
            &&& rows.len() == 1 && local_path(rows[0].cwd) != cwd ==> found
                == WorkspaceResolutionView::Conflict
            &&& cwd is Some && cwd == rollout_directory(snapshot, thread.id) && (rows.len() == 0
                || (rows.len() == 1 && local_path(rows[0].cwd) == cwd)) ==> {
                &&& !(found is HintUpdate)
                &&& hint is None || hint == Some(JsonView::Null) ==> found
                    == WorkspaceResolutionView::Stable
                &&& hint is Some && hint->0 is Text && text::trimmed(hint->0->Text_0).len() > 0 ==> (
                found == WorkspaceResolutionView::Stable <==> local_path(hint->0->Text_0) is Some
                    && within(cwd->0, local_path(hint->0->Text_0)->0))
            }
            &&& cwd is Some && cwd != rollout_directory(snapshot, thread.id) && rows.len() == 0
                ==> found == WorkspaceResolutionView::Conflict
        }),
{
}

/// A word says that a program started a session, whatever the case and however it is hyphenated,
/// where it is one of eight; and a text names another machine, whatever the case and however it is
/// spaced, where it is the name of a remote kind or begins as the address of a remote place.
pub proof fn law_marker_words(s: Seq<char>)
    ensures
        ({
            let word = text::without(text::lowered(text::trimmed(s)), '-', '_');
            automation_word(s) <==> {
                ||| word == "subagent"@
                ||| word == "automation"@
                ||| word == "automated"@
                ||| word == "scheduled"@
                ||| word == "exec"@
                ||| word == "threadspawn"@
                ||| word == "guardian"@
                ||| word == "pullrequestfixautomation"@
            }
        }),
        ({
            let word = text::without(text::lowered(text::trimmed(s)), ' ', ' ');
            remote_word(s) <==> {
                ||| word == "remote"@
                ||| word == "ssh"@
                ||| word == "ssh-remote"@
                ||| word == "wsl"@
                ||| word == "devcontainer"@
                ||| word == "dev-container"@
                ||| word == "codespaces"@
                ||| text::has_prefix(word, "ssh-remote+"@)
                ||| text::has_prefix(word, "wsl+"@)
                ||| text::has_prefix(word, "dev-container+"@)
                ||| text::has_prefix(word, "devcontainer+"@)
                ||| text::has_prefix(word, "codespaces+"@)
                ||| text::has_prefix(word, "vscode-remote://"@)
                ||| text::has_prefix(word, "ssh://"@)
                ||| text::has_prefix(word, "\\\\wsl$\\"@)
                ||| text::has_prefix(word, "\\\\wsl.localhost\\"@)
            }
        }),
{
}

/// A catalog row belongs to another machine where it stands on another host, where its kind is a
/// remote one, or where its source names another machine, and nowhere else; a state row where one
/// of its two sources does.
pub proof fn law_rows_are_remote_by_host_kind_or_source(row: CatalogRowView, thread: ThreadRowView)
    ensures
        text::lowered(row.host_id) != text::lowered("local"@) ==> remote_row(row),
        text::lowered(text::trimmed(row.source_kind)) == "wsl"@ ==> remote_row(row),
        text::lowered(text::trimmed(row.source_kind)) == "ssh"@ ==> remote_row(row),
        text::lowered(text::trimmed(row.source_kind)) == "remote"@ ==> remote_row(row),
        remote_marker(row.source_detail) ==> remote_row(row),
        text::lowered(row.host_id) == text::lowered("local"@) && !remote_kind(
            text::lowered(text::trimmed(row.source_kind)),
        ) && !remote_marker(row.source_detail) ==> local_row(row),
        remote_thread(thread) <==> remote_marker(thread.source) || remote_marker(
            thread.thread_source,
        ),
        skipped_thread(thread) <==> (thread.agent_role is Some && text::trimmed(
            thread.agent_role->0,
        ).len() > 0) || nonordinary(source_value(thread.source)) || nonordinary(
            source_value(thread.thread_source),
        ),
        forall|value: JsonView|
            #![trigger remote_json(value)]
            json::json_parse(row.source_detail) == Some(value) && remote_json(value)
                ==> remote_marker(row.source_detail),
        json::json_parse(row.source_detail) is None && remote_word(row.source_detail)
            ==> remote_marker(row.source_detail),
{
}

} // verus!

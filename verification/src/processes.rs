//! The processes that hold the databases open, and the applications they belong to.

use crate::model;
use crate::model::Model;
use crate::ordered;
use crate::ordered::{sort_pairs, Ordered};
use crate::sessions;
use crate::text;
use crate::text::{
    compare, decimal, join2, join3, parse_number, same, same_ignoring_case, strip_prefix, to_lower,
    trim_end_separators, Relation,
};
use vstd::prelude::*;

verus! {

/// A process.
#[derive(Clone, Debug, PartialEq, Eq)]
pub struct ProcessIdentity {
    pub pid: u32,
    pub name: String,
    pub path: Option<String>,
    pub started_at: Option<String>,
    pub parent_pid: Option<u32>,
    pub session_id: Option<u32>,
    pub verified: bool,
    pub is_current: bool,
    pub is_ancestor: bool,
}

/// What a `ProcessIdentity` stands for.
#[verifier::ext_equal]
pub struct ProcessIdentityView {
    pub pid: u32,
    pub name: Seq<char>,
    pub path: Option<Seq<char>>,
    pub started_at: Option<Seq<char>>,
    pub parent_pid: Option<u32>,
    pub session_id: Option<u32>,
    pub verified: bool,
    pub is_current: bool,
    pub is_ancestor: bool,
}

impl DeepView for ProcessIdentity {
    type V = ProcessIdentityView;

    open spec fn deep_view(&self) -> ProcessIdentityView {
        ProcessIdentityView {
            pid: self.pid.deep_view(),
            name: self.name.deep_view(),
            path: self.path.deep_view(),
            started_at: self.started_at.deep_view(),
            parent_pid: self.parent_pid.deep_view(),
            session_id: self.session_id.deep_view(),
            verified: self.verified.deep_view(),
            is_current: self.is_current.deep_view(),
            is_ancestor: self.is_ancestor.deep_view(),
        }
    }
}

impl Model for ProcessIdentity {
    fn copy_of(&self) -> (r: Self) {
        ProcessIdentity {
            pid: self.pid.copy_of(),
            name: self.name.copy_of(),
            path: self.path.copy_of(),
            started_at: self.started_at.copy_of(),
            parent_pid: self.parent_pid.copy_of(),
            session_id: self.session_id.copy_of(),
            verified: self.verified.copy_of(),
            is_current: self.is_current.copy_of(),
            is_ancestor: self.is_ancestor.copy_of(),
        }
    }

    fn same_as(&self, other: &Self) -> (r: bool) {
        self.pid.same_as(&other.pid)
            && self.name.same_as(&other.name)
            && self.path.same_as(&other.path)
            && self.started_at.same_as(&other.started_at)
            && self.parent_pid.same_as(&other.parent_pid)
            && self.session_id.same_as(&other.session_id)
            && self.verified.same_as(&other.verified)
            && self.is_current.same_as(&other.is_current)
            && self.is_ancestor.same_as(&other.is_ancestor)
    }
}

/// A process that holds the databases open.
#[derive(Clone, Debug, PartialEq, Eq)]
pub struct BlockingProcess {
    pub identity: ProcessIdentity,
    pub application_type: String,
    pub application_root_pid: Option<u32>,
    pub service_name: Option<String>,
    pub restartable: bool,
    pub close_allowed: bool,
    pub close_reason: String,
}

/// What a `BlockingProcess` stands for.
#[verifier::ext_equal]
pub struct BlockingProcessView {
    pub identity: ProcessIdentityView,
    pub application_type: Seq<char>,
    pub application_root_pid: Option<u32>,
    pub service_name: Option<Seq<char>>,
    pub restartable: bool,
    pub close_allowed: bool,
    pub close_reason: Seq<char>,
}

impl DeepView for BlockingProcess {
    type V = BlockingProcessView;

    open spec fn deep_view(&self) -> BlockingProcessView {
        BlockingProcessView {
            identity: self.identity.deep_view(),
            application_type: self.application_type.deep_view(),
            application_root_pid: self.application_root_pid.deep_view(),
            service_name: self.service_name.deep_view(),
            restartable: self.restartable.deep_view(),
            close_allowed: self.close_allowed.deep_view(),
            close_reason: self.close_reason.deep_view(),
        }
    }
}

impl Model for BlockingProcess {
    fn copy_of(&self) -> (r: Self) {
        BlockingProcess {
            identity: self.identity.copy_of(),
            application_type: self.application_type.copy_of(),
            application_root_pid: self.application_root_pid.copy_of(),
            service_name: self.service_name.copy_of(),
            restartable: self.restartable.copy_of(),
            close_allowed: self.close_allowed.copy_of(),
            close_reason: self.close_reason.copy_of(),
        }
    }

    fn same_as(&self, other: &Self) -> (r: bool) {
        self.identity.same_as(&other.identity)
            && self.application_type.same_as(&other.application_type)
            && self.application_root_pid.same_as(&other.application_root_pid)
            && self.service_name.same_as(&other.service_name)
            && self.restartable.same_as(&other.restartable)
            && self.close_allowed.same_as(&other.close_allowed)
            && self.close_reason.same_as(&other.close_reason)
    }
}

/// A running process of a known program, with what tells it apart from others.
#[derive(Clone, Debug, PartialEq, Eq)]
pub struct VerifiedProcess {
    pub pid: u32,
    pub parent_pid: u32,
    pub name: String,
    pub path: String,
    pub started_at: u64,
    pub session_id: u32,
}

/// What a `VerifiedProcess` stands for.
#[verifier::ext_equal]
pub struct VerifiedProcessView {
    pub pid: u32,
    pub parent_pid: u32,
    pub name: Seq<char>,
    pub path: Seq<char>,
    pub started_at: u64,
    pub session_id: u32,
}

impl DeepView for VerifiedProcess {
    type V = VerifiedProcessView;

    open spec fn deep_view(&self) -> VerifiedProcessView {
        VerifiedProcessView {
            pid: self.pid.deep_view(),
            parent_pid: self.parent_pid.deep_view(),
            name: self.name.deep_view(),
            path: self.path.deep_view(),
            started_at: self.started_at.deep_view(),
            session_id: self.session_id.deep_view(),
        }
    }
}

impl Model for VerifiedProcess {
    fn copy_of(&self) -> (r: Self) {
        VerifiedProcess {
            pid: self.pid.copy_of(),
            parent_pid: self.parent_pid.copy_of(),
            name: self.name.copy_of(),
            path: self.path.copy_of(),
            started_at: self.started_at.copy_of(),
            session_id: self.session_id.copy_of(),
        }
    }

    fn same_as(&self, other: &Self) -> (r: bool) {
        self.pid.same_as(&other.pid)
            && self.parent_pid.same_as(&other.parent_pid)
            && self.name.same_as(&other.name)
            && self.path.same_as(&other.path)
            && self.started_at.same_as(&other.started_at)
            && self.session_id.same_as(&other.session_id)
    }
}

/// A row of the process table.
#[derive(Clone, Debug, PartialEq, Eq)]
pub struct ProcessRow {
    pub pid: u32,
    pub parent_pid: u32,
    pub started_at: Option<u64>,
}

/// What a `ProcessRow` stands for.
#[verifier::ext_equal]
pub struct ProcessRowView {
    pub pid: u32,
    pub parent_pid: u32,
    pub started_at: Option<u64>,
}

impl DeepView for ProcessRow {
    type V = ProcessRowView;

    open spec fn deep_view(&self) -> ProcessRowView {
        ProcessRowView {
            pid: self.pid.deep_view(),
            parent_pid: self.parent_pid.deep_view(),
            started_at: self.started_at.deep_view(),
        }
    }
}

impl Model for ProcessRow {
    fn copy_of(&self) -> (r: Self) {
        ProcessRow {
            pid: self.pid.copy_of(),
            parent_pid: self.parent_pid.copy_of(),
            started_at: self.started_at.copy_of(),
        }
    }

    fn same_as(&self, other: &Self) -> (r: bool) {
        self.pid.same_as(&other.pid)
            && self.parent_pid.same_as(&other.parent_pid)
            && self.started_at.same_as(&other.started_at)
    }
}

/// The kind of an application that holds files open.
#[derive(Clone, Copy, Debug, PartialEq, Eq, Structural)]
pub enum ApplicationKind {
    MainWindow,
    OtherWindow,
    Service,
    Explorer,
    Console,
    Critical,
    Unknown,
}

impl DeepView for ApplicationKind {
    type V = ApplicationKind;

    open spec fn deep_view(&self) -> ApplicationKind {
        *self
    }
}

impl Model for ApplicationKind {
    fn copy_of(&self) -> (r: Self) {
        *self
    }

    fn same_as(&self, other: &Self) -> (r: bool) {
        *self == *other
    }
}

/// The program of a running process.
#[derive(Clone, Debug, PartialEq, Eq)]
pub struct ProgramPath {
    pub path: String,
    pub file_name: Option<String>,
}

/// What a `ProgramPath` stands for.
#[verifier::ext_equal]
pub struct ProgramPathView {
    pub path: Seq<char>,
    pub file_name: Option<Seq<char>>,
}

impl DeepView for ProgramPath {
    type V = ProgramPathView;

    open spec fn deep_view(&self) -> ProgramPathView {
        ProgramPathView {
            path: self.path.deep_view(),
            file_name: self.file_name.deep_view(),
        }
    }
}

impl Model for ProgramPath {
    fn copy_of(&self) -> (r: Self) {
        ProgramPath {
            path: self.path.copy_of(),
            file_name: self.file_name.copy_of(),
        }
    }

    fn same_as(&self, other: &Self) -> (r: bool) {
        self.path.same_as(&other.path)
            && self.file_name.same_as(&other.file_name)
    }
}

/// A process that the system reports as holding the databases open.
#[derive(Clone, Debug, PartialEq, Eq)]
pub struct ReportedOwner {
    pub pid: u32,
    pub started_at: u64,
    /// Its program, if the process is the one that was reported.
    pub program: Option<ProgramPath>,
    /// Its row in the process table: its parent and its name.
    pub table_parent: Option<u32>,
    pub table_name: Option<String>,
    pub application_name: String,
    pub session_id: u32,
    pub kind: ApplicationKind,
    pub service_name: String,
    pub restartable: bool,
}

/// What a `ReportedOwner` stands for.
#[verifier::ext_equal]
pub struct ReportedOwnerView {
    pub pid: u32,
    pub started_at: u64,
    pub program: Option<ProgramPathView>,
    pub table_parent: Option<u32>,
    pub table_name: Option<Seq<char>>,
    pub application_name: Seq<char>,
    pub session_id: u32,
    pub kind: ApplicationKind,
    pub service_name: Seq<char>,
    pub restartable: bool,
}

impl DeepView for ReportedOwner {
    type V = ReportedOwnerView;

    open spec fn deep_view(&self) -> ReportedOwnerView {
        ReportedOwnerView {
            pid: self.pid.deep_view(),
            started_at: self.started_at.deep_view(),
            program: self.program.deep_view(),
            table_parent: self.table_parent.deep_view(),
            table_name: self.table_name.deep_view(),
            application_name: self.application_name.deep_view(),
            session_id: self.session_id.deep_view(),
            kind: self.kind.deep_view(),
            service_name: self.service_name.deep_view(),
            restartable: self.restartable.deep_view(),
        }
    }
}

impl Model for ReportedOwner {
    fn copy_of(&self) -> (r: Self) {
        ReportedOwner {
            pid: self.pid.copy_of(),
            started_at: self.started_at.copy_of(),
            program: self.program.copy_of(),
            table_parent: self.table_parent.copy_of(),
            table_name: self.table_name.copy_of(),
            application_name: self.application_name.copy_of(),
            session_id: self.session_id.copy_of(),
            kind: self.kind.copy_of(),
            service_name: self.service_name.copy_of(),
            restartable: self.restartable.copy_of(),
        }
    }

    fn same_as(&self, other: &Self) -> (r: bool) {
        self.pid.same_as(&other.pid)
            && self.started_at.same_as(&other.started_at)
            && self.program.same_as(&other.program)
            && self.table_parent.same_as(&other.table_parent)
            && self.table_name.same_as(&other.table_name)
            && self.application_name.same_as(&other.application_name)
            && self.session_id.same_as(&other.session_id)
            && self.kind.same_as(&other.kind)
            && self.service_name.same_as(&other.service_name)
            && self.restartable.same_as(&other.restartable)
    }
}

/// What is known of the running processes.
#[derive(Clone, Debug, PartialEq, Eq)]
pub struct ProcessSurvey {
    /// The processes of known programs.
    pub verified: Vec<VerifiedProcess>,
    /// The ancestors of the current process.
    pub ancestors: Vec<u32>,
    pub current_pid: u32,
    pub current_path: Option<String>,
    pub current_session: Option<u32>,
}

/// What a `ProcessSurvey` stands for.
#[verifier::ext_equal]
pub struct ProcessSurveyView {
    pub verified: Seq<VerifiedProcessView>,
    pub ancestors: Seq<u32>,
    pub current_pid: u32,
    pub current_path: Option<Seq<char>>,
    pub current_session: Option<u32>,
}

impl DeepView for ProcessSurvey {
    type V = ProcessSurveyView;

    open spec fn deep_view(&self) -> ProcessSurveyView {
        ProcessSurveyView {
            verified: self.verified.deep_view(),
            ancestors: self.ancestors.deep_view(),
            current_pid: self.current_pid.deep_view(),
            current_path: self.current_path.deep_view(),
            current_session: self.current_session.deep_view(),
        }
    }
}

impl Model for ProcessSurvey {
    fn copy_of(&self) -> (r: Self) {
        ProcessSurvey {
            verified: self.verified.copy_of(),
            ancestors: self.ancestors.copy_of(),
            current_pid: self.current_pid.copy_of(),
            current_path: self.current_path.copy_of(),
            current_session: self.current_session.copy_of(),
        }
    }

    fn same_as(&self, other: &Self) -> (r: bool) {
        self.verified.same_as(&other.verified)
            && self.ancestors.same_as(&other.ancestors)
            && self.current_pid.same_as(&other.current_pid)
            && self.current_path.same_as(&other.current_path)
            && self.current_session.same_as(&other.current_session)
    }
}

/// The order of owners: by name, then by process.
#[derive(Clone, Debug, PartialEq, Eq)]
pub struct OwnerOrder {
    pub name: String,
    pub pid: u32,
}

/// What a `OwnerOrder` stands for.
#[verifier::ext_equal]
pub struct OwnerOrderView {
    pub name: Seq<char>,
    pub pid: u32,
}

impl DeepView for OwnerOrder {
    type V = OwnerOrderView;

    open spec fn deep_view(&self) -> OwnerOrderView {
        OwnerOrderView {
            name: self.name.deep_view(),
            pid: self.pid.deep_view(),
        }
    }
}

impl Model for OwnerOrder {
    fn copy_of(&self) -> (r: Self) {
        OwnerOrder {
            name: self.name.copy_of(),
            pid: self.pid.copy_of(),
        }
    }

    fn same_as(&self, other: &Self) -> (r: bool) {
        self.name.same_as(&other.name)
            && self.pid.same_as(&other.pid)
    }
}

/// The order in which a family is ended: its host first.
#[derive(Clone, Debug, PartialEq, Eq)]
pub struct EndOrder {
    pub child: bool,
    pub pid: u32,
}

/// What a `EndOrder` stands for.
#[verifier::ext_equal]
pub struct EndOrderView {
    pub child: bool,
    pub pid: u32,
}

impl DeepView for EndOrder {
    type V = EndOrderView;

    open spec fn deep_view(&self) -> EndOrderView {
        EndOrderView {
            child: self.child.deep_view(),
            pid: self.pid.deep_view(),
        }
    }
}

impl Model for EndOrder {
    fn copy_of(&self) -> (r: Self) {
        EndOrder {
            child: self.child.copy_of(),
            pid: self.pid.copy_of(),
        }
    }

    fn same_as(&self, other: &Self) -> (r: bool) {
        self.child.same_as(&other.child)
            && self.pid.same_as(&other.pid)
    }
}

impl Ordered for OwnerOrder {
    open spec fn relation_of(a: OwnerOrderView, b: OwnerOrderView) -> Relation {
        if a.name != b.name {
            text::relation(a.name, b.name)
        } else {
            <u32 as Ordered>::relation_of(a.pid, b.pid)
        }
    }

    proof fn order_total(a: OwnerOrderView, b: OwnerOrderView) {
        text::lemma_relation(a.name, b.name);
    }

    proof fn order_transitive(a: OwnerOrderView, b: OwnerOrderView, c: OwnerOrderView) {
        text::lemma_relation(a.name, b.name);
        text::lemma_relation(b.name, c.name);
        text::lemma_relation(a.name, c.name);
        if a.name != b.name && b.name != c.name {
            text::lemma_before_transitive(a.name, b.name, c.name);
        }
    }

    fn order(&self, other: &Self) -> (r: Relation) {
        proof {
            text::lemma_relation(self.name@, other.name@);
        }
        match compare(self.name.as_str(), other.name.as_str()) {
            Relation::Equal => self.pid.order(&other.pid),
            relation => relation,
        }
    }
}

impl Ordered for EndOrder {
    open spec fn relation_of(a: EndOrderView, b: EndOrderView) -> Relation {
        if a.child != b.child {
            if b.child {
                Relation::Less
            } else {
                Relation::Greater
            }
        } else {
            <u32 as Ordered>::relation_of(a.pid, b.pid)
        }
    }

    proof fn order_total(a: EndOrderView, b: EndOrderView) {
    }

    proof fn order_transitive(a: EndOrderView, b: EndOrderView, c: EndOrderView) {
    }

    fn order(&self, other: &Self) -> (r: Relation) {
        if self.child != other.child {
            if other.child {
                Relation::Less
            } else {
                Relation::Greater
            }
        } else {
            self.pid.order(&other.pid)
        }
    }
}

fn holds_pid(pids: &Vec<u32>, pid: u32) -> (r: bool)
    ensures
        r == pids@.contains(pid),
{
    let mut i: usize = 0;
    while i < pids.len()
        invariant
            i <= pids@.len(),
            forall|j: int| 0 <= j < i ==> (#[trigger] pids@[j]) != pid,
        decreases pids@.len() - i,
    {
        if pids[i] == pid {
            return true;
        }
        i += 1;
    }
    false
}

/// The row of a process.
pub open spec fn row_of(rows: Seq<ProcessRowView>, pid: u32) -> Option<ProcessRowView>
    decreases rows.len(),
{
    if rows.len() == 0 {
        None
    } else if rows[0].pid == pid {
        Some(rows[0])
    } else {
        row_of(rows.drop_first(), pid)
    }
}

fn find_row(rows: &Vec<ProcessRow>, pid: u32) -> (r: Option<ProcessRow>)
    ensures
        r.deep_view() == row_of(rows.deep_view(), pid),
{
    let ghost view = rows.deep_view();
    let mut i: usize = 0;
    assert(view.skip(0) =~= view);
    while i < rows.len()
        invariant
            i <= rows@.len(),
            view == rows.deep_view(),
            row_of(view.skip(i as int), pid) == row_of(view, pid),
        decreases rows@.len() - i,
    {
        assert(view.skip(i as int)[0] == view[i as int]);
        assert(view[i as int] == rows@[i as int].deep_view());
        assert(view.skip(i as int).drop_first() =~= view.skip(i + 1));
        if rows[i].pid == pid {
            return Some(rows[i].copy_of());
        }
        i += 1;
    }
    None
}

/// The parent of a process that is still running and older than it.
pub open spec fn true_parent(
    rows: Seq<ProcessRowView>,
    pid: u32,
    started_at: Option<u64>,
) -> Option<(u32, u64)> {
    match row_of(rows, pid) {
        None => None,
        Some(row) => if row.parent_pid == 0 {
            None
        } else {
            match row_of(rows, row.parent_pid) {
                None => None,
                Some(parent) => match parent.started_at {
                    None => None,
                    Some(time) => if started_at is Some && time >= started_at->0 {
                        None
                    } else {
                        Some((row.parent_pid, time))
                    },
                },
            }
        },
    }
}

/// The ancestors of a process beyond those known, at most `steps` of them; none twice.
pub open spec fn ancestors_from(
    rows: Seq<ProcessRowView>,
    pid: u32,
    started_at: Option<u64>,
    known: Seq<u32>,
    steps: nat,
) -> Seq<u32>
    decreases steps,
{
    if steps == 0 {
        known
    } else {
        match true_parent(rows, pid, started_at) {
            None => known,
            Some((parent, time)) => if known.contains(parent) {
                known
            } else {
                ancestors_from(rows, parent, Some(time), known.push(parent), (steps - 1) as nat)
            },
        }
    }
}

/// The ancestors of the current process, nearest first. A process that started after its child, as
/// one whose number was given anew, is no ancestor.
pub fn ancestor_pids(rows: &Vec<ProcessRow>, current_pid: u32, started_at: Option<u64>) -> (r: Vec<
    u32,
>)
    ensures
        r@ == ancestors_from(rows.deep_view(), current_pid, started_at, Seq::empty(), 64),
{
    let ghost view = rows.deep_view();
    let mut out: Vec<u32> = Vec::new();
    let mut pid: u32 = current_pid;
    let mut time: Option<u64> = started_at;
    let mut steps: u32 = 64;
    while steps > 0
        invariant
            view == rows.deep_view(),
            ancestors_from(view, pid, time, out@, steps as nat) == ancestors_from(
                view,
                current_pid,
                started_at,
                Seq::empty(),
                64,
            ),
        decreases steps,
    {
        let parent_pid: u32 = match find_row(rows, pid) {
            None => {
                return out;
            },
            Some(row) => row.parent_pid,
        };
        if parent_pid == 0 {
            return out;
        }
        let parent_time: u64 = match find_row(rows, parent_pid) {
            None => {
                return out;
            },
            Some(parent) => match parent.started_at {
                None => {
                    return out;
                },
                Some(parent_time) => parent_time,
            },
        };
        let younger = match time {
            Some(child_time) => parent_time >= child_time,
            None => false,
        };
        if younger || holds_pid(&out, parent_pid) {
            return out;
        }
        out.push(parent_pid);
        pid = parent_pid;
        time = Some(parent_time);
        steps -= 1;
    }
    out
}

/// A program that may be closed.
pub open spec fn closable_name(name: Seq<char>) -> bool {
    let lower = text::lowered(name);
    ||| lower == "chatgpt.exe"@
    ||| lower == "codex.exe"@
    ||| lower == "codexprovidersync.exe"@
    ||| lower == "codex-plus-plus.exe"@
    ||| lower == "codex-plus-plus-manager.exe"@
    ||| lower == "codexpilot.exe"@
    ||| lower == "codexpilot-manager.exe"@
}

/// Whether a program may be closed.
pub fn allowlisted_name(name: &str) -> (r: bool)
    ensures
        r == closable_name(name@),
{
    let lower = to_lower(name);
    let lower = lower.as_str();
    same(lower, "chatgpt.exe") || same(lower, "codex.exe") || same(lower, "codexprovidersync.exe")
        || same(lower, "codex-plus-plus.exe") || same(lower, "codex-plus-plus-manager.exe") || same(
        lower,
        "codexpilot.exe",
    ) || same(lower, "codexpilot-manager.exe")
}

/// A program and one that it starts as its helper.
pub open spec fn host_and_helper(host: Seq<char>, helper: Seq<char>) -> bool {
    let host = text::lowered(host);
    let helper = text::lowered(helper);
    ||| host == "chatgpt.exe"@ && helper == "codex.exe"@
    ||| host == "codex-plus-plus-manager.exe"@ && helper == "codex-plus-plus.exe"@
    ||| host == "codex-plus-plus-manager.exe"@ && helper == "codexprovidersync.exe"@
    ||| host == "codexpilot-manager.exe"@ && helper == "codexpilot.exe"@
}

/// Whether one program starts another as its helper.
pub fn known_host_child(parent_name: &str, child_name: &str) -> (r: bool)
    ensures
        r == host_and_helper(parent_name@, child_name@),
{
    let host = to_lower(parent_name);
    let host = host.as_str();
    let helper = to_lower(child_name);
    let helper = helper.as_str();
    (same(host, "chatgpt.exe") && same(helper, "codex.exe")) || (same(
        host,
        "codex-plus-plus-manager.exe",
    ) && same(helper, "codex-plus-plus.exe")) || (same(host, "codex-plus-plus-manager.exe") && same(
        helper,
        "codexprovidersync.exe",
    )) || (same(host, "codexpilot-manager.exe") && same(helper, "codexpilot.exe"))
}

/// A letter that can name a drive.
pub open spec fn drive_letter(c: char) -> bool {
    'a' <= c <= 'z' || 'A' <= c <= 'Z'
}

/// A Windows path is taken as it is written: it begins with `\\?\`.
pub open spec fn verbatim(path: Seq<char>) -> bool {
    path.len() >= 4 && path.take(4) == seq!['\\', '\\', '?', '\\']
}

/// The character stands between the parts of a Windows path. In a path that is taken as it is
/// written, only a backslash does.
pub open spec fn breaks(c: char, as_written: bool) -> bool {
    c == '\\' || (!as_written && c == '/')
}

/// Where the part of a path that begins at `from` ends.
pub open spec fn part_end(path: Seq<char>, from: int, as_written: bool) -> int
    decreases path.len() - from,
{
    if 0 <= from < path.len() && !breaks(path[from], as_written) {
        part_end(path, from + 1, as_written)
    } else {
        from
    }
}

/// Where the two parts of a path that begin at `from` end, a server and a share: at the end of the
/// server where there is no share.
pub open spec fn share_end(path: Seq<char>, from: int, as_written: bool) -> int {
    let server = part_end(path, from, as_written);
    if server < path.len() && part_end(path, server + 1, as_written) > server + 1 {
        part_end(path, server + 1, as_written)
    } else {
        server
    }
}

/// How many characters of a Windows path name its drive, its share or its device.
pub open spec fn prefix_length(path: Seq<char>) -> int {
    let n = path.len();
    if n >= 2 && text::separator(path[0]) && text::separator(path[1]) {
        if verbatim(path) {
            if n >= 8 && path.subrange(4, 7) == seq!['U', 'N', 'C'] && text::separator(path[7]) {
                share_end(path, 8, true)
            } else if n >= 6 && drive_letter(path[4]) && path[5] == ':' && (n == 6
                || text::separator(path[6])) {
                6
            } else {
                part_end(path, 4, true)
            }
        } else if n >= 4 && path[2] == '.' && text::separator(path[3]) {
            part_end(path, 4, false)
        } else {
            let server = part_end(path, 2, false);
            let share = share_end(path, 2, false);
            if server > 2 && share > server {
                share
            } else {
                0
            }
        }
    } else if n >= 2 && drive_letter(path[0]) && path[1] == ':' {
        2
    } else {
        0
    }
}

/// How many characters of a Windows path name its drive, its share or its device, and its root.
pub open spec fn head_length(path: Seq<char>) -> int {
    let prefix = prefix_length(path);
    if prefix < path.len() && text::separator(path[prefix]) {
        prefix + 1
    } else {
        prefix
    }
}

/// How many characters of a Windows path stay where its end is tidied: its head, and the `.` that a
/// path without a root begins with.
pub open spec fn firm_length(path: Seq<char>) -> int {
    let head = head_length(path);
    if head < path.len() && !text::separator(path[0]) && head == prefix_length(path) && path[head]
        == '.' && (path.len() == head + 1 || text::separator(path[head + 1])) {
        head + 1
    } else {
        head
    }
}

/// A path without separators and `.` at its end, down to a length. In a path that is taken as it is
/// written, a `.` is a name.
pub open spec fn tidied(path: Seq<char>, firm: int, as_written: bool) -> Seq<char>
    decreases path.len(),
{
    if path.len() > 0 && path.len() > firm && (breaks(path.last(), as_written) || (!as_written
        && path.len() >= 2 && path.last() == '.' && text::separator(path[path.len() - 2]))) {
        tidied(path.drop_last(), firm, as_written)
    } else {
        path
    }
}

/// Where the last part of a path begins, or `head`.
pub open spec fn last_part(path: Seq<char>, head: int, as_written: bool) -> int
    decreases path.len(),
{
    if path.len() == 0 || path.len() <= head || breaks(path.last(), as_written) {
        path.len() as int
    } else {
        last_part(path.drop_last(), head, as_written)
    }
}

/// The directory of what a Windows path names, without separators at its end. A drive, a share, a
/// device, a root and nothing at all are in no directory.
pub open spec fn directory_of(path: Seq<char>) -> Option<Seq<char>> {
    let as_written = verbatim(path);
    let firm = firm_length(path);
    let head = head_length(path);
    let named = tidied(path, firm, as_written);
    if named.len() == head {
        None
    } else {
        Some(
            text::without_end_separators(
                tidied(named.take(last_part(named, head, as_written)), firm, as_written),
            ),
        )
    }
}

/// A path is that of a directory or of something in it.
pub open spec fn lies_in(path: Seq<char>, directory: Seq<char>) -> bool {
    path == directory || match text::after_prefix(path, directory) {
        Some(rest) => rest.len() > 0 && text::separator(rest[0]),
        None => false,
    }
}

/// A program lies in the directory of another, letter case aside.
pub open spec fn in_install_of(host: Seq<char>, path: Seq<char>) -> bool {
    match directory_of(host) {
        None => false,
        Some(directory) => lies_in(text::lowered(path), text::lowered(directory)),
    }
}

fn is_separator(c: char) -> (r: bool)
    ensures
        r == text::separator(c),
{
    c == '\\' || c == '/'
}

fn is_drive_letter(c: char) -> (r: bool)
    ensures
        r == drive_letter(c),
{
    ('a' <= c && c <= 'z') || ('A' <= c && c <= 'Z')
}

fn is_verbatim(path: &Vec<char>) -> (r: bool)
    ensures
        r == verbatim(path@),
{
    if path.len() < 4 {
        return false;
    }
    let r = path[0] == '\\' && path[1] == '\\' && path[2] == '?' && path[3] == '\\';
    assert(r ==> path@.take(4) =~= seq!['\\', '\\', '?', '\\']);
    assert(verbatim(path@) ==> path@.take(4)[0] == '\\' && path@.take(4)[1] == '\\' && path@.take(
        4,
    )[2] == '?' && path@.take(4)[3] == '\\');
    r
}

fn find_part_end(path: &Vec<char>, from: usize, as_written: bool) -> (r: usize)
    requires
        from <= path@.len(),
    ensures
        r == part_end(path@, from as int, as_written),
        from <= r <= path@.len(),
{
    let mut end: usize = from;
    while end < path.len() && path[end] != '\\' && (as_written || path[end] != '/')
        invariant
            from <= end <= path@.len(),
            part_end(path@, from as int, as_written) == part_end(path@, end as int, as_written),
        decreases path@.len() - end,
    {
        end += 1;
    }
    end
}

fn find_share_end(path: &Vec<char>, from: usize, as_written: bool) -> (r: usize)
    requires
        from <= path@.len(),
    ensures
        r == share_end(path@, from as int, as_written),
        from <= r <= path@.len(),
{
    let server: usize = find_part_end(path, from, as_written);
    if server < path.len() {
        let share: usize = find_part_end(path, server + 1, as_written);
        if share > server + 1 {
            return share;
        }
    }
    server
}

fn find_prefix_length(path: &Vec<char>) -> (r: usize)
    ensures
        r == prefix_length(path@),
        r <= path@.len(),
{
    let n: usize = path.len();
    if n >= 2 && is_separator(path[0]) && is_separator(path[1]) {
        if is_verbatim(path) {
            let shared = n >= 8 && path[4] == 'U' && path[5] == 'N' && path[6] == 'C'
                && is_separator(path[7]);
            proof {
                if n >= 8 {
                    let name = path@.subrange(4, 7);
                    assert(name[0] == path@[4] && name[1] == path@[5] && name[2] == path@[6]);
                    if shared {
                        assert(name =~= seq!['U', 'N', 'C']);
                    }
                }
            }
            if shared {
                find_share_end(path, 8, true)
            } else if n >= 6 && is_drive_letter(path[4]) && path[5] == ':' && (n == 6
                || is_separator(path[6])) {
                6
            } else {
                find_part_end(path, 4, true)
            }
        } else if n >= 4 && path[2] == '.' && is_separator(path[3]) {
            find_part_end(path, 4, false)
        } else {
            let server: usize = find_part_end(path, 2, false);
            let share: usize = find_share_end(path, 2, false);
            if server > 2 && share > server {
                share
            } else {
                0
            }
        }
    } else if n >= 2 && is_drive_letter(path[0]) && path[1] == ':' {
        2
    } else {
        0
    }
}

fn tidy(path: &Vec<char>, end: usize, firm: usize, as_written: bool) -> (r: usize)
    requires
        end <= path@.len(),
    ensures
        r <= end,
        path@.take(r as int) == tidied(path@.take(end as int), firm as int, as_written),
{
    let mut r: usize = end;
    while r > 0 && r > firm && (path[r - 1] == '\\' || (!as_written && (path[r - 1] == '/' || (r >= 2
        && path[r - 1] == '.' && is_separator(path[r - 2])))))
        invariant
            r <= end <= path@.len(),
            tidied(path@.take(end as int), firm as int, as_written) == tidied(
                path@.take(r as int),
                firm as int,
                as_written,
            ),
        decreases r,
    {
        assert(path@.take(r as int).drop_last() =~= path@.take(r - 1));
        r -= 1;
    }
    r
}

fn find_last_part(path: &Vec<char>, end: usize, head: usize, as_written: bool) -> (r: usize)
    requires
        end <= path@.len(),
    ensures
        r <= end,
        r == last_part(path@.take(end as int), head as int, as_written),
{
    let mut r: usize = end;
    while r > head && path[r - 1] != '\\' && (as_written || path[r - 1] != '/')
        invariant
            r <= end <= path@.len(),
            last_part(path@.take(end as int), head as int, as_written) == last_part(
                path@.take(r as int),
                head as int,
                as_written,
            ),
        decreases r,
    {
        assert(path@.take(r as int).drop_last() =~= path@.take(r - 1));
        r -= 1;
    }
    r
}

fn find_directory(path: &str) -> (r: Option<String>)
    ensures
        r.deep_view() == directory_of(path@),
{
    let chars = text::chars_of(path);
    let as_written = is_verbatim(&chars);
    let prefix: usize = find_prefix_length(&chars);
    let head: usize = if prefix < chars.len() && is_separator(chars[prefix]) {
        prefix + 1
    } else {
        prefix
    };
    let firm: usize = if head < chars.len() && !is_separator(chars[0]) && head == prefix
        && chars[head] == '.' && (chars.len() == head + 1 || is_separator(chars[head + 1])) {
        head + 1
    } else {
        head
    };
    assert(path@.take(path@.len() as int) =~= path@);
    let end: usize = tidy(&chars, chars.len(), firm, as_written);
    if end == head {
        return None;
    }
    let last: usize = find_last_part(&chars, end, head, as_written);
    assert(path@.take(end as int).take(last as int) =~= path@.take(last as int));
    let above: usize = tidy(&chars, last, firm, as_written);
    let directory = text::substring(path, 0, above);
    assert(directory@ =~= path@.take(above as int));
    Some(trim_end_separators(directory.as_str()))
}

/// Whether a program lies in the directory of another.
pub fn child_is_in_host_install(parent_path: &str, child_path: &str) -> (r: bool)
    ensures
        r == in_install_of(parent_path@, child_path@),
{
    let directory = match find_directory(parent_path) {
        Some(directory) => directory,
        None => {
            return false;
        },
    };
    let directory = to_lower(directory.as_str());
    let child = to_lower(child_path);
    if same(child.as_str(), directory.as_str()) {
        return true;
    }
    match strip_prefix(child.as_str(), directory.as_str()) {
        None => false,
        Some(rest) => {
            let chars = text::chars_of(rest.as_str());
            chars.len() > 0 && (chars[0] == '\\' || chars[0] == '/')
        },
    }
}

/// A process started another as part of the same application: it is its parent, in the same
/// session and not younger, and both are the same program, or the other is its helper from the same
/// directory.
pub open spec fn same_application(parent: VerifiedProcessView, child: VerifiedProcessView) -> bool {
    &&& parent.pid == child.parent_pid
    &&& parent.session_id == child.session_id
    &&& parent.started_at <= child.started_at
    &&& (text::lowered(parent.path) == text::lowered(child.path) || (host_and_helper(
        parent.name,
        child.name,
    ) && in_install_of(parent.path, child.path)))
}

/// Whether a process started another as part of the same application.
pub fn same_application_edge(parent: &VerifiedProcess, child: &VerifiedProcess) -> (r: bool)
    ensures
        r == same_application(parent.deep_view(), child.deep_view()),
{
    parent.pid == child.parent_pid && parent.session_id == child.session_id && parent.started_at
        <= child.started_at && (same_ignoring_case(parent.path.as_str(), child.path.as_str()) || (
    known_host_child(parent.name.as_str(), child.name.as_str()) && child_is_in_host_install(
        parent.path.as_str(),
        child.path.as_str(),
    )))
}

/// The verified process of a number.
pub open spec fn process_of(
    processes: Seq<VerifiedProcessView>,
    pid: u32,
) -> Option<VerifiedProcessView>
    decreases processes.len(),
{
    if processes.len() == 0 {
        None
    } else if processes[0].pid == pid {
        Some(processes[0])
    } else {
        process_of(processes.drop_first(), pid)
    }
}

fn find_process(processes: &Vec<VerifiedProcess>, pid: u32) -> (r: Option<&VerifiedProcess>)
    ensures
        match r {
            Some(process) => process_of(processes.deep_view(), pid) == Some(process.deep_view()),
            None => process_of(processes.deep_view(), pid) is None,
        },
{
    let ghost view = processes.deep_view();
    let mut i: usize = 0;
    assert(view.skip(0) =~= view);
    while i < processes.len()
        invariant
            i <= processes@.len(),
            view == processes.deep_view(),
            process_of(view.skip(i as int), pid) == process_of(view, pid),
        decreases processes@.len() - i,
    {
        assert(view.skip(i as int)[0] == view[i as int]);
        assert(view[i as int] == processes@[i as int].deep_view());
        assert(view.skip(i as int).drop_first() =~= view.skip(i + 1));
        if processes[i].pid == pid {
            return Some(&processes[i]);
        }
        i += 1;
    }
    None
}

/// The host of the application that a process belongs to, at most `steps` parents up: a parent
/// counts unless it is the current process or one of its ancestors.
pub open spec fn host_of(
    survey: ProcessSurveyView,
    process: VerifiedProcessView,
    steps: nat,
) -> VerifiedProcessView
    decreases steps,
{
    if steps == 0 || process.parent_pid == 0 || process.parent_pid == survey.current_pid
        || survey.ancestors.contains(process.parent_pid) {
        process
    } else {
        match process_of(survey.verified, process.parent_pid) {
            None => process,
            Some(parent) => if same_application(parent, process) {
                host_of(survey, parent, (steps - 1) as nat)
            } else {
                process
            },
        }
    }
}

fn find_host(survey: &ProcessSurvey, process: &VerifiedProcess) -> (r: VerifiedProcess)
    ensures
        r.deep_view() == host_of(survey.deep_view(), process.deep_view(), 64),
{
    let ghost view = survey.deep_view();
    let mut host = process.copy_of();
    let mut steps: u32 = 64;
    while steps > 0
        invariant
            view == survey.deep_view(),
            host_of(view, host.deep_view(), steps as nat) == host_of(
                view,
                process.deep_view(),
                64,
            ),
        decreases steps,
    {
        assert(view.ancestors =~= survey.ancestors@);
        if host.parent_pid == 0 || host.parent_pid == survey.current_pid || holds_pid(
            &survey.ancestors,
            host.parent_pid,
        ) {
            return host;
        }
        match find_process(&survey.verified, host.parent_pid) {
            None => {
                return host;
            },
            Some(parent) => {
                if !same_application_edge(parent, &host) {
                    return host;
                }
                host = parent.copy_of();
            },
        }
        steps -= 1;
    }
    host
}

/// A process descends from the host within an application, at most `steps` parents up. The current
/// process and its ancestors never count as descendants.
pub open spec fn descends(
    survey: ProcessSurveyView,
    host: u32,
    process: VerifiedProcessView,
    steps: nat,
) -> bool
    decreases steps,
{
    if process.pid == host {
        true
    } else if steps == 0 || process.pid == survey.current_pid || survey.ancestors.contains(
        process.pid,
    ) {
        false
    } else {
        match process_of(survey.verified, process.parent_pid) {
            None => false,
            Some(parent) => same_application(parent, process) && descends(
                survey,
                host,
                parent,
                (steps - 1) as nat,
            ),
        }
    }
}

fn is_descendant(survey: &ProcessSurvey, host: u32, process: &VerifiedProcess) -> (r: bool)
    ensures
        r == descends(
            survey.deep_view(),
            host,
            process.deep_view(),
            survey.deep_view().verified.len(),
        ),
{
    let ghost view = survey.deep_view();
    let mut current = process.copy_of();
    let mut steps: usize = survey.verified.len();
    loop
        invariant
            view == survey.deep_view(),
            descends(view, host, current.deep_view(), steps as nat) == descends(
                view,
                host,
                process.deep_view(),
                view.verified.len(),
            ),
        decreases steps,
    {
        assert(view.ancestors =~= survey.ancestors@);
        if current.pid == host {
            return true;
        }
        if steps == 0 || current.pid == survey.current_pid || holds_pid(
            &survey.ancestors,
            current.pid,
        ) {
            return false;
        }
        match find_process(&survey.verified, current.parent_pid) {
            None => {
                return false;
            },
            Some(parent) => {
                if !same_application_edge(parent, &current) {
                    return false;
                }
                current = parent.copy_of();
            },
        }
        steps -= 1;
    }
}

/// The descendants of a host, with their numbers.
pub open spec fn members_of(
    survey: ProcessSurveyView,
    host: u32,
    n: nat,
) -> Seq<(u32, VerifiedProcessView)>
    decreases n,
{
    if n == 0 {
        Seq::empty()
    } else {
        let rest = members_of(survey, host, (n - 1) as nat);
        let process = survey.verified[n - 1];
        if descends(survey, host, process, survey.verified.len()) {
            rest.push((process.pid, process))
        } else {
            rest
        }
    }
}

/// The processes of an application, by number.
pub open spec fn family_of(survey: ProcessSurveyView, host: u32) -> Seq<VerifiedProcessView> {
    ordered::sorted_pairs::<u32, VerifiedProcessView>(
        members_of(survey, host, survey.verified.len()),
    ).map_values(|pair: (u32, VerifiedProcessView)| pair.1)
}

fn take_processes(pairs: Vec<(u32, VerifiedProcess)>) -> (r: Vec<VerifiedProcess>)
    ensures
        r.deep_view() == pairs.deep_view().map_values(|pair: (u32, VerifiedProcessView)| pair.1),
{
    let ghost shown = pairs.deep_view();
    let mut out: Vec<VerifiedProcess> = Vec::new();
    let mut i: usize = 0;
    while i < pairs.len()
        invariant
            i <= pairs@.len(),
            shown == pairs.deep_view(),
            out@.len() == i,
            forall|j: int| 0 <= j < i ==> #[trigger] out@[j].deep_view() == shown[j].1,
        decreases pairs@.len() - i,
    {
        assert(shown[i as int] == pairs@[i as int].deep_view());
        out.push(pairs[i].1.copy_of());
        i += 1;
    }
    assert(out.deep_view() =~= shown.map_values(|pair: (u32, VerifiedProcessView)| pair.1));
    out
}

fn find_family(survey: &ProcessSurvey, host: u32) -> (r: Vec<VerifiedProcess>)
    ensures
        r.deep_view() == family_of(survey.deep_view(), host),
{
    let ghost view = survey.deep_view();
    let mut pairs: Vec<(u32, VerifiedProcess)> = Vec::new();
    let mut i: usize = 0;
    assert(pairs.deep_view() =~= members_of(view, host, 0));
    while i < survey.verified.len()
        invariant
            i <= survey.verified@.len(),
            view == survey.deep_view(),
            pairs.deep_view() == members_of(view, host, i as nat),
        decreases survey.verified@.len() - i,
    {
        let ghost before = pairs.deep_view();
        let process = &survey.verified[i];
        assert(view.verified[i as int] == process.deep_view());
        if is_descendant(survey, host, process) {
            pairs.push((process.pid, process.copy_of()));
            assert(pairs.deep_view() =~= before.push((process.pid, process.deep_view())));
        }
        i += 1;
    }
    take_processes(sort_pairs(pairs))
}

/// The application that an owner belongs to, or why it cannot be told.
pub open spec fn application_of(
    owner: BlockingProcessView,
    survey: ProcessSurveyView,
) -> Result<Seq<VerifiedProcessView>, Seq<char>> {
    if owner.identity.path is None {
        Err("process path is unavailable"@)
    } else if owner.identity.started_at is None {
        Err("process start time is unavailable"@)
    } else if text::parsed_number(owner.identity.started_at->0) is None {
        Err("process start time is invalid"@)
    } else {
        match process_of(survey.verified, owner.identity.pid) {
            None => Err("process identity can no longer be verified"@),
            Some(process) => if Some(process.started_at) != text::parsed_number(
                owner.identity.started_at->0,
            ) || text::lowered(process.path) != text::lowered(owner.identity.path->0) {
                Err("process identity changed"@)
            } else {
                Ok(family_of(survey, host_of(survey, process, 64).pid))
            },
        }
    }
}

/// The processes of the application that an owner belongs to, by number, or why they cannot be
/// told.
pub fn verified_application_family(process: &BlockingProcess, survey: &ProcessSurvey) -> (r: Result<
    Vec<VerifiedProcess>,
    String,
>)
    ensures
        model::outcome(r) == application_of(process.deep_view(), survey.deep_view()),
{
    let expected_path = match &process.identity.path {
        None => {
            return Err("process path is unavailable".to_owned());
        },
        Some(path) => path,
    };
    let started_at = match &process.identity.started_at {
        None => {
            return Err("process start time is unavailable".to_owned());
        },
        Some(text) => match parse_number(text.as_str()) {
            None => {
                return Err("process start time is invalid".to_owned());
            },
            Some(started_at) => started_at,
        },
    };
    match find_process(&survey.verified, process.identity.pid) {
        None => Err("process identity can no longer be verified".to_owned()),
        Some(target) => {
            if target.started_at != started_at || !same_ignoring_case(
                target.path.as_str(),
                expected_path.as_str(),
            ) {
                return Err("process identity changed".to_owned());
            }
            let host = find_host(survey, target);
            Ok(find_family(survey, host.pid))
        },
    }
}

/// Some process of a family has the number.
pub open spec fn has_pid(processes: Seq<VerifiedProcessView>, pid: u32) -> bool {
    exists|i: int| 0 <= i < processes.len() && (#[trigger] processes[i]).pid == pid
}

fn family_has_pid(processes: &Vec<VerifiedProcess>, pid: u32) -> (r: bool)
    ensures
        r == has_pid(processes.deep_view(), pid),
{
    let ghost view = processes.deep_view();
    let mut i: usize = 0;
    while i < processes.len()
        invariant
            i <= processes@.len(),
            view == processes.deep_view(),
            forall|j: int| 0 <= j < i ==> (#[trigger] view[j]).pid != pid,
        decreases processes@.len() - i,
    {
        assert(view[i as int] == processes@[i as int].deep_view());
        if processes[i].pid == pid {
            return true;
        }
        i += 1;
    }
    false
}

/// The first process from position `n` on whose parent is not in the family.
pub open spec fn root_from(processes: Seq<VerifiedProcessView>, n: nat) -> Option<u32>
    decreases processes.len() - n,
{
    if n >= processes.len() {
        None
    } else if !has_pid(processes, processes[n as int].parent_pid) {
        Some(processes[n as int].pid)
    } else {
        root_from(processes, n + 1)
    }
}

/// The process that started a family.
pub fn application_root_pid(processes: &Vec<VerifiedProcess>) -> (r: Option<u32>)
    ensures
        r == root_from(processes.deep_view(), 0),
{
    let ghost view = processes.deep_view();
    let mut i: usize = 0;
    while i < processes.len()
        invariant
            i <= processes@.len(),
            view == processes.deep_view(),
            root_from(view, i as nat) == root_from(view, 0),
        decreases processes@.len() - i,
    {
        assert(view[i as int] == processes@[i as int].deep_view());
        if !family_has_pid(processes, processes[i].parent_pid) {
            return Some(processes[i].pid);
        }
        i += 1;
    }
    None
}

/// Processes with each number only where it comes first in a row.
pub open spec fn without_repeats(processes: Seq<VerifiedProcessView>) -> Seq<VerifiedProcessView>
    decreases processes.len(),
{
    if processes.len() == 0 {
        Seq::empty()
    } else {
        let rest = without_repeats(processes.drop_last());
        if processes.len() > 1 && processes[processes.len() - 2].pid == processes.last().pid {
            rest
        } else {
            rest.push(processes.last())
        }
    }
}

fn drop_repeats(processes: &Vec<VerifiedProcess>) -> (r: Vec<VerifiedProcess>)
    ensures
        r.deep_view() == without_repeats(processes.deep_view()),
{
    let ghost view = processes.deep_view();
    let mut out: Vec<VerifiedProcess> = Vec::new();
    let mut i: usize = 0;
    assert(out.deep_view() =~= without_repeats(view.take(0)));
    while i < processes.len()
        invariant
            i <= processes@.len(),
            view == processes.deep_view(),
            out.deep_view() == without_repeats(view.take(i as int)),
        decreases processes@.len() - i,
    {
        let ghost before = out.deep_view();
        let ghost longer = view.take(i + 1);
        assert(view[i as int] == processes@[i as int].deep_view());
        assert(longer.drop_last() =~= view.take(i as int));
        if i > 0 {
            assert(longer[i - 1] == processes@[i - 1].deep_view());
        }
        if !(i > 0 && processes[i - 1].pid == processes[i].pid) {
            out.push(processes[i].copy_of());
            assert(out.deep_view() =~= before.push(view[i as int]));
        }
        i += 1;
    }
    assert(view.take(i as int) =~= view);
    out
}

/// The host of a family and the owners in it, with their numbers.
pub open spec fn targets_of(
    processes: Seq<VerifiedProcessView>,
    root: Option<u32>,
    owners: Seq<u32>,
) -> Seq<(u32, VerifiedProcessView)>
    decreases processes.len(),
{
    if processes.len() == 0 {
        Seq::empty()
    } else {
        let rest = targets_of(processes.drop_last(), root, owners);
        let last = processes.last();
        if Some(last.pid) == root || owners.contains(last.pid) {
            rest.push((last.pid, last))
        } else {
            rest
        }
    }
}

/// The processes of a family that are asked to end, by number: its host and the owners.
pub open spec fn shutdown_targets(processes: Seq<VerifiedProcessView>, owners: Seq<u32>) -> Seq<
    VerifiedProcessView,
> {
    without_repeats(
        ordered::sorted_pairs::<u32, VerifiedProcessView>(
            targets_of(processes, root_from(processes, 0), owners),
        ).map_values(|pair: (u32, VerifiedProcessView)| pair.1),
    )
}

/// The processes of a family that are asked to end: its host and the owners.
pub fn restart_manager_targets(
    processes: &Vec<VerifiedProcess>,
    sqlite_owner_pids: &Vec<u32>,
) -> (r: Vec<VerifiedProcess>)
    ensures
        r.deep_view() == shutdown_targets(processes.deep_view(), sqlite_owner_pids@),
{
    let ghost view = processes.deep_view();
    let root = application_root_pid(processes);
    let mut pairs: Vec<(u32, VerifiedProcess)> = Vec::new();
    let mut i: usize = 0;
    assert(pairs.deep_view() =~= targets_of(view.take(0), root, sqlite_owner_pids@));
    while i < processes.len()
        invariant
            i <= processes@.len(),
            view == processes.deep_view(),
            pairs.deep_view() == targets_of(view.take(i as int), root, sqlite_owner_pids@),
        decreases processes@.len() - i,
    {
        let ghost before = pairs.deep_view();
        let process = &processes[i];
        assert(view[i as int] == process.deep_view());
        assert(view.take(i + 1).drop_last() =~= view.take(i as int));
        let is_root = match root {
            Some(pid) => pid == process.pid,
            None => false,
        };
        if is_root || holds_pid(sqlite_owner_pids, process.pid) {
            pairs.push((process.pid, process.copy_of()));
            assert(pairs.deep_view() =~= before.push((process.pid, process.deep_view())));
        }
        i += 1;
    }
    assert(view.take(i as int) =~= view);
    let sorted = take_processes(sort_pairs(pairs));
    drop_repeats(&sorted)
}

/// The place of each process in the order in which a family is ended.
pub open spec fn end_places(processes: Seq<VerifiedProcessView>) -> Seq<(EndOrderView, usize)> {
    Seq::new(
        processes.len(),
        |i: int|
            (
                EndOrderView {
                    child: has_pid(processes, processes[i].parent_pid),
                    pid: processes[i].pid,
                },
                i as usize,
            ),
    )
}

/// The positions of the processes of a family in the order in which they are ended: those whose
/// parent is not in the family first, then by number.
pub open spec fn end_order(processes: Seq<VerifiedProcessView>) -> Seq<usize> {
    ordered::sorted_pairs::<EndOrder, usize>(end_places(processes)).map_values(
        |pair: (EndOrderView, usize)| pair.1,
    )
}

/// The positions of the processes of a family in the order in which they are ended.
pub fn family_termination_order(processes: &Vec<VerifiedProcess>) -> (r: Vec<usize>)
    ensures
        r@ == end_order(processes.deep_view()),
{
    let ghost view = processes.deep_view();
    let mut pairs: Vec<(EndOrder, usize)> = Vec::new();
    let mut i: usize = 0;
    while i < processes.len()
        invariant
            i <= processes@.len(),
            view == processes.deep_view(),
            pairs@.len() == i,
            forall|j: int|
                0 <= j < i ==> #[trigger] pairs@[j].deep_view() == end_places(view)[j],
        decreases processes@.len() - i,
    {
        let process = &processes[i];
        assert(view[i as int] == process.deep_view());
        let key = EndOrder {
            child: family_has_pid(processes, process.parent_pid),
            pid: process.pid,
        };
        pairs.push((key, i));
        i += 1;
    }
    assert(pairs.deep_view() =~= end_places(view));
    let sorted = sort_pairs(pairs);
    let ghost shown = sorted.deep_view();
    let mut out: Vec<usize> = Vec::new();
    let mut k: usize = 0;
    while k < sorted.len()
        invariant
            k <= sorted@.len(),
            shown == sorted.deep_view(),
            out@.len() == k,
            forall|j: int| 0 <= j < k ==> #[trigger] out@[j] == shown[j].1,
        decreases sorted@.len() - k,
    {
        assert(shown[k as int] == sorted@[k as int].deep_view());
        out.push(sorted[k].1);
        k += 1;
    }
    assert(out@ =~= end_order(view));
    out
}

/// An owner is a process of a family, or the same program started anew: in the same session, with
/// the same path, or the same name where its path is unknown.
pub open spec fn belongs_to(
    owner: BlockingProcessView,
    family: Seq<VerifiedProcessView>,
) -> bool {
    exists|i: int|
        0 <= i < family.len() && is_program_of(owner, #[trigger] family[i])
}

/// An owner runs the program of a process in its session.
pub open spec fn is_program_of(owner: BlockingProcessView, process: VerifiedProcessView) -> bool {
    owner.identity.session_id == Some(process.session_id) && match owner.identity.path {
        Some(path) => text::lowered(path) == text::lowered(process.path),
        None => text::lowered(owner.identity.name) == text::lowered(process.name),
    }
}

/// Whether an owner is a process of a family, or the same program started anew.
pub fn same_application_blocker(blocker: &BlockingProcess, family: &Vec<VerifiedProcess>) -> (r:
    bool)
    ensures
        r == belongs_to(blocker.deep_view(), family.deep_view()),
{
    let ghost view = family.deep_view();
    let mut i: usize = 0;
    while i < family.len()
        invariant
            i <= family@.len(),
            view == family.deep_view(),
            forall|j: int| 0 <= j < i ==> !is_program_of(blocker.deep_view(), #[trigger] view[j]),
        decreases family@.len() - i,
    {
        let process = &family[i];
        assert(view[i as int] == process.deep_view());
        let same_session = match blocker.identity.session_id {
            Some(session) => session == process.session_id,
            None => false,
        };
        let same_program = match &blocker.identity.path {
            Some(path) => same_ignoring_case(path.as_str(), process.path.as_str()),
            None => same_ignoring_case(blocker.identity.name.as_str(), process.name.as_str()),
        };
        if same_session && same_program {
            return true;
        }
        i += 1;
    }
    false
}

/// The name of a kind of application.
pub open spec fn kind_name(kind: ApplicationKind) -> Seq<char> {
    match kind {
        ApplicationKind::MainWindow => "main-window"@,
        ApplicationKind::OtherWindow => "other-window"@,
        ApplicationKind::Service => "service"@,
        ApplicationKind::Explorer => "explorer"@,
        ApplicationKind::Console => "console"@,
        ApplicationKind::Critical => "critical"@,
        ApplicationKind::Unknown => "unknown"@,
    }
}

/// The name of a kind of application.
pub fn app_type_name(kind: ApplicationKind) -> (r: String)
    ensures
        r@ == kind_name(kind),
{
    let name = match kind {
        ApplicationKind::MainWindow => "main-window",
        ApplicationKind::OtherWindow => "other-window",
        ApplicationKind::Service => "service",
        ApplicationKind::Explorer => "explorer",
        ApplicationKind::Console => "console",
        ApplicationKind::Critical => "critical",
        ApplicationKind::Unknown => "unknown",
    };
    name.to_owned()
}

/// The name of an owner: that of its program, else that in the process table, else that of the
/// application.
pub open spec fn owner_name(owner: ReportedOwnerView) -> Seq<char> {
    if owner.program is Some && owner.program->0.file_name is Some {
        owner.program->0.file_name->0
    } else {
        match owner.table_name {
            Some(name) => name,
            None => owner.application_name,
        }
    }
}

fn find_owner_name(owner: &ReportedOwner) -> (r: String)
    ensures
        r@ == owner_name(owner.deep_view()),
{
    match &owner.program {
        Some(program) => {
            match &program.file_name {
                Some(name) => {
                    return name.copy_of();
                },
                None => {},
            }
        },
        None => {},
    }
    match &owner.table_name {
        Some(name) => name.copy_of(),
        None => owner.application_name.copy_of(),
    }
}

/// An owner runs the current program.
pub open spec fn runs_current_program(owner: ReportedOwnerView, survey: ProcessSurveyView) -> bool {
    owner.program is Some && survey.current_path is Some && text::lowered(owner.program->0.path)
        == text::lowered(survey.current_path->0)
}

/// Why an owner may be closed, or may not.
pub open spec fn close_reason(owner: ReportedOwnerView, survey: ProcessSurveyView) -> Seq<char> {
    if owner.pid == survey.current_pid || runs_current_program(owner, survey) {
        "Provider Hub processes are never closed"@
    } else if survey.ancestors.contains(owner.pid) {
        "ancestor processes are protected"@
    } else if owner.kind == ApplicationKind::Service || owner.kind == ApplicationKind::Critical
        || owner.kind == ApplicationKind::Explorer {
        "services, critical processes, and Explorer are protected"@
    } else if survey.current_session != Some(owner.session_id) {
        "process belongs to another Windows session"@
    } else if owner.program is None {
        "process path and start time could not be verified"@
    } else if !closable_name(owner_name(owner)) {
        "process is not in the Codex close allowlist"@
    } else {
        "verified SQLite owner"@
    }
}

/// An owner may be closed: it is not of this program, no ancestor of it, nothing that the system
/// needs, in the same session, verified, and of a program that may be closed.
pub open spec fn close_allowed(owner: ReportedOwnerView, survey: ProcessSurveyView) -> bool {
    &&& owner.pid != survey.current_pid
    &&& !runs_current_program(owner, survey)
    &&& !survey.ancestors.contains(owner.pid)
    &&& owner.kind != ApplicationKind::Service
    &&& owner.kind != ApplicationKind::Critical
    &&& owner.kind != ApplicationKind::Explorer
    &&& survey.current_session == Some(owner.session_id)
    &&& owner.program is Some
    &&& closable_name(owner_name(owner))
}

/// The owner as it is listed, but for the application that it belongs to.
pub open spec fn listed_owner(
    owner: ReportedOwnerView,
    survey: ProcessSurveyView,
) -> BlockingProcessView {
    BlockingProcessView {
        identity: ProcessIdentityView {
            pid: owner.pid,
            name: owner_name(owner),
            path: match owner.program {
                Some(program) => Some(program.path),
                None => None,
            },
            started_at: Some(text::decimal_text(owner.started_at as nat)),
            parent_pid: owner.table_parent,
            session_id: Some(owner.session_id),
            verified: owner.program is Some,
            is_current: owner.pid == survey.current_pid,
            is_ancestor: survey.ancestors.contains(owner.pid),
        },
        application_type: kind_name(owner.kind),
        application_root_pid: None,
        service_name: if owner.service_name.len() == 0 {
            None
        } else {
            Some(owner.service_name)
        },
        restartable: owner.restartable,
        close_allowed: close_allowed(owner, survey),
        close_reason: close_reason(owner, survey),
    }
}

fn list_owner(owner: &ReportedOwner, survey: &ProcessSurvey) -> (r: BlockingProcess)
    ensures
        r.deep_view() == listed_owner(owner.deep_view(), survey.deep_view()),
{
    assert(survey.deep_view().ancestors =~= survey.ancestors@);
    let name = find_owner_name(owner);
    let is_current = owner.pid == survey.current_pid;
    let is_ancestor = holds_pid(&survey.ancestors, owner.pid);
    let same_program = match (&owner.program, &survey.current_path) {
        (Some(program), Some(current)) => same_ignoring_case(
            program.path.as_str(),
            current.as_str(),
        ),
        _ => false,
    };
    let same_session = match survey.current_session {
        Some(session) => session == owner.session_id,
        None => false,
    };
    let protected_kind = owner.kind == ApplicationKind::Service || owner.kind
        == ApplicationKind::Critical || owner.kind == ApplicationKind::Explorer;
    let verified = owner.program.is_some();
    let closable = allowlisted_name(name.as_str());
    let close_reason = if is_current || same_program {
        "Provider Hub processes are never closed"
    } else if is_ancestor {
        "ancestor processes are protected"
    } else if protected_kind {
        "services, critical processes, and Explorer are protected"
    } else if !same_session {
        "process belongs to another Windows session"
    } else if !verified {
        "process path and start time could not be verified"
    } else if !closable {
        "process is not in the Codex close allowlist"
    } else {
        "verified SQLite owner"
    };
    let close_allowed = !is_current && !same_program && !is_ancestor && !protected_kind
        && same_session && verified && closable;
    let path: Option<String> = match &owner.program {
        Some(program) => Some(program.path.copy_of()),
        None => None,
    };
    let service_name: Option<String> = if owner.service_name.as_str().is_empty() {
        None
    } else {
        Some(owner.service_name.copy_of())
    };
    BlockingProcess {
        identity: ProcessIdentity {
            pid: owner.pid,
            name,
            path,
            started_at: Some(decimal(owner.started_at)),
            parent_pid: owner.table_parent,
            session_id: Some(owner.session_id),
            verified,
            is_current,
            is_ancestor,
        },
        application_type: app_type_name(owner.kind),
        application_root_pid: None,
        service_name,
        restartable: owner.restartable,
        close_allowed,
        close_reason: close_reason.to_owned(),
    }
}

/// The owners as they are listed, with their places.
pub open spec fn placed_owners(
    owners: Seq<ReportedOwnerView>,
    survey: ProcessSurveyView,
) -> Seq<(OwnerOrderView, BlockingProcessView)> {
    owners.map_values(
        |owner: ReportedOwnerView|
            (
                OwnerOrderView { name: owner_name(owner), pid: owner.pid },
                listed_owner(owner, survey),
            ),
    )
}

/// Owners with each process only where it comes first in a row.
pub open spec fn distinct_owners(owners: Seq<BlockingProcessView>) -> Seq<BlockingProcessView>
    decreases owners.len(),
{
    if owners.len() == 0 {
        Seq::empty()
    } else {
        let rest = distinct_owners(owners.drop_last());
        if rest.len() > 0 && rest.last().identity.pid == owners.last().identity.pid {
            rest
        } else {
            rest.push(owners.last())
        }
    }
}

/// An owner with the application that it belongs to.
pub open spec fn with_application(
    owner: BlockingProcessView,
    survey: ProcessSurveyView,
) -> BlockingProcessView {
    BlockingProcessView {
        application_root_pid: match application_of(owner, survey) {
            Ok(family) => root_from(family, 0),
            Err(_) => None,
        },
        ..owner
    }
}

/// The processes that hold the databases open, by name and number.
pub open spec fn database_owners(
    owners: Seq<ReportedOwnerView>,
    survey: ProcessSurveyView,
) -> Seq<BlockingProcessView> {
    distinct_owners(
        ordered::sorted_pairs::<OwnerOrder, BlockingProcessView>(
            placed_owners(owners, survey),
        ).map_values(|pair: (OwnerOrderView, BlockingProcessView)| pair.1),
    ).map_values(|owner: BlockingProcessView| with_application(owner, survey))
}

/// Lists the processes that hold the databases open, by name and number, each once, with the
/// application that it belongs to and whether it may be closed.
pub fn blocking_processes(owners: &Vec<ReportedOwner>, survey: &ProcessSurvey) -> (r: Vec<
    BlockingProcess,
>)
    ensures
        r.deep_view() == database_owners(owners.deep_view(), survey.deep_view()),
{
    let ghost view = owners.deep_view();
    let ghost known = survey.deep_view();
    let mut pairs: Vec<(OwnerOrder, BlockingProcess)> = Vec::new();
    let mut i: usize = 0;
    while i < owners.len()
        invariant
            i <= owners@.len(),
            view == owners.deep_view(),
            known == survey.deep_view(),
            pairs@.len() == i,
            forall|j: int|
                0 <= j < i ==> #[trigger] pairs@[j].deep_view() == placed_owners(view, known)[j],
        decreases owners@.len() - i,
    {
        assert(view[i as int] == owners@[i as int].deep_view());
        let listed = list_owner(&owners[i], survey);
        let key = OwnerOrder { name: listed.identity.name.copy_of(), pid: listed.identity.pid };
        pairs.push((key, listed));
        i += 1;
    }
    assert(pairs.deep_view() =~= placed_owners(view, known));
    let sorted = sort_pairs(pairs);
    let ghost shown = sorted.deep_view().map_values(
        |pair: (OwnerOrderView, BlockingProcessView)| pair.1,
    );
    let mut distinct: Vec<BlockingProcess> = Vec::new();
    let mut k: usize = 0;
    assert(distinct.deep_view() =~= distinct_owners(shown.take(0)));
    while k < sorted.len()
        invariant
            k <= sorted@.len(),
            shown == sorted.deep_view().map_values(
                |pair: (OwnerOrderView, BlockingProcessView)| pair.1,
            ),
            distinct.deep_view() == distinct_owners(shown.take(k as int)),
        decreases sorted@.len() - k,
    {
        let ghost before = distinct.deep_view();
        assert(sorted.deep_view()[k as int] == sorted@[k as int].deep_view());
        assert(shown[k as int] == sorted@[k as int].1.deep_view());
        assert(shown.take(k + 1).drop_last() =~= shown.take(k as int));
        let count: usize = distinct.len();
        if count > 0 {
            assert(before.last() == distinct@[count - 1].deep_view());
        }
        if !(count > 0 && distinct[count - 1].identity.pid == sorted[k].1.identity.pid) {
            distinct.push(sorted[k].1.copy_of());
            assert(distinct.deep_view() =~= before.push(shown[k as int]));
        }
        k += 1;
    }
    assert(shown.take(k as int) =~= shown);
    let ghost kept = distinct.deep_view();
    let mut out: Vec<BlockingProcess> = Vec::new();
    let mut m: usize = 0;
    while m < distinct.len()
        invariant
            m <= distinct@.len(),
            known == survey.deep_view(),
            kept == distinct.deep_view(),
            out@.len() == m,
            forall|j: int|
                0 <= j < m ==> #[trigger] out@[j].deep_view() == with_application(kept[j], known),
        decreases distinct@.len() - m,
    {
        assert(kept[m as int] == distinct@[m as int].deep_view());
        let mut owner = distinct[m].copy_of();
        owner.application_root_pid = match verified_application_family(&distinct[m], survey) {
            Ok(family) => application_root_pid(&family),
            Err(_) => None,
        };
        out.push(owner);
        m += 1;
    }
    assert(out.deep_view() =~= database_owners(view, known));
    out
}

/// No process of this program, no ancestor of it and nothing that the system needs is ever offered
/// to be closed.
pub proof fn law_protected_processes_stay(owner: ReportedOwnerView, survey: ProcessSurveyView)
    ensures
        owner.pid == survey.current_pid || survey.ancestors.contains(owner.pid) || owner.kind
            == ApplicationKind::Service || owner.kind == ApplicationKind::Critical || owner.kind
            == ApplicationKind::Explorer || owner.program is None ==> !listed_owner(
            owner,
            survey,
        ).close_allowed,
        listed_owner(owner, survey).close_allowed ==> listed_owner(owner, survey).close_reason
            == "verified SQLite owner"@,
{
}

/// A family holds only its host and processes that are neither the current one nor ancestors of it.
pub proof fn law_family_spares_ancestors(
    survey: ProcessSurveyView,
    host: u32,
    process: VerifiedProcessView,
    steps: nat,
)
    requires
        descends(survey, host, process, steps),
        process.pid != host,
    ensures
        process.pid != survey.current_pid,
        !survey.ancestors.contains(process.pid),
{
}

/// How an attempt to hold on to a process ended.
#[derive(Clone, Debug, PartialEq, Eq)]
pub enum HandleFound {
    /// The process is held; the path of its program.
    Held(String),
    /// It may not be held: the error.
    Denied(String),
    Failed(String),
}

/// What a `HandleFound` stands for.
#[verifier::ext_equal]
pub enum HandleFoundView {
    Held(Seq<char>),
    Denied(Seq<char>),
    Failed(Seq<char>),
}

impl DeepView for HandleFound {
    type V = HandleFoundView;

    open spec fn deep_view(&self) -> HandleFoundView {
        match self {
            HandleFound::Held(value) => HandleFoundView::Held(value.deep_view()),
            HandleFound::Denied(value) => HandleFoundView::Denied(value.deep_view()),
            HandleFound::Failed(value) => HandleFoundView::Failed(value.deep_view()),
        }
    }
}

impl Model for HandleFound {
    fn copy_of(&self) -> (r: Self) {
        match self {
            HandleFound::Held(value) => HandleFound::Held(value.copy_of()),
            HandleFound::Denied(value) => HandleFound::Denied(value.copy_of()),
            HandleFound::Failed(value) => HandleFound::Failed(value.copy_of()),
        }
    }

    fn same_as(&self, other: &Self) -> (r: bool) {
        match (self, other) {
            (HandleFound::Held(value_l), HandleFound::Held(value_r)) => value_l.same_as(value_r),
            (HandleFound::Denied(value_l), HandleFound::Denied(value_r)) => value_l.same_as(value_r),
            (HandleFound::Failed(value_l), HandleFound::Failed(value_r)) => value_l.same_as(value_r),
            _ => false,
        }
    }
}

/// An attempt to hold on to a process.
#[derive(Clone, Debug, PartialEq, Eq)]
pub struct HandleAttempt {
    pub found: HandleFound,
    /// The process still runs after it could not be held.
    pub still_running: bool,
}

/// What a `HandleAttempt` stands for.
#[verifier::ext_equal]
pub struct HandleAttemptView {
    pub found: HandleFoundView,
    pub still_running: bool,
}

impl DeepView for HandleAttempt {
    type V = HandleAttemptView;

    open spec fn deep_view(&self) -> HandleAttemptView {
        HandleAttemptView {
            found: self.found.deep_view(),
            still_running: self.still_running.deep_view(),
        }
    }
}

impl Model for HandleAttempt {
    fn copy_of(&self) -> (r: Self) {
        HandleAttempt {
            found: self.found.copy_of(),
            still_running: self.still_running.copy_of(),
        }
    }

    fn same_as(&self, other: &Self) -> (r: bool) {
        self.found.same_as(&other.found)
            && self.still_running.same_as(&other.still_running)
    }
}

/// Why a process of a family is not held.
pub open spec fn handle_fault(
    process: VerifiedProcessView,
    found: HandleFoundView,
    terminate: bool,
) -> Option<Seq<char>> {
    match found {
        HandleFoundView::Held(path) => if text::lowered(path) == text::lowered(process.path) {
            None
        } else {
            Some(
                "application-group process changed: PID "@ + text::decimal_text(
                    process.pid as nat,
                ),
            )
        },
        HandleFoundView::Denied(error) => if terminate {
            Some(
                "access denied while preparing to terminate PID "@ + text::decimal_text(
                    process.pid as nat,
                )
                    + "; only restart Provider Hub as administrator if that process is elevated"@,
            )
        } else {
            Some(error)
        },
        HandleFoundView::Failed(error) => Some(error),
    }
}

fn find_handle_fault(process: &VerifiedProcess, found: &HandleFound, terminate: bool) -> (r: Option<
    String,
>)
    ensures
        r.deep_view() == handle_fault(process.deep_view(), found.deep_view(), terminate),
{
    match found {
        HandleFound::Held(path) => {
            if same_ignoring_case(path.as_str(), process.path.as_str()) {
                None
            } else {
                Some(
                    join2(
                        "application-group process changed: PID ",
                        decimal(process.pid as u64).as_str(),
                    ),
                )
            }
        },
        HandleFound::Denied(error) => {
            if terminate {
                Some(
                    join3(
                        "access denied while preparing to terminate PID ",
                        decimal(process.pid as u64).as_str(),
                        "; only restart Provider Hub as administrator if that process is elevated",
                    ),
                )
            } else {
                Some(error.copy_of())
            }
        },
        HandleFound::Failed(error) => Some(error.copy_of()),
    }
}

/// A process of a family that must be held: the one that was asked for, and the one that started
/// the family. Others may have ended since.
pub open spec fn must_be_held(
    processes: Seq<VerifiedProcessView>,
    i: int,
    target: u32,
) -> bool {
    processes[i].pid == target || !has_pid(processes, processes[i].parent_pid)
}

/// The positions of the first `n` processes of a family that are held, or why the family cannot be
/// closed.
pub open spec fn held_positions(
    processes: Seq<VerifiedProcessView>,
    attempts: Seq<HandleAttemptView>,
    target: u32,
    terminate: bool,
    n: nat,
) -> Result<Seq<usize>, Seq<char>>
    decreases n,
{
    if n == 0 {
        Ok(Seq::empty())
    } else {
        let i = n - 1;
        match held_positions(processes, attempts, target, terminate, i as nat) {
            Err(message) => Err(message),
            Ok(held) => match handle_fault(processes[i], attempts[i].found, terminate) {
                None => Ok(held.push(i as usize)),
                Some(message) => if must_be_held(processes, i, target) || (terminate
                    && attempts[i].still_running) {
                    Err(message)
                } else {
                    Ok(held)
                },
            },
        }
    }
}

proof fn lemma_handle_error_stays(
    processes: Seq<VerifiedProcessView>,
    attempts: Seq<HandleAttemptView>,
    target: u32,
    terminate: bool,
    n: nat,
    m: nat,
)
    requires
        n <= m,
        held_positions(processes, attempts, target, terminate, n) is Err,
    ensures
        held_positions(processes, attempts, target, terminate, m) == held_positions(
            processes,
            attempts,
            target,
            terminate,
            n,
        ),
    decreases m,
{
    if n < m {
        lemma_handle_error_stays(processes, attempts, target, terminate, n, (m - 1) as nat);
    }
}

/// The positions of the processes of a family that are held, given how each attempt ended, or why
/// the family cannot be closed. A helper that ended since is no reason to give up.
pub fn verified_family_handles(
    processes: &Vec<VerifiedProcess>,
    attempts: &Vec<HandleAttempt>,
    target_pid: u32,
    terminate: bool,
) -> (r: Result<Vec<usize>, String>)
    requires
        processes@.len() == attempts@.len(),
    ensures
        match (
            r,
            held_positions(
                processes.deep_view(),
                attempts.deep_view(),
                target_pid,
                terminate,
                processes@.len(),
            ),
        ) {
            (Ok(held), Ok(wanted)) => held@ == wanted,
            (Err(message), Err(wanted)) => message@ == wanted,
            _ => false,
        },
{
    let ghost view = processes.deep_view();
    let ghost tried = attempts.deep_view();
    let mut held: Vec<usize> = Vec::new();
    let mut i: usize = 0;
    while i < processes.len()
        invariant
            i <= processes@.len() == attempts@.len(),
            view == processes.deep_view(),
            tried == attempts.deep_view(),
            held_positions(view, tried, target_pid, terminate, i as nat) == Ok::<
                Seq<usize>,
                Seq<char>,
            >(held@),
        decreases processes@.len() - i,
    {
        assert(view[i as int] == processes@[i as int].deep_view());
        assert(tried[i as int] == attempts@[i as int].deep_view());
        match find_handle_fault(&processes[i], &attempts[i].found, terminate) {
            None => {
                held.push(i);
            },
            Some(message) => {
                let required = processes[i].pid == target_pid || !family_has_pid(
                    processes,
                    processes[i].parent_pid,
                );
                if required || (terminate && attempts[i].still_running) {
                    proof {
                        lemma_handle_error_stays(
                            view,
                            tried,
                            target_pid,
                            terminate,
                            (i + 1) as nat,
                            processes@.len(),
                        );
                    }
                    return Err(message);
                }
            },
        }
        i += 1;
    }
    Ok(held)
}

/// A process that is held is the one that was verified: its program has the same path.
pub proof fn law_held_process_is_the_verified_one(
    process: VerifiedProcessView,
    found: HandleFoundView,
    terminate: bool,
)
    requires
        handle_fault(process, found, terminate) is None,
    ensures
        found is Held,
        text::lowered(found->Held_0) == text::lowered(process.path),
{
}

/// An owner may be closed exactly where it is not this program, no ancestor, no service, critical
/// process or Explorer, in the same session, verified, and one of seven programs.
pub proof fn law_only_known_owners_may_be_closed(
    owner: ReportedOwnerView,
    survey: ProcessSurveyView,
)
    ensures
        ({
            let listed = listed_owner(owner, survey);
            let name = text::lowered(listed.identity.name);
            &&& listed.close_allowed <==> {
                &&& owner.pid != survey.current_pid
                &&& !(owner.program is Some && survey.current_path is Some && text::lowered(
                    owner.program->0.path,
                ) == text::lowered(survey.current_path->0))
                &&& !survey.ancestors.contains(owner.pid)
                &&& owner.kind != ApplicationKind::Service
                &&& owner.kind != ApplicationKind::Critical
                &&& owner.kind != ApplicationKind::Explorer
                &&& survey.current_session == Some(owner.session_id)
                &&& owner.program is Some
                &&& name == "chatgpt.exe"@ || name == "codex.exe"@ || name
                    == "codexprovidersync.exe"@ || name == "codex-plus-plus.exe"@ || name
                    == "codex-plus-plus-manager.exe"@ || name == "codexpilot.exe"@ || name
                    == "codexpilot-manager.exe"@
            }
            &&& listed.identity.pid == owner.pid
            &&& listed.identity.verified <==> owner.program is Some
            &&& owner.program is Some ==> listed.identity.path == Some(owner.program->0.path)
            &&& owner.program is None ==> listed.identity.path is None
            &&& listed.identity.is_current <==> owner.pid == survey.current_pid
            &&& listed.identity.is_ancestor <==> survey.ancestors.contains(owner.pid)
            &&& listed.identity.session_id == Some(owner.session_id)
            &&& listed.identity.parent_pid == owner.table_parent
            &&& listed.identity.started_at == Some(text::decimal_text(owner.started_at as nat))
            &&& listed.restartable == owner.restartable
            &&& listed.service_name is Some <==> owner.service_name.len() > 0
            &&& owner.program is Some && owner.program->0.file_name is Some ==> listed.identity.name
                == owner.program->0.file_name->0
            &&& !(owner.program is Some && owner.program->0.file_name is Some)
                && owner.table_name is Some ==> listed.identity.name == owner.table_name->0
            &&& !(owner.program is Some && owner.program->0.file_name is Some)
                && owner.table_name is None ==> listed.identity.name == owner.application_name
        }),
{
}

/// A parent counts only where it still runs and started before its child: a number that was given
/// anew is no parent.
pub proof fn law_parents_are_older(rows: Seq<ProcessRowView>, pid: u32, started_at: Option<u64>)
    ensures
        true_parent(rows, pid, started_at) is Some ==> {
            let parent = true_parent(rows, pid, started_at)->0;
            &&& row_of(rows, pid) is Some
            &&& parent.0 == row_of(rows, pid)->0.parent_pid
            &&& parent.0 != 0
            &&& row_of(rows, parent.0) is Some
            &&& row_of(rows, parent.0)->0.started_at == Some(parent.1)
            &&& started_at is Some ==> parent.1 < started_at->0
        },
        row_of(rows, pid) is Some && row_of(rows, pid)->0.parent_pid != 0 && row_of(
            rows,
            row_of(rows, pid)->0.parent_pid,
        ) is Some && row_of(rows, row_of(rows, pid)->0.parent_pid)->0.started_at is Some && (
        started_at is None || row_of(rows, row_of(rows, pid)->0.parent_pid)->0.started_at->0
            < started_at->0) ==> true_parent(rows, pid, started_at) is Some,
{
}

proof fn lemma_row_of(rows: Seq<ProcessRowView>, pid: u32)
    ensures
        row_of(rows, pid) is Some <==> exists|i: int|
            0 <= i < rows.len() && (#[trigger] rows[i]).pid == pid,
        row_of(rows, pid) is Some ==> rows.contains(row_of(rows, pid)->0) && row_of(
            rows,
            pid,
        )->0.pid == pid,
    decreases rows.len(),
{
    if rows.len() > 0 {
        let rest = rows.drop_first();
        lemma_row_of(rest, pid);
        if rows[0].pid != pid {
            if exists|i: int| 0 <= i < rows.len() && (#[trigger] rows[i]).pid == pid {
                let i = choose|i: int| 0 <= i < rows.len() && (#[trigger] rows[i]).pid == pid;
                assert(rest[i - 1] == rows[i]);
            }
            if row_of(rest, pid) is Some {
                let k = choose|k: int| 0 <= k < rest.len() && rest[k] == row_of(rest, pid)->0;
                assert(rows[k + 1] == rest[k]);
            }
        }
    }
}

/// A process is looked up in the table by its number.
pub proof fn law_rows_are_found_by_number(rows: Seq<ProcessRowView>, pid: u32)
    ensures
        row_of(rows, pid) is Some <==> exists|i: int|
            0 <= i < rows.len() && (#[trigger] rows[i]).pid == pid,
        row_of(rows, pid) is Some ==> row_of(rows, pid)->0.pid == pid,
{
    lemma_row_of(rows, pid);
}

/// The ancestors of a process are told once each, at most as many as asked for, and those that were
/// known stay.
pub proof fn law_ancestors_are_told_once(
    rows: Seq<ProcessRowView>,
    pid: u32,
    started_at: Option<u64>,
    known: Seq<u32>,
    steps: nat,
)
    requires
        known.no_duplicates(),
    ensures
        ({
            let told = ancestors_from(rows, pid, started_at, known, steps);
            &&& told.no_duplicates()
            &&& known.len() <= told.len() <= known.len() + steps
            &&& told.take(known.len() as int) == known
            &&& steps > 0 && true_parent(rows, pid, started_at) is Some ==> told.contains(
                (true_parent(rows, pid, started_at)->0).0,
            )
        }),
    decreases steps,
{
    let told = ancestors_from(rows, pid, started_at, known, steps);
    if steps > 0 && true_parent(rows, pid, started_at) is Some {
        let (parent, time) = true_parent(rows, pid, started_at)->0;
        if !known.contains(parent) {
            let more = known.push(parent);
            law_ancestors_are_told_once(rows, parent, Some(time), more, (steps - 1) as nat);
            assert(told.take(known.len() as int) =~= told.take(more.len() as int).take(
                known.len() as int,
            ));
            assert(more.take(known.len() as int) =~= known);
            assert(told.take(more.len() as int)[known.len() as int] == parent);
            assert(told[known.len() as int] == parent);
        } else {
            assert(told.take(known.len() as int) =~= known);
        }
    } else {
        assert(told.take(known.len() as int) =~= known);
    }
}

/// A process belongs to the application of its parent exactly where it was started by it, in the same
/// session and not before it, and is the same program or its helper from the same directory.
pub proof fn law_applications_hold_together(
    parent: VerifiedProcessView,
    child: VerifiedProcessView,
)
    ensures
        same_application(parent, child) ==> parent.pid == child.parent_pid && parent.session_id
            == child.session_id && parent.started_at <= child.started_at,
        same_application(parent, child) && text::lowered(parent.path) != text::lowered(child.path)
            ==> in_install_of(parent.path, child.path) && {
            let host = text::lowered(parent.name);
            let helper = text::lowered(child.name);
            ||| host == "chatgpt.exe"@ && helper == "codex.exe"@
            ||| host == "codex-plus-plus-manager.exe"@ && helper == "codex-plus-plus.exe"@
            ||| host == "codex-plus-plus-manager.exe"@ && helper == "codexprovidersync.exe"@
            ||| host == "codexpilot-manager.exe"@ && helper == "codexpilot.exe"@
        },
        parent.pid == child.parent_pid && parent.session_id == child.session_id && parent.started_at
            <= child.started_at && text::lowered(parent.path) == text::lowered(child.path)
            ==> same_application(parent, child),
        parent.pid == child.parent_pid && parent.session_id == child.session_id && parent.started_at
            <= child.started_at && text::lowered(parent.name) == "chatgpt.exe"@ && text::lowered(
            child.name,
        ) == "codex.exe"@ && in_install_of(parent.path, child.path) ==> same_application(
            parent,
            child,
        ),
{
}

/// An owner whose program, start or number is not what was verified has no application; one that is
/// has the family of its host.
pub proof fn law_changed_owners_have_no_application(
    owner: BlockingProcessView,
    survey: ProcessSurveyView,
)
    ensures
        application_of(owner, survey) is Ok <==> {
            &&& owner.identity.path is Some
            &&& owner.identity.started_at is Some
            &&& text::parsed_number(owner.identity.started_at->0) is Some
            &&& process_of(survey.verified, owner.identity.pid) is Some
            &&& Some(process_of(survey.verified, owner.identity.pid)->0.started_at)
                == text::parsed_number(owner.identity.started_at->0)
            &&& text::lowered(process_of(survey.verified, owner.identity.pid)->0.path)
                == text::lowered(owner.identity.path->0)
        },
        application_of(owner, survey) is Ok ==> application_of(owner, survey)->Ok_0 == family_of(
            survey,
            host_of(survey, process_of(survey.verified, owner.identity.pid)->0, 64).pid,
        ),
{
}

/// A process that could not be held is let go only where it need not be held and, on termination, has
/// ended; and one is held only as the program that was verified.
pub proof fn law_missing_handles_stop_the_close(
    processes: Seq<VerifiedProcessView>,
    attempts: Seq<HandleAttemptView>,
    target: u32,
    terminate: bool,
    n: nat,
)
    requires
        n > 0,
        n <= usize::MAX,
    ensures
        ({
            let before = held_positions(processes, attempts, target, terminate, (n - 1) as nat);
            let after = held_positions(processes, attempts, target, terminate, n);
            let found = attempts[n - 1].found;
            let held = found is Held && text::lowered(found->Held_0) == text::lowered(
                processes[n - 1].path,
            );
            let needed = processes[n - 1].pid == target || !has_pid(
                processes,
                processes[n - 1].parent_pid,
            ) || (terminate && attempts[n - 1].still_running);
            &&& after is Ok <==> before is Ok && (held || !needed)
            &&& after is Ok && held ==> after->Ok_0 == before->Ok_0.push((n - 1) as usize)
            &&& after is Ok && !held ==> after == before
        }),
{
}

proof fn lemma_members(
    survey: ProcessSurveyView,
    host: u32,
    n: nat,
    process: VerifiedProcessView,
)
    requires
        n <= survey.verified.len(),
    ensures
        members_of(survey, host, n).contains((process.pid, process)) <==> exists|i: int|
            0 <= i < n && #[trigger] survey.verified[i] == process && descends(
                survey,
                host,
                process,
                survey.verified.len(),
            ),
        forall|k: int|
            0 <= k < members_of(survey, host, n).len() ==> (
            #[trigger] members_of(survey, host, n)[k]).0 == members_of(survey, host, n)[k].1.pid,
    decreases n,
{
    if n > 0 {
        let less = (n - 1) as nat;
        lemma_members(survey, host, less, process);
        let rest = members_of(survey, host, less);
        let last = survey.verified[n - 1];
        sessions::lemma_push_contains(rest, (last.pid, last), (process.pid, process));
        let all = members_of(survey, host, n);
        assert forall|k: int| 0 <= k < all.len() implies (#[trigger] all[k]).0 == all[k].1.pid by {
            if k < rest.len() {
                assert(all[k] == rest[k]);
            }
        }
        if exists|i: int|
            0 <= i < n && #[trigger] survey.verified[i] == process && descends(
                survey,
                host,
                process,
                survey.verified.len(),
            ) {
            let i = choose|i: int|
                0 <= i < n && #[trigger] survey.verified[i] == process && descends(
                    survey,
                    host,
                    process,
                    survey.verified.len(),
                );
            if i < less {
                assert(rest.contains((process.pid, process)));
            }
        }
        if last == process && descends(survey, host, process, survey.verified.len()) {
            assert(survey.verified[n - 1] == process);
        }
    }
}

/// The family of a host is made of the verified processes that descend from it, by number.
pub proof fn law_family_is_who_descends(
    survey: ProcessSurveyView,
    host: u32,
    process: VerifiedProcessView,
)
    ensures
        family_of(survey, host).contains(process) <==> survey.verified.contains(process)
            && descends(survey, host, process, survey.verified.len()),
        forall|i: int, j: int|
            0 <= i < j < family_of(survey, host).len() ==> (
            #[trigger] family_of(survey, host)[i]).pid <= (#[trigger] family_of(
                survey,
                host,
            )[j]).pid,
{
    let pairs = members_of(survey, host, survey.verified.len());
    let sorted = ordered::sorted_pairs::<u32, VerifiedProcessView>(pairs);
    let family = family_of(survey, host);
    lemma_members(survey, host, survey.verified.len(), process);
    ordered::lemma_sorted_pairs::<u32, VerifiedProcessView>(pairs);
    ordered::lemma_sorted_holds::<u32, VerifiedProcessView>(pairs, (process.pid, process));
    if pairs.contains((process.pid, process)) {
        let k = choose|k: int| 0 <= k < sorted.len() && sorted[k] == (process.pid, process);
        assert(family[k] == process);
    }
    if family.contains(process) {
        let k = choose|k: int| 0 <= k < family.len() && family[k] == process;
        assert(pairs.contains(sorted[k]));
        let m = choose|m: int| 0 <= m < pairs.len() && pairs[m] == sorted[k];
        assert(pairs[m].0 == pairs[m].1.pid);
        assert(pairs[m] == (process.pid, process));
    }
    if survey.verified.contains(process) && descends(
        survey,
        host,
        process,
        survey.verified.len(),
    ) {
        let i = choose|i: int| 0 <= i < survey.verified.len() && survey.verified[i] == process;
        assert(survey.verified[i] == process);
    }
    assert forall|i: int, j: int| 0 <= i < j < family.len() implies (#[trigger] family[i]).pid <= (
    #[trigger] family[j]).pid by {
        assert(u32::relation_of(sorted[j].0, sorted[i].0) != Relation::Less);
        assert(pairs.contains(sorted[i]) && pairs.contains(sorted[j]));
        let a = choose|a: int| 0 <= a < pairs.len() && pairs[a] == sorted[i];
        let b = choose|b: int| 0 <= b < pairs.len() && pairs[b] == sorted[j];
        assert(pairs[a].0 == pairs[a].1.pid && pairs[b].0 == pairs[b].1.pid);
    }
}

proof fn lemma_targets(
    processes: Seq<VerifiedProcessView>,
    root: Option<u32>,
    owners: Seq<u32>,
    process: VerifiedProcessView,
)
    ensures
        targets_of(processes, root, owners).contains((process.pid, process)) <==> processes.contains(
            process,
        ) && (root == Some(process.pid) || owners.contains(process.pid)),
        forall|k: int|
            0 <= k < targets_of(processes, root, owners).len() ==> (
            #[trigger] targets_of(processes, root, owners)[k]).0 == targets_of(
                processes,
                root,
                owners,
            )[k].1.pid,
    decreases processes.len(),
{
    if processes.len() > 0 {
        let front = processes.drop_last();
        lemma_targets(front, root, owners, process);
        let rest = targets_of(front, root, owners);
        let last = processes.last();
        assert(processes =~= front.push(last));
        sessions::lemma_push_contains(front, last, process);
        sessions::lemma_push_contains(rest, (last.pid, last), (process.pid, process));
        let all = targets_of(processes, root, owners);
        assert forall|k: int| 0 <= k < all.len() implies (#[trigger] all[k]).0 == all[k].1.pid by {
            if k < rest.len() {
                assert(all[k] == rest[k]);
            }
        }
    }
}

proof fn lemma_repeats_are_members(processes: Seq<VerifiedProcessView>)
    ensures
        forall|k: int|
            0 <= k < without_repeats(processes).len() ==> processes.contains(
                #[trigger] without_repeats(processes)[k],
            ),
        forall|i: int|
            0 <= i < processes.len() ==> exists|k: int|
                0 <= k < without_repeats(processes).len() && (
                #[trigger] without_repeats(processes)[k]).pid == (#[trigger] processes[i]).pid,
    decreases processes.len(),
{
    if processes.len() > 0 {
        let front = processes.drop_last();
        lemma_repeats_are_members(front);
        let rest = without_repeats(front);
        let all = without_repeats(processes);
        assert forall|k: int| 0 <= k < all.len() implies processes.contains(#[trigger] all[k]) by {
            if k < rest.len() {
                assert(all[k] == rest[k]);
                assert(front.contains(rest[k]));
                let m = choose|m: int| 0 <= m < front.len() && front[m] == rest[k];
                assert(processes[m] == all[k]);
            } else {
                assert(processes[processes.len() - 1] == all[k]);
            }
        }
        assert forall|i: int| 0 <= i < processes.len() implies exists|k: int|
            0 <= k < all.len() && (#[trigger] all[k]).pid == (#[trigger] processes[i]).pid by {
            if i < front.len() {
                assert(front[i] == processes[i]);
                let k = choose|k: int|
                    0 <= k < rest.len() && (#[trigger] rest[k]).pid == front[i].pid;
                assert(all[k] == rest[k]);
            } else if all.len() > rest.len() {
                assert(all[all.len() - 1] == processes[i]);
            } else {
                assert(front[front.len() - 1] == processes[processes.len() - 2]);
                let k = choose|k: int|
                    0 <= k < rest.len() && (#[trigger] rest[k]).pid == front[front.len() - 1].pid;
                assert(all[k] == rest[k]);
            }
        }
    }
}

/// The processes of a family that are asked to end are its host and the owners in it: no other is
/// asked, and each of them is, by number.
pub proof fn law_host_and_owners_are_asked_to_end(
    processes: Seq<VerifiedProcessView>,
    owners: Seq<u32>,
    process: VerifiedProcessView,
)
    ensures
        shutdown_targets(processes, owners).contains(process) ==> processes.contains(process) && (
        root_from(processes, 0) == Some(process.pid) || owners.contains(process.pid)),
        processes.contains(process) && (root_from(processes, 0) == Some(process.pid)
            || owners.contains(process.pid)) ==> exists|k: int|
            0 <= k < shutdown_targets(processes, owners).len() && (
            #[trigger] shutdown_targets(processes, owners)[k]).pid == process.pid,
{
    let pairs = targets_of(processes, root_from(processes, 0), owners);
    let sorted = ordered::sorted_pairs::<u32, VerifiedProcessView>(pairs);
    let listed = sorted.map_values(|pair: (u32, VerifiedProcessView)| pair.1);
    let targets = shutdown_targets(processes, owners);
    lemma_targets(processes, root_from(processes, 0), owners, process);
    ordered::lemma_sorted_pairs::<u32, VerifiedProcessView>(pairs);
    ordered::lemma_sorted_holds::<u32, VerifiedProcessView>(pairs, (process.pid, process));
    lemma_repeats_are_members(listed);
    if targets.contains(process) {
        let k = choose|k: int| 0 <= k < targets.len() && targets[k] == process;
        assert(listed.contains(targets[k]));
        let m = choose|m: int| 0 <= m < listed.len() && listed[m] == process;
        assert(pairs.contains(sorted[m]));
        let i = choose|i: int| 0 <= i < pairs.len() && pairs[i] == sorted[m];
        assert(pairs[i].0 == pairs[i].1.pid);
        assert(pairs[i] == (process.pid, process));
    }
    if pairs.contains((process.pid, process)) {
        let m = choose|m: int| 0 <= m < sorted.len() && sorted[m] == (process.pid, process);
        assert(listed[m] == process);
    }
}

/// A process is ended before those that it started where it comes from outside the family; every
/// process of a family has its place in the order.
pub proof fn law_family_is_ended_from_the_top(processes: Seq<VerifiedProcessView>)
    requires
        processes.len() <= usize::MAX,
    ensures
        end_order(processes).len() == processes.len(),
        forall|k: int|
            0 <= k < processes.len() ==> 0 <= #[trigger] end_order(processes)[k] < processes.len(),
        forall|k: int, m: int|
            0 <= k < m < processes.len() && !has_pid(
                processes,
                processes[(#[trigger] end_order(processes)[m]) as int].parent_pid,
            ) ==> !has_pid(
                processes,
                processes[(#[trigger] end_order(processes)[k]) as int].parent_pid,
            ),
{
    let places = end_places(processes);
    let sorted = ordered::sorted_pairs::<EndOrder, usize>(places);
    let order = end_order(processes);
    ordered::lemma_sorted_pairs::<EndOrder, usize>(places);
    assert forall|k: int| 0 <= k < processes.len() implies 0 <= #[trigger] order[k]
        < processes.len() by {
        assert(places.contains(sorted[k]));
        let i = choose|i: int| 0 <= i < places.len() && places[i] == sorted[k];
        assert(order[k] == i);
    }
    assert forall|k: int, m: int|
        0 <= k < m < processes.len() && !has_pid(
            processes,
            processes[(#[trigger] order[m]) as int].parent_pid,
        ) implies !has_pid(processes, processes[(#[trigger] order[k]) as int].parent_pid) by {
        assert(places.contains(sorted[k]) && places.contains(sorted[m]));
        let i = choose|i: int| 0 <= i < places.len() && places[i] == sorted[k];
        let j = choose|j: int| 0 <= j < places.len() && places[j] == sorted[m];
        assert(order[k] == i && order[m] == j);
        assert(EndOrder::relation_of(sorted[m].0, sorted[k].0) != Relation::Less);
    }
}

/// An owner belongs to a family where it runs one of its programs in the same session: by path where
/// that is known, else by name.
pub proof fn law_owners_belong_by_program(
    owner: BlockingProcessView,
    family: Seq<VerifiedProcessView>,
)
    ensures
        belongs_to(owner, family) <==> exists|i: int|
            0 <= i < family.len() && owner.identity.session_id == Some(
                (#[trigger] family[i]).session_id,
            ) && (if owner.identity.path is Some {
                text::lowered(owner.identity.path->0) == text::lowered(family[i].path)
            } else {
                text::lowered(owner.identity.name) == text::lowered(family[i].name)
            }),
{
    if exists|i: int|
        0 <= i < family.len() && owner.identity.session_id == Some(
            (#[trigger] family[i]).session_id,
        ) && (if owner.identity.path is Some {
            text::lowered(owner.identity.path->0) == text::lowered(family[i].path)
        } else {
            text::lowered(owner.identity.name) == text::lowered(family[i].name)
        }) {
        let i = choose|i: int|
            0 <= i < family.len() && owner.identity.session_id == Some(
                (#[trigger] family[i]).session_id,
            ) && (if owner.identity.path is Some {
                text::lowered(owner.identity.path->0) == text::lowered(family[i].path)
            } else {
                text::lowered(owner.identity.name) == text::lowered(family[i].name)
            });
        assert(is_program_of(owner, family[i]));
    }
}

proof fn lemma_part_begins(path: Seq<char>, head: int, at: int, as_written: bool)
    requires
        0 <= head < at <= path.len(),
        breaks(path[at - 1], as_written),
        forall|i: int| at <= i < path.len() ==> !breaks(#[trigger] path[i], as_written),
    ensures
        last_part(path, head, as_written) == at,
    decreases path.len(),
{
    if path.len() > at {
        let front = path.drop_last();
        assert(path.last() == path[path.len() - 1]);
        assert(front[at - 1] == path[at - 1]);
        assert forall|i: int| at <= i < front.len() implies !breaks(
            #[trigger] front[i],
            as_written,
        ) by {
            assert(path[i] == front[i]);
        }
        lemma_part_begins(front, head, at, as_written);
    } else {
        assert(path.last() == path[at - 1]);
    }
}

/// A program on a drive lies in the directory that its path names before the last separator; the
/// helper of a program lies beside it or below exactly where its path begins with that directory.
pub proof fn law_programs_lie_in_their_directories(directory: Seq<char>, name: Seq<char>)
    requires
        directory.len() > 3,
        drive_letter(directory[0]),
        directory[1] == ':',
        directory[2] == '\\',
        !text::separator(directory.last()),
        directory.last() != '.',
        name.len() > 0,
        name.last() != '.',
        forall|i: int| 0 <= i < name.len() ==> !text::separator(#[trigger] name[i]),
    ensures
        directory_of(directory.push('\\') + name) == Some(directory),
        in_install_of(directory.push('\\') + name, directory.push('\\') + name),
{
    let path = directory.push('\\') + name;
    let at = directory.len() + 1;
    assert(path[0] == directory[0] && path[1] == ':' && path[2] == '\\');
    assert(!text::separator(path[0]));
    assert(!verbatim(path)) by {
        if path.take(4) == seq!['\\', '\\', '?', '\\'] {
            assert(path.take(4)[0] == path[0]);
        }
    }
    assert(prefix_length(path) == 2);
    assert(head_length(path) == 3);
    assert(firm_length(path) == 3);
    assert(path.last() == name.last());
    assert(!text::separator(name[name.len() - 1]));
    assert(tidied(path, 3, false) == path);
    assert(path[at - 1] == '\\');
    assert forall|i: int| at <= i < path.len() implies !breaks(#[trigger] path[i], false) by {
        assert(path[i] == name[i - at]);
    }
    lemma_part_begins(path, 3, at as int, false);
    let up = path.take(at as int);
    assert(up =~= directory.push('\\'));
    assert(up.drop_last() =~= directory);
    assert(tidied(directory, 3, false) == directory);
    assert(tidied(up, 3, false) == tidied(directory, 3, false));
    assert(text::without_end_separators(directory) == directory);
    let low = text::lowered(path);
    let base = text::lowered(directory);
    assert(low.take(base.len() as int) =~= base);
    assert(low.skip(base.len() as int)[0] == text::lower_char('\\'));
    text::law_characters('\\');
}

/// A path lies in a directory where it is that directory or goes on after it with a separator; one
/// that merely begins with the same letters does not.
pub proof fn law_lying_in_a_directory(path: Seq<char>, directory: Seq<char>)
    ensures
        lies_in(directory, directory),
        lies_in(directory.push('\\') + path, directory),
        lies_in(directory.push('/') + path, directory),
        lies_in(path, directory) ==> text::has_prefix(path, directory),
        lies_in(path, directory) && path != directory ==> path.len() > directory.len()
            && text::separator(path[directory.len() as int]),
{
    let below = directory.push('\\') + path;
    let beside = directory.push('/') + path;
    assert(below.take(directory.len() as int) =~= directory);
    assert(beside.take(directory.len() as int) =~= directory);
    assert(below.skip(directory.len() as int)[0] == '\\');
    assert(beside.skip(directory.len() as int)[0] == '/');
    assert(directory.take(directory.len() as int) =~= directory);
    if lies_in(path, directory) && path != directory {
        assert(path.skip(directory.len() as int)[0] == path[directory.len() as int]);
    }
}

} // verus!

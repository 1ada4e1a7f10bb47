//! The lock that keeps operations apart, and what the desktop is asked to open.

use crate::digest;
use crate::digest::hash_bytes;
use crate::model;
use crate::model::Model;
use crate::processes::{BlockingProcess, BlockingProcessView};
use crate::providers;
use crate::text;
use crate::text::{decimal, join2, join4, same, same_ignoring_case, strip_prefix, take_chars, to_lower};
use vstd::prelude::*;

verus! {

/// The state of the lock on operations.
#[derive(Clone, Debug, PartialEq, Eq)]
pub struct OperationLockStatus {
    pub state: String,
    pub path: String,
    pub owner_pid: Option<u32>,
    pub owner_started_at: Option<String>,
    pub command: Option<String>,
    pub age_seconds: Option<u64>,
}

/// What a `OperationLockStatus` stands for.
#[verifier::ext_equal]
pub struct OperationLockStatusView {
    pub state: Seq<char>,
    pub path: Seq<char>,
    pub owner_pid: Option<u32>,
    pub owner_started_at: Option<Seq<char>>,
    pub command: Option<Seq<char>>,
    pub age_seconds: Option<u64>,
}

impl DeepView for OperationLockStatus {
    type V = OperationLockStatusView;

    open spec fn deep_view(&self) -> OperationLockStatusView {
        OperationLockStatusView {
            state: self.state.deep_view(),
            path: self.path.deep_view(),
            owner_pid: self.owner_pid.deep_view(),
            owner_started_at: self.owner_started_at.deep_view(),
            command: self.command.deep_view(),
            age_seconds: self.age_seconds.deep_view(),
        }
    }
}

impl Model for OperationLockStatus {
    fn copy_of(&self) -> (r: Self) {
        OperationLockStatus {
            state: self.state.copy_of(),
            path: self.path.copy_of(),
            owner_pid: self.owner_pid.copy_of(),
            owner_started_at: self.owner_started_at.copy_of(),
            command: self.command.copy_of(),
            age_seconds: self.age_seconds.copy_of(),
        }
    }

    fn same_as(&self, other: &Self) -> (r: bool) {
        self.state.same_as(&other.state)
            && self.path.same_as(&other.path)
            && self.owner_pid.same_as(&other.owner_pid)
            && self.owner_started_at.same_as(&other.owner_started_at)
            && self.command.same_as(&other.command)
            && self.age_seconds.same_as(&other.age_seconds)
    }
}

/// What the holder of the lock wrote.
#[derive(Clone, Debug, PartialEq, Eq)]
pub struct LockMetadata {
    pub pid: u32,
    pub started_at: Option<u64>,
    pub command: String,
    pub created_at: u64,
}

/// What a `LockMetadata` stands for.
#[verifier::ext_equal]
pub struct LockMetadataView {
    pub pid: u32,
    pub started_at: Option<u64>,
    pub command: Seq<char>,
    pub created_at: u64,
}

impl DeepView for LockMetadata {
    type V = LockMetadataView;

    open spec fn deep_view(&self) -> LockMetadataView {
        LockMetadataView {
            pid: self.pid.deep_view(),
            started_at: self.started_at.deep_view(),
            command: self.command.deep_view(),
            created_at: self.created_at.deep_view(),
        }
    }
}

impl Model for LockMetadata {
    fn copy_of(&self) -> (r: Self) {
        LockMetadata {
            pid: self.pid.copy_of(),
            started_at: self.started_at.copy_of(),
            command: self.command.copy_of(),
            created_at: self.created_at.copy_of(),
        }
    }

    fn same_as(&self, other: &Self) -> (r: bool) {
        self.pid.same_as(&other.pid)
            && self.started_at.same_as(&other.started_at)
            && self.command.same_as(&other.command)
            && self.created_at.same_as(&other.created_at)
    }
}

/// What was found of the lock.
#[derive(Clone, Debug, PartialEq, Eq)]
pub enum LockFound {
    /// There is no such file.
    Missing,
    /// Nobody holds it.
    Free,
    /// Someone holds it; what they wrote, if it can be read.
    Held(Option<LockMetadata>),
    /// It cannot be told: why.
    Failed(String),
}

/// What a `LockFound` stands for.
#[verifier::ext_equal]
pub enum LockFoundView {
    Missing,
    Free,
    Held(Option<LockMetadataView>),
    Failed(Seq<char>),
}

impl DeepView for LockFound {
    type V = LockFoundView;

    open spec fn deep_view(&self) -> LockFoundView {
        match self {
            LockFound::Missing => LockFoundView::Missing,
            LockFound::Free => LockFoundView::Free,
            LockFound::Held(value) => LockFoundView::Held(value.deep_view()),
            LockFound::Failed(value) => LockFoundView::Failed(value.deep_view()),
        }
    }
}

impl Model for LockFound {
    fn copy_of(&self) -> (r: Self) {
        match self {
            LockFound::Missing => LockFound::Missing,
            LockFound::Free => LockFound::Free,
            LockFound::Held(value) => LockFound::Held(value.copy_of()),
            LockFound::Failed(value) => LockFound::Failed(value.copy_of()),
        }
    }

    fn same_as(&self, other: &Self) -> (r: bool) {
        match (self, other) {
            (LockFound::Missing, LockFound::Missing) => true,
            (LockFound::Free, LockFound::Free) => true,
            (LockFound::Held(value_l), LockFound::Held(value_r)) => value_l.same_as(value_r),
            (LockFound::Failed(value_l), LockFound::Failed(value_r)) => value_l.same_as(value_r),
            _ => false,
        }
    }
}

/// What keeps an operation from starting.
#[derive(Clone, Debug, PartialEq, Eq)]
pub struct LockSummary {
    pub state: String,
    pub path: String,
    pub owner_pid: Option<u32>,
    pub age_seconds: Option<u64>,
    pub active_processes: Vec<String>,
}

/// What a `LockSummary` stands for.
#[verifier::ext_equal]
pub struct LockSummaryView {
    pub state: Seq<char>,
    pub path: Seq<char>,
    pub owner_pid: Option<u32>,
    pub age_seconds: Option<u64>,
    pub active_processes: Seq<Seq<char>>,
}

impl DeepView for LockSummary {
    type V = LockSummaryView;

    open spec fn deep_view(&self) -> LockSummaryView {
        LockSummaryView {
            state: self.state.deep_view(),
            path: self.path.deep_view(),
            owner_pid: self.owner_pid.deep_view(),
            age_seconds: self.age_seconds.deep_view(),
            active_processes: self.active_processes.deep_view(),
        }
    }
}

impl Model for LockSummary {
    fn copy_of(&self) -> (r: Self) {
        LockSummary {
            state: self.state.copy_of(),
            path: self.path.copy_of(),
            owner_pid: self.owner_pid.copy_of(),
            age_seconds: self.age_seconds.copy_of(),
            active_processes: self.active_processes.copy_of(),
        }
    }

    fn same_as(&self, other: &Self) -> (r: bool) {
        self.state.same_as(&other.state)
            && self.path.same_as(&other.path)
            && self.owner_pid.same_as(&other.owner_pid)
            && self.age_seconds.same_as(&other.age_seconds)
            && self.active_processes.same_as(&other.active_processes)
    }
}

/// What was found of a program that is to be started.
#[derive(Clone, Debug, PartialEq, Eq)]
pub enum LaunchFound {
    /// It cannot be told: why.
    Unavailable(String),
    /// No regular file.
    NotRegular,
    /// A file: its full path, its name, and the desktop program two directories up, if it is there.
    Regular { path: String, file_name: String, desktop_host: Option<String> },
}

/// What a `LaunchFound` stands for.
#[verifier::ext_equal]
pub enum LaunchFoundView {
    Unavailable(Seq<char>),
    NotRegular,
    Regular { path: Seq<char>, file_name: Seq<char>, desktop_host: Option<Seq<char>> },
}

impl DeepView for LaunchFound {
    type V = LaunchFoundView;

    open spec fn deep_view(&self) -> LaunchFoundView {
        match self {
            LaunchFound::Unavailable(value) => LaunchFoundView::Unavailable(value.deep_view()),
            LaunchFound::NotRegular => LaunchFoundView::NotRegular,
            LaunchFound::Regular { path, file_name, desktop_host } => LaunchFoundView::Regular {
                path: path.deep_view(),
                file_name: file_name.deep_view(),
                desktop_host: desktop_host.deep_view(),
            },
        }
    }
}

impl Model for LaunchFound {
    fn copy_of(&self) -> (r: Self) {
        match self {
            LaunchFound::Unavailable(value) => LaunchFound::Unavailable(value.copy_of()),
            LaunchFound::NotRegular => LaunchFound::NotRegular,
            LaunchFound::Regular { path, file_name, desktop_host } => LaunchFound::Regular {
                path: path.copy_of(),
                file_name: file_name.copy_of(),
                desktop_host: desktop_host.copy_of(),
            },
        }
    }

    fn same_as(&self, other: &Self) -> (r: bool) {
        match (self, other) {
            (LaunchFound::Unavailable(value_l), LaunchFound::Unavailable(value_r)) => value_l.same_as(value_r),
            (LaunchFound::NotRegular, LaunchFound::NotRegular) => true,
            (
                LaunchFound::Regular {
                    path: path_l,
                    file_name: file_name_l,
                    desktop_host: desktop_host_l,
                },
                LaunchFound::Regular {
                    path: path_r,
                    file_name: file_name_r,
                    desktop_host: desktop_host_r,
                },
            ) => path_l.same_as(path_r)
                && file_name_l.same_as(file_name_r)
                && desktop_host_l.same_as(desktop_host_r),
            _ => false,
        }
    }
}

/// What stands for a home in the name of its lock: half of the digest of its path in lower case.
pub open spec fn home_digest(home: Seq<char>) -> Seq<char> {
    text::first_chars(digest::sha256_hex(providers::utf8(text::lowered(home))), 32)
}

/// What stands for a home in the name of its lock.
pub fn home_hash(home: &str) -> (r: String)
    ensures
        r@ == home_digest(home@),
{
    let lower = to_lower(home);
    let whole = hash_bytes(lower.as_str().as_bytes());
    take_chars(whole.as_str(), 32)
}

/// The parts of the path of a lock.
pub open spec fn lock_path(local_data: Option<Seq<char>>, home: Seq<char>) -> Result<
    Seq<Seq<char>>,
    Seq<char>,
> {
    match local_data {
        None => Err("LOCALAPPDATA is not available"@),
        Some(root) => Ok(
            seq![root, "Codex Provider Hub"@, "locks"@, home_digest(home) + ".lck"@],
        ),
    }
}

/// The parts of the path of the lock of a home; `local_data` is the directory for the data of
/// programs.
pub fn operation_lock_path(local_data: &Option<String>, home: &str) -> (r: Result<
    Vec<String>,
    String,
>)
    ensures
        model::outcome(r) == lock_path(local_data.deep_view(), home@),
{
    match local_data {
        None => Err("LOCALAPPDATA is not available".to_owned()),
        Some(root) => {
            let hash = home_hash(home);
            let mut parts: Vec<String> = Vec::new();
            parts.push(root.copy_of());
            parts.push("Codex Provider Hub".to_owned());
            parts.push("locks".to_owned());
            parts.push(join2(hash.as_str(), ".lck"));
            assert(parts.deep_view() =~= seq![
                root@,
                "Codex Provider Hub"@,
                "locks"@,
                home_digest(home@) + ".lck"@,
            ]);
            Ok(parts)
        },
    }
}

/// A lock that nobody holds.
pub open spec fn clear_status(path: Seq<char>) -> OperationLockStatusView {
    OperationLockStatusView {
        state: "clear"@,
        path,
        owner_pid: None,
        owner_started_at: None,
        command: None,
        age_seconds: None,
    }
}

/// The state of a lock.
pub open spec fn lock_status(path: Seq<char>, found: LockFoundView, now: u64) -> Result<
    OperationLockStatusView,
    Seq<char>,
> {
    match found {
        LockFoundView::Missing | LockFoundView::Free => Ok(clear_status(path)),
        LockFoundView::Held(None) => Ok(
            OperationLockStatusView { state: "active"@, ..clear_status(path) },
        ),
        LockFoundView::Held(Some(metadata)) => Ok(
            OperationLockStatusView {
                state: "active"@,
                path,
                owner_pid: Some(metadata.pid),
                owner_started_at: match metadata.started_at {
                    Some(time) => Some(text::decimal_text(time as nat)),
                    None => None,
                },
                command: Some(metadata.command),
                age_seconds: Some(
                    if now < metadata.created_at {
                        0
                    } else {
                        (now - metadata.created_at) as u64
                    },
                ),
            },
        ),
        LockFoundView::Failed(error) => Err("cannot inspect operation lock: "@ + error),
    }
}

fn say_clear(path: &str) -> (r: OperationLockStatus)
    ensures
        r.deep_view() == clear_status(path@),
{
    OperationLockStatus {
        state: "clear".to_owned(),
        path: path.to_owned(),
        owner_pid: None,
        owner_started_at: None,
        command: None,
        age_seconds: None,
    }
}

/// The state of a lock. Who holds it counts, never how old it is.
pub fn inspect_operation_lock(path: &str, found: &LockFound, now: u64) -> (r: Result<
    OperationLockStatus,
    String,
>)
    ensures
        model::outcome(r) == lock_status(path@, found.deep_view(), now),
{
    match found {
        LockFound::Missing | LockFound::Free => Ok(say_clear(path)),
        LockFound::Held(None) => {
            let mut status = say_clear(path);
            status.state = "active".to_owned();
            Ok(status)
        },
        LockFound::Held(Some(metadata)) => {
            let owner_started_at: Option<String> = match metadata.started_at {
                Some(time) => Some(decimal(time)),
                None => None,
            };
            Ok(
                OperationLockStatus {
                    state: "active".to_owned(),
                    path: path.to_owned(),
                    owner_pid: Some(metadata.pid),
                    owner_started_at,
                    command: Some(metadata.command.copy_of()),
                    age_seconds: Some(now.saturating_sub(metadata.created_at)),
                },
            )
        },
        LockFound::Failed(error) => Err(join2("cannot inspect operation lock: ", error.as_str())),
    }
}

/// The message where the lock cannot be had.
pub open spec fn lock_fault(held: bool, error: Seq<char>) -> Seq<char> {
    if held {
        "another Provider Hub operation is already active"@
    } else {
        "cannot acquire operation lock: "@ + error
    }
}

/// The message where the lock cannot be had: someone holds it, or it failed.
pub fn operation_lock_fault(held: bool, error: &str) -> (r: String)
    ensures
        r@ == lock_fault(held, error@),
{
    if held {
        "another Provider Hub operation is already active".to_owned()
    } else {
        join2("cannot acquire operation lock: ", error)
    }
}

/// What keeps an operation from starting.
pub open spec fn lock_report(
    status: Result<OperationLockStatusView, Seq<char>>,
    active: Seq<Seq<char>>,
) -> LockSummaryView {
    let operation = match status {
        Ok(operation) => operation,
        Err(error) => OperationLockStatusView { state: "error"@, ..clear_status(error) },
    };
    LockSummaryView {
        state: if operation.state != "clear"@ {
            operation.state
        } else if active.len() == 0 {
            "clear"@
        } else {
            "process-active"@
        },
        path: operation.path,
        owner_pid: operation.owner_pid,
        age_seconds: operation.age_seconds,
        active_processes: active,
    }
}

/// What keeps an operation from starting: the lock, or the processes that hold the databases open.
pub fn lock_summary(
    status: &Result<OperationLockStatus, String>,
    active_processes: Vec<String>,
) -> (r: LockSummary)
    ensures
        r.deep_view() == lock_report(model::outcome(*status), active_processes.deep_view()),
{
    let operation = match status {
        Ok(operation) => operation.copy_of(),
        Err(error) => {
            let mut operation = say_clear(error.as_str());
            operation.state = "error".to_owned();
            operation
        },
    };
    let state = if !same(operation.state.as_str(), "clear") {
        operation.state
    } else if active_processes.len() == 0 {
        "clear".to_owned()
    } else {
        "process-active".to_owned()
    };
    LockSummary {
        state,
        path: operation.path,
        owner_pid: operation.owner_pid,
        age_seconds: operation.age_seconds,
        active_processes,
    }
}

/// The names of the processes that hold the databases open.
pub open spec fn owner_names(owners: Option<Seq<BlockingProcessView>>) -> Seq<Seq<char>> {
    match owners {
        Some(owners) => owners.map_values(|owner: BlockingProcessView| owner.identity.name),
        None => seq!["process-enumeration-failed"@],
    }
}

/// What keeps an operation from starting; without `owners`, they could not be listed.
pub fn inspect_lock(
    status: &Result<OperationLockStatus, String>,
    owners: &Option<Vec<BlockingProcess>>,
) -> (r: LockSummary)
    ensures
        r.deep_view() == lock_report(model::outcome(*status), owner_names(owners.deep_view())),
{
    let mut names: Vec<String> = Vec::new();
    match owners {
        Some(owners) => {
            let ghost view = owners.deep_view();
            let mut i: usize = 0;
            while i < owners.len()
                invariant
                    i <= owners@.len(),
                    view == owners.deep_view(),
                    names@.len() == i,
                    forall|j: int|
                        0 <= j < i ==> #[trigger] names@[j].deep_view() == view[j].identity.name,
                decreases owners@.len() - i,
            {
                assert(view[i as int] == owners@[i as int].deep_view());
                names.push(owners[i].identity.name.copy_of());
                i += 1;
            }
            assert(names.deep_view() =~= owner_names(Some(view)));
        },
        None => {
            names.push("process-enumeration-failed".to_owned());
            assert(names.deep_view() =~= owner_names(None));
        },
    }
    lock_summary(status, names)
}

/// The lock is clear exactly where nobody holds it and no process holds the databases open.
pub proof fn law_clear_means_free(
    path: Seq<char>,
    found: LockFoundView,
    now: u64,
    active: Seq<Seq<char>>,
)
    ensures
        lock_report(lock_status(path, found, now), active).state == "clear"@ <==> (found is Missing
            || found is Free) && active.len() == 0,
{
    reveal_strlit("clear");
    reveal_strlit("active");
    reveal_strlit("error");
    reveal_strlit("process-active");
    assert("clear"@[0] == 'c');
    assert("active"@[0] == 'a');
    assert("error"@[0] == 'e');
    assert("process-active"@[0] == 'p');
}

/// A path without the prefix for long paths.
pub open spec fn plain_path(path: Seq<char>) -> Seq<char> {
    match text::after_prefix(path, "\\\\?\\UNC\\"@) {
        Some(rest) => "\\\\"@ + rest,
        None => match text::after_prefix(path, "\\\\?\\"@) {
            Some(rest) => rest,
            None => path,
        },
    }
}

/// A path in the form that the desktop's file manager takes: without the prefix for long paths.
pub fn explorer_compatible_path(path: &str) -> (r: String)
    ensures
        r@ == plain_path(path@),
{
    match strip_prefix(path, "\\\\?\\UNC\\") {
        Some(rest) => join2("\\\\", rest.as_str()),
        None => match strip_prefix(path, "\\\\?\\") {
            Some(rest) => rest,
            None => path.to_owned(),
        },
    }
}

/// The program that is started, or why none is.
pub open spec fn launch_path(shown: Seq<char>, found: LaunchFoundView) -> Result<
    Seq<char>,
    Seq<char>,
> {
    match found {
        LaunchFoundView::Unavailable(error) => Err(
            "cannot reopen Codex ("@ + shown + "): "@ + error,
        ),
        LaunchFoundView::NotRegular => Err(
            "refusing to launch a non-regular executable: "@ + shown,
        ),
        LaunchFoundView::Regular { path, file_name, desktop_host } => if text::lowered(file_name)
            == text::lowered("chatgpt.exe"@) {
            Ok(path)
        } else if text::lowered(file_name) == text::lowered("codex.exe"@) {
            match desktop_host {
                Some(host) => Ok(host),
                None => Ok(path),
            }
        } else {
            Err("refusing to launch an executable outside the Codex allowlist: "@ + file_name)
        },
    }
}

/// The program that is started to open the application again, or why none is: only the application
/// itself is ever started, and its desktop program where there is one.
pub fn reopen_codex(shown: &str, found: &LaunchFound) -> (r: Result<String, String>)
    ensures
        model::outcome(r) == launch_path(shown@, found.deep_view()),
{
    match found {
        LaunchFound::Unavailable(error) => Err(
            join4("cannot reopen Codex (", shown, "): ", error.as_str()),
        ),
        LaunchFound::NotRegular => Err(
            join2("refusing to launch a non-regular executable: ", shown),
        ),
        LaunchFound::Regular { path, file_name, desktop_host } => {
            if same_ignoring_case(file_name.as_str(), "chatgpt.exe") {
                Ok(path.copy_of())
            } else if same_ignoring_case(file_name.as_str(), "codex.exe") {
                match desktop_host {
                    Some(host) => Ok(host.copy_of()),
                    None => Ok(path.copy_of()),
                }
            } else {
                Err(
                    join2(
                        "refusing to launch an executable outside the Codex allowlist: ",
                        file_name.as_str(),
                    ),
                )
            }
        },
    }
}

/// Why a file is not shown, if it is not.
pub open spec fn reveal_fault(extension: Option<Seq<char>>, inside: bool) -> Option<Seq<char>> {
    if !(extension is Some && text::lowered(extension->0) == text::lowered("jsonl"@)) {
        Some("refusing to reveal a non-JSONL session file"@)
    } else if !inside {
        Some("rollout file is outside CODEX_HOME"@)
    } else {
        None
    }
}

/// Checks that a file is a rollout in the home before it is shown.
pub fn check_revealed_rollout(extension: &Option<String>, inside: bool) -> (r: Option<String>)
    ensures
        r.deep_view() == reveal_fault(extension.deep_view(), inside),
{
    let is_rollout = match extension {
        Some(extension) => same_ignoring_case(extension.as_str(), "jsonl"),
        None => false,
    };
    if !is_rollout {
        Some("refusing to reveal a non-JSONL session file".to_owned())
    } else if !inside {
        Some("rollout file is outside CODEX_HOME".to_owned())
    } else {
        None
    }
}

/// A lock that is held is reported with who holds it, what for and for how long; one that nobody
/// holds as clear; and one that cannot be looked at as an error.
pub proof fn law_lock_tells_who_holds_it(
    path: Seq<char>,
    metadata: LockMetadataView,
    now: u64,
    error: Seq<char>,
)
    ensures
        ({
            let held = lock_status(path, LockFoundView::Held(Some(metadata)), now);
            &&& held is Ok
            &&& held->Ok_0.state == "active"@
            &&& held->Ok_0.path == path
            &&& held->Ok_0.owner_pid == Some(metadata.pid)
            &&& held->Ok_0.command == Some(metadata.command)
            &&& held->Ok_0.age_seconds is Some
            &&& now >= metadata.created_at ==> held->Ok_0.age_seconds->0 == now
                - metadata.created_at
            &&& now < metadata.created_at ==> held->Ok_0.age_seconds->0 == 0
            &&& held->Ok_0.owner_started_at is Some <==> metadata.started_at is Some
            &&& metadata.started_at is Some ==> held->Ok_0.owner_started_at == Some(
                text::decimal_text(metadata.started_at->0 as nat),
            )
        }),
        ({
            let held = lock_status(path, LockFoundView::Held(None), now);
            held is Ok && held->Ok_0.state == "active"@ && held->Ok_0.owner_pid is None
        }),
        lock_status(path, LockFoundView::Missing, now) == lock_status(path, LockFoundView::Free, now),
        lock_status(path, LockFoundView::Free, now) is Ok,
        lock_status(path, LockFoundView::Free, now)->Ok_0.state == "clear"@,
        lock_status(path, LockFoundView::Free, now)->Ok_0.owner_pid is None,
        lock_status(path, LockFoundView::Failed(error), now) is Err,
{
}

/// What keeps an operation from starting names the operation that runs, else the processes that own
/// the databases.
pub proof fn law_lock_report_names_the_cause(
    status: Result<OperationLockStatusView, Seq<char>>,
    active: Seq<Seq<char>>,
    owners: Seq<BlockingProcessView>,
    at: int,
)
    ensures
        ({
            let report = lock_report(status, active);
            &&& report.active_processes == active
            &&& status is Ok ==> report.path == status->Ok_0.path && report.owner_pid
                == status->Ok_0.owner_pid && report.age_seconds == status->Ok_0.age_seconds
            &&& status is Ok && status->Ok_0.state != "clear"@ ==> report.state
                == status->Ok_0.state
            &&& status is Ok && status->Ok_0.state == "clear"@ && active.len() > 0 ==> report.state
                == "process-active"@
            &&& status is Ok && status->Ok_0.state == "clear"@ && active.len() == 0 ==> report.state
                == "clear"@
        }),
        owner_names(Some(owners)).len() == owners.len(),
        0 <= at < owners.len() ==> owner_names(Some(owners))[at] == owners[at].identity.name,
        owner_names(None).contains("process-enumeration-failed"@),
{
    assert(owner_names(None)[0] == "process-enumeration-failed"@);
}

/// Only ChatGPT and Codex are started, whatever the case of their names; Codex by its desktop host
/// where there is one; and only session files inside the home are shown.
pub proof fn law_only_known_programs_are_started(
    shown: Seq<char>,
    path: Seq<char>,
    file_name: Seq<char>,
    host: Option<Seq<char>>,
    extension: Option<Seq<char>>,
    inside: bool,
    error: Seq<char>,
)
    ensures
        ({
            let outcome = launch_path(
                shown,
                LaunchFoundView::Regular { path, file_name, desktop_host: host },
            );
            let chat = text::lowered(file_name) == text::lowered("chatgpt.exe"@);
            let codex = text::lowered(file_name) == text::lowered("codex.exe"@);
            &&& outcome is Ok <==> chat || codex
            &&& chat ==> outcome->Ok_0 == path
            &&& codex && !chat && host is Some ==> outcome->Ok_0 == host->0
            &&& codex && !chat && host is None ==> outcome->Ok_0 == path
        }),
        launch_path(shown, LaunchFoundView::NotRegular) is Err,
        launch_path(shown, LaunchFoundView::Unavailable(error)) is Err,
        reveal_fault(extension, inside) is None <==> inside && extension is Some && text::lowered(
            extension->0,
        ) == text::lowered("jsonl"@),
{
}

/// Two homes that differ only in case share a lock, and a lock has a place exactly where the data of
/// the user has one.
pub proof fn law_homes_share_locks_by_case(
    local_data: Option<Seq<char>>,
    home: Seq<char>,
    other: Seq<char>,
)
    ensures
        text::lowered(home) == text::lowered(other) ==> lock_path(local_data, home) == lock_path(
            local_data,
            other,
        ),
        lock_path(local_data, home) is Ok <==> local_data is Some,
        lock_path(local_data, home) is Ok ==> lock_path(local_data, home)->Ok_0[0] == local_data->0,
        home_digest(home).len() <= 32,
{
}

} // verus!

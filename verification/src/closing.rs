//! Closing a process that holds the databases open: asking its application first, and ending it
//! only where that was wanted.

use crate::model::Model;
use crate::processes;
use crate::processes::{
    restart_manager_targets, BlockingProcess, BlockingProcessView, ProcessIdentity,
    ProcessIdentityView, VerifiedProcess, VerifiedProcessView,
};
use crate::text;
use crate::text::{decimal, join2, join3, join4, join5, same_ignoring_case};
use vstd::prelude::*;

verus! {

/// For how many milliseconds an application may take to close.
pub const PROCESS_CLOSE_TIMEOUT_MS: u32 = 8000;

/// For how many milliseconds a forced end may take.
pub const PROCESS_FORCE_TIMEOUT_MS: u32 = 5000;

/// The flags of a shutdown that asks: no process needs to have registered for a restart.
pub const RESTART_MANAGER_GRACEFUL_FLAGS: u32 = 0;

/// The flags of a shutdown that forces.
pub const RESTART_MANAGER_FORCE_FLAGS: u32 = 1;

/// The code for a shutdown that would need a reboot.
pub const ERROR_FAIL_NOACTION_REBOOT_CODE: u32 = 350;

/// The outcome of closing a process.
#[derive(Clone, Debug, PartialEq, Eq)]
pub struct CloseProcessResult {
    pub pid: u32,
    pub mode: String,
    pub requested: bool,
    pub exited: bool,
    pub message: String,
}

/// What a `CloseProcessResult` stands for.
#[verifier::ext_equal]
pub struct CloseProcessResultView {
    pub pid: u32,
    pub mode: Seq<char>,
    pub requested: bool,
    pub exited: bool,
    pub message: Seq<char>,
}

impl DeepView for CloseProcessResult {
    type V = CloseProcessResultView;

    open spec fn deep_view(&self) -> CloseProcessResultView {
        CloseProcessResultView {
            pid: self.pid.deep_view(),
            mode: self.mode.deep_view(),
            requested: self.requested.deep_view(),
            exited: self.exited.deep_view(),
            message: self.message.deep_view(),
        }
    }
}

impl Model for CloseProcessResult {
    fn copy_of(&self) -> (r: Self) {
        CloseProcessResult {
            pid: self.pid.copy_of(),
            mode: self.mode.copy_of(),
            requested: self.requested.copy_of(),
            exited: self.exited.copy_of(),
            message: self.message.copy_of(),
        }
    }

    fn same_as(&self, other: &Self) -> (r: bool) {
        self.pid.same_as(&other.pid)
            && self.mode.same_as(&other.mode)
            && self.requested.same_as(&other.requested)
            && self.exited.same_as(&other.exited)
            && self.message.same_as(&other.message)
    }
}

/// How far closing a process has come.
#[derive(Clone, Copy, Debug, PartialEq, Eq, Structural)]
pub enum CloseStage {
    /// The owners are being listed.
    Owners,
    /// It failed; whether the process still runs is being looked up.
    Lookup,
    /// The application is being found.
    Family,
    /// The processes are being opened.
    Handles,
    ForcedShutdown,
    ForcedExit,
    ForcedRelease,
    Termination,
    TerminationExit,
    TerminationRelease,
    /// The windows are being closed.
    Windows,
    WindowExit,
    WindowRelease,
    /// The processes that are left are being looked up.
    Remaining,
    RemainingRelease,
    Shutdown,
    ShutdownExit,
    ShutdownRelease,
    Done,
}

impl DeepView for CloseStage {
    type V = CloseStage;

    open spec fn deep_view(&self) -> CloseStage {
        *self
    }
}

impl Model for CloseStage {
    fn copy_of(&self) -> (r: Self) {
        *self
    }

    fn same_as(&self, other: &Self) -> (r: bool) {
        *self == *other
    }
}

/// Closing a process.
#[derive(Clone, Debug, PartialEq, Eq)]
pub struct CloseState {
    pub requested: ProcessIdentity,
    pub force: bool,
    pub stage: CloseStage,
    /// The process that is closed, once it was found.
    pub pid: u32,
    /// The owners that belong to the same application.
    pub owners: Vec<u32>,
    pub family: Vec<VerifiedProcess>,
    /// The processes that are waited for.
    pub watched: Vec<VerifiedProcess>,
    /// How many windows took the request.
    pub windows: usize,
    /// Something took the request.
    pub asked: bool,
    /// What went wrong.
    pub fault: Option<String>,
}

/// What a `CloseState` stands for.
#[verifier::ext_equal]
pub struct CloseStateView {
    pub requested: ProcessIdentityView,
    pub force: bool,
    pub stage: CloseStage,
    pub pid: u32,
    pub owners: Seq<u32>,
    pub family: Seq<VerifiedProcessView>,
    pub watched: Seq<VerifiedProcessView>,
    pub windows: usize,
    pub asked: bool,
    pub fault: Option<Seq<char>>,
}

impl DeepView for CloseState {
    type V = CloseStateView;

    open spec fn deep_view(&self) -> CloseStateView {
        CloseStateView {
            requested: self.requested.deep_view(),
            force: self.force.deep_view(),
            stage: self.stage.deep_view(),
            pid: self.pid.deep_view(),
            owners: self.owners.deep_view(),
            family: self.family.deep_view(),
            watched: self.watched.deep_view(),
            windows: self.windows.deep_view(),
            asked: self.asked.deep_view(),
            fault: self.fault.deep_view(),
        }
    }
}

impl Model for CloseState {
    fn copy_of(&self) -> (r: Self) {
        CloseState {
            requested: self.requested.copy_of(),
            force: self.force.copy_of(),
            stage: self.stage.copy_of(),
            pid: self.pid.copy_of(),
            owners: self.owners.copy_of(),
            family: self.family.copy_of(),
            watched: self.watched.copy_of(),
            windows: self.windows.copy_of(),
            asked: self.asked.copy_of(),
            fault: self.fault.copy_of(),
        }
    }

    fn same_as(&self, other: &Self) -> (r: bool) {
        self.requested.same_as(&other.requested)
            && self.force.same_as(&other.force)
            && self.stage.same_as(&other.stage)
            && self.pid.same_as(&other.pid)
            && self.owners.same_as(&other.owners)
            && self.family.same_as(&other.family)
            && self.watched.same_as(&other.watched)
            && self.windows.same_as(&other.windows)
            && self.asked.same_as(&other.asked)
            && self.fault.same_as(&other.fault)
    }
}

/// What happened.
#[derive(Clone, Debug, PartialEq, Eq)]
pub enum CloseEvent {
    /// It failed: why.
    Failed(String),
    Owners(Vec<BlockingProcess>),
    /// Whether the process still runs.
    Running(bool),
    Family(Vec<VerifiedProcess>),
    /// It was done.
    Succeeded,
    /// Whether what was waited for came in time.
    Came(bool),
    /// So many processes were ended.
    Terminated(usize),
    /// So many windows took the request.
    WindowsAsked(usize),
    Remaining(Vec<VerifiedProcess>),
}

/// What a `CloseEvent` stands for.
#[verifier::ext_equal]
pub enum CloseEventView {
    Failed(Seq<char>),
    Owners(Seq<BlockingProcessView>),
    Running(bool),
    Family(Seq<VerifiedProcessView>),
    Succeeded,
    Came(bool),
    Terminated(usize),
    WindowsAsked(usize),
    Remaining(Seq<VerifiedProcessView>),
}

impl DeepView for CloseEvent {
    type V = CloseEventView;

    open spec fn deep_view(&self) -> CloseEventView {
        match self {
            CloseEvent::Failed(value) => CloseEventView::Failed(value.deep_view()),
            CloseEvent::Owners(value) => CloseEventView::Owners(value.deep_view()),
            CloseEvent::Running(value) => CloseEventView::Running(value.deep_view()),
            CloseEvent::Family(value) => CloseEventView::Family(value.deep_view()),
            CloseEvent::Succeeded => CloseEventView::Succeeded,
            CloseEvent::Came(value) => CloseEventView::Came(value.deep_view()),
            CloseEvent::Terminated(value) => CloseEventView::Terminated(value.deep_view()),
            CloseEvent::WindowsAsked(value) => CloseEventView::WindowsAsked(value.deep_view()),
            CloseEvent::Remaining(value) => CloseEventView::Remaining(value.deep_view()),
        }
    }
}

impl Model for CloseEvent {
    fn copy_of(&self) -> (r: Self) {
        match self {
            CloseEvent::Failed(value) => CloseEvent::Failed(value.copy_of()),
            CloseEvent::Owners(value) => CloseEvent::Owners(value.copy_of()),
            CloseEvent::Running(value) => CloseEvent::Running(value.copy_of()),
            CloseEvent::Family(value) => CloseEvent::Family(value.copy_of()),
            CloseEvent::Succeeded => CloseEvent::Succeeded,
            CloseEvent::Came(value) => CloseEvent::Came(value.copy_of()),
            CloseEvent::Terminated(value) => CloseEvent::Terminated(value.copy_of()),
            CloseEvent::WindowsAsked(value) => CloseEvent::WindowsAsked(value.copy_of()),
            CloseEvent::Remaining(value) => CloseEvent::Remaining(value.copy_of()),
        }
    }

    fn same_as(&self, other: &Self) -> (r: bool) {
        match (self, other) {
            (CloseEvent::Failed(value_l), CloseEvent::Failed(value_r)) => value_l.same_as(value_r),
            (CloseEvent::Owners(value_l), CloseEvent::Owners(value_r)) => value_l.same_as(value_r),
            (CloseEvent::Running(value_l), CloseEvent::Running(value_r)) => value_l.same_as(value_r),
            (CloseEvent::Family(value_l), CloseEvent::Family(value_r)) => value_l.same_as(value_r),
            (CloseEvent::Succeeded, CloseEvent::Succeeded) => true,
            (CloseEvent::Came(value_l), CloseEvent::Came(value_r)) => value_l.same_as(value_r),
            (CloseEvent::Terminated(value_l), CloseEvent::Terminated(value_r)) => value_l.same_as(value_r),
            (CloseEvent::WindowsAsked(value_l), CloseEvent::WindowsAsked(value_r)) => value_l.same_as(value_r),
            (CloseEvent::Remaining(value_l), CloseEvent::Remaining(value_r)) => value_l.same_as(value_r),
            _ => false,
        }
    }
}

/// What is to be done.
#[derive(Clone, Debug, PartialEq, Eq)]
pub enum CloseAction {
    ListOwners,
    /// Look up whether the process still runs.
    LookUp(u32),
    FindFamily(BlockingProcess),
    /// Open the processes; `terminate` says that they may be ended.
    OpenProcesses { processes: Vec<VerifiedProcess>, target: u32, terminate: bool },
    /// Ask the system to shut the processes down.
    ShutDown { targets: Vec<VerifiedProcess>, forced: bool },
    /// Wait until the opened processes have ended, at most so many milliseconds.
    AwaitExit(u32),
    /// Wait until no process of the family holds the databases open.
    AwaitRelease(Vec<VerifiedProcess>),
    /// End the opened processes.
    Terminate,
    /// Ask the windows of the processes to close.
    CloseWindows(Vec<u32>),
    /// List the opened processes that still run.
    ListRemaining,
    Report(CloseProcessResult),
}

/// What a `CloseAction` stands for.
#[verifier::ext_equal]
pub enum CloseActionView {
    ListOwners,
    LookUp(u32),
    FindFamily(BlockingProcessView),
    OpenProcesses { processes: Seq<VerifiedProcessView>, target: u32, terminate: bool },
    ShutDown { targets: Seq<VerifiedProcessView>, forced: bool },
    AwaitExit(u32),
    AwaitRelease(Seq<VerifiedProcessView>),
    Terminate,
    CloseWindows(Seq<u32>),
    ListRemaining,
    Report(CloseProcessResultView),
}

impl DeepView for CloseAction {
    type V = CloseActionView;

    open spec fn deep_view(&self) -> CloseActionView {
        match self {
            CloseAction::ListOwners => CloseActionView::ListOwners,
            CloseAction::LookUp(value) => CloseActionView::LookUp(value.deep_view()),
            CloseAction::FindFamily(value) => CloseActionView::FindFamily(value.deep_view()),
            CloseAction::OpenProcesses { processes, target, terminate } => CloseActionView::OpenProcesses {
                processes: processes.deep_view(),
                target: target.deep_view(),
                terminate: terminate.deep_view(),
            },
            CloseAction::ShutDown { targets, forced } => CloseActionView::ShutDown {
                targets: targets.deep_view(),
                forced: forced.deep_view(),
            },
            CloseAction::AwaitExit(value) => CloseActionView::AwaitExit(value.deep_view()),
            CloseAction::AwaitRelease(value) => CloseActionView::AwaitRelease(value.deep_view()),
            CloseAction::Terminate => CloseActionView::Terminate,
            CloseAction::CloseWindows(value) => CloseActionView::CloseWindows(value.deep_view()),
            CloseAction::ListRemaining => CloseActionView::ListRemaining,
            CloseAction::Report(value) => CloseActionView::Report(value.deep_view()),
        }
    }
}

impl Model for CloseAction {
    fn copy_of(&self) -> (r: Self) {
        match self {
            CloseAction::ListOwners => CloseAction::ListOwners,
            CloseAction::LookUp(value) => CloseAction::LookUp(value.copy_of()),
            CloseAction::FindFamily(value) => CloseAction::FindFamily(value.copy_of()),
            CloseAction::OpenProcesses { processes, target, terminate } => CloseAction::OpenProcesses {
                processes: processes.copy_of(),
                target: target.copy_of(),
                terminate: terminate.copy_of(),
            },
            CloseAction::ShutDown { targets, forced } => CloseAction::ShutDown {
                targets: targets.copy_of(),
                forced: forced.copy_of(),
            },
            CloseAction::AwaitExit(value) => CloseAction::AwaitExit(value.copy_of()),
            CloseAction::AwaitRelease(value) => CloseAction::AwaitRelease(value.copy_of()),
            CloseAction::Terminate => CloseAction::Terminate,
            CloseAction::CloseWindows(value) => CloseAction::CloseWindows(value.copy_of()),
            CloseAction::ListRemaining => CloseAction::ListRemaining,
            CloseAction::Report(value) => CloseAction::Report(value.copy_of()),
        }
    }

    fn same_as(&self, other: &Self) -> (r: bool) {
        match (self, other) {
            (CloseAction::ListOwners, CloseAction::ListOwners) => true,
            (CloseAction::LookUp(value_l), CloseAction::LookUp(value_r)) => value_l.same_as(value_r),
            (CloseAction::FindFamily(value_l), CloseAction::FindFamily(value_r)) => value_l.same_as(value_r),
            (
                CloseAction::OpenProcesses {
                    processes: processes_l,
                    target: target_l,
                    terminate: terminate_l,
                },
                CloseAction::OpenProcesses {
                    processes: processes_r,
                    target: target_r,
                    terminate: terminate_r,
                },
            ) => processes_l.same_as(processes_r)
                && target_l.same_as(target_r)
                && terminate_l.same_as(terminate_r),
            (
                CloseAction::ShutDown { targets: targets_l, forced: forced_l },
                CloseAction::ShutDown { targets: targets_r, forced: forced_r },
            ) => targets_l.same_as(targets_r) && forced_l.same_as(forced_r),
            (CloseAction::AwaitExit(value_l), CloseAction::AwaitExit(value_r)) => value_l.same_as(value_r),
            (CloseAction::AwaitRelease(value_l), CloseAction::AwaitRelease(value_r)) => value_l.same_as(value_r),
            (CloseAction::Terminate, CloseAction::Terminate) => true,
            (CloseAction::CloseWindows(value_l), CloseAction::CloseWindows(value_r)) => value_l.same_as(value_r),
            (CloseAction::ListRemaining, CloseAction::ListRemaining) => true,
            (CloseAction::Report(value_l), CloseAction::Report(value_r)) => value_l.same_as(value_r),
            _ => false,
        }
    }
}

/// The name of the way in which a process is closed.
pub open spec fn mode_name(force: bool) -> Seq<char> {
    if force {
        "force"@
    } else {
        "graceful"@
    }
}

fn find_mode_name(force: bool) -> (r: String)
    ensures
        r@ == mode_name(force),
{
    if force {
        "force".to_owned()
    } else {
        "graceful".to_owned()
    }
}

/// The result for a process that has gone.
pub open spec fn gone_result(identity: ProcessIdentityView, force: bool) -> CloseProcessResultView {
    CloseProcessResultView {
        pid: identity.pid,
        mode: mode_name(force),
        requested: false,
        exited: true,
        message: "process already exited"@,
    }
}

/// The result for a process that has gone, if it has.
pub fn already_exited_result(identity: &ProcessIdentity, force: bool, running: bool) -> (r: Option<
    CloseProcessResult,
>)
    ensures
        r.deep_view() == (if running {
            None
        } else {
            Some(gone_result(identity.deep_view(), force))
        }),
{
    if running {
        return None;
    }
    Some(
        CloseProcessResult {
            pid: identity.pid,
            mode: find_mode_name(force),
            requested: false,
            exited: true,
            message: "process already exited".to_owned(),
        },
    )
}

/// The result where closing failed.
pub open spec fn failed_result(
    identity: ProcessIdentityView,
    force: bool,
    message: Seq<char>,
) -> CloseProcessResultView {
    CloseProcessResultView {
        pid: identity.pid,
        mode: mode_name(force),
        requested: false,
        exited: false,
        message,
    }
}

/// An owner is the process that was asked for: the same number, start and program.
pub open spec fn is_requested(
    owner: BlockingProcessView,
    requested: ProcessIdentityView,
) -> bool {
    &&& owner.identity.pid == requested.pid
    &&& owner.identity.started_at == requested.started_at
    &&& owner.identity.path is Some
    &&& requested.path is Some
    &&& text::lowered(owner.identity.path->0) == text::lowered(requested.path->0)
}

fn is_requested_owner(owner: &BlockingProcess, requested: &ProcessIdentity) -> (r: bool)
    ensures
        r == is_requested(owner.deep_view(), requested.deep_view()),
{
    let same_path = match (&owner.identity.path, &requested.path) {
        (Some(found), Some(wanted)) => same_ignoring_case(found.as_str(), wanted.as_str()),
        _ => false,
    };
    owner.identity.pid == requested.pid && owner.identity.started_at.same_as(&requested.started_at)
        && same_path
}

/// The owner that was asked for.
pub open spec fn requested_owner(
    owners: Seq<BlockingProcessView>,
    requested: ProcessIdentityView,
) -> Option<BlockingProcessView>
    decreases owners.len(),
{
    if owners.len() == 0 {
        None
    } else if is_requested(owners[0], requested) {
        Some(owners[0])
    } else {
        requested_owner(owners.drop_first(), requested)
    }
}

fn find_requested(owners: &Vec<BlockingProcess>, requested: &ProcessIdentity) -> (r: Option<
    BlockingProcess,
>)
    ensures
        r.deep_view() == requested_owner(owners.deep_view(), requested.deep_view()),
{
    let ghost view = owners.deep_view();
    let mut i: usize = 0;
    assert(view.skip(0) =~= view);
    while i < owners.len()
        invariant
            i <= owners@.len(),
            view == owners.deep_view(),
            requested_owner(view.skip(i as int), requested.deep_view()) == requested_owner(
                view,
                requested.deep_view(),
            ),
        decreases owners@.len() - i,
    {
        assert(view.skip(i as int)[0] == view[i as int]);
        assert(view[i as int] == owners@[i as int].deep_view());
        assert(view.skip(i as int).drop_first() =~= view.skip(i + 1));
        if is_requested_owner(&owners[i], requested) {
            return Some(owners[i].copy_of());
        }
        i += 1;
    }
    None
}

/// The application that an owner belongs to; itself where it is unknown.
pub open spec fn application_id(owner: BlockingProcessView) -> u32 {
    match owner.application_root_pid {
        Some(pid) => pid,
        None => owner.identity.pid,
    }
}

fn find_application_id(owner: &BlockingProcess) -> (r: u32)
    ensures
        r == application_id(owner.deep_view()),
{
    match owner.application_root_pid {
        Some(pid) => pid,
        None => owner.identity.pid,
    }
}

/// The owners of an application that may be closed.
pub open spec fn closable_owners(owners: Seq<BlockingProcessView>, application: u32) -> Seq<u32>
    decreases owners.len(),
{
    if owners.len() == 0 {
        Seq::empty()
    } else {
        let rest = closable_owners(owners.drop_last(), application);
        let last = owners.last();
        if last.close_allowed && application_id(last) == application {
            rest.push(last.identity.pid)
        } else {
            rest
        }
    }
}

fn find_closable_owners(owners: &Vec<BlockingProcess>, application: u32) -> (r: Vec<u32>)
    ensures
        r@ == closable_owners(owners.deep_view(), application),
{
    let ghost view = owners.deep_view();
    let mut out: Vec<u32> = Vec::new();
    let mut i: usize = 0;
    assert(out@ =~= closable_owners(view.take(0), application));
    while i < owners.len()
        invariant
            i <= owners@.len(),
            view == owners.deep_view(),
            out@ == closable_owners(view.take(i as int), application),
        decreases owners@.len() - i,
    {
        assert(view[i as int] == owners@[i as int].deep_view());
        assert(view.take(i + 1).drop_last() =~= view.take(i as int));
        if owners[i].close_allowed && find_application_id(&owners[i]) == application {
            out.push(owners[i].identity.pid);
        }
        i += 1;
    }
    assert(view.take(i as int) =~= view);
    out
}

/// The numbers of processes.
pub open spec fn pids_of(processes: Seq<VerifiedProcessView>) -> Seq<u32> {
    processes.map_values(|process: VerifiedProcessView| process.pid)
}

fn find_pids(processes: &Vec<VerifiedProcess>) -> (r: Vec<u32>)
    ensures
        r@ == pids_of(processes.deep_view()),
{
    let ghost view = processes.deep_view();
    let mut out: Vec<u32> = Vec::new();
    let mut i: usize = 0;
    while i < processes.len()
        invariant
            i <= processes@.len(),
            view == processes.deep_view(),
            out@.len() == i,
            forall|j: int| 0 <= j < i ==> #[trigger] out@[j] == view[j].pid,
        decreases processes@.len() - i,
    {
        assert(view[i as int] == processes@[i as int].deep_view());
        out.push(processes[i].pid);
        i += 1;
    }
    assert(out@ =~= pids_of(view));
    out
}

/// The result of closing a process.
pub open spec fn close_result(
    state: CloseStateView,
    exited: bool,
    message: Seq<char>,
) -> CloseProcessResultView {
    CloseProcessResultView {
        pid: state.pid,
        mode: mode_name(state.force),
        requested: state.asked,
        exited,
        message,
    }
}

/// A count of the processes that are waited for, as messages give it.
pub open spec fn watched_count(state: CloseStateView) -> Seq<char> {
    text::decimal_text(state.watched.len())
}

/// The message once the windows closed.
pub open spec fn windows_message(state: CloseStateView) -> Seq<char> {
    "SQLite ownership released after WM_CLOSE ("@ + text::decimal_text(state.windows as nat)
        + " window(s), "@ + watched_count(state) + " verified root/owner process(es))"@
}

/// The message where an application keeps running though it was asked.
pub open spec fn still_running_message(state: CloseStateView) -> Seq<char> {
    match state.fault {
        None => if state.windows > 0 {
            "graceful close reached "@ + text::decimal_text(state.windows as nat)
                + " window(s) and Restart Manager, but the application group is still running"@
        } else {
            "Restart Manager accepted the graceful close request, but the application group is still running"@
        },
        Some(error) => "WM_CLOSE reached "@ + text::decimal_text(state.windows as nat)
            + " window(s), but the application group is still running and Restart Manager failed: "@
            + error,
    }
}

/// The state in another stage.
pub open spec fn in_stage(state: CloseStateView, stage: CloseStage) -> CloseStateView {
    CloseStateView { stage, ..state }
}

/// It is done.
pub open spec fn reported(state: CloseStateView, result: CloseProcessResultView) -> (
    CloseStateView,
    CloseActionView,
) {
    (in_stage(state, CloseStage::Done), CloseActionView::Report(result))
}

/// It failed, unless the process has gone.
pub open spec fn looked_up(state: CloseStateView, fault: Seq<char>) -> (
    CloseStateView,
    CloseActionView,
) {
    (
        CloseStateView { stage: CloseStage::Lookup, fault: Some(fault), ..state },
        CloseActionView::LookUp(state.requested.pid),
    )
}

/// It failed.
pub open spec fn given_up(state: CloseStateView, fault: Seq<char>) -> (
    CloseStateView,
    CloseActionView,
) {
    reported(state, failed_result(state.requested, state.force, fault))
}

/// The opened processes are waited for.
pub open spec fn exit_awaited(state: CloseStateView, stage: CloseStage, timeout: u32) -> (
    CloseStateView,
    CloseActionView,
) {
    (in_stage(state, stage), CloseActionView::AwaitExit(timeout))
}

/// The databases are waited for.
pub open spec fn release_awaited(state: CloseStateView, stage: CloseStage) -> (
    CloseStateView,
    CloseActionView,
) {
    (in_stage(state, stage), CloseActionView::AwaitRelease(state.family))
}

/// The processes are ended.
pub open spec fn terminated(state: CloseStateView) -> (CloseStateView, CloseActionView) {
    (in_stage(state, CloseStage::Termination), CloseActionView::Terminate)
}

/// The event is one that the stage waits for.
pub open spec fn awaits(stage: CloseStage, event: CloseEventView) -> bool {
    match stage {
        CloseStage::Owners => event is Owners || event is Failed,
        CloseStage::Lookup => event is Running,
        CloseStage::Family => event is Family || event is Failed,
        CloseStage::Handles | CloseStage::ForcedShutdown | CloseStage::Shutdown => event is Succeeded
            || event is Failed,
        CloseStage::Termination => event is Terminated || event is Failed,
        CloseStage::Windows => event is WindowsAsked || event is Failed,
        CloseStage::Remaining => event is Remaining,
        CloseStage::Done => false,
        _ => event is Came,
    }
}

/// The next state, and what is to be done.
pub open spec fn closing(state: CloseStateView, event: CloseEventView) -> (
    CloseStateView,
    CloseActionView,
) {
    match (state.stage, event) {
        (CloseStage::Owners, CloseEventView::Failed(error)) => looked_up(state, error),
        (CloseStage::Owners, CloseEventView::Owners(owners)) => match requested_owner(
            owners,
            state.requested,
        ) {
            None => looked_up(state, "process no longer matches the verified SQLite owner"@),
            Some(owner) => (
                CloseStateView {
                    stage: CloseStage::Family,
                    pid: owner.identity.pid,
                    owners: closable_owners(owners, application_id(owner)),
                    ..state
                },
                CloseActionView::FindFamily(owner),
            ),
        },
        (CloseStage::Lookup, CloseEventView::Running(running)) => if running {
            given_up(state, state.fault->0)
        } else {
            reported(state, gone_result(state.requested, state.force))
        },
        (CloseStage::Family, CloseEventView::Failed(error)) => given_up(state, error),
        (CloseStage::Family, CloseEventView::Family(family)) => {
            let watched = processes::shutdown_targets(family, state.owners);
            (
                CloseStateView { stage: CloseStage::Handles, family, watched, ..state },
                CloseActionView::OpenProcesses {
                    processes: watched,
                    target: state.pid,
                    terminate: state.force,
                },
            )
        },
        (CloseStage::Handles, CloseEventView::Failed(error)) => looked_up(state, error),
        (CloseStage::Handles, _) => if state.force {
            (
                in_stage(state, CloseStage::ForcedShutdown),
                CloseActionView::ShutDown { targets: state.watched, forced: true },
            )
        } else {
            (
                in_stage(state, CloseStage::Windows),
                CloseActionView::CloseWindows(pids_of(state.family)),
            )
        },
        (CloseStage::ForcedShutdown, CloseEventView::Failed(_)) => terminated(state),
        (CloseStage::ForcedShutdown, _) => exit_awaited(
            CloseStateView { asked: true, ..state },
            CloseStage::ForcedExit,
            PROCESS_FORCE_TIMEOUT_MS / 2,
        ),
        (CloseStage::ForcedExit, CloseEventView::Came(came)) => if came {
            release_awaited(state, CloseStage::ForcedRelease)
        } else {
            terminated(state)
        },
        (CloseStage::ForcedRelease, CloseEventView::Came(came)) => if came {
            reported(
                state,
                close_result(
                    state,
                    true,
                    "SQLite ownership released by Windows Restart Manager ("@ + watched_count(state)
                        + " verified root/owner process(es))"@,
                ),
            )
        } else {
            terminated(state)
        },
        (CloseStage::Termination, CloseEventView::Failed(error)) => given_up(state, error),
        (CloseStage::Termination, CloseEventView::Terminated(count)) => exit_awaited(
            CloseStateView { asked: state.asked || count > 0, ..state },
            CloseStage::TerminationExit,
            PROCESS_FORCE_TIMEOUT_MS,
        ),
        (CloseStage::TerminationExit, CloseEventView::Came(came)) => if came {
            release_awaited(state, CloseStage::TerminationRelease)
        } else {
            reported(
                state,
                close_result(
                    state,
                    false,
                    "root/owner termination was requested, but at least one verified process is still running"@,
                ),
            )
        },
        (CloseStage::TerminationRelease, CloseEventView::Came(came)) => reported(
            state,
            close_result(
                state,
                came,
                if came {
                    "SQLite ownership released after terminating "@ + watched_count(state)
                        + " verified root/owner process(es)"@
                } else {
                    "verified root/owner processes exited, but a matching SQLite owner reappeared; refresh and retry"@
                },
            ),
        ),
        (CloseStage::Windows, CloseEventView::Failed(error)) => given_up(state, error),
        (CloseStage::Windows, CloseEventView::WindowsAsked(count)) => {
            let next = CloseStateView { windows: count, asked: count > 0, ..state };
            if count > 0 {
                exit_awaited(next, CloseStage::WindowExit, PROCESS_CLOSE_TIMEOUT_MS / 2)
            } else {
                (in_stage(next, CloseStage::Remaining), CloseActionView::ListRemaining)
            }
        },
        (CloseStage::WindowExit, CloseEventView::Came(came)) => if came {
            release_awaited(state, CloseStage::WindowRelease)
        } else {
            (in_stage(state, CloseStage::Remaining), CloseActionView::ListRemaining)
        },
        (CloseStage::WindowRelease, CloseEventView::Came(came)) => reported(
            state,
            close_result(
                state,
                came,
                if !came {
                    "the tracked application processes exited after WM_CLOSE, but SQLite ownership reappeared"@
                } else if state.watched.len() > 1 {
                    windows_message(state)
                } else {
                    "SQLite ownership released after WM_CLOSE"@
                },
            ),
        ),
        (CloseStage::Remaining, CloseEventView::Remaining(remaining)) => if remaining.len() == 0 {
            release_awaited(state, CloseStage::RemainingRelease)
        } else {
            (
                in_stage(state, CloseStage::Shutdown),
                CloseActionView::ShutDown { targets: remaining, forced: false },
            )
        },
        (CloseStage::RemainingRelease, CloseEventView::Came(came)) => reported(
            state,
            close_result(
                state,
                came,
                if came {
                    windows_message(state)
                } else {
                    "the tracked application processes exited, but SQLite ownership reappeared"@
                },
            ),
        ),
        (CloseStage::Shutdown, CloseEventView::Failed(error)) => if !state.asked {
            given_up(state, "no graceful close path succeeded: "@ + error)
        } else {
            exit_awaited(
                CloseStateView { fault: Some(error), ..state },
                CloseStage::ShutdownExit,
                PROCESS_CLOSE_TIMEOUT_MS,
            )
        },
        (CloseStage::Shutdown, _) => exit_awaited(
            CloseStateView { asked: true, ..state },
            CloseStage::ShutdownExit,
            PROCESS_CLOSE_TIMEOUT_MS,
        ),
        (CloseStage::ShutdownExit, CloseEventView::Came(came)) => if came {
            release_awaited(state, CloseStage::ShutdownRelease)
        } else {
            reported(state, close_result(state, false, still_running_message(state)))
        },
        (CloseStage::ShutdownRelease, CloseEventView::Came(came)) => reported(
            state,
            close_result(
                state,
                came,
                if !came {
                    "the verified root/owner processes exited, but SQLite ownership reappeared"@
                } else if state.watched.len() > 1 {
                    "SQLite ownership released after Restart Manager request ("@ + watched_count(
                        state,
                    ) + " verified root/owner process(es))"@
                } else {
                    "SQLite ownership released after Restart Manager request"@
                },
            ),
        ),
        _ => given_up(state, "unexpected event"@),
    }
}

/// Closing a process starts with the list of owners.
pub open spec fn close_started(requested: ProcessIdentityView, force: bool) -> CloseStateView {
    CloseStateView {
        requested,
        force,
        stage: CloseStage::Owners,
        pid: requested.pid,
        owners: Seq::empty(),
        family: Seq::empty(),
        watched: Seq::empty(),
        windows: 0,
        asked: false,
        fault: None,
    }
}

/// Starts closing a process: the owners are to be listed.
pub fn start_close(requested: &ProcessIdentity, force: bool) -> (r: (CloseState, CloseAction))
    ensures
        r.0.deep_view() == close_started(requested.deep_view(), force),
        r.1.deep_view() == CloseActionView::ListOwners,
{
    let owners: Vec<u32> = Vec::new();
    let family: Vec<VerifiedProcess> = Vec::new();
    let watched: Vec<VerifiedProcess> = Vec::new();
    assert(owners.deep_view() =~= Seq::empty());
    assert(family.deep_view() =~= Seq::empty());
    assert(watched.deep_view() =~= Seq::empty());
    let state = CloseState {
        requested: requested.copy_of(),
        force,
        stage: CloseStage::Owners,
        pid: requested.pid,
        owners,
        family,
        watched,
        windows: 0,
        asked: false,
        fault: None,
    };
    (state, CloseAction::ListOwners)
}

fn move_to(state: CloseState, stage: CloseStage, action: CloseAction) -> (r: (
    CloseState,
    CloseAction,
))
    ensures
        r.0.deep_view() == in_stage(state.deep_view(), stage),
        r.1.deep_view() == action.deep_view(),
{
    let mut next = state;
    next.stage = stage;
    (next, action)
}

fn report(state: CloseState, exited: bool, message: String) -> (r: (CloseState, CloseAction))
    ensures
        (r.0.deep_view(), r.1.deep_view()) == reported(
            state.deep_view(),
            close_result(state.deep_view(), exited, message@),
        ),
{
    let result = CloseProcessResult {
        pid: state.pid,
        mode: find_mode_name(state.force),
        requested: state.asked,
        exited,
        message,
    };
    move_to(state, CloseStage::Done, CloseAction::Report(result))
}

/// Reports that closing failed.
pub fn give_up(state: CloseState, message: String) -> (r: (CloseState, CloseAction))
    ensures
        (r.0.deep_view(), r.1.deep_view()) == given_up(state.deep_view(), message@),
{
    let result = CloseProcessResult {
        pid: state.requested.pid,
        mode: find_mode_name(state.force),
        requested: false,
        exited: false,
        message,
    };
    move_to(state, CloseStage::Done, CloseAction::Report(result))
}

fn look_up(state: CloseState, fault: String) -> (r: (CloseState, CloseAction))
    ensures
        (r.0.deep_view(), r.1.deep_view()) == looked_up(state.deep_view(), fault@),
{
    let pid: u32 = state.requested.pid;
    let mut next = state;
    next.fault = Some(fault);
    next.stage = CloseStage::Lookup;
    (next, CloseAction::LookUp(pid))
}

fn await_release(state: CloseState, stage: CloseStage) -> (r: (CloseState, CloseAction))
    ensures
        (r.0.deep_view(), r.1.deep_view()) == release_awaited(state.deep_view(), stage),
{
    let family = state.family.copy_of();
    move_to(state, stage, CloseAction::AwaitRelease(family))
}

fn await_exit(state: CloseState, stage: CloseStage, timeout: u32) -> (r: (CloseState, CloseAction))
    ensures
        (r.0.deep_view(), r.1.deep_view()) == exit_awaited(state.deep_view(), stage, timeout),
{
    move_to(state, stage, CloseAction::AwaitExit(timeout))
}

fn say_windows(state: &CloseState) -> (r: String)
    ensures
        r@ == windows_message(state.deep_view()),
{
    let windows = decimal(state.windows as u64);
    let count = decimal(state.watched.len() as u64);
    join5(
        "SQLite ownership released after WM_CLOSE (",
        windows.as_str(),
        " window(s), ",
        count.as_str(),
        " verified root/owner process(es))",
    )
}

fn say_still_running(state: &CloseState) -> (r: String)
    ensures
        r@ == still_running_message(state.deep_view()),
{
    let windows = decimal(state.windows as u64);
    match &state.fault {
        None => {
            if state.windows > 0 {
                join3(
                    "graceful close reached ",
                    windows.as_str(),
                    " window(s) and Restart Manager, but the application group is still running",
                )
            } else {
                "Restart Manager accepted the graceful close request, but the application group is still running".to_owned()
            }
        },
        Some(error) => join4(
            "WM_CLOSE reached ",
            windows.as_str(),
            " window(s), but the application group is still running and Restart Manager failed: ",
            error.as_str(),
        ),
    }
}

fn say_count(state: &CloseState, front: &str, back: &str) -> (r: String)
    ensures
        r@ == front@ + watched_count(state.deep_view()) + back@,
{
    let count = decimal(state.watched.len() as u64);
    join3(front, count.as_str(), back)
}

fn start_family(state: CloseState, owners: Vec<BlockingProcess>) -> (r: (CloseState, CloseAction))
    requires
        state.stage == CloseStage::Owners,
    ensures
        (r.0.deep_view(), r.1.deep_view()) == closing(
            state.deep_view(),
            CloseEventView::Owners(owners.deep_view()),
        ),
{
    match find_requested(&owners, &state.requested) {
        None => look_up(state, "process no longer matches the verified SQLite owner".to_owned()),
        Some(owner) => {
            let mut next = state;
            next.stage = CloseStage::Family;
            next.pid = owner.identity.pid;
            next.owners = find_closable_owners(&owners, find_application_id(&owner));
            assert(next.owners.deep_view() =~= next.owners@);
            (next, CloseAction::FindFamily(owner))
        },
    }
}

fn track_family(state: CloseState, family: Vec<VerifiedProcess>) -> (r: (CloseState, CloseAction))
    requires
        state.stage == CloseStage::Family,
    ensures
        (r.0.deep_view(), r.1.deep_view()) == closing(
            state.deep_view(),
            CloseEventView::Family(family.deep_view()),
        ),
{
    assert(state.owners.deep_view() =~= state.owners@);
    let watched = restart_manager_targets(&family, &state.owners);
    let action = CloseAction::OpenProcesses {
        processes: watched.copy_of(),
        target: state.pid,
        terminate: state.force,
    };
    let mut next = state;
    next.stage = CloseStage::Handles;
    next.family = family;
    next.watched = watched;
    (next, action)
}

fn ask_family(state: CloseState) -> (r: (CloseState, CloseAction))
    requires
        state.stage == CloseStage::Handles,
    ensures
        (r.0.deep_view(), r.1.deep_view()) == closing(
            state.deep_view(),
            CloseEventView::Succeeded,
        ),
{
    if state.force {
        let targets = state.watched.copy_of();
        move_to(
            state,
            CloseStage::ForcedShutdown,
            CloseAction::ShutDown { targets, forced: true },
        )
    } else {
        let pids = find_pids(&state.family);
        assert(pids.deep_view() =~= pids@);
        move_to(state, CloseStage::Windows, CloseAction::CloseWindows(pids))
    }
}

fn note_wait(state: CloseState, came: bool) -> (r: (CloseState, CloseAction))
    requires
        awaits(state.stage, CloseEventView::Came(came)),
    ensures
        (r.0.deep_view(), r.1.deep_view()) == closing(
            state.deep_view(),
            CloseEventView::Came(came),
        ),
{
    match state.stage {
        CloseStage::ForcedExit => {
            if came {
                await_release(state, CloseStage::ForcedRelease)
            } else {
                move_to(state, CloseStage::Termination, CloseAction::Terminate)
            }
        },
        CloseStage::ForcedRelease => {
            if came {
                let message = say_count(
                    &state,
                    "SQLite ownership released by Windows Restart Manager (",
                    " verified root/owner process(es))",
                );
                report(state, true, message)
            } else {
                move_to(state, CloseStage::Termination, CloseAction::Terminate)
            }
        },
        CloseStage::TerminationExit => {
            if came {
                await_release(state, CloseStage::TerminationRelease)
            } else {
                report(
                    state,
                    false,
                    "root/owner termination was requested, but at least one verified process is still running".to_owned(),
                )
            }
        },
        CloseStage::TerminationRelease => {
            let message = if came {
                say_count(
                    &state,
                    "SQLite ownership released after terminating ",
                    " verified root/owner process(es)",
                )
            } else {
                "verified root/owner processes exited, but a matching SQLite owner reappeared; refresh and retry".to_owned()
            };
            report(state, came, message)
        },
        CloseStage::WindowExit => {
            if came {
                await_release(state, CloseStage::WindowRelease)
            } else {
                move_to(state, CloseStage::Remaining, CloseAction::ListRemaining)
            }
        },
        CloseStage::WindowRelease => {
            let message = if !came {
                "the tracked application processes exited after WM_CLOSE, but SQLite ownership reappeared".to_owned()
            } else if state.watched.len() > 1 {
                say_windows(&state)
            } else {
                "SQLite ownership released after WM_CLOSE".to_owned()
            };
            report(state, came, message)
        },
        CloseStage::RemainingRelease => {
            let message = if came {
                say_windows(&state)
            } else {
                "the tracked application processes exited, but SQLite ownership reappeared".to_owned()
            };
            report(state, came, message)
        },
        CloseStage::ShutdownExit => {
            if came {
                await_release(state, CloseStage::ShutdownRelease)
            } else {
                let message = say_still_running(&state);
                report(state, false, message)
            }
        },
        _ => {
            let message = if !came {
                "the verified root/owner processes exited, but SQLite ownership reappeared".to_owned()
            } else if state.watched.len() > 1 {
                say_count(
                    &state,
                    "SQLite ownership released after Restart Manager request (",
                    " verified root/owner process(es))",
                )
            } else {
                "SQLite ownership released after Restart Manager request".to_owned()
            };
            report(state, came, message)
        },
    }
}

fn note_failure(state: CloseState, error: String) -> (r: (CloseState, CloseAction))
    requires
        awaits(state.stage, CloseEventView::Failed(error@)),
    ensures
        (r.0.deep_view(), r.1.deep_view()) == closing(
            state.deep_view(),
            CloseEventView::Failed(error@),
        ),
{
    match state.stage {
        CloseStage::Owners | CloseStage::Handles => look_up(state, error),
        CloseStage::ForcedShutdown => move_to(
            state,
            CloseStage::Termination,
            CloseAction::Terminate,
        ),
        CloseStage::Shutdown => {
            if !state.asked {
                give_up(state, join2("no graceful close path succeeded: ", error.as_str()))
            } else {
                let mut next = state;
                next.fault = Some(error);
                await_exit(next, CloseStage::ShutdownExit, PROCESS_CLOSE_TIMEOUT_MS)
            }
        },
        _ => give_up(state, error),
    }
}

fn note_success(state: CloseState) -> (r: (CloseState, CloseAction))
    requires
        awaits(state.stage, CloseEventView::Succeeded),
    ensures
        (r.0.deep_view(), r.1.deep_view()) == closing(
            state.deep_view(),
            CloseEventView::Succeeded,
        ),
{
    match state.stage {
        CloseStage::Handles => ask_family(state),
        CloseStage::ForcedShutdown => {
            let mut next = state;
            next.asked = true;
            await_exit(next, CloseStage::ForcedExit, PROCESS_FORCE_TIMEOUT_MS / 2)
        },
        _ => {
            let mut next = state;
            next.asked = true;
            await_exit(next, CloseStage::ShutdownExit, PROCESS_CLOSE_TIMEOUT_MS)
        },
    }
}

/// Whether the event is one that the stage waits for.
pub fn is_awaited(stage: CloseStage, event: &CloseEvent) -> (r: bool)
    ensures
        r == awaits(stage, event.deep_view()),
{
    match stage {
        CloseStage::Owners => matches!(event, CloseEvent::Owners(_) | CloseEvent::Failed(_)),
        CloseStage::Lookup => matches!(event, CloseEvent::Running(_)),
        CloseStage::Family => matches!(event, CloseEvent::Family(_) | CloseEvent::Failed(_)),
        CloseStage::Handles | CloseStage::ForcedShutdown | CloseStage::Shutdown => matches!(
            event,
            CloseEvent::Succeeded | CloseEvent::Failed(_)
        ),
        CloseStage::Termination => matches!(
            event,
            CloseEvent::Terminated(_) | CloseEvent::Failed(_)
        ),
        CloseStage::Windows => matches!(
            event,
            CloseEvent::WindowsAsked(_) | CloseEvent::Failed(_)
        ),
        CloseStage::Remaining => matches!(event, CloseEvent::Remaining(_)),
        CloseStage::Done => false,
        _ => matches!(event, CloseEvent::Came(_)),
    }
}

/// Goes on closing a process after an event: the next state, and what is to be done.
pub fn close_process(state: CloseState, event: CloseEvent) -> (r: (CloseState, CloseAction))
    requires
        awaits(state.stage, event.deep_view()),
        state.stage == CloseStage::Lookup ==> state.fault is Some,
    ensures
        (r.0.deep_view(), r.1.deep_view()) == closing(state.deep_view(), event.deep_view()),
        r.0.stage == CloseStage::Lookup ==> r.0.fault is Some,
{
    match event {
        CloseEvent::Failed(error) => note_failure(state, error),
        CloseEvent::Owners(owners) => start_family(state, owners),
        CloseEvent::Running(running) => {
            match already_exited_result(&state.requested, state.force, running) {
                Some(result) => move_to(state, CloseStage::Done, CloseAction::Report(result)),
                None => {
                    let message = match &state.fault {
                        Some(fault) => fault.copy_of(),
                        None => String::new(),
                    };
                    give_up(state, message)
                },
            }
        },
        CloseEvent::Family(family) => track_family(state, family),
        CloseEvent::Succeeded => note_success(state),
        CloseEvent::Came(came) => note_wait(state, came),
        CloseEvent::Terminated(count) => {
            let mut next = state;
            next.asked = next.asked || count > 0;
            await_exit(next, CloseStage::TerminationExit, PROCESS_FORCE_TIMEOUT_MS)
        },
        CloseEvent::WindowsAsked(count) => {
            let mut next = state;
            next.windows = count;
            next.asked = count > 0;
            if count > 0 {
                await_exit(next, CloseStage::WindowExit, PROCESS_CLOSE_TIMEOUT_MS / 2)
            } else {
                move_to(next, CloseStage::Remaining, CloseAction::ListRemaining)
            }
        },
        CloseEvent::Remaining(remaining) => {
            if remaining.len() == 0 {
                await_release(state, CloseStage::RemainingRelease)
            } else {
                move_to(
                    state,
                    CloseStage::Shutdown,
                    CloseAction::ShutDown { targets: remaining, forced: false },
                )
            }
        },
    }
}

/// The stages that only a forced end goes through.
pub open spec fn forced_stage(stage: CloseStage) -> bool {
    stage == CloseStage::ForcedShutdown || stage == CloseStage::ForcedExit || stage
        == CloseStage::ForcedRelease || stage == CloseStage::Termination || stage
        == CloseStage::TerminationExit || stage == CloseStage::TerminationRelease
}

/// What holds of a state at any time: a forced stage is reached only where force was wanted.
pub open spec fn sound(state: CloseStateView) -> bool {
    forced_stage(state.stage) ==> state.force
}

/// No process is ended, nor opened to be ended, nor shut down by force unless that was wanted.
pub proof fn law_no_force_unless_wanted(state: CloseStateView, event: CloseEventView)
    requires
        sound(state),
        awaits(state.stage, event),
    ensures
        sound(closing(state, event).0),
        closing(state, event).0.force == state.force,
        closing(state, event).1 is Terminate ==> state.force,
        closing(state, event).1 is ShutDown && closing(state, event).1->forced ==> state.force,
        closing(state, event).1 is OpenProcesses && closing(state, event).1->terminate
            ==> state.force,
{
}

/// A process is reported as ended only where it has gone, or nothing of its application holds the
/// databases open any more.
pub proof fn law_exit_is_observed(state: CloseStateView, event: CloseEventView)
    requires
        awaits(state.stage, event),
        closing(state, event).1 is Report,
        closing(state, event).1->Report_0.exited,
    ensures
        event == CloseEventView::Running(false) || (event == CloseEventView::Came(true) && (
        state.stage == CloseStage::ForcedRelease || state.stage == CloseStage::TerminationRelease
            || state.stage == CloseStage::WindowRelease || state.stage
            == CloseStage::RemainingRelease || state.stage == CloseStage::ShutdownRelease)),
{
}

/// Closing a process that has gone succeeds without asking anything.
pub proof fn law_closing_the_gone_is_idempotent(requested: ProcessIdentityView, force: bool)
    ensures
        ({
            let owners = CloseEventView::Owners(Seq::<BlockingProcessView>::empty());
            let (state, action) = closing(close_started(requested, force), owners);
            &&& action == CloseActionView::LookUp(requested.pid)
            &&& closing(state, CloseEventView::Running(false)).1 == CloseActionView::Report(
                gone_result(requested, force),
            )
        }),
{
}

/// The message where a shutdown failed.
pub open spec fn shutdown_fault(code: u32) -> Option<Seq<char>> {
    if code == 0 {
        None
    } else if code == ERROR_FAIL_NOACTION_REBOOT_CODE {
        Some("Restart Manager could not close the registered application without a reboot"@)
    } else {
        Some("RmShutdown failed: "@ + text::decimal_text(code as nat))
    }
}

/// The message for the code that a shutdown ended with, if it failed.
pub fn restart_manager_fault(code: u32) -> (r: Option<String>)
    ensures
        r.deep_view() == shutdown_fault(code),
{
    if code == 0 {
        None
    } else if code == ERROR_FAIL_NOACTION_REBOOT_CODE {
        Some(
            "Restart Manager could not close the registered application without a reboot".to_owned(),
        )
    } else {
        let code = decimal(code as u64);
        Some(join2("RmShutdown failed: ", code.as_str()))
    }
}

/// The flags of a shutdown.
pub fn restart_manager_flags(force: bool) -> (r: u32)
    ensures
        r == (if force {
            RESTART_MANAGER_FORCE_FLAGS
        } else {
            RESTART_MANAGER_GRACEFUL_FLAGS
        }),
{
    if force {
        RESTART_MANAGER_FORCE_FLAGS
    } else {
        RESTART_MANAGER_GRACEFUL_FLAGS
    }
}

/// The owner that was asked for is one with the same number, start and program; there is none exactly
/// where no owner has all three.
pub proof fn law_requested_owner_is_the_same_process(
    owners: Seq<BlockingProcessView>,
    requested: ProcessIdentityView,
)
    ensures
        match requested_owner(owners, requested) {
            Some(owner) => owners.contains(owner) && owner.identity.pid == requested.pid
                && owner.identity.started_at == requested.started_at && owner.identity.path is Some
                && requested.path is Some && text::lowered(owner.identity.path->0) == text::lowered(
                requested.path->0,
            ),
            None => forall|i: int|
                0 <= i < owners.len() ==> !((#[trigger] owners[i]).identity.pid == requested.pid
                    && owners[i].identity.started_at == requested.started_at
                    && owners[i].identity.path is Some && requested.path is Some && text::lowered(
                    owners[i].identity.path->0,
                ) == text::lowered(requested.path->0)),
        },
    decreases owners.len(),
{
    if owners.len() > 0 {
        let rest = owners.drop_first();
        law_requested_owner_is_the_same_process(rest, requested);
        if is_requested(owners[0], requested) {
            assert(owners.contains(owners[0]));
        } else {
            match requested_owner(rest, requested) {
                Some(owner) => {
                    let k = choose|k: int| 0 <= k < rest.len() && rest[k] == owner;
                    assert(owners[k + 1] == owner);
                },
                None => {
                    assert forall|i: int| 0 <= i < owners.len() implies !is_requested(
                        #[trigger] owners[i],
                        requested,
                    ) by {
                        if i > 0 {
                            assert(rest[i - 1] == owners[i]);
                        }
                    }
                },
            }
        }
    }
}

/// Only owners of the same application that may be closed are closed with the one asked for.
pub proof fn law_only_allowed_owners_are_closed(
    owners: Seq<BlockingProcessView>,
    application: u32,
    pid: u32,
)
    ensures
        closable_owners(owners, application).contains(pid) <==> exists|i: int|
            0 <= i < owners.len() && (#[trigger] owners[i]).close_allowed && owners[i].identity.pid
                == pid && (if owners[i].application_root_pid is Some {
                owners[i].application_root_pid->0
            } else {
                owners[i].identity.pid
            }) == application,
    decreases owners.len(),
{
    broadcast use vstd::seq_lib::group_seq_properties;

    if owners.len() > 0 {
        let front = owners.drop_last();
        law_only_allowed_owners_are_closed(front, application, pid);
        let rest = closable_owners(front, application);
        let all = closable_owners(owners, application);
        if exists|i: int|
            0 <= i < front.len() && (#[trigger] front[i]).close_allowed && front[i].identity.pid
                == pid && application_id(front[i]) == application {
            let i = choose|i: int|
                0 <= i < front.len() && (#[trigger] front[i]).close_allowed && front[i].identity.pid
                    == pid && application_id(front[i]) == application;
            assert(owners[i] == front[i]);
            assert(rest.contains(pid));
        }
        if exists|i: int|
            0 <= i < owners.len() && (#[trigger] owners[i]).close_allowed && owners[i].identity.pid
                == pid && application_id(owners[i]) == application {
            let i = choose|i: int|
                0 <= i < owners.len() && (#[trigger] owners[i]).close_allowed
                    && owners[i].identity.pid == pid && application_id(owners[i]) == application;
            if i < front.len() {
                assert(front[i] == owners[i]);
                assert(rest.contains(pid));
            } else {
                assert(all[all.len() - 1] == pid);
            }
        }
        if all.contains(pid) && !rest.contains(pid) {
            assert(owners[owners.len() - 1] == owners.last());
        }
        if rest.contains(pid) {
            let i = choose|i: int|
                0 <= i < front.len() && (#[trigger] front[i]).close_allowed && front[i].identity.pid
                    == pid && application_id(front[i]) == application;
            assert(owners[i] == front[i]);
        }
    }
}

/// A process is closed gently by asking its windows, then the rest of its application, and waiting
/// each time; only where that was wanted is it shut down and then ended. It is reported as ended
/// exactly where the databases were released.
pub proof fn law_closing_goes_step_by_step(
    state: CloseStateView,
    family: Seq<VerifiedProcessView>,
    remaining: Seq<VerifiedProcessView>,
    count: usize,
    came: bool,
    error: Seq<char>,
)
    ensures
        state.stage == CloseStage::Family ==> ({
            let next = closing(state, CloseEventView::Family(family));
            &&& next.0.stage == CloseStage::Handles
            &&& next.0.family == family
            &&& next.1 == (CloseActionView::OpenProcesses {
                processes: processes::shutdown_targets(family, state.owners),
                target: state.pid,
                terminate: state.force,
            })
            &&& next.0.watched == processes::shutdown_targets(family, state.owners)
        }),
        state.stage == CloseStage::Handles && !state.force ==> closing(
            state,
            CloseEventView::Succeeded,
        ).1 == CloseActionView::CloseWindows(pids_of(state.family)),
        state.stage == CloseStage::Handles && state.force ==> closing(
            state,
            CloseEventView::Succeeded,
        ).1 == (CloseActionView::ShutDown { targets: state.watched, forced: true }),
        state.stage == CloseStage::Windows && count > 0 ==> closing(
            state,
            CloseEventView::WindowsAsked(count),
        ).1 == CloseActionView::AwaitExit(4000),
        state.stage == CloseStage::Windows && count == 0 ==> closing(
            state,
            CloseEventView::WindowsAsked(count),
        ).1 is ListRemaining,
        state.stage == CloseStage::Windows ==> closing(
            state,
            CloseEventView::WindowsAsked(count),
        ).0.asked == (count > 0),
        state.stage == CloseStage::WindowExit ==> (if came {
            closing(state, CloseEventView::Came(came)).1 == CloseActionView::AwaitRelease(
                state.family,
            )
        } else {
            closing(state, CloseEventView::Came(came)).1 is ListRemaining
        }),
        state.stage == CloseStage::Remaining ==> (if remaining.len() == 0 {
            closing(state, CloseEventView::Remaining(remaining)).1 == CloseActionView::AwaitRelease(
                state.family,
            )
        } else {
            closing(state, CloseEventView::Remaining(remaining)).1 == (CloseActionView::ShutDown {
                targets: remaining,
                forced: false,
            })
        }),
        state.stage == CloseStage::Shutdown ==> closing(
            state,
            CloseEventView::Succeeded,
        ).1 == CloseActionView::AwaitExit(8000) && closing(
            state,
            CloseEventView::Succeeded,
        ).0.asked,
        state.stage == CloseStage::Shutdown && !state.asked ==> closing(
            state,
            CloseEventView::Failed(error),
        ).1 is Report,
        state.stage == CloseStage::ForcedShutdown ==> closing(
            state,
            CloseEventView::Succeeded,
        ).1 == CloseActionView::AwaitExit(2500) && closing(
            state,
            CloseEventView::Failed(error),
        ).1 is Terminate,
        state.stage == CloseStage::ForcedExit ==> (if came {
            closing(state, CloseEventView::Came(came)).1 == CloseActionView::AwaitRelease(
                state.family,
            )
        } else {
            closing(state, CloseEventView::Came(came)).1 is Terminate
        }),
        state.stage == CloseStage::Termination ==> closing(
            state,
            CloseEventView::Terminated(count),
        ).1 == CloseActionView::AwaitExit(5000),
        state.stage == CloseStage::TerminationExit && came || state.stage
            == CloseStage::ShutdownExit && came ==> closing(state, CloseEventView::Came(came)).1
            == CloseActionView::AwaitRelease(state.family),
        state.stage == CloseStage::TerminationExit && !came || state.stage
            == CloseStage::ShutdownExit && !came ==> closing(state, CloseEventView::Came(came)).1
            is Report && !closing(state, CloseEventView::Came(came)).1->Report_0.exited,
        state.stage == CloseStage::WindowRelease || state.stage == CloseStage::RemainingRelease
            || state.stage == CloseStage::ShutdownRelease || state.stage
            == CloseStage::TerminationRelease ==> closing(state, CloseEventView::Came(came)).1
            is Report && closing(state, CloseEventView::Came(came)).1->Report_0.exited == came
            && closing(state, CloseEventView::Came(came)).1->Report_0.pid == state.pid && closing(
            state,
            CloseEventView::Came(came),
        ).1->Report_0.requested == state.asked,
        state.stage == CloseStage::Lookup ==> closing(state, CloseEventView::Running(came)).1
            is Report && closing(state, CloseEventView::Running(came)).1->Report_0.exited == !came,
        state.stage == CloseStage::Family || state.stage == CloseStage::Windows || state.stage
            == CloseStage::Termination ==> closing(state, CloseEventView::Failed(error)).1 is Report
            && !closing(state, CloseEventView::Failed(error)).1->Report_0.exited && closing(
            state,
            CloseEventView::Failed(error),
        ).1->Report_0.message == error,
        state.stage == CloseStage::Owners || state.stage == CloseStage::Handles ==> closing(
            state,
            CloseEventView::Failed(error),
        ).1 == CloseActionView::LookUp(state.requested.pid),
{
}

/// A shutdown failed exactly where it gave a code other than zero; a process is closed in the way that
/// was wanted, and starts out as asked of nobody.
pub proof fn law_shutdown_codes(code: u32, requested: ProcessIdentityView, force: bool)
    ensures
        shutdown_fault(code) is None <==> code == 0,
        mode_name(true) == "force"@,
        mode_name(false) == "graceful"@,
        close_started(requested, force).requested == requested,
        close_started(requested, force).force == force,
        close_started(requested, force).stage == CloseStage::Owners,
        !close_started(requested, force).asked,
        gone_result(requested, force).exited,
        gone_result(requested, force).pid == requested.pid,
        gone_result(requested, force).mode == mode_name(force),
{
}

/// A close that failed says why, and neither that anything was asked nor that the process ended; a
/// result speaks of the process that was closed, in the way that was wanted.
pub proof fn law_failed_close_says_why(
    identity: ProcessIdentityView,
    force: bool,
    message: Seq<char>,
    state: CloseStateView,
    exited: bool,
)
    ensures
        ({
            let result = failed_result(identity, force, message);
            &&& result.pid == identity.pid
            &&& result.mode == mode_name(force)
            &&& !result.requested
            &&& !result.exited
            &&& result.message == message
        }),
        ({
            let result = close_result(state, exited, message);
            &&& result.pid == state.pid
            &&& result.mode == mode_name(state.force)
            &&& result.requested == state.asked
            &&& result.exited == exited
            &&& result.message == message
        }),
        !gone_result(identity, force).requested,
        ({
            let step = given_up(state, message);
            &&& step.0.stage == CloseStage::Done
            &&& step.1 == CloseActionView::Report(
                failed_result(state.requested, state.force, message),
            )
        }),
        ({
            let step = looked_up(state, message);
            &&& step.0.stage == CloseStage::Lookup
            &&& step.0.fault == Some(message)
            &&& step.1 == CloseActionView::LookUp(state.requested.pid)
        }),
{
}

} // verus!

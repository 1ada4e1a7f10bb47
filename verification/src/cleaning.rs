//! Cleaning backups up, step by step: useless ones go first, damaged ones next, old ones last.

use crate::backups;
use crate::backups::{
    select_group, BackupCleanupResult, BackupCleanupResultView, BackupEntry, BackupEntryView,
    BackupGroup, BackupSummary, BackupSummaryView,
};
use crate::model::Model;
use crate::ordered::{OrderedMap, OrderedSet};
use crate::retention;
use crate::retention::{
    broken_candidates, finish_cleanup, judge_managed, note_broken_removal, note_damaged_removal,
    note_pruned, start_cleanup, CleanupRequest, CleanupRequestView, ManagedVerdict, PruneState,
    PruneStateView,
};
use vstd::prelude::*;

verus! {

/// What a cleanup waits for.
#[derive(Clone, Copy, Debug, PartialEq, Eq, Structural)]
pub enum CleanupStage {
    /// The list of all backups.
    ListAll,
    /// The removal of a useless backup.
    RemoveUseless,
    /// The list of what is left.
    ListManaged,
    /// A thorough check of a backup.
    Check,
    /// The removal of a damaged backup.
    RemoveDamaged,
    /// The removal of an old backup.
    Prune,
    /// The list of what is left at the end.
    ListRest,
    Done,
}

/// How far a cleanup has come.
pub struct CleanupState {
    pub request: CleanupRequest,
    pub stage: CleanupStage,
    pub result: BackupCleanupResult,
    /// The paths of the backups that the operation at hand needs.
    pub guards: OrderedSet<String>,
    /// The backups that are looked at, one after the other.
    pub entries: Vec<BackupEntry>,
    /// The position of the backup that is looked at or removed.
    pub next: usize,
    /// The backups that were found healthy.
    pub healthy: Vec<BackupEntry>,
    /// Why the backup that is removed is damaged.
    pub fault: String,
    pub prune: PruneState,
}

/// What a `CleanupState` stands for.
#[verifier::ext_equal]
pub struct CleanupStateView {
    pub request: CleanupRequestView,
    pub stage: CleanupStage,
    pub result: BackupCleanupResultView,
    pub guards: Set<Seq<char>>,
    pub entries: Seq<BackupEntryView>,
    pub next: usize,
    pub healthy: Seq<BackupEntryView>,
    pub fault: Seq<char>,
    pub prune: PruneStateView,
}

impl DeepView for CleanupState {
    type V = CleanupStateView;

    open spec fn deep_view(&self) -> CleanupStateView {
        CleanupStateView {
            request: self.request.deep_view(),
            stage: self.stage,
            result: self.result.deep_view(),
            guards: self.guards.deep_view(),
            entries: self.entries.deep_view(),
            next: self.next,
            healthy: self.healthy.deep_view(),
            fault: self.fault@,
            prune: self.prune.deep_view(),
        }
    }
}

/// What happened.
pub enum CleanupEvent {
    /// The backups, how long ago each changed, and the paths of those that the operation at hand
    /// needs.
    Listed {
        summary: BackupSummary,
        ages: OrderedMap<String, u64>,
        guards: OrderedSet<String>,
    },
    /// What a thorough check found wrong, if anything.
    Checked(Option<String>),
    /// Why a backup could not be removed, if it could not.
    Removed(Option<String>),
}

/// What a `CleanupEvent` stands for.
#[verifier::ext_equal]
pub enum CleanupEventView {
    Listed { summary: BackupSummaryView, ages: Map<Seq<char>, u64>, guards: Set<Seq<char>> },
    Checked(Option<Seq<char>>),
    Removed(Option<Seq<char>>),
}

impl DeepView for CleanupEvent {
    type V = CleanupEventView;

    open spec fn deep_view(&self) -> CleanupEventView {
        match self {
            CleanupEvent::Listed { summary, ages, guards } => CleanupEventView::Listed {
                summary: summary.deep_view(),
                ages: ages.deep_view(),
                guards: guards.deep_view(),
            },
            CleanupEvent::Checked(fault) => CleanupEventView::Checked(fault.deep_view()),
            CleanupEvent::Removed(failure) => CleanupEventView::Removed(failure.deep_view()),
        }
    }
}

/// What is to be done.
#[derive(Clone, Debug, PartialEq, Eq)]
pub enum CleanupAction {
    List,
    /// Check the backup at a path thoroughly.
    Check(String),
    /// Remove the backup at a path.
    Remove(String),
    Report(BackupCleanupResult),
}

/// What a `CleanupAction` stands for.
#[verifier::ext_equal]
pub enum CleanupActionView {
    List,
    Check(Seq<char>),
    Remove(Seq<char>),
    Report(BackupCleanupResultView),
}

impl DeepView for CleanupAction {
    type V = CleanupActionView;

    open spec fn deep_view(&self) -> CleanupActionView {
        match self {
            CleanupAction::List => CleanupActionView::List,
            CleanupAction::Check(path) => CleanupActionView::Check(path@),
            CleanupAction::Remove(path) => CleanupActionView::Remove(path@),
            CleanupAction::Report(result) => CleanupActionView::Report(result.deep_view()),
        }
    }
}

/// The event is one that the stage waits for, and what it lists can be counted.
pub open spec fn awaits(state: CleanupStateView, event: CleanupEventView) -> bool {
    match state.stage {
        CleanupStage::ListAll | CleanupStage::ListManaged | CleanupStage::ListRest => match event {
            CleanupEventView::Listed { summary, .. } => backups::bytes_of(summary.entries)
                <= u64::MAX,
            _ => false,
        },
        CleanupStage::Check => event is Checked && state.result.removed_count < usize::MAX,
        CleanupStage::RemoveUseless | CleanupStage::RemoveDamaged | CleanupStage::Prune => event is Removed
            && state.result.removed_count < usize::MAX && state.result.removed_legacy_count
            < usize::MAX,
        CleanupStage::Done => false,
    }
}

/// What holds of every state: what is looked at is there, and what is being removed is needed by
/// nothing and is none of the newest few.
pub open spec fn sound(state: CleanupStateView) -> bool {
    let next = state.next as int;
    match state.stage {
        CleanupStage::RemoveUseless => {
            &&& next < state.entries.len()
            &&& forall|i: int|
                0 <= i < state.entries.len() ==> !retention::guarded(
                    #[trigger] state.entries[i],
                    state.guards,
                )
        },
        CleanupStage::Check | CleanupStage::RemoveDamaged => {
            &&& next < state.entries.len()
            &&& backups::bytes_of(state.healthy) <= backups::bytes_of(state.entries.take(next))
            &&& backups::bytes_of(state.entries) <= u64::MAX
            &&& state.stage == CleanupStage::RemoveDamaged ==> !retention::guarded(
                state.entries[next],
                state.guards,
            )
        },
        CleanupStage::Prune => {
            &&& state.request.policy.minimum_automatic <= next < state.prune.next
            &&& state.prune.next <= state.healthy.len()
            &&& state.prune.remaining_count > 0
            &&& !retention::guarded(state.healthy[next], state.guards)
        },
        _ => true,
    }
}

/// A step of a cleanup.
pub type CleanupStepView = (CleanupStateView, CleanupActionView);

/// The next useless backup is removed, or what is left is listed.
pub open spec fn next_useless(state: CleanupStateView) -> CleanupStepView {
    if state.next < state.entries.len() {
        (
            CleanupStateView { stage: CleanupStage::RemoveUseless, ..state },
            CleanupActionView::Remove(state.entries[state.next as int].path),
        )
    } else {
        (
            CleanupStateView { stage: CleanupStage::ListManaged, ..state },
            CleanupActionView::List,
        )
    }
}

/// The next old backup is removed, or what is left is listed.
pub open spec fn next_old(state: CleanupStateView) -> CleanupStepView {
    match retention::next_pruned(
        state.healthy,
        state.guards,
        state.request.policy,
        state.prune,
    ) {
        Some(index) => (
            CleanupStateView { stage: CleanupStage::Prune, next: index as usize, ..state },
            CleanupActionView::Remove(state.healthy[index].path),
        ),
        None => (
            CleanupStateView { stage: CleanupStage::ListRest, ..state },
            CleanupActionView::List,
        ),
    }
}

/// The next backup is checked, or old ones are removed.
pub open spec fn next_check(state: CleanupStateView) -> CleanupStepView {
    if state.next < state.entries.len() {
        (
            CleanupStateView { stage: CleanupStage::Check, ..state },
            CleanupActionView::Check(state.entries[state.next as int].path),
        )
    } else {
        next_old(CleanupStateView { prune: retention::prune_start(state.healthy), ..state })
    }
}

/// A damaged backup was removed, or kept because something needs it.
pub open spec fn damage_noted(
    state: CleanupStateView,
    fault: Seq<char>,
    failure: Option<Seq<char>>,
) -> CleanupStateView {
    CleanupStateView {
        result: retention::damaged_noted(
            state.result,
            state.entries[state.next as int],
            fault,
            failure,
        ),
        next: (state.next + 1) as usize,
        ..state
    }
}

/// The next state of a cleanup, and what is to be done.
pub open spec fn cleaning(state: CleanupStateView, event: CleanupEventView) -> CleanupStepView {
    match (state.stage, event) {
        (
            CleanupStage::ListAll,
            CleanupEventView::Listed { summary, ages, guards },
        ) => next_useless(
            CleanupStateView {
                guards,
                entries: retention::useless_of(
                    summary.entries,
                    ages,
                    guards,
                    state.request.include_legacy,
                ),
                next: 0,
                ..state
            },
        ),
        (CleanupStage::RemoveUseless, CleanupEventView::Removed(failure)) => next_useless(
            CleanupStateView {
                result: retention::useless_noted(
                    state.result,
                    state.entries[state.next as int],
                    failure,
                ),
                next: (state.next + 1) as usize,
                ..state
            },
        ),
        (CleanupStage::ListManaged, CleanupEventView::Listed { summary, guards, .. }) => {
            let managed = backups::group_of(summary.entries, BackupGroup::Automatic);
            if state.request.deep_integrity {
                next_check(
                    CleanupStateView {
                        guards,
                        entries: managed,
                        next: 0,
                        healthy: Seq::empty(),
                        ..state
                    },
                )
            } else {
                next_old(
                    CleanupStateView {
                        guards,
                        healthy: managed,
                        prune: retention::prune_start(managed),
                        ..state
                    },
                )
            }
        },
        (CleanupStage::Check, CleanupEventView::Checked(fault)) => {
            let entry = state.entries[state.next as int];
            match retention::managed_verdict(entry, state.guards, fault) {
                ManagedVerdict::Healthy => next_check(
                    CleanupStateView {
                        healthy: state.healthy.push(entry),
                        next: (state.next + 1) as usize,
                        ..state
                    },
                ),
                ManagedVerdict::Keep => next_check(
                    damage_noted(state, fault->0, Some("the backup is protected"@)),
                ),
                ManagedVerdict::Remove => (
                    CleanupStateView {
                        stage: CleanupStage::RemoveDamaged,
                        fault: fault->0,
                        ..state
                    },
                    CleanupActionView::Remove(entry.path),
                ),
            }
        },
        (CleanupStage::RemoveDamaged, CleanupEventView::Removed(failure)) => next_check(
            damage_noted(state, state.fault, failure),
        ),
        (CleanupStage::Prune, CleanupEventView::Removed(failure)) => {
            let entry = state.healthy[state.next as int];
            next_old(
                CleanupStateView {
                    result: retention::pruned_noted(state.result, entry, failure),
                    prune: retention::prune_noted(
                        state.prune,
                        state.next as int,
                        entry,
                        failure is None,
                    ),
                    ..state
                },
            )
        },
        (CleanupStage::ListRest, CleanupEventView::Listed { summary, .. }) => (
            CleanupStateView { stage: CleanupStage::Done, ..state },
            CleanupActionView::Report(
                retention::cleanup_report(
                    state.result,
                    state.request.policy,
                    state.prune,
                    summary,
                ),
            ),
        ),
        _ => (state, CleanupActionView::List),
    }
}

/// Begins a cleanup: the backups are listed first.
pub fn begin_cleanup(request: CleanupRequest) -> (r: (CleanupState, CleanupAction))
    ensures
        r.0.deep_view() == (CleanupStateView {
            request: request.deep_view(),
            stage: CleanupStage::ListAll,
            result: retention::nothing_removed(),
            guards: Set::empty(),
            entries: Seq::empty(),
            next: 0,
            healthy: Seq::empty(),
            fault: Seq::empty(),
            prune: PruneStateView { next: 0, remaining_count: 0, remaining_bytes: 0 },
        }),
        r.1.deep_view() == CleanupActionView::List,
        sound(r.0.deep_view()),
{
    let state = CleanupState {
        request,
        stage: CleanupStage::ListAll,
        result: start_cleanup(),
        guards: OrderedSet::new(),
        entries: Vec::new(),
        next: 0,
        healthy: Vec::new(),
        fault: String::new(),
        prune: PruneState { next: 0, remaining_count: 0, remaining_bytes: 0 },
    };
    assert(state.entries.deep_view() =~= Seq::empty());
    assert(state.healthy.deep_view() =~= Seq::empty());
    assert(state.fault@ =~= Seq::empty());
    assert(state.guards.deep_view() =~= Set::empty());
    (state, CleanupAction::List)
}

fn go_to_useless(state: CleanupState) -> (r: (CleanupState, CleanupAction))
    requires
        forall|i: int|
            0 <= i < state.entries.deep_view().len() ==> !retention::guarded(
                #[trigger] state.entries.deep_view()[i],
                state.guards.deep_view(),
            ),
    ensures
        (r.0.deep_view(), r.1.deep_view()) == next_useless(state.deep_view()),
        sound(r.0.deep_view()),
{
    let mut state = state;
    if state.next < state.entries.len() {
        assert(state.entries.deep_view()[state.next as int]
            == state.entries@[state.next as int].deep_view());
        let path = state.entries[state.next].path.copy_of();
        state.stage = CleanupStage::RemoveUseless;
        (state, CleanupAction::Remove(path))
    } else {
        state.stage = CleanupStage::ListManaged;
        (state, CleanupAction::List)
    }
}

fn go_to_old(state: CleanupState) -> (r: (CleanupState, CleanupAction))
    requires
        state.prune.next <= state.healthy@.len(),
    ensures
        (r.0.deep_view(), r.1.deep_view()) == next_old(state.deep_view()),
        sound(r.0.deep_view()),
{
    let mut state = state;
    match state.prune.next_removal(&state.healthy, &state.guards, &state.request.policy) {
        Some(index) => {
            proof {
                retention::lemma_next_pruned(
                    state.healthy.deep_view(),
                    state.guards.deep_view(),
                    state.request.policy.deep_view(),
                    state.prune.deep_view(),
                );
            }
            assert(state.healthy.deep_view()[index as int]
                == state.healthy@[index as int].deep_view());
            let path = state.healthy[index].path.copy_of();
            state.stage = CleanupStage::Prune;
            state.next = index;
            (state, CleanupAction::Remove(path))
        },
        None => {
            state.stage = CleanupStage::ListRest;
            (state, CleanupAction::List)
        },
    }
}

fn go_to_check(state: CleanupState) -> (r: (CleanupState, CleanupAction))
    requires
        state.next <= state.entries@.len(),
        backups::bytes_of(state.healthy.deep_view()) <= backups::bytes_of(
            state.entries.deep_view().take(state.next as int),
        ),
        backups::bytes_of(state.entries.deep_view()) <= u64::MAX,
    ensures
        (r.0.deep_view(), r.1.deep_view()) == next_check(state.deep_view()),
        sound(r.0.deep_view()),
{
    let mut state = state;
    if state.next < state.entries.len() {
        assert(state.entries.deep_view()[state.next as int]
            == state.entries@[state.next as int].deep_view());
        let path = state.entries[state.next].path.copy_of();
        state.stage = CleanupStage::Check;
        (state, CleanupAction::Check(path))
    } else {
        assert(state.entries.deep_view().take(state.next as int) =~= state.entries.deep_view());
        state.prune = PruneState::start(&state.healthy);
        go_to_old(state)
    }
}

proof fn lemma_useless_is_not_needed(
    entries: Seq<BackupEntryView>,
    ages: Map<Seq<char>, u64>,
    guards: Set<Seq<char>>,
    include_legacy: bool,
)
    ensures
        forall|i: int|
            0 <= i < retention::useless_of(entries, ages, guards, include_legacy).len()
                ==> !retention::guarded(
                #[trigger] retention::useless_of(entries, ages, guards, include_legacy)[i],
                guards,
            ),
    decreases entries.len(),
{
    if entries.len() > 0 {
        lemma_useless_is_not_needed(entries.drop_last(), ages, guards, include_legacy);
        let rest = retention::useless_of(entries.drop_last(), ages, guards, include_legacy);
        let all = retention::useless_of(entries, ages, guards, include_legacy);
        assert forall|i: int| 0 <= i < all.len() implies !retention::guarded(
            #[trigger] all[i],
            guards,
        ) by {
            if i < rest.len() {
                assert(all[i] == rest[i]);
            }
        }
    }
}

proof fn lemma_one_more(entries: Seq<BackupEntryView>, n: int)
    requires
        0 <= n < entries.len(),
    ensures
        backups::bytes_of(entries.take(n + 1)) == backups::bytes_of(entries.take(n))
            + entries[n].size_bytes,
{
    assert(entries.take(n + 1).drop_last() =~= entries.take(n));
}

/// Notes that a useless backup was removed, or why it could not be.
fn note_useless(state: CleanupState, failure: Option<String>) -> (r: (CleanupState, CleanupAction))
    requires
        state.stage == CleanupStage::RemoveUseless,
        sound(state.deep_view()),
        awaits(state.deep_view(), CleanupEventView::Removed(failure.deep_view())),
    ensures
        (r.0.deep_view(), r.1.deep_view()) == cleaning(
            state.deep_view(),
            CleanupEventView::Removed(failure.deep_view()),
        ),
        sound(r.0.deep_view()),
{
    let mut state = state;
    assert(state.entries.deep_view()[state.next as int]
        == state.entries@[state.next as int].deep_view());
    let count: usize = state.entries.len();
    note_broken_removal(&mut state.result, &state.entries[state.next], &failure);
    assert(state.next < count);
    state.next = state.next + 1;
    go_to_useless(state)
}

/// Notes what a thorough check found of a backup.
fn note_check(state: CleanupState, fault: Option<String>) -> (r: (CleanupState, CleanupAction))
    requires
        state.stage == CleanupStage::Check,
        sound(state.deep_view()),
        awaits(state.deep_view(), CleanupEventView::Checked(fault.deep_view())),
    ensures
        (r.0.deep_view(), r.1.deep_view()) == cleaning(
            state.deep_view(),
            CleanupEventView::Checked(fault.deep_view()),
        ),
        sound(r.0.deep_view()),
{
    let mut state = state;
    let index: usize = state.next;
    let count: usize = state.entries.len();
    assert(index < count);
    let ghost view = state.deep_view();
    assert(view.entries[index as int] == state.entries@[index as int].deep_view());
    proof {
        lemma_one_more(view.entries, index as int);
    }
    let verdict = judge_managed(&state.entries[index], &state.guards, &fault);
    match fault {
        None => {
            let entry = state.entries[index].copy_of();
            state.healthy.push(entry);
            assert(state.healthy.deep_view() =~= view.healthy.push(view.entries[index as int]));
            assert(state.healthy.deep_view().drop_last() =~= view.healthy);
            state.next = index + 1;
            go_to_check(state)
        },
        Some(reason) => {
            if verdict == ManagedVerdict::Keep {
                note_damaged_removal(
                    &mut state.result,
                    &state.entries[index],
                    reason.as_str(),
                    &Some("the backup is protected".to_owned()),
                );
                state.next = index + 1;
                go_to_check(state)
            } else {
                let path = state.entries[index].path.copy_of();
                state.stage = CleanupStage::RemoveDamaged;
                state.fault = reason;
                (state, CleanupAction::Remove(path))
            }
        },
    }
}

/// Notes that a damaged backup was removed, or why it could not be.
fn note_damaged(state: CleanupState, failure: Option<String>) -> (r: (CleanupState, CleanupAction))
    requires
        state.stage == CleanupStage::RemoveDamaged,
        sound(state.deep_view()),
        awaits(state.deep_view(), CleanupEventView::Removed(failure.deep_view())),
    ensures
        (r.0.deep_view(), r.1.deep_view()) == cleaning(
            state.deep_view(),
            CleanupEventView::Removed(failure.deep_view()),
        ),
        sound(r.0.deep_view()),
{
    let mut state = state;
    let index: usize = state.next;
    let count: usize = state.entries.len();
    assert(index < count);
    assert(state.entries.deep_view()[index as int] == state.entries@[index as int].deep_view());
    proof {
        lemma_one_more(state.entries.deep_view(), index as int);
    }
    note_damaged_removal(
        &mut state.result,
        &state.entries[index],
        state.fault.as_str(),
        &failure,
    );
    state.next = index + 1;
    go_to_check(state)
}

/// Notes that an old backup was removed, or why it could not be.
fn note_old(state: CleanupState, failure: Option<String>) -> (r: (CleanupState, CleanupAction))
    requires
        state.stage == CleanupStage::Prune,
        sound(state.deep_view()),
        awaits(state.deep_view(), CleanupEventView::Removed(failure.deep_view())),
    ensures
        (r.0.deep_view(), r.1.deep_view()) == cleaning(
            state.deep_view(),
            CleanupEventView::Removed(failure.deep_view()),
        ),
        sound(r.0.deep_view()),
{
    let mut state = state;
    let index: usize = state.next;
    assert(state.healthy.deep_view()[index as int] == state.healthy@[index as int].deep_view());
    note_pruned(&mut state.result, &state.healthy[index], &failure);
    state.prune.note(index, &state.healthy[index], failure.is_none());
    go_to_old(state)
}

/// Goes on with a cleanup after an event: the next state, and what is to be done.
pub fn cleanup_backups_unlocked_with_policy(state: CleanupState, event: CleanupEvent) -> (r: (
    CleanupState,
    CleanupAction,
))
    requires
        sound(state.deep_view()),
        awaits(state.deep_view(), event.deep_view()),
    ensures
        (r.0.deep_view(), r.1.deep_view()) == cleaning(state.deep_view(), event.deep_view()),
        sound(r.0.deep_view()),
{
    match event {
        CleanupEvent::Checked(fault) => note_check(state, fault),
        CleanupEvent::Removed(failure) => match state.stage {
            CleanupStage::RemoveUseless => note_useless(state, failure),
            CleanupStage::RemoveDamaged => note_damaged(state, failure),
            _ => note_old(state, failure),
        },
        CleanupEvent::Listed { summary, ages, guards } => {
            let mut state = state;
            match state.stage {
                CleanupStage::ListAll => {
                    proof {
                        lemma_useless_is_not_needed(
                            summary.entries.deep_view(),
                            ages.deep_view(),
                            guards.deep_view(),
                            state.request.include_legacy,
                        );
                    }
                    state.entries = broken_candidates(
                        &summary.entries,
                        &ages,
                        &guards,
                        state.request.include_legacy,
                    );
                    state.guards = guards;
                    state.next = 0;
                    go_to_useless(state)
                },
                CleanupStage::ListManaged => {
                    proof {
                        backups::lemma_group_bytes(
                            summary.entries.deep_view(),
                            BackupGroup::Automatic,
                        );
                    }
                    let managed = select_group(&summary.entries, BackupGroup::Automatic);
                    state.guards = guards;
                    if state.request.deep_integrity {
                        state.entries = managed;
                        state.next = 0;
                        state.healthy = Vec::new();
                        assert(state.healthy.deep_view() =~= Seq::empty());
                        assert(state.entries.deep_view().take(0) =~= Seq::empty());
                        go_to_check(state)
                    } else {
                        state.prune = PruneState::start(&managed);
                        state.healthy = managed;
                        go_to_old(state)
                    }
                },
                _ => {
                    state.stage = CleanupStage::Done;
                    let result = state.result.copy_of();
                    let report = finish_cleanup(
                        result,
                        &state.request.policy,
                        &state.prune,
                        &summary,
                    );
                    (state, CleanupAction::Report(report))
                },
            }
        },
    }
}

/// Whether the event is one that the state waits for, and can be counted.
pub fn is_awaited(state: &CleanupState, event: &CleanupEvent) -> (r: bool)
    ensures
        r == awaits(state.deep_view(), event.deep_view()),
{
    match event {
        CleanupEvent::Listed { summary, .. } => match state.stage {
            CleanupStage::ListAll | CleanupStage::ListManaged | CleanupStage::ListRest => {
                bytes_fit(&summary.entries)
            },
            _ => false,
        },
        CleanupEvent::Checked(_) => match state.stage {
            CleanupStage::Check => state.result.removed_count < usize::MAX,
            _ => false,
        },
        CleanupEvent::Removed(_) => match state.stage {
            CleanupStage::RemoveUseless | CleanupStage::RemoveDamaged | CleanupStage::Prune => {
                state.result.removed_count < usize::MAX && state.result.removed_legacy_count
                    < usize::MAX
            },
            _ => false,
        },
    }
}

/// Whether the sizes of backups add up to a number that can be held.
fn bytes_fit(entries: &Vec<BackupEntry>) -> (r: bool)
    ensures
        r == (backups::bytes_of(entries.deep_view()) <= u64::MAX),
{
    let ghost view = entries.deep_view();
    let mut total: u64 = 0;
    let mut i: usize = 0;
    assert(backups::bytes_of(view.take(0)) == 0);
    while i < entries.len()
        invariant
            i <= entries@.len(),
            view == entries.deep_view(),
            total == backups::bytes_of(view.take(i as int)),
        decreases entries@.len() - i,
    {
        proof {
            lemma_one_more(view, i as int);
            lemma_bytes_grow(view, i + 1);
        }
        assert(view[i as int] == entries@[i as int].deep_view());
        match total.checked_add(entries[i].size_bytes) {
            Some(sum) => {
                total = sum;
            },
            None => {
                return false;
            },
        }
        i += 1;
    }
    assert(view.take(i as int) =~= view);
    true
}

proof fn lemma_bytes_grow(entries: Seq<BackupEntryView>, n: int)
    requires
        0 <= n <= entries.len(),
    ensures
        backups::bytes_of(entries.take(n)) <= backups::bytes_of(entries),
    decreases entries.len() - n,
{
    if n < entries.len() {
        lemma_one_more(entries, n);
        lemma_bytes_grow(entries, n + 1);
    } else {
        assert(entries.take(n) =~= entries);
    }
}

/// A cleanup only ever removes a backup that nothing needs: not one that is protected, not one that
/// the operation at hand needs, and among the old ones none of the newest few.
pub proof fn law_cleanup_removes_nothing_needed(state: CleanupStateView, event: CleanupEventView)
    requires
        sound(state),
        awaits(state, event),
        cleaning(state, event).1 is Remove,
    ensures
        ({
            let (next, action) = cleaning(state, event);
            let removed = if next.stage == CleanupStage::Prune {
                next.healthy[next.next as int]
            } else {
                next.entries[next.next as int]
            };
            &&& action == CleanupActionView::Remove(removed.path)
            &&& !retention::guarded(removed, next.guards)
            &&& next.stage == CleanupStage::Prune ==> next.next
                >= next.request.policy.minimum_automatic
        }),
{
    if event is Listed {
        lemma_useless_is_not_needed(
            event->summary.entries,
            event->ages,
            event->Listed_guards,
            state.request.include_legacy,
        );
    }
    let (next, _) = cleaning(state, event);
    if next.stage == CleanupStage::Prune {
        retention::lemma_next_pruned(
            next.healthy,
            next.guards,
            next.request.policy,
            next.prune,
        );
    }
}

/// A cleanup removes what is useless one after the other, then looks at the automatic backups that
/// are left, checks each where that is wanted, removes damaged ones, then old ones, and reports what
/// is left in the end.
pub proof fn law_cleanup_goes_step_by_step(
    state: CleanupStateView,
    summary: BackupSummaryView,
    ages: Map<Seq<char>, u64>,
    guards: Set<Seq<char>>,
    fault: Seq<char>,
)
    ensures
        state.stage == CleanupStage::ListAll ==> ({
            let next = cleaning(state, CleanupEventView::Listed { summary, ages, guards });
            let useless = retention::useless_of(
                summary.entries,
                ages,
                guards,
                state.request.include_legacy,
            );
            &&& next.0.guards == guards
            &&& next.0.entries == useless
            &&& useless.len() > 0 ==> next.1 == CleanupActionView::Remove(useless[0].path)
            &&& useless.len() == 0 ==> next.0.stage == CleanupStage::ListManaged && next.1 is List
        }),
        state.stage == CleanupStage::ListManaged ==> ({
            let next = cleaning(state, CleanupEventView::Listed { summary, ages, guards });
            let managed = backups::group_of(summary.entries, BackupGroup::Automatic);
            &&& next.0.guards == guards
            &&& state.request.deep_integrity && managed.len() > 0 ==> next.1
                == CleanupActionView::Check(managed[0].path) && next.0.healthy.len() == 0
            &&& !state.request.deep_integrity ==> next.0.healthy == managed
                && next.0.prune == retention::prune_start(managed)
        }),
        state.stage == CleanupStage::Check && state.next < state.entries.len() ==> ({
            let entry = state.entries[state.next as int];
            let fine = cleaning(state, CleanupEventView::Checked(None));
            let bad = cleaning(state, CleanupEventView::Checked(Some(fault)));
            &&& fine.0.healthy == state.healthy.push(entry)
            &&& fine.0.result == state.result
            &&& !entry.protected && !state.guards.contains(entry.path) ==> bad.1
                == CleanupActionView::Remove(entry.path) && bad.0.fault == fault
            &&& entry.protected || state.guards.contains(entry.path) ==> bad.0.result.warnings.len()
                == state.result.warnings.len() + 1 && bad.0.healthy == state.healthy
                && bad.0.result.removed_count == state.result.removed_count
        }),
        state.stage == CleanupStage::ListRest ==> ({
            let next = cleaning(state, CleanupEventView::Listed { summary, ages, guards });
            &&& next.0.stage == CleanupStage::Done
            &&& next.1 is Report
            &&& next.1->Report_0.remaining_bytes == summary.total_bytes
            &&& next.1->Report_0.removed_count == state.result.removed_count
        }),
        state.stage == CleanupStage::Prune && state.next < state.healthy.len()
            && state.prune.remaining_count > 0 ==> ({
            let gone = cleaning(state, CleanupEventView::Removed(None));
            let stayed = cleaning(state, CleanupEventView::Removed(Some(fault)));
            &&& gone.0.prune.remaining_count == state.prune.remaining_count - 1
            &&& gone.0.result.warnings == state.result.warnings
            &&& stayed.0.prune.remaining_count == state.prune.remaining_count
            &&& stayed.0.result.removed_count == state.result.removed_count
            &&& stayed.0.result.warnings == state.result.warnings.push(fault)
        }),
{
}

/// A cleanup goes on with the next backup as long as there is one, and only then to the next stage:
/// from useless ones to a new list, from checks to the old ones, from old ones to what is left.
pub proof fn law_cleanup_looks_at_every_backup(state: CleanupStateView)
    ensures
        state.next < state.entries.len() ==> next_useless(state).1 == CleanupActionView::Remove(
            state.entries[state.next as int].path,
        ) && next_useless(state).0.stage == CleanupStage::RemoveUseless,
        state.next >= state.entries.len() ==> next_useless(state).1 is List && next_useless(
            state,
        ).0.stage == CleanupStage::ListManaged,
        state.next < state.entries.len() ==> next_check(state).1 == CleanupActionView::Check(
            state.entries[state.next as int].path,
        ) && next_check(state).0.stage == CleanupStage::Check,
        state.next >= state.entries.len() ==> next_check(state) == next_old(
            CleanupStateView { prune: retention::prune_start(state.healthy), ..state },
        ),
        ({
            let found = retention::next_pruned(
                state.healthy,
                state.guards,
                state.request.policy,
                state.prune,
            );
            &&& found is None ==> next_old(state).1 is List && next_old(state).0.stage
                == CleanupStage::ListRest
            &&& found is Some ==> next_old(state).1 == CleanupActionView::Remove(
                state.healthy[found->0].path,
            ) && next_old(state).0.stage == CleanupStage::Prune
        }),
{
}

} // verus!

//! Which backups a cleanup removes.

use crate::backups;
use crate::backups::{
    count_bytes, push_text, select_group, BackupCleanupResult, BackupCleanupResultView,
    BackupDirectoryView, BackupEntry, BackupEntryView, BackupGroup, BackupSummary, BackupSummaryView,
    AUTOMATIC_BACKUP_LIMIT, BACKUP_CAPACITY_LIMIT_BYTES, MINIMUM_AUTOMATIC_BACKUPS,
};
use crate::journal::{PendingOperation, PendingOperationView};
use crate::model;
use crate::model::Model;
use crate::ordered::{OrderedMap, OrderedSet};
use crate::sessions;
use crate::text::{join3, join4, join6, same};
use vstd::prelude::*;

verus! {

/// For how many seconds an incomplete backup is left alone.
pub const INCOMPLETE_BACKUP_GRACE: u64 = 86400;

/// How many backups are kept.
#[derive(Clone, Debug, PartialEq, Eq)]
pub struct BackupPolicy {
    pub automatic_limit: usize,
    pub minimum_automatic: usize,
    pub capacity_limit_bytes: u64,
}

/// What a `BackupPolicy` stands for.
#[verifier::ext_equal]
pub struct BackupPolicyView {
    pub automatic_limit: usize,
    pub minimum_automatic: usize,
    pub capacity_limit_bytes: u64,
}

impl DeepView for BackupPolicy {
    type V = BackupPolicyView;

    open spec fn deep_view(&self) -> BackupPolicyView {
        BackupPolicyView {
            automatic_limit: self.automatic_limit.deep_view(),
            minimum_automatic: self.minimum_automatic.deep_view(),
            capacity_limit_bytes: self.capacity_limit_bytes.deep_view(),
        }
    }
}

impl Model for BackupPolicy {
    fn copy_of(&self) -> (r: Self) {
        BackupPolicy {
            automatic_limit: self.automatic_limit.copy_of(),
            minimum_automatic: self.minimum_automatic.copy_of(),
            capacity_limit_bytes: self.capacity_limit_bytes.copy_of(),
        }
    }

    fn same_as(&self, other: &Self) -> (r: bool) {
        self.automatic_limit.same_as(&other.automatic_limit)
            && self.minimum_automatic.same_as(&other.minimum_automatic)
            && self.capacity_limit_bytes.same_as(&other.capacity_limit_bytes)
    }
}

/// A cleanup that is wanted.
#[derive(Clone, Debug, PartialEq, Eq)]
pub struct CleanupRequest {
    pub include_legacy: bool,
    /// Backups are checked thoroughly, not only on the surface.
    pub deep_integrity: bool,
    pub policy: BackupPolicy,
}

/// What a `CleanupRequest` stands for.
#[verifier::ext_equal]
pub struct CleanupRequestView {
    pub include_legacy: bool,
    pub deep_integrity: bool,
    pub policy: BackupPolicyView,
}

impl DeepView for CleanupRequest {
    type V = CleanupRequestView;

    open spec fn deep_view(&self) -> CleanupRequestView {
        CleanupRequestView {
            include_legacy: self.include_legacy.deep_view(),
            deep_integrity: self.deep_integrity.deep_view(),
            policy: self.policy.deep_view(),
        }
    }
}

impl Model for CleanupRequest {
    fn copy_of(&self) -> (r: Self) {
        CleanupRequest {
            include_legacy: self.include_legacy.copy_of(),
            deep_integrity: self.deep_integrity.copy_of(),
            policy: self.policy.copy_of(),
        }
    }

    fn same_as(&self, other: &Self) -> (r: bool) {
        self.include_legacy.same_as(&other.include_legacy)
            && self.deep_integrity.same_as(&other.deep_integrity)
            && self.policy.same_as(&other.policy)
    }
}

/// What becomes of a managed backup.
#[derive(Clone, Copy, Debug, PartialEq, Eq, Structural)]
pub enum ManagedVerdict {
    Healthy,
    /// It is damaged and removed.
    Remove,
    /// It is damaged, but something needs it.
    Keep,
}

impl DeepView for ManagedVerdict {
    type V = ManagedVerdict;

    open spec fn deep_view(&self) -> ManagedVerdict {
        *self
    }
}

impl Model for ManagedVerdict {
    fn copy_of(&self) -> (r: Self) {
        *self
    }

    fn same_as(&self, other: &Self) -> (r: bool) {
        *self == *other
    }
}

/// How far the removal of old backups has come.
#[derive(Clone, Debug, PartialEq, Eq)]
pub struct PruneState {
    /// The backups before this position are still to be looked at.
    pub next: usize,
    pub remaining_count: usize,
    pub remaining_bytes: u64,
}

/// What a `PruneState` stands for.
#[verifier::ext_equal]
pub struct PruneStateView {
    pub next: usize,
    pub remaining_count: usize,
    pub remaining_bytes: u64,
}

impl DeepView for PruneState {
    type V = PruneStateView;

    open spec fn deep_view(&self) -> PruneStateView {
        PruneStateView {
            next: self.next.deep_view(),
            remaining_count: self.remaining_count.deep_view(),
            remaining_bytes: self.remaining_bytes.deep_view(),
        }
    }
}

impl Model for PruneState {
    fn copy_of(&self) -> (r: Self) {
        PruneState {
            next: self.next.copy_of(),
            remaining_count: self.remaining_count.copy_of(),
            remaining_bytes: self.remaining_bytes.copy_of(),
        }
    }

    fn same_as(&self, other: &Self) -> (r: bool) {
        self.next.same_as(&other.next)
            && self.remaining_count.same_as(&other.remaining_count)
            && self.remaining_bytes.same_as(&other.remaining_bytes)
    }
}

/// The policy of every cleanup.
pub open spec fn the_policy() -> BackupPolicyView {
    BackupPolicyView {
        automatic_limit: AUTOMATIC_BACKUP_LIMIT,
        minimum_automatic: MINIMUM_AUTOMATIC_BACKUPS,
        capacity_limit_bytes: BACKUP_CAPACITY_LIMIT_BYTES,
    }
}

/// The policy of every cleanup.
pub fn standard_policy() -> (r: BackupPolicy)
    ensures
        r.deep_view() == the_policy(),
{
    BackupPolicy {
        automatic_limit: AUTOMATIC_BACKUP_LIMIT,
        minimum_automatic: MINIMUM_AUTOMATIC_BACKUPS,
        capacity_limit_bytes: BACKUP_CAPACITY_LIMIT_BYTES,
    }
}

/// A backup that something needs: a pending operation, or the one that `guards` names.
pub open spec fn guarded(entry: BackupEntryView, guards: Set<Seq<char>>) -> bool {
    entry.protected || guards.contains(entry.path)
}

fn is_protected(entry: &BackupEntry, guards: &OrderedSet<String>) -> (r: bool)
    ensures
        r == guarded(entry.deep_view(), guards.deep_view()),
{
    entry.protected || guards.contains(&entry.path)
}

/// An incomplete backup that was left alone for long enough.
pub open spec fn expired(entry: BackupEntryView, ages: Map<Seq<char>, u64>) -> bool {
    entry.status == "incomplete"@ && ages.dom().contains(entry.path) && ages[entry.path]
        >= INCOMPLETE_BACKUP_GRACE
}

/// Whether an incomplete backup was left alone for long enough; `ages` gives the seconds since the
/// last change of a backup by its path.
pub fn incomplete_backup_is_expired(entry: &BackupEntry, ages: &OrderedMap<String, u64>) -> (r:
    bool)
    ensures
        r == expired(entry.deep_view(), ages.deep_view()),
{
    if !same(entry.status.as_str(), "incomplete") {
        return false;
    }
    match ages.get(&entry.path) {
        Some(age) => *age >= INCOMPLETE_BACKUP_GRACE,
        None => false,
    }
}

/// A backup that is of no use: incomplete for long enough, or corrupt and not pinned, or of an old
/// kind where those are to go; and nothing needs it.
pub open spec fn useless(
    entry: BackupEntryView,
    ages: Map<Seq<char>, u64>,
    guards: Set<Seq<char>>,
    include_legacy: bool,
) -> bool {
    !guarded(entry, guards) && (expired(entry, ages) || (entry.status == "corrupt"@
        && !entry.pinned) || (include_legacy && entry.status == "legacy"@))
}

/// The backups that are of no use, in their order.
pub open spec fn useless_of(
    entries: Seq<BackupEntryView>,
    ages: Map<Seq<char>, u64>,
    guards: Set<Seq<char>>,
    include_legacy: bool,
) -> Seq<BackupEntryView>
    decreases entries.len(),
{
    if entries.len() == 0 {
        Seq::empty()
    } else {
        let rest = useless_of(entries.drop_last(), ages, guards, include_legacy);
        if useless(entries.last(), ages, guards, include_legacy) {
            rest.push(entries.last())
        } else {
            rest
        }
    }
}

/// The backups that are of no use, in their order: a cleanup removes them first.
pub fn broken_candidates(
    entries: &Vec<BackupEntry>,
    ages: &OrderedMap<String, u64>,
    guards: &OrderedSet<String>,
    include_legacy: bool,
) -> (r: Vec<BackupEntry>)
    ensures
        r.deep_view() == useless_of(
            entries.deep_view(),
            ages.deep_view(),
            guards.deep_view(),
            include_legacy,
        ),
{
    let ghost view = entries.deep_view();
    let ghost old_ages = ages.deep_view();
    let ghost needed = guards.deep_view();
    let mut out: Vec<BackupEntry> = Vec::new();
    let mut i: usize = 0;
    assert(out.deep_view() =~= useless_of(view.take(0), old_ages, needed, include_legacy));
    while i < entries.len()
        invariant
            i <= entries@.len(),
            view == entries.deep_view(),
            old_ages == ages.deep_view(),
            needed == guards.deep_view(),
            out.deep_view() == useless_of(
                view.take(i as int),
                old_ages,
                needed,
                include_legacy,
            ),
        decreases entries@.len() - i,
    {
        let ghost before = out.deep_view();
        let entry = &entries[i];
        assert(view[i as int] == entry.deep_view());
        assert(view.take(i + 1).drop_last() =~= view.take(i as int));
        if !is_protected(entry, guards) && (incomplete_backup_is_expired(entry, ages) || (same(
            entry.status.as_str(),
            "corrupt",
        ) && !entry.pinned) || (include_legacy && same(entry.status.as_str(), "legacy"))) {
            out.push(entry.copy_of());
            assert(out.deep_view() =~= before.push(view[i as int]));
        }
        i += 1;
    }
    assert(view.take(i as int) =~= view);
    out
}

/// A sum that stops at the largest number.
pub open spec fn saturating_sum(a: u64, b: u64) -> u64 {
    if a + b > u64::MAX {
        u64::MAX
    } else {
        (a + b) as u64
    }
}

/// A difference that stops at zero.
pub open spec fn saturating_difference(a: u64, b: u64) -> u64 {
    if a < b {
        0
    } else {
        (a - b) as u64
    }
}

/// A result with one more removed backup.
pub open spec fn with_removed(
    result: BackupCleanupResultView,
    entry: BackupEntryView,
) -> BackupCleanupResultView {
    BackupCleanupResultView {
        removed_count: (result.removed_count + 1) as usize,
        reclaimed_bytes: saturating_sum(result.reclaimed_bytes, entry.size_bytes),
        ..result
    }
}

/// A result with one more warning.
pub open spec fn with_warning(
    result: BackupCleanupResultView,
    warning: Seq<char>,
) -> BackupCleanupResultView {
    BackupCleanupResultView { warnings: result.warnings.push(warning), ..result }
}

/// A cleanup that has done nothing yet.
pub open spec fn nothing_removed() -> BackupCleanupResultView {
    BackupCleanupResultView {
        removed_count: 0,
        removed_legacy_count: 0,
        reclaimed_bytes: 0,
        remaining_count: 0,
        remaining_bytes: 0,
        warnings: Seq::empty(),
    }
}

/// A cleanup that has done nothing yet.
pub fn start_cleanup() -> (r: BackupCleanupResult)
    ensures
        r.deep_view() == nothing_removed(),
{
    let warnings: Vec<String> = Vec::new();
    assert(warnings.deep_view() =~= Seq::empty());
    BackupCleanupResult {
        removed_count: 0,
        removed_legacy_count: 0,
        reclaimed_bytes: 0,
        remaining_count: 0,
        remaining_bytes: 0,
        warnings,
    }
}

fn add_removed(result: &mut BackupCleanupResult, entry: &BackupEntry)
    requires
        old(result).removed_count < usize::MAX,
    ensures
        final(result).deep_view() == with_removed(old(result).deep_view(), entry.deep_view()),
{
    result.removed_count = result.removed_count + 1;
    result.reclaimed_bytes = result.reclaimed_bytes.saturating_add(entry.size_bytes);
}

fn add_warning(result: &mut BackupCleanupResult, warning: String)
    ensures
        final(result).deep_view() == with_warning(old(result).deep_view(), warning@),
{
    push_text(&mut result.warnings, warning);
}

/// The result once the removal of a useless backup was tried.
pub open spec fn useless_noted(
    result: BackupCleanupResultView,
    entry: BackupEntryView,
    failure: Option<Seq<char>>,
) -> BackupCleanupResultView {
    match failure {
        Some(error) => with_warning(result, error),
        None => {
            let removed = with_removed(result, entry);
            if entry.status == "legacy"@ {
                BackupCleanupResultView {
                    removed_legacy_count: (removed.removed_legacy_count + 1) as usize,
                    ..removed
                }
            } else if entry.status == "corrupt"@ {
                with_warning(
                    removed,
                    "removed damaged backup ("@ + entry.path
                        + "): failed surface or integrity checks"@,
                )
            } else {
                removed
            }
        },
    }
}

/// Notes that the removal of a useless backup was tried.
pub fn note_broken_removal(
    result: &mut BackupCleanupResult,
    entry: &BackupEntry,
    failure: &Option<String>,
)
    requires
        old(result).removed_count < usize::MAX,
        old(result).removed_legacy_count < usize::MAX,
    ensures
        final(result).deep_view() == useless_noted(
            old(result).deep_view(),
            entry.deep_view(),
            failure.deep_view(),
        ),
{
    match failure {
        Some(error) => {
            add_warning(result, error.copy_of());
        },
        None => {
            add_removed(result, entry);
            if same(entry.status.as_str(), "legacy") {
                result.removed_legacy_count = result.removed_legacy_count + 1;
            } else if same(entry.status.as_str(), "corrupt") {
                add_warning(
                    result,
                    join3(
                        "removed damaged backup (",
                        entry.path.as_str(),
                        "): failed surface or integrity checks",
                    ),
                );
            }
        },
    }
}

/// What becomes of a managed backup, given the fault that a thorough check found.
pub open spec fn managed_verdict(
    entry: BackupEntryView,
    guards: Set<Seq<char>>,
    fault: Option<Seq<char>>,
) -> ManagedVerdict {
    if fault is None {
        ManagedVerdict::Healthy
    } else if guarded(entry, guards) {
        ManagedVerdict::Keep
    } else {
        ManagedVerdict::Remove
    }
}

/// What becomes of a managed backup, given the fault that a thorough check found.
pub fn judge_managed(
    entry: &BackupEntry,
    guards: &OrderedSet<String>,
    fault: &Option<String>,
) -> (r: ManagedVerdict)
    ensures
        r == managed_verdict(entry.deep_view(), guards.deep_view(), fault.deep_view()),
{
    if fault.is_none() {
        ManagedVerdict::Healthy
    } else if is_protected(entry, guards) {
        ManagedVerdict::Keep
    } else {
        ManagedVerdict::Remove
    }
}

/// The result once the removal of a damaged backup was tried, or refused.
pub open spec fn damaged_noted(
    result: BackupCleanupResultView,
    entry: BackupEntryView,
    fault: Seq<char>,
    failure: Option<Seq<char>>,
) -> BackupCleanupResultView {
    match failure {
        None => with_warning(
            with_removed(result, entry),
            "removed damaged backup ("@ + entry.path + "): "@ + fault,
        ),
        Some(error) => with_warning(
            result,
            "could not remove damaged backup ("@ + entry.path + "): "@ + fault
                + "; remove failed: "@ + error,
        ),
    }
}

/// Notes that the removal of a damaged backup was tried, or refused.
pub fn note_damaged_removal(
    result: &mut BackupCleanupResult,
    entry: &BackupEntry,
    fault: &str,
    failure: &Option<String>,
)
    requires
        old(result).removed_count < usize::MAX,
    ensures
        final(result).deep_view() == damaged_noted(
            old(result).deep_view(),
            entry.deep_view(),
            fault@,
            failure.deep_view(),
        ),
{
    match failure {
        None => {
            add_removed(result, entry);
            add_warning(
                result,
                join4("removed damaged backup (", entry.path.as_str(), "): ", fault),
            );
        },
        Some(error) => {
            add_warning(
                result,
                join6(
                    "could not remove damaged backup (",
                    entry.path.as_str(),
                    "): ",
                    fault,
                    "; remove failed: ",
                    error.as_str(),
                ),
            );
        },
    }
}

/// More than the policy allows.
pub open spec fn over_policy(policy: BackupPolicyView, count: usize, bytes: u64) -> bool {
    count > policy.automatic_limit || bytes > policy.capacity_limit_bytes
}

/// Nothing removed yet.
pub open spec fn prune_start(healthy: Seq<BackupEntryView>) -> PruneStateView {
    PruneStateView {
        next: healthy.len() as usize,
        remaining_count: healthy.len() as usize,
        remaining_bytes: backups::bytes_of(healthy) as u64,
    }
}

/// The position of the backup that is removed next: the oldest one not looked at yet that is not
/// among the newest few and that nothing needs. None is once the policy is met, or only the fewest
/// allowed are left.
pub open spec fn next_pruned(
    healthy: Seq<BackupEntryView>,
    guards: Set<Seq<char>>,
    policy: BackupPolicyView,
    state: PruneStateView,
) -> Option<int>
    decreases state.next,
{
    if state.next == 0 || !over_policy(policy, state.remaining_count, state.remaining_bytes)
        || state.remaining_count <= policy.minimum_automatic {
        None
    } else if state.next - 1 < policy.minimum_automatic || guarded(
        healthy[state.next - 1],
        guards,
    ) {
        next_pruned(
            healthy,
            guards,
            policy,
            PruneStateView { next: (state.next - 1) as usize, ..state },
        )
    } else {
        Some(state.next - 1)
    }
}

/// The state once the removal of a backup was tried.
pub open spec fn prune_noted(
    state: PruneStateView,
    index: int,
    entry: BackupEntryView,
    removed: bool,
) -> PruneStateView {
    if removed {
        PruneStateView {
            next: index as usize,
            remaining_count: (state.remaining_count - 1) as usize,
            remaining_bytes: saturating_difference(state.remaining_bytes, entry.size_bytes),
        }
    } else {
        PruneStateView { next: index as usize, ..state }
    }
}

impl PruneState {
    /// Nothing removed yet.
    pub fn start(healthy: &Vec<BackupEntry>) -> (r: PruneState)
        requires
            backups::bytes_of(healthy.deep_view()) <= u64::MAX,
        ensures
            r.deep_view() == prune_start(healthy.deep_view()),
    {
        PruneState {
            next: healthy.len(),
            remaining_count: healthy.len(),
            remaining_bytes: count_bytes(healthy),
        }
    }

    /// The position of the backup that is removed next.
    pub fn next_removal(
        &self,
        healthy: &Vec<BackupEntry>,
        guards: &OrderedSet<String>,
        policy: &BackupPolicy,
    ) -> (r: Option<usize>)
        requires
            self.next <= healthy@.len(),
        ensures
            match r {
                Some(index) => index < self.next && next_pruned(
                    healthy.deep_view(),
                    guards.deep_view(),
                    policy.deep_view(),
                    self.deep_view(),
                ) == Some(index as int),
                None => next_pruned(
                    healthy.deep_view(),
                    guards.deep_view(),
                    policy.deep_view(),
                    self.deep_view(),
                ) is None,
            },
    {
        let over = self.remaining_count > policy.automatic_limit || self.remaining_bytes
            > policy.capacity_limit_bytes;
        if !over || self.remaining_count <= policy.minimum_automatic {
            return None;
        }
        let ghost view = healthy.deep_view();
        let ghost needed = guards.deep_view();
        let ghost state = self.deep_view();
        let ghost wanted = policy.deep_view();
        let mut next: usize = self.next;
        while next > 0
            invariant
                next <= self.next <= healthy@.len(),
                view == healthy.deep_view(),
                needed == guards.deep_view(),
                state == self.deep_view(),
                wanted == policy.deep_view(),
                over_policy(wanted, state.remaining_count, state.remaining_bytes),
                state.remaining_count > wanted.minimum_automatic,
                next_pruned(view, needed, wanted, state) == next_pruned(
                    view,
                    needed,
                    wanted,
                    PruneStateView { next, ..state },
                ),
            decreases next,
        {
            let index: usize = next - 1;
            assert(view[index as int] == healthy@[index as int].deep_view());
            if index >= policy.minimum_automatic && !is_protected(&healthy[index], guards) {
                return Some(index);
            }
            next = index;
        }
        None
    }

    /// Notes that the removal of a backup was tried.
    pub fn note(&mut self, index: usize, entry: &BackupEntry, removed: bool)
        requires
            old(self).remaining_count > 0,
        ensures
            final(self).deep_view() == prune_noted(
                old(self).deep_view(),
                index as int,
                entry.deep_view(),
                removed,
            ),
    {
        self.next = index;
        if removed {
            self.remaining_count = self.remaining_count - 1;
            self.remaining_bytes = self.remaining_bytes.saturating_sub(entry.size_bytes);
        }
    }
}

/// The result once the removal of an old backup was tried.
pub open spec fn pruned_noted(
    result: BackupCleanupResultView,
    entry: BackupEntryView,
    failure: Option<Seq<char>>,
) -> BackupCleanupResultView {
    match failure {
        None => with_removed(result, entry),
        Some(error) => with_warning(result, error),
    }
}

/// Notes that the removal of an old backup was tried.
pub fn note_pruned(
    result: &mut BackupCleanupResult,
    entry: &BackupEntry,
    failure: &Option<String>,
)
    requires
        old(result).removed_count < usize::MAX,
    ensures
        final(result).deep_view() == pruned_noted(
            old(result).deep_view(),
            entry.deep_view(),
            failure.deep_view(),
        ),
{
    match failure {
        None => {
            add_removed(result, entry);
        },
        Some(error) => {
            add_warning(result, error.copy_of());
        },
    }
}

/// Warnings with those added that were not said before.
pub open spec fn merged_warnings(said: Seq<Seq<char>>, more: Seq<Seq<char>>) -> Seq<Seq<char>>
    decreases more.len(),
{
    if more.len() == 0 {
        said
    } else {
        let rest = merged_warnings(said, more.drop_last());
        if rest.contains(more.last()) {
            rest
        } else {
            rest.push(more.last())
        }
    }
}

fn is_said(said: &Vec<String>, warning: &str) -> (r: bool)
    ensures
        r == said.deep_view().contains(warning@),
{
    let ghost view = said.deep_view();
    let mut i: usize = 0;
    while i < said.len()
        invariant
            i <= said@.len(),
            view == said.deep_view(),
            forall|j: int| 0 <= j < i ==> (#[trigger] view[j]) != warning@,
        decreases said@.len() - i,
    {
        assert(view[i as int] == said@[i as int]@);
        if same(said[i].as_str(), warning) {
            return true;
        }
        i += 1;
    }
    false
}

fn merge_warnings(said: &mut Vec<String>, more: &Vec<String>)
    ensures
        final(said).deep_view() == merged_warnings(old(said).deep_view(), more.deep_view()),
{
    let ghost start = said.deep_view();
    let ghost view = more.deep_view();
    let mut i: usize = 0;
    assert(view.take(0).len() == 0);
    while i < more.len()
        invariant
            i <= more@.len(),
            view == more.deep_view(),
            said.deep_view() == merged_warnings(start, view.take(i as int)),
        decreases more@.len() - i,
    {
        assert(view[i as int] == more@[i as int]@);
        assert(view.take(i + 1).drop_last() =~= view.take(i as int));
        if !is_said(said, more[i].as_str()) {
            push_text(said, more[i].copy_of());
        }
        i += 1;
    }
    assert(view.take(i as int) =~= view);
}

/// Some backup is left that no cleanup removes by itself.
pub open spec fn some_excluded(entries: Seq<BackupEntryView>) -> bool {
    exists|i: int|
        0 <= i < entries.len() && ((#[trigger] entries[i]).pinned || entries[i].status
            != "restorable"@)
}

fn has_excluded(entries: &Vec<BackupEntry>) -> (r: bool)
    ensures
        r == some_excluded(entries.deep_view()),
{
    let ghost view = entries.deep_view();
    let mut i: usize = 0;
    while i < entries.len()
        invariant
            i <= entries@.len(),
            view == entries.deep_view(),
            forall|j: int|
                0 <= j < i ==> !((#[trigger] view[j]).pinned || view[j].status != "restorable"@),
        decreases entries@.len() - i,
    {
        assert(view[i as int] == entries@[i as int].deep_view());
        if entries[i].pinned || !same(entries[i].status.as_str(), "restorable") {
            return true;
        }
        i += 1;
    }
    false
}

/// The result of a cleanup, given what is left.
pub open spec fn cleanup_report(
    result: BackupCleanupResultView,
    policy: BackupPolicyView,
    state: PruneStateView,
    remaining: BackupSummaryView,
) -> BackupCleanupResultView {
    let limited = if over_policy(policy, state.remaining_count, state.remaining_bytes) {
        with_warning(
            result,
            "backup retention remains above its limit because protected restore points could not be removed"@,
        )
    } else {
        result
    };
    let merged = BackupCleanupResultView {
        warnings: merged_warnings(limited.warnings, remaining.warnings),
        remaining_count: remaining.entries.len() as usize,
        remaining_bytes: remaining.total_bytes,
        ..limited
    };
    if remaining.total_bytes > BACKUP_CAPACITY_LIMIT_BYTES && some_excluded(remaining.entries) {
        with_warning(
            merged,
            "backup storage remains above 250 MiB because retained or incompatible backups are excluded from automatic cleanup"@,
        )
    } else {
        merged
    }
}

/// Ends a cleanup, given what is left.
pub fn finish_cleanup(
    result: BackupCleanupResult,
    policy: &BackupPolicy,
    state: &PruneState,
    remaining: &BackupSummary,
) -> (r: BackupCleanupResult)
    ensures
        r.deep_view() == cleanup_report(
            result.deep_view(),
            policy.deep_view(),
            state.deep_view(),
            remaining.deep_view(),
        ),
{
    let mut out = result;
    if state.remaining_count > policy.automatic_limit || state.remaining_bytes
        > policy.capacity_limit_bytes {
        add_warning(
            &mut out,
            "backup retention remains above its limit because protected restore points could not be removed".to_owned(),
        );
    }
    merge_warnings(&mut out.warnings, &remaining.warnings);
    out.remaining_count = remaining.entries.len();
    out.remaining_bytes = remaining.total_bytes;
    if remaining.total_bytes > BACKUP_CAPACITY_LIMIT_BYTES && has_excluded(&remaining.entries) {
        add_warning(
            &mut out,
            "backup storage remains above 250 MiB because retained or incompatible backups are excluded from automatic cleanup".to_owned(),
        );
    }
    out
}

/// A cleanup on request, or why there is none.
pub open spec fn requested_cleanup(
    pending: Option<PendingOperationView>,
    include_legacy: bool,
) -> Result<CleanupRequestView, Seq<char>> {
    match pending {
        Some(operation) => Err(
            "backup cleanup is blocked until incomplete "@ + operation.command
                + " is recovered from "@ + operation.backup_path,
        ),
        None => Ok(
            CleanupRequestView { include_legacy, deep_integrity: true, policy: the_policy() },
        ),
    }
}

/// Decides on a cleanup on request: none is done while an operation is pending.
pub fn cleanup_backups_at(pending: &Option<PendingOperation>, include_legacy: bool) -> (r: Result<
    CleanupRequest,
    String,
>)
    ensures
        model::outcome(r) == requested_cleanup(pending.deep_view(), include_legacy),
{
    match pending {
        Some(operation) => Err(
            join4(
                "backup cleanup is blocked until incomplete ",
                operation.command.as_str(),
                " is recovered from ",
                operation.backup_path.as_str(),
            ),
        ),
        None => Ok(
            CleanupRequest { include_legacy, deep_integrity: true, policy: standard_policy() },
        ),
    }
}

/// Some incomplete backup was left alone for long enough.
pub open spec fn some_expired(entries: Seq<BackupEntryView>, ages: Map<Seq<char>, u64>) -> bool {
    exists|i: int| 0 <= i < entries.len() && expired(#[trigger] entries[i], ages)
}

fn has_expired(entries: &Vec<BackupEntry>, ages: &OrderedMap<String, u64>) -> (r: bool)
    ensures
        r == some_expired(entries.deep_view(), ages.deep_view()),
{
    let ghost view = entries.deep_view();
    let mut i: usize = 0;
    while i < entries.len()
        invariant
            i <= entries@.len(),
            view == entries.deep_view(),
            forall|j: int| 0 <= j < i ==> !expired(#[trigger] view[j], ages.deep_view()),
        decreases entries@.len() - i,
    {
        assert(view[i as int] == entries@[i as int].deep_view());
        if incomplete_backup_is_expired(&entries[i], ages) {
            return true;
        }
        i += 1;
    }
    false
}

/// A cleanup without request is called for: no operation is pending, and there are too many
/// automatic backups, or they are too large, or an incomplete one is old enough.
pub open spec fn maintenance_due(
    pending: bool,
    summary: BackupSummaryView,
    ages: Map<Seq<char>, u64>,
) -> bool {
    !pending && (summary.automatic_count > AUTOMATIC_BACKUP_LIMIT || backups::bytes_of(
        backups::group_of(summary.entries, BackupGroup::Automatic),
    ) > BACKUP_CAPACITY_LIMIT_BYTES || some_expired(summary.entries, ages))
}

/// Decides on a cleanup without request.
pub fn maintain_backups_at(
    pending: bool,
    summary: &BackupSummary,
    ages: &OrderedMap<String, u64>,
) -> (r: Option<CleanupRequest>)
    requires
        backups::bytes_of(summary.deep_view().entries) <= u64::MAX,
    ensures
        r.deep_view() == (if maintenance_due(pending, summary.deep_view(), ages.deep_view()) {
            Some(
                CleanupRequestView {
                    include_legacy: false,
                    deep_integrity: false,
                    policy: the_policy(),
                },
            )
        } else {
            None
        }),
{
    if pending {
        return None;
    }
    proof {
        backups::lemma_group_bytes(summary.deep_view().entries, BackupGroup::Automatic);
    }
    let managed = select_group(&summary.entries, BackupGroup::Automatic);
    if summary.automatic_count <= AUTOMATIC_BACKUP_LIMIT && count_bytes(&managed)
        <= BACKUP_CAPACITY_LIMIT_BYTES && !has_expired(&summary.entries, ages) {
        return None;
    }
    Some(
        CleanupRequest { include_legacy: false, deep_integrity: false, policy: standard_policy() },
    )
}

/// The manifest of a backup that is pinned, or no longer so; or why that cannot change.
pub open spec fn pinned_manifest(
    pending: bool,
    manifest: backups::BackupManifestView,
    pinned: bool,
) -> Result<backups::BackupManifestView, Seq<char>> {
    if pending {
        Err("backup retention cannot change while recovery is pending"@)
    } else if !backups::known_version(manifest.version) {
        Err(backups::version_message(manifest.version))
    } else {
        Ok(backups::BackupManifestView { pinned, ..manifest })
    }
}

/// The manifest of a backup that is pinned, or no longer so.
pub fn set_backup_pinned_at(
    pending: bool,
    manifest: &backups::BackupManifest,
    pinned: bool,
) -> (r: Result<backups::BackupManifest, String>)
    ensures
        model::outcome(r) == pinned_manifest(pending, manifest.deep_view(), pinned),
{
    if pending {
        return Err("backup retention cannot change while recovery is pending".to_owned());
    }
    match backups::validate_backup_manifest_version(manifest) {
        Err(error) => Err(error),
        Ok(()) => {
            let mut out = manifest.copy_of();
            out.pinned = pinned;
            Ok(out)
        },
    }
}

/// The backup that is removed next is needed by nothing.
pub proof fn lemma_next_pruned(
    healthy: Seq<BackupEntryView>,
    guards: Set<Seq<char>>,
    policy: BackupPolicyView,
    state: PruneStateView,
)
    requires
        next_pruned(healthy, guards, policy, state) is Some,
    ensures
        ({
            let i = next_pruned(healthy, guards, policy, state)->0;
            policy.minimum_automatic <= i < state.next && !guarded(healthy[i], guards)
                && state.remaining_count > policy.minimum_automatic && over_policy(
                policy,
                state.remaining_count,
                state.remaining_bytes,
            )
        }),
    decreases state.next,
{
    if state.next > 0 && over_policy(policy, state.remaining_count, state.remaining_bytes)
        && state.remaining_count > policy.minimum_automatic && (state.next - 1
        < policy.minimum_automatic || guarded(healthy[state.next - 1], guards)) {
        lemma_next_pruned(
            healthy,
            guards,
            policy,
            PruneStateView { next: (state.next - 1) as usize, ..state },
        );
    }
}

/// The positions of the backups that are removed from a state on, and the state at the end, where
/// `succeeds` says which removals succeed.
pub open spec fn prune_run(
    healthy: Seq<BackupEntryView>,
    guards: Set<Seq<char>>,
    policy: BackupPolicyView,
    state: PruneStateView,
    succeeds: Set<int>,
) -> (Set<int>, PruneStateView)
    decreases state.next,
    via prune_run_ends
{
    match next_pruned(healthy, guards, policy, state) {
        None => (Set::empty(), state),
        Some(i) => {
            let (removed, end) = prune_run(
                healthy,
                guards,
                policy,
                prune_noted(state, i, healthy[i], succeeds.contains(i)),
                succeeds,
            );
            (
                if succeeds.contains(i) {
                    removed.insert(i)
                } else {
                    removed
                },
                end,
            )
        },
    }
}

#[via_fn]
proof fn prune_run_ends(
    healthy: Seq<BackupEntryView>,
    guards: Set<Seq<char>>,
    policy: BackupPolicyView,
    state: PruneStateView,
    succeeds: Set<int>,
) {
    if next_pruned(healthy, guards, policy, state) is Some {
        lemma_next_pruned(healthy, guards, policy, state);
    }
}

/// A cleanup never removes an old backup that something needs, nor one of the newest few.
pub proof fn law_prune_spares_needed(
    healthy: Seq<BackupEntryView>,
    guards: Set<Seq<char>>,
    policy: BackupPolicyView,
    state: PruneStateView,
    succeeds: Set<int>,
    i: int,
)
    requires
        state.next <= healthy.len(),
        prune_run(healthy, guards, policy, state, succeeds).0.contains(i),
    ensures
        policy.minimum_automatic <= i < healthy.len(),
        !guarded(healthy[i], guards),
    decreases state.next,
{
    lemma_next_pruned(healthy, guards, policy, state);
    let k = next_pruned(healthy, guards, policy, state)->0;
    if i != k {
        law_prune_spares_needed(
            healthy,
            guards,
            policy,
            prune_noted(state, k, healthy[k], succeeds.contains(k)),
            succeeds,
            i,
        );
    }
}

/// Removing old backups always leaves the fewest allowed, whatever their size.
pub proof fn law_prune_leaves_the_minimum(
    healthy: Seq<BackupEntryView>,
    guards: Set<Seq<char>>,
    policy: BackupPolicyView,
    state: PruneStateView,
    succeeds: Set<int>,
)
    ensures
        prune_run(healthy, guards, policy, state, succeeds).1.remaining_count
            >= policy.minimum_automatic || prune_run(
            healthy,
            guards,
            policy,
            state,
            succeeds,
        ).1.remaining_count == state.remaining_count,
    decreases state.next,
{
    match next_pruned(healthy, guards, policy, state) {
        None => {},
        Some(i) => {
            lemma_next_pruned(healthy, guards, policy, state);
            law_prune_leaves_the_minimum(
                healthy,
                guards,
                policy,
                prune_noted(state, i, healthy[i], succeeds.contains(i)),
                succeeds,
            );
        },
    }
}

/// Where nothing needs the backups and their removal succeeds, the policy is met at the end, or
/// only the fewest allowed are left.
pub proof fn law_prune_meets_the_policy(
    healthy: Seq<BackupEntryView>,
    policy: BackupPolicyView,
    state: PruneStateView,
)
    requires
        state.next <= healthy.len(),
        state.remaining_count == state.next,
        forall|i: int| 0 <= i < healthy.len() ==> !(#[trigger] healthy[i]).protected,
    ensures
        ({
            let end = prune_run(healthy, Set::empty(), policy, state, Set::full()).1;
            !over_policy(policy, end.remaining_count, end.remaining_bytes) || end.remaining_count
                <= policy.minimum_automatic
        }),
    decreases state.next,
{
    if state.next > 0 && over_policy(policy, state.remaining_count, state.remaining_bytes)
        && state.remaining_count > policy.minimum_automatic {
        let i = state.next - 1;
        assert(!healthy[i].protected);
        assert(next_pruned(healthy, Set::empty(), policy, state) == Some(i));
        law_prune_meets_the_policy(healthy, policy, prune_noted(state, i, healthy[i], true));
    }
}

/// Backups that meet the policy stay: a second cleanup in a row removes nothing more.
pub proof fn law_prune_is_idempotent(
    healthy: Seq<BackupEntryView>,
    guards: Set<Seq<char>>,
    policy: BackupPolicyView,
    succeeds: Set<int>,
)
    requires
        healthy.len() <= policy.automatic_limit,
        backups::bytes_of(healthy) <= policy.capacity_limit_bytes,
    ensures
        prune_run(healthy, guards, policy, prune_start(healthy), succeeds) == (
            Set::<int>::empty(),
            prune_start(healthy),
        ),
{
}

/// Where nothing needs the backups and their removal succeeds, exactly the newest ones stay: as many
/// as the limits on number and size allow, but never fewer than the fewest allowed.
pub proof fn law_newest_backups_stay(
    healthy: Seq<BackupEntryView>,
    policy: BackupPolicyView,
    state: PruneStateView,
)
    requires
        state.next <= healthy.len(),
        state.remaining_count == state.next,
        state.remaining_bytes == backups::bytes_of(healthy.take(state.next as int)),
        forall|k: int| 0 <= k < healthy.len() ==> !(#[trigger] healthy[k]).protected,
    ensures
        ({
            let (removed, end) = prune_run(healthy, Set::empty(), policy, state, Set::full());
            let kept = end.remaining_count;
            &&& kept <= state.next
            &&& forall|i: int| #[trigger] removed.contains(i) <==> kept <= i < state.next
            &&& end.remaining_bytes == backups::bytes_of(healthy.take(kept as int))
            &&& kept < state.next ==> kept >= policy.minimum_automatic && (kept + 1
                > policy.automatic_limit || backups::bytes_of(healthy.take(kept + 1))
                > policy.capacity_limit_bytes)
        }),
    decreases state.next,
{
    if state.next > 0 && over_policy(policy, state.remaining_count, state.remaining_bytes)
        && state.remaining_count > policy.minimum_automatic {
        let k = state.next - 1;
        assert(!healthy[k].protected);
        assert(next_pruned(healthy, Set::empty(), policy, state) == Some(k));
        let rest = prune_noted(state, k, healthy[k], true);
        assert(healthy.take(k + 1).drop_last() =~= healthy.take(k));
        assert(healthy.take(k + 1).last() == healthy[k]);
        law_newest_backups_stay(healthy, policy, rest);
    }
}

/// A cleanup removes as useless only what nothing needs; a pinned backup only if it is of an old
/// kind and those are to go; one of an old kind stays unless those are to go. This holds of every
/// backup as it is listed.
pub proof fn law_cleanup_spares_pinned_and_legacy(
    directory: BackupDirectoryView,
    faults: Map<Seq<char>, Seq<char>>,
    ages: Map<Seq<char>, u64>,
    guards: Set<Seq<char>>,
    include_legacy: bool,
)
    requires
        useless(
            backups::marked(seq![backups::entry_of(directory)], faults)[0],
            ages,
            guards,
            include_legacy,
        ),
    ensures
        ({
            let entry = backups::marked(seq![backups::entry_of(directory)], faults)[0];
            &&& !guarded(entry, guards)
            &&& entry.pinned ==> include_legacy && entry.status == "legacy"@
            &&& entry.status == "legacy"@ ==> include_legacy
        }),
{
    reveal_strlit("legacy");
    reveal_strlit("incomplete");
    reveal_strlit("corrupt");
    reveal_strlit("restorable");
    assert("legacy"@.len() == 6);
    assert("incomplete"@.len() == 10);
    assert("restorable"@.len() == 10);
    assert("incomplete"@[0] == 'i');
    assert("restorable"@[0] == 'r');
    assert("corrupt"@.len() == 7);
    let entry = backups::entry_of(directory);
    assert(backups::marked(seq![entry], faults)[0] == if backups::has_fault(entry, faults) {
        backups::faulty(entry)
    } else {
        entry
    });
}

/// A damaged backup that something needs is kept.
pub proof fn law_damaged_but_needed_is_kept(
    entry: BackupEntryView,
    guards: Set<Seq<char>>,
    fault: Option<Seq<char>>,
)
    requires
        guarded(entry, guards),
    ensures
        managed_verdict(entry, guards, fault) != ManagedVerdict::Remove,
{
}

/// No cleanup starts while an operation is pending.
pub proof fn law_pending_blocks_cleanup(
    pending: PendingOperationView,
    include_legacy: bool,
    summary: BackupSummaryView,
    ages: Map<Seq<char>, u64>,
)
    ensures
        requested_cleanup(Some(pending), include_legacy) is Err,
        !maintenance_due(true, summary, ages),
{
}

/// A cleanup takes for useless exactly what nothing needs and is incomplete for a day or more,
/// corrupt and not pinned, or legacy where those are to go; and it looks at every backup.
pub proof fn law_useless_backups(
    entries: Seq<BackupEntryView>,
    entry: BackupEntryView,
    ages: Map<Seq<char>, u64>,
    guards: Set<Seq<char>>,
    include_legacy: bool,
)
    ensures
        useless(entry, ages, guards, include_legacy) <==> !entry.protected && !guards.contains(
            entry.path,
        ) && ((entry.status == "incomplete"@ && ages.dom().contains(entry.path) && ages[entry.path]
            >= 24 * 60 * 60) || (entry.status == "corrupt"@ && !entry.pinned) || (entry.status
            == "legacy"@ && include_legacy)),
        useless_of(entries, ages, guards, include_legacy).contains(entry) <==> entries.contains(
            entry,
        ) && useless(entry, ages, guards, include_legacy),
    decreases entries.len(),
{
    if entries.len() > 0 {
        let front = entries.drop_last();
        law_useless_backups(front, entry, ages, guards, include_legacy);
        assert(entries =~= front.push(entries.last()));
        sessions::lemma_push_contains(front, entries.last(), entry);
        sessions::lemma_push_contains(
            useless_of(front, ages, guards, include_legacy),
            entries.last(),
            entry,
        );
    }
}

/// A cleanup tells what it did: a backup that was removed counts once and with its size, a legacy one
/// as such; one that could not be removed counts nowhere and is warned of; and a damaged one is
/// warned of either way.
pub proof fn law_cleanup_tells_what_it_did(
    result: BackupCleanupResultView,
    entry: BackupEntryView,
    fault: Seq<char>,
    error: Seq<char>,
)
    requires
        result.removed_count < usize::MAX,
        result.removed_legacy_count < usize::MAX,
        result.reclaimed_bytes + entry.size_bytes <= u64::MAX,
    ensures
        ({
            let gone = useless_noted(result, entry, None);
            &&& gone.removed_count == result.removed_count + 1
            &&& gone.reclaimed_bytes == result.reclaimed_bytes + entry.size_bytes
            &&& gone.removed_legacy_count == result.removed_legacy_count + (if entry.status
                == "legacy"@ {
                1int
            } else {
                0int
            })
            &&& gone.warnings.len() == result.warnings.len() + (if entry.status == "corrupt"@
                && entry.status != "legacy"@ {
                1int
            } else {
                0int
            })
        }),
        ({
            let stayed = useless_noted(result, entry, Some(error));
            &&& stayed.removed_count == result.removed_count
            &&& stayed.removed_legacy_count == result.removed_legacy_count
            &&& stayed.reclaimed_bytes == result.reclaimed_bytes
            &&& stayed.warnings == result.warnings.push(error)
        }),
        ({
            let gone = damaged_noted(result, entry, fault, None);
            let stayed = damaged_noted(result, entry, fault, Some(error));
            &&& gone.removed_count == result.removed_count + 1
            &&& gone.reclaimed_bytes == result.reclaimed_bytes + entry.size_bytes
            &&& gone.warnings.len() == result.warnings.len() + 1
            &&& stayed.removed_count == result.removed_count
            &&& stayed.reclaimed_bytes == result.reclaimed_bytes
            &&& stayed.warnings.len() == result.warnings.len() + 1
        }),
        ({
            let gone = pruned_noted(result, entry, None);
            let stayed = pruned_noted(result, entry, Some(error));
            &&& gone.removed_count == result.removed_count + 1
            &&& gone.reclaimed_bytes == result.reclaimed_bytes + entry.size_bytes
            &&& gone.warnings == result.warnings
            &&& stayed.removed_count == result.removed_count
            &&& stayed.reclaimed_bytes == result.reclaimed_bytes
            &&& stayed.warnings == result.warnings.push(error)
        }),
        nothing_removed().removed_count == 0,
        nothing_removed().reclaimed_bytes == 0,
        nothing_removed().warnings.len() == 0,
{
}

/// A backup that a thorough check finds in order stays, a damaged one goes unless something needs
/// it; and the removal of an old one leaves one fewer and its size less.
pub proof fn law_damaged_backups_go(
    entry: BackupEntryView,
    guards: Set<Seq<char>>,
    fault: Seq<char>,
    state: PruneStateView,
    index: usize,
)
    ensures
        managed_verdict(entry, guards, None) == ManagedVerdict::Healthy,
        managed_verdict(entry, guards, Some(fault)) == ManagedVerdict::Keep <==> entry.protected
            || guards.contains(entry.path),
        managed_verdict(entry, guards, Some(fault)) == ManagedVerdict::Remove <==> !entry.protected
            && !guards.contains(entry.path),
        prune_noted(state, index as int, entry, false).remaining_count == state.remaining_count,
        prune_noted(state, index as int, entry, false).remaining_bytes == state.remaining_bytes,
        prune_noted(state, index as int, entry, false).next == index,
        prune_noted(state, index as int, entry, true).next == index,
        state.remaining_count > 0 ==> prune_noted(state, index as int, entry, true).remaining_count
            == state.remaining_count - 1,
        state.remaining_bytes >= entry.size_bytes ==> prune_noted(
            state,
            index as int,
            entry,
            true,
        ).remaining_bytes == state.remaining_bytes - entry.size_bytes,
{
}

/// A cleanup on request runs with thorough checks, keeps at least two and at most five automatic
/// backups and 250 MiB, and takes legacy ones only where that is asked; one without request is due
/// exactly where nothing is pending and there are more than that, or something incomplete is old
/// enough.
pub proof fn law_cleanup_is_called_for(
    pending: bool,
    summary: BackupSummaryView,
    ages: Map<Seq<char>, u64>,
    include_legacy: bool,
)
    ensures
        requested_cleanup(None, include_legacy) is Ok,
        ({
            let request = requested_cleanup(None, include_legacy)->Ok_0;
            &&& request.include_legacy == include_legacy
            &&& request.deep_integrity
            &&& request.policy.automatic_limit == 5
            &&& request.policy.minimum_automatic == 2
            &&& request.policy.capacity_limit_bytes == 250 * 1024 * 1024
        }),
        maintenance_due(pending, summary, ages) <==> !pending && (summary.automatic_count > 5
            || backups::bytes_of(backups::group_of(summary.entries, BackupGroup::Automatic)) > 250
            * 1024 * 1024 || exists|i: int|
            0 <= i < summary.entries.len() && (#[trigger] summary.entries[i]).status
                == "incomplete"@ && ages.dom().contains(summary.entries[i].path)
                && ages[summary.entries[i].path] >= 24 * 60 * 60),
{
    if exists|i: int|
        0 <= i < summary.entries.len() && (#[trigger] summary.entries[i]).status == "incomplete"@
            && ages.dom().contains(summary.entries[i].path) && ages[summary.entries[i].path] >= 24
            * 60 * 60 {
        let i = choose|i: int|
            0 <= i < summary.entries.len() && (#[trigger] summary.entries[i]).status
                == "incomplete"@ && ages.dom().contains(summary.entries[i].path)
                && ages[summary.entries[i].path] >= 24 * 60 * 60;
        assert(expired(summary.entries[i], ages));
    }
}

/// Pinning a backup changes nothing else in its manifest, can be taken back, and is refused exactly
/// while an operation is pending or where the version is not known.
pub proof fn law_pinning_changes_nothing_else(
    pending: bool,
    manifest: backups::BackupManifestView,
    pinned: bool,
)
    ensures
        pinned_manifest(pending, manifest, pinned) is Ok <==> !pending && 4 <= manifest.version <= 6,
        pinned_manifest(pending, manifest, pinned) is Ok ==> {
            let after = pinned_manifest(pending, manifest, pinned)->Ok_0;
            &&& after.pinned == pinned
            &&& pinned_manifest(pending, after, manifest.pinned) == Ok::<
                backups::BackupManifestView,
                Seq<char>,
            >(manifest)
        },
{
}

/// What is left after a cleanup is what it reports, and it warns where that is more than allowed.
pub proof fn law_report_tells_what_is_left(
    result: BackupCleanupResultView,
    policy: BackupPolicyView,
    state: PruneStateView,
    remaining: BackupSummaryView,
)
    requires
        remaining.entries.len() <= usize::MAX,
    ensures
        ({
            let report = cleanup_report(result, policy, state, remaining);
            &&& report.remaining_count == remaining.entries.len()
            &&& report.remaining_bytes == remaining.total_bytes
            &&& report.removed_count == result.removed_count
            &&& report.removed_legacy_count == result.removed_legacy_count
            &&& report.reclaimed_bytes == result.reclaimed_bytes
            &&& forall|i: int|
                0 <= i < result.warnings.len() ==> report.warnings.contains(
                    #[trigger] result.warnings[i],
                )
            &&& forall|i: int|
                0 <= i < remaining.warnings.len() ==> report.warnings.contains(
                    #[trigger] remaining.warnings[i],
                )
            &&& state.remaining_count > policy.automatic_limit || state.remaining_bytes
                > policy.capacity_limit_bytes ==> report.warnings.len() > result.warnings.len()
            &&& remaining.total_bytes > 250 * 1024 * 1024 && (exists|i: int|
                0 <= i < remaining.entries.len() && ((#[trigger] remaining.entries[i]).pinned
                    || remaining.entries[i].status != "restorable"@)) ==> report.warnings.contains(
                "backup storage remains above 250 MiB because retained or incompatible backups are excluded from automatic cleanup"@,
            )
        }),
{
    broadcast use vstd::seq_lib::group_seq_properties;

    let limited = if over_policy(policy, state.remaining_count, state.remaining_bytes) {
        with_warning(
            result,
            "backup retention remains above its limit because protected restore points could not be removed"@,
        )
    } else {
        result
    };
    lemma_merged(limited.warnings, remaining.warnings);
    let merged = merged_warnings(limited.warnings, remaining.warnings);
    let report = cleanup_report(result, policy, state, remaining);
    assert forall|i: int| 0 <= i < result.warnings.len() implies report.warnings.contains(
        #[trigger] result.warnings[i],
    ) by {
        assert(limited.warnings[i] == result.warnings[i]);
        assert(merged[i] == limited.warnings[i]);
        assert(report.warnings[i] == merged[i]);
    }
    assert forall|i: int| 0 <= i < remaining.warnings.len() implies report.warnings.contains(
        #[trigger] remaining.warnings[i],
    ) by {
        assert(merged.contains(remaining.warnings[i]));
        let k = choose|k: int| 0 <= k < merged.len() && merged[k] == remaining.warnings[i];
        assert(report.warnings[k] == merged[k]);
    }
}

proof fn lemma_merged(said: Seq<Seq<char>>, more: Seq<Seq<char>>)
    ensures
        merged_warnings(said, more).len() >= said.len(),
        forall|i: int| 0 <= i < said.len() ==> merged_warnings(said, more)[i] == said[i],
        forall|i: int|
            0 <= i < more.len() ==> merged_warnings(said, more).contains(#[trigger] more[i]),
    decreases more.len(),
{
    broadcast use vstd::seq_lib::group_seq_properties;

    if more.len() > 0 {
        let front = more.drop_last();
        lemma_merged(said, front);
        let rest = merged_warnings(said, front);
        let all = merged_warnings(said, more);
        assert forall|i: int| 0 <= i < more.len() implies all.contains(#[trigger] more[i]) by {
            if i < front.len() {
                assert(front[i] == more[i]);
                assert(rest.contains(more[i]));
            } else if !rest.contains(more.last()) {
                assert(all[all.len() - 1] == more[i]);
            }
        }
    }
}

} // verus!

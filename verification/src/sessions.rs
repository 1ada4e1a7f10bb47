//! The sessions of a home: which there are, which may be moved, and how they are listed.

use crate::json;
use crate::json::{render, Json, JsonView};
use crate::locality;
use crate::locality::{
    catalog_row_is_local, catalog_row_is_remote, has_explicit_remote_marker, is_skipped_thread,
    rollout_source_not_ordinary, thread_is_explicit_remote,
};
use crate::model::Model;
use crate::ordered;
use crate::ordered::{sort_pairs, Ordered, OrderedSet};
use crate::projection;
use crate::projection::{ProjectionStore, ProjectionStoreView};
use crate::providers;
use crate::providers::{canonical_provider, normalize_provider, source_provider};
use crate::records::{
    BackedThread, BackedThreadView, CatalogRow, CatalogRowView, PrimaryRollout, PrimaryRolloutView,
    SessionCohorts, SessionCohortsView, Snapshot, SnapshotView, ThreadRow, ThreadRowView,
};
use crate::text;
use crate::text::{
    compact, compare, find_last_part, is_blank, join2, take_chars, trim, trim_end_separators,
    Relation,
};
use vstd::prelude::*;
use vstd::string::*;

verus! {

/// A local session as it is listed.
#[derive(Clone, Debug, PartialEq, Eq)]
pub struct LocalSessionSummary {
    pub id: String,
    pub title: String,
    pub cwd: String,
    pub rollout_path: String,
    pub project_name: String,
    pub provider: String,
    pub origin_provider: String,
    pub updated_at: i64,
    pub archived: bool,
    pub internal: bool,
    pub visibility: String,
    pub status: String,
}

/// What a `LocalSessionSummary` stands for.
#[verifier::ext_equal]
pub struct LocalSessionSummaryView {
    pub id: Seq<char>,
    pub title: Seq<char>,
    pub cwd: Seq<char>,
    pub rollout_path: Seq<char>,
    pub project_name: Seq<char>,
    pub provider: Seq<char>,
    pub origin_provider: Seq<char>,
    pub updated_at: i64,
    pub archived: bool,
    pub internal: bool,
    pub visibility: Seq<char>,
    pub status: Seq<char>,
}

impl DeepView for LocalSessionSummary {
    type V = LocalSessionSummaryView;

    open spec fn deep_view(&self) -> LocalSessionSummaryView {
        LocalSessionSummaryView {
            id: self.id.deep_view(),
            title: self.title.deep_view(),
            cwd: self.cwd.deep_view(),
            rollout_path: self.rollout_path.deep_view(),
            project_name: self.project_name.deep_view(),
            provider: self.provider.deep_view(),
            origin_provider: self.origin_provider.deep_view(),
            updated_at: self.updated_at.deep_view(),
            archived: self.archived.deep_view(),
            internal: self.internal.deep_view(),
            visibility: self.visibility.deep_view(),
            status: self.status.deep_view(),
        }
    }
}

impl Model for LocalSessionSummary {
    fn copy_of(&self) -> (r: Self) {
        LocalSessionSummary {
            id: self.id.copy_of(),
            title: self.title.copy_of(),
            cwd: self.cwd.copy_of(),
            rollout_path: self.rollout_path.copy_of(),
            project_name: self.project_name.copy_of(),
            provider: self.provider.copy_of(),
            origin_provider: self.origin_provider.copy_of(),
            updated_at: self.updated_at.copy_of(),
            archived: self.archived.copy_of(),
            internal: self.internal.copy_of(),
            visibility: self.visibility.copy_of(),
            status: self.status.copy_of(),
        }
    }

    fn same_as(&self, other: &Self) -> (r: bool) {
        self.id.same_as(&other.id)
            && self.title.same_as(&other.title)
            && self.cwd.same_as(&other.cwd)
            && self.rollout_path.same_as(&other.rollout_path)
            && self.project_name.same_as(&other.project_name)
            && self.provider.same_as(&other.provider)
            && self.origin_provider.same_as(&other.origin_provider)
            && self.updated_at.same_as(&other.updated_at)
            && self.archived.same_as(&other.archived)
            && self.internal.same_as(&other.internal)
            && self.visibility.same_as(&other.visibility)
            && self.status.same_as(&other.status)
    }
}

/// The place of a session in a list: the latest first, then by title, then by id.
#[derive(Clone, Debug, PartialEq, Eq)]
pub struct SummaryOrder {
    pub updated_at: i64,
    pub title: String,
    pub id: String,
}

/// What a `SummaryOrder` stands for.
#[verifier::ext_equal]
pub struct SummaryOrderView {
    pub updated_at: i64,
    pub title: Seq<char>,
    pub id: Seq<char>,
}

impl DeepView for SummaryOrder {
    type V = SummaryOrderView;

    open spec fn deep_view(&self) -> SummaryOrderView {
        SummaryOrderView {
            updated_at: self.updated_at.deep_view(),
            title: self.title.deep_view(),
            id: self.id.deep_view(),
        }
    }
}

impl Model for SummaryOrder {
    fn copy_of(&self) -> (r: Self) {
        SummaryOrder {
            updated_at: self.updated_at.copy_of(),
            title: self.title.copy_of(),
            id: self.id.copy_of(),
        }
    }

    fn same_as(&self, other: &Self) -> (r: bool) {
        self.updated_at.same_as(&other.updated_at)
            && self.title.same_as(&other.title)
            && self.id.same_as(&other.id)
    }
}

/// A state row to add for a session that has only a rollout.
#[derive(Clone, Debug, PartialEq, Eq)]
pub struct StateInsert {
    pub thread_id: String,
    pub rollout_path: String,
    pub archived: bool,
    pub created_at: i64,
    pub updated_at: i64,
    pub source: String,
    pub thread_source: String,
    pub provider: String,
    pub cwd: String,
    pub title: String,
    pub sandbox_policy: String,
    pub approval_mode: String,
    pub cli_version: String,
    pub first_user_message: String,
    pub preview: String,
    pub has_user_event: bool,
    pub git_sha: Option<String>,
    pub git_branch: Option<String>,
    pub git_origin_url: Option<String>,
}

/// What a `StateInsert` stands for.
#[verifier::ext_equal]
pub struct StateInsertView {
    pub thread_id: Seq<char>,
    pub rollout_path: Seq<char>,
    pub archived: bool,
    pub created_at: i64,
    pub updated_at: i64,
    pub source: Seq<char>,
    pub thread_source: Seq<char>,
    pub provider: Seq<char>,
    pub cwd: Seq<char>,
    pub title: Seq<char>,
    pub sandbox_policy: Seq<char>,
    pub approval_mode: Seq<char>,
    pub cli_version: Seq<char>,
    pub first_user_message: Seq<char>,
    pub preview: Seq<char>,
    pub has_user_event: bool,
    pub git_sha: Option<Seq<char>>,
    pub git_branch: Option<Seq<char>>,
    pub git_origin_url: Option<Seq<char>>,
}

impl DeepView for StateInsert {
    type V = StateInsertView;

    open spec fn deep_view(&self) -> StateInsertView {
        StateInsertView {
            thread_id: self.thread_id.deep_view(),
            rollout_path: self.rollout_path.deep_view(),
            archived: self.archived.deep_view(),
            created_at: self.created_at.deep_view(),
            updated_at: self.updated_at.deep_view(),
            source: self.source.deep_view(),
            thread_source: self.thread_source.deep_view(),
            provider: self.provider.deep_view(),
            cwd: self.cwd.deep_view(),
            title: self.title.deep_view(),
            sandbox_policy: self.sandbox_policy.deep_view(),
            approval_mode: self.approval_mode.deep_view(),
            cli_version: self.cli_version.deep_view(),
            first_user_message: self.first_user_message.deep_view(),
            preview: self.preview.deep_view(),
            has_user_event: self.has_user_event.deep_view(),
            git_sha: self.git_sha.deep_view(),
            git_branch: self.git_branch.deep_view(),
            git_origin_url: self.git_origin_url.deep_view(),
        }
    }
}

impl Model for StateInsert {
    fn copy_of(&self) -> (r: Self) {
        StateInsert {
            thread_id: self.thread_id.copy_of(),
            rollout_path: self.rollout_path.copy_of(),
            archived: self.archived.copy_of(),
            created_at: self.created_at.copy_of(),
            updated_at: self.updated_at.copy_of(),
            source: self.source.copy_of(),
            thread_source: self.thread_source.copy_of(),
            provider: self.provider.copy_of(),
            cwd: self.cwd.copy_of(),
            title: self.title.copy_of(),
            sandbox_policy: self.sandbox_policy.copy_of(),
            approval_mode: self.approval_mode.copy_of(),
            cli_version: self.cli_version.copy_of(),
            first_user_message: self.first_user_message.copy_of(),
            preview: self.preview.copy_of(),
            has_user_event: self.has_user_event.copy_of(),
            git_sha: self.git_sha.copy_of(),
            git_branch: self.git_branch.copy_of(),
            git_origin_url: self.git_origin_url.copy_of(),
        }
    }

    fn same_as(&self, other: &Self) -> (r: bool) {
        self.thread_id.same_as(&other.thread_id)
            && self.rollout_path.same_as(&other.rollout_path)
            && self.archived.same_as(&other.archived)
            && self.created_at.same_as(&other.created_at)
            && self.updated_at.same_as(&other.updated_at)
            && self.source.same_as(&other.source)
            && self.thread_source.same_as(&other.thread_source)
            && self.provider.same_as(&other.provider)
            && self.cwd.same_as(&other.cwd)
            && self.title.same_as(&other.title)
            && self.sandbox_policy.same_as(&other.sandbox_policy)
            && self.approval_mode.same_as(&other.approval_mode)
            && self.cli_version.same_as(&other.cli_version)
            && self.first_user_message.same_as(&other.first_user_message)
            && self.preview.same_as(&other.preview)
            && self.has_user_event.same_as(&other.has_user_event)
            && self.git_sha.same_as(&other.git_sha)
            && self.git_branch.same_as(&other.git_branch)
            && self.git_origin_url.same_as(&other.git_origin_url)
    }
}

impl Ordered for SummaryOrder {
    open spec fn relation_of(a: SummaryOrderView, b: SummaryOrderView) -> Relation {
        if a.updated_at > b.updated_at {
            Relation::Less
        } else if a.updated_at < b.updated_at {
            Relation::Greater
        } else if a.title != b.title {
            text::relation(a.title, b.title)
        } else {
            text::relation(a.id, b.id)
        }
    }

    proof fn order_total(a: SummaryOrderView, b: SummaryOrderView) {
        text::lemma_relation(a.title, b.title);
        text::lemma_relation(a.id, b.id);
    }

    proof fn order_transitive(a: SummaryOrderView, b: SummaryOrderView, c: SummaryOrderView) {
        text::lemma_relation(a.title, b.title);
        text::lemma_relation(b.title, c.title);
        text::lemma_relation(a.title, c.title);
        if a.updated_at == b.updated_at && b.updated_at == c.updated_at {
            if a.title == b.title && b.title == c.title {
                text::lemma_before_transitive(a.id, b.id, c.id);
            } else if a.title != b.title && b.title != c.title {
                text::lemma_before_transitive(a.title, b.title, c.title);
            }
        }
    }

    fn order(&self, other: &Self) -> (r: Relation) {
        if self.updated_at > other.updated_at {
            Relation::Less
        } else if self.updated_at < other.updated_at {
            Relation::Greater
        } else {
            proof {
                text::lemma_relation(self.title@, other.title@);
            }
            match compare(self.title.as_str(), other.title.as_str()) {
                Relation::Equal => compare(self.id.as_str(), other.id.as_str()),
                relation => relation,
            }
        }
    }
}

/// The instant that an RFC 3339 time stands for: seconds since the epoch, and nanoseconds.
pub uninterp spec fn rfc3339_instant(text: Seq<char>) -> Option<(i64, u32)>;

/// Reads a time with `chrono::DateTime::parse_from_rfc3339`, and from it `timestamp` and
/// `timestamp_subsec_nanos`. What comes back depends on the text alone; there is nothing where the
/// text is no such time.
#[verifier::external_body]
pub(crate) fn parse_rfc3339(text: &str) -> (r: Option<(i64, u32)>)
    ensures
        r == rfc3339_instant(text@),
{
    let time = chrono::DateTime::parse_from_rfc3339(text).ok()?;
    Some((time.timestamp(), time.timestamp_subsec_nanos()))
}

/// How an instant is written as an RFC 3339 time in UTC, if it can be.
pub uninterp spec fn rfc3339_text(seconds: i64, nanos: u32) -> Option<Seq<char>>;

/// Writes an instant with `chrono::DateTime::from_timestamp` and `to_rfc3339`. What comes back
/// depends on the instant alone; there is nothing where it is out of range.
#[verifier::external_body]
fn format_rfc3339(seconds: i64, nanos: u32) -> (r: Option<String>)
    ensures
        r.deep_view() == rfc3339_text(seconds, nanos),
{
    chrono::DateTime::from_timestamp(seconds, nanos).map(|time| time.to_rfc3339())
}

/// The time of the last change of a file as a backup lists it, from the seconds since the epoch and
/// the nanoseconds.
pub fn modified_text(seconds: i64, nanos: u32) -> (r: Option<String>)
    ensures
        r.deep_view() == rfc3339_text(seconds, nanos),
{
    format_rfc3339(seconds, nanos)
}

/// Seconds since the epoch as a signed number, the largest where they do not fit.
pub open spec fn signed_seconds(seconds: u64) -> i64 {
    if seconds > i64::MAX {
        i64::MAX
    } else {
        seconds as i64
    }
}

fn to_signed_seconds(seconds: u64) -> (r: i64)
    ensures
        r == signed_seconds(seconds),
{
    if seconds > i64::MAX as u64 {
        i64::MAX
    } else {
        seconds as i64
    }
}

/// The recorded instant in seconds, or else the time of the file, or else zero.
pub open spec fn instant_or_file_time(instant: Option<(i64, u32)>, file: Option<u64>) -> i64 {
    match instant {
        Some(at) => at.0,
        None => match file {
            Some(seconds) => signed_seconds(seconds),
            None => 0,
        },
    }
}

/// The recorded instant in seconds, or else the time of the file, or else zero.
pub fn seconds_or_file_time(instant: Option<(i64, u32)>, file: Option<u64>) -> (r: i64)
    ensures
        r == instant_or_file_time(instant, file),
{
    match instant {
        Some(at) => at.0,
        None => match file {
            Some(seconds) => to_signed_seconds(seconds),
            None => 0,
        },
    }
}

/// The instant that a rollout records for its session.
pub open spec fn session_instant(primary: PrimaryRolloutView) -> Option<(i64, u32)> {
    match primary.session_timestamp {
        Some(timestamp) => rfc3339_instant(timestamp),
        None => None,
    }
}

/// The time of a rollout's session, in seconds.
pub open spec fn session_seconds(primary: PrimaryRolloutView) -> i64 {
    instant_or_file_time(session_instant(primary), primary.updated_at_fallback)
}

/// The time of a rollout's session, in seconds.
pub fn rollout_timestamp_seconds(primary: &PrimaryRollout) -> (r: i64)
    ensures
        r == session_seconds(primary.deep_view()),
{
    let instant = match &primary.session_timestamp {
        Some(timestamp) => parse_rfc3339(timestamp.as_str()),
        None => None,
    };
    seconds_or_file_time(instant, primary.updated_at_fallback)
}

/// The time of a rollout's last change, in seconds.
pub open spec fn change_seconds(primary: PrimaryRolloutView) -> i64 {
    match primary.updated_at_fallback {
        Some(seconds) => signed_seconds(seconds),
        None => session_seconds(primary),
    }
}

/// The time of a rollout's last change, in seconds.
pub fn rollout_updated_at_seconds(primary: &PrimaryRollout) -> (r: i64)
    ensures
        r == change_seconds(primary.deep_view()),
{
    match primary.updated_at_fallback {
        Some(seconds) => to_signed_seconds(seconds),
        None => rollout_timestamp_seconds(primary),
    }
}

/// A time as it is listed: what is too large for seconds is in milliseconds, and is rounded.
pub open spec fn listed_time(value: int) -> int {
    if -10_000_000_000 <= value <= 10_000_000_000 {
        value
    } else if value > 0 {
        (value + 500) / 1000
    } else {
        -((500 - value) / 1000)
    }
}

/// A time as it is listed: what is too large for seconds is in milliseconds, and is rounded.
pub fn listed_seconds(value: i64) -> (r: i64)
    ensures
        r == listed_time(value as int),
{
    if -10_000_000_000 <= value && value <= 10_000_000_000 {
        value
    } else if value > 0 {
        let whole: i64 = value / 1000;
        if value % 1000 >= 500 {
            whole + 1
        } else {
            whole
        }
    } else {
        let positive: u64 = if value == i64::MIN {
            9_223_372_036_854_775_808
        } else {
            (-value) as u64
        };
        let whole: i64 = (positive / 1000) as i64;
        if positive % 1000 >= 500 {
            -(whole + 1)
        } else {
            -whole
        }
    }
}

/// A JSON value as the state database keeps it: a text as it is, anything else in its written
/// form.
pub open spec fn stored_text(value: Option<JsonView>, fallback: Seq<char>) -> Seq<char> {
    match value {
        Some(JsonView::Text(text)) if text::trimmed(text).len() > 0 => text,
        Some(value) => json::rendered(value),
        None => fallback,
    }
}

/// A JSON value as the state database keeps it.
pub fn sqlite_text_value(value: &Option<Json>, fallback: &str) -> (r: String)
    ensures
        r@ == stored_text(value.deep_view(), fallback@),
{
    match value {
        Some(value) => {
            match value {
                Json::Text(text) => {
                    if !is_blank(text.as_str()) {
                        return text.copy_of();
                    }
                },
                _ => {},
            }
            render(value)
        },
        None => fallback.to_owned(),
    }
}

/// The first of three texts that is there.
pub open spec fn first_text(
    a: Option<Seq<char>>,
    b: Option<Seq<char>>,
    c: Option<Seq<char>>,
) -> Option<Seq<char>> {
    if a is Some {
        a
    } else if b is Some {
        b
    } else {
        c
    }
}

fn first_of<'a>(
    a: &'a Option<String>,
    b: &'a Option<String>,
    c: &'a Option<String>,
) -> (r: Option<&'a String>)
    ensures
        match r {
            Some(text) => first_text(a.deep_view(), b.deep_view(), c.deep_view()) == Some(text@),
            None => first_text(a.deep_view(), b.deep_view(), c.deep_view()) is None,
        },
{
    match a {
        Some(text) => Some(text),
        None => match b {
            Some(text) => Some(text),
            None => match c {
                Some(text) => Some(text),
                None => None,
            },
        },
    }
}

/// The title of a rollout.
pub open spec fn title_of(primary: PrimaryRolloutView) -> Seq<char> {
    let shown = match first_text(primary.title, primary.first_user_message, primary.preview) {
        Some(title) => if text::trimmed(title).len() > 0 {
            text::trimmed(title)
        } else {
            primary.id
        },
        None => primary.id,
    };
    text::first_chars(shown, 120)
}

/// The title of a rollout.
pub fn rollout_title(primary: &PrimaryRollout) -> (r: String)
    ensures
        r@ == title_of(primary.deep_view()),
{
    match first_of(&primary.title, &primary.first_user_message, &primary.preview) {
        Some(title) => {
            let shown = trim(title.as_str());
            if shown.as_str().unicode_len() > 0 {
                take_chars(shown.as_str(), 120)
            } else {
                take_chars(primary.id.as_str(), 120)
            }
        },
        None => take_chars(primary.id.as_str(), 120),
    }
}

/// A text, or an empty one where there is none.
pub open spec fn or_empty(value: Option<Seq<char>>) -> Seq<char> {
    match value {
        Some(text) => text,
        None => Seq::empty(),
    }
}

/// A text, or an empty one where there is none.
pub fn text_or_empty(value: &Option<String>) -> (r: String)
    ensures
        r@ == or_empty(value.deep_view()),
{
    match value {
        Some(text) => text.copy_of(),
        None => {
            let empty = String::new();
            assert(empty@ =~= Seq::empty());
            empty
        },
    }
}

/// The state row that a rollout stands for.
pub open spec fn rollout_row(primary: PrimaryRolloutView) -> ThreadRowView {
    ThreadRowView {
        id: primary.id,
        rollout_path: primary.path,
        provider: or_empty(primary.model_provider),
        archived: primary.archived,
        source: stored_text(primary.source, "cli"@),
        thread_source: stored_text(primary.thread_source, "user"@),
        agent_role: None,
        title: title_of(primary),
        cwd: or_empty(primary.cwd),
        updated_at: listed_time(change_seconds(primary) as int) as i64,
        first_user_message: or_empty(primary.first_user_message),
        has_user_event: primary.first_user_message is Some,
    }
}

/// The state row that a rollout stands for.
pub fn rollout_thread_row(primary: &PrimaryRollout) -> (r: ThreadRow)
    ensures
        r.deep_view() == rollout_row(primary.deep_view()),
{
    ThreadRow {
        id: primary.id.copy_of(),
        rollout_path: primary.path.copy_of(),
        provider: text_or_empty(&primary.model_provider),
        archived: primary.archived,
        source: sqlite_text_value(&primary.source, "cli"),
        thread_source: sqlite_text_value(&primary.thread_source, "user"),
        agent_role: None,
        title: rollout_title(primary),
        cwd: text_or_empty(&primary.cwd),
        updated_at: listed_seconds(rollout_updated_at_seconds(primary)),
        first_user_message: text_or_empty(&primary.first_user_message),
        has_user_event: primary.first_user_message.is_some(),
    }
}

/// The state row of an id; the last one where there are several.
pub open spec fn thread_by_id(threads: Seq<ThreadRowView>, id: Seq<char>) -> Option<ThreadRowView>
    decreases threads.len(),
{
    if threads.len() == 0 {
        None
    } else if threads.last().id == id {
        Some(threads.last())
    } else {
        thread_by_id(threads.drop_last(), id)
    }
}

proof fn lemma_thread_by_id(threads: Seq<ThreadRowView>, id: Seq<char>)
    ensures
        thread_by_id(threads, id) matches Some(thread) ==> thread.id == id,
    decreases threads.len(),
{
    if threads.len() > 0 {
        lemma_thread_by_id(threads.drop_last(), id);
    }
}

/// The state row of an id; the last one where there are several.
pub fn find_thread<'a>(threads: &'a Vec<ThreadRow>, id: &String) -> (r: Option<&'a ThreadRow>)
    ensures
        match r {
            Some(thread) => thread_by_id(threads.deep_view(), id@) == Some(thread.deep_view()),
            None => thread_by_id(threads.deep_view(), id@) is None,
        },
{
    let ghost view = threads.deep_view();
    let mut i: usize = threads.len();
    assert(view.take(i as int) =~= view);
    while i > 0
        invariant
            i <= threads@.len(),
            view == threads.deep_view(),
            thread_by_id(view, id@) == thread_by_id(view.take(i as int), id@),
        decreases i,
    {
        let thread = &threads[i - 1];
        assert(view.take(i as int).last() == thread.deep_view());
        assert(view.take(i as int).drop_last() =~= view.take(i - 1));
        if thread.id.same_as(id) {
            return Some(thread);
        }
        i -= 1;
    }
    None
}

/// The session of an id that has a rollout: its state row, or what the rollout stands for.
pub open spec fn backed_thread(snapshot: SnapshotView, id: Seq<char>) -> Option<BackedThreadView> {
    match thread_by_id(snapshot.threads, id) {
        Some(thread) => Some(BackedThreadView { thread, state_present: true }),
        None => if snapshot.primary_rollouts.dom().contains(id) {
            Some(
                BackedThreadView {
                    thread: rollout_row(snapshot.primary_rollouts[id]),
                    state_present: false,
                },
            )
        } else {
            None
        },
    }
}

/// The sessions of ids that have a rollout, in their order.
pub open spec fn backed_threads(
    snapshot: SnapshotView,
    ids: Seq<Seq<char>>,
) -> Seq<BackedThreadView>
    decreases ids.len(),
{
    if ids.len() == 0 {
        Seq::empty()
    } else {
        let rest = backed_threads(snapshot, ids.drop_last());
        match backed_thread(snapshot, ids.last()) {
            Some(backed) => rest.push(backed),
            None => rest,
        }
    }
}

/// Ids with a mark, as they are sorted.
pub open spec fn marked(ids: Seq<Seq<char>>) -> Seq<(Seq<char>, bool)> {
    ids.map_values(|id: Seq<char>| (id, true))
}

/// The ids of the valid rollouts, active and archived, in ascending order.
pub open spec fn rollout_ids(snapshot: SnapshotView) -> Seq<Seq<char>> {
    ordered::sorted_pairs::<String, bool>(
        marked(
            ordered::listed::<String>(snapshot.valid_active_rollouts) + ordered::listed::<String>(
                snapshot.valid_archived_rollouts,
            ),
        ),
    ).map_values(|pair: (Seq<char>, bool)| pair.0)
}

fn push_items(set: &OrderedSet<String>, out: &mut Vec<(String, bool)>)
    ensures
        final(out).deep_view() == old(out).deep_view() + marked(
            ordered::listed::<String>(set.deep_view()),
        ),
{
    let ghost before = out.deep_view();
    let n: usize = set.len();
    let ghost items = set.items();
    let mut i: usize = 0;
    assert(before + marked(items.take(0)) =~= before);
    while i < n
        invariant
            i <= n == items.len(),
            items == set.items(),
            out.deep_view() == before + marked(items.take(i as int)),
        decreases n - i,
    {
        let ghost so_far = out.deep_view();
        out.push((set.item_at(i).copy_of(), true));
        assert(out.deep_view() =~= so_far.push((items[i as int], true)));
        assert(before + marked(items.take(i + 1)) =~= (before + marked(items.take(i as int))).push(
            (items[i as int], true),
        ));
        i += 1;
    }
    assert(items.take(i as int) =~= items);
}

/// The ids of the valid rollouts, active and archived, in ascending order.
pub fn sorted_rollout_ids(snapshot: &Snapshot) -> (r: Vec<String>)
    ensures
        r.deep_view() == rollout_ids(snapshot.deep_view()),
        forall|i: int|
            0 <= i < r@.len() ==> snapshot.valid_active_rollouts.deep_view().contains(
                (#[trigger] r@[i])@,
            ) || snapshot.valid_archived_rollouts.deep_view().contains(r@[i]@),
{
    let active_count: usize = snapshot.valid_active_rollouts.len();
    let archived_count: usize = snapshot.valid_archived_rollouts.len();
    let mut pairs: Vec<(String, bool)> = Vec::new();
    push_items(&snapshot.valid_active_rollouts, &mut pairs);
    push_items(&snapshot.valid_archived_rollouts, &mut pairs);
    proof {
        let a = ordered::listed::<String>(snapshot.valid_active_rollouts.deep_view());
        let b = ordered::listed::<String>(snapshot.valid_archived_rollouts.deep_view());
        assert(pairs.deep_view() =~= marked(a + b));
    }
    let sorted = sort_pairs(pairs);
    let ghost view = sorted.deep_view();
    let mut out: Vec<String> = Vec::new();
    let mut i: usize = 0;
    while i < sorted.len()
        invariant
            i <= sorted@.len(),
            view == sorted.deep_view(),
            out@.len() == i,
            forall|j: int| 0 <= j < i ==> #[trigger] out@[j].deep_view() == view[j].0,
        decreases sorted@.len() - i,
    {
        assert(view[i as int].0 == sorted@[i as int].0@);
        out.push(sorted[i].0.copy_of());
        i += 1;
    }
    assert(out.deep_view() =~= rollout_ids(snapshot.deep_view()));
    proof {
        let a = ordered::listed::<String>(snapshot.valid_active_rollouts.deep_view());
        let b = ordered::listed::<String>(snapshot.valid_archived_rollouts.deep_view());
        ordered::lemma_sorted_pairs::<String, bool>(marked(a + b));
        assert forall|i: int|
            0 <= i < out@.len() implies
            snapshot.valid_active_rollouts.deep_view().contains(
            (#[trigger] out@[i])@,
        ) || snapshot.valid_archived_rollouts.deep_view().contains(out@[i]@) by {
            assert(marked(a + b).contains(view[i]));
            let k = choose|k: int| 0 <= k < marked(a + b).len() && marked(a + b)[k] == view[i];
            assert(out@[i].deep_view() == view[i].0);
            assert((a + b)[k] == out@[i]@);
            if k < a.len() {
                assert(snapshot.valid_active_rollouts.deep_view().contains(a[k]));
            } else {
                assert(snapshot.valid_archived_rollouts.deep_view().contains(b[k - a.len()]));
            }
        }
    }
    out
}

/// The sessions of a home that have a valid rollout, in ascending order of their ids.
pub fn rollout_backed_threads(snapshot: &Snapshot) -> (r: Vec<BackedThread>)
    ensures
        r.deep_view() == backed_threads(
            snapshot.deep_view(),
            rollout_ids(snapshot.deep_view()),
        ),
        crate::records::consistent(snapshot.deep_view()) ==> forall|i: int|
            0 <= i < r@.len() ==> snapshot.primary_rollouts.deep_view().dom().contains(
                (#[trigger] r@[i]).thread.id@,
            ),
{
    let ids = sorted_rollout_ids(snapshot);
    let ghost view = ids.deep_view();
    let ghost whole = snapshot.deep_view();
    let mut out: Vec<BackedThread> = Vec::new();
    let mut i: usize = 0;
    assert(out.deep_view() =~= backed_threads(whole, view.take(0)));
    while i < ids.len()
        invariant
            i <= ids@.len(),
            view == ids.deep_view(),
            whole == snapshot.deep_view(),
            out.deep_view() == backed_threads(whole, view.take(i as int)),
            forall|j: int|
                0 <= j < ids@.len() ==> whole.valid_active_rollouts.contains((#[trigger] ids@[j])@)
                    || whole.valid_archived_rollouts.contains(ids@[j]@),
            crate::records::consistent(whole) ==> forall|j: int|
                0 <= j < out@.len() ==> whole.primary_rollouts.dom().contains(
                    (#[trigger] out@[j]).thread.id@,
                ),
        decreases ids@.len() - i,
    {
        let ghost before = out.deep_view();
        assert(view[i as int] == ids@[i as int]@);
        assert(view.take(i + 1).drop_last() =~= view.take(i as int));
        proof {
            let id = ids@[i as int]@;
            assert(whole.valid_active_rollouts.contains(id)
                || whole.valid_archived_rollouts.contains(id));
            if crate::records::consistent(whole) {
                assert(whole.primary_rollouts[id].id == id);
            }
            lemma_thread_by_id(whole.threads, id);
        }
        match find_thread(&snapshot.threads, &ids[i]) {
            Some(thread) => {
                out.push(BackedThread { thread: thread.copy_of(), state_present: true });
                assert(out.deep_view() =~= before.push(
                    backed_thread(whole, view[i as int])->0,
                ));
            },
            None => {
                match snapshot.primary_rollouts.get(&ids[i]) {
                    Some(primary) => {
                        out.push(
                            BackedThread {
                                thread: rollout_thread_row(primary),
                                state_present: false,
                            },
                        );
                        assert(out.deep_view() =~= before.push(
                            backed_thread(whole, view[i as int])->0,
                        ));
                    },
                    None => {},
                }
            },
        }
        i += 1;
    }
    assert(view.take(i as int) =~= view);
    out
}

/// The ids of the rows that are kept.
pub open spec fn ids_where<X>(
    rows: Seq<X>,
    keep: spec_fn(X) -> bool,
    id: spec_fn(X) -> Seq<char>,
) -> Set<Seq<char>> {
    Set::new(
        |x: Seq<char>|
            exists|i: int| 0 <= i < rows.len() && keep(#[trigger] rows[i]) && id(rows[i]) == x,
    )
}

/// One more row adds its id if it is kept.
pub proof fn lemma_ids_where<X>(
    rows: Seq<X>,
    keep: spec_fn(X) -> bool,
    id: spec_fn(X) -> Seq<char>,
    i: int,
)
    requires
        0 <= i < rows.len(),
    ensures
        ids_where(rows.take(i + 1), keep, id) == (if keep(rows[i]) {
            ids_where(rows.take(i), keep, id).insert(id(rows[i]))
        } else {
            ids_where(rows.take(i), keep, id)
        }),
{
    let now = rows.take(i + 1);
    let before = rows.take(i);
    assert forall|x: Seq<char>| ids_where(now, keep, id).contains(x) <==> (if keep(rows[i]) {
        ids_where(before, keep, id).insert(id(rows[i]))
    } else {
        ids_where(before, keep, id)
    }).contains(x) by {
        if ids_where(now, keep, id).contains(x) {
            let j = choose|j: int| 0 <= j < now.len() && keep(#[trigger] now[j]) && id(now[j]) == x;
            if j < i {
                assert(before[j] == now[j]);
            }
        }
        if ids_where(before, keep, id).contains(x) {
            let j = choose|j: int|
                0 <= j < before.len() && keep(#[trigger] before[j]) && id(before[j]) == x;
            assert(now[j] == before[j]);
        }
        if keep(rows[i]) && x == id(rows[i]) {
            assert(now[i] == rows[i]);
        }
    }
    assert(ids_where(now, keep, id) =~= (if keep(rows[i]) {
        ids_where(before, keep, id).insert(id(rows[i]))
    } else {
        ids_where(before, keep, id)
    }));
}

/// The threads that have an ordinary local catalog row.
pub open spec fn local_catalog_ids(catalog: Seq<CatalogRowView>) -> Set<Seq<char>> {
    ids_where(
        catalog,
        |row: CatalogRowView| locality::local_row(row) && !row.missing_candidate,
        |row: CatalogRowView| row.thread_id,
    )
}

/// The threads that have a remote catalog row.
pub open spec fn remote_catalog_ids(catalog: Seq<CatalogRowView>) -> Set<Seq<char>> {
    ids_where(
        catalog,
        |row: CatalogRowView| locality::remote_row(row),
        |row: CatalogRowView| row.thread_id,
    )
}

/// The threads whose state row names another machine.
pub open spec fn remote_thread_ids(threads: Seq<ThreadRowView>) -> Set<Seq<char>> {
    ids_where(
        threads,
        |thread: ThreadRowView| locality::remote_thread(thread),
        |thread: ThreadRowView| thread.id,
    )
}

/// The valid rollout of a thread names another machine.
pub open spec fn remote_rollout(snapshot: SnapshotView, id: Seq<char>) -> bool {
    &&& snapshot.valid_active_rollouts.contains(id) || snapshot.valid_archived_rollouts.contains(id)
    &&& snapshot.rollout_locality.dom().contains(id)
    &&& locality::remote_marker(snapshot.rollout_locality[id])
}

/// The sessions that belong to another machine. A remote marker wins even where the thread has a
/// local catalog row too, because its origin is then in doubt.
pub open spec fn remote_ids(snapshot: SnapshotView) -> Set<Seq<char>> {
    Set::new(
        |id: Seq<char>|
            remote_catalog_ids(snapshot.catalog).contains(id) || remote_thread_ids(
                snapshot.threads,
            ).contains(id) || remote_rollout(snapshot, id),
    )
}

/// The sessions of this machine that have a valid rollout.
pub open spec fn ordinary_ids(snapshot: SnapshotView) -> Set<Seq<char>> {
    ids_where(
        backed_threads(snapshot, rollout_ids(snapshot)),
        |backed: BackedThreadView| !remote_ids(snapshot).contains(backed.thread.id),
        |backed: BackedThreadView| backed.thread.id,
    )
}

/// The sessions of this machine that have a state row and no valid rollout.
pub open spec fn lost_rollout_ids(snapshot: SnapshotView) -> Set<Seq<char>> {
    ids_where(
        snapshot.threads,
        |thread: ThreadRowView|
            !remote_ids(snapshot).contains(thread.id) && !snapshot.valid_active_rollouts.contains(
                thread.id,
            ) && !snapshot.valid_archived_rollouts.contains(thread.id),
        |thread: ThreadRowView| thread.id,
    )
}

/// The rollout of a thread can be given another provider.
pub open spec fn rewritable_rollout(snapshot: SnapshotView, id: Seq<char>) -> bool {
    &&& snapshot.rollout_paths.dom().contains(id)
    &&& snapshot.rollout_provider_values.dom().contains(id) || (
    snapshot.primary_rollouts.dom().contains(id)
        && snapshot.primary_rollouts[id].provider_field_missing)
}

/// The sessions of this machine that a repair may move.
pub open spec fn recoverable_ids(snapshot: SnapshotView) -> Set<Seq<char>> {
    Set::new(
        |id: Seq<char>| ordinary_ids(snapshot).contains(id) && rewritable_rollout(snapshot, id),
    )
}

/// The ids of a snapshot, by what may be done with them.
pub open spec fn cohorts_of(snapshot: SnapshotView) -> SessionCohortsView {
    SessionCohortsView {
        local_catalog_ids: local_catalog_ids(snapshot.catalog),
        remote_catalog_ids: remote_catalog_ids(snapshot.catalog),
        remote_session_ids: remote_ids(snapshot),
        remote_excluded_thread_ids: remote_ids(snapshot),
        ordinary_active_ids: ordinary_ids(snapshot),
        recoverable_ids: recoverable_ids(snapshot),
        recoverable_indexed_ids: recoverable_ids(snapshot).intersect(
            local_catalog_ids(snapshot.catalog),
        ),
        session_index_covered_ids: recoverable_ids(snapshot).intersect(snapshot.session_index),
        missing_rollout_ids: lost_rollout_ids(snapshot),
    }
}

fn collect_local_catalog_ids(catalog: &Vec<CatalogRow>) -> (r: OrderedSet<String>)
    ensures
        r.deep_view() == local_catalog_ids(catalog.deep_view()),
{
    let ghost rows = catalog.deep_view();
    let mut out: OrderedSet<String> = OrderedSet::new();
    let mut i: usize = 0;
    assert(out.deep_view() =~= local_catalog_ids(rows.take(0)));
    while i < catalog.len()
        invariant
            i <= catalog@.len(),
            rows == catalog.deep_view(),
            out.deep_view() == local_catalog_ids(rows.take(i as int)),
        decreases catalog@.len() - i,
    {
        let row = &catalog[i];
        proof {
            assert(rows[i as int] == row.deep_view());
            lemma_ids_where(
                rows,
                |row: CatalogRowView| locality::local_row(row) && !row.missing_candidate,
                |row: CatalogRowView| row.thread_id,
                i as int,
            );
        }
        if catalog_row_is_local(row) && !row.missing_candidate {
            out.insert(row.thread_id.copy_of());
        }
        i += 1;
    }
    assert(rows.take(i as int) =~= rows);
    out
}

fn collect_remote_catalog_ids(catalog: &Vec<CatalogRow>) -> (r: OrderedSet<String>)
    ensures
        r.deep_view() == remote_catalog_ids(catalog.deep_view()),
{
    let ghost rows = catalog.deep_view();
    let mut out: OrderedSet<String> = OrderedSet::new();
    let mut i: usize = 0;
    assert(out.deep_view() =~= remote_catalog_ids(rows.take(0)));
    while i < catalog.len()
        invariant
            i <= catalog@.len(),
            rows == catalog.deep_view(),
            out.deep_view() == remote_catalog_ids(rows.take(i as int)),
        decreases catalog@.len() - i,
    {
        let row = &catalog[i];
        proof {
            assert(rows[i as int] == row.deep_view());
            lemma_ids_where(
                rows,
                |row: CatalogRowView| locality::remote_row(row),
                |row: CatalogRowView| row.thread_id,
                i as int,
            );
        }
        if catalog_row_is_remote(row) {
            out.insert(row.thread_id.copy_of());
        }
        i += 1;
    }
    assert(rows.take(i as int) =~= rows);
    out
}

fn collect_remote_thread_ids(threads: &Vec<ThreadRow>) -> (r: OrderedSet<String>)
    ensures
        r.deep_view() == remote_thread_ids(threads.deep_view()),
{
    let ghost rows = threads.deep_view();
    let mut out: OrderedSet<String> = OrderedSet::new();
    let mut i: usize = 0;
    assert(out.deep_view() =~= remote_thread_ids(rows.take(0)));
    while i < threads.len()
        invariant
            i <= threads@.len(),
            rows == threads.deep_view(),
            out.deep_view() == remote_thread_ids(rows.take(i as int)),
        decreases threads@.len() - i,
    {
        let thread = &threads[i];
        proof {
            assert(rows[i as int] == thread.deep_view());
            lemma_ids_where(
                rows,
                |thread: ThreadRowView| locality::remote_thread(thread),
                |thread: ThreadRowView| thread.id,
                i as int,
            );
        }
        if thread_is_explicit_remote(thread) {
            out.insert(thread.id.copy_of());
        }
        i += 1;
    }
    assert(rows.take(i as int) =~= rows);
    out
}

/// The ids whose rollout names another machine.
spec fn remote_among(
    ids: Set<Seq<char>>,
    places: Map<Seq<char>, Seq<char>>,
) -> Set<Seq<char>> {
    Set::new(
        |id: Seq<char>|
            ids.contains(id) && places.dom().contains(id) && locality::remote_marker(places[id]),
    )
}

/// Adds the ids of `set` whose rollout names another machine.
fn add_remote_rollouts(set: &OrderedSet<String>, snapshot: &Snapshot, out: &mut OrderedSet<String>)
    ensures
        final(out).deep_view() == old(out).deep_view().union(
            remote_among(set.deep_view(), snapshot.rollout_locality.deep_view()),
        ),
{
    let n: usize = set.len();
    let ghost items = set.items();
    let ghost before = out.deep_view();
    let ghost places = snapshot.rollout_locality.deep_view();
    let mut i: usize = 0;
    assert(before.union(remote_among(items.take(0).to_set(), places)) =~= before);
    while i < n
        invariant
            i <= n == items.len(),
            items == set.items(),
            set.items_describe(),
            places == snapshot.rollout_locality.deep_view(),
            out.deep_view() == before.union(remote_among(items.take(i as int).to_set(), places)),
        decreases n - i,
    {
        let id = set.item_at(i);
        match snapshot.rollout_locality.get(id) {
            Some(place) => {
                if has_explicit_remote_marker(place.as_str()) {
                    out.insert(id.copy_of());
                }
            },
            None => {},
        }
        proof {
            assert(items.take(i + 1) =~= items.take(i as int).push(items[i as int]));
            assert forall|x: Seq<char>| #[trigger] items.take(i + 1).contains(x) <==> (
            items.take(i as int).contains(x) || x == items[i as int]) by {
                lemma_push_contains(items.take(i as int), items[i as int], x);
            }
            assert(out.deep_view() =~= before.union(
                remote_among(items.take(i + 1).to_set(), places),
            ));
        }
        i += 1;
    }
    assert(items.take(i as int) =~= items);
    assert(items.to_set() =~= set.deep_view());
}

/// A longer sequence holds what the shorter one held, and the new item.
pub proof fn lemma_push_contains<X>(items: Seq<X>, item: X, x: X)
    ensures
        items.push(item).contains(x) <==> items.contains(x) || x == item,
{
    let longer = items.push(item);
    if items.contains(x) {
        let j = choose|j: int| 0 <= j < items.len() && items[j] == x;
        assert(longer[j] == x);
    }
    if x == item {
        assert(longer[items.len() as int] == x);
    }
    if longer.contains(x) && x != item {
        let j = choose|j: int| 0 <= j < longer.len() && longer[j] == x;
        assert(items[j] == x);
    }
}

/// Adds the items of `from` to `out`.
pub fn add_all(from: &OrderedSet<String>, out: &mut OrderedSet<String>)
    ensures
        final(out).deep_view() == old(out).deep_view().union(from.deep_view()),
{
    let n: usize = from.len();
    let ghost items = from.items();
    let ghost before = out.deep_view();
    let mut i: usize = 0;
    assert(before.union(items.take(0).to_set()) =~= before);
    while i < n
        invariant
            i <= n == items.len(),
            items == from.items(),
            from.items_describe(),
            out.deep_view() == before.union(items.take(i as int).to_set()),
        decreases n - i,
    {
        out.insert(from.item_at(i).copy_of());
        proof {
            assert(items.take(i + 1) =~= items.take(i as int).push(items[i as int]));
            assert forall|x: Seq<char>| #[trigger] items.take(i + 1).contains(x) <==> (
            items.take(i as int).contains(x) || x == items[i as int]) by {
                lemma_push_contains(items.take(i as int), items[i as int], x);
            }
            assert(out.deep_view() =~= before.union(items.take(i + 1).to_set()));
        }
        i += 1;
    }
    assert(items.take(i as int) =~= items);
    assert(items.to_set() =~= from.deep_view());
}

/// The items that two sets share.
pub fn shared(a: &OrderedSet<String>, b: &OrderedSet<String>) -> (r: OrderedSet<String>)
    ensures
        r.deep_view() == a.deep_view().intersect(b.deep_view()),
{
    let n: usize = a.len();
    let ghost items = a.items();
    let ghost other = b.deep_view();
    let mut out: OrderedSet<String> = OrderedSet::new();
    let mut i: usize = 0;
    assert(items.take(0).to_set().intersect(other) =~= Set::empty());
    while i < n
        invariant
            i <= n == items.len(),
            items == a.items(),
            a.items_describe(),
            other == b.deep_view(),
            out.deep_view() == items.take(i as int).to_set().intersect(other),
        decreases n - i,
    {
        let item = a.item_at(i);
        if b.contains(item) {
            out.insert(item.copy_of());
        }
        proof {
            assert(items.take(i + 1) =~= items.take(i as int).push(items[i as int]));
            assert forall|x: Seq<char>| #[trigger] items.take(i + 1).contains(x) <==> (
            items.take(i as int).contains(x) || x == items[i as int]) by {
                lemma_push_contains(items.take(i as int), items[i as int], x);
            }
            assert(out.deep_view() =~= items.take(i + 1).to_set().intersect(other));
        }
        i += 1;
    }
    assert(items.take(i as int) =~= items);
    assert(items.to_set() =~= a.deep_view());
    out
}

fn collect_remote_ids(snapshot: &Snapshot, catalog_ids: &OrderedSet<String>) -> (r: OrderedSet<
    String,
>)
    requires
        catalog_ids.deep_view() == remote_catalog_ids(snapshot.catalog.deep_view()),
    ensures
        r.deep_view() == remote_ids(snapshot.deep_view()),
{
    let mut out = collect_remote_thread_ids(&snapshot.threads);
    add_all(catalog_ids, &mut out);
    add_remote_rollouts(&snapshot.valid_active_rollouts, snapshot, &mut out);
    add_remote_rollouts(&snapshot.valid_archived_rollouts, snapshot, &mut out);
    proof {
        assert(out.deep_view() =~= remote_ids(snapshot.deep_view()));
    }
    out
}

fn collect_ordinary_ids(snapshot: &Snapshot, excluded: &OrderedSet<String>) -> (r: OrderedSet<
    String,
>)
    requires
        excluded.deep_view() == remote_ids(snapshot.deep_view()),
    ensures
        r.deep_view() == ordinary_ids(snapshot.deep_view()),
{
    let backed = rollout_backed_threads(snapshot);
    let ghost rows = backed.deep_view();
    let ghost view = snapshot.deep_view();
    let ghost keep = |backed: BackedThreadView| !remote_ids(view).contains(backed.thread.id);
    let ghost id = |backed: BackedThreadView| backed.thread.id;
    let mut out: OrderedSet<String> = OrderedSet::new();
    let mut i: usize = 0;
    assert(out.deep_view() =~= ids_where(rows.take(0), keep, id));
    while i < backed.len()
        invariant
            i <= backed@.len(),
            rows == backed.deep_view(),
            view == snapshot.deep_view(),
            excluded.deep_view() == remote_ids(view),
            keep == (|backed: BackedThreadView| !remote_ids(view).contains(backed.thread.id)),
            id == (|backed: BackedThreadView| backed.thread.id),
            out.deep_view() == ids_where(rows.take(i as int), keep, id),
        decreases backed@.len() - i,
    {
        let entry = &backed[i];
        proof {
            assert(rows[i as int] == entry.deep_view());
            lemma_ids_where(rows, keep, id, i as int);
        }
        if !excluded.contains(&entry.thread.id) {
            out.insert(entry.thread.id.copy_of());
        }
        i += 1;
    }
    assert(rows.take(i as int) =~= rows);
    out
}

fn collect_lost_rollout_ids(snapshot: &Snapshot, excluded: &OrderedSet<String>) -> (r: OrderedSet<
    String,
>)
    requires
        excluded.deep_view() == remote_ids(snapshot.deep_view()),
    ensures
        r.deep_view() == lost_rollout_ids(snapshot.deep_view()),
{
    let ghost rows = snapshot.threads.deep_view();
    let ghost view = snapshot.deep_view();
    let ghost keep = |thread: ThreadRowView|
        !remote_ids(view).contains(thread.id) && !view.valid_active_rollouts.contains(thread.id)
            && !view.valid_archived_rollouts.contains(thread.id);
    let ghost id = |thread: ThreadRowView| thread.id;
    let mut out: OrderedSet<String> = OrderedSet::new();
    let mut i: usize = 0;
    assert(out.deep_view() =~= ids_where(rows.take(0), keep, id));
    while i < snapshot.threads.len()
        invariant
            i <= snapshot.threads@.len(),
            rows == snapshot.threads.deep_view(),
            view == snapshot.deep_view(),
            excluded.deep_view() == remote_ids(view),
            keep == (|thread: ThreadRowView|
                !remote_ids(view).contains(thread.id) && !view.valid_active_rollouts.contains(
                    thread.id,
                ) && !view.valid_archived_rollouts.contains(thread.id)),
            id == (|thread: ThreadRowView| thread.id),
            out.deep_view() == ids_where(rows.take(i as int), keep, id),
        decreases snapshot.threads@.len() - i,
    {
        let thread = &snapshot.threads[i];
        proof {
            assert(rows[i as int] == thread.deep_view());
            lemma_ids_where(rows, keep, id, i as int);
        }
        if !excluded.contains(&thread.id) && !snapshot.valid_active_rollouts.contains(&thread.id)
            && !snapshot.valid_archived_rollouts.contains(&thread.id) {
            out.insert(thread.id.copy_of());
        }
        i += 1;
    }
    assert(rows.take(i as int) =~= rows);
    out
}

/// Whether the rollout of a thread can be given another provider.
pub fn rollout_is_rewritable(snapshot: &Snapshot, id: &String) -> (r: bool)
    ensures
        r == rewritable_rollout(snapshot.deep_view(), id@),
{
    snapshot.rollout_paths.contains_key(id) && (snapshot.rollout_provider_values.contains_key(id)
        || match snapshot.primary_rollouts.get(id) {
        Some(primary) => primary.provider_field_missing,
        None => false,
    })
}

fn collect_recoverable_ids(snapshot: &Snapshot, ordinary: &OrderedSet<String>) -> (r: OrderedSet<
    String,
>)
    requires
        ordinary.deep_view() == ordinary_ids(snapshot.deep_view()),
    ensures
        r.deep_view() == recoverable_ids(snapshot.deep_view()),
{
    let n: usize = ordinary.len();
    let ghost items = ordinary.items();
    let ghost view = snapshot.deep_view();
    let mut out: OrderedSet<String> = OrderedSet::new();
    let mut i: usize = 0;
    while i < n
        invariant
            i <= n == items.len(),
            items == ordinary.items(),
            ordinary.items_describe(),
            view == snapshot.deep_view(),
            forall|id: Seq<char>| #[trigger]
                out.deep_view().contains(id) <==> items.take(i as int).contains(id)
                    && rewritable_rollout(view, id),
        decreases n - i,
    {
        let id = ordinary.item_at(i);
        if rollout_is_rewritable(snapshot, id) {
            out.insert(id.copy_of());
        }
        proof {
            assert(items.take(i + 1) =~= items.take(i as int).push(items[i as int]));
            assert forall|x: Seq<char>| #[trigger] items.take(i + 1).contains(x) <==> (
            items.take(i as int).contains(x) || x == items[i as int]) by {
                lemma_push_contains(items.take(i as int), items[i as int], x);
            }
        }
        i += 1;
    }
    assert(items.take(i as int) =~= items);
    assert(out.deep_view() =~= recoverable_ids(view));
    out
}

/// Sorts the ids of a snapshot by what may be done with them.
pub fn session_cohorts(snapshot: &Snapshot) -> (r: SessionCohorts)
    ensures
        r.deep_view() == cohorts_of(snapshot.deep_view()),
{
    let local_catalog_ids = collect_local_catalog_ids(&snapshot.catalog);
    let remote_catalog_ids = collect_remote_catalog_ids(&snapshot.catalog);
    let remote_session_ids = collect_remote_ids(snapshot, &remote_catalog_ids);
    let remote_excluded_thread_ids = remote_session_ids.copy_of();
    let ordinary_active_ids = collect_ordinary_ids(snapshot, &remote_excluded_thread_ids);
    let missing_rollout_ids = collect_lost_rollout_ids(snapshot, &remote_excluded_thread_ids);
    let recoverable_ids = collect_recoverable_ids(snapshot, &ordinary_active_ids);
    let recoverable_indexed_ids = shared(&recoverable_ids, &local_catalog_ids);
    let session_index_covered_ids = shared(&recoverable_ids, &snapshot.session_index);
    SessionCohorts {
        local_catalog_ids,
        remote_catalog_ids,
        remote_session_ids,
        remote_excluded_thread_ids,
        ordinary_active_ids,
        recoverable_ids,
        recoverable_indexed_ids,
        session_index_covered_ids,
        missing_rollout_ids,
    }
}

/// A session that any record marks as remote is never one that a repair may move, local catalog
/// row or not.
pub proof fn law_remote_marker_wins(snapshot: SnapshotView, id: Seq<char>)
    ensures
        remote_ids(snapshot).contains(id) ==> !recoverable_ids(snapshot).contains(id)
            && !ordinary_ids(snapshot).contains(id) && !lost_rollout_ids(snapshot).contains(id),
{
}

/// What a repair may move is ordinary and has a rollout path.
pub proof fn law_recoverable_is_ordinary(snapshot: SnapshotView, id: Seq<char>)
    requires
        recoverable_ids(snapshot).contains(id),
    ensures
        ordinary_ids(snapshot).contains(id),
        snapshot.rollout_paths.dom().contains(id),
{
}

/// The title under which a state row is listed.
pub open spec fn listed_title(thread: ThreadRowView) -> Seq<char> {
    let raw = if text::trimmed(thread.title).len() > 0 {
        thread.title
    } else if text::trimmed(thread.cwd).len() > 0 {
        thread.cwd
    } else {
        thread.id
    };
    let compact = text::compacted(raw);
    if compact.len() <= 80 {
        compact
    } else {
        compact.take(77) + "..."@
    }
}

/// The title under which a state row is listed: at most eighty characters.
pub fn catalog_title(thread: &ThreadRow) -> (r: String)
    ensures
        r@ == listed_title(thread.deep_view()),
{
    let raw = if !is_blank(thread.title.as_str()) {
        thread.title.as_str()
    } else if !is_blank(thread.cwd.as_str()) {
        thread.cwd.as_str()
    } else {
        thread.id.as_str()
    };
    let compact = compact(raw);
    if compact.as_str().unicode_len() <= 80 {
        compact
    } else {
        let head = take_chars(compact.as_str(), 77);
        join2(head.as_str(), "...")
    }
}

/// A listed title has at most eighty characters.
pub proof fn law_listed_title_is_short(thread: ThreadRowView)
    ensures
        listed_title(thread).len() <= 80,
{
    reveal_strlit("...");
}

/// The name of the project in a directory.
pub open spec fn project_of(cwd: Seq<char>) -> Seq<char> {
    match text::last_part(text::without_end_separators(text::trimmed(cwd))) {
        Some(part) => part,
        None => "Unknown project"@,
    }
}

/// The name of the project in a directory: the last part of the path.
pub fn project_name(cwd: &str) -> (r: String)
    ensures
        r@ == project_of(cwd@),
{
    let trimmed = trim(cwd);
    let path = trim_end_separators(trimmed.as_str());
    match find_last_part(path.as_str()) {
        Some(part) => part,
        None => "Unknown project".to_owned(),
    }
}

/// The value of a key, if it has one.
pub open spec fn lookup<X>(map: Map<Seq<char>, X>, id: Seq<char>) -> Option<X> {
    if map.dom().contains(id) {
        Some(map[id])
    } else {
        None
    }
}

/// The rollout of a thread is archived.
pub open spec fn archived_rollout(snapshot: SnapshotView, id: Seq<char>) -> bool {
    snapshot.primary_rollouts.dom().contains(id) && snapshot.primary_rollouts[id].archived
}

/// State row and rollout of a session agree with the target.
pub open spec fn aligned_session(
    snapshot: SnapshotView,
    backed: BackedThreadView,
    target: Seq<char>,
) -> bool {
    &&& backed.state_present
    &&& backed.thread.provider == target
    &&& lookup(snapshot.rollout_provider_values, backed.thread.id) == Some(target)
    &&& backed.thread.archived == archived_rollout(snapshot, backed.thread.id)
}

/// The provider that a session came from, as it is listed.
pub open spec fn listed_origin(
    snapshot: SnapshotView,
    store: Option<ProjectionStoreView>,
    thread: ThreadRowView,
) -> Seq<char> {
    let recorded = lookup(snapshot.rollout_provider_values, thread.id);
    if store is Some && store->0.threads.dom().contains(thread.id) {
        projection::provider_id(store->0.threads[thread.id].origin_provider)
    } else if recorded is Some && providers::safe_id(recorded->0) {
        recorded->0
    } else {
        providers::normalized_id(thread.provider)
    }
}

/// A session as it is listed while `target` is the current provider.
pub open spec fn session_summary(
    snapshot: SnapshotView,
    store: Option<ProjectionStoreView>,
    target: Seq<char>,
    backed: BackedThreadView,
) -> LocalSessionSummaryView {
    let thread = backed.thread;
    let archived = archived_rollout(snapshot, thread.id);
    let aligned = aligned_session(snapshot, backed, target);
    LocalSessionSummaryView {
        id: thread.id,
        title: listed_title(thread),
        cwd: thread.cwd,
        rollout_path: or_empty(lookup(snapshot.rollout_paths, thread.id)),
        project_name: project_of(thread.cwd),
        provider: providers::normalized_id(thread.provider),
        origin_provider: listed_origin(snapshot, store, thread),
        updated_at: thread.updated_at,
        archived,
        internal: locality::skipped_thread(thread) || locality::automated_rollout(
            snapshot,
            thread.id,
        ),
        visibility: if aligned && !archived {
            "visible"@
        } else {
            "hidden"@
        },
        status: if aligned && archived {
            "archived"@
        } else if aligned {
            "visible"@
        } else {
            "recoverable"@
        },
    }
}

/// The local sessions of `backed`, each with its place in the list.
pub open spec fn placed_summaries(
    snapshot: SnapshotView,
    store: Option<ProjectionStoreView>,
    target: Seq<char>,
    excluded: Set<Seq<char>>,
    backed: Seq<BackedThreadView>,
) -> Seq<(SummaryOrderView, LocalSessionSummaryView)>
    decreases backed.len(),
{
    if backed.len() == 0 {
        Seq::empty()
    } else {
        let rest = placed_summaries(snapshot, store, target, excluded, backed.drop_last());
        let last = backed.last();
        if excluded.contains(last.thread.id) {
            rest
        } else {
            let summary = session_summary(snapshot, store, target, last);
            rest.push(
                (
                    SummaryOrderView {
                        updated_at: summary.updated_at,
                        title: summary.title,
                        id: summary.id,
                    },
                    summary,
                ),
            )
        }
    }
}

/// The local sessions of a home as they are listed: the latest first, then by title, then by id.
pub open spec fn session_list(
    snapshot: SnapshotView,
    store: Option<ProjectionStoreView>,
    current_provider: Seq<char>,
    excluded: Set<Seq<char>>,
) -> Seq<LocalSessionSummaryView> {
    ordered::sorted_pairs::<SummaryOrder, LocalSessionSummaryView>(
        placed_summaries(
            snapshot,
            store,
            providers::canonical_id(current_provider),
            excluded,
            backed_threads(snapshot, rollout_ids(snapshot)),
        ),
    ).map_values(|pair: (SummaryOrderView, LocalSessionSummaryView)| pair.1)
}

/// What a store that may be absent stands for.
pub open spec fn store_view(store: Option<&ProjectionStore>) -> Option<ProjectionStoreView> {
    match store {
        Some(store) => Some(store.deep_view()),
        None => None,
    }
}

fn summarize(
    snapshot: &Snapshot,
    store: Option<&ProjectionStore>,
    target: &String,
    backed: &BackedThread,
) -> (r: LocalSessionSummary)
    ensures
        r.deep_view() == session_summary(
            snapshot.deep_view(),
            store_view(store),
            target@,
            backed.deep_view(),
        ),
{
    let thread = &backed.thread;
    let provider = normalize_provider(thread.provider.as_str());
    let archived = match snapshot.primary_rollouts.get(&thread.id) {
        Some(primary) => primary.archived,
        None => false,
    };
    let rollout_provider = snapshot.rollout_provider_values.get(&thread.id);
    let rollout_aligned = match rollout_provider {
        Some(recorded) => recorded.same_as(target),
        None => false,
    };
    let aligned = backed.state_present && thread.provider.same_as(target) && rollout_aligned
        && thread.archived == archived;
    let recorded_origin = match rollout_provider {
        Some(recorded) => match source_provider(recorded.as_str()) {
            Some(found) => found.as_str().to_owned(),
            None => provider.copy_of(),
        },
        None => provider.copy_of(),
    };
    let origin_provider = match store {
        Some(store) => match store.threads.get(&thread.id) {
            Some(record) => record.origin_provider.as_str().to_owned(),
            None => recorded_origin,
        },
        None => recorded_origin,
    };
    let rollout_path = match snapshot.rollout_paths.get(&thread.id) {
        Some(path) => path.copy_of(),
        None => text_or_empty(&None),
    };
    let status = if aligned && archived {
        "archived"
    } else if aligned {
        "visible"
    } else {
        "recoverable"
    };
    let visibility = if aligned && !archived {
        "visible"
    } else {
        "hidden"
    };
    LocalSessionSummary {
        id: thread.id.copy_of(),
        title: catalog_title(thread),
        cwd: thread.cwd.copy_of(),
        rollout_path,
        project_name: project_name(thread.cwd.as_str()),
        provider,
        origin_provider,
        updated_at: thread.updated_at,
        archived,
        internal: is_skipped_thread(thread).is_some() || rollout_source_not_ordinary(
            snapshot,
            &thread.id,
        ),
        visibility: visibility.to_owned(),
        status: status.to_owned(),
    }
}

/// Lists the local sessions of a home, given its cohorts.
pub fn local_session_summaries_with_cohorts(
    snapshot: &Snapshot,
    store: Option<&ProjectionStore>,
    current_provider: &str,
    cohorts: &SessionCohorts,
) -> (r: Vec<LocalSessionSummary>)
    ensures
        r.deep_view() == session_list(
            snapshot.deep_view(),
            store_view(store),
            current_provider@,
            cohorts.remote_excluded_thread_ids.deep_view(),
        ),
{
    let target = canonical_provider(current_provider);
    let backed = rollout_backed_threads(snapshot);
    let ghost rows = backed.deep_view();
    let ghost view = snapshot.deep_view();
    let ghost known = store_view(store);
    let ghost excluded = cohorts.remote_excluded_thread_ids.deep_view();
    let mut placed: Vec<(SummaryOrder, LocalSessionSummary)> = Vec::new();
    let mut i: usize = 0;
    assert(placed.deep_view() =~= placed_summaries(view, known, target@, excluded, rows.take(0)));
    while i < backed.len()
        invariant
            i <= backed@.len(),
            rows == backed.deep_view(),
            view == snapshot.deep_view(),
            known == store_view(store),
            excluded == cohorts.remote_excluded_thread_ids.deep_view(),
            placed.deep_view() == placed_summaries(
                view,
                known,
                target@,
                excluded,
                rows.take(i as int),
            ),
        decreases backed@.len() - i,
    {
        let entry = &backed[i];
        let ghost before = placed.deep_view();
        assert(rows[i as int] == entry.deep_view());
        assert(rows.take(i + 1).drop_last() =~= rows.take(i as int));
        if !cohorts.remote_excluded_thread_ids.contains(&entry.thread.id) {
            let summary = summarize(snapshot, store, &target, entry);
            let place = SummaryOrder {
                updated_at: summary.updated_at,
                title: summary.title.copy_of(),
                id: summary.id.copy_of(),
            };
            let ghost added = (place.deep_view(), summary.deep_view());
            placed.push((place, summary));
            assert(placed.deep_view() =~= before.push(added));
        }
        i += 1;
    }
    assert(rows.take(i as int) =~= rows);
    let sorted = sort_pairs(placed);
    let ghost ordered_view = sorted.deep_view();
    let mut out: Vec<LocalSessionSummary> = Vec::new();
    let mut k: usize = 0;
    while k < sorted.len()
        invariant
            k <= sorted@.len(),
            ordered_view == sorted.deep_view(),
            out@.len() == k,
            forall|j: int| 0 <= j < k ==> #[trigger] out@[j].deep_view() == ordered_view[j].1,
        decreases sorted@.len() - k,
    {
        assert(ordered_view[k as int].1 == sorted@[k as int].1.deep_view());
        out.push(sorted[k].1.copy_of());
        k += 1;
    }
    assert(out.deep_view() =~= session_list(view, known, current_provider@, excluded));
    out
}

/// Lists the local sessions of a home.
pub fn local_session_summaries(
    snapshot: &Snapshot,
    store: Option<&ProjectionStore>,
    current_provider: &str,
) -> (r: Vec<LocalSessionSummary>)
    ensures
        r.deep_view() == session_list(
            snapshot.deep_view(),
            store_view(store),
            current_provider@,
            remote_ids(snapshot.deep_view()),
        ),
{
    let cohorts = session_cohorts(snapshot);
    local_session_summaries_with_cohorts(snapshot, store, current_provider, &cohorts)
}

/// What a rollout previews: its preview, else its first message, else its title, else its id.
pub open spec fn preview_of(primary: PrimaryRolloutView) -> Seq<char> {
    match first_text(primary.preview, primary.first_user_message, primary.title) {
        Some(preview) => text::first_chars(preview, 240),
        None => text::first_chars(primary.id, 240),
    }
}

/// A field of the repository information of a rollout, if there is any.
pub open spec fn state_insert(
    primary: PrimaryRolloutView,
    thread_id: Seq<char>,
    target: Seq<char>,
) -> StateInsertView {
    StateInsertView {
        thread_id,
        rollout_path: primary.path,
        archived: primary.archived,
        created_at: session_seconds(primary),
        updated_at: change_seconds(primary),
        source: stored_text(primary.source, "cli"@),
        thread_source: stored_text(primary.thread_source, "user"@),
        provider: providers::canonical_id(target),
        cwd: or_empty(primary.cwd),
        title: title_of(primary),
        sandbox_policy: stored_text(primary.sandbox_policy, "{\"type\":\"read-only\"}"@),
        approval_mode: match primary.approval_mode {
            Some(mode) => mode,
            None => "on-request"@,
        },
        cli_version: or_empty(primary.cli_version),
        first_user_message: or_empty(primary.first_user_message),
        preview: preview_of(primary),
        has_user_event: primary.first_user_message is Some,
        git_sha: match primary.git {
            Some(git) => git.commit_hash,
            None => None,
        },
        git_branch: match primary.git {
            Some(git) => git.branch,
            None => None,
        },
        git_origin_url: match primary.git {
            Some(git) => git.repository_url,
            None => None,
        },
    }
}

/// The state row to add for a session that has only a rollout.
pub fn state_insert_from_rollout(
    snapshot: &Snapshot,
    thread: &ThreadRow,
    target_provider: &str,
) -> (r: Option<StateInsert>)
    ensures
        r.deep_view() == (match lookup(snapshot.primary_rollouts.deep_view(), thread.id@) {
            Some(primary) => Some(state_insert(primary, thread.id@, target_provider@)),
            None => None,
        }),
{
    match snapshot.primary_rollouts.get(&thread.id) {
        None => None,
        Some(primary) => {
            let (git_sha, git_branch, git_origin_url) = match &primary.git {
                Some(git) => (
                    git.commit_hash.copy_of(),
                    git.branch.copy_of(),
                    git.repository_url.copy_of(),
                ),
                None => (None, None, None),
            };
            let preview = match first_of(
                &primary.preview,
                &primary.first_user_message,
                &primary.title,
            ) {
                Some(preview) => take_chars(preview.as_str(), 240),
                None => take_chars(primary.id.as_str(), 240),
            };
            let approval_mode = match &primary.approval_mode {
                Some(mode) => mode.copy_of(),
                None => "on-request".to_owned(),
            };
            Some(
                StateInsert {
                    thread_id: thread.id.copy_of(),
                    rollout_path: primary.path.copy_of(),
                    archived: primary.archived,
                    created_at: rollout_timestamp_seconds(primary),
                    updated_at: rollout_updated_at_seconds(primary),
                    source: sqlite_text_value(&primary.source, "cli"),
                    thread_source: sqlite_text_value(&primary.thread_source, "user"),
                    provider: canonical_provider(target_provider),
                    cwd: text_or_empty(&primary.cwd),
                    title: rollout_title(primary),
                    sandbox_policy: sqlite_text_value(
                        &primary.sandbox_policy,
                        "{\"type\":\"read-only\"}",
                    ),
                    approval_mode,
                    cli_version: text_or_empty(&primary.cli_version),
                    first_user_message: text_or_empty(&primary.first_user_message),
                    preview,
                    has_user_event: primary.first_user_message.is_some(),
                    git_sha,
                    git_branch,
                    git_origin_url,
                },
            )
        },
    }
}

/// Everything that is written of a session names the provider: it has a state row, the row and the
/// rollout name the provider, and they agree on whether it is archived.
pub open spec fn wholly_under(
    snapshot: SnapshotView,
    provider: Seq<char>,
    backed: BackedThreadView,
) -> bool {
    let id = backed.thread.id;
    &&& backed.state_present
    &&& backed.thread.provider == provider
    &&& snapshot.rollout_provider_values.dom().contains(id)
    &&& snapshot.rollout_provider_values[id] == provider
    &&& backed.thread.archived <==> snapshot.primary_rollouts.dom().contains(id)
        && snapshot.primary_rollouts[id].archived
}

/// A session is listed as visible exactly where everything that is written of it names the current
/// provider and it is not archived; as archived where it is; and as recoverable exactly where
/// something names another provider or the archive is in doubt.
pub proof fn law_listed_session_is_what_is_written(
    snapshot: SnapshotView,
    store: Option<ProjectionStoreView>,
    provider: Seq<char>,
    backed: BackedThreadView,
)
    ensures
        ({
            let listed = session_summary(snapshot, store, provider, backed);
            let whole = wholly_under(snapshot, provider, backed);
            let archived = snapshot.primary_rollouts.dom().contains(backed.thread.id)
                && snapshot.primary_rollouts[backed.thread.id].archived;
            &&& listed.visibility == "visible"@ <==> whole && !archived
            &&& listed.visibility == "hidden"@ <==> !whole || archived
            &&& listed.status == "recoverable"@ <==> !whole
            &&& listed.status == "visible"@ <==> whole && !archived
            &&& listed.status == "archived"@ <==> whole && archived
            &&& listed.archived == archived
            &&& listed.id == backed.thread.id
            &&& listed.cwd == backed.thread.cwd
            &&& listed.updated_at == backed.thread.updated_at
        }),
{
    reveal_strlit("visible");
    reveal_strlit("hidden");
    reveal_strlit("recoverable");
    reveal_strlit("archived");
    assert("visible"@.len() != "hidden"@.len());
    assert("recoverable"@.len() != "archived"@.len());
    assert("visible"@.len() != "archived"@.len());
}

/// The row that is added for a session tells of it what its rollout tells, and names the target:
/// the time is the one that the rollout records, or else that of its file; a title has at most 120
/// characters and a preview 240; and where the rollout is silent the row says what a session of the
/// command line would say.
pub proof fn law_added_row_tells_what_the_rollout_tells(
    primary: PrimaryRolloutView,
    id: Seq<char>,
    target: Seq<char>,
)
    ensures
        ({
            let row = state_insert(primary, id, target);
            let listed = rollout_row(primary);
            &&& row.thread_id == id
            &&& row.provider == providers::canonical_id(target)
            &&& row.rollout_path == primary.path
            &&& row.archived == primary.archived
            &&& row.title == listed.title
            &&& row.cwd == listed.cwd
            &&& row.source == listed.source
            &&& row.thread_source == listed.thread_source
            &&& row.first_user_message == listed.first_user_message
            &&& row.has_user_event == listed.has_user_event
            &&& listed.id == primary.id
            &&& listed.rollout_path == primary.path
            &&& listed.archived == primary.archived
            &&& listed.agent_role is None
            &&& listed.provider == (if primary.model_provider is Some {
                primary.model_provider->0
            } else {
                Seq::empty()
            })
            &&& primary.cwd is Some ==> row.cwd == primary.cwd->0
            &&& primary.cwd is None ==> row.cwd.len() == 0
            &&& row.has_user_event <==> primary.first_user_message is Some
            &&& primary.first_user_message is Some ==> row.first_user_message
                == primary.first_user_message->0
            &&& primary.first_user_message is None ==> row.first_user_message.len() == 0
            &&& primary.cli_version is Some ==> row.cli_version == primary.cli_version->0
            &&& primary.cli_version is None ==> row.cli_version.len() == 0
            &&& primary.approval_mode is Some ==> row.approval_mode == primary.approval_mode->0
            &&& primary.approval_mode is None ==> row.approval_mode == "on-request"@
            &&& primary.source is None ==> row.source == "cli"@
            &&& primary.thread_source is None ==> row.thread_source == "user"@
            &&& primary.sandbox_policy is None ==> row.sandbox_policy
                == "{\"type\":\"read-only\"}"@
            &&& forall|value: JsonView|
                primary.source == Some(value) && !(value is Text) ==> row.source
                    == #[trigger] json::rendered(value)
            &&& forall|value: JsonView|
                primary.sandbox_policy == Some(value) && !(value is Text) ==> row.sandbox_policy
                    == #[trigger] json::rendered(value)
            &&& primary.source is Some && primary.source->0 is Text && text::trimmed(
                primary.source->0->Text_0,
            ).len() > 0 ==> row.source == primary.source->0->Text_0
            &&& primary.git is Some ==> row.git_sha == primary.git->0.commit_hash && row.git_branch
                == primary.git->0.branch && row.git_origin_url == primary.git->0.repository_url
            &&& primary.git is None ==> row.git_sha is None && row.git_branch is None
                && row.git_origin_url is None
            &&& row.title.len() <= 120
            &&& row.preview.len() <= 240
            &&& primary.preview is Some && primary.preview->0.len() <= 240 ==> row.preview
                == primary.preview->0
            &&& primary.preview is None && primary.first_user_message is Some
                && primary.first_user_message->0.len() <= 240 ==> row.preview
                == primary.first_user_message->0
            &&& primary.title is Some && text::trimmed(primary.title->0).len() > 0
                ==> text::has_prefix(text::trimmed(primary.title->0), row.title)
            &&& primary.title is None && primary.first_user_message is Some && text::trimmed(
                primary.first_user_message->0,
            ).len() > 0 ==> text::has_prefix(
                text::trimmed(primary.first_user_message->0),
                row.title,
            )
            &&& primary.title is None && primary.first_user_message is None && primary.preview is None
                ==> text::has_prefix(primary.id, row.title)
        }),
{
    lemma_cut_is_prefix(text::trimmed(primary.title->0), 120);
    lemma_cut_is_prefix(text::trimmed(primary.first_user_message->0), 120);
    lemma_cut_is_prefix(primary.id, 120);
}

proof fn lemma_cut_is_prefix(s: Seq<char>, n: nat)
    ensures
        text::has_prefix(s, text::first_chars(s, n)),
{
    assert(s.take(text::first_chars(s, n).len() as int) =~= text::first_chars(s, n));
}

/// A session's row says when it began as its rollout does, or else when the file last changed; and
/// it says when it last changed as the file does, or else when it began.
pub proof fn law_times_prefer_what_is_recorded(
    primary: PrimaryRolloutView,
    id: Seq<char>,
    target: Seq<char>,
)
    ensures
        ({
            let row = state_insert(primary, id, target);
            let recorded = session_instant(primary);
            &&& recorded is Some ==> row.created_at == (recorded->0).0
            &&& recorded is None && primary.updated_at_fallback is None ==> row.created_at == 0
            &&& recorded is None && primary.updated_at_fallback is Some
                && primary.updated_at_fallback->0 <= i64::MAX ==> row.created_at
                == primary.updated_at_fallback->0
            &&& primary.updated_at_fallback is Some && primary.updated_at_fallback->0 <= i64::MAX
                ==> row.updated_at == primary.updated_at_fallback->0
            &&& primary.updated_at_fallback is Some && primary.updated_at_fallback->0 > i64::MAX
                ==> row.updated_at == i64::MAX
            &&& primary.updated_at_fallback is None ==> row.updated_at == row.created_at
        }),
{
}

/// The sessions that are looked at are those that have a valid rollout, active or archived.
pub proof fn law_valid_rollouts_are_looked_at(snapshot: SnapshotView, id: Seq<char>)
    requires
        snapshot.valid_active_rollouts.finite(),
        snapshot.valid_archived_rollouts.finite(),
    ensures
        rollout_ids(snapshot).contains(id) <==> snapshot.valid_active_rollouts.contains(id)
            || snapshot.valid_archived_rollouts.contains(id),
{
    let active = ordered::listed::<String>(snapshot.valid_active_rollouts);
    let archived = ordered::listed::<String>(snapshot.valid_archived_rollouts);
    ordered::lemma_finite_is_listed::<String>(snapshot.valid_active_rollouts);
    ordered::lemma_finite_is_listed::<String>(snapshot.valid_archived_rollouts);
    let both = active + archived;
    let pairs = marked(both);
    let sorted = ordered::sorted_pairs::<String, bool>(pairs);
    let ids = rollout_ids(snapshot);
    ordered::lemma_sorted_pairs::<String, bool>(pairs);
    ordered::lemma_sorted_holds::<String, bool>(pairs, (id, true));
    if snapshot.valid_active_rollouts.contains(id) {
        assert(active.contains(id));
        let i = choose|i: int| 0 <= i < active.len() && active[i] == id;
        assert(both[i] == id);
        assert(pairs[i] == (id, true));
    }
    if snapshot.valid_archived_rollouts.contains(id) {
        assert(archived.contains(id));
        let i = choose|i: int| 0 <= i < archived.len() && archived[i] == id;
        assert(both[active.len() + i] == id);
        assert(pairs[active.len() + i] == (id, true));
    }
    if pairs.contains((id, true)) {
        let k = choose|k: int| 0 <= k < sorted.len() && sorted[k] == (id, true);
        assert(ids[k] == id);
    }
    if ids.contains(id) {
        let k = choose|k: int| 0 <= k < ids.len() && ids[k] == id;
        assert(sorted[k].0 == id);
        assert(pairs.contains(sorted[k]));
        let i = choose|i: int| 0 <= i < pairs.len() && pairs[i] == sorted[k];
        assert(both[i] == id);
        if i < active.len() {
            assert(active[i] == id);
        } else {
            assert(archived[i - active.len()] == id);
        }
    }
}

proof fn lemma_placed_from(
    snapshot: SnapshotView,
    store: Option<ProjectionStoreView>,
    target: Seq<char>,
    excluded: Set<Seq<char>>,
    backed: Seq<BackedThreadView>,
    k: int,
) -> (i: int)
    requires
        0 <= k < placed_summaries(snapshot, store, target, excluded, backed).len(),
    ensures
        0 <= i < backed.len(),
        !excluded.contains(backed[i].thread.id),
        ({
            let placed = placed_summaries(snapshot, store, target, excluded, backed)[k];
            &&& placed.1 == session_summary(snapshot, store, target, backed[i])
            &&& placed.0.updated_at == placed.1.updated_at
            &&& placed.0.title == placed.1.title
            &&& placed.0.id == placed.1.id
        }),
    decreases backed.len(),
{
    let front = backed.drop_last();
    let rest = placed_summaries(snapshot, store, target, excluded, front);
    if k < rest.len() {
        lemma_placed_from(snapshot, store, target, excluded, front, k)
    } else {
        backed.len() - 1
    }
}

proof fn lemma_placed_has(
    snapshot: SnapshotView,
    store: Option<ProjectionStoreView>,
    target: Seq<char>,
    excluded: Set<Seq<char>>,
    backed: Seq<BackedThreadView>,
    i: int,
) -> (k: int)
    requires
        0 <= i < backed.len(),
        !excluded.contains(backed[i].thread.id),
    ensures
        0 <= k < placed_summaries(snapshot, store, target, excluded, backed).len(),
        placed_summaries(snapshot, store, target, excluded, backed)[k].1 == session_summary(
            snapshot,
            store,
            target,
            backed[i],
        ),
    decreases backed.len(),
{
    let front = backed.drop_last();
    if i < front.len() {
        lemma_placed_has(snapshot, store, target, excluded, front, i)
    } else {
        placed_summaries(snapshot, store, target, excluded, front).len() as int
    }
}

/// The list of sessions holds every session that is looked at and not left out, no other, and the
/// latest first.
pub proof fn law_list_holds_the_local_sessions(
    snapshot: SnapshotView,
    store: Option<ProjectionStoreView>,
    current: Seq<char>,
    excluded: Set<Seq<char>>,
)
    ensures
        ({
            let list = session_list(snapshot, store, current, excluded);
            let backed = backed_threads(snapshot, rollout_ids(snapshot));
            &&& forall|i: int|
                0 <= i < backed.len() && !excluded.contains((#[trigger] backed[i]).thread.id)
                    ==> list.contains(
                    session_summary(
                        snapshot,
                        store,
                        providers::canonical_id(current),
                        backed[i],
                    ),
                )
            &&& forall|k: int|
                0 <= k < list.len() ==> !excluded.contains((#[trigger] list[k]).id) && exists|i: int|
                    0 <= i < backed.len() && (#[trigger] backed[i]).thread.id == list[k].id
            &&& forall|k: int, m: int|
                0 <= k < m < list.len() ==> (#[trigger] list[k]).updated_at >= (
                #[trigger] list[m]).updated_at
        }),
{
    let target = providers::canonical_id(current);
    let backed = backed_threads(snapshot, rollout_ids(snapshot));
    let placed = placed_summaries(snapshot, store, target, excluded, backed);
    let sorted = ordered::sorted_pairs::<SummaryOrder, LocalSessionSummaryView>(placed);
    let list = session_list(snapshot, store, current, excluded);
    ordered::lemma_sorted_pairs::<SummaryOrder, LocalSessionSummaryView>(placed);
    assert forall|i: int|
        0 <= i < backed.len() && !excluded.contains(
            (#[trigger] backed[i]).thread.id,
        ) implies list.contains(session_summary(snapshot, store, target, backed[i])) by {
        let k = lemma_placed_has(snapshot, store, target, excluded, backed, i);
        assert(placed.contains(placed[k]));
        ordered::lemma_sorted_holds::<SummaryOrder, LocalSessionSummaryView>(placed, placed[k]);
        let m = choose|m: int| 0 <= m < sorted.len() && sorted[m] == placed[k];
        assert(list[m] == sorted[m].1);
    }
    assert forall|k: int| 0 <= k < list.len() implies !excluded.contains((#[trigger] list[k]).id)
        && exists|i: int| 0 <= i < backed.len() && (#[trigger] backed[i]).thread.id == list[k].id by {
        assert(placed.contains(sorted[k]));
        let p = choose|p: int| 0 <= p < placed.len() && placed[p] == sorted[k];
        let i = lemma_placed_from(snapshot, store, target, excluded, backed, p);
        assert(backed[i].thread.id == list[k].id);
    }
    assert forall|k: int, m: int| 0 <= k < m < list.len() implies (#[trigger] list[k]).updated_at
        >= (#[trigger] list[m]).updated_at by {
        assert(placed.contains(sorted[k]));
        assert(placed.contains(sorted[m]));
        let p = choose|p: int| 0 <= p < placed.len() && placed[p] == sorted[k];
        let q = choose|q: int| 0 <= q < placed.len() && placed[q] == sorted[m];
        let i = lemma_placed_from(snapshot, store, target, excluded, backed, p);
        let j = lemma_placed_from(snapshot, store, target, excluded, backed, q);
        assert(SummaryOrder::relation_of(sorted[m].0, sorted[k].0) != Relation::Less);
    }
}

/// A session belongs to another machine exactly where one of its catalog rows, its state row or its
/// valid rollout says so.
pub proof fn law_remote_is_what_some_record_says(snapshot: SnapshotView, id: Seq<char>)
    ensures
        remote_ids(snapshot).contains(id) <==> {
            ||| exists|i: int|
                0 <= i < snapshot.catalog.len() && (#[trigger] snapshot.catalog[i]).thread_id == id
                    && locality::remote_row(snapshot.catalog[i])
            ||| exists|i: int|
                0 <= i < snapshot.threads.len() && (#[trigger] snapshot.threads[i]).id == id && (
                locality::remote_marker(snapshot.threads[i].source) || locality::remote_marker(
                    snapshot.threads[i].thread_source,
                ))
            ||| (snapshot.valid_active_rollouts.contains(id)
                || snapshot.valid_archived_rollouts.contains(id))
                && snapshot.rollout_locality.dom().contains(id) && locality::remote_marker(
                snapshot.rollout_locality[id],
            )
        },
        local_catalog_ids(snapshot.catalog).contains(id) <==> exists|i: int|
            0 <= i < snapshot.catalog.len() && (#[trigger] snapshot.catalog[i]).thread_id == id
                && !locality::remote_row(snapshot.catalog[i])
                && !snapshot.catalog[i].missing_candidate,
        lost_rollout_ids(snapshot).contains(id) <==> !remote_ids(snapshot).contains(id)
            && !snapshot.valid_active_rollouts.contains(id)
            && !snapshot.valid_archived_rollouts.contains(id) && exists|i: int|
            0 <= i < snapshot.threads.len() && (#[trigger] snapshot.threads[i]).id == id,
        recoverable_ids(snapshot).contains(id) <==> ordinary_ids(snapshot).contains(id)
            && snapshot.rollout_paths.dom().contains(id) && (
        snapshot.rollout_provider_values.dom().contains(id) || (
        snapshot.primary_rollouts.dom().contains(id)
            && snapshot.primary_rollouts[id].provider_field_missing)),
{
    if exists|i: int|
        0 <= i < snapshot.catalog.len() && (#[trigger] snapshot.catalog[i]).thread_id == id
            && !locality::remote_row(snapshot.catalog[i]) && !snapshot.catalog[i].missing_candidate {
        let i = choose|i: int|
            0 <= i < snapshot.catalog.len() && (#[trigger] snapshot.catalog[i]).thread_id == id
                && !locality::remote_row(snapshot.catalog[i])
                && !snapshot.catalog[i].missing_candidate;
        locality::law_rows_are_local_or_remote(snapshot.catalog[i]);
    }
}

} // verus!

//! Opening the files of a home: what is tried again, and what is refused.

use crate::digest;
use crate::digest::hash_bytes;
use crate::json;
use crate::json::json_error;
use crate::model;
use crate::model::Model;
use crate::schema;
use crate::schema::{
    format_sqlite_open_error, sqlite_write_conflict, DatabaseFound, DatabaseFoundView,
};
use crate::text::{join2, join4, same};
use vstd::prelude::*;

verus! {

/// How an attempt to open a database ended.
#[derive(Clone, Debug, PartialEq, Eq)]
pub enum OpenOutcome {
    Opened,
    /// Someone else holds it: the error.
    Busy(String),
    Failed(String),
}

/// What a `OpenOutcome` stands for.
#[verifier::ext_equal]
pub enum OpenOutcomeView {
    Opened,
    Busy(Seq<char>),
    Failed(Seq<char>),
}

impl DeepView for OpenOutcome {
    type V = OpenOutcomeView;

    open spec fn deep_view(&self) -> OpenOutcomeView {
        match self {
            OpenOutcome::Opened => OpenOutcomeView::Opened,
            OpenOutcome::Busy(value) => OpenOutcomeView::Busy(value.deep_view()),
            OpenOutcome::Failed(value) => OpenOutcomeView::Failed(value.deep_view()),
        }
    }
}

impl Model for OpenOutcome {
    fn copy_of(&self) -> (r: Self) {
        match self {
            OpenOutcome::Opened => OpenOutcome::Opened,
            OpenOutcome::Busy(value) => OpenOutcome::Busy(value.copy_of()),
            OpenOutcome::Failed(value) => OpenOutcome::Failed(value.copy_of()),
        }
    }

    fn same_as(&self, other: &Self) -> (r: bool) {
        match (self, other) {
            (OpenOutcome::Opened, OpenOutcome::Opened) => true,
            (OpenOutcome::Busy(value_l), OpenOutcome::Busy(value_r)) => value_l.same_as(value_r),
            (OpenOutcome::Failed(value_l), OpenOutcome::Failed(value_r)) => value_l.same_as(value_r),
            _ => false,
        }
    }
}

/// What follows an attempt.
#[derive(Clone, Debug, PartialEq, Eq)]
pub enum OpenStep {
    Ready,
    /// Try again, after so many milliseconds.
    Retry(u64),
    Refuse(String),
}

/// What a `OpenStep` stands for.
#[verifier::ext_equal]
pub enum OpenStepView {
    Ready,
    Retry(u64),
    Refuse(Seq<char>),
}

impl DeepView for OpenStep {
    type V = OpenStepView;

    open spec fn deep_view(&self) -> OpenStepView {
        match self {
            OpenStep::Ready => OpenStepView::Ready,
            OpenStep::Retry(value) => OpenStepView::Retry(value.deep_view()),
            OpenStep::Refuse(value) => OpenStepView::Refuse(value.deep_view()),
        }
    }
}

impl Model for OpenStep {
    fn copy_of(&self) -> (r: Self) {
        match self {
            OpenStep::Ready => OpenStep::Ready,
            OpenStep::Retry(value) => OpenStep::Retry(value.copy_of()),
            OpenStep::Refuse(value) => OpenStep::Refuse(value.copy_of()),
        }
    }

    fn same_as(&self, other: &Self) -> (r: bool) {
        match (self, other) {
            (OpenStep::Ready, OpenStep::Ready) => true,
            (OpenStep::Retry(value_l), OpenStep::Retry(value_r)) => value_l.same_as(value_r),
            (OpenStep::Refuse(value_l), OpenStep::Refuse(value_r)) => value_l.same_as(value_r),
            _ => false,
        }
    }
}

/// The size and the time of the last change of a file.
#[derive(Clone, Debug, PartialEq, Eq)]
pub struct FileMark {
    pub length: u64,
    pub modified: u64,
}

/// What a `FileMark` stands for.
#[verifier::ext_equal]
pub struct FileMarkView {
    pub length: u64,
    pub modified: u64,
}

impl DeepView for FileMark {
    type V = FileMarkView;

    open spec fn deep_view(&self) -> FileMarkView {
        FileMarkView {
            length: self.length.deep_view(),
            modified: self.modified.deep_view(),
        }
    }
}

impl Model for FileMark {
    fn copy_of(&self) -> (r: Self) {
        FileMark {
            length: self.length.copy_of(),
            modified: self.modified.copy_of(),
        }
    }

    fn same_as(&self, other: &Self) -> (r: bool) {
        self.length.same_as(&other.length)
            && self.modified.same_as(&other.modified)
    }
}

/// What becomes of the store of projections when a backup is restored.
#[derive(Clone, Copy, Debug, PartialEq, Eq, Structural)]
pub enum ProjectionRestore {
    /// There is none, and was none.
    Nothing,
    Remove,
    Save,
}

impl DeepView for ProjectionRestore {
    type V = ProjectionRestore;

    open spec fn deep_view(&self) -> ProjectionRestore {
        *self
    }
}

impl Model for ProjectionRestore {
    fn copy_of(&self) -> (r: Self) {
        *self
    }

    fn same_as(&self, other: &Self) -> (r: bool) {
        *self == *other
    }
}

/// How often a database is opened for reading while someone else holds it.
pub const LIGHT_SQLITE_BUSY_RETRIES: usize = 8;

/// How long to wait between two attempts to read, in milliseconds.
pub const LIGHT_SQLITE_BUSY_SLEEP_MS: u64 = 25;

/// How often a database is copied while it changes.
pub const SNAPSHOT_ATTEMPTS: usize = 4;

/// The age from which a forgotten copy is removed, in seconds.
pub const SNAPSHOT_STALE_SECONDS: u64 = 3600;

/// How often the write transaction is begun.
pub const WRITE_FENCE_ATTEMPTS: usize = 2;

/// How long to wait between two attempts to write, in milliseconds.
pub const WRITE_FENCE_SLEEP_MS: u64 = 125;

/// What follows attempt number `attempt` to open a database for reading.
pub open spec fn reading_step(
    shown: Seq<char>,
    attempt: usize,
    outcome: OpenOutcomeView,
) -> OpenStepView {
    match outcome {
        OpenOutcomeView::Opened => OpenStepView::Ready,
        OpenOutcomeView::Busy(error) => if attempt + 1 < LIGHT_SQLITE_BUSY_RETRIES {
            OpenStepView::Retry(LIGHT_SQLITE_BUSY_SLEEP_MS)
        } else {
            OpenStepView::Refuse(schema::open_fault(shown, true, error))
        },
        OpenOutcomeView::Failed(error) => OpenStepView::Refuse(
            schema::open_fault(shown, false, error),
        ),
    }
}

/// What follows attempt number `attempt` to open a database for reading, counted from 0.
pub fn open_sqlite_light(shown: &str, attempt: usize, outcome: &OpenOutcome) -> (r: OpenStep)
    ensures
        r.deep_view() == reading_step(shown@, attempt, outcome.deep_view()),
{
    match outcome {
        OpenOutcome::Opened => OpenStep::Ready,
        OpenOutcome::Busy(error) => {
            if attempt < LIGHT_SQLITE_BUSY_RETRIES - 1 {
                OpenStep::Retry(LIGHT_SQLITE_BUSY_SLEEP_MS)
            } else {
                OpenStep::Refuse(format_sqlite_open_error(shown, true, error.as_str()))
            }
        },
        OpenOutcome::Failed(error) => OpenStep::Refuse(
            format_sqlite_open_error(shown, false, error.as_str()),
        ),
    }
}

/// Why a copy of a database and its logs cannot be used: the marks are those of the files before
/// and after they were copied, the database first.
pub open spec fn copy_fault(
    shown: Seq<char>,
    before: Seq<Option<FileMarkView>>,
    after: Seq<Option<FileMarkView>>,
) -> Option<Seq<char>> {
    if before.len() == 0 || before[0] is None {
        Some("SQLite file not found: "@ + shown)
    } else if before != after {
        Some("SQLite changed while snapshotting: "@ + shown)
    } else {
        None
    }
}

/// Why a copy of a database and its logs cannot be used, if it cannot.
pub fn check_copy(
    shown: &str,
    before: &Vec<Option<FileMark>>,
    after: &Vec<Option<FileMark>>,
) -> (r: Option<String>)
    ensures
        r.deep_view() == copy_fault(shown@, before.deep_view(), after.deep_view()),
{
    if before.len() == 0 {
        return Some(join2("SQLite file not found: ", shown));
    }
    assert(before.deep_view()[0] == before@[0].deep_view());
    if before[0].is_none() {
        return Some(join2("SQLite file not found: ", shown));
    }
    if !before.same_as(after) {
        return Some(join2("SQLite changed while snapshotting: ", shown));
    }
    None
}

/// What follows attempt number `attempt` to copy a database.
pub open spec fn copying_step(attempt: usize, failure: Option<Seq<char>>) -> OpenStepView {
    match failure {
        None => OpenStepView::Ready,
        Some(error) => if attempt + 1 < SNAPSHOT_ATTEMPTS {
            OpenStepView::Retry(0)
        } else {
            OpenStepView::Refuse(error)
        },
    }
}

/// What follows attempt number `attempt` to copy a database, counted from 0: the last failure is
/// told.
pub fn open_sqlite_safe_snapshot(attempt: usize, failure: &Option<String>) -> (r: OpenStep)
    ensures
        r.deep_view() == copying_step(attempt, failure.deep_view()),
{
    match failure {
        None => OpenStep::Ready,
        Some(error) => {
            if attempt < SNAPSHOT_ATTEMPTS - 1 {
                OpenStep::Retry(0)
            } else {
                OpenStep::Refuse(error.copy_of())
            }
        },
    }
}

/// Whether a forgotten copy is removed, given its age in seconds.
pub fn copy_is_stale(age: &Option<u64>) -> (r: bool)
    ensures
        r == (age is Some && age->0 > SNAPSHOT_STALE_SECONDS),
{
    match age {
        Some(age) => *age > SNAPSHOT_STALE_SECONDS,
        None => false,
    }
}

/// What follows attempt number `attempt` to begin the write transaction.
pub open spec fn fence_step(attempt: usize, outcome: OpenOutcomeView) -> OpenStepView {
    match outcome {
        OpenOutcomeView::Opened => OpenStepView::Ready,
        OpenOutcomeView::Busy(error) => if attempt + 1 < WRITE_FENCE_ATTEMPTS {
            OpenStepView::Retry(WRITE_FENCE_SLEEP_MS)
        } else {
            OpenStepView::Refuse(
                schema::write_conflict(
                    "cannot start the online repair transaction after retrying"@,
                    error,
                ),
            )
        },
        OpenOutcomeView::Failed(error) => OpenStepView::Refuse(
            "cannot start the online repair transaction: "@ + error,
        ),
    }
}

/// What follows attempt number `attempt` to begin the write transaction, counted from 0.
pub fn acquire_dual_sqlite_write_fence(attempt: usize, outcome: &OpenOutcome) -> (r: OpenStep)
    ensures
        r.deep_view() == fence_step(attempt, outcome.deep_view()),
{
    match outcome {
        OpenOutcome::Opened => OpenStep::Ready,
        OpenOutcome::Busy(error) => {
            if attempt < WRITE_FENCE_ATTEMPTS - 1 {
                OpenStep::Retry(WRITE_FENCE_SLEEP_MS)
            } else {
                OpenStep::Refuse(
                    sqlite_write_conflict(
                        "cannot start the online repair transaction after retrying",
                        error.as_str(),
                    ),
                )
            }
        },
        OpenOutcome::Failed(error) => OpenStep::Refuse(
            join2("cannot start the online repair transaction: ", error.as_str()),
        ),
    }
}

/// Why the global state cannot be used.
pub open spec fn global_file_fault(
    shown: Seq<char>,
    found: DatabaseFoundView,
    inside: bool,
) -> Option<Seq<char>> {
    match found {
        DatabaseFoundView::Unavailable(error) => Some(
            "global state is unavailable ("@ + shown + "): "@ + error,
        ),
        DatabaseFoundView::Symlink | DatabaseFoundView::NotRegular => Some(
            "global state is not a regular file: "@ + shown,
        ),
        DatabaseFoundView::Regular => if inside {
            None
        } else {
            Some("global state escapes CODEX_HOME: "@ + shown)
        },
    }
}

/// Why the global state cannot be used, if it cannot: it is a regular file, and lies inside.
pub fn check_global_file(shown: &str, found: &DatabaseFound, inside: bool) -> (r: Option<String>)
    ensures
        r.deep_view() == global_file_fault(shown@, found.deep_view(), inside),
{
    match found {
        DatabaseFound::Unavailable(error) => Some(
            join4("global state is unavailable (", shown, "): ", error.as_str()),
        ),
        DatabaseFound::Symlink | DatabaseFound::NotRegular => Some(
            join2("global state is not a regular file: ", shown),
        ),
        DatabaseFound::Regular => {
            if inside {
                None
            } else {
                Some(join2("global state escapes CODEX_HOME: ", shown))
            }
        },
    }
}

/// Why a global state with a digest cannot be used for a plan that was made for another digest.
pub open spec fn global_digest_fault(
    digest: Seq<char>,
    invalid: Option<Seq<char>>,
    expected: Option<Seq<char>>,
) -> Option<Seq<char>> {
    if invalid is Some {
        Some("invalid global state JSON: "@ + invalid->0)
    } else if expected is Some && expected->0 != digest {
        Some("global state changed after planning; refresh the preview"@)
    } else {
        None
    }
}

/// Why a global state with a digest cannot be used for a plan that was made for another digest.
pub fn check_global_digest(
    digest: &str,
    invalid: &Option<String>,
    expected: &Option<String>,
) -> (r: Option<String>)
    ensures
        r.deep_view() == global_digest_fault(digest@, invalid.deep_view(), expected.deep_view()),
{
    if let Some(error) = invalid {
        return Some(join2("invalid global state JSON: ", error.as_str()));
    }
    if let Some(expected) = expected {
        if !same(digest, expected.as_str()) {
            return Some("global state changed after planning; refresh the preview".to_owned());
        }
    }
    None
}

/// Why the bytes of a global state cannot be used, if they cannot: they are no JSON, or not those
/// that a plan was made for.
pub fn acquire_global_state(bytes: &[u8], expected_sha256: &Option<String>) -> (r: Option<String>)
    ensures
        r.deep_view() == global_digest_fault(
            digest::sha256_hex(bytes@),
            json::json_error_text(bytes@),
            expected_sha256.deep_view(),
        ),
        r is None ==> json::json_parse_bytes(bytes@) is Some,
{
    check_global_digest(hash_bytes(bytes).as_str(), &json_error(bytes), expected_sha256)
}

/// A message that ends with why something is no JSON, if it is none.
pub open spec fn invalid_json(message: Seq<char>, error: Option<Seq<char>>) -> Option<Seq<char>> {
    match error {
        Some(error) => Some(message + error),
        None => None,
    }
}

fn check_json(message: &str, bytes: &[u8]) -> (r: Option<String>)
    ensures
        r.deep_view() == invalid_json(message@, json::json_error_text(bytes@)),
{
    match json_error(bytes) {
        Some(error) => Some(join2(message, error.as_str())),
        None => None,
    }
}

/// Why bytes may not be written as the global state, if they may not.
pub fn check_global_overwrite(bytes: &[u8]) -> (r: Option<String>)
    ensures
        r.deep_view() == invalid_json(
            "refusing to write invalid global state JSON: "@,
            json::json_error_text(bytes@),
        ),
{
    check_json("refusing to write invalid global state JSON: ", bytes)
}

/// Why the copy of a global state in a backup is of no use, if it is of none.
pub fn check_global_copy(bytes: &[u8]) -> (r: Option<String>)
    ensures
        r.deep_view() == invalid_json(
            "invalid global state backup: "@,
            json::json_error_text(bytes@),
        ),
{
    check_json("invalid global state backup: ", bytes)
}

/// Why the write of a global state failed, if it did: what is read back has another digest.
pub fn check_global_write(written: &[u8], found: &[u8]) -> (r: Option<String>)
    ensures
        r.deep_view() == (if digest::sha256_hex(found@) == digest::sha256_hex(written@) {
            None
        } else {
            Some("global state write verification failed"@)
        }),
{
    if same(hash_bytes(found).as_str(), hash_bytes(written).as_str()) {
        None
    } else {
        Some("global state write verification failed".to_owned())
    }
}

/// What becomes of the store of projections when a backup is restored, or why it cannot be.
pub open spec fn projection_restore(
    present: bool,
    exists_now: bool,
    shown: Seq<char>,
    source: DatabaseFoundView,
    expected: Option<Seq<char>>,
    actual: Option<Seq<char>>,
) -> Result<ProjectionRestore, Seq<char>> {
    if !present {
        Ok(
            if exists_now {
                ProjectionRestore::Remove
            } else {
                ProjectionRestore::Nothing
            },
        )
    } else {
        match source {
            DatabaseFoundView::Unavailable(error) => Err(error),
            DatabaseFoundView::Symlink | DatabaseFoundView::NotRegular => Err(
                "unsafe projection state backup: "@ + shown,
            ),
            DatabaseFoundView::Regular => if expected is None {
                Err("projection state checksum is missing"@)
            } else if actual is None {
                Err("cannot hash projection state backup"@)
            } else if expected != actual {
                Err("projection state checksum mismatch"@)
            } else {
                Ok(ProjectionRestore::Save)
            },
        }
    }
}

/// What becomes of the store of projections when a backup is restored, or why it cannot be: without
/// one in the backup, none stays; else the one in the backup must be what the manifest says.
pub fn restore_projection_state(
    present: bool,
    exists_now: bool,
    shown: &str,
    source: &DatabaseFound,
    expected: &Option<String>,
    actual: &Option<String>,
) -> (r: Result<ProjectionRestore, String>)
    ensures
        model::outcome(r) == projection_restore(
            present,
            exists_now,
            shown@,
            source.deep_view(),
            expected.deep_view(),
            actual.deep_view(),
        ),
{
    if !present {
        return if exists_now {
            Ok(ProjectionRestore::Remove)
        } else {
            Ok(ProjectionRestore::Nothing)
        };
    }
    match source {
        DatabaseFound::Unavailable(error) => Err(error.copy_of()),
        DatabaseFound::Symlink | DatabaseFound::NotRegular => Err(
            join2("unsafe projection state backup: ", shown),
        ),
        DatabaseFound::Regular => match (expected, actual) {
            (None, _) => Err("projection state checksum is missing".to_owned()),
            (_, None) => Err("cannot hash projection state backup".to_owned()),
            (Some(expected), Some(actual)) => {
                if same(expected.as_str(), actual.as_str()) {
                    Ok(ProjectionRestore::Save)
                } else {
                    Err("projection state checksum mismatch".to_owned())
                }
            },
        },
    }
}

/// Attempts end: from some attempt on, none is followed by another.
pub proof fn law_attempts_end(
    shown: Seq<char>,
    attempt: usize,
    outcome: OpenOutcomeView,
    failure: Option<Seq<char>>,
)
    requires
        attempt >= LIGHT_SQLITE_BUSY_RETRIES,
    ensures
        !(reading_step(shown, attempt, outcome) is Retry),
        !(fence_step(attempt, outcome) is Retry),
        !(copying_step(attempt, failure) is Retry),
{
}

/// A copy is used only where the database did not change while it was made.
pub proof fn law_used_copy_is_whole(
    shown: Seq<char>,
    before: Seq<Option<FileMarkView>>,
    after: Seq<Option<FileMarkView>>,
)
    requires
        copy_fault(shown, before, after) is None,
    ensures
        before == after,
        before.len() > 0 && before[0] is Some,
{
}

/// A store of projections is taken from a backup only where it has the digest that the manifest
/// says.
pub proof fn law_restored_store_matches(
    present: bool,
    exists_now: bool,
    shown: Seq<char>,
    source: DatabaseFoundView,
    expected: Option<Seq<char>>,
    actual: Option<Seq<char>>,
)
    requires
        projection_restore(present, exists_now, shown, source, expected, actual) == Ok::<
            ProjectionRestore,
            Seq<char>,
        >(ProjectionRestore::Save),
    ensures
        present,
        source is Regular,
        expected is Some && expected == actual,
{
}

/// A database that opened is used at once; one that failed is not tried again; one that is busy is
/// tried again while attempts are left, and refused at the last.
pub proof fn law_only_busy_databases_are_tried_again(
    shown: Seq<char>,
    attempt: usize,
    error: Seq<char>,
)
    ensures
        reading_step(shown, attempt, OpenOutcomeView::Opened) is Ready,
        fence_step(attempt, OpenOutcomeView::Opened) is Ready,
        copying_step(attempt, None) is Ready,
        reading_step(shown, attempt, OpenOutcomeView::Failed(error)) is Refuse,
        fence_step(attempt, OpenOutcomeView::Failed(error)) is Refuse,
        reading_step(shown, attempt, OpenOutcomeView::Busy(error)) is Retry <==> attempt + 1
            < LIGHT_SQLITE_BUSY_RETRIES,
        fence_step(attempt, OpenOutcomeView::Busy(error)) is Retry <==> attempt + 1
            < WRITE_FENCE_ATTEMPTS,
        copying_step(attempt, Some(error)) is Retry <==> attempt + 1 < SNAPSHOT_ATTEMPTS,
        !(reading_step(shown, attempt, OpenOutcomeView::Busy(error)) is Ready),
        !(fence_step(attempt, OpenOutcomeView::Busy(error)) is Ready),
        !(copying_step(attempt, Some(error)) is Ready),
{
}

/// A copy is used exactly where the database was there and nothing changed while it was made; the
/// global state exactly where it is a regular file inside the home, is JSON, and is what the plan
/// was made for.
pub proof fn law_used_files_are_sound(
    shown: Seq<char>,
    before: Seq<Option<FileMarkView>>,
    after: Seq<Option<FileMarkView>>,
    found: DatabaseFoundView,
    inside: bool,
    digest: Seq<char>,
    invalid: Option<Seq<char>>,
    expected: Option<Seq<char>>,
)
    ensures
        copy_fault(shown, before, after) is None <==> before.len() > 0 && before[0] is Some && before
            == after,
        global_file_fault(shown, found, inside) is None <==> found is Regular && inside,
        global_digest_fault(digest, invalid, expected) is None <==> invalid is None && (expected is None
            || expected == Some(digest)),
{
}

/// A store of projections that a backup has is put back where its digest is right, and refused
/// otherwise; one that the backup does not have goes.
pub proof fn law_store_follows_the_backup(
    present: bool,
    exists_now: bool,
    shown: Seq<char>,
    source: DatabaseFoundView,
    expected: Option<Seq<char>>,
    actual: Option<Seq<char>>,
)
    ensures
        ({
            let outcome = projection_restore(present, exists_now, shown, source, expected, actual);
            &&& outcome == Ok::<ProjectionRestore, Seq<char>>(ProjectionRestore::Save) <==> present
                && source is Regular && expected is Some && expected == actual
            &&& outcome == Ok::<ProjectionRestore, Seq<char>>(ProjectionRestore::Remove)
                <==> !present && exists_now
            &&& outcome == Ok::<ProjectionRestore, Seq<char>>(ProjectionRestore::Nothing)
                <==> !present && !exists_now
            &&& outcome is Err <==> present && !(source is Regular && expected is Some && expected
                == actual)
        }),
{
}

/// A database that is busy to the last is refused as busy, one that failed with its own words; a copy
/// with the error of its last attempt; and waiting between attempts takes what it should.
pub proof fn law_refusals_say_why(shown: Seq<char>, attempt: usize, error: Seq<char>)
    ensures
        reading_step(shown, attempt, OpenOutcomeView::Failed(error)) == OpenStepView::Refuse(
            shown + ": "@ + error,
        ),
        attempt + 1 >= 8 ==> reading_step(shown, attempt, OpenOutcomeView::Busy(error))
            == OpenStepView::Refuse(
            "database is busy while opening "@ + shown + " ("@ + error + ")"@,
        ),
        attempt + 1 < 8 ==> reading_step(shown, attempt, OpenOutcomeView::Busy(error))
            == OpenStepView::Retry(25),
        attempt + 1 < 2 ==> fence_step(attempt, OpenOutcomeView::Busy(error))
            == OpenStepView::Retry(125),
        attempt + 1 >= 4 ==> copying_step(attempt, Some(error)) == OpenStepView::Refuse(error),
        attempt + 1 < 4 ==> copying_step(attempt, Some(error)) == OpenStepView::Retry(0),
        fence_step(attempt, OpenOutcomeView::Failed(error)) == OpenStepView::Refuse(
            "cannot start the online repair transaction: "@ + error,
        ),
        attempt + 1 >= 2 ==> fence_step(attempt, OpenOutcomeView::Busy(error)) is Refuse,
        invalid_json(shown, None) is None,
        invalid_json(shown, Some(error)) == Some(shown + error),
{
}

} // verus!

//! Checking backups before they are listed, kept, restored or removed.

use crate::access;
use crate::access::check_global_copy;
use crate::backups;
use crate::backups::{
    is_managed_backup_name, BackupDirectoryView, BackupManifest, BackupManifestView, BackupOrder,
    BackupOrderView, ManifestFile, ManifestFileView,
};
use crate::json;
use crate::model;
use crate::model::Model;
use crate::ordered;
use crate::ordered::{sort_pairs, OrderedSet};
use crate::retention;
use crate::schema;
use crate::schema::{sqlite_quick_check, validate_catalog_columns, validate_state_columns};
use crate::text;
use crate::text::{decimal, ends_with, join2, join4, same};
use vstd::prelude::*;

verus! {

/// What was read of a file of a backup.
#[derive(Debug, PartialEq, Eq)]
pub enum FileContents {
    /// It was not opened.
    Unread,
    /// Why it cannot be used.
    Fault(String),
    /// The bytes of a JSON file.
    Bytes(Vec<u8>),
    /// A database that opens: what it answered when it was asked to check itself, empty where it
    /// was not asked, and the columns of its table of sessions.
    Database { check: String, columns: OrderedSet<String> },
}

/// What a `FileContents` stands for.
#[verifier::ext_equal]
pub enum FileContentsView {
    Unread,
    Fault(Seq<char>),
    Bytes(Seq<u8>),
    Database { check: Seq<char>, columns: Set<Seq<char>> },
}

impl DeepView for FileContents {
    type V = FileContentsView;

    open spec fn deep_view(&self) -> FileContentsView {
        match self {
            FileContents::Unread => FileContentsView::Unread,
            FileContents::Fault(value) => FileContentsView::Fault(value.deep_view()),
            FileContents::Bytes(value) => FileContentsView::Bytes(value.deep_view()),
            FileContents::Database { check, columns } => FileContentsView::Database {
                check: check.deep_view(),
                columns: columns.deep_view(),
            },
        }
    }
}

impl Model for FileContents {
    fn copy_of(&self) -> (r: Self) {
        match self {
            FileContents::Unread => FileContents::Unread,
            FileContents::Fault(value) => FileContents::Fault(value.copy_of()),
            FileContents::Bytes(value) => FileContents::Bytes(value.copy_of()),
            FileContents::Database { check, columns } => FileContents::Database {
                check: check.copy_of(),
                columns: columns.copy_of(),
            },
        }
    }

    fn same_as(&self, other: &Self) -> (r: bool) {
        match (self, other) {
            (FileContents::Unread, FileContents::Unread) => true,
            (FileContents::Fault(l), FileContents::Fault(r)) => l.same_as(r),
            (FileContents::Bytes(l), FileContents::Bytes(r)) => l.same_as(r),
            (
                FileContents::Database { check: check_l, columns: columns_l },
                FileContents::Database { check: check_r, columns: columns_r },
            ) => check_l.same_as(check_r) && columns_l.same_as(columns_r),
            _ => false,
        }
    }
}

/// What was found of a file of a backup.
#[derive(Debug, PartialEq, Eq)]
pub struct CheckedFile {
    /// Why nothing was found out.
    pub missing: Option<String>,
    pub is_file: bool,
    pub size: u64,
    pub sha256: Option<String>,
    pub contents: FileContents,
}

/// What a `CheckedFile` stands for.
#[verifier::ext_equal]
pub struct CheckedFileView {
    pub missing: Option<Seq<char>>,
    pub is_file: bool,
    pub size: u64,
    pub sha256: Option<Seq<char>>,
    pub contents: FileContentsView,
}

impl DeepView for CheckedFile {
    type V = CheckedFileView;

    open spec fn deep_view(&self) -> CheckedFileView {
        CheckedFileView {
            missing: self.missing.deep_view(),
            is_file: self.is_file.deep_view(),
            size: self.size.deep_view(),
            sha256: self.sha256.deep_view(),
            contents: self.contents.deep_view(),
        }
    }
}

impl Model for CheckedFile {
    fn copy_of(&self) -> (r: Self) {
        CheckedFile {
            missing: self.missing.copy_of(),
            is_file: self.is_file.copy_of(),
            size: self.size.copy_of(),
            sha256: self.sha256.copy_of(),
            contents: self.contents.copy_of(),
        }
    }

    fn same_as(&self, other: &Self) -> (r: bool) {
        self.missing.same_as(&other.missing)
            && self.is_file.same_as(&other.is_file)
            && self.size.same_as(&other.size)
            && self.sha256.same_as(&other.sha256)
            && self.contents.same_as(&other.contents)
    }
}

/// The columns of the tables of a catalog.
#[derive(Debug, PartialEq, Eq)]
pub struct CatalogTables {
    pub catalog: OrderedSet<String>,
    pub sync: OrderedSet<String>,
    pub metadata: OrderedSet<String>,
}

/// The columns of the tables of the databases of a backup, or why they could not be read.
#[derive(Debug, PartialEq, Eq)]
pub struct BackupTables {
    pub state: Result<OrderedSet<String>, String>,
    /// Read where the backup holds the catalog too.
    pub catalog: Result<CatalogTables, String>,
}

/// What is wrong with the tables of a backup. A backup of the session database alone needs no
/// catalog.
pub open spec fn tables_fault(version: u32, tables: BackupTables) -> Option<Seq<char>> {
    match tables.state {
        Err(error) => Some(error@),
        Ok(state) => if version == 6 {
            schema::state_columns_fault(state.deep_view())
        } else {
            match tables.catalog {
                Err(error) => Some(error@),
                Ok(found) => match schema::state_columns_fault(state.deep_view()) {
                    Some(fault) => Some(fault),
                    None => schema::catalog_columns_fault(
                        found.catalog.deep_view(),
                        found.sync.deep_view(),
                        found.metadata.deep_view(),
                    ),
                },
            }
        },
    }
}

fn find_tables_fault(version: u32, tables: &BackupTables) -> (r: Option<String>)
    ensures
        r.deep_view() == tables_fault(version, *tables),
{
    match &tables.state {
        Err(error) => Some(error.copy_of()),
        Ok(state) => {
            if version == 6 {
                return validate_state_columns(state);
            }
            match &tables.catalog {
                Err(error) => Some(error.copy_of()),
                Ok(found) => {
                    let fault = validate_state_columns(state);
                    if fault.is_some() {
                        return fault;
                    }
                    validate_catalog_columns(&found.catalog, &found.sync, &found.metadata)
                },
            }
        },
    }
}

/// What a file of a backup is opened as.
#[derive(Clone, Copy, Debug, PartialEq, Eq, Structural)]
pub enum FileCheck {
    /// A database, with the tables of sessions.
    StateDatabase,
    /// A database.
    Database,
    /// A JSON file.
    GlobalState,
    /// It is not opened.
    Unopened,
}

impl DeepView for FileCheck {
    type V = FileCheck;

    open spec fn deep_view(&self) -> FileCheck {
        *self
    }
}

impl Model for FileCheck {
    fn copy_of(&self) -> (r: Self) {
        *self
    }

    fn same_as(&self, other: &Self) -> (r: bool) {
        *self == *other
    }
}

/// What stands where a directory of backups should be.
#[derive(Clone, Debug, PartialEq, Eq)]
pub enum RootFound {
    Symlink,
    NotDirectory,
    Directory,
    /// Nothing: what the system said.
    Missing(String),
    /// It cannot be told: why.
    Unavailable(String),
}

/// What a `RootFound` stands for.
#[verifier::ext_equal]
pub enum RootFoundView {
    Symlink,
    NotDirectory,
    Directory,
    Missing(Seq<char>),
    Unavailable(Seq<char>),
}

impl DeepView for RootFound {
    type V = RootFoundView;

    open spec fn deep_view(&self) -> RootFoundView {
        match self {
            RootFound::Symlink => RootFoundView::Symlink,
            RootFound::NotDirectory => RootFoundView::NotDirectory,
            RootFound::Directory => RootFoundView::Directory,
            RootFound::Missing(value) => RootFoundView::Missing(value.deep_view()),
            RootFound::Unavailable(value) => RootFoundView::Unavailable(value.deep_view()),
        }
    }
}

impl Model for RootFound {
    fn copy_of(&self) -> (r: Self) {
        match self {
            RootFound::Symlink => RootFound::Symlink,
            RootFound::NotDirectory => RootFound::NotDirectory,
            RootFound::Directory => RootFound::Directory,
            RootFound::Missing(value) => RootFound::Missing(value.copy_of()),
            RootFound::Unavailable(value) => RootFound::Unavailable(value.copy_of()),
        }
    }

    fn same_as(&self, other: &Self) -> (r: bool) {
        match (self, other) {
            (RootFound::Symlink, RootFound::Symlink) => true,
            (RootFound::NotDirectory, RootFound::NotDirectory) => true,
            (RootFound::Directory, RootFound::Directory) => true,
            (RootFound::Missing(value_l), RootFound::Missing(value_r)) => value_l.same_as(value_r),
            (RootFound::Unavailable(value_l), RootFound::Unavailable(value_r)) => value_l.same_as(value_r),
            _ => false,
        }
    }
}

/// What is done about a directory of backups.
#[derive(Clone, Copy, Debug, PartialEq, Eq, Structural)]
pub enum RootStep {
    UseIt,
    Create,
}

impl DeepView for RootStep {
    type V = RootStep;

    open spec fn deep_view(&self) -> RootStep {
        *self
    }
}

impl Model for RootStep {
    fn copy_of(&self) -> (r: Self) {
        *self
    }

    fn same_as(&self, other: &Self) -> (r: bool) {
        *self == *other
    }
}

/// What was found of a directory that may be a backup.
#[derive(Clone, Debug, PartialEq, Eq)]
pub enum ChildFound {
    /// It cannot be told: why.
    Unavailable(String),
    /// No directory, or a link.
    NotDirectory,
    /// A directory: whether it lies right below the backups, and its name.
    Directory { below_root: bool, name: Option<String> },
}

/// What a `ChildFound` stands for.
#[verifier::ext_equal]
pub enum ChildFoundView {
    Unavailable(Seq<char>),
    NotDirectory,
    Directory { below_root: bool, name: Option<Seq<char>> },
}

impl DeepView for ChildFound {
    type V = ChildFoundView;

    open spec fn deep_view(&self) -> ChildFoundView {
        match self {
            ChildFound::Unavailable(value) => ChildFoundView::Unavailable(value.deep_view()),
            ChildFound::NotDirectory => ChildFoundView::NotDirectory,
            ChildFound::Directory { below_root, name } => ChildFoundView::Directory {
                below_root: below_root.deep_view(),
                name: name.deep_view(),
            },
        }
    }
}

impl Model for ChildFound {
    fn copy_of(&self) -> (r: Self) {
        match self {
            ChildFound::Unavailable(value) => ChildFound::Unavailable(value.copy_of()),
            ChildFound::NotDirectory => ChildFound::NotDirectory,
            ChildFound::Directory { below_root, name } => ChildFound::Directory {
                below_root: below_root.copy_of(),
                name: name.copy_of(),
            },
        }
    }

    fn same_as(&self, other: &Self) -> (r: bool) {
        match (self, other) {
            (ChildFound::Unavailable(value_l), ChildFound::Unavailable(value_r)) => value_l.same_as(value_r),
            (ChildFound::NotDirectory, ChildFound::NotDirectory) => true,
            (
                ChildFound::Directory { below_root: below_root_l, name: name_l },
                ChildFound::Directory { below_root: below_root_r, name: name_r },
            ) => below_root_l.same_as(below_root_r) && name_l.same_as(name_r),
            _ => false,
        }
    }
}

/// What a walk through a directory met.
#[derive(Clone, Debug, PartialEq, Eq)]
pub enum TreeItem {
    /// The walk failed: why.
    Failed(String),
    /// A link, with its path.
    Symlink(String),
    /// A file, with its size.
    File(u64),
    /// A file whose size is unknown: why.
    Unsized(String),
    Other,
}

/// What a `TreeItem` stands for.
#[verifier::ext_equal]
pub enum TreeItemView {
    Failed(Seq<char>),
    Symlink(Seq<char>),
    File(u64),
    Unsized(Seq<char>),
    Other,
}

impl DeepView for TreeItem {
    type V = TreeItemView;

    open spec fn deep_view(&self) -> TreeItemView {
        match self {
            TreeItem::Failed(value) => TreeItemView::Failed(value.deep_view()),
            TreeItem::Symlink(value) => TreeItemView::Symlink(value.deep_view()),
            TreeItem::File(value) => TreeItemView::File(value.deep_view()),
            TreeItem::Unsized(value) => TreeItemView::Unsized(value.deep_view()),
            TreeItem::Other => TreeItemView::Other,
        }
    }
}

impl Model for TreeItem {
    fn copy_of(&self) -> (r: Self) {
        match self {
            TreeItem::Failed(value) => TreeItem::Failed(value.copy_of()),
            TreeItem::Symlink(value) => TreeItem::Symlink(value.copy_of()),
            TreeItem::File(value) => TreeItem::File(value.copy_of()),
            TreeItem::Unsized(value) => TreeItem::Unsized(value.copy_of()),
            TreeItem::Other => TreeItem::Other,
        }
    }

    fn same_as(&self, other: &Self) -> (r: bool) {
        match (self, other) {
            (TreeItem::Failed(value_l), TreeItem::Failed(value_r)) => value_l.same_as(value_r),
            (TreeItem::Symlink(value_l), TreeItem::Symlink(value_r)) => value_l.same_as(value_r),
            (TreeItem::File(value_l), TreeItem::File(value_r)) => value_l.same_as(value_r),
            (TreeItem::Unsized(value_l), TreeItem::Unsized(value_r)) => value_l.same_as(value_r),
            (TreeItem::Other, TreeItem::Other) => true,
            _ => false,
        }
    }
}

/// A directory that may be the latest backup.
#[derive(Clone, Debug, PartialEq, Eq)]
pub struct BackupCandidate {
    pub name: String,
    pub path: String,
    pub restorable: bool,
}

/// What a `BackupCandidate` stands for.
#[verifier::ext_equal]
pub struct BackupCandidateView {
    pub name: Seq<char>,
    pub path: Seq<char>,
    pub restorable: bool,
}

impl DeepView for BackupCandidate {
    type V = BackupCandidateView;

    open spec fn deep_view(&self) -> BackupCandidateView {
        BackupCandidateView {
            name: self.name.deep_view(),
            path: self.path.deep_view(),
            restorable: self.restorable.deep_view(),
        }
    }
}

impl Model for BackupCandidate {
    fn copy_of(&self) -> (r: Self) {
        BackupCandidate {
            name: self.name.copy_of(),
            path: self.path.copy_of(),
            restorable: self.restorable.copy_of(),
        }
    }

    fn same_as(&self, other: &Self) -> (r: bool) {
        self.name.same_as(&other.name)
            && self.path.same_as(&other.path)
            && self.restorable.same_as(&other.restorable)
    }
}

/// A backup that was chosen.
#[derive(Clone, Debug, PartialEq, Eq)]
pub struct BackupChoice {
    pub path: String,
    /// The path is below the home.
    pub below_home: bool,
}

/// What a `BackupChoice` stands for.
#[verifier::ext_equal]
pub struct BackupChoiceView {
    pub path: Seq<char>,
    pub below_home: bool,
}

impl DeepView for BackupChoice {
    type V = BackupChoiceView;

    open spec fn deep_view(&self) -> BackupChoiceView {
        BackupChoiceView {
            path: self.path.deep_view(),
            below_home: self.below_home.deep_view(),
        }
    }
}

impl Model for BackupChoice {
    fn copy_of(&self) -> (r: Self) {
        BackupChoice {
            path: self.path.copy_of(),
            below_home: self.below_home.copy_of(),
        }
    }

    fn same_as(&self, other: &Self) -> (r: bool) {
        self.path.same_as(&other.path)
            && self.below_home.same_as(&other.below_home)
    }
}

/// What stands where a restore writes.
#[derive(Clone, Debug, PartialEq, Eq)]
pub enum TargetFound {
    Symlink,
    File,
    Other,
    Missing,
    /// It cannot be told: why.
    Unavailable(String),
}

/// What a `TargetFound` stands for.
#[verifier::ext_equal]
pub enum TargetFoundView {
    Symlink,
    File,
    Other,
    Missing,
    Unavailable(Seq<char>),
}

impl DeepView for TargetFound {
    type V = TargetFoundView;

    open spec fn deep_view(&self) -> TargetFoundView {
        match self {
            TargetFound::Symlink => TargetFoundView::Symlink,
            TargetFound::File => TargetFoundView::File,
            TargetFound::Other => TargetFoundView::Other,
            TargetFound::Missing => TargetFoundView::Missing,
            TargetFound::Unavailable(value) => TargetFoundView::Unavailable(value.deep_view()),
        }
    }
}

impl Model for TargetFound {
    fn copy_of(&self) -> (r: Self) {
        match self {
            TargetFound::Symlink => TargetFound::Symlink,
            TargetFound::File => TargetFound::File,
            TargetFound::Other => TargetFound::Other,
            TargetFound::Missing => TargetFound::Missing,
            TargetFound::Unavailable(value) => TargetFound::Unavailable(value.copy_of()),
        }
    }

    fn same_as(&self, other: &Self) -> (r: bool) {
        match (self, other) {
            (TargetFound::Symlink, TargetFound::Symlink) => true,
            (TargetFound::File, TargetFound::File) => true,
            (TargetFound::Other, TargetFound::Other) => true,
            (TargetFound::Missing, TargetFound::Missing) => true,
            (TargetFound::Unavailable(value_l), TargetFound::Unavailable(value_r)) => value_l.same_as(value_r),
            _ => false,
        }
    }
}

/// What a file of a backup is opened as, by its path.
pub open spec fn file_check(path: Seq<char>) -> FileCheck {
    if text::has_suffix(path, ".sqlite"@) {
        if text::has_suffix(path, "state_5.sqlite"@) {
            FileCheck::StateDatabase
        } else {
            FileCheck::Database
        }
    } else if path == ".codex-global-state.json"@ {
        FileCheck::GlobalState
    } else {
        FileCheck::Unopened
    }
}

/// What a file of a backup is opened as, by its path.
pub fn check_for_file(path: &str) -> (r: FileCheck)
    ensures
        r == file_check(path@),
{
    if ends_with(path, ".sqlite") {
        if ends_with(path, "state_5.sqlite") {
            FileCheck::StateDatabase
        } else {
            FileCheck::Database
        }
    } else if same(path, ".codex-global-state.json") {
        FileCheck::GlobalState
    } else {
        FileCheck::Unopened
    }
}

/// The name of the copy of a file in a backup.
pub open spec fn copy_name(path: Seq<char>) -> Seq<char> {
    text::replaced(path, '/', '_')
}

/// The name of the copy of a file in a backup.
pub fn backup_copy_name(path: &str) -> (r: String)
    ensures
        r@ == copy_name(path@),
{
    text::replace_char(path, '/', '_')
}

/// What is wrong with the contents of a file. On the surface the session database is looked at for
/// its columns; only a thorough look minds what a database answers when it is to check itself.
pub open spec fn contents_fault(
    check: FileCheck,
    contents: FileContentsView,
    thorough: bool,
) -> Option<Seq<char>> {
    match contents {
        FileContentsView::Unread => None,
        FileContentsView::Fault(error) => Some(error),
        FileContentsView::Bytes(bytes) => if check == FileCheck::GlobalState {
            access::invalid_json("invalid global state backup: "@, json::json_error_text(bytes))
        } else {
            None
        },
        FileContentsView::Database { check: answer, columns } => if thorough {
            schema::check_fault(answer)
        } else if check == FileCheck::StateDatabase {
            schema::state_columns_fault(columns)
        } else {
            None
        },
    }
}

fn find_contents_fault(path: &str, contents: &FileContents, thorough: bool) -> (r: Option<String>)
    ensures
        r.deep_view() == contents_fault(file_check(path@), contents.deep_view(), thorough),
{
    let check = check_for_file(path);
    match contents {
        FileContents::Unread => None,
        FileContents::Fault(error) => Some(error.copy_of()),
        FileContents::Bytes(bytes) => {
            assert(bytes.deep_view() =~= bytes@);
            if check == FileCheck::GlobalState {
                check_global_copy(bytes.as_slice())
            } else {
                None
            }
        },
        FileContents::Database { check: answer, columns } => {
            if thorough {
                sqlite_quick_check(answer.as_str())
            } else if check == FileCheck::StateDatabase {
                validate_state_columns(columns)
            } else {
                None
            }
        },
    }
}

/// What is wrong with a file on the surface.
pub open spec fn surface_file_fault(
    file: ManifestFileView,
    found: CheckedFileView,
) -> Option<Seq<char>> {
    if !file.backed_up {
        None
    } else if found.missing is Some {
        Some("backup file missing ("@ + file.path + "): "@ + found.missing->0)
    } else if !found.is_file {
        Some("backup path is not a file: "@ + file.path)
    } else if found.size != file.size {
        Some(
            "backup size mismatch: "@ + file.path + " (expected "@ + text::decimal_text(
                file.size as nat,
            ) + ", got "@ + text::decimal_text(found.size as nat) + ")"@,
        )
    } else {
        contents_fault(file_check(file.path), found.contents, false)
    }
}

fn find_surface_file_fault(file: &ManifestFile, found: &CheckedFile) -> (r: Option<String>)
    ensures
        r.deep_view() == surface_file_fault(file.deep_view(), found.deep_view()),
{
    if !file.backed_up {
        return None;
    }
    match &found.missing {
        Some(error) => {
            return Some(
                join4("backup file missing (", file.path.as_str(), "): ", error.as_str()),
            );
        },
        None => {},
    }
    if !found.is_file {
        return Some(join2("backup path is not a file: ", file.path.as_str()));
    }
    if found.size != file.size {
        let expected = decimal(file.size);
        let got = decimal(found.size);
        let front = join4(
            "backup size mismatch: ",
            file.path.as_str(),
            " (expected ",
            expected.as_str(),
        );
        return Some(join4(front.as_str(), ", got ", got.as_str(), ")"));
    }
    find_contents_fault(file.path.as_str(), &found.contents, false)
}

/// What is wrong with the contents of a file.
pub open spec fn content_file_fault(
    file: ManifestFileView,
    found: CheckedFileView,
) -> Option<Seq<char>> {
    if !file.backed_up {
        None
    } else if file.sha256 is None {
        Some("backup checksum is missing: "@ + file.path)
    } else if found.sha256 != file.sha256 {
        Some("backup checksum mismatch: "@ + file.path)
    } else {
        contents_fault(file_check(file.path), found.contents, true)
    }
}

fn find_content_file_fault(file: &ManifestFile, found: &CheckedFile) -> (r: Option<String>)
    ensures
        r.deep_view() == content_file_fault(file.deep_view(), found.deep_view()),
{
    if !file.backed_up {
        return None;
    }
    if file.sha256.is_none() {
        return Some(join2("backup checksum is missing: ", file.path.as_str()));
    }
    if !found.sha256.same_as(&file.sha256) {
        return Some(join2("backup checksum mismatch: ", file.path.as_str()));
    }
    find_contents_fault(file.path.as_str(), &found.contents, true)
}

/// The first fault among the first `n` files.
pub open spec fn first_file_fault(
    files: Seq<ManifestFileView>,
    found: Seq<CheckedFileView>,
    thorough: bool,
    n: nat,
) -> Option<Seq<char>>
    decreases n,
{
    if n == 0 {
        None
    } else {
        match first_file_fault(files, found, thorough, (n - 1) as nat) {
            Some(fault) => Some(fault),
            None => if thorough {
                content_file_fault(files[n - 1], found[n - 1])
            } else {
                surface_file_fault(files[n - 1], found[n - 1])
            },
        }
    }
}

proof fn lemma_fault_stays(
    files: Seq<ManifestFileView>,
    found: Seq<CheckedFileView>,
    thorough: bool,
    n: nat,
    m: nat,
)
    requires
        n <= m,
        first_file_fault(files, found, thorough, n) is Some,
    ensures
        first_file_fault(files, found, thorough, m) == first_file_fault(files, found, thorough, n),
    decreases m,
{
    if n < m {
        lemma_fault_stays(files, found, thorough, n, (m - 1) as nat);
    }
}

fn find_first_file_fault(files: &Vec<ManifestFile>, found: &Vec<CheckedFile>, thorough: bool) -> (r:
    Option<String>)
    requires
        found@.len() == files@.len(),
    ensures
        r.deep_view() == first_file_fault(
            files.deep_view(),
            found.deep_view(),
            thorough,
            files@.len(),
        ),
{
    let ghost wanted = files.deep_view();
    let ghost seen = found.deep_view();
    let mut i: usize = 0;
    while i < files.len()
        invariant
            i <= files@.len() == found@.len(),
            wanted == files.deep_view(),
            seen == found.deep_view(),
            first_file_fault(wanted, seen, thorough, i as nat) is None,
        decreases files@.len() - i,
    {
        assert(wanted[i as int] == files@[i as int].deep_view());
        assert(seen[i as int] == found@[i as int].deep_view());
        let fault = if thorough {
            find_content_file_fault(&files[i], &found[i])
        } else {
            find_surface_file_fault(&files[i], &found[i])
        };
        if fault.is_some() {
            proof {
                lemma_fault_stays(wanted, seen, thorough, (i + 1) as nat, files@.len());
            }
            return fault;
        }
        i += 1;
    }
    None
}

/// Why a store of projections cannot be used, if it cannot.
pub open spec fn store_fault(contents: FileContentsView) -> Option<Seq<char>> {
    match contents {
        FileContentsView::Fault(error) => Some(error),
        _ => None,
    }
}

fn find_store_fault(contents: &FileContents) -> (r: Option<String>)
    ensures
        r.deep_view() == store_fault(contents.deep_view()),
{
    match contents {
        FileContents::Fault(error) => Some(error.copy_of()),
        _ => None,
    }
}

/// What is wrong with the copy of the store of projections.
pub open spec fn projection_fault(
    manifest: BackupManifestView,
    found: CheckedFileView,
    thorough: bool,
) -> Option<Seq<char>> {
    if !manifest.projection_state_present {
        None
    } else if thorough {
        if manifest.projection_state_sha256 is None {
            Some("projection state checksum is missing"@)
        } else if found.sha256 != manifest.projection_state_sha256 {
            Some("projection state checksum mismatch"@)
        } else {
            store_fault(found.contents)
        }
    } else {
        if found.missing is Some {
            Some("projection state backup missing: "@ + found.missing->0)
        } else if !found.is_file {
            Some("projection state backup is not a file"@)
        } else {
            store_fault(found.contents)
        }
    }
}

fn find_projection_fault(manifest: &BackupManifest, found: &CheckedFile, thorough: bool) -> (r:
    Option<String>)
    ensures
        r.deep_view() == projection_fault(manifest.deep_view(), found.deep_view(), thorough),
{
    if !manifest.projection_state_present {
        return None;
    }
    if thorough {
        if manifest.projection_state_sha256.is_none() {
            return Some("projection state checksum is missing".to_owned());
        }
        if !found.sha256.same_as(&manifest.projection_state_sha256) {
            return Some("projection state checksum mismatch".to_owned());
        }
        find_store_fault(&found.contents)
    } else {
        match &found.missing {
            Some(error) => {
                return Some(join2("projection state backup missing: ", error.as_str()));
            },
            None => {},
        }
        if !found.is_file {
            return Some("projection state backup is not a file".to_owned());
        }
        find_store_fault(&found.contents)
    }
}

/// What is wrong with a backup: its version, what it lacks, a file, its tables, and, where it is
/// checked thoroughly, the rollouts that it would put back.
pub open spec fn backup_fault(
    manifest: BackupManifestView,
    complete: bool,
    files: Seq<CheckedFileView>,
    projection: CheckedFileView,
    schema: Option<Seq<char>>,
    rollouts: Option<Seq<char>>,
    thorough: bool,
) -> Option<Seq<char>> {
    if !backups::known_version(manifest.version) {
        Some(backups::version_message(manifest.version))
    } else if !complete {
        Some("backup manifest or required files are incomplete"@)
    } else {
        match first_file_fault(manifest.files, files, thorough, manifest.files.len()) {
            Some(fault) => Some(fault),
            None => match projection_fault(manifest, projection, thorough) {
                Some(fault) => Some(fault),
                None => match schema {
                    Some(fault) => Some(fault),
                    None => if thorough {
                        rollouts
                    } else {
                        None
                    },
                },
            },
        }
    }
}

fn find_backup_fault(
    manifest: &BackupManifest,
    complete: bool,
    files: &Vec<CheckedFile>,
    projection: &CheckedFile,
    schema: &Option<String>,
    rollouts: &Option<String>,
    thorough: bool,
) -> (r: Option<String>)
    requires
        files@.len() == manifest.files@.len(),
    ensures
        r.deep_view() == backup_fault(
            manifest.deep_view(),
            complete,
            files.deep_view(),
            projection.deep_view(),
            schema.deep_view(),
            rollouts.deep_view(),
            thorough,
        ),
{
    match backups::validate_backup_manifest_version(manifest) {
        Err(error) => {
            return Some(error);
        },
        Ok(()) => {},
    }
    if !complete {
        return Some("backup manifest or required files are incomplete".to_owned());
    }
    let fault = find_first_file_fault(&manifest.files, files, thorough);
    if fault.is_some() {
        return fault;
    }
    let fault = find_projection_fault(manifest, projection, thorough);
    if fault.is_some() {
        return fault;
    }
    if schema.is_some() {
        return schema.copy_of();
    }
    if thorough {
        rollouts.copy_of()
    } else {
        None
    }
}

/// What is wrong with a backup on the surface, if anything: sizes are compared and tables looked at,
/// but no contents digested, and no database is asked to check itself.
pub fn validate_backup_surface(
    manifest: &BackupManifest,
    complete: bool,
    files: &Vec<CheckedFile>,
    projection: &CheckedFile,
    tables: &BackupTables,
) -> (r: Option<String>)
    requires
        files@.len() == manifest.files@.len(),
    ensures
        r.deep_view() == backup_fault(
            manifest.deep_view(),
            complete,
            files.deep_view(),
            projection.deep_view(),
            tables_fault(manifest.version, *tables),
            None,
            false,
        ),
{
    let schema = find_tables_fault(manifest.version, tables);
    find_backup_fault(manifest, complete, files, projection, &schema, &None, false)
}

/// What is wrong with a backup, if anything: every copy has the digest that the manifest gives.
/// `schema` is what is wrong with its tables, `rollouts` what keeps its rollouts from being put back.
pub fn validate_backup_integrity(
    manifest: &BackupManifest,
    complete: bool,
    files: &Vec<CheckedFile>,
    projection: &CheckedFile,
    schema: &Option<String>,
    rollouts: &Option<String>,
) -> (r: Option<String>)
    requires
        files@.len() == manifest.files@.len(),
    ensures
        r.deep_view() == backup_fault(
            manifest.deep_view(),
            complete,
            files.deep_view(),
            projection.deep_view(),
            schema.deep_view(),
            rollouts.deep_view(),
            true,
        ),
{
    find_backup_fault(manifest, complete, files, projection, schema, rollouts, true)
}

/// A file of a backup serves on the surface: it has its size, a database opens and shows the
/// columns of its table of sessions where it is the session database, and a global state is JSON.
pub open spec fn serves(file: ManifestFileView, found: CheckedFileView) -> bool {
    &&& found.missing is None
    &&& found.is_file
    &&& found.size == file.size
    &&& match file_check(file.path) {
        FileCheck::StateDatabase => match found.contents {
            FileContentsView::Database { columns, .. } => has_state_columns(columns),
            _ => false,
        },
        FileCheck::Database => found.contents is Database,
        FileCheck::GlobalState => match found.contents {
            FileContentsView::Bytes(bytes) => json::json_parse_bytes(bytes) is Some,
            _ => false,
        },
        FileCheck::Unopened => found.contents is Unread,
    }
}

/// The columns hold those of the table of sessions that a repair needs.
pub open spec fn has_state_columns(columns: Set<Seq<char>>) -> bool {
    forall|i: int|
        0 <= i < schema::state_columns().len() ==> columns.contains(
            #[trigger] schema::state_columns()[i],
        )
}

/// Where every wanted column is there, none is missing.
proof fn lemma_none_missing(names: Seq<Seq<char>>, columns: Set<Seq<char>>)
    requires
        forall|i: int| 0 <= i < names.len() ==> columns.contains(#[trigger] names[i]),
    ensures
        schema::first_missing(names, columns) is None,
    decreases names.len(),
{
    if names.len() > 0 {
        let rest = names.drop_first();
        assert forall|i: int| 0 <= i < rest.len() implies columns.contains(#[trigger] rest[i]) by {
            assert(rest[i] == names[i + 1]);
        }
        lemma_none_missing(rest, columns);
        assert(columns.contains(names[0]));
    }
}

/// Where every copied file serves, none has a fault on the surface.
proof fn lemma_no_surface_fault(
    files: Seq<ManifestFileView>,
    found: Seq<CheckedFileView>,
    n: nat,
)
    requires
        n <= files.len() == found.len(),
        forall|i: int|
            0 <= i < files.len() && (#[trigger] files[i]).backed_up ==> serves(files[i], found[i]),
    ensures
        first_file_fault(files, found, false, n) is None,
    decreases n,
{
    if n > 0 {
        lemma_no_surface_fault(files, found, (n - 1) as nat);
        let file = files[n - 1];
        if file.backed_up {
            assert(serves(file, found[n - 1]));
            if found[n - 1].contents is Database && has_state_columns(
                found[n - 1].contents->columns,
            ) {
                lemma_none_missing(schema::state_columns(), found[n - 1].contents->columns);
            }
        }
    }
}

/// A backup that serves is listed as restorable, whatever the digests of its files are and whatever
/// its databases would answer if they were asked to check themselves.
pub proof fn law_serving_backup_is_listed(
    directory: BackupDirectoryView,
    files: Seq<CheckedFileView>,
    projection: CheckedFileView,
    tables: BackupTables,
    faults: Map<Seq<char>, Seq<char>>,
)
    requires
        directory.size is Known,
        directory.manifest is Read,
        directory.manifest->Read_0.version == 6,
        backups::restorable(directory.manifest->Read_0, directory.files),
        files.len() == directory.manifest->Read_0.files.len(),
        forall|i: int|
            0 <= i < files.len() && (#[trigger] directory.manifest->Read_0.files[i]).backed_up
                ==> serves(directory.manifest->Read_0.files[i], files[i]),
        directory.manifest->Read_0.projection_state_present ==> projection.missing is None
            && projection.is_file && !(projection.contents is Fault),
        tables.state is Ok,
        has_state_columns(tables.state->Ok_0.deep_view()),
        faults.dom().contains(directory.path) ==> backup_fault(
            directory.manifest->Read_0,
            backups::restorable(directory.manifest->Read_0, directory.files),
            files,
            projection,
            tables_fault(6, tables),
            None,
            false,
        ) == Some(faults[directory.path]),
    ensures
        ({
            let entry = backups::marked(seq![backups::entry_of(directory)], faults)[0];
            entry.restorable && entry.status == "restorable"@
        }),
{
    let manifest = directory.manifest->Read_0;
    lemma_no_surface_fault(manifest.files, files, manifest.files.len());
    lemma_none_missing(schema::state_columns(), tables.state->Ok_0.deep_view());
}

/// A backup without a fault holds every copy with the digest that its manifest gives.
pub proof fn law_sound_backup_matches_its_manifest(
    manifest: BackupManifestView,
    complete: bool,
    files: Seq<CheckedFileView>,
    projection: CheckedFileView,
    schema: Option<Seq<char>>,
    rollouts: Option<Seq<char>>,
    i: int,
)
    requires
        backup_fault(manifest, complete, files, projection, schema, rollouts, true) is None,
        0 <= i < manifest.files.len(),
        manifest.files[i].backed_up,
    ensures
        manifest.files[i].sha256 is Some,
        files[i].sha256 == manifest.files[i].sha256,
        contents_fault(file_check(manifest.files[i].path), files[i].contents, true) is None,
{
    lemma_no_fault_before(manifest.files, files, true, manifest.files.len(), i);
}

proof fn lemma_no_fault_before(
    files: Seq<ManifestFileView>,
    found: Seq<CheckedFileView>,
    thorough: bool,
    n: nat,
    i: int,
)
    requires
        first_file_fault(files, found, thorough, n) is None,
        0 <= i < n,
    ensures
        thorough ==> content_file_fault(files[i], found[i]) is None,
        !thorough ==> surface_file_fault(files[i], found[i]) is None,
    decreases n,
{
    if i < n - 1 {
        lemma_no_fault_before(files, found, thorough, (n - 1) as nat, i);
    }
}

/// What is done about a directory of backups, or why it cannot be used.
pub open spec fn root_step(
    shown: Seq<char>,
    found: RootFoundView,
    create: bool,
) -> Result<RootStep, Seq<char>> {
    match found {
        RootFoundView::Symlink => Err("backup directory is a symlink: "@ + shown),
        RootFoundView::NotDirectory => Err("backup path is not a directory: "@ + shown),
        RootFoundView::Directory => Ok(RootStep::UseIt),
        RootFoundView::Missing(error) => if create {
            Ok(RootStep::Create)
        } else {
            Err("backup directory unavailable ("@ + shown + "): "@ + error)
        },
        RootFoundView::Unavailable(error) => Err(
            "backup directory unavailable ("@ + shown + "): "@ + error,
        ),
    }
}

/// Decides what is done about one directory on the way to the backups.
pub fn ensure_backup_root(shown: &str, found: &RootFound, create: bool) -> (r: Result<
    RootStep,
    String,
>)
    ensures
        model::outcome(r) == root_step(shown@, found.deep_view(), create),
{
    match found {
        RootFound::Symlink => Err(join2("backup directory is a symlink: ", shown)),
        RootFound::NotDirectory => Err(join2("backup path is not a directory: ", shown)),
        RootFound::Directory => Ok(RootStep::UseIt),
        RootFound::Missing(error) => {
            if create {
                Ok(RootStep::Create)
            } else {
                Err(join4("backup directory unavailable (", shown, "): ", error.as_str()))
            }
        },
        RootFound::Unavailable(error) => Err(
            join4("backup directory unavailable (", shown, "): ", error.as_str()),
        ),
    }
}

/// Decides what is done about one directory on the way to the backups, which are wanted: a missing
/// one is created.
pub fn backup_directory_at(shown: &str, found: &RootFound) -> (r: Result<RootStep, String>)
    ensures
        model::outcome(r) == root_step(shown@, found.deep_view(), true),
{
    ensure_backup_root(shown, found, true)
}

/// Checks that a directory of backups lies below the home.
pub fn check_root_inside(shown: &str, inside: bool) -> (r: Result<(), String>)
    ensures
        r is Ok <==> inside,
        r is Err ==> r->Err_0@ == "backup directory escapes CODEX_HOME: "@ + shown@,
{
    if inside {
        Ok(())
    } else {
        Err(join2("backup directory escapes CODEX_HOME: ", shown))
    }
}

/// The name of a backup that may be used or removed, or why it may not.
pub open spec fn child_name(shown: Seq<char>, found: ChildFoundView) -> Result<
    Seq<char>,
    Seq<char>,
> {
    match found {
        ChildFoundView::Unavailable(error) => Err(
            "backup is unavailable ("@ + shown + "): "@ + error,
        ),
        ChildFoundView::NotDirectory => Err(
            "backup cleanup refused a non-directory or symlink: "@ + shown,
        ),
        ChildFoundView::Directory { below_root, name } => if !below_root {
            Err("backup cleanup refused a path outside the backup root: "@ + shown)
        } else {
            match name {
                None => Err("backup name is invalid: "@ + shown),
                Some(name) => if backups::managed_name(name) {
                    Ok(name)
                } else {
                    Err("backup name is not managed by this app: "@ + name)
                },
            }
        },
    }
}

/// The name of a backup that may be used or removed, or why it may not.
pub fn validate_backup_child(shown: &str, found: &ChildFound) -> (r: Result<String, String>)
    ensures
        model::outcome(r) == child_name(shown@, found.deep_view()),
{
    match found {
        ChildFound::Unavailable(error) => Err(
            join4("backup is unavailable (", shown, "): ", error.as_str()),
        ),
        ChildFound::NotDirectory => Err(
            join2("backup cleanup refused a non-directory or symlink: ", shown),
        ),
        ChildFound::Directory { below_root, name } => {
            if !*below_root {
                return Err(join2("backup cleanup refused a path outside the backup root: ", shown));
            }
            match name {
                None => Err(join2("backup name is invalid: ", shown)),
                Some(name) => {
                    if is_managed_backup_name(name.as_str()) {
                        Ok(name.copy_of())
                    } else {
                        Err(join2("backup name is not managed by this app: ", name.as_str()))
                    }
                },
            }
        },
    }
}

/// Only a directory right below the backups, with a name of this program, is ever used or removed.
pub proof fn law_only_own_backups_are_touched(shown: Seq<char>, found: ChildFoundView)
    requires
        child_name(shown, found) is Ok,
    ensures
        found is Directory,
        found->below_root,
        backups::managed_name(child_name(shown, found)->Ok_0),
{
}

/// The size of what a walk met, or why it is unknown.
pub open spec fn tree_size(items: Seq<TreeItemView>) -> Result<u64, Seq<char>>
    decreases items.len(),
{
    if items.len() == 0 {
        Ok(0)
    } else {
        match tree_size(items.drop_last()) {
            Err(error) => Err(error),
            Ok(bytes) => match items.last() {
                TreeItemView::Failed(error) => Err("backup traversal failed: "@ + error),
                TreeItemView::Symlink(path) => Err("backup contains a symlink: "@ + path),
                TreeItemView::File(size) => Ok(retention::saturating_sum(bytes, size)),
                TreeItemView::Unsized(error) => Err(error),
                TreeItemView::Other => Ok(bytes),
            },
        }
    }
}

proof fn lemma_tree_error_stays(items: Seq<TreeItemView>, n: int)
    requires
        0 <= n <= items.len(),
        tree_size(items.take(n)) is Err,
    ensures
        tree_size(items) == tree_size(items.take(n)),
    decreases items.len(),
{
    if n == items.len() {
        assert(items.take(n) =~= items);
    } else {
        assert(items.drop_last().take(n) =~= items.take(n));
        lemma_tree_error_stays(items.drop_last(), n);
    }
}

/// The size of a directory, from what a walk through it met.
pub fn backup_directory_size(items: &Vec<TreeItem>) -> (r: Result<u64, String>)
    ensures
        model::outcome(r) == tree_size(items.deep_view()),
{
    let ghost view = items.deep_view();
    let mut bytes: u64 = 0;
    let mut i: usize = 0;
    assert(view.take(0).len() == 0);
    while i < items.len()
        invariant
            i <= items@.len(),
            view == items.deep_view(),
            tree_size(view.take(i as int)) == Ok::<u64, Seq<char>>(bytes),
        decreases items@.len() - i,
    {
        assert(view[i as int] == items@[i as int].deep_view());
        assert(view.take(i + 1).drop_last() =~= view.take(i as int));
        let failure: Option<String> = match &items[i] {
            TreeItem::Failed(error) => Some(join2("backup traversal failed: ", error.as_str())),
            TreeItem::Symlink(path) => Some(join2("backup contains a symlink: ", path.as_str())),
            TreeItem::File(size) => {
                bytes = bytes.saturating_add(*size);
                None
            },
            TreeItem::Unsized(error) => Some(error.copy_of()),
            TreeItem::Other => None,
        };
        match failure {
            Some(error) => {
                proof {
                    lemma_tree_error_stays(view, i + 1);
                }
                return Err(error);
            },
            None => {},
        }
        i += 1;
    }
    assert(view.take(i as int) =~= view);
    Ok(bytes)
}

/// The candidates that can be restored, with their places.
pub open spec fn restorable_candidates(found: Seq<BackupCandidateView>) -> Seq<
    (BackupOrderView, Seq<char>),
>
    decreases found.len(),
{
    if found.len() == 0 {
        Seq::empty()
    } else {
        let rest = restorable_candidates(found.drop_last());
        let last = found.last();
        if last.restorable {
            rest.push((backups::order_at(None, last.name), last.path))
        } else {
            rest
        }
    }
}

/// The paths of the backups that can be restored, by name, the last name first.
pub open spec fn candidate_paths(found: Seq<BackupCandidateView>) -> Seq<Seq<char>> {
    ordered::sorted_pairs::<BackupOrder, Seq<char>>(restorable_candidates(found)).map_values(
        |pair: (BackupOrderView, Seq<char>)| pair.1,
    )
}

/// The paths of the backups that can be restored, by name, the last name first.
pub fn backup_candidates(found: &Vec<BackupCandidate>) -> (r: Vec<String>)
    ensures
        r.deep_view() == candidate_paths(found.deep_view()),
{
    let ghost view = found.deep_view();
    let mut pairs: Vec<(BackupOrder, String)> = Vec::new();
    let mut i: usize = 0;
    assert(pairs.deep_view() =~= restorable_candidates(view.take(0)));
    while i < found.len()
        invariant
            i <= found@.len(),
            view == found.deep_view(),
            pairs.deep_view() == restorable_candidates(view.take(i as int)),
        decreases found@.len() - i,
    {
        let ghost before = pairs.deep_view();
        let candidate = &found[i];
        assert(view[i as int] == candidate.deep_view());
        assert(view.take(i + 1).drop_last() =~= view.take(i as int));
        if candidate.restorable {
            let key = BackupOrder {
                seconds: None,
                nanoseconds: 0,
                name: candidate.name.copy_of(),
            };
            pairs.push((key, candidate.path.copy_of()));
            assert(pairs.deep_view() =~= before.push(
                (backups::order_at(None, view[i as int].name), view[i as int].path),
            ));
        }
        i += 1;
    }
    assert(view.take(i as int) =~= view);
    let sorted = sort_pairs(pairs);
    let ghost shown = sorted.deep_view();
    let mut out: Vec<String> = Vec::new();
    let mut k: usize = 0;
    while k < sorted.len()
        invariant
            k <= sorted@.len(),
            shown == sorted.deep_view(),
            out@.len() == k,
            forall|j: int| 0 <= j < k ==> #[trigger] out@[j].deep_view() == shown[j].1,
        decreases sorted@.len() - k,
    {
        assert(shown[k as int] == sorted@[k as int].deep_view());
        out.push(sorted[k].1.copy_of());
        k += 1;
    }
    assert(out.deep_view() =~= candidate_paths(view));
    out
}

/// The first path without a fault.
pub open spec fn first_sound(paths: Seq<Seq<char>>, faults: Set<Seq<char>>) -> Option<Seq<char>>
    decreases paths.len(),
{
    if paths.len() == 0 {
        None
    } else if !faults.contains(paths[0]) {
        Some(paths[0])
    } else {
        first_sound(paths.drop_first(), faults)
    }
}

/// The latest backup that is sound; `faults` are the paths of those that are not.
pub fn latest_backup(candidates: &Vec<String>, faults: &OrderedSet<String>) -> (r: Option<
    String,
>)
    ensures
        r.deep_view() == first_sound(candidates.deep_view(), faults.deep_view()),
{
    let ghost view = candidates.deep_view();
    let mut i: usize = 0;
    assert(view.skip(0) =~= view);
    while i < candidates.len()
        invariant
            i <= candidates@.len(),
            view == candidates.deep_view(),
            first_sound(view.skip(i as int), faults.deep_view()) == first_sound(
                view,
                faults.deep_view(),
            ),
        decreases candidates@.len() - i,
    {
        assert(view.skip(i as int)[0] == view[i as int]);
        assert(view[i as int] == candidates@[i as int]@);
        assert(view.skip(i as int).drop_first() =~= view.skip(i + 1));
        if !faults.contains(&candidates[i]) {
            return Some(candidates[i].copy_of());
        }
        i += 1;
    }
    None
}

/// The latest backup that is chosen is one of the candidates and has no fault; those before it
/// have one.
pub proof fn law_latest_sound_backup(paths: Seq<Seq<char>>, faults: Set<Seq<char>>)
    ensures
        match first_sound(paths, faults) {
            Some(path) => exists|i: int|
                0 <= i < paths.len() && #[trigger] paths[i] == path && !faults.contains(path) && (
                forall|j: int| 0 <= j < i ==> faults.contains(#[trigger] paths[j])),
            None => forall|j: int| 0 <= j < paths.len() ==> faults.contains(#[trigger] paths[j]),
        },
    decreases paths.len(),
{
    if paths.len() > 0 {
        if faults.contains(paths[0]) {
            let rest = paths.drop_first();
            law_latest_sound_backup(rest, faults);
            match first_sound(rest, faults) {
                Some(path) => {
                    let i = choose|i: int|
                        0 <= i < rest.len() && #[trigger] rest[i] == path && !faults.contains(path)
                            && (forall|j: int| 0 <= j < i ==> faults.contains(#[trigger] rest[j]));
                    assert(paths[i + 1] == path);
                    assert forall|j: int| 0 <= j < i + 1 implies faults.contains(
                        #[trigger] paths[j],
                    ) by {
                        if j > 0 {
                            assert(rest[j - 1] == paths[j]);
                        }
                    }
                },
                None => {
                    assert forall|j: int| 0 <= j < paths.len() implies faults.contains(
                        #[trigger] paths[j],
                    ) by {
                        if j > 0 {
                            assert(rest[j - 1] == paths[j]);
                        }
                    }
                },
            }
        } else {
            assert(paths[0] == paths[0]);
        }
    }
}

/// The backup that is meant: the one asked for, else the latest.
pub open spec fn chosen_backup(
    requested: Option<Seq<char>>,
    absolute: bool,
    latest: Option<Seq<char>>,
) -> Result<BackupChoiceView, Seq<char>> {
    match (requested, latest) {
        (Some(path), _) => Ok(BackupChoiceView { path, below_home: !absolute }),
        (None, Some(path)) => Ok(BackupChoiceView { path, below_home: false }),
        (None, None) => Err("no backup found"@),
    }
}

/// The backup that is meant: the one asked for, else the latest. A path that is not absolute is
/// taken from the home.
pub fn safe_backup_path(requested: &Option<String>, absolute: bool, latest: &Option<String>) -> (r:
    Result<BackupChoice, String>)
    ensures
        model::outcome(r) == chosen_backup(requested.deep_view(), absolute, latest.deep_view()),
{
    match (requested, latest) {
        (Some(path), _) => Ok(BackupChoice { path: path.copy_of(), below_home: !absolute }),
        (None, Some(path)) => Ok(BackupChoice { path: path.copy_of(), below_home: false }),
        (None, None) => Err("no backup found".to_owned()),
    }
}

/// Whether a restore writes over a file, or why it may not write.
pub open spec fn target_is_file(shown: Seq<char>, found: TargetFoundView) -> Result<
    bool,
    Seq<char>,
> {
    match found {
        TargetFoundView::Symlink => Err("restore target is a symlink: "@ + shown),
        TargetFoundView::File => Ok(true),
        TargetFoundView::Other => Err("restore target is not a regular file: "@ + shown),
        TargetFoundView::Missing => Ok(false),
        TargetFoundView::Unavailable(error) => Err(
            "restore target unavailable ("@ + shown + "): "@ + error,
        ),
    }
}

/// Whether a restore writes over a file, or why it may not write.
pub fn restore_target_is_file(shown: &str, found: &TargetFound) -> (r: Result<bool, String>)
    ensures
        model::outcome(r) == target_is_file(shown@, found.deep_view()),
{
    match found {
        TargetFound::Symlink => Err(join2("restore target is a symlink: ", shown)),
        TargetFound::File => Ok(true),
        TargetFound::Other => Err(join2("restore target is not a regular file: ", shown)),
        TargetFound::Missing => Ok(false),
        TargetFound::Unavailable(error) => Err(
            join4("restore target unavailable (", shown, "): ", error.as_str()),
        ),
    }
}

proof fn lemma_no_file_fault(
    files: Seq<ManifestFileView>,
    found: Seq<CheckedFileView>,
    thorough: bool,
    n: nat,
)
    ensures
        first_file_fault(files, found, thorough, n) is None <==> forall|i: int|
            #![trigger files[i], found[i]]
            0 <= i < n ==> (if thorough {
                content_file_fault(files[i], found[i])
            } else {
                surface_file_fault(files[i], found[i])
            }) is None,
    decreases n,
{
    if n > 0 {
        lemma_no_file_fault(files, found, thorough, (n - 1) as nat);
        if first_file_fault(files, found, thorough, n) is None {
            assert forall|i: int|
                #![trigger files[i], found[i]]
                0 <= i < n implies (if thorough {
                content_file_fault(files[i], found[i])
            } else {
                surface_file_fault(files[i], found[i])
            }) is None by {
                if i < n - 1 {
                } else {
                    assert(i == n - 1);
                }
            }
        }
        if forall|i: int|
            #![trigger files[i], found[i]]
            0 <= i < n ==> (if thorough {
                content_file_fault(files[i], found[i])
            } else {
                surface_file_fault(files[i], found[i])
            }) is None {
            assert(files[n - 1] == files[n - 1] && found[n - 1] == found[n - 1]);
        }
    }
}

/// A backup passes the look at its surface exactly where its version is known, it is complete, every
/// file that it backs up is there, is a file, has its size and reads, the store of projections reads
/// if there is one, and its tables have their columns.
pub proof fn law_backup_passes_on_the_surface(
    manifest: BackupManifestView,
    complete: bool,
    files: Seq<CheckedFileView>,
    projection: CheckedFileView,
    schema: Option<Seq<char>>,
    rollouts: Option<Seq<char>>,
)
    requires
        files.len() == manifest.files.len(),
    ensures
        backup_fault(manifest, complete, files, projection, schema, rollouts, false) is None <==> {
            &&& 4 <= manifest.version <= 6
            &&& complete
            &&& schema is None
            &&& forall|i: int|
                #![trigger manifest.files[i], files[i]]
                0 <= i < files.len() && manifest.files[i].backed_up ==> {
                    &&& files[i].missing is None
                    &&& files[i].is_file
                    &&& files[i].size == manifest.files[i].size
                    &&& contents_fault(
                        file_check(manifest.files[i].path),
                        files[i].contents,
                        false,
                    ) is None
                }
            &&& manifest.projection_state_present ==> projection.missing is None
                && projection.is_file && !(projection.contents is Fault)
        },
{
    lemma_no_file_fault(manifest.files, files, false, manifest.files.len());
}

/// A backup passes the thorough check exactly where its version is known, it is complete, every file
/// that it backs up and the store of projections have their digests and read, its tables have their
/// columns, and its rollouts can be put back.
pub proof fn law_backup_passes_the_thorough_check(
    manifest: BackupManifestView,
    complete: bool,
    files: Seq<CheckedFileView>,
    projection: CheckedFileView,
    schema: Option<Seq<char>>,
    rollouts: Option<Seq<char>>,
)
    requires
        files.len() == manifest.files.len(),
    ensures
        backup_fault(manifest, complete, files, projection, schema, rollouts, true) is None <==> {
            &&& 4 <= manifest.version <= 6
            &&& complete
            &&& schema is None
            &&& rollouts is None
            &&& forall|i: int|
                #![trigger manifest.files[i], files[i]]
                0 <= i < files.len() && manifest.files[i].backed_up ==> {
                    &&& manifest.files[i].sha256 is Some
                    &&& files[i].sha256 == manifest.files[i].sha256
                    &&& contents_fault(
                        file_check(manifest.files[i].path),
                        files[i].contents,
                        true,
                    ) is None
                }
            &&& manifest.projection_state_present ==> manifest.projection_state_sha256 is Some
                && projection.sha256 == manifest.projection_state_sha256 && !(
            projection.contents is Fault)
        },
{
    lemma_no_file_fault(manifest.files, files, true, manifest.files.len());
}

/// The contents of a file are in order: what could not be read never is; a global state only where it
/// is JSON; a session database only with its columns, and on a thorough look a database only where it
/// answers that it is.
pub proof fn law_contents_in_order(
    check: FileCheck,
    error: Seq<char>,
    bytes: Seq<u8>,
    answer: Seq<char>,
    columns: Set<Seq<char>>,
    thorough: bool,
)
    ensures
        contents_fault(check, FileContentsView::Fault(error), thorough) is Some,
        check == FileCheck::GlobalState ==> (contents_fault(
            check,
            FileContentsView::Bytes(bytes),
            thorough,
        ) is None <==> json::json_error_text(bytes) is None),
        contents_fault(
            check,
            FileContentsView::Database { check: answer, columns },
            true,
        ) is None <==> answer == "ok"@,
        check == FileCheck::StateDatabase ==> (contents_fault(
            check,
            FileContentsView::Database { check: answer, columns },
            false,
        ) is None <==> schema::state_columns_fault(columns) is None),
{
}

/// Tables serve a restore exactly where they could be read and have their columns; the catalog counts
/// only in versions that back it up.
pub proof fn law_tables_serve(version: u32, tables: BackupTables)
    ensures
        version == 6 ==> (tables_fault(version, tables) is None <==> tables.state is Ok
            && schema::state_columns_fault(tables.state->Ok_0.deep_view()) is None),
        version != 6 ==> (tables_fault(version, tables) is None <==> tables.state is Ok
            && tables.catalog is Ok && schema::state_columns_fault(
            tables.state->Ok_0.deep_view(),
        ) is None && schema::catalog_columns_fault(
            tables.catalog->Ok_0.catalog.deep_view(),
            tables.catalog->Ok_0.sync.deep_view(),
            tables.catalog->Ok_0.metadata.deep_view(),
        ) is None),
{
}

/// A directory of backups is used where it is one, made where there is none and it may be made, and
/// refused otherwise; a backup is touched exactly where it is a directory right below, with a name of
/// this program; and a restore writes over a file or where there is nothing, and nowhere else.
pub proof fn law_places_are_used_or_refused(
    shown: Seq<char>,
    root: RootFoundView,
    create: bool,
    child: ChildFoundView,
    target: TargetFoundView,
)
    ensures
        root_step(shown, root, create) == Ok::<RootStep, Seq<char>>(RootStep::UseIt) <==> root
            is Directory,
        root_step(shown, root, create) == Ok::<RootStep, Seq<char>>(RootStep::Create) <==> root
            is Missing && create,
        root_step(shown, root, create) is Err <==> !(root is Directory) && !(root is Missing
            && create),
        child_name(shown, child) is Ok <==> child is Directory && child->below_root && child->name
            is Some && backups::managed_name(child->name->0),
        child_name(shown, child) is Ok ==> child->name == Some(child_name(shown, child)->Ok_0),
        target_is_file(shown, target) == Ok::<bool, Seq<char>>(true) <==> target is File,
        target_is_file(shown, target) == Ok::<bool, Seq<char>>(false) <==> target is Missing,
{
}

/// The size of a backup is the sum of its files, and is told only where everything in it could be
/// looked at and nothing is a link.
pub proof fn law_size_is_the_sum_of_the_files(items: Seq<TreeItemView>, item: TreeItemView)
    ensures
        tree_size(Seq::empty()) == Ok::<u64, Seq<char>>(0),
        tree_size(items.push(item)) is Ok <==> tree_size(items) is Ok && (item is File || item
            is Other),
        tree_size(items) is Ok && item is Other ==> tree_size(items.push(item)) == tree_size(items),
        tree_size(items) is Ok && item is File && tree_size(items)->Ok_0 + item->File_0 <= u64::MAX
            ==> tree_size(items.push(item)) == Ok::<u64, Seq<char>>(
            (tree_size(items)->Ok_0 + item->File_0) as u64,
        ),
{
    assert(items.push(item).drop_last() =~= items);
}

/// The backup that is asked for is the one that is meant, whatever the latest is; without one, the
/// latest; and it is an error exactly where there is none.
pub proof fn law_asked_for_backup_is_meant(
    path: Seq<char>,
    latest: Option<Seq<char>>,
    absolute: bool,
)
    ensures
        chosen_backup(Some(path), absolute, latest) is Ok,
        chosen_backup(Some(path), absolute, latest)->Ok_0.path == path,
        chosen_backup(Some(path), absolute, latest)->Ok_0.below_home == !absolute,
        chosen_backup(None, absolute, latest) is Ok <==> latest is Some,
        latest is Some ==> chosen_backup(None, absolute, latest)->Ok_0.path == latest->0
            && !chosen_backup(None, absolute, latest)->Ok_0.below_home,
{
}

proof fn lemma_candidates(found: Seq<BackupCandidateView>, path: Seq<char>)
    ensures
        (exists|k: int|
            0 <= k < restorable_candidates(found).len() && (
            #[trigger] restorable_candidates(found)[k]).1 == path) <==> exists|i: int|
            0 <= i < found.len() && (#[trigger] found[i]).restorable && found[i].path == path,
        forall|k: int|
            0 <= k < restorable_candidates(found).len() ==> (
            #[trigger] restorable_candidates(found)[k]).0.seconds is None && restorable_candidates(
                found,
            )[k].0.nanoseconds == 0,
    decreases found.len(),
{
    if found.len() > 0 {
        let front = found.drop_last();
        lemma_candidates(front, path);
        let rest = restorable_candidates(front);
        let all = restorable_candidates(found);
        if exists|k: int| 0 <= k < all.len() && (#[trigger] all[k]).1 == path {
            let k = choose|k: int| 0 <= k < all.len() && (#[trigger] all[k]).1 == path;
            if k < rest.len() {
                assert(rest[k].1 == path);
                let i = choose|i: int|
                    0 <= i < front.len() && (#[trigger] front[i]).restorable && front[i].path
                        == path;
                assert(found[i] == front[i]);
            } else {
                assert(found[found.len() - 1].path == path);
            }
        }
        if exists|i: int|
            0 <= i < found.len() && (#[trigger] found[i]).restorable && found[i].path == path {
            let i = choose|i: int|
                0 <= i < found.len() && (#[trigger] found[i]).restorable && found[i].path == path;
            if i < front.len() {
                assert(front[i] == found[i]);
                let k = choose|k: int| 0 <= k < rest.len() && (#[trigger] rest[k]).1 == path;
                assert(all[k].1 == path);
            } else {
                assert(all[all.len() - 1].1 == path);
            }
        }
    }
}

/// The latest backup is looked for among those that can be restored, and among all of them.
pub proof fn law_candidates_can_be_restored(found: Seq<BackupCandidateView>, path: Seq<char>)
    ensures
        candidate_paths(found).contains(path) <==> exists|i: int|
            0 <= i < found.len() && (#[trigger] found[i]).restorable && found[i].path == path,
{
    let pairs = restorable_candidates(found);
    let sorted = ordered::sorted_pairs::<BackupOrder, Seq<char>>(pairs);
    let paths = candidate_paths(found);
    lemma_candidates(found, path);
    ordered::lemma_sorted_pairs::<BackupOrder, Seq<char>>(pairs);
    if paths.contains(path) {
        let k = choose|k: int| 0 <= k < paths.len() && paths[k] == path;
        assert(pairs.contains(sorted[k]));
        let m = choose|m: int| 0 <= m < pairs.len() && pairs[m] == sorted[k];
        assert(pairs[m].1 == path);
    }
    if exists|k: int| 0 <= k < pairs.len() && (#[trigger] pairs[k]).1 == path {
        let k = choose|k: int| 0 <= k < pairs.len() && (#[trigger] pairs[k]).1 == path;
        ordered::lemma_sorted_holds::<BackupOrder, Seq<char>>(pairs, pairs[k]);
        assert(pairs.contains(pairs[k]));
        let m = choose|m: int| 0 <= m < sorted.len() && sorted[m] == pairs[k];
        assert(paths[m] == path);
    }
}

/// A file of a backup is opened as the session database, as a database or as the global state by its
/// name alone, and its copy is named after its path without slashes.
pub proof fn law_files_are_opened_by_name(path: Seq<char>)
    ensures
        file_check(path) == FileCheck::StateDatabase <==> text::has_suffix(path, ".sqlite"@)
            && text::has_suffix(path, "state_5.sqlite"@),
        file_check(path) == FileCheck::Database <==> text::has_suffix(path, ".sqlite"@)
            && !text::has_suffix(path, "state_5.sqlite"@),
        file_check(path) == FileCheck::GlobalState <==> !text::has_suffix(path, ".sqlite"@) && path
            == ".codex-global-state.json"@,
        copy_name(path).len() == path.len(),
        forall|i: int| 0 <= i < path.len() ==> #[trigger] copy_name(path)[i] != '/',
        forall|i: int|
            0 <= i < path.len() && path[i] != '/' ==> #[trigger] copy_name(path)[i] == path[i],
{
}

} // verus!

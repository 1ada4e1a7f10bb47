use provider_hub::backups::{
    backs_up_expected, backup_removal_name, backup_summary_at, is_cleanup_quarantine_name,
    is_known_incomplete_backup_name, is_managed_backup_name, is_repair_backup_name,
    is_restorable_backup, list_backups_at, no_backups, summarize_backups,
    validate_backup_manifest_version, BackupCleanupResult, BackupDirectory, BackupFiles, BackupItem,
    BackupKind, BackupManifest, BackupSummary, ManifestFile, ManifestRead, SizeRead, AUTOMATIC_BACKUP_LIMIT, BACKUP_CAPACITY_LIMIT_BYTES,
    MINIMUM_AUTOMATIC_BACKUPS,
};
use provider_hub::cleaning::{
    begin_cleanup, cleanup_backups_unlocked_with_policy, is_awaited, CleanupAction, CleanupEvent,
};
use provider_hub::inspection::{
    backup_candidates, backup_copy_name, backup_directory_at, backup_directory_size, check_for_file, check_root_inside,
    ensure_backup_root, latest_backup, restore_target_is_file, safe_backup_path,
    validate_backup_child, validate_backup_integrity, validate_backup_surface, BackupCandidate,
    BackupTables, CheckedFile, ChildFound, FileCheck, FileContents, RootFound, RootStep, TargetFound, TreeItem,
};
use provider_hub::journal::{PendingOperation, RepairRolloutJournal};
use provider_hub::ordered::{OrderedMap, OrderedSet};
use provider_hub::paths::PathStyle;
use provider_hub::processes::{BlockingProcess, ProcessIdentity};
use provider_hub::retention::{
    cleanup_backups_at, incomplete_backup_is_expired, judge_managed, maintain_backups_at,
    set_backup_pinned_at, standard_policy, BackupPolicy, CleanupRequest, ManagedVerdict,
};
use provider_hub::snapshots::{
    create_backup_at, create_backup_safe_at, create_backup_snapshot, ensure_backup_free_space,
    estimate_backup_bytes, estimate_manifest_bytes, file_is_backed_up, FoundFile, ProjectionCopy,
    SafeBackupStage, SlotRead, SnapshotSource, StateCopy,
};

fn manifest(version: u32, minute: usize, pinned: bool) -> BackupManifest {
    BackupManifest {
        version,
        created_at: format!("2026-07-15T00:{minute:02}:00+08:00"),
        source: "/home".into(),
        provider: "custom".into(),
        sqlite_user_versions: OrderedMap::new(),
        projection_state_present: false,
        projection_state_sha256: None,
        rollout_provider_preimages: vec![],
        kind: BackupKind::Automatic,
        pinned,
        files: vec![ManifestFile {
            path: "state_5.sqlite".into(),
            size: 10,
            modified: None,
            sha256: Some("d".into()),
            backed_up: true,
        }],
    }
}

fn directory(index: usize, manifest: ManifestRead, pending: bool) -> BackupDirectory {
    let regular = match &manifest {
        ManifestRead::Read(manifest) => vec![true; manifest.files.len()],
        _ => vec![],
    };
    BackupDirectory {
        name: format!("repair-20260715-0000{index:02}-000"),
        path: format!("/backups/{index}"),
        manifest_path: format!("/backups/{index}/contents.json"),
        manifest_error: None,
        manifest,
        files: BackupFiles {
            regular,
            projection_file: false,
            style: PathStyle::Unix,
        },
        size: SizeRead::Known(100),
        modified: Some("2026-07-15T00:00:00+08:00".into()),
        pending,
    }
}

fn item(index: usize, pinned: bool, pending: bool) -> BackupItem {
    BackupItem::Directory(directory(
        index,
        ManifestRead::Read(manifest(6, index, pinned)),
        pending,
    ))
}

/// Runs a cleanup over what is there; gives what was removed and what stays.
fn run_cleanup(
    summary: &BackupSummary,
    request: CleanupRequest,
    damaged: &[&str],
    stuck: &[&str],
    guards: &[&str],
) -> (Vec<String>, BackupCleanupResult) {
    let mut removed: Vec<String> = vec![];
    let (mut state, mut action) = begin_cleanup(request);
    loop {
        let event = match action {
            CleanupAction::Report(result) => return (removed, result),
            CleanupAction::List => {
                let left = summary
                    .entries
                    .iter()
                    .filter(|entry| !removed.contains(&entry.path))
                    .cloned()
                    .collect();
                CleanupEvent::Listed {
                    summary: summarize_backups(left, vec![]),
                    ages: OrderedMap::new(),
                    guards: OrderedSet::from_items(
                        guards.iter().map(|path| path.to_string()).collect(),
                    ),
                }
            }
            CleanupAction::Check(path) => CleanupEvent::Checked(
                damaged
                    .contains(&path.as_str())
                    .then_some("backup checksum mismatch: state_5.sqlite".to_string()),
            ),
            CleanupAction::Remove(path) if stuck.contains(&path.as_str()) => {
                CleanupEvent::Removed(Some(format!("cannot remove old backup ({path}): denied")))
            }
            CleanupAction::Remove(path) => {
                removed.push(path);
                CleanupEvent::Removed(None)
            }
        };
        assert!(is_awaited(&state, &event));
        (state, action) = cleanup_backups_unlocked_with_policy(state, event);
    }
}

fn clean_up(
    summary: &BackupSummary,
    include_legacy: bool,
    policy: &BackupPolicy,
    damaged: &[&str],
) -> (Vec<String>, BackupCleanupResult) {
    let request = CleanupRequest {
        include_legacy,
        deep_integrity: true,
        policy: BackupPolicy {
            automatic_limit: policy.automatic_limit,
            minimum_automatic: policy.minimum_automatic,
            capacity_limit_bytes: policy.capacity_limit_bytes,
        },
    };
    run_cleanup(summary, request, damaged, &[], &[])
}

fn unlimited() -> BackupPolicy {
    BackupPolicy {
        automatic_limit: 5,
        minimum_automatic: 2,
        capacity_limit_bytes: u64::MAX,
    }
}

#[test]
fn the_five_newest_backups_stay() {
    let summary = backup_summary_at(&(0..7).map(|i| item(i, false, false)).collect());
    assert_eq!(summary.automatic_count, 7);
    assert!(summary.over_limit);
    assert_eq!(summary.entries[0].path, "/backups/6");
    let (removed, result) = clean_up(&summary, false, &unlimited(), &[]);
    assert_eq!(removed, vec!["/backups/0".to_string(), "/backups/1".to_string()]);
    assert_eq!(result.removed_count, 2);
    assert_eq!(result.reclaimed_bytes, 200);
    assert_eq!(result.remaining_count, 5);
    let left = backup_summary_at(&(2..7).map(|i| item(i, false, false)).collect());
    let (removed, again) = clean_up(&left, false, &unlimited(), &[]);
    assert!(removed.is_empty());
    assert_eq!(again.removed_count, 0);
}

#[test]
fn pending_and_pinned_backups_stay() {
    let items = (0..7).map(|i| item(i, i == 0, i == 1)).collect();
    let summary = backup_summary_at(&items);
    let (removed, result) = clean_up(&summary, false, &unlimited(), &[]);
    assert_eq!(removed, vec!["/backups/2".to_string()]);
    assert_eq!(result.removed_count, 1);
}

#[test]
fn two_healthy_backups_stay_whatever_their_size() {
    let summary = backup_summary_at(&(0..3).map(|i| item(i, false, false)).collect());
    let policy = BackupPolicy {
        capacity_limit_bytes: 1,
        ..unlimited()
    };
    let (removed, result) = clean_up(&summary, false, &policy, &[]);
    assert_eq!(removed, vec!["/backups/0".to_string()]);
    assert!(result
        .warnings
        .iter()
        .any(|warning| warning.contains("above its limit")));
}

#[test]
fn capacity_leaves_the_newest_that_fit() {
    let summary = backup_summary_at(&(0..5).map(|i| item(i, false, false)).collect());
    let policy = BackupPolicy {
        capacity_limit_bytes: 350,
        ..unlimited()
    };
    let (removed, result) = clean_up(&summary, false, &policy, &[]);
    assert_eq!(removed, vec!["/backups/0".to_string(), "/backups/1".to_string()]);
    assert_eq!(result.remaining_count, 3);
    assert_eq!(result.remaining_bytes, 300);
    assert!(result.warnings.is_empty());
}

#[test]
fn a_cleanup_spares_what_is_needed_and_tells_what_it_could_not_remove() {
    let summary = backup_summary_at(&(0..7).map(|i| item(i, false, false)).collect());
    let quick = || CleanupRequest {
        include_legacy: false,
        deep_integrity: false,
        policy: unlimited(),
    };
    let (removed, _) = run_cleanup(&summary, quick(), &["/backups/6"], &[], &["/backups/0"]);
    assert_eq!(removed, vec!["/backups/1".to_string(), "/backups/2".to_string()]);
    let (removed, result) = run_cleanup(&summary, quick(), &[], &["/backups/0"], &[]);
    assert_eq!(removed, vec!["/backups/1".to_string(), "/backups/2".to_string()]);
    assert_eq!(result.removed_count, 2);
    assert!(result
        .warnings
        .contains(&"cannot remove old backup (/backups/0): denied".to_string()));
    let thorough = CleanupRequest {
        deep_integrity: true,
        ..quick()
    };
    let (removed, result) =
        run_cleanup(&summary, thorough, &["/backups/3"], &[], &["/backups/3"]);
    assert!(!removed.contains(&"/backups/3".to_string()));
    assert!(result.warnings.contains(
        &"could not remove damaged backup (/backups/3): backup checksum mismatch: state_5.sqlite; remove failed: the backup is protected"
            .to_string()
    ));
    let (state, _) = begin_cleanup(quick());
    assert!(!is_awaited(&state, &CleanupEvent::Removed(None)));
    assert!(!is_awaited(&state, &CleanupEvent::Checked(None)));
}

#[test]
fn old_kinds_go_only_on_request() {
    let mut items: Vec<BackupItem> = (1..3).map(|i| item(i, false, false)).collect();
    items.push(BackupItem::Directory(directory(
        0,
        ManifestRead::Read(manifest(3, 0, false)),
        false,
    )));
    let summary = backup_summary_at(&items);
    assert_eq!(summary.legacy_count, 1);
    let (removed, result) = clean_up(&summary, false, &unlimited(), &[]);
    assert!(removed.is_empty());
    assert_eq!(result.removed_legacy_count, 0);
    let (removed, result) = clean_up(&summary, true, &unlimited(), &[]);
    assert_eq!(removed, vec!["/backups/0".to_string()]);
    assert_eq!(result.removed_legacy_count, 1);
}

#[test]
fn damaged_backups_are_removed_with_a_warning() {
    let summary = backup_summary_at(&(0..6).map(|i| item(i, false, false)).collect());
    let (removed, result) = clean_up(&summary, false, &unlimited(), &["/backups/0"]);
    assert!(removed.contains(&"/backups/0".to_string()));
    assert!(result
        .warnings
        .iter()
        .any(|warning| warning.contains("removed damaged backup")));
    let guards = OrderedSet::from_items(vec!["/backups/0".to_string()]);
    let entry = summary
        .entries
        .iter()
        .find(|entry| entry.path == "/backups/0")
        .unwrap();
    assert_eq!(
        judge_managed(entry, &guards, &Some("bad".into())),
        ManagedVerdict::Keep
    );
}

#[test]
fn unreadable_manifests_make_a_backup_corrupt() {
    let items = vec![
        BackupItem::Directory(directory(0, ManifestRead::Invalid("eof".into()), false)),
        BackupItem::Directory(directory(1, ManifestRead::Missing, false)),
        BackupItem::Unreadable("entry".into()),
        BackupItem::Uninspectable {
            path: "/x".into(),
            error: "denied".into(),
        },
        BackupItem::Other,
    ];
    let summary = backup_summary_at(&items);
    assert!(summary.entries.iter().all(|entry| entry.status == "corrupt"));
    assert_eq!(summary.restorable_count, 0);
    assert!(summary
        .warnings
        .contains(&"cannot parse backup manifest (/backups/0/contents.json): eof".to_string()));
    let (removed, _) = clean_up(&summary, false, &unlimited(), &[]);
    assert_eq!(removed.len(), 2);
    let mut unfinished = directory(2, ManifestRead::Missing, false);
    unfinished.name = ".restore-before-20260715000000000".into();
    let summary = backup_summary_at(&vec![BackupItem::Directory(unfinished)]);
    assert_eq!(summary.entries[0].status, "incomplete");
    assert_eq!(summary.incomplete_count, 1);
    let mut ages = OrderedMap::new();
    assert!(!incomplete_backup_is_expired(&summary.entries[0], &ages));
    ages.insert("/backups/2".to_string(), u64::MAX);
    assert!(incomplete_backup_is_expired(&summary.entries[0], &ages));
    assert!(maintain_backups_at(false, &summary, &ages).is_some());
    assert!(maintain_backups_at(true, &summary, &ages).is_none());
}

#[test]
fn a_fault_found_later_makes_a_backup_corrupt() {
    let summary = backup_summary_at(&(0..2).map(|i| item(i, false, false)).collect());
    let mut faults = OrderedMap::new();
    faults.insert("/backups/1".to_string(), "bad page".to_string());
    let listed = list_backups_at(&summary, &faults);
    assert_eq!(listed.restorable_count, 1);
    assert_eq!(listed.entries[0].status, "corrupt");
    assert!(listed.warnings.iter().any(|warning| warning.contains("bad page")));
    assert_eq!(no_backups().entries.len(), 0);
}

#[test]
fn maintenance_waits_for_too_many_backups() {
    let few = backup_summary_at(&(0..5).map(|i| item(i, false, false)).collect());
    let many = backup_summary_at(&(0..6).map(|i| item(i, false, false)).collect());
    let ages = OrderedMap::new();
    assert_eq!(maintain_backups_at(false, &few, &ages), None);
    let request = maintain_backups_at(false, &many, &ages).unwrap();
    assert!(!request.include_legacy);
    assert_eq!(request.policy, standard_policy());
    assert_eq!(AUTOMATIC_BACKUP_LIMIT, 5);
    assert_eq!(MINIMUM_AUTOMATIC_BACKUPS, 2);
    assert_eq!(BACKUP_CAPACITY_LIMIT_BYTES, 250 * 1024 * 1024);
}

fn pending() -> Option<PendingOperation> {
    Some(PendingOperation {
        command: "repair".into(),
        backup_path: "/backups/1".into(),
        created_at: "now".into(),
        phase: None,
        repair_journal: None,
    })
}

#[test]
fn pending_operations_block_cleanup_and_pinning() {
    assert!(cleanup_backups_at(&pending(), true).is_err());
    assert!(cleanup_backups_at(&None, true).unwrap().include_legacy);
    let made = manifest(6, 0, false);
    assert!(set_backup_pinned_at(false, &made, true).unwrap().pinned);
    assert!(set_backup_pinned_at(true, &made, true).is_err());
}

#[test]
fn names_of_backups_are_recognised() {
    assert!(is_repair_backup_name("repair-20260715-000001-000"));
    assert!(!is_repair_backup_name("repair-20260715-000001-00"));
    let gone = backup_removal_name("repair-20260715-000001-000", 42, "20260715000000000");
    assert_eq!(gone, ".deleting-repair-20260715-000001-000-42-20260715000000000");
    assert!(is_cleanup_quarantine_name(&gone));
    assert!(is_known_incomplete_backup_name(&gone));
    assert!(is_managed_backup_name(&gone));
    assert_eq!(backup_removal_name(&gone, 1, "x"), gone);
    assert!(!is_managed_backup_name("notes"));
}

#[test]
fn manifests_are_checked_for_what_they_need() {
    let made = manifest(6, 0, false);
    let files = BackupFiles {
        regular: vec![true],
        projection_file: false,
        style: PathStyle::Unix,
    };
    assert!(is_restorable_backup(&made, &files));
    assert!(backs_up_expected(&made.files, 6));
    assert!(!backs_up_expected(&made.files, 5));
    let gone = BackupFiles {
        regular: vec![false],
        projection_file: false,
        style: PathStyle::Unix,
    };
    assert!(!is_restorable_backup(&made, &gone));
    assert!(validate_backup_manifest_version(&made).is_ok());
    assert_eq!(
        validate_backup_manifest_version(&manifest(7, 0, false)).unwrap_err(),
        "unsupported backup manifest version: 7"
    );
}

fn columns(names: &[&str]) -> OrderedSet<String> {
    OrderedSet::from_items(names.iter().map(|name| name.to_string()).collect())
}

fn state_columns() -> OrderedSet<String> {
    columns(&[
        "id",
        "rollout_path",
        "model_provider",
        "archived",
        "source",
        "thread_source",
        "has_user_event",
    ])
}

fn sound() -> CheckedFile {
    CheckedFile {
        missing: None,
        is_file: true,
        size: 10,
        sha256: Some("d".into()),
        contents: FileContents::Database { check: "ok".into(), columns: state_columns() },
    }
}

fn tables() -> BackupTables {
    BackupTables { state: Ok(state_columns()), catalog: Err("no catalog".into()) }
}

#[test]
fn listing_looks_at_columns_and_asks_no_database_to_check_itself() {
    let made = manifest(6, 0, false);
    let check = |file: CheckedFile| {
        validate_backup_surface(&made, true, &vec![file], &sound(), &tables())
    };
    let mut damaged = sound();
    damaged.sha256 = Some("e".into());
    damaged.contents = FileContents::Database {
        check: "row 1 missing from index".into(),
        columns: state_columns(),
    };
    assert_eq!(check(damaged), None);
    let mut damaged = sound();
    damaged.contents = FileContents::Database {
        check: "row 1 missing from index".into(),
        columns: state_columns(),
    };
    assert_eq!(
        validate_backup_integrity(&made, true, &vec![damaged], &sound(), &None, &None),
        Some("SQLite quick_check failed: row 1 missing from index".to_string())
    );
    let mut poor = sound();
    poor.contents = FileContents::Database { check: "ok".into(), columns: columns(&["id"]) };
    assert_eq!(
        check(poor),
        Some("unsupported threads schema: missing rollout_path".to_string())
    );
    let mut closed = sound();
    closed.contents = FileContents::Fault("not a database".into());
    assert_eq!(check(closed), Some("not a database".to_string()));
    let mut found = tables();
    found.state = Ok(columns(&["id"]));
    assert_eq!(
        validate_backup_surface(&made, true, &vec![sound()], &sound(), &found),
        Some("unsupported threads schema: missing rollout_path".to_string())
    );
}

#[test]
fn backups_are_inspected() {
    let made = manifest(6, 0, false);
    let check = |file: CheckedFile| {
        validate_backup_surface(&made, true, &vec![file], &sound(), &tables())
    };
    assert_eq!(check(sound()), None);
    let mut wrong = sound();
    wrong.size = 11;
    assert_eq!(
        check(wrong),
        Some("backup size mismatch: state_5.sqlite (expected 10, got 11)".to_string())
    );
    let mut wrong = sound();
    wrong.missing = Some("gone".into());
    assert_eq!(
        check(wrong),
        Some("backup file missing (state_5.sqlite): gone".to_string())
    );
    let mut damaged = sound();
    damaged.sha256 = Some("e".into());
    assert_eq!(
        validate_backup_integrity(&made, true, &vec![damaged], &sound(), &None, &None),
        Some("backup checksum mismatch: state_5.sqlite".to_string())
    );
    assert_eq!(
        validate_backup_integrity(&made, false, &vec![sound()], &sound(), &None, &None),
        Some("backup manifest or required files are incomplete".to_string())
    );
    assert_eq!(
        validate_backup_integrity(
            &made,
            true,
            &vec![sound()],
            &sound(),
            &Some("unsupported threads schema: missing source".into()),
            &None
        ),
        Some("unsupported threads schema: missing source".to_string())
    );
    assert_eq!(check_for_file("state_5.sqlite"), FileCheck::StateDatabase);
    assert_eq!(check_for_file("x.sqlite"), FileCheck::Database);
    assert_eq!(check_for_file(".codex-global-state.json"), FileCheck::GlobalState);
    assert_eq!(check_for_file("sqlite/codex-dev.db"), FileCheck::Unopened);
    assert_eq!(backup_copy_name("sqlite/codex-dev.db"), "sqlite_codex-dev.db");
}

#[test]
fn only_directories_of_this_tool_are_touched() {
    assert_eq!(
        ensure_backup_root("/b", &RootFound::Directory, false),
        Ok(RootStep::UseIt)
    );
    assert_eq!(
        ensure_backup_root("/b", &RootFound::Missing("no".into()), true),
        Ok(RootStep::Create)
    );
    assert!(ensure_backup_root("/b", &RootFound::Missing("no".into()), false).is_err());
    assert!(ensure_backup_root("/b", &RootFound::Symlink, true).is_err());
    assert!(check_root_inside("/b", false).is_err());
    assert_eq!(
        backup_directory_at("/b", &RootFound::Missing("no".into())),
        Ok(RootStep::Create)
    );
    let child = |name: &str| ChildFound::Directory {
        below_root: true,
        name: Some(name.into()),
    };
    assert!(validate_backup_child("/b/x", &child("repair-20260715-000001-000")).is_ok());
    assert!(validate_backup_child("/b/x", &child("notes")).is_err());
    assert!(validate_backup_child("/b/x", &ChildFound::NotDirectory).is_err());
    assert_eq!(
        backup_directory_size(&vec![TreeItem::File(2), TreeItem::Other, TreeItem::File(3)]),
        Ok(5)
    );
    assert!(backup_directory_size(&vec![TreeItem::Symlink("/l".into())]).is_err());
}

#[test]
fn the_latest_sound_backup_is_chosen() {
    let found = vec![
        BackupCandidate {
            name: "repair-20260715-000001-000".into(),
            path: "/b/1".into(),
            restorable: true,
        },
        BackupCandidate {
            name: "repair-20260715-000003-000".into(),
            path: "/b/3".into(),
            restorable: true,
        },
        BackupCandidate {
            name: "repair-20260715-000004-000".into(),
            path: "/b/4".into(),
            restorable: false,
        },
    ];
    let candidates = backup_candidates(&found);
    assert_eq!(candidates, vec!["/b/3".to_string(), "/b/1".to_string()]);
    let none = OrderedSet::new();
    assert_eq!(latest_backup(&candidates, &none), Some("/b/3".to_string()));
    let faults = OrderedSet::from_items(vec!["/b/3".to_string()]);
    assert_eq!(latest_backup(&candidates, &faults), Some("/b/1".to_string()));
    assert_eq!(
        safe_backup_path(&None, false, &Some("/b/1".into())).unwrap().path,
        "/b/1"
    );
    assert!(safe_backup_path(&None, false, &None).is_err());
    assert!(safe_backup_path(&Some("rel".into()), false, &None).unwrap().below_home);
    assert_eq!(restore_target_is_file("/t", &TargetFound::File), Ok(true));
    assert_eq!(restore_target_is_file("/t", &TargetFound::Missing), Ok(false));
    assert!(restore_target_is_file("/t", &TargetFound::Symlink).is_err());
}

fn source() -> SnapshotSource {
    let mut slots = OrderedMap::new();
    slots.insert(
        "sessions/one.jsonl".to_string(),
        SlotRead::Provider(Some("custom".into())),
    );
    SnapshotSource {
        home: "/home".into(),
        state_path: "/home/state_5.sqlite".into(),
        state: StateCopy::Copied,
        projection_path: "/home/p".into(),
        projection_copy_path: "/b/p".into(),
        projection: ProjectionCopy::Missing,
        files: vec![FoundFile {
            relative: "state_5.sqlite".into(),
            recorded: "/b/state_5.sqlite".into(),
            size: SizeRead::Known(10),
            modified: None,
            sha256: Some("d".into()),
        }],
        user_version: Some(3),
        rollouts: vec![RepairRolloutJournal {
            thread_id: "one".into(),
            path: "sessions/one.jsonl".into(),
            archived: false,
            before_provider: Some("custom".into()),
            after_provider: Some("openai".into()),
        }],
        slots,
        provider: "openai".into(),
        created_at: "2026-07-15T00:00:00+08:00".into(),
        destination: "/b".into(),
        manifest_path: "/b/contents.json".into(),
    }
}

#[test]
fn a_backup_keeps_what_it_read() {
    let (made, result) = create_backup_snapshot(&source(), BackupKind::RestoreSafety, false).unwrap();
    assert_eq!(made.version, 6);
    assert_eq!(made.kind, BackupKind::RestoreSafety);
    assert_eq!(made.rollout_provider_preimages.len(), 1);
    assert_eq!(made.sqlite_user_versions.get(&"state_5.sqlite".to_string()), Some(&3));
    assert_eq!(result.files, vec!["state_5.sqlite".to_string()]);
    let (made, _) = create_backup_at(&source()).unwrap();
    assert!(made.pinned);
    assert_eq!(made.kind, BackupKind::Manual);
    let mut changed = source();
    changed.slots.insert(
        "sessions/one.jsonl".to_string(),
        SlotRead::Provider(Some("other".into())),
    );
    assert!(create_backup_at(&changed).unwrap_err().contains("rollout changed before backup: one"));
    let mut missing = source();
    missing.state = StateCopy::Missing;
    assert_eq!(
        create_backup_at(&missing).unwrap_err(),
        "complete backup unavailable: /home/state_5.sqlite is missing"
    );
    assert!(file_is_backed_up("state_5.sqlite"));
    assert!(!file_is_backed_up("config.toml"));
}

#[test]
fn space_is_checked_before_a_backup() {
    assert!(ensure_backup_free_space(0, u64::MAX).is_ok());
    let refused = ensure_backup_free_space(1, 0).unwrap_err();
    assert!(refused.contains("insufficient disk space for a safe recovery backup"));
    assert!(estimate_backup_bytes(10, 4096, 5, 7) >= 40960 + 5 + 7);
    assert!(estimate_manifest_bytes(&vec!["a".into()], &vec![], &vec![]) > 0);
    assert_eq!(estimate_backup_bytes(u64::MAX, 2, 0, 0), u64::MAX);
}

fn owner(current: bool) -> BlockingProcess {
    BlockingProcess {
        identity: ProcessIdentity {
            pid: 7,
            name: "codex.exe".into(),
            path: None,
            started_at: None,
            parent_pid: None,
            session_id: None,
            verified: true,
            is_current: current,
            is_ancestor: false,
        },
        application_type: "console".into(),
        application_root_pid: None,
        service_name: None,
        restartable: false,
        close_allowed: false,
        close_reason: String::new(),
    }
}

#[test]
fn backups_on_request_wait_for_owners() {
    let none: Vec<BlockingProcess> = vec![];
    assert_eq!(
        create_backup_safe_at(SafeBackupStage::Unlocked, &None, &none, &None),
        None
    );
    assert_eq!(
        create_backup_safe_at(SafeBackupStage::Unlocked, &None, &vec![owner(false)], &None),
        Some("backup blocked by active SQLite owners: codex.exe (7)".to_string())
    );
    assert_eq!(
        create_backup_safe_at(SafeBackupStage::Unlocked, &pending(), &none, &None),
        Some("backup blocked until incomplete repair is recovered from /backups/1".to_string())
    );
    assert_eq!(
        create_backup_safe_at(SafeBackupStage::Locked, &None, &vec![owner(false)], &None),
        Some("backup aborted because a SQLite owner started after locking".to_string())
    );
    assert_eq!(
        create_backup_safe_at(SafeBackupStage::Made, &None, &vec![owner(true)], &None),
        None
    );
    assert_eq!(
        create_backup_safe_at(SafeBackupStage::Made, &None, &vec![owner(false)], &None),
        Some("backup discarded because a SQLite owner appeared during the snapshot".to_string())
    );
}

#[test]
fn preimages_must_lie_inside() {
    let mut made = manifest(6, 0, false);
    made.rollout_provider_preimages.push(RepairRolloutJournal {
        thread_id: "one".into(),
        path: "sessions/one.jsonl".into(),
        archived: false,
        before_provider: Some("custom".into()),
        after_provider: Some("openai".into()),
    });
    let files = BackupFiles {
        regular: vec![true],
        projection_file: false,
        style: PathStyle::Unix,
    };
    assert!(is_restorable_backup(&made, &files));
    for outside in ["/sessions/one.jsonl", "sessions/../one.jsonl", "archived_sessions/one.jsonl"] {
        made.rollout_provider_preimages[0].path = outside.into();
        assert!(!is_restorable_backup(&made, &files), "{outside}");
    }
}

use provider_hub::access::{
    acquire_dual_sqlite_write_fence, acquire_global_state, check_copy, check_global_copy,
    check_global_file, check_global_overwrite,
    check_global_write, copy_is_stale, open_sqlite_light, open_sqlite_safe_snapshot,
    restore_projection_state, FileMark, OpenOutcome, OpenStep, ProjectionRestore,
};
use provider_hub::digest::hash_contents;
use provider_hub::locks::{
    check_revealed_rollout, home_hash, inspect_lock, inspect_operation_lock, lock_summary,
    operation_lock_fault, operation_lock_path, LockFound, LockMetadata,
};
use provider_hub::ordered::OrderedSet;
use provider_hub::schema::{
    ensure_home_sqlite_path, select_expr, select_time_expr, sqlite_light_uri, sqlite_path_uri,
    sqlite_quick_check, state_insert_supports_column, validate_repair_schema,
    validate_repair_schema_connections, validate_state_insert_schema,
    validate_state_repair_schema, DatabaseFound, TableColumnInfo,
};

#[test]
fn busy_databases_are_tried_again() {
    let busy = OpenOutcome::Busy("locked".into());
    assert_eq!(open_sqlite_light("/s", 0, &busy), OpenStep::Retry(25));
    assert_eq!(open_sqlite_light("/s", 6, &busy), OpenStep::Retry(25));
    assert_eq!(
        open_sqlite_light("/s", 7, &busy),
        OpenStep::Refuse("database is busy while opening /s (locked)".into())
    );
    assert_eq!(
        open_sqlite_light("/s", 0, &OpenOutcome::Failed("bad".into())),
        OpenStep::Refuse("/s: bad".into())
    );
    assert_eq!(open_sqlite_light("/s", 0, &OpenOutcome::Opened), OpenStep::Ready);
    assert_eq!(acquire_dual_sqlite_write_fence(0, &busy), OpenStep::Retry(125));
    match acquire_dual_sqlite_write_fence(1, &busy) {
        OpenStep::Refuse(message) => assert!(message.contains("SQLITE_BUSY")),
        other => panic!("unexpected step {other:?}"),
    }
    assert_eq!(
        acquire_dual_sqlite_write_fence(0, &OpenOutcome::Failed("bad".into())),
        OpenStep::Refuse("cannot start the online repair transaction: bad".into())
    );
    assert_eq!(open_sqlite_safe_snapshot(0, &None), OpenStep::Ready);
    assert_eq!(
        open_sqlite_safe_snapshot(2, &Some("changed".into())),
        OpenStep::Retry(0)
    );
    assert_eq!(
        open_sqlite_safe_snapshot(3, &Some("changed".into())),
        OpenStep::Refuse("changed".into())
    );
    assert!(copy_is_stale(&Some(3601)));
    assert!(!copy_is_stale(&Some(3600)));
    assert!(!copy_is_stale(&None));
}

#[test]
fn a_copy_of_a_changing_database_is_refused() {
    let mark = |length| Some(FileMark { length, modified: 1 });
    assert_eq!(check_copy("/s", &vec![mark(1), None], &vec![mark(1), None]), None);
    assert_eq!(
        check_copy("/s", &vec![None], &vec![None]),
        Some("SQLite file not found: /s".to_string())
    );
    assert_eq!(
        check_copy("/s", &vec![mark(1), None], &vec![mark(1), mark(2)]),
        Some("SQLite changed while snapshotting: /s".to_string())
    );
}

#[test]
fn the_global_state_is_guarded() {
    assert_eq!(check_global_file("/g", &DatabaseFound::Regular, true), None);
    assert_eq!(
        check_global_file("/g", &DatabaseFound::Regular, false),
        Some("global state escapes CODEX_HOME: /g".to_string())
    );
    assert_eq!(
        check_global_file("/g", &DatabaseFound::Symlink, true),
        Some("global state is not a regular file: /g".to_string())
    );
    assert_eq!(
        check_global_file("/g", &DatabaseFound::Unavailable("gone".into()), true),
        Some("global state is unavailable (/g): gone".to_string())
    );
    let digest = "44136fa355b3678a1146ad16f7e8649e94fb4fc21fe77e8310c060f61caaff8a";
    assert_eq!(acquire_global_state(b"{}", &Some(digest.into())), None);
    assert_eq!(acquire_global_state(b"{}", &None), None);
    assert_eq!(
        acquire_global_state(b"{ }", &Some(digest.into())),
        Some("global state changed after planning; refresh the preview".to_string())
    );
    assert_eq!(
        acquire_global_state(b"{", &None),
        Some("invalid global state JSON: EOF while parsing an object at line 1 column 1".to_string())
    );
    assert_eq!(check_global_overwrite(b"{}"), None);
    assert_eq!(
        check_global_overwrite(b"{"),
        Some(
            "refusing to write invalid global state JSON: EOF while parsing an object at line 1 column 1"
                .to_string()
        )
    );
    assert_eq!(check_global_copy(b"[1]"), None);
    assert!(check_global_copy(b"nope").unwrap().starts_with("invalid global state backup: "));
    assert_eq!(hash_contents(b"{}"), digest);
    assert_eq!(check_global_write(b"a", b"a"), None);
    assert_eq!(
        check_global_write(b"a", b"b"),
        Some("global state write verification failed".to_string())
    );
}

#[test]
fn a_store_is_restored_only_as_the_manifest_says() {
    let regular = DatabaseFound::Regular;
    let some = Some("d".to_string());
    assert_eq!(
        restore_projection_state(false, true, "/p", &regular, &None, &None),
        Ok(ProjectionRestore::Remove)
    );
    assert_eq!(
        restore_projection_state(false, false, "/p", &regular, &None, &None),
        Ok(ProjectionRestore::Nothing)
    );
    assert_eq!(
        restore_projection_state(true, true, "/p", &regular, &some, &some),
        Ok(ProjectionRestore::Save)
    );
    assert_eq!(
        restore_projection_state(true, true, "/p", &regular, &None, &some).unwrap_err(),
        "projection state checksum is missing"
    );
    assert_eq!(
        restore_projection_state(true, true, "/p", &regular, &some, &None).unwrap_err(),
        "cannot hash projection state backup"
    );
    assert_eq!(
        restore_projection_state(true, true, "/p", &regular, &some, &Some("e".into())).unwrap_err(),
        "projection state checksum mismatch"
    );
    assert_eq!(
        restore_projection_state(true, true, "/p", &DatabaseFound::Symlink, &some, &some)
            .unwrap_err(),
        "unsafe projection state backup: /p"
    );
}

fn names(names: &[&str]) -> OrderedSet<String> {
    OrderedSet::from_items(names.iter().map(|name| name.to_string()).collect())
}

const STATE: [&str; 7] = [
    "id",
    "rollout_path",
    "model_provider",
    "archived",
    "source",
    "thread_source",
    "has_user_event",
];

#[test]
fn schemas_are_checked_before_writing() {
    assert_eq!(sqlite_quick_check("ok"), None);
    assert_eq!(
        sqlite_quick_check("bad page"),
        Some("SQLite quick_check failed: bad page".to_string())
    );
    assert_eq!(validate_state_repair_schema("ok", &names(&STATE)), None);
    assert_eq!(
        validate_state_repair_schema("ok", &names(&STATE[..6])),
        Some("unsupported threads schema: missing has_user_event".to_string())
    );
    let catalog = names(&[
        "host_id",
        "thread_id",
        "display_title",
        "source_created_at",
        "source_updated_at",
        "cwd",
        "source_kind",
        "source_detail",
        "model_provider",
        "git_branch",
        "observation_sequence",
        "missing_candidate",
    ]);
    let sync = names(&["host_id", "observation_sequence"]);
    let metadata = names(&["id", "catalog_revision"]);
    assert_eq!(
        validate_repair_schema_connections("ok", &names(&STATE), "ok", &catalog, &sync, &metadata),
        None
    );
    assert_eq!(
        validate_repair_schema_connections(
            "ok",
            &names(&STATE),
            "ok",
            &catalog,
            &sync,
            &names(&["id"])
        ),
        Some("unsupported catalog schema: local_thread_catalog_metadata.catalog_revision missing".to_string())
    );
    assert!(state_insert_supports_column("model_provider"));
    assert!(!state_insert_supports_column("surprise"));
    let column = |name: &str, not_null: bool| TableColumnInfo {
        name: name.into(),
        not_null,
        default_value: None,
    };
    let mut columns: Vec<TableColumnInfo> = [
        "id",
        "rollout_path",
        "created_at",
        "updated_at",
        "source",
        "model_provider",
        "cwd",
        "title",
        "archived",
        "thread_source",
        "has_user_event",
    ]
    .iter()
    .map(|name| column(name, true))
    .collect();
    let plain = validate_state_insert_schema(&columns);
    columns.push(column("surprise", true));
    let strict = validate_state_insert_schema(&columns);
    assert_eq!(plain, None);
    assert!(strict.unwrap().contains("surprise"));
}

#[test]
fn database_paths_are_checked() {
    assert_eq!(ensure_home_sqlite_path("/s", &DatabaseFound::Regular, true), None);
    assert_eq!(
        ensure_home_sqlite_path("/s", &DatabaseFound::Symlink, true),
        Some("SQLite path is a symlink: /s".to_string())
    );
    assert_eq!(
        ensure_home_sqlite_path("/s", &DatabaseFound::Regular, false),
        Some("SQLite path escapes CODEX_HOME: /s".to_string())
    );
    assert_eq!(
        validate_repair_schema("/s", &DatabaseFound::NotRegular),
        Some("unsafe state SQLite path: /s".to_string())
    );
    let columns = names(&["a", "created_at"]);
    assert_eq!(select_expr(&columns, "a", "0"), "\"a\"");
    assert_eq!(select_expr(&columns, "b", "0"), "0");
    assert_eq!(
        select_time_expr(&columns, "created_at_ms", "created_at"),
        "COALESCE(\"created_at\", 0)"
    );
    assert_eq!(
        sqlite_path_uri("/a b/ü.db", "mode=ro"),
        "file:/a%20b/%C3%BC.db?mode=ro"
    );
    assert_eq!(
        sqlite_light_uri("/a.db", false),
        "file:/a.db?mode=ro&immutable=1"
    );
    assert_eq!(sqlite_light_uri("/a.db", true), "file:/a.db?mode=ro");
}

#[test]
fn locks_are_told_by_who_holds_them() {
    let metadata = LockMetadata {
        pid: 42,
        started_at: Some(7),
        command: "repair".into(),
        created_at: 100,
    };
    let held =
        inspect_operation_lock("/l", &LockFound::Held(Some(metadata)), 130).unwrap();
    assert_eq!(held.state, "active");
    assert_eq!(held.owner_pid, Some(42));
    assert_eq!(held.age_seconds, Some(30));
    let free = inspect_operation_lock("/l", &LockFound::Free, 130);
    assert_eq!(free.as_ref().unwrap().state, "clear");
    assert_eq!(
        inspect_operation_lock("/l", &LockFound::Missing, 130).unwrap().state,
        "clear"
    );
    assert!(inspect_operation_lock("/l", &LockFound::Failed("no".into()), 130).is_err());
    assert_eq!(lock_summary(&free, vec![]).state, "clear");
    assert_eq!(lock_summary(&free, vec!["codex.exe".into()]).state, "process-active");
    assert_eq!(inspect_lock(&free, &None).state, "process-active");
    assert_eq!(
        operation_lock_fault(true, "x"),
        "another Provider Hub operation is already active"
    );
    assert_eq!(operation_lock_fault(false, "x"), "cannot acquire operation lock: x");
    assert_eq!(home_hash("/a"), home_hash("/a"));
    assert_ne!(home_hash("/a"), home_hash("/b"));
    assert!(operation_lock_path(&None, "/a").is_err());
    let parts = operation_lock_path(&Some("/local".into()), "/a").unwrap();
    assert!(parts.last().unwrap().contains(&home_hash("/a")));
    assert_eq!(check_revealed_rollout(&Some("jsonl".into()), true), None);
    assert!(check_revealed_rollout(&Some("txt".into()), true).is_some());
    assert!(check_revealed_rollout(&Some("jsonl".into()), false).is_some());
}

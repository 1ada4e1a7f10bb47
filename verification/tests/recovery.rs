use provider_hub::backups::{BackupKind, BackupManifest, ManifestFile};
use provider_hub::digest::hash_contents;
use provider_hub::journal::{
    build_repair_journal, catalog_journal_image_state, check_rollout_count, journal_image_state,
    repair_catalog_keys, repair_state_keys, rewrite_rollout_provider, rollout_journal_from_update,
    rollout_path_from_relative, rollout_relative_path, show_slot, slot_journal_state,
    sort_rollout_rows,
    state_image_provider, watermark_journal_image_state, JournalImageState,
    PendingOperation, RepairCatalogImage, RepairCatalogJournal, RepairJournal, RepairPhase,
    RepairJsonSlot, RepairRolloutJournal, RepairSqlValue, RepairStateImage, RepairStateJournal,
    RepairStateRowImages, RolloutRewrite,
};
use provider_hub::json::parse_json;
use provider_hub::ordered::OrderedMap;
use provider_hub::paths::{find_extension, find_parts, PathPart, PathStyle};
use provider_hub::planning::{CatalogDelete, CatalogUpdate, RepairPlan, RolloutUpdate, StateDelete, StateUpdate};
use provider_hub::projection::{ProjectionStore, SourceProvider};
use provider_hub::recovery::{
    check_recovery, discard_aborted_repair_backup, finish_failed_online_repair, join_all,
    observe_states, recover_pending_repair, report_undo, ObservedRows, PendingRecoveryIntent,
    PendingRepairResolution, RecoveryAction, RecoveryGate, RecoveryPlan,
};
use provider_hub::restore::{
    capture_restore_rollout_images, check_restored_global, is_awaited,
    recover_restore_rollout_image, recover_restore_rollout_images,
    restore_backup_at, restore_backup_operation_at, restore_backup_unchecked, restore_latest_at,
    safety_rollout_updates_for_restore, start_restore_write, successful_restore_result,
    ImageRecovery, RestoreAction, RestoreEvent, RestoreStep, RolloutAt,
};
use provider_hub::sessions::StateInsert;
use provider_hub::snapshots::SlotRead;
use provider_hub::statements::{
    apply_plan_with_fence, check_undo_write, check_write_count, insert_state_journal_image,
    quoted_identifier, restore_state_journal_image, state_insert_statement, timestamp_millis,
    WriteCounts, WriteGroup,
};
use provider_hub::writes::{
    apply_catalog_deletes, apply_catalog_updates, apply_state_deletes, apply_state_updates,
    insert_catalog_journal_image, undo_statement,
};

fn image(provider: &str) -> RepairStateImage {
    let mut values = OrderedMap::new();
    values.insert("id".to_string(), RepairSqlValue::Text("one".into()));
    values.insert("model_provider".to_string(), RepairSqlValue::Text(provider.into()));
    RepairStateImage { values }
}

fn store(version: u64) -> ProjectionStore {
    ProjectionStore {
        schema_version: 1,
        projection_version: version,
        target_provider: SourceProvider::OpenAi,
        timestamp: 1,
        threads: OrderedMap::new(),
    }
}

fn rollout_row() -> RepairRolloutJournal {
    RepairRolloutJournal {
        thread_id: "one".into(),
        path: "sessions/one.jsonl".into(),
        archived: false,
        before_provider: Some("custom".into()),
        after_provider: Some("openai".into()),
    }
}

fn journal() -> RepairJournal {
    RepairJournal {
        version: 5,
        target_provider: "openai".into(),
        state_rows: vec![RepairStateJournal {
            thread_id: "one".into(),
            before_provider: "custom".into(),
            after_provider: "openai".into(),
            row_images: Some(RepairStateRowImages {
                before: Some(image("custom")),
                after: Some(image("openai")),
            }),
        }],
        rollout_rows: vec![rollout_row()],
        catalog_rows: vec![],
        catalog_watermarks: None,
        workspace_hints: vec![],
        projection_before: None,
        projection_after: store(1),
    }
}

fn observed(state: &str, rollout: &str, projection: Option<ProjectionStore>) -> ObservedRows {
    ObservedRows {
        state_images: vec![Some(image(state))],
        state_providers: vec![Some(state.into())],
        rollout_providers: vec![Some(rollout.into())],
        catalog_images: vec![],
        watermarks: None,
        workspace_hints: OrderedMap::new(),
        projection,
    }
}

#[test]
fn an_untouched_repair_is_cleared_and_a_whole_one_finalized() {
    let resume = PendingRecoveryIntent::Resume;
    assert_eq!(
        recover_pending_repair(
            &journal(),
            Some(RepairPhase::Prepared),
            resume,
            &observed("custom", "custom", None)
        ),
        RecoveryPlan::ClearJournal
    );
    assert_eq!(
        recover_pending_repair(
            &journal(),
            Some(RepairPhase::Committed),
            resume,
            &observed("openai", "openai", Some(store(1)))
        ),
        RecoveryPlan::FinalizeJournal
    );
}

#[test]
fn a_half_written_repair_is_taken_back_but_for_later_changes() {
    let plan = recover_pending_repair(
        &journal(),
        Some(RepairPhase::Prepared),
        PendingRecoveryIntent::Resume,
        &observed("external", "openai", Some(store(1))),
    );
    match plan {
        RecoveryPlan::Compensate { mark, actions, conflicts } => {
            assert!(mark);
            assert_eq!(conflicts, vec!["state:one".to_string()]);
            assert_eq!(
                actions,
                vec![
                    RecoveryAction::Rollout(rollout_row()),
                    RecoveryAction::Projection(None)
                ]
            );
        }
        other => panic!("unexpected plan {other:?}"),
    }
    assert!(report_undo(&vec!["state:one".into()]).is_err());
    assert_eq!(report_undo(&vec![]), Ok(PendingRepairResolution::Compensated));
    let names: Vec<String> = observe_states(&journal(), &observed("custom", "openai", None))
        .into_iter()
        .map(|state| state.name)
        .collect();
    assert_eq!(
        names,
        vec!["state:one".to_string(), "rollout:one".to_string(), "projection-state".to_string()]
    );
}

#[test]
fn a_rollback_takes_a_finished_repair_back() {
    let plan = recover_pending_repair(
        &journal(),
        Some(RepairPhase::VerificationFailed),
        PendingRecoveryIntent::Rollback,
        &observed("openai", "openai", Some(store(1))),
    );
    match plan {
        RecoveryPlan::Compensate { actions, conflicts, .. } => {
            assert!(conflicts.is_empty());
            assert_eq!(actions.len(), 3);
        }
        other => panic!("unexpected plan {other:?}"),
    }
}

fn pending(phase: Option<RepairPhase>, version: u32) -> PendingOperation {
    let mut journal = journal();
    journal.version = version;
    PendingOperation {
        command: "repair".into(),
        backup_path: "/b".into(),
        created_at: "now".into(),
        phase,
        repair_journal: Some(journal),
    }
}

#[test]
fn failed_verifications_stay_until_they_are_rolled_back() {
    let failed = pending(Some(RepairPhase::VerificationFailed), 5);
    assert_eq!(
        check_recovery(&failed, PendingRecoveryIntent::Resume),
        Ok(RecoveryGate::KeepFailed)
    );
    assert_eq!(
        check_recovery(&failed, PendingRecoveryIntent::Rollback),
        Ok(RecoveryGate::Proceed)
    );
    assert_eq!(
        check_recovery(&pending(None, 9), PendingRecoveryIntent::Resume),
        Err("unsupported online repair journal version: 9".to_string())
    );
    let mut empty = pending(None, 5);
    empty.repair_journal = None;
    assert_eq!(
        check_recovery(&empty, PendingRecoveryIntent::Resume),
        Err("online repair pending journal is missing".to_string())
    );
}

#[test]
fn failures_are_reported_with_what_is_left() {
    let settled = |resolution| Ok(resolution);
    assert_eq!(
        finish_failed_online_repair("c", &settled(PendingRepairResolution::Compensated), "/b"),
        ("c; all partial changes were reverted".to_string(), true)
    );
    let (message, discards) =
        finish_failed_online_repair("c", &settled(PendingRepairResolution::CommittedFinalized), "/b");
    assert!(message.ends_with("The repair snapshot remains at /b"));
    assert!(!discards);
    let (message, discards) = finish_failed_online_repair("c", &Err("x".into()), "/b");
    assert!(message.contains("could not finish: x"));
    assert!(!discards);
    assert_eq!(discard_aborted_repair_backup("r", &None, "/b"), "r");
    assert_eq!(
        discard_aborted_repair_backup("r", &Some("e".into()), "/b"),
        "r; failed to discard the unused repair snapshot /b: e"
    );
    assert_eq!(join_all(&vec!["a".into(), "b".into()], ", "), "a, b");
}

#[test]
fn images_tell_before_from_after() {
    assert_eq!(journal_image_state(&1usize, &1, &2), JournalImageState::Before);
    assert_eq!(journal_image_state(&2usize, &1, &2), JournalImageState::After);
    assert_eq!(journal_image_state(&1usize, &1, &1), JournalImageState::Both);
    assert_eq!(journal_image_state(&3usize, &1, &2), JournalImageState::Conflict);
    assert_eq!(watermark_journal_image_state(9, 1, 2), JournalImageState::CompatibleAfter);
    assert_eq!(watermark_journal_image_state(0, 1, 2), JournalImageState::Conflict);
    let before = Some(catalog_image("custom", 1));
    let after = Some(catalog_image("openai", 2));
    let later = Some(catalog_image("openai", 7));
    assert_eq!(
        catalog_journal_image_state(&later, &before, &after),
        JournalImageState::CompatibleAfter
    );
    assert_eq!(
        catalog_journal_image_state(&None, &before, &after),
        JournalImageState::Conflict
    );
    assert_eq!(state_image_provider(&Some(image("custom"))), Some("custom".to_string()));
}

fn catalog_image(provider: &str, sequence: i64) -> RepairCatalogImage {
    RepairCatalogImage {
        host_id: "local".into(),
        thread_id: "one".into(),
        display_title: "One".into(),
        source_created_at: "0.0".into(),
        source_updated_at: "0.0".into(),
        cwd: String::new(),
        source_kind: "cli".into(),
        source_detail: None,
        model_provider: provider.into(),
        git_branch: None,
        observation_sequence: sequence,
        missing_candidate: false,
    }
}

#[test]
fn rollouts_are_rewritten_only_from_the_expected_provider() {
    let some = |id: &str| Some(id.to_string());
    let id = "one".to_string();
    assert_eq!(
        rewrite_rollout_provider(&id, &some("custom"), &some("custom"), &some("openai")),
        Ok(RolloutRewrite::Write { provider: "openai".into() })
    );
    assert_eq!(
        rewrite_rollout_provider(&id, &some("custom"), &some("custom"), &None),
        Ok(RolloutRewrite::Remove { expected: "custom".into() })
    );
    assert!(rewrite_rollout_provider(&id, &some("x"), &some("custom"), &some("openai")).is_err());
    assert_eq!(
        rewrite_rollout_provider(&id, &some("openai"), &some("openai"), &some("openai")),
        Ok(RolloutRewrite::Unchanged)
    );
    assert_eq!(check_rollout_count(2, 2), Ok(2));
    assert_eq!(
        check_rollout_count(1, 2),
        Err("rollout update count mismatch: expected 2, got 1".to_string())
    );
    assert_ne!(show_slot(&None), show_slot(&some("x")));
}

#[test]
fn rollout_paths_stay_inside_the_home() {
    let unix = PathStyle::Unix;
    let read = |path: &str| rollout_path_from_relative(path, unix);
    assert_eq!(read("sessions/one.jsonl"), Ok(false));
    assert_eq!(read("archived_sessions/2026/one.JSONL"), Ok(true));
    assert_eq!(read("sessions//./one.jsonl/."), Ok(false));
    for outside in ["/sessions/one.jsonl", "../one.jsonl", "sessions/../one.jsonl", "./sessions/a.jsonl"] {
        assert_eq!(read(outside), Err(format!("unsafe rollout path in journal: {outside}")));
    }
    for other in ["logs/one.jsonl", "", "C:/sessions/one.jsonl", "sessions\\one.jsonl"] {
        assert_eq!(read(other), Err(format!("unsafe rollout root in journal: {other}")));
    }
    for wrong in ["sessions/one.json", "sessions/.jsonl", "sessions/one", "sessions"] {
        assert_eq!(read(wrong), Err(format!("journal rollout is not JSONL: {wrong}")));
    }
    assert_eq!(rollout_path_from_relative("sessions\\one.jsonl", PathStyle::Windows), Ok(false));
    assert!(rollout_path_from_relative("C:sessions/one.jsonl", PathStyle::Windows).is_err());
    assert!(rollout_path_from_relative("\\sessions\\one.jsonl", PathStyle::Windows).is_err());
    assert_eq!(
        rollout_relative_path(&Some("sessions/one.jsonl".into()), "/h/sessions/one.jsonl", unix),
        Ok("sessions/one.jsonl".to_string())
    );
    assert_eq!(
        rollout_relative_path(&Some("logs/one.jsonl".into()), "/h/logs/one.jsonl", unix),
        Err("unsafe rollout path: /h/logs/one.jsonl".to_string())
    );
    assert_eq!(
        rollout_relative_path(&Some("../one.jsonl".into()), "/one.jsonl", unix),
        Err("rollout path is not normalized: /one.jsonl".to_string())
    );
    assert!(rollout_relative_path(&None, "/x", unix).is_err());
    let update = RolloutUpdate {
        thread_id: "one".into(),
        path: "/h/sessions/one.jsonl".into(),
        archived: false,
        expected_provider: Some("custom".into()),
        provider: Some("openai".into()),
    };
    assert_eq!(
        rollout_journal_from_update(&update, Ok("sessions/one.jsonl".into())),
        Ok(rollout_row())
    );
    let mut later = rollout_row();
    later.path = "archived_sessions/a.jsonl".into();
    let sorted = sort_rollout_rows(&vec![rollout_row(), later.clone()]);
    assert_eq!(sorted[0], later);
}

fn state_update() -> StateUpdate {
    StateUpdate {
        thread_id: "one".into(),
        expected_rollout_path: "/old".into(),
        expected_provider: "custom".into(),
        expected_archived: true,
        expected_thread_source: "user".into(),
        expected_has_user_event: false,
        rollout_path: "/new".into(),
        provider: "openai".into(),
        archived: false,
        thread_source: "user".into(),
        has_user_event: true,
    }
}

#[test]
fn writes_name_what_they_expect() {
    let text = |value: &str| RepairSqlValue::Text(value.into());
    let statement = apply_state_updates(&state_update());
    assert!(statement.sql.starts_with("UPDATE threads SET model_provider=?1"));
    assert_eq!(
        statement.values,
        vec![
            text("openai"),
            RepairSqlValue::Integer(0),
            text("/new"),
            text("user"),
            RepairSqlValue::Integer(1),
            text("one"),
            text("custom"),
            RepairSqlValue::Integer(1),
            text("/old"),
            text("user"),
            RepairSqlValue::Integer(0),
        ]
    );
    let delete = apply_state_deletes(&StateDelete {
        thread_id: "one".into(),
        expected_provider: "custom".into(),
        expected_rollout_path: "/old".into(),
    });
    assert_eq!(delete.values, vec![text("one"), text("custom"), text("/old")]);
    let update = apply_catalog_updates(
        &CatalogUpdate {
            host_id: "local".into(),
            thread_id: "one".into(),
            expected_provider: "custom".into(),
            expected_missing_candidate: true,
            provider: "openai".into(),
            missing_candidate: false,
        },
        7,
    );
    assert_eq!(update.values[1], RepairSqlValue::Integer(7));
    assert_eq!(update.values.len(), 7);
    let delete = apply_catalog_deletes(&CatalogDelete {
        host_id: "local".into(),
        thread_id: "one".into(),
        expected_provider: "custom".into(),
        expected_missing_candidate: true,
    });
    assert_eq!(delete.values[3], RepairSqlValue::Integer(1));
    assert_eq!(insert_catalog_journal_image(&catalog_image("custom", 1)).values.len(), 12);
}

#[test]
fn undoing_names_what_the_repair_wrote() {
    let text = |value: &str| RepairSqlValue::Text(value.into());
    let undo = undo_statement(&RecoveryAction::StateProvider {
        thread_id: "one".into(),
        provider_before: "custom".into(),
        provider_after: "openai".into(),
    })
    .unwrap();
    assert_eq!(
        undo.sql,
        "UPDATE threads SET model_provider=?1 WHERE id=?2 AND model_provider=?3"
    );
    assert_eq!(undo.values, vec![text("custom"), text("one"), text("openai")]);
    let row = |before, after| RepairCatalogJournal {
        host_id: "local".into(),
        thread_id: "one".into(),
        before,
        after,
    };
    let added = RecoveryAction::Catalog(row(None, Some(catalog_image("openai", 2))));
    assert!(undo_statement(&added).unwrap().sql.starts_with("DELETE FROM provider_catalog"));
    let removed = RecoveryAction::Catalog(row(Some(catalog_image("custom", 1)), None));
    assert!(undo_statement(&removed).unwrap().sql.starts_with("INSERT INTO provider_catalog"));
    let changed = RecoveryAction::Catalog(row(
        Some(catalog_image("custom", 1)),
        Some(catalog_image("openai", 2)),
    ));
    assert_eq!(undo_statement(&changed).unwrap().values.len(), 8);
    assert_eq!(undo_statement(&RecoveryAction::Rollout(rollout_row())), None);
    assert_eq!(undo_statement(&RecoveryAction::Projection(None)), None);
    let counter = RecoveryAction::ObservationSequence {
        sequence_before: 1,
        sequence_after: 2,
    };
    assert_eq!(
        undo_statement(&counter).unwrap().values,
        vec![RepairSqlValue::Integer(1), RepairSqlValue::Integer(2)]
    );
    assert_eq!(check_undo_write(&counter, 1), None);
    assert_eq!(
        check_undo_write(&counter, 0),
        Some("catalog observation sequence CAS recovery failed".to_string())
    );
    let insert = insert_state_journal_image(&image("custom"));
    assert_eq!(
        insert.sql,
        "INSERT INTO threads (\"id\", \"model_provider\") VALUES (?1, ?2)"
    );
    let back = restore_state_journal_image("one", &Some(image("custom")), &Some(image("openai")));
    assert_eq!(
        back.unwrap().sql,
        "UPDATE threads SET \"model_provider\"=?1 WHERE id=?2"
    );
    assert_eq!(
        restore_state_journal_image("one", &None, &Some(image("openai"))).unwrap().sql,
        "DELETE FROM threads WHERE id=?1"
    );
    assert_eq!(restore_state_journal_image("one", &None, &None), None);
}

fn insert() -> StateInsert {
    StateInsert {
        thread_id: "one".into(),
        rollout_path: "/r".into(),
        archived: false,
        created_at: 10,
        updated_at: 20,
        source: "cli".into(),
        thread_source: "user".into(),
        provider: "openai".into(),
        cwd: "/w".into(),
        title: "One".into(),
        sandbox_policy: "{}".into(),
        approval_mode: "on-request".into(),
        cli_version: "1".into(),
        first_user_message: "hi".into(),
        preview: "hi".into(),
        has_user_event: true,
        git_sha: None,
        git_branch: Some("main".into()),
        git_origin_url: None,
    }
}

#[test]
fn added_sessions_fill_the_columns_that_are_there() {
    let columns = vec![
        "id".to_string(),
        "surprise".to_string(),
        "created_at_ms".to_string(),
        "git_branch".to_string(),
    ];
    let statement = state_insert_statement(&insert(), &columns);
    assert_eq!(
        statement.sql,
        "INSERT INTO threads (\"id\", \"created_at_ms\", \"git_branch\") VALUES (?1, ?2, ?3)"
    );
    assert_eq!(
        statement.values,
        vec![
            RepairSqlValue::Text("one".into()),
            RepairSqlValue::Integer(10_000),
            RepairSqlValue::Text("main".into()),
        ]
    );
    assert_eq!(quoted_identifier("a\"b"), "\"a\"\"b\"");
    assert_eq!(timestamp_millis(3), 3000);
    assert_eq!(timestamp_millis(i64::MAX), i64::MAX);
}

fn counts(updates: usize) -> WriteCounts {
    WriteCounts {
        state_updates: updates,
        state_restores: 0,
        state_deletes: 0,
        state_inserts: 0,
        catalog_updates: 0,
        catalog_inserts: 0,
        catalog_deletes: 0,
        sync_rows: 0,
        revision_rows: 0,
    }
}

#[test]
fn a_write_that_misses_a_row_is_refused() {
    let mut plan = RepairPlan::empty();
    plan.add_state_update(state_update());
    assert_eq!(
        apply_plan_with_fence(&plan, &counts(1)).unwrap().provider_changes,
        1
    );
    assert_eq!(
        apply_plan_with_fence(&plan, &counts(0)).unwrap_err(),
        "state update count mismatch: expected 1, got 0"
    );
    assert_eq!(check_write_count(WriteGroup::CatalogDelete, 2, 2), None);
    assert_eq!(
        check_write_count(WriteGroup::CatalogDelete, 2, 1),
        Some("catalog delete count mismatch: expected 2, got 1".to_string())
    );
    assert_eq!(repair_state_keys(&plan).len(), 1);
    assert_eq!(repair_catalog_keys(&plan).len(), 0);
    let mut before = OrderedMap::new();
    before.insert("one".to_string(), Some(image("custom")));
    let mut after = OrderedMap::new();
    after.insert("one".to_string(), Some(image("openai")));
    let built = build_repair_journal(
        &plan,
        &vec![rollout_row()],
        &before,
        &after,
        &OrderedMap::new(),
        &OrderedMap::new(),
        &None,
        &None,
        None,
        &store(1),
    );
    assert_eq!(built.state_rows, journal().state_rows);
    assert_eq!(built.rollout_rows, vec![rollout_row()]);
    assert_eq!(built.projection_after, store(1));
}

fn manifest() -> BackupManifest {
    BackupManifest {
        version: 6,
        created_at: "now".into(),
        source: "/home".into(),
        provider: "custom".into(),
        sqlite_user_versions: OrderedMap::new(),
        projection_state_present: false,
        projection_state_sha256: None,
        rollout_provider_preimages: vec![rollout_row()],
        kind: BackupKind::Automatic,
        pinned: false,
        files: vec![],
    }
}

#[test]
fn restored_rollouts_can_be_taken_back() {
    let mut found = OrderedMap::new();
    found.insert(
        "sessions/one.jsonl".to_string(),
        RolloutAt {
            path: "/h/sessions/one.jsonl".into(),
            slot: SlotRead::Provider(Some("openai".into())),
        },
    );
    let images = capture_restore_rollout_images(&manifest(), &found).unwrap();
    assert_eq!(images.len(), 1);
    assert_eq!(images[0].entry_provider, Some("openai".to_string()));
    let updates = safety_rollout_updates_for_restore(&images);
    assert_eq!(updates[0].expected_provider, Some("openai".to_string()));
    assert_eq!(updates[0].provider, Some("custom".to_string()));
    let now = |id: &str| SlotRead::Provider(Some(id.into()));
    assert_eq!(
        recover_restore_rollout_image(&images[0], &now("openai")),
        ImageRecovery::Unchanged
    );
    assert_eq!(
        recover_restore_rollout_image(&images[0], &now("custom")),
        ImageRecovery::PutBack
    );
    assert!(matches!(
        recover_restore_rollout_image(&images[0], &now("other")),
        ImageRecovery::Fault(_)
    ));
    assert_eq!(recover_restore_rollout_images(&vec![]), None);
    assert!(recover_restore_rollout_images(&vec!["x".into()]).is_some());
}

#[test]
fn a_failed_restore_is_taken_back_step_by_step() {
    let mut state = start_restore_write(false, false);
    while state.step != RestoreStep::RestoreDatabases {
        let (next, done) = restore_backup_unchecked(state, None);
        assert_eq!(done, None);
        state = next;
    }
    let (state, done) = restore_backup_unchecked(state, Some("disk full".into()));
    assert_eq!(done, None);
    assert_eq!(state.step, RestoreStep::RecoverDatabases);
    let mut state = state;
    let outcome = loop {
        let (next, done) = restore_backup_unchecked(state, None);
        if let Some(outcome) = done {
            break outcome;
        }
        state = next;
    };
    assert!(outcome.unwrap().contains("disk full"));
    let mut state = start_restore_write(false, false);
    let outcome = loop {
        let (next, done) = restore_backup_unchecked(state, None);
        if let Some(outcome) = done {
            break outcome;
        }
        state = next;
    };
    assert_eq!(outcome, None);
    assert!(successful_restore_result().ok);
}

#[test]
fn restores_wait_for_pending_operations_and_owners() {
    let (state, action) = restore_backup_at(&Some("/b".into()));
    assert_eq!(action, RestoreAction::ReadPending);
    let (_, action) =
        restore_backup_operation_at(state, RestoreEvent::Pending(Some(pending(None, 5))));
    match action {
        RestoreAction::Refuse(message) => assert!(message.contains("historical restore is blocked")),
        other => panic!("unexpected action {other:?}"),
    }
    let (state, _) = restore_latest_at();
    let (state, action) =
        restore_backup_operation_at(state, RestoreEvent::Pending(Some(pending(None, 5))));
    assert_eq!(action, RestoreAction::RollBackRepair);
    let (_, action) = restore_backup_operation_at(
        state,
        RestoreEvent::RolledBack(PendingRepairResolution::Compensated),
    );
    assert_eq!(action, RestoreAction::Report(successful_restore_result()));
    let (state, _) = restore_latest_at();
    let (state, _) = restore_backup_operation_at(state, RestoreEvent::Pending(None));
    let (_, action) =
        restore_backup_operation_at(state, RestoreEvent::Owners(vec!["codex.exe".into()]));
    assert_eq!(
        action,
        RestoreAction::Refuse("restore blocked by active Codex processes: codex.exe".into())
    );
}

#[test]
fn a_failed_restore_is_recovered_from_its_safety_backup() {
    let (state, _) = restore_latest_at();
    let (state, _) = restore_backup_operation_at(state, RestoreEvent::Pending(None));
    let (state, _) = restore_backup_operation_at(state, RestoreEvent::Owners(vec![]));
    let (state, action) = restore_backup_operation_at(state, RestoreEvent::Owners(vec![]));
    assert_eq!(action, RestoreAction::MakeSafety);
    let (state, action) = restore_backup_operation_at(state, RestoreEvent::Succeeded);
    assert_eq!(action, RestoreAction::ListOwners);
    let (state, action) = restore_backup_operation_at(state, RestoreEvent::Owners(vec![]));
    assert_eq!(action, RestoreAction::NotePending);
    let (state, action) = restore_backup_operation_at(state, RestoreEvent::Succeeded);
    assert_eq!(action, RestoreAction::RestoreTarget);
    let (state, action) =
        restore_backup_operation_at(state, RestoreEvent::Failed("bad page".into()));
    assert_eq!(action, RestoreAction::RestoreSafety);
    let (state, action) = restore_backup_operation_at(state, RestoreEvent::Succeeded);
    assert_eq!(action, RestoreAction::ClearPending);
    let (_, action) = restore_backup_operation_at(state, RestoreEvent::Succeeded);
    assert_eq!(
        action,
        RestoreAction::Refuse("restore failed and previous state was recovered: bad page".into())
    );
}

#[test]
fn a_restore_takes_only_the_answer_to_what_it_asked() {
    let (state, _) = restore_latest_at();
    assert!(is_awaited(state.stage, &RestoreEvent::Pending(None)));
    assert!(is_awaited(state.stage, &RestoreEvent::Failed("x".into())));
    assert!(!is_awaited(state.stage, &RestoreEvent::Succeeded));
}

#[test]
fn the_restored_global_state_must_read_as_the_manifest_says() {
    let listed = |sha256: Option<String>| {
        vec![ManifestFile {
            path: ".codex-global-state.json".into(),
            size: 2,
            modified: None,
            sha256,
            backed_up: true,
        }]
    };
    let digest = Some(hash_contents(b"{}"));
    assert_eq!(check_restored_global(&listed(digest.clone()), &Ok(b"{}".to_vec())), None);
    assert_eq!(
        check_restored_global(&listed(digest.clone()), &Ok(b"[]".to_vec())),
        Some("global state restore verification failed".to_string())
    );
    assert!(check_restored_global(&listed(digest.clone()), &Ok(b"{".to_vec())).is_some());
    assert_eq!(
        check_restored_global(&listed(digest), &Err("gone".into())),
        Some("gone".to_string())
    );
    for files in [vec![], listed(None)] {
        assert_eq!(
            check_restored_global(&files, &Ok(b"{}".to_vec())),
            Some("global state checksum is missing".to_string())
        );
    }
}

#[test]
fn a_kept_rollout_path_names_the_same_file_again() {
    for (first, archived) in [("sessions", false), ("archived_sessions", true)] {
        let found = format!("{first}\\2026\\.\\one.jsonl");
        let kept = rollout_relative_path(&Some(found.clone()), "/h", PathStyle::Windows).unwrap();
        assert_eq!(kept, format!("{first}/2026/./one.jsonl"));
        for style in [PathStyle::Windows, PathStyle::Unix] {
            assert_eq!(rollout_path_from_relative(&kept, style), Ok(archived));
            assert_eq!(find_parts(&kept, style), find_parts(&found, PathStyle::Windows));
        }
    }
}

#[test]
fn paths_are_taken_apart_as_the_standard_library_does() {
    for text in [
        "", ".", "..", "/", "//", "a", "a/b", "a//b/", "./a", "a/.", "a/./b", "a/../b", "/a/b",
        "a\\b", "C:a", "sessions/one.jsonl", ".hidden", "a.b.c", "a.", "..a", "a/..", "本/地.x",
    ] {
        let path = std::path::Path::new(text);
        let parts = find_parts(text, PathStyle::Unix);
        let names: Vec<PathPart> = path
            .components()
            .map(|part| match part {
                std::path::Component::Normal(name) => {
                    PathPart::Normal(name.to_string_lossy().into_owned())
                }
                _ => PathPart::Other,
            })
            .collect();
        if path.has_root() {
            assert_eq!(parts, vec![PathPart::Other], "{text}");
        } else {
            assert_eq!(parts, names, "{text}");
            assert_eq!(
                find_extension(&parts),
                path.extension().map(|value| value.to_string_lossy().into_owned()),
                "{text}"
            );
        }
    }
}

#[test]
fn both_zeros_are_the_same_number() {
    let real = |text: &str| RepairSqlValue::Real(text.into());
    assert_eq!(real("-0.0"), real("0.0"));
    assert_ne!(real("-0.0"), real("1.5"));
    let row = |text: &str| {
        let mut values = OrderedMap::new();
        values.insert("created_at".to_string(), real(text));
        Some(RepairStateImage { values })
    };
    assert_eq!(
        journal_image_state(&row("-0.0"), &row("0.0"), &row("1.5")),
        JournalImageState::Before
    );
    let mut zero = catalog_image("custom", 1);
    zero.source_created_at = "-0.0".into();
    assert_eq!(zero, catalog_image("custom", 1));
    let slot = |text: &str| RepairJsonSlot::Present(parse_json(text).unwrap());
    assert_eq!(
        slot_journal_state(&slot("[-0.0]"), &slot("1"), &slot("[0.0]")),
        JournalImageState::After
    );
    assert_eq!(
        slot_journal_state(&slot("0"), &slot("1"), &slot("0.0")),
        JournalImageState::Conflict
    );
}

use provider_hub::backups::BackupCleanupResult;
use provider_hub::journal::{PendingOperation, RepairPhase};
use provider_hub::json::{parse_json, Json};
use provider_hub::locality::{workspace_resolution, WorkspaceHintUpdate, WorkspaceResolution};
use provider_hub::locks::{LockSummary, OperationLockStatus};
use provider_hub::ordered::{OrderedMap, OrderedSet};
use provider_hub::planning::{build_plan, build_plan_for_preview, RepairPlan};
use provider_hub::preview::{
    eligible_projection_sessions, preview_projection_at, preview_projection_selected_at, projection_preview_for_snapshot,
    selected_thread_filter,
};
use provider_hub::projection::{
    CatalogState, ProjectionRecord, ProjectionScope, ProjectionStore, SourceProvider,
};
use provider_hub::reading::{
    catalog_query, global_state_snapshot_from_bytes, global_state_source, read_catalog,
    read_rollouts, read_session_index, read_threads, scan_snapshot_uncached, thread_query,
    CatalogCells, RolloutInventory, SourceFault, ThreadCells,
};
use provider_hub::reconciliation::{add_projection_reconciliation, next_projection_store};
use provider_hub::records::{PrimaryRollout, Snapshot, SourceSummary};
use provider_hub::recovery::PendingRepairResolution;
use provider_hub::repair::{
    draft_repair, is_awaited, plan_repair, reconcile_pending_repair_on_startup,
    repair_projection_at,
    repair_projection_selected_at_inner, repair_projection_selected_at_with_progress,
    resumes_on_startup, RepairAction, RepairDraft, RepairEvent, RepairProgressStage, RepairStage,
    RepairState,
};
use provider_hub::scan::{refresh_desktop_at, scan_at, tell_cleanup, HomeNotes};
use provider_hub::sessions::{local_session_summaries, modified_text, session_cohorts};
use provider_hub::verification::{verify_projection_at, verify_thread_ids, VerifyResult};

const CONFIG: &str = "model_provider = \"openai\"\n[model_providers.custom]\nname = \"Custom\"\n";

struct Home {
    threads: Vec<ThreadCells>,
    catalog: Vec<CatalogCells>,
    rollouts: Vec<PrimaryRollout>,
    index: Vec<String>,
    threads_readable: bool,
}

fn rollout(id: &str, archived: bool, minute: u32) -> PrimaryRollout {
    let directory = if archived { "archived_sessions" } else { "sessions/2026/07/13" };
    PrimaryRollout {
        id: id.into(),
        path: format!("/home/{directory}/{id}.jsonl"),
        archived,
        model_provider: Some("custom".into()),
        provider_field_missing: false,
        source: if archived { None } else { Some(Json::Text("cli".into())) },
        thread_source: None,
        sandbox_policy: None,
        locality: "null".into(),
        cwd: if archived { None } else { Some(format!("C:\\work\\{id}")) },
        title: None,
        first_user_message: None,
        preview: None,
        session_timestamp: Some(format!("2026-07-13T00:{minute:02}:00Z")),
        updated_at_fallback: None,
        git: None,
        approval_mode: None,
        cli_version: None,
    }
}

fn thread(id: &str, source: &str, archived: bool, role: Option<&str>, kind: &str) -> ThreadCells {
    ThreadCells {
        id: id.into(),
        provider: "custom".into(),
        rollout_path: Some(String::new()),
        archived: Some(i64::from(archived)),
        source: Some(source.into()),
        thread_source: Some(kind.into()),
        agent_role: role.map(|role| role.to_string()),
        title: Some(id.into()),
        cwd: Some(if archived { String::new() } else { format!("C:\\work\\{id}") }),
        updated_at: Some(0),
        first_user_message: Some(String::new()),
        has_user_event: Some(0),
    }
}

fn listed(host: &str, id: &str, kind: &str, provider: &str) -> CatalogCells {
    CatalogCells {
        host_id: host.into(),
        thread_id: id.into(),
        provider: provider.into(),
        missing_candidate: Some(0),
        source_kind: Some(kind.into()),
        source_detail: None,
        cwd: Some(format!("C:\\work\\{id}")),
    }
}

fn make_home() -> Home {
    let remote = r#"{"kind":"vscode","remoteAuthority":"ssh-remote+devbox"}"#;
    Home {
        threads: vec![
            thread("thread-one", "cli", false, None, "user"),
            thread("thread-two", "cli", false, None, "user"),
            thread("thread-three", "vscode", false, None, "user"),
            thread("thread-missing-rollout", "cli", false, None, "user"),
            thread("thread-explicit-remote", remote, false, None, "user"),
            thread("thread-archived", "cli", true, None, "user"),
            thread("thread-subagent", "automation", false, Some("worker"), "subagent"),
        ],
        catalog: vec![
            listed("local", "thread-one", "local", "custom"),
            listed("remote-host", "thread-two", "remote", "CodexPilot"),
        ],
        rollouts: vec![
            rollout("thread-one", false, 0),
            rollout("thread-two", false, 1),
            rollout("thread-three", false, 2),
            rollout("thread-subagent", false, 3),
            rollout("thread-explicit-remote", false, 4),
            rollout("thread-archived", true, 0),
        ],
        index: vec![
            r#"{"id":"thread-one"}"#.into(),
            "\u{feff}{\"id\":\"thread-two\"}".into(),
            String::new(),
            r#"{"id":"thread-three"}"#.into(),
            "not json".into(),
        ],
        threads_readable: true,
    }
}

fn copy_rollout(primary: &PrimaryRollout) -> PrimaryRollout {
    let mut copy = rollout(&primary.id, primary.archived, 0);
    copy.path = primary.path.clone();
    copy.model_provider = primary.model_provider.clone();
    copy.session_timestamp = primary.session_timestamp.clone();
    copy.source = primary.source.as_ref().map(|_| Json::Text("cli".into()));
    copy.cwd = primary.cwd.clone();
    copy
}

impl Home {
    fn snapshot(&self) -> Snapshot {
        let mut rollouts = OrderedMap::new();
        for primary in &self.rollouts {
            rollouts.insert(primary.id.clone(), copy_rollout(primary));
        }
        let count = self.rollouts.len();
        let read = read_rollouts(&RolloutInventory {
            rollouts,
            issues: vec!["bad_json".into(), "bad_json".into(), "too_long".into()],
            file_count: count,
        });
        let threads = if self.threads_readable {
            Ok(self.threads.clone())
        } else {
            Err(SourceFault::Unopened("database is busy".into()))
        };
        let state = global_state_snapshot_from_bytes(
            br#"{"electron-saved-workspace-roots":["C:\\work"],"thread-workspace-root-hints":{}}"#,
        );
        scan_snapshot_uncached(
            read_threads("/home/state_5.sqlite", &threads),
            read_catalog("/home/sqlite/codex-dev.db", &Ok(self.catalog.clone())),
            read,
            read_session_index("/home/session_index.jsonl", &Ok(self.index.clone())),
            state,
            "/home/sessions",
            true,
        )
    }

    fn apply(&mut self, plan: &RepairPlan) {
        for update in &plan.state_updates {
            for row in self.threads.iter_mut().filter(|row| row.id == update.thread_id) {
                assert_eq!(row.provider, update.expected_provider);
                row.provider = update.provider.clone();
                row.archived = Some(i64::from(update.archived));
                row.rollout_path = Some(update.rollout_path.clone());
                row.thread_source = Some(update.thread_source.clone());
                row.has_user_event = Some(i64::from(update.has_user_event));
            }
        }
        for update in &plan.rollout_updates {
            for primary in self.rollouts.iter_mut().filter(|one| one.id == update.thread_id) {
                primary.model_provider = update.provider.clone();
            }
        }
        for insert in &plan.state_inserts {
            let mut row = thread(
                &insert.thread_id,
                &insert.source,
                insert.archived,
                None,
                &insert.thread_source,
            );
            row.provider = insert.provider.clone();
            row.rollout_path = Some(insert.rollout_path.clone());
            row.cwd = Some(insert.cwd.clone());
            row.title = Some(insert.title.clone());
            row.has_user_event = Some(i64::from(insert.has_user_event));
            self.threads.push(row);
        }
    }
}

fn config() -> Option<String> {
    Some(CONFIG.to_string())
}

fn notes() -> HomeNotes {
    HomeNotes {
        home: "/home".into(),
        lock: LockSummary {
            state: "clear".into(),
            path: "/lock".into(),
            owner_pid: None,
            age_seconds: None,
            active_processes: vec![],
        },
        global_state: global_state_source("/home/.codex-global-state.json", &Ok(b"{}".to_vec())),
        last_backup: None,
        pending_operation: None,
    }
}

fn preview_ids(plan: &RepairPlan) -> Vec<String> {
    (0..plan.changed_ids.len())
        .map(|i| plan.changed_ids.item_at(i).clone())
        .collect()
}

#[test]
fn a_scan_counts_every_cohort() {
    let snapshot = make_home().snapshot();
    let scan = scan_at(&notes(), &config(), &snapshot, None);
    assert_eq!(scan.current_provider, "openai");
    assert_eq!(scan.sessions, 7);
    assert_eq!(scan.discovered_sessions, 7);
    assert_eq!(scan.orphaned_sessions, 0);
    assert_eq!(scan.archived_sessions, 1);
    assert_eq!(scan.ordinary_sessions, 4);
    assert_eq!(scan.recoverable_sessions, 4);
    assert_eq!(scan.recoverable_indexed, 1);
    assert_eq!(scan.session_index_covered, 2);
    assert_eq!(scan.remote_sessions, 2);
    assert_eq!(scan.remote_excluded_sessions, 2);
    assert_eq!(scan.missing_rollout, 1);
    assert_eq!(scan.automated_sessions, 1);
    assert_eq!(scan.missing_catalog, 3);
    assert_eq!(scan.skipped, 4);
    assert_eq!(scan.rollout_sessions, 6);
    assert_eq!(scan.valid_rollout_sessions, 6);
    assert_eq!(scan.session_indexed, 3);
    assert_eq!(scan.sqlite, 2);
    assert_eq!(scan.jsonl, 6);
    assert_eq!(scan.drift, 3);
    assert_eq!(scan.provider_drift, 0);
    assert_eq!(scan.rollout_provider_drift, 0);
    assert!(!scan.needs_admin);
    let shown: Vec<(&str, usize, &str)> = scan
        .providers
        .iter()
        .map(|provider| {
            (
                provider.id.as_str(),
                provider.source_sessions,
                provider.status.as_str(),
            )
        })
        .collect();
    assert_eq!(shown, vec![("custom", 4, "legacy"), ("openai", 0, "active")]);
    assert_eq!(scan.sources.len(), 5);
    assert_eq!(
        scan.sources[1].note,
        "read-only; 1 local rows; 1 non-local rows"
    );
    assert_eq!(
        scan.sources[2].note,
        "6 valid primary records; 6 unique valid rollouts; provider metadata for 6 IDs; 3 issues (bad_json=2, too_long=1); bounded first-record scan; read-only"
    );
    assert_eq!(scan.sources[3].note, "index read-only; 1 malformed lines");
}

#[test]
fn drift_between_layers_is_counted() {
    let mut home = make_home();
    home.threads[0].provider = "openai".into();
    home.rollouts[2].model_provider = Some("other".into());
    let scan = scan_at(&notes(), &config(), &home.snapshot(), None);
    assert_eq!(scan.provider_drift, 1);
    assert_eq!(scan.rollout_provider_drift, 2);
    assert_eq!(scan.drift, 4);
    assert!(scan.providers.iter().any(|provider| provider.id == "other"));
}

#[test]
fn notes_on_missing_rights_ask_for_an_administrator() {
    for note in ["Permission denied", "ACCESS is refused", "拒绝访问。", "只读"] {
        let mut home = notes();
        home.global_state.note = note.into();
        let scan = scan_at(&home, &config(), &make_home().snapshot(), None);
        assert!(scan.needs_admin, "{note}");
    }
    let mut home = notes();
    home.lock.active_processes = vec!["process-enumeration-failed".into()];
    assert!(scan_at(&home, &config(), &make_home().snapshot(), None).needs_admin);
}

#[test]
fn a_preview_plans_every_local_session() {
    let snapshot = make_home().snapshot();
    let preview = preview_projection_at(
        &config(),
        &snapshot,
        None,
        &vec![],
        "openai",
        ProjectionScope::All,
    )
    .unwrap();
    assert_eq!(preview.plan.considered, 4);
    assert_eq!(preview.changed_threads, 4);
    assert_eq!(preview.rollout_updates, 4);
    assert!(preview
        .skipped_reasons
        .iter()
        .any(|reason| reason.reason == "remote_mapped"));
    assert_eq!(preview.plan_token.len(), 64);
    let filtered = preview_projection_at(
        &config(),
        &snapshot,
        None,
        &vec!["openai".to_string()],
        "openai",
        ProjectionScope::All,
    )
    .unwrap();
    assert_eq!(filtered.plan_token, preview.plan_token);
    assert_eq!(
        preview_projection_at(
            &config(),
            &snapshot,
            None,
            &vec![],
            "custom",
            ProjectionScope::All
        )
        .unwrap_err(),
        "target provider must match config.toml model_provider (current: openai)"
    );
}

#[test]
fn a_selection_limits_the_plan_and_an_empty_one_empties_it() {
    let snapshot = make_home().snapshot();
    let some = vec!["  thread-one ".to_string(), String::new()];
    let preview = preview_projection_selected_at(
        &config(),
        &snapshot,
        None,
        &vec![],
        "openai",
        ProjectionScope::All,
        Some(&some),
    )
    .unwrap();
    assert_eq!(preview.plan.considered, 1);
    assert_eq!(preview.changed_threads, 1);
    let none: Vec<String> = vec![];
    let empty = preview_projection_selected_at(
        &config(),
        &snapshot,
        None,
        &vec![],
        "openai",
        ProjectionScope::All,
        Some(&none),
    )
    .unwrap();
    assert_eq!(empty.plan.considered, 0);
    assert_eq!(empty.changed_threads, 0);
    assert_eq!(selected_thread_filter(None), None);
    assert_eq!(selected_thread_filter(Some(&some)).unwrap().len(), 1);
}

#[test]
fn times_in_milliseconds_are_listed_in_seconds() {
    let mut home = make_home();
    home.threads[0].updated_at = Some(1_700_000_000_000);
    home.threads[2].updated_at = Some(1_700_000_001);
    home.threads[5].updated_at = Some(1_700_000_000_500);
    let snapshot = home.snapshot();
    let time = |id: &str| {
        snapshot.threads.iter().find(|row| row.id == id).map(|row| row.updated_at)
    };
    assert_eq!(time("thread-one"), Some(1_700_000_000));
    assert_eq!(time("thread-three"), Some(1_700_000_001));
    assert_eq!(time("thread-archived"), Some(1_700_000_001));
    let sessions = local_session_summaries(&snapshot, None, "openai");
    let listed = |id: &str| {
        sessions.iter().find(|session| session.id == id).map(|session| session.updated_at)
    };
    assert_eq!(listed("thread-one"), Some(1_700_000_000));
}

#[test]
fn the_time_of_a_file_is_written_in_utc() {
    assert_eq!(
        modified_text(1_700_000_000, 500_000_000),
        Some("2023-11-14T22:13:20.500+00:00".to_string())
    );
    assert_eq!(modified_text(i64::MAX, 0), None);
}

#[test]
fn a_repair_settles_every_local_session_and_is_idempotent() {
    let mut home = make_home();
    let before = home.snapshot();
    let plan = build_plan(&before, "openai");
    assert_eq!(
        preview_ids(&plan),
        vec!["thread-archived", "thread-one", "thread-subagent", "thread-three"]
    );
    assert!(plan.catalog_updates.is_empty());
    assert!(plan.catalog_inserts.is_empty());
    assert!(plan.catalog_deletes.is_empty());
    home.apply(&plan);
    let after = home.snapshot();
    let again = build_plan(&after, "openai");
    assert_eq!(again.changed_ids.len(), 0);
    for row in &home.threads {
        let kept = ["thread-two", "thread-explicit-remote", "thread-missing-rollout"];
        let wanted = if kept.contains(&row.id.as_str()) { "custom" } else { "openai" };
        assert_eq!(row.provider, wanted, "{}", row.id);
    }
    let verified = verify_projection_at(
        &config(),
        &after,
        None,
        &vec![],
        "openai",
        ProjectionScope::All,
    )
    .unwrap();
    assert_eq!(verified.remaining, 0);
    assert!(verified.ok);
    let unrepaired = verify_projection_at(
        &config(),
        &before,
        None,
        &vec![],
        "openai",
        ProjectionScope::All,
    )
    .unwrap();
    assert!(!unrepaired.ok);
    assert_eq!(unrepaired.remaining, 4);
}

#[test]
fn a_session_with_only_a_rollout_is_added() {
    let mut home = make_home();
    let mut primary = rollout("thread-rollout-only", false, 10);
    primary.first_user_message = Some("Recover rollout-only session".into());
    home.rollouts.push(primary);
    let snapshot = home.snapshot();
    let plan = build_plan(&snapshot, "openai");
    assert_eq!(plan.state_inserts.len(), 1);
    let insert = &plan.state_inserts[0];
    assert_eq!(insert.thread_id, "thread-rollout-only");
    assert_eq!(insert.provider, "openai");
    assert_eq!(insert.created_at, 1_783_901_400);
    home.apply(&plan);
    assert_eq!(build_plan(&home.snapshot(), "openai").changed_ids.len(), 0);
}

#[test]
fn an_active_rollout_clears_a_stale_archived_flag() {
    let mut home = make_home();
    home.threads[0].archived = Some(1);
    let plan = build_plan(&home.snapshot(), "openai");
    let update = plan
        .state_updates
        .iter()
        .find(|update| update.thread_id == "thread-one")
        .unwrap();
    assert!(update.expected_archived);
    assert!(!update.archived);
}

#[test]
fn origins_survive_a_change_of_the_current_provider() {
    let mut home = make_home();
    let mut store: Option<ProjectionStore> = None;
    for target in ["GatewayA", "GatewayB"] {
        let snapshot = home.snapshot();
        let (preview, sessions) = projection_preview_for_snapshot(
            &snapshot,
            store.as_ref(),
            &vec![],
            target,
            ProjectionScope::All,
            None,
        )
        .unwrap();
        let plan = build_plan_for_preview(&snapshot, target, &preview.plan);
        let next = next_projection_store(
            store.as_ref(),
            &preview.plan,
            &sessions,
            &snapshot,
            &OrderedSet::new(),
            1_000,
        )
        .unwrap();
        home.apply(&plan);
        store = Some(next);
    }
    let store = store.unwrap();
    assert_eq!(store.projection_version, 2);
    for id in ["thread-one", "thread-three", "thread-subagent", "thread-archived"] {
        let record = store.threads.get(&id.to_string()).unwrap();
        assert_eq!(record.origin_provider, SourceProvider::Other("custom".into()));
        assert_eq!(
            record.projected_target,
            SourceProvider::Other("GatewayB".into())
        );
    }
    assert!(store.threads.get(&"thread-explicit-remote".to_string()).is_none());
    let sessions = local_session_summaries(&home.snapshot(), Some(&store), "GatewayB");
    assert!(sessions.iter().all(|session| session.origin_provider == "custom"));
    assert_eq!(sessions.len(), 4);
}

#[test]
fn verification_tells_what_is_left() {
    let snapshot = make_home().snapshot();
    let ids = OrderedSet::from_items(vec!["thread-one".to_string(), "thread-two".to_string()]);
    let result = verify_thread_ids(&snapshot, "openai", &ids);
    assert!(!result.ok);
    assert_eq!(result.checked, 2);
    let none: OrderedSet<String> = OrderedSet::new();
    let empty = verify_thread_ids(&snapshot, "openai", &none);
    assert!(empty.ok);
    assert_eq!(empty.checked, 0);
    assert_eq!(empty.remaining, 0);
}

#[test]
fn cohorts_leave_remote_sessions_out() {
    let cohorts = session_cohorts(&make_home().snapshot());
    assert_eq!(cohorts.remote_excluded_thread_ids.len(), 2);
    assert!(cohorts.remote_catalog_ids.contains(&"thread-two".to_string()));
    assert!(!cohorts.recoverable_ids.contains(&"thread-two".to_string()));
    assert!(!cohorts
        .recoverable_ids
        .contains(&"thread-missing-rollout".to_string()));
}

fn clear_lock() -> Result<OperationLockStatus, String> {
    Ok(OperationLockStatus {
        state: "clear".into(),
        path: "/lock".into(),
        owner_pid: None,
        owner_started_at: None,
        command: None,
        age_seconds: None,
    })
}

#[test]
fn a_refresh_follows_the_current_provider() {
    let snapshot = make_home().snapshot();
    let config = Some(
        "model_provider = \"codex_local_access\"\n[model_providers.OpenAI]\nname = \"OpenAI\"\n[model_providers.codex_local_access]\nname = \"Local access\"\n"
            .to_string(),
    );
    let refreshed = refresh_desktop_at(
        &notes(),
        &config,
        &snapshot,
        None,
        &clear_lock(),
        &Some(vec![]),
        None,
    )
    .unwrap();
    assert_eq!(refreshed.scan.current_provider, "codex_local_access");
    assert_eq!(refreshed.target_provider, "codex_local_access");
    assert!(refreshed
        .scan
        .providers
        .iter()
        .any(|provider| provider.id == "codex_local_access" && provider.status == "active"));
    assert_eq!(
        refreshed.selected_sources,
        vec!["custom".to_string(), "codex_local_access".to_string()]
    );
    assert!(refreshed.preview.is_none());
    assert_eq!(refreshed.local_sessions.len(), 4);
    assert_eq!(refreshed.scan.lock, "clear");
}

#[test]
fn a_refresh_does_not_guess_a_target() {
    let config = Some("[model_providers.openai]\nname = \"OpenAI\"\n".to_string());
    let refused = refresh_desktop_at(
        &notes(),
        &config,
        &make_home().snapshot(),
        None,
        &clear_lock(),
        &None,
        None,
    )
    .unwrap_err();
    assert!(refused.contains("no valid current model_provider"));
}

#[test]
fn a_refresh_without_databases_shows_rollouts() {
    let mut home = make_home();
    home.threads_readable = false;
    let refreshed = refresh_desktop_at(
        &notes(),
        &config(),
        &home.snapshot(),
        None,
        &clear_lock(),
        &None,
        None,
    )
    .unwrap();
    assert!(refreshed
        .local_sessions
        .iter()
        .any(|session| session.id == "thread-one"));
    let source = &refreshed.scan.sources[0];
    assert_eq!(source.name, "threads");
    assert!(!source.readable);
    assert_eq!(source.note, "database is busy");
    assert_eq!(
        refreshed.scan.lock_detail.active_processes,
        vec!["process-enumeration-failed".to_string()]
    );
    assert_eq!(refreshed.scan.lock, "process-active");
}

#[test]
fn a_failed_cleanup_is_told_as_a_warning() {
    assert_eq!(tell_cleanup(false, &Err("no".into())), None);
    assert_eq!(tell_cleanup(true, &Ok(None)), None);
    let told = tell_cleanup(true, &Err("no".into())).unwrap();
    assert_eq!(told.warnings, vec!["no".to_string()]);
    assert_eq!(told.removed_count, 0);
}

#[test]
fn queries_name_only_columns_that_are_there() {
    let names = |names: &[&str]| {
        Some(OrderedSet::from_items(
            names.iter().map(|name| name.to_string()).collect(),
        ))
    };
    assert_eq!(thread_query(&None), Err(SourceFault::SchemaUnreadable));
    assert_eq!(
        thread_query(&names(&["id"])),
        Err(SourceFault::ColumnsMissing)
    );
    assert_eq!(
        thread_query(&names(&["id", "model_provider", "archived", "updated_at"])),
        Ok("SELECT id, model_provider, '', \"archived\", '', '', NULL, '', '', 0, COALESCE(\"updated_at\", 0), '', 0 FROM threads".to_string())
    );
    assert_eq!(
        catalog_query(&names(&["host_id", "thread_id"])),
        Err(SourceFault::ColumnsMissing)
    );
    assert_eq!(
        catalog_query(&names(&["host_id", "thread_id", "model_provider", "cwd"])),
        Ok("SELECT host_id, thread_id, model_provider, 0, '', '', \"cwd\" FROM local_thread_catalog".to_string())
    );
}

#[test]
fn faults_of_sources_have_their_notes() {
    let faults = [
        (SourceFault::Missing, "file not found"),
        (SourceFault::NotRegular, "not a regular file"),
        (SourceFault::Unavailable("denied".into()), "denied"),
        (SourceFault::Unopened("busy".into()), "busy"),
        (SourceFault::SchemaUnreadable, "table schema unreadable"),
        (SourceFault::ColumnsMissing, "required columns missing"),
        (SourceFault::QueryFailed, "query failed"),
        (SourceFault::RowsFailed, "row read failed"),
        (SourceFault::RowFailed("x".into()), "row read failed: x"),
        (SourceFault::LineFailed("x".into()), "line read failed: x"),
    ];
    for (fault, note) in faults {
        let (rows, summary) = read_threads("/p", &Err(fault));
        assert!(rows.is_empty());
        assert_eq!(
            summary,
            SourceSummary {
                name: "threads".into(),
                path: "/p".into(),
                records: 0,
                readable: false,
                note: note.into(),
            }
        );
    }
}

fn draft(snapshot: &Snapshot, store: Option<&ProjectionStore>, target: &str) -> RepairDraft {
    let planned = plan_repair(
        snapshot,
        store,
        &vec![],
        target,
        ProjectionScope::All,
        None,
        1_000,
    )
    .unwrap();
    draft_repair(&planned, &None)
}

struct Told {
    stages: Vec<RepairProgressStage>,
    percents: Vec<u8>,
}

fn step(state: RepairState, event: RepairEvent, told: &mut Told) -> (RepairState, RepairAction) {
    let step = repair_projection_selected_at_inner(state, event);
    for progress in &step.progress {
        told.stages.push(progress.stage);
        told.percents.push(progress.percent);
        if let (Some(completed), Some(total)) = (progress.completed, progress.total) {
            assert!(completed <= total);
        }
    }
    (step.state, step.action)
}

fn start_apply(token: Option<String>, told: &mut Told) -> RepairState {
    let first = repair_projection_selected_at_with_progress(
        &config(),
        "/home/config.toml",
        "openai",
        false,
        false,
        &token,
    );
    told.stages.push(first.progress[0].stage);
    told.percents.push(first.progress[0].percent);
    assert_eq!(first.action, RepairAction::Scan);
    first.state
}

fn to_replan(token: Option<String>, planned: &RepairDraft, told: &mut Told) -> RepairState {
    let state = start_apply(token, told);
    let (state, action) = step(state, RepairEvent::Scanned(true), told);
    assert_eq!(action, RepairAction::Plan);
    let (state, action) = step(state, RepairEvent::Drafted(planned.clone()), told);
    assert_eq!(action, RepairAction::AcquireLock);
    let (state, action) = step(state, RepairEvent::Succeeded, told);
    assert_eq!(action, RepairAction::ReadPending);
    let (state, action) = step(state, RepairEvent::Pending(None), told);
    assert_eq!(action, RepairAction::CleanUp(None));
    let (state, action) = step(state, RepairEvent::Failed("cannot clean".into()), told);
    assert_eq!(action, RepairAction::CheckSchema);
    let (state, action) = step(state, RepairEvent::Succeeded, told);
    assert_eq!(action, RepairAction::HashConfig);
    let (state, action) = step(state, RepairEvent::Hashed(Some("hash".into())), told);
    assert_eq!(action, RepairAction::Scan);
    let (state, action) = step(state, RepairEvent::Scanned(true), told);
    assert_eq!(action, RepairAction::Plan);
    state
}

fn to_note(planned: &RepairDraft, told: &mut Told) -> RepairState {
    let state = to_replan(None, planned, told);
    let (state, action) = step(state, RepairEvent::Drafted(planned.clone()), told);
    assert_eq!(action, RepairAction::AcquireFence(false));
    let (state, action) = step(state, RepairEvent::Succeeded, told);
    assert_eq!(action, RepairAction::MakeBackup);
    let (state, action) = step(state, RepairEvent::BackedUp("/backup".into()), told);
    assert_eq!(action, RepairAction::StageWrites);
    let (state, action) = step(state, RepairEvent::Succeeded, told);
    assert_eq!(action, RepairAction::HashConfig);
    let (state, action) = step(state, RepairEvent::Hashed(Some("hash".into())), told);
    assert_eq!(action, RepairAction::GuardConfig);
    let (state, action) = step(state, RepairEvent::Succeeded, told);
    assert_eq!(action, RepairAction::HashConfig);
    let (state, action) = step(state, RepairEvent::Hashed(Some("hash".into())), told);
    assert_eq!(action, RepairAction::WriteJournal(RepairPhase::Prepared));
    state
}

fn verified(ok: bool, remaining: usize) -> RepairEvent {
    RepairEvent::Verified {
        result: VerifyResult {
            ok,
            checked: 4,
            remaining,
            skipped: 0,
            reasons: vec![],
        },
        undone: None,
    }
}

fn cleaned() -> BackupCleanupResult {
    BackupCleanupResult {
        removed_count: 1,
        removed_legacy_count: 0,
        reclaimed_bytes: 10,
        remaining_count: 2,
        remaining_bytes: 20,
        warnings: vec![],
    }
}

#[test]
fn progress_follows_the_transaction_and_never_falls() {
    let planned = draft(&make_home().snapshot(), None, "openai");
    assert_eq!(planned.changed_threads, 4);
    assert_eq!(planned.rollout_updates, 4);
    assert_eq!(planned.desired_sessions, 4);
    let mut told = Told { stages: vec![], percents: vec![] };
    let state = to_note(&planned, &mut told);
    let (state, action) = step(state, RepairEvent::Succeeded, &mut told);
    assert_eq!(action, RepairAction::WriteSidecars);
    let (state, action) = step(state, RepairEvent::Succeeded, &mut told);
    assert_eq!(action, RepairAction::Commit);
    let (state, action) = step(state, RepairEvent::Succeeded, &mut told);
    assert_eq!(action, RepairAction::WriteJournal(RepairPhase::Committed));
    let (state, action) = step(state, RepairEvent::Succeeded, &mut told);
    assert_eq!(action, RepairAction::VerifyFresh);
    let (state, action) = step(state, verified(true, 0), &mut told);
    assert_eq!(action, RepairAction::ClearPending);
    let (state, action) = step(state, RepairEvent::Succeeded, &mut told);
    assert_eq!(action, RepairAction::CleanUp(Some("/backup".into())));
    let (state, action) = step(state, RepairEvent::Cleaned(cleaned()), &mut told);
    assert_eq!(state.stage, RepairStage::Done);
    match action {
        RepairAction::Report(result) => {
            assert!(result.verified);
            assert!(!result.dry_run);
            assert_eq!(result.changed_threads, 4);
            assert_eq!(result.catalog_inserts, 0);
            assert_eq!(result.backup_path, Some("/backup".to_string()));
            assert_eq!(result.backup_cleanup, Some(cleaned()));
            assert_eq!(result.plan_token, Some(planned.plan_token.clone()));
        }
        other => panic!("unexpected action {other:?}"),
    }
    assert_eq!(
        told.percents,
        vec![5, 10, 20, 25, 32, 40, 45, 60, 65, 75, 80, 85, 90, 96, 100]
    );
    assert_eq!(told.stages[0], RepairProgressStage::Planning);
    assert_eq!(told.stages[14], RepairProgressStage::Completed);
}

#[test]
fn a_stale_token_is_refused_before_anything_is_written() {
    let planned = draft(&make_home().snapshot(), None, "openai");
    let mut told = Told { stages: vec![], percents: vec![] };
    let state = to_replan(Some("stale-plan-token".into()), &planned, &mut told);
    let (_, action) = step(state, RepairEvent::Drafted(planned), &mut told);
    assert_eq!(
        action,
        RepairAction::Refuse(
            "repair plan changed after preview; refresh the scan and preview before applying".into()
        )
    );
    assert!(!told.stages.contains(&RepairProgressStage::Completed));
}

#[test]
fn applying_needs_the_token_of_a_preview() {
    let refused = repair_projection_at(&config(), "/c", "openai", false, true, &None);
    assert_eq!(
        refused.action,
        RepairAction::Refuse("apply requires the plan token returned by the latest preview".into())
    );
    assert!(refused.progress.is_empty());
    let wrong = repair_projection_at(&config(), "/c", "custom", true, true, &None);
    assert!(matches!(wrong.action, RepairAction::Refuse(_)));
}

#[test]
fn a_dry_run_only_reads() {
    let planned = draft(&make_home().snapshot(), None, "openai");
    let first = repair_projection_at(&config(), "/c", "openai", true, true, &None);
    assert_eq!(first.action, RepairAction::Scan);
    let read = repair_projection_selected_at_inner(first.state, RepairEvent::Scanned(false));
    assert_eq!(read.action, RepairAction::Plan);
    let done = repair_projection_selected_at_inner(read.state, RepairEvent::Drafted(planned));
    assert_eq!(done.action, RepairAction::InspectLock);
    let told = repair_projection_selected_at_inner(
        done.state,
        RepairEvent::LockState("process-active".into()),
    );
    match told.action {
        RepairAction::Report(result) => {
            assert!(result.dry_run);
            assert!(!result.verified);
            assert_eq!(result.changed_threads, 4);
            assert_eq!(result.lock, "process-active");
            assert_eq!(result.backup_path, None);
        }
        other => panic!("unexpected action {other:?}"),
    }
}

#[test]
fn unreadable_sessions_stop_a_repair() {
    let mut told = Told { stages: vec![], percents: vec![] };
    let state = start_apply(None, &mut told);
    let (_, action) = step(state, RepairEvent::Scanned(false), &mut told);
    assert_eq!(
        action,
        RepairAction::Refuse("repair unavailable: state_5.sqlite is not readable".into())
    );
    let planned = draft(&make_home().snapshot(), None, "openai");
    let state = to_replan(None, &planned, &mut told);
    let (_, action) = step(state, RepairEvent::Failed("later".into()), &mut told);
    assert_eq!(action, RepairAction::Refuse("later".into()));
}

#[test]
fn pending_operations_block_or_are_settled_first() {
    let planned = draft(&make_home().snapshot(), None, "openai");
    let pending = PendingOperation {
        command: "restore".into(),
        backup_path: "/b".into(),
        created_at: "now".into(),
        phase: None,
        repair_journal: None,
    };
    let mut told = Told { stages: vec![], percents: vec![] };
    let state = start_apply(None, &mut told);
    let (state, _) = step(state, RepairEvent::Scanned(true), &mut told);
    let (state, _) = step(state, RepairEvent::Drafted(planned), &mut told);
    let (state, _) = step(state, RepairEvent::Succeeded, &mut told);
    assert!(!resumes_on_startup(&Some(PendingOperation {
        command: "restore".into(),
        backup_path: "/b".into(),
        created_at: "now".into(),
        phase: None,
        repair_journal: None,
    })));
    assert!(!reconcile_pending_repair_on_startup(&pending, &None));
    let (_, action) = step(state, RepairEvent::Pending(Some(pending)), &mut told);
    assert_eq!(
        action,
        RepairAction::Refuse("repair blocked by incomplete restore operation from /b".into())
    );
}

#[test]
fn a_changed_configuration_stops_the_repair() {
    let planned = draft(&make_home().snapshot(), None, "openai");
    let mut told = Told { stages: vec![], percents: vec![] };
    let state = to_replan(None, &planned, &mut told);
    let (state, _) = step(state, RepairEvent::Drafted(planned.clone()), &mut told);
    let (state, _) = step(state, RepairEvent::Succeeded, &mut told);
    let (state, _) = step(state, RepairEvent::BackedUp("/backup".into()), &mut told);
    let (state, _) = step(state, RepairEvent::Succeeded, &mut told);
    let (state, action) = step(state, RepairEvent::Hashed(Some("other".into())), &mut told);
    assert_eq!(action, RepairAction::DiscardBackup);
    let (_, action) = step(state, RepairEvent::Succeeded, &mut told);
    assert_eq!(
        action,
        RepairAction::Refuse("repair aborted because config.toml changed after planning".into())
    );
    let missing = to_config(&planned);
    let (_, action) = step(missing, RepairEvent::Hashed(None), &mut told);
    assert_eq!(
        action,
        RepairAction::Refuse("cannot fingerprint provider config: /home/config.toml".into())
    );
}

fn to_config(planned: &RepairDraft) -> RepairState {
    let mut told = Told { stages: vec![], percents: vec![] };
    let state = start_apply(None, &mut told);
    let (state, _) = step(state, RepairEvent::Scanned(true), &mut told);
    let (state, _) = step(state, RepairEvent::Drafted(planned.clone()), &mut told);
    let (state, _) = step(state, RepairEvent::Succeeded, &mut told);
    let (state, _) = step(state, RepairEvent::Pending(None), &mut told);
    let (state, _) = step(state, RepairEvent::Cleaned(cleaned()), &mut told);
    let (state, _) = step(state, RepairEvent::Succeeded, &mut told);
    state
}

#[test]
fn a_failed_commit_is_taken_back() {
    let planned = draft(&make_home().snapshot(), None, "openai");
    let mut told = Told { stages: vec![], percents: vec![] };
    let state = to_note(&planned, &mut told);
    let (state, _) = step(state, RepairEvent::Succeeded, &mut told);
    let (state, action) = step(state, RepairEvent::Failed("disk full".into()), &mut told);
    assert_eq!(action, RepairAction::SettleFailed);
    assert_eq!(state.error, "repair failed before SQLite commit: disk full");
    let (state, action) = step(
        state,
        RepairEvent::Settled(PendingRepairResolution::Compensated),
        &mut told,
    );
    assert_eq!(action, RepairAction::DiscardBackup);
    let (_, action) = step(state, RepairEvent::Failed("in use".into()), &mut told);
    match action {
        RepairAction::Refuse(message) => {
            assert!(message.contains("disk full"));
            assert!(message.contains("in use"));
        }
        other => panic!("unexpected action {other:?}"),
    }
    assert!(!told.stages.contains(&RepairProgressStage::Completed));
}

#[test]
fn a_repair_that_does_not_verify_keeps_its_backup() {
    let planned = draft(&make_home().snapshot(), None, "openai");
    let mut told = Told { stages: vec![], percents: vec![] };
    let state = to_note(&planned, &mut told);
    let (state, _) = step(state, RepairEvent::Succeeded, &mut told);
    let (state, _) = step(state, RepairEvent::Succeeded, &mut told);
    let (state, _) = step(state, RepairEvent::Succeeded, &mut told);
    let (state, action) = step(state, RepairEvent::Failed("no access".into()), &mut told);
    assert_eq!(action, RepairAction::VerifyFresh);
    let (state, action) = step(state, verified(false, 3), &mut told);
    assert_eq!(
        action,
        RepairAction::WriteJournal(RepairPhase::VerificationFailed)
    );
    let (_, action) = step(state, RepairEvent::Succeeded, &mut told);
    assert_eq!(
        action,
        RepairAction::Refuse("verification failed after the online commit: 3 selected records remain. No automatic full-database restore was attempted because Codex may have written newer data. The snapshot remains at /backup; could not persist committed journal phase: no access; administrator permission may be required".into())
    );
}

#[test]
fn a_repair_without_changes_only_verifies() {
    let mut home = make_home();
    let plan = build_plan(&home.snapshot(), "openai");
    home.apply(&plan);
    let planned = draft(&home.snapshot(), None, "openai");
    assert_eq!(planned.changed_threads, 0);
    let mut told = Told { stages: vec![], percents: vec![] };
    let state = to_replan(None, &planned, &mut told);
    let (state, action) = step(state, RepairEvent::Drafted(planned.clone()), &mut told);
    assert_eq!(action, RepairAction::VerifyPlanned);
    let (_, action) = step(state, verified(true, 0), &mut told);
    match action {
        RepairAction::Report(result) => {
            assert!(result.verified);
            assert_eq!(result.changed_threads, 0);
            assert_eq!(result.backup_path, None);
            assert_eq!(result.backup_cleanup, None);
        }
        other => panic!("unexpected action {other:?}"),
    }
    let mut moved = planned;
    moved.projection_changed = true;
    let state = to_replan(None, &moved, &mut told);
    let (state, action) = step(state, RepairEvent::Drafted(moved), &mut told);
    assert_eq!(action, RepairAction::HashConfig);
    let (state, action) = step(state, RepairEvent::Hashed(Some("hash".into())), &mut told);
    assert_eq!(action, RepairAction::GuardConfig);
    let (state, action) = step(state, RepairEvent::Succeeded, &mut told);
    assert_eq!(action, RepairAction::HashConfig);
    let (state, action) = step(state, RepairEvent::Hashed(Some("hash".into())), &mut told);
    assert_eq!(action, RepairAction::SaveStore);
    let (_, action) = step(state, RepairEvent::Succeeded, &mut told);
    assert_eq!(action, RepairAction::VerifyPlanned);
}

#[test]
fn unparsable_sources_count_as_plain_text() {
    let parsed = parse_json("{\"a\":1}").unwrap();
    assert_eq!(
        parsed,
        Json::Object(vec![("a".to_string(), Json::Number("1".to_string()))])
    );
}

fn projected_store(original_catalog: CatalogState) -> ProjectionStore {
    let custom = SourceProvider::Other("custom".into());
    let mut threads = OrderedMap::new();
    threads.insert(
        "thread-one".to_string(),
        ProjectionRecord {
            thread_id: "thread-one".into(),
            origin_provider: custom.clone(),
            original_state_present: true,
            original_state_provider: custom.clone(),
            original_catalog,
            original_rollout_provider: Some(custom),
            projected_target: SourceProvider::OpenAi,
            version: 1,
            timestamp: 1,
        },
    );
    ProjectionStore {
        schema_version: 1,
        projection_version: 1,
        target_provider: SourceProvider::OpenAi,
        timestamp: 1,
        threads,
    }
}

/// A home in which the first session stands where a projection moved it.
fn projected_home() -> Home {
    let mut home = make_home();
    home.threads[0].provider = "openai".into();
    home.rollouts[0].model_provider = Some("openai".into());
    home.catalog[0].provider = "openai".into();
    home
}

fn reconcile(home: &Home, store: &ProjectionStore) -> (OrderedSet<String>, RepairPlan) {
    let snapshot = home.snapshot();
    let nothing = OrderedSet::new();
    let (preview, _) = projection_preview_for_snapshot(
        &snapshot,
        Some(store),
        &vec![],
        "openai",
        ProjectionScope::All,
        Some(&nothing),
    )
    .unwrap();
    let mut plan = RepairPlan::empty();
    let reconciled =
        add_projection_reconciliation(&snapshot, Some(store), &preview.plan, &mut plan, None);
    (reconciled, plan)
}

#[test]
fn a_projection_out_of_scope_is_undone() {
    let original = CatalogState::Present {
        provider: SourceProvider::Other("custom".into()),
    };
    let (reconciled, plan) = reconcile(&projected_home(), &projected_store(original));
    assert_eq!(reconciled.len(), 1);
    assert!(reconciled.contains(&"thread-one".to_string()));
    assert_eq!(plan.state_restores.len(), 1);
    assert_eq!(plan.state_restores[0].expected_provider, "openai");
    assert_eq!(plan.state_restores[0].provider, "custom");
    assert_eq!(plan.rollout_updates[0].expected_provider, Some("openai".to_string()));
    assert_eq!(plan.rollout_updates[0].provider, Some("custom".to_string()));
    assert_eq!(plan.catalog_updates[0].provider, "custom");
    assert!(plan.changed_ids.contains(&"thread-one".to_string()));
    let (_, plan) = reconcile(&projected_home(), &projected_store(CatalogState::Missing));
    assert_eq!(plan.catalog_deletes.len(), 1);
    assert_eq!(plan.catalog_deletes[0].expected_provider, "openai");
}

#[test]
fn a_projection_that_was_changed_since_is_left_alone() {
    let original = CatalogState::Present {
        provider: SourceProvider::Other("custom".into()),
    };
    let store = projected_store(original);
    let mut home = projected_home();
    home.threads[0].provider = "gateway".into();
    let (reconciled, plan) = reconcile(&home, &store);
    assert_eq!(reconciled.len(), 0);
    assert!(plan.state_restores.is_empty());
    assert_eq!(plan.skipped[0].reason, "projection_reconcile_conflict");
    let (reconciled, plan) = reconcile(&make_home(), &store);
    assert_eq!(reconciled.len(), 1);
    assert!(plan.state_restores.is_empty());
    assert_eq!(plan.changed_ids.len(), 0);
}

#[test]
fn a_workspace_is_known_by_its_saved_root() {
    let roots = OrderedSet::from_items(vec!["C:\\work".to_string()]);
    let mut home = make_home();
    let snapshot = home.snapshot();
    assert_eq!(
        workspace_resolution(&snapshot, &roots, &snapshot.threads[0]),
        WorkspaceResolution::Stable
    );
    home.threads[0].cwd = Some("C:\\work\\moved".into());
    let snapshot = home.snapshot();
    assert_eq!(
        workspace_resolution(&snapshot, &roots, &snapshot.threads[0]),
        WorkspaceResolution::Conflict
    );
    home.catalog[0].cwd = Some("C:\\work\\moved".into());
    let snapshot = home.snapshot();
    assert_eq!(
        workspace_resolution(&snapshot, &roots, &snapshot.threads[0]),
        WorkspaceResolution::HintUpdate(WorkspaceHintUpdate {
            thread_id: "thread-one".into(),
            expected_hint: None,
            workspace_root: "C:\\work".into(),
        })
    );
    assert_eq!(
        workspace_resolution(&snapshot, &OrderedSet::new(), &snapshot.threads[0]),
        WorkspaceResolution::Conflict
    );
}

#[test]
fn eligible_sessions_leave_remote_ones_out() {
    let snapshot = make_home().snapshot();
    let (sessions, reasons) =
        eligible_projection_sessions(&snapshot, None, &SourceProvider::OpenAi);
    let ids: Vec<&str> = sessions.iter().map(|session| session.id.as_str()).collect();
    assert!(ids.contains(&"thread-one"));
    assert!(!ids.contains(&"thread-explicit-remote"));
    let remote = Some("thread-explicit-remote".to_string());
    assert!(reasons.iter().any(|reason| reason.thread_id == remote));
}

#[test]
fn a_repair_takes_only_the_answer_to_what_it_asked() {
    assert!(is_awaited(RepairStage::Scan, &RepairEvent::Scanned(true)));
    assert!(!is_awaited(RepairStage::Scan, &RepairEvent::Failed("x".into())));
    assert!(is_awaited(RepairStage::Pending, &RepairEvent::Failed("x".into())));
    assert!(!is_awaited(RepairStage::Pending, &RepairEvent::Succeeded));
    assert!(!is_awaited(RepairStage::Verify, &RepairEvent::Failed("x".into())));
    assert!(!is_awaited(RepairStage::Done, &RepairEvent::Succeeded));
}

#[test]
fn a_selected_preview_is_the_whole_one_without_the_rest() {
    let snapshot = make_home().snapshot();
    let preview = |ids: Option<&Vec<String>>| {
        preview_projection_selected_at(
            &config(),
            &snapshot,
            None,
            &vec![],
            "openai",
            ProjectionScope::All,
            ids,
        )
        .unwrap()
    };
    let whole = preview(None);
    let ids = vec!["thread-three".to_string(), "thread-one".to_string()];
    let some = preview(Some(&ids));
    let wanted: Vec<String> = whole
        .plan
        .sessions
        .iter()
        .map(|session| session.thread_id.clone())
        .filter(|id| ids.contains(id))
        .collect();
    let found: Vec<String> =
        some.plan.sessions.iter().map(|session| session.thread_id.clone()).collect();
    assert_eq!(found, wanted);
    assert_eq!(found.len(), 2);
    assert_eq!(preview(None).plan_token, whole.plan_token);
}

#[test]
fn a_second_repair_plans_nothing_and_keeps_the_store() {
    let mut home = make_home();
    let repair = |home: &Home, store: Option<&ProjectionStore>, timestamp: i64| {
        plan_repair(
            &home.snapshot(),
            store,
            &vec![],
            "openai",
            ProjectionScope::All,
            None,
            timestamp,
        )
        .unwrap()
    };
    let first = repair(&home, None, 1_000);
    assert_eq!(first.plan.changed_ids.len(), 4);
    home.apply(&first.plan);
    let store = first.next_store;
    let second = repair(&home, store.as_ref(), 2_000);
    assert_eq!(second.plan.changed_ids.len(), 0);
    assert_eq!(second.preview.plan.pending, 0);
    let kept = draft_repair(&second, &store);
    assert!(!kept.projection_changed);
    assert_eq!(kept.changed_threads, 0);
}

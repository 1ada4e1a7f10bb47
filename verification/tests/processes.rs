use provider_hub::closing::{
    already_exited_result, close_process, is_awaited, restart_manager_fault, restart_manager_flags,
    start_close, CloseAction, CloseEvent, CloseStage, ERROR_FAIL_NOACTION_REBOOT_CODE,
    RESTART_MANAGER_FORCE_FLAGS, RESTART_MANAGER_GRACEFUL_FLAGS,
};
use provider_hub::locks::explorer_compatible_path;
use provider_hub::processes::{
    allowlisted_name, child_is_in_host_install, family_termination_order, restart_manager_targets,
    same_application_blocker, same_application_edge, verified_family_handles, BlockingProcess, HandleAttempt, HandleFound,
    ProcessIdentity, VerifiedProcess,
};

fn process(pid: u32, parent_pid: u32, name: &str, path: &str, started_at: u64) -> VerifiedProcess {
    VerifiedProcess {
        pid,
        parent_pid,
        name: name.into(),
        path: path.into(),
        started_at,
        session_id: 1,
    }
}

fn blocker(pid: u32, name: &str, path: &str) -> BlockingProcess {
    BlockingProcess {
        identity: ProcessIdentity {
            pid,
            name: name.into(),
            path: Some(path.into()),
            started_at: Some("999".into()),
            parent_pid: None,
            session_id: Some(1),
            verified: true,
            is_current: false,
            is_ancestor: false,
        },
        application_type: "main-window".into(),
        application_root_pid: Some(pid),
        service_name: None,
        restartable: false,
        close_allowed: true,
        close_reason: "verified SQLite owner".into(),
    }
}

#[test]
fn codex_child_is_part_of_its_verified_chatgpt_install() {
    let parent = process(
        10,
        1,
        "ChatGPT.exe",
        r"C:\Program Files\WindowsApps\OpenAI.Codex\app\ChatGPT.exe",
        100,
    );
    let child = process(
        11,
        10,
        "codex.exe",
        r"C:\Program Files\WindowsApps\OpenAI.Codex\app\resources\codex.exe",
        101,
    );
    assert!(same_application_edge(&parent, &child));
}

#[test]
fn host_child_pair_from_another_install_is_rejected() {
    let parent = process(
        10,
        1,
        "ChatGPT.exe",
        r"C:\Program Files\WindowsApps\OpenAI.Codex\app\ChatGPT.exe",
        100,
    );
    let child = process(11, 10, "codex.exe", r"C:\Users\me\bin\codex.exe", 101);
    assert!(!same_application_edge(&parent, &child));
}

#[test]
fn unrelated_allowlisted_sibling_is_rejected() {
    let parent = process(
        10,
        1,
        "ChatGPT.exe",
        r"C:\Program Files\WindowsApps\OpenAI.Codex\app\ChatGPT.exe",
        100,
    );
    let sibling = process(
        11,
        9,
        "ChatGPT.exe",
        r"C:\Program Files\WindowsApps\OpenAI.Codex\app\ChatGPT.exe",
        101,
    );
    assert!(!same_application_edge(&parent, &sibling));
}

#[test]
fn existing_pid_is_not_misreported_as_already_exited() {
    let identity = ProcessIdentity {
        pid: 4321,
        name: "codex.exe".into(),
        path: Some("C:\\placeholder\\codex.exe".into()),
        started_at: Some("1".into()),
        parent_pid: None,
        session_id: Some(1),
        verified: true,
        is_current: true,
        is_ancestor: false,
    };
    assert!(already_exited_result(&identity, false, true).is_none());
}

#[test]
fn restart_manager_graceful_shutdown_does_not_require_restart_registration() {
    assert_eq!(RESTART_MANAGER_GRACEFUL_FLAGS, 0);
}

#[test]
fn force_termination_places_the_host_before_its_children() {
    let child = process(
        11,
        10,
        "codex.exe",
        r"C:\Program Files\WindowsApps\OpenAI.Codex\app\resources\codex.exe",
        101,
    );
    let host = process(
        10,
        1,
        "ChatGPT.exe",
        r"C:\Program Files\WindowsApps\OpenAI.Codex\app\ChatGPT.exe",
        100,
    );
    let renderer = process(
        12,
        10,
        "ChatGPT.exe",
        r"C:\Program Files\WindowsApps\OpenAI.Codex\app\ChatGPT.exe",
        102,
    );
    let family = vec![child, renderer, host];
    let order = family_termination_order(&family);
    assert_eq!(family[order[0]].pid, 10);
}

#[test]
fn restart_manager_only_receives_the_host_and_sqlite_owner() {
    let host = process(
        10,
        1,
        "ChatGPT.exe",
        r"C:\Program Files\WindowsApps\OpenAI.Codex\app\ChatGPT.exe",
        100,
    );
    let owner = process(
        11,
        10,
        "codex.exe",
        r"C:\Program Files\WindowsApps\OpenAI.Codex\app\resources\codex.exe",
        101,
    );
    let renderer = process(
        12,
        10,
        "ChatGPT.exe",
        r"C:\Program Files\WindowsApps\OpenAI.Codex\app\ChatGPT.exe",
        102,
    );
    let targets = restart_manager_targets(&vec![host, owner, renderer], &vec![11]);
    assert_eq!(
        targets
            .iter()
            .map(|process| process.pid)
            .collect::<Vec<_>>(),
        vec![10, 11]
    );
}

#[test]
fn respawned_sqlite_owner_is_matched_by_verified_install_path() {
    let owner_path = r"C:\Program Files\WindowsApps\OpenAI.Codex\app\resources\codex.exe";
    let family = vec![process(11, 10, "codex.exe", owner_path, 101)];
    assert!(same_application_blocker(
        &blocker(99, "codex.exe", owner_path),
        &family
    ));
    assert!(!same_application_blocker(
        &blocker(99, "codex.exe", r"C:\Other\codex.exe"),
        &family
    ));
}

#[test]
fn restart_manager_force_flag_is_explicit() {
    assert_eq!(RESTART_MANAGER_FORCE_FLAGS, 0x1);
}

#[test]
fn explorer_paths_drop_the_extended_length_prefix() {
    assert_eq!(
        explorer_compatible_path(r"\\?\C:\Users\xuan\.codex"),
        r"C:\Users\xuan\.codex"
    );
    assert_eq!(
        explorer_compatible_path(r"\\?\UNC\server\share\file.jsonl"),
        r"\\server\share\file.jsonl"
    );
}

#[test]
fn closing_an_already_exited_process_is_idempotent() {
    let identity = ProcessIdentity {
        pid: u32::MAX,
        name: "codex.exe".into(),
        path: Some("C:\\missing\\codex.exe".into()),
        started_at: Some("1".into()),
        parent_pid: None,
        session_id: Some(1),
        verified: true,
        is_current: false,
        is_ancestor: false,
    };
    let (state, action) = start_close(&identity, false);
    assert_eq!(action, CloseAction::ListOwners);
    let (state, action) = close_process(state, CloseEvent::Owners(vec![]));
    assert_eq!(action, CloseAction::LookUp(u32::MAX));
    let (_, action) = close_process(state, CloseEvent::Running(false));
    let result = match action {
        CloseAction::Report(result) => result,
        other => panic!("unexpected action {other:?}"),
    };
    assert!(!result.requested);
    assert!(result.exited);
    assert_eq!(result.message, "process already exited");
}

#[test]
fn flags_follow_the_wish_to_force() {
    assert_eq!(restart_manager_flags(false), RESTART_MANAGER_GRACEFUL_FLAGS);
    assert_eq!(restart_manager_flags(true), RESTART_MANAGER_FORCE_FLAGS);
    assert_eq!(restart_manager_fault(0), None);
    assert!(restart_manager_fault(ERROR_FAIL_NOACTION_REBOOT_CODE).is_some());
    assert!(restart_manager_fault(5).is_some());
}

#[test]
fn only_known_programs_are_closed() {
    assert!(allowlisted_name("codex.exe"));
    assert!(allowlisted_name("CHATGPT.EXE"));
    assert!(!allowlisted_name("explorer.exe"));
}

#[test]
fn a_helper_that_ended_does_not_stop_the_close() {
    let host = process(10, 1, "ChatGPT.exe", r"C:\app\ChatGPT.exe", 100);
    let owner = process(11, 10, "codex.exe", r"C:\app\resources\codex.exe", 101);
    let helper = process(12, 10, "ChatGPT.exe", r"C:\app\ChatGPT.exe", 102);
    let family = vec![host, owner, helper];
    let held = |path: &str| HandleAttempt {
        found: HandleFound::Held(path.into()),
        still_running: false,
    };
    let gone = HandleAttempt {
        found: HandleFound::Failed("no such process".into()),
        still_running: false,
    };
    let attempts = vec![
        held(r"c:\APP\chatgpt.exe"),
        held(r"C:\app\resources\codex.exe"),
        gone.clone(),
    ];
    assert_eq!(
        verified_family_handles(&family, &attempts, 11, true),
        Ok(vec![0, 1])
    );
    let attempts = vec![
        held(r"C:\app\ChatGPT.exe"),
        gone.clone(),
        held(r"C:\app\ChatGPT.exe"),
    ];
    assert_eq!(
        verified_family_handles(&family, &attempts, 11, false),
        Err("no such process".to_string())
    );
    let changed = vec![
        held(r"C:\app\ChatGPT.exe"),
        held(r"C:\other\codex.exe"),
        gone.clone(),
    ];
    assert_eq!(
        verified_family_handles(&family, &changed, 11, false),
        Err("application-group process changed: PID 11".to_string())
    );
    let mut denied = gone;
    denied.found = HandleFound::Denied("denied".into());
    denied.still_running = true;
    let attempts = vec![
        held(r"C:\app\ChatGPT.exe"),
        held(r"C:\app\resources\codex.exe"),
        denied,
    ];
    assert_eq!(
        verified_family_handles(&family, &attempts, 11, true),
        Err("access denied while preparing to terminate PID 12; only restart Provider Hub as administrator if that process is elevated".to_string())
    );
    assert_eq!(
        verified_family_handles(&family, &attempts, 11, false),
        Ok(vec![0, 1])
    );
}

#[test]
fn force_is_used_only_when_it_is_wanted() {
    let path = r"C:\app\codex.exe";
    let mut identity = blocker(11, "codex.exe", path).identity;
    identity.started_at = Some("999".into());
    let (state, _) = start_close(&identity, false);
    let (state, action) = close_process(
        state,
        CloseEvent::Owners(vec![blocker(11, "codex.exe", path)]),
    );
    assert!(matches!(action, CloseAction::FindFamily(_)));
    let family = vec![process(11, 1, "codex.exe", path, 999)];
    let (state, action) = close_process(state, CloseEvent::Family(family));
    assert!(matches!(
        action,
        CloseAction::OpenProcesses { terminate: false, .. }
    ));
    let (state, action) = close_process(state, CloseEvent::Succeeded);
    assert_eq!(action, CloseAction::CloseWindows(vec![11]));
    let (state, action) = close_process(state, CloseEvent::WindowsAsked(0));
    assert_eq!(action, CloseAction::ListRemaining);
    let left = vec![process(11, 1, "codex.exe", path, 999)];
    let (state, action) = close_process(state, CloseEvent::Remaining(left));
    assert!(matches!(action, CloseAction::ShutDown { forced: false, .. }));
    let (_, action) = close_process(state, CloseEvent::Failed("busy".into()));
    match action {
        CloseAction::Report(result) => {
            assert!(!result.requested);
            assert_eq!(result.message, "no graceful close path succeeded: busy");
        }
        other => panic!("unexpected action {other:?}"),
    }
}

#[test]
fn the_directory_of_a_program_is_read_as_windows_does() {
    assert!(child_is_in_host_install(r"C:\Apps\ChatGPT.exe", r"c:\apps\bin\codex.exe"));
    assert!(child_is_in_host_install(r"C:\ChatGPT.exe", r"C:\bin\codex.exe"));
    assert!(child_is_in_host_install(r"C:\Apps\.\ChatGPT.exe\.", r"C:\Apps\codex.exe"));
    assert!(child_is_in_host_install(r"\\srv\share\ChatGPT.exe", r"\\srv\share\codex.exe"));
    assert!(child_is_in_host_install(r".\ChatGPT.exe", r".\codex.exe"));
    assert!(child_is_in_host_install("C:ChatGPT.exe", r"C:\codex.exe"));
    assert!(!child_is_in_host_install("C:ChatGPT.exe", r"\codex.exe"));
    assert!(!child_is_in_host_install(r"C:\", r"\codex.exe"));
    assert!(!child_is_in_host_install("C:", r"\codex.exe"));
    assert!(!child_is_in_host_install(r"\", r"\codex.exe"));
    assert!(!child_is_in_host_install("", r"\codex.exe"));
    for bare in [r"\\s\a", r"\\s\a\", "//s/a", r"\\?\C:\", r"\\?\C:", r"\\?\UNC\s\a", r"\\.\COM1"] {
        assert!(!child_is_in_host_install(bare, r"\\s\b\codex.exe"), "{bare}");
        assert!(!child_is_in_host_install(bare, r"\\?\D:\codex.exe"), "{bare}");
        assert!(!child_is_in_host_install(bare, r"\\?\UNC\s\b\codex.exe"), "{bare}");
    }
    assert!(child_is_in_host_install(r"\\?\C:\Apps\ChatGPT.exe", r"\\?\C:\Apps\codex.exe"));
    assert!(child_is_in_host_install(r"\\?\UNC\s\a\x.exe", r"\\?\UNC\s\a\codex.exe"));
    assert!(child_is_in_host_install(r"\\?\C:\Apps/ChatGPT.exe", r"\\?\C:\codex.exe"));
    assert!(!child_is_in_host_install(r"C:\Apps/ChatGPT.exe", r"C:\codex.exe"));
    assert!(!child_is_in_host_install(r"C:\Apps\ChatGPT.exe", r"C:\Apps2\codex.exe"));
}

#[test]
fn a_close_takes_only_the_answer_to_what_it_asked() {
    assert!(is_awaited(CloseStage::Owners, &CloseEvent::Owners(vec![])));
    assert!(is_awaited(CloseStage::Owners, &CloseEvent::Failed("x".into())));
    assert!(!is_awaited(CloseStage::Owners, &CloseEvent::Running(true)));
    assert!(!is_awaited(CloseStage::Lookup, &CloseEvent::Failed("x".into())));
    assert!(!is_awaited(CloseStage::Done, &CloseEvent::Succeeded));
}

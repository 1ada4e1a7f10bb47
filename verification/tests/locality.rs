use provider_hub::json::parse_json;
use provider_hub::locality::{
    catalog_row_is_local, catalog_row_is_remote, has_explicit_remote_marker, is_skipped_thread,
    json_names_remote, normalized_local_windows_path, parse_source_value,
    source_value_is_nonordinary, unique_saved_workspace_root,
};
use provider_hub::ordered::{OrderedMap, OrderedSet};
use provider_hub::records::{CatalogRow, GlobalStateSnapshot, ThreadRow};

#[test]
fn remote_detection_requires_a_nonempty_remote_signal() {
    assert!(!has_explicit_remote_marker(
        r#"{"kind":"vscode","remoteAuthority":null}"#
    ));
    assert!(!has_explicit_remote_marker(
        r#"{"kind":"vscode","remoteAuthority":""}"#
    ));
    assert!(has_explicit_remote_marker(
        r#"{"kind":"vscode","remoteAuthority":"ssh-remote+devbox"}"#
    ));
    assert!(has_explicit_remote_marker(r#"{"kind":"dev-container"}"#));
    assert!(!has_explicit_remote_marker(
        r#"{"kind":"vscode","detail":"documentation mentions ssh-remote and codespaces"}"#
    ));
    assert!(!has_explicit_remote_marker(
        "documentation mentions devcontainer"
    ));
    assert!(catalog_row_is_remote(&CatalogRow {
        host_id: "local".into(),
        thread_id: "remote".into(),
        provider: "OpenAI".into(),
        missing_candidate: false,
        source_kind: "codespaces".into(),
        source_detail: String::new(),
        cwd: String::new(),
    }));
    assert_eq!(
        normalized_local_windows_path(r"\\?\C:\work\repo"),
        Some(r"c:\work\repo".into())
    );
    assert!(normalized_local_windows_path("/home/user/repo").is_none());
}

fn row(host: &str, kind: &str) -> CatalogRow {
    CatalogRow {
        host_id: host.into(),
        thread_id: "t".into(),
        provider: "custom".into(),
        missing_candidate: false,
        source_kind: kind.into(),
        source_detail: String::new(),
        cwd: String::new(),
    }
}

#[test]
fn rows_are_local_or_remote() {
    for (host, kind) in [("local", "cli"), ("local", "ssh-remote"), ("box", "cli"), ("", "")] {
        let row = row(host, kind);
        assert!(!(catalog_row_is_local(&row) && catalog_row_is_remote(&row)));
    }
    assert!(catalog_row_is_local(&row("local", "cli")));
    assert!(!catalog_row_is_local(&row("box", "cli")));
}

fn thread(source: &str, agent_role: Option<&str>) -> ThreadRow {
    ThreadRow {
        id: "t".into(),
        rollout_path: String::new(),
        provider: "custom".into(),
        archived: false,
        source: source.into(),
        thread_source: "user".into(),
        agent_role: agent_role.map(|role| role.to_string()),
        title: String::new(),
        cwd: String::new(),
        updated_at: 0,
        first_user_message: String::new(),
        has_user_event: false,
    }
}

#[test]
fn automation_is_skipped() {
    assert_eq!(is_skipped_thread(&thread("cli", None)), None);
    assert_eq!(is_skipped_thread(&thread("cli", Some("  "))), None);
    for skipped in [
        thread("cli", Some("worker")),
        thread("Sub-Agent", None),
        thread(r#"{"subagent":{"kind":"review"}}"#, None),
        thread("scheduled", None),
    ] {
        assert_eq!(
            is_skipped_thread(&skipped),
            Some("subagent_or_automation".to_string())
        );
    }
    assert!(source_value_is_nonordinary(&parse_source_value("exec")));
    assert!(!source_value_is_nonordinary(&parse_source_value("vscode")));
}

#[test]
fn a_remote_word_deep_inside_counts() {
    let plain = parse_json(r#"{"host":{"name":"desk"}}"#).unwrap();
    assert!(!json_names_remote(&plain));
    let list = parse_json(r#"[1,"two",{"remoteAuthority":"wsl+box"}]"#).unwrap();
    assert!(json_names_remote(&list));
}

#[test]
fn workspace_roots_are_matched_once() {
    let state = GlobalStateSnapshot {
        readable: true,
        sha256: None,
        saved_workspace_roots: vec![r"C:\work".into(), r"C:\other".into()],
        thread_workspace_root_hints: OrderedMap::new(),
    };
    let existing = OrderedSet::from_items(vec![r"C:\work".to_string(), r"C:\other".to_string()]);
    assert_eq!(
        unique_saved_workspace_root(&state, &existing, r"C:\work\repo"),
        Some(r"C:\work".to_string())
    );
    assert_eq!(unique_saved_workspace_root(&state, &existing, r"C:\none"), None);
}

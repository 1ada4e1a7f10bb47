use provider_hub::hints::{
    apply_parsed_hints, apply_workspace_hint_updates, compensate_hints_in,
    compensate_workspace_hints,
};
use provider_hub::journal::{RepairJsonSlot, RepairWorkspaceJournal};
use provider_hub::json::{parse_json, parse_json_bytes, read_json_bytes, render, Json};
use provider_hub::locality::WorkspaceHintUpdate;
use provider_hub::reading::{
    cached_snapshot_answers, drop_marks, find_indexed_id, global_state_snapshot_from_bytes,
    global_state_source, home_scan_fingerprint, is_rollout_name, list_tree_signals,
    parsed_source_metadata, source_metadata, workspace_hints_from_bytes, FileSignal, TreeFound,
};
use provider_hub::ordered::OrderedMap;
use provider_hub::planning::CatalogInsert;
use provider_hub::records::ThreadRow;
use provider_hub::token::Encoded;

#[test]
fn json_is_read_and_written_as_the_parser_does() {
    for text in [
        "null",
        "true",
        "[1,-2,\"x\"]",
        r#"{"a":{"b":[]},"c":"d\n\"e\""}"#,
        "\"本\\u0007\"",
    ] {
        let value = parse_json(text).unwrap();
        let plain: serde_json::Value = serde_json::from_str(text).unwrap();
        assert_eq!(render(&value), serde_json::to_string(&plain).unwrap());
        assert_eq!(parse_json_bytes(text.as_bytes()), Some(value));
    }
    for wrong in ["", "{", "[1,]", "nul", "{\"a\"}"] {
        assert_eq!(parse_json(wrong), None);
        assert_eq!(parse_json_bytes(wrong.as_bytes()), None);
    }
    let deep = format!("{}{}", "[".repeat(200), "]".repeat(200));
    assert_eq!(parse_json(&deep), None);
}

#[test]
fn members_are_put_and_dropped_in_order() {
    let object = parse_json(r#"{"b":1,"d":2}"#).unwrap();
    let object = object.put("c", Json::text("x")).put("b", Json::Null);
    assert_eq!(render(&object), r#"{"b":null,"c":"x","d":2}"#);
    let object = object.without_key("c");
    assert_eq!(render(&object), r#"{"b":null,"d":2}"#);
    assert_eq!(object.get("b"), Some(&Json::Null));
    assert_eq!(object.get("c"), None);
    assert_eq!(Json::text("x").get("c"), None);
    assert_eq!(
        render(&Json::object().with("n", Json::number(3)).with("s", Json::signed_number(-3))),
        r#"{"n":3,"s":-3}"#
    );
    assert_eq!(render(&Json::optional_text(&None)), "null");
    assert_eq!(render(&Json::text_list(&vec!["a".into()])), "[\"a\"]");
}

fn update(expected: Option<Json>) -> WorkspaceHintUpdate {
    WorkspaceHintUpdate {
        thread_id: "thread-one".into(),
        expected_hint: expected,
        workspace_root: r"C:\work".into(),
    }
}

#[test]
fn hints_are_written_only_for_the_planned_state() {
    let bytes = br#"{"thread-workspace-root-hints":{},"other":7}"#;
    let state = global_state_snapshot_from_bytes(bytes);
    assert!(state.readable);
    let sha256 = state.sha256;
    assert_eq!(sha256.as_ref().unwrap().len(), 64);
    let written = apply_workspace_hint_updates(bytes, &vec![update(None)], &sha256)
        .unwrap()
        .unwrap();
    assert_eq!(
        written,
        r#"{"other":7,"thread-workspace-root-hints":{"thread-one":"C:\\work"}}"#
    );
    let hints = workspace_hints_from_bytes(written.as_bytes()).unwrap();
    assert_eq!(
        hints.get(&"thread-one".to_string()),
        Some(&Json::Text(r"C:\work".into()))
    );
    assert_eq!(apply_workspace_hint_updates(bytes, &vec![], &None), Ok(None));
    assert_eq!(
        apply_workspace_hint_updates(bytes, &vec![update(None)], &None).unwrap_err(),
        "workspace hint plan is missing the global-state fingerprint"
    );
    assert_eq!(
        apply_workspace_hint_updates(bytes, &vec![update(None)], &Some("0".into())).unwrap_err(),
        "global state changed after planning; refresh the preview"
    );
    assert!(apply_parsed_hints(Ok(Json::Null), &vec![update(None)]).is_err());
    assert!(apply_parsed_hints(
        Ok(parse_json(r#"{"thread-workspace-root-hints":{"thread-one":"X"}}"#).unwrap()),
        &vec![update(None)]
    )
    .is_err());
}

#[test]
fn hints_are_put_back() {
    let row = RepairWorkspaceJournal {
        thread_id: "thread-one".into(),
        before: RepairJsonSlot::Missing,
        after: RepairJsonSlot::Present(Json::Text(r"C:\work".into())),
    };
    let global =
        parse_json(r#"{"thread-workspace-root-hints":{"thread-one":"C:\\work","two":"x"}}"#).unwrap();
    assert_eq!(
        compensate_workspace_hints(global, &vec![row]).unwrap(),
        Some(r#"{"thread-workspace-root-hints":{"two":"x"}}"#.to_string())
    );
    let changed = RepairWorkspaceJournal {
        thread_id: "thread-one".into(),
        before: RepairJsonSlot::Missing,
        after: RepairJsonSlot::Present(Json::Text(r"C:\work".into())),
    };
    let global = parse_json(r#"{"thread-workspace-root-hints":{"thread-one":"Y"}}"#).unwrap();
    assert_eq!(compensate_workspace_hints(global, &vec![changed]), Ok(None));
}

#[test]
fn texts_are_quoted_as_json_asks() {
    let odd = "\u{1}\u{8}\t\n\u{b}\u{c}\r\u{1f} \"\\/\u{7f}本";
    assert_eq!(
        render(&Json::text(odd)),
        "\"\\u0001\\b\\t\\n\\u000b\\f\\r\\u001f \\\"\\\\/\u{7f}本\""
    );
    assert_eq!(render(&Json::text(odd)), serde_json::to_string(odd).unwrap());
    assert_eq!(read_json_bytes(render(&Json::text(odd)).as_bytes()), Ok(Json::text(odd)));
}

#[test]
fn hints_are_put_back_in_the_bytes_of_the_file() {
    let rows = vec![RepairWorkspaceJournal {
        thread_id: "thread-one".into(),
        before: RepairJsonSlot::Missing,
        after: RepairJsonSlot::Present(Json::Text(r"C:\work".into())),
    }];
    assert_eq!(
        compensate_hints_in(
            br#"{"thread-workspace-root-hints":{"thread-one":"C:\\work","two":"x"}}"#,
            &rows
        ),
        Ok(Some(r#"{"thread-workspace-root-hints":{"two":"x"}}"#.to_string()))
    );
    assert_eq!(
        compensate_hints_in(b"nope", &rows),
        Err("expected ident at line 1 column 2".to_string())
    );
}

#[test]
fn global_state_is_summed_up() {
    let state = global_state_snapshot_from_bytes(
        br#"{"electron-saved-workspace-roots":["C:\\a",3,"C:\\b"],"thread-workspace-root-hints":{"t":1}}"#,
    );
    assert_eq!(
        state.saved_workspace_roots,
        vec![r"C:\a".to_string(), r"C:\b".to_string()]
    );
    assert_eq!(state.thread_workspace_root_hints.len(), 1);
    assert!(!global_state_snapshot_from_bytes(b"[]").readable);
    assert!(workspace_hints_from_bytes(b"no").is_err());
    let source = global_state_source("/g", &Ok(br#"{"a":1,"b":2}"#.to_vec()));
    assert_eq!(source.records, 2);
    assert!(source.readable);
    assert_eq!(global_state_source("/g", &Ok(b"[1]".to_vec())).records, 1);
    assert_eq!(
        global_state_source("/g", &Ok(b"x".to_vec())).note,
        "invalid JSON; read-only check failed"
    );
    assert_eq!(global_state_source("/g", &Err("gone".into())).note, "gone");
}

#[test]
fn index_lines_name_sessions() {
    assert_eq!(drop_marks("\u{feff}\u{feff}x\u{feff}"), "x\u{feff}");
    assert_eq!(
        find_indexed_id(&parse_json(r#"{"id":"t"}"#)),
        Some("t".to_string())
    );
    assert_eq!(find_indexed_id(&parse_json(r#"{"id":3}"#)), None);
    assert_eq!(find_indexed_id(&None), None);
}

fn thread(source: &str) -> ThreadRow {
    ThreadRow {
        id: "t".into(),
        rollout_path: String::new(),
        provider: "custom".into(),
        archived: false,
        source: source.into(),
        thread_source: "user".into(),
        agent_role: None,
        title: String::new(),
        cwd: String::new(),
        updated_at: 0,
        first_user_message: String::new(),
        has_user_event: false,
    }
}

#[test]
fn sources_have_their_catalog_names() {
    let pair = |kind: &str, detail: &str| Some((kind.to_string(), detail.to_string()));
    assert_eq!(source_metadata(&thread(" CLI ")), pair("cli", ""));
    assert_eq!(source_metadata(&thread("\"app_server\"")), pair("appServer", ""));
    assert_eq!(
        source_metadata(&thread(r#"{"custom":"mine","kind":"cli"}"#)),
        pair("custom", "mine")
    );
    assert_eq!(
        source_metadata(&thread(r#"{"type":"vscode","detail":"d"}"#)),
        pair("vscode", "d")
    );
    assert_eq!(source_metadata(&thread("{}")), None);
    assert_eq!(source_metadata(&thread("")), pair("user", ""));
    assert_eq!(source_metadata(&thread("other")), None);
    assert_eq!(
        parsed_source_metadata(&Some(Json::Null), "null", "user"),
        None
    );
}

fn signal(label: &str, len: u64) -> FileSignal {
    FileSignal {
        label: label.into(),
        len,
        modified: 5,
    }
}

#[test]
fn a_change_of_the_home_shows_in_its_signals() {
    let absent = TreeFound {
        is_directory: false,
        faults: 0,
        files: vec![],
    };
    let tree = TreeFound {
        is_directory: true,
        faults: 1,
        files: vec![signal("sessions/b.jsonl", 2), signal("sessions/a.jsonl", 1)],
    };
    let listed = list_tree_signals("sessions", &tree);
    let labels: Vec<&str> = listed.iter().map(|one| one.label.as_str()).collect();
    assert_eq!(
        labels,
        vec!["sessions/!walk", "sessions/#count", "sessions/a.jsonl", "sessions/b.jsonl"]
    );
    assert_eq!(listed[1].len, 2);
    let mut found = OrderedMap::new();
    found.insert("config.toml".to_string(), signal("config.toml", 9));
    let first = home_scan_fingerprint(&found, &tree, &absent);
    assert_eq!(first.len(), 10 + 4 + 1);
    assert_eq!(first[8], signal("config.toml", 9));
    assert_eq!(first[14].label, "archived_sessions/");
    let second = home_scan_fingerprint(&found, &absent, &absent);
    assert!(cached_snapshot_answers("/h", &first, "/h", &first, 2999, true));
    assert!(!cached_snapshot_answers("/h", &first, "/h", &first, 3000, true));
    assert!(!cached_snapshot_answers("/h", &first, "/h", &second, 0, true));
    assert!(!cached_snapshot_answers("/h", &first, "/i", &first, 0, true));
    assert!(!cached_snapshot_answers("/h", &first, "/h", &first, 0, false));
    assert!(is_rollout_name("a.JSONL"));
    assert!(!is_rollout_name(".jsonl"));
    assert!(!is_rollout_name("a.json"));
}

#[test]
fn numbers_are_equal_as_numbers_and_written_as_they_stand() {
    let value = |text: &str| parse_json(text).unwrap();
    for (one, other) in [("-0.0", "0.0"), ("1e2", "100.0"), ("0", "0.0"), ("1", "1.0"), ("-0", "0.0")] {
        let plain = serde_json::from_str::<serde_json::Value>(one).unwrap()
            == serde_json::from_str::<serde_json::Value>(other).unwrap();
        assert_eq!(value(one) == value(other), plain, "{one} {other}");
    }
    assert_eq!(render(&value("[-0.0]")), "[-0.0]");
    let global = br#"{"thread-workspace-root-hints":{"one":-0.0}}"#;
    let updates = vec![WorkspaceHintUpdate {
        thread_id: "one".into(),
        expected_hint: Some(value("0.0")),
        workspace_root: "/work".into(),
    }];
    assert_eq!(
        apply_parsed_hints(read_json_bytes(global), &updates),
        Ok(Some(r#"{"thread-workspace-root-hints":{"one":"/work"}}"#.to_string()))
    );
}

#[test]
fn times_of_new_records_enter_the_token_as_json_writes_them() {
    let insert = |created_at: &str| CatalogInsert {
        host_id: "local".into(),
        thread_id: "one".into(),
        title: "One".into(),
        created_at: created_at.into(),
        updated_at: "1783901400.25".into(),
        cwd: "/work".into(),
        source_detail: "cli".into(),
        source_kind: "cli".into(),
        provider: "openai".into(),
        git_branch: None,
    };
    assert_eq!(
        render(&insert("1783901400.0").encode()),
        r#"{"host_id":"local","thread_id":"one","title":"One","created_at":1783901400.0,"updated_at":1783901400.25,"cwd":"/work","source_detail":"cli","source_kind":"cli","provider":"openai","git_branch":null}"#
    );
    assert!(render(&insert("inf").encode()).contains(r#""created_at":null,"#));
}

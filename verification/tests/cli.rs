use provider_hub::cli::{run_cli, usage_text, CliOptions, CliRequest};

fn args(words: &[&str]) -> Vec<String> {
    words.iter().map(|word| word.to_string()).collect()
}

fn options() -> CliOptions {
    CliOptions {
        home: None,
        target: None,
        dry_run: true,
        plan_token: None,
        restore_path: None,
    }
}

#[test]
fn help_comes_first() {
    assert_eq!(run_cli(&vec![]), Ok(CliRequest::Help));
    assert_eq!(run_cli(&args(&["--help"])), Ok(CliRequest::Help));
    assert_eq!(
        run_cli(&args(&["frobnicate", "--bad", "-h"])),
        Ok(CliRequest::Help)
    );
    assert!(usage_text().starts_with("codex-provider-hub scan|backup|repair|verify|restore"));
}

#[test]
fn commands_take_their_options() {
    assert_eq!(run_cli(&args(&["scan"])), Ok(CliRequest::Scan(options())));
    assert_eq!(run_cli(&args(&["backup"])), Ok(CliRequest::Backup(options())));
    let mut wanted = options();
    wanted.home = Some("/h".into());
    wanted.target = Some("custom".into());
    assert_eq!(
        run_cli(&args(&["verify", "--codex-home", "/h", "--target-provider", "custom"])),
        Ok(CliRequest::Verify(wanted))
    );
    let mut wanted = options();
    wanted.dry_run = false;
    wanted.plan_token = Some("t".into());
    assert_eq!(
        run_cli(&args(&["repair", "--write", "--plan-token", "t"])),
        Ok(CliRequest::Repair(wanted))
    );
    assert_eq!(
        run_cli(&args(&["repair", "--apply", "--dry-run"])),
        Ok(CliRequest::Repair(options()))
    );
    let mut wanted = options();
    wanted.restore_path = Some("/b".into());
    assert_eq!(
        run_cli(&args(&["restore", "/b"])),
        Ok(CliRequest::Restore(wanted))
    );
}

#[test]
fn wrong_calls_are_refused() {
    let refused = |words: &[&str]| run_cli(&args(words)).unwrap_err();
    assert_eq!(refused(&["scan", "--codex-home"]), "--codex-home requires a path");
    assert_eq!(
        refused(&["repair", "--target-provider"]),
        "--target-provider requires an ID"
    );
    assert_eq!(refused(&["repair", "--plan-token"]), "--plan-token requires a token");
    assert_eq!(
        refused(&["restore", "/a", "/b"]),
        "restore accepts at most one backup path"
    );
    assert_eq!(refused(&["scan", "extra"]), "unknown argument: extra");
    assert_eq!(refused(&["restore", "-x"]), "unknown argument: -x");
    assert_eq!(refused(&["dance"]), "unknown command: dance");
    assert_eq!(refused(&["dance", "--step"]), "unknown argument: --step");
    assert_eq!(
        refused(&["repair", "--apply"]),
        "repair --apply requires --plan-token from a prior dry-run"
    );
}

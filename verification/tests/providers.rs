use provider_hub::providers::{
    canonical_provider, check_guarded_config, configured_current_provider, configured_providers,
    current_provider, provider_color, provider_name, safe_configured,
    validate_current_target_provider, validate_provider,
};

#[test]
fn provider_validation_preserves_dynamic_ids_exactly() {
    assert_eq!(
        validate_provider("Codex_Local_Access").unwrap(),
        "Codex_Local_Access"
    );
    assert_eq!(validate_provider("OpenAI").unwrap(), "OpenAI");
    assert_eq!(validate_provider("Codex-Pilot").unwrap(), "Codex-Pilot");
    assert_eq!(validate_provider("open-ai").unwrap(), "open-ai");
    assert_eq!(
        validate_provider("local provider").unwrap(),
        "local provider"
    );
    assert_eq!(validate_provider("本地").unwrap(), "本地");
    assert_eq!(validate_provider("Custom").unwrap(), "Custom");
    for provider in ["", " leading", "trailing ", "line\nbreak"] {
        assert!(
            validate_provider(provider).is_err(),
            "accepted {provider:?}"
        );
    }
}

#[test]
fn long_ids_are_refused_by_their_bytes() {
    assert!(validate_provider(&"a".repeat(256)).is_ok());
    assert!(validate_provider(&"a".repeat(257)).is_err());
    assert!(validate_provider(&"本".repeat(86)).is_err());
    assert_eq!(
        validate_provider(" x").unwrap_err(),
        "invalid provider id:  x"
    );
}

#[test]
fn configuration_names_its_providers() {
    let config = Some(
        "model_provider = \"Gateway\"\n[model_providers.custom]\nname = \"Custom\"\n[model_providers.\" bad\"]\nname = \"Bad\"\n"
            .to_string(),
    );
    assert_eq!(configured_current_provider(&config), Some("Gateway".to_string()));
    assert_eq!(current_provider(&config), "Gateway");
    let listed = configured_providers(&config);
    assert_eq!(listed.len(), 1);
    assert!(listed.contains(&"custom".to_string()));
    assert_eq!(configured_current_provider(&None), None);
    assert_eq!(current_provider(&None), "unknown");
    assert_eq!(configured_current_provider(&Some("not toml [".to_string())), None);
    assert_eq!(
        configured_current_provider(&Some("model_provider = 3\n".to_string())),
        None
    );
    assert_eq!(configured_providers(&Some("model_provider = \"x\"\n".to_string())).len(), 0);
    assert_eq!(safe_configured(Some(" x".to_string())), None);
}

#[test]
fn target_must_be_the_configured_provider() {
    let config = Some("model_provider = \"Custom\"\n".to_string());
    assert_eq!(
        validate_current_target_provider(&config, "Custom"),
        Ok("Custom".to_string())
    );
    assert_eq!(
        validate_current_target_provider(&config, "custom"),
        Err("target provider must match config.toml model_provider (current: Custom)".to_string())
    );
    assert_eq!(
        validate_current_target_provider(&None, "custom"),
        Err("config.toml has no valid current model_provider".to_string())
    );
    assert_eq!(
        validate_current_target_provider(&config, " x"),
        Err("invalid provider id:  x".to_string())
    );
}

#[test]
fn guarded_configuration_still_names_the_target() {
    let config = Some("model_provider = \"Custom\"\n".to_string());
    assert!(check_guarded_config(&config, "/h/config.toml", "Custom").is_ok());
    assert_eq!(
        check_guarded_config(&config, "/h/config.toml", "other").unwrap_err(),
        "target provider changed before repair (expected: other, current: Custom)"
    );
    assert_eq!(
        check_guarded_config(&Some("x = 1\n".to_string()), "/h/config.toml", "other").unwrap_err(),
        "/h/config.toml has no valid model_provider"
    );
}

#[test]
fn names_and_colors_are_fixed() {
    assert_eq!(provider_name("openai"), "OpenAI");
    assert_eq!(provider_name("my-gateway"), provider_name("my-gateway"));
    assert_eq!(canonical_provider("Custom"), "Custom");
    assert_eq!(canonical_provider(" bad"), "");
    assert_eq!(provider_color("zzz"), provider_color("zzz"));
    assert!(provider_color("openai").starts_with('#'));
}

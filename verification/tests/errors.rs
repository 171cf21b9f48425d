use scriptvault::error::ScriptVaultError;

#[test]
fn config_invalid_carries_explanation() {
    let e = ScriptVaultError::ConfigInvalid("no scan roots configured".into());
    assert_eq!(e.message(), "invalid configuration: no scan roots configured");
}

#[test]
fn messages_name_the_path_and_reason() {
    let e = ScriptVaultError::ConfigParse { path: "/c.yaml".into(), source: "bad indent".into() };
    assert_eq!(e.message(), "malformed config file /c.yaml: bad indent");
    let e = ScriptVaultError::DefaultConfigParse("x".into());
    assert!(e.message().contains("ScriptVault bug"));
    let e = ScriptVaultError::StateIo { context: "failed to write state file /x/state.json".into(), source: "denied".into() };
    assert!(e.message().contains("/x/state.json"));
    let e = ScriptVaultError::BadIgnorePattern { pattern: "[a".into(), source: "unclosed".into() };
    assert_eq!(e.message(), "invalid ignore pattern \"[a\": unclosed");
    let e = ScriptVaultError::action("editor exited".into());
    assert_eq!(e.message(), "editor exited");
}

#[test]
fn display_includes_path_and_reason_for_config_parse() {
    let yaml_err = serde_yaml::from_str::<serde_yaml::Value>("roots: [unterminated")
        .err()
        .map(|e| ScriptVaultError::DefaultConfigParse(e.to_string()))
        .unwrap();
    let msg = yaml_err.message();
    assert!(msg.contains("ScriptVault bug"), "got: {msg}");
}

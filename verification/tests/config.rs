use clockify_to_solidtime::config::{optional_value, resolve_config, value, EnvConfig, FileConfig};

fn env(key: Option<&str>, token: Option<&str>) -> EnvConfig {
    EnvConfig {
        clockify_api_key: key.map(str::to_string),
        solidtime_api_token: token.map(str::to_string),
        clockify_base_url: None,
        solidtime_base_url: None,
        clockify_workspace_id: Some("env-workspace".to_string()),
        solidtime_organization_id: None,
    }
}

#[test]
fn file_values_take_precedence_over_the_environment() {
    let mut file = FileConfig::default();
    file.clockify_api_key = Some("toml-clockify".to_string());
    file.solidtime_base_url = Some("https://solidtime.toml.test".to_string());
    let config = resolve_config(file, env(Some("env-clockify"), Some("env-solidtime"))).unwrap();
    assert_eq!(config.clockify_api_key, "toml-clockify");
    assert_eq!(config.solidtime_api_token, "env-solidtime");
    assert_eq!(config.clockify_base_url, "https://api.clockify.me/api/v1");
    assert_eq!(config.solidtime_base_url, "https://solidtime.toml.test");
    assert_eq!(config.clockify_workspace_id.as_deref(), Some("env-workspace"));
    assert_eq!(config.solidtime_organization_id, None);
}

#[test]
fn missing_credentials_are_reported_by_variable_name() {
    let err = resolve_config(FileConfig::default(), env(None, Some("t"))).unwrap_err();
    assert_eq!(err.to_string(), "CLOCKIFY_API_KEY is required");
    let err = resolve_config(FileConfig::default(), env(Some("k"), Some("   "))).unwrap_err();
    assert_eq!(err.to_string(), "SOLIDTIME_API_TOKEN is required");
}

#[test]
fn blank_values_count_as_absent() {
    assert_eq!(optional_value(Some("  ".to_string()), Some("env".to_string())), Some("env".to_string()));
    assert_eq!(optional_value(Some("  ".to_string()), Some(" ".to_string())), None);
    assert_eq!(optional_value(None, Some("env".to_string())), Some("env".to_string()));
    assert_eq!(optional_value(None, None), None);
    assert!(value(None, Some("".to_string()), "X_KEY").is_err());
    assert_eq!(value(Some("file".to_string()), None, "X_KEY").unwrap(), "file");
}

#[test]
fn blank_file_credential_falls_back_to_the_environment() {
    let mut file = FileConfig::default();
    file.clockify_api_key = Some(String::new());
    file.solidtime_api_token = Some("file-token".to_string());
    let config = resolve_config(file, env(Some("k"), None)).unwrap();
    assert_eq!(config.clockify_api_key, "k");
    assert_eq!(config.solidtime_api_token, "file-token");
}

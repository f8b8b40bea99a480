use runx::config::{AncestorStep, Config, ConfigError, RawConfig, find_ancestor_step, load_config, parse_config_file};

fn raw(tools: Option<Vec<&str>>, inherit_env: Option<bool>) -> Result<RawConfig, String> {
    Ok(RawConfig { tools: tools.map(|t| t.into_iter().map(|s| s.to_string()).collect()), inherit_env })
}

#[test]
fn test_config_error_display() {
    let err = ConfigError::Parse { path: "/tmp/.runxrc".to_string(), reason: "unexpected token".to_string() };
    assert_eq!(err.to_string(), "failed to parse config `/tmp/.runxrc`: unexpected token");

    let err = ConfigError::InvalidToolSpec { path: "/tmp/.runxrc".to_string(), reason: "missing tool name".to_string() };
    assert!(err.to_string().contains("invalid tool spec"));
}

#[test]
fn test_config_default() {
    let config = Config::default();
    assert!(config.source.is_none());
    assert!(config.tools.is_empty());
    assert_eq!(config.inherit_env, None);
}

#[test]
fn test_parse_full_config() {
    let config = parse_config_file("/p/.runxrc", raw(Some(vec!["node@18", "python@3.11"]), Some(true))).unwrap();
    assert_eq!(config.source.as_deref(), Some("/p/.runxrc"));
    assert_eq!(config.tools.len(), 2);
    assert_eq!(config.tools[0].name, "node");
    assert_eq!(config.tools[0].version.as_deref(), Some("18"));
    assert_eq!(config.tools[1].name, "python");
    assert_eq!(config.tools[1].version.as_deref(), Some("3.11"));
    assert_eq!(config.inherit_env, Some(true));
}

#[test]
fn test_parse_tools_only() {
    let config = parse_config_file("/p/.runxrc", raw(Some(vec!["go@1.21"]), None)).unwrap();
    assert_eq!(config.tools.len(), 1);
    assert_eq!(config.tools[0].name, "go");
    assert_eq!(config.inherit_env, None);
}

#[test]
fn test_parse_empty_config() {
    let config = parse_config_file("/p/.runxrc", raw(None, None)).unwrap();
    assert!(config.tools.is_empty());
    assert_eq!(config.inherit_env, None);
}

#[test]
fn test_parse_inherit_env_only() {
    let config = parse_config_file("/p/.runxrc", raw(None, Some(false))).unwrap();
    assert!(config.tools.is_empty());
    assert_eq!(config.inherit_env, Some(false));
}

#[test]
fn test_parse_malformed_toml() {
    let err = parse_config_file("/p/.runxrc", Err("unclosed array".to_string())).unwrap_err();
    assert!(matches!(err, ConfigError::Parse { .. }));
    assert!(err.to_string().contains("failed to parse config"));
}

#[test]
fn test_parse_invalid_tool_spec() {
    let err = parse_config_file("/p/.runxrc", raw(Some(vec!["@18"]), None)).unwrap_err();
    assert!(matches!(err, ConfigError::InvalidToolSpec { .. }));
    assert_eq!(err.to_string(), "invalid tool spec in config `/p/.runxrc`: missing tool name in `@18`");
}

#[test]
fn config_test_parse_tool_without_version() {
    let config = parse_config_file("/p/.runxrc", raw(Some(vec!["node"]), None)).unwrap();
    assert_eq!(config.tools[0].name, "node");
    assert_eq!(config.tools[0].version, None);
}

#[test]
fn test_load_config_no_file() {
    let config = load_config(None).unwrap();
    assert!(config.source.is_none());
    assert!(config.tools.is_empty());
}

#[test]
fn test_load_config_with_file() {
    let config = load_config(Some(("/p/.runxrc".to_string(), raw(Some(vec!["node@20"]), None)))).unwrap();
    assert!(config.source.is_some());
    assert_eq!(config.tools.len(), 1);
}

#[test]
fn first_invalid_spec_is_reported() {
    let err = parse_config_file("/p/.runxrc", raw(Some(vec!["node@18", "python@", "@3"]), None)).unwrap_err();
    assert_eq!(err.to_string(), "invalid tool spec in config `/p/.runxrc`: missing version after `@` in `python@`");
}

#[test]
fn ancestor_walk_steps() {
    match find_ancestor_step("/a/b", ".runxrc", true) {
        AncestorStep::Found(p) => assert_eq!(p, "/a/b/.runxrc"),
        other => panic!("unexpected {other:?}"),
    }
    match find_ancestor_step("/a/b", ".runxrc", false) {
        AncestorStep::Next(p) => assert_eq!(p, "/a"),
        other => panic!("unexpected {other:?}"),
    }
    match find_ancestor_step("/", ".runxrc", false) {
        AncestorStep::NotFound => {}
        other => panic!("unexpected {other:?}"),
    }
}

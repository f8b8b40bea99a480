use runx::cli::ToolSpec;
use runx::init::{generate_config, validate_tools};

#[test]
fn test_generate_config_with_tools() {
    let tools = vec![
        ToolSpec { name: "node".to_string(), version: Some("18".to_string()) },
        ToolSpec { name: "python".to_string(), version: Some("3.11".to_string()) },
    ];
    let content = generate_config(&tools);
    assert!(content.contains("tools = [\"node@18\", \"python@3.11\"]"));
    assert!(content.contains("# runx configuration file"));
    assert!(content.contains("# inherit_env = false"));
}

#[test]
fn test_generate_config_empty_tools() {
    let content = generate_config(&vec![]);
    assert!(content.contains("# tools = [\"node@18\", \"python@3.11\"]"));
    assert!(!content.contains("\ntools = ["));
}

#[test]
fn test_generate_config_tool_without_version() {
    let tools = vec![ToolSpec { name: "node".to_string(), version: None }];
    let content = generate_config(&tools);
    assert!(content.contains("tools = [\"node\"]"));
}

#[test]
fn test_generate_config_has_comments() {
    let content = generate_config(&vec![]);
    assert!(content.contains("# Supported tools:"));
    assert!(content.contains("# Inherit the user's full environment"));
}

#[test]
fn test_init_creates_file() {
    let tools = vec![ToolSpec { name: "go".to_string(), version: Some("1.21".to_string()) }];
    let content = generate_config(&tools);
    assert!(content.contains("tools = [\"go@1.21\"]"));
}

#[test]
fn generated_config_whole_text() {
    let tools = vec![ToolSpec { name: "node".to_string(), version: Some("22".to_string()) }];
    assert_eq!(
        generate_config(&tools),
        "# runx configuration file\n# See: https://github.com/supa-magic/runx\n\n# Tools to include in the environment.\n# Format: \"tool\" or \"tool@version\"\n# Supported tools: node, python, go, deno, bun\ntools = [\"node@22\"]\n\n# Inherit the user's full environment instead of an isolated one.\n# inherit_env = false\n"
    );
}

#[test]
fn test_available_tools_matches_providers() {
    for entry in runx::provider::tool_registry() {
        assert!(
            runx::provider::get_provider(entry.name, vec![]).is_ok(),
            "registry contains unknown tool: {}",
            entry.name
        );
    }
}

#[test]
fn validate_rejects_first_unknown_tool() {
    let tools = vec![
        ToolSpec { name: "node".to_string(), version: None },
        ToolSpec { name: "zig".to_string(), version: None },
        ToolSpec { name: "odin".to_string(), version: None },
    ];
    let err = validate_tools(&tools, &vec![]).unwrap_err();
    assert!(err.to_string().starts_with("unknown tool `zig`"));
    assert!(validate_tools(&tools[..1].to_vec(), &vec![]).is_ok());
}

#[test]
fn prompt_answers() {
    assert_eq!(runx::init::chosen_tools(" 1 3\t9 x 0 +8\n"), vec!["node", "go", "rust"]);
    assert!(runx::init::chosen_tools("").is_empty());
    assert_eq!(runx::init::version_answer("  3.11 \n").as_deref(), Some("3.11"));
    assert_eq!(runx::init::version_answer(" \n"), None);
}

#[test]
fn words_split_on_whitespace() {
    let ws: Vec<String> = runx::text::split_words("  a bb\n\tccc ").into_iter().map(|w| w.into_iter().collect()).collect();
    assert_eq!(ws, vec!["a", "bb", "ccc"]);
}

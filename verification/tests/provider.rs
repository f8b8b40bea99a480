use runx::environment::EnvVars;
use runx::platform::{Arch, Platform, Target};
use runx::provider::{
    ArchiveFormat, FetchOutcome, FetchStep, MAX_RETRIES, Provider, ProviderError, SimpleGitHubRelease,
    backoff_delay, collect_stable_versions, fetch_step, get_provider, is_transient_status,
    parse_github_releases, resolve_from_candidates, retry_delay,
};
use runx::version::{Version, VersionSpec};

fn releases(json: &str) -> Result<Vec<SimpleGitHubRelease>, String> {
    let value: serde_json::Value = serde_json::from_str(json).map_err(|e| e.to_string())?;
    let items = value.as_array().ok_or_else(|| "expected an array".to_string())?;
    items
        .iter()
        .map(|x| {
            x.get("tag_name")
                .and_then(|t| t.as_str())
                .map(|t| SimpleGitHubRelease { tag_name: t.to_string() })
                .ok_or_else(|| "missing field `tag_name`".to_string())
        })
        .collect()
}

#[test]
fn test_provider_error_display_version_not_found() {
    let err = ProviderError::VersionNotFound { tool: "node".to_string(), spec: "99".to_string() };
    let msg = err.to_string();
    assert!(msg.contains("no node version found matching `99`"));
    assert!(msg.contains("runx list node"));
}

#[test]
fn test_provider_error_display_unsupported_target() {
    let err = ProviderError::UnsupportedTarget { tool: "bun".to_string(), target: "Windows-x86_64".to_string() };
    let msg = err.to_string();
    assert!(msg.contains("bun does not support target `Windows-x86_64`"));
    assert!(msg.contains("runx list bun"));
}

#[test]
fn test_provider_error_display_resolution_failed() {
    let err = ProviderError::ResolutionFailed { tool: "python".to_string(), reason: "network timeout".to_string() };
    let msg = err.to_string();
    assert!(msg.contains("failed to resolve python version: network timeout"));
    assert!(msg.contains("Check your network connection"));
}

#[test]
fn test_archive_format_equality() {
    assert_eq!(ArchiveFormat::TarGz, ArchiveFormat::TarGz);
    assert_ne!(ArchiveFormat::TarGz, ArchiveFormat::Zip);
    assert_ne!(ArchiveFormat::TarXz, ArchiveFormat::Zip);
    assert_eq!(ArchiveFormat::TarXz, ArchiveFormat::TarXz);
}

#[test]
fn test_collect_stable_versions() {
    let versions = collect_stable_versions(vec![
        Some(Version::new(1, 0, 0)),
        None,
        Some(Version::new(2, 0, 0)),
        Some(Version::new(1, 0, 0)),
    ]);
    assert_eq!(versions.len(), 2);
}

#[test]
fn test_collect_stable_versions_filters_prerelease() {
    let pre = Version::parse("1.0.0-alpha.1").unwrap();
    let stable = Version::new(1, 0, 0);
    let versions = collect_stable_versions(vec![Some(pre), Some(stable.clone())]);
    assert_eq!(versions, vec![stable]);
}

/// A provider of no real tool, to show the trait can be implemented.
struct DummyProvider;

impl Provider for DummyProvider {
    fn name(&self) -> &str {
        "dummy"
    }

    fn archive_format(&self, _target: &Target) -> ArchiveFormat {
        ArchiveFormat::TarGz
    }

    fn bin_paths(&self, _version: &Version, _target: &Target) -> Vec<String> {
        vec!["bin/dummy".to_string()]
    }

    fn env_vars(&self, install_dir: &str) -> EnvVars {
        EnvVars::from_pairs(vec![("DUMMY_HOME".to_string(), install_dir.to_string())])
    }
}

#[test]
fn test_dummy_provider_implements_trait() {
    let provider = DummyProvider;
    let target = Target::new(Platform::MacOS, Arch::Aarch64);
    let version = Version::new(1, 0, 0);
    assert_eq!(provider.name(), "dummy");
    assert_eq!(provider.archive_format(&target), ArchiveFormat::TarGz);
    assert!(!provider.bin_paths(&version, &target).is_empty());
    assert!(provider.env_vars("/tmp/dummy").contains_key("DUMMY_HOME"));
}

#[test]
fn test_resolve_from_candidates_returns_highest_match() {
    let candidates = vec![Version::new(18, 17, 0), Version::new(18, 19, 1), Version::new(20, 0, 0)];
    let spec = VersionSpec::Major(18);
    let result = resolve_from_candidates(&candidates, &spec, "node").unwrap();
    assert_eq!(result, Version::new(18, 19, 1));
}

#[test]
fn test_resolve_from_candidates_no_match_returns_version_not_found() {
    let candidates = vec![Version::new(20, 0, 0)];
    let spec = VersionSpec::Major(18);
    let result = resolve_from_candidates(&candidates, &spec, "node");
    assert!(result.is_err());
    assert!(matches!(result.unwrap_err(), ProviderError::VersionNotFound { .. }));
}

#[test]
fn test_resolve_from_candidates_empty_returns_version_not_found() {
    let result = resolve_from_candidates(&vec![], &VersionSpec::Latest, "node");
    assert!(result.is_err());
    assert!(matches!(result.unwrap_err(), ProviderError::VersionNotFound { .. }));
}

#[test]
fn test_parse_github_releases_success() {
    let json = r#"[{"tag_name": "v1.0.0"}, {"tag_name": "v1.1.0"}, {"tag_name": "v2.0.0"}]"#;
    let versions = parse_github_releases(releases(json), "test", "v").unwrap();
    assert_eq!(versions.len(), 3);
}

#[test]
fn test_parse_github_releases_filters_unparseable_tags() {
    let json = r#"[{"tag_name": "v1.0.0"}, {"tag_name": "not-a-version"}, {"tag_name": "v2.0.0"}]"#;
    let versions = parse_github_releases(releases(json), "test", "v").unwrap();
    assert_eq!(versions.len(), 2);
}

#[test]
fn test_parse_github_releases_all_unparseable_returns_error() {
    let json = r#"[{"tag_name": "bad"}, {"tag_name": "also-bad"}]"#;
    let result = parse_github_releases(releases(json), "test", "v");
    assert!(result.is_err());
    let msg = result.unwrap_err().to_string();
    assert!(msg.contains("no stable versions found"));
}

#[test]
fn test_parse_github_releases_empty_array_returns_error() {
    let result = parse_github_releases(releases("[]"), "test", "v");
    assert!(result.is_err());
}

#[test]
fn test_parse_github_releases_invalid_json_returns_error() {
    let result = parse_github_releases(releases("{not json}"), "test", "v");
    assert!(result.is_err());
}

#[test]
fn test_dummy_provider_temp_env_dirs_empty_by_default() {
    let provider = DummyProvider;
    assert!(provider.temp_env_dirs().is_empty());
}

#[test]
fn test_dummy_provider_post_install_command_none_by_default() {
    let provider = DummyProvider;
    let version = Version::new(1, 0, 0);
    let target = Target::new(Platform::MacOS, Arch::Aarch64);
    assert!(provider.post_install_command(&version, &target, "/tmp").is_none());
}

#[test]
fn test_get_provider_unknown_tool_error_message() {
    let result = get_provider("zig", vec![]);
    let Err(err) = result else {
        panic!("expected Err for unknown tool");
    };
    let msg = err.to_string();
    assert!(msg.contains("zig"));
    assert!(msg.contains("runx list"));
}

#[test]
fn test_provider_error_unknown_tool_display() {
    let err = ProviderError::UnknownTool { name: "zig".to_string() };
    let msg = err.to_string();
    assert!(msg.contains("unknown tool `zig`"));
    assert!(msg.contains("node, python, go, deno, bun, ruby, java, rust"));
}

#[test]
fn test_transient_status_codes() {
    assert!(is_transient_status(429));
    assert!(is_transient_status(500));
    assert!(is_transient_status(502));
    assert!(is_transient_status(503));
    assert!(is_transient_status(504));
}

#[test]
fn test_non_transient_status_codes() {
    assert!(!is_transient_status(400));
    assert!(!is_transient_status(401));
    assert!(!is_transient_status(403));
    assert!(!is_transient_status(404));
    assert!(!is_transient_status(200));
}

#[test]
fn test_exponential_backoff_delays() {
    assert_eq!(backoff_delay(1), 1);
    assert_eq!(backoff_delay(2), 2);
    assert_eq!(backoff_delay(3), 4);
}

#[test]
fn test_max_retries_is_three() {
    assert_eq!(MAX_RETRIES, 3);
}

#[test]
fn backoff_caps_at_64_seconds() {
    assert_eq!(backoff_delay(7), 64);
    assert_eq!(backoff_delay(8), 64);
    assert_eq!(backoff_delay(100), 64);
}

#[test]
fn retry_after_is_honoured_on_429_only() {
    assert_eq!(retry_delay(429, Some("17"), 1), 17);
    assert_eq!(retry_delay(429, Some("soon"), 2), 2);
    assert_eq!(retry_delay(503, Some("17"), 3), 4);
    assert_eq!(retry_delay(429, None, 1), 1);
}

#[test]
fn fetch_step_retries_transient_then_gives_up() {
    let status = |code: u16, text: &str| FetchOutcome::Status { code, text: text.to_string(), retry_after: None };
    match fetch_step(status(503, "503 Service Unavailable"), 1, "https://x/y", "node") {
        FetchStep::Retry { delay_secs, reason } => {
            assert_eq!(delay_secs, 1);
            assert_eq!(reason, "HTTP 503 Service Unavailable from https://x/y");
        }
        other => panic!("expected a retry, got {other:?}"),
    }
    match fetch_step(status(503, "503 Service Unavailable"), MAX_RETRIES, "https://x/y", "node") {
        FetchStep::Retry { delay_secs, .. } => assert_eq!(delay_secs, 4),
        other => panic!("expected the third retry, got {other:?}"),
    }
    match fetch_step(status(503, "503 Service Unavailable"), MAX_RETRIES + 1, "https://x/y", "node") {
        FetchStep::Fail(e) => assert_eq!(
            e.to_string(),
            "failed to resolve node version: HTTP 503 Service Unavailable from https://x/y\n  Check your network connection and try again."
        ),
        other => panic!("expected a failure, got {other:?}"),
    }
    match fetch_step(status(404, "404 Not Found"), 1, "https://x/y", "node") {
        FetchStep::Fail(_) => {}
        other => panic!("expected a failure, got {other:?}"),
    }
    match fetch_step(FetchOutcome::Failed("timeout".to_string()), 2, "https://x/y", "node") {
        FetchStep::Retry { delay_secs, .. } => assert_eq!(delay_secs, 2),
        other => panic!("expected a retry, got {other:?}"),
    }
    match fetch_step(FetchOutcome::Failed("timeout".to_string()), MAX_RETRIES + 1, "https://x/y", "node") {
        FetchStep::Fail(e) => assert!(e.to_string().contains("timeout")),
        other => panic!("expected a failure, got {other:?}"),
    }
    match fetch_step(FetchOutcome::Body("[]".to_string()), 1, "https://x/y", "node") {
        FetchStep::Done(b) => assert_eq!(b, "[]"),
        other => panic!("expected the body, got {other:?}"),
    }
}

#[test]
fn get_provider_finds_plugins_after_builtins() {
    let manifest = runx::plugin::PluginManifest {
        name: "zig".to_string(),
        aliases: vec!["ziglang".to_string()],
        description: String::new(),
        download_url: "https://example.com/{version}.tar.xz".to_string(),
        archive_format: "tar.xz".to_string(),
        bin_path: "bin".to_string(),
        interpreter: vec![],
        post_install: None,
        post_install_timeout: 300,
    };
    assert_eq!(get_provider("ziglang", vec![manifest.clone()]).unwrap().name(), "zig");
    assert_eq!(get_provider("node", vec![manifest]).unwrap().name(), "node");
}

#[test]
fn any_provider_dispatches_layout_to_the_tool() {
    let target = Target::new(Platform::Linux, Arch::X86_64);
    let version = Version::parse("1.22.0").unwrap();
    let go = get_provider("golang", vec![]).unwrap();
    assert_eq!(go.archive_format(&target), ArchiveFormat::TarGz);
    assert_eq!(go.bin_paths(&version, &target), vec!["go/bin".to_string()]);
    assert!(go.temp_env_dirs().is_empty());
    assert_eq!(go.post_install_command(&version, &target, "/opt/go"), None);
    let vars = go.env_vars("/opt/go");
    assert_eq!(vars.get("GOROOT").map(|s| s.as_str()), Some("/opt/go/go"));

    let deno = get_provider("deno", vec![]).unwrap();
    assert_eq!(deno.archive_format(&target), ArchiveFormat::Zip);
    assert_eq!(deno.temp_env_dirs(), vec!["DENO_DIR"]);

    let rust = get_provider("rust", vec![]).unwrap();
    assert_eq!(rust.temp_env_dirs(), vec!["CARGO_HOME"]);
    assert!(rust.post_install_command(&version, &target, "/opt/rust").is_some());
}

#[test]
fn join_path_follows_path_join() {
    use_join();
}

fn use_join() {
    assert_eq!(runx::provider::join_path("/cache", "node"), "/cache/node");
    assert_eq!(runx::provider::join_path("/cache/", "node"), "/cache/node");
    assert_eq!(runx::provider::join_path("", "node"), "node");
    assert_eq!(runx::provider::join_path("/cache", "/opt/node"), "/opt/node");
    assert_eq!(
        runx::provider::join_path("/cache", "/opt/node"),
        std::path::Path::new("/cache").join("/opt/node").to_string_lossy()
    );
}

#[test]
fn response_cache_answers_what_was_fetched() {
    let mut cache = runx::provider::ResponseCache::new();
    assert_eq!(cache.get("https://nodejs.org/dist/index.json"), None);
    cache.insert("https://nodejs.org/dist/index.json", "[1]".to_string());
    cache.insert("https://go.dev/dl/?mode=json", "[2]".to_string());
    cache.insert("https://nodejs.org/dist/index.json", "[3]".to_string());
    assert_eq!(cache.get("https://nodejs.org/dist/index.json").as_deref(), Some("[3]"));
    assert_eq!(cache.get("https://go.dev/dl/?mode=json").as_deref(), Some("[2]"));
}

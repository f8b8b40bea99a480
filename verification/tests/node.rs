use runx::platform::{Arch, Platform, Target};
use runx::provider::node::NodeIndexEntry;
use runx::provider::{ArchiveFormat, NodeProvider, Provider, get_provider};
use runx::version::Version;

fn macos_arm64() -> Target {
    Target::new(Platform::MacOS, Arch::Aarch64)
}

fn linux_x64() -> Target {
    Target::new(Platform::Linux, Arch::X86_64)
}

fn linux_arm64() -> Target {
    Target::new(Platform::Linux, Arch::Aarch64)
}

fn windows_x64() -> Target {
    Target::new(Platform::Windows, Arch::X86_64)
}

fn v(s: &str) -> Version {
    Version::parse(s).unwrap()
}

fn index(json: &str) -> Result<Vec<NodeIndexEntry>, String> {
    let value: serde_json::Value = serde_json::from_str(json).map_err(|e| e.to_string())?;
    let items = value.as_array().ok_or_else(|| "expected an array".to_string())?;
    items
        .iter()
        .map(|x| {
            x.get("version")
                .and_then(|t| t.as_str())
                .map(|t| NodeIndexEntry { version: t.to_string() })
                .ok_or_else(|| "missing field `version`".to_string())
        })
        .collect()
}

#[test]
fn node_test_name() {
    assert_eq!(NodeProvider.name(), "node");
}

#[test]
fn node_test_download_url_macos_arm64() {
    let url = NodeProvider.download_url(&v("18.19.1"), &macos_arm64()).unwrap();
    assert_eq!(url, "https://nodejs.org/dist/v18.19.1/node-v18.19.1-darwin-arm64.tar.gz");
}

#[test]
fn node_test_download_url_linux_x64() {
    let url = NodeProvider.download_url(&v("20.11.0"), &linux_x64()).unwrap();
    assert_eq!(url, "https://nodejs.org/dist/v20.11.0/node-v20.11.0-linux-x64.tar.gz");
}

#[test]
fn node_test_download_url_windows() {
    let url = NodeProvider.download_url(&v("18.19.1"), &windows_x64()).unwrap();
    assert_eq!(url, "https://nodejs.org/dist/v18.19.1/node-v18.19.1-win-x64.zip");
}

#[test]
fn node_test_archive_format_unix() {
    assert_eq!(NodeProvider.archive_format(&macos_arm64()), ArchiveFormat::TarGz);
    assert_eq!(NodeProvider.archive_format(&linux_x64()), ArchiveFormat::TarGz);
}

#[test]
fn node_test_archive_format_windows() {
    assert_eq!(NodeProvider.archive_format(&windows_x64()), ArchiveFormat::Zip);
}

#[test]
fn node_test_bin_paths_unix() {
    let paths = NodeProvider.bin_paths(&v("18.19.1"), &macos_arm64());
    assert_eq!(paths.len(), 1);
    assert_eq!(paths[0], "node-v18.19.1-darwin-arm64/bin");
}

#[test]
fn node_test_bin_paths_windows() {
    let paths = NodeProvider.bin_paths(&v("18.19.1"), &windows_x64());
    assert_eq!(paths.len(), 1);
    assert_eq!(paths[0], "node-v18.19.1-win-x64");
}

#[test]
fn node_test_env_vars() {
    let vars = NodeProvider.env_vars("/cache/node/18.19.1");
    assert_eq!(vars.get("NODE_HOME").unwrap().as_str(), "/cache/node/18.19.1");
    assert_eq!(vars.len(), 1);
}

#[test]
fn test_archive_dir_name() {
    assert_eq!(NodeProvider::archive_dir_name(&v("18.19.1"), &macos_arm64()), "node-v18.19.1-darwin-arm64");
    assert_eq!(NodeProvider::archive_dir_name(&v("20.11.0"), &linux_x64()), "node-v20.11.0-linux-x64");
    assert_eq!(NodeProvider::archive_dir_name(&v("18.19.1"), &windows_x64()), "node-v18.19.1-win-x64");
}

#[test]
fn node_test_download_url_linux_arm64() {
    let url = NodeProvider.download_url(&v("20.11.0"), &linux_arm64()).unwrap();
    assert_eq!(url, "https://nodejs.org/dist/v20.11.0/node-v20.11.0-linux-arm64.tar.gz");
}

#[test]
fn test_bin_paths_linux_arm64() {
    let paths = NodeProvider.bin_paths(&v("20.11.0"), &linux_arm64());
    assert_eq!(paths.len(), 1);
    assert_eq!(paths[0], "node-v20.11.0-linux-arm64/bin");
}

#[test]
fn node_test_parse_versions_basic() {
    let json = r#"[
        {"version": "v20.11.0", "lts": "Iron"},
        {"version": "v18.19.1", "lts": "Hydrogen"},
        {"version": "v21.6.1", "lts": false}
    ]"#;
    let versions = NodeProvider::parse_versions(index(json)).unwrap();
    assert_eq!(versions.len(), 3);
    assert!(versions.contains(&v("20.11.0")));
    assert!(versions.contains(&v("18.19.1")));
    assert!(versions.contains(&v("21.6.1")));
}

#[test]
fn test_parse_versions_filters_prerelease() {
    let json = r#"[
        {"version": "v20.0.0", "lts": false},
        {"version": "v20.0.0-rc.1", "lts": false}
    ]"#;
    let versions = NodeProvider::parse_versions(index(json)).unwrap();
    assert_eq!(versions.len(), 1);
    assert_eq!(versions[0], v("20.0.0"));
}

#[test]
fn node_test_parse_versions_empty_returns_error() {
    let json = r#"[]"#;
    let result = NodeProvider::parse_versions(index(json));
    assert!(result.is_err());
}

#[test]
fn test_parse_versions_invalid_json_returns_error() {
    let result = NodeProvider::parse_versions(index("not json"));
    assert!(result.is_err());
}

#[test]
fn test_parse_versions_strips_v_prefix() {
    let json = r#"[{"version": "v18.0.0", "lts": false}]"#;
    let versions = NodeProvider::parse_versions(index(json)).unwrap();
    assert_eq!(versions[0], v("18.0.0"));
}

#[test]
fn test_parse_versions_skips_unparseable() {
    let json = r#"[
        {"version": "v18.0.0", "lts": false},
        {"version": "not-a-version", "lts": false}
    ]"#;
    let versions = NodeProvider::parse_versions(index(json)).unwrap();
    assert_eq!(versions.len(), 1);
}

#[test]
fn test_get_provider_node() {
    let provider = get_provider("node", vec![]).unwrap();
    assert_eq!(provider.name(), "node");
}

#[test]
fn test_get_provider_nodejs_alias() {
    let provider = get_provider("nodejs", vec![]).unwrap();
    assert_eq!(provider.name(), "node");
}

#[test]
fn test_get_provider_unknown() {
    let result = get_provider("unknown", vec![]);
    assert!(result.is_err());
}

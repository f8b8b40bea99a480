use runx::platform::{Arch, Platform, Target};
use runx::provider::go::GoRelease;
use runx::provider::{ArchiveFormat, GoProvider, Provider, get_provider};
use runx::version::Version;

fn v(s: &str) -> Version {
    Version::parse(s).unwrap()
}

fn macos_arm64() -> Target {
    Target::new(Platform::MacOS, Arch::Aarch64)
}

fn linux_x64() -> Target {
    Target::new(Platform::Linux, Arch::X86_64)
}

fn linux_arm64() -> Target {
    Target::new(Platform::Linux, Arch::Aarch64)
}

fn windows_x64() -> Target {
    Target::new(Platform::Windows, Arch::X86_64)
}

fn go_index(json: &str) -> Result<Vec<GoRelease>, String> {
    let value: serde_json::Value = serde_json::from_str(json).map_err(|e| e.to_string())?;
    let items = value.as_array().ok_or_else(|| "expected an array".to_string())?;
    items
        .iter()
        .map(|x| {
            let version = x.get("version").and_then(|t| t.as_str()).ok_or_else(|| "missing field `version`".to_string())?;
            let stable = x.get("stable").and_then(|t| t.as_bool()).ok_or_else(|| "missing field `stable`".to_string())?;
            Ok(GoRelease { version: version.to_string(), stable })
        })
        .collect()
}

#[test]
fn go_test_name() {
    assert_eq!(GoProvider.name(), "go");
}

#[test]
fn go_test_download_url_macos_arm64() {
    let url = GoProvider.download_url(&v("1.21.6"), &macos_arm64()).unwrap();
    assert_eq!(url, "https://go.dev/dl/go1.21.6.darwin-arm64.tar.gz");
}

#[test]
fn go_test_download_url_linux_x64() {
    let url = GoProvider.download_url(&v("1.22.0"), &linux_x64()).unwrap();
    assert_eq!(url, "https://go.dev/dl/go1.22.0.linux-amd64.tar.gz");
}

#[test]
fn go_test_download_url_linux_arm64() {
    let url = GoProvider.download_url(&v("1.21.6"), &linux_arm64()).unwrap();
    assert_eq!(url, "https://go.dev/dl/go1.21.6.linux-arm64.tar.gz");
}

#[test]
fn go_test_download_url_windows() {
    let url = GoProvider.download_url(&v("1.21.6"), &windows_x64()).unwrap();
    assert_eq!(url, "https://go.dev/dl/go1.21.6.windows-amd64.zip");
}

#[test]
fn go_test_archive_format_unix() {
    assert_eq!(GoProvider.archive_format(&macos_arm64()), ArchiveFormat::TarGz);
    assert_eq!(GoProvider.archive_format(&linux_x64()), ArchiveFormat::TarGz);
}

#[test]
fn go_test_archive_format_windows() {
    assert_eq!(GoProvider.archive_format(&windows_x64()), ArchiveFormat::Zip);
}

#[test]
fn go_test_bin_paths() {
    let paths = GoProvider.bin_paths(&v("1.21.6"), &macos_arm64());
    assert_eq!(paths, vec!["go/bin".to_string()]);
}

#[test]
fn go_test_env_vars() {
    let vars = GoProvider.env_vars("/cache/go/1.21.6");
    assert_eq!(vars.get("GOROOT").unwrap().as_str(), "/cache/go/1.21.6/go");
}

#[test]
fn test_parse_go_version_full() {
    assert_eq!(GoProvider::parse_go_version("go1.21.6"), Some(v("1.21.6")));
}

#[test]
fn test_parse_go_version_no_patch() {
    assert_eq!(GoProvider::parse_go_version("go1.21"), Some(v("1.21.0")));
}

#[test]
fn test_parse_go_version_no_prefix() {
    assert!(GoProvider::parse_go_version("1.21.6").is_none());
}

#[test]
fn test_parse_go_version_invalid() {
    assert!(GoProvider::parse_go_version("gonotaversion").is_none());
}

#[test]
fn go_test_parse_versions_basic() {
    let json = r#"[
        {"version": "go1.22.0", "stable": true, "files": []},
        {"version": "go1.21.6", "stable": true, "files": []}
    ]"#;
    let versions = GoProvider::parse_versions(go_index(json)).unwrap();
    assert_eq!(versions.len(), 2);
    assert!(versions.contains(&v("1.22.0")));
    assert!(versions.contains(&v("1.21.6")));
}

#[test]
fn test_parse_versions_filters_unstable() {
    let json = r#"[
        {"version": "go1.22.0", "stable": true, "files": []},
        {"version": "go1.23rc1", "stable": false, "files": []}
    ]"#;
    let versions = GoProvider::parse_versions(go_index(json)).unwrap();
    assert_eq!(versions.len(), 1);
}

#[test]
fn test_parse_versions_deduplicates() {
    let json = r#"[
        {"version": "go1.21.6", "stable": true, "files": []},
        {"version": "go1.21.6", "stable": true, "files": []}
    ]"#;
    assert_eq!(GoProvider::parse_versions(go_index(json)).unwrap().len(), 1);
}

#[test]
fn go_test_parse_versions_empty_returns_error() {
    assert!(GoProvider::parse_versions(go_index("[]")).is_err());
}

#[test]
fn test_parse_versions_invalid_json() {
    assert!(GoProvider::parse_versions(go_index("not json")).is_err());
}

#[test]
fn test_go_os() {
    assert_eq!(GoProvider::go_os(Platform::MacOS), "darwin");
    assert_eq!(GoProvider::go_os(Platform::Linux), "linux");
    assert_eq!(GoProvider::go_os(Platform::Windows), "windows");
}

#[test]
fn test_go_arch() {
    assert_eq!(GoProvider::go_arch(Arch::X86_64), "amd64");
    assert_eq!(GoProvider::go_arch(Arch::Aarch64), "arm64");
}

#[test]
fn test_get_provider_go() {
    assert_eq!(get_provider("go", vec![]).unwrap().name(), "go");
}

#[test]
fn test_get_provider_golang_alias() {
    assert_eq!(get_provider("golang", vec![]).unwrap().name(), "go");
}

use runx::platform::{Arch, Platform, Target};
use runx::provider::{ArchiveFormat, BunProvider, Provider, SimpleGitHubRelease, get_provider};
use runx::version::Version;

fn v(s: &str) -> Version {
    Version::parse(s).unwrap()
}

fn macos_arm64() -> Target {
    Target::new(Platform::MacOS, Arch::Aarch64)
}

fn linux_x64() -> Target {
    Target::new(Platform::Linux, Arch::X86_64)
}

fn linux_arm64() -> Target {
    Target::new(Platform::Linux, Arch::Aarch64)
}

fn windows_x64() -> Target {
    Target::new(Platform::Windows, Arch::X86_64)
}

fn releases(json: &str) -> Result<Vec<SimpleGitHubRelease>, String> {
    let value: serde_json::Value = serde_json::from_str(json).map_err(|e| e.to_string())?;
    let items = value.as_array().ok_or_else(|| "expected an array".to_string())?;
    items
        .iter()
        .map(|x| {
            x.get("tag_name")
                .and_then(|t| t.as_str())
                .map(|t| SimpleGitHubRelease { tag_name: t.to_string() })
                .ok_or_else(|| "missing field `tag_name`".to_string())
        })
        .collect()
}

#[test]
fn bun_test_name() {
    assert_eq!(BunProvider.name(), "bun");
}

#[test]
fn bun_test_download_url_macos_arm64() {
    let url = BunProvider.download_url(&v("1.0.25"), &macos_arm64()).unwrap();
    assert_eq!(url, "https://github.com/oven-sh/bun/releases/download/bun-v1.0.25/bun-darwin-aarch64.zip");
}

#[test]
fn bun_test_download_url_macos_x64() {
    let target = Target::new(Platform::MacOS, Arch::X86_64);
    let url = BunProvider.download_url(&v("1.0.25"), &target).unwrap();
    assert_eq!(url, "https://github.com/oven-sh/bun/releases/download/bun-v1.0.25/bun-darwin-x64.zip");
}

#[test]
fn bun_test_download_url_linux_x64() {
    let url = BunProvider.download_url(&v("1.0.25"), &linux_x64()).unwrap();
    assert_eq!(url, "https://github.com/oven-sh/bun/releases/download/bun-v1.0.25/bun-linux-x64.zip");
}

#[test]
fn bun_test_download_url_linux_arm64() {
    let url = BunProvider.download_url(&v("1.0.25"), &linux_arm64()).unwrap();
    assert_eq!(url, "https://github.com/oven-sh/bun/releases/download/bun-v1.0.25/bun-linux-aarch64.zip");
}

#[test]
fn bun_test_download_url_windows_x64() {
    let url = BunProvider.download_url(&v("1.0.25"), &windows_x64()).unwrap();
    assert_eq!(url, "https://github.com/oven-sh/bun/releases/download/bun-v1.0.25/bun-windows-x64.zip");
}

#[test]
fn bun_test_download_url_windows_arm64_unsupported() {
    let target = Target::new(Platform::Windows, Arch::Aarch64);
    assert!(BunProvider.download_url(&v("1.0.25"), &target).is_err());
}

#[test]
fn bun_test_archive_format_always_zip() {
    assert_eq!(BunProvider.archive_format(&macos_arm64()), ArchiveFormat::Zip);
    assert_eq!(BunProvider.archive_format(&linux_x64()), ArchiveFormat::Zip);
    assert_eq!(BunProvider.archive_format(&windows_x64()), ArchiveFormat::Zip);
}

#[test]
fn bun_test_bin_paths_macos_arm64() {
    let paths = BunProvider.bin_paths(&v("1.0.25"), &macos_arm64());
    assert_eq!(paths, vec!["bun-darwin-aarch64".to_string()]);
}

#[test]
fn test_bin_paths_windows_x64() {
    let paths = BunProvider.bin_paths(&v("1.0.25"), &windows_x64());
    assert_eq!(paths, vec!["bun-windows-x64".to_string()]);
}

#[test]
fn bun_test_bin_paths_linux_x64() {
    let paths = BunProvider.bin_paths(&v("1.0.25"), &linux_x64());
    assert_eq!(paths, vec!["bun-linux-x64".to_string()]);
}

#[test]
fn bun_test_env_vars() {
    let vars = BunProvider.env_vars("/cache/bun/1.0.25");
    assert_eq!(vars.get("BUN_INSTALL").unwrap().as_str(), "/cache/bun/1.0.25");
    assert_eq!(vars.len(), 1);
}

#[test]
fn bun_test_parse_tag_valid() {
    assert_eq!(BunProvider::parse_tag("bun-v1.0.25"), Some(v("1.0.25")));
    assert_eq!(BunProvider::parse_tag("bun-v1.1.0"), Some(v("1.1.0")));
}

#[test]
fn bun_test_parse_tag_no_prefix() {
    assert!(BunProvider::parse_tag("v1.0.25").is_none());
    assert!(BunProvider::parse_tag("1.0.25").is_none());
}

#[test]
fn bun_test_parse_tag_invalid() {
    assert!(BunProvider::parse_tag("bun-vnotaversion").is_none());
}

#[test]
fn bun_test_parse_releases_basic() {
    let json = r#"[
        {"tag_name": "bun-v1.0.25"},
        {"tag_name": "bun-v1.0.24"},
        {"tag_name": "bun-v1.1.0"}
    ]"#;
    let versions = BunProvider::parse_releases(releases(json)).unwrap();
    assert_eq!(versions.len(), 3);
    assert!(versions.contains(&v("1.0.25")));
    assert!(versions.contains(&v("1.1.0")));
}

#[test]
fn bun_test_parse_releases_filters_prerelease() {
    let json = r#"[
        {"tag_name": "bun-v1.1.0-canary.1"},
        {"tag_name": "bun-v1.0.25"}
    ]"#;
    let versions = BunProvider::parse_releases(releases(json)).unwrap();
    assert_eq!(versions.len(), 1);
    assert_eq!(versions[0], v("1.0.25"));
}

#[test]
fn bun_test_parse_releases_deduplicates() {
    let json = r#"[
        {"tag_name": "bun-v1.0.25"},
        {"tag_name": "bun-v1.0.25"}
    ]"#;
    assert_eq!(BunProvider::parse_releases(releases(json)).unwrap().len(), 1);
}

#[test]
fn test_parse_releases_all_unparseable() {
    let json = r#"[{"tag_name": "not-a-bun-tag"}]"#;
    assert!(BunProvider::parse_releases(releases(json)).is_err());
}

#[test]
fn bun_test_parse_releases_empty_returns_error() {
    assert!(BunProvider::parse_releases(releases("[]")).is_err());
}

#[test]
fn bun_test_parse_releases_invalid_json() {
    assert!(BunProvider::parse_releases(releases("not json")).is_err());
}

#[test]
fn test_bun_target_all_supported() {
    assert_eq!(BunProvider::bun_target(&macos_arm64()).unwrap(), "darwin-aarch64");
    let macos_x64 = Target::new(Platform::MacOS, Arch::X86_64);
    assert_eq!(BunProvider::bun_target(&macos_x64).unwrap(), "darwin-x64");
    assert_eq!(BunProvider::bun_target(&linux_x64()).unwrap(), "linux-x64");
    assert_eq!(BunProvider::bun_target(&linux_arm64()).unwrap(), "linux-aarch64");
    assert_eq!(BunProvider::bun_target(&windows_x64()).unwrap(), "windows-x64");
}

#[test]
fn test_bun_target_windows_arm64_unsupported() {
    let target = Target::new(Platform::Windows, Arch::Aarch64);
    assert!(BunProvider::bun_target(&target).is_err());
}

#[test]
fn test_get_provider_bun() {
    assert_eq!(get_provider("bun", vec![]).ok().unwrap().name(), "bun");
}

#[test]
fn test_get_provider_bunx_alias() {
    assert_eq!(get_provider("bunx", vec![]).ok().unwrap().name(), "bun");
}

#[test]
fn bun_unsupported_target_message() {
    let target = Target::new(Platform::Windows, Arch::Aarch64);
    let err = BunProvider.download_url(&v("1.0.25"), &target).unwrap_err();
    assert_eq!(
        err.to_string(),
        "bun does not support target `Windows-aarch64`.\n  Run `runx list bun` to see supported platforms."
    );
}

#[test]
fn bun_release_errors_name_cause() {
    let err = BunProvider::parse_releases(Err("expected value at line 1 column 1".to_string())).unwrap_err();
    assert_eq!(
        err.to_string(),
        "failed to resolve bun version: failed to parse releases: expected value at line 1 column 1\n  Check your network connection and try again."
    );
    let err = BunProvider::parse_releases(releases("[]")).unwrap_err();
    assert!(err.to_string().contains("no stable versions found in releases"));
}

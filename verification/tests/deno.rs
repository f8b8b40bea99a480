use runx::platform::{Arch, Platform, Target};
use runx::provider::{ArchiveFormat, DenoProvider, Provider, SimpleGitHubRelease, get_provider};
use runx::version::Version;

fn v(s: &str) -> Version {
    Version::parse(s).unwrap()
}

fn macos_arm64() -> Target {
    Target::new(Platform::MacOS, Arch::Aarch64)
}

fn linux_x64() -> Target {
    Target::new(Platform::Linux, Arch::X86_64)
}

fn linux_arm64() -> Target {
    Target::new(Platform::Linux, Arch::Aarch64)
}

fn windows_x64() -> Target {
    Target::new(Platform::Windows, Arch::X86_64)
}

fn releases(json: &str) -> Result<Vec<SimpleGitHubRelease>, String> {
    let value: serde_json::Value = serde_json::from_str(json).map_err(|e| e.to_string())?;
    let items = value.as_array().ok_or_else(|| "expected an array".to_string())?;
    items
        .iter()
        .map(|x| {
            x.get("tag_name")
                .and_then(|t| t.as_str())
                .map(|t| SimpleGitHubRelease { tag_name: t.to_string() })
                .ok_or_else(|| "missing field `tag_name`".to_string())
        })
        .collect()
}

#[test]
fn deno_test_name() {
    assert_eq!(DenoProvider.name(), "deno");
}

#[test]
fn deno_test_download_url_macos_arm64() {
    let url = DenoProvider.download_url(&v("1.40.5"), &macos_arm64()).unwrap();
    assert_eq!(url, "https://github.com/denoland/deno/releases/download/v1.40.5/deno-aarch64-apple-darwin.zip");
}

#[test]
fn deno_test_download_url_macos_x64() {
    let target = Target::new(Platform::MacOS, Arch::X86_64);
    let url = DenoProvider.download_url(&v("1.40.5"), &target).unwrap();
    assert_eq!(url, "https://github.com/denoland/deno/releases/download/v1.40.5/deno-x86_64-apple-darwin.zip");
}

#[test]
fn deno_test_download_url_linux_x64() {
    let url = DenoProvider.download_url(&v("1.40.5"), &linux_x64()).unwrap();
    assert_eq!(url, "https://github.com/denoland/deno/releases/download/v1.40.5/deno-x86_64-unknown-linux-gnu.zip");
}

#[test]
fn deno_test_download_url_linux_arm64() {
    let url = DenoProvider.download_url(&v("1.40.5"), &linux_arm64()).unwrap();
    assert_eq!(url, "https://github.com/denoland/deno/releases/download/v1.40.5/deno-aarch64-unknown-linux-gnu.zip");
}

#[test]
fn deno_test_download_url_windows_x64() {
    let url = DenoProvider.download_url(&v("1.40.5"), &windows_x64()).unwrap();
    assert_eq!(url, "https://github.com/denoland/deno/releases/download/v1.40.5/deno-x86_64-pc-windows-msvc.zip");
}

#[test]
fn deno_test_download_url_windows_arm64_unsupported() {
    let target = Target::new(Platform::Windows, Arch::Aarch64);
    let result = DenoProvider.download_url(&v("1.40.5"), &target);
    assert!(result.is_err());
}

#[test]
fn deno_test_archive_format_always_zip() {
    assert_eq!(DenoProvider.archive_format(&macos_arm64()), ArchiveFormat::Zip);
    assert_eq!(DenoProvider.archive_format(&linux_x64()), ArchiveFormat::Zip);
    assert_eq!(DenoProvider.archive_format(&windows_x64()), ArchiveFormat::Zip);
}

#[test]
fn deno_test_bin_paths() {
    let paths = DenoProvider.bin_paths(&v("1.40.5"), &macos_arm64());
    assert_eq!(paths, vec![".".to_string()]);
}

#[test]
fn deno_test_env_vars_empty() {
    let vars = DenoProvider.env_vars("/cache/deno/1.40.5");
    assert!(vars.is_empty());
}

#[test]
fn deno_test_parse_tag_valid() {
    assert_eq!(DenoProvider::parse_tag("v1.40.5"), Some(v("1.40.5")));
    assert_eq!(DenoProvider::parse_tag("v2.0.0"), Some(v("2.0.0")));
}

#[test]
fn deno_test_parse_tag_no_prefix() {
    assert!(DenoProvider::parse_tag("1.40.5").is_none());
}

#[test]
fn deno_test_parse_tag_invalid() {
    assert!(DenoProvider::parse_tag("vnotaversion").is_none());
}

#[test]
fn deno_test_parse_releases_basic() {
    let json = r#"[
        {"tag_name": "v1.40.5"},
        {"tag_name": "v1.40.4"},
        {"tag_name": "v1.39.0"}
    ]"#;
    let versions = DenoProvider::parse_releases(releases(json)).unwrap();
    assert_eq!(versions.len(), 3);
    assert!(versions.contains(&v("1.40.5")));
    assert!(versions.contains(&v("1.39.0")));
}

#[test]
fn deno_test_parse_releases_filters_prerelease() {
    let json = r#"[
        {"tag_name": "v2.0.0-rc.1"},
        {"tag_name": "v1.40.5"}
    ]"#;
    let versions = DenoProvider::parse_releases(releases(json)).unwrap();
    assert_eq!(versions.len(), 1);
    assert_eq!(versions[0], v("1.40.5"));
}

#[test]
fn test_parse_releases_all_unparseable_returns_error() {
    let json = r#"[{"tag_name": "notaversion"}, {"tag_name": "also-bad"}]"#;
    assert!(DenoProvider::parse_releases(releases(json)).is_err());
}

#[test]
fn deno_test_parse_releases_deduplicates() {
    let json = r#"[
        {"tag_name": "v1.40.5"},
        {"tag_name": "v1.40.5"}
    ]"#;
    let versions = DenoProvider::parse_releases(releases(json)).unwrap();
    assert_eq!(versions.len(), 1);
}

#[test]
fn deno_test_parse_releases_empty_returns_error() {
    assert!(DenoProvider::parse_releases(releases("[]")).is_err());
}

#[test]
fn deno_test_parse_releases_invalid_json() {
    assert!(DenoProvider::parse_releases(releases("not json")).is_err());
}

#[test]
fn test_deno_target_all_supported() {
    assert_eq!(DenoProvider::deno_target(&macos_arm64()).unwrap(), "aarch64-apple-darwin");
    assert_eq!(DenoProvider::deno_target(&linux_x64()).unwrap(), "x86_64-unknown-linux-gnu");
    assert_eq!(DenoProvider::deno_target(&linux_arm64()).unwrap(), "aarch64-unknown-linux-gnu");
    assert_eq!(DenoProvider::deno_target(&windows_x64()).unwrap(), "x86_64-pc-windows-msvc");
}

#[test]
fn test_deno_target_windows_arm64_unsupported() {
    let target = Target::new(Platform::Windows, Arch::Aarch64);
    assert!(DenoProvider::deno_target(&target).is_err());
}

#[test]
fn test_get_provider_deno() {
    assert_eq!(get_provider("deno", vec![]).unwrap().name(), "deno");
}

#[test]
fn deno_temp_dir_variable() {
    assert_eq!(DenoProvider.temp_env_dirs(), vec!["DENO_DIR"]);
}

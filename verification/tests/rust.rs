use runx::platform::{Arch, Platform, Target};
use runx::provider::{ArchiveFormat, Provider, RustProvider, get_provider};
use runx::version::Version;

fn v(s: &str) -> Version {
    Version::parse(s).unwrap()
}

fn macos_arm64() -> Target {
    Target::new(Platform::MacOS, Arch::Aarch64)
}

fn linux_x64() -> Target {
    Target::new(Platform::Linux, Arch::X86_64)
}

fn windows_x64() -> Target {
    Target::new(Platform::Windows, Arch::X86_64)
}

fn channel(text: &str) -> Result<String, String> {
    let value: toml::Value = toml::from_str(text).map_err(|e| e.to_string())?;
    value
        .get("pkg")
        .and_then(|p| p.get("rust"))
        .and_then(|r| r.get("version"))
        .and_then(|x| x.as_str())
        .map(|x| x.to_string())
        .ok_or_else(|| "missing field `pkg.rust.version`".to_string())
}

#[test]
fn rust_test_name() {
    assert_eq!(RustProvider.name(), "rust");
}

#[test]
fn rust_test_archive_format() {
    assert_eq!(RustProvider.archive_format(&macos_arm64()), ArchiveFormat::TarGz);
    assert_eq!(RustProvider.archive_format(&linux_x64()), ArchiveFormat::TarGz);
}

#[test]
fn rust_test_bin_paths() {
    let paths = RustProvider.bin_paths(&v("1.77.0"), &macos_arm64());
    assert_eq!(paths, vec!["bin".to_string()]);
}

#[test]
fn rust_test_env_vars_empty() {
    let vars = RustProvider.env_vars("/cache/rust/1.77.0");
    assert!(vars.is_empty());
}

#[test]
fn rust_test_temp_env_dirs() {
    assert_eq!(RustProvider.temp_env_dirs(), vec!["CARGO_HOME"]);
}

#[test]
fn rust_test_download_url_macos_arm64() {
    let url = RustProvider.download_url(&v("1.77.0"), &macos_arm64()).unwrap();
    assert_eq!(url, "https://static.rust-lang.org/dist/rust-1.77.0-aarch64-apple-darwin.tar.gz");
}

#[test]
fn rust_test_download_url_linux_x64() {
    let url = RustProvider.download_url(&v("1.77.0"), &linux_x64()).unwrap();
    assert_eq!(url, "https://static.rust-lang.org/dist/rust-1.77.0-x86_64-unknown-linux-gnu.tar.gz");
}

#[test]
fn test_post_install_command() {
    let cmd = RustProvider.post_install_command(&v("1.77.0"), &linux_x64(), "/cache/rust/1.77.0").unwrap();
    assert!(cmd.contains("install.sh"));
    assert!(cmd.contains("'--prefix=/cache/rust/1.77.0'"));
    assert!(cmd.contains("rust-1.77.0-x86_64-unknown-linux-gnu"));
}

#[test]
fn rust_test_download_url_windows_unsupported() {
    assert!(RustProvider.download_url(&v("1.77.0"), &windows_x64()).is_err());
}

#[test]
fn test_get_provider_cargo_alias() {
    assert_eq!(get_provider("cargo", vec![]).unwrap().name(), "rust");
}

#[test]
fn test_get_provider_rust() {
    assert_eq!(get_provider("rust", vec![]).unwrap().name(), "rust");
}

#[test]
fn test_get_provider_rustc_alias() {
    assert_eq!(get_provider("rustc", vec![]).unwrap().name(), "rust");
}

#[test]
fn test_parse_channel_version_valid() {
    let toml = r#"
manifest-version = "2"
date = "2026-03-05"
[pkg.rust]
version = "1.94.0 (4a4ef493e 2026-03-02)"
"#;
    let version = RustProvider::parse_channel_version(channel(toml)).unwrap();
    assert_eq!(version, v("1.94.0"));
}

#[test]
fn test_parse_channel_version_no_version_returns_error() {
    let toml = r#"
manifest-version = "2"
date = "2026-03-05"
"#;
    assert!(RustProvider::parse_channel_version(channel(toml)).is_err());
}

#[test]
fn test_parse_channel_version_invalid_version_string() {
    let toml = r#"
[pkg.rust]
version = "not-a-version"
"#;
    assert!(RustProvider::parse_channel_version(channel(toml)).is_err());
}

#[test]
fn test_parse_channel_version_multi_package_manifest() {
    let toml = r#"
manifest-version = "2"
date = "2026-03-05"
[pkg.cargo]
version = "0.95.0 (abc1234 2026-03-01)"
[pkg.rust]
version = "1.94.0 (4a4ef493e 2026-03-02)"
[pkg.clippy]
version = "0.1.94 (def5678 2026-03-02)"
"#;
    let version = RustProvider::parse_channel_version(channel(toml)).unwrap();
    assert_eq!(version, v("1.94.0"));
}

#[test]
fn test_parse_channel_version_no_pkg_rust_returns_error() {
    let toml = r#"
manifest-version = "2"
[pkg.cargo]
version = "0.95.0 (abc1234 2026-03-01)"
"#;
    assert!(RustProvider::parse_channel_version(channel(toml)).is_err());
}

#[test]
fn test_generate_candidates_includes_range() {
    let latest = v("1.80.0");
    let candidates = RustProvider::generate_candidates(&latest);
    assert_eq!(candidates.len(), 61);
    assert!(candidates.contains(&v("1.20.0")));
    assert!(candidates.contains(&v("1.80.0")));
    assert!(!candidates.contains(&v("1.19.0")));
}

#[test]
fn test_generate_candidates_with_patch_version() {
    let latest = v("1.77.2");
    let candidates = RustProvider::generate_candidates(&latest);
    assert!(candidates.contains(&v("1.77.0")));
    assert!(candidates.contains(&v("1.77.2")));
}

#[test]
fn test_generate_candidates_no_duplicate_for_patch_zero() {
    let latest = v("1.80.0");
    let candidates = RustProvider::generate_candidates(&latest);
    let target = v("1.80.0");
    let count = candidates.iter().filter(|c| **c == target).count();
    assert_eq!(count, 1);
}

#[test]
fn test_generate_candidates_below_min_minor_returns_empty() {
    let latest = v("1.19.0");
    let candidates = RustProvider::generate_candidates(&latest);
    assert!(candidates.is_empty());
}

#[test]
fn test_generate_candidates_exact_min_minor() {
    let latest = v("1.20.0");
    let candidates = RustProvider::generate_candidates(&latest);
    assert_eq!(candidates.len(), 1);
    assert_eq!(candidates[0], v("1.20.0"));
}

#[test]
fn rust_channel_error_messages() {
    let err = RustProvider::parse_channel_version(Ok("   ".to_string())).unwrap_err();
    assert!(err.to_string().contains("empty version string in channel manifest"));
    let err = RustProvider::parse_channel_version(Ok("not-a-version (x)".to_string())).unwrap_err();
    assert!(err.to_string().contains("invalid version `not-a-version` in channel manifest: "));
    let err = RustProvider::parse_channel_version(Err("bad".to_string())).unwrap_err();
    assert!(err.to_string().contains("failed to parse channel manifest: bad"));
}

use runx::platform::{Arch, Platform, Target};
use runx::provider::python::{PythonAsset, PythonRelease};
use runx::provider::{ArchiveFormat, Provider, PythonProvider, get_provider};
use runx::version::Version;

fn v(s: &str) -> Version {
    Version::parse(s).unwrap()
}

fn macos_arm64() -> Target {
    Target::new(Platform::MacOS, Arch::Aarch64)
}

fn linux_x64() -> Target {
    Target::new(Platform::Linux, Arch::X86_64)
}

fn windows_x64() -> Target {
    Target::new(Platform::Windows, Arch::X86_64)
}

fn releases(json: &str) -> Result<Vec<PythonRelease>, String> {
    let value: serde_json::Value = serde_json::from_str(json).map_err(|e| e.to_string())?;
    let items = value.as_array().ok_or_else(|| "expected an array".to_string())?;
    let mut out = Vec::new();
    for r in items {
        let tag = r.get("tag_name").and_then(|t| t.as_str()).ok_or_else(|| "missing field `tag_name`".to_string())?;
        let assets = r.get("assets").and_then(|a| a.as_array()).ok_or_else(|| "missing field `assets`".to_string())?;
        let mut list = Vec::new();
        for a in assets {
            let name = a.get("name").and_then(|t| t.as_str()).ok_or_else(|| "missing field `name`".to_string())?;
            let url = a
                .get("browser_download_url")
                .and_then(|t| t.as_str())
                .ok_or_else(|| "missing field `browser_download_url`".to_string())?;
            list.push(PythonAsset { name: name.to_string(), browser_download_url: url.to_string() });
        }
        out.push(PythonRelease { tag_name: tag.to_string(), assets: list });
    }
    Ok(out)
}

#[test]
fn python_test_name() {
    assert_eq!(PythonProvider.name(), "python");
}

#[test]
fn test_archive_format_always_tar_gz() {
    assert_eq!(PythonProvider.archive_format(&macos_arm64()), ArchiveFormat::TarGz);
    assert_eq!(PythonProvider.archive_format(&windows_x64()), ArchiveFormat::TarGz);
}

#[test]
fn python_test_bin_paths_unix() {
    let paths = PythonProvider.bin_paths(&v("3.11.8"), &macos_arm64());
    assert_eq!(paths, vec!["python/bin".to_string()]);
}

#[test]
fn python_test_bin_paths_windows() {
    let paths = PythonProvider.bin_paths(&v("3.11.8"), &windows_x64());
    assert_eq!(paths.len(), 2);
}

#[test]
fn python_test_env_vars() {
    let vars = PythonProvider.env_vars("/cache/python/3.11.8");
    assert_eq!(vars.get("PYTHONHOME").unwrap().as_str(), "/cache/python/3.11.8/python");
}

#[test]
fn test_extract_version_valid() {
    let name = "cpython-3.11.8+20240224-aarch64-apple-darwin-install_only.tar.gz";
    assert_eq!(PythonProvider::extract_version_from_asset(name), Some(v("3.11.8")));
}

#[test]
fn test_extract_version_ignores_non_install_only() {
    let name = "cpython-3.11.8+20240224-aarch64-apple-darwin-debug.tar.gz";
    assert!(PythonProvider::extract_version_from_asset(name).is_none());
}

#[test]
fn test_extract_version_ignores_sha256() {
    let name = "cpython-3.11.8+20240224-aarch64-apple-darwin-install_only.tar.gz.sha256";
    assert!(PythonProvider::extract_version_from_asset(name).is_none());
}

#[test]
fn test_extract_version_malformed() {
    let name = "cpython-notaversion+20240224-x86_64-unknown-linux-gnu-install_only.tar.gz";
    assert!(PythonProvider::extract_version_from_asset(name).is_none());
}

#[test]
fn python_test_parse_releases_basic() {
    let json = r#"[{
        "tag_name": "20240224",
        "assets": [
            {"name": "cpython-3.11.8+20240224-aarch64-apple-darwin-install_only.tar.gz", "browser_download_url": "https://example.com/1.tar.gz"},
            {"name": "cpython-3.12.2+20240224-x86_64-unknown-linux-gnu-install_only.tar.gz", "browser_download_url": "https://example.com/2.tar.gz"},
            {"name": "SHA256SUMS", "browser_download_url": "https://example.com/SHA256SUMS"}
        ]
    }]"#;
    let versions = PythonProvider::parse_releases(releases(json)).unwrap();
    assert_eq!(versions.len(), 2);
}

#[test]
fn python_test_parse_releases_deduplicates() {
    let json = r#"[{
        "tag_name": "20240224",
        "assets": [
            {"name": "cpython-3.11.8+20240224-aarch64-apple-darwin-install_only.tar.gz", "browser_download_url": "https://example.com/1.tar.gz"},
            {"name": "cpython-3.11.8+20240224-x86_64-unknown-linux-gnu-install_only.tar.gz", "browser_download_url": "https://example.com/2.tar.gz"}
        ]
    }]"#;
    let versions = PythonProvider::parse_releases(releases(json)).unwrap();
    assert_eq!(versions.len(), 1);
}

#[test]
fn test_parse_releases_excludes_prerelease() {
    let json = r#"[{
        "tag_name": "20240224",
        "assets": [
            {"name": "cpython-3.13.0a1+20240224-x86_64-unknown-linux-gnu-install_only.tar.gz", "browser_download_url": "https://example.com/alpha.tar.gz"},
            {"name": "cpython-3.12.2+20240224-x86_64-unknown-linux-gnu-install_only.tar.gz", "browser_download_url": "https://example.com/stable.tar.gz"}
        ]
    }]"#;
    let versions = PythonProvider::parse_releases(releases(json)).unwrap();
    assert_eq!(versions.len(), 1);
}

#[test]
fn python_test_parse_releases_empty_returns_error() {
    assert!(PythonProvider::parse_releases(releases("[]")).is_err());
}

#[test]
fn python_test_parse_releases_invalid_json() {
    assert!(PythonProvider::parse_releases(releases("not json")).is_err());
}

fn one_release(assets: Vec<(&str, &str)>) -> Vec<PythonRelease> {
    vec![PythonRelease {
        tag_name: "20240224".to_string(),
        assets: assets
            .into_iter()
            .map(|(n, u)| PythonAsset { name: n.to_string(), browser_download_url: u.to_string() })
            .collect(),
    }]
}

#[test]
fn test_find_url_macos_arm64() {
    let releases = one_release(vec![(
        "cpython-3.11.8+20240224-aarch64-apple-darwin-install_only.tar.gz",
        "https://example.com/macos.tar.gz",
    )]);
    let url = PythonProvider::find_url_in_releases(&releases, &v("3.11.8"), &macos_arm64()).unwrap();
    assert_eq!(url, "https://example.com/macos.tar.gz");
}

#[test]
fn test_find_url_not_found() {
    let releases = one_release(vec![(
        "cpython-3.11.8+20240224-x86_64-unknown-linux-gnu-install_only.tar.gz",
        "https://example.com/linux.tar.gz",
    )]);
    assert!(PythonProvider::find_url_in_releases(&releases, &v("3.99.0"), &linux_x64()).is_err());
}

#[test]
fn test_find_url_ignores_sha256() {
    let releases = one_release(vec![
        (
            "cpython-3.11.8+20240224-x86_64-unknown-linux-gnu-install_only.tar.gz.sha256",
            "https://example.com/checksum",
        ),
        ("cpython-3.11.8+20240224-x86_64-unknown-linux-gnu-install_only.tar.gz", "https://example.com/real.tar.gz"),
    ]);
    let url = PythonProvider::find_url_in_releases(&releases, &v("3.11.8"), &linux_x64()).unwrap();
    assert_eq!(url, "https://example.com/real.tar.gz");
}

#[test]
fn test_get_provider_python() {
    assert_eq!(get_provider("python", vec![]).unwrap().name(), "python");
}

#[test]
fn test_get_provider_python3_alias() {
    assert_eq!(get_provider("python3", vec![]).unwrap().name(), "python");
}

#[test]
fn test_temp_env_dirs_empty() {
    assert!(PythonProvider.temp_env_dirs().is_empty());
}

#[test]
fn python_not_found_names_version_and_target() {
    let releases = one_release(vec![]);
    let err = PythonProvider::find_url_in_releases(&releases, &v("3.99.0"), &linux_x64()).unwrap_err();
    assert!(err.to_string().contains("no python version found matching `3.99.0 for Linux-x86_64`"));
}

#[test]
fn versions_from_releases_keeps_stable_versions_once() {
    let releases = one_release(vec![
        ("cpython-3.11.8+20240224-aarch64-apple-darwin-install_only.tar.gz", "a"),
        ("cpython-3.11.8+20240224-x86_64-unknown-linux-gnu-install_only.tar.gz", "b"),
        ("cpython-3.13.0rc1+20240224-x86_64-unknown-linux-gnu-install_only.tar.gz", "c"),
        ("cpython-3.12.2+20240224-x86_64-unknown-linux-gnu-install_only.tar.gz.sha256", "d"),
        ("cpython-3.12.2+20240224-x86_64-unknown-linux-gnu-install_only.tar.gz", "e"),
    ]);
    assert_eq!(PythonProvider::versions_from_releases(&releases), vec![v("3.11.8"), v("3.12.2")]);
}

#[test]
fn resolve_in_releases_picks_highest_match_or_fails() {
    let releases = one_release(vec![
        ("cpython-3.11.8+20240224-x86_64-unknown-linux-gnu-install_only.tar.gz", "a"),
        ("cpython-3.12.2+20240224-x86_64-unknown-linux-gnu-install_only.tar.gz", "b"),
        ("cpython-3.11.9+20240224-x86_64-unknown-linux-gnu-install_only.tar.gz", "c"),
    ]);
    let spec: runx::version::VersionSpec = "3.11".parse().unwrap();
    assert_eq!(PythonProvider::resolve_in_releases(&releases, &spec).unwrap(), v("3.11.9"));
    let missing: runx::version::VersionSpec = "2".parse().unwrap();
    assert!(PythonProvider::resolve_in_releases(&releases, &missing).is_err());
    let none = PythonProvider::resolve_in_releases(&vec![], &spec).unwrap_err();
    assert_eq!(none.to_string(), "failed to resolve python version: no Python versions found\n  Check your network connection and try again.");
}

#[test]
fn decoded_releases_reports_decoding_errors() {
    let err = PythonProvider::decoded_releases(Err("eof".to_string())).unwrap_err();
    assert_eq!(err.to_string(), "failed to resolve python version: failed to parse releases: eof\n  Check your network connection and try again.");
    assert_eq!(PythonProvider::decoded_releases(Ok(vec![])).unwrap().len(), 0);
}

#[test]
fn python_releases_url() {
    assert_eq!(
        PythonProvider::releases_url(),
        "https://api.github.com/repos/astral-sh/python-build-standalone/releases?per_page=30"
    );
}

use runx::platform::{Arch, Platform, Target};
use runx::provider::java::AdoptiumVersion;
use runx::provider::{ArchiveFormat, JavaProvider, Provider, get_provider};
use runx::version::Version;

fn v(s: &str) -> Version {
    Version::parse(s).unwrap()
}

fn macos_arm64() -> Target {
    Target::new(Platform::MacOS, Arch::Aarch64)
}

fn linux_x64() -> Target {
    Target::new(Platform::Linux, Arch::X86_64)
}

fn windows_x64() -> Target {
    Target::new(Platform::Windows, Arch::X86_64)
}

fn version_response(json: &str) -> Result<Vec<AdoptiumVersion>, String> {
    let value: serde_json::Value = serde_json::from_str(json).map_err(|e| e.to_string())?;
    let items = value
        .get("versions")
        .and_then(|x| x.as_array())
        .ok_or_else(|| "missing field `versions`".to_string())?;
    items
        .iter()
        .map(|x| {
            let num = |k: &str| x.get(k).and_then(|t| t.as_u64()).ok_or_else(|| format!("missing field `{k}`"));
            Ok(AdoptiumVersion {
                major: num("major")?,
                minor: num("minor")?,
                security: num("security")?,
                semver: x
                    .get("semver")
                    .and_then(|t| t.as_str())
                    .ok_or_else(|| "missing field `semver`".to_string())?
                    .to_string(),
            })
        })
        .collect()
}

#[test]
fn java_test_name() {
    assert_eq!(JavaProvider.name(), "java");
}

#[test]
fn java_test_archive_format_unix() {
    assert_eq!(JavaProvider.archive_format(&macos_arm64()), ArchiveFormat::TarGz);
    assert_eq!(JavaProvider.archive_format(&linux_x64()), ArchiveFormat::TarGz);
}

#[test]
fn java_test_archive_format_windows() {
    assert_eq!(JavaProvider.archive_format(&windows_x64()), ArchiveFormat::Zip);
}

#[test]
fn test_bin_paths_macos() {
    let paths = JavaProvider.bin_paths(&v("21.0.2"), &macos_arm64());
    assert_eq!(paths, vec!["jdk-21.0.2/Contents/Home/bin".to_string()]);
}

#[test]
fn test_bin_paths_linux() {
    let paths = JavaProvider.bin_paths(&v("21.0.2"), &linux_x64());
    assert_eq!(paths, vec!["jdk-21.0.2/bin".to_string()]);
}

#[test]
fn java_test_env_vars() {
    let vars = JavaProvider.env_vars("/cache/java/21.0.2");
    assert_eq!(vars.get("JAVA_HOME").unwrap().as_str(), "/cache/java/21.0.2");
}

#[test]
fn test_adoptium_os() {
    assert_eq!(JavaProvider::adoptium_os(Platform::MacOS), "mac");
    assert_eq!(JavaProvider::adoptium_os(Platform::Linux), "linux");
    assert_eq!(JavaProvider::adoptium_os(Platform::Windows), "windows");
}

#[test]
fn test_adoptium_arch() {
    assert_eq!(JavaProvider::adoptium_arch(Arch::X86_64), "x64");
    assert_eq!(JavaProvider::adoptium_arch(Arch::Aarch64), "aarch64");
}

#[test]
fn test_download_url_contains_version() {
    let url = JavaProvider.download_url(&v("21.0.2"), &linux_x64()).unwrap();
    assert!(url.contains("jdk-21.0.2"));
    assert!(url.contains("linux"));
    assert!(url.contains("x64"));
}

#[test]
fn test_parse_version_response() {
    let json = r#"{"versions": [{"major": 21, "minor": 0, "security": 2, "semver": "21.0.2+13.0.LTS"}]}"#;
    let versions = JavaProvider::parse_version_response(version_response(json)).unwrap();
    assert_eq!(versions.len(), 1);
    assert_eq!(versions[0], v("21.0.2"));
}

#[test]
fn test_get_provider_java() {
    assert_eq!(get_provider("java", vec![]).unwrap().name(), "java");
}

#[test]
fn test_get_provider_jdk_alias() {
    assert_eq!(get_provider("jdk", vec![]).unwrap().name(), "java");
}

#[test]
fn java_finish_versions_sorts_and_dedups() {
    let found = vec![v("17.0.9"), v("21.0.2"), v("17.0.9"), v("11.0.21")];
    let all = JavaProvider::finish_versions(found).unwrap();
    let texts: Vec<String> = all.iter().map(|x| x.to_string()).collect();
    assert_eq!(texts, vec!["21.0.2", "17.0.9", "11.0.21"]);
    let err = JavaProvider::finish_versions(vec![]).unwrap_err();
    assert!(err.to_string().contains("no Java versions found"));
}

#[test]
fn java_release_versions_url_names_major() {
    let url = JavaProvider::release_versions_url(21);
    assert!(url.contains("21"));
    assert!(url.contains("22"));
}

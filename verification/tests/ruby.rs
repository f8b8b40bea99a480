use runx::platform::{Arch, Platform, Target};
use runx::provider::{ArchiveFormat, Provider, RubyProvider, get_provider};
use runx::version::Version;

fn v(s: &str) -> Version {
    Version::parse(s).unwrap()
}

fn macos_arm64() -> Target {
    Target::new(Platform::MacOS, Arch::Aarch64)
}

fn linux_x64() -> Target {
    Target::new(Platform::Linux, Arch::X86_64)
}

fn linux_arm64() -> Target {
    Target::new(Platform::Linux, Arch::Aarch64)
}

fn windows_x64() -> Target {
    Target::new(Platform::Windows, Arch::X86_64)
}

#[test]
fn ruby_test_name() {
    assert_eq!(RubyProvider.name(), "ruby");
}

#[test]
fn ruby_test_archive_format() {
    assert_eq!(RubyProvider.archive_format(&macos_arm64()), ArchiveFormat::TarGz);
}

#[test]
fn ruby_test_bin_paths_macos_arm64() {
    let paths = RubyProvider.bin_paths(&v("3.3.0"), &macos_arm64());
    assert_eq!(paths, vec!["arm64/bin".to_string()]);
}

#[test]
fn ruby_test_bin_paths_linux_x64() {
    let paths = RubyProvider.bin_paths(&v("3.3.0"), &linux_x64());
    assert_eq!(paths, vec!["x64/bin".to_string()]);
}

#[test]
fn ruby_test_temp_env_dirs() {
    let dirs = RubyProvider.temp_env_dirs();
    assert!(dirs.contains(&"GEM_HOME"));
    assert!(dirs.contains(&"GEM_PATH"));
}

#[test]
fn ruby_test_download_url_macos_arm64() {
    let url = RubyProvider.download_url(&v("3.3.0"), &macos_arm64()).unwrap();
    assert!(url.contains("ruby-3.3.0-darwin-arm64.tar.gz"));
}

#[test]
fn ruby_test_download_url_linux_x64() {
    let url = RubyProvider.download_url(&v("3.3.0"), &linux_x64()).unwrap();
    assert!(url.contains("ruby-3.3.0-ubuntu-22.04-x64.tar.gz"));
}

#[test]
fn ruby_test_download_url_windows_unsupported() {
    assert!(RubyProvider.download_url(&v("3.3.0"), &windows_x64()).is_err());
}

#[test]
fn test_ruby_platform() {
    assert_eq!(RubyProvider::ruby_platform(&macos_arm64()).unwrap(), "darwin-arm64");
    assert_eq!(RubyProvider::ruby_platform(&linux_x64()).unwrap(), "ubuntu-22.04-x64");
}

#[test]
fn test_extract_version() {
    assert_eq!(RubyProvider::extract_version("ruby-3.3.0-ubuntu-22.04.tar.gz"), Some(v("3.3.0")));
    assert!(RubyProvider::extract_version("something-else.tar.gz").is_none());
    assert!(RubyProvider::extract_version("ruby-head-ubuntu-22.04.tar.gz").is_none());
}

#[test]
fn test_ruby_platform_macos_x64() {
    let target = Target::new(Platform::MacOS, Arch::X86_64);
    assert_eq!(RubyProvider::ruby_platform(&target).unwrap(), "darwin-x64");
}

#[test]
fn test_ruby_platform_linux_arm64() {
    assert_eq!(RubyProvider::ruby_platform(&linux_arm64()).unwrap(), "ubuntu-22.04-arm64");
}

#[test]
fn test_get_provider_ruby() {
    assert_eq!(get_provider("ruby", vec![]).unwrap().name(), "ruby");
}

#[test]
fn test_get_provider_rb_alias() {
    assert_eq!(get_provider("rb", vec![]).unwrap().name(), "ruby");
}

#[test]
fn ruby_library_path_variables() {
    let linux = RubyProvider.env_vars("/cache/ruby/3.3.0");
    assert!(linux.len() >= 1);
}

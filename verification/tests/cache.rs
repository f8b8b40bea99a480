use runx::cache::{Cache, CacheError};
use runx::platform::{Arch, Platform, Target};
use runx::version::Version;

fn test_target() -> Target {
    Target { platform: Platform::MacOS, arch: Arch::Aarch64 }
}

fn test_version() -> Version {
    Version::new(18, 19, 1)
}

#[test]
fn test_cache_install_path() {
    let cache = Cache::with_root("/tmp/test-cache".to_string());
    let path = cache.install_path("node", &test_version(), &test_target());
    assert_eq!(path, "/tmp/test-cache/node/18.19.1/macOS-aarch64");
}

#[test]
fn test_cache_error_display() {
    let err = CacheError::NoHomeDir;
    assert_eq!(err.to_string(), "cannot determine home directory");

    let err = CacheError::Io { path: "/tmp/test".to_string(), reason: "not found".to_string() };
    assert!(err.to_string().contains("/tmp/test"));
}

#[test]
fn cache_root_under_home() {
    let cache = Cache::from_home(Some("/home/dev".to_string())).unwrap();
    assert_eq!(cache.root(), "/home/dev/.runx/cache");
    assert_eq!(cache.tool_dir("node"), "/home/dev/.runx/cache/node");
    assert!(matches!(Cache::from_home(None), Err(CacheError::NoHomeDir)));
}

#[test]
fn install_path_with_trailing_slash_root() {
    let cache = Cache::with_root("/c/".to_string());
    let path = cache.install_path("python", &Version::new(3, 11, 0), &Target::new(Platform::Linux, Arch::X86_64));
    assert_eq!(path, "/c/python/3.11.0/Linux-x86_64");
}

#[test]
fn test_cache_new_succeeds() {
    // Should succeed on any machine with a home directory
    assert!(Cache::new().is_ok());
}

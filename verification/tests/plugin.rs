use runx::platform::{Arch, Platform, Target};
use runx::plugin::{
    PluginAction, PluginManifest, PluginProvider, default_archive_format, default_bin_path,
    default_post_install_timeout, get_plugin_provider, plugin_action, plugin_file_name, plugin_listing,
};
use runx::provider::{ArchiveFormat, Provider};
use runx::version::{Version, VersionSpec};

fn manifest(name: &str) -> PluginManifest {
    PluginManifest {
        name: name.to_string(),
        aliases: vec![],
        description: String::new(),
        download_url: String::new(),
        archive_format: "tar.gz".to_string(),
        bin_path: "bin".to_string(),
        interpreter: vec![],
        post_install: None,
        post_install_timeout: 300,
    }
}

fn linux_x64() -> Target {
    Target::new(Platform::Linux, Arch::X86_64)
}

#[test]
fn test_plugin_manifest_minimal() {
    assert_eq!(default_archive_format(), "tar.gz");
    assert_eq!(default_bin_path(), "bin");
}

#[test]
fn test_plugin_manifest_default_post_install() {
    assert_eq!(default_post_install_timeout(), 300);
}

#[test]
fn test_plugin_expand_template() {
    let mut m = manifest("zig");
    m.download_url = "https://example.com/zig-{os}-{arch}-{version}.tar.xz".to_string();
    m.archive_format = "tar.xz".to_string();
    m.bin_path = "zig-{os}-{arch}-{version}".to_string();
    let version = Version::new(0, 11, 0);
    let url = m.expand(&m.download_url, &version, &linux_x64());
    assert!(url.contains("0.11.0"));
    assert!(url.contains("linux"));
}

#[test]
fn test_get_plugin_provider_not_found() {
    let result = get_plugin_provider(vec![], "nonexistent");
    assert!(result.is_none());
}

#[test]
fn test_plugin_provider_archive_formats() {
    let make_manifest = |fmt: &str| {
        let mut m = manifest("test");
        m.archive_format = fmt.to_string();
        m
    };
    let target = linux_x64();
    let p = PluginProvider { manifest: make_manifest("tar.gz") };
    assert_eq!(p.archive_format(&target), ArchiveFormat::TarGz);
    let p = PluginProvider { manifest: make_manifest("tar.xz") };
    assert_eq!(p.archive_format(&target), ArchiveFormat::TarXz);
    let p = PluginProvider { manifest: make_manifest("zip") };
    assert_eq!(p.archive_format(&target), ArchiveFormat::Zip);
}

#[test]
fn test_plugin_expand_with_install_dir() {
    let mut m = manifest("rust");
    m.post_install = Some("./install.sh --prefix={install_dir}".to_string());
    let version = Version::new(1, 82, 0);
    let expanded = m.expand_with_dir(
        m.post_install.as_ref().unwrap(),
        &version,
        &linux_x64(),
        "/home/user/.runx/cache/rust/1.82.0",
    );
    assert_eq!(expanded, "./install.sh --prefix=/home/user/.runx/cache/rust/1.82.0");
}

#[test]
fn test_plugin_provider_post_install_command() {
    let mut m = manifest("rust");
    m.post_install = Some("./install.sh --prefix={install_dir}".to_string());
    let provider = PluginProvider { manifest: m };
    let version = Version::new(1, 82, 0);
    let cmd = provider.post_install_command(&version, &linux_x64(), "/cache/rust/1.82.0");
    assert!(cmd.is_some());
    assert!(cmd.unwrap().contains("--prefix=/cache/rust/1.82.0"));
}

#[test]
fn test_plugin_provider_no_post_install() {
    let provider = PluginProvider { manifest: manifest("zig") };
    let version = Version::new(0, 11, 0);
    assert!(provider.post_install_command(&version, &linux_x64(), "/cache").is_none());
}

#[test]
fn expand_fills_every_placeholder() {
    let m = manifest("t");
    let target = Target::new(Platform::MacOS, Arch::Aarch64);
    let version = Version::parse("1.2.3-rc.1").unwrap();
    let out = m.expand("{version}|{triple}|{os_alt}|{os}|{arch_alt}|{arch}|{other}", &version, &target);
    assert_eq!(out, "1.2.3-rc.1|aarch64-apple-darwin|darwin|macos|arm64|aarch64|{other}");
}

#[test]
fn plugin_requires_exact_version() {
    let provider = PluginProvider { manifest: manifest("zig") };
    let target = linux_x64();
    let exact = VersionSpec::Exact(Version::new(0, 11, 0));
    assert_eq!(provider.resolve_version(&exact, &target).unwrap(), Version::new(0, 11, 0));
    let err = provider.resolve_version(&VersionSpec::Major(0), &target).unwrap_err();
    assert!(err.to_string().contains("plugin `zig` requires an exact version (e.g., zig@1.0.0). Got: 0"));
}

#[test]
fn plugin_found_by_alias_first_match_wins() {
    let mut a = manifest("zig");
    a.aliases = vec!["ziglang".to_string()];
    let mut b = manifest("ziglang");
    b.description = "second".to_string();
    let p = get_plugin_provider(vec![a, b], "ziglang").unwrap();
    assert_eq!(p.manifest.name, "zig");
}

#[test]
fn plugin_commands() {
    assert!(matches!(plugin_action("list", None).unwrap(), PluginAction::List));
    assert!(matches!(plugin_action("add", Some("./zig.toml".to_string())).unwrap(), PluginAction::Add(p) if p == "./zig.toml"));
    assert_eq!(plugin_action("add", None).unwrap_err().to_string(), "plugin error: usage: runx plugin add <url-or-path>");
    assert_eq!(plugin_action("remove", None).unwrap_err().to_string(), "plugin error: usage: runx plugin remove <name>");
    assert!(matches!(plugin_action("frob", None).unwrap(), PluginAction::Unknown(a) if a == "frob"));
    assert_eq!(plugin_file_name("zig"), "zig.toml");
}

#[test]
fn plugin_list_lines() {
    let mut m = manifest("zig");
    assert_eq!(plugin_listing(&m), vec!["  zig".to_string()]);
    m.aliases = vec!["ziglang".to_string(), "z".to_string()];
    m.description = "Zig programming language".to_string();
    assert_eq!(
        plugin_listing(&m),
        vec!["  zig (aliases: ziglang, z)".to_string(), "    Zig programming language".to_string()]
    );
}

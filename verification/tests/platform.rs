use runx::platform::{Arch, Platform, Target};

#[test]
fn test_platform_download_str() {
    assert_eq!(Platform::MacOS.as_download_str(), "darwin");
    assert_eq!(Platform::Linux.as_download_str(), "linux");
    assert_eq!(Platform::Windows.as_download_str(), "win");
}

#[test]
fn test_arch_download_str() {
    assert_eq!(Arch::X86_64.as_download_str(), "x64");
    assert_eq!(Arch::Aarch64.as_download_str(), "arm64");
}

#[test]
fn test_platform_system_path() {
    assert_eq!(Platform::MacOS.system_path(), "/usr/bin:/bin");
    assert_eq!(Platform::Linux.system_path(), "/usr/bin:/bin");
    assert_eq!(Platform::Windows.system_path(), r"C:\Windows\System32;C:\Windows");
}

#[test]
fn test_platform_path_separator() {
    assert_eq!(Platform::MacOS.path_separator(), ':');
    assert_eq!(Platform::Linux.path_separator(), ':');
    assert_eq!(Platform::Windows.path_separator(), ';');
}

#[test]
fn test_platform_exe_suffix() {
    assert_eq!(Platform::MacOS.exe_suffix(), "");
    assert_eq!(Platform::Linux.exe_suffix(), "");
    assert_eq!(Platform::Windows.exe_suffix(), ".exe");
}

#[test]
fn test_platform_display() {
    assert_eq!(Platform::MacOS.to_string(), "macOS");
    assert_eq!(Platform::Linux.to_string(), "Linux");
    assert_eq!(Platform::Windows.to_string(), "Windows");
}

#[test]
fn test_arch_display() {
    assert_eq!(Arch::X86_64.to_string(), "x86_64");
    assert_eq!(Arch::Aarch64.to_string(), "aarch64");
}

#[test]
fn test_platform_from_os_str_unsupported() {
    assert!(Platform::from_os_str("freebsd").is_err());
    assert!(Platform::from_os_str("").is_err());
}

#[test]
fn test_arch_from_arch_str_unsupported() {
    assert!(Arch::from_arch_str("mips").is_err());
    assert!(Arch::from_arch_str("riscv64").is_err());
}

#[test]
fn test_platform_from_os_str_valid() {
    assert_eq!(Platform::from_os_str("macos").unwrap(), Platform::MacOS);
    assert_eq!(Platform::from_os_str("linux").unwrap(), Platform::Linux);
    assert_eq!(Platform::from_os_str("windows").unwrap(), Platform::Windows);
}

#[test]
fn test_arch_from_arch_str_valid() {
    assert_eq!(Arch::from_arch_str("x86_64").unwrap(), Arch::X86_64);
    assert_eq!(Arch::from_arch_str("aarch64").unwrap(), Arch::Aarch64);
}

#[test]
fn test_target_display() {
    let target = Target { platform: Platform::MacOS, arch: Arch::Aarch64 };
    assert_eq!(target.to_string(), "macOS-aarch64");
}

#[test]
fn detect_error_messages() {
    assert_eq!(Target::detect("freebsd", "x86_64").unwrap_err(), "unsupported platform: freebsd");
    assert_eq!(Target::detect("linux", "mips").unwrap_err(), "unsupported architecture: mips");
}

#[test]
fn target_triples() {
    assert_eq!(Target::new(Platform::MacOS, Arch::Aarch64).triple(), "aarch64-apple-darwin");
    assert_eq!(Target::new(Platform::Linux, Arch::X86_64).triple(), "x86_64-unknown-linux-gnu");
    assert_eq!(Target::new(Platform::Windows, Arch::X86_64).triple(), "x86_64-pc-windows-msvc");
}


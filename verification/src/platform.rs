//! Operating systems, CPU architectures and the targets they make.

use vstd::prelude::*;

use crate::provider::ArchiveFormat;
use crate::text::{chars_of, push_str, str_eq, string_of};

verus! {

/// Operating system platform.
#[derive(Debug, Clone, Copy, PartialEq, Eq, Hash, Structural)]
pub enum Platform {
    MacOS,
    Linux,
    Windows,
}

/// CPU architecture.
#[derive(Debug, Clone, Copy, PartialEq, Eq, Hash, Structural)]
pub enum Arch {
    X86_64,
    Aarch64,
}

/// A platform target combining operating system and architecture.
#[derive(Debug, Clone, Copy, PartialEq, Eq, Hash, Structural)]
pub struct Target {
    pub platform: Platform,
    pub arch: Arch,
}

/// The platform an OS name (as `std::env::consts::OS` spells it) denotes.
pub open spec fn platform_of_os(os: Seq<char>) -> Option<Platform> {
    if os == "macos"@ {
        Some(Platform::MacOS)
    } else if os == "linux"@ {
        Some(Platform::Linux)
    } else if os == "windows"@ {
        Some(Platform::Windows)
    } else {
        None
    }
}

/// The architecture an arch name (as `std::env::consts::ARCH` spells it)
/// denotes.
pub open spec fn arch_of_name(arch: Seq<char>) -> Option<Arch> {
    if arch == "x86_64"@ {
        Some(Arch::X86_64)
    } else if arch == "aarch64"@ {
        Some(Arch::Aarch64)
    } else {
        None
    }
}

/// The platform name used in most download URLs.
pub open spec fn platform_download_name(p: Platform) -> Seq<char> {
    match p {
        Platform::MacOS => "darwin"@,
        Platform::Linux => "linux"@,
        Platform::Windows => "win"@,
    }
}

/// The platform's display name.
pub open spec fn platform_display(p: Platform) -> Seq<char> {
    match p {
        Platform::MacOS => "macOS"@,
        Platform::Linux => "Linux"@,
        Platform::Windows => "Windows"@,
    }
}

/// The minimal system `PATH` of a platform.
pub open spec fn platform_system_path(p: Platform) -> Seq<char> {
    match p {
        Platform::MacOS | Platform::Linux => "/usr/bin:/bin"@,
        Platform::Windows => "C:\\Windows\\System32;C:\\Windows"@,
    }
}

/// The `PATH` separator of a platform.
pub open spec fn platform_separator(p: Platform) -> char {
    match p {
        Platform::MacOS | Platform::Linux => ':',
        Platform::Windows => ';',
    }
}

/// The executable suffix of a platform.
pub open spec fn platform_exe_suffix(p: Platform) -> Seq<char> {
    match p {
        Platform::MacOS | Platform::Linux => ""@,
        Platform::Windows => ".exe"@,
    }
}

/// The archive format a platform's downloads come in by default.
pub open spec fn platform_archive_format(p: Platform) -> ArchiveFormat {
    match p {
        Platform::Windows => ArchiveFormat::Zip,
        _ => ArchiveFormat::TarGz,
    }
}

/// The architecture name used in most download URLs.
pub open spec fn arch_download_name(a: Arch) -> Seq<char> {
    match a {
        Arch::X86_64 => "x64"@,
        Arch::Aarch64 => "arm64"@,
    }
}

/// The architecture's display name.
pub open spec fn arch_display(a: Arch) -> Seq<char> {
    match a {
        Arch::X86_64 => "x86_64"@,
        Arch::Aarch64 => "aarch64"@,
    }
}

/// The target's display name, `platform-arch`.
pub open spec fn target_display(t: Target) -> Seq<char> {
    platform_display(t.platform) + "-"@ + arch_display(t.arch)
}

/// The Rust-style target triple of a target.
pub open spec fn target_triple(t: Target) -> Seq<char> {
    match (t.platform, t.arch) {
        (Platform::MacOS, Arch::X86_64) => "x86_64-apple-darwin"@,
        (Platform::MacOS, Arch::Aarch64) => "aarch64-apple-darwin"@,
        (Platform::Linux, Arch::X86_64) => "x86_64-unknown-linux-gnu"@,
        (Platform::Linux, Arch::Aarch64) => "aarch64-unknown-linux-gnu"@,
        (Platform::Windows, Arch::X86_64) => "x86_64-pc-windows-msvc"@,
        (Platform::Windows, Arch::Aarch64) => "aarch64-pc-windows-msvc"@,
    }
}

impl Platform {
    /// Parses an OS name (`macos`, `linux`, `windows`).
    pub fn from_os_str(os: &str) -> (r: Result<Platform, String>)
        ensures
            match r {
                Ok(p) => platform_of_os(os@) == Some(p),
                Err(e) => platform_of_os(os@) is None && e@ == "unsupported platform: "@ + os@,
            },
    {
        if str_eq(os, "macos") {
            Ok(Platform::MacOS)
        } else if str_eq(os, "linux") {
            Ok(Platform::Linux)
        } else if str_eq(os, "windows") {
            Ok(Platform::Windows)
        } else {
            let mut m: Vec<char> = Vec::new();
            push_str(&mut m, "unsupported platform: ");
            push_str(&mut m, os);
            Err(string_of(&m))
        }
    }

    /// The platform name used in download URLs.
    pub fn as_download_str(&self) -> (r: &'static str)
        ensures
            r@ == platform_download_name(*self),
    {
        match self {
            Platform::MacOS => "darwin",
            Platform::Linux => "linux",
            Platform::Windows => "win",
        }
    }

    /// The minimal system `PATH` for this platform.
    pub fn system_path(&self) -> (r: &'static str)
        ensures
            r@ == platform_system_path(*self),
    {
        match self {
            Platform::MacOS | Platform::Linux => "/usr/bin:/bin",
            Platform::Windows => "C:\\Windows\\System32;C:\\Windows",
        }
    }

    /// The `PATH` separator for this platform.
    pub fn path_separator(&self) -> (r: char)
        ensures
            r == platform_separator(*self),
    {
        match self {
            Platform::MacOS | Platform::Linux => ':',
            Platform::Windows => ';',
        }
    }

    /// The executable suffix for this platform.
    pub fn exe_suffix(&self) -> (r: &'static str)
        ensures
            r@ == platform_exe_suffix(*self),
    {
        match self {
            Platform::MacOS | Platform::Linux => "",
            Platform::Windows => ".exe",
        }
    }

    /// The archive format downloads use on this platform by default.
    pub fn default_archive_format(&self) -> (r: ArchiveFormat)
        ensures
            r == platform_archive_format(*self),
    {
        match self {
            Platform::Windows => ArchiveFormat::Zip,
            _ => ArchiveFormat::TarGz,
        }
    }

    /// The display name: `macOS`, `Linux` or `Windows`.
    pub fn name(&self) -> (r: &'static str)
        ensures
            r@ == platform_display(*self),
    {
        match self {
            Platform::MacOS => "macOS",
            Platform::Linux => "Linux",
            Platform::Windows => "Windows",
        }
    }

    /// The display name as a `String`.
    pub fn to_string(&self) -> (r: String)
        ensures
            r@ == platform_display(*self),
    {
        let cs = chars_of(self.name());
        string_of(&cs)
    }
}

impl Arch {
    /// Parses an architecture name (`x86_64`, `aarch64`).
    pub fn from_arch_str(arch: &str) -> (r: Result<Arch, String>)
        ensures
            match r {
                Ok(a) => arch_of_name(arch@) == Some(a),
                Err(e) => arch_of_name(arch@) is None && e@ == "unsupported architecture: "@ + arch@,
            },
    {
        if str_eq(arch, "x86_64") {
            Ok(Arch::X86_64)
        } else if str_eq(arch, "aarch64") {
            Ok(Arch::Aarch64)
        } else {
            let mut m: Vec<char> = Vec::new();
            push_str(&mut m, "unsupported architecture: ");
            push_str(&mut m, arch);
            Err(string_of(&m))
        }
    }

    /// The architecture name used in download URLs.
    pub fn as_download_str(&self) -> (r: &'static str)
        ensures
            r@ == arch_download_name(*self),
    {
        match self {
            Arch::X86_64 => "x64",
            Arch::Aarch64 => "arm64",
        }
    }

    /// The display name: `x86_64` or `aarch64`.
    pub fn name(&self) -> (r: &'static str)
        ensures
            r@ == arch_display(*self),
    {
        match self {
            Arch::X86_64 => "x86_64",
            Arch::Aarch64 => "aarch64",
        }
    }

    /// The display name as a `String`.
    pub fn to_string(&self) -> (r: String)
        ensures
            r@ == arch_display(*self),
    {
        let cs = chars_of(self.name());
        string_of(&cs)
    }
}

impl Target {
    /// A target from its parts.
    pub fn new(platform: Platform, arch: Arch) -> (r: Target)
        ensures
            r.platform == platform,
            r.arch == arch,
    {
        Target { platform, arch }
    }

    /// The target named by an OS name and an architecture name, as the
    /// running program reports them (`std::env::consts::OS` and `ARCH`).
    pub fn detect(os: &str, arch: &str) -> (r: Result<Target, String>)
        ensures
            match r {
                Ok(t) => platform_of_os(os@) == Some(t.platform) && arch_of_name(arch@) == Some(t.arch),
                Err(e) => match platform_of_os(os@) {
                    None => e@ == "unsupported platform: "@ + os@,
                    Some(_) => arch_of_name(arch@) is None && e@ == "unsupported architecture: "@
                        + arch@,
                },
            },
    {
        let platform = Platform::from_os_str(os)?;
        let arch = Arch::from_arch_str(arch)?;
        Ok(Target { platform, arch })
    }

    /// The Rust-style target triple, e.g. `aarch64-apple-darwin`.
    pub fn triple(&self) -> (r: &'static str)
        ensures
            r@ == target_triple(*self),
    {
        match (self.platform, self.arch) {
            (Platform::MacOS, Arch::X86_64) => "x86_64-apple-darwin",
            (Platform::MacOS, Arch::Aarch64) => "aarch64-apple-darwin",
            (Platform::Linux, Arch::X86_64) => "x86_64-unknown-linux-gnu",
            (Platform::Linux, Arch::Aarch64) => "aarch64-unknown-linux-gnu",
            (Platform::Windows, Arch::X86_64) => "x86_64-pc-windows-msvc",
            (Platform::Windows, Arch::Aarch64) => "aarch64-pc-windows-msvc",
        }
    }

    /// The display name, e.g. `macOS-aarch64`.
    pub fn text(&self) -> (r: Vec<char>)
        ensures
            r@ == target_display(*self),
    {
        let mut m: Vec<char> = Vec::new();
        push_str(&mut m, self.platform.name());
        push_str(&mut m, "-");
        push_str(&mut m, self.arch.name());
        m
    }

    /// The display name as a `String`.
    pub fn to_string(&self) -> (r: String)
        ensures
            r@ == target_display(*self),
    {
        let t = self.text();
        string_of(&t)
    }
}

} // verus!

//! Bun, from GitHub releases of `oven-sh/bun`.

use vstd::prelude::*;

use crate::environment::EnvVars;
use crate::platform::{Arch, Platform, Target, target_display};
use crate::provider::{
    ArchiveFormat, Provider, ProviderError, SimpleGitHubRelease, github_versions, owned,
    parse_github_releases, parse_tag, release_tags, single_var, tag_version,
};
use crate::text::{push_all, push_str, string_of};
use crate::version::{Version, VersionView, opt_view, version_text, views};

verus! {

/// Bun, resolved from GitHub releases; every platform downloads a zip.
#[derive(Debug, Clone, Copy)]
pub struct BunProvider;

/// Bun's name for a target, or `None` for an unsupported one.
pub open spec fn bun_target_name(t: Target) -> Option<Seq<char>> {
    match (t.platform, t.arch) {
        (Platform::MacOS, Arch::X86_64) => Some("darwin-x64"@),
        (Platform::MacOS, Arch::Aarch64) => Some("darwin-aarch64"@),
        (Platform::Linux, Arch::X86_64) => Some("linux-x64"@),
        (Platform::Linux, Arch::Aarch64) => Some("linux-aarch64"@),
        (Platform::Windows, Arch::X86_64) => Some("windows-x64"@),
        (Platform::Windows, Arch::Aarch64) => None,
    }
}

/// The download URL of a Bun version for a supported target name.
pub open spec fn bun_url(v: VersionView, name: Seq<char>) -> Seq<char> {
    "https://github.com/oven-sh/bun/releases/download/bun-v"@ + version_text(v) + "/bun-"@ + name
        + ".zip"@
}

/// The `UnsupportedTarget` error of `tool` for target `t`.
pub open spec fn unsupported(e: ProviderError, tool: Seq<char>, t: Target) -> bool {
    e matches ProviderError::UnsupportedTarget { tool: x, target: y } && x@ == tool && y@ == target_display(t)
}

impl BunProvider {
    /// The releases URL.
    pub fn releases_url() -> (r: &'static str)
        ensures
            r@ == "https://api.github.com/repos/oven-sh/bun/releases?per_page=100"@,
    {
        "https://api.github.com/repos/oven-sh/bun/releases?per_page=100"
    }

    /// Reads a tag like `bun-v1.0.25`.
    pub fn parse_tag(tag: &str) -> (r: Option<Version>)
        ensures
            opt_view(r) == tag_version(tag@, "bun-v"@),
    {
        parse_tag(tag, "bun-v")
    }

    /// Reads the decoded releases: the stable versions of tags
    /// `bun-v<version>`, each once.
    pub fn parse_releases(decoded: Result<Vec<SimpleGitHubRelease>, String>) -> (r: Result<Vec<Version>, ProviderError>)
        ensures
            match decoded {
                Err(e) => r matches Err(ProviderError::ResolutionFailed { tool: t, reason: m })
                    && t@ == "bun"@ && m@ == "failed to parse releases: "@ + e@,
                Ok(rel) => {
                    let vs = github_versions(release_tags(rel@), "bun-v"@);
                    if vs.len() == 0 {
                        r matches Err(ProviderError::ResolutionFailed { tool: t, reason: m })
                            && t@ == "bun"@ && m@ == "no stable versions found in releases"@
                    } else {
                        r matches Ok(v) && views(v@) == vs
                    }
                },
            },
    {
        parse_github_releases(decoded, "bun", "bun-v")
    }

    /// Bun's name for a target.
    pub fn bun_target(target: &Target) -> (r: Result<&'static str, ProviderError>)
        ensures
            match bun_target_name(*target) {
                Some(n) => r matches Ok(x) && x@ == n,
                None => r matches Err(e) && unsupported(e, "bun"@, *target),
            },
    {
        match (target.platform, target.arch) {
            (Platform::MacOS, Arch::X86_64) => Ok("darwin-x64"),
            (Platform::MacOS, Arch::Aarch64) => Ok("darwin-aarch64"),
            (Platform::Linux, Arch::X86_64) => Ok("linux-x64"),
            (Platform::Linux, Arch::Aarch64) => Ok("linux-aarch64"),
            (Platform::Windows, Arch::X86_64) => Ok("windows-x64"),
            (Platform::Windows, Arch::Aarch64) => Err(
                ProviderError::UnsupportedTarget { tool: owned("bun"), target: target.to_string() },
            ),
        }
    }
}

impl BunProvider {
    /// The download URL of a version for a target.
    pub fn download_url(&self, version: &Version, target: &Target) -> (r: Result<String, ProviderError>)
        ensures
            match bun_target_name(*target) {
                Some(n) => r matches Ok(u) && u@ == bun_url(version@, n),
                None => r matches Err(e) && unsupported(e, "bun"@, *target),
            },
    {
        let t = BunProvider::bun_target(target)?;
        let mut m: Vec<char> = Vec::new();
        push_str(&mut m, "https://github.com/oven-sh/bun/releases/download/bun-v");
        let vt = version.text();
        push_all(&mut m, &vt);
        push_str(&mut m, "/bun-");
        push_str(&mut m, t);
        push_str(&mut m, ".zip");
        Ok(string_of(&m))
    }
}

impl Provider for BunProvider {
    fn name(&self) -> (r: &str)
        ensures
            r@ == "bun"@,
    {
        "bun"
    }

    fn archive_format(&self, target: &Target) -> (r: ArchiveFormat)
        ensures
            r == ArchiveFormat::Zip,
    {
        ArchiveFormat::Zip
    }

    fn bin_paths(&self, version: &Version, target: &Target) -> (r: Vec<String>)
        ensures
            r@.len() == 1,
            r@[0]@ == match bun_target_name(*target) {
                Some(n) => "bun-"@ + n,
                None => "bun"@,
            },
    {
        match BunProvider::bun_target(target) {
            Ok(t) => {
                let mut m: Vec<char> = Vec::new();
                push_str(&mut m, "bun-");
                push_str(&mut m, t);
                vec![string_of(&m)]
            },
            Err(_) => vec![owned("bun")],
        }
    }

    fn env_vars(&self, install_dir: &str) -> (r: EnvVars)
        ensures
            r.wf(),
            r@ == map!["BUN_INSTALL"@ => install_dir@],
    {
        single_var("BUN_INSTALL", owned(install_dir))
    }
}

/// The Bun archive for a supported target is `bun-NAME.zip` under the
/// release `bun-vVERSION` of `oven-sh/bun` on GitHub, with NAME
/// `darwin-x64`, `darwin-aarch64`, `linux-x64`, `linux-aarch64` or
/// `windows-x64`; it unpacks to `bun-NAME`, the directory the bin path
/// names. Windows on ARM has no build.
pub proof fn lemma_bun_archive_and_layout(v: VersionView, t: Target)
    ensures
        bun_target_name(t) == match (t.platform, t.arch) { (Platform::MacOS, Arch::X86_64) => Some("darwin-x64"@), (Platform::MacOS, Arch::Aarch64) => Some("darwin-aarch64"@), (Platform::Linux, Arch::X86_64) => Some("linux-x64"@), (Platform::Linux, Arch::Aarch64) => Some("linux-aarch64"@), (Platform::Windows, Arch::X86_64) => Some("windows-x64"@), (Platform::Windows, Arch::Aarch64) => None::<Seq<char>> },
        bun_target_name(t) matches Some(n) ==> {
            &&& bun_url(v, n) == "https://github.com/oven-sh/bun/releases/download/bun-v"@ + version_text(v) + "/"@
                + ("bun-"@ + n) + ".zip"@
            &&& crate::provider::builtin_bin_paths(crate::provider::Tool::Bun, v, t) == seq!["bun-"@ + n]
        },
{
    reveal_strlit("/bun-");
    reveal_strlit("/");
    reveal_strlit("bun-");
    assert("/bun-"@ =~= "/"@ + "bun-"@);
}

} // verus!

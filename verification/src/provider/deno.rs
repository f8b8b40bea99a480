//! Deno, from GitHub releases of `denoland/deno`.

use vstd::prelude::*;

use crate::environment::EnvVars;
use crate::platform::{Arch, Platform, Target};
use crate::provider::bun::unsupported;
use crate::provider::{
    ArchiveFormat, Provider, ProviderError, SimpleGitHubRelease, github_versions, owned,
    parse_github_releases, parse_tag, release_tags, tag_version,
};
use crate::text::{push_all, push_str, string_of};
use crate::version::{Version, VersionView, opt_view, version_text, views};

verus! {

/// Deno, resolved from GitHub releases; a single binary in a zip.
#[derive(Debug, Clone, Copy)]
pub struct DenoProvider;

/// Deno's target triple for a target, or `None` for an unsupported one.
pub open spec fn deno_target_name(t: Target) -> Option<Seq<char>> {
    match (t.platform, t.arch) {
        (Platform::MacOS, Arch::X86_64) => Some("x86_64-apple-darwin"@),
        (Platform::MacOS, Arch::Aarch64) => Some("aarch64-apple-darwin"@),
        (Platform::Linux, Arch::X86_64) => Some("x86_64-unknown-linux-gnu"@),
        (Platform::Linux, Arch::Aarch64) => Some("aarch64-unknown-linux-gnu"@),
        (Platform::Windows, Arch::X86_64) => Some("x86_64-pc-windows-msvc"@),
        (Platform::Windows, Arch::Aarch64) => None,
    }
}

/// The download URL of a Deno version for a supported target name.
pub open spec fn deno_url(v: VersionView, name: Seq<char>) -> Seq<char> {
    "https://github.com/denoland/deno/releases/download/v"@ + version_text(v) + "/deno-"@ + name
        + ".zip"@
}

impl DenoProvider {
    /// The releases URL.
    pub fn releases_url() -> (r: &'static str)
        ensures
            r@ == "https://api.github.com/repos/denoland/deno/releases?per_page=100"@,
    {
        "https://api.github.com/repos/denoland/deno/releases?per_page=100"
    }

    /// Reads a tag like `v1.40.5`.
    pub fn parse_tag(tag: &str) -> (r: Option<Version>)
        ensures
            opt_view(r) == tag_version(tag@, "v"@),
    {
        parse_tag(tag, "v")
    }

    /// Reads the decoded releases: the stable versions of tags
    /// `v<version>`, each once.
    pub fn parse_releases(decoded: Result<Vec<SimpleGitHubRelease>, String>) -> (r: Result<Vec<Version>, ProviderError>)
        ensures
            match decoded {
                Err(e) => r matches Err(ProviderError::ResolutionFailed { tool: t, reason: m })
                    && t@ == "deno"@ && m@ == "failed to parse releases: "@ + e@,
                Ok(rel) => {
                    let vs = github_versions(release_tags(rel@), "v"@);
                    if vs.len() == 0 {
                        r matches Err(ProviderError::ResolutionFailed { tool: t, reason: m })
                            && t@ == "deno"@ && m@ == "no stable versions found in releases"@
                    } else {
                        r matches Ok(v) && views(v@) == vs
                    }
                },
            },
    {
        parse_github_releases(decoded, "deno", "v")
    }

    /// Deno's target triple for a target.
    pub fn deno_target(target: &Target) -> (r: Result<&'static str, ProviderError>)
        ensures
            match deno_target_name(*target) {
                Some(n) => r matches Ok(x) && x@ == n,
                None => r matches Err(e) && unsupported(e, "deno"@, *target),
            },
    {
        match (target.platform, target.arch) {
            (Platform::MacOS, Arch::X86_64) => Ok("x86_64-apple-darwin"),
            (Platform::MacOS, Arch::Aarch64) => Ok("aarch64-apple-darwin"),
            (Platform::Linux, Arch::X86_64) => Ok("x86_64-unknown-linux-gnu"),
            (Platform::Linux, Arch::Aarch64) => Ok("aarch64-unknown-linux-gnu"),
            (Platform::Windows, Arch::X86_64) => Ok("x86_64-pc-windows-msvc"),
            (Platform::Windows, Arch::Aarch64) => Err(
                ProviderError::UnsupportedTarget { tool: owned("deno"), target: target.to_string() },
            ),
        }
    }
}

impl DenoProvider {
    /// The download URL of a version for a target.
    pub fn download_url(&self, version: &Version, target: &Target) -> (r: Result<String, ProviderError>)
        ensures
            match deno_target_name(*target) {
                Some(n) => r matches Ok(u) && u@ == deno_url(version@, n),
                None => r matches Err(e) && unsupported(e, "deno"@, *target),
            },
    {
        let t = DenoProvider::deno_target(target)?;
        let mut m: Vec<char> = Vec::new();
        push_str(&mut m, "https://github.com/denoland/deno/releases/download/v");
        let vt = version.text();
        push_all(&mut m, &vt);
        push_str(&mut m, "/deno-");
        push_str(&mut m, t);
        push_str(&mut m, ".zip");
        Ok(string_of(&m))
    }
}

impl Provider for DenoProvider {
    fn name(&self) -> (r: &str)
        ensures
            r@ == "deno"@,
    {
        "deno"
    }

    fn archive_format(&self, target: &Target) -> (r: ArchiveFormat)
        ensures
            r == ArchiveFormat::Zip,
    {
        ArchiveFormat::Zip
    }

    fn bin_paths(&self, version: &Version, target: &Target) -> (r: Vec<String>)
        ensures
            r@.len() == 1,
            r@[0]@ == "."@,
    {
        vec![owned(".")]
    }

    fn env_vars(&self, install_dir: &str) -> (r: EnvVars)
        ensures
            r.wf(),
            r@ == Map::<Seq<char>, Seq<char>>::empty(),
    {
        EnvVars::new()
    }

    fn temp_env_dirs(&self) -> (r: Vec<&'static str>)
        ensures
            r@.len() == 1,
            r@[0]@ == "DENO_DIR"@,
    {
        vec!["DENO_DIR"]
    }
}

/// The Deno archive for a supported target is `deno-TRIPLE.zip` under the
/// release `vVERSION` of `denoland/deno` on GitHub, with TRIPLE the target's
/// Rust triple (`x86_64-apple-darwin`, `aarch64-apple-darwin`,
/// `x86_64-unknown-linux-gnu`, `aarch64-unknown-linux-gnu`,
/// `x86_64-pc-windows-msvc`); Windows on ARM has no build.
pub proof fn lemma_deno_archive(v: VersionView, t: Target)
    ensures
        !(t.platform == Platform::Windows && t.arch == Arch::Aarch64) ==> deno_target_name(t) == Some(
            crate::platform::target_triple(t),
        ),
        t.platform == Platform::Windows && t.arch == Arch::Aarch64 ==> deno_target_name(t) is None,
        deno_target_name(t) matches Some(n) ==> deno_url(v, n) == "https://github.com/denoland/deno/releases/download/v"@
            + version_text(v) + "/"@ + ("deno-"@ + n) + ".zip"@,
{
    reveal_strlit("/deno-");
    reveal_strlit("/");
    reveal_strlit("deno-");
    assert("/deno-"@ =~= "/"@ + "deno-"@);
}

} // verus!

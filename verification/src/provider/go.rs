//! Go, from the official download index.

use vstd::prelude::*;

use crate::environment::EnvVars;
use crate::platform::{Arch, Platform, Target, platform_archive_format};
use crate::provider::{
    ArchiveFormat, Provider, ProviderError, collect_stable_versions, join_path, opt_views,
    path_join, resolution_failed, single_var, stable_unique
};
use crate::text::{
    chars_of, contains_char, has_prefix, parse_u64, parse_u64_spec, push_all, push_str, slice_chars,
    split_once, split_once_chars, starts_with, string_of
};
use crate::version::{Version, VersionView, opt_view, semver_parse_result, version_text, views};

verus! {

/// Go, resolved from `https://go.dev/dl/?mode=json`.
#[derive(Debug, Clone, Copy)]
pub struct GoProvider;

/// A release of the Go download index: its version text (e.g. `go1.21.6`)
/// and whether it is stable.
#[derive(Debug, Clone)]
pub struct GoRelease {
    pub version: String,
    pub stable: bool,
}

/// The version a Go version text names: after `go`, a full version, or
/// `major.minor` meaning `major.minor.0`.
pub open spec fn go_version(s: Seq<char>) -> Option<VersionView> {
    if !starts_with(s, "go"@) {
        None
    } else {
        let r = s.subrange(2, s.len() as int);
        match semver_parse_result(r) {
            Some(v) => Some(v),
            None => match split_once(r, '.') {
                Some((a, b)) if !b.contains('.') => match (parse_u64_spec(a), parse_u64_spec(b)) {
                    (Some(x), Some(y)) => Some((x, y, 0u64, Seq::<char>::empty(), Seq::<char>::empty())),
                    _ => None,
                },
                _ => None,
            },
        }
    }
}

/// The versions named by the stable releases, in order.
pub open spec fn go_stable_versions(rs: Seq<GoRelease>) -> Seq<Option<VersionView>>
    decreases rs.len(),
{
    if rs.len() == 0 {
        Seq::empty()
    } else {
        let prev = go_stable_versions(rs.drop_last());
        if rs.last().stable {
            prev.push(go_version(rs.last().version@))
        } else {
            prev
        }
    }
}

/// Go's name for a platform.
pub open spec fn go_os_name(p: Platform) -> Seq<char> {
    match p {
        Platform::MacOS => "darwin"@,
        Platform::Linux => "linux"@,
        Platform::Windows => "windows"@,
    }
}

/// Go's name for an architecture.
pub open spec fn go_arch_name(a: Arch) -> Seq<char> {
    match a {
        Arch::X86_64 => "amd64"@,
        Arch::Aarch64 => "arm64"@,
    }
}

/// The download URL of a Go version.
pub open spec fn go_url(v: VersionView, t: Target) -> Seq<char> {
    let ext = match t.platform {
        Platform::Windows => "zip"@,
        _ => "tar.gz"@,
    };
    "https://go.dev/dl/go"@ + version_text(v) + "."@ + go_os_name(t.platform) + "-"@ + go_arch_name(
        t.arch,
    ) + "."@ + ext
}

impl GoProvider {
    /// The download index URL.
    pub fn index_url() -> (r: &'static str)
        ensures
            r@ == "https://go.dev/dl/?mode=json"@,
    {
        "https://go.dev/dl/?mode=json"
    }

    /// Reads a Go version text like `go1.21.6` or `go1.21`.
    pub fn parse_go_version(s: &str) -> (r: Option<Version>)
        ensures
            opt_view(r) == go_version(s@),
    {
        proof {
            reveal_strlit("go");
        }
        let t = chars_of(s);
        let go = chars_of("go");
        if !has_prefix(&t, &go) {
            return None;
        }
        let rest = slice_chars(&t, 2, t.len());
        let rs = string_of(&rest);
        match Version::parse(rs.as_str()) {
            Some(v) => return Some(v),
            None => {},
        }
        match split_once_chars(&rest, '.') {
            Some((a, b)) => {
                if !contains_char(&b, '.') {
                    match (parse_u64(&a), parse_u64(&b)) {
                        (Some(x), Some(y)) => {
                            let v = Version::new(x, y, 0);
                            return Some(v);
                        },
                        _ => {},
                    }
                }
            },
            None => {},
        }
        None
    }

    /// Reads the decoded index: the versions of the stable releases, stable
    /// and each once. A decoding error (its text given) or no version is a
    /// resolution failure.
    pub fn parse_versions(decoded: Result<Vec<GoRelease>, String>) -> (r: Result<Vec<Version>, ProviderError>)
        ensures
            match decoded {
                Err(e) => r matches Err(ProviderError::ResolutionFailed { tool: t, reason: m })
                    && t@ == "go"@ && m@ == "failed to parse version index: "@ + e@,
                Ok(rs) => {
                    let vs = stable_unique(go_stable_versions(rs@));
                    if vs.len() == 0 {
                        r matches Err(ProviderError::ResolutionFailed { tool: t, reason: m })
                            && t@ == "go"@ && m@ == "no stable versions found in index"@
                    } else {
                        r matches Ok(v) && views(v@) == vs
                    }
                },
            },
    {
        match decoded {
            Err(e) => {
                let mut m: Vec<char> = Vec::new();
                push_str(&mut m, "failed to parse version index: ");
                push_str(&mut m, e.as_str());
                Err(resolution_failed("go", m))
            },
            Ok(releases) => {
                let mut parsed: Vec<Option<Version>> = Vec::new();
                let mut i: usize = 0;
                while i < releases.len()
                    invariant
                        i <= releases.len(),
                        opt_views(parsed@) =~= go_stable_versions(releases@.subrange(0, i as int)),
                    decreases releases.len() - i,
                {
                    let ghost q = releases@.subrange(0, i + 1);
                    assert(q.drop_last() =~= releases@.subrange(0, i as int));
                    if releases[i].stable {
                        let v = GoProvider::parse_go_version(releases[i].version.as_str());
                        let ghost prev = parsed@;
                        parsed.push(v);
                        assert(opt_views(parsed@) =~= opt_views(prev).push(opt_view(v)));
                    }
                    i = i + 1;
                }
                assert(releases@.subrange(0, i as int) =~= releases@);
                let versions = collect_stable_versions(parsed);
                if versions.len() == 0 {
                    let mut m: Vec<char> = Vec::new();
                    push_str(&mut m, "no stable versions found in index");
                    Err(resolution_failed("go", m))
                } else {
                    Ok(versions)
                }
            },
        }
    }

    /// Go's name for a platform.
    pub fn go_os(platform: Platform) -> (r: &'static str)
        ensures
            r@ == go_os_name(platform),
    {
        match platform {
            Platform::MacOS => "darwin",
            Platform::Linux => "linux",
            Platform::Windows => "windows",
        }
    }

    /// Go's name for an architecture (`amd64`, not `x64`).
    pub fn go_arch(arch: Arch) -> (r: &'static str)
        ensures
            r@ == go_arch_name(arch),
    {
        match arch {
            Arch::X86_64 => "amd64",
            Arch::Aarch64 => "arm64",
        }
    }
}

impl GoProvider {
    /// The download URL of a version for a target.
    pub fn download_url(&self, version: &Version, target: &Target) -> (r: Result<String, ProviderError>)
        ensures
            r matches Ok(u) && u@ == go_url(version@, *target),
    {
        let mut m: Vec<char> = Vec::new();
        push_str(&mut m, "https://go.dev/dl/go");
        let vt = version.text();
        push_all(&mut m, &vt);
        push_str(&mut m, ".");
        push_str(&mut m, GoProvider::go_os(target.platform));
        push_str(&mut m, "-");
        push_str(&mut m, GoProvider::go_arch(target.arch));
        push_str(&mut m, ".");
        match target.platform {
            Platform::Windows => push_str(&mut m, "zip"),
            _ => push_str(&mut m, "tar.gz"),
        }
        Ok(string_of(&m))
    }
}

impl Provider for GoProvider {
    fn name(&self) -> (r: &str)
        ensures
            r@ == "go"@,
    {
        "go"
    }

    fn archive_format(&self, target: &Target) -> (r: ArchiveFormat)
        ensures
            r == platform_archive_format(target.platform),
    {
        target.platform.default_archive_format()
    }

    fn bin_paths(&self, version: &Version, target: &Target) -> (r: Vec<String>)
        ensures
            r@.len() == 1,
            r@[0]@ == path_join("go"@, "bin"@),
    {
        vec![join_path("go", "bin")]
    }

    fn env_vars(&self, install_dir: &str) -> (r: EnvVars)
        ensures
            r.wf(),
            r@ == map!["GOROOT"@ => path_join(install_dir@, "go"@)],
    {
        single_var("GOROOT", join_path(install_dir, "go"))
    }
}

/// The Go archive for a target is `goVERSION.OS-ARCH` under
/// `https://go.dev/dl/` (OS `darwin`, `linux` or `windows`; ARCH `amd64` or
/// `arm64`; `.zip` on Windows, `.tar.gz` elsewhere); it unpacks to `go`,
/// whose `bin` is put on `PATH` and which `GOROOT` names.
pub proof fn lemma_go_archive_and_layout(v: VersionView, t: Target, dir: Seq<char>)
    ensures
        ({
            let os = match t.platform { Platform::MacOS => "darwin"@, Platform::Linux => "linux"@, Platform::Windows => "windows"@ };
            let arch = match t.arch { Arch::X86_64 => "amd64"@, Arch::Aarch64 => "arm64"@ };
            let ext = match t.platform { Platform::Windows => "zip"@, _ => "tar.gz"@ };
            &&& go_url(v, t) == "https://go.dev/dl/go"@ + version_text(v) + "."@ + os + "-"@ + arch + "."@ + ext
            &&& crate::provider::builtin_bin_paths(crate::provider::Tool::Go, v, t) == seq![path_join("go"@, "bin"@)]
            &&& crate::provider::builtin_env_vars(crate::provider::Tool::Go, dir) == map!["GOROOT"@ => path_join(dir, "go"@)]
        }),
{
}

} // verus!

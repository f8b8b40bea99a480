//! Ruby, from prebuilt ruby/ruby-builder binaries.

use vstd::prelude::*;

use crate::environment::EnvVars;
use crate::platform::{Arch, Platform, Target};
use crate::provider::bun::unsupported;
use crate::provider::{
    ArchiveFormat, Provider, ProviderError, collect_stable_versions, join_path, opt_views, owned,
    path_join, resolution_failed, stable_unique,
};
use crate::text::{
    chars_of, find_char, first_index, has_prefix, push_all, push_str, slice_chars, starts_with,
    string_of,
};
use crate::version::{
    Version, VersionView, opt_view, semver_parse_result, sort_descending, sorted_descending,
    version_text, views,
};

verus! {

/// Ruby, resolved from the asset names of ruby-builder releases.
#[derive(Debug, Clone, Copy)]
pub struct RubyProvider;

/// A ruby-builder release: the names of its assets.
#[derive(Debug, Clone)]
pub struct RubyRelease {
    pub asset_names: Vec<String>,
}

/// All asset names, release by release.
pub open spec fn ruby_asset_names(rs: Seq<RubyRelease>) -> Seq<Seq<char>>
    decreases rs.len(),
{
    if rs.len() == 0 {
        Seq::empty()
    } else {
        ruby_asset_names(rs.drop_last()) + rs.last().asset_names@.map_values(|n: String| n@)
    }
}

/// The version an asset name like `ruby-3.3.0-ubuntu-22.04.tar.gz`
/// carries: the text between `ruby-` and the next `-`, parsed with `semver`.
pub open spec fn ruby_asset_version(name: Seq<char>) -> Option<VersionView> {
    if !starts_with(name, "ruby-"@) {
        None
    } else {
        let rest = name.subrange(5, name.len() as int);
        let i = first_index(rest, '-');
        semver_parse_result(if i == -1 { rest } else { rest.subrange(0, i) })
    }
}

/// ruby-builder's name for a target, or `None` for an unsupported one.
pub open spec fn ruby_platform_name(t: Target) -> Option<Seq<char>> {
    match (t.platform, t.arch) {
        (Platform::MacOS, Arch::Aarch64) => Some("darwin-arm64"@),
        (Platform::MacOS, Arch::X86_64) => Some("darwin-x64"@),
        (Platform::Linux, Arch::X86_64) => Some("ubuntu-22.04-x64"@),
        (Platform::Linux, Arch::Aarch64) => Some("ubuntu-22.04-arm64"@),
        _ => None,
    }
}

/// The download URL of a Ruby version for a supported platform name.
pub open spec fn ruby_url(v: VersionView, name: Seq<char>) -> Seq<char> {
    "https://github.com/ruby/ruby-builder/releases/download/ruby-"@ + version_text(v) + "/ruby-"@
        + version_text(v) + "-"@ + name + ".tar.gz"@
}

/// The library search path of an installation: both architecture layouts.
pub open spec fn ruby_lib_path(install_dir: Seq<char>) -> Seq<char> {
    path_join(path_join(install_dir, "arm64"@), "lib"@) + ":"@ + path_join(
        path_join(install_dir, "x64"@),
        "lib"@,
    )
}

impl RubyProvider {
    /// The releases URL.
    pub fn releases_url() -> (r: &'static str)
        ensures
            r@ == "https://api.github.com/repos/ruby/ruby-builder/releases?per_page=30"@,
    {
        "https://api.github.com/repos/ruby/ruby-builder/releases?per_page=30"
    }

    /// Reads the version an asset name carries (see `ruby_asset_version`).
    pub fn extract_version(name: &str) -> (r: Option<Version>)
        ensures
            opt_view(r) == ruby_asset_version(name@),
    {
        proof {
            reveal_strlit("ruby-");
        }
        let n = chars_of(name);
        let pre = chars_of("ruby-");
        if !has_prefix(&n, &pre) {
            return None;
        }
        let rest = slice_chars(&n, 5, n.len());
        let text = match find_char(&rest, '-') {
            Some(i) => slice_chars(&rest, 0, i),
            None => {
                let x = slice_chars(&rest, 0, rest.len());
                assert(x@ =~= rest@);
                x
            },
        };
        let t = string_of(&text);
        Version::parse(t.as_str())
    }

    /// Reads decoded releases: the stable versions the asset names carry,
    /// each once. A decoding error (its text given) or no version is a
    /// resolution failure.
    pub fn parse_releases(decoded: Result<Vec<RubyRelease>, String>) -> (r: Result<Vec<Version>, ProviderError>)
        ensures
            match decoded {
                Err(e) => r matches Err(ProviderError::ResolutionFailed { tool: t, reason: m })
                    && t@ == "ruby"@ && m@ == "failed to parse releases: "@ + e@,
                Ok(rs) => {
                    let vs = stable_unique(ruby_asset_names(rs@).map_values(|n: Seq<char>| ruby_asset_version(n)));
                    if vs.len() == 0 {
                        r matches Err(ProviderError::ResolutionFailed { tool: t, reason: m })
                            && t@ == "ruby"@ && m@ == "no stable Ruby versions found in releases"@
                    } else {
                        r matches Ok(v) && views(v@) == vs
                    }
                },
            },
    {
        match decoded {
            Err(e) => {
                let mut m: Vec<char> = Vec::new();
                push_str(&mut m, "failed to parse releases: ");
                push_str(&mut m, e.as_str());
                Err(resolution_failed("ruby", m))
            },
            Ok(releases) => {
                let mut parsed: Vec<Option<Version>> = Vec::new();
                let mut i: usize = 0;
                while i < releases.len()
                    invariant
                        i <= releases.len(),
                        opt_views(parsed@) =~= ruby_asset_names(releases@.subrange(0, i as int)).map_values(
                            |n: Seq<char>| ruby_asset_version(n),
                        ),
                    decreases releases.len() - i,
                {
                    let ghost q = releases@.subrange(0, i + 1);
                    assert(q.drop_last() =~= releases@.subrange(0, i as int));
                    let ghost base = opt_views(parsed@);
                    let names = &releases[i].asset_names;
                    let mut j: usize = 0;
                    while j < names.len()
                        invariant
                            j <= names.len(),
                            opt_views(parsed@) =~= base + names@.subrange(0, j as int).map_values(
                                |n: String| ruby_asset_version(n@),
                            ),
                        decreases names.len() - j,
                    {
                        let v = RubyProvider::extract_version(names[j].as_str());
                        let ghost prev = parsed@;
                        parsed.push(v);
                        assert(opt_views(parsed@) =~= opt_views(prev).push(opt_view(v)));
                        assert(names@.subrange(0, j + 1).map_values(|n: String| ruby_asset_version(n@))
                            =~= names@.subrange(0, j as int).map_values(|n: String| ruby_asset_version(n@)).push(ruby_asset_version(names@[j as int]@)));
                        j = j + 1;
                    }
                    assert(names@.subrange(0, j as int) =~= names@);
                    assert(ruby_asset_names(q) == ruby_asset_names(releases@.subrange(0, i as int)) + names@.map_values(|n: String| n@));
                    assert(ruby_asset_names(q).map_values(|n: Seq<char>| ruby_asset_version(n))
                        =~= ruby_asset_names(releases@.subrange(0, i as int)).map_values(|n: Seq<char>| ruby_asset_version(n))
                            + names@.map_values(|n: String| ruby_asset_version(n@)));
                    i = i + 1;
                }
                assert(releases@.subrange(0, i as int) =~= releases@);
                let versions = collect_stable_versions(parsed);
                if versions.len() == 0 {
                    let mut m: Vec<char> = Vec::new();
                    push_str(&mut m, "no stable Ruby versions found in releases");
                    Err(resolution_failed("ruby", m))
                } else {
                    Ok(versions)
                }
            },
        }
    }

    /// The versions, highest first (the list `runx list ruby` shows).
    pub fn sorted_versions(versions: Vec<Version>) -> (r: Vec<Version>)
        ensures
            views(r@) == sorted_descending(views(versions@)),
    {
        sort_descending(versions)
    }

    /// ruby-builder's name for a target.
    pub fn ruby_platform(target: &Target) -> (r: Result<&'static str, ProviderError>)
        ensures
            match ruby_platform_name(*target) {
                Some(n) => r matches Ok(x) && x@ == n,
                None => r matches Err(e) && unsupported(e, "ruby"@, *target),
            },
    {
        match (target.platform, target.arch) {
            (Platform::MacOS, Arch::Aarch64) => Ok("darwin-arm64"),
            (Platform::MacOS, Arch::X86_64) => Ok("darwin-x64"),
            (Platform::Linux, Arch::X86_64) => Ok("ubuntu-22.04-x64"),
            (Platform::Linux, Arch::Aarch64) => Ok("ubuntu-22.04-arm64"),
            _ => Err(ProviderError::UnsupportedTarget { tool: owned("ruby"), target: target.to_string() }),
        }
    }

    /// The download URL of a version for a target.
    pub fn download_url(&self, version: &Version, target: &Target) -> (r: Result<String, ProviderError>)
        ensures
            match ruby_platform_name(*target) {
                Some(n) => r matches Ok(u) && u@ == ruby_url(version@, n),
                None => r matches Err(e) && unsupported(e, "ruby"@, *target),
            },
    {
        let platform = RubyProvider::ruby_platform(target)?;
        let vt = version.text();
        let mut m: Vec<char> = Vec::new();
        push_str(&mut m, "https://github.com/ruby/ruby-builder/releases/download/ruby-");
        push_all(&mut m, &vt);
        push_str(&mut m, "/ruby-");
        push_all(&mut m, &vt);
        push_str(&mut m, "-");
        push_str(&mut m, platform);
        push_str(&mut m, ".tar.gz");
        Ok(string_of(&m))
    }
}

impl Provider for RubyProvider {
    fn name(&self) -> (r: &str)
        ensures
            r@ == "ruby"@,
    {
        "ruby"
    }

    fn archive_format(&self, target: &Target) -> (r: ArchiveFormat)
        ensures
            r == ArchiveFormat::TarGz,
    {
        ArchiveFormat::TarGz
    }

    fn bin_paths(&self, version: &Version, target: &Target) -> (r: Vec<String>)
        ensures
            r@.len() == 1,
            r@[0]@ == path_join(
                match target.arch {
                    Arch::Aarch64 => "arm64"@,
                    Arch::X86_64 => "x64"@,
                },
                "bin"@,
            ),
    {
        let arch_dir = match target.arch {
            Arch::Aarch64 => "arm64",
            Arch::X86_64 => "x64",
        };
        vec![join_path(arch_dir, "bin")]
    }

    fn env_vars(&self, install_dir: &str) -> (r: EnvVars)
        ensures
            r.wf(),
            r@ == map![
                "LD_LIBRARY_PATH"@ => ruby_lib_path(install_dir@),
                "DYLD_FALLBACK_LIBRARY_PATH"@ => ruby_lib_path(install_dir@),
            ],
    {
        let arm = join_path(install_dir, "arm64");
        let arm_lib = join_path(arm.as_str(), "lib");
        let x64 = join_path(install_dir, "x64");
        let x64_lib = join_path(x64.as_str(), "lib");
        let mut m: Vec<char> = Vec::new();
        push_str(&mut m, arm_lib.as_str());
        push_str(&mut m, ":");
        push_str(&mut m, x64_lib.as_str());
        let lib_path = string_of(&m);
        let mut vars = EnvVars::new();
        vars.insert(owned("LD_LIBRARY_PATH"), lib_path.clone());
        vars.insert(owned("DYLD_FALLBACK_LIBRARY_PATH"), lib_path);
        vars
    }

    fn temp_env_dirs(&self) -> (r: Vec<&'static str>)
        ensures
            r@.len() == 2,
            r@[0]@ == "GEM_HOME"@,
            r@[1]@ == "GEM_PATH"@,
    {
        vec!["GEM_HOME", "GEM_PATH"]
    }
}

/// The bin path of a target is `ARCH/bin`, and the library path lists
/// `ARCH/lib` under the install directory as one of its `:`-separated
/// entries (the first or the last).
pub open spec fn lib_serves_bin(dir: Seq<char>, v: VersionView, t: Target, arch_dir: Seq<char>, other: Seq<char>) -> bool {
    &&& crate::provider::builtin_bin_paths(crate::provider::Tool::Ruby, v, t) == seq![path_join(arch_dir, "bin"@)]
    &&& (ruby_lib_path(dir) == path_join(path_join(dir, arch_dir), "lib"@) + ":"@ + other
        || ruby_lib_path(dir) == other + ":"@ + path_join(path_join(dir, arch_dir), "lib"@))
}

/// Ruby's library search path serves the layout the bin path uses: for
/// every target, the bin directory put on `PATH` is `ARCH/bin` under the
/// install directory, and `ARCH/lib` under the install directory is one of
/// the `:`-separated entries of `LD_LIBRARY_PATH` and
/// `DYLD_FALLBACK_LIBRARY_PATH` (which hold the same value).
pub proof fn lemma_ruby_lib_path_follows_bin_dir(dir: Seq<char>, v: VersionView, t: Target)
    ensures
        exists|arch_dir: Seq<char>, other: Seq<char>| #[trigger] lib_serves_bin(dir, v, t, arch_dir, other),
        crate::provider::builtin_env_vars(crate::provider::Tool::Ruby, dir).contains_key("LD_LIBRARY_PATH"@),
        crate::provider::builtin_env_vars(crate::provider::Tool::Ruby, dir)["LD_LIBRARY_PATH"@] == ruby_lib_path(dir),
        crate::provider::builtin_env_vars(crate::provider::Tool::Ruby, dir)["DYLD_FALLBACK_LIBRARY_PATH"@] == ruby_lib_path(dir),
{
    let arm = path_join(path_join(dir, "arm64"@), "lib"@);
    let x64 = path_join(path_join(dir, "x64"@), "lib"@);
    assert(ruby_lib_path(dir) == arm + ":"@ + x64);
    match t.arch {
        Arch::Aarch64 => {
            assert(crate::provider::builtin_bin_paths(crate::provider::Tool::Ruby, v, t) == seq![path_join("arm64"@, "bin"@)]);
            assert(ruby_lib_path(dir) == path_join(path_join(dir, "arm64"@), "lib"@) + ":"@ + x64);
            assert(lib_serves_bin(dir, v, t, "arm64"@, x64));
        },
        Arch::X86_64 => {
            assert(crate::provider::builtin_bin_paths(crate::provider::Tool::Ruby, v, t) == seq![path_join("x64"@, "bin"@)]);
            assert(ruby_lib_path(dir) == arm + ":"@ + path_join(path_join(dir, "x64"@), "lib"@));
            assert(lib_serves_bin(dir, v, t, "x64"@, arm));
        },
    }
}

} // verus!

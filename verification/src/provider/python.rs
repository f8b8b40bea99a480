//! Python, from python-build-standalone releases.

use vstd::prelude::*;

use crate::environment::EnvVars;
use crate::platform::{Arch, Platform, Target, target_display};
use crate::provider::{
    ArchiveFormat, Provider, ProviderError, collect_stable_versions, join_path, opt_views, owned,
    path_join, resolution_failed, resolve_from_candidates, single_var, stable_unique,
};
use crate::text::{
    chars_of, contains_seq, ends_with, find_char, first_index, has_prefix, has_substring,
    has_suffix, push_all, push_str, slice_chars, starts_with, string_of,
};
use crate::version::{
    Version, VersionSpec, VersionView, best_index, opt_view, semver_parse_result, spec_text,
    version_text, views,
};

verus! {

/// Python, resolved from the assets of python-build-standalone releases.
#[derive(Debug, Clone, Copy)]
pub struct PythonProvider;

/// A release asset: its file name and download URL.
#[derive(Debug, Clone)]
pub struct PythonAsset {
    pub name: String,
    pub browser_download_url: String,
}

/// A release: its tag and assets.
#[derive(Debug, Clone)]
pub struct PythonRelease {
    pub tag_name: String,
    pub assets: Vec<PythonAsset>,
}

/// All assets of the releases, release by release.
pub open spec fn flat_assets(rs: Seq<PythonRelease>) -> Seq<PythonAsset>
    decreases rs.len(),
{
    if rs.len() == 0 {
        Seq::empty()
    } else {
        flat_assets(rs.drop_last()) + rs.last().assets@
    }
}

/// The version an asset file name carries: for names starting with
/// `cpython-`, holding `install_only` and not ending in `.sha256`, the text
/// between `cpython-` and the first `+`, parsed with `semver`.
pub open spec fn asset_version(name: Seq<char>) -> Option<VersionView> {
    if !starts_with(name, "cpython-"@) || !contains_seq(name, "install_only"@) || ends_with(
        name,
        ".sha256"@,
    ) {
        None
    } else {
        let rest = name.subrange(8, name.len() as int);
        let i = first_index(rest, '+');
        semver_parse_result(if i == -1 { rest } else { rest.subrange(0, i) })
    }
}

/// The versions the assets carry, stable and each once.
pub open spec fn release_versions(rs: Seq<PythonRelease>) -> Seq<VersionView> {
    stable_unique(flat_assets(rs).map_values(|a: PythonAsset| asset_version(a.name@)))
}

/// python-build-standalone's architecture name.
pub open spec fn python_arch(a: Arch) -> Seq<char> {
    match a {
        Arch::X86_64 => "x86_64"@,
        Arch::Aarch64 => "aarch64"@,
    }
}

/// python-build-standalone's platform name.
pub open spec fn python_os(p: Platform) -> Seq<char> {
    match p {
        Platform::MacOS => "apple-darwin"@,
        Platform::Linux => "unknown-linux-gnu"@,
        Platform::Windows => "pc-windows-msvc-shared"@,
    }
}

/// The URL of the first asset whose name starts with `pre` and ends with
/// `suf`.
pub open spec fn first_url(assets: Seq<PythonAsset>, pre: Seq<char>, suf: Seq<char>) -> Option<Seq<char>>
    decreases assets.len(),
{
    if assets.len() == 0 {
        None
    } else if starts_with(assets[0].name@, pre) && ends_with(assets[0].name@, suf) {
        Some(assets[0].browser_download_url@)
    } else {
        first_url(assets.drop_first(), pre, suf)
    }
}

/// The name prefix of a version's install-only assets.
pub open spec fn asset_prefix(v: VersionView) -> Seq<char> {
    "cpython-"@ + version_text(v) + "+"@
}

/// The name suffix of a target's install-only archive.
pub open spec fn asset_suffix(t: Target) -> Seq<char> {
    "-"@ + python_arch(t.arch) + "-"@ + python_os(t.platform) + "-install_only.tar.gz"@
}

proof fn lemma_first_url_append(a: Seq<PythonAsset>, b: Seq<PythonAsset>, pre: Seq<char>, suf: Seq<char>)
    requires
        first_url(a, pre, suf) is None,
    ensures
        first_url(a + b, pre, suf) == first_url(b, pre, suf),
    decreases a.len(),
{
    if a.len() > 0 {
        assert((a + b).drop_first() =~= a.drop_first() + b);
        lemma_first_url_append(a.drop_first(), b, pre, suf);
    } else {
        assert(a + b =~= b);
    }
}

proof fn lemma_first_url_push(a: Seq<PythonAsset>, x: PythonAsset, pre: Seq<char>, suf: Seq<char>)
    requires
        first_url(a, pre, suf) is None,
    ensures
        first_url(a.push(x), pre, suf) == first_url(seq![x], pre, suf),
{
    assert(a.push(x) =~= a + seq![x]);
    lemma_first_url_append(a, seq![x], pre, suf);
}

impl PythonProvider {
    /// The releases URL.
    pub fn releases_url() -> (r: &'static str)
        ensures
            r@ == "https://api.github.com/repos/astral-sh/python-build-standalone/releases?per_page=30"@,
    {
        "https://api.github.com/repos/astral-sh/python-build-standalone/releases?per_page=30"
    }

    /// Reads the version an asset file name carries (see `asset_version`).
    pub fn extract_version_from_asset(name: &str) -> (r: Option<Version>)
        ensures
            opt_view(r) == asset_version(name@),
    {
        proof {
            reveal_strlit("cpython-");
        }
        let n = chars_of(name);
        let pre = chars_of("cpython-");
        let mid = chars_of("install_only");
        let sha = chars_of(".sha256");
        if !has_prefix(&n, &pre) || !has_substring(&n, &mid) || has_suffix(&n, &sha) {
            return None;
        }
        let rest = slice_chars(&n, 8, n.len());
        let text = match find_char(&rest, '+') {
            Some(i) => slice_chars(&rest, 0, i),
            None => {
                let x = slice_chars(&rest, 0, rest.len());
                assert(x@ =~= rest@);
                x
            },
        };
        assert(rest@ == name@.subrange(8, name@.len() as int));
        let t = string_of(&text);
        Version::parse(t.as_str())
    }

    /// The versions the releases' assets carry, stable and each once.
    pub fn versions_from_releases(releases: &Vec<PythonRelease>) -> (r: Vec<Version>)
        ensures
            views(r@) == release_versions(releases@),
    {
        let mut parsed: Vec<Option<Version>> = Vec::new();
        let mut i: usize = 0;
        while i < releases.len()
            invariant
                i <= releases.len(),
                opt_views(parsed@) =~= flat_assets(releases@.subrange(0, i as int)).map_values(
                    |a: PythonAsset| asset_version(a.name@),
                ),
            decreases releases.len() - i,
        {
            let ghost q = releases@.subrange(0, i + 1);
            assert(q.drop_last() =~= releases@.subrange(0, i as int));
            let ghost base = opt_views(parsed@);
            let assets = &releases[i].assets;
            let mut j: usize = 0;
            while j < assets.len()
                invariant
                    j <= assets.len(),
                    *assets == releases@[i as int].assets,
                    opt_views(parsed@) =~= base + assets@.subrange(0, j as int).map_values(
                        |a: PythonAsset| asset_version(a.name@),
                    ),
                decreases assets.len() - j,
            {
                let v = PythonProvider::extract_version_from_asset(assets[j].name.as_str());
                let ghost prev = parsed@;
                parsed.push(v);
                assert(opt_views(parsed@) =~= opt_views(prev).push(opt_view(v)));
                assert(assets@.subrange(0, j + 1).map_values(|a: PythonAsset| asset_version(a.name@))
                    =~= assets@.subrange(0, j as int).map_values(|a: PythonAsset| asset_version(a.name@)).push(asset_version(assets@[j as int].name@)));
                j = j + 1;
            }
            assert(assets@.subrange(0, j as int) =~= assets@);
            assert(flat_assets(q) == flat_assets(releases@.subrange(0, i as int)) + assets@);
            i = i + 1;
        }
        assert(releases@.subrange(0, i as int) =~= releases@);
        collect_stable_versions(parsed)
    }

    /// Reads decoded releases into their versions. A decoding error (its
    /// text given) or no version is a resolution failure.
    pub fn parse_releases(decoded: Result<Vec<PythonRelease>, String>) -> (r: Result<Vec<Version>, ProviderError>)
        ensures
            match decoded {
                Err(e) => r matches Err(ProviderError::ResolutionFailed { tool: t, reason: m })
                    && t@ == "python"@ && m@ == "failed to parse releases: "@ + e@,
                Ok(rs) => if release_versions(rs@).len() == 0 {
                    r matches Err(ProviderError::ResolutionFailed { tool: t, reason: m })
                        && t@ == "python"@ && m@ == "no Python versions found in releases"@
                } else {
                    r matches Ok(v) && views(v@) == release_versions(rs@)
                },
            },
    {
        match decoded {
            Err(e) => {
                let mut m: Vec<char> = Vec::new();
                push_str(&mut m, "failed to parse releases: ");
                push_str(&mut m, e.as_str());
                Err(resolution_failed("python", m))
            },
            Ok(releases) => {
                let versions = PythonProvider::versions_from_releases(&releases);
                if versions.len() == 0 {
                    let mut m: Vec<char> = Vec::new();
                    push_str(&mut m, "no Python versions found in releases");
                    Err(resolution_failed("python", m))
                } else {
                    Ok(versions)
                }
            },
        }
    }

    /// The decoded releases, or the decoding error (its text given) as a
    /// resolution failure.
    pub fn decoded_releases(decoded: Result<Vec<PythonRelease>, String>) -> (r: Result<Vec<PythonRelease>, ProviderError>)
        ensures
            match decoded {
                Err(e) => r matches Err(ProviderError::ResolutionFailed { tool: t, reason: m })
                    && t@ == "python"@ && m@ == "failed to parse releases: "@ + e@,
                Ok(rs) => r matches Ok(x) && x@ == rs@,
            },
    {
        match decoded {
            Err(e) => {
                let mut m: Vec<char> = Vec::new();
                push_str(&mut m, "failed to parse releases: ");
                push_str(&mut m, e.as_str());
                Err(resolution_failed("python", m))
            },
            Ok(rs) => Ok(rs),
        }
    }

    /// Resolves a specifier against the releases' versions; no version at
    /// all is a resolution failure.
    pub fn resolve_in_releases(releases: &Vec<PythonRelease>, spec: &VersionSpec) -> (r: Result<Version, ProviderError>)
        ensures
            release_versions(releases@).len() == 0 ==> (r matches Err(ProviderError::ResolutionFailed { tool: t, reason: m })
                && t@ == "python"@ && m@ == "no Python versions found"@),
            release_versions(releases@).len() > 0 ==> match r {
                Ok(v) => {
                    let i = best_index(spec@, release_versions(releases@));
                    0 <= i < release_versions(releases@).len() && v@ == release_versions(releases@)[i]
                },
                Err(e) => best_index(spec@, release_versions(releases@)) == -1 && (e matches ProviderError::VersionNotFound { tool: t, spec: s }
                    && t@ == "python"@ && s@ == spec_text(spec@)),
            },
    {
        let versions = PythonProvider::versions_from_releases(releases);
        if versions.len() == 0 {
            let mut m: Vec<char> = Vec::new();
            push_str(&mut m, "no Python versions found");
            return Err(resolution_failed("python", m));
        }
        let r = resolve_from_candidates(&versions, spec, "python");
        proof {
            if r is Ok {
                let i = best_index(spec@, views(versions@));
                assert(views(versions@)[i] == versions@[i]@);
            }
        }
        r
    }

    /// The download URL of the first install-only archive of `version`
    /// for `target`, in release order.
    pub fn find_url_in_releases(releases: &Vec<PythonRelease>, version: &Version, target: &Target) -> (r: Result<String, ProviderError>)
        ensures
            match first_url(flat_assets(releases@), asset_prefix(version@), asset_suffix(*target)) {
                Some(u) => r matches Ok(x) && x@ == u,
                None => r matches Err(ProviderError::VersionNotFound { tool: t, spec: s }) && t@ == "python"@
                    && s@ == version_text(version@) + " for "@ + target_display(*target),
            },
    {
        let mut pre: Vec<char> = Vec::new();
        push_str(&mut pre, "cpython-");
        let vt = version.text();
        push_all(&mut pre, &vt);
        push_str(&mut pre, "+");
        let mut suf: Vec<char> = Vec::new();
        push_str(&mut suf, "-");
        match target.arch {
            Arch::X86_64 => push_str(&mut suf, "x86_64"),
            Arch::Aarch64 => push_str(&mut suf, "aarch64"),
        }
        push_str(&mut suf, "-");
        match target.platform {
            Platform::MacOS => push_str(&mut suf, "apple-darwin"),
            Platform::Linux => push_str(&mut suf, "unknown-linux-gnu"),
            Platform::Windows => push_str(&mut suf, "pc-windows-msvc-shared"),
        }
        push_str(&mut suf, "-install_only.tar.gz");
        let mut i: usize = 0;
        while i < releases.len()
            invariant
                i <= releases.len(),
                pre@ == asset_prefix(version@),
                suf@ == asset_suffix(*target),
                first_url(flat_assets(releases@.subrange(0, i as int)), pre@, suf@) is None,
            decreases releases.len() - i,
        {
            let ghost q = releases@.subrange(0, i + 1);
            assert(q.drop_last() =~= releases@.subrange(0, i as int));
            let ghost base = flat_assets(releases@.subrange(0, i as int));
            let assets = &releases[i].assets;
            let mut j: usize = 0;
            while j < assets.len()
                invariant
                    i < releases@.len(),
                    j <= assets.len(),
                    *assets == releases@[i as int].assets,
                    base == flat_assets(releases@.subrange(0, i as int)),
                    pre@ == asset_prefix(version@),
                    suf@ == asset_suffix(*target),
                    first_url(base, pre@, suf@) is None,
                    first_url(base + assets@.subrange(0, j as int), pre@, suf@) is None,
                decreases assets.len() - j,
            {
                let n = chars_of(assets[j].name.as_str());
                let ghost upto = base + assets@.subrange(0, j as int);
                assert(base + assets@.subrange(0, j + 1) =~= upto.push(assets@[j as int]));
                proof {
                    lemma_first_url_push(upto, assets@[j as int], pre@, suf@);
                    assert(seq![assets@[j as int]].drop_first() =~= Seq::<PythonAsset>::empty());
                }
                if has_prefix(&n, &pre) && has_suffix(&n, &suf) {
                    proof {
                        let all = flat_assets(releases@);
                        let rest = releases@.subrange(i + 1, releases@.len() as int);
                        lemma_flat_split(releases@, i as int);
                        assert(assets@ =~= assets@.subrange(0, j as int) + assets@.subrange(j as int, assets@.len() as int));
                        let tail = assets@.subrange(j as int, assets@.len() as int) + flat_assets(rest);
                        assert(all =~= upto + tail);
                        lemma_first_url_append(upto, tail, pre@, suf@);
                        assert(tail[0] == assets@[j as int]);
                        assert(n@ == assets@[j as int].name@);
                        assert(first_url(tail, pre@, suf@) == Some(assets@[j as int].browser_download_url@));
                        assert(first_url(flat_assets(releases@), pre@, suf@) == Some(assets@[j as int].browser_download_url@));
                    }
                    return Ok(assets[j].browser_download_url.clone());
                }
                assert(n@ == assets@[j as int].name@);
                assert(!(starts_with(assets@[j as int].name@, pre@) && ends_with(assets@[j as int].name@, suf@)));
                assert(first_url(Seq::<PythonAsset>::empty(), pre@, suf@) is None);
                assert(first_url(seq![assets@[j as int]], pre@, suf@) is None);
                assert(first_url(upto.push(assets@[j as int]), pre@, suf@) is None);
                j = j + 1;
            }
            assert(assets@.subrange(0, j as int) =~= assets@);
            i = i + 1;
        }
        assert(releases@.subrange(0, i as int) =~= releases@);
        let mut m: Vec<char> = Vec::new();
        push_all(&mut m, &vt);
        push_str(&mut m, " for ");
        let tt = target.text();
        push_all(&mut m, &tt);
        Err(ProviderError::VersionNotFound { tool: owned("python"), spec: string_of(&m) })
    }
}

proof fn lemma_flat_split(rs: Seq<PythonRelease>, i: int)
    requires
        0 <= i < rs.len(),
    ensures
        flat_assets(rs) == flat_assets(rs.subrange(0, i)) + rs[i].assets@ + flat_assets(rs.subrange(i + 1, rs.len() as int)),
    decreases rs.len(),
{
    if i == rs.len() - 1 {
        assert(rs.subrange(0, i) =~= rs.drop_last());
        assert(rs.subrange(i + 1, rs.len() as int) =~= Seq::<PythonRelease>::empty());
        assert(flat_assets(rs.subrange(i + 1, rs.len() as int)) == Seq::<PythonAsset>::empty());
        assert(flat_assets(rs) =~= flat_assets(rs.subrange(0, i)) + rs[i].assets@ + Seq::<PythonAsset>::empty());
    } else {
        let p = rs.drop_last();
        lemma_flat_split(p, i);
        assert(p.subrange(0, i) =~= rs.subrange(0, i));
        let tail = rs.subrange(i + 1, rs.len() as int);
        assert(p.subrange(i + 1, p.len() as int) =~= tail.drop_last());
        assert(tail.last() == rs.last());
        assert(flat_assets(tail) == flat_assets(tail.drop_last()) + tail.last().assets@);
    }
}

impl Provider for PythonProvider {
    fn name(&self) -> (r: &str)
        ensures
            r@ == "python"@,
    {
        "python"
    }

    fn archive_format(&self, target: &Target) -> (r: ArchiveFormat)
        ensures
            r == ArchiveFormat::TarGz,
    {
        ArchiveFormat::TarGz
    }

    fn bin_paths(&self, version: &Version, target: &Target) -> (r: Vec<String>)
        ensures
            match target.platform {
                Platform::Windows => r@.len() == 2 && r@[0]@ == "python"@ && r@[1]@ == path_join("python"@, "Scripts"@),
                _ => r@.len() == 1 && r@[0]@ == path_join("python"@, "bin"@),
            },
    {
        match target.platform {
            Platform::Windows => vec![owned("python"), join_path("python", "Scripts")],
            _ => vec![join_path("python", "bin")],
        }
    }

    fn env_vars(&self, install_dir: &str) -> (r: EnvVars)
        ensures
            r.wf(),
            r@ == map!["PYTHONHOME"@ => path_join(install_dir@, "python"@)],
    {
        single_var("PYTHONHOME", join_path(install_dir, "python"))
    }
}

/// The literal name suffix of the install-only archive for a target:
/// `-ARCH-OS-install_only.tar.gz`, with `x86_64` or `aarch64`, and
/// `apple-darwin`, `unknown-linux-gnu` or `pc-windows-msvc-shared`.
pub open spec fn install_only_suffix(t: Target) -> Seq<char> {
    let arch = match t.arch { Arch::X86_64 => "x86_64"@, Arch::Aarch64 => "aarch64"@ };
    let os = match t.platform { Platform::MacOS => "apple-darwin"@, Platform::Linux => "unknown-linux-gnu"@, Platform::Windows => "pc-windows-msvc-shared"@ };
    "-"@ + arch + "-"@ + os + "-install_only.tar.gz"@
}

/// A release asset named `cpython-VERSION+BUILD-ARCH-OS-install_only.tar.gz`
/// for the version and target asked for (on Windows the
/// `pc-windows-msvc-shared` build) is the one whose URL is found, when it
/// comes first; an asset of another target is passed over.
pub proof fn lemma_python_finds_the_install_only_asset(
    a: PythonAsset,
    rest: Seq<PythonAsset>,
    v: VersionView,
    t: Target,
    build: Seq<char>,
)
    ensures
        a.name@ == "cpython-"@ + version_text(v) + "+"@ + build + install_only_suffix(t) ==> first_url(
            seq![a] + rest,
            asset_prefix(v),
            asset_suffix(t),
        ) == Some(a.browser_download_url@),
        asset_suffix(t) == install_only_suffix(t),
        !ends_with(a.name@, install_only_suffix(t)) ==> first_url(seq![a] + rest, asset_prefix(v), asset_suffix(t))
            == first_url(rest, asset_prefix(v), asset_suffix(t)),
{
    let all = seq![a] + rest;
    assert(all[0] == a);
    assert(all.drop_first() =~= rest);
    let n = a.name@;
    let pre = asset_prefix(v);
    let suf = asset_suffix(t);
    if n == "cpython-"@ + version_text(v) + "+"@ + build + install_only_suffix(t) {
        assert(n == pre + (build + suf));
        assert(n.subrange(0, pre.len() as int) =~= pre);
        assert(n.subrange(n.len() - suf.len(), n.len() as int) =~= suf);
    }
}

} // verus!

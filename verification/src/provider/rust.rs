//! Rust, from the official standalone installers.

use vstd::prelude::*;

use crate::environment::EnvVars;
use crate::platform::{Platform, Target, target_triple};
use crate::provider::bun::unsupported;
use crate::provider::{ArchiveFormat, Provider, ProviderError, owned, resolution_failed};
use crate::text::{chars_of, is_ws, push_all, push_str, string_of, trim_start};
use crate::version::{
    Version, VersionView, semver_outcome, sort_descending, sorted_descending, version_text, views,
};

verus! {

/// Rust, resolved from the stable channel manifest; every `1.x.0` from
/// `1.20.0` to the current stable is a candidate.
#[derive(Debug, Clone, Copy)]
pub struct RustProvider;

/// The lowest minor version offered.
pub const MIN_MINOR_VERSION: u64 = 20;

/// `n` is where the word that starts a text ends: no whitespace before it,
/// and whitespace or the end of the text at it.
pub open spec fn word_end(t: Seq<char>, n: int) -> bool {
    &&& 0 < n <= t.len()
    &&& forall|k: int| 0 <= k < n ==> !is_ws(#[trigger] t[k])
    &&& (n == t.len() || is_ws(t[n]))
}

/// The first whitespace-separated word of a text, as
/// `split_whitespace().next()` gives it.
pub open spec fn first_word(s: Seq<char>) -> Option<Seq<char>> {
    let t = trim_start(s);
    if t.len() == 0 {
        None
    } else {
        let n = choose|n: int| #[trigger] word_end(t, n);
        Some(t.subrange(0, n))
    }
}

/// What the channel manifest's `pkg.rust.version` field (e.g.
/// `1.94.0 (4a4ef493e 2026-03-02)`) gives: the version of its first word,
/// or the failure message.
pub open spec fn channel_version(field: Seq<char>) -> Result<VersionView, Seq<char>> {
    match first_word(field) {
        None => Err("empty version string in channel manifest"@),
        Some(w) => match semver_outcome(w) {
            Ok(v) => Ok(v),
            Err(e) => Err("invalid version `"@ + w + "` in channel manifest: "@ + e),
        },
    }
}

/// The candidate versions for a stable release: `1.m.0` for each minor
/// `m` from 20 to its minor, then the release itself if its patch is not 0.
pub open spec fn rust_candidates(latest: VersionView) -> Seq<VersionView> {
    let range = if latest.1 >= 20 {
        Seq::new(
            (latest.1 - 20 + 1) as nat,
            |i: int| (1u64, (20 + i) as u64, 0u64, Seq::<char>::empty(), Seq::<char>::empty()),
        )
    } else {
        Seq::empty()
    };
    if latest.2 > 0 {
        range.push(latest)
    } else {
        range
    }
}

/// The download URL of a Rust version for a target.
pub open spec fn rust_url(v: VersionView, t: Target) -> Seq<char> {
    "https://static.rust-lang.org/dist/rust-"@ + version_text(v) + "-"@ + target_triple(t) + ".tar.gz"@
}

/// The command that installs an extracted Rust archive into a directory.
pub open spec fn rust_install_command(v: VersionView, t: Target, dir: Seq<char>) -> Seq<char> {
    "rust-"@ + version_text(v) + "-"@ + target_triple(t) + "/install.sh '--prefix="@ + dir
        + "' --without=rust-docs --disable-ldconfig"@
}

fn first_word_exec(s: &Vec<char>) -> (r: Option<Vec<char>>)
    ensures
        match r {
            Some(w) => first_word(s@) == Some(w@),
            None => first_word(s@) is None,
        },
{
    let n = s.len();
    let mut lo: usize = 0;
    assert(s@.subrange(0, n as int) =~= s@);
    while lo < n && crate::text::is_ws_char(s[lo])
        invariant
            n == s.len(),
            lo <= n,
            trim_start(s@) == trim_start(s@.subrange(lo as int, n as int)),
        decreases n - lo,
    {
        assert(s@.subrange(lo as int, n as int).drop_first() =~= s@.subrange(lo + 1, n as int));
        lo = lo + 1;
    }
    let ghost t = s@.subrange(lo as int, n as int);
    assert(trim_start(s@) == t);
    if lo == n {
        return None;
    }
    let mut hi: usize = lo;
    while hi < n && !crate::text::is_ws_char(s[hi])
        invariant
            n == s.len(),
            lo <= hi <= n,
            t == s@.subrange(lo as int, n as int),
            forall|k: int| 0 <= k < hi - lo ==> !is_ws(#[trigger] t[k]),
        decreases n - hi,
    {
        hi = hi + 1;
    }
    let w = crate::text::slice_chars(s, lo, hi);
    proof {
        let m = (hi - lo) as int;
        assert(word_end(t, m));
        let c = choose|c: int| #[trigger] word_end(t, c);
        if c < m {
            assert(!is_ws(t[c]));
        }
        if m < c {
            assert(!is_ws(t[m]));
        }
        assert(w@ =~= t.subrange(0, m));
    }
    Some(w)
}

impl RustProvider {
    /// The stable channel manifest URL.
    pub fn channel_url() -> (r: &'static str)
        ensures
            r@ == "https://static.rust-lang.org/dist/channel-rust-stable.toml"@,
    {
        "https://static.rust-lang.org/dist/channel-rust-stable.toml"
    }

    /// Reads the decoded `pkg.rust.version` field of the channel manifest
    /// (or the manifest's decoding error text) into the stable version.
    pub fn parse_channel_version(decoded: Result<String, String>) -> (r: Result<Version, ProviderError>)
        ensures
            match decoded {
                Err(e) => r matches Err(ProviderError::ResolutionFailed { tool: t, reason: m })
                    && t@ == "rust"@ && m@ == "failed to parse channel manifest: "@ + e@,
                Ok(f) => match channel_version(f@) {
                    Ok(v) => r matches Ok(x) && x@ == v,
                    Err(m) => r matches Err(ProviderError::ResolutionFailed { tool: t, reason: y })
                        && t@ == "rust"@ && y@ == m,
                },
            },
    {
        match decoded {
            Err(e) => {
                let mut m: Vec<char> = Vec::new();
                push_str(&mut m, "failed to parse channel manifest: ");
                push_str(&mut m, e.as_str());
                Err(resolution_failed("rust", m))
            },
            Ok(field) => {
                let fc = chars_of(field.as_str());
                match first_word_exec(&fc) {
                    None => {
                        let mut m: Vec<char> = Vec::new();
                        push_str(&mut m, "empty version string in channel manifest");
                        Err(resolution_failed("rust", m))
                    },
                    Some(w) => {
                        let ws = string_of(&w);
                        match Version::parse_or_error(ws.as_str()) {
                            Ok(v) => Ok(v),
                            Err(e) => {
                                let mut m: Vec<char> = Vec::new();
                                push_str(&mut m, "invalid version `");
                                push_all(&mut m, &w);
                                push_str(&mut m, "` in channel manifest: ");
                                push_str(&mut m, e.as_str());
                                Err(resolution_failed("rust", m))
                            },
                        }
                    },
                }
            },
        }
    }

    /// The candidate versions for the current stable release (see
    /// `rust_candidates`).
    pub fn generate_candidates(latest: &Version) -> (r: Vec<Version>)
        ensures
            views(r@) == rust_candidates(latest@),
    {
        let mut candidates: Vec<Version> = Vec::new();
        if latest.minor >= MIN_MINOR_VERSION {
            let count: u64 = latest.minor - MIN_MINOR_VERSION + 1;
            let mut i: u64 = 0;
            while i < count
                invariant
                    latest.minor >= 20,
                    count == latest.minor - 20 + 1,
                    i <= count,
                    views(candidates@) =~= Seq::new(
                        i as nat,
                        |k: int| (1u64, (20 + k) as u64, 0u64, Seq::<char>::empty(), Seq::<char>::empty()),
                    ),
                decreases count - i,
            {
                let v = Version::new(1, MIN_MINOR_VERSION + i, 0);
                let ghost prev = views(candidates@);
                candidates.push(v);
                assert(views(candidates@) =~= prev.push(v@));
                i = i + 1;
            }
        }
        if latest.patch > 0 {
            let ghost prev = candidates@;
            candidates.push(latest.duplicate());
            assert(views(candidates@) =~= views(prev).push(latest@));
        }
        candidates
    }

    /// The versions, highest first (the list `runx list rust` shows).
    pub fn sorted_versions(versions: Vec<Version>) -> (r: Vec<Version>)
        ensures
            views(r@) == sorted_descending(views(versions@)),
    {
        sort_descending(versions)
    }

    /// The download URL of a version for a target; Windows is unsupported.
    pub fn download_url(&self, version: &Version, target: &Target) -> (r: Result<String, ProviderError>)
        ensures
            target.platform == Platform::Windows ==> (r matches Err(e) && unsupported(e, "rust"@, *target)),
            target.platform != Platform::Windows ==> (r matches Ok(u) && u@ == rust_url(version@, *target)),
    {
        if target.platform == Platform::Windows {
            return Err(ProviderError::UnsupportedTarget { tool: owned("rust"), target: target.to_string() });
        }
        let mut m: Vec<char> = Vec::new();
        push_str(&mut m, "https://static.rust-lang.org/dist/rust-");
        let vt = version.text();
        push_all(&mut m, &vt);
        push_str(&mut m, "-");
        push_str(&mut m, target.triple());
        push_str(&mut m, ".tar.gz");
        Ok(string_of(&m))
    }
}

impl Provider for RustProvider {
    fn name(&self) -> (r: &str)
        ensures
            r@ == "rust"@,
    {
        "rust"
    }

    fn archive_format(&self, target: &Target) -> (r: ArchiveFormat)
        ensures
            r == ArchiveFormat::TarGz,
    {
        ArchiveFormat::TarGz
    }

    fn bin_paths(&self, version: &Version, target: &Target) -> (r: Vec<String>)
        ensures
            r@.len() == 1,
            r@[0]@ == "bin"@,
    {
        vec![owned("bin")]
    }

    fn env_vars(&self, install_dir: &str) -> (r: EnvVars)
        ensures
            r.wf(),
            r@ == Map::<Seq<char>, Seq<char>>::empty(),
    {
        EnvVars::new()
    }

    fn temp_env_dirs(&self) -> (r: Vec<&'static str>)
        ensures
            r@.len() == 1,
            r@[0]@ == "CARGO_HOME"@,
    {
        vec!["CARGO_HOME"]
    }

    fn post_install_command(&self, version: &Version, target: &Target, install_dir: &str) -> (r: Option<String>)
        ensures
            r matches Some(c) && c@ == rust_install_command(version@, *target, install_dir@),
    {
        let mut m: Vec<char> = Vec::new();
        push_str(&mut m, "rust-");
        let vt = version.text();
        push_all(&mut m, &vt);
        push_str(&mut m, "-");
        push_str(&mut m, target.triple());
        push_str(&mut m, "/install.sh '--prefix=");
        push_str(&mut m, install_dir);
        push_str(&mut m, "' --without=rust-docs --disable-ldconfig");
        Some(string_of(&m))
    }
}

/// The Rust archive for a target is `rust-VERSION-TRIPLE.tar.gz` under
/// `https://static.rust-lang.org/dist/`, with TRIPLE the target's Rust
/// triple; the post-install command runs the `install.sh` of the directory
/// that archive unpacks to, `rust-VERSION-TRIPLE`, into the install
/// directory.
pub proof fn lemma_rust_archive_and_install(v: VersionView, t: Target, dir: Seq<char>)
    ensures
        ({
            let base = "rust-"@ + version_text(v) + "-"@ + target_triple(t);
            &&& rust_url(v, t) == "https://static.rust-lang.org/dist/"@ + base + ".tar.gz"@
            &&& rust_install_command(v, t, dir) == base + "/install.sh '--prefix="@ + dir
                + "' --without=rust-docs --disable-ldconfig"@
        }),
        target_triple(t) == match (t.platform, t.arch) { (Platform::MacOS, crate::platform::Arch::X86_64) => "x86_64-apple-darwin"@, (Platform::MacOS, crate::platform::Arch::Aarch64) => "aarch64-apple-darwin"@, (Platform::Linux, crate::platform::Arch::X86_64) => "x86_64-unknown-linux-gnu"@, (Platform::Linux, crate::platform::Arch::Aarch64) => "aarch64-unknown-linux-gnu"@, (Platform::Windows, crate::platform::Arch::X86_64) => "x86_64-pc-windows-msvc"@, (Platform::Windows, crate::platform::Arch::Aarch64) => "aarch64-pc-windows-msvc"@ },
{
    reveal_strlit("https://static.rust-lang.org/dist/");
    reveal_strlit("https://static.rust-lang.org/dist/rust-");
    reveal_strlit("rust-");
    assert("https://static.rust-lang.org/dist/rust-"@ =~= "https://static.rust-lang.org/dist/"@ + "rust-"@);
}

} // verus!

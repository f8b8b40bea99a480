//! Java, from Eclipse Adoptium (Temurin) builds.

use vstd::prelude::*;

use crate::environment::EnvVars;
use crate::platform::{Arch, Platform, Target, platform_archive_format};
use crate::provider::{
    ArchiveFormat, Provider, ProviderError, collect_stable_versions, opt_views, owned,
    resolution_failed, single_var, stable_unique,
};
use crate::text::{
    chars_of, find_char, first_index, push_all, push_decimal, push_str, slice_chars, string_of,
    decimal
};
use crate::version::{
    Version, VersionView, semver_parse_result, sort_descending, sorted_descending, dedup_adjacent,
    dedup_views, version_text, views
};

verus! {

/// Java, resolved from the Adoptium API.
#[derive(Debug, Clone, Copy)]
pub struct JavaProvider;

/// A release of the Adoptium version list.
#[derive(Debug, Clone)]
pub struct AdoptiumVersion {
    pub major: u64,
    pub minor: u64,
    pub security: u64,
    /// The full version text, with build metadata (e.g. `21.0.2+13.0.LTS`).
    pub semver: String,
}

/// The text before the first `+`, or all of it.
pub open spec fn before_plus(s: Seq<char>) -> Seq<char> {
    let i = first_index(s, '+');
    if i == -1 { s } else { s.subrange(0, i) }
}

/// The version of an Adoptium release: its text without build metadata,
/// parsed with `semver`, or else `major.minor.security`.
pub open spec fn adoptium_version(v: AdoptiumVersion) -> VersionView {
    match semver_parse_result(before_plus(v.semver@)) {
        Some(x) => x,
        None => (v.major, v.minor, v.security, Seq::<char>::empty(), Seq::<char>::empty()),
    }
}

/// Adoptium's name for a platform.
pub open spec fn adoptium_os_name(p: Platform) -> Seq<char> {
    match p {
        Platform::MacOS => "mac"@,
        Platform::Linux => "linux"@,
        Platform::Windows => "windows"@,
    }
}

/// Adoptium's name for an architecture.
pub open spec fn adoptium_arch_name(a: Arch) -> Seq<char> {
    match a {
        Arch::X86_64 => "x64"@,
        Arch::Aarch64 => "aarch64"@,
    }
}

/// The download URL of a JDK version.
pub open spec fn java_url(v: VersionView, t: Target) -> Seq<char> {
    "https://api.adoptium.net/v3/binary/version/jdk-"@ + version_text(v) + "/"@ + adoptium_os_name(
        t.platform,
    ) + "/"@ + adoptium_arch_name(t.arch) + "/jdk/hotspot/normal/eclipse?project=jdk"@
}

/// The URL listing the newest GA release of one major version.
pub open spec fn java_release_url(major: u64) -> Seq<char> {
    "https://api.adoptium.net/v3/info/release_versions?architecture=x64&heap_size=normal&image_type=jdk&os=linux&page=0&page_size=1&project=jdk&release_type=ga&sort_method=DEFAULT&sort_order=DESC&vendor=eclipse&version=%5B"@
        + decimal(major as nat) + "%2C"@ + decimal((major + 1) as nat) + "%29"@
}

impl JavaProvider {
    /// The URL listing the available major versions.
    pub fn available_url() -> (r: &'static str)
        ensures
            r@ == "https://api.adoptium.net/v3/info/available_releases"@,
    {
        "https://api.adoptium.net/v3/info/available_releases"
    }

    /// The URL listing the newest GA release of a major version.
    pub fn release_versions_url(major: u64) -> (r: String)
        requires
            major < u64::MAX,
        ensures
            r@ == java_release_url(major),
    {
        let mut m: Vec<char> = Vec::new();
        push_str(
            &mut m,
            "https://api.adoptium.net/v3/info/release_versions?architecture=x64&heap_size=normal&image_type=jdk&os=linux&page=0&page_size=1&project=jdk&release_type=ga&sort_method=DEFAULT&sort_order=DESC&vendor=eclipse&version=%5B",
        );
        push_decimal(&mut m, major);
        push_str(&mut m, "%2C");
        push_decimal(&mut m, major + 1);
        push_str(&mut m, "%29");
        string_of(&m)
    }

    /// Reads the decoded list of available major versions.
    pub fn parse_available(decoded: Result<Vec<u64>, String>) -> (r: Result<Vec<u64>, ProviderError>)
        ensures
            match decoded {
                Err(e) => r matches Err(ProviderError::ResolutionFailed { tool: t, reason: m })
                    && t@ == "java"@ && m@ == "failed to parse available releases: "@ + e@,
                Ok(ms) => r matches Ok(x) && x@ == ms@,
            },
    {
        match decoded {
            Err(e) => {
                let mut m: Vec<char> = Vec::new();
                push_str(&mut m, "failed to parse available releases: ");
                push_str(&mut m, e.as_str());
                Err(resolution_failed("java", m))
            },
            Ok(ms) => Ok(ms),
        }
    }

    /// Reads a decoded release list: each release's version (see
    /// `adoptium_version`), stable and each once.
    pub fn parse_version_response(decoded: Result<Vec<AdoptiumVersion>, String>) -> (r: Result<Vec<Version>, ProviderError>)
        ensures
            match decoded {
                Err(e) => r matches Err(ProviderError::ResolutionFailed { tool: t, reason: m })
                    && t@ == "java"@ && m@ == "failed to parse version response: "@ + e@,
                Ok(vs) => r matches Ok(x) && views(x@) == stable_unique(
                    vs@.map_values(|a: AdoptiumVersion| Some(adoptium_version(a))),
                ),
            },
    {
        match decoded {
            Err(e) => {
                let mut m: Vec<char> = Vec::new();
                push_str(&mut m, "failed to parse version response: ");
                push_str(&mut m, e.as_str());
                Err(resolution_failed("java", m))
            },
            Ok(vs) => {
                let ghost want = vs@.map_values(|a: AdoptiumVersion| Some(adoptium_version(a)));
                let mut parsed: Vec<Option<Version>> = Vec::new();
                let mut i: usize = 0;
                while i < vs.len()
                    invariant
                        i <= vs.len(),
                        want == vs@.map_values(|a: AdoptiumVersion| Some(adoptium_version(a))),
                        opt_views(parsed@) =~= want.subrange(0, i as int),
                    decreases vs.len() - i,
                {
                    let text = chars_of(vs[i].semver.as_str());
                    let clean = match find_char(&text, '+') {
                        Some(k) => slice_chars(&text, 0, k),
                        None => slice_chars(&text, 0, text.len()),
                    };
                    assert(clean@ == before_plus(vs@[i as int].semver@));
                    let cs = string_of(&clean);
                    let v = match Version::parse(cs.as_str()) {
                        Some(x) => x,
                        None => Version::new(vs[i].major, vs[i].minor, vs[i].security),
                    };
                    let ghost prev = parsed@;
                    parsed.push(Some(v));
                    assert(opt_views(parsed@) =~= opt_views(prev).push(Some(v@)));
                    i = i + 1;
                }
                assert(want.subrange(0, i as int) =~= want);
                Ok(collect_stable_versions(parsed))
            },
        }
    }

    /// Finishes the version list from the versions found for each major:
    /// highest first, without repeats; none found is a resolution failure.
    pub fn finish_versions(found: Vec<Version>) -> (r: Result<Vec<Version>, ProviderError>)
        ensures
            found@.len() == 0 ==> (r matches Err(ProviderError::ResolutionFailed { tool: t, reason: m })
                && t@ == "java"@ && m@ == "no Java versions found"@),
            found@.len() > 0 ==> (r matches Ok(x) && views(x@) == dedup_views(sorted_descending(views(found@)))),
    {
        if found.len() == 0 {
            let mut m: Vec<char> = Vec::new();
            push_str(&mut m, "no Java versions found");
            return Err(resolution_failed("java", m));
        }
        let sorted = sort_descending(found);
        Ok(dedup_adjacent(sorted))
    }

    /// Adoptium's name for a platform.
    pub fn adoptium_os(platform: Platform) -> (r: &'static str)
        ensures
            r@ == adoptium_os_name(platform),
    {
        match platform {
            Platform::MacOS => "mac",
            Platform::Linux => "linux",
            Platform::Windows => "windows",
        }
    }

    /// Adoptium's name for an architecture.
    pub fn adoptium_arch(arch: Arch) -> (r: &'static str)
        ensures
            r@ == adoptium_arch_name(arch),
    {
        match arch {
            Arch::X86_64 => "x64",
            Arch::Aarch64 => "aarch64",
        }
    }
}

impl JavaProvider {
    /// The download URL of a version for a target.
    pub fn download_url(&self, version: &Version, target: &Target) -> (r: Result<String, ProviderError>)
        ensures
            r matches Ok(u) && u@ == java_url(version@, *target),
    {
        let mut m: Vec<char> = Vec::new();
        push_str(&mut m, "https://api.adoptium.net/v3/binary/version/jdk-");
        let vt = version.text();
        push_all(&mut m, &vt);
        push_str(&mut m, "/");
        push_str(&mut m, JavaProvider::adoptium_os(target.platform));
        push_str(&mut m, "/");
        push_str(&mut m, JavaProvider::adoptium_arch(target.arch));
        push_str(&mut m, "/jdk/hotspot/normal/eclipse?project=jdk");
        Ok(string_of(&m))
    }
}

impl Provider for JavaProvider {
    fn name(&self) -> (r: &str)
        ensures
            r@ == "java"@,
    {
        "java"
    }

    fn archive_format(&self, target: &Target) -> (r: ArchiveFormat)
        ensures
            r == platform_archive_format(target.platform),
    {
        target.platform.default_archive_format()
    }

    fn bin_paths(&self, version: &Version, target: &Target) -> (r: Vec<String>)
        ensures
            r@.len() == 1,
            r@[0]@ == match target.platform {
                Platform::MacOS => "jdk-"@ + version_text(version@) + "/Contents/Home/bin"@,
                _ => "jdk-"@ + version_text(version@) + "/bin"@,
            },
    {
        let mut m: Vec<char> = Vec::new();
        push_str(&mut m, "jdk-");
        let vt = version.text();
        push_all(&mut m, &vt);
        match target.platform {
            Platform::MacOS => push_str(&mut m, "/Contents/Home/bin"),
            _ => push_str(&mut m, "/bin"),
        }
        vec![string_of(&m)]
    }

    fn env_vars(&self, install_dir: &str) -> (r: EnvVars)
        ensures
            r.wf(),
            r@ == map!["JAVA_HOME"@ => install_dir@],
    {
        single_var("JAVA_HOME", owned(install_dir))
    }
}

/// The Java download is always a full JDK image from Adoptium's binary
/// endpoint, for exactly the version asked for, and for the target's
/// operating system (`mac`, `linux`, `windows`) and architecture (`x64`,
/// `aarch64`): the URL is
/// `https://api.adoptium.net/v3/binary/version/jdk-VERSION/OS/ARCH/jdk/hotspot/normal/eclipse?project=jdk`;
/// its image type is the one the release query asks for (`image_type=jdk`).
pub proof fn lemma_java_url_is_a_jdk(v: VersionView, t: Target)
    ensures
        java_url(v, t) == "https://api.adoptium.net/v3/binary/version/jdk-"@ + version_text(v) + "/"@ + (
        match t.platform {
            Platform::MacOS => "mac"@,
            Platform::Linux => "linux"@,
            Platform::Windows => "windows"@,
        }) + "/"@ + (match t.arch {
            Arch::X86_64 => "x64"@,
            Arch::Aarch64 => "aarch64"@,
        }) + ("/jdk"@ + "/hotspot/normal/eclipse?project=jdk"@),
        crate::text::ends_with(java_url(v, t), ("/jdk"@ + "/hotspot/normal/eclipse?project=jdk"@)),
        crate::text::contains_seq(java_release_url(0), "image_type=jdk"@),
{
    reveal_strlit("/jdk");
    reveal_strlit("/hotspot/normal/eclipse?project=jdk");
    reveal_strlit("/jdk/hotspot/normal/eclipse?project=jdk");
    let tail = ("/jdk"@ + "/hotspot/normal/eclipse?project=jdk"@);
    let u = java_url(v, t);
    let head = "https://api.adoptium.net/v3/binary/version/jdk-"@ + version_text(v) + "/"@ + adoptium_os_name(
        t.platform,
    ) + "/"@ + adoptium_arch_name(t.arch);
    assert(u == head + tail);
    assert(u.subrange(u.len() - tail.len(), u.len() as int) =~= tail);
    reveal_strlit("image_type=jdk");
    let q = java_release_url(0);
    let pre = "https://api.adoptium.net/v3/info/release_versions?architecture=x64&heap_size=normal&"@;
    reveal_strlit("https://api.adoptium.net/v3/info/release_versions?architecture=x64&heap_size=normal&image_type=jdk&os=linux&page=0&page_size=1&project=jdk&release_type=ga&sort_method=DEFAULT&sort_order=DESC&vendor=eclipse&version=%5B");
    reveal_strlit("https://api.adoptium.net/v3/info/release_versions?architecture=x64&heap_size=normal&");
    assert(crate::text::occurs_at(q, "image_type=jdk"@, pre.len() as int)) by {
        assert(q.subrange(pre.len() as int, (pre.len() + 14) as int) =~= "image_type=jdk"@);
    }
}

} // verus!

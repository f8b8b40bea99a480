//! Node.js, from the official distribution index and binaries.

use vstd::prelude::*;

use crate::environment::EnvVars;
use crate::platform::{
    Platform, Target, arch_download_name, platform_archive_format, platform_download_name
};
use crate::provider::{
    ArchiveFormat, Provider, ProviderError, join_path, owned, path_join, resolution_failed,
    single_var
};
use crate::text::{chars_of, push_all, push_str, string_of};
use crate::version::{Version, VersionView, semver_parse_result, version_text, views};

verus! {

/// Node.js, resolved from `https://nodejs.org/dist/index.json`.
#[derive(Debug, Clone, Copy)]
pub struct NodeProvider;

/// An entry of the Node.js version index, of which only the version text
/// (e.g. `v18.19.1`) matters.
#[derive(Debug, Clone)]
pub struct NodeIndexEntry {
    pub version: String,
}

/// The version an index entry names: the text without a leading `v`,
/// parsed with `semver`.
pub open spec fn node_entry_version(text: Seq<char>) -> Option<VersionView> {
    if text.len() > 0 && text[0] == 'v' {
        semver_parse_result(text.drop_first())
    } else {
        semver_parse_result(text)
    }
}

/// The stable versions of the index, in index order.
pub open spec fn node_versions(entries: Seq<Seq<char>>) -> Seq<VersionView>
    decreases entries.len(),
{
    if entries.len() == 0 {
        Seq::empty()
    } else {
        let prev = node_versions(entries.drop_last());
        match node_entry_version(entries.last()) {
            Some(v) => if v.3.len() == 0 {
                prev.push(v)
            } else {
                prev
            },
            None => prev,
        }
    }
}

/// The name of the top-level directory of a Node.js archive.
pub open spec fn node_dir_name(v: VersionView, t: Target) -> Seq<char> {
    "node-v"@ + version_text(v) + "-"@ + platform_download_name(t.platform) + "-"@ + arch_download_name(
        t.arch,
    )
}

/// The download URL of a Node.js version.
pub open spec fn node_url(v: VersionView, t: Target) -> Seq<char> {
    let ext = match t.platform {
        Platform::Windows => "zip"@,
        _ => "tar.gz"@,
    };
    "https://nodejs.org/dist/v"@ + version_text(v) + "/"@ + node_dir_name(v, t) + "."@ + ext
}

impl NodeProvider {
    /// The Node.js version index URL.
    pub fn index_url() -> (r: &'static str)
        ensures
            r@ == "https://nodejs.org/dist/index.json"@,
    {
        "https://nodejs.org/dist/index.json"
    }

    /// Reads the decoded version index: the stable versions in index order
    /// (entries whose text, without a leading `v`, is not a version are
    /// skipped). A decoding error (its text given) or no stable version is
    /// a resolution failure.
    pub fn parse_versions(decoded: Result<Vec<NodeIndexEntry>, String>) -> (r: Result<Vec<Version>, ProviderError>)
        ensures
            match decoded {
                Err(e) => r matches Err(ProviderError::ResolutionFailed { tool: t, reason: m })
                    && t@ == "node"@ && m@ == "failed to parse version index: "@ + e@,
                Ok(es) => {
                    let vs = node_versions(es@.map_values(|x: NodeIndexEntry| x.version@));
                    if vs.len() == 0 {
                        r matches Err(ProviderError::ResolutionFailed { tool: t, reason: m })
                            && t@ == "node"@ && m@ == "no stable versions found in index"@
                    } else {
                        r matches Ok(v) && views(v@) == vs
                    }
                },
            },
    {
        match decoded {
            Err(e) => {
                let mut m: Vec<char> = Vec::new();
                push_str(&mut m, "failed to parse version index: ");
                push_str(&mut m, e.as_str());
                Err(resolution_failed("node", m))
            },
            Ok(entries) => {
                let ghost texts = entries@.map_values(|x: NodeIndexEntry| x.version@);
                let mut versions: Vec<Version> = Vec::new();
                let mut i: usize = 0;
                while i < entries.len()
                    invariant
                        i <= entries.len(),
                        texts == entries@.map_values(|x: NodeIndexEntry| x.version@),
                        views(versions@) == node_versions(texts.subrange(0, i as int)),
                    decreases entries.len() - i,
                {
                    let ghost q = texts.subrange(0, i + 1);
                    assert(q.drop_last() =~= texts.subrange(0, i as int));
                    let text = chars_of(entries[i].version.as_str());
                    let stripped = if text.len() > 0 && text[0] == 'v' {
                        crate::text::slice_chars(&text, 1, text.len())
                    } else {
                        crate::text::slice_chars(&text, 0, text.len())
                    };
                    assert(stripped@ == (if text@.len() > 0 && text@[0] == 'v' { text@.drop_first() } else { text@ }));
                    let s = string_of(&stripped);
                    match Version::parse(s.as_str()) {
                        Some(v) => {
                            if v.is_stable() {
                                let ghost prev = versions@;
                                versions.push(v);
                                assert(views(versions@) =~= views(prev).push(versions@.last()@));
                            }
                        },
                        None => {},
                    }
                    i = i + 1;
                }
                assert(texts.subrange(0, i as int) =~= texts);
                if versions.len() == 0 {
                    let mut m: Vec<char> = Vec::new();
                    push_str(&mut m, "no stable versions found in index");
                    Err(resolution_failed("node", m))
                } else {
                    Ok(versions)
                }
            },
        }
    }

    /// The top-level directory inside an archive, e.g.
    /// `node-v18.19.1-darwin-arm64`.
    pub fn archive_dir_name(version: &Version, target: &Target) -> (r: String)
        ensures
            r@ == node_dir_name(version@, *target),
    {
        let mut m: Vec<char> = Vec::new();
        push_str(&mut m, "node-v");
        let vt = version.text();
        push_all(&mut m, &vt);
        push_str(&mut m, "-");
        push_str(&mut m, target.platform.as_download_str());
        push_str(&mut m, "-");
        push_str(&mut m, target.arch.as_download_str());
        string_of(&m)
    }
}

impl NodeProvider {
    /// The download URL of a version for a target.
    pub fn download_url(&self, version: &Version, target: &Target) -> (r: Result<String, ProviderError>)
        ensures
            r matches Ok(u) && u@ == node_url(version@, *target),
    {
        let mut m: Vec<char> = Vec::new();
        push_str(&mut m, "https://nodejs.org/dist/v");
        let vt = version.text();
        push_all(&mut m, &vt);
        push_str(&mut m, "/");
        let d = NodeProvider::archive_dir_name(version, target);
        push_str(&mut m, d.as_str());
        push_str(&mut m, ".");
        match target.platform {
            Platform::Windows => push_str(&mut m, "zip"),
            _ => push_str(&mut m, "tar.gz"),
        }
        Ok(string_of(&m))
    }
}

impl Provider for NodeProvider {
    fn name(&self) -> (r: &str)
        ensures
            r@ == "node"@,
    {
        "node"
    }

    fn archive_format(&self, target: &Target) -> (r: ArchiveFormat)
        ensures
            r == platform_archive_format(target.platform),
    {
        target.platform.default_archive_format()
    }

    fn bin_paths(&self, version: &Version, target: &Target) -> (r: Vec<String>)
        ensures
            r@.len() == 1,
            r@[0]@ == match target.platform {
                Platform::Windows => node_dir_name(version@, *target),
                _ => path_join(node_dir_name(version@, *target), "bin"@),
            },
    {
        let d = NodeProvider::archive_dir_name(version, target);
        match target.platform {
            Platform::Windows => vec![d],
            _ => vec![join_path(d.as_str(), "bin")],
        }
    }

    fn env_vars(&self, install_dir: &str) -> (r: EnvVars)
        ensures
            r.wf(),
            r@ == map!["NODE_HOME"@ => install_dir@],
    {
        single_var("NODE_HOME", owned(install_dir))
    }
}

/// The Node.js archive for a target is `node-vVERSION-OS-ARCH` under
/// `https://nodejs.org/dist/vVERSION/` (OS `darwin`, `linux` or `win`; ARCH
/// `x64` or `arm64`; `.zip` on Windows, `.tar.gz` elsewhere), and the
/// directory it unpacks to is the one the bin path names (itself on
/// Windows, its `bin` elsewhere).
pub proof fn lemma_node_archive_and_layout(v: VersionView, t: Target)
    ensures
        ({
            let os = match t.platform { Platform::MacOS => "darwin"@, Platform::Linux => "linux"@, Platform::Windows => "win"@ };
            let arch = match t.arch { crate::platform::Arch::X86_64 => "x64"@, crate::platform::Arch::Aarch64 => "arm64"@ };
            let dir = "node-v"@ + version_text(v) + "-"@ + os + "-"@ + arch;
            let ext = match t.platform { Platform::Windows => "zip"@, _ => "tar.gz"@ };
            &&& node_url(v, t) == "https://nodejs.org/dist/v"@ + version_text(v) + "/"@ + dir + "."@ + ext
            &&& crate::provider::builtin_bin_paths(crate::provider::Tool::Node, v, t) == match t.platform {
                Platform::Windows => seq![dir],
                _ => seq![path_join(dir, "bin"@)],
            }
        }),
{
}

} // verus!

//! Tool providers: where each tool's versions come from, how its download
//! URLs are built, and what its installed layout and environment look like.

use vstd::prelude::*;

use crate::environment::EnvVars;
use crate::platform::Target;
use crate::text::{chars_of, has_prefix, push_str, starts_with, str_eq, string_of};
use crate::version::{
    Version, VersionSpec, VersionView, best_index, semver_parse_result, spec_text, views,
};

pub mod bun;
pub mod deno;
pub mod go;
pub mod java;
pub mod node;
pub mod python;
pub mod ruby;
pub mod rust;

pub use bun::BunProvider;
pub use deno::DenoProvider;
pub use go::GoProvider;
pub use java::JavaProvider;
pub use node::NodeProvider;
pub use python::PythonProvider;
pub use ruby::RubyProvider;
pub use rust::RustProvider;

verus! {

/// Archive formats of tool downloads.
#[derive(Debug, Clone, Copy, PartialEq, Eq, Structural)]
pub enum ArchiveFormat {
    TarGz,
    TarXz,
    Zip,
}

/// Errors of provider operations.
#[derive(Debug, Clone)]
pub enum ProviderError {
    /// The requested tool is not supported.
    UnknownTool { name: String },
    /// No version matched the given specifier.
    VersionNotFound { tool: String, spec: String },
    /// The tool does not support this platform/architecture combination.
    UnsupportedTarget { tool: String, target: String },
    /// Version resolution failed (network, parse).
    ResolutionFailed { tool: String, reason: String },
}

/// The message each provider error displays.
pub open spec fn provider_error_text(e: ProviderError) -> Seq<char> {
    match e {
        ProviderError::UnknownTool { name } => "unknown tool `"@ + name@
            + "`.\n  Supported tools: node, python, go, deno, bun, ruby, java, rust\n  Run `runx list` to see all available tools."@,
        ProviderError::VersionNotFound { tool, spec } => "no "@ + tool@ + " version found matching `"@
            + spec@ + "`.\n  Run `runx list "@ + tool@ + "` to see available versions."@,
        ProviderError::UnsupportedTarget { tool, target } => tool@ + " does not support target `"@
            + target@ + "`.\n  Run `runx list "@ + tool@ + "` to see supported platforms."@,
        ProviderError::ResolutionFailed { tool, reason } => "failed to resolve "@ + tool@ + " version: "@
            + reason@ + "\n  Check your network connection and try again."@,
    }
}

impl ProviderError {
    /// The message this error displays.
    pub fn message(&self) -> (r: String)
        ensures
            r@ == provider_error_text(*self),
    {
        let mut m: Vec<char> = Vec::new();
        match self {
            ProviderError::UnknownTool { name } => {
                push_str(&mut m, "unknown tool `");
                push_str(&mut m, name.as_str());
                push_str(
                    &mut m,
                    "`.\n  Supported tools: node, python, go, deno, bun, ruby, java, rust\n  Run `runx list` to see all available tools.",
                );
            },
            ProviderError::VersionNotFound { tool, spec } => {
                push_str(&mut m, "no ");
                push_str(&mut m, tool.as_str());
                push_str(&mut m, " version found matching `");
                push_str(&mut m, spec.as_str());
                push_str(&mut m, "`.\n  Run `runx list ");
                push_str(&mut m, tool.as_str());
                push_str(&mut m, "` to see available versions.");
            },
            ProviderError::UnsupportedTarget { tool, target } => {
                push_str(&mut m, tool.as_str());
                push_str(&mut m, " does not support target `");
                push_str(&mut m, target.as_str());
                push_str(&mut m, "`.\n  Run `runx list ");
                push_str(&mut m, tool.as_str());
                push_str(&mut m, "` to see supported platforms.");
            },
            ProviderError::ResolutionFailed { tool, reason } => {
                push_str(&mut m, "failed to resolve ");
                push_str(&mut m, tool.as_str());
                push_str(&mut m, " version: ");
                push_str(&mut m, reason.as_str());
                push_str(&mut m, "\n  Check your network connection and try again.");
            },
        }
        string_of(&m)
    }

    /// The message this error displays (as `Display` would print it).
    pub fn to_string(&self) -> (r: String)
        ensures
            r@ == provider_error_text(*self),
    {
        self.message()
    }
}


/// How many times a failed upstream request is retried after its first
/// attempt.
pub const MAX_RETRIES: u32 = 3;

/// A tool of the registry: its name, aliases and the command that runs a
/// script with it.
#[derive(Debug, Clone)]
pub struct ToolEntry {
    pub name: &'static str,
    pub aliases: Vec<&'static str>,
    pub interpreter: Vec<&'static str>,
}

/// The registry of supported tools, in display order.
pub fn tool_registry() -> (r: Vec<ToolEntry>)
    ensures
        r.len() == 8,
        r[0].name@ == "node"@,
        r[1].name@ == "python"@,
        r[2].name@ == "go"@,
        r[3].name@ == "deno"@,
        r[4].name@ == "bun"@,
        r[5].name@ == "ruby"@,
        r[6].name@ == "java"@,
        r[7].name@ == "rust"@,
{
    vec![
        ToolEntry { name: "node", aliases: vec!["nodejs"], interpreter: vec!["node"] },
        ToolEntry { name: "python", aliases: vec!["python3"], interpreter: vec!["python3"] },
        ToolEntry { name: "go", aliases: vec!["golang"], interpreter: vec!["go", "run"] },
        ToolEntry { name: "deno", aliases: vec![], interpreter: vec!["deno", "run"] },
        ToolEntry { name: "bun", aliases: vec!["bunx"], interpreter: vec!["bun", "run"] },
        ToolEntry { name: "ruby", aliases: vec!["rb"], interpreter: vec!["ruby"] },
        ToolEntry { name: "java", aliases: vec!["jdk"], interpreter: vec!["java"] },
        ToolEntry { name: "rust", aliases: vec!["rustc", "cargo"], interpreter: vec![] },
    ]
}

/// The built-in tools.
#[derive(Debug, Clone, Copy, PartialEq, Eq, Structural)]
pub enum Tool {
    Node,
    Python,
    Go,
    Deno,
    Bun,
    Ruby,
    Java,
    Rust,
}

/// The built-in tool a name or alias denotes.
pub open spec fn tool_of_name(n: Seq<char>) -> Option<Tool> {
    if n == "node"@ || n == "nodejs"@ {
        Some(Tool::Node)
    } else if n == "python"@ || n == "python3"@ {
        Some(Tool::Python)
    } else if n == "go"@ || n == "golang"@ {
        Some(Tool::Go)
    } else if n == "deno"@ {
        Some(Tool::Deno)
    } else if n == "bun"@ || n == "bunx"@ {
        Some(Tool::Bun)
    } else if n == "ruby"@ || n == "rb"@ {
        Some(Tool::Ruby)
    } else if n == "java"@ || n == "jdk"@ {
        Some(Tool::Java)
    } else if n == "rust"@ || n == "rustc"@ || n == "cargo"@ {
        Some(Tool::Rust)
    } else {
        None
    }
}

/// The canonical name of a built-in tool.
pub open spec fn tool_name(t: Tool) -> Seq<char> {
    match t {
        Tool::Node => "node"@,
        Tool::Python => "python"@,
        Tool::Go => "go"@,
        Tool::Deno => "deno"@,
        Tool::Bun => "bun"@,
        Tool::Ruby => "ruby"@,
        Tool::Java => "java"@,
        Tool::Rust => "rust"@,
    }
}

impl Tool {
    /// The built-in tool a name or alias denotes.
    pub fn from_name(name: &str) -> (r: Option<Tool>)
        ensures
            r == tool_of_name(name@),
    {
        if str_eq(name, "node") || str_eq(name, "nodejs") {
            Some(Tool::Node)
        } else if str_eq(name, "python") || str_eq(name, "python3") {
            Some(Tool::Python)
        } else if str_eq(name, "go") || str_eq(name, "golang") {
            Some(Tool::Go)
        } else if str_eq(name, "deno") {
            Some(Tool::Deno)
        } else if str_eq(name, "bun") || str_eq(name, "bunx") {
            Some(Tool::Bun)
        } else if str_eq(name, "ruby") || str_eq(name, "rb") {
            Some(Tool::Ruby)
        } else if str_eq(name, "java") || str_eq(name, "jdk") {
            Some(Tool::Java)
        } else if str_eq(name, "rust") || str_eq(name, "rustc") || str_eq(name, "cargo") {
            Some(Tool::Rust)
        } else {
            None
        }
    }

    /// The canonical name.
    pub fn name(&self) -> (r: &'static str)
        ensures
            r@ == tool_name(*self),
    {
        match self {
            Tool::Node => "node",
            Tool::Python => "python",
            Tool::Go => "go",
            Tool::Deno => "deno",
            Tool::Bun => "bun",
            Tool::Ruby => "ruby",
            Tool::Java => "java",
            Tool::Rust => "rust",
        }
    }
}

/// A GitHub release, of which only the tag matters.
#[derive(Debug, Clone)]
pub struct SimpleGitHubRelease {
    pub tag_name: String,
}

/// The stable versions among `s`, each once, in order of first occurrence.
pub open spec fn stable_unique(s: Seq<Option<VersionView>>) -> Seq<VersionView>
    decreases s.len(),
{
    if s.len() == 0 {
        Seq::empty()
    } else {
        let prev = stable_unique(s.drop_last());
        match s.last() {
            Some(v) => if v.3.len() == 0 && !prev.contains(v) {
                prev.push(v)
            } else {
                prev
            },
            None => prev,
        }
    }
}

/// The views of optional versions.
pub open spec fn opt_views(s: Seq<Option<Version>>) -> Seq<Option<VersionView>> {
    s.map_values(|o: Option<Version>| match o {
        Some(v) => Some(v@),
        None => None,
    })
}

/// The stable versions kept are exactly the stable versions present: each
/// kept version is stable and present, none is kept twice, and every
/// present stable version is kept.
pub proof fn lemma_stable_unique(s: Seq<Option<VersionView>>)
    ensures
        forall|i: int| 0 <= i < stable_unique(s).len() ==> (#[trigger] stable_unique(s)[i]).3.len() == 0
            && s.contains(Some(stable_unique(s)[i])),
        forall|i: int, j: int| 0 <= i < j < stable_unique(s).len() ==> #[trigger] stable_unique(s)[i] != #[trigger] stable_unique(s)[j],
        forall|v: VersionView| v.3.len() == 0 && #[trigger] s.contains(Some(v)) ==> stable_unique(s).contains(v),
    decreases s.len(),
{
    if s.len() > 0 {
        let p = s.drop_last();
        lemma_stable_unique(p);
        let q = stable_unique(p);
        let r = stable_unique(s);
        assert forall|i: int| 0 <= i < r.len() implies (#[trigger] r[i]).3.len() == 0 && s.contains(Some(r[i])) by {
            if i < q.len() {
                assert(r[i] == q[i]);
                let k = choose|k: int| 0 <= k < p.len() && p[k] == Some(q[i]);
                assert(s[k] == p[k]);
            } else {
                assert(s[s.len() - 1] == Some(r[i]));
            }
        }
        assert forall|i: int, j: int| 0 <= i < j < r.len() implies #[trigger] r[i] != #[trigger] r[j] by {
            if j < q.len() {
                assert(r[i] == q[i] && r[j] == q[j]);
            } else {
                assert(r[i] == q[i]);
                assert(q.contains(q[i]));
            }
        }
        assert forall|v: VersionView| v.3.len() == 0 && #[trigger] s.contains(Some(v)) implies r.contains(v) by {
            let k = choose|k: int| 0 <= k < s.len() && s[k] == Some(v);
            if k < p.len() {
                assert(p[k] == Some(v));
                assert(p.contains(Some(v)));
                assert(q.contains(v));
                let j = choose|j: int| 0 <= j < q.len() && q[j] == v;
                assert(r[j] == v);
            } else if q.contains(v) {
                let j = choose|j: int| 0 <= j < q.len() && q[j] == v;
                assert(r[j] == v);
            } else {
                assert(r[r.len() - 1] == v);
            }
        }
    }
}

/// Keeps the stable versions, dropping absent entries and repeats.
pub fn collect_stable_versions(versions: Vec<Option<Version>>) -> (r: Vec<Version>)
    ensures
        views(r@) == stable_unique(opt_views(versions@)),
{
    let ghost input = opt_views(versions@);
    let mut result: Vec<Version> = Vec::new();
    let mut i: usize = 0;
    while i < versions.len()
        invariant
            i <= versions.len(),
            input == opt_views(versions@),
            views(result@) == stable_unique(input.subrange(0, i as int)),
        decreases versions.len() - i,
    {
        let ghost q = input.subrange(0, i + 1);
        assert(q.drop_last() =~= input.subrange(0, i as int));
        match &versions[i] {
            Some(v) => {
                if v.is_stable() {
                    let mut seen = false;
                    let mut j: usize = 0;
                    while j < result.len()
                        invariant
                            j <= result.len(),
                            !seen ==> forall|k: int| 0 <= k < j ==> result@[k]@ != v@,
                            seen ==> views(result@).contains(v@),
                        decreases result.len() - j,
                    {
                        if result[j].same_as(v) {
                            seen = true;
                            assert(views(result@)[j as int] == v@);
                        }
                        j = j + 1;
                    }
                    if !seen {
                        assert(!views(result@).contains(v@)) by {
                            if views(result@).contains(v@) {
                                let k = choose|k: int| 0 <= k < views(result@).len() && views(result@)[k] == v@;
                                assert(result@[k]@ == v@);
                            }
                        }
                        let ghost prev = result@;
                        result.push(v.duplicate());
                        assert(views(result@) =~= views(prev).push(v@));
                    }
                }
            },
            None => {},
        }
        i = i + 1;
    }
    assert(input.subrange(0, i as int) =~= input);
    result
}


/// Resolves a specifier against candidates: the highest match, or
/// `VersionNotFound` naming the tool and the specifier.
pub fn resolve_from_candidates(candidates: &Vec<Version>, spec: &VersionSpec, tool: &str) -> (r: Result<Version, ProviderError>)
    ensures
        match r {
            Ok(v) => {
                let i = best_index(spec@, views(candidates@));
                0 <= i < candidates@.len() && v@ == candidates@[i]@
            },
            Err(e) => best_index(spec@, views(candidates@)) == -1 && (e matches ProviderError::VersionNotFound { tool: t, spec: s }
                && t@ == tool@ && s@ == spec_text(spec@)),
        },
{
    match spec.resolve(candidates.as_slice()) {
        Some(v) => Ok(v.duplicate()),
        None => {
            let t = string_of(&chars_of(tool));
            Err(ProviderError::VersionNotFound { tool: t, spec: spec.to_string() })
        },
    }
}

/// The message of a failed resolution.
pub fn resolution_failed(tool: &str, reason: Vec<char>) -> (r: ProviderError)
    ensures
        r matches ProviderError::ResolutionFailed { tool: t, reason: m } && t@ == tool@ && m@ == reason@,
{
    ProviderError::ResolutionFailed { tool: string_of(&chars_of(tool)), reason: string_of(&reason) }
}

/// A release tag read as a version: the text after `prefix`, parsed with
/// `semver`; absent when the tag lacks the prefix or does not parse.
pub open spec fn tag_version(tag: Seq<char>, prefix: Seq<char>) -> Option<VersionView> {
    if starts_with(tag, prefix) {
        semver_parse_result(tag.subrange(prefix.len() as int, tag.len() as int))
    } else {
        None
    }
}

/// Reads a release tag like `v1.40.5` (prefix `v`) as a version.
pub fn parse_tag(tag: &str, prefix: &str) -> (r: Option<Version>)
    ensures
        crate::version::opt_view(r) == tag_version(tag@, prefix@),
{
    let t = chars_of(tag);
    let p = chars_of(prefix);
    if !has_prefix(&t, &p) {
        return None;
    }
    let rest = crate::text::slice_chars(&t, p.len(), t.len());
    let rs = string_of(&rest);
    Version::parse(rs.as_str())
}

/// The tags' versions, stable and unique.
pub open spec fn github_versions(tags: Seq<Seq<char>>, prefix: Seq<char>) -> Seq<VersionView> {
    stable_unique(tags.map_values(|t: Seq<char>| tag_version(t, prefix)))
}

/// The tag texts of releases.
pub open spec fn release_tags(r: Seq<SimpleGitHubRelease>) -> Seq<Seq<char>> {
    r.map_values(|x: SimpleGitHubRelease| x.tag_name@)
}

/// Reads decoded GitHub releases: each tag `prefix + version` gives a
/// version; the stable ones, each once, are the result. A decoding error
/// (its text given) or no stable version is a resolution failure.
pub fn parse_github_releases(decoded: Result<Vec<SimpleGitHubRelease>, String>, tool: &str, prefix: &str) -> (r: Result<Vec<Version>, ProviderError>)
    ensures
        match decoded {
            Err(e) => r matches Err(ProviderError::ResolutionFailed { tool: t, reason: m })
                && t@ == tool@ && m@ == "failed to parse releases: "@ + e@,
            Ok(rel) => {
                let vs = github_versions(release_tags(rel@), prefix@);
                if vs.len() == 0 {
                    r matches Err(ProviderError::ResolutionFailed { tool: t, reason: m })
                        && t@ == tool@ && m@ == "no stable versions found in releases"@
                } else {
                    r matches Ok(v) && views(v@) == vs
                }
            },
        },
{
    match decoded {
        Err(e) => {
            let mut m: Vec<char> = Vec::new();
            push_str(&mut m, "failed to parse releases: ");
            push_str(&mut m, e.as_str());
            Err(resolution_failed(tool, m))
        },
        Ok(releases) => {
            let mut parsed: Vec<Option<Version>> = Vec::new();
            let mut i: usize = 0;
            while i < releases.len()
                invariant
                    i <= releases.len(),
                    opt_views(parsed@) =~= release_tags(releases@).map_values(|t: Seq<char>| tag_version(t, prefix@)).subrange(0, i as int),
                decreases releases.len() - i,
            {
                let v = parse_tag(releases[i].tag_name.as_str(), prefix);
                let ghost prev = parsed@;
                parsed.push(v);
                assert(opt_views(parsed@) =~= opt_views(prev).push(tag_version(release_tags(releases@)[i as int], prefix@)));
                i = i + 1;
            }
            assert(opt_views(parsed@) =~= release_tags(releases@).map_values(|t: Seq<char>| tag_version(t, prefix@)));
            let versions = collect_stable_versions(parsed);
            if versions.len() == 0 {
                let mut m: Vec<char> = Vec::new();
                push_str(&mut m, "no stable versions found in releases");
                Err(resolution_failed(tool, m))
            } else {
                Ok(versions)
            }
        },
    }
}

/// Whether an HTTP status is worth retrying: 429, 500, 502, 503 or 504.
pub open spec fn transient_status(code: u16) -> bool {
    code == 429 || code == 500 || code == 502 || code == 503 || code == 504
}

/// Whether an HTTP status is worth retrying.
pub fn is_transient_status(code: u16) -> (r: bool)
    ensures
        r == transient_status(code),
{
    code == 429 || code == 500 || code == 502 || code == 503 || code == 504
}

/// Exponential backoff in seconds for an attempt: `2^(attempt-1)`, with
/// the exponent capped at 6.
pub open spec fn backoff_secs(attempt: u32) -> u64 {
    let e = if attempt == 0 { 0 } else if attempt - 1 > 6 { 6 } else { (attempt - 1) as nat };
    if e == 0 { 1 } else if e == 1 { 2 } else if e == 2 { 4 } else if e == 3 { 8 } else if e == 4 { 16 } else if e == 5 { 32 } else { 64 }
}

/// The backoff delay in seconds for an attempt.
pub fn backoff_delay(attempt: u32) -> (r: u64)
    requires
        attempt >= 1,
    ensures
        r == backoff_secs(attempt),
{
    let e: u32 = if attempt - 1 > 6 { 6 } else { attempt - 1 };
    if e == 0 { 1 } else if e == 1 { 2 } else if e == 2 { 4 } else if e == 3 { 8 } else if e == 4 { 16 } else if e == 5 { 32 } else { 64 }
}

/// The backoff starts at one second and doubles with each attempt until it
/// reaches 64 seconds, where it stays.
pub proof fn lemma_backoff_doubles(attempt: u32)
    ensures
        backoff_secs(1) == 1,
        1 <= attempt < 7 ==> backoff_secs((attempt + 1) as u32) == 2 * backoff_secs(attempt),
        attempt >= 7 ==> backoff_secs(attempt) == 64,
{
}

/// The delay before retrying after a transient HTTP status: for 429 a
/// `Retry-After` header holding a whole number of seconds is honoured;
/// otherwise exponential backoff.
pub open spec fn retry_secs(status: u16, retry_after: Option<Seq<char>>, attempt: u32) -> u64 {
    match retry_after {
        Some(h) if status == 429 && crate::text::parse_u64_spec(h) is Some => crate::text::parse_u64_spec(h)->0,
        _ => backoff_secs(attempt),
    }
}

/// The delay before retrying after a transient HTTP status.
pub fn retry_delay(status: u16, retry_after: Option<&str>, attempt: u32) -> (r: u64)
    requires
        attempt >= 1,
    ensures
        r == retry_secs(status, match retry_after { Some(h) => Some(h@), None => None }, attempt),
{
    if status == 429 {
        match retry_after {
            Some(h) => {
                let hc = chars_of(h);
                match crate::text::parse_u64(&hc) {
                    Some(secs) => return secs,
                    None => {},
                }
            },
            None => {},
        }
    }
    backoff_delay(attempt)
}

/// What one upstream request attempt produced.
#[derive(Debug, Clone)]
pub enum FetchOutcome {
    /// A success status with this body.
    Body(String),
    /// A non-success status: its code, its display text (e.g.
    /// `404 Not Found`) and the `Retry-After` header if any.
    Status { code: u16, text: String, retry_after: Option<String> },
    /// The request failed before a status arrived (its error text).
    Failed(String),
}

/// What to do after an attempt.
#[derive(Debug, Clone)]
pub enum FetchStep {
    /// Return this body.
    Done(String),
    /// Sleep this many seconds, then make the next attempt; the reason
    /// names what went wrong.
    Retry { delay_secs: u64, reason: String },
    /// Give up with this resolution failure.
    Fail(ProviderError),
}

/// The retry policy of upstream requests: a body ends the fetch; a
/// transient status or a request error is retried (after `retry_secs` or
/// the backoff: 1, 2, then 4 seconds) unless `MAX_RETRIES` retries have
/// already been made, that is, unless this was attempt `MAX_RETRIES + 1`;
/// any other status fails at once. `url` and `tool` name the request.
pub fn fetch_step(outcome: FetchOutcome, attempt: u32, url: &str, tool: &str) -> (r: FetchStep)
    requires
        1 <= attempt <= MAX_RETRIES + 1,
    ensures
        match outcome {
            FetchOutcome::Body(b) => r matches FetchStep::Done(x) && x@ == b@,
            FetchOutcome::Status { code, text, retry_after } => if transient_status(code) && attempt <= MAX_RETRIES {
                r matches FetchStep::Retry { delay_secs, reason } && delay_secs == retry_secs(code, match retry_after { Some(h) => Some(h@), None => None }, attempt)
                    && reason@ == "HTTP "@ + text@ + " from "@ + url@
            } else {
                r matches FetchStep::Fail(ProviderError::ResolutionFailed { tool: t, reason: m }) && t@ == tool@
                    && m@ == "HTTP "@ + text@ + " from "@ + url@
            },
            FetchOutcome::Failed(e) => if attempt <= MAX_RETRIES {
                r matches FetchStep::Retry { delay_secs, reason } && delay_secs == backoff_secs(attempt) && reason@ == e@
            } else {
                r matches FetchStep::Fail(ProviderError::ResolutionFailed { tool: t, reason: m }) && t@ == tool@ && m@ == e@
            },
        },
{
    match outcome {
        FetchOutcome::Body(b) => FetchStep::Done(b),
        FetchOutcome::Status { code, text, retry_after } => {
            let mut m: Vec<char> = Vec::new();
            push_str(&mut m, "HTTP ");
            push_str(&mut m, text.as_str());
            push_str(&mut m, " from ");
            push_str(&mut m, url);
            if is_transient_status(code) && attempt <= MAX_RETRIES {
                let delay = match &retry_after {
                    Some(h) => retry_delay(code, Some(h.as_str()), attempt),
                    None => retry_delay(code, None, attempt),
                };
                FetchStep::Retry { delay_secs: delay, reason: string_of(&m) }
            } else {
                FetchStep::Fail(resolution_failed(tool, m))
            }
        },
        FetchOutcome::Failed(e) => {
            if attempt <= MAX_RETRIES {
                FetchStep::Retry { delay_secs: backoff_delay(attempt), reason: e }
            } else {
                FetchStep::Fail(resolution_failed(tool, chars_of(e.as_str())))
            }
        },
    }
}


/// The bodies of upstream requests fetched in this process, by URL: a URL
/// fetched once is answered from here and not requested again.
#[derive(Debug)]
pub struct ResponseCache {
    bodies: EnvVars,
}

impl ResponseCache {
    #[verifier::type_invariant]
    spec fn inv(&self) -> bool {
        self.bodies.wf()
    }
}

impl View for ResponseCache {
    type V = Map<Seq<char>, Seq<char>>;

    closed spec fn view(&self) -> Map<Seq<char>, Seq<char>> {
        self.bodies@
    }
}

impl ResponseCache {
    /// An empty cache.
    pub fn new() -> (r: ResponseCache)
        ensures
            r@ == Map::<Seq<char>, Seq<char>>::empty(),
    {
        ResponseCache { bodies: EnvVars::new() }
    }

    /// The body fetched for a URL, if it was fetched before.
    pub fn get(&self, url: &str) -> (r: Option<String>)
        ensures
            match r {
                Some(b) => self@.contains_key(url@) && self@[url@] == b@,
                None => !self@.contains_key(url@),
            },
    {
        proof {
            use_type_invariant(self);
        }
        match self.bodies.get(url) {
            Some(b) => Some(b.clone()),
            None => None,
        }
    }

    /// Keeps the body fetched for a URL.
    pub fn insert(&mut self, url: &str, body: String)
        ensures
            final(self)@ == old(self)@.insert(url@, body@),
    {
        proof {
            use_type_invariant(&*self);
        }
        let mut b = EnvVars::new();
        std::mem::swap(&mut b, &mut self.bodies);
        b.insert(owned(url), body);
        std::mem::swap(&mut b, &mut self.bodies);
    }
}

/// `a` joined with the path `b`, as `Path::join` does on Unix: an
/// absolute `b` replaces `a`.
pub open spec fn path_join(a: Seq<char>, b: Seq<char>) -> Seq<char> {
    if b.len() > 0 && b[0] == '/' {
        b
    } else if a.len() == 0 {
        b
    } else if a.last() == '/' {
        a + b
    } else {
        a + "/"@ + b
    }
}

/// Joins a directory and a path (an absolute path replaces the directory).
pub fn join_path(a: &str, b: &str) -> (r: String)
    ensures
        r@ == path_join(a@, b@),
{
    proof {
        reveal_strlit("/");
    }
    let bc = chars_of(b);
    if bc.len() > 0 && bc[0] == '/' {
        return string_of(&bc);
    }
    let mut m = chars_of(a);
    if m.len() > 0 && m[m.len() - 1] != '/' {
        m.push('/');
    }
    push_str(&mut m, b);
    assert(m@ =~= path_join(a@, b@));
    string_of(&m)
}

/// A string with the given text.
pub fn owned(s: &str) -> (r: String)
    ensures
        r@ == s@,
{
    string_of(&chars_of(s))
}

/// Variables with one entry.
pub fn single_var(key: &str, value: String) -> (r: EnvVars)
    ensures
        r.wf(),
        r@ == map![key@ => value@],
{
    let mut v = EnvVars::new();
    v.insert(owned(key), value);
    assert(v@ =~= map![key@ => value@]);
    v
}

/// What every tool provider offers: its name, the archive format of its
/// downloads, the directories to put on
/// `PATH` (relative to the install directory), its environment variables,
/// the variables that need a fresh temporary directory, and an optional
/// command to run after extraction.
pub trait Provider {
    fn name(&self) -> &str;

    fn archive_format(&self, target: &Target) -> ArchiveFormat;

    fn bin_paths(&self, version: &Version, target: &Target) -> Vec<String>;

    fn env_vars(&self, install_dir: &str) -> (r: EnvVars)
        ensures
            r.wf(),
    ;

    fn temp_env_dirs(&self) -> (r: Vec<&'static str>)
        default_ensures
            r@.len() == 0,
    {
        Vec::new()
    }

    fn post_install_command(&self, version: &Version, target: &Target, install_dir: &str) -> (r: Option<String>)
        default_ensures
            r is None,
    {
        None
    }
}

/// Whether strings hold exactly the given texts, in order.
pub open spec fn texts_are(v: Seq<String>, s: Seq<Seq<char>>) -> bool {
    &&& v.len() == s.len()
    &&& forall|i: int| 0 <= i < s.len() ==> #[trigger] v[i]@ == s[i]
}

/// Whether static names are exactly the given texts, in order.
pub open spec fn names_are(v: Seq<&'static str>, s: Seq<Seq<char>>) -> bool {
    &&& v.len() == s.len()
    &&& forall|i: int| 0 <= i < s.len() ==> #[trigger] v[i]@ == s[i]
}

/// The archive format of a built-in tool's downloads.
pub open spec fn builtin_archive_format(t: Tool, target: Target) -> ArchiveFormat {
    match t {
        Tool::Node | Tool::Go | Tool::Java => crate::platform::platform_archive_format(target.platform),
        Tool::Deno | Tool::Bun => ArchiveFormat::Zip,
        Tool::Python | Tool::Ruby | Tool::Rust => ArchiveFormat::TarGz,
    }
}

/// The directories, relative to the install directory, that a built-in
/// tool puts on `PATH`.
pub open spec fn builtin_bin_paths(t: Tool, v: VersionView, target: Target) -> Seq<Seq<char>> {
    match t {
        Tool::Node => match target.platform {
            crate::platform::Platform::Windows => seq![node::node_dir_name(v, target)],
            _ => seq![path_join(node::node_dir_name(v, target), "bin"@)],
        },
        Tool::Bun => match bun::bun_target_name(target) {
            Some(n) => seq!["bun-"@ + n],
            None => seq!["bun"@],
        },
        Tool::Deno => seq!["."@],
        Tool::Go => seq![path_join("go"@, "bin"@)],
        Tool::Java => match target.platform {
            crate::platform::Platform::MacOS => seq!["jdk-"@ + crate::version::version_text(v) + "/Contents/Home/bin"@],
            _ => seq!["jdk-"@ + crate::version::version_text(v) + "/bin"@],
        },
        Tool::Python => match target.platform {
            crate::platform::Platform::Windows => seq!["python"@, path_join("python"@, "Scripts"@)],
            _ => seq![path_join("python"@, "bin"@)],
        },
        Tool::Ruby => seq![path_join(
            match target.arch {
                crate::platform::Arch::Aarch64 => "arm64"@,
                crate::platform::Arch::X86_64 => "x64"@,
            },
            "bin"@,
        )],
        Tool::Rust => seq!["bin"@],
    }
}

/// The environment variables a built-in tool sets for an install directory.
pub open spec fn builtin_env_vars(t: Tool, dir: Seq<char>) -> Map<Seq<char>, Seq<char>> {
    match t {
        Tool::Node => map!["NODE_HOME"@ => dir],
        Tool::Bun => map!["BUN_INSTALL"@ => dir],
        Tool::Go => map!["GOROOT"@ => path_join(dir, "go"@)],
        Tool::Java => map!["JAVA_HOME"@ => dir],
        Tool::Python => map!["PYTHONHOME"@ => path_join(dir, "python"@)],
        Tool::Ruby => map![
            "LD_LIBRARY_PATH"@ => ruby::ruby_lib_path(dir),
            "DYLD_FALLBACK_LIBRARY_PATH"@ => ruby::ruby_lib_path(dir),
        ],
        Tool::Deno | Tool::Rust => Map::empty(),
    }
}

/// The variables that a built-in tool needs pointed at a fresh temporary
/// directory.
pub open spec fn builtin_temp_dirs(t: Tool) -> Seq<Seq<char>> {
    match t {
        Tool::Deno => seq!["DENO_DIR"@],
        Tool::Ruby => seq!["GEM_HOME"@, "GEM_PATH"@],
        Tool::Rust => seq!["CARGO_HOME"@],
        _ => Seq::empty(),
    }
}

/// The command a built-in tool runs after extraction, if any.
pub open spec fn builtin_post_install(t: Tool, v: VersionView, target: Target, dir: Seq<char>) -> Option<Seq<char>> {
    match t {
        Tool::Rust => Some(rust::rust_install_command(v, target, dir)),
        _ => None,
    }
}


/// A provider found by name: a built-in tool's, or an installed plugin's.
#[derive(Debug)]
pub enum AnyProvider {
    Builtin(Tool),
    Plugin(crate::plugin::PluginProvider),
}

/// The provider a tool name denotes: a built-in tool by its name or an
/// alias; else the first installed plugin that answers to it; else
/// `UnknownTool` naming it.
pub fn get_provider(name: &str, plugins: Vec<crate::plugin::PluginManifest>) -> (r: Result<AnyProvider, ProviderError>)
    ensures
        match tool_of_name(name@) {
            Some(t) => r matches Ok(AnyProvider::Builtin(x)) && x == t,
            None => {
                let i = crate::plugin::plugin_index(plugins@, name@);
                if i == -1 {
                    r matches Err(ProviderError::UnknownTool { name: n }) && n@ == name@
                } else {
                    &&& 0 <= i < plugins@.len()
                    &&& r matches Ok(AnyProvider::Plugin(p)) && p.manifest == plugins@[i]
                }
            },
        },
{
    match Tool::from_name(name) {
        Some(t) => Ok(AnyProvider::Builtin(t)),
        None => match crate::plugin::get_plugin_provider(plugins, name) {
            Some(p) => Ok(AnyProvider::Plugin(p)),
            None => Err(ProviderError::UnknownTool { name: owned(name) }),
        },
    }
}

/// The directories, relative to the install directory, that a provider
/// puts on `PATH`.
pub open spec fn provider_bin_paths(p: AnyProvider, v: VersionView, target: Target) -> Seq<Seq<char>> {
    match p {
        AnyProvider::Builtin(t) => builtin_bin_paths(t, v, target),
        AnyProvider::Plugin(q) => seq![crate::plugin::expand_template(q.manifest.bin_path@, v, target)],
    }
}

/// The environment variables a provider sets for an install directory.
pub open spec fn provider_env(p: AnyProvider, dir: Seq<char>) -> Map<Seq<char>, Seq<char>> {
    match p {
        AnyProvider::Builtin(t) => builtin_env_vars(t, dir),
        AnyProvider::Plugin(_) => Map::empty(),
    }
}

/// The variables a provider needs pointed at fresh temporary directories.
pub open spec fn provider_temp_dirs(p: AnyProvider) -> Seq<Seq<char>> {
    match p {
        AnyProvider::Builtin(t) => builtin_temp_dirs(t),
        AnyProvider::Plugin(_) => Seq::empty(),
    }
}

impl Provider for AnyProvider {
    fn name(&self) -> (r: &str)
        ensures
            match self {
                AnyProvider::Builtin(t) => r@ == tool_name(*t),
                AnyProvider::Plugin(p) => r@ == p.manifest.name@,
            },
    {
        match self {
            AnyProvider::Builtin(t) => t.name(),
            AnyProvider::Plugin(p) => p.name(),
        }
    }

    fn archive_format(&self, target: &Target) -> (r: ArchiveFormat)
        ensures
            match self {
                AnyProvider::Builtin(t) => r == builtin_archive_format(*t, *target),
                AnyProvider::Plugin(p) => r == crate::plugin::manifest_archive_format(p.manifest.archive_format@),
            },
    {
        match self {
            AnyProvider::Builtin(Tool::Node) => NodeProvider.archive_format(target),
            AnyProvider::Builtin(Tool::Python) => PythonProvider.archive_format(target),
            AnyProvider::Builtin(Tool::Go) => GoProvider.archive_format(target),
            AnyProvider::Builtin(Tool::Deno) => DenoProvider.archive_format(target),
            AnyProvider::Builtin(Tool::Bun) => BunProvider.archive_format(target),
            AnyProvider::Builtin(Tool::Ruby) => RubyProvider.archive_format(target),
            AnyProvider::Builtin(Tool::Java) => JavaProvider.archive_format(target),
            AnyProvider::Builtin(Tool::Rust) => RustProvider.archive_format(target),
            AnyProvider::Plugin(p) => p.archive_format(target),
        }
    }

    fn bin_paths(&self, version: &Version, target: &Target) -> (r: Vec<String>)
        ensures
            texts_are(r@, provider_bin_paths(*self, version@, *target)),
    {
        match self {
            AnyProvider::Builtin(Tool::Node) => NodeProvider.bin_paths(version, target),
            AnyProvider::Builtin(Tool::Python) => PythonProvider.bin_paths(version, target),
            AnyProvider::Builtin(Tool::Go) => GoProvider.bin_paths(version, target),
            AnyProvider::Builtin(Tool::Deno) => DenoProvider.bin_paths(version, target),
            AnyProvider::Builtin(Tool::Bun) => BunProvider.bin_paths(version, target),
            AnyProvider::Builtin(Tool::Ruby) => RubyProvider.bin_paths(version, target),
            AnyProvider::Builtin(Tool::Java) => JavaProvider.bin_paths(version, target),
            AnyProvider::Builtin(Tool::Rust) => RustProvider.bin_paths(version, target),
            AnyProvider::Plugin(p) => p.bin_paths(version, target),
        }
    }

    fn env_vars(&self, install_dir: &str) -> (r: EnvVars)
        ensures
            r.wf(),
            r@ == provider_env(*self, install_dir@),
    {
        match self {
            AnyProvider::Builtin(Tool::Node) => NodeProvider.env_vars(install_dir),
            AnyProvider::Builtin(Tool::Python) => PythonProvider.env_vars(install_dir),
            AnyProvider::Builtin(Tool::Go) => GoProvider.env_vars(install_dir),
            AnyProvider::Builtin(Tool::Deno) => DenoProvider.env_vars(install_dir),
            AnyProvider::Builtin(Tool::Bun) => BunProvider.env_vars(install_dir),
            AnyProvider::Builtin(Tool::Ruby) => RubyProvider.env_vars(install_dir),
            AnyProvider::Builtin(Tool::Java) => JavaProvider.env_vars(install_dir),
            AnyProvider::Builtin(Tool::Rust) => RustProvider.env_vars(install_dir),
            AnyProvider::Plugin(p) => p.env_vars(install_dir),
        }
    }

    fn temp_env_dirs(&self) -> (r: Vec<&'static str>)
        ensures
            names_are(r@, provider_temp_dirs(*self)),
    {
        match self {
            AnyProvider::Builtin(Tool::Node) => NodeProvider.temp_env_dirs(),
            AnyProvider::Builtin(Tool::Python) => PythonProvider.temp_env_dirs(),
            AnyProvider::Builtin(Tool::Go) => GoProvider.temp_env_dirs(),
            AnyProvider::Builtin(Tool::Deno) => DenoProvider.temp_env_dirs(),
            AnyProvider::Builtin(Tool::Bun) => BunProvider.temp_env_dirs(),
            AnyProvider::Builtin(Tool::Ruby) => RubyProvider.temp_env_dirs(),
            AnyProvider::Builtin(Tool::Java) => JavaProvider.temp_env_dirs(),
            AnyProvider::Builtin(Tool::Rust) => RustProvider.temp_env_dirs(),
            AnyProvider::Plugin(p) => p.temp_env_dirs(),
        }
    }

    fn post_install_command(&self, version: &Version, target: &Target, install_dir: &str) -> (r: Option<String>)
        ensures
            match self {
                AnyProvider::Builtin(t) => match builtin_post_install(*t, version@, *target, install_dir@) {
                    None => r is None,
                    Some(c) => r matches Some(x) && x@ == c,
                },
                AnyProvider::Plugin(p) => match p.manifest.post_install {
                    None => r is None,
                    Some(c) => r matches Some(x) && x@ == crate::plugin::expand_template_with_dir(
                        c@, version@, *target, install_dir@,
                    ),
                },
            },
    {
        match self {
            AnyProvider::Builtin(Tool::Node) => NodeProvider.post_install_command(version, target, install_dir),
            AnyProvider::Builtin(Tool::Python) => PythonProvider.post_install_command(version, target, install_dir),
            AnyProvider::Builtin(Tool::Go) => GoProvider.post_install_command(version, target, install_dir),
            AnyProvider::Builtin(Tool::Deno) => DenoProvider.post_install_command(version, target, install_dir),
            AnyProvider::Builtin(Tool::Bun) => BunProvider.post_install_command(version, target, install_dir),
            AnyProvider::Builtin(Tool::Ruby) => RubyProvider.post_install_command(version, target, install_dir),
            AnyProvider::Builtin(Tool::Java) => JavaProvider.post_install_command(version, target, install_dir),
            AnyProvider::Builtin(Tool::Rust) => RustProvider.post_install_command(version, target, install_dir),
            AnyProvider::Plugin(p) => p.post_install_command(version, target, install_dir),
        }
    }
}
} // verus!

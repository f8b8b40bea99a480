//! What `runx clean` removes and what it tells the user.

use vstd::prelude::*;

use crate::cache::CachedTool;
use crate::cli::{HumanDuration, ToolSpec};
use crate::list::{format_size, size_text};
use crate::provider::{ProviderError, owned};
use crate::version::{
    SpecModel, Version, VersionSpec, semver_parse_result, spec_matches, spec_parse
};
use crate::text::{
    chars_eq_ignore_ascii_case, chars_of, decimal, eq_ignore_ascii_case, push_decimal, push_str,
    string_of, texts_of, trim, trim_chars,
};

verus! {

/// What a clean removes.
#[derive(Debug, Clone)]
pub enum CleanPlan {
    /// The cached versions at least `days` old, of one tool when named.
    OlderThan { days: u64, tool: Option<String> },
    /// The cached versions of a tool: those matching the specifier when
    /// one is given (`java@21` removes only Java 21.x), else all.
    Tool { name: String, versions: Option<VersionSpec> },
    /// Everything in the cache.
    All,
}

/// Decides what `runx clean` removes: by age when a duration is given
/// (limited to the tool when one is named), else the named tool's cached
/// versions (those its version specifier matches, when it has one), else
/// everything. A version that is no valid specifier is refused.
pub fn run(tool: Option<ToolSpec>, older_than: Option<HumanDuration>) -> (r: Result<CleanPlan, ProviderError>)
    ensures
        match older_than {
            Some(d) => r matches Ok(CleanPlan::OlderThan { days, tool: t }) && days == d.days
                && crate::cli::opt_str(t) == (match tool { Some(s) => Some(s.name@), None => None }),
            None => match tool {
                Some(s) => match s.version {
                    None => r matches Ok(CleanPlan::Tool { name, versions }) && name@ == s.name@ && versions is None,
                    Some(v) => match spec_parse(v@) {
                        Ok(m) => r matches Ok(CleanPlan::Tool { name, versions: Some(x) }) && name@ == s.name@ && x@ == m,
                        Err(e) => r matches Err(ProviderError::ResolutionFailed { tool: t, reason: x })
                            && t@ == s.name@ && x@ == e,
                    },
                },
                None => r matches Ok(CleanPlan::All),
            },
        },
{
    match older_than {
        Some(d) => Ok(CleanPlan::OlderThan {
            days: d.days,
            tool: match tool {
                Some(s) => Some(s.name),
                None => None,
            },
        }),
        None => match tool {
            Some(s) => {
                let versions = match &s.version {
                    None => None,
                    Some(_) => match s.version_spec() {
                        Ok(v) => Some(v),
                        Err(e) => return Err(e),
                    },
                };
                Ok(CleanPlan::Tool { name: s.name, versions })
            },
            None => Ok(CleanPlan::All),
        },
    }
}

/// The cached version texts a specifier selects: those that read as a
/// version matching it, in order.
pub open spec fn matching_versions(s: Seq<Seq<char>>, spec: SpecModel) -> Seq<Seq<char>>
    decreases s.len(),
{
    if s.len() == 0 {
        Seq::empty()
    } else {
        let prev = matching_versions(s.drop_last(), spec);
        match semver_parse_result(s.last()) {
            Some(v) if spec_matches(spec, v) => prev.push(s.last()),
            _ => prev,
        }
    }
}

/// Selects the cached versions of a tool that a specifier matches (see
/// [`matching_versions`]).
pub fn versions_to_remove(cached: &Vec<String>, spec: &VersionSpec) -> (r: Vec<String>)
    ensures
        texts_of(r@) == matching_versions(texts_of(cached@), spec@),
{
    let ghost all = texts_of(cached@);
    let mut r: Vec<String> = Vec::new();
    let mut i: usize = 0;
    while i < cached.len()
        invariant
            i <= cached.len(),
            all == texts_of(cached@),
            texts_of(r@) == matching_versions(all.subrange(0, i as int), spec@),
        decreases cached.len() - i,
    {
        assert(all.subrange(0, i + 1).drop_last() =~= all.subrange(0, i as int));
        match Version::parse(cached[i].as_str()) {
            Some(v) => {
                if spec.matches(&v) {
                    let ghost prev = r@;
                    r.push(owned(cached[i].as_str()));
                    assert(texts_of(r@) =~= texts_of(prev).push(all[i as int]));
                }
            },
            None => {},
        }
        i = i + 1;
    }
    assert(all.subrange(0, i as int) =~= all);
    r
}

/// `s` for a count other than one.
pub open spec fn plural(n: nat) -> Seq<char> {
    if n == 1 {
        Seq::empty()
    } else {
        "s"@
    }
}

/// `s` for a count other than one.
pub fn plural_suffix(n: u64) -> (r: &'static str)
    ensures
        r@ == plural(n as nat),
{
    proof {
        reveal_strlit("");
    }
    if n == 1 {
        ""
    } else {
        "s"
    }
}

/// The total size of cached tools.
pub open spec fn tools_size(s: Seq<CachedTool>) -> nat
    decreases s.len(),
{
    if s.len() == 0 {
        0
    } else {
        tools_size(s.drop_last()) + (s.last().size_bytes as nat)
    }
}

/// The number of cached versions of cached tools.
pub open spec fn tools_versions(s: Seq<CachedTool>) -> nat
    decreases s.len(),
{
    if s.len() == 0 {
        0
    } else {
        tools_versions(s.drop_last()) + s.last().versions@.len()
    }
}

/// The line announcing a clean of everything:
/// `Will remove N tool(s), M version(s) (SIZE)`.
pub open spec fn all_summary_text(s: Seq<CachedTool>) -> Seq<char> {
    "Will remove "@ + decimal(s.len()) + " tool"@ + plural(s.len()) + ", "@ + decimal(tools_versions(s))
        + " version"@ + plural(tools_versions(s)) + " ("@ + size_text(tools_size(s) as u64) + ")"@
}

/// Announces a clean of everything; none when the cache is empty. The
/// sizes and version counts must add up within `u64`, as the sums the
/// announcement shows.
pub fn all_summary(tools: &Vec<CachedTool>) -> (r: Option<String>)
    requires
        tools_size(tools@) <= u64::MAX,
        tools_versions(tools@) <= u64::MAX,
    ensures
        tools@.len() == 0 ==> r is None,
        tools@.len() > 0 ==> (r matches Some(m) && m@ == all_summary_text(tools@)),
{
    if tools.len() == 0 {
        return None;
    }
    let mut size: u64 = 0;
    let mut count: u64 = 0;
    let mut i: usize = 0;
    while i < tools.len()
        invariant
            i <= tools.len(),
            tools_size(tools@) <= u64::MAX,
            tools_versions(tools@) <= u64::MAX,
            size == tools_size(tools@.subrange(0, i as int)),
            count == tools_versions(tools@.subrange(0, i as int)),
        decreases tools.len() - i,
    {
        assert(tools@.subrange(0, i + 1).drop_last() =~= tools@.subrange(0, i as int));
        proof {
            lemma_sums_prefix(tools@, i + 1);
        }
        size = size + tools[i].size_bytes;
        count = count + tools[i].versions.len() as u64;
        i = i + 1;
    }
    assert(tools@.subrange(0, i as int) =~= tools@);
    let mut m: Vec<char> = Vec::new();
    push_str(&mut m, "Will remove ");
    push_decimal(&mut m, tools.len() as u64);
    push_str(&mut m, " tool");
    push_str(&mut m, plural_suffix(tools.len() as u64));
    push_str(&mut m, ", ");
    push_decimal(&mut m, count);
    push_str(&mut m, " version");
    push_str(&mut m, plural_suffix(count));
    push_str(&mut m, " (");
    push_str(&mut m, format_size(size).as_str());
    push_str(&mut m, ")");
    Some(string_of(&m))
}

/// Prefix sums are bounded by the whole sums.
proof fn lemma_sums_prefix(s: Seq<CachedTool>, k: int)
    requires
        0 <= k <= s.len(),
    ensures
        tools_size(s.subrange(0, k)) <= tools_size(s),
        tools_versions(s.subrange(0, k)) <= tools_versions(s),
    decreases s.len() - k,
{
    if k < s.len() {
        lemma_sums_prefix(s, k + 1);
        assert(s.subrange(0, k + 1).drop_last() =~= s.subrange(0, k));
    } else {
        assert(s.subrange(0, k) =~= s);
    }
}

/// The line announcing a clean of one tool:
/// `Will remove NAME (N version(s), SIZE)`.
pub open spec fn tool_summary_text(t: CachedTool) -> Seq<char> {
    "Will remove "@ + t.name@ + " ("@ + decimal(t.versions@.len()) + " version"@ + plural(t.versions@.len())
        + ", "@ + size_text(t.size_bytes) + ")"@
}

/// Announces a clean of one tool.
pub fn tool_summary(tool: &CachedTool) -> (r: String)
    ensures
        r@ == tool_summary_text(*tool),
{
    let mut m: Vec<char> = Vec::new();
    push_str(&mut m, "Will remove ");
    push_str(&mut m, tool.name.as_str());
    push_str(&mut m, " (");
    push_decimal(&mut m, tool.versions.len() as u64);
    push_str(&mut m, " version");
    push_str(&mut m, plural_suffix(tool.versions.len() as u64));
    push_str(&mut m, ", ");
    push_str(&mut m, format_size(tool.size_bytes).as_str());
    push_str(&mut m, ")");
    string_of(&m)
}

/// The line announcing a clean by age:
/// `Would remove` (dry run) or `Will remove`, then
/// `N item(s) older than Dd (SIZE):`.
pub open spec fn older_summary_text(dry_run: bool, count: nat, days: u64, total: u64) -> Seq<char> {
    (if dry_run { "Would remove "@ } else { "Will remove "@ }) + decimal(count) + " item"@ + plural(count)
        + " older than "@ + decimal(days as nat) + "d ("@ + size_text(total) + "):"@
}

/// Announces a clean by age.
pub fn older_summary(dry_run: bool, count: u64, days: u64, total: u64) -> (r: String)
    ensures
        r@ == older_summary_text(dry_run, count as nat, days, total),
{
    let mut m: Vec<char> = Vec::new();
    if dry_run {
        push_str(&mut m, "Would remove ");
    } else {
        push_str(&mut m, "Will remove ");
    }
    push_decimal(&mut m, count);
    push_str(&mut m, " item");
    push_str(&mut m, plural_suffix(count));
    push_str(&mut m, " older than ");
    push_decimal(&mut m, days);
    push_str(&mut m, "d (");
    push_str(&mut m, format_size(total).as_str());
    push_str(&mut m, "):");
    string_of(&m)
}

/// The position of the first cached tool with a name, or `-1`.
pub open spec fn cached_index(s: Seq<CachedTool>, name: Seq<char>) -> int
    decreases s.len(),
{
    if s.len() == 0 {
        -1
    } else {
        let prev = cached_index(s.drop_last(), name);
        if prev != -1 {
            prev
        } else if s.last().name@ == name {
            s.len() - 1
        } else {
            -1
        }
    }
}

proof fn lemma_cached_index_prefix(s: Seq<CachedTool>, name: Seq<char>, k: int)
    requires
        0 < k <= s.len(),
        cached_index(s.subrange(0, k), name) != -1,
    ensures
        cached_index(s, name) == cached_index(s.subrange(0, k), name),
    decreases s.len() - k,
{
    if k == s.len() {
        assert(s.subrange(0, k) =~= s);
    } else {
        assert(s.subrange(0, k + 1).drop_last() =~= s.subrange(0, k));
        lemma_cached_index_prefix(s, name, k + 1);
    }
}

/// Finds the cached tool with a name.
pub fn find_cached(tools: &Vec<CachedTool>, name: &str) -> (r: Option<usize>)
    ensures
        match r {
            Some(i) => i == cached_index(tools@, name@) && i < tools@.len(),
            None => cached_index(tools@, name@) == -1,
        },
{
    let mut i: usize = 0;
    while i < tools.len()
        invariant
            i <= tools.len(),
            cached_index(tools@.subrange(0, i as int), name@) == -1,
        decreases tools.len() - i,
    {
        assert(tools@.subrange(0, i + 1).drop_last() =~= tools@.subrange(0, i as int));
        if crate::text::str_eq(tools[i].name.as_str(), name) {
            proof {
                lemma_cached_index_prefix(tools@, name@, i + 1);
            }
            return Some(i);
        }
        i = i + 1;
    }
    assert(tools@.subrange(0, i as int) =~= tools@);
    None
}

/// Whether an answer to a confirmation prompt agrees: `y` in either case,
/// surrounding whitespace ignored.
pub open spec fn confirms(answer: Seq<char>) -> bool {
    eq_ignore_ascii_case(trim(answer), "y"@)
}

/// Reads an answer to a confirmation prompt (see [`confirms`]).
pub fn is_confirmation(answer: &str) -> (r: bool)
    ensures
        r == confirms(answer@),
{
    let t = trim_chars(&chars_of(answer));
    let y = chars_of("y");
    chars_eq_ignore_ascii_case(&t, &y)
}

/// What `runx clean` does once it has shown what it would remove.
#[derive(Debug, Clone, Copy, PartialEq, Eq, Structural)]
pub enum CleanStep {
    /// A dry run: show, remove nothing.
    Preview,
    /// Ask for confirmation first.
    Ask,
    /// Remove without asking (`--yes`).
    Proceed,
}

/// The next step of a clean: a dry run only shows; `--yes` removes without
/// asking; otherwise the user is asked.
pub open spec fn step_of(dry_run: bool, yes: bool) -> CleanStep {
    if dry_run {
        CleanStep::Preview
    } else if yes {
        CleanStep::Proceed
    } else {
        CleanStep::Ask
    }
}

/// The next step of a clean (see [`step_of`]).
pub fn clean_step(dry_run: bool, yes: bool) -> (r: CleanStep)
    ensures
        r == step_of(dry_run, yes),
{
    if dry_run {
        CleanStep::Preview
    } else if yes {
        CleanStep::Proceed
    } else {
        CleanStep::Ask
    }
}

/// Whether a clean removes anything: never in a dry run; with `--yes`
/// always; otherwise only when the answer to the prompt confirms.
pub open spec fn removal_allowed(dry_run: bool, yes: bool, answer: Option<Seq<char>>) -> bool {
    !dry_run && (yes || (answer matches Some(a) && confirms(a)))
}

/// Whether a clean removes anything, given the answer to the prompt if
/// one was asked (see [`removal_allowed`]).
pub fn may_remove(dry_run: bool, yes: bool, answer: Option<&str>) -> (r: bool)
    ensures
        r == removal_allowed(dry_run, yes, match answer { Some(a) => Some(a@), None => None }),
{
    if dry_run {
        false
    } else if yes {
        true
    } else {
        match answer {
            Some(a) => is_confirmation(a),
            None => false,
        }
    }
}

/// A dry run removes nothing, whatever else is given; without `--yes`,
/// nothing is removed unless the answer confirms (`y` or `Y`).
pub proof fn lemma_dry_run_or_refusal_removes_nothing(yes: bool, answer: Option<Seq<char>>)
    ensures
        !removal_allowed(true, yes, answer),
        step_of(true, yes) == CleanStep::Preview,
        removal_allowed(false, false, answer) <==> (answer matches Some(a) && confirms(a)),
{
}

} // verus!

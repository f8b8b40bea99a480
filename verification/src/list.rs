//! What `runx list` shows: supported tools, cached versions with sizes, and
//! the versions available upstream.

use vstd::prelude::*;

use crate::cache::CachedTool;
use crate::clean::{cached_index, find_cached, plural, plural_suffix, tools_size};
use crate::text::{decimal, digit_char, join_seqs, push_decimal, push_str, str_eq, string_of};
use crate::version::{
    SpecModel, Version, VersionSpec, VersionView, dedup_adjacent, dedup_views, sort_descending,
    sorted_descending, views
};

verus! {

/// Bytes in a kilobyte.
pub const KB: u64 = 1024;

/// Bytes in a megabyte.
pub const MB: u64 = 1048576;

/// Bytes in a gigabyte.
pub const GB: u64 = 1073741824;

/// `bytes / unit` in tenths, rounded to the nearest tenth, a tie going to
/// the even tenth (as `{:.1}` rounds the exact quotient).
pub open spec fn rounded_tenths(bytes: nat, unit: nat) -> nat
    recommends
        unit > 0,
{
    let q = (bytes * 10) / unit;
    let r = (bytes * 10) % unit;
    if 2 * r > unit || (2 * r == unit && q % 2 == 1) {
        q + 1
    } else {
        q
    }
}

/// `bytes / unit` with one decimal, e.g. `1.5`.
pub open spec fn one_decimal(bytes: nat, unit: nat) -> Seq<char> {
    let t = rounded_tenths(bytes, unit);
    decimal(t / 10) + "."@ + seq![digit_char(t % 10)]
}

/// A byte count for people: whole bytes below a kilobyte, else kilobytes,
/// megabytes or gigabytes with one decimal.
pub open spec fn size_text(bytes: u64) -> Seq<char> {
    if bytes >= GB {
        one_decimal(bytes as nat, GB as nat) + " GB"@
    } else if bytes >= MB {
        one_decimal(bytes as nat, MB as nat) + " MB"@
    } else if bytes >= KB {
        one_decimal(bytes as nat, KB as nat) + " KB"@
    } else {
        decimal(bytes as nat) + " B"@
    }
}

/// Appends `bytes / unit` with one decimal.
fn push_one_decimal(out: &mut Vec<char>, bytes: u64, unit: u64)
    requires
        unit >= 1024,
    ensures
        final(out)@ == old(out)@ + one_decimal(bytes as nat, unit as nat),
{
    let x: u128 = (bytes as u128) * 10;
    let q: u128 = x / (unit as u128);
    let r: u128 = x % (unit as u128);
    let t: u128 = if 2 * r > unit as u128 || (2 * r == unit as u128 && q % 2 == 1) {
        q + 1
    } else {
        q
    };
    assert(t == rounded_tenths(bytes as nat, unit as nat));
    assert(q <= x) by (nonlinear_arith)
        requires
            q == x / (unit as u128),
            unit >= 1024,
    ;
    let whole: u128 = t / 10;
    assert(whole <= u64::MAX);
    let d: u128 = t % 10;
    push_decimal(out, whole as u64);
    out.push('.');
    out.push(crate::text::digit_to_char(d as u64));
    assert(final(out)@ =~= old(out)@ + one_decimal(bytes as nat, unit as nat)) by {
        reveal_strlit(".");
    }
}

/// Formats a byte count (see [`size_text`]).
pub fn format_size(bytes: u64) -> (r: String)
    ensures
        r@ == size_text(bytes),
{
    let mut m: Vec<char> = Vec::new();
    if bytes >= GB {
        push_one_decimal(&mut m, bytes, GB);
        push_str(&mut m, " GB");
    } else if bytes >= MB {
        push_one_decimal(&mut m, bytes, MB);
        push_str(&mut m, " MB");
    } else if bytes >= KB {
        push_one_decimal(&mut m, bytes, KB);
        push_str(&mut m, " KB");
    } else {
        push_decimal(&mut m, bytes);
        push_str(&mut m, " B");
    }
    string_of(&m)
}


/// The tools `runx list` shows, with their aliases.
pub open spec fn supported_tool_names() -> Seq<(Seq<char>, Seq<Seq<char>>)> {
    seq![
        ("node"@, seq!["nodejs"@]),
        ("python"@, seq!["python3"@]),
        ("go"@, seq!["golang"@]),
        ("deno"@, Seq::<Seq<char>>::empty()),
        ("bun"@, seq!["bunx"@]),
    ]
}

/// The tools `runx list` shows, with their aliases.
pub fn supported_tools() -> (r: Vec<(&'static str, Vec<&'static str>)>)
    ensures
        r@.len() == 5,
        forall|i: int| 0 <= i < 5 ==> (#[trigger] r@[i]).0@ == supported_tool_names()[i].0
            && r@[i].1@.map_values(|a: &'static str| a@) == supported_tool_names()[i].1,
{
    let r = vec![
        ("node", vec!["nodejs"]),
        ("python", vec!["python3"]),
        ("go", vec!["golang"]),
        ("deno", vec![]),
        ("bun", vec!["bunx"]),
    ];
    assert(r@[0].1@.map_values(|a: &'static str| a@) =~= seq!["nodejs"@]);
    assert(r@[1].1@.map_values(|a: &'static str| a@) =~= seq!["python3"@]);
    assert(r@[2].1@.map_values(|a: &'static str| a@) =~= seq!["golang"@]);
    assert(r@[3].1@.map_values(|a: &'static str| a@) =~= Seq::<Seq<char>>::empty());
    assert(r@[4].1@.map_values(|a: &'static str| a@) =~= seq!["bunx"@]);
    r
}

/// The aliases column: `—` when there are none, else the aliases joined
/// by `, `.
pub open spec fn aliases_text(aliases: Seq<Seq<char>>) -> Seq<char> {
    if aliases.len() == 0 {
        "\u{2014}"@
    } else {
        join_seqs(aliases, ", "@)
    }
}

/// The aliases column of a tool.
pub fn alias_text(aliases: &Vec<&'static str>) -> (r: String)
    ensures
        r@ == aliases_text(aliases@.map_values(|a: &'static str| a@)),
{
    let ghost av = aliases@.map_values(|a: &'static str| a@);
    if aliases.len() == 0 {
        return crate::provider::owned("\u{2014}");
    }
    let mut out: Vec<char> = Vec::new();
    let mut i: usize = 0;
    while i < aliases.len()
        invariant
            i <= aliases.len(),
            av == aliases@.map_values(|a: &'static str| a@),
            out@ == join_seqs(av.subrange(0, i as int), ", "@),
        decreases aliases.len() - i,
    {
        assert(av.subrange(0, i + 1).drop_last() =~= av.subrange(0, i as int));
        if i > 0 {
            push_str(&mut out, ", ");
        } else {
            assert(out@ =~= Seq::<char>::empty());
        }
        push_str(&mut out, aliases[i]);
        i = i + 1;
    }
    assert(av.subrange(0, i as int) =~= av);
    string_of(&out)
}

/// The cache column of a tool: `N version(s) (SIZE)` for the first cached
/// tool of that name, else `—`.
pub open spec fn cached_info_text(tools: Seq<CachedTool>, name: Seq<char>) -> Seq<char> {
    let i = cached_index(tools, name);
    if i == -1 {
        "\u{2014}"@
    } else {
        decimal(tools[i].versions@.len()) + " version"@ + plural(tools[i].versions@.len()) + " ("@
            + size_text(tools[i].size_bytes) + ")"@
    }
}

/// The cache column of a tool.
pub fn cached_info(tools: &Vec<CachedTool>, name: &str) -> (r: String)
    ensures
        r@ == cached_info_text(tools@, name@),
{
    match find_cached(tools, name) {
        None => crate::provider::owned("\u{2014}"),
        Some(i) => {
            let t = &tools[i];
            let mut m: Vec<char> = Vec::new();
            push_decimal(&mut m, t.versions.len() as u64);
            push_str(&mut m, " version");
            push_str(&mut m, plural_suffix(t.versions.len() as u64));
            push_str(&mut m, " (");
            push_str(&mut m, format_size(t.size_bytes).as_str());
            push_str(&mut m, ")");
            string_of(&m)
        },
    }
}

/// The specifiers whose resolutions make up the available versions: each
/// major from the latest's down to 0, then each minor of the latest major
/// from the latest's down to 0.
pub open spec fn available_specs(latest: VersionView) -> Seq<SpecModel> {
    Seq::new((latest.0 + 1) as nat, |i: int| SpecModel::Major((latest.0 - i) as u64))
        + Seq::new((latest.1 + 1) as nat, |i: int| SpecModel::MajorMinor(latest.0, (latest.1 - i) as u64))
}

/// The views of specifiers.
pub open spec fn spec_views(s: Seq<VersionSpec>) -> Seq<SpecModel> {
    s.map_values(|x: VersionSpec| x@)
}

/// The specifiers to resolve to list what is available (see
/// [`available_specs`]).
pub fn available_version_specs(latest: &Version) -> (r: Vec<VersionSpec>)
    requires
        latest.major < u64::MAX,
        latest.minor < u64::MAX,
    ensures
        spec_views(r@) == available_specs(latest@),
{
    let ghost majors = Seq::new((latest.major + 1) as nat, |i: int| SpecModel::Major((latest.major - i) as u64));
    let ghost all = available_specs(latest@);
    let mut r: Vec<VersionSpec> = Vec::new();
    let mut k: u64 = 0;
    while k <= latest.major
        invariant
            k <= latest.major + 1,
            latest.major < u64::MAX,
            spec_views(r@) =~= majors.subrange(0, k as int),
            majors == Seq::new((latest.major + 1) as nat, |i: int| SpecModel::Major((latest.major - i) as u64)),
        decreases latest.major + 1 - k,
    {
        let ghost prev = r@;
        r.push(VersionSpec::Major(latest.major - k));
        assert(spec_views(r@) =~= spec_views(prev).push(SpecModel::Major((latest.major - k) as u64)));
        k = k + 1;
    }
    let ghost minors = Seq::new((latest.minor + 1) as nat, |i: int| SpecModel::MajorMinor(latest.major, (latest.minor - i) as u64));
    let mut j: u64 = 0;
    while j <= latest.minor
        invariant
            j <= latest.minor + 1,
            latest.minor < u64::MAX,
            spec_views(r@) =~= majors + minors.subrange(0, j as int),
            majors == Seq::new((latest.major + 1) as nat, |i: int| SpecModel::Major((latest.major - i) as u64)),
            minors == Seq::new((latest.minor + 1) as nat, |i: int| SpecModel::MajorMinor(latest.major, (latest.minor - i) as u64)),
        decreases latest.minor + 1 - j,
    {
        let ghost prev = r@;
        r.push(VersionSpec::MajorMinor(latest.major, latest.minor - j));
        assert(spec_views(r@) =~= spec_views(prev).push(SpecModel::MajorMinor(latest.major, (latest.minor - j) as u64)));
        j = j + 1;
    }
    assert(majors.subrange(0, k as int) =~= majors);
    assert(minors.subrange(0, j as int) =~= minors);
    r
}

/// The versions that resolved, in order.
pub open spec fn resolved_views(s: Seq<Option<Version>>) -> Seq<VersionView>
    decreases s.len(),
{
    if s.len() == 0 {
        Seq::empty()
    } else {
        match s.last() {
            Some(v) => resolved_views(s.drop_last()).push(v@),
            None => resolved_views(s.drop_last()),
        }
    }
}

/// The available versions: the latest and every version its specifiers
/// resolved to, highest first, each once.
pub open spec fn available_versions(latest: VersionView, resolved: Seq<Option<Version>>) -> Seq<VersionView> {
    dedup_views(sorted_descending(seq![latest] + resolved_views(resolved)))
}

/// Collects the available versions from the latest and the resolutions of
/// [`available_version_specs`] (a failed resolution gives none).
pub fn collect_available(latest: Version, resolved: Vec<Option<Version>>) -> (r: Vec<Version>)
    ensures
        views(r@) == available_versions(latest@, resolved@),
{
    let ghost l = latest@;
    let mut all: Vec<Version> = vec![latest];
    let mut i: usize = 0;
    while i < resolved.len()
        invariant
            i <= resolved.len(),
            views(all@) =~= seq![l] + resolved_views(resolved@.subrange(0, i as int)),
        decreases resolved.len() - i,
    {
        assert(resolved@.subrange(0, i + 1).drop_last() =~= resolved@.subrange(0, i as int));
        match &resolved[i] {
            Some(v) => {
                let ghost prev = all@;
                all.push(v.duplicate());
                assert(views(all@) =~= views(prev).push(v@));
            },
            None => {},
        }
        i = i + 1;
    }
    assert(resolved@.subrange(0, i as int) =~= resolved@);
    let sorted = sort_descending(all);
    dedup_adjacent(sorted)
}

/// The available versions are listed highest first by
/// `major.minor.patch`, no version twice in a row, and they hold the latest
/// version.
pub proof fn lemma_available_versions(latest: VersionView, resolved: Seq<Option<Version>>)
    ensures
        crate::version::numbers_descending(available_versions(latest, resolved)),
        forall|i: int| 0 <= i < available_versions(latest, resolved).len() - 1
            ==> #[trigger] available_versions(latest, resolved)[i] != available_versions(latest, resolved)[i + 1],
        available_versions(latest, resolved).contains(latest),
{
    let all = seq![latest] + resolved_views(resolved);
    crate::version::lemma_sorted_descending(all);
    crate::version::lemma_dedup_views(sorted_descending(all));
    assert(all[0] == latest);
    assert(all.contains(latest));
    assert(sorted_descending(all).contains(latest));
}

proof fn lemma_resolved_views_valid(s: Seq<Option<Version>>)
    requires
        forall|i: int| 0 <= i < s.len() ==> (#[trigger] s[i] matches Some(v) ==> crate::version::version_valid(v@)),
    ensures
        crate::version::all_valid(resolved_views(s)),
    decreases s.len(),
{
    if s.len() > 0 {
        let p = s.drop_last();
        assert forall|i: int| 0 <= i < p.len() implies (#[trigger] p[i] matches Some(v) ==> crate::version::version_valid(v@)) by {
            assert(p[i] == s[i]);
        }
        lemma_resolved_views_valid(p);
        assert(s[s.len() - 1] == s.last());
    }
}

/// For versions that `semver` parsed, the available versions come out
/// strictly descending in the full `semver` order (numbers, then
/// pre-release, then build): sorted highest first with no version twice.
pub proof fn lemma_available_strictly_descending(latest: VersionView, resolved: Seq<Option<Version>>)
    requires
        crate::version::version_valid(latest),
        forall|i: int| 0 <= i < resolved.len() ==> (#[trigger] resolved[i] matches Some(v) ==> crate::version::version_valid(v@)),
    ensures
        crate::version::strictly_descending(available_versions(latest, resolved)),
{
    lemma_resolved_views_valid(resolved);
    let all = seq![latest] + resolved_views(resolved);
    assert(crate::version::all_valid(all)) by {
        assert forall|i: int| 0 <= i < all.len() implies crate::version::version_valid(#[trigger] all[i]) by {
            if i > 0 {
                assert(all[i] == resolved_views(resolved)[i - 1]);
            }
        }
    }
    crate::version::lemma_sorted_in_order(all);
    crate::version::lemma_dedup_strictly_descending(sorted_descending(all));
}

/// How many versions `runx list <tool>` shows.
pub const SHOWN_VERSIONS: usize = 20;

/// The line after a shortened list: `  ... and N more`, when more than 20
/// versions are available.
pub open spec fn more_text(total: nat) -> Option<Seq<char>> {
    if total > 20 {
        Some("  ... and "@ + decimal((total - 20) as nat) + " more"@)
    } else {
        None
    }
}

/// The line after a shortened list, if any.
pub fn more_line(total: usize) -> (r: Option<String>)
    ensures
        crate::config::opt_string(r) == more_text(total as nat),
{
    if total > SHOWN_VERSIONS {
        let mut m: Vec<char> = Vec::new();
        push_str(&mut m, "  ... and ");
        push_decimal(&mut m, (total - SHOWN_VERSIONS) as u64);
        push_str(&mut m, " more");
        Some(string_of(&m))
    } else {
        None
    }
}

/// The closing line of `runx list --cached`: `Total: N tool(s), SIZE`.
pub open spec fn total_text(count: nat, bytes: u64) -> Seq<char> {
    "Total: "@ + decimal(count) + " tool"@ + plural(count) + ", "@ + size_text(bytes)
}

/// The closing line of `runx list --cached`.
pub fn total_line(count: u64, bytes: u64) -> (r: String)
    ensures
        r@ == total_text(count as nat, bytes),
{
    let mut m: Vec<char> = Vec::new();
    push_str(&mut m, "Total: ");
    push_decimal(&mut m, count);
    push_str(&mut m, " tool");
    push_str(&mut m, plural_suffix(count));
    push_str(&mut m, ", ");
    push_str(&mut m, format_size(bytes).as_str());
    string_of(&m)
}
/// The cached tools that `runx list --cached` shows: all, or those of the
/// named tool, in their order.
pub open spec fn tools_named(s: Seq<CachedTool>, name: Option<Seq<char>>) -> Seq<CachedTool>
    decreases s.len(),
{
    if s.len() == 0 {
        Seq::empty()
    } else {
        let before = tools_named(s.drop_last(), name);
        let keep = match name {
            Some(n) => s.last().name@ == n,
            None => true,
        };
        if keep {
            before.push(s.last())
        } else {
            before
        }
    }
}

/// Keeps the cached tools of the named tool, or all when none is named.
pub fn cached_named(tools: Vec<CachedTool>, name: Option<&str>) -> (r: Vec<CachedTool>)
    ensures
        r@ == tools_named(tools@, match name { Some(n) => Some(n@), None => None }),
{
    let ghost all = tools@;
    let ghost nm = match name { Some(n) => Some(n@), None => None };
    let mut rest = tools;
    assert(all.len() == rest.len());
    let mut r: Vec<CachedTool> = Vec::new();
    let mut k: usize = 0;
    while rest.len() > 0
        invariant
            k + rest@.len() == all.len(),
            all.len() <= usize::MAX,
            nm == (match name { Some(n) => Some(n@), None => None::<Seq<char>> }),
            rest@ == all.subrange(k as int, all.len() as int),
            r@ == tools_named(all.subrange(0, k as int), nm),
        decreases rest.len(),
    {
        let t = rest.remove(0);
        assert(all.subrange(0, k + 1).drop_last() =~= all.subrange(0, k as int));
        assert(all.subrange(0, k + 1).last() == t);
        let keep = match name {
            Some(n) => str_eq(t.name.as_str(), n),
            None => true,
        };
        if keep {
            r.push(t);
        }
        assert(rest@ =~= all.subrange(k + 1, all.len() as int));
        k = k + 1;
    }
    assert(all.subrange(0, k as int) =~= all);
    r
}

/// The total size `runx list --cached` reports: the sum of the sizes,
/// held at `u64::MAX` should it not fit.
pub fn cached_total(tools: &Vec<CachedTool>) -> (r: u64)
    ensures
        r == (if tools_size(tools@) <= u64::MAX { tools_size(tools@) } else { u64::MAX as nat }),
{
    let mut total: u64 = 0;
    let mut i: usize = 0;
    while i < tools.len()
        invariant
            i <= tools.len(),
            total == (if tools_size(tools@.subrange(0, i as int)) <= u64::MAX {
                tools_size(tools@.subrange(0, i as int))
            } else {
                u64::MAX as nat
            }),
        decreases tools.len() - i,
    {
        assert(tools@.subrange(0, i + 1).drop_last() =~= tools@.subrange(0, i as int));
        total = total.saturating_add(tools[i].size_bytes);
        i = i + 1;
    }
    assert(tools@.subrange(0, i as int) =~= tools@);
    total
}

} // verus!

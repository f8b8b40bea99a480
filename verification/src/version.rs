//! Semantic versions and the version specifiers users write after `@`.

use vstd::prelude::*;
use vstd::string::*;

use crate::precedence::{build_precedence, build_valid, pre_precedence, pre_valid};
use crate::text::{
    is_digit, lemma_decimal_digits, lemma_first_index, lemma_parse_decimal, lemma_split_once_join,
    lemma_trim_digits, lemma_trim_noop, all_digits, chars_eq_ignore_ascii_case, chars_of,
    contains_char, decimal, eq_ignore_ascii_case, parse_u64, parse_u64_spec, push_all, push_decimal,
    push_str, split_once, split_once_chars, string_of, trim, trim_chars, u64_chars
};

verus! {

/// A semantic version: `major.minor.patch`, an optional pre-release and an
/// optional build metadata text.
#[derive(Debug, Clone, PartialEq, Eq)]
pub struct Version {
    pub major: u64,
    pub minor: u64,
    pub patch: u64,
    /// Pre-release identifiers (the text after `-`), empty for a release.
    pub pre: String,
    /// Build metadata (the text after `+`), usually empty.
    pub build: String,
}

/// The mathematical form of a [`Version`]: major, minor, patch, pre-release
/// text and build text.
pub type VersionView = (u64, u64, u64, Seq<char>, Seq<char>);

impl View for Version {
    type V = VersionView;

    open spec fn view(&self) -> VersionView {
        (self.major, self.minor, self.patch, self.pre@, self.build@)
    }
}

/// What `semver::Version::parse` makes of a text: the version as plain
/// values, or the text of its error.
pub uninterp spec fn semver_outcome(text: Seq<char>) -> Result<VersionView, Seq<char>>;

/// The version `semver::Version::parse` reads from a text, if any.
pub open spec fn semver_parse_result(text: Seq<char>) -> Option<VersionView> {
    match semver_outcome(text) {
        Ok(v) => Some(v),
        Err(_) => None,
    }
}

/// A comparison answer as `-1`, `0` or `1` in an `i8`.
pub open spec fn sign_i8(c: int) -> i8 {
    if c < 0 { -1i8 } else if c == 0 { 0i8 } else { 1i8 }
}

/// Whether the pre-release and build texts of a version are ones `semver`
/// accepts (as those of every version it parses are).
pub open spec fn version_valid(v: VersionView) -> bool {
    pre_valid(v.3) && build_valid(v.4)
}

/// The version whose printed text (`version_text`) a text is, among the
/// versions whose texts `semver` accepts; none when it is no such text.
pub open spec fn printed_version(t: Seq<char>) -> Option<VersionView> {
    if exists|v: VersionView| version_valid(v) && version_text(v) == t {
        Some(choose|v: VersionView| version_valid(v) && version_text(v) == t)
    } else {
        None
    }
}

/// `s` holds at least two dots.
pub open spec fn has_two_dots(s: Seq<char>) -> bool {
    exists|i: int, j: int| 0 <= i < j < s.len() && s[i] == '.' && s[j] == '.'
}

/// Parses a text with `semver::Version::parse`.
///
/// Claims that the outcome is the crate's (named by `semver_outcome`): the
/// version's parts, or the error's display text; as its documentation says
/// ("a SemVer version must have exactly three" numeric components), that a
/// text with fewer than two dots is refused; that the pre-release and
/// build texts of a parsed version follow the identifier syntax that the
/// crate documents for `Prerelease` and `BuildMetadata`; and that the text
/// the crate prints for such a version (its `Display`: numbers, then `-pre`
/// and `+build` when present) reads back as that version.
#[verifier::external_body]
fn semver_parse(s: &str) -> (r: Result<Version, String>)
    ensures
        match r {
            Ok(v) => semver_outcome(s@) == Ok::<VersionView, Seq<char>>(v@),
            Err(e) => semver_outcome(s@) == Err::<VersionView, Seq<char>>(e@),
        },
        r is Ok ==> has_two_dots(s@),
        r matches Ok(v) ==> version_valid(v@),
        printed_version(s@) is Some ==> r is Ok,
        r matches Ok(w) ==> (printed_version(s@) is Some ==> Some(w@) == printed_version(s@)),
{
    match semver::Version::parse(s) {
        Ok(v) => Ok(Version {
            major: v.major,
            minor: v.minor,
            patch: v.patch,
            pre: v.pre.as_str().to_string(),
            build: v.build.as_str().to_string(),
        }),
        Err(e) => Err(e.to_string()),
    }
}

/// Orders two pre-release texts with `semver::Prerelease::new` and its
/// `Ord`.
///
/// Claims `None` when either text is not one `Prerelease::new` accepts
/// (`pre_valid`), else the order the crate documents and defines
/// (`pre_precedence`) as `-1`, `0` or `1`.
#[verifier::external_body]
fn prerelease_rank(a: &str, b: &str) -> (r: Option<i8>)
    ensures
        r == (if pre_valid(a@) && pre_valid(b@) { Some(sign_i8(pre_precedence(a@, b@))) } else { None }),
{
    match (semver::Prerelease::new(a), semver::Prerelease::new(b)) {
        (Ok(x), Ok(y)) => match x.cmp(&y) {
            std::cmp::Ordering::Less => Some(-1),
            std::cmp::Ordering::Equal => Some(0),
            std::cmp::Ordering::Greater => Some(1),
        },
        _ => None,
    }
}

/// Orders two build texts with `semver::BuildMetadata::new` and its `Ord`.
///
/// Claims `None` when either text is not one `BuildMetadata::new` accepts
/// (`build_valid`), else the order the crate defines (`build_precedence`)
/// as `-1`, `0` or `1`.
#[verifier::external_body]
fn build_rank(a: &str, b: &str) -> (r: Option<i8>)
    ensures
        r == (if build_valid(a@) && build_valid(b@) { Some(sign_i8(build_precedence(a@, b@))) } else { None }),
{
    match (semver::BuildMetadata::new(a), semver::BuildMetadata::new(b)) {
        (Ok(x), Ok(y)) => match x.cmp(&y) {
            std::cmp::Ordering::Less => Some(-1),
            std::cmp::Ordering::Equal => Some(0),
            std::cmp::Ordering::Greater => Some(1),
        },
        _ => None,
    }
}

/// Lexicographic comparison of `(major, minor, patch)`: `-1`, `0` or `1`.
pub open spec fn triple_order(a: VersionView, b: VersionView) -> int {
    if a.0 != b.0 {
        if a.0 < b.0 { -1 } else { 1 }
    } else if a.1 != b.1 {
        if a.1 < b.1 { -1 } else { 1 }
    } else if a.2 != b.2 {
        if a.2 < b.2 { -1 } else { 1 }
    } else {
        0
    }
}

/// `(major, minor, patch)` of `a` is at most that of `b`.
pub open spec fn triple_le(a: VersionView, b: VersionView) -> bool {
    triple_order(a, b) <= 0
}

/// The total order of versions: numbers first, then the pre-release and
/// build texts in the order `semver` defines for them. Texts that `semver`
/// would not accept compare as equal.
pub open spec fn version_order(a: VersionView, b: VersionView) -> int {
    let t = triple_order(a, b);
    if t != 0 {
        t
    } else {
        let p = if pre_valid(a.3) && pre_valid(b.3) { pre_precedence(a.3, b.3) } else { 0 };
        if p != 0 {
            p
        } else if build_valid(a.4) && build_valid(b.4) {
            build_precedence(a.4, b.4)
        } else {
            0
        }
    }
}

/// `version_order` follows the numbers whenever they differ.
pub proof fn lemma_version_order_triple(a: VersionView, b: VersionView)
    ensures
        version_order(a, b) == 1 ==> triple_le(b, a),
        version_order(a, b) != 1 ==> triple_le(a, b),
{
}

/// The text `semver` prints for a version:
/// `major.minor.patch`, then `-pre` and `+build` when present.
pub open spec fn version_text(v: VersionView) -> Seq<char> {
    let core = decimal(v.0 as nat) + seq!['.'] + decimal(v.1 as nat) + seq!['.'] + decimal(
        v.2 as nat,
    );
    let with_pre = if v.3.len() == 0 {
        core
    } else {
        core + seq!['-'] + v.3
    };
    if v.4.len() == 0 {
        with_pre
    } else {
        with_pre + seq!['+'] + v.4
    }
}

impl Version {
    /// A release version with empty pre-release and build texts.
    pub fn new(major: u64, minor: u64, patch: u64) -> (r: Version)
        ensures
            r@ == (major, minor, patch, Seq::<char>::empty(), Seq::<char>::empty()),
    {
        Version { major, minor, patch, pre: String::new(), build: String::new() }
    }

    /// A copy of this version.
    pub fn duplicate(&self) -> (r: Version)
        ensures
            r@ == self@,
    {
        Version {
            major: self.major,
            minor: self.minor,
            patch: self.patch,
            pre: self.pre.clone(),
            build: self.build.clone(),
        }
    }

    /// Parses a version with the `semver` grammar.
    pub fn parse(s: &str) -> (r: Option<Version>)
        ensures
            match r {
                Some(v) => semver_parse_result(s@) == Some(v@),
                None => semver_parse_result(s@) is None,
            },
            r matches Some(v) ==> version_valid(v@),
    {
        match semver_parse(s) {
            Ok(v) => Some(v),
            Err(_) => None,
        }
    }

    /// Parses a version with the `semver` grammar, keeping the error text.
    pub fn parse_or_error(s: &str) -> (r: Result<Version, String>)
        ensures
            match r {
                Ok(v) => semver_outcome(s@) == Ok::<VersionView, Seq<char>>(v@),
                Err(e) => semver_outcome(s@) == Err::<VersionView, Seq<char>>(e@),
            },
            r matches Ok(v) ==> version_valid(v@),
    {
        semver_parse(s)
    }

    /// Whether this is a release (its pre-release text is empty).
    pub fn is_stable(&self) -> (r: bool)
        ensures
            r == (self@.3.len() == 0),
    {
        let p = chars_of(self.pre.as_str());
        p.len() == 0
    }

    /// Field-wise equality, as `semver::Version`'s derived `==` compares.
    pub fn same_as(&self, other: &Version) -> (r: bool)
        ensures
            r == (self@ == other@),
    {
        self.major == other.major && self.minor == other.minor && self.patch == other.patch
            && self.pre == other.pre && self.build == other.build
    }

    /// Compares two versions: `-1` when `self` is lower, `0` when equal in
    /// the order, `1` when higher.
    pub fn compare(&self, other: &Version) -> (r: i8)
        ensures
            r as int == version_order(self@, other@),
    {
        if self.major != other.major {
            return if self.major < other.major { -1 } else { 1 };
        }
        if self.minor != other.minor {
            return if self.minor < other.minor { -1 } else { 1 };
        }
        if self.patch != other.patch {
            return if self.patch < other.patch { -1 } else { 1 };
        }
        proof {
            crate::precedence::lemma_pre_precedence_total(self.pre@, other.pre@, other.pre@);
            crate::precedence::lemma_build_precedence_total(self.build@, other.build@, other.build@);
        }
        let p: i8 = match prerelease_rank(self.pre.as_str(), other.pre.as_str()) {
            Some(x) => x,
            None => 0,
        };
        if p != 0 {
            return p;
        }
        match build_rank(self.build.as_str(), other.build.as_str()) {
            Some(x) => x,
            None => 0,
        }
    }

    /// The version as `semver` prints it, e.g. `18.19.1` or `1.0.0-rc.1`.
    pub fn text(&self) -> (r: Vec<char>)
        ensures
            r@ == version_text(self@),
    {
        let mut out = u64_chars(self.major);
        out.push('.');
        push_decimal(&mut out, self.minor);
        out.push('.');
        push_decimal(&mut out, self.patch);
        let ghost core = out@;
        let pre = chars_of(self.pre.as_str());
        if pre.len() > 0 {
            out.push('-');
            push_all(&mut out, &pre);
        }
        let ghost with_pre = out@;
        let build = chars_of(self.build.as_str());
        if build.len() > 0 {
            out.push('+');
            push_all(&mut out, &build);
        }
        assert(out@ =~= version_text(self@));
        out
    }

    /// The version as `semver` prints it.
    pub fn to_string(&self) -> (r: String)
        ensures
            r@ == version_text(self@),
    {
        let t = self.text();
        string_of(&t)
    }
}


/// A version specifier: `latest`, a major (`18`), a major and minor
/// (`18.19`) or an exact version (`18.19.1`).
#[derive(Debug, Clone, PartialEq, Eq)]
pub enum VersionSpec {
    /// The most recent version.
    Latest,
    /// Any `major.x.x` release.
    Major(u64),
    /// Any `major.minor.x` release.
    MajorMinor(u64, u64),
    /// Exactly this version.
    Exact(Version),
}

/// The mathematical form of a [`VersionSpec`].
pub enum SpecModel {
    Latest,
    Major(u64),
    MajorMinor(u64, u64),
    Exact(VersionView),
}

impl View for VersionSpec {
    type V = SpecModel;

    open spec fn view(&self) -> SpecModel {
        match self {
            VersionSpec::Latest => SpecModel::Latest,
            VersionSpec::Major(m) => SpecModel::Major(*m),
            VersionSpec::MajorMinor(m, n) => SpecModel::MajorMinor(*m, *n),
            VersionSpec::Exact(v) => SpecModel::Exact(v@),
        }
    }
}

/// Whether version `v` satisfies specifier `s`: `latest` takes every
/// version; a major or major.minor takes releases with those numbers; an
/// exact specifier takes only an equal version.
pub open spec fn spec_matches(s: SpecModel, v: VersionView) -> bool {
    match s {
        SpecModel::Latest => true,
        SpecModel::Major(m) => v.0 == m && v.3.len() == 0,
        SpecModel::MajorMinor(m, n) => v.0 == m && v.1 == n && v.3.len() == 0,
        SpecModel::Exact(e) => v == e,
    }
}

/// The view of an optional version.
pub open spec fn opt_view(o: Option<Version>) -> Option<VersionView> {
    match o {
        Some(v) => Some(v@),
        None => None,
    }
}

/// The views of a sequence of versions.
pub open spec fn views(c: Seq<Version>) -> Seq<VersionView> {
    c.map_values(|v: Version| v@)
}

/// The position `Iterator::max` picks among the versions matching `s`: the
/// greatest in `version_order`, the later one on a tie; `-1` when none
/// matches.
pub open spec fn best_index(s: SpecModel, c: Seq<VersionView>) -> int
    decreases c.len(),
{
    if c.len() == 0 {
        -1
    } else {
        let prev = best_index(s, c.drop_last());
        let last = c.len() - 1;
        if !spec_matches(s, c[last]) {
            prev
        } else if prev == -1 {
            last
        } else if version_order(c[prev], c[last]) == 1 {
            prev
        } else {
            last
        }
    }
}

/// The text that names a specifier.
pub open spec fn spec_text(s: SpecModel) -> Seq<char> {
    match s {
        SpecModel::Latest => seq!['l', 'a', 't', 'e', 's', 't'],
        SpecModel::Major(m) => decimal(m as nat),
        SpecModel::MajorMinor(m, n) => decimal(m as nat) + seq!['.'] + decimal(n as nat),
        SpecModel::Exact(v) => version_text(v),
    }
}

/// The error text for a bad major number in `t`.
pub open spec fn bad_major_msg(t: Seq<char>) -> Seq<char> {
    "invalid major version in `"@ + t + "`"@
}

/// The error text for a bad minor number in `t`.
pub open spec fn bad_minor_msg(t: Seq<char>) -> Seq<char> {
    "invalid minor version in `"@ + t + "`"@
}

/// The error text for an unreadable specifier `t`.
pub open spec fn bad_spec_msg(t: Seq<char>) -> Seq<char> {
    "invalid version spec `"@ + t + "`. Use: latest, 18, 18.19, or 18.19.1"@
}

/// How a trimmed, non-`latest` text `t` reads when `semver` gave `exact`.
pub open spec fn spec_parse_trimmed(t: Seq<char>, exact: Option<VersionView>) -> Result<SpecModel, Seq<char>> {
    match exact {
        Some(v) => Ok(SpecModel::Exact(v)),
        None => match split_once(t, '.') {
            Some((a, b)) if !b.contains('.') => match parse_u64_spec(a) {
                None => Err(bad_major_msg(t)),
                Some(m) => match parse_u64_spec(b) {
                    None => Err(bad_minor_msg(t)),
                    Some(n) => Ok(SpecModel::MajorMinor(m, n)),
                },
            },
            _ => match parse_u64_spec(t) {
                Some(m) => Ok(SpecModel::Major(m)),
                None => Err(bad_spec_msg(t)),
            },
        },
    }
}

/// How a text reads as a specifier: surrounding whitespace is ignored;
/// empty or `latest` (any ASCII case) is `Latest`; a full semver version is
/// `Exact`; `a.b` is `MajorMinor`; `a` is `Major`.
pub open spec fn spec_parse(raw: Seq<char>) -> Result<SpecModel, Seq<char>> {
    let t = trim(raw);
    if t.len() == 0 || eq_ignore_ascii_case(t, "latest"@) {
        Ok(SpecModel::Latest)
    } else {
        spec_parse_trimmed(t, semver_reading(t))
    }
}

/// What `semver` makes of a text: the version it prints as, when it is
/// such a text; a text with fewer than two dots is never a full version.
pub open spec fn semver_reading(t: Seq<char>) -> Option<VersionView> {
    if printed_version(t) is Some {
        printed_version(t)
    } else if has_two_dots(t) {
        semver_parse_result(t)
    } else {
        None
    }
}

impl VersionSpec {
    /// Whether `version` satisfies this specifier.
    pub fn matches(&self, version: &Version) -> (r: bool)
        ensures
            r == spec_matches(self@, version@),
    {
        match self {
            VersionSpec::Latest => true,
            VersionSpec::Major(major) => version.major == *major && version.is_stable(),
            VersionSpec::MajorMinor(major, minor) => version.major == *major && version.minor
                == *minor && version.is_stable(),
            VersionSpec::Exact(exact) => version.same_as(exact),
        }
    }

    /// The highest candidate that satisfies this specifier (the later one
    /// among equals), as `Iterator::max` over the matching candidates picks.
    pub fn resolve<'a>(&self, candidates: &'a [Version]) -> (r: Option<&'a Version>)
        ensures
            match r {
                Some(v) => {
                    let i = best_index(self@, views(candidates@));
                    0 <= i < candidates@.len() && *v == candidates@[i]
                },
                None => best_index(self@, views(candidates@)) == -1,
            },
    {
        let mut best: Option<usize> = None;
        let mut i: usize = 0;
        while i < candidates.len()
            invariant
                i <= candidates.len(),
                match best {
                    Some(b) => b < i && b as int == best_index(self@, views(candidates@).subrange(0, i as int)),
                    None => best_index(self@, views(candidates@).subrange(0, i as int)) == -1,
                },
            decreases candidates.len() - i,
        {
            let ghost prefix = views(candidates@).subrange(0, i + 1);
            assert(prefix.drop_last() =~= views(candidates@).subrange(0, i as int));
            assert(prefix[i as int] == candidates@[i as int]@);
            if self.matches(&candidates[i]) {
                match best {
                    None => {
                        best = Some(i);
                    },
                    Some(b) => {
                        assert(prefix[b as int] == candidates@[b as int]@);
                        if candidates[b].compare(&candidates[i]) != 1 {
                            best = Some(i);
                        }
                    },
                }
            }
            i = i + 1;
        }
        assert(views(candidates@).subrange(0, i as int) =~= views(candidates@));
        match best {
            Some(b) => Some(&candidates[b]),
            None => None,
        }
    }

    /// The text naming this specifier: `latest`, `18`, `18.19` or the
    /// exact version.
    pub fn text(&self) -> (r: Vec<char>)
        ensures
            r@ == spec_text(self@),
    {
        match self {
            VersionSpec::Latest => {
                let r = vec!['l', 'a', 't', 'e', 's', 't'];
                assert(r@ =~= seq!['l', 'a', 't', 'e', 's', 't']);
                r
            },
            VersionSpec::Major(m) => u64_chars(*m),
            VersionSpec::MajorMinor(m, n) => {
                let mut r = u64_chars(*m);
                r.push('.');
                push_decimal(&mut r, *n);
                assert(r@ =~= spec_text(self@));
                r
            },
            VersionSpec::Exact(v) => v.text(),
        }
    }

    /// The text naming this specifier, as a `String`.
    pub fn to_string(&self) -> (r: String)
        ensures
            r@ == spec_text(self@),
    {
        let t = self.text();
        string_of(&t)
    }

    /// Reads a trimmed, non-`latest` text given what `semver` made of it.
    pub fn from_trimmed(t: &Vec<char>, exact: Option<Version>) -> (r: Result<VersionSpec, String>)
        ensures
            match r {
                Ok(s) => spec_parse_trimmed(t@, opt_view(exact)) == Ok::<SpecModel, Seq<char>>(s@),
                Err(e) => spec_parse_trimmed(t@, opt_view(exact)) == Err::<SpecModel, Seq<char>>(e@),
            },
    {
        match exact {
            Some(v) => return Ok(VersionSpec::Exact(v)),
            None => {},
        }
        match split_once_chars(t, '.') {
            Some((a, b)) => {
                if !contains_char(&b, '.') {
                    match parse_u64(&a) {
                        None => {
                            let mut m: Vec<char> = Vec::new();
                            push_str(&mut m, "invalid major version in `");
                            push_all(&mut m, t);
                            push_str(&mut m, "`");
                            return Err(string_of(&m));
                        },
                        Some(major) => match parse_u64(&b) {
                            None => {
                                let mut m: Vec<char> = Vec::new();
                                push_str(&mut m, "invalid minor version in `");
                                push_all(&mut m, t);
                                push_str(&mut m, "`");
                                return Err(string_of(&m));
                            },
                            Some(minor) => return Ok(VersionSpec::MajorMinor(major, minor)),
                        },
                    }
                }
            },
            None => {},
        }
        match parse_u64(t) {
            Some(major) => Ok(VersionSpec::Major(major)),
            None => {
                let mut m: Vec<char> = Vec::new();
                push_str(&mut m, "invalid version spec `");
                push_all(&mut m, t);
                push_str(&mut m, "`. Use: latest, 18, 18.19, or 18.19.1");
                Err(string_of(&m))
            },
        }
    }

    /// Reads a specifier: see `spec_parse`.
    pub fn parse(s: &str) -> (r: Result<VersionSpec, String>)
        ensures
            match r {
                Ok(v) => spec_parse(s@) == Ok::<SpecModel, Seq<char>>(v@),
                Err(e) => spec_parse(s@) == Err::<SpecModel, Seq<char>>(e@),
            },
    {
        let raw = chars_of(s);
        let t = trim_chars(&raw);
        let latest = vec!['l', 'a', 't', 'e', 's', 't'];
        proof {
            reveal_strlit("latest");
            assert(latest@ =~= "latest"@);
        }
        if t.len() == 0 || chars_eq_ignore_ascii_case(&t, &latest) {
            return Ok(VersionSpec::Latest);
        }
        let ts = string_of(&t);
        let exact = match semver_parse(ts.as_str()) {
            Ok(v) => Some(v),
            Err(_) => None,
        };
        assert(opt_view(exact) == semver_reading(t@));
        VersionSpec::from_trimmed(&t, exact)
    }
}

impl core::str::FromStr for VersionSpec {
    type Err = String;

    fn from_str(s: &str) -> (r: Result<VersionSpec, String>)
        ensures
            match r {
                Ok(v) => spec_parse(s@) == Ok::<SpecModel, Seq<char>>(v@),
                Err(e) => spec_parse(s@) == Err::<SpecModel, Seq<char>>(e@),
            },
    {
        VersionSpec::parse(s)
    }
}


/// Resolution picks a matching candidate whenever one exists, and no
/// matching candidate has a higher `major.minor.patch` than the one picked.
pub proof fn lemma_resolve_is_highest(s: SpecModel, c: Seq<VersionView>)
    ensures
        best_index(s, c) == -1 <==> (forall|i: int| 0 <= i < c.len() ==> !spec_matches(s, #[trigger] c[i])),
        best_index(s, c) != -1 ==> {
            let b = best_index(s, c);
            &&& 0 <= b < c.len()
            &&& spec_matches(s, c[b])
            &&& forall|i: int| 0 <= i < c.len() && spec_matches(s, #[trigger] c[i]) ==> triple_le(c[i], c[b])
        },
    decreases c.len(),
{
    if c.len() > 0 {
        let p = c.drop_last();
        lemma_resolve_is_highest(s, p);
        let prev = best_index(s, p);
        let last = c.len() - 1;
        assert forall|i: int| 0 <= i < last implies c[i] == p[i] by {}
        if spec_matches(s, c[last]) && prev != -1 {
            lemma_version_order_triple(c[prev], c[last]);
        }
    }
}

/// Digit strings hold no dot and are not the word `latest`.
proof fn lemma_digits_not_special(d: Seq<char>)
    requires
        all_digits(d),
        d.len() > 0,
    ensures
        !d.contains('.'),
        !eq_ignore_ascii_case(d, "latest"@),
{
    reveal_strlit("latest");
    assert(is_digit(d[0]));
    if d.contains('.') {
        let i = choose|i: int| 0 <= i < d.len() && d[i] == '.';
        assert(is_digit(d[i]));
    }
}

/// The text of a specifier reads back as the same specifier: `latest`, a
/// major, a major.minor, and an exact version whose texts `semver` accepts
/// (as those of every version it parses are).
pub proof fn lemma_spec_text_reads_back(s: SpecModel)
    requires
        s matches SpecModel::Exact(v) ==> version_valid(v),
    ensures
        spec_parse(spec_text(s)) == Ok::<SpecModel, Seq<char>>(s),
{
    reveal_strlit("latest");
    match s {
        SpecModel::Latest => {
            let t = spec_text(s);
            lemma_trim_noop(t);
            assert(t =~= "latest"@);
        },
        SpecModel::Major(m) => {
            let t = decimal(m as nat);
            lemma_decimal_digits(m as nat);
            lemma_trim_digits(t);
            lemma_digits_not_special(t);
            lemma_first_index(t, '.');
            lemma_parse_decimal(m);
            assert(!has_two_dots(t));
            lemma_printed_has_two_dots(t);
        },
        SpecModel::MajorMinor(m, n) => {
            let a = decimal(m as nat);
            let b = decimal(n as nat);
            let t = a + seq!['.'] + b;
            assert(spec_text(s) == t);
            lemma_decimal_digits(m as nat);
            lemma_decimal_digits(n as nat);
            lemma_digits_not_special(a);
            lemma_digits_not_special(b);
            assert(is_digit(a[0]));
            assert(is_digit(b[b.len() - 1]));
            assert(t[0] == a[0]);
            assert(t.last() == b[b.len() - 1]);
            lemma_trim_noop(t);
            assert(!eq_ignore_ascii_case(t, "latest"@)) by {
                assert(is_digit(t[0]));
            }
            assert(!has_two_dots(t)) by {
                if has_two_dots(t) {
                    let (i, j) = choose|i: int, j: int| 0 <= i < j < t.len() && t[i] == '.' && t[j] == '.';
                    if i < a.len() {
                        assert(t[i] == a[i]);
                        assert(a.contains('.'));
                    } else if i == a.len() {
                        assert(t[j] == b[j - a.len() - 1]);
                        assert(b.contains('.'));
                    } else {
                        assert(t[i] == b[i - a.len() - 1]);
                        assert(b.contains('.'));
                    }
                }
            }
            lemma_printed_has_two_dots(t);
            lemma_split_once_join(a, '.', b);
            lemma_parse_decimal(m);
            lemma_parse_decimal(n);
        },
        SpecModel::Exact(v) => {
            lemma_exact_text_reads_back(v);
        },
    }
}


/// `v` inserted into a list sorted highest first: just before the first
/// element it is greater than, so that equal elements keep their order.
pub open spec fn insert_descending(s: Seq<VersionView>, v: VersionView) -> Seq<VersionView>
    decreases s.len(),
{
    if s.len() == 0 {
        seq![v]
    } else if version_order(v, s[0]) == 1 {
        seq![v] + s
    } else {
        seq![s[0]] + insert_descending(s.drop_first(), v)
    }
}

/// A list sorted highest first, equal elements in their original order
/// (a stable sort by `version_order`, reversed).
pub open spec fn sorted_descending(s: Seq<VersionView>) -> Seq<VersionView>
    decreases s.len(),
{
    if s.len() == 0 {
        Seq::empty()
    } else {
        insert_descending(sorted_descending(s.drop_last()), s.last())
    }
}

/// A list without runs of equal elements (each run kept once).
pub open spec fn dedup_views(s: Seq<VersionView>) -> Seq<VersionView>
    decreases s.len(),
{
    if s.len() <= 1 {
        s
    } else {
        let p = dedup_views(s.drop_last());
        if p.last() == s.last() {
            p
        } else {
            p.push(s.last())
        }
    }
}

proof fn lemma_insert_at(s: Seq<VersionView>, v: VersionView, j: int)
    requires
        0 <= j <= s.len(),
        forall|k: int| 0 <= k < j ==> version_order(v, #[trigger] s[k]) != 1,
        j < s.len() ==> version_order(v, s[j]) == 1,
    ensures
        insert_descending(s, v) == s.insert(j, v),
    decreases j,
{
    if s.len() == 0 {
        assert(s.insert(j, v) =~= seq![v]);
    } else if j == 0 {
        assert(s.insert(0, v) =~= seq![v] + s);
    } else {
        let t = s.drop_first();
        assert forall|k: int| 0 <= k < j - 1 implies version_order(v, #[trigger] t[k]) != 1 by {
            assert(t[k] == s[k + 1]);
        }
        lemma_insert_at(t, v, j - 1);
        assert(s.insert(j, v) =~= seq![s[0]] + t.insert(j - 1, v));
    }
}

/// Sorts versions highest first; equal versions keep their order.
pub fn sort_descending(v: Vec<Version>) -> (r: Vec<Version>)
    ensures
        views(r@) == sorted_descending(views(v@)),
{
    let mut r: Vec<Version> = Vec::new();
    let mut i: usize = 0;
    while i < v.len()
        invariant
            i <= v.len(),
            views(r@) == sorted_descending(views(v@).subrange(0, i as int)),
        decreases v.len() - i,
    {
        let ghost q = views(v@).subrange(0, i + 1);
        assert(q.drop_last() =~= views(v@).subrange(0, i as int));
        let x = v[i].duplicate();
        let mut j: usize = 0;
        while j < r.len() && x.compare(&r[j]) != 1
            invariant
                j <= r.len(),
                forall|k: int| 0 <= k < j ==> version_order(x@, #[trigger] views(r@)[k]) != 1,
            decreases r.len() - j,
        {
            j = j + 1;
        }
        proof {
            lemma_insert_at(views(r@), x@, j as int);
        }
        let ghost prev = r@;
        r.insert(j, x);
        assert(views(r@) =~= views(prev).insert(j as int, v@[i as int]@));
        i = i + 1;
    }
    assert(views(v@).subrange(0, i as int) =~= views(v@));
    r
}

proof fn lemma_dedup_empty(s: Seq<VersionView>)
    ensures
        dedup_views(s).len() == 0 <==> s.len() == 0,
    decreases s.len(),
{
    if s.len() > 1 {
        lemma_dedup_empty(s.drop_last());
    }
}

/// Drops each version equal to the one kept before it.
pub fn dedup_adjacent(v: Vec<Version>) -> (r: Vec<Version>)
    ensures
        views(r@) == dedup_views(views(v@)),
{
    let mut r: Vec<Version> = Vec::new();
    let mut i: usize = 0;
    while i < v.len()
        invariant
            i <= v.len(),
            views(r@) == dedup_views(views(v@).subrange(0, i as int)),
        decreases v.len() - i,
    {
        let ghost q = views(v@).subrange(0, i + 1);
        assert(q.drop_last() =~= views(v@).subrange(0, i as int));
        let ghost prev = r@;
        proof {
            lemma_dedup_empty(views(v@).subrange(0, i as int));
        }
        if r.len() == 0 {
            r.push(v[i].duplicate());
            assert(q =~= seq![v@[i as int]@]);
        } else if !r[r.len() - 1].same_as(&v[i]) {
            r.push(v[i].duplicate());
            assert(views(r@) =~= views(prev).push(v@[i as int]@));
        }
        i = i + 1;
    }
    assert(views(v@).subrange(0, i as int) =~= views(v@));
    r
}


/// A list non-increasing in `major.minor.patch`.
pub open spec fn numbers_descending(s: Seq<VersionView>) -> bool {
    forall|i: int, j: int| 0 <= i < j < s.len() ==> triple_le(#[trigger] s[j], #[trigger] s[i])
}

proof fn lemma_insert_members(t: Seq<VersionView>, v: VersionView)
    ensures
        insert_descending(t, v).len() == t.len() + 1,
        forall|x: VersionView| #[trigger] insert_descending(t, v).contains(x) <==> (x == v || t.contains(x)),
    decreases t.len(),
{
    if t.len() > 0 && version_order(v, t[0]) != 1 {
        lemma_insert_members(t.drop_first(), v);
        let r = insert_descending(t, v);
        let q = insert_descending(t.drop_first(), v);
        assert(r == seq![t[0]] + q);
        assert forall|x: VersionView| #[trigger] r.contains(x) <==> (x == v || t.contains(x)) by {
            if r.contains(x) {
                let i = choose|i: int| 0 <= i < r.len() && r[i] == x;
                if i > 0 {
                    assert(q[i - 1] == x);
                    assert(q.contains(x));
                    if x != v {
                        assert(t.drop_first().contains(x));
                        let j = choose|j: int| 0 <= j < t.drop_first().len() && t.drop_first()[j] == x;
                        assert(t[j + 1] == x);
                    }
                }
            }
            if x == v {
                assert(q.contains(v));
                let i = choose|i: int| 0 <= i < q.len() && q[i] == v;
                assert(r[i + 1] == v);
            } else if t.contains(x) {
                let j = choose|j: int| 0 <= j < t.len() && t[j] == x;
                if j > 0 {
                    assert(t.drop_first()[j - 1] == x);
                    assert(q.contains(x));
                    let i = choose|i: int| 0 <= i < q.len() && q[i] == x;
                    assert(r[i + 1] == x);
                } else {
                    assert(r[0] == x);
                }
            }
        }
    } else if t.len() > 0 {
        let r = insert_descending(t, v);
        assert(r == seq![v] + t);
        assert forall|x: VersionView| #[trigger] r.contains(x) <==> (x == v || t.contains(x)) by {
            if r.contains(x) {
                let i = choose|i: int| 0 <= i < r.len() && r[i] == x;
                if i > 0 {
                    assert(t[i - 1] == x);
                }
            }
            if t.contains(x) {
                let j = choose|j: int| 0 <= j < t.len() && t[j] == x;
                assert(r[j + 1] == x);
            }
            if x == v {
                assert(r[0] == x);
            }
        }
    } else {
        let r = insert_descending(t, v);
        assert forall|x: VersionView| #[trigger] r.contains(x) <==> (x == v || t.contains(x)) by {
            if x == v {
                assert(r[0] == x);
            }
        }
    }
}

proof fn lemma_insert_keeps_order(t: Seq<VersionView>, v: VersionView)
    requires
        numbers_descending(t),
    ensures
        numbers_descending(insert_descending(t, v)),
    decreases t.len(),
{
    let r = insert_descending(t, v);
    if t.len() == 0 {
    } else if version_order(v, t[0]) == 1 {
        lemma_version_order_triple(v, t[0]);
        assert(r == seq![v] + t);
        assert forall|i: int, j: int| 0 <= i < j < r.len() implies triple_le(#[trigger] r[j], #[trigger] r[i]) by {
            if i == 0 {
                assert(r[j] == t[j - 1]);
                if j - 1 > 0 {
                    assert(triple_le(t[j - 1], t[0]));
                }
            } else {
                assert(r[i] == t[i - 1] && r[j] == t[j - 1]);
            }
        }
    } else {
        lemma_version_order_triple(v, t[0]);
        let rest = t.drop_first();
        assert(numbers_descending(rest)) by {
            assert forall|i: int, j: int| 0 <= i < j < rest.len() implies triple_le(#[trigger] rest[j], #[trigger] rest[i]) by {
                assert(rest[i] == t[i + 1] && rest[j] == t[j + 1]);
            }
        }
        lemma_insert_keeps_order(rest, v);
        lemma_insert_members(rest, v);
        let q = insert_descending(rest, v);
        assert(r == seq![t[0]] + q);
        assert forall|i: int, j: int| 0 <= i < j < r.len() implies triple_le(#[trigger] r[j], #[trigger] r[i]) by {
            if i == 0 {
                let x = r[j];
                assert(q[j - 1] == x);
                assert(q.contains(x));
                if x != v {
                    let k = choose|k: int| 0 <= k < rest.len() && rest[k] == x;
                    assert(t[k + 1] == x);
                    assert(triple_le(t[k + 1], t[0]));
                }
            } else {
                assert(r[i] == q[i - 1] && r[j] == q[j - 1]);
            }
        }
    }
}

/// Sorting highest first keeps every version and orders them by
/// `major.minor.patch`, highest first.
pub proof fn lemma_sorted_descending(s: Seq<VersionView>)
    ensures
        numbers_descending(sorted_descending(s)),
        sorted_descending(s).len() == s.len(),
        forall|x: VersionView| #[trigger] sorted_descending(s).contains(x) <==> s.contains(x),
    decreases s.len(),
{
    if s.len() > 0 {
        let p = s.drop_last();
        lemma_sorted_descending(p);
        lemma_insert_keeps_order(sorted_descending(p), s.last());
        lemma_insert_members(sorted_descending(p), s.last());
        assert forall|x: VersionView| #[trigger] sorted_descending(s).contains(x) <==> s.contains(x) by {
            if s.contains(x) && x != s.last() {
                let i = choose|i: int| 0 <= i < s.len() && s[i] == x;
                assert(p[i] == x);
                assert(p.contains(x));
            }
            if p.contains(x) {
                let i = choose|i: int| 0 <= i < p.len() && p[i] == x;
                assert(s[i] == x);
            }
            if x == s.last() {
                assert(s[s.len() - 1] == x);
            }
        }
    }
}

/// Dropping repeats leaves no two neighbours equal, keeps only versions of
/// the list, and keeps a list sorted by `major.minor.patch` sorted.
pub proof fn lemma_dedup_views(s: Seq<VersionView>)
    ensures
        forall|i: int| 0 <= i < dedup_views(s).len() - 1 ==> #[trigger] dedup_views(s)[i] != dedup_views(s)[i + 1],
        forall|x: VersionView| #[trigger] dedup_views(s).contains(x) ==> s.contains(x),
        forall|x: VersionView| #[trigger] s.contains(x) ==> dedup_views(s).contains(x),
        numbers_descending(s) ==> numbers_descending(dedup_views(s)),
    decreases s.len(),
{
    if s.len() > 1 {
        let p = s.drop_last();
        lemma_dedup_views(p);
        let d = dedup_views(p);
        lemma_dedup_empty(p);
        let r = dedup_views(s);
        assert forall|x: VersionView| #[trigger] r.contains(x) implies s.contains(x) by {
            let i = choose|i: int| 0 <= i < r.len() && r[i] == x;
            if i < d.len() {
                assert(d[i] == x);
                assert(d.contains(x));
                let j = choose|j: int| 0 <= j < p.len() && p[j] == x;
                assert(s[j] == x);
            } else {
                assert(x == s.last());
                assert(s[s.len() - 1] == x);
            }
        }
        assert forall|x: VersionView| #[trigger] s.contains(x) implies r.contains(x) by {
            let i = choose|i: int| 0 <= i < s.len() && s[i] == x;
            if i < p.len() {
                assert(p[i] == x);
                assert(p.contains(x));
                assert(d.contains(x));
                let j = choose|j: int| 0 <= j < d.len() && d[j] == x;
                assert(r[j] == x);
            } else if d.last() == s.last() {
                assert(d[d.len() - 1] == x);
                assert(r[d.len() - 1] == x);
            } else {
                assert(r[r.len() - 1] == x);
            }
        }
        assert forall|i: int| 0 <= i < r.len() - 1 implies #[trigger] r[i] != r[i + 1] by {
            if d.last() != s.last() && i == r.len() - 2 {
                assert(r[i] == d.last());
            } else {
                assert(r[i] == d[i] && r[i + 1] == d[i + 1]);
            }
        }
        if numbers_descending(s) {
            assert(numbers_descending(p)) by {
                assert forall|i: int, j: int| 0 <= i < j < p.len() implies triple_le(#[trigger] p[j], #[trigger] p[i]) by {
                    assert(p[i] == s[i] && p[j] == s[j]);
                }
            }
            assert forall|i: int, j: int| 0 <= i < j < r.len() implies triple_le(#[trigger] r[j], #[trigger] r[i]) by {
                if d.last() != s.last() && j == r.len() - 1 {
                    assert(r[i] == d[i]);
                    assert(d.contains(d[i]));
                    let k = choose|k: int| 0 <= k < p.len() && p[k] == d[i];
                    assert(s[k] == d[i]);
                    assert(triple_le(s[s.len() - 1], s[k]));
                } else {
                    assert(r[i] == d[i] && r[j] == d[j]);
                }
            }
        }
    }
}
/// On versions whose texts `semver` accepts, `version_order` is a total
/// order: it answers `-1`, `0` or `1`, swapping negates it, it answers `0`
/// only for equal versions, and "at most" is transitive.
pub proof fn lemma_version_order_total(a: VersionView, b: VersionView, c: VersionView)
    requires
        version_valid(a),
        version_valid(b),
        version_valid(c),
    ensures
        -1 <= version_order(a, b) <= 1,
        version_order(a, b) == -version_order(b, a),
        version_order(a, b) == 0 <==> a == b,
        version_order(a, b) <= 0 && version_order(b, c) <= 0 ==> version_order(a, c) <= 0,
{
    crate::precedence::lemma_pre_precedence_total(a.3, b.3, c.3);
    crate::precedence::lemma_pre_precedence_total(b.3, c.3, a.3);
    crate::precedence::lemma_pre_precedence_total(a.3, c.3, b.3);
    crate::precedence::lemma_build_precedence_total(a.4, b.4, c.4);
    crate::precedence::lemma_build_precedence_total(b.4, c.4, a.4);
    crate::precedence::lemma_build_precedence_total(a.4, c.4, b.4);
}

/// Whether every version of a list has texts `semver` accepts.
pub open spec fn all_valid(c: Seq<VersionView>) -> bool {
    forall|i: int| 0 <= i < c.len() ==> version_valid(#[trigger] c[i])
}

/// Resolution picks the greatest matching candidate in the full `semver`
/// order (numbers, then pre-release, then build), for candidates that
/// `semver` parsed.
pub proof fn lemma_resolve_is_greatest(s: SpecModel, c: Seq<VersionView>)
    requires
        all_valid(c),
    ensures
        best_index(s, c) != -1 ==> {
            let b = best_index(s, c);
            &&& 0 <= b < c.len()
            &&& forall|i: int| 0 <= i < c.len() && spec_matches(s, #[trigger] c[i]) ==> version_order(c[i], c[b]) <= 0
        },
    decreases c.len(),
{
    if c.len() > 0 {
        let p = c.drop_last();
        assert(all_valid(p)) by {
            assert forall|i: int| 0 <= i < p.len() implies version_valid(#[trigger] p[i]) by {
                assert(p[i] == c[i]);
            }
        }
        lemma_resolve_is_highest(s, p);
        lemma_resolve_is_greatest(s, p);
        lemma_resolve_is_highest(s, c);
        let prev = best_index(s, p);
        let last = c.len() - 1;
        assert forall|i: int| 0 <= i < last implies c[i] == p[i] by {}
        let b = best_index(s, c);
        if b != -1 {
            assert forall|i: int| 0 <= i < c.len() && spec_matches(s, #[trigger] c[i]) implies version_order(c[i], c[b]) <= 0 by {
                lemma_version_order_total(c[i], c[b], c[b]);
                if prev != -1 {
                    lemma_version_order_total(c[i], c[prev], c[last]);
                    lemma_version_order_total(c[last], c[prev], c[i]);
                }
            }
        }
    }
}

/// Whether a list is ordered highest first in `version_order`.
pub open spec fn order_descending(s: Seq<VersionView>) -> bool {
    forall|i: int, j: int| 0 <= i < j < s.len() ==> version_order(#[trigger] s[j], #[trigger] s[i]) <= 0
}

proof fn lemma_insert_in_order(t: Seq<VersionView>, v: VersionView)
    requires
        order_descending(t),
        all_valid(t),
        version_valid(v),
    ensures
        order_descending(insert_descending(t, v)),
        all_valid(insert_descending(t, v)),
    decreases t.len(),
{
    let r = insert_descending(t, v);
    lemma_insert_members(t, v);
    assert forall|k: int| 0 <= k < r.len() implies version_valid(#[trigger] r[k]) by {
        assert(r.contains(r[k]));
        if r[k] != v {
            let m = choose|m: int| 0 <= m < t.len() && t[m] == r[k];
        }
    }
    if t.len() == 0 {
    } else if version_order(v, t[0]) == 1 {
        assert(r == seq![v] + t);
        assert forall|i: int, j: int| 0 <= i < j < r.len() implies version_order(#[trigger] r[j], #[trigger] r[i]) <= 0 by {
            if i == 0 {
                lemma_version_order_total(t[j - 1], t[0], v);
                lemma_version_order_total(v, t[0], t[0]);
                if j - 1 > 0 {
                    assert(version_order(t[j - 1], t[0]) <= 0);
                } else {
                    lemma_version_order_total(t[0], t[0], t[0]);
                }
            } else {
                assert(r[i] == t[i - 1] && r[j] == t[j - 1]);
            }
        }
    } else {
        let rest = t.drop_first();
        assert(order_descending(rest)) by {
            assert forall|i: int, j: int| 0 <= i < j < rest.len() implies version_order(#[trigger] rest[j], #[trigger] rest[i]) <= 0 by {
                assert(rest[i] == t[i + 1] && rest[j] == t[j + 1]);
            }
        }
        assert(all_valid(rest)) by {
            assert forall|i: int| 0 <= i < rest.len() implies version_valid(#[trigger] rest[i]) by {
                assert(rest[i] == t[i + 1]);
            }
        }
        lemma_insert_in_order(rest, v);
        lemma_insert_members(rest, v);
        let q = insert_descending(rest, v);
        assert(r == seq![t[0]] + q);
        assert forall|i: int, j: int| 0 <= i < j < r.len() implies version_order(#[trigger] r[j], #[trigger] r[i]) <= 0 by {
            if i == 0 {
                let x = q[j - 1];
                assert(q.contains(x));
                if x == v {
                    lemma_version_order_total(v, t[0], t[0]);
                } else {
                    let m = choose|m: int| 0 <= m < rest.len() && rest[m] == x;
                    assert(t[m + 1] == x);
                }
            } else {
                assert(r[i] == q[i - 1] && r[j] == q[j - 1]);
            }
        }
    }
}

/// Sorting highest first orders versions that `semver` parsed in the full
/// `semver` order.
pub proof fn lemma_sorted_in_order(s: Seq<VersionView>)
    requires
        all_valid(s),
    ensures
        order_descending(sorted_descending(s)),
        all_valid(sorted_descending(s)),
    decreases s.len(),
{
    if s.len() > 0 {
        let p = s.drop_last();
        assert(all_valid(p)) by {
            assert forall|i: int| 0 <= i < p.len() implies version_valid(#[trigger] p[i]) by {
                assert(p[i] == s[i]);
            }
        }
        lemma_sorted_in_order(p);
        lemma_insert_in_order(sorted_descending(p), s.last());
    }
}

/// Whether a list is strictly descending in `version_order`.
pub open spec fn strictly_descending(s: Seq<VersionView>) -> bool {
    forall|i: int, j: int| 0 <= i < j < s.len() ==> version_order(#[trigger] s[j], #[trigger] s[i]) == -1
}

proof fn lemma_dedup_last_below(s: Seq<VersionView>, e: Seq<VersionView>, i: int)
    requires
        order_descending(s),
        all_valid(s),
        s.len() > 1,
        strictly_descending(e),
        e.len() > 0,
        forall|x: VersionView| #[trigger] e.contains(x) ==> s.drop_last().contains(x),
        e.last() != s.last(),
        0 <= i < e.len(),
    ensures
        version_order(s.last(), e[i]) == -1,
{
    let p = s.drop_last();
    let el = e[e.len() - 1];
    assert(e.contains(el));
    let m2 = choose|m: int| 0 <= m < p.len() && p[m] == el;
    assert(s[m2] == el);
    assert(version_order(s[s.len() - 1], s[m2]) <= 0);
    assert(e.contains(e[i]));
    let m1 = choose|m: int| 0 <= m < p.len() && p[m] == e[i];
    assert(s[m1] == e[i]);
    assert(version_valid(s[m1]) && version_valid(s[m2]) && version_valid(s[s.len() - 1]));
    let x = s.last();
    assert(x == s[s.len() - 1]);
    assert(version_order(x, el) <= 0);
    assert(x != el);
    lemma_version_order_total(x, el, e[i]);
    lemma_version_order_total(el, x, e[i]);
    lemma_version_order_total(x, e[i], el);
    assert(version_order(x, el) != 0);
    if i < e.len() - 1 {
        assert(version_order(e[e.len() - 1], e[i]) == -1);
        assert(version_order(x, e[i]) <= 0);
        if version_order(x, e[i]) == 0 {
            assert(x == e[i]);
            assert(version_order(el, x) == -1);
        }
    } else {
        assert(e[i] == el);
    }
}

/// Dropping repeats from a list ordered highest first leaves it strictly
/// descending in the full `semver` order.
pub proof fn lemma_dedup_strictly_descending(s: Seq<VersionView>)
    requires
        order_descending(s),
        all_valid(s),
    ensures
        strictly_descending(dedup_views(s)),
    decreases s.len(),
{
    lemma_dedup_views(s);
    let d = dedup_views(s);
    if s.len() > 1 {
        let p = s.drop_last();
        assert(order_descending(p)) by {
            assert forall|i: int, j: int| 0 <= i < j < p.len() implies version_order(#[trigger] p[j], #[trigger] p[i]) <= 0 by {
                assert(p[i] == s[i] && p[j] == s[j]);
            }
        }
        assert(all_valid(p)) by {
            assert forall|i: int| 0 <= i < p.len() implies version_valid(#[trigger] p[i]) by {
                assert(p[i] == s[i]);
            }
        }
        lemma_dedup_strictly_descending(p);
        lemma_dedup_views(p);
        let e = dedup_views(p);
        lemma_dedup_empty(p);
        if e.last() != s.last() {
            assert(d == e.push(s.last()));
            assert forall|i: int, j: int| 0 <= i < j < d.len() implies version_order(#[trigger] d[j], #[trigger] d[i]) == -1 by {
                if j < e.len() {
                    assert(d[i] == e[i] && d[j] == e[j]);
                } else {
                    assert(d[i] == e[i]);
                    lemma_dedup_last_below(s, e, i);
                }
            }
        }
    }
}

/// Every character of a valid pre-release or build text is an identifier
/// character or a dot.
proof fn lemma_valid_chars(s: Seq<char>, pre: bool)
    requires
        if pre { pre_valid(s) } else { build_valid(s) },
    ensures
        forall|i: int| 0 <= i < s.len() ==> crate::precedence::ident_char(#[trigger] s[i]) || s[i] == '.',
{
    if s.len() > 0 {
        crate::precedence::lemma_dot_fields_join(s);
        lemma_join_chars(crate::precedence::dot_fields(s), pre);
    }
}

proof fn lemma_join_chars(f: Seq<Seq<char>>, pre: bool)
    requires
        forall|k: int| 0 <= k < f.len() ==> crate::precedence::ident_ok(#[trigger] f[k], pre),
    ensures
        forall|i: int| 0 <= i < crate::precedence::join_dots(f).len() ==> crate::precedence::ident_char(
            #[trigger] crate::precedence::join_dots(f)[i],
        ) || crate::precedence::join_dots(f)[i] == '.',
    decreases f.len(),
{
    let j = crate::precedence::join_dots(f);
    if f.len() == 1 {
        assert(crate::precedence::ident_ok(f[0], pre));
    } else if f.len() > 1 {
        let t = f.drop_first();
        assert forall|k: int| 0 <= k < t.len() implies crate::precedence::ident_ok(#[trigger] t[k], pre) by {
            assert(t[k] == f[k + 1]);
        }
        lemma_join_chars(t, pre);
        let jt = crate::precedence::join_dots(t);
        assert(crate::precedence::ident_ok(f[0], pre));
        assert(j == f[0] + seq!['.'] + jt);
        assert forall|i: int| 0 <= i < j.len() implies crate::precedence::ident_char(#[trigger] j[i]) || j[i] == '.' by {
            if i < f[0].len() {
                assert(j[i] == f[0][i]);
            } else if i > f[0].len() {
                assert(j[i] == jt[i - f[0].len() - 1]);
            }
        }
    }
}

/// The text of an exact specifier reads back as the same specifier, for
/// every version whose texts `semver` accepts.
pub proof fn lemma_exact_text_reads_back(v: VersionView)
    requires
        version_valid(v),
    ensures
        spec_parse(spec_text(SpecModel::Exact(v))) == Ok::<SpecModel, Seq<char>>(SpecModel::Exact(v)),
{
    lemma_printed_version_of(v);
    reveal_strlit("latest");
    let a = decimal(v.0 as nat);
    let b = decimal(v.1 as nat);
    let c = decimal(v.2 as nat);
    lemma_decimal_digits(v.0 as nat);
    lemma_decimal_digits(v.1 as nat);
    lemma_decimal_digits(v.2 as nat);
    let core = a + seq!['.'] + b + seq!['.'] + c;
    let t = version_text(v);
    let with_pre = if v.3.len() == 0 { core } else { core + seq!['-'] + v.3 };
    assert(t == (if v.4.len() == 0 { with_pre } else { with_pre + seq!['+'] + v.4 }));
    assert(t[0] == a[0]);
    assert(is_digit(a[0]));
    lemma_valid_chars(v.3, true);
    lemma_valid_chars(v.4, false);
    assert(!crate::text::is_ws(t.last())) by {
        if v.4.len() > 0 {
            assert(t.last() == v.4[v.4.len() - 1]);
        } else if v.3.len() > 0 {
            assert(t.last() == v.3[v.3.len() - 1]);
        } else {
            assert(t.last() == c[c.len() - 1]);
            assert(is_digit(c[c.len() - 1]));
        }
    }
    lemma_trim_noop(t);
    assert(!eq_ignore_ascii_case(t, "latest"@)) by {
        if t.len() == 6 {
            assert(crate::text::ascii_lower(t[0]) != crate::text::ascii_lower("latest"@[0]));
        }
    }
    assert(has_two_dots(t)) by {
        assert(t[a.len() as int] == '.');
        assert(t[(a.len() + 1 + b.len()) as int] == '.');
    }
}

/// A printed version text holds two dots.
proof fn lemma_version_text_two_dots(v: VersionView)
    ensures
        has_two_dots(version_text(v)),
{
    let a = decimal(v.0 as nat);
    let b = decimal(v.1 as nat);
    let t = version_text(v);
    let core = a + seq!['.'] + b + seq!['.'] + decimal(v.2 as nat);
    let with_pre = if v.3.len() == 0 { core } else { core + seq!['-'] + v.3 };
    assert(t == (if v.4.len() == 0 { with_pre } else { with_pre + seq!['+'] + v.4 }));
    assert(t[a.len() as int] == '.');
    assert(t[(a.len() + 1 + b.len()) as int] == '.');
}

/// A text that is some version's printed text holds two dots.
proof fn lemma_printed_has_two_dots(t: Seq<char>)
    ensures
        printed_version(t) is Some ==> has_two_dots(t),
{
    if printed_version(t) is Some {
        let v = choose|v: VersionView| version_valid(v) && version_text(v) == t;
        lemma_version_text_two_dots(v);
    }
}

/// Splitting two texts at their first character outside a class: equal
/// texts made of a run of class characters followed by a rest that does
/// not start with one have equal runs and equal rests.
proof fn lemma_split_run(p1: Seq<char>, r1: Seq<char>, p2: Seq<char>, r2: Seq<char>, ok: spec_fn(char) -> bool)
    requires
        p1 + r1 == p2 + r2,
        forall|i: int| 0 <= i < p1.len() ==> ok(#[trigger] p1[i]),
        forall|i: int| 0 <= i < p2.len() ==> ok(#[trigger] p2[i]),
        r1.len() > 0 ==> !ok(r1[0]),
        r2.len() > 0 ==> !ok(r2[0]),
    ensures
        p1 == p2,
        r1 == r2,
{
    let t = p1 + r1;
    if p1.len() < p2.len() {
        assert(t[p1.len() as int] == (p2 + r2)[p1.len() as int]);
        assert((p2 + r2)[p1.len() as int] == p2[p1.len() as int]);
        assert(t[p1.len() as int] == r1[0]);
    } else if p2.len() < p1.len() {
        assert(t[p2.len() as int] == p1[p2.len() as int]);
        assert((p2 + r2)[p2.len() as int] == r2[0]);
    } else {
        assert(p1 =~= t.subrange(0, p1.len() as int));
        assert(p2 =~= (p2 + r2).subrange(0, p2.len() as int));
        assert(r1 =~= t.subrange(p1.len() as int, t.len() as int));
        assert(r2 =~= (p2 + r2).subrange(p2.len() as int, t.len() as int));
    }
}

/// The part of a printed version after its numbers.
pub open spec fn text_tail(v: VersionView) -> Seq<char> {
    (if v.3.len() == 0 { Seq::empty() } else { seq!['-'] + v.3 }) + (if v.4.len() == 0 {
        Seq::empty()
    } else {
        seq!['+'] + v.4
    })
}

proof fn lemma_tail_split(v: VersionView, w: VersionView)
    requires
        version_valid(v),
        version_valid(w),
        text_tail(v) == text_tail(w),
    ensures
        v.3 == w.3,
        v.4 == w.4,
{
    let bv: Seq<char> = if v.4.len() == 0 { Seq::empty() } else { seq!['+'] + v.4 };
    let bw: Seq<char> = if w.4.len() == 0 { Seq::empty() } else { seq!['+'] + w.4 };
    let tv = text_tail(v);
    let tw = text_tail(w);
    if v.3.len() > 0 && w.3.len() > 0 {
        lemma_valid_chars(v.3, true);
        lemma_valid_chars(w.3, true);
        assert(tv.drop_first() =~= v.3 + bv);
        assert(tw.drop_first() =~= w.3 + bw);
        let notplus = |c: char| c != '+';
        assert forall|i: int| 0 <= i < v.3.len() implies notplus(#[trigger] v.3[i]) by {}
        assert forall|i: int| 0 <= i < w.3.len() implies notplus(#[trigger] w.3[i]) by {}
        lemma_split_run(v.3, bv, w.3, bw, notplus);
    } else if v.3.len() > 0 {
        assert(tv[0] == '-');
        assert(tw =~= bw);
        if bw.len() > 0 {
            assert(tw[0] == '+');
        }
    } else if w.3.len() > 0 {
        assert(tw[0] == '-');
        assert(tv =~= bv);
        if bv.len() > 0 {
            assert(tv[0] == '+');
        }
    } else {
        assert(tv =~= bv);
        assert(tw =~= bw);
        assert(v.3 =~= w.3);
    }
    if bv.len() > 0 && bw.len() > 0 {
        assert(bv.drop_first() =~= v.4);
        assert(bw.drop_first() =~= w.4);
    } else if bv.len() == 0 && bw.len() == 0 {
        assert(v.4 =~= w.4);
    }
}

proof fn lemma_text_parts(v: VersionView)
    ensures
        version_text(v) == decimal(v.0 as nat) + (seq!['.'] + (decimal(v.1 as nat) + (seq!['.'] + (
            decimal(v.2 as nat) + text_tail(v))))),
        forall|i: int| 0 <= i < decimal(v.0 as nat).len() ==> is_digit(#[trigger] decimal(v.0 as nat)[i]),
        forall|i: int| 0 <= i < decimal(v.1 as nat).len() ==> is_digit(#[trigger] decimal(v.1 as nat)[i]),
        forall|i: int| 0 <= i < decimal(v.2 as nat).len() ==> is_digit(#[trigger] decimal(v.2 as nat)[i]),
        text_tail(v).len() > 0 ==> (text_tail(v)[0] == '-' || text_tail(v)[0] == '+'),
{
    lemma_decimal_digits(v.0 as nat);
    lemma_decimal_digits(v.1 as nat);
    lemma_decimal_digits(v.2 as nat);
    assert(version_text(v) =~= decimal(v.0 as nat) + (seq!['.'] + (decimal(v.1 as nat) + (seq!['.'] + (
        decimal(v.2 as nat) + text_tail(v))))));
}

proof fn lemma_decimal_injective(m: nat, n: nat)
    requires
        decimal(m) == decimal(n),
    ensures
        m == n,
{
    lemma_decimal_digits(m);
    lemma_decimal_digits(n);
}

/// Different versions whose texts `semver` accepts print differently.
#[verifier::rlimit(40)]
proof fn lemma_version_text_injective(v: VersionView, w: VersionView)
    requires
        version_valid(v),
        version_valid(w),
        version_text(v) == version_text(w),
    ensures
        v == w,
{
    let av = decimal(v.0 as nat);
    let bv = decimal(v.1 as nat);
    let cv = decimal(v.2 as nat);
    let aw = decimal(w.0 as nat);
    let bw = decimal(w.1 as nat);
    let cw = decimal(w.2 as nat);
    lemma_text_parts(v);
    lemma_text_parts(w);
    let digit = |c: char| is_digit(c);
    let tlv = text_tail(v);
    let tlw = text_tail(w);
    let r2v = seq!['.'] + (cv + tlv);
    let r2w = seq!['.'] + (cw + tlw);
    let r1v = seq!['.'] + (bv + r2v);
    let r1w = seq!['.'] + (bw + r2w);
    assert(av + r1v == aw + r1w);
    assert(forall|i: int| 0 <= i < av.len() ==> digit(#[trigger] av[i]));
    assert(forall|i: int| 0 <= i < aw.len() ==> digit(#[trigger] aw[i]));
    lemma_split_run(av, r1v, aw, r1w, digit);
    assert(bv + r2v == bw + r2w) by {
        assert(r1v.drop_first() =~= bv + r2v);
        assert(r1w.drop_first() =~= bw + r2w);
    }
    assert(forall|i: int| 0 <= i < bv.len() ==> digit(#[trigger] bv[i]));
    assert(forall|i: int| 0 <= i < bw.len() ==> digit(#[trigger] bw[i]));
    lemma_split_run(bv, r2v, bw, r2w, digit);
    assert(cv + tlv == cw + tlw) by {
        assert(r2v.drop_first() =~= cv + tlv);
        assert(r2w.drop_first() =~= cw + tlw);
    }
    assert(forall|i: int| 0 <= i < cv.len() ==> digit(#[trigger] cv[i]));
    assert(forall|i: int| 0 <= i < cw.len() ==> digit(#[trigger] cw[i]));
    lemma_split_run(cv, tlv, cw, tlw, digit);
    lemma_tail_split(v, w);
    lemma_decimal_injective(v.0 as nat, w.0 as nat);
    lemma_decimal_injective(v.1 as nat, w.1 as nat);
    lemma_decimal_injective(v.2 as nat, w.2 as nat);
}

/// A version whose texts `semver` accepts is the version its printed text
/// stands for.
pub proof fn lemma_printed_version_of(v: VersionView)
    requires
        version_valid(v),
    ensures
        printed_version(version_text(v)) == Some(v),
{
    let t = version_text(v);
    assert(version_valid(v) && version_text(v) == t);
    let u = choose|u: VersionView| version_valid(u) && version_text(u) == t;
    lemma_version_text_injective(u, v);
}

} // verus!

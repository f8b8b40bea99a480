//! Command-line values: tool specifiers, durations and the parsed command
//! line itself.

use vstd::prelude::*;

use crate::text::{
    chars_of, parse_u64, parse_u64_spec, push_all, push_decimal, push_str, slice_chars,
    split_once, split_once_chars, string_of, trim, trim_chars,
};
use crate::text::decimal;
use crate::provider::ProviderError;
use crate::version::{SpecModel, VersionSpec, spec_parse};

verus! {

/// A tool specifier: `name` or `name@version`.
#[derive(Debug, Clone, PartialEq, Eq)]
pub struct ToolSpec {
    pub name: String,
    pub version: Option<String>,
}

/// The view of an optional string.
pub open spec fn opt_str(o: Option<String>) -> Option<Seq<char>> {
    match o {
        Some(s) => Some(s@),
        None => None,
    }
}

impl View for ToolSpec {
    type V = (Seq<char>, Option<Seq<char>>);

    open spec fn view(&self) -> (Seq<char>, Option<Seq<char>>) {
        (self.name@, opt_str(self.version))
    }
}

/// How a text reads as a tool specifier: surrounding whitespace is
/// ignored; an empty text is refused; `name@version` needs both parts;
/// otherwise the whole text is the name.
pub open spec fn tool_spec_parse(raw: Seq<char>) -> Result<(Seq<char>, Option<Seq<char>>), Seq<char>> {
    let s = trim(raw);
    if s.len() == 0 {
        Err("tool spec cannot be empty"@)
    } else {
        match split_once(s, '@') {
            Some((n, v)) => if n.len() == 0 {
                Err("missing tool name in `"@ + s + "`"@)
            } else if v.len() == 0 {
                Err("missing version after `@` in `"@ + s + "`"@)
            } else {
                Ok((n, Some(v)))
            },
            None => Ok((s, None)),
        }
    }
}

/// The text of a tool specifier: `name@version`, or `name`.
pub open spec fn tool_spec_text(t: (Seq<char>, Option<Seq<char>>)) -> Seq<char> {
    match t.1 {
        Some(v) => t.0 + "@"@ + v,
        None => t.0,
    }
}

impl ToolSpec {
    /// Reads a tool specifier (see [`tool_spec_parse`]).
    pub fn parse(s: &str) -> (r: Result<ToolSpec, String>)
        ensures
            match r {
                Ok(t) => tool_spec_parse(s@) == Ok::<(Seq<char>, Option<Seq<char>>), Seq<char>>(t@),
                Err(e) => tool_spec_parse(s@) == Err::<(Seq<char>, Option<Seq<char>>), Seq<char>>(e@),
            },
    {
        let t = trim_chars(&chars_of(s));
        if t.len() == 0 {
            return Err(crate::provider::owned("tool spec cannot be empty"));
        }
        match split_once_chars(&t, '@') {
            Some((n, v)) => {
                if n.len() == 0 {
                    let mut m: Vec<char> = Vec::new();
                    push_str(&mut m, "missing tool name in `");
                    push_all(&mut m, &t);
                    push_str(&mut m, "`");
                    Err(string_of(&m))
                } else if v.len() == 0 {
                    let mut m: Vec<char> = Vec::new();
                    push_str(&mut m, "missing version after `@` in `");
                    push_all(&mut m, &t);
                    push_str(&mut m, "`");
                    Err(string_of(&m))
                } else {
                    Ok(ToolSpec { name: string_of(&n), version: Some(string_of(&v)) })
                }
            },
            None => Ok(ToolSpec { name: string_of(&t), version: None }),
        }
    }

    /// The text of this specifier.
    pub fn to_string(&self) -> (r: String)
        ensures
            r@ == tool_spec_text(self@),
    {
        match &self.version {
            Some(v) => {
                let mut m = chars_of(self.name.as_str());
                push_str(&mut m, "@");
                push_str(&mut m, v.as_str());
                string_of(&m)
            },
            None => string_of(&chars_of(self.name.as_str())),
        }
    }

    /// The version specifier this tool specifier asks for: none means
    /// `latest`; a text that is no valid specifier fails the resolution of
    /// this tool, with the specifier's own message.
    pub fn version_spec(&self) -> (r: Result<VersionSpec, ProviderError>)
        ensures
            match self.version {
                None => r matches Ok(s) && s@ == SpecModel::Latest,
                Some(v) => match spec_parse(v@) {
                    Ok(m) => r matches Ok(s) && s@ == m,
                    Err(e) => r matches Err(ProviderError::ResolutionFailed { tool: t, reason: x })
                        && t@ == self.name@ && x@ == e,
                },
            },
    {
        match &self.version {
            None => Ok(VersionSpec::Latest),
            Some(v) => match VersionSpec::parse(v.as_str()) {
                Ok(s) => Ok(s),
                Err(e) => Err(ProviderError::ResolutionFailed { tool: crate::provider::owned(self.name.as_str()), reason: e }),
            },
        }
    }

    /// A copy of this specifier.
    pub fn duplicate(&self) -> (r: ToolSpec)
        ensures
            r@ == self@,
    {
        ToolSpec {
            name: string_of(&chars_of(self.name.as_str())),
            version: match &self.version {
                Some(v) => Some(string_of(&chars_of(v.as_str()))),
                None => None,
            },
        }
    }
}

impl core::str::FromStr for ToolSpec {
    type Err = String;

    fn from_str(s: &str) -> (r: Result<ToolSpec, String>)
        ensures
            match r {
                Ok(t) => tool_spec_parse(s@) == Ok::<(Seq<char>, Option<Seq<char>>), Seq<char>>(t@),
                Err(e) => tool_spec_parse(s@) == Err::<(Seq<char>, Option<Seq<char>>), Seq<char>>(e@),
            },
    {
        ToolSpec::parse(s)
    }
}

/// A duration in whole days, written like `30d` or `24h`.
#[derive(Debug, Clone, PartialEq, Eq)]
pub struct HumanDuration {
    pub days: u64,
}

/// How a text reads as a duration: surrounding whitespace is ignored; a
/// number of days with suffix `d`, or of hours with suffix `h` (rounded up
/// to whole days); anything else is refused with a message.
pub open spec fn duration_parse(raw: Seq<char>) -> Result<u64, Seq<char>> {
    let s = trim(raw);
    if s.len() == 0 {
        Err("duration cannot be empty"@)
    } else if s.last() == 'd' {
        match parse_u64_spec(s.drop_last()) {
            Some(n) => Ok(n),
            None => Err("invalid number in duration `"@ + s + "`"@),
        }
    } else if s.last() == 'h' {
        match parse_u64_spec(s.drop_last()) {
            Some(h) => Ok(((h + 23) / 24) as u64),
            None => Err("invalid number in duration `"@ + s + "`"@),
        }
    } else {
        Err("invalid duration `"@ + s + "`. Use a suffix: d (days) or h (hours). Example: 30d"@)
    }
}

impl HumanDuration {
    /// Reads a duration (see [`duration_parse`]).
    pub fn parse(s: &str) -> (r: Result<HumanDuration, String>)
        ensures
            match r {
                Ok(d) => duration_parse(s@) == Ok::<u64, Seq<char>>(d.days),
                Err(e) => duration_parse(s@) == Err::<u64, Seq<char>>(e@),
            },
    {
        let t = trim_chars(&chars_of(s));
        if t.len() == 0 {
            return Err(crate::provider::owned("duration cannot be empty"));
        }
        let last = t[t.len() - 1];
        if last == 'd' || last == 'h' {
            let num = slice_chars(&t, 0, t.len() - 1);
            assert(num@ =~= t@.drop_last());
            match parse_u64(&num) {
                Some(n) => {
                    if last == 'd' {
                        Ok(HumanDuration { days: n })
                    } else {
                        let days = n / 24 + if n % 24 == 0 { 0 } else { 1 };
                        assert(days == (n + 23) / 24) by (nonlinear_arith)
                            requires
                                days == n / 24 + if n % 24 == 0 { 0int } else { 1int },
                        ;
                        Ok(HumanDuration { days })
                    }
                },
                None => {
                    let mut m: Vec<char> = Vec::new();
                    push_str(&mut m, "invalid number in duration `");
                    push_all(&mut m, &t);
                    push_str(&mut m, "`");
                    Err(string_of(&m))
                },
            }
        } else {
            let mut m: Vec<char> = Vec::new();
            push_str(&mut m, "invalid duration `");
            push_all(&mut m, &t);
            push_str(&mut m, "`. Use a suffix: d (days) or h (hours). Example: 30d");
            Err(string_of(&m))
        }
    }

    /// The text of this duration: the days followed by `d`.
    pub fn to_string(&self) -> (r: String)
        ensures
            r@ == decimal(self.days as nat) + "d"@,
    {
        let mut m: Vec<char> = Vec::new();
        push_decimal(&mut m, self.days);
        push_str(&mut m, "d");
        string_of(&m)
    }
}

impl core::str::FromStr for HumanDuration {
    type Err = String;

    fn from_str(s: &str) -> (r: Result<HumanDuration, String>)
        ensures
            match r {
                Ok(d) => duration_parse(s@) == Ok::<u64, Seq<char>>(d.days),
                Err(e) => duration_parse(s@) == Err::<u64, Seq<char>>(e@),
            },
    {
        HumanDuration::parse(s)
    }
}

/// The command line: an optional subcommand, the tools (`--with`), the
/// flags, and the command to run (after `--`).
#[derive(Debug)]
pub struct Cli {
    pub command: Option<Command>,
    pub tools: Vec<ToolSpec>,
    pub verbose: bool,
    pub dry_run: bool,
    pub inherit_env: bool,
    pub quiet: bool,
    pub cmd: Vec<String>,
}

/// The subcommands.
#[derive(Debug)]
pub enum Command {
    /// Remove cached tool binaries: of one tool (or of its versions that a
    /// version specifier matches), older than a duration, or all; `yes`
    /// skips the confirmation.
    Clean { tool: Option<ToolSpec>, older_than: Option<HumanDuration>, yes: bool },
    /// List available tools, or cached versions with sizes.
    List { cached: bool, tool: Option<ToolSpec> },
    /// Scaffold a `.runxrc` in the current directory, for the given tools
    /// (or interactively); `force` overwrites an existing one.
    Init { tools: Vec<ToolSpec>, force: bool },
    /// Install a tool globally (or the config's tools), or list what is
    /// installed.
    Install { tool: Option<ToolSpec>, list: bool },
    /// Remove a globally installed tool.
    Uninstall { tool: ToolSpec },
    /// Update cached tools to the latest patch of their release line.
    Update { tool: Option<ToolSpec> },
    /// Manage plugins: `list`, `add <path>`, `remove <name>`.
    Plugin { action: String, arg: Option<String> },
    /// Print shell completions.
    Completions { shell: ShellType },
}

/// The shells completions are generated for.
#[derive(Debug, Clone, Copy, PartialEq, Eq, Structural)]
pub enum ShellType {
    Bash,
    Zsh,
    Fish,
}


/// A tool specifier reads back from its text: for a non-empty name without
/// `@` and a non-empty version (or none), with no whitespace at the ends of
/// the text, parsing `name@version` (or `name`) gives the same specifier.
pub proof fn lemma_tool_spec_reads_back(name: Seq<char>, version: Option<Seq<char>>)
    requires
        name.len() > 0,
        !name.contains('@'),
        !crate::text::is_ws(name[0]),
        match version {
            Some(v) => v.len() > 0 && !crate::text::is_ws(v.last()),
            None => !crate::text::is_ws(name.last()),
        },
    ensures
        tool_spec_parse(tool_spec_text((name, version))) == Ok::<(Seq<char>, Option<Seq<char>>), Seq<char>>((name, version)),
{
    reveal_strlit("@");
    let t = tool_spec_text((name, version));
    match version {
        Some(v) => {
            assert(t == name + seq!['@'] + v);
            assert(t[0] == name[0]);
            assert(t.last() == v.last());
            crate::text::lemma_trim_noop(t);
            crate::text::lemma_split_once_join(name, '@', v);
        },
        None => {
            crate::text::lemma_trim_noop(t);
            crate::text::lemma_first_index(name, '@');
        },
    }
}

/// A duration reads back from its text: `Nd` parses to `N` days.
pub proof fn lemma_duration_reads_back(days: u64)
    ensures
        duration_parse(decimal(days as nat) + "d"@) == Ok::<u64, Seq<char>>(days),
{
    reveal_strlit("d");
    let t = decimal(days as nat) + "d"@;
    crate::text::lemma_decimal_digits(days as nat);
    let d = decimal(days as nat);
    assert(crate::text::is_digit(d[0]));
    assert(t[0] == d[0]);
    assert(t.last() == 'd');
    crate::text::lemma_trim_noop(t);
    assert(t.drop_last() =~= d);
    crate::text::lemma_parse_decimal(days);
}
} // verus!

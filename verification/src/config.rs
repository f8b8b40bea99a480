//! The `.runxrc` configuration: tools and environment defaults read from
//! the nearest config file.

use vstd::prelude::*;

use crate::cli::{ToolSpec, tool_spec_parse};
use crate::provider::{owned, path_join};
use crate::text::{push_str, string_of};

verus! {

/// The config file name.
pub const CONFIG_FILE_NAME: &'static str = ".runxrc";

/// A parsed configuration.
#[derive(Debug, Clone)]
pub struct Config {
    /// The config file that was read (none when no config was found).
    pub source: Option<String>,
    /// Tool specifiers from the config file.
    pub tools: Vec<ToolSpec>,
    /// Whether to inherit the user's full environment.
    pub inherit_env: Option<bool>,
}

impl Default for Config {
    /// No source, no tools, no environment default.
    fn default() -> (r: Config)
        ensures
            r.source is None,
            r.tools@.len() == 0,
            r.inherit_env is None,
    {
        Config { source: None, tools: Vec::new(), inherit_env: None }
    }
}

/// The decoded fields of a config file: `tools` (as `name@version` texts)
/// and `inherit_env`, each optional.
#[derive(Debug, Clone)]
pub struct RawConfig {
    pub tools: Option<Vec<String>>,
    pub inherit_env: Option<bool>,
}

/// Errors of config file operations.
#[derive(Debug, Clone)]
pub enum ConfigError {
    /// The file could not be read.
    Read { path: String, reason: String },
    /// The file is not a valid config (its decoding error given).
    Parse { path: String, reason: String },
    /// A tool specifier in the file is invalid.
    InvalidToolSpec { path: String, reason: String },
}

/// The message each config error displays.
pub open spec fn config_error_text(e: ConfigError) -> Seq<char> {
    match e {
        ConfigError::Read { path, reason } => "failed to read config `"@ + path@ + "`: "@ + reason@,
        ConfigError::Parse { path, reason } => "failed to parse config `"@ + path@ + "`: "@ + reason@,
        ConfigError::InvalidToolSpec { path, reason } => "invalid tool spec in config `"@ + path@ + "`: "@
            + reason@,
    }
}

impl ConfigError {
    /// The message this error displays.
    pub fn to_string(&self) -> (r: String)
        ensures
            r@ == config_error_text(*self),
    {
        let mut m: Vec<char> = Vec::new();
        let (lead, path, reason) = match self {
            ConfigError::Read { path, reason } => ("failed to read config `", path, reason),
            ConfigError::Parse { path, reason } => ("failed to parse config `", path, reason),
            ConfigError::InvalidToolSpec { path, reason } => ("invalid tool spec in config `", path, reason),
        };
        push_str(&mut m, lead);
        push_str(&mut m, path.as_str());
        push_str(&mut m, "`: ");
        push_str(&mut m, reason.as_str());
        string_of(&m)
    }
}

/// The views of tool specifiers.
pub open spec fn tool_views(s: Seq<ToolSpec>) -> Seq<(Seq<char>, Option<Seq<char>>)> {
    s.map_values(|t: ToolSpec| t@)
}

/// The texts of strings.
pub open spec fn str_views(s: Seq<String>) -> Seq<Seq<char>> {
    s.map_values(|t: String| t@)
}

/// The position of the first specifier text that does not parse, or `-1`.
pub open spec fn first_bad_spec(s: Seq<Seq<char>>) -> int
    decreases s.len(),
{
    if s.len() == 0 {
        -1
    } else {
        let prev = first_bad_spec(s.drop_last());
        if prev != -1 {
            prev
        } else if tool_spec_parse(s.last()) is Err {
            s.len() - 1
        } else {
            -1
        }
    }
}

/// The specifiers that texts (all valid) read as.
pub open spec fn parsed_specs(s: Seq<Seq<char>>) -> Seq<(Seq<char>, Option<Seq<char>>)> {
    s.map_values(|x: Seq<char>| tool_spec_parse(x)->Ok_0)
}

/// A prefix with no bad specifier keeps none when extended by a good one.
proof fn lemma_first_bad_extend(s: Seq<Seq<char>>, k: int)
    requires
        0 <= k < s.len(),
        first_bad_spec(s.subrange(0, k)) == -1,
    ensures
        first_bad_spec(s.subrange(0, k + 1)) == (if tool_spec_parse(s[k]) is Err { k } else { -1 }),
{
    assert(s.subrange(0, k + 1).drop_last() =~= s.subrange(0, k));
}

/// Once a prefix holds a bad specifier, the first one stays first.
proof fn lemma_first_bad_prefix(s: Seq<Seq<char>>, k: int)
    requires
        0 < k <= s.len(),
        first_bad_spec(s.subrange(0, k)) != -1,
    ensures
        first_bad_spec(s) == first_bad_spec(s.subrange(0, k)),
    decreases s.len() - k,
{
    if k == s.len() {
        assert(s.subrange(0, k) =~= s);
    } else {
        assert(s.subrange(0, k + 1).drop_last() =~= s.subrange(0, k));
        lemma_first_bad_prefix(s, k + 1);
    }
}

/// What reading the decoded contents of the config file at `path` (or the
/// text of its decoding error) gives: a decoding error is a `Parse` error;
/// else each tool text must be a valid specifier, and the first invalid one
/// is reported; else the configuration holds the file's path, its tools and
/// its environment default.
pub open spec fn parsed_config(path: Seq<char>, decoded: Result<RawConfig, String>, r: Result<Config, ConfigError>) -> bool {
    match decoded {
        Err(e) => r matches Err(ConfigError::Parse { path: p, reason: m }) && p@ == path && m@ == e@,
        Ok(raw) => match raw.tools {
            None => r matches Ok(c) && c.source is Some && c.source->0@ == path
                && c.tools@.len() == 0 && c.inherit_env == raw.inherit_env,
            Some(specs) => {
                let i = first_bad_spec(str_views(specs@));
                if i == -1 {
                    r matches Ok(c) && c.source is Some && c.source->0@ == path
                        && tool_views(c.tools@) == parsed_specs(str_views(specs@))
                        && c.inherit_env == raw.inherit_env
                } else {
                    &&& 0 <= i < specs@.len()
                    &&& r matches Err(ConfigError::InvalidToolSpec { path: p, reason: m })
                        && p@ == path && Err::<(Seq<char>, Option<Seq<char>>), Seq<char>>(m@) == tool_spec_parse(specs@[i]@)
                }
            },
        },
    }
}

/// Reads the decoded contents of the config file at `path` (see
/// [`parsed_config`]).
pub fn parse_config_file(path: &str, decoded: Result<RawConfig, String>) -> (r: Result<Config, ConfigError>)
    ensures
        parsed_config(path@, decoded, r),
{
    match &decoded {
        Err(e) => Err(ConfigError::Parse { path: owned(path), reason: owned(e.as_str()) }),
        Ok(raw) => {
            match &raw.tools {
                None => Ok(Config { source: Some(owned(path)), tools: Vec::new(), inherit_env: raw.inherit_env }),
                Some(specs) => {
                    let ghost texts = str_views(specs@);
                    let mut tools: Vec<ToolSpec> = Vec::new();
                    let mut i: usize = 0;
                    while i < specs.len()
                        invariant
                            i <= specs@.len(),
                            decoded == Ok::<RawConfig, String>(*raw),
                            raw.tools == Some(*specs),
                            texts == str_views(specs@),
                            first_bad_spec(texts.subrange(0, i as int)) == -1,
                            tool_views(tools@) =~= parsed_specs(texts.subrange(0, i as int)),
                        decreases specs.len() - i,
                    {
                        proof {
                            lemma_first_bad_extend(texts, i as int);
                        }
                        assert(texts[i as int] == specs@[i as int]@);
                        match ToolSpec::parse(specs[i].as_str()) {
                            Ok(t) => {
                                let ghost prev = tools@;
                                tools.push(t);
                                assert(tool_views(tools@) =~= tool_views(prev).push(t@));
                                assert(parsed_specs(texts.subrange(0, i + 1)) =~= parsed_specs(
                                    texts.subrange(0, i as int),
                                ).push(tool_spec_parse(texts[i as int])->Ok_0));
                            },
                            Err(e) => {
                                proof {
                                    lemma_first_bad_prefix(texts, i + 1);
                                }
                                return Err(ConfigError::InvalidToolSpec { path: owned(path), reason: e });
                            },
                        }
                        i = i + 1;
                    }
                    assert(texts.subrange(0, i as int) =~= texts);
                    Ok(Config { source: Some(owned(path)), tools, inherit_env: raw.inherit_env })
                },
            }
        },
    }
}

/// Loads the configuration: the default when no config file was found,
/// else the found file (its path and decoded contents) read by
/// [`parse_config_file`].
pub fn load_config(found: Option<(String, Result<RawConfig, String>)>) -> (r: Result<Config, ConfigError>)
    ensures
        match found {
            None => r matches Ok(c) && c.source is None && c.tools@.len() == 0 && c.inherit_env is None,
            Some((p, d)) => parsed_config(p@, d, r),
        },
{
    match found {
        None => Ok(Config::default()),
        Some((path, decoded)) => parse_config_file(path.as_str(), decoded),
    }
}

/// One step of the walk up from a start directory towards the root looking
/// for a file: where the candidate in the current directory is a file,
/// that is the answer; else the walk moves to the parent, if any.
#[derive(Debug, Clone)]
pub enum AncestorStep {
    /// The file was found at this path.
    Found(String),
    /// Look next in this directory.
    Next(String),
    /// No ancestor holds the file.
    NotFound,
}

/// The path of a file named `name` in directory `dir`.
pub fn ancestor_candidate(dir: &str, name: &str) -> (r: String)
    ensures
        r@ == path_join(dir@, name@),
{
    crate::provider::join_path(dir, name)
}

/// The decision after looking at the candidate in `dir`: found when it is a
/// file; else the parent directory (as `Path::parent` gives it), or the end
/// of the walk at the root.
pub fn find_ancestor_step(dir: &str, name: &str, candidate_is_file: bool) -> (r: AncestorStep)
    ensures
        candidate_is_file ==> (r matches AncestorStep::Found(p) && p@ == path_join(dir@, name@)),
        !candidate_is_file ==> match path_parent(dir@) {
            Some(q) => r matches AncestorStep::Next(d) && d@ == q,
            None => r is NotFound,
        },
{
    if candidate_is_file {
        return AncestorStep::Found(ancestor_candidate(dir, name));
    }
    match parent_of(dir) {
        Some(p) => AncestorStep::Next(p),
        None => AncestorStep::NotFound,
    }
}

/// What `std::path::Path::parent` gives for a path: the path without its
/// final component, or nothing at a root or for an empty path.
pub uninterp spec fn path_parent(p: Seq<char>) -> Option<Seq<char>>;

/// Calls `std::path::Path::parent` on a path.
///
/// Claims only that the result is the one `Path::parent` gives for this
/// text (named by `path_parent`); the parent of a `str` path is a `str`.
#[verifier::external_body]
fn parent_of(p: &str) -> (r: Option<String>)
    ensures
        opt_string(r) == path_parent(p@),
{
    match std::path::Path::new(p).parent() {
        Some(q) => Some(q.to_string_lossy().to_string()),
        None => None,
    }
}

/// The view of an optional string.
pub open spec fn opt_string(o: Option<String>) -> Option<Seq<char>> {
    match o {
        Some(s) => Some(s@),
        None => None,
    }
}

} // verus!

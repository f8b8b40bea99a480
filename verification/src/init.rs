//! What `runx init` writes: a commented `.runxrc` for the chosen tools.

use vstd::prelude::*;

use crate::cli::{ToolSpec, tool_spec_text};
use crate::config::tool_views;
use crate::plugin::PluginManifest;
use crate::provider::{ProviderError, owned};
use crate::run::is_known_tool;
use crate::text::{chars_of, join_seqs, push_all, push_str, string_of};

verus! {

/// The comment lines that open a generated config.
pub open spec fn config_header() -> Seq<char> {
    "# runx configuration file\n# See: https://github.com/supa-magic/runx\n\n# Tools to include in the environment.\n# Format: \"tool\" or \"tool@version\"\n# Supported tools: node, python, go, deno, bun\n"@
}

/// The comment lines that close a generated config.
pub open spec fn config_footer() -> Seq<char> {
    "\n# Inherit the user's full environment instead of an isolated one.\n# inherit_env = false\n"@
}

/// A tool specifier's text in double quotes.
pub open spec fn quoted_spec(t: (Seq<char>, Option<Seq<char>>)) -> Seq<char> {
    "\""@ + tool_spec_text(t) + "\""@
}

/// The contents of a generated config: the header; a commented example
/// when no tool is given, else a `tools = [..]` line listing the quoted
/// specifiers separated by `, `; and the footer.
pub open spec fn config_text(tools: Seq<(Seq<char>, Option<Seq<char>>)>) -> Seq<char> {
    let body = if tools.len() == 0 {
        "# tools = [\"node@18\", \"python@3.11\"]\n"@
    } else {
        "tools = ["@ + join_seqs(tools.map_values(|t: (Seq<char>, Option<Seq<char>>)| quoted_spec(t)), ", "@) + "]\n"@
    };
    config_header() + body + config_footer()
}

/// Generates the `.runxrc` contents for the tools (see [`config_text`]).
pub fn generate_config(tools: &Vec<ToolSpec>) -> (r: String)
    ensures
        r@ == config_text(tool_views(tools@)),
{
    let mut content: Vec<char> = Vec::new();
    push_str(
        &mut content,
        "# runx configuration file\n# See: https://github.com/supa-magic/runx\n\n# Tools to include in the environment.\n# Format: \"tool\" or \"tool@version\"\n# Supported tools: node, python, go, deno, bun\n",
    );
    if tools.len() == 0 {
        push_str(&mut content, "# tools = [\"node@18\", \"python@3.11\"]\n");
    } else {
        push_str(&mut content, "tools = [");
        let ghost q = tool_views(tools@).map_values(|t: (Seq<char>, Option<Seq<char>>)| quoted_spec(t));
        let mut quoted: Vec<String> = Vec::new();
        let mut i: usize = 0;
        while i < tools.len()
            invariant
                i <= tools.len(),
                q == tool_views(tools@).map_values(|t: (Seq<char>, Option<Seq<char>>)| quoted_spec(t)),
                crate::text::texts_of(quoted@) =~= q.subrange(0, i as int),
            decreases tools.len() - i,
        {
            let mut one: Vec<char> = Vec::new();
            push_str(&mut one, "\"");
            let t = tools[i].to_string();
            push_str(&mut one, t.as_str());
            push_str(&mut one, "\"");
            let ghost prev = quoted@;
            quoted.push(string_of(&one));
            assert(crate::text::texts_of(quoted@) =~= crate::text::texts_of(prev).push(q[i as int]));
            i = i + 1;
        }
        assert(q.subrange(0, i as int) =~= q);
        let joined = crate::text::join_strings(&quoted, ", ");
        push_all(&mut content, &joined);
        push_str(&mut content, "]\n");
    }
    push_str(&mut content, "\n# Inherit the user's full environment instead of an isolated one.\n# inherit_env = false\n");
    string_of(&content)
}

/// The first of the given tools whose name denotes no tool (built-in or
/// plugin), or `-1`.
pub open spec fn first_unknown_tool(names: Seq<Seq<char>>, plugins: Seq<PluginManifest>) -> int
    decreases names.len(),
{
    if names.len() == 0 {
        -1
    } else {
        let prev = first_unknown_tool(names.drop_last(), plugins);
        if prev != -1 {
            prev
        } else if crate::provider::tool_of_name(names.last()) is None && crate::plugin::plugin_index(plugins, names.last()) == -1 {
            names.len() - 1
        } else {
            -1
        }
    }
}

proof fn lemma_first_unknown_prefix(names: Seq<Seq<char>>, plugins: Seq<PluginManifest>, k: int)
    requires
        0 < k <= names.len(),
        first_unknown_tool(names.subrange(0, k), plugins) != -1,
    ensures
        first_unknown_tool(names, plugins) == first_unknown_tool(names.subrange(0, k), plugins),
    decreases names.len() - k,
{
    if k == names.len() {
        assert(names.subrange(0, k) =~= names);
    } else {
        assert(names.subrange(0, k + 1).drop_last() =~= names.subrange(0, k));
        lemma_first_unknown_prefix(names, plugins, k + 1);
    }
}

/// Checks the tools given to `runx init`: the first whose name denotes no
/// tool is refused as `UnknownTool`.
pub fn validate_tools(tools: &Vec<ToolSpec>, plugins: &Vec<PluginManifest>) -> (r: Result<(), ProviderError>)
    ensures
        ({
            let i = first_unknown_tool(crate::run::spec_names(tools@), plugins@);
            if i == -1 {
                r is Ok
            } else {
                &&& 0 <= i < tools@.len()
                &&& r matches Err(ProviderError::UnknownTool { name: n }) && n@ == tools@[i].name@
            }
        }),
{
    let ghost names = crate::run::spec_names(tools@);
    let mut i: usize = 0;
    while i < tools.len()
        invariant
            i <= tools.len(),
            names == crate::run::spec_names(tools@),
            first_unknown_tool(names.subrange(0, i as int), plugins@) == -1,
        decreases tools.len() - i,
    {
        assert(names.subrange(0, i + 1).drop_last() =~= names.subrange(0, i as int));
        if !is_known_tool(tools[i].name.as_str(), plugins) {
            proof {
                lemma_first_unknown_prefix(names, plugins@, i + 1);
            }
            return Err(ProviderError::UnknownTool { name: owned(tools[i].name.as_str()) });
        }
        i = i + 1;
    }
    assert(names.subrange(0, i as int) =~= names);
    Ok(())
}

/// The names of the registry's tools, in the order the prompt numbers
/// them from 1.
pub open spec fn registry_names() -> Seq<Seq<char>> {
    seq!["node"@, "python"@, "go"@, "deno"@, "bun"@, "ruby"@, "java"@, "rust"@]
}

/// The tools an answer to the prompt picks: each word that is a number
/// from 1 to 8 picks the tool of that number; other words are ignored.
pub open spec fn chosen_names(ws: Seq<Seq<char>>) -> Seq<Seq<char>>
    decreases ws.len(),
{
    if ws.len() == 0 {
        Seq::empty()
    } else {
        let prev = chosen_names(ws.drop_last());
        match crate::text::parse_u64_spec(ws.last()) {
            Some(n) if 1 <= n <= 8 => prev.push(registry_names()[n - 1]),
            _ => prev,
        }
    }
}

/// The registry tool with a number from 1 to 8.
fn registry_name(n: u64) -> (r: &'static str)
    requires
        1 <= n <= 8,
    ensures
        r@ == registry_names()[n - 1],
{
    if n == 1 { "node" } else if n == 2 { "python" } else if n == 3 { "go" } else if n == 4 { "deno" }
    else if n == 5 { "bun" } else if n == 6 { "ruby" } else if n == 7 { "java" } else { "rust" }
}

/// The tools an answer to the tool prompt picks (see [`chosen_names`]).
pub fn chosen_tools(input: &str) -> (r: Vec<&'static str>)
    ensures
        r@.map_values(|x: &'static str| x@) == chosen_names(crate::text::words(input@)),
{
    let ws = crate::text::split_words(input);
    let ghost wv = ws@.map_values(|w: Vec<char>| w@);
    let mut r: Vec<&'static str> = Vec::new();
    let mut i: usize = 0;
    while i < ws.len()
        invariant
            i <= ws.len(),
            wv == ws@.map_values(|w: Vec<char>| w@),
            r@.map_values(|x: &'static str| x@) == chosen_names(wv.subrange(0, i as int)),
        decreases ws.len() - i,
    {
        assert(wv.subrange(0, i + 1).drop_last() =~= wv.subrange(0, i as int));
        assert(wv[i as int] == ws@[i as int]@);
        match crate::text::parse_u64(&ws[i]) {
            Some(n) => {
                if 1 <= n && n <= 8 {
                    let ghost prev = r@;
                    r.push(registry_name(n));
                    assert(r@.map_values(|x: &'static str| x@) =~= prev.map_values(|x: &'static str| x@).push(registry_names()[n - 1]));
                }
            },
            None => {},
        }
        i = i + 1;
    }
    assert(wv.subrange(0, i as int) =~= wv);
    r
}

/// The version an answer to the version prompt gives: the trimmed answer,
/// or none (latest) when it is empty.
pub fn version_answer(input: &str) -> (r: Option<String>)
    ensures
        crate::config::opt_string(r) == (if crate::text::trim(input@).len() == 0 { None } else { Some(crate::text::trim(input@)) }),
{
    let t = crate::text::trim_chars(&chars_of(input));
    if t.len() == 0 {
        None
    } else {
        Some(string_of(&t))
    }
}

} // verus!

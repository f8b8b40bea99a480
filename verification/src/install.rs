//! The decisions of global installs under `~/.runx/bin/`: where links go,
//! which tools are installed, which links belong to a tool, and what the
//! user is told.

use vstd::prelude::*;

use crate::cache::home_dir;
use crate::cli::ToolSpec;
use crate::config::tool_views;
use crate::error::RunxError;
use crate::provider::{join_path, path_join};
use crate::text::{join_seqs, join_strings, push_all, push_str, string_of, texts_of};

verus! {

/// The global bin directory under a home directory: `<home>/.runx/bin`.
pub open spec fn bin_dir_under(home: Seq<char>) -> Seq<char> {
    path_join(path_join(home, ".runx"@), "bin"@)
}

/// The global bin directory under a home directory, if one is known.
pub fn bin_dir_from(home: Option<String>) -> (r: Result<String, RunxError>)
    ensures
        match home {
            Some(h) => r matches Ok(d) && d@ == bin_dir_under(h@),
            None => r matches Err(RunxError::NoHomeDir),
        },
{
    match home {
        None => Err(RunxError::NoHomeDir),
        Some(h) => {
            let a = join_path(h.as_str(), ".runx");
            Ok(join_path(a.as_str(), "bin"))
        },
    }
}

/// The global bin directory, `~/.runx/bin`.
pub fn bin_dir() -> (r: Result<String, RunxError>)
    ensures
        match r {
            Ok(d) => exists|h: Seq<char>| d@ == bin_dir_under(h),
            Err(e) => e is NoHomeDir,
        },
{
    bin_dir_from(home_dir())
}

/// The tools `runx install` installs: the one named, else the config's.
pub fn install_targets(tool: Option<ToolSpec>, config_tools: Vec<ToolSpec>) -> (r: Vec<ToolSpec>)
    ensures
        match tool {
            Some(t) => tool_views(r@) == seq![t@],
            None => tool_views(r@) == tool_views(config_tools@),
        },
{
    match tool {
        Some(t) => {
            let r = vec![t];
            assert(tool_views(r@) =~= seq![r@[0]@]);
            r
        },
        None => config_tools,
    }
}

/// The message after installing a tool: a warning when no binary was
/// linked, else `Installed NAME@VERSION → ~/.runx/bin/{A, B}`.
pub open spec fn installed_text(name: Seq<char>, version: Seq<char>, linked: Seq<Seq<char>>) -> Seq<char> {
    if linked.len() == 0 {
        "Warning: no binaries found for "@ + name + "@"@ + version
    } else {
        "Installed "@ + name + "@"@ + version + " \u{2192} ~/.runx/bin/{"@ + join_seqs(linked, ", "@) + "}"@
    }
}

/// The message after installing a tool (see [`installed_text`]).
pub fn installed_message(name: &str, version: &str, linked: &Vec<String>) -> (r: String)
    ensures
        r@ == installed_text(name@, version@, texts_of(linked@)),
{
    let mut m: Vec<char> = Vec::new();
    if linked.len() == 0 {
        push_str(&mut m, "Warning: no binaries found for ");
        push_str(&mut m, name);
        push_str(&mut m, "@");
        push_str(&mut m, version);
    } else {
        push_str(&mut m, "Installed ");
        push_str(&mut m, name);
        push_str(&mut m, "@");
        push_str(&mut m, version);
        push_str(&mut m, " \u{2192} ~/.runx/bin/{");
        push_all(&mut m, &join_strings(linked, ", "));
        push_str(&mut m, "}");
    }
    string_of(&m)
}

/// The message after uninstalling a tool: that nothing was found, or which
/// links were removed.
pub open spec fn uninstalled_text(name: Seq<char>, removed: Seq<Seq<char>>) -> Seq<char> {
    if removed.len() == 0 {
        "No installed binaries found for "@ + name + "."@
    } else {
        "Uninstalled "@ + name + ": "@ + join_seqs(removed, ", "@)
    }
}

/// The message after uninstalling a tool (see [`uninstalled_text`]).
pub fn uninstalled_message(name: &str, removed: &Vec<String>) -> (r: String)
    ensures
        r@ == uninstalled_text(name@, texts_of(removed@)),
{
    let mut m: Vec<char> = Vec::new();
    if removed.len() == 0 {
        push_str(&mut m, "No installed binaries found for ");
        push_str(&mut m, name);
        push_str(&mut m, ".");
    } else {
        push_str(&mut m, "Uninstalled ");
        push_str(&mut m, name);
        push_str(&mut m, ": ");
        push_all(&mut m, &join_strings(removed, ", "));
    }
    string_of(&m)
}

/// What `std::path::Path::starts_with` says of two paths: whether the
/// second's components begin the first's.
pub uninterp spec fn path_starts_with(path: Seq<char>, base: Seq<char>) -> bool;

/// Calls `std::path::Path::starts_with`.
///
/// Claims only that the answer is the one `Path::starts_with` gives for
/// these two texts (named by `path_starts_with`).
#[verifier::external_body]
fn starts_with_path(path: &str, base: &str) -> (r: bool)
    ensures
        r == path_starts_with(path@, base@),
{
    std::path::Path::new(path).starts_with(base)
}

/// Whether a link in the bin directory belongs to a tool: its target lies
/// in that tool's cache directory.
pub fn links_into(link_target: &str, cache_tool_dir: &str) -> (r: bool)
    ensures
        r == path_starts_with(link_target@, cache_tool_dir@),
{
    starts_with_path(link_target, cache_tool_dir)
}

/// The Windows command shim that stands for a linked binary.
pub open spec fn shim_text(target: Seq<char>) -> Seq<char> {
    "@echo off\r\n\""@ + target + "\" %*\r\n"@
}

/// The Windows command shim for a binary.
pub fn shim_content(target: &str) -> (r: String)
    ensures
        r@ == shim_text(target@),
{
    let mut m: Vec<char> = Vec::new();
    push_str(&mut m, "@echo off\r\n\"");
    push_str(&mut m, target);
    push_str(&mut m, "\" %*\r\n");
    string_of(&m)
}

} // verus!

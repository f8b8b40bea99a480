//! The decisions of a run: which tools and options apply, how each tool's
//! version specifier reads, and how a script given as the command is run.

use vstd::prelude::*;

use crate::cli::{Cli, ToolSpec, opt_str};
use crate::config::{Config, tool_views};
use crate::download::DownloadError;
use crate::error::RunxError;
use crate::plugin::{PluginManifest, plugin_index};
use crate::environment::EnvVars;
use crate::platform::Target;
use crate::provider::{
    AnyProvider, ArchiveFormat, Provider, Tool, join_path, owned, path_join, provider_bin_paths,
    provider_env, provider_temp_dirs, texts_are, tool_of_name
};
use crate::text::{str_eq, string_of, join_seqs, join_strings, texts_of};
use crate::version::{Version, VersionSpec, VersionView, best_index, semver_parse_result, views};

verus! {

/// The command that runs a script with a tool, for the tools that have one.
pub open spec fn interpreter_of(name: Seq<char>) -> Option<Seq<Seq<char>>> {
    if name == "node"@ || name == "nodejs"@ {
        Some(seq!["node"@])
    } else if name == "python"@ || name == "python3"@ {
        Some(seq!["python3"@])
    } else if name == "deno"@ {
        Some(seq!["deno"@, "run"@])
    } else if name == "bun"@ || name == "bunx"@ {
        Some(seq!["bun"@, "run"@])
    } else if name == "go"@ || name == "golang"@ {
        Some(seq!["go"@, "run"@])
    } else {
        None
    }
}

/// The interpreter command of a tool: `node`, `python3`, `deno run`,
/// `bun run` or `go run`; none for the others.
pub fn tool_interpreter(tool_name: &str) -> (r: Option<Vec<String>>)
    ensures
        match interpreter_of(tool_name@) {
            Some(i) => r matches Some(v) && texts_of(v@) == i,
            None => r is None,
        },
{
    let r = if str_eq(tool_name, "node") || str_eq(tool_name, "nodejs") {
        Some(vec![owned("node")])
    } else if str_eq(tool_name, "python") || str_eq(tool_name, "python3") {
        Some(vec![owned("python3")])
    } else if str_eq(tool_name, "deno") {
        Some(vec![owned("deno"), owned("run")])
    } else if str_eq(tool_name, "bun") || str_eq(tool_name, "bunx") {
        Some(vec![owned("bun"), owned("run")])
    } else if str_eq(tool_name, "go") || str_eq(tool_name, "golang") {
        Some(vec![owned("go"), owned("run")])
    } else {
        None
    };
    assert(r is Some ==> texts_of(r->0@) =~= interpreter_of(tool_name@)->0);
    r
}

/// Whether a name denotes a tool: a built-in one, or an installed plugin.
pub fn is_known_tool(name: &str, plugins: &Vec<PluginManifest>) -> (r: bool)
    ensures
        r == (tool_of_name(name@) is Some || plugin_index(plugins@, name@) != -1),
{
    if Tool::from_name(name).is_some() {
        return true;
    }
    let mut i: usize = 0;
    while i < plugins.len()
        invariant
            i <= plugins@.len(),
            plugin_index(plugins@.subrange(0, i as int), name@) == -1,
        decreases plugins.len() - i,
    {
        assert(plugins@.subrange(0, i + 1).drop_last() =~= plugins@.subrange(0, i as int));
        if plugins[i].answers_to(name) {
            proof {
                crate::plugin::lemma_plugin_index_prefix(plugins@, name@, i + 1);
            }
            return true;
        }
        i = i + 1;
    }
    assert(plugins@.subrange(0, i as int) =~= plugins@);
    false
}

/// The program and arguments that run a command. A first word that names a
/// tool, or is not a file, is the program as given. A file run with exactly
/// one tool that has an interpreter is run by it: the interpreter's program,
/// its further words, the file, then the rest. Otherwise the command is
/// used as given.
pub open spec fn script_command(
    cmd: Seq<Seq<char>>,
    tool_names: Seq<Seq<char>>,
    known: bool,
    is_file: bool,
) -> (Seq<char>, Seq<Seq<char>>) {
    if !known && is_file && tool_names.len() == 1 && interpreter_of(tool_names[0]) is Some {
        let i = interpreter_of(tool_names[0])->0;
        (i[0], i.drop_first() + seq![cmd[0]] + cmd.drop_first())
    } else {
        (cmd[0], cmd.drop_first())
    }
}

/// The names of tool specifiers.
pub open spec fn spec_names(s: Seq<ToolSpec>) -> Seq<Seq<char>> {
    s.map_values(|t: ToolSpec| t.name@)
}

/// A copy of strings.
fn copy_strings(v: &Vec<String>, from: usize) -> (r: Vec<String>)
    requires
        from <= v.len(),
    ensures
        texts_of(r@) == texts_of(v@).subrange(from as int, v@.len() as int),
{
    let mut r: Vec<String> = Vec::new();
    let mut i: usize = from;
    while i < v.len()
        invariant
            from <= i <= v.len(),
            texts_of(r@) =~= texts_of(v@).subrange(from as int, i as int),
        decreases v.len() - i,
    {
        let ghost prev = r@;
        r.push(owned(v[i].as_str()));
        assert(texts_of(r@) =~= texts_of(prev).push(v@[i as int]@));
        i = i + 1;
    }
    r
}

/// The program and arguments for a command whose first word is or is not
/// an existing file (see [`script_command`]); when runx runs as a script's
/// interpreter (`#!/usr/bin/env -S runx --with node@22 --`), the script's
/// path comes first.
pub fn resolve_script_command(
    cmd: &Vec<String>,
    tools: &Vec<ToolSpec>,
    plugins: &Vec<PluginManifest>,
    first_is_file: bool,
) -> (r: (String, Vec<String>))
    requires
        cmd@.len() > 0,
    ensures
        (r.0@, texts_of(r.1@)) == script_command(
            texts_of(cmd@),
            spec_names(tools@),
            tool_of_name(cmd@[0]@) is Some || plugin_index(plugins@, cmd@[0]@) != -1,
            first_is_file,
        ),
{
    let first = cmd[0].as_str();
    let known = is_known_tool(first, plugins);
    if !known && first_is_file && tools.len() == 1 {
        match tool_interpreter(tools[0].name.as_str()) {
            Some(interp) => {
                assert(texts_of(interp@).len() == interp@.len());
                let program = owned(interp[0].as_str());
                let mut args = copy_strings(&interp, 1);
                let ghost a0 = texts_of(args@);
                let ghost p0 = args@;
                args.push(owned(first));
                assert(texts_of(args@) =~= texts_of(p0).push(first@));
                let rest = copy_strings(cmd, 1);
                let ghost a1 = texts_of(args@);
                let mut j: usize = 0;
                while j < rest.len()
                    invariant
                        j <= rest.len(),
                        texts_of(args@) =~= a1 + texts_of(rest@).subrange(0, j as int),
                    decreases rest.len() - j,
                {
                    let ghost prev = args@;
                    args.push(owned(rest[j].as_str()));
                    assert(texts_of(args@) =~= texts_of(prev).push(rest@[j as int]@));
                    j = j + 1;
                }
                proof {
                    assert(a1 =~= a0.push(cmd@[0]@));
                    assert(texts_of(rest@).subrange(0, j as int) =~= texts_of(rest@));
                    assert(texts_of(cmd@).drop_first() =~= texts_of(cmd@).subrange(1, cmd@.len() as int));
                    assert(interp@.len() > 0);
                    assert(texts_of(interp@).drop_first() =~= texts_of(interp@).subrange(1, interp@.len() as int));
                    assert(texts_of(args@) =~= texts_of(interp@).drop_first() + seq![texts_of(cmd@)[0]]
                        + texts_of(cmd@).drop_first());
                }
                return (program, args);
            },
            None => {},
        }
    }
    let rest = copy_strings(cmd, 1);
    assert(texts_of(cmd@).drop_first() =~= texts_of(cmd@).subrange(1, cmd@.len() as int));
    (owned(first), rest)
}

/// A run needs a command after `--`.
pub fn require_command(cmd: &Vec<String>) -> (r: Result<(), RunxError>)
    ensures
        cmd@.len() == 0 <==> r matches Err(RunxError::NoCommand),
        cmd@.len() > 0 <==> r is Ok,
{
    if cmd.len() == 0 {
        Err(RunxError::NoCommand)
    } else {
        Ok(())
    }
}

/// The options a run goes by once command line and config are merged.
#[derive(Debug)]
pub struct RunOptions {
    /// The tools to provide.
    pub tools: Vec<ToolSpec>,
    /// Whether the user's full environment is passed through.
    pub inherit_env: bool,
    /// The config file to mention (in dry-run or verbose mode).
    pub config_note: Option<String>,
}

/// Copies tool specifiers.
fn copy_specs(v: &Vec<ToolSpec>) -> (r: Vec<ToolSpec>)
    ensures
        tool_views(r@) == tool_views(v@),
{
    let mut r: Vec<ToolSpec> = Vec::new();
    let mut i: usize = 0;
    while i < v.len()
        invariant
            i <= v.len(),
            tool_views(r@) =~= tool_views(v@).subrange(0, i as int),
        decreases v.len() - i,
    {
        let ghost prev = r@;
        r.push(v[i].duplicate());
        assert(tool_views(r@) =~= tool_views(prev).push(v@[i as int]@));
        i = i + 1;
    }
    r
}

/// Merges the command line with the config: the tools given with `--with`
/// replace the config's; with none, the config's apply. The config's
/// `inherit_env` is a default that `--inherit-env` overrides. A run without
/// any tool is refused. The config file is mentioned in dry-run or verbose
/// mode.
pub fn merge_config(cli: &Cli, cfg: Config) -> (r: Result<RunOptions, RunxError>)
    ensures
        ({
            let tools = if cli.tools@.len() > 0 { tool_views(cli.tools@) } else { tool_views(cfg.tools@) };
            if tools.len() == 0 {
                r matches Err(RunxError::NoTools)
            } else {
                r matches Ok(o) && tool_views(o.tools@) == tools
                    && o.inherit_env == (cli.inherit_env || cfg.inherit_env == Some(true))
                    && opt_str(o.config_note) == (match cfg.source {
                        Some(s) if cli.dry_run || cli.verbose => Some(s@),
                        _ => None,
                    })
            }
        }),
{
    let tools = if cli.tools.len() > 0 {
        copy_specs(&cli.tools)
    } else {
        cfg.tools
    };
    if tools.len() == 0 {
        return Err(RunxError::NoTools);
    }
    let inherit_env = match cfg.inherit_env {
        Some(inherit) => if !cli.inherit_env {
            inherit
        } else {
            true
        },
        None => cli.inherit_env,
    };
    let config_note = match cfg.source {
        Some(s) => if cli.dry_run || cli.verbose {
            Some(s)
        } else {
            None
        },
        None => None,
    };
    Ok(RunOptions { tools, inherit_env, config_note })
}

/// The directories a tool puts on `PATH`: each of its bin paths under its
/// install directory.
pub fn tool_bin_dirs(install_dir: &str, bin_paths: &Vec<String>) -> (r: Vec<String>)
    ensures
        texts_of(r@) == texts_of(bin_paths@).map_values(|b: Seq<char>| path_join(install_dir@, b)),
{
    let mut r: Vec<String> = Vec::new();
    let mut i: usize = 0;
    while i < bin_paths.len()
        invariant
            i <= bin_paths.len(),
            texts_of(r@) =~= texts_of(bin_paths@).map_values(|b: Seq<char>| path_join(install_dir@, b)).subrange(0, i as int),
        decreases bin_paths.len() - i,
    {
        let ghost prev = r@;
        r.push(join_path(install_dir, bin_paths[i].as_str()));
        assert(texts_of(r@) =~= texts_of(prev).push(path_join(install_dir@, bin_paths@[i as int]@)));
        i = i + 1;
    }
    r
}

/// The error of a run whose parallel downloads failed: each failure as
/// `name: message`, joined by `; `, as an extraction failure of
/// `parallel downloads`; none when nothing failed.
pub fn download_failures(failures: &Vec<String>) -> (r: Option<DownloadError>)
    ensures
        failures@.len() == 0 ==> r is None,
        failures@.len() > 0 ==> (r matches Some(DownloadError::Extraction { path: p, reason: m })
            && p@ == "parallel downloads"@ && m@ == join_seqs(texts_of(failures@), "; "@)),
{
    if failures.len() == 0 {
        return None;
    }
    let m = join_strings(failures, "; ");
    Some(DownloadError::Extraction { path: owned("parallel downloads"), reason: string_of(&m) })
}

/// A tool resolved for a run, ready for download and environment setup.
#[derive(Debug)]
pub struct ResolvedTool {
    /// The name it was asked for by.
    pub name: String,
    /// The version it resolved to.
    pub version: Version,
    /// Its provider.
    pub provider: AnyProvider,
    /// Whether it is already installed in the cache.
    pub cached: bool,
    /// Where to download it from, when it is not cached.
    pub download_url: Option<String>,
    /// The format of its download.
    pub archive_format: ArchiveFormat,
    /// Its install directory.
    pub install_dir: String,
}

/// The positions of the tools that still have to be downloaded, in order.
pub open spec fn uncached_positions(tools: Seq<ResolvedTool>) -> Seq<int>
    decreases tools.len(),
{
    if tools.len() == 0 {
        Seq::empty()
    } else {
        let before = uncached_positions(tools.drop_last());
        if tools.last().cached {
            before
        } else {
            before.push(tools.len() - 1)
        }
    }
}

/// The positions of the tools that are not cached, in order.
pub fn pending_downloads(tools: &Vec<ResolvedTool>) -> (r: Vec<usize>)
    ensures
        r@.map_values(|i: usize| i as int) == uncached_positions(tools@),
{
    let mut r: Vec<usize> = Vec::new();
    let mut i: usize = 0;
    while i < tools.len()
        invariant
            i <= tools.len(),
            r@.map_values(|k: usize| k as int) =~= uncached_positions(tools@.subrange(0, i as int)),
        decreases tools.len() - i,
    {
        assert(tools@.subrange(0, i + 1).drop_last() =~= tools@.subrange(0, i as int));
        if !tools[i].cached {
            let ghost prev = r@;
            r.push(i);
            assert(r@.map_values(|k: usize| k as int) =~= prev.map_values(|k: usize| k as int).push(i as int));
        }
        i = i + 1;
    }
    assert(tools@.subrange(0, i as int) =~= tools@);
    r
}

/// The directories the tools put on `PATH`, tool by tool: each bin path of a
/// tool under its install directory.
pub open spec fn layout_bins(tools: Seq<ResolvedTool>, target: Target) -> Seq<Seq<char>>
    decreases tools.len(),
{
    if tools.len() == 0 {
        Seq::empty()
    } else {
        let t = tools.last();
        layout_bins(tools.drop_last(), target) + provider_bin_paths(t.provider, t.version@, target).map_values(
            |b: Seq<char>| path_join(t.install_dir@, b),
        )
    }
}

/// The variables the tools set, a later tool's overriding an earlier one's.
pub open spec fn layout_env(tools: Seq<ResolvedTool>) -> Map<Seq<char>, Seq<char>>
    decreases tools.len(),
{
    if tools.len() == 0 {
        Map::empty()
    } else {
        let t = tools.last();
        layout_env(tools.drop_last()).union_prefer_right(provider_env(t.provider, t.install_dir@))
    }
}

/// The variables the tools need pointed at fresh temporary directories,
/// tool by tool.
pub open spec fn layout_temps(tools: Seq<ResolvedTool>) -> Seq<Seq<char>>
    decreases tools.len(),
{
    if tools.len() == 0 {
        Seq::empty()
    } else {
        layout_temps(tools.drop_last()) + provider_temp_dirs(tools.last().provider)
    }
}

/// What the resolved tools contribute to the environment of a run.
#[derive(Debug)]
pub struct ToolLayout {
    /// The directories to put on `PATH`, in order.
    pub bin_dirs: Vec<String>,
    /// The tools' own variables.
    pub env: EnvVars,
    /// The variables to point at fresh temporary directories, in order.
    pub temp_vars: Vec<&'static str>,
}

/// Gathers the bin directories, variables and temporary-directory
/// variables of the resolved tools, in their order.
pub fn tool_layout(tools: &Vec<ResolvedTool>, target: &Target) -> (r: ToolLayout)
    ensures
        texts_are(r.bin_dirs@, layout_bins(tools@, *target)),
        r.env.wf(),
        r.env@ == layout_env(tools@),
        crate::provider::names_are(r.temp_vars@, layout_temps(tools@)),
{
    let mut bin_dirs: Vec<String> = Vec::new();
    let mut env = EnvVars::new();
    let mut temp_vars: Vec<&'static str> = Vec::new();
    let mut i: usize = 0;
    while i < tools.len()
        invariant
            i <= tools.len(),
            env.wf(),
            texts_are(bin_dirs@, layout_bins(tools@.subrange(0, i as int), *target)),
            env@ == layout_env(tools@.subrange(0, i as int)),
            crate::provider::names_are(temp_vars@, layout_temps(tools@.subrange(0, i as int))),
        decreases tools.len() - i,
    {
        let ghost sub = tools@.subrange(0, i + 1);
        assert(sub.drop_last() =~= tools@.subrange(0, i as int));
        assert(sub.last() == tools@[i as int]);
        let t = &tools[i];
        let paths = t.provider.bin_paths(&t.version, target);
        assert(texts_of(paths@) =~= provider_bin_paths(t.provider, t.version@, *target));
        let mut dirs = tool_bin_dirs(t.install_dir.as_str(), &paths);
        let ghost old_bins = bin_dirs@;
        let ghost new_dirs = dirs@;
        bin_dirs.append(&mut dirs);
        assert(texts_are(bin_dirs@, layout_bins(sub, *target))) by {
            assert(bin_dirs@ =~= old_bins + new_dirs);
            assert forall|k: int| 0 <= k < new_dirs.len() implies #[trigger] new_dirs[k]@ == provider_bin_paths(
                t.provider,
                t.version@,
                *target,
            ).map_values(|b: Seq<char>| path_join(t.install_dir@, b))[k] by {
                assert(texts_of(new_dirs)[k] == new_dirs[k]@);
            }
        }
        let vars = t.provider.env_vars(t.install_dir.as_str());
        env.extend(&vars);
        let temps = t.provider.temp_env_dirs();
        let ghost old_temps = temp_vars@;
        let mut j: usize = 0;
        while j < temps.len()
            invariant
                j <= temps.len(),
                temp_vars@ =~= old_temps + temps@.subrange(0, j as int),
            decreases temps.len() - j,
        {
            temp_vars.push(temps[j]);
            j = j + 1;
        }
        assert(temps@.subrange(0, j as int) =~= temps@);
        i = i + 1;
    }
    assert(tools@.subrange(0, i as int) =~= tools@);
    ToolLayout { bin_dirs, env, temp_vars }
}

/// The versions that the names of cached version directories read as, in
/// order (a name that is no version is passed over).
pub open spec fn parsed_names(names: Seq<Seq<char>>) -> Seq<VersionView>
    decreases names.len(),
{
    if names.len() == 0 {
        Seq::empty()
    } else {
        match semver_parse_result(names.last()) {
            Some(v) => parsed_names(names.drop_last()).push(v),
            None => parsed_names(names.drop_last()),
        }
    }
}

/// The version a tool runs with straight from the cache, without asking
/// upstream: the greatest cached version (of those whose directory holds
/// an install for the target, given by name) that the specifier accepts;
/// none when no cached version fits.
pub fn cached_resolution(names: &Vec<String>, spec: &VersionSpec) -> (r: Option<Version>)
    ensures
        match r {
            Some(v) => {
                let c = parsed_names(texts_of(names@));
                let i = best_index(spec@, c);
                0 <= i < c.len() && v@ == c[i]
            },
            None => best_index(spec@, parsed_names(texts_of(names@))) == -1,
        },
{
    let mut cands: Vec<Version> = Vec::new();
    let mut i: usize = 0;
    while i < names.len()
        invariant
            i <= names.len(),
            views(cands@) =~= parsed_names(texts_of(names@).subrange(0, i as int)),
        decreases names.len() - i,
    {
        let ghost sub = texts_of(names@).subrange(0, i + 1);
        assert(sub.drop_last() =~= texts_of(names@).subrange(0, i as int));
        assert(sub.last() == names@[i as int]@);
        match Version::parse(names[i].as_str()) {
            Some(v) => {
                let ghost prev = cands@;
                cands.push(v);
                assert(views(cands@) =~= views(prev).push(cands@[cands@.len() - 1]@));
            },
            None => {},
        }
        i = i + 1;
    }
    assert(texts_of(names@).subrange(0, i as int) =~= texts_of(names@));
    match spec.resolve(cands.as_slice()) {
        Some(v) => Some(v.duplicate()),
        None => None,
    }
}

/// What a run does for a resolved tool: use the cached install; or, when it
/// is not cached, download it (in a dry run, only show what it would
/// download).
#[derive(Debug, Clone, Copy, PartialEq, Eq, Structural)]
pub enum ToolAction {
    UseCached,
    Download,
    ShowDownload,
}

/// The action for a tool (see [`ToolAction`]).
pub open spec fn action_of(dry_run: bool, cached: bool) -> ToolAction {
    if cached {
        ToolAction::UseCached
    } else if dry_run {
        ToolAction::ShowDownload
    } else {
        ToolAction::Download
    }
}

/// The action for a tool (see [`ToolAction`]).
pub fn tool_action(dry_run: bool, cached: bool) -> (r: ToolAction)
    ensures
        r == action_of(dry_run, cached),
{
    if cached {
        ToolAction::UseCached
    } else if dry_run {
        ToolAction::ShowDownload
    } else {
        ToolAction::Download
    }
}

} // verus!

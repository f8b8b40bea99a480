//! Plugins: tools described by a declarative manifest rather than built in.

use vstd::prelude::*;
use vstd::string::*;

use crate::environment::EnvVars;
use crate::platform::{
    Platform, Target, arch_display, arch_download_name, platform_download_name, target_triple
};
use crate::provider::{ArchiveFormat, Provider, ProviderError, owned};
use crate::text::{chars_of, push_all, push_str, replace_all, replace_chars, str_eq, string_of};
use crate::version::{Version, VersionSpec, VersionView, spec_text, version_text};

verus! {

/// A declarative plugin manifest, e.g. for `~/.runx/plugins/zig.toml`:
/// the tool's name and aliases, its download URL template, archive format,
/// bin path template, interpreter and optional post-install command.
#[derive(Debug, Clone)]
pub struct PluginManifest {
    /// Tool name (e.g. `zig`).
    pub name: String,
    /// Aliases (e.g. `ziglang`).
    pub aliases: Vec<String>,
    /// Description of the tool.
    pub description: String,
    /// Download URL template with placeholders.
    pub download_url: String,
    /// Archive format: `tar.gz`, `tar.xz` or `zip`.
    pub archive_format: String,
    /// Bin path relative to the install directory, with placeholders.
    pub bin_path: String,
    /// Interpreter command for scripts (e.g. `zig run`).
    pub interpreter: Vec<String>,
    /// Shell command run in the install directory after extraction; it may
    /// also use `{install_dir}`.
    pub post_install: Option<String>,
    /// Timeout for the post-install command, in seconds.
    pub post_install_timeout: u64,
}

/// The post-install timeout a manifest gets when it names none: 300 s.
pub fn default_post_install_timeout() -> (r: u64)
    ensures
        r == 300,
{
    300
}

/// The archive format a manifest gets when it names none: `tar.gz`.
pub fn default_archive_format() -> (r: String)
    ensures
        r@ == "tar.gz"@,
{
    owned("tar.gz")
}

/// The bin path a manifest gets when it names none: `bin`.
pub fn default_bin_path() -> (r: String)
    ensures
        r@ == "bin"@,
{
    owned("bin")
}

/// The lowercase platform name `{os}` stands for.
pub open spec fn platform_os_name(p: Platform) -> Seq<char> {
    match p {
        Platform::MacOS => "macos"@,
        Platform::Linux => "linux"@,
        Platform::Windows => "windows"@,
    }
}

/// A template with its placeholders filled in, in this order: `{version}`
/// (the exact version), `{triple}` (the target triple), `{os_alt}` (the
/// download-style platform), `{os}` (the lowercase platform), `{arch_alt}`
/// (the short arch) and `{arch}` (the full arch).
pub open spec fn expand_template(t: Seq<char>, v: VersionView, target: Target) -> Seq<char> {
    let a = replace_all(t, "{version}"@, version_text(v));
    let b = replace_all(a, "{triple}"@, target_triple(target));
    let c = replace_all(b, "{os_alt}"@, platform_download_name(target.platform));
    let d = replace_all(c, "{os}"@, platform_os_name(target.platform));
    let e = replace_all(d, "{arch_alt}"@, arch_download_name(target.arch));
    replace_all(e, "{arch}"@, arch_display(target.arch))
}

/// A template expanded as [`expand_template`], then `{install_dir}` filled
/// in with the install directory.
pub open spec fn expand_template_with_dir(
    t: Seq<char>,
    v: VersionView,
    target: Target,
    dir: Seq<char>,
) -> Seq<char> {
    replace_all(expand_template(t, v, target), "{install_dir}"@, dir)
}

/// The archive format a manifest's text names: `tar.xz`, `zip`, and
/// `tar.gz` for anything else.
pub open spec fn manifest_archive_format(s: Seq<char>) -> ArchiveFormat {
    if s == "tar.xz"@ {
        ArchiveFormat::TarXz
    } else if s == "zip"@ {
        ArchiveFormat::Zip
    } else {
        ArchiveFormat::TarGz
    }
}

/// Replaces every occurrence of a non-empty literal pattern.
fn replace_lit(s: &Vec<char>, pat: &str, rep: &Vec<char>) -> (r: Vec<char>)
    requires
        pat@.len() > 0,
    ensures
        r@ == replace_all(s@, pat@, rep@),
{
    let p = chars_of(pat);
    replace_chars(s, &p, rep)
}

/// The lowercase platform name.
fn os_name(p: Platform) -> (r: &'static str)
    ensures
        r@ == platform_os_name(p),
{
    match p {
        Platform::MacOS => "macos",
        Platform::Linux => "linux",
        Platform::Windows => "windows",
    }
}

impl PluginManifest {
    /// Fills the placeholders of a template (see [`expand_template`]).
    pub fn expand(&self, template: &str, version: &Version, target: &Target) -> (r: String)
        ensures
            r@ == expand_template(template@, version@, *target),
    {
        proof {
            reveal_strlit("{version}");
            reveal_strlit("{triple}");
            reveal_strlit("{os_alt}");
            reveal_strlit("{os}");
            reveal_strlit("{arch_alt}");
            reveal_strlit("{arch}");
        }
        let t = chars_of(template);
        let a = replace_lit(&t, "{version}", &version.text());
        let b = replace_lit(&a, "{triple}", &chars_of(target.triple()));
        let c = replace_lit(&b, "{os_alt}", &chars_of(target.platform.as_download_str()));
        let d = replace_lit(&c, "{os}", &chars_of(os_name(target.platform)));
        let e = replace_lit(&d, "{arch_alt}", &chars_of(target.arch.as_download_str()));
        let f = replace_lit(&e, "{arch}", &chars_of(target.arch.name()));
        string_of(&f)
    }

    /// Fills the placeholders of a template, `{install_dir}` included.
    pub fn expand_with_dir(&self, template: &str, version: &Version, target: &Target, install_dir: &str) -> (r: String)
        ensures
            r@ == expand_template_with_dir(template@, version@, *target, install_dir@),
    {
        proof {
            reveal_strlit("{install_dir}");
        }
        let e = self.expand(template, version, target);
        let r = replace_lit(&chars_of(e.as_str()), "{install_dir}", &chars_of(install_dir));
        string_of(&r)
    }

    /// Whether this manifest answers to a name: its own or an alias.
    pub fn answers_to(&self, name: &str) -> (r: bool)
        ensures
            r == (self.name@ == name@ || exists|i: int| 0 <= i < self.aliases@.len() && #[trigger] self.aliases@[i]@ == name@),
    {
        if str_eq(self.name.as_str(), name) {
            return true;
        }
        let mut i: usize = 0;
        while i < self.aliases.len()
            invariant
                i <= self.aliases@.len(),
                forall|k: int| 0 <= k < i ==> #[trigger] self.aliases@[k]@ != name@,
            decreases self.aliases.len() - i,
        {
            if str_eq(self.aliases[i].as_str(), name) {
                return true;
            }
            i = i + 1;
        }
        false
    }
}

/// A provider backed by a plugin manifest.
#[derive(Debug)]
pub struct PluginProvider {
    pub manifest: PluginManifest,
}

/// The message a plugin gives for a specifier other than an exact version.
pub open spec fn plugin_exact_msg(name: Seq<char>, spec: crate::version::SpecModel) -> Seq<char> {
    "plugin `"@ + name + "` requires an exact version (e.g., "@ + name + "@1.0.0). Got: "@ + spec_text(spec)
}

impl PluginProvider {
    /// Plugins take exact versions only: an exact specifier is the version;
    /// any other is refused, naming the plugin and the specifier.
    pub fn resolve_version(&self, spec: &VersionSpec, target: &Target) -> (r: Result<Version, ProviderError>)
        ensures
            match spec@ {
                crate::version::SpecModel::Exact(v) => r matches Ok(x) && x@ == v,
                _ => r matches Err(ProviderError::ResolutionFailed { tool: t, reason: m })
                    && t@ == self.manifest.name@ && m@ == plugin_exact_msg(self.manifest.name@, spec@),
            },
    {
        match spec {
            VersionSpec::Exact(v) => Ok(v.duplicate()),
            _ => {
                let mut m: Vec<char> = Vec::new();
                push_str(&mut m, "plugin `");
                push_str(&mut m, self.manifest.name.as_str());
                push_str(&mut m, "` requires an exact version (e.g., ");
                push_str(&mut m, self.manifest.name.as_str());
                push_str(&mut m, "@1.0.0). Got: ");
                push_all(&mut m, &spec.text());
                Err(ProviderError::ResolutionFailed { tool: owned(self.manifest.name.as_str()), reason: string_of(&m) })
            },
        }
    }

    /// The download URL: the manifest's template, expanded.
    pub fn download_url(&self, version: &Version, target: &Target) -> (r: Result<String, ProviderError>)
        ensures
            r matches Ok(u) && u@ == expand_template(self.manifest.download_url@, version@, *target),
    {
        Ok(self.manifest.expand(self.manifest.download_url.as_str(), version, target))
    }
}

impl Provider for PluginProvider {
    fn name(&self) -> (r: &str)
        ensures
            r@ == self.manifest.name@,
    {
        self.manifest.name.as_str()
    }

    fn archive_format(&self, target: &Target) -> (r: ArchiveFormat)
        ensures
            r == manifest_archive_format(self.manifest.archive_format@),
    {
        let f = self.manifest.archive_format.as_str();
        if str_eq(f, "tar.xz") {
            ArchiveFormat::TarXz
        } else if str_eq(f, "zip") {
            ArchiveFormat::Zip
        } else {
            ArchiveFormat::TarGz
        }
    }

    fn bin_paths(&self, version: &Version, target: &Target) -> (r: Vec<String>)
        ensures
            r@.len() == 1,
            r@[0]@ == expand_template(self.manifest.bin_path@, version@, *target),
    {
        vec![self.manifest.expand(self.manifest.bin_path.as_str(), version, target)]
    }

    fn env_vars(&self, install_dir: &str) -> (r: EnvVars)
        ensures
            r.wf(),
            r@ == Map::<Seq<char>, Seq<char>>::empty(),
    {
        EnvVars::new()
    }

    fn post_install_command(&self, version: &Version, target: &Target, install_dir: &str) -> (r: Option<String>)
        ensures
            match self.manifest.post_install {
                None => r is None,
                Some(c) => r matches Some(x) && x@ == expand_template_with_dir(c@, version@, *target, install_dir@),
            },
    {
        match &self.manifest.post_install {
            None => None,
            Some(c) => Some(self.manifest.expand_with_dir(c.as_str(), version, target, install_dir)),
        }
    }
}

/// The index of the first manifest answering to a name, if any.
pub open spec fn plugin_index(plugins: Seq<PluginManifest>, name: Seq<char>) -> int
    decreases plugins.len(),
{
    if plugins.len() == 0 {
        -1
    } else {
        let prev = plugin_index(plugins.drop_last(), name);
        let last = plugins.last();
        if prev != -1 {
            prev
        } else if last.name@ == name || exists|i: int| 0 <= i < last.aliases@.len() && #[trigger] last.aliases@[i]@ == name {
            plugins.len() - 1
        } else {
            -1
        }
    }
}

/// The provider of the first installed plugin that answers to a name (its
/// own or an alias), if any.
pub fn get_plugin_provider(plugins: Vec<PluginManifest>, name: &str) -> (r: Option<PluginProvider>)
    ensures
        r is None <==> plugin_index(plugins@, name@) == -1,
        r matches Some(p) ==> 0 <= plugin_index(plugins@, name@) < plugins@.len()
            && p.manifest == plugins@[plugin_index(plugins@, name@)],
{
    let ghost all = plugins@;
    let mut list = plugins;
    let n = list.len();
    let mut idx: usize = 0;
    while idx < n
        invariant
            n == all.len(),
            all == plugins@,
            list@ == all,
            idx <= n,
            plugin_index(all.subrange(0, idx as int), name@) == -1,
        decreases n - idx,
    {
        assert(all.subrange(0, idx + 1).drop_last() =~= all.subrange(0, idx as int));
        if list[idx].answers_to(name) {
            assert(plugin_index(all.subrange(0, idx + 1), name@) == idx);
            proof {
                lemma_plugin_index_prefix(all, name@, idx + 1);
            }
            let m = list.swap_remove(idx);
            return Some(PluginProvider { manifest: m });
        }
        idx = idx + 1;
    }
    assert(all.subrange(0, n as int) =~= all);
    None
}

/// Once a prefix has a match, longer prefixes keep it.
pub proof fn lemma_plugin_index_prefix(s: Seq<PluginManifest>, name: Seq<char>, k: int)
    requires
        0 < k <= s.len(),
        plugin_index(s.subrange(0, k), name) != -1,
    ensures
        plugin_index(s, name) == plugin_index(s.subrange(0, k), name),
    decreases s.len() - k,
{
    if k == s.len() {
        assert(s.subrange(0, k) =~= s);
    } else {
        assert(s.subrange(0, k + 1).drop_last() =~= s.subrange(0, k));
        lemma_plugin_index_prefix(s, name, k + 1);
    }
}

/// What `runx plugin` is asked to do.
#[derive(Debug, Clone)]
pub enum PluginAction {
    /// Show the installed plugins.
    List,
    /// Install the manifest at a path.
    Add(String),
    /// Remove the plugin with a name.
    Remove(String),
    /// An action runx does not know (its name given).
    Unknown(String),
}

/// Reads a `runx plugin` command: `list`, `add <path>`, `remove <name>`;
/// `add` and `remove` without their argument are refused with the usage.
pub fn plugin_action(action: &str, arg: Option<String>) -> (r: Result<PluginAction, crate::error::RunxError>)
    ensures
        action@ == "list"@ ==> r matches Ok(PluginAction::List),
        action@ == "add"@ ==> match arg {
            Some(a) => r matches Ok(PluginAction::Add(x)) && x@ == a@,
            None => r matches Err(crate::error::RunxError::Plugin(m)) && m@ == "usage: runx plugin add <url-or-path>"@,
        },
        action@ == "remove"@ ==> match arg {
            Some(a) => r matches Ok(PluginAction::Remove(x)) && x@ == a@,
            None => r matches Err(crate::error::RunxError::Plugin(m)) && m@ == "usage: runx plugin remove <name>"@,
        },
        action@ != "list"@ && action@ != "add"@ && action@ != "remove"@ ==> (r matches Ok(PluginAction::Unknown(x)) && x@ == action@),
{
    proof {
        reveal_strlit("list");
        reveal_strlit("add");
        reveal_strlit("remove");
        assert("list"@.len() == 4);
        assert("add"@.len() == 3);
        assert("list"@ != "add"@);
        assert("list"@ != "remove"@);
        assert("add"@ != "remove"@);
    }
    if str_eq(action, "list") {
        Ok(PluginAction::List)
    } else if str_eq(action, "add") {
        match arg {
            Some(a) => Ok(PluginAction::Add(a)),
            None => Err(crate::error::RunxError::Plugin(owned("usage: runx plugin add <url-or-path>"))),
        }
    } else if str_eq(action, "remove") {
        match arg {
            Some(a) => Ok(PluginAction::Remove(a)),
            None => Err(crate::error::RunxError::Plugin(owned("usage: runx plugin remove <name>"))),
        }
    } else {
        Ok(PluginAction::Unknown(owned(action)))
    }
}

/// The file a plugin's manifest is kept in: `<name>.toml`.
pub fn plugin_file_name(name: &str) -> (r: String)
    ensures
        r@ == name@ + ".toml"@,
{
    let mut m = chars_of(name);
    push_str(&mut m, ".toml");
    string_of(&m)
}

/// The lines `runx plugin list` shows for a plugin: its name, with its
/// aliases as ` (aliases: a, b)` when it has any, then its description on
/// a line of its own when it has one.
pub open spec fn plugin_lines(p: PluginManifest) -> Seq<Seq<char>> {
    let aliases = p.aliases@.map_values(|a: String| a@);
    let head = "  "@ + p.name@ + (if aliases.len() == 0 {
        Seq::<char>::empty()
    } else {
        " (aliases: "@ + crate::text::join_seqs(aliases, ", "@) + ")"@
    });
    if p.description@.len() == 0 {
        seq![head]
    } else {
        seq![head, "    "@ + p.description@]
    }
}

/// The lines `runx plugin list` shows for a plugin (see [`plugin_lines`]).
pub fn plugin_listing(p: &PluginManifest) -> (r: Vec<String>)
    ensures
        crate::text::texts_of(r@) == plugin_lines(*p),
{
    let ghost aliases = p.aliases@.map_values(|a: String| a@);
    let mut head: Vec<char> = Vec::new();
    push_str(&mut head, "  ");
    push_str(&mut head, p.name.as_str());
    if p.aliases.len() > 0 {
        push_str(&mut head, " (aliases: ");
        let j = crate::text::join_strings(&p.aliases, ", ");
        assert(crate::text::texts_of(p.aliases@) =~= aliases);
        push_all(&mut head, &j);
        push_str(&mut head, ")");
        assert(head@ =~= "  "@ + p.name@ + (" (aliases: "@ + crate::text::join_seqs(aliases, ", "@) + ")"@));
    } else {
        assert(head@ =~= "  "@ + p.name@ + Seq::<char>::empty());
    }
    let mut r: Vec<String> = Vec::new();
    r.push(string_of(&head));
    if p.description.as_str().unicode_len() > 0 {
        let mut d: Vec<char> = Vec::new();
        push_str(&mut d, "    ");
        push_str(&mut d, p.description.as_str());
        r.push(string_of(&d));
    }
    proof {
        reveal_strlit("");
    }
    assert(crate::text::texts_of(r@) =~= plugin_lines(*p));
    r
}

proof fn lemma_replace_absent(s: Seq<char>, pat: Seq<char>, rep: Seq<char>)
    requires
        pat.len() > 0,
        pat[0] == '{',
        !s.contains('{'),
    ensures
        replace_all(s, pat, rep) == s,
    decreases s.len(),
{
    if s.len() > 0 {
        if crate::text::starts_with(s, pat) {
            assert(s.subrange(0, pat.len() as int)[0] == s[0]);
            assert(s.contains(s[0]));
        }
        let t = s.drop_first();
        assert(!t.contains('{')) by {
            if t.contains('{') {
                let j = choose|j: int| 0 <= j < t.len() && t[j] == '{';
                assert(s[j + 1] == '{');
            }
        }
        lemma_replace_absent(t, pat, rep);
        assert(s =~= seq![s[0]] + t);
    }
}

proof fn lemma_replace_prefix_free(a: Seq<char>, x: Seq<char>, pat: Seq<char>, rep: Seq<char>)
    requires
        pat.len() > 0,
        pat[0] == '{',
        !a.contains('{'),
    ensures
        replace_all(a + x, pat, rep) == a + replace_all(x, pat, rep),
    decreases a.len(),
{
    if a.len() > 0 {
        let s = a + x;
        if crate::text::starts_with(s, pat) {
            assert(s.subrange(0, pat.len() as int)[0] == s[0]);
            assert(a[0] == s[0]);
            assert(a.contains(a[0]));
        }
        let t = a.drop_first();
        assert(!t.contains('{')) by {
            if t.contains('{') {
                let j = choose|j: int| 0 <= j < t.len() && t[j] == '{';
                assert(a[j + 1] == '{');
            }
        }
        assert(s.drop_first() =~= t + x);
        lemma_replace_prefix_free(t, x, pat, rep);
        assert(a =~= seq![a[0]] + t);
    } else {
        assert(a + x =~= x);
    }
}

/// Replacing `pat` in `x + b`, where `x` is one placeholder (a `{` then no
/// other `{`) and `b` holds no `{`: the placeholder becomes `rep` when it
/// is `pat`, and stays otherwise.
proof fn lemma_replace_placeholder(x: Seq<char>, b: Seq<char>, pat: Seq<char>, rep: Seq<char>)
    requires
        pat.len() > 0,
        pat[0] == '{',
        x.len() > 0,
        x[0] == '{',
        !x.drop_first().contains('{'),
        !b.contains('{'),
        x == pat || !crate::text::starts_with(x + b, pat),
    ensures
        replace_all(x + b, pat, rep) == (if x == pat { rep } else { x }) + b,
{
    let s = x + b;
    let t = x.drop_first();
    assert(!(t + b).contains('{')) by {
        if (t + b).contains('{') {
            let j = choose|j: int| 0 <= j < (t + b).len() && (t + b)[j] == '{';
            if j < t.len() {
                assert(t[j] == '{');
                assert(t.contains('{'));
            } else {
                assert(b[j - t.len()] == '{');
                assert(b.contains('{'));
            }
        }
    }
    if x == pat {
        assert(s.subrange(0, pat.len() as int) =~= pat);
        assert(s.subrange(pat.len() as int, s.len() as int) =~= b);
        lemma_replace_absent(b, pat, rep);
    } else {
        assert(s.drop_first() =~= t + b);
        lemma_replace_absent(t + b, pat, rep);
        assert(x =~= seq![x[0]] + t);
        assert(s =~= seq![s[0]] + (t + b));
    }
}

/// Whether a text holds no `{`.
pub open spec fn brace_free(s: Seq<char>) -> bool {
    !s.contains('{')
}

/// In a plugin template, `{os}` stands for the lowercase platform name,
/// `macos`, `linux` or `windows` (where `{os_alt}` stands for the download
/// style, `darwin`, `linux` or `win`): a template made of literal text
/// around one `{os}` expands to that text around the name, for every
/// version, target and surrounding text.
pub proof fn lemma_os_placeholder(a: Seq<char>, b: Seq<char>, v: VersionView, target: Target)
    requires
        brace_free(a),
        brace_free(b),
    ensures
        expand_template(a + "{os}"@ + b, v, target) == a + (match target.platform { Platform::MacOS => "macos"@, Platform::Linux => "linux"@, Platform::Windows => "windows"@ }) + b,
        expand_template(a + "{os_alt}"@ + b, v, target) == a + (match target.platform { Platform::MacOS => "darwin"@, Platform::Linux => "linux"@, Platform::Windows => "win"@ }) + b,
{
    reveal_strlit("{os}");
    reveal_strlit("{os_alt}");
    reveal_strlit("{version}");
    reveal_strlit("{triple}");
    reveal_strlit("{arch_alt}");
    reveal_strlit("{arch}");
    reveal_strlit("macos");
    reveal_strlit("linux");
    reveal_strlit("windows");
    reveal_strlit("darwin");
    reveal_strlit("win");
    let name = platform_os_name(target.platform);
    let an = platform_download_name(target.platform);
    assert(!name.contains('{'));
    assert(!an.contains('{'));
    // `{os}` around literal text.
    let x = "{os}"@;
    assert(!x.drop_first().contains('{')) by {
        assert(x.drop_first() =~= seq!['o', 's', '}']);
    }
    assert(a + x + b =~= a + (x + b));
    lemma_replace_prefix_free(a, x + b, "{version}"@, version_text(v));
    assert(!crate::text::starts_with(x + b, "{version}"@)) by {
        if crate::text::starts_with(x + b, "{version}"@) {
            assert((x + b).subrange(0, 9)[1] == (x + b)[1]);
        }
    }
    lemma_replace_placeholder(x, b, "{version}"@, version_text(v));
    lemma_replace_prefix_free(a, x + b, "{triple}"@, target_triple(target));
    assert(!crate::text::starts_with(x + b, "{triple}"@)) by {
        if crate::text::starts_with(x + b, "{triple}"@) {
            assert((x + b).subrange(0, 8)[1] == (x + b)[1]);
        }
    }
    lemma_replace_placeholder(x, b, "{triple}"@, target_triple(target));
    lemma_replace_prefix_free(a, x + b, "{os_alt}"@, an);
    assert(!crate::text::starts_with(x + b, "{os_alt}"@)) by {
        if crate::text::starts_with(x + b, "{os_alt}"@) {
            assert((x + b).subrange(0, 8)[3] == (x + b)[3]);
        }
    }
    lemma_replace_placeholder(x, b, "{os_alt}"@, an);
    lemma_replace_prefix_free(a, x + b, "{os}"@, name);
    lemma_replace_placeholder(x, b, "{os}"@, name);
    let r = a + (name + b);
    assert(!r.contains('{')) by {
        if r.contains('{') {
            let j = choose|j: int| 0 <= j < r.len() && r[j] == '{';
            if j < a.len() {
                assert(a[j] == '{');
                assert(a.contains('{'));
            } else if j < a.len() + name.len() {
                assert(name[j - a.len()] == '{');
                assert(name.contains('{'));
            } else {
                assert(b[j - a.len() - name.len()] == '{');
                assert(b.contains('{'));
            }
        }
    }
    lemma_replace_absent(r, "{arch_alt}"@, arch_download_name(target.arch));
    lemma_replace_absent(r, "{arch}"@, arch_display(target.arch));
    assert(r =~= a + name + b);
    // `{os_alt}` around literal text.
    let y = "{os_alt}"@;
    assert(!y.drop_first().contains('{')) by {
        assert(y.drop_first() =~= seq!['o', 's', '_', 'a', 'l', 't', '}']);
    }
    assert(a + y + b =~= a + (y + b));
    lemma_replace_prefix_free(a, y + b, "{version}"@, version_text(v));
    assert(!crate::text::starts_with(y + b, "{version}"@)) by {
        if crate::text::starts_with(y + b, "{version}"@) {
            assert((y + b).subrange(0, 9)[1] == (y + b)[1]);
        }
    }
    lemma_replace_placeholder(y, b, "{version}"@, version_text(v));
    lemma_replace_prefix_free(a, y + b, "{triple}"@, target_triple(target));
    assert(!crate::text::starts_with(y + b, "{triple}"@)) by {
        if crate::text::starts_with(y + b, "{triple}"@) {
            assert((y + b).subrange(0, 8)[1] == (y + b)[1]);
        }
    }
    assert(y != "{triple}"@) by {
        assert(y[1] != "{triple}"@[1]);
    }
    lemma_replace_placeholder(y, b, "{triple}"@, target_triple(target));
    lemma_replace_prefix_free(a, y + b, "{os_alt}"@, an);
    lemma_replace_placeholder(y, b, "{os_alt}"@, an);
    let q = a + (an + b);
    assert(!q.contains('{')) by {
        if q.contains('{') {
            let j = choose|j: int| 0 <= j < q.len() && q[j] == '{';
            if j < a.len() {
                assert(a[j] == '{');
                assert(a.contains('{'));
            } else if j < a.len() + an.len() {
                assert(an[j - a.len()] == '{');
                assert(an.contains('{'));
            } else {
                assert(b[j - a.len() - an.len()] == '{');
                assert(b.contains('{'));
            }
        }
    }
    lemma_replace_absent(q, "{os}"@, name);
    lemma_replace_absent(q, "{arch_alt}"@, arch_download_name(target.arch));
    lemma_replace_absent(q, "{arch}"@, arch_display(target.arch));
    assert(q =~= a + an + b);
    let t2 = a + y + b;
    let c1 = replace_all(t2, "{version}"@, version_text(v));
    assert(c1 == a + (y + b));
    let c2 = replace_all(c1, "{triple}"@, target_triple(target));
    assert(c2 == a + (y + b));
    let c3 = replace_all(c2, "{os_alt}"@, an);
    assert(c3 == q);
    let c4 = replace_all(c3, "{os}"@, name);
    assert(c4 == q);
}

} // verus!

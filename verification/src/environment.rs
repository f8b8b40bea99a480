//! Environment variables for child processes: an ordered variable set, and
//! the isolated (or inherited) environment a command runs in.

use vstd::prelude::*;
use vstd::string::*;

use crate::platform::{Platform, platform_separator, platform_system_path};
use crate::text::{chars_eq, chars_of, has_prefix, push_all, push_str, starts_with, string_of};

verus! {

/// Errors of environment construction.
#[derive(Debug, Clone)]
pub enum EnvironmentError {
    /// A temporary directory for a variable could not be created (the error
    /// text given).
    TempDir { var: String, reason: String },
}

/// The message each environment error displays.
pub open spec fn environment_error_text(e: EnvironmentError) -> Seq<char> {
    match e {
        EnvironmentError::TempDir { var, reason } => "failed to create temp directory for `"@ + var@
            + "`: "@ + reason@,
    }
}

impl EnvironmentError {
    /// The message this error displays.
    pub fn to_string(&self) -> (r: String)
        ensures
            r@ == environment_error_text(*self),
    {
        let mut m: Vec<char> = Vec::new();
        match self {
            EnvironmentError::TempDir { var, reason } => {
                crate::text::push_str(&mut m, "failed to create temp directory for `");
                crate::text::push_str(&mut m, var.as_str());
                crate::text::push_str(&mut m, "`: ");
                crate::text::push_str(&mut m, reason.as_str());
            },
        }
        crate::text::string_of(&m)
    }
}

/// A set of environment variables: each name at most once, in insertion
/// order.
#[derive(Debug, Clone)]
pub struct EnvVars {
    entries: Vec<(String, String)>,
}

/// The variables a list of entries defines; a later entry wins.
pub open spec fn entries_map(s: Seq<(String, String)>) -> Map<Seq<char>, Seq<char>>
    decreases s.len(),
{
    if s.len() == 0 {
        Map::empty()
    } else {
        entries_map(s.drop_last()).insert(s.last().0@, s.last().1@)
    }
}

/// No name occurs twice.
pub open spec fn names_unique(s: Seq<(String, String)>) -> bool {
    forall|i: int, j: int| 0 <= i < j < s.len() ==> s[i].0@ != s[j].0@
}

/// The map of a list holds exactly its names, each with the value of its
/// (last) entry.
pub proof fn lemma_entries_map(s: Seq<(String, String)>)
    ensures
        forall|k: Seq<char>| #[trigger] entries_map(s).contains_key(k) <==> (exists|i: int| 0 <= i < s.len() && s[i].0@ == k),
        names_unique(s) ==> forall|i: int| 0 <= i < s.len() ==> entries_map(s)[#[trigger] s[i].0@] == s[i].1@,
        names_unique(s) ==> entries_map(s).dom().len() == s.len(),
        entries_map(s).dom().finite(),
    decreases s.len(),
{
    if s.len() > 0 {
        let p = s.drop_last();
        lemma_entries_map(p);
        assert forall|k: Seq<char>| #[trigger] entries_map(s).contains_key(k) <==> (exists|i: int| 0 <= i < s.len() && s[i].0@ == k) by {
            if entries_map(s).contains_key(k) && k != s.last().0@ {
                let i = choose|i: int| 0 <= i < p.len() && p[i].0@ == k;
                assert(s[i] == p[i]);
            }
            if exists|i: int| 0 <= i < s.len() && s[i].0@ == k {
                let i = choose|i: int| 0 <= i < s.len() && s[i].0@ == k;
                if i < p.len() {
                    assert(s[i] == p[i]);
                }
            }
        }
        if names_unique(s) {
            assert(names_unique(p)) by {
                assert forall|i: int, j: int| 0 <= i < j < p.len() implies p[i].0@ != p[j].0@ by {
                    assert(p[i] == s[i] && p[j] == s[j]);
                }
            }
            assert forall|i: int| 0 <= i < s.len() implies entries_map(s)[#[trigger] s[i].0@] == s[i].1@ by {
                if i < p.len() {
                    assert(p[i] == s[i]);
                    assert(s[i].0@ != s.last().0@);
                }
            }
            assert(!entries_map(p).contains_key(s.last().0@)) by {
                if entries_map(p).contains_key(s.last().0@) {
                    let i = choose|i: int| 0 <= i < p.len() && p[i].0@ == s.last().0@;
                    assert(p[i] == s[i]);
                }
            }
        }
    }
}

impl View for EnvVars {
    type V = Map<Seq<char>, Seq<char>>;

    closed spec fn view(&self) -> Map<Seq<char>, Seq<char>> {
        entries_map(self.entries@)
    }
}

impl EnvVars {
    /// Each name occurs once.
    pub closed spec fn wf(&self) -> bool {
        names_unique(self.entries@)
    }

    /// The variables in insertion order.
    pub closed spec fn entries(&self) -> Seq<(String, String)> {
        self.entries@
    }

    /// No variables.
    pub fn new() -> (r: EnvVars)
        ensures
            r.wf(),
            r@ == Map::<Seq<char>, Seq<char>>::empty(),
            r.entries().len() == 0,
    {
        EnvVars { entries: Vec::new() }
    }

    /// The position of a name, if present.
    fn position(&self, key: &str) -> (r: Option<usize>)
        ensures
            match r {
                Some(i) => i < self.entries@.len() && self.entries@[i as int].0@ == key@,
                None => forall|i: int| 0 <= i < self.entries@.len() ==> self.entries@[i].0@ != key@,
            },
    {
        let k = chars_of(key);
        let mut i: usize = 0;
        while i < self.entries.len()
            invariant
                i <= self.entries@.len(),
                k@ == key@,
                forall|j: int| 0 <= j < i ==> self.entries@[j].0@ != key@,
            decreases self.entries.len() - i,
        {
            let n = chars_of(self.entries[i].0.as_str());
            if chars_eq(&n, &k) {
                return Some(i);
            }
            i = i + 1;
        }
        None
    }

    /// Sets a variable, replacing an existing value of the same name.
    pub fn insert(&mut self, key: String, value: String)
        requires
            old(self).wf(),
        ensures
            final(self).wf(),
            final(self)@ == old(self)@.insert(key@, value@),
    {
        proof {
            lemma_entries_map(self.entries@);
        }
        match self.position(key.as_str()) {
            Some(i) => {
                let ghost prev = self.entries@;
                self.entries.set(i, (key, value));
                proof {
                    lemma_entries_map(self.entries@);
                    assert(names_unique(self.entries@)) by {
                        assert forall|a: int, b: int| 0 <= a < b < self.entries@.len() implies self.entries@[a].0@ != self.entries@[b].0@ by {
                            if a != i && b != i {
                                assert(self.entries@[a] == prev[a] && self.entries@[b] == prev[b]);
                            } else if a == i {
                                assert(self.entries@[b] == prev[b]);
                            } else {
                                assert(self.entries@[a] == prev[a]);
                            }
                        }
                    }
                    assert(self@ =~= old(self)@.insert(key@, value@)) by {
                        assert forall|k: Seq<char>| #[trigger] self@.contains_key(k) <==> old(self)@.insert(key@, value@).contains_key(k) by {
                            if self@.contains_key(k) {
                                let j = choose|j: int| 0 <= j < self.entries@.len() && self.entries@[j].0@ == k;
                                if j != i {
                                    assert(self.entries@[j] == prev[j]);
                                }
                            }
                            if old(self)@.contains_key(k) {
                                let j = choose|j: int| 0 <= j < prev.len() && prev[j].0@ == k;
                                if j != i {
                                    assert(self.entries@[j] == prev[j]);
                                } else {
                                    assert(self.entries@[i as int].0@ == k);
                                }
                            }
                        }
                        assert forall|k: Seq<char>| #[trigger] self@.contains_key(k) implies self@[k] == old(self)@.insert(key@, value@)[k] by {
                            let j = choose|j: int| 0 <= j < self.entries@.len() && self.entries@[j].0@ == k;
                            if j != i {
                                assert(self.entries@[j] == prev[j]);
                                assert(self@[self.entries@[j].0@] == self.entries@[j].1@);
                                assert(old(self)@[prev[j].0@] == prev[j].1@);
                            } else {
                                assert(self@[self.entries@[i as int].0@] == value@);
                            }
                        }
                    }
                }
            },
            None => {
                let ghost prev = self.entries@;
                self.entries.push((key, value));
                proof {
                    assert(self.entries@.drop_last() =~= prev);
                    assert(names_unique(self.entries@)) by {
                        assert forall|a: int, b: int| 0 <= a < b < self.entries@.len() implies self.entries@[a].0@ != self.entries@[b].0@ by {
                            assert(self.entries@[a] == prev[a]);
                            if b < prev.len() {
                                assert(self.entries@[b] == prev[b]);
                            }
                        }
                    }
                }
            },
        }
    }

    /// The value of a variable.
    pub fn get(&self, key: &str) -> (r: Option<&String>)
        requires
            self.wf(),
        ensures
            match r {
                Some(v) => self@.contains_key(key@) && self@[key@] == v@,
                None => !self@.contains_key(key@),
            },
    {
        proof {
            lemma_entries_map(self.entries@);
        }
        match self.position(key) {
            Some(i) => Some(&self.entries[i].1),
            None => None,
        }
    }

    /// Whether a variable is set.
    pub fn contains_key(&self, key: &str) -> (r: bool)
        requires
            self.wf(),
        ensures
            r == self@.contains_key(key@),
    {
        proof {
            lemma_entries_map(self.entries@);
        }
        match self.position(key) {
            Some(_) => true,
            None => false,
        }
    }

    /// The number of variables.
    pub fn len(&self) -> (r: usize)
        requires
            self.wf(),
        ensures
            r == self@.dom().len(),
    {
        proof {
            lemma_entries_map(self.entries@);
        }
        self.entries.len()
    }

    /// Whether no variable is set.
    pub fn is_empty(&self) -> (r: bool)
        requires
            self.wf(),
        ensures
            r == (self@.dom().len() == 0),
    {
        self.len() == 0
    }

    /// The `i`-th variable in insertion order.
    pub fn entry(&self, i: usize) -> (r: (&String, &String))
        requires
            i < self.entries().len(),
        ensures
            *r.0 == self.entries()[i as int].0,
            *r.1 == self.entries()[i as int].1,
    {
        (&self.entries[i].0, &self.entries[i].1)
    }

    /// The number of entries in insertion order.
    pub fn entry_count(&self) -> (r: usize)
        ensures
            r == self.entries().len(),
    {
        self.entries.len()
    }

    /// Sets every variable of `other` (in its order), overriding.
    pub fn extend(&mut self, other: &EnvVars)
        requires
            old(self).wf(),
            other.wf(),
        ensures
            final(self).wf(),
            final(self)@ == old(self)@.union_prefer_right(other@),
    {
        let mut i: usize = 0;
        while i < other.entries.len()
            invariant
                self.wf(),
                i <= other.entries@.len(),
                self@ == old(self)@.union_prefer_right(entries_map(other.entries@.subrange(0, i as int))),
            decreases other.entries.len() - i,
        {
            let (k, v) = (other.entries[i].0.clone(), other.entries[i].1.clone());
            let ghost before = self@;
            self.insert(k, v);
            proof {
                let q = other.entries@.subrange(0, i + 1);
                assert(q.drop_last() =~= other.entries@.subrange(0, i as int));
                assert(self@ =~= old(self)@.union_prefer_right(entries_map(q)));
            }
            i = i + 1;
        }
        assert(other.entries@.subrange(0, i as int) =~= other.entries@);
    }

    /// A set of variables from pairs; a later pair overrides an earlier one
    /// of the same name.
    pub fn from_pairs(pairs: Vec<(String, String)>) -> (r: EnvVars)
        ensures
            r.wf(),
            r@ == entries_map(pairs@),
    {
        let mut r = EnvVars::new();
        let mut i: usize = 0;
        while i < pairs.len()
            invariant
                r.wf(),
                i <= pairs@.len(),
                r@ == entries_map(pairs@.subrange(0, i as int)),
            decreases pairs.len() - i,
        {
            let (k, v) = (pairs[i].0.clone(), pairs[i].1.clone());
            r.insert(k, v);
            proof {
                let q = pairs@.subrange(0, i + 1);
                assert(q.drop_last() =~= pairs@.subrange(0, i as int));
            }
            i = i + 1;
        }
        assert(pairs@.subrange(0, i as int) =~= pairs@);
        r
    }
}

impl EnvVars {
    /// The view is the map of the entries, whose names are unique.
    pub proof fn lemma_view(&self)
        requires
            self.wf(),
        ensures
            self@ == entries_map(self.entries()),
            names_unique(self.entries()),
    {
    }
}

/// Joins parts with a separator character.
pub open spec fn join_with(parts: Seq<Seq<char>>, sep: char) -> Seq<char>
    decreases parts.len(),
{
    if parts.len() == 0 {
        Seq::empty()
    } else if parts.len() == 1 {
        parts[0]
    } else {
        join_with(parts.drop_last(), sep) + seq![sep] + parts.last()
    }
}

/// A `PATH` value: the tool directories, then the base path when it is
/// not empty, joined by the separator.
pub open spec fn path_value(bins: Seq<Seq<char>>, base: Seq<char>, sep: char) -> Seq<char> {
    join_with(if base.len() == 0 { bins } else { bins.push(base) }, sep)
}

/// The views of a sequence of strings.
pub open spec fn string_views(s: Seq<String>) -> Seq<Seq<char>> {
    s.map_values(|x: String| x@)
}

/// Variables always passed through from the user's environment.
pub open spec fn baseline_names() -> Seq<Seq<char>> {
    seq!["HOME"@, "USER"@, "TERM"@, "LANG"@, "SHELL"@, "TMPDIR"@]
}

/// Whether a variable of the user's environment passes into an isolated
/// environment: a baseline name, or a name starting with `LC_` or `XDG_`.
pub open spec fn passes_isolation(k: Seq<char>) -> bool {
    baseline_names().contains(k) || starts_with(k, "LC_"@) || starts_with(k, "XDG_"@)
}

/// The isolated base environment: a constructed `PATH` (tool directories
/// then the platform's system path) and the passing user variables.
pub open spec fn isolated_env(p: Platform, bins: Seq<Seq<char>>, user: Map<Seq<char>, Seq<char>>) -> Map<Seq<char>, Seq<char>> {
    map!["PATH"@ => path_value(bins, platform_system_path(p), platform_separator(p))].union_prefer_right(
        user.restrict(Set::new(|k: Seq<char>| passes_isolation(k))),
    )
}

/// The inherited base environment: the user's environment with the tool
/// directories put in front of its `PATH`.
pub open spec fn inherited_env(p: Platform, bins: Seq<Seq<char>>, user: Map<Seq<char>, Seq<char>>) -> Map<Seq<char>, Seq<char>> {
    let existing = if user.contains_key("PATH"@) { user["PATH"@] } else { Seq::empty() };
    user.insert("PATH"@, path_value(bins, existing, platform_separator(p)))
}

/// The environment a command runs in: the base environment, then the
/// tools' variables, then the temporary-directory variables, each layer
/// overriding the one before.
pub open spec fn built_env(
    p: Platform,
    bins: Seq<Seq<char>>,
    tool: Map<Seq<char>, Seq<char>>,
    temp: Map<Seq<char>, Seq<char>>,
    inherit: bool,
    user: Map<Seq<char>, Seq<char>>,
) -> Map<Seq<char>, Seq<char>> {
    let base = if inherit { inherited_env(p, bins, user) } else { isolated_env(p, bins, user) };
    base.union_prefer_right(tool).union_prefer_right(temp)
}

/// The complete environment of a child process.
#[derive(Debug)]
pub struct Environment {
    vars: EnvVars,
}

impl Environment {
    #[verifier::type_invariant]
    spec fn inv(&self) -> bool {
        self.vars.wf()
    }
}

impl View for Environment {
    type V = Map<Seq<char>, Seq<char>>;

    closed spec fn view(&self) -> Map<Seq<char>, Seq<char>> {
        self.vars@
    }
}

fn join_strings(parts: &Vec<Vec<char>>, sep: char) -> (r: Vec<char>)
    ensures
        r@ == join_with(parts@.map_values(|x: Vec<char>| x@), sep),
{
    let ghost pv = parts@.map_values(|x: Vec<char>| x@);
    let mut out: Vec<char> = Vec::new();
    let mut i: usize = 0;
    while i < parts.len()
        invariant
            i <= parts.len(),
            pv == parts@.map_values(|x: Vec<char>| x@),
            out@ == join_with(pv.subrange(0, i as int), sep),
        decreases parts.len() - i,
    {
        let ghost q = pv.subrange(0, i + 1);
        assert(q.drop_last() =~= pv.subrange(0, i as int));
        if i > 0 {
            out.push(sep);
        } else {
            assert(q.len() == 1);
        }
        push_all(&mut out, &parts[i]);
        i = i + 1;
    }
    assert(pv.subrange(0, i as int) =~= pv);
    out
}

impl Environment {
    /// Builds the environment for a command. In isolated mode (`inherit_env`
    /// false) `PATH` is the tool directories then the platform's minimal
    /// system path, and only baseline user variables (and `LC_*`, `XDG_*`)
    /// pass through; in inherit mode the whole user environment passes, with
    /// the tool directories in front of its `PATH`. Tool variables override
    /// the base; temporary-directory variables override both. `user_env` is
    /// the calling process's environment.
    pub fn build(
        platform: Platform,
        tool_bin_dirs: &Vec<String>,
        tool_env_vars: &EnvVars,
        temp_env_vars: &EnvVars,
        inherit_env: bool,
        user_env: &EnvVars,
    ) -> (r: Environment)
        requires
            tool_env_vars.wf(),
            temp_env_vars.wf(),
            user_env.wf(),
        ensures
            r@ == built_env(platform, string_views(tool_bin_dirs@), tool_env_vars@, temp_env_vars@, inherit_env, user_env@),
    {
        let mut vars = if inherit_env {
            Environment::inherited_vars(platform, tool_bin_dirs, user_env)
        } else {
            Environment::isolated_vars(platform, tool_bin_dirs, user_env)
        };
        vars.extend(tool_env_vars);
        vars.extend(temp_env_vars);
        Environment { vars }
    }

    /// The variables of this environment.
    pub fn vars(&self) -> (r: &EnvVars)
        ensures
            r@ == self@,
            r.wf(),
    {
        proof {
            use_type_invariant(self);
        }
        &self.vars
    }

    /// The variables of this environment, owned.
    pub fn into_vars(self) -> (r: EnvVars)
        ensures
            r@ == self@,
            r.wf(),
    {
        proof {
            use_type_invariant(&self);
        }
        self.vars
    }

    /// The `PATH` value: tool directories, then `base_path` if not empty,
    /// joined by `sep`.
    pub fn build_path(tool_bin_dirs: &Vec<String>, base_path: &str, sep: char) -> (r: String)
        ensures
            r@ == path_value(string_views(tool_bin_dirs@), base_path@, sep),
    {
        let mut parts: Vec<Vec<char>> = Vec::new();
        let mut i: usize = 0;
        while i < tool_bin_dirs.len()
            invariant
                i <= tool_bin_dirs.len(),
                parts@.map_values(|x: Vec<char>| x@) =~= string_views(tool_bin_dirs@).subrange(0, i as int),
            decreases tool_bin_dirs.len() - i,
        {
            let ghost before = parts@.map_values(|x: Vec<char>| x@);
            parts.push(chars_of(tool_bin_dirs[i].as_str()));
            assert(parts@.map_values(|x: Vec<char>| x@) =~= before.push(tool_bin_dirs@[i as int]@));
            i = i + 1;
        }
        assert(string_views(tool_bin_dirs@).subrange(0, i as int) =~= string_views(tool_bin_dirs@));
        let base = chars_of(base_path);
        if base.len() > 0 {
            parts.push(base);
        }
        assert(parts@.map_values(|x: Vec<char>| x@) =~= (if base_path@.len() == 0 {
            string_views(tool_bin_dirs@)
        } else {
            string_views(tool_bin_dirs@).push(base_path@)
        }));
        let r = join_strings(&parts, sep);
        string_of(&r)
    }

    fn inherited_vars(platform: Platform, tool_bin_dirs: &Vec<String>, user_env: &EnvVars) -> (r: EnvVars)
        requires
            user_env.wf(),
        ensures
            r.wf(),
            r@ == inherited_env(platform, string_views(tool_bin_dirs@), user_env@),
    {
        let mut vars = user_env.clone_vars();
        let existing: String = match user_env.get("PATH") {
            Some(p) => p.clone(),
            None => String::new(),
        };
        let path = Environment::build_path(tool_bin_dirs, existing.as_str(), platform.path_separator());
        let key = string_of(&chars_of("PATH"));
        vars.insert(key, path);
        vars
    }

    fn isolated_vars(platform: Platform, tool_bin_dirs: &Vec<String>, user_env: &EnvVars) -> (r: EnvVars)
        requires
            user_env.wf(),
        ensures
            r.wf(),
            r@ == isolated_env(platform, string_views(tool_bin_dirs@), user_env@),
    {
        let mut vars = EnvVars::new();
        let path = Environment::build_path(tool_bin_dirs, platform.system_path(), platform.path_separator());
        let key = string_of(&chars_of("PATH"));
        vars.insert(key, path);
        let ghost start = vars@;
        let ghost user = user_env@;
        let ghost passing = Set::new(|k: Seq<char>| passes_isolation(k));
        proof {
            user_env.lemma_view();
            lemma_entries_map(user_env.entries());
        }
        let n = user_env.entry_count();
        let mut i: usize = 0;
        while i < n
            invariant
                n == user_env.entries().len(),
                i <= n,
                vars.wf(),
                user_env.wf(),
                user == user_env@,
                passing == Set::new(|k: Seq<char>| passes_isolation(k)),
                user == entries_map(user_env.entries()),
                names_unique(user_env.entries()),
                forall|j: int| 0 <= j < user_env.entries().len() ==> user[#[trigger] user_env.entries()[j].0@] == user_env.entries()[j].1@,
                forall|k: Seq<char>| #[trigger] user.contains_key(k) <==> (exists|j: int| 0 <= j < user_env.entries().len() && user_env.entries()[j].0@ == k),
                vars@ == start.union_prefer_right(user.restrict(passing).restrict(Set::new(|k: Seq<char>| exists|j: int| 0 <= j < i && user_env.entries()[j].0@ == k))),
            decreases n - i,
        {
            let (k, v) = user_env.entry(i);
            let kc = chars_of(k.as_str());
            let ghost before = Set::new(|x: Seq<char>| exists|j: int| 0 <= j < i && user_env.entries()[j].0@ == x);
            let ghost after = Set::new(|x: Seq<char>| exists|j: int| 0 <= j < i + 1 && user_env.entries()[j].0@ == x);
            proof {
                assert(after =~= before.insert(k@)) by {
                    assert forall|x: Seq<char>| after.contains(x) implies before.insert(k@).contains(x) by {
                        let j = choose|j: int| 0 <= j < i + 1 && user_env.entries()[j].0@ == x;
                        if j < i {
                            assert(before.contains(x));
                        }
                    }
                    assert forall|x: Seq<char>| before.insert(k@).contains(x) implies after.contains(x) by {
                        if x == k@ {
                            assert(user_env.entries()[i as int].0@ == x);
                        } else {
                            let j = choose|j: int| 0 <= j < i && user_env.entries()[j].0@ == x;
                            assert(0 <= j < i + 1);
                        }
                    }
                }
                assert(user.contains_key(k@)) by {
                    assert(user_env.entries()[i as int].0@ == k@);
                }
                assert(user[k@] == v@);
            }
            let ghost rb = user.restrict(passing).restrict(before);
            let ghost ra = user.restrict(passing).restrict(after);
            let ghost vb = vars@;
            if Environment::passes(&kc) {
                vars.insert(k.clone(), v.clone());
                proof {
                    assert(ra =~= rb.insert(k@, v@));
                    assert(vars@ =~= start.union_prefer_right(ra));
                }
            } else {
                proof {
                    assert(!passing.contains(k@));
                    assert(ra =~= rb);
                }
            }
            i = i + 1;
        }
        proof {
            let all = Set::new(|k: Seq<char>| exists|j: int| 0 <= j < n && user_env.entries()[j].0@ == k);
            assert(user.restrict(passing).restrict(all) =~= user.restrict(passing));
        }
        vars
    }

    fn passes(k: &Vec<char>) -> (r: bool)
        ensures
            r == passes_isolation(k@),
    {
        proof {
            reveal_strlit("HOME");
            reveal_strlit("USER");
            reveal_strlit("TERM");
            reveal_strlit("LANG");
            reveal_strlit("SHELL");
            reveal_strlit("TMPDIR");
        }
        let names = vec![chars_of("HOME"), chars_of("USER"), chars_of("TERM"), chars_of("LANG"), chars_of("SHELL"), chars_of("TMPDIR")];
        assert(names@.map_values(|x: Vec<char>| x@) =~= baseline_names());
        let mut i: usize = 0;
        while i < names.len()
            invariant
                i <= names.len(),
                names@.map_values(|x: Vec<char>| x@) =~= baseline_names(),
                forall|j: int| 0 <= j < i ==> baseline_names()[j] != k@,
            decreases names.len() - i,
        {
            if chars_eq(&names[i], k) {
                assert(baseline_names()[i as int] == k@);
                return true;
            }
            i = i + 1;
        }
        assert(!baseline_names().contains(k@));
        let lc = chars_of("LC_");
        let xdg = chars_of("XDG_");
        has_prefix(k, &lc) || has_prefix(k, &xdg)
    }
}

impl EnvVars {
    /// A copy of these variables.
    pub fn clone_vars(&self) -> (r: EnvVars)
        requires
            self.wf(),
        ensures
            r.wf(),
            r@ == self@,
            r.entries() == self.entries(),
    {
        let mut entries: Vec<(String, String)> = Vec::new();
        let mut i: usize = 0;
        while i < self.entries.len()
            invariant
                i <= self.entries.len(),
                entries@ =~= self.entries@.subrange(0, i as int),
            decreases self.entries.len() - i,
        {
            let (k, v) = (self.entries[i].0.clone(), self.entries[i].1.clone());
            entries.push((k, v));
            i = i + 1;
        }
        assert(entries@ =~= self.entries@);
        EnvVars { entries }
    }
}


/// The clean room: in isolated mode a variable of the built environment is
/// `PATH`, a baseline user variable (or `LC_*`, `XDG_*`), a tool variable or
/// a temporary-directory variable; every other user variable is blocked;
/// and unless a tool or temporary variable names it, `PATH` is the tool
/// directories followed by the platform's system path.
pub proof fn lemma_isolated_clean_room(
    p: Platform,
    bins: Seq<Seq<char>>,
    tool: Map<Seq<char>, Seq<char>>,
    temp: Map<Seq<char>, Seq<char>>,
    user: Map<Seq<char>, Seq<char>>,
    k: Seq<char>,
)
    ensures
        built_env(p, bins, tool, temp, false, user).contains_key(k) ==> (k == "PATH"@ || (passes_isolation(k)
            && user.contains_key(k)) || tool.contains_key(k) || temp.contains_key(k)),
        !passes_isolation(k) && k != "PATH"@ && !tool.contains_key(k) && !temp.contains_key(k)
            ==> !built_env(p, bins, tool, temp, false, user).contains_key(k),
        !tool.contains_key("PATH"@) && !temp.contains_key("PATH"@) ==> built_env(p, bins, tool, temp, false, user)["PATH"@]
            == path_value(bins, platform_system_path(p), platform_separator(p)),
        passes_isolation(k) && user.contains_key(k) && k != "PATH"@ && !tool.contains_key(k) && !temp.contains_key(k)
            ==> built_env(p, bins, tool, temp, false, user)[k] == user[k],
{
    let base = isolated_env(p, bins, user);
    let kept = user.restrict(Set::new(|x: Seq<char>| passes_isolation(x)));
    assert(kept.contains_key(k) ==> passes_isolation(k) && user.contains_key(k));
    if !passes_isolation(k) {
        assert(!kept.contains_key(k));
    }
    if !tool.contains_key("PATH"@) && !temp.contains_key("PATH"@) {
        assert(!kept.contains_key("PATH"@)) by {
            reveal_strlit("PATH");
            reveal_strlit("HOME");
            reveal_strlit("USER");
            reveal_strlit("TERM");
            reveal_strlit("LANG");
            reveal_strlit("SHELL");
            reveal_strlit("TMPDIR");
            reveal_strlit("LC_");
            reveal_strlit("XDG_");
            assert(!baseline_names().contains("PATH"@)) by {
                if baseline_names().contains("PATH"@) {
                    let i = choose|i: int| 0 <= i < baseline_names().len() && baseline_names()[i] == "PATH"@;
                    assert(baseline_names()[i][0] != 'P' || baseline_names()[i].len() != 4 || baseline_names()[i][1] != 'A');
                }
            }
            assert("PATH"@.subrange(0, 3) != "LC_"@) by {
                assert("PATH"@.subrange(0, 3)[0] == 'P');
            }
            assert("PATH"@.subrange(0, 4) != "XDG_"@) by {
                assert("PATH"@.subrange(0, 4)[0] == 'P');
            }
        }
    }
}

/// Layering: a temporary-directory variable always holds its value; a
/// tool variable holds its value unless a temporary variable of the same
/// name overrides it; in both modes.
pub proof fn lemma_layers_override(
    p: Platform,
    bins: Seq<Seq<char>>,
    tool: Map<Seq<char>, Seq<char>>,
    temp: Map<Seq<char>, Seq<char>>,
    inherit: bool,
    user: Map<Seq<char>, Seq<char>>,
    k: Seq<char>,
)
    ensures
        temp.contains_key(k) ==> built_env(p, bins, tool, temp, inherit, user)[k] == temp[k],
        tool.contains_key(k) && !temp.contains_key(k) ==> built_env(p, bins, tool, temp, inherit, user)[k] == tool[k],
{
}

/// Inherit mode passes the whole user environment through: every user
/// variable other than `PATH` keeps its value unless a tool or temporary
/// variable names it, and `PATH` is the tool directories in front of the
/// user's `PATH`.
pub proof fn lemma_inherit_passes_user_env(
    p: Platform,
    bins: Seq<Seq<char>>,
    tool: Map<Seq<char>, Seq<char>>,
    temp: Map<Seq<char>, Seq<char>>,
    user: Map<Seq<char>, Seq<char>>,
    k: Seq<char>,
)
    ensures
        user.contains_key(k) && k != "PATH"@ && !tool.contains_key(k) && !temp.contains_key(k)
            ==> built_env(p, bins, tool, temp, true, user)[k] == user[k],
        !tool.contains_key("PATH"@) && !temp.contains_key("PATH"@) ==> built_env(p, bins, tool, temp, true, user)["PATH"@]
            == path_value(bins, if user.contains_key("PATH"@) { user["PATH"@] } else { Seq::empty() }, platform_separator(p)),
{
}
/// Which user variables an isolated environment passes through, named
/// literally: `HOME`, `USER`, `TERM`, `LANG`, `SHELL`, `TMPDIR`, and every
/// name starting with `LC_` or `XDG_`.
pub open spec fn named_passing(k: Seq<char>) -> bool {
    ||| k == "HOME"@
    ||| k == "USER"@
    ||| k == "TERM"@
    ||| k == "LANG"@
    ||| k == "SHELL"@
    ||| k == "TMPDIR"@
    ||| (k.len() >= 3 && k[0] == 'L' && k[1] == 'C' && k[2] == '_')
    ||| (k.len() >= 4 && k[0] == 'X' && k[1] == 'D' && k[2] == 'G' && k[3] == '_')
}

/// The user variables that pass into an isolated environment are exactly
/// `HOME`, `USER`, `TERM`, `LANG`, `SHELL`, `TMPDIR` and the `LC_*` and
/// `XDG_*` ones: each of them that the user has reaches the built
/// environment with the user's value (unless a tool or temporary variable
/// of the same name overrides it), and every other user variable but
/// `PATH` is left out.
pub proof fn lemma_isolated_passes_exactly_the_baseline(
    p: Platform,
    bins: Seq<Seq<char>>,
    tool: Map<Seq<char>, Seq<char>>,
    temp: Map<Seq<char>, Seq<char>>,
    user: Map<Seq<char>, Seq<char>>,
    k: Seq<char>,
)
    ensures
        named_passing(k) && user.contains_key(k) && !tool.contains_key(k) && !temp.contains_key(k) ==> {
            &&& built_env(p, bins, tool, temp, false, user).contains_key(k)
            &&& built_env(p, bins, tool, temp, false, user)[k] == user[k]
        },
        !named_passing(k) && k != "PATH"@ && !tool.contains_key(k) && !temp.contains_key(k)
            ==> !built_env(p, bins, tool, temp, false, user).contains_key(k),
{
    reveal_strlit("HOME");
    reveal_strlit("USER");
    reveal_strlit("TERM");
    reveal_strlit("LANG");
    reveal_strlit("SHELL");
    reveal_strlit("TMPDIR");
    reveal_strlit("PATH");
    reveal_strlit("LC_");
    reveal_strlit("XDG_");
    assert(named_passing(k) <==> passes_isolation(k)) by {
        let b = baseline_names();
        if b.contains(k) {
            let i = choose|i: int| 0 <= i < b.len() && b[i] == k;
            assert(i == 0 || i == 1 || i == 2 || i == 3 || i == 4 || i == 5);
        }
        if k == "HOME"@ { assert(b[0] == k); }
        if k == "USER"@ { assert(b[1] == k); }
        if k == "TERM"@ { assert(b[2] == k); }
        if k == "LANG"@ { assert(b[3] == k); }
        if k == "SHELL"@ { assert(b[4] == k); }
        if k == "TMPDIR"@ { assert(b[5] == k); }
        if k.len() >= 3 && k[0] == 'L' && k[1] == 'C' && k[2] == '_' {
            assert(k.subrange(0, 3) =~= "LC_"@);
        }
        if k.len() >= 4 && k[0] == 'X' && k[1] == 'D' && k[2] == 'G' && k[3] == '_' {
            assert(k.subrange(0, 4) =~= "XDG_"@);
        }
        if starts_with(k, "LC_"@) {
            assert(k.subrange(0, 3)[0] == k[0] && k.subrange(0, 3)[1] == k[1] && k.subrange(0, 3)[2] == k[2]);
        }
        if starts_with(k, "XDG_"@) {
            assert(k.subrange(0, 4)[0] == k[0] && k.subrange(0, 4)[1] == k[1] && k.subrange(0, 4)[2] == k[2]
                && k.subrange(0, 4)[3] == k[3]);
        }
    }
    lemma_isolated_clean_room(p, bins, tool, temp, user, k);
    if named_passing(k) && user.contains_key(k) && !tool.contains_key(k) && !temp.contains_key(k) {
        if k == "PATH"@ {
            assert(k[0] == 'P');
        }
        let base = isolated_env(p, bins, user);
        let kept = user.restrict(Set::new(|x: Seq<char>| passes_isolation(x)));
        assert(kept.contains_key(k));
        assert(base.contains_key(k));
    }
}

} // verus!

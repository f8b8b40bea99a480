//! The local tool cache at `~/.runx/cache/`, laid out as
//! `<tool>/<version>/<platform>-<arch>/`, and the choice of what to clean.

use vstd::prelude::*;

use crate::platform::{Target, target_display};
use crate::provider::{join_path, owned, path_join};
use crate::text::{chars_of, push_str, string_of};
use crate::version::{Version, version_text};

verus! {

/// The tool cache, rooted at a directory.
#[derive(Debug, Clone)]
pub struct Cache {
    root: String,
}

impl View for Cache {
    type V = Seq<char>;

    /// The root directory.
    closed spec fn view(&self) -> Seq<char> {
        self.root@
    }
}

/// The cache root under a home directory: `<home>/.runx/cache`.
pub open spec fn cache_root_under(home: Seq<char>) -> Seq<char> {
    path_join(path_join(home, ".runx"@), "cache"@)
}

/// Where a tool version for a target is installed under a cache root:
/// `<root>/<tool>/<version>/<platform>-<arch>`.
pub open spec fn install_path_under(root: Seq<char>, tool: Seq<char>, v: crate::version::VersionView, t: Target) -> Seq<char> {
    path_join(path_join(path_join(root, tool), version_text(v)), target_display(t))
}

/// Reads the user's home directory with `dirs::home_dir`.
///
/// Nothing is claimed of the result: it depends on the environment and the
/// user database.
#[verifier::external_body]
pub(crate) fn home_dir() -> (r: Option<String>) {
    match dirs::home_dir() {
        Some(p) => Some(p.to_string_lossy().to_string()),
        None => None,
    }
}

impl Cache {
    /// The cache under the user's home directory, or `NoHomeDir` when it
    /// cannot be determined.
    pub fn new() -> (r: Result<Cache, CacheError>)
        ensures
            match r {
                Ok(c) => exists|h: Seq<char>| c@ == cache_root_under(h),
                Err(e) => e is NoHomeDir,
            },
    {
        Cache::from_home(home_dir())
    }

    /// The cache under a home directory, if one is known.
    pub fn from_home(home: Option<String>) -> (r: Result<Cache, CacheError>)
        ensures
            match home {
                Some(h) => r matches Ok(c) && c@ == cache_root_under(h@),
                None => r matches Err(e) && e is NoHomeDir,
            },
    {
        match home {
            None => Err(CacheError::NoHomeDir),
            Some(h) => {
                let a = join_path(h.as_str(), ".runx");
                Ok(Cache { root: join_path(a.as_str(), "cache") })
            },
        }
    }

    /// A cache rooted at a given directory.
    pub fn with_root(root: String) -> (r: Cache)
        ensures
            r@ == root@,
    {
        Cache { root }
    }

    /// The root directory.
    pub fn root(&self) -> (r: &str)
        ensures
            r@ == self@,
    {
        self.root.as_str()
    }

    /// The directory of all cached versions of a tool.
    pub fn tool_dir(&self, tool: &str) -> (r: String)
        ensures
            r@ == path_join(self@, tool@),
    {
        join_path(self.root.as_str(), tool)
    }

    /// The install directory of a tool version for a target, e.g.
    /// `~/.runx/cache/node/18.19.1/macOS-aarch64`.
    pub fn install_path(&self, tool: &str, version: &Version, target: &Target) -> (r: String)
        ensures
            r@ == install_path_under(self@, tool@, version@, *target),
    {
        let a = join_path(self.root.as_str(), tool);
        let vt = string_of(&version.text());
        let b = join_path(a.as_str(), vt.as_str());
        let tt = target.to_string();
        join_path(b.as_str(), tt.as_str())
    }
}

/// A cached tool: its name, the versions cached, and their size on disk.
#[derive(Debug, Clone)]
pub struct CachedTool {
    pub name: String,
    pub versions: Vec<String>,
    pub size_bytes: u64,
}

/// Errors of cache operations.
#[derive(Debug, Clone)]
pub enum CacheError {
    /// The home directory cannot be determined.
    NoHomeDir,
    /// A file operation failed at a path (its error text given).
    Io { path: String, reason: String },
}

/// The message each cache error displays.
pub open spec fn cache_error_text(e: CacheError) -> Seq<char> {
    match e {
        CacheError::NoHomeDir => "cannot determine home directory"@,
        CacheError::Io { path, reason } => "cache I/O error at `"@ + path@ + "`: "@ + reason@,
    }
}

impl CacheError {
    /// The message this error displays.
    pub fn to_string(&self) -> (r: String)
        ensures
            r@ == cache_error_text(*self),
    {
        match self {
            CacheError::NoHomeDir => owned("cannot determine home directory"),
            CacheError::Io { path, reason } => {
                let mut m: Vec<char> = Vec::new();
                push_str(&mut m, "cache I/O error at `");
                push_str(&mut m, path.as_str());
                push_str(&mut m, "`: ");
                push_str(&mut m, reason.as_str());
                string_of(&m)
            },
        }
    }
}

/// A cached version as found on disk: its tool, version text, install
/// directory, age in seconds since it was last modified, and size.
#[derive(Debug, Clone)]
pub struct CachedVersion {
    pub tool: String,
    pub version: String,
    pub path: String,
    pub age_secs: u64,
    pub size_bytes: u64,
}

/// A cached version chosen for removal: its label (`tool@version`), its
/// directory and its size.
#[derive(Debug, Clone)]
pub struct CleanEntry {
    pub label: String,
    pub path: String,
    pub size_bytes: u64,
}

/// What a clean by age would remove, and how many bytes that frees.
#[derive(Debug, Clone)]
pub struct CleanCandidates {
    pub entries: Vec<CleanEntry>,
    pub total_bytes: u64,
}

impl Default for CleanCandidates {
    /// Nothing to remove.
    fn default() -> (r: CleanCandidates)
        ensures
            r.entries@.len() == 0,
            r.total_bytes == 0,
    {
        CleanCandidates { entries: Vec::new(), total_bytes: 0 }
    }
}

/// Seconds in a day.
pub const SECS_PER_DAY: u64 = 86400;

/// Whether a cached version is to be removed by a clean of versions at
/// least `days` whole days old, limited to one tool when a filter is given.
pub open spec fn is_clean_candidate(v: CachedVersion, days: u64, tool: Option<Seq<char>>) -> bool {
    &&& v.age_secs / SECS_PER_DAY >= days
    &&& match tool {
        Some(t) => v.tool@ == t,
        None => true,
    }
}

/// The entry a clean shows and removes for a cached version.
pub open spec fn clean_entry_of(v: CachedVersion) -> (Seq<char>, Seq<char>, u64) {
    (v.tool@ + "@"@ + v.version@, v.path@, v.size_bytes)
}

/// The candidates among cached versions, in order.
pub open spec fn clean_candidates(s: Seq<CachedVersion>, days: u64, tool: Option<Seq<char>>) -> Seq<(Seq<char>, Seq<char>, u64)>
    decreases s.len(),
{
    if s.len() == 0 {
        Seq::empty()
    } else {
        let prev = clean_candidates(s.drop_last(), days, tool);
        if is_clean_candidate(s.last(), days, tool) {
            prev.push(clean_entry_of(s.last()))
        } else {
            prev
        }
    }
}

/// The total size of entries.
pub open spec fn entries_size(s: Seq<(Seq<char>, Seq<char>, u64)>) -> nat
    decreases s.len(),
{
    if s.len() == 0 {
        0
    } else {
        entries_size(s.drop_last()) + (s.last().2 as nat)
    }
}

/// The views of clean entries.
pub open spec fn entry_views(s: Seq<CleanEntry>) -> Seq<(Seq<char>, Seq<char>, u64)> {
    s.map_values(|e: CleanEntry| (e.label@, e.path@, e.size_bytes))
}

/// Chooses the cached versions at least `days` days old (of one tool, when
/// a filter is given), in order, with their total size (capped at
/// `u64::MAX`).
pub fn find_older_than(versions: &Vec<CachedVersion>, days: u64, tool: Option<&str>) -> (r: CleanCandidates)
    ensures
        entry_views(r.entries@) == clean_candidates(versions@, days, match tool { Some(t) => Some(t@), None => None }),
        r.total_bytes == (if entries_size(entry_views(r.entries@)) > u64::MAX { u64::MAX as nat } else { entries_size(entry_views(r.entries@)) }),
{
    let ghost filter = match tool { Some(t) => Some(t@), None => None::<Seq<char>> };
    let mut entries: Vec<CleanEntry> = Vec::new();
    let mut total: u64 = 0;
    let mut i: usize = 0;
    while i < versions.len()
        invariant
            i <= versions@.len(),
            filter == (match tool { Some(t) => Some(t@), None => None::<Seq<char>> }),
            entry_views(entries@) == clean_candidates(versions@.subrange(0, i as int), days, filter),
            total == (if entries_size(entry_views(entries@)) > u64::MAX { u64::MAX as nat } else { entries_size(entry_views(entries@)) }),
        decreases versions.len() - i,
    {
        let ghost q = versions@.subrange(0, i + 1);
        assert(q.drop_last() =~= versions@.subrange(0, i as int));
        let v = &versions[i];
        let keep = v.age_secs / SECS_PER_DAY >= days && match tool {
            Some(t) => crate::text::str_eq(v.tool.as_str(), t),
            None => true,
        };
        if keep {
            let mut label = chars_of(v.tool.as_str());
            push_str(&mut label, "@");
            push_str(&mut label, v.version.as_str());
            let ghost prev = entries@;
            entries.push(CleanEntry { label: string_of(&label), path: owned(v.path.as_str()), size_bytes: v.size_bytes });
            assert(entry_views(entries@) =~= entry_views(prev).push(clean_entry_of(*v)));
            assert(entry_views(entries@).drop_last() =~= entry_views(prev));
            total = if total > u64::MAX - v.size_bytes { u64::MAX } else { total + v.size_bytes };
        }
        i = i + 1;
    }
    assert(versions@.subrange(0, i as int) =~= versions@);
    CleanCandidates { entries, total_bytes: total }
}

} // verus!

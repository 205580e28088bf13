//! The repository handle, its configuration gate, and the decisions of the
//! upward repository locator.
//!
//! The handle holds plain path strings; all probing of the disk (does the
//! metadata directory exist, what does the config file say) is done by the
//! caller, which hands the results in as plain values.

use crate::digits::{parse_i64, parse_i64_spec};
use crate::errors::GirError;
use vstd::prelude::*;

verus! {

/// One configuration setting: a value under a section and key.
#[derive(Debug, Clone, PartialEq, Eq)]
pub struct ConfigEntry {
    pub section: String,
    pub key: String,
    pub value: String,
}

/// A key-value store grouped by section, as loaded from an INI-style
/// configuration file. Lookups return the most recently set value.
#[derive(Debug, Clone, PartialEq, Eq)]
pub struct GitConfig {
    entries: Vec<ConfigEntry>,
}

impl View for GitConfig {
    type V = Seq<ConfigEntry>;

    closed spec fn view(&self) -> Seq<ConfigEntry> {
        self.entries@
    }
}

/// The value under `section` and `key`: the first entry that matches.
pub open spec fn conf_lookup(entries: Seq<ConfigEntry>, section: Seq<char>, key: Seq<char>) -> Option<
    Seq<char>,
>
    decreases entries.len(),
{
    if entries.len() == 0 {
        None
    } else if entries[0].section@ == section && entries[0].key@ == key {
        Some(entries[0].value@)
    } else {
        conf_lookup(entries.drop_first(), section, key)
    }
}

impl GitConfig {
    /// An empty configuration.
    pub fn new() -> (r: GitConfig)
        ensures
            r@ == Seq::<ConfigEntry>::empty(),
    {
        GitConfig { entries: Vec::new() }
    }

    /// The entries, newest first.
    pub fn entries(&self) -> (r: &Vec<ConfigEntry>)
        ensures
            r@ == self@,
    {
        &self.entries
    }

    /// Sets `section.key` to `value`: later lookups of that key see `value`,
    /// and every other key is unaffected.
    pub fn set(&mut self, section: &str, key: &str, value: &str)
        ensures
            final(self)@.len() == old(self)@.len() + 1,
            final(self)@[0].section@ == section@,
            final(self)@[0].key@ == key@,
            final(self)@[0].value@ == value@,
            final(self)@.drop_first() == old(self)@,
            conf_lookup(final(self)@, section@, key@) == Some(value@),
            forall|s2: Seq<char>, k2: Seq<char>|
                s2 != section@ || k2 != key@ ==> conf_lookup(final(self)@, s2, k2) == conf_lookup(
                    old(self)@,
                    s2,
                    k2,
                ),
    {
        let entry = ConfigEntry {
            section: section.to_owned(),
            key: key.to_owned(),
            value: value.to_owned(),
        };
        self.entries.insert(0, entry);
        assert(self.entries@.drop_first() =~= old(self)@);
    }

    /// The value under `section.key`, if present.
    pub fn get(&self, section: &str, key: &str) -> (r: Option<String>)
        ensures
            r matches Some(v) ==> conf_lookup(self@, section@, key@) == Some(v@),
            r is None ==> conf_lookup(self@, section@, key@) is None,
    {
        let sec = section.to_owned();
        let k = key.to_owned();
        let mut i: usize = 0;
        assert(self@.skip(0) =~= self@);
        while i < self.entries.len()
            invariant
                0 <= i <= self@.len(),
                sec@ == section@,
                k@ == key@,
                conf_lookup(self@, section@, key@) == conf_lookup(
                    self@.skip(i as int),
                    section@,
                    key@,
                ),
            decreases self@.len() - i,
        {
            let e = &self.entries[i];
            proof {
                assert(self@.skip(i as int)[0] == self@[i as int]);
                assert(self@.skip(i as int).drop_first() =~= self@.skip(i + 1 as int));
            }
            if e.section == sec && e.key == k {
                return Some(e.value.clone());
            }
            i = i + 1;
        }
        None
    }

    /// The value under `section.key` read as a signed decimal integer.
    /// `Some(None)` when the key is absent; `None` when a value is present
    /// but does not denote an integer.
    pub fn getint(&self, section: &str, key: &str) -> (r: Option<Option<i64>>)
        ensures
            r matches Some(o) ==> (match conf_lookup(self@, section@, key@) {
                None => o is None,
                Some(v) => (o matches Some(n) && parse_i64_spec(v) == Some(n as int)),
            }),
            r is None ==> (conf_lookup(self@, section@, key@) matches Some(v) && parse_i64_spec(v)
                is None),
    {
        match self.get(section, key) {
            None => Some(None),
            Some(v) => match parse_i64(v.as_str()) {
                Some(n) => Some(Some(n)),
                None => None,
            },
        }
    }
}

/// A repository handle: the worktree root, the metadata directory inside it,
/// and the configuration that was loaded for it. Immutable once constructed.
#[derive(Debug)]
pub struct GitRepository {
    worktree: String,
    gitdir: String,
    pub conf: GitConfig,
}

impl GitRepository {
    /// The worktree root path.
    pub closed spec fn worktree_spec(&self) -> Seq<char> {
        self.worktree@
    }

    /// The metadata directory path: the worktree joined with `.git`.
    pub closed spec fn gitdir_spec(&self) -> Seq<char> {
        self.gitdir@
    }

    /// The entries of the configuration the handle was constructed with.
    pub closed spec fn conf_spec(&self) -> Seq<ConfigEntry> {
        self.conf@
    }

    /// Constructs a handle over `worktree`, whose metadata directory is
    /// `worktree/.git`. The caller reports whether that directory exists and
    /// hands in the parsed config file when one is present. Without `force`,
    /// a missing metadata directory or config file is fatal, and the config's
    /// `core.repositoryformatversion`, when present, must be an integer equal
    /// to 0 — a value that is not even an integer is a fatal construction
    /// error too, surfaced as a configuration-reading failure; with `force`
    /// (used during bootstrap, before anything is on disk) every check is
    /// skipped and a missing config is taken as empty.
    pub fn new(worktree: String, force: bool, gitdir_exists: bool, config: Option<GitConfig>) -> (r:
        Result<GitRepository, GirError>)
        ensures
            !force && !gitdir_exists ==> (r matches Err(e) && e == GirError::NotARepository),
            !force && gitdir_exists && config is None ==> (r matches Err(e) && e
                == GirError::NotARepository),
            !force && gitdir_exists ==> (config matches Some(c) ==> (match conf_lookup(
                c@,
                "core"@,
                "repositoryformatversion"@,
            ) {
                Some(value) => match parse_i64_spec(value) {
                    None => r matches Err(e) && e is Io,
                    Some(v) => if v != 0 {
                        r matches Err(e) && (e matches GirError::UnsupportedFormatVersion { found }
                            && found == v)
                    } else {
                        r matches Ok(repo) && repo.worktree_spec() == worktree@
                            && repo.gitdir_spec() == worktree@ + "/.git"@ && repo.conf_spec() == c@
                    },
                },
                None => r matches Ok(repo) && repo.worktree_spec() == worktree@
                    && repo.gitdir_spec() == worktree@ + "/.git"@ && repo.conf_spec() == c@,
            })),
            force ==> (r matches Ok(repo) && repo.worktree_spec() == worktree@
                && repo.gitdir_spec() == worktree@ + "/.git"@),
            force ==> (config matches Some(c) ==> (r matches Ok(repo) && repo.conf_spec() == c@)),
            force && config is None ==> (r matches Ok(repo) && repo.conf_spec().len() == 0),
    {
        if !(force || gitdir_exists) {
            return Err(GirError::NotARepository);
        }
        let conf = match config {
            Some(c) => c,
            None => {
                if !force {
                    return Err(GirError::NotARepository);
                }
                GitConfig::new()
            },
        };
        if !force {
            match conf.getint("core", "repositoryformatversion") {
                Some(Some(vers)) => {
                    if vers != 0 {
                        return Err(GirError::UnsupportedFormatVersion { found: vers });
                    }
                },
                Some(None) => {},
                None => {
                    return Err(
                        GirError::Io {
                            detail: "invalid value for core.repositoryformatversion".to_owned(),
                        },
                    );
                },
            }
        }
        let gitdir = worktree.clone().concat("/.git");
        Ok(GitRepository { worktree, gitdir, conf })
    }

    /// The worktree root path.
    pub fn get_worktree(&self) -> (r: String)
        ensures
            r@ == self.worktree_spec(),
    {
        self.worktree.clone()
    }

    /// The metadata directory path.
    pub fn get_gitdir(&self) -> (r: String)
        ensures
            r@ == self.gitdir_spec(),
    {
        self.gitdir.clone()
    }
}

/// The default configuration a fresh repository is bootstrapped with:
/// format version 0, and the informational `filemode` and `bare` flags off.
pub fn repo_default_config() -> (r: GitConfig)
    ensures
        conf_lookup(r@, "core"@, "repositoryformatversion"@) == Some("0"@),
        conf_lookup(r@, "core"@, "filemode"@) == Some("false"@),
        conf_lookup(r@, "core"@, "bare"@) == Some("false"@),
        r@.len() == 3,
{
    let mut conf = GitConfig::new();
    conf.set("core", "repositoryformatversion", "0");
    conf.set("core", "filemode", "false");
    conf.set("core", "bare", "false");
    proof {
        reveal_strlit("repositoryformatversion");
        reveal_strlit("filemode");
        reveal_strlit("bare");
        assert("repositoryformatversion"@.len() == 23);
        assert("filemode"@.len() == 8);
        assert("bare"@.len() == 4);
    }
    conf
}

/// What the locator does at one directory of its upward walk.
#[derive(Debug, Clone, Copy, PartialEq, Eq, Structural)]
pub enum RepoFindStep {
    /// The directory holds a metadata directory: construct the handle here.
    Found,
    /// No metadata directory here: continue at the parent.
    Ascend,
    /// The file-system root was reached without a find: stop.
    RootReached,
}

/// One step of the locator's strictly upward walk. The caller reports
/// whether the current directory contains a metadata directory and whether it
/// has a parent. Every directory is examined before the walk moves on, the
/// file-system root included; the walk ends only when the root was examined
/// and held nothing.
pub fn repo_find_step(has_parent: bool, has_git: bool) -> (r: RepoFindStep)
    ensures
        has_git ==> r == RepoFindStep::Found,
        !has_git && has_parent ==> r == RepoFindStep::Ascend,
        !has_git && !has_parent ==> r == RepoFindStep::RootReached,
{
    if has_git {
        RepoFindStep::Found
    } else if has_parent {
        RepoFindStep::Ascend
    } else {
        RepoFindStep::RootReached
    }
}

/// The locator's verdict when its walk reached the file-system root without
/// finding a repository: an error exactly when one was required, and an
/// errorless "none found" otherwise.
pub fn repo_find_verdict(required: bool) -> (r: Result<Option<GitRepository>, GirError>)
    ensures
        required ==> (r matches Err(e) && e == GirError::RepositoryNotFound),
        !required ==> (r matches Ok(o) && o is None),
{
    if required {
        Err(GirError::RepositoryNotFound)
    } else {
        Ok(None)
    }
}

} // verus!

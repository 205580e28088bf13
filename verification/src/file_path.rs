//! Path construction inside the repository's metadata directory, and the
//! pure decisions of the directory- and file-resolving helpers whose actual
//! disk probing is done by the caller.

use crate::errors::GirError;
use crate::repository::GitRepository;
use vstd::prelude::*;

verus! {

/// The characters that joining `segs` appends to a base path: a `/` before
/// each segment.
pub open spec fn segments_suffix(segs: Seq<String>) -> Seq<char>
    decreases segs.len(),
{
    if segs.len() == 0 {
        Seq::empty()
    } else {
        seq!['/'] + segs[0]@ + segments_suffix(segs.drop_first())
    }
}

/// Appending one more segment extends the suffix by `/` and that segment.
pub proof fn lemma_segments_suffix_push(segs: Seq<String>, s: String)
    ensures
        segments_suffix(segs.push(s)) == segments_suffix(segs) + seq!['/'] + s@,
    decreases segs.len(),
{
    let p = segs.push(s);
    if segs.len() == 0 {
        assert(p.len() == 1);
        assert(p[0] == s);
        assert(p.drop_first() =~= Seq::<String>::empty());
        assert(segments_suffix(p) == seq!['/'] + s@ + segments_suffix(Seq::<String>::empty()));
        assert(segments_suffix(p) =~= segments_suffix(segs) + seq!['/'] + s@);
    } else {
        assert(p[0] == segs[0]);
        assert(p.drop_first() =~= segs.drop_first().push(s));
        lemma_segments_suffix_push(segs.drop_first(), s);
        assert(segments_suffix(p) == seq!['/'] + segs[0]@ + segments_suffix(
            segs.drop_first().push(s),
        ));
        assert(segments_suffix(p) =~= segments_suffix(segs) + seq!['/'] + s@);
    }
}

/// Joins the repository's metadata directory with each segment in order.
/// Pure path arithmetic: no disk access, and it never fails.
pub fn build_path(repo: &GitRepository, paths: &Vec<String>) -> (r: String)
    ensures
        r@ == repo.gitdir_spec() + segments_suffix(paths@),
{
    let mut path = repo.get_gitdir();
    let mut i: usize = 0;
    assert(paths@.subrange(0, 0) =~= Seq::<String>::empty());
    assert(path@ =~= repo.gitdir_spec() + segments_suffix(paths@.subrange(0, 0)));
    while i < paths.len()
        invariant
            0 <= i <= paths@.len(),
            path@ == repo.gitdir_spec() + segments_suffix(paths@.subrange(0, i as int)),
        decreases paths@.len() - i,
    {
        path = path.concat("/").concat(paths[i].as_str());
        proof {
            reveal_strlit("/");
            assert("/"@ =~= seq!['/']);
            assert(paths@.subrange(0, i + 1 as int) =~= paths@.subrange(0, i as int).push(
                paths@[i as int],
            ));
            lemma_segments_suffix_push(paths@.subrange(0, i as int), paths@[i as int]);
            assert(path@ =~= repo.gitdir_spec() + segments_suffix(
                paths@.subrange(0, i + 1 as int),
            ));
        }
        i = i + 1;
    }
    assert(paths@.subrange(0, paths@.len() as int) =~= paths@);
    path
}

/// The fan-out segments under which an identifier's object is stored:
/// `objects`, the first two characters, and the remaining thirty-eight.
/// `None` exactly when `sha` is not a 40-character ASCII string.
pub fn loose_object_segments(sha: &str) -> (r: Option<Vec<String>>)
    ensures
        r matches Some(v) ==> v@.len() == 3 && v@[0]@ == "objects"@ && v@[1]@ == sha@.subrange(
            0,
            2,
        ) && v@[2]@ == sha@.subrange(2, 40) && sha@.len() == 40,
        r is None <==> !(sha@.len() == 40 && vstd::string::is_ascii(sha)),
{
    if !sha.is_ascii() {
        return None;
    }
    let n = sha.unicode_len();
    if n != 40 {
        return None;
    }
    let dir = sha.substring_ascii(0, 2);
    let rest = sha.substring_ascii(2, 40);
    let mut v: Vec<String> = Vec::new();
    v.push("objects".to_owned());
    v.push(dir.to_owned());
    v.push(rest.to_owned());
    Some(v)
}

/// How resolving a file path ends once its parent directory was resolved:
/// the full path when the parent is in place, and "absent" otherwise —
/// the parent's errors are swallowed at this layer, so callers cannot
/// distinguish a missing parent from one that is not a directory.
pub fn build_file_outcome(parent: Result<Option<String>, GirError>, file_path: String) -> (r:
    Option<String>)
    ensures
        (parent matches Ok(p) && p is Some) ==> (r matches Some(f) && f@ == file_path@),
        !(parent matches Ok(p) && p is Some) ==> r is None,
{
    match parent {
        Ok(Some(_)) => Some(file_path),
        Ok(None) => None,
        Err(_) => None,
    }
}

/// What resolving a directory path comes to once the caller has probed the
/// disk for it.
#[derive(Debug, Clone, Copy, PartialEq, Eq, Structural)]
pub enum DirPlan {
    /// The path exists and is a directory: use it.
    UseExisting,
    /// The path exists and is not a directory: fail with `NotADirectory`.
    FailNotADirectory,
    /// The path is missing and may be created: create all missing levels.
    CreateAll,
    /// The path is missing and nothing is to be created: absent, not an
    /// error.
    Absent,
}

/// The decision of the directory resolver, given whether the path exists,
/// whether it is a directory, and whether missing directories may be made.
pub fn build_dir_plan(exists: bool, is_dir: bool, mkdir: bool) -> (r: DirPlan)
    ensures
        exists && is_dir ==> r == DirPlan::UseExisting,
        exists && !is_dir ==> r == DirPlan::FailNotADirectory,
        !exists && mkdir ==> r == DirPlan::CreateAll,
        !exists && !mkdir ==> r == DirPlan::Absent,
{
    if exists {
        if is_dir {
            DirPlan::UseExisting
        } else {
            DirPlan::FailNotADirectory
        }
    } else if mkdir {
        DirPlan::CreateAll
    } else {
        DirPlan::Absent
    }
}

/// How the bootstrap proceeds at its target, given what the caller probed:
/// an existing non-directory or a non-empty metadata directory is fatal.
#[derive(Debug, Clone, Copy, PartialEq, Eq, Structural)]
pub enum InitPlan {
    /// The worktree exists and is usable: build the skeleton inside it.
    UseExisting,
    /// The worktree is missing: create it, then build the skeleton.
    CreateWorktree,
}

/// The decision gate of the bootstrap: `worktree_exists` and
/// `worktree_is_dir` describe the target path, `gitdir_entries` how many
/// entries an existing metadata directory already holds (0 when it does not
/// exist).
pub fn init_repo_plan(worktree_exists: bool, worktree_is_dir: bool, gitdir_exists: bool, gitdir_entries: usize) -> (r:
    Result<InitPlan, GirError>)
    ensures
        worktree_exists && !worktree_is_dir ==> (r matches Err(e) && e == GirError::NotADirectory),
        worktree_exists && worktree_is_dir && gitdir_exists && gitdir_entries > 0 ==> (r matches
            Err(e) && e == GirError::DirectoryNotEmpty),
        worktree_exists && worktree_is_dir && (!gitdir_exists || gitdir_entries == 0) ==> r == Ok::<
            InitPlan,
            GirError,
        >(InitPlan::UseExisting),
        !worktree_exists ==> r == Ok::<InitPlan, GirError>(InitPlan::CreateWorktree),
{
    if worktree_exists {
        if !worktree_is_dir {
            Err(GirError::NotADirectory)
        } else if gitdir_exists && gitdir_entries > 0 {
            Err(GirError::DirectoryNotEmpty)
        } else {
            Ok(InitPlan::UseExisting)
        }
    } else {
        Ok(InitPlan::CreateWorktree)
    }
}

/// The single line the bootstrap writes to the `HEAD` file.
pub fn head_file_content() -> (r: &'static str)
    ensures
        r@ == "ref: refs/heads/master\n"@,
{
    "ref: refs/heads/master\n"
}

/// The text the bootstrap writes to the `description` file.
pub fn description_file_content() -> (r: &'static str)
    ensures
        r@ == "Unnamed repository; edit this file 'description' to name the repository.\n"@,
{
    "Unnamed repository; edit this file 'description' to name the repository.\n"
}

} // verus!

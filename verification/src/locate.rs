//! The project locator: given a filesystem snapshot, a starting
//! directory, and what git itself reported (its top-level directory, when
//! the start lies in a repository), decide the project root, the
//! directory to run git commands from, and the checkout to use as the
//! execution context. The `<name>-worktrees` sibling convention, the
//! configuration walk and the candidate preferences all live here.
use vstd::prelude::*;
use crate::errors::Error;
use crate::fsmodel::{FsNodeKind, FsSnapshot};
use crate::paths::{
    path_file_name, path_join, path_parent, spec_file_name, spec_is_under, spec_join, spec_parent,
    lemma_last_sep_exists,
};
use crate::probe::{spec_has_git_entry, spec_is_orphaned, is_orphaned_worktree, GitEntry};
use crate::strutil::{ends_with, str_eq, strip_suffix_str};

verus! {

/// A located project: where its configuration anchors it, and where git
/// commands can run.
#[derive(Clone, Debug)]
pub struct Project {
    /// The logical top-level directory of the project.
    pub root: String,
    /// A directory holding a `.git` entry, usable to run git commands.
    pub git_dir: String,
}

/// A parent path is strictly shorter than its child.
pub proof fn lemma_parent_shorter(p: Seq<char>)
    requires
        spec_parent(p) is Some,
    ensures
        spec_parent(p).unwrap().len() < p.len(),
{
    lemma_last_sep_exists(p);
}

/// The root a `-worktrees` directory name points back at: the name with
/// the suffix stripped, when something is left of it.
pub open spec fn spec_strip_worktrees_suffix(name: Seq<char>) -> Option<Seq<char>> {
    if ends_with(name, "-worktrees"@) && name.len() > "-worktrees"@.len() {
        Some(name.take(name.len() - "-worktrees"@.len()))
    } else {
        None
    }
}

/// The sibling root this directory itself derives, when its own name
/// carries the `-worktrees` suffix.
pub open spec fn spec_worktrees_sibling_at(dir: Seq<char>) -> Option<Seq<char>> {
    match spec_strip_worktrees_suffix(spec_file_name(dir)) {
        Some(base) => match spec_parent(dir) {
            Some(par) => Some(spec_join(par, base)),
            None => None,
        },
        None => None,
    }
}

/// The sibling root derived from the nearest enclosing `-worktrees`
/// directory, walking upward from `dir`.
pub open spec fn spec_worktrees_sibling(dir: Seq<char>) -> Option<Seq<char>>
    decreases dir.len(),
    via spec_worktrees_sibling_decreases
{
    match spec_worktrees_sibling_at(dir) {
        Some(s) => Some(s),
        None => match spec_parent(dir) {
            Some(p) => spec_worktrees_sibling(p),
            None => None,
        },
    }
}

#[via_fn]
proof fn spec_worktrees_sibling_decreases(dir: Seq<char>) {
    if spec_parent(dir) is Some {
        lemma_parent_shorter(dir);
    }
}

/// The sibling root this directory derives, executably.
fn worktrees_sibling_at(dir: &str) -> (r: Option<String>)
    ensures
        match r {
            Some(s) => spec_worktrees_sibling_at(dir@) == Some(s@),
            None => spec_worktrees_sibling_at(dir@) is None,
        },
{
    let name = path_file_name(dir);
    match strip_suffix_str(name.as_str(), "-worktrees") {
        Some(base) => {
            if base.unicode_len() == 0 {
                return None;
            }
            match path_parent(dir) {
                Some(par) => Some(path_join(par.as_str(), base)),
                None => None,
            }
        },
        None => None,
    }
}

/// Walk upward from `dir` to the nearest `-worktrees` directory and
/// derive its sibling root.
pub fn worktrees_sibling(dir: &str) -> (r: Option<String>)
    ensures
        match r {
            Some(s) => spec_worktrees_sibling(dir@) == Some(s@),
            None => spec_worktrees_sibling(dir@) is None,
        },
{
    let mut cur: String = dir.to_owned();
    loop
        invariant
            spec_worktrees_sibling(dir@) == spec_worktrees_sibling(cur@),
        decreases cur@.len(),
    {
        if let Some(sib) = worktrees_sibling_at(cur.as_str()) {
            return Some(sib);
        }
        match path_parent(cur.as_str()) {
            Some(p) => {
                proof {
                    lemma_parent_shorter(cur@);
                }
                cur = p;
            },
            None => {
                return None;
            },
        }
    }
}

/// Walking upward from anywhere at or below a `-worktrees` directory
/// derives that directory's sibling, as long as no directory on the way
/// up carries the suffix itself.
pub proof fn lemma_sibling_walk(d: Seq<char>, wdir: Seq<char>)
    requires
        spec_is_under(d, wdir),
        wdir.len() > 0,
        wdir[wdir.len() - 1] != '/',
        spec_worktrees_sibling_at(wdir) is Some,
        forall|a: Seq<char>|
            spec_is_under(a, wdir) && a != wdir && spec_is_under(d, a) ==> (
            #[trigger] spec_worktrees_sibling_at(a)) is None,
    ensures
        spec_worktrees_sibling(d) == spec_worktrees_sibling_at(wdir),
    decreases d.len(),
{
    if d == wdir {
    } else {
        crate::paths::lemma_under_self(d);
        assert(spec_worktrees_sibling_at(d) is None);
        crate::paths::lemma_under_parent(d, wdir);
        let p = spec_parent(d).unwrap();
        lemma_parent_shorter(d);
        assert forall|a: Seq<char>|
            spec_is_under(a, wdir) && a != wdir && spec_is_under(p, a) implies (
        #[trigger] spec_worktrees_sibling_at(a)) is None by {
            crate::paths::lemma_under_trans(d, p, a);
        }
        lemma_sibling_walk(p, wdir);
    }
}

/// Resolving the project root from anywhere inside a sibling
/// `<name>-worktrees` directory yields `<name>`, however deep the
/// starting point: given a `-worktrees` directory whose derived sibling
/// looks like a repository, and a start — or a git top level — at or
/// below it with no intermediate directory carrying the suffix itself,
/// the resolution returns the sibling.
pub proof fn lemma_root_from_inside_worktrees(
    fs: FsSnapshot,
    start: Seq<char>,
    wdir: Seq<char>,
    git_toplevel: Option<Seq<char>>,
    global_project_path: Option<Seq<char>>,
)
    requires
        wdir.len() > 0,
        wdir[wdir.len() - 1] != '/',
        spec_worktrees_sibling_at(wdir) is Some,
        spec_root_has_git(fs, spec_worktrees_sibling_at(wdir).unwrap()),
        match git_toplevel {
            Some(t) => spec_is_under(t, wdir) && (forall|a: Seq<char>|
                spec_is_under(a, wdir) && a != wdir && spec_is_under(t, a) ==> (
                #[trigger] spec_worktrees_sibling_at(a)) is None),
            None => spec_is_under(start, wdir) && (forall|a: Seq<char>|
                spec_is_under(a, wdir) && a != wdir && spec_is_under(start, a) ==> (
                #[trigger] spec_worktrees_sibling_at(a)) is None),
        },
    ensures
        spec_project_root(fs, start, git_toplevel, global_project_path) == Some(
            spec_worktrees_sibling_at(wdir).unwrap(),
        ),
{
    match git_toplevel {
        Some(t) => {
            lemma_sibling_walk(t, wdir);
        },
        None => {
            lemma_sibling_walk(start, wdir);
        },
    }
}

/// Entry `k` of the snapshot is an immediate subdirectory of `root`.
pub open spec fn spec_is_child_dir(fs: FsSnapshot, root: Seq<char>, k: int) -> bool {
    &&& 0 <= k < fs.entries@.len()
    &&& fs.entries@[k].kind == FsNodeKind::Dir
    &&& spec_parent(fs.entries@[k].path@) == Some(root)
}

/// Entry `k` is an immediate subdirectory of `root` that holds a `.git`
/// entry. Kept opaque so that searches can quantify over it cheaply.
#[verifier::opaque]
pub open spec fn spec_child_git(fs: FsSnapshot, root: Seq<char>, k: int) -> bool {
    spec_is_child_dir(fs, root, k) && spec_has_git_entry(fs, fs.entries@[k].path@)
        != GitEntry::Absent
}

/// A candidate root is plausible: it, or an immediate subdirectory of it,
/// holds a `.git` entry.
pub open spec fn spec_root_has_git(fs: FsSnapshot, root: Seq<char>) -> bool {
    spec_has_git_entry(fs, root) != GitEntry::Absent || exists|k: int|
        0 <= k < fs.entries@.len() && spec_child_git(fs, root, k)
}

/// Test whether a candidate root is plausible.
pub fn root_has_git(fs: &FsSnapshot, root: &str) -> (r: bool)
    ensures
        r == spec_root_has_git(*fs, root@),
{
    match crate::probe::has_git_entry(fs, root) {
        GitEntry::Absent => {},
        _ => {
            return true;
        },
    }
    let n = fs.entries.len();
    let mut k: usize = 0;
    while k < n
        invariant
            n == fs.entries@.len(),
            k <= n,
            spec_has_git_entry(*fs, root@) == GitEntry::Absent,
            forall|j: int| 0 <= j < k ==> !spec_child_git(*fs, root@, j),
        decreases n - k,
    {
        let e = &fs.entries[k];
        let is_child = match e.kind {
            FsNodeKind::Dir => {
                match path_parent(e.path.as_str()) {
                    Some(p) => str_eq(p.as_str(), root),
                    None => false,
                }
            },
            FsNodeKind::File => false,
        };
        if is_child {
            match crate::probe::has_git_entry(fs, e.path.as_str()) {
                GitEntry::Absent => {},
                _ => {
                    proof {
                        assert(spec_child_git(*fs, root@, k as int)) by {
                            reveal(spec_child_git);
                        }
                    }
                    return true;
                },
            }
        }
        proof {
            assert(!spec_child_git(*fs, root@, k as int)) by {
                reveal(spec_child_git);
            }
        }
        k = k + 1;
    }
    false
}

/// Where a configuration found at this level anchors the project: the
/// directory itself, or its parent when the directory is itself the
/// `main` checkout carrying the configuration.
pub open spec fn spec_local_config_at(fs: FsSnapshot, dir: Seq<char>) -> Option<
    (Seq<char>, Seq<char>),
> {
    if fs.contains_path(spec_join(dir, "git-worktree-config.jsonc"@)) {
        if spec_file_name(dir) == "main"@ && spec_parent(dir) is Some {
            Some((spec_join(dir, "git-worktree-config.jsonc"@), spec_parent(dir).unwrap()))
        } else {
            Some((spec_join(dir, "git-worktree-config.jsonc"@), dir))
        }
    } else if fs.contains_path(
        spec_join(spec_join(dir, "main"@), "git-worktree-config.jsonc"@),
    ) {
        Some((spec_join(spec_join(dir, "main"@), "git-worktree-config.jsonc"@), dir))
    } else {
        None
    }
}

/// The configuration file found by walking upward from `dir`, with the
/// project root it anchors: each level is checked for the file both
/// directly and under a `main/` checkout.
pub open spec fn spec_find_local_config(fs: FsSnapshot, dir: Seq<char>) -> Option<
    (Seq<char>, Seq<char>),
>
    decreases dir.len(),
    via spec_find_local_config_decreases
{
    match spec_local_config_at(fs, dir) {
        Some(p) => Some(p),
        None => match spec_parent(dir) {
            Some(par) => spec_find_local_config(fs, par),
            None => None,
        },
    }
}

#[via_fn]
proof fn spec_find_local_config_decreases(fs: FsSnapshot, dir: Seq<char>) {
    if spec_parent(dir) is Some {
        lemma_parent_shorter(dir);
    }
}

/// One level of the configuration walk, executably.
fn local_config_at(fs: &FsSnapshot, dir: &str) -> (r: Option<(String, String)>)
    ensures
        match r {
            Some(p) => spec_local_config_at(*fs, dir@) == Some((p.0@, p.1@)),
            None => spec_local_config_at(*fs, dir@) is None,
        },
{
    let direct = path_join(dir, "git-worktree-config.jsonc");
    match fs.lookup_kind(direct.as_str()) {
        Some(_) => {
            let name = path_file_name(dir);
            if str_eq(name.as_str(), "main") {
                match path_parent(dir) {
                    Some(par) => {
                        return Some((direct, par));
                    },
                    None => {},
                }
            }
            Some((direct, dir.to_owned()))
        },
        None => {
            let main_dir = path_join(dir, "main");
            let nested = path_join(main_dir.as_str(), "git-worktree-config.jsonc");
            match fs.lookup_kind(nested.as_str()) {
                Some(_) => Some((nested, dir.to_owned())),
                None => None,
            }
        },
    }
}

/// Walk upward from `start` for the project configuration; the result is
/// the configuration file's path and the project root it anchors.
pub fn find_local_config(fs: &FsSnapshot, start: &str) -> (r: Option<(String, String)>)
    ensures
        match r {
            Some(p) => spec_find_local_config(*fs, start@) == Some((p.0@, p.1@)),
            None => spec_find_local_config(*fs, start@) is None,
        },
{
    let mut cur: String = start.to_owned();
    loop
        invariant
            spec_find_local_config(*fs, start@) == spec_find_local_config(*fs, cur@),
        decreases cur@.len(),
    {
        if let Some(p) = local_config_at(fs, cur.as_str()) {
            return Some(p);
        }
        match path_parent(cur.as_str()) {
            Some(p) => {
                proof {
                    lemma_parent_shorter(cur@);
                }
                cur = p;
            },
            None => {
                return None;
            },
        }
    }
}

/// What the project root resolves to, first match wins: the sibling of
/// the `-worktrees` directory enclosing git's top level (kept only when
/// plausible, else the top level itself); the sibling derived from the
/// start when it is not inside any repository, when plausible; the root
/// anchored by a configuration found above the start; the recorded
/// project path of a globally registered configuration.
pub open spec fn spec_project_root(
    fs: FsSnapshot,
    start: Seq<char>,
    git_toplevel: Option<Seq<char>>,
    global_project_path: Option<Seq<char>>,
) -> Option<Seq<char>> {
    match git_toplevel {
        Some(t) => match spec_worktrees_sibling(t) {
            Some(sib) => if spec_root_has_git(fs, sib) {
                Some(sib)
            } else {
                Some(t)
            },
            None => spec_config_root(fs, start, global_project_path),
        },
        None => match spec_worktrees_sibling(start) {
            Some(sib) => if spec_root_has_git(fs, sib) {
                Some(sib)
            } else {
                spec_config_root(fs, start, global_project_path)
            },
            None => spec_config_root(fs, start, global_project_path),
        },
    }
}

/// The configuration-derived root: the local walk first, then the
/// recorded project path of a global configuration.
pub open spec fn spec_config_root(
    fs: FsSnapshot,
    start: Seq<char>,
    global_project_path: Option<Seq<char>>,
) -> Option<Seq<char>> {
    match spec_find_local_config(fs, start) {
        Some(p) => Some(p.1),
        None => global_project_path,
    }
}

/// Resolve the project root from `start`. `git_toplevel` is what
/// `rev-parse --show-toplevel` reported from there, when it succeeded;
/// `global_project_path` is the project path recorded by a globally
/// registered configuration for this repository, when one was found.
/// The error distinguishes a start inside an unmanaged repository from
/// one inside no repository at all.
pub fn find_project_root_from(
    fs: &FsSnapshot,
    start: &str,
    git_toplevel: Option<&String>,
    global_project_path: Option<&String>,
) -> (r: Result<String, Error>)
    ensures
        match r {
            Ok(root) => spec_project_root(
                *fs,
                start@,
                match git_toplevel {
                    Some(t) => Some(t@),
                    None => None,
                },
                match global_project_path {
                    Some(p) => Some(p@),
                    None => None,
                },
            ) == Some(root@),
            Err(e) => spec_project_root(
                *fs,
                start@,
                match git_toplevel {
                    Some(t) => Some(t@),
                    None => None,
                },
                match global_project_path {
                    Some(p) => Some(p@),
                    None => None,
                },
            ) is None && (match git_toplevel {
                Some(_) => e is Other,
                None => e == Error::ProjectRootNotFound,
            }),
        },
{
    match git_toplevel {
        Some(t) => {
            if let Some(sib) = worktrees_sibling(t.as_str()) {
                if root_has_git(fs, sib.as_str()) {
                    return Ok(sib);
                }
                return Ok(t.clone());
            }
        },
        None => {
            if let Some(sib) = worktrees_sibling(start) {
                if root_has_git(fs, sib.as_str()) {
                    return Ok(sib);
                }
            }
        },
    }
    if let Some((_, root)) = find_local_config(fs, start) {
        return Ok(root);
    }
    if let Some(p) = global_project_path {
        return Ok(p.clone());
    }
    match git_toplevel {
        Some(_) => Err(
            Error::msg(
                "Found git repository but no git-worktree-config.jsonc. This doesn't appear to be a worktree project.".to_owned(),
            ),
        ),
        None => Err(Error::ProjectRootNotFound),
    }
}

/// The choice `find_git_directory_from` makes for `d`: the root itself
/// when it holds a `.git` entry, else the first immediate subdirectory
/// holding one.
pub open spec fn spec_git_dir_choice(fs: FsSnapshot, root: Seq<char>, d: Seq<char>) -> bool {
    if spec_has_git_entry(fs, root) != GitEntry::Absent {
        d == root
    } else {
        exists|k: int|
            0 <= k < fs.entries@.len() && spec_child_git(fs, root, k) && d
                == fs.entries@[k].path@ && (forall|j: int|
                0 <= j < k ==> !spec_child_git(fs, root, j))
    }
}

/// No `.git` entry is reachable from `root`: neither at it nor in any
/// immediate subdirectory.
pub open spec fn spec_no_git_dir(fs: FsSnapshot, root: Seq<char>) -> bool {
    spec_has_git_entry(fs, root) == GitEntry::Absent && (forall|j: int|
        0 <= j < fs.entries@.len() ==> !spec_child_git(fs, root, j))
}

/// Find the directory to run git commands from: the root itself when it
/// holds a `.git` entry, else the first immediate subdirectory holding
/// one, in the snapshot's enumeration order.
pub fn find_git_directory_from(fs: &FsSnapshot, project_root: &str) -> (r: Result<String, Error>)
    ensures
        match r {
            Ok(d) => spec_git_dir_choice(*fs, project_root@, d@),
            Err(e) => spec_no_git_dir(*fs, project_root@) && e == Error::GitDirectoryNotFound,
        },
{
    match crate::probe::has_git_entry(fs, project_root) {
        GitEntry::Absent => {},
        _ => {
            return Ok(project_root.to_owned());
        },
    }
    let n = fs.entries.len();
    let mut k: usize = 0;
    while k < n
        invariant
            n == fs.entries@.len(),
            k <= n,
            spec_has_git_entry(*fs, project_root@) == GitEntry::Absent,
            forall|j: int| 0 <= j < k ==> !spec_child_git(*fs, project_root@, j),
        decreases n - k,
    {
        let e = &fs.entries[k];
        let is_child = match e.kind {
            FsNodeKind::Dir => {
                match path_parent(e.path.as_str()) {
                    Some(p) => str_eq(p.as_str(), project_root),
                    None => false,
                }
            },
            FsNodeKind::File => false,
        };
        if is_child {
            match crate::probe::has_git_entry(fs, e.path.as_str()) {
                GitEntry::Absent => {},
                _ => {
                    proof {
                        assert(spec_child_git(*fs, project_root@, k as int)) by {
                            reveal(spec_child_git);
                        }
                    }
                    return Ok(e.path.clone());
                },
            }
        }
        proof {
            assert(!spec_child_git(*fs, project_root@, k as int)) by {
                reveal(spec_child_git);
            }
        }
        k = k + 1;
    }
    Err(Error::GitDirectoryNotFound)
}

/// Entry `k` is an immediate subdirectory of `root` whose `.git` entry is
/// a file: an attached worktree. Opaque for cheap quantification.
#[verifier::opaque]
pub open spec fn spec_child_git_file(fs: FsSnapshot, root: Seq<char>, k: int) -> bool {
    spec_is_child_dir(fs, root, k) && spec_has_git_entry(fs, fs.entries@[k].path@)
        == GitEntry::GitFile
}

/// Entry `k` is an immediate subdirectory of `root` whose `.git` entry is
/// a directory: a main or bare repository. Opaque for cheap
/// quantification.
#[verifier::opaque]
pub open spec fn spec_child_git_dir(fs: FsSnapshot, root: Seq<char>, k: int) -> bool {
    spec_is_child_dir(fs, root, k) && spec_has_git_entry(fs, fs.entries@[k].path@)
        == GitEntry::GitDir
}

/// As `spec_child_git_file`, but the worktree must not be orphaned.
#[verifier::opaque]
pub open spec fn spec_child_live_file(fs: FsSnapshot, root: Seq<char>, k: int) -> bool {
    spec_is_child_dir(fs, root, k) && spec_has_git_entry(fs, fs.entries@[k].path@)
        == GitEntry::GitFile && !spec_is_orphaned(fs, fs.entries@[k].path@)
}

/// The choice `find_existing_worktree` makes for `d`, in order of
/// preference: the root itself when its `.git` is a file; the first
/// immediate subdirectory whose `.git` is a file; the last immediate
/// subdirectory whose `.git` is a directory; the root itself when its
/// `.git` is a directory.
pub open spec fn spec_existing_choice(fs: FsSnapshot, root: Seq<char>, d: Seq<char>) -> bool {
    if spec_has_git_entry(fs, root) == GitEntry::GitFile {
        d == root
    } else if exists|k: int| 0 <= k < fs.entries@.len() && spec_child_git_file(fs, root, k) {
        exists|k: int|
            0 <= k < fs.entries@.len() && spec_child_git_file(fs, root, k) && d
                == fs.entries@[k].path@ && (forall|j: int|
                0 <= j < k ==> !spec_child_git_file(fs, root, j))
    } else if exists|k: int| 0 <= k < fs.entries@.len() && spec_child_git_dir(fs, root, k) {
        exists|k: int|
            0 <= k < fs.entries@.len() && spec_child_git_dir(fs, root, k) && d
                == fs.entries@[k].path@ && (forall|j: int|
                k < j < fs.entries@.len() ==> !spec_child_git_dir(fs, root, j))
    } else if spec_has_git_entry(fs, root) == GitEntry::GitDir {
        d == root
    } else {
        false
    }
}

/// Nothing at or directly below `root` is usable as an existing checkout.
pub open spec fn spec_no_existing(fs: FsSnapshot, root: Seq<char>) -> bool {
    spec_has_git_entry(fs, root) == GitEntry::Absent && (forall|j: int|
        0 <= j < fs.entries@.len() ==> !spec_child_git_file(fs, root, j)) && (forall|j: int|
        0 <= j < fs.entries@.len() ==> !spec_child_git_dir(fs, root, j))
}

/// Find an existing checkout to run git commands from, preferring
/// attached worktrees (`.git` is a file) over main repositories (`.git`
/// is a directory), and among the latter keeping the one a directory
/// scan meets last.
pub fn find_existing_worktree(fs: &FsSnapshot, project_root: &str) -> (r: Result<String, Error>)
    ensures
        match r {
            Ok(d) => spec_existing_choice(*fs, project_root@, d@),
            Err(e) => spec_no_existing(*fs, project_root@) && e is Other,
        },
{
    match crate::probe::has_git_entry(fs, project_root) {
        GitEntry::GitFile => {
            return Ok(project_root.to_owned());
        },
        _ => {},
    }
    let n = fs.entries.len();
    let mut main_repo: Option<String> = None;
    let ghost mut main_idx: Option<int> = None;
    match crate::probe::has_git_entry(fs, project_root) {
        GitEntry::GitDir => {
            main_repo = Some(project_root.to_owned());
        },
        _ => {},
    }
    let mut k: usize = 0;
    while k < n
        invariant
            n == fs.entries@.len(),
            k <= n,
            spec_has_git_entry(*fs, project_root@) != GitEntry::GitFile,
            forall|j: int| 0 <= j < k ==> !spec_child_git_file(*fs, project_root@, j),
            match main_idx {
                Some(mi) => 0 <= mi < k && spec_child_git_dir(*fs, project_root@, mi) && (
                forall|j: int| mi < j < k ==> !spec_child_git_dir(*fs, project_root@, j))
                    && main_repo is Some && main_repo.unwrap()@ == fs.entries@[mi].path@,
                None => (forall|j: int| 0 <= j < k ==> !spec_child_git_dir(*fs, project_root@, j))
                    && (if spec_has_git_entry(*fs, project_root@) == GitEntry::GitDir {
                    main_repo is Some && main_repo.unwrap()@ == project_root@
                } else {
                    main_repo is None
                }),
            },
        decreases n - k,
    {
        let e = &fs.entries[k];
        let is_child = match e.kind {
            FsNodeKind::Dir => {
                match path_parent(e.path.as_str()) {
                    Some(p) => str_eq(p.as_str(), project_root),
                    None => false,
                }
            },
            FsNodeKind::File => false,
        };
        if is_child {
            match crate::probe::has_git_entry(fs, e.path.as_str()) {
                GitEntry::GitFile => {
                    proof {
                        assert(spec_child_git_file(*fs, project_root@, k as int)) by {
                            reveal(spec_child_git_file);
                        }
                    }
                    return Ok(e.path.clone());
                },
                GitEntry::GitDir => {
                    main_repo = Some(e.path.clone());
                    proof {
                        main_idx = Some(k as int);
                        assert(spec_child_git_dir(*fs, project_root@, k as int)) by {
                            reveal(spec_child_git_dir);
                        }
                        assert(!spec_child_git_file(*fs, project_root@, k as int)) by {
                            reveal(spec_child_git_file);
                        }
                    }
                },
                GitEntry::Absent => {
                    proof {
                        assert(!spec_child_git_file(*fs, project_root@, k as int)) by {
                            reveal(spec_child_git_file);
                        }
                        assert(!spec_child_git_dir(*fs, project_root@, k as int)) by {
                            reveal(spec_child_git_dir);
                        }
                    }
                },
            }
        } else {
            proof {
                assert(!spec_child_git_file(*fs, project_root@, k as int)) by {
                    reveal(spec_child_git_file);
                }
                assert(!spec_child_git_dir(*fs, project_root@, k as int)) by {
                    reveal(spec_child_git_dir);
                }
            }
        }
        k = k + 1;
    }
    match main_repo {
        Some(d) => Ok(d),
        None => {
            let msg = "No existing git directory found in project at ".to_owned().concat(
                project_root,
            ).concat(". Have you run 'gwt init' yet?");
            Err(Error::msg(msg))
        },
    }
}

/// The choice `find_valid_git_directory` makes for `d`: as
/// `spec_existing_choice`, except that an orphaned worktree is never
/// chosen — neither the root nor a subdirectory whose `.git` file points
/// at a repository that is gone.
pub open spec fn spec_valid_choice(fs: FsSnapshot, root: Seq<char>, d: Seq<char>) -> bool {
    if spec_has_git_entry(fs, root) == GitEntry::GitFile && !spec_is_orphaned(fs, root) {
        d == root
    } else if exists|k: int| 0 <= k < fs.entries@.len() && spec_child_live_file(fs, root, k) {
        exists|k: int|
            0 <= k < fs.entries@.len() && spec_child_live_file(fs, root, k) && d
                == fs.entries@[k].path@ && (forall|j: int|
                0 <= j < k ==> !spec_child_live_file(fs, root, j))
    } else if exists|k: int| 0 <= k < fs.entries@.len() && spec_child_git_dir(fs, root, k) {
        exists|k: int|
            0 <= k < fs.entries@.len() && spec_child_git_dir(fs, root, k) && d
                == fs.entries@[k].path@ && (forall|j: int|
                k < j < fs.entries@.len() ==> !spec_child_git_dir(fs, root, j))
    } else if spec_has_git_entry(fs, root) == GitEntry::GitDir {
        d == root
    } else {
        false
    }
}

/// Nothing at or directly below `root` is usable as a live checkout.
pub open spec fn spec_no_valid(fs: FsSnapshot, root: Seq<char>) -> bool {
    (spec_has_git_entry(fs, root) == GitEntry::Absent || (spec_has_git_entry(fs, root)
        == GitEntry::GitFile && spec_is_orphaned(fs, root))) && (forall|j: int|
        0 <= j < fs.entries@.len() ==> !spec_child_live_file(fs, root, j)) && (forall|j: int|
        0 <= j < fs.entries@.len() ==> !spec_child_git_dir(fs, root, j))
}

/// Find a live checkout to run git commands from: as
/// `find_existing_worktree`, but an orphaned worktree — one whose `.git`
/// file points at a repository directory that no longer exists — is
/// skipped, so that stale references never become the execution context.
pub fn find_valid_git_directory(fs: &FsSnapshot, project_root: &str) -> (r: Result<String, Error>)
    ensures
        match r {
            Ok(d) => spec_valid_choice(*fs, project_root@, d@),
            Err(e) => spec_no_valid(*fs, project_root@) && e is Other,
        },
{
    match crate::probe::has_git_entry(fs, project_root) {
        GitEntry::GitFile => {
            if !is_orphaned_worktree(fs, project_root) {
                return Ok(project_root.to_owned());
            }
        },
        _ => {},
    }
    let n = fs.entries.len();
    let mut main_repo: Option<String> = None;
    let ghost mut main_idx: Option<int> = None;
    match crate::probe::has_git_entry(fs, project_root) {
        GitEntry::GitDir => {
            main_repo = Some(project_root.to_owned());
        },
        _ => {},
    }
    let mut k: usize = 0;
    while k < n
        invariant
            n == fs.entries@.len(),
            k <= n,
            !(spec_has_git_entry(*fs, project_root@) == GitEntry::GitFile && !spec_is_orphaned(
                *fs,
                project_root@,
            )),
            forall|j: int| 0 <= j < k ==> !spec_child_live_file(*fs, project_root@, j),
            match main_idx {
                Some(mi) => 0 <= mi < k && spec_child_git_dir(*fs, project_root@, mi) && (
                forall|j: int| mi < j < k ==> !spec_child_git_dir(*fs, project_root@, j))
                    && main_repo is Some && main_repo.unwrap()@ == fs.entries@[mi].path@,
                None => (forall|j: int| 0 <= j < k ==> !spec_child_git_dir(*fs, project_root@, j))
                    && (if spec_has_git_entry(*fs, project_root@) == GitEntry::GitDir {
                    main_repo is Some && main_repo.unwrap()@ == project_root@
                } else {
                    main_repo is None
                }),
            },
        decreases n - k,
    {
        let e = &fs.entries[k];
        let is_child = match e.kind {
            FsNodeKind::Dir => {
                match path_parent(e.path.as_str()) {
                    Some(p) => str_eq(p.as_str(), project_root),
                    None => false,
                }
            },
            FsNodeKind::File => false,
        };
        if is_child {
            match crate::probe::has_git_entry(fs, e.path.as_str()) {
                GitEntry::GitFile => {
                    if !is_orphaned_worktree(fs, e.path.as_str()) {
                        proof {
                            assert(spec_child_live_file(*fs, project_root@, k as int)) by {
                                reveal(spec_child_live_file);
                            }
                        }
                        return Ok(e.path.clone());
                    }
                    proof {
                        assert(!spec_child_live_file(*fs, project_root@, k as int)) by {
                            reveal(spec_child_live_file);
                        }
                        assert(!spec_child_git_dir(*fs, project_root@, k as int)) by {
                            reveal(spec_child_git_dir);
                        }
                    }
                },
                GitEntry::GitDir => {
                    main_repo = Some(e.path.clone());
                    proof {
                        main_idx = Some(k as int);
                        assert(spec_child_git_dir(*fs, project_root@, k as int)) by {
                            reveal(spec_child_git_dir);
                        }
                        assert(!spec_child_live_file(*fs, project_root@, k as int)) by {
                            reveal(spec_child_live_file);
                        }
                    }
                },
                GitEntry::Absent => {
                    proof {
                        assert(!spec_child_live_file(*fs, project_root@, k as int)) by {
                            reveal(spec_child_live_file);
                        }
                        assert(!spec_child_git_dir(*fs, project_root@, k as int)) by {
                            reveal(spec_child_git_dir);
                        }
                    }
                },
            }
        } else {
            proof {
                assert(!spec_child_live_file(*fs, project_root@, k as int)) by {
                    reveal(spec_child_live_file);
                }
                assert(!spec_child_git_dir(*fs, project_root@, k as int)) by {
                    reveal(spec_child_git_dir);
                }
            }
        }
        k = k + 1;
    }
    match main_repo {
        Some(d) => Ok(d),
        None => Err(Error::msg("No valid git directory found in project".to_owned())),
    }
}

/// Resolve the project root from `start` and then the directory holding
/// a `.git` entry to run git commands from.
pub fn find_git_directory(
    fs: &FsSnapshot,
    start: &str,
    git_toplevel: Option<&String>,
    global_project_path: Option<&String>,
) -> (r: Result<String, Error>)
    ensures
        match r {
            Ok(d) => ({
                let root = spec_project_root(
                    *fs,
                    start@,
                    match git_toplevel {
                        Some(t) => Some(t@),
                        None => None,
                    },
                    match global_project_path {
                        Some(g) => Some(g@),
                        None => None,
                    },
                );
                root is Some && spec_git_dir_choice(*fs, root.unwrap(), d@)
            }),
            Err(e) => e is Other || e == Error::ProjectRootNotFound || e
                == Error::GitDirectoryNotFound,
        },
{
    let root = find_project_root_from(fs, start, git_toplevel, global_project_path)?;
    find_git_directory_from(fs, root.as_str())
}

impl Project {
    /// Locate the project reachable from `start`: resolve its root, then
    /// the directory holding a `.git` entry to run git commands from.
    /// The root and the git directory are tied together by
    /// `spec_project_root` and `spec_git_dir_choice`.
    pub fn find_from(
        fs: &FsSnapshot,
        start: &str,
        git_toplevel: Option<&String>,
        global_project_path: Option<&String>,
    ) -> (r: Result<Project, Error>)
        ensures
            match r {
                Ok(p) => spec_project_root(
                    *fs,
                    start@,
                    match git_toplevel {
                        Some(t) => Some(t@),
                        None => None,
                    },
                    match global_project_path {
                        Some(g) => Some(g@),
                        None => None,
                    },
                ) == Some(p.root@) && spec_git_dir_choice(*fs, p.root@, p.git_dir@),
                Err(e) => e is Other || e == Error::ProjectRootNotFound || e
                    == Error::GitDirectoryNotFound,
            },
    {
        let root = find_project_root_from(fs, start, git_toplevel, global_project_path)?;
        let git_dir = find_git_directory_from(fs, root.as_str())?;
        Ok(Project { root, git_dir })
    }

    /// The checkout git commands run from when no better context exists:
    /// the existing-worktree preference applied to this project's root.
    pub fn bare_repo_dir(&self, fs: &FsSnapshot) -> (r: Result<String, Error>)
        ensures
            match r {
                Ok(d) => spec_existing_choice(*fs, self.root@, d@),
                Err(e) => spec_no_existing(*fs, self.root@) && e is Other,
            },
    {
        find_existing_worktree(fs, self.root.as_str())
    }
}

} // verus!

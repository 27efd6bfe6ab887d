//! Stateless predicates over a filesystem snapshot: what kind of `.git`
//! entry a directory holds, and whether a worktree is orphaned (its
//! `.git` file points at a repository directory that no longer exists).
use vstd::prelude::*;
use crate::fsmodel::{FsNodeKind, FsSnapshot};
use crate::paths::{path_join, spec_join};
use crate::strutil::{find_char, spec_find_char, spec_trim, starts_with, strip_prefix_str, trim_ascii};

verus! {

/// What `<dir>/.git` is in a snapshot.
#[derive(Clone, Copy, Debug, PartialEq, Eq, Structural)]
pub enum GitEntry {
    /// No `.git` entry at all.
    Absent,
    /// `.git` is a file: the directory is an attached worktree.
    GitFile,
    /// `.git` is a directory: the directory is a main or bare repository.
    GitDir,
}

/// The kind of `.git` entry `dir` holds in `fs`.
pub open spec fn spec_has_git_entry(fs: FsSnapshot, dir: Seq<char>) -> GitEntry {
    match fs.kind_of(spec_join(dir, ".git"@)) {
        None => GitEntry::Absent,
        Some(FsNodeKind::File) => GitEntry::GitFile,
        Some(FsNodeKind::Dir) => GitEntry::GitDir,
    }
}

/// Inspect `<dir>/.git`.
pub fn has_git_entry(fs: &FsSnapshot, dir: &str) -> (r: GitEntry)
    ensures
        r == spec_has_git_entry(*fs, dir@),
{
    let marker = path_join(dir, ".git");
    match fs.lookup_kind(marker.as_str()) {
        None => GitEntry::Absent,
        Some(FsNodeKind::File) => GitEntry::GitFile,
        Some(FsNodeKind::Dir) => GitEntry::GitDir,
    }
}

/// The first line of `s`: up to the first newline, or all of `s`.
pub open spec fn first_line(s: Seq<char>) -> Seq<char> {
    match spec_find_char(s, '\n') {
        Some(i) => s.take(i),
        None => s,
    }
}

/// The target a `.git` file points at: on its first line, after a
/// `gitdir: ` prefix, trimmed; `None` when the text is not of that shape.
pub open spec fn spec_gitdir_target(content: Seq<char>) -> Option<Seq<char>> {
    let t = spec_trim(first_line(content));
    if starts_with(t, "gitdir: "@) {
        let target = spec_trim(t.skip("gitdir: "@.len() as int));
        if target.len() > 0 {
            Some(target)
        } else {
            None
        }
    } else {
        None
    }
}

/// Parse the repository path out of a worktree's `.git` file text.
pub fn gitdir_target(content: &str) -> (r: Option<String>)
    ensures
        match r {
            Some(t) => spec_gitdir_target(content@) == Some(t@),
            None => spec_gitdir_target(content@) is None,
        },
{
    let fl: &str = match find_char(content, '\n') {
        Some(i) => {
            proof {
                crate::strutil::lemma_find_char_first(content@, '\n');
            }
            let fl = content.substring_char(0, i);
            proof {
                assert(fl@ =~= first_line(content@));
            }
            fl
        },
        None => content,
    };
    let t = trim_ascii(fl);
    match strip_prefix_str(t, "gitdir: ") {
        Some(rest) => {
            let target = trim_ascii(rest);
            if target.unicode_len() > 0 {
                Some(target.to_owned())
            } else {
                None
            }
        },
        None => None,
    }
}

/// `dir` is an orphaned worktree in `fs`: its `.git` entry is a file whose
/// recorded `gitdir: ` target is a path the snapshot does not hold.
/// A missing or malformed `.git` file never counts as orphaned.
pub open spec fn spec_is_orphaned(fs: FsSnapshot, dir: Seq<char>) -> bool {
    &&& fs.is_file(spec_join(dir, ".git"@))
    &&& match spec_gitdir_target(fs.content_of(spec_join(dir, ".git"@)).unwrap()) {
        Some(target) => !fs.contains_path(target),
        None => false,
    }
}

/// Decide whether `dir` is an orphaned worktree.
pub fn is_orphaned_worktree(fs: &FsSnapshot, dir: &str) -> (r: bool)
    ensures
        r == spec_is_orphaned(*fs, dir@),
{
    let marker = path_join(dir, ".git");
    match fs.lookup(marker.as_str()) {
        Some(e) => {
            match e.kind {
                FsNodeKind::File => {
                    match gitdir_target(e.content.as_str()) {
                        Some(target) => {
                            match fs.lookup(target.as_str()) {
                                Some(_) => false,
                                None => true,
                            }
                        },
                        None => false,
                    }
                },
                FsNodeKind::Dir => false,
            }
        },
        None => false,
    }
}

/// How orphanhood is decided, restated over the probe's own pieces: a
/// directory without a `.git` file is never orphaned; one whose `.git`
/// file names a target the snapshot still holds, or names no target at
/// all, is not orphaned; only a file whose target is absent is.
pub proof fn lemma_orphan_characterization(fs: FsSnapshot, dir: Seq<char>)
    ensures
        spec_has_git_entry(fs, dir) != GitEntry::GitFile ==> !spec_is_orphaned(fs, dir),
        spec_has_git_entry(fs, dir) == GitEntry::GitFile && spec_gitdir_target(
            fs.content_of(spec_join(dir, ".git"@)).unwrap(),
        ) is None ==> !spec_is_orphaned(fs, dir),
        spec_has_git_entry(fs, dir) == GitEntry::GitFile && (match spec_gitdir_target(
            fs.content_of(spec_join(dir, ".git"@)).unwrap(),
        ) {
            Some(target) => fs.contains_path(target),
            None => false,
        }) ==> !spec_is_orphaned(fs, dir),
        spec_is_orphaned(fs, dir) <==> spec_has_git_entry(fs, dir) == GitEntry::GitFile && (
        match spec_gitdir_target(fs.content_of(spec_join(dir, ".git"@)).unwrap()) {
            Some(target) => !fs.contains_path(target),
            None => false,
        }),
{
}

} // verus!

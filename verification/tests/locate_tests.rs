use git_worktree_cli::errors::Error;
use git_worktree_cli::fsmodel::{FsNodeKind, FsSnapshot};
use git_worktree_cli::locate::{
    find_existing_worktree, find_git_directory, find_git_directory_from, find_local_config,
    find_project_root_from, find_valid_git_directory, root_has_git, worktrees_sibling, Project,
};
use git_worktree_cli::paths::{path_file_name, path_is_under, path_join, path_parent};
use git_worktree_cli::probe::{gitdir_target, has_git_entry, is_orphaned_worktree, GitEntry};

fn dir(fs: &mut FsSnapshot, p: &str) {
    fs.add_dir(p.to_string());
}

fn file(fs: &mut FsSnapshot, p: &str, content: &str) {
    fs.add_file(p.to_string(), content.to_string());
}

#[test]
fn path_helpers() {
    assert_eq!(path_parent("/a/b/c"), Some("/a/b".to_string()));
    assert_eq!(path_parent("/a"), Some("/".to_string()));
    assert_eq!(path_parent("/"), None);
    assert_eq!(path_parent("name"), None);
    assert_eq!(path_file_name("/a/b/c"), "c");
    assert_eq!(path_file_name("name"), "name");
    assert_eq!(path_join("/a", "b"), "/a/b");
    assert_eq!(path_join("/", "b"), "/b");
    assert!(path_is_under("/a/b", "/a"));
    assert!(path_is_under("/a", "/a"));
    assert!(!path_is_under("/ab", "/a"));
}

#[test]
fn has_git_entry_kinds() {
    let mut fs = FsSnapshot::new();
    dir(&mut fs, "/p/main");
    dir(&mut fs, "/p/main/.git");
    dir(&mut fs, "/p/wt");
    file(&mut fs, "/p/wt/.git", "gitdir: /p/main/.git/worktrees/wt");
    assert_eq!(has_git_entry(&fs, "/p/main"), GitEntry::GitDir);
    assert_eq!(has_git_entry(&fs, "/p/wt"), GitEntry::GitFile);
    assert_eq!(has_git_entry(&fs, "/p/none"), GitEntry::Absent);
}

#[test]
fn gitdir_target_parsing() {
    assert_eq!(
        gitdir_target("gitdir: /repo/.git/worktrees/x\n"),
        Some("/repo/.git/worktrees/x".to_string())
    );
    assert_eq!(gitdir_target("gitdir:  /spaced "), Some("/spaced".to_string()));
    assert_eq!(gitdir_target("nonsense"), None);
    assert_eq!(gitdir_target("gitdir: "), None);
    assert_eq!(gitdir_target(""), None);
}

#[test]
fn orphan_detection() {
    let mut fs = FsSnapshot::new();
    dir(&mut fs, "/p/live");
    file(&mut fs, "/p/live/.git", "gitdir: /p/main/.git/worktrees/live");
    dir(&mut fs, "/p/main/.git/worktrees/live");
    dir(&mut fs, "/p/stale");
    file(&mut fs, "/p/stale/.git", "gitdir: /gone/.git/worktrees/stale");
    dir(&mut fs, "/p/plain");
    dir(&mut fs, "/p/garbled");
    file(&mut fs, "/p/garbled/.git", "not a pointer");
    // A target that still exists: not orphaned.
    assert!(!is_orphaned_worktree(&fs, "/p/live"));
    // A target that is gone: orphaned.
    assert!(is_orphaned_worktree(&fs, "/p/stale"));
    // No .git file at all: never orphaned.
    assert!(!is_orphaned_worktree(&fs, "/p/plain"));
    // A malformed .git file: fail-safe, not orphaned.
    assert!(!is_orphaned_worktree(&fs, "/p/garbled"));
}

#[test]
fn worktrees_sibling_derivation() {
    assert_eq!(
        worktrees_sibling("/work/proj-worktrees/feature/deep/inside"),
        Some("/work/proj".to_string())
    );
    assert_eq!(worktrees_sibling("/work/proj-worktrees"), Some("/work/proj".to_string()));
    assert_eq!(worktrees_sibling("/work/plain/dir"), None);
}

#[test]
fn project_root_from_worktrees_sibling() {
    // Root /work/proj with a main checkout; worktrees in /work/proj-worktrees.
    let mut fs = FsSnapshot::new();
    dir(&mut fs, "/work/proj");
    dir(&mut fs, "/work/proj/main");
    dir(&mut fs, "/work/proj/main/.git");
    dir(&mut fs, "/work/proj-worktrees/feature-a");
    let toplevel = "/work/proj-worktrees/feature-a".to_string();
    let root = find_project_root_from(
        &fs,
        "/work/proj-worktrees/feature-a/src/deep",
        Some(&toplevel),
        None,
    )
    .unwrap();
    assert_eq!(root, "/work/proj");
    assert!(root_has_git(&fs, "/work/proj"));
}

#[test]
fn project_root_falls_back_to_toplevel() {
    // The derived sibling does not look like a repository.
    let mut fs = FsSnapshot::new();
    dir(&mut fs, "/work/empty");
    let toplevel = "/work/proj-worktrees/feature-a".to_string();
    let root =
        find_project_root_from(&fs, "/work/proj-worktrees/feature-a", Some(&toplevel), None)
            .unwrap();
    assert_eq!(root, "/work/proj-worktrees/feature-a");
}

#[test]
fn project_root_from_config_walk() {
    let mut fs = FsSnapshot::new();
    file(&mut fs, "/work/proj/git-worktree-config.jsonc", "{}");
    let root = find_project_root_from(&fs, "/work/proj/feat/sub", None, None).unwrap();
    assert_eq!(root, "/work/proj");
}

#[test]
fn project_root_from_config_inside_main() {
    // The configuration lives inside the main checkout: the root is its
    // parent.
    let mut fs = FsSnapshot::new();
    file(&mut fs, "/work/proj/main/git-worktree-config.jsonc", "{}");
    let root = find_project_root_from(&fs, "/work/proj/main", None, None).unwrap();
    assert_eq!(root, "/work/proj");
    let found = find_local_config(&fs, "/work/proj/main").unwrap();
    assert_eq!(found.0, "/work/proj/main/git-worktree-config.jsonc");
    assert_eq!(found.1, "/work/proj");
}

#[test]
fn project_root_from_global_path() {
    let fs = FsSnapshot::new();
    let global = "/registered/proj".to_string();
    let root = find_project_root_from(&fs, "/anywhere", None, Some(&global)).unwrap();
    assert_eq!(root, "/registered/proj");
}

#[test]
fn project_root_errors() {
    let fs = FsSnapshot::new();
    let unmanaged = "/work/repo".to_string();
    let err = find_project_root_from(&fs, "/work/repo", Some(&unmanaged), None).unwrap_err();
    assert!(matches!(err, Error::Other(_)));
    let err = find_project_root_from(&fs, "/work/repo", None, None).unwrap_err();
    assert!(matches!(err, Error::ProjectRootNotFound));
}

#[test]
fn git_directory_resolution() {
    let mut fs = FsSnapshot::new();
    dir(&mut fs, "/p/other");
    dir(&mut fs, "/p/main");
    dir(&mut fs, "/p/main/.git");
    assert_eq!(find_git_directory_from(&fs, "/p").unwrap(), "/p/main");
    // A root that itself holds .git wins.
    let mut fs2 = FsSnapshot::new();
    dir(&mut fs2, "/q/.git");
    dir(&mut fs2, "/q/sub");
    dir(&mut fs2, "/q/sub/.git");
    assert_eq!(find_git_directory_from(&fs2, "/q").unwrap(), "/q");
    let empty = FsSnapshot::new();
    assert!(matches!(
        find_git_directory_from(&empty, "/p").unwrap_err(),
        Error::GitDirectoryNotFound
    ));
}

#[test]
fn existing_worktree_preferences() {
    // A worktree (.git file) beats a main repository (.git directory).
    let mut fs = FsSnapshot::new();
    dir(&mut fs, "/p/main");
    dir(&mut fs, "/p/main/.git");
    dir(&mut fs, "/p/wt");
    file(&mut fs, "/p/wt/.git", "gitdir: /p/main/.git/worktrees/wt");
    assert_eq!(find_existing_worktree(&fs, "/p").unwrap(), "/p/wt");
    // With only main repositories, the last one scanned wins.
    let mut fs2 = FsSnapshot::new();
    dir(&mut fs2, "/p/one");
    dir(&mut fs2, "/p/one/.git");
    dir(&mut fs2, "/p/two");
    dir(&mut fs2, "/p/two/.git");
    assert_eq!(find_existing_worktree(&fs2, "/p").unwrap(), "/p/two");
    let empty = FsSnapshot::new();
    assert!(matches!(
        find_existing_worktree(&empty, "/p").unwrap_err(),
        Error::Other(_)
    ));
}

#[test]
fn valid_git_directory_skips_orphans() {
    let mut fs = FsSnapshot::new();
    dir(&mut fs, "/p/stale");
    file(&mut fs, "/p/stale/.git", "gitdir: /gone/x");
    dir(&mut fs, "/p/live");
    file(&mut fs, "/p/live/.git", "gitdir: /p/main/.git/worktrees/live");
    dir(&mut fs, "/p/main/.git/worktrees/live");
    assert_eq!(find_valid_git_directory(&fs, "/p").unwrap(), "/p/live");
    // Existing-worktree search without the orphan filter picks the stale
    // one first.
    assert_eq!(find_existing_worktree(&fs, "/p").unwrap(), "/p/stale");
}

#[test]
fn project_find_from_and_bare_repo_dir() {
    let mut fs = FsSnapshot::new();
    file(&mut fs, "/work/proj/git-worktree-config.jsonc", "{}");
    dir(&mut fs, "/work/proj/main");
    dir(&mut fs, "/work/proj/main/.git");
    let p = Project::find_from(&fs, "/work/proj/main/src", None, None).unwrap();
    assert_eq!(p.root, "/work/proj");
    assert_eq!(p.git_dir, "/work/proj/main");
    assert_eq!(p.bare_repo_dir(&fs).unwrap(), "/work/proj/main");
    let g = find_git_directory(&fs, "/work/proj/main/src", None, None).unwrap();
    assert_eq!(g, "/work/proj/main");
}

#[test]
fn worktrees_sibling_beats_config_walk() {
    // Both heuristics could match; the -worktrees sibling is tried first.
    let mut fs = FsSnapshot::new();
    file(&mut fs, "/work/git-worktree-config.jsonc", "{}");
    dir(&mut fs, "/work/proj");
    dir(&mut fs, "/work/proj/.git");
    let toplevel = "/work/proj-worktrees/feat".to_string();
    let root = find_project_root_from(&fs, "/work/proj-worktrees/feat", Some(&toplevel), None)
        .unwrap();
    assert_eq!(root, "/work/proj");
}

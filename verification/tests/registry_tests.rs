use git_worktree_cli::registry::{
    branch_exists, clean_branch_name, find_by_branch_name, find_by_path_name,
    find_current_worktree, find_target_worktree, find_worktree_by_branch, get_branch_display,
    list_worktrees, parse_worktree_list, Worktree,
};

fn sample_porcelain() -> String {
    [
        "worktree /work/project/main",
        "HEAD 1111111111111111111111111111111111111111",
        "branch refs/heads/main",
        "",
        "worktree /work/project/feature-a",
        "HEAD 2222222222222222222222222222222222222222",
        "branch refs/heads/feature-a",
        "",
        "worktree /work/project/detached",
        "HEAD 3333333333333333333333333333333333333333",
        "",
    ]
    .join("\n")
}

#[test]
fn parse_listing_basic() {
    let out = sample_porcelain();
    let wts = parse_worktree_list(&out);
    assert_eq!(wts.len(), 3);
    assert_eq!(wts[0].path, "/work/project/main");
    assert_eq!(wts[0].head, "1111111111111111111111111111111111111111");
    assert_eq!(wts[0].branch, Some("refs/heads/main".to_string()));
    assert!(!wts[0].bare);
    assert_eq!(wts[1].branch, Some("refs/heads/feature-a".to_string()));
    assert_eq!(wts[2].branch, None);
}

#[test]
fn parse_listing_bare_entry() {
    let out = "worktree /repos/proj.git\nHEAD 4444444444444444444444444444444444444444\nbare\n";
    let wts = parse_worktree_list(out);
    assert_eq!(wts.len(), 1);
    assert!(wts[0].bare);
    assert_eq!(wts[0].branch, None);
}

#[test]
fn parse_listing_drops_truncated_tail() {
    let out = "worktree /a\nHEAD 5555\nbranch refs/heads/x\nworktree /b\nbranch refs/heads/y";
    let wts = parse_worktree_list(out);
    assert_eq!(wts.len(), 1);
    assert_eq!(wts[0].path, "/a");
}

#[test]
fn parse_listing_ignores_unknown_lines() {
    let out = "locked\nworktree /a\nprunable gone\nHEAD 6666\ndetached\n";
    let wts = parse_worktree_list(out);
    assert_eq!(wts.len(), 1);
    assert_eq!(wts[0].path, "/a");
    assert_eq!(wts[0].head, "6666");
    assert_eq!(wts[0].branch, None);
}

#[test]
fn parse_listing_last_head_wins() {
    let out = "worktree /a\nHEAD 1\nHEAD 2\n";
    let wts = parse_worktree_list(out);
    assert_eq!(wts.len(), 1);
    assert_eq!(wts[0].head, "2");
}

#[test]
fn lookup_matches_naive_scan() {
    let out = sample_porcelain();
    let wts = parse_worktree_list(&out);
    let by_branch = find_by_branch_name(&wts, "feature-a").unwrap();
    assert_eq!(wts[by_branch].path, "/work/project/feature-a");
    let by_dir = find_by_path_name(&wts, "feature-a").unwrap();
    assert_eq!(by_dir, by_branch);
}

#[test]
fn list_worktrees_wraps_parse() {
    let out = sample_porcelain();
    let wts = list_worktrees(&out).unwrap();
    assert_eq!(wts.len(), 3);
}

#[test]
fn clean_branch_name_cases() {
    assert_eq!(clean_branch_name("refs/heads/feature/x"), "feature/x");
    assert_eq!(clean_branch_name("  refs/heads/main  "), "main");
    assert_eq!(clean_branch_name("plain"), "plain");
    assert_eq!(clean_branch_name("  spaced  "), "spaced");
}

fn wt(path: &str, head: &str, branch: Option<&str>, bare: bool) -> Worktree {
    Worktree {
        path: path.to_string(),
        head: head.to_string(),
        branch: branch.map(|b| b.to_string()),
        bare,
    }
}

#[test]
fn branch_display_variants() {
    let named = wt("/p/feat", "abcdef1234567890", Some("refs/heads/feat"), false);
    assert_eq!(get_branch_display(&named), "feat");
    let bare = wt("/p/repo.git", "abcdef1234567890", None, true);
    assert_eq!(get_branch_display(&bare), "(bare)");
    let detached = wt("/p/d", "abcdef1234567890", None, false);
    assert_eq!(get_branch_display(&detached), "abcdef12");
    let short = wt("/p/s", "ab12", None, false);
    assert_eq!(get_branch_display(&short), "ab12");
}

#[test]
fn find_worktree_by_branch_priority_and_error() {
    let wts = vec![
        wt("/p/feature-a", "1", Some("refs/heads/other"), false),
        wt("/p/x", "2", Some("refs/heads/feature-a"), false),
    ];
    // A branch-name match beats a directory-name match.
    assert_eq!(find_worktree_by_branch(&wts, "feature-a").unwrap(), 1);
    let err = find_worktree_by_branch(&wts, "absent").unwrap_err();
    assert!(matches!(err, git_worktree_cli::errors::Error::Other(_)));
    assert_eq!(err.message(), "Worktree for 'absent' not found");
}

#[test]
fn find_current_worktree_by_ancestry() {
    let wts = vec![
        wt("/p/main", "1", Some("refs/heads/main"), false),
        wt("/p/feat", "2", Some("refs/heads/feat"), false),
    ];
    assert_eq!(find_current_worktree(&wts, "/p/feat/src/deep").unwrap(), 1);
    assert_eq!(find_current_worktree(&wts, "/p/feat").unwrap(), 1);
    assert!(find_current_worktree(&wts, "/elsewhere").is_err());
    // A sibling with a common name prefix is not an ancestor.
    assert!(find_current_worktree(&wts, "/p/feature").is_err());
}

#[test]
fn find_target_worktree_dispatch() {
    let wts = vec![
        wt("/p/main", "1", Some("refs/heads/main"), false),
        wt("/p/feat", "2", Some("refs/heads/feat"), false),
    ];
    assert_eq!(find_target_worktree(&wts, Some("feat"), "/p/main").unwrap(), 1);
    assert_eq!(find_target_worktree(&wts, None, "/p/main/sub").unwrap(), 0);
}

#[test]
fn branch_exists_interprets_listings() {
    assert_eq!(branch_exists("  feature-a\n", ""), (true, false));
    assert_eq!(branch_exists("", "  origin/feature-a\n"), (false, true));
    assert_eq!(branch_exists("   \n", "  \n"), (false, false));
}

#[test]
fn parse_listing_empty_output() {
    assert!(parse_worktree_list("").is_empty());
    assert!(parse_worktree_list("\n\n").is_empty());
}

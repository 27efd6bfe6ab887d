use git_worktree_cli::bitbucket::get_auth_from_config;
use git_worktree_cli::cli::Provider;
use git_worktree_cli::config::GitWorktreeConfig;
use git_worktree_cli::errors::Error;
use git_worktree_cli::github::{classify_gh_error, PullRequest};
use git_worktree_cli::listing::{filter_remote_prs, local_branch_names, resolve_repo_info};
use git_worktree_cli::registry::Worktree;

fn wt(path: &str, branch: Option<&str>, bare: bool) -> Worktree {
    Worktree {
        path: path.to_string(),
        head: "0000".to_string(),
        branch: branch.map(|b| b.to_string()),
        bare,
    }
}

fn pr(number: u32, title: &str, url: &str, draft: bool) -> PullRequest {
    PullRequest {
        number,
        title: title.to_string(),
        state: "OPEN".to_string(),
        html_url: url.to_string(),
        draft,
    }
}

#[test]
fn resolve_repo_info_github() {
    let config = GitWorktreeConfig::new(
        "https://github.com/octo/tools.git".to_string(),
        "main".to_string(),
        Provider::Github,
    );
    let info = resolve_repo_info(&config).unwrap();
    assert_eq!(info, ("github".to_string(), "octo".to_string(), "tools".to_string()));
}

#[test]
fn resolve_repo_info_bitbucket_cloud() {
    let config = GitWorktreeConfig::new(
        "git@bitbucket.org:acme/widgets.git".to_string(),
        "main".to_string(),
        Provider::BitbucketCloud,
    );
    let info = resolve_repo_info(&config).unwrap();
    assert_eq!(
        info,
        ("bitbucket-cloud".to_string(), "acme".to_string(), "widgets".to_string())
    );
}

#[test]
fn resolve_repo_info_data_center() {
    let config = GitWorktreeConfig::new(
        "https://git.acme.com/scm/PROJ/repo.git".to_string(),
        "main".to_string(),
        Provider::BitbucketDataCenter,
    );
    let info = resolve_repo_info(&config).unwrap();
    assert_eq!(
        info,
        ("bitbucket-data-center".to_string(), "PROJ".to_string(), "repo".to_string())
    );
}

#[test]
fn resolve_repo_info_unrecognized() {
    let config = GitWorktreeConfig::new(
        "https://example.com/x".to_string(),
        "main".to_string(),
        Provider::Github,
    );
    assert!(resolve_repo_info(&config).is_none());
}

#[test]
fn local_branches_clean_and_skip_detached() {
    let wts = vec![
        wt("/p/main", Some("refs/heads/main"), true),
        wt("/p/feat", Some("refs/heads/feat"), false),
        wt("/p/detached", None, false),
    ];
    assert_eq!(local_branch_names(&wts), vec!["main", "feat"]);
}

#[test]
fn remote_prs_skip_local_and_mark_drafts() {
    let prs = vec![
        (pr(1, "Ready", "https://x/1", false), "feat".to_string()),
        (pr(2, "Draft work", "https://x/2", true), "new-idea".to_string()),
        (pr(3, "Also new", "https://x/3", false), "other".to_string()),
    ];
    let locals = vec!["feat".to_string()];
    let shown = filter_remote_prs(&prs, &locals);
    assert_eq!(shown.len(), 2);
    assert_eq!(shown[0].branch, "new-idea");
    assert_eq!(shown[0].info.status, "DRAFT");
    assert_eq!(shown[0].info.title, "Draft work");
    assert_eq!(shown[1].branch, "other");
    assert_eq!(shown[1].info.status, "OPEN");
}

#[test]
fn gh_error_classification() {
    let auth = classify_gh_error("gh: not authenticated, run gh auth login");
    assert!(matches!(auth, Error::Auth(_)));
    let other = classify_gh_error("boom");
    assert!(matches!(other, Error::Provider(_)));
    assert_eq!(other.message(), "Failed to fetch pull requests: boom");
}

#[test]
fn auth_from_config_bitbucket() {
    let mut config = GitWorktreeConfig::new(
        "git@bitbucket.org:acme/widgets.git".to_string(),
        "main".to_string(),
        Provider::BitbucketCloud,
    );
    config.bitbucket_email = Some("dev@example.com".to_string());
    let (workspace, repo, email) = get_auth_from_config(&config).unwrap();
    assert_eq!(workspace, "acme");
    assert_eq!(repo, "widgets");
    assert_eq!(email, Some("dev@example.com".to_string()));
}

#[test]
fn auth_from_config_rejects_other_hosts() {
    let config = GitWorktreeConfig::new(
        "https://github.com/o/r.git".to_string(),
        "main".to_string(),
        Provider::Github,
    );
    let err = get_auth_from_config(&config).unwrap_err();
    assert!(matches!(err, Error::Provider(_)));
    assert_eq!(err.message(), "This is not a Bitbucket repository");
}

use git_worktree_cli::bitbucket::{
    extract_bitbucket_data_center_info_from_url, extract_bitbucket_info_from_url,
    is_bitbucket_repository,
};
use git_worktree_cli::github::GitHubClient;
use git_worktree_cli::urls::{
    get_repo_name_from_url, is_git_ssh_url, is_main_branch, ssh_to_https_url,
};

#[test]
fn test_extract_bitbucket_info_https() {
    let url = "https://bitbucket.org/myworkspace/myrepo";
    let result = extract_bitbucket_info_from_url(url);
    assert_eq!(result, Some(("myworkspace".to_string(), "myrepo".to_string())));
}

#[test]
fn test_extract_bitbucket_info_https_git() {
    let url = "https://bitbucket.org/myworkspace/myrepo.git";
    let result = extract_bitbucket_info_from_url(url);
    assert_eq!(result, Some(("myworkspace".to_string(), "myrepo".to_string())));
}

#[test]
fn test_extract_bitbucket_info_ssh() {
    let url = "git@bitbucket.org:myworkspace/myrepo.git";
    let result = extract_bitbucket_info_from_url(url);
    assert_eq!(result, Some(("myworkspace".to_string(), "myrepo".to_string())));
}

#[test]
fn test_extract_bitbucket_info_invalid() {
    let url = "https://github.com/user/repo";
    let result = extract_bitbucket_info_from_url(url);
    assert_eq!(result, None);
}

#[test]
fn test_is_bitbucket_repository() {
    assert!(is_bitbucket_repository("https://bitbucket.org/workspace/repo"));
    assert!(is_bitbucket_repository("git@bitbucket.org:workspace/repo.git"));
    assert!(!is_bitbucket_repository("https://github.com/user/repo"));
}

#[test]
fn test_extract_bitbucket_data_center_info_scm() {
    let url = "https://git.acmeorg.com/scm/PROJ/repo";
    let result = extract_bitbucket_data_center_info_from_url(url);
    assert_eq!(
        result,
        Some((
            "https://git.acmeorg.com".to_string(),
            "PROJ".to_string(),
            "repo".to_string()
        ))
    );
}

#[test]
fn test_extract_bitbucket_data_center_info_scm_git() {
    let url = "https://git.acmeorg.com/scm/PROJ/repo.git";
    let result = extract_bitbucket_data_center_info_from_url(url);
    assert_eq!(
        result,
        Some((
            "https://git.acmeorg.com".to_string(),
            "PROJ".to_string(),
            "repo".to_string()
        ))
    );
}

#[test]
fn test_extract_bitbucket_data_center_info_projects() {
    let url = "https://git.acmeorg.com/projects/PROJ/repos/repo";
    let result = extract_bitbucket_data_center_info_from_url(url);
    assert_eq!(
        result,
        Some((
            "https://git.acmeorg.com".to_string(),
            "PROJ".to_string(),
            "repo".to_string()
        ))
    );
}

#[test]
fn test_extract_bitbucket_data_center_info_ssh() {
    let url = "git@git.acmeorg.com:PROJ/repo.git";
    let result = extract_bitbucket_data_center_info_from_url(url);
    assert_eq!(
        result,
        Some((
            "https://git.acmeorg.com".to_string(),
            "PROJ".to_string(),
            "repo".to_string()
        ))
    );
}

#[test]
fn test_extract_bitbucket_data_center_info_ssh_protocol() {
    let url = "ssh://git@git.acmeorg.com/PROJECT_ID/REPO_ID.git";
    let result = extract_bitbucket_data_center_info_from_url(url);
    assert_eq!(
        result,
        Some((
            "https://git.acmeorg.com".to_string(),
            "PROJECT_ID".to_string(),
            "REPO_ID".to_string()
        ))
    );
}

#[test]
fn test_extract_bitbucket_data_center_info_invalid() {
    let url = "https://github.com/user/repo";
    let result = extract_bitbucket_data_center_info_from_url(url);
    assert_eq!(result, None);
}

#[test]
fn test_parse_github_url() {
    let test_cases = vec![
        (
            "https://github.com/owner/repo.git",
            Some(("owner".to_string(), "repo".to_string())),
        ),
        (
            "https://github.com/owner/repo",
            Some(("owner".to_string(), "repo".to_string())),
        ),
        (
            "git@github.com:owner/repo.git",
            Some(("owner".to_string(), "repo".to_string())),
        ),
        (
            "git@github.com:owner/repo",
            Some(("owner".to_string(), "repo".to_string())),
        ),
        ("https://gitlab.com/owner/repo", None),
    ];

    for (url, expected) in test_cases {
        assert_eq!(GitHubClient::parse_github_url(url), expected);
    }
}

#[test]
fn test_is_git_ssh_url() {
    assert!(is_git_ssh_url("git@github.com:owner/repo.git"));
    assert!(is_git_ssh_url("host:path"));
    assert!(is_git_ssh_url("https://github.com/owner/repo"));
    assert!(!is_git_ssh_url("plain-path/repo"));
}

#[test]
fn test_ssh_to_https_url() {
    assert_eq!(
        ssh_to_https_url("git@github.com:user/repo.git"),
        "https://github.com/user/repo.git"
    );
    assert_eq!(
        ssh_to_https_url("https://github.com/user/repo.git"),
        "https://github.com/user/repo.git"
    );
}

#[test]
fn test_get_repo_name_from_url() {
    assert_eq!(
        get_repo_name_from_url("https://github.com/owner/repo.git"),
        Some("repo".to_string())
    );
    assert_eq!(
        get_repo_name_from_url("git@github.com:owner/tool"),
        Some("tool".to_string())
    );
    assert_eq!(get_repo_name_from_url(""), None);
}

#[test]
fn test_is_main_branch() {
    assert!(is_main_branch("main"));
    assert!(is_main_branch("master"));
    assert!(is_main_branch("develop"));
    assert!(is_main_branch("dev"));
    assert!(!is_main_branch("feature-a"));
    assert!(!is_main_branch("Main"));
}

#[test]
fn test_github_client_auth() {
    let bare = GitHubClient::new();
    assert!(!bare.has_auth());
    let with = GitHubClient::with_token(Some("test-token".to_string()));
    assert!(with.has_auth());
    let without = GitHubClient::with_token(None);
    assert!(!without.has_auth());
}

use git_worktree_cli::cli::Provider;
use git_worktree_cli::config::{generate_config_filename, GitWorktreeConfig, CONFIG_FILENAME};
use git_worktree_cli::provider::{
    detect_provider_from_url, detect_repository_provider, extract_repo_name, providers_match,
};

#[test]
fn test_config_creation() {
    let config = GitWorktreeConfig::new(
        "git@github.com:test/repo.git".to_string(),
        "main".to_string(),
        Provider::Github,
    );

    assert_eq!(config.repository_url, "git@github.com:test/repo.git");
    assert_eq!(config.main_branch, "main");
    assert_eq!(config.source_control, "github");
    assert_eq!(config.bitbucket_email, None);
    assert!(config.hooks.is_some());

    let hooks = config.hooks.unwrap();
    assert!(hooks.post_add.is_some());
    assert!(hooks.pre_remove.is_some());
    assert!(hooks.post_remove.is_some());
}

#[test]
fn test_config_creation_bitbucket() {
    let config = GitWorktreeConfig::new(
        "https://bitbucket.org/workspace/repo.git".to_string(),
        "main".to_string(),
        Provider::BitbucketCloud,
    );

    assert_eq!(config.repository_url, "https://bitbucket.org/workspace/repo.git");
    assert_eq!(config.main_branch, "main");
    assert_eq!(config.source_control, "bitbucket-cloud");
    assert_eq!(config.bitbucket_email, None);
}

#[test]
fn test_config_creation_bitbucket_data_center() {
    let config = GitWorktreeConfig::new(
        "https://bitbucket.company.com/scm/project/repo.git".to_string(),
        "main".to_string(),
        Provider::BitbucketDataCenter,
    );

    assert_eq!(
        config.repository_url,
        "https://bitbucket.company.com/scm/project/repo.git"
    );
    assert_eq!(config.main_branch, "main");
    assert_eq!(config.source_control, "bitbucket-data-center");
    assert_eq!(config.bitbucket_email, None);
}

#[test]
fn test_config_with_project_path() {
    let config = GitWorktreeConfig::new(
        "git@github.com:test/repo.git".to_string(),
        "main".to_string(),
        Provider::Github,
    )
    .with_project_path("/work/repo".to_string());
    assert_eq!(config.project_path, Some("/work/repo".to_string()));
    assert_eq!(config.main_branch, "main");
}

#[test]
fn test_config_filename_shape_independence() {
    let ssh = generate_config_filename("git@github.com:owner/repo.git");
    let https = generate_config_filename("https://github.com/owner/repo.git");
    assert_eq!(ssh, https);
    assert_eq!(ssh, "github-owner-repo.jsonc");
}

#[test]
fn test_config_filename_bitbucket() {
    assert_eq!(
        generate_config_filename("https://bitbucket.org/acme/widgets.git"),
        "bitbucket-acme-widgets.jsonc"
    );
}

#[test]
fn test_config_filename_fallback() {
    assert_eq!(
        generate_config_filename("https://example.com/one"),
        "url-https---example-com-one.jsonc"
    );
}

#[test]
fn test_config_filename_constant() {
    assert_eq!(CONFIG_FILENAME, "git-worktree-config.jsonc");
}

#[test]
fn test_detect_provider_from_url() {
    assert_eq!(
        detect_provider_from_url("https://github.com/o/r"),
        Some(Provider::Github)
    );
    assert_eq!(
        detect_provider_from_url("git@bitbucket.org:w/r.git"),
        Some(Provider::BitbucketCloud)
    );
    assert_eq!(detect_provider_from_url("https://example.com/o/r"), None);
}

#[test]
fn test_detect_repository_provider_explicit_wins() {
    let r = detect_repository_provider("https://github.com/o/r", Some(Provider::BitbucketCloud));
    assert_eq!(r.unwrap(), Provider::BitbucketCloud);
}

#[test]
fn test_detect_repository_provider_unknown_url_fails() {
    let r = detect_repository_provider("https://example.com/o/r", None);
    assert!(r.is_err());
    assert!(matches!(
        r.unwrap_err(),
        git_worktree_cli::errors::Error::Provider(_)
    ));
}

#[test]
fn test_providers_match() {
    assert!(providers_match(&Provider::Github, &Provider::Github));
    assert!(!providers_match(&Provider::Github, &Provider::BitbucketCloud));
}

#[test]
fn test_extract_repo_name() {
    assert_eq!(
        extract_repo_name("https://github.com/owner/repo.git").unwrap(),
        "repo"
    );
    assert_eq!(
        extract_repo_name("https://github.com/owner/repo").unwrap(),
        "repo"
    );
}

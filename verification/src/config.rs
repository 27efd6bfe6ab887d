//! The persisted project configuration as plain values, and the
//! deterministic filename a repository's configuration is registered
//! under. Reading and writing the file is I/O and lives in the shell
//! around the library; the creation timestamp comes from the clock
//! through one trusted call.
use vstd::prelude::*;
use crate::bitbucket::{spec_bitbucket_info, spec_dc_info, extract_bitbucket_info_from_url,
    extract_bitbucket_data_center_info_from_url};
use crate::cli::{provider_key, spec_provider_key, Provider};
use crate::github::{spec_parse_github_url, GitHubClient};
use crate::strutil::{replace_char_with, spec_replace_char};

verus! {

/// The configuration file's name.
pub const CONFIG_FILENAME: &'static str = "git-worktree-config.jsonc";

/// The three ordered hook lists a project may configure.
#[derive(Clone, Debug)]
pub struct Hooks {
    /// Run after a worktree is added.
    pub post_add: Option<Vec<String>>,
    /// Run before a worktree is removed.
    pub pre_remove: Option<Vec<String>>,
    /// Run after a worktree is removed.
    pub post_remove: Option<Vec<String>>,
}

/// The persisted project configuration.
#[derive(Clone, Debug)]
pub struct GitWorktreeConfig {
    /// The remote the project was initialized from.
    pub repository_url: String,
    /// The branch worktrees are created off by default.
    pub main_branch: String,
    /// When the configuration was created, as an RFC 3339 timestamp.
    pub created_at: String,
    /// Which provider to consult: `github`, `bitbucket-cloud` or
    /// `bitbucket-data-center`. Immutable after creation.
    pub source_control: String,
    /// The account email Bitbucket Cloud requests authenticate as.
    pub bitbucket_email: Option<String>,
    /// The configured hook lists.
    pub hooks: Option<Hooks>,
    /// Where the project lives, for configurations kept outside it.
    pub project_path: Option<String>,
    /// Where its worktrees live, when not derived from the root.
    pub worktrees_path: Option<String>,
}

/// Relies on chrono::Utc::now and DateTime::to_rfc3339 for the current
/// time as an RFC 3339 string; the clock's reading cannot be pinned down
/// further.
#[verifier::external_body]
fn now_utc_rfc3339() -> (r: String) {
    chrono::Utc::now().to_rfc3339()
}

impl GitWorktreeConfig {
    /// A fresh configuration: the given remote, default branch and
    /// provider, created now, with three empty hook lists and no paths
    /// recorded.
    pub fn new(repository_url: String, main_branch: String, provider: Provider) -> (r:
        GitWorktreeConfig)
        ensures
            r.repository_url == repository_url,
            r.main_branch == main_branch,
            r.source_control@ == spec_provider_key(provider),
            r.bitbucket_email is None,
            r.hooks is Some,
            r.hooks.unwrap().post_add is Some && r.hooks.unwrap().post_add.unwrap()@.len() == 0,
            r.hooks.unwrap().pre_remove is Some && r.hooks.unwrap().pre_remove.unwrap()@.len()
                == 0,
            r.hooks.unwrap().post_remove is Some && r.hooks.unwrap().post_remove.unwrap()@.len()
                == 0,
            r.project_path is None,
            r.worktrees_path is None,
    {
        let source_control = provider_key(provider).to_owned();
        GitWorktreeConfig {
            repository_url,
            main_branch,
            created_at: now_utc_rfc3339(),
            source_control,
            bitbucket_email: None,
            hooks: Some(
                Hooks {
                    post_add: Some(Vec::new()),
                    pre_remove: Some(Vec::new()),
                    post_remove: Some(Vec::new()),
                },
            ),
            project_path: None,
            worktrees_path: None,
        }
    }

    /// The same configuration with the project's location recorded.
    pub fn with_project_path(self, path: String) -> (r: GitWorktreeConfig)
        ensures
            r.repository_url == self.repository_url,
            r.main_branch == self.main_branch,
            r.created_at == self.created_at,
            r.source_control == self.source_control,
            r.bitbucket_email == self.bitbucket_email,
            r.hooks == self.hooks,
            r.project_path == Some(path),
            r.worktrees_path == self.worktrees_path,
    {
        GitWorktreeConfig { project_path: Some(path), ..self }
    }
}

/// A text made safe for use inside a filename: every path or URL
/// punctuation character becomes a hyphen.
pub open spec fn spec_sanitize(s: Seq<char>) -> Seq<char> {
    spec_replace_char(
        spec_replace_char(
            spec_replace_char(spec_replace_char(s, '/', "-"@), '.', "-"@),
            ':',
            "-"@,
        ),
        '@',
        "-"@,
    )
}

/// Sanitize a text for use inside a filename.
pub fn sanitize_for_filename(s: &str) -> (r: String)
    ensures
        r@ == spec_sanitize(s@),
{
    let a = replace_char_with(s, '/', "-");
    let b = replace_char_with(a.as_str(), '.', "-");
    let c = replace_char_with(b.as_str(), ':', "-");
    replace_char_with(c.as_str(), '@', "-")
}

/// The registry filename a repository's configuration is kept under: a
/// provider prefix with the sanitized owner and repository when the URL's
/// provider is recognized, else the sanitized URL itself. Two shapes of
/// the same identity (SSH and HTTPS) yield the same name.
pub open spec fn spec_config_filename(url: Seq<char>) -> Seq<char> {
    match spec_parse_github_url(url) {
        Some(p) => "github-"@ + spec_sanitize(p.0) + "-"@ + spec_sanitize(p.1) + ".jsonc"@,
        None => match spec_bitbucket_info(url) {
            Some(p) => "bitbucket-"@ + spec_sanitize(p.0) + "-"@ + spec_sanitize(p.1) + ".jsonc"@,
            None => match spec_dc_info(url) {
                Some(p) => "bitbucket-server-"@ + spec_sanitize(p.1) + "-"@ + spec_sanitize(p.2)
                    + ".jsonc"@,
                None => "url-"@ + spec_sanitize(url) + ".jsonc"@,
            },
        },
    }
}

/// The registry filename is independent of the URL's shape: for every
/// owner and repository, the SSH form `git@github.com:owner/repo.git`
/// and the HTTPS form `https://github.com/owner/repo.git` yield the same
/// filename, so identity-based lookup finds one configuration for both.
pub proof fn lemma_config_filename_url_shape(owner: Seq<char>, repo: Seq<char>)
    ensures
        spec_config_filename("git@github.com:"@ + owner + "/"@ + repo + ".git"@)
            == spec_config_filename("https://github.com/"@ + owner + "/"@ + repo + ".git"@),
{
    reveal_strlit("git@github.com:");
    reveal_strlit("https://github.com/");
    reveal_strlit("/");
    reveal_strlit(".git");
    let rest = owner + "/"@ + repo + ".git"@;
    let ssh = "git@github.com:"@ + owner + "/"@ + repo + ".git"@;
    let https = "https://github.com/"@ + owner + "/"@ + repo + ".git"@;
    assert(ssh =~= "git@github.com:"@ + rest);
    assert(https =~= "https://github.com/"@ + rest);
    assert(crate::strutil::starts_with(https, "https://github.com/"@)) by {
        assert(https.subrange(0, "https://github.com/"@.len() as int) =~= "https://github.com/"@);
    }
    assert(!crate::strutil::starts_with(ssh, "https://github.com/"@)) by {
        if crate::strutil::starts_with(ssh, "https://github.com/"@) {
            assert(ssh.subrange(0, "https://github.com/"@.len() as int)[0] == ssh[0]);
            assert(ssh[0] == 'g');
        }
    }
    assert(crate::strutil::starts_with(ssh, "git@github.com:"@)) by {
        assert(ssh.subrange(0, "git@github.com:"@.len() as int) =~= "git@github.com:"@);
    }
    assert(ssh.skip("git@github.com:"@.len() as int) =~= rest);
    assert(https.skip("https://github.com/"@.len() as int) =~= rest);
    assert(spec_parse_github_url(ssh) == crate::github::spec_github_owner_repo(rest));
    assert(spec_parse_github_url(https) == crate::github::spec_github_owner_repo(rest));
    let q = owner + "/"@;
    assert(crate::strutil::starts_with(rest, q)) by {
        assert(rest.subrange(0, q.len() as int) =~= q);
    }
    assert(q[q.len() - 1] == '/');
    crate::strutil::lemma_trim_keeps_slash_prefix(rest, q);
    let trimmed = crate::strutil::spec_trim_end_matches(rest, ".git"@);
    assert(trimmed.subrange(0, q.len() as int)[q.len() - 1] == trimmed[q.len() - 1]);
    assert(trimmed[owner.len() as int] == '/');
    crate::strutil::lemma_split_contains(trimmed, '/');
    assert(crate::github::spec_github_owner_repo(rest) is Some);
}

/// Compute the registry filename for a repository URL.
pub fn generate_config_filename(url: &str) -> (r: String)
    ensures
        r@ == spec_config_filename(url@),
{
    if let Some((owner, repo)) = GitHubClient::parse_github_url(url) {
        return "github-".to_owned().concat(sanitize_for_filename(owner.as_str()).as_str()).concat(
            "-",
        ).concat(sanitize_for_filename(repo.as_str()).as_str()).concat(".jsonc");
    }
    if let Some((workspace, repo)) = extract_bitbucket_info_from_url(url) {
        return "bitbucket-".to_owned().concat(
            sanitize_for_filename(workspace.as_str()).as_str(),
        ).concat("-").concat(sanitize_for_filename(repo.as_str()).as_str()).concat(".jsonc");
    }
    if let Some((_base, project, repo)) = extract_bitbucket_data_center_info_from_url(url) {
        return "bitbucket-server-".to_owned().concat(
            sanitize_for_filename(project.as_str()).as_str(),
        ).concat("-").concat(sanitize_for_filename(repo.as_str()).as_str()).concat(".jsonc");
    }
    "url-".to_owned().concat(sanitize_for_filename(url).as_str()).concat(".jsonc")
}

} // verus!

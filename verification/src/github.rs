//! GitHub: reading owner and repository out of a GitHub URL, the client
//! handle, and the classification of `gh` failures. Running the `gh`
//! subprocess is I/O and lives in the shell around the library, which
//! hands its results in as plain values.
use vstd::prelude::*;
use crate::errors::Error;
use crate::strutil::{
    contains_substr, spec_split, spec_trim_end_matches, split_char, str_contains, starts_with,
    strip_prefix_str, trim_end_matches_str, views_of,
};

verus! {

/// One pull request, as the listing shows it.
#[derive(Clone, Debug)]
pub struct PullRequest {
    pub number: u32,
    pub title: String,
    pub state: String,
    pub html_url: String,
    pub draft: bool,
}

/// The owner and repository named by a GitHub URL: the first two
/// `/`-separated parts of what follows the HTTPS or SSH prefix, after
/// trailing `.git` suffixes are dropped; `None` for any other URL shape.
pub open spec fn spec_parse_github_url(url: Seq<char>) -> Option<(Seq<char>, Seq<char>)> {
    if starts_with(url, "https://github.com/"@) {
        spec_github_owner_repo(url.skip("https://github.com/"@.len() as int))
    } else if starts_with(url, "git@github.com:"@) {
        spec_github_owner_repo(url.skip("git@github.com:"@.len() as int))
    } else {
        None
    }
}

/// Owner and repository out of the part of a GitHub URL after its prefix.
pub open spec fn spec_github_owner_repo(rest: Seq<char>) -> Option<(Seq<char>, Seq<char>)> {
    let parts = spec_split(spec_trim_end_matches(rest, ".git"@), '/');
    if parts.len() >= 2 {
        Some((parts[0], parts[1]))
    } else {
        None
    }
}

/// Parse `(owner, repository)` out of a GitHub HTTPS or SSH URL.
fn parse_github_url_impl(url: &str) -> (r: Option<(String, String)>)
    ensures
        match r {
            Some(p) => spec_parse_github_url(url@) == Some((p.0@, p.1@)),
            None => spec_parse_github_url(url@) is None,
        },
{
    let rest: &str = if let Some(rest) = strip_prefix_str(url, "https://github.com/") {
        rest
    } else if let Some(rest) = strip_prefix_str(url, "git@github.com:") {
        rest
    } else {
        return None;
    };
    let trimmed = trim_end_matches_str(rest, ".git");
    let parts = split_char(trimmed, '/');
    if parts.len() >= 2 {
        let owner = parts[0].clone();
        let repo = parts[1].clone();
        proof {
            assert(views_of(parts@)[0] == parts@[0]@);
            assert(views_of(parts@)[1] == parts@[1]@);
        }
        Some((owner, repo))
    } else {
        None
    }
}

/// A handle on GitHub access: the token the surrounding shell probed for,
/// if it found one.
pub struct GitHubClient {
    pub token: Option<String>,
}

impl GitHubClient {
    /// Parse `(owner, repository)` out of a GitHub HTTPS or SSH URL.
    pub fn parse_github_url(url: &str) -> (r: Option<(String, String)>)
        ensures
            match r {
                Some(p) => spec_parse_github_url(url@) == Some((p.0@, p.1@)),
                None => spec_parse_github_url(url@) is None,
            },
    {
        parse_github_url_impl(url)
    }

    /// A client with no token probed yet.
    pub fn new() -> (r: GitHubClient)
        ensures
            r.token is None,
    {
        GitHubClient { token: None }
    }

    /// A client holding whatever token the shell's probe returned.
    pub fn with_token(token: Option<String>) -> (r: GitHubClient)
        ensures
            r.token == token,
    {
        GitHubClient { token }
    }

    /// Whether a token is at hand.
    pub fn has_auth(&self) -> (r: bool)
        ensures
            r == (self.token is Some),
    {
        match &self.token {
            Some(_) => true,
            None => false,
        }
    }
}

/// How a `gh` failure reads: its stderr mentioning authentication makes
/// it an authentication error, anything else a provider error carrying
/// the text.
pub open spec fn spec_gh_error_is_auth(stderr: Seq<char>) -> bool {
    contains_substr(stderr, "not authenticated"@) || contains_substr(stderr, "authentication"@)
}

/// Classify the stderr of a failed `gh` invocation.
pub fn classify_gh_error(stderr: &str) -> (r: Error)
    ensures
        spec_gh_error_is_auth(stderr@) ==> r is Auth,
        !spec_gh_error_is_auth(stderr@) ==> r is Provider && (match r {
            Error::Provider(m) => m@ == "Failed to fetch pull requests: "@ + stderr@,
            _ => false,
        }),
{
    if str_contains(stderr, "not authenticated") || str_contains(stderr, "authentication") {
        Error::auth(
            "GitHub authentication failed. Run 'gh auth login' to authenticate.".to_owned(),
        )
    } else {
        Error::provider("Failed to fetch pull requests: ".to_owned().concat(stderr))
    }
}

} // verus!

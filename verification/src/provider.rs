//! Detecting which hosting provider a repository URL belongs to, and the
//! repository name used as the clone directory.
use vstd::prelude::*;
use crate::bitbucket::is_bitbucket_repository;
use crate::cli::Provider;
use crate::errors::Error;
use crate::github::{spec_parse_github_url, GitHubClient};
use crate::strutil::{contains_substr, spec_split, split_char, views_of};

verus! {

/// What a URL's shape says about its provider: a GitHub URL shape wins,
/// else a `bitbucket.org` mention means Bitbucket Cloud.
pub open spec fn spec_provider_from_url(url: Seq<char>) -> Option<Provider> {
    if spec_parse_github_url(url) is Some {
        Some(Provider::Github)
    } else if contains_substr(url, "bitbucket.org"@) {
        Some(Provider::BitbucketCloud)
    } else {
        None
    }
}

/// Detect a provider from a URL's shape alone.
pub fn detect_provider_from_url(repo_url: &str) -> (r: Option<Provider>)
    ensures
        r == spec_provider_from_url(repo_url@),
{
    if GitHubClient::parse_github_url(repo_url).is_some() {
        Some(Provider::Github)
    } else if is_bitbucket_repository(repo_url) {
        Some(Provider::BitbucketCloud)
    } else {
        None
    }
}

/// Two provider choices agree.
pub fn providers_match(a: &Provider, b: &Provider) -> (r: bool)
    ensures
        r == (a == b),
{
    match (a, b) {
        (Provider::Github, Provider::Github) => true,
        (Provider::BitbucketCloud, Provider::BitbucketCloud) => true,
        (Provider::BitbucketDataCenter, Provider::BitbucketDataCenter) => true,
        _ => false,
    }
}

/// The provider an initialization uses: the explicit choice always wins,
/// with a mismatch against the URL's shape only warned about by the
/// caller; without one, the URL's shape decides, and a URL that reveals
/// nothing is an error asking for an explicit choice.
pub fn detect_repository_provider(repo_url: &str, provider: Option<Provider>) -> (r: Result<
    Provider,
    Error,
>)
    ensures
        match provider {
            Some(explicit) => r == Result::<Provider, Error>::Ok(explicit),
            None => match spec_provider_from_url(repo_url@) {
                Some(detected) => r == Result::<Provider, Error>::Ok(detected),
                None => r is Err && r.unwrap_err() is Provider,
            },
        },
{
    let auto_detected = detect_provider_from_url(repo_url);
    match provider {
        Some(explicit) => Ok(explicit),
        None => match auto_detected {
            Some(detected) => Ok(detected),
            None => Err(create_provider_error(repo_url)),
        },
    }
}

/// The error reported when no provider can be detected from a URL.
pub fn create_provider_error(repo_url: &str) -> (r: Error)
    ensures
        r is Provider,
{
    let msg = "Could not detect repository provider from URL: ".to_owned().concat(repo_url)
        .concat(
        "\nPlease specify the provider using --provider:\n- For GitHub: --provider github\n- For Bitbucket Cloud: --provider bitbucket-cloud\n- For Bitbucket Data Center: --provider bitbucket-data-center",
    );
    Error::provider(msg)
}

/// The directory a clone lands in: the URL's final `/`-separated part,
/// with one trailing `.git` dropped.
pub open spec fn spec_extract_repo_name(url: Seq<char>) -> Option<Seq<char>> {
    let parts = spec_split(url, '/');
    let last = parts[parts.len() - 1];
    if crate::strutil::ends_with(last, ".git"@) {
        Some(last.take(last.len() - ".git"@.len()))
    } else {
        Some(last)
    }
}

/// Extract the repository name a clone directory is named after.
pub fn extract_repo_name(repo_url: &str) -> (r: Result<String, Error>)
    ensures
        r is Ok,
        Some(r.unwrap()@) == spec_extract_repo_name(repo_url@),
{
    let parts = split_char(repo_url, '/');
    proof {
        crate::strutil::lemma_split_nonempty(repo_url@, '/');
        assert(views_of(parts@)[views_of(parts@).len() - 1] == parts@[parts@.len() - 1]@);
    }
    let last = &parts[parts.len() - 1];
    match crate::strutil::strip_suffix_str(last.as_str(), ".git") {
        Some(stripped) => Ok(stripped.to_owned()),
        None => Ok(last.clone()),
    }
}

} // verus!

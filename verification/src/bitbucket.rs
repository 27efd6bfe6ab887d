//! Reading Bitbucket identities out of repository URLs. The pattern
//! matching itself is done by the `regex` crate behind trusted wrappers;
//! each wrapper's result is a named function of the URL alone, and the
//! logic around the calls is verified against those names.
use vstd::prelude::*;
use crate::errors::Error;
use crate::config::GitWorktreeConfig;
use crate::strutil::{contains_substr, starts_with, str_contains, str_starts_with};

verus! {

/// The two capture groups of the leftmost match of the Bitbucket Cloud
/// URL pattern in a text, if it matches.
pub uninterp spec fn bitbucket_capture(s: Seq<char>) -> Option<(Seq<char>, Seq<char>)>;

/// Relies on regex::Regex::captures with the pattern
/// `bitbucket\.org[:/]([^/]+)/([^/\.]+)`: the workspace and repository
/// capture groups of its leftmost match, a function of the text alone.
#[verifier::external_body]
fn bitbucket_capture_groups(url: &str) -> (r: Option<(String, String)>)
    ensures
        match r {
            Some(p) => bitbucket_capture(url@) == Some((p.0@, p.1@)),
            None => bitbucket_capture(url@) is None,
        },
{
    let re = regex::Regex::new(r"bitbucket\.org[:/]([^/]+)/([^/\.]+)").ok()?;
    let caps = re.captures(url)?;
    Some((caps.get(1)?.as_str().to_string(), caps.get(2)?.as_str().to_string()))
}

/// What extracting a Bitbucket Cloud identity yields: the pattern's
/// captures, tried only on URLs that mention `bitbucket.org`.
pub open spec fn spec_bitbucket_info(url: Seq<char>) -> Option<(Seq<char>, Seq<char>)> {
    if contains_substr(url, "bitbucket.org"@) {
        bitbucket_capture(url)
    } else {
        None
    }
}

/// Extract `(workspace, repository)` from a Bitbucket Cloud URL.
pub fn extract_bitbucket_info_from_url(url: &str) -> (r: Option<(String, String)>)
    ensures
        match r {
            Some(p) => spec_bitbucket_info(url@) == Some((p.0@, p.1@)),
            None => spec_bitbucket_info(url@) is None,
        },
{
    if str_contains(url, "bitbucket.org") {
        bitbucket_capture_groups(url)
    } else {
        None
    }
}

/// A remote URL belongs to Bitbucket Cloud.
pub fn is_bitbucket_repository(remote_url: &str) -> (r: bool)
    ensures
        r == contains_substr(remote_url@, "bitbucket.org"@),
{
    str_contains(remote_url, "bitbucket.org")
}

/// The three capture groups of the Data Center `/scm/` URL pattern.
pub uninterp spec fn dc_scm_capture(s: Seq<char>) -> Option<(Seq<char>, Seq<char>, Seq<char>)>;

/// Relies on regex::Regex::captures with the pattern
/// `([^/]+)/scm/([^/]+)/([^/\.]+)`: host, project and repository of its
/// leftmost match, a function of the text alone.
#[verifier::external_body]
fn dc_scm_capture_groups(url: &str) -> (r: Option<(String, String, String)>)
    ensures
        match r {
            Some(p) => dc_scm_capture(url@) == Some((p.0@, p.1@, p.2@)),
            None => dc_scm_capture(url@) is None,
        },
{
    let re = regex::Regex::new(r"([^/]+)/scm/([^/]+)/([^/\.]+)").ok()?;
    let caps = re.captures(url)?;
    Some((
        caps.get(1)?.as_str().to_string(),
        caps.get(2)?.as_str().to_string(),
        caps.get(3)?.as_str().to_string(),
    ))
}

/// The three capture groups of the Data Center `/projects/.../repos/`
/// URL pattern.
pub uninterp spec fn dc_projects_capture(s: Seq<char>) -> Option<
    (Seq<char>, Seq<char>, Seq<char>),
>;

/// Relies on regex::Regex::captures with the pattern
/// `([^/]+)/projects/([^/]+)/repos/([^/\.]+)`: host, project and
/// repository of its leftmost match, a function of the text alone.
#[verifier::external_body]
fn dc_projects_capture_groups(url: &str) -> (r: Option<(String, String, String)>)
    ensures
        match r {
            Some(p) => dc_projects_capture(url@) == Some((p.0@, p.1@, p.2@)),
            None => dc_projects_capture(url@) is None,
        },
{
    let re = regex::Regex::new(r"([^/]+)/projects/([^/]+)/repos/([^/\.]+)").ok()?;
    let caps = re.captures(url)?;
    Some((
        caps.get(1)?.as_str().to_string(),
        caps.get(2)?.as_str().to_string(),
        caps.get(3)?.as_str().to_string(),
    ))
}

/// The three capture groups of the Data Center SSH URL pattern.
pub uninterp spec fn dc_ssh_capture(s: Seq<char>) -> Option<(Seq<char>, Seq<char>, Seq<char>)>;

/// Relies on regex::Regex::captures with the pattern
/// `git@([^:]+):([^/]+)/([^/\.]+)`: host, project and repository of its
/// leftmost match, a function of the text alone.
#[verifier::external_body]
fn dc_ssh_capture_groups(url: &str) -> (r: Option<(String, String, String)>)
    ensures
        match r {
            Some(p) => dc_ssh_capture(url@) == Some((p.0@, p.1@, p.2@)),
            None => dc_ssh_capture(url@) is None,
        },
{
    let re = regex::Regex::new(r"git@([^:]+):([^/]+)/([^/\.]+)").ok()?;
    let caps = re.captures(url)?;
    Some((
        caps.get(1)?.as_str().to_string(),
        caps.get(2)?.as_str().to_string(),
        caps.get(3)?.as_str().to_string(),
    ))
}

/// The three capture groups of the Data Center `ssh://` URL pattern.
pub uninterp spec fn dc_ssh_proto_capture(s: Seq<char>) -> Option<
    (Seq<char>, Seq<char>, Seq<char>),
>;

/// Relies on regex::Regex::captures with the pattern
/// `ssh://git@([^/]+)/([^/]+)/([^/\.]+)`: host, project and repository of
/// its leftmost match, a function of the text alone.
#[verifier::external_body]
fn dc_ssh_proto_capture_groups(url: &str) -> (r: Option<(String, String, String)>)
    ensures
        match r {
            Some(p) => dc_ssh_proto_capture(url@) == Some((p.0@, p.1@, p.2@)),
            None => dc_ssh_proto_capture(url@) is None,
        },
{
    let re = regex::Regex::new(r"ssh://git@([^/]+)/([^/]+)/([^/\.]+)").ok()?;
    let caps = re.captures(url)?;
    Some((
        caps.get(1)?.as_str().to_string(),
        caps.get(2)?.as_str().to_string(),
        caps.get(3)?.as_str().to_string(),
    ))
}

/// A captured host widened to a base URL: kept when it already names a
/// scheme, else put behind `https://`.
pub open spec fn spec_dc_api_base(base: Seq<char>) -> Seq<char> {
    if starts_with(base, "http"@) {
        base
    } else {
        "https://"@ + base
    }
}

/// What extracting a Data Center identity yields: the four URL shapes
/// tried in order, the captured host widened to an API base URL.
pub open spec fn spec_dc_info(url: Seq<char>) -> Option<(Seq<char>, Seq<char>, Seq<char>)> {
    match dc_scm_capture(url) {
        Some(p) => Some((spec_dc_api_base(p.0), p.1, p.2)),
        None => match dc_projects_capture(url) {
            Some(p) => Some((spec_dc_api_base(p.0), p.1, p.2)),
            None => match dc_ssh_capture(url) {
                Some(p) => Some(("https://"@ + p.0, p.1, p.2)),
                None => match dc_ssh_proto_capture(url) {
                    Some(p) => Some(("https://"@ + p.0, p.1, p.2)),
                    None => None,
                },
            },
        },
    }
}

/// Widen a captured host to an API base URL.
fn dc_api_base(base: String) -> (r: String)
    ensures
        r@ == spec_dc_api_base(base@),
{
    if str_starts_with(base.as_str(), "http") {
        base
    } else {
        "https://".to_owned().concat(base.as_str())
    }
}

/// Extract `(api_base_url, project, repository)` from a Bitbucket Data
/// Center URL.
pub fn extract_bitbucket_data_center_info_from_url(url: &str) -> (r: Option<
    (String, String, String),
>)
    ensures
        match r {
            Some(p) => spec_dc_info(url@) == Some((p.0@, p.1@, p.2@)),
            None => spec_dc_info(url@) is None,
        },
{
    if let Some((base, project, repo)) = dc_scm_capture_groups(url) {
        return Some((dc_api_base(base), project, repo));
    }
    if let Some((base, project, repo)) = dc_projects_capture_groups(url) {
        return Some((dc_api_base(base), project, repo));
    }
    if let Some((host, project, repo)) = dc_ssh_capture_groups(url) {
        return Some(("https://".to_owned().concat(host.as_str()), project, repo));
    }
    if let Some((host, project, repo)) = dc_ssh_proto_capture_groups(url) {
        return Some(("https://".to_owned().concat(host.as_str()), project, repo));
    }
    None
}

/// Derive the Bitbucket Cloud credentials context from a configuration:
/// the workspace and repository its URL names, and the configured email.
pub fn get_auth_from_config(config: &GitWorktreeConfig) -> (r: Result<
    (String, String, Option<String>),
    Error,
>)
    ensures
        !contains_substr(config.repository_url@, "bitbucket.org"@) ==> r is Err && r.unwrap_err()
            is Provider,
        contains_substr(config.repository_url@, "bitbucket.org"@) ==> match spec_bitbucket_info(
            config.repository_url@,
        ) {
            Some(p) => r is Ok && r.unwrap().0@ == p.0 && r.unwrap().1@ == p.1 && (match (
                r.unwrap().2,
                config.bitbucket_email,
            ) {
                (Some(a), Some(b)) => a@ == b@,
                (None, None) => true,
                _ => false,
            }),
            None => r is Err && r.unwrap_err() is Provider,
        },
{
    if !str_contains(config.repository_url.as_str(), "bitbucket.org") {
        return Err(Error::provider("This is not a Bitbucket repository".to_owned()));
    }
    match extract_bitbucket_info_from_url(config.repository_url.as_str()) {
        Some((workspace, repo)) => {
            let email = match &config.bitbucket_email {
                Some(e) => Some(e.clone()),
                None => None,
            };
            Ok((workspace, repo, email))
        },
        None => Err(Error::provider("Failed to parse Bitbucket repository URL".to_owned())),
    }
}

} // verus!

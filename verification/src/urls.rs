//! Repository-URL utilities: recognizing SSH shapes, normalizing them to
//! HTTPS, and reading a repository name or a protected branch name.
use vstd::prelude::*;
use crate::paths::spec_file_name;
use crate::strutil::{
    contains_char, replace_char_with, replace_substr, spec_replace_char, spec_replace_substr,
    starts_with, str_contains_char, str_eq, str_starts_with, strip_suffix_str, ends_with,
};

verus! {

/// A URL that git would treat as an SSH remote: a `git@` prefix or any
/// colon.
pub open spec fn spec_is_git_ssh_url(url: Seq<char>) -> bool {
    starts_with(url, "git@"@) || contains_char(url, ':')
}

/// Whether a URL looks like a git SSH URL.
pub fn is_git_ssh_url(url: &str) -> (r: bool)
    ensures
        r == spec_is_git_ssh_url(url@),
{
    str_starts_with(url, "git@") || str_contains_char(url, ':')
}

/// The HTTPS form of an SSH URL: every colon becomes a slash and every
/// `git@` becomes `https://`; a URL without the `git@` prefix is kept.
pub open spec fn spec_ssh_to_https(url: Seq<char>) -> Seq<char> {
    if starts_with(url, "git@"@) {
        spec_replace_substr(spec_replace_char(url, ':', "/"@), "git@"@, "https://"@)
    } else {
        url
    }
}

/// Convert an SSH URL to an HTTPS URL for cloning.
pub fn ssh_to_https_url(url: &str) -> (r: String)
    ensures
        r@ == spec_ssh_to_https(url@),
{
    if str_starts_with(url, "git@") {
        let slashes = replace_char_with(url, ':', "/");
        replace_substr(slashes.as_str(), "git@", "https://")
    } else {
        url.to_owned()
    }
}

/// The repository name a URL ends with: its final path component after a
/// single trailing `.git` is dropped; `None` when that component is empty.
pub open spec fn spec_repo_name(url: Seq<char>) -> Option<Seq<char>> {
    let stripped = if ends_with(url, ".git"@) {
        url.take(url.len() - ".git"@.len())
    } else {
        url
    };
    let name = spec_file_name(stripped);
    if name.len() > 0 {
        Some(name)
    } else {
        None
    }
}

/// Get the repository name from a URL.
pub fn get_repo_name_from_url(url: &str) -> (r: Option<String>)
    ensures
        match r {
            Some(n) => spec_repo_name(url@) == Some(n@),
            None => spec_repo_name(url@) is None,
        },
{
    let stripped: &str = match strip_suffix_str(url, ".git") {
        Some(s) => s,
        None => url,
    };
    let name = crate::paths::path_file_name(stripped);
    if name.as_str().unicode_len() > 0 {
        Some(name)
    } else {
        None
    }
}

/// A branch name that must never be deleted by the lifecycle.
pub open spec fn spec_is_main_branch(name: Seq<char>) -> bool {
    name == "main"@ || name == "master"@ || name == "develop"@ || name == "dev"@
}

/// Check if a branch name is a main branch that must not be deleted.
pub fn is_main_branch(branch_name: &str) -> (r: bool)
    ensures
        r == spec_is_main_branch(branch_name@),
{
    str_eq(branch_name, "main") || str_eq(branch_name, "master") || str_eq(branch_name, "develop")
        || str_eq(branch_name, "dev")
}

} // verus!

//! The pure decisions of the listing command: which provider identity a
//! configuration resolves to, which branch names already have local
//! worktrees, and which open pull requests are shown for branches that
//! have none. Fetching pull requests is provider I/O and happens outside
//! the library; its results come in as plain values.
use vstd::prelude::*;
use crate::bitbucket::{
    extract_bitbucket_info_from_url, extract_bitbucket_data_center_info_from_url,
    spec_bitbucket_info, spec_dc_info,
};
use crate::config::GitWorktreeConfig;
use crate::github::{spec_parse_github_url, GitHubClient, PullRequest};
use crate::registry::{clean_branch_name, spec_clean_branch, Worktree, WorktreeView,
    worktree_views};
use crate::strutil::{str_eq, views_of};

verus! {

/// Pull-request detail shown under a branch.
#[derive(Clone, Debug)]
pub struct PullRequestInfo {
    pub url: String,
    pub status: String,
    pub title: String,
}

/// An open pull request with no local worktree for its branch.
#[derive(Clone, Debug)]
pub struct RemotePullRequest {
    pub branch: String,
    pub info: PullRequestInfo,
}

/// The provider identity a configuration resolves to: its platform key
/// with the owner (or workspace, or project) and repository read from the
/// repository URL. `bitbucket-cloud` and `bitbucket-data-center` use
/// their own URL shapes, the Data Center shape falling back to the GitHub
/// one; anything else is tried as GitHub.
pub open spec fn spec_repo_info(
    source_control: Seq<char>,
    url: Seq<char>,
) -> Option<(Seq<char>, Seq<char>, Seq<char>)> {
    if source_control == "bitbucket-cloud"@ {
        match spec_bitbucket_info(url) {
            Some(p) => Some(("bitbucket-cloud"@, p.0, p.1)),
            None => None,
        }
    } else if source_control == "bitbucket-data-center"@ {
        match spec_dc_info(url) {
            Some(p) => Some(("bitbucket-data-center"@, p.1, p.2)),
            None => match spec_parse_github_url(url) {
                Some(p) => Some(("bitbucket-data-center"@, p.0, p.1)),
                None => None,
            },
        }
    } else {
        match spec_parse_github_url(url) {
            Some(p) => Some(("github"@, p.0, p.1)),
            None => None,
        }
    }
}

/// Resolve `(platform, owner_or_workspace, repository)` for a
/// configuration.
pub fn resolve_repo_info(config: &GitWorktreeConfig) -> (r: Option<(String, String, String)>)
    ensures
        match r {
            Some(p) => spec_repo_info(config.source_control@, config.repository_url@) == Some(
                (p.0@, p.1@, p.2@),
            ),
            None => spec_repo_info(config.source_control@, config.repository_url@) is None,
        },
{
    let url = config.repository_url.as_str();
    if str_eq(config.source_control.as_str(), "bitbucket-cloud") {
        match extract_bitbucket_info_from_url(url) {
            Some((workspace, repo)) => Some(("bitbucket-cloud".to_owned(), workspace, repo)),
            None => None,
        }
    } else if str_eq(config.source_control.as_str(), "bitbucket-data-center") {
        match extract_bitbucket_data_center_info_from_url(url) {
            Some((_base, project, repo)) => Some(
                ("bitbucket-data-center".to_owned(), project, repo),
            ),
            None => match GitHubClient::parse_github_url(url) {
                Some((owner, repo)) => Some(("bitbucket-data-center".to_owned(), owner, repo)),
                None => None,
            },
        }
    } else {
        match GitHubClient::parse_github_url(url) {
            Some((owner, repo)) => Some(("github".to_owned(), owner, repo)),
            None => None,
        }
    }
}

/// The cleaned branch names of the worktrees that have one.
pub open spec fn spec_local_branches(ws: Seq<WorktreeView>) -> Seq<Seq<char>>
    decreases ws.len(),
{
    if ws.len() == 0 {
        Seq::empty()
    } else {
        (match ws[0].branch {
            Some(b) => seq![spec_clean_branch(b)],
            None => Seq::empty(),
        }) + spec_local_branches(ws.skip(1))
    }
}

/// Collect the cleaned local branch names out of the worktree records.
pub fn local_branch_names(worktrees: &Vec<Worktree>) -> (r: Vec<String>)
    ensures
        views_of(r@) == spec_local_branches(worktree_views(worktrees@)),
{
    let ghost ws = worktree_views(worktrees@);
    let n = worktrees.len();
    let mut out: Vec<String> = Vec::new();
    let mut i: usize = 0;
    proof {
        assert(ws.skip(0) =~= ws);
        assert(views_of(out@) + spec_local_branches(ws) =~= spec_local_branches(ws));
    }
    while i < n
        invariant
            n == worktrees@.len(),
            ws == worktree_views(worktrees@),
            i <= n,
            spec_local_branches(ws) == views_of(out@) + spec_local_branches(ws.skip(i as int)),
        decreases n - i,
    {
        let ghost rem = ws.skip(i as int);
        let ghost old_out = out@;
        proof {
            assert(rem[0] == ws[i as int]);
            assert(ws[i as int] == worktrees@[i as int]@);
            assert(rem.skip(1) =~= ws.skip(i + 1));
        }
        match &worktrees[i].branch {
            Some(b) => {
                let cleaned = clean_branch_name(b.as_str()).to_owned();
                out.push(cleaned);
                proof {
                    assert(views_of(out@) =~= views_of(old_out) + seq![
                        spec_clean_branch(ws[i as int].branch.unwrap()),
                    ]);
                    assert(views_of(old_out) + (seq![
                        spec_clean_branch(ws[i as int].branch.unwrap()),
                    ] + spec_local_branches(ws.skip(i + 1))) =~= views_of(out@)
                        + spec_local_branches(ws.skip(i + 1)));
                }
            },
            None => {
                proof {
                    assert(Seq::<Seq<char>>::empty() + spec_local_branches(ws.skip(i + 1))
                        =~= spec_local_branches(ws.skip(i + 1)));
                }
            },
        }
        i = i + 1;
    }
    proof {
        assert(ws.skip(n as int) =~= Seq::<WorktreeView>::empty());
        assert(views_of(out@) + Seq::<Seq<char>>::empty() =~= views_of(out@));
    }
    out
}

/// Whether a list of strings holds `s`.
pub fn contains_string(haystack: &Vec<String>, s: &str) -> (r: bool)
    ensures
        r == views_of(haystack@).contains(s@),
{
    let n = haystack.len();
    let mut i: usize = 0;
    while i < n
        invariant
            n == haystack@.len(),
            i <= n,
            forall|j: int| 0 <= j < i ==> views_of(haystack@)[j] != s@,
        decreases n - i,
    {
        if str_eq(haystack[i].as_str(), s) {
            proof {
                assert(views_of(haystack@)[i as int] == s@);
            }
            return true;
        }
        i = i + 1;
    }
    proof {
        assert(forall|j: int| 0 <= j < views_of(haystack@).len() ==> views_of(haystack@)[j] != s@);
    }
    false
}

/// The status word a pull request is shown with.
pub open spec fn spec_pr_status(draft: bool) -> Seq<char> {
    if draft {
        "DRAFT"@
    } else {
        "OPEN"@
    }
}

/// What one fetched pull request contributes to the remote section: its
/// branch with its detail, unless a local worktree already has the
/// branch.
pub open spec fn spec_remote_entry(
    pr: PullRequest,
    branch: Seq<char>,
    locals: Seq<Seq<char>>,
) -> Seq<(Seq<char>, Seq<char>, Seq<char>, Seq<char>)> {
    if locals.contains(branch) {
        Seq::empty()
    } else {
        seq![(branch, pr.html_url@, spec_pr_status(pr.draft), pr.title@)]
    }
}

/// The remote section of a listing: each fetched open pull request whose
/// branch has no local worktree, in fetch order.
pub open spec fn spec_remote_prs(
    prs: Seq<(PullRequest, String)>,
    locals: Seq<Seq<char>>,
) -> Seq<(Seq<char>, Seq<char>, Seq<char>, Seq<char>)>
    decreases prs.len(),
{
    if prs.len() == 0 {
        Seq::empty()
    } else {
        spec_remote_entry(prs[0].0, prs[0].1@, locals) + spec_remote_prs(prs.skip(1), locals)
    }
}

/// The view of one shown remote pull request.
pub open spec fn remote_pr_view(r: RemotePullRequest) -> (Seq<char>, Seq<char>, Seq<char>, Seq<
    char,
>) {
    (r.branch@, r.info.url@, r.info.status@, r.info.title@)
}

/// Decide which fetched open pull requests are shown as remote work not
/// yet checked out: those whose branch has no local worktree.
pub fn filter_remote_prs(
    prs: &Vec<(PullRequest, String)>,
    local_branches: &Vec<String>,
) -> (r: Vec<RemotePullRequest>)
    ensures
        r@.map_values(|x: RemotePullRequest| remote_pr_view(x)) == spec_remote_prs(
            prs@,
            views_of(local_branches@),
        ),
{
    let ghost locals = views_of(local_branches@);
    let n = prs.len();
    let mut out: Vec<RemotePullRequest> = Vec::new();
    let mut i: usize = 0;
    proof {
        assert(prs@.skip(0) =~= prs@);
        assert(out@.map_values(|x: RemotePullRequest| remote_pr_view(x)) + spec_remote_prs(
            prs@,
            locals,
        ) =~= spec_remote_prs(prs@, locals));
    }
    while i < n
        invariant
            n == prs@.len(),
            locals == views_of(local_branches@),
            i <= n,
            spec_remote_prs(prs@, locals) == out@.map_values(
                |x: RemotePullRequest| remote_pr_view(x),
            ) + spec_remote_prs(prs@.skip(i as int), locals),
        decreases n - i,
    {
        let ghost rem = prs@.skip(i as int);
        let ghost old_out = out@;
        proof {
            assert(rem[0] == prs@[i as int]);
            assert(rem.skip(1) =~= prs@.skip(i + 1));
        }
        let (pr, branch) = &prs[i];
        if !contains_string(local_branches, branch.as_str()) {
            let status = if pr.draft {
                "DRAFT".to_owned()
            } else {
                "OPEN".to_owned()
            };
            let entry = RemotePullRequest {
                branch: branch.clone(),
                info: PullRequestInfo {
                    url: pr.html_url.clone(),
                    status,
                    title: pr.title.clone(),
                },
            };
            out.push(entry);
            proof {
                assert(out@.map_values(|x: RemotePullRequest| remote_pr_view(x)) =~= old_out
                    .map_values(|x: RemotePullRequest| remote_pr_view(x)) + spec_remote_entry(
                    prs@[i as int].0,
                    prs@[i as int].1@,
                    locals,
                ));
                assert(old_out.map_values(|x: RemotePullRequest| remote_pr_view(x))
                    + (spec_remote_entry(prs@[i as int].0, prs@[i as int].1@, locals)
                    + spec_remote_prs(prs@.skip(i + 1), locals)) =~= out@.map_values(
                    |x: RemotePullRequest| remote_pr_view(x),
                ) + spec_remote_prs(prs@.skip(i + 1), locals));
            }
        } else {
            proof {
                assert(spec_remote_entry(prs@[i as int].0, prs@[i as int].1@, locals)
                    =~= Seq::<(Seq<char>, Seq<char>, Seq<char>, Seq<char>)>::empty());
                assert(Seq::<(Seq<char>, Seq<char>, Seq<char>, Seq<char>)>::empty()
                    + spec_remote_prs(prs@.skip(i + 1), locals) =~= spec_remote_prs(
                    prs@.skip(i + 1),
                    locals,
                ));
            }
        }
        i = i + 1;
    }
    proof {
        assert(prs@.skip(n as int) =~= Seq::<(PullRequest, String)>::empty());
        assert(out@.map_values(|x: RemotePullRequest| remote_pr_view(x)) + Seq::<
            (Seq<char>, Seq<char>, Seq<char>, Seq<char>),
        >::empty() =~= out@.map_values(|x: RemotePullRequest| remote_pr_view(x)));
    }
    out
}

} // verus!

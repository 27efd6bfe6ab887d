//! The worktree lifecycle's decisions: which of the three mutually
//! exclusive creation strategies an Add takes, the exact git arguments it
//! issues, and the full plan of a Remove — target resolution, the refusal
//! of the bare record, the choice of an execution context, and whether
//! the branch is deleted afterwards. The git subprocess itself runs in
//! the shell around the library; everything it is told to do is decided
//! here.
use vstd::prelude::*;
use crate::errors::Error;
use crate::paths::{path_join, spec_join, spec_is_under};
use crate::registry::{
    clean_branch_name, find_target_worktree, get_branch_display, spec_branch_display,
    spec_clean_branch, spec_selected_target, Worktree, WorktreeView, worktree_views,
};
use crate::strutil::{
    contains_substr, eq_ignore_ascii_case, lower_seq, spec_trim, str_contains, str_eq, trim_ascii,
    views_of,
};
use crate::urls::{is_main_branch, spec_is_main_branch};

verus! {

/// Which of the three creation strategies an Add takes.
#[derive(Clone, Copy, Debug, PartialEq, Eq, Structural)]
pub enum AddStrategy {
    /// The branch exists locally: attach a worktree to it.
    UseLocal,
    /// Only a remote branch exists: create a local branch tracking it.
    TrackRemote,
    /// Neither exists: branch off the configured main branch, untracked.
    BranchFromMain,
}

/// The strategy an Add takes, decided by branch existence alone: a local
/// branch always wins, a remote branch is tracked only when no local one
/// exists, and everything else branches off the main branch.
pub open spec fn spec_add_strategy(local_exists: bool, remote_exists: bool) -> AddStrategy {
    if local_exists {
        AddStrategy::UseLocal
    } else if remote_exists {
        AddStrategy::TrackRemote
    } else {
        AddStrategy::BranchFromMain
    }
}

/// Decide the strategy an Add takes from branch existence.
pub fn choose_add_strategy(local_exists: bool, remote_exists: bool) -> (r: AddStrategy)
    ensures
        r == spec_add_strategy(local_exists, remote_exists),
        local_exists ==> r == AddStrategy::UseLocal,
        !local_exists && remote_exists ==> r == AddStrategy::TrackRemote,
        !local_exists && !remote_exists ==> r == AddStrategy::BranchFromMain,
{
    if local_exists {
        AddStrategy::UseLocal
    } else if remote_exists {
        AddStrategy::TrackRemote
    } else {
        AddStrategy::BranchFromMain
    }
}

/// Add is idempotent under retry: once its branch exists locally — as it
/// does after a first successful Add — every later Add takes the
/// attach-to-local path, whatever the remote says, and the command it
/// issues is a plain `worktree add` that creates no new branch and no
/// tracking relationship.
pub proof fn lemma_add_retry_uses_local(
    remote_exists: bool,
    target: Seq<char>,
    branch: Seq<char>,
    main_branch: Seq<char>,
)
    ensures
        spec_add_strategy(true, remote_exists) == AddStrategy::UseLocal,
        spec_add_args(spec_add_strategy(true, remote_exists), target, branch, main_branch)
            == seq!["worktree"@, "add"@, target, branch],
{
}

/// The git arguments a strategy issues for `worktree add`.
pub open spec fn spec_add_args(
    strategy: AddStrategy,
    target: Seq<char>,
    branch: Seq<char>,
    main_branch: Seq<char>,
) -> Seq<Seq<char>> {
    match strategy {
        AddStrategy::UseLocal => seq!["worktree"@, "add"@, target, branch],
        AddStrategy::TrackRemote => seq![
            "worktree"@,
            "add"@,
            target,
            "-b"@,
            branch,
            "origin/"@ + branch,
        ],
        AddStrategy::BranchFromMain => seq![
            "worktree"@,
            "add"@,
            "--no-track"@,
            target,
            "-b"@,
            branch,
            "origin/"@ + main_branch,
        ],
    }
}

/// Build the `git worktree add` argument list for a strategy. With no
/// local or remote branch, the worktree is branched off
/// `origin/<main_branch>` with `--no-track`.
pub fn worktree_add_args(
    strategy: AddStrategy,
    target_path: &str,
    branch_name: &str,
    main_branch: &str,
) -> (r: Vec<String>)
    ensures
        views_of(r@) == spec_add_args(strategy, target_path@, branch_name@, main_branch@),
{
    let mut args: Vec<String> = Vec::new();
    args.push("worktree".to_owned());
    args.push("add".to_owned());
    match strategy {
        AddStrategy::UseLocal => {
            args.push(target_path.to_owned());
            args.push(branch_name.to_owned());
        },
        AddStrategy::TrackRemote => {
            args.push(target_path.to_owned());
            args.push("-b".to_owned());
            args.push(branch_name.to_owned());
            args.push("origin/".to_owned().concat(branch_name));
        },
        AddStrategy::BranchFromMain => {
            args.push("--no-track".to_owned());
            args.push(target_path.to_owned());
            args.push("-b".to_owned());
            args.push(branch_name.to_owned());
            args.push("origin/".to_owned().concat(main_branch));
        },
    }
    proof {
        assert(views_of(args@) =~= spec_add_args(
            strategy,
            target_path@,
            branch_name@,
            main_branch@,
        ));
    }
    args
}

/// The arguments of the removal command: a forced `worktree remove` of
/// the target path.
pub fn worktree_remove_args(target_path: &str) -> (r: Vec<String>)
    ensures
        views_of(r@) == seq!["worktree"@, "remove"@, target_path@, "--force"@],
{
    let mut args: Vec<String> = Vec::new();
    args.push("worktree".to_owned());
    args.push("remove".to_owned());
    args.push(target_path.to_owned());
    args.push("--force".to_owned());
    proof {
        assert(views_of(args@) =~= seq!["worktree"@, "remove"@, target_path@, "--force"@]);
    }
    args
}

/// The arguments of a branch deletion: safe (`-d`) first, forced (`-D`)
/// only on explicit confirmation after an unmerged failure.
pub fn branch_delete_args(branch: &str, force: bool) -> (r: Vec<String>)
    ensures
        views_of(r@) == seq![
            "branch"@,
            if force {
                "-D"@
            } else {
                "-d"@
            },
            branch@,
        ],
{
    let mut args: Vec<String> = Vec::new();
    args.push("branch".to_owned());
    if force {
        args.push("-D".to_owned());
    } else {
        args.push("-d".to_owned());
    }
    args.push(branch.to_owned());
    proof {
        assert(views_of(args@) =~= seq![
            "branch"@,
            if force {
                "-D"@
            } else {
                "-d"@
            },
            branch@,
        ]);
    }
    args
}

/// The directory new worktrees are created in: the configured location
/// when one is recorded, else the `<root-name>-worktrees` sibling of the
/// project root.
pub open spec fn spec_worktrees_dir(root: Seq<char>, configured: Option<Seq<char>>) -> Seq<char> {
    match configured {
        Some(w) => w,
        None => match crate::paths::spec_parent(root) {
            Some(par) => spec_join(par, crate::paths::spec_file_name(root) + "-worktrees"@),
            None => root + "-worktrees"@,
        },
    }
}

/// Resolve the directory new worktrees are created in.
pub fn worktrees_dir(project_root: &str, configured: Option<&String>) -> (r: String)
    ensures
        r@ == spec_worktrees_dir(
            project_root@,
            match configured {
                Some(w) => Some(w@),
                None => None,
            },
        ),
{
    match configured {
        Some(w) => w.clone(),
        None => {
            match crate::paths::path_parent(project_root) {
                Some(par) => {
                    let name = crate::paths::path_file_name(project_root).concat("-worktrees");
                    path_join(par.as_str(), name.as_str())
                },
                None => project_root.to_owned().concat("-worktrees"),
            }
        },
    }
}

/// Where an Add puts the new worktree, and from where git runs: the
/// target is `<worktrees-dir>/<branch>`, and commands run from an
/// existing checkout found under the root.
pub fn determine_paths(
    fs: &crate::fsmodel::FsSnapshot,
    project_root: &str,
    worktrees_path: Option<&String>,
    branch_name: &str,
) -> (r: Result<(String, String), Error>)
    ensures
        match r {
            Ok(p) => crate::locate::spec_existing_choice(*fs, project_root@, p.0@) && p.1@
                == spec_join(
                spec_worktrees_dir(
                    project_root@,
                    match worktrees_path {
                        Some(w) => Some(w@),
                        None => None,
                    },
                ),
                branch_name@,
            ),
            Err(e) => crate::locate::spec_no_existing(*fs, project_root@) && e is Other,
        },
{
    let git_working_dir = crate::locate::find_existing_worktree(fs, project_root)?;
    let dir = worktrees_dir(project_root, worktrees_path);
    let target_path = path_join(dir.as_str(), branch_name);
    Ok((git_working_dir, target_path))
}

/// The branch an Add branches from: the configured main branch when a
/// configuration exists, else what git reports as the default branch,
/// else `main`.
pub fn get_main_branch(config_main: Option<&String>, git_default: Option<&String>) -> (r: String)
    ensures
        match config_main {
            Some(m) => r@ == m@,
            None => match git_default {
                Some(d) => r@ == d@,
                None => r@ == "main"@,
            },
        },
{
    match config_main {
        Some(m) => m.clone(),
        None => match git_default {
            Some(d) => d.clone(),
            None => "main".to_owned(),
        },
    }
}

/// An operator's confirmation: the trimmed input is `y` or `yes`, in any
/// ASCII case.
pub fn confirmation_accepted(input: &str) -> (r: bool)
    ensures
        r == (lower_seq(spec_trim(input@)) == lower_seq("y"@) || lower_seq(spec_trim(input@))
            == lower_seq("yes"@)),
{
    let t = trim_ascii(input);
    eq_ignore_ascii_case(t, "y") || eq_ignore_ascii_case(t, "yes")
}

/// A safe branch deletion failed because of unmerged commits; only then
/// is a forced deletion offered.
pub fn is_unmerged_error(message: &str) -> (r: bool)
    ensures
        r == contains_substr(message@, "not fully merged"@),
{
    str_contains(message, "not fully merged")
}

/// Worktree `j` can host the removal subprocess: a different checkout
/// than the target, on a protected branch.
pub open spec fn spec_protected_host(ws: Seq<WorktreeView>, target: int, j: int) -> bool {
    &&& 0 <= j < ws.len()
    &&& ws[j].path != ws[target].path
    &&& match ws[j].branch {
        Some(b) => spec_is_main_branch(spec_clean_branch(b)),
        None => false,
    }
}

/// Worktree `j` is any checkout other than the target.
pub open spec fn spec_other_host(ws: Seq<WorktreeView>, target: int, j: int) -> bool {
    &&& 0 <= j < ws.len()
    &&& ws[j].path != ws[target].path
}

/// The worktree the removal subprocess runs from: the first other
/// checkout on a protected branch, else the first other checkout.
pub open spec fn spec_exec_choice(ws: Seq<WorktreeView>, target: int, e: int) -> bool {
    if exists|j: int| spec_protected_host(ws, target, j) {
        spec_protected_host(ws, target, e) && (forall|j: int|
            0 <= j < e ==> !spec_protected_host(ws, target, j))
    } else {
        spec_other_host(ws, target, e) && (forall|j: int|
            0 <= j < e ==> !spec_other_host(ws, target, j))
    }
}

/// Select the worktree to execute the removal from: prefer one on a
/// protected branch, else any other; never the target itself.
pub fn select_execution_worktree(worktrees: &Vec<Worktree>, target_index: usize) -> (r: Option<
    usize,
>)
    requires
        target_index < worktrees@.len(),
    ensures
        match r {
            Some(e) => e < worktrees@.len() && spec_exec_choice(
                worktree_views(worktrees@),
                target_index as int,
                e as int,
            ),
            None => forall|j: int|
                !spec_other_host(worktree_views(worktrees@), target_index as int, j),
        },
{
    let ghost ws = worktree_views(worktrees@);
    let n = worktrees.len();
    let target_path = &worktrees[target_index].path;
    let mut i: usize = 0;
    while i < n
        invariant
            n == worktrees@.len(),
            target_index < n,
            ws == worktree_views(worktrees@),
            target_path@ == ws[target_index as int].path,
            i <= n,
            forall|j: int| 0 <= j < i ==> !spec_protected_host(ws, target_index as int, j),
        decreases n - i,
    {
        let w = &worktrees[i];
        if !str_eq(w.path.as_str(), target_path.as_str()) {
            match &w.branch {
                Some(b) => {
                    let cleaned = clean_branch_name(b.as_str());
                    if is_main_branch(cleaned) {
                        proof {
                            assert(ws[i as int] == worktrees@[i as int]@);
                            assert(spec_protected_host(ws, target_index as int, i as int));
                        }
                        return Some(i);
                    }
                },
                None => {},
            }
        }
        i = i + 1;
    }
    let mut i: usize = 0;
    while i < n
        invariant
            n == worktrees@.len(),
            target_index < n,
            ws == worktree_views(worktrees@),
            target_path@ == ws[target_index as int].path,
            i <= n,
            forall|j: int| 0 <= j < n ==> !spec_protected_host(ws, target_index as int, j),
            forall|j: int| 0 <= j < i ==> !spec_other_host(ws, target_index as int, j),
        decreases n - i,
    {
        let w = &worktrees[i];
        if !str_eq(w.path.as_str(), target_path.as_str()) {
            return Some(i);
        }
        i = i + 1;
    }
    None
}

/// A decided removal: everything the subprocess shell needs to carry it
/// out.
#[derive(Clone, Debug)]
pub struct RemovePlan {
    /// Which record is removed.
    pub target_index: usize,
    /// Which record the git subprocess runs from.
    pub exec_index: usize,
    /// The target's display name, also the branch considered for
    /// deletion.
    pub branch_display: String,
    /// Whether the branch is deleted afterwards; protected branch names
    /// never are.
    pub delete_branch: bool,
    /// The removal empties the directory the operator stands in, so the
    /// caller must move to the project root before hooks run.
    pub will_remove_current: bool,
}

/// Decide a removal. The bare/main record is refused before anything
/// else is decided; a worktree can only be removed from another checkout,
/// so a sole remaining worktree is also refused.
pub fn plan_remove(
    worktrees: &Vec<Worktree>,
    branch_name: Option<&str>,
    current_dir: &str,
) -> (r: Result<RemovePlan, Error>)
    ensures
        ({
            let ws = worktree_views(worktrees@);
            let selected = spec_selected_target(
                ws,
                match branch_name {
                    Some(t) => Some(t@),
                    None => None,
                },
                current_dir@,
            );
            match r {
                Ok(plan) => {
                    &&& plan.target_index < ws.len()
                    &&& selected == Some(plan.target_index as int)
                    &&& !ws[plan.target_index as int].bare
                    &&& plan.exec_index < ws.len()
                    &&& spec_exec_choice(ws, plan.target_index as int, plan.exec_index as int)
                    &&& plan.branch_display@ == spec_branch_display(ws[plan.target_index as int])
                    &&& plan.delete_branch == !spec_is_main_branch(
                        spec_branch_display(ws[plan.target_index as int]),
                    )
                    &&& plan.will_remove_current == spec_is_under(
                        current_dir@,
                        ws[plan.target_index as int].path,
                    )
                },
                Err(e) => e is Other && (match selected {
                    Some(i) => ws[i].bare || (forall|j: int| !spec_other_host(ws, i, j)),
                    None => true,
                }),
            }
        }),
        ({
            let ws = worktree_views(worktrees@);
            match spec_selected_target(
                ws,
                match branch_name {
                    Some(t) => Some(t@),
                    None => None,
                },
                current_dir@,
            ) {
                Some(i) => ws[i].bare ==> r is Err,
                None => r is Err,
            }
        }),
{
    let target_index = find_target_worktree(worktrees, branch_name, current_dir)?;
    let target = &worktrees[target_index];
    if target.bare {
        return Err(Error::msg("Cannot remove the main (bare) repository.".to_owned()));
    }
    let exec_index = match select_execution_worktree(worktrees, target_index) {
        Some(e) => e,
        None => {
            return Err(
                Error::msg("No other worktrees found to execute git command from.".to_owned()),
            );
        },
    };
    let branch_display = get_branch_display(target).to_owned();
    let delete_branch = !is_main_branch(branch_display.as_str());
    let will_remove_current = crate::paths::path_is_under(current_dir, target.path.as_str());
    Ok(
        RemovePlan {
            target_index,
            exec_index,
            branch_display,
            delete_branch,
            will_remove_current,
        },
    )
}

} // verus!

use git_worktree_cli::cli::Provider;
use git_worktree_cli::config::GitWorktreeConfig;
use git_worktree_cli::errors::Error;
use git_worktree_cli::fsmodel::FsSnapshot;
use git_worktree_cli::hooks::{prepare_hook_commands, substitute_hook_variables};
use git_worktree_cli::lifecycle::{
    branch_delete_args, choose_add_strategy, confirmation_accepted, determine_paths,
    get_main_branch, is_unmerged_error, plan_remove, select_execution_worktree,
    worktree_add_args, worktree_remove_args, AddStrategy,
};
use git_worktree_cli::registry::Worktree;

fn wt(path: &str, head: &str, branch: Option<&str>, bare: bool) -> Worktree {
    Worktree {
        path: path.to_string(),
        head: head.to_string(),
        branch: branch.map(|b| b.to_string()),
        bare,
    }
}

#[test]
fn add_strategy_cases() {
    assert_eq!(choose_add_strategy(true, false), AddStrategy::UseLocal);
    assert_eq!(choose_add_strategy(true, true), AddStrategy::UseLocal);
    assert_eq!(choose_add_strategy(false, true), AddStrategy::TrackRemote);
    assert_eq!(choose_add_strategy(false, false), AddStrategy::BranchFromMain);
}

#[test]
fn add_retry_takes_local_path() {
    // After a first Add created the branch, a retried Add sees it locally
    // and attaches to it instead of recreating anything.
    let strategy = choose_add_strategy(true, true);
    assert_eq!(strategy, AddStrategy::UseLocal);
    let args = worktree_add_args(strategy, "/p/feat", "feat", "main");
    assert_eq!(args, vec!["worktree", "add", "/p/feat", "feat"]);
}

#[test]
fn add_args_track_remote() {
    let args = worktree_add_args(AddStrategy::TrackRemote, "/p/feat", "feat", "main");
    assert_eq!(
        args,
        vec!["worktree", "add", "/p/feat", "-b", "feat", "origin/feat"]
    );
}

#[test]
fn add_falls_back_to_main_branch() {
    // Branch unknown locally and remotely, and no configured default:
    // the worktree branches off origin/<main branch> without tracking.
    let main = get_main_branch(None, None);
    assert_eq!(main, "main");
    let strategy = choose_add_strategy(false, false);
    assert_eq!(strategy, AddStrategy::BranchFromMain);
    let args = worktree_add_args(strategy, "/p/feat", "feat", &main);
    assert_eq!(
        args,
        vec!["worktree", "add", "--no-track", "/p/feat", "-b", "feat", "origin/main"]
    );
}

#[test]
fn main_branch_preference() {
    let cfg = "develop".to_string();
    let git = "master".to_string();
    assert_eq!(get_main_branch(Some(&cfg), Some(&git)), "develop");
    assert_eq!(get_main_branch(None, Some(&git)), "master");
}

#[test]
fn determine_paths_for_add() {
    let mut fs = FsSnapshot::new();
    fs.add_dir("/work/proj/main".to_string());
    fs.add_dir("/work/proj/main/.git".to_string());
    // Without a configured location, worktrees go to the sibling
    // `<root-name>-worktrees` directory.
    let (gwd, target) = determine_paths(&fs, "/work/proj", None, "feat").unwrap();
    assert_eq!(gwd, "/work/proj/main");
    assert_eq!(target, "/work/proj-worktrees/feat");
    // A configured location wins.
    let configured = "/elsewhere/wts".to_string();
    let (_, target) = determine_paths(&fs, "/work/proj", Some(&configured), "feat").unwrap();
    assert_eq!(target, "/elsewhere/wts/feat");
}

#[test]
fn remove_refuses_bare_entry() {
    // Targeting the bare/main record must fail before any removal
    // command is built.
    let wts = vec![
        wt("/p/repo.git", "1", None, true),
        wt("/p/feat", "2", Some("refs/heads/feat"), false),
    ];
    let err = plan_remove(&wts, Some("repo.git"), "/elsewhere").unwrap_err();
    assert!(matches!(err, Error::Other(_)));
    assert_eq!(err.message(), "Cannot remove the main (bare) repository.");
}

#[test]
fn remove_feature_branch_scenario() {
    // Local records: the bare/main entry and feature-a. Removing
    // feature-a with a "y" confirmation removes the worktree, deletes the
    // non-protected branch, and runs the postRemove hooks with
    // branchName=feature-a.
    let wts = vec![
        wt("/p/main", "1", Some("refs/heads/main"), true),
        wt("/p/feature-a", "2", Some("refs/heads/feature-a"), false),
    ];
    assert!(confirmation_accepted("y"));
    let plan = plan_remove(&wts, Some("feature-a"), "/p/main").unwrap();
    assert_eq!(plan.target_index, 1);
    assert_eq!(plan.exec_index, 0);
    assert_eq!(plan.branch_display, "feature-a");
    assert!(plan.delete_branch);
    assert!(!plan.will_remove_current);
    assert_eq!(
        worktree_remove_args("/p/feature-a"),
        vec!["worktree", "remove", "/p/feature-a", "--force"]
    );
    assert_eq!(branch_delete_args("feature-a", false), vec!["branch", "-d", "feature-a"]);

    let mut config = GitWorktreeConfig::new(
        "git@github.com:o/r.git".to_string(),
        "main".to_string(),
        Provider::Github,
    );
    let mut hooks = config.hooks.take().unwrap();
    hooks.post_remove = Some(vec!["echo removed ${branchName} at ${worktreePath}".to_string()]);
    config.hooks = Some(hooks);
    let vars = vec![
        ("branchName".to_string(), "feature-a".to_string()),
        ("worktreePath".to_string(), "/p/feature-a".to_string()),
    ];
    let cmds = prepare_hook_commands(&config, "postRemove", &vars);
    assert_eq!(cmds, vec!["echo removed feature-a at /p/feature-a"]);
}

#[test]
fn remove_protected_branch_is_kept() {
    let wts = vec![
        wt("/p/main", "1", Some("refs/heads/main"), false),
        wt("/p/dev", "2", Some("refs/heads/dev"), false),
    ];
    let plan = plan_remove(&wts, Some("dev"), "/elsewhere").unwrap();
    assert!(!plan.delete_branch);
}

#[test]
fn remove_needs_another_worktree() {
    let wts = vec![wt("/p/only", "1", Some("refs/heads/only"), false)];
    let err = plan_remove(&wts, Some("only"), "/elsewhere").unwrap_err();
    assert_eq!(
        err.message(),
        "No other worktrees found to execute git command from."
    );
}

#[test]
fn remove_detects_current_worktree() {
    let wts = vec![
        wt("/p/main", "1", Some("refs/heads/main"), false),
        wt("/p/feat", "2", Some("refs/heads/feat"), false),
    ];
    let plan = plan_remove(&wts, None, "/p/feat/src").unwrap();
    assert_eq!(plan.target_index, 1);
    assert!(plan.will_remove_current);
}

#[test]
fn execution_worktree_prefers_protected() {
    let wts = vec![
        wt("/p/target", "1", Some("refs/heads/x"), false),
        wt("/p/other", "2", Some("refs/heads/scratch"), false),
        wt("/p/main", "3", Some("refs/heads/main"), false),
    ];
    assert_eq!(select_execution_worktree(&wts, 0), Some(2));
    let no_protected = vec![
        wt("/p/target", "1", Some("refs/heads/x"), false),
        wt("/p/other", "2", Some("refs/heads/scratch"), false),
    ];
    assert_eq!(select_execution_worktree(&no_protected, 0), Some(1));
    let alone = vec![wt("/p/target", "1", Some("refs/heads/x"), false)];
    assert_eq!(select_execution_worktree(&alone, 0), None);
}

#[test]
fn confirmation_forms() {
    assert!(confirmation_accepted("y"));
    assert!(confirmation_accepted("YES"));
    assert!(confirmation_accepted("  Yes \n"));
    assert!(!confirmation_accepted("n"));
    assert!(!confirmation_accepted(""));
    assert!(!confirmation_accepted("yep"));
}

#[test]
fn unmerged_error_detection() {
    assert!(is_unmerged_error(
        "error: The branch 'x' is not fully merged."
    ));
    assert!(!is_unmerged_error("error: branch 'x' not found."));
}

#[test]
fn hook_substitution() {
    let vars = vec![
        ("branchName".to_string(), "feat".to_string()),
        ("worktreePath".to_string(), "/p/feat".to_string()),
    ];
    assert_eq!(
        substitute_hook_variables("run ${branchName} ${branchName} in ${worktreePath}", &vars),
        "run feat feat in /p/feat"
    );
    assert_eq!(substitute_hook_variables("no vars here", &vars), "no vars here");
    assert_eq!(
        substitute_hook_variables("${unknown} stays", &vars),
        "${unknown} stays"
    );
}

#[test]
fn hooks_unknown_event_selects_nothing() {
    let config = GitWorktreeConfig::new(
        "git@github.com:o/r.git".to_string(),
        "main".to_string(),
        Provider::Github,
    );
    let vars: Vec<(String, String)> = vec![];
    assert!(prepare_hook_commands(&config, "postAdd", &vars).is_empty());
    assert!(prepare_hook_commands(&config, "somethingElse", &vars).is_empty());
}

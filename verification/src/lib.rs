//! Core logic for a git worktree manager: project and git-directory
//! resolution over an explicit filesystem snapshot, parsing of git's
//! machine-readable worktree listing, repository-URL handling, and the
//! decision rules of the add/list/remove lifecycle.
pub mod bitbucket;
pub mod cli;
pub mod config;
pub mod errors;
pub mod fsmodel;
pub mod github;
pub mod hooks;
pub mod lifecycle;
pub mod listing;
pub mod locate;
pub mod paths;
pub mod probe;
pub mod provider;
pub mod registry;
pub mod strutil;
pub mod urls;

//! The library's error type. Payloads are plain strings so that every
//! variant can be built and inspected in verified code; the thin shell
//! around the library converts foreign failures into these before calling
//! in.
use vstd::prelude::*;

verus! {

/// Everything the worktree engine can fail with.
#[derive(Clone, Debug)]
pub enum Error {
    /// A filesystem operation failed.
    Io(String),
    /// A git subprocess exited non-zero; the payload carries its stderr.
    Git(String),
    /// The project configuration could not be read or written.
    Config(String),
    /// A hosting-provider request failed.
    Provider(String),
    /// No project root was found above the starting directory.
    ProjectRootNotFound,
    /// No directory holding a `.git` entry was found in the project.
    GitDirectoryNotFound,
    /// A branch could not be created or deleted.
    Branch(String),
    /// A hook command exited non-zero.
    Hook(String),
    /// A credential was missing or rejected.
    Auth(String),
    /// An HTTP request could not be made.
    Network(String),
    /// A payload could not be parsed as JSON.
    Json(String),
    /// Anything else, with its message.
    Other(String),
}

impl Error {
    /// A generic error with a message.
    pub fn msg(m: String) -> (r: Error)
        ensures
            r == Error::Other(m),
    {
        Error::Other(m)
    }

    /// A git subprocess error.
    pub fn git(m: String) -> (r: Error)
        ensures
            r == Error::Git(m),
    {
        Error::Git(m)
    }

    /// A configuration error.
    pub fn config(m: String) -> (r: Error)
        ensures
            r == Error::Config(m),
    {
        Error::Config(m)
    }

    /// A branch-operation error.
    pub fn branch(m: String) -> (r: Error)
        ensures
            r == Error::Branch(m),
    {
        Error::Branch(m)
    }

    /// A hook error.
    pub fn hook(m: String) -> (r: Error)
        ensures
            r == Error::Hook(m),
    {
        Error::Hook(m)
    }

    /// An authentication error.
    pub fn auth(m: String) -> (r: Error)
        ensures
            r == Error::Auth(m),
    {
        Error::Auth(m)
    }

    /// A provider error.
    pub fn provider(m: String) -> (r: Error)
        ensures
            r == Error::Provider(m),
    {
        Error::Provider(m)
    }

    /// A network error.
    pub fn network(m: String) -> (r: Error)
        ensures
            r == Error::Network(m),
    {
        Error::Network(m)
    }

    /// The error's message text, for display by the shell around the
    /// library.
    pub fn message(&self) -> (r: String)
        ensures
            match self {
                Error::Io(m) => r@ == m@,
                Error::Git(m) => r@ == m@,
                Error::Config(m) => r@ == m@,
                Error::Provider(m) => r@ == m@,
                Error::ProjectRootNotFound => r@ == "Project root not found"@,
                Error::GitDirectoryNotFound => r@ == "Git directory not found in project"@,
                Error::Branch(m) => r@ == m@,
                Error::Hook(m) => r@ == m@,
                Error::Auth(m) => r@ == m@,
                Error::Network(m) => r@ == m@,
                Error::Json(m) => r@ == m@,
                Error::Other(m) => r@ == m@,
            },
    {
        match self {
            Error::Io(m) => m.clone(),
            Error::Git(m) => m.clone(),
            Error::Config(m) => m.clone(),
            Error::Provider(m) => m.clone(),
            Error::ProjectRootNotFound => "Project root not found".to_owned(),
            Error::GitDirectoryNotFound => "Git directory not found in project".to_owned(),
            Error::Branch(m) => m.clone(),
            Error::Hook(m) => m.clone(),
            Error::Auth(m) => m.clone(),
            Error::Network(m) => m.clone(),
            Error::Json(m) => m.clone(),
            Error::Other(m) => m.clone(),
        }
    }
}

} // verus!

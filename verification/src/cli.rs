//! The plain command-surface types: which provider a repository lives on
//! and which authentication action was requested. The argument-parsing
//! shell around the library mirrors these with its own derive-carrying
//! copies and converts.
use vstd::prelude::*;

verus! {

/// The hosting provider a repository belongs to.
#[derive(Clone, Copy, Debug, PartialEq, Eq, Structural)]
pub enum Provider {
    /// GitHub repository.
    Github,
    /// Bitbucket Cloud repository.
    BitbucketCloud,
    /// Bitbucket Data Center repository.
    BitbucketDataCenter,
}

/// A Bitbucket Cloud authentication subcommand.
#[derive(Clone, Copy, Debug, PartialEq, Eq, Structural)]
pub enum BitbucketCloudAuthAction {
    /// Show setup instructions.
    Setup,
    /// Test the authentication connection.
    Test,
}

/// A Bitbucket Data Center authentication subcommand.
#[derive(Clone, Copy, Debug, PartialEq, Eq, Structural)]
pub enum BitbucketDataCenterAuthAction {
    /// Show setup instructions.
    Setup,
    /// Test the authentication connection.
    Test,
}

/// An authentication command.
#[derive(Clone, Copy, Debug, PartialEq, Eq, Structural)]
pub enum AuthAction {
    /// Authenticate with GitHub.
    Github,
    /// Authenticate with Bitbucket Cloud.
    BitbucketCloud { action: Option<BitbucketCloudAuthAction> },
    /// Authenticate with Bitbucket Data Center.
    BitbucketDataCenter { action: Option<BitbucketDataCenterAuthAction> },
}

/// The configuration key a provider is recorded under.
pub open spec fn spec_provider_key(p: Provider) -> Seq<char> {
    match p {
        Provider::Github => "github"@,
        Provider::BitbucketCloud => "bitbucket-cloud"@,
        Provider::BitbucketDataCenter => "bitbucket-data-center"@,
    }
}

/// The configuration key a provider is recorded under.
pub fn provider_key(p: Provider) -> (r: &'static str)
    ensures
        r@ == spec_provider_key(p),
{
    match p {
        Provider::Github => "github",
        Provider::BitbucketCloud => "bitbucket-cloud",
        Provider::BitbucketDataCenter => "bitbucket-data-center",
    }
}

} // verus!

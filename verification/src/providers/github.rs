//! Repositories of GitHub users and organisations.

use crate::config::{GitSyncConfig, GitSyncConfigOrg};
use crate::providers::listing::{created_url, starts_listing, OwnerListing, Provider};
use vstd::prelude::*;

verus! {

/// Starts the listing of a user's repositories: every page is asked for at
/// `/users/{namespace}/repos`, a hundred items at a time.
pub fn github_user_handler(config: &GitSyncConfig, owner: &GitSyncConfigOrg) -> (listing: Option<
    OwnerListing,
>)
    ensures
        starts_listing(listing, Provider::GitHubUser, config.path@, *owner),
        listing matches Some(l) ==> created_url(
            "https://api.github.com"@,
            "/users/"@ + owner.namespace@ + "/repos"@,
            "per_page=100"@,
        ) == Some(l.request.url@),
{
    OwnerListing::begin(Provider::GitHubUser, config, owner)
}

/// Starts the listing of an organisation's repositories: every page is
/// asked for at `/orgs/{namespace}/repos`, a hundred items at a time.
pub fn github_org_handler(config: &GitSyncConfig, owner: &GitSyncConfigOrg) -> (listing: Option<
    OwnerListing,
>)
    ensures
        starts_listing(listing, Provider::GitHubOrg, config.path@, *owner),
        listing matches Some(l) ==> created_url(
            "https://api.github.com"@,
            "/orgs/"@ + owner.namespace@ + "/repos"@,
            "per_page=100"@,
        ) == Some(l.request.url@),
{
    OwnerListing::begin(Provider::GitHubOrg, config, owner)
}

} // verus!

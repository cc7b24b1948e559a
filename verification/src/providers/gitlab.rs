//! Repositories of GitLab users and groups.

use crate::config::{GitSyncConfig, GitSyncConfigOrg};
use crate::providers::listing::{created_url, starts_listing, OwnerListing, Provider};
use vstd::prelude::*;

verus! {

/// Starts the listing of a user's projects: every page is asked for at
/// `/api/v4/users/{namespace}/projects`, a hundred items at a time.
pub fn gitlab_user_handler(config: &GitSyncConfig, owner: &GitSyncConfigOrg) -> (listing: Option<
    OwnerListing,
>)
    ensures
        starts_listing(listing, Provider::GitLabUser, config.path@, *owner),
        listing matches Some(l) ==> created_url(
            "https://gitlab.com"@,
            "/api/v4/users/"@ + owner.namespace@ + "/projects"@,
            "per_page=100"@,
        ) == Some(l.request.url@),
{
    OwnerListing::begin(Provider::GitLabUser, config, owner)
}

/// Starts the listing of a group's projects, those of its subgroups
/// included: every page is asked for at
/// `/api/v4/groups/{namespace}/projects`, a hundred items at a time.
pub fn gitlab_group_handler(config: &GitSyncConfig, owner: &GitSyncConfigOrg) -> (listing: Option<
    OwnerListing,
>)
    ensures
        starts_listing(listing, Provider::GitLabGroup, config.path@, *owner),
        listing matches Some(l) ==> created_url(
            "https://gitlab.com"@,
            "/api/v4/groups/"@ + owner.namespace@ + "/projects"@,
            "include_subgroups=true&per_page=100"@,
        ) == Some(l.request.url@),
{
    OwnerListing::begin(Provider::GitLabGroup, config, owner)
}

} // verus!

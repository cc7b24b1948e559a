//! The repository descriptor and the removal of repeated remotes.

use crate::config::{GitSyncConfig, GitSyncConfigOrg, GitSyncConfigRepo};
use crate::providers::individual::{individual_tag, is_ssh_url, repo_parser};
use crate::providers::github::{github_org_handler, github_user_handler};
use crate::providers::gitlab::{gitlab_group_handler, gitlab_user_handler};
use crate::providers::listing::{lemma_tags_are_plain, map_listing, mapped_listing};
use crate::providers::listing::{provider_of, starts_listing};
use crate::providers::listing::{OwnerListing, Provider};
use crate::providers::shared::{lemma_mirrors_differ, mirror_location, plain_tag, url_path};
use vstd::prelude::*;

verus! {

/// One repository to mirror: its remote, the folder that holds the mirror,
/// and the mirror itself.
#[derive(Clone, Debug, PartialEq)]
pub struct RepoInfo {
    pub url: String,
    pub local_folder_path: String,
    pub local_repo_path: String,
}

/// The text of a descriptor's three fields.
pub struct RepoInfoView {
    pub url: Seq<char>,
    pub local_folder_path: Seq<char>,
    pub local_repo_path: Seq<char>,
}

impl View for RepoInfo {
    type V = RepoInfoView;

    open spec fn view(&self) -> RepoInfoView {
        RepoInfoView {
            url: self.url@,
            local_folder_path: self.local_folder_path@,
            local_repo_path: self.local_repo_path@,
        }
    }
}

impl RepoInfo {
    /// A copy with the same three texts.
    pub fn duplicate(&self) -> (copy: RepoInfo)
        ensures
            copy@ == self@,
    {
        RepoInfo {
            url: self.url.clone(),
            local_folder_path: self.local_folder_path.clone(),
            local_repo_path: self.local_repo_path.clone(),
        }
    }
}

/// A remote that is not in SSH form and was therefore not mapped.
#[derive(Clone, Debug, PartialEq)]
pub struct MalformedUrlError {
    pub url: String,
}

/// The views of a list of descriptors, in order.
pub open spec fn repo_views(repos: Seq<RepoInfo>) -> Seq<RepoInfoView> {
    Seq::new(repos.len(), |i: int| repos[i]@)
}

/// Whether some descriptor of `repos` has the remote `url`.
pub open spec fn has_url(repos: Seq<RepoInfoView>, url: Seq<char>) -> bool {
    exists|i: int| 0 <= i < repos.len() && (#[trigger] repos[i]).url == url
}

/// `repos` without the descriptors whose remote an earlier one already has.
pub open spec fn dedup_by_url(repos: Seq<RepoInfoView>) -> Seq<RepoInfoView>
    decreases repos.len(),
{
    if repos.len() == 0 {
        Seq::empty()
    } else if has_url(repos.drop_last(), repos.last().url) {
        dedup_by_url(repos.drop_last())
    } else {
        dedup_by_url(repos.drop_last()).push(repos.last())
    }
}

/// The index of the first descriptor of `repos` with the remote `url`
/// (meaningful when there is one).
pub open spec fn first_index_of_url(repos: Seq<RepoInfoView>, url: Seq<char>) -> int
    decreases repos.len(),
{
    if repos.len() == 0 {
        0
    } else if has_url(repos.drop_last(), url) {
        first_index_of_url(repos.drop_last(), url)
    } else {
        repos.len() - 1
    }
}

/// A remote occurs in a list when it occurs in all but the last entry or is
/// the remote of the last.
pub proof fn lemma_has_url_last(repos: Seq<RepoInfoView>, url: Seq<char>)
    requires
        repos.len() > 0,
    ensures
        has_url(repos, url) <==> has_url(repos.drop_last(), url) || repos.last().url == url,
{
    let front = repos.drop_last();
    if has_url(repos, url) {
        let k = choose|k: int| 0 <= k < repos.len() && (#[trigger] repos[k]).url == url;
        if k < front.len() {
            assert(front[k].url == url);
        }
    }
    if has_url(front, url) {
        let k = choose|k: int| 0 <= k < front.len() && (#[trigger] front[k]).url == url;
        assert(repos[k].url == url);
    }
    if repos.last().url == url {
        assert(repos[repos.len() - 1].url == url);
    }
}

/// Where a remote occurs, `first_index_of_url` points at its first occurrence.
pub proof fn lemma_first_index_of_url(repos: Seq<RepoInfoView>, url: Seq<char>)
    requires
        has_url(repos, url),
    ensures
        0 <= first_index_of_url(repos, url) < repos.len(),
        repos[first_index_of_url(repos, url)].url == url,
        forall|k: int| 0 <= k < first_index_of_url(repos, url) ==> (#[trigger] repos[k]).url != url,
    decreases repos.len(),
{
    let front = repos.drop_last();
    lemma_has_url_last(repos, url);
    if has_url(front, url) {
        lemma_first_index_of_url(front, url);
        assert forall|k: int| 0 <= k < first_index_of_url(repos, url) implies (
        #[trigger] repos[k]).url != url by {
            assert(front[k] == repos[k]);
        }
    } else {
        assert forall|k: int| 0 <= k < repos.len() - 1 implies (#[trigger] repos[k]).url != url by {
            assert(front[k] == repos[k]);
        }
    }
}

/// What removing repeated remotes keeps: exactly the remotes of the input,
/// each once, each by its first descriptor, and in the order in which those
/// first descriptors stood.
pub proof fn lemma_dedup_by_url(repos: Seq<RepoInfoView>)
    ensures
        dedup_by_url(repos).len() <= repos.len(),
        forall|url: Seq<char>| has_url(dedup_by_url(repos), url) <==> has_url(repos, url),
        forall|a: int, b: int|
            0 <= a < b < dedup_by_url(repos).len() ==> dedup_by_url(repos)[a].url
                != dedup_by_url(repos)[b].url,
        forall|a: int|
            0 <= a < dedup_by_url(repos).len() ==> {
                let first = first_index_of_url(repos, (#[trigger] dedup_by_url(repos)[a]).url);
                0 <= first < repos.len() && repos[first] == dedup_by_url(repos)[a]
            },
        forall|a: int, b: int|
            0 <= a < b < dedup_by_url(repos).len() ==> first_index_of_url(
                repos,
                dedup_by_url(repos)[a].url,
            ) < first_index_of_url(repos, dedup_by_url(repos)[b].url),
    decreases repos.len(),
{
    if repos.len() > 0 {
        let front = repos.drop_last();
        let last = repos.last();
        let kept = dedup_by_url(front);
        let out = dedup_by_url(repos);
        lemma_dedup_by_url(front);
        assert forall|url: Seq<char>| has_url(out, url) <==> has_url(repos, url) by {
            lemma_has_url_last(repos, url);
            if !has_url(front, last.url) {
                assert(out.drop_last() =~= kept);
                lemma_has_url_last(out, url);
            }
        }
        assert forall|a: int| 0 <= a < out.len() implies {
            let first = first_index_of_url(repos, (#[trigger] out[a]).url);
            0 <= first < repos.len() && repos[first] == out[a] && (a < kept.len() ==> first
                == first_index_of_url(front, out[a].url) && first < front.len() && out[a]
                == kept[a]) && (a >= kept.len() ==> first == repos.len() - 1)
        } by {
            if a < kept.len() {
                assert(out[a] == kept[a]);
                assert(has_url(kept, kept[a].url));
                assert(has_url(front, kept[a].url));
                let first = first_index_of_url(front, kept[a].url);
                assert(front[first] == repos[first]);
            }
        }
        assert forall|a: int, b: int| 0 <= a < b < out.len() implies out[a].url != out[b].url by {
            if b >= kept.len() {
                assert(out[a] == kept[a]);
                assert(has_url(kept, kept[a].url));
            } else {
                assert(out[a] == kept[a] && out[b] == kept[b]);
            }
        }
        assert forall|a: int, b: int| 0 <= a < b < out.len() implies first_index_of_url(
            repos,
            out[a].url,
        ) < first_index_of_url(repos, out[b].url) by {
            let ta = out[a];
            let tb = out[b];
            if b < kept.len() {
                assert(kept[a] == ta && kept[b] == tb);
            }
        }
    }
}

/// Removes every descriptor whose remote an earlier descriptor already has.
/// The first of them stays, and what stays keeps its order.
pub fn dedup_repos(repos: &Vec<RepoInfo>) -> (unique: Vec<RepoInfo>)
    ensures
        repo_views(unique@) == dedup_by_url(repo_views(repos@)),
{
    let ghost all = repo_views(repos@);
    let mut unique: Vec<RepoInfo> = Vec::new();
    let mut i: usize = 0;
    while i < repos.len()
        invariant
            i <= repos.len(),
            all == repo_views(repos@),
            repo_views(unique@) =~= dedup_by_url(all.take(i as int)),
        decreases repos.len() - i,
    {
        let mut seen = false;
        let mut j: usize = 0;
        while j < i
            invariant
                j <= i < repos.len(),
                all == repo_views(repos@),
                seen == has_url(all.take(j as int), repos[i as int].url@),
            decreases i - j,
        {
            if repos[j].url == repos[i].url {
                seen = true;
            }
            proof {
                let url = repos[i as int].url@;
                let shorter = all.take(j as int);
                let longer = all.take(j + 1);
                assert(longer[j as int].url == repos[j as int].url@);
                if has_url(shorter, url) {
                    let k = choose|k: int| 0 <= k < shorter.len() && (#[trigger] shorter[k]).url == url;
                    assert(longer[k].url == url);
                }
                if has_url(longer, url) && repos[j as int].url@ != url {
                    let k = choose|k: int| 0 <= k < longer.len() && (#[trigger] longer[k]).url == url;
                    assert(shorter[k].url == url);
                }
            }
            j += 1;
        }
        proof {
            assert(all.take(i + 1).drop_last() =~= all.take(i as int));
            assert(all.take(i + 1).last() == repos[i as int]@);
        }
        if !seen {
            let ghost before = repo_views(unique@);
            unique.push(repos[i].duplicate());
            proof {
                assert(repo_views(unique@) =~= before.push(repos[i as int]@));
            }
        }
        i += 1;
    }
    proof {
        assert(all.take(i as int) =~= all);
    }
    unique
}

/// The descriptors of the first `n` directly named repositories, in
/// configuration order; remotes that are not in SSH form are left out.
pub open spec fn static_repos(base: Seq<char>, repos: Seq<GitSyncConfigRepo>, n: nat) -> Seq<
    RepoInfoView,
>
    decreases n,
{
    if n == 0 || n > repos.len() {
        Seq::empty()
    } else if is_ssh_url(repos[n - 1].url@) {
        static_repos(base, repos, (n - 1) as nat).push(
            mirror_location(base, individual_tag(), repos[n - 1].url@),
        )
    } else {
        static_repos(base, repos, (n - 1) as nat)
    }
}

/// The listing that was obtained for the owner at `index`, if any.
pub open spec fn listing_at(listings: Seq<Option<Vec<String>>>, index: int) -> Option<
    Vec<String>,
> {
    if 0 <= index < listings.len() {
        listings[index]
    } else {
        None
    }
}

/// The descriptors that one owner contributes: those of its listing, under
/// its provider's tag. An owner whose provider is unknown, or whose listing
/// could not be had, contributes nothing.
pub open spec fn owner_repos(
    base: Seq<char>,
    owner: GitSyncConfigOrg,
    listing: Option<Vec<String>>,
) -> Seq<RepoInfoView> {
    match (provider_of(owner.provider@), listing) {
        (Some(provider), Some(listed)) => mapped_listing(base, provider.tag(), listed@),
        _ => Seq::empty(),
    }
}

/// The descriptors of the first `n` owners, in configuration order and,
/// within an owner, in listing order.
pub open spec fn owners_repos(
    base: Seq<char>,
    owners: Seq<GitSyncConfigOrg>,
    listings: Seq<Option<Vec<String>>>,
    n: nat,
) -> Seq<RepoInfoView>
    decreases n,
{
    if n == 0 || n > owners.len() {
        Seq::empty()
    } else {
        owners_repos(base, owners, listings, (n - 1) as nat) + owner_repos(
            base,
            owners[n - 1],
            listing_at(listings, n - 1),
        )
    }
}

/// Everything a cycle works on: the directly named repositories, then
/// those of the owners, with repeated remotes removed.
pub open spec fn discovered_repos(config: GitSyncConfig, listings: Seq<Option<Vec<String>>>) -> Seq<
    RepoInfoView,
> {
    dedup_by_url(
        static_repos(config.path@, config.repos@, config.repos@.len()) + owners_repos(
            config.path@,
            config.owners@,
            listings,
            config.owners@.len(),
        ),
    )
}

/// A descriptor that was made under `base` and the plain tag `tag` from a
/// remote in SSH form.
pub open spec fn mapped_under(repo: RepoInfoView, base: Seq<char>, tag: Seq<char>) -> bool {
    plain_tag(tag) && is_ssh_url(repo.url) && repo == mirror_location(base, tag, repo.url)
}

/// A descriptor that was made under `base` and some plain tag.
pub open spec fn is_mapped(repo: RepoInfoView, base: Seq<char>) -> bool {
    exists|tag: Seq<char>| mapped_under(repo, base, tag)
}

/// Every descriptor of a listing was made under the listing's tag.
pub proof fn lemma_listing_is_mapped(base: Seq<char>, tag: Seq<char>, urls: Seq<String>)
    requires
        plain_tag(tag),
    ensures
        forall|i: int|
            0 <= i < mapped_listing(base, tag, urls).len() ==> mapped_under(
                #[trigger] mapped_listing(base, tag, urls)[i],
                base,
                tag,
            ),
    decreases urls.len(),
{
    if urls.len() > 0 {
        let front = mapped_listing(base, tag, urls.drop_last());
        let whole = mapped_listing(base, tag, urls);
        lemma_listing_is_mapped(base, tag, urls.drop_last());
        assert forall|i: int| 0 <= i < whole.len() implies mapped_under(
            #[trigger] whole[i],
            base,
            tag,
        ) by {
            if i < front.len() {
                assert(whole[i] == front[i]);
            } else {
                assert(whole[i] == mirror_location(base, tag, urls.last()@));
            }
        }
    }
}

/// Every descriptor of a directly named repository was made under the tag
/// of those.
pub proof fn lemma_static_repos_are_mapped(base: Seq<char>, repos: Seq<GitSyncConfigRepo>, n: nat)
    ensures
        forall|i: int|
            0 <= i < static_repos(base, repos, n).len() ==> is_mapped(
                #[trigger] static_repos(base, repos, n)[i],
                base,
            ),
    decreases n,
{
    if n > 0 && n <= repos.len() {
        let front = static_repos(base, repos, (n - 1) as nat);
        let whole = static_repos(base, repos, n);
        lemma_static_repos_are_mapped(base, repos, (n - 1) as nat);
        lemma_tags_are_plain(Provider::GitHubUser, Provider::GitHubUser);
        assert forall|i: int| 0 <= i < whole.len() implies is_mapped(#[trigger] whole[i], base) by {
            if i < front.len() {
                assert(whole[i] == front[i]);
            } else {
                let made = mirror_location(base, individual_tag(), repos[n - 1].url@);
                assert(whole[i] == made);
                assert(mapped_under(made, base, individual_tag()));
            }
        }
    }
}

/// Every descriptor that the owners contribute was made under the tag of
/// a provider.
pub proof fn lemma_owners_repos_are_mapped(
    base: Seq<char>,
    owners: Seq<GitSyncConfigOrg>,
    listings: Seq<Option<Vec<String>>>,
    n: nat,
)
    ensures
        forall|i: int|
            0 <= i < owners_repos(base, owners, listings, n).len() ==> is_mapped(
                #[trigger] owners_repos(base, owners, listings, n)[i],
                base,
            ),
    decreases n,
{
    if n > 0 && n <= owners.len() {
        let front = owners_repos(base, owners, listings, (n - 1) as nat);
        let added = owner_repos(base, owners[n - 1], listing_at(listings, n - 1));
        lemma_owners_repos_are_mapped(base, owners, listings, (n - 1) as nat);
        assert forall|i: int| 0 <= i < (front + added).len() implies is_mapped(
            #[trigger] (front + added)[i],
            base,
        ) by {
            if i < front.len() {
                assert((front + added)[i] == front[i]);
            } else {
                let provider = provider_of(owners[n - 1].provider@)->Some_0;
                let listed = listing_at(listings, n - 1)->Some_0;
                lemma_tags_are_plain(provider, provider);
                lemma_listing_is_mapped(base, provider.tag(), listed@);
                let made = mapped_listing(base, provider.tag(), listed@)[i - front.len()];
                assert((front + added)[i] == made);
                assert(mapped_under(made, base, provider.tag()));
            }
        }
    }
}

/// Every descriptor of a cycle was made by the path mapper under the tag
/// of its source.
pub proof fn lemma_discovered_are_mapped(config: GitSyncConfig, listings: Seq<Option<Vec<String>>>)
    ensures
        forall|i: int|
            0 <= i < discovered_repos(config, listings).len() ==> is_mapped(
                #[trigger] discovered_repos(config, listings)[i],
                config.path@,
            ),
{
    let base = config.path@;
    let first = static_repos(base, config.repos@, config.repos@.len());
    let second = owners_repos(base, config.owners@, listings, config.owners@.len());
    let all = first + second;
    lemma_static_repos_are_mapped(base, config.repos@, config.repos@.len());
    lemma_owners_repos_are_mapped(base, config.owners@, listings, config.owners@.len());
    lemma_dedup_by_url(all);
    let out = dedup_by_url(all);
    assert forall|i: int| 0 <= i < out.len() implies is_mapped(#[trigger] out[i], base) by {
        let at = first_index_of_url(all, out[i].url);
        assert(all[at] == out[i]);
        if at < first.len() {
            assert(all[at] == first[at]);
        } else {
            assert(all[at] == second[at - first.len()]);
        }
    }
}

/// Two repositories of a cycle whose remotes differ in their paths have
/// different mirrors. (So have two that were made under different tags;
/// two whose remotes differ in user or host alone, under one tag, share
/// their mirror.)
pub proof fn lemma_discovered_mirrors_differ(
    config: GitSyncConfig,
    listings: Seq<Option<Vec<String>>>,
    i: int,
    j: int,
)
    requires
        0 <= i < discovered_repos(config, listings).len(),
        0 <= j < discovered_repos(config, listings).len(),
        url_path(discovered_repos(config, listings)[i].url) != url_path(
            discovered_repos(config, listings)[j].url,
        ),
    ensures
        discovered_repos(config, listings)[i].local_repo_path != discovered_repos(
            config,
            listings,
        )[j].local_repo_path,
{
    let found = discovered_repos(config, listings);
    let base = config.path@;
    lemma_discovered_are_mapped(config, listings);
    assert(is_mapped(found[i], base));
    assert(is_mapped(found[j], base));
    let first_tag = choose|tag: Seq<char>| mapped_under(found[i], base, tag);
    let second_tag = choose|tag: Seq<char>| mapped_under(found[j], base, tag);
    lemma_mirrors_differ(base, first_tag, found[i].url, second_tag, found[j].url);
}

/// What starting on an owner gives: the listing of its provider's handler,
/// and nothing for an owner whose provider is unknown.
pub open spec fn starts_owner(
    listing: Option<OwnerListing>,
    base: Seq<char>,
    owner: GitSyncConfigOrg,
) -> bool {
    match provider_of(owner.provider@) {
        Some(provider) => starts_listing(listing, provider, base, owner),
        None => listing is None,
    }
}

/// Hands an owner to the handler of its provider. An owner whose provider
/// is unknown is skipped.
pub fn start_owner_listing(config: &GitSyncConfig, owner: &GitSyncConfigOrg) -> (listing: Option<
    OwnerListing,
>)
    ensures
        starts_owner(listing, config.path@, *owner),
{
    match Provider::from_identifier(&owner.provider) {
        Some(Provider::GitHubUser) => github_user_handler(config, owner),
        Some(Provider::GitHubOrg) => github_org_handler(config, owner),
        Some(Provider::GitLabUser) => gitlab_user_handler(config, owner),
        Some(Provider::GitLabGroup) => gitlab_group_handler(config, owner),
        None => None,
    }
}

/// The descriptors of the directly named repositories. An entry that is
/// not in SSH form is skipped.
pub fn get_static_repos(config: &GitSyncConfig) -> (repos: Vec<RepoInfo>)
    ensures
        repo_views(repos@) == static_repos(config.path@, config.repos@, config.repos@.len()),
{
    let mut repos: Vec<RepoInfo> = Vec::new();
    let mut i: usize = 0;
    while i < config.repos.len()
        invariant
            i <= config.repos.len(),
            repo_views(repos@) =~= static_repos(config.path@, config.repos@, i as nat),
        decreases config.repos.len() - i,
    {
        let ghost before = repo_views(repos@);
        match repo_parser(config, &config.repos[i]) {
            Ok(info) => {
                repos.push(info);
                proof {
                    assert(repo_views(repos@) =~= before.push(info@));
                }
            },
            Err(_) => {},
        }
        i += 1;
    }
    repos
}

/// The descriptors that the owners contribute, given for each owner, by
/// its place in the configuration, the remotes that its provider listed
/// (`None` where nothing was listed).
pub fn get_owner_repos(config: &GitSyncConfig, listings: &Vec<Option<Vec<String>>>) -> (repos: Vec<
    RepoInfo,
>)
    ensures
        repo_views(repos@) == owners_repos(
            config.path@,
            config.owners@,
            listings@,
            config.owners@.len(),
        ),
{
    let mut repos: Vec<RepoInfo> = Vec::new();
    let mut i: usize = 0;
    while i < config.owners.len()
        invariant
            i <= config.owners.len(),
            repo_views(repos@) =~= owners_repos(config.path@, config.owners@, listings@, i as nat),
        decreases config.owners.len() - i,
    {
        let ghost before = repo_views(repos@);
        let owner = &config.owners[i];
        if i < listings.len() {
            match (Provider::from_identifier(&owner.provider), &listings[i]) {
                (Some(provider), Some(listed)) => {
                    let mut found = map_listing(&config.path, provider.identifier(), listed);
                    let ghost added = repo_views(found.repos@);
                    repos.append(&mut found.repos);
                    proof {
                        assert(repo_views(repos@) =~= before + added);
                    }
                },
                _ => {
                    proof {
                        assert(before + Seq::<RepoInfoView>::empty() =~= before);
                    }
                },
            }
        } else {
            proof {
                assert(before + Seq::<RepoInfoView>::empty() =~= before);
            }
        }
        i += 1;
    }
    repos
}

/// The repositories of one cycle: the directly named ones in configuration
/// order, then those of the owners, each remote once.
pub fn get_repos(config: &GitSyncConfig, listings: &Vec<Option<Vec<String>>>) -> (repos: Vec<
    RepoInfo,
>)
    ensures
        repo_views(repos@) == discovered_repos(*config, listings@),
{
    let mut all = get_static_repos(config);
    let mut from_owners = get_owner_repos(config, listings);
    let ghost first = repo_views(all@);
    let ghost second = repo_views(from_owners@);
    all.append(&mut from_owners);
    proof {
        assert(repo_views(all@) =~= first + second);
    }
    dedup_repos(&all)
}

} // verus!

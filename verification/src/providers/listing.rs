//! The providers whose listings can be read, what to ask each of them, and
//! how the answers become repository descriptors.

use crate::config::{GitSyncConfig, GitSyncConfigOrg};
use crate::providers::individual::{is_ssh_url, map_remote};
use crate::providers::pagination::{fetch_start, receive_failure, receive_page, receive_pages};
use crate::providers::pagination::{concat_pages, lemma_stops_at_first_short_page, PAGE_SIZE};
use crate::providers::pagination::{PageFetch, ProviderFetchError};
use crate::providers::individual::individual_tag;
use crate::providers::shared::{mirror_location, plain_tag};
use crate::repo::{repo_views, MalformedUrlError, RepoInfo, RepoInfoView};
use vstd::prelude::*;
use vstd::string::*;

verus! {

/// The kinds of owner whose repositories a provider lists.
#[derive(Clone, Copy, Debug, PartialEq, Eq, Structural)]
pub enum Provider {
    GitHubUser,
    GitHubOrg,
    GitLabUser,
    GitLabGroup,
}

/// The provider that a configured identifier names, if any.
pub open spec fn provider_of(identifier: Seq<char>) -> Option<Provider> {
    if identifier == "github_user"@ {
        Some(Provider::GitHubUser)
    } else if identifier == "github_org"@ {
        Some(Provider::GitHubOrg)
    } else if identifier == "gitlab_user"@ {
        Some(Provider::GitLabUser)
    } else if identifier == "gitlab_group"@ {
        Some(Provider::GitLabGroup)
    } else {
        None
    }
}

impl Provider {
    /// The identifier of the provider, which is also the directory its
    /// mirrors are stored under.
    pub open spec fn tag(self) -> Seq<char> {
        match self {
            Provider::GitHubUser => "github_user"@,
            Provider::GitHubOrg => "github_org"@,
            Provider::GitLabUser => "gitlab_user"@,
            Provider::GitLabGroup => "gitlab_group"@,
        }
    }

    /// The host that answers the listing.
    pub open spec fn host(self) -> Seq<char> {
        match self {
            Provider::GitHubUser | Provider::GitHubOrg => "https://api.github.com"@,
            Provider::GitLabUser | Provider::GitLabGroup => "https://gitlab.com"@,
        }
    }

    /// The path of the listing of `namespace`.
    pub open spec fn listing_path(self, namespace: Seq<char>) -> Seq<char> {
        match self {
            Provider::GitHubUser => "/users/"@ + namespace + "/repos"@,
            Provider::GitHubOrg => "/orgs/"@ + namespace + "/repos"@,
            Provider::GitLabUser => "/api/v4/users/"@ + namespace + "/projects"@,
            Provider::GitLabGroup => "/api/v4/groups/"@ + namespace + "/projects"@,
        }
    }

    /// The query that every page request carries besides its page number.
    pub open spec fn query(self) -> Seq<char> {
        match self {
            Provider::GitLabGroup => "include_subgroups=true&per_page=100"@,
            _ => "per_page=100"@,
        }
    }

    /// The field of a listed item that holds its SSH remote.
    pub open spec fn url_field(self) -> Seq<char> {
        match self {
            Provider::GitHubUser | Provider::GitHubOrg => "ssh_url"@,
            Provider::GitLabUser | Provider::GitLabGroup => "ssh_url_to_repo"@,
        }
    }

    /// Reads a configured identifier.
    pub fn from_identifier(identifier: &String) -> (provider: Option<Provider>)
        ensures
            provider == provider_of(identifier@),
    {
        if identifier.eq(&String::from_str("github_user")) {
            Some(Provider::GitHubUser)
        } else if identifier.eq(&String::from_str("github_org")) {
            Some(Provider::GitHubOrg)
        } else if identifier.eq(&String::from_str("gitlab_user")) {
            Some(Provider::GitLabUser)
        } else if identifier.eq(&String::from_str("gitlab_group")) {
            Some(Provider::GitLabGroup)
        } else {
            None
        }
    }

    /// The identifier of the provider.
    pub fn identifier(self) -> (tag: &'static str)
        ensures
            tag@ == self.tag(),
    {
        match self {
            Provider::GitHubUser => "github_user",
            Provider::GitHubOrg => "github_org",
            Provider::GitLabUser => "gitlab_user",
            Provider::GitLabGroup => "gitlab_group",
        }
    }

    /// The host that answers the listing.
    pub fn default_host(self) -> (host: &'static str)
        ensures
            host@ == self.host(),
    {
        match self {
            Provider::GitHubUser | Provider::GitHubOrg => "https://api.github.com",
            Provider::GitLabUser | Provider::GitLabGroup => "https://gitlab.com",
        }
    }

    /// The query that every page request carries besides its page number.
    pub fn fixed_query(self) -> (query: &'static str)
        ensures
            query@ == self.query(),
    {
        match self {
            Provider::GitLabGroup => "include_subgroups=true&per_page=100",
            _ => "per_page=100",
        }
    }

    /// The field of a listed item that holds its SSH remote.
    pub fn item_url_field(self) -> (field: &'static str)
        ensures
            field@ == self.url_field(),
    {
        match self {
            Provider::GitHubUser | Provider::GitHubOrg => "ssh_url",
            Provider::GitLabUser | Provider::GitLabGroup => "ssh_url_to_repo",
        }
    }

    /// The path of the listing of `namespace`.
    pub fn path_for(self, namespace: &str) -> (path: String)
        ensures
            path@ == self.listing_path(namespace@),
    {
        let (front, back) = match self {
            Provider::GitHubUser => ("/users/", "/repos"),
            Provider::GitHubOrg => ("/orgs/", "/repos"),
            Provider::GitLabUser => ("/api/v4/users/", "/projects"),
            Provider::GitLabGroup => ("/api/v4/groups/", "/projects"),
        };
        let mut path = String::from_str(front);
        path.append(namespace);
        path.append(back);
        path
    }
}

/// The tag of every provider, and that of the directly named
/// repositories, names one directory; and no two of them are the same.
pub proof fn lemma_tags_are_plain(first: Provider, second: Provider)
    ensures
        plain_tag(first.tag()),
        plain_tag(individual_tag()),
        first.tag() != individual_tag(),
        first != second ==> first.tag() != second.tag(),
{
    reveal_strlit("github_user");
    reveal_strlit("github_org");
    reveal_strlit("gitlab_user");
    reveal_strlit("gitlab_group");
    reveal_strlit("individual");
    assert("github_user"@.len() == 11 && "github_org"@.len() == 10);
    assert("gitlab_user"@.len() == 11 && "gitlab_group"@.len() == 12);
    assert("individual"@.len() == 10);
    assert("github_user"@[3] == 'h' && "gitlab_user"@[3] == 'l');
    assert("github_org"@[3] == 'h' && "individual"@[3] == 'i');
}

/// The longest text, in characters, that is handed over as one part of an
/// address.
pub const MAX_URL_PART: usize = 0x0100_0000;

/// What `url` makes of a host with its path and query replaced: `None`
/// when the host cannot be parsed, else the address as text.
pub uninterp spec fn composed_url(host: Seq<char>, path: Seq<char>, query: Seq<char>) -> Option<
    Seq<char>,
>;

/// No part is longer than `MAX_URL_PART`.
pub open spec fn parts_fit(host: Seq<char>, path: Seq<char>, query: Seq<char>) -> bool {
    host.len() <= MAX_URL_PART && path.len() <= MAX_URL_PART && query.len() <= MAX_URL_PART
}

/// The address that `create_url` gives: that of `url` where every part
/// fits, none otherwise.
pub open spec fn created_url(host: Seq<char>, path: Seq<char>, query: Seq<char>) -> Option<
    Seq<char>,
> {
    if parts_fit(host, path, query) {
        composed_url(host, path, query)
    } else {
        None
    }
}

/// Calls `url::Url::parse` on `host`, then `Url::set_path` and
/// `Url::set_query` on the result, and reads it back with `Url::as_str`.
/// Trusted: the text is the one `url` gives for these three parts. The
/// parts are bounded because `url` counts positions in 32 bits and stops
/// the program when an address outgrows them.
#[verifier::external_body]
fn compose_url(host: &str, path: &str, query: &str) -> (address: Option<String>)
    requires
        parts_fit(host@, path@, query@),
    ensures
        address is Some <==> composed_url(host@, path@, query@) is Some,
        address matches Some(text) ==> composed_url(host@, path@, query@) == Some(text@),
{
    match url::Url::parse(host) {
        Ok(mut parsed) => {
            parsed.set_path(path);
            parsed.set_query(Some(query));
            Some(parsed.as_str().to_string())
        },
        Err(_) => None,
    }
}

/// The address of `path` and `query` on `host`, or `None` when a part is
/// too long or the host cannot be parsed.
pub fn create_url(host: &str, path: &str, query: &str) -> (address: Option<String>)
    ensures
        address is Some <==> created_url(host@, path@, query@) is Some,
        address matches Some(text) ==> created_url(host@, path@, query@) == Some(text@),
{
    if host.unicode_len() > MAX_URL_PART || path.unicode_len() > MAX_URL_PART
        || query.unicode_len() > MAX_URL_PART {
        None
    } else {
        compose_url(host, path, query)
    }
}

/// One header of a request.
#[derive(Clone, Debug, PartialEq)]
pub struct Header {
    pub name: String,
    pub value: String,
}

/// What to ask a provider for: the address of the listing without its page
/// number, the headers to send, and the field of each item to read.
#[derive(Clone, Debug, PartialEq)]
pub struct ListingRequest {
    pub url: String,
    pub headers: Vec<Header>,
    pub url_field: String,
}

/// Names and values of a list of headers, in order.
pub open spec fn header_texts(headers: Seq<Header>) -> Seq<(Seq<char>, Seq<char>)> {
    Seq::new(headers.len(), |i: int| (headers[i].name@, headers[i].value@))
}

/// The text of an optional token.
pub open spec fn token_text(token: Option<String>) -> Option<Seq<char>> {
    match token {
        Some(t) => Some(t@),
        None => None,
    }
}

/// The headers of a listing request: GitHub wants to be told the media type
/// and who asks; a token, where there is one, is sent as a bearer token.
pub open spec fn listing_headers(
    provider: Provider,
    namespace: Seq<char>,
    token: Option<Seq<char>>,
) -> Seq<(Seq<char>, Seq<char>)> {
    let fixed = match provider {
        Provider::GitHubUser | Provider::GitHubOrg => seq![
            ("Accept"@, "application/vnd.github.v3+json"@),
            ("User-Agent"@, namespace),
        ],
        _ => Seq::empty(),
    };
    match token {
        Some(t) => fixed.push(("Authorization"@, "Bearer "@ + t)),
        None => fixed,
    }
}

/// The address of the listing of `namespace`, where one can be made.
pub open spec fn listing_url(provider: Provider, namespace: Seq<char>) -> Option<Seq<char>> {
    created_url(provider.host(), provider.listing_path(namespace), provider.query())
}

/// The headers to send when listing the repositories of `owner`.
pub fn headers_for(provider: Provider, owner: &GitSyncConfigOrg) -> (headers: Vec<Header>)
    ensures
        header_texts(headers@) == listing_headers(
            provider,
            owner.namespace@,
            token_text(owner.auth_token),
        ),
{
    let mut headers: Vec<Header> = Vec::new();
    match provider {
        Provider::GitHubUser | Provider::GitHubOrg => {
            headers.push(
                Header {
                    name: String::from_str("Accept"),
                    value: String::from_str("application/vnd.github.v3+json"),
                },
            );
            headers.push(
                Header { name: String::from_str("User-Agent"), value: owner.namespace.clone() },
            );
        },
        _ => {},
    }
    match &owner.auth_token {
        Some(token) => {
            let mut value = String::from_str("Bearer ");
            value.append(token.as_str());
            headers.push(Header { name: String::from_str("Authorization"), value });
        },
        None => {},
    }
    proof {
        assert(header_texts(headers@) =~= listing_headers(
            provider,
            owner.namespace@,
            token_text(owner.auth_token),
        ));
    }
    headers
}

/// Puts a request together from the address that was made for it.
pub fn assemble_request(provider: Provider, owner: &GitSyncConfigOrg, url: String) -> (request:
    ListingRequest)
    ensures
        request.url == url,
        header_texts(request.headers@) == listing_headers(
            provider,
            owner.namespace@,
            token_text(owner.auth_token),
        ),
        request.url_field@ == provider.url_field(),
{
    ListingRequest {
        url,
        headers: headers_for(provider, owner),
        url_field: String::from_str(provider.item_url_field()),
    }
}

/// What to ask `provider` for to list the repositories of `owner`, or
/// `None` when no address can be made for it.
pub fn listing_request(provider: Provider, owner: &GitSyncConfigOrg) -> (request: Option<
    ListingRequest,
>)
    ensures
        request is Some <==> listing_url(provider, owner.namespace@) is Some,
        request matches Some(r) ==> {
            &&& listing_url(provider, owner.namespace@) == Some(r.url@)
            &&& header_texts(r.headers@) == listing_headers(
                provider,
                owner.namespace@,
                token_text(owner.auth_token),
            )
            &&& r.url_field@ == provider.url_field()
        },
{
    let path = provider.path_for(owner.namespace.as_str());
    match create_url(provider.default_host(), path.as_str(), provider.fixed_query()) {
        Some(url) => Some(assemble_request(provider, owner, url)),
        None => None,
    }
}

/// The descriptors of the well-formed remotes of a listing, in listing
/// order; remotes that are not in SSH form are left out.
pub open spec fn mapped_listing(base: Seq<char>, tag: Seq<char>, urls: Seq<String>) -> Seq<
    RepoInfoView,
>
    decreases urls.len(),
{
    if urls.len() == 0 {
        Seq::empty()
    } else if is_ssh_url(urls.last()@) {
        mapped_listing(base, tag, urls.drop_last()).push(mirror_location(base, tag, urls.last()@))
    } else {
        mapped_listing(base, tag, urls.drop_last())
    }
}

/// The remotes of a listing that are not in SSH form, in listing order.
pub open spec fn refused_listing(urls: Seq<String>) -> Seq<Seq<char>>
    decreases urls.len(),
{
    if urls.len() == 0 {
        Seq::empty()
    } else if is_ssh_url(urls.last()@) {
        refused_listing(urls.drop_last())
    } else {
        refused_listing(urls.drop_last()).push(urls.last()@)
    }
}

/// The remotes that a list of refusals names, in order.
pub open spec fn refused_urls(refused: Seq<MalformedUrlError>) -> Seq<Seq<char>> {
    Seq::new(refused.len(), |i: int| refused[i].url@)
}

/// What a listing gave: the descriptors, and the remotes that were refused.
pub struct Discovery {
    pub repos: Vec<RepoInfo>,
    pub refused: Vec<MalformedUrlError>,
}

/// Maps every remote of a listing. One that is not in SSH form is set
/// aside and the rest is mapped all the same.
pub fn map_listing(base_path: &String, tag: &str, urls: &Vec<String>) -> (found: Discovery)
    ensures
        repo_views(found.repos@) == mapped_listing(base_path@, tag@, urls@),
        refused_urls(found.refused@) == refused_listing(urls@),
{
    let mut repos: Vec<RepoInfo> = Vec::new();
    let mut refused: Vec<MalformedUrlError> = Vec::new();
    let mut i: usize = 0;
    while i < urls.len()
        invariant
            i <= urls.len(),
            repo_views(repos@) =~= mapped_listing(base_path@, tag@, urls@.take(i as int)),
            refused_urls(refused@) =~= refused_listing(urls@.take(i as int)),
        decreases urls.len() - i,
    {
        proof {
            assert(urls@.take(i + 1).drop_last() =~= urls@.take(i as int));
        }
        let ghost repos_before = repo_views(repos@);
        let ghost refused_before = refused_urls(refused@);
        match map_remote(base_path, tag, &urls[i]) {
            Ok(info) => {
                repos.push(info);
                proof {
                    assert(repo_views(repos@) =~= repos_before.push(info@));
                }
            },
            Err(e) => {
                refused.push(e);
                proof {
                    assert(refused_urls(refused@) =~= refused_before.push(e.url@));
                }
            },
        }
        i += 1;
    }
    proof {
        assert(urls@.take(i as int) =~= urls@);
    }
    Discovery { repos, refused }
}

/// The remotes of each answer, in order.
pub open spec fn answer_texts(answers: Seq<Vec<String>>) -> Seq<Seq<String>> {
    Seq::new(answers.len(), |i: int| answers[i]@)
}

/// A copy of a list of remotes.
pub fn copy_remotes(remotes: &Vec<String>) -> (copy: Vec<String>)
    ensures
        copy@ == remotes@,
{
    let mut copy: Vec<String> = Vec::new();
    let mut i: usize = 0;
    while i < remotes.len()
        invariant
            i <= remotes.len(),
            copy@ =~= remotes@.take(i as int),
        decreases remotes.len() - i,
    {
        copy.push(remotes[i].clone());
        i += 1;
    }
    copy
}

/// The listing of one owner while it is being read: which provider is
/// asked, where the mirrors go, what every page request carries, and what
/// has arrived so far.
pub struct OwnerListing {
    pub provider: Provider,
    pub base_path: String,
    pub request: ListingRequest,
    pub fetch: PageFetch,
}

/// What starting the listing of `owner` at `provider` gives: nothing where
/// no address can be made; else a listing of which nothing was asked yet,
/// whose every request goes to the provider's host, path and query for the
/// owner's namespace and carries the provider's headers.
pub open spec fn starts_listing(
    listing: Option<OwnerListing>,
    provider: Provider,
    base: Seq<char>,
    owner: GitSyncConfigOrg,
) -> bool {
    &&& listing is Some <==> listing_url(provider, owner.namespace@) is Some
    &&& listing matches Some(l) ==> {
        &&& l.provider == provider
        &&& l.base_path@ == base
        &&& listing_url(provider, owner.namespace@) == Some(l.request.url@)
        &&& header_texts(l.request.headers@) == listing_headers(
            provider,
            owner.namespace@,
            token_text(owner.auth_token),
        )
        &&& l.request.url_field@ == provider.url_field()
        &&& l.fetch@ == fetch_start()
        &&& l.fetch.wf()
    }
}

/// What reading `answers` into the listing `before` gives: the listing
/// `after` with the same request, every answer received in order, and the
/// page numbers `asked`, which go up by one from the first page not yet
/// asked for, one for each request made.
pub open spec fn replayed(
    before: OwnerListing,
    after: OwnerListing,
    answers: Seq<Vec<String>>,
    asked: Seq<usize>,
) -> bool {
    &&& after.provider == before.provider
    &&& after.base_path == before.base_path
    &&& after.request == before.request
    &&& after.fetch@ == receive_pages(before.fetch@, answer_texts(answers))
    &&& after.fetch.failure == before.fetch.failure
    &&& asked.len() == after.fetch.requests - before.fetch.requests
    &&& forall|i: int| 0 <= i < asked.len() ==> asked[i] == before.fetch.requests + 1 + i
}

/// A listing read from its start ends with the first answer that is not
/// full. Up to and including that answer one request was made per answer,
/// for the pages one, two, three and so on, each with the address and
/// headers the listing started with; the listing holds the remotes of
/// exactly those answers.
pub proof fn lemma_requests_until_short_answer(
    before: OwnerListing,
    after: OwnerListing,
    answers: Seq<Vec<String>>,
    asked: Seq<usize>,
    k: int,
)
    requires
        before.fetch@ == fetch_start(),
        replayed(before, after, answers, asked),
        0 <= k < answers.len(),
        forall|i: int| 0 <= i < k ==> (#[trigger] answers[i])@.len() >= PAGE_SIZE,
        answers[k]@.len() < PAGE_SIZE,
    ensures
        asked.len() == k + 1,
        forall|i: int| 0 <= i < asked.len() ==> asked[i] == i + 1,
        after.request == before.request,
        after.fetch.finished,
        !after.fetch@.failed,
        after.fetch@.items == concat_pages(answer_texts(answers).take(k + 1)),
{
    let texts = answer_texts(answers);
    assert forall|i: int| 0 <= i < k implies (#[trigger] texts[i]).len() >= PAGE_SIZE by {
        assert(texts[i] == answers[i]@);
    }
    lemma_stops_at_first_short_page(texts, k);
}

impl OwnerListing {
    /// The pages received so far are in order.
    pub open spec fn wf(&self) -> bool {
        self.fetch.wf()
    }

    /// Tests `wf` on a value that was put together by hand.
    pub fn is_wf(&self) -> (ok: bool)
        ensures
            ok == self.wf(),
    {
        self.fetch.is_wf()
    }

    /// Starts the listing of `owner` at `provider`.
    pub fn begin(provider: Provider, config: &GitSyncConfig, owner: &GitSyncConfigOrg) -> (listing:
        Option<OwnerListing>)
        ensures
            starts_listing(listing, provider, config.path@, *owner),
    {
        match listing_request(provider, owner) {
            Some(request) => Some(
                OwnerListing {
                    provider,
                    base_path: config.path.clone(),
                    request,
                    fetch: PageFetch::new(),
                },
            ),
            None => None,
        }
    }

    /// The number of the page to send the request for next, counted from
    /// one; `None` once the listing is finished.
    pub fn next_page(&self) -> (page: Option<usize>)
        requires
            self.wf(),
        ensures
            self.fetch.finished ==> page is None,
            !self.fetch.finished ==> page == Some((self.fetch.requests + 1) as usize),
    {
        self.fetch.next_page()
    }

    /// Takes the remotes of the page that was asked for. The request stays
    /// as it is.
    pub fn receive(&mut self, items: Vec<String>)
        requires
            old(self).wf(),
        ensures
            final(self).wf(),
            final(self).provider == old(self).provider,
            final(self).base_path == old(self).base_path,
            final(self).request == old(self).request,
            final(self).fetch@ == receive_page(old(self).fetch@, items@),
            final(self).fetch.failure == old(self).fetch.failure,
    {
        self.fetch.receive(items);
    }

    /// Records that the page that was asked for could not be had, which
    /// ends the listing.
    pub fn receive_error(&mut self, reason: String)
        requires
            old(self).wf(),
        ensures
            final(self).wf(),
            final(self).provider == old(self).provider,
            final(self).base_path == old(self).base_path,
            final(self).request == old(self).request,
            final(self).fetch@ == receive_failure(old(self).fetch@),
            !old(self).fetch.finished ==> final(self).fetch.failure == Some(reason),
            old(self).fetch.finished ==> final(self).fetch.failure == old(self).fetch.failure,
    {
        self.fetch.receive_error(reason);
    }

    /// Reads the listing from answers that are at hand, the first for the
    /// first request made, and gives the page numbers that were asked for.
    /// One request is made per answer, each with the next page number and
    /// all with the same address and headers, until an answer ends the
    /// listing; answers behind that one are not asked for.
    pub fn replay(&mut self, answers: &Vec<Vec<String>>) -> (asked: Vec<usize>)
        requires
            old(self).wf(),
        ensures
            final(self).wf(),
            replayed(*old(self), *final(self), answers@, asked@),
    {
        let ghost texts = answer_texts(answers@);
        let ghost start = self.fetch@;
        let mut asked: Vec<usize> = Vec::new();
        let mut i: usize = 0;
        while i < answers.len()
            invariant
                i <= answers.len(),
                self.wf(),
                texts == answer_texts(answers@),
                start == old(self).fetch@,
                self.provider == old(self).provider,
                self.base_path == old(self).base_path,
                self.request == old(self).request,
                self.fetch.failure == old(self).fetch.failure,
                self.fetch@ == receive_pages(start, texts.take(i as int)),
                asked@.len() == self.fetch.requests - old(self).fetch.requests,
                forall|k: int|
                    0 <= k < asked@.len() ==> asked@[k] == old(self).fetch.requests + 1 + k,
            decreases answers.len() - i,
        {
            proof {
                assert(texts.take(i + 1).drop_last() =~= texts.take(i as int));
                assert(texts.take(i + 1).last() == answers@[i as int]@);
            }
            match self.next_page() {
                Some(page) => {
                    asked.push(page);
                    self.receive(copy_remotes(&answers[i]));
                },
                None => {
                    proof {
                        assert(receive_page(self.fetch@, answers@[i as int]@) == self.fetch@);
                    }
                },
            }
            i += 1;
        }
        proof {
            assert(texts.take(i as int) =~= texts);
        }
        asked
    }

    /// The descriptors of everything that was listed, stored under the
    /// provider's tag, or the failure that ended the listing.
    pub fn finish(self) -> (outcome: Result<Discovery, ProviderFetchError>)
        requires
            self.wf(),
        ensures
            outcome is Err <==> self.fetch@.failed,
            outcome matches Ok(found) ==> {
                &&& repo_views(found.repos@) == mapped_listing(
                    self.base_path@,
                    self.provider.tag(),
                    self.fetch@.items,
                )
                &&& refused_urls(found.refused@) == refused_listing(self.fetch@.items)
            },
            outcome matches Err(e) ==> Some(e.reason) == self.fetch.failure && e.page
                == self.fetch.requests,
    {
        let provider = self.provider;
        let base_path = self.base_path;
        match self.fetch.into_result() {
            Ok(listed) => Ok(map_listing(&base_path, provider.identifier(), &listed)),
            Err(e) => Err(e),
        }
    }
}

} // verus!

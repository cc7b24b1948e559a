//! Repositories that the configuration names one by one.

use crate::config::{GitSyncConfig, GitSyncConfigRepo};
use crate::providers::shared::{locate_repo, mirror_location, splits_as_ssh};
use crate::repo::{MalformedUrlError, RepoInfo};
use vstd::prelude::*;

verus! {

/// What `regex` answers for a pattern and a haystack: `None` when the pattern
/// does not compile, else whether it matches somewhere in the haystack.
pub uninterp spec fn regex_match(pattern: Seq<char>, haystack: Seq<char>) -> Option<bool>;

/// The pattern every remote has to match: something, `@`, something, `:`, a
/// word character, something.
pub open spec fn ssh_pattern() -> Seq<char> {
    ".+@.+:\\w.+"@
}

/// A remote in SSH form: it matches the pattern, can be split, and its path
/// is well formed.
pub open spec fn is_ssh_url(url: Seq<char>) -> bool {
    regex_match(ssh_pattern(), url) == Some(true) && splits_as_ssh(url)
}

/// The tag under which directly named repositories are stored.
pub open spec fn individual_tag() -> Seq<char> {
    "individual"@
}

/// What mapping `url` under `base` and `tag` has to give: its descriptor
/// when it is in SSH form, and a refusal that names it when it is not.
pub open spec fn is_mapping_of(
    located: Result<RepoInfo, MalformedUrlError>,
    base: Seq<char>,
    tag: Seq<char>,
    url: Seq<char>,
) -> bool {
    match located {
        Ok(info) => is_ssh_url(url) && info@ == mirror_location(base, tag, url),
        Err(e) => !is_ssh_url(url) && e.url@ == url,
    }
}

/// Mapping is a function of the base, the tag and the remote: whenever and
/// in whatever order it is done, it accepts or refuses alike and gives the
/// same three texts.
pub proof fn lemma_mapping_is_deterministic(
    first: Result<RepoInfo, MalformedUrlError>,
    second: Result<RepoInfo, MalformedUrlError>,
    base: Seq<char>,
    tag: Seq<char>,
    url: Seq<char>,
)
    requires
        is_mapping_of(first, base, tag, url),
        is_mapping_of(second, base, tag, url),
    ensures
        first is Ok <==> second is Ok,
        first is Ok ==> first->Ok_0@ == second->Ok_0@,
        first is Err ==> first->Err_0.url@ == second->Err_0.url@,
{
}

/// Calls `regex::Regex::new` on `pattern` and, where that compiles,
/// `Regex::is_match` on `haystack`. Trusted: the answer is the one `regex`
/// gives for these two texts, which depends on nothing else.
#[verifier::external_body]
fn pattern_matches(pattern: &str, haystack: &str) -> (answer: Option<bool>)
    ensures
        answer == regex_match(pattern@, haystack@),
{
    match regex::Regex::new(pattern) {
        Ok(compiled) => Some(compiled.is_match(haystack)),
        Err(_) => None,
    }
}

/// Whether `url` matches the SSH pattern.
pub fn matches_ssh_pattern(url: &str) -> (matched: bool)
    ensures
        matched == (regex_match(ssh_pattern(), url@) == Some(true)),
{
    match pattern_matches(".+@.+:\\w.+", url) {
        Some(answer) => answer,
        None => false,
    }
}

/// Maps a remote found under the source `tag` to its descriptor; a remote
/// that is not in SSH form is refused.
pub fn map_remote(base_path: &String, tag: &str, url: &String) -> (located: Result<
    RepoInfo,
    MalformedUrlError,
>)
    ensures
        is_mapping_of(located, base_path@, tag@, url@),
{
    let matched = matches_ssh_pattern(url.as_str());
    locate_repo(base_path, tag, url, matched)
}

/// The descriptor of a directly named repository.
pub fn repo_parser(config: &GitSyncConfig, repo: &GitSyncConfigRepo) -> (located: Result<
    RepoInfo,
    MalformedUrlError,
>)
    ensures
        is_mapping_of(located, config.path@, individual_tag(), repo.url@),
{
    map_remote(&config.path, "individual", &repo.url)
}

} // verus!

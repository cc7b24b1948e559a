//! Text-level helpers shared by every repository source: splitting an
//! SSH-style remote and composing local mirror paths.

use crate::repo::{MalformedUrlError, RepoInfo, RepoInfoView};
use vstd::prelude::*;
use vstd::string::*;

verus! {

/// Index of the last occurrence of `c` in `s`, or `-1` when `c` does not occur.
pub open spec fn last_index_of(s: Seq<char>, c: char) -> int
    decreases s.len(),
{
    if s.len() == 0 {
        -1
    } else if s.last() == c {
        s.len() - 1
    } else {
        last_index_of(s.drop_last(), c)
    }
}

/// `last_index_of` really is the last index: it holds `c`, and nothing behind it does.
pub proof fn lemma_last_index_of(s: Seq<char>, c: char)
    ensures
        -1 <= last_index_of(s, c) < s.len(),
        last_index_of(s, c) >= 0 ==> s[last_index_of(s, c)] == c,
        forall|j: int| last_index_of(s, c) < j < s.len() ==> s[j] != c,
    decreases s.len(),
{
    if s.len() > 0 && s.last() != c {
        let front = s.drop_last();
        lemma_last_index_of(front, c);
        assert forall|j: int| last_index_of(s, c) < j < s.len() implies s[j] != c by {
            if j < front.len() {
                assert(front[j] == s[j]);
            }
        }
    }
}

/// The text behind the last `c`; all of `s` when `c` does not occur.
pub open spec fn after_last(s: Seq<char>, c: char) -> Seq<char> {
    s.subrange(last_index_of(s, c) + 1, s.len() as int)
}

/// The text in front of the last `c`; empty when `c` does not occur.
pub open spec fn before_last(s: Seq<char>, c: char) -> Seq<char> {
    if last_index_of(s, c) >= 0 {
        s.subrange(0, last_index_of(s, c))
    } else {
        Seq::empty()
    }
}

/// What is left of a remote once everything up to its last `@` is dropped.
pub open spec fn url_remainder(url: Seq<char>) -> Seq<char> {
    after_last(url, '@')
}

/// A remote can be split when its remainder holds a colon.
pub open spec fn has_segments(url: Seq<char>) -> bool {
    last_index_of(url_remainder(url), ':') >= 0
}

/// The final colon-delimited segment of the remainder.
pub open spec fn url_path(url: Seq<char>) -> Seq<char> {
    after_last(url_remainder(url), ':')
}

/// The colon-delimited segment in front of the final one.
pub open spec fn url_namespace(url: Seq<char>) -> Seq<char> {
    after_last(before_last(url_remainder(url), ':'), ':')
}

/// Finds the last occurrence of `c` in `s`.
pub fn find_last(s: &str, c: char) -> (found: Option<usize>)
    ensures
        match found {
            Some(i) => i as int == last_index_of(s@, c),
            None => last_index_of(s@, c) == -1,
        },
{
    let n: usize = s.unicode_len();
    let mut found: Option<usize> = None;
    let mut i: usize = 0;
    while i < n
        invariant
            i <= n,
            n == s@.len(),
            match found {
                Some(k) => k as int == last_index_of(s@.take(i as int), c),
                None => last_index_of(s@.take(i as int), c) == -1,
            },
        decreases n - i,
    {
        proof {
            assert(s@.take(i + 1).drop_last() =~= s@.take(i as int));
        }
        if s.get_char(i) == c {
            found = Some(i);
        }
        i += 1;
    }
    proof {
        assert(s@.take(n as int) =~= s@);
    }
    found
}

/// Splits a remote into `(namespace, path)`, or gives `None` when its
/// remainder holds no colon.
pub fn split_git_ssh_url(url: &str) -> (segments: Option<(String, String)>)
    ensures
        segments is Some <==> has_segments(url@),
        segments matches Some(pair) ==> pair.0@ == url_namespace(url@) && pair.1@ == url_path(
            url@,
        ),
{
    let n: usize = url.unicode_len();
    proof {
        lemma_last_index_of(url@, '@');
    }
    let start: usize = match find_last(url, '@') {
        Some(i) => i + 1,
        None => 0,
    };
    let rest = url.substring_char(start, n);
    let m: usize = rest.unicode_len();
    proof {
        lemma_last_index_of(rest@, ':');
    }
    match find_last(rest, ':') {
        None => None,
        Some(k) => {
            let path = rest.substring_char(k + 1, m);
            let front = rest.substring_char(0, k);
            let front_len: usize = front.unicode_len();
            proof {
                lemma_last_index_of(front@, ':');
            }
            let from: usize = match find_last(front, ':') {
                Some(j) => j + 1,
                None => 0,
            };
            let namespace = front.substring_char(from, front_len);
            Some((namespace.to_owned(), path.to_owned()))
        },
    }
}

/// Splits a remote into `(namespace, path)`: the remainder behind the last
/// `@` is cut at its colons, the final piece is the path and the piece in
/// front of it the namespace.
pub fn get_git_ssh_url_segments(url: &String) -> (segments: (String, String))
    requires
        has_segments(url@),
    ensures
        segments.0@ == url_namespace(url@),
        segments.1@ == url_path(url@),
{
    match split_git_ssh_url(url.as_str()) {
        Some(pair) => pair,
        None => {
            proof {
                assert(false);
            }
            (String::new(), String::new())
        },
    }
}

/// One more segment behind `base`. A segment that starts at the root
/// replaces what was there; otherwise a single separator stands between the
/// two, unless `base` is empty or already ends in one.
pub open spec fn push_segment(base: Seq<char>, segment: Seq<char>) -> Seq<char> {
    if segment.len() > 0 && segment[0] == '/' {
        segment
    } else if base.len() == 0 || base.last() == '/' {
        base + segment
    } else {
        base + seq!['/'] + segment
    }
}

/// `base` with every segment pushed behind it, first to last.
pub open spec fn join_path(base: Seq<char>, segments: Seq<Seq<char>>) -> Seq<char>
    decreases segments.len(),
{
    if segments.len() == 0 {
        base
    } else {
        push_segment(join_path(base, segments.drop_last()), segments.last())
    }
}

/// The text of each string of `segments`.
pub open spec fn segment_texts(segments: Seq<String>) -> Seq<Seq<char>> {
    Seq::new(segments.len(), |i: int| segments[i]@)
}

/// The folder that holds `path`. The empty path and the root have none; a
/// path without a separator lies in the empty folder, a path directly
/// under the root in the root, and any other in the text in front of its
/// last separator.
pub open spec fn parent_folder(path: Seq<char>) -> Option<Seq<char>> {
    let last = last_index_of(path, '/');
    if path.len() == 0 || path == seq!['/'] {
        None
    } else if last < 0 {
        Some(Seq::empty())
    } else if last == 0 {
        Some(seq!['/'])
    } else {
        Some(path.subrange(0, last))
    }
}

/// Pushes one segment behind `path`.
pub fn push_to_path(path: String, segment: &str) -> (joined: String)
    ensures
        joined@ == push_segment(path@, segment@),
{
    let segment_len: usize = segment.unicode_len();
    if segment_len > 0 && segment.get_char(0) == '/' {
        return segment.to_owned();
    }
    let path_len: usize = path.as_str().unicode_len();
    let mut joined = path;
    if path_len > 0 && joined.as_str().get_char(path_len - 1) != '/' {
        proof {
            reveal_strlit("/");
            assert("/"@ =~= seq!['/']);
        }
        joined.append("/");
    }
    joined.append(segment);
    joined
}

/// Builds the path that lies under `base_path` along `path_segments`.
pub fn add_to_path(base_path: &String, path_segments: &Vec<String>) -> (path: String)
    ensures
        path@ == join_path(base_path@, segment_texts(path_segments@)),
{
    let mut path = base_path.clone();
    let ghost texts = segment_texts(path_segments@);
    let mut i: usize = 0;
    while i < path_segments.len()
        invariant
            i <= path_segments.len(),
            texts == segment_texts(path_segments@),
            path@ == join_path(base_path@, texts.take(i as int)),
        decreases path_segments.len() - i,
    {
        proof {
            assert(texts.take(i + 1).drop_last() =~= texts.take(i as int));
        }
        path = push_to_path(path, path_segments[i].as_str());
        i += 1;
    }
    proof {
        assert(texts.take(i as int) =~= texts);
    }
    path
}

/// The folder that holds `path`, or `None` for the empty path and the root.
pub fn find_parent_folder(path: &str) -> (folder: Option<String>)
    ensures
        folder is Some <==> parent_folder(path@) is Some,
        folder matches Some(f) ==> parent_folder(path@) == Some(f@),
{
    proof {
        lemma_last_index_of(path@, '/');
        reveal_strlit("/");
        assert("/"@ =~= seq!['/']);
    }
    let length: usize = path.unicode_len();
    if length == 0 {
        return None;
    }
    match find_last(path, '/') {
        None => Some(String::new()),
        Some(i) => {
            if i > 0 {
                Some(path.substring_char(0, i).to_owned())
            } else if length == 1 {
                proof {
                    assert(path@ =~= seq!['/']);
                }
                None
            } else {
                Some(String::from_str("/"))
            }
        },
    }
}

/// The folder that holds `path`, which is neither empty nor the root.
pub fn get_parent_folder(path: &String) -> (folder: String)
    requires
        parent_folder(path@) is Some,
    ensures
        parent_folder(path@) == Some(folder@),
{
    match find_parent_folder(path.as_str()) {
        Some(folder) => folder,
        None => {
            proof {
                assert(false);
            }
            String::new()
        },
    }
}

/// A remote path of the shape `<something>/<something>`: it holds a
/// separator and neither starts nor ends with one.
pub open spec fn well_formed_path(path: Seq<char>) -> bool {
    &&& path.len() > 0
    &&& path[0] != '/'
    &&& path.last() != '/'
    &&& last_index_of(path, '/') >= 0
}

/// A remote of the shape `<user>@<host>:<something>/<something>`: something
/// stands in front of its last `@`, what follows can be split, the segment
/// in front of the path is not empty, and the path is well formed.
pub open spec fn splits_as_ssh(url: Seq<char>) -> bool {
    &&& last_index_of(url, '@') >= 1
    &&& has_segments(url)
    &&& url_namespace(url).len() > 0
    &&& well_formed_path(url_path(url))
}

/// A text without `@` is no SSH remote, whatever else it holds.
pub proof fn lemma_remote_needs_user(url: Seq<char>)
    requires
        forall|i: int| 0 <= i < url.len() ==> url[i] != '@',
    ensures
        !splits_as_ssh(url),
{
    lemma_last_index_of(url, '@');
}

/// The mirror of `url`: under `base`, then under the tag of the source that
/// named it, at the remote's path.
pub open spec fn local_repo_path(base: Seq<char>, tag: Seq<char>, url: Seq<char>) -> Seq<char> {
    join_path(base, seq![tag, url_path(url)])
}

/// The descriptor of `url`: its mirror, and the text in front of the
/// mirror's last separator as the folder that holds it.
pub open spec fn mirror_location(base: Seq<char>, tag: Seq<char>, url: Seq<char>) -> RepoInfoView {
    RepoInfoView {
        url,
        local_folder_path: before_last(local_repo_path(base, tag, url), '/'),
        local_repo_path: local_repo_path(base, tag, url),
    }
}

/// A text that holds `c` somewhere has a last index of `c`.
pub proof fn lemma_occurrence_bounds_last(s: Seq<char>, c: char, i: int)
    requires
        0 <= i < s.len(),
        s[i] == c,
    ensures
        i <= last_index_of(s, c) < s.len(),
{
    lemma_last_index_of(s, c);
}

/// The folder of a descriptor is the parent of its mirror, and the mirror
/// ends with the remote's path.
pub proof fn lemma_folder_is_parent(base: Seq<char>, tag: Seq<char>, url: Seq<char>)
    requires
        splits_as_ssh(url),
    ensures
        parent_folder(mirror_location(base, tag, url).local_repo_path) == Some(
            mirror_location(base, tag, url).local_folder_path,
        ),
        local_repo_path(base, tag, url) == push_segment(push_segment(base, tag), url_path(url)),
        local_repo_path(base, tag, url).len() >= url_path(url).len(),
        local_repo_path(base, tag, url).subrange(
            local_repo_path(base, tag, url).len() - url_path(url).len(),
            local_repo_path(base, tag, url).len() as int,
        ) == url_path(url),
{
    let path = url_path(url);
    let segments = seq![tag, path];
    assert(segments.drop_last() =~= seq![tag]);
    assert(seq![tag].drop_last() =~= Seq::<Seq<char>>::empty());
    assert(join_path(base, Seq::<Seq<char>>::empty()) == base);
    assert(seq![tag].last() == tag);
    assert(join_path(base, seq![tag]) == push_segment(base, tag));
    let under = push_segment(base, tag);
    let whole = push_segment(under, path);
    assert(local_repo_path(base, tag, url) == whole);
    lemma_last_index_of(path, '/');
    let k = last_index_of(path, '/');
    let offset = whole.len() - path.len();
    assert(whole.subrange(offset, whole.len() as int) =~= path);
    assert(whole[offset + k] == '/');
    lemma_occurrence_bounds_last(whole, '/', offset + k);
}

/// Two remotes that are stored under the same base and tag share a mirror
/// only when their paths are the same.
pub proof fn lemma_mirror_determines_path(
    base: Seq<char>,
    tag: Seq<char>,
    first: Seq<char>,
    second: Seq<char>,
)
    requires
        splits_as_ssh(first),
        splits_as_ssh(second),
        local_repo_path(base, tag, first) == local_repo_path(base, tag, second),
    ensures
        url_path(first) == url_path(second),
{
    lemma_folder_is_parent(base, tag, first);
    lemma_folder_is_parent(base, tag, second);
    let under = push_segment(base, tag);
    let a = url_path(first);
    let b = url_path(second);
    let front = if under.len() == 0 || under.last() == '/' {
        under
    } else {
        under + seq!['/']
    };
    assert(push_segment(under, a) =~= front + a);
    assert(push_segment(under, b) =~= front + b);
    assert((front + a).skip(front.len() as int) =~= a);
    assert((front + b).skip(front.len() as int) =~= b);
}

/// A tag that names one directory: it is not empty and holds no separator.
pub open spec fn plain_tag(tag: Seq<char>) -> bool {
    tag.len() > 0 && forall|i: int| 0 <= i < tag.len() ==> tag[i] != '/'
}

/// What stands in front of a segment pushed behind `base`: `base` with one
/// separator behind it, unless it is empty or ends in one already.
pub open spec fn path_front(base: Seq<char>) -> Seq<char> {
    if base.len() == 0 || base.last() == '/' {
        base
    } else {
        base + seq!['/']
    }
}

/// A text made of a plain tag, a separator and a rest determines both the
/// tag and the rest.
pub proof fn lemma_tagged_text_splits_one_way(
    first_tag: Seq<char>,
    first_rest: Seq<char>,
    second_tag: Seq<char>,
    second_rest: Seq<char>,
)
    requires
        plain_tag(first_tag),
        plain_tag(second_tag),
        first_tag + seq!['/'] + first_rest == second_tag + seq!['/'] + second_rest,
    ensures
        first_tag == second_tag,
        first_rest == second_rest,
{
    let a = first_tag + seq!['/'] + first_rest;
    let b = second_tag + seq!['/'] + second_rest;
    let n = first_tag.len() as int;
    let m = second_tag.len() as int;
    assert(a[n] == '/');
    assert(b[m] == '/');
    if n < m {
        assert(b[n] == second_tag[n]);
    }
    if m < n {
        assert(a[m] == first_tag[m]);
    }
    assert(a.take(n) =~= first_tag);
    assert(b.take(n) =~= second_tag);
    assert(a.skip(n + 1) =~= first_rest);
    assert(b.skip(n + 1) =~= second_rest);
}

/// Under a plain tag the mirror of a remote reads: the front of the base,
/// the tag, a separator, the remote's path.
pub proof fn lemma_mirror_text(base: Seq<char>, tag: Seq<char>, url: Seq<char>)
    requires
        splits_as_ssh(url),
        plain_tag(tag),
    ensures
        local_repo_path(base, tag, url) == path_front(base) + (tag + seq!['/'] + url_path(url)),
{
    lemma_folder_is_parent(base, tag, url);
    let under = push_segment(base, tag);
    assert(under =~= path_front(base) + tag);
    assert(under.last() == tag[tag.len() - 1]);
    assert(push_segment(under, url_path(url)) =~= path_front(base) + (tag + seq!['/'] + url_path(
        url,
    )));
}

/// Under one base, two remotes have different mirrors as soon as their
/// tags or their paths differ. (Remotes that differ in user or host alone
/// are stored under one tag at one path, and share their mirror.)
pub proof fn lemma_mirrors_differ(
    base: Seq<char>,
    first_tag: Seq<char>,
    first: Seq<char>,
    second_tag: Seq<char>,
    second: Seq<char>,
)
    requires
        splits_as_ssh(first),
        splits_as_ssh(second),
        plain_tag(first_tag),
        plain_tag(second_tag),
        first_tag != second_tag || url_path(first) != url_path(second),
    ensures
        local_repo_path(base, first_tag, first) != local_repo_path(base, second_tag, second),
{
    lemma_mirror_text(base, first_tag, first);
    lemma_mirror_text(base, second_tag, second);
    let front = path_front(base);
    let a = first_tag + seq!['/'] + url_path(first);
    let b = second_tag + seq!['/'] + url_path(second);
    if front + a == front + b {
        assert((front + a).skip(front.len() as int) =~= a);
        assert((front + b).skip(front.len() as int) =~= b);
        lemma_tagged_text_splits_one_way(first_tag, url_path(first), second_tag, url_path(second));
    }
}

/// Maps a remote to its descriptor, given whether the remote matched the
/// SSH pattern. A remote that did not match, cannot be split or has no
/// well-formed path is refused.
pub fn locate_repo(base_path: &String, tag: &str, url: &String, pattern_matched: bool) -> (located:
    Result<RepoInfo, MalformedUrlError>)
    ensures
        located is Ok <==> pattern_matched && splits_as_ssh(url@),
        located matches Ok(info) ==> info@ == mirror_location(base_path@, tag@, url@),
        located matches Err(e) ==> e.url@ == url@,
{
    if !pattern_matched {
        return Err(MalformedUrlError { url: url.clone() });
    }
    let has_user = match find_last(url.as_str(), '@') {
        Some(at) => at >= 1,
        None => false,
    };
    if !has_user {
        return Err(MalformedUrlError { url: url.clone() });
    }
    let (namespace, path) = match split_git_ssh_url(url.as_str()) {
        Some(pair) => pair,
        None => {
            return Err(MalformedUrlError { url: url.clone() });
        },
    };
    if namespace.as_str().unicode_len() == 0 {
        return Err(MalformedUrlError { url: url.clone() });
    }
    let path_len: usize = path.as_str().unicode_len();
    if path_len == 0 || path.as_str().get_char(0) == '/' || path.as_str().get_char(path_len - 1)
        == '/' || find_last(path.as_str(), '/').is_none() {
        return Err(MalformedUrlError { url: url.clone() });
    }
    let mut segments: Vec<String> = Vec::new();
    segments.push(tag.to_owned());
    segments.push(path);
    proof {
        assert(segment_texts(segments@) =~= seq![tag@, url_path(url@)]);
        lemma_folder_is_parent(base_path@, tag@, url@);
    }
    let local_repo_path = add_to_path(base_path, &segments);
    let local_folder_path = get_parent_folder(&local_repo_path);
    Ok(RepoInfo { url: url.clone(), local_folder_path, local_repo_path })
}

} // verus!

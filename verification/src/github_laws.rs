//! What holds of the URLs that name a release.
use crate::github::{github_path, parse_url, release_of, ReleaseRef};
use crate::text::{split, starts_with, strip_trailing};
use crate::text_laws::{lemma_split_concat, lemma_split_parts_clean, lemma_split_without_sep};
use vstd::prelude::*;

verus! {

/// `s` holds no slash.
pub open spec fn no_slash(s: Seq<char>) -> bool {
    !s.contains('/')
}

/// The path of a URL under either scheme is what follows the host, and the
/// scheme makes no difference to the release that is named.
pub proof fn lemma_path_after_host(path: Seq<char>)
    ensures
        github_path("https://github.com/"@ + path) == Some(path),
        github_path("http://github.com/"@ + path) == Some(path),
        parse_url("https://github.com/"@ + path) == release_of(
            split(strip_trailing(path, '/'), '/'),
        ),
        parse_url("http://github.com/"@ + path) == parse_url("https://github.com/"@ + path),
{
    reveal_strlit("https://github.com/");
    reveal_strlit("http://github.com/");
    let https = "https://github.com/"@;
    let http = "http://github.com/"@;
    assert((https + path).subrange(0, https.len() as int) =~= https);
    assert((https + path).skip(https.len() as int) =~= path);
    assert((http + path).subrange(0, http.len() as int) =~= http);
    assert((http + path).skip(http.len() as int) =~= path);
    assert(!starts_with(http + path, https)) by {
        if starts_with(http + path, https) {
            assert((http + path).subrange(0, https.len() as int)[4] == (http + path)[4]);
            assert((http + path)[4] == http[4]);
            assert(https[4] == 's');
            assert(http[4] == ':');
        }
    }
}

/// One slash at the end of a URL changes nothing: a URL that does not end
/// with a slash names the same release with one appended. A second slash
/// counts, as an empty last part.
pub proof fn lemma_trailing_slash_ignored(url: Seq<char>)
    requires
        url.len() == 0 || url.last() != '/',
    ensures
        parse_url(url.push('/')) == parse_url(url),
{
    reveal_strlit("https://github.com/");
    reveal_strlit("http://github.com/");
    let https = "https://github.com/"@;
    let http = "http://github.com/"@;
    let more = url.push('/');
    lemma_prefix_of_push(url, https);
    lemma_prefix_of_push(url, http);
    if starts_with(url, https) {
        lemma_path_with_slash(url, https);
    } else if starts_with(more, https) {
        assert(more.skip(https.len() as int) =~= Seq::<char>::empty());
    } else if starts_with(url, http) {
        lemma_path_with_slash(url, http);
    } else if starts_with(more, http) {
        assert(more.skip(http.len() as int) =~= Seq::<char>::empty());
    }
}

/// Where a URL that does not end with a slash starts with `prefix`, which
/// does, the rest of it with a slash appended is stripped to the rest itself.
proof fn lemma_path_with_slash(url: Seq<char>, prefix: Seq<char>)
    requires
        url.len() == 0 || url.last() != '/',
        prefix.len() > 0,
        prefix.last() == '/',
        starts_with(url, prefix),
    ensures
        strip_trailing(url.push('/').skip(prefix.len() as int), '/') == url.skip(
            prefix.len() as int,
        ),
        strip_trailing(url.skip(prefix.len() as int), '/') == url.skip(prefix.len() as int),
{
    let path = url.skip(prefix.len() as int);
    assert(url.push('/').skip(prefix.len() as int) =~= path.push('/'));
    assert(path.push('/').drop_last() =~= path);
    if path.len() == 0 {
        assert(url.subrange(0, prefix.len() as int) =~= url);
        assert(url.last() == prefix.last());
    } else {
        assert(path.last() == url.last());
    }
}

/// A string with one character more starts with `prefix` where the string
/// itself does, and otherwise only by being `prefix`.
proof fn lemma_prefix_of_push(s: Seq<char>, prefix: Seq<char>)
    ensures
        starts_with(s, prefix) ==> starts_with(s.push('/'), prefix),
        !starts_with(s, prefix) && starts_with(s.push('/'), prefix) ==> s.push('/') == prefix,
{
    let more = s.push('/');
    if starts_with(s, prefix) {
        assert(more.subrange(0, prefix.len() as int) =~= s.subrange(0, prefix.len() as int));
    } else if starts_with(more, prefix) {
        if prefix.len() <= s.len() {
            assert(more.subrange(0, prefix.len() as int) =~= s.subrange(0, prefix.len() as int));
        } else {
            assert(more.subrange(0, prefix.len() as int) =~= more);
        }
    }
}

/// The parts of `head`, a slash and a last part that holds no slash.
proof fn lemma_split_last(head: Seq<char>, last: Seq<char>)
    requires
        no_slash(last),
    ensures
        split(head + "/"@ + last, '/') == split(head, '/').push(last),
{
    reveal_strlit("/");
    assert("/"@ =~= seq!['/']);
    lemma_split_concat(head, last, '/');
    lemma_split_without_sep(last, '/');
    assert(split(head, '/') + seq![last] =~= split(head, '/').push(last));
}

/// A path that does not end with a slash is split as it is.
proof fn lemma_untrimmed(head: Seq<char>, last: Seq<char>)
    requires
        last.len() > 0,
        no_slash(last),
    ensures
        strip_trailing(head + "/"@ + last, '/') == head + "/"@ + last,
{
    let path = head + "/"@ + last;
    assert(path.last() == last.last());
    assert(last[last.len() - 1] != '/');
}

/// The page of a repository names its latest release.
pub proof fn lemma_repository_page(owner: Seq<char>, repo: Seq<char>)
    requires
        no_slash(owner),
        no_slash(repo),
        repo.len() > 0,
    ensures
        parse_url("https://github.com/"@ + (owner + "/"@ + repo)) == Some(
            ReleaseRef { owner, repo, tag: None },
        ),
{
    let path = owner + "/"@ + repo;
    lemma_path_after_host(path);
    lemma_untrimmed(owner, repo);
    lemma_split_without_sep(owner, '/');
    lemma_split_last(owner, repo);
    assert(split(path, '/') =~= seq![owner, repo]);
}

/// The page of a repository's releases names the latest release, and so
/// does the page of the latest release.
pub proof fn lemma_releases_page(owner: Seq<char>, repo: Seq<char>)
    requires
        no_slash(owner),
        no_slash(repo),
    ensures
        parse_url("https://github.com/"@ + (owner + "/"@ + repo + "/"@ + "releases"@)) == Some(
            ReleaseRef { owner, repo, tag: None },
        ),
        parse_url(
            "https://github.com/"@ + (owner + "/"@ + repo + "/"@ + "releases"@ + "/"@ + "latest"@),
        ) == Some(ReleaseRef { owner, repo, tag: None }),
{
    reveal_strlit("releases");
    reveal_strlit("latest");
    lemma_word_has_no_slash("releases"@);
    lemma_word_has_no_slash("latest"@);
    let base = owner + "/"@ + repo;
    lemma_split_without_sep(owner, '/');
    lemma_split_last(owner, repo);
    let releases_path = base + "/"@ + "releases"@;
    lemma_path_after_host(releases_path);
    lemma_untrimmed(base, "releases"@);
    lemma_split_last(base, "releases"@);
    assert(split(releases_path, '/') =~= seq![owner, repo, "releases"@]);
    let latest_path = releases_path + "/"@ + "latest"@;
    lemma_path_after_host(latest_path);
    lemma_untrimmed(releases_path, "latest"@);
    lemma_split_last(releases_path, "latest"@);
    assert(split(latest_path, '/') =~= seq![owner, repo, "releases"@, "latest"@]);
}

/// The page of a tag names the release of that tag.
pub proof fn lemma_tag_page(owner: Seq<char>, repo: Seq<char>, tag: Seq<char>)
    requires
        no_slash(owner),
        no_slash(repo),
        no_slash(tag),
        tag.len() > 0,
    ensures
        parse_url(
            "https://github.com/"@ + (owner + "/"@ + repo + "/"@ + "releases"@ + "/"@ + "tag"@
                + "/"@ + tag),
        ) == Some(ReleaseRef { owner, repo, tag: Some(tag) }),
{
    reveal_strlit("releases");
    reveal_strlit("tag");
    lemma_word_has_no_slash("releases"@);
    lemma_word_has_no_slash("tag"@);
    let base = owner + "/"@ + repo;
    lemma_split_without_sep(owner, '/');
    lemma_split_last(owner, repo);
    let releases_path = base + "/"@ + "releases"@;
    lemma_split_last(base, "releases"@);
    let inner_path = releases_path + "/"@ + "tag"@;
    lemma_split_last(releases_path, "tag"@);
    let tag_path = inner_path + "/"@ + tag;
    lemma_path_after_host(tag_path);
    lemma_untrimmed(inner_path, tag);
    lemma_split_last(inner_path, tag);
    assert(split(tag_path, '/') =~= seq![owner, repo, "releases"@, "tag"@, tag]);
}

/// A word whose letters are all lowercase letters holds no slash.
proof fn lemma_word_has_no_slash(w: Seq<char>)
    requires
        forall|i: int| 0 <= i < w.len() ==> 'a' <= #[trigger] w[i] <= 'z',
    ensures
        no_slash(w),
{
    if w.contains('/') {
        let i = choose|i: int| 0 <= i < w.len() && w[i] == '/';
        assert('a' <= w[i]);
    }
}

/// The owner, the repository and the tag of a release that a URL names hold
/// no slash.
pub proof fn lemma_parsed_parts_clean(url: Seq<char>)
    ensures
        parse_url(url) matches Some(r) ==> {
            &&& no_slash(r.owner)
            &&& no_slash(r.repo)
            &&& r.tag matches Some(t) ==> no_slash(t)
        },
{
    if let Some(path) = github_path(url) {
        let stripped = strip_trailing(path, '/');
        let parts = split(stripped, '/');
        if parse_url(url) is Some {
            lemma_split_parts_clean(stripped, '/', 0);
            lemma_split_parts_clean(stripped, '/', 1);
            if parts.len() == 5 {
                lemma_split_parts_clean(stripped, '/', 4);
            }
        }
    }
}

/// A second slash at the end of a URL is not stripped: the page of a
/// repository followed by two slashes names no release.
pub proof fn lemma_two_trailing_slashes(owner: Seq<char>, repo: Seq<char>)
    requires
        no_slash(owner),
        no_slash(repo),
    ensures
        parse_url("https://github.com/"@ + (owner + "/"@ + repo + "/"@ + "/"@)) is None,
{
    reveal_strlit("/");
    reveal_strlit("releases");
    let base = owner + "/"@ + repo;
    let path = base + "/"@ + "/"@;
    lemma_path_after_host(path);
    assert("/"@ =~= seq!['/']);
    assert(path.last() == '/');
    assert(path.drop_last() =~= base + "/"@ + Seq::<char>::empty());
    lemma_split_without_sep(owner, '/');
    lemma_split_last(owner, repo);
    assert(no_slash(Seq::<char>::empty()));
    lemma_split_last(base, Seq::<char>::empty());
    let parts = split(strip_trailing(path, '/'), '/');
    assert(parts =~= seq![owner, repo, Seq::<char>::empty()]);
    assert(parts[2].len() == 0 && "releases"@.len() == 8);
}

} // verus!

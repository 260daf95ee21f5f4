//! Release pages on GitHub: reading owner, repository and tag from a URL,
//! and choosing the asset to download from the release found there.
use crate::platform::{asset_score, is_best, select_best_asset, Asset};
use crate::text::{
    chars_of, cut, has_prefix, range_is, split, split_ranges, starts_with, strip_trailing,
};
use vstd::prelude::*;
use vstd::string::*;

verus! {

/// A release of a repository: the latest one where no tag is given.
pub struct ReleaseRef {
    pub owner: Seq<char>,
    pub repo: Seq<char>,
    pub tag: Option<Seq<char>>,
}

/// The path of a URL on `github.com`, after the slash that follows the host;
/// none for a URL of another host or scheme.
pub open spec fn github_path(url: Seq<char>) -> Option<Seq<char>> {
    if starts_with(url, "https://github.com/"@) {
        Some(url.skip("https://github.com/"@.len() as int))
    } else if starts_with(url, "http://github.com/"@) {
        Some(url.skip("http://github.com/"@.len() as int))
    } else {
        None
    }
}

/// The release that the parts of a path name: `owner/repo`,
/// `owner/repo/releases` and `owner/repo/releases/latest` name the latest,
/// `owner/repo/releases/tag/<tag>` the tagged one, and nothing else names one.
pub open spec fn release_of(parts: Seq<Seq<char>>) -> Option<ReleaseRef> {
    if parts.len() == 2 || (parts.len() == 3 && parts[2] == "releases"@) || (parts.len() == 4
        && parts[2] == "releases"@ && parts[3] == "latest"@) {
        Some(ReleaseRef { owner: parts[0], repo: parts[1], tag: None })
    } else if parts.len() == 5 && parts[2] == "releases"@ && parts[3] == "tag"@ {
        Some(ReleaseRef { owner: parts[0], repo: parts[1], tag: Some(parts[4]) })
    } else {
        None
    }
}

/// The release that a URL names: its path on `github.com`, without the one
/// slash that may end it, is split at each slash.
pub open spec fn parse_url(url: Seq<char>) -> Option<ReleaseRef> {
    match github_path(url) {
        Some(path) => release_of(split(strip_trailing(path, '/'), '/')),
        None => None,
    }
}

/// The release that a parsed URL names, as strings.
pub open spec fn release_view(r: Option<(&str, &str, Option<&str>)>) -> Option<ReleaseRef> {
    match r {
        Some((owner, repo, tag)) => Some(
            ReleaseRef {
                owner: owner@,
                repo: repo@,
                tag: match tag {
                    Some(t) => Some(t@),
                    None => None,
                },
            },
        ),
        None => None,
    }
}

/// The owner, the repository and, where the URL gives one, the tag of the
/// release that `url` names; none where it names no release.
pub fn parse_github_url<'a>(url: &'a str) -> (r: Option<(&'a str, &'a str, Option<&'a str>)>)
    ensures
        release_view(r) == parse_url(url@),
{
    let chars = chars_of(url);
    let s = chars.as_slice();
    let https = chars_of("https://github.com/");
    let http = chars_of("http://github.com/");
    let from: usize = if has_prefix(s, https.as_slice()) {
        https.len()
    } else if has_prefix(s, http.as_slice()) {
        http.len()
    } else {
        return None;
    };
    let ghost path = s@.skip(from as int);
    assert(github_path(url@) == Some(path));
    assert(path =~= s@.subrange(from as int, s@.len() as int));

    let to: usize = if s.len() > from && s[s.len() - 1] == '/' {
        s.len() - 1
    } else {
        s.len()
    };
    proof {
        if path.len() > 0 {
            assert(path.last() == s@[s@.len() - 1]);
            assert(path.drop_last() =~= s@.subrange(from as int, s@.len() - 1));
        }
        assert(strip_trailing(path, '/') == s@.subrange(from as int, to as int));
    }
    let parts = split_ranges(s, from, to, '/');
    let ghost texts = cut(s@, parts@);
    assert(texts == split(strip_trailing(path, '/'), '/'));
    let n = parts.len();
    if n < 2 || n > 5 {
        return None;
    }
    assert(texts[0] == s@.subrange(parts@[0].0 as int, parts@[0].1 as int));
    assert(texts[1] == s@.subrange(parts@[1].0 as int, parts@[1].1 as int));
    if n == 2 {
        let owner = url.substring_char(parts[0].0, parts[0].1);
        let repo = url.substring_char(parts[1].0, parts[1].1);
        return Some((owner, repo, None));
    }
    assert(texts[2] == s@.subrange(parts@[2].0 as int, parts@[2].1 as int));
    if !range_is(s, parts[2].0, parts[2].1, "releases") {
        return None;
    }
    if n == 3 {
        let owner = url.substring_char(parts[0].0, parts[0].1);
        let repo = url.substring_char(parts[1].0, parts[1].1);
        return Some((owner, repo, None));
    }
    assert(texts[3] == s@.subrange(parts@[3].0 as int, parts@[3].1 as int));
    if n == 4 {
        if range_is(s, parts[3].0, parts[3].1, "latest") {
            let owner = url.substring_char(parts[0].0, parts[0].1);
            let repo = url.substring_char(parts[1].0, parts[1].1);
            return Some((owner, repo, None));
        }
        return None;
    }
    assert(texts[4] == s@.subrange(parts@[4].0 as int, parts@[4].1 as int));
    if range_is(s, parts[3].0, parts[3].1, "tag") {
        let owner = url.substring_char(parts[0].0, parts[0].1);
        let repo = url.substring_char(parts[1].0, parts[1].1);
        let tag = url.substring_char(parts[4].0, parts[4].1);
        return Some((owner, repo, Some(tag)));
    }
    None
}

/// Whether `url` names a release on GitHub.
pub fn is_github_release_url(url: &str) -> (r: bool)
    ensures
        r == parse_url(url@) is Some,
{
    parse_github_url(url).is_some()
}

/// The address at which the API of GitHub describes a release.
pub open spec fn api_url(release: ReleaseRef) -> Seq<char> {
    "https://api.github.com/repos/"@ + release.owner + "/"@ + release.repo + (match release.tag {
        Some(tag) => "/releases/tags/"@ + tag,
        None => "/releases/latest"@,
    })
}

/// The address at which the API of GitHub describes the release of `owner`'s
/// `repo` tagged `tag`, or the latest one where no tag is given.
pub fn release_api_url(owner: &str, repo: &str, tag: Option<&str>) -> (r: String)
    ensures
        r@ == api_url(release_view(Some((owner, repo, tag)))->0),
{
    let mut url = String::from_str("https://api.github.com/repos/");
    url.append(owner);
    url.append("/");
    url.append(repo);
    match tag {
        Some(t) => {
            url.append("/releases/tags/");
            url.append(t);
            assert(url@ =~= api_url(release_view(Some((owner, repo, tag)))->0));
        },
        None => {
            url.append("/releases/latest");
            assert(url@ =~= api_url(release_view(Some((owner, repo, tag)))->0));
        },
    }
    url
}

/// The value of the `Authorization` header that carries `token`.
pub fn authorization_value(token: &str) -> (r: String)
    ensures
        r@ == "token "@ + token@,
{
    let mut value = String::from_str("token ");
    value.append(token);
    value
}

/// Why no asset was resolved.
#[derive(Debug)]
pub enum ResolveError {
    /// The URL names no release on GitHub.
    NotAReleaseUrl,
    /// No asset of the release is for the platform and the architecture.
    NoMatchingAsset { platform: String, arch: String, tag: String },
}

/// A `ResolveError` with its fields as strings.
pub enum ResolveErrorView {
    NotAReleaseUrl,
    NoMatchingAsset { platform: Seq<char>, arch: Seq<char>, tag: Seq<char> },
}

impl View for ResolveError {
    type V = ResolveErrorView;

    open spec fn view(&self) -> ResolveErrorView {
        match self {
            ResolveError::NotAReleaseUrl => ResolveErrorView::NotAReleaseUrl,
            ResolveError::NoMatchingAsset { platform, arch, tag } => {
                ResolveErrorView::NoMatchingAsset { platform: platform@, arch: arch@, tag: tag@ }
            },
        }
    }
}

/// The text of an error: for a release without a matching asset it names the
/// platform, the architecture and the release's tag.
pub open spec fn error_text(e: ResolveErrorView) -> Seq<char> {
    match e {
        ResolveErrorView::NotAReleaseUrl => "Not a valid GitHub release URL"@,
        ResolveErrorView::NoMatchingAsset { platform, arch, tag } => {
            "No matching asset for platform="@ + platform + ", arch="@ + arch + " in release "@
                + tag
        },
    }
}

impl ResolveError {
    /// The text of the error.
    pub fn message(&self) -> (r: String)
        ensures
            r@ == error_text(self@),
    {
        match self {
            ResolveError::NotAReleaseUrl => String::from_str("Not a valid GitHub release URL"),
            ResolveError::NoMatchingAsset { platform, arch, tag } => {
                let mut text = String::from_str("No matching asset for platform=");
                text.append(platform.as_str());
                text.append(", arch=");
                text.append(arch.as_str());
                text.append(" in release ");
                text.append(tag.as_str());
                text
            },
        }
    }
}

/// The address at which to ask for the release that `url` names. Fails
/// exactly when `url` names no release.
pub fn release_endpoint(url: &str) -> (r: Result<String, ResolveError>)
    ensures
        match parse_url(url@) {
            Some(release) => r matches Ok(endpoint) && endpoint@ == api_url(release),
            None => r matches Err(e) && e@ == ResolveErrorView::NotAReleaseUrl,
        },
{
    match parse_github_url(url) {
        Some((owner, repo, tag)) => Ok(release_api_url(owner, repo, tag)),
        None => Err(ResolveError::NotAReleaseUrl),
    }
}

/// The address and the name of the asset of the release tagged `tag_name`
/// that is best for `platform` and `arch`. Fails exactly when no asset of
/// `assets` has a score; the error then names the platform, the architecture
/// and the tag.
pub fn pick_release_asset(assets: &[Asset], tag_name: &str, platform: &str, arch: &str) -> (r:
    Result<(String, String), ResolveError>)
    ensures
        match r {
            Ok((url, name)) => exists|i: int|
                #[trigger] is_best(assets@, platform@, arch@, i) && url@ == assets@[i].url@ && name@
                    == assets@[i].name@,
            Err(e) => {
                &&& forall|i: int|
                    0 <= i < assets@.len() ==> #[trigger] asset_score(
                        assets@[i].name@,
                        platform@,
                        arch@,
                    ) is None
                &&& e@ == ResolveErrorView::NoMatchingAsset {
                    platform: platform@,
                    arch: arch@,
                    tag: tag_name@,
                }
            },
        },
{
    match select_best_asset(assets, platform, arch) {
        Some(asset) => Ok((asset.url.clone(), asset.name.clone())),
        None => Err(
            ResolveError::NoMatchingAsset {
                platform: platform.to_owned(),
                arch: arch.to_owned(),
                tag: tag_name.to_owned(),
            },
        ),
    }
}

} // verus!

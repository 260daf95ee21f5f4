//! Choosing, among the assets of a release, the one built for a platform and
//! an architecture.
use crate::text::{
    chars_of, contains, contains_any, contains_any_of, ends_with, ends_with_any,
    ends_with_any_of, ends_with_str, has_infix, list_has, lowercase, same_str, str_is,
    texts, to_lowercase,
};
use vstd::prelude::*;

verus! {

/// A downloadable file of a release: its name and where to fetch it.
pub struct Asset {
    pub name: String,
    pub url: String,
}

/// A canonical platform or architecture name with every spelling that stands
/// for it in a file name.
pub struct AliasGroup {
    pub canonical: &'static str,
    pub aliases: &'static [&'static str],
}

/// The strings of an `AliasGroup`.
pub struct AliasGroupView {
    pub canonical: Seq<char>,
    pub aliases: Seq<Seq<char>>,
}

impl View for AliasGroup {
    type V = AliasGroupView;

    open spec fn view(&self) -> AliasGroupView {
        AliasGroupView { canonical: self.canonical@, aliases: texts(self.aliases@) }
    }
}

/// The views of a table of groups.
pub open spec fn group_views(groups: Seq<AliasGroup>) -> Seq<AliasGroupView> {
    groups.map_values(|g: AliasGroup| g@)
}

/// `value` is the canonical name of `g` or one of its aliases.
pub open spec fn in_group(g: AliasGroupView, value: Seq<char>) -> bool {
    g.canonical == value || g.aliases.contains(value)
}

/// A table is well formed when every group has an alias and no two groups
/// share a canonical name.
pub open spec fn well_formed(groups: Seq<AliasGroupView>) -> bool {
    &&& forall|i: int| 0 <= i < groups.len() ==> (#[trigger] groups[i]).aliases.len() > 0
    &&& forall|i: int, j: int|
        0 <= i < j < groups.len() ==> (#[trigger] groups[i]).canonical != (
        #[trigger] groups[j]).canonical
}

/// No string belongs to two groups of the table.
pub open spec fn disjoint(groups: Seq<AliasGroupView>) -> bool {
    forall|i: int, j: int, v: Seq<char>|
        0 <= i < j < groups.len() && #[trigger] in_group(groups[i], v) ==> !#[trigger] in_group(
            groups[j],
            v,
        )
}

/// The platform table.
pub open spec fn platform_groups() -> Seq<AliasGroupView> {
    seq![
        AliasGroupView { canonical: "linux"@, aliases: seq!["linux"@] },
        AliasGroupView {
            canonical: "macos"@,
            aliases: seq!["macos"@, "darwin"@, "osx"@, "apple"@],
        },
        AliasGroupView {
            canonical: "windows"@,
            aliases: seq!["windows"@, "win64"@, "win32"@, "win"@, "msvc"@, "pc-windows"@],
        },
    ]
}

/// The architecture table.
pub open spec fn arch_groups() -> Seq<AliasGroupView> {
    seq![
        AliasGroupView {
            canonical: "x86_64"@,
            aliases: seq!["x86_64"@, "x86-64"@, "amd64"@, "x64"@],
        },
        AliasGroupView { canonical: "arm64"@, aliases: seq!["arm64"@, "aarch64"@] },
    ]
}

/// Whether the lowercase file name `name` is for `value`, a lowercase platform
/// or architecture: the first group that `value` belongs to decides, by any of
/// its aliases standing in the name; a value of no group must stand in the
/// name itself.
pub open spec fn alias_match(
    name: Seq<char>,
    value: Seq<char>,
    groups: Seq<AliasGroupView>,
) -> bool
    decreases groups.len(),
{
    if groups.len() == 0 {
        contains(name, value)
    } else if in_group(groups[0], value) {
        contains_any(name, groups[0].aliases)
    } else {
        alias_match(name, value, groups.drop_first())
    }
}

/// Whether `value` belongs to the group whose canonical name is `canonical`;
/// the first such group decides, and without one the answer is no.
pub open spec fn group_holds(
    groups: Seq<AliasGroupView>,
    canonical: Seq<char>,
    value: Seq<char>,
) -> bool
    decreases groups.len(),
{
    if groups.len() == 0 {
        false
    } else if groups[0].canonical == canonical {
        in_group(groups[0], value)
    } else {
        group_holds(groups.drop_first(), canonical, value)
    }
}

/// The platform table.
pub fn platform_aliases() -> (r: Vec<AliasGroup>)
    ensures
        group_views(r@) == platform_groups(),
{
    let mut r: Vec<AliasGroup> = Vec::new();
    let linux: &'static [&'static str] = &["linux"];
    let macos: &'static [&'static str] = &["macos", "darwin", "osx", "apple"];
    let windows: &'static [&'static str] = &[
        "windows",
        "win64",
        "win32",
        "win",
        "msvc",
        "pc-windows",
    ];
    r.push(AliasGroup { canonical: "linux", aliases: linux });
    r.push(AliasGroup { canonical: "macos", aliases: macos });
    r.push(AliasGroup { canonical: "windows", aliases: windows });
    proof {
        let p = platform_groups();
        assert(texts(linux@) =~= p[0].aliases);
        assert(texts(macos@) =~= p[1].aliases);
        assert(texts(windows@) =~= p[2].aliases);
        assert(group_views(r@) =~= p);
    }
    r
}

/// The architecture table.
pub fn arch_aliases() -> (r: Vec<AliasGroup>)
    ensures
        group_views(r@) == arch_groups(),
{
    let mut r: Vec<AliasGroup> = Vec::new();
    let x86_64: &'static [&'static str] = &["x86_64", "x86-64", "amd64", "x64"];
    let arm64: &'static [&'static str] = &["arm64", "aarch64"];
    r.push(AliasGroup { canonical: "x86_64", aliases: x86_64 });
    r.push(AliasGroup { canonical: "arm64", aliases: arm64 });
    proof {
        let a = arch_groups();
        assert(texts(x86_64@) =~= a[0].aliases);
        assert(texts(arm64@) =~= a[1].aliases);
        assert(group_views(r@) =~= a);
    }
    r
}

/// Whether `value` is the canonical name of `g` or one of its aliases.
fn group_has(g: &AliasGroup, value: &[char]) -> (r: bool)
    ensures
        r == in_group(g@, value@),
{
    str_is(g.canonical, value) || list_has(g.aliases, value)
}

/// Whether the lowercase file name `name_lower` is for `value_lower`, a
/// lowercase platform or architecture, by the groups of `groups`.
pub fn alias_group_matches(name_lower: &str, value_lower: &str, groups: &[AliasGroup]) -> (r:
    bool)
    ensures
        r == alias_match(name_lower@, value_lower@, group_views(groups@)),
{
    let name = chars_of(name_lower);
    let value = chars_of(value_lower);
    let ghost all = group_views(groups@);
    let mut i: usize = 0;
    assert(all.skip(0) =~= all);
    while i < groups.len()
        invariant
            i <= groups.len(),
            name@ == name_lower@,
            value@ == value_lower@,
            all == group_views(groups@),
            alias_match(name@, value@, all) == alias_match(name@, value@, all.skip(i as int)),
        decreases groups.len() - i,
    {
        proof {
            assert(all.skip(i as int).len() > 0);
            assert(all.skip(i as int)[0] == groups@[i as int]@);
            assert(all.skip(i as int).drop_first() =~= all.skip(i + 1));
        }
        if group_has(&groups[i], value.as_slice()) {
            return contains_any_of(name.as_slice(), groups[i].aliases);
        }
        i += 1;
    }
    assert(all.skip(i as int).len() == 0);
    has_infix(name.as_slice(), value.as_slice())
}

/// Whether the lowercase file name `name_lower` is for the platform or
/// architecture `value`, in any case of letters, by the groups of `groups`.
pub fn matches_alias_group(name_lower: &str, value: &str, groups: &[AliasGroup]) -> (r: bool)
    ensures
        r == alias_match(name_lower@, lowercase(value@), group_views(groups@)),
{
    let value_lower = to_lowercase(value);
    alias_group_matches(name_lower, value_lower.as_str(), groups)
}

/// Whether the lowercase `platform_lower` belongs to the platform group whose
/// canonical name is `target`.
pub fn platform_group_holds(platform_lower: &str, target: &str) -> (r: bool)
    ensures
        r == group_holds(platform_groups(), target@, platform_lower@),
{
    let platform = chars_of(platform_lower);
    let groups = platform_aliases();
    let ghost all = platform_groups();
    let mut i: usize = 0;
    assert(all.skip(0) =~= all);
    while i < groups.len()
        invariant
            i <= groups.len(),
            platform@ == platform_lower@,
            all == group_views(groups@),
            all == platform_groups(),
            group_holds(all, target@, platform@) == group_holds(
                all.skip(i as int),
                target@,
                platform@,
            ),
        decreases groups.len() - i,
    {
        proof {
            assert(all.skip(i as int).len() > 0);
            assert(all.skip(i as int)[0] == groups@[i as int]@);
            assert(all.skip(i as int).drop_first() =~= all.skip(i + 1));
        }
        if same_str(groups[i].canonical, target) {
            return group_has(&groups[i], platform.as_slice());
        }
        i += 1;
    }
    assert(all.skip(i as int).len() == 0);
    false
}

/// Whether `platform`, in any case of letters, belongs to the platform group
/// whose canonical name is `target`.
pub fn platform_aliases_contain(platform: &str, target: &str) -> (r: bool)
    ensures
        r == group_holds(platform_groups(), target@, lowercase(platform@)),
{
    let platform_lower = to_lowercase(platform);
    platform_group_holds(platform_lower.as_str(), target)
}

/// The suffixes of the archive and compression formats that can be unpacked.
pub open spec fn archive_suffixes() -> Seq<Seq<char>> {
    seq![
        ".tar.gz"@,
        ".tgz"@,
        ".tar.bz2"@,
        ".tbz2"@,
        ".tar.xz"@,
        ".txz"@,
        ".tar.zst"@,
        ".tzst"@,
        ".zip"@,
        ".gz"@,
        ".bz2"@,
        ".xz"@,
        ".zst"@,
    ]
}

/// Whether `name` ends with the suffix of an archive or compression format.
pub fn is_extractable_ext(name: &str) -> (r: bool)
    ensures
        r == ends_with_any(name@, archive_suffixes()),
{
    let suffixes: &'static [&'static str] = &[
        ".tar.gz",
        ".tgz",
        ".tar.bz2",
        ".tbz2",
        ".tar.xz",
        ".txz",
        ".tar.zst",
        ".tzst",
        ".zip",
        ".gz",
        ".bz2",
        ".xz",
        ".zst",
    ];
    assert(texts(suffixes@) =~= archive_suffixes());
    let chars = chars_of(name);
    ends_with_any_of(chars.as_slice(), suffixes)
}

/// The user-facing name of a platform: `darwin` is `macos`, and every other
/// name stands for itself.
pub fn normalize_platform<'a>(os: &'a str) -> (r: &'a str)
    ensures
        r@ == (if os@ == "darwin"@ {
            "macos"@
        } else {
            os@
        }),
{
    if same_str(os, "darwin") {
        "macos"
    } else {
        os
    }
}

/// The user-facing name of an architecture: `aarch64` is `arm64`, and every
/// other name stands for itself.
pub fn normalize_arch<'a>(arch: &'a str) -> (r: &'a str)
    ensures
        r@ == (if arch@ == "aarch64"@ {
            "arm64"@
        } else {
            arch@
        }),
{
    if same_str(arch, "aarch64") {
        "arm64"
    } else {
        arch
    }
}

/// Suffixes of files that go with a release and are no download: checksums,
/// signatures, lists of contents and text.
pub open spec fn skip_extensions() -> Seq<Seq<char>> {
    seq![".sha256"@, ".sha512"@, ".sig"@, ".asc"@, ".sbom"@, ".json"@, ".txt"@, ".md"@]
}

/// Words that mark an archive of source code.
pub open spec fn skip_keywords() -> Seq<Seq<char>> {
    seq!["source"@, "src"@]
}

/// The lowercase file name `name` is left out of the choice.
pub open spec fn is_skipped(name: Seq<char>) -> bool {
    ends_with_any(name, skip_extensions()) || contains_any(name, skip_keywords())
}

/// The lowercase platform `platform` is a name of Windows.
pub open spec fn is_windows(platform: Seq<char>) -> bool {
    group_holds(platform_groups(), "windows"@, platform)
}

/// What the format of the lowercase file name `name` adds to its score: 2 for
/// the format preferred on the platform, 1 for another that can be unpacked.
pub open spec fn format_bonus(name: Seq<char>, windows: bool) -> int {
    if windows {
        if ends_with(name, ".zip"@) {
            2
        } else if ends_with_any(name, archive_suffixes()) {
            1
        } else {
            0
        }
    } else if ends_with(name, ".tar.gz"@) || ends_with(name, ".tgz"@) {
        2
    } else if ends_with_any(name, archive_suffixes()) {
        1
    } else {
        0
    }
}

/// The lowercase file name `name` can be chosen for the lowercase `platform`
/// and `arch`: it is not left out, and it is for both.
pub open spec fn is_candidate(name: Seq<char>, platform: Seq<char>, arch: Seq<char>) -> bool {
    &&& !is_skipped(name)
    &&& alias_match(name, platform, platform_groups())
    &&& alias_match(name, arch, arch_groups())
}

/// The score of the lowercase file name `name` for the lowercase `platform`
/// and `arch`: none where it cannot be chosen, else 10 for the platform, 5
/// for the architecture and the bonus of its format.
pub open spec fn candidate_score(name: Seq<char>, platform: Seq<char>, arch: Seq<char>) -> Option<
    int,
> {
    if is_candidate(name, platform, arch) {
        Some(10 + 5 + format_bonus(name, is_windows(platform)))
    } else {
        None
    }
}

/// The score of the file name `name` for `platform` and `arch`, each in any
/// case of letters: the score of their lowercase forms.
pub open spec fn asset_score(name: Seq<char>, platform: Seq<char>, arch: Seq<char>) -> Option<
    int,
> {
    candidate_score(lowercase(name), lowercase(platform), lowercase(arch))
}

/// The scores of a list of assets, in order.
pub open spec fn scores_of(assets: Seq<Asset>, platform: Seq<char>, arch: Seq<char>) -> Seq<
    Option<int>,
> {
    assets.map_values(|a: Asset| asset_score(a.name@, platform, arch))
}

/// The place `i` holds a score, no place holds a higher one, and every place
/// before it holds a lower one or none.
pub open spec fn is_highest(scores: Seq<Option<int>>, i: int) -> bool {
    &&& 0 <= i < scores.len()
    &&& scores[i] is Some
    &&& forall|j: int|
        0 <= j < scores.len() ==> match #[trigger] scores[j] {
            Some(s) => s <= scores[i]->0 && (j < i ==> s < scores[i]->0),
            None => true,
        }
}

/// The asset at `i` has a score, no asset has a higher one, and every asset
/// before it has a lower one or none.
pub open spec fn is_best(assets: Seq<Asset>, platform: Seq<char>, arch: Seq<char>, i: int) -> bool {
    is_highest(scores_of(assets, platform, arch), i)
}

/// The scores of a list as integers.
pub open spec fn score_values(scores: Seq<Option<i32>>) -> Seq<Option<int>> {
    scores.map_values(
        |s: Option<i32>|
            match s {
                Some(v) => Some(v as int),
                None => None,
            },
    )
}

/// The score of the lowercase file name `name_lower` for the lowercase
/// `platform_lower` and `arch_lower`.
pub fn score_lowercase(name_lower: &str, platform_lower: &str, arch_lower: &str) -> (r: Option<
    i32,
>)
    ensures
        match r {
            Some(s) => candidate_score(name_lower@, platform_lower@, arch_lower@) == Some(
                s as int,
            ),
            None => candidate_score(name_lower@, platform_lower@, arch_lower@) is None,
        },
{
    let lower = chars_of(name_lower);

    let skip_ext: &'static [&'static str] = &[
        ".sha256",
        ".sha512",
        ".sig",
        ".asc",
        ".sbom",
        ".json",
        ".txt",
        ".md",
    ];
    let skip_words: &'static [&'static str] = &["source", "src"];
    assert(texts(skip_ext@) =~= skip_extensions());
    assert(texts(skip_words@) =~= skip_keywords());

    if ends_with_any_of(lower.as_slice(), skip_ext) {
        return None;
    }
    if contains_any_of(lower.as_slice(), skip_words) {
        return None;
    }
    let mut score: i32 = 0;

    let platforms = platform_aliases();
    let platform_match = alias_group_matches(name_lower, platform_lower, platforms.as_slice());
    if platform_match {
        score += 10;
    }
    let archs = arch_aliases();
    let arch_match = alias_group_matches(name_lower, arch_lower, archs.as_slice());
    if arch_match {
        score += 5;
    }
    if !platform_match || !arch_match {
        return None;
    }
    let windows = platform_group_holds(platform_lower, "windows");
    if windows {
        if ends_with_str(lower.as_slice(), ".zip") {
            score += 2;
        } else if is_extractable_ext(name_lower) {
            score += 1;
        }
    } else if ends_with_str(lower.as_slice(), ".tar.gz") || ends_with_str(lower.as_slice(), ".tgz") {
        score += 2;
    } else if is_extractable_ext(name_lower) {
        score += 1;
    }
    Some(score)
}

/// The score of the file name `name` for `platform` and `arch`, each in any
/// case of letters.
pub fn score_asset(name: &str, platform: &str, arch: &str) -> (r: Option<i32>)
    ensures
        match r {
            Some(s) => asset_score(name@, platform@, arch@) == Some(s as int),
            None => asset_score(name@, platform@, arch@) is None,
        },
{
    let name_lower = to_lowercase(name);
    let platform_lower = to_lowercase(platform);
    let arch_lower = to_lowercase(arch);
    score_lowercase(name_lower.as_str(), platform_lower.as_str(), arch_lower.as_str())
}

/// The place of the highest score of `scores`, and among equals the first;
/// none exactly when no place holds a score.
pub fn pick_highest(scores: &[Option<i32>]) -> (r: Option<usize>)
    ensures
        match r {
            Some(i) => is_highest(score_values(scores@), i as int),
            None => forall|j: int| 0 <= j < scores@.len() ==> scores@[j] is None,
        },
{
    let mut best: Option<(usize, i32)> = None;
    let mut i: usize = 0;
    while i < scores.len()
        invariant
            i <= scores.len(),
            match best {
                Some((b, top)) => {
                    &&& b < i
                    &&& scores@[b as int] == Some(top)
                    &&& forall|j: int|
                        0 <= j < i ==> match #[trigger] scores@[j] {
                            Some(s) => s <= top && (j < b ==> s < top),
                            None => true,
                        }
                },
                None => forall|j: int| 0 <= j < i ==> scores@[j] is None,
            },
        decreases scores.len() - i,
    {
        match scores[i] {
            Some(score) => {
                match best {
                    Some((_, top)) if score <= top => {},
                    _ => {
                        best = Some((i, score));
                    },
                }
            },
            None => {},
        }
        i += 1;
    }
    match best {
        Some((b, _)) => {
            proof {
                let values = score_values(scores@);
                assert forall|j: int| 0 <= j < values.len() implies match #[trigger] values[j] {
                    Some(s) => s <= values[b as int]->0 && (j < b ==> s < values[b as int]->0),
                    None => true,
                } by {
                    assert(values[j] == match scores@[j] {
                        Some(v) => Some(v as int),
                        None => None,
                    });
                }
            }
            Some(b)
        },
        None => None,
    }
}

/// The asset of `assets` that is best for `platform` and `arch`: the one with
/// the highest score, and among equals the one that comes first. There is one
/// exactly when some asset has a score, so none that is left out is ever
/// chosen.
pub fn select_best_asset<'a>(assets: &'a [Asset], platform: &str, arch: &str) -> (r: Option<
    &'a Asset,
>)
    ensures
        match r {
            Some(a) => exists|i: int|
                #[trigger] is_best(assets@, platform@, arch@, i) && *a == assets@[i],
            None => forall|i: int|
                0 <= i < assets@.len() ==> #[trigger] asset_score(
                    assets@[i].name@,
                    platform@,
                    arch@,
                ) is None,
        },
        r is Some <==> exists|i: int|
            0 <= i < assets@.len() && #[trigger] asset_score(assets@[i].name@, platform@, arch@)
                is Some,
        r matches Some(a) ==> !is_skipped(lowercase(a.name@)),
{
    let platform_lower = to_lowercase(platform);
    let arch_lower = to_lowercase(arch);
    let ghost all = scores_of(assets@, platform@, arch@);
    let mut scores: Vec<Option<i32>> = Vec::new();
    let mut i: usize = 0;
    assert(score_values(scores@) =~= all.take(0));
    while i < assets.len()
        invariant
            i <= assets.len(),
            platform_lower@ == lowercase(platform@),
            arch_lower@ == lowercase(arch@),
            all == scores_of(assets@, platform@, arch@),
            scores@.len() == i,
            score_values(scores@) == all.take(i as int),
        decreases assets.len() - i,
    {
        let name_lower = to_lowercase(assets[i].name.as_str());
        let score = score_lowercase(
            name_lower.as_str(),
            platform_lower.as_str(),
            arch_lower.as_str(),
        );
        proof {
            let grown = score_values(scores@.push(score));
            assert(grown.len() == i + 1 && all.len() == assets@.len());
            assert(all[i as int] == asset_score(assets@[i as int].name@, platform@, arch@));
            assert forall|j: int| 0 <= j < i + 1 implies grown[j] == all.take(i + 1)[j] by {
                if j < i {
                    assert(score_values(scores@)[j] == all.take(i as int)[j]);
                }
            }
            assert(grown =~= all.take(i + 1));
        }
        scores.push(score);
        i += 1;
    }
    assert(all.take(i as int) =~= all);
    match pick_highest(scores.as_slice()) {
        Some(b) => {
            assert(is_best(assets@, platform@, arch@, b as int));
            assert(all[b as int] == asset_score(assets@[b as int].name@, platform@, arch@));
            Some(&assets[b])
        },
        None => {
            assert forall|j: int| 0 <= j < assets@.len() implies #[trigger] asset_score(
                assets@[j].name@,
                platform@,
                arch@,
            ) is None by {
                assert(score_values(scores@)[j] == all[j]);
                assert(scores@[j] is None);
            }
            None
        },
    }
}

} // verus!

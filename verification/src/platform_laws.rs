//! What holds of the alias tables, of alias matching and of the choice of an
//! asset.
use crate::platform::{
    alias_match, arch_groups, asset_score, disjoint, format_bonus, group_holds, in_group,
    is_best, is_candidate, is_skipped, is_windows, platform_groups, scores_of, well_formed,
    AliasGroupView, Asset,
};
use crate::text::{contains, contains_any, ends_with, lowercase};
use vstd::prelude::*;

verus! {

/// The platform table is well formed, and no name belongs to two of its
/// groups.
pub proof fn lemma_platform_groups_sound()
    ensures
        well_formed(platform_groups()),
        disjoint(platform_groups()),
{
    reveal_strlit("linux");
    reveal_strlit("macos");
    reveal_strlit("darwin");
    reveal_strlit("osx");
    reveal_strlit("apple");
    reveal_strlit("windows");
    reveal_strlit("win64");
    reveal_strlit("win32");
    reveal_strlit("win");
    reveal_strlit("msvc");
    reveal_strlit("pc-windows");
    let p = platform_groups();
    assert("linux"@[0] == 'l');
    assert("macos"@[0] == 'm' && "macos"@[1] == 'a');
    assert("darwin"@[0] == 'd');
    assert("osx"@[0] == 'o');
    assert("apple"@[0] == 'a');
    assert("windows"@[0] == 'w');
    assert("win64"@[0] == 'w');
    assert("win32"@[0] == 'w');
    assert("win"@[0] == 'w');
    assert("msvc"@[0] == 'm' && "msvc"@[1] == 's');
    assert("pc-windows"@[0] == 'p');
    assert(p[0].aliases.len() == 1 && p[1].aliases.len() == 4 && p[2].aliases.len() == 6);
    assert forall|i: int, j: int, v: Seq<char>|
        0 <= i < j < p.len() && #[trigger] in_group(p[i], v) implies !#[trigger] in_group(
        p[j],
        v,
    ) by {
        lemma_member_is_listed(p[i], v);
        if in_group(p[j], v) {
            lemma_member_is_listed(p[j], v);
        }
    }
}

/// A member of a group is its canonical name or one of its aliases.
proof fn lemma_member_is_listed(g: AliasGroupView, v: Seq<char>)
    requires
        in_group(g, v),
    ensures
        v == g.canonical || exists|k: int| 0 <= k < g.aliases.len() && v == g.aliases[k],
{
}

/// A lowercase platform is a name of Windows exactly when it belongs to the
/// group of Windows in the platform table.
pub proof fn lemma_windows_names(platform: Seq<char>)
    ensures
        is_windows(platform) == in_group(platform_groups()[2], platform),
{
    reveal_strlit("linux");
    reveal_strlit("macos");
    reveal_strlit("windows");
    let p = platform_groups();
    assert("linux"@[0] == 'l' && "macos"@[0] == 'm' && "windows"@[0] == 'w');
    assert(p.drop_first()[0] == p[1]);
    assert(p.drop_first().drop_first()[0] == p[2]);
    assert(group_holds(p, "windows"@, platform) == group_holds(
        p.drop_first(),
        "windows"@,
        platform,
    ));
    assert(group_holds(p.drop_first(), "windows"@, platform) == group_holds(
        p.drop_first().drop_first(),
        "windows"@,
        platform,
    ));
}

/// The architecture table is well formed, and no name belongs to two of its
/// groups.
pub proof fn lemma_arch_groups_sound()
    ensures
        well_formed(arch_groups()),
        disjoint(arch_groups()),
{
    reveal_strlit("x86_64");
    reveal_strlit("x86-64");
    reveal_strlit("amd64");
    reveal_strlit("x64");
    reveal_strlit("arm64");
    reveal_strlit("aarch64");
    let a = arch_groups();
    assert("x86_64"@[0] == 'x');
    assert("x86-64"@[0] == 'x');
    assert("amd64"@[0] == 'a' && "amd64"@[1] == 'm');
    assert("x64"@[0] == 'x');
    assert("arm64"@[0] == 'a' && "arm64"@[1] == 'r');
    assert("aarch64"@[0] == 'a' && "aarch64"@[1] == 'a');
    assert(a[0].aliases.len() == 4 && a[1].aliases.len() == 2);
    assert forall|i: int, j: int, v: Seq<char>|
        0 <= i < j < a.len() && #[trigger] in_group(a[i], v) implies !#[trigger] in_group(
        a[j],
        v,
    ) by {
        lemma_member_is_listed(a[i], v);
        if in_group(a[j], v) {
            lemma_member_is_listed(a[j], v);
        }
    }
}

/// In a table where no name belongs to two groups, the group that a value
/// belongs to decides the match: the file name is for the value exactly when
/// an alias of that group stands in it.
pub proof fn lemma_alias_match_by_group(
    name: Seq<char>,
    value: Seq<char>,
    groups: Seq<AliasGroupView>,
    i: int,
)
    requires
        disjoint(groups),
        0 <= i < groups.len(),
        in_group(groups[i], value),
    ensures
        alias_match(name, value, groups) == contains_any(name, groups[i].aliases),
    decreases groups.len(),
{
    if i > 0 {
        let rest = groups.drop_first();
        assert(!in_group(groups[0], value));
        assert(rest[i - 1] == groups[i]);
        assert forall|a: int, b: int, v: Seq<char>|
            0 <= a < b < rest.len() && #[trigger] in_group(rest[a], v) implies !#[trigger] in_group(
            rest[b],
            v,
        ) by {
            assert(rest[a] == groups[a + 1] && rest[b] == groups[b + 1]);
        }
        lemma_alias_match_by_group(name, value, rest, i - 1);
    }
}

/// A value of no group is for a file name exactly when it stands in the name
/// itself.
pub proof fn lemma_alias_match_unknown_value(
    name: Seq<char>,
    value: Seq<char>,
    groups: Seq<AliasGroupView>,
)
    requires
        forall|i: int| 0 <= i < groups.len() ==> !in_group(#[trigger] groups[i], value),
    ensures
        alias_match(name, value, groups) == contains(name, value),
    decreases groups.len(),
{
    if groups.len() > 0 {
        let rest = groups.drop_first();
        assert(!in_group(groups[0], value));
        assert forall|i: int| 0 <= i < rest.len() implies !in_group(#[trigger] rest[i], value) by {
            assert(rest[i] == groups[i + 1]);
        }
        lemma_alias_match_unknown_value(name, value, rest);
    }
}

/// Matching goes both ways across a group: whichever member of the group the
/// value is, canonical name or alias, a file name that holds any alias of the
/// group is for it.
pub proof fn lemma_alias_match_bidirectional(
    name: Seq<char>,
    value: Seq<char>,
    token: Seq<char>,
    groups: Seq<AliasGroupView>,
    i: int,
)
    requires
        disjoint(groups),
        0 <= i < groups.len(),
        in_group(groups[i], value),
        groups[i].aliases.contains(token),
        contains(name, token),
    ensures
        alias_match(name, value, groups),
{
    lemma_alias_match_by_group(name, value, groups, i);
    let k = choose|k: int| 0 <= k < groups[i].aliases.len() && groups[i].aliases[k] == token;
    assert(contains(name, groups[i].aliases[k]));
}

/// Matching does not look at the value beyond its lowercase form: two values
/// with the same lowercase form are for the same file names.
pub proof fn lemma_alias_match_ignores_case(
    name: Seq<char>,
    value1: Seq<char>,
    value2: Seq<char>,
    groups: Seq<AliasGroupView>,
)
    requires
        lowercase(value1) == lowercase(value2),
    ensures
        alias_match(name, lowercase(value1), groups) == alias_match(
            name,
            lowercase(value2),
            groups,
        ),
{
}

/// The score does not depend on the case of the letters of the file name,
/// the platform or the architecture.
pub proof fn lemma_score_ignores_case(
    name1: Seq<char>,
    platform1: Seq<char>,
    arch1: Seq<char>,
    name2: Seq<char>,
    platform2: Seq<char>,
    arch2: Seq<char>,
)
    requires
        lowercase(name1) == lowercase(name2),
        lowercase(platform1) == lowercase(platform2),
        lowercase(arch1) == lowercase(arch2),
    ensures
        asset_score(name1, platform1, arch1) == asset_score(name2, platform2, arch2),
{
}

/// An asset has a score exactly when its lowercase name is not left out and
/// is for both the platform and the architecture; the score is then 15, 16
/// or 17.
pub proof fn lemma_score_range(name: Seq<char>, platform: Seq<char>, arch: Seq<char>)
    ensures
        asset_score(name, platform, arch) is Some <==> is_candidate(
            lowercase(name),
            lowercase(platform),
            lowercase(arch),
        ),
        asset_score(name, platform, arch) matches Some(s) ==> 15 <= s <= 17,
{
}

/// At most one asset of a list is the best.
pub proof fn lemma_best_is_unique(
    assets: Seq<Asset>,
    platform: Seq<char>,
    arch: Seq<char>,
    i: int,
    j: int,
)
    requires
        is_best(assets, platform, arch, i),
        is_best(assets, platform, arch, j),
    ensures
        i == j,
{
    let scores = scores_of(assets, platform, arch);
    assert(scores[i] is Some && scores[j] is Some);
}

/// For Windows a `.zip` scores higher than any other format: where a `.zip`
/// can be chosen, no asset of another format is the best.
pub proof fn lemma_windows_prefers_zip(
    assets: Seq<Asset>,
    platform: Seq<char>,
    arch: Seq<char>,
    best: int,
    zip: int,
)
    requires
        is_windows(lowercase(platform)),
        is_best(assets, platform, arch, best),
        0 <= zip < assets.len(),
        asset_score(assets[zip].name@, platform, arch) is Some,
        ends_with(lowercase(assets[zip].name@), ".zip"@),
    ensures
        ends_with(lowercase(assets[best].name@), ".zip"@),
        asset_score(assets[best].name@, platform, arch) == Some(17int),
{
    let scores = scores_of(assets, platform, arch);
    assert(scores[zip] == Some(17int));
    assert(scores[best] == asset_score(assets[best].name@, platform, arch));
}

/// For every other platform a `.tar.gz` or `.tgz` scores higher than any
/// other format: where one can be chosen, no asset of another format is the
/// best.
pub proof fn lemma_others_prefer_tar_gz(
    assets: Seq<Asset>,
    platform: Seq<char>,
    arch: Seq<char>,
    best: int,
    tarball: int,
)
    requires
        !is_windows(lowercase(platform)),
        is_best(assets, platform, arch, best),
        0 <= tarball < assets.len(),
        asset_score(assets[tarball].name@, platform, arch) is Some,
        ends_with(lowercase(assets[tarball].name@), ".tar.gz"@) || ends_with(
            lowercase(assets[tarball].name@),
            ".tgz"@,
        ),
    ensures
        ends_with(lowercase(assets[best].name@), ".tar.gz"@) || ends_with(
            lowercase(assets[best].name@),
            ".tgz"@,
        ),
        asset_score(assets[best].name@, platform, arch) == Some(17int),
{
    let scores = scores_of(assets, platform, arch);
    assert(scores[tarball] == Some(17int));
    assert(scores[best] == asset_score(assets[best].name@, platform, arch));
}

} // verus!

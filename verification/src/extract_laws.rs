//! What holds of the detection of archive formats.
use crate::extract::{archive_kind, ArchiveType};
use crate::platform::archive_suffixes;
use crate::text::{ends_with, ends_with_any};
use vstd::prelude::*;

verus! {

/// A string that ends with `suffix` has the characters of `suffix` at its
/// end: the one `k` places before the last is the same in both.
pub proof fn lemma_ends_with_char(s: Seq<char>, suffix: Seq<char>, k: int)
    requires
        ends_with(s, suffix),
        0 <= k < suffix.len(),
    ensures
        suffix.len() <= s.len(),
        s[s.len() - 1 - k] == suffix[suffix.len() - 1 - k],
{
    let tail = s.subrange(s.len() - suffix.len(), s.len() as int);
    assert(tail[suffix.len() - 1 - k] == s[s.len() - 1 - k]);
}

/// A name that ends with the suffix of a compressed tar archive is told as
/// that archive, never as a single compressed file, though it ends with the
/// suffix of the compression too.
pub proof fn lemma_compound_suffix_wins(path: Seq<char>)
    ensures
        ends_with(path, ".tar.gz"@) || ends_with(path, ".tgz"@) ==> archive_kind(path) == Some(
            ArchiveType::TarGz,
        ),
        ends_with(path, ".tar.bz2"@) || ends_with(path, ".tbz2"@) ==> archive_kind(path) == Some(
            ArchiveType::TarBz2,
        ),
        ends_with(path, ".tar.xz"@) || ends_with(path, ".txz"@) ==> archive_kind(path) == Some(
            ArchiveType::TarXz,
        ),
        ends_with(path, ".tar.zst"@) || ends_with(path, ".tzst"@) ==> archive_kind(path) == Some(
            ArchiveType::TarZst,
        ),
{
    reveal_strlit(".tar.gz");
    reveal_strlit(".tgz");
    reveal_strlit(".tar.bz2");
    reveal_strlit(".tbz2");
    reveal_strlit(".tar.xz");
    reveal_strlit(".txz");
    reveal_strlit(".tar.zst");
    reveal_strlit(".tzst");
    lemma_tail_of(path, ".tar.gz"@);
    lemma_tail_of(path, ".tgz"@);
    lemma_tail_of(path, ".tar.bz2"@);
    lemma_tail_of(path, ".tbz2"@);
    lemma_tail_of(path, ".tar.xz"@);
    lemma_tail_of(path, ".txz"@);
    lemma_tail_of(path, ".tar.zst"@);
    lemma_tail_of(path, ".tzst"@);
}

/// The last two characters of a string that ends with a suffix of two
/// characters or more are those of the suffix.
proof fn lemma_tail_of(s: Seq<char>, suffix: Seq<char>)
    requires
        suffix.len() >= 2,
    ensures
        ends_with(s, suffix) ==> s.len() >= 2 && s[s.len() - 1] == suffix[suffix.len() - 1] && s[s.len()
            - 2] == suffix[suffix.len() - 2],
{
    if ends_with(s, suffix) {
        lemma_ends_with_char(s, suffix, 0);
        lemma_ends_with_char(s, suffix, 1);
    }
}

/// The detector knows a format for a name exactly when the name ends with one
/// of the suffixes that the scorer counts as an archive.
pub proof fn lemma_kind_iff_archive_suffix(path: Seq<char>)
    ensures
        archive_kind(path) is Some <==> ends_with_any(path, archive_suffixes()),
{
    let list = archive_suffixes();
    assert(list.len() == 13);
    if archive_kind(path) is Some {
        let k: int = if ends_with(path, list[0]) {
            0
        } else if ends_with(path, list[1]) {
            1
        } else if ends_with(path, list[2]) {
            2
        } else if ends_with(path, list[3]) {
            3
        } else if ends_with(path, list[4]) {
            4
        } else if ends_with(path, list[5]) {
            5
        } else if ends_with(path, list[6]) {
            6
        } else if ends_with(path, list[7]) {
            7
        } else if ends_with(path, list[8]) {
            8
        } else if ends_with(path, list[9]) {
            9
        } else if ends_with(path, list[10]) {
            10
        } else if ends_with(path, list[11]) {
            11
        } else {
            12
        };
        assert(ends_with(path, list[k]));
    }
    if ends_with_any(path, list) {
        let k = choose|k: int| 0 <= k < list.len() && ends_with(path, #[trigger] list[k]);
        assert(ends_with(path, list[k]));
    }
}

} // verus!

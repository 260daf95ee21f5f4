//! Naming the file that a download is saved to.
use crate::text::{chars_of, cut, split, split_ranges};
use crate::text_laws::{
    lemma_split_first_is_prefix, lemma_split_nonempty, lemma_split_parts_clean,
    lemma_split_without_sep,
};
use vstd::prelude::*;
use vstd::string::*;

verus! {

/// The name of the file that `url` points to: what follows the last slash of
/// the URL, up to the first question mark in it.
pub open spec fn url_file_name(url: Seq<char>) -> Seq<char> {
    split(split(url, '/').last(), '?').first()
}

/// The name under which the download of `url` is saved.
pub fn file_name_from_url(url: &str) -> (r: String)
    ensures
        r@ == url_file_name(url@),
{
    let chars = chars_of(url);
    let s = chars.as_slice();
    let parts = split_ranges(s, 0, s.len(), '/');
    assert(s@.subrange(0, s@.len() as int) =~= url@);
    let last = parts[parts.len() - 1];
    assert(cut(s@, parts@).last() == s@.subrange(last.0 as int, last.1 as int));
    let pieces = split_ranges(s, last.0, last.1, '?');
    let first = pieces[0];
    assert(cut(s@, pieces@).first() == s@.subrange(first.0 as int, first.1 as int));
    url.substring_char(first.0, first.1).to_owned()
}

/// The name holds no slash and no question mark.
pub proof fn lemma_file_name_is_plain(url: Seq<char>)
    ensures
        !url_file_name(url).contains('/'),
        !url_file_name(url).contains('?'),
{
    let parts = split(url, '/');
    lemma_split_nonempty(url, '/');
    lemma_split_parts_clean(url, '/', parts.len() - 1);
    let last = parts.last();
    let name = split(last, '?').first();
    lemma_split_nonempty(last, '?');
    lemma_split_parts_clean(last, '?', 0);
    lemma_split_first_is_prefix(last, '?');
    if name.contains('/') {
        let i = choose|i: int| 0 <= i < name.len() && name[i] == '/';
        assert(last[i] == '/');
    }
}

/// A URL without a slash and without a question mark is the name itself.
pub proof fn lemma_file_name_of_plain(url: Seq<char>)
    requires
        !url.contains('/'),
        !url.contains('?'),
    ensures
        url_file_name(url) == url,
{
    lemma_split_without_sep(url, '/');
    lemma_split_without_sep(url, '?');
}

} // verus!

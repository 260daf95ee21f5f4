//! Strings as sequences of characters: suffix, prefix and substring tests,
//! and lowercasing.
use vstd::prelude::*;

verus! {

/// The lowercase form of a string, as `str::to_lowercase` computes it.
pub uninterp spec fn lowercase(s: Seq<char>) -> Seq<char>;

/// `suffix` stands at the end of `s`.
pub open spec fn ends_with(s: Seq<char>, suffix: Seq<char>) -> bool {
    suffix.len() <= s.len() && s.subrange(s.len() - suffix.len(), s.len() as int) == suffix
}

/// `prefix` stands at the start of `s`.
pub open spec fn starts_with(s: Seq<char>, prefix: Seq<char>) -> bool {
    prefix.len() <= s.len() && s.subrange(0, prefix.len() as int) == prefix
}

/// `pat` stands in `s` at position `i`.
pub open spec fn occurs_at(s: Seq<char>, pat: Seq<char>, i: int) -> bool {
    0 <= i && i + pat.len() <= s.len() && s.subrange(i, i + pat.len()) == pat
}

/// `pat` stands somewhere in `s`.
pub open spec fn contains(s: Seq<char>, pat: Seq<char>) -> bool {
    exists|i: int| occurs_at(s, pat, i)
}

/// `s` without the `c` at its end, where it ends with one: one `c` is taken
/// off, never more.
pub open spec fn strip_trailing(s: Seq<char>, c: char) -> Seq<char> {
    if s.len() > 0 && s.last() == c {
        s.drop_last()
    } else {
        s
    }
}

/// The parts of `s` between each `sep` and the next, in order. There is
/// always a first part, and a part is empty where two separators touch or one
/// stands at an end.
pub open spec fn split(s: Seq<char>, sep: char) -> Seq<Seq<char>>
    decreases s.len(),
{
    if s.len() == 0 {
        seq![Seq::<char>::empty()]
    } else {
        let before = split(s.drop_last(), sep);
        if s.last() == sep {
            before.push(Seq::<char>::empty())
        } else {
            before.drop_last().push(before.last().push(s.last()))
        }
    }
}

/// The strings of `parts` in order, with `sep` between each and the next.
pub open spec fn join(parts: Seq<Seq<char>>, sep: char) -> Seq<char>
    decreases parts.len(),
{
    if parts.len() == 0 {
        Seq::<char>::empty()
    } else if parts.len() == 1 {
        parts[0]
    } else {
        join(parts.drop_last(), sep).push(sep) + parts.last()
    }
}

/// Calls `str::to_lowercase`. Nothing is proved of it: the contract gives
/// the result the name `lowercase`, of which nothing else is claimed.
#[verifier::external_body]
pub(crate) fn to_lowercase(s: &str) -> (r: String)
    ensures
        r@ == lowercase(s@),
{
    s.to_lowercase()
}

/// The characters of `s`, in order.
pub fn chars_of(s: &str) -> (v: Vec<char>)
    ensures
        v@ == s@,
{
    let mut v: Vec<char> = Vec::new();
    for c in it: s.chars()
        invariant
            v@ == it.seq().take(it.index() as int),
            it.seq() == s@,
    {
        v.push(c);
    }
    v
}

/// Whether `pat` stands in `s` at position `i`.
pub fn matches_at(s: &[char], pat: &[char], i: usize) -> (r: bool)
    ensures
        r == occurs_at(s@, pat@, i as int),
{
    if pat.len() > s.len() || i > s.len() - pat.len() {
        return false;
    }
    let mut k: usize = 0;
    while k < pat.len()
        invariant
            k <= pat.len(),
            i + pat.len() <= s.len(),
            forall|j: int| 0 <= j < k ==> s@[i + j] == pat@[j],
        decreases pat.len() - k,
    {
        if s[i + k] != pat[k] {
            assert(s@.subrange(i as int, i + pat@.len())[k as int] == s@[i + k]);
            return false;
        }
        k += 1;
    }
    assert(s@.subrange(i as int, i + pat@.len()) =~= pat@);
    true
}

/// Whether the two strings are equal.
pub fn same_chars(a: &[char], b: &[char]) -> (r: bool)
    ensures
        r == (a@ == b@),
{
    if a.len() != b.len() {
        return false;
    }
    let r = matches_at(a, b, 0);
    assert(a@.subrange(0, b@.len() as int) =~= a@);
    r
}

/// Whether `s` ends with `suffix`.
pub fn has_suffix(s: &[char], suffix: &[char]) -> (r: bool)
    ensures
        r == ends_with(s@, suffix@),
{
    if suffix.len() > s.len() {
        return false;
    }
    matches_at(s, suffix, s.len() - suffix.len())
}

/// Whether `s` starts with `prefix`.
pub fn has_prefix(s: &[char], prefix: &[char]) -> (r: bool)
    ensures
        r == starts_with(s@, prefix@),
{
    if prefix.len() > s.len() {
        return false;
    }
    matches_at(s, prefix, 0)
}

/// Whether `pat` stands somewhere in `s`.
pub fn has_infix(s: &[char], pat: &[char]) -> (r: bool)
    ensures
        r == contains(s@, pat@),
{
    if pat.len() > s.len() {
        return false;
    }
    let last: usize = s.len() - pat.len();
    let mut i: usize = 0;
    loop
        invariant
            last == s.len() - pat.len(),
            i <= last,
            forall|j: int| 0 <= j < i ==> !occurs_at(s@, pat@, j),
        decreases last - i,
    {
        if matches_at(s, pat, i) {
            return true;
        }
        if i == last {
            return false;
        }
        i += 1;
    }
}

/// The strings of a list of string slices.
pub open spec fn texts(list: Seq<&str>) -> Seq<Seq<char>> {
    list.map_values(|a: &str| a@)
}

/// `s` ends with one of the strings of `list`.
pub open spec fn ends_with_any(s: Seq<char>, list: Seq<Seq<char>>) -> bool {
    exists|i: int| 0 <= i < list.len() && ends_with(s, #[trigger] list[i])
}

/// One of the strings of `list` stands somewhere in `s`.
pub open spec fn contains_any(s: Seq<char>, list: Seq<Seq<char>>) -> bool {
    exists|i: int| 0 <= i < list.len() && contains(s, #[trigger] list[i])
}

/// Whether `s` is the string `chars`.
pub fn str_is(s: &str, chars: &[char]) -> (r: bool)
    ensures
        r == (s@ == chars@),
{
    let own = chars_of(s);
    same_chars(own.as_slice(), chars)
}

/// Whether the two string slices hold the same string.
pub fn same_str(a: &str, b: &str) -> (r: bool)
    ensures
        r == (a@ == b@),
{
    let own = chars_of(b);
    str_is(a, own.as_slice())
}

/// Whether `from` and `to` bound a range of `s` whose characters are the
/// string `text`.
pub fn range_is(s: &[char], from: usize, to: usize, text: &str) -> (r: bool)
    ensures
        r == (from <= to <= s@.len() && s@.subrange(from as int, to as int) == text@),
{
    if from > to || to > s.len() {
        return false;
    }
    let own = chars_of(text);
    if own.len() != to - from {
        return false;
    }
    matches_at(s, own.as_slice(), from)
}

/// Whether `s` ends with the string `suffix`.
pub fn ends_with_str(s: &[char], suffix: &str) -> (r: bool)
    ensures
        r == ends_with(s@, suffix@),
{
    let own = chars_of(suffix);
    has_suffix(s, own.as_slice())
}

/// Whether `v` is one of the strings of `list`.
pub fn list_has(list: &[&str], v: &[char]) -> (r: bool)
    ensures
        r == texts(list@).contains(v@),
{
    let mut i: usize = 0;
    while i < list.len()
        invariant
            i <= list.len(),
            forall|j: int| 0 <= j < i ==> texts(list@)[j] != v@,
        decreases list.len() - i,
    {
        if str_is(list[i], v) {
            assert(texts(list@)[i as int] == v@);
            return true;
        }
        i += 1;
    }
    false
}

/// Whether `s` ends with one of the strings of `list`.
pub fn ends_with_any_of(s: &[char], list: &[&str]) -> (r: bool)
    ensures
        r == ends_with_any(s@, texts(list@)),
{
    let mut i: usize = 0;
    while i < list.len()
        invariant
            i <= list.len(),
            forall|j: int| 0 <= j < i ==> !ends_with(s@, #[trigger] texts(list@)[j]),
        decreases list.len() - i,
    {
        if ends_with_str(s, list[i]) {
            assert(ends_with(s@, texts(list@)[i as int]));
            return true;
        }
        i += 1;
    }
    false
}

/// Whether one of the strings of `list` stands somewhere in `s`.
pub fn contains_any_of(s: &[char], list: &[&str]) -> (r: bool)
    ensures
        r == contains_any(s@, texts(list@)),
{
    let mut i: usize = 0;
    while i < list.len()
        invariant
            i <= list.len(),
            forall|j: int| 0 <= j < i ==> !contains(s@, #[trigger] texts(list@)[j]),
        decreases list.len() - i,
    {
        if has_infix(s, chars_of(list[i]).as_slice()) {
            assert(contains(s@, texts(list@)[i as int]));
            return true;
        }
        i += 1;
    }
    false
}

/// The strings that the ranges `bounds` cut out of `s`.
pub open spec fn cut(s: Seq<char>, bounds: Seq<(usize, usize)>) -> Seq<Seq<char>> {
    bounds.map_values(|b: (usize, usize)| s.subrange(b.0 as int, b.1 as int))
}

/// Where the parts of `s` between `from` and `to` lie, split at each `sep`.
pub fn split_ranges(s: &[char], from: usize, to: usize, sep: char) -> (r: Vec<(usize, usize)>)
    requires
        from <= to <= s@.len(),
    ensures
        cut(s@, r@) == split(s@.subrange(from as int, to as int), sep),
        forall|k: int| 0 <= k < r@.len() ==> from <= (#[trigger] r@[k]).0 <= r@[k].1 <= to,
        r@.len() >= 1,
{
    let mut done: Vec<(usize, usize)> = Vec::new();
    let mut start: usize = from;
    let mut i: usize = from;
    let ghost body = s@.subrange(from as int, to as int);
    proof {
        assert(body.take(0) =~= Seq::<char>::empty());
        assert(s@.subrange(start as int, i as int) =~= Seq::<char>::empty());
        assert(cut(s@, done@).push(s@.subrange(start as int, i as int)) =~= split(
            body.take(0),
            sep,
        ));
    }
    while i < to
        invariant
            from <= start <= i <= to <= s@.len(),
            body == s@.subrange(from as int, to as int),
            forall|k: int| 0 <= k < done@.len() ==> from <= (#[trigger] done@[k]).0 <= done@[k].1 <= i,
            cut(s@, done@).push(s@.subrange(start as int, i as int)) == split(
                body.take(i - from),
                sep,
            ),
        decreases to - i,
    {
        proof {
            let next = body.take(i + 1 - from);
            assert(next.drop_last() =~= body.take(i - from));
            assert(next.last() == s@[i as int]);
        }
        if s[i] == sep {
            proof {
                assert(cut(s@, done@.push((start, i))) =~= cut(s@, done@).push(
                    s@.subrange(start as int, i as int),
                ));
                assert(s@.subrange(i + 1, i + 1) =~= Seq::<char>::empty());
            }
            done.push((start, i));
            start = i + 1;
        } else {
            proof {
                let before = cut(s@, done@).push(s@.subrange(start as int, i as int));
                assert(before.drop_last() =~= cut(s@, done@));
                assert(before.last().push(s@[i as int]) =~= s@.subrange(start as int, i + 1));
            }
        }
        i += 1;
    }
    proof {
        assert(body.take(to - from) =~= body);
        assert(cut(s@, done@.push((start, to))) =~= cut(s@, done@).push(
            s@.subrange(start as int, to as int),
        ));
    }
    done.push((start, to));
    done
}

} // verus!

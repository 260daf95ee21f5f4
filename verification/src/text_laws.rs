//! What holds of splitting a string.
use crate::text::{join, split};
use vstd::prelude::*;

verus! {

/// Splitting gives at least one part.
pub proof fn lemma_split_nonempty(s: Seq<char>, sep: char)
    ensures
        split(s, sep).len() >= 1,
    decreases s.len(),
{
    if s.len() > 0 {
        lemma_split_nonempty(s.drop_last(), sep);
    }
}

/// A string without the separator is its own single part.
pub proof fn lemma_split_without_sep(s: Seq<char>, sep: char)
    requires
        !s.contains(sep),
    ensures
        split(s, sep) == seq![s],
    decreases s.len(),
{
    if s.len() == 0 {
        assert(s =~= Seq::<char>::empty());
    } else {
        let init = s.drop_last();
        assert(s.last() != sep) by {
            if s.last() == sep {
                assert(s[s.len() - 1] == sep);
            }
        }
        assert(!init.contains(sep)) by {
            if init.contains(sep) {
                let i = choose|i: int| 0 <= i < init.len() && init[i] == sep;
                assert(s[i] == sep);
            }
        }
        lemma_split_without_sep(init, sep);
        assert(seq![init].drop_last().push(init.push(s.last())) =~= seq![init.push(s.last())]);
        assert(init.push(s.last()) =~= s);
    }
}

/// No part holds the separator.
pub proof fn lemma_split_parts_clean(s: Seq<char>, sep: char, k: int)
    requires
        0 <= k < split(s, sep).len(),
    ensures
        !split(s, sep)[k].contains(sep),
    decreases s.len(),
{
    if s.len() > 0 {
        let before = split(s.drop_last(), sep);
        lemma_split_nonempty(s.drop_last(), sep);
        if k < before.len() - 1 {
            lemma_split_parts_clean(s.drop_last(), sep, k);
        } else if s.last() != sep {
            lemma_split_parts_clean(s.drop_last(), sep, before.len() - 1);
            let grown = before.last().push(s.last());
            if grown.contains(sep) {
                let i = choose|i: int| 0 <= i < grown.len() && grown[i] == sep;
                if i < before.last().len() {
                    assert(before.last()[i] == sep);
                }
            }
        } else if k == before.len() - 1 {
            lemma_split_parts_clean(s.drop_last(), sep, k);
        }
    }
}

/// The parts of two strings joined by a separator are the parts of the first
/// followed by the parts of the second.
pub proof fn lemma_split_concat(a: Seq<char>, b: Seq<char>, sep: char)
    ensures
        split(a + seq![sep] + b, sep) == split(a, sep) + split(b, sep),
    decreases b.len(),
{
    let s = a + seq![sep] + b;
    if b.len() == 0 {
        assert(s.drop_last() =~= a);
        assert(s.last() == sep);
        assert(split(a, sep).push(Seq::<char>::empty()) =~= split(a, sep) + split(b, sep));
    } else {
        let init = b.drop_last();
        assert(s.drop_last() =~= a + seq![sep] + init);
        assert(s.last() == b.last());
        lemma_split_concat(a, init, sep);
        lemma_split_nonempty(init, sep);
        let left = split(a, sep);
        let y = split(init, sep);
        let x = left + y;
        if b.last() == sep {
            assert(x.push(Seq::<char>::empty()) =~= left + y.push(Seq::<char>::empty()));
        } else {
            assert(x.last() == y.last());
            assert(x.drop_last() =~= left + y.drop_last());
            assert(x.drop_last().push(x.last().push(b.last())) =~= left + y.drop_last().push(
                y.last().push(b.last()),
            ));
        }
    }
}

/// The parts of a string, joined by the separator, are the string again.
/// With `lemma_split_parts_clean` this says what splitting is: the one way to
/// cut the string at every separator.
pub proof fn lemma_split_join(s: Seq<char>, sep: char)
    ensures
        join(split(s, sep), sep) == s,
    decreases s.len(),
{
    if s.len() == 0 {
        assert(s =~= Seq::<char>::empty());
    } else {
        let init = s.drop_last();
        let before = split(init, sep);
        let parts = split(s, sep);
        lemma_split_join(init, sep);
        lemma_split_nonempty(init, sep);
        assert(init.push(s.last()) =~= s);
        if s.last() == sep {
            assert(parts.drop_last() =~= before);
            assert(join(before, sep).push(sep) + Seq::<char>::empty() =~= init.push(sep));
        } else if before.len() == 1 {
            assert(parts.len() == 1);
        } else {
            assert(parts.drop_last() =~= before.drop_last());
            assert(join(before.drop_last(), sep).push(sep) + before.last().push(s.last()) =~= (
            join(before.drop_last(), sep).push(sep) + before.last()).push(s.last()));
        }
    }
}

/// The first part is the start of the string.
pub proof fn lemma_split_first_is_prefix(s: Seq<char>, sep: char)
    ensures
        split(s, sep).len() >= 1,
        split(s, sep).first().len() <= s.len(),
        split(s, sep).first() == s.take(split(s, sep).first().len() as int),
        split(s, sep).len() == 1 ==> split(s, sep).first() == s,
    decreases s.len(),
{
    if s.len() == 0 {
        assert(s.take(0) =~= Seq::<char>::empty());
        assert(s =~= Seq::<char>::empty());
    } else {
        let init = s.drop_last();
        let before = split(init, sep);
        lemma_split_first_is_prefix(init, sep);
        let first = before.first();
        assert(init.take(first.len() as int) =~= s.take(first.len() as int));
        if s.last() != sep && before.len() == 1 {
            assert(first.push(s.last()) =~= s);
            assert(s.take(s.len() as int) =~= s);
        }
    }
}

} // verus!

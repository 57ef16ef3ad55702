//! Splitting a sequence of characters at separators.
//!
//! [`split`] is the model of every decomposition in this crate: a path into
//! its segments, a pod directory name into its fields.

use vstd::prelude::*;

verus! {

/// No character of `s` is in `seps`.
pub open spec fn separator_free(s: Seq<char>, seps: Set<char>) -> bool {
    forall|i: int| 0 <= i < s.len() ==> !seps.contains(#[trigger] s[i])
}

/// How many characters of `s` are in `seps`.
pub open spec fn separator_count(s: Seq<char>, seps: Set<char>) -> nat
    decreases s.len(),
{
    if s.len() == 0 {
        0
    } else if seps.contains(s.last()) {
        separator_count(s.drop_last(), seps) + 1
    } else {
        separator_count(s.drop_last(), seps)
    }
}

/// The index of the first character of `s` that is in `seps`, or `s.len()`
/// where there is none.
pub open spec fn first_separator(s: Seq<char>, seps: Set<char>) -> int
    decreases s.len(),
{
    if s.len() == 0 || seps.contains(s[0]) {
        0
    } else {
        1 + first_separator(s.drop_first(), seps)
    }
}

/// The pieces of `s` that lie between its separators, in order. There is one
/// piece more than there are separators, and a piece may be empty: `a__b`
/// split at `_` is `a`, the empty piece and `b`.
pub open spec fn split(s: Seq<char>, seps: Set<char>) -> Seq<Seq<char>>
    decreases s.len(),
{
    let i = first_separator(s, seps);
    if 0 <= i < s.len() {
        seq![s.take(i)] + split(s.skip(i + 1), seps)
    } else {
        seq![s]
    }
}

/// `first_separator` is within bounds, nothing before it separates, and the
/// character at it does.
pub proof fn lemma_first_separator(s: Seq<char>, seps: Set<char>)
    ensures
        0 <= first_separator(s, seps) <= s.len(),
        separator_free(s.take(first_separator(s, seps)), seps),
        first_separator(s, seps) < s.len() ==> seps.contains(s[first_separator(s, seps)]),
        first_separator(s, seps) == s.len() <==> separator_free(s, seps),
    decreases s.len(),
{
    if s.len() == 0 || seps.contains(s[0]) {
    } else {
        let t = s.drop_first();
        lemma_first_separator(t, seps);
        let r = first_separator(t, seps);
        assert forall|i: int| 0 <= i < r + 1 implies !seps.contains(#[trigger] s.take(r + 1)[i]) by {
            if i > 0 {
                assert(s.take(r + 1)[i] == t.take(r)[i - 1]);
            }
        }
        if separator_free(t, seps) {
            assert forall|i: int| 0 <= i < s.len() implies !seps.contains(#[trigger] s[i]) by {
                if i > 0 {
                    assert(s[i] == t[i - 1]);
                }
            }
        }
        if separator_free(s, seps) {
            assert forall|i: int| 0 <= i < t.len() implies !seps.contains(#[trigger] t[i]) by {
                assert(t[i] == s[i + 1]);
            }
        }
    }
}

/// The index that `first_separator` returns is the only one with its
/// properties.
pub proof fn lemma_first_separator_at(s: Seq<char>, seps: Set<char>, i: int)
    requires
        0 <= i <= s.len(),
        separator_free(s.take(i), seps),
        i < s.len() ==> seps.contains(s[i]),
    ensures
        first_separator(s, seps) == i,
{
    lemma_first_separator(s, seps);
    let r = first_separator(s, seps);
    if r < i {
        assert(s.take(i)[r] == s[r]);
    } else if i < r {
        assert(s.take(r)[i] == s[i]);
    }
}

/// A sequence without separators is its own single piece.
pub proof fn lemma_split_separator_free(s: Seq<char>, seps: Set<char>)
    requires
        separator_free(s, seps),
    ensures
        split(s, seps) == seq![s],
{
    lemma_first_separator(s, seps);
}

/// The first piece ends at the first separator.
pub proof fn lemma_split_first(s: Seq<char>, seps: Set<char>)
    ensures
        split(s, seps).len() >= 1,
        split(s, seps)[0] == s.take(first_separator(s, seps)),
{
    lemma_first_separator(s, seps);
    assert(s.take(s.len() as int) == s);
}

/// Splitting distributes over a separator: the pieces of `s` are those of
/// what stands before the separator at `j`, then those of what follows it.
pub proof fn lemma_split_at(s: Seq<char>, seps: Set<char>, j: int)
    requires
        0 <= j < s.len(),
        seps.contains(s[j]),
    ensures
        split(s, seps) == split(s.take(j), seps) + split(s.skip(j + 1), seps),
    decreases s.len(),
{
    lemma_first_separator(s, seps);
    let i = first_separator(s, seps);
    let head = s.take(j);
    if i > j {
        assert(s.take(i)[j] == s[j]);
    }
    if i == j {
        lemma_split_separator_free(head, seps);
    } else {
        let rest = s.skip(i + 1);
        assert(head.take(i) == s.take(i));
        assert(head[i] == s[i]);
        lemma_first_separator_at(head, seps, i);
        assert(head.skip(i + 1) == rest.take(j - i - 1));
        assert(rest[j - i - 1] == s[j]);
        lemma_split_at(rest, seps, j - i - 1);
        assert(rest.skip(j - i) == s.skip(j + 1));
        assert(split(s, seps) == seq![s.take(i)] + (split(rest.take(j - i - 1), seps) + split(
            s.skip(j + 1),
            seps,
        )));
        assert(split(head, seps) == seq![s.take(i)] + split(rest.take(j - i - 1), seps));
    }
}

/// A character that does not separate, put at the end, adds no piece.
pub proof fn lemma_split_push(s: Seq<char>, seps: Set<char>, c: char)
    requires
        !seps.contains(c),
    ensures
        split(s.push(c), seps).len() == split(s, seps).len(),
    decreases s.len(),
{
    lemma_first_separator(s, seps);
    let i = first_separator(s, seps);
    let t = s.push(c);
    if i == s.len() {
        assert forall|k: int| 0 <= k < t.len() implies !seps.contains(#[trigger] t[k]) by {
            if k < s.len() {
                assert(t[k] == s[k]);
            }
        }
        lemma_split_separator_free(t, seps);
    } else {
        assert(t.take(i) == s.take(i));
        assert(t[i] == s[i]);
        lemma_first_separator_at(t, seps, i);
        assert(t.skip(i + 1) == s.skip(i + 1).push(c));
        lemma_split_push(s.skip(i + 1), seps, c);
    }
}

/// There is one piece more than there are separators.
pub proof fn lemma_split_len(s: Seq<char>, seps: Set<char>)
    ensures
        split(s, seps).len() == separator_count(s, seps) + 1,
    decreases s.len(),
{
    if s.len() == 0 {
    } else {
        let init = s.drop_last();
        lemma_split_len(init, seps);
        if seps.contains(s.last()) {
            let j = s.len() - 1;
            lemma_split_at(s, seps, j);
            assert(s.take(j) == init);
            assert(s.skip(j + 1) == Seq::<char>::empty());
        } else {
            lemma_split_push(init, seps, s.last());
            assert(init.push(s.last()) == s);
        }
    }
}

} // verus!

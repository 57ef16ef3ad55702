//! The segments of a path, and how to find them from its end.

use crate::platform::Platform;
use crate::split::{lemma_split_at, lemma_split_separator_free, separator_free, split};
use vstd::prelude::*;

verus! {

/// Whether a piece between two separators is a segment. The empty piece is
/// none, so that a doubled or a trailing separator adds nothing, and neither
/// is `.`, which names the directory that it stands in.
pub open spec fn is_segment(piece: Seq<char>) -> bool {
    piece.len() > 0 && !(piece.len() == 1 && piece[0] == '.')
}

/// The segments of `path`, outermost first: the pieces between its
/// separators, without those that are no segment. A leading separator, the
/// root, is no segment either. The split is by characters alone: a drive
/// letter or a share name is part of the piece that it stands in.
pub open spec fn segments(platform: Platform, path: Seq<char>) -> Seq<Seq<char>> {
    split(path, platform.separators()).filter(|piece: Seq<char>| is_segment(piece))
}

/// A path without separators has itself as its only segment, or none.
pub proof fn lemma_segments_of_piece(platform: Platform, piece: Seq<char>)
    requires
        separator_free(piece, platform.separators()),
    ensures
        segments(platform, piece) == if is_segment(piece) {
            seq![piece]
        } else {
            Seq::<Seq<char>>::empty()
        },
{
    let keep = |piece: Seq<char>| is_segment(piece);
    lemma_split_separator_free(piece, platform.separators());
    assert(seq![piece] == Seq::<Seq<char>>::empty().push(piece));
    Seq::<Seq<char>>::empty().lemma_filter_push(piece, keep);
    assert(Seq::<Seq<char>>::empty().filter(keep) == Seq::<Seq<char>>::empty()) by {
        Seq::<Seq<char>>::empty().lemma_filter_len(keep);
    }
}

/// The segments of a path are those of what stands before one of its
/// separators, then those of what follows it.
pub proof fn lemma_segments_at(platform: Platform, path: Seq<char>, j: int)
    requires
        0 <= j < path.len(),
        platform.separators().contains(path[j]),
    ensures
        segments(platform, path) == segments(platform, path.take(j)) + segments(
            platform,
            path.skip(j + 1),
        ),
{
    let seps = platform.separators();
    lemma_split_at(path, seps, j);
    Seq::filter_distributes_over_add(
        split(path.take(j), seps),
        split(path.skip(j + 1), seps),
        |piece: Seq<char>| is_segment(piece),
    );
}

/// Where nothing separates from `from` on, and a separator stands just before
/// `from`, the last piece of `path` starts at `from`: the segments of `path`
/// are those of what stands before `from`, and then that piece if it is one.
pub proof fn lemma_segments_last_piece(platform: Platform, path: Seq<char>, from: int)
    requires
        0 <= from <= path.len(),
        separator_free(path.skip(from), platform.separators()),
        from > 0 ==> platform.separators().contains(path[from - 1]),
    ensures
        from > 0 ==> segments(platform, path.take(from)) == segments(platform, path.take(from - 1)),
        from == 0 ==> segments(platform, path.take(from)).len() == 0,
        segments(platform, path) == if is_segment(path.skip(from)) {
            segments(platform, path.take(from)).push(path.skip(from))
        } else {
            segments(platform, path.take(from))
        },
{
    let piece = path.skip(from);
    let before = path.take(from);
    let nothing = Seq::<char>::empty();
    lemma_segments_of_piece(platform, piece);
    lemma_segments_of_piece(platform, nothing);
    if from > 0 {
        lemma_segments_at(platform, path, from - 1);
        lemma_segments_at(platform, before, from - 1);
        assert(before.skip(from) == nothing);
        assert(before.take(from - 1) == path.take(from - 1));
        assert(segments(platform, before) == segments(platform, path.take(from - 1)));
        assert(segments(platform, path) == segments(platform, before) + segments(platform, piece));
    } else {
        assert(before == nothing);
        assert(piece == path);
    }
}

/// A segment put right behind a path that is empty or ends in a separator
/// becomes its last segment and changes none of the others.
pub proof fn lemma_segments_begin(platform: Platform, prefix: Seq<char>, piece: Seq<char>)
    requires
        prefix.len() == 0 || platform.separators().contains(prefix.last()),
        separator_free(piece, platform.separators()),
        is_segment(piece),
    ensures
        segments(platform, prefix + piece) == segments(platform, prefix).push(piece),
{
    let whole = prefix + piece;
    let from = prefix.len() as int;
    assert(whole.skip(from) == piece);
    assert(whole.take(from) == prefix);
    lemma_segments_last_piece(platform, whole, from);
}

/// A segment put behind a path, after a separator, becomes its last segment
/// and changes none of the others.
pub proof fn lemma_segments_push(platform: Platform, path: Seq<char>, sep: char, piece: Seq<char>)
    requires
        platform.separators().contains(sep),
        separator_free(piece, platform.separators()),
        is_segment(piece),
    ensures
        segments(platform, path + seq![sep] + piece) == segments(platform, path).push(piece),
{
    let whole = path + seq![sep] + piece;
    let j = path.len() as int;
    assert(whole[j] == sep);
    assert(whole.take(j) == path);
    assert(whole.skip(j + 1) == piece);
    lemma_segments_at(platform, whole, j);
    lemma_segments_of_piece(platform, piece);
}

/// The characters of `s`, in order.
pub fn chars_of(s: &str) -> (chars: Vec<char>)
    ensures
        chars@ == s@,
{
    let mut chars: Vec<char> = Vec::new();
    for c in it: s.chars()
        invariant
            chars@ == it.seq().take(it.index() as int),
            it.seq() == s@,
    {
        chars.push(c);
    }
    chars
}

/// Finds the last segment among the first `end` characters: `Some((from, to))`
/// where it is `chars[from..to]`, `None` where they hold no segment. What
/// stands before `from` holds the segments that come before it.
pub fn last_segment(platform: Platform, chars: &Vec<char>, end: usize) -> (found: Option<
    (usize, usize),
>)
    requires
        end <= chars.len(),
    ensures
        match found {
            Some((from, to)) => {
                &&& from < to <= end
                &&& is_segment(chars@.subrange(from as int, to as int))
                &&& separator_free(chars@.subrange(from as int, to as int), platform.separators())
                &&& segments(platform, chars@.take(end as int)) == segments(
                    platform,
                    chars@.take(from as int),
                ).push(chars@.subrange(from as int, to as int))
            },
            None => segments(platform, chars@.take(end as int)).len() == 0,
        },
{
    let mut to: usize = end;
    loop
        invariant
            to <= end <= chars.len(),
            segments(platform, chars@.take(end as int)) == segments(platform, chars@.take(to as int)),
        decreases to,
    {
        let from = piece_start(platform, chars, to);
        let ghost upto = chars@.take(to as int);
        let ghost piece = chars@.subrange(from as int, to as int);
        proof {
            assert(upto.skip(from as int) == piece);
            assert(upto.take(from as int) == chars@.take(from as int));
            if from > 0 {
                assert(upto[from - 1] == chars@[from - 1]);
                assert(upto.take(from - 1) == chars@.take(from - 1));
            }
            lemma_segments_last_piece(platform, upto, from as int);
        }
        let dot = to - from == 1 && chars[from] == '.';
        if to > from && !dot {
            return Some((from, to));
        }
        if from == 0 {
            return None;
        }
        to = from - 1;
    }
}

/// Where the piece that ends before `to` starts: the least `from` with no
/// separator in `chars[from..to]`.
fn piece_start(platform: Platform, chars: &Vec<char>, to: usize) -> (from: usize)
    requires
        to <= chars.len(),
    ensures
        from <= to,
        separator_free(chars@.subrange(from as int, to as int), platform.separators()),
        from > 0 ==> platform.separators().contains(chars@[from - 1]),
{
    let mut from: usize = to;
    while from > 0 && !platform.is_separator(chars[from - 1])
        invariant
            from <= to <= chars.len(),
            separator_free(chars@.subrange(from as int, to as int), platform.separators()),
        decreases from,
    {
        from -= 1;
        assert forall|i: int| 0 <= i < to - from implies !platform.separators().contains(
            #[trigger] chars@.subrange(from as int, to as int)[i],
        ) by {
            if i > 0 {
                assert(chars@.subrange(from as int, to as int)[i] == chars@.subrange(
                    from + 1,
                    to as int,
                )[i - 1]);
            }
        }
    }
    from
}

} // verus!

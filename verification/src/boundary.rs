//! Character boundaries in UTF-8 text, and how edits keep them.

use vstd::prelude::*;
use vstd::utf8::{
    is_char_boundary, is_char_boundary_iff_not_is_continuation_byte,
    is_char_boundary_start_end_of_seq, is_continuation_byte, valid_utf8, valid_utf8_concat,
    valid_utf8_split,
};

verus! {

/// The last character boundary at or before `at`.
pub open spec fn floor_boundary(s: Seq<u8>, at: int) -> int
    decreases at,
{
    if at <= 0 {
        0
    } else if is_char_boundary(s, at) {
        at
    } else {
        floor_boundary(s, at - 1)
    }
}

/// The first character boundary at or behind `at`.
pub open spec fn ceil_boundary(s: Seq<u8>, at: int) -> int
    decreases s.len() - at,
{
    if at >= s.len() {
        s.len() as int
    } else if is_char_boundary(s, at) {
        at
    } else {
        ceil_boundary(s, at + 1)
    }
}

/// The character boundary before `at`: where the character that ends at `at` begins.
pub open spec fn prev_boundary(s: Seq<u8>, at: int) -> int {
    floor_boundary(s, at - 1)
}

/// The character boundary behind `at`: where the character that begins at `at` ends.
pub open spec fn next_boundary(s: Seq<u8>, at: int) -> int {
    ceil_boundary(s, at + 1)
}

/// In valid text an offset is a character boundary exactly if it is the end of
/// the text or the byte at it is no continuation byte.
pub proof fn lemma_boundary_local(s: Seq<u8>, i: int)
    requires
        valid_utf8(s),
        0 <= i <= s.len(),
    ensures
        is_char_boundary(s, i) <==> (i == s.len() || !is_continuation_byte(s[i])),
{
    if i == s.len() {
        is_char_boundary_start_end_of_seq(s);
    } else {
        is_char_boundary_iff_not_is_continuation_byte(s, i);
    }
}

/// Valid text begins with a byte that is no continuation byte.
pub proof fn lemma_first_byte(s: Seq<u8>)
    requires
        valid_utf8(s),
        s.len() > 0,
    ensures
        !is_continuation_byte(s[0]),
{
    is_char_boundary_start_end_of_seq(s);
    lemma_boundary_local(s, 0);
}

/// Two valid texts joined are valid, and the joint is a character boundary.
pub proof fn lemma_join(a: Seq<u8>, b: Seq<u8>)
    requires
        valid_utf8(a),
        valid_utf8(b),
    ensures
        valid_utf8(a + b),
        is_char_boundary(a + b, a.len() as int),
{
    valid_utf8_concat(a, b);
    if b.len() > 0 {
        lemma_first_byte(b);
        assert((a + b)[a.len() as int] == b[0]);
    }
    lemma_boundary_local(a + b, a.len() as int);
}

/// Valid text cut at a character boundary gives two valid texts.
pub proof fn lemma_split(s: Seq<u8>, i: int)
    requires
        valid_utf8(s),
        is_char_boundary(s, i),
        0 <= i <= s.len(),
    ensures
        valid_utf8(s.subrange(0, i)),
        valid_utf8(s.subrange(i, s.len() as int)),
{
    valid_utf8_split(s, i);
}

/// The bytes between two character boundaries of valid text are valid text.
pub proof fn lemma_between(s: Seq<u8>, from: int, to: int)
    requires
        valid_utf8(s),
        0 <= from <= to <= s.len(),
        is_char_boundary(s, from),
        is_char_boundary(s, to),
    ensures
        valid_utf8(s.subrange(from, to)),
{
    lemma_split(s, to);
    let head = s.subrange(0, to);
    lemma_boundary_local(s, from);
    lemma_boundary_local(head, from);
    if from < to {
        assert(head[from] == s[from]);
    }
    lemma_split(head, from);
    assert(s.subrange(from, to) =~= head.subrange(from, to));
}

/// A byte below 128 is a character of its own: boundaries lie before and behind it.
pub proof fn lemma_ascii(s: Seq<u8>, i: int)
    requires
        valid_utf8(s),
        0 <= i < s.len(),
        s[i] < 128,
    ensures
        is_char_boundary(s, i),
        is_char_boundary(s, i + 1),
{
    lemma_boundary_local(s, i);
    lemma_split(s, i);
    let tail = s.subrange(i, s.len() as int);
    assert(tail[0] == s[i]);
    let rest = tail.subrange(1, tail.len() as int);
    assert(valid_utf8(rest));
    if rest.len() > 0 {
        lemma_first_byte(rest);
        assert(rest[0] == s[i + 1]);
    }
    lemma_boundary_local(s, i + 1);
}

/// `floor_boundary` is a boundary at or before `at`, and none lies between.
pub proof fn lemma_floor(s: Seq<u8>, at: int)
    requires
        valid_utf8(s),
        at <= s.len(),
    ensures
        at >= 0 ==> 0 <= floor_boundary(s, at) <= at,
        at < 0 ==> floor_boundary(s, at) == 0,
        is_char_boundary(s, floor_boundary(s, at)),
        forall|k: int| floor_boundary(s, at) < k <= at ==> !is_char_boundary(s, k),
    decreases at,
{
    is_char_boundary_start_end_of_seq(s);
    if at > 0 && !is_char_boundary(s, at) {
        lemma_floor(s, at - 1);
    }
}

/// `ceil_boundary` is a boundary at or behind `at`, and none lies between.
pub proof fn lemma_ceil(s: Seq<u8>, at: int)
    requires
        valid_utf8(s),
        0 <= at,
    ensures
        at <= s.len() ==> at <= ceil_boundary(s, at) <= s.len(),
        at > s.len() ==> ceil_boundary(s, at) == s.len(),
        is_char_boundary(s, ceil_boundary(s, at)),
        forall|k: int| at <= k < ceil_boundary(s, at) ==> !is_char_boundary(s, k),
    decreases s.len() - at,
{
    is_char_boundary_start_end_of_seq(s);
    if at < s.len() && !is_char_boundary(s, at) {
        lemma_ceil(s, at + 1);
    }
}

/// Whether the bytes `part` stand in `s` at offset `at`.
pub open spec fn stands_at(s: Seq<u8>, at: int, part: Seq<u8>) -> bool {
    0 <= at && at + part.len() <= s.len() && s.subrange(at, at + part.len()) == part
}

/// The text with `t` put in at `at`.
pub open spec fn spliced(s: Seq<u8>, at: int, t: Seq<u8>) -> Seq<u8> {
    s.subrange(0, at) + t + s.subrange(at, s.len() as int)
}

/// The text without the bytes from `from` up to `to`.
pub open spec fn cut(s: Seq<u8>, from: int, to: int) -> Seq<u8> {
    s.subrange(0, from) + s.subrange(to, s.len() as int)
}

/// Valid text put into valid text at a boundary gives valid text, with
/// boundaries before and behind what was put in.
pub proof fn lemma_spliced_valid(s: Seq<u8>, at: int, t: Seq<u8>)
    requires
        valid_utf8(s),
        valid_utf8(t),
        0 <= at <= s.len(),
        is_char_boundary(s, at),
    ensures
        valid_utf8(spliced(s, at, t)),
        is_char_boundary(spliced(s, at, t), at),
        is_char_boundary(spliced(s, at, t), at + t.len()),
{
    lemma_split(s, at);
    let a = s.subrange(0, at);
    let b = s.subrange(at, s.len() as int);
    lemma_join(a, t);
    lemma_join(a + t, b);
    lemma_join(t, b);
    lemma_join(a, t + b);
    assert(a + (t + b) =~= a + t + b);
}

/// Valid text with the bytes between two boundaries removed is valid, and the
/// place of the removal is a boundary.
pub proof fn lemma_cut_valid(s: Seq<u8>, from: int, to: int)
    requires
        valid_utf8(s),
        0 <= from <= to <= s.len(),
        is_char_boundary(s, from),
        is_char_boundary(s, to),
    ensures
        valid_utf8(cut(s, from, to)),
        is_char_boundary(cut(s, from, to), from),
{
    lemma_split(s, from);
    lemma_split(s, to);
    lemma_join(s.subrange(0, from), s.subrange(to, s.len() as int));
}

} // verus!

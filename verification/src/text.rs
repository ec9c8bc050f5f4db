//! The line structure of a document, stated over its UTF-8 bytes.
//!
//! Lines are separated by line feeds. An offset is addressed either globally
//! (bytes from the start of the document) or as a line and a byte inside it.

use vstd::prelude::*;

verus! {

/// The number of line feeds in `s`.
pub open spec fn lf_count(s: Seq<u8>) -> nat
    decreases s.len(),
{
    if s.len() == 0 {
        0
    } else {
        lf_count(s.drop_last()) + if s.last() == 10u8 {
            1nat
        } else {
            0nat
        }
    }
}

/// The offset just behind the last line feed of `s`, or 0 where it has none.
pub open spec fn tail_start(s: Seq<u8>) -> int
    decreases s.len(),
{
    if s.len() == 0 {
        0
    } else if s.last() == 10u8 {
        s.len() as int
    } else {
        tail_start(s.drop_last())
    }
}

/// The number of bytes of `s` behind its last line feed.
pub open spec fn tail_len(s: Seq<u8>) -> int {
    s.len() - tail_start(s)
}

/// The index of the line that holds offset `at`.
pub open spec fn line_of(s: Seq<u8>, at: int) -> nat {
    lf_count(s.subrange(0, at))
}

/// The offset at which the line that holds offset `at` begins.
pub open spec fn line_begin(s: Seq<u8>, at: int) -> int {
    tail_start(s.subrange(0, at))
}

/// Whether `p` is the offset at which line `line` of `s` begins: exactly `line`
/// line feeds precede it, and it is the start of `s` or follows a line feed.
pub open spec fn is_line_start(s: Seq<u8>, line: nat, p: int) -> bool {
    &&& 0 <= p <= s.len()
    &&& lf_count(s.subrange(0, p)) == line
    &&& (p == 0 || s[p - 1] == 10u8)
}

/// The offset at which line `line` of `s` begins, for `line <= lf_count(s)`.
pub open spec fn line_start(s: Seq<u8>, line: nat) -> int {
    choose|p: int| is_line_start(s, line, p)
}

/// The offset of the first line feed at or behind `from`, or the length of `s`
/// where none follows.
pub open spec fn next_lf(s: Seq<u8>, from: int) -> int
    decreases s.len() - from,
{
    if from < 0 || from >= s.len() {
        s.len() as int
    } else if s[from] == 10u8 {
        from
    } else {
        next_lf(s, from + 1)
    }
}

/// The offset at which the content of the line that begins at `start` ends. The
/// line feed that ends a line is no part of its content, nor is a carriage
/// return directly before that line feed.
pub open spec fn content_end(s: Seq<u8>, start: int) -> int {
    let e = next_lf(s, start);
    if start < e && e < s.len() && s[e - 1] == 13u8 {
        e - 1
    } else {
        e
    }
}

/// The content of line `line` of `s`.
pub open spec fn line_bytes(s: Seq<u8>, line: nat) -> Seq<u8> {
    s.subrange(line_start(s, line), content_end(s, line_start(s, line)))
}

/// The number of lines of `s`, where a line feed at the very end opens one more,
/// empty line.
pub open spec fn line_count(s: Seq<u8>) -> nat {
    lf_count(s) + 1
}

/// The number of lines of `s` that hold text or are ended by a line feed: the
/// empty line behind a final line feed is not counted, and empty text has none.
pub open spec fn stored_lines(s: Seq<u8>) -> nat {
    if s.len() == 0 {
        0
    } else if s.last() == 10u8 {
        lf_count(s)
    } else {
        lf_count(s) + 1
    }
}

/// The line feeds of two pieces joined are those of the one and those of the other.
pub proof fn lemma_lf_count_concat(a: Seq<u8>, b: Seq<u8>)
    ensures
        lf_count(a + b) == lf_count(a) + lf_count(b),
    decreases b.len(),
{
    if b.len() == 0 {
        assert(a + b =~= a);
    } else {
        assert((a + b).drop_last() =~= a + b.drop_last());
        lemma_lf_count_concat(a, b.drop_last());
    }
}

/// There are no more line feeds than bytes.
pub proof fn lemma_lf_count_bound(s: Seq<u8>)
    ensures
        lf_count(s) <= s.len(),
    decreases s.len(),
{
    if s.len() > 0 {
        lemma_lf_count_bound(s.drop_last());
    }
}

/// Line feeds are counted piecewise: those before `j` are those before `i` and
/// those between the two.
pub proof fn lemma_lf_count_split(s: Seq<u8>, i: int, j: int)
    requires
        0 <= i <= j <= s.len(),
    ensures
        lf_count(s.subrange(0, j)) == lf_count(s.subrange(0, i)) + lf_count(s.subrange(i, j)),
        lf_count(s.subrange(0, i)) <= lf_count(s.subrange(0, j)),
        lf_count(s.subrange(0, j)) <= lf_count(s),
{
    assert(s.subrange(0, j) =~= s.subrange(0, i) + s.subrange(i, j));
    lemma_lf_count_concat(s.subrange(0, i), s.subrange(i, j));
    assert(s =~= s.subrange(0, j) + s.subrange(j, s.len() as int));
    lemma_lf_count_concat(s.subrange(0, j), s.subrange(j, s.len() as int));
}

/// A sequence without line feeds counts none, and the other way round.
pub proof fn lemma_lf_count_zero(s: Seq<u8>)
    ensures
        lf_count(s) == 0 <==> (forall|k: int| 0 <= k < s.len() ==> s[k] != 10u8),
        lf_count(s) == 0 ==> tail_start(s) == 0,
        lf_count(s) > 0 ==> 0 < tail_start(s) <= s.len() && s[tail_start(s) - 1] == 10u8,
        0 <= tail_start(s) <= s.len(),
        forall|k: int| tail_start(s) <= k < s.len() ==> s[k] != 10u8,
    decreases s.len(),
{
    if s.len() > 0 {
        let r = s.drop_last();
        lemma_lf_count_zero(r);
        if s.last() == 10u8 {
            assert(s[s.len() - 1] == 10u8);
        } else {
            assert forall|k: int| tail_start(s) <= k < s.len() implies s[k] != 10u8 by {
                if k < r.len() {
                    assert(r[k] == s[k]);
                }
            }
            if lf_count(r) == 0 {
                assert forall|k: int| 0 <= k < s.len() implies s[k] != 10u8 by {
                    if k < r.len() {
                        assert(r[k] == s[k]);
                    }
                }
            } else {
                assert(r[tail_start(r) - 1] == s[tail_start(r) - 1]);
            }
        }
    }
}

/// Behind a second piece the last line feed is that of the second piece, or that
/// of the first where the second has none.
pub proof fn lemma_tail_start_concat(a: Seq<u8>, b: Seq<u8>)
    ensures
        tail_start(a + b) == if lf_count(b) > 0 {
            a.len() + tail_start(b)
        } else {
            tail_start(a)
        },
    decreases b.len(),
{
    if b.len() == 0 {
        assert(a + b =~= a);
    } else {
        assert((a + b).drop_last() =~= a + b.drop_last());
        lemma_tail_start_concat(a, b.drop_last());
    }
}

/// The line that holds an offset begins at a line start, at or before the
/// offset, with no line feed between the two.
pub proof fn lemma_line_begin(s: Seq<u8>, at: int)
    requires
        0 <= at <= s.len(),
    ensures
        is_line_start(s, line_of(s, at), line_begin(s, at)),
        line_begin(s, at) <= at,
        forall|k: int| line_begin(s, at) <= k < at ==> s[k] != 10u8,
        line_of(s, at) <= lf_count(s),
{
    let u = s.subrange(0, at);
    let p = tail_start(u);
    lemma_lf_count_zero(u);
    lemma_lf_count_split(s, p, at);
    lemma_lf_count_zero(s.subrange(p, at));
    assert forall|k: int| 0 <= k < at - p implies s.subrange(p, at)[k] != 10u8 by {
        assert(s.subrange(p, at)[k] == u[p + k]);
    }
    assert forall|k: int| p <= k < at implies s[k] != 10u8 by {
        assert(u[k] == s[k]);
    }
    if p > 0 {
        assert(u[p - 1] == s[p - 1]);
    }
}

/// A line begins at one offset only.
pub proof fn lemma_line_start_unique(s: Seq<u8>, line: nat, p: int, q: int)
    requires
        is_line_start(s, line, p),
        is_line_start(s, line, q),
    ensures
        p == q,
{
    if p < q {
        lemma_line_start_after(s, p, q);
    } else if q < p {
        lemma_line_start_after(s, q, p);
    }
}

proof fn lemma_line_start_after(s: Seq<u8>, p: int, q: int)
    requires
        0 <= p < q <= s.len(),
        s[q - 1] == 10u8,
    ensures
        lf_count(s.subrange(0, p)) < lf_count(s.subrange(0, q)),
{
    lemma_lf_count_split(s, p, q);
    let m = s.subrange(p, q);
    assert(m[q - 1 - p] == 10u8);
    lemma_lf_count_zero(m);
}

/// Every line up to the last has a start, and `line_start` names it.
pub proof fn lemma_line_start(s: Seq<u8>, line: nat)
    requires
        line <= lf_count(s),
    ensures
        is_line_start(s, line, line_start(s, line)),
    decreases s.len(),
{
    if line == lf_count(s) {
        assert(s.subrange(0, s.len() as int) =~= s);
        lemma_line_begin(s, s.len() as int);
    } else {
        let r = s.drop_last();
        lemma_line_start(r, line);
        let p = line_start(r, line);
        assert(r.subrange(0, p) =~= s.subrange(0, p));
        if p > 0 {
            assert(r[p - 1] == s[p - 1]);
        }
        assert(is_line_start(s, line, p));
    }
}

/// What `line_start` is, given any offset known to start the line.
pub proof fn lemma_line_start_is(s: Seq<u8>, line: nat, p: int)
    requires
        is_line_start(s, line, p),
    ensures
        line_start(s, line) == p,
{
    lemma_line_start_unique(s, line, p, line_start(s, line));
}

/// `next_lf` stays inside the text, passes no line feed and stops on one or at
/// the end.
pub proof fn lemma_next_lf(s: Seq<u8>, from: int)
    requires
        0 <= from <= s.len(),
    ensures
        from <= next_lf(s, from) <= s.len(),
        forall|k: int| from <= k < next_lf(s, from) ==> s[k] != 10u8,
        next_lf(s, from) < s.len() ==> s[next_lf(s, from)] == 10u8,
        from <= content_end(s, from) <= next_lf(s, from),
    decreases s.len() - from,
{
    if from < s.len() && s[from] != 10u8 {
        lemma_next_lf(s, from + 1);
    }
}

/// Where no line feed lies between `from` and `to`, the first line feed behind
/// `from` is that behind `to`.
pub proof fn lemma_next_lf_skip(s: Seq<u8>, from: int, to: int)
    requires
        0 <= from <= to <= s.len(),
        forall|k: int| from <= k < to ==> s[k] != 10u8,
    ensures
        next_lf(s, from) == next_lf(s, to),
    decreases to - from,
{
    if from < to {
        lemma_next_lf_skip(s, from + 1, to);
    }
}

/// An offset that no line feed separates from a line start lies on that line.
pub proof fn lemma_on_line(s: Seq<u8>, line: nat, p: int, at: int)
    requires
        is_line_start(s, line, p),
        p <= at <= s.len(),
        forall|k: int| p <= k < at ==> s[k] != 10u8,
    ensures
        line_of(s, at) == line,
        line_begin(s, at) == p,
{
    lemma_lf_count_split(s, p, at);
    let m = s.subrange(p, at);
    assert forall|k: int| 0 <= k < m.len() implies m[k] != 10u8 by {
        assert(m[k] == s[p + k]);
    }
    lemma_lf_count_zero(m);
    lemma_line_begin(s, at);
    lemma_line_start_unique(s, line, p, line_begin(s, at));
}

/// The last line is empty exactly where the text is empty or ends in a line
/// feed; it is then the one line that is not stored.
pub proof fn lemma_last_line(s: Seq<u8>)
    ensures
        lf_count(s) <= stored_lines(s) <= lf_count(s) + 1,
        stored_lines(s) == lf_count(s) ==> line_start(s, lf_count(s)) == s.len(),
        stored_lines(s) <= s.len(),
{
    lemma_lf_count_bound(s);
    if s.len() == 0 || s.last() == 10u8 {
        assert(s.subrange(0, s.len() as int) =~= s);
        assert(is_line_start(s, lf_count(s), s.len() as int));
        lemma_line_start_is(s, lf_count(s), s.len() as int);
    } else {
        lemma_lf_count_bound(s.drop_last());
    }
}

} // verus!

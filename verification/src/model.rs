//! What editing does, stated on the bytes of a document and one offset into them.

use crate::boundary::{
    cut, floor_boundary, lemma_ascii, lemma_between, lemma_boundary_local, lemma_ceil,
    lemma_cut_valid, lemma_first_byte, lemma_floor, lemma_join, lemma_split,
    lemma_spliced_valid, next_boundary, prev_boundary, spliced, stands_at,
};
use crate::cursor::CursorWithCharacter;
use crate::edit::Edit;
use crate::text::{
    content_end, lemma_lf_count_bound, lemma_lf_count_concat, lemma_line_begin, lemma_line_start,
    lemma_line_start_is, lemma_next_lf, lemma_next_lf_skip, lemma_on_line,
    lemma_tail_start_concat, lf_count, line_begin, line_bytes, line_of, line_start, next_lf,
    tail_len,
};
use vstd::prelude::*;
use vstd::utf8::{
    decode_utf8, encode_scalar, encode_utf8, encode_utf8_first_scalar, encode_utf8_valid_utf8,
    is_char_boundary, is_char_boundary_start_end_of_seq, is_continuation_byte,
    length_of_first_scalar, pop_first_scalar, valid_utf8,
};

verus! {

/// A document and its cursor as mathematics: the bytes of the text, and the
/// cursor as an offset into them.
pub struct DocState {
    pub text: Seq<u8>,
    pub pos: int,
}

/// The text is valid UTF-8 whose line count fits a `usize`, and the cursor lies
/// on a character boundary of it.
pub open spec fn doc_wf(d: DocState) -> bool {
    &&& valid_utf8(d.text)
    &&& d.text.len() < usize::MAX
    &&& 0 <= d.pos <= d.text.len()
    &&& is_char_boundary(d.text, d.pos)
}

/// The line that the cursor is on.
pub open spec fn doc_line(d: DocState) -> nat {
    line_of(d.text, d.pos)
}

/// The cursor's byte offset inside its line.
pub open spec fn doc_byte(d: DocState) -> int {
    d.pos - line_begin(d.text, d.pos)
}

/// The number of characters between the start of the line that holds `at` and `at`.
pub open spec fn char_index(s: Seq<u8>, at: int) -> nat {
    decode_utf8(s.subrange(line_begin(s, at), at)).len()
}

/// The position of offset `at`: its line, its byte inside the line and the
/// number of characters before it on the line.
pub open spec fn cursor_at(s: Seq<u8>, at: int) -> CursorWithCharacter {
    CursorWithCharacter {
        byte: (at - line_begin(s, at)) as usize,
        character: char_index(s, at) as usize,
        line: line_of(s, at) as usize,
    }
}

/// The offset at which the content of the cursor's line ends.
pub open spec fn doc_line_end(d: DocState) -> int {
    content_end(d.text, line_begin(d.text, d.pos))
}

/// Typing `t` at the cursor: the bytes go in there and the cursor ends behind them.
pub open spec fn insert_at(d: DocState, t: Seq<u8>) -> DocState {
    DocState { text: spliced(d.text, d.pos, t), pos: d.pos + t.len() }
}

/// Backspace: the character before the cursor goes, a line feed like any other,
/// and the cursor ends where it began. At the start of the text nothing changes.
pub open spec fn delete_back(d: DocState) -> DocState {
    if d.pos <= 0 {
        d
    } else {
        DocState {
            text: cut(d.text, prev_boundary(d.text, d.pos), d.pos),
            pos: prev_boundary(d.text, d.pos),
        }
    }
}

/// One character to the left, unless the cursor is at the start of its line.
pub open spec fn move_left(d: DocState) -> DocState {
    if doc_byte(d) <= 0 {
        d
    } else {
        DocState { text: d.text, pos: prev_boundary(d.text, d.pos) }
    }
}

/// One character to the right, unless the cursor is at or behind the end of its
/// line's content.
pub open spec fn move_right(d: DocState) -> DocState {
    if d.pos >= doc_line_end(d) {
        d
    } else {
        DocState { text: d.text, pos: next_boundary(d.text, d.pos) }
    }
}

/// To line `line`, keeping the byte offset as far as that line's content
/// reaches, and from there back to the nearest character boundary.
pub open spec fn move_to_line(d: DocState, line: nat) -> DocState {
    let start = line_start(d.text, line);
    let limit = content_end(d.text, start) - start;
    let byte = if doc_byte(d) < limit {
        doc_byte(d)
    } else {
        limit
    };
    DocState { text: d.text, pos: floor_boundary(d.text, start + byte) }
}

/// One line up; on the first line, the cursor stays on it.
pub open spec fn move_up(d: DocState) -> DocState {
    move_to_line(
        d,
        if doc_line(d) == 0 {
            0
        } else {
            (doc_line(d) - 1) as nat
        },
    )
}

/// One line down; on the last line, the cursor stays on it.
pub open spec fn move_down(d: DocState) -> DocState {
    move_to_line(
        d,
        if doc_line(d) < lf_count(d.text) {
            doc_line(d) + 1
        } else {
            doc_line(d)
        },
    )
}

/// The cursor's line and byte give its offset back.
pub proof fn lemma_locate(s: Seq<u8>, at: int)
    requires
        0 <= at <= s.len(),
    ensures
        line_of(s, at) <= lf_count(s) <= s.len(),
        line_start(s, line_of(s, at)) == line_begin(s, at),
        0 <= line_begin(s, at) <= at,
        at <= next_lf(s, line_begin(s, at)),
        next_lf(s, line_begin(s, at)) == next_lf(s, at),
{
    lemma_line_begin(s, at);
    lemma_line_start_is(s, line_of(s, at), line_begin(s, at));
    lemma_lf_count_bound(s);
    lemma_next_lf_skip(s, line_begin(s, at), at);
    lemma_next_lf(s, at);
}

/// In valid text every line begins and every line's content ends on a
/// character boundary.
pub proof fn lemma_line_edges(s: Seq<u8>, start: int)
    requires
        valid_utf8(s),
        0 <= start <= s.len(),
        start == 0 || s[start - 1] == 10u8,
    ensures
        is_char_boundary(s, start),
        is_char_boundary(s, content_end(s, start)),
        is_char_boundary(s, next_lf(s, start)),
{
    is_char_boundary_start_end_of_seq(s);
    if start > 0 {
        lemma_ascii(s, start - 1);
    }
    lemma_next_lf(s, start);
    let e = next_lf(s, start);
    if e < s.len() {
        lemma_ascii(s, e);
        if content_end(s, start) != e {
            lemma_ascii(s, e - 1);
        }
    }
}

/// Where typing leaves the cursor: as many lines further down as the text has
/// line feeds, behind what follows the last of them; without a line feed, on
/// the same line and further right by the length of the text.
pub proof fn lemma_insert_cursor(d: DocState, t: Seq<u8>)
    requires
        0 <= d.pos <= d.text.len(),
    ensures
        doc_line(insert_at(d, t)) == doc_line(d) + lf_count(t),
        doc_byte(insert_at(d, t)) == if lf_count(t) > 0 {
            tail_len(t)
        } else {
            doc_byte(d) + t.len()
        },
        insert_at(d, t).text.len() == d.text.len() + t.len(),
{
    let a = d.text.subrange(0, d.pos);
    let n = insert_at(d, t);
    assert(n.text.subrange(0, n.pos) =~= a + t);
    lemma_lf_count_concat(a, t);
    lemma_tail_start_concat(a, t);
}

/// Edit/mutation consistency of typing, for every text: what is typed goes in
/// at the cursor and nowhere else, and the cursor ends as many bytes further
/// on as were typed. So an insertion spans exactly the bytes typed and begins
/// at the old cursor.
pub proof fn lemma_insert_spans_text(d: DocState, t: Seq<u8>)
    requires
        0 <= d.pos <= d.text.len(),
    ensures
        insert_at(d, t).pos - d.pos == t.len(),
        insert_at(d, t).text.len() == d.text.len() + t.len(),
        stands_at(insert_at(d, t).text, d.pos, t),
        insert_at(d, t).text.subrange(0, d.pos) == d.text.subrange(0, d.pos),
        insert_at(d, t).text.subrange(insert_at(d, t).pos, insert_at(d, t).text.len() as int)
            == d.text.subrange(d.pos, d.text.len() as int),
        cut(insert_at(d, t).text, d.pos, insert_at(d, t).pos) == d.text,
{
    let n = insert_at(d, t);
    assert(n.text.subrange(d.pos, d.pos + t.len()) =~= t);
    assert(n.text.subrange(0, d.pos) =~= d.text.subrange(0, d.pos));
    assert(n.text.subrange(n.pos, n.text.len() as int) =~= d.text.subrange(
        d.pos,
        d.text.len() as int,
    ));
    assert(cut(n.text, d.pos, n.pos) =~= d.text);
}

/// Typing valid text into a well-formed document leaves it well-formed.
pub proof fn lemma_insert_wf(d: DocState, t: Seq<u8>)
    requires
        doc_wf(d),
        valid_utf8(t),
        d.text.len() + t.len() < usize::MAX,
    ensures
        doc_wf(insert_at(d, t)),
{
    lemma_spliced_valid(d.text, d.pos, t);
}

/// Typing nothing changes nothing.
pub proof fn lemma_insert_empty(d: DocState)
    requires
        0 <= d.pos <= d.text.len(),
    ensures
        insert_at(d, Seq::<u8>::empty()) == d,
{
    assert(spliced(d.text, d.pos, Seq::<u8>::empty()) =~= d.text);
}

/// Backspace leaves a well-formed document well-formed, removes at least one
/// byte, and leaves the cursor where the removed character began.
pub proof fn lemma_delete_back(d: DocState)
    requires
        doc_wf(d),
        d.pos > 0,
    ensures
        doc_wf(delete_back(d)),
        0 <= prev_boundary(d.text, d.pos) < d.pos,
        is_char_boundary(d.text, prev_boundary(d.text, d.pos)),
        doc_line(delete_back(d)) == line_of(d.text, prev_boundary(d.text, d.pos)),
        doc_byte(delete_back(d)) == prev_boundary(d.text, d.pos) - line_begin(
            d.text,
            prev_boundary(d.text, d.pos),
        ),
        char_index(delete_back(d).text, delete_back(d).pos) == char_index(
            d.text,
            prev_boundary(d.text, d.pos),
        ),
{
    let p = prev_boundary(d.text, d.pos);
    lemma_floor(d.text, d.pos - 1);
    lemma_cut_valid(d.text, p, d.pos);
    let n = delete_back(d);
    assert(n.text.subrange(0, p) =~= d.text.subrange(0, p));
    let b = line_begin(d.text, p);
    lemma_locate(d.text, p);
    assert(n.text.subrange(b, p) =~= d.text.subrange(b, p));
}

/// What backspace removes is one character, whole: the bytes between the
/// cursor and the character boundary before it.
pub proof fn lemma_back_removes_one_character(d: DocState)
    requires
        doc_wf(d),
        d.pos > 0,
    ensures
        decode_utf8(d.text.subrange(prev_boundary(d.text, d.pos), d.pos)).len() == 1,
        delete_back(d).text.len() + (d.pos - delete_back(d).pos) == d.text.len(),
{
    let s = d.text;
    let p = prev_boundary(s, d.pos);
    lemma_floor(s, d.pos - 1);
    lemma_between(s, p, d.pos);
    let m = s.subrange(p, d.pos);
    let first = length_of_first_scalar(m);
    if first < m.len() {
        let rest = pop_first_scalar(m);
        lemma_first_byte(rest);
        assert(rest[0] == s[p + first]);
        lemma_boundary_local(s, p + first);
    }
    assert(pop_first_scalar(m) =~= Seq::<u8>::empty());
    assert(decode_utf8(m).len() == 1) by {
        reveal_with_fuel(decode_utf8, 2);
    }
}

/// The edit that typing `t` gives.
pub open spec fn insert_edit(d: DocState, t: Seq<u8>) -> Edit {
    Edit::Insert {
        start: cursor_at(d.text, d.pos),
        start_byte: d.pos as usize,
        new_end: cursor_at(insert_at(d, t).text, insert_at(d, t).pos),
        new_end_byte: insert_at(d, t).pos as usize,
    }
}

/// The edit that backspace gives, away from the start of the text.
pub open spec fn back_edit(d: DocState) -> Edit {
    Edit::Delete {
        from: cursor_at(delete_back(d).text, delete_back(d).pos),
        from_byte: delete_back(d).pos as usize,
        to: cursor_at(d.text, d.pos),
        to_byte: d.pos as usize,
    }
}

/// The state after `n` backspaces.
pub open spec fn back_times(d: DocState, n: nat) -> DocState
    decreases n,
{
    if n == 0 {
        d
    } else {
        back_times(delete_back(d), (n - 1) as nat)
    }
}

/// Whether `s` holds no carriage return.
pub open spec fn no_carriage_return(s: Seq<u8>) -> bool {
    forall|k: int| 0 <= k < s.len() ==> s[k] != 13u8
}

/// The bytes of a text are those of its first characters and then those of its
/// last character.
pub proof fn lemma_encode_last(chars: Seq<char>)
    requires
        chars.len() > 0,
    ensures
        encode_utf8(chars) == encode_utf8(chars.drop_last()) + encode_scalar(chars.last() as u32),
    decreases chars.len(),
{
    if chars.len() == 1 {
        assert(chars.drop_first() =~= Seq::<char>::empty());
        assert(chars.drop_last() =~= Seq::<char>::empty());
        assert(encode_utf8(chars) =~= encode_utf8(chars.drop_last()) + encode_scalar(
            chars.last() as u32,
        ));
    } else {
        let rest = chars.drop_first();
        lemma_encode_last(rest);
        assert(rest.drop_last() =~= chars.drop_last().drop_first());
        assert(chars.drop_last()[0] == chars[0]);
        assert(encode_utf8(chars) =~= encode_utf8(chars.drop_last()) + encode_scalar(
            chars.last() as u32,
        ));
    }
}

/// The bytes of one character are valid text, not empty, and all but the first
/// are continuation bytes.
pub proof fn lemma_one_char(c: char)
    ensures
        valid_utf8(encode_scalar(c as u32)),
        1 <= encode_scalar(c as u32).len() <= 4,
        forall|k: int|
            1 <= k < encode_scalar(c as u32).len() ==> is_continuation_byte(
                #[trigger] encode_scalar(c as u32)[k],
            ),
{
    let one = seq![c];
    assert(one.drop_first() =~= Seq::<char>::empty());
    assert(one[0] == c);
    assert(encode_utf8(one.drop_first()) =~= Seq::<u8>::empty());
    assert(encode_utf8(one) =~= encode_scalar(c as u32));
    encode_utf8_valid_utf8(one);
    encode_utf8_first_scalar(one);
}

/// Backspace behind text that was just typed removes its last character and
/// nothing else.
pub proof fn lemma_back_after_insert(d: DocState, chars: Seq<char>)
    requires
        doc_wf(d),
        chars.len() > 0,
    ensures
        delete_back(insert_at(d, encode_utf8(chars))) == insert_at(
            d,
            encode_utf8(chars.drop_last()),
        ),
{
    let init = encode_utf8(chars.drop_last());
    let e = encode_scalar(chars.last() as u32);
    lemma_encode_last(chars);
    lemma_one_char(chars.last());
    encode_utf8_valid_utf8(chars.drop_last());
    encode_utf8_valid_utf8(chars);
    let s = d.text;
    let g = d.pos;
    let n = insert_at(d, init + e);
    let q = g + init.len();
    lemma_split(s, g);
    let a = s.subrange(0, g) + init;
    let b = e + s.subrange(g, s.len() as int);
    lemma_join(s.subrange(0, g), init);
    lemma_join(e, s.subrange(g, s.len() as int));
    lemma_join(a, b);
    assert(a + b =~= n.text);
    lemma_spliced_valid(s, g, init + e);
    assert forall|k: int| q < k <= n.pos - 1 implies !is_char_boundary(n.text, k) by {
        assert(n.text[k] == e[k - q]);
        lemma_boundary_local(n.text, k);
    }
    lemma_floor(n.text, n.pos - 1);
    assert(prev_boundary(n.text, n.pos) == q);
    assert(cut(n.text, q, n.pos) =~= spliced(s, g, init));
}

/// Round trip: typing a text and then pressing backspace once for each of its
/// characters gives back the text and the cursor that were there before.
pub proof fn lemma_insert_back_round_trip(d: DocState, chars: Seq<char>)
    requires
        doc_wf(d),
    ensures
        back_times(insert_at(d, encode_utf8(chars)), chars.len()) == d,
    decreases chars.len(),
{
    if chars.len() == 0 {
        lemma_insert_empty(d);
    } else {
        lemma_back_after_insert(d, chars);
        lemma_insert_back_round_trip(d, chars.drop_last());
    }
}

/// Character-boundary invariant: a cursor that does not stand between a
/// carriage return and the line feed behind it lies inside the content of its
/// line, on a character boundary of that content.
pub proof fn lemma_cursor_on_line_boundary(d: DocState)
    requires
        doc_wf(d),
        d.pos <= doc_line_end(d),
    ensures
        cursor_on_boundary(d),
        valid_utf8(line_bytes(d.text, doc_line(d))),
{
    let s = d.text;
    lemma_locate(s, d.pos);
    lemma_line_begin(s, d.pos);
    let start = line_begin(s, d.pos);
    let end = content_end(s, start);
    lemma_next_lf(s, start);
    lemma_line_edges(s, start);
    lemma_between(s, start, end);
    let line = line_bytes(s, doc_line(d));
    lemma_boundary_local(s, d.pos);
    lemma_boundary_local(line, doc_byte(d));
    if d.pos < end {
        assert(line[doc_byte(d)] == s[d.pos]);
    }
}

/// A move to a line of the text leaves a well-formed state, with the cursor
/// inside the content of that line.
pub proof fn lemma_move_to_line(d: DocState, line: nat)
    requires
        doc_wf(d),
        line <= lf_count(d.text),
    ensures
        doc_wf(move_to_line(d, line)),
        doc_line(move_to_line(d, line)) == line,
        move_to_line(d, line).pos <= doc_line_end(move_to_line(d, line)),
{
    let s = d.text;
    let n = move_to_line(d, line);
    lemma_line_start(s, line);
    let start = line_start(s, line);
    lemma_next_lf(s, start);
    lemma_line_edges(s, start);
    lemma_locate(s, d.pos);
    let limit = content_end(s, start) - start;
    let byte = if doc_byte(d) < limit {
        doc_byte(d)
    } else {
        limit
    };
    lemma_floor(s, start + byte);
    lemma_on_line(s, line, start, n.pos);
}

/// Moves keep the character-boundary invariant: from a well-formed state whose
/// cursor lies inside the content of its line, each of the four moves leads to
/// such a state again. Vertical moves lead to one from any well-formed state.
pub proof fn lemma_moves_keep_cursor_inside(d: DocState)
    requires
        doc_wf(d),
    ensures
        doc_wf(move_up(d)) && move_up(d).pos <= doc_line_end(move_up(d)),
        doc_wf(move_down(d)) && move_down(d).pos <= doc_line_end(move_down(d)),
        doc_wf(move_left(d)),
        doc_wf(move_right(d)),
        d.pos <= doc_line_end(d) ==> move_left(d).pos <= doc_line_end(move_left(d))
            && move_right(d).pos <= doc_line_end(move_right(d)),
{
    let s = d.text;
    lemma_locate(s, d.pos);
    lemma_line_begin(s, d.pos);
    let start = line_begin(s, d.pos);
    lemma_next_lf(s, start);
    lemma_line_edges(s, start);
    lemma_move_to_line(
        d,
        if doc_line(d) == 0 {
            0
        } else {
            (doc_line(d) - 1) as nat
        },
    );
    lemma_move_to_line(
        d,
        if doc_line(d) < lf_count(s) {
            doc_line(d) + 1
        } else {
            doc_line(d)
        },
    );
    if doc_byte(d) > 0 {
        lemma_floor(s, d.pos - 1);
        lemma_on_line(s, doc_line(d), start, prev_boundary(s, d.pos));
    }
    if d.pos < doc_line_end(d) {
        lemma_ceil(s, d.pos + 1);
        lemma_on_line(s, doc_line(d), start, next_boundary(s, d.pos));
    }
}

/// In text without carriage returns the content of a line ends at its line
/// feed, so that no cursor can stand behind it: the character-boundary
/// invariant then holds of every well-formed state.
pub proof fn lemma_plain_cursor(d: DocState)
    requires
        doc_wf(d),
        no_carriage_return(d.text),
    ensures
        d.pos <= doc_line_end(d),
{
    lemma_locate(d.text, d.pos);
    lemma_next_lf(d.text, line_begin(d.text, d.pos));
}

/// Typing text without carriage returns, and backspace, leave a text without
/// carriage returns so.
pub proof fn lemma_plain_kept(d: DocState, t: Seq<u8>)
    requires
        doc_wf(d),
        no_carriage_return(d.text),
        no_carriage_return(t),
    ensures
        no_carriage_return(insert_at(d, t).text),
        no_carriage_return(delete_back(d).text),
{
    if d.pos > 0 {
        lemma_floor(d.text, d.pos - 1);
    }
}

/// Whether the cursor names a character boundary of the content of its line.
pub open spec fn cursor_on_boundary(d: DocState) -> bool {
    &&& 0 <= doc_byte(d) <= line_bytes(d.text, doc_line(d)).len()
    &&& is_char_boundary(line_bytes(d.text, doc_line(d)), doc_byte(d))
}

/// Character-boundary invariant. In a well-formed state whose text holds no
/// carriage return the cursor names a character boundary of the content of
/// its line, and every operation leads to such a state again: typing text
/// without carriage returns, backspace, and the four moves.
pub proof fn lemma_character_boundary_invariant(d: DocState, t: Seq<u8>)
    requires
        doc_wf(d),
        no_carriage_return(d.text),
        valid_utf8(t),
        no_carriage_return(t),
        d.text.len() + t.len() < usize::MAX,
    ensures
        cursor_on_boundary(d),
        doc_wf(insert_at(d, t)) && no_carriage_return(insert_at(d, t).text) && cursor_on_boundary(
            insert_at(d, t),
        ),
        doc_wf(delete_back(d)) && no_carriage_return(delete_back(d).text) && cursor_on_boundary(
            delete_back(d),
        ),
        doc_wf(move_left(d)) && cursor_on_boundary(move_left(d)),
        doc_wf(move_right(d)) && cursor_on_boundary(move_right(d)),
        doc_wf(move_up(d)) && cursor_on_boundary(move_up(d)),
        doc_wf(move_down(d)) && cursor_on_boundary(move_down(d)),
{
    lemma_plain_cursor(d);
    lemma_cursor_on_line_boundary(d);
    lemma_plain_kept(d, t);
    lemma_insert_wf(d, t);
    lemma_plain_cursor(insert_at(d, t));
    lemma_cursor_on_line_boundary(insert_at(d, t));
    if d.pos > 0 {
        lemma_delete_back(d);
    }
    lemma_plain_cursor(delete_back(d));
    lemma_cursor_on_line_boundary(delete_back(d));
    lemma_moves_keep_cursor_inside(d);
    lemma_cursor_on_line_boundary(move_left(d));
    lemma_cursor_on_line_boundary(move_right(d));
    lemma_cursor_on_line_boundary(move_up(d));
    lemma_cursor_on_line_boundary(move_down(d));
}

} // verus!
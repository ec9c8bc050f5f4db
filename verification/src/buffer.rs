//! The document buffer: the text of one file in a rope, and one cursor.

use crate::boundary::{
    lemma_ascii, lemma_between, lemma_ceil, lemma_floor, next_boundary, prev_boundary,
};
use crate::cursor::{Cursor, CursorWithCharacter};
use crate::edit::Edit;
use crate::model::{
    char_index, cursor_at, delete_back, doc_byte, doc_line, doc_line_end, doc_wf, insert_at,
    lemma_back_removes_one_character, lemma_delete_back, lemma_insert_cursor, lemma_insert_empty,
    lemma_insert_wf, lemma_line_edges, lemma_locate, move_down, move_left, move_right,
    move_to_line, move_up, DocState,
};
use crate::rope::{
    rope_byte_len, rope_byte_of_line, rope_byte_slice, rope_clone, rope_delete, rope_from_str,
    rope_insert, rope_is_char_boundary, rope_line, rope_line_len, rope_line_of_byte, rope_text,
    rope_to_string, slice_byte_len, slice_chars, slice_to_string,
};
use crate::text::{
    content_end, is_line_start, lemma_last_line, lemma_lf_count_bound, lemma_lf_count_split,
    lemma_line_begin, lemma_line_start, lemma_line_start_is, lemma_next_lf, lemma_on_line,
    lf_count, line_begin, line_bytes, line_count, line_start, tail_len, tail_start,
};
use vstd::prelude::*;
use vstd::utf8::{
    decode_utf8, encode_utf8, encode_utf8_valid_utf8, is_char_boundary,
    is_char_boundary_start_end_of_seq, valid_utf8,
};

verus! {

/// The text of one file and the cursor in it.
#[derive(Debug)]
pub struct SimpleBuffer {
    pub path: String,
    rope: crop::Rope,
    cursor: Cursor,
}

impl View for SimpleBuffer {
    type V = DocState;

    closed spec fn view(&self) -> DocState {
        DocState {
            text: rope_text(self.rope),
            pos: line_start(rope_text(self.rope), self.cursor.line as nat) + self.cursor.byte,
        }
    }
}

impl Clone for SimpleBuffer {
    fn clone(&self) -> (copy: Self)
        ensures
            copy@ == self@,
            copy.wf() == self.wf(),
            copy.file() == self.file(),
    {
        Self { path: self.path.clone(), rope: rope_clone(&self.rope), cursor: self.cursor }
    }
}

/// The number of line feeds in `bytes`, and the number of bytes behind the last
/// of them.
pub fn count_line_feeds(bytes: &[u8]) -> (r: (usize, usize))
    ensures
        r.0 == lf_count(bytes@),
        r.1 == tail_len(bytes@),
{
    let mut count: usize = 0;
    let mut start: usize = 0;
    let mut i: usize = 0;
    while i < bytes.len()
        invariant
            i <= bytes.len(),
            count == lf_count(bytes@.subrange(0, i as int)),
            start == tail_start(bytes@.subrange(0, i as int)),
            count <= i,
            start <= i,
        decreases bytes.len() - i,
    {
        assert(bytes@.subrange(0, i + 1).drop_last() =~= bytes@.subrange(0, i as int));
        if bytes[i] == 10u8 {
            count = count + 1;
            start = i + 1;
        }
        i = i + 1;
    }
    assert(bytes@.subrange(0, i as int) =~= bytes@);
    (count, bytes.len() - start)
}

/// The offset at which line `line` begins.
pub(crate) fn byte_of_line(rope: &crop::Rope, line: usize) -> (at: usize)
    requires
        rope_text(*rope).len() < usize::MAX,
        line <= lf_count(rope_text(*rope)),
    ensures
        at == line_start(rope_text(*rope), line as nat),
        is_line_start(rope_text(*rope), line as nat, at as int),
{
    let at = rope_byte_of_line(rope, line);
    proof {
        lemma_line_start_is(rope_text(*rope), line as nat, at as int);
    }
    at
}

/// The number of characters on the cursor's line before the cursor.
pub(crate) fn line_char_idx(rope: &crop::Rope, cursor: Cursor) -> (n: usize)
    requires
        valid_utf8(rope_text(*rope)),
        rope_text(*rope).len() < usize::MAX,
        cursor.line <= lf_count(rope_text(*rope)),
        line_start(rope_text(*rope), cursor.line as nat) + cursor.byte <= rope_text(*rope).len(),
        is_char_boundary(
            rope_text(*rope),
            line_start(rope_text(*rope), cursor.line as nat) + cursor.byte,
        ),
    ensures
        n == decode_utf8(
            rope_text(*rope).subrange(
                line_start(rope_text(*rope), cursor.line as nat),
                line_start(rope_text(*rope), cursor.line as nat) + cursor.byte,
            ),
        ).len(),
{
    if cursor.byte == 0 {
        proof {
            let st = line_start(rope_text(*rope), cursor.line as nat);
            assert(rope_text(*rope).subrange(st, st) =~= Seq::<u8>::empty());
        }
        return 0;
    }
    let start = byte_of_line(rope, cursor.line);
    proof {
        lemma_line_start(rope_text(*rope), cursor.line as nat);
        lemma_line_edges(rope_text(*rope), start as int);
    }
    let slice = rope_byte_slice(rope, start, start + cursor.byte);
    slice_chars(&slice).len()
}

impl SimpleBuffer {
    /// The buffer is as its operations leave it: the text is valid and the
    /// cursor names a character boundary on one of its lines.
    pub closed spec fn wf(&self) -> bool {
        &&& doc_wf(self@)
        &&& self.cursor.line == doc_line(self@)
        &&& self.cursor.byte == doc_byte(self@)
    }

    /// The path of the file, as characters.
    pub closed spec fn file(&self) -> Seq<char> {
        self.path@
    }

    /// What a well-formed buffer says of its state.
    pub proof fn lemma_wf(&self)
        requires
            self.wf(),
        ensures
            doc_wf(self@),
    {
    }

    /// A buffer over the text of the file at `path`, with the cursor at the start.
    pub fn open(path: String, text: &str) -> (buffer: Self)
        requires
            encode_utf8(text@).len() < usize::MAX,
        ensures
            buffer.wf(),
            buffer@ == (DocState { text: encode_utf8(text@), pos: 0 }),
            buffer.file() == path@,
    {
        let rope = rope_from_str(text);
        let buffer = Self { rope, cursor: Cursor::new(), path };
        proof {
            let s = encode_utf8(text@);
            encode_utf8_valid_utf8(text@);
            is_char_boundary_start_end_of_seq(s);
            assert(s.subrange(0, 0) =~= Seq::<u8>::empty());
            assert(is_line_start(s, 0, 0));
            lemma_line_start_is(s, 0, 0);
        }
        buffer
    }

    /// The rope that holds the text.
    pub(crate) fn rope(&self) -> (rope: &crop::Rope)
        ensures
            rope_text(*rope) == self@.text,
    {
        &self.rope
    }

    /// The whole text.
    pub fn text(&self) -> (text: String)
        ensures
            encode_utf8(text@) == self@.text,
    {
        rope_to_string(&self.rope)
    }

    /// The path of the file that the text came from.
    pub fn path(&self) -> (path: &str)
        ensures
            path@ == self.file(),
    {
        self.path.as_str()
    }

    /// The cursor: the line it is on and its byte offset in that line.
    pub fn cursor(&self) -> (cursor: Cursor)
        requires
            self.wf(),
        ensures
            cursor.line == doc_line(self@),
            cursor.byte == doc_byte(self@),
            cursor.line < line_count(self@.text),
    {
        proof {
            lemma_locate(self@.text, self@.pos);
        }
        self.cursor
    }

    /// The number of lines. A line feed at the end of the text opens one more,
    /// empty line, and empty text has one empty line.
    pub fn line_len(&self) -> (n: usize)
        requires
            self.wf(),
        ensures
            n == line_count(self@.text),
    {
        let len = rope_byte_len(&self.rope);
        proof {
            self.lemma_wf();
            is_char_boundary_start_end_of_seq(self@.text);
        }
        let last = rope_line_of_byte(&self.rope, len);
        proof {
            assert(self@.text.subrange(0, len as int) =~= self@.text);
            lemma_lf_count_bound(self@.text);
        }
        last + 1
    }

    /// The content of line `idx`, without what ends the line.
    pub fn line(&self, idx: usize) -> (content: String)
        requires
            self.wf(),
            idx < line_count(self@.text),
        ensures
            encode_utf8(content@) == line_bytes(self@.text, idx as nat),
    {
        if idx < rope_line_len(&self.rope) {
            let slice = rope_line(&self.rope, idx);
            slice_to_string(&slice)
        } else {
            proof {
                let s = self@.text;
                lemma_last_line(s);
                lemma_next_lf(s, s.len() as int);
                assert(line_bytes(s, idx as nat) =~= Seq::<u8>::empty());
                assert(""@ =~= Seq::<char>::empty()) by {
                    reveal_strlit("");
                }
            }
            "".to_string()
        }
    }

    /// The character at the cursor, if the cursor is before the end of its
    /// line's content.
    pub fn current_char(&self) -> (c: Option<char>)
        requires
            self.wf(),
        ensures
            c.is_none() <==> self@.pos >= doc_line_end(self@),
            c.is_some() ==> c.unwrap() == decode_utf8(
                self@.text.subrange(self@.pos, doc_line_end(self@)),
            )[0],
    {
        let limit = self.current_line_len();
        if self.cursor.byte >= limit {
            return None;
        }
        let start = self.current_line_start_byte();
        proof {
            lemma_locate(self@.text, self@.pos);
            lemma_line_begin(self@.text, self@.pos);
            lemma_line_edges(self@.text, start as int);
        }
        let slice = rope_byte_slice(&self.rope, start + self.cursor.byte, start + limit);
        let chars = slice_chars(&slice);
        proof {
            lemma_between(self@.text, self@.pos, doc_line_end(self@));
        }
        if chars.len() > 0 {
            Some(chars[0])
        } else {
            None
        }
    }

    /// Types `text` at the cursor.
    ///
    /// The bytes go into the text at the cursor, and the cursor ends behind
    /// them: as many lines further down as `text` has line feeds and as many
    /// bytes into that line as follow the last of them, or, without a line
    /// feed, further right by the length of `text`. The edit that comes back
    /// tells where the bytes begin and where they end.
    pub fn insert(&mut self, text: &str) -> (edit: Edit)
        requires
            old(self).wf(),
            old(self)@.text.len() + encode_utf8(text@).len() < usize::MAX,
        ensures
            final(self).wf(),
            final(self).file() == old(self).file(),
            final(self)@ == insert_at(old(self)@, encode_utf8(text@)),
            doc_line(final(self)@) == doc_line(old(self)@) + lf_count(encode_utf8(text@)),
            doc_byte(final(self)@) == if lf_count(encode_utf8(text@)) > 0 {
                tail_len(encode_utf8(text@))
            } else {
                doc_byte(old(self)@) + encode_utf8(text@).len()
            },
            edit == (Edit::Insert {
                start: cursor_at(old(self)@.text, old(self)@.pos),
                start_byte: old(self)@.pos as usize,
                new_end: cursor_at(final(self)@.text, final(self)@.pos),
                new_end_byte: final(self)@.pos as usize,
            }),
            edit.byte_count() == encode_utf8(text@).len(),
    {
        let ghost before = self@;
        let ghost bytes = encode_utf8(text@);
        let start = self.cursor_with_character();
        let start_byte = self.global_cursor_to_byte();
        let len = text.len();
        proof {
            encode_utf8_valid_utf8(text@);
            lemma_insert_cursor(before, bytes);
            lemma_insert_wf(before, bytes);
            lemma_locate(insert_at(before, bytes).text, insert_at(before, bytes).pos);
        }
        if len > 0 {
            rope_insert(&mut self.rope, start_byte, text);
            let (new_lines, tail) = count_line_feeds(text.as_bytes());
            if new_lines > 0 {
                self.cursor.line = self.cursor.line + new_lines;
                self.cursor.byte = tail;
            } else {
                self.cursor.byte = self.cursor.byte + len;
            }
        } else {
            proof {
                assert(bytes =~= Seq::<u8>::empty());
                lemma_insert_empty(before);
            }
        }
        Edit::Insert {
            start,
            start_byte,
            new_end: self.cursor_with_character(),
            new_end_byte: self.global_cursor_to_byte(),
        }
    }

    /// Backspace.
    ///
    /// At the start of the text nothing happens. Anywhere else the character
    /// before the cursor is removed. At the start of a line that character is
    /// the line feed that parts the line from the one before: the two become
    /// one, and the cursor stands where they were joined.
    pub fn back(&mut self) -> (edit: Option<Edit>)
        requires
            old(self).wf(),
        ensures
            final(self).wf(),
            final(self).file() == old(self).file(),
            old(self)@.pos == 0 ==> edit.is_none() && final(self)@ == old(self)@,
            old(self)@.pos > 0 ==> final(self)@ == delete_back(old(self)@) && edit == Some(
                Edit::Delete {
                    from: cursor_at(final(self)@.text, final(self)@.pos),
                    from_byte: final(self)@.pos as usize,
                    to: cursor_at(old(self)@.text, old(self)@.pos),
                    to_byte: old(self)@.pos as usize,
                },
            ),
            edit.is_some() ==> edit.unwrap().byte_count() == old(self)@.pos - final(self)@.pos
                && decode_utf8(
                old(self)@.text.subrange(final(self)@.pos, old(self)@.pos),
            ).len() == 1,
            old(self)@.pos > 0 && doc_byte(old(self)@) == 0 ==> doc_line(final(self)@) + 1
                == doc_line(old(self)@) && final(self)@.pos + 1 == old(self)@.pos,
            old(self)@.pos > 0 && doc_byte(old(self)@) > 0 ==> doc_line(final(self)@) == doc_line(
                old(self)@,
            ) && doc_byte(old(self)@) - doc_byte(final(self)@) == old(self)@.pos
                - final(self)@.pos,
    {
        let ghost before = self@;
        proof {
            lemma_locate(before.text, before.pos);
            lemma_line_begin(before.text, before.pos);
        }
        if self.cursor.line == 0 && self.cursor.byte == 0 {
            proof {
                assert(before.text.subrange(0, 0) =~= Seq::<u8>::empty());
                assert(is_line_start(before.text, 0, 0));
                lemma_line_start_is(before.text, 0, 0);
            }
            return None;
        }
        proof {
            if before.pos == 0 {
                assert(before.text.subrange(0, 0) =~= Seq::<u8>::empty());
            }
            lemma_delete_back(before);
            lemma_back_removes_one_character(before);
        }
        let ghost after = delete_back(before);
        proof {
            lemma_locate(after.text, after.pos);
            lemma_locate(before.text, after.pos);
        }
        if self.cursor.byte == 0 {
            let to = self.cursor_with_character();
            let to_byte = self.global_cursor_to_byte();
            let from_byte = to_byte - 1;
            proof {
                lemma_ascii(before.text, before.pos - 1);
                lemma_floor(before.text, before.pos - 1);
                lemma_lf_count_split(before.text, before.pos - 1, before.pos);
                let m = before.text.subrange(before.pos - 1, before.pos);
                assert(m.drop_last() =~= Seq::<u8>::empty());
                assert(m.last() == 10u8);
                assert(lf_count(m) == 1) by {
                    reveal_with_fuel(lf_count, 2);
                }
            }
            rope_delete(&mut self.rope, from_byte, to_byte);
            let line = self.cursor.line - 1;
            let start = byte_of_line(&self.rope, line);
            self.cursor = Cursor::from_line_byte(line, from_byte - start);
            let from = self.cursor_with_character();
            return Some(Edit::Delete { from, from_byte, to, to_byte });
        }
        let start = self.global_prev_char_index().unwrap();
        let end = self.global_cursor_to_byte();
        let to = self.cursor_with_character();
        proof {
            let b = line_begin(before.text, before.pos);
            lemma_line_edges(before.text, b);
            lemma_floor(before.text, before.pos - 1);
            lemma_on_line(before.text, doc_line(before), b, start as int);
        }
        rope_delete(&mut self.rope, start, end);
        self.cursor.byte = self.cursor.byte - (end - start);
        let from = self.cursor_with_character();
        Some(Edit::Delete { from, to, from_byte: start, to_byte: end })
    }

    /// One character to the left; at the start of a line, nothing.
    pub fn cursor_left(&mut self)
        requires
            old(self).wf(),
        ensures
            final(self).wf(),
            final(self).file() == old(self).file(),
            final(self)@ == move_left(old(self)@),
    {
        if self.cursor.byte == 0 {
            return ;
        }
        let ghost before = self@;
        let row = self.line_prev_char_index().unwrap();
        proof {
            let b = line_begin(before.text, before.pos);
            lemma_locate(before.text, before.pos);
            lemma_line_begin(before.text, before.pos);
            lemma_floor(before.text, before.pos - 1);
            lemma_on_line(before.text, doc_line(before), b, b + row);
        }
        self.cursor.byte = row;
    }

    /// One character to the right; at the end of a line's content, nothing.
    pub fn cursor_right(&mut self)
        requires
            old(self).wf(),
        ensures
            final(self).wf(),
            final(self).file() == old(self).file(),
            final(self)@ == move_right(old(self)@),
    {
        let ghost before = self@;
        match self.line_next_char_index() {
            Some(row) => {
                proof {
                    let b = line_begin(before.text, before.pos);
                    lemma_locate(before.text, before.pos);
                    lemma_line_begin(before.text, before.pos);
                    lemma_next_lf(before.text, b);
                    lemma_ceil(before.text, before.pos + 1);
                    lemma_on_line(before.text, doc_line(before), b, b + row);
                }
                self.cursor.byte = row;
            },
            None => {},
        }
    }

    /// One line up, or nowhere from the first line. The byte offset is kept as
    /// far as the content of the new line reaches, and moved back to a
    /// character boundary if it falls inside a character.
    pub fn cursor_up(&mut self)
        requires
            old(self).wf(),
        ensures
            final(self).wf(),
            final(self).file() == old(self).file(),
            final(self)@ == move_up(old(self)@),
    {
        let line = if self.cursor.line == 0 {
            0
        } else {
            self.cursor.line - 1
        };
        proof {
            lemma_locate(self@.text, self@.pos);
        }
        self.cursor_to_line(line);
    }

    /// One line down, or nowhere from the last line. The byte offset is kept as
    /// far as the content of the new line reaches, and moved back to a
    /// character boundary if it falls inside a character.
    pub fn cursor_down(&mut self)
        requires
            old(self).wf(),
        ensures
            final(self).wf(),
            final(self).file() == old(self).file(),
            final(self)@ == move_down(old(self)@),
    {
        let len = rope_byte_len(&self.rope);
        proof {
            self.lemma_wf();
            is_char_boundary_start_end_of_seq(self@.text);
        }
        let last = rope_line_of_byte(&self.rope, len);
        proof {
            assert(self@.text.subrange(0, len as int) =~= self@.text);
            lemma_locate(self@.text, self@.pos);
        }
        let line = if self.cursor.line < last {
            self.cursor.line + 1
        } else {
            self.cursor.line
        };
        self.cursor_to_line(line);
    }

    /// Moves the cursor to `line`, as a vertical move does.
    fn cursor_to_line(&mut self, line: usize)
        requires
            old(self).wf(),
            line <= lf_count(old(self)@.text),
        ensures
            final(self).wf(),
            final(self).file() == old(self).file(),
            final(self)@ == move_to_line(old(self)@, line as nat),
    {
        let ghost before = self@;
        let ghost s = before.text;
        let start = byte_of_line(&self.rope, line);
        let limit = self.line_content_len(line);
        let mut byte = Self::clamp_cursor_max(self.cursor.byte, limit);
        proof {
            lemma_line_start(s, line as nat);
            lemma_next_lf(s, start as int);
            lemma_line_edges(s, start as int);
        }
        let ghost target = start + byte;
        while byte > 0 && !rope_is_char_boundary(&self.rope, start + byte)
            invariant
                valid_utf8(s),
                s == rope_text(self.rope),
                s.len() < usize::MAX,
                start + byte <= target <= s.len(),
                forall|k: int| start + byte < k <= target ==> !is_char_boundary(s, k),
            decreases byte,
        {
            byte = byte - 1;
        }
        proof {
            lemma_floor(s, target);
            lemma_on_line(s, line as nat, start as int, start + byte);
        }
        self.cursor = Cursor::from_line_byte(line, byte);
    }

    /// `byte`, or `max` where `byte` lies behind it.
    fn clamp_cursor_max(byte: usize, max: usize) -> (r: usize)
        ensures
            r == if byte < max {
                byte
            } else {
                max
            },
    {
        if byte < max {
            byte
        } else {
            max
        }
    }

    /// The length of the content of `line`.
    fn line_content_len(&self, line: usize) -> (n: usize)
        requires
            self.wf(),
            line <= lf_count(self@.text),
        ensures
            n == content_end(self@.text, line_start(self@.text, line as nat)) - line_start(
                self@.text,
                line as nat,
            ),
    {
        proof {
            let s = self@.text;
            lemma_last_line(s);
            lemma_line_start(s, line as nat);
            lemma_next_lf(s, line_start(s, line as nat));
        }
        if line < rope_line_len(&self.rope) {
            let slice = rope_line(&self.rope, line);
            slice_byte_len(&slice)
        } else {
            0
        }
    }

    /// The length of the content of the cursor's line.
    fn current_line_len(&self) -> (n: usize)
        requires
            self.wf(),
        ensures
            n == doc_line_end(self@) - line_begin(self@.text, self@.pos),
    {
        proof {
            lemma_locate(self@.text, self@.pos);
        }
        self.line_content_len(self.cursor.line)
    }

    /// The cursor with the number of characters before it on its line.
    fn cursor_with_character(&self) -> (c: CursorWithCharacter)
        requires
            self.wf(),
        ensures
            c == cursor_at(self@.text, self@.pos),
    {
        self.cursor.with_character(self.line_current_char_idx())
    }

    /// The number of characters before the cursor on its line.
    pub(crate) fn line_current_char_idx(&self) -> (n: usize)
        requires
            self.wf(),
        ensures
            n == char_index(self@.text, self@.pos),
    {
        proof {
            lemma_locate(self@.text, self@.pos);
        }
        line_char_idx(&self.rope, self.cursor)
    }

    /// The cursor as an offset into the whole text.
    fn global_cursor_to_byte(&self) -> (at: usize)
        requires
            self.wf(),
        ensures
            at == self@.pos,
    {
        proof {
            lemma_locate(self@.text, self@.pos);
        }
        self.line_byte_to_global(self.cursor.line, self.cursor.byte)
    }

    /// The offset into the whole text of byte `row` of `line`.
    fn line_byte_to_global(&self, line: usize, row: usize) -> (at: usize)
        requires
            self.wf(),
            line <= lf_count(self@.text),
            line_start(self@.text, line as nat) + row <= usize::MAX,
        ensures
            at == line_start(self@.text, line as nat) + row,
    {
        byte_of_line(&self.rope, line) + row
    }

    /// The offset at which the cursor's line begins.
    fn current_line_start_byte(&self) -> (at: usize)
        requires
            self.wf(),
        ensures
            at == line_begin(self@.text, self@.pos),
    {
        proof {
            lemma_locate(self@.text, self@.pos);
        }
        byte_of_line(&self.rope, self.cursor.line)
    }

    /// Where on its line the character before the cursor begins, if the cursor
    /// is not at the start of the line.
    fn line_prev_char_index(&self) -> (r: Option<usize>)
        requires
            self.wf(),
        ensures
            r.is_none() <==> doc_byte(self@) == 0,
            r.is_some() ==> r.unwrap() < doc_byte(self@) && line_begin(self@.text, self@.pos)
                + r.unwrap() == prev_boundary(self@.text, self@.pos),
    {
        if self.cursor.byte == 0 {
            return None;
        }
        let ghost s = self@.text;
        let ghost pos = self@.pos;
        let start = self.current_line_start_byte();
        proof {
            lemma_locate(s, pos);
            lemma_line_begin(s, pos);
            lemma_line_edges(s, start as int);
        }
        let mut row = self.cursor.byte - 1;
        while !rope_is_char_boundary(&self.rope, start + row)
            invariant
                valid_utf8(s),
                s == rope_text(self.rope),
                s.len() < usize::MAX,
                is_char_boundary(s, start as int),
                start + row < pos <= s.len(),
                forall|k: int| start + row < k <= pos - 1 ==> !is_char_boundary(s, k),
            decreases row,
        {
            row = row - 1;
        }
        proof {
            lemma_floor(s, pos - 1);
        }
        Some(row)
    }

    /// Where in the text the character before the cursor begins, if the cursor
    /// is not at the start of its line.
    fn global_prev_char_index(&self) -> (r: Option<usize>)
        requires
            self.wf(),
        ensures
            r.is_none() <==> doc_byte(self@) == 0,
            r.is_some() ==> line_begin(self@.text, self@.pos) <= r.unwrap() < self@.pos
                && r.unwrap() == prev_boundary(self@.text, self@.pos),
    {
        match self.line_prev_char_index() {
            Some(local) => {
                proof {
                    lemma_locate(self@.text, self@.pos);
                }
                Some(self.line_byte_to_global(self.cursor.line, local))
            },
            None => None,
        }
    }

    /// Where on its line the character at the cursor ends, if the cursor is
    /// before the end of the line's content.
    fn line_next_char_index(&self) -> (r: Option<usize>)
        requires
            self.wf(),
        ensures
            r.is_none() <==> self@.pos >= doc_line_end(self@),
            r.is_some() ==> line_begin(self@.text, self@.pos) + r.unwrap() == next_boundary(
                self@.text,
                self@.pos,
            ) && self@.pos < line_begin(self@.text, self@.pos) + r.unwrap() <= doc_line_end(self@),
    {
        let limit = self.current_line_len();
        if self.cursor.byte >= limit {
            return None;
        }
        let ghost s = self@.text;
        let ghost pos = self@.pos;
        let start = self.current_line_start_byte();
        proof {
            lemma_locate(s, pos);
            lemma_line_begin(s, pos);
            lemma_line_edges(s, start as int);
            lemma_next_lf(s, start as int);
        }
        let mut row = self.cursor.byte + 1;
        while row < limit && !rope_is_char_boundary(&self.rope, start + row)
            invariant
                valid_utf8(s),
                s == rope_text(self.rope),
                s.len() < usize::MAX,
                pos < start + row <= start + limit <= s.len(),
                forall|k: int| pos + 1 <= k < start + row ==> !is_char_boundary(s, k),
            decreases limit - row,
        {
            row = row + 1;
        }
        proof {
            lemma_ceil(s, pos + 1);
        }
        Some(row)
    }

    /// Where in the text the character at the cursor ends, if the cursor is
    /// before the end of its line's content.
    fn global_next_char_index(&self) -> (r: Option<usize>)
        requires
            self.wf(),
        ensures
            r.is_none() <==> self@.pos >= doc_line_end(self@),
            r.is_some() ==> r.unwrap() == next_boundary(self@.text, self@.pos),
    {
        match self.line_next_char_index() {
            Some(local) => {
                proof {
                    lemma_locate(self@.text, self@.pos);
                    lemma_next_lf(self@.text, line_begin(self@.text, self@.pos));
                }
                Some(self.line_byte_to_global(self.cursor.line, local))
            },
            None => None,
        }
    }
}

} // verus!

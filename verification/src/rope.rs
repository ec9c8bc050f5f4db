//! The rope that stores a document, and what this library relies on from it.
//!
//! Nothing in this file is proved: each function states what the `crop` crate
//! documents of the method it calls, over the bytes that the rope holds.

use crate::boundary::{cut, spliced, stands_at};
use crate::text::{is_line_start, lf_count, line_bytes, line_of, stored_lines};
use vstd::prelude::*;
use vstd::utf8::{decode_utf8, encode_utf8, is_char_boundary};

verus! {

/// `crop::Rope`: UTF-8 text in a balanced tree of chunks.
#[verifier::external_type_specification]
#[verifier::external_body]
pub struct ExRope(crop::Rope);

/// `crop::RopeSlice`: a part of the text of a rope, borrowed from it.
#[verifier::external_type_specification]
#[verifier::external_body]
pub struct ExRopeSlice<'a>(crop::RopeSlice<'a>);

/// The UTF-8 bytes that a rope holds.
pub uninterp spec fn rope_text(rope: crop::Rope) -> Seq<u8>;

/// The UTF-8 bytes that a slice of a rope holds.
pub uninterp spec fn slice_text(slice: crop::RopeSlice<'_>) -> Seq<u8>;

/// `Rope::from(&str)`: a rope that holds the bytes of `text`.
#[verifier::external_body]
pub(crate) fn rope_from_str(text: &str) -> (rope: crop::Rope)
    ensures
        rope_text(rope) == encode_utf8(text@),
{
    crop::Rope::from(text)
}

/// `Rope::clone`: a rope that holds the same bytes.
#[verifier::external_body]
pub(crate) fn rope_clone(rope: &crop::Rope) -> (copy: crop::Rope)
    ensures
        rope_text(copy) == rope_text(*rope),
{
    rope.clone()
}

/// `Rope::to_string`, through its `Display`: the text of the rope, chunk by chunk.
#[verifier::external_body]
pub(crate) fn rope_to_string(rope: &crop::Rope) -> (text: String)
    ensures
        encode_utf8(text@) == rope_text(*rope),
{
    rope.to_string()
}

/// `Rope::byte_len`: the number of bytes in the rope.
#[verifier::external_body]
pub(crate) fn rope_byte_len(rope: &crop::Rope) -> (n: usize)
    ensures
        n == rope_text(*rope).len(),
{
    rope.byte_len()
}

/// `Rope::line_len`: the number of lines, where a final line feed opens no new
/// line and an empty rope has none. It adds one to the number of line feeds
/// first, so the bytes may not all be line feeds up to the limit of `usize`.
#[verifier::external_body]
pub(crate) fn rope_line_len(rope: &crop::Rope) -> (n: usize)
    requires
        rope_text(*rope).len() < usize::MAX,
    ensures
        n == stored_lines(rope_text(*rope)),
{
    rope.line_len()
}

/// `Rope::byte_of_line`: the offset at which a line begins: as many line feeds
/// precede it as the line's index says, and it is the start of the text or
/// follows a line feed. The method takes any line up to `line_len()`; here it
/// is asked only for lines that a line feed or the start of the text opens.
#[verifier::external_body]
pub(crate) fn rope_byte_of_line(rope: &crop::Rope, line: usize) -> (at: usize)
    requires
        rope_text(*rope).len() < usize::MAX,
        line <= lf_count(rope_text(*rope)),
    ensures
        is_line_start(rope_text(*rope), line as nat, at as int),
{
    rope.byte_of_line(line)
}

/// `Rope::line_of_byte`: the number of line feeds before an offset. The method
/// cuts the text at the offset, which it does between characters only.
#[verifier::external_body]
pub(crate) fn rope_line_of_byte(rope: &crop::Rope, at: usize) -> (line: usize)
    requires
        at <= rope_text(*rope).len(),
        is_char_boundary(rope_text(*rope), at as int),
    ensures
        line == line_of(rope_text(*rope), at as int),
{
    rope.line_of_byte(at)
}

/// `Rope::is_char_boundary`: whether an offset lies between two characters, or
/// at either end of the text.
#[verifier::external_body]
pub(crate) fn rope_is_char_boundary(rope: &crop::Rope, at: usize) -> (b: bool)
    requires
        at <= rope_text(*rope).len(),
    ensures
        b == is_char_boundary(rope_text(*rope), at as int),
{
    rope.is_char_boundary(at)
}

/// `Rope::insert`: puts `text` in at a character boundary.
#[verifier::external_body]
pub(crate) fn rope_insert(rope: &mut crop::Rope, at: usize, text: &str)
    requires
        at <= rope_text(*old(rope)).len(),
        is_char_boundary(rope_text(*old(rope)), at as int),
    ensures
        rope_text(*final(rope)) == spliced(rope_text(*old(rope)), at as int, encode_utf8(text@)),
{
    rope.insert(at, text)
}

/// `Rope::delete`: removes the bytes between two character boundaries.
#[verifier::external_body]
pub(crate) fn rope_delete(rope: &mut crop::Rope, from: usize, to: usize)
    requires
        from <= to <= rope_text(*old(rope)).len(),
        is_char_boundary(rope_text(*old(rope)), from as int),
        is_char_boundary(rope_text(*old(rope)), to as int),
    ensures
        rope_text(*final(rope)) == cut(rope_text(*old(rope)), from as int, to as int),
{
    rope.delete(from..to)
}

/// `Rope::line`: a stored line without the line feed, or the carriage return
/// and line feed, that ends it.
#[verifier::external_body]
pub(crate) fn rope_line<'a>(rope: &'a crop::Rope, line: usize) -> (slice: crop::RopeSlice<'a>)
    requires
        rope_text(*rope).len() < usize::MAX,
        line < stored_lines(rope_text(*rope)),
    ensures
        slice_text(slice) == line_bytes(rope_text(*rope), line as nat),
{
    rope.line(line)
}

/// `Rope::byte_slice`: the bytes between two character boundaries.
#[verifier::external_body]
pub(crate) fn rope_byte_slice<'a>(rope: &'a crop::Rope, from: usize, to: usize) -> (slice:
    crop::RopeSlice<'a>)
    requires
        from <= to <= rope_text(*rope).len(),
        is_char_boundary(rope_text(*rope), from as int),
        is_char_boundary(rope_text(*rope), to as int),
    ensures
        slice_text(slice) == rope_text(*rope).subrange(from as int, to as int),
{
    rope.byte_slice(from..to)
}

/// `RopeSlice::byte_len`: the number of bytes in the slice.
#[verifier::external_body]
pub(crate) fn slice_byte_len(slice: &crop::RopeSlice<'_>) -> (n: usize)
    ensures
        n == slice_text(*slice).len(),
{
    slice.byte_len()
}

/// `RopeSlice::to_string`, through its `Display`: the text of the slice.
#[verifier::external_body]
pub(crate) fn slice_to_string(slice: &crop::RopeSlice<'_>) -> (text: String)
    ensures
        encode_utf8(text@) == slice_text(*slice),
{
    slice.to_string()
}

/// `RopeSlice::chunks`, its first item: text with which the slice begins, be
/// it all of the slice or less, and no text where the iterator has no item.
/// The iterator passes over empty chunks, so that a slice that holds text
/// begins with a chunk that holds text.
#[verifier::external_body]
pub(crate) fn slice_first_chunk<'a>(slice: crop::RopeSlice<'a>) -> (chunk: &'a str)
    ensures
        stands_at(slice_text(slice), 0, encode_utf8(chunk@)),
        slice_text(slice).len() > 0 ==> encode_utf8(chunk@).len() > 0,
{
    slice.chunks().next().unwrap_or("")
}

/// `RopeSlice::chars`, collected: the characters of the slice, in order.
#[verifier::external_body]
pub(crate) fn slice_chars(slice: &crop::RopeSlice<'_>) -> (chars: Vec<char>)
    ensures
        chars@ == decode_utf8(slice_text(*slice)),
{
    slice.chars().collect()
}

} // verus!

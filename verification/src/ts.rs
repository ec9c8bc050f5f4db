//! The syntax tree of a document, kept by an incremental parser, and the
//! colours of syntax highlighting.

use crate::boundary::stands_at;
use crate::edit::{TreeEdit, TreePoint};
use crate::text::{line_begin, line_of};
use crate::rope::{
    rope_byte_len, rope_byte_slice, rope_is_char_boundary, rope_text, slice_first_chunk,
    slice_to_string,
};
use vstd::prelude::*;
use vstd::slice::slice_subrange;
use vstd::utf8::{
    encode_utf8, is_char_boundary, is_char_boundary_start_end_of_seq, valid_utf8,
};

verus! {

/// `tree_sitter::Tree`: a syntax tree, of which nothing is known here.
#[verifier::external_type_specification]
#[verifier::external_body]
pub struct ExTree(tree_sitter::Tree);

/// The text that a syntax tree is the tree of: the bytes that the parser read
/// when it made the tree.
pub uninterp spec fn tree_text(tree: tree_sitter::Tree) -> Seq<u8>;

/// A colour: red, green, blue and opacity.
#[derive(Debug, Clone, Copy, PartialEq, Eq, Structural)]
pub struct Color {
    pub r: u8,
    pub g: u8,
    pub b: u8,
    pub a: u8,
}

impl Color {
    /// An opaque colour.
    pub fn rgb(r: u8, g: u8, b: u8) -> (c: Self)
        ensures
            c == (Color { r, g, b, a: 255 }),
    {
        Self { r, g, b, a: 255 }
    }

    /// A colour with the opacity `a`.
    pub fn rgba(r: u8, g: u8, b: u8, a: u8) -> (c: Self)
        ensures
            c == (Color { r, g, b, a }),
    {
        Self { r, g, b, a }
    }
}

/// Bytes of the text from offset `at` on: some that stand there, without a
/// copy, or none where the text ends at or before `at`. Between two characters
/// of valid text there are always some. An offset inside a character gives
/// the rest of that character and what follows in its chunk.
pub fn chunk_at<'a>(source: &'a crop::Rope, at: usize) -> (bytes: &'a [u8])
    ensures
        at <= rope_text(*source).len() ==> stands_at(rope_text(*source), at as int, bytes@),
        at > rope_text(*source).len() ==> bytes@.len() == 0,
        valid_utf8(rope_text(*source)) && at < rope_text(*source).len() && is_char_boundary(
            rope_text(*source),
            at as int,
        ) ==> bytes@.len() > 0,
{
    let ghost s = rope_text(*source);
    let len = rope_byte_len(source);
    let none = slice_subrange("".as_bytes(), 0, 0);
    if at >= len {
        proof {
            if at == len {
                assert(s.subrange(at as int, at as int) =~= none@);
            }
        }
        return none;
    }
    let mut from = at;
    while from > 0 && !rope_is_char_boundary(source, from)
        invariant
            from <= at < len,
            len == s.len(),
            s == rope_text(*source),
            is_char_boundary(s, at as int) ==> from == at,
        decreases from,
    {
        from = from - 1;
    }
    proof {
        assert(s.subrange(at as int, at as int) =~= none@);
        if valid_utf8(s) {
            is_char_boundary_start_end_of_seq(s);
        }
    }
    if !rope_is_char_boundary(source, from) || !rope_is_char_boundary(source, len) {
        return none;
    }
    let chunk = slice_first_chunk(rope_byte_slice(source, from, len)).as_bytes();
    let skip = at - from;
    if skip >= chunk.len() {
        return none;
    }
    let bytes = slice_subrange(chunk, skip, chunk.len());
    proof {
        let rest = s.subrange(from as int, len as int);
        assert(rest.subrange(0, chunk@.len() as int) =~= s.subrange(
            from as int,
            from + chunk@.len(),
        ));
        assert(s.subrange(at as int, at + bytes@.len()) =~= bytes@);
    }
    bytes
}

/// The text between the offsets `from` and `to`, or no text where they do not
/// name a range of whole characters inside the text.
pub fn range_text(source: &crop::Rope, from: usize, to: usize) -> (text: String)
    ensures
        encode_utf8(text@) == if from <= to <= rope_text(*source).len() && is_char_boundary(
            rope_text(*source),
            from as int,
        ) && is_char_boundary(rope_text(*source), to as int) {
            rope_text(*source).subrange(from as int, to as int)
        } else {
            Seq::<u8>::empty()
        },
{
    if from <= to && to <= rope_byte_len(source) && rope_is_char_boundary(source, from)
        && rope_is_char_boundary(source, to) {
        slice_to_string(&rope_byte_slice(source, from, to))
    } else {
        proof {
            reveal_strlit("");
            assert(encode_utf8(""@) =~= Seq::<u8>::empty());
        }
        "".to_string()
    }
}

/// The point at offset `at` of `text`: its row is the line that holds the
/// offset, its column the offset inside that line.
pub open spec fn point_at(text: Seq<u8>, at: int) -> TreePoint {
    TreePoint { row: line_of(text, at) as usize, column: (at - line_begin(text, at)) as usize }
}

/// Whether `edit` tells truly how `old` became `new`: the two texts are the
/// same before the start of the edit and behind its end, and each of its three
/// offsets comes with the point that lies there.
pub open spec fn edit_fits(old: Seq<u8>, edit: TreeEdit, new: Seq<u8>) -> bool {
    &&& edit.start_byte <= edit.old_end_byte <= old.len()
    &&& edit.start_byte <= edit.new_end_byte <= new.len()
    &&& old.subrange(0, edit.start_byte as int) == new.subrange(0, edit.start_byte as int)
    &&& old.subrange(edit.old_end_byte as int, old.len() as int) == new.subrange(
        edit.new_end_byte as int,
        new.len() as int,
    )
    &&& edit.start_position == point_at(old, edit.start_byte as int)
    &&& edit.old_end_position == point_at(old, edit.old_end_byte as int)
    &&& edit.new_end_position == point_at(new, edit.new_end_byte as int)
}

/// `Parser::parse_with`, on a new parser for Rust source: the syntax tree of
/// the text in `source`, which the parser reads chunk by chunk. With
/// `old_tree` the parser reuses what it can of that tree. Of the tree that
/// comes back this alone is claimed: it is the tree of the text in `source`,
/// where no old tree was given or the old tree is a tree of that very text.
/// There is none where the parser does not take the grammar.
#[verifier::external_body]
pub fn tree(source: &crop::Rope, old_tree: Option<&tree_sitter::Tree>) -> (parsed: Option<
    tree_sitter::Tree,
>)
    ensures
        parsed.is_some() && (old_tree.is_none() || tree_text(*old_tree.unwrap()) == rope_text(
            *source,
        )) ==> tree_text(parsed.unwrap()) == rope_text(*source),
{
    let mut parser = tree_sitter::Parser::new();
    parser.set_language(&tree_sitter_rust::language()).ok()?;
    parser.parse_with(&mut |at, _| chunk_at(source, at), old_tree)
}

/// `Tree::edit`, then `Parser::parse_with` on a new parser for Rust source with
/// the edited tree as the old one: the syntax tree of the text in `source`,
/// of which only what the edit changed is parsed anew. The old tree must be a
/// tree of the text as it was, and the edit must tell truly how that text
/// became the text in `source`. Of the tree that comes back this alone is
/// claimed: it is the tree of the text in `source`. Of the old tree as it is
/// afterwards nothing is claimed.
#[verifier::external_body]
pub(crate) fn tree_edited(
    old_tree: &mut tree_sitter::Tree,
    edit: TreeEdit,
    source: &crop::Rope,
) -> (parsed: Option<tree_sitter::Tree>)
    requires
        edit_fits(tree_text(*old(old_tree)), edit, rope_text(*source)),
    ensures
        parsed.is_some() ==> tree_text(parsed.unwrap()) == rope_text(*source),
{
    let (start, old_end, new_end) =
        (edit.start_position, edit.old_end_position, edit.new_end_position);
    old_tree.edit(&tree_sitter::InputEdit {
        start_byte: edit.start_byte,
        old_end_byte: edit.old_end_byte,
        new_end_byte: edit.new_end_byte,
        start_position: tree_sitter::Point { row: start.row, column: start.column },
        old_end_position: tree_sitter::Point { row: old_end.row, column: old_end.column },
        new_end_position: tree_sitter::Point { row: new_end.row, column: new_end.column },
    });
    let mut parser = tree_sitter::Parser::new();
    parser.set_language(&tree_sitter_rust::language()).ok()?;
    parser.parse_with(&mut |at, _| chunk_at(source, at), Some(old_tree))
}

} // verus!

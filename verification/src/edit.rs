//! Edits: what one change of a document did, in bytes and in positions.

use crate::cursor::{Cursor, CursorWithCharacter};
use vstd::prelude::*;
use vstd::std_specs::convert::FromSpecImpl;

verus! {

/// One change of a document.
///
/// An insertion puts bytes in at `start_byte`, after which they end at
/// `new_end_byte`. A deletion removes the bytes from `from_byte` up to
/// `to_byte`. Each offset comes with the position it had in the document: for a
/// deletion, `to` is the position of `to_byte` before the bytes were removed.
#[derive(Clone, Copy, Debug)]
pub enum Edit {
    Insert {
        start: CursorWithCharacter,
        start_byte: usize,
        new_end: CursorWithCharacter,
        new_end_byte: usize,
    },
    Delete { from: CursorWithCharacter, from_byte: usize, to: CursorWithCharacter, to_byte: usize },
}

/// A position as the incremental parser takes it.
#[derive(Clone, Copy, Debug, PartialEq, Eq, Structural)]
pub struct TreePoint {
    pub row: usize,
    pub column: usize,
}

/// One change of the text as the incremental parser takes it: where the
/// change begins, where the changed part ended before, and where it ends now,
/// each as a byte offset and as a position.
#[derive(Clone, Copy, Debug, PartialEq, Eq, Structural)]
pub struct TreeEdit {
    pub start_byte: usize,
    pub old_end_byte: usize,
    pub new_end_byte: usize,
    pub start_position: TreePoint,
    pub old_end_position: TreePoint,
    pub new_end_position: TreePoint,
}

/// The point that stands for a cursor: its row is the cursor's line, its
/// column the cursor's byte offset in the line.
pub open spec fn point_of(c: CursorWithCharacter) -> TreePoint {
    TreePoint { row: c.line, column: c.byte }
}

/// The point that stands for a cursor.
pub fn tree_point(c: CursorWithCharacter) -> (p: TreePoint)
    ensures
        p == point_of(c),
{
    TreePoint { row: c.line, column: c.byte }
}

impl From<CursorWithCharacter> for TreePoint {
    fn from(value: CursorWithCharacter) -> (p: Self) {
        tree_point(value)
    }
}

impl FromSpecImpl<CursorWithCharacter> for TreePoint {
    open spec fn obeys_from_spec() -> bool {
        true
    }

    open spec fn from_spec(value: CursorWithCharacter) -> TreePoint {
        point_of(value)
    }
}

impl From<Cursor> for TreePoint {
    fn from(value: Cursor) -> (p: Self) {
        TreePoint { row: value.line, column: value.byte }
    }
}

impl FromSpecImpl<Cursor> for TreePoint {
    open spec fn obeys_from_spec() -> bool {
        true
    }

    /// As for a cursor with a character index: the row is the line, the
    /// column the byte offset.
    open spec fn from_spec(value: Cursor) -> TreePoint {
        TreePoint { row: value.line, column: value.byte }
    }
}

impl Edit {
    /// What the incremental parser is told of the edit. An insertion consumed
    /// nothing: the old end is the start, the new end is where the inserted
    /// bytes end. A deletion consumed what lies between its two ends: the old
    /// end is its end, and the new end falls back onto its start.
    pub open spec fn tree_edit(self) -> TreeEdit {
        match self {
            Edit::Insert { start, start_byte, new_end, new_end_byte } => TreeEdit {
                start_byte,
                old_end_byte: start_byte,
                new_end_byte,
                start_position: point_of(start),
                old_end_position: point_of(start),
                new_end_position: point_of(new_end),
            },
            Edit::Delete { from, from_byte, to, to_byte } => TreeEdit {
                start_byte: from_byte,
                old_end_byte: to_byte,
                new_end_byte: from_byte,
                start_position: point_of(from),
                old_end_position: point_of(to),
                new_end_position: point_of(from),
            },
        }
    }

    /// What the incremental parser is told of the edit.
    pub fn to_ts(self) -> (e: TreeEdit)
        ensures
            e == self.tree_edit(),
    {
        match self {
            Edit::Insert { start, start_byte, new_end, new_end_byte } => TreeEdit {
                start_byte,
                old_end_byte: start_byte,
                new_end_byte,
                start_position: tree_point(start),
                old_end_position: tree_point(start),
                new_end_position: tree_point(new_end),
            },
            Edit::Delete { from, from_byte, to, to_byte } => TreeEdit {
                start_byte: from_byte,
                old_end_byte: to_byte,
                new_end_byte: from_byte,
                start_position: tree_point(from),
                old_end_position: tree_point(to),
                new_end_position: tree_point(from),
            },
        }
    }

    /// The number of bytes that the edit put in or took out.
    pub open spec fn byte_count(self) -> int {
        match self {
            Edit::Insert { start_byte, new_end_byte, .. } => new_end_byte - start_byte,
            Edit::Delete { from_byte, to_byte, .. } => to_byte - from_byte,
        }
    }
}

} // verus!

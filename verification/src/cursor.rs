//! Cursor positions inside a document.

use vstd::prelude::*;
use vstd::std_specs::convert::FromSpecImpl;

verus! {

/// A position in a document: a zero-based line and a byte offset inside that line.
#[derive(Debug, Copy, Clone)]
pub struct Cursor {
    pub byte: usize,
    pub line: usize,
}

/// A [`Cursor`] together with the number of characters that precede it on its line.
#[derive(Debug, Copy, Clone)]
pub struct CursorWithCharacter {
    pub byte: usize,
    pub character: usize,
    pub line: usize,
}

impl Cursor {
    /// The position at the very start of a document.
    pub fn new() -> (c: Self)
        ensures
            c.line == 0,
            c.byte == 0,
    {
        Self { byte: 0, line: 0 }
    }

    /// The position at byte `byte` of line `line`.
    pub fn from_line_byte(line: usize, byte: usize) -> (c: Self)
        ensures
            c.line == line,
            c.byte == byte,
    {
        Self { byte, line }
    }

    /// Attaches a character index to this position.
    pub fn with_character(self, character: usize) -> (c: CursorWithCharacter)
        ensures
            c.byte == self.byte,
            c.line == self.line,
            c.character == character,
    {
        CursorWithCharacter { byte: self.byte, character, line: self.line }
    }
}

impl Default for Cursor {
    fn default() -> (c: Self)
        ensures
            c.line == 0,
            c.byte == 0,
    {
        Self::new()
    }
}

impl From<CursorWithCharacter> for Cursor {
    fn from(value: CursorWithCharacter) -> (c: Self) {
        Self { byte: value.byte, line: value.line }
    }
}

impl FromSpecImpl<CursorWithCharacter> for Cursor {
    open spec fn obeys_from_spec() -> bool {
        true
    }

    /// The position without the character index.
    open spec fn from_spec(value: CursorWithCharacter) -> Cursor {
        Cursor { byte: value.byte, line: value.line }
    }
}

} // verus!

//! Positions in a document, in the two addressings the crate speaks.
//!
//! The parser reports `Point`s: 0-based row and column, the column counted
//! in characters from the line start. The editor protocol speaks in
//! `Position`s: 0-based line and offset, the offset counted in UTF-16 code
//! units. The text index (see `text`) converts between the two.

use vstd::prelude::*;

verus! {

/// A parser-native position: 0-based row, column counted in characters.
#[derive(Clone, Copy, Debug, PartialEq, Eq, Structural)]
pub struct Point {
    pub row: usize,
    pub column: usize,
}

/// A protocol position: 0-based line, offset in UTF-16 code units.
#[derive(Clone, Copy, Debug, PartialEq, Eq, Structural)]
pub struct Position {
    pub line: u32,
    pub character: u32,
}

/// A half-open span between two protocol positions.
#[derive(Clone, Copy, Debug, PartialEq, Eq, Structural)]
pub struct Range {
    pub start: Position,
    pub end: Position,
}

impl Position {
    pub fn new(line: u32, character: u32) -> (r: Position)
        ensures
            r == (Position { line, character }),
    {
        Position { line, character }
    }
}

impl Range {
    pub fn new(start: Position, end: Position) -> (r: Range)
        ensures
            r == (Range { start, end }),
    {
        Range { start, end }
    }
}

/// How many UTF-16 code units the character takes: two beyond the basic
/// multilingual plane, one otherwise.
pub open spec fn utf16_width_char(c: char) -> int {
    if (c as u32) >= 0x10000 {
        2
    } else {
        1
    }
}

/// The UTF-16 length of a character sequence.
pub open spec fn utf16_width(s: Seq<char>) -> int
    decreases s.len(),
{
    if s.len() == 0 {
        0
    } else {
        utf16_width_char(s[0]) + utf16_width(s.drop_first())
    }
}

pub proof fn lemma_utf16_width_push(s: Seq<char>, c: char)
    ensures
        utf16_width(s.push(c)) == utf16_width(s) + utf16_width_char(c),
    decreases s.len(),
{
    reveal_with_fuel(utf16_width, 3);
    if s.len() == 0 {
        assert(s.push(c).drop_first() =~= Seq::<char>::empty());
    } else {
        assert(s.push(c).drop_first() =~= s.drop_first().push(c));
        lemma_utf16_width_push(s.drop_first(), c);
    }
}

} // verus!

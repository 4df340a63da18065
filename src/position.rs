//! Conversion between 1-based source locations and 0-based protocol positions.
use vstd::prelude::*;
use vstd::utf8::encode_utf8;

verus! {

/// A source location: 1-based line and column. A zero in either part marks
/// an unknown location.
#[derive(Clone, Copy, Debug, PartialEq, Eq, Structural)]
pub struct Loc(pub u32, pub u32);

/// A protocol position: 0-based line and character.
#[derive(Clone, Copy, Debug, PartialEq, Eq, Structural)]
pub struct Position {
    pub line: u64,
    pub character: u64,
}

/// A protocol range from `start` to `end`, both ends included by queries.
#[derive(Clone, Copy, Debug, PartialEq, Eq, Structural)]
pub struct Range {
    pub start: Position,
    pub end: Position,
}

pub open spec fn zero_position() -> Position {
    Position { line: 0, character: 0 }
}

/// The protocol position of a source location.
pub open spec fn loc_pos(loc: Loc) -> Position {
    if loc.0 == 0 || loc.1 == 0 {
        zero_position()
    } else {
        Position { line: (loc.0 - 1) as u64, character: (loc.1 - 1) as u64 }
    }
}

/// The number of bytes in the UTF-8 encoding of `s`.
pub open spec fn byte_len(s: Seq<char>) -> nat {
    encode_utf8(s).len()
}

/// The location `n` columns to the right of `loc`.
pub open spec fn loc_shift(loc: Loc, n: nat) -> Loc {
    Loc(loc.0, (loc.1 + n) as u32)
}

/// The range covered by an identifier of `n` bytes written at `loc`.
pub open spec fn name_range(loc: Loc, n: nat) -> Range {
    Range { start: loc_pos(loc), end: loc_pos(loc_shift(loc, n)) }
}

/// Lexicographic order on positions: by line, then by character.
pub open spec fn pos_le(a: Position, b: Position) -> bool {
    a.line < b.line || (a.line == b.line && a.character <= b.character)
}

/// Maps a source location to a protocol position; an unknown location maps to
/// the zero position.
pub fn pos(loc: &Loc) -> (r: Position)
    ensures
        r == loc_pos(*loc),
        loc.0 == 0 || loc.1 == 0 ==> r == zero_position(),
{
    if loc.0 == 0 || loc.1 == 0 {
        Position { line: 0, character: 0 }
    } else {
        Position { line: loc.0 as u64 - 1, character: loc.1 as u64 - 1 }
    }
}

/// The zero-width range at a location.
pub fn range(loc: &Loc) -> (r: Range)
    ensures
        r == (Range { start: loc_pos(*loc), end: loc_pos(*loc) }),
{
    Range { start: pos(loc), end: pos(loc) }
}

/// The range covering `name`, measured in bytes, written at `loc`.
pub fn range_name(loc: &Loc, name: &str) -> (r: Range)
    requires
        loc.1 + byte_len(name@) <= u32::MAX,
    ensures
        r == name_range(*loc, byte_len(name@)),
{
    let n = name.as_bytes().len();
    let end = Loc(loc.0, loc.1 + n as u32);
    Range { start: pos(loc), end: pos(&end) }
}

/// The range from one location to another.
pub fn range2(loc: &Loc, end: &Loc) -> (r: Range)
    ensures
        r == (Range { start: loc_pos(*loc), end: loc_pos(*end) }),
{
    Range { start: pos(loc), end: pos(end) }
}

/// A name of `n` bytes written at a known location spans `n` characters of
/// one line, from the position of that location on.
pub proof fn lemma_name_range_span(loc: Loc, n: nat)
    requires
        loc.0 >= 1,
        loc.1 >= 1,
        loc.1 + n <= u32::MAX,
    ensures
        name_range(loc, n).start == loc_pos(loc),
        name_range(loc, n).end.line == loc_pos(loc).line,
        name_range(loc, n).end.character == loc_pos(loc).character + n,
{
}

/// Compares two positions in lexicographic order.
pub fn position_le(a: &Position, b: &Position) -> (r: bool)
    ensures
        r == pos_le(*a, *b),
{
    a.line < b.line || (a.line == b.line && a.character <= b.character)
}

} // verus!

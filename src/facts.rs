//! The facts a document index holds: hovers, symbols, definition links and
//! diagnostics.
use vstd::prelude::*;
use crate::position::{Loc, Range};

verus! {

/// Text shown for a range, with the range it describes, if any.
#[derive(Clone, Debug, PartialEq, Eq)]
pub struct Hover {
    pub contents: String,
    pub range: Option<Range>,
}

/// A hover as a value: its range, its text, and the range it describes.
pub type HoverFact = (Range, Seq<char>, Option<Range>);

/// The value of a range-tagged hover.
pub open spec fn hover_fact(e: (Range, Hover)) -> HoverFact {
    (e.0, e.1.contents@, e.1.range)
}

/// The values of a list of range-tagged hovers.
pub open spec fn hover_facts(s: Seq<(Range, Hover)>) -> Seq<HoverFact> {
    s.map_values(|e: (Range, Hover)| hover_fact(e))
}

#[derive(Clone, Copy, Debug, PartialEq, Eq, Structural)]
pub enum SymbolKind {
    Class,
    Method,
    Field,
}

/// A declaration of a class, a method or a field.
#[derive(Clone, Debug, PartialEq, Eq)]
pub struct Symbol {
    pub name: String,
    pub kind: SymbolKind,
    pub uri: String,
    pub range: Range,
    pub container: Option<String>,
}

/// An error reported by the parser or the type checker, at a location.
#[derive(Clone, Debug)]
pub struct SourceError {
    pub loc: Loc,
    pub message: String,
}

/// An error as published to the client.
#[derive(Clone, Debug, PartialEq, Eq)]
pub struct Diagnostic {
    pub range: Range,
    pub message: String,
}

} // verus!

use vstd::prelude::*;

verus! {

/// A line/column location in a source text (both start at 1).
#[derive(Clone, Copy, Debug, Default, PartialEq, Eq, Structural)]
pub struct Position {
    pub line: usize,
    pub column: usize,
}

/// The start and end location of a token or syntax node.
#[derive(Clone, Copy, Debug, Default, PartialEq, Eq, Structural)]
pub struct Span {
    pub start: Position,
    pub end: Position,
}

impl Span {
    /// The span that starts where `a` starts and ends where `b` ends.
    pub fn merge(a: &Span, b: &Span) -> (r: Span)
        ensures
            r.start == a.start,
            r.end == b.end,
    {
        Span { start: a.start, end: b.end }
    }
}


impl Span {
    /// The default span: both ends at line 0, column 0.
    pub open spec fn default_spec() -> Span {
        Span { start: Position { line: 0, column: 0 }, end: Position { line: 0, column: 0 } }
    }

    /// The default span: both ends at line 0, column 0.
    pub fn default_value() -> (r: Span)
        ensures
            r == Span::default_spec(),
    {
        Span { start: Position { line: 0, column: 0 }, end: Position { line: 0, column: 0 } }
    }
}

} // verus!

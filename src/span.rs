use vstd::prelude::*;

verus! {

/// A source position: a line (1-based) and a column, as the parser assigns them.
#[derive(Clone, Copy, Debug, PartialEq, Eq, Structural, Hash)]
pub struct LineColumn {
    pub line: usize,
    pub column: usize,
}

/// `a` comes no later than `b`: lines first, then columns.
pub open spec fn position_le(a: LineColumn, b: LineColumn) -> bool {
    a.line < b.line || (a.line == b.line && a.column <= b.column)
}

/// An inclusive range of source positions, copied out of a syntax tree.
#[derive(Clone, Copy, Debug, PartialEq, Eq, Structural, Hash)]
pub struct SimpleSpan {
    pub start: LineColumn,
    pub end: LineColumn,
}

/// The span holds `p`; both endpoints count as inside.
pub open spec fn span_contains(s: SimpleSpan, p: LineColumn) -> bool {
    position_le(s.start, p) && position_le(p, s.end)
}

/// Compares two positions: `true` when `a` comes no later than `b`.
pub fn position_le_exec(a: LineColumn, b: LineColumn) -> (r: bool)
    ensures
        r == position_le(a, b),
{
    a.line < b.line || (a.line == b.line && a.column <= b.column)
}

impl SimpleSpan {
    /// Whether `location` lies within this span, endpoints included.
    pub fn contains(&self, location: LineColumn) -> (r: bool)
        ensures
            r == span_contains(*self, location),
    {
        position_le_exec(self.start, location) && position_le_exec(location, self.end)
    }
}

/// Both endpoints of a well-ordered span are inside it; the column just before
/// the start and the column just after the end, on the same lines, are not.
pub proof fn lemma_span_boundaries(s: SimpleSpan)
    requires
        position_le(s.start, s.end),
    ensures
        span_contains(s, s.start),
        span_contains(s, s.end),
        s.start.column > 0 ==> !span_contains(
            s,
            LineColumn { line: s.start.line, column: (s.start.column - 1) as usize },
        ),
        s.end.column < usize::MAX ==> !span_contains(
            s,
            LineColumn { line: s.end.line, column: (s.end.column + 1) as usize },
        ),
{
}

/// A span whose start equals its end holds exactly that one position.
pub proof fn lemma_point_span(s: SimpleSpan, p: LineColumn)
    requires
        s.start == s.end,
    ensures
        span_contains(s, p) <==> p == s.start,
{
}

} // verus!

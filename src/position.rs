//! Spans of source text as half-open line and column ranges.
use std::ops::Range;
use vstd::prelude::*;

verus! {

/// A span of source text: zero-based, half-open ranges of lines and of
/// columns (columns count characters within a line).
#[derive(Debug, Eq, Hash)]
pub struct Position {
    pub ln: Range<usize>,
    pub col: Range<usize>,
}

/// The smaller of two indices.
pub open spec fn min_index(a: usize, b: usize) -> usize {
    if a <= b { a } else { b }
}

/// The larger of two indices.
pub open spec fn max_index(a: usize, b: usize) -> usize {
    if a >= b { a } else { b }
}

impl Position {
    /// The empty span at the very start of a text: `0..0` on both axes.
    pub open spec fn origin() -> Position {
        Position {
            ln: Range { start: 0usize, end: 0usize },
            col: Range { start: 0usize, end: 0usize },
        }
    }

    /// The bounding box of two spans: per axis, the smaller start and the
    /// larger end.
    pub open spec fn spec_extended(self, other: Position) -> Position {
        Position {
            ln: Range {
                start: min_index(self.ln.start, other.ln.start),
                end: max_index(self.ln.end, other.ln.end),
            },
            col: Range {
                start: min_index(self.col.start, other.col.start),
                end: max_index(self.col.end, other.col.end),
            },
        }
    }

    /// Whether `other` lies inside this span's bounds on both axes.
    pub open spec fn spec_covers(self, other: Position) -> bool {
        &&& self.ln.start <= other.ln.start
        &&& other.ln.end <= self.ln.end
        &&& self.col.start <= other.col.start
        &&& other.col.end <= self.col.end
    }

    /// Builds a span from its two ranges, as given.
    pub fn new(ln: Range<usize>, col: Range<usize>) -> (r: Position)
        ensures
            r.ln == ln,
            r.col == col,
    {
        Position { ln, col }
    }

    /// Grows this span to the bounding box of itself and `other`.
    pub fn extend(&mut self, other: &Position)
        ensures
            *final(self) == old(self).spec_extended(*other),
    {
        if self.ln.start > other.ln.start {
            self.ln.start = other.ln.start;
        }
        if self.ln.end < other.ln.end {
            self.ln.end = other.ln.end;
        }
        if self.col.start > other.col.start {
            self.col.start = other.col.start;
        }
        if self.col.end < other.col.end {
            self.col.end = other.col.end;
        }
    }
}

/// The bounding box of two spans takes, per axis, the smaller start and the
/// larger end, and so covers both spans.
pub proof fn lemma_extended_bounds(a: Position, b: Position)
    ensures
        a.spec_extended(b).ln.start == min_index(a.ln.start, b.ln.start),
        a.spec_extended(b).ln.end == max_index(a.ln.end, b.ln.end),
        a.spec_extended(b).col.start == min_index(a.col.start, b.col.start),
        a.spec_extended(b).col.end == max_index(a.col.end, b.col.end),
        a.spec_extended(b).spec_covers(a),
        a.spec_extended(b).spec_covers(b),
{
}

/// Extending a span by one that it already covers leaves it as it is.
pub proof fn lemma_extend_covered(a: Position, b: Position)
    requires
        a.spec_covers(b),
    ensures
        a.spec_extended(b) == a,
{
}

/// Extending twice by the same span is extending once.
pub proof fn lemma_extend_idempotent(a: Position, b: Position)
    ensures
        a.spec_extended(b).spec_extended(b) == a.spec_extended(b),
{
}

impl PartialEq for Position {
    fn eq(&self, other: &Position) -> (r: bool) {
        self.ln.start == other.ln.start && self.ln.end == other.ln.end && self.col.start
            == other.col.start && self.col.end == other.col.end
    }
}

impl vstd::std_specs::cmp::PartialEqSpecImpl for Position {
    open spec fn obeys_eq_spec() -> bool {
        true
    }

    open spec fn eq_spec(&self, other: &Position) -> bool {
        *self == *other
    }
}

impl Clone for Position {
    fn clone(&self) -> (r: Position)
        ensures
            r == *self,
    {
        Position { ln: self.ln.start..self.ln.end, col: self.col.start..self.col.end }
    }
}

impl Default for Position {
    fn default() -> (r: Position)
        ensures
            r == Position::origin(),
    {
        Position { ln: 0..0, col: 0..0 }
    }
}

} // verus!

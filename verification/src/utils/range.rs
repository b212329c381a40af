//! A half-open interval of byte positions, used by the alternation
//! combinator to detect and resolve overlapping candidate matches.

use vstd::prelude::*;

verus! {

/// A half-open interval `[start, end)`.
///
/// A range is not required to satisfy `start <= end`: it may be built from
/// raw bounds in either order.  All operations measure it by
/// `max(start, end) - min(start, end)` and treat any zero-length range as
/// empty.
#[derive(Debug, Copy, Clone, PartialEq, Eq, Structural, Hash)]
pub struct Range {
    pub start: usize,
    pub end: usize,
}

impl Range {
    /// The absolute length of the range, whichever order its bounds are in.
    pub open spec fn spec_len(self) -> int {
        if self.start <= self.end {
            self.end - self.start
        } else {
            self.start - self.end
        }
    }

    /// Whether the range covers no positions.
    pub open spec fn spec_is_empty(self) -> bool {
        self.spec_len() == 0
    }

    /// The intersection: `None` when either range is empty or the two do
    /// not overlap, otherwise the range from the larger start to the
    /// smaller end.
    pub open spec fn spec_intersect(self, other: Self) -> Option<Range> {
        if other.start >= self.end || self.start >= other.end
            || other.spec_is_empty() || self.spec_is_empty() {
            None
        } else {
            Some(Range {
                start: if self.start >= other.start { self.start } else { other.start },
                end: if self.end <= other.end { self.end } else { other.end },
            })
        }
    }

    /// Builds a range from a pair of raw bounds.
    pub fn from_bounds(start: usize, end: usize) -> (r: Self)
        ensures
            r == (Range { start, end }),
    {
        Range { start, end }
    }

    /// Returns the start of the range (inclusive bound).
    pub fn start(self) -> (r: usize)
        ensures
            r == self.start,
    {
        self.start
    }

    /// Returns the end of the range (exclusive bound).
    pub fn end(self) -> (r: usize)
        ensures
            r == self.end,
    {
        self.end
    }

    /// Returns the (absolute) length of the range.
    pub fn len(self) -> (r: usize)
        ensures
            r == self.spec_len(),
    {
        if self.start <= self.end {
            self.end - self.start
        } else {
            self.start - self.end
        }
    }

    /// Returns true when the range covers no positions.
    pub fn is_empty(self) -> (r: bool)
        ensures
            r == self.spec_is_empty(),
    {
        self.len() == 0
    }

    /// Returns the intersection between this range and the other range, or
    /// `None` when either is empty or they do not overlap.
    pub fn intersect(self, other: Self) -> (r: Option<Self>)
        ensures
            r == self.spec_intersect(other),
    {
        if other.start >= self.end || self.start >= other.end
            || other.is_empty() || self.is_empty() {
            return None;
        }

        let start: usize = if self.start >= other.start { self.start } else { other.start };
        let end: usize = if self.end <= other.end { self.end } else { other.end };
        Some(Range { start, end })
    }
}

impl From<(usize, usize)> for Range {
    /// Builds a range from a `(start, end)` pair of raw bounds.
    fn from(value: (usize, usize)) -> (r: Self) {
        Range { start: value.0, end: value.1 }
    }
}

impl vstd::std_specs::convert::FromSpecImpl<(usize, usize)> for Range {
    open spec fn obeys_from_spec() -> bool {
        true
    }

    open spec fn from_spec(value: (usize, usize)) -> Self {
        Range { start: value.0, end: value.1 }
    }
}

impl From<core::ops::Range<usize>> for Range {
    /// Builds a range from a half-open standard range.
    fn from(value: core::ops::Range<usize>) -> (r: Self) {
        Range { start: value.start, end: value.end }
    }
}

impl vstd::std_specs::convert::FromSpecImpl<core::ops::Range<usize>> for Range {
    open spec fn obeys_from_spec() -> bool {
        true
    }

    open spec fn from_spec(value: core::ops::Range<usize>) -> Self {
        Range { start: value.start, end: value.end }
    }
}

/// Law: intersection is commutative.
pub proof fn lemma_intersect_commutative(a: Range, b: Range)
    ensures
        a.spec_intersect(b) == b.spec_intersect(a),
{
}

/// Law: a non-empty range with its bounds in order, intersected with
/// itself, is itself.  (A range with reversed bounds has a positive
/// absolute length but intersects with nothing, itself included.)
pub proof fn lemma_intersect_self(a: Range)
    requires
        a.start < a.end,
    ensures
        a.spec_intersect(a) == Some(a),
{
}

} // verus!

//! Locations in the source text.

use vstd::prelude::*;

verus! {

/// A half-open range `start..end` of byte offsets into the source text.
#[derive(Clone, Copy, Debug, PartialEq, Eq, Structural)]
pub struct Span {
    pub start: usize,
    pub end: usize,
}

impl Span {
    /// A span is well formed when it does not end before it starts.
    pub open spec fn wf(self) -> bool {
        self.start <= self.end
    }

    /// The number of bytes that the span covers.
    pub open spec fn spec_len(self) -> int {
        self.end - self.start
    }

    /// The span `start..end`.
    pub fn new(start: usize, end: usize) -> (span: Span)
        ensures
            span.start == start,
            span.end == end,
    {
        Span { start, end }
    }
}

} // verus!

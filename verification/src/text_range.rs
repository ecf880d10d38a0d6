//! Half-open ranges of byte offsets into a source text.

use vstd::prelude::*;

verus! {

/// The half-open range `start..end` of byte offsets into a source text.
#[derive(Clone, Copy, Debug, PartialEq, Eq, Structural, Hash)]
pub struct TextRange {
    pub start: u32,
    pub end: u32,
}

impl TextRange {
    /// A range is well formed when it does not end before it starts.
    pub open spec fn wf(self) -> bool {
        self.start <= self.end
    }

    /// `self` encloses `other`: every offset of `other` lies in `self`.
    pub open spec fn encloses(self, other: TextRange) -> bool {
        self.start <= other.start && other.end <= self.end
    }

    /// The range `start..end`.
    pub fn new(start: u32, end: u32) -> (range: TextRange)
        requires
            start <= end,
        ensures
            range == (TextRange { start, end }),
            range.wf(),
    {
        TextRange { start, end }
    }

    /// The offset at which the range starts.
    pub fn start(self) -> (offset: u32)
        ensures
            offset == self.start,
    {
        self.start
    }

    /// The offset just past the end of the range.
    pub fn end(self) -> (offset: u32)
        ensures
            offset == self.end,
    {
        self.end
    }

    /// The number of bytes that the range covers.
    pub fn len(self) -> (n: u32)
        requires
            self.wf(),
        ensures
            n == self.end - self.start,
    {
        self.end - self.start
    }

    /// Whether `self` encloses `other`.
    pub fn contains_range(self, other: TextRange) -> (inside: bool)
        ensures
            inside == self.encloses(other),
    {
        self.start <= other.start && other.end <= self.end
    }
}

} // verus!

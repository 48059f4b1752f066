//! Byte-offset spans into a source text.

use vstd::prelude::*;

verus! {

/// A byte offset into the source text.
pub type Position = u32;

/// The half-open interval `[start, end)` of byte offsets that a token or a
/// syntax node covers.
#[derive(Debug, Default, Clone, Copy, PartialEq, Eq, Structural)]
pub struct Span {
    pub start: u32,
    pub end: u32,
}

impl View for Span {
    type V = Span;

    open spec fn view(&self) -> Span {
        *self
    }
}

impl Span {
    /// The span that starts where `self` starts and ends where `end` ends.
    #[inline(always)]
    pub fn extends_with(self, end: &Self) -> (r: Self)
        ensures
            r == self.spec_extends_with(*end),
    {
        Span { start: self.start, end: end.end }
    }

    /// The span that starts where `self` starts and ends at `end`.
    #[inline(always)]
    pub fn extends_with_pos(self, end: u32) -> (r: Self)
        ensures
            r == self.spec_extends_with_pos(end),
    {
        Span { start: self.start, end }
    }

    /// The span of a node that the parser made up: `[0, 0)`.
    #[inline(always)]
    pub fn dummy() -> (r: Self)
        ensures
            r == Self::spec_dummy(),
    {
        Span { start: 0, end: 0 }
    }

    pub open spec fn spec_extends_with(self, end: Span) -> Span {
        Span { start: self.start, end: end.end }
    }

    pub open spec fn spec_extends_with_pos(self, end: u32) -> Span {
        Span { start: self.start, end }
    }

    pub open spec fn spec_dummy() -> Span {
        Span { start: 0, end: 0 }
    }
}

} // verus!

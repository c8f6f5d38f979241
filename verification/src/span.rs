//! Source positions.

use vstd::prelude::*;

verus! {

/// A region of one source file: the bytes from `start` up to `end`.
#[derive(Clone, Copy, Debug, PartialEq, Eq, Structural)]
pub struct Span {
    /// Offset of the first byte.
    pub start: usize,
    /// Offset behind the last byte.
    pub end: usize,
    /// Identifier of the file that the region lies in.
    pub file: usize,
}

impl Span {
    /// The span that stands for the end of the input, where no token is.
    pub open spec fn spec_eof() -> Span {
        Span { start: 0, end: 0, file: 0 }
    }

    /// The span that stands for the end of the input.
    #[verifier::when_used_as_spec(spec_eof)]
    pub fn eof() -> (s: Span)
        ensures
            s == Span::spec_eof(),
    {
        Span { start: 0, end: 0, file: 0 }
    }

    /// A span from its three parts.
    pub fn new(start: usize, end: usize, file: usize) -> (s: Span)
        ensures
            s == (Span { start, end, file }),
    {
        Span { start, end, file }
    }
}

/// The spans of the tokens that one syntax node was read from, in the order
/// in which they were read.
#[derive(Clone, Debug, PartialEq, Eq)]
pub struct AstSpan(pub Vec<Span>);

impl View for AstSpan {
    type V = Seq<Span>;

    open spec fn view(&self) -> Seq<Span> {
        self.0@
    }
}

} // verus!

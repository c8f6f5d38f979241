//! What the parser reports when the input is not a Huff file.

use vstd::prelude::*;
use crate::span::{AstSpan, Span};
use crate::token::{TokenKind, TokenKindView};

verus! {

/// Why parsing stopped.
#[derive(Clone, Debug, PartialEq, Eq)]
pub enum ParserErrorKind {
    /// A token of the kind carried here was required, another one stood there
    UnexpectedType(TokenKind),
    /// After `#define` stood no keyword of a definition
    InvalidDefinition,
    /// A name was required
    InvalidName(TokenKind),
    /// The imported path, carried here, is no Huff file that exists
    InvalidImportPath(String),
    /// A constant was given neither a literal nor a free storage pointer
    InvalidConstantValue(TokenKind),
    /// Between the parentheses behind `takes` or `returns` stood no number
    InvalidSingleArg(TokenKind),
    /// An argument of a macro invocation is neither literal, name nor parameter
    InvalidMacroArgs(TokenKind),
    /// The token cannot start a statement of a macro body
    InvalidTokenInMacroBody(TokenKind),
    /// The token cannot start a statement under a label
    InvalidTokenInLabelDefinition(TokenKind),
    /// A table may only list names
    InvalidTableBodyToken(TokenKind),
    /// Between `[` and `]` stood no name
    InvalidConstant(TokenKind),
    /// Between `<` and `>` stood no name
    InvalidArgCallIdent(TokenKind),
    /// The token cannot stand in an argument list
    InvalidArgs(TokenKind),
    /// No `uint` has this width
    InvalidUint256(usize),
    /// No `int` has this width
    InvalidInt(usize),
    /// No `bytes` has this length
    InvalidBytes(usize),
}

/// The mathematical value of a [`ParserErrorKind`].
pub ghost enum ParserErrorKindView {
    UnexpectedType(TokenKindView),
    InvalidDefinition,
    InvalidName(TokenKindView),
    InvalidImportPath(Seq<char>),
    InvalidConstantValue(TokenKindView),
    InvalidSingleArg(TokenKindView),
    InvalidMacroArgs(TokenKindView),
    InvalidTokenInMacroBody(TokenKindView),
    InvalidTokenInLabelDefinition(TokenKindView),
    InvalidTableBodyToken(TokenKindView),
    InvalidConstant(TokenKindView),
    InvalidArgCallIdent(TokenKindView),
    InvalidArgs(TokenKindView),
    InvalidUint256(usize),
    InvalidInt(usize),
    InvalidBytes(usize),
}

impl View for ParserErrorKind {
    type V = ParserErrorKindView;

    open spec fn view(&self) -> ParserErrorKindView {
        match self {
            ParserErrorKind::UnexpectedType(k) => ParserErrorKindView::UnexpectedType(k@),
            ParserErrorKind::InvalidDefinition => ParserErrorKindView::InvalidDefinition,
            ParserErrorKind::InvalidName(k) => ParserErrorKindView::InvalidName(k@),
            ParserErrorKind::InvalidImportPath(p) => ParserErrorKindView::InvalidImportPath(p@),
            ParserErrorKind::InvalidConstantValue(k) => ParserErrorKindView::InvalidConstantValue(
                k@,
            ),
            ParserErrorKind::InvalidSingleArg(k) => ParserErrorKindView::InvalidSingleArg(k@),
            ParserErrorKind::InvalidMacroArgs(k) => ParserErrorKindView::InvalidMacroArgs(k@),
            ParserErrorKind::InvalidTokenInMacroBody(k) => {
                ParserErrorKindView::InvalidTokenInMacroBody(k@)
            },
            ParserErrorKind::InvalidTokenInLabelDefinition(k) => {
                ParserErrorKindView::InvalidTokenInLabelDefinition(k@)
            },
            ParserErrorKind::InvalidTableBodyToken(k) => {
                ParserErrorKindView::InvalidTableBodyToken(k@)
            },
            ParserErrorKind::InvalidConstant(k) => ParserErrorKindView::InvalidConstant(k@),
            ParserErrorKind::InvalidArgCallIdent(k) => ParserErrorKindView::InvalidArgCallIdent(k@),
            ParserErrorKind::InvalidArgs(k) => ParserErrorKindView::InvalidArgs(k@),
            ParserErrorKind::InvalidUint256(n) => ParserErrorKindView::InvalidUint256(*n),
            ParserErrorKind::InvalidInt(n) => ParserErrorKindView::InvalidInt(*n),
            ParserErrorKind::InvalidBytes(n) => ParserErrorKindView::InvalidBytes(*n),
        }
    }
}

/// An error of the parser: why it stopped, and the spans of the tokens that
/// led there.
#[derive(Clone, Debug, PartialEq, Eq)]
pub struct ParserError {
    /// Why parsing stopped
    pub kind: ParserErrorKind,
    /// The tokens that led there
    pub spans: AstSpan,
}

/// The mathematical value of a [`ParserError`].
pub ghost struct ParserErrorView {
    pub kind: ParserErrorKindView,
    pub spans: Seq<Span>,
}

impl View for ParserError {
    type V = ParserErrorView;

    open spec fn view(&self) -> ParserErrorView {
        ParserErrorView { kind: self.kind@, spans: self.spans@ }
    }
}

impl ParserError {
    /// An error from its parts.
    pub fn new(kind: ParserErrorKind, spans: Vec<Span>) -> (e: ParserError)
        ensures
            e@ == (ParserErrorView { kind: kind@, spans: spans@ }),
    {
        ParserError { kind, spans: AstSpan(spans) }
    }
}

} // verus!

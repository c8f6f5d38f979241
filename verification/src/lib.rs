//! A parser for the Huff language: from the tokens of one source file to its
//! syntax tree, with the selector of each function and the size of each
//! table.
//!
//! - [`token`] and [`span`]: what the lexer hands over.
//! - [`ast`] and [`error`]: what the parser gives back.
//! - [`grammar`]: the grammar, as functions on sequences of tokens.
//! - [`parser`]: the parser, each of whose functions is proved to compute
//!   its production of the grammar.
//! - [`text`], [`hashing`], [`paths`] and [`sizes`]: the texts, hashes, paths
//!   and numbers that the parser computes on the way.
//! - [`laws`] and [`coverage`]: what holds of every parse.
//!
//! The parser reads no file. The paths that are regular files are handed to
//! [`Parser::parse`]; [`Parser::import_targets`] says which paths it will
//! look for.

pub mod span;
pub mod token;
pub mod ast;
pub mod error;
pub mod text;
pub mod hashing;
pub mod paths;
pub mod sizes;
pub mod grammar;
pub mod parser;
pub mod laws;
pub mod coverage;

pub use crate::ast::{
    Argument, BuiltinFunctionCall, BuiltinFunctionKind, ConstVal, ConstantDefinition, Contract,
    Definition, Event, FilePath, FreeStoragePointer, Function, FunctionType, Label, MacroArg,
    MacroDefinition, MacroInvocation, Statement, StatementType, TableDefinition, TableKind,
};
pub use crate::error::{ParserError, ParserErrorKind};
pub use crate::parser::Parser;
pub use crate::span::{AstSpan, Span};
pub use crate::token::{PrimitiveEVMType, Token, TokenKind};

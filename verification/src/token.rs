//! Tokens, as the lexer hands them to the parser.

use vstd::prelude::*;
use crate::span::Span;
use huff_utils::evm::Opcode;

verus! {

/// An EVM instruction. The parser carries it from a token into a statement
/// and never looks inside.
#[verifier::external_type_specification]
#[verifier::external_body]
pub struct ExOpcode(huff_utils::evm::Opcode);

/// `Opcode::clone`, which the crate derives for a `Copy` enum: the clone is
/// the instruction itself.
pub assume_specification[ <huff_utils::evm::Opcode as Clone>::clone ](
    o: &huff_utils::evm::Opcode,
) -> (r: huff_utils::evm::Opcode)
    ensures
        r == *o,
;

/// A value type of the EVM that is no array.
#[derive(Clone, Copy, Debug, PartialEq, Eq, Structural)]
pub enum PrimitiveEVMType {
    /// `string`
    String,
    /// `bytes`
    DynBytes,
    /// `bool`
    Bool,
    /// `uint` followed by its width in bits
    Uint(usize),
    /// `int` followed by its width in bits
    Int(usize),
    /// `address`
    Address,
    /// `bytes` followed by its length in bytes
    Bytes(usize),
}

/// `PartialEq::eq` of `huff_utils::evm::Opcode`, which the crate derives for
/// an enum without fields: whether the two are the same instruction.
#[verifier::external_body]
fn same_opcode(a: &Opcode, b: &Opcode) -> (r: bool)
    ensures
        r == (*a == *b),
{
    a == b
}

/// Whether two words hold the same bytes.
fn same_bytes(a: &[u8; 32], b: &[u8; 32]) -> (r: bool)
    ensures
        r == (*a == *b),
{
    let mut i: usize = 0;
    while i < 32
        invariant
            i <= 32,
            forall|j: int| 0 <= j < i ==> a[j] == b[j],
        decreases 32 - i,
    {
        if a[i] != b[i] {
            return false;
        }
        i += 1;
    }
    assert(*a =~= *b);
    true
}

/// Whether two lists hold the same sizes.
fn same_sizes(a: &Vec<usize>, b: &Vec<usize>) -> (r: bool)
    ensures
        r == (a@ == b@),
{
    if a.len() != b.len() {
        return false;
    }
    let mut i: usize = 0;
    while i < a.len()
        invariant
            i <= a.len(),
            a.len() == b.len(),
            forall|j: int| 0 <= j < i ==> a@[j] == b@[j],
        decreases a.len() - i,
    {
        if a[i] != b[i] {
            return false;
        }
        i += 1;
    }
    assert(a@ =~= b@);
    true
}

/// What a token is, with the text or number that it carries.
#[derive(Debug, PartialEq, Eq)]
pub enum TokenKind {
    /// End of the input
    Eof,
    /// A comment, with its text
    Comment(String),
    /// `/`
    Div,
    /// `#define`
    Define,
    /// `#include`
    Include,
    /// `macro`
    Macro,
    /// `function`
    Function,
    /// `event`
    Event,
    /// `constant`
    Constant,
    /// `takes`
    Takes,
    /// `returns`
    Returns,
    /// `view`
    View,
    /// `pure`
    Pure,
    /// `payable`
    Payable,
    /// `nonpayable`
    NonPayable,
    /// `indexed`
    Indexed,
    /// `FREE_STORAGE_POINTER()`
    FreeStoragePointer,
    /// An identifier
    Ident(String),
    /// `=`
    Assign,
    /// `(`
    OpenParen,
    /// `)`
    CloseParen,
    /// `[`
    OpenBracket,
    /// `]`
    CloseBracket,
    /// `{`
    OpenBrace,
    /// `}`
    CloseBrace,
    /// `<`
    LeftAngle,
    /// `>`
    RightAngle,
    /// `+`
    Add,
    /// `-`
    Sub,
    /// `*`
    Mul,
    /// `,`
    Comma,
    /// `:`
    Colon,
    /// A decimal number
    Num(usize),
    /// Blank space
    Whitespace,
    /// A string literal, without its quotes
    Str(String),
    /// A hex literal, as the 32 bytes that it pushes
    Literal([u8; 32]),
    /// An instruction
    Opcode(Opcode),
    /// A label definition: the identifier in front of a `:`
    Label(String),
    /// A type that is no array
    PrimitiveType(PrimitiveEVMType),
    /// An array type: the element type and one size for each pair of
    /// brackets, 0 where the brackets are empty
    ArrayType(PrimitiveEVMType, Vec<usize>),
    /// `jumptable`
    JumpTable,
    /// `jumptable__packed`
    JumpTablePacked,
    /// `table`
    CodeTable,
    /// The name of a built-in function
    BuiltinFunction(String),
}

/// The mathematical value of a [`TokenKind`]: each string is the sequence of
/// its characters.
pub ghost enum TokenKindView {
    Eof,
    Comment(Seq<char>),
    Div,
    Define,
    Include,
    Macro,
    Function,
    Event,
    Constant,
    Takes,
    Returns,
    View,
    Pure,
    Payable,
    NonPayable,
    Indexed,
    FreeStoragePointer,
    Ident(Seq<char>),
    Assign,
    OpenParen,
    CloseParen,
    OpenBracket,
    CloseBracket,
    OpenBrace,
    CloseBrace,
    LeftAngle,
    RightAngle,
    Add,
    Sub,
    Mul,
    Comma,
    Colon,
    Num(usize),
    Whitespace,
    Str(Seq<char>),
    Literal([u8; 32]),
    Opcode(Opcode),
    Label(Seq<char>),
    PrimitiveType(PrimitiveEVMType),
    ArrayType(PrimitiveEVMType, Seq<usize>),
    JumpTable,
    JumpTablePacked,
    CodeTable,
    BuiltinFunction(Seq<char>),
}

impl TokenKindView {
    /// The number of the variant. Two kinds match when their variants are the
    /// same, whatever they carry.
    pub open spec fn tag(self) -> nat {
        match self {
            TokenKindView::Eof => 0,
            TokenKindView::Comment(_) => 1,
            TokenKindView::Div => 2,
            TokenKindView::Define => 3,
            TokenKindView::Include => 4,
            TokenKindView::Macro => 5,
            TokenKindView::Function => 6,
            TokenKindView::Event => 7,
            TokenKindView::Constant => 8,
            TokenKindView::Takes => 9,
            TokenKindView::Returns => 10,
            TokenKindView::View => 11,
            TokenKindView::Pure => 12,
            TokenKindView::Payable => 13,
            TokenKindView::NonPayable => 14,
            TokenKindView::Indexed => 15,
            TokenKindView::FreeStoragePointer => 16,
            TokenKindView::Ident(_) => 17,
            TokenKindView::Assign => 18,
            TokenKindView::OpenParen => 19,
            TokenKindView::CloseParen => 20,
            TokenKindView::OpenBracket => 21,
            TokenKindView::CloseBracket => 22,
            TokenKindView::OpenBrace => 23,
            TokenKindView::CloseBrace => 24,
            TokenKindView::LeftAngle => 25,
            TokenKindView::RightAngle => 26,
            TokenKindView::Add => 27,
            TokenKindView::Sub => 28,
            TokenKindView::Mul => 29,
            TokenKindView::Comma => 30,
            TokenKindView::Colon => 31,
            TokenKindView::Num(_) => 32,
            TokenKindView::Whitespace => 33,
            TokenKindView::Str(_) => 34,
            TokenKindView::Literal(_) => 35,
            TokenKindView::Opcode(_) => 36,
            TokenKindView::Label(_) => 37,
            TokenKindView::PrimitiveType(_) => 38,
            TokenKindView::ArrayType(_, _) => 39,
            TokenKindView::JumpTable => 40,
            TokenKindView::JumpTablePacked => 41,
            TokenKindView::CodeTable => 42,
            TokenKindView::BuiltinFunction(_) => 43,
        }
    }

    /// Whether the two kinds are the same variant.
    pub open spec fn same_kind(self, other: TokenKindView) -> bool {
        self.tag() == other.tag()
    }

    /// Whether a token of this kind is blank space or a comment, which the
    /// grammar ignores.
    pub open spec fn is_trivia(self) -> bool {
        self is Whitespace || self is Comment
    }
}

impl View for TokenKind {
    type V = TokenKindView;

    open spec fn view(&self) -> TokenKindView {
        match self {
            TokenKind::Eof => TokenKindView::Eof,
            TokenKind::Comment(s) => TokenKindView::Comment(s@),
            TokenKind::Div => TokenKindView::Div,
            TokenKind::Define => TokenKindView::Define,
            TokenKind::Include => TokenKindView::Include,
            TokenKind::Macro => TokenKindView::Macro,
            TokenKind::Function => TokenKindView::Function,
            TokenKind::Event => TokenKindView::Event,
            TokenKind::Constant => TokenKindView::Constant,
            TokenKind::Takes => TokenKindView::Takes,
            TokenKind::Returns => TokenKindView::Returns,
            TokenKind::View => TokenKindView::View,
            TokenKind::Pure => TokenKindView::Pure,
            TokenKind::Payable => TokenKindView::Payable,
            TokenKind::NonPayable => TokenKindView::NonPayable,
            TokenKind::Indexed => TokenKindView::Indexed,
            TokenKind::FreeStoragePointer => TokenKindView::FreeStoragePointer,
            TokenKind::Ident(s) => TokenKindView::Ident(s@),
            TokenKind::Assign => TokenKindView::Assign,
            TokenKind::OpenParen => TokenKindView::OpenParen,
            TokenKind::CloseParen => TokenKindView::CloseParen,
            TokenKind::OpenBracket => TokenKindView::OpenBracket,
            TokenKind::CloseBracket => TokenKindView::CloseBracket,
            TokenKind::OpenBrace => TokenKindView::OpenBrace,
            TokenKind::CloseBrace => TokenKindView::CloseBrace,
            TokenKind::LeftAngle => TokenKindView::LeftAngle,
            TokenKind::RightAngle => TokenKindView::RightAngle,
            TokenKind::Add => TokenKindView::Add,
            TokenKind::Sub => TokenKindView::Sub,
            TokenKind::Mul => TokenKindView::Mul,
            TokenKind::Comma => TokenKindView::Comma,
            TokenKind::Colon => TokenKindView::Colon,
            TokenKind::Num(n) => TokenKindView::Num(*n),
            TokenKind::Whitespace => TokenKindView::Whitespace,
            TokenKind::Str(s) => TokenKindView::Str(s@),
            TokenKind::Literal(l) => TokenKindView::Literal(*l),
            TokenKind::Opcode(o) => TokenKindView::Opcode(*o),
            TokenKind::Label(s) => TokenKindView::Label(s@),
            TokenKind::PrimitiveType(p) => TokenKindView::PrimitiveType(*p),
            TokenKind::ArrayType(p, dims) => TokenKindView::ArrayType(*p, dims@),
            TokenKind::JumpTable => TokenKindView::JumpTable,
            TokenKind::JumpTablePacked => TokenKindView::JumpTablePacked,
            TokenKind::CodeTable => TokenKindView::CodeTable,
            TokenKind::BuiltinFunction(s) => TokenKindView::BuiltinFunction(s@),
        }
    }
}

impl Clone for TokenKind {
    /// A copy that carries the same text and numbers.
    fn clone(&self) -> (r: Self)
        ensures
            r@ == self@,
    {
        match self {
            TokenKind::Eof => TokenKind::Eof,
            TokenKind::Comment(s) => TokenKind::Comment(s.clone()),
            TokenKind::Div => TokenKind::Div,
            TokenKind::Define => TokenKind::Define,
            TokenKind::Include => TokenKind::Include,
            TokenKind::Macro => TokenKind::Macro,
            TokenKind::Function => TokenKind::Function,
            TokenKind::Event => TokenKind::Event,
            TokenKind::Constant => TokenKind::Constant,
            TokenKind::Takes => TokenKind::Takes,
            TokenKind::Returns => TokenKind::Returns,
            TokenKind::View => TokenKind::View,
            TokenKind::Pure => TokenKind::Pure,
            TokenKind::Payable => TokenKind::Payable,
            TokenKind::NonPayable => TokenKind::NonPayable,
            TokenKind::Indexed => TokenKind::Indexed,
            TokenKind::FreeStoragePointer => TokenKind::FreeStoragePointer,
            TokenKind::Ident(s) => TokenKind::Ident(s.clone()),
            TokenKind::Assign => TokenKind::Assign,
            TokenKind::OpenParen => TokenKind::OpenParen,
            TokenKind::CloseParen => TokenKind::CloseParen,
            TokenKind::OpenBracket => TokenKind::OpenBracket,
            TokenKind::CloseBracket => TokenKind::CloseBracket,
            TokenKind::OpenBrace => TokenKind::OpenBrace,
            TokenKind::CloseBrace => TokenKind::CloseBrace,
            TokenKind::LeftAngle => TokenKind::LeftAngle,
            TokenKind::RightAngle => TokenKind::RightAngle,
            TokenKind::Add => TokenKind::Add,
            TokenKind::Sub => TokenKind::Sub,
            TokenKind::Mul => TokenKind::Mul,
            TokenKind::Comma => TokenKind::Comma,
            TokenKind::Colon => TokenKind::Colon,
            TokenKind::Num(n) => TokenKind::Num(*n),
            TokenKind::Whitespace => TokenKind::Whitespace,
            TokenKind::Str(s) => TokenKind::Str(s.clone()),
            TokenKind::Literal(l) => TokenKind::Literal(*l),
            TokenKind::Opcode(o) => TokenKind::Opcode(*o),
            TokenKind::Label(s) => TokenKind::Label(s.clone()),
            TokenKind::PrimitiveType(p) => TokenKind::PrimitiveType(*p),
            TokenKind::ArrayType(p, dims) => {
                let d = dims.clone();
                assert(d@ =~= dims@);
                TokenKind::ArrayType(*p, d)
            },
            TokenKind::JumpTable => TokenKind::JumpTable,
            TokenKind::JumpTablePacked => TokenKind::JumpTablePacked,
            TokenKind::CodeTable => TokenKind::CodeTable,
            TokenKind::BuiltinFunction(s) => TokenKind::BuiltinFunction(s.clone()),
        }
    }
}

impl TokenKind {
    /// The number of the variant.
    pub fn tag(&self) -> (t: u8)
        ensures
            t == self@.tag(),
    {
        match self {
            TokenKind::Eof => 0,
            TokenKind::Comment(_) => 1,
            TokenKind::Div => 2,
            TokenKind::Define => 3,
            TokenKind::Include => 4,
            TokenKind::Macro => 5,
            TokenKind::Function => 6,
            TokenKind::Event => 7,
            TokenKind::Constant => 8,
            TokenKind::Takes => 9,
            TokenKind::Returns => 10,
            TokenKind::View => 11,
            TokenKind::Pure => 12,
            TokenKind::Payable => 13,
            TokenKind::NonPayable => 14,
            TokenKind::Indexed => 15,
            TokenKind::FreeStoragePointer => 16,
            TokenKind::Ident(_) => 17,
            TokenKind::Assign => 18,
            TokenKind::OpenParen => 19,
            TokenKind::CloseParen => 20,
            TokenKind::OpenBracket => 21,
            TokenKind::CloseBracket => 22,
            TokenKind::OpenBrace => 23,
            TokenKind::CloseBrace => 24,
            TokenKind::LeftAngle => 25,
            TokenKind::RightAngle => 26,
            TokenKind::Add => 27,
            TokenKind::Sub => 28,
            TokenKind::Mul => 29,
            TokenKind::Comma => 30,
            TokenKind::Colon => 31,
            TokenKind::Num(_) => 32,
            TokenKind::Whitespace => 33,
            TokenKind::Str(_) => 34,
            TokenKind::Literal(_) => 35,
            TokenKind::Opcode(_) => 36,
            TokenKind::Label(_) => 37,
            TokenKind::PrimitiveType(_) => 38,
            TokenKind::ArrayType(_, _) => 39,
            TokenKind::JumpTable => 40,
            TokenKind::JumpTablePacked => 41,
            TokenKind::CodeTable => 42,
            TokenKind::BuiltinFunction(_) => 43,
        }
    }

    /// Whether the two kinds are the same variant, whatever they carry.
    pub fn same_kind(&self, other: &TokenKind) -> (b: bool)
        ensures
            b == self@.same_kind(other@),
    {
        self.tag() == other.tag()
    }

    /// Whether the two kinds are the same variant and carry the same.
    pub fn same_token(&self, other: &TokenKind) -> (b: bool)
        ensures
            b == (self@ == other@),
    {
        match (self, other) {
            (TokenKind::Comment(a), TokenKind::Comment(b)) => *a == *b,
            (TokenKind::Ident(a), TokenKind::Ident(b)) => *a == *b,
            (TokenKind::Str(a), TokenKind::Str(b)) => *a == *b,
            (TokenKind::Label(a), TokenKind::Label(b)) => *a == *b,
            (TokenKind::BuiltinFunction(a), TokenKind::BuiltinFunction(b)) => *a == *b,
            (TokenKind::Num(a), TokenKind::Num(b)) => *a == *b,
            (TokenKind::Literal(a), TokenKind::Literal(b)) => same_bytes(a, b),
            (TokenKind::Opcode(a), TokenKind::Opcode(b)) => same_opcode(a, b),
            (TokenKind::PrimitiveType(a), TokenKind::PrimitiveType(b)) => *a == *b,
            (TokenKind::ArrayType(a, m), TokenKind::ArrayType(b, n)) => *a == *b && same_sizes(
                m,
                n,
            ),
            _ => self.tag() == other.tag(),
        }
    }

    /// Whether a token of this kind is blank space or a comment.
    pub fn is_trivia(&self) -> (b: bool)
        ensures
            b == self@.is_trivia(),
    {
        match self {
            TokenKind::Whitespace => true,
            TokenKind::Comment(_) => true,
            _ => false,
        }
    }
}

/// One token: its kind and where it stood in the source.
#[derive(Debug, PartialEq, Eq)]
pub struct Token {
    /// What the token is
    pub kind: TokenKind,
    /// Where it stood
    pub span: Span,
}

/// The mathematical value of a [`Token`].
pub ghost struct TokenView {
    pub kind: TokenKindView,
    pub span: Span,
}

impl View for Token {
    type V = TokenView;

    open spec fn view(&self) -> TokenView {
        TokenView { kind: self.kind@, span: self.span }
    }
}

impl Clone for Token {
    /// A copy with the same kind and span.
    fn clone(&self) -> (r: Self)
        ensures
            r@ == self@,
    {
        Token { kind: self.kind.clone(), span: self.span }
    }
}

impl Token {
    /// A token from its kind and its span.
    pub fn new(kind: TokenKind, span: Span) -> (t: Token)
        ensures
            t@ == (TokenView { kind: kind@, span }),
    {
        Token { kind, span }
    }
}

/// The values of the tokens of a vector, in order.
pub open spec fn tokens_view(tokens: Seq<Token>) -> Seq<TokenView> {
    tokens.map_values(|t: Token| t@)
}

} // verus!

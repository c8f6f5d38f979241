use huff_parser::{
    AstSpan, Parser, ParserErrorKind, PrimitiveEVMType, Span, Token, TokenKind,
};

fn stream(kinds: Vec<TokenKind>) -> Vec<Token> {
    let mut tokens = Vec::new();
    let mut at = 0usize;
    for kind in kinds {
        tokens.push(Token::new(kind, Span::new(at, at + 1, 0)));
        at += 2;
    }
    tokens
}

fn ident(s: &str) -> TokenKind {
    TokenKind::Ident(s.to_string())
}

fn macro_head() -> Vec<TokenKind> {
    vec![
        TokenKind::Define,
        TokenKind::Macro,
        ident("M"),
        TokenKind::OpenParen,
        TokenKind::CloseParen,
        TokenKind::Assign,
        TokenKind::Takes,
        TokenKind::OpenParen,
        TokenKind::Num(1),
        TokenKind::CloseParen,
        TokenKind::Returns,
        TokenKind::OpenParen,
        TokenKind::Num(2),
        TokenKind::CloseParen,
        TokenKind::OpenBrace,
    ]
}

fn failure(kinds: Vec<TokenKind>) -> huff_parser::ParserError {
    let mut parser = Parser::new(stream(kinds), None);
    parser.parse(&Vec::new()).unwrap_err()
}

fn in_body(mut rest: Vec<TokenKind>) -> huff_parser::ParserError {
    let mut kinds = macro_head();
    kinds.append(&mut rest);
    failure(kinds)
}

#[test]
fn rejected_int() {
    let err = failure(vec![
        TokenKind::Define,
        TokenKind::Event,
        ident("E"),
        TokenKind::OpenParen,
        TokenKind::PrimitiveType(PrimitiveEVMType::Int(257)),
        TokenKind::CloseParen,
        TokenKind::Eof,
    ]);
    assert_eq!(err.kind, ParserErrorKind::InvalidInt(257));
}

#[test]
fn rejected_bytes() {
    for n in [0usize, 33] {
        let err = failure(vec![
            TokenKind::Define,
            TokenKind::Event,
            ident("E"),
            TokenKind::OpenParen,
            TokenKind::PrimitiveType(PrimitiveEVMType::Bytes(n)),
            TokenKind::CloseParen,
            TokenKind::Eof,
        ]);
        assert_eq!(err.kind, ParserErrorKind::InvalidBytes(n));
    }
}

#[test]
fn rejected_array_of_invalid_type() {
    let err = failure(vec![
        TokenKind::Define,
        TokenKind::Event,
        ident("E"),
        TokenKind::OpenParen,
        TokenKind::ArrayType(PrimitiveEVMType::Uint(12), vec![2]),
        TokenKind::CloseParen,
        TokenKind::Eof,
    ]);
    assert_eq!(err.kind, ParserErrorKind::InvalidUint256(12));
}

#[test]
fn widths_at_the_bounds() {
    for n in [8usize, 16, 248, 256] {
        let mut parser = Parser::new(
            stream(vec![TokenKind::PrimitiveType(PrimitiveEVMType::Uint(n)), TokenKind::Eof]),
            None,
        );
        assert_eq!(
            parser.parse_arg_type(),
            Ok(TokenKind::PrimitiveType(PrimitiveEVMType::Uint(n)))
        );
        assert_eq!(parser.cursor, 1);
    }
    for n in [0usize, 7, 9, 264] {
        let mut parser = Parser::new(
            stream(vec![TokenKind::PrimitiveType(PrimitiveEVMType::Int(n)), TokenKind::Eof]),
            None,
        );
        assert_eq!(parser.parse_arg_type().unwrap_err().kind, ParserErrorKind::InvalidInt(n));
        assert_eq!(parser.cursor, 0);
    }
    for n in [1usize, 32] {
        let mut parser = Parser::new(stream(vec![TokenKind::Comma, TokenKind::Eof]), None);
        assert_eq!(parser.parse_primitive_type(PrimitiveEVMType::Bytes(n)), Ok(TokenKind::Comma));
    }
}

#[test]
fn no_type_where_one_is_due() {
    let err = failure(vec![
        TokenKind::Define,
        TokenKind::Event,
        ident("E"),
        TokenKind::OpenParen,
        ident("name"),
        TokenKind::CloseParen,
        TokenKind::Eof,
    ]);
    assert_eq!(err.kind, ParserErrorKind::InvalidArgs(ident("name")));
    assert_eq!(err.spans, AstSpan(vec![Span::new(8, 9, 0)]));
}

#[test]
fn stray_token_in_a_list_of_names() {
    let err = failure(vec![
        TokenKind::Define,
        TokenKind::Macro,
        ident("M"),
        TokenKind::OpenParen,
        ident("a"),
        TokenKind::Num(3),
        TokenKind::CloseParen,
        TokenKind::Eof,
    ]);
    assert_eq!(err.kind, ParserErrorKind::InvalidArgs(TokenKind::Num(3)));
    assert_eq!(err.spans, AstSpan(vec![Span::new(10, 11, 0)]));
}

#[test]
fn list_of_names_that_never_closes() {
    let err = failure(vec![
        TokenKind::Define,
        TokenKind::Macro,
        ident("M"),
        TokenKind::OpenParen,
        ident("a"),
        TokenKind::Eof,
    ]);
    assert_eq!(err.kind, ParserErrorKind::InvalidArgs(TokenKind::Eof));
}

#[test]
fn takes_without_number() {
    let err = failure(vec![
        TokenKind::Define,
        TokenKind::Macro,
        ident("M"),
        TokenKind::OpenParen,
        TokenKind::CloseParen,
        TokenKind::Assign,
        TokenKind::Takes,
        TokenKind::OpenParen,
        ident("n"),
        TokenKind::CloseParen,
        TokenKind::Eof,
    ]);
    assert_eq!(err.kind, ParserErrorKind::InvalidSingleArg(ident("n")));
    assert_eq!(err.spans, AstSpan(vec![Span::new(16, 17, 0)]));
}

#[test]
fn macro_without_assign() {
    let err = failure(vec![
        TokenKind::Define,
        TokenKind::Macro,
        ident("M"),
        TokenKind::OpenParen,
        TokenKind::CloseParen,
        TokenKind::Takes,
        TokenKind::Eof,
    ]);
    assert_eq!(err.kind, ParserErrorKind::UnexpectedType(TokenKind::Assign));
    assert_eq!(err.spans.0.len(), 5);
}

#[test]
fn macro_without_name() {
    let err = failure(vec![TokenKind::Define, TokenKind::Macro, TokenKind::OpenParen]);
    assert_eq!(err.kind, ParserErrorKind::UnexpectedType(ident("MACRO_NAME")));
}

#[test]
fn event_without_name() {
    let err = failure(vec![TokenKind::Define, TokenKind::Event, TokenKind::OpenParen]);
    assert_eq!(err.kind, ParserErrorKind::UnexpectedType(ident("x")));
}

#[test]
fn wrong_token_in_macro_body() {
    let err = in_body(vec![TokenKind::Assign, TokenKind::CloseBrace, TokenKind::Eof]);
    assert_eq!(err.kind, ParserErrorKind::InvalidTokenInMacroBody(TokenKind::Assign));
    assert_eq!(err.spans, AstSpan(vec![Span::new(30, 31, 0)]));
}

#[test]
fn macro_body_that_never_closes() {
    let err = in_body(vec![ident("a"), TokenKind::Eof]);
    assert_eq!(err.kind, ParserErrorKind::InvalidTokenInMacroBody(TokenKind::Eof));
}

#[test]
fn unknown_builtin_function() {
    let err = in_body(vec![
        TokenKind::BuiltinFunction("__nothing".to_string()),
        TokenKind::OpenParen,
        TokenKind::CloseParen,
        TokenKind::CloseBrace,
        TokenKind::Eof,
    ]);
    assert_eq!(
        err.kind,
        ParserErrorKind::InvalidTokenInMacroBody(TokenKind::BuiltinFunction(
            "__nothing".to_string()
        ))
    );
}

#[test]
fn wrong_token_under_a_label() {
    let err = in_body(vec![
        TokenKind::Label("l".to_string()),
        TokenKind::Colon,
        ident("a"),
        TokenKind::BuiltinFunction("__codesize".to_string()),
        TokenKind::CloseBrace,
        TokenKind::Eof,
    ]);
    assert_eq!(
        err.kind,
        ParserErrorKind::InvalidTokenInLabelDefinition(TokenKind::BuiltinFunction(
            "__codesize".to_string()
        ))
    );
    assert_eq!(err.spans, AstSpan(vec![Span::new(36, 37, 0)]));
}

#[test]
fn label_without_colon() {
    let err = in_body(vec![TokenKind::Label("l".to_string()), ident("a"), TokenKind::CloseBrace]);
    assert_eq!(err.kind, ParserErrorKind::UnexpectedType(TokenKind::Colon));
}

#[test]
fn wrong_macro_argument() {
    let err = in_body(vec![
        ident("CALLEE"),
        TokenKind::OpenParen,
        TokenKind::Num(1),
        TokenKind::CloseParen,
        TokenKind::CloseBrace,
        TokenKind::Eof,
    ]);
    assert_eq!(err.kind, ParserErrorKind::InvalidMacroArgs(TokenKind::Num(1)));
    // every token from `#define` up to the opening parenthesis of the call
    assert_eq!(err.spans.0.len(), 17);
}

#[test]
fn constant_push_without_name() {
    let err = in_body(vec![TokenKind::OpenBracket, TokenKind::Num(1), TokenKind::CloseBracket]);
    assert_eq!(err.kind, ParserErrorKind::InvalidConstant(TokenKind::Num(1)));
    assert_eq!(err.spans.0.len(), 16);
}

#[test]
fn constant_push_that_never_closes() {
    let err = in_body(vec![TokenKind::OpenBracket, ident("A"), TokenKind::CloseBrace]);
    assert_eq!(err.kind, ParserErrorKind::UnexpectedType(TokenKind::CloseBracket));
}

#[test]
fn arg_call_without_name() {
    let err = in_body(vec![TokenKind::LeftAngle, TokenKind::RightAngle, TokenKind::CloseBrace]);
    assert_eq!(err.kind, ParserErrorKind::InvalidArgCallIdent(TokenKind::RightAngle));
}

#[test]
fn wrong_token_in_table() {
    let err = failure(vec![
        TokenKind::Define,
        TokenKind::JumpTable,
        ident("T"),
        TokenKind::OpenBrace,
        ident("a"),
        TokenKind::Num(1),
        TokenKind::CloseBrace,
        TokenKind::Eof,
    ]);
    assert_eq!(err.kind, ParserErrorKind::InvalidTableBodyToken(TokenKind::Num(1)));
    assert_eq!(err.spans, AstSpan(vec![Span::new(10, 11, 0)]));
}

#[test]
fn table_without_keyword() {
    let mut parser = Parser::new(stream(vec![ident("T"), TokenKind::Eof]), None);
    let err = parser.parse_table().unwrap_err();
    assert_eq!(err.kind, ParserErrorKind::InvalidDefinition);
    assert_eq!(parser.cursor, 0);
}

#[test]
fn the_first_error_ends_the_parse() {
    let err = failure(vec![
        TokenKind::Define,
        TokenKind::Constant,
        ident("A"),
        TokenKind::Assign,
        TokenKind::Num(1),
        TokenKind::Define,
        TokenKind::Num(2),
        TokenKind::Eof,
    ]);
    assert_eq!(err.kind, ParserErrorKind::InvalidConstantValue(TokenKind::Num(1)));
}

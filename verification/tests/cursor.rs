use huff_parser::{Parser, ParserErrorKind, Span, Token, TokenKind};
use huff_utils::evm::Opcode;

fn stream(kinds: Vec<TokenKind>) -> Vec<Token> {
    let mut tokens = Vec::new();
    let mut at = 0usize;
    for kind in kinds {
        tokens.push(Token::new(kind, Span::new(at, at + 1, 0)));
        at += 2;
    }
    tokens
}

fn ident(s: &str) -> TokenKind {
    TokenKind::Ident(s.to_string())
}

#[test]
fn new_parser_stands_at_the_first_token() {
    let parser = Parser::new(stream(vec![TokenKind::Define, TokenKind::Eof]), Some("a".into()));
    assert_eq!(parser.cursor, 0);
    assert_eq!(parser.current_token.kind, TokenKind::Define);
    assert!(parser.spans.is_empty());
    assert_eq!(parser.base, Some("a".to_string()));
}

#[test]
fn check_ignores_what_a_token_carries() {
    let mut parser = Parser::new(stream(vec![ident("abc"), TokenKind::Eof]), None);
    assert!(parser.check(ident("x")));
    assert!(!parser.check(TokenKind::Label("abc".to_string())));
    assert!(!parser.check(TokenKind::Eof));
    assert_eq!(parser.cursor, 0);
}

#[test]
fn match_kind_gives_the_token_that_stood_there() {
    let mut parser = Parser::new(stream(vec![ident("abc"), TokenKind::Eof]), None);
    assert_eq!(parser.match_kind(ident("x")), Ok(ident("abc")));
    assert_eq!(parser.cursor, 1);
    assert_eq!(parser.spans, vec![Span::new(0, 1, 0)]);
    let err = parser.match_kind(TokenKind::Num(0)).unwrap_err();
    assert_eq!(err.kind, ParserErrorKind::UnexpectedType(TokenKind::Num(0)));
    assert_eq!(err.spans.0, vec![Span::new(0, 1, 0)]);
    assert_eq!(parser.cursor, 1);
}

#[test]
fn consume_behind_the_last_token_is_the_end_of_input() {
    let mut parser = Parser::new(stream(vec![TokenKind::Comma, TokenKind::Colon]), None);
    parser.consume();
    assert_eq!(parser.current_token.kind, TokenKind::Colon);
    parser.consume();
    assert_eq!(parser.cursor, 2);
    assert_eq!(parser.current_token.kind, TokenKind::Eof);
    assert_eq!(parser.current_token.span, Span::eof());
    parser.consume();
    assert_eq!(parser.cursor, 2);
    assert_eq!(parser.spans, vec![Span::new(0, 1, 0), Span::new(2, 3, 0), Span::new(0, 0, 0)]);
}

#[test]
fn peek_and_peek_behind() {
    let mut parser = Parser::new(stream(vec![TokenKind::Comma, TokenKind::Colon]), None);
    assert_eq!(parser.peek_behind(), None);
    assert_eq!(parser.peek().map(|t| t.kind), Some(TokenKind::Colon));
    parser.consume();
    assert_eq!(parser.peek(), None);
    assert_eq!(parser.peek_behind().map(|t| t.kind), Some(TokenKind::Comma));
    parser.consume();
    assert_eq!(parser.peek(), None);
    assert_eq!(parser.peek_behind().map(|t| t.kind), Some(TokenKind::Colon));
}

#[test]
fn reset_goes_back_and_keeps_the_spans() {
    let mut parser = Parser::new(stream(vec![TokenKind::Comma, TokenKind::Colon]), None);
    parser.consume();
    parser.reset();
    assert_eq!(parser.cursor, 0);
    assert_eq!(parser.current_token.kind, TokenKind::Comma);
    assert_eq!(parser.spans.len(), 1);
}

#[test]
fn consume_all_compares_what_tokens_carry() {
    let kinds = vec![
        TokenKind::Define,
        ident("a"),
        TokenKind::Opcode(Opcode::Add),
        ident("a"),
        ident("b"),
        TokenKind::Eof,
    ];
    let mut parser = Parser::new(stream(kinds), None);
    parser.consume_all(vec![ident("a"), TokenKind::Opcode(Opcode::Add)]);
    assert_eq!(parser.cursor, 3);
    assert_eq!(parser.current_token.kind, ident("a"));
    assert!(parser.spans.is_empty());
    parser.consume_all(vec![TokenKind::Opcode(Opcode::Sub)]);
    assert_eq!(parser.cursor, 3);
}

#[test]
fn same_token_tells_payloads_apart() {
    assert!(TokenKind::Opcode(Opcode::Add).same_token(&TokenKind::Opcode(Opcode::Add)));
    assert!(!TokenKind::Opcode(Opcode::Add).same_token(&TokenKind::Opcode(Opcode::Mul)));
    assert!(TokenKind::Literal([7u8; 32]).same_token(&TokenKind::Literal([7u8; 32])));
    assert!(!TokenKind::Literal([7u8; 32]).same_token(&TokenKind::Literal([8u8; 32])));
    assert!(!ident("a").same_token(&TokenKind::Label("a".to_string())));
    assert!(TokenKind::Comma.same_token(&TokenKind::Comma));
    assert!(ident("a").same_kind(&ident("b")));
    assert!(!ident("a").same_token(&ident("b")));
}

#[test]
fn blank_space_parsers() {
    let kinds =
        vec![TokenKind::Whitespace, TokenKind::Whitespace, TokenKind::Define, TokenKind::Eof];
    let mut parser = Parser::new(stream(kinds.clone()), None);
    assert_eq!(parser.parse_newline(), Ok(()));
    assert_eq!(parser.cursor, 2);
    assert_eq!(
        parser.parse_newline().unwrap_err().kind,
        ParserErrorKind::UnexpectedType(TokenKind::Whitespace)
    );
    let mut parser = Parser::new(stream(kinds), None);
    assert_eq!(parser.parse_nl_or_whitespace(), Ok(()));
    assert_eq!(parser.cursor, 2);
    assert_eq!(parser.parse_nl_or_whitespace(), Ok(()));
    assert_eq!(parser.cursor, 2);
}

#[test]
fn single_argument() {
    let kinds =
        vec![TokenKind::OpenParen, TokenKind::Num(17), TokenKind::CloseParen, TokenKind::Eof];
    let mut parser = Parser::new(stream(kinds), None);
    assert_eq!(parser.parse_single_arg(), Ok(17));
    assert_eq!(parser.cursor, 3);
}

#[test]
fn constant_push_and_arg_call_give_the_span_of_the_name() {
    let kinds = vec![
        TokenKind::OpenBracket,
        ident("SLOT"),
        TokenKind::CloseBracket,
        TokenKind::LeftAngle,
        ident("arg"),
        TokenKind::RightAngle,
        TokenKind::Eof,
    ];
    let mut parser = Parser::new(stream(kinds), None);
    assert_eq!(parser.parse_constant_push(), Ok(("SLOT".to_string(), Span::new(2, 3, 0))));
    assert_eq!(parser.parse_arg_call(), Ok(("arg".to_string(), Span::new(8, 9, 0))));
    assert_eq!(parser.spans.len(), 6);
}

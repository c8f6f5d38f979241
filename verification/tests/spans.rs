use huff_parser::{
    Argument, AstSpan, Contract, Parser, Span, Statement, StatementType, Token, TokenKind,
};
use huff_utils::evm::Opcode;

fn ident(s: &str) -> TokenKind {
    TokenKind::Ident(s.to_string())
}

fn tokens_of(kinds: Vec<TokenKind>) -> Vec<Token> {
    let mut tokens = Vec::new();
    let mut at = 0usize;
    for kind in kinds {
        tokens.push(Token::new(kind, Span::new(at, at + 3, 1)));
        at += 5;
    }
    tokens
}

// Whether `spans` are spans of `tokens`, in their order.
fn in_order(spans: &AstSpan, tokens: &[Token]) -> bool {
    let mut next = 0usize;
    for span in spans.0.iter() {
        match tokens[next..].iter().position(|t| t.span == *span) {
            Some(found) => next += found + 1,
            None => return false,
        }
    }
    true
}

fn check_arguments(args: &[Argument], tokens: &[Token]) {
    for a in args {
        assert!(!a.span.0.is_empty());
        assert!(in_order(&a.span, tokens));
    }
}

fn check_statements(body: &[Statement], tokens: &[Token]) {
    for s in body {
        assert!(!s.span.0.is_empty());
        assert!(in_order(&s.span, tokens));
        match &s.ty {
            StatementType::MacroInvocation(m) => assert_eq!(m.span, s.span),
            StatementType::Label(l) => {
                assert_eq!(l.span, s.span);
                check_statements(&l.inner, tokens);
            }
            StatementType::BuiltinFunctionCall(b) => {
                assert_eq!(b.span, s.span);
                check_arguments(&b.args, tokens);
            }
            _ => {}
        }
    }
}

fn check_contract(contract: &Contract, tokens: &[Token]) {
    for f in contract.functions.iter() {
        assert!(!f.span.0.is_empty() && in_order(&f.span, tokens));
        check_arguments(&f.inputs, tokens);
        check_arguments(&f.outputs, tokens);
    }
    for e in contract.events.iter() {
        assert!(!e.span.0.is_empty() && in_order(&e.span, tokens));
        check_arguments(&e.parameters, tokens);
    }
    for c in contract.constants.iter() {
        assert!(!c.span.0.is_empty() && in_order(&c.span, tokens));
    }
    for m in contract.macros.iter() {
        assert!(!m.span.0.is_empty() && in_order(&m.span, tokens));
        check_arguments(&m.parameters, tokens);
        check_statements(&m.statements, tokens);
    }
    for t in contract.tables.iter() {
        assert!(!t.span.0.is_empty() && in_order(&t.span, tokens));
        check_statements(&t.statements, tokens);
    }
}

#[test]
fn every_node_has_spans_of_the_input_in_order() {
    let tokens = tokens_of(vec![
        TokenKind::Comment("// a file".to_string()),
        TokenKind::Define,
        TokenKind::Whitespace,
        TokenKind::Function,
        ident("f"),
        TokenKind::OpenParen,
        TokenKind::PrimitiveType(huff_parser::PrimitiveEVMType::Address),
        ident("who"),
        TokenKind::Comma,
        TokenKind::PrimitiveType(huff_parser::PrimitiveEVMType::Bool),
        TokenKind::CloseParen,
        TokenKind::Payable,
        TokenKind::Returns,
        TokenKind::OpenParen,
        TokenKind::CloseParen,
        TokenKind::Define,
        TokenKind::Event,
        ident("E"),
        TokenKind::OpenParen,
        TokenKind::PrimitiveType(huff_parser::PrimitiveEVMType::Bytes(4)),
        TokenKind::Indexed,
        ident("sig"),
        TokenKind::CloseParen,
        TokenKind::Define,
        TokenKind::Constant,
        ident("C"),
        TokenKind::Assign,
        TokenKind::FreeStoragePointer,
        TokenKind::Define,
        TokenKind::Macro,
        ident("M"),
        TokenKind::OpenParen,
        ident("a"),
        TokenKind::Comma,
        ident("b"),
        TokenKind::CloseParen,
        TokenKind::Assign,
        TokenKind::Takes,
        TokenKind::OpenParen,
        TokenKind::Num(0),
        TokenKind::CloseParen,
        TokenKind::Returns,
        TokenKind::OpenParen,
        TokenKind::Num(0),
        TokenKind::CloseParen,
        TokenKind::OpenBrace,
        TokenKind::Whitespace,
        TokenKind::OpenBracket,
        ident("C"),
        TokenKind::CloseBracket,
        ident("OTHER"),
        TokenKind::OpenParen,
        TokenKind::LeftAngle,
        ident("a"),
        TokenKind::RightAngle,
        TokenKind::Comma,
        ident("lbl"),
        TokenKind::CloseParen,
        TokenKind::BuiltinFunction("__tablestart".to_string()),
        TokenKind::OpenParen,
        ident("T"),
        TokenKind::CloseParen,
        TokenKind::Label("lbl".to_string()),
        TokenKind::Colon,
        TokenKind::LeftAngle,
        ident("b"),
        TokenKind::RightAngle,
        TokenKind::Opcode(Opcode::Jump),
        ident("lbl"),
        TokenKind::CloseBrace,
        TokenKind::Define,
        TokenKind::CodeTable,
        ident("T"),
        TokenKind::OpenBrace,
        ident("aabb"),
        TokenKind::CloseBrace,
        TokenKind::Eof,
    ]);
    let mut parser = Parser::new(tokens.clone(), None);
    let contract = parser.parse(&Vec::new()).unwrap();
    assert_eq!(contract.functions.len(), 1);
    assert_eq!(contract.events.len(), 1);
    assert_eq!(contract.constants.len(), 1);
    assert_eq!(contract.macros.len(), 1);
    assert_eq!(contract.tables.len(), 1);
    assert_eq!(contract.macros[0].statements.len(), 4);
    check_contract(&contract, &tokens);
    // a definition has the spans of all its tokens, from `#define` on
    assert_eq!(contract.events[0].span.0.len(), 8);
    assert_eq!(contract.events[0].span.0[0], tokens[15].span);
    assert_eq!(contract.events[0].span.0[7], tokens[22].span);
}

#[test]
fn a_comma_alone_makes_an_argument_without_span() {
    let tokens = tokens_of(vec![
        TokenKind::OpenParen,
        TokenKind::Comma,
        ident("a"),
        TokenKind::Comma,
        TokenKind::Comma,
        TokenKind::CloseParen,
        TokenKind::Eof,
    ]);
    let mut parser = Parser::new(tokens.clone(), None);
    let args = parser.parse_args(true, false, false).unwrap();
    assert_eq!(args.len(), 3);
    assert_eq!(args[0].name, None);
    assert!(args[0].span.0.is_empty());
    assert_eq!(args[1].name, Some("a".to_string()));
    assert_eq!(args[1].span, AstSpan(vec![tokens[2].span]));
    assert!(args[2].span.0.is_empty());
    assert_eq!(parser.cursor, 6);
    assert_eq!(parser.spans.len(), 6);
}

#[test]
fn names_without_commas_are_arguments_each() {
    let tokens = tokens_of(vec![
        TokenKind::OpenParen,
        ident("a"),
        ident("b"),
        TokenKind::CloseParen,
        TokenKind::Eof,
    ]);
    let mut parser = Parser::new(tokens, None);
    let args = parser.parse_args(true, false, false).unwrap();
    assert_eq!(args.len(), 2);
    assert_eq!(args[1].name, Some("b".to_string()));
}

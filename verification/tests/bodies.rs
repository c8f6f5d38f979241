use huff_parser::{
    Argument, AstSpan, BuiltinFunctionKind, MacroArg, Parser, Span, Statement, StatementType,
    TableKind, Token, TokenKind,
};
use huff_utils::evm::Opcode;

fn stream(kinds: Vec<TokenKind>) -> Vec<Token> {
    let mut tokens = Vec::new();
    let mut at = 0usize;
    for kind in kinds {
        tokens.push(Token::new(kind, Span::new(at, at + 1, 0)));
        at += 2;
    }
    tokens
}

fn ident(s: &str) -> TokenKind {
    TokenKind::Ident(s.to_string())
}

fn word(last: u8) -> [u8; 32] {
    let mut w = [0u8; 32];
    w[31] = last;
    w
}

fn span(i: usize) -> Span {
    Span::new(2 * i, 2 * i + 1, 0)
}

#[test]
fn macro_with_parameters_and_stack_sizes() {
    let tokens = stream(vec![
        TokenKind::Define,
        TokenKind::Macro,
        ident("SAFE_ADD"),
        TokenKind::OpenParen,
        ident("err"),
        TokenKind::Comma,
        ident("dest"),
        TokenKind::CloseParen,
        TokenKind::Assign,
        TokenKind::Takes,
        TokenKind::OpenParen,
        TokenKind::Num(2),
        TokenKind::CloseParen,
        TokenKind::Returns,
        TokenKind::OpenParen,
        TokenKind::Num(1),
        TokenKind::CloseParen,
        TokenKind::OpenBrace,
        TokenKind::Opcode(Opcode::Add),
        TokenKind::CloseBrace,
        TokenKind::Eof,
    ]);
    let mut parser = Parser::new(tokens, None);
    let contract = parser.parse(&Vec::new()).unwrap();
    let m = &contract.macros[0];
    assert_eq!(m.name, "SAFE_ADD");
    assert_eq!(m.takes, 2);
    assert_eq!(m.gives, 1);
    assert_eq!(
        m.parameters,
        vec![
            Argument {
                arg_type: None,
                name: Some("err".to_string()),
                indexed: false,
                span: AstSpan(vec![span(4)]),
            },
            Argument {
                arg_type: None,
                name: Some("dest".to_string()),
                indexed: false,
                span: AstSpan(vec![span(6)]),
            },
        ]
    );
    assert_eq!(
        m.statements,
        vec![Statement { ty: StatementType::Opcode(Opcode::Add), span: AstSpan(vec![span(18)]) }]
    );
}

#[test]
fn macro_invocation_with_arguments() {
    let tokens = stream(vec![
        TokenKind::OpenBrace,
        ident("CALLEE"),
        TokenKind::OpenParen,
        TokenKind::Literal(word(4)),
        TokenKind::Comma,
        ident("dest"),
        TokenKind::Comma,
        TokenKind::LeftAngle,
        ident("handed"),
        TokenKind::RightAngle,
        TokenKind::CloseParen,
        ident("jumps"),
        TokenKind::CloseBrace,
        TokenKind::Eof,
    ]);
    let mut parser = Parser::new(tokens, None);
    let body = parser.parse_body().unwrap();
    assert_eq!(body.len(), 2);
    match &body[0].ty {
        StatementType::MacroInvocation(inv) => {
            assert_eq!(inv.macro_name, "CALLEE");
            assert_eq!(
                inv.args,
                vec![
                    MacroArg::Literal(word(4)),
                    MacroArg::Ident("dest".to_string()),
                    MacroArg::ArgCall("handed".to_string()),
                ]
            );
            let all: Vec<Span> = (1..=10).map(span).collect();
            assert_eq!(inv.span, AstSpan(all.clone()));
            assert_eq!(body[0].span, AstSpan(all));
        }
        other => panic!("not an invocation: {:?}", other),
    }
    assert_eq!(body[1].ty, StatementType::LabelCall("jumps".to_string()));
    assert_eq!(parser.cursor, 13);
}

#[test]
fn builtin_function_call() {
    let tokens = stream(vec![
        TokenKind::OpenBrace,
        TokenKind::BuiltinFunction("__tablesize".to_string()),
        TokenKind::OpenParen,
        ident("TABLE"),
        TokenKind::CloseParen,
        TokenKind::BuiltinFunction("__codesize".to_string()),
        TokenKind::OpenParen,
        ident("MACRO"),
        TokenKind::CloseParen,
        TokenKind::BuiltinFunction("__tablestart".to_string()),
        TokenKind::OpenParen,
        ident("TABLE"),
        TokenKind::CloseParen,
        TokenKind::CloseBrace,
        TokenKind::Eof,
    ]);
    let mut parser = Parser::new(tokens, None);
    let body = parser.parse_body().unwrap();
    let kinds: Vec<BuiltinFunctionKind> = body
        .iter()
        .map(|s| match &s.ty {
            StatementType::BuiltinFunctionCall(call) => call.kind,
            other => panic!("not a call: {:?}", other),
        })
        .collect();
    assert_eq!(
        kinds,
        vec![
            BuiltinFunctionKind::Tablesize,
            BuiltinFunctionKind::Codesize,
            BuiltinFunctionKind::Tablestart
        ]
    );
    match &body[0].ty {
        StatementType::BuiltinFunctionCall(call) => {
            assert_eq!(call.args.len(), 1);
            assert_eq!(call.args[0].name, Some("TABLE".to_string()));
            assert_eq!(call.span, AstSpan(vec![span(1), span(3)]));
        }
        other => panic!("not a call: {:?}", other),
    }
    assert_eq!(body[0].span, AstSpan(vec![span(1), span(3)]));
}

#[test]
fn two_labels_in_one_body() {
    let tokens = stream(vec![
        TokenKind::OpenBrace,
        TokenKind::Opcode(Opcode::Pop),
        TokenKind::Label("first".to_string()),
        TokenKind::Colon,
        TokenKind::OpenBracket,
        ident("SLOT"),
        TokenKind::CloseBracket,
        TokenKind::Opcode(Opcode::Sload),
        TokenKind::Label("second".to_string()),
        TokenKind::Colon,
        TokenKind::CloseBrace,
        TokenKind::Eof,
    ]);
    let mut parser = Parser::new(tokens, None);
    let body = parser.parse_body().unwrap();
    assert_eq!(body.len(), 3);
    match &body[1].ty {
        StatementType::Label(label) => {
            assert_eq!(label.name, "first");
            assert_eq!(label.inner.len(), 2);
            assert_eq!(label.inner[0].ty, StatementType::Constant("SLOT".to_string()));
            assert_eq!(label.span, AstSpan(vec![span(2), span(5), span(7)]));
        }
        other => panic!("not a label: {:?}", other),
    }
    match &body[2].ty {
        StatementType::Label(label) => {
            assert_eq!(label.name, "second");
            assert!(label.inner.is_empty());
            assert_eq!(label.span, AstSpan(vec![span(8)]));
        }
        other => panic!("not a label: {:?}", other),
    }
}

#[test]
fn label_body_stops_in_front_of_the_brace() {
    let tokens = stream(vec![
        TokenKind::Colon,
        TokenKind::Literal(word(1)),
        TokenKind::CloseBrace,
        TokenKind::Eof,
    ]);
    let mut parser = Parser::new(tokens, None);
    let inner = parser.parse_label().unwrap();
    assert_eq!(inner.len(), 1);
    assert_eq!(parser.cursor, 2);
    assert_eq!(parser.current_token.kind, TokenKind::CloseBrace);
}

#[test]
fn jump_table_with_parentheses_and_assign() {
    let tokens = stream(vec![
        TokenKind::Define,
        TokenKind::JumpTable,
        ident("JUMPS"),
        TokenKind::OpenParen,
        TokenKind::CloseParen,
        TokenKind::Assign,
        TokenKind::OpenBrace,
        ident("a"),
        ident("b"),
        TokenKind::CloseBrace,
        TokenKind::Eof,
    ]);
    let mut parser = Parser::new(tokens, None);
    let contract = parser.parse(&Vec::new()).unwrap();
    let t = &contract.tables[0];
    assert_eq!(t.kind, TableKind::JumpTable);
    assert_eq!(t.name, "JUMPS");
    // 2 * 32 = 64, whose digits are read as hex
    assert_eq!(t.size, word(0x64));
    assert_eq!(t.span.0.len(), 10);
}

#[test]
fn code_table_counts_half_the_characters() {
    let tokens = stream(vec![
        TokenKind::Define,
        TokenKind::CodeTable,
        ident("CODE"),
        TokenKind::OpenBrace,
        ident("deadbeef"),
        ident("c0ffee"),
        TokenKind::CloseBrace,
        TokenKind::Eof,
    ]);
    let mut parser = Parser::new(tokens, None);
    let contract = parser.parse(&Vec::new()).unwrap();
    let t = &contract.tables[0];
    assert_eq!(t.kind, TableKind::CodeTable);
    assert_eq!(t.statements.len(), 2);
    // (8 + 6) / 2 = 7
    assert_eq!(t.size, word(7));
}

#[test]
fn empty_table() {
    let tokens = stream(vec![
        TokenKind::Define,
        TokenKind::JumpTablePacked,
        ident("NONE"),
        TokenKind::OpenBrace,
        TokenKind::CloseBrace,
        TokenKind::Eof,
    ]);
    let mut parser = Parser::new(tokens, None);
    let contract = parser.parse(&Vec::new()).unwrap();
    assert!(contract.tables[0].statements.is_empty());
    assert_eq!(contract.tables[0].size, [0u8; 32]);
}

#[test]
fn large_table_size_has_two_bytes() {
    let mut kinds = vec![TokenKind::OpenBrace];
    for _ in 0..40 {
        kinds.push(ident("l"));
    }
    kinds.push(TokenKind::CloseBrace);
    kinds.push(TokenKind::Eof);
    let mut parser = Parser::new(stream(kinds), None);
    let body = parser.parse_table_body().unwrap();
    let size = huff_parser::sizes::table_size(TableKind::JumpTable, &body);
    assert_eq!(size, 1280);
    let w = huff_parser::sizes::size_word(size);
    let mut expected = [0u8; 32];
    expected[30] = 0x12;
    expected[31] = 0x80;
    assert_eq!(w, expected);
}

#[test]
fn a_copy_of_a_contract_equals_it() {
    let tokens = stream(vec![
        TokenKind::Define,
        TokenKind::Macro,
        ident("M"),
        TokenKind::OpenParen,
        ident("p"),
        TokenKind::CloseParen,
        TokenKind::Assign,
        TokenKind::Takes,
        TokenKind::OpenParen,
        TokenKind::Num(0),
        TokenKind::CloseParen,
        TokenKind::Returns,
        TokenKind::OpenParen,
        TokenKind::Num(0),
        TokenKind::CloseParen,
        TokenKind::OpenBrace,
        ident("CALLEE"),
        TokenKind::OpenParen,
        TokenKind::Literal(word(1)),
        TokenKind::CloseParen,
        TokenKind::BuiltinFunction("__codesize".to_string()),
        TokenKind::OpenParen,
        ident("M"),
        TokenKind::CloseParen,
        TokenKind::Label("l".to_string()),
        TokenKind::Colon,
        TokenKind::LeftAngle,
        ident("p"),
        TokenKind::RightAngle,
        ident("l"),
        TokenKind::Opcode(Opcode::Jump),
        TokenKind::CloseBrace,
        TokenKind::Define,
        TokenKind::JumpTable,
        ident("T"),
        TokenKind::OpenBrace,
        ident("l"),
        TokenKind::CloseBrace,
        TokenKind::Eof,
    ]);
    let mut parser = Parser::new(tokens, None);
    let again = parser.clone();
    let contract = parser.parse(&Vec::new()).unwrap();
    let copy = contract.clone();
    assert_eq!(copy, contract);
    assert_eq!(copy.macros[0].statements.len(), 3);
    assert_eq!(copy.macros[0].statements[2].clone(), contract.macros[0].statements[2]);
    assert_eq!(again.cursor, 0);
    assert_eq!(again.tokens.len(), 39);
}

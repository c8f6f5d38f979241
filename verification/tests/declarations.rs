use huff_parser::{
    Argument, AstSpan, ConstVal, FreeStoragePointer, FunctionType, Parser, ParserErrorKind,
    PrimitiveEVMType, Span, StatementType, TableKind, Token, TokenKind,
};
use huff_utils::evm::Opcode;

fn stream(kinds: Vec<TokenKind>) -> Vec<Token> {
    let mut tokens = Vec::new();
    let mut at = 0usize;
    for kind in kinds {
        tokens.push(Token::new(kind, Span::new(at, at + 1, 0)));
        at += 2;
    }
    tokens
}

fn ident(s: &str) -> TokenKind {
    TokenKind::Ident(s.to_string())
}

fn uint(n: usize) -> TokenKind {
    TokenKind::PrimitiveType(PrimitiveEVMType::Uint(n))
}

fn word(last: u8) -> [u8; 32] {
    let mut w = [0u8; 32];
    w[31] = last;
    w
}

fn no_files() -> Vec<String> {
    Vec::new()
}

#[test]
fn minimal_function() {
    let tokens = stream(vec![
        TokenKind::Define,
        TokenKind::Whitespace,
        TokenKind::Function,
        TokenKind::Whitespace,
        ident("test"),
        TokenKind::OpenParen,
        uint(256),
        TokenKind::CloseParen,
        TokenKind::Whitespace,
        TokenKind::View,
        TokenKind::Whitespace,
        TokenKind::Returns,
        TokenKind::OpenParen,
        uint(256),
        TokenKind::CloseParen,
        TokenKind::Eof,
    ]);
    let mut parser = Parser::new(tokens, None);
    let contract = parser.parse(&no_files()).unwrap();
    assert_eq!(contract.functions.len(), 1);
    assert!(contract.events.is_empty());
    assert!(contract.macros.is_empty());
    let f = &contract.functions[0];
    assert_eq!(f.name, "test");
    // the first four bytes of keccak256("test(uint256)")
    assert_eq!(f.signature, [0x29, 0xe9, 0x9f, 0x07]);
    assert_eq!(f.fn_type, FunctionType::View);
    assert_eq!(f.inputs.len(), 1);
    assert_eq!(f.inputs[0].arg_type, Some("uint256".to_string()));
    assert_eq!(f.inputs[0].name, None);
    assert!(!f.inputs[0].indexed);
    assert_eq!(f.outputs.len(), 1);
    assert_eq!(f.outputs[0].arg_type, Some("uint256".to_string()));
    // every token but the blank ones, from `#define` on
    assert_eq!(f.span.0.len(), 11);
    assert_eq!(f.span.0[0], Span::new(0, 1, 0));
}

#[test]
fn function_with_names_and_several_inputs() {
    let tokens = stream(vec![
        TokenKind::Define,
        TokenKind::Function,
        ident("transfer"),
        TokenKind::OpenParen,
        TokenKind::PrimitiveType(PrimitiveEVMType::Address),
        ident("to"),
        TokenKind::Comma,
        uint(256),
        ident("amount"),
        TokenKind::CloseParen,
        TokenKind::NonPayable,
        TokenKind::Returns,
        TokenKind::OpenParen,
        TokenKind::PrimitiveType(PrimitiveEVMType::Bool),
        TokenKind::CloseParen,
        TokenKind::Eof,
    ]);
    let mut parser = Parser::new(tokens, None);
    let contract = parser.parse(&no_files()).unwrap();
    let f = &contract.functions[0];
    // keccak256("transfer(address,uint256)") starts with a9059cbb
    assert_eq!(f.signature, [0xa9, 0x05, 0x9c, 0xbb]);
    assert_eq!(f.fn_type, FunctionType::NonPayable);
    assert_eq!(f.inputs[0].name, Some("to".to_string()));
    assert_eq!(f.inputs[1].arg_type, Some("uint256".to_string()));
    assert_eq!(f.inputs[1].name, Some("amount".to_string()));
    assert_eq!(f.outputs[0].arg_type, Some("bool".to_string()));
}

#[test]
fn function_without_inputs_hashes_empty_parentheses() {
    let tokens = stream(vec![
        TokenKind::Define,
        TokenKind::Function,
        ident("totalSupply"),
        TokenKind::OpenParen,
        TokenKind::CloseParen,
        TokenKind::View,
        TokenKind::Returns,
        TokenKind::OpenParen,
        uint(256),
        TokenKind::CloseParen,
        TokenKind::Eof,
    ]);
    let mut parser = Parser::new(tokens, None);
    let contract = parser.parse(&no_files()).unwrap();
    // keccak256("totalSupply()") starts with 18160ddd
    assert_eq!(contract.functions[0].signature, [0x18, 0x16, 0x0d, 0xdd]);
    assert!(contract.functions[0].inputs.is_empty());
}

#[test]
fn function_with_array_input() {
    let tokens = stream(vec![
        TokenKind::Define,
        TokenKind::Function,
        ident("f"),
        TokenKind::OpenParen,
        TokenKind::ArrayType(PrimitiveEVMType::Uint(256), vec![0, 3]),
        TokenKind::CloseParen,
        TokenKind::Pure,
        TokenKind::Returns,
        TokenKind::OpenParen,
        TokenKind::CloseParen,
        TokenKind::Eof,
    ]);
    let mut parser = Parser::new(tokens, None);
    let contract = parser.parse(&no_files()).unwrap();
    assert_eq!(contract.functions[0].inputs[0].arg_type, Some("uint256[][3]".to_string()));
    assert_eq!(contract.functions[0].fn_type, FunctionType::Pure);
}

#[test]
fn rejected_uint() {
    let tokens = stream(vec![
        TokenKind::Define,
        TokenKind::Function,
        ident("f"),
        TokenKind::OpenParen,
        uint(7),
        TokenKind::CloseParen,
        TokenKind::Eof,
    ]);
    let mut parser = Parser::new(tokens, None);
    let err = parser.parse(&no_files()).unwrap_err();
    assert_eq!(err.kind, ParserErrorKind::InvalidUint256(7));
    assert_eq!(err.spans, AstSpan(vec![Span::new(8, 9, 0)]));
}

#[test]
fn function_without_name() {
    let tokens = stream(vec![
        TokenKind::Define,
        TokenKind::Function,
        TokenKind::OpenParen,
        TokenKind::Eof,
    ]);
    let mut parser = Parser::new(tokens, None);
    let err = parser.parse(&no_files()).unwrap_err();
    assert_eq!(err.kind, ParserErrorKind::InvalidName(TokenKind::OpenParen));
    assert_eq!(err.spans.0.len(), 2);
}

#[test]
fn function_without_mutability() {
    let tokens = stream(vec![
        TokenKind::Define,
        TokenKind::Function,
        ident("f"),
        TokenKind::OpenParen,
        TokenKind::CloseParen,
        TokenKind::Returns,
        TokenKind::Eof,
    ]);
    let mut parser = Parser::new(tokens, None);
    let err = parser.parse(&no_files()).unwrap_err();
    assert_eq!(err.kind, ParserErrorKind::UnexpectedType(TokenKind::Returns));
}

#[test]
fn event_with_indexed_parameter() {
    let tokens = stream(vec![
        TokenKind::Define,
        TokenKind::Event,
        ident("Transfer"),
        TokenKind::OpenParen,
        TokenKind::PrimitiveType(PrimitiveEVMType::Address),
        TokenKind::Indexed,
        ident("from"),
        TokenKind::Comma,
        uint(256),
        TokenKind::CloseParen,
        TokenKind::Eof,
    ]);
    let mut parser = Parser::new(tokens, None);
    let contract = parser.parse(&no_files()).unwrap();
    assert_eq!(contract.events.len(), 1);
    let e = &contract.events[0];
    assert_eq!(e.name, "Transfer");
    assert_eq!(
        e.parameters[0],
        Argument {
            arg_type: Some("address".to_string()),
            name: Some("from".to_string()),
            indexed: true,
            span: AstSpan(vec![Span::new(8, 9, 0), Span::new(10, 11, 0), Span::new(12, 13, 0)]),
        }
    );
    assert!(!e.parameters[1].indexed);
    assert_eq!(e.parameters[1].name, None);
}

#[test]
fn indexed_is_no_part_of_a_function_input() {
    let tokens = stream(vec![
        TokenKind::Define,
        TokenKind::Function,
        ident("f"),
        TokenKind::OpenParen,
        uint(8),
        TokenKind::Indexed,
        TokenKind::CloseParen,
        TokenKind::Eof,
    ]);
    let mut parser = Parser::new(tokens, None);
    let err = parser.parse(&no_files()).unwrap_err();
    assert_eq!(err.kind, ParserErrorKind::InvalidArgs(TokenKind::Indexed));
}

#[test]
fn constant_pointer() {
    let tokens = stream(vec![
        TokenKind::Define,
        TokenKind::Constant,
        ident("SLOT"),
        TokenKind::Assign,
        TokenKind::FreeStoragePointer,
        TokenKind::Eof,
    ]);
    let mut parser = Parser::new(tokens, None);
    let contract = parser.parse(&no_files()).unwrap();
    assert_eq!(contract.constants.len(), 1);
    assert_eq!(contract.constants[0].name, "SLOT");
    assert_eq!(contract.constants[0].value, ConstVal::FreeStoragePointer(FreeStoragePointer));
    assert_eq!(contract.constants[0].span.0.len(), 5);
    assert!(parser.spans.is_empty());
}

#[test]
fn constant_literal() {
    let tokens = stream(vec![
        TokenKind::Define,
        TokenKind::Constant,
        ident("ONE"),
        TokenKind::Assign,
        TokenKind::Literal(word(1)),
        TokenKind::Eof,
    ]);
    let mut parser = Parser::new(tokens, None);
    let contract = parser.parse(&no_files()).unwrap();
    assert_eq!(contract.constants[0].value, ConstVal::Literal(word(1)));
}

#[test]
fn constant_with_wrong_value() {
    let tokens = stream(vec![
        TokenKind::Define,
        TokenKind::Constant,
        ident("ONE"),
        TokenKind::Assign,
        ident("two"),
        TokenKind::Eof,
    ]);
    let mut parser = Parser::new(tokens, None);
    let err = parser.parse(&no_files()).unwrap_err();
    assert_eq!(err.kind, ParserErrorKind::InvalidConstantValue(ident("two")));
    assert_eq!(err.spans.0.len(), 4);
    assert!(parser.spans.is_empty());
}

#[test]
fn macro_body_dispatch() {
    let tokens = stream(vec![
        TokenKind::Define,
        TokenKind::Macro,
        ident("M"),
        TokenKind::OpenParen,
        TokenKind::CloseParen,
        TokenKind::Assign,
        TokenKind::Takes,
        TokenKind::OpenParen,
        TokenKind::Num(0),
        TokenKind::CloseParen,
        TokenKind::Returns,
        TokenKind::OpenParen,
        TokenKind::Num(0),
        TokenKind::CloseParen,
        TokenKind::OpenBrace,
        TokenKind::Literal(word(0x20)),
        TokenKind::Opcode(Opcode::Mstore),
        TokenKind::OpenBracket,
        ident("X"),
        TokenKind::CloseBracket,
        TokenKind::LeftAngle,
        ident("y"),
        TokenKind::RightAngle,
        ident("BAR"),
        TokenKind::OpenParen,
        TokenKind::CloseParen,
        TokenKind::Label("err".to_string()),
        TokenKind::Colon,
        TokenKind::Literal(word(0)),
        TokenKind::Literal(word(0)),
        TokenKind::Opcode(Opcode::Return),
        TokenKind::CloseBrace,
        TokenKind::Eof,
    ]);
    let mut parser = Parser::new(tokens, None);
    let contract = parser.parse(&no_files()).unwrap();
    assert_eq!(contract.macros.len(), 1);
    let m = &contract.macros[0];
    assert_eq!(m.name, "M");
    assert!(m.parameters.is_empty());
    assert_eq!(m.takes, 0);
    assert_eq!(m.gives, 0);
    assert_eq!(m.statements.len(), 6);
    assert_eq!(m.statements[0].ty, StatementType::Literal(word(0x20)));
    assert_eq!(m.statements[1].ty, StatementType::Opcode(Opcode::Mstore));
    assert_eq!(m.statements[2].ty, StatementType::Constant("X".to_string()));
    assert_eq!(m.statements[2].span, AstSpan(vec![Span::new(36, 37, 0)]));
    assert_eq!(m.statements[3].ty, StatementType::ArgCall("y".to_string()));
    match &m.statements[4].ty {
        StatementType::MacroInvocation(inv) => {
            assert_eq!(inv.macro_name, "BAR");
            assert!(inv.args.is_empty());
            assert_eq!(
                inv.span,
                AstSpan(vec![Span::new(46, 47, 0), Span::new(48, 49, 0), Span::new(50, 51, 0)])
            );
        }
        other => panic!("not an invocation: {:?}", other),
    }
    assert_eq!(m.statements[4].span.0.len(), 3);
    match &m.statements[5].ty {
        StatementType::Label(label) => {
            assert_eq!(label.name, "err");
            assert_eq!(label.inner.len(), 3);
            assert_eq!(label.inner[0].ty, StatementType::Literal(word(0)));
            assert_eq!(label.inner[1].ty, StatementType::Literal(word(0)));
            assert_eq!(label.inner[2].ty, StatementType::Opcode(Opcode::Return));
            // the label itself and its three statements
            assert_eq!(label.span.0.len(), 4);
            assert_eq!(label.span.0[0], Span::new(52, 53, 0));
        }
        other => panic!("not a label: {:?}", other),
    }
    // every token from `#define` to the closing brace
    assert_eq!(m.span.0.len(), 32);
}

#[test]
fn jump_table_size() {
    let tokens = stream(vec![
        TokenKind::Define,
        TokenKind::JumpTablePacked,
        ident("T"),
        TokenKind::OpenBrace,
        ident("a"),
        ident("b"),
        ident("c"),
        TokenKind::CloseBrace,
        TokenKind::Eof,
    ]);
    let mut parser = Parser::new(tokens, None);
    let contract = parser.parse(&no_files()).unwrap();
    assert_eq!(contract.tables.len(), 1);
    let t = &contract.tables[0];
    assert_eq!(t.name, "T");
    assert_eq!(t.kind, TableKind::JumpTablePacked);
    assert_eq!(t.statements.len(), 3);
    assert_eq!(t.statements[1].ty, StatementType::LabelCall("b".to_string()));
    assert_eq!(t.size, word(6));
}

#[test]
fn order_of_the_source_is_kept() {
    let mut kinds = Vec::new();
    for name in ["A", "B", "C"] {
        kinds.extend(vec![
            TokenKind::Define,
            TokenKind::Constant,
            ident(name),
            TokenKind::Assign,
            TokenKind::FreeStoragePointer,
        ]);
        kinds.extend(vec![
            TokenKind::Define,
            TokenKind::Event,
            ident(&name.to_lowercase()),
            TokenKind::OpenParen,
            TokenKind::CloseParen,
        ]);
    }
    kinds.push(TokenKind::Eof);
    let mut parser = Parser::new(stream(kinds), None);
    let contract = parser.parse(&no_files()).unwrap();
    let constants: Vec<&str> = contract.constants.iter().map(|c| c.name.as_str()).collect();
    let events: Vec<&str> = contract.events.iter().map(|e| e.name.as_str()).collect();
    assert_eq!(constants, vec!["A", "B", "C"]);
    assert_eq!(events, vec!["a", "b", "c"]);
}

#[test]
fn blank_space_and_comments_do_not_matter() {
    let plain = vec![
        TokenKind::Define,
        TokenKind::Constant,
        ident("A"),
        TokenKind::Assign,
        TokenKind::Literal(word(9)),
        TokenKind::Eof,
    ];
    let mut with_trivia = Vec::new();
    for kind in plain.iter() {
        with_trivia.push(Token::new(TokenKind::Whitespace, Span::new(900, 901, 0)));
        with_trivia.push(Token::new(kind.clone(), Span::new(0, 0, 0)));
        with_trivia.push(Token::new(TokenKind::Comment("//".to_string()), Span::new(7, 9, 0)));
    }
    let bare: Vec<Token> =
        plain.into_iter().map(|kind| Token::new(kind, Span::new(0, 0, 0))).collect();
    let mut first = Parser::new(bare, None);
    let mut second = Parser::new(with_trivia, None);
    assert_eq!(first.parse(&no_files()).unwrap(), second.parse(&no_files()).unwrap());
    assert_eq!(second.tokens.len(), 6);
}

#[test]
fn something_else_behind_define() {
    let tokens = stream(vec![TokenKind::Define, ident("what"), TokenKind::Eof]);
    let mut parser = Parser::new(tokens, None);
    let err = parser.parse(&no_files()).unwrap_err();
    assert_eq!(err.kind, ParserErrorKind::InvalidDefinition);
    assert_eq!(err.spans, AstSpan(vec![Span::new(0, 1, 0)]));
}

#[test]
fn definition_without_define() {
    let tokens = stream(vec![
        TokenKind::Define,
        TokenKind::Constant,
        ident("A"),
        TokenKind::Assign,
        TokenKind::FreeStoragePointer,
        TokenKind::Constant,
        TokenKind::Eof,
    ]);
    let mut parser = Parser::new(tokens, None);
    let err = parser.parse(&no_files()).unwrap_err();
    assert_eq!(err.kind, ParserErrorKind::UnexpectedType(TokenKind::Define));
}

#[test]
fn empty_file() {
    let mut parser = Parser::new(stream(vec![TokenKind::Eof]), None);
    let contract = parser.parse(&no_files()).unwrap();
    assert!(contract.imports.is_empty());
    assert!(contract.functions.is_empty());
    assert!(contract.events.is_empty());
    assert!(contract.constants.is_empty());
    assert!(contract.macros.is_empty());
    assert!(contract.tables.is_empty());
    assert_eq!(contract, huff_parser::Contract::default());
}

use huff_parser::paths::{accept_import, ends_with, replace_first_in, resolve_import, rewrite};
use huff_parser::{FilePath, Parser, ParserErrorKind, Span, Token, TokenKind};

fn stream(kinds: Vec<TokenKind>) -> Vec<Token> {
    let mut tokens = Vec::new();
    let mut at = 0usize;
    for kind in kinds {
        tokens.push(Token::new(kind, Span::new(at, at + 1, 0)));
        at += 2;
    }
    tokens
}

fn import_of(path: &str) -> Vec<TokenKind> {
    vec![TokenKind::Include, TokenKind::Whitespace, TokenKind::Str(path.to_string())]
}

#[test]
fn import_path_rewrite() {
    let mut kinds = import_of("contracts/contracts/foo.huff");
    kinds.push(TokenKind::Eof);
    let files = vec!["/repo/contracts/foo.huff".to_string()];
    let mut parser = Parser::new(stream(kinds.clone()), Some("/repo/main.huff".to_string()));
    assert_eq!(parser.import_targets(), files);
    let contract = parser.parse(&files).unwrap();
    assert_eq!(contract.imports, vec![FilePath("/repo/contracts/foo.huff".to_string())]);

    let mut parser = Parser::new(stream(kinds), Some("/repo/main.huff".to_string()));
    let err = parser.parse(&Vec::new()).unwrap_err();
    assert_eq!(
        err.kind,
        ParserErrorKind::InvalidImportPath("/repo/contracts/foo.huff".to_string())
    );
    assert_eq!(err.spans.0.len(), 2);
    assert!(parser.spans.is_empty());
}

#[test]
fn import_without_base_is_taken_as_written() {
    let mut kinds = import_of("lib/a.huff");
    kinds.extend(import_of("lib/b.huff"));
    kinds.extend(vec![
        TokenKind::Define,
        TokenKind::Constant,
        TokenKind::Ident("A".to_string()),
        TokenKind::Assign,
        TokenKind::FreeStoragePointer,
        TokenKind::Eof,
    ]);
    let files = vec!["lib/b.huff".to_string(), "other".to_string(), "lib/a.huff".to_string()];
    let mut parser = Parser::new(stream(kinds), None);
    assert_eq!(parser.import_targets(), vec!["lib/a.huff".to_string(), "lib/b.huff".to_string()]);
    let contract = parser.parse(&files).unwrap();
    assert_eq!(
        contract.imports,
        vec![FilePath("lib/a.huff".to_string()), FilePath("lib/b.huff".to_string())]
    );
    assert_eq!(contract.constants.len(), 1);
}

#[test]
fn import_must_end_in_huff() {
    let mut kinds = import_of("lib/a.sol");
    kinds.push(TokenKind::Eof);
    let files = vec!["lib/a.sol".to_string()];
    let mut parser = Parser::new(stream(kinds), None);
    let err = parser.parse(&files).unwrap_err();
    assert_eq!(err.kind, ParserErrorKind::InvalidImportPath("lib/a.sol".to_string()));
}

#[test]
fn import_without_path() {
    let kinds = vec![TokenKind::Include, TokenKind::Define, TokenKind::Eof];
    let mut parser = Parser::new(stream(kinds), None);
    assert!(parser.import_targets().is_empty());
    let err = parser.parse(&Vec::new()).unwrap_err();
    assert_eq!(err.kind, ParserErrorKind::UnexpectedType(TokenKind::Str("x".to_string())));
}

#[test]
fn something_else_in_front_of_the_definitions() {
    let kinds = vec![TokenKind::Function, TokenKind::Eof];
    let mut parser = Parser::new(stream(kinds), None);
    let err = parser.parse(&Vec::new()).unwrap_err();
    assert_eq!(err.kind, ParserErrorKind::UnexpectedType(TokenKind::Include));
}

#[test]
fn resolving_against_the_importing_file() {
    let base = Some("src/main.huff".to_string());
    assert_eq!(resolve_import(&base, "./utils/a.huff"), "src/utils/a.huff");
    assert_eq!(
        resolve_import(&Some("a/b/main.huff".to_string()), "../lib/x.huff"),
        "a/lib/x.huff"
    );
    assert_eq!(resolve_import(&base, "/abs/a.huff"), "/abs/a.huff");
    assert_eq!(resolve_import(&base, "a.huff"), "src/a.huff");
    assert_eq!(resolve_import(&None, "../a.huff"), "../a.huff");
    // a base without a directory stands for the current one
    assert_eq!(resolve_import(&Some("main.huff".to_string()), "a.huff"), "./a.huff");
    // a base that is a directory is taken as a file in its parent
    assert_eq!(
        resolve_import(&Some("/repo".to_string()), "contracts/contracts/foo.huff"),
        "//contracts/foo.huff"
    );
}

#[test]
fn only_the_first_doubled_prefix_is_shortened() {
    assert_eq!(
        rewrite(Some("a/contracts/contracts/contracts/contracts/b".to_string())),
        "a/contracts/contracts/contracts/b"
    );
    assert_eq!(rewrite(Some("contracts/x/contracts".to_string())), "contracts/x/contracts");
    assert_eq!(rewrite(None), "");
}

#[test]
fn replace_first_agrees_with_the_standard_library() {
    let cases = [
        ("", "a", "b"),
        ("aaa", "a", "b"),
        ("aaa", "aa", "b"),
        ("abcabc", "bc", ""),
        ("abcabc", "abcabc", "x"),
        ("abc", "abcd", "x"),
        ("abc", "", "x"),
        ("häuser/häuser", "äu", "au"),
        ("xyz", "z", "zz"),
    ];
    for (text, pattern, replacement) in cases {
        assert_eq!(
            replace_first_in(text, pattern, replacement),
            text.replacen(pattern, replacement, 1)
        );
    }
}

#[test]
fn suffix_and_acceptance() {
    assert!(ends_with("a.huff", ".huff"));
    assert!(ends_with(".huff", ".huff"));
    assert!(!ends_with("huff", ".huff"));
    assert!(!ends_with("a.huff ", ".huff"));
    assert!(ends_with("anything", ""));
    let files = vec!["a.huff".to_string(), "b.txt".to_string()];
    assert!(accept_import("a.huff", &files));
    assert!(!accept_import("b.txt", &files));
    assert!(!accept_import("c.huff", &files));
}

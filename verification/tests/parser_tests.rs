use mmc::lexer::{Lexer, Token, TokenData, TokenKind};
use mmc::parser::Parser;

fn tok(kind: TokenKind) -> Token {
    Token {
        kind,
        data: TokenData { raw: String::new() },
    }
}

fn lex(source: &str) -> Vec<Token> {
    let mut lexer = Lexer::from(source);
    let mut tokens = Vec::new();
    while let Some(token) = lexer.next() {
        tokens.push(token);
    }
    tokens
}

#[test]
fn check_if_basic_print_parses() {
    let tokens = vec![
        tok(TokenKind::Print),
        tok(TokenKind::LiteralString),
        tok(TokenKind::SemiColon),
    ];
    let parser = Parser::new(&tokens);
    let res = parser.parse();
    assert!(res.is_ok(), "Test failed with error: {:?}", res);
}

#[test]
fn check_if_basic_multiline_parses() {
    let tokens = vec![
        tok(TokenKind::Print),
        tok(TokenKind::LiteralString),
        tok(TokenKind::SemiColon),
        tok(TokenKind::Whitespace),
        tok(TokenKind::Print),
        tok(TokenKind::LiteralString),
        tok(TokenKind::SemiColon),
    ];
    let parser = Parser::new(&tokens);
    let res = parser.parse();
    assert!(res.is_ok(), "Test failed with error: {:?}", res);
}

#[test]
fn check_if_handles_white_space() {
    let tokens = vec![
        tok(TokenKind::Print),
        tok(TokenKind::Whitespace),
        tok(TokenKind::LiteralString),
        tok(TokenKind::SemiColon),
    ];
    let parser = Parser::new(&tokens);
    let res = parser.parse();
    assert!(res.is_ok(), "Test failed with error: {:?}", res);
}

#[test]
fn check_if_handles_basic_if() {
    let tokens = vec![
        tok(TokenKind::If),
        tok(TokenKind::Whitespace),
        tok(TokenKind::LiteralNumber(3)),
        tok(TokenKind::GreaterThan),
        tok(TokenKind::LiteralNumber(4)),
        tok(TokenKind::Whitespace),
        tok(TokenKind::OpenCurly),
        tok(TokenKind::Whitespace),
        tok(TokenKind::Print),
        tok(TokenKind::Whitespace),
        tok(TokenKind::LiteralString),
        tok(TokenKind::SemiColon),
        tok(TokenKind::Whitespace),
        tok(TokenKind::CloseCurly),
        tok(TokenKind::Whitespace),
    ];
    let parser = Parser::new(&tokens);
    let res = parser.parse();
    assert!(res.is_ok(), "Test failed with error: {:?}", res);
}

#[test]
fn check_if_handles_basic_while() {
    let tokens = vec![
        tok(TokenKind::While),
        tok(TokenKind::Whitespace),
        tok(TokenKind::LiteralNumber(3)),
        tok(TokenKind::GreaterThan),
        tok(TokenKind::LiteralNumber(4)),
        tok(TokenKind::Whitespace),
        tok(TokenKind::OpenCurly),
        tok(TokenKind::Whitespace),
        tok(TokenKind::Print),
        tok(TokenKind::Whitespace),
        tok(TokenKind::LiteralString),
        tok(TokenKind::SemiColon),
        tok(TokenKind::Whitespace),
        tok(TokenKind::CloseCurly),
        tok(TokenKind::Whitespace),
    ];
    let parser = Parser::new(&tokens);
    let res = parser.parse();
    assert!(res.is_ok(), "Test failed with error: {:?}", res);
}

#[test]
fn check_if_handles_basic_let() {
    let tokens = vec![
        tok(TokenKind::Let),
        tok(TokenKind::Whitespace),
        tok(TokenKind::Identifier),
        tok(TokenKind::Whitespace),
        tok(TokenKind::Equals),
        tok(TokenKind::Whitespace),
        tok(TokenKind::LiteralNumber(666)),
        tok(TokenKind::Whitespace),
        tok(TokenKind::SemiColon),
    ];
    let parser = Parser::new(&tokens);
    let res = parser.parse();
    assert!(res.is_ok(), "Test failed with error: {:?}", res);
}

#[test]
fn check_if_handles_basic_input() {
    let tokens = vec![
        tok(TokenKind::Input),
        tok(TokenKind::Whitespace),
        tok(TokenKind::Identifier),
        tok(TokenKind::Whitespace),
        tok(TokenKind::SemiColon),
    ];
    let parser = Parser::new(&tokens);
    let res = parser.parse();
    assert!(res.is_ok(), "Test failed with error: {:?}", res);
}

#[test]
fn check_if_handles_basic_assignment() {
    let tokens = vec![
        tok(TokenKind::Let),
        tok(TokenKind::Whitespace),
        tok(TokenKind::Identifier),
        tok(TokenKind::Whitespace),
        tok(TokenKind::Equals),
        tok(TokenKind::Whitespace),
        tok(TokenKind::LiteralNumber(666)),
        tok(TokenKind::Whitespace),
        tok(TokenKind::SemiColon),
        tok(TokenKind::Identifier),
        tok(TokenKind::Whitespace),
        tok(TokenKind::Equals),
        tok(TokenKind::Whitespace),
        tok(TokenKind::LiteralNumber(664)),
        tok(TokenKind::SemiColon),
    ];
    let parser = Parser::new(&tokens);
    let res = parser.parse();
    assert!(res.is_ok(), "Test failed with error: {:?}", res);
}

#[test]
fn redeclaring_an_identifier_fails() {
    let tokens = lex("let x = 1; let x = 2;");
    let res = Parser::new(&tokens).parse();
    let err = res.err().expect("redeclaration must fail");
    assert_eq!(
        err.reason,
        Some(String::from("Identifier x is already declared"))
    );
    assert_eq!(err.expected, None);
}

#[test]
fn redeclaring_via_input_fails() {
    let tokens = lex("input x; input x;");
    let res = Parser::new(&tokens).parse();
    let err = res.err().expect("redeclaration must fail");
    assert_eq!(
        err.reason,
        Some(String::from("Identifier x is already declared"))
    );
}

#[test]
fn assigning_an_undeclared_identifier_fails() {
    let tokens = lex("y = 1;");
    let res = Parser::new(&tokens).parse();
    let err = res.err().expect("undeclared assignment must fail");
    assert_eq!(
        err.reason,
        Some(String::from("Identifier y is never declared"))
    );
    assert_eq!(err.expected, None);
}

#[test]
fn referencing_an_undeclared_identifier_fails() {
    let tokens = lex("let x = y;");
    let res = Parser::new(&tokens).parse();
    let err = res.err().expect("undeclared reference must fail");
    assert_eq!(
        err.reason,
        Some(String::from("Identifier y is never declared"))
    );
}

#[test]
fn missing_equals_reports_the_expected_kind() {
    let tokens = lex("let x 1;");
    let res = Parser::new(&tokens).parse();
    let err = res.err().expect("missing equals must fail");
    assert_eq!(err.expected, Some(TokenKind::Equals));
    assert_eq!(err.reason, Some(String::from("Expected Equals")));
}

#[test]
fn missing_close_brace_fails() {
    let tokens = lex("if 1 < 2 { print \"x\";");
    let res = Parser::new(&tokens).parse();
    assert!(res.is_err());
}

#[test]
fn chained_comparison_is_rejected() {
    let tokens = lex("if 1 < 2 < 3 { print \"x\"; }");
    let res = Parser::new(&tokens).parse();
    let err = res.err().expect("chained comparison must fail");
    assert_eq!(err.expected, Some(TokenKind::OpenCurly));
}

#[test]
fn statement_starting_with_a_brace_is_unknown() {
    let tokens = lex("} ");
    let res = Parser::new(&tokens).parse();
    let err = res.err().expect("unknown statement must fail");
    assert_eq!(err.reason, Some(String::from("Unknown statement")));
}

#[test]
fn bare_number_needs_identifier_or_statement() {
    let tokens = lex("print ;");
    let res = Parser::new(&tokens).parse();
    let err = res.err().expect("empty print expression must fail");
    assert_eq!(
        err.reason,
        Some(String::from("Expected Identifier or literal nr"))
    );
    assert_eq!(err.expected, Some(TokenKind::Identifier));
}

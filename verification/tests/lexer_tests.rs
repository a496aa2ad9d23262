use mmc::lexer::{tokenize, Lexer, TokenKind};

#[test]
fn test_basic_tokenizing() {
    let mut lexer = Lexer::from("+-*/=={}<>;!=<==>=! \n\r\t");
    assert_eq!(lexer.next_token().unwrap().kind, TokenKind::Plus);
    assert_eq!(lexer.next_token().unwrap().kind, TokenKind::Minus);
    assert_eq!(lexer.next_token().unwrap().kind, TokenKind::Asterisk);
    assert_eq!(lexer.next_token().unwrap().kind, TokenKind::Slash);
    assert_eq!(lexer.next_token().unwrap().kind, TokenKind::EqualsEquals);
    assert_eq!(lexer.next_token().unwrap().kind, TokenKind::OpenCurly);
    assert_eq!(lexer.next_token().unwrap().kind, TokenKind::CloseCurly);
    assert_eq!(lexer.next_token().unwrap().kind, TokenKind::LessThan);
    assert_eq!(lexer.next_token().unwrap().kind, TokenKind::GreaterThan);
    assert_eq!(lexer.next_token().unwrap().kind, TokenKind::SemiColon);
    assert_eq!(lexer.next_token().unwrap().kind, TokenKind::NotEquals);
    assert_eq!(lexer.next_token().unwrap().kind, TokenKind::LessThanEquals);
    assert_eq!(lexer.next_token().unwrap().kind, TokenKind::Equals);
    assert_eq!(
        lexer.next_token().unwrap().kind,
        TokenKind::GreaterThanEquals
    );
    assert_eq!(lexer.next_token().unwrap().kind, TokenKind::Invalid);
    assert_eq!(lexer.next_token().unwrap().kind, TokenKind::Whitespace);
    assert_eq!(lexer.next_token().unwrap().kind, TokenKind::Whitespace);
    assert_eq!(lexer.next_token().unwrap().kind, TokenKind::Whitespace);
    assert_eq!(lexer.next_token().unwrap().kind, TokenKind::Whitespace);
    assert_eq!(lexer.next_token().unwrap().kind, TokenKind::Eof);
}

#[test]
fn test_basic_string() {
    let mut lexer = Lexer::from("\"Hello World\"");
    let token = lexer.next_token().unwrap();
    assert_eq!(token.kind, TokenKind::LiteralString);
    assert_eq!(token.data.raw, "\"Hello World\"");
    assert_eq!(lexer.next_token().unwrap().kind, TokenKind::Eof);
}

#[test]
fn test_multiline_string_not_allowed() {
    let mut lexer = Lexer::from("\"Hell\nWorld\"");
    let token = lexer.next_token().unwrap();
    assert_eq!(token.kind, TokenKind::Invalid);
    assert_eq!(token.data.raw, "\"Hell\n");
}

#[test]
fn test_unclose_string_not_allowed() {
    let mut lexer = Lexer::from("\"Hello World");
    let token = lexer.next_token().unwrap();
    assert_eq!(token.kind, TokenKind::Invalid);
    assert_eq!(token.data.raw, "\"Hello World");
}

#[test]
fn test_basic_nr() {
    let mut lexer = Lexer::from("1");
    assert_eq!(
        lexer.next_token().unwrap().kind,
        TokenKind::LiteralNumber(1)
    );
}

#[test]
fn test_big_nr() {
    let mut lexer = Lexer::from("987654321");
    assert_eq!(
        lexer.next_token().unwrap().kind,
        TokenKind::LiteralNumber(987654321)
    );
}

#[test]
fn test_two_nr() {
    let mut lexer = Lexer::from("9876 4321");
    assert_eq!(
        lexer.next_token().unwrap().kind,
        TokenKind::LiteralNumber(9876)
    );
    assert_eq!(lexer.next_token().unwrap().kind, TokenKind::Whitespace);
    assert_eq!(
        lexer.next_token().unwrap().kind,
        TokenKind::LiteralNumber(4321)
    );
}

#[test]
fn test_keywords() {
    let mut lexer = Lexer::from("let if else while while= whileif hello\nprint;input");
    assert_eq!(lexer.next_token().unwrap().kind, TokenKind::Let);
    assert_eq!(lexer.next_token().unwrap().kind, TokenKind::Whitespace);
    assert_eq!(lexer.next_token().unwrap().kind, TokenKind::If);
    assert_eq!(lexer.next_token().unwrap().kind, TokenKind::Whitespace);
    assert_eq!(lexer.next_token().unwrap().kind, TokenKind::Else);
    assert_eq!(lexer.next_token().unwrap().kind, TokenKind::Whitespace);
    assert_eq!(lexer.next_token().unwrap().kind, TokenKind::While);
    assert_eq!(lexer.next_token().unwrap().kind, TokenKind::Whitespace);
    assert_eq!(lexer.next_token().unwrap().kind, TokenKind::While);
    assert_eq!(lexer.next_token().unwrap().kind, TokenKind::Equals);
    assert_eq!(lexer.next_token().unwrap().kind, TokenKind::Whitespace);
    assert_eq!(lexer.next_token().unwrap().kind, TokenKind::Identifier);
    assert_eq!(lexer.next_token().unwrap().kind, TokenKind::Whitespace);
    assert_eq!(lexer.next_token().unwrap().kind, TokenKind::Identifier);
    assert_eq!(lexer.next_token().unwrap().kind, TokenKind::Whitespace);
    assert_eq!(lexer.next_token().unwrap().kind, TokenKind::Print);
    assert_eq!(lexer.next_token().unwrap().kind, TokenKind::SemiColon);
    assert_eq!(lexer.next_token().unwrap().kind, TokenKind::Input);
    assert_eq!(lexer.next_token().unwrap().kind, TokenKind::Eof);
}

#[test]
fn test_identifier() {
    let mut lexer = Lexer::from("Hello World");
    let token = lexer.next_token().unwrap();
    assert_eq!(token.kind, TokenKind::Identifier);
    assert_eq!(token.data.raw, "Hello");
    let token = lexer.next_token().unwrap();
    assert_eq!(token.kind, TokenKind::Whitespace);
    let token = lexer.next_token().unwrap();
    assert_eq!(token.kind, TokenKind::Identifier);
    assert_eq!(token.data.raw, "World");
}

#[test]
fn test_interator() {
    let mut iter = Lexer::from("let if else while while= whileif hello\nprint;input");
    assert_eq!(iter.next().unwrap().kind, TokenKind::Let);
    assert_eq!(iter.next().unwrap().kind, TokenKind::Whitespace);
    assert_eq!(iter.next().unwrap().kind, TokenKind::If);
    assert_eq!(iter.next().unwrap().kind, TokenKind::Whitespace);
    assert_eq!(iter.next().unwrap().kind, TokenKind::Else);
    assert_eq!(iter.next().unwrap().kind, TokenKind::Whitespace);
    assert_eq!(iter.next().unwrap().kind, TokenKind::While);
    assert_eq!(iter.next().unwrap().kind, TokenKind::Whitespace);
    assert_eq!(iter.next().unwrap().kind, TokenKind::While);
    assert_eq!(iter.next().unwrap().kind, TokenKind::Equals);
    assert_eq!(iter.next().unwrap().kind, TokenKind::Whitespace);
    assert_eq!(iter.next().unwrap().kind, TokenKind::Identifier);
    assert_eq!(iter.next().unwrap().kind, TokenKind::Whitespace);
    assert_eq!(iter.next().unwrap().kind, TokenKind::Identifier);
    assert_eq!(iter.next().unwrap().kind, TokenKind::Whitespace);
    assert_eq!(iter.next().unwrap().kind, TokenKind::Print);
    assert_eq!(iter.next().unwrap().kind, TokenKind::SemiColon);
    assert_eq!(iter.next().unwrap().kind, TokenKind::Input);
    assert_eq!(iter.next().is_none(), true);
}

#[test]
fn overflowing_number_is_a_lexer_error() {
    let mut lexer = Lexer::from("99999999999999999999");
    assert!(lexer.next_token().is_err());
}

#[test]
fn largest_number_still_lexes() {
    let mut lexer = Lexer::from("9223372036854775807");
    assert_eq!(
        lexer.next_token().unwrap().kind,
        TokenKind::LiteralNumber(i64::MAX)
    );
}

#[test]
fn overflowing_number_is_a_tokenization_error_in_the_stream() {
    let mut lexer = Lexer::from("99999999999999999999");
    let token = lexer.next().unwrap();
    assert_eq!(token.kind, TokenKind::TokenizationError);
    assert_eq!(token.data.raw, "");
}

#[test]
fn tokenize_collects_the_stream_without_the_sentinel() {
    let tokens = tokenize("let x = 1;");
    let kinds: Vec<TokenKind> = tokens.iter().map(|t| t.kind).collect();
    assert_eq!(
        kinds,
        vec![
            TokenKind::Let,
            TokenKind::Whitespace,
            TokenKind::Identifier,
            TokenKind::Whitespace,
            TokenKind::Equals,
            TokenKind::Whitespace,
            TokenKind::LiteralNumber(1),
            TokenKind::SemiColon,
        ]
    );
}

#[test]
fn tokenize_keeps_scanning_after_an_overflowing_number() {
    let tokens = tokenize("99999999999999999999;");
    assert_eq!(tokens[0].kind, TokenKind::TokenizationError);
    assert!(tokens.iter().any(|t| t.kind == TokenKind::SemiColon));
}

#[test]
fn every_whitespace_character_is_its_own_token() {
    let mut lexer = Lexer::from("a b\tc\rd\ne");
    let mut whitespace = 0;
    let mut identifiers = 0;
    while let Some(token) = lexer.next() {
        match token.kind {
            TokenKind::Whitespace => {
                whitespace += 1;
                assert_eq!(token.data.raw.chars().count(), 1);
            }
            TokenKind::Identifier => identifiers += 1,
            _ => panic!("unexpected token"),
        }
    }
    assert_eq!(whitespace, 4);
    assert_eq!(identifiers, 5);
}

use spl::lexer::{Lexer, SimpleToken, Token};

#[test]
fn test_get_tokens_empty() {
    let mut l = Lexer::new("");
    let tokens = l.get_tokens().unwrap();
    assert_eq!(tokens, vec![]);
}

#[test]
fn test_get_tokens_one() {
    let mut l = Lexer::new("+");
    let tokens = l.get_tokens().unwrap();
    assert_eq!(tokens, vec![Token::SimpleToken(SimpleToken::Add)]);
}

#[test]
fn test_get_tokens_multiple() {
    let mut l = Lexer::new("++---");
    let tokens = l.get_tokens().unwrap();
    assert_eq!(
        tokens,
        vec![
            Token::SimpleToken(SimpleToken::Add),
            Token::SimpleToken(SimpleToken::Add),
            Token::SimpleToken(SimpleToken::Subtract),
            Token::SimpleToken(SimpleToken::Subtract),
            Token::SimpleToken(SimpleToken::Subtract),
        ]
    );
}

#[test]
fn test_get_tokens_width() {
    let mut l = Lexer::new("***");
    let tokens = l.get_tokens().unwrap();
    assert_eq!(
        tokens,
        vec![
            Token::SimpleToken(SimpleToken::Exponentiate),
            Token::SimpleToken(SimpleToken::Multiply),
        ]
    );
}

#[test]
fn test_get_tokens_identifier() {
    let mut l = Lexer::new("let mut abacus");
    let tokens = l.get_tokens().unwrap();
    assert_eq!(
        tokens,
        vec![
            Token::SimpleToken(SimpleToken::Let),
            Token::SimpleToken(SimpleToken::Mut),
            Token::Identifier("abacus".to_string()),
        ]
    );
}

#[test]
fn test_get_tokens_simple_word() {
    let mut l = Lexer::new("letmut abacus");
    let tokens = l.get_tokens().unwrap();
    assert_eq!(
        tokens,
        vec![
            Token::Identifier("letmut".to_string()),
            Token::Identifier("abacus".to_string()),
        ]
    );
}

#[test]
fn test_get_tokens_whitespace() {
    let mut l = Lexer::new("+ - \t  * \n\n +   ");
    let tokens = l.get_tokens().unwrap();
    assert_eq!(
        tokens,
        vec![
            Token::SimpleToken(SimpleToken::Add),
            Token::SimpleToken(SimpleToken::Subtract),
            Token::SimpleToken(SimpleToken::Multiply),
            Token::SimpleToken(SimpleToken::Add),
        ]
    );
}

#[test]
fn test_get_tokens_declaration_with_string_literal() {
    let mut l: Lexer = Lexer::new("let mut a = \"abacus\";");
    let tokens = l.get_tokens().unwrap();
    assert_eq!(
        tokens,
        vec![
            Token::SimpleToken(SimpleToken::Let),
            Token::SimpleToken(SimpleToken::Mut),
            Token::Identifier("a".to_string()),
            Token::SimpleToken(SimpleToken::Assignment),
            Token::StringLiteral("abacus".to_string()),
            Token::SimpleToken(SimpleToken::Semicolon)
        ]
    );
}

#[test]
fn test_get_tokens_declaration_with_empty_string_literal() {
    let mut l: Lexer = Lexer::new("let mut a = \"\";");
    let tokens = l.get_tokens().unwrap();
    assert_eq!(
        tokens,
        vec![
            Token::SimpleToken(SimpleToken::Let),
            Token::SimpleToken(SimpleToken::Mut),
            Token::Identifier("a".to_string()),
            Token::SimpleToken(SimpleToken::Assignment),
            Token::StringLiteral("".to_string()),
            Token::SimpleToken(SimpleToken::Semicolon)
        ]
    );
}

#[test]
fn test_get_tokens_empty_string_literal() {
    let mut l: Lexer = Lexer::new("\"\"");
    let tokens = l.get_tokens().unwrap();
    assert_eq!(tokens, vec![Token::StringLiteral("".to_string())]);
}

#[test]
fn test_get_tokens_integer_literals() {
    let mut l: Lexer = Lexer::new("12334759837459 123");
    let tokens = l.get_tokens().unwrap();
    assert_eq!(
        tokens,
        vec![
            Token::IntegerLiteral(12334759837459),
            Token::IntegerLiteral(123),
        ]
    );
}

#[test]
fn test_get_tokens_integer_literals_base() {
    let mut l: Lexer = Lexer::new("0xFE 0b011 123 0o223");
    let tokens = l.get_tokens().unwrap();
    assert_eq!(
        tokens,
        vec![
            Token::IntegerLiteral(0xFE),
            Token::IntegerLiteral(0b011),
            Token::IntegerLiteral(123),
            Token::IntegerLiteral(0o223),
        ]
    );
}

#[test]
fn test_get_tokens_string_literal_escape_sequence() {
    let mut tokens = Lexer::new("\"\\\"\"").get_tokens().unwrap();
    assert_eq!(tokens, vec![Token::StringLiteral("\"".to_string())]);
    tokens = Lexer::new("\"\\n\"").get_tokens().unwrap();
    assert_eq!(tokens, vec![Token::StringLiteral("\n".to_string())]);
}

#[test]
fn test_get_tokens_char_literal() {
    let tokens = Lexer::new("'A' '\\\\'").get_tokens().unwrap();
    assert_eq!(
        tokens,
        vec![
            Token::IntegerLiteral('A' as u64),
            Token::IntegerLiteral('\\' as u64)
        ]
    );
}

#[test]
fn test_consume_whitespace() {
    let mut l = Lexer::new("   +  \n\t   -+   ");

    l.consume_whitespace();
    assert_eq!(l.text.next().unwrap(), '+');
    l.consume_whitespace();
    assert_eq!(l.text.next().unwrap(), '-');
    l.consume_whitespace();
    assert_eq!(l.text.next().unwrap(), '+');
    l.consume_whitespace();

    assert!(l.text.next().is_none());
}

#[test]
fn test_too_large_integer_literal() {
    let mut l = Lexer::new("18446744073709551615");
    assert_eq!(
        l.get_tokens().unwrap(),
        vec![Token::IntegerLiteral(18446744073709551615)]
    );
    let mut l2 = Lexer::new("18446744073709551616");
    assert!(l2.get_tokens().is_err());
}

#[test]
fn test_bare_radix_prefix_is_an_error() {
    let mut l = Lexer::new("0x");
    assert!(l.get_tokens().is_err());
}

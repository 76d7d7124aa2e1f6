use minilang::lexer::{LexError, Lexer, Token};

#[test]
fn tokenize_declaration_with_arithmetic() {
    let tokens = Lexer::tokenize("this x = 3 + 5 * 4;").unwrap();
    assert_eq!(
        tokens,
        vec![
            Token::This,
            Token::Identifier("x".to_string()),
            Token::Equal,
            Token::Integer(3),
            Token::Plus,
            Token::Integer(5),
            Token::Multiply,
            Token::Integer(4),
            Token::SemiColon,
        ]
    );
}

#[test]
fn tokenize_two_character_operators() {
    assert_eq!(
        Lexer::tokenize("== =! = ->").unwrap(),
        vec![
            Token::CompareEqual,
            Token::CompareNotEqual,
            Token::Equal,
            Token::Arrow,
        ]
    );
}

#[test]
fn not_equal_is_equals_bang_not_bang_equals() {
    // The not-equal comparator is the two-character sequence `=!`; a bare
    // `!` is not a recognized character.
    assert_eq!(
        Lexer::tokenize("a =! b").unwrap(),
        vec![
            Token::Identifier("a".to_string()),
            Token::CompareNotEqual,
            Token::Identifier("b".to_string()),
        ]
    );
    assert_eq!(
        Lexer::tokenize("a != b"),
        Err(LexError::UnexpectedCharacter { character: '!', position: 2 })
    );
}

#[test]
fn tokenize_keywords_and_identifiers() {
    assert_eq!(
        Lexer::tokenize("if else fn print return this ifx").unwrap(),
        vec![
            Token::If,
            Token::Else,
            Token::Func,
            Token::Print,
            Token::Return,
            Token::This,
            Token::Identifier("ifx".to_string()),
        ]
    );
}

#[test]
fn tokenize_punctuation_and_whitespace() {
    assert_eq!(
        Lexer::tokenize("( ) { } , : ;\n\t- /").unwrap(),
        vec![
            Token::LeftParen,
            Token::RightParen,
            Token::LeftBracket,
            Token::RightBracket,
            Token::Comma,
            Token::Colon,
            Token::SemiColon,
            Token::Minus,
            Token::Divide,
        ]
    );
}

#[test]
fn tokenize_rejects_unknown_character() {
    assert_eq!(
        Lexer::tokenize("this x = $;"),
        Err(LexError::UnexpectedCharacter { character: '$', position: 9 })
    );
}

#[test]
fn tokenize_largest_integer_literal() {
    assert_eq!(
        Lexer::tokenize("9223372036854775807").unwrap(),
        vec![Token::Integer(i64::MAX)]
    );
}

#[test]
fn tokenize_rejects_oversized_integer_literal() {
    assert_eq!(
        Lexer::tokenize("x = 9223372036854775808;"),
        Err(LexError::IntegerOutOfRange { position: 4 })
    );
}

#[test]
fn tokenize_empty_input() {
    assert_eq!(Lexer::tokenize("").unwrap(), Vec::<Token>::new());
}

use expr_parser::lexical::CharClass;
use expr_parser::tokenizer::{tokenize, LexError, Token, TokenStream};

fn chars(text: &str) -> Vec<char> {
    text.chars().collect()
}

fn tokenize_str(text: &str) -> Result<Vec<Token>, LexError> {
    tokenize(&chars(text)).collect()
}

fn identifier(name: &str) -> Token {
    Token::Identifier(name.to_string())
}

#[test]
fn test_basic_tokens() {
    assert_eq!(tokenize_str("=").ok(), Some(vec![Token::Equals]));
    assert_eq!(tokenize_str("+").ok(), Some(vec![Token::Plus]));
    assert_eq!(tokenize_str(",").ok(), Some(vec![Token::Comma]));
    assert_eq!(tokenize_str("(").ok(), Some(vec![Token::LeftParenthesis]));
    assert_eq!(tokenize_str(")").ok(), Some(vec![Token::RightParenthesis]));
}

#[test]
fn test_identifiers() {
    assert_eq!(tokenize_str("lower_case").ok(), Some(vec![Token::Identifier("lower_case".to_string())]));
    assert_eq!(tokenize_str("UPPER_CASE").ok(), Some(vec![Token::Identifier("UPPER_CASE".to_string())]));

    assert_eq!(tokenize_str("where").ok(), Some(vec![Token::Where]));
}

#[test]
fn test_numbers() {
    assert_eq!(tokenize_str("0").ok(), Some(vec![Token::Number(0)]));
    assert_eq!(tokenize_str("5").ok(), Some(vec![Token::Number(5)]));
    assert_eq!(tokenize_str("10").ok(), Some(vec![Token::Number(10)]));
    assert_eq!(tokenize_str("21").ok(), Some(vec![Token::Number(21)]));
    assert_eq!(tokenize_str("12345").ok(), Some(vec![Token::Number(12345)]));
}

#[test]
fn test_sequence() {
    assert_eq!(tokenize_str("+()").ok(), Some(vec![Token::Plus, Token::LeftParenthesis, Token::RightParenthesis]));
    assert_eq!(tokenize_str("1+x").ok(), Some(vec![Token::Number(1), Token::Plus, Token::Identifier("x".to_string())]));
}

#[test]
fn test_empty_input_has_no_tokens() {
    assert_eq!(tokenize_str(""), Ok(vec![]));
    assert_eq!(tokenize_str(" \t\r\n"), Ok(vec![]));
}

#[test]
fn test_whitespace_is_skipped() {
    assert_eq!(
        tokenize_str("  x ,\twhere\r\ny =\n 12 "),
        Ok(vec![
            identifier("x"),
            Token::Comma,
            Token::Where,
            identifier("y"),
            Token::Equals,
            Token::Number(12),
        ])
    );
}

#[test]
fn test_tokens_need_no_separator() {
    assert_eq!(
        tokenize_str("12ab(34)"),
        Ok(vec![
            Token::Number(12),
            identifier("ab"),
            Token::LeftParenthesis,
            Token::Number(34),
            Token::RightParenthesis,
        ])
    );
}

#[test]
fn test_identifier_characters() {
    assert_eq!(tokenize_str("_"), Ok(vec![identifier("_")]));
    assert_eq!(tokenize_str("_x1"), Ok(vec![identifier("_x1")]));
    assert_eq!(tokenize_str("aZ09_"), Ok(vec![identifier("aZ09_")]));
    assert_eq!(tokenize_str("a b"), Ok(vec![identifier("a"), identifier("b")]));
}

#[test]
fn test_where_is_a_keyword_only_as_a_whole_word() {
    assert_eq!(tokenize_str("where"), Ok(vec![Token::Where]));
    assert_eq!(tokenize_str("Where"), Ok(vec![identifier("Where")]));
    assert_eq!(tokenize_str("wher"), Ok(vec![identifier("wher")]));
    assert_eq!(tokenize_str("wherever"), Ok(vec![identifier("wherever")]));
    assert_eq!(tokenize_str("where1"), Ok(vec![identifier("where1")]));
    assert_eq!(tokenize_str("_where"), Ok(vec![identifier("_where")]));
    assert_eq!(tokenize_str("where where"), Ok(vec![Token::Where, Token::Where]));
}

#[test]
fn test_leading_zeros() {
    assert_eq!(tokenize_str("007"), Ok(vec![Token::Number(7)]));
    assert_eq!(tokenize_str("0000"), Ok(vec![Token::Number(0)]));
}

#[test]
fn test_number_limits() {
    assert_eq!(tokenize_str("2147483647"), Ok(vec![Token::Number(i32::MAX)]));
    assert_eq!(tokenize_str("2147483648"), Ok(vec![Token::Number(i32::MIN)]));
    assert_eq!(tokenize_str("4294967295"), Ok(vec![Token::Number(-1)]));
    assert_eq!(tokenize_str("4294967296"), Ok(vec![Token::Number(0)]));
    assert_eq!(tokenize_str("4294967297"), Ok(vec![Token::Number(1)]));
    assert_eq!(tokenize_str("99999999999"), Ok(vec![Token::Number(1215752191)]));
    assert_eq!(
        tokenize_str("340282366920938463463374607431768211456"),
        Ok(vec![Token::Number(0)])
    );
}

#[test]
fn test_unexpected_character() {
    assert_eq!(
        tokenize_str("$"),
        Err(LexError::UnexpectedCharacter { character: '$', position: 0 })
    );
    assert_eq!(
        tokenize_str("1 + ?x"),
        Err(LexError::UnexpectedCharacter { character: '?', position: 4 })
    );
    assert_eq!(
        tokenize_str("a-b"),
        Err(LexError::UnexpectedCharacter { character: '-', position: 1 })
    );
    assert_eq!(
        tokenize_str("é"),
        Err(LexError::UnexpectedCharacter { character: 'é', position: 0 })
    );
}

#[test]
fn test_first_error_wins() {
    assert_eq!(
        tokenize_str("x # y $"),
        Err(LexError::UnexpectedCharacter { character: '#', position: 2 })
    );
}

#[test]
fn test_next_yields_one_token_per_step() {
    let input = chars("1 +x");
    let mut stream = tokenize(&input);
    assert_eq!(stream.position(), 0);
    assert_eq!(stream.next(), Some(Ok(Token::Number(1))));
    assert_eq!(stream.position(), 1);
    assert_eq!(stream.next(), Some(Ok(Token::Plus)));
    assert_eq!(stream.position(), 3);
    assert_eq!(stream.next(), Some(Ok(identifier("x"))));
    assert_eq!(stream.position(), 4);
    assert_eq!(stream.next(), None);
    assert_eq!(stream.next(), None);
    assert_eq!(stream.position(), 4);
}

#[test]
fn test_next_skips_trailing_whitespace_at_the_end() {
    let input = chars("x  ");
    let mut stream = tokenize(&input);
    assert_eq!(stream.next(), Some(Ok(identifier("x"))));
    assert_eq!(stream.position(), 1);
    assert_eq!(stream.next(), None);
    assert_eq!(stream.position(), 3);
}

#[test]
fn test_error_leaves_the_cursor_at_the_offending_character() {
    let input = chars("1 ! 2");
    let mut stream = tokenize(&input);
    assert_eq!(stream.next(), Some(Ok(Token::Number(1))));
    assert_eq!(stream.position(), 1);
    assert_eq!(
        stream.next(),
        Some(Err(LexError::UnexpectedCharacter { character: '!', position: 2 }))
    );
    assert_eq!(stream.position(), 2);
}

#[test]
fn test_no_token_follows_an_error() {
    let input = chars("x @ y");
    let mut stream = tokenize(&input);
    assert_eq!(stream.next(), Some(Ok(identifier("x"))));
    let error = LexError::UnexpectedCharacter { character: '@', position: 2 };
    assert_eq!(stream.next(), Some(Err(error)));
    assert_eq!(stream.next(), Some(Err(error)));
    assert_eq!(stream.next(), Some(Err(error)));
    assert_eq!(stream.position(), 2);
    assert_eq!(stream.collect(), Err(error));
}

#[test]
fn test_error_after_whitespace_stands_at_the_character() {
    let input = chars(" \t-1");
    let mut stream = tokenize(&input);
    assert_eq!(
        stream.next(),
        Some(Err(LexError::UnexpectedCharacter { character: '-', position: 2 }))
    );
    assert_eq!(stream.position(), 2);

    let input = chars("é");
    let mut stream = tokenize(&input);
    assert_eq!(
        stream.next(),
        Some(Err(LexError::UnexpectedCharacter { character: 'é', position: 0 }))
    );
    assert_eq!(stream.position(), 0);
}

#[test]
fn test_collect_from_the_middle() {
    let input = chars("1 + 2");
    let mut stream = TokenStream::new(&input);
    assert_eq!(stream.next(), Some(Ok(Token::Number(1))));
    assert_eq!(stream.collect(), Ok(vec![Token::Plus, Token::Number(2)]));
}

#[test]
fn test_parse_number_scans_the_digits_at_the_cursor() {
    let input = chars("123abc");
    let mut stream = TokenStream::new(&input);
    assert_eq!(stream.parse_number(), Ok(Token::Number(123)));
    assert_eq!(stream.position(), 3);
}

#[test]
fn test_parse_number_without_digits_is_zero() {
    let input = chars("abc");
    let mut stream = TokenStream::new(&input);
    assert_eq!(stream.parse_number(), Ok(Token::Number(0)));
    assert_eq!(stream.position(), 0);

    let empty = chars("");
    let mut stream = TokenStream::new(&empty);
    assert_eq!(stream.parse_number(), Ok(Token::Number(0)));
    assert_eq!(stream.position(), 0);
}

#[test]
fn test_parse_number_does_not_skip_whitespace() {
    let input = chars(" 1");
    let mut stream = TokenStream::new(&input);
    assert_eq!(stream.parse_number(), Ok(Token::Number(0)));
    assert_eq!(stream.position(), 0);
}

#[test]
fn test_parse_identifier_scans_the_word_at_the_cursor() {
    let input = chars("ab1_c+d");
    let mut stream = TokenStream::new(&input);
    assert_eq!(stream.parse_identifier(), Ok(identifier("ab1_c")));
    assert_eq!(stream.position(), 5);

    let keyword = chars("where=");
    let mut stream = TokenStream::new(&keyword);
    assert_eq!(stream.parse_identifier(), Ok(Token::Where));
    assert_eq!(stream.position(), 5);
}

#[test]
fn test_parse_identifier_needs_an_identifier_start() {
    let input = chars("1abc");
    let mut stream = TokenStream::new(&input);
    assert_eq!(
        stream.parse_identifier(),
        Err(LexError::ExpectedIdentifierStart { found: Some('1'), position: 0 })
    );
    assert_eq!(stream.position(), 0);
    assert_eq!(
        stream.parse_identifier(),
        Err(LexError::ExpectedIdentifierStart { found: Some('1'), position: 0 })
    );
    assert_eq!(stream.position(), 0);

    let spaced = chars(" x");
    let mut stream = TokenStream::new(&spaced);
    assert_eq!(
        stream.parse_identifier(),
        Err(LexError::ExpectedIdentifierStart { found: Some(' '), position: 0 })
    );
    assert_eq!(stream.position(), 0);
}

#[test]
fn test_parse_identifier_at_the_end_of_input() {
    let input = chars("x");
    let mut stream = TokenStream::new(&input);
    assert_eq!(stream.next(), Some(Ok(identifier("x"))));
    assert_eq!(
        stream.parse_identifier(),
        Err(LexError::ExpectedIdentifierStart { found: None, position: 1 })
    );
    assert_eq!(stream.position(), 1);
}

#[test]
fn test_char_classes() {
    for c in [' ', '\t', '\r', '\n'] {
        assert!(CharClass::Whitespace.has(c));
        assert!(!CharClass::Digit.has(c));
        assert!(!CharClass::IdentifierStart.has(c));
        assert!(!CharClass::IdentifierPart.has(c));
    }
    for c in ['0', '5', '9'] {
        assert!(CharClass::Digit.has(c));
        assert!(CharClass::IdentifierPart.has(c));
        assert!(!CharClass::IdentifierStart.has(c));
        assert!(!CharClass::Whitespace.has(c));
    }
    for c in ['a', 'z', 'A', 'Z', 'm', '_'] {
        assert!(CharClass::IdentifierStart.has(c));
        assert!(CharClass::IdentifierPart.has(c));
        assert!(!CharClass::Digit.has(c));
    }
    for c in ['/', ':', '@', '[', '`', '{', '\u{b}', '\u{a0}', '٣', 'é'] {
        assert!(!CharClass::Whitespace.has(c));
        assert!(!CharClass::Digit.has(c));
        assert!(!CharClass::IdentifierStart.has(c));
        assert!(!CharClass::IdentifierPart.has(c));
    }
}

#[test]
fn test_token_clone_is_equal() {
    let tokens = vec![
        Token::Number(-3),
        Token::Comma,
        Token::Equals,
        Token::Plus,
        Token::LeftParenthesis,
        Token::RightParenthesis,
        identifier("name"),
        Token::Where,
    ];
    for token in &tokens {
        assert_eq!(&token.clone(), token);
    }
}

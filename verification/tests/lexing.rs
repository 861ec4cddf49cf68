use arith_syntax::analysis::decimal::decimal_string;
use arith_syntax::analysis::symbols::{classify, digit_to_number, is_digit, CharClass};
use arith_syntax::analysis::{tokenize, Lexer, LexerError, SyntaxToken, Token};

fn number(value: i32, position: usize) -> SyntaxToken {
    SyntaxToken::digit(value, position)
}

#[test]
fn digits_give_one_number() {
    let (tokens, diagnostics) = tokenize("123");
    assert_eq!(tokens, vec![number(123, 1)]);
    assert!(diagnostics.is_empty());
}

#[test]
fn single_digit_gives_one_number() {
    let (tokens, diagnostics) = tokenize("7");
    assert_eq!(tokens, vec![number(7, 1)]);
    assert!(diagnostics.is_empty());
}

#[test]
fn leading_zeros_do_not_count() {
    let (tokens, diagnostics) = tokenize("000000000000007");
    assert_eq!(tokens, vec![number(7, 1)]);
    assert!(diagnostics.is_empty());
}

#[test]
fn largest_number_is_read() {
    let (tokens, diagnostics) = tokenize("2147483647");
    assert_eq!(tokens, vec![number(i32::MAX, 1)]);
    assert!(diagnostics.is_empty());
}

#[test]
fn number_past_the_largest_is_an_error() {
    let (tokens, diagnostics) = tokenize("2147483648");
    assert!(tokens.is_empty());
    assert_eq!(diagnostics, vec!["Invalid integer at position: 10".to_string()]);
}

#[test]
fn long_run_is_an_error() {
    let (tokens, diagnostics) = tokenize("99999999999");
    assert!(tokens.is_empty());
    assert_eq!(diagnostics, vec!["Invalid integer at position: 11".to_string()]);
    assert!(diagnostics[0].contains("Invalid integer"));
}

#[test]
fn very_long_run_is_an_error() {
    let (tokens, diagnostics) = tokenize("184467440737095516160000000000000000000001");
    assert!(tokens.is_empty());
    assert_eq!(diagnostics, vec!["Invalid integer at position: 42".to_string()]);
}

#[test]
fn error_does_not_stop_the_pass() {
    let (tokens, diagnostics) = tokenize("99999999999 + 4");
    assert_eq!(
        tokens,
        vec![SyntaxToken::operator(Token::Plus, 13), number(4, 15)]
    );
    assert_eq!(diagnostics, vec!["Invalid integer at position: 11".to_string()]);
}

#[test]
fn blanks_give_nothing() {
    for text in ["", " ", "   ", "\t", " \t\r\n ", "\u{a0}\u{2003}\u{3000}"] {
        let (tokens, diagnostics) = tokenize(text);
        assert!(tokens.is_empty(), "{:?}", text);
        assert!(diagnostics.is_empty(), "{:?}", text);
    }
}

#[test]
fn no_withespace_token() {
    let (tokens, diagnostics) = tokenize("  1 \t+  2\n");
    assert!(tokens
        .iter()
        .all(|token| token.token_type != Token::WhitespaceToken));
    assert_eq!(
        tokens,
        vec![
            number(1, 3),
            SyntaxToken::operator(Token::Plus, 6),
            number(2, 9)
        ]
    );
    assert!(diagnostics.is_empty());
}

#[test]
fn operators_and_parentheses() {
    let (tokens, diagnostics) = tokenize("+-*/()");
    assert_eq!(
        tokens,
        vec![
            SyntaxToken::operator(Token::Plus, 1),
            SyntaxToken::operator(Token::Minus, 2),
            SyntaxToken::operator(Token::Star, 3),
            SyntaxToken::operator(Token::ForwardSlash, 4),
            SyntaxToken::operator(Token::OpenParenthesis, 5),
            SyntaxToken::operator(Token::CloseParenthesis, 6),
        ]
    );
    assert!(diagnostics.is_empty());
}

#[test]
fn positions_count_characters_read() {
    let (tokens, _) = tokenize("12+345");
    assert_eq!(
        tokens,
        vec![
            number(12, 1),
            SyntaxToken::operator(Token::Plus, 3),
            number(345, 4)
        ]
    );
}

#[test]
fn stranger_is_reported_and_left_out() {
    let (tokens, diagnostics) = tokenize("1 $ 2");
    assert_eq!(tokens, vec![number(1, 1), number(2, 5)]);
    assert_eq!(diagnostics, vec!["Invalid token at position: 3".to_string()]);
    assert!(diagnostics[0].contains("Invalid token"));
}

#[test]
fn every_stranger_is_reported() {
    let (tokens, diagnostics) = tokenize("a1b");
    assert_eq!(tokens, vec![number(1, 2)]);
    assert_eq!(
        diagnostics,
        vec![
            "Invalid token at position: 1".to_string(),
            "Invalid token at position: 3".to_string()
        ]
    );
}

#[test]
fn positions_count_characters_not_bytes() {
    let (tokens, diagnostics) = tokenize("\u{e9}\u{4e2d}7");
    assert_eq!(tokens, vec![number(7, 3)]);
    assert_eq!(
        diagnostics,
        vec![
            "Invalid token at position: 1".to_string(),
            "Invalid token at position: 2".to_string()
        ]
    );
}

#[test]
fn other_scripts_have_no_digits() {
    let (tokens, diagnostics) = tokenize("\u{663}");
    assert!(tokens.is_empty());
    assert_eq!(diagnostics, vec!["Invalid token at position: 1".to_string()]);
}

#[test]
fn tokenize_twice_gives_the_same() {
    for text in ["", "1 + 2", "1 $ 2", "99999999999", " ( 4 / 2 ) * 3 "] {
        assert_eq!(tokenize(text), tokenize(text));
    }
}

#[test]
fn tokens_come_one_at_a_time() {
    let mut lexer = Lexer::new("10 +");
    assert_eq!(lexer.peek(), Some('1'));
    assert_eq!(lexer.lex_token(), Ok(number(10, 1)));
    assert_eq!(lexer.peek(), Some(' '));
    assert_eq!(lexer.lex_token(), Ok(SyntaxToken::whitespace(3)));
    assert_eq!(lexer.lex_token(), Ok(SyntaxToken::operator(Token::Plus, 4)));
    assert_eq!(lexer.peek(), None);
    assert_eq!(lexer.lex_token(), Ok(SyntaxToken::end_of_file(4)));
    assert_eq!(lexer.lex_token(), Ok(SyntaxToken::end_of_file(4)));
}

#[test]
fn next_reads_one_character() {
    let mut lexer = Lexer::new("ab");
    assert_eq!(lexer.next(), Some('a'));
    assert_eq!(lexer.peek(), Some('b'));
    assert_eq!(lexer.next(), Some('b'));
    assert_eq!(lexer.peek(), None);
}

#[test]
fn errors_come_from_lex_token() {
    let mut lexer = Lexer::new("4294967296?");
    assert_eq!(
        lexer.lex_token(),
        Err(LexerError::ParseIntegerError { position: 10 })
    );
    assert_eq!(
        lexer.lex_token(),
        Err(LexerError::InvalidToken { position: 11 })
    );
    assert_eq!(lexer.lex_token(), Ok(SyntaxToken::end_of_file(11)));
}

#[test]
fn lex_goes_on_from_the_cursor() {
    let mut lexer = Lexer::new("1 + 2");
    assert_eq!(lexer.lex_token(), Ok(number(1, 1)));
    let (tokens, diagnostics) = lexer.lex();
    assert_eq!(
        tokens,
        vec![SyntaxToken::operator(Token::Plus, 3), number(2, 5)]
    );
    assert!(diagnostics.is_empty());
    let (tokens, diagnostics) = lexer.lex();
    assert!(tokens.is_empty());
    assert!(diagnostics.is_empty());
}

#[test]
fn token_constructors() {
    assert_eq!(
        SyntaxToken::new(Token::Star, 9),
        SyntaxToken {
            token_type: Token::Star,
            position: 9
        }
    );
    assert_eq!(SyntaxToken::end_of_file(3).token_type, Token::EndOfFileToken);
    assert_eq!(SyntaxToken::end_of_file(3).position, 3);
    assert_eq!(SyntaxToken::whitespace(2).token_type, Token::WhitespaceToken);
    assert_eq!(SyntaxToken::whitespace(2).position, 2);
    assert_eq!(SyntaxToken::digit(-5, 1).token_type, Token::Number(Some(-5)));
    assert_eq!(SyntaxToken::digit(-5, 1).position, 1);
    assert_eq!(SyntaxToken::operator(Token::Minus, 8).token_type, Token::Minus);
    assert_eq!(SyntaxToken::operator(Token::Minus, 8).position, 8);
}

#[test]
fn token_names() {
    assert_eq!(Token::Number(Some(3)).name(), "integer");
    assert_eq!(Token::Number(None).name(), "integer");
    assert_eq!(Token::EndOfFileToken.name(), "EOF");
    assert_eq!(Token::WhitespaceToken.name(), "WhitespaceToken");
    assert_eq!(Token::Plus.name(), "Plus");
    assert_eq!(Token::Minus.name(), "Minus");
    assert_eq!(Token::Star.name(), "Star");
    assert_eq!(Token::ForwardSlash.name(), "ForwardSlash");
    assert_eq!(Token::OpenParenthesis.name(), "OpenParenthesis");
    assert_eq!(Token::CloseParenthesis.name(), "CloseParenthesis");
}

#[test]
fn lexer_error_messages() {
    assert_eq!(
        LexerError::ParseIntegerError { position: 11 }.message(),
        "Invalid integer at position: 11"
    );
    assert_eq!(
        LexerError::InvalidToken { position: 0 }.message(),
        "Invalid token at position: 0"
    );
}

#[test]
fn decimal_notation() {
    assert_eq!(decimal_string(0), "0");
    assert_eq!(decimal_string(9), "9");
    assert_eq!(decimal_string(10), "10");
    assert_eq!(decimal_string(1234567890), "1234567890");
    assert_eq!(decimal_string(usize::MAX), usize::MAX.to_string());
}

#[test]
fn character_classes() {
    for c in '0'..='9' {
        assert_eq!(classify(c), CharClass::Digit);
        assert!(is_digit(c));
        assert_eq!(Some(digit_to_number(c)), c.to_digit(10));
    }
    for c in [' ', '\t', '\n', '\r', '\u{b}', '\u{c}', '\u{85}', '\u{a0}', '\u{2028}'] {
        assert_eq!(classify(c), CharClass::Whitespace);
    }
    for c in ['+', '-', '*', '/', '(', ')', '$', 'a', '_', '\0', '\u{663}', '\u{200b}'] {
        assert_eq!(classify(c), CharClass::Symbol);
        assert!(!is_digit(c));
    }
    assert!(!is_digit('/'));
    assert!(!is_digit(':'));
}

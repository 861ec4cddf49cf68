use arith_syntax::lexer::{Lexer, SyntaxToken, SyntaxType};

fn check(
    token: &SyntaxToken,
    kind: SyntaxType,
    number: Option<i32>,
    name: &str,
    position: usize,
) {
    assert_eq!(token.syntax_type, kind);
    assert_eq!(token.number(), number);
    assert_eq!(token.name(), name);
    assert_eq!(token.position(), position);
}

#[test]
fn end_of_text_is_a_token() {
    let mut lexer = Lexer::new("");
    check(&lexer.next_token(), SyntaxType::EndOfFileToken, None, "", 0);
    check(&lexer.next_token(), SyntaxType::EndOfFileToken, None, "", 0);
    assert!(lexer.diagnostics().is_empty());
}

#[test]
fn number_keeps_its_digits() {
    let mut lexer = Lexer::new("0042");
    check(&lexer.next_token(), SyntaxType::NumberToken, Some(42), "0042", 0);
    check(&lexer.next_token(), SyntaxType::EndOfFileToken, None, "", 4);
    assert!(lexer.diagnostics().is_empty());
}

#[test]
fn tokens_in_turn() {
    let mut lexer = Lexer::new("12 \t345");
    check(&lexer.next_token(), SyntaxType::NumberToken, Some(12), "12", 0);
    check(&lexer.next_token(), SyntaxType::WhitespaceToken, None, " \t", 2);
    check(&lexer.next_token(), SyntaxType::NumberToken, Some(345), "345", 4);
    check(&lexer.next_token(), SyntaxType::EndOfFileToken, None, "", 7);
    assert!(lexer.diagnostics().is_empty());
}

#[test]
fn largest_number_fits() {
    let mut lexer = Lexer::new("2147483647");
    check(
        &lexer.next_token(),
        SyntaxType::NumberToken,
        Some(i32::MAX),
        "2147483647",
        0,
    );
    assert!(lexer.diagnostics().is_empty());
}

#[test]
fn number_that_does_not_fit_carries_none() {
    let mut lexer = Lexer::new("2147483648 1");
    check(
        &lexer.next_token(),
        SyntaxType::NumberToken,
        None,
        "2147483648",
        0,
    );
    assert_eq!(
        lexer.diagnostics(),
        &vec!["The number 2147483648 isn't a valid Int32.".to_string()]
    );
    check(&lexer.next_token(), SyntaxType::WhitespaceToken, None, " ", 10);
    check(&lexer.next_token(), SyntaxType::NumberToken, Some(1), "1", 11);
    assert_eq!(lexer.diagnostics().len(), 1);
}

#[test]
fn bad_character_shows_what_follows() {
    let mut lexer = Lexer::new("+7");
    check(&lexer.next_token(), SyntaxType::BadToken, None, "", 0);
    assert_eq!(
        lexer.diagnostics(),
        &vec!["ERROR: bad character input: '7'".to_string()]
    );
    check(&lexer.next_token(), SyntaxType::NumberToken, Some(7), "7", 1);
}

#[test]
fn bad_character_at_the_end_shows_nul() {
    let mut lexer = Lexer::new("1$");
    check(&lexer.next_token(), SyntaxType::NumberToken, Some(1), "1", 0);
    check(&lexer.next_token(), SyntaxType::BadToken, None, "", 1);
    assert_eq!(
        lexer.diagnostics(),
        &vec!["ERROR: bad character input: '\0'".to_string()]
    );
    check(&lexer.next_token(), SyntaxType::EndOfFileToken, None, "", 2);
}

#[test]
fn every_bad_character_is_recorded() {
    let mut lexer = Lexer::new("ab");
    check(&lexer.next_token(), SyntaxType::BadToken, None, "", 0);
    check(&lexer.next_token(), SyntaxType::BadToken, None, "", 1);
    assert_eq!(
        lexer.diagnostics(),
        &vec![
            "ERROR: bad character input: 'b'".to_string(),
            "ERROR: bad character input: '\0'".to_string()
        ]
    );
}

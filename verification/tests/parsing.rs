use arith_syntax::analysis::Token;
use arith_syntax::parser::{parse, Parser, ParserError, Syntax};

fn leaf(value: i32) -> Syntax {
    Syntax::NumberExpression {
        value: Token::Number(Some(value)),
    }
}

fn missing() -> Syntax {
    Syntax::NumberExpression {
        value: Token::Number(None),
    }
}

fn binary(left: Syntax, op: Token, right: Syntax) -> Syntax {
    Syntax::BinaryExpression {
        left: Box::new(left),
        op,
        right: Box::new(right),
    }
}

#[test]
fn sum_of_two() {
    let (tree, diagnostics) = parse("1 + 2");
    assert_eq!(tree, binary(leaf(1), Token::Plus, leaf(2)));
    assert!(diagnostics.is_empty());
}

#[test]
fn operators_group_to_the_left() {
    let (tree, diagnostics) = parse("1 + 2 - 3");
    assert_eq!(
        tree,
        binary(
            binary(leaf(1), Token::Plus, leaf(2)),
            Token::Minus,
            leaf(3)
        )
    );
    assert!(diagnostics.is_empty());
}

#[test]
fn long_chain_groups_to_the_left() {
    let (tree, diagnostics) = parse("10-20-30+40");
    assert_eq!(
        tree,
        binary(
            binary(
                binary(leaf(10), Token::Minus, leaf(20)),
                Token::Minus,
                leaf(30)
            ),
            Token::Plus,
            leaf(40)
        )
    );
    assert!(diagnostics.is_empty());
}

#[test]
fn empty_text_gives_the_missing_number() {
    let (tree, diagnostics) = parse("");
    assert_eq!(tree, missing());
    assert_eq!(
        diagnostics,
        vec!["Unexpected EOF found at position: 0. Expected integer".to_string()]
    );
}

#[test]
fn blank_text_gives_the_missing_number() {
    let (tree, diagnostics) = parse("   \n");
    assert_eq!(tree, missing());
    assert_eq!(
        diagnostics,
        vec!["Unexpected EOF found at position: 3. Expected integer".to_string()]
    );
}

#[test]
fn single_number() {
    let (tree, diagnostics) = parse("42");
    assert_eq!(tree, leaf(42));
    assert!(diagnostics.is_empty());
}

#[test]
fn operator_without_right_operand() {
    let (tree, diagnostics) = parse("1 +");
    assert_eq!(tree, binary(leaf(1), Token::Plus, missing()));
    assert_eq!(
        diagnostics,
        vec!["Unexpected EOF found at position: 2. Expected integer".to_string()]
    );
}

#[test]
fn end_position_counts_bytes() {
    let (tree, diagnostics) = parse("1 +\u{e9}");
    assert_eq!(tree, binary(leaf(1), Token::Plus, missing()));
    assert_eq!(
        diagnostics,
        vec![
            "Invalid token at position: 4".to_string(),
            "Unexpected EOF found at position: 4. Expected integer".to_string()
        ]
    );
}

#[test]
fn lexer_diagnostics_come_first() {
    let (tree, diagnostics) = parse("$ 1 -");
    assert_eq!(tree, binary(leaf(1), Token::Minus, missing()));
    assert_eq!(
        diagnostics,
        vec![
            "Invalid token at position: 1".to_string(),
            "Unexpected EOF found at position: 4. Expected integer".to_string()
        ]
    );
}

#[test]
fn number_out_of_range_leaves_no_operand() {
    let (tree, diagnostics) = parse("99999999999");
    assert_eq!(tree, missing());
    assert_eq!(
        diagnostics,
        vec![
            "Invalid integer at position: 11".to_string(),
            "Unexpected EOF found at position: 10. Expected integer".to_string()
        ]
    );
}

#[test]
fn tokens_outside_the_grammar_are_passed_over() {
    let (tree, diagnostics) = parse("1 * 2");
    assert_eq!(tree, leaf(1));
    assert!(diagnostics.is_empty());

    let (tree, diagnostics) = parse("(1 + 2) / 3");
    assert_eq!(tree, binary(missing(), Token::Plus, leaf(2)));
    assert!(diagnostics.is_empty());

    let (tree, diagnostics) = parse("1 2 + 3");
    assert_eq!(tree, binary(leaf(1), Token::Plus, leaf(3)));
    assert!(diagnostics.is_empty());
}

#[test]
fn operator_in_place_of_an_operand() {
    let (tree, diagnostics) = parse("+ 1");
    assert_eq!(tree, missing());
    assert!(diagnostics.is_empty());

    let (tree, diagnostics) = parse("1 + - 2");
    assert_eq!(tree, binary(leaf(1), Token::Plus, missing()));
    assert!(diagnostics.is_empty());

    let (tree, diagnostics) = parse("1 + * - 2");
    assert_eq!(
        tree,
        binary(
            binary(leaf(1), Token::Plus, missing()),
            Token::Minus,
            leaf(2)
        )
    );
    assert!(diagnostics.is_empty());
}

#[test]
fn parse_twice_gives_the_same() {
    for text in ["", "1 + 2", "1 + 2 - 3", "1 $ 2", "7 -", "99999999999 + 1"] {
        assert_eq!(parse(text), parse(text));
    }
}

#[test]
fn parser_keeps_its_diagnostics() {
    let mut parser = Parser::new("1 $ +");
    assert_eq!(
        parser.diagnostics(),
        &vec!["Invalid token at position: 3".to_string()]
    );
    let tree = parser.parse();
    assert_eq!(tree, binary(leaf(1), Token::Plus, missing()));
    assert_eq!(
        parser.diagnostics(),
        &vec![
            "Invalid token at position: 3".to_string(),
            "Unexpected EOF found at position: 4. Expected integer".to_string()
        ]
    );
}

#[test]
fn parser_at_the_end_finds_nothing() {
    let mut parser = Parser::new("5");
    assert_eq!(parser.parse(), leaf(5));
    assert!(parser.diagnostics().is_empty());
    assert_eq!(parser.parse(), missing());
    assert_eq!(
        parser.diagnostics(),
        &vec!["Unexpected EOF found at position: 0. Expected integer".to_string()]
    );
}

#[test]
fn operands_one_at_a_time() {
    let mut parser = Parser::new("3 + 4");
    assert_eq!(parser.parse_primary_expression(), leaf(3));
    assert_eq!(parser.parse_primary_expression(), missing());
    assert_eq!(parser.parse_primary_expression(), leaf(4));
    assert!(parser.diagnostics().is_empty());
    assert_eq!(parser.parse_primary_expression(), missing());
    assert_eq!(parser.diagnostics().len(), 1);
}

#[test]
fn parser_error_message() {
    let error = ParserError::UnexpectedToken {
        position: 17,
        found: Token::Plus,
        expected: Token::Number(None),
    };
    assert_eq!(
        error.message(),
        "Unexpected Plus found at position: 17. Expected integer"
    );
    let error = ParserError::UnexpectedToken {
        position: 0,
        found: Token::EndOfFileToken,
        expected: Token::CloseParenthesis,
    };
    assert_eq!(
        error.message(),
        "Unexpected EOF found at position: 0. Expected CloseParenthesis"
    );
}

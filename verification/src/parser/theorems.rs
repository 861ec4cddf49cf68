//! What holds of every tree that the parser builds.

use vstd::prelude::*;
use crate::analysis::tokens::{SyntaxToken, Token};
use crate::parser::ast::Syntax;
use crate::parser::parser::{
    fold_errors, fold_from, is_additive, is_parse_result, parse_errors, primary_at, tree_from,
};

verus! {

/// Folding keeps a tree well formed and leaning to the left.
pub proof fn lemma_fold_keeps_shape(left: Syntax, tokens: Seq<SyntaxToken>, at: int)
    requires
        left.well_formed(),
        left.left_leaning(),
    ensures
        fold_from(left, tokens, at).well_formed(),
        fold_from(left, tokens, at).left_leaning(),
    decreases tokens.len() + 1 - at,
{
    if 0 <= at < tokens.len() {
        if is_additive(tokens[at].token_type) {
            let grown = Syntax::BinaryExpression {
                left: Box::new(left),
                op: tokens[at].token_type,
                right: Box::new(primary_at(tokens, at + 1)),
            };
            assert(primary_at(tokens, at + 1).well_formed());
            assert(grown.well_formed());
            assert(grown.left_leaning());
            lemma_fold_keeps_shape(grown, tokens, at + 2);
        } else {
            lemma_fold_keeps_shape(left, tokens, at + 1);
        }
    }
}

/// Every tree that the parser builds is well formed: its operators are
/// `+` and `-`, its leaves hold number tokens, and the right operand
/// of every operator is a leaf.
pub proof fn theorem_tree_shape(tokens: Seq<SyntaxToken>, at: int)
    ensures
        tree_from(tokens, at).well_formed(),
        tree_from(tokens, at).left_leaning(),
{
    assert(primary_at(tokens, at).well_formed());
    assert(primary_at(tokens, at).left_leaning());
    lemma_fold_keeps_shape(primary_at(tokens, at), tokens, at + 1);
}

/// An operator and a number behind tokens that do not end in an
/// operator take the tree of those tokens as their left operand.
pub proof fn lemma_fold_extends(
    left: Syntax,
    tokens: Seq<SyntaxToken>,
    at: int,
    operator: SyntaxToken,
    number: SyntaxToken,
)
    requires
        1 <= at <= tokens.len(),
        !is_additive(tokens.last().token_type),
        is_additive(operator.token_type),
        number.token_type is Number,
    ensures
        fold_from(left, tokens.push(operator).push(number), at) == (Syntax::BinaryExpression {
            left: Box::new(fold_from(left, tokens, at)),
            op: operator.token_type,
            right: Box::new(Syntax::NumberExpression { value: number.token_type }),
        }),
    decreases tokens.len() - at,
{
    let longer = tokens.push(operator).push(number);
    if at == tokens.len() {
        let grown = Syntax::BinaryExpression {
            left: Box::new(left),
            op: operator.token_type,
            right: Box::new(primary_at(longer, at + 1)),
        };
        assert(longer[at] == operator);
        assert(longer[at + 1] == number);
        assert(fold_from(grown, longer, at + 2) == grown);
    } else {
        assert(longer[at] == tokens[at]);
        if is_additive(tokens[at].token_type) {
            assert(tokens[at] != tokens.last());
            assert(longer[at + 1] == tokens[at + 1]);
            let grown = Syntax::BinaryExpression {
                left: Box::new(left),
                op: tokens[at].token_type,
                right: Box::new(primary_at(tokens, at + 1)),
            };
            lemma_fold_extends(grown, tokens, at + 2, operator, number);
        } else {
            lemma_fold_extends(left, tokens, at + 1, operator, number);
        }
    }
}

/// Operators group to the left: an operator and a number behind
/// tokens that do not end in an operator give the tree of those tokens
/// as the left operand and the number as the right.
pub proof fn theorem_operators_group_left(
    tokens: Seq<SyntaxToken>,
    operator: SyntaxToken,
    number: SyntaxToken,
)
    requires
        tokens.len() > 0,
        !is_additive(tokens.last().token_type),
        is_additive(operator.token_type),
        number.token_type is Number,
    ensures
        tree_from(tokens.push(operator).push(number), 0) == (Syntax::BinaryExpression {
            left: Box::new(tree_from(tokens, 0)),
            op: operator.token_type,
            right: Box::new(Syntax::NumberExpression { value: number.token_type }),
        }),
{
    let longer = tokens.push(operator).push(number);
    assert(longer[0] == tokens[0]);
    lemma_fold_extends(primary_at(tokens, 0), tokens, 1, operator, number);
}

/// The errors of folding are at most one: only an operator at the very
/// end lacks its operand.
pub proof fn lemma_fold_errors_are_few(tokens: Seq<SyntaxToken>, at: int, text: Seq<char>)
    ensures
        fold_errors(tokens, at, text).len() <= 1,
        fold_errors(tokens, at, text).len() == 1 ==> 0 <= at < tokens.len(),
    decreases tokens.len() + 1 - at,
{
    if 0 <= at < tokens.len() {
        if is_additive(tokens[at].token_type) {
            lemma_fold_errors_are_few(tokens, at + 2, text);
        } else {
            lemma_fold_errors_are_few(tokens, at + 1, text);
        }
    }
}

/// A pass of the parser records at most one error, and records one
/// whenever there is no token at all.
pub proof fn theorem_parse_errors_are_few(tokens: Seq<SyntaxToken>, text: Seq<char>)
    ensures
        parse_errors(tokens, 0, text).len() <= 1,
        tokens.len() == 0 ==> parse_errors(tokens, 0, text).len() == 1,
{
    lemma_fold_errors_are_few(tokens, 1, text);
}

/// Parsing depends on the text alone: two passes over one text give
/// the same tree and the same diagnostics.
pub proof fn theorem_parse_repeats(
    text: Seq<char>,
    first: (Syntax, Vec<String>),
    second: (Syntax, Vec<String>),
)
    requires
        is_parse_result(text, first),
        is_parse_result(text, second),
    ensures
        first.0 == second.0,
        first.1.deep_view() == second.1.deep_view(),
{
}

} // verus!

//! What holds of every pass of the lexer.

use vstd::prelude::*;
use crate::analysis::decimal::{all_digits, decimal_value};
use crate::analysis::lexer::{
    errors_from, lemma_run_end, lemma_token_end, run_end, token_at, token_end, tokens_from,
};
use crate::analysis::symbols::{class_of, is_decimal_digit, operator_of, CharClass};
use crate::analysis::tokens::{SyntaxToken, Token};
use crate::analysis::{
    diagnostics_of, is_tokenize_result, messages_of, tokens_of, LexerError, LexerTokenStream,
};

verus! {

/// Whether every character of `text` is a blank.
pub open spec fn all_blank(text: Seq<char>) -> bool {
    forall|i: int| 0 <= i < text.len() ==> class_of(#[trigger] text[i]) == CharClass::Whitespace
}

/// A run that reaches the end of the text ends there.
pub proof fn lemma_run_to_the_end(text: Seq<char>, from: int, class: CharClass)
    requires
        0 <= from <= text.len(),
        forall|i: int| from <= i < text.len() ==> class_of(#[trigger] text[i]) == class,
    ensures
        run_end(text, from, class) == text.len(),
{
    lemma_run_end(text, from, class);
}

/// A pass that starts at the end of the text reads nothing.
pub proof fn lemma_nothing_at_the_end(text: Seq<char>)
    ensures
        tokens_from(text, text.len() as int) == Seq::<SyntaxToken>::empty(),
        errors_from(text, text.len() as int) == Seq::<LexerError>::empty(),
{
}

/// A text of decimal digits whose number fits in an `i32` gives that
/// number as its only token, placed behind the first digit, and no
/// diagnostic.
pub proof fn theorem_digits_give_one_number(text: Seq<char>)
    requires
        text.len() > 0,
        all_digits(text),
        decimal_value(text) <= i32::MAX,
    ensures
        tokens_of(text) == seq![
            SyntaxToken { token_type: Token::Number(Some(decimal_value(text) as i32)), position: 1 },
        ],
        diagnostics_of(text) == Seq::<Seq<char>>::empty(),
{
    assert(is_decimal_digit(text[0]));
    assert forall|i: int| 1 <= i < text.len() implies class_of(#[trigger] text[i])
        == CharClass::Digit by {
        assert(is_decimal_digit(text[i]));
    }
    lemma_run_to_the_end(text, 1, CharClass::Digit);
    assert(text.subrange(0, text.len() as int) =~= text);
    let number = SyntaxToken {
        token_type: Token::Number(Some(decimal_value(text) as i32)),
        position: 1,
    };
    assert(token_at(text, 0) == Ok::<SyntaxToken, LexerError>(number));
    lemma_nothing_at_the_end(text);
    assert(tokens_from(text, 0) =~= seq![number]);
    assert(diagnostics_of(text) =~= Seq::<Seq<char>>::empty());
}

/// A text of blanks gives no token and no diagnostic.
pub proof fn theorem_blanks_give_nothing(text: Seq<char>)
    requires
        all_blank(text),
    ensures
        tokens_of(text) == Seq::<SyntaxToken>::empty(),
        diagnostics_of(text) == Seq::<Seq<char>>::empty(),
{
    if text.len() > 0 {
        assert(class_of(text[0]) == CharClass::Whitespace);
        lemma_run_to_the_end(text, 1, CharClass::Whitespace);
    }
    lemma_nothing_at_the_end(text);
    assert(tokens_from(text, 0) =~= Seq::<SyntaxToken>::empty());
    assert(diagnostics_of(text) =~= Seq::<Seq<char>>::empty());
}

/// Whether a token must start at `pos`: at the start of the text, at a
/// symbol, and wherever the class of the characters changes.
pub open spec fn starts_token(text: Seq<char>, pos: int) -> bool {
    &&& 0 <= pos < text.len()
    &&& (pos == 0 || class_of(text[pos]) == CharClass::Symbol || class_of(text[pos - 1])
        != class_of(text[pos]))
}

/// Whether a pass that starts at `from` reads a token that starts at
/// `pos`.
pub open spec fn reads_at(text: Seq<char>, from: int, pos: int) -> bool
    decreases text.len() - from,
{
    if from == pos {
        true
    } else if 0 <= from < pos && from < text.len() {
        proof {
            lemma_token_end(text, from);
        }
        reads_at(text, token_end(text, from), pos)
    } else {
        false
    }
}

/// A pass reads a token wherever one must start.
pub proof fn lemma_pass_reaches(text: Seq<char>, from: int, pos: int)
    requires
        0 <= from <= pos,
        starts_token(text, pos),
    ensures
        reads_at(text, from, pos),
    decreases pos - from,
{
    if from < pos {
        let class = class_of(text[from]);
        let end = token_end(text, from);
        lemma_token_end(text, from);
        lemma_run_end(text, from + 1, class);
        if class != CharClass::Symbol && end > pos {
            assert(class_of(text[pos]) == class);
            if pos - 1 > from {
                assert(class_of(text[pos - 1]) == class);
            }
        }
        lemma_pass_reaches(text, end, pos);
    }
}

/// What a pass reads, it keeps: a token that is no blank is among its
/// tokens, an error among its errors.
pub proof fn lemma_read_is_kept(text: Seq<char>, from: int, pos: int)
    requires
        0 <= from,
        pos < text.len(),
        reads_at(text, from, pos),
    ensures
        match token_at(text, pos) {
            Ok(token) => token.token_type is WhitespaceToken || tokens_from(text, from).contains(
                token,
            ),
            Err(error) => errors_from(text, from).contains(error),
        },
    decreases text.len() - from,
{
    let tokens = tokens_from(text, from);
    let errors = errors_from(text, from);
    if from == pos {
        match token_at(text, pos) {
            Ok(token) => {
                if !(token.token_type is WhitespaceToken) {
                    assert(tokens[0] == token);
                }
            },
            Err(error) => {
                assert(errors[0] == error);
            },
        }
    } else {
        lemma_token_end(text, from);
        let end = token_end(text, from);
        lemma_read_is_kept(text, end, pos);
        let later_tokens = tokens_from(text, end);
        let later_errors = errors_from(text, end);
        match token_at(text, pos) {
            Ok(token) => {
                if !(token.token_type is WhitespaceToken) {
                    let i = choose|i: int|
                        0 <= i < later_tokens.len() && later_tokens[i] == token;
                    if tokens.len() == later_tokens.len() {
                        assert(tokens =~= later_tokens);
                    } else {
                        assert(tokens[i + 1] == token);
                    }
                }
            },
            Err(error) => {
                let i = choose|i: int| 0 <= i < later_errors.len() && later_errors[i] == error;
                if errors.len() == later_errors.len() {
                    assert(errors =~= later_errors);
                } else {
                    assert(errors[i + 1] == error);
                }
            },
        }
    }
}

/// Every token that a pass keeps is placed behind the start of the
/// pass and inside the text.
pub proof fn lemma_tokens_lie_ahead(text: Seq<char>, from: int)
    requires
        0 <= from <= text.len(),
        text.len() <= usize::MAX,
    ensures
        forall|i: int|
            0 <= i < tokens_from(text, from).len() ==> from < (#[trigger] tokens_from(
                text,
                from,
            )[i]).position <= text.len(),
    decreases text.len() - from,
{
    if from < text.len() {
        lemma_token_end(text, from);
        let end = token_end(text, from);
        lemma_tokens_lie_ahead(text, end);
        let tokens = tokens_from(text, from);
        let later = tokens_from(text, end);
        assert forall|i: int| 0 <= i < tokens.len() implies from < (#[trigger] tokens[i]).position
            <= text.len() by {
            if tokens.len() == later.len() {
                assert(tokens =~= later);
                assert(tokens[i] == later[i]);
            } else if i > 0 {
                assert(tokens[i] == later[i - 1]);
            }
        }
    }
}

/// The tokens that a pass keeps stand in the order of the text: each
/// is placed behind the one before it.
pub proof fn theorem_tokens_in_order(text: Seq<char>, from: int)
    requires
        0 <= from <= text.len(),
        text.len() <= usize::MAX,
    ensures
        forall|i: int, j: int|
            0 <= i < j < tokens_from(text, from).len() ==> (#[trigger] tokens_from(
                text,
                from,
            )[i]).position < (#[trigger] tokens_from(text, from)[j]).position,
    decreases text.len() - from,
{
    if from < text.len() {
        lemma_token_end(text, from);
        let end = token_end(text, from);
        theorem_tokens_in_order(text, end);
        lemma_tokens_lie_ahead(text, end);
        let tokens = tokens_from(text, from);
        let later = tokens_from(text, end);
        assert forall|i: int, j: int| 0 <= i < j < tokens.len() implies (#[trigger] tokens[i]).position
            < (#[trigger] tokens[j]).position by {
            if tokens.len() == later.len() {
                assert(tokens =~= later);
                assert(tokens[i] == later[i] && tokens[j] == later[j]);
            } else {
                assert(tokens[j] == later[j - 1]);
                if i > 0 {
                    assert(tokens[i] == later[i - 1]);
                }
            }
        }
    }
}

/// A pass keeps no blank and no end-of-file token, and every number
/// that it keeps carries its value.
pub proof fn theorem_tokens_are_clean(text: Seq<char>, from: int)
    requires
        0 <= from <= text.len(),
    ensures
        forall|i: int|
            0 <= i < tokens_from(text, from).len() ==> {
                let token = (#[trigger] tokens_from(text, from)[i]).token_type;
                &&& !(token is WhitespaceToken)
                &&& !(token is EndOfFileToken)
                &&& token != Token::Number(None)
            },
    decreases text.len() - from,
{
    if from < text.len() {
        lemma_token_end(text, from);
        let end = token_end(text, from);
        theorem_tokens_are_clean(text, end);
        let tokens = tokens_from(text, from);
        let later = tokens_from(text, end);
        assert forall|i: int| 0 <= i < tokens.len() implies {
            let token = (#[trigger] tokens[i]).token_type;
            &&& !(token is WhitespaceToken)
            &&& !(token is EndOfFileToken)
            &&& token != Token::Number(None)
        } by {
            if tokens.len() == later.len() {
                assert(tokens =~= later);
                assert(tokens[i] == later[i]);
            } else if i > 0 {
                assert(tokens[i] == later[i - 1]);
            }
        }
    }
}

/// Where a pass reads an error, it keeps no token for what it read:
/// none of its tokens is placed where a token read at `pos` would be.
pub proof fn lemma_error_leaves_no_token(text: Seq<char>, from: int, pos: int)
    requires
        0 <= from,
        pos < text.len() <= usize::MAX,
        reads_at(text, from, pos),
        token_at(text, pos) is Err,
    ensures
        forall|i: int|
            0 <= i < tokens_from(text, from).len() ==> (#[trigger] tokens_from(
                text,
                from,
            )[i]).position != pos + 1,
    decreases text.len() - from,
{
    lemma_token_end(text, pos);
    let tokens = tokens_from(text, from);
    if from == pos {
        lemma_tokens_lie_ahead(text, token_end(text, pos));
    } else {
        lemma_token_end(text, from);
        let end = token_end(text, from);
        lemma_error_leaves_no_token(text, end, pos);
        let later = tokens_from(text, end);
        assert forall|i: int| 0 <= i < tokens.len() implies (#[trigger] tokens[i]).position != pos
            + 1 by {
            if tokens.len() == later.len() {
                assert(tokens =~= later);
                assert(tokens[i] == later[i]);
            } else if i > 0 {
                assert(tokens[i] == later[i - 1]);
            }
        }
    }
}

/// Nothing is lost: wherever a token must start, a whole pass reads
/// it; if it is no blank the pass keeps it, and if it is an error the
/// pass records it.
pub proof fn theorem_nothing_is_lost(text: Seq<char>, pos: int)
    requires
        starts_token(text, pos),
    ensures
        match token_at(text, pos) {
            Ok(token) => token.token_type is WhitespaceToken || tokens_of(text).contains(token),
            Err(error) => {
                &&& errors_from(text, 0).contains(error)
                &&& diagnostics_of(text).contains(error.message_text())
            },
        },
{
    lemma_pass_reaches(text, 0, pos);
    lemma_read_is_kept(text, 0, pos);
    if let Err(error) = token_at(text, pos) {
        let errors = errors_from(text, 0);
        let i = choose|i: int| 0 <= i < errors.len() && errors[i] == error;
        assert(messages_of(errors)[i] == error.message_text());
    }
}

/// A maximal run of digits whose number is beyond `i32::MAX` is
/// reported at its end, and no token is kept for it.
pub proof fn theorem_overflow_is_reported(text: Seq<char>, start: int, end: int)
    requires
        0 <= start < end <= text.len() <= usize::MAX,
        forall|i: int| start <= i < end ==> is_decimal_digit(#[trigger] text[i]),
        start == 0 || !is_decimal_digit(text[start - 1]),
        end == text.len() || !is_decimal_digit(text[end]),
        decimal_value(text.subrange(start, end)) > i32::MAX,
    ensures
        errors_from(text, 0).contains(LexerError::ParseIntegerError { position: end as usize }),
        diagnostics_of(text).contains(
            (LexerError::ParseIntegerError { position: end as usize }).message_text(),
        ),
        forall|i: int|
            0 <= i < tokens_of(text).len() ==> (#[trigger] tokens_of(text)[i]).position != start
                + 1,
{
    assert(is_decimal_digit(text[start]));
    lemma_run_end(text, start + 1, CharClass::Digit);
    let reached = run_end(text, start + 1, CharClass::Digit);
    if reached < end {
        assert(is_decimal_digit(text[reached]));
    }
    if reached > end {
        assert(class_of(text[end]) == CharClass::Digit);
    }
    assert(token_end(text, start) == end);
    theorem_nothing_is_lost(text, start);
    lemma_pass_reaches(text, 0, start);
    lemma_error_leaves_no_token(text, 0, start);
}

/// A character outside the alphabet is reported behind itself, and no
/// token is kept for it.
pub proof fn theorem_stranger_is_reported(text: Seq<char>, pos: int)
    requires
        0 <= pos < text.len() <= usize::MAX,
        class_of(text[pos]) == CharClass::Symbol,
        operator_of(text[pos]) is None,
    ensures
        errors_from(text, 0).contains(LexerError::InvalidToken { position: (pos + 1) as usize }),
        diagnostics_of(text).contains(
            (LexerError::InvalidToken { position: (pos + 1) as usize }).message_text(),
        ),
        forall|i: int|
            0 <= i < tokens_of(text).len() ==> (#[trigger] tokens_of(text)[i]).position != pos + 1,
{
    theorem_nothing_is_lost(text, pos);
    lemma_pass_reaches(text, 0, pos);
    lemma_error_leaves_no_token(text, 0, pos);
}

/// Lexing depends on the text alone: two passes over one text give the
/// same tokens and the same diagnostics.
pub proof fn theorem_tokenize_repeats(
    text: Seq<char>,
    first: LexerTokenStream,
    second: LexerTokenStream,
)
    requires
        is_tokenize_result(text, first),
        is_tokenize_result(text, second),
    ensures
        first.0@ == second.0@,
        first.1.deep_view() == second.1.deep_view(),
{
}

/// Whether `text` begins with `head`.
pub open spec fn begins_with(text: Seq<char>, head: Seq<char>) -> bool {
    head.len() <= text.len() && text.subrange(0, head.len() as int) == head
}

/// The diagnostic of an error names its kind first: `Invalid integer`
/// for a number that does not fit, `Invalid token` for a character
/// outside the alphabet.
pub proof fn theorem_message_names_the_error(error: LexerError)
    ensures
        match error {
            LexerError::ParseIntegerError { .. } => begins_with(
                error.message_text(),
                "Invalid integer"@,
            ),
            LexerError::InvalidToken { .. } => begins_with(error.message_text(), "Invalid token"@),
        },
{
    reveal_strlit("Invalid integer at position: ");
    reveal_strlit("Invalid integer");
    reveal_strlit("Invalid token at position: ");
    reveal_strlit("Invalid token");
    match error {
        LexerError::ParseIntegerError { .. } => {
            assert(error.message_text().subrange(0, 15) =~= "Invalid integer"@);
        },
        LexerError::InvalidToken { .. } => {
            assert(error.message_text().subrange(0, 13) =~= "Invalid token"@);
        },
    }
}

} // verus!

//! The alphabet of an arithmetic line: which characters are digits,
//! which are blanks, and which spell an operator.

use vstd::prelude::*;
use vstd::std_specs::iter::IteratorSpec;
use vstd::string::*;
use crate::analysis::tokens::Token;

verus! {

pub const PLUS: char = '+';
pub const MINUS: char = '-';
pub const STAR: char = '*';
pub const FORWARD_SLASH: char = '/';
pub const OPEN_PARANTHESIS: char = '(';
pub const CLOSE_PARANTHESIS: char = ')';

/// The three ways in which the lexer treats a character.
#[derive(Debug, PartialEq, Eq, Clone, Copy, Structural)]
pub enum CharClass {
    /// One of `0` to `9`.
    Digit,
    /// A blank that is no digit.
    Whitespace,
    /// Anything else: an operator, a parenthesis or a stranger.
    Symbol,
}

/// Whether `c` is one of the ten decimal digits.
pub open spec fn is_decimal_digit(c: char) -> bool {
    '0' <= c && c <= '9'
}

/// What `char::is_whitespace` answers for `c`: whether `c` has the
/// Unicode property White_Space.
pub uninterp spec fn is_whitespace_char(c: char) -> bool;

/// The class of `c`. A digit is a digit whatever else it may be.
pub open spec fn class_of(c: char) -> CharClass {
    if is_decimal_digit(c) {
        CharClass::Digit
    } else if is_whitespace_char(c) {
        CharClass::Whitespace
    } else {
        CharClass::Symbol
    }
}

/// The token that a symbol spells, if it spells one.
pub open spec fn operator_of(c: char) -> Option<Token> {
    if c == PLUS {
        Some(Token::Plus)
    } else if c == MINUS {
        Some(Token::Minus)
    } else if c == STAR {
        Some(Token::Star)
    } else if c == FORWARD_SLASH {
        Some(Token::ForwardSlash)
    } else if c == OPEN_PARANTHESIS {
        Some(Token::OpenParenthesis)
    } else if c == CLOSE_PARANTHESIS {
        Some(Token::CloseParenthesis)
    } else {
        None
    }
}

/// The number that the digit `c` stands for.
pub open spec fn digit_value(c: char) -> nat
    recommends
        is_decimal_digit(c),
{
    (c as u32 - '0' as u32) as nat
}

/// Trusted: calls `char::is_whitespace` of the standard library. Its
/// answer depends on the character alone and is named, not spelled out.
#[verifier::external_body]
fn char_is_whitespace(c: char) -> (answer: bool)
    ensures
        answer == is_whitespace_char(c),
{
    c.is_whitespace()
}

/// Whether `c` is one of the ten decimal digits.
pub fn is_digit(c: char) -> (answer: bool)
    ensures
        answer == is_decimal_digit(c),
{
    '0' <= c && c <= '9'
}

/// Sorts `c` into its class.
pub fn classify(c: char) -> (class: CharClass)
    ensures
        class == class_of(c),
{
    if is_digit(c) {
        CharClass::Digit
    } else if char_is_whitespace(c) {
        CharClass::Whitespace
    } else {
        CharClass::Symbol
    }
}

/// The number that the digit `c` stands for.
pub fn digit_to_number(c: char) -> (value: u32)
    requires
        is_decimal_digit(c),
    ensures
        value == digit_value(c),
        value <= 9,
{
    c as u32 - '0' as u32
}

/// The characters of `text`, in order.
pub fn chars_of(text: &str) -> (chars: Vec<char>)
    ensures
        chars@ == text@,
{
    broadcast use group_string_axioms;

    let mut chars: Vec<char> = Vec::new();
    let mut rest = text.chars();
    loop
        invariant
            rest.obeys_prophetic_iter_laws(),
            rest.decrease() is Some,
            chars@ + rest.remaining() == text@,
        ensures
            chars@ == text@,
        decreases rest.decrease()->0,
    {
        match rest.next() {
            Some(c) => {
                chars.push(c);
                assert(chars@ + rest.remaining() =~= text@);
            },
            None => {
                assert(chars@ =~= text@);
                break ;
            },
        }
    }
    chars
}

} // verus!

//! The lexical units of an arithmetic line and their place in the text.

use vstd::prelude::*;

verus! {

/// One lexical unit.
#[derive(Debug, PartialEq, Eq, Clone, Copy)]
pub enum Token {
    /// A run of decimal digits; `None` stands for a number that could not
    /// be read.
    Number(Option<i32>),
    /// The end of the text.
    EndOfFileToken,
    /// A run of whitespace.
    WhitespaceToken,
    /// `+`
    Plus,
    /// `-`
    Minus,
    /// `*`
    Star,
    /// `/`
    ForwardSlash,
    /// `(`
    OpenParenthesis,
    /// `)`
    CloseParenthesis,
}

impl Token {
    /// How a diagnostic names this token: a number is an `integer`, the
    /// end of the text is `EOF`, every other token goes by its own name.
    pub open spec fn name_text(self) -> Seq<char> {
        match self {
            Token::Number(_) => "integer"@,
            Token::EndOfFileToken => "EOF"@,
            Token::WhitespaceToken => "WhitespaceToken"@,
            Token::Plus => "Plus"@,
            Token::Minus => "Minus"@,
            Token::Star => "Star"@,
            Token::ForwardSlash => "ForwardSlash"@,
            Token::OpenParenthesis => "OpenParenthesis"@,
            Token::CloseParenthesis => "CloseParenthesis"@,
        }
    }

    /// The name of this token as a diagnostic shows it.
    pub fn name(&self) -> (text: &'static str)
        ensures
            text@ == self.name_text(),
    {
        match self {
            Token::Number(_) => "integer",
            Token::EndOfFileToken => "EOF",
            Token::WhitespaceToken => "WhitespaceToken",
            Token::Plus => "Plus",
            Token::Minus => "Minus",
            Token::Star => "Star",
            Token::ForwardSlash => "ForwardSlash",
            Token::OpenParenthesis => "OpenParenthesis",
            Token::CloseParenthesis => "CloseParenthesis",
        }
    }
}

/// A token together with the position the lexer reported for it.
#[derive(Debug, PartialEq, Eq, Clone, Copy)]
pub struct SyntaxToken {
    pub token_type: Token,
    pub position: usize,
}

impl SyntaxToken {
    /// A token of the given kind at the given position.
    pub fn new(token_type: Token, position: usize) -> (token: Self)
        ensures
            token == (SyntaxToken { token_type, position }),
    {
        SyntaxToken { token_type, position }
    }

    /// The end-of-text token at `position`.
    pub fn end_of_file(position: usize) -> (token: Self)
        ensures
            token == (SyntaxToken { token_type: Token::EndOfFileToken, position }),
    {
        Self::new(Token::EndOfFileToken, position)
    }

    /// The whitespace token at `position`.
    pub fn whitespace(position: usize) -> (token: Self)
        ensures
            token == (SyntaxToken { token_type: Token::WhitespaceToken, position }),
    {
        Self::new(Token::WhitespaceToken, position)
    }

    /// The number token that carries `value`, at `position`.
    pub fn digit(value: i32, position: usize) -> (token: Self)
        ensures
            token == (SyntaxToken { token_type: Token::Number(Some(value)), position }),
    {
        Self::new(Token::Number(Some(value)), position)
    }

    /// A token for an operator or a parenthesis, at `position`.
    pub fn operator(token_type: Token, position: usize) -> (token: Self)
        ensures
            token == (SyntaxToken { token_type, position }),
    {
        SyntaxToken { token_type, position }
    }
}

} // verus!

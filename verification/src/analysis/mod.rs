//! Tokens, lexical errors and the lexer that produces them.

pub mod decimal;
pub mod lexer;
pub mod symbols;
pub mod theorems;
pub mod tokens;

pub use self::lexer::{errors_from, tokens_from, Lexer};
pub use self::tokens::{SyntaxToken, Token};

use vstd::prelude::*;
use vstd::string::*;
use self::decimal::{decimal_string, decimal_text};

verus! {

/// What can go wrong while one token is read.
#[derive(Debug, PartialEq, Eq, Clone, Copy)]
pub enum LexerError {
    /// A run of digits denotes a number beyond `i32::MAX`; `position`
    /// counts the characters up to the end of the run.
    ParseIntegerError { position: usize },
    /// A character outside the alphabet; `position` counts the
    /// characters up to and including it.
    InvalidToken { position: usize },
}

impl LexerError {
    /// The diagnostic that reports this error.
    pub open spec fn message_text(self) -> Seq<char> {
        match self {
            LexerError::ParseIntegerError { position } => "Invalid integer at position: "@
                + decimal_text(position as nat),
            LexerError::InvalidToken { position } => "Invalid token at position: "@
                + decimal_text(position as nat),
        }
    }

    /// Renders the diagnostic that reports this error.
    pub fn message(&self) -> (text: String)
        ensures
            text@ == self.message_text(),
    {
        match self {
            LexerError::ParseIntegerError { position } => {
                let mut text = String::from_str("Invalid integer at position: ");
                text.append(decimal_string(*position).as_str());
                text
            },
            LexerError::InvalidToken { position } => {
                let mut text = String::from_str("Invalid token at position: ");
                text.append(decimal_string(*position).as_str());
                text
            },
        }
    }
}

/// What a whole pass of the lexer gives: the tokens it kept and the
/// diagnostics it recorded.
pub type LexerTokenStream = (Vec<SyntaxToken>, Vec<String>);

/// The diagnostics that report `errors`, in the same order.
pub open spec fn messages_of(errors: Seq<LexerError>) -> Seq<Seq<char>> {
    Seq::new(errors.len(), |i: int| errors[i].message_text())
}

/// The tokens of `text`: what a whole pass of the lexer keeps.
pub open spec fn tokens_of(text: Seq<char>) -> Seq<SyntaxToken> {
    tokens_from(text, 0)
}

/// The diagnostics of `text`: what a whole pass of the lexer records.
pub open spec fn diagnostics_of(text: Seq<char>) -> Seq<Seq<char>> {
    messages_of(errors_from(text, 0))
}

/// Whether `stream` is what lexing `text` gives.
pub open spec fn is_tokenize_result(text: Seq<char>, stream: LexerTokenStream) -> bool {
    &&& stream.0@ == tokens_of(text)
    &&& stream.1.deep_view() == diagnostics_of(text)
}

/// Lexes `text` from start to end. Gives its tokens, without blanks,
/// and its diagnostics.
pub fn tokenize(text: &str) -> (stream: LexerTokenStream)
    ensures
        is_tokenize_result(text@, stream),
{
    let mut lexer = Lexer::new(text);
    lexer.lex()
}

/// Recording one more diagnostic appends its text to the texts
/// recorded before.
pub proof fn lemma_record(before: Vec<String>, after: Vec<String>, added: String)
    requires
        after@ == before@.push(added),
    ensures
        after.deep_view() == before.deep_view().push(added@),
{
    assert forall|i: int| 0 <= i < after@.len() implies after.deep_view()[i]
        == before.deep_view().push(added@)[i] by {
        if i < before@.len() {
            assert(after@[i] == before@[i]);
        }
    }
    assert(after.deep_view() =~= before.deep_view().push(added@));
}

} // verus!

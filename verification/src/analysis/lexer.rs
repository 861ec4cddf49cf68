//! The lexer: a cursor over the characters of one line.

use vstd::prelude::*;
use crate::analysis::{lemma_record, messages_of, LexerError, LexerTokenStream};
use crate::analysis::decimal::decimal_value;
use crate::analysis::symbols::{
    chars_of, classify, class_of, digit_to_number, is_digit, operator_of, CharClass, CLOSE_PARANTHESIS,
    FORWARD_SLASH, MINUS, OPEN_PARANTHESIS, PLUS, STAR,
};
use crate::analysis::tokens::{SyntaxToken, Token};

verus! {

/// Where the run of characters of one class that starts at `from` ends:
/// the first position at or after `from` that holds a character of
/// another class, or the end of the text.
pub open spec fn run_end(text: Seq<char>, from: int, class: CharClass) -> int
    decreases text.len() - from,
{
    if 0 <= from < text.len() && class_of(text[from]) == class {
        run_end(text, from + 1, class)
    } else {
        from
    }
}

/// Where the token that starts at `pos` ends. At the end of the text
/// nothing is read.
pub open spec fn token_end(text: Seq<char>, pos: int) -> int {
    if 0 <= pos < text.len() {
        match class_of(text[pos]) {
            CharClass::Digit => run_end(text, pos + 1, CharClass::Digit),
            CharClass::Whitespace => run_end(text, pos + 1, CharClass::Whitespace),
            CharClass::Symbol => pos + 1,
        }
    } else {
        pos
    }
}

/// What reading one token at `pos` gives.
///
/// A number is placed behind its first digit, a run of blanks at its
/// end, a symbol behind itself; an error is placed at the end of what
/// was read.
pub open spec fn token_at(text: Seq<char>, pos: int) -> Result<SyntaxToken, LexerError> {
    if 0 <= pos < text.len() {
        let end = token_end(text, pos);
        match class_of(text[pos]) {
            CharClass::Digit => {
                let value = decimal_value(text.subrange(pos, end));
                if value <= i32::MAX {
                    Ok(
                        SyntaxToken {
                            token_type: Token::Number(Some(value as i32)),
                            position: (pos + 1) as usize,
                        },
                    )
                } else {
                    Err(LexerError::ParseIntegerError { position: end as usize })
                }
            },
            CharClass::Whitespace => Ok(
                SyntaxToken { token_type: Token::WhitespaceToken, position: end as usize },
            ),
            CharClass::Symbol => match operator_of(text[pos]) {
                Some(token_type) => Ok(SyntaxToken { token_type, position: end as usize }),
                None => Err(LexerError::InvalidToken { position: end as usize }),
            },
        }
    } else {
        Ok(SyntaxToken { token_type: Token::EndOfFileToken, position: pos as usize })
    }
}

/// The tokens that a pass from `pos` to the end of the text keeps, in
/// the order of the text: every token read but the blanks.
pub open spec fn tokens_from(text: Seq<char>, pos: int) -> Seq<SyntaxToken>
    decreases text.len() - pos,
{
    if 0 <= pos < text.len() {
        proof {
            lemma_token_end(text, pos);
        }
        let rest = tokens_from(text, token_end(text, pos));
        match token_at(text, pos) {
            Ok(token) => if token.token_type is WhitespaceToken {
                rest
            } else {
                seq![token] + rest
            },
            Err(_) => rest,
        }
    } else {
        Seq::empty()
    }
}

/// The errors that a pass from `pos` to the end of the text meets, in
/// the order of the text.
pub open spec fn errors_from(text: Seq<char>, pos: int) -> Seq<LexerError>
    decreases text.len() - pos,
{
    if 0 <= pos < text.len() {
        proof {
            lemma_token_end(text, pos);
        }
        let rest = errors_from(text, token_end(text, pos));
        match token_at(text, pos) {
            Ok(_) => rest,
            Err(error) => seq![error] + rest,
        }
    } else {
        Seq::empty()
    }
}

/// A run ends at or after its start and inside the text, holds only
/// characters of its class, and cannot be extended.
pub proof fn lemma_run_end(text: Seq<char>, from: int, class: CharClass)
    requires
        0 <= from <= text.len(),
    ensures
        from <= run_end(text, from, class) <= text.len(),
        forall|i: int|
            from <= i < run_end(text, from, class) ==> class_of(#[trigger] text[i]) == class,
        run_end(text, from, class) < text.len() ==> class_of(
            text[run_end(text, from, class)],
        ) != class,
    decreases text.len() - from,
{
    if from < text.len() && class_of(text[from]) == class {
        lemma_run_end(text, from + 1, class);
    }
}

/// Reading a token inside the text moves the cursor forward, and never
/// past the end.
pub proof fn lemma_token_end(text: Seq<char>, pos: int)
    requires
        0 <= pos < text.len(),
    ensures
        pos < token_end(text, pos) <= text.len(),
{
    lemma_run_end(text, pos + 1, CharClass::Digit);
    lemma_run_end(text, pos + 1, CharClass::Whitespace);
}

/// A cursor over the characters of a text. Each call of
/// [`Lexer::lex_token`] reads one token and moves the cursor behind it.
pub struct Lexer {
    text: Vec<char>,
    position: usize,
}

impl Lexer {
    /// The characters of the text, read or not.
    pub closed spec fn text(&self) -> Seq<char> {
        self.text@
    }

    /// How many characters have been read.
    pub closed spec fn position(&self) -> int {
        self.position as int
    }

    /// The cursor stands inside the text or at its end.
    pub closed spec fn wf(&self) -> bool {
        self.position <= self.text.len()
    }

    /// A lexer at the start of `text`.
    pub fn new(text: &str) -> (lexer: Self)
        ensures
            lexer.wf(),
            lexer.text() == text@,
            lexer.position() == 0,
    {
        let chars = chars_of(text);
        Lexer { text: chars, position: 0 }
    }

    /// The next character, if any is left. The cursor stays.
    pub fn peek(&self) -> (next: Option<char>)
        requires
            self.wf(),
        ensures
            next == (if self.position() < self.text().len() {
                Some(self.text()[self.position()])
            } else {
                None
            }),
    {
        if self.position < self.text.len() {
            Some(self.text[self.position])
        } else {
            None
        }
    }

    /// Reads the next character and moves the cursor behind it.
    pub fn next(&mut self) -> (read: Option<char>)
        requires
            old(self).wf(),
            old(self).position() < old(self).text().len(),
        ensures
            final(self).wf(),
            final(self).text() == old(self).text(),
            final(self).position() == old(self).position() + 1,
            read == Some(old(self).text()[old(self).position()]),
    {
        let read = self.text[self.position];
        self.position += 1;
        Some(read)
    }

    /// Reads the run of digits at the cursor and the number it denotes.
    fn lex_digit(&mut self) -> (read: Result<SyntaxToken, LexerError>)
        requires
            old(self).wf(),
            old(self).position() < old(self).text().len(),
            class_of(old(self).text()[old(self).position()]) == CharClass::Digit,
        ensures
            final(self).wf(),
            final(self).text() == old(self).text(),
            final(self).position() == token_end(old(self).text(), old(self).position()),
            read == token_at(old(self).text(), old(self).position()),
    {
        let ghost text = self.text@;
        let ghost first = self.position as int;
        let first_digit = self.next().unwrap();
        let start = self.position;
        // While `fits`, `value` is the number read so far; once the number
        // has passed `i32::MAX` it can only grow.
        let mut value: u64 = digit_to_number(first_digit) as u64;
        let mut fits = true;
        proof {
            assert(text.subrange(first, first + 1).drop_last() =~= Seq::<char>::empty());
            assert(decimal_value(text.subrange(first, first + 1).drop_last()) == 0);
        }
        while self.position < self.text.len() && is_digit(self.text[self.position])
            invariant
                self.text@ == text,
                0 <= first < self.position <= text.len(),
                start == first + 1,
                run_end(text, self.position as int, CharClass::Digit) == run_end(
                    text,
                    first + 1,
                    CharClass::Digit,
                ),
                fits <==> decimal_value(text.subrange(first, self.position as int)) <= i32::MAX,
                fits ==> value == decimal_value(text.subrange(first, self.position as int)),
            decreases text.len() - self.position,
        {
            let ghost at = self.position as int;
            let digit = digit_to_number(self.next().unwrap());
            proof {
                assert(text.subrange(first, at + 1).drop_last() =~= text.subrange(first, at));
                assert(text.subrange(first, at + 1).last() == text[at]);
            }
            if fits {
                value = value * 10 + digit as u64;
                if value > i32::MAX as u64 {
                    fits = false;
                }
            }
        }
        if fits {
            Ok(SyntaxToken::digit(value as i32, start))
        } else {
            Err(LexerError::ParseIntegerError { position: self.position })
        }
    }

    /// Reads the run of blanks at the cursor.
    fn lex_whitespace(&mut self) -> (read: SyntaxToken)
        requires
            old(self).wf(),
            old(self).position() < old(self).text().len(),
            class_of(old(self).text()[old(self).position()]) == CharClass::Whitespace,
        ensures
            final(self).wf(),
            final(self).text() == old(self).text(),
            final(self).position() == token_end(old(self).text(), old(self).position()),
            Ok::<SyntaxToken, LexerError>(read) == token_at(
                old(self).text(),
                old(self).position(),
            ),
    {
        let ghost text = self.text@;
        let ghost first = self.position as int;
        self.next();
        while self.position < self.text.len() && matches!(
            classify(self.text[self.position]),
            CharClass::Whitespace
        )
            invariant
                self.text@ == text,
                0 <= first < self.position <= text.len(),
                run_end(text, self.position as int, CharClass::Whitespace) == run_end(
                    text,
                    first + 1,
                    CharClass::Whitespace,
                ),
            decreases text.len() - self.position,
        {
            self.next();
        }
        SyntaxToken::whitespace(self.position)
    }

    /// Reads the symbol at the cursor.
    fn lex_operators(&mut self) -> (read: Result<SyntaxToken, LexerError>)
        requires
            old(self).wf(),
            old(self).position() < old(self).text().len(),
            class_of(old(self).text()[old(self).position()]) == CharClass::Symbol,
        ensures
            final(self).wf(),
            final(self).text() == old(self).text(),
            final(self).position() == token_end(old(self).text(), old(self).position()),
            read == token_at(old(self).text(), old(self).position()),
    {
        let operator = self.next().unwrap();
        if operator == PLUS {
            Ok(SyntaxToken::operator(Token::Plus, self.position))
        } else if operator == MINUS {
            Ok(SyntaxToken::operator(Token::Minus, self.position))
        } else if operator == STAR {
            Ok(SyntaxToken::operator(Token::Star, self.position))
        } else if operator == FORWARD_SLASH {
            Ok(SyntaxToken::operator(Token::ForwardSlash, self.position))
        } else if operator == OPEN_PARANTHESIS {
            Ok(SyntaxToken::operator(Token::OpenParenthesis, self.position))
        } else if operator == CLOSE_PARANTHESIS {
            Ok(SyntaxToken::operator(Token::CloseParenthesis, self.position))
        } else {
            Err(LexerError::InvalidToken { position: self.position })
        }
    }

    /// Reads one token at the cursor and moves the cursor behind it. At
    /// the end of the text it gives the end-of-file token and stays.
    pub fn lex_token(&mut self) -> (read: Result<SyntaxToken, LexerError>)
        requires
            old(self).wf(),
        ensures
            final(self).wf(),
            final(self).text() == old(self).text(),
            final(self).position() == token_end(old(self).text(), old(self).position()),
            read == token_at(old(self).text(), old(self).position()),
    {
        match self.peek() {
            None => Ok(SyntaxToken::end_of_file(self.position)),
            Some(next) => match classify(next) {
                CharClass::Digit => self.lex_digit(),
                CharClass::Whitespace => Ok(self.lex_whitespace()),
                CharClass::Symbol => self.lex_operators(),
            },
        }
    }

    /// Reads every token from the cursor to the end of the text.
    ///
    /// Gives the tokens without the blanks and without the end-of-file
    /// token, and one diagnostic for each error, both in the order of the
    /// text. No error stops the pass.
    pub fn lex(&mut self) -> (stream: LexerTokenStream)
        requires
            old(self).wf(),
        ensures
            final(self).wf(),
            final(self).text() == old(self).text(),
            final(self).position() == old(self).text().len(),
            stream.0@ == tokens_from(old(self).text(), old(self).position()),
            stream.1.deep_view() == messages_of(
                errors_from(old(self).text(), old(self).position()),
            ),
    {
        let mut v: Vec<SyntaxToken> = Vec::new();
        let mut diagnostics: Vec<String> = Vec::new();
        let ghost text = self.text@;
        let ghost start = self.position as int;
        let ghost errors: Seq<LexerError> = Seq::empty();
        loop
            invariant
                self.wf(),
                self.text@ == text,
                v@ + tokens_from(text, self.position as int) == tokens_from(text, start),
                errors + errors_from(text, self.position as int) == errors_from(text, start),
                diagnostics.deep_view() == messages_of(errors),
            ensures
                self.position == text.len(),
                v@ == tokens_from(text, start),
                diagnostics.deep_view() == messages_of(errors_from(text, start)),
            decreases text.len() - self.position,
        {
            let ghost pos = self.position as int;
            proof {
                if pos < text.len() {
                    lemma_token_end(text, pos);
                }
            }
            match self.lex_token() {
                Ok(a) => {
                    match a.token_type {
                        Token::EndOfFileToken => {
                            assert(v@ + Seq::<SyntaxToken>::empty() =~= v@);
                            assert(errors + Seq::<LexerError>::empty() =~= errors);
                            break ;
                        },
                        Token::WhitespaceToken => {},
                        _ => {
                            v.push(a);
                            assert(v@ + tokens_from(text, self.position as int) =~= tokens_from(
                                text,
                                start,
                            ));
                        },
                    }
                },
                Err(err) => {
                    let ghost recorded = diagnostics;
                    let message = err.message();
                    diagnostics.push(message);
                    proof {
                        let ghost before = errors;
                        errors = errors.push(err);
                        assert(errors + errors_from(text, self.position as int) =~= before
                            + errors_from(text, pos));
                        lemma_record(recorded, diagnostics, message);
                        assert(diagnostics.deep_view() =~= messages_of(errors));
                    }
                },
            }
        }
        (v, diagnostics)
    }
}

} // verus!

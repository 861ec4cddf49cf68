//! A lexer that hands out every token with the text it was read from,
//! blanks and bad characters included.

use vstd::prelude::*;
use vstd::string::*;
use crate::analysis::decimal::decimal_value;
use crate::analysis::lemma_record;
use crate::analysis::lexer::run_end;
use crate::analysis::symbols::{chars_of, class_of, classify, digit_to_number, CharClass};

verus! {

/// The kinds of token that this lexer tells apart.
#[derive(Debug, PartialEq, Eq, Clone, Copy)]
pub enum SyntaxType {
    EndOfFileToken,
    BadToken,
    NumberToken,
    WhitespaceToken,
}

/// What a token stands for.
#[allow(dead_code)]
#[derive(Debug, PartialEq, Eq, Clone, Copy)]
enum TokenValue<'a> {
    Integer(i32),
    String(&'a str),
}

/// A token with the characters it was read from and the index of the
/// first of them.
#[derive(Debug, PartialEq, Eq)]
pub struct SyntaxToken<'a> {
    pub syntax_type: SyntaxType,
    value: Option<TokenValue<'a>>,
    name: String,
    position: usize,
}

impl<'a> SyntaxToken<'a> {
    /// The kind of the token.
    pub closed spec fn kind_view(&self) -> SyntaxType {
        self.syntax_type
    }

    /// The number that the token stands for, if it stands for one.
    pub closed spec fn number_view(&self) -> Option<i32> {
        match self.value {
            Some(TokenValue::Integer(value)) => Some(value),
            _ => None,
        }
    }

    /// The characters that the token was read from.
    pub closed spec fn name_view(&self) -> Seq<char> {
        self.name@
    }

    /// The index of the first character of the token.
    pub closed spec fn position_view(&self) -> int {
        self.position as int
    }

    /// The number that the token stands for, if it stands for one.
    pub fn number(&self) -> (value: Option<i32>)
        ensures
            value == self.number_view(),
    {
        match self.value {
            Some(TokenValue::Integer(value)) => Some(value),
            _ => None,
        }
    }

    /// The characters that the token was read from.
    pub fn name(&self) -> (name: &str)
        ensures
            name@ == self.name_view(),
    {
        self.name.as_str()
    }

    /// The index of the first character of the token.
    pub fn position(&self) -> (position: usize)
        ensures
            position == self.position_view(),
    {
        self.position
    }
}

/// Where the token that starts at `pos` stops: a run of digits or of
/// blanks at its end, any other character behind itself.
pub open spec fn token_stop(text: Seq<char>, pos: int) -> int {
    if 0 <= pos < text.len() {
        match class_of(text[pos]) {
            CharClass::Digit => run_end(text, pos, CharClass::Digit),
            CharClass::Whitespace => run_end(text, pos, CharClass::Whitespace),
            CharClass::Symbol => pos + 1,
        }
    } else {
        pos
    }
}

/// The kind of the token that starts at `pos`.
pub open spec fn kind_at(text: Seq<char>, pos: int) -> SyntaxType {
    if 0 <= pos < text.len() {
        match class_of(text[pos]) {
            CharClass::Digit => SyntaxType::NumberToken,
            CharClass::Whitespace => SyntaxType::WhitespaceToken,
            CharClass::Symbol => SyntaxType::BadToken,
        }
    } else {
        SyntaxType::EndOfFileToken
    }
}

/// The characters of the token that starts at `pos`: the run, for a
/// number and for blanks, and nothing otherwise.
pub open spec fn name_at(text: Seq<char>, pos: int) -> Seq<char> {
    if 0 <= pos < text.len() && class_of(text[pos]) != CharClass::Symbol {
        text.subrange(pos, token_stop(text, pos))
    } else {
        Seq::empty()
    }
}

/// Whether the token that starts at `pos` is a run of digits whose
/// number is beyond `i32::MAX`.
pub open spec fn overflows_at(text: Seq<char>, pos: int) -> bool {
    &&& 0 <= pos < text.len()
    &&& class_of(text[pos]) == CharClass::Digit
    &&& decimal_value(name_at(text, pos)) > i32::MAX
}

/// The number of the token that starts at `pos`, where it is a run of
/// digits whose number fits.
pub open spec fn number_at(text: Seq<char>, pos: int) -> Option<i32> {
    if 0 <= pos < text.len() && class_of(text[pos]) == CharClass::Digit && !overflows_at(
        text,
        pos,
    ) {
        Some(decimal_value(name_at(text, pos)) as i32)
    } else {
        None
    }
}

/// The diagnostic for a run of digits whose number does not fit.
pub open spec fn invalid_number_message(name: Seq<char>) -> Seq<char> {
    "The number "@ + name + " isn't a valid Int32."@
}

/// The diagnostic for a bad character at `pos`. It shows the character
/// behind the bad one, or NUL where the text ends there.
pub open spec fn bad_character_message(text: Seq<char>, pos: int) -> Seq<char> {
    let shown = if 0 <= pos + 1 < text.len() {
        text[pos + 1]
    } else {
        '\0'
    };
    "ERROR: bad character input: '"@.push(shown) + "'"@
}

/// The diagnostics that reading the token at `pos` records: one for a
/// number that does not fit, one for a bad character, else none.
pub open spec fn messages_at(text: Seq<char>, pos: int) -> Seq<Seq<char>> {
    if overflows_at(text, pos) {
        seq![invalid_number_message(name_at(text, pos))]
    } else if 0 <= pos < text.len() && class_of(text[pos]) == CharClass::Symbol {
        seq![bad_character_message(text, pos)]
    } else {
        Seq::empty()
    }
}

/// Trusted: calls `String::push` of the standard library, which
/// appends one character to the string.
#[verifier::external_body]
fn push_char(text: &mut String, c: char)
    ensures
        final(text)@ == old(text)@.push(c),
{
    text.push(c)
}

/// A cursor over the characters of a text that keeps the diagnostics
/// of what it has read.
#[derive(Debug)]
pub struct Lexer {
    text: Vec<char>,
    position: usize,
    diagonistics: Vec<String>,
}

impl Lexer {
    /// The characters of the text, read or not.
    pub closed spec fn text(&self) -> Seq<char> {
        self.text@
    }

    /// How many characters have been read.
    pub closed spec fn position(&self) -> int {
        self.position as int
    }

    /// The diagnostics recorded so far.
    pub closed spec fn messages(&self) -> Seq<Seq<char>> {
        self.diagonistics.deep_view()
    }

    /// The cursor stands inside the text or at its end.
    pub closed spec fn wf(&self) -> bool {
        self.position <= self.text.len()
    }

    /// A lexer at the start of `text`, with no diagnostics.
    pub fn new(text: &str) -> (lexer: Self)
        ensures
            lexer.wf(),
            lexer.text() == text@,
            lexer.position() == 0,
            lexer.messages() == Seq::<Seq<char>>::empty(),
    {
        let chars = chars_of(text);
        let lexer = Lexer { text: chars, position: 0, diagonistics: Vec::new() };
        assert(lexer.messages() =~= Seq::<Seq<char>>::empty());
        lexer
    }

    /// The diagnostics recorded so far.
    pub fn diagnostics(&self) -> (recorded: &Vec<String>)
        ensures
            recorded.deep_view() == self.messages(),
    {
        &self.diagonistics
    }

    /// The character at the cursor, if any is left.
    fn current(&self) -> (at: Option<&char>)
        requires
            self.wf(),
        ensures
            at == (if self.position() < self.text().len() {
                Some(&self.text()[self.position()])
            } else {
                None
            }),
    {
        let i = self.position;
        if i < self.text.len() {
            Some(&self.text[i])
        } else {
            None
        }
    }

    /// Moves the cursor over one character.
    fn next(&mut self)
        requires
            old(self).wf(),
            old(self).position() < old(self).text().len(),
        ensures
            final(self).wf(),
            final(self).text() == old(self).text(),
            final(self).messages() == old(self).messages(),
            final(self).position() == old(self).position() + 1,
    {
        self.position += 1;
    }

    /// Records one more diagnostic.
    fn record(&mut self, message: String)
        ensures
            final(self).text == old(self).text,
            final(self).position == old(self).position,
            final(self).messages() == old(self).messages().push(message@),
    {
        let ghost recorded = self.diagonistics;
        self.diagonistics.push(message);
        proof {
            lemma_record(recorded, self.diagonistics, message);
        }
    }

    /// Reads the token at the cursor and moves the cursor behind it.
    ///
    /// A run of digits gives a number token, which carries its number
    /// if that fits in an `i32`; if not, the token carries none and a
    /// diagnostic is recorded. A run of blanks gives a whitespace token.
    /// Any other character gives a bad token and a diagnostic. At the
    /// end of the text the end-of-file token is given and the cursor
    /// stays.
    pub fn next_token<'a>(&mut self) -> (token: SyntaxToken<'a>)
        requires
            old(self).wf(),
        ensures
            final(self).wf(),
            final(self).text() == old(self).text(),
            final(self).position() == token_stop(old(self).text(), old(self).position()),
            final(self).messages() == old(self).messages() + messages_at(
                old(self).text(),
                old(self).position(),
            ),
            token.kind_view() == kind_at(old(self).text(), old(self).position()),
            token.name_view() == name_at(old(self).text(), old(self).position()),
            token.number_view() == number_at(old(self).text(), old(self).position()),
            token.position_view() == old(self).position(),
    {
        let ghost text = self.text@;
        let ghost recorded = self.messages();
        let start = self.position;
        let current = match self.current() {
            None => {
                assert(recorded + Seq::<Seq<char>>::empty() =~= recorded);
                return SyntaxToken {
                    syntax_type: SyntaxType::EndOfFileToken,
                    value: None,
                    name: String::new(),
                    position: start,
                };
            },
            Some(current) => *current,
        };
        match classify(current) {
            CharClass::Digit => {
                let mut name = String::new();
                // While `fits`, `value` is the number read so far; once the
                // number has passed `i32::MAX` it can only grow.
                let mut value: u64 = 0;
                let mut fits = true;
                while self.position < self.text.len() && matches!(
                    classify(self.text[self.position]),
                    CharClass::Digit
                )
                    invariant
                        self.text@ == text,
                        self.messages() == recorded,
                        start <= self.position <= text.len(),
                        run_end(text, self.position as int, CharClass::Digit) == run_end(
                            text,
                            start as int,
                            CharClass::Digit,
                        ),
                        name@ == text.subrange(start as int, self.position as int),
                        fits <==> decimal_value(name@) <= i32::MAX,
                        fits ==> value == decimal_value(name@),
                    decreases text.len() - self.position,
                {
                    let digit = self.text[self.position];
                    let ghost read = name@;
                    push_char(&mut name, digit);
                    proof {
                        assert(name@.drop_last() =~= read);
                        assert(name@ =~= text.subrange(start as int, self.position as int + 1));
                    }
                    if fits {
                        value = value * 10 + digit_to_number(digit) as u64;
                        if value > i32::MAX as u64 {
                            fits = false;
                        }
                    }
                    self.next();
                }
                if fits {
                    assert(recorded + Seq::<Seq<char>>::empty() =~= recorded);
                    SyntaxToken {
                        syntax_type: SyntaxType::NumberToken,
                        value: Some(TokenValue::Integer(value as i32)),
                        position: start,
                        name,
                    }
                } else {
                    let mut message = String::from_str("The number ");
                    message.append(name.as_str());
                    message.append(" isn't a valid Int32.");
                    self.record(message);
                    assert(recorded.push(message@) =~= recorded + seq![message@]);
                    SyntaxToken {
                        syntax_type: SyntaxType::NumberToken,
                        value: None,
                        position: start,
                        name,
                    }
                }
            },
            CharClass::Whitespace => {
                let mut name = String::new();
                while self.position < self.text.len() && matches!(
                    classify(self.text[self.position]),
                    CharClass::Whitespace
                )
                    invariant
                        self.text@ == text,
                        self.messages() == recorded,
                        start <= self.position <= text.len(),
                        run_end(text, self.position as int, CharClass::Whitespace) == run_end(
                            text,
                            start as int,
                            CharClass::Whitespace,
                        ),
                        name@ == text.subrange(start as int, self.position as int),
                    decreases text.len() - self.position,
                {
                    push_char(&mut name, self.text[self.position]);
                    assert(name@ =~= text.subrange(start as int, self.position as int + 1));
                    self.next();
                }
                assert(recorded + Seq::<Seq<char>>::empty() =~= recorded);
                SyntaxToken {
                    syntax_type: SyntaxType::WhitespaceToken,
                    position: start,
                    value: None,
                    name,
                }
            },
            CharClass::Symbol => {
                self.next();
                let shown = match self.current() {
                    Some(shown) => *shown,
                    None => '\0',
                };
                let mut message = String::from_str("ERROR: bad character input: '");
                push_char(&mut message, shown);
                message.append("'");
                self.record(message);
                assert(recorded.push(message@) =~= recorded + seq![message@]);
                SyntaxToken {
                    syntax_type: SyntaxType::BadToken,
                    value: None,
                    name: String::new(),
                    position: start,
                }
            },
        }
    }
}

} // verus!

//! The parser: from the tokens of a line to its syntax tree.

use vstd::prelude::*;
use vstd::string::*;
use vstd::utf8::encode_utf8;
use crate::analysis::decimal::{decimal_string, decimal_text};
use crate::analysis::lexer::{errors_from, tokens_from, Lexer};
use crate::analysis::{lemma_record, messages_of};
use crate::analysis::tokens::{SyntaxToken, Token};
use crate::parser::ast::Syntax;
use crate::parser::theorems::theorem_tree_shape;

verus! {

/// What can go wrong while the tokens are parsed.
#[derive(Debug, PartialEq, Eq, Clone, Copy)]
pub enum ParserError {
    /// The parser wanted `expected` and met `found`.
    UnexpectedToken { position: usize, found: Token, expected: Token },
}

impl ParserError {
    /// The diagnostic that reports this error.
    pub open spec fn message_text(self) -> Seq<char> {
        match self {
            ParserError::UnexpectedToken { position, found, expected } => "Unexpected "@
                + found.name_text() + " found at position: "@ + decimal_text(position as nat)
                + ". Expected "@ + expected.name_text(),
        }
    }

    /// Renders the diagnostic that reports this error.
    pub fn message(&self) -> (text: String)
        ensures
            text@ == self.message_text(),
    {
        match self {
            ParserError::UnexpectedToken { position, found, expected } => {
                let mut text = String::from_str("Unexpected ");
                text.append(found.name());
                text.append(" found at position: ");
                text.append(decimal_string(*position).as_str());
                text.append(". Expected ");
                text.append(expected.name());
                text
            },
        }
    }
}

/// The diagnostics that report `errors`, in the same order.
pub open spec fn parser_messages_of(errors: Seq<ParserError>) -> Seq<Seq<char>> {
    Seq::new(errors.len(), |i: int| errors[i].message_text())
}

/// Whether `token` is one of the two operators of the grammar.
pub open spec fn is_additive(token: Token) -> bool {
    token is Plus || token is Minus
}

/// The leaf that stands for a number that is not there.
pub open spec fn missing_number() -> Syntax {
    Syntax::NumberExpression { value: Token::Number(None) }
}

/// The position that a missing operand is reported at: the last byte
/// of the text, or 0 for the empty text.
pub open spec fn end_position(text: Seq<char>) -> nat {
    let bytes = encode_utf8(text).len();
    if bytes == 0 {
        0
    } else {
        (bytes - 1) as nat
    }
}

/// The error that reports a missing operand.
pub open spec fn missing_operand(text: Seq<char>) -> ParserError {
    ParserError::UnexpectedToken {
        position: end_position(text) as usize,
        found: Token::EndOfFileToken,
        expected: Token::Number(None),
    }
}

/// The operand read at `at`: the number token there, or else the leaf
/// for a missing number.
pub open spec fn primary_at(tokens: Seq<SyntaxToken>, at: int) -> Syntax {
    if 0 <= at < tokens.len() && tokens[at].token_type is Number {
        Syntax::NumberExpression { value: tokens[at].token_type }
    } else {
        missing_number()
    }
}

/// The errors of reading an operand at `at`: one if no token is left.
pub open spec fn primary_errors(tokens: Seq<SyntaxToken>, at: int, text: Seq<char>) -> Seq<
    ParserError,
> {
    if at >= tokens.len() {
        seq![missing_operand(text)]
    } else {
        Seq::empty()
    }
}

/// The tree that grows from `left` as the tokens from `at` on are read:
/// each `+` or `-` takes the tree so far as its left operand and the
/// token behind it as its right operand; any other token is passed over.
pub open spec fn fold_from(left: Syntax, tokens: Seq<SyntaxToken>, at: int) -> Syntax
    decreases tokens.len() + 1 - at,
{
    if 0 <= at < tokens.len() {
        if is_additive(tokens[at].token_type) {
            fold_from(
                Syntax::BinaryExpression {
                    left: Box::new(left),
                    op: tokens[at].token_type,
                    right: Box::new(primary_at(tokens, at + 1)),
                },
                tokens,
                at + 2,
            )
        } else {
            fold_from(left, tokens, at + 1)
        }
    } else {
        left
    }
}

/// The errors met while the tokens from `at` on are folded.
pub open spec fn fold_errors(tokens: Seq<SyntaxToken>, at: int, text: Seq<char>) -> Seq<
    ParserError,
>
    decreases tokens.len() + 1 - at,
{
    if 0 <= at < tokens.len() {
        if is_additive(tokens[at].token_type) {
            primary_errors(tokens, at + 1, text) + fold_errors(tokens, at + 2, text)
        } else {
            fold_errors(tokens, at + 1, text)
        }
    } else {
        Seq::empty()
    }
}

/// The tree of the tokens from `at` on.
pub open spec fn tree_from(tokens: Seq<SyntaxToken>, at: int) -> Syntax {
    fold_from(primary_at(tokens, at), tokens, at + 1)
}

/// The errors met while the tokens from `at` on are parsed.
pub open spec fn parse_errors(tokens: Seq<SyntaxToken>, at: int, text: Seq<char>) -> Seq<
    ParserError,
> {
    primary_errors(tokens, at, text) + fold_errors(tokens, at + 1, text)
}

/// A parser over the tokens of one text.
#[derive(Debug)]
pub struct Parser {
    tokens: Vec<SyntaxToken>,
    diagonistics: Vec<String>,
    position: usize,
    text: String,
}

impl Parser {
    /// The tokens of the text, read or not.
    pub closed spec fn tokens(&self) -> Seq<SyntaxToken> {
        self.tokens@
    }

    /// How many tokens have been read.
    pub closed spec fn position(&self) -> int {
        self.position as int
    }

    /// The text that the tokens come from.
    pub closed spec fn text(&self) -> Seq<char> {
        self.text@
    }

    /// The diagnostics recorded so far, the lexer's first.
    pub closed spec fn messages(&self) -> Seq<Seq<char>> {
        self.diagonistics.deep_view()
    }

    /// The cursor stands among the tokens or at their end.
    pub closed spec fn wf(&self) -> bool {
        self.position <= self.tokens.len()
    }

    /// Lexes `text` and places a parser at its first token. The
    /// diagnostics of the lexer are kept.
    pub fn new(text: &str) -> (parser: Self)
        ensures
            parser.wf(),
            parser.text() == text@,
            parser.tokens() == tokens_from(text@, 0),
            parser.position() == 0,
            parser.messages() == messages_of(errors_from(text@, 0)),
    {
        let token_stream = Lexer::new(text).lex();
        Parser {
            tokens: token_stream.0,
            diagonistics: token_stream.1,
            position: 0,
            text: String::from_str(text),
        }
    }

    /// The diagnostics recorded so far, the lexer's first.
    pub fn diagnostics(&self) -> (recorded: &Vec<String>)
        ensures
            recorded.deep_view() == self.messages(),
    {
        &self.diagonistics
    }

    /// Reads the next token, if any is left.
    fn next(&mut self) -> (read: Option<SyntaxToken>)
        requires
            old(self).wf(),
        ensures
            final(self).wf(),
            final(self).tokens() == old(self).tokens(),
            final(self).text() == old(self).text(),
            final(self).messages() == old(self).messages(),
            read == (if old(self).position() < old(self).tokens().len() {
                Some(old(self).tokens()[old(self).position()])
            } else {
                None
            }),
            final(self).position() == (if old(self).position() < old(self).tokens().len() {
                old(self).position() + 1
            } else {
                old(self).position()
            }),
    {
        if self.position < self.tokens.len() {
            let read = self.tokens[self.position];
            self.position += 1;
            Some(read)
        } else {
            None
        }
    }

    /// Reads one operand. A number token becomes a leaf. Any other token
    /// is read and gives the leaf for a missing number. Where no token is
    /// left, that leaf is given too and the missing operand is recorded.
    pub fn parse_primary_expression(&mut self) -> (tree: Syntax)
        requires
            old(self).wf(),
        ensures
            final(self).wf(),
            final(self).tokens() == old(self).tokens(),
            final(self).text() == old(self).text(),
            final(self).position() == (if old(self).position() < old(self).tokens().len() {
                old(self).position() + 1
            } else {
                old(self).position()
            }),
            tree == primary_at(old(self).tokens(), old(self).position()),
            final(self).messages() == old(self).messages() + parser_messages_of(
                primary_errors(old(self).tokens(), old(self).position(), old(self).text()),
            ),
    {
        let ghost errors = primary_errors(self.tokens@, self.position as int, self.text@);
        match self.next() {
            Some(current) => {
                assert(self.messages() + parser_messages_of(errors) =~= self.messages());
                match current.token_type {
                    Token::Number(_) => Syntax::NumberExpression { value: current.token_type },
                    _ => Syntax::NumberExpression { value: Token::Number(None) },
                }
            },
            None => {
                let length = self.text.as_str().as_bytes().len();
                let error = ParserError::UnexpectedToken {
                    position: if length == 0 {
                        0
                    } else {
                        length - 1
                    },
                    found: Token::EndOfFileToken,
                    expected: Token::Number(None),
                };
                let ghost recorded = self.diagonistics;
                let message = error.message();
                self.diagonistics.push(message);
                proof {
                    lemma_record(recorded, self.diagonistics, message);
                    assert(recorded.deep_view().push(message@) =~= recorded.deep_view()
                        + parser_messages_of(errors));
                }
                Syntax::NumberExpression { value: Token::Number(None) }
            },
        }
    }

    /// Parses the tokens from the cursor to the end: one operand, then
    /// every `+` or `-` with the operand behind it, each applied to the
    /// tree so far. Tokens found where an operator is due are passed over.
    pub fn parse(&mut self) -> (tree: Syntax)
        requires
            old(self).wf(),
        ensures
            final(self).wf(),
            final(self).tokens() == old(self).tokens(),
            final(self).text() == old(self).text(),
            final(self).position() == old(self).tokens().len(),
            tree == tree_from(old(self).tokens(), old(self).position()),
            tree.well_formed(),
            tree.left_leaning(),
            final(self).messages() == old(self).messages() + parser_messages_of(
                parse_errors(old(self).tokens(), old(self).position(), old(self).text()),
            ),
    {
        proof {
            theorem_tree_shape(self.tokens@, self.position as int);
        }
        let ghost tokens = self.tokens@;
        let ghost text = self.text@;
        let ghost start = self.position as int;
        let ghost recorded = self.messages();
        let mut left = self.parse_primary_expression();
        let ghost errors = primary_errors(tokens, start, text);
        loop
            invariant
                self.wf(),
                self.tokens@ == tokens,
                self.text@ == text,
                fold_from(left, tokens, self.position as int) == tree_from(tokens, start),
                errors + fold_errors(tokens, self.position as int, text) == parse_errors(
                    tokens,
                    start,
                    text,
                ),
                self.messages() == recorded + parser_messages_of(errors),
            ensures
                self.wf(),
                self.tokens@ == tokens,
                self.text@ == text,
                self.position == tokens.len(),
                left == tree_from(tokens, start),
                self.messages() == recorded + parser_messages_of(
                    parse_errors(tokens, start, text),
                ),
            decreases tokens.len() - self.position,
        {
            let ghost at = self.position as int;
            match self.next() {
                None => {
                    assert(errors + Seq::<ParserError>::empty() =~= errors);
                    break ;
                },
                Some(token) => {
                    match token.token_type {
                        Token::Plus | Token::Minus => {
                            let ghost operand = left;
                            let right = self.parse_primary_expression();
                            left =
                            Syntax::BinaryExpression {
                                left: Box::new(left),
                                op: token.token_type,
                                right: Box::new(right),
                            };
                            proof {
                                assert(fold_from(operand, tokens, at) == fold_from(
                                    left,
                                    tokens,
                                    at + 2,
                                ));
                                assert(fold_from(left, tokens, self.position as int) == fold_from(
                                    left,
                                    tokens,
                                    at + 2,
                                ));
                                let met = primary_errors(tokens, at + 1, text);
                                assert(fold_errors(tokens, at, text) == met + fold_errors(
                                    tokens,
                                    at + 2,
                                    text,
                                ));
                                assert(fold_errors(tokens, self.position as int, text)
                                    == fold_errors(tokens, at + 2, text));
                                assert((errors + met) + fold_errors(
                                    tokens,
                                    self.position as int,
                                    text,
                                ) =~= errors + fold_errors(tokens, at, text));
                                assert(recorded + parser_messages_of(errors + met) =~= (recorded
                                    + parser_messages_of(errors)) + parser_messages_of(met));
                                errors = errors + met;
                            }
                        },
                        _ => {},
                    }
                },
            }
        }
        left
    }
}

/// The syntax tree of `text`.
pub open spec fn tree_of(text: Seq<char>) -> Syntax {
    tree_from(tokens_from(text, 0), 0)
}

/// The diagnostics of lexing and parsing `text`: the lexer's first,
/// then the parser's.
pub open spec fn parse_diagnostics_of(text: Seq<char>) -> Seq<Seq<char>> {
    messages_of(errors_from(text, 0)) + parser_messages_of(
        parse_errors(tokens_from(text, 0), 0, text),
    )
}

/// Whether `parsed` is what lexing and parsing `text` gives.
pub open spec fn is_parse_result(text: Seq<char>, parsed: (Syntax, Vec<String>)) -> bool {
    &&& parsed.0 == tree_of(text)
    &&& parsed.1.deep_view() == parse_diagnostics_of(text)
}

/// Lexes and parses `text`. Gives its syntax tree and the diagnostics
/// of both passes.
pub fn parse(text: &str) -> (parsed: (Syntax, Vec<String>))
    ensures
        is_parse_result(text@, parsed),
{
    let mut parser = Parser::new(text);
    let tree = parser.parse();
    (tree, parser.diagonistics)
}

} // verus!

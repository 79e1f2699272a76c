//! The token type, its mathematical model and the failure value.

use vstd::prelude::*;

verus! {

/// One lexical unit of a format string.
#[derive(Debug, PartialEq, Eq)]
pub enum FormatItem {
    /// A keyword of the fixed keyword list.
    Standard(String),
    /// The text between a pair of double quotes, delimiters left out.
    Quoted(String),
    /// One character of the fixed symbol alphabet.
    Single(char),
    /// The character that follows an escape marker `!`, taken verbatim.
    Exclamation(char),
}

/// The model of a [`FormatItem`]: the same four cases over `Seq<char>`.
pub enum Token {
    Standard(Seq<char>),
    Quoted(Seq<char>),
    Single(char),
    Exclamation(char),
}

impl View for FormatItem {
    type V = Token;

    open spec fn view(&self) -> Token {
        match self {
            FormatItem::Standard(text) => Token::Standard(text@),
            FormatItem::Quoted(text) => Token::Quoted(text@),
            FormatItem::Single(c) => Token::Single(*c),
            FormatItem::Exclamation(c) => Token::Exclamation(*c),
        }
    }
}

impl Token {
    /// The stretch of input that a token stands for, delimiters and escape
    /// marker included.
    pub open spec fn extent(self) -> Seq<char> {
        match self {
            Token::Standard(text) => text,
            Token::Quoted(text) => seq!['"'] + text + seq!['"'],
            Token::Single(c) => seq![c],
            Token::Exclamation(c) => seq!['!', c],
        }
    }
}

/// The extents of a token sequence, one after the other.
pub open spec fn extents(tokens: Seq<Token>) -> Seq<char>
    decreases tokens.len(),
{
    if tokens.len() == 0 {
        Seq::empty()
    } else {
        tokens[0].extent() + extents(tokens.skip(1))
    }
}

/// The models of a sequence of items.
pub open spec fn tokens_of(items: Seq<FormatItem>) -> Seq<Token> {
    items.map_values(|it: FormatItem| it@)
}

/// Why a matcher produced no token.
#[derive(Debug, Clone, Copy, PartialEq, Eq)]
pub enum FailureKind {
    /// Nothing of the expected shape stands at the position.
    NoMatch,
    /// A double quote was opened and the input ended before it was closed.
    UnterminatedQuote,
}

/// A failed match: its kind, and the input that was left where it failed.
#[derive(Debug, Clone, Copy, PartialEq, Eq)]
pub struct ParseError<'a> {
    pub kind: FailureKind,
    pub remainder: &'a str,
}

} // verus!

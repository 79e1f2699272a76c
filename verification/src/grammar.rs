//! The grammar as spec functions over `Seq<char>`.
//!
//! A matcher is a function from the remaining input to the token that stands
//! at its front and the number of characters that the token takes up, or to
//! `None` where no token of that shape stands there.

use vstd::prelude::*;
use crate::item::Token;
use crate::leaves::{span_excluding, starts_with_char};

verus! {

/// What a matcher finds at the front of an input: a token and the number of
/// characters consumed.
pub type Match = Option<(Token, nat)>;

/// The first of two attempts that succeeded.
pub open spec fn first_of(a: Match, b: Match) -> Match {
    if a is Some {
        a
    } else {
        b
    }
}

/// The escape form: a `!` and one further character, which is taken as it
/// stands, whatever it is.
pub open spec fn match_exclamation(s: Seq<char>) -> Match {
    if s.len() >= 2 && s[0] == '!' {
        Some((Token::Exclamation(s[1]), 2nat))
    } else {
        None
    }
}

/// One keyword, as an indivisible literal at the front of the input.
pub open spec fn match_keyword(s: Seq<char>, keyword: Seq<char>) -> Match {
    if keyword.is_prefix_of(s) {
        Some((Token::Standard(keyword), keyword.len()))
    } else {
        None
    }
}

/// The keywords in their order of priority: the first that is a prefix of
/// the input wins.
pub open spec fn match_standard(s: Seq<char>) -> Match {
    first_of(
        match_keyword(s, "General"@),
        first_of(match_keyword(s, "G/\u{6a19}\u{6e96}"@), match_keyword(s, "@"@)),
    )
}

/// The characters that may not stand inside a quoted span.
pub open spec fn quote_stop() -> Seq<char> {
    "\""@
}

/// A quoted span: an opening `"`, the longest run free of `"` (which may be
/// empty), and a closing `"`. The token holds the run without the delimiters.
pub open spec fn match_quoted(s: Seq<char>) -> Match {
    if starts_with_char(s, '"') {
        let run = span_excluding(s.skip(1), quote_stop());
        if run + 1 < s.len() {
            Some((Token::Quoted(s.subrange(1, (run + 1) as int)), run + 2))
        } else {
            None
        }
    } else {
        None
    }
}

/// The symbols that form a token by themselves.
pub open spec fn single_alphabet() -> Seq<char> {
    "\u{a5}$+(:^'{<=-/)&~}> "@
}

/// One character of the symbol alphabet.
pub open spec fn match_single(s: Seq<char>) -> Match {
    if s.len() > 0 && single_alphabet().contains(s[0]) {
        Some((Token::Single(s[0]), 1nat))
    } else {
        None
    }
}

/// The four matchers in their fixed order: escape form, keyword, quoted
/// span, symbol. The first that succeeds is the match.
pub open spec fn match_item(s: Seq<char>) -> Match {
    first_of(
        match_exclamation(s),
        first_of(match_standard(s), first_of(match_quoted(s), match_single(s))),
    )
}

/// The tokens found by matching over and over from the front of `s` until
/// no matcher succeeds, and the number of characters they take up together.
pub open spec fn tokenize(s: Seq<char>) -> (Seq<Token>, nat)
    decreases s.len(),
{
    match match_item(s) {
        Some((token, n)) if 0 < n <= s.len() => {
            let (more, m) = tokenize(s.skip(n as int));
            (seq![token] + more, n + m)
        },
        _ => (Seq::empty(), 0nat),
    }
}

} // verus!

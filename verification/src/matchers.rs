//! The executable matchers, the alternation over them and the driver.

use vstd::prelude::*;
use vstd::string::*;
use crate::grammar::{
    match_exclamation, match_item, match_keyword, match_quoted, match_single, match_standard,
    quote_stop, single_alphabet, tokenize, Match,
};
use crate::item::{extents, tokens_of, FailureKind, FormatItem, ParseError, Token};
use crate::laws::{lemma_extents_rebuild_input, lemma_match_extent, lemma_span_excluding};
use crate::leaves::{
    leading_char, leading_chars, leading_span_without, leading_tag, span_excluding,
    starts_with_char,
};

verus! {

/// A successful result agrees with what the grammar finds at the front of
/// `input`: the same token, and as remainder the input without the
/// characters consumed.
pub open spec fn found(input: Seq<char>, expected: Match, rest: &str, item: FormatItem) -> bool {
    match expected {
        Some((token, n)) => item@ == token && n <= input.len() && rest@ == input.skip(n as int),
        None => false,
    }
}

/// Matches the escape form at the front of `input`: a `!` and the character
/// after it.
///
/// Fails with `NoMatch` where the input does not start with `!` (the
/// remainder is the input) or ends right after it (the remainder is what
/// follows the marker, which is empty).
pub fn exclamation<'a>(input: &'a str) -> (r: Result<(&'a str, FormatItem), ParseError<'a>>)
    ensures
        match r {
            Ok((rest, item)) => found(input@, match_exclamation(input@), rest, item),
            Err(e) => match_exclamation(input@) is None && e.kind == FailureKind::NoMatch
                && e.remainder@ == (if starts_with_char(input@, '!') {
                input@.skip(1)
            } else {
                input@
            }),
        },
{
    match leading_char('!', input) {
        Err(_) => Err(ParseError { kind: FailureKind::NoMatch, remainder: input }),
        Ok((after_marker, _)) => match leading_chars(1, after_marker) {
            Err(_) => Err(ParseError { kind: FailureKind::NoMatch, remainder: after_marker }),
            Ok((rest, taken)) => {
                let c = taken.get_char(0);
                assert(rest@ =~= input@.skip(2));
                Ok((rest, FormatItem::Exclamation(c)))
            },
        },
    }
}

/// Tries one keyword at the front of `input`.
fn keyword<'a>(literal: &str, input: &'a str) -> (r: Option<(&'a str, FormatItem)>)
    ensures
        match r {
            Some((rest, item)) => found(input@, match_keyword(input@, literal@), rest, item),
            None => match_keyword(input@, literal@) is None,
        },
{
    match leading_tag(literal, input) {
        Ok((rest, hit)) => Some((rest, FormatItem::Standard(hit.to_string()))),
        Err(_) => None,
    }
}

/// Matches a keyword at the front of `input`. The keywords are tried in
/// their order of priority and the first that is a prefix wins.
///
/// Fails with `NoMatch` and the input as remainder where none is a prefix.
pub fn standard<'a>(input: &'a str) -> (r: Result<(&'a str, FormatItem), ParseError<'a>>)
    ensures
        match r {
            Ok((rest, item)) => found(input@, match_standard(input@), rest, item),
            Err(e) => match_standard(input@) is None && e.kind == FailureKind::NoMatch
                && e.remainder@ == input@,
        },
{
    if let Some(hit) = keyword("General", input) {
        return Ok(hit);
    }
    if let Some(hit) = keyword("G/\u{6a19}\u{6e96}", input) {
        return Ok(hit);
    }
    if let Some(hit) = keyword("@", input) {
        return Ok(hit);
    }
    Err(ParseError { kind: FailureKind::NoMatch, remainder: input })
}

/// Matches a quoted span at the front of `input`: from an opening `"`
/// through the next `"`. The token holds what stands between the two.
///
/// Fails with `NoMatch` and the input as remainder where the input does not
/// start with `"`, and with `UnterminatedQuote` where it does and holds no
/// second `"`; the remainder is then the empty end of the input, where the
/// closing quote was looked for.
pub fn quoted<'a>(input: &'a str) -> (r: Result<(&'a str, FormatItem), ParseError<'a>>)
    ensures
        match r {
            Ok((rest, item)) => found(input@, match_quoted(input@), rest, item),
            Err(e) => match_quoted(input@) is None && (if starts_with_char(input@, '"') {
                e.kind == FailureKind::UnterminatedQuote && e.remainder@ == Seq::<char>::empty()
            } else {
                e.kind == FailureKind::NoMatch && e.remainder@ == input@
            }),
        },
{
    match leading_char('"', input) {
        Err(_) => Err(ParseError { kind: FailureKind::NoMatch, remainder: input }),
        Ok((inside, _)) => {
            let ghost run: int = span_excluding(inside@, quote_stop()) as int;
            proof {
                reveal_strlit("\"");
                lemma_span_excluding(inside@, quote_stop());
            }
            let (closing, text) = match leading_span_without("\"", inside) {
                Ok((closing, body)) => (closing, body.to_string()),
                Err(_) => (inside, String::new()),
            };
            assert(closing@ =~= input@.skip(run + 1));
            assert(text@ =~= input@.subrange(1, run + 1));
            match leading_char('"', closing) {
                Err(_) => {
                    assert(closing@ =~= Seq::<char>::empty());
                    Err(ParseError { kind: FailureKind::UnterminatedQuote, remainder: closing })
                },
                Ok((rest, _)) => {
                    assert(rest@ =~= input@.skip(run + 2));
                    Ok((rest, FormatItem::Quoted(text)))
                },
            }
        },
    }
}

/// Matches one character of the symbol alphabet at the front of `input`.
///
/// Fails with `NoMatch` and the input as remainder where the input is empty
/// or starts with another character.
pub fn single<'a>(input: &'a str) -> (r: Result<(&'a str, FormatItem), ParseError<'a>>)
    ensures
        match r {
            Ok((rest, item)) => found(input@, match_single(input@), rest, item),
            Err(e) => match_single(input@) is None && e.kind == FailureKind::NoMatch
                && e.remainder@ == input@,
        },
{
    let alphabet = "\u{a5}$+(:^'{<=-/)&~}> ";
    let count: usize = alphabet.unicode_len();
    let mut i: usize = 0;
    while i < count
        invariant
            alphabet@ == single_alphabet(),
            count == alphabet@.len(),
            i <= count,
            forall|j: int| 0 <= j < i ==> !starts_with_char(input@, #[trigger] alphabet@[j]),
        decreases count - i,
    {
        let symbol = alphabet.get_char(i);
        match leading_char(symbol, input) {
            Ok((rest, got)) => {
                return Ok((rest, FormatItem::Single(got)));
            },
            Err(_) => {},
        }
        i += 1;
    }
    Err(ParseError { kind: FailureKind::NoMatch, remainder: input })
}

/// Matches one token at the front of `input`. The matchers are tried in the
/// fixed order escape form, keyword, quoted span, symbol, and the first that
/// succeeds decides.
///
/// Fails with `NoMatch` and the input as remainder where all four fail.
pub fn next_item<'a>(input: &'a str) -> (r: Result<(&'a str, FormatItem), ParseError<'a>>)
    ensures
        match r {
            Ok((rest, item)) => found(input@, match_item(input@), rest, item),
            Err(e) => match_item(input@) is None && e.kind == FailureKind::NoMatch
                && e.remainder@ == input@,
        },
{
    if let Ok(hit) = exclamation(input) {
        return Ok(hit);
    }
    if let Ok(hit) = standard(input) {
        return Ok(hit);
    }
    if let Ok(hit) = quoted(input) {
        return Ok(hit);
    }
    if let Ok(hit) = single(input) {
        return Ok(hit);
    }
    Err(ParseError { kind: FailureKind::NoMatch, remainder: input })
}

/// Cuts `input` into tokens: matches one token after the other from the
/// front until no matcher succeeds, and returns the tokens in source order
/// with the input that is left. The remainder is empty exactly when the
/// whole input was consumed; what to make of one that is not is left to the
/// caller.
///
/// Fails with `NoMatch` and the input as remainder where not even one token
/// stands at the front, as on the empty input.
pub fn formats<'a>(input: &'a str) -> (r: Result<(&'a str, Vec<FormatItem>), ParseError<'a>>)
    ensures
        match r {
            Ok((rest, items)) => match_item(input@) is Some
                && tokens_of(items@) == tokenize(input@).0
                && tokenize(input@).1 <= input@.len()
                && rest@ == input@.skip(tokenize(input@).1 as int)
                && items@.len() > 0
                && match_item(rest@) is None
                && extents(tokens_of(items@)) + rest@ == input@,
            Err(e) => match_item(input@) is None && e.kind == FailureKind::NoMatch
                && e.remainder@ == input@,
        },
{
    let (mut rest, first) = match next_item(input) {
        Ok(hit) => hit,
        Err(e) => {
            return Err(e);
        },
    };
    let mut items: Vec<FormatItem> = Vec::new();
    proof {
        lemma_match_extent(input@);
        assert(tokens_of(items@.push(first)) + tokenize(rest@).0 =~= tokenize(input@).0);
    }
    items.push(first);
    loop
        invariant
            items@.len() > 0,
            rest@.len() <= input@.len(),
            rest@ == input@.skip(input@.len() - rest@.len()),
            tokenize(input@).0 == tokens_of(items@) + tokenize(rest@).0,
            tokenize(input@).1 == input@.len() - rest@.len() + tokenize(rest@).1,
        decreases rest@.len(),
    {
        match next_item(rest) {
            Err(_) => {
                proof {
                    lemma_extents_rebuild_input(input@);
                    assert(tokens_of(items@) + Seq::<Token>::empty() =~= tokens_of(items@));
                }
                return Ok((rest, items));
            },
            Ok((after, next)) => {
                proof {
                    lemma_match_extent(rest@);
                    assert(after@ =~= input@.skip(input@.len() - after@.len()));
                    assert(tokens_of(items@.push(next)) + tokenize(after@).0 =~= tokens_of(
                        items@,
                    ) + tokenize(rest@).0);
                }
                items.push(next);
                rest = after;
            },
        }
    }
}

} // verus!

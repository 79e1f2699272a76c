//! Laws of the grammar, proved over its spec functions.

use vstd::prelude::*;
use crate::grammar::{
    match_exclamation, match_item, match_keyword, match_quoted, match_single, match_standard,
    quote_stop, single_alphabet, tokenize,
};
use crate::item::{extents, Token};
use crate::leaves::{span_excluding, starts_with_char};

verus! {

/// The span that `span_excluding` measures lies within `s`, holds no
/// character of `stop`, and ends at the end of `s` or before a character of
/// `stop`.
pub proof fn lemma_span_excluding(s: Seq<char>, stop: Seq<char>)
    ensures
        span_excluding(s, stop) <= s.len(),
        forall|i: int| 0 <= i < span_excluding(s, stop) ==> !stop.contains(#[trigger] s[i]),
        span_excluding(s, stop) < s.len() ==> stop.contains(s[span_excluding(s, stop) as int]),
    decreases s.len(),
{
    if s.len() == 0 || stop.contains(s[0]) {
    } else {
        let tail = s.skip(1);
        lemma_span_excluding(tail, stop);
        assert forall|i: int| 0 <= i < span_excluding(s, stop) implies !stop.contains(
            #[trigger] s[i],
        ) by {
            if i > 0 {
                assert(s[i] == tail[i - 1]);
            }
        }
    }
}

/// A prefix of `s` that holds no character of `stop` and is followed by the
/// end of `s` or by a character of `stop` is the span that `span_excluding`
/// measures.
pub proof fn lemma_span_excluding_unique(s: Seq<char>, stop: Seq<char>, n: nat)
    requires
        n <= s.len(),
        forall|i: int| 0 <= i < n ==> !stop.contains(#[trigger] s[i]),
        n < s.len() ==> stop.contains(s[n as int]),
    ensures
        span_excluding(s, stop) == n,
    decreases s.len(),
{
    if n == 0 {
    } else {
        let tail = s.skip(1);
        assert(!stop.contains(s[0]));
        assert forall|i: int| 0 <= i < n - 1 implies !stop.contains(#[trigger] tail[i]) by {
            assert(tail[i] == s[i + 1]);
        }
        lemma_span_excluding_unique(tail, stop, (n - 1) as nat);
    }
}

/// The symbol alphabet, character by character.
pub proof fn lemma_single_alphabet(c: char)
    ensures
        single_alphabet().contains(c) <==> (c == '\u{a5}' || c == '$' || c == '+' || c == '('
            || c == ':' || c == '^' || c == '\'' || c == '{' || c == '<' || c == '=' || c == '-'
            || c == '/' || c == ')' || c == '&' || c == '~' || c == '}' || c == '>' || c == ' '),
{
    reveal_strlit("\u{a5}$+(:^'{<=-/)&~}> ");
    let a = single_alphabet();
    assert(a.len() == 18);
    if c == '\u{a5}' || c == '$' || c == '+' || c == '(' || c == ':' || c == '^' || c == '\''
        || c == '{' || c == '<' || c == '=' || c == '-' || c == '/' || c == ')' || c == '&'
        || c == '~' || c == '}' || c == '>' || c == ' ' {
        assert(a[0] == '\u{a5}' && a[1] == '$' && a[2] == '+' && a[3] == '(' && a[4] == ':'
            && a[5] == '^' && a[6] == '\'' && a[7] == '{' && a[8] == '<' && a[9] == '='
            && a[10] == '-' && a[11] == '/' && a[12] == ')' && a[13] == '&' && a[14] == '~'
            && a[15] == '}' && a[16] == '>' && a[17] == ' ');
    }
}

/// The keywords, character by character.
pub proof fn lemma_keywords()
    ensures
        "General"@ == seq!['G', 'e', 'n', 'e', 'r', 'a', 'l'],
        "G/\u{6a19}\u{6e96}"@ == seq!['G', '/', '\u{6a19}', '\u{6e96}'],
        "@"@ == seq!['@'],
        quote_stop() == seq!['"'],
{
    reveal_strlit("General");
    reveal_strlit("G/\u{6a19}\u{6e96}");
    reveal_strlit("@");
    reveal_strlit("\"");
    assert("General"@ =~= seq!['G', 'e', 'n', 'e', 'r', 'a', 'l']);
    assert("G/\u{6a19}\u{6e96}"@ =~= seq!['G', '/', '\u{6a19}', '\u{6e96}']);
    assert("@"@ =~= seq!['@']);
    assert(quote_stop() =~= seq!['"']);
}

/// What it means, character by character, that a keyword stands at the
/// front of `s`.
pub proof fn lemma_keyword_prefixes(s: Seq<char>)
    ensures
        "General"@.is_prefix_of(s) <==> s.len() >= 7 && s[0] == 'G' && s[1] == 'e' && s[2] == 'n'
            && s[3] == 'e' && s[4] == 'r' && s[5] == 'a' && s[6] == 'l',
        "G/\u{6a19}\u{6e96}"@.is_prefix_of(s) <==> s.len() >= 4 && s[0] == 'G' && s[1] == '/'
            && s[2] == '\u{6a19}' && s[3] == '\u{6e96}',
        "@"@.is_prefix_of(s) <==> s.len() >= 1 && s[0] == '@',
{
    lemma_keywords();
    let general = "General"@;
    let local = "G/\u{6a19}\u{6e96}"@;
    let at = "@"@;
    if s.len() >= 7 {
        let front = s.subrange(0, 7);
        assert(front[0] == s[0] && front[1] == s[1] && front[2] == s[2] && front[3] == s[3]
            && front[4] == s[4] && front[5] == s[5] && front[6] == s[6]);
        assert(general.is_prefix_of(s) <==> general =~= front);
    }
    if s.len() >= 4 {
        let front = s.subrange(0, 4);
        assert(front[0] == s[0] && front[1] == s[1] && front[2] == s[2] && front[3] == s[3]);
        assert(local.is_prefix_of(s) <==> local =~= front);
    }
    if s.len() >= 1 {
        let front = s.subrange(0, 1);
        assert(front[0] == s[0]);
        assert(at.is_prefix_of(s) <==> at =~= front);
    }
}

/// Every match consumes at least one character and no more than the input
/// holds, and the token's extent is exactly the stretch consumed.
pub proof fn lemma_match_extent(s: Seq<char>)
    ensures
        match match_item(s) {
            Some((token, n)) => 0 < n <= s.len() && token.extent() == s.take(n as int),
            None => true,
        },
{
    lemma_keywords();
    if match_exclamation(s) is Some {
        assert(seq!['!', s[1]] =~= s.take(2));
    } else if match_standard(s) is Some {
        let (token, n) = match_standard(s).unwrap();
        assert(token.extent().is_prefix_of(s));
        assert(token.extent() =~= s.take(n as int));
    } else if match_quoted(s) is Some {
        let inside = s.skip(1);
        let run = span_excluding(inside, quote_stop());
        lemma_span_excluding(inside, quote_stop());
        assert(inside[run as int] == '"');
        assert(seq!['"'] + s.subrange(1, (run + 1) as int) + seq!['"'] =~= s.take(
            (run + 2) as int,
        ));
    } else if match_single(s) is Some {
        assert(seq![s[0]] =~= s.take(1));
    }
}

/// A match depends only on the characters it consumes: any input that
/// starts with the same stretch gives the same token and the same length.
pub proof fn lemma_match_local(s: Seq<char>, u: Seq<char>)
    requires
        match_item(s) is Some,
        match_item(s).unwrap().1 <= u.len(),
        u.take(match_item(s).unwrap().1 as int) == s.take(match_item(s).unwrap().1 as int),
    ensures
        match_item(u) == match_item(s),
{
    let n = match_item(s).unwrap().1;
    lemma_keywords();
    lemma_keyword_prefixes(s);
    lemma_keyword_prefixes(u);
    lemma_match_extent(s);
    lemma_single_alphabet(s[0]);
    assert forall|i: int| 0 <= i < n implies u[i] == s[i] by {
        assert(u[i] == u.take(n as int)[i]);
        assert(s[i] == s.take(n as int)[i]);
    }
    if match_exclamation(s) is None && match_standard(s) is None && match_quoted(s) is Some {
        let stop = quote_stop();
        let run = span_excluding(s.skip(1), stop);
        lemma_span_excluding(s.skip(1), stop);
        assert forall|i: int| 0 <= i < run implies !stop.contains(#[trigger] u.skip(1)[i]) by {
            assert(u.skip(1)[i] == s.skip(1)[i]);
        }
        assert(u.skip(1)[run as int] == s.skip(1)[run as int]);
        lemma_span_excluding_unique(u.skip(1), stop, run);
        assert(u.subrange(1, (run + 1) as int) =~= s.subrange(1, (run + 1) as int));
    }
}

/// The tokens of an input never take up more than the input.
pub proof fn lemma_tokenize_bound(s: Seq<char>)
    ensures
        tokenize(s).1 <= s.len(),
    decreases s.len(),
{
    lemma_match_extent(s);
    if let Some((_, n)) = match_item(s) {
        lemma_tokenize_bound(s.skip(n as int));
    }
}

/// Reconstruction: the extents of the tokens found in an input, one after
/// the other, are the stretch of input that the tokens take up; with the
/// remainder behind them they are the input, nothing skipped and nothing
/// twice.
pub proof fn lemma_extents_rebuild_input(s: Seq<char>)
    ensures
        tokenize(s).1 <= s.len(),
        extents(tokenize(s).0) == s.take(tokenize(s).1 as int),
        extents(tokenize(s).0) + s.skip(tokenize(s).1 as int) == s,
    decreases s.len(),
{
    lemma_match_extent(s);
    lemma_tokenize_bound(s);
    let (tokens, k) = tokenize(s);
    match match_item(s) {
        Some((token, n)) => {
            let tail = s.skip(n as int);
            let (more, m) = tokenize(tail);
            lemma_extents_rebuild_input(tail);
            assert(tokens.skip(1) =~= more);
            assert(tokens[0] == token);
            assert(s.take(n as int) + tail.take(m as int) =~= s.take(k as int));
        },
        None => {
            assert(extents(tokens) =~= s.take(0));
        },
    }
    assert(s.take(k as int) + s.skip(k as int) =~= s);
}

/// Idempotence: the extents of the tokens found in an input, taken as an
/// input of their own, give the same tokens again and leave no remainder.
pub proof fn lemma_reparse_is_stable(s: Seq<char>)
    ensures
        tokenize(extents(tokenize(s).0)).0 == tokenize(s).0,
        tokenize(extents(tokenize(s).0)).1 == extents(tokenize(s).0).len(),
    decreases s.len(),
{
    lemma_match_extent(s);
    lemma_extents_rebuild_input(s);
    let (tokens, k) = tokenize(s);
    let again = extents(tokens);
    match match_item(s) {
        Some((token, n)) => {
            let tail = s.skip(n as int);
            let (more, m) = tokenize(tail);
            lemma_reparse_is_stable(tail);
            lemma_extents_rebuild_input(tail);
            assert(again.take(n as int) =~= s.take(n as int));
            lemma_match_local(s, again);
            assert(again.skip(n as int) =~= extents(more));
        },
        None => {
            lemma_empty_input_has_no_token();
            assert(again =~= Seq::<char>::empty());
        },
    }
}

/// No token stands at the front of the empty input, so its token sequence
/// is empty.
pub proof fn lemma_empty_input_has_no_token()
    ensures
        match_item(Seq::<char>::empty()) is None,
        tokenize(Seq::<char>::empty()).0.len() == 0,
{
    lemma_keywords();
}

/// A quoted span in front of any remainder: where `text` holds no double
/// quote, `"text"` followed by `rest` gives the token `Quoted(text)` and
/// leaves exactly `rest`.
pub proof fn lemma_quoted_leaves_rest(text: Seq<char>, rest: Seq<char>)
    requires
        !text.contains('"'),
    ensures
        match_quoted(seq!['"'] + text + seq!['"'] + rest) == Some(
            (Token::Quoted(text), text.len() + 2),
        ),
        (seq!['"'] + text + seq!['"'] + rest).skip((text.len() + 2) as int) == rest,
{
    let s = seq!['"'] + text + seq!['"'] + rest;
    let inside = s.skip(1);
    lemma_keywords();
    assert forall|i: int| 0 <= i < text.len() implies !quote_stop().contains(
        #[trigger] inside[i],
    ) by {
        assert(inside[i] == text[i]);
        assert(text.contains(text[i]));
    }
    assert(inside[text.len() as int] == '"');
    assert(quote_stop()[0] == '"');
    lemma_span_excluding_unique(inside, quote_stop(), text.len());
    assert(s.subrange(1, (text.len() + 1) as int) =~= text);
    assert(s.skip((text.len() + 2) as int) =~= rest);
}

/// An opening quote without a closing one gives no token: not from the
/// quoted matcher, and not from any other.
pub proof fn lemma_unterminated_quote_fails(text: Seq<char>)
    requires
        !text.contains('"'),
    ensures
        match_quoted(seq!['"'] + text) is None,
        match_item(seq!['"'] + text) is None,
        tokenize(seq!['"'] + text).0.len() == 0,
{
    let s = seq!['"'] + text;
    let inside = s.skip(1);
    lemma_keywords();
    lemma_keyword_prefixes(s);
    lemma_single_alphabet('"');
    assert(s[0] == '"');
    assert(inside =~= text);
    assert forall|i: int| 0 <= i < text.len() implies !quote_stop().contains(
        #[trigger] inside[i],
    ) by {
        assert(text.contains(text[i]));
    }
    lemma_span_excluding_unique(inside, quote_stop(), text.len());
}

/// The keyword `@` in front of any remainder gives `Standard("@")` and
/// leaves exactly the remainder.
pub proof fn lemma_at_sign_leaves_rest(rest: Seq<char>)
    ensures
        match_standard(seq!['@'] + rest) == Some((Token::Standard(seq!['@']), 1nat)),
        (seq!['@'] + rest).skip(1) == rest,
{
    lemma_keywords();
    let s = seq!['@'] + rest;
    lemma_keyword_prefixes(s);
    assert(s[0] == '@');
    assert(s.skip(1) =~= rest);
}

/// Priority of the escape form: a `!` and any character `c`, in front of
/// any remainder, give the one token `Exclamation(c)`, whatever `c` would
/// mean by itself, and leave exactly the remainder.
pub proof fn lemma_escape_comes_first(c: char, rest: Seq<char>)
    ensures
        match_item(seq!['!', c] + rest) == Some((Token::Exclamation(c), 2nat)),
        (seq!['!', c] + rest).skip(2) == rest,
{
    assert((seq!['!', c] + rest).skip(2) =~= rest);
}

} // verus!

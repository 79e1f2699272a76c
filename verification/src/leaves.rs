//! The leaf recognizers, taken from `nom`.
//!
//! Each function here hands one call to `nom` and states, over `Seq<char>`,
//! what that call returns. These contracts are believed, not proved.

use vstd::prelude::*;

verus! {

/// `nom::Err`, carried through as an opaque value.
#[verifier::external_type_specification]
#[verifier::external_body]
#[verifier::reject_recursive_types(E)]
pub struct ExNomErr<E>(nom::Err<E>);

/// `nom::error::Error`, carried through as an opaque value.
#[verifier::external_type_specification]
#[verifier::external_body]
#[verifier::reject_recursive_types(I)]
pub struct ExNomError<I>(nom::error::Error<I>);

/// Whether `s` begins with the character `c`.
pub open spec fn starts_with_char(s: Seq<char>, c: char) -> bool {
    s.len() > 0 && s[0] == c
}

/// The length of the longest prefix of `s` that holds no character of `stop`.
pub open spec fn span_excluding(s: Seq<char>, stop: Seq<char>) -> nat
    decreases s.len(),
{
    if s.len() == 0 || stop.contains(s[0]) {
        0
    } else {
        1 + span_excluding(s.skip(1), stop)
    }
}

/// `nom::character::complete::char`: succeeds exactly when the input starts
/// with `c`, and then returns `c` and the input after that one character.
#[verifier::external_body]
pub(crate) fn leading_char<'a>(c: char, input: &'a str) -> (r: Result<
    (&'a str, char),
    nom::Err<nom::error::Error<&'a str>>,
>)
    ensures
        match r {
            Ok((rest, got)) => starts_with_char(input@, c) && got == c && rest@ == input@.skip(1),
            Err(_) => !starts_with_char(input@, c),
        },
{
    nom::character::complete::char(c)(input)
}

/// `nom::bytes::complete::tag`: succeeds exactly when `literal` is a prefix
/// of the input, and then returns that prefix and the input after it.
#[verifier::external_body]
pub(crate) fn leading_tag<'a>(literal: &str, input: &'a str) -> (r: Result<
    (&'a str, &'a str),
    nom::Err<nom::error::Error<&'a str>>,
>)
    ensures
        match r {
            Ok((rest, hit)) => literal@.is_prefix_of(input@) && hit@ == literal@
                && rest@ == input@.skip(literal@.len() as int),
            Err(_) => !literal@.is_prefix_of(input@),
        },
{
    nom::bytes::complete::tag(literal)(input)
}

/// `nom::bytes::complete::take`: on a string it counts characters. It
/// succeeds exactly when the input holds at least `count` of them, and then
/// returns the first `count` characters and the input after them.
#[verifier::external_body]
pub(crate) fn leading_chars<'a>(count: usize, input: &'a str) -> (r: Result<
    (&'a str, &'a str),
    nom::Err<nom::error::Error<&'a str>>,
>)
    ensures
        match r {
            Ok((rest, taken)) => count <= input@.len() && taken@ == input@.take(count as int)
                && rest@ == input@.skip(count as int),
            Err(_) => count > input@.len(),
        },
{
    nom::bytes::complete::take(count)(input)
}

/// `nom::bytes::complete::is_not`: returns the longest prefix of the input
/// that holds no character of `stop`, and the input after it. It fails
/// exactly when that prefix is empty.
#[verifier::external_body]
pub(crate) fn leading_span_without<'a>(stop: &str, input: &'a str) -> (r: Result<
    (&'a str, &'a str),
    nom::Err<nom::error::Error<&'a str>>,
>)
    ensures
        match r {
            Ok((rest, run)) => span_excluding(input@, stop@) > 0
                && run@ == input@.take(span_excluding(input@, stop@) as int)
                && rest@ == input@.skip(span_excluding(input@, stop@) as int),
            Err(_) => span_excluding(input@, stop@) == 0,
        },
{
    nom::bytes::complete::is_not(stop)(input)
}

} // verus!

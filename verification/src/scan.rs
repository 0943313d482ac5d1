//! The recognizers of the `nom` crate that the parser is built on, and the
//! comparison of two texts.
//!
//! Nothing in this file is proved: each function hands its arguments to one
//! function of `nom` or of the standard library, and its contract restates
//! what that function does on a `&str`.

use vstd::prelude::*;
use crate::text::{CharClass, run_len};

verus! {

/// The error type of `nom`; the parser only tells it from success.
#[verifier::external_type_specification]
#[verifier::external_body]
#[verifier::reject_recursive_types(E)]
pub struct ExNomErr<E>(nom::Err<E>);

/// The error codes of `nom`; carried inside its error type and never read.
#[verifier::external_type_specification]
#[verifier::external_body]
pub struct ExErrorKind(nom::error::ErrorKind);

/// `nom::bytes::complete::tag`: succeeds exactly when `input` starts with
/// `word`, and then splits `input` after it.
#[verifier::external_body]
pub(crate) fn tag<'a>(word: &str, input: &'a str) -> (r: Result<
    (&'a str, &'a str),
    nom::Err<(&'a str, nom::error::ErrorKind)>,
>)
    ensures
        r is Ok <==> word@.is_prefix_of(input@),
        r matches Ok((rest, taken)) ==> taken@ == word@ && rest@ == input@.skip(
            word@.len() as int,
        ),
{
    nom::bytes::complete::tag(word)(input)
}

/// `nom::character::complete::digit1`: splits `input` after its longest
/// prefix of ASCII digits, and fails where that prefix is empty.
#[verifier::external_body]
pub(crate) fn digit1<'a>(input: &'a str) -> (r: Result<
    (&'a str, &'a str),
    nom::Err<(&'a str, nom::error::ErrorKind)>,
>)
    ensures
        r is Ok <==> run_len(input@, CharClass::Digit) > 0,
        r matches Ok((rest, taken)) ==> taken@ == input@.take(
            run_len(input@, CharClass::Digit) as int,
        ) && rest@ == input@.skip(run_len(input@, CharClass::Digit) as int),
{
    nom::character::complete::digit1(input)
}

/// `nom::character::complete::alphanumeric1`: splits `input` after its
/// longest prefix of ASCII letters and digits, and fails where that prefix
/// is empty.
#[verifier::external_body]
pub(crate) fn alphanumeric1<'a>(input: &'a str) -> (r: Result<
    (&'a str, &'a str),
    nom::Err<(&'a str, nom::error::ErrorKind)>,
>)
    ensures
        r is Ok <==> run_len(input@, CharClass::Alnum) > 0,
        r matches Ok((rest, taken)) ==> taken@ == input@.take(
            run_len(input@, CharClass::Alnum) as int,
        ) && rest@ == input@.skip(run_len(input@, CharClass::Alnum) as int),
{
    nom::character::complete::alphanumeric1(input)
}

/// `nom::bytes::complete::is_not`: splits `input` before the first
/// character that occurs in `stops`, or at its end where none does, and
/// fails where that leaves an empty prefix.
#[verifier::external_body]
pub(crate) fn is_not<'a>(stops: &str, input: &'a str) -> (r: Result<
    (&'a str, &'a str),
    nom::Err<(&'a str, nom::error::ErrorKind)>,
>)
    ensures
        r is Ok <==> run_len(input@, CharClass::Except(stops@)) > 0,
        r matches Ok((rest, taken)) ==> taken@ == input@.take(
            run_len(input@, CharClass::Except(stops@)) as int,
        ) && rest@ == input@.skip(run_len(input@, CharClass::Except(stops@)) as int),
{
    nom::bytes::complete::is_not(stops)(input)
}

/// `==` on `str`: whether two texts hold the same characters.
#[verifier::external_body]
pub(crate) fn str_eq(a: &str, b: &str) -> (same: bool)
    ensures
        same == (a@ == b@),
{
    a == b
}

} // verus!

//! Searching and replacing by regular expressions, and text from bytes.

use vstd::prelude::*;
use vstd::utf8::{decode_utf8, valid_utf8};

verus! {

/// The error with which the pattern engine refuses a pattern.
#[verifier::external_type_specification]
#[verifier::external_body]
pub struct ExPatternError(regex::Error);

/// Whether the engine accepts `pattern` as a regular expression over text.
pub uninterp spec fn is_pattern(pattern: Seq<char>) -> bool;

/// `text` with every match of `pattern` replaced by `replacement`, as the
/// engine does it.
pub uninterp spec fn replaced_all(
    pattern: Seq<char>,
    text: Seq<char>,
    replacement: Seq<char>,
) -> Seq<char>;

/// Whether the engine accepts `pattern` as a regular expression over bytes.
pub uninterp spec fn is_byte_pattern(pattern: Seq<char>) -> bool;

/// For each match of `pattern` in `haystack`, in order, what its first
/// group matched; nothing where the pattern has no group or the group took
/// no part in the match.
pub uninterp spec fn first_groups(pattern: Seq<char>, haystack: Seq<u8>) -> Seq<Option<Seq<u8>>>;

/// Replaces every match of `pattern` in `text` by `replacement`.
///
/// Calls `regex::Regex::new` and `Regex::replace_all`. The engine refuses
/// some patterns; whether it does depends on the pattern alone. What it
/// returns for a pattern that it accepts depends on the three texts alone.
#[verifier::external_body]
pub(crate) fn replace_all(pattern: &str, text: &str, replacement: &str) -> (r: Result<
    String,
    regex::Error,
>)
    ensures
        r is Ok <==> is_pattern(pattern@),
        r matches Ok(s) ==> s@ == replaced_all(pattern@, text@, replacement@),
{
    let re = regex::Regex::new(pattern)?;
    Ok(re.replace_all(text, replacement).into_owned())
}

/// Finds every match of `pattern` in `haystack` and hands out what the
/// first group of each matched.
///
/// Calls `regex::bytes::Regex::new`, `Regex::captures_iter` and
/// `Captures::get`. The engine refuses some patterns; whether it does
/// depends on the pattern alone. What it finds depends on the pattern and
/// the bytes alone.
#[verifier::external_body]
pub(crate) fn capture_first_groups(pattern: &str, haystack: &[u8]) -> (r: Result<
    Vec<Option<Vec<u8>>>,
    regex::Error,
>)
    ensures
        r is Ok <==> is_byte_pattern(pattern@),
        r matches Ok(v) ==> v.deep_view() == first_groups(pattern@, haystack@),
{
    let re = regex::bytes::Regex::new(pattern)?;
    Ok(re.captures_iter(haystack).map(|c| c.get(1).map(|m| m.as_bytes().to_vec())).collect())
}

/// The text that `bytes` encode in UTF-8, if they encode one.
///
/// Calls `String::from_utf8`, which succeeds on valid UTF-8 and on nothing
/// else, and then holds the characters that the bytes encode.
#[verifier::external_body]
pub(crate) fn text_of_bytes(bytes: Vec<u8>) -> (r: Option<String>)
    ensures
        r is Some <==> valid_utf8(bytes@),
        r matches Some(s) ==> s@ == decode_utf8(bytes@),
{
    String::from_utf8(bytes).ok()
}

} // verus!

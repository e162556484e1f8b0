//! Text out of bytes: lossy decoding and pattern search.
//!
//! The two functions `string_from_utf8_lossy` and `regex_find_all` are not
//! verified: Verus takes their contracts on trust. Everything the library
//! does with what they return is verified.

use crate::error::SaveError;
use regex::Regex;
use vstd::prelude::*;
use vstd::utf8::{decode_utf8, valid_utf8};

verus! {

/// The text that lossy UTF-8 decoding makes of a byte string: the decoded
/// characters, with U+FFFD wherever the bytes are not valid UTF-8.
pub uninterp spec fn utf8_lossy(bytes: Seq<u8>) -> Seq<char>;

/// The texts of the successive non-overlapping matches of a pattern in a
/// haystack, each as its UTF-8 bytes, in the order in which they occur; or
/// nothing where the pattern is not a valid regular expression.
pub uninterp spec fn regex_matches(pattern: Seq<char>, haystack: Seq<char>) -> Option<
    Seq<Seq<u8>>,
>;

/// The matches of a pattern in the text that lossy decoding makes of the
/// bytes; a pattern that the engine rejects is an error.
pub open spec fn pattern_matches(pattern: Seq<char>, content: Seq<u8>) -> Result<
    Seq<Seq<u8>>,
    SaveError,
> {
    match regex_matches(pattern, utf8_lossy(content)) {
        Some(matches) => Ok(matches),
        None => Err(SaveError::PatternRejected),
    }
}

/// A result of byte strings as mathematical values.
pub open spec fn names_result_view(result: Result<Vec<Vec<u8>>, SaveError>) -> Result<
    Seq<Seq<u8>>,
    SaveError,
> {
    match result {
        Ok(names) => Ok(names.deep_view()),
        Err(error) => Err(error),
    }
}

/// Searches bytes for a pattern: decodes them lossily and collects the texts
/// of the matches in the order in which they occur.
pub fn find_pattern_matches(pattern: &str, content: &[u8]) -> (result: Result<
    Vec<Vec<u8>>,
    SaveError,
>)
    ensures
        names_result_view(result) == pattern_matches(pattern@, content@),
{
    let text: String = string_from_utf8_lossy(content);
    match regex_find_all(pattern, text.as_str()) {
        Some(matches) => Ok(matches),
        None => Err(SaveError::PatternRejected),
    }
}

/// Decodes bytes as `String::from_utf8_lossy` of the standard library does.
///
/// Trusted: the result is the lossy decoding of the bytes, and for bytes that
/// are valid UTF-8 it is their exact decoding.
#[verifier::external_body]
pub(crate) fn string_from_utf8_lossy(bytes: &[u8]) -> (text: String)
    ensures
        text@ == utf8_lossy(bytes@),
        valid_utf8(bytes@) ==> text@ == decode_utf8(bytes@),
{
    String::from_utf8_lossy(bytes).into_owned()
}

/// Compiles `pattern` with `regex::Regex::new` and collects the matches that
/// `Regex::find_iter` yields on `haystack`.
///
/// Trusted: the result is `None` exactly when the pattern is rejected, and
/// otherwise holds the bytes of each match's text in the order of the matches.
/// Nothing is claimed about which texts match.
#[verifier::external_body]
pub(crate) fn regex_find_all(pattern: &str, haystack: &str) -> (found: Option<Vec<Vec<u8>>>)
    ensures
        found is None ==> regex_matches(pattern@, haystack@) is None,
        found matches Some(texts) ==> regex_matches(pattern@, haystack@) == Some(
            texts.deep_view(),
        ),
{
    match Regex::new(pattern) {
        Ok(re) => Some(re.find_iter(haystack).map(|m| m.as_str().as_bytes().to_vec()).collect()),
        Err(_) => None,
    }
}

} // verus!

//! The regex crate as this library sees it: compiled patterns and the
//! replacement of their matches. Nothing in this file is proved; each item
//! says what it takes on trust.

use regex::NoExpand;
use regex::Regex;
use vstd::prelude::*;

use crate::splice::replaces_spans;

verus! {

/// A compiled pattern of the regex crate. Its inside is hidden.
#[verifier::external_type_specification]
#[verifier::external_body]
pub struct ExRegex(regex::Regex);

/// The regex crate's error for a pattern that cannot be compiled. Its inside is hidden.
#[verifier::external_type_specification]
#[verifier::external_body]
pub struct ExRegexError(regex::Error);

/// The pattern that a compiled regex searches by, with the options it was
/// built under: for a regex that `Regex::new` made, the text handed to
/// `Regex::new`.
pub uninterp spec fn regex_source(re: Regex) -> Seq<char>;

/// The successive non-overlapping matches of a pattern in a text, leftmost
/// first, as `Regex::find_iter` yields them: each a pair of start and end,
/// counted in characters of the text.
pub uninterp spec fn regex_matches(pattern: Seq<char>, text: Seq<char>) -> Seq<(int, int)>;

/// Whether `Regex::new` makes a regex of a pattern: whether the text is a
/// pattern in the crate's syntax and small enough for the crate's default
/// limit on the size of a compiled regex.
pub uninterp spec fn regex_compiles(pattern: Seq<char>) -> bool;

/// `Regex::new`: compiles a pattern with the crate's default options.
/// Trusted: whether a regex comes back depends on the pattern alone, and the
/// regex that comes back searches by the pattern handed in.
#[verifier::external_body]
pub(crate) fn compile(pattern: &str) -> (r: Result<Regex, regex::Error>)
    ensures
        r is Ok <==> regex_compiles(pattern@),
        r matches Ok(re) ==> regex_source(re) == pattern@,
{
    Regex::new(pattern)
}

/// `Regex::replace_all` with the replacement taken literally (`NoExpand`).
/// Trusted: the matches of the regex in the text lie in order within it, and
/// what comes back is the text with each of them replaced by the replacement
/// and everything between them kept.
#[verifier::external_body]
pub(crate) fn replace_all(re: &Regex, text: &str, replacement: &str) -> (out: String)
    ensures
        replaces_spans(out@, text@, regex_matches(regex_source(*re), text@), replacement@),
{
    re.replace_all(text, NoExpand(replacement)).into_owned()
}

} // verus!

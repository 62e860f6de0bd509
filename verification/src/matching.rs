//! Pattern matching through the `regex` crate. Whether a pattern compiles,
//! and whether it matches a text, are functions of the two strings alone;
//! both get a name, and every caller's contract is exact over those names.

use vstd::prelude::*;

verus! {

#[verifier::external_type_specification]
#[verifier::external_body]
pub struct ExRegex(regex::Regex);

/// The pattern a compiled regex was built from.
pub uninterp spec fn pattern_of(re: regex::Regex) -> Seq<char>;

/// Whether the regex crate accepts `pat` as a pattern.
pub uninterp spec fn pattern_is_valid(pat: Seq<char>) -> bool;

/// Whether the pattern `pat` matches anywhere in `text`.
pub uninterp spec fn pattern_matches(pat: Seq<char>, text: Seq<char>) -> bool;

/// Relies on `regex::Regex::new`: compilation succeeds or fails by the
/// pattern string alone, and the compiled value stands for that pattern.
#[verifier::external_body]
fn compile_pattern(pat: &str) -> (r: Option<regex::Regex>)
    ensures
        r is Some <==> pattern_is_valid(pat@),
        r matches Some(re) ==> pattern_of(re) == pat@,
{
    regex::Regex::new(pat).ok()
}

/// Relies on `regex::Regex::is_match`: the answer depends on the compiled
/// pattern and the haystack alone.
#[verifier::external_body]
fn regex_is_match(re: &regex::Regex, text: &str) -> (r: bool)
    ensures
        r == pattern_matches(pattern_of(*re), text@),
{
    re.is_match(text)
}

/// Compiles `pat` and tests it against `text`: `None` exactly when the
/// pattern is invalid, and otherwise exactly the match answer.
pub fn match_pattern(pat: &str, text: &str) -> (r: Option<bool>)
    ensures
        r is Some <==> pattern_is_valid(pat@),
        r matches Some(b) ==> b == pattern_matches(pat@, text@),
{
    match compile_pattern(pat) {
        Some(re) => Some(regex_is_match(&re, text)),
        None => None,
    }
}

/// Whether `text` has the digits-dash shape of a calendar date. Should the
/// regex crate ever refuse the (fixed) pattern, the answer is `false`.
pub fn is_date_format(text: &str) -> (r: bool)
    ensures
        pattern_is_valid("^\\d{4}-\\d{2}-\\d{2}$"@)
            ==> r == pattern_matches("^\\d{4}-\\d{2}-\\d{2}$"@, text@),
        !pattern_is_valid("^\\d{4}-\\d{2}-\\d{2}$"@) ==> !r,
{
    match match_pattern("^\\d{4}-\\d{2}-\\d{2}$", text) {
        Some(b) => b,
        None => false,
    }
}

} // verus!

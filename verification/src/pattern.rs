//! Regular expressions, compiled and run by the `regex` crate. Nothing is
//! proved about what an expression accepts: the answers are only named, so
//! that contracts can say which expression was asked about which text.

use vstd::prelude::*;

verus! {

#[verifier::external_type_specification]
#[verifier::external_body]
pub struct ExRegex(regex::Regex);

#[verifier::external_type_specification]
#[verifier::external_body]
pub struct ExRegexError(regex::Error);

/// The pattern text a compiled expression was built from, which is what
/// `regex::Regex::as_str` reports.
pub uninterp spec fn regex_pattern(re: regex::Regex) -> Seq<char>;

/// Whether a compiled expression finds a match anywhere in `text`.
pub uninterp spec fn regex_accepts(re: regex::Regex, text: Seq<char>) -> bool;

/// Whether a pattern text is a valid expression that compiles within the
/// default size limits.
pub uninterp spec fn pattern_compiles(pattern: Seq<char>) -> bool;

/// Trusted: `regex::Regex::new` compiles a pattern under the default options.
/// The contract claims that success depends on the pattern text alone and
/// that the compiled expression remembers the text it was given.
#[verifier::external_body]
pub(crate) fn compile(pattern: &str) -> (r: Result<regex::Regex, regex::Error>)
    ensures
        r is Ok <==> pattern_compiles(pattern@),
        r matches Ok(re) ==> regex_pattern(re) == pattern@,
{
    regex::Regex::new(pattern)
}

/// Trusted: `regex::Regex::is_match` reports whether the expression matches
/// anywhere in the haystack. The contract only names that answer.
#[verifier::external_body]
pub(crate) fn is_match(re: &regex::Regex, text: &str) -> (r: bool)
    ensures
        r == regex_accepts(*re, text@),
{
    re.is_match(text)
}

} // verus!

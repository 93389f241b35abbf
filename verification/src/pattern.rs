//! Regular expressions, compiled and matched by the `regex` crate.

use vstd::prelude::*;
use regex::Regex;

verus! {

/// `regex::Regex`, a compiled regular expression.
#[verifier::external_type_specification]
#[verifier::external_body]
pub struct ExRegex(regex::Regex);

/// `regex::Error`, the reason why a pattern does not compile.
#[verifier::external_type_specification]
#[verifier::external_body]
pub struct ExRegexError(regex::Error);

/// The texts in which a compiled regular expression finds a match.
pub uninterp spec fn regex_language(re: Regex) -> Set<Seq<char>>;

/// What `Regex::new` makes of a pattern: nothing when the pattern does not
/// compile, else the texts in which the compiled expression finds a match.
pub uninterp spec fn pattern_language(pattern: Seq<char>) -> Option<Set<Seq<char>>>;

/// Calls `Regex::new`, which compiles a pattern or reports why it cannot.
/// The outcome depends on the pattern alone.
#[verifier::external_body]
fn regex_new(pattern: &str) -> (r: Result<Regex, regex::Error>)
    ensures
        match r {
            Ok(re) => pattern_language(pattern@) == Some(regex_language(re)),
            Err(_) => pattern_language(pattern@) is None,
        },
{
    Regex::new(pattern)
}

/// Calls `Regex::is_match`, which is true exactly when the expression finds
/// a match anywhere in the text.
#[verifier::external_body]
fn regex_is_match(re: &Regex, text: &str) -> (r: bool)
    ensures
        r == regex_language(*re).contains(text@),
{
    re.is_match(text)
}

/// Whether `re` is what compiling `pattern` gives.
pub open spec fn compiled_from(re: Option<Regex>, pattern: Seq<char>) -> bool {
    match re {
        Some(r) => pattern_language(pattern) == Some(regex_language(r)),
        None => pattern_language(pattern) is None,
    }
}

/// Compiles a pattern; a pattern that does not compile gives `None`.
pub fn compile_regex(pattern: &str) -> (r: Option<Regex>)
    ensures
        compiled_from(r, pattern@),
{
    match regex_new(pattern) {
        Ok(regex) => Some(regex),
        Err(_) => None,
    }
}

/// Whether the expression finds a match anywhere in the text.
pub fn is_match(re: &Regex, text: &str) -> (r: bool)
    ensures
        r == regex_language(*re).contains(text@),
{
    regex_is_match(re, text)
}

} // verus!

//! String helpers on top of the standard library.

use vstd::prelude::*;

verus! {

/// The lowercase form that `str::to_lowercase` gives a string.
pub uninterp spec fn lowercase(s: Seq<char>) -> Seq<char>;

/// Calls `str::to_lowercase`. The result is the lowercase form of the
/// argument, which depends on the characters of the argument alone.
#[verifier::external_body]
pub(crate) fn to_lowercase(s: &str) -> (r: String)
    ensures
        r@ == lowercase(s@),
{
    s.to_lowercase()
}

/// The characters of an optional string.
pub open spec fn opt_text(s: Option<String>) -> Option<Seq<char>> {
    match s {
        Some(t) => Some(t@),
        None => None,
    }
}

/// The text that the `Debug` form of an optional string prints.
pub uninterp spec fn debug_form(s: Option<Seq<char>>) -> Seq<char>;

/// Formats an optional string with `{:?}`. The text depends on the
/// characters of the string alone.
#[verifier::external_body]
pub(crate) fn debug_text(s: &Option<String>) -> (r: String)
    ensures
        r@ == debug_form(opt_text(*s)),
{
    format!("{:?}", s)
}

/// Calls `==` on two string slices, which holds exactly when they are made of
/// the same characters.
#[verifier::external_body]
pub(crate) fn str_eq(a: &str, b: &str) -> (r: bool)
    ensures
        r == (a@ == b@),
{
    a == b
}

} // verus!

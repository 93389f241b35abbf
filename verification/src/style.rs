//! Styled text for terminals, made by the `colored` crate.

use vstd::prelude::*;
use colored::{ColoredString, Colorize};

verus! {

/// `colored::ColoredString`, a text with its colour and style.
#[verifier::external_type_specification]
#[verifier::external_body]
pub struct ExColoredString(colored::ColoredString);

/// The plain text that a styled string carries.
pub uninterp spec fn colored_text(c: ColoredString) -> Seq<char>;

/// The foreground colour of a styled string, as the code that
/// `Color::to_fg_str` gives for it, if it has one.
pub uninterp spec fn colored_foreground(c: ColoredString) -> Option<Seq<char>>;

/// Whether a styled string is set in bold.
pub uninterp spec fn colored_bold(c: ColoredString) -> bool;

/// Calls `Colorize::blue` on a string slice: the text in blue (code 34),
/// with no other style.
#[verifier::external_body]
fn blue(text: &str) -> (c: ColoredString)
    ensures
        colored_text(c) == text@,
        colored_foreground(c) == Some("34"@),
        !colored_bold(c),
{
    text.blue()
}

/// Calls `Colorize::yellow` on a string slice: the text in yellow (code 33),
/// with no other style.
#[verifier::external_body]
fn yellow(text: &str) -> (c: ColoredString)
    ensures
        colored_text(c) == text@,
        colored_foreground(c) == Some("33"@),
        !colored_bold(c),
{
    text.yellow()
}

/// Calls `Colorize::bold` on a styled string: the same text and colour, set
/// in bold.
#[verifier::external_body]
fn bold(c: ColoredString) -> (r: ColoredString)
    ensures
        colored_text(r) == colored_text(c),
        colored_foreground(r) == colored_foreground(c),
        colored_bold(r),
{
    c.bold()
}

/// The text in bold blue, which marks an action.
pub fn action_style(text: &str) -> (c: ColoredString)
    ensures
        colored_text(c) == text@,
        colored_foreground(c) == Some("34"@),
        colored_bold(c),
{
    bold(blue(text))
}

/// The text in bold yellow, which marks a resource that is left alone.
pub fn skip_style(text: &str) -> (c: ColoredString)
    ensures
        colored_text(c) == text@,
        colored_foreground(c) == Some("33"@),
        colored_bold(c),
{
    bold(yellow(text))
}

} // verus!

//! Terminal colouring at the library's boundary.
//!
//! The renderer's colours come from the `colorful` crate.  Each wrapper below
//! applies one fixed foreground colour (and optionally the bold style) to a
//! piece of text; what `colorful` produces for that is a single
//! select-graphic-rendition sequence round the text, stated exactly by
//! [`ansi_colored`].

use colorful::Colorful;
use vstd::prelude::*;

verus! {

/// A simple-mode ANSI styling of `text`: a select-graphic-rendition prefix
/// with the 256-colour foreground `code`, the bold parameter when `bold`,
/// then the text, then the reset sequence.
pub open spec fn ansi_colored(code: Seq<char>, bold: bool, text: Seq<char>) -> Seq<char> {
    "\u{1b}[38;5;"@ + code + (if bold {
        ";1"@
    } else {
        Seq::<char>::empty()
    }) + "m"@ + text + "\u{1b}[0m"@
}

/// Relies on colorful's `Colorful::color` with `Color::LightGray`, whose
/// simple-mode foreground code is 7.
#[verifier::external_body]
pub(crate) fn paint_light_gray(text: &str) -> (r: String)
    ensures
        r@ == ansi_colored(seq!['7'], false, text@),
{
    format!("{}", text.color(colorful::Color::LightGray))
}

/// Relies on colorful's `Colorful::color` with `Color::Green`, whose
/// simple-mode foreground code is 2.
#[verifier::external_body]
pub(crate) fn paint_green(text: &str) -> (r: String)
    ensures
        r@ == ansi_colored(seq!['2'], false, text@),
{
    format!("{}", text.color(colorful::Color::Green))
}

/// Relies on colorful's `Colorful::color` with `Color::Green` and
/// `CString::style` with `Style::Bold`, which adds the parameter 1.
#[verifier::external_body]
pub(crate) fn paint_green_bold(text: &str) -> (r: String)
    ensures
        r@ == ansi_colored(seq!['2'], true, text@),
{
    format!("{}", text.color(colorful::Color::Green).style(colorful::Style::Bold))
}

/// Relies on colorful's `Colorful::color` with `Color::Yellow`, whose
/// simple-mode foreground code is 3.
#[verifier::external_body]
pub(crate) fn paint_yellow(text: &str) -> (r: String)
    ensures
        r@ == ansi_colored(seq!['3'], false, text@),
{
    format!("{}", text.color(colorful::Color::Yellow))
}

/// Relies on colorful's `Colorful::color` with `Color::Yellow` and
/// `CString::style` with `Style::Bold`, which adds the parameter 1.
#[verifier::external_body]
pub(crate) fn paint_yellow_bold(text: &str) -> (r: String)
    ensures
        r@ == ansi_colored(seq!['3'], true, text@),
{
    format!("{}", text.color(colorful::Color::Yellow).style(colorful::Style::Bold))
}

/// Relies on colorful's `Colorful::color` with `Color::Red`, whose
/// simple-mode foreground code is 1.
#[verifier::external_body]
pub(crate) fn paint_red(text: &str) -> (r: String)
    ensures
        r@ == ansi_colored(seq!['1'], false, text@),
{
    format!("{}", text.color(colorful::Color::Red))
}

/// Relies on colorful's `Colorful::color` with `Color::Red` and
/// `CString::style` with `Style::Bold`, which adds the parameter 1.
#[verifier::external_body]
pub(crate) fn paint_red_bold(text: &str) -> (r: String)
    ensures
        r@ == ansi_colored(seq!['1'], true, text@),
{
    format!("{}", text.color(colorful::Color::Red).style(colorful::Style::Bold))
}

/// Relies on colorful's `Colorful::color` with `Color::Magenta`, whose
/// simple-mode foreground code is 5.
#[verifier::external_body]
pub(crate) fn paint_magenta(text: &str) -> (r: String)
    ensures
        r@ == ansi_colored(seq!['5'], false, text@),
{
    format!("{}", text.color(colorful::Color::Magenta))
}

} // verus!

//! The escape sequences that drive the terminal, as the `termion` crate
//! writes them.

use vstd::prelude::*;
use crate::text::decimal;

verus! {

/// The control sequence introducer: the escape character and `[`.
pub open spec fn csi() -> Seq<char> {
    seq!['\x1b', '[']
}

/// The sequence that moves the cursor to column `x` of row `y`, both counted
/// from one: the introducer, the row, `;`, the column, `H`.
pub open spec fn goto_sequence(x: u16, y: u16) -> Seq<char> {
    csi() + decimal(y as nat) + seq![';'] + decimal(x as nat) + seq!['H']
}

/// The sequence that clears the line that the cursor is on.
pub open spec fn clear_line_sequence() -> Seq<char> {
    csi() + seq!['2', 'K']
}

/// The sequence that sets the foreground colour to a red, green and blue
/// value.
pub open spec fn fg_rgb_sequence(r: u8, g: u8, b: u8) -> Seq<char> {
    csi() + seq!['3', '8', ';', '2', ';'] + decimal(r as nat) + seq![';'] + decimal(g as nat)
        + seq![';'] + decimal(b as nat) + seq!['m']
}

/// The sequence that sets the background colour to a red, green and blue
/// value.
pub open spec fn bg_rgb_sequence(r: u8, g: u8, b: u8) -> Seq<char> {
    csi() + seq!['4', '8', ';', '2', ';'] + decimal(r as nat) + seq![';'] + decimal(g as nat)
        + seq![';'] + decimal(b as nat) + seq!['m']
}

/// The sequence that sets the foreground colour back to the terminal's own.
pub open spec fn fg_reset_sequence() -> Seq<char> {
    csi() + seq!['3', '9', 'm']
}

/// The sequence that sets the background colour back to the terminal's own.
pub open spec fn bg_reset_sequence() -> Seq<char> {
    csi() + seq!['4', '9', 'm']
}

/// The sequence that turns italics on.
pub open spec fn italic_sequence() -> Seq<char> {
    csi() + seq!['3', 'm']
}

/// The sequence that turns italics off.
pub open spec fn no_italic_sequence() -> Seq<char> {
    csi() + seq!['2', '3', 'm']
}

/// The sequence that turns underlining on.
pub open spec fn underline_sequence() -> Seq<char> {
    csi() + seq!['4', 'm']
}

/// The sequence that turns underlining off.
pub open spec fn no_underline_sequence() -> Seq<char> {
    csi() + seq!['2', '4', 'm']
}

/// The sequence that moves the cursor to column `x` of row `y`.
///
/// Trusted: the `Display` of `termion::cursor::Goto`, which writes the
/// introducer, the second field, `;`, the first field and `H`, the numbers in
/// decimal, and which refuses, in a debug build, the position whose two
/// fields are both zero.
#[verifier::external_body]
pub(crate) fn goto(x: u16, y: u16) -> (r: String)
    requires
        x != 0 || y != 0,
    ensures
        r@ == goto_sequence(x, y),
{
    format!("{}", termion::cursor::Goto(x, y))
}

/// The sequence that clears the line that the cursor is on.
///
/// Trusted: the `Display` of `termion::clear::CurrentLine`, which writes the
/// introducer and `2K`.
#[verifier::external_body]
pub(crate) fn clear_line() -> (r: String)
    ensures
        r@ == clear_line_sequence(),
{
    format!("{}", termion::clear::CurrentLine)
}

/// The sequence that sets the foreground colour.
///
/// Trusted: `termion::color::Rgb::fg_string`, which joins the introducer,
/// `38;2;`, the three values in decimal with `;` between them, and `m`.
#[verifier::external_body]
pub(crate) fn fg_rgb(r: u8, g: u8, b: u8) -> (s: String)
    ensures
        s@ == fg_rgb_sequence(r, g, b),
{
    termion::color::Rgb(r, g, b).fg_string()
}

/// The sequence that sets the background colour.
///
/// Trusted: `termion::color::Rgb::bg_string`, which joins the introducer,
/// `48;2;`, the three values in decimal with `;` between them, and `m`.
#[verifier::external_body]
pub(crate) fn bg_rgb(r: u8, g: u8, b: u8) -> (s: String)
    ensures
        s@ == bg_rgb_sequence(r, g, b),
{
    termion::color::Rgb(r, g, b).bg_string()
}

/// The sequence that resets the foreground colour.
///
/// Trusted: `termion::color::Reset::fg_str`, which is the introducer and
/// `39m`.
#[verifier::external_body]
pub(crate) fn fg_reset() -> (s: String)
    ensures
        s@ == fg_reset_sequence(),
{
    termion::color::Reset.fg_str().to_string()
}

/// The sequence that resets the background colour.
///
/// Trusted: `termion::color::Reset::bg_str`, which is the introducer and
/// `49m`.
#[verifier::external_body]
pub(crate) fn bg_reset() -> (s: String)
    ensures
        s@ == bg_reset_sequence(),
{
    termion::color::Reset.bg_str().to_string()
}

/// The sequence that turns italics on.
///
/// Trusted: the `Display` of `termion::style::Italic`, which writes the
/// introducer and `3m`.
#[verifier::external_body]
pub(crate) fn italic() -> (s: String)
    ensures
        s@ == italic_sequence(),
{
    format!("{}", termion::style::Italic)
}

/// The sequence that turns italics off.
///
/// Trusted: the `Display` of `termion::style::NoItalic`, which writes the
/// introducer and `23m`.
#[verifier::external_body]
pub(crate) fn no_italic() -> (s: String)
    ensures
        s@ == no_italic_sequence(),
{
    format!("{}", termion::style::NoItalic)
}

/// The sequence that turns underlining on.
///
/// Trusted: the `Display` of `termion::style::Underline`, which writes the
/// introducer and `4m`.
#[verifier::external_body]
pub(crate) fn underline() -> (s: String)
    ensures
        s@ == underline_sequence(),
{
    format!("{}", termion::style::Underline)
}

/// The sequence that turns underlining off.
///
/// Trusted: the `Display` of `termion::style::NoUnderline`, which writes the
/// introducer and `24m`.
#[verifier::external_body]
pub(crate) fn no_underline() -> (s: String)
    ensures
        s@ == no_underline_sequence(),
{
    format!("{}", termion::style::NoUnderline)
}

} // verus!

//! Styles, and the escape sequences that switch them on and off.

use vstd::prelude::*;
use crate::term::{
    bg_reset, bg_reset_sequence, bg_rgb, bg_rgb_sequence, fg_reset, fg_reset_sequence, fg_rgb,
    fg_rgb_sequence, italic, italic_sequence, no_italic, no_italic_sequence, no_underline,
    no_underline_sequence, underline, underline_sequence,
};

verus! {

/// The visual attributes that the editor engine defines for a style id.
///
/// A colour is a 32-bit value whose three low bytes are red, green and blue.
/// The weight is kept as it comes and has no part in the rendering.
#[derive(Debug, Clone, Copy, PartialEq, Eq)]
pub struct Style {
    pub id: u64,
    pub fg_color: Option<u32>,
    pub bg_color: Option<u32>,
    pub weight: Option<u32>,
    pub italic: Option<bool>,
    pub underline: Option<bool>,
}

impl Default for Style {
    fn default() -> (style: Style)
        ensures
            style == (Style {
                id: 0,
                fg_color: None,
                bg_color: None,
                weight: None,
                italic: None,
                underline: None,
            }),
    {
        Style { id: 0, fg_color: None, bg_color: None, weight: None, italic: None, underline: None }
    }
}

/// The red part of a colour.
pub open spec fn red_of(color: u32) -> u8 {
    ((color >> 16) & 0xff) as u8
}

/// The green part of a colour.
pub open spec fn green_of(color: u32) -> u8 {
    ((color >> 8) & 0xff) as u8
}

/// The blue part of a colour.
pub open spec fn blue_of(color: u32) -> u8 {
    (color & 0xff) as u8
}

/// The sequence that switches a style on: its foreground colour, its
/// background colour, italics and underlining, each only where the style has
/// it.
pub open spec fn set_style_sequence(style: Style) -> Seq<char> {
    (match style.fg_color {
        Some(c) => fg_rgb_sequence(red_of(c), green_of(c), blue_of(c)),
        None => Seq::empty(),
    }) + (match style.bg_color {
        Some(c) => bg_rgb_sequence(red_of(c), green_of(c), blue_of(c)),
        None => Seq::empty(),
    }) + (if style.italic == Some(true) {
        italic_sequence()
    } else {
        Seq::empty()
    }) + (if style.underline == Some(true) {
        underline_sequence()
    } else {
        Seq::empty()
    })
}

/// The sequence that switches a style off again: it resets each attribute
/// that [`set_style_sequence`] sets, in the same order.
pub open spec fn reset_style_sequence(style: Style) -> Seq<char> {
    (match style.fg_color {
        Some(_) => fg_reset_sequence(),
        None => Seq::empty(),
    }) + (match style.bg_color {
        Some(_) => bg_reset_sequence(),
        None => Seq::empty(),
    }) + (if style.italic == Some(true) {
        no_italic_sequence()
    } else {
        Seq::empty()
    }) + (if style.underline == Some(true) {
        no_underline_sequence()
    } else {
        Seq::empty()
    })
}

fn red(color: u32) -> (r: u8)
    ensures
        r == red_of(color),
{
    ((color >> 16) & 0xff) as u8
}

fn green(color: u32) -> (r: u8)
    ensures
        r == green_of(color),
{
    ((color >> 8) & 0xff) as u8
}

fn blue(color: u32) -> (r: u8)
    ensures
        r == blue_of(color),
{
    (color & 0xff) as u8
}

/// The escape sequence that switches a style on.
pub fn set_style(style: &Style) -> (s: String)
    ensures
        s@ == set_style_sequence(*style),
{
    let mut s = String::new();
    if let Some(c) = style.fg_color {
        let part = fg_rgb(red(c), green(c), blue(c));
        s.append(part.as_str());
    }
    let ghost after_fg = s@;
    if let Some(c) = style.bg_color {
        let part = bg_rgb(red(c), green(c), blue(c));
        s.append(part.as_str());
    }
    let ghost after_bg = s@;
    if let Some(true) = style.italic {
        let part = italic();
        s.append(part.as_str());
    }
    let ghost after_italic = s@;
    if let Some(true) = style.underline {
        let part = underline();
        s.append(part.as_str());
    }
    proof {
        let empty = Seq::<char>::empty();
        assert(empty + empty =~= empty);
        assert(after_fg + empty =~= after_fg);
        assert(after_bg + empty =~= after_bg);
        assert(after_italic + empty =~= after_italic);
        assert(forall|a: Seq<char>| #[trigger] (empty + a) =~= a);
        assert(s@ =~= set_style_sequence(*style));
    }
    s
}

/// The escape sequence that switches a style off.
pub fn reset_style(style: &Style) -> (s: String)
    ensures
        s@ == reset_style_sequence(*style),
{
    let mut s = String::new();
    if style.fg_color.is_some() {
        let part = fg_reset();
        s.append(part.as_str());
    }
    let ghost after_fg = s@;
    if style.bg_color.is_some() {
        let part = bg_reset();
        s.append(part.as_str());
    }
    let ghost after_bg = s@;
    if let Some(true) = style.italic {
        let part = no_italic();
        s.append(part.as_str());
    }
    let ghost after_italic = s@;
    if let Some(true) = style.underline {
        let part = no_underline();
        s.append(part.as_str());
    }
    proof {
        let empty = Seq::<char>::empty();
        assert(empty + empty =~= empty);
        assert(after_fg + empty =~= after_fg);
        assert(after_bg + empty =~= after_bg);
        assert(after_italic + empty =~= after_italic);
        assert(forall|a: Seq<char>| #[trigger] (empty + a) =~= a);
        assert(s@ =~= reset_style_sequence(*style));
    }
    s
}

} // verus!

//! Terminal colours, and glyphs wrapped in the escape sequences that show
//! them.
use crate::color::{Color, RGBColorU8};
use vstd::prelude::*;

verus! {

/// A colour as a terminal takes it: three eight-bit channels, or an index
/// into the palette of 256 colours.
#[derive(Clone, Copy, Debug, PartialEq, Eq, Structural)]
pub enum TermColor {
    RGB(u8, u8, u8),
    Fixed(u8),
}

/// The index in the palette of 256 terminal colours that
/// `ansi_colours::ansi256_from_rgb` picks as the approximation of a colour.
pub uninterp spec fn ansi256_index(r: u8, g: u8, b: u8) -> u8;

/// Calls `ansi_colours::ansi256_from_rgb` on the three channels. The
/// contract only names what it returns.
#[verifier::external_body]
fn approximate_ansi256(r: u8, g: u8, b: u8) -> (index: u8)
    ensures
        index == ansi256_index(r, g, b),
{
    ansi_colours::ansi256_from_rgb((r, g, b))
}

/// The terminal colour for `color`: its eight-bit channels, or their
/// approximation in the palette.
pub open spec fn term_color(color: Color, truergb: bool) -> TermColor {
    let rgb = color.spec_rgb8();
    if truergb {
        TermColor::RGB(rgb.r, rgb.g, rgb.b)
    } else {
        TermColor::Fixed(ansi256_index(rgb.r, rgb.g, rgb.b))
    }
}

/// Converts a colour for the terminal: to eight-bit channels multiplied by
/// alpha, which are kept in true-colour mode and looked up in the palette
/// otherwise.
pub fn convert(color: Color, truergb: bool) -> (out: TermColor)
    ensures
        out == term_color(color, truergb),
{
    let rgb = RGBColorU8::from(color);
    if truergb {
        TermColor::RGB(rgb.r, rgb.g, rgb.b)
    } else {
        let i = approximate_ansi256(rgb.r, rgb.g, rgb.b);
        TermColor::Fixed(i)
    }
}

/// The character for the decimal digit `d`.
pub open spec fn digit(d: u8) -> char {
    (48 + d) as u8 as char
}

/// A number below 256 written in decimal, without leading zeros.
pub open spec fn decimal(n: u8) -> Seq<char> {
    if n < 10 {
        seq![digit(n)]
    } else if n < 100 {
        seq![digit(n / 10), digit(n % 10)]
    } else {
        seq![digit(n / 100), digit((n / 10) % 10), digit(n % 10)]
    }
}

/// The parameters that select `color`, after the digit that tells
/// foreground (3) from background (4).
pub open spec fn color_parameters(color: TermColor) -> Seq<char> {
    match color {
        TermColor::RGB(r, g, b) => seq!['8', ';', '2', ';'] + decimal(r) + seq![';'] + decimal(g)
            + seq![';'] + decimal(b),
        TermColor::Fixed(index) => seq!['8', ';', '5', ';'] + decimal(index),
    }
}

/// A glyph in the foreground colour `fore`, on the background `back` if
/// there is one: the escape sequence that sets the colours (background
/// first), the glyph, and the escape sequence that resets them.
pub open spec fn painted(fore: TermColor, back: Option<TermColor>, glyph: char) -> Seq<char> {
    let background = match back {
        Some(color) => seq!['4'] + color_parameters(color) + seq![';'],
        None => Seq::<char>::empty(),
    };
    seq!['\x1b', '['] + background + seq!['3'] + color_parameters(fore) + seq!['m', glyph]
        + seq!['\x1b', '[', '0', 'm']
}

/// Calls `ansi_term::Colour::paint` on the glyph and formats the result,
/// which is the glyph between the escape sequence for the foreground colour
/// and the reset sequence.
#[verifier::external_body]
fn paint_fore(fore: TermColor, glyph: char) -> (text: String)
    ensures
        text@ == painted(fore, None, glyph),
{
    let fg = match fore {
        TermColor::RGB(r, g, b) => ansi_term::Colour::RGB(r, g, b),
        TermColor::Fixed(i) => ansi_term::Colour::Fixed(i),
    };
    fg.paint(glyph.to_string()).to_string()
}

/// Calls `ansi_term::Colour::on` and `ansi_term::Style::paint` on the glyph
/// and formats the result, which is the glyph between the escape sequence
/// for background and foreground colour and the reset sequence.
#[verifier::external_body]
fn paint_fore_on_back(fore: TermColor, back: TermColor, glyph: char) -> (text: String)
    ensures
        text@ == painted(fore, Some(back), glyph),
{
    let fg = match fore {
        TermColor::RGB(r, g, b) => ansi_term::Colour::RGB(r, g, b),
        TermColor::Fixed(i) => ansi_term::Colour::Fixed(i),
    };
    let bg = match back {
        TermColor::RGB(r, g, b) => ansi_term::Colour::RGB(r, g, b),
        TermColor::Fixed(i) => ansi_term::Colour::Fixed(i),
    };
    fg.on(bg).paint(glyph.to_string()).to_string()
}

/// The glyph wrapped in the escape sequences for its colours.
pub fn paint(fore: TermColor, back: Option<TermColor>, glyph: char) -> (text: String)
    ensures
        text@ == painted(fore, back, glyph),
{
    match back {
        Some(color) => paint_fore_on_back(fore, color, glyph),
        None => paint_fore(fore, glyph),
    }
}

} // verus!

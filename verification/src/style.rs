//! Cell styles: which of three style identifiers a cell gets, and the colors
//! that a palette gives them.

use colored::Colorize;
use vstd::prelude::*;
use vstd::string::*;

verus! {

/// The visual treatment of a cell: one for names, and two that alternate
/// over the content columns.
#[derive(Clone, Copy, Debug, PartialEq, Eq, Structural)]
pub enum StyleId {
    Name,
    Even,
    Odd,
}

/// The style of content column `i`: `Even` for columns 0, 2, 4, ... and `Odd`
/// for the others.
pub open spec fn style_of_column(i: int) -> StyleId {
    if i % 2 == 0 {
        StyleId::Even
    } else {
        StyleId::Odd
    }
}

/// The style of content column `i`.
pub fn column_style(i: usize) -> (style: StyleId)
    ensures
        style == style_of_column(i as int),
{
    if i % 2 == 0 {
        StyleId::Even
    } else {
        StyleId::Odd
    }
}

/// A color name for each style identifier, as the terminal styling
/// understands them ("blue", "bright red", ...). A name that it does not
/// know is taken as white.
#[derive(Clone, Debug)]
pub struct Palette {
    pub name: String,
    pub even: String,
    pub odd: String,
}

impl Palette {
    /// The color name that the palette gives to `style`.
    pub open spec fn color_name(self, style: StyleId) -> Seq<char> {
        match style {
            StyleId::Name => self.name@,
            StyleId::Even => self.even@,
            StyleId::Odd => self.odd@,
        }
    }

    /// Blue names, yellow even columns, green odd columns.
    pub fn standard() -> (palette: Palette)
        ensures
            palette.name@ == "blue"@,
            palette.even@ == "yellow"@,
            palette.odd@ == "green"@,
    {
        Palette {
            name: String::from_str("blue"),
            even: String::from_str("yellow"),
            odd: String::from_str("green"),
        }
    }

    /// The color name that the palette gives to `style`.
    pub fn color_of(&self, style: StyleId) -> (color: &str)
        ensures
            color@ == self.color_name(style),
    {
        match style {
            StyleId::Name => self.name.as_str(),
            StyleId::Even => self.even.as_str(),
            StyleId::Odd => self.odd.as_str(),
        }
    }
}

/// How cells are emitted: as they are, or colored after a palette.
#[derive(Clone, Debug)]
pub enum Style {
    Plain,
    Styled(Palette),
}

/// Applies a color to `text` with `colored`: `Colorize::color` on the text,
/// with the color's name, then `to_string` on the outcome. Whether escape
/// codes are written at all depends on the terminal and on `NO_COLOR`, so
/// the contract only states what holds either way: the text is written out
/// in full, with or without codes around and inside it, so the result is
/// never shorter than the text.
#[verifier::external_body]
pub(crate) fn paint(text: &str, color: &str) -> (out: String)
    ensures
        out@.len() >= text@.len(),
{
    text.color(color).to_string()
}

} // verus!

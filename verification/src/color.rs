//! Colors and CSS color strings.

use vstd::prelude::*;
use crate::json::JsonValue;

verus! {

/// An RGBA color with 8-bit channels.
#[derive(Debug, Default, Clone, Copy, PartialEq, Eq)]
pub struct Color {
    pub r: u8,
    pub g: u8,
    pub b: u8,
    pub a: u8,
}

impl Color {
    /// The fully transparent black color.
    pub fn transparent() -> (c: Color)
        ensures
            c == (Color { r: 0, g: 0, b: 0, a: 0 }),
    {
        Color { r: 0, g: 0, b: 0, a: 0 }
    }

    /// A color from its four channels.
    pub fn rgba(r: u8, g: u8, b: u8, a: u8) -> (c: Color)
        ensures
            c == (Color { r, g, b, a }),
    {
        Color { r, g, b, a }
    }
}

/// The `[r, g, b, a]` channels that the `csscolorparser` crate reads from a CSS color string,
/// where it accepts the string.
pub uninterp spec fn css_rgba8(s: Seq<char>) -> Option<(u8, u8, u8, u8)>;

/// The color that a CSS color string denotes, where it is one.
pub open spec fn css_color(s: Seq<char>) -> Option<Color> {
    match css_rgba8(s) {
        Some((r, g, b, a)) => Some(Color { r, g, b, a }),
        None => None,
    }
}

/// Calls `csscolorparser::parse` and, where it succeeds, `Color::to_rgba8` on the result.
///
/// Trusted: the contract claims that the result is the named value `css_rgba8` of the
/// string, that is, that the crate reads the same string the same way every time. What the
/// crate accepts and which channels it computes is not stated here.
#[verifier::external_body]
fn css_channels(s: &str) -> (r: Option<(u8, u8, u8, u8)>)
    ensures
        r == css_rgba8(s@),
{
    match csscolorparser::parse(s) {
        Ok(c) => {
            let [r, g, b, a] = c.to_rgba8();
            Some((r, g, b, a))
        },
        Err(_) => None,
    }
}

/// The color from the channels that a CSS color parser read, where it read any.
pub fn color_from_channels(channels: Option<(u8, u8, u8, u8)>) -> (c: Option<Color>)
    ensures
        c == (match channels {
            Some((r, g, b, a)) => Some(Color { r, g, b, a }),
            None => None::<Color>,
        }),
{
    match channels {
        Some((r, g, b, a)) => Some(Color::rgba(r, g, b, a)),
        None => None,
    }
}

/// Parses a CSS color string into a [`Color`]: every CSS color format that the
/// `csscolorparser` crate reads is accepted. Returns `None` for invalid input.
pub fn parse_css_color(s: &str) -> (c: Option<Color>)
    ensures
        c == css_color(s@),
{
    color_from_channels(css_channels(s))
}

/// A color read from a CSS color string in a style document.
#[derive(Debug, Default, Clone, Copy, PartialEq, Eq)]
pub struct MlColor(pub Color);

impl MlColor {
    /// Reads a style color from a CSS color string; `None` where the string is no color.
    pub fn from_css(s: &str) -> (c: Option<MlColor>)
        ensures
            c == (match css_color(s@) {
                Some(col) => Some(MlColor(col)),
                None => None::<MlColor>,
            }),
    {
        match parse_css_color(s) {
            Some(col) => Some(MlColor(col)),
            None => None,
        }
    }

    /// The color itself.
    pub fn color(&self) -> (c: Color)
        ensures
            c == self.0,
    {
        self.0
    }
}

/// Reads an optional CSS color: `null` is `None`, a string is its color, or `None` where it
/// is no color; anything else is invalid (the outer `None`).
pub fn deserialize_opt(v: &JsonValue) -> (r: Option<Option<Color>>)
    ensures
        r == (match *v {
            JsonValue::Null => Some(None::<Color>),
            JsonValue::String(s) => Some(css_color(s@)),
            _ => None,
        }),
{
    match v {
        JsonValue::Null => Some(None),
        JsonValue::String(s) => Some(parse_css_color(s.as_str())),
        _ => None,
    }
}

} // verus!
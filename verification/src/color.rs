//! RGBA colors with 8-bit channels.
//!
//! A channel value `c` denotes the intensity `c / 255`. The default
//! background of the compositor is the dark neutral gray
//! `(43/255, 44/255, 47/255)` with fully transparent alpha.

use vstd::prelude::*;

verus! {

/// An RGBA color; each channel `c` stands for the intensity `c / 255`.
#[derive(Clone, Copy, Debug, PartialEq, Eq, Structural)]
pub struct Color {
    pub r: u8,
    pub g: u8,
    pub b: u8,
    pub a: u8,
}

impl Color {
    /// Builds a color from its four channels.
    pub fn new(r: u8, g: u8, b: u8, a: u8) -> (c: Color)
        ensures
            c == (Color { r, g, b, a }),
    {
        Color { r, g, b, a }
    }

    /// The default background: dark neutral gray, fully transparent.
    pub open spec fn spec_default_background() -> Color {
        Color { r: 43, g: 44, b: 47, a: 0 }
    }

    /// Returns the default background color.
    pub fn default_background() -> (c: Color)
        ensures
            c == Color::spec_default_background(),
    {
        Color { r: 43, g: 44, b: 47, a: 0 }
    }
}

} // verus!

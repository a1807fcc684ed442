use vstd::prelude::*;

verus! {

/// An RGBA color with 8-bit channels, used for viewport clear colors.
#[derive(Clone, Copy, Debug, PartialEq, Eq, Structural)]
pub struct Color {
    /// Red channel.
    pub red: u8,
    /// Blue channel.
    pub blue: u8,
    /// Green channel.
    pub green: u8,
    /// Alpha channel (opacity); 255 is fully opaque.
    pub alpha: u8,
}

impl Color {
    /// The default viewport background: opaque white.
    pub open spec fn white_spec() -> Color {
        Color { red: 255, blue: 255, green: 255, alpha: 255 }
    }

    /// Opaque white.
    pub fn white() -> (c: Color)
        ensures
            c == Color::white_spec(),
    {
        Color { red: 255, blue: 255, green: 255, alpha: 255 }
    }

    /// An opaque color from red, blue and green channels.
    pub fn from_rgb(r: u8, b: u8, g: u8) -> (c: Color)
        ensures
            c == (Color { red: r, blue: b, green: g, alpha: 255u8 }),
    {
        Color { red: r, blue: b, green: g, alpha: 255 }
    }

    /// A color from red, blue, green and alpha channels.
    pub fn from_rgba(r: u8, b: u8, g: u8, a: u8) -> (c: Color)
        ensures
            c == (Color { red: r, blue: b, green: g, alpha: a }),
    {
        Color { red: r, blue: b, green: g, alpha: a }
    }
}

} // verus!

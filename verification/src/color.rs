use vstd::prelude::*;

verus! {

/// An RGBA color.
///
/// Every channel holds the IEEE-754 binary32 encoding of its intensity
/// (`f32::to_bits` of the value; `0.0..=1.0` for ordinary colors). The library
/// moves colors between palettes, tokens and nodes without doing arithmetic on
/// them, so the encoding is kept exactly as the caller gave it.
#[derive(Debug, Clone, Copy, PartialEq, Eq, Structural)]
pub struct Color {
    pub r: u32,
    pub g: u32,
    pub b: u32,
    pub a: u32,
}

/// Encoding of `1.0`.
pub const ONE: u32 = 0x3F80_0000;

/// Encoding of `0.0`.
pub const ZERO: u32 = 0;

/// The color with the given channel encodings.
pub open spec fn rgba(r: u32, g: u32, b: u32, a: u32) -> Color {
    Color { r, g, b, a }
}

impl Color {
    /// Builds a color from the encodings of its four channels.
    pub fn new(r: u32, g: u32, b: u32, a: u32) -> (c: Color)
        ensures
            c == rgba(r, g, b, a),
    {
        Color { r, g, b, a }
    }

    /// Opaque white: every channel `1.0`.
    pub fn white() -> (c: Color)
        ensures
            c == rgba(ONE, ONE, ONE, ONE),
    {
        Color { r: ONE, g: ONE, b: ONE, a: ONE }
    }

    /// Fully transparent black: every channel `0.0`.
    pub fn transparent() -> (c: Color)
        ensures
            c == rgba(ZERO, ZERO, ZERO, ZERO),
    {
        Color { r: ZERO, g: ZERO, b: ZERO, a: ZERO }
    }
}

} // verus!

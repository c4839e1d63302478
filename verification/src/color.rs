//! The RGBA8 pixel value used throughout the crate.

use vstd::prelude::*;

verus! {

/// A 4-channel (R, G, B, A) color, 8 bits per channel, gamma-encoded (sRGB).
///
/// Equality is exact, bit-for-bit per channel; key-color matching relies on
/// that.
#[derive(Clone, Copy, Debug, PartialEq, Eq, Structural)]
pub struct Color {
    /// Red channel.
    pub r: u8,
    /// Green channel.
    pub g: u8,
    /// Blue channel.
    pub b: u8,
    /// Alpha channel.
    pub a: u8,
}

impl Color {
    /// Build a color from its four channels.
    pub fn new(r: u8, g: u8, b: u8, a: u8) -> (c: Color)
        ensures
            c == (Color { r, g, b, a }),
    {
        Color { r, g, b, a }
    }
}

/// The gamma-aware product of one source channel and one tint channel:
/// both are decoded from 8-bit sRGB to linear light, multiplied there, and
/// the product is encoded back to 8 bits. The value depends on the two
/// bytes alone; it is computed by [`tint_color`] below.
pub uninterp spec fn tint_channel_of(s: u8, t: u8) -> u8;

/// The channel-wise gamma-aware product of a source pixel and a tint.
pub open spec fn tinted(src: Color, tint: Color) -> Color {
    Color {
        r: tint_channel_of(src.r, tint.r),
        g: tint_channel_of(src.g, tint.g),
        b: tint_channel_of(src.b, tint.b),
        a: tint_channel_of(src.a, tint.a),
    }
}

/// Multiply `src` by `tint` channel-wise in linear light.
///
/// An opaque white tint reproduces the source pixel exactly; a tint of
/// `(0, 0, 0, 255)` collapses the color channels to zero while the alpha
/// channel follows the same multiplicative rule; and tinting a
/// full-white source gives the tint itself back.
pub fn tint(src: Color, by: Color) -> (c: Color)
    ensures
        c == tinted(src, by),
        by == (Color { r: 255, g: 255, b: 255, a: 255 }) ==> c == src,
        src == (Color { r: 255, g: 255, b: 255, a: 255 }) ==> c == by,
        by.r == 0 ==> c.r == 0,
        by.g == 0 ==> c.g == 0,
        by.b == 0 ==> c.b == 0,
        by.a == 255 ==> c.a == src.a,
{
    tint_color(src, by)
}

/// Multiply `src` by `tint` channel-wise in linear light.
///
/// Relies on `fast_srgb8::srgb8_to_f32` (exact table lookup of the linear
/// value of each 8-bit sRGB byte; 0 maps to 0.0 and 255 to 1.0) and
/// `fast_srgb8::f32x4_to_srgb8` (its lane-wise inverse, which that crate
/// documents to round-trip every byte: encoding the linear value of a byte
/// gives the byte back). So a tint channel of 255 multiplies by 1.0 and
/// returns the source channel unchanged; a tint or source channel of 0
/// makes the linear product 0.0, which encodes to 0; and by commutativity
/// a source channel of 255 returns the tint channel.
#[verifier::external_body]
pub(crate) fn tint_color(src: Color, tint: Color) -> (c: Color)
    ensures
        c.r == tint_channel_of(src.r, tint.r),
        c.g == tint_channel_of(src.g, tint.g),
        c.b == tint_channel_of(src.b, tint.b),
        c.a == tint_channel_of(src.a, tint.a),
        tint.r == 255 ==> c.r == src.r,
        tint.g == 255 ==> c.g == src.g,
        tint.b == 255 ==> c.b == src.b,
        tint.a == 255 ==> c.a == src.a,
        src.r == 255 ==> c.r == tint.r,
        src.g == 255 ==> c.g == tint.g,
        src.b == 255 ==> c.b == tint.b,
        src.a == 255 ==> c.a == tint.a,
        tint.r == 0 || src.r == 0 ==> c.r == 0,
        tint.g == 0 || src.g == 0 ==> c.g == 0,
        tint.b == 0 || src.b == 0 ==> c.b == 0,
        tint.a == 0 || src.a == 0 ==> c.a == 0,
{
    let o: [u8; 4] = fast_srgb8::f32x4_to_srgb8([
        fast_srgb8::srgb8_to_f32(src.r) * fast_srgb8::srgb8_to_f32(tint.r),
        fast_srgb8::srgb8_to_f32(src.g) * fast_srgb8::srgb8_to_f32(tint.g),
        fast_srgb8::srgb8_to_f32(src.b) * fast_srgb8::srgb8_to_f32(tint.b),
        fast_srgb8::srgb8_to_f32(src.a) * fast_srgb8::srgb8_to_f32(tint.a),
    ]);
    Color { r: o[0], g: o[1], b: o[2], a: o[3] }
}

} // verus!

//! Colors with eight-bit channels, alpha clamping, and the outline color
//! policy: small strokes get a contrasting white or black outline.

use vstd::prelude::*;
use vstd::arithmetic::div_mod::lemma_div_is_ordered;

verus! {

/// A color with eight-bit red, green, blue and alpha channels.
#[derive(Clone, Copy, PartialEq, Eq, Structural, Debug)]
pub struct Color {
    pub r: u8,
    pub g: u8,
    pub b: u8,
    pub a: u8,
}

/// A fixed-point alpha dropped to whole channel units and clamped to the
/// eight-bit channel range.
pub open spec fn clamp_channel_spec(a: int) -> int {
    if a / 65536 > 255 {
        255
    } else {
        a / 65536
    }
}

/// Clamp a fixed-point alpha into one eight-bit channel.
pub fn clamp_channel(a: u64) -> (r: u8)
    ensures
        r == clamp_channel_spec(a as int),
{
    let v: u64 = a / 65536;
    if v > 255 {
        255
    } else {
        v as u8
    }
}

/// Whether the outline of a stroke of fill color `c` is white: the integer
/// mean of the red, green and blue channels lies below the channel
/// midpoint of 128 (at a mean of exactly 128 the outline is black).
pub open spec fn outline_is_white(c: Color) -> bool {
    (c.r + c.g + c.b) / 3 < 128
}

/// The outline color for a stroke of fill color `c`: contrasting white or
/// black, with the fixed-point alpha doubled and clamped.
pub open spec fn edge_color_spec(c: Color, alpha: int) -> Color {
    let lum: u8 = if outline_is_white(c) {
        255
    } else {
        0
    };
    Color { r: lum, g: lum, b: lum, a: clamp_channel_spec(2 * alpha) as u8 }
}

/// Compute the outline color for a fill color and a fixed-point alpha.
pub fn edge_color(c: Color, alpha: u64) -> (r: Color)
    ensures
        r == edge_color_spec(c, alpha as int),
{
    let a2: u8 = if alpha >= 0x80_0000 {
        proof {
            lemma_div_is_ordered(0x100_0000, 2 * (alpha as int), 65536);
        }
        255
    } else {
        clamp_channel(2 * alpha)
    };
    let sum: u32 = c.r as u32 + c.g as u32 + c.b as u32;
    if sum / 3 < 128 {
        Color { r: 255, g: 255, b: 255, a: a2 }
    } else {
        Color { r: 0, g: 0, b: 0, a: a2 }
    }
}

} // verus!

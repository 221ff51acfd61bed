//! Integer YUV to RGB conversion of a single pixel.
use vstd::prelude::*;

verus! {

/// Division of `a` by a positive `d`, rounding toward zero (Rust's `/` on integers).
pub open spec fn div_trunc(a: int, d: int) -> int {
    if a >= 0 {
        a / d
    } else {
        -((-a) / d)
    }
}

/// `v` clamped into `0..=255`.
pub open spec fn clamp_u8(v: int) -> u8 {
    if v < 0 {
        0u8
    } else if v > 255 {
        255u8
    } else {
        v as u8
    }
}

/// The red channel for luma `y` and centred chroma `u`, `v`: `Y + 1.402 V`.
pub open spec fn red_of(y: int, u: int, v: int) -> u8 {
    clamp_u8(y + div_trunc(1402 * v, 1000))
}

/// The green channel: `Y - 0.344 U - 0.714 V`.
pub open spec fn green_of(y: int, u: int, v: int) -> u8 {
    clamp_u8(y - div_trunc(344 * u + 714 * v, 1000))
}

/// The blue channel: `Y + 1.772 U`.
pub open spec fn blue_of(y: int, u: int, v: int) -> u8 {
    clamp_u8(y + div_trunc(1772 * u, 1000))
}

/// The RGB triple of a pixel with luma `y` and centred chroma `u`, `v`.
pub open spec fn yuv_to_rgb(y: int, u: int, v: int) -> (u8, u8, u8) {
    (red_of(y, u, v), green_of(y, u, v), blue_of(y, u, v))
}

/// A chroma sample is stored with an offset of 128; this is its centred value.
pub open spec fn centred(c: u8) -> int {
    c as int - 128
}

fn clamp_channel(v: i32) -> (r: u8)
    ensures
        r == clamp_u8(v as int),
{
    if v < 0 {
        0
    } else if v > 255 {
        255
    } else {
        v as u8
    }
}

/// Converts one pixel from luma `y_val` and centred chroma `u_val`, `v_val` to RGB.
pub fn convert_pixel(y_val: i32, u_val: i32, v_val: i32) -> (rgb: (u8, u8, u8))
    requires
        0 <= y_val <= 255,
        -128 <= u_val <= 127,
        -128 <= v_val <= 127,
    ensures
        rgb == yuv_to_rgb(y_val as int, u_val as int, v_val as int),
{
    let r = clamp_channel(y_val + (1402 * v_val) / 1000);
    let g = clamp_channel(y_val - (344 * u_val + 714 * v_val) / 1000);
    let b = clamp_channel(y_val + (1772 * u_val) / 1000);
    (r, g, b)
}

} // verus!
verus! {

/// A pixel whose chroma is neutral (centred chroma zero) comes out grey: all three
/// channels equal its luma.
pub proof fn lemma_neutral_chroma_is_grey(y: int)
    requires
        0 <= y <= 255,
    ensures
        yuv_to_rgb(y, 0, 0) == (y as u8, y as u8, y as u8),
{
}

} // verus!
verus! {

/// For fixed chroma, a brighter luma never gives a darker channel.
pub proof fn lemma_luma_monotone(y1: int, y2: int, u: int, v: int)
    requires
        y1 <= y2,
    ensures
        red_of(y1, u, v) <= red_of(y2, u, v),
        green_of(y1, u, v) <= green_of(y2, u, v),
        blue_of(y1, u, v) <= blue_of(y2, u, v),
{
}

} // verus!

//! Pixels of a captured frame and their luminance.

use vstd::prelude::*;

verus! {

/// A captured pixel in blue, green, red order (the padding byte is not kept).
#[derive(Clone, Copy, Debug, PartialEq, Eq, Structural)]
pub struct Bgr8 {
    pub b: u8,
    pub g: u8,
    pub r: u8,
}

/// The weighted channel sum behind the luminance: weights 77, 151 and 28
/// add up to 256, so dividing by 256 gives a weighted mean.
pub open spec fn weighted_sum(p: Bgr8) -> int {
    p.r * 77 + p.g * 151 + p.b * 28
}

/// Luminance of a pixel: the weighted mean of its channels, rounded down.
pub open spec fn gray_of(p: Bgr8) -> int {
    weighted_sum(p) / 256
}

/// Converts a pixel to its 8-bit luminance, `(77 r + 151 g + 28 b) >> 8`.
pub fn bgr8_to_gray(pixel: Bgr8) -> (gray: u8)
    ensures
        gray == gray_of(pixel),
        256 * gray <= 77 * pixel.r + 151 * pixel.g + 28 * pixel.b < 256 * (gray + 1),
{
    let Bgr8 { r, g, b, .. } = pixel;
    let sum: u32 = (r as u32 * 77) + (g as u32 * 151) + (b as u32 * 28);
    let shifted: u32 = sum >> 8;
    assert(shifted == sum / 256) by (bit_vector)
        requires shifted == sum >> 8;
    assert(sum <= 255 * 256);
    proof {
        lemma_gray_is_floor_of_weighted_mean(pixel);
    }
    shifted as u8
}

/// The luminance is the weighted mean `(77 r + 151 g + 28 b) / 256`, rounded
/// down: 256 times the luminance is at most the weighted sum, and 256 times
/// the next value exceeds it.
pub proof fn lemma_gray_is_floor_of_weighted_mean(p: Bgr8)
    ensures
        256 * gray_of(p) <= 77 * p.r + 151 * p.g + 28 * p.b < 256 * (gray_of(p) + 1),
{
    let s = 77 * p.r + 151 * p.g + 28 * p.b;
    assert(weighted_sum(p) == s);
    assert(256 * (s / 256) <= s < 256 * (s / 256 + 1)) by (nonlinear_arith)
        requires
            s >= 0,
    ;
}

/// The smallest of the three colour channels.
pub open spec fn min_channel(p: Bgr8) -> int {
    if p.r <= p.g && p.r <= p.b {
        p.r as int
    } else if p.g <= p.b {
        p.g as int
    } else {
        p.b as int
    }
}

/// The largest of the three colour channels.
pub open spec fn max_channel(p: Bgr8) -> int {
    if p.r >= p.g && p.r >= p.b {
        p.r as int
    } else if p.g >= p.b {
        p.g as int
    } else {
        p.b as int
    }
}

/// The luminance of a pixel lies between its darkest and brightest channel,
/// so it always fits in a byte.
pub proof fn lemma_gray_between_channels(p: Bgr8)
    ensures
        min_channel(p) <= gray_of(p) <= max_channel(p),
        0 <= gray_of(p) < 256,
{
    let lo = min_channel(p);
    let hi = max_channel(p);
    assert(256 * lo <= weighted_sum(p) <= 256 * hi);
    assert(lo <= weighted_sum(p) / 256 <= hi) by (nonlinear_arith)
        requires
            256 * lo <= weighted_sum(p) <= 256 * hi,
    ;
}

/// A neutral grey pixel, with all three channels equal, keeps its value.
pub proof fn lemma_gray_of_neutral(v: u8)
    ensures
        gray_of(Bgr8 { b: v, g: v, r: v }) == v,
{
    assert(weighted_sum(Bgr8 { b: v, g: v, r: v }) == 256 * v);
}

/// Brightening any channel never darkens the luminance.
pub proof fn lemma_gray_monotone(p: Bgr8, q: Bgr8)
    requires
        p.r <= q.r,
        p.g <= q.g,
        p.b <= q.b,
    ensures
        gray_of(p) <= gray_of(q),
{
    assert(weighted_sum(p) <= weighted_sum(q));
    assert(weighted_sum(p) / 256 <= weighted_sum(q) / 256) by (nonlinear_arith)
        requires
            weighted_sum(p) <= weighted_sum(q),
    ;
}

} // verus!

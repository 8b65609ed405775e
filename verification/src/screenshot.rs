//! Screenshot pixels: packed 32-bit RGBA values unpacked into channels.

use crate::raster::{rgba_dimensions, rgba_image_from_fn, rgba_pixel, rgba_samples, pixel_index, RgbaImage};
use vstd::prelude::*;

verus! {

/// The four channels of a packed pixel, most significant byte first:
/// red, green, blue, alpha.
pub open spec fn rgba_channels(pixel: u32) -> (u8, u8, u8, u8) {
    (
        (pixel / 0x100_0000) as u8,
        ((pixel / 0x1_0000) % 0x100) as u8,
        ((pixel / 0x100) % 0x100) as u8,
        (pixel % 0x100) as u8,
    )
}

/// Splits a packed pixel into its bytes, most significant first.
pub fn unpack_rgba(pixel: u32) -> (channels: (u8, u8, u8, u8))
    ensures
        channels == rgba_channels(pixel),
{
    let r: u32 = (pixel >> 24) & 0xff;
    let g: u32 = (pixel >> 16) & 0xff;
    let b: u32 = (pixel >> 8) & 0xff;
    let a: u32 = pixel & 0xff;
    assert(r == pixel / 0x100_0000 && g == (pixel / 0x1_0000) % 0x100 && b == (pixel / 0x100)
        % 0x100 && a == pixel % 0x100) by (bit_vector)
        requires
            r == (pixel >> 24) & 0xff,
            g == (pixel >> 16) & 0xff,
            b == (pixel >> 8) & 0xff,
            a == pixel & 0xff,
    ;
    (r as u8, g as u8, b as u8, a as u8)
}

/// Packing the unpacked channels back, most significant first, gives the
/// pixel again: no bit is lost or moved.
pub proof fn lemma_unpack_rgba_roundtrip(pixel: u32)
    ensures
        ({
            let (r, g, b, a) = rgba_channels(pixel);
            r * 0x100_0000 + g * 0x1_0000 + b * 0x100 + a == pixel
        }),
{
    let (r, g, b, a) = rgba_channels(pixel);
    assert(r * 0x100_0000 + g * 0x1_0000 + b * 0x100 + a == pixel) by (bit_vector)
        requires
            r == pixel / 0x100_0000,
            g == (pixel / 0x1_0000) % 0x100,
            b == (pixel / 0x100) % 0x100,
            a == pixel % 0x100,
    ;
}

/// The RGBA image of a screenshot `width` by `height` whose packed pixels are
/// given row by row: the channels at `(x, y)` are those of pixel
/// `y * width + x`.
pub fn screenshot_image(width: u32, height: u32, pixels: &[u32]) -> (img: RgbaImage)
    requires
        4 * width <= usize::MAX,
        4 * width * height <= usize::MAX,
        width * height <= pixels.len(),
    ensures
        rgba_dimensions(img) == (width, height),
        rgba_samples(img).len() == 4 * width * height,
        forall|x: u32, y: u32|
            x < width && y < height ==> #[trigger] rgba_pixel(
                rgba_samples(img),
                pixel_index(width as int, x as int, y as int),
            ) == rgba_channels(pixels@[pixel_index(width as int, x as int, y as int)]),
{
    let channels = |x: u32, y: u32| -> (c: (u8, u8, u8, u8))
        requires
            x < width,
            y < height,
            width * height <= pixels.len(),
        ensures
            c == rgba_channels(pixels@[pixel_index(width as int, x as int, y as int)]),
        {
            proof {
                crate::images::lemma_pixel_in_frame(width as int, height as int, x as int, y as int);
            }
            unpack_rgba(pixels[(y as usize) * (width as usize) + (x as usize)])
        };
    let img = rgba_image_from_fn(width, height, channels);
    assert forall|x: u32, y: u32| x < width && y < height implies #[trigger] rgba_pixel(
        rgba_samples(img),
        pixel_index(width as int, x as int, y as int),
    ) == rgba_channels(pixels@[pixel_index(width as int, x as int, y as int)]) by {
        assert(call_ensures(
            channels,
            (x, y),
            rgba_pixel(rgba_samples(img), pixel_index(width as int, x as int, y as int)),
        ));
    }
    img
}

} // verus!

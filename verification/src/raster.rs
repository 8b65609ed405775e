//! The pixel buffers of the `image` crate, seen through their dimensions and
//! their row-major samples.

use image::{ImageBuffer, Luma, Rgba};
use vstd::prelude::*;

verus! {

/// An 8-bit grayscale image of the `image` crate.
#[verifier::external_body]
pub struct GrayImage(image::GrayImage);

/// An 8-bit image of the `image` crate with red, green, blue and alpha
/// channels.
#[verifier::external_body]
pub struct RgbaImage(image::RgbaImage);

/// Position of pixel `(x, y)` in the row-major order of an image `width` wide.
pub open spec fn pixel_index(width: int, x: int, y: int) -> int {
    y * width + x
}

/// Pixels are laid out row after row: the first pixel is at position 0,
/// the next pixel of a row follows directly, and the pixel below lies one
/// row width further on.
pub proof fn lemma_pixel_index_row_major(width: int, x: int, y: int)
    ensures
        pixel_index(width, 0, 0) == 0,
        pixel_index(width, x + 1, y) == pixel_index(width, x, y) + 1,
        pixel_index(width, x, y + 1) == pixel_index(width, x, y) + width,
{
    assert((y + 1) * width == y * width + width) by (nonlinear_arith);
}

/// The four samples of pixel number `i` in RGBA samples laid out four per
/// pixel.
pub open spec fn rgba_pixel(samples: Seq<u8>, i: int) -> (u8, u8, u8, u8) {
    (samples[4 * i], samples[4 * i + 1], samples[4 * i + 2], samples[4 * i + 3])
}

/// Pixel number `i` of RGBA samples takes the four samples from position
/// `4 * i` on: red, green, blue, alpha.
pub proof fn lemma_rgba_pixel_layout(samples: Seq<u8>, i: int)
    ensures
        rgba_pixel(samples, i).0 == samples[4 * i],
        rgba_pixel(samples, i).1 == samples[4 * i + 1],
        rgba_pixel(samples, i).2 == samples[4 * i + 2],
        rgba_pixel(samples, i).3 == samples[4 * i + 3],
{
}

/// The samples of a grayscale image, one per pixel, row after row.
pub uninterp spec fn gray_samples(img: GrayImage) -> Seq<u8>;

/// The samples of an RGBA image, four per pixel (red, green, blue, alpha),
/// row after row.
pub uninterp spec fn rgba_samples(img: RgbaImage) -> Seq<u8>;

/// The `(width, height)` a grayscale image was made with.
pub uninterp spec fn gray_dimensions(img: GrayImage) -> (u32, u32);

/// The `(width, height)` an RGBA image was made with.
pub uninterp spec fn rgba_dimensions(img: RgbaImage) -> (u32, u32);

/// `ImageBuffer::from_fn(width, height, ..)` for grayscale pixels: the source
/// allocates `width * height` samples (panicking when that overflows `usize`)
/// and visits the pixels row by row, storing `Luma([f(x, y)])` at `(x, y)`.
#[verifier::external_body]
pub(crate) fn gray_image_from_fn<F: Fn(u32, u32) -> u8>(width: u32, height: u32, f: F) -> (img: GrayImage)
    requires
        width * height <= usize::MAX,
        forall|x: u32, y: u32| x < width && y < height ==> call_requires(f, (x, y)),
    ensures
        gray_dimensions(img) == (width, height),
        gray_samples(img).len() == width * height,
        forall|x: u32, y: u32|
            x < width && y < height ==> call_ensures(
                f,
                (x, y),
                #[trigger] gray_samples(img)[pixel_index(width as int, x as int, y as int)],
            ),
{
    GrayImage(ImageBuffer::from_fn(width, height, |x, y| Luma([f(x, y)])))
}

/// `ImageBuffer::from_fn(width, height, ..)` for RGBA pixels: the source
/// allocates `4 * width * height` samples, computing `4 * width` first and
/// then multiplying by `height` (panicking when either product overflows
/// `usize`), and visits the pixels row by row, storing the four channels that
/// `f(x, y)` gives, in order, at `(x, y)`.
#[verifier::external_body]
pub(crate) fn rgba_image_from_fn<F: Fn(u32, u32) -> (u8, u8, u8, u8)>(width: u32, height: u32, f: F) -> (img: RgbaImage)
    requires
        4 * width <= usize::MAX,
        4 * width * height <= usize::MAX,
        forall|x: u32, y: u32| x < width && y < height ==> call_requires(f, (x, y)),
    ensures
        rgba_dimensions(img) == (width, height),
        rgba_samples(img).len() == 4 * width * height,
        forall|x: u32, y: u32|
            x < width && y < height ==> call_ensures(
                f,
                (x, y),
                #[trigger] rgba_pixel(rgba_samples(img), pixel_index(width as int, x as int, y as int)),
            ),
{
    RgbaImage(ImageBuffer::from_fn(width, height, |x, y| {
        let (r, g, b, a) = f(x, y);
        Rgba([r, g, b, a])
    }))
}

/// `ImageBuffer::as_raw` (cloned): the samples a grayscale image holds.
#[verifier::external_body]
fn gray_image_raw(img: &GrayImage) -> (samples: Vec<u8>)
    ensures
        samples@ == gray_samples(*img),
{
    img.0.as_raw().clone()
}

/// `ImageBuffer::dimensions`: the width and height of a grayscale image.
#[verifier::external_body]
fn gray_image_dimensions(img: &GrayImage) -> (dims: (u32, u32))
    ensures
        dims == gray_dimensions(*img),
{
    img.0.dimensions()
}

/// `ImageBuffer::as_raw` (cloned): the samples an RGBA image holds.
#[verifier::external_body]
fn rgba_image_raw(img: &RgbaImage) -> (samples: Vec<u8>)
    ensures
        samples@ == rgba_samples(*img),
{
    img.0.as_raw().clone()
}

/// `ImageBuffer::dimensions`: the width and height of an RGBA image.
#[verifier::external_body]
fn rgba_image_dimensions(img: &RgbaImage) -> (dims: (u32, u32))
    ensures
        dims == rgba_dimensions(*img),
{
    img.0.dimensions()
}

impl GrayImage {
    /// The samples of the image, one per pixel, row after row.
    pub fn samples(&self) -> (samples: Vec<u8>)
        ensures
            samples@ == gray_samples(*self),
    {
        gray_image_raw(self)
    }

    /// The `(width, height)` of the image.
    pub fn dimensions(&self) -> (dims: (u32, u32))
        ensures
            dims == gray_dimensions(*self),
    {
        gray_image_dimensions(self)
    }
}

impl RgbaImage {
    /// The samples of the image, four per pixel (red, green, blue, alpha),
    /// row after row.
    pub fn samples(&self) -> (samples: Vec<u8>)
        ensures
            samples@ == rgba_samples(*self),
    {
        rgba_image_raw(self)
    }

    /// The `(width, height)` of the image.
    pub fn dimensions(&self) -> (dims: (u32, u32))
        ensures
            dims == rgba_dimensions(*self),
    {
        rgba_image_dimensions(self)
    }
}

} // verus!

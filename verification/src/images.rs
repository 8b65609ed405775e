//! Frame processing: the light-text and dark-text bitmaps of a captured
//! frame, the grayscale and bitmap images made from them, and the search for
//! the Emacs cursor.

use crate::bits::{bitvec_bits, bitvec_from_fn, bitvec_index, bitvec_len};
use crate::pixel::{bgr8_to_gray, gray_of, Bgr8};
use crate::raster::{
    gray_dimensions, gray_image_from_fn, gray_samples, pixel_index, GrayImage,
};
use bit_vec::BitVec;
use vstd::prelude::*;

verus! {

/// Pixels brighter than this luminance may belong to light text.
pub const LIGHT_LOWER: u8 = 75;

/// Pixels darker than this luminance may belong to dark text.
pub const DARK_UPPER: u8 = 150;

/// A pixel whose luminance is above `LIGHT_LOWER`.
pub open spec fn is_light(p: Bgr8) -> bool {
    gray_of(p) > LIGHT_LOWER
}

/// A pixel whose luminance is below `DARK_UPPER`.
pub open spec fn is_dark(p: Bgr8) -> bool {
    gray_of(p) < DARK_UPPER
}

/// Whether a pixel is light or dark depends on its luminance alone: it is
/// light exactly when the luminance is above 75, that is when
/// `77 r + 151 g + 28 b` reaches `76 * 256`, and dark exactly when the
/// luminance is below 150, that is when the weighted sum stays below
/// `150 * 256`.
pub proof fn lemma_light_and_dark_by_luminance(p: Bgr8)
    ensures
        is_light(p) <==> gray_of(p) > 75,
        is_dark(p) <==> gray_of(p) < 150,
        is_light(p) <==> 77 * p.r + 151 * p.g + 28 * p.b >= 76 * 256,
        is_dark(p) <==> 77 * p.r + 151 * p.g + 28 * p.b < 150 * 256,
{
    crate::pixel::lemma_gray_is_floor_of_weighted_mean(p);
}

/// Two pixels of equal luminance fall in the same bands.
pub proof fn lemma_bands_follow_luminance(p: Bgr8, q: Bgr8)
    requires
        77 * p.r + 151 * p.g + 28 * p.b == 77 * q.r + 151 * q.g + 28 * q.b,
    ensures
        is_light(p) == is_light(q),
        is_dark(p) == is_dark(q),
{
    lemma_light_and_dark_by_luminance(p);
    lemma_light_and_dark_by_luminance(q);
}

/// The two bands overlap and together cover every luminance: each pixel is
/// light or dark (both when its luminance lies strictly between the two
/// thresholds), so at every position at least one of the two bitmap images
/// is black.
pub proof fn lemma_every_pixel_light_or_dark(p: Bgr8)
    ensures
        is_light(p) || is_dark(p),
        (is_light(p) && is_dark(p)) <==> (LIGHT_LOWER < gray_of(p) < DARK_UPPER),
        bitmap_sample(is_light(p)) == 0 || bitmap_sample(is_dark(p)) == 0,
{
}

/// The sample a bitmap image shows for a bit: black for a set bit, white
/// otherwise.
pub open spec fn bitmap_sample(bit: bool) -> u8 {
    if bit {
        0
    } else {
        255
    }
}

/// Every pixel inside a `width` by `height` frame has its row-major index
/// inside the frame.
pub proof fn lemma_pixel_in_frame(width: int, height: int, x: int, y: int)
    requires
        0 <= x < width,
        0 <= y < height,
    ensures
        0 <= pixel_index(width, x, y) < width * height,
{
    assert(0 <= y * width + x < width * height) by (nonlinear_arith)
        requires
            0 <= x < width,
            0 <= y < height,
    ;
}

/// The light-text bitmap of a `w` by `h` frame: bit `i` is set when pixel
/// `i` is light.
pub fn light_text_bitmap(frame: &[Bgr8], w: u32, h: u32) -> (bits: BitVec)
    requires
        w * h <= u32::MAX,
        w * h <= frame.len(),
    ensures
        bitvec_bits(&bits).len() == w * h,
        forall|i: int| 0 <= i < w * h ==> #[trigger] bitvec_bits(&bits)[i] == is_light(frame@[i]),
        forall|i: int|
            0 <= i < w * h ==> #[trigger] bitvec_bits(&bits)[i] == (77 * frame@[i].r + 151
                * frame@[i].g + 28 * frame@[i].b >= 76 * 256),
{
    let len: usize = (w * h) as usize;
    let light = |ix: usize| -> (bit: bool)
        requires
            ix < frame.len(),
        ensures
            bit == is_light(frame@[ix as int]),
        { bgr8_to_gray(frame[ix]) > LIGHT_LOWER };
    let bits = bitvec_from_fn(len, light);
    assert forall|i: int| 0 <= i < w * h implies #[trigger] bitvec_bits(&bits)[i] == is_light(frame@[i]) by {
        assert(call_ensures(light, (i as usize,), bitvec_bits(&bits)[i]));
        lemma_light_and_dark_by_luminance(frame@[i]);
    }
    bits
}

/// The dark-text bitmap of a `w` by `h` frame: bit `i` is set when pixel
/// `i` is dark.
pub fn dark_text_bitmap(frame: &[Bgr8], w: u32, h: u32) -> (bits: BitVec)
    requires
        w * h <= u32::MAX,
        w * h <= frame.len(),
    ensures
        bitvec_bits(&bits).len() == w * h,
        forall|i: int| 0 <= i < w * h ==> #[trigger] bitvec_bits(&bits)[i] == is_dark(frame@[i]),
        forall|i: int|
            0 <= i < w * h ==> #[trigger] bitvec_bits(&bits)[i] == (77 * frame@[i].r + 151
                * frame@[i].g + 28 * frame@[i].b < 150 * 256),
{
    let len: usize = (w * h) as usize;
    let dark = |ix: usize| -> (bit: bool)
        requires
            ix < frame.len(),
        ensures
            bit == is_dark(frame@[ix as int]),
        { bgr8_to_gray(frame[ix]) < DARK_UPPER };
    let bits = bitvec_from_fn(len, dark);
    assert forall|i: int| 0 <= i < w * h implies #[trigger] bitvec_bits(&bits)[i] == is_dark(frame@[i]) by {
        assert(call_ensures(dark, (i as usize,), bitvec_bits(&bits)[i]));
        lemma_light_and_dark_by_luminance(frame@[i]);
    }
    bits
}

/// The grayscale image of a `w` by `h` frame: the sample at `(x, y)` is the
/// luminance of pixel `y * w + x`.
pub fn grayscale_image(frame: &[Bgr8], w: u32, h: u32) -> (img: GrayImage)
    requires
        w * h <= u32::MAX + 1,
        w * h <= frame.len(),
    ensures
        gray_dimensions(img) == (w, h),
        gray_samples(img).len() == w * h,
        forall|x: u32, y: u32|
            x < w && y < h ==> #[trigger] gray_samples(img)[pixel_index(w as int, x as int, y as int)]
                == gray_of(frame@[pixel_index(w as int, x as int, y as int)]),
{
    let gray = |x: u32, y: u32| -> (g: u8)
        requires
            x < w,
            y < h,
            w * h <= u32::MAX + 1,
            w * h <= frame.len(),
        ensures
            g == gray_of(frame@[pixel_index(w as int, x as int, y as int)]),
        {
            proof {
                lemma_pixel_in_frame(w as int, h as int, x as int, y as int);
            }
            bgr8_to_gray(frame[(y * w + x) as usize])
        };
    let img = gray_image_from_fn(w, h, gray);
    assert forall|x: u32, y: u32| x < w && y < h implies #[trigger] gray_samples(img)[pixel_index(
        w as int,
        x as int,
        y as int,
    )] == gray_of(frame@[pixel_index(w as int, x as int, y as int)]) by {
        assert(call_ensures(gray, (x, y), gray_samples(img)[pixel_index(w as int, x as int, y as int)]));
    }
    img
}

/// The image of a bitmap laid out `w` wide and `h` high: the sample at
/// `(x, y)` is black (0) when bit `y * w + x` is set and white (255) when it
/// is clear.
pub fn bitmap_image(bitmap: &BitVec, w: u32, h: u32) -> (img: GrayImage)
    requires
        w * h <= u32::MAX + 1,
        w * h <= usize::MAX,
        w * h <= bitvec_bits(bitmap).len(),
    ensures
        gray_dimensions(img) == (w, h),
        gray_samples(img).len() == w * h,
        forall|x: u32, y: u32|
            x < w && y < h ==> #[trigger] gray_samples(img)[pixel_index(w as int, x as int, y as int)]
                == bitmap_sample(bitvec_bits(bitmap)[pixel_index(w as int, x as int, y as int)]),
{
    let sample = |x: u32, y: u32| -> (s: u8)
        requires
            x < w,
            y < h,
            w * h <= u32::MAX + 1,
            w * h <= bitvec_bits(bitmap).len(),
        ensures
            s == bitmap_sample(bitvec_bits(bitmap)[pixel_index(w as int, x as int, y as int)]),
        {
            proof {
                lemma_pixel_in_frame(w as int, h as int, x as int, y as int);
            }
            if bitvec_index(bitmap, (y * w + x) as usize) {
                0
            } else {
                255
            }
        };
    let img = gray_image_from_fn(w, h, sample);
    assert forall|x: u32, y: u32| x < w && y < h implies #[trigger] gray_samples(img)[pixel_index(
        w as int,
        x as int,
        y as int,
    )] == bitmap_sample(bitvec_bits(bitmap)[pixel_index(w as int, x as int, y as int)]) by {
        assert(call_ensures(sample, (x, y), gray_samples(img)[pixel_index(w as int, x as int, y as int)]));
    }
    img
}

/// The image of a bitmap laid out `w` wide and `h` high, when the bitmap
/// holds at least `w * h` bits and the row-major positions fit the `u32`
/// arithmetic; `None` otherwise (the cases in which `bitmap_image` cannot be
/// called).
pub fn checked_bitmap_image(bitmap: &BitVec, w: u32, h: u32) -> (img: Option<GrayImage>)
    ensures
        img is Some <==> (w * h <= u32::MAX + 1 && w * h <= bitvec_bits(bitmap).len()),
        img matches Some(i) ==> {
            &&& gray_dimensions(i) == (w, h)
            &&& gray_samples(i).len() == w * h
            &&& forall|x: u32, y: u32|
                x < w && y < h ==> #[trigger] gray_samples(i)[pixel_index(w as int, x as int, y as int)]
                    == bitmap_sample(bitvec_bits(bitmap)[pixel_index(w as int, x as int, y as int)])
        },
{
    assert((w as u64) * (h as u64) <= u64::MAX) by (nonlinear_arith)
        requires
            w <= u32::MAX,
            h <= u32::MAX,
    ;
    let n: u64 = (w as u64) * (h as u64);
    let len: usize = bitvec_len(bitmap);
    if n <= 0x1_0000_0000u64 && n <= len as u64 {
        Some(bitmap_image(bitmap, w, h))
    } else {
        None
    }
}

/// The three images made from one frame: its luminance, and its light-text
/// and dark-text bitmaps drawn black on white.
pub struct ThresholdImages {
    pub grayscale: GrayImage,
    pub light_text: GrayImage,
    pub dark_text: GrayImage,
}

/// The images of a `w` by `h` frame that are written out as
/// `grayscale.png`, `light-text.png` and `dark-text.png`: the luminance of
/// each pixel, and black wherever a pixel is light, respectively dark.
pub fn to_grayscale_threshold(frame: &[Bgr8], w: u32, h: u32) -> (images: ThresholdImages)
    requires
        w * h <= u32::MAX,
        w * h <= frame.len(),
    ensures
        gray_dimensions(images.grayscale) == (w, h),
        gray_dimensions(images.light_text) == (w, h),
        gray_dimensions(images.dark_text) == (w, h),
        gray_samples(images.grayscale).len() == w * h,
        gray_samples(images.light_text).len() == w * h,
        gray_samples(images.dark_text).len() == w * h,
        forall|x: u32, y: u32|
            x < w && y < h ==> {
                &&& #[trigger] gray_samples(images.grayscale)[pixel_index(w as int, x as int, y as int)]
                    == gray_of(frame@[pixel_index(w as int, x as int, y as int)])
                &&& gray_samples(images.light_text)[pixel_index(w as int, x as int, y as int)]
                    == bitmap_sample(is_light(frame@[pixel_index(w as int, x as int, y as int)]))
                &&& gray_samples(images.dark_text)[pixel_index(w as int, x as int, y as int)]
                    == bitmap_sample(is_dark(frame@[pixel_index(w as int, x as int, y as int)]))
            },
{
    let light = light_text_bitmap(frame, w, h);
    let dark = dark_text_bitmap(frame, w, h);
    let grayscale = grayscale_image(frame, w, h);
    let light_text = bitmap_image(&light, w, h);
    let dark_text = bitmap_image(&dark, w, h);
    assert forall|x: u32, y: u32| x < w && y < h implies {
        &&& #[trigger] gray_samples(grayscale)[pixel_index(w as int, x as int, y as int)]
            == gray_of(frame@[pixel_index(w as int, x as int, y as int)])
        &&& gray_samples(light_text)[pixel_index(w as int, x as int, y as int)]
            == bitmap_sample(is_light(frame@[pixel_index(w as int, x as int, y as int)]))
        &&& gray_samples(dark_text)[pixel_index(w as int, x as int, y as int)]
            == bitmap_sample(is_dark(frame@[pixel_index(w as int, x as int, y as int)]))
    } by {
        lemma_pixel_in_frame(w as int, h as int, x as int, y as int);
        let i = pixel_index(w as int, x as int, y as int);
        assert(bitvec_bits(&light)[i] == is_light(frame@[i]));
        assert(bitvec_bits(&dark)[i] == is_dark(frame@[i]));
    }
    ThresholdImages { grayscale, light_text, dark_text }
}

/// The colour of the Emacs cursor: red 238, green 173, blue 14.
pub open spec fn is_emacs_cursor(p: Bgr8) -> bool {
    p.r == 238 && p.g == 173 && p.b == 14
}

/// Pixel `(x, y)` of a frame `w` wide has the colour of the Emacs cursor.
pub open spec fn cursor_at(frame: Seq<Bgr8>, w: int, x: int, y: int) -> bool {
    is_emacs_cursor(frame[pixel_index(w, x, y)])
}

/// The frame is scanned column by column, each column from top to bottom:
/// `(x2, y2)` comes before `(x, y)` in that order.
pub open spec fn scanned_before(x2: int, y2: int, x: int, y: int) -> bool {
    x2 < x || (x2 == x && y2 < y)
}

/// Pixel `(x, y)` of a frame `w` wide lies inside the frame and does not
/// have the cursor colour.
pub open spec fn clear_pixel(frame: Seq<Bgr8>, w: int, x: int, y: int) -> bool {
    pixel_index(w, x, y) < frame.len() && !cursor_at(frame, w, x, y)
}

/// The column-by-column scan of a frame `w` wide and `h` high reaches pixel
/// `(x, y)`: every pixel scanned before it lies inside the frame and does not
/// have the cursor colour.
pub open spec fn scan_reaches(frame: Seq<Bgr8>, w: int, h: int, x: int, y: int) -> bool {
    forall|x2: int, y2: int|
        0 <= x2 < w && 0 <= y2 < h && scanned_before(x2, y2, x, y) ==> #[trigger] clear_pixel(
            frame,
            w,
            x2,
            y2,
        )
}

/// The scan for the cursor stays inside the frame: every pixel it reaches
/// lies inside the frame, with a row-major position that fits in a `u32`.
pub open spec fn scan_in_bounds(frame: Seq<Bgr8>, w: int, h: int) -> bool {
    forall|x: int, y: int|
        0 <= x < w && 0 <= y < h && #[trigger] scan_reaches(frame, w, h, x, y) ==> pixel_index(
            w,
            x,
            y,
        ) < frame.len() && pixel_index(w, x, y) <= u32::MAX
}

/// Pixel `(x, y)` is clear and its row-major position fits in a `u32`.
spec fn clear_u32_pixel(frame: Seq<Bgr8>, w: int, x: int, y: int) -> bool {
    clear_pixel(frame, w, x, y) && pixel_index(w, x, y) <= u32::MAX
}

/// The cursor colour is exactly red 238, green 173, blue 14.
pub proof fn lemma_cursor_colour(p: Bgr8)
    ensures
        is_emacs_cursor(p) <==> p == (Bgr8 { b: 14, g: 173, r: 238 }),
{
}

/// Pixel `(x, y)` of a frame `w` wide shows the cursor exactly when the
/// pixel at row-major position `y * w + x` has the cursor colour.
pub proof fn lemma_cursor_at_position(frame: Seq<Bgr8>, w: int, x: int, y: int)
    ensures
        cursor_at(frame, w, x, y) <==> frame[y * w + x] == (Bgr8 { b: 14, g: 173, r: 238 }),
{
}

/// A frame holding all `w * h` pixels, whose row-major positions fit in a
/// `u32`, is scanned without leaving it.
pub proof fn lemma_full_frame_scan_in_bounds(frame: Seq<Bgr8>, w: int, h: int)
    requires
        0 <= w,
        0 <= h,
        w * h <= frame.len(),
        w * h <= u32::MAX + 1,
    ensures
        scan_in_bounds(frame, w, h),
{
    assert forall|x: int, y: int|
        0 <= x < w && 0 <= y < h && #[trigger] scan_reaches(frame, w, h, x, y) implies pixel_index(
        w,
        x,
        y,
    ) < frame.len() && pixel_index(w, x, y) <= u32::MAX by {
        lemma_pixel_in_frame(w, h, x, y);
    }
}

/// The scan stops at the first pixel of the cursor colour: when every pixel
/// before `(x, y)` in column-by-column order lies inside the frame and is not
/// the cursor, and `(x, y)` lies inside and is the cursor, the pixels after it
/// do not matter.
pub proof fn lemma_scan_stops_at_cursor(frame: Seq<Bgr8>, w: int, h: int, x: int, y: int)
    requires
        0 <= x < w,
        0 <= y < h,
        forall|x2: int, y2: int|
            0 <= x2 < w && 0 <= y2 < h && (x2 < x || (x2 == x && y2 < y)) ==> #[trigger] pixel_index(
                w,
                x2,
                y2,
            ) < frame.len() && pixel_index(w, x2, y2) <= u32::MAX && frame[pixel_index(w, x2, y2)]
                != (Bgr8 { b: 14, g: 173, r: 238 }),
        pixel_index(w, x, y) < frame.len(),
        pixel_index(w, x, y) <= u32::MAX,
        frame[pixel_index(w, x, y)] == (Bgr8 { b: 14, g: 173, r: 238 }),
    ensures
        scan_in_bounds(frame, w, h),
{
    assert forall|x2: int, y2: int|
        0 <= x2 < w && 0 <= y2 < h && #[trigger] scan_reaches(frame, w, h, x2, y2) implies pixel_index(
        w,
        x2,
        y2,
    ) < frame.len() && pixel_index(w, x2, y2) <= u32::MAX by {
        if x2 < x || (x2 == x && y2 < y) {
            assert(pixel_index(w, x2, y2) < frame.len());
        } else if x2 != x || y2 != y {
            assert(clear_pixel(frame, w, x, y));
        }
    }
}

/// The scan leaves the frame when it reaches a pixel beyond the frame's end
/// or one whose row-major position does not fit in a `u32`: every pixel
/// before `(x, y)` in column-by-column order lies inside and is not the
/// cursor, but `(x, y)` does not lie inside.
pub proof fn lemma_scan_leaves_frame(frame: Seq<Bgr8>, w: int, h: int, x: int, y: int)
    requires
        0 <= x < w,
        0 <= y < h,
        forall|x2: int, y2: int|
            0 <= x2 < w && 0 <= y2 < h && (x2 < x || (x2 == x && y2 < y)) ==> #[trigger] pixel_index(
                w,
                x2,
                y2,
            ) < frame.len() && frame[pixel_index(w, x2, y2)] != (Bgr8 { b: 14, g: 173, r: 238 }),
        pixel_index(w, x, y) >= frame.len() || pixel_index(w, x, y) > u32::MAX,
    ensures
        !scan_in_bounds(frame, w, h),
{
    assert(scan_reaches(frame, w, h, x, y)) by {
        assert forall|x2: int, y2: int|
            0 <= x2 < w && 0 <= y2 < h && scanned_before(x2, y2, x, y) implies #[trigger] clear_pixel(
            frame,
            w,
            x2,
            y2,
        ) by {
            assert(pixel_index(w, x2, y2) < frame.len());
        }
    }
}

/// Where the Emacs cursor is in a frame `w` wide and `h` high: the first
/// pixel of its colour when the frame is scanned column by column, top to
/// bottom, or `None` when no pixel has that colour. The frame need only hold
/// the pixels the scan reaches.
pub fn find_emacs_cursor(frame: &[Bgr8], w: u32, h: u32) -> (found: Option<(u32, u32)>)
    requires
        scan_in_bounds(frame@, w as int, h as int),
    ensures
        match found {
            Some((x, y)) => {
                &&& x < w
                &&& y < h
                &&& pixel_index(w as int, x as int, y as int) < frame@.len()
                &&& cursor_at(frame@, w as int, x as int, y as int)
                &&& scan_reaches(frame@, w as int, h as int, x as int, y as int)
            },
            None => forall|x: int, y: int|
                0 <= x < w && 0 <= y < h ==> #[trigger] clear_pixel(frame@, w as int, x, y),
        },
        match found {
            Some((x, y)) => {
                &&& frame@[pixel_index(w as int, x as int, y as int)] == Bgr8 { b: 14, g: 173, r: 238 }
                &&& forall|x2: int, y2: int|
                    0 <= x2 < w && 0 <= y2 < h && (x2 < x || (x2 == x && y2 < y)) ==> #[trigger] pixel_index(
                        w as int,
                        x2,
                        y2,
                    ) < frame@.len() && frame@[pixel_index(w as int, x2, y2)] != Bgr8 {
                        b: 14,
                        g: 173,
                        r: 238,
                    }
            },
            None => forall|x: int, y: int|
                0 <= x < w && 0 <= y < h ==> #[trigger] pixel_index(w as int, x, y) < frame@.len()
                    && frame@[pixel_index(w as int, x, y)] != Bgr8 { b: 14, g: 173, r: 238 },
        },
{
    let mut x: u32 = 0;
    while x < w
        invariant
            x <= w,
            scan_in_bounds(frame@, w as int, h as int),
            forall|x2: int, y2: int|
                0 <= x2 < x && 0 <= y2 < h ==> #[trigger] clear_pixel(frame@, w as int, x2, y2),
        decreases w - x,
    {
        let mut y: u32 = 0;
        while y < h
            invariant
                x < w,
                y <= h,
                scan_in_bounds(frame@, w as int, h as int),
                forall|x2: int, y2: int|
                    0 <= x2 < x && 0 <= y2 < h ==> #[trigger] clear_pixel(frame@, w as int, x2, y2),
                forall|y2: int| 0 <= y2 < y ==> #[trigger] clear_pixel(frame@, w as int, x as int, y2),
            decreases h - y,
        {
            assert(scan_reaches(frame@, w as int, h as int, x as int, y as int));
            let Bgr8 { r, g, b, .. } = frame[(y * w + x) as usize];
            if r == 238 && g == 173 && b == 14 {
                assert forall|x2: int, y2: int|
                    0 <= x2 < w && 0 <= y2 < h && (x2 < x || (x2 == x && y2 < y)) implies #[trigger] pixel_index(
                        w as int,
                        x2,
                        y2,
                    ) < frame@.len() && frame@[pixel_index(w as int, x2, y2)] != (Bgr8 {
                        b: 14,
                        g: 173,
                        r: 238,
                    }) by {
                    assert(clear_pixel(frame@, w as int, x2, y2));
                }
                return Some((x, y));
            }
            y = y + 1;
        }
        x = x + 1;
    }
    assert forall|x2: int, y2: int| 0 <= x2 < w && 0 <= y2 < h implies #[trigger] pixel_index(
        w as int,
        x2,
        y2,
    ) < frame@.len() && frame@[pixel_index(w as int, x2, y2)] != (Bgr8 { b: 14, g: 173, r: 238 }) by {
        assert(clear_pixel(frame@, w as int, x2, y2));
    }
    None
}

/// Whether the scan for the cursor stays inside the frame, so that
/// `find_emacs_cursor` may be called: it fails exactly when the scan reaches
/// a pixel beyond the end of the frame, or one whose row-major position does
/// not fit in a `u32`.
pub fn emacs_cursor_scan_in_bounds(frame: &[Bgr8], w: u32, h: u32) -> (ok: bool)
    ensures
        ok == scan_in_bounds(frame@, w as int, h as int),
{
    let mut x: u32 = 0;
    while x < w
        invariant
            x <= w,
            forall|x2: int, y2: int|
                0 <= x2 < x && 0 <= y2 < h ==> #[trigger] clear_u32_pixel(frame@, w as int, x2, y2),
        decreases w - x,
    {
        let mut y: u32 = 0;
        while y < h
            invariant
                x < w,
                y <= h,
                forall|x2: int, y2: int|
                    0 <= x2 < x && 0 <= y2 < h ==> #[trigger] clear_u32_pixel(frame@, w as int, x2, y2),
                forall|y2: int|
                    0 <= y2 < y ==> #[trigger] clear_u32_pixel(frame@, w as int, x as int, y2),
            decreases h - y,
        {
            assert(scan_reaches(frame@, w as int, h as int, x as int, y as int)) by {
                assert forall|x2: int, y2: int|
                    0 <= x2 < w && 0 <= y2 < h && scanned_before(x2, y2, x as int, y as int)
                    implies #[trigger] clear_pixel(frame@, w as int, x2, y2) by {
                    assert(clear_u32_pixel(frame@, w as int, x2, y2));
                }
            }
            assert((y as u64) * (w as u64) <= 0xFFFF_FFFE_0000_0001u64) by (nonlinear_arith)
                requires
                    y <= u32::MAX,
                    w <= u32::MAX,
            ;
            let index: u64 = (y as u64) * (w as u64) + (x as u64);
            if index > 0xFFFF_FFFFu64 || index >= frame.len() as u64 {
                return false;
            }
            let Bgr8 { r, g, b, .. } = frame[index as usize];
            if r == 238 && g == 173 && b == 14 {
                assert forall|x2: int, y2: int|
                    0 <= x2 < w && 0 <= y2 < h && #[trigger] scan_reaches(
                        frame@,
                        w as int,
                        h as int,
                        x2,
                        y2,
                    ) implies pixel_index(w as int, x2, y2) < frame@.len() && pixel_index(
                    w as int,
                    x2,
                    y2,
                ) <= u32::MAX by {
                    if scanned_before(x as int, y as int, x2, y2) {
                        assert(clear_pixel(frame@, w as int, x as int, y as int));
                    } else if x2 < x {
                        assert(clear_u32_pixel(frame@, w as int, x2, y2));
                    } else if x2 == x && y2 < y {
                        assert(clear_u32_pixel(frame@, w as int, x2, y2));
                    }
                }
                return true;
            }
            y = y + 1;
        }
        x = x + 1;
    }
    assert forall|x2: int, y2: int|
        0 <= x2 < w && 0 <= y2 < h && #[trigger] scan_reaches(
            frame@,
            w as int,
            h as int,
            x2,
            y2,
        ) implies pixel_index(w as int, x2, y2) < frame@.len() && pixel_index(w as int, x2, y2)
        <= u32::MAX by {
        assert(clear_u32_pixel(frame@, w as int, x2, y2));
    }
    true
}

} // verus!

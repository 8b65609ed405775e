//! Screen geometry: the rectangle each screen covers.

use vstd::prelude::*;

verus! {

/// A screen rectangle: top-left corner and size, in pixels.
#[derive(Clone, Copy, Debug, PartialEq, Eq, Structural)]
pub struct Rect {
    pub x: u32,
    pub y: u32,
    pub width: u32,
    pub height: u32,
}

/// A signed value as it reads once converted to `u32`: negative values wrap
/// around modulo 2^32.
pub open spec fn wrap_u32(v: int) -> int {
    if v < 0 {
        v + 0x1_0000_0000
    } else {
        v
    }
}

/// Converting to `u32` keeps a non-negative value and adds 2^32 to a negative
/// one.
pub proof fn lemma_wrap_u32(v: int)
    ensures
        v >= 0 ==> wrap_u32(v) == v,
        v < 0 ==> wrap_u32(v) == v + 0x1_0000_0000,
{
}

fn i32_to_u32(v: i32) -> (r: u32)
    ensures
        r == wrap_u32(v as int),
        v >= 0 ==> r == v,
        v < 0 ==> r == v + 0x1_0000_0000,
{
    let r = v as u32;
    assert(v < 0 ==> r == v + 0x1_0000_0000) by (bit_vector)
        requires
            r == v as u32,
    ;
    assert(v >= 0 ==> r == v) by (bit_vector)
        requires
            r == v as u32,
    ;
    r
}

fn i16_to_u32(v: i16) -> (r: u32)
    ensures
        r == wrap_u32(v as int),
        v >= 0 ==> r == v,
        v < 0 ==> r == v + 0x1_0000_0000,
{
    i32_to_u32(v as i32)
}

impl Rect {
    /// The rectangle of a Xinerama screen, from its origin and size as the
    /// extension reports them (16-bit signed); each is converted to `u32`,
    /// so a negative origin wraps around.
    pub fn from_xinerama(x_org: i16, y_org: i16, width: i16, height: i16) -> (r: Rect)
        ensures
            r.x == wrap_u32(x_org as int),
            r.y == wrap_u32(y_org as int),
            r.width == wrap_u32(width as int),
            r.height == wrap_u32(height as int),
            x_org >= 0 ==> r.x == x_org,
            y_org >= 0 ==> r.y == y_org,
            width >= 0 ==> r.width == width,
            height >= 0 ==> r.height == height,
            x_org < 0 ==> r.x == x_org + 0x1_0000_0000,
            y_org < 0 ==> r.y == y_org + 0x1_0000_0000,
            width < 0 ==> r.width == width + 0x1_0000_0000,
            height < 0 ==> r.height == height + 0x1_0000_0000,
    {
        Rect {
            x: i16_to_u32(x_org),
            y: i16_to_u32(y_org),
            width: i16_to_u32(width),
            height: i16_to_u32(height),
        }
    }

    /// The rectangle of a whole X screen: origin `(0, 0)` and the screen's
    /// size (32-bit signed) converted to `u32`.
    pub fn of_screen(width: i32, height: i32) -> (r: Rect)
        ensures
            r.x == 0,
            r.y == 0,
            r.width == wrap_u32(width as int),
            r.height == wrap_u32(height as int),
            width >= 0 ==> r.width == width,
            height >= 0 ==> r.height == height,
            width < 0 ==> r.width == width + 0x1_0000_0000,
            height < 0 ==> r.height == height + 0x1_0000_0000,
    {
        Rect { x: 0, y: 0, width: i32_to_u32(width), height: i32_to_u32(height) }
    }
}

/// The screen numbers that are listed when Xinerama is not active: the range
/// `0 .. count - 1`, which leaves out the last screen (and is empty for one
/// screen or none).
pub fn normal_screen_indices(count: i32) -> (indices: Vec<i32>)
    requires
        count > i32::MIN,
    ensures
        indices@.len() == (if count >= 1 { count - 1 } else { 0 }),
        forall|i: int| 0 <= i < indices@.len() ==> #[trigger] indices@[i] == i,
{
    let end: i32 = count - 1;
    let mut indices: Vec<i32> = Vec::new();
    let mut i: i32 = 0;
    while i < end
        invariant
            0 <= i,
            end == count - 1,
            i <= end || (i == 0 && end < 0),
            indices@.len() == i,
            forall|j: int| 0 <= j < indices@.len() ==> #[trigger] indices@[j] == j,
        decreases end - i,
    {
        indices.push(i);
        i = i + 1;
    }
    indices
}

} // verus!

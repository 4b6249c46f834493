//! Axis-aligned rectangles and the clamping / border-distance helpers the
//! blit engine's callers use for clipping.

use vstd::prelude::*;

verus! {

/// Defines a rectangle. Width and height are not required to be
/// non-negative; clipping logic tolerates degenerate extents.
#[derive(Clone)]
pub struct Rect<T> {
    pub x: T,
    pub y: T,
    pub width: T,
    pub height: T,
}

/// The mathematical value of a rectangle: its fields as unbounded integers.
pub ghost struct RectModel {
    pub x: int,
    pub y: int,
    pub width: int,
    pub height: int,
}

impl<T> Rect<T> {
    pub fn new(x: T, y: T, width: T, height: T) -> (r: Rect<T>)
        ensures
            r.x == x,
            r.y == y,
            r.width == width,
            r.height == height,
    {
        Rect { x, y, width, height }
    }
}

/// `v` held into the interval `[lo, hi]` (meaningful when `lo <= hi`).
pub open spec fn clamp_int(v: int, lo: int, hi: int) -> int {
    if v < lo {
        lo
    } else if v > hi {
        hi
    } else {
        v
    }
}

/// The rectangle `clamp` returns: origin and extent held into `o`'s span.
/// The width formula is asymmetric on purpose; it is this library's
/// documented behaviour, not a simplification of it.
pub open spec fn clamped_rect(r: RectModel, o: RectModel) -> RectModel {
    RectModel {
        x: clamp_int(r.x, o.x, o.x + o.width),
        y: clamp_int(r.y, o.y, o.y + o.height),
        width: clamp_int(
            vstd::math::min(o.x + o.width + o.x - r.x, r.width - r.x),
            o.x,
            o.x + o.width,
        ),
        height: clamp_int(
            vstd::math::min(o.y + o.height + o.y - r.y, r.height - r.y),
            o.y,
            o.y + o.height,
        ),
    }
}

/// Signed amount by which `r` protrudes outside `o` on the x axis:
/// negative on the low side, positive on the high side, zero if within.
pub open spec fn border_distance_x(r: RectModel, o: RectModel) -> int {
    vstd::math::min(r.x - o.x, 0) + vstd::math::max(r.x - o.x - o.width, 0)
}

/// Signed amount by which `r` protrudes outside `o` on the y axis.
pub open spec fn border_distance_y(r: RectModel, o: RectModel) -> int {
    vstd::math::min(r.y - o.y, 0) + vstd::math::max(r.y - o.y - o.height, 0)
}

fn min_i128(a: i128, b: i128) -> (r: i128)
    ensures
        r as int == vstd::math::min(a as int, b as int),
{
    if a < b {
        a
    } else {
        b
    }
}

fn max_i128(a: i128, b: i128) -> (r: i128)
    ensures
        r as int == vstd::math::max(a as int, b as int),
{
    if a > b {
        a
    } else {
        b
    }
}

fn clamp_i128(v: i128, lo: i128, hi: i128) -> (r: i128)
    requires
        lo <= hi,
    ensures
        r as int == clamp_int(v as int, lo as int, hi as int),
{
    if v < lo {
        lo
    } else if v > hi {
        hi
    } else {
        v
    }
}

impl Rect<isize> {
    /// This rectangle's fields as unbounded integers.
    pub open spec fn model(&self) -> RectModel {
        RectModel {
            x: self.x as int,
            y: self.y as int,
            width: self.width as int,
            height: self.height as int,
        }
    }

    /// Constrains this rectangle's origin and far corner to lie within
    /// `other`, reducing the extents accordingly.
    pub fn clamp(&self, other: Rect<isize>) -> (r: Rect<isize>)
        requires
            other.width >= 0,
            other.height >= 0,
            other.x + other.width <= isize::MAX,
            other.y + other.height <= isize::MAX,
        ensures
            r.model() == clamped_rect(self.model(), other.model()),
    {
        let ox2: i128 = other.x as i128 + other.width as i128;
        let oy2: i128 = other.y as i128 + other.height as i128;
        let nx: i128 = clamp_i128(self.x as i128, other.x as i128, ox2);
        let ny: i128 = clamp_i128(self.y as i128, other.y as i128, oy2);
        let nw: i128 = clamp_i128(
            min_i128(ox2 + other.x as i128 - self.x as i128, self.width as i128 - self.x as i128),
            other.x as i128,
            ox2,
        );
        let nh: i128 = clamp_i128(
            min_i128(oy2 + other.y as i128 - self.y as i128, self.height as i128 - self.y as i128),
            other.y as i128,
            oy2,
        );
        Rect { x: nx as isize, y: ny as isize, width: nw as isize, height: nh as isize }
    }

    /// Signed (dx, dy) amount by which this rectangle protrudes outside
    /// `other` on the low or high side; zero if fully contained.
    pub fn distance_to_border(&self, other: Rect<isize>) -> (r: (isize, isize))
        requires
            isize::MIN <= border_distance_x(self.model(), other.model()),
            border_distance_x(self.model(), other.model()) <= isize::MAX,
            isize::MIN <= border_distance_y(self.model(), other.model()),
            border_distance_y(self.model(), other.model()) <= isize::MAX,
        ensures
            r.0 as int == border_distance_x(self.model(), other.model()),
            r.1 as int == border_distance_y(self.model(), other.model()),
    {
        let dx: i128 = self.x as i128 - other.x as i128;
        let dy: i128 = self.y as i128 - other.y as i128;
        let rx: i128 = min_i128(dx, 0) + max_i128(dx - other.width as i128, 0);
        let ry: i128 = min_i128(dy, 0) + max_i128(dy - other.height as i128, 0);
        (rx as isize, ry as isize)
    }

    /// The exclusive far corner on the x axis.
    pub fn x2(&self) -> (r: isize)
        requires
            isize::MIN <= self.x + self.width,
            self.x + self.width <= isize::MAX,
        ensures
            r == self.x + self.width,
    {
        self.x + self.width
    }

    /// The exclusive far corner on the y axis.
    pub fn y2(&self) -> (r: isize)
        requires
            isize::MIN <= self.y + self.height,
            self.y + self.height <= isize::MAX,
        ensures
            r == self.y + self.height,
    {
        self.y + self.height
    }
}

} // verus!

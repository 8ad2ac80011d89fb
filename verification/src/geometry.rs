//! Integer 2-D geometry in app units.
//!
//! All layout arithmetic is done on `Au`, a signed integer number of app
//! units (1/60 of a CSS pixel). Points, sizes, rectangles and per-side
//! offsets are plain structs of `Au`. Every type has a mathematical mirror
//! over `int` (its view) that the contracts and the layout models speak of.

use vstd::prelude::*;

verus! {

/// Every style input and every stored layout result is kept within
/// `[-MAX_AU, MAX_AU]`, so that the small sums formed by the layout
/// passes never overflow `i64`.
pub const MAX_AU: i64 = 0x400_0000_0000;

/// Counts of things (floats in a subtree, children) stay within this
/// bound, which fits any machine word.
pub const MAX_COUNT: i64 = 0x4000_0000;

/// A length in app units (1/60 px).
#[derive(Clone, Copy, PartialEq, Eq, Structural, Debug)]
pub struct Au(pub i64);

impl View for Au {
    type V = int;

    open spec fn view(&self) -> int {
        self.0 as int
    }
}

impl Au {
    pub fn new(value: i64) -> (r: Au)
        ensures
            r@ == value as int,
    {
        Au(value)
    }

    pub fn zero() -> (r: Au)
        ensures
            r@ == 0,
    {
        Au(0)
    }

    /// Sum of two lengths; the caller guarantees the result fits.
    pub fn add(self, other: Au) -> (r: Au)
        requires
            i64::MIN <= self@ + other@ <= i64::MAX,
        ensures
            r@ == self@ + other@,
    {
        Au(self.0 + other.0)
    }

    /// Difference of two lengths; the caller guarantees the result fits.
    pub fn sub(self, other: Au) -> (r: Au)
        requires
            i64::MIN <= self@ - other@ <= i64::MAX,
        ensures
            r@ == self@ - other@,
    {
        Au(self.0 - other.0)
    }

    pub fn neg(self) -> (r: Au)
        requires
            self@ != i64::MIN,
        ensures
            r@ == -self@,
    {
        Au(-self.0)
    }

    pub fn max(self, other: Au) -> (r: Au)
        ensures
            r@ == max_int(self@, other@),
    {
        if self.0 >= other.0 {
            self
        } else {
            other
        }
    }

    pub fn min(self, other: Au) -> (r: Au)
        ensures
            r@ == min_int(self@, other@),
    {
        if self.0 <= other.0 {
            self
        } else {
            other
        }
    }
}

pub open spec fn max_int(a: int, b: int) -> int {
    if a >= b {
        a
    } else {
        b
    }
}

pub open spec fn min_int(a: int, b: int) -> int {
    if a <= b {
        a
    } else {
        b
    }
}

/// Mathematical floor of `a / 2` (rounds toward negative infinity).
pub open spec fn half_floor(a: int) -> int {
    (a - (a % 2)) / 2
}

/// Truncating division (rounds toward zero), the behaviour of `/` on the
/// machine integers that column distribution divides with.
pub open spec fn div_trunc(a: int, b: int) -> int
    recommends
        b > 0,
{
    if a >= 0 {
        a / b
    } else {
        -((-a) / b)
    }
}

impl Au {
    /// Half of a length, rounded toward negative infinity; used to split a
    /// leftover width evenly between two auto margins.
    pub fn half(self) -> (r: Au)
        requires
            -MAX_AU * 8192 <= self@ <= MAX_AU * 8192,
        ensures
            r@ == half_floor(self@),
    {
        if self.0 >= 0 {
            Au(self.0 / 2)
        } else {
            let m = -self.0;
            Au(-(m / 2) - m % 2)
        }
    }

    /// Truncating division by a positive count; used to share the
    /// remaining width among flexible table columns.
    pub fn div_by(self, count: Au) -> (r: Au)
        requires
            count@ > 0,
            -MAX_AU * 8192 <= self@ <= MAX_AU * 8192,
        ensures
            r@ == div_trunc(self@, count@),
    {
        if self.0 >= 0 {
            Au(self.0 / count.0)
        } else {
            Au(-((-self.0) / count.0))
        }
    }
}

/// A point, in app units.
#[derive(Clone, Copy, PartialEq, Eq, Structural, Debug)]
pub struct Point2D {
    pub x: Au,
    pub y: Au,
}

/// Mathematical mirror of `Point2D`.
pub ghost struct PointV {
    pub x: int,
    pub y: int,
}

impl View for Point2D {
    type V = PointV;

    open spec fn view(&self) -> PointV {
        PointV { x: self.x@, y: self.y@ }
    }
}

impl Point2D {
    pub fn new(x: Au, y: Au) -> (r: Point2D)
        ensures
            r@ == (PointV { x: x@, y: y@ }),
    {
        Point2D { x, y }
    }

    pub fn zero() -> (r: Point2D)
        ensures
            r@ == (PointV { x: 0, y: 0 }),
    {
        Point2D { x: Au(0), y: Au(0) }
    }

    pub fn add(self, other: Point2D) -> (r: Point2D)
        requires
            i64::MIN <= self.x@ + other.x@ <= i64::MAX,
            i64::MIN <= self.y@ + other.y@ <= i64::MAX,
        ensures
            r@ == point_add(self@, other@),
    {
        Point2D { x: self.x.add(other.x), y: self.y.add(other.y) }
    }
}

pub open spec fn point_add(a: PointV, b: PointV) -> PointV {
    PointV { x: a.x + b.x, y: a.y + b.y }
}

/// A size, in app units.
#[derive(Clone, Copy, PartialEq, Eq, Structural, Debug)]
pub struct Size2D {
    pub width: Au,
    pub height: Au,
}

/// Mathematical mirror of `Size2D`.
pub ghost struct SizeV {
    pub width: int,
    pub height: int,
}

impl View for Size2D {
    type V = SizeV;

    open spec fn view(&self) -> SizeV {
        SizeV { width: self.width@, height: self.height@ }
    }
}

impl Size2D {
    pub fn new(width: Au, height: Au) -> (r: Size2D)
        ensures
            r@ == (SizeV { width: width@, height: height@ }),
    {
        Size2D { width, height }
    }

    pub fn zero() -> (r: Size2D)
        ensures
            r@ == (SizeV { width: 0, height: 0 }),
    {
        Size2D { width: Au(0), height: Au(0) }
    }
}

/// An axis-aligned rectangle, in app units.
#[derive(Clone, Copy, PartialEq, Eq, Structural, Debug)]
pub struct Rect {
    pub origin: Point2D,
    pub size: Size2D,
}

/// Mathematical mirror of `Rect`.
pub ghost struct RectV {
    pub origin: PointV,
    pub size: SizeV,
}

impl View for Rect {
    type V = RectV;

    open spec fn view(&self) -> RectV {
        RectV { origin: self.origin@, size: self.size@ }
    }
}

/// Two rectangles intersect when they share interior area: each one starts
/// strictly before the other ends, on both axes. A rectangle of zero width
/// or height intersects nothing.
pub open spec fn rects_intersect(a: RectV, b: RectV) -> bool {
    &&& a.origin.x < b.origin.x + b.size.width
    &&& b.origin.x < a.origin.x + a.size.width
    &&& a.origin.y < b.origin.y + b.size.height
    &&& b.origin.y < a.origin.y + a.size.height
}

impl Rect {
    pub fn new(origin: Point2D, size: Size2D) -> (r: Rect)
        ensures
            r@ == (RectV { origin: origin@, size: size@ }),
    {
        Rect { origin, size }
    }

    pub fn intersects(&self, other: &Rect) -> (r: bool)
        ensures
            r == rects_intersect(self@, other@),
    {
        let ax0 = self.origin.x.0 as i128;
        let ax1 = ax0 + self.size.width.0 as i128;
        let ay0 = self.origin.y.0 as i128;
        let ay1 = ay0 + self.size.height.0 as i128;
        let bx0 = other.origin.x.0 as i128;
        let bx1 = bx0 + other.size.width.0 as i128;
        let by0 = other.origin.y.0 as i128;
        let by1 = by0 + other.size.height.0 as i128;
        ax0 < bx1 && bx0 < ax1 && ay0 < by1 && by0 < ay1
    }
}

/// Offsets for the four sides of a box, in app units; used for margins,
/// borders and padding.
#[derive(Clone, Copy, PartialEq, Eq, Structural, Debug)]
pub struct SideOffsets2D {
    pub top: Au,
    pub right: Au,
    pub bottom: Au,
    pub left: Au,
}

/// Mathematical mirror of `SideOffsets2D`.
pub ghost struct OffsetsV {
    pub top: int,
    pub right: int,
    pub bottom: int,
    pub left: int,
}

impl View for SideOffsets2D {
    type V = OffsetsV;

    open spec fn view(&self) -> OffsetsV {
        OffsetsV { top: self.top@, right: self.right@, bottom: self.bottom@, left: self.left@ }
    }
}

impl SideOffsets2D {
    pub fn new(top: Au, right: Au, bottom: Au, left: Au) -> (r: SideOffsets2D)
        ensures
            r@ == (OffsetsV { top: top@, right: right@, bottom: bottom@, left: left@ }),
    {
        SideOffsets2D { top, right, bottom, left }
    }

    pub fn zero() -> (r: SideOffsets2D)
        ensures
            r@ == (OffsetsV { top: 0, right: 0, bottom: 0, left: 0 }),
    {
        SideOffsets2D { top: Au(0), right: Au(0), bottom: Au(0), left: Au(0) }
    }
}

} // verus!

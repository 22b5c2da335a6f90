//! Points, sizes and rectangles in compositor pixels.
//!
//! Coordinates are 32 bits wide. A result that would leave that range sticks
//! to its nearer end instead of wrapping.

use vstd::prelude::*;

verus! {

/// A position in compositor pixels.
#[derive(Debug, Clone, Copy, PartialEq, Eq, Structural, Hash)]
pub struct Point {
    pub x: i32,
    pub y: i32,
}

/// A width and a height.
#[derive(Debug, Clone, Copy, PartialEq, Eq, Structural, Hash)]
pub struct Size {
    pub w: i32,
    pub h: i32,
}

/// An axis-aligned rectangle.
#[derive(Debug, Clone, Copy, PartialEq, Eq, Structural, Hash)]
pub struct Rect {
    pub loc: Point,
    pub size: Size,
}

/// The 32-bit coordinate nearest to `v`.
pub open spec fn clipped(v: int) -> i32 {
    if v < i32::MIN {
        i32::MIN
    } else if v > i32::MAX {
        i32::MAX
    } else {
        v as i32
    }
}

/// The 32-bit coordinate nearest to `v`.
pub fn clip(v: i64) -> (r: i32)
    ensures
        r == clipped(v as int),
{
    if v < -2147483648 {
        -2147483648
    } else if v > 2147483647 {
        2147483647
    } else {
        v as i32
    }
}

/// The larger of two integers.
pub open spec fn larger(a: int, b: int) -> int {
    if a >= b {
        a
    } else {
        b
    }
}

/// The smaller of two integers.
pub open spec fn smaller(a: int, b: int) -> int {
    if a <= b {
        a
    } else {
        b
    }
}

/// The larger of two coordinates.
pub fn max32(a: i32, b: i32) -> (r: i32)
    ensures
        r == larger(a as int, b as int),
{
    if a >= b {
        a
    } else {
        b
    }
}

/// The smaller of two coordinates.
pub fn min32(a: i32, b: i32) -> (r: i32)
    ensures
        r == smaller(a as int, b as int),
{
    if a <= b {
        a
    } else {
        b
    }
}

/// Half of `v`, rounded towards zero.
pub open spec fn half(v: int) -> int {
    if v >= 0 {
        v / 2
    } else {
        -((-v) / 2)
    }
}

/// Half of `v`, rounded towards zero.
pub fn halve(v: i32) -> (r: i32)
    ensures
        r == half(v as int),
{
    if v >= 0 {
        v / 2
    } else {
        let wide: i64 = v as i64;
        (-((-wide) / 2)) as i32
    }
}

impl Point {
    pub fn new(x: i32, y: i32) -> (r: Point)
        ensures
            r == (Point { x, y }),
    {
        Point { x, y }
    }

    /// The origin.
    pub open spec fn zero() -> Point {
        Point { x: 0, y: 0 }
    }

    /// The point moved by `by`.
    pub open spec fn moved(self, by: Point) -> Point {
        Point { x: clipped(self.x + by.x), y: clipped(self.y + by.y) }
    }

    /// The point moved by `by`.
    pub fn offset(self, by: Point) -> (r: Point)
        ensures
            r == self.moved(by),
    {
        Point { x: clip(self.x as i64 + by.x as i64), y: clip(self.y as i64 + by.y as i64) }
    }
}

impl Size {
    pub fn new(w: i32, h: i32) -> (r: Size)
        ensures
            r == (Size { w, h }),
    {
        Size { w, h }
    }

    /// Whether neither side is zero or negative.
    pub open spec fn is_positive(self) -> bool {
        self.w > 0 && self.h > 0
    }

    /// The size with each side raised to at least one pixel.
    pub open spec fn floored(self) -> Size {
        Size { w: larger(self.w as int, 1) as i32, h: larger(self.h as int, 1) as i32 }
    }

    /// The size with each side raised to at least one pixel.
    pub fn at_least_one(self) -> (r: Size)
        ensures
            r == self.floored(),
    {
        Size { w: max32(self.w, 1), h: max32(self.h, 1) }
    }
}

impl Rect {
    pub fn new(loc: Point, size: Size) -> (r: Rect)
        ensures
            r == (Rect { loc, size }),
    {
        Rect { loc, size }
    }

    /// The rectangle of size zero at the origin.
    pub open spec fn zero() -> Rect {
        Rect { loc: Point::zero(), size: Size { w: 0, h: 0 } }
    }

    /// The rectangle of size zero at the origin.
    pub fn nowhere() -> (r: Rect)
        ensures
            r == Rect::zero(),
    {
        Rect { loc: Point { x: 0, y: 0 }, size: Size { w: 0, h: 0 } }
    }

    /// Whether `p` lies in the rectangle: its left and top edges belong to it,
    /// its right and bottom edges do not. A rectangle without an area holds no
    /// point.
    pub open spec fn holds(self, p: Point) -> bool {
        &&& self.size.is_positive()
        &&& self.loc.x <= p.x < self.loc.x + self.size.w
        &&& self.loc.y <= p.y < self.loc.y + self.size.h
    }

    /// Whether `p` lies in the rectangle.
    pub fn contains(self, p: Point) -> (r: bool)
        ensures
            r == self.holds(p),
    {
        self.size.w > 0 && self.size.h > 0 && p.x >= self.loc.x && (p.x as i64) < self.loc.x as i64
            + self.size.w as i64 && p.y >= self.loc.y && (p.y as i64) < self.loc.y as i64
            + self.size.h as i64
    }

    /// The middle of the rectangle.
    pub open spec fn middle(self) -> Point {
        Point {
            x: clipped(self.loc.x + half(self.size.w as int)),
            y: clipped(self.loc.y + half(self.size.h as int)),
        }
    }

    /// The middle of the rectangle.
    pub fn center(self) -> (r: Point)
        ensures
            r == self.middle(),
    {
        Point {
            x: clip(self.loc.x as i64 + halve(self.size.w) as i64),
            y: clip(self.loc.y as i64 + halve(self.size.h) as i64),
        }
    }

    /// Whether the two rectangles share a point.
    pub open spec fn meets(self, other: Rect) -> bool {
        &&& self.loc.x < other.loc.x + other.size.w
        &&& other.loc.x < self.loc.x + self.size.w
        &&& self.loc.y < other.loc.y + other.size.h
        &&& other.loc.y < self.loc.y + self.size.h
    }

    /// Whether the two rectangles overlap.
    pub fn overlaps(self, other: Rect) -> (r: bool)
        ensures
            r == self.meets(other),
    {
        (self.loc.x as i64) < other.loc.x as i64 + other.size.w as i64 && (other.loc.x as i64)
            < self.loc.x as i64 + self.size.w as i64 && (self.loc.y as i64) < other.loc.y as i64
            + other.size.h as i64 && (other.loc.y as i64) < self.loc.y as i64
            + self.size.h as i64
    }
}

/// A point of two rectangles is a point at which they overlap.
pub proof fn common_points_overlap(a: Rect, b: Rect, p: Point)
    requires
        a.holds(p),
        b.holds(p),
    ensures
        a.meets(b),
{
}

/// Rectangles that overlap have a point in common.
pub proof fn overlaps_have_common_points(a: Rect, b: Rect)
    requires
        a.size.is_positive(),
        b.size.is_positive(),
        a.meets(b),
    ensures
        ({
            let p = Point {
                x: larger(a.loc.x as int, b.loc.x as int) as i32,
                y: larger(a.loc.y as int, b.loc.y as int) as i32,
            };
            a.holds(p) && b.holds(p)
        }),
{
}

/// A rectangle holds its first and its last pixel, and none of those next to
/// its edges on the outside.
pub proof fn rectangles_hold_their_pixels(r: Rect, p: Point)
    requires
        r.size.w > 0,
        r.size.h > 0,
        r.loc.x + r.size.w <= i32::MAX,
        r.loc.y + r.size.h <= i32::MAX,
    ensures
        r.holds(r.loc),
        r.holds(
            Point { x: (r.loc.x + r.size.w - 1) as i32, y: (r.loc.y + r.size.h - 1) as i32 },
        ),
        p.x == r.loc.x - 1 || p.x == r.loc.x + r.size.w ==> !r.holds(p),
        p.y == r.loc.y - 1 || p.y == r.loc.y + r.size.h ==> !r.holds(p),
{
}

/// Every point between two points of a rectangle is one of its points too.
pub proof fn rectangles_have_no_holes(r: Rect, a: Point, b: Point, p: Point)
    requires
        r.holds(a),
        r.holds(b),
        a.x <= p.x <= b.x,
        a.y <= p.y <= b.y,
    ensures
        r.holds(p),
{
}

/// The middle of a rectangle is as far from its left edge as from its right
/// one, but for a pixel, and likewise for the other two.
pub proof fn the_middle_is_in_the_middle(r: Rect)
    requires
        r.size.w >= 0,
        r.size.h >= 0,
        r.loc.x + r.size.w <= i32::MAX,
        r.loc.y + r.size.h <= i32::MAX,
    ensures
        r.size.w - 1 <= 2 * (r.middle().x - r.loc.x) <= r.size.w,
        r.size.h - 1 <= 2 * (r.middle().y - r.loc.y) <= r.size.h,
{
}

/// A number that fits stays as it is; one that does not becomes the nearest
/// that does.
pub proof fn numbers_are_clipped_to_what_fits(v: int)
    ensures
        i32::MIN <= v <= i32::MAX ==> clipped(v) == v,
        v > i32::MAX ==> clipped(v) == i32::MAX,
        v < i32::MIN ==> clipped(v) == i32::MIN,
{
}

/// The larger and the smaller of two numbers are these two.
pub proof fn one_is_larger_and_one_is_smaller(a: int, b: int)
    ensures
        larger(a, b) >= a && larger(a, b) >= b && (larger(a, b) == a || larger(a, b) == b),
        smaller(a, b) <= a && smaller(a, b) <= b && (smaller(a, b) == a || smaller(a, b) == b),
        larger(a, b) + smaller(a, b) == a + b,
{
}

/// A point is moved along each axis by itself, as far as it can be.
pub proof fn points_move_along_each_axis(p: Point, by: Point)
    ensures
        i32::MIN <= p.x + by.x <= i32::MAX ==> p.moved(by).x == p.x + by.x,
        i32::MIN <= p.y + by.y <= i32::MAX ==> p.moved(by).y == p.y + by.y,
{
}

/// A size of less than a pixel becomes a pixel; any other stays.
pub proof fn sizes_are_at_least_a_pixel(s: Size)
    ensures
        s.w >= 1 ==> s.floored().w == s.w,
        s.h >= 1 ==> s.floored().h == s.h,
        s.w < 1 ==> s.floored().w == 1,
        s.h < 1 ==> s.floored().h == 1,
{
}

} // verus!

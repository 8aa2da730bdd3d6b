//! Rectangles used while a level is laid out.

use vstd::prelude::*;

verus! {

/// An axis-aligned rectangle given by two opposite corners.
#[derive(Clone, Copy, Debug, PartialEq, Eq, Structural)]
pub struct Rect {
    pub x1: i32,
    pub y1: i32,
    pub x2: i32,
    pub y2: i32,
}

impl Rect {
    /// Whether the two rectangles share a point, borders included.
    pub open spec fn overlaps(self, other: Rect) -> bool {
        self.x1 <= other.x2 && self.x2 >= other.x1 && self.y1 <= other.y2 && self.y2 >= other.y1
    }

    /// Whether `(x, y)` lies strictly inside the rectangle, off its borders.
    pub open spec fn encloses(self, x: int, y: int) -> bool {
        self.x1 < x < self.x2 && self.y1 < y < self.y2
    }

    /// Whether at least one position lies strictly inside the rectangle.
    pub open spec fn has_interior(self) -> bool {
        self.x2 - self.x1 >= 2 && self.y2 - self.y1 >= 2
    }

    /// Whether the rectangle, borders included, lies in a grid of `width` by
    /// `height` and keeps clear of the grid's last column and last row.
    pub open spec fn fits(self, width: int, height: int) -> bool {
        0 <= self.x1 && self.x2 < width && 0 <= self.y1 && self.y2 < height
    }

    /// The centre of the rectangle, each coordinate rounded toward zero.
    pub open spec fn spec_center(self) -> (int, int) {
        (half(self.x1 + self.x2), half(self.y1 + self.y2))
    }

    /// The rectangle with one corner at `(x, y)` and the opposite one `w`
    /// columns and `h` rows further on.
    pub fn new(x: i32, y: i32, w: i32, h: i32) -> (r: Self)
        requires
            i32::MIN <= x + w <= i32::MAX,
            i32::MIN <= y + h <= i32::MAX,
        ensures
            r == (Rect { x1: x, y1: y, x2: (x + w) as i32, y2: (y + h) as i32 }),
    {
        Rect { x1: x, y1: y, x2: x + w, y2: y + h }
    }

    /// The centre of the rectangle, each coordinate rounded toward zero.
    pub fn center(&self) -> (c: (i32, i32))
        ensures
            (c.0 as int, c.1 as int) == self.spec_center(),
    {
        let sx: i64 = self.x1 as i64 + self.x2 as i64;
        let sy: i64 = self.y1 as i64 + self.y2 as i64;
        ((sx / 2) as i32, (sy / 2) as i32)
    }

    /// Whether the two rectangles share a point, borders included: two
    /// rectangles that only touch do intersect.
    pub fn intersects_with(&self, other: &Rect) -> (b: bool)
        ensures
            b == self.overlaps(*other),
    {
        (self.x1 <= other.x2) && (self.x2 >= other.x1) && (self.y1 <= other.y2) && (self.y2
            >= other.y1)
    }
}

/// Half of `v`, rounded toward zero.
pub open spec fn half(v: int) -> int {
    if v >= 0 {
        v / 2
    } else {
        -((-v) / 2)
    }
}

/// The square of the straight-line distance between two points.
pub open spec fn dist_sq(ax: int, ay: int, bx: int, by: int) -> int {
    (bx - ax) * (bx - ax) + (by - ay) * (by - ay)
}

/// A straight-line distance, held as its square. The square of a distance
/// between two positions is a whole number, so distances are told apart and
/// held against whole numbers without rounding.
#[derive(Clone, Copy, Debug, PartialEq, Eq, Structural)]
pub struct Distance {
    pub squared: u128,
}

impl Distance {
    /// Whether the distance is `n` or more.
    pub fn at_least(self, n: i32) -> (b: bool)
        ensures
            b == (n <= 0 || self.squared >= n * n),
    {
        let wide: u128 = if n <= 0 {
            0
        } else {
            n as u128
        };
        assert(wide * wide <= 0x8000_0000 * 0x8000_0000 && (n > 0 ==> wide * wide == n * n))
            by (nonlinear_arith)
            requires
                0 <= wide <= 0x8000_0000,
                n > 0 ==> wide == n,
        ;
        n <= 0 || self.squared >= wide * wide
    }

    /// Whether the distance is `n` or less.
    pub fn at_most(self, n: i32) -> (b: bool)
        ensures
            b == (n >= 0 && self.squared <= n * n),
    {
        let wide: u128 = if n <= 0 {
            0
        } else {
            n as u128
        };
        assert(wide * wide <= 0x8000_0000 * 0x8000_0000 && (n >= 0 ==> wide * wide == n * n))
            by (nonlinear_arith)
            requires
                0 <= wide <= 0x8000_0000,
                n >= 0 ==> wide == n,
        ;
        n >= 0 && self.squared <= wide * wide
    }
}

/// The straight-line distance between two points.
pub fn distance_between(ax: i32, ay: i32, bx: i32, by: i32) -> (d: Distance)
    ensures
        d.squared == dist_sq(ax as int, ay as int, bx as int, by as int),
{
    let dx: i128 = bx as i128 - ax as i128;
    let dy: i128 = by as i128 - ay as i128;
    assert(0 <= dx * dx <= 0xFFFF_FFFF * 0xFFFF_FFFF) by (nonlinear_arith)
        requires
            -0xFFFF_FFFF <= dx <= 0xFFFF_FFFF,
    ;
    assert(0 <= dy * dy <= 0xFFFF_FFFF * 0xFFFF_FFFF) by (nonlinear_arith)
        requires
            -0xFFFF_FFFF <= dy <= 0xFFFF_FFFF,
    ;
    Distance { squared: (dx * dx + dy * dy) as u128 }
}

/// The sign of `d`: -1, 0 or 1.
pub open spec fn signum(d: int) -> int {
    if d < 0 {
        -1
    } else if d > 0 {
        1
    } else {
        0
    }
}

/// One coordinate of the step from a point toward another that lies `d` away
/// along this axis and `other` away along the other axis: the matching
/// coordinate of the unit vector, rounded to the nearest whole number. The
/// coordinate `d / sqrt(d * d + other * other)` reaches one half exactly when
/// `3 * d * d >= other * other`.
pub open spec fn unit_step(d: int, other: int) -> int {
    if 3 * d * d >= other * other {
        signum(d)
    } else {
        0
    }
}

/// The step of [`unit_step`], computed.
pub fn step_toward(d: i64, other: i64) -> (s: i32)
    requires
        -0xFFFF_FFFF <= d <= 0xFFFF_FFFF,
        -0xFFFF_FFFF <= other <= 0xFFFF_FFFF,
    ensures
        s == unit_step(d as int, other as int),
{
    let wd: i128 = d as i128;
    let wo: i128 = other as i128;
    assert(0 <= wd * wd <= 0xFFFF_FFFF * 0xFFFF_FFFF) by (nonlinear_arith)
        requires
            -0xFFFF_FFFF <= wd <= 0xFFFF_FFFF,
    ;
    assert(0 <= wo * wo <= 0xFFFF_FFFF * 0xFFFF_FFFF) by (nonlinear_arith)
        requires
            -0xFFFF_FFFF <= wo <= 0xFFFF_FFFF,
    ;
    let dd: i128 = wd * wd;
    assert(3 * d * d == 3 * (d * d)) by (nonlinear_arith);
    if 3 * dd >= wo * wo {
        if d < 0 {
            -1
        } else if d > 0 {
            1
        } else {
            0
        }
    } else {
        0
    }
}

/// The whole number nearest to `v` that an `i32` can hold.
pub open spec fn clamp_i32(v: int) -> i32 {
    if v < i32::MIN {
        i32::MIN
    } else if v > i32::MAX {
        i32::MAX
    } else {
        v as i32
    }
}

/// The whole number nearest to `v` that an `i32` can hold.
pub fn saturate(v: i128) -> (r: i32)
    ensures
        r == clamp_i32(v as int),
{
    if v < i32::MIN as i128 {
        i32::MIN
    } else if v > i32::MAX as i128 {
        i32::MAX
    } else {
        v as i32
    }
}

} // verus!

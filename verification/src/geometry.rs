//! Pure, stateless collision and distance primitives.
//!
//! Box overlap uses the centered convention (`colliding`): two boxes overlap
//! iff twice the distance of their centres is below the sum of their sides,
//! strictly, so edge contact does not count. The circle test
//! (`colliding_circle`) anchors the box at its corner and clamps the circle
//! centre into the box to find the nearest point. Distances are exact:
//! predicates compare squared lengths, and `distance` returns the floor of
//! the Euclidean length in milli-units.

use crate::world::Utils;
use crate::GEOM_LIMIT;
use vstd::prelude::*;

verus! {

/// The absolute difference `|a - b|` over the mathematical integers.
pub open spec fn diff_abs(a: int, b: int) -> int {
    if a >= b {
        a - b
    } else {
        b - a
    }
}

/// `v` clamped into the closed interval `[lo, hi]`.
pub open spec fn clamp_to(v: int, lo: int, hi: int) -> int {
    if v < lo {
        lo
    } else if v > hi {
        hi
    } else {
        v
    }
}

/// Squared Euclidean distance between `(x, y)` and `(x2, y2)`.
pub open spec fn dist_sq(x: int, y: int, x2: int, y2: int) -> int {
    (x2 - x) * (x2 - x) + (y2 - y) * (y2 - y)
}

/// Two centred axis-aligned boxes overlap strictly: twice the centre
/// distance is below the sum of the sides on both axes.
pub open spec fn boxes_collide(
    x: int,
    y: int,
    w: int,
    h: int,
    x2: int,
    y2: int,
    w2: int,
    h2: int,
) -> bool {
    2 * diff_abs(x, x2) < w + w2 && 2 * diff_abs(y, y2) < h + h2
}

/// A corner-anchored box `[x, x+w] x [y, y+h]` meets the open disc of
/// radius `r` around `(cx, cy)`: the box point nearest the centre lies
/// strictly closer than `r`.
pub open spec fn circle_box_collide(
    x: int,
    y: int,
    w: int,
    h: int,
    cx: int,
    cy: int,
    r: int,
) -> bool {
    dist_sq(cx, cy, clamp_to(cx, x, x + w), clamp_to(cy, y, y + h)) < r * r
}

/// `r` is the floor of the square root of `v`.
pub open spec fn is_floor_sqrt(v: int, r: int) -> bool {
    0 <= r && r * r <= v && v < (r + 1) * (r + 1)
}

/// Collision symmetry: whether two boxes overlap does not depend on the
/// order in which they are given.
pub proof fn lemma_colliding_symmetric(
    x: int,
    y: int,
    w: int,
    h: int,
    x2: int,
    y2: int,
    w2: int,
    h2: int,
)
    ensures
        boxes_collide(x, y, w, h, x2, y2, w2, h2) == boxes_collide(x2, y2, w2, h2, x, y, w, h),
{
}

/// Floor square root of a 128-bit value, by binary search on the answer.
fn isqrt_u128(v: u128) -> (r: u128)
    ensures
        is_floor_sqrt(v as int, r as int),
{
    let mut lo: u128 = 0;
    let mut hi: u128 = 0x10000000000000000;
    while hi - lo > 1
        invariant
            lo < hi <= 0x10000000000000000,
            (lo as int) * (lo as int) <= v as int,
            (v as int) < (hi as int) * (hi as int),
        decreases hi - lo,
    {
        let mid: u128 = lo + (hi - lo) / 2;
        proof {
            assert((mid as int) * (mid as int) < 0x100000000000000000000000000000000int)
                by (nonlinear_arith)
                requires
                    0 <= (mid as int) && (mid as int) < 0x10000000000000000int;
        }
        if mid * mid <= v {
            lo = mid;
        } else {
            hi = mid;
        }
    }
    lo
}

impl Utils {
    /// Strict overlap test for two centred axis-aligned boxes.
    pub fn colliding(
        &self,
        x: i64,
        y: i64,
        width: i64,
        height: i64,
        x2: i64,
        y2: i64,
        width2: i64,
        height2: i64,
    ) -> (r: bool)
        ensures
            r == boxes_collide(
                x as int,
                y as int,
                width as int,
                height as int,
                x2 as int,
                y2 as int,
                width2 as int,
                height2 as int,
            ),
    {
        let dx: i128 = x as i128 - x2 as i128;
        let adx: i128 = if dx < 0 {
            -dx
        } else {
            dx
        };
        let dy: i128 = y as i128 - y2 as i128;
        let ady: i128 = if dy < 0 {
            -dy
        } else {
            dy
        };
        2 * adx < width as i128 + width2 as i128 && 2 * ady < height as i128 + height2 as i128
    }

    /// Strict overlap test between a corner-anchored box and a circle: the
    /// circle centre is clamped into the box and the nearest point must lie
    /// strictly within the radius.
    pub fn colliding_circle(
        &self,
        x: i64,
        y: i64,
        width: i64,
        height: i64,
        x2: i64,
        y2: i64,
        radius: i64,
    ) -> (r: bool)
        requires
            -GEOM_LIMIT <= x <= GEOM_LIMIT,
            -GEOM_LIMIT <= y <= GEOM_LIMIT,
            0 <= width <= GEOM_LIMIT,
            0 <= height <= GEOM_LIMIT,
            -GEOM_LIMIT <= x2 <= GEOM_LIMIT,
            -GEOM_LIMIT <= y2 <= GEOM_LIMIT,
            0 <= radius <= GEOM_LIMIT,
        ensures
            r == circle_box_collide(
                x as int,
                y as int,
                width as int,
                height as int,
                x2 as int,
                y2 as int,
                radius as int,
            ),
    {
        let mut test_x: i64 = x2;
        let mut test_y: i64 = y2;
        if x2 < x {
            test_x = x;
        } else if x2 > x + width {
            test_x = x + width;
        }
        if y2 < y {
            test_y = y;
        } else if y2 > y + height {
            test_y = y + height;
        }
        let dx: i128 = x2 as i128 - test_x as i128;
        let dy: i128 = y2 as i128 - test_y as i128;
        proof {
            assert((dx as int) * (dx as int) <= 0x100000000000000000000000000000int
                && (dx as int) * (dx as int) >= 0) by (nonlinear_arith)
                requires
                    -4_000_000_000_000_000int <= dx as int <= 4_000_000_000_000_000int;
            assert((dy as int) * (dy as int) <= 0x100000000000000000000000000000int
                && (dy as int) * (dy as int) >= 0) by (nonlinear_arith)
                requires
                    -4_000_000_000_000_000int <= dy as int <= 4_000_000_000_000_000int;
            assert((radius as int) * (radius as int) <= 0x100000000000000000000000000000int
                && (radius as int) * (radius as int) >= 0) by (nonlinear_arith)
                requires
                    0 <= radius as int <= 4_000_000_000_000_000int;
            assert((dx as int) * (dx as int) == ((test_x as int) - (x2 as int)) * ((test_x as int)
                - (x2 as int))) by (nonlinear_arith)
                requires
                    dx as int == (x2 as int) - (test_x as int);
            assert((dy as int) * (dy as int) == ((test_y as int) - (y2 as int)) * ((test_y as int)
                - (y2 as int))) by (nonlinear_arith)
                requires
                    dy as int == (y2 as int) - (test_y as int);
        }
        let dsq: i128 = dx * dx + dy * dy;
        let rsq: i128 = (radius as i128) * (radius as i128);
        dsq < rsq
    }

    /// Euclidean distance between two points, rounded down to whole
    /// milli-units. It is zero exactly when the points coincide, and never
    /// negative.
    pub fn distance(&self, x: i64, y: i64, x2: i64, y2: i64) -> (r: i64)
        requires
            -GEOM_LIMIT <= x <= GEOM_LIMIT,
            -GEOM_LIMIT <= y <= GEOM_LIMIT,
            -GEOM_LIMIT <= x2 <= GEOM_LIMIT,
            -GEOM_LIMIT <= y2 <= GEOM_LIMIT,
        ensures
            r >= 0,
            is_floor_sqrt(dist_sq(x as int, y as int, x2 as int, y2 as int), r as int),
            (r == 0) <==> (x == x2 && y == y2),
    {
        let dx: i128 = x2 as i128 - x as i128;
        let dy: i128 = y2 as i128 - y as i128;
        proof {
            assert((dx as int) * (dx as int) <= 0x100000000000000000000000000000int
                && (dx as int) * (dx as int) >= 0) by (nonlinear_arith)
                requires
                    -4_000_000_000_000_000int <= dx as int <= 4_000_000_000_000_000int;
            assert((dy as int) * (dy as int) <= 0x100000000000000000000000000000int
                && (dy as int) * (dy as int) >= 0) by (nonlinear_arith)
                requires
                    -4_000_000_000_000_000int <= dy as int <= 4_000_000_000_000_000int;
            assert((dx as int) * (dx as int) == 0 ==> dx as int == 0) by (nonlinear_arith);
            assert((dy as int) * (dy as int) == 0 ==> dy as int == 0) by (nonlinear_arith);
        }
        let dsq: i128 = dx * dx + dy * dy;
        let v: u128 = dsq as u128;
        let rt: u128 = isqrt_u128(v);
        proof {
            assert((rt as int) < 0x7fffffffffffffffint) by (nonlinear_arith)
                requires
                    0 <= rt as int,
                    (rt as int) * (rt as int) <= 0x200000000000000000000000000000int;
            assert(rt as int >= 1 ==> (rt as int) * (rt as int) >= 1) by (nonlinear_arith);
            assert((dx as int) == 0 ==> (dx as int) * (dx as int) == 0) by (nonlinear_arith);
            assert((dy as int) == 0 ==> (dy as int) * (dy as int) == 0) by (nonlinear_arith);
            assert(rt as int == 0 ==> ((rt as int) + 1) * ((rt as int) + 1) == 1)
                by (nonlinear_arith);
        }
        rt as i64
    }
}

} // verus!

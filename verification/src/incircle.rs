//! The circle inscribed in a triangle, on the grid.

use vstd::prelude::*;
use vstd::arithmetic::div_mod::lemma_hoist_over_denominator;
use crate::vector::{V2, orient, span_limit, diff, cross_of, dot_of, lemma_product_bound};
use crate::closest::{length_squared, nearest_quotient};

verus! {

/// `r` is the square root of `n`, rounded down.
pub open spec fn is_floor_root(n: int, r: int) -> bool {
    0 <= r && r * r <= n && n < (r + 1) * (r + 1)
}

/// The square root of `n`, rounded down, for `n >= 0`.
pub open spec fn floor_root(n: int) -> int {
    choose|r: int| is_floor_root(n, r)
}

/// The length of the side from `a` to `b`, rounded down to whole grid steps.
pub open spec fn side_length(a: V2, b: V2) -> int {
    floor_root(length_squared(a, b))
}

/// The sum of the three side lengths.
pub open spec fn perimeter(t0: V2, t1: V2, t2: V2) -> int {
    side_length(t1, t2) + side_length(t0, t2) + side_length(t0, t1)
}

/// Twice the area of the triangle.
pub open spec fn doubled_area(t0: V2, t1: V2, t2: V2) -> int {
    if orient(t0, t1, t2) >= 0 {
        orient(t0, t1, t2)
    } else {
        -orient(t0, t1, t2)
    }
}

/// The mean of three coordinates with the weights `l0`, `l1`, `l2`, to the
/// nearest integer.
pub open spec fn weighted_mean(x0: int, x1: int, x2: int, l0: int, l1: int, l2: int) -> int {
    nearest_quotient(x0 * l0 + x1 * l1 + x2 * l2, l0 + l1 + l2)
}

/// The largest length of a side, rounded down.
pub open spec fn side_limit() -> int {
    0x2_0000_0000
}

/// A number has at most one square root rounded down.
pub proof fn lemma_floor_root_unique(n: int, r1: int, r2: int)
    requires
        is_floor_root(n, r1),
        is_floor_root(n, r2),
    ensures
        r1 == r2,
{
    assert(r1 + 1 <= r2 ==> (r1 + 1) * (r1 + 1) <= r2 * r2) by (nonlinear_arith)
        requires
            0 <= r1,
    ;
    assert(r2 + 1 <= r1 ==> (r2 + 1) * (r2 + 1) <= r1 * r1) by (nonlinear_arith)
        requires
            0 <= r2,
    ;
}

/// Every number that is not negative has a square root rounded down.
pub proof fn lemma_floor_root_exists(n: nat)
    ensures
        is_floor_root(n as int, floor_root(n as int)),
    decreases n,
{
    if n == 0 {
        assert(is_floor_root(0, 0));
    } else {
        lemma_floor_root_exists((n - 1) as nat);
        let r = floor_root(n - 1);
        assert((r + 1) * (r + 1) < (r + 2) * (r + 2)) by (nonlinear_arith)
            requires
                0 <= r,
        ;
        if (r + 1) * (r + 1) <= n {
            assert(is_floor_root(n as int, r + 1));
        } else {
            assert(is_floor_root(n as int, r));
        }
    }
}

/// The square root of `n`, rounded down, by bisection.
fn root_of(n: i128) -> (r: i64)
    requires
        0 <= n <= 2 * span_limit() * span_limit(),
    ensures
        is_floor_root(n as int, r as int),
        r == floor_root(n as int),
        r <= side_limit(),
        (r == 0) == (n == 0),
{
    let mut lo: i128 = 0;
    let mut hi: i128 = 0x2_0000_0000;
    while hi - lo > 1
        invariant
            0 <= lo < hi <= side_limit(),
            lo * lo <= n < hi * hi,
        decreases hi - lo,
    {
        let mid: i128 = lo + (hi - lo) / 2;
        proof {
            lemma_product_bound(mid as int, mid as int, side_limit(), side_limit());
        }
        if mid * mid <= n {
            lo = mid;
        } else {
            hi = mid;
        }
    }
    proof {
        lemma_floor_root_unique(n as int, lo as int, floor_root(n as int));
        assert(lo >= 1 ==> lo * lo >= 1) by (nonlinear_arith);
        assert(lo == 0 && hi == 1 ==> hi * hi == 1) by (nonlinear_arith);
    }
    lo as i64
}

/// The length of the side from `a` to `b`, rounded down.
fn length_of(a: V2, b: V2) -> (r: i64)
    ensures
        r == side_length(a, b),
        0 <= r <= side_limit(),
        (r == 0) == (a == b),
{
    let dx = diff(b.x, a.x);
    let dy = diff(b.y, a.y);
    let n = dot_of(dx, dy, dx, dy);
    proof {
        assert(dx * dx >= 0 && (dx != 0 ==> dx * dx > 0) && (dx == 0 ==> dx * dx == 0))
            by (nonlinear_arith);
        assert(dy * dy >= 0 && (dy != 0 ==> dy * dy > 0) && (dy == 0 ==> dy * dy == 0))
            by (nonlinear_arith);
    }
    root_of(n)
}

/// A coordinate moved up by `k` keeps its weight.
proof fn lemma_shifted_weight(x: int, k: int, l: int, xmax: int)
    by (nonlinear_arith)
    requires
        0 <= x + k <= xmax,
        0 <= l,
    ensures
        (x + k) * l == x * l + k * l,
        0 <= (x + k) * l <= xmax * l,
{
}

/// A quotient is below `c` where the dividend is below `c` times the divisor.
proof fn lemma_quotient_below(x: int, d: int, c: int)
    by (nonlinear_arith)
    requires
        0 <= x < c * d,
        0 < d,
    ensures
        0 <= x / d < c,
{
}

/// One coordinate of the weighted mean of three corners.
fn mean_coordinate(x0: i32, x1: i32, x2: i32, l0: i64, l1: i64, l2: i64) -> (c: i32)
    requires
        0 <= l0 <= side_limit(),
        0 <= l1 <= side_limit(),
        0 <= l2 <= side_limit(),
        l0 + l1 + l2 > 0,
    ensures
        c == weighted_mean(x0 as int, x1 as int, x2 as int, l0 as int, l1 as int, l2 as int),
{
    let k: i128 = 0x8000_0000;
    let peri: i128 = l0 as i128 + l1 as i128 + l2 as i128;
    proof {
        lemma_shifted_weight(x0 as int, k as int, l0 as int, span_limit());
        lemma_shifted_weight(x1 as int, k as int, l1 as int, span_limit());
        lemma_shifted_weight(x2 as int, k as int, l2 as int, span_limit());
    }
    let n: i128 = (x0 as i128 + k) * (l0 as i128) + (x1 as i128 + k) * (l1 as i128) + (x2 as i128
        + k) * (l2 as i128);
    let q: i128 = (2 * n + peri) / (2 * peri);
    proof {
        let exact = x0 * l0 + x1 * l1 + x2 * l2;
        assert(n == exact + k * peri);
        lemma_hoist_over_denominator(2 * exact + peri, k as int, (2 * peri) as nat);
        assert(k * (2 * peri) == 2 * (k * peri));
        lemma_quotient_below(2 * n + peri, 2 * peri, 0x1_0000_0000);
    }
    (q - k) as i32
}

/// Centre and radius of the circle inscribed in a triangle, by the
/// coordinates of the centre and the radius: the centre is the mean of the
/// corners, each weighted with the length of the side opposite to it, and the
/// radius is twice the area divided by the perimeter, each to the nearest
/// integer. A triangle without perimeter has its first corner and zero.
pub open spec fn inscribed(t0: V2, t1: V2, t2: V2) -> (int, int, int) {
    let l0 = side_length(t1, t2);
    let l1 = side_length(t0, t2);
    let l2 = side_length(t0, t1);
    if l0 + l1 + l2 == 0 {
        (t0.x as int, t0.y as int, 0)
    } else {
        (
            weighted_mean(t0.x as int, t1.x as int, t2.x as int, l0, l1, l2),
            weighted_mean(t0.y as int, t1.y as int, t2.y as int, l0, l1, l2),
            nearest_quotient(doubled_area(t0, t1, t2), l0 + l1 + l2),
        )
    }
}

/// Centre and radius of the circle inscribed in the triangle `t`, to the
/// nearest grid point and grid step. A triangle whose corners all coincide
/// has no perimeter; it gives its first corner and the radius zero.
pub fn incircle(t: [V2; 3]) -> (r: (V2, i128))
    ensures
        (r.0.x as int, r.0.y as int, r.1 as int) == inscribed(t[0], t[1], t[2]),
        (perimeter(t[0], t[1], t[2]) == 0) == (t[0] == t[1] && t[0] == t[2]),
{
    let l0 = length_of(t[1], t[2]);
    let l1 = length_of(t[0], t[2]);
    let l2 = length_of(t[0], t[1]);
    let peri: i128 = l0 as i128 + l1 as i128 + l2 as i128;
    if peri == 0 {
        return (t[0], 0);
    }
    let d = cross_of(
        diff(t[1].x, t[0].x),
        diff(t[1].y, t[0].y),
        diff(t[2].x, t[0].x),
        diff(t[2].y, t[0].y),
    );
    let area_double: i128 = if d >= 0 { d } else { -d };
    let inrad: i128 = (2 * area_double + peri) / (2 * peri);
    let incenter = V2 {
        x: mean_coordinate(t[0].x, t[1].x, t[2].x, l0, l1, l2),
        y: mean_coordinate(t[0].y, t[1].y, t[2].y, l0, l1, l2),
    };
    (incenter, inrad)
}

} // verus!

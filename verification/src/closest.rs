//! The point of a segment that is closest to a given point.

use vstd::prelude::*;
use vstd::arithmetic::div_mod::{lemma_fundamental_div_mod, lemma_mod_bound};
use crate::vector::{V2, dot, span_limit, diff, dot_of};

verus! {

/// Numerator of `t`, the place along the segment from `l0` to `l1` of the
/// foot of the perpendicular from `p`; its denominator is `length_squared`.
pub open spec fn foot_num(p: V2, l0: V2, l1: V2) -> int {
    dot(p.x - l0.x, p.y - l0.y, l1.x - l0.x, l1.y - l0.y)
}

/// The squared length of the segment from `l0` to `l1`.
pub open spec fn length_squared(l0: V2, l1: V2) -> int {
    dot(l1.x - l0.x, l1.y - l0.y, l1.x - l0.x, l1.y - l0.y)
}

/// The integer nearest to the exact quotient `n / d`, for `d > 0`; a
/// quotient half-way between two integers goes to the larger.
pub open spec fn nearest_quotient(n: int, d: int) -> int {
    (2 * n + d) / (2 * d)
}

/// The coordinate reached on the way from `from` to `to` after the part
/// `n / d` of the distance, to the nearest integer; a value half-way between
/// two integers goes to the one farther from `from`.
pub open spec fn part_way(from: int, to: int, n: int, d: int) -> int {
    if to >= from {
        from + nearest_quotient(n * (to - from), d)
    } else {
        from - nearest_quotient(n * (from - to), d)
    }
}

/// `c` lies between `a` and `b`, these included.
pub open spec fn between(a: int, c: int, b: int) -> bool {
    (a <= c && c <= b) || (b <= c && c <= a)
}

/// The rounded part of a length is at most the length.
proof fn lemma_nearest_quotient_bounds(n: int, d: int, len: int, m: int, dmax: int, lmax: int)
    by (nonlinear_arith)
    requires
        0 < n < d <= dmax,
        0 <= len <= lmax,
        m == n * len,
    ensures
        0 <= m <= dmax * lmax,
        0 <= (2 * m + d) / (2 * d) <= len,
{
}

/// A segment between two different points has a length.
pub proof fn lemma_length_squared_positive(l0: V2, l1: V2)
    requires
        l0 != l1,
    ensures
        length_squared(l0, l1) > 0,
{
    let dx = l1.x - l0.x;
    let dy = l1.y - l0.y;
    assert(dx * dx >= 0 && dy * dy >= 0 && (dx != 0 ==> dx * dx > 0) && (dy != 0 ==> dy * dy > 0))
        by (nonlinear_arith);
}

/// The part `n / d` of the length `len`, to the nearest integer.
fn distance_along(len: i64, n: i128, d: i128) -> (q: i64)
    requires
        0 <= len <= span_limit(),
        0 < n < d,
        d <= 2 * span_limit() * span_limit(),
    ensures
        q == nearest_quotient(n * len, d as int),
        0 <= q <= len,
{
    proof {
        lemma_nearest_quotient_bounds(
            n as int,
            d as int,
            len as int,
            n * len,
            2 * span_limit() * span_limit(),
            span_limit(),
        );
    }
    let m: i128 = n * (len as i128);
    let q: i128 = (2 * m + d) / (2 * d);
    q as i64
}

/// One coordinate of the point at `n / d` of the way from `from` to `to`.
fn coordinate_part_way(from: i32, to: i32, n: i128, d: i128) -> (c: i32)
    requires
        0 < n < d,
        d <= 2 * span_limit() * span_limit(),
    ensures
        c == part_way(from as int, to as int, n as int, d as int),
        between(from as int, c as int, to as int),
{
    if to >= from {
        let q = distance_along(diff(to, from), n, d);
        (from as i64 + q) as i32
    } else {
        let q = distance_along(diff(from, to), n, d);
        (from as i64 - q) as i32
    }
}

/// The point of the segment from `l0` to `l1` that is closest to `p`, by its
/// coordinates: with `t = foot_num / length_squared`, the end `l0` where
/// `t <= 0`, the end `l1` where `t >= 1`, and else the point at `t` of the
/// way from `l0` to `l1`, each coordinate to the nearest integer.
pub open spec fn closest_on_segment(p: V2, l0: V2, l1: V2) -> (int, int) {
    let n = foot_num(p, l0, l1);
    let d = length_squared(l0, l1);
    if n <= 0 {
        (l0.x as int, l0.y as int)
    } else if n >= d {
        (l1.x as int, l1.y as int)
    } else {
        (part_way(l0.x as int, l1.x as int, n, d), part_way(l0.y as int, l1.y as int, n, d))
    }
}

/// The point of the segment `l` that is closest to `p`: the foot of the
/// perpendicular from `p` where it falls on the segment, to the nearest grid
/// point, and else the nearer end point. The segment must have a length.
pub fn point_lineseg_closest(p: V2, l: [V2; 2]) -> (r: V2)
    requires
        l[0] != l[1],
    ensures
        (r.x as int, r.y as int) == closest_on_segment(p, l[0], l[1]),
        between(l[0].x as int, r.x as int, l[1].x as int),
        between(l[0].y as int, r.y as int, l[1].y as int),
{
    proof {
        lemma_length_squared_positive(l[0], l[1]);
    }
    let l01x = diff(l[1].x, l[0].x);
    let l01y = diff(l[1].y, l[0].y);
    let p0x = diff(p.x, l[0].x);
    let p0y = diff(p.y, l[0].y);
    let n = dot_of(p0x, p0y, l01x, l01y);
    let d = dot_of(l01x, l01y, l01x, l01y);
    if n <= 0 {
        return l[0];
    }
    if n >= d {
        return l[1];
    }
    V2 { x: coordinate_part_way(l[0].x, l[1].x, n, d), y: coordinate_part_way(l[0].y, l[1].y, n, d) }
}

/// The nearest quotient is nearest: it differs from the exact quotient by at
/// most one half.
pub proof fn lemma_nearest_quotient_is_nearest(n: int, d: int)
    requires
        d > 0,
    ensures
        -d <= 2 * n - 2 * (d * nearest_quotient(n, d)) < d,
{
    lemma_fundamental_div_mod(2 * n + d, 2 * d);
    lemma_mod_bound(2 * n + d, 2 * d);
    let q = nearest_quotient(n, d);
    assert((2 * d) * q == 2 * (d * q)) by (nonlinear_arith);
}

/// The foot of the perpendicular is where the line from `p` meets the
/// segment at a right angle: with `t = foot_num / length_squared`, the vector
/// from `l0 + t (l1 - l0)` to `p` has the dot product zero with `l1 - l0`.
pub proof fn lemma_foot_is_perpendicular(p: V2, l0: V2, l1: V2)
    ensures
        dot(
            length_squared(l0, l1) * (p.x - l0.x) - foot_num(p, l0, l1) * (l1.x - l0.x),
            length_squared(l0, l1) * (p.y - l0.y) - foot_num(p, l0, l1) * (l1.y - l0.y),
            l1.x - l0.x,
            l1.y - l0.y,
        ) == 0,
{
    let d = length_squared(l0, l1);
    let n = foot_num(p, l0, l1);
    let ux = p.x - l0.x;
    let uy = p.y - l0.y;
    let vx = l1.x - l0.x;
    let vy = l1.y - l0.y;
    let uv_x = ux * vx;
    let uv_y = uy * vy;
    let vv_x = vx * vx;
    let vv_y = vy * vy;
    assert((d * ux - n * vx) * vx == d * uv_x - n * vv_x) by (nonlinear_arith)
        requires
            uv_x == ux * vx,
            vv_x == vx * vx,
    ;
    assert((d * uy - n * vy) * vy == d * uv_y - n * vv_y) by (nonlinear_arith)
        requires
            uv_y == uy * vy,
            vv_y == vy * vy,
    ;
    assert(d * uv_x + d * uv_y == d * n) by (nonlinear_arith)
        requires
            n == uv_x + uv_y,
    ;
    assert(n * vv_x + n * vv_y == d * n) by (nonlinear_arith)
        requires
            d == vv_x + vv_y,
    ;
}

} // verus!

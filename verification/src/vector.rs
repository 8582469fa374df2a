//! Points of the integer grid and the signed areas that every predicate of
//! this crate is built from.

use vstd::prelude::*;

verus! {

/// A point of the plane, or a displacement between two points, with integer
/// coordinates. The predicates of this crate do not depend on the length that
/// one grid step stands for.
#[derive(Clone, Copy, Debug, PartialEq, Eq, Structural)]
pub struct V2 {
    pub x: i32,
    pub y: i32,
}

impl V2 {
    /// The point with the coordinates `x` and `y`.
    pub fn new(x: i32, y: i32) -> (v: V2)
        ensures
            v.x == x,
            v.y == y,
    {
        V2 { x, y }
    }
}

/// Cross product of the vectors `(ax, ay)` and `(bx, by)`: twice the signed
/// area of the triangle they span, zero exactly when they are parallel.
pub open spec fn cross(ax: int, ay: int, bx: int, by: int) -> int {
    ax * by - ay * bx
}

/// Dot product of the vectors `(ax, ay)` and `(bx, by)`.
pub open spec fn dot(ax: int, ay: int, bx: int, by: int) -> int {
    ax * bx + ay * by
}

/// Twice the signed area of the triangle `p`, `q`, `r`: positive when `r`
/// lies to the left of the line from `p` to `q`, negative when it lies to the
/// right, zero when the three points are on one line.
pub open spec fn orient(p: V2, q: V2, r: V2) -> int {
    cross(q.x - p.x, q.y - p.y, r.x - p.x, r.y - p.y)
}

/// The exact quotient `n / d` is greater than zero.
pub open spec fn quotient_positive(n: int, d: int) -> bool {
    (d > 0 && n > 0) || (d < 0 && n < 0)
}

/// The exact quotient `n / d` is less than one.
pub open spec fn quotient_below_one(n: int, d: int) -> bool {
    (d > 0 && n < d) || (d < 0 && n > d)
}

/// The largest absolute value of a difference of two coordinates.
pub open spec fn span_limit() -> int {
    0xffff_ffff
}

/// The difference of two coordinates, which always fits 64 bits.
pub(crate) fn diff(a: i32, b: i32) -> (r: i64)
    ensures
        r == a - b,
        -span_limit() <= r <= span_limit(),
{
    a as i64 - b as i64
}

/// A product is bounded by the product of the bounds of its factors.
pub(crate) proof fn lemma_product_bound(a: int, b: int, la: int, lb: int)
    by (nonlinear_arith)
    requires
        -la <= a <= la,
        -lb <= b <= lb,
    ensures
        -(la * lb) <= a * b <= la * lb,
{
}

/// The product of two differences, multiplied out.
pub(crate) proof fn lemma_product_of_differences(a: int, b: int, c: int, d: int)
    by (nonlinear_arith)
    ensures
        (a - b) * (c - d) == a * c - a * d - b * c + b * d,
        a * c == c * a,
        a * d == d * a,
        b * c == c * b,
        b * d == d * b,
{
}

/// The sign of a product is the product of the signs of its factors.
pub(crate) proof fn lemma_sign_of_product(a: int, b: int)
    by (nonlinear_arith)
    ensures
        a > 0 && b > 0 ==> a * b > 0,
        a > 0 && b < 0 ==> a * b < 0,
        a < 0 && b > 0 ==> a * b < 0,
        a < 0 && b < 0 ==> a * b > 0,
        a == 0 || b == 0 ==> a * b == 0,
{
}

/// Cramer's rule: `cross(c, b) a + cross(a, c) b = cross(a, b) c` for any
/// three vectors `a`, `b`, `c`, so that `cross(c, b) / cross(a, b)` and
/// `cross(a, c) / cross(a, b)` solve `u a + v b = c`.
pub proof fn lemma_cramer(ax: int, ay: int, bx: int, by: int, cx: int, cy: int)
    ensures
        cross(cx, cy, bx, by) * ax + cross(ax, ay, cx, cy) * bx == cross(ax, ay, bx, by) * cx,
        cross(cx, cy, bx, by) * ay + cross(ax, ay, cx, cy) * by == cross(ax, ay, bx, by) * cy,
{
    let nu = cross(cx, cy, bx, by);
    let nv = cross(ax, ay, cx, cy);
    let d = cross(ax, ay, bx, by);
    assert(nu * ax + nv * bx == d * cx) by (nonlinear_arith)
        requires
            nu == cx * by - cy * bx,
            nv == ax * cy - ay * cx,
            d == ax * by - ay * bx,
    ;
    assert(nu * ay + nv * by == d * cy) by (nonlinear_arith)
        requires
            nu == cx * by - cy * bx,
            nv == ax * cy - ay * cx,
            d == ax * by - ay * bx,
    ;
}

/// The cross product of two differences of points.
pub(crate) fn cross_of(ax: i64, ay: i64, bx: i64, by: i64) -> (r: i128)
    requires
        -span_limit() <= ax <= span_limit(),
        -span_limit() <= ay <= span_limit(),
        -span_limit() <= bx <= span_limit(),
        -span_limit() <= by <= span_limit(),
    ensures
        r == cross(ax as int, ay as int, bx as int, by as int),
        -2 * span_limit() * span_limit() <= r <= 2 * span_limit() * span_limit(),
{
    proof {
        lemma_product_bound(ax as int, by as int, span_limit(), span_limit());
        lemma_product_bound(ay as int, bx as int, span_limit(), span_limit());
    }
    (ax as i128) * (by as i128) - (ay as i128) * (bx as i128)
}

/// The dot product of two differences of points.
pub(crate) fn dot_of(ax: i64, ay: i64, bx: i64, by: i64) -> (r: i128)
    requires
        -span_limit() <= ax <= span_limit(),
        -span_limit() <= ay <= span_limit(),
        -span_limit() <= bx <= span_limit(),
        -span_limit() <= by <= span_limit(),
    ensures
        r == dot(ax as int, ay as int, bx as int, by as int),
        -2 * span_limit() * span_limit() <= r <= 2 * span_limit() * span_limit(),
{
    proof {
        lemma_product_bound(ax as int, bx as int, span_limit(), span_limit());
        lemma_product_bound(ay as int, by as int, span_limit(), span_limit());
    }
    (ax as i128) * (bx as i128) + (ay as i128) * (by as i128)
}

} // verus!

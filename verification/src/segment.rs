//! Crossing of two line segments.

use vstd::prelude::*;
use crate::vector::{
    V2, cross, orient, quotient_positive, quotient_below_one, diff, cross_of, lemma_cramer,
};

verus! {

/// Determinant of the system `a0 + u (a1 - a0) = b0 + v (b1 - b0)` in the
/// unknowns `u` and `v`: zero exactly when the two segments are parallel.
pub open spec fn crossing_det(a0: V2, a1: V2, b0: V2, b1: V2) -> int {
    cross(a1.x - a0.x, a1.y - a0.y, b0.x - b1.x, b0.y - b1.y)
}

/// Numerator of `u`, the place of the meeting point along the first segment,
/// by Cramer's rule; its denominator is `crossing_det`.
pub open spec fn crossing_num_first(a0: V2, a1: V2, b0: V2, b1: V2) -> int {
    cross(b0.x - a0.x, b0.y - a0.y, b0.x - b1.x, b0.y - b1.y)
}

/// Numerator of `v`, the place of the meeting point along the second segment.
pub open spec fn crossing_num_second(a0: V2, a1: V2, b0: V2, b1: V2) -> int {
    cross(a1.x - a0.x, a1.y - a0.y, b0.x - a0.x, b0.y - a0.y)
}

/// The segments from `a0` to `a1` and from `b0` to `b1` cross: they are not
/// parallel, and their lines meet at a point that lies strictly between the
/// end points of both, `0 < u < 1` and `0 < v < 1`.
pub open spec fn segments_cross(a0: V2, a1: V2, b0: V2, b1: V2) -> bool {
    let d = crossing_det(a0, a1, b0, b1);
    let nu = crossing_num_first(a0, a1, b0, b1);
    let nv = crossing_num_second(a0, a1, b0, b1);
    &&& d != 0
    &&& quotient_positive(nu, d)
    &&& quotient_below_one(nu, d)
    &&& quotient_positive(nv, d)
    &&& quotient_below_one(nv, d)
}

/// `r` and `s` lie strictly on different sides of the line through `p` and `q`.
pub open spec fn strictly_apart(p: V2, q: V2, r: V2, s: V2) -> bool {
    (orient(p, q, r) > 0 && orient(p, q, s) < 0) || (orient(p, q, r) < 0 && orient(p, q, s) > 0)
}

/// Whether the exact quotient `n / d` lies strictly between zero and one.
pub(crate) fn in_open_unit(n: i128, d: i128) -> (r: bool)
    ensures
        r == (d != 0 && quotient_positive(n as int, d as int) && quotient_below_one(
            n as int,
            d as int,
        )),
{
    if d > 0 {
        0 < n && n < d
    } else if d < 0 {
        d < n && n < 0
    } else {
        false
    }
}

/// Whether two segments cross. Segments that are parallel, that share an end
/// point, or of which one only touches the other, do not.
pub fn lineseg_collision(a: [V2; 2], b: [V2; 2]) -> (r: bool)
    ensures
        r == segments_cross(a[0], a[1], b[0], b[1]),
{
    let a01x = diff(a[1].x, a[0].x);
    let a01y = diff(a[1].y, a[0].y);
    let b10x = diff(b[0].x, b[1].x);
    let b10y = diff(b[0].y, b[1].y);
    let abx = diff(b[0].x, a[0].x);
    let aby = diff(b[0].y, a[0].y);
    let d = cross_of(a01x, a01y, b10x, b10y);
    if d == 0 {
        return false;
    }
    let na = cross_of(abx, aby, b10x, b10y);
    if !in_open_unit(na, d) {
        return false;
    }
    let nb = cross_of(a01x, a01y, abx, aby);
    in_open_unit(nb, d)
}

/// The cross products of Cramer's rule, taken from the other segment.
proof fn lemma_crossing_terms(
    a0x: int, a0y: int, a1x: int, a1y: int, b0x: int, b0y: int, b1x: int, b1y: int,
)
    by (nonlinear_arith)
    ensures
        cross(b0x - a0x, b0y - a0y, b0x - b1x, b0y - b1y) == -cross(
            b1x - b0x,
            b1y - b0y,
            a0x - b0x,
            a0y - b0y,
        ),
        cross(a1x - a0x, a1y - a0y, b0x - b1x, b0y - b1y) == cross(
            b1x - b0x,
            b1y - b0y,
            a1x - b0x,
            a1y - b0y,
        ) - cross(b1x - b0x, b1y - b0y, a0x - b0x, a0y - b0y),
        cross(a1x - a0x, a1y - a0y, b0x - b1x, b0y - b1y) == cross(
            a1x - a0x,
            a1y - a0y,
            b0x - a0x,
            b0y - a0y,
        ) - cross(a1x - a0x, a1y - a0y, b1x - a0x, b1y - a0y),
{
}

/// Cramer's numerators and determinant, written with signed areas.
pub proof fn lemma_crossing_by_areas(a0: V2, a1: V2, b0: V2, b1: V2)
    ensures
        crossing_num_first(a0, a1, b0, b1) == -orient(b0, b1, a0),
        crossing_num_second(a0, a1, b0, b1) == orient(a0, a1, b0),
        crossing_det(a0, a1, b0, b1) == orient(b0, b1, a1) - orient(b0, b1, a0),
        crossing_det(a0, a1, b0, b1) == orient(a0, a1, b0) - orient(a0, a1, b1),
{
    lemma_crossing_terms(
        a0.x as int, a0.y as int, a1.x as int, a1.y as int,
        b0.x as int, b0.y as int, b1.x as int, b1.y as int,
    );
}

/// Two segments cross exactly when the end points of each lie strictly on
/// different sides of the line through the other.
pub proof fn lemma_cross_iff_apart(a0: V2, a1: V2, b0: V2, b1: V2)
    ensures
        segments_cross(a0, a1, b0, b1) == (strictly_apart(a0, a1, b0, b1) && strictly_apart(
            b0,
            b1,
            a0,
            a1,
        )),
{
    lemma_crossing_by_areas(a0, a1, b0, b1);
}

/// The order of the two segments does not matter.
pub proof fn lemma_cross_symmetric(a0: V2, a1: V2, b0: V2, b1: V2)
    ensures
        segments_cross(a0, a1, b0, b1) == segments_cross(b0, b1, a0, a1),
{
    lemma_cross_iff_apart(a0, a1, b0, b1);
    lemma_cross_iff_apart(b0, b1, a0, a1);
}

/// A cross product taken from another corner of the same triangle.
proof fn lemma_orient_swap_terms(px: int, py: int, qx: int, qy: int, rx: int, ry: int)
    by (nonlinear_arith)
    ensures
        cross(qx - px, qy - py, rx - px, ry - py) == -cross(px - qx, py - qy, rx - qx, ry - qy),
        cross(qx - px, qy - py, rx - px, ry - py) == cross(rx - qx, ry - qy, px - qx, py - qy),
{
}

/// A signed area keeps its value when the three points are relabelled in a
/// cycle, and changes its sign when two of them change places.
pub proof fn lemma_orient_relabel(p: V2, q: V2, r: V2)
    ensures
        orient(p, q, r) == orient(q, r, p),
        orient(p, q, r) == orient(r, p, q),
        orient(p, q, r) == -orient(q, p, r),
        orient(p, q, r) == -orient(p, r, q),
        orient(p, q, r) == -orient(r, q, p),
{
    lemma_orient_swap_terms(p.x as int, p.y as int, q.x as int, q.y as int, r.x as int, r.y as int);
    lemma_orient_swap_terms(q.x as int, q.y as int, r.x as int, r.y as int, p.x as int, p.y as int);
    lemma_orient_swap_terms(r.x as int, r.y as int, p.x as int, p.y as int, q.x as int, q.y as int);
    lemma_orient_swap_terms(q.x as int, q.y as int, p.x as int, p.y as int, r.x as int, r.y as int);
    lemma_orient_swap_terms(p.x as int, p.y as int, r.x as int, r.y as int, q.x as int, q.y as int);
    lemma_orient_swap_terms(r.x as int, r.y as int, q.x as int, q.y as int, p.x as int, p.y as int);
}

/// The direction in which either segment is given does not matter.
pub proof fn lemma_cross_reversed(a0: V2, a1: V2, b0: V2, b1: V2)
    ensures
        segments_cross(a0, a1, b0, b1) == segments_cross(a1, a0, b0, b1),
        segments_cross(a0, a1, b0, b1) == segments_cross(a0, a1, b1, b0),
{
    lemma_cross_iff_apart(a0, a1, b0, b1);
    lemma_cross_iff_apart(a1, a0, b0, b1);
    lemma_cross_iff_apart(a0, a1, b1, b0);
    lemma_orient_relabel(a0, a1, b0);
    lemma_orient_relabel(a0, a1, b1);
    lemma_orient_relabel(b0, b1, a0);
    lemma_orient_relabel(b0, b1, a1);
}

/// Touching is not crossing: two segments that share an end point do not
/// cross, whatever their other end points are.
pub proof fn lemma_shared_endpoint_no_cross(a0: V2, a1: V2, b0: V2, b1: V2)
    requires
        a0 == b0 || a0 == b1 || a1 == b0 || a1 == b1,
    ensures
        !segments_cross(a0, a1, b0, b1),
{
    lemma_cross_iff_apart(a0, a1, b0, b1);
    lemma_orient_relabel(a0, a1, a0);
    lemma_orient_relabel(a0, a1, a1);
    lemma_orient_relabel(a1, a0, a1);
}

/// Parallel segments do not cross, and neither do segments on one line.
pub proof fn lemma_parallel_no_cross(a0: V2, a1: V2, b0: V2, b1: V2)
    requires
        crossing_det(a0, a1, b0, b1) == 0,
    ensures
        !segments_cross(a0, a1, b0, b1),
{
}

/// The numerators and the determinant solve the system: the point at `u` of
/// the way along the first segment is the point at `v` of the way along the
/// second, `a0 + u (a1 - a0) = b0 + v (b1 - b0)`, both sides multiplied by
/// the determinant.
pub proof fn lemma_crossing_solves(a0: V2, a1: V2, b0: V2, b1: V2)
    ensures
        crossing_num_first(a0, a1, b0, b1) * (a1.x - a0.x) + crossing_num_second(a0, a1, b0, b1)
            * (b0.x - b1.x) == crossing_det(a0, a1, b0, b1) * (b0.x - a0.x),
        crossing_num_first(a0, a1, b0, b1) * (a1.y - a0.y) + crossing_num_second(a0, a1, b0, b1)
            * (b0.y - b1.y) == crossing_det(a0, a1, b0, b1) * (b0.y - a0.y),
{
    lemma_cramer(
        a1.x - a0.x,
        a1.y - a0.y,
        b0.x - b1.x,
        b0.y - b1.y,
        b0.x - a0.x,
        b0.y - a0.y,
    );
}

} // verus!

//! Shapes on different sides of a line do not collide.

use vstd::prelude::*;
use crate::vector::{V2, cross, orient, lemma_cramer, lemma_sign_of_product};
use crate::segment::{segments_cross, crossing_det, crossing_num_first, crossing_num_second};
use crate::triangle::{
    strictly_inside, corner_det, corner_num_first, corner_num_second, triangles_collide,
    triangles_overlap,
};

verus! {

/// Cramer's rule after a cross product with a fourth vector `w`.
proof fn lemma_cramer_across(
    ax: int, ay: int, bx: int, by: int, cx: int, cy: int, wx: int, wy: int,
)
    ensures
        cross(cx, cy, bx, by) * cross(wx, wy, ax, ay) + cross(ax, ay, cx, cy) * cross(
            wx,
            wy,
            bx,
            by,
        ) == cross(ax, ay, bx, by) * cross(wx, wy, cx, cy),
{
    let nu = cross(cx, cy, bx, by);
    let nv = cross(ax, ay, cx, cy);
    let d = cross(ax, ay, bx, by);
    lemma_cramer(ax, ay, bx, by, cx, cy);
    lemma_mul_shuffle(nu, wx, ay);
    lemma_mul_shuffle(nu, wy, ax);
    lemma_mul_shuffle(nv, wx, by);
    lemma_mul_shuffle(nv, wy, bx);
    lemma_mul_shuffle(d, wx, cy);
    lemma_mul_shuffle(d, wy, cx);
    lemma_mul_spread(nu, wx * ay, wy * ax);
    lemma_mul_spread(nv, wx * by, wy * bx);
    lemma_mul_spread(d, wx * cy, wy * cx);
    lemma_mul_spread(wx, nu * ay, -(nv * by));
    lemma_mul_spread(wy, nu * ax, -(nv * bx));
}

/// Multiplication spreads over a difference.
proof fn lemma_mul_spread(k: int, a: int, b: int)
    by (nonlinear_arith)
    ensures
        k * (a - b) == k * a - k * b,
        (a - b) * k == a * k - b * k,
        a * k == k * a,
        b * k == k * b,
        k * (-b) == -(k * b),
        (-k) * b == -(k * b),
{
}

/// The factors of a product may change places.
proof fn lemma_mul_shuffle(a: int, b: int, c: int)
    by (nonlinear_arith)
    ensures
        a * (b * c) == b * (a * c),
{
}

/// Two vectors that are both parallel to a third, which is not zero, are
/// parallel to each other.
proof fn lemma_parallel_to_common(ax: int, ay: int, bx: int, by: int, wx: int, wy: int)
    requires
        cross(wx, wy, ax, ay) == 0,
        cross(wx, wy, bx, by) == 0,
        wx != 0 || wy != 0,
    ensures
        cross(ax, ay, bx, by) == 0,
{
    let d = cross(ax, ay, bx, by);
    assert(d * wx == 0 && d * wy == 0) by (nonlinear_arith)
        requires
            d == ax * by - ay * bx,
            wx * ay - wy * ax == 0,
            wx * by - wy * bx == 0,
    ;
    assert(d == 0) by (nonlinear_arith)
        requires
            d * wx == 0,
            d * wy == 0,
            wx != 0 || wy != 0,
    ;
}

/// The signed area over a fixed base changes with its third point as the
/// cross product with the base does.
proof fn lemma_orient_difference(p: V2, q: V2, r: V2, s: V2)
    ensures
        orient(p, q, s) - orient(p, q, r) == cross(
            q.x - p.x,
            q.y - p.y,
            s.x - r.x,
            s.y - r.y,
        ),
{
    let wx = q.x - p.x;
    let wy = q.y - p.y;
    let sx = s.x - p.x;
    let sy = s.y - p.y;
    let rx = r.x - p.x;
    let ry = r.y - p.y;
    assert(wx * sy - wy * sx - (wx * ry - wy * rx) == wx * (sy - ry) - wy * (sx - rx))
        by (nonlinear_arith);
}

/// A signed area over the base from `p` to `q` is the same mean of its
/// values at the corners of a triangle as the third point `x` is of the
/// corners: the weight of each corner is the signed area that `x` spans with
/// the opposite side.
pub proof fn lemma_area_at_mean(p: V2, q: V2, x: V2, t0: V2, t1: V2, t2: V2)
    ensures
        orient(t1, t2, x) * orient(p, q, t0) + orient(t2, t0, x) * orient(p, q, t1) + orient(
            t0,
            t1,
            x,
        ) * orient(p, q, t2) == orient(t0, t1, t2) * orient(p, q, x),
{
    let d = corner_det(t0, t1, t2);
    let nu = corner_num_first(x, t0, t1, t2);
    let nv = corner_num_second(x, t0, t1, t2);
    let f0 = orient(p, q, t0);
    let f1 = orient(p, q, t1);
    let f2 = orient(p, q, t2);
    let fx = orient(p, q, x);
    lemma_cramer_across(
        t1.x - t0.x,
        t1.y - t0.y,
        t2.x - t0.x,
        t2.y - t0.y,
        x.x - t0.x,
        x.y - t0.y,
        q.x - p.x,
        q.y - p.y,
    );
    lemma_orient_difference(p, q, t0, t1);
    lemma_orient_difference(p, q, t0, t2);
    lemma_orient_difference(p, q, t0, x);
    assert(nu * (f1 - f0) + nv * (f2 - f0) == d * (fx - f0));
    crate::triangle::lemma_areas_add_up(x, t0, t1, t2);
    lemma_mul_spread(nu, f1, f0);
    lemma_mul_spread(nv, f2, f0);
    lemma_mul_spread(d, fx, f0);
    lemma_mul_spread(f0, d, nu + nv);
    lemma_mul_spread(f0, nu, -nv);
}

/// Where the lines through two segments meet, a signed area over the base
/// from `p` to `q` is the same mean of its values at the ends of either
/// segment.
pub proof fn lemma_area_at_crossing(p: V2, q: V2, a0: V2, a1: V2, b0: V2, b1: V2)
    ensures
        orient(b0, b1, a1) * orient(p, q, a0) - orient(b0, b1, a0) * orient(p, q, a1) == orient(
            a0,
            a1,
            b0,
        ) * orient(p, q, b1) - orient(a0, a1, b1) * orient(p, q, b0),
{
    let d = crossing_det(a0, a1, b0, b1);
    let nu = crossing_num_first(a0, a1, b0, b1);
    let nv = crossing_num_second(a0, a1, b0, b1);
    let fa0 = orient(p, q, a0);
    let fa1 = orient(p, q, a1);
    let fb0 = orient(p, q, b0);
    let fb1 = orient(p, q, b1);
    lemma_cramer_across(
        a1.x - a0.x,
        a1.y - a0.y,
        b0.x - b1.x,
        b0.y - b1.y,
        b0.x - a0.x,
        b0.y - a0.y,
        q.x - p.x,
        q.y - p.y,
    );
    lemma_orient_difference(p, q, a0, a1);
    lemma_orient_difference(p, q, b1, b0);
    lemma_orient_difference(p, q, a0, b0);
    assert(nu * (fa1 - fa0) + nv * (fb0 - fb1) == d * (fb0 - fa0));
    crate::segment::lemma_crossing_by_areas(a0, a1, b0, b1);
    lemma_mul_spread(nu, fa1, fa0);
    lemma_mul_spread(nv, fb0, fb1);
    lemma_mul_spread(d, fb0, fa0);
    lemma_mul_spread(fa0, d, nu);
    lemma_mul_spread(fb0, d, nv);
    lemma_mul_spread(fa1, 0, nu);
    lemma_mul_spread(fa0, 0, nu);
    lemma_mul_spread(fb0, 0, orient(a0, a1, b1));
}

/// Segments on different sides of a line do not cross: if both end points of
/// one lie on the line from `p` to `q` or to its left, and both end points of
/// the other on it or to its right, the segments do not cross.
pub proof fn lemma_separated_segments(p: V2, q: V2, a0: V2, a1: V2, b0: V2, b1: V2)
    requires
        p != q,
        orient(p, q, a0) >= 0,
        orient(p, q, a1) >= 0,
        orient(p, q, b0) <= 0,
        orient(p, q, b1) <= 0,
    ensures
        !segments_cross(a0, a1, b0, b1),
        !segments_cross(b0, b1, a0, a1),
{
    crate::segment::lemma_cross_symmetric(a0, a1, b0, b1);
    if segments_cross(a0, a1, b0, b1) {
        crate::segment::lemma_cross_iff_apart(a0, a1, b0, b1);
        crate::segment::lemma_crossing_by_areas(a0, a1, b0, b1);
        lemma_area_at_crossing(p, q, a0, a1, b0, b1);
        lemma_sign_of_product(orient(b0, b1, a1), orient(p, q, a0));
        lemma_sign_of_product(orient(b0, b1, a0), orient(p, q, a1));
        lemma_sign_of_product(orient(a0, a1, b0), orient(p, q, b1));
        lemma_sign_of_product(orient(a0, a1, b1), orient(p, q, b0));
        assert(orient(p, q, a0) == 0 && orient(p, q, a1) == 0);
        assert(orient(p, q, b0) == 0 && orient(p, q, b1) == 0);
        lemma_orient_difference(p, q, a0, a1);
        lemma_orient_difference(p, q, b1, b0);
        lemma_parallel_to_common(
            a1.x - a0.x,
            a1.y - a0.y,
            b0.x - b1.x,
            b0.y - b1.y,
            q.x - p.x,
            q.y - p.y,
        );
        assert(false);
    }
}

/// A point beyond a line is not inside a triangle on this side of it: if all
/// corners of the triangle lie on the line from `p` to `q` or to its left,
/// and `x` on it or to its right, then `x` is not strictly inside.
pub proof fn lemma_separated_point(p: V2, q: V2, x: V2, t0: V2, t1: V2, t2: V2)
    requires
        p != q,
        orient(p, q, t0) >= 0,
        orient(p, q, t1) >= 0,
        orient(p, q, t2) >= 0,
        orient(p, q, x) <= 0,
    ensures
        !strictly_inside(x, t0, t1, t2),
{
    if strictly_inside(x, t0, t1, t2) {
        crate::triangle::lemma_inside_iff_same_side(x, t0, t1, t2);
        crate::triangle::lemma_areas_add_up(x, t0, t1, t2);
        lemma_area_at_mean(p, q, x, t0, t1, t2);
        lemma_sign_of_product(orient(t1, t2, x), orient(p, q, t0));
        lemma_sign_of_product(orient(t2, t0, x), orient(p, q, t1));
        lemma_sign_of_product(orient(t0, t1, x), orient(p, q, t2));
        lemma_sign_of_product(orient(t0, t1, t2), orient(p, q, x));
        assert(orient(p, q, t0) == 0 && orient(p, q, t1) == 0 && orient(p, q, t2) == 0);
        lemma_orient_difference(p, q, t0, t1);
        lemma_orient_difference(p, q, t0, t2);
        lemma_parallel_to_common(
            t1.x - t0.x,
            t1.y - t0.y,
            t2.x - t0.x,
            t2.y - t0.y,
            q.x - p.x,
            q.y - p.y,
        );
        assert(false);
    }
}

/// Touching is not colliding: two triangles on different sides of a line do
/// not collide, whichever of them comes first and however their corners are
/// labelled. They may both reach the line, and so share a corner or a whole
/// side on it.
pub proof fn lemma_separated_triangles(
    p: V2, q: V2, a0: V2, a1: V2, a2: V2, b0: V2, b1: V2, b2: V2,
)
    requires
        p != q,
        orient(p, q, a0) >= 0,
        orient(p, q, a1) >= 0,
        orient(p, q, a2) >= 0,
        orient(p, q, b0) <= 0,
        orient(p, q, b1) <= 0,
        orient(p, q, b2) <= 0,
    ensures
        !triangles_overlap(a0, a1, a2, b0, b1, b2),
        !triangles_overlap(b0, b1, b2, a0, a1, a2),
        !triangles_collide(a0, a1, a2, b0, b1, b2),
        !triangles_collide(b0, b1, b2, a0, a1, a2),
{
    lemma_separated_segments(p, q, a0, a1, b0, b1);
    lemma_separated_segments(p, q, a0, a1, b0, b2);
    lemma_separated_segments(p, q, a0, a1, b1, b2);
    lemma_separated_segments(p, q, a0, a2, b0, b1);
    lemma_separated_segments(p, q, a0, a2, b0, b2);
    lemma_separated_segments(p, q, a0, a2, b1, b2);
    lemma_separated_segments(p, q, a1, a2, b0, b1);
    lemma_separated_segments(p, q, a1, a2, b0, b2);
    lemma_separated_segments(p, q, a1, a2, b1, b2);
    lemma_separated_point(p, q, b0, a0, a1, a2);
    lemma_separated_point(p, q, b1, a0, a1, a2);
    lemma_separated_point(p, q, b2, a0, a1, a2);
    crate::segment::lemma_orient_relabel(p, q, a0);
    crate::segment::lemma_orient_relabel(p, q, a1);
    crate::segment::lemma_orient_relabel(p, q, a2);
    crate::segment::lemma_orient_relabel(p, q, b0);
    crate::segment::lemma_orient_relabel(p, q, b1);
    crate::segment::lemma_orient_relabel(p, q, b2);
    lemma_separated_point(q, p, a0, b0, b1, b2);
    lemma_separated_point(q, p, a1, b0, b1, b2);
    lemma_separated_point(q, p, a2, b0, b1, b2);
}

/// Two triangles that share the side from `s0` to `s1`, with their third
/// corners on different sides of it, do not collide.
pub proof fn lemma_shared_side_no_collision(s0: V2, s1: V2, c: V2, e: V2)
    requires
        s0 != s1,
        orient(s0, s1, c) >= 0,
        orient(s0, s1, e) <= 0,
    ensures
        !triangles_collide(s0, s1, c, s1, s0, e),
        !triangles_collide(s1, s0, e, s0, s1, c),
{
    crate::segment::lemma_orient_relabel(s0, s1, s0);
    crate::segment::lemma_orient_relabel(s1, s0, s1);
    lemma_separated_triangles(s0, s1, s0, s1, c, s1, s0, e);
}

} // verus!

//! Points in triangles, and collision of two triangles.

use vstd::prelude::*;
use crate::vector::{
    V2, cross, orient, quotient_positive, quotient_below_one, diff, cross_of,
    lemma_product_of_differences, lemma_cramer,
};
use crate::segment::{
    segments_cross, lineseg_collision, lemma_cross_reversed, lemma_cross_symmetric,
    lemma_orient_relabel,
};

verus! {

/// Determinant of the system `p - t0 = u (t1 - t0) + v (t2 - t0)` in the
/// unknowns `u` and `v`: twice the signed area of the triangle, zero exactly
/// when its corners are on one line.
pub open spec fn corner_det(t0: V2, t1: V2, t2: V2) -> int {
    cross(t1.x - t0.x, t1.y - t0.y, t2.x - t0.x, t2.y - t0.y)
}

/// Numerator of `u` by Cramer's rule; its denominator is `corner_det`.
pub open spec fn corner_num_first(p: V2, t0: V2, t1: V2, t2: V2) -> int {
    cross(p.x - t0.x, p.y - t0.y, t2.x - t0.x, t2.y - t0.y)
}

/// Numerator of `v` by Cramer's rule.
pub open spec fn corner_num_second(p: V2, t0: V2, t1: V2, t2: V2) -> int {
    cross(t1.x - t0.x, t1.y - t0.y, p.x - t0.x, p.y - t0.y)
}

/// `p` lies strictly inside the triangle `t0`, `t1`, `t2`: the triangle has
/// an area, and `p = t0 + u (t1 - t0) + v (t2 - t0)` with `u > 0`, `v > 0`
/// and `u + v < 1`.
pub open spec fn strictly_inside(p: V2, t0: V2, t1: V2, t2: V2) -> bool {
    let d = corner_det(t0, t1, t2);
    let nu = corner_num_first(p, t0, t1, t2);
    let nv = corner_num_second(p, t0, t1, t2);
    &&& d != 0
    &&& quotient_positive(nu, d)
    &&& quotient_positive(nv, d)
    &&& quotient_below_one(nu + nv, d)
}

/// One of the two sides of the first triangle that start at its corner `a0`
/// crosses a side of the second triangle.
pub open spec fn sides_cross(a0: V2, a1: V2, a2: V2, b0: V2, b1: V2, b2: V2) -> bool {
    ||| segments_cross(a0, a1, b0, b1)
    ||| segments_cross(a0, a1, b0, b2)
    ||| segments_cross(a0, a1, b1, b2)
    ||| segments_cross(a0, a2, b0, b1)
    ||| segments_cross(a0, a2, b0, b2)
    ||| segments_cross(a0, a2, b1, b2)
}

/// What `triangle_collision` decides: a side of the first triangle at `a0`
/// crosses a side of the second, or a corner of the second lies strictly
/// inside the first, or `a0` lies strictly inside the second.
pub open spec fn triangles_collide(a0: V2, a1: V2, a2: V2, b0: V2, b1: V2, b2: V2) -> bool {
    ||| sides_cross(a0, a1, a2, b0, b1, b2)
    ||| strictly_inside(b0, a0, a1, a2)
    ||| strictly_inside(b1, a0, a1, a2)
    ||| strictly_inside(b2, a0, a1, a2)
    ||| strictly_inside(a0, b0, b1, b2)
}

/// Whether `p` lies strictly inside the triangle `t`. A point on a side or on
/// a corner is not inside, and nothing is inside a triangle without area.
pub fn point_in_triangle(p: V2, t: [V2; 3]) -> (r: bool)
    ensures
        r == strictly_inside(p, t[0], t[1], t[2]),
{
    let xx = diff(p.x, t[0].x);
    let xy = diff(p.y, t[0].y);
    let y1x = diff(t[1].x, t[0].x);
    let y1y = diff(t[1].y, t[0].y);
    let y2x = diff(t[2].x, t[0].x);
    let y2y = diff(t[2].y, t[0].y);
    let d = cross_of(y1x, y1y, y2x, y2y);
    if d == 0 {
        return false;
    }
    let na = cross_of(xx, xy, y2x, y2y);
    if (d > 0 && na <= 0) || (d < 0 && na >= 0) {
        return false;
    }
    let nb = cross_of(y1x, y1y, xx, xy);
    if d > 0 {
        nb > 0 && na + nb < d
    } else {
        nb < 0 && na + nb > d
    }
}

/// Whether one of the two sides of `t1` that start at its first corner
/// crosses a side of `t2`.
pub fn triangle_collision1(t1: [V2; 3], t2: [V2; 3]) -> (r: bool)
    ensures
        r == sides_cross(t1[0], t1[1], t1[2], t2[0], t2[1], t2[2]),
{
    if lineseg_collision([t1[0], t1[1]], [t2[0], t2[1]]) {
        return true;
    }
    if lineseg_collision([t1[0], t1[1]], [t2[0], t2[2]]) {
        return true;
    }
    if lineseg_collision([t1[0], t1[1]], [t2[1], t2[2]]) {
        return true;
    }
    if lineseg_collision([t1[0], t1[2]], [t2[0], t2[1]]) {
        return true;
    }
    if lineseg_collision([t1[0], t1[2]], [t2[0], t2[2]]) {
        return true;
    }
    if lineseg_collision([t1[0], t1[2]], [t2[1], t2[2]]) {
        return true;
    }
    false
}

/// Whether two triangles collide: sides that cross, or a corner of one
/// strictly inside the other. Triangles that only touch do not collide.
pub fn triangle_collision(t1: [V2; 3], t2: [V2; 3]) -> (r: bool)
    ensures
        r == triangles_collide(t1[0], t1[1], t1[2], t2[0], t2[1], t2[2]),
{
    if triangle_collision1(t1, t2) {
        return true;
    }
    if point_in_triangle(t2[0], t1) {
        return true;
    }
    if point_in_triangle(t2[1], t1) {
        return true;
    }
    if point_in_triangle(t2[2], t1) {
        return true;
    }
    if point_in_triangle(t1[0], t2) {
        return true;
    }
    false
}

/// `p` lies strictly on the same side of all three sides of the triangle,
/// taken in the order `t0`, `t1`, `t2`.
pub open spec fn same_side_of_all(p: V2, t0: V2, t1: V2, t2: V2) -> bool {
    ||| orient(t0, t1, p) > 0 && orient(t1, t2, p) > 0 && orient(t2, t0, p) > 0
    ||| orient(t0, t1, p) < 0 && orient(t1, t2, p) < 0 && orient(t2, t0, p) < 0
}

/// The signed areas around a point, as cross products from one corner.
proof fn lemma_area_terms(ux: int, uy: int, vx: int, vy: int, wx: int, wy: int)
    ensures
        cross(vx, vy, ux, uy) + cross(wx - vx, wy - vy, ux - vx, uy - vy) + cross(
            -wx,
            -wy,
            ux - wx,
            uy - wy,
        ) == cross(vx, vy, wx, wy),
        cross(ux, uy, wx, wy) == cross(-wx, -wy, ux - wx, uy - wy),
{
    lemma_product_of_differences(wx, vx, uy, vy);
    lemma_product_of_differences(wy, vy, ux, vx);
    lemma_product_of_differences(0, wx, uy, wy);
    lemma_product_of_differences(0, wy, ux, wx);
}

/// The areas of the three triangles that `p` spans with the sides of a
/// triangle add up to the area of the triangle.
pub proof fn lemma_areas_add_up(p: V2, t0: V2, t1: V2, t2: V2)
    ensures
        orient(t0, t1, p) + orient(t1, t2, p) + orient(t2, t0, p) == orient(t0, t1, t2),
        corner_det(t0, t1, t2) == orient(t0, t1, t2),
        corner_num_first(p, t0, t1, t2) == orient(t2, t0, p),
        corner_num_second(p, t0, t1, t2) == orient(t0, t1, p),
{
    lemma_area_terms(
        p.x - t0.x, p.y - t0.y, t1.x - t0.x, t1.y - t0.y, t2.x - t0.x, t2.y - t0.y,
    );
}

/// A point is strictly inside a triangle exactly when it lies strictly on the
/// same side of all three sides.
pub proof fn lemma_inside_iff_same_side(p: V2, t0: V2, t1: V2, t2: V2)
    ensures
        strictly_inside(p, t0, t1, t2) == same_side_of_all(p, t0, t1, t2),
{
    lemma_areas_add_up(p, t0, t1, t2);
}

/// Relabelling the corners of the triangle in a cycle does not change whether
/// a point is inside it.
pub proof fn lemma_inside_rotated(p: V2, t0: V2, t1: V2, t2: V2)
    ensures
        strictly_inside(p, t1, t2, t0) == strictly_inside(p, t0, t1, t2),
        strictly_inside(p, t2, t0, t1) == strictly_inside(p, t0, t1, t2),
{
    lemma_inside_iff_same_side(p, t0, t1, t2);
    lemma_inside_iff_same_side(p, t1, t2, t0);
    lemma_inside_iff_same_side(p, t2, t0, t1);
}

/// Nor does it matter in which sense the corners are listed.
pub proof fn lemma_inside_mirrored(p: V2, t0: V2, t1: V2, t2: V2)
    ensures
        strictly_inside(p, t0, t2, t1) == strictly_inside(p, t0, t1, t2),
{
    lemma_inside_iff_same_side(p, t0, t1, t2);
    lemma_inside_iff_same_side(p, t0, t2, t1);
    lemma_orient_relabel(t0, t1, p);
    lemma_orient_relabel(t1, t2, p);
    lemma_orient_relabel(t2, t0, p);
}

/// Touching is not being inside: a point on the line through a side of the
/// triangle, so also a point on a side or a corner itself, is not strictly
/// inside.
pub proof fn lemma_on_side_not_inside(p: V2, t0: V2, t1: V2, t2: V2)
    requires
        orient(t0, t1, p) == 0 || orient(t1, t2, p) == 0 || orient(t2, t0, p) == 0,
    ensures
        !strictly_inside(p, t0, t1, t2),
{
    lemma_inside_iff_same_side(p, t0, t1, t2);
}

/// No corner of a triangle is strictly inside it.
pub proof fn lemma_corner_not_inside(t0: V2, t1: V2, t2: V2)
    ensures
        !strictly_inside(t0, t0, t1, t2),
        !strictly_inside(t1, t0, t1, t2),
        !strictly_inside(t2, t0, t1, t2),
{
    lemma_orient_relabel(t0, t1, t0);
    lemma_orient_relabel(t1, t2, t1);
    lemma_orient_relabel(t2, t0, t2);
    lemma_on_side_not_inside(t0, t0, t1, t2);
    lemma_on_side_not_inside(t1, t0, t1, t2);
    lemma_on_side_not_inside(t2, t0, t1, t2);
}

/// Relabelling the corners of the second triangle in a cycle does not change
/// whether the two triangles collide.
pub proof fn lemma_collide_second_rotated(a0: V2, a1: V2, a2: V2, b0: V2, b1: V2, b2: V2)
    ensures
        sides_cross(a0, a1, a2, b1, b2, b0) == sides_cross(a0, a1, a2, b0, b1, b2),
        sides_cross(a0, a1, a2, b2, b0, b1) == sides_cross(a0, a1, a2, b0, b1, b2),
        triangles_collide(a0, a1, a2, b1, b2, b0) == triangles_collide(a0, a1, a2, b0, b1, b2),
        triangles_collide(a0, a1, a2, b2, b0, b1) == triangles_collide(a0, a1, a2, b0, b1, b2),
{
    lemma_cross_reversed(a0, a1, b0, b1);
    lemma_cross_reversed(a0, a1, b0, b2);
    lemma_cross_reversed(a0, a1, b1, b2);
    lemma_cross_reversed(a0, a2, b0, b1);
    lemma_cross_reversed(a0, a2, b0, b2);
    lemma_cross_reversed(a0, a2, b1, b2);
    lemma_inside_rotated(a0, b0, b1, b2);
}

/// What the labelling `a0`, `a1`, `a2` of the first triangle leaves untested:
/// its side from `a1` to `a2` crosses a side of the second triangle, or `a1`
/// or `a2` lies strictly inside the second triangle.
pub open spec fn untested_overlap(a0: V2, a1: V2, a2: V2, b0: V2, b1: V2, b2: V2) -> bool {
    ||| segments_cross(a1, a2, b0, b1)
    ||| segments_cross(a1, a2, b0, b2)
    ||| segments_cross(a1, a2, b1, b2)
    ||| strictly_inside(a1, b0, b1, b2)
    ||| strictly_inside(a2, b0, b1, b2)
}

/// Some side of one triangle crosses some side of the other, or some corner
/// of one lies strictly inside the other.
pub open spec fn triangles_overlap(a0: V2, a1: V2, a2: V2, b0: V2, b1: V2, b2: V2) -> bool {
    triangles_collide(a0, a1, a2, b0, b1, b2) || untested_overlap(a0, a1, a2, b0, b1, b2)
}

/// Under this labelling of the first triangle nothing is missed: whatever
/// overlap the untested side and corners show, the tested ones show too.
pub open spec fn nothing_missed(a0: V2, a1: V2, a2: V2, b0: V2, b1: V2, b2: V2) -> bool {
    untested_overlap(a0, a1, a2, b0, b1, b2) ==> triangles_collide(a0, a1, a2, b0, b1, b2)
}

/// Overlap does not depend on the labelling of the first triangle, and it is
/// what `triangle_collision` finds under at least one of the three
/// labellings.
pub proof fn lemma_overlap_first_rotated(a0: V2, a1: V2, a2: V2, b0: V2, b1: V2, b2: V2)
    ensures
        triangles_overlap(a1, a2, a0, b0, b1, b2) == triangles_overlap(a0, a1, a2, b0, b1, b2),
        triangles_overlap(a2, a0, a1, b0, b1, b2) == triangles_overlap(a0, a1, a2, b0, b1, b2),
        triangles_overlap(a0, a1, a2, b0, b1, b2) == (triangles_collide(a0, a1, a2, b0, b1, b2)
            || triangles_collide(a1, a2, a0, b0, b1, b2) || triangles_collide(
            a2,
            a0,
            a1,
            b0,
            b1,
            b2,
        )),
{
    lemma_cross_reversed(a0, a1, b0, b1);
    lemma_cross_reversed(a0, a1, b0, b2);
    lemma_cross_reversed(a0, a1, b1, b2);
    lemma_cross_reversed(a0, a2, b0, b1);
    lemma_cross_reversed(a0, a2, b0, b2);
    lemma_cross_reversed(a0, a2, b1, b2);
    lemma_cross_reversed(a1, a2, b0, b1);
    lemma_cross_reversed(a1, a2, b0, b2);
    lemma_cross_reversed(a1, a2, b1, b2);
    lemma_inside_rotated(b0, a0, a1, a2);
    lemma_inside_rotated(b1, a0, a1, a2);
    lemma_inside_rotated(b2, a0, a1, a2);
}

/// Relabelling the corners of the first triangle in a cycle does not change
/// whether the two triangles collide, as long as no labelling misses an
/// overlap. Where one does, the labellings disagree: a triangle whose first
/// corner is also a corner of the other triangle, and whose opposite side the
/// other triangle cuts through, collides under one labelling and not under
/// another.
pub proof fn lemma_collide_first_rotated(a0: V2, a1: V2, a2: V2, b0: V2, b1: V2, b2: V2)
    requires
        nothing_missed(a0, a1, a2, b0, b1, b2),
        nothing_missed(a1, a2, a0, b0, b1, b2),
        nothing_missed(a2, a0, a1, b0, b1, b2),
    ensures
        triangles_collide(a1, a2, a0, b0, b1, b2) == triangles_collide(a0, a1, a2, b0, b1, b2),
        triangles_collide(a2, a0, a1, b0, b1, b2) == triangles_collide(a0, a1, a2, b0, b1, b2),
{
    lemma_overlap_first_rotated(a0, a1, a2, b0, b1, b2);
}

/// The numerators and the determinant solve the system:
/// `p - t0 = u (t1 - t0) + v (t2 - t0)`, both sides multiplied by the
/// determinant.
pub proof fn lemma_corner_solves(p: V2, t0: V2, t1: V2, t2: V2)
    ensures
        corner_num_first(p, t0, t1, t2) * (t1.x - t0.x) + corner_num_second(p, t0, t1, t2) * (t2.x
            - t0.x) == corner_det(t0, t1, t2) * (p.x - t0.x),
        corner_num_first(p, t0, t1, t2) * (t1.y - t0.y) + corner_num_second(p, t0, t1, t2) * (t2.y
            - t0.y) == corner_det(t0, t1, t2) * (p.y - t0.y),
{
    lemma_cramer(
        t1.x - t0.x,
        t1.y - t0.y,
        t2.x - t0.x,
        t2.y - t0.y,
        p.x - t0.x,
        p.y - t0.y,
    );
}

/// Overlap does not depend on which of the two triangles comes first.
pub proof fn lemma_overlap_swapped(a0: V2, a1: V2, a2: V2, b0: V2, b1: V2, b2: V2)
    ensures
        triangles_overlap(b0, b1, b2, a0, a1, a2) == triangles_overlap(a0, a1, a2, b0, b1, b2),
{
    lemma_cross_symmetric(a0, a1, b0, b1);
    lemma_cross_symmetric(a0, a1, b0, b2);
    lemma_cross_symmetric(a0, a1, b1, b2);
    lemma_cross_symmetric(a0, a2, b0, b1);
    lemma_cross_symmetric(a0, a2, b0, b2);
    lemma_cross_symmetric(a0, a2, b1, b2);
    lemma_cross_symmetric(a1, a2, b0, b1);
    lemma_cross_symmetric(a1, a2, b0, b2);
    lemma_cross_symmetric(a1, a2, b1, b2);
}

} // verus!

//! Triangles in general position: no corner of one on the line through a
//! side of the other. For such triangles the collision test misses nothing,
//! whichever corner of the first triangle comes first.

use vstd::prelude::*;
use crate::vector::{V2, orient, lemma_sign_of_product};
use crate::segment::{
    segments_cross, lemma_cross_iff_apart, lemma_cross_reversed, lemma_orient_relabel,
};
use crate::triangle::{
    strictly_inside, triangles_collide, triangles_overlap, nothing_missed,
    lemma_inside_iff_same_side, lemma_collide_first_rotated, lemma_overlap_swapped,
};
use crate::separation::{lemma_area_at_mean, lemma_area_at_crossing};

verus! {

/// `x` lies on none of the lines through the sides of the triangle.
pub open spec fn off_the_lines(t0: V2, t1: V2, t2: V2, x: V2) -> bool {
    orient(t0, t1, x) != 0 && orient(t1, t2, x) != 0 && orient(t2, t0, x) != 0
}

/// No corner of either triangle lies on the line through a side of the other.
pub open spec fn general_position(a0: V2, a1: V2, a2: V2, b0: V2, b1: V2, b2: V2) -> bool {
    &&& off_the_lines(a0, a1, a2, b0)
    &&& off_the_lines(a0, a1, a2, b1)
    &&& off_the_lines(a0, a1, a2, b2)
    &&& off_the_lines(b0, b1, b2, a0)
    &&& off_the_lines(b0, b1, b2, a1)
    &&& off_the_lines(b0, b1, b2, a2)
}

/// The way out of a triangle crosses one of its sides: a segment from a point
/// strictly inside the triangle to a point that is not, and that lies on none
/// of the lines through the sides, crosses a side, unless it runs through a
/// corner.
pub proof fn lemma_way_out_crosses(a_out: V2, a_in: V2, b0: V2, b1: V2, b2: V2)
    requires
        strictly_inside(a_in, b0, b1, b2),
        !strictly_inside(a_out, b0, b1, b2),
        off_the_lines(b0, b1, b2, a_out),
        orient(a_out, a_in, b0) != 0,
        orient(a_out, a_in, b1) != 0,
        orient(a_out, a_in, b2) != 0,
    ensures
        segments_cross(a_out, a_in, b0, b1) || segments_cross(a_out, a_in, b1, b2)
            || segments_cross(a_out, a_in, b2, b0),
{
    lemma_inside_iff_same_side(a_in, b0, b1, b2);
    lemma_inside_iff_same_side(a_out, b0, b1, b2);
    lemma_cross_iff_apart(a_out, a_in, b0, b1);
    lemma_cross_iff_apart(a_out, a_in, b1, b2);
    lemma_cross_iff_apart(a_out, a_in, b2, b0);
    lemma_area_at_mean(a_out, a_in, a_in, b0, b1, b2);
    lemma_area_at_mean(a_out, a_in, a_out, b0, b1, b2);
    lemma_orient_relabel(a_out, a_in, a_in);
    lemma_orient_relabel(a_out, a_in, a_out);
    lemma_sign_of_product(orient(b0, b1, b2), orient(a_out, a_in, a_in));
    lemma_sign_of_product(orient(b0, b1, b2), orient(a_out, a_in, a_out));
    lemma_sign_of_product(orient(b1, b2, a_in), orient(a_out, a_in, b0));
    lemma_sign_of_product(orient(b2, b0, a_in), orient(a_out, a_in, b1));
    lemma_sign_of_product(orient(b0, b1, a_in), orient(a_out, a_in, b2));
    lemma_sign_of_product(orient(b1, b2, a_out), orient(a_out, a_in, b0));
    lemma_sign_of_product(orient(b2, b0, a_out), orient(a_out, a_in, b1));
    lemma_sign_of_product(orient(b0, b1, a_out), orient(a_out, a_in, b2));
}

/// A cut through one side of a triangle shows on another side or at an end of
/// the cut: a segment from `x` to `y` that crosses the side from `a1` to `a2`
/// also crosses one of the other two sides, or ends strictly inside the
/// triangle, unless it ends on the line through one of these two sides or
/// runs through the corner `a0`.
pub proof fn lemma_cut_shows(a0: V2, a1: V2, a2: V2, x: V2, y: V2)
    requires
        segments_cross(a1, a2, x, y),
        orient(x, y, a0) != 0,
        orient(a0, a1, x) != 0,
        orient(a0, a1, y) != 0,
        orient(a2, a0, x) != 0,
        orient(a2, a0, y) != 0,
    ensures
        segments_cross(a0, a1, x, y) || segments_cross(a0, a2, x, y) || strictly_inside(
            x,
            a0,
            a1,
            a2,
        ) || strictly_inside(y, a0, a1, a2),
{
    lemma_cross_iff_apart(a1, a2, x, y);
    lemma_cross_iff_apart(a0, a1, x, y);
    lemma_cross_iff_apart(a0, a2, x, y);
    lemma_inside_iff_same_side(x, a0, a1, a2);
    lemma_inside_iff_same_side(y, a0, a1, a2);
    lemma_orient_relabel(a0, a2, x);
    lemma_orient_relabel(a0, a2, y);
    lemma_orient_relabel(a0, a1, a2);
    lemma_orient_relabel(a0, a1, a1);
    lemma_orient_relabel(a2, a0, a2);
    lemma_orient_relabel(x, y, x);
    lemma_orient_relabel(x, y, y);
    let d = orient(a0, a1, a2);
    // the corners of the triangle, seen from the line of the cut
    lemma_area_at_mean(x, y, x, a0, a1, a2);
    lemma_area_at_mean(x, y, y, a0, a1, a2);
    lemma_sign_of_product(d, orient(x, y, x));
    lemma_sign_of_product(d, orient(x, y, y));
    lemma_sign_of_product(orient(a1, a2, x), orient(x, y, a0));
    lemma_sign_of_product(orient(a2, a0, x), orient(x, y, a1));
    lemma_sign_of_product(orient(a0, a1, x), orient(x, y, a2));
    lemma_sign_of_product(orient(a1, a2, y), orient(x, y, a0));
    lemma_sign_of_product(orient(a2, a0, y), orient(x, y, a1));
    lemma_sign_of_product(orient(a0, a1, y), orient(x, y, a2));
    // the ends of the cut, seen from the lines of the other two sides
    lemma_area_at_crossing(a0, a1, a1, a2, x, y);
    lemma_area_at_crossing(a2, a0, a1, a2, x, y);
    lemma_sign_of_product(orient(x, y, a2), orient(a0, a1, a1));
    lemma_sign_of_product(orient(x, y, a1), orient(a0, a1, a2));
    lemma_sign_of_product(orient(a1, a2, x), orient(a0, a1, y));
    lemma_sign_of_product(orient(a1, a2, y), orient(a0, a1, x));
    lemma_sign_of_product(orient(x, y, a2), orient(a2, a0, a1));
    lemma_sign_of_product(orient(x, y, a1), orient(a2, a0, a2));
    lemma_sign_of_product(orient(a1, a2, x), orient(a2, a0, y));
    lemma_sign_of_product(orient(a1, a2, y), orient(a2, a0, x));
}

/// For triangles in general position the collision test misses nothing.
pub proof fn lemma_general_position_misses_nothing(
    a0: V2, a1: V2, a2: V2, b0: V2, b1: V2, b2: V2,
)
    requires
        general_position(a0, a1, a2, b0, b1, b2),
    ensures
        nothing_missed(a0, a1, a2, b0, b1, b2),
{
    lemma_orient_relabel(a0, a2, b0);
    lemma_orient_relabel(a0, a2, b1);
    lemma_orient_relabel(a0, a2, b2);
    lemma_orient_relabel(b0, b2, a0);
    lemma_cross_reversed(a0, a1, b0, b2);
    lemma_cross_reversed(a0, a2, b0, b2);
    lemma_cross_reversed(a1, a2, b0, b2);
    if !strictly_inside(a0, b0, b1, b2) {
        if strictly_inside(a1, b0, b1, b2) {
            lemma_way_out_crosses(a0, a1, b0, b1, b2);
        }
        if strictly_inside(a2, b0, b1, b2) {
            lemma_way_out_crosses(a0, a2, b0, b1, b2);
        }
    }
    if segments_cross(a1, a2, b0, b1) {
        lemma_cut_shows(a0, a1, a2, b0, b1);
    }
    if segments_cross(a1, a2, b1, b2) {
        lemma_cut_shows(a0, a1, a2, b1, b2);
    }
    if segments_cross(a1, a2, b2, b0) {
        lemma_cut_shows(a0, a1, a2, b2, b0);
    }
}

/// Relabelling the corners of the first triangle in a cycle does not change
/// whether two triangles in general position collide.
pub proof fn lemma_collide_first_rotated_in_general_position(
    a0: V2, a1: V2, a2: V2, b0: V2, b1: V2, b2: V2,
)
    requires
        general_position(a0, a1, a2, b0, b1, b2),
    ensures
        triangles_collide(a1, a2, a0, b0, b1, b2) == triangles_collide(a0, a1, a2, b0, b1, b2),
        triangles_collide(a2, a0, a1, b0, b1, b2) == triangles_collide(a0, a1, a2, b0, b1, b2),
{
    lemma_general_position_misses_nothing(a0, a1, a2, b0, b1, b2);
    lemma_general_position_misses_nothing(a1, a2, a0, b0, b1, b2);
    lemma_general_position_misses_nothing(a2, a0, a1, b0, b1, b2);
    lemma_collide_first_rotated(a0, a1, a2, b0, b1, b2);
}

/// For triangles in general position the collision test finds every
/// overlap: a crossing of any two sides, and any corner strictly inside the
/// other triangle.
pub proof fn lemma_collide_is_overlap_in_general_position(
    a0: V2, a1: V2, a2: V2, b0: V2, b1: V2, b2: V2,
)
    requires
        general_position(a0, a1, a2, b0, b1, b2),
    ensures
        triangles_collide(a0, a1, a2, b0, b1, b2) == triangles_overlap(a0, a1, a2, b0, b1, b2),
{
    lemma_general_position_misses_nothing(a0, a1, a2, b0, b1, b2);
}

/// Whether two triangles in general position collide does not depend on
/// which of them comes first.
pub proof fn lemma_collide_swapped_in_general_position(
    a0: V2, a1: V2, a2: V2, b0: V2, b1: V2, b2: V2,
)
    requires
        general_position(a0, a1, a2, b0, b1, b2),
    ensures
        triangles_collide(b0, b1, b2, a0, a1, a2) == triangles_collide(a0, a1, a2, b0, b1, b2),
{
    lemma_general_position_misses_nothing(a0, a1, a2, b0, b1, b2);
    lemma_general_position_misses_nothing(b0, b1, b2, a0, a1, a2);
    lemma_overlap_swapped(a0, a1, a2, b0, b1, b2);
}

} // verus!

//! The first point at which a ray hits a segment.

use vstd::prelude::*;
use crate::vector::{
    V2, cross, quotient_positive, quotient_below_one, diff, cross_of, lemma_cramer,
};
use crate::segment::in_open_unit;

verus! {

/// An exact fraction `num / den` with a positive denominator.
#[derive(Clone, Copy, Debug, PartialEq, Eq, Structural)]
pub struct Ratio {
    pub num: i128,
    pub den: i128,
}

impl Ratio {
    /// The denominator is positive.
    pub open spec fn well_formed(self) -> bool {
        self.den > 0
    }
}

/// Determinant of the system `l0 + j (l1 - l0) = p + k dir` in the unknowns
/// `j` and `k`: zero exactly when the ray is parallel to the segment.
pub open spec fn ray_det(dir: V2, l0: V2, l1: V2) -> int {
    cross(l1.x - l0.x, l1.y - l0.y, dir.x as int, dir.y as int)
}

/// Numerator of `j`, the place of the meeting point along the segment, by
/// Cramer's rule; its denominator is `ray_det`.
pub open spec fn ray_num_along_segment(p: V2, dir: V2, l0: V2, l1: V2) -> int {
    cross(p.x - l0.x, p.y - l0.y, dir.x as int, dir.y as int)
}

/// Numerator of `k`, the number of steps of `dir` from `p` to the meeting
/// point; its denominator is `ray_det`.
pub open spec fn ray_num_along_ray(p: V2, dir: V2, l0: V2, l1: V2) -> int {
    -cross(l1.x - l0.x, l1.y - l0.y, p.x - l0.x, p.y - l0.y)
}

/// The ray from `p` in the direction `dir` hits the segment from `l0` to
/// `l1`: the two are not parallel, the meeting point lies ahead of `p`,
/// `k > 0`, and strictly between the end points, `0 < j < 1`.
pub open spec fn ray_hits(p: V2, dir: V2, l0: V2, l1: V2) -> bool {
    let d = ray_det(dir, l0, l1);
    let nj = ray_num_along_segment(p, dir, l0, l1);
    let nk = ray_num_along_ray(p, dir, l0, l1);
    &&& d != 0
    &&& quotient_positive(nk, d)
    &&& quotient_positive(nj, d)
    &&& quotient_below_one(nj, d)
}

/// The fraction `n / d`, for `d != 0`, with a positive denominator.
pub open spec fn normalized(n: int, d: int) -> (int, int) {
    if d > 0 {
        (n, d)
    } else {
        (-n, -d)
    }
}

/// Numerator and denominator of `k` where the ray hits the segment, the
/// denominator positive, and nothing where it does not.
pub open spec fn ray_reach(p: V2, dir: V2, l0: V2, l1: V2) -> Option<(int, int)> {
    if ray_hits(p, dir, l0, l1) {
        Some(normalized(ray_num_along_ray(p, dir, l0, l1), ray_det(dir, l0, l1)))
    } else {
        None
    }
}

/// Where the ray from `p` in the direction `dir` first hits the segment `l`,
/// if it does: the distance from `p` to the hit as an exact multiple of the
/// length of `dir`. The multiples of two hits with the same `dir` compare as
/// the distances do. A ray that only touches an end point of the segment, or
/// that starts on it, does not hit it.
pub fn ray_lineseg_collision(p: V2, dir: V2, l: [V2; 2]) -> (r: Option<Ratio>)
    ensures
        match r {
            Some(k) => ray_reach(p, dir, l[0], l[1]) == Some((k.num as int, k.den as int)),
            None => ray_reach(p, dir, l[0], l[1]) is None,
        },
        r matches Some(k) ==> k.well_formed() && k.num > 0,
{
    let dlx = diff(l[1].x, l[0].x);
    let dly = diff(l[1].y, l[0].y);
    let pax = diff(p.x, l[0].x);
    let pay = diff(p.y, l[0].y);
    let dirx = dir.x as i64;
    let diry = dir.y as i64;
    let d = cross_of(dlx, dly, dirx, diry);
    if d == 0 {
        return None;
    }
    let nj = cross_of(pax, pay, dirx, diry);
    let nk = cross_of(dlx, dly, pax, pay);
    let k_ahead = (d > 0 && nk < 0) || (d < 0 && nk > 0);
    if !k_ahead || !in_open_unit(nj, d) {
        return None;
    }
    if d > 0 {
        Some(Ratio { num: -nk, den: d })
    } else {
        Some(Ratio { num: nk, den: -d })
    }
}

/// The numerators and the determinant solve the system: the point at `j` of
/// the way along the segment is the point `k` steps of `dir` from `p`,
/// `l0 + j (l1 - l0) = p + k dir`, both sides multiplied by the determinant.
pub proof fn lemma_ray_solves(p: V2, dir: V2, l0: V2, l1: V2)
    ensures
        ray_num_along_segment(p, dir, l0, l1) * (l1.x - l0.x) == ray_det(dir, l0, l1) * (p.x
            - l0.x) + ray_num_along_ray(p, dir, l0, l1) * dir.x,
        ray_num_along_segment(p, dir, l0, l1) * (l1.y - l0.y) == ray_det(dir, l0, l1) * (p.y
            - l0.y) + ray_num_along_ray(p, dir, l0, l1) * dir.y,
{
    lemma_cramer(
        l1.x - l0.x,
        l1.y - l0.y,
        dir.x as int,
        dir.y as int,
        p.x - l0.x,
        p.y - l0.y,
    );
    let back = cross(l1.x - l0.x, l1.y - l0.y, p.x - l0.x, p.y - l0.y);
    assert((-back) * dir.x == -(back * dir.x) && (-back) * dir.y == -(back * dir.y))
        by (nonlinear_arith);
}

} // verus!

use collide2d::angle::angle_dist;
use collide2d::closest::point_lineseg_closest;
use collide2d::incircle::incircle;
use collide2d::ray::{ray_lineseg_collision, Ratio};
use collide2d::segment::lineseg_collision;
use collide2d::triangle::{point_in_triangle, triangle_collision, triangle_collision1};
use collide2d::vector::V2;

fn p(x: i32, y: i32) -> V2 {
    V2::new(x, y)
}

fn rotated(t: [V2; 3]) -> [V2; 3] {
    [t[1], t[2], t[0]]
}

#[test]
fn new_keeps_the_coordinates() {
    let a = V2::new(-7, 12);
    assert_eq!(a.x, -7);
    assert_eq!(a.y, 12);
    assert_eq!(a, V2 { x: -7, y: 12 });
}

#[test]
fn crossing_does_not_depend_on_the_order_of_the_segments() {
    let segs = [
        [p(0, 10), p(10, 0)],
        [p(0, 0), p(10, 10)],
        [p(0, 0), p(0, 10)],
        [p(-3, 4), p(20, 5)],
        [p(5, 5), p(9, 9)],
        [p(5, -5), p(5, 30)],
    ];
    for a in segs {
        for b in segs {
            assert_eq!(lineseg_collision(a, b), lineseg_collision(b, a));
            assert_eq!(lineseg_collision(a, b), lineseg_collision([a[1], a[0]], b));
            assert_eq!(lineseg_collision(a, b), lineseg_collision(a, [b[1], b[0]]));
        }
    }
}

#[test]
fn segments_that_share_an_end_point_do_not_cross() {
    let a = [p(0, 0), p(4, 4)];
    assert!(!lineseg_collision(a, [p(0, 0), p(4, -4)]));
    assert!(!lineseg_collision(a, [p(-4, 4), p(0, 0)]));
    assert!(!lineseg_collision(a, [p(4, 4), p(8, 0)]));
    assert!(!lineseg_collision(a, [p(8, 0), p(4, 4)]));
    assert!(!lineseg_collision(a, a));
}

#[test]
fn a_segment_that_ends_on_another_does_not_cross_it() {
    // T shape: the second segment ends in the middle of the first.
    assert!(!lineseg_collision([p(0, 0), p(10, 0)], [p(5, 0), p(5, 7)]));
    assert!(!lineseg_collision([p(5, 0), p(5, 7)], [p(0, 0), p(10, 0)]));
    // One step further it crosses.
    assert!(lineseg_collision([p(0, 0), p(10, 0)], [p(5, -1), p(5, 7)]));
}

#[test]
fn segments_on_one_line_do_not_cross() {
    assert!(!lineseg_collision([p(0, 0), p(10, 0)], [p(5, 0), p(15, 0)]));
    assert!(!lineseg_collision([p(0, 0), p(10, 10)], [p(2, 2), p(3, 3)]));
    assert!(!lineseg_collision([p(3, 3), p(3, 3)], [p(0, 0), p(6, 6)]));
}

#[test]
fn crossing_at_the_limits_of_the_grid() {
    let lo = i32::MIN;
    let hi = i32::MAX;
    assert!(lineseg_collision([p(lo, lo), p(hi, hi)], [p(lo, hi), p(hi, lo)]));
    assert!(!lineseg_collision([p(lo, lo), p(hi, hi)], [p(lo, hi), p(lo, lo)]));
    assert!(point_in_triangle(p(0, 0), [p(lo, lo), p(hi, lo), p(0, hi)]));
    assert!(!point_in_triangle(p(0, lo), [p(lo, lo), p(hi, lo), p(0, hi)]));
}

#[test]
fn points_on_the_border_are_not_inside() {
    let t = [p(0, 0), p(10, 0), p(0, 10)];
    for lab in [t, rotated(t), rotated(rotated(t)), [t[0], t[2], t[1]]] {
        assert!(point_in_triangle(p(1, 1), lab));
        assert!(point_in_triangle(p(4, 5), lab));
        assert!(!point_in_triangle(p(5, 5), lab));
        assert!(!point_in_triangle(p(0, 5), lab));
        assert!(!point_in_triangle(p(5, 0), lab));
        assert!(!point_in_triangle(p(0, 0), lab));
        assert!(!point_in_triangle(p(10, 0), lab));
        assert!(!point_in_triangle(p(0, 10), lab));
        assert!(!point_in_triangle(p(6, 5), lab));
        assert!(!point_in_triangle(p(-1, 5), lab));
    }
}

#[test]
fn nothing_is_inside_a_triangle_without_area() {
    assert!(!point_in_triangle(p(5, 5), [p(0, 0), p(5, 5), p(10, 10)]));
    assert!(!point_in_triangle(p(0, 0), [p(0, 0), p(0, 0), p(0, 0)]));
    assert!(!point_in_triangle(p(1, 0), [p(0, 0), p(2, 0), p(2, 0)]));
}

#[test]
fn relabelling_the_second_triangle_changes_nothing() {
    let ts = [
        [p(0, 0), p(0, 20), p(20, 0)],
        [p(5, 5), p(5, 15), p(15, 5)],
        [p(-10, -10), p(30, 1), p(2, 7)],
        [p(0, -10), p(0, 20), p(-50, -10)],
        [p(0, 20), p(-10, 0), p(10, 0)],
        [p(100, 100), p(101, 100), p(100, 101)],
    ];
    for a in ts {
        for b in ts {
            let first = triangle_collision(a, b);
            assert_eq!(first, triangle_collision(a, rotated(b)));
            assert_eq!(first, triangle_collision(a, rotated(rotated(b))));
            let sides = triangle_collision1(a, b);
            assert_eq!(sides, triangle_collision1(a, rotated(b)));
            assert_eq!(sides, triangle_collision1(a, rotated(rotated(b))));
        }
    }
}

#[test]
fn a_shared_first_corner_hides_a_cut_through_the_opposite_side() {
    // The second triangle runs from below through the base of the first up to
    // its apex, which is a corner of both.
    let b = [p(0, -10), p(0, 20), p(-50, -10)];
    let apex_first = [p(0, 20), p(-10, 0), p(10, 0)];
    assert!(!triangle_collision(apex_first, b));
    assert!(triangle_collision(rotated(apex_first), b));
    assert!(triangle_collision(rotated(rotated(apex_first)), b));
}

#[test]
fn triangles_that_touch_do_not_collide() {
    // a whole side in common, on different sides of it
    let a = [p(0, 0), p(10, 0), p(0, 10)];
    let b = [p(10, 0), p(0, 10), p(10, 10)];
    for (s, t) in [(a, b), (b, a)] {
        for i in [s, rotated(s), rotated(rotated(s))] {
            for j in [t, rotated(t), rotated(rotated(t))] {
                assert!(!triangle_collision(i, j));
            }
        }
    }
    // one corner in common
    let c = [p(10, 0), p(20, 0), p(20, -10)];
    for (s, t) in [(a, c), (c, a)] {
        for i in [s, rotated(s), rotated(rotated(s))] {
            for j in [t, rotated(t), rotated(rotated(t))] {
                assert!(!triangle_collision(i, j));
            }
        }
    }
}

#[test]
fn a_triangle_inside_another_collides_without_crossing_sides() {
    let outer = [p(0, 0), p(0, 2000), p(2000, 0)];
    let inner = [p(500, 500), p(500, 1500), p(1500, 500)];
    assert!(!triangle_collision1(outer, inner));
    assert!(!triangle_collision1(inner, outer));
    assert!(triangle_collision(outer, inner));
    assert!(triangle_collision(inner, outer));
}

#[test]
fn crossing_sides_are_found_by_the_side_test() {
    let a = [p(-2, 0), p(0, 2), p(2, 0)];
    let b = [p(0, -1), p(0, 1), p(1, 0)];
    assert!(triangle_collision1(a, b));
    let far = [p(100, 100), p(101, 100), p(100, 101)];
    assert!(!triangle_collision1(a, far));
    assert!(!triangle_collision(a, far));
}

#[test]
fn closest_point_is_an_end_or_the_foot() {
    let l = [p(0, 0), p(10, 0)];
    assert_eq!(point_lineseg_closest(p(-5, 3), l), p(0, 0));
    assert_eq!(point_lineseg_closest(p(0, 3), l), p(0, 0));
    assert_eq!(point_lineseg_closest(p(10, -3), l), p(10, 0));
    assert_eq!(point_lineseg_closest(p(15, 3), l), p(10, 0));
    assert_eq!(point_lineseg_closest(p(4, 3), l), p(4, 0));
    assert_eq!(point_lineseg_closest(p(4, 3), [l[1], l[0]]), p(4, 0));
    assert_eq!(point_lineseg_closest(p(4, 0), l), p(4, 0));
}

#[test]
fn closest_point_is_rounded_to_the_grid() {
    // The foot of the perpendicular from (0, 0) is (1.5, 1.5).
    assert_eq!(point_lineseg_closest(p(0, 0), [p(3, 0), p(0, 3)]), p(1, 2));
    assert_eq!(point_lineseg_closest(p(0, 0), [p(0, 3), p(3, 0)]), p(2, 1));
    // The foot is (1.2, 0.4): the part 2 / 5 of the way from (0, 0) to (3, 1).
    assert_eq!(point_lineseg_closest(p(1, 1), [p(0, 0), p(3, 1)]), p(1, 0));
    // The foot is (-1.8, -0.6).
    assert_eq!(point_lineseg_closest(p(-2, 0), [p(0, 0), p(-3, -1)]), p(-2, -1));
}

#[test]
fn closest_point_at_the_limits_of_the_grid() {
    let lo = i32::MIN;
    let hi = i32::MAX;
    assert_eq!(point_lineseg_closest(p(hi, lo), [p(lo, lo), p(hi, hi)]), p(0, 0));
    assert_eq!(point_lineseg_closest(p(lo, hi), [p(hi, hi), p(lo, lo)]), p(-1, -1));
    assert_eq!(point_lineseg_closest(p(hi, hi), [p(lo, lo), p(hi, hi)]), p(hi, hi));
}

#[test]
fn ray_reports_the_exact_multiple_of_its_direction() {
    let l = [p(0, 10), p(10, 0)];
    assert_eq!(ray_lineseg_collision(p(0, 0), p(1, 1), l), Some(Ratio { num: 100, den: 20 }));
    assert_eq!(ray_lineseg_collision(p(0, 0), p(1, 1), [l[1], l[0]]), Some(Ratio { num: 100, den: 20 }));
    assert_eq!(ray_lineseg_collision(p(0, 0), p(10, 10), l), Some(Ratio { num: 100, den: 200 }));
    assert_eq!(ray_lineseg_collision(p(0, 0), p(3, 1), l), Some(Ratio { num: 100, den: 40 }));
}

#[test]
fn ray_misses() {
    let l = [p(0, 10), p(10, 0)];
    // pointing away
    assert_eq!(ray_lineseg_collision(p(0, 0), p(-1, -1), l), None);
    // parallel
    assert_eq!(ray_lineseg_collision(p(0, 0), p(1, -1), l), None);
    // through an end point
    assert_eq!(ray_lineseg_collision(p(0, 0), p(0, 1), l), None);
    assert_eq!(ray_lineseg_collision(p(0, 0), p(1, 0), l), None);
    // past the segment
    assert_eq!(ray_lineseg_collision(p(0, 0), p(-1, 5), l), None);
    // starting on the segment
    assert_eq!(ray_lineseg_collision(p(5, 5), p(1, 1), l), None);
    // no direction
    assert_eq!(ray_lineseg_collision(p(0, 0), p(0, 0), l), None);
}

#[test]
fn the_nearer_of_two_segments_has_the_smaller_multiple() {
    let near = ray_lineseg_collision(p(0, 0), p(2, 1), [p(4, -5), p(4, 5)]).unwrap();
    let far = ray_lineseg_collision(p(0, 0), p(2, 1), [p(9, 10), p(9, -10)]).unwrap();
    assert!(near.den > 0 && far.den > 0);
    assert!(near.num * far.den < far.num * near.den);
}

#[test]
fn the_same_call_gives_the_same_answer() {
    let a = [p(0, 10), p(10, 0)];
    let b = [p(0, 0), p(10, 10)];
    let t = [p(0, 0), p(0, 20), p(20, 0)];
    let u = [p(5, 5), p(5, 15), p(15, 5)];
    assert_eq!(lineseg_collision(a, b), lineseg_collision(a, b));
    assert_eq!(point_in_triangle(p(1, 1), t), point_in_triangle(p(1, 1), t));
    assert_eq!(triangle_collision(t, u), triangle_collision(t, u));
    assert_eq!(point_lineseg_closest(p(1, 1), a), point_lineseg_closest(p(1, 1), a));
    assert_eq!(ray_lineseg_collision(p(0, 0), p(1, 1), a), ray_lineseg_collision(p(0, 0), p(1, 1), a));
}

#[test]
fn incircle_of_right_triangles() {
    assert_eq!(incircle([p(0, 0), p(400, 0), p(0, 300)]), (p(100, 100), 100));
    assert_eq!(incircle([p(0, 300), p(0, 0), p(400, 0)]), (p(100, 100), 100));
    assert_eq!(incircle([p(-1000, -1000), p(-600, -1000), p(-1000, -700)]), (p(-900, -900), 100));
    assert_eq!(incircle([p(0, 0), p(0, -5), p(-12, 0)]), (p(-2, -2), 2));
}

#[test]
fn incircle_is_rounded_to_the_grid() {
    // sides 3, 3 and 4 after rounding down: centre (0.9, 0.9), radius 0.9
    assert_eq!(incircle([p(0, 0), p(3, 0), p(0, 3)]), (p(1, 1), 1));
    // sides 1, 1 and 1 after rounding down: centre and radius one third
    assert_eq!(incircle([p(0, 0), p(1, 0), p(0, 1)]), (p(0, 0), 0));
    assert_eq!(incircle([p(-7, -7), p(-4, -7), p(-7, -3)]), (p(-6, -6), 1));
}

#[test]
fn incircle_without_area() {
    assert_eq!(incircle([p(5, 5), p(5, 5), p(5, 5)]), (p(5, 5), 0));
    assert_eq!(incircle([p(0, 0), p(10, 0), p(20, 0)]), (p(10, 0), 0));
}

#[test]
fn incircle_at_the_limits_of_the_grid() {
    let lo = i32::MIN;
    let hi = i32::MAX;
    assert_eq!(
        incircle([p(lo, lo), p(hi, lo), p(lo, hi)]),
        (p(-889516852, -889516852), 1257966796)
    );
}

#[test]
fn turns_wrap_at_half_a_turn() {
    let h = 3_141_593;
    assert_eq!(angle_dist(0, 1_000_000, h), 1_000_000);
    assert_eq!(angle_dist(1_000_000, 0, h), -1_000_000);
    assert_eq!(angle_dist(-h, 1_000_000, h), 1_000_000 - h);
    assert_eq!(angle_dist(0, -h, h), -h);
    assert_eq!(angle_dist(-h, 0, h), -h);
    assert_eq!(angle_dist(-h, h - 1, h), -1);
    assert_eq!(angle_dist(h - 1, -h, h), 1);
    assert_eq!(angle_dist(3_000_000, -3_000_000, h), 283_186);
    assert_eq!(angle_dist(-3_000_000, 3_000_000, h), -283_186);
    assert_eq!(angle_dist(7, 7, h), 0);
}

#[test]
fn turns_with_the_largest_step_count() {
    let h = i64::MAX;
    assert_eq!(angle_dist(-h, h - 1, h), -1);
    assert_eq!(angle_dist(h - 1, -h, h), 1);
    assert_eq!(angle_dist(-h, -h, h), 0);
    assert_eq!(angle_dist(0, h - 1, h), h - 1);
}

#[test]
fn a_turn_leads_from_the_first_angle_to_the_second() {
    let h: i64 = 180;
    for a1 in -h..h {
        for a2 in -h..h {
            let d = angle_dist(a1, a2, h);
            assert!(-h <= d && d < h);
            assert_eq!((a1 + d - a2).rem_euclid(2 * h), 0);
            if d != -h {
                assert_eq!(angle_dist(a2, a1, h), -d);
            }
        }
    }
}

#[test]
fn triangles_on_different_sides_of_a_line_do_not_collide() {
    // the line x = 10, reached by both
    let left = [p(0, 0), p(10, -5), p(10, 5)];
    let right = [[p(10, 0), p(20, 3), p(20, -3)], [p(10, -5), p(10, 5), p(30, 0)], [p(10, 4), p(10, 9), p(11, 6)]];
    for b in right {
        for i in [left, rotated(left), rotated(rotated(left))] {
            for j in [b, rotated(b), rotated(rotated(b))] {
                assert!(!triangle_collision(i, j));
                assert!(!triangle_collision(j, i));
            }
        }
    }
}

fn area(o: V2, q: V2, r: V2) -> i64 {
    let (px, py) = (o.x as i64, o.y as i64);
    (q.x as i64 - px) * (r.y as i64 - py) - (q.y as i64 - py) * (r.x as i64 - px)
}

fn off_the_lines(t: [V2; 3], x: V2) -> bool {
    area(t[0], t[1], x) != 0 && area(t[1], t[2], x) != 0 && area(t[2], t[0], x) != 0
}

fn general_position(a: [V2; 3], b: [V2; 3]) -> bool {
    b.iter().all(|x| off_the_lines(a, *x)) && a.iter().all(|x| off_the_lines(b, *x))
}

/// A fixed sequence of small triangles.
fn sample_triangles(count: usize) -> Vec<[V2; 3]> {
    let mut state: u64 = 0x2545_f491_4f6c_dd1d;
    let mut next = move || {
        state = state.wrapping_mul(6364136223846793005).wrapping_add(1442695040888963407);
        ((state >> 33) % 25) as i32 - 12
    };
    let mut out = Vec::new();
    for _ in 0..count {
        out.push([p(next(), next()), p(next(), next()), p(next(), next())]);
    }
    out
}

#[test]
fn in_general_position_labelling_and_order_change_nothing() {
    let ts = sample_triangles(60);
    let mut seen = 0;
    let mut colliding = 0;
    for a in &ts {
        for b in &ts {
            if !general_position(*a, *b) {
                continue;
            }
            seen += 1;
            let first = triangle_collision(*a, *b);
            if first {
                colliding += 1;
            }
            for i in [*a, rotated(*a), rotated(rotated(*a))] {
                for j in [*b, rotated(*b), rotated(rotated(*b))] {
                    assert_eq!(triangle_collision(i, j), first);
                    assert_eq!(triangle_collision(j, i), first);
                }
            }
        }
    }
    assert!(seen > 500);
    assert!(colliding > 50 && colliding < seen);
}

#[test]
fn a_collision_under_one_labelling_is_an_overlap_under_all() {
    let ts = sample_triangles(40);
    for a in &ts {
        for b in &ts {
            let any = |s: [V2; 3], t: [V2; 3]| {
                triangle_collision(s, t)
                    || triangle_collision(rotated(s), t)
                    || triangle_collision(rotated(rotated(s)), t)
            };
            assert_eq!(any(*a, *b), any(rotated(*a), *b));
            assert_eq!(any(*a, *b), any(*a, rotated(*b)));
            assert_eq!(any(*a, *b), any(*b, *a));
        }
    }
}

#[test]
fn point_in_triangle_does_not_depend_on_the_labelling() {
    let ts = sample_triangles(40);
    for t in &ts {
        for x in -12..=12 {
            for y in -12..=12 {
                let first = point_in_triangle(p(x, y), *t);
                assert_eq!(point_in_triangle(p(x, y), rotated(*t)), first);
                assert_eq!(point_in_triangle(p(x, y), rotated(rotated(*t))), first);
                assert_eq!(point_in_triangle(p(x, y), [t[0], t[2], t[1]]), first);
            }
        }
    }
}

#[test]
fn the_closest_point_is_within_half_a_step_of_the_foot() {
    let ts = sample_triangles(60);
    for t in &ts {
        let (q, l0, l1) = (t[0], t[1], t[2]);
        if l0 == l1 {
            continue;
        }
        let r = point_lineseg_closest(q, [l0, l1]);
        let (dx, dy) = ((l1.x - l0.x) as i64, (l1.y - l0.y) as i64);
        let n = (q.x - l0.x) as i64 * dx + (q.y - l0.y) as i64 * dy;
        let d = dx * dx + dy * dy;
        if n <= 0 {
            assert_eq!(r, l0);
        } else if n >= d {
            assert_eq!(r, l1);
        } else {
            assert!((2 * d * (r.x - l0.x) as i64 - 2 * n * dx).abs() <= d);
            assert!((2 * d * (r.y - l0.y) as i64 - 2 * n * dy).abs() <= d);
        }
    }
}

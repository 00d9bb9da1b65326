use half_line::geometry::{
    half_line_segment_intersect, point_on_half_line, point_on_line_segment, Line, Point, Solution,
};
use half_line::number::Double;

fn d(v: f64) -> Double {
    Double::from_bits(v.to_bits())
}

fn pt(x: f64, y: f64) -> Point {
    Point::new(d(x), d(y))
}

fn ln(x1: f64, y1: f64, x2: f64, y2: f64) -> Line {
    Line::new(pt(x1, y1), pt(x2, y2))
}

fn solved(determinant: f64, x: f64, y: f64) -> Solution {
    Solution { determinant: d(determinant), point: pt(x, y) }
}

#[test]
fn a_point_inside_the_box_is_on_the_segment() {
    assert!(point_on_line_segment(ln(0.0, 2.0, 2.0, 0.0), pt(1.0, 1.0)));
    assert!(point_on_line_segment(ln(0.0, 0.0, 4.0, 2.0), pt(2.0, 1.0)));
    assert!(point_on_line_segment(ln(-3.5, -1.0, 3.5, 1.0), pt(-0.0, 0.0)));
}

#[test]
fn the_ends_of_a_segment_are_on_it() {
    let line = ln(-1.5, 4.0, 2.0, -3.0);
    assert!(point_on_line_segment(line, line.p1));
    assert!(point_on_line_segment(line, line.p2));
}

#[test]
fn a_point_outside_the_box_on_one_axis_is_off_the_segment() {
    let line = ln(0.0, 0.0, 2.0, 2.0);
    assert!(!point_on_line_segment(line, pt(3.0, 1.0)));
    assert!(!point_on_line_segment(line, pt(-0.5, 1.0)));
    assert!(!point_on_line_segment(line, pt(1.0, 2.5)));
    assert!(!point_on_line_segment(line, pt(1.0, -1.0)));
}

#[test]
fn the_segment_test_is_a_box_test() {
    // Not on the line through the ends, yet inside their box.
    assert!(point_on_line_segment(ln(0.0, 0.0, 2.0, 2.0), pt(0.5, 1.5)));
}

#[test]
fn axis_parallel_segments_have_flat_boxes() {
    let upright = ln(5.0, 5.0, 5.0, -5.0);
    assert!(point_on_line_segment(upright, pt(5.0, 0.0)));
    assert!(!point_on_line_segment(upright, pt(5.000001, 0.0)));
    let level = ln(-1.0, 3.0, 1.0, 3.0);
    assert!(point_on_line_segment(level, pt(0.25, 3.0)));
    assert!(!point_on_line_segment(level, pt(0.25, 2.999)));
}

#[test]
fn the_segment_test_ignores_the_order_of_the_ends() {
    let coordinates = [-2.0, -0.0, 0.0, 0.5, 1.0, 3.0, f64::INFINITY, f64::NAN];
    let lines = [
        ln(0.0, 0.0, 1.0, 1.0),
        ln(1.0, 0.0, 0.0, 3.0),
        ln(-2.0, 0.5, 3.0, 0.5),
        ln(0.0, f64::NAN, 1.0, 1.0),
        ln(0.0, 0.0, f64::INFINITY, 1.0),
    ];
    for line in lines {
        let swapped = Line::new(line.p2, line.p1);
        for x in coordinates {
            for y in coordinates {
                assert_eq!(
                    point_on_line_segment(line, pt(x, y)),
                    point_on_line_segment(swapped, pt(x, y))
                );
            }
        }
    }
}

#[test]
fn a_nan_coordinate_is_on_no_segment() {
    let line = ln(0.0, 0.0, 2.0, 2.0);
    assert!(!point_on_line_segment(line, pt(f64::NAN, 1.0)));
    assert!(!point_on_line_segment(line, pt(1.0, f64::NAN)));
    assert!(!point_on_line_segment(ln(f64::NAN, 0.0, 2.0, 2.0), pt(1.0, 1.0)));
}

#[test]
fn a_point_ahead_of_the_origin_and_within_reach_is_on_the_half_line() {
    assert!(point_on_half_line(ln(0.0, 0.0, 1.0, 1.0), pt(1.0, 1.0)));
    assert!(point_on_half_line(ln(0.0, 0.0, 1.0, 1.0), pt(0.5, 0.5)));
    assert!(point_on_half_line(ln(2.0, 2.0, -2.0, 0.0), pt(0.0, 1.0)));
}

#[test]
fn a_point_behind_the_origin_is_off_the_half_line() {
    // On the line through the two points, before the origin.
    assert!(!point_on_half_line(ln(0.0, 0.0, 1.0, 1.0), pt(-1.0, -1.0)));
    assert!(!point_on_half_line(ln(0.0, 0.0, 1.0, 0.0), pt(-3.0, 0.0)));
    assert!(!point_on_half_line(ln(0.0, 0.0, 0.0, -2.0), pt(0.0, 0.5)));
    assert!(!point_on_half_line(ln(1.0, 1.0, -1.0, 3.0), pt(2.0, 0.0)));
    // Behind on one axis only.
    assert!(!point_on_half_line(ln(0.0, 0.0, 2.0, 2.0), pt(1.0, -0.5)));
}

#[test]
fn a_point_beyond_the_second_point_is_off_the_half_line() {
    assert!(!point_on_half_line(ln(0.0, 0.0, 1.0, 0.0), pt(5.0, 0.0)));
    assert!(!point_on_half_line(ln(0.0, 0.0, 1.0, 1.0), pt(2.0, 2.0)));
}

#[test]
fn the_origin_is_on_the_half_line_only_along_an_axis_it_does_not_leave() {
    // Both coordinates of the direction differ from the origin's: the origin fails both.
    assert!(!point_on_half_line(ln(0.0, 0.0, 1.0, 1.0), pt(0.0, 0.0)));
    // The direction rises on x only: the origin still fails on x.
    assert!(!point_on_half_line(ln(0.0, 0.0, 1.0, 0.0), pt(0.0, 0.0)));
    // A half-line toward smaller coordinates takes its origin.
    assert!(point_on_half_line(ln(0.0, 0.0, -1.0, -1.0), pt(0.0, 0.0)));
    // Two equal points take the point itself.
    assert!(point_on_half_line(ln(3.0, 4.0, 3.0, 4.0), pt(3.0, 4.0)));
}

#[test]
fn a_zero_determinant_gives_no_intersection() {
    let ray = ln(0.0, 0.0, 1.0, 1.0);
    assert_eq!(half_line_segment_intersect(ray, solved(0.0, 0.5, 0.5)), None);
    assert_eq!(half_line_segment_intersect(ray, solved(-0.0, 0.5, 0.5)), None);
    assert_eq!(half_line_segment_intersect(ray, solved(0.0, f64::NAN, f64::INFINITY)), None);
}

#[test]
fn a_solved_point_on_the_half_line_is_the_intersection() {
    let ray = ln(0.0, 0.0, 1.0, 1.0);
    assert_eq!(half_line_segment_intersect(ray, solved(-4.0, 1.0, 1.0)), Some(pt(1.0, 1.0)));
    assert_eq!(half_line_segment_intersect(ray, solved(5e-324, 0.25, 0.25)), Some(pt(0.25, 0.25)));
}

#[test]
fn a_solved_point_off_the_half_line_is_no_intersection() {
    let ray = ln(0.0, 0.0, 1.0, 1.0);
    assert_eq!(half_line_segment_intersect(ray, solved(2.0, -1.0, -1.0)), None);
    assert_eq!(half_line_segment_intersect(ray, solved(2.0, 3.0, 3.0)), None);
}

#[test]
fn a_nan_determinant_is_not_zero() {
    let ray = ln(0.0, 0.0, 1.0, 1.0);
    assert_eq!(half_line_segment_intersect(ray, solved(f64::NAN, 0.5, 0.5)), Some(pt(0.5, 0.5)));
    assert_eq!(half_line_segment_intersect(ray, solved(f64::NAN, f64::NAN, f64::NAN)), None);
}

#[test]
fn the_intersection_keeps_the_bits_of_the_solved_point() {
    let ray = ln(-1.0, -1.0, 1.0, 1.0);
    let hit = half_line_segment_intersect(ray, solved(1.0, -0.0, 0.0)).unwrap();
    assert_eq!(hit.x.to_bits(), (-0.0f64).to_bits());
    assert_eq!(hit.y.to_bits(), 0.0f64.to_bits());
}

#[test]
fn named_points_and_lines() {
    assert_eq!(Point::origin(), pt(0.0, 0.0));
    assert_eq!(Line::zero(), ln(0.0, 0.0, 0.0, 0.0));
    let line = Line::new(pt(1.0, 2.0), pt(3.0, 4.0));
    assert_eq!(line.p1, pt(1.0, 2.0));
    assert_eq!(line.p2, pt(3.0, 4.0));
    assert_eq!(Point::new(d(1.0), d(2.0)).y, d(2.0));
}

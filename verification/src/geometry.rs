//! Points, lines, and the tests that place a point on a segment or on a
//! half-line.

use crate::number::Double;
use vstd::prelude::*;

verus! {

/// A point of the plane.
#[derive(Clone, Copy, Debug, PartialEq, Eq, Structural)]
pub struct Point {
    pub x: Double,
    pub y: Double,
}

/// Two points. Read as a half-line, `p1` is the origin and `p2` gives the
/// direction; read as a segment, they are its two ends.
#[derive(Clone, Copy, Debug, PartialEq, Eq, Structural)]
pub struct Line {
    pub p1: Point,
    pub p2: Point,
}

/// What solving the two line equations by Cramer's rule gave: the determinant
/// of the coefficients, and the two quotients that are the common point of
/// the lines when the determinant is not zero.
#[derive(Clone, Copy, Debug, PartialEq, Eq, Structural)]
pub struct Solution {
    pub determinant: Double,
    pub point: Point,
}

/// `v` lies between `a` and `b`, ends included, whichever of them is the
/// smaller.
pub open spec fn in_span(a: Double, b: Double, v: Double) -> bool {
    (v.ge(a) && v.le(b)) || (v.ge(b) && v.le(a))
}

/// `v` lies on the side of `origin` on which `toward` lies: both above it,
/// or neither.
pub open spec fn same_side(origin: Double, toward: Double, v: Double) -> bool {
    v.gt(origin) == toward.gt(origin)
}

/// `v` lies strictly on the other side of `origin` than `toward` does.
pub open spec fn behind(origin: Double, toward: Double, v: Double) -> bool {
    (toward.gt(origin) && v.lt(origin)) || (toward.lt(origin) && v.gt(origin))
}

/// The point lies in the box spanned by the two ends of the line. For a
/// point on the line through the two ends, that is to lie on the segment.
pub open spec fn on_segment(line: Line, point: Point) -> bool {
    in_span(line.p1.x, line.p2.x, point.x) && in_span(line.p1.y, line.p2.y, point.y)
}

/// The point lies in the direction of `p2` as seen from `p1`, on both axes,
/// and within the span of the two.
pub open spec fn on_half_line(line: Line, point: Point) -> bool {
    &&& same_side(line.p1.x, line.p2.x, point.x)
    &&& same_side(line.p1.y, line.p2.y, point.y)
    &&& on_segment(line, point)
}

/// Where the half-line meets the other line: nowhere if the determinant is
/// zero, that is if the two are parallel or the same line; else at the
/// solved point, provided that it lies on the half-line.
pub open spec fn intersection(half_line: Line, solution: Solution) -> Option<Point> {
    if solution.determinant.is_zero() {
        None
    } else if on_half_line(half_line, solution.point) {
        Some(solution.point)
    } else {
        None
    }
}

impl Point {
    /// The point with the given coordinates.
    pub fn new(x: Double, y: Double) -> (p: Point)
        ensures
            p == (Point { x, y }),
    {
        Point { x, y }
    }

    /// The point whose coordinates are both positive zero.
    pub open spec fn spec_origin() -> Point {
        Point { x: Double { bits: 0 }, y: Double { bits: 0 } }
    }

    /// The point whose coordinates are both positive zero.
    #[verifier::when_used_as_spec(spec_origin)]
    pub fn origin() -> (p: Point)
        ensures
            p == Point::origin(),
    {
        Point { x: Double::zero(), y: Double::zero() }
    }
}

impl Line {
    /// The line from `p1` to `p2`.
    pub fn new(p1: Point, p2: Point) -> (l: Line)
        ensures
            l == (Line { p1, p2 }),
    {
        Line { p1, p2 }
    }

    /// The zero line, whose two ends are the origin.
    pub open spec fn spec_zero() -> Line {
        Line { p1: Point::origin(), p2: Point::origin() }
    }

    /// The zero line, whose two ends are the origin.
    #[verifier::when_used_as_spec(spec_zero)]
    pub fn zero() -> (l: Line)
        ensures
            l == Line::zero(),
    {
        Line { p1: Point::origin(), p2: Point::origin() }
    }

    /// The same two points in the other order.
    pub open spec fn reversed(self) -> Line {
        Line { p1: self.p2, p2: self.p1 }
    }
}

/// Tests whether the point lies in the box spanned by the line's two ends.
pub fn point_on_line_segment(line: Line, point: Point) -> (r: bool)
    ensures
        r == on_segment(line, point),
{
    let x1 = line.p1.x;
    let y1 = line.p1.y;
    let x2 = line.p2.x;
    let y2 = line.p2.y;
    let x3 = point.x;
    let y3 = point.y;

    let a = x3.ge(x1) && x3.le(x2);
    let b = x3.ge(x2) && x3.le(x1);
    let c = y3.ge(y1) && y3.le(y2);
    let d = y3.ge(y2) && y3.le(y1);

    (a || b) && (c || d)
}

/// Tests whether the point lies on the half-line that starts at `line.p1`
/// and runs toward `line.p2`, no further than `line.p2`.
pub fn point_on_half_line(line: Line, point: Point) -> (r: bool)
    ensures
        r == on_half_line(line, point),
{
    let x1 = line.p1.x;
    let y1 = line.p1.y;
    let x2 = line.p2.x;
    let y2 = line.p2.y;
    let x3 = point.x;
    let y3 = point.y;

    (x3.gt(x1) == x2.gt(x1)) && (y3.gt(y1) == y2.gt(y1)) && point_on_line_segment(line, point)
}

/// Decides where the half-line `l1` meets a second line, from the solution
/// of the two line equations. Whether the point lies on the second line as
/// a segment is not looked at.
pub fn half_line_segment_intersect(l1: Line, solution: Solution) -> (r: Option<Point>)
    ensures
        r == intersection(l1, solution),
{
    if solution.determinant.is_zero() {
        None
    } else if point_on_half_line(l1, solution.point) {
        Some(solution.point)
    } else {
        None
    }
}

/// A zero determinant, of either sign, gives no intersection, wherever the
/// solved point lies.
pub proof fn lemma_parallel_never_intersects(half_line: Line, solution: Solution)
    requires
        solution.determinant.is_zero(),
    ensures
        intersection(half_line, solution) is None,
{
}

/// An intersection is the solved point, and lies on the half-line and so in
/// the span of its two points.
pub proof fn lemma_intersection_on_half_line(half_line: Line, solution: Solution, point: Point)
    requires
        intersection(half_line, solution) == Some(point),
    ensures
        point == solution.point,
        !solution.determinant.is_zero(),
        on_half_line(half_line, point),
        on_segment(half_line, point),
{
}

/// The segment test does not depend on the order of the line's two ends.
pub proof fn lemma_segment_symmetric(line: Line, point: Point)
    ensures
        on_segment(line.reversed(), point) == on_segment(line, point),
{
}

/// A point strictly behind the origin of a half-line, on either axis, is not
/// on the half-line. A point of the line through `p1` and `p2` that lies
/// before `p1` is behind it on each axis along which the line runs.
pub proof fn lemma_behind_origin_not_on_half_line(line: Line, point: Point)
    requires
        behind(line.p1.x, line.p2.x, point.x) || behind(line.p1.y, line.p2.y, point.y),
    ensures
        !on_half_line(line, point),
{
}

/// A point strictly beyond the second point of a half-line, on either axis,
/// is not on the half-line: the half-line ends where the line does.
pub proof fn lemma_beyond_end_not_on_half_line(line: Line, point: Point)
    requires
        behind(line.p2.x, line.p1.x, point.x) || behind(line.p2.y, line.p1.y, point.y),
    ensures
        !on_segment(line, point),
        !on_half_line(line, point),
{
}

/// A solved point with a NaN for a coordinate gives no intersection,
/// whatever the determinant is.
pub proof fn lemma_nan_never_intersects(half_line: Line, solution: Solution)
    requires
        solution.point.x.is_nan() || solution.point.y.is_nan(),
    ensures
        intersection(half_line, solution) is None,
{
}

/// Among numbers, to lie in a span is to lie between the smaller and the
/// larger of its ends.
pub proof fn lemma_span_is_interval(a: Double, b: Double, v: Double)
    requires
        !a.is_nan(),
        !b.is_nan(),
        !v.is_nan(),
    ensures
        in_span(a, b, v) <==> {
            &&& v.rank() >= a.rank() || v.rank() >= b.rank()
            &&& v.rank() <= a.rank() || v.rank() <= b.rank()
        },
{
}

/// A NaN lies in no span, and nothing lies in a span one of whose ends is a
/// NaN.
pub proof fn lemma_nan_in_no_span(a: Double, b: Double, v: Double)
    requires
        a.is_nan() || b.is_nan() || v.is_nan(),
    ensures
        !in_span(a, b, v),
{
}

} // verus!

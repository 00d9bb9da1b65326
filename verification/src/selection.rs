//! From the lines of a scene to the segment that the half-line strikes
//! first.

use crate::error::Error;
use crate::geometry::{half_line_segment_intersect, intersection, on_segment, point_on_line_segment, Line, Point, Solution};
use crate::number::{Double, MAX_BITS};
use vstd::prelude::*;

verus! {

/// How many lines a scene is read from: the half-line and one segment.
pub const SCENE_LINES: usize = 2;

/// A point where the half-line meets a line, with its distance from the
/// half-line's origin.
#[derive(Clone, Copy, Debug, PartialEq, Eq, Structural)]
pub struct Hit {
    pub point: Point,
    pub distance: Double,
}

/// A distance takes part in the choice when it is below the largest finite
/// double. A NaN and an infinite distance do not.
pub open spec fn eligible(distance: Double) -> bool {
    distance.lt(Double { bits: MAX_BITS })
}

/// `hits[i]` is the closest hit: it is eligible, none is strictly closer,
/// and none before it is as close.
pub open spec fn is_closest(hits: Seq<Hit>, i: int) -> bool {
    &&& 0 <= i < hits.len()
    &&& eligible(hits[i].distance)
    &&& forall|j: int| 0 <= j < hits.len() ==> !(#[trigger] hits[j]).distance.lt(hits[i].distance)
    &&& forall|j: int| 0 <= j < i ==> !(#[trigger] hits[j]).distance.le(hits[i].distance)
}

/// No hit takes part in the choice.
pub open spec fn none_eligible(hits: Seq<Hit>) -> bool {
    forall|j: int| 0 <= j < hits.len() ==> !eligible((#[trigger] hits[j]).distance)
}

/// The point of the closest hit. Without hits there is none; with hits of
/// which none is eligible it is the origin.
pub open spec fn closest_of(hits: Seq<Hit>) -> Option<Point> {
    if hits.len() == 0 {
        None
    } else if exists|i: int| is_closest(hits, i) {
        Some(hits[choose|i: int| is_closest(hits, i)].point)
    } else {
        Some(Point::origin())
    }
}

/// `lines[i]` is the first line whose span holds the point.
pub open spec fn is_first_holding(lines: Seq<Line>, point: Point, i: int) -> bool {
    &&& 0 <= i < lines.len()
    &&& on_segment(lines[i], point)
    &&& forall|j: int| 0 <= j < i ==> !on_segment(#[trigger] lines[j], point)
}

/// The first line whose span holds the point, or the zero line if none
/// does.
pub open spec fn line_holding(lines: Seq<Line>, point: Point) -> Line {
    if exists|i: int| is_first_holding(lines, point, i) {
        lines[choose|i: int| is_first_holding(lines, point, i)]
    } else {
        Line::zero()
    }
}

/// The segment that is reported for a scene: none without hits, else the
/// first segment whose span holds the closest hit.
pub open spec fn struck(segments: Seq<Line>, hits: Seq<Hit>) -> Option<Line> {
    match closest_of(hits) {
        None => None,
        Some(point) => Some(line_holding(segments, point)),
    }
}

/// There is at most one closest hit.
pub proof fn lemma_closest_unique(hits: Seq<Hit>, i: int, j: int)
    requires
        is_closest(hits, i),
        is_closest(hits, j),
    ensures
        i == j,
{
    if i < j {
        assert(!hits[i].distance.le(hits[j].distance));
        assert(!hits[j].distance.lt(hits[i].distance));
    } else if j < i {
        assert(!hits[j].distance.le(hits[i].distance));
        assert(!hits[i].distance.lt(hits[j].distance));
    }
}

/// There is a closest hit as soon as one hit is eligible.
pub proof fn lemma_closest_exists(hits: Seq<Hit>)
    requires
        !none_eligible(hits),
    ensures
        exists|i: int| is_closest(hits, i),
    decreases hits.len(),
{
    let last = hits.len() - 1;
    let front = hits.drop_last();
    assert(forall|j: int| 0 <= j < front.len() ==> front[j] == hits[j]);
    if none_eligible(front) {
        assert(eligible(hits[last].distance));
        assert(is_closest(hits, last));
    } else {
        lemma_closest_exists(front);
        let k = choose|k: int| is_closest(front, k);
        if hits[last].distance.lt(hits[k].distance) {
            assert(is_closest(hits, last));
        } else {
            assert(is_closest(hits, k));
        }
    }
}

/// The closest hit's point is the closest point.
pub proof fn lemma_closest_of(hits: Seq<Hit>, i: int)
    requires
        is_closest(hits, i),
    ensures
        closest_of(hits) == Some(hits[i].point),
{
    lemma_closest_unique(hits, i, choose|k: int| is_closest(hits, k));
}

/// There is at most one first line that holds the point.
pub proof fn lemma_first_holding_unique(lines: Seq<Line>, point: Point, i: int, j: int)
    requires
        is_first_holding(lines, point, i),
        is_first_holding(lines, point, j),
    ensures
        i == j,
{
}

/// There is a first line that holds the point as soon as one line holds it.
pub proof fn lemma_first_holding_exists(lines: Seq<Line>, point: Point, i: int)
    requires
        0 <= i < lines.len(),
        on_segment(lines[i], point),
    ensures
        exists|k: int| is_first_holding(lines, point, k),
    decreases i,
{
    if exists|j: int| 0 <= j < i && on_segment(lines[j], point) {
        let j = choose|j: int| 0 <= j < i && on_segment(lines[j], point);
        lemma_first_holding_exists(lines, point, j);
    } else {
        assert(is_first_holding(lines, point, i));
    }
}

/// The first line that holds the point is the one reported.
pub proof fn lemma_line_holding(lines: Seq<Line>, point: Point, i: int)
    requires
        is_first_holding(lines, point, i),
    ensures
        line_holding(lines, point) == lines[i],
{
    lemma_first_holding_unique(lines, point, i, choose|k: int| is_first_holding(lines, point, k));
}

/// Tells whether a scene that has `collected` lines still wants one.
pub fn wants_line(collected: usize) -> (r: bool)
    ensures
        r == (collected < SCENE_LINES),
{
    collected < SCENE_LINES
}

/// Parts the lines of a scene: the first is the half-line, the others are
/// the segments, in their order. A scene without lines is refused.
pub fn split_scene(lines: Vec<Line>) -> (r: Result<(Line, Vec<Line>), Error>)
    ensures
        lines@.len() == 0 ==> r == Err::<(Line, Vec<Line>), Error>(Error::NoHalfLine),
        lines@.len() > 0 ==> r is Ok && r->Ok_0.0 == lines@[0] && r->Ok_0.1@ == lines@.drop_first(),
{
    let mut lines = lines;
    if lines.len() == 0 {
        Err(Error::NoHalfLine)
    } else {
        let half_line = lines.remove(0);
        Ok((half_line, lines))
    }
}

/// Collects the points where the half-line meets the lines that were solved
/// for, in the order of the solutions.
pub fn intersections(half_line: Line, solutions: &Vec<Solution>) -> (points: Vec<Point>)
    ensures
        points@ == solutions@.filter_map(|s: Solution| intersection(half_line, s)),
{
    let ghost meet = |s: Solution| intersection(half_line, s);
    let mut points: Vec<Point> = Vec::new();
    let mut i: usize = 0;
    while i < solutions.len()
        invariant
            i <= solutions@.len(),
            meet == (|s: Solution| intersection(half_line, s)),
            points@ == solutions@.take(i as int).filter_map(meet),
        decreases solutions@.len() - i,
    {
        proof {
            solutions@.lemma_filter_map_take_succ(meet, i as int);
        }
        match half_line_segment_intersect(half_line, solutions[i]) {
            Some(point) => {
                points.push(point);
            },
            None => {},
        }
        i = i + 1;
    }
    assert(solutions@.take(i as int) == solutions@);
    points
}

/// Finds the closest hit: the first of those with the smallest eligible
/// distance.
pub fn closest_hit(hits: &Vec<Hit>) -> (r: Option<usize>)
    ensures
        match r {
            Some(i) => is_closest(hits@, i as int),
            None => none_eligible(hits@),
        },
{
    let mut smallest = Double::max();
    let mut best: Option<usize> = None;
    let mut i: usize = 0;
    while i < hits.len()
        invariant
            i <= hits@.len(),
            match best {
                Some(k) => k < i && smallest == hits@[k as int].distance && is_closest(
                    hits@.take(i as int),
                    k as int,
                ),
                None => smallest.bits == MAX_BITS && none_eligible(hits@.take(i as int)),
            },
        decreases hits@.len() - i,
    {
        let ghost before = hits@.take(i as int);
        let ghost after = hits@.take(i + 1);
        assert(forall|j: int| 0 <= j < i ==> before[j] == after[j]);
        if hits[i].distance.lt(smallest) {
            smallest = hits[i].distance;
            best = Some(i);
        }
        i = i + 1;
    }
    assert(hits@.take(i as int) == hits@);
    best
}

/// Picks the point of the closest hit. With hits of which none is eligible,
/// the origin is picked.
pub fn closest_point(hits: &Vec<Hit>) -> (r: Option<Point>)
    ensures
        r == closest_of(hits@),
{
    if hits.len() == 0 {
        None
    } else {
        match closest_hit(hits) {
            Some(i) => {
                proof {
                    lemma_closest_of(hits@, i as int);
                }
                Some(hits[i].point)
            },
            None => Some(Point::origin()),
        }
    }
}

/// Finds the first line whose span holds the point.
pub fn first_holding(lines: &Vec<Line>, point: Point) -> (r: Option<usize>)
    ensures
        match r {
            Some(i) => is_first_holding(lines@, point, i as int),
            None => forall|j: int| 0 <= j < lines@.len() ==> !on_segment(#[trigger] lines@[j], point),
        },
{
    let mut i: usize = 0;
    while i < lines.len()
        invariant
            i <= lines@.len(),
            forall|j: int| 0 <= j < i ==> !on_segment(#[trigger] lines@[j], point),
        decreases lines@.len() - i,
    {
        if point_on_line_segment(lines[i], point) {
            return Some(i);
        }
        i = i + 1;
    }
    None
}

/// Picks the first line whose span holds the point, or the zero line if
/// none does.
pub fn closest_line(lines: &Vec<Line>, point: Point) -> (r: Line)
    ensures
        r == line_holding(lines@, point),
{
    match first_holding(lines, point) {
        Some(i) => {
            proof {
                lemma_line_holding(lines@, point, i as int);
            }
            lines[i]
        },
        None => Line::zero(),
    }
}

/// Picks the segment to report for a scene: none without hits, else the
/// first segment whose span holds the closest point.
pub fn struck_segment(segments: &Vec<Line>, hits: &Vec<Hit>) -> (r: Option<Line>)
    ensures
        r == struck(segments@, hits@),
{
    match closest_point(hits) {
        None => None,
        Some(point) => Some(closest_line(segments, point)),
    }
}

} // verus!

use vstd::prelude::*;

use crate::iteration::{cursor_step, widen};
use crate::{edge_error_of, EdgeError, Error};

verus! {

/// The kind of curve underlying an edge.
#[derive(Debug, Copy, Clone, PartialEq, Eq, Structural)]
pub enum EdgeType {
    Line,
    Circle,
    Ellipse,
    Hyperbola,
    Parabola,
    BezierCurve,
    BSplineCurve,
    OffsetCurve,
    OtherCurve,
}

/// The edge type that a `GeomAbs_CurveType` code stands for, in the order
/// of the OCCT enumeration (`0` is `GeomAbs_Line`, `8` `GeomAbs_OtherCurve`).
pub open spec fn edge_type_of(code: i32) -> EdgeType {
    if code == 0 {
        EdgeType::Line
    } else if code == 1 {
        EdgeType::Circle
    } else if code == 2 {
        EdgeType::Ellipse
    } else if code == 3 {
        EdgeType::Hyperbola
    } else if code == 4 {
        EdgeType::Parabola
    } else if code == 5 {
        EdgeType::BezierCurve
    } else if code == 6 {
        EdgeType::BSplineCurve
    } else if code == 7 {
        EdgeType::OffsetCurve
    } else {
        EdgeType::OtherCurve
    }
}

impl EdgeType {
    /// Converts a curve type code; there is no edge type for a code outside
    /// the enumeration.
    pub fn from(code: i32) -> (t: EdgeType)
        requires
            0 <= code <= 8,
        ensures
            t == edge_type_of(code),
    {
        match code {
            0 => EdgeType::Line,
            1 => EdgeType::Circle,
            2 => EdgeType::Ellipse,
            3 => EdgeType::Hyperbola,
            4 => EdgeType::Parabola,
            5 => EdgeType::BezierCurve,
            6 => EdgeType::BSplineCurve,
            7 => EdgeType::OffsetCurve,
            _ => EdgeType::OtherCurve,
        }
    }
}

/// The outcome of an edge builder: nothing to report when it is done, else
/// the error that its status code names.
pub fn edge_outcome(is_done: bool, status: i32) -> (r: Result<(), Error>)
    ensures
        is_done ==> r is Ok,
        !is_done ==> (r matches Err(Error::EdgeFailed(e)) && e == edge_error_of(status)),
{
    if is_done {
        Ok(())
    } else {
        Err(Error::EdgeFailed(EdgeError::from(status)))
    }
}

/// The position of the first pair of consecutive points that coincide.
pub open spec fn first_coincident(coincident_next: Seq<bool>) -> Option<int>
    decreases coincident_next.len(),
{
    if coincident_next.len() == 0 {
        None
    } else {
        match first_coincident(coincident_next.drop_last()) {
            Some(i) => Some(i),
            None => if coincident_next.last() {
                Some(coincident_next.len() - 1)
            } else {
                None
            },
        }
    }
}

proof fn lemma_first_coincident(c: Seq<bool>)
    ensures
        first_coincident(c) matches Some(i) ==> 0 <= i < c.len() && c[i] && forall|j: int|
            0 <= j < i ==> !c[j],
        first_coincident(c) is None ==> forall|j: int| 0 <= j < c.len() ==> !c[j],
    decreases c.len(),
{
    if c.len() > 0 {
        lemma_first_coincident(c.drop_last());
        assert forall|j: int| 0 <= j < c.len() - 1 implies c.drop_last()[j] == c[j] by {}
    }
}

/// Whether points can be interpolated by a spline: at least 2 points, no
/// two consecutive ones identical and, for a periodic spline, the last not
/// identical to the first (which would close it twice).
///
/// `coincident_next[i]` tells whether points `i` and `i + 1` are identical
/// (within the interpolation tolerance), and `closing_coincident` whether
/// the last point is identical to the first.
pub fn check_spline_points(
    point_count: usize,
    coincident_next: &Vec<bool>,
    periodic: bool,
    closing_coincident: bool,
) -> (r: Result<(), Error>)
    requires
        point_count >= 2 ==> coincident_next@.len() == point_count - 1,
    ensures
        point_count < 2 ==> r matches Err(Error::NotEnoughPoints),
        point_count >= 2 ==> match first_coincident(coincident_next@) {
            Some(i) => (r matches Err(Error::IdenticalSplinePoints(a, b)) && a == i && b == i + 1),
            None => if periodic && closing_coincident {
                (r matches Err(Error::IdenticalSplinePoints(a, b)) && a == point_count - 1 && b == 0)
            } else {
                r is Ok
            },
        },
        point_count >= 2 ==> (r is Ok <==> (forall|j: int|
            0 <= j < coincident_next@.len() ==> !#[trigger] coincident_next@[j]) && !(periodic
            && closing_coincident)),
        r matches Err(Error::IdenticalSplinePoints(a, b)) ==> (b == a + 1 && a < coincident_next@.len()
            && coincident_next@[a as int] && forall|j: int|
            0 <= j < a ==> !#[trigger] coincident_next@[j]) || (a == point_count - 1 && b == 0
            && periodic && closing_coincident && forall|j: int|
            0 <= j < coincident_next@.len() ==> !#[trigger] coincident_next@[j]),
{
    if point_count < 2 {
        return Err(Error::NotEnoughPoints);
    }
    let n = coincident_next.len();
    let mut i: usize = 0;
    while i < n
        invariant
            n == coincident_next@.len(),
            n == point_count - 1,
            i <= n,
            forall|j: int| 0 <= j < i ==> !coincident_next@[j],
        decreases n - i,
    {
        if coincident_next[i] {
            proof {
                lemma_first_coincident(coincident_next@);
            }
            return Err(Error::IdenticalSplinePoints(i, i + 1));
        }
        i = i + 1;
    }
    proof {
        lemma_first_coincident(coincident_next@);
    }
    if periodic && closing_coincident {
        return Err(Error::IdenticalSplinePoints(point_count - 1, 0));
    }
    Ok(())
}

/// Walks the points of an edge's tangential-deflection approximation,
/// which are numbered from 1.
pub struct ApproximationSegmentIterator {
    count: usize,
}

impl ApproximationSegmentIterator {
    /// The number of the next point to yield.
    pub closed spec fn position(&self) -> int {
        self.count as int
    }

    /// The cursor stays within what an `i32` point count can reach.
    pub closed spec fn well_formed(&self) -> bool {
        1 <= self.count <= 0x8000_0000
    }

    /// A walk that starts at the first point.
    pub fn new() -> (it: Self)
        ensures
            it.well_formed(),
            it.position() == 1,
    {
        ApproximationSegmentIterator { count: 1 }
    }

    /// The number of the next point among `point_count` points, if any is
    /// left; the walk then moves past it.
    pub fn next_index(&mut self, point_count: i32) -> (r: Option<i32>)
        requires
            old(self).well_formed(),
            point_count >= 0,
        ensures
            final(self).well_formed(),
            (final(self).position(), widen(r)) == cursor_step(old(self).position(), point_count as int),
    {
        if self.count <= point_count as usize {
            let p = self.count as i32;
            self.count = self.count + 1;
            Some(p)
        } else {
            None
        }
    }
}

} // verus!

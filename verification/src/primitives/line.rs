use vstd::prelude::*;

use crate::errors::GeometryError;
use crate::point::Point;

verus! {

/// A line segment from `self.0[0]` to `self.0[1]`.
#[derive(Debug, Clone, Copy, PartialEq)]
pub struct Line<P: Point>(pub [P; 2]);

/// Two segments are equal exactly when their end points are.
pub proof fn lemma_line_eq<P: Point>(a: Line<P>, b: Line<P>)
    ensures
        (a == b) == (a.0[0] == b.0[0] && a.0[1] == b.0[1]),
{
    broadcast use vstd::array::group_array_axioms;

    if a.0[0] == b.0[0] && a.0[1] == b.0[1] {
        assert(a.0@ =~= b.0@);
        assert(a.0 == b.0);
    }
}

impl<P: Point> Line<P> {
    /// Creates the segment from `a` to `b`; a segment of zero length is refused.
    pub fn new(a: P, b: P) -> (r: Result<Self, GeometryError>)
        ensures
            a == b ==> r == Err::<Self, GeometryError>(GeometryError::InvalidGeometry),
            a != b ==> (r matches Ok(l) && l.0[0] == a && l.0[1] == b),
    {
        if a.same(&b) {
            return Err(GeometryError::InvalidGeometry);
        }
        Ok(Line([a, b]))
    }

    /// The start point.
    pub fn src(&self) -> (r: P)
        ensures
            r == self.0[0],
    {
        self.0[0]
    }

    /// The end point.
    pub fn dst(&self) -> (r: P)
        ensures
            r == self.0[1],
    {
        self.0[1]
    }

    /// Exact equality of both end points.
    pub fn same(&self, other: &Self) -> (r: bool)
        ensures
            r == (*self == *other),
            r == (self.0[0] == other.0[0] && self.0[1] == other.0[1]),
    {
        proof {
            lemma_line_eq(*self, *other);
        }
        self.0[0].same(&other.0[0]) && self.0[1].same(&other.0[1])
    }

    /// The same segment with its end points swapped.
    pub fn swap_coords(&self) -> (r: Self)
        ensures
            r.0[0] == self.0[1],
            r.0[1] == self.0[0],
    {
        Line([self.0[1], self.0[0]])
    }
}

} // verus!

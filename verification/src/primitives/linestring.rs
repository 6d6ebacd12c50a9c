use vstd::prelude::*;

use super::line::Line;
use super::ring::Ring;
use crate::point::Point;
use crate::seqs::{copy_points, dedup_points, dedup_seq, ring_points};

verus! {

/// The segments between consecutive points; there is no segment from the last point back to
/// the first one.
pub open spec fn linestring_lines<P: Point>(s: Seq<P>) -> Seq<Line<P>> {
    Seq::new(
        if s.len() == 0 {
            0nat
        } else {
            (s.len() - 1) as nat
        },
        |i: int| Line([s[i], s[i + 1]]),
    )
}

/// The set of points on the segments between each consecutive pair of points.
#[derive(Debug, PartialEq)]
pub struct LineString<P: Point>(pub Vec<P>);

impl<P: Point> View for LineString<P> {
    type V = Seq<P>;

    open spec fn view(&self) -> Seq<P> {
        self.0@
    }
}

impl<P: Point> Clone for LineString<P> {
    fn clone(&self) -> (r: Self)
        ensures
            r@ == self@,
    {
        LineString(copy_points(self.0.as_slice()))
    }
}

impl<P: Point> LineString<P> {
    /// The line string without points.
    pub fn empty() -> (r: Self)
        ensures
            r@ == Seq::<P>::empty(),
    {
        LineString(Vec::new())
    }

    /// Creates a line string; consecutive repetitions of a point are collapsed into one.
    pub fn new(points: Vec<P>) -> (r: Self)
        ensures
            r@ == dedup_seq(points@),
    {
        LineString(dedup_points(points.as_slice()))
    }

    /// Whether first and last point coincide (an empty line string counts as closed).
    pub fn closed(&self) -> (r: bool)
        ensures
            r == (self@.len() == 0 || self@.last() == self@[0]),
    {
        let n = self.0.len();
        if n == 0 {
            true
        } else {
            self.0[n - 1].same(&self.0[0])
        }
    }

    /// The ring enclosed by a closed line string; `None` for an open one.
    pub fn to_ring(&self) -> (r: Option<Ring<P>>)
        ensures
            r.is_some() == (self@.len() == 0 || self@.last() == self@[0]),
            r matches Some(ring) ==> ring@ == ring_points(self@),
    {
        if self.closed() {
            Some(Ring::new(copy_points(self.0.as_slice())))
        } else {
            None
        }
    }

    /// The ring enclosed by a closed line string; `None` for an open one (the same as
    /// `to_ring`).
    pub fn inside(&self) -> (r: Option<Ring<P>>)
        ensures
            r.is_some() == (self@.len() == 0 || self@.last() == self@[0]),
            r matches Some(ring) ==> ring@ == ring_points(self@),
    {
        self.to_ring()
    }

    /// The points of the line string in order.
    pub fn points(&self) -> (r: Vec<P>)
        ensures
            r@ == self@,
    {
        copy_points(self.0.as_slice())
    }

    /// The ring through the points of this line string; the closing segment is implied.
    pub fn close(self) -> (r: Ring<P>)
        ensures
            r@ == ring_points(self@),
    {
        Ring::new(self.0)
    }

    /// The segments between consecutive points.
    pub fn lines(&self) -> (r: Vec<Line<P>>)
        ensures
            r@ == linestring_lines(self@),
    {
        let mut r: Vec<Line<P>> = Vec::new();
        let n = self.0.len();
        if n == 0 {
            assert(r@ =~= linestring_lines(self@));
            return r;
        }
        let mut i: usize = 0;
        while i + 1 < n
            invariant
                n == self@.len(),
                n > 0,
                i + 1 <= n,
                r@ == linestring_lines(self@).take(i as int),
            decreases n - i,
        {
            r.push(Line([self.0[i], self.0[i + 1]]));
            i = i + 1;
            assert(r@ =~= linestring_lines(self@).take(i as int));
        }
        assert(linestring_lines(self@).take(i as int) =~= linestring_lines(self@));
        r
    }
}

/// A collection of line strings.
#[derive(Debug, PartialEq)]
pub struct MultiLineString<P: Point>(pub Vec<LineString<P>>);

impl<P: Point> View for MultiLineString<P> {
    type V = Seq<Seq<P>>;

    open spec fn view(&self) -> Seq<Seq<P>> {
        self.0@.map_values(|l: LineString<P>| l@)
    }
}

impl<P: Point> MultiLineString<P> {
    /// The collection without line strings.
    pub fn empty() -> (r: Self)
        ensures
            r@ == Seq::<Seq<P>>::empty(),
    {
        let r = MultiLineString(Vec::new());
        assert(r@ =~= Seq::<Seq<P>>::empty());
        r
    }
}

impl<P: Point> Default for LineString<P> {
    /// The line string without points.
    fn default() -> (r: Self)
        ensures
            r@ == Seq::<P>::empty(),
    {
        LineString::empty()
    }
}

impl<P: Point> Default for MultiLineString<P> {
    /// The collection without line strings.
    fn default() -> (r: Self)
        ensures
            r@ == Seq::<Seq<P>>::empty(),
    {
        MultiLineString::empty()
    }
}

} // verus!

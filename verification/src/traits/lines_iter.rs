use vstd::prelude::*;

use crate::point::Point;
use crate::primitives::{
    linestring_lines, polygon_lines, ring_lines, Line, LineString, MultiLineString, MultiPolygon,
    MultiRing, Polygon, Ring,
};

verus! {

/// The segments of all the given line strings, one after the other.
pub open spec fn linestrings_lines<P: Point>(ls: Seq<Seq<P>>) -> Seq<Line<P>>
    decreases ls.len(),
{
    if ls.len() == 0 {
        Seq::empty()
    } else {
        linestrings_lines(ls.drop_last()) + linestring_lines(ls.last())
    }
}

/// The segments of all the given polygons, one after the other.
pub open spec fn polygons_lines<P: Point>(ps: Seq<(Seq<P>, Seq<Seq<P>>)>) -> Seq<Line<P>>
    decreases ps.len(),
{
    if ps.len() == 0 {
        Seq::empty()
    } else {
        polygons_lines(ps.drop_last()) + polygon_lines(ps.last().0, ps.last().1)
    }
}

/// Lists all the segments of a primitive.
pub trait LinesIter {
    type P: Point;

    /// The segments, in order.
    spec fn lines_view(&self) -> Seq<Line<Self::P>>;

    fn iter_lines(&self) -> (r: Vec<Line<Self::P>>)
        ensures
            r@ == self.lines_view(),
    ;
}

impl<P: Point> LinesIter for Line<P> {
    type P = P;

    open spec fn lines_view(&self) -> Seq<Line<P>> {
        seq![*self]
    }

    fn iter_lines(&self) -> (r: Vec<Line<P>>)
        ensures
            r@ == seq![*self],
    {
        let mut r: Vec<Line<P>> = Vec::new();
        r.push(Line(self.0));
        assert(r@ =~= seq![*self]);
        r
    }
}

impl<P: Point> LinesIter for LineString<P> {
    type P = P;

    open spec fn lines_view(&self) -> Seq<Line<P>> {
        linestring_lines(self@)
    }

    fn iter_lines(&self) -> (r: Vec<Line<P>>)
        ensures
            r@ == linestring_lines(self@),
    {
        self.lines()
    }
}

impl<P: Point> LinesIter for MultiLineString<P> {
    type P = P;

    open spec fn lines_view(&self) -> Seq<Line<P>> {
        linestrings_lines(self@)
    }

    fn iter_lines(&self) -> (r: Vec<Line<P>>)
        ensures
            r@ == linestrings_lines(self@),
    {
        let mut r: Vec<Line<P>> = Vec::new();
        let n = self.0.len();
        let mut i: usize = 0;
        while i < n
            invariant
                n == self.0@.len(),
                i <= n,
                r@ == linestrings_lines(self@.take(i as int)),
            decreases n - i,
        {
            let mut more = self.0[i].lines();
            r.append(&mut more);
            proof {
                let t = self@.take(i + 1);
                assert(t.drop_last() =~= self@.take(i as int));
            }
            i = i + 1;
        }
        assert(self@.take(n as int) =~= self@);
        r
    }
}

impl<P: Point> LinesIter for Ring<P> {
    type P = P;

    open spec fn lines_view(&self) -> Seq<Line<P>> {
        ring_lines(self@)
    }

    fn iter_lines(&self) -> (r: Vec<Line<P>>)
        ensures
            r@ == ring_lines(self@),
    {
        self.lines()
    }
}

impl<P: Point> LinesIter for MultiRing<P> {
    type P = P;

    open spec fn lines_view(&self) -> Seq<Line<P>> {
        crate::primitives::rings_lines(self@)
    }

    fn iter_lines(&self) -> (r: Vec<Line<P>>)
        ensures
            r@ == crate::primitives::rings_lines(self@),
    {
        let mut r: Vec<Line<P>> = Vec::new();
        let n = self.0.len();
        let mut i: usize = 0;
        while i < n
            invariant
                n == self.0@.len(),
                i <= n,
                r@ == crate::primitives::rings_lines(self@.take(i as int)),
            decreases n - i,
        {
            let mut more = self.0[i].lines();
            r.append(&mut more);
            proof {
                let t = self@.take(i + 1);
                assert(t.drop_last() =~= self@.take(i as int));
            }
            i = i + 1;
        }
        assert(self@.take(n as int) =~= self@);
        r
    }
}

impl<P: Point> LinesIter for Polygon<P> {
    type P = P;

    open spec fn lines_view(&self) -> Seq<Line<P>> {
        polygon_lines(self.0@, self.1@)
    }

    fn iter_lines(&self) -> (r: Vec<Line<P>>)
        ensures
            r@ == polygon_lines(self.0@, self.1@),
    {
        self.lines()
    }
}

impl<P: Point> LinesIter for MultiPolygon<P> {
    type P = P;

    open spec fn lines_view(&self) -> Seq<Line<P>> {
        polygons_lines(self@)
    }

    fn iter_lines(&self) -> (r: Vec<Line<P>>)
        ensures
            r@ == polygons_lines(self@),
    {
        let mut r: Vec<Line<P>> = Vec::new();
        let n = self.0.len();
        let mut i: usize = 0;
        while i < n
            invariant
                n == self.0@.len(),
                i <= n,
                r@ == polygons_lines(self@.take(i as int)),
            decreases n - i,
        {
            let mut more = self.0[i].lines();
            r.append(&mut more);
            proof {
                let t = self@.take(i + 1);
                assert(t.drop_last() =~= self@.take(i as int));
            }
            i = i + 1;
        }
        assert(self@.take(n as int) =~= self@);
        r
    }
}

} // verus!

use vstd::prelude::*;

use crate::point::Point;
use crate::primitives::{
    LineString, MultiLineString, MultiPolygon, MultiRing, Polygon, Ring, Triangle,
};
use crate::seqs::copy_points;

verus! {

/// All points of a polygon: the exterior ring first, then the holes in order.
pub open spec fn polygon_points<P>(p: (Seq<P>, Seq<Seq<P>>)) -> Seq<P> {
    p.0 + p.1.flatten_alt()
}

/// Lists all the points of a primitive.
pub trait IterPoints {
    type P: Point;

    fn iter_points(&self) -> Vec<Self::P>;
}

impl<P: Point> IterPoints for Triangle<P> {
    type P = P;

    fn iter_points(&self) -> (r: Vec<P>)
        ensures
            r@ == self@,
    {
        let mut r: Vec<P> = Vec::new();
        r.push(self.0[0]);
        r.push(self.0[1]);
        r.push(self.0[2]);
        assert(r@ =~= self@);
        r
    }
}

impl<P: Point> IterPoints for LineString<P> {
    type P = P;

    fn iter_points(&self) -> (r: Vec<P>)
        ensures
            r@ == self@,
    {
        copy_points(self.0.as_slice())
    }
}

impl<P: Point> IterPoints for MultiLineString<P> {
    type P = P;

    fn iter_points(&self) -> (r: Vec<P>)
        ensures
            r@ == self@.flatten_alt(),
    {
        let mut r: Vec<P> = Vec::new();
        let n = self.0.len();
        let mut i: usize = 0;
        while i < n
            invariant
                n == self.0@.len(),
                i <= n,
                r@ == self@.take(i as int).flatten_alt(),
            decreases n - i,
        {
            let mut more = self.0[i].iter_points();
            r.append(&mut more);
            proof {
                let t = self@.take(i + 1);
                assert(t.drop_last() =~= self@.take(i as int));
            }
            i = i + 1;
        }
        assert(self@.take(n as int) =~= self@);
        r
    }
}

impl<P: Point> IterPoints for Ring<P> {
    type P = P;

    fn iter_points(&self) -> (r: Vec<P>)
        ensures
            r@ == self@,
    {
        copy_points(self.points_open())
    }
}

impl<P: Point> IterPoints for MultiRing<P> {
    type P = P;

    fn iter_points(&self) -> (r: Vec<P>)
        ensures
            r@ == self@.flatten_alt(),
    {
        let mut r: Vec<P> = Vec::new();
        let n = self.0.len();
        let mut i: usize = 0;
        while i < n
            invariant
                n == self.0@.len(),
                i <= n,
                r@ == self@.take(i as int).flatten_alt(),
            decreases n - i,
        {
            let mut more = self.0[i].iter_points();
            r.append(&mut more);
            proof {
                let t = self@.take(i + 1);
                assert(t.drop_last() =~= self@.take(i as int));
            }
            i = i + 1;
        }
        assert(self@.take(n as int) =~= self@);
        r
    }
}

impl<P: Point> IterPoints for Polygon<P> {
    type P = P;

    fn iter_points(&self) -> (r: Vec<P>)
        ensures
            r@ == polygon_points(self@),
    {
        let mut r = self.0.iter_points();
        let mut more = self.1.iter_points();
        r.append(&mut more);
        r
    }
}

impl<P: Point> IterPoints for MultiPolygon<P> {
    type P = P;

    fn iter_points(&self) -> (r: Vec<P>)
        ensures
            r@ == self@.map_values(|p: (Seq<P>, Seq<Seq<P>>)| polygon_points(p)).flatten_alt(),
    {
        let mut r: Vec<P> = Vec::new();
        let n = self.0.len();
        let mut i: usize = 0;
        let ghost f = |p: (Seq<P>, Seq<Seq<P>>)| polygon_points(p);
        while i < n
            invariant
                n == self.0@.len(),
                i <= n,
                f == (|p: (Seq<P>, Seq<Seq<P>>)| polygon_points(p)),
                r@ == self@.take(i as int).map_values(f).flatten_alt(),
            decreases n - i,
        {
            let mut more = self.0[i].iter_points();
            r.append(&mut more);
            proof {
                let t = self@.take(i + 1).map_values(f);
                assert(t.drop_last() =~= self@.take(i as int).map_values(f));
            }
            i = i + 1;
        }
        assert(self@.take(n as int) =~= self@);
        r
    }
}

} // verus!

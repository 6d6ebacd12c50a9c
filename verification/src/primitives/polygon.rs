use vstd::prelude::*;

use super::line::Line;
use super::ring::{ring_lines, MultiRing, Ring};
use crate::point::Point;

verus! {

/// The segments of all the given rings, ring after ring.
pub open spec fn rings_lines<P: Point>(rings: Seq<Seq<P>>) -> Seq<Line<P>>
    decreases rings.len(),
{
    if rings.len() == 0 {
        Seq::empty()
    } else {
        rings_lines(rings.drop_last()) + ring_lines(rings.last())
    }
}

/// The segments of a polygon: those of the exterior first, then those of every interior ring
/// in order.
pub open spec fn polygon_lines<P: Point>(exterior: Seq<P>, interior: Seq<Seq<P>>) -> Seq<Line<P>> {
    ring_lines(exterior) + rings_lines(interior)
}

/// The area inside the exterior ring without the areas inside the interior rings (holes).
#[derive(Debug, PartialEq)]
pub struct Polygon<P: Point>(pub Ring<P>, pub MultiRing<P>);

impl<P: Point> View for Polygon<P> {
    type V = (Seq<P>, Seq<Seq<P>>);

    open spec fn view(&self) -> (Seq<P>, Seq<Seq<P>>) {
        (self.0@, self.1@)
    }
}

impl<P: Point> Clone for Polygon<P> {
    fn clone(&self) -> (r: Self)
        ensures
            r@ == self@,
    {
        Polygon(self.0.clone(), self.1.clone())
    }
}

impl<P: Point> Polygon<P> {
    /// Creates a polygon from its exterior and its holes.
    pub fn new(exterior: Ring<P>, interior: MultiRing<P>) -> (r: Self)
        ensures
            r.0@ == exterior@,
            r.1@ == interior@,
    {
        Polygon(exterior, interior)
    }

    /// The exterior ring.
    pub fn exterior(&self) -> (r: &Ring<P>)
        ensures
            r@ == self.0@,
    {
        &self.0
    }

    /// The interior rings (holes).
    pub fn interior(&self) -> (r: &MultiRing<P>)
        ensures
            r@ == self.1@,
    {
        &self.1
    }

    /// All segments: those of the exterior first, then those of the holes in order.
    pub fn lines(&self) -> (r: Vec<Line<P>>)
        ensures
            r@ == polygon_lines(self.0@, self.1@),
    {
        let mut r = self.0.lines();
        let n = self.1.0.len();
        let mut i: usize = 0;
        while i < n
            invariant
                n == self.1@.len(),
                i <= n,
                r@ == ring_lines(self.0@) + rings_lines(self.1@.take(i as int)),
            decreases n - i,
        {
            let mut more = self.1.0[i].lines();
            r.append(&mut more);
            proof {
                let t = self.1@.take(i + 1);
                assert(t.drop_last() =~= self.1@.take(i as int));
                assert(t.last() == self.1.0@[i as int]@);
            }
            i = i + 1;
            assert(r@ =~= ring_lines(self.0@) + rings_lines(self.1@.take(i as int)));
        }
        assert(self.1@.take(n as int) =~= self.1@);
        r
    }

    /// The multi polygon made of this polygon alone.
    pub fn to_multi(&self) -> (r: MultiPolygon<P>)
        ensures
            r@ == seq![self@],
    {
        let mut v: Vec<Polygon<P>> = Vec::new();
        v.push(self.clone());
        let r = MultiPolygon(v);
        assert(r@ =~= seq![self@]);
        r
    }
}

/// A collection of polygons.
#[derive(Debug, PartialEq)]
pub struct MultiPolygon<P: Point>(pub Vec<Polygon<P>>);

impl<P: Point> View for MultiPolygon<P> {
    type V = Seq<(Seq<P>, Seq<Seq<P>>)>;

    open spec fn view(&self) -> Seq<(Seq<P>, Seq<Seq<P>>)> {
        self.0@.map_values(|p: Polygon<P>| p@)
    }
}

impl<P: Point> MultiPolygon<P> {
    /// The collection without polygons.
    pub fn empty() -> (r: Self)
        ensures
            r@ == Seq::<(Seq<P>, Seq<Seq<P>>)>::empty(),
    {
        let r = MultiPolygon(Vec::new());
        assert(r@ =~= Seq::<(Seq<P>, Seq<Seq<P>>)>::empty());
        r
    }
}

impl<P: Point> Default for Polygon<P> {
    /// The polygon with an empty exterior and no holes.
    fn default() -> (r: Self)
        ensures
            r@ == (Seq::<P>::empty(), Seq::<Seq<P>>::empty()),
    {
        Polygon(Ring::empty(), MultiRing::empty())
    }
}

impl<P: Point> Default for MultiPolygon<P> {
    /// The collection without polygons.
    fn default() -> (r: Self)
        ensures
            r@ == Seq::<(Seq<P>, Seq<Seq<P>>)>::empty(),
    {
        MultiPolygon::empty()
    }
}

impl<P: Point> std::ops::Deref for MultiPolygon<P> {
    type Target = Vec<Polygon<P>>;

    /// The polygons, as a vector.
    fn deref(&self) -> (r: &Vec<Polygon<P>>)
        ensures
            r == &self.0,
    {
        &self.0
    }
}

} // verus!

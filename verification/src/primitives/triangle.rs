use vstd::prelude::*;

use super::ring::{MultiRing, Ring};
use crate::point::Point;
use crate::seqs::{lemma_map_push, ring_points};

verus! {

/// A triangle given by its three corners.
#[derive(Debug, Clone, Copy, PartialEq)]
pub struct Triangle<P: Point>(pub [P; 3]);

impl<P: Point> View for Triangle<P> {
    type V = Seq<P>;

    open spec fn view(&self) -> Seq<P> {
        seq![self.0[0], self.0[1], self.0[2]]
    }
}

impl<P: Point> Triangle<P> {
    /// The ring through the corners of the triangle.
    pub fn as_ring(self) -> (r: Ring<P>)
        ensures
            r@ == ring_points(self@),
    {
        let mut v: Vec<P> = Vec::new();
        v.push(self.0[0]);
        v.push(self.0[1]);
        v.push(self.0[2]);
        assert(v@ =~= self@);
        Ring::new(v)
    }
}

/// A collection of triangles.
#[derive(Debug, PartialEq)]
pub struct MultiTriangle<P: Point>(pub Vec<Triangle<P>>);

impl<P: Point> View for MultiTriangle<P> {
    type V = Seq<Seq<P>>;

    open spec fn view(&self) -> Seq<Seq<P>> {
        self.0@.map_values(|t: Triangle<P>| t@)
    }
}

impl<P: Point> MultiTriangle<P> {
    /// The rings through the corners of every triangle, in order.
    pub fn as_multi_ring(&self) -> (r: MultiRing<P>)
        ensures
            r@ == self@.map_values(|t: Seq<P>| ring_points(t)),
    {
        let mut v: Vec<Ring<P>> = Vec::new();
        let n = self.0.len();
        let mut i: usize = 0;
        while i < n
            invariant
                n == self.0@.len(),
                i <= n,
                v@.map_values(|r: Ring<P>| r@) == self@.take(i as int).map_values(
                    |t: Seq<P>| ring_points(t),
                ),
            decreases n - i,
        {
            let c = self.0[i].as_ring();
            proof {
                lemma_map_push(v@, c, |r: Ring<P>| r@);
                let f = |t: Seq<P>| ring_points(t);
                lemma_map_push(self@.take(i as int), self.0@[i as int]@, f);
                assert(self@.take(i + 1) =~= self@.take(i as int).push(self.0@[i as int]@));
            }
            v.push(c);
            i = i + 1;
            assert(v@.map_values(|r: Ring<P>| r@) =~= self@.take(i as int).map_values(
                |t: Seq<P>| ring_points(t),
            ));
        }
        assert(self@.take(n as int) =~= self@);
        MultiRing(v)
    }
}

impl<P: Point> Default for MultiTriangle<P> {
    /// The collection without triangles.
    fn default() -> (r: Self)
        ensures
            r@ == Seq::<Seq<P>>::empty(),
    {
        let r = MultiTriangle(Vec::new());
        assert(r@ =~= Seq::<Seq<P>>::empty());
        r
    }
}

} // verus!

use vstd::prelude::*;

use crate::point::Point;
use crate::primitives::{Line, LineString, MultiLineString, MultiPolygon, MultiRing, Polygon, Ring};
use crate::seqs::{
    lemma_map_push, lemma_reverse_reverse, lemma_reverse_wf, lemma_ring_points_noop,
    reverse_points, ring_wf,
};

verus! {

/// Reverses the winding of every ring of a polygon.
pub open spec fn flip_polygon<P>(p: (Seq<P>, Seq<Seq<P>>)) -> (Seq<P>, Seq<Seq<P>>) {
    (p.0.reverse(), p.1.map_values(|r: Seq<P>| r.reverse()))
}

/// Flips the winding (the direction of traversal) of a primitive.
pub trait Flip: Sized {
    fn flip(&self) -> Self;
}

impl<P: Point> Flip for Line<P> {
    fn flip(&self) -> (r: Self)
        ensures
            r.0[0] == self.0[1],
            r.0[1] == self.0[0],
    {
        Line([self.dst(), self.src()])
    }
}

impl<P: Point> Flip for LineString<P> {
    fn flip(&self) -> (r: Self)
        ensures
            r@ == self@.reverse(),
    {
        LineString(reverse_points(self.0.as_slice()))
    }
}

impl<P: Point> Flip for MultiLineString<P> {
    fn flip(&self) -> (r: Self)
        ensures
            r@ == self@.map_values(|l: Seq<P>| l.reverse()),
    {
        let mut v: Vec<LineString<P>> = Vec::new();
        let n = self.0.len();
        let mut i: usize = 0;
        while i < n
            invariant
                n == self.0@.len(),
                i <= n,
                v@.map_values(|l: LineString<P>| l@) == self@.take(i as int).map_values(
                    |l: Seq<P>| l.reverse(),
                ),
            decreases n - i,
        {
            let c = self.0[i].flip();
            proof {
                lemma_map_push(v@, c, |l: LineString<P>| l@);
                lemma_map_push(self@.take(i as int), self.0@[i as int]@, |l: Seq<P>| l.reverse());
                assert(self@.take(i + 1) =~= self@.take(i as int).push(self.0@[i as int]@));
            }
            v.push(c);
            i = i + 1;
        }
        assert(self@.take(n as int) =~= self@);
        MultiLineString(v)
    }
}

impl<P: Point> Flip for Ring<P> {
    fn flip(&self) -> (r: Self)
        ensures
            r@ == self@.reverse(),
    {
        self.wf();
        let rev = reverse_points(self.points_open());
        proof {
            lemma_reverse_wf(self@);
            lemma_ring_points_noop(self@.reverse());
        }
        Ring::new(rev)
    }
}

impl<P: Point> Flip for MultiRing<P> {
    fn flip(&self) -> (r: Self)
        ensures
            r@ == self@.map_values(|l: Seq<P>| l.reverse()),
    {
        let mut v: Vec<Ring<P>> = Vec::new();
        let n = self.0.len();
        let mut i: usize = 0;
        while i < n
            invariant
                n == self.0@.len(),
                i <= n,
                v@.map_values(|l: Ring<P>| l@) == self@.take(i as int).map_values(
                    |l: Seq<P>| l.reverse(),
                ),
            decreases n - i,
        {
            let c = self.0[i].flip();
            proof {
                lemma_map_push(v@, c, |l: Ring<P>| l@);
                lemma_map_push(self@.take(i as int), self.0@[i as int]@, |l: Seq<P>| l.reverse());
                assert(self@.take(i + 1) =~= self@.take(i as int).push(self.0@[i as int]@));
            }
            v.push(c);
            i = i + 1;
        }
        assert(self@.take(n as int) =~= self@);
        MultiRing(v)
    }
}

impl<P: Point> Flip for Polygon<P> {
    fn flip(&self) -> (r: Self)
        ensures
            r@ == flip_polygon(self@),
    {
        Polygon(self.exterior().flip(), self.interior().flip())
    }
}

impl<P: Point> Flip for MultiPolygon<P> {
    fn flip(&self) -> (r: Self)
        ensures
            r@ == self@.map_values(|p: (Seq<P>, Seq<Seq<P>>)| flip_polygon(p)),
    {
        let mut v: Vec<Polygon<P>> = Vec::new();
        let n = self.0.len();
        let mut i: usize = 0;
        while i < n
            invariant
                n == self.0@.len(),
                i <= n,
                v@.map_values(|p: Polygon<P>| p@) == self@.take(i as int).map_values(
                    |p: (Seq<P>, Seq<Seq<P>>)| flip_polygon(p),
                ),
            decreases n - i,
        {
            let c = self.0[i].flip();
            proof {
                lemma_map_push(v@, c, |p: Polygon<P>| p@);
                lemma_map_push(
                    self@.take(i as int),
                    self.0@[i as int]@,
                    |p: (Seq<P>, Seq<Seq<P>>)| flip_polygon(p),
                );
                assert(self@.take(i + 1) =~= self@.take(i as int).push(self.0@[i as int]@));
            }
            v.push(c);
            i = i + 1;
        }
        assert(self@.take(n as int) =~= self@);
        MultiPolygon(v)
    }
}

/// Flipping a ring twice gives back the same points: the winding flip is an involution.
pub proof fn lemma_flip_involution<P>(s: Seq<P>)
    ensures
        s.reverse().reverse() == s,
{
    lemma_reverse_reverse(s);
}

/// Flipping a polygon twice gives back the same polygon.
pub proof fn lemma_flip_polygon_involution<P>(p: (Seq<P>, Seq<Seq<P>>))
    ensures
        flip_polygon(flip_polygon(p)) == p,
{
    lemma_reverse_reverse(p.0);
    let q = flip_polygon(p).1;
    let qq = q.map_values(|r: Seq<P>| r.reverse());
    assert forall|i: int| 0 <= i < p.1.len() implies #[trigger] qq[i] == p.1[i] by {
        lemma_reverse_reverse(p.1[i]);
    }
    assert(q.map_values(|r: Seq<P>| r.reverse()) =~= p.1);
}

/// A flipped ring is still a valid ring.
pub proof fn lemma_flip_keeps_ring_valid<P>(s: Seq<P>)
    requires
        ring_wf(s),
    ensures
        ring_wf(s.reverse()),
{
    lemma_reverse_wf(s);
}

} // verus!

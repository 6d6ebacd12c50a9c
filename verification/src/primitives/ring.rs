use vstd::prelude::*;

use super::line::Line;
use super::linestring::LineString;
use super::polygon::Polygon;
use crate::point::Point;
use crate::seqs::{
    copy_points, dedup_points, lemma_dedup_noop, lemma_map_push, lemma_mod_wrap,
    lemma_ring_points_wf, ring_points, ring_wf,
};

verus! {

/// The segments of a ring, including the closing segment from the last point to the first.
pub open spec fn ring_lines<P: Point>(s: Seq<P>) -> Seq<Line<P>> {
    Seq::new(s.len(), |i: int| Line([s[i], s[(i + 1) % (s.len() as int)]]))
}

/// The area enclosed by a closed line string. Only the distinct points are stored: the first
/// point differs from the last one and the segment connecting them is implied. No two
/// cyclically consecutive points are equal.
#[derive(Debug, PartialEq)]
pub struct Ring<P: Point>(Vec<P>);

impl<P: Point> View for Ring<P> {
    type V = Seq<P>;

    closed spec fn view(&self) -> Seq<P> {
        self.0@
    }
}

impl<P: Point> Ring<P> {
    #[verifier::type_invariant]
    closed spec fn inv(self) -> bool {
        ring_wf(self.0@)
    }

    /// Every ring satisfies `ring_wf`.
    pub fn wf(&self)
        ensures
            ring_wf(self@),
    {
        proof {
            use_type_invariant(self);
        }
    }
}

impl<P: Point> Clone for Ring<P> {
    fn clone(&self) -> (r: Self)
        ensures
            r@ == self@,
    {
        proof {
            use_type_invariant(self);
        }
        Ring(copy_points(self.0.as_slice()))
    }
}

impl<P: Point> Ring<P> {
    /// Creates a ring from open or closed point lists: consecutive repetitions are collapsed
    /// and a closing point equal to the first one is dropped.
    pub fn new(points: Vec<P>) -> (r: Self)
        ensures
            r@ == ring_points(points@),
            ring_wf(r@),
    {
        let mut d = dedup_points(points.as_slice());
        let n = d.len();
        if n > 0 && d[n - 1].same(&d[0]) {
            d.pop();
        }
        proof {
            lemma_ring_points_wf(points@);
        }
        Ring(d)
    }

    /// The ring without points.
    pub fn empty() -> (r: Self)
        ensures
            r@ == Seq::<P>::empty(),
    {
        Ring(Vec::new())
    }

    /// The distinct points of the ring, without repeating the first one at the end.
    pub fn points_open(&self) -> (r: &[P])
        ensures
            r@ == self@,
    {
        self.0.as_slice()
    }

    /// The distinct points of the ring (the same as `points_open`).
    pub fn points(&self) -> (r: &[P])
        ensures
            r@ == self@,
    {
        self.points_open()
    }

    /// The distinct points of the ring in order, without repeating the first one.
    pub fn iter_points_open(&self) -> (r: Vec<P>)
        ensures
            r@ == self@,
    {
        copy_points(self.0.as_slice())
    }

    /// The points of the ring with the first one repeated at the end (the same as
    /// `iter_points_duplicate_endpoints`).
    pub fn iter_points_closed(&self) -> (r: Vec<P>)
        ensures
            self@.len() == 0 ==> r@ == Seq::<P>::empty(),
            self@.len() > 0 ==> r@ == self@.push(self@[0]),
    {
        self.iter_points_duplicate_endpoints()
    }

    /// The number of distinct points.
    pub fn len(&self) -> (r: usize)
        ensures
            r == self@.len(),
    {
        self.0.len()
    }

    /// All points with the first one repeated at the end (`first == last`).
    pub fn iter_points_duplicate_endpoints(&self) -> (r: Vec<P>)
        ensures
            self@.len() == 0 ==> r@ == Seq::<P>::empty(),
            self@.len() > 0 ==> r@ == self@.push(self@[0]),
    {
        let mut r = copy_points(self.0.as_slice());
        if self.0.len() > 0 {
            r.push(self.0[0]);
        }
        r
    }

    /// The closed line string through the points of the ring, with `first == last`.
    pub fn to_linestring(&self) -> (r: LineString<P>)
        ensures
            self@.len() == 0 ==> r@ == Seq::<P>::empty(),
            self@.len() > 0 ==> r@ == self@.push(self@[0]),
    {
        proof {
            use_type_invariant(self);
        }
        if self.0.len() == 0 {
            LineString::empty()
        } else {
            let closed = self.iter_points_duplicate_endpoints();
            proof {
                let s = self@.push(self@[0]);
                assert forall|i: int| 0 <= i < s.len() - 1 implies #[trigger] s[i] != s[i + 1] by {
                    if i < self@.len() - 1 {
                        assert(s[i] == self@[i] && s[i + 1] == self@[i + 1]);
                    }
                }
                lemma_dedup_noop(s);
            }
            LineString::new(closed)
        }
    }

    /// The polygon with this ring as exterior and without holes.
    pub fn to_polygon(&self) -> (r: Polygon<P>)
        ensures
            r.0@ == self@,
            r.1@ == Seq::<Seq<P>>::empty(),
    {
        Polygon::new(self.clone(), super::ring::MultiRing::empty())
    }

    /// The segments of the ring including the closing one.
    pub fn lines(&self) -> (r: Vec<Line<P>>)
        ensures
            r@ == ring_lines(self@),
    {
        let mut r: Vec<Line<P>> = Vec::new();
        let n = self.0.len();
        let mut i: usize = 0;
        while i < n
            invariant
                n == self@.len(),
                i <= n,
                r@ == ring_lines(self@).take(i as int),
            decreases n - i,
        {
            let j: usize = if i + 1 == n {
                0
            } else {
                i + 1
            };
            proof {
                lemma_mod_wrap(i + 1, n as int);
            }
            r.push(Line([self.0[i], self.0[j]]));
            i = i + 1;
            assert(r@ =~= ring_lines(self@).take(i as int));
        }
        assert(ring_lines(self@).take(n as int) =~= ring_lines(self@));
        r
    }

    /// Replaces the `i`th point by `new` unless that would make it equal to one of its
    /// neighbours; returns whether the point was replaced.
    pub fn try_set_point(&mut self, i: usize, new: P) -> (r: bool)
        requires
            i < old(self)@.len(),
        ensures
            ({
                let s = old(self)@;
                let n = s.len() as int;
                r == (new != s[(i + 1) % n] && new != s[(i + n - 1) % n])
            }),
            r ==> final(self)@ == old(self)@.update(i as int, new),
            !r ==> final(self)@ == old(self)@,
    {
        proof {
            use_type_invariant(&*self);
        }
        let len = self.0.len();
        let next: usize = if i + 1 == len {
            0
        } else {
            i + 1
        };
        let prev: usize = if i == 0 {
            len - 1
        } else {
            i - 1
        };
        proof {
            lemma_mod_wrap(i + 1, len as int);
            lemma_mod_wrap(i + len - 1, len as int);
        }
        if self.0[next].same(&new) || self.0[prev].same(&new) {
            return false;
        }
        let ghost s = self.0@;
        let mut v: Vec<P> = Vec::new();
        std::mem::swap(&mut v, &mut self.0);
        v.set(i, new);
        proof {
            let t = v@;
            assert(t == s.update(i as int, new));
            assert forall|k: int| 0 <= k < t.len() - 1 implies #[trigger] t[k] != t[k + 1] by {
                if k == i {
                    assert(t[k + 1] == s[k + 1]);
                } else if k + 1 == i {
                    assert(t[k] == s[k]);
                } else {
                    assert(t[k] == s[k] && t[k + 1] == s[k + 1]);
                    assert(s[k] != s[k + 1]);
                }
            }
            if i == 0 {
                assert(t.last() == s.last());
            } else if i == len - 1 {
                assert(t[0] == s[0]);
            } else {
                assert(t.last() == s.last() && t[0] == s[0]);
            }
        }
        self.0 = v;
        true
    }
}

/// A collection of rings.
#[derive(Debug, PartialEq)]
pub struct MultiRing<P: Point>(pub Vec<Ring<P>>);

impl<P: Point> View for MultiRing<P> {
    type V = Seq<Seq<P>>;

    open spec fn view(&self) -> Seq<Seq<P>> {
        self.0@.map_values(|r: Ring<P>| r@)
    }
}

impl<P: Point> Clone for MultiRing<P> {
    fn clone(&self) -> (r: Self)
        ensures
            r@ == self@,
    {
        let mut v: Vec<Ring<P>> = Vec::new();
        let n = self.0.len();
        let mut i: usize = 0;
        while i < n
            invariant
                n == self.0@.len(),
                i <= n,
                v@.map_values(|r: Ring<P>| r@) == self@.take(i as int),
            decreases n - i,
        {
            let c = self.0[i].clone();
            proof {
                lemma_map_push(v@, c, |r: Ring<P>| r@);
                assert(self@.take(i + 1) =~= self@.take(i as int).push(c@));
            }
            v.push(c);
            i = i + 1;
            assert(v@.map_values(|r: Ring<P>| r@) =~= self@.take(i as int));
        }
        assert(self@.take(n as int) =~= self@);
        MultiRing(v)
    }
}

impl<P: Point> MultiRing<P> {
    /// The collection without rings.
    pub fn empty() -> (r: Self)
        ensures
            r@ == Seq::<Seq<P>>::empty(),
    {
        let r = MultiRing(Vec::new());
        assert(r@ =~= Seq::<Seq<P>>::empty());
        r
    }
}

impl<P: Point> Default for Ring<P> {
    /// The empty ring.
    fn default() -> (r: Self)
        ensures
            r@ == Seq::<P>::empty(),
    {
        Ring::empty()
    }
}

impl<P: Point> Default for MultiRing<P> {
    /// The collection without rings.
    fn default() -> (r: Self)
        ensures
            r@ == Seq::<Seq<P>>::empty(),
    {
        MultiRing::empty()
    }
}

impl<P: Point> std::ops::Deref for MultiRing<P> {
    type Target = Vec<Ring<P>>;

    /// The rings, as a vector.
    fn deref(&self) -> (r: &Vec<Ring<P>>)
        ensures
            r == &self.0,
    {
        &self.0
    }
}

} // verus!

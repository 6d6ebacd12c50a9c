use vstd::prelude::*;

use crate::point::Point;
use crate::primitives::{
    Line, LineString, MultiLineString, MultiPolygon, MultiRing, Polygon, Ring, Triangle,
};
use crate::seqs::ring_points;

verus! {

/// `t` holds, position by position, possible results of `f` on the points of `s`.
pub open spec fn mapped_by<PIn, POut, F: Fn(PIn) -> POut>(f: F, s: Seq<PIn>, t: Seq<POut>) -> bool {
    &&& s.len() == t.len()
    &&& forall|i: int| 0 <= i < s.len() ==> f.ensures((s[i],), #[trigger] t[i])
}

/// `f` can be applied to every point.
pub open spec fn total<PIn, POut, F: Fn(PIn) -> POut>(f: F) -> bool {
    forall|p: PIn| f.requires((p,))
}

/// Applies `f` to every point of the slice, in order.
pub fn map_points<PIn: Point, POut: Point, F: Fn(PIn) -> POut>(v: &[PIn], f: &F) -> (r: Vec<POut>)
    requires
        total(*f),
    ensures
        mapped_by(*f, v@, r@),
{
    let mut r: Vec<POut> = Vec::new();
    let n = v.len();
    let mut i: usize = 0;
    while i < n
        invariant
            n == v@.len(),
            i <= n,
            total(*f),
            r@.len() == i,
            forall|k: int| 0 <= k < i ==> f.ensures((v@[k],), #[trigger] r@[k]),
        decreases n - i,
    {
        let q = f(v[i]);
        r.push(q);
        i = i + 1;
    }
    r
}

/// Maps every point of a primitive to another point (possibly of another point type).
pub trait MapPoints<PIn, POut> {
    type Output;

    fn map<F: Fn(PIn) -> POut>(&self, f: &F) -> Self::Output
        requires
            total(*f),
    ;
}

impl<PIn: Point, POut: Point> MapPoints<PIn, POut> for Line<PIn> {
    type Output = Line<POut>;

    fn map<F: Fn(PIn) -> POut>(&self, f: &F) -> (r: Line<POut>)
        ensures
            f.ensures((self.0[0],), r.0[0]),
            f.ensures((self.0[1],), r.0[1]),
    {
        let a = f(self.0[0]);
        let b = f(self.0[1]);
        Line([a, b])
    }
}

impl<PIn: Point, POut: Point> MapPoints<PIn, POut> for Triangle<PIn> {
    type Output = Triangle<POut>;

    fn map<F: Fn(PIn) -> POut>(&self, f: &F) -> (r: Triangle<POut>)
        ensures
            mapped_by(*f, self@, r@),
    {
        let a = f(self.0[0]);
        let b = f(self.0[1]);
        let c = f(self.0[2]);
        let r = Triangle([a, b, c]);
        assert(r@[0] == a && r@[1] == b && r@[2] == c);
        r
    }
}

impl<PIn: Point, POut: Point> MapPoints<PIn, POut> for LineString<PIn> {
    type Output = LineString<POut>;

    fn map<F: Fn(PIn) -> POut>(&self, f: &F) -> (r: LineString<POut>)
        ensures
            mapped_by(*f, self@, r@),
    {
        LineString(map_points(self.0.as_slice(), f))
    }
}

impl<PIn: Point, POut: Point> MapPoints<PIn, POut> for MultiLineString<PIn> {
    type Output = MultiLineString<POut>;

    fn map<F: Fn(PIn) -> POut>(&self, f: &F) -> (r: MultiLineString<POut>)
        ensures
            r@.len() == self@.len(),
            forall|i: int| 0 <= i < self@.len() ==> mapped_by(*f, self@[i], #[trigger] r@[i]),
    {
        let mut v: Vec<LineString<POut>> = Vec::new();
        let n = self.0.len();
        let mut i: usize = 0;
        while i < n
            invariant
                n == self@.len(),
                i <= n,
                total(*f),
                v@.len() == i,
                forall|k: int| 0 <= k < i ==> mapped_by(*f, self@[k], #[trigger] v@[k]@),
            decreases n - i,
        {
            let c = self.0[i].map(f);
            v.push(c);
            i = i + 1;
        }
        let r = MultiLineString(v);
        assert forall|i: int| 0 <= i < self@.len() implies mapped_by(*f, self@[i], #[trigger] r@[i]) by {
            assert(r@[i] == v@[i]@);
        }
        r
    }
}

impl<PIn: Point, POut: Point> MapPoints<PIn, POut> for Ring<PIn> {
    type Output = Ring<POut>;

    /// The mapped points are normalised again as by `Ring::new`.
    fn map<F: Fn(PIn) -> POut>(&self, f: &F) -> (r: Ring<POut>)
        ensures
            exists|t: Seq<POut>| mapped_by(*f, self@, t) && r@ == ring_points(t),
    {
        let t = map_points(self.points_open(), f);
        let ghost tv = t@;
        let r = Ring::new(t);
        assert(mapped_by(*f, self@, tv) && r@ == ring_points(tv));
        r
    }
}

/// `r` is the normalised image under `f` of the ring `s`.
pub open spec fn ring_mapped_by<PIn, POut, F: Fn(PIn) -> POut>(
    f: F,
    s: Seq<PIn>,
    r: Seq<POut>,
) -> bool {
    exists|t: Seq<POut>| mapped_by(f, s, t) && r == ring_points(t)
}

impl<PIn: Point, POut: Point> MapPoints<PIn, POut> for MultiRing<PIn> {
    type Output = MultiRing<POut>;

    fn map<F: Fn(PIn) -> POut>(&self, f: &F) -> (r: MultiRing<POut>)
        ensures
            r@.len() == self@.len(),
            forall|i: int| 0 <= i < self@.len() ==> ring_mapped_by(*f, self@[i], #[trigger] r@[i]),
    {
        let mut v: Vec<Ring<POut>> = Vec::new();
        let n = self.0.len();
        let mut i: usize = 0;
        while i < n
            invariant
                n == self@.len(),
                i <= n,
                total(*f),
                v@.len() == i,
                forall|k: int| 0 <= k < i ==> ring_mapped_by(*f, self@[k], #[trigger] v@[k]@),
            decreases n - i,
        {
            let c = self.0[i].map(f);
            v.push(c);
            i = i + 1;
        }
        let r = MultiRing(v);
        assert forall|i: int| 0 <= i < self@.len() implies ring_mapped_by(
            *f,
            self@[i],
            #[trigger] r@[i],
        ) by {
            assert(r@[i] == v@[i]@);
        }
        r
    }
}

/// `r` is the image under `f` of the polygon `p`, ring by ring.
pub open spec fn polygon_mapped_by<PIn, POut, F: Fn(PIn) -> POut>(
    f: F,
    p: (Seq<PIn>, Seq<Seq<PIn>>),
    r: (Seq<POut>, Seq<Seq<POut>>),
) -> bool {
    &&& ring_mapped_by(f, p.0, r.0)
    &&& r.1.len() == p.1.len()
    &&& forall|i: int| 0 <= i < p.1.len() ==> ring_mapped_by(f, p.1[i], #[trigger] r.1[i])
}

impl<PIn: Point, POut: Point> MapPoints<PIn, POut> for Polygon<PIn> {
    type Output = Polygon<POut>;

    fn map<F: Fn(PIn) -> POut>(&self, f: &F) -> (r: Polygon<POut>)
        ensures
            polygon_mapped_by(*f, self@, r@),
    {
        Polygon(self.0.map(f), self.1.map(f))
    }
}

impl<PIn: Point, POut: Point> MapPoints<PIn, POut> for MultiPolygon<PIn> {
    type Output = MultiPolygon<POut>;

    fn map<F: Fn(PIn) -> POut>(&self, f: &F) -> (r: MultiPolygon<POut>)
        ensures
            r@.len() == self@.len(),
            forall|i: int|
                0 <= i < self@.len() ==> polygon_mapped_by(*f, self@[i], #[trigger] r@[i]),
    {
        let mut v: Vec<Polygon<POut>> = Vec::new();
        let n = self.0.len();
        let mut i: usize = 0;
        while i < n
            invariant
                n == self@.len(),
                i <= n,
                total(*f),
                v@.len() == i,
                forall|k: int| 0 <= k < i ==> polygon_mapped_by(*f, self@[k], #[trigger] v@[k]@),
            decreases n - i,
        {
            let c = self.0[i].map(f);
            v.push(c);
            i = i + 1;
        }
        let r = MultiPolygon(v);
        assert forall|i: int| 0 <= i < self@.len() implies polygon_mapped_by(
            *f,
            self@[i],
            #[trigger] r@[i],
        ) by {
            assert(r@[i] == v@[i]@);
        }
        r
    }
}

} // verus!

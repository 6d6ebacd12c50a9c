use vstd::prelude::*;

use crate::point::{mean_coords, Point};
use crate::primitives::{MultiPolygon, MultiRing, Polygon, Ring};

verus! {

/// The coordinates of the points.
pub open spec fn point_coords<P: Point>(pts: Seq<P>) -> Seq<Seq<int>> {
    pts.map_values(|p: P| p.coords())
}

/// `t` holds, for every ring, a point at the mean of the ring's points.
pub open spec fn ring_centers<P: Point>(rings: Seq<Seq<P>>, t: Seq<P>) -> bool {
    &&& t.len() == rings.len()
    &&& forall|i: int|
        0 <= i < rings.len() ==> (#[trigger] t[i]).coords() == mean_coords(point_coords(rings[i]))
}

/// Generalised center: the mean of the points, every coordinate rounded towards zero.
pub trait Center {
    type P: Point;

    /// Whether there is anything to average.
    spec fn has_center(&self) -> bool;

    fn center(&self) -> Self::P
        requires
            self.has_center(),
    ;
}

impl<P: Point> Center for Ring<P> {
    type P = P;

    open spec fn has_center(&self) -> bool {
        self@.len() > 0
    }

    fn center(&self) -> (r: P)
        ensures
            r.coords() == mean_coords(point_coords(self@)),
    {
        P::mean(self.points_open())
    }
}

impl<P: Point> Center for MultiRing<P> {
    type P = P;

    open spec fn has_center(&self) -> bool {
        &&& self@.len() > 0
        &&& forall|i: int| 0 <= i < self@.len() ==> (#[trigger] self@[i]).len() > 0
    }

    /// The mean of the centers of the rings.
    fn center(&self) -> (r: P)
        ensures
            exists|t: Seq<P>| ring_centers(self@, t) && r.coords() == mean_coords(point_coords(t)),
    {
        let mut t: Vec<P> = Vec::new();
        let n = self.0.len();
        let mut i: usize = 0;
        while i < n
            invariant
                n == self@.len(),
                i <= n,
                forall|k: int| 0 <= k < self@.len() ==> (#[trigger] self@[k]).len() > 0,
                t@.len() == i,
                forall|k: int|
                    0 <= k < i ==> (#[trigger] t@[k]).coords() == mean_coords(
                        point_coords(self@[k]),
                    ),
            decreases n - i,
        {
            assert(self@[i as int].len() > 0);
            let c = self.0[i].center();
            t.push(c);
            i = i + 1;
        }
        let r = P::mean(t.as_slice());
        assert(ring_centers(self@, t@));
        r
    }
}

impl<P: Point> Center for Polygon<P> {
    type P = P;

    open spec fn has_center(&self) -> bool {
        self.0@.len() > 0
    }

    /// The center of the exterior ring.
    fn center(&self) -> (r: P)
        ensures
            r.coords() == mean_coords(point_coords(self.0@)),
    {
        self.exterior().center()
    }
}

impl<P: Point> Center for MultiPolygon<P> {
    type P = P;

    open spec fn has_center(&self) -> bool {
        &&& self@.len() > 0
        &&& forall|i: int| 0 <= i < self@.len() ==> (#[trigger] self@[i]).0.len() > 0
    }

    /// The mean of the centers of the polygons' exteriors.
    fn center(&self) -> (r: P)
        ensures
            exists|t: Seq<P>|
                ring_centers(self@.map_values(|p: (Seq<P>, Seq<Seq<P>>)| p.0), t) && r.coords()
                    == mean_coords(point_coords(t)),
    {
        let ghost ext = self@.map_values(|p: (Seq<P>, Seq<Seq<P>>)| p.0);
        let mut t: Vec<P> = Vec::new();
        let n = self.0.len();
        let mut i: usize = 0;
        while i < n
            invariant
                n == self@.len(),
                ext == self@.map_values(|p: (Seq<P>, Seq<Seq<P>>)| p.0),
                i <= n,
                forall|k: int| 0 <= k < self@.len() ==> (#[trigger] self@[k]).0.len() > 0,
                t@.len() == i,
                forall|k: int|
                    0 <= k < i ==> (#[trigger] t@[k]).coords() == mean_coords(point_coords(ext[k])),
            decreases n - i,
        {
            assert(self@[i as int].0.len() > 0);
            let c = self.0[i].center();
            t.push(c);
            i = i + 1;
        }
        let r = P::mean(t.as_slice());
        assert(ring_centers(ext, t@) && r.coords() == mean_coords(point_coords(t@)));
        r
    }
}

} // verus!

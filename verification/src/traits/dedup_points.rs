use vstd::prelude::*;

use crate::point::{lemma_near_basics, lemma_near_symmetric, near, Point};
use crate::primitives::{LineString, MultiPolygon, MultiRing, Polygon, Ring};
use crate::seqs::{dedup_seq, lemma_map_push, lemma_ring_points_noop, ring_points, ring_wf};

verus! {

/// Approximate deduplication: walking from the front, a point is dropped when it lies near the
/// last point that was kept.
pub open spec fn dedup_near<P: Point>(s: Seq<P>, tolerance: u32) -> Seq<P>
    decreases s.len(),
{
    if s.len() == 0 {
        s
    } else {
        let d = dedup_near(s.drop_last(), tolerance);
        if d.len() > 0 && near(s.last(), d.last(), tolerance) {
            d
        } else {
            d.push(s.last())
        }
    }
}

/// The points of a ring after approximate deduplication: after `dedup_near`, a last point
/// near the first one is dropped as well.
pub open spec fn ring_dedup_near<P: Point>(s: Seq<P>, tolerance: u32) -> Seq<P> {
    let d = dedup_near(s, tolerance);
    if d.len() > 0 && near(d.last(), d[0], tolerance) {
        d.drop_last()
    } else {
        d
    }
}

/// Shape of `dedup_near`: it keeps the first point, is non-empty for non-empty input, no kept
/// point is near its predecessor, and for tolerance zero nothing is dropped.
pub proof fn lemma_dedup_near_shape<P: Point>(s: Seq<P>, tolerance: u32)
    ensures
        dedup_near(s, tolerance).len() <= s.len(),
        s.len() > 0 ==> dedup_near(s, tolerance).len() > 0,
        s.len() > 0 ==> dedup_near(s, tolerance)[0] == s[0],
        forall|i: int|
            0 <= i < dedup_near(s, tolerance).len() - 1 ==> !near(
                #[trigger] dedup_near(s, tolerance)[i + 1],
                dedup_near(s, tolerance)[i],
                tolerance,
            ),
        tolerance == 0 ==> dedup_near(s, tolerance) == s,
    decreases s.len(),
{
    if s.len() > 0 {
        let t = s.drop_last();
        lemma_dedup_near_shape(t, tolerance);
        let d = dedup_near(t, tolerance);
        if d.len() > 0 {
            lemma_near_basics(s.last(), d.last(), tolerance);
        }
        if !(d.len() > 0 && near(s.last(), d.last(), tolerance)) {
            let e = d.push(s.last());
            assert forall|i: int| 0 <= i < e.len() - 1 implies !near(
                #[trigger] e[i + 1],
                e[i],
                tolerance,
            ) by {
                if i < d.len() - 1 {
                    assert(e[i + 1] == d[i + 1] && e[i] == d[i]);
                }
            }
            if tolerance == 0 {
                assert(e =~= s);
            }
        }
    }
}

/// No point of `s` lies near its predecessor.
pub open spec fn spread_out<P: Point>(s: Seq<P>, tolerance: u32) -> bool {
    forall|i: int| 0 <= i < s.len() - 1 ==> !near(#[trigger] s[i + 1], s[i], tolerance)
}

/// Approximate deduplication leaves points that are spread out unchanged.
proof fn lemma_dedup_near_spread_out<P: Point>(s: Seq<P>, tolerance: u32)
    requires
        spread_out(s, tolerance),
    ensures
        dedup_near(s, tolerance) == s,
    decreases s.len(),
{
    if s.len() > 0 {
        let t = s.drop_last();
        assert forall|i: int| 0 <= i < t.len() - 1 implies !near(
            #[trigger] t[i + 1],
            t[i],
            tolerance,
        ) by {
            assert(t[i + 1] == s[i + 1] && t[i] == s[i]);
        }
        lemma_dedup_near_spread_out(t, tolerance);
        if t.len() > 0 {
            let k = s.len() - 2;
            assert(!near(s[k + 1], s[k], tolerance));
        }
        assert(t.push(s.last()) =~= s);
    }
}

/// Approximate deduplication is idempotent: no point of its result lies near its
/// predecessor, so a second pass keeps every point.
pub proof fn lemma_dedup_near_idempotent<P: Point>(s: Seq<P>, tolerance: u32)
    ensures
        dedup_near(dedup_near(s, tolerance), tolerance) == dedup_near(s, tolerance),
{
    lemma_dedup_near_shape(s, tolerance);
    lemma_dedup_near_spread_out(dedup_near(s, tolerance), tolerance);
}

/// A ring whose last point lies within the tolerance of its first point never ends with that
/// last point after approximate deduplication: the point is dropped, either as near the point
/// kept before it or, when the ring is closed, as near the first point.
pub proof fn lemma_ring_dedup_near_drops_closing_point<P: Point>(s: Seq<P>, tolerance: u32)
    requires
        s.len() > 0,
        near(s.last(), s[0], tolerance),
    ensures
        ring_dedup_near(s, tolerance).len() > 0 ==> ring_dedup_near(s, tolerance).last()
            != s.last(),
{
    lemma_near_basics(s.last(), s[0], tolerance);
    lemma_near_basics(s.last(), s.last(), tolerance);
    lemma_dedup_near_shape(s, tolerance);
    let d = dedup_near(s, tolerance);
    let r = ring_dedup_near(s, tolerance);
    let t = s.drop_last();
    let dt = dedup_near(t, tolerance);
    lemma_dedup_near_shape(t, tolerance);
    if s.len() == 1 {
        assert(d =~= s);
        assert(r.len() == 0);
    } else if dt.len() > 0 && near(s.last(), dt.last(), tolerance) {
        // The last point was dropped as near the point kept before it.
        assert(d == dt);
        if r.len() > 0 {
            if near(d.last(), d[0], tolerance) {
                let k = d.len() - 2;
                assert(!near(d[k + 1], d[k], tolerance));
                assert(r.last() == d[k]);
                lemma_near_symmetric(d[k], d[k + 1], tolerance);
            } else {
                assert(d[0] == s[0]);
            }
        }
    } else {
        // The last point was kept, lies near the first one and is dropped on closing.
        assert(d == dt.push(s.last()));
        assert(d[0] == s[0]);
        assert(r == dt);
        if r.len() > 0 {
            assert(!near(s.last(), dt.last(), tolerance));
        }
    }
}

/// Approximate deduplication of a valid ring yields a valid ring.
pub proof fn lemma_ring_dedup_near_wf<P: Point>(s: Seq<P>, tolerance: u32)
    requires
        ring_wf(s),
    ensures
        ring_wf(ring_dedup_near(s, tolerance)),
{
    if s.len() == 0 {
        assert(dedup_near(s, tolerance) == s);
        return;
    }
    lemma_dedup_near_shape(s, tolerance);
    let d = dedup_near(s, tolerance);
    lemma_near_basics(d.last(), d[0], tolerance);
    if tolerance == 0 {
        assert(ring_dedup_near(s, tolerance) == s);
    } else {
        assert forall|i: int| 0 <= i < d.len() - 1 implies #[trigger] d[i] != d[i + 1] by {
            assert(!near(d[i + 1], d[i], tolerance));
            lemma_near_basics(d[i], d[i], tolerance);
        }
        if near(d.last(), d[0], tolerance) {
            let e = d.drop_last();
            assert forall|i: int| 0 <= i < e.len() - 1 implies #[trigger] e[i] != e[i + 1] by {
                assert(d[i] != d[i + 1]);
            }
            if e.len() > 0 {
                assert(!near(d[d.len() - 1], d[d.len() - 2], tolerance));
            }
        } else {
            if d.len() > 0 {
                lemma_near_basics(d[0], d[0], tolerance);
            }
        }
    }
}

/// Removes, from the front, every point near the last kept point.
pub fn dedup_points_near<P: Point>(v: &[P], tolerance: u32) -> (r: Vec<P>)
    ensures
        r@ == dedup_near(v@, tolerance),
{
    let mut r: Vec<P> = Vec::new();
    let n = v.len();
    let mut i: usize = 0;
    while i < n
        invariant
            n == v@.len(),
            i <= n,
            r@ == dedup_near(v@.take(i as int), tolerance),
        decreases n - i,
    {
        let p = v[i];
        let ghost t1 = v@.take(i + 1);
        assert(t1.drop_last() =~= v@.take(i as int));
        if r.len() == 0 || !p.abs_diff_eq(r[r.len() - 1], tolerance) {
            r.push(p);
        }
        i = i + 1;
    }
    assert(v@.take(n as int) =~= v@);
    r
}

/// Removes consecutive duplicate points from a primitive.
pub trait DedupPoints: Sized {
    /// Removes consecutive points with exactly the same coordinates.
    fn dedup(self) -> Self;

    /// Removes consecutive points closer to each other than `tolerance`.
    fn dedup_approx(self, tolerance: u32) -> Self;
}

impl<P: Point> DedupPoints for LineString<P> {
    fn dedup(self) -> (r: Self)
        ensures
            r@ == dedup_seq(self@),
    {
        LineString::new(self.0)
    }

    fn dedup_approx(self, tolerance: u32) -> (r: Self)
        ensures
            r@ == dedup_near(self@, tolerance),
    {
        LineString(dedup_points_near(self.0.as_slice(), tolerance))
    }
}

impl<P: Point> DedupPoints for Ring<P> {
    fn dedup(self) -> (r: Self)
        ensures
            r@ == ring_points(self@),
            r@ == self@,
    {
        self.wf();
        proof {
            lemma_ring_points_noop(self@);
        }
        let v = crate::seqs::copy_points(self.points_open());
        Ring::new(v)
    }

    fn dedup_approx(self, tolerance: u32) -> (r: Self)
        ensures
            r@ == ring_dedup_near(self@, tolerance),
    {
        self.wf();
        let mut points = dedup_points_near(self.points_open(), tolerance);
        proof {
            lemma_dedup_near_shape(self@, tolerance);
            lemma_ring_dedup_near_wf(self@, tolerance);
        }
        let n = points.len();
        if n > 0 && points[n - 1].abs_diff_eq(points[0], tolerance) {
            points.pop();
        }
        proof {
            lemma_ring_points_noop(points@);
        }
        Ring::new(points)
    }
}

impl<P: Point> DedupPoints for MultiRing<P> {
    fn dedup(self) -> (r: Self)
        ensures
            r@ == self@,
    {
        self
    }

    fn dedup_approx(self, tolerance: u32) -> (r: Self)
        ensures
            r@ == self@.map_values(|s: Seq<P>| ring_dedup_near(s, tolerance)),
    {
        let mut v: Vec<Ring<P>> = Vec::new();
        let n = self.0.len();
        let mut i: usize = 0;
        while i < n
            invariant
                n == self.0@.len(),
                i <= n,
                v@.map_values(|l: Ring<P>| l@) == self@.take(i as int).map_values(
                    |s: Seq<P>| ring_dedup_near(s, tolerance),
                ),
            decreases n - i,
        {
            let c = self.0[i].clone().dedup_approx(tolerance);
            proof {
                lemma_map_push(v@, c, |l: Ring<P>| l@);
                lemma_map_push(
                    self@.take(i as int),
                    self.0@[i as int]@,
                    |s: Seq<P>| ring_dedup_near(s, tolerance),
                );
                assert(self@.take(i + 1) =~= self@.take(i as int).push(self.0@[i as int]@));
            }
            v.push(c);
            i = i + 1;
        }
        assert(self@.take(n as int) =~= self@);
        MultiRing(v)
    }
}

impl<P: Point> DedupPoints for Polygon<P> {
    fn dedup(self) -> (r: Self)
        ensures
            r@ == self@,
    {
        Polygon(self.0.dedup(), self.1.dedup())
    }

    fn dedup_approx(self, tolerance: u32) -> (r: Self)
        ensures
            r.0@ == ring_dedup_near(self.0@, tolerance),
            r.1@ == self.1@.map_values(|s: Seq<P>| ring_dedup_near(s, tolerance)),
    {
        Polygon(self.0.dedup_approx(tolerance), self.1.dedup_approx(tolerance))
    }
}

impl<P: Point> DedupPoints for MultiPolygon<P> {
    fn dedup(self) -> (r: Self)
        ensures
            r@ == self@,
    {
        self
    }

    fn dedup_approx(self, tolerance: u32) -> (r: Self)
        ensures
            r@.len() == self@.len(),
            forall|i: int|
                0 <= i < self@.len() ==> (#[trigger] r@[i]).0 == ring_dedup_near(
                    self@[i].0,
                    tolerance,
                ) && r@[i].1 == self@[i].1.map_values(
                    |s: Seq<P>| ring_dedup_near(s, tolerance),
                ),
    {
        let mut v: Vec<Polygon<P>> = Vec::new();
        let n = self.0.len();
        let mut i: usize = 0;
        while i < n
            invariant
                n == self.0@.len(),
                i <= n,
                v@.len() == i,
                forall|k: int|
                    0 <= k < i ==> (#[trigger] v@[k]@).0 == ring_dedup_near(
                        self@[k].0,
                        tolerance,
                    ) && v@[k]@.1 == self@[k].1.map_values(
                        |s: Seq<P>| ring_dedup_near(s, tolerance),
                    ),
            decreases n - i,
        {
            let c = self.0[i].clone().dedup_approx(tolerance);
            v.push(c);
            i = i + 1;
        }
        MultiPolygon(v)
    }
}

} // verus!

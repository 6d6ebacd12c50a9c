use vstd::prelude::*;

use super::area::{chain_sum, doubled_area, wedge};
use crate::point::{lemma_product_bound, IVec2, IVec3};
use crate::primitives::{Polygon, Ring, Triangle};

verus! {

/// The cross product of two points of space.
pub open spec fn cross3(a: IVec3, b: IVec3) -> (int, int, int) {
    (a.y * b.z - a.z * b.y, a.z * b.x - a.x * b.z, a.x * b.y - a.y * b.x)
}

/// Component-wise sum of two integer triples.
pub open spec fn add3(a: (int, int, int), b: (int, int, int)) -> (int, int, int) {
    (a.0 + b.0, a.1 + b.1, a.2 + b.2)
}

/// Component-wise difference of two integer triples.
pub open spec fn sub3(a: (int, int, int), b: (int, int, int)) -> (int, int, int) {
    (a.0 - b.0, a.1 - b.1, a.2 - b.2)
}

/// Sum of the cross products of consecutive points, without the closing pair.
pub open spec fn chain_sum3(s: Seq<IVec3>) -> (int, int, int)
    decreases s.len(),
{
    if s.len() <= 1 {
        (0, 0, 0)
    } else {
        add3(chain_sum3(s.drop_last()), cross3(s[s.len() - 2], s.last()))
    }
}

/// Twice the vector area of the closed polygonal chain through `s`: a vector normal to the
/// plane of a flat ring, as long as twice the enclosed area, pointing to the side from which
/// the ring winds counter-clockwise.
pub open spec fn doubled_vector_area(s: Seq<IVec3>) -> (int, int, int) {
    if s.len() == 0 {
        (0, 0, 0)
    } else {
        add3(chain_sum3(s), cross3(s.last(), s[0]))
    }
}

/// Twice the vector area of a polygon: that of the exterior minus those of the holes.
pub open spec fn polygon_doubled_vector_area(p: (Seq<IVec3>, Seq<Seq<IVec3>>)) -> (
    int,
    int,
    int,
)
    decreases p.1.len(),
{
    if p.1.len() == 0 {
        doubled_vector_area(p.0)
    } else {
        sub3(polygon_doubled_vector_area((p.0, p.1.drop_last())), doubled_vector_area(p.1.last()))
    }
}

/// A triple of `i128` values as integers.
pub open spec fn triple(v: (i128, i128, i128)) -> (int, int, int) {
    (v.0 as int, v.1 as int, v.2 as int)
}

/// Every component of the triple lies within `bound` in absolute value.
pub open spec fn bounded3(v: (int, int, int), bound: int) -> bool {
    &&& -bound <= v.0 <= bound
    &&& -bound <= v.1 <= bound
    &&& -bound <= v.2 <= bound
}

fn cross3_exec(a: IVec3, b: IVec3) -> (r: (i128, i128, i128))
    ensures
        triple(r) == cross3(a, b),
        bounded3(triple(r), 0x8000_0000_0000_0000),
{
    proof {
        lemma_product_bound(a.y as int, b.z as int);
        lemma_product_bound(a.z as int, b.y as int);
        lemma_product_bound(a.z as int, b.x as int);
        lemma_product_bound(a.x as int, b.z as int);
        lemma_product_bound(a.x as int, b.y as int);
        lemma_product_bound(a.y as int, b.x as int);
    }
    let (ax, ay, az) = (a.x as i128, a.y as i128, a.z as i128);
    let (bx, by, bz) = (b.x as i128, b.y as i128, b.z as i128);
    (ay * bz - az * by, az * bx - ax * bz, ax * by - ay * bx)
}

/// Twice the vector area of the ring through the given points, computed exactly.
pub fn points_doubled_vector_area(s: &[IVec3]) -> (r: (i128, i128, i128))
    ensures
        triple(r) == doubled_vector_area(s@),
        bounded3(triple(r), (s@.len() as int) * 0x8000_0000_0000_0000),
{
    let n = s.len();
    if n == 0 {
        return (0, 0, 0);
    }
    let mut acc: (i128, i128, i128) = (0, 0, 0);
    let mut i: usize = 1;
    while i < n
        invariant
            n == s@.len(),
            1 <= i <= n,
            triple(acc) == chain_sum3(s@.take(i as int)),
            bounded3(triple(acc), (i - 1) * 0x8000_0000_0000_0000),
        decreases n - i,
    {
        let c = cross3_exec(s[i - 1], s[i]);
        proof {
            let t = s@.take(i + 1);
            assert(t.drop_last() =~= s@.take(i as int));
            assert(i * 0x8000_0000_0000_0000 < 0x7fff_ffff_ffff_ffff_ffff_ffff_ffff_ffff) by (
            nonlinear_arith)
                requires
                    i < 0x1_0000_0000_0000_0000,
            ;
        }
        acc = (acc.0 + c.0, acc.1 + c.1, acc.2 + c.2);
        i = i + 1;
    }
    let c = cross3_exec(s[n - 1], s[0]);
    proof {
        assert(s@.take(n as int) =~= s@);
        assert((n as int) * 0x8000_0000_0000_0000 < 0x7fff_ffff_ffff_ffff_ffff_ffff_ffff_ffff) by (
        nonlinear_arith)
            requires
                n < 0x1_0000_0000_0000_0000,
        ;
    }
    (acc.0 + c.0, acc.1 + c.1, acc.2 + c.2)
}

/// Generalised area in three dimensions: twice the vector area of a flat shape, exactly.
pub trait VectorArea {
    /// Whether every component of the result fits into an `i128`.
    spec fn vector_area_fits(&self) -> bool;

    /// Twice the vector area of the shape.
    spec fn doubled_vector_area_spec(&self) -> (int, int, int);

    fn doubled_vector_area(&self) -> (r: (i128, i128, i128))
        requires
            self.vector_area_fits(),
        ensures
            triple(r) == self.doubled_vector_area_spec(),
    ;
}

impl VectorArea for Ring<IVec3> {
    open spec fn vector_area_fits(&self) -> bool {
        true
    }

    open spec fn doubled_vector_area_spec(&self) -> (int, int, int) {
        doubled_vector_area(self@)
    }

    fn doubled_vector_area(&self) -> (r: (i128, i128, i128)) {
        points_doubled_vector_area(self.points_open())
    }
}

impl VectorArea for Triangle<IVec3> {
    open spec fn vector_area_fits(&self) -> bool {
        true
    }

    open spec fn doubled_vector_area_spec(&self) -> (int, int, int) {
        doubled_vector_area(self@)
    }

    fn doubled_vector_area(&self) -> (r: (i128, i128, i128)) {
        let pts: [IVec3; 3] = self.0;
        let r = points_doubled_vector_area(&pts);
        assert(pts@ =~= self@);
        r
    }
}

/// Every partial difference that `polygon_doubled_vector_area` builds fits into an `i128`.
pub open spec fn polygon_vector_area_fits(p: (Seq<IVec3>, Seq<Seq<IVec3>>)) -> bool {
    forall|i: int|
        0 <= i <= p.1.len() ==> bounded3(
            #[trigger] polygon_doubled_vector_area((p.0, p.1.take(i))),
            0x7fff_ffff_ffff_ffff_ffff_ffff_ffff_ffff,
        )
}

impl VectorArea for Polygon<IVec3> {
    open spec fn vector_area_fits(&self) -> bool {
        polygon_vector_area_fits(self@)
    }

    open spec fn doubled_vector_area_spec(&self) -> (int, int, int) {
        polygon_doubled_vector_area(self@)
    }

    fn doubled_vector_area(&self) -> (r: (i128, i128, i128)) {
        let mut acc = self.0.doubled_vector_area();
        let n = self.1.0.len();
        let mut i: usize = 0;
        proof {
            assert(self@.1.take(0) =~= Seq::<Seq<IVec3>>::empty());
        }
        while i < n
            invariant
                n == self@.1.len(),
                i <= n,
                polygon_vector_area_fits(self@),
                triple(acc) == polygon_doubled_vector_area((self@.0, self@.1.take(i as int))),
            decreases n - i,
        {
            let h = self.1.0[i].doubled_vector_area();
            proof {
                let t = self@.1.take(i + 1);
                assert(t.drop_last() =~= self@.1.take(i as int));
                assert(t.last() == self@.1[i as int]);
                assert(bounded3(
                    polygon_doubled_vector_area((self@.0, self@.1.take(i + 1))),
                    0x7fff_ffff_ffff_ffff_ffff_ffff_ffff_ffff,
                ));
            }
            acc = (acc.0 - h.0, acc.1 - h.1, acc.2 - h.2);
            i = i + 1;
        }
        assert(self@.1.take(n as int) =~= self@.1);
        acc
    }
}

/// The negation of an integer triple.
pub open spec fn neg3(a: (int, int, int)) -> (int, int, int) {
    (-a.0, -a.1, -a.2)
}

proof fn lemma_cross3_antisymmetric(a: IVec3, b: IVec3)
    ensures
        cross3(b, a) == neg3(cross3(a, b)),
{
    assert((b.y as int) * (a.z as int) == (a.z as int) * (b.y as int)) by (nonlinear_arith);
    assert((b.z as int) * (a.y as int) == (a.y as int) * (b.z as int)) by (nonlinear_arith);
    assert((b.z as int) * (a.x as int) == (a.x as int) * (b.z as int)) by (nonlinear_arith);
    assert((b.x as int) * (a.z as int) == (a.z as int) * (b.x as int)) by (nonlinear_arith);
    assert((b.x as int) * (a.y as int) == (a.y as int) * (b.x as int)) by (nonlinear_arith);
    assert((b.y as int) * (a.x as int) == (a.x as int) * (b.y as int)) by (nonlinear_arith);
}

proof fn lemma_chain_sum3_front(s: Seq<IVec3>)
    requires
        s.len() >= 2,
    ensures
        chain_sum3(s) == add3(cross3(s[0], s[1]), chain_sum3(s.drop_first())),
    decreases s.len(),
{
    if s.len() > 2 {
        lemma_chain_sum3_front(s.drop_last());
        let t = s.drop_first();
        assert(s.drop_last().drop_first() =~= t.drop_last());
        assert(t[t.len() - 2] == s[s.len() - 2]);
        assert(t.last() == s.last());
        assert(s.drop_last()[0] == s[0] && s.drop_last()[1] == s[1]);
    } else {
        assert(s.drop_first().len() == 1);
        assert(s.drop_last().len() == 1);
        assert(chain_sum3(s.drop_first()) == (0int, 0int, 0int));
        assert(chain_sum3(s.drop_last()) == (0int, 0int, 0int));
    }
}

proof fn lemma_chain_sum3_reverse(s: Seq<IVec3>)
    ensures
        chain_sum3(s.reverse()) == neg3(chain_sum3(s)),
    decreases s.len(),
{
    if s.len() >= 2 {
        let t = s.drop_first();
        lemma_chain_sum3_reverse(t);
        let r = s.reverse();
        assert(r.drop_last() =~= t.reverse());
        assert(r[r.len() - 2] == s[1]);
        assert(r.last() == s[0]);
        lemma_chain_sum3_front(s);
        lemma_cross3_antisymmetric(s[0], s[1]);
    } else if s.len() == 1 {
        assert(s.reverse().len() == 1);
    }
}

/// Flipping the winding of a ring negates its vector area.
pub proof fn lemma_vector_area_reverse(s: Seq<IVec3>)
    ensures
        doubled_vector_area(s.reverse()) == neg3(doubled_vector_area(s)),
{
    if s.len() > 0 {
        lemma_chain_sum3_reverse(s);
        let r = s.reverse();
        assert(r.last() == s[0]);
        assert(r[0] == s.last());
        lemma_cross3_antisymmetric(s.last(), s[0]);
    } else {
        assert(s.reverse().len() == 0);
    }
}

/// The points of space in the plane `z = 0` above the given points of the plane.
pub open spec fn lift(s: Seq<IVec2>) -> Seq<IVec3> {
    s.map_values(|p: IVec2| IVec3 { x: p.x, y: p.y, z: 0 })
}

proof fn lemma_chain_sum3_lift(s: Seq<IVec2>)
    ensures
        chain_sum3(lift(s)) == (0int, 0int, chain_sum(s)),
    decreases s.len(),
{
    if s.len() > 1 {
        lemma_chain_sum3_lift(s.drop_last());
        assert(lift(s).drop_last() =~= lift(s.drop_last()));
        let (a, b) = (s[s.len() - 2], s.last());
        assert(cross3(lift(s)[s.len() - 2], lift(s).last()) == (0int, 0int, wedge(a, b)));
    }
}

/// In the plane `z = 0` the vector area points along the `z` axis and its length is the signed
/// area of two dimensions: both agree on every ring.
pub proof fn lemma_vector_area_of_flat_ring(s: Seq<IVec2>)
    ensures
        doubled_vector_area(lift(s)) == (0int, 0int, doubled_area(s)),
{
    lemma_chain_sum3_lift(s);
    if s.len() > 0 {
        assert(cross3(lift(s).last(), lift(s)[0]) == (0int, 0int, wedge(s.last(), s[0])));
    }
}

} // verus!

use vstd::prelude::*;

use crate::point::{lemma_product_bound, IVec2};
use crate::primitives::{MultiPolygon, MultiRing, Polygon, Ring, Triangle};

verus! {

/// The wedge (perp-dot) product `a.x * b.y - a.y * b.x`.
pub open spec fn wedge(a: IVec2, b: IVec2) -> int {
    a.x * b.y - a.y * b.x
}

/// Sum of the wedge products of consecutive points, without the closing pair.
pub open spec fn chain_sum(s: Seq<IVec2>) -> int
    decreases s.len(),
{
    if s.len() <= 1 {
        0
    } else {
        chain_sum(s.drop_last()) + wedge(s[s.len() - 2], s.last())
    }
}

/// Twice the signed area enclosed by the closed polygonal chain through `s` (shoelace
/// formula): positive for counter-clockwise winding, negative for clockwise winding.
pub open spec fn doubled_area(s: Seq<IVec2>) -> int {
    if s.len() == 0 {
        0
    } else {
        chain_sum(s) + wedge(s.last(), s[0])
    }
}

/// Sum of the doubled areas of several rings.
pub open spec fn rings_doubled_area(rings: Seq<Seq<IVec2>>) -> int
    decreases rings.len(),
{
    if rings.len() == 0 {
        0
    } else {
        rings_doubled_area(rings.drop_last()) + doubled_area(rings.last())
    }
}

/// Twice the area of a polygon: that of the exterior minus those of the holes.
pub open spec fn polygon_doubled_area(p: (Seq<IVec2>, Seq<Seq<IVec2>>)) -> int {
    doubled_area(p.0) - rings_doubled_area(p.1)
}

/// Sum of the doubled areas of several polygons.
pub open spec fn polygons_doubled_area(ps: Seq<(Seq<IVec2>, Seq<Seq<IVec2>>)>) -> int
    decreases ps.len(),
{
    if ps.len() == 0 {
        0
    } else {
        polygons_doubled_area(ps.drop_last()) + polygon_doubled_area(ps.last())
    }
}

/// The sign of the doubled area: 1 for counter-clockwise, -1 for clockwise winding and 0
/// for degenerate rings.
pub open spec fn winding_sign(s: Seq<IVec2>) -> int {
    if doubled_area(s) > 0 {
        1
    } else if doubled_area(s) < 0 {
        -1
    } else {
        0
    }
}

/// Bounds a single wedge product of two points with `i32` coordinates.
pub proof fn lemma_wedge_bound(a: IVec2, b: IVec2)
    ensures
        -0x8000_0000_0000_0000 <= wedge(a, b) <= 0x8000_0000_0000_0000,
{
    let (ax, ay, bx, by) = (a.x as int, a.y as int, b.x as int, b.y as int);
    assert(-0x4000_0000_0000_0000 <= ax * by <= 0x4000_0000_0000_0000) by (nonlinear_arith)
        requires
            -0x8000_0000 <= ax <= 0x7fff_ffff,
            -0x8000_0000 <= by <= 0x7fff_ffff,
    ;
    assert(-0x4000_0000_0000_0000 <= ay * bx <= 0x4000_0000_0000_0000) by (nonlinear_arith)
        requires
            -0x8000_0000 <= ay <= 0x7fff_ffff,
            -0x8000_0000 <= bx <= 0x7fff_ffff,
    ;
}

/// The wedge product is antisymmetric.
pub proof fn lemma_wedge_antisymmetric(a: IVec2, b: IVec2)
    ensures
        wedge(b, a) == -wedge(a, b),
{
    assert((b.x as int) * (a.y as int) == (a.y as int) * (b.x as int)) by (nonlinear_arith);
    assert((b.y as int) * (a.x as int) == (a.x as int) * (b.y as int)) by (nonlinear_arith);
}

/// The chain sum can be split off at the front.
pub proof fn lemma_chain_sum_front(s: Seq<IVec2>)
    requires
        s.len() >= 2,
    ensures
        chain_sum(s) == wedge(s[0], s[1]) + chain_sum(s.drop_first()),
    decreases s.len(),
{
    if s.len() > 2 {
        lemma_chain_sum_front(s.drop_last());
        let t = s.drop_first();
        assert(s.drop_last().drop_first() =~= t.drop_last());
        assert(t[t.len() - 2] == s[s.len() - 2]);
        assert(t.last() == s.last());
        assert(chain_sum(t) == chain_sum(t.drop_last()) + wedge(t[t.len() - 2], t.last()));
        assert(s.drop_last()[0] == s[0] && s.drop_last()[1] == s[1]);
        assert(chain_sum(s) == chain_sum(s.drop_last()) + wedge(s[s.len() - 2], s.last()));
    } else {
        assert(s.drop_first().len() == 1);
        assert(s.drop_last().len() == 1);
        assert(chain_sum(s.drop_first()) == 0);
        assert(chain_sum(s.drop_last()) == 0);
        assert(chain_sum(s) == chain_sum(s.drop_last()) + wedge(s[0], s[1]));
    }
}

/// Reversing the chain negates its sum.
pub proof fn lemma_chain_sum_reverse(s: Seq<IVec2>)
    ensures
        chain_sum(s.reverse()) == -chain_sum(s),
    decreases s.len(),
{
    if s.len() >= 2 {
        let t = s.drop_first();
        lemma_chain_sum_reverse(t);
        let r = s.reverse();
        assert(r.drop_last() =~= t.reverse());
        assert(r[r.len() - 2] == s[1]);
        assert(r.last() == s[0]);
        lemma_chain_sum_front(s);
        lemma_wedge_antisymmetric(s[0], s[1]);
    } else if s.len() == 1 {
        assert(s.reverse().len() == 1);
    }
}

/// Flipping the winding of a ring negates its signed area.
pub proof fn lemma_doubled_area_reverse(s: Seq<IVec2>)
    ensures
        doubled_area(s.reverse()) == -doubled_area(s),
{
    if s.len() > 0 {
        lemma_chain_sum_reverse(s);
        let r = s.reverse();
        assert(r.last() == s[0]);
        assert(r[0] == s.last());
        lemma_wedge_antisymmetric(s.last(), s[0]);
    }
}

/// The wedge product of two points, computed exactly.
fn wedge_exec(a: IVec2, b: IVec2) -> (r: i128)
    ensures
        r == wedge(a, b),
{
    proof {
        lemma_product_bound(a.x as int, b.y as int);
        lemma_product_bound(a.y as int, b.x as int);
    }
    (a.x as i128) * (b.y as i128) - (a.y as i128) * (b.x as i128)
}

/// Twice the signed area of the ring through the given points, computed exactly.
pub fn points_doubled_area(s: &[IVec2]) -> (r: i128)
    ensures
        r == doubled_area(s@),
{
    let n = s.len();
    if n == 0 {
        return 0;
    }
    let mut acc: i128 = 0;
    let mut i: usize = 1;
    while i < n
        invariant
            n == s@.len(),
            1 <= i <= n,
            acc == chain_sum(s@.take(i as int)),
            -(i - 1) * 0x8000_0000_0000_0000 <= acc <= (i - 1) * 0x8000_0000_0000_0000,
        decreases n - i,
    {
        let w = wedge_exec(s[i - 1], s[i]);
        proof {
            lemma_wedge_bound(s@[i - 1], s@[i as int]);
            let t = s@.take(i + 1);
            assert(t.drop_last() =~= s@.take(i as int));
            assert(i * 0x8000_0000_0000_0000 < 0x7fff_ffff_ffff_ffff_ffff_ffff_ffff_ffff) by (
            nonlinear_arith)
                requires
                    i < 0x1_0000_0000_0000_0000,
            ;
        }
        acc = acc + w;
        i = i + 1;
    }
    let w = wedge_exec(s[n - 1], s[0]);
    proof {
        lemma_wedge_bound(s@[n - 1], s@[0]);
        assert(s@.take(n as int) =~= s@);
        assert((n as int) * 0x8000_0000_0000_0000 < 0x7fff_ffff_ffff_ffff_ffff_ffff_ffff_ffff) by (
        nonlinear_arith)
            requires
                n < 0x1_0000_0000_0000_0000,
        ;
    }
    acc + w
}

/// Generalised area: in two dimensions, twice the signed area of the shape (doubled so that
/// it stays an integer); positive for counter-clockwise winding.
pub trait Area {
    /// Whether the doubled area of the shape fits into an `i128`.
    spec fn area_fits(&self) -> bool;

    fn doubled_area(&self) -> i128
        requires
            self.area_fits(),
    ;
}

/// Whether an integer fits into an `i128`.
pub open spec fn fits_i128(v: int) -> bool {
    -0x8000_0000_0000_0000_0000_0000_0000_0000 <= v <= 0x7fff_ffff_ffff_ffff_ffff_ffff_ffff_ffff
}

/// Partial sums of ring areas stay within the bounds of the full sum's parts.
pub open spec fn rings_area_fits(rings: Seq<Seq<IVec2>>) -> bool {
    forall|i: int| 0 <= i <= rings.len() ==> fits_i128(#[trigger] rings_doubled_area(rings.take(i)))
}

/// Partial sums of polygon areas stay within `i128`, and so does every polygon's area.
pub open spec fn polygons_area_fits(ps: Seq<(Seq<IVec2>, Seq<Seq<IVec2>>)>) -> bool {
    &&& forall|i: int|
        0 <= i <= ps.len() ==> fits_i128(#[trigger] polygons_doubled_area(ps.take(i)))
    &&& forall|i: int|
        0 <= i < ps.len() ==> rings_area_fits((#[trigger] ps[i]).1) && fits_i128(
            polygon_doubled_area(ps[i]),
        )
}

impl Area for Triangle<IVec2> {
    open spec fn area_fits(&self) -> bool {
        true
    }

    fn doubled_area(&self) -> (r: i128)
        ensures
            r == doubled_area(self@),
    {
        let v = [self.0[0], self.0[1], self.0[2]];
        assert(v@ =~= self@);
        points_doubled_area(&v)
    }
}

impl Area for Ring<IVec2> {
    open spec fn area_fits(&self) -> bool {
        true
    }

    fn doubled_area(&self) -> (r: i128)
        ensures
            r == doubled_area(self@),
    {
        points_doubled_area(self.points_open())
    }
}

impl Area for MultiRing<IVec2> {
    open spec fn area_fits(&self) -> bool {
        rings_area_fits(self@)
    }

    fn doubled_area(&self) -> (r: i128)
        ensures
            r == rings_doubled_area(self@),
    {
        let n = self.0.len();
        let mut acc: i128 = 0;
        let mut i: usize = 0;
        while i < n
            invariant
                n == self@.len(),
                i <= n,
                rings_area_fits(self@),
                acc == rings_doubled_area(self@.take(i as int)),
            decreases n - i,
        {
            let a = self.0[i].doubled_area();
            proof {
                let t = self@.take(i + 1);
                assert(t.drop_last() =~= self@.take(i as int));
                assert(fits_i128(rings_doubled_area(self@.take(i + 1))));
            }
            acc = acc + a;
            i = i + 1;
        }
        assert(self@.take(n as int) =~= self@);
        acc
    }
}

impl Area for Polygon<IVec2> {
    open spec fn area_fits(&self) -> bool {
        rings_area_fits(self.1@) && fits_i128(polygon_doubled_area(self@))
    }

    fn doubled_area(&self) -> (r: i128)
        ensures
            r == polygon_doubled_area(self@),
    {
        let e = self.exterior().doubled_area();
        let h = self.interior().doubled_area();
        e - h
    }
}

impl Area for MultiPolygon<IVec2> {
    open spec fn area_fits(&self) -> bool {
        polygons_area_fits(self@)
    }

    fn doubled_area(&self) -> (r: i128)
        ensures
            r == polygons_doubled_area(self@),
    {
        let n = self.0.len();
        let mut acc: i128 = 0;
        let mut i: usize = 0;
        while i < n
            invariant
                n == self@.len(),
                i <= n,
                polygons_area_fits(self@),
                acc == polygons_doubled_area(self@.take(i as int)),
            decreases n - i,
        {
            assert(rings_area_fits(self@[i as int].1));
            let a = self.0[i].doubled_area();
            proof {
                let t = self@.take(i + 1);
                assert(t.drop_last() =~= self@.take(i as int));
                assert(fits_i128(polygons_doubled_area(self@.take(i + 1))));
            }
            acc = acc + a;
            i = i + 1;
        }
        assert(self@.take(n as int) =~= self@);
        acc
    }
}

/// Generalised normal: in two dimensions the sign of the winding, 1 for counter-clockwise,
/// -1 for clockwise and 0 for degenerate rings.
pub trait Normal {
    fn normal(&self) -> i128;
}

impl Normal for Ring<IVec2> {
    fn normal(&self) -> (r: i128)
        ensures
            r == winding_sign(self@),
    {
        let a = self.doubled_area();
        if a > 0 {
            1
        } else if a < 0 {
            -1
        } else {
            0
        }
    }
}

impl Normal for Triangle<IVec2> {
    fn normal(&self) -> (r: i128)
        ensures
            r == winding_sign(self@),
    {
        let a = self.doubled_area();
        if a > 0 {
            1
        } else if a < 0 {
            -1
        } else {
            0
        }
    }
}

} // verus!

use vstd::prelude::*;

use super::area::{doubled_area, fits_i128, lemma_doubled_area_reverse, winding_sign, Normal};
use super::vector_area::{doubled_vector_area, lemma_vector_area_reverse, neg3, VectorArea};
use super::flip::{flip_polygon, Flip};
use crate::point::{IVec2, IVec3};
use crate::primitives::{MultiPolygon, MultiRing, Polygon, Ring};
use crate::seqs::{lemma_map_push, lemma_reverse_reverse};

verus! {

/// The exterior ring oriented along `direction`: kept when its winding sign agrees with the
/// direction (or is zero), flipped otherwise.
pub open spec fn orient_exterior(s: Seq<IVec2>, direction: i64) -> Seq<IVec2> {
    if winding_sign(s) * direction >= 0 {
        s
    } else {
        s.reverse()
    }
}

/// A hole oriented against `direction`: flipped when its winding sign agrees with the
/// direction (or is zero), kept otherwise.
pub open spec fn orient_interior(s: Seq<IVec2>, direction: i64) -> Seq<IVec2> {
    if winding_sign(s) * direction >= 0 {
        s.reverse()
    } else {
        s
    }
}

/// A polygon with its exterior along and its holes against `direction`.
pub open spec fn orient_polygon(p: (Seq<IVec2>, Seq<Seq<IVec2>>), direction: i64) -> (
    Seq<IVec2>,
    Seq<Seq<IVec2>>,
) {
    (orient_exterior(p.0, direction), p.1.map_values(|s: Seq<IVec2>| orient_interior(s, direction)))
}

/// Orients the rings of a primitive with respect to a winding direction: the exterior winds
/// along it and the holes against it.
pub trait Orient: Sized {
    /// In two dimensions the sign of a winding, in three a vector.
    type Direction;

    /// Whether the exact arithmetic of orienting along `direction` stays within `i128`.
    spec fn orient_fits(&self, direction: Self::Direction) -> bool;

    fn orient(&self, direction: Self::Direction) -> Self
        requires
            self.orient_fits(direction),
    ;
}

/// Orients two dimensional primitives: exteriors counter-clockwise and holes clockwise by
/// default, or the other way round.
pub trait Orient2d: Orient {
    fn orient_default(&self) -> Self;

    fn orient_reversed(&self) -> Self;
}

fn ring_along(ring: &Ring<IVec2>, direction: i64) -> (r: bool)
    ensures
        r == (winding_sign(ring@) * direction >= 0),
{
    let n = ring.normal();
    (n as i128) * (direction as i128) >= 0
}

impl Orient for Polygon<IVec2> {
    type Direction = i64;

    open spec fn orient_fits(&self, direction: i64) -> bool {
        true
    }

    fn orient(&self, direction: i64) -> (r: Self)
        ensures
            r@ == orient_polygon(self@, direction),
    {
        let exterior = if ring_along(self.exterior(), direction) {
            self.exterior().clone()
        } else {
            self.exterior().flip()
        };
        let mut v: Vec<Ring<IVec2>> = Vec::new();
        let n = self.1.0.len();
        let mut i: usize = 0;
        let ghost f = |s: Seq<IVec2>| orient_interior(s, direction);
        while i < n
            invariant
                n == self.1@.len(),
                i <= n,
                f == (|s: Seq<IVec2>| orient_interior(s, direction)),
                v@.map_values(|l: Ring<IVec2>| l@) == self.1@.take(i as int).map_values(f),
            decreases n - i,
        {
            let ring = &self.1.0[i];
            let c = if ring_along(ring, direction) {
                ring.flip()
            } else {
                ring.clone()
            };
            proof {
                lemma_map_push(v@, c, |l: Ring<IVec2>| l@);
                lemma_map_push(self.1@.take(i as int), self.1.0@[i as int]@, f);
                assert(self.1@.take(i + 1) =~= self.1@.take(i as int).push(self.1.0@[i as int]@));
            }
            v.push(c);
            i = i + 1;
        }
        assert(self.1@.take(n as int) =~= self.1@);
        Polygon(exterior, MultiRing(v))
    }
}

impl Orient for MultiPolygon<IVec2> {
    type Direction = i64;

    open spec fn orient_fits(&self, direction: i64) -> bool {
        true
    }

    fn orient(&self, direction: i64) -> (r: Self)
        ensures
            r@ == self@.map_values(
                |p: (Seq<IVec2>, Seq<Seq<IVec2>>)| orient_polygon(p, direction),
            ),
    {
        let mut v: Vec<Polygon<IVec2>> = Vec::new();
        let n = self.0.len();
        let mut i: usize = 0;
        let ghost f = |p: (Seq<IVec2>, Seq<Seq<IVec2>>)| orient_polygon(p, direction);
        while i < n
            invariant
                n == self@.len(),
                i <= n,
                f == (|p: (Seq<IVec2>, Seq<Seq<IVec2>>)| orient_polygon(p, direction)),
                v@.map_values(|p: Polygon<IVec2>| p@) == self@.take(i as int).map_values(f),
            decreases n - i,
        {
            let c = self.0[i].orient(direction);
            proof {
                lemma_map_push(v@, c, |p: Polygon<IVec2>| p@);
                lemma_map_push(self@.take(i as int), self.0@[i as int]@, f);
                assert(self@.take(i + 1) =~= self@.take(i as int).push(self.0@[i as int]@));
            }
            v.push(c);
            i = i + 1;
        }
        assert(self@.take(n as int) =~= self@);
        MultiPolygon(v)
    }
}

impl Orient2d for Polygon<IVec2> {
    fn orient_default(&self) -> (r: Self)
        ensures
            r@ == orient_polygon(self@, 1i64),
    {
        self.orient(1)
    }

    fn orient_reversed(&self) -> (r: Self)
        ensures
            r@ == orient_polygon(self@, -1i64),
    {
        self.orient(-1)
    }
}

impl Orient2d for MultiPolygon<IVec2> {
    fn orient_default(&self) -> (r: Self)
        ensures
            r@ == self@.map_values(|p: (Seq<IVec2>, Seq<Seq<IVec2>>)| orient_polygon(p, 1i64)),
    {
        self.orient(1)
    }

    fn orient_reversed(&self) -> (r: Self)
        ensures
            r@ == self@.map_values(|p: (Seq<IVec2>, Seq<Seq<IVec2>>)| orient_polygon(p, -1i64)),
    {
        self.orient(-1)
    }
}

/// After orienting along a direction, the exterior winds along it (or is degenerate) and
/// every hole winds against it (or is degenerate): with the default direction the exterior
/// has a non-negative and every hole a non-positive signed area.
pub proof fn lemma_orient_windings(p: (Seq<IVec2>, Seq<Seq<IVec2>>), direction: i64)
    requires
        direction == 1 || direction == -1,
    ensures
        doubled_area(orient_polygon(p, direction).0) * direction >= 0,
        forall|i: int|
            0 <= i < p.1.len() ==> doubled_area(#[trigger] orient_polygon(p, direction).1[i])
                * direction <= 0,
{
    lemma_doubled_area_reverse(p.0);
    assert forall|i: int| 0 <= i < p.1.len() implies doubled_area(
        #[trigger] orient_polygon(p, direction).1[i],
    ) * direction <= 0 by {
        lemma_doubled_area_reverse(p.1[i]);
    }
}

/// Whether two primitives share the same winding orientation.
pub trait Orientation {
    fn orient_tolerance(&self, other: &Self, tolerance: u32) -> bool;

    fn orient(&self, other: &Self) -> bool;
}

impl Orientation for Ring<IVec2> {
    /// In two dimensions the winding sign is exact, so the tolerance is not needed.
    fn orient_tolerance(&self, other: &Self, tolerance: u32) -> (r: bool)
        ensures
            r == (winding_sign(self@) == winding_sign(other@)),
    {
        Orientation::orient(self, other)
    }

    fn orient(&self, other: &Self) -> (r: bool)
        ensures
            r == (winding_sign(self@) == winding_sign(other@)),
    {
        self.normal() == other.normal()
    }
}

/// The dot product of an integer triple with a direction.
pub open spec fn dot3(a: (int, int, int), d: (i32, i32, i32)) -> int {
    a.0 * d.0 + a.1 * d.1 + a.2 * d.2
}

/// Every product and partial sum of `dot3(a, d)` fits into an `i128`.
pub open spec fn dot3_fits(a: (int, int, int), d: (i32, i32, i32)) -> bool {
    &&& fits_i128(a.0 * d.0)
    &&& fits_i128(a.1 * d.1)
    &&& fits_i128(a.2 * d.2)
    &&& fits_i128(a.0 * d.0 + a.1 * d.1)
    &&& fits_i128(dot3(a, d))
}

/// A ring of space oriented along `direction`: kept when its vector area points along the
/// direction (or is orthogonal to it), flipped otherwise.
pub open spec fn orient_exterior3(s: Seq<IVec3>, direction: (i32, i32, i32)) -> Seq<IVec3> {
    if dot3(doubled_vector_area(s), direction) >= 0 {
        s
    } else {
        s.reverse()
    }
}

/// A hole of space oriented against `direction`.
pub open spec fn orient_interior3(s: Seq<IVec3>, direction: (i32, i32, i32)) -> Seq<IVec3> {
    if dot3(doubled_vector_area(s), direction) >= 0 {
        s.reverse()
    } else {
        s
    }
}

/// A polygon of space with its exterior along and its holes against `direction`.
pub open spec fn orient_polygon3(p: (Seq<IVec3>, Seq<Seq<IVec3>>), direction: (i32, i32, i32)) -> (
    Seq<IVec3>,
    Seq<Seq<IVec3>>,
) {
    (
        orient_exterior3(p.0, direction),
        p.1.map_values(|s: Seq<IVec3>| orient_interior3(s, direction)),
    )
}

/// The dot products that orienting the polygon along `direction` computes fit into `i128`.
pub open spec fn orient3_fits(p: (Seq<IVec3>, Seq<Seq<IVec3>>), direction: (i32, i32, i32)) -> bool {
    &&& dot3_fits(doubled_vector_area(p.0), direction)
    &&& forall|i: int|
        0 <= i < p.1.len() ==> dot3_fits(doubled_vector_area(#[trigger] p.1[i]), direction)
}

fn ring_along3(ring: &Ring<IVec3>, direction: (i32, i32, i32)) -> (r: bool)
    requires
        dot3_fits(doubled_vector_area(ring@), direction),
    ensures
        r == (dot3(doubled_vector_area(ring@), direction) >= 0),
{
    let a = ring.doubled_vector_area();
    let x = a.0 * (direction.0 as i128);
    let y = a.1 * (direction.1 as i128);
    let z = a.2 * (direction.2 as i128);
    x + y + z >= 0
}

impl Orient for Polygon<IVec3> {
    type Direction = (i32, i32, i32);

    open spec fn orient_fits(&self, direction: (i32, i32, i32)) -> bool {
        orient3_fits(self@, direction)
    }

    fn orient(&self, direction: (i32, i32, i32)) -> (r: Self)
        ensures
            r@ == orient_polygon3(self@, direction),
    {
        let exterior = if ring_along3(self.exterior(), direction) {
            self.exterior().clone()
        } else {
            self.exterior().flip()
        };
        let mut v: Vec<Ring<IVec3>> = Vec::new();
        let n = self.1.0.len();
        let mut i: usize = 0;
        let ghost f = |s: Seq<IVec3>| orient_interior3(s, direction);
        while i < n
            invariant
                n == self.1@.len(),
                i <= n,
                orient3_fits(self@, direction),
                f == (|s: Seq<IVec3>| orient_interior3(s, direction)),
                v@.map_values(|l: Ring<IVec3>| l@) == self.1@.take(i as int).map_values(f),
            decreases n - i,
        {
            let ring = &self.1.0[i];
            assert(ring@ == self@.1[i as int]);
            let c = if ring_along3(ring, direction) {
                ring.flip()
            } else {
                ring.clone()
            };
            proof {
                lemma_map_push(v@, c, |l: Ring<IVec3>| l@);
                lemma_map_push(self.1@.take(i as int), self.1.0@[i as int]@, f);
                assert(self.1@.take(i + 1) =~= self.1@.take(i as int).push(self.1.0@[i as int]@));
            }
            v.push(c);
            i = i + 1;
        }
        assert(self.1@.take(n as int) =~= self.1@);
        Polygon(exterior, MultiRing(v))
    }
}

/// Orienting a polygon of space along a direction makes its exterior's vector area point
/// along the direction (or be orthogonal to it) and every hole's point against it.
pub proof fn lemma_orient3_windings(p: (Seq<IVec3>, Seq<Seq<IVec3>>), direction: (i32, i32, i32))
    ensures
        dot3(doubled_vector_area(orient_polygon3(p, direction).0), direction) >= 0,
        forall|i: int|
            0 <= i < p.1.len() ==> dot3(
                doubled_vector_area(#[trigger] orient_polygon3(p, direction).1[i]),
                direction,
            ) <= 0,
{
    lemma_vector_area_reverse(p.0);
    lemma_dot3_neg(doubled_vector_area(p.0), direction);
    assert forall|i: int| 0 <= i < p.1.len() implies dot3(
        doubled_vector_area(#[trigger] orient_polygon3(p, direction).1[i]),
        direction,
    ) <= 0 by {
        lemma_vector_area_reverse(p.1[i]);
        lemma_dot3_neg(doubled_vector_area(p.1[i]), direction);
    }
}

proof fn lemma_dot3_neg(a: (int, int, int), d: (i32, i32, i32))
    ensures
        dot3(neg3(a), d) == -dot3(a, d),
{
    assert((-a.0) * d.0 + (-a.1) * d.1 + (-a.2) * d.2 == -(a.0 * d.0 + a.1 * d.1 + a.2 * d.2))
        by (nonlinear_arith);
}

/// Every hole of the polygon encloses a non-zero signed area.
pub open spec fn holes_nondegenerate(p: (Seq<IVec2>, Seq<Seq<IVec2>>)) -> bool {
    forall|i: int| 0 <= i < p.1.len() ==> doubled_area(#[trigger] p.1[i]) != 0
}

/// Orienting twice along the same direction changes nothing more, as long as no hole is
/// degenerate (a hole of zero area is flipped on every call).
pub proof fn lemma_orient_idempotent(p: (Seq<IVec2>, Seq<Seq<IVec2>>), direction: i64)
    requires
        direction == 1 || direction == -1,
        holes_nondegenerate(p),
    ensures
        orient_polygon(orient_polygon(p, direction), direction) == orient_polygon(p, direction),
{
    let q = orient_polygon(p, direction);
    lemma_doubled_area_reverse(p.0);
    assert forall|i: int| 0 <= i < p.1.len() implies #[trigger] orient_interior(
        q.1[i],
        direction,
    ) == q.1[i] by {
        lemma_doubled_area_reverse(p.1[i]);
    }
    assert(orient_polygon(q, direction).1 =~= q.1);
}

/// Orienting forgets the winding that a polygon had: a flipped polygon is oriented into the
/// same polygon, as long as none of its rings is degenerate.
pub proof fn lemma_orient_forgets_flip(p: (Seq<IVec2>, Seq<Seq<IVec2>>), direction: i64)
    requires
        direction == 1 || direction == -1,
        doubled_area(p.0) != 0,
        holes_nondegenerate(p),
    ensures
        orient_polygon(flip_polygon(p), direction) == orient_polygon(p, direction),
{
    let f = flip_polygon(p);
    lemma_doubled_area_reverse(p.0);
    lemma_reverse_reverse(p.0);
    assert forall|i: int| 0 <= i < p.1.len() implies #[trigger] orient_interior(
        f.1[i],
        direction,
    ) == orient_interior(p.1[i], direction) by {
        lemma_doubled_area_reverse(p.1[i]);
        lemma_reverse_reverse(p.1[i]);
    }
    assert(orient_polygon(f, direction).1 =~= orient_polygon(p, direction).1);
}

} // verus!

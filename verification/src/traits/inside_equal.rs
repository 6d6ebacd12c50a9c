use vstd::prelude::*;

use crate::point::{near, Point};
use crate::primitives::{MultiPolygon, MultiRing, Polygon, Ring};
use crate::seqs::lemma_mod_wrap;

verus! {

/// `a` equals `b` read cyclically from index `i` on.
pub open spec fn rotated_eq<P>(a: Seq<P>, b: Seq<P>, i: int) -> bool {
    &&& a.len() == b.len()
    &&& 0 <= i < b.len()
    &&& forall|k: int| 0 <= k < a.len() ==> #[trigger] a[k] == b[(k + i) % (b.len() as int)]
}

/// Two rings describe the same point set with the same winding: one is a rotation of the
/// other. Two empty rings are equal.
pub open spec fn ring_inside_eq<P>(a: Seq<P>, b: Seq<P>) -> bool {
    ||| (a.len() == 0 && b.len() == 0)
    ||| exists|i: int| rotated_eq(a, b, i)
}

/// `b`, read cyclically from index `i` on, stays near `a` everywhere.
pub open spec fn rotated_near<P: Point>(a: Seq<P>, b: Seq<P>, i: int, tolerance: u32) -> bool {
    &&& a.len() == b.len()
    &&& 0 <= i < b.len()
    &&& forall|k: int|
        0 <= k < a.len() ==> #[trigger] near(a[k], b[(k + i) % (b.len() as int)], tolerance)
}

/// Approximate version of `ring_inside_eq`.
pub open spec fn ring_inside_near<P: Point>(a: Seq<P>, b: Seq<P>, tolerance: u32) -> bool {
    ||| (a.len() == 0 && b.len() == 0)
    ||| exists|i: int| rotated_near(a, b, i, tolerance)
}

/// How many rings of `s` equal `r`.
pub open spec fn count_equal_rings<P>(s: Seq<Seq<P>>, r: Seq<P>) -> nat
    decreases s.len(),
{
    if s.len() == 0 {
        0
    } else {
        count_equal_rings(s.drop_last(), r) + if ring_inside_eq(s.last(), r) {
            1nat
        } else {
            0nat
        }
    }
}

/// Some ring of `b` is approximately equal to `r`.
pub open spec fn has_near_ring<P: Point>(r: Seq<P>, b: Seq<Seq<P>>, tolerance: u32) -> bool {
    exists|j: int| 0 <= j < b.len() && ring_inside_near(r, #[trigger] b[j], tolerance)
}

/// The rings of `a` and `b` match one to one: every ring of either collection occurs as often
/// (up to rotation) in `a` as in `b`.
pub open spec fn multi_ring_inside_eq<P>(a: Seq<Seq<P>>, b: Seq<Seq<P>>) -> bool {
    &&& a.len() == b.len()
    &&& forall|i: int|
        0 <= i < a.len() ==> count_equal_rings(a, #[trigger] a[i]) == count_equal_rings(b, a[i])
    &&& forall|j: int|
        0 <= j < b.len() ==> count_equal_rings(a, #[trigger] b[j]) == count_equal_rings(b, b[j])
}

/// Approximate version of `multi_ring_inside_eq`.
pub open spec fn multi_ring_inside_near<P: Point>(
    a: Seq<Seq<P>>,
    b: Seq<Seq<P>>,
    tolerance: u32,
) -> bool {
    &&& a.len() == b.len()
    &&& forall|i: int| 0 <= i < a.len() ==> has_near_ring(#[trigger] a[i], b, tolerance)
}

/// Exteriors equal and holes equal.
pub open spec fn polygon_inside_eq<P>(a: (Seq<P>, Seq<Seq<P>>), b: (Seq<P>, Seq<Seq<P>>)) -> bool {
    ring_inside_eq(a.0, b.0) && multi_ring_inside_eq(a.1, b.1)
}

/// Approximate version of `polygon_inside_eq`.
pub open spec fn polygon_inside_near<P: Point>(
    a: (Seq<P>, Seq<Seq<P>>),
    b: (Seq<P>, Seq<Seq<P>>),
    tolerance: u32,
) -> bool {
    ring_inside_near(a.0, b.0, tolerance) && multi_ring_inside_near(a.1, b.1, tolerance)
}

/// How many polygons of `s` equal `p`.
pub open spec fn count_equal_polygons<P>(
    s: Seq<(Seq<P>, Seq<Seq<P>>)>,
    p: (Seq<P>, Seq<Seq<P>>),
) -> nat
    decreases s.len(),
{
    if s.len() == 0 {
        0
    } else {
        count_equal_polygons(s.drop_last(), p) + if polygon_inside_eq(s.last(), p) {
            1nat
        } else {
            0nat
        }
    }
}

/// Some polygon of `b` is approximately equal to `p`.
pub open spec fn has_near_polygon<P: Point>(
    p: (Seq<P>, Seq<Seq<P>>),
    b: Seq<(Seq<P>, Seq<Seq<P>>)>,
    tolerance: u32,
) -> bool {
    exists|j: int| 0 <= j < b.len() && polygon_inside_near(p, #[trigger] b[j], tolerance)
}

/// The polygons of `a` and `b` match one to one: every polygon of either collection occurs as
/// often in `a` as in `b`.
pub open spec fn multi_polygon_inside_eq<P>(
    a: Seq<(Seq<P>, Seq<Seq<P>>)>,
    b: Seq<(Seq<P>, Seq<Seq<P>>)>,
) -> bool {
    &&& a.len() == b.len()
    &&& forall|i: int|
        0 <= i < a.len() ==> count_equal_polygons(a, #[trigger] a[i]) == count_equal_polygons(
            b,
            a[i],
        )
    &&& forall|j: int|
        0 <= j < b.len() ==> count_equal_polygons(a, #[trigger] b[j]) == count_equal_polygons(
            b,
            b[j],
        )
}

/// Approximate version of `multi_polygon_inside_eq`.
pub open spec fn multi_polygon_inside_near<P: Point>(
    a: Seq<(Seq<P>, Seq<Seq<P>>)>,
    b: Seq<(Seq<P>, Seq<Seq<P>>)>,
    tolerance: u32,
) -> bool {
    &&& a.len() == b.len()
    &&& forall|i: int| 0 <= i < a.len() ==> has_near_polygon(#[trigger] a[i], b, tolerance)
}

/// Every ring is equal to itself.
pub proof fn lemma_ring_inside_eq_reflexive<P>(a: Seq<P>)
    ensures
        ring_inside_eq(a, a),
{
    if a.len() == 0 {
        return;
    }
    assert forall|k: int| 0 <= k < a.len() implies #[trigger] a[k] == a[(k + 0) % (a.len() as int)] by {
        lemma_mod_wrap(k, a.len() as int);
    }
    assert(rotated_eq(a, a, 0));
}

/// Equality up to rotation is symmetric.
pub proof fn lemma_ring_inside_eq_symmetric<P>(a: Seq<P>, b: Seq<P>)
    requires
        ring_inside_eq(a, b),
    ensures
        ring_inside_eq(b, a),
{
    if a.len() == 0 && b.len() == 0 {
        return;
    }
    let i = choose|i: int| rotated_eq(a, b, i);
    let n = a.len() as int;
    let j = if i == 0 {
        0
    } else {
        n - i
    };
    assert forall|k: int| 0 <= k < n implies #[trigger] b[k] == a[(k + j) % n] by {
        lemma_mod_wrap(k + j, n);
        let m = (k + j) % n;
        lemma_mod_wrap(m + i, n);
        assert(a[m] == b[(m + i) % n]);
    }
    assert(rotated_eq(b, a, j));
}

/// Equality up to rotation is transitive.
pub proof fn lemma_ring_inside_eq_transitive<P>(a: Seq<P>, b: Seq<P>, c: Seq<P>)
    requires
        ring_inside_eq(a, b),
        ring_inside_eq(b, c),
    ensures
        ring_inside_eq(a, c),
{
    if b.len() == 0 {
        return;
    }
    let i = choose|i: int| rotated_eq(a, b, i);
    let j = choose|j: int| rotated_eq(b, c, j);
    let n = a.len() as int;
    lemma_mod_wrap(i + j, n);
    let l = (i + j) % n;
    assert forall|k: int| 0 <= k < n implies #[trigger] a[k] == c[(k + l) % n] by {
        lemma_mod_wrap(k + i, n);
        let m = (k + i) % n;
        lemma_mod_wrap(m + j, n);
        lemma_mod_wrap(k + l, n);
        assert(a[k] == b[m]);
        assert(b[m] == c[(m + j) % n]);
    }
    assert(rotated_eq(a, c, l));
}

/// A ring equals each of its rotations.
pub proof fn lemma_ring_inside_eq_rotation<P>(a: Seq<P>, i: int)
    requires
        0 <= i < a.len(),
    ensures
        ring_inside_eq(a.subrange(i, a.len() as int) + a.subrange(0, i), a),
{
    let n = a.len() as int;
    let b = a.subrange(i, n) + a.subrange(0, i);
    assert forall|k: int| 0 <= k < n implies #[trigger] b[k] == a[(k + i) % n] by {
        lemma_mod_wrap(k + i, n);
    }
    assert(rotated_eq(b, a, i));
}

/// Whether `b` read from index `i` on equals `a`.
fn rotation_matches<P: Point>(a: &[P], b: &[P], i: usize) -> (r: bool)
    requires
        a@.len() == b@.len(),
        i < b@.len(),
    ensures
        r == rotated_eq(a@, b@, i as int),
{
    let n = a.len();
    let mut k: usize = 0;
    while k < n
        invariant
            n == a@.len(),
            n == b@.len(),
            i < n,
            k <= n,
            forall|m: int| 0 <= m < k ==> #[trigger] a@[m] == b@[(m + i) % (n as int)],
        decreases n - k,
    {
        let j: usize = if k < n - i {
            k + i
        } else {
            k - (n - i)
        };
        proof {
            lemma_mod_wrap(k + i, n as int);
        }
        if !a[k].same(&b[j]) {
            assert(a@[k as int] != b@[(k + i) % (n as int)]);
            return false;
        }
        k = k + 1;
    }
    true
}

/// Whether `b` read from index `i` on stays near `a`.
fn rotation_near<P: Point>(a: &[P], b: &[P], i: usize, tolerance: u32) -> (r: bool)
    requires
        a@.len() == b@.len(),
        i < b@.len(),
    ensures
        r == rotated_near(a@, b@, i as int, tolerance),
{
    let n = a.len();
    let mut k: usize = 0;
    while k < n
        invariant
            n == a@.len(),
            n == b@.len(),
            i < n,
            k <= n,
            forall|m: int|
                0 <= m < k ==> #[trigger] near(a@[m], b@[(m + i) % (n as int)], tolerance),
        decreases n - k,
    {
        let j: usize = if k < n - i {
            k + i
        } else {
            k - (n - i)
        };
        proof {
            lemma_mod_wrap(k + i, n as int);
        }
        if !a[k].abs_diff_eq(b[j], tolerance) {
            assert(!near(a@[k as int], b@[(k + i) % (n as int)], tolerance));
            return false;
        }
        k = k + 1;
    }
    true
}

/// Whether the two rings are rotations of each other.
pub fn ring_points_inside_eq<P: Point>(a: &[P], b: &[P]) -> (r: bool)
    ensures
        r == ring_inside_eq(a@, b@),
{
    let n = a.len();
    if n != b.len() {
        return false;
    }
    if n == 0 {
        return true;
    }
    let mut i: usize = 0;
    while i < n
        invariant
            n == a@.len(),
            n == b@.len(),
            i <= n,
            forall|m: int| 0 <= m < i ==> !rotated_eq(a@, b@, m),
        decreases n - i,
    {
        if rotation_matches(a, b, i) {
            return true;
        }
        i = i + 1;
    }
    false
}

/// Whether the two rings are approximately rotations of each other.
pub fn ring_points_inside_near<P: Point>(a: &[P], b: &[P], tolerance: u32) -> (r: bool)
    ensures
        r == ring_inside_near(a@, b@, tolerance),
{
    let n = a.len();
    if n != b.len() {
        return false;
    }
    if n == 0 {
        return true;
    }
    let mut i: usize = 0;
    while i < n
        invariant
            n == a@.len(),
            n == b@.len(),
            i <= n,
            forall|m: int| 0 <= m < i ==> !rotated_near(a@, b@, m, tolerance),
        decreases n - i,
    {
        if rotation_near(a, b, i, tolerance) {
            return true;
        }
        i = i + 1;
    }
    false
}

/// Checks whether two primitives describe the same point sets. Opposite windings are
/// considered different.
pub trait InsideEqual {
    fn inside_eq(&self, other: &Self) -> bool;

    fn inside_abs_diff_eq(&self, other: &Self, epsilon: u32) -> bool;
}

impl<P: Point> InsideEqual for Ring<P> {
    fn inside_eq(&self, other: &Self) -> (r: bool)
        ensures
            r == ring_inside_eq(self@, other@),
    {
        ring_points_inside_eq(self.points_open(), other.points_open())
    }

    fn inside_abs_diff_eq(&self, other: &Self, epsilon: u32) -> (r: bool)
        ensures
            r == ring_inside_near(self@, other@, epsilon),
    {
        ring_points_inside_near(self.points_open(), other.points_open(), epsilon)
    }
}

/// How many rings of `s` equal `r`.
fn count_rings<P: Point>(s: &MultiRing<P>, r: &Ring<P>) -> (c: usize)
    ensures
        c == count_equal_rings(s@, r@),
{
    let n = s.0.len();
    let mut c: usize = 0;
    let mut i: usize = 0;
    while i < n
        invariant
            n == s@.len(),
            i <= n,
            c <= i,
            c == count_equal_rings(s@.take(i as int), r@),
        decreases n - i,
    {
        assert(s@.take(i + 1).drop_last() =~= s@.take(i as int));
        assert(s@.take(i + 1).last() == s.0@[i as int]@);
        if s.0[i].inside_eq(r) {
            c = c + 1;
        }
        i = i + 1;
    }
    assert(s@.take(n as int) =~= s@);
    c
}

/// How many polygons of `s` equal `p`.
fn count_polygons<P: Point>(s: &MultiPolygon<P>, p: &Polygon<P>) -> (c: usize)
    ensures
        c == count_equal_polygons(s@, p@),
{
    let n = s.0.len();
    let mut c: usize = 0;
    let mut i: usize = 0;
    while i < n
        invariant
            n == s@.len(),
            i <= n,
            c <= i,
            c == count_equal_polygons(s@.take(i as int), p@),
        decreases n - i,
    {
        assert(s@.take(i + 1).drop_last() =~= s@.take(i as int));
        assert(s@.take(i + 1).last() == s.0@[i as int]@);
        if s.0[i].inside_eq(p) {
            c = c + 1;
        }
        i = i + 1;
    }
    assert(s@.take(n as int) =~= s@);
    c
}

impl<P: Point> InsideEqual for MultiRing<P> {
    fn inside_eq(&self, other: &Self) -> (r: bool)
        ensures
            r == multi_ring_inside_eq(self@, other@),
    {
        let n = self.0.len();
        if n != other.0.len() {
            return false;
        }
        let mut i: usize = 0;
        while i < n
            invariant
                n == self@.len(),
                n == other@.len(),
                i <= n,
                forall|k: int|
                    0 <= k < i ==> count_equal_rings(self@, #[trigger] self@[k]) == count_equal_rings(
                        other@,
                        self@[k],
                    ),
            decreases n - i,
        {
            let x = &self.0[i];
            if count_rings(self, x) != count_rings(other, x) {
                assert(self@[i as int] == x@);
                assert(count_equal_rings(self@, self@[i as int]) != count_equal_rings(other@, self@[i as int]));
                return false;
            }
            i = i + 1;
        }
        let mut j: usize = 0;
        while j < n
            invariant
                n == self@.len(),
                n == other@.len(),
                j <= n,
                forall|k: int|
                    0 <= k < n ==> count_equal_rings(self@, #[trigger] self@[k]) == count_equal_rings(
                        other@,
                        self@[k],
                    ),
                forall|k: int|
                    0 <= k < j ==> count_equal_rings(self@, #[trigger] other@[k]) == count_equal_rings(
                        other@,
                        other@[k],
                    ),
            decreases n - j,
        {
            let y = &other.0[j];
            if count_rings(self, y) != count_rings(other, y) {
                assert(other@[j as int] == y@);
                assert(count_equal_rings(self@, other@[j as int]) != count_equal_rings(other@, other@[j as int]));
                return false;
            }
            j = j + 1;
        }
        true
    }

    fn inside_abs_diff_eq(&self, other: &Self, epsilon: u32) -> (r: bool)
        ensures
            r == multi_ring_inside_near(self@, other@, epsilon),
    {
        let n = self.0.len();
        if n != other.0.len() {
            return false;
        }
        let mut i: usize = 0;
        while i < n
            invariant
                n == self@.len(),
                n == other@.len(),
                i <= n,
                forall|k: int| 0 <= k < i ==> has_near_ring(#[trigger] self@[k], other@, epsilon),
            decreases n - i,
        {
            let mut found = false;
            let mut j: usize = 0;
            while j < n
                invariant
                    n == self@.len(),
                    n == other@.len(),
                    i < n,
                    j <= n,
                    !found ==> forall|m: int|
                        0 <= m < j ==> !ring_inside_near(
                            self@[i as int],
                            #[trigger] other@[m],
                            epsilon,
                        ),
                    found ==> has_near_ring(self@[i as int], other@, epsilon),
                decreases n - j,
            {
                if self.0[i].inside_abs_diff_eq(&other.0[j], epsilon) {
                    found = true;
                    assert(ring_inside_near(self@[i as int], other@[j as int], epsilon));
                }
                j = j + 1;
            }
            if !found {
                assert(!has_near_ring(self@[i as int], other@, epsilon));
                return false;
            }
            i = i + 1;
        }
        true
    }
}

impl<P: Point> InsideEqual for Polygon<P> {
    fn inside_eq(&self, other: &Self) -> (r: bool)
        ensures
            r == polygon_inside_eq(self@, other@),
    {
        self.exterior().inside_eq(other.exterior()) && self.interior().inside_eq(other.interior())
    }

    fn inside_abs_diff_eq(&self, other: &Self, epsilon: u32) -> (r: bool)
        ensures
            r == polygon_inside_near(self@, other@, epsilon),
    {
        self.exterior().inside_abs_diff_eq(other.exterior(), epsilon)
            && self.interior().inside_abs_diff_eq(other.interior(), epsilon)
    }
}

impl<P: Point> InsideEqual for MultiPolygon<P> {
    fn inside_eq(&self, other: &Self) -> (r: bool)
        ensures
            r == multi_polygon_inside_eq(self@, other@),
    {
        let n = self.0.len();
        if n != other.0.len() {
            return false;
        }
        let mut i: usize = 0;
        while i < n
            invariant
                n == self@.len(),
                n == other@.len(),
                i <= n,
                forall|k: int|
                    0 <= k < i ==> count_equal_polygons(self@, #[trigger] self@[k])
                        == count_equal_polygons(other@, self@[k]),
            decreases n - i,
        {
            let x = &self.0[i];
            if count_polygons(self, x) != count_polygons(other, x) {
                assert(self@[i as int] == x@);
                assert(count_equal_polygons(self@, self@[i as int]) != count_equal_polygons(other@, self@[i as int]));
                return false;
            }
            i = i + 1;
        }
        let mut j: usize = 0;
        while j < n
            invariant
                n == self@.len(),
                n == other@.len(),
                j <= n,
                forall|k: int|
                    0 <= k < n ==> count_equal_polygons(self@, #[trigger] self@[k])
                        == count_equal_polygons(other@, self@[k]),
                forall|k: int|
                    0 <= k < j ==> count_equal_polygons(self@, #[trigger] other@[k])
                        == count_equal_polygons(other@, other@[k]),
            decreases n - j,
        {
            let y = &other.0[j];
            if count_polygons(self, y) != count_polygons(other, y) {
                assert(other@[j as int] == y@);
                assert(count_equal_polygons(self@, other@[j as int]) != count_equal_polygons(other@, other@[j as int]));
                return false;
            }
            j = j + 1;
        }
        true
    }

    fn inside_abs_diff_eq(&self, other: &Self, epsilon: u32) -> (r: bool)
        ensures
            r == multi_polygon_inside_near(self@, other@, epsilon),
    {
        let n = self.0.len();
        if n != other.0.len() {
            return false;
        }
        let mut i: usize = 0;
        while i < n
            invariant
                n == self@.len(),
                n == other@.len(),
                i <= n,
                forall|k: int| 0 <= k < i ==> has_near_polygon(#[trigger] self@[k], other@, epsilon),
            decreases n - i,
        {
            let mut found = false;
            let mut j: usize = 0;
            while j < n
                invariant
                    n == self@.len(),
                    n == other@.len(),
                    i < n,
                    j <= n,
                    !found ==> forall|m: int|
                        0 <= m < j ==> !polygon_inside_near(
                            self@[i as int],
                            #[trigger] other@[m],
                            epsilon,
                        ),
                    found ==> has_near_polygon(self@[i as int], other@, epsilon),
                decreases n - j,
            {
                if self.0[i].inside_abs_diff_eq(&other.0[j], epsilon) {
                    found = true;
                    assert(polygon_inside_near(self@[i as int], other@[j as int], epsilon));
                }
                j = j + 1;
            }
            if !found {
                assert(!has_near_polygon(self@[i as int], other@, epsilon));
                return false;
            }
            i = i + 1;
        }
        true
    }
}

/// Points of `s` at different positions differ.
pub open spec fn distinct_points<P>(s: Seq<P>) -> bool {
    forall|i: int, j: int| 0 <= i < j < s.len() ==> s[i] != s[j]
}

/// Opposite windings are considered different: a ring of at least three distinct points does
/// not equal the same ring traversed the other way round.
pub proof fn lemma_ring_inside_eq_winding<P>(s: Seq<P>)
    requires
        s.len() >= 3,
        distinct_points(s),
    ensures
        !ring_inside_eq(s, s.reverse()),
{
    if ring_inside_eq(s, s.reverse()) {
        let n = s.len() as int;
        let i = choose|i: int| rotated_eq(s, s.reverse(), i);
        vstd::arithmetic::div_mod::lemma_small_mod(i as nat, n as nat);
        assert(s[0] == s.reverse()[(0 + i) % n]);
        assert(s[0] == s[n - 1 - i]);
        assert(i == n - 1);
        vstd::arithmetic::div_mod::lemma_mod_self_0(n);
        assert(s[1] == s.reverse()[(1 + i) % n]);
        assert(s[1] == s[n - 1]);
        assert(false);
    }
}

/// Equality of ring collections is symmetric.
pub proof fn lemma_multi_ring_inside_eq_symmetric<P>(a: Seq<Seq<P>>, b: Seq<Seq<P>>)
    requires
        multi_ring_inside_eq(a, b),
    ensures
        multi_ring_inside_eq(b, a),
{
}

/// Equality of polygon collections is symmetric.
pub proof fn lemma_multi_polygon_inside_eq_symmetric<P>(
    a: Seq<(Seq<P>, Seq<Seq<P>>)>,
    b: Seq<(Seq<P>, Seq<Seq<P>>)>,
)
    requires
        multi_polygon_inside_eq(a, b),
    ensures
        multi_polygon_inside_eq(b, a),
{
}

/// Every collection of rings equals itself.
pub proof fn lemma_multi_ring_inside_eq_reflexive<P>(a: Seq<Seq<P>>)
    ensures
        multi_ring_inside_eq(a, a),
{
}

} // verus!

use vstd::prelude::*;

use crate::point::{coord_sum, lemma_near_basics, mean_coords, near, trunc_div, IVec2, Point};
use crate::primitives::{MultiPolygon, MultiRing, Polygon, Ring};
use crate::seqs::{copy_points, lemma_ring_points_noop, ring_points, ring_wf};

verus! {

/// Consecutive points grouped together: walking along the points, a point joins the current
/// group when it lies within `eps` of the group's last point, and starts a new group
/// otherwise.
pub open spec fn point_groups<P: Point>(s: Seq<P>, eps: u32) -> Seq<Seq<P>>
    decreases s.len(),
{
    if s.len() == 0 {
        Seq::empty()
    } else {
        let g = point_groups(s.drop_last(), eps);
        if g.len() > 0 && near(s.last(), g.last().last(), eps) {
            g.update(g.len() - 1, g.last().push(s.last()))
        } else {
            g.push(seq![s.last()])
        }
    }
}

/// The groups of a ring: when the first point lies within `eps` of the last one, the last
/// group is merged into the first one (and vanishes when it was the only group).
pub open spec fn ring_groups<P: Point>(s: Seq<P>, eps: u32) -> Seq<Seq<P>> {
    let g = point_groups(s, eps);
    if s.len() > 0 && near(s[0], s.last(), eps) {
        let h = g.drop_last();
        if h.len() > 0 {
            h.update(0, h[0] + g.last())
        } else {
            h
        }
    } else {
        g
    }
}

/// `t` holds the (rounded) mean point of every group.
pub open spec fn means_of<P: Point>(groups: Seq<Seq<P>>, t: Seq<P>) -> bool {
    &&& t.len() == groups.len()
    &&& forall|i: int|
        0 <= i < groups.len() ==> (#[trigger] t[i]).coords() == mean_coords(
            groups[i].map_values(|p: P| p.coords()),
        )
}

/// `r` is the simplification of the ring `s`: the ring through the means of its groups,
/// present exactly when there are at least three groups.
pub open spec fn simplified<P: Point>(s: Seq<P>, eps: u32, r: Option<Seq<P>>) -> bool {
    let g = ring_groups(s, eps);
    &&& r.is_some() == (g.len() >= 3)
    &&& r matches Some(ring) ==> exists|t: Seq<P>| means_of(g, t) && ring == ring_points(t)
}

/// Every group is non-empty, and there is a group as soon as there is a point.
pub proof fn lemma_point_groups_nonempty<P: Point>(s: Seq<P>, eps: u32)
    ensures
        forall|i: int|
            0 <= i < point_groups(s, eps).len() ==> #[trigger] point_groups(s, eps)[i].len() > 0,
        s.len() > 0 ==> point_groups(s, eps).len() > 0,
    decreases s.len(),
{
    if s.len() > 0 {
        lemma_point_groups_nonempty(s.drop_last(), eps);
        let g = point_groups(s.drop_last(), eps);
        let r = point_groups(s, eps);
        assert forall|i: int| 0 <= i < r.len() implies #[trigger] r[i].len() > 0 by {
            if i < g.len() && !(g.len() > 0 && near(s.last(), g.last().last(), eps) && i == g.len()
                - 1) {
                assert(r[i] == g[i]);
            }
        }
    }
}

/// How consecutive points are grouped: within a group every point lies within `eps` of the
/// point just before it, and a new group starts only at a point that does not lie within `eps`
/// of the last point of the previous group. Together with keeping every point in order, this
/// says that a group ends exactly where a point is not near its predecessor.
pub proof fn lemma_point_groups_chain<P: Point>(s: Seq<P>, eps: u32)
    ensures
        forall|i: int, j: int|
            0 <= i < point_groups(s, eps).len() && 0 < j < point_groups(s, eps)[i].len() ==> near(
                #[trigger] point_groups(s, eps)[i][j],
                point_groups(s, eps)[i][j - 1],
                eps,
            ),
        forall|i: int|
            0 < i < point_groups(s, eps).len() ==> !near(
                #[trigger] point_groups(s, eps)[i][0],
                point_groups(s, eps)[i - 1].last(),
                eps,
            ),
        point_groups(s, eps).len() > 0 ==> point_groups(s, eps)[0][0] == s[0],
        point_groups(s, eps).len() > 0 ==> point_groups(s, eps).last().last() == s.last(),
    decreases s.len(),
{
    lemma_point_groups_nonempty(s, eps);
    if s.len() > 0 {
        let t = s.drop_last();
        lemma_point_groups_chain(t, eps);
        lemma_point_groups_nonempty(t, eps);
        let g = point_groups(t, eps);
        let r = point_groups(s, eps);
        let x = s.last();
        if g.len() > 0 && near(x, g.last().last(), eps) {
            let l = g.len() - 1;
            assert(r == g.update(l, g[l].push(x)));
            assert forall|i: int, j: int| 0 <= i < r.len() && 0 < j < r[i].len() implies near(
                #[trigger] r[i][j],
                r[i][j - 1],
                eps,
            ) by {
                if i == l {
                    if j < g[l].len() {
                        assert(r[i][j] == g[l][j] && r[i][j - 1] == g[l][j - 1]);
                    }
                } else {
                    assert(r[i] == g[i]);
                }
            }
            assert forall|i: int| 0 < i < r.len() implies !near(
                #[trigger] r[i][0],
                r[i - 1].last(),
                eps,
            ) by {
                assert(r[i - 1] == g[i - 1]);
                if i == l {
                    assert(r[i][0] == g[i][0]);
                } else {
                    assert(r[i] == g[i]);
                }
            }
            if l == 0 {
                assert(r[0][0] == g[0][0]);
            } else {
                assert(r[0] == g[0]);
            }
        } else {
            assert(r == g.push(seq![x]));
            assert forall|i: int, j: int| 0 <= i < r.len() && 0 < j < r[i].len() implies near(
                #[trigger] r[i][j],
                r[i][j - 1],
                eps,
            ) by {
                assert(r[i] == g[i]);
            }
            assert forall|i: int| 0 < i < r.len() implies !near(
                #[trigger] r[i][0],
                r[i - 1].last(),
                eps,
            ) by {
                assert(r[i - 1] == g[i - 1]);
                if i < g.len() {
                    assert(r[i] == g[i]);
                }
            }
            if g.len() > 0 {
                assert(r[0] == g[0]);
            } else {
                assert(t.len() == 0);
            }
        }
        if t.len() > 0 {
            assert(g[0][0] == t[0]);
            assert(t[0] == s[0]);
        }
    }
}

/// The points of groups, group after group.
pub open spec fn concat_groups<P>(g: Seq<Seq<P>>) -> Seq<P>
    decreases g.len(),
{
    if g.len() == 0 {
        Seq::empty()
    } else {
        concat_groups(g.drop_last()) + g.last()
    }
}

/// Grouping keeps every point, in order: the groups put back together are the points.
pub proof fn lemma_point_groups_concat<P: Point>(s: Seq<P>, eps: u32)
    ensures
        concat_groups(point_groups(s, eps)) == s,
    decreases s.len(),
{
    if s.len() > 0 {
        let t = s.drop_last();
        lemma_point_groups_concat(t, eps);
        let g = point_groups(t, eps);
        let r = point_groups(s, eps);
        let x = s.last();
        if g.len() > 0 && near(x, g.last().last(), eps) {
            let l = g.len() - 1;
            assert(r.drop_last() =~= g.drop_last());
            assert(r.last() == g.last().push(x));
            assert(concat_groups(g) == concat_groups(g.drop_last()) + g.last());
            assert(concat_groups(r) =~= concat_groups(g).push(x));
        } else {
            assert(r.drop_last() =~= g);
            assert(concat_groups(r) =~= concat_groups(g).push(x));
        }
        assert(t.push(x) =~= s);
    }
}

/// The deep view of a vector of vectors.
pub open spec fn deep<P>(v: Seq<Vec<P>>) -> Seq<Seq<P>> {
    v.map_values(|g: Vec<P>| g@)
}

/// Groups the points of a ring (see `ring_groups`).
pub fn group_ring_points<P: Point>(s: &[P], eps: u32) -> (r: Vec<Vec<P>>)
    ensures
        deep(r@) == ring_groups(s@, eps),
        forall|i: int| 0 <= i < r@.len() ==> (#[trigger] r@[i])@.len() > 0,
{
    let mut groups: Vec<Vec<P>> = Vec::new();
    let n = s.len();
    let mut i: usize = 0;
    while i < n
        invariant
            n == s@.len(),
            i <= n,
            deep(groups@) == point_groups(s@.take(i as int), eps),
            forall|k: int| 0 <= k < groups@.len() ==> (#[trigger] groups@[k])@.len() > 0,
        decreases n - i,
    {
        let p = s[i];
        let ghost before = deep(groups@);
        let ghost t1 = s@.take(i + 1);
        assert(t1.drop_last() =~= s@.take(i as int));
        let gl = groups.len();
        let joins = if gl > 0 {
            let last_len = groups[gl - 1].len();
            p.abs_diff_eq(groups[gl - 1][last_len - 1], eps)
        } else {
            false
        };
        if joins {
            let mut last = groups.pop().unwrap();
            last.push(p);
            groups.push(last);
            assert(deep(groups@) =~= before.update(before.len() - 1, before.last().push(p)));
        } else {
            let mut g: Vec<P> = Vec::new();
            g.push(p);
            groups.push(g);
            assert(deep(groups@) =~= before.push(seq![p]));
        }
        i = i + 1;
    }
    assert(s@.take(n as int) =~= s@);
    proof {
        lemma_point_groups_nonempty(s@, eps);
    }
    if n > 0 && s[0].abs_diff_eq(s[n - 1], eps) {
        let ghost g = deep(groups@);
        let last = groups.pop().unwrap();
        if groups.len() > 0 {
            let mut first = copy_points(groups[0].as_slice());
            let mut tail = copy_points(last.as_slice());
            first.append(&mut tail);
            groups.set(0, first);
            assert(deep(groups@) =~= g.drop_last().update(0, g.drop_last()[0] + g.last()));
        } else {
            assert(deep(groups@) =~= g.drop_last());
        }
    }
    groups
}

/// The ring through the rounded means of the groups of the given ring points, if there are
/// at least three groups.
pub fn simplify_ring_points<P: Point>(s: &[P], eps: u32) -> (r: Option<Vec<P>>)
    ensures
        r.is_some() == (ring_groups(s@, eps).len() >= 3),
        r matches Some(t) ==> means_of(ring_groups(s@, eps), t@),
{
    let groups = group_ring_points(s, eps);
    if groups.len() < 3 {
        return None;
    }
    let ghost g = ring_groups(s@, eps);
    let mut t: Vec<P> = Vec::new();
    let n = groups.len();
    let mut i: usize = 0;
    while i < n
        invariant
            n == groups@.len(),
            g == deep(groups@),
            i <= n,
            forall|k: int| 0 <= k < groups@.len() ==> (#[trigger] groups@[k])@.len() > 0,
            t@.len() == i,
            forall|k: int|
                0 <= k < i ==> (#[trigger] t@[k]).coords() == mean_coords(
                    g[k].map_values(|p: P| p.coords()),
                ),
        decreases n - i,
    {
        assert(groups@[i as int]@.len() > 0);
        let m = P::mean(groups[i].as_slice());
        assert(g[i as int] == groups@[i as int]@);
        t.push(m);
        i = i + 1;
    }
    Some(t)
}

/// Simplifies a primitive by replacing groups of consecutive points closer than `eps` to each
/// other by their mean.
pub trait SimplifyGrouped<P: Point>: Sized {
    fn simplify(&self, eps: u32) -> Option<Self>;
}

impl<P: Point> SimplifyGrouped<P> for Ring<P> {
    fn simplify(&self, eps: u32) -> (r: Option<Self>)
        ensures
            simplified(self@, eps, match r {
                Some(ring) => Some(ring@),
                None => None,
            }),
    {
        match simplify_ring_points(self.points_open(), eps) {
            Some(t) => {
                let ghost tv = t@;
                let ring = Ring::new(t);
                assert(means_of(ring_groups(self@, eps), tv) && ring@ == ring_points(tv));
                Some(ring)
            },
            None => None,
        }
    }
}

/// Every ring is simplified successfully (`all`), and then `r` holds the simplified rings.
pub open spec fn rings_simplified<P: Point>(s: Seq<Seq<P>>, eps: u32, r: Option<Seq<Seq<P>>>) -> bool {
    let all = forall|i: int| 0 <= i < s.len() ==> ring_groups(#[trigger] s[i], eps).len() >= 3;
    &&& r.is_some() == all
    &&& r matches Some(rs) ==> rs.len() == s.len() && forall|i: int|
        0 <= i < s.len() ==> simplified(#[trigger] s[i], eps, Some(rs[i]))
}

impl<P: Point> SimplifyGrouped<P> for MultiRing<P> {
    fn simplify(&self, eps: u32) -> (r: Option<Self>)
        ensures
            rings_simplified(self@, eps, match r {
                Some(m) => Some(m@),
                None => None,
            }),
    {
        let mut v: Vec<Ring<P>> = Vec::new();
        let n = self.0.len();
        let mut i: usize = 0;
        while i < n
            invariant
                n == self@.len(),
                i <= n,
                v@.len() == i,
                forall|k: int| 0 <= k < i ==> ring_groups(#[trigger] self@[k], eps).len() >= 3,
                forall|k: int| 0 <= k < i ==> simplified(#[trigger] self@[k], eps, Some(v@[k]@)),
            decreases n - i,
        {
            match self.0[i].simplify(eps) {
                Some(ring) => {
                    v.push(ring);
                },
                None => {
                    assert(ring_groups(self@[i as int], eps).len() < 3);
                    return None;
                },
            }
            i = i + 1;
        }
        let r = MultiRing(v);
        assert forall|k: int| 0 <= k < n implies simplified(
            #[trigger] self@[k],
            eps,
            Some(r@[k]),
        ) by {
            assert(r@[k] == v@[k]@);
        }
        Some(r)
    }
}

/// `q` is a simplification of the polygon `p`: its exterior is the simplified exterior, and its
/// holes are the simplified holes, or none at all where some hole does not simplify.
pub open spec fn polygon_simplified<P: Point>(
    p: (Seq<P>, Seq<Seq<P>>),
    eps: u32,
    q: (Seq<P>, Seq<Seq<P>>),
) -> bool {
    &&& simplified(p.0, eps, Some(q.0))
    &&& {
        ||| rings_simplified(p.1, eps, Some(q.1))
        ||| (rings_simplified(p.1, eps, None) && q.1 == Seq::<Seq<P>>::empty())
    }
}

impl<P: Point> SimplifyGrouped<P> for Polygon<P> {
    /// The exterior must simplify; holes are dropped altogether when any of them does not.
    fn simplify(&self, eps: u32) -> (r: Option<Self>)
        ensures
            r.is_some() == (ring_groups(self.0@, eps).len() >= 3),
            r matches Some(p) ==> polygon_simplified(self@, eps, p@),
    {
        let exterior = match self.exterior().simplify(eps) {
            Some(e) => e,
            None => {
                return None;
            },
        };
        let interior = match self.interior().simplify(eps) {
            Some(m) => m,
            None => MultiRing::empty(),
        };
        Some(Polygon::new(exterior, interior))
    }
}

impl<P: Point> SimplifyGrouped<P> for MultiPolygon<P> {
    fn simplify(&self, eps: u32) -> (r: Option<Self>)
        ensures
            r.is_some() == (forall|i: int|
                0 <= i < self@.len() ==> ring_groups((#[trigger] self@[i]).0, eps).len() >= 3),
            r matches Some(m) ==> m@.len() == self@.len() && forall|i: int|
                0 <= i < self@.len() ==> polygon_simplified(self@[i], eps, #[trigger] m@[i]),
    {
        let mut v: Vec<Polygon<P>> = Vec::new();
        let n = self.0.len();
        let mut i: usize = 0;
        while i < n
            invariant
                n == self@.len(),
                i <= n,
                v@.len() == i,
                forall|k: int| 0 <= k < i ==> ring_groups((#[trigger] self@[k]).0, eps).len() >= 3,
                forall|k: int| 0 <= k < i ==> polygon_simplified(self@[k], eps, (#[trigger] v@[k])@),
            decreases n - i,
        {
            match self.0[i].simplify(eps) {
                Some(p) => {
                    v.push(p);
                    assert(v@[i as int] == p);
                },
                None => {
                    assert(ring_groups(self@[i as int].0, eps).len() < 3);
                    return None;
                },
            }
            i = i + 1;
        }
        let r = MultiPolygon(v);
        assert forall|k: int| 0 <= k < self@.len() implies polygon_simplified(
            self@[k],
            eps,
            #[trigger] r@[k],
        ) by {
            assert(r@[k] == v@[k]@);
        }
        Some(r)
    }
}

/// With tolerance zero no point is near another one: every point forms a group of its own.
proof fn lemma_point_groups_zero<P: Point>(s: Seq<P>)
    ensures
        point_groups(s, 0) == s.map_values(|p: P| seq![p]),
    decreases s.len(),
{
    if s.len() > 0 {
        lemma_point_groups_zero(s.drop_last());
        let g = point_groups(s.drop_last(), 0);
        if g.len() > 0 {
            lemma_near_basics(s.last(), g.last().last(), 0);
        }
        assert(s.map_values(|p: P| seq![p]) =~= s.drop_last().map_values(|p: P| seq![p]).push(
            seq![s.last()],
        ));
    }
}

/// The mean of a single point is that point.
proof fn lemma_mean_of_one(c: Seq<int>)
    ensures
        mean_coords(seq![c]) == c,
{
    let pts = seq![c];
    assert forall|d: int| 0 <= d < c.len() implies #[trigger] trunc_div(coord_sum(pts, d), 1)
        == c[d] by {
        assert(pts.drop_last().len() == 0);
        assert(coord_sum(pts.drop_last(), d) == 0);
        assert(pts.last() == c);
        assert(coord_sum(pts, d) == c[d]);
    }
    assert(mean_coords(pts) =~= c);
}

/// Simplifying with tolerance zero groups nothing: a ring of at least three points comes back
/// unchanged.
pub proof fn lemma_simplify_zero_tolerance(s: Seq<IVec2>, r: Option<Seq<IVec2>>)
    requires
        ring_wf(s),
        s.len() >= 3,
        simplified(s, 0, r),
    ensures
        r == Some(s),
{
    lemma_point_groups_zero(s);
    let g = point_groups(s, 0);
    lemma_near_basics(s[0], s.last(), 0);
    assert(ring_groups(s, 0) == g);
    let ring = r->Some_0;
    let t = choose|t: Seq<IVec2>| means_of(g, t) && ring == ring_points(t);
    assert forall|i: int| 0 <= i < s.len() implies #[trigger] t[i] == s[i] by {
        assert(g[i] == seq![s[i]]);
        assert(g[i].map_values(|p: IVec2| p.coords()) =~= seq![s[i].coords()]);
        lemma_mean_of_one(s[i].coords());
        assert(t[i].coords() == s[i].coords());
        assert(t[i].coords()[0] == s[i].coords()[0]);
        assert(t[i].coords()[1] == s[i].coords()[1]);
    }
    assert(t =~= s);
    lemma_ring_points_noop(s);
}

} // verus!

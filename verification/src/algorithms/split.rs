use vstd::prelude::*;

use crate::point::Point;
use crate::primitives::{ring_lines, Line, MultiPolygon, MultiRing, Polygon, Ring};
use crate::seqs::{lemma_mod_wrap, lemma_ring_points_keeps, lemma_ring_points_subset, ring_points};

verus! {

/// Two segments cover the same points: they are equal or one is the other reversed.
pub open spec fn same_segment<P: Point>(a: Line<P>, b: Line<P>) -> bool {
    a == b || (a.0[0] == b.0[1] && a.0[1] == b.0[0])
}

/// `(i, j)` locates the first doubled segment of `lines`: segment `j` repeats segment `i`
/// (possibly reversed), no earlier segment is repeated later, and no segment between `i` and
/// `j` repeats segment `i`.
pub open spec fn is_first_double<P: Point>(lines: Seq<Line<P>>, i: int, j: int) -> bool {
    &&& 0 <= i < j < lines.len()
    &&& same_segment(lines[j], lines[i])
    &&& forall|i2: int, j2: int|
        0 <= i2 < i && i2 < j2 < lines.len() ==> !same_segment(
            #[trigger] lines[j2],
            #[trigger] lines[i2],
        )
    &&& forall|j2: int| i < j2 < j ==> !same_segment(#[trigger] lines[j2], lines[i])
}

/// Some segment of `lines` is repeated later on (possibly reversed).
pub open spec fn has_double<P: Point>(lines: Seq<Line<P>>) -> bool {
    exists|i: int, j: int|
        0 <= i < j < lines.len() && same_segment(#[trigger] lines[j], #[trigger] lines[i])
}

/// The later copy of the first doubled segment of a ring, if there is one.
pub open spec fn double_line_of<P: Point>(s: Seq<P>) -> Option<Line<P>> {
    let lines = ring_lines(s);
    if exists|i: int, j: int| is_first_double(lines, i, j) {
        let (i, j) = choose|i: int, j: int| is_first_double(lines, i, j);
        Some(lines[j])
    } else {
        None
    }
}

/// Segment `k % n` of the ring is `line`, and no segment checked before it is (segments are
/// checked in the order 1, 2, ..., n - 1, 0).
pub open spec fn is_first_hit<P: Point>(s: Seq<P>, line: Line<P>, k: int) -> bool {
    let n = s.len() as int;
    &&& 1 <= k <= n
    &&& ring_lines(s)[k % n] == line
    &&& forall|k2: int| 1 <= k2 < k ==> ring_lines(s)[#[trigger] (k2 % n)] != line
}

/// The points just before and just after the first occurrence of `line` among the segments
/// of a ring of at least two points.
pub open spec fn neighbours_of<P: Point>(s: Seq<P>, line: Line<P>) -> Option<(P, P)> {
    let n = s.len() as int;
    if n >= 2 && exists|k: int| is_first_hit(s, line, k) {
        let k = choose|k: int| is_first_hit(s, line, k);
        Some((s[k - 1], s[(k + 2) % n]))
    } else {
        None
    }
}

/// The first index at or after `start` holding `x`, or the length when there is none.
pub open spec fn first_from<P: Point>(s: Seq<P>, x: P, start: int) -> int
    decreases s.len() - start,
{
    if start >= s.len() || start < 0 {
        s.len() as int
    } else if s[start] == x {
        start
    } else {
        first_from(s, x, start + 1)
    }
}

/// The two rings obtained by cutting the ring `s` along the segment from `before` to `after`:
/// the first keeps the points up to `before`, then continues at `after`; the second runs
/// from `before` up to `after`.
pub open spec fn split_pieces<P: Point>(s: Seq<P>, before: P, after: P) -> (Seq<P>, Seq<P>) {
    let n = s.len() as int;
    let ib = first_from(s, before, 0);
    let ia = first_from(s, after, 0);
    let ja = first_from(s, after, ib);
    (
        ring_points(s.subrange(0, ib) + seq![before] + s.subrange(ia, n)),
        ring_points(s.subrange(ib, ja) + seq![after]),
    )
}

/// The polygons that splitting produces, with at most `fuel` levels of splitting: as long as
/// the exterior ring has a doubled segment, the polygon is cut there into two polygons
/// without holes, which are split in turn.
pub open spec fn split_polygons<P: Point>(p: (Seq<P>, Seq<Seq<P>>), fuel: nat) -> Seq<
    (Seq<P>, Seq<Seq<P>>),
>
    decreases fuel,
{
    if fuel == 0 {
        seq![p]
    } else {
        match double_line_of(p.0) {
            None => seq![p],
            Some(line) => match neighbours_of(p.0, line) {
                None => seq![p],
                Some((before, after)) => {
                    let (q1, q2) = split_pieces(p.0, before, after);
                    split_polygons((q1, Seq::empty()), (fuel - 1) as nat) + split_polygons(
                        (q2, Seq::empty()),
                        (fuel - 1) as nat,
                    )
                },
            },
        }
    }
}

/// A polygon whose exterior repeats no segment is not split: it comes back as it is, holes
/// included.
pub proof fn lemma_split_without_double<P: Point>(p: (Seq<P>, Seq<Seq<P>>), fuel: nat)
    requires
        !has_double(ring_lines(p.0)),
    ensures
        split_polygons(p, fuel) == seq![p],
{
    let lines = ring_lines(p.0);
    if exists|i: int, j: int| is_first_double(lines, i, j) {
        let (i, j) = choose|i: int, j: int| is_first_double(lines, i, j);
        assert(same_segment(lines[j], lines[i]));
    }
}

/// The first doubled segment is located uniquely.
pub proof fn lemma_first_double_unique<P: Point>(l: Seq<Line<P>>, i: int, j: int)
    requires
        is_first_double(l, i, j),
    ensures
        forall|i0: int, j0: int| is_first_double(l, i0, j0) ==> i0 == i && j0 == j,
{
    assert forall|i0: int, j0: int| is_first_double(l, i0, j0) implies i0 == i && j0 == j by {
        if i0 < i {
            assert(!same_segment(l[j0], l[i0]));
        } else if i0 > i {
            assert(!same_segment(l[j], l[i]));
        } else if j0 < j {
            assert(!same_segment(l[j0], l[i]));
        } else if j0 > j {
            assert(!same_segment(l[j], l[i0]));
        }
    }
}

/// Whether `line` repeats `other` (possibly reversed).
fn same_segment_exec<P: Point>(line: &Line<P>, other: &Line<P>) -> (r: bool)
    ensures
        r == same_segment(*line, *other),
{
    let sw = other.swap_coords();
    proof {
        crate::primitives::lemma_line_eq(*line, sw);
    }
    line.same(other) || line.same(&sw)
}

/// Finds the later copy of the first doubled segment of the exterior ring.
pub fn find_double_line<P: Point>(polygon: &Polygon<P>) -> (r: Option<Line<P>>)
    ensures
        r == double_line_of(polygon.0@),
{
    let lines = polygon.exterior().lines();
    let ghost l = lines@;
    let n = lines.len();
    let mut idx: usize = 0;
    while idx < n
        invariant
            n == l.len(),
            l == lines@,
            l == ring_lines(polygon.0@),
            idx <= n,
            forall|i2: int, j2: int|
                0 <= i2 < idx && i2 < j2 < n ==> !same_segment(
                    #[trigger] l[j2],
                    #[trigger] l[i2],
                ),
        decreases n - idx,
    {
        let mut j: usize = idx + 1;
        while j < n
            invariant
                n == l.len(),
                l == lines@,
                l == ring_lines(polygon.0@),
                idx < n,
                idx + 1 <= j <= n,
                forall|i2: int, j2: int|
                    0 <= i2 < idx && i2 < j2 < n ==> !same_segment(
                        #[trigger] l[j2],
                        #[trigger] l[i2],
                    ),
                forall|j2: int| idx < j2 < j ==> !same_segment(#[trigger] l[j2], l[idx as int]),
            decreases n - j,
        {
            if same_segment_exec(&lines[j], &lines[idx]) {
                proof {
                    assert(is_first_double(l, idx as int, j as int));
                    lemma_first_double_unique(l, idx as int, j as int);
                    let (i0, j0) = choose|i: int, j: int| is_first_double(l, i, j);
                    assert(is_first_double(l, i0, j0));
                    assert(i0 == idx && j0 == j);
                    assert(double_line_of(polygon.0@) == Some(l[j as int]));
                }
                return Some(lines[j]);
            }
            j = j + 1;
        }
        idx = idx + 1;
    }
    proof {
        if exists|i: int, j: int| is_first_double(l, i, j) {
            let (i0, j0) = choose|i: int, j: int| is_first_double(l, i, j);
            assert(!same_segment(l[j0], l[i0]));
        }
    }
    None
}

/// The points before and after the first occurrence of `line` among the exterior segments.
pub fn find_points<P: Point>(polygon: &Polygon<P>, line: Line<P>) -> (r: Option<(P, P)>)
    ensures
        r == neighbours_of(polygon.0@, line),
{
    let s = polygon.exterior().points_open();
    let lines = polygon.exterior().lines();
    let ghost l = lines@;
    let n = s.len();
    if n < 2 {
        return None;
    }
    let mut j: usize = 0;
    while j < n
        invariant
            n == s@.len(),
            n >= 2,
            s@ == polygon.0@,
            l == lines@,
            l == ring_lines(polygon.0@),
            j <= n,
            forall|k2: int| 1 <= k2 < j + 1 ==> l[#[trigger] (k2 % (n as int))] != line,
        decreases n - j,
    {
        let ghost k = j + 1;
        let m: usize = if j + 1 == n {
            0
        } else {
            j + 1
        };
        proof {
            lemma_mod_wrap(k, n as int);
        }
        if lines[m].same(&line) {
            let t: usize = if j + 1 < n - 2 {
                j + 3
            } else {
                j + 1 - (n - 2)
            };
            let a: usize = if t >= n {
                t - n
            } else {
                t
            };
            proof {
                if n == 2 {
                    vstd::arithmetic::div_mod::lemma_mod_add_multiples_vanish(k, 2);
                    lemma_mod_wrap(k, 2);
                } else {
                    lemma_mod_wrap(k + 2, n as int);
                }
                assert(a as int == (k + 2) % (n as int));
                assert(is_first_hit(polygon.0@, line, k));
                let k0 = choose|k: int| is_first_hit(polygon.0@, line, k);
                if k0 < k {
                    assert(l[k0 % (n as int)] != line);
                } else if k0 > k {
                    assert(l[k % (n as int)] != line);
                }
            }
            return Some((s[j], s[a]));
        }
        j = j + 1;
    }
    proof {
        if exists|k: int| is_first_hit(polygon.0@, line, k) {
            let k0 = choose|k: int| is_first_hit(polygon.0@, line, k);
            assert(l[k0 % (n as int)] != line);
        }
    }
    None
}

/// The first index at or after `start` holding `x`, or the length when there is none.
fn index_from<P: Point>(s: &[P], x: P, start: usize) -> (r: usize)
    requires
        start <= s@.len(),
    ensures
        r == first_from(s@, x, start as int),
    decreases s@.len() - start,
{
    if start >= s.len() {
        s.len()
    } else if s[start].same(&x) {
        start
    } else {
        index_from(s, x, start + 1)
    }
}

/// Cuts the exterior ring along the segment from `point_before` to `point_after` into two
/// polygons without holes.
pub fn split_poly<P: Point>(polygon: &Polygon<P>, point_before: P, point_after: P) -> (r: (
    Polygon<P>,
    Polygon<P>,
))
    ensures
        (r.0@.0, r.1@.0) == split_pieces(polygon.0@, point_before, point_after),
        r.0@.1 == Seq::<Seq<P>>::empty(),
        r.1@.1 == Seq::<Seq<P>>::empty(),
{
    let s = polygon.exterior().points_open();
    let n = s.len();
    let ib = index_from(s, point_before, 0);
    let ia = index_from(s, point_after, 0);
    proof {
        lemma_first_from_bounds(s@, point_before, 0);
        lemma_first_from_bounds(s@, point_after, 0);
    }
    let ja = index_from(s, point_after, ib);
    proof {
        lemma_first_from_bounds(s@, point_after, ib as int);
    }
    let mut p1: Vec<P> = Vec::new();
    let mut i: usize = 0;
    while i < ib
        invariant
            ib <= n,
            n == s@.len(),
            i <= ib,
            p1@ == s@.subrange(0, i as int),
        decreases ib - i,
    {
        p1.push(s[i]);
        i = i + 1;
        assert(p1@ =~= s@.subrange(0, i as int));
    }
    p1.push(point_before);
    let ghost head = p1@;
    let mut i: usize = ia;
    while i < n
        invariant
            ia <= n,
            n == s@.len(),
            ia <= i <= n,
            p1@ == head + s@.subrange(ia as int, i as int),
        decreases n - i,
    {
        p1.push(s[i]);
        i = i + 1;
        assert(p1@ =~= head + s@.subrange(ia as int, i as int));
    }
    let mut p2: Vec<P> = Vec::new();
    let mut i: usize = ib;
    while i < ja
        invariant
            ib <= ja <= n,
            n == s@.len(),
            ib <= i <= ja,
            p2@ == s@.subrange(ib as int, i as int),
        decreases ja - i,
    {
        p2.push(s[i]);
        i = i + 1;
        assert(p2@ =~= s@.subrange(ib as int, i as int));
    }
    p2.push(point_after);
    proof {
        assert(s@ == polygon.0@);
        assert(head =~= s@.subrange(0, ib as int) + seq![point_before]);
        assert(p1@ =~= s@.subrange(0, ib as int) + seq![point_before] + s@.subrange(
            ia as int,
            n as int,
        ));
        assert(p2@ =~= s@.subrange(ib as int, ja as int) + seq![point_after]);
    }
    let r1 = Polygon::new(Ring::new(p1), MultiRing::empty());
    let r2 = Polygon::new(Ring::new(p2), MultiRing::empty());
    (r1, r2)
}

/// `first_from` stays within `start..=len`.
pub proof fn lemma_first_from_bounds<P: Point>(s: Seq<P>, x: P, start: int)
    requires
        0 <= start <= s.len(),
    ensures
        start <= first_from(s, x, start) <= s.len(),
        first_from(s, x, start) < s.len() ==> s[first_from(s, x, start)] == x,
    decreases s.len() - start,
{
    if start < s.len() && s[start] != x {
        lemma_first_from_bounds(s, x, start + 1);
    }
}

/// Every point of either piece is a point of the ring that was cut (given that the cut
/// points are).
proof fn lemma_split_pieces_subset<P: Point>(s: Seq<P>, before: P, after: P, x: P)
    requires
        s.contains(before),
        s.contains(after),
    ensures
        split_pieces(s, before, after).0.contains(x) ==> s.contains(x),
        split_pieces(s, before, after).1.contains(x) ==> s.contains(x),
{
    let n = s.len() as int;
    let ib = first_from(s, before, 0);
    let ia = first_from(s, after, 0);
    lemma_first_from_bounds(s, before, 0);
    lemma_first_from_bounds(s, after, 0);
    let ja = first_from(s, after, ib);
    lemma_first_from_bounds(s, after, ib);
    let c1 = s.subrange(0, ib) + seq![before] + s.subrange(ia, n);
    let c2 = s.subrange(ib, ja) + seq![after];
    lemma_ring_points_subset(c1, x);
    lemma_ring_points_subset(c2, x);
    if c1.contains(x) {
        let k = choose|k: int| 0 <= k < c1.len() && c1[k] == x;
        if k < ib {
            assert(s[k] == x);
        } else if k > ib {
            assert(s[ia + (k - ib - 1)] == x);
        }
    }
    if c2.contains(x) {
        let k = choose|k: int| 0 <= k < c2.len() && c2[k] == x;
        if k < ja - ib {
            assert(s[ib + k] == x);
        }
    }
}

/// Splitting creates no points: every point of the exterior of every piece is a point of
/// the exterior of the polygon that was split.
pub proof fn lemma_split_keeps_points<P: Point>(p: (Seq<P>, Seq<Seq<P>>), fuel: nat)
    ensures
        forall|i: int, x: P|
            0 <= i < split_polygons(p, fuel).len() && #[trigger] split_polygons(p, fuel)[i].0.contains(
                x,
            ) ==> p.0.contains(x),
    decreases fuel,
{
    if fuel > 0 {
        if let Some(line) = double_line_of(p.0) {
            if let Some((before, after)) = neighbours_of(p.0, line) {
                let s = p.0;
                let n = s.len() as int;
                let k = choose|k: int| is_first_hit(s, line, k);
                lemma_mod_wrap(k + 2, n);
                assert(s[k - 1] == before);
                assert(s.contains(before));
                assert(s[(k + 2) % n] == after);
                assert(s.contains(after));
                let (q1, q2) = split_pieces(s, before, after);
                let f = (fuel - 1) as nat;
                lemma_split_keeps_points((q1, Seq::empty()), f);
                lemma_split_keeps_points((q2, Seq::empty()), f);
                let a = split_polygons((q1, Seq::empty()), f);
                let b = split_polygons((q2, Seq::empty()), f);
                assert(split_polygons(p, fuel) == a + b);
                assert forall|i: int, x: P|
                    0 <= i < split_polygons(p, fuel).len() && #[trigger] split_polygons(
                        p,
                        fuel,
                    )[i].0.contains(x) implies p.0.contains(x) by {
                    lemma_split_pieces_subset(s, before, after, x);
                    if i < a.len() {
                        assert(split_polygons(p, fuel)[i] == a[i]);
                    } else {
                        assert(split_polygons(p, fuel)[i] == b[i - a.len()]);
                    }
                }
            }
        }
    }
}

/// The polygon cannot be split: its exterior repeats no segment, or the repeated segment has
/// no neighbours to cut along.
pub open spec fn unsplittable<P: Point>(p: (Seq<P>, Seq<Seq<P>>)) -> bool {
    match double_line_of(p.0) {
        None => true,
        Some(line) => neighbours_of(p.0, line) is None,
    }
}

/// Splitting the polygon comes to an end within `fuel` levels: every piece reached at the
/// last level can no longer be split.
pub open spec fn split_ends<P: Point>(p: (Seq<P>, Seq<Seq<P>>), fuel: nat) -> bool
    decreases fuel,
{
    match double_line_of(p.0) {
        None => true,
        Some(line) => match neighbours_of(p.0, line) {
            None => true,
            Some((before, after)) => {
                let (q1, q2) = split_pieces(p.0, before, after);
                fuel > 0 && split_ends((q1, Seq::empty()), (fuel - 1) as nat) && split_ends(
                    (q2, Seq::empty()),
                    (fuel - 1) as nat,
                )
            },
        },
    }
}

/// When splitting comes to an end, no piece can be split any further.
pub proof fn lemma_split_pieces_unsplittable<P: Point>(p: (Seq<P>, Seq<Seq<P>>), fuel: nat)
    requires
        split_ends(p, fuel),
    ensures
        forall|i: int|
            0 <= i < split_polygons(p, fuel).len() ==> unsplittable(
                #[trigger] split_polygons(p, fuel)[i],
            ),
    decreases fuel,
{
    if let Some(line) = double_line_of(p.0) {
        if let Some((before, after)) = neighbours_of(p.0, line) {
            let (q1, q2) = split_pieces(p.0, before, after);
            let f = (fuel - 1) as nat;
            lemma_split_pieces_unsplittable((q1, Seq::empty()), f);
            lemma_split_pieces_unsplittable((q2, Seq::empty()), f);
            let a = split_polygons((q1, Seq::empty()), f);
            let b = split_polygons((q2, Seq::empty()), f);
            assert(split_polygons(p, fuel) == a + b);
            assert forall|i: int| 0 <= i < split_polygons(p, fuel).len() implies unsplittable(
                #[trigger] split_polygons(p, fuel)[i],
            ) by {
                if i < a.len() {
                    assert(split_polygons(p, fuel)[i] == a[i]);
                } else {
                    assert(split_polygons(p, fuel)[i] == b[i - a.len()]);
                }
            }
        }
    }
}

/// Splitting with a bounded number of levels.
fn split_with_fuel<P: Point>(polygon: &Polygon<P>, fuel: u64) -> (r: Vec<Polygon<P>>)
    ensures
        r@.map_values(|p: Polygon<P>| p@) == split_polygons(polygon@, fuel as nat),
    decreases fuel,
{
    if fuel > 0 {
        if let Some(line) = find_double_line(polygon) {
            if let Some((before, after)) = find_points(polygon, line) {
                let (q1, q2) = split_poly(polygon, before, after);
                let mut a = split_with_fuel(&q1, fuel - 1);
                let mut b = split_with_fuel(&q2, fuel - 1);
                let ghost av = a@;
                let ghost bv = b@;
                a.append(&mut b);
                proof {
                    let f = |p: Polygon<P>| p@;
                    assert(a@ == av + bv);
                    assert(a@.map_values(f) =~= av.map_values(f) + bv.map_values(f));
                }
                return a;
            }
        }
    }
    let mut v: Vec<Polygon<P>> = Vec::new();
    v.push(polygon.clone());
    assert(v@.map_values(|p: Polygon<P>| p@) =~= seq![polygon@]);
    v
}

/// `first_from` finds the first occurrence: it is at or before every occurrence from `start`
/// on.
proof fn lemma_first_from_min<P: Point>(s: Seq<P>, x: P, start: int, k: int)
    requires
        0 <= start <= k < s.len(),
        s[k] == x,
    ensures
        first_from(s, x, start) <= k,
    decreases k - start,
{
    if s[start] != x {
        lemma_first_from_min(s, x, start + 1, k);
    }
}

/// Cutting a ring along the segment from `before` to `after` (both points of the ring): the
/// first piece holds `before` and `after`, the second holds `before` and `after`, and every
/// point of the ring lies in one of the two pieces. A piece can hold nothing only by coming out
/// empty, which happens only when all of its points coincide.
pub proof fn lemma_split_pieces_cover<P: Point>(s: Seq<P>, before: P, after: P)
    requires
        s.contains(before),
        s.contains(after),
    ensures
        ({
            let (q1, q2) = split_pieces(s, before, after);
            &&& q1.len() == 0 || (q1.contains(before) && q1.contains(after))
            &&& q2.len() == 0 || (q2.contains(before) && q2.contains(after))
            &&& forall|x: P|
                #![trigger s.contains(x)]
                s.contains(x) ==> q1.contains(x) || q2.contains(x) || q1.len() == 0 || q2.len()
                    == 0
        }),
{
    let n = s.len() as int;
    let ib = first_from(s, before, 0);
    let ia = first_from(s, after, 0);
    let ja = first_from(s, after, ib);
    let kb = choose|k: int| 0 <= k < n && s[k] == before;
    let ka = choose|k: int| 0 <= k < n && s[k] == after;
    lemma_first_from_min(s, before, 0, kb);
    lemma_first_from_min(s, after, 0, ka);
    lemma_first_from_bounds(s, before, 0);
    lemma_first_from_bounds(s, after, 0);
    lemma_first_from_bounds(s, after, ib);
    let c1 = s.subrange(0, ib) + seq![before] + s.subrange(ia, n);
    let c2 = s.subrange(ib, ja) + seq![after];
    assert(split_pieces(s, before, after) == (ring_points(c1), ring_points(c2)));
    assert(c1[ib] == before);
    assert(c1[ib + 1] == after);
    lemma_ring_points_keeps(c1, before);
    lemma_ring_points_keeps(c1, after);
    assert(c2[c2.len() - 1] == after);
    lemma_ring_points_keeps(c2, after);
    if ja > ib {
        assert(c2[0] == before);
    } else {
        assert(s[ib] == after);
        assert(c2[0] == before);
    }
    lemma_ring_points_keeps(c2, before);
    assert forall|x: P|
        #![trigger s.contains(x)]
        s.contains(x) implies ring_points(c1).contains(x) || ring_points(c2).contains(x)
            || ring_points(c1).len() == 0 || ring_points(c2).len() == 0 by {
        let m = choose|m: int| 0 <= m < n && s[m] == x;
        if m < ib {
            assert(c1[m] == x);
            lemma_ring_points_keeps(c1, x);
        } else if m >= ia {
            assert(c1[ib + 1 + (m - ia)] == x);
            lemma_ring_points_keeps(c1, x);
        } else {
            lemma_first_from_min(s, after, ib, ia);
            if ja < n {
                lemma_first_from_min(s, after, 0, ja);
            }
            assert(ja == ia);
            assert(c2[m - ib] == x);
            lemma_ring_points_keeps(c2, x);
        }
    }
}

/// Splits a polygon whose exterior ring runs along one of its segments twice (once in each
/// direction, as when a hole is connected to the outside by a cut) into separate polygons,
/// recursively, until no piece can be split any more. The pieces carry no holes; a polygon
/// without such a segment is returned as it is. Where splitting comes to an end
/// (`split_ends`), no piece can be split any further. For some degenerate rings (for instance
/// a ring of just two points, whose pieces are that ring again) it does not: the pieces are
/// split again at every level, up to the `u64::MAX` levels that bound the recursion.
pub fn split_ring_polygon<P: Point>(polygon: &Polygon<P>) -> (r: MultiPolygon<P>)
    ensures
        r@ == split_polygons(polygon@, u64::MAX as nat),
        split_ends(polygon@, u64::MAX as nat) ==> forall|i: int|
            0 <= i < r@.len() ==> unsplittable(#[trigger] r@[i]),
{
    proof {
        if split_ends(polygon@, u64::MAX as nat) {
            lemma_split_pieces_unsplittable(polygon@, u64::MAX as nat);
        }
    }
    MultiPolygon(split_with_fuel(polygon, u64::MAX))
}

} // verus!

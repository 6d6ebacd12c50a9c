use vstd::prelude::*;

use i_overlay::i_float::int::point::IntPoint;

use crate::point::IVec2;
use crate::primitives::{MultiPolygon, MultiRing, Polygon, Ring, Triangle};
use crate::seqs::ring_points;

verus! {

/// A boolean operation on the point sets of two geometries.
#[derive(Debug, Clone, Copy, PartialEq, Eq, Structural)]
pub enum OverlayKind {
    /// The points in either set.
    Union,
    /// The points in both sets.
    Intersection,
    /// The points in the first set but not in the second.
    Difference,
}

/// A coordinate within the range of the 32 bit overlay engine.
pub open spec fn overlay_coord(v: i32) -> bool {
    -0x4000_0000 <= v <= 0x3fff_ffff
}

/// Every point of the contours lies within the range of the overlay engine.
pub open spec fn contours_in_range(c: Seq<Seq<(i32, i32)>>) -> bool {
    forall|i: int, j: int|
        #![trigger c[i][j]]
        0 <= i < c.len() && 0 <= j < c[i].len() ==> overlay_coord(c[i][j].0) && overlay_coord(
            c[i][j].1,
        )
}

/// How the overlay engine decides which points a set of contours covers.
#[derive(Debug, Clone, Copy, PartialEq, Eq, Structural)]
pub enum FillRule {
    /// A point is covered when a ray from it crosses the contours an odd number of times.
    EvenOdd,
    /// A point is covered when the contours wind around it a non-zero number of times.
    NonZero,
}

/// The fill rule of the library's boolean operations: even-odd, so that the winding of the
/// input rings does not matter.
pub const FILL_RULE: FillRule = FillRule::EvenOdd;

/// The shapes that `i_overlay`'s integer engine makes of the subject and clip contours under
/// the given operation and fill rule: each shape is an outer contour followed by its holes.
pub uninterp spec fn overlay_shapes(
    subj: Seq<Seq<(i32, i32)>>,
    clip: Seq<Seq<(i32, i32)>>,
    kind: OverlayKind,
    fill: FillRule,
) -> Seq<Seq<Seq<(i32, i32)>>>;

/// Runs `i_overlay`'s `Overlay::<i32>::from_subj_and_clip(subject, clip).overlay(rule,
/// fill_rule)` on the contours `[subject, clip]`, with the overlay rule that `kind` names and
/// the engine's fill rule of the same name as `fill` (`NonZero` is the engine's default). The
/// engine's documentation asks for every coordinate to lie within `-2^30 ..= 2^30 - 1`. The
/// contract names the resulting shapes and says nothing else of them: neither which point set
/// they cover nor that, under the engine's default options, outer contours wind
/// counter-clockwise and holes clockwise.
#[verifier::external_body]
fn overlay(contours: [&Vec<Vec<(i32, i32)>>; 2], kind: OverlayKind, fill: FillRule) -> (r: Vec<
    Vec<Vec<(i32, i32)>>,
>)
    requires
        contours_in_range(contours[0].deep_view()),
        contours_in_range(contours[1].deep_view()),
    ensures
        r.deep_view() == overlay_shapes(
            contours[0].deep_view(),
            contours[1].deep_view(),
            kind,
            fill,
        ),
{
    let [s, c] = contours
        .map(|v| v.iter().map(|c| c.iter().copied().map(Into::into).collect()).collect::<Vec<Vec<IntPoint>>>());
    i_overlay::core::overlay::Overlay::from_subj_and_clip(&s, &c)
        .overlay(
            [
                i_overlay::core::overlay_rule::OverlayRule::Union,
                i_overlay::core::overlay_rule::OverlayRule::Intersect,
                i_overlay::core::overlay_rule::OverlayRule::Difference,
            ][kind as usize],
            [i_overlay::core::fill_rule::FillRule::EvenOdd, Default::default()][fill as usize],
        )
        .iter()
        .map(|s| s.iter().map(|c| c.iter().map(|p| (p.x, p.y)).collect()).collect())
        .collect()
}

/// The contour that the overlay engine reads for a ring: its points as coordinate pairs. Under
/// the even-odd fill rule the winding of the input does not matter.
pub open spec fn contour_of(ring: Seq<IVec2>) -> Seq<(i32, i32)> {
    ring.map_values(|p: IVec2| (p.x, p.y))
}

/// The contours of several rings.
pub open spec fn rings_contours(rings: Seq<Seq<IVec2>>) -> Seq<Seq<(i32, i32)>> {
    rings.map_values(|r: Seq<IVec2>| contour_of(r))
}

/// The contours of a polygon: its exterior, then its holes.
pub open spec fn polygon_contours(p: (Seq<IVec2>, Seq<Seq<IVec2>>)) -> Seq<Seq<(i32, i32)>> {
    seq![contour_of(p.0)] + rings_contours(p.1)
}

/// The contours of several polygons, polygon after polygon.
pub open spec fn polygons_contours(ps: Seq<(Seq<IVec2>, Seq<Seq<IVec2>>)>) -> Seq<
    Seq<(i32, i32)>,
>
    decreases ps.len(),
{
    if ps.len() == 0 {
        Seq::empty()
    } else {
        polygons_contours(ps.drop_last()) + polygon_contours(ps.last())
    }
}

/// The ring of a contour that the engine returned (outer contours counter-clockwise, holes
/// clockwise), normalised as `Ring::new` does.
pub open spec fn ring_of_contour(c: Seq<(i32, i32)>) -> Seq<IVec2> {
    ring_points(c.map_values(|q: (i32, i32)| IVec2 { x: q.0, y: q.1 }))
}

/// The polygon of a non-empty shape: the first contour is the exterior, the others are holes.
pub open spec fn polygon_of_shape(s: Seq<Seq<(i32, i32)>>) -> (Seq<IVec2>, Seq<Seq<IVec2>>) {
    (ring_of_contour(s[0]), s.skip(1).map_values(|c: Seq<(i32, i32)>| ring_of_contour(c)))
}

/// The polygons of the shapes that the engine returned, in order; empty shapes are skipped.
pub open spec fn polygons_of_shapes(ss: Seq<Seq<Seq<(i32, i32)>>>) -> Seq<
    (Seq<IVec2>, Seq<Seq<IVec2>>),
>
    decreases ss.len(),
{
    if ss.len() == 0 {
        Seq::empty()
    } else {
        let rest = polygons_of_shapes(ss.drop_last());
        if ss.last().len() == 0 {
            rest
        } else {
            rest.push(polygon_of_shape(ss.last()))
        }
    }
}

/// A contour holds plain pairs, so its deep view is its view.
proof fn lemma_contour_deep_view(c: Vec<(i32, i32)>)
    ensures
        c.deep_view() == c@,
{
    assert(c.deep_view() =~= c@);
}

fn ring_contour(ring: &Ring<IVec2>) -> (r: Vec<(i32, i32)>)
    ensures
        r@ == contour_of(ring@),
        r.deep_view() == contour_of(ring@),
{
    let pts = ring.points_open();
    let n = pts.len();
    let mut r: Vec<(i32, i32)> = Vec::new();
    let mut i: usize = 0;
    while i < n
        invariant
            n == pts@.len(),
            pts@ == ring@,
            i <= n,
            r@.len() == i,
            forall|k: int| 0 <= k < i ==> #[trigger] r@[k] == (pts@[k].x, pts@[k].y),
        decreases n - i,
    {
        let p = pts[i];
        r.push((p.x, p.y));
        i = i + 1;
    }
    assert(r@ =~= contour_of(ring@));
    proof {
        lemma_contour_deep_view(r);
    }
    r
}

/// The ring of a contour that the overlay engine returned, normalised as `Ring::new` does.
pub fn ring_from_contour(c: &Vec<(i32, i32)>) -> (r: Ring<IVec2>)
    ensures
        r@ == ring_of_contour(c@),
{
    let n = c.len();
    let mut pts: Vec<IVec2> = Vec::new();
    let mut i: usize = 0;
    while i < n
        invariant
            n == c@.len(),
            i <= n,
            pts@.len() == i,
            forall|k: int| 0 <= k < i ==> #[trigger] pts@[k] == (IVec2 { x: c@[k].0, y: c@[k].1 }),
        decreases n - i,
    {
        let q = c[i];
        pts.push(IVec2 { x: q.0, y: q.1 });
        i = i + 1;
    }
    assert(pts@ =~= c@.map_values(|q: (i32, i32)| IVec2 { x: q.0, y: q.1 }));
    Ring::new(pts)
}

/// The polygon of a non-empty shape that the overlay engine returned: the first contour is
/// the exterior, the others are holes.
pub fn polygon_from_shape(s: &Vec<Vec<(i32, i32)>>) -> (r: Polygon<IVec2>)
    requires
        s@.len() > 0,
    ensures
        r@ == polygon_of_shape(s.deep_view()),
{
    let ghost ds = s.deep_view();
    proof {
        lemma_contour_deep_view(s@[0]);
    }
    let exterior = ring_from_contour(&s[0]);
    let n = s.len();
    let mut holes: Vec<Ring<IVec2>> = Vec::new();
    let mut i: usize = 1;
    while i < n
        invariant
            n == s@.len(),
            ds == s.deep_view(),
            1 <= i <= n,
            holes@.len() == i - 1,
            forall|k: int|
                0 <= k < i - 1 ==> (#[trigger] holes@[k])@ == ring_of_contour(ds[k + 1]),
        decreases n - i,
    {
        proof {
            lemma_contour_deep_view(s@[i as int]);
        }
        let h = ring_from_contour(&s[i]);
        holes.push(h);
        i = i + 1;
    }
    let r = Polygon(exterior, MultiRing(holes));
    assert(r.1@ =~= ds.skip(1).map_values(|c: Seq<(i32, i32)>| ring_of_contour(c)));
    r
}

/// The polygons of the shapes that the overlay engine returned, in order; empty shapes are
/// skipped.
pub fn polygons_from_shapes(ss: &Vec<Vec<Vec<(i32, i32)>>>) -> (r: MultiPolygon<IVec2>)
    ensures
        r@ == polygons_of_shapes(ss.deep_view()),
{
    let ghost ds = ss.deep_view();
    let n = ss.len();
    let mut v: Vec<Polygon<IVec2>> = Vec::new();
    let mut i: usize = 0;
    while i < n
        invariant
            n == ss@.len(),
            ds == ss.deep_view(),
            i <= n,
            v@.map_values(|p: Polygon<IVec2>| p@) == polygons_of_shapes(ds.take(i as int)),
        decreases n - i,
    {
        let ghost before = v@;
        proof {
            assert(ds.take(i + 1).drop_last() =~= ds.take(i as int));
            assert(ds.take(i + 1).last() == ss@[i as int].deep_view());
        }
        if ss[i].len() > 0 {
            let p = polygon_from_shape(&ss[i]);
            v.push(p);
            assert(v@.map_values(|p: Polygon<IVec2>| p@) =~= before.map_values(
                |p: Polygon<IVec2>| p@,
            ).push(polygon_of_shape(ds[i as int])));
        }
        i = i + 1;
    }
    assert(ds.take(n as int) =~= ds);
    MultiPolygon(v)
}

/// A geometry that the overlay engine can read as a set of contours.
pub trait OverlaySource {
    /// The contours of the geometry, one for every ring (see `contour_of`).
    spec fn contours(&self) -> Seq<Seq<(i32, i32)>>;

    /// The contours of the geometry.
    fn to_contours(&self) -> (r: Vec<Vec<(i32, i32)>>)
        ensures
            r.deep_view() == self.contours(),
    ;
}

impl OverlaySource for Ring<IVec2> {
    open spec fn contours(&self) -> Seq<Seq<(i32, i32)>> {
        seq![contour_of(self@)]
    }

    fn to_contours(&self) -> (r: Vec<Vec<(i32, i32)>>) {
        let mut r: Vec<Vec<(i32, i32)>> = Vec::new();
        r.push(ring_contour(self));
        assert(r.deep_view() =~= seq![contour_of(self@)]);
        r
    }
}

impl OverlaySource for Triangle<IVec2> {
    open spec fn contours(&self) -> Seq<Seq<(i32, i32)>> {
        seq![contour_of(ring_points(self@))]
    }

    fn to_contours(&self) -> (r: Vec<Vec<(i32, i32)>>) {
        self.as_ring().to_contours()
    }
}

impl OverlaySource for MultiRing<IVec2> {
    open spec fn contours(&self) -> Seq<Seq<(i32, i32)>> {
        rings_contours(self@)
    }

    fn to_contours(&self) -> (r: Vec<Vec<(i32, i32)>>) {
        let n = self.0.len();
        let mut r: Vec<Vec<(i32, i32)>> = Vec::new();
        let mut i: usize = 0;
        while i < n
            invariant
                n == self@.len(),
                i <= n,
                r.deep_view() == rings_contours(self@.take(i as int)),
            decreases n - i,
        {
            let c = ring_contour(&self.0[i]);
            let ghost before = r.deep_view();
            r.push(c);
            assert(r.deep_view() =~= before.push(contour_of(self@[i as int])));
            i = i + 1;
            assert(rings_contours(self@.take(i as int)) =~= before.push(
                contour_of(self@[i - 1]),
            ));
        }
        assert(self@.take(n as int) =~= self@);
        r
    }
}

fn push_polygon_contours(r: &mut Vec<Vec<(i32, i32)>>, p: &Polygon<IVec2>)
    ensures
        final(r).deep_view() == old(r).deep_view() + polygon_contours(p@),
{
    let ghost start = r.deep_view();
    r.push(ring_contour(&p.0));
    let n = p.1.0.len();
    let mut i: usize = 0;
    while i < n
        invariant
            n == p.1@.len(),
            i <= n,
            r.deep_view() == start + seq![contour_of(p.0@)] + rings_contours(
                p.1@.take(i as int),
            ),
        decreases n - i,
    {
        let c = ring_contour(&p.1.0[i]);
        let ghost before = r.deep_view();
        r.push(c);
        assert(r.deep_view() =~= before.push(contour_of(p.1@[i as int])));
        i = i + 1;
        assert(rings_contours(p.1@.take(i as int)) =~= rings_contours(p.1@.take(i - 1)).push(
            contour_of(p.1@[i - 1]),
        ));
        assert(r.deep_view() =~= start + seq![contour_of(p.0@)] + rings_contours(
            p.1@.take(i as int),
        ));
    }
    assert(p.1@.take(n as int) =~= p.1@);
    assert(r.deep_view() =~= start + polygon_contours(p@));
}

impl OverlaySource for Polygon<IVec2> {
    open spec fn contours(&self) -> Seq<Seq<(i32, i32)>> {
        polygon_contours(self@)
    }

    fn to_contours(&self) -> (r: Vec<Vec<(i32, i32)>>) {
        let mut r: Vec<Vec<(i32, i32)>> = Vec::new();
        push_polygon_contours(&mut r, self);
        assert(r.deep_view() =~= polygon_contours(self@));
        r
    }
}

impl OverlaySource for MultiPolygon<IVec2> {
    open spec fn contours(&self) -> Seq<Seq<(i32, i32)>> {
        polygons_contours(self@)
    }

    fn to_contours(&self) -> (r: Vec<Vec<(i32, i32)>>) {
        let n = self.0.len();
        let mut r: Vec<Vec<(i32, i32)>> = Vec::new();
        let mut i: usize = 0;
        while i < n
            invariant
                n == self@.len(),
                i <= n,
                r.deep_view() == polygons_contours(self@.take(i as int)),
            decreases n - i,
        {
            push_polygon_contours(&mut r, &self.0[i]);
            i = i + 1;
            assert(self@.take(i as int).drop_last() =~= self@.take(i - 1));
        }
        assert(self@.take(n as int) =~= self@);
        r
    }
}

/// The polygons that the overlay engine makes of two geometries under a boolean operation,
/// with the library's fill rule.
pub fn boolop<L: OverlaySource, R: OverlaySource>(lhs: &L, rhs: &R, kind: OverlayKind) -> (r:
    MultiPolygon<IVec2>)
    requires
        contours_in_range(lhs.contours()),
        contours_in_range(rhs.contours()),
    ensures
        r@ == polygons_of_shapes(overlay_shapes(lhs.contours(), rhs.contours(), kind, FILL_RULE)),
{
    let subj = lhs.to_contours();
    let clip = rhs.to_contours();
    let shapes = overlay([&subj, &clip], kind, FILL_RULE);
    polygons_from_shapes(&shapes)
}

/// Boolean operations on the point sets of two geometries: union, intersection and
/// difference, each giving a multi polygon.
pub trait BoolOps<Rhs: OverlaySource>: OverlaySource + Sized {
    /// The points in either geometry.
    fn union(&self, rhs: &Rhs) -> (r: MultiPolygon<IVec2>)
        requires
            contours_in_range(self.contours()),
            contours_in_range(rhs.contours()),
        ensures
            r@ == polygons_of_shapes(
                overlay_shapes(self.contours(), rhs.contours(), OverlayKind::Union, FILL_RULE),
            ),
    {
        boolop(self, rhs, OverlayKind::Union)
    }

    /// The points in both geometries.
    fn intersection(&self, rhs: &Rhs) -> (r: MultiPolygon<IVec2>)
        requires
            contours_in_range(self.contours()),
            contours_in_range(rhs.contours()),
        ensures
            r@ == polygons_of_shapes(
                overlay_shapes(self.contours(), rhs.contours(), OverlayKind::Intersection, FILL_RULE),
            ),
    {
        boolop(self, rhs, OverlayKind::Intersection)
    }

    /// The points in this geometry but not in `rhs`.
    fn difference(&self, rhs: &Rhs) -> (r: MultiPolygon<IVec2>)
        requires
            contours_in_range(self.contours()),
            contours_in_range(rhs.contours()),
        ensures
            r@ == polygons_of_shapes(
                overlay_shapes(self.contours(), rhs.contours(), OverlayKind::Difference, FILL_RULE),
            ),
    {
        boolop(self, rhs, OverlayKind::Difference)
    }
}

impl<L: OverlaySource, R: OverlaySource> BoolOps<R> for L {

}

} // verus!

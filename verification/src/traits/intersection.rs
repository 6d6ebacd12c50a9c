use vstd::prelude::*;

use super::lines_iter::LinesIter;
use crate::algorithms::{
    intersection_defined, intersection_of, Line2DIntersection, RationalPoint, Tolerance,
};
use crate::point::IVec2;
use crate::primitives::Line;

verus! {

/// The intersections of segment `a` with the segments `bs` where the two touch, in order.
pub open spec fn row_hits(a: Line<IVec2>, bs: Seq<Line<IVec2>>, tol: Tolerance) -> Seq<
    Line2DIntersection,
>
    decreases bs.len(),
{
    if bs.len() == 0 {
        Seq::empty()
    } else {
        let r = row_hits(a, bs.drop_last(), tol);
        let x = intersection_of(a, bs.last(), tol);
        if x.intersect_spec() {
            r.push(x)
        } else {
            r
        }
    }
}

/// The intersections of every segment of `a_lines` with every segment of `bs` where the two
/// touch, ordered by the segment of `a_lines` first.
pub open spec fn all_hits(a_lines: Seq<Line<IVec2>>, bs: Seq<Line<IVec2>>, tol: Tolerance) -> Seq<
    Line2DIntersection,
>
    decreases a_lines.len(),
{
    if a_lines.len() == 0 {
        Seq::empty()
    } else {
        all_hits(a_lines.drop_last(), bs, tol) + row_hits(a_lines.last(), bs, tol)
    }
}

/// Every segment of `a_lines` has a defined intersection with every segment of `bs`.
pub open spec fn all_defined(a_lines: Seq<Line<IVec2>>, bs: Seq<Line<IVec2>>, tol: Tolerance) -> bool {
    forall|i: int, j: int|
        0 <= i < a_lines.len() && 0 <= j < bs.len() ==> intersection_defined(
            #[trigger] a_lines[i],
            #[trigger] bs[j],
            tol,
        )
}

/// The crossing points of the true intersections among `h`, in order.
pub open spec fn true_points(h: Seq<Line2DIntersection>) -> Seq<RationalPoint>
    decreases h.len(),
{
    if h.len() == 0 {
        Seq::empty()
    } else if h.last().is_true_spec() {
        true_points(h.drop_last()).push(h.last().pos_spec().unwrap())
    } else {
        true_points(h.drop_last())
    }
}

fn row_hits_exec(
    a: &Line<IVec2>,
    bs: &Vec<Line<IVec2>>,
    tolerance: Tolerance,
    out: &mut Vec<Line2DIntersection>,
)
    requires
        tolerance.den > 0,
        forall|j: int| 0 <= j < bs@.len() ==> intersection_defined(*a, #[trigger] bs@[j], tolerance),
    ensures
        final(out)@ == old(out)@ + row_hits(*a, bs@, tolerance),
{
    let ghost start = out@;
    let n = bs.len();
    let mut j: usize = 0;
    while j < n
        invariant
            n == bs@.len(),
            j <= n,
            tolerance.den > 0,
            forall|j: int| 0 <= j < bs@.len() ==> intersection_defined(*a, #[trigger] bs@[j], tolerance),
            out@ == start + row_hits(*a, bs@.take(j as int), tolerance),
        decreases n - j,
    {
        let x = a.intersection(&bs[j], tolerance);
        proof {
            let t = bs@.take(j + 1);
            assert(t.drop_last() =~= bs@.take(j as int));
        }
        if x.intersect() {
            out.push(x);
        }
        j = j + 1;
        assert(out@ =~= start + row_hits(*a, bs@.take(j as int), tolerance));
    }
    assert(bs@.take(n as int) =~= bs@);
}

/// All touching intersections between the segments of the two lists.
pub fn all_hits_exec(a: &Vec<Line<IVec2>>, bs: &Vec<Line<IVec2>>, tolerance: Tolerance) -> (r: Vec<
    Line2DIntersection,
>)
    requires
        tolerance.den > 0,
        all_defined(a@, bs@, tolerance),
    ensures
        r@ == all_hits(a@, bs@, tolerance),
{
    let mut out: Vec<Line2DIntersection> = Vec::new();
    let n = a.len();
    let mut i: usize = 0;
    while i < n
        invariant
            n == a@.len(),
            i <= n,
            tolerance.den > 0,
            all_defined(a@, bs@, tolerance),
            out@ == all_hits(a@.take(i as int), bs@, tolerance),
        decreases n - i,
    {
        proof {
            let t = a@.take(i + 1);
            assert(t.drop_last() =~= a@.take(i as int));
            assert forall|j: int| 0 <= j < bs@.len() implies intersection_defined(
                a@[i as int],
                #[trigger] bs@[j],
                tolerance,
            ) by {
                assert(intersection_defined(a@[i as int], bs@[j], tolerance));
            }
        }
        row_hits_exec(&a[i], bs, tolerance, &mut out);
        i = i + 1;
    }
    assert(a@.take(n as int) =~= a@);
    out
}

/// The crossing points of the true intersections, in order.
pub fn true_points_exec(h: &Vec<Line2DIntersection>) -> (r: Vec<RationalPoint>)
    ensures
        r@ == true_points(h@),
{
    let mut out: Vec<RationalPoint> = Vec::new();
    let n = h.len();
    let mut i: usize = 0;
    while i < n
        invariant
            n == h@.len(),
            i <= n,
            out@ == true_points(h@.take(i as int)),
        decreases n - i,
    {
        proof {
            let t = h@.take(i + 1);
            assert(t.drop_last() =~= h@.take(i as int));
        }
        if h[i].is_true_intersection() {
            match h[i].pos() {
                Some(p) => {
                    out.push(p);
                },
                None => {},
            }
        }
        i = i + 1;
    }
    assert(h@.take(n as int) =~= h@);
    out
}

/// Intersections between the segments of two primitives.
pub trait LineIntersectable<Other: LinesIter<P = IVec2>>: LinesIter<P = IVec2> {
    /// Every touching intersection between a segment of `self` and one of `other`, ordered by
    /// the segments of `self` first.
    fn line_intersections(&self, other: &Other, tolerance: Tolerance) -> (r: Vec<Line2DIntersection>)
        requires
            tolerance.den > 0,
            all_defined(self.lines_view(), other.lines_view(), tolerance),
        ensures
            r@ == all_hits(self.lines_view(), other.lines_view(), tolerance),
    ;

    /// The first touching intersection, in the same order.
    fn first_line_intersection(&self, other: &Other, tolerance: Tolerance) -> (r: Option<Line2DIntersection>)
        requires
            tolerance.den > 0,
            all_defined(self.lines_view(), other.lines_view(), tolerance),
        ensures
            r == (if all_hits(self.lines_view(), other.lines_view(), tolerance).len() > 0 {
                Some(all_hits(self.lines_view(), other.lines_view(), tolerance)[0])
            } else {
                None
            }),
    ;

    /// The first point where a segment of `self` crosses a segment of `other` strictly inside
    /// both.
    fn first_intersection_point(&self, other: &Other, tolerance: Tolerance) -> (r: Option<RationalPoint>)
        requires
            tolerance.den > 0,
            all_defined(self.lines_view(), other.lines_view(), tolerance),
        ensures
            r == (if true_points(all_hits(self.lines_view(), other.lines_view(), tolerance)).len() > 0 {
                Some(true_points(all_hits(self.lines_view(), other.lines_view(), tolerance))[0])
            } else {
                None
            }),
    ;

    /// All points where a segment of `self` crosses a segment of `other` strictly inside both.
    fn intersection_points(&self, other: &Other, tolerance: Tolerance) -> (r: Vec<RationalPoint>)
        requires
            tolerance.den > 0,
            all_defined(self.lines_view(), other.lines_view(), tolerance),
        ensures
            r@ == true_points(all_hits(self.lines_view(), other.lines_view(), tolerance)),
    ;
}

impl<S: LinesIter<P = IVec2>, O: LinesIter<P = IVec2>> LineIntersectable<O> for S {
    fn line_intersections(&self, other: &O, tolerance: Tolerance) -> (r: Vec<Line2DIntersection>) {
        let a = self.iter_lines();
        let b = other.iter_lines();
        all_hits_exec(&a, &b, tolerance)
    }

    fn first_line_intersection(&self, other: &O, tolerance: Tolerance) -> (r: Option<Line2DIntersection>) {
        let h = self.line_intersections(other, tolerance);
        if h.len() > 0 {
            Some(h[0])
        } else {
            None
        }
    }

    fn first_intersection_point(&self, other: &O, tolerance: Tolerance) -> (r: Option<RationalPoint>) {
        let p = self.intersection_points(other, tolerance);
        if p.len() > 0 {
            Some(p[0])
        } else {
            None
        }
    }

    fn intersection_points(&self, other: &O, tolerance: Tolerance) -> (r: Vec<RationalPoint>) {
        let h = self.line_intersections(other, tolerance);
        true_points_exec(&h)
    }
}

} // verus!

use vstd::prelude::*;

use crate::point::IVec2;
use crate::primitives::Line;

verus! {

/// The rational number `num / den`; `den` is positive.
#[derive(Debug, Clone, Copy, PartialEq, Eq, Structural)]
pub struct Fraction {
    pub num: i128,
    pub den: i128,
}

/// The point `(x / den, y / den)`; `den` is positive.
#[derive(Debug, Clone, Copy, PartialEq, Eq, Structural)]
pub struct RationalPoint {
    pub x: i128,
    pub y: i128,
    pub den: i128,
}

impl RationalPoint {
    /// The integer point as a rational point.
    pub fn from_point(p: IVec2) -> (r: RationalPoint)
        ensures
            r == (RationalPoint { x: p.x as i128, y: p.y as i128, den: 1 }),
    {
        RationalPoint { x: p.x as i128, y: p.y as i128, den: 1 }
    }
}

/// A non-negative tolerance `num / den` on the position `t` of an intersection along a
/// segment (`t = 0` at the source, `t = 1` at the destination); `den` is positive.
#[derive(Debug, Clone, Copy, PartialEq, Eq, Structural)]
pub struct Tolerance {
    pub num: u32,
    pub den: u32,
}

impl Tolerance {
    /// No tolerance: positions are classified exactly.
    pub fn exact() -> (r: Tolerance)
        ensures
            r == (Tolerance { num: 0, den: 1 }),
    {
        Tolerance { num: 0, den: 1 }
    }
}

/// `t < -tol`, for a fraction `t` with a positive denominator.
pub open spec fn before_src(f: Fraction, tol: Tolerance) -> bool {
    f.num * tol.den < -(tol.num * f.den)
}

/// `t > 1 + tol`, for a fraction `t` with a positive denominator.
pub open spec fn after_dst(f: Fraction, tol: Tolerance) -> bool {
    f.num * tol.den > (tol.den + tol.num) * f.den
}

/// `|t| <= tol`.
pub open spec fn near_src(f: Fraction, tol: Tolerance) -> bool {
    -(tol.num * f.den) <= f.num * tol.den <= tol.num * f.den
}

/// `|t - 1| <= tol`.
pub open spec fn near_dst(f: Fraction, tol: Tolerance) -> bool {
    -(tol.num * f.den) <= (f.num - f.den) * tol.den <= tol.num * f.den
}

/// `tol < t < 1 - tol`.
pub open spec fn well_inside(f: Fraction, tol: Tolerance) -> bool {
    tol.num * f.den < f.num * tol.den && f.num * tol.den < (tol.den - tol.num) * f.den
}

/// The fraction has a positive denominator and both parts stay within `2^80`, so that the
/// comparisons with a tolerance fit into `i128`.
pub open spec fn small_fraction(f: Fraction) -> bool {
    0 < f.den <= 0x1_0000_0000_0000_0000_0000 && -0x1_0000_0000_0000_0000_0000 <= f.num
        <= 0x1_0000_0000_0000_0000_0000
}

/// Position of an intersection relative to one segment, by its parameter `t` along the
/// segment (`src + t * (dst - src)`).
#[derive(Debug, Clone, Copy, PartialEq, Eq, Structural)]
pub enum Line2DIntersectionKind {
    /// `0 <= t <= 1`
    Inside(Fraction),
    /// `t < 0`
    OutsideSrc(Fraction),
    /// `t > 1`
    OutsideDst(Fraction),
}

/// The result of intersecting two segments.
#[derive(Debug, Clone, Copy, PartialEq)]
pub enum Line2DIntersection {
    /// The supporting lines cross at the given point, which lies at the given positions
    /// relative to the first and the second segment.
    Simple(RationalPoint, Line2DIntersectionKind, Line2DIntersectionKind),
    /// The segments are collinear and share the segment between the two given points, which
    /// lie on the first segment.
    CollinearOverlap(RationalPoint, RationalPoint),
    /// The segments are collinear but do not touch.
    CollinearDisjoint,
    /// The segments are collinear and touch at the given point only.
    CollinearTouch(IVec2),
    /// The segments are parallel but not collinear.
    ParallelNonCollinear,
}

/// Cross (perp-dot) product of two integer vectors.
pub open spec fn cross(ax: int, ay: int, bx: int, by: int) -> int {
    ax * by - ay * bx
}

/// Dot product of two integer vectors.
pub open spec fn dot(ax: int, ay: int, bx: int, by: int) -> int {
    ax * bx + ay * by
}

/// The position of a parameter relative to a segment, widened by a tolerance: inside when
/// `-tol <= t <= 1 + tol`.
pub open spec fn kind_of(f: Fraction, tol: Tolerance) -> Line2DIntersectionKind {
    if before_src(f, tol) {
        Line2DIntersectionKind::OutsideSrc(f)
    } else if after_dst(f, tol) {
        Line2DIntersectionKind::OutsideDst(f)
    } else {
        Line2DIntersectionKind::Inside(f)
    }
}

/// `r x s` for the directions `r` of `a` and `s` of `b`: zero exactly when the segments are
/// parallel.
pub open spec fn direction_cross(a: Line<IVec2>, b: Line<IVec2>) -> int {
    cross(a.0[1].x - a.0[0].x, a.0[1].y - a.0[0].y, b.0[1].x - b.0[0].x, b.0[1].y - b.0[0].y)
}

/// Where the supporting line of `b` crosses that of `a`, as a position along `a`: by Cramer's
/// rule `t = ((b.src - a.src) x s) / (r x s)`, written with the positive denominator
/// `|r x s|`. Meaningful where the segments are not parallel.
pub open spec fn crossing_position(a: Line<IVec2>, b: Line<IVec2>) -> Fraction {
    let det = direction_cross(a, b);
    let tn = cross(
        b.0[0].x - a.0[0].x,
        b.0[0].y - a.0[0].y,
        b.0[1].x - b.0[0].x,
        b.0[1].y - b.0[0].y,
    );
    if det > 0 {
        Fraction { num: tn as i128, den: det as i128 }
    } else {
        Fraction { num: (-tn) as i128, den: (-det) as i128 }
    }
}

/// `|v| <= 10 tol`, compared exactly: the threshold below which a cross product counts as
/// zero, so that the segments count as parallel (or collinear).
pub open spec fn nearly_zero(v: int, tol: Tolerance) -> bool {
    (if v < 0 {
        -v
    } else {
        v
    }) * tol.den <= 10 * tol.num
}

/// `x > tol * sqrt(len2)`, compared exactly: the length `x` (measured along a segment of squared
/// length `len2`, in units of that length) exceeds the tolerance.
pub open spec fn beyond_tolerance(x: int, tol: Tolerance, len2: int) -> bool {
    x * tol.den > 0 && (x * tol.den) * (x * tol.den) > (tol.num * tol.num) * len2
}

/// `|x| <= tol * sqrt(len2)`: the distance `x / sqrt(len2)` lies within the tolerance.
pub open spec fn within_tolerance(x: int, tol: Tolerance, len2: int) -> bool {
    !beyond_tolerance(
        if x < 0 {
            -x
        } else {
            x
        },
        tol,
        len2,
    )
}

/// The point `a.src + (s / len2) * (a.dst - a.src)` on segment `a`, over the denominator `len2`.
pub open spec fn point_along(a: Line<IVec2>, s: int, len2: int) -> RationalPoint {
    RationalPoint {
        x: (a.0[0].x * len2 + (a.0[1].x - a.0[0].x) * s) as i128,
        y: (a.0[0].y * len2 + (a.0[1].y - a.0[0].y) * s) as i128,
        den: len2 as i128,
    }
}

/// `|dx| <= tol * len2` and `|dy| <= tol * len2`: two points whose difference is
/// `(dx, dy) / len2` are equal within the tolerance in each coordinate.
pub open spec fn offset_within(dx: int, dy: int, len2: int, tol: Tolerance) -> bool {
    &&& (if dx < 0 {
        -dx
    } else {
        dx
    }) * tol.den <= tol.num * len2
    &&& (if dy < 0 {
        -dy
    } else {
        dy
    }) * tol.den <= tol.num * len2
}

/// The intersection of two segments whose directions count as parallel (`nearly_zero` of
/// their cross product). If the source of `b` lies too far from the supporting line of `a`,
/// measured by `(b.src - a.src) x r` against `nearly_zero`, they are not collinear. Otherwise
/// the end points of `b` are placed along `a` by their projections `(p - a.src) . r`, which,
/// divided by `|r|`, are distances from `a.src`; `a` itself spans `0 ..= |r|`. Beyond either
/// end by more than the tolerance the segments are disjoint; within the tolerance of an end
/// they touch there; else they share the part of `a` between the projections, clipped to `a`,
/// unless its two end points are equal within the tolerance: then there is no result here
/// (`None`) and the segments are intersected as crossing lines.
pub open spec fn parallel_intersection(a: Line<IVec2>, b: Line<IVec2>, tol: Tolerance) -> Option<
    Line2DIntersection,
> {
    let (ax, ay) = (a.0[0].x as int, a.0[0].y as int);
    let (rx, ry) = (a.0[1].x - ax, a.0[1].y - ay);
    if !nearly_zero(cross(b.0[0].x - ax, b.0[0].y - ay, rx, ry), tol) {
        Some(Line2DIntersection::ParallelNonCollinear)
    } else {
        let len2 = dot(rx, ry, rx, ry);
        let pa = dot(b.0[0].x - ax, b.0[0].y - ay, rx, ry);
        let pb = dot(b.0[1].x - ax, b.0[1].y - ay, rx, ry);
        let (lo, hi) = if pa > pb {
            (pb, pa)
        } else {
            (pa, pb)
        };
        if beyond_tolerance(lo - len2, tol, len2) || beyond_tolerance(-hi, tol, len2) {
            Some(Line2DIntersection::CollinearDisjoint)
        } else if within_tolerance(lo - len2, tol, len2) {
            Some(Line2DIntersection::CollinearTouch(a.0[1]))
        } else if within_tolerance(hi, tol, len2) {
            Some(Line2DIntersection::CollinearTouch(a.0[0]))
        } else {
            let s0 = if lo > 0 {
                lo
            } else {
                0
            };
            let s1 = if hi < len2 {
                hi
            } else {
                len2
            };
            if offset_within(rx * (s1 - s0), ry * (s1 - s0), len2, tol) {
                None
            } else {
                Some(
                    Line2DIntersection::CollinearOverlap(
                        point_along(a, s0, len2),
                        point_along(a, s1, len2),
                    ),
                )
            }
        }
    }
}

/// `p` is the point of segment `a` at position `s / (r . r)` (with `r = a.dst - a.src`),
/// between the end points of `a`, and between the projections onto `a` of the end points of
/// `b`, that is between `(b.src - a.src) . r` and `(b.dst - a.src) . r`.
pub open spec fn on_overlap_at(a: Line<IVec2>, b: Line<IVec2>, p: RationalPoint, s: int) -> bool {
    let (rx, ry) = (a.0[1].x - a.0[0].x, a.0[1].y - a.0[0].y);
    let len2 = rx * rx + ry * ry;
    let pa = (b.0[0].x - a.0[0].x) * rx + (b.0[0].y - a.0[0].y) * ry;
    let pb = (b.0[1].x - a.0[0].x) * rx + (b.0[1].y - a.0[0].y) * ry;
    &&& p.den == len2
    &&& p.x == a.0[0].x * len2 + rx * s
    &&& p.y == a.0[0].y * len2 + ry * s
    &&& 0 <= s <= len2
    &&& (pa <= s <= pb || pb <= s <= pa)
}

/// The shared part of two collinear segments lies on both: each end point of an overlap is a
/// point of the first segment between its end points, within the extent of the second segment
/// along the first, and the overlap runs forward along the first segment.
pub proof fn lemma_overlap_within_both(a: Line<IVec2>, b: Line<IVec2>, tol: Tolerance)
    ensures
        parallel_intersection(a, b, tol) matches Some(
            Line2DIntersection::CollinearOverlap(p0, p1),
        ) ==> exists|s0: int, s1: int|
            #![trigger on_overlap_at(a, b, p0, s0), on_overlap_at(a, b, p1, s1)]
            on_overlap_at(a, b, p0, s0) && on_overlap_at(a, b, p1, s1) && s0 <= s1,
{
    if let Some(Line2DIntersection::CollinearOverlap(p0, p1)) = parallel_intersection(a, b, tol) {
        let (ax, ay) = (a.0[0].x as int, a.0[0].y as int);
        let (rx, ry) = (a.0[1].x - ax, a.0[1].y - ay);
        let len2 = dot(rx, ry, rx, ry);
        let pa = dot(b.0[0].x - ax, b.0[0].y - ay, rx, ry);
        let pb = dot(b.0[1].x - ax, b.0[1].y - ay, rx, ry);
        let (lo, hi) = if pa > pb {
            (pb, pa)
        } else {
            (pa, pb)
        };
        assert(len2 >= 0) by (nonlinear_arith)
            requires
                len2 == rx * rx + ry * ry,
        ;
        assert(lo < len2);
        assert(hi > 0);
        let s0 = if lo > 0 {
            lo
        } else {
            0
        };
        let s1 = if hi < len2 {
            hi
        } else {
            len2
        };
        lemma_mul_bound(rx, rx, 0x1_0000_0000, 0x1_0000_0000);
        lemma_mul_bound(ry, ry, 0x1_0000_0000, 0x1_0000_0000);
        lemma_mul_bound(ax, len2, 0x8000_0000, 0x4_0000_0000_0000_0000);
        lemma_mul_bound(ay, len2, 0x8000_0000, 0x4_0000_0000_0000_0000);
        lemma_mul_bound(rx, s0, 0x1_0000_0000, 0x4_0000_0000_0000_0000);
        lemma_mul_bound(ry, s0, 0x1_0000_0000, 0x4_0000_0000_0000_0000);
        lemma_mul_bound(rx, s1, 0x1_0000_0000, 0x4_0000_0000_0000_0000);
        lemma_mul_bound(ry, s1, 0x1_0000_0000, 0x4_0000_0000_0000_0000);
        assert(p0 == point_along(a, s0, len2));
        assert(p1 == point_along(a, s1, len2));
        assert(on_overlap_at(a, b, p0, s0));
        assert(on_overlap_at(a, b, p1, s1));
    }
}

/// The result of the parallel case, where it applies: `Some` when the directions count as
/// parallel and that case gives a result.
pub open spec fn parallel_result(a: Line<IVec2>, b: Line<IVec2>, tol: Tolerance) -> Option<
    Line2DIntersection,
> {
    if nearly_zero(direction_cross(a, b), tol) {
        parallel_intersection(a, b, tol)
    } else {
        None
    }
}

/// The intersection is defined: the segments are intersected as crossing lines only where
/// their directions are not exactly parallel.
pub open spec fn intersection_defined(a: Line<IVec2>, b: Line<IVec2>, tol: Tolerance) -> bool {
    parallel_result(a, b, tol) is Some || direction_cross(a, b) != 0
}

/// Swapping the segments negates both the cross product of their directions and that of the
/// offset between their sources with the first direction.
proof fn lemma_cross_swap(a: Line<IVec2>, b: Line<IVec2>)
    ensures
        direction_cross(b, a) == -direction_cross(a, b),
        cross(
            a.0[0].x - b.0[0].x,
            a.0[0].y - b.0[0].y,
            a.0[1].x - a.0[0].x,
            a.0[1].y - a.0[0].y,
        ) == -cross(
            b.0[0].x - a.0[0].x,
            b.0[0].y - a.0[0].y,
            a.0[1].x - a.0[0].x,
            a.0[1].y - a.0[0].y,
        ),
{
    let (rx, ry) = (a.0[1].x - a.0[0].x, a.0[1].y - a.0[0].y);
    let (sx, sy) = (b.0[1].x - b.0[0].x, b.0[1].y - b.0[0].y);
    let (qx, qy) = (b.0[0].x - a.0[0].x, b.0[0].y - a.0[0].y);
    assert(cross(sx, sy, rx, ry) == -cross(rx, ry, sx, sy)) by (nonlinear_arith);
    assert(cross(-qx, -qy, rx, ry) == -cross(qx, qy, rx, ry)) by (nonlinear_arith);
}

/// The exact intersection of the segments `a` and `b`. Where the parallel case gives a result
/// (`parallel_result`), that is it. Else the supporting lines cross at the point at position
/// `crossing_position(a, b)` along `a`, which lies at position `crossing_position(b, a)` along
/// `b` (`lemma_crossing_on_both`); each position is classified with the tolerance (`kind_of`).
pub open spec fn intersection_of(a: Line<IVec2>, b: Line<IVec2>, tol: Tolerance) -> Line2DIntersection {
    match parallel_result(a, b, tol) {
        Some(x) => x,
        None => {
            let t = crossing_position(a, b);
            Line2DIntersection::Simple(
                RationalPoint {
                    x: point_at_x(a, t) as i128,
                    y: point_at_y(a, t) as i128,
                    den: t.den,
                },
                kind_of(t, tol),
                kind_of(crossing_position(b, a), tol),
            )
        },
    }
}

/// Bounds for products of coordinate differences.
proof fn lemma_mul_bound(a: int, b: int, ba: int, bb: int)
    requires
        -ba <= a <= ba,
        -bb <= b <= bb,
        ba >= 0,
        bb >= 0,
    ensures
        -(ba * bb) <= a * b <= ba * bb,
{
    assert(-(ba * bb) <= a * b <= ba * bb) by (nonlinear_arith)
        requires
            -ba <= a <= ba,
            -bb <= b <= bb,
            ba >= 0,
            bb >= 0,
    ;
}

fn cross_exec(ax: i64, ay: i64, bx: i64, by: i64) -> (r: i128)
    requires
        -0x1_0000_0000 <= ax <= 0x1_0000_0000,
        -0x1_0000_0000 <= ay <= 0x1_0000_0000,
        -0x1_0000_0000 <= bx <= 0x1_0000_0000,
        -0x1_0000_0000 <= by <= 0x1_0000_0000,
    ensures
        r == cross(ax as int, ay as int, bx as int, by as int),
        -0x2_0000_0000_0000_0000 <= r <= 0x2_0000_0000_0000_0000,
{
    proof {
        lemma_mul_bound(ax as int, by as int, 0x1_0000_0000, 0x1_0000_0000);
        lemma_mul_bound(ay as int, bx as int, 0x1_0000_0000, 0x1_0000_0000);
    }
    (ax as i128) * (by as i128) - (ay as i128) * (bx as i128)
}

fn dot_exec(ax: i64, ay: i64, bx: i64, by: i64) -> (r: i128)
    requires
        -0x1_0000_0000 <= ax <= 0x1_0000_0000,
        -0x1_0000_0000 <= ay <= 0x1_0000_0000,
        -0x1_0000_0000 <= bx <= 0x1_0000_0000,
        -0x1_0000_0000 <= by <= 0x1_0000_0000,
    ensures
        r == dot(ax as int, ay as int, bx as int, by as int),
        -0x2_0000_0000_0000_0000 <= r <= 0x2_0000_0000_0000_0000,
{
    proof {
        lemma_mul_bound(ax as int, bx as int, 0x1_0000_0000, 0x1_0000_0000);
        lemma_mul_bound(ay as int, by as int, 0x1_0000_0000, 0x1_0000_0000);
    }
    (ax as i128) * (bx as i128) + (ay as i128) * (by as i128)
}

fn kind_exec(f: Fraction, tol: Tolerance) -> (r: Line2DIntersectionKind)
    requires
        small_fraction(f),
        tol.den > 0,
    ensures
        r == kind_of(f, tol),
{
    proof {
        lemma_mul_bound(f.num as int, tol.den as int, 0x1_0000_0000_0000_0000_0000, 0x1_0000_0000);
        lemma_mul_bound(tol.num as int, f.den as int, 0x1_0000_0000, 0x1_0000_0000_0000_0000_0000);
        lemma_mul_bound(
            (tol.den + tol.num) as int,
            f.den as int,
            0x2_0000_0000,
            0x1_0000_0000_0000_0000_0000,
        );
    }
    let (tn, td) = (tol.num as i128, tol.den as i128);
    if f.num * td < -(tn * f.den) {
        Line2DIntersectionKind::OutsideSrc(f)
    } else if f.num * td > (td + tn) * f.den {
        Line2DIntersectionKind::OutsideDst(f)
    } else {
        Line2DIntersectionKind::Inside(f)
    }
}

/// The square of `q = k n + rho` against `n^2 len2`, split so that the comparison of the last
/// case fits machine integers.
proof fn lemma_root_split(q: int, n: int, k: int, rho: int, len2: int)
    requires
        n > 0,
        k >= 0,
        0 <= rho < n,
        q == k * n + rho,
        len2 >= 0,
    ensures
        k * k > len2 ==> q * q > (n * n) * len2,
        (k + 1) * (k + 1) <= len2 ==> q * q <= (n * n) * len2,
        q * q - (n * n) * len2 == 2 * k * n * rho + rho * rho - (n * n) * (len2 - k * k),
{
    assert(q * q - (n * n) * len2 == 2 * k * n * rho + rho * rho - (n * n) * (len2 - k * k))
        by (nonlinear_arith)
        requires
            q == k * n + rho,
    ;
    if k * k > len2 {
        assert(q * q >= (k * n) * (k * n)) by (nonlinear_arith)
            requires
                0 <= k * n <= q,
        ;
        assert((k * n) * (k * n) == (n * n) * (k * k)) by (nonlinear_arith);
        assert((n * n) * (k * k) > (n * n) * len2) by (nonlinear_arith)
            requires
                n > 0,
                k * k > len2,
        ;
    }
    if (k + 1) * (k + 1) <= len2 {
        assert(0 <= q < (k + 1) * n) by (nonlinear_arith)
            requires
                q == k * n + rho,
                0 <= rho < n,
                k >= 0,
        ;
        assert(q * q <= ((k + 1) * n) * ((k + 1) * n)) by (nonlinear_arith)
            requires
                0 <= q < (k + 1) * n,
        ;
        assert(((k + 1) * n) * ((k + 1) * n) == (n * n) * ((k + 1) * (k + 1)))
            by (nonlinear_arith);
        assert((n * n) * ((k + 1) * (k + 1)) <= (n * n) * len2) by (nonlinear_arith)
            requires
                n > 0,
                (k + 1) * (k + 1) <= len2,
        ;
    }
}

/// Whether `q > n * sqrt(len2)`, that is `q > 0` and `q^2 > n^2 len2`, computed exactly.
fn exceeds_root(q: i128, n: u32, len2: i128) -> (r: bool)
    requires
        0 <= len2 <= 0x4_0000_0000_0000_0000,
        -0x10_0000_0000_0000_0000_0000_0000 <= q <= 0x10_0000_0000_0000_0000_0000_0000,
    ensures
        r == (q > 0 && q * q > (n * n) * len2),
{
    if q <= 0 {
        return false;
    }
    if n == 0 {
        assert(q * q > 0) by (nonlinear_arith)
            requires
                q > 0,
        ;
        assert((n * n) * len2 == 0) by (nonlinear_arith)
            requires
                n == 0,
        ;
        return true;
    }
    let qu = q as u128;
    let nu = n as u128;
    let lu = len2 as u128;
    let k = qu / nu;
    let rho = qu % nu;
    proof {
        vstd::arithmetic::div_mod::lemma_fundamental_div_mod(qu as int, nu as int);
        vstd::arithmetic::div_mod::lemma_mod_pos_bound(qu as int, nu as int);
        lemma_root_split(q as int, n as int, k as int, rho as int, len2 as int);
    }
    if k > 0x4_0000_0000 {
        assert(k * k > len2) by (nonlinear_arith)
            requires
                k > 0x4_0000_0000,
                len2 <= 0x4_0000_0000_0000_0000,
        ;
        assert(q * q > (n * n) * len2);
        return true;
    }
    assert(k * k <= 0x10_0000_0000_0000_0000) by (nonlinear_arith)
        requires
            0 <= k <= 0x4_0000_0000,
    ;
    let k2 = k * k;
    if k2 > lu {
        assert(q * q > (n * n) * len2);
        return true;
    }
    let k1 = k + 1;
    assert(k1 * k1 <= 0x20_0000_0000_0000_0000) by (nonlinear_arith)
        requires
            0 <= k1 <= 0x4_0000_0001,
    ;
    if k1 * k1 <= lu {
        assert(q * q <= (n * n) * len2);
        return false;
    }
    proof {
        assert(k <= 0x2_0000_0000) by (nonlinear_arith)
            requires
                k * k <= len2,
                len2 <= 0x4_0000_0000_0000_0000,
                k >= 0,
        ;
        assert(lu - k2 <= 2 * k + 1) by (nonlinear_arith)
            requires
                lu < (k + 1) * (k + 1),
                k2 == k * k,
        ;
        assert(2 * k * nu <= 0x4_0000_0000_0000_0000) by (nonlinear_arith)
            requires
                0 <= k <= 0x2_0000_0000,
                0 < nu < 0x1_0000_0000,
        ;
        assert((2 * k * nu) * rho <= 0x4_0000_0000_0000_0000_0000_0000) by (nonlinear_arith)
            requires
                0 <= 2 * k * nu <= 0x4_0000_0000_0000_0000,
                0 <= rho < 0x1_0000_0000,
        ;
        assert(nu * nu <= 0x1_0000_0000_0000_0000) by (nonlinear_arith)
            requires
                0 < nu < 0x1_0000_0000,
        ;
        assert(rho * rho <= 0x1_0000_0000_0000_0000) by (nonlinear_arith)
            requires
                0 <= rho < 0x1_0000_0000,
        ;
        assert(nu * nu * (lu - k2) <= 0x8_0000_0000_0000_0000_0000_0000) by (nonlinear_arith)
            requires
                0 < nu < 0x1_0000_0000,
                0 <= lu - k2 <= 0x4_0000_0001,
        ;
    }
    let k_n = 2 * k * nu;
    assert(k_n * rho == 2 * k * nu * rho) by (nonlinear_arith)
        requires
            k_n == 2 * k * nu,
    ;
    let lhs = k_n * rho + rho * rho;
    let n2 = nu * nu;
    let rhs = n2 * (lu - k2);
    assert((lhs > rhs) == (q * q > (n * n) * len2));
    lhs > rhs
}

/// `beyond_tolerance`, computed exactly.
fn beyond_exec(x: i128, tol: Tolerance, len2: i128) -> (r: bool)
    requires
        -0x8_0000_0000_0000_0000 <= x <= 0x8_0000_0000_0000_0000,
        0 <= len2 <= 0x4_0000_0000_0000_0000,
    ensures
        r == beyond_tolerance(x as int, tol, len2 as int),
{
    proof {
        lemma_mul_bound(x as int, tol.den as int, 0x8_0000_0000_0000_0000, 0x1_0000_0000);
    }
    exceeds_root(x * (tol.den as i128), tol.num, len2)
}

/// `within_tolerance`, computed exactly.
fn within_exec(x: i128, tol: Tolerance, len2: i128) -> (r: bool)
    requires
        -0x8_0000_0000_0000_0000 <= x <= 0x8_0000_0000_0000_0000,
        0 <= len2 <= 0x4_0000_0000_0000_0000,
    ensures
        r == within_tolerance(x as int, tol, len2 as int),
{
    let a = if x < 0 {
        -x
    } else {
        x
    };
    !beyond_exec(a, tol, len2)
}

/// `nearly_zero`, computed exactly.
fn nearly_zero_exec(v: i128, tol: Tolerance) -> (r: bool)
    requires
        -0x8_0000_0000_0000_0000 <= v <= 0x8_0000_0000_0000_0000,
    ensures
        r == nearly_zero(v as int, tol),
{
    let a = if v < 0 {
        -v
    } else {
        v
    };
    proof {
        lemma_mul_bound(a as int, tol.den as int, 0x8_0000_0000_0000_0000, 0x1_0000_0000);
    }
    a * (tol.den as i128) <= 10 * (tol.num as i128)
}

/// `|d| * tol.den <= tol.num * len2`, computed exactly.
fn offset_coord_within(d: i128, len2: i128, tol: Tolerance) -> (r: bool)
    requires
        -0x8_0000_0000_0000_0000_0000_0000 <= d <= 0x8_0000_0000_0000_0000_0000_0000,
        0 <= len2 <= 0x4_0000_0000_0000_0000,
    ensures
        r == ((if d < 0 {
            -(d as int)
        } else {
            d as int
        }) * tol.den <= tol.num * len2),
{
    let a = if d < 0 {
        -d
    } else {
        d
    };
    proof {
        lemma_mul_bound(tol.num as int, len2 as int, 0x1_0000_0000, 0x4_0000_0000_0000_0000);
        assert(a * tol.den >= 0) by (nonlinear_arith)
            requires
                a >= 0,
                tol.den >= 0,
        ;
    }
    let bound = (tol.num as i128) * len2;
    match a.checked_mul(tol.den as i128) {
        Some(p) => p <= bound,
        None => false,
    }
}

/// The point `a.src + (s / len2) * r`, over the denominator `len2`.
fn point_along_exec(a: &Line<IVec2>, s: i128, len2: i128) -> (r: RationalPoint)
    requires
        -0x4_0000_0000_0000_0000 <= s <= 0x4_0000_0000_0000_0000,
        0 <= len2 <= 0x4_0000_0000_0000_0000,
    ensures
        r == point_along(*a, s as int, len2 as int),
        -0x10_0000_0000_0000_0000_0000_0000 <= r.x <= 0x10_0000_0000_0000_0000_0000_0000,
        -0x10_0000_0000_0000_0000_0000_0000 <= r.y <= 0x10_0000_0000_0000_0000_0000_0000,
        r.den == len2,
{
    let ax = a.0[0].x as i128;
    let ay = a.0[0].y as i128;
    let rx = a.0[1].x as i128 - ax;
    let ry = a.0[1].y as i128 - ay;
    proof {
        lemma_mul_bound(ax as int, len2 as int, 0x8000_0000, 0x4_0000_0000_0000_0000);
        lemma_mul_bound(ay as int, len2 as int, 0x8000_0000, 0x4_0000_0000_0000_0000);
        lemma_mul_bound(rx as int, s as int, 0x1_0000_0000, 0x4_0000_0000_0000_0000);
        lemma_mul_bound(ry as int, s as int, 0x1_0000_0000, 0x4_0000_0000_0000_0000);
    }
    RationalPoint { x: ax * len2 + rx * s, y: ay * len2 + ry * s, den: len2 }
}

/// The intersection of two segments whose directions count as parallel (see
/// `parallel_intersection`).
fn parallel_exec(a: &Line<IVec2>, b: &Line<IVec2>, tol: Tolerance) -> (r: Option<Line2DIntersection>)
    ensures
        r == parallel_intersection(*a, *b, tol),
        r matches Some(x) ==> x.pos_ready(),
{
    let ax = a.0[0].x as i64;
    let ay = a.0[0].y as i64;
    let rx = a.0[1].x as i64 - ax;
    let ry = a.0[1].y as i64 - ay;
    let qx = b.0[0].x as i64 - ax;
    let qy = b.0[0].y as i64 - ay;
    let cp = cross_exec(qx, qy, rx, ry);
    if !nearly_zero_exec(cp, tol) {
        return Some(Line2DIntersection::ParallelNonCollinear);
    }
    let len2 = dot_exec(rx, ry, rx, ry);
    assert(len2 >= 0) by (nonlinear_arith)
        requires
            len2 == rx * rx + ry * ry,
    ;
    let pa = dot_exec(qx, qy, rx, ry);
    let pb = dot_exec(b.0[1].x as i64 - ax, b.0[1].y as i64 - ay, rx, ry);
    let (lo, hi) = if pa > pb {
        (pb, pa)
    } else {
        (pa, pb)
    };
    if beyond_exec(lo - len2, tol, len2) || beyond_exec(-hi, tol, len2) {
        Some(Line2DIntersection::CollinearDisjoint)
    } else if within_exec(lo - len2, tol, len2) {
        Some(Line2DIntersection::CollinearTouch(a.0[1]))
    } else if within_exec(hi, tol, len2) {
        Some(Line2DIntersection::CollinearTouch(a.0[0]))
    } else {
        let s0 = if lo > 0 {
            lo
        } else {
            0
        };
        let s1 = if hi < len2 {
            hi
        } else {
            len2
        };
        proof {
            lemma_mul_bound(rx as int, (s1 - s0) as int, 0x1_0000_0000, 0x4_0000_0000_0000_0000);
            lemma_mul_bound(ry as int, (s1 - s0) as int, 0x1_0000_0000, 0x4_0000_0000_0000_0000);
        }
        let dx = (rx as i128) * (s1 - s0);
        let dy = (ry as i128) * (s1 - s0);
        if offset_coord_within(dx, len2, tol) && offset_coord_within(dy, len2, tol) {
            None
        } else {
            let p0 = point_along_exec(a, s0, len2);
            let p1 = point_along_exec(a, s1, len2);
            Some(Line2DIntersection::CollinearOverlap(p0, p1))
        }
    }
}

impl Line<IVec2> {
    /// Intersects this segment with another one (see `intersection_of`), with a tolerance:
    /// directions whose cross product is within `10 tol` count as parallel, and then the
    /// segments as collinear when the offset of `o` is within the same bound, with touching and
    /// overlaps decided within `tol` of length; where the segments cross, their supporting lines
    /// cross at a point that lies on both, at the returned positions, and each position counts
    /// as inside its segment when it lies within `tol` of it. Exactly parallel segments whose
    /// overlap is shorter than the tolerance have no crossing point to give; they are left out
    /// (`intersection_defined`).
    pub fn intersection(&self, o: &Self, tolerance: Tolerance) -> (r: Line2DIntersection)
        requires
            tolerance.den > 0,
            intersection_defined(*self, *o, tolerance),
        ensures
            r == intersection_of(*self, *o, tolerance),
            !nearly_zero(direction_cross(*self, *o), tolerance) ==> r is Simple,
            r.pos_ready(),
            r matches Line2DIntersection::Simple(p, ka, kb) ==> {
                &&& p.den > 0
                &&& ka.scalar_spec().den == p.den
                &&& kb.scalar_spec().den == p.den
                &&& p.x == point_at_x(*self, ka.scalar_spec())
                &&& p.y == point_at_y(*self, ka.scalar_spec())
                &&& p.x == point_at_x(*o, kb.scalar_spec())
                &&& p.y == point_at_y(*o, kb.scalar_spec())
                &&& in_band(ka, tolerance)
                &&& in_band(kb, tolerance)
                &&& small_fraction(ka.scalar_spec())
                &&& small_fraction(kb.scalar_spec())
            },
    {
        proof {
            lemma_crossing_on_both(*self, *o, tolerance);
        }
        let a = self.0[0];
        let ax = a.x as i64;
        let ay = a.y as i64;
        let rx = self.0[1].x as i64 - ax;
        let ry = self.0[1].y as i64 - ay;
        let sx = o.0[1].x as i64 - o.0[0].x as i64;
        let sy = o.0[1].y as i64 - o.0[0].y as i64;
        let qx = o.0[0].x as i64 - ax;
        let qy = o.0[0].y as i64 - ay;
        let det = cross_exec(rx, ry, sx, sy);
        if nearly_zero_exec(det, tolerance) {
            match parallel_exec(self, o, tolerance) {
                Some(x) => {
                    return x;
                },
                None => {},
            }
        }
        {
            let tn0 = cross_exec(qx, qy, sx, sy);
            let un0 = cross_exec(qx, qy, rx, ry);
            let (tn, un, d) = if det > 0 {
                (tn0, un0, det)
            } else {
                (-tn0, -un0, -det)
            };
            proof {
                lemma_mul_bound(ax as int, d as int, 0x8000_0000, 0x2_0000_0000_0000_0000);
                lemma_mul_bound(ay as int, d as int, 0x8000_0000, 0x2_0000_0000_0000_0000);
                lemma_mul_bound(rx as int, tn as int, 0x1_0000_0000, 0x2_0000_0000_0000_0000);
                lemma_mul_bound(ry as int, tn as int, 0x1_0000_0000, 0x2_0000_0000_0000_0000);
                lemma_cross_swap(*self, *o);
                assert(Fraction { num: tn, den: d } == crossing_position(*self, *o));
                assert(Fraction { num: un, den: d } == crossing_position(*o, *self));
            }
            let p = RationalPoint {
                x: (ax as i128) * d + (rx as i128) * tn,
                y: (ay as i128) * d + (ry as i128) * tn,
                den: d,
            };
            Line2DIntersection::Simple(
                p,
                kind_exec(Fraction { num: tn, den: d }, tolerance),
                kind_exec(Fraction { num: un, den: d }, tolerance),
            )
        }
    }
}

/// The position's band agrees with the tolerance: outside before the source when
/// `t < -tol`, outside after the destination when `t > 1 + tol`, inside otherwise.
pub open spec fn in_band(k: Line2DIntersectionKind, tol: Tolerance) -> bool {
    match k {
        Line2DIntersectionKind::OutsideSrc(t) => before_src(t, tol),
        Line2DIntersectionKind::OutsideDst(t) => !before_src(t, tol) && after_dst(t, tol),
        Line2DIntersectionKind::Inside(t) => !before_src(t, tol) && !after_dst(t, tol),
    }
}

/// The products that compare a small fraction with a tolerance fit into `i128`.
proof fn lemma_tolerance_products(f: Fraction, tol: Tolerance)
    requires
        small_fraction(f),
    ensures
        -0x1_0000_0000_0000_0000_0000_0000_0000 <= f.num * tol.den
            <= 0x1_0000_0000_0000_0000_0000_0000_0000,
        -0x2_0000_0000_0000_0000_0000_0000_0000 <= (f.num - f.den) * tol.den
            <= 0x2_0000_0000_0000_0000_0000_0000_0000,
        0 <= tol.num * f.den <= 0x1_0000_0000_0000_0000_0000_0000_0000,
        -0x2_0000_0000_0000_0000_0000_0000_0000 <= (tol.den - tol.num) * f.den
            <= 0x2_0000_0000_0000_0000_0000_0000_0000,
{
    lemma_mul_bound(f.num as int, tol.den as int, 0x1_0000_0000_0000_0000_0000, 0x1_0000_0000);
    lemma_mul_bound(
        (f.num - f.den) as int,
        tol.den as int,
        0x2_0000_0000_0000_0000_0000,
        0x1_0000_0000,
    );
    lemma_mul_bound(tol.num as int, f.den as int, 0x1_0000_0000, 0x1_0000_0000_0000_0000_0000);
    assert(0 <= tol.num * f.den) by (nonlinear_arith)
        requires
            0 <= tol.num,
            0 < f.den,
    ;
    lemma_mul_bound(
        (tol.den - tol.num) as int,
        f.den as int,
        0x1_0000_0000,
        0x1_0000_0000_0000_0000_0000,
    );
}

fn well_inside_exec(f: Fraction, tol: Tolerance) -> (r: bool)
    requires
        small_fraction(f),
    ensures
        r == well_inside(f, tol),
{
    proof {
        lemma_tolerance_products(f, tol);
    }
    let (tn, td) = (tol.num as i128, tol.den as i128);
    tn * f.den < f.num * td && f.num * td < (td - tn) * f.den
}

impl Line2DIntersectionKind {
    /// The parameter of the intersection along the segment.
    pub open spec fn scalar_spec(self) -> Fraction {
        match self {
            Line2DIntersectionKind::Inside(s) => s,
            Line2DIntersectionKind::OutsideSrc(s) => s,
            Line2DIntersectionKind::OutsideDst(s) => s,
        }
    }

    /// The parameter of the intersection along the segment.
    pub fn scalar(&self) -> (r: Fraction)
        ensures
            r == self.scalar_spec(),
    {
        match self {
            Line2DIntersectionKind::Inside(s) => *s,
            Line2DIntersectionKind::OutsideSrc(s) => *s,
            Line2DIntersectionKind::OutsideDst(s) => *s,
        }
    }

    /// Whether the intersection lies within the tolerance of one of the end points
    /// (`|t| <= tol` or `|t - 1| <= tol`).
    pub fn is_endpoint(&self, tolerance: Tolerance) -> (r: bool)
        requires
            small_fraction(self.scalar_spec()),
            tolerance.den > 0,
        ensures
            r == (near_src(self.scalar_spec(), tolerance) || near_dst(
                self.scalar_spec(),
                tolerance,
            )),
    {
        let f = self.scalar();
        proof {
            lemma_tolerance_products(f, tolerance);
        }
        let (tn, td) = (tolerance.num as i128, tolerance.den as i128);
        let a = f.num * td;
        let b = (f.num - f.den) * td;
        let m = tn * f.den;
        (-m <= a && a <= m) || (-m <= b && b <= m)
    }

    /// Whether the intersection lies on the segment, end points included.
    pub fn touches_linesegment(&self) -> (r: bool)
        ensures
            r == (self is Inside),
    {
        match self {
            Line2DIntersectionKind::Inside(_) => true,
            _ => false,
        }
    }

    /// Whether the intersection lies strictly between the end points.
    pub open spec fn is_true_spec(self) -> bool {
        self matches Line2DIntersectionKind::Inside(s) && 0 < s.num && s.num < s.den
    }

    /// Whether the intersection lies strictly between the end points.
    pub fn is_true_intersection(&self) -> (r: bool)
        ensures
            r == self.is_true_spec(),
    {
        match self {
            Line2DIntersectionKind::Inside(s) => 0 < s.num && s.num < s.den,
            _ => false,
        }
    }
}

impl Line2DIntersection {
    /// Both segments touch each other (a crossing within both, a touch or an overlap).
    pub open spec fn intersect_spec(self) -> bool {
        match self {
            Line2DIntersection::Simple(_, a, b) => a is Inside && b is Inside,
            Line2DIntersection::CollinearOverlap(..) => true,
            Line2DIntersection::CollinearTouch(_) => true,
            _ => false,
        }
    }

    /// Both segments touch each other (a crossing within both, a touch or an overlap).
    pub fn intersect(&self) -> (r: bool)
        ensures
            r == self.intersect_spec(),
    {
        match self {
            Line2DIntersection::Simple(_, a, b) => a.touches_linesegment()
                && b.touches_linesegment(),
            Line2DIntersection::CollinearOverlap(..) => true,
            Line2DIntersection::CollinearTouch(_) => true,
            _ => false,
        }
    }

    /// The segments cross strictly inside both of them.
    pub open spec fn is_true_spec(self) -> bool {
        match self {
            Line2DIntersection::Simple(_, a, b) => a.is_true_spec() && b.is_true_spec(),
            _ => false,
        }
    }

    /// The segments cross strictly inside both of them.
    pub fn is_true_intersection(&self) -> (r: bool)
        ensures
            r == self.is_true_spec(),
    {
        match self {
            Line2DIntersection::Simple(_, a, b) => a.is_true_intersection()
                && b.is_true_intersection(),
            _ => false,
        }
    }

    /// Both positions of a crossing are small fractions (as `Line::intersection` makes them).
    pub open spec fn small_spec(self) -> bool {
        self matches Line2DIntersection::Simple(_, a, b) ==> small_fraction(a.scalar_spec())
            && small_fraction(b.scalar_spec())
    }

    /// The segments cross inside both, farther than the tolerance from every end point.
    pub open spec fn exclude_endpoints_spec(self, tol: Tolerance) -> bool {
        self matches Line2DIntersection::Simple(
            _,
            Line2DIntersectionKind::Inside(a),
            Line2DIntersectionKind::Inside(b),
        ) && well_inside(a, tol) && well_inside(b, tol)
    }

    /// The segments cross inside both, farther than the tolerance from every end point
    /// (`tol < t < 1 - tol` for both positions).
    pub fn intersect_exclude_endpoints(&self, tolerance: Tolerance) -> (r: bool)
        requires
            self.small_spec(),
            tolerance.den > 0,
        ensures
            r == self.exclude_endpoints_spec(tolerance),
    {
        match self {
            Line2DIntersection::Simple(
                _,
                Line2DIntersectionKind::Inside(a),
                Line2DIntersectionKind::Inside(b),
            ) => well_inside_exec(*a, tolerance) && well_inside_exec(*b, tolerance),
            _ => false,
        }
    }

    /// The end points of an overlap share their denominator and stay within `2^100`, as
    /// `Line::intersection` makes them.
    pub open spec fn pos_ready(self) -> bool {
        self matches Line2DIntersection::CollinearOverlap(p0, p1) ==> {
            &&& p0.den == p1.den
            &&& 0 <= p0.den <= 0x4_0000_0000_0000_0000
            &&& -0x10_0000_0000_0000_0000_0000_0000 <= p0.x <= 0x10_0000_0000_0000_0000_0000_0000
            &&& -0x10_0000_0000_0000_0000_0000_0000 <= p0.y <= 0x10_0000_0000_0000_0000_0000_0000
            &&& -0x10_0000_0000_0000_0000_0000_0000 <= p1.x <= 0x10_0000_0000_0000_0000_0000_0000
            &&& -0x10_0000_0000_0000_0000_0000_0000 <= p1.y <= 0x10_0000_0000_0000_0000_0000_0000
        }
    }

    /// A point of the intersection, if the segments touch: the crossing point, the touching
    /// point, or the center of the overlap.
    pub open spec fn pos_spec(self) -> Option<RationalPoint> {
        match self {
            Line2DIntersection::Simple(p, a, b) => if a is Inside && b is Inside {
                Some(p)
            } else {
                None
            },
            Line2DIntersection::CollinearOverlap(p0, p1) => Some(
                RationalPoint {
                    x: (p0.x + p1.x) as i128,
                    y: (p0.y + p1.y) as i128,
                    den: (2 * p0.den) as i128,
                },
            ),
            Line2DIntersection::CollinearTouch(p) => Some(
                RationalPoint { x: p.x as i128, y: p.y as i128, den: 1 },
            ),
            _ => None,
        }
    }

    /// A point of the intersection, if the segments touch: the crossing point, the touching
    /// point, or the center of the overlap.
    pub fn pos(&self) -> (r: Option<RationalPoint>)
        requires
            self.pos_ready(),
        ensures
            r == self.pos_spec(),
    {
        match self {
            Line2DIntersection::Simple(p, a, b) => {
                if a.touches_linesegment() && b.touches_linesegment() {
                    Some(*p)
                } else {
                    None
                }
            },
            Line2DIntersection::CollinearOverlap(p0, p1) => Some(
                RationalPoint { x: p0.x + p1.x, y: p0.y + p1.y, den: 2 * p0.den },
            ),
            Line2DIntersection::CollinearTouch(p) => Some(RationalPoint::from_point(*p)),
            _ => None,
        }
    }
}

/// `t1 <= t2` for two tolerances with positive denominators.
pub open spec fn tolerance_le(t1: Tolerance, t2: Tolerance) -> bool {
    t1.num * t2.den <= t2.num * t1.den
}

/// Excluding end points is monotone in the tolerance: a crossing that stays farther than a
/// tolerance from every end point stays farther than any smaller tolerance too, and such a
/// crossing is an intersection of the segments.
pub proof fn lemma_exclude_endpoints_monotone(x: Line2DIntersection, t1: Tolerance, t2: Tolerance)
    requires
        t1.den > 0,
        t2.den > 0,
        x.small_spec(),
        tolerance_le(t1, t2),
        x.exclude_endpoints_spec(t2),
    ensures
        x.exclude_endpoints_spec(t1),
        x.intersect_spec(),
{
    if let Line2DIntersection::Simple(
        _,
        Line2DIntersectionKind::Inside(a),
        Line2DIntersectionKind::Inside(b),
    ) = x {
        lemma_well_inside_monotone(a, t1, t2);
        lemma_well_inside_monotone(b, t1, t2);
    }
}

proof fn lemma_well_inside_monotone(f: Fraction, t1: Tolerance, t2: Tolerance)
    requires
        t1.den > 0,
        t2.den > 0,
        f.den > 0,
        tolerance_le(t1, t2),
        well_inside(f, t2),
    ensures
        well_inside(f, t1),
{
    // Multiply through by the other tolerance's denominator.
    assert(t1.num * f.den < f.num * t1.den) by (nonlinear_arith)
        requires
            t1.den > 0,
            t2.den > 0,
            f.den > 0,
            t1.num * t2.den <= t2.num * t1.den,
            t2.num * f.den < f.num * t2.den,
    {
        assert(t1.num * t2.den * f.den <= t2.num * t1.den * f.den);
        assert(t2.num * f.den * t1.den < f.num * t2.den * t1.den);
    }
    assert(f.num * t1.den < (t1.den - t1.num) * f.den) by (nonlinear_arith)
        requires
            t1.den > 0,
            t2.den > 0,
            f.den > 0,
            t1.num * t2.den <= t2.num * t1.den,
            f.num * t2.den < (t2.den - t2.num) * f.den,
    {
        assert(t1.num * t2.den * f.den <= t2.num * t1.den * f.den);
        assert(f.num * t2.den * t1.den < (t2.den - t2.num) * f.den * t1.den);
    }
}

/// Widening the tolerance only widens the inside band: a position inside a segment within a
/// tolerance is inside it within any larger tolerance, and a position outside within a larger
/// tolerance is outside, on the same side, within a smaller one.
pub proof fn lemma_inside_band_monotone(f: Fraction, t1: Tolerance, t2: Tolerance)
    requires
        t1.den > 0,
        t2.den > 0,
        f.den > 0,
        tolerance_le(t1, t2),
    ensures
        kind_of(f, t1) is Inside ==> kind_of(f, t2) is Inside,
        kind_of(f, t2) is OutsideSrc ==> kind_of(f, t1) is OutsideSrc,
        kind_of(f, t2) is OutsideDst ==> kind_of(f, t1) is OutsideDst,
{
    assert(before_src(f, t2) ==> before_src(f, t1)) by (nonlinear_arith)
        requires
            t1.den > 0,
            t2.den > 0,
            f.den > 0,
            t1.num * t2.den <= t2.num * t1.den,
    {
        if f.num * t2.den < -(t2.num * f.den) {
            assert(f.num * t2.den * t1.den < -(t2.num * f.den) * t1.den);
            assert(t1.num * t2.den * f.den <= t2.num * t1.den * f.den);
        }
    }
    assert(after_dst(f, t2) ==> after_dst(f, t1)) by (nonlinear_arith)
        requires
            t1.den > 0,
            t2.den > 0,
            f.den > 0,
            t1.num * t2.den <= t2.num * t1.den,
    {
        if f.num * t2.den > (t2.den + t2.num) * f.den {
            assert(f.num * t2.den * t1.den > (t2.den + t2.num) * f.den * t1.den);
            assert(t1.num * t2.den * f.den <= t2.num * t1.den * f.den);
        }
    }
}

/// The `x` coordinate, times `f.den`, of the point at parameter `f` along the segment `l`:
/// `l.src + (f.num / f.den) * (l.dst - l.src)`.
pub open spec fn point_at_x(l: Line<IVec2>, f: Fraction) -> int {
    l.0[0].x * f.den + (l.0[1].x - l.0[0].x) * f.num
}

/// The `y` coordinate, times `f.den`, of the point at parameter `f` along the segment `l`.
pub open spec fn point_at_y(l: Line<IVec2>, f: Fraction) -> int {
    l.0[0].y * f.den + (l.0[1].y - l.0[0].y) * f.num
}

proof fn lemma_cross_facts(qx: int, qy: int, rx: int, ry: int, sx: int, sy: int)
    ensures
        cross(sx, sy, rx, ry) == -cross(rx, ry, sx, sy),
        cross(-qx, -qy, rx, ry) == -cross(qx, qy, rx, ry),
        rx * cross(qx, qy, sx, sy) - sx * cross(qx, qy, rx, ry) == qx * cross(rx, ry, sx, sy),
        ry * cross(qx, qy, sx, sy) - sy * cross(qx, qy, rx, ry) == qy * cross(rx, ry, sx, sy),
{
    assert(cross(sx, sy, rx, ry) == -cross(rx, ry, sx, sy)) by (nonlinear_arith);
    assert(cross(-qx, -qy, rx, ry) == -cross(qx, qy, rx, ry)) by (nonlinear_arith);
    lemma_cross_expand(qx, qy, rx, ry, sx, sy);
    lemma_cross_expand(qy, -qx, ry, -rx, sy, -sx);
    assert(cross(qy, -qx, sy, -sx) == cross(qx, qy, sx, sy)) by (nonlinear_arith);
    assert(cross(qy, -qx, ry, -rx) == cross(qx, qy, rx, ry)) by (nonlinear_arith);
    assert(cross(ry, -rx, sy, -sx) == cross(rx, ry, sx, sy)) by (nonlinear_arith);
}

proof fn lemma_cross_expand(qx: int, qy: int, rx: int, ry: int, sx: int, sy: int)
    ensures
        rx * cross(qx, qy, sx, sy) - sx * cross(qx, qy, rx, ry) == qx * cross(rx, ry, sx, sy),
{
    assert(rx * (qx * sy - qy * sx) == rx * (qx * sy) - rx * (qy * sx)) by (nonlinear_arith);
    assert(sx * (qx * ry - qy * rx) == sx * (qx * ry) - sx * (qy * rx)) by (nonlinear_arith);
    assert(rx * (qy * sx) == sx * (qy * rx)) by (nonlinear_arith);
    assert(rx * (qx * sy) == qx * (rx * sy)) by (nonlinear_arith);
    assert(sx * (qx * ry) == qx * (ry * sx)) by (nonlinear_arith);
    assert(qx * (rx * sy) - qx * (ry * sx) == qx * (rx * sy - ry * sx)) by (nonlinear_arith);
}

/// The quantities that `intersection_of` computes for two segments stay far inside `i128`.
proof fn lemma_crossing_bounds(a: Line<IVec2>, b: Line<IVec2>)
    ensures
        ({
            let (ax, ay) = (a.0[0].x as int, a.0[0].y as int);
            let (rx, ry) = (a.0[1].x - ax, a.0[1].y - ay);
            let (sx, sy) = (b.0[1].x - b.0[0].x, b.0[1].y - b.0[0].y);
            let (qx, qy) = (b.0[0].x - ax, b.0[0].y - ay);
            let det = cross(rx, ry, sx, sy);
            let tn = cross(qx, qy, sx, sy);
            let un = cross(qx, qy, rx, ry);
            &&& -0x2_0000_0000_0000_0000 <= det <= 0x2_0000_0000_0000_0000
            &&& -0x2_0000_0000_0000_0000 <= tn <= 0x2_0000_0000_0000_0000
            &&& -0x2_0000_0000_0000_0000 <= un <= 0x2_0000_0000_0000_0000
            &&& forall|c: int, e: int|
                #![trigger c * e]
                -0x1_0000_0000 <= c <= 0x1_0000_0000 && -0x2_0000_0000_0000_0000 <= e
                    <= 0x2_0000_0000_0000_0000 ==> -0x2_0000_0000_0000_0000_0000_0000 <= c * e
                    <= 0x2_0000_0000_0000_0000_0000_0000
        }),
{
    let (ax, ay) = (a.0[0].x as int, a.0[0].y as int);
    let (rx, ry) = (a.0[1].x - ax, a.0[1].y - ay);
    let (sx, sy) = (b.0[1].x - b.0[0].x, b.0[1].y - b.0[0].y);
    let (qx, qy) = (b.0[0].x - ax, b.0[0].y - ay);
    lemma_mul_bound(rx, sy, 0x1_0000_0000, 0x1_0000_0000);
    lemma_mul_bound(ry, sx, 0x1_0000_0000, 0x1_0000_0000);
    lemma_mul_bound(qx, sy, 0x1_0000_0000, 0x1_0000_0000);
    lemma_mul_bound(qy, sx, 0x1_0000_0000, 0x1_0000_0000);
    lemma_mul_bound(qx, ry, 0x1_0000_0000, 0x1_0000_0000);
    lemma_mul_bound(qy, rx, 0x1_0000_0000, 0x1_0000_0000);
    assert forall|c: int, e: int|
        #![trigger c * e]
        -0x1_0000_0000 <= c <= 0x1_0000_0000 && -0x2_0000_0000_0000_0000 <= e
            <= 0x2_0000_0000_0000_0000 implies -0x2_0000_0000_0000_0000_0000_0000 <= c * e
            <= 0x2_0000_0000_0000_0000_0000_0000 by {
        lemma_mul_bound(c, e, 0x1_0000_0000, 0x2_0000_0000_0000_0000);
    }
}

/// Where the supporting lines of two segments cross, the crossing point lies on both: it is
/// the point at the first position along the first segment and the point at the second
/// position along the second segment.
pub proof fn lemma_crossing_on_both(a: Line<IVec2>, b: Line<IVec2>, tol: Tolerance)
    requires
        intersection_defined(a, b, tol),
    ensures
        intersection_of(a, b, tol) matches Line2DIntersection::Simple(p, ka, kb) ==> {
            &&& p.den > 0
            &&& ka.scalar_spec().den == p.den
            &&& kb.scalar_spec().den == p.den
            &&& p.x == point_at_x(a, ka.scalar_spec())
            &&& p.y == point_at_y(a, ka.scalar_spec())
            &&& p.x == point_at_x(b, kb.scalar_spec())
            &&& p.y == point_at_y(b, kb.scalar_spec())
            &&& in_band(ka, tol)
            &&& in_band(kb, tol)
            &&& small_fraction(ka.scalar_spec())
            &&& small_fraction(kb.scalar_spec())
        },
        !nearly_zero(direction_cross(a, b), tol) ==> intersection_of(a, b, tol) is Simple,
{
    let (ax, ay) = (a.0[0].x as int, a.0[0].y as int);
    let (rx, ry) = (a.0[1].x - ax, a.0[1].y - ay);
    let (sx, sy) = (b.0[1].x - b.0[0].x, b.0[1].y - b.0[0].y);
    let (qx, qy) = (b.0[0].x - ax, b.0[0].y - ay);
    let det = cross(rx, ry, sx, sy);
    let tn = cross(qx, qy, sx, sy);
    let un = cross(qx, qy, rx, ry);
    lemma_crossing_bounds(a, b);
    lemma_cross_facts(qx, qy, rx, ry, sx, sy);
    if det != 0 {
        let (t, u, d) = if det > 0 {
            (tn, un, det)
        } else {
            (-tn, -un, -det)
        };
        assert(-0x1_0000_0000 <= ax <= 0x1_0000_0000 && -0x1_0000_0000 <= ay <= 0x1_0000_0000);
        assert(-0x1_0000_0000 <= sx <= 0x1_0000_0000 && -0x1_0000_0000 <= sy <= 0x1_0000_0000);
        assert(rx * t - sx * u == qx * d) by (nonlinear_arith)
            requires
                rx * tn - sx * un == qx * det,
                (t == tn && u == un && d == det) || (t == -tn && u == -un && d == -det),
        ;
        assert(ry * t - sy * u == qy * d) by (nonlinear_arith)
            requires
                ry * tn - sy * un == qy * det,
                (t == tn && u == un && d == det) || (t == -tn && u == -un && d == -det),
        ;
        assert(ax * d + rx * t == b.0[0].x * d + sx * u) by (nonlinear_arith)
            requires
                rx * t - sx * u == qx * d,
                qx == b.0[0].x - ax,
        ;
        assert(ay * d + ry * t == b.0[0].y * d + sy * u) by (nonlinear_arith)
            requires
                ry * t - sy * u == qy * d,
                qy == b.0[0].y - ay,
        ;
        let ka = kind_of(Fraction { num: t as i128, den: d as i128 }, tol);
        let kb = kind_of(Fraction { num: u as i128, den: d as i128 }, tol);
        assert(ka.scalar_spec() == Fraction { num: t as i128, den: d as i128 });
        assert(kb.scalar_spec() == Fraction { num: u as i128, den: d as i128 });
    }
}

/// Crossing is symmetric: where the directions of two segments do not count as parallel, the
/// same segments taken the other way round cross at the same point, with the two positions
/// swapped.
pub proof fn lemma_crossing_symmetric(a: Line<IVec2>, b: Line<IVec2>, tol: Tolerance)
    requires
        !nearly_zero(direction_cross(a, b), tol),
    ensures
        match intersection_of(a, b, tol) {
            Line2DIntersection::Simple(p, ka, kb) => intersection_of(b, a, tol)
                == Line2DIntersection::Simple(p, kb, ka),
            _ => false,
        },
{
    lemma_cross_swap(a, b);
    if direction_cross(a, b) == 0 {
        assert(0 * tol.den == 0);
        assert(nearly_zero(direction_cross(a, b), tol));
    }
    lemma_crossing_on_both(a, b, tol);
    assert(!nearly_zero(direction_cross(b, a), tol));
}

} // verus!

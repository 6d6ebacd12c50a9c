use vstd::prelude::*;

verus! {

/// A point of an integer vector space: the coordinate type of every primitive.
///
/// Points are compared structurally and measured by the squared euclidean distance of their
/// coordinates.
pub trait Point: Copy + Sized {
    /// The coordinates of the point, as mathematical integers.
    spec fn coords(self) -> Seq<int>;

    /// Exact structural equality.
    fn same(&self, other: &Self) -> (r: bool)
        ensures
            r == (*self == *other),
    ;

    /// The coordinate-wise mean of a non-empty list of points, every coordinate rounded
    /// towards zero.
    fn mean(points: &[Self]) -> (r: Self)
        requires
            points@.len() > 0,
        ensures
            r.coords() == mean_coords(points@.map_values(|p: Self| p.coords())),
    ;

    /// Whether the two points are closer than `max_abs_diff`, that is whether their squared
    /// distance is below `max_abs_diff * max_abs_diff`.
    fn abs_diff_eq(self, rhs: Self, max_abs_diff: u32) -> (r: bool)
        ensures
            r == (dist2(self.coords(), rhs.coords()) < (max_abs_diff as int) * (max_abs_diff as int)),
    ;
}

/// Squared euclidean distance of two coordinate sequences of equal length.
pub open spec fn dist2(a: Seq<int>, b: Seq<int>) -> int
    decreases a.len(),
{
    if a.len() == 0 || b.len() == 0 {
        0
    } else {
        let d = a.last() - b.last();
        d * d + dist2(a.drop_last(), b.drop_last())
    }
}

/// Integer division rounding towards zero (as Rust's `/` does), for a positive divisor.
pub open spec fn trunc_div(a: int, b: int) -> int {
    if a >= 0 {
        a / b
    } else {
        -((-a) / b)
    }
}

/// The sum of the `d`th coordinates of the points given by their coordinates.
pub open spec fn coord_sum(points: Seq<Seq<int>>, d: int) -> int
    decreases points.len(),
{
    if points.len() == 0 {
        0
    } else {
        coord_sum(points.drop_last(), d) + points.last()[d]
    }
}

/// The coordinate-wise mean of points given by their coordinates (with as many coordinates as
/// the first point), rounded towards zero.
pub open spec fn mean_coords(points: Seq<Seq<int>>) -> Seq<int> {
    Seq::new(
        points[0].len(),
        |d: int| trunc_div(coord_sum(points, d), points.len() as int),
    )
}

/// The rounded mean of values within a range stays within that range.
pub proof fn lemma_trunc_div_range(s: int, n: int, lo: int, hi: int)
    requires
        n > 0,
        lo <= 0 <= hi,
        lo * n <= s <= hi * n,
    ensures
        lo <= trunc_div(s, n) <= hi,
{
    if s >= 0 {
        vstd::arithmetic::div_mod::lemma_div_is_ordered(s, hi * n, n);
        vstd::arithmetic::div_mod::lemma_div_multiples_vanish(hi, n);
        assert(hi * n == n * hi) by (nonlinear_arith);
        vstd::arithmetic::div_mod::lemma_div_pos_is_pos(s, n);
    } else {
        assert(-s <= (-lo) * n) by (nonlinear_arith)
            requires
                lo * n <= s,
        ;
        vstd::arithmetic::div_mod::lemma_div_is_ordered(-s, (-lo) * n, n);
        vstd::arithmetic::div_mod::lemma_div_multiples_vanish(-lo, n);
        assert((-lo) * n == n * (-lo)) by (nonlinear_arith);
        vstd::arithmetic::div_mod::lemma_div_pos_is_pos(-s, n);
    }
}

/// `a` lies closer to `b` than `tolerance` (strictly).
pub open spec fn near<P: Point>(a: P, b: P, tolerance: u32) -> bool {
    dist2(a.coords(), b.coords()) < (tolerance as int) * (tolerance as int)
}

/// Squared distances are never negative and vanish between equal coordinates.
pub proof fn lemma_dist2_basics(a: Seq<int>, b: Seq<int>)
    ensures
        dist2(a, b) >= 0,
        a == b ==> dist2(a, b) == 0,
    decreases a.len(),
{
    if a.len() > 0 && b.len() > 0 {
        lemma_dist2_basics(a.drop_last(), b.drop_last());
        let d = a.last() - b.last();
        assert(d * d >= 0) by (nonlinear_arith);
    }
}

/// Distance does not depend on the order of the two coordinate sequences.
pub proof fn lemma_dist2_symmetric(a: Seq<int>, b: Seq<int>)
    ensures
        dist2(a, b) == dist2(b, a),
    decreases a.len(),
{
    if a.len() > 0 && b.len() > 0 {
        lemma_dist2_symmetric(a.drop_last(), b.drop_last());
        let d = a.last() - b.last();
        assert(d * d == (-d) * (-d)) by (nonlinear_arith);
    }
}

/// Nearness does not depend on the order of the two points.
pub proof fn lemma_near_symmetric<P: Point>(a: P, b: P, tolerance: u32)
    ensures
        near(a, b, tolerance) == near(b, a, tolerance),
{
    lemma_dist2_symmetric(a.coords(), b.coords());
}

/// Every point is near itself for a positive tolerance and near no point for tolerance zero.
pub proof fn lemma_near_basics<P: Point>(a: P, b: P, tolerance: u32)
    ensures
        tolerance > 0 ==> near(a, a, tolerance),
        tolerance == 0 ==> !near(a, b, tolerance),
{
    lemma_dist2_basics(a.coords(), a.coords());
    lemma_dist2_basics(a.coords(), b.coords());
    if tolerance > 0 {
        assert((tolerance as int) * (tolerance as int) > 0) by (nonlinear_arith)
            requires
                tolerance > 0,
        ;
    }
}

/// Squares of integers no larger than 2^32 in absolute value stay below 2^64.
pub proof fn lemma_square_bound(d: int)
    requires
        -0x1_0000_0000 <= d <= 0x1_0000_0000,
    ensures
        0 <= d * d <= 0x1_0000_0000_0000_0000,
{
    assert(0 <= d * d <= 0x1_0000_0000_0000_0000) by (nonlinear_arith)
        requires
            -0x1_0000_0000 <= d <= 0x1_0000_0000,
    ;
}

/// Two dimensional points.
pub trait Point2: Point {
    fn x(self) -> (r: i32)
        ensures
            r as int == self.coords()[0],
    ;

    fn y(self) -> (r: i32)
        ensures
            r as int == self.coords()[1],
    ;

    fn new(x: i32, y: i32) -> (r: Self)
        ensures
            r.coords() == seq![x as int, y as int],
    ;
}

/// Three dimensional points.
pub trait Point3: Point {
    fn x(self) -> (r: i32)
        ensures
            r as int == self.coords()[0],
    ;

    fn y(self) -> (r: i32)
        ensures
            r as int == self.coords()[1],
    ;

    fn z(self) -> (r: i32)
        ensures
            r as int == self.coords()[2],
    ;

    fn new(x: i32, y: i32, z: i32) -> (r: Self)
        ensures
            r.coords() == seq![x as int, y as int, z as int],
    ;
}

/// A two dimensional point with integer coordinates.
#[derive(Debug, Clone, Copy, PartialEq, Eq, Hash, Structural)]
pub struct IVec2 {
    pub x: i32,
    pub y: i32,
}

/// A three dimensional point with integer coordinates.
#[derive(Debug, Clone, Copy, PartialEq, Eq, Hash, Structural)]
pub struct IVec3 {
    pub x: i32,
    pub y: i32,
    pub z: i32,
}

impl IVec2 {
    pub fn new(x: i32, y: i32) -> (r: IVec2)
        ensures
            r.x == x,
            r.y == y,
    {
        IVec2 { x, y }
    }
}

impl IVec3 {
    pub fn new(x: i32, y: i32, z: i32) -> (r: IVec3)
        ensures
            r.x == x,
            r.y == y,
            r.z == z,
    {
        IVec3 { x, y, z }
    }
}

impl Point for IVec2 {
    open spec fn coords(self) -> Seq<int> {
        seq![self.x as int, self.y as int]
    }

    fn mean(points: &[Self]) -> (r: Self) {
        let n = points.len();
        let mut sx: i128 = 0;
        let mut sy: i128 = 0;
        let mut i: usize = 0;
        while i < n
            invariant
                n == points@.len(),
                i <= n,
                sx == coord_sum(points@.take(i as int).map_values(|p: Self| p.coords()), 0),
                sy == coord_sum(points@.take(i as int).map_values(|p: Self| p.coords()), 1),
                -0x8000_0000 * (i as int) <= sx <= 0x7fff_ffff * (i as int),
                -0x8000_0000 * (i as int) <= sy <= 0x7fff_ffff * (i as int),
            decreases n - i,
        {
            let p = points[i];
            proof {
                let t = points@.take(i + 1);
                assert(t.drop_last() =~= points@.take(i as int));
                let f = |p: Self| p.coords();
                assert(t.map_values(f).drop_last() =~= points@.take(i as int).map_values(f));
                assert(t.map_values(f).last() == p.coords());
                assert(0x7fff_ffff * (i as int) < 0x1_0000_0000_0000_0000_0000_0000) by (
                nonlinear_arith)
                    requires
                        i < 0x1_0000_0000_0000_0000,
                ;
            }
            sx = sx + p.x as i128;
            sy = sy + p.y as i128;
            i = i + 1;
        }
        proof {
            assert(points@.take(n as int) =~= points@);
            lemma_trunc_div_range(sx as int, n as int, -0x8000_0000, 0x7fff_ffff);
            lemma_trunc_div_range(sy as int, n as int, -0x8000_0000, 0x7fff_ffff);
        }
        let x = sx / (n as i128);
        let y = sy / (n as i128);
        let r = IVec2 { x: x as i32, y: y as i32 };
        assert(r.coords() =~= mean_coords(points@.map_values(|p: Self| p.coords())));
        r
    }

    fn same(&self, other: &Self) -> (r: bool) {
        self.x == other.x && self.y == other.y
    }

    fn abs_diff_eq(self, rhs: Self, max_abs_diff: u32) -> (r: bool) {
        let dx: i64 = self.x as i64 - rhs.x as i64;
        let dy: i64 = self.y as i64 - rhs.y as i64;
        proof {
            lemma_square_bound(dx as int);
            lemma_square_bound(dy as int);
        }
        let sx: i128 = (dx as i128) * (dx as i128);
        let sy: i128 = (dy as i128) * (dy as i128);
        let d2: i128 = sx + sy;
        proof {
            lemma_square_bound(max_abs_diff as int);
        }
        let m: i128 = (max_abs_diff as i128) * (max_abs_diff as i128);
        proof {
            let a = self.coords();
            let b = rhs.coords();
            assert(a.drop_last().drop_last().len() == 0);
            assert(dist2(a, b) == dy * dy + dist2(a.drop_last(), b.drop_last()));
            assert(dist2(a.drop_last(), b.drop_last()) == dx * dx + dist2(
                a.drop_last().drop_last(),
                b.drop_last().drop_last(),
            ));
        }
        d2 < m
    }
}

impl Point for IVec3 {
    open spec fn coords(self) -> Seq<int> {
        seq![self.x as int, self.y as int, self.z as int]
    }

    fn mean(points: &[Self]) -> (r: Self) {
        let n = points.len();
        let mut sx: i128 = 0;
        let mut sy: i128 = 0;
        let mut sz: i128 = 0;
        let mut i: usize = 0;
        while i < n
            invariant
                n == points@.len(),
                i <= n,
                sx == coord_sum(points@.take(i as int).map_values(|p: Self| p.coords()), 0),
                sy == coord_sum(points@.take(i as int).map_values(|p: Self| p.coords()), 1),
                sz == coord_sum(points@.take(i as int).map_values(|p: Self| p.coords()), 2),
                -0x8000_0000 * (i as int) <= sx <= 0x7fff_ffff * (i as int),
                -0x8000_0000 * (i as int) <= sy <= 0x7fff_ffff * (i as int),
                -0x8000_0000 * (i as int) <= sz <= 0x7fff_ffff * (i as int),
            decreases n - i,
        {
            let p = points[i];
            proof {
                let t = points@.take(i + 1);
                assert(t.drop_last() =~= points@.take(i as int));
                let f = |p: Self| p.coords();
                assert(t.map_values(f).drop_last() =~= points@.take(i as int).map_values(f));
                assert(t.map_values(f).last() == p.coords());
                assert(0x7fff_ffff * (i as int) < 0x1_0000_0000_0000_0000_0000_0000) by (
                nonlinear_arith)
                    requires
                        i < 0x1_0000_0000_0000_0000,
                ;
            }
            sx = sx + p.x as i128;
            sy = sy + p.y as i128;
            sz = sz + p.z as i128;
            i = i + 1;
        }
        proof {
            assert(points@.take(n as int) =~= points@);
            lemma_trunc_div_range(sx as int, n as int, -0x8000_0000, 0x7fff_ffff);
            lemma_trunc_div_range(sy as int, n as int, -0x8000_0000, 0x7fff_ffff);
            lemma_trunc_div_range(sz as int, n as int, -0x8000_0000, 0x7fff_ffff);
        }
        let x = sx / (n as i128);
        let y = sy / (n as i128);
        let z = sz / (n as i128);
        let r = IVec3 { x: x as i32, y: y as i32, z: z as i32 };
        assert(r.coords() =~= mean_coords(points@.map_values(|p: Self| p.coords())));
        r
    }

    fn same(&self, other: &Self) -> (r: bool) {
        self.x == other.x && self.y == other.y && self.z == other.z
    }

    fn abs_diff_eq(self, rhs: Self, max_abs_diff: u32) -> (r: bool) {
        let dx: i64 = self.x as i64 - rhs.x as i64;
        let dy: i64 = self.y as i64 - rhs.y as i64;
        let dz: i64 = self.z as i64 - rhs.z as i64;
        proof {
            lemma_square_bound(dx as int);
            lemma_square_bound(dy as int);
            lemma_square_bound(dz as int);
            lemma_square_bound(max_abs_diff as int);
        }
        let sx: i128 = (dx as i128) * (dx as i128);
        let sy: i128 = (dy as i128) * (dy as i128);
        let sz: i128 = (dz as i128) * (dz as i128);
        let d2: i128 = sx + sy + sz;
        let m: i128 = (max_abs_diff as i128) * (max_abs_diff as i128);
        proof {
            let a = self.coords();
            let b = rhs.coords();
            let a1 = a.drop_last();
            let b1 = b.drop_last();
            assert(a1.drop_last().drop_last().len() == 0);
            assert(dist2(a, b) == dz * dz + dist2(a1, b1));
            assert(dist2(a1, b1) == dy * dy + dist2(a1.drop_last(), b1.drop_last()));
            assert(dist2(a1.drop_last(), b1.drop_last()) == dx * dx + dist2(
                a1.drop_last().drop_last(),
                b1.drop_last().drop_last(),
            ));
        }
        d2 < m
    }
}

impl Point2 for IVec2 {
    fn x(self) -> (r: i32) {
        self.x
    }

    fn y(self) -> (r: i32) {
        self.y
    }

    fn new(x: i32, y: i32) -> (r: Self) {
        IVec2 { x, y }
    }
}

impl Point3 for IVec3 {
    fn x(self) -> (r: i32) {
        self.x
    }

    fn y(self) -> (r: i32) {
        self.y
    }

    fn z(self) -> (r: i32) {
        self.z
    }

    fn new(x: i32, y: i32, z: i32) -> (r: Self) {
        IVec3 { x, y, z }
    }
}

/// The dot product of two coordinate sequences of equal length.
pub open spec fn dot_coords(a: Seq<int>, b: Seq<int>) -> int
    decreases a.len(),
{
    if a.len() == 0 || b.len() == 0 {
        0
    } else {
        dot_coords(a.drop_last(), b.drop_last()) + a.last() * b.last()
    }
}

/// The dot product of two and of three coordinates, written out.
pub proof fn lemma_dot_coords_small(a: Seq<int>, b: Seq<int>)
    ensures
        a.len() == 2 && b.len() == 2 ==> dot_coords(a, b) == a[0] * b[0] + a[1] * b[1],
        a.len() == 3 && b.len() == 3 ==> dot_coords(a, b) == a[0] * b[0] + a[1] * b[1] + a[2]
            * b[2],
{
    reveal_with_fuel(dot_coords, 4);
    if a.len() >= 2 && b.len() >= 2 {
        assert(a.drop_last().drop_last().len() == a.len() - 2);
    }
}

/// The dot product, computed exactly.
pub trait Dot: Point {
    fn dot(self, rhs: Self) -> (r: i128)
        ensures
            r == dot_coords(self.coords(), rhs.coords()),
    ;
}

/// Bounds the product of two `i32` values.
pub proof fn lemma_product_bound(a: int, b: int)
    requires
        -0x8000_0000 <= a <= 0x7fff_ffff,
        -0x8000_0000 <= b <= 0x7fff_ffff,
    ensures
        -0x4000_0000_0000_0000 <= a * b <= 0x4000_0000_0000_0000,
{
    assert(-0x4000_0000_0000_0000 <= a * b <= 0x4000_0000_0000_0000) by (nonlinear_arith)
        requires
            -0x8000_0000 <= a <= 0x7fff_ffff,
            -0x8000_0000 <= b <= 0x7fff_ffff,
    ;
}

impl Dot for IVec2 {
    fn dot(self, rhs: Self) -> (r: i128) {
        proof {
            lemma_product_bound(self.x as int, rhs.x as int);
            lemma_product_bound(self.y as int, rhs.y as int);
            lemma_dot_coords_small(self.coords(), rhs.coords());
        }
        (self.x as i128) * (rhs.x as i128) + (self.y as i128) * (rhs.y as i128)
    }
}

impl Dot for IVec3 {
    fn dot(self, rhs: Self) -> (r: i128) {
        proof {
            lemma_product_bound(self.x as int, rhs.x as int);
            lemma_product_bound(self.y as int, rhs.y as int);
            lemma_product_bound(self.z as int, rhs.z as int);
            lemma_dot_coords_small(self.coords(), rhs.coords());
        }
        (self.x as i128) * (rhs.x as i128) + (self.y as i128) * (rhs.y as i128) + (self.z as i128)
            * (rhs.z as i128)
    }
}

/// The wedge (exterior) product: the signed area of the parallelogram that two vectors span in
/// the plane, and the cross product in space.
pub trait Wedge: Point {
    type Output;

    /// The coordinates of a wedge product.
    spec fn output_coords(o: Self::Output) -> Seq<int>;

    /// The coordinates of the wedge product of two points given by their coordinates.
    spec fn wedge_coords(a: Seq<int>, b: Seq<int>) -> Seq<int>;

    fn wedge(self, rhs: Self) -> (r: Self::Output)
        ensures
            Self::output_coords(r) == Self::wedge_coords(self.coords(), rhs.coords()),
    ;
}

impl Wedge for IVec2 {
    type Output = i128;

    open spec fn output_coords(o: i128) -> Seq<int> {
        seq![o as int]
    }

    open spec fn wedge_coords(a: Seq<int>, b: Seq<int>) -> Seq<int> {
        seq![a[0] * b[1] - a[1] * b[0]]
    }

    fn wedge(self, rhs: Self) -> (r: i128) {
        proof {
            lemma_product_bound(self.x as int, rhs.y as int);
            lemma_product_bound(self.y as int, rhs.x as int);
        }
        (self.x as i128) * (rhs.y as i128) - (self.y as i128) * (rhs.x as i128)
    }
}

impl Wedge for IVec3 {
    type Output = (i128, i128, i128);

    open spec fn output_coords(o: (i128, i128, i128)) -> Seq<int> {
        seq![o.0 as int, o.1 as int, o.2 as int]
    }

    open spec fn wedge_coords(a: Seq<int>, b: Seq<int>) -> Seq<int> {
        seq![a[1] * b[2] - a[2] * b[1], a[2] * b[0] - a[0] * b[2], a[0] * b[1] - a[1] * b[0]]
    }

    fn wedge(self, rhs: Self) -> (r: (i128, i128, i128)) {
        proof {
            lemma_product_bound(self.y as int, rhs.z as int);
            lemma_product_bound(self.z as int, rhs.y as int);
            lemma_product_bound(self.z as int, rhs.x as int);
            lemma_product_bound(self.x as int, rhs.z as int);
            lemma_product_bound(self.x as int, rhs.y as int);
            lemma_product_bound(self.y as int, rhs.x as int);
        }
        let (ax, ay, az) = (self.x as i128, self.y as i128, self.z as i128);
        let (bx, by, bz) = (rhs.x as i128, rhs.y as i128, rhs.z as i128);
        let r = (ay * bz - az * by, az * bx - ax * bz, ax * by - ay * bx);
        assert(Self::output_coords(r) =~= Self::wedge_coords(self.coords(), rhs.coords()));
        r
    }
}

/// A vector is orthogonal to its cross product with any other vector.
pub proof fn lemma_cross_orthogonal(a: Seq<int>, b: Seq<int>)
    requires
        a.len() == 3,
        b.len() == 3,
    ensures
        dot_coords(a, IVec3::wedge_coords(a, b)) == 0,
        dot_coords(b, IVec3::wedge_coords(a, b)) == 0,
{
    let c = IVec3::wedge_coords(a, b);
    lemma_dot_coords_small(a, c);
    lemma_dot_coords_small(b, c);
    assert(a[0] * c[0] + a[1] * c[1] + a[2] * c[2] == 0) by (nonlinear_arith)
        requires
            c[0] == a[1] * b[2] - a[2] * b[1],
            c[1] == a[2] * b[0] - a[0] * b[2],
            c[2] == a[0] * b[1] - a[1] * b[0],
    ;
    assert(b[0] * c[0] + b[1] * c[1] + b[2] * c[2] == 0) by (nonlinear_arith)
        requires
            c[0] == a[1] * b[2] - a[2] * b[1],
            c[1] == a[2] * b[0] - a[0] * b[2],
            c[2] == a[0] * b[1] - a[1] * b[0],
    ;
}

} // verus!

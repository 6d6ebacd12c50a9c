use vstd::prelude::*;

use crate::point::{Point2, Point3};
use crate::primitives::Ring;

verus! {

/// The decimal digits of a natural number, most significant first.
pub open spec fn digits(v: nat) -> Seq<u8>
    decreases v,
{
    if v < 10 {
        seq![(48 + v) as u8]
    } else {
        digits(v / 10).push((48 + v % 10) as u8)
    }
}

/// The decimal representation of an integer, with a leading `-` for negative values.
pub open spec fn decimal(v: int) -> Seq<u8> {
    if v < 0 {
        seq![45u8] + digits((-v) as nat)
    } else {
        digits(v as nat)
    }
}

/// `x y` for two dimensional coordinates.
pub open spec fn coords2_text(c: Seq<int>) -> Seq<u8> {
    decimal(c[0]) + seq![32u8] + decimal(c[1])
}

/// `x y z` for three dimensional coordinates.
pub open spec fn coords3_text(c: Seq<int>) -> Seq<u8> {
    coords2_text(c) + seq![32u8] + decimal(c[2])
}

/// Every point written as `x y,` followed by the first point again as `x y`.
pub open spec fn ring2_body(pts: Seq<Seq<int>>) -> Seq<u8> {
    list2(pts) + coords2_text(pts[0])
}

/// Every point written as `x y,`.
pub open spec fn list2(pts: Seq<Seq<int>>) -> Seq<u8>
    decreases pts.len(),
{
    if pts.len() == 0 {
        Seq::empty()
    } else {
        list2(pts.drop_last()) + coords2_text(pts.last()) + seq![44u8]
    }
}

/// Every point written as `x y z,`.
pub open spec fn list3(pts: Seq<Seq<int>>) -> Seq<u8>
    decreases pts.len(),
{
    if pts.len() == 0 {
        Seq::empty()
    } else {
        list3(pts.drop_last()) + coords3_text(pts.last()) + seq![44u8]
    }
}

/// Every point written as `x y z,` followed by the first point again as `x y z`.
pub open spec fn ring3_body(pts: Seq<Seq<int>>) -> Seq<u8> {
    list3(pts) + coords3_text(pts[0])
}

/// Appends the decimal digits of `v`.
fn push_digits(out: &mut Vec<u8>, v: u64)
    ensures
        final(out)@ == old(out)@ + digits(v as nat),
    decreases v,
{
    if v >= 10 {
        push_digits(out, v / 10);
    }
    out.push((48 + v % 10) as u8);
    proof {
        if v < 10 {
            assert(final(out)@ =~= old(out)@ + digits(v as nat));
        }
    }
}

/// Appends the decimal representation of `v`.
fn push_decimal(out: &mut Vec<u8>, v: i32)
    ensures
        final(out)@ == old(out)@ + decimal(v as int),
{
    if v < 0 {
        out.push(45u8);
        let a: i64 = -(v as i64);
        push_digits(out, a as u64);
        assert(final(out)@ =~= old(out)@ + decimal(v as int));
    } else {
        push_digits(out, v as u64);
    }
}

/// Appends the given bytes.
fn push_bytes(out: &mut Vec<u8>, b: &[u8])
    ensures
        final(out)@ == old(out)@ + b@,
{
    let n = b.len();
    let mut i: usize = 0;
    let ghost start = out@;
    while i < n
        invariant
            n == b@.len(),
            i <= n,
            out@ == start + b@.take(i as int),
        decreases n - i,
    {
        out.push(b[i]);
        i = i + 1;
        assert(out@ =~= start + b@.take(i as int));
    }
    assert(b@.take(n as int) =~= b@);
}

/// The coordinates of the points.
pub open spec fn coords_of<P: crate::point::Point>(pts: Seq<P>) -> Seq<Seq<int>> {
    pts.map_values(|p: P| p.coords())
}

fn push_body2<P: Point2>(out: &mut Vec<u8>, pts: &[P])
    requires
        pts@.len() > 0,
    ensures
        final(out)@ == old(out)@ + ring2_body(coords_of(pts@)),
{
    let ghost start = out@;
    let n = pts.len();
    let mut i: usize = 0;
    while i < n
        invariant
            n == pts@.len(),
            i <= n,
            out@ == start + list2(coords_of(pts@.take(i as int))),
        decreases n - i,
    {
        let p = pts[i];
        push_decimal(out, p.x());
        out.push(32u8);
        push_decimal(out, p.y());
        out.push(44u8);
        proof {
            let c = coords_of(pts@.take(i + 1));
            assert(c.drop_last() =~= coords_of(pts@.take(i as int)));
            assert(c.last() == p.coords());
        }
        i = i + 1;
        assert(out@ =~= start + list2(coords_of(pts@.take(i as int))));
    }
    let p = pts[0];
    push_decimal(out, p.x());
    out.push(32u8);
    push_decimal(out, p.y());
    assert(pts@.take(n as int) =~= pts@);
    assert(out@ =~= start + ring2_body(coords_of(pts@)));
}

fn push_body3<P: Point3>(out: &mut Vec<u8>, pts: &[P])
    requires
        pts@.len() > 0,
    ensures
        final(out)@ == old(out)@ + ring3_body(coords_of(pts@)),
{
    let ghost start = out@;
    let n = pts.len();
    let mut i: usize = 0;
    while i < n
        invariant
            n == pts@.len(),
            i <= n,
            out@ == start + list3(coords_of(pts@.take(i as int))),
        decreases n - i,
    {
        let p = pts[i];
        push_decimal(out, p.x());
        out.push(32u8);
        push_decimal(out, p.y());
        out.push(32u8);
        push_decimal(out, p.z());
        out.push(44u8);
        proof {
            let c = coords_of(pts@.take(i + 1));
            assert(c.drop_last() =~= coords_of(pts@.take(i as int)));
            assert(c.last() == p.coords());
        }
        i = i + 1;
        assert(out@ =~= start + list3(coords_of(pts@.take(i as int))));
    }
    let p = pts[0];
    push_decimal(out, p.x());
    out.push(32u8);
    push_decimal(out, p.y());
    out.push(32u8);
    push_decimal(out, p.z());
    assert(pts@.take(n as int) =~= pts@);
    assert(out@ =~= start + ring3_body(coords_of(pts@)));
}

/// `POLYGON ((`
pub open spec fn polygon_open() -> Seq<u8> {
    seq![80u8, 79u8, 76u8, 89u8, 71u8, 79u8, 78u8, 32u8, 40u8, 40u8]
}

/// `POLYGON Z ((`
pub open spec fn polygon_z_open() -> Seq<u8> {
    seq![80u8, 79u8, 76u8, 89u8, 71u8, 79u8, 78u8, 32u8, 90u8, 32u8, 40u8, 40u8]
}

/// `LINESTRING (`
pub open spec fn linestring_open() -> Seq<u8> {
    seq![76u8, 73u8, 78u8, 69u8, 83u8, 84u8, 82u8, 73u8, 78u8, 71u8, 32u8, 40u8]
}

/// `LINESTRING Z (`
pub open spec fn linestring_z_open() -> Seq<u8> {
    seq![76u8, 73u8, 78u8, 69u8, 83u8, 84u8, 82u8, 73u8, 78u8, 71u8, 32u8, 90u8, 32u8, 40u8]
}

/// The WKT text `POLYGON ((x y,...,x0 y0))` of a two dimensional ring.
pub fn ring2_polygon_text<P: Point2>(ring: &Ring<P>) -> (r: Vec<u8>)
    requires
        ring@.len() > 0,
    ensures
        r@ == polygon_open() + ring2_body(coords_of(ring@)) + seq![41u8, 41u8],
{
    let mut out: Vec<u8> = Vec::new();
    let head: [u8; 10] = [80u8, 79u8, 76u8, 89u8, 71u8, 79u8, 78u8, 32u8, 40u8, 40u8];
    push_bytes(&mut out, &head);
    assert(out@ =~= polygon_open());
    push_body2(&mut out, ring.points_open());
    out.push(41u8);
    out.push(41u8);
    assert(out@ =~= polygon_open() + ring2_body(coords_of(ring@)) + seq![41u8, 41u8]);
    out
}

/// The WKT text `POLYGON Z ((x y z,...,x0 y0 z0))` of a three dimensional ring.
pub fn ring3_polygon_text<P: Point3>(ring: &Ring<P>) -> (r: Vec<u8>)
    requires
        ring@.len() > 0,
    ensures
        r@ == polygon_z_open() + ring3_body(coords_of(ring@)) + seq![41u8, 41u8],
{
    let mut out: Vec<u8> = Vec::new();
    let head: [u8; 12] = [80u8, 79u8, 76u8, 89u8, 71u8, 79u8, 78u8, 32u8, 90u8, 32u8, 40u8, 40u8];
    push_bytes(&mut out, &head);
    assert(out@ =~= polygon_z_open());
    push_body3(&mut out, ring.points_open());
    out.push(41u8);
    out.push(41u8);
    assert(out@ =~= polygon_z_open() + ring3_body(coords_of(ring@)) + seq![41u8, 41u8]);
    out
}

/// The WKT text `LINESTRING (x y,...,x0 y0)` of a two dimensional ring.
pub fn ring2_linestring_text<P: Point2>(ring: &Ring<P>) -> (r: Vec<u8>)
    requires
        ring@.len() > 0,
    ensures
        r@ == linestring_open() + ring2_body(coords_of(ring@)) + seq![41u8],
{
    let mut out: Vec<u8> = Vec::new();
    let head: [u8; 12] = [76u8, 73u8, 78u8, 69u8, 83u8, 84u8, 82u8, 73u8, 78u8, 71u8, 32u8, 40u8];
    push_bytes(&mut out, &head);
    assert(out@ =~= linestring_open());
    push_body2(&mut out, ring.points_open());
    out.push(41u8);
    assert(out@ =~= linestring_open() + ring2_body(coords_of(ring@)) + seq![41u8]);
    out
}

/// The WKT text `LINESTRING Z (x y z,...,x0 y0 z0)` of a three dimensional ring.
pub fn ring3_linestring_text<P: Point3>(ring: &Ring<P>) -> (r: Vec<u8>)
    requires
        ring@.len() > 0,
    ensures
        r@ == linestring_z_open() + ring3_body(coords_of(ring@)) + seq![41u8],
{
    let mut out: Vec<u8> = Vec::new();
    let head: [u8; 14] = [
        76u8,
        73u8,
        78u8,
        69u8,
        83u8,
        84u8,
        82u8,
        73u8,
        78u8,
        71u8,
        32u8,
        90u8,
        32u8,
        40u8,
    ];
    push_bytes(&mut out, &head);
    assert(out@ =~= linestring_z_open());
    push_body3(&mut out, ring.points_open());
    out.push(41u8);
    assert(out@ =~= linestring_z_open() + ring3_body(coords_of(ring@)) + seq![41u8]);
    out
}

} // verus!

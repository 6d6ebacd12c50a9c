//! The library's laws, each on concrete values.

use selo::{
    Area, DedupPoints, Flip, IVec2, IVec3, InsideEqual, Line, Line2DIntersection, LineString,
    MultiRing, Orient, Orient2d, Orientation, Polygon, Ring, SimplifyGrouped, Tolerance, Triangle,
    VectorArea,
};

fn v(x: i32, y: i32) -> IVec2 {
    IVec2::new(x, y)
}

fn w(x: i32, y: i32, z: i32) -> IVec3 {
    IVec3::new(x, y, z)
}

#[test]
fn simplify_with_zero_tolerance_keeps_the_ring() {
    let r = Ring::new(vec![v(0, 0), v(1, 0), v(1, 1), v(0, 1), v(0, 2), v(-5, 3)]);
    assert_eq!(r.simplify(0), Some(r.clone()));
}

#[test]
fn dedup_approx_twice_is_dedup_approx_once() {
    let ls = LineString::new(vec![v(0, 0), v(1, 0), v(2, 0), v(3, 0), v(10, 0), v(10, 1)]);
    let once = ls.clone().dedup_approx(2);
    assert_eq!(once, LineString::new(vec![v(0, 0), v(2, 0), v(10, 0)]));
    assert_eq!(once.clone().dedup_approx(2), once);
}

#[test]
fn flat_vector_area_is_the_planar_area() {
    let flat = Ring::new(vec![w(0, 0, 0), w(4, 0, 0), w(4, 3, 0), w(0, 3, 0)]);
    let planar = Ring::new(vec![v(0, 0), v(4, 0), v(4, 3), v(0, 3)]);
    assert_eq!(flat.doubled_vector_area(), (0, 0, planar.doubled_area() as i128));
    assert_eq!(flat.doubled_vector_area(), (0, 0, 24));
}

#[test]
fn vector_area_of_a_tilted_triangle() {
    let t = Triangle([w(1, 0, 0), w(0, 1, 0), w(0, 0, 1)]);
    assert_eq!(t.doubled_vector_area(), (1, 1, 1));
    let hole = Ring::new(vec![w(0, 0, 0), w(0, 1, 0), w(1, 0, 0)]);
    let outer = Ring::new(vec![w(0, 0, 0), w(3, 0, 0), w(0, 3, 0)]);
    let p = Polygon::new(outer, MultiRing(vec![hole]));
    assert_eq!(p.doubled_vector_area(), (0, 0, 9 - (-1)));
}

#[test]
fn flipping_negates_the_area() {
    let r = Ring::new(vec![v(0, 0), v(5, 1), v(2, 7)]);
    assert_eq!(r.flip().doubled_area(), -r.doubled_area());
}

#[test]
fn orienting_forgets_a_flip() {
    let hole = Ring::new(vec![v(1, 1), v(2, 1), v(2, 2)]);
    let p = Polygon::new(Ring::new(vec![v(0, 0), v(4, 0), v(4, 4), v(0, 4)]), MultiRing(vec![hole]));
    assert_eq!(p.flip().orient_default(), p.orient_default());
    assert_eq!(p.orient_default().orient_default(), p.orient_default());
}

#[test]
fn opposite_windings_are_different() {
    let r = Ring::new(vec![v(0, 0), v(5, 1), v(2, 7)]);
    assert!(!r.inside_eq(&r.flip()));
    assert!(r.inside_eq(&r.flip().flip()));
}

#[test]
fn orientation_compares_windings() {
    let ring1 = Ring::new(vec![v(-1, -1), v(1, -1), v(1, 1), v(-1, 1)]);
    let ring2 = Ring::new(vec![v(-2, -2), v(2, -2), v(2, 2), v(-2, 2)]);
    let ring3 = Ring::new(vec![v(-3, -3), v(-3, 3), v(3, 3), v(3, -3)]);
    assert!(Orientation::orient(&ring1, &ring2));
    assert!(!Orientation::orient(&ring1, &ring3));
    assert!(ring1.orient_tolerance(&ring2, 5));
}

#[test]
fn crossing_point_lies_on_both_segments() {
    let a = Line([v(-3, 1), v(7, 4)]);
    let b = Line([v(0, 6), v(2, -5)]);
    match a.intersection(&b, Tolerance::exact()) {
        Line2DIntersection::Simple(p, ka, kb) => {
            let (t, u) = (ka.scalar(), kb.scalar());
            assert_eq!(p.den, t.den);
            assert_eq!(p.den, u.den);
            assert_eq!(p.x, -3 * t.den + 10 * t.num);
            assert_eq!(p.y, 1 * t.den + 3 * t.num);
            assert_eq!(p.x, 0 * u.den + 2 * u.num);
            assert_eq!(p.y, 6 * u.den - 11 * u.num);
        }
        other => panic!("unexpected {:?}", other),
    }
}

#[test]
fn orienting_in_space_follows_the_direction() {
    let cw = Ring::new(vec![w(0, 0, 5), w(0, 4, 5), w(4, 4, 5), w(4, 0, 5)]);
    let hole = Ring::new(vec![w(1, 1, 5), w(2, 1, 5), w(2, 2, 5)]);
    let p = Polygon::new(cw.clone(), MultiRing(vec![hole]));
    assert_eq!(cw.doubled_vector_area(), (0, 0, -32));
    let up = p.orient((0, 0, 1));
    assert_eq!(up.exterior().doubled_vector_area(), (0, 0, 32));
    assert_eq!(up.interior()[0].doubled_vector_area(), (0, 0, -1));
    let down = p.orient((0, 0, -1));
    assert_eq!(down.exterior().doubled_vector_area(), (0, 0, -32));
    assert_eq!(down.interior()[0].doubled_vector_area(), (0, 0, 1));
}

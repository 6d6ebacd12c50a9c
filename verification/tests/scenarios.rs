//! Scenarios of the library's documentation and examples. Coordinates are integers: where the
//! scenario is written with fractional coordinates, every coordinate is scaled by a common
//! factor (named in the test), and so are the tolerances and areas.

use selo::{
    split_ring_polygon, Area, BoolOps, IVec2, InsideEqual, LineIntersectable, MultiRing, Polygon,
    Ring, SimplifyGrouped, Tolerance,
};

fn v(x: i32, y: i32) -> IVec2 {
    IVec2::new(x, y)
}

// Scale 1000: a square of side 1000, a tolerance of 10 and perturbations of 1.
#[test]
fn two_points_simplified() {
    let eps = 10;
    let r = Ring::new(vec![v(0, 0), v(1000, 0), v(1000, 1000), v(0, 1001), v(0, 999)]);
    let expected = Some(Ring::new(vec![v(0, 0), v(1000, 0), v(1000, 1000), v(0, 1000)]));

    assert_eq!(r.simplify(eps), expected);
}

#[test]
fn four_points_simplified() {
    let eps = 10;
    let r = Ring::new(vec![
        v(0, 0),
        v(1000, 0),
        v(1000, 1000),
        v(1, 1000),
        v(0, 1001),
        v(-1, 1000),
        v(0, 999),
    ]);
    let expected = Some(Ring::new(vec![v(0, 0), v(1000, 0), v(1000, 1000), v(0, 1000)]));

    assert_eq!(r.simplify(eps), expected);
}

#[test]
fn simplification_start_end() {
    let eps = 10;
    let r = Ring::new(vec![v(0, 1), v(1000, 0), v(1000, 1000), v(0, 1000), v(0, -1)]);
    let expected = Some(Ring::new(vec![v(0, 0), v(1000, 0), v(1000, 1000), v(0, 1000)]));

    assert_eq!(r.simplify(eps), expected);
}

#[test]
fn too_few_points() {
    let eps = 10;
    let r = Ring::new(vec![v(0, 1), v(1000, 0), v(0, -1)]);
    let expected = None;

    assert_eq!(r.simplify(eps), expected);
}

// Scale 1000.
#[test]
fn polygon_split() {
    let ring = Ring::new(vec![
        v(11450, 4250),
        v(8550, 3900),
        v(7875, -6825),
        v(5850, -8850),
        v(5850, 6600),
        v(13800, 6600),
        v(13800, -8850),
        v(5850, -8850),
        v(7875, -6825),
        v(11525, -6575),
    ]);
    let poly = ring.to_polygon();
    let multipoly = split_ring_polygon(&poly);
    assert_eq!(multipoly.iter().count(), 2);
    assert!(multipoly.iter().any(|p| p.exterior().lines().iter().count() == 4))
}

// Scale 100000: the signed area is exact, and doubled it is -164956366.
#[test]
fn small_area_not_zero() {
    let ring = Ring::new(vec![
        v(-69588074, 51756170),
        v(-69588074, 51738007),
        v(-69597156, 51747090),
    ]);

    assert_eq!(ring.doubled_area(), -164956366);
}

#[test]
fn verify_fill_rule_area_expectation() {
    let outer_ring = Ring::new(vec![v(0, 0), v(3, 0), v(3, 3), v(0, 3)]);
    let inner_ring = Ring::new(vec![v(1, 1), v(2, 1), v(2, 2), v(1, 2)]);
    let poly_with_hole = Polygon::new(outer_ring.clone(), MultiRing(vec![inner_ring.clone()]));
    let solid_poly = Polygon::new(outer_ring, MultiRing::empty());

    let diff = solid_poly.difference(&poly_with_hole);

    assert_eq!(diff.len(), 1);
    assert_eq!(diff.doubled_area(), inner_ring.doubled_area());
}

// Scale 2: rectangles one unit wide; a square of side 2 has area four.
#[test]
fn verify_union_winding_expectation() {
    let ring_points = [v(0, 0), v(1, 0), v(1, 2), v(0, 2)];
    let ring1 = Ring::new(ring_points.to_vec());
    let ring2 = Ring::new(ring_points.map(|p| v(p.x + 1, p.y)).to_vec());

    let union = ring1.to_polygon().to_multi().union(&ring2.to_polygon().to_multi());

    assert_eq!(union.len(), 1);
    assert_eq!(union.doubled_area(), 2 * 4);
}

#[test]
fn verify_difference_winding_expectation() {
    let ring_points = [v(0, 0), v(1, 0), v(1, 1), v(0, 1)];
    let ring1 = Ring::new(ring_points.map(|p| v(p.x * 2, p.y * 2)).to_vec());
    let ring2 = Ring::new(ring_points.to_vec());

    let difference = ring1.to_polygon().to_multi().difference(&ring2.to_polygon().to_multi());

    assert_eq!(difference.len(), 1);
    assert_eq!(difference.doubled_area(), 2 * 3);
}

// Scale 2: a square of side 2 shifted by 1.
#[test]
fn verify_intersection_winding_expectation() {
    let ring_points = [v(0, 0), v(2, 0), v(2, 2), v(0, 2)];
    let ring1 = Ring::new(ring_points.to_vec());
    let ring2 = Ring::new(ring_points.map(|p| v(p.x + 1, p.y)).to_vec());

    let intersection =
        ring1.to_polygon().to_multi().intersection(&ring2.to_polygon().to_multi());

    assert_eq!(intersection.len(), 1);
    assert_eq!(intersection.doubled_area(), 2 * 2);
}

#[test]
fn polygon() {
    let polygon_1 = Polygon::new(Ring::new(vec![v(0, 0), v(1, 0), v(0, 1)]), MultiRing::empty());
    let polygon_2 = Polygon::new(Ring::new(vec![v(1, 0), v(0, 1), v(0, 0)]), MultiRing::empty());

    assert!(polygon_1.inside_eq(&polygon_1));
    assert!(polygon_1.inside_eq(&polygon_2));
}

// Scale 2: squares of side 2, the second shifted by 1; a tolerance of one thousandth on the
// positions along the segments.
#[test]
fn test_name() {
    let ring1 = Ring::new(vec![v(0, 0), v(2, 0), v(2, 2), v(0, 2)]);
    let ring2 = Ring::new(vec![v(1, 1), v(3, 1), v(3, 3), v(1, 3)]);

    let intersections = ring1.intersection_points(&ring2, Tolerance { num: 1, den: 1000 });
    let at = |x: i128, y: i128| intersections.iter().any(|p| p.x == x * p.den && p.y == y * p.den);

    assert!(at(2, 1));
    assert!(at(1, 2));
}

#[test]
fn ring_area() {
    let polygon = Ring::new(vec![v(1, 1), v(-2, 4), v(-2, -2)]);
    assert_eq!(polygon.doubled_area(), 2 * 9)
}

use selo::{
    Center, DedupPoints, Flip, Geometry, GeometryError, IVec2, IterPoints, Line, LineString, MultiRing,
    Polygon, Ring, Triangle,
};

fn v(x: i32, y: i32) -> IVec2 {
    IVec2::new(x, y)
}

fn square() -> Vec<IVec2> {
    vec![v(0, 0), v(1, 0), v(1, 1), v(0, 1)]
}

#[test]
fn ring_new_open_and_closed_agree() {
    let open = Ring::new(square());
    let mut closed_points = square();
    closed_points.push(v(0, 0));
    let closed = Ring::new(closed_points);
    assert_eq!(open, closed);
    assert_eq!(open.points_open(), &square()[..]);
}

#[test]
fn ring_new_collapses_repetitions() {
    let r = Ring::new(vec![v(0, 0), v(0, 0), v(1, 0), v(1, 1), v(1, 1), v(0, 1), v(0, 0)]);
    assert_eq!(r.points_open(), &square()[..]);
    assert_eq!(r.len(), 4);
}

#[test]
fn ring_new_is_idempotent() {
    let r = Ring::new(vec![v(3, 3), v(3, 3), v(5, 3), v(4, 6), v(3, 3)]);
    let again = Ring::new(r.points_open().to_vec());
    assert_eq!(r, again);
}

#[test]
fn ring_of_one_repeated_point_is_empty() {
    let r = Ring::new(vec![v(2, 2), v(2, 2), v(2, 2)]);
    assert_eq!(r.len(), 0);
    assert_eq!(r, Ring::empty());
}

#[test]
fn ring_duplicate_endpoints() {
    let r = Ring::new(square());
    let mut expected = square();
    expected.push(v(0, 0));
    assert_eq!(r.iter_points_duplicate_endpoints(), expected);
}

#[test]
fn ring_lines_close_the_ring() {
    let r = Ring::new(square());
    let lines = r.lines();
    assert_eq!(lines.len(), 4);
    assert_eq!(lines[3].src(), v(0, 1));
    assert_eq!(lines[3].dst(), v(0, 0));
}

#[test]
fn ring_linestring_roundtrip() {
    let r = Ring::new(square());
    let ls = r.to_linestring();
    assert!(ls.closed());
    assert_eq!(ls.to_ring(), Some(r));
}

#[test]
fn open_linestring_has_no_ring() {
    let ls = LineString::new(square());
    assert!(!ls.closed());
    assert_eq!(ls.to_ring(), None);
    assert_eq!(ls.lines().len(), 3);
    assert_eq!(ls.close(), Ring::new(square()));
}

#[test]
fn try_set_point_refuses_a_neighbour() {
    let mut r = Ring::new(square());
    assert!(!r.try_set_point(0, v(1, 0)));
    assert!(!r.try_set_point(0, v(0, 1)));
    assert_eq!(r, Ring::new(square()));
    assert!(r.try_set_point(0, v(-1, -1)));
    assert_eq!(r.points_open()[0], v(-1, -1));
}

#[test]
fn line_new_refuses_equal_points() {
    assert_eq!(Line::new(v(1, 1), v(1, 1)), Err(GeometryError::InvalidGeometry));
    assert_eq!(GeometryError::InvalidGeometry.message(), "invalid geometry");
    let l = Line::new(v(1, 1), v(2, 3)).unwrap();
    assert_eq!(l.swap_coords(), Line([v(2, 3), v(1, 1)]));
}

#[test]
fn flip_reverses_the_lines() {
    let ring = Ring::new(square());
    let rev_ring = ring.flip();
    let lines = rev_ring.lines();
    assert_eq!(lines[0], Line([v(0, 1), v(1, 1)]));
    assert_eq!(rev_ring.flip(), ring);
}

#[test]
fn flip_polygon_twice_is_identity() {
    let hole = Ring::new(vec![v(1, 1), v(2, 1), v(2, 2)]);
    let p = Polygon::new(Ring::new(vec![v(0, 0), v(4, 0), v(4, 4), v(0, 4)]), MultiRing(vec![hole]));
    assert_eq!(p.flip().flip(), p);
    assert_ne!(p.flip(), p);
}

#[test]
fn iter_points_in_order() {
    let ring = Ring::new(square());
    assert_eq!(ring.iter_points(), square());
    let t = Triangle([v(0, 0), v(1, 0), v(0, 1)]);
    assert_eq!(t.iter_points(), vec![v(0, 0), v(1, 0), v(0, 1)]);
}

#[test]
fn center_of_a_triangle_ring() {
    let ring = Ring::new(vec![v(0, 0), v(3, 0), v(0, 3)]);
    assert_eq!(ring.center(), v(1, 1));
}

#[test]
fn center_rounds_towards_zero() {
    let ring = Ring::new(vec![v(0, 0), v(-1, 0), v(0, -1)]);
    assert_eq!(ring.center(), v(0, 0));
    let ring = Ring::new(vec![v(0, 0), v(5, 0), v(0, 5)]);
    assert_eq!(ring.center(), v(1, 1));
}

#[test]
fn dedup_approx_drops_near_points() {
    // Scale 100: a tolerance of 10.
    let ring = Ring::new(vec![v(0, 0), v(1, 0), v(100, 0), v(100, 100), v(0, 100)]);
    assert_eq!(
        ring.dedup_approx(10),
        Ring::new(vec![v(0, 0), v(100, 0), v(100, 100), v(0, 100)])
    );
}

#[test]
fn dedup_approx_of_an_empty_ring_is_empty() {
    assert_eq!(Ring::<IVec2>::empty().dedup_approx(1), Ring::empty());
    assert_eq!(Ring::<IVec2>::empty().dedup_approx(0), Ring::empty());
}

#[test]
fn dedup_approx_with_zero_tolerance_keeps_everything() {
    let ring = Ring::new(vec![v(0, 0), v(1, 0), v(100, 0), v(100, 100), v(0, 100)]);
    assert_eq!(ring.clone().dedup_approx(0), ring);
}

#[test]
fn dedup_linestring() {
    let ls = LineString::new(vec![v(0, 0), v(0, 0), v(1, 0), v(1, 0), v(0, 0)]);
    assert_eq!(ls.dedup(), LineString::new(vec![v(0, 0), v(1, 0), v(0, 0)]));
}

#[test]
fn geometry_from_primitives() {
    let g: Geometry<IVec2> = Ring::new(square()).into();
    assert!(matches!(g, Geometry::Ring(r) if r == Ring::new(square())));
    let g = Geometry::from(Line([v(0, 0), v(1, 1)]));
    assert!(matches!(g, Geometry::Line(l) if l == Line([v(0, 0), v(1, 1)])));
    let g = Geometry::from(Ring::new(square()).to_polygon().to_multi());
    assert!(matches!(g, Geometry::MultiPolygon(m) if m.len() == 1));
}

#[test]
fn defaults_are_empty() {
    assert_eq!(Ring::<IVec2>::default(), Ring::empty());
    assert_eq!(LineString::<IVec2>::default().0.len(), 0);
    assert_eq!(MultiRing::<IVec2>::default().len(), 0);
    assert_eq!(Polygon::<IVec2>::default().exterior().len(), 0);
}

#[test]
fn point_views_of_rings_and_line_strings() {
    let ring = Ring::new(square());
    assert_eq!(ring.points(), &square()[..]);
    assert_eq!(ring.iter_points_open(), square());
    let mut closed = square();
    closed.push(v(0, 0));
    assert_eq!(ring.iter_points_closed(), closed);
    let ls = LineString::new(closed.clone());
    assert_eq!(ls.points(), closed);
    assert_eq!(ls.inside(), Some(ring));
    assert_eq!(LineString::new(square()).inside(), None);
}

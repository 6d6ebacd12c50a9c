use selo::{
    polygon_from_shape, polygons_from_shapes, ring_from_contour,
    ring2_linestring_from_text, ring2_linestring_text, ring2_polygon_from_text,
    ring2_polygon_from_wkt, ring2_polygon_text, ring3_linestring_from_text,
    ring3_linestring_text, ring3_polygon_from_text, ring3_polygon_text, split_ring_polygon,
    wkt_linestring_coords_2d, wkt_linestring_coords_3d, Area, BoolOps, Dot, Fraction, IVec2,
    IVec3, InsideEqual, Line, Line2DIntersection, Line2DIntersectionKind, LineIntersectable,
    MultiPolygon, MultiRing, Orient, Orient2d, Polygon, RationalPoint, Ring, Tolerance, Wedge, WktCoord, WktError,
    WktShape,
};

fn v(x: i32, y: i32) -> IVec2 {
    IVec2::new(x, y)
}

fn w(x: i32, y: i32, z: i32) -> IVec3 {
    IVec3::new(x, y, z)
}

fn text(bytes: Vec<u8>) -> String {
    String::from_utf8(bytes).unwrap()
}

#[test]
fn dot_and_wedge_products() {
    assert_eq!(v(2, 3).dot(v(4, -5)), 8 - 15);
    assert_eq!(v(2, 3).wedge(v(4, -5)), -10 - 12);
    assert_eq!(v(4, -5).wedge(v(2, 3)), 22);
    assert_eq!(w(1, 2, 3).dot(w(4, 5, 6)), 32);
    assert_eq!(w(1, 0, 0).wedge(w(0, 1, 0)), (0, 0, 1));
    let c = w(1, 2, 3).wedge(w(4, 5, 6));
    assert_eq!(c, (-3, 6, -3));
    assert_eq!(1 * c.0 + 2 * c.1 + 3 * c.2, 0);
}

#[test]
fn extreme_products_do_not_overflow() {
    let m = v(i32::MIN, i32::MIN);
    assert_eq!(m.dot(m), 2 * (1i128 << 62));
    assert_eq!(v(i32::MIN, i32::MAX).wedge(v(i32::MAX, i32::MIN)), (1i128 << 62) - (i32::MAX as i128) * (i32::MAX as i128));
}

#[test]
fn crossing_segments() {
    let a = Line([v(0, 0), v(4, 4)]);
    let b = Line([v(0, 4), v(4, 0)]);
    match a.intersection(&b, Tolerance::exact()) {
        Line2DIntersection::Simple(p, ka, kb) => {
            assert_eq!(p.x, 2 * p.den);
            assert_eq!(p.y, 2 * p.den);
            assert!(matches!(ka, Line2DIntersectionKind::Inside(_)));
            assert!(matches!(kb, Line2DIntersectionKind::Inside(_)));
            // The other way round: same point, positions swapped.
            assert_eq!(b.intersection(&a, Tolerance::exact()), Line2DIntersection::Simple(p, kb, ka));
        }
        other => panic!("unexpected {:?}", other),
    }
    assert!(a.intersection(&b, Tolerance::exact()).is_true_intersection());
    assert!(a.intersection(&b, Tolerance::exact()).intersect_exclude_endpoints(Tolerance::exact()));
}

#[test]
fn crossing_outside_the_segments() {
    let a = Line([v(0, 0), v(1, 0)]);
    let b = Line([v(3, -1), v(3, 1)]);
    match a.intersection(&b, Tolerance::exact()) {
        Line2DIntersection::Simple(p, ka, kb) => {
            assert_eq!(p.x, 3 * p.den);
            assert_eq!(p.y, 0);
            assert_eq!(ka, Line2DIntersectionKind::OutsideDst(Fraction { num: 3 * p.den, den: p.den }));
            assert!(matches!(kb, Line2DIntersectionKind::Inside(_)));
            assert!(!a.intersection(&b, Tolerance::exact()).intersect());
            assert_eq!(a.intersection(&b, Tolerance::exact()).pos(), None);
        }
        other => panic!("unexpected {:?}", other),
    }
}

#[test]
fn touching_at_an_end_point_is_no_true_intersection() {
    let a = Line([v(0, 0), v(2, 0)]);
    let b = Line([v(2, 0), v(2, 2)]);
    let i = a.intersection(&b, Tolerance::exact());
    assert!(i.intersect());
    assert!(!i.is_true_intersection());
    assert!(!i.intersect_exclude_endpoints(Tolerance::exact()));
}

#[test]
fn parallel_and_collinear_segments() {
    let a = Line([v(0, 0), v(2, 0)]);
    assert_eq!(a.intersection(&Line([v(0, 1), v(2, 1)]), Tolerance::exact()), Line2DIntersection::ParallelNonCollinear);
    assert_eq!(a.intersection(&Line([v(3, 0), v(5, 0)]), Tolerance::exact()), Line2DIntersection::CollinearDisjoint);
    assert_eq!(a.intersection(&Line([v(2, 0), v(5, 0)]), Tolerance::exact()), Line2DIntersection::CollinearTouch(v(2, 0)));
    assert_eq!(a.intersection(&Line([v(-3, 0), v(0, 0)]), Tolerance::exact()), Line2DIntersection::CollinearTouch(v(0, 0)));
    assert_eq!(
        a.intersection(&Line([v(1, 0), v(5, 0)]), Tolerance::exact()),
        Line2DIntersection::CollinearOverlap(
            RationalPoint { x: 4, y: 0, den: 4 },
            RationalPoint { x: 8, y: 0, den: 4 }
        )
    );
    assert_eq!(
        a.intersection(&Line([v(1, 0), v(5, 0)]), Tolerance::exact()).pos(),
        Some(RationalPoint { x: 12, y: 0, den: 8 })
    );
}

#[test]
fn nearly_parallel_segments_within_the_tolerance_overlap() {
    // The directions' cross product is 1 and the offset's cross product is -1: within ten times
    // a tolerance of one tenth, so the segments count as collinear and share the whole first.
    let a = Line([v(0, 0), v(1, 0)]);
    let b = Line([v(0, 1), v(1, 2)]);
    assert_eq!(
        a.intersection(&b, Tolerance { num: 1, den: 10 }),
        Line2DIntersection::CollinearOverlap(
            RationalPoint { x: 0, y: 0, den: 1 },
            RationalPoint { x: 1, y: 0, den: 1 }
        )
    );
    // Without a tolerance their supporting lines cross at (-1, 0).
    match a.intersection(&b, Tolerance::exact()) {
        Line2DIntersection::Simple(p, _, _) => {
            assert_eq!(p.x, -p.den);
            assert_eq!(p.y, 0);
        }
        other => panic!("unexpected {:?}", other),
    }
}

#[test]
fn collinear_gaps_within_the_tolerance_touch() {
    // A gap of length 1 after the end of the first segment.
    let a = Line([v(0, 0), v(10, 0)]);
    let b = Line([v(11, 0), v(15, 0)]);
    assert_eq!(a.intersection(&b, Tolerance::exact()), Line2DIntersection::CollinearDisjoint);
    assert_eq!(a.intersection(&b, Tolerance { num: 1, den: 2 }), Line2DIntersection::CollinearDisjoint);
    assert_eq!(a.intersection(&b, Tolerance { num: 1, den: 1 }), Line2DIntersection::CollinearTouch(v(10, 0)));
    assert_eq!(a.intersection(&b, Tolerance { num: 2, den: 1 }), Line2DIntersection::CollinearTouch(v(10, 0)));
    // Before the source: a gap of length 1 too.
    let c = Line([v(-5, 0), v(-1, 0)]);
    assert_eq!(a.intersection(&c, Tolerance::exact()), Line2DIntersection::CollinearDisjoint);
    assert_eq!(a.intersection(&c, Tolerance { num: 1, den: 1 }), Line2DIntersection::CollinearTouch(v(0, 0)));
    // An offset of one unit from a segment of length ten counts as collinear only within a
    // tolerance of at least one.
    let d = Line([v(2, 1), v(6, 1)]);
    assert_eq!(a.intersection(&d, Tolerance { num: 1, den: 2 }), Line2DIntersection::ParallelNonCollinear);
    assert_eq!(
        a.intersection(&d, Tolerance { num: 1, den: 1 }),
        Line2DIntersection::CollinearOverlap(
            RationalPoint { x: 200, y: 0, den: 100 },
            RationalPoint { x: 600, y: 0, den: 100 }
        )
    );
}

#[test]
fn tolerance_widens_the_inside_band() {
    // The crossing lies at 1.1 along the first segment.
    let a = Line([v(0, 0), v(10, 0)]);
    let b = Line([v(11, -1), v(11, 1)]);
    let kind = |tol: Tolerance| match a.intersection(&b, tol) {
        Line2DIntersection::Simple(_, ka, _) => ka,
        other => panic!("unexpected {:?}", other),
    };
    assert!(matches!(kind(Tolerance::exact()), Line2DIntersectionKind::OutsideDst(_)));
    assert!(matches!(kind(Tolerance { num: 1, den: 20 }), Line2DIntersectionKind::OutsideDst(_)));
    assert!(matches!(kind(Tolerance { num: 1, den: 10 }), Line2DIntersectionKind::Inside(_)));
    assert!(matches!(kind(Tolerance { num: 1, den: 5 }), Line2DIntersectionKind::Inside(_)));
    assert!(a.intersection(&b, Tolerance { num: 1, den: 5 }).intersect());
    assert!(!a.intersection(&b, Tolerance::exact()).intersect());
    // Before the source: the crossing at -0.1.
    let c = Line([v(-1, -1), v(-1, 1)]);
    match a.intersection(&c, Tolerance { num: 1, den: 20 }) {
        Line2DIntersection::Simple(_, ka, _) => {
            assert!(matches!(ka, Line2DIntersectionKind::OutsideSrc(_)))
        }
        other => panic!("unexpected {:?}", other),
    }
    match a.intersection(&c, Tolerance { num: 1, den: 10 }) {
        Line2DIntersection::Simple(_, ka, _) => assert!(matches!(ka, Line2DIntersectionKind::Inside(_))),
        other => panic!("unexpected {:?}", other),
    }
}

#[test]
fn excluding_end_points_within_a_tolerance() {
    // The crossing lies at 0.1 along the first segment and at 0.5 along the second.
    let a = Line([v(0, 0), v(10, 0)]);
    let b = Line([v(1, -5), v(1, 5)]);
    let x = a.intersection(&b, Tolerance::exact());
    assert!(x.intersect_exclude_endpoints(Tolerance::exact()));
    assert!(x.intersect_exclude_endpoints(Tolerance { num: 1, den: 20 }));
    assert!(!x.intersect_exclude_endpoints(Tolerance { num: 1, den: 10 }));
    assert!(!x.intersect_exclude_endpoints(Tolerance { num: 1, den: 5 }));
    match x {
        Line2DIntersection::Simple(_, ka, kb) => {
            assert!(ka.is_endpoint(Tolerance { num: 1, den: 10 }));
            assert!(!ka.is_endpoint(Tolerance { num: 1, den: 20 }));
            assert!(!ka.is_endpoint(Tolerance::exact()));
            assert!(!kb.is_endpoint(Tolerance { num: 2, den: 5 }));
            assert!(kb.is_endpoint(Tolerance { num: 1, den: 2 }));
        }
        other => panic!("unexpected {:?}", other),
    }
}

#[test]
fn tolerance_reaches_the_ring_intersections() {
    // The rings touch only where a corner of the second lies just beyond a side of the first.
    let r1 = Ring::new(vec![v(0, 0), v(10, 0), v(10, 10), v(0, 10)]);
    let r2 = Ring::new(vec![v(11, 5), v(20, -4), v(20, 14)]);
    assert!(r1.line_intersections(&r2, Tolerance::exact()).is_empty());
    assert!(!r1.line_intersections(&r2, Tolerance { num: 1, den: 5 }).is_empty());
    assert_eq!(r1.first_line_intersection(&r2, Tolerance::exact()), None);
}

#[test]
fn rings_without_crossings() {
    let r1 = Ring::new(vec![v(0, 0), v(1, 0), v(1, 1), v(0, 1)]);
    let r2 = Ring::new(vec![v(5, 5), v(6, 5), v(6, 6), v(5, 6)]);
    assert!(r1.intersection_points(&r2, Tolerance::exact()).is_empty());
    assert_eq!(r1.first_intersection_point(&r2, Tolerance::exact()), None);
}

#[test]
fn inside_eq_rotation_and_winding() {
    let a = Ring::new(vec![v(0, 0), v(2, 0), v(2, 2), v(0, 2)]);
    let rotated = Ring::new(vec![v(2, 2), v(0, 2), v(0, 0), v(2, 0)]);
    let reversed = Ring::new(vec![v(0, 2), v(2, 2), v(2, 0), v(0, 0)]);
    assert!(a.inside_eq(&rotated));
    assert!(rotated.inside_eq(&a));
    assert!(!a.inside_eq(&reversed));
    assert!(Ring::<IVec2>::empty().inside_eq(&Ring::empty()));
    assert!(Ring::<IVec2>::empty().inside_abs_diff_eq(&Ring::empty(), 0));
    assert!(!Ring::<IVec2>::empty().inside_eq(&a));
    let shaken = Ring::new(vec![v(2, 3), v(0, 2), v(0, 0), v(2, 0)]);
    assert!(!a.inside_eq(&shaken));
    assert!(!a.inside_abs_diff_eq(&shaken, 1));
    assert!(a.inside_abs_diff_eq(&shaken, 2));
}

#[test]
fn approximate_equality_allows_a_different_first_point() {
    let a = Ring::new(vec![v(0, 0), v(2, 0), v(2, 2), v(0, 2)]);
    let b = Ring::new(vec![v(0, 1), v(2, 0), v(2, 2), v(0, 2)]);
    assert!(a.inside_abs_diff_eq(&b, 2));
    assert!(b.inside_abs_diff_eq(&a, 2));
    assert!(!a.inside_abs_diff_eq(&b, 1));
    let c = Ring::new(vec![v(2, 1), v(2, 2), v(0, 2), v(0, 0)]);
    assert!(a.inside_abs_diff_eq(&c, 2));
}

#[test]
fn collections_match_ring_for_ring() {
    let r1 = Ring::new(vec![v(0, 0), v(1, 0), v(0, 1)]);
    let r2 = Ring::new(vec![v(0, 0), v(1, 0), v(1, 1), v(0, 1)]);
    let a = MultiRing(vec![r1.clone(), r1.clone()]);
    let b = MultiRing(vec![r1.clone(), r2.clone()]);
    assert!(!a.inside_eq(&b));
    assert!(!b.inside_eq(&a));
    let c = MultiRing(vec![r2.clone(), r1.clone()]);
    assert!(b.inside_eq(&c));
    assert!(c.inside_eq(&b));
    let p1 = Polygon::new(r1.clone(), MultiRing::empty());
    let p2 = Polygon::new(r2.clone(), MultiRing::empty());
    let pa = MultiPolygon(vec![p1.clone(), p1.clone()]);
    let pb = MultiPolygon(vec![p1.clone(), p2.clone()]);
    assert!(!pa.inside_eq(&pb));
    assert!(!pb.inside_eq(&pa));
    assert!(pb.inside_eq(&MultiPolygon(vec![p2, p1])));
}

#[test]
fn area_and_orientation() {
    let ccw = Ring::new(vec![v(0, 0), v(4, 0), v(4, 4), v(0, 4)]);
    let hole_ccw = Ring::new(vec![v(1, 1), v(2, 1), v(2, 2), v(1, 2)]);
    assert_eq!(ccw.doubled_area(), 32);
    assert_eq!(hole_ccw.doubled_area(), 2);
    let p = Polygon::new(ccw.clone(), MultiRing(vec![hole_ccw.clone()]));
    let oriented = p.orient_default();
    assert_eq!(oriented.exterior().doubled_area(), 32);
    assert_eq!(oriented.interior().0[0].doubled_area(), -2);
    // A polygon's area is that of its exterior minus those of its holes, each signed.
    assert_eq!(oriented.doubled_area(), 32 - (-2));
    assert_eq!(p.doubled_area(), 32 - 2);
    let reversed = p.orient_reversed();
    assert_eq!(reversed.exterior().doubled_area(), -32);
    assert_eq!(reversed.interior().0[0].doubled_area(), 2);
    // Orienting twice changes nothing more, and forgets a flip.
    assert_eq!(oriented.orient_default(), oriented);
    assert_eq!(p.orient(1), oriented);
}

#[test]
fn split_without_double_line_keeps_the_polygon() {
    let p = Ring::new(vec![v(0, 0), v(4, 0), v(4, 4), v(0, 4)]).to_polygon();
    let pieces = split_ring_polygon(&p);
    assert_eq!(pieces.0.len(), 1);
    assert_eq!(pieces.0[0], p);
}

#[test]
fn boolops_on_disjoint_squares() {
    let a = Ring::new(vec![v(0, 0), v(1, 0), v(1, 1), v(0, 1)]);
    let b = Ring::new(vec![v(5, 5), v(6, 5), v(6, 6), v(5, 6)]);
    let union = a.union(&b);
    assert_eq!(union.0.len(), 2);
    assert_eq!(union.doubled_area(), 4);
    assert_eq!(a.intersection(&b).0.len(), 0);
    let difference = a.difference(&b);
    assert_eq!(difference.0.len(), 1);
    assert!(difference.0[0].exterior().inside_eq(&a));
}

#[test]
fn boolops_hole_comes_out_clockwise() {
    let outer = Ring::new(vec![v(0, 0), v(6, 0), v(6, 6), v(0, 6)]);
    let inner = Ring::new(vec![v(2, 2), v(4, 2), v(4, 4), v(2, 4)]);
    let d: MultiPolygon<IVec2> = outer.difference(&inner);
    assert_eq!(d.0.len(), 1);
    assert_eq!(d.0[0].exterior().doubled_area(), 72);
    assert_eq!(d.0[0].interior().0.len(), 1);
    assert_eq!(d.0[0].interior().0[0].doubled_area(), -8);
}

#[test]
fn wkt_text_of_rings() {
    let r2 = Ring::new(vec![v(0, 0), v(10, -3), v(-7, 12)]);
    assert_eq!(text(ring2_polygon_text(&r2)), "POLYGON ((0 0,10 -3,-7 12,0 0))");
    assert_eq!(text(ring2_linestring_text(&r2)), "LINESTRING (0 0,10 -3,-7 12,0 0)");
    let r3 = Ring::new(vec![w(1, 2, 3), w(-4, 5, 6), w(7, -8, 2147483647)]);
    assert_eq!(
        text(ring3_polygon_text(&r3)),
        "POLYGON Z ((1 2 3,-4 5 6,7 -8 2147483647,1 2 3))"
    );
    assert_eq!(
        text(ring3_linestring_text(&r3)),
        "LINESTRING Z (1 2 3,-4 5 6,7 -8 2147483647,1 2 3)"
    );
    let r = Ring::new(vec![v(i32::MIN, 0), v(0, 1), v(1, 0)]);
    assert_eq!(text(ring2_polygon_text(&r)), "POLYGON ((-2147483648 0,0 1,1 0,-2147483648 0))");
}

#[test]
fn wkt_roundtrip() {
    let r2 = Ring::new(vec![v(0, 0), v(10, -3), v(-7, 12)]);
    let back: Ring<IVec2> = ring2_polygon_from_text(&text(ring2_polygon_text(&r2))).unwrap();
    assert_eq!(back, r2);
    let back: Ring<IVec2> = ring2_linestring_from_text(&text(ring2_linestring_text(&r2))).unwrap();
    assert_eq!(back, r2);
    let r3 = Ring::new(vec![w(1, 2, 3), w(-4, 5, 6), w(7, -8, 9)]);
    let back: Ring<IVec3> = ring3_polygon_from_text(&text(ring3_polygon_text(&r3))).unwrap();
    assert_eq!(back, r3);
    let back: Ring<IVec3> =
        ring3_linestring_from_text(&text(ring3_linestring_text(&r3))).unwrap();
    assert_eq!(back, r3);
}

#[test]
fn wkt_reads_the_exterior_ring() {
    let r: Ring<IVec2> =
        ring2_polygon_from_text("POLYGON ((0 0, 4 0, 4 4, 0 0), (1 1, 2 1, 2 2, 1 1))").unwrap();
    assert_eq!(r, Ring::new(vec![v(0, 0), v(4, 0), v(4, 4)]));
}

#[test]
fn wkt_errors() {
    let e = ring2_polygon_from_text::<IVec2>("LINESTRING (0 0, 1 1)").unwrap_err();
    assert!(matches!(e, WktError::WrongType));
    assert_eq!(e.message(), "wrong wkt type");
    let e = ring2_linestring_from_text::<IVec2>("POINT (1 2)").unwrap_err();
    assert!(matches!(e, WktError::WrongType));
    let e = ring2_polygon_from_text::<IVec2>("POLYGON EMPTY").unwrap_err();
    assert!(matches!(e, WktError::MissingExteriorRing));
    assert_eq!(e.message(), "missing exterior ring");
    let e = ring3_polygon_from_text::<IVec3>("POLYGON ((0 0, 1 0, 1 1, 0 0))").unwrap_err();
    assert!(matches!(e, WktError::MissingZ));
    assert_eq!(e.message(), "missing z coord");
    let e = ring3_linestring_from_text::<IVec3>("LINESTRING (0 0, 1 0)").unwrap_err();
    assert!(matches!(e, WktError::MissingZ));
    let e = ring2_polygon_from_text::<IVec2>("not wkt at all").unwrap_err();
    assert!(matches!(e, WktError::Parse(_)));
    assert!(!e.message().is_empty());
}

#[test]
fn wkt_shapes_are_read_exactly() {
    let c = |x: i32, y: i32| WktCoord { x, y, z: None, m: None };
    let shape = WktShape::Polygon(vec![vec![c(0, 0), c(1, 0), c(1, 1), c(0, 0)]]);
    let r: Ring<IVec2> = ring2_polygon_from_wkt(&shape).unwrap();
    assert_eq!(r.points_open(), &[v(0, 0), v(1, 0), v(1, 1)][..]);
    assert!(matches!(ring2_polygon_from_wkt::<IVec2>(&WktShape::Other), Err(WktError::WrongType)));
    assert!(matches!(
        ring2_polygon_from_wkt::<IVec2>(&WktShape::Polygon(vec![])),
        Err(WktError::MissingExteriorRing)
    ));
}

#[test]
fn wkt_coordinates() {
    let coords = [
        WktCoord { x: 1, y: 2, z: Some(3), m: None },
        WktCoord { x: 4, y: 5, z: Some(6), m: Some(7) },
    ];
    assert_eq!(wkt_linestring_coords_2d::<IVec2>(&coords), vec![v(1, 2), v(4, 5)]);
    assert_eq!(wkt_linestring_coords_3d::<IVec3>(&coords), Ok(vec![w(1, 2, 3), w(4, 5, 6)]));
    let missing = [WktCoord { x: 1, y: 2, z: None, m: None }];
    assert_eq!(wkt_linestring_coords_3d::<IVec3>(&missing), Err("missing z coord"));
}

#[test]
fn shapes_of_the_overlay_engine_become_polygons() {
    let outer = vec![(0, 0), (4, 0), (4, 4), (0, 4)];
    let hole = vec![(1, 1), (1, 2), (2, 2), (2, 1)];
    assert_eq!(
        ring_from_contour(&vec![(0, 0), (2, 0), (2, 2), (0, 0)]),
        Ring::new(vec![v(0, 0), v(2, 0), v(2, 2)])
    );
    let p = polygon_from_shape(&vec![outer.clone(), hole.clone()]);
    assert_eq!(p.exterior(), &Ring::new(vec![v(0, 0), v(4, 0), v(4, 4), v(0, 4)]));
    assert_eq!(p.interior().0, vec![Ring::new(vec![v(1, 1), v(1, 2), v(2, 2), v(2, 1)])]);
    let m = polygons_from_shapes(&vec![vec![], vec![outer.clone(), hole], vec![outer]]);
    assert_eq!(m.0.len(), 2);
    assert_eq!(m.0[0], p);
    assert!(m.0[1].interior().0.is_empty());
}

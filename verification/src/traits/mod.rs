mod flip;
pub use flip::{
    flip_polygon, lemma_flip_involution, lemma_flip_keeps_ring_valid,
    lemma_flip_polygon_involution, Flip,
};

mod dedup_points;
pub use dedup_points::{
    dedup_near, dedup_points_near, lemma_dedup_near_idempotent, lemma_dedup_near_shape,
    lemma_ring_dedup_near_drops_closing_point, lemma_ring_dedup_near_wf, ring_dedup_near, spread_out, DedupPoints,
};

mod points_iter;
pub use points_iter::{polygon_points, IterPoints};

mod lines_iter;
pub use lines_iter::{linestrings_lines, polygons_lines, LinesIter};

mod inside_equal;
pub use inside_equal::{
    count_equal_polygons, count_equal_rings, distinct_points, has_near_polygon, has_near_ring,
    lemma_multi_polygon_inside_eq_symmetric, lemma_multi_ring_inside_eq_reflexive,
    lemma_multi_ring_inside_eq_symmetric,
    lemma_ring_inside_eq_reflexive, lemma_ring_inside_eq_rotation, lemma_ring_inside_eq_symmetric,
    lemma_ring_inside_eq_transitive, lemma_ring_inside_eq_winding, multi_polygon_inside_eq,
    multi_polygon_inside_near, multi_ring_inside_eq, multi_ring_inside_near, polygon_inside_eq,
    polygon_inside_near, ring_inside_eq, ring_inside_near, ring_points_inside_eq,
    ring_points_inside_near, rotated_eq, rotated_near, InsideEqual,
};

mod area;
pub use area::{
    chain_sum, doubled_area, fits_i128, lemma_chain_sum_front, lemma_chain_sum_reverse,
    lemma_doubled_area_reverse, lemma_wedge_antisymmetric, lemma_wedge_bound,
    points_doubled_area, polygon_doubled_area, polygons_area_fits, polygons_doubled_area,
    rings_area_fits, rings_doubled_area, wedge, winding_sign, Area, Normal,
};

mod orient;
pub use orient::{
    dot3, dot3_fits, holes_nondegenerate, lemma_orient3_windings, lemma_orient_forgets_flip,
    lemma_orient_idempotent, lemma_orient_windings, orient3_fits, orient_exterior,
    orient_exterior3, orient_interior, orient_interior3, orient_polygon, orient_polygon3, Orient,
    Orient2d, Orientation,
};

mod map;
pub use map::{map_points, mapped_by, polygon_mapped_by, ring_mapped_by, total, MapPoints};

mod center;
pub use center::{point_coords, ring_centers, Center};

mod intersection;
pub use intersection::{
    all_defined, all_hits, all_hits_exec, row_hits, true_points, true_points_exec, LineIntersectable,
};

mod boolops;
pub use boolops::{
    boolop, contour_of, contours_in_range, overlay_coord, overlay_shapes, polygon_contours,
    polygon_from_shape, polygon_of_shape, polygons_contours, polygons_from_shapes,
    polygons_of_shapes, ring_from_contour, ring_of_contour, rings_contours,
    BoolOps, FillRule, OverlayKind, OverlaySource, FILL_RULE,
};

mod vector_area;
pub use vector_area::{
    add3, chain_sum3, cross3, doubled_vector_area, lemma_vector_area_of_flat_ring,
    lemma_vector_area_reverse, lift, neg3, points_doubled_vector_area, polygon_doubled_vector_area,
    polygon_vector_area_fits, sub3, triple, VectorArea,
};

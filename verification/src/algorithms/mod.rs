mod split;
pub use split::{
    double_line_of, find_double_line, find_points, first_from, has_double, is_first_double,
    is_first_hit, lemma_first_from_bounds, lemma_split_keeps_points, lemma_split_pieces_cover, lemma_split_pieces_unsplittable,
    lemma_split_without_double, split_ends, unsplittable,
    neighbours_of, same_segment,
    split_pieces, split_poly,
    split_polygons, split_ring_polygon,
};

mod simplify;
pub use simplify::{
    concat_groups, deep, group_ring_points, lemma_point_groups_chain, lemma_point_groups_concat, lemma_point_groups_nonempty, lemma_simplify_zero_tolerance, means_of,
    point_groups, polygon_simplified, ring_groups,
    rings_simplified, simplified, simplify_ring_points, SimplifyGrouped,
};

mod line_intersection;
pub use line_intersection::{
    after_dst, before_src, beyond_tolerance, cross, crossing_position, direction_cross, dot,
    in_band, intersection_defined, intersection_of, kind_of, lemma_crossing_on_both,
    lemma_crossing_symmetric, lemma_exclude_endpoints_monotone, lemma_inside_band_monotone,
    lemma_overlap_within_both, on_overlap_at,
    near_dst, near_src, nearly_zero, offset_within, parallel_intersection, parallel_result,
    point_along, point_at_x, point_at_y, small_fraction, tolerance_le, well_inside,
    within_tolerance, Fraction, Line2DIntersection, Line2DIntersectionKind, RationalPoint,
    Tolerance,
};

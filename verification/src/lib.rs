//! Integer-coordinate two- and three-dimensional geometric primitives (lines, line strings,
//! rings, polygons, triangles) together with the algorithms on them: normalising
//! constructors, winding flips, deduplication, rotation-insensitive equality, exact signed and
//! vector areas, orientation, exact segment intersection, splitting of self-touching polygons,
//! grouping simplification, boolean operations and reading and writing WKT.

pub mod point;
pub use point::{
    coord_sum, dist2, dot_coords, lemma_cross_orthogonal, lemma_product_bound, mean_coords,
    near, trunc_div, Dot, IVec2, IVec3, Point, Point2, Point3, Wedge,
};

mod errors;
pub use errors::GeometryError;

pub mod seqs;

pub mod primitives;
pub use primitives::{
    DynamicGeometry, Geometry, Line, LineString, MultiLineString, MultiPolygon, MultiRing,
    MultiTriangle, Polygon, Ring, Triangle,
};

pub mod traits;
pub use traits::{
    Area, BoolOps, Center, DedupPoints, FillRule, Flip, InsideEqual, IterPoints, LineIntersectable, LinesIter,
    MapPoints, Normal, Orient, Orient2d, Orientation, OverlayKind, OverlaySource, VectorArea,
    polygon_from_shape, polygons_from_shapes, ring_from_contour,
};

pub mod algorithms;
pub use algorithms::{
    split_ring_polygon, Fraction, Line2DIntersection, Line2DIntersectionKind, RationalPoint,
    SimplifyGrouped, Tolerance,
};

pub mod wkt;
pub use wkt::{
    lemma_wkt_ring2_reads_back, lemma_wkt_ring3_reads_back, ring2_linestring_from_text,
    ring2_linestring_from_wkt, ring2_polygon_from_text, ring2_polygon_from_wkt,
    ring3_linestring_from_text, ring3_linestring_from_wkt, ring3_polygon_from_text,
    ring3_polygon_from_wkt, wkt_linestring_coords_2d, wkt_linestring_coords_3d, written_coords2,
    written_coords3, WktCoord, WktError, WktShape, WktShapeView,
};

pub mod wkt_text;
pub use wkt_text::{
    ring2_linestring_text, ring2_polygon_text, ring3_linestring_text, ring3_polygon_text,
};

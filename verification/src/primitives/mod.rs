mod line;
pub use line::{lemma_line_eq, Line};

mod linestring;
pub use linestring::{linestring_lines, LineString, MultiLineString};

mod ring;
pub use ring::{ring_lines, MultiRing, Ring};

mod polygon;
pub use polygon::{polygon_lines, rings_lines, MultiPolygon, Polygon};

mod triangle;
pub use triangle::{MultiTriangle, Triangle};

mod geometry;
pub use geometry::{DynamicGeometry, Geometry};

mod laws;
pub use laws::{
    lemma_linestring_new_idempotent, lemma_ring_linestring_roundtrip, lemma_ring_lines_chain,
    lemma_ring_lines_proper, lemma_ring_new_idempotent, lemma_ring_new_open_closed,
};

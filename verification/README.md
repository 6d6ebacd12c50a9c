# selo

Two and three dimensional geometric primitives with integer coordinates (`IVec2`, `IVec3`):
lines, line strings, rings, polygons, triangles and their multi versions, together with the
algorithms on them: normalising constructors, winding flips, deduplication (exact and within a
tolerance), rotation-insensitive equality, exact signed and vector areas, orientation, exact
segment intersection with rational results (parallel, collinear and touching segments and the
positions along the segments all decided within a rational tolerance), splitting of self-touching polygons, grouping
simplification, boolean operations (through `i_overlay`'s integer engine) and WKT text.

The library in `src/` is verified with Verus: every public function states what it returns in
terms of mathematical models (`Seq`, `int`), and the laws that relate several functions are
proof functions (`lemma_*`).

- `src/point.rs`: the point traits and the integer point types, dot and wedge products.
- `src/seqs.rs`: sequence helpers shared by the primitives (deduplication, ring normalisation).
- `src/primitives/`: the primitive types; `laws.rs` holds the laws of their constructors.
- `src/traits/`: the operations on primitives, one file per trait.
- `src/algorithms/`: segment intersection, polygon splitting and simplification.
- `src/wkt.rs`, `src/wkt_text.rs`: reading and writing rings as WKT.
- `tests/`: scenarios and the laws on concrete values.
- `app/`: what cannot be verified: interplay with `geo`'s floating point algorithms
  (containment, triangulation, buffering), work planes in space, and serde support.

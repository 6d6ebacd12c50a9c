use vstd::prelude::*;

use crate::point::{IVec2, IVec3, Point2, Point3};
use crate::primitives::lemma_ring_linestring_roundtrip;
use crate::primitives::Ring;
use crate::seqs::{ring_points, ring_wf};

verus! {

/// A coordinate as it is written in WKT text: `x y`, optionally followed by `z` and `m`.
#[derive(Debug, Clone, Copy, PartialEq, Eq, Structural)]
pub struct WktCoord {
    pub x: i32,
    pub y: i32,
    pub z: Option<i32>,
    pub m: Option<i32>,
}

/// The two dimensional points of WKT coordinates (any `z` and `m` are ignored).
pub fn wkt_linestring_coords_2d<P: Point2>(ls: &[WktCoord]) -> (r: Vec<P>)
    ensures
        r@.len() == ls@.len(),
        forall|i: int|
            0 <= i < ls@.len() ==> (#[trigger] r@[i]).coords() == seq![
                ls@[i].x as int,
                ls@[i].y as int,
            ],
{
    let mut r: Vec<P> = Vec::new();
    let n = ls.len();
    let mut i: usize = 0;
    while i < n
        invariant
            n == ls@.len(),
            i <= n,
            r@.len() == i,
            forall|k: int|
                0 <= k < i ==> (#[trigger] r@[k]).coords() == seq![
                    ls@[k].x as int,
                    ls@[k].y as int,
                ],
        decreases n - i,
    {
        let c = ls[i];
        r.push(P::new(c.x, c.y));
        i = i + 1;
    }
    r
}

/// The three dimensional points of WKT coordinates; fails when a coordinate has no `z`.
pub fn wkt_linestring_coords_3d<P: Point3>(ls: &[WktCoord]) -> (r: Result<Vec<P>, &'static str>)
    ensures
        r.is_err() == (exists|i: int| 0 <= i < ls@.len() && (#[trigger] ls@[i]).z.is_none()),
        r matches Err(e) ==> e@ == "missing z coord"@,
        r matches Ok(v) ==> v@.len() == ls@.len() && forall|i: int|
            0 <= i < ls@.len() ==> (#[trigger] v@[i]).coords() == seq![
                ls@[i].x as int,
                ls@[i].y as int,
                ls@[i].z.unwrap() as int,
            ],
{
    let mut r: Vec<P> = Vec::new();
    let n = ls.len();
    let mut i: usize = 0;
    while i < n
        invariant
            n == ls@.len(),
            i <= n,
            r@.len() == i,
            forall|k: int| 0 <= k < i ==> (#[trigger] ls@[k]).z.is_some(),
            forall|k: int|
                0 <= k < i ==> (#[trigger] r@[k]).coords() == seq![
                    ls@[k].x as int,
                    ls@[k].y as int,
                    ls@[k].z.unwrap() as int,
                ],
        decreases n - i,
    {
        let c = ls[i];
        match c.z {
            Some(z) => {
                r.push(P::new(c.x, c.y, z));
            },
            None => {
                return Err("missing z coord");
            },
        }
        i = i + 1;
    }
    Ok(r)
}

/// What a WKT text holds, as far as the readers below need it: the coordinate lists of the
/// rings of a polygon, the coordinates of a line string, or some other kind of geometry.
#[derive(Debug, Clone, PartialEq, Eq)]
pub enum WktShape {
    Polygon(Vec<Vec<WktCoord>>),
    LineString(Vec<WktCoord>),
    Other,
}

/// The mathematical content of a `WktShape`.
pub enum WktShapeView {
    Polygon(Seq<Seq<WktCoord>>),
    LineString(Seq<WktCoord>),
    Other,
}

impl View for WktShape {
    type V = WktShapeView;

    open spec fn view(&self) -> WktShapeView {
        match self {
            WktShape::Polygon(rings) => WktShapeView::Polygon(
                rings@.map_values(|r: Vec<WktCoord>| r@),
            ),
            WktShape::LineString(coords) => WktShapeView::LineString(coords@),
            WktShape::Other => WktShapeView::Other,
        }
    }
}

/// Why a WKT text could not be read as a ring.
#[derive(Debug, Clone, Copy)]
pub enum WktError {
    /// The text is no valid WKT (with integer coordinates); the parser's own message.
    Parse(&'static str),
    /// The text holds another kind of geometry than the one asked for.
    WrongType,
    /// The polygon has no ring at all.
    MissingExteriorRing,
    /// A three dimensional ring was asked for, but a coordinate has no `z`.
    MissingZ,
}

impl WktError {
    /// Human readable description of the error.
    pub fn message(&self) -> (r: &'static str)
        ensures
            self matches WktError::Parse(m) ==> r == m,
            self matches WktError::WrongType ==> r@ == "wrong wkt type"@,
            self matches WktError::MissingExteriorRing ==> r@ == "missing exterior ring"@,
            self matches WktError::MissingZ ==> r@ == "missing z coord"@,
    {
        match self {
            WktError::Parse(m) => m,
            WktError::WrongType => "wrong wkt type",
            WktError::MissingExteriorRing => "missing exterior ring",
            WktError::MissingZ => "missing z coord",
        }
    }
}

/// What `wkt`'s parser makes of a text, read as `Wkt<i32>`: the shape, or the parser's message.
pub uninterp spec fn wkt_parsed(text: Seq<char>) -> Result<WktShapeView, Seq<char>>;

/// Parses `text` with the `FromStr` implementation of `wkt::Wkt<i32>`. A polygon is handed on
/// as the coordinate lists of its rings, a line string as its coordinates, every other kind of
/// geometry as `Other`; a parse failure as the parser's message. The contract only names that
/// result: what the parser accepts is the `wkt` crate's grammar.
#[verifier::external_body]
fn parse_wkt(text: &str) -> (r: Result<WktShape, &'static str>)
    ensures
        wkt_parsed(text@) == (match r {
            Ok(s) => Ok::<WktShapeView, Seq<char>>(s@),
            Err(e) => Err::<WktShapeView, Seq<char>>(e@),
        }),
{
    let coords = |ls: &wkt::types::LineString<i32>| {
        ls.coords().iter().map(|c| WktCoord { x: c.x, y: c.y, z: c.z, m: c.m }).collect()
    };
    match text.parse::<wkt::Wkt<i32>>() {
        Ok(wkt::Wkt::Polygon(p)) => Ok(WktShape::Polygon(p.rings().iter().map(coords).collect())),
        Ok(wkt::Wkt::LineString(ls)) => Ok(WktShape::LineString(coords(&ls))),
        Ok(_) => Ok(WktShape::Other),
        Err(e) => Err(e),
    }
}

/// `pts` are the two dimensional points of the WKT coordinates `c`.
pub open spec fn points_of_coords2<P: Point2>(pts: Seq<P>, c: Seq<WktCoord>) -> bool {
    &&& pts.len() == c.len()
    &&& forall|i: int|
        0 <= i < c.len() ==> (#[trigger] pts[i]).coords() == seq![c[i].x as int, c[i].y as int]
}

/// `pts` are the three dimensional points of the WKT coordinates `c`, each of which has a `z`.
pub open spec fn points_of_coords3<P: Point3>(pts: Seq<P>, c: Seq<WktCoord>) -> bool {
    &&& pts.len() == c.len()
    &&& forall|i: int|
        0 <= i < c.len() ==> (#[trigger] pts[i]).coords() == seq![
            c[i].x as int,
            c[i].y as int,
            c[i].z.unwrap() as int,
        ]
}

/// Some coordinate of `c` has no `z`.
pub open spec fn lacks_z(c: Seq<WktCoord>) -> bool {
    exists|i: int| 0 <= i < c.len() && (#[trigger] c[i]).z.is_none()
}

/// `r` is the ring of the two dimensional points `c`.
pub open spec fn is_ring2_of<P: Point2>(r: Result<Ring<P>, WktError>, c: Seq<WktCoord>) -> bool {
    r matches Ok(ring) && exists|pts: Seq<P>| points_of_coords2(pts, c) && ring@ == ring_points(pts)
}

/// `r` is the ring of the three dimensional points `c`, or `MissingZ` where one lacks a `z`.
pub open spec fn is_ring3_of<P: Point3>(r: Result<Ring<P>, WktError>, c: Seq<WktCoord>) -> bool {
    if lacks_z(c) {
        r matches Err(WktError::MissingZ)
    } else {
        r matches Ok(ring) && exists|pts: Seq<P>|
            points_of_coords3(pts, c) && ring@ == ring_points(pts)
    }
}

/// The outcome of reading a two dimensional ring from a WKT polygon (its exterior ring).
pub open spec fn ring2_polygon_outcome<P: Point2>(
    shape: WktShapeView,
    r: Result<Ring<P>, WktError>,
) -> bool {
    match shape {
        WktShapeView::Polygon(rings) => if rings.len() == 0 {
            r matches Err(WktError::MissingExteriorRing)
        } else {
            is_ring2_of(r, rings[0])
        },
        _ => r matches Err(WktError::WrongType),
    }
}

/// The outcome of reading a three dimensional ring from a WKT polygon (its exterior ring).
pub open spec fn ring3_polygon_outcome<P: Point3>(
    shape: WktShapeView,
    r: Result<Ring<P>, WktError>,
) -> bool {
    match shape {
        WktShapeView::Polygon(rings) => if rings.len() == 0 {
            r matches Err(WktError::MissingExteriorRing)
        } else {
            is_ring3_of(r, rings[0])
        },
        _ => r matches Err(WktError::WrongType),
    }
}

/// The outcome of reading a two dimensional ring from a WKT line string.
pub open spec fn ring2_linestring_outcome<P: Point2>(
    shape: WktShapeView,
    r: Result<Ring<P>, WktError>,
) -> bool {
    match shape {
        WktShapeView::LineString(c) => is_ring2_of(r, c),
        _ => r matches Err(WktError::WrongType),
    }
}

/// The outcome of reading a three dimensional ring from a WKT line string.
pub open spec fn ring3_linestring_outcome<P: Point3>(
    shape: WktShapeView,
    r: Result<Ring<P>, WktError>,
) -> bool {
    match shape {
        WktShapeView::LineString(c) => is_ring3_of(r, c),
        _ => r matches Err(WktError::WrongType),
    }
}

fn ring2_of_coords<P: Point2>(c: &Vec<WktCoord>) -> (r: Result<Ring<P>, WktError>)
    ensures
        is_ring2_of(r, c@),
{
    let pts = wkt_linestring_coords_2d::<P>(c.as_slice());
    let ghost v = pts@;
    let ring = Ring::new(pts);
    assert(points_of_coords2(v, c@));
    Ok(ring)
}

fn ring3_of_coords<P: Point3>(c: &Vec<WktCoord>) -> (r: Result<Ring<P>, WktError>)
    ensures
        is_ring3_of(r, c@),
{
    match wkt_linestring_coords_3d::<P>(c.as_slice()) {
        Ok(pts) => {
            let ghost v = pts@;
            let ring = Ring::new(pts);
            assert(points_of_coords3(v, c@));
            Ok(ring)
        },
        Err(_) => Err(WktError::MissingZ),
    }
}

/// Reads a two dimensional ring from the exterior ring of a WKT polygon.
pub fn ring2_polygon_from_wkt<P: Point2>(shape: &WktShape) -> (r: Result<Ring<P>, WktError>)
    ensures
        ring2_polygon_outcome(shape@, r),
{
    match shape {
        WktShape::Polygon(rings) => {
            if rings.len() == 0 {
                Err(WktError::MissingExteriorRing)
            } else {
                let r = ring2_of_coords::<P>(&rings[0]);
                assert(shape@ matches WktShapeView::Polygon(rs) && rs[0] == rings[0]@);
                r
            }
        },
        _ => Err(WktError::WrongType),
    }
}

/// Reads a three dimensional ring from the exterior ring of a WKT polygon.
pub fn ring3_polygon_from_wkt<P: Point3>(shape: &WktShape) -> (r: Result<Ring<P>, WktError>)
    ensures
        ring3_polygon_outcome(shape@, r),
{
    match shape {
        WktShape::Polygon(rings) => {
            if rings.len() == 0 {
                Err(WktError::MissingExteriorRing)
            } else {
                let r = ring3_of_coords::<P>(&rings[0]);
                assert(shape@ matches WktShapeView::Polygon(rs) && rs[0] == rings[0]@);
                r
            }
        },
        _ => Err(WktError::WrongType),
    }
}

/// Reads a two dimensional ring from a WKT line string.
pub fn ring2_linestring_from_wkt<P: Point2>(shape: &WktShape) -> (r: Result<Ring<P>, WktError>)
    ensures
        ring2_linestring_outcome(shape@, r),
{
    match shape {
        WktShape::LineString(c) => ring2_of_coords::<P>(c),
        _ => Err(WktError::WrongType),
    }
}

/// Reads a three dimensional ring from a WKT line string.
pub fn ring3_linestring_from_wkt<P: Point3>(shape: &WktShape) -> (r: Result<Ring<P>, WktError>)
    ensures
        ring3_linestring_outcome(shape@, r),
{
    match shape {
        WktShape::LineString(c) => ring3_of_coords::<P>(c),
        _ => Err(WktError::WrongType),
    }
}

/// `r` hands on the parser's message `m`.
pub open spec fn is_parse_error<P: crate::point::Point>(r: Result<Ring<P>, WktError>, m: Seq<char>) -> bool {
    r matches Err(WktError::Parse(e)) && e@ == m
}

/// Reads a two dimensional ring from WKT text holding a polygon (`POLYGON ((x y, ...))`).
pub fn ring2_polygon_from_text<P: Point2>(text: &str) -> (r: Result<Ring<P>, WktError>)
    ensures
        match wkt_parsed(text@) {
            Ok(shape) => ring2_polygon_outcome(shape, r),
            Err(m) => is_parse_error(r, m),
        },
{
    match parse_wkt(text) {
        Ok(shape) => ring2_polygon_from_wkt(&shape),
        Err(e) => Err(WktError::Parse(e)),
    }
}

/// Reads a three dimensional ring from WKT text holding a polygon (`POLYGON Z ((x y z, ...))`).
pub fn ring3_polygon_from_text<P: Point3>(text: &str) -> (r: Result<Ring<P>, WktError>)
    ensures
        match wkt_parsed(text@) {
            Ok(shape) => ring3_polygon_outcome(shape, r),
            Err(m) => is_parse_error(r, m),
        },
{
    match parse_wkt(text) {
        Ok(shape) => ring3_polygon_from_wkt(&shape),
        Err(e) => Err(WktError::Parse(e)),
    }
}

/// Reads a two dimensional ring from WKT text holding a line string (`LINESTRING (x y, ...)`).
pub fn ring2_linestring_from_text<P: Point2>(text: &str) -> (r: Result<Ring<P>, WktError>)
    ensures
        match wkt_parsed(text@) {
            Ok(shape) => ring2_linestring_outcome(shape, r),
            Err(m) => is_parse_error(r, m),
        },
{
    match parse_wkt(text) {
        Ok(shape) => ring2_linestring_from_wkt(&shape),
        Err(e) => Err(WktError::Parse(e)),
    }
}

/// Reads a three dimensional ring from WKT text holding a line string
/// (`LINESTRING Z (x y z, ...)`).
pub fn ring3_linestring_from_text<P: Point3>(text: &str) -> (r: Result<Ring<P>, WktError>)
    ensures
        match wkt_parsed(text@) {
            Ok(shape) => ring3_linestring_outcome(shape, r),
            Err(m) => is_parse_error(r, m),
        },
{
    match parse_wkt(text) {
        Ok(shape) => ring3_linestring_from_wkt(&shape),
        Err(e) => Err(WktError::Parse(e)),
    }
}

/// The WKT coordinates that the writers emit for the points of a two dimensional ring: every
/// point, then the first one again to close the ring.
pub open spec fn written_coords2(s: Seq<IVec2>) -> Seq<WktCoord> {
    s.push(s[0]).map_values(|p: IVec2| WktCoord { x: p.x, y: p.y, z: None, m: None })
}

/// The WKT coordinates that the writers emit for the points of a three dimensional ring.
pub open spec fn written_coords3(s: Seq<IVec3>) -> Seq<WktCoord> {
    s.push(s[0]).map_values(|p: IVec3| WktCoord { x: p.x, y: p.y, z: Some(p.z), m: None })
}

/// What is written is read back: a polygon whose exterior, or a line string whose
/// coordinates, list the points of a two dimensional ring closed by its first point is read
/// as that very ring.
pub proof fn lemma_wkt_ring2_reads_back(s: Seq<IVec2>, ring: Ring<IVec2>)
    requires
        ring_wf(s),
        s.len() > 0,
        ring@ == s,
    ensures
        ring2_polygon_outcome(WktShapeView::Polygon(seq![written_coords2(s)]), Ok(ring)),
        ring2_linestring_outcome(WktShapeView::LineString(written_coords2(s)), Ok(ring)),
{
    let pts = s.push(s[0]);
    lemma_ring_linestring_roundtrip(s);
    assert(points_of_coords2(pts, written_coords2(s)));
}

/// What is written is read back, in three dimensions: the coordinates of a ring closed by its
/// first point all carry a `z` and are read as that very ring.
pub proof fn lemma_wkt_ring3_reads_back(s: Seq<IVec3>, ring: Ring<IVec3>)
    requires
        ring_wf(s),
        s.len() > 0,
        ring@ == s,
    ensures
        ring3_polygon_outcome(WktShapeView::Polygon(seq![written_coords3(s)]), Ok(ring)),
        ring3_linestring_outcome(WktShapeView::LineString(written_coords3(s)), Ok(ring)),
{
    let pts = s.push(s[0]);
    let c = written_coords3(s);
    lemma_ring_linestring_roundtrip(s);
    assert(!lacks_z(c));
    assert(points_of_coords3(pts, c));
}

} // verus!

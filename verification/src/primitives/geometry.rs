use vstd::prelude::*;

use super::line::Line;
use super::linestring::{LineString, MultiLineString};
use super::polygon::{MultiPolygon, Polygon};
use super::ring::{MultiRing, Ring};
use super::triangle::Triangle;
use crate::point::{IVec2, IVec3, Point};
use vstd::std_specs::convert::FromSpecImpl;

verus! {

/// An arbitrary flat geometry.
#[derive(Debug)]
pub enum Geometry<P: Point> {
    Line(Line<P>),
    LineString(LineString<P>),
    MultiLineString(MultiLineString<P>),
    Triangle(Triangle<P>),
    Ring(Ring<P>),
    MultiRing(MultiRing<P>),
    Polygon(Polygon<P>),
    MultiPolygon(MultiPolygon<P>),
}

impl<P: Point> From<Line<P>> for Geometry<P> {
    fn from(v: Line<P>) -> (r: Self) {
        Geometry::Line(v)
    }
}

impl<P: Point> FromSpecImpl<Line<P>> for Geometry<P> {
    open spec fn obeys_from_spec() -> bool {
        true
    }

    open spec fn from_spec(v: Line<P>) -> Self {
        Geometry::Line(v)
    }
}

impl<P: Point> From<LineString<P>> for Geometry<P> {
    fn from(v: LineString<P>) -> (r: Self) {
        Geometry::LineString(v)
    }
}

impl<P: Point> FromSpecImpl<LineString<P>> for Geometry<P> {
    open spec fn obeys_from_spec() -> bool {
        true
    }

    open spec fn from_spec(v: LineString<P>) -> Self {
        Geometry::LineString(v)
    }
}

impl<P: Point> From<MultiLineString<P>> for Geometry<P> {
    fn from(v: MultiLineString<P>) -> (r: Self) {
        Geometry::MultiLineString(v)
    }
}

impl<P: Point> FromSpecImpl<MultiLineString<P>> for Geometry<P> {
    open spec fn obeys_from_spec() -> bool {
        true
    }

    open spec fn from_spec(v: MultiLineString<P>) -> Self {
        Geometry::MultiLineString(v)
    }
}

impl<P: Point> From<Triangle<P>> for Geometry<P> {
    fn from(v: Triangle<P>) -> (r: Self) {
        Geometry::Triangle(v)
    }
}

impl<P: Point> FromSpecImpl<Triangle<P>> for Geometry<P> {
    open spec fn obeys_from_spec() -> bool {
        true
    }

    open spec fn from_spec(v: Triangle<P>) -> Self {
        Geometry::Triangle(v)
    }
}

impl<P: Point> From<Ring<P>> for Geometry<P> {
    fn from(v: Ring<P>) -> (r: Self) {
        Geometry::Ring(v)
    }
}

impl<P: Point> FromSpecImpl<Ring<P>> for Geometry<P> {
    open spec fn obeys_from_spec() -> bool {
        true
    }

    open spec fn from_spec(v: Ring<P>) -> Self {
        Geometry::Ring(v)
    }
}

impl<P: Point> From<MultiRing<P>> for Geometry<P> {
    fn from(v: MultiRing<P>) -> (r: Self) {
        Geometry::MultiRing(v)
    }
}

impl<P: Point> FromSpecImpl<MultiRing<P>> for Geometry<P> {
    open spec fn obeys_from_spec() -> bool {
        true
    }

    open spec fn from_spec(v: MultiRing<P>) -> Self {
        Geometry::MultiRing(v)
    }
}

impl<P: Point> From<Polygon<P>> for Geometry<P> {
    fn from(v: Polygon<P>) -> (r: Self) {
        Geometry::Polygon(v)
    }
}

impl<P: Point> FromSpecImpl<Polygon<P>> for Geometry<P> {
    open spec fn obeys_from_spec() -> bool {
        true
    }

    open spec fn from_spec(v: Polygon<P>) -> Self {
        Geometry::Polygon(v)
    }
}

impl<P: Point> From<MultiPolygon<P>> for Geometry<P> {
    fn from(v: MultiPolygon<P>) -> (r: Self) {
        Geometry::MultiPolygon(v)
    }
}

impl<P: Point> FromSpecImpl<MultiPolygon<P>> for Geometry<P> {
    open spec fn obeys_from_spec() -> bool {
        true
    }

    open spec fn from_spec(v: MultiPolygon<P>) -> Self {
        Geometry::MultiPolygon(v)
    }
}

/// A geometry that is either two or three dimensional.
#[derive(Debug)]
pub enum DynamicGeometry {
    Dim2(Geometry<IVec2>),
    Dim3(Geometry<IVec3>),
}

} // verus!

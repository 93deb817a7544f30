//! The marker feed of the web map: groups of point, territory and path markers.
use crate::geometry::Point;
use vstd::prelude::*;

verus! {

/// A group of markers as the feed lists it.
#[derive(Debug)]
pub struct MarkerGroup {
    pub hide: bool,
    pub z_index: i32,
    pub name: String,
    pub control: bool,
    pub id: String,
    pub markers: Vec<Marker>,
    pub order: i32,
    pub timestamp: i64,
}

/// One marker: a point with an icon, a territory made of polygons, or a path.
#[derive(Debug)]
pub enum Marker {
    Icon(IconMarker),
    Polygon(PolygonMarker),
    Polyline(PolylineMarker),
}

/// A point marker; `point` is where it stands.
#[derive(Debug)]
pub struct IconMarker {
    pub tooltip_anchor: Option<Point>,
    pub popup: Option<String>,
    pub size: Option<Point>,
    pub anchor: Option<Point>,
    pub tooltip: Option<String>,
    pub icon: String,
    pub point: Point,
}

/// A territory marker: a multipolygon, each polygon an outer ring followed by its holes.
#[derive(Debug)]
pub struct PolygonMarker {
    pub popup: Option<String>,
    pub tooltip: Option<String>,
    pub fill_color: Option<String>,
    pub color: Option<String>,
    pub points: Vec<Vec<Vec<Point>>>,
}

/// A path marker.
#[derive(Debug)]
pub struct PolylineMarker {
    pub tooltip: Option<String>,
    pub color: Option<String>,
    pub points: Vec<Point>,
}

} // verus!

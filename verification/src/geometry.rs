//! Geometry values and the extraction of a polygon's outer boundary.
//!
//! A position is a list of numbers of which the first two are x and y. A ring
//! is a list of positions, a polygon a list of rings whose first is the
//! exterior ring, and a multi-polygon a list of polygons.

use vstd::prelude::*;
use crate::point::Point3;

verus! {

/// One geometry of a document, with its coordinate arrays.
#[derive(Debug)]
pub enum Geometry {
    Point(Vec<i64>),
    MultiPoint(Vec<Vec<i64>>),
    LineString(Vec<Vec<i64>>),
    MultiLineString(Vec<Vec<Vec<i64>>>),
    Polygon(Vec<Vec<Vec<i64>>>),
    MultiPolygon(Vec<Vec<Vec<Vec<i64>>>>),
    GeometryCollection(Vec<Geometry>),
}

/// Why a document or a geometry yields no shapes.
#[derive(Clone, Copy, Debug, PartialEq, Eq, Structural)]
pub enum ShapeError {
    /// A position of a polygon or multi-polygon has fewer than two numbers.
    MalformedPosition,
    /// A multi-polygon holds no polygon.
    EmptyMultiPolygon,
    /// A document that is a single feature has no geometry.
    MissingGeometry,
}

/// A position is usable when it has an x and a y.
pub open spec fn position_ok(position: Seq<i64>) -> bool {
    position.len() >= 2
}

/// Every position of the ring is usable.
pub open spec fn ring_ok(ring: Seq<Seq<i64>>) -> bool {
    forall|i: int| 0 <= i < ring.len() ==> position_ok(#[trigger] ring[i])
}

/// Every ring of the polygon, interior rings included, is usable.
pub open spec fn polygon_ok(rings: Seq<Seq<Seq<i64>>>) -> bool {
    forall|i: int| 0 <= i < rings.len() ==> ring_ok(#[trigger] rings[i])
}

/// Every polygon of the multi-polygon is usable.
pub open spec fn multi_polygon_ok(polygons: Seq<Seq<Seq<Seq<i64>>>>) -> bool {
    forall|i: int| 0 <= i < polygons.len() ==> polygon_ok(#[trigger] polygons[i])
}

/// The points of a ring, in ring order, on the plane z = 0.
pub open spec fn ring_points(ring: Seq<Seq<i64>>) -> Seq<Point3> {
    Seq::new(ring.len(), |i: int| Point3 { x: ring[i][0], y: ring[i][1], z: 0 })
}

/// The points of a polygon's exterior ring; none for a polygon without rings.
pub open spec fn exterior_points(rings: Seq<Seq<Seq<i64>>>) -> Seq<Point3> {
    if rings.len() == 0 {
        Seq::empty()
    } else {
        ring_points(rings[0])
    }
}

/// What extraction yields for a geometry: the exterior ring of a polygon, the
/// exterior ring of the first polygon of a multi-polygon, nothing for any
/// other kind, and an error for a polygon or multi-polygon that is malformed
/// or empty.
pub open spec fn shape_of(geom: Geometry) -> Result<Option<Seq<Point3>>, ShapeError> {
    match geom {
        Geometry::Polygon(rings) => {
            if polygon_ok(rings.deep_view()) {
                Ok(Some(exterior_points(rings.deep_view())))
            } else {
                Err(ShapeError::MalformedPosition)
            }
        },
        Geometry::MultiPolygon(polygons) => {
            if !multi_polygon_ok(polygons.deep_view()) {
                Err(ShapeError::MalformedPosition)
            } else if polygons.len() == 0 {
                Err(ShapeError::EmptyMultiPolygon)
            } else {
                Ok(Some(exterior_points(polygons.deep_view()[0])))
            }
        },
        _ => Ok(None),
    }
}

/// The mathematical value of an extraction result.
pub open spec fn shape_result_view(
    result: Result<Option<Vec<Point3>>, ShapeError>,
) -> Result<Option<Seq<Point3>>, ShapeError> {
    match result {
        Ok(Some(points)) => Ok(Some(points@)),
        Ok(None) => Ok(None),
        Err(e) => Err(e),
    }
}

/// A ring gives one point for each of its positions, in ring order, each
/// with the position's x and y and with z = 0.
pub proof fn lemma_ring_points_lie_flat(ring: Seq<Seq<i64>>, k: int)
    requires
        0 <= k < ring.len(),
    ensures
        ring_points(ring).len() == ring.len(),
        ring_points(ring)[k].x == ring[k][0],
        ring_points(ring)[k].y == ring[k][1],
        ring_points(ring)[k].z == 0,
{
}

/// A multi-polygon yields what its first polygon would yield alone: none of
/// its other polygons is present in the shape.
pub proof fn lemma_multi_polygon_yields_first_polygon(polygons: Vec<Vec<Vec<Vec<i64>>>>)
    requires
        multi_polygon_ok(polygons.deep_view()),
        polygons.len() > 0,
    ensures
        shape_of(Geometry::MultiPolygon(polygons)) == shape_of(Geometry::Polygon(polygons@[0])),
{
    assert(polygon_ok(polygons.deep_view()[0]));
}

/// Of a polygon, only the exterior ring reaches the shape: usable polygons
/// that share their first ring yield the same points, whatever their holes.
pub proof fn lemma_holes_are_left_out(a: Seq<Seq<Seq<i64>>>, b: Seq<Seq<Seq<i64>>>)
    requires
        a.len() > 0,
        b.len() > 0,
        a[0] == b[0],
    ensures
        exterior_points(a) == exterior_points(b),
{
}

/// Tells whether every position of the ring has an x and a y.
pub fn ring_is_valid(ring: &Vec<Vec<i64>>) -> (ok: bool)
    ensures
        ok == ring_ok(ring.deep_view()),
{
    let mut i: usize = 0;
    while i < ring.len()
        invariant
            i <= ring.len(),
            forall|k: int| 0 <= k < i ==> position_ok(#[trigger] ring.deep_view()[k]),
        decreases ring.len() - i,
    {
        if ring[i].len() < 2 {
            assert(!position_ok(ring.deep_view()[i as int]));
            return false;
        }
        i += 1;
    }
    true
}

/// Tells whether every ring of the polygon is usable.
pub fn polygon_is_valid(rings: &Vec<Vec<Vec<i64>>>) -> (ok: bool)
    ensures
        ok == polygon_ok(rings.deep_view()),
{
    let mut i: usize = 0;
    while i < rings.len()
        invariant
            i <= rings.len(),
            forall|k: int| 0 <= k < i ==> ring_ok(#[trigger] rings.deep_view()[k]),
        decreases rings.len() - i,
    {
        if !ring_is_valid(&rings[i]) {
            assert(!ring_ok(rings.deep_view()[i as int]));
            return false;
        }
        i += 1;
    }
    true
}

/// Tells whether every polygon of the multi-polygon is usable.
pub fn multi_polygon_is_valid(polygons: &Vec<Vec<Vec<Vec<i64>>>>) -> (ok: bool)
    ensures
        ok == multi_polygon_ok(polygons.deep_view()),
{
    let mut i: usize = 0;
    while i < polygons.len()
        invariant
            i <= polygons.len(),
            forall|k: int| 0 <= k < i ==> polygon_ok(#[trigger] polygons.deep_view()[k]),
        decreases polygons.len() - i,
    {
        if !polygon_is_valid(&polygons[i]) {
            assert(!polygon_ok(polygons.deep_view()[i as int]));
            return false;
        }
        i += 1;
    }
    true
}

/// Turns the positions of a ring into points on the plane z = 0, in order.
fn ring_to_points(ring: &Vec<Vec<i64>>) -> (points: Vec<Point3>)
    requires
        ring_ok(ring.deep_view()),
    ensures
        points@ == ring_points(ring.deep_view()),
{
    let mut points: Vec<Point3> = Vec::new();
    let mut i: usize = 0;
    while i < ring.len()
        invariant
            i <= ring.len(),
            ring_ok(ring.deep_view()),
            points@.len() == i,
            forall|k: int| 0 <= k < i ==> points@[k] == ring_points(ring.deep_view())[k],
        decreases ring.len() - i,
    {
        assert(position_ok(ring.deep_view()[i as int]));
        let position = &ring[i];
        points.push(Point3 { x: position[0], y: position[1], z: 0 });
        i += 1;
    }
    points
}

/// The exterior ring of a polygon as points; empty for a polygon without rings.
fn exterior_of(rings: &Vec<Vec<Vec<i64>>>) -> (points: Vec<Point3>)
    requires
        polygon_ok(rings.deep_view()),
    ensures
        points@ == exterior_points(rings.deep_view()),
{
    if rings.len() == 0 {
        Vec::new()
    } else {
        assert(ring_ok(rings.deep_view()[0]));
        ring_to_points(&rings[0])
    }
}

/// Extracts the shape of one geometry.
///
/// A polygon gives the points of its exterior ring in ring order, as the ring
/// has them: a ring that repeats its first point at the end keeps it, and one
/// that does not is not closed. A multi-polygon gives the exterior ring of its
/// first polygon and nothing of the others. Every other kind gives `None`,
/// which is no error. A polygon or multi-polygon with a position of fewer than
/// two numbers, in any of its rings, is refused, and so is a multi-polygon
/// without polygons.
pub fn match_geometry(geom: &Geometry) -> (result: Result<Option<Vec<Point3>>, ShapeError>)
    ensures
        shape_result_view(result) == shape_of(*geom),
{
    match geom {
        Geometry::Polygon(rings) => {
            if !polygon_is_valid(rings) {
                return Err(ShapeError::MalformedPosition);
            }
            Ok(Some(exterior_of(rings)))
        },
        Geometry::MultiPolygon(polygons) => {
            if !multi_polygon_is_valid(polygons) {
                return Err(ShapeError::MalformedPosition);
            }
            if polygons.len() == 0 {
                return Err(ShapeError::EmptyMultiPolygon);
            }
            Ok(Some(exterior_of(&polygons[0])))
        },
        _ => Ok(None),
    }
}

} // verus!

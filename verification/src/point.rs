//! Points in three-dimensional integer space.

use vstd::prelude::*;

verus! {

/// A point with three integer coordinates.
#[derive(Clone, Copy, Debug, PartialEq, Eq, Structural)]
pub struct Point3 {
    pub x: i64,
    pub y: i64,
    pub z: i64,
}

/// Builds a point from its three coordinates.
pub fn pt3(x: i64, y: i64, z: i64) -> (p: Point3)
    ensures
        p == (Point3 { x, y, z }),
{
    Point3 { x, y, z }
}

} // verus!

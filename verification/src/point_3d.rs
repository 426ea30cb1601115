//! Point3D, a point within 3D space with integer coordinates.

use vstd::prelude::*;

verus! {

/// A position in 3D space.  Coordinates are plain signed integers; callers
/// that work in fractional units scale their data onto this grid.
#[derive(Clone, Copy, Debug, PartialEq, Eq, Structural)]
pub struct Point3D {
    pub x: i64,
    pub y: i64,
    pub z: i64,
}

impl Point3D {
    /// Creates a new Point3D with the given coordinates.
    pub fn new(x: i64, y: i64, z: i64) -> (r: Self)
        ensures
            r == (Point3D { x, y, z }),
    {
        Point3D { x, y, z }
    }
}

} // verus!

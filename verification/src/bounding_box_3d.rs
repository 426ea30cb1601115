//! BoundingBox3D, an axis-aligned bounding box in 3D space.

use vstd::prelude::*;
use crate::point_3d::Point3D;
use crate::result::ErrorKind;

verus! {

/// An axis-aligned box in 3D space, stored as its minimum and maximum
/// corners.  A well-formed box has `min <= max` on every axis; a box whose
/// corners coincide on some axis is degenerate but well-formed.
#[derive(Clone, Copy, Debug, PartialEq, Eq, Structural)]
pub struct BoundingBox3D {
    pub min: Point3D,
    pub max: Point3D,
}

/// The midpoint of the integer interval `[a, b]` with `a <= b`, rounded
/// towards `a`.
pub open spec fn mid(a: int, b: int) -> int {
    a + (b - a) / 2
}

impl BoundingBox3D {
    /// Whether the minimum corner lies at or below the maximum corner on
    /// every axis.
    pub open spec fn wf(self) -> bool {
        &&& self.min.x <= self.max.x
        &&& self.min.y <= self.max.y
        &&& self.min.z <= self.max.z
    }

    /// The smallest box enclosing both `self` and `other`.
    pub open spec fn spec_merge(self, other: Self) -> Self {
        BoundingBox3D {
            min: Point3D {
                x: if self.min.x <= other.min.x { self.min.x } else { other.min.x },
                y: if self.min.y <= other.min.y { self.min.y } else { other.min.y },
                z: if self.min.z <= other.min.z { self.min.z } else { other.min.z },
            },
            max: Point3D {
                x: if self.max.x >= other.max.x { self.max.x } else { other.max.x },
                y: if self.max.y >= other.max.y { self.max.y } else { other.max.y },
                z: if self.max.z >= other.max.z { self.max.z } else { other.max.z },
            },
        }
    }

    /// Whether `other` lies entirely within `self`.
    pub open spec fn contains_bb(self, other: Self) -> bool {
        &&& self.min.x <= other.min.x && other.max.x <= self.max.x
        &&& self.min.y <= other.min.y && other.max.y <= self.max.y
        &&& self.min.z <= other.min.z && other.max.z <= self.max.z
    }

    /// Whether `self` and `other` overlap (boundary contact included) on all
    /// three axes.
    pub open spec fn spec_collides(self, other: Self) -> bool {
        &&& self.min.x <= other.max.x && other.min.x <= self.max.x
        &&& self.min.y <= other.max.y && other.min.y <= self.max.y
        &&& self.min.z <= other.max.z && other.min.z <= self.max.z
    }

    /// Whether the plane `x = v` passes through `self`.
    pub open spec fn spec_crossing_x(self, v: i64) -> bool {
        self.min.x <= v <= self.max.x
    }

    /// Whether the plane `y = v` passes through `self`.
    pub open spec fn spec_crossing_y(self, v: i64) -> bool {
        self.min.y <= v <= self.max.y
    }

    /// Whether the plane `z = v` passes through `self`.
    pub open spec fn spec_crossing_z(self, v: i64) -> bool {
        self.min.z <= v <= self.max.z
    }

    /// The center of the box, with each coordinate rounded towards the
    /// minimum corner.
    pub open spec fn spec_center(self) -> Point3D {
        Point3D {
            x: mid(self.min.x as int, self.max.x as int) as i64,
            y: mid(self.min.y as int, self.max.y as int) as i64,
            z: mid(self.min.z as int, self.max.z as int) as i64,
        }
    }

    /// Creates a new box from its corners; fails if the corners are swapped
    /// on any axis.
    pub fn new(min: Point3D, max: Point3D) -> (r: Result<Self, ErrorKind>)
        ensures
            r is Ok <==> (BoundingBox3D { min, max }).wf(),
            r is Ok ==> r->Ok_0 == (BoundingBox3D { min, max }),
            r is Err ==> r->Err_0 == ErrorKind::MinMaxSwapped,
    {
        if min.x <= max.x && min.y <= max.y && min.z <= max.z {
            Ok(BoundingBox3D { min, max })
        } else {
            Err(ErrorKind::MinMaxSwapped)
        }
    }

    /// Grows `self` to also enclose `other`.
    pub fn consume(&mut self, other: Self)
        ensures
            *final(self) == old(self).spec_merge(other),
    {
        let min = Point3D {
            x: if self.min.x <= other.min.x { self.min.x } else { other.min.x },
            y: if self.min.y <= other.min.y { self.min.y } else { other.min.y },
            z: if self.min.z <= other.min.z { self.min.z } else { other.min.z },
        };
        let max = Point3D {
            x: if self.max.x >= other.max.x { self.max.x } else { other.max.x },
            y: if self.max.y >= other.max.y { self.max.y } else { other.max.y },
            z: if self.max.z >= other.max.z { self.max.z } else { other.max.z },
        };
        *self = BoundingBox3D { min, max };
    }

    /// The center of the box, with each coordinate rounded towards the
    /// minimum corner.
    pub fn center_bb(&self) -> (r: Point3D)
        requires
            self.wf(),
        ensures
            r == self.spec_center(),
    {
        Point3D {
            x: mid_exec(self.min.x, self.max.x),
            y: mid_exec(self.min.y, self.max.y),
            z: mid_exec(self.min.z, self.max.z),
        }
    }

    /// Whether `self` and `other` overlap (boundary contact included).
    pub fn collides_with(&self, other: &Self) -> (r: bool)
        ensures
            r == self.spec_collides(*other),
    {
        self.min.x <= other.max.x && other.min.x <= self.max.x
            && self.min.y <= other.max.y && other.min.y <= self.max.y
            && self.min.z <= other.max.z && other.min.z <= self.max.z
    }

    /// Whether the plane `x = v` passes through the box.
    pub fn crossing_x_value(&self, v: i64) -> (r: bool)
        ensures
            r == self.spec_crossing_x(v),
    {
        self.min.x <= v && v <= self.max.x
    }

    /// Whether the plane `y = v` passes through the box.
    pub fn crossing_y_value(&self, v: i64) -> (r: bool)
        ensures
            r == self.spec_crossing_y(v),
    {
        self.min.y <= v && v <= self.max.y
    }

    /// Whether the plane `z = v` passes through the box.
    pub fn crossing_z_value(&self, v: i64) -> (r: bool)
        ensures
            r == self.spec_crossing_z(v),
    {
        self.min.z <= v && v <= self.max.z
    }
}

/// The midpoint of `[a, b]`, rounded towards `a`.
fn mid_exec(a: i64, b: i64) -> (r: i64)
    requires
        a <= b,
    ensures
        r as int == mid(a as int, b as int),
        a <= r <= b,
{
    let d = (b as i128) - (a as i128);
    let h = ((d as u128) / 2) as i128;
    proof {
        assert(0 <= h <= d);
        assert(h == (b - a) / 2);
    }
    ((a as i128) + h) as i64
}

/// A box that collides with an inner box also collides with any box
/// enclosing that inner box, and the same holds for the axis-crossing tests.
pub proof fn lemma_query_monotone(outer: BoundingBox3D, inner: BoundingBox3D, q: BoundingBox3D, v: i64)
    requires
        outer.contains_bb(inner),
        inner.wf(),
    ensures
        inner.spec_collides(q) ==> outer.spec_collides(q),
        inner.spec_crossing_x(v) ==> outer.spec_crossing_x(v),
        inner.spec_crossing_y(v) ==> outer.spec_crossing_y(v),
        inner.spec_crossing_z(v) ==> outer.spec_crossing_z(v),
{
}

} // verus!

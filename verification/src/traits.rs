//! The capability trait required of anything indexable by the bounding-box
//! tree.

use vstd::prelude::*;
use crate::bounding_box_3d::BoundingBox3D;
use crate::result::ErrorKind;

verus! {

/// A shape that can report the axis-aligned bounding box of its geometry,
/// or fail if that box is undefined (degenerate or empty geometry).
///
/// `spec_has_bb` and `spec_bb` are the mathematical face of the capability:
/// `bounding_box` succeeds exactly when `spec_has_bb` holds and then returns
/// exactly `spec_bb`, which must be a well-formed box.
pub trait HasBoundingBox3D: Sized {
    /// Whether this shape has a defined bounding box.
    spec fn spec_has_bb(&self) -> bool;

    /// The bounding box of this shape, meaningful when `spec_has_bb` holds.
    spec fn spec_bb(&self) -> BoundingBox3D;

    /// Returns the bounding box of this shape, or an error if it has none.
    fn bounding_box(&self) -> (r: Result<BoundingBox3D, ErrorKind>)
        ensures
            r is Ok <==> self.spec_has_bb(),
            r is Ok ==> r->Ok_0 == self.spec_bb() && self.spec_bb().wf(),
    ;
}

/// A box is its own bounding box; a box with swapped corners has none.
impl HasBoundingBox3D for BoundingBox3D {
    open spec fn spec_has_bb(&self) -> bool {
        self.wf()
    }

    open spec fn spec_bb(&self) -> BoundingBox3D {
        *self
    }

    fn bounding_box(&self) -> (r: Result<BoundingBox3D, ErrorKind>) {
        if self.min.x <= self.max.x && self.min.y <= self.max.y && self.min.z <= self.max.z {
            Ok(*self)
        } else {
            Err(ErrorKind::MinMaxSwapped)
        }
    }
}

/// A shape that may lack geometry altogether: `None` has no bounding box.
impl HasBoundingBox3D for Option<BoundingBox3D> {
    open spec fn spec_has_bb(&self) -> bool {
        self is Some && self->0.wf()
    }

    open spec fn spec_bb(&self) -> BoundingBox3D {
        self->0
    }

    fn bounding_box(&self) -> (r: Result<BoundingBox3D, ErrorKind>) {
        match self {
            Some(bb) => {
                if bb.min.x <= bb.max.x && bb.min.y <= bb.max.y && bb.min.z <= bb.max.z {
                    Ok(*bb)
                } else {
                    Err(ErrorKind::MinMaxSwapped)
                }
            },
            None => Err(ErrorKind::BoundingBoxMissing),
        }
    }
}

} // verus!

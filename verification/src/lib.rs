//! A 3D geometry toolkit built around an axis-aligned-bounding-box tree.
//!
//! The central structure is [`aa_bb_tree_3d::AABBTree3D`], a binary
//! bounding-volume hierarchy over any element type that can report its own
//! axis-aligned bounding box.  Around it stand the integer geometric
//! primitives it indexes (points, boxes, lines), the error types shared by
//! the crate, and loaders for simple point and mesh file formats that parse
//! from bytes (callers do the actual file reading).

pub mod aa_bb_tree_3d;
pub mod bounding_box_3d;
pub mod decimal;
pub mod io_utils;
pub mod line_3d;
pub mod point_3d;
pub mod stl;
pub mod result;
pub mod traits;
pub mod xyz;

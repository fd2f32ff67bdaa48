//! Spatial core of a block-world sandbox: axis utilities, fixed-point
//! geometry (AABB, half-open bounds, voxel-face aggregation), a chunked
//! voxel grid, a DDA ray walker over that grid, and the per-tick collision
//! resolver that moves entities through solid voxels.
//!
//! All continuous quantities (positions, velocities, extents, ray lengths)
//! are fixed-point values: an `i64` counts thousandths of a block edge, so
//! one block is `SCALE` units wide. Arithmetic on them is exact integer
//! arithmetic, which lets every geometric operation carry a precise
//! contract.

pub mod aabb;
pub mod axis;
pub mod block;
pub mod block_iter;
pub mod bound3d;
pub mod chunk;
pub mod color;
pub mod direction;
pub mod fx;
pub mod generator;
pub mod physics;
pub mod trit;
pub mod voxel_bound;
pub mod vec3;
pub mod world;

use vstd::prelude::*;

verus! {

/// Number of fixed-point units in one block edge.
pub const SCALE: i64 = 1000;

} // verus!

//! Terrain chunks for a voxel world: block grids filled from sampled terrain,
//! greedy meshing of the exposed block faces, and a bounded chunk cache that
//! evicts the least recently used chunk.

pub mod bitmap;
pub mod block;
pub mod chunk;
mod clock;
pub mod face;
pub mod geometry;
pub mod grid;
pub mod loader;
pub mod mesh;
pub mod quad;
pub mod terrain;
pub mod vector;

use vstd::prelude::*;

verus! {

/// Edge length of a chunk's block grid.
pub const CHUNK_SIZE: usize = 32;

/// How many chunks are visible from the viewer in each horizontal direction.
pub const VISIBLE_RADIUS: usize = 8;

/// The number of face orientations of a cube.
pub const NUM_FACES: usize = 6;

/// The number of chunks that a loader keeps by default.
pub const MAX_CHUNKS: usize = (VISIBLE_RADIUS * 2) * (VISIBLE_RADIUS * 2) * 2;

} // verus!

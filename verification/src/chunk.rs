//! Chunks: a block grid with its mesh, from generation to the cache.

use crate::block::Block;
use crate::block::BlockType;
use crate::clock::precise_time_ns;
use crate::geometry::MeshData;
use crate::grid::cube;
use crate::grid::lemma_grids_equal;
use crate::grid::Grid;
use crate::grid::VoxelGrid;
use crate::mesh::is_mesh_of;
use crate::mesh::lemma_mesh_unique;
use crate::mesh::mesh_gen;
use crate::terrain::generated_block;
use crate::terrain::terrain_gen;
use crate::terrain::TerrainSamples;
use crate::vector::Cell;
use vstd::prelude::*;

verus! {

/// The handles of the four graphics buffers that hold a chunk's geometry.
#[derive(Clone, Copy, Debug, PartialEq, Eq, Structural)]
pub struct BufferHandles {
    pub vertex_buffer: u32,
    pub normal_buffer: u32,
    pub blocktype_buffer: u32,
    pub element_buffer: u32,
}

impl BufferHandles {
    /// The handles of a chunk that has no geometry: all of them 0.
    pub open spec fn spec_null() -> BufferHandles {
        BufferHandles { vertex_buffer: 0, normal_buffer: 0, blocktype_buffer: 0, element_buffer: 0 }
    }

    /// The handles of a chunk that has no geometry.
    #[verifier::when_used_as_spec(spec_null)]
    pub fn null() -> (handles: BufferHandles)
        ensures
            handles == Self::spec_null(),
    {
        BufferHandles { vertex_buffer: 0, normal_buffer: 0, blocktype_buffer: 0, element_buffer: 0 }
    }
}

/// The drawable form of a chunk: its buffers, and for each face orientation
/// where its elements start and how many they are.
#[derive(Clone, Copy, Debug)]
pub struct Mesh {
    pub buffers: BufferHandles,
    pub face_ranges: [(usize, usize); 6],
}

/// A chunk in the cache.
pub struct Chunk {
    pub x: i64,
    pub z: i64,
    pub map: VoxelGrid,
    pub mesh: Mesh,
    pub used_time: u64,
}

impl Chunk {
    /// Marks the chunk as used at the time `now`.
    pub fn touch_at(&mut self, now: u64)
        ensures
            *final(self) == (Chunk { used_time: now, ..*old(self) }),
    {
        self.used_time = now;
    }

    /// Marks the chunk as used at the present time. Only the time of use
    /// changes.
    pub fn touch(&mut self)
        ensures
            *final(self) == (Chunk { used_time: final(self).used_time, ..*old(self) }),
    {
        let now = precise_time_ns();
        self.touch_at(now);
    }
}

/// Why a chunk could not be made ready for the cache.
#[derive(Clone, Copy, Debug, PartialEq, Eq, Structural)]
pub enum LoadError {
    /// The chunk has geometry, and no buffers were made for it.
    UploadFailed,
}

/// A chunk as generated: its grid and its geometry, before the geometry has
/// gone to the graphics buffers.
pub struct ChunkBuild {
    pub x: i64,
    pub z: i64,
    pub map: VoxelGrid,
    pub geometry: MeshData,
}

/// Whether `map` is the terrain that the samples give, starting from air.
pub open spec fn is_generated_from(map: Grid, samples: &TerrainSamples) -> bool {
    &&& map.wf()
    &&& map.size == samples.size()
    &&& forall|c: Cell|
        map.in_bounds(c) ==> #[trigger] map.block_at(c) == generated_block(
            samples,
            c,
            Block { blocktype: BlockType::BlockAir },
        )
}

/// What `chunk_gen` asks of a chunk of edge `size` at `(chunk_x, chunk_z)`:
/// a column needs room for one block below a free layer, the corners of all
/// faces must be countable in 32 bits, and the chunk must not reach past the
/// largest world coordinate.
pub open spec fn spec_can_generate(chunk_x: i64, chunk_z: i64, size: usize) -> bool {
    &&& size >= 2
    &&& 24 * cube(size as int) <= u32::MAX
    &&& chunk_x + size <= i64::MAX
    &&& chunk_z + size <= i64::MAX
}

/// Whether a chunk of edge `size` at `(chunk_x, chunk_z)` can be generated.
/// Callers that are not verified test this before they call `chunk_gen`.
#[verifier::when_used_as_spec(spec_can_generate)]
pub fn can_generate(chunk_x: i64, chunk_z: i64, size: usize) -> (possible: bool)
    ensures
        possible == spec_can_generate(chunk_x, chunk_z, size),
{
    if size < 2 {
        return false;
    }
    if size > 563 {
        assert(24 * cube(size as int) > u32::MAX) by (nonlinear_arith)
            requires
                size >= 564,
        ;
        return false;
    }
    assert(cube(size as int) <= 563 * 563 * 563 && cube(size as int) >= 0) by (nonlinear_arith)
        requires
            0 <= size <= 563,
    ;
    assert(size * size <= 563 * 563) by (nonlinear_arith)
        requires
            0 <= size <= 563,
    ;
    let volume = (size as u64) * (size as u64) * (size as u64);
    let reach = size as i64;
    24 * volume <= u32::MAX as u64 && chunk_x <= i64::MAX - reach && chunk_z <= i64::MAX - reach
}

/// Determinism of terrain: the samples decide the generated grid.
pub proof fn lemma_generation_is_deterministic(first: Grid, second: Grid, samples: &TerrainSamples)
    requires
        is_generated_from(first, samples),
        is_generated_from(second, samples),
    ensures
        first == second,
{
    lemma_grids_equal(first, second);
}

/// Determinism of generation: the chunk position and the samples decide the
/// grid and the geometry of the generated chunk.
pub proof fn lemma_chunk_gen_is_deterministic(
    first: ChunkBuild,
    second: ChunkBuild,
    chunk_x: int,
    chunk_z: int,
    samples: &TerrainSamples,
)
    requires
        is_generated_from(first.map@, samples),
        is_generated_from(second.map@, samples),
        is_mesh_of(&first.geometry, chunk_x, chunk_z, first.map@),
        is_mesh_of(&second.geometry, chunk_x, chunk_z, second.map@),
    ensures
        first.map@ == second.map@,
        first.geometry.quads@ == second.geometry.quads@,
        first.geometry.vertices@ == second.geometry.vertices@,
        first.geometry.normals@ == second.geometry.normals@,
        first.geometry.blocktypes@ == second.geometry.blocktypes@,
        first.geometry.elements@ == second.geometry.elements@,
        first.geometry.face_ranges == second.geometry.face_ranges,
{
    lemma_generation_is_deterministic(first.map@, second.map@, samples);
    lemma_mesh_unique(&first.geometry, &second.geometry, chunk_x, chunk_z, first.map@);
}

/// Generates the chunk at `(chunk_x, chunk_z)`: its terrain from the samples,
/// and the mesh of that terrain.
pub fn chunk_gen(chunk_x: i64, chunk_z: i64, samples: &TerrainSamples) -> (build: ChunkBuild)
    requires
        samples.wf(),
        samples.size() >= 2,
        24 * cube(samples.size()) <= u32::MAX,
        chunk_x + samples.size() <= i64::MAX,
        chunk_z + samples.size() <= i64::MAX,
    ensures
        build.x == chunk_x,
        build.z == chunk_z,
        build.map.wf(),
        is_generated_from(build.map@, samples),
        is_mesh_of(&build.geometry, chunk_x as int, chunk_z as int, build.map@),
{
    let mut map = VoxelGrid::new(samples.edge());
    terrain_gen(samples, &mut map);
    let geometry = mesh_gen(chunk_x, chunk_z, &map);
    ChunkBuild { x: chunk_x, z: chunk_z, map, geometry }
}

impl ChunkBuild {
    /// Whether the chunk has geometry that has to go to graphics buffers. A
    /// chunk without any exposed face has none.
    pub fn needs_upload(&self) -> (needed: bool)
        ensures
            needed == (self.geometry.elements@.len() > 0),
    {
        !self.geometry.is_empty()
    }

    /// What `finish_at` makes of the build, the buffers and the time.
    pub open spec fn finished(self, buffers: Option<BufferHandles>, now: u64) -> Result<
        Chunk,
        LoadError,
    > {
        if self.geometry.elements@.len() > 0 && buffers is None {
            Err(LoadError::UploadFailed)
        } else {
            Ok(
                Chunk {
                    x: self.x,
                    z: self.z,
                    map: self.map,
                    mesh: Mesh {
                        buffers: match buffers {
                            Some(handles) => handles,
                            None => BufferHandles::spec_null(),
                        },
                        face_ranges: self.geometry.face_ranges,
                    },
                    used_time: now,
                },
            )
        }
    }

    /// Makes the chunk ready for the cache, used at the time `now`. `buffers`
    /// are the handles of the buffers that the geometry went to, or `None`
    /// where no buffers were made. A chunk with geometry and without buffers
    /// is refused; a chunk without geometry needs none and gets null handles.
    pub fn finish_at(self, buffers: Option<BufferHandles>, now: u64) -> (chunk: Result<
        Chunk,
        LoadError,
    >)
        ensures
            chunk == self.finished(buffers, now),
    {
        if self.needs_upload() && buffers.is_none() {
            return Err(LoadError::UploadFailed);
        }
        let handles = match buffers {
            Some(handles) => handles,
            None => BufferHandles::null(),
        };
        Ok(
            Chunk {
                x: self.x,
                z: self.z,
                map: self.map,
                mesh: Mesh { buffers: handles, face_ranges: self.geometry.face_ranges },
                used_time: now,
            },
        )
    }

    /// Makes the chunk ready for the cache, used at the present time.
    pub fn finish(self, buffers: Option<BufferHandles>) -> (chunk: Result<Chunk, LoadError>)
        ensures
            exists|now: u64| chunk == self.finished(buffers, now),
    {
        let now = precise_time_ns();
        self.finish_at(buffers, now)
    }
}

} // verus!

//! Terrain: fills a chunk's grid, column by column, from sampled heights.

use crate::block::Block;
use crate::block::BlockType;
use crate::grid::Grid;
use crate::grid::VoxelGrid;
use crate::vector::Cell;
use vstd::prelude::*;

verus! {

/// The sea level: an empty cell below this height holds water.
pub const WATER_LEVEL: usize = 10;

/// Columns up to this height have a cover of dirt and grass.
pub const DIRT_MAX_HEIGHT: usize = 20;

/// What was sampled for one column of a chunk: the height of the ground
/// before it is cut to the grid, and the thickness of the dirt cover.
#[derive(Clone, Copy, Debug, PartialEq, Eq, Structural)]
pub struct ColumnSample {
    pub raw_height: i64,
    pub dirt_thickness: u64,
}

/// The samples of all columns of one chunk, one row of `z` after the other.
pub struct TerrainSamples {
    size: usize,
    columns: Vec<ColumnSample>,
}

impl View for TerrainSamples {
    type V = Seq<ColumnSample>;

    /// The samples as they were handed in, one row of `z` after the other.
    closed spec fn view(&self) -> Seq<ColumnSample> {
        self.columns@
    }
}

impl TerrainSamples {
    /// The edge length of the chunk that the samples are for.
    pub closed spec fn size(&self) -> int {
        self.size as int
    }

    /// There is one sample for each column.
    pub closed spec fn wf(&self) -> bool {
        &&& self.columns@.len() == self.size * self.size
        &&& self.size * self.size <= usize::MAX
    }

    /// The sample of the column at `(x, z)`.
    pub open spec fn column(&self, x: int, z: int) -> ColumnSample {
        self@[x * self.size() + z]
    }

    /// Takes the samples of a chunk of edge `size`, if there is exactly one
    /// for each of its `size * size` columns.
    pub fn new(size: usize, columns: Vec<ColumnSample>) -> (samples: Option<TerrainSamples>)
        ensures
            samples is Some <==> columns@.len() == size * size,
            samples matches Some(s) ==> s.wf() && s.size() == size && s@ == columns@,
    {
        let given = columns.len();
        match size.checked_mul(size) {
            Some(count) => {
                if given == count {
                    Some(TerrainSamples { size, columns })
                } else {
                    None
                }
            },
            None => None,
        }
    }

    /// The edge length of the chunk that the samples are for.
    pub fn edge(&self) -> (size: usize)
        ensures
            size == self.size(),
    {
        self.size
    }

    /// The sample of the column at `(x, z)`.
    pub fn get(&self, x: usize, z: usize) -> (sample: ColumnSample)
        requires
            self.wf(),
            x < self.size(),
            z < self.size(),
        ensures
            sample == self.column(x as int, z as int),
    {
        proof {
            lemma_column_index(self.size as int, x as int, z as int);
        }
        self.columns[x * self.size + z]
    }
}

/// A column of a square has its place inside the square.
proof fn lemma_column_index(size: int, x: int, z: int)
    requires
        0 <= x < size,
        0 <= z < size,
    ensures
        0 <= x * size <= x * size + z < size * size,
{
    assert(0 <= x * size && x * size + size <= size * size) by (nonlinear_arith)
        requires
            0 <= x < size,
    ;
}

/// The seeds of the four noise fields that shape the terrain of a world.
pub fn noise_seeds(seed: u32) -> (seeds: [u64; 4])
    ensures
        seeds[0] == seed,
        seeds[1] == seed * 7,
        seeds[2] == seed * 13,
        seeds[3] == seed * 17,
{
    let wide = seed as u64;
    [wide, wide * 7, wide * 13, wide * 17]
}

/// The world coordinate of a block: the chunk's coordinate plus the block's
/// place in the chunk, so that terrain runs on across chunk borders.
pub fn world_coordinate(chunk: i64, block: usize) -> (world: i64)
    requires
        chunk + block <= i64::MAX,
    ensures
        world == chunk + block,
{
    if chunk >= 0 {
        chunk + block as i64
    } else {
        let below = (-(chunk + 1)) as u64;
        let offset = block as u64;
        if offset > below {
            (offset - below - 1) as i64
        } else {
            -((below - offset) as i64) - 1
        }
    }
}

/// The height of a column in a grid of edge `size`: the sampled height, but
/// at least 1 and at most `size - 1`.
pub open spec fn column_height(raw_height: int, size: int) -> int {
    if raw_height < 1 {
        1
    } else if raw_height > size - 1 {
        size - 1
    } else {
        raw_height
    }
}

/// What terrain generation puts at height `y` of a column of the given
/// height and dirt thickness, or `None` where it leaves the cell as it is.
/// Below the column's height the ground is stone; in a column no higher than
/// `DIRT_MAX_HEIGHT` the top `dirt_thickness` layers are dirt, and of these
/// the top two are grass. From the column's height up to the sea level there
/// is water.
pub open spec fn terrain_block(height: int, dirt_thickness: int, y: int) -> Option<BlockType> {
    if y < height {
        if height <= DIRT_MAX_HEIGHT && y + dirt_thickness >= height {
            if y < height - 2 {
                Some(BlockType::BlockDirt)
            } else {
                Some(BlockType::BlockGrass)
            }
        } else {
            Some(BlockType::BlockStone)
        }
    } else if y < WATER_LEVEL {
        Some(BlockType::BlockWater)
    } else {
        None
    }
}

/// The block that stands in cell `c` after terrain generation, given the
/// block `before` that stood there.
pub open spec fn generated_block(samples: &TerrainSamples, c: Cell, before: Block) -> Block {
    let sample = samples.column(c.x, c.z);
    match terrain_block(
        column_height(sample.raw_height as int, samples.size()),
        sample.dirt_thickness as int,
        c.y,
    ) {
        Some(blocktype) => Block { blocktype },
        None => before,
    }
}

/// Whether `after` is what terrain generation from `samples` makes of the
/// grid `before`.
pub open spec fn is_terrain_of(after: Grid, samples: &TerrainSamples, before: Grid) -> bool {
    &&& after.wf()
    &&& after.size == before.size
    &&& forall|c: Cell|
        after.in_bounds(c) ==> #[trigger] after.block_at(c) == generated_block(
            samples,
            c,
            before.block_at(c),
        )
}

/// Whether the samples of the chunk at `(chunk_x, chunk_z)` are taken from
/// `field`: every column has the sample that the field gives at the column's
/// world coordinate.
pub open spec fn samples_field(
    samples: &TerrainSamples,
    chunk_x: int,
    chunk_z: int,
    field: spec_fn(int, int) -> ColumnSample,
) -> bool {
    forall|x: int, z: int|
        0 <= x < samples.size() && 0 <= z < samples.size() ==> #[trigger] samples.column(x, z)
            == field(chunk_x + x, chunk_z + z)
}

/// Boundary continuity: where two chunks of one size, sampled from one
/// field, cover the same world coordinate, terrain generation gives them the
/// same column there.
pub proof fn lemma_terrain_continues_across_chunks(
    field: spec_fn(int, int) -> ColumnSample,
    first: &TerrainSamples,
    first_x: int,
    first_z: int,
    second: &TerrainSamples,
    second_x: int,
    second_z: int,
    world_x: int,
    world_z: int,
    y: int,
    before: Block,
)
    requires
        first.size() == second.size(),
        samples_field(first, first_x, first_z, field),
        samples_field(second, second_x, second_z, field),
        0 <= world_x - first_x < first.size(),
        0 <= world_z - first_z < first.size(),
        0 <= world_x - second_x < second.size(),
        0 <= world_z - second_z < second.size(),
    ensures
        generated_block(
            first,
            Cell { x: world_x - first_x, y, z: world_z - first_z },
            before,
        ) == generated_block(
            second,
            Cell { x: world_x - second_x, y, z: world_z - second_z },
            before,
        ),
{
    assert(first.column(world_x - first_x, world_z - first_z) == field(world_x, world_z));
    assert(second.column(world_x - second_x, world_z - second_z) == field(world_x, world_z));
}

/// Cuts a sampled height to the heights that a grid of edge `size` allows.
pub fn clamp_height(raw_height: i64, size: usize) -> (height: usize)
    requires
        2 <= size <= isize::MAX,
    ensures
        height == column_height(raw_height as int, size as int),
        1 <= height < size,
{
    if raw_height < 1 {
        1
    } else if raw_height as u64 > (size - 1) as u64 {
        size - 1
    } else {
        raw_height as usize
    }
}

/// Whether layer `y` of a column of the given height belongs to the dirt
/// cover: `y + dirt_thickness >= height`.
fn in_dirt_cover(y: usize, dirt_thickness: u64, height: usize) -> (covered: bool)
    requires
        y < height,
    ensures
        covered == (y + dirt_thickness >= height),
{
    dirt_thickness >= (height - y) as u64
}

/// Fills the grid with terrain: in each column, ground up to the column's
/// height and water from there up to the sea level. Cells above both stay as
/// they are.
pub fn terrain_gen(samples: &TerrainSamples, map: &mut VoxelGrid)
    requires
        old(map).wf(),
        samples.wf(),
        samples.size() == old(map).size(),
        old(map).size() >= 2,
    ensures
        final(map).wf(),
        is_terrain_of(final(map)@, samples, old(map)@),
{
    let size = map.edge();
    proof {
        map.lemma_size_fits();
        crate::grid::lemma_edge_is_small(size);
    }
    let mut block_x: usize = 0;
    while block_x < size
        invariant
            map.wf(),
            samples.wf(),
            size == map.size(),
            size == old(map).size(),
            size == samples.size(),
            2 <= size < isize::MAX,
            block_x <= size,
            forall|c: Cell|
                map.in_bounds(c) ==> #[trigger] map.block_at(c) == (if c.x < block_x {
                    generated_block(samples, c, old(map).block_at(c))
                } else {
                    old(map).block_at(c)
                }),
        decreases size - block_x,
    {
        let mut block_z: usize = 0;
        while block_z < size
            invariant
                map.wf(),
                samples.wf(),
                size == map.size(),
                size == old(map).size(),
                size == samples.size(),
                2 <= size < isize::MAX,
                block_x < size,
                block_z <= size,
                forall|c: Cell|
                    map.in_bounds(c) ==> #[trigger] map.block_at(c) == (if c.x < block_x || (c.x
                        == block_x && c.z < block_z) {
                        generated_block(samples, c, old(map).block_at(c))
                    } else {
                        old(map).block_at(c)
                    }),
            decreases size - block_z,
        {
            let sample = samples.get(block_x, block_z);
            let height = clamp_height(sample.raw_height, size);
            let mut y: usize = 0;
            while y < height
                invariant
                    map.wf(),
                    samples.wf(),
                    size == map.size(),
                    size == old(map).size(),
                    size == samples.size(),
                    2 <= size < isize::MAX,
                    block_x < size,
                    block_z < size,
                    sample == samples.column(block_x as int, block_z as int),
                    height == column_height(sample.raw_height as int, size as int),
                    1 <= height < size,
                    y <= height,
                    forall|c: Cell|
                        map.in_bounds(c) ==> #[trigger] map.block_at(c) == (if c.x < block_x || (c.x
                            == block_x && c.z < block_z) || (c.x == block_x && c.z == block_z
                            && c.y < y) {
                            generated_block(samples, c, old(map).block_at(c))
                        } else {
                            old(map).block_at(c)
                        }),
                decreases height - y,
            {
                let mut blocktype = BlockType::BlockStone;
                if height <= DIRT_MAX_HEIGHT && in_dirt_cover(y, sample.dirt_thickness, height) {
                    if y + 2 < height {
                        blocktype = BlockType::BlockDirt;
                    } else {
                        blocktype = BlockType::BlockGrass;
                    }
                }
                map.set(block_x, y, block_z, Block { blocktype });
                y += 1;
            }
            let water_height = if WATER_LEVEL < size {
                WATER_LEVEL
            } else {
                size
            };
            while y < water_height
                invariant
                    map.wf(),
                    samples.wf(),
                    size == map.size(),
                    size == old(map).size(),
                    size == samples.size(),
                    2 <= size < isize::MAX,
                    block_x < size,
                    block_z < size,
                    sample == samples.column(block_x as int, block_z as int),
                    height == column_height(sample.raw_height as int, size as int),
                    1 <= height < size,
                    height <= y,
                    water_height <= size,
                    water_height <= WATER_LEVEL,
                    water_height == size || water_height == WATER_LEVEL,
                    forall|c: Cell|
                        map.in_bounds(c) ==> #[trigger] map.block_at(c) == (if c.x < block_x || (c.x
                            == block_x && c.z < block_z) || (c.x == block_x && c.z == block_z
                            && c.y < y) {
                            generated_block(samples, c, old(map).block_at(c))
                        } else {
                            old(map).block_at(c)
                        }),
                decreases water_height - y,
            {
                map.set(block_x, y, block_z, Block { blocktype: BlockType::BlockWater });
                y += 1;
            }
            block_z += 1;
        }
        block_x += 1;
    }
}

} // verus!

//! The cubic block grid of one chunk, stored as one flat vector.

use crate::block::Block;
use crate::block::BlockType;
use crate::vector::Cell;
use vstd::prelude::*;

verus! {

/// The number of cells of a cubic grid with edge `size`.
pub open spec fn cube(size: int) -> int {
    size * size * size
}

/// The place of a cell in the flat storage of a grid with edge `size`.
pub open spec fn cell_index(size: int, c: Cell) -> int {
    c.x * size * size + c.y * size + c.z
}

/// The cells of a grid have their places inside the storage.
pub proof fn lemma_cell_index_bounds(size: int, c: Cell)
    requires
        c.within(size),
    ensures
        0 <= cell_index(size, c) < cube(size),
        0 <= c.x * size <= c.x * size + c.y < size * size,
        (c.x * size + c.y) * size == c.x * size * size + c.y * size,
{
    assert(0 <= c.x * size && c.x * size + size <= size * size) by (nonlinear_arith)
        requires
            0 <= c.x < size,
    ;
    let row = c.x * size + c.y;
    assert(0 <= row * size && row * size + size <= size * size * size
        && row * size == c.x * size * size + c.y * size) by (nonlinear_arith)
        requires
            0 <= row < size * size,
            0 < size,
            row == c.x * size + c.y,
    ;
}

/// Two cells of a grid that share a place are the same cell.
pub proof fn lemma_cell_index_injective(size: int, a: Cell, b: Cell)
    requires
        a.within(size),
        b.within(size),
        cell_index(size, a) == cell_index(size, b),
    ensures
        a == b,
{
    lemma_cell_index_bounds(size, a);
    lemma_cell_index_bounds(size, b);
    let ra = a.x * size + a.y;
    let rb = b.x * size + b.y;
    assert(ra == rb && a.z == b.z) by (nonlinear_arith)
        requires
            ra * size + a.z == rb * size + b.z,
            0 <= a.z < size,
            0 <= b.z < size,
    ;
    assert(a.x == b.x && a.y == b.y) by (nonlinear_arith)
        requires
            a.x * size + a.y == b.x * size + b.y,
            0 <= a.y < size,
            0 <= b.y < size,
    ;
}

/// A grid's edge is far below the largest `isize`, since its cube fits in a
/// `usize`.
pub proof fn lemma_edge_is_small(size: usize)
    requires
        cube(size as int) <= usize::MAX,
    ensures
        size < isize::MAX,
        size * size <= usize::MAX,
{
    assert(size * size <= size * size * size) by (nonlinear_arith)
        requires
            size >= 0,
    ;
    if size >= 4 {
        assert(size * size * size >= 16 * size) by (nonlinear_arith)
            requires
                size >= 4,
        ;
    }
}

/// Computes the place of a cell in the flat storage.
pub fn linear_index(size: usize, x: usize, y: usize, z: usize) -> (i: usize)
    requires
        cube(size as int) <= usize::MAX,
        x < size,
        y < size,
        z < size,
    ensures
        i == cell_index(size as int, Cell { x: x as int, y: y as int, z: z as int }),
        i < cube(size as int),
{
    proof {
        lemma_cell_index_bounds(size as int, Cell { x: x as int, y: y as int, z: z as int });
        lemma_edge_is_small(size);
    }
    (x * size + y) * size + z
}

/// Every place of the storage belongs to a cell of the grid.
pub proof fn lemma_cell_index_onto(size: int, i: int) -> (c: Cell)
    requires
        0 <= i < cube(size),
    ensures
        c.within(size),
        cell_index(size, c) == i,
{
    assert(size > 0) by (nonlinear_arith)
        requires
            0 <= i < size * size * size,
    ;
    let row = i / size;
    let c = Cell { x: row / size, y: row % size, z: i % size };
    assert(i == size * row + c.z && 0 <= c.z < size) by {
        vstd::arithmetic::div_mod::lemma_fundamental_div_mod(i, size);
        vstd::arithmetic::div_mod::lemma_mod_bound(i, size);
    }
    assert(0 <= row < size * size) by (nonlinear_arith)
        requires
            i == size * row + c.z,
            0 <= c.z < size,
            0 <= i < size * size * size,
            size > 0,
    ;
    assert(row == size * c.x + c.y && 0 <= c.y < size) by {
        vstd::arithmetic::div_mod::lemma_fundamental_div_mod(row, size);
        vstd::arithmetic::div_mod::lemma_mod_bound(row, size);
    }
    assert(0 <= c.x < size) by (nonlinear_arith)
        requires
            row == size * c.x + c.y,
            0 <= c.y < size,
            0 <= row < size * size,
            size > 0,
    ;
    assert(c.x * size * size + c.y * size + c.z == i) by (nonlinear_arith)
        requires
            row == size * c.x + c.y,
            i == size * row + c.z,
    ;
    c
}

/// The blocks of a cubic grid: what a `VoxelGrid` holds, as a value.
#[verifier::ext_equal]
pub struct Grid {
    pub size: int,
    pub blocks: Seq<Block>,
}

impl Grid {
    /// There is exactly one block for each cell.
    pub open spec fn wf(self) -> bool {
        &&& self.size >= 0
        &&& self.blocks.len() == cube(self.size)
    }

    /// Whether `c` is a cell of the grid.
    pub open spec fn in_bounds(self, c: Cell) -> bool {
        c.within(self.size)
    }

    /// The block in cell `c`, for a cell of the grid.
    pub open spec fn block_at(self, c: Cell) -> Block {
        self.blocks[cell_index(self.size, c)]
    }

    /// The block in cell `c`, or nothing where the grid has no such cell.
    pub open spec fn lookup(self, c: Cell) -> Option<Block> {
        if self.in_bounds(c) {
            Some(self.block_at(c))
        } else {
            None
        }
    }

    /// Whether every cell holds air.
    pub open spec fn is_empty(self) -> bool {
        forall|c: Cell|
            self.in_bounds(c) ==> (#[trigger] self.block_at(c)).blocktype == BlockType::BlockAir
    }
}

/// Two grids of one size that hold the same block in every cell are the same
/// grid.
pub proof fn lemma_grids_equal(first: Grid, second: Grid)
    requires
        first.wf(),
        second.wf(),
        first.size == second.size,
        forall|c: Cell| first.in_bounds(c) ==> first.block_at(c) == second.block_at(c),
    ensures
        first == second,
{
    assert forall|i: int| 0 <= i < first.blocks.len() implies first.blocks[i]
        == second.blocks[i] by {
        let c = lemma_cell_index_onto(first.size, i);
        assert(first.block_at(c) == second.block_at(c));
    }
    assert(first.blocks =~= second.blocks);
}

/// The block grid of one chunk: `size` cells along each of the three axes.
pub struct VoxelGrid {
    size: usize,
    blocks: Vec<Block>,
}

impl View for VoxelGrid {
    type V = Grid;

    closed spec fn view(&self) -> Grid {
        Grid { size: self.size as int, blocks: self.blocks@ }
    }
}

impl VoxelGrid {
    /// The edge length of the grid.
    #[verifier::inline]
    pub open spec fn size(&self) -> int {
        self@.size
    }

    /// The storage holds exactly one block for each cell, and the cells can
    /// be counted in a `usize`.
    pub open spec fn wf(&self) -> bool {
        &&& self@.wf()
        &&& cube(self@.size) <= usize::MAX
    }

    /// Whether `c` is a cell of this grid.
    #[verifier::inline]
    pub open spec fn in_bounds(&self, c: Cell) -> bool {
        self@.in_bounds(c)
    }

    /// The block in cell `c`, for a cell of this grid.
    #[verifier::inline]
    pub open spec fn block_at(&self, c: Cell) -> Block {
        self@.block_at(c)
    }

    /// The block in cell `c`, or nothing where the grid has no such cell.
    #[verifier::inline]
    pub open spec fn lookup(&self, c: Cell) -> Option<Block> {
        self@.lookup(c)
    }

    /// Whether every cell holds air.
    #[verifier::inline]
    pub open spec fn is_empty(&self) -> bool {
        self@.is_empty()
    }

    /// A grid's edge times itself three times fits in a `usize`.
    pub proof fn lemma_size_fits(&self)
        requires
            self.wf(),
        ensures
            0 <= self.size() <= usize::MAX,
            cube(self.size()) <= usize::MAX,
    {
    }

    /// A grid of the given edge length in which every cell holds air.
    pub fn new(size: usize) -> (grid: VoxelGrid)
        requires
            cube(size as int) <= usize::MAX,
        ensures
            grid.wf(),
            grid.size() == size,
            grid.is_empty(),
    {
        proof {
            lemma_edge_is_small(size);
        }
        let total = size * size * size;
        let mut blocks: Vec<Block> = Vec::new();
        let mut i: usize = 0;
        while i < total
            invariant
                i <= total,
                blocks@.len() == i,
                forall|j: int| 0 <= j < i ==> (#[trigger] blocks@[j]).blocktype == BlockType::BlockAir,
            decreases total - i,
        {
            blocks.push(Block { blocktype: BlockType::BlockAir });
            i += 1;
        }
        let grid = VoxelGrid { size, blocks };
        proof {
            assert forall|c: Cell| grid@.in_bounds(c) implies (#[trigger] grid@.block_at(
                c,
            )).blocktype == BlockType::BlockAir by {
                lemma_cell_index_bounds(size as int, c);
            }
        }
        grid
    }

    /// The edge length of the grid.
    pub fn edge(&self) -> (size: usize)
        ensures
            size == self.size(),
    {
        self.size
    }

    /// The block at the given coordinates, or `None` where a coordinate is
    /// negative or not below the edge length.
    pub fn index(&self, x: isize, y: isize, z: isize) -> (found: Option<&Block>)
        requires
            self.wf(),
        ensures
            match found {
                Some(block) => Some(*block),
                None => None,
            } == self.lookup(Cell { x: x as int, y: y as int, z: z as int }),
    {
        if x < 0 || y < 0 || z < 0 {
            return None;
        }
        let (ux, uy, uz) = (x as usize, y as usize, z as usize);
        if ux >= self.size || uy >= self.size || uz >= self.size {
            None
        } else {
            let i = linear_index(self.size, ux, uy, uz);
            Some(&self.blocks[i])
        }
    }

    /// The block in a cell of the grid.
    pub fn get(&self, x: usize, y: usize, z: usize) -> (block: Block)
        requires
            self.wf(),
            self.in_bounds(Cell { x: x as int, y: y as int, z: z as int }),
        ensures
            block == self.block_at(Cell { x: x as int, y: y as int, z: z as int }),
    {
        let i = linear_index(self.size, x, y, z);
        self.blocks[i]
    }

    /// Puts `block` into a cell of the grid and leaves every other cell as it
    /// was.
    pub fn set(&mut self, x: usize, y: usize, z: usize, block: Block)
        requires
            old(self).wf(),
            old(self).in_bounds(Cell { x: x as int, y: y as int, z: z as int }),
        ensures
            final(self).wf(),
            final(self).size() == old(self).size(),
            final(self).block_at(Cell { x: x as int, y: y as int, z: z as int }) == block,
            forall|c: Cell|
                old(self).in_bounds(c) && c != (Cell { x: x as int, y: y as int, z: z as int })
                    ==> #[trigger] final(self).block_at(c) == old(self).block_at(c),
    {
        let i = linear_index(self.size, x, y, z);
        self.blocks.set(i, block);
        proof {
            let here = Cell { x: x as int, y: y as int, z: z as int };
            assert forall|c: Cell| old(self).in_bounds(c) && c != here implies #[trigger] self.block_at(
                c,
            ) == old(self).block_at(c) by {
                lemma_cell_index_bounds(self.size as int, c);
                if cell_index(self.size as int, c) == cell_index(self.size as int, here) {
                    lemma_cell_index_injective(self.size as int, c, here);
                }
            }
        }
    }
}

} // verus!

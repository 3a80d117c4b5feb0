//! A set of grid cells, kept as a bit set over the cells' places in the flat
//! storage order of the grid.

use crate::grid::cell_index;
use crate::grid::cube;
use crate::grid::lemma_cell_index_bounds;
use crate::grid::lemma_cell_index_injective;
use crate::grid::linear_index;
use crate::vector::Cell;
use crate::CHUNK_SIZE;
use bit_set::BitSet;
use vstd::prelude::*;

verus! {

/// A set of numbers held in a `bit_set::BitSet`.
#[verifier::external_body]
pub struct CellBits {
    bits: BitSet,
}

/// The numbers that a bit set holds.
pub uninterp spec fn bitset_members(s: CellBits) -> Set<usize>;

/// `BitSet::new`: a set that holds nothing.
#[verifier::external_body]
fn bitset_new() -> (s: CellBits)
    ensures
        bitset_members(s) == Set::<usize>::empty(),
{
    CellBits { bits: BitSet::new() }
}

/// `BitSet::contains`: whether `value` is in the set.
#[verifier::external_body]
fn bitset_contains(s: &CellBits, value: usize) -> (present: bool)
    ensures
        present == bitset_members(*s).contains(value),
{
    s.bits.contains(value)
}

/// `BitSet::insert`: adds `value` and leaves the other members as they are;
/// returns whether `value` was absent before. The set grows to `value + 1`
/// bits, a number that has to fit in a `usize`.
#[verifier::external_body]
fn bitset_insert(s: &mut CellBits, value: usize) -> (fresh: bool)
    requires
        value < usize::MAX,
    ensures
        bitset_members(*final(s)) == bitset_members(*old(s)).insert(value),
        fresh == !bitset_members(*old(s)).contains(value),
{
    s.bits.insert(value)
}

/// `BitSet::remove`: takes `value` out and leaves the other members as they
/// are; returns whether `value` was present before.
#[verifier::external_body]
fn bitset_remove(s: &mut CellBits, value: usize) -> (present: bool)
    ensures
        bitset_members(*final(s)) == bitset_members(*old(s)).remove(value),
        present == bitset_members(*old(s)).contains(value),
{
    s.bits.remove(value)
}

/// A set of cells of a cubic grid.
pub struct BlockBitmap {
    size: usize,
    set: CellBits,
}

impl View for BlockBitmap {
    type V = Set<Cell>;

    /// The cells that the bitmap holds.
    open spec fn view(&self) -> Set<Cell> {
        Set::new(|c: Cell| self.has(c))
    }
}

impl BlockBitmap {
    /// The edge length of the grid whose cells the bitmap can hold.
    pub closed spec fn size(&self) -> int {
        self.size as int
    }

    /// The grid is small enough for every cell to have a place.
    pub closed spec fn wf(&self) -> bool {
        cube(self.size as int) <= usize::MAX
    }

    /// Whether the bitmap holds the cell `c`. It holds cells of its grid only.
    pub closed spec fn has(&self, c: Cell) -> bool {
        c.within(self.size as int) && bitset_members(self.set).contains(
            cell_index(self.size as int, c) as usize,
        )
    }

    /// The edge length is that of a grid whose cells can be counted.
    pub proof fn lemma_size_fits(&self)
        ensures
            0 <= self.size() <= usize::MAX,
    {
    }

    /// An empty bitmap for a grid of edge `CHUNK_SIZE`.
    pub fn new() -> (bitmap: BlockBitmap)
        ensures
            bitmap.wf(),
            bitmap.size() == CHUNK_SIZE,
            bitmap@ == Set::<Cell>::empty(),
    {
        assert(cube(CHUNK_SIZE as int) == 32768) by (nonlinear_arith)
            requires
                CHUNK_SIZE == 32,
        ;
        Self::with_size(CHUNK_SIZE)
    }

    /// An empty bitmap for a grid of the given edge length.
    pub fn with_size(size: usize) -> (bitmap: BlockBitmap)
        requires
            cube(size as int) <= usize::MAX,
        ensures
            bitmap.wf(),
            bitmap.size() == size,
            bitmap@ == Set::<Cell>::empty(),
    {
        let bitmap = BlockBitmap { size, set: bitset_new() };
        assert(bitmap@ =~= Set::<Cell>::empty());
        bitmap
    }

    /// Whether the bitmap holds the cell at the given coordinates. A cell
    /// outside the grid is never held.
    pub fn contains(&self, x: usize, y: usize, z: usize) -> (held: bool)
        requires
            self.wf(),
        ensures
            held == self@.contains(Cell { x: x as int, y: y as int, z: z as int }),
            held ==> (Cell { x: x as int, y: y as int, z: z as int }).within(self.size()),
    {
        if x >= self.size || y >= self.size || z >= self.size {
            return false;
        }
        let i = linear_index(self.size, x, y, z);
        bitset_contains(&self.set, i)
    }

    /// Adds a cell of the grid to the bitmap.
    pub fn insert(&mut self, x: usize, y: usize, z: usize)
        requires
            old(self).wf(),
            (Cell { x: x as int, y: y as int, z: z as int }).within(old(self).size()),
        ensures
            final(self).wf(),
            final(self).size() == old(self).size(),
            final(self)@ == old(self)@.insert(Cell { x: x as int, y: y as int, z: z as int }),
    {
        let i = linear_index(self.size, x, y, z);
        let _ = bitset_insert(&mut self.set, i);
        proof {
            let here = Cell { x: x as int, y: y as int, z: z as int };
            assert forall|c: Cell| self.has(c) == (old(self).has(c) || c == here) by {
                self.lemma_other_place(c, here);
            }
            assert(self@ =~= old(self)@.insert(here));
        }
    }

    /// Takes a cell of the grid out of the bitmap.
    pub fn remove(&mut self, x: usize, y: usize, z: usize)
        requires
            old(self).wf(),
            (Cell { x: x as int, y: y as int, z: z as int }).within(old(self).size()),
        ensures
            final(self).wf(),
            final(self).size() == old(self).size(),
            final(self)@ == old(self)@.remove(Cell { x: x as int, y: y as int, z: z as int }),
    {
        let i = linear_index(self.size, x, y, z);
        let _ = bitset_remove(&mut self.set, i);
        proof {
            let here = Cell { x: x as int, y: y as int, z: z as int };
            assert forall|c: Cell| self.has(c) == (old(self).has(c) && c != here) by {
                self.lemma_other_place(c, here);
            }
            assert(self@ =~= old(self)@.remove(here));
        }
    }

    /// Two different cells of the grid have different places in the bit set.
    proof fn lemma_other_place(&self, c: Cell, here: Cell)
        requires
            self.wf(),
            here.within(self.size as int),
        ensures
            c.within(self.size as int) ==> 0 <= cell_index(self.size as int, c) < cube(
                self.size as int,
            ),
            0 <= cell_index(self.size as int, here) < cube(self.size as int),
            c.within(self.size as int) && c != here ==> cell_index(self.size as int, c)
                != cell_index(self.size as int, here),
    {
        lemma_cell_index_bounds(self.size as int, here);
        if c.within(self.size as int) {
            lemma_cell_index_bounds(self.size as int, c);
            if c != here && cell_index(self.size as int, c) == cell_index(self.size as int, here) {
                lemma_cell_index_injective(self.size as int, c, here);
            }
        }
    }
}

} // verus!

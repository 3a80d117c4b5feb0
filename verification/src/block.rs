//! Block types and single grid cells.

use vstd::prelude::*;

verus! {

/// The material of a block. Air is never drawn and never hides a neighbour.
#[derive(Clone, Copy, Debug, PartialEq, Eq, Structural)]
pub enum BlockType {
    BlockAir,
    BlockGrass,
    BlockStone,
    BlockDirt,
    BlockWater,
}

impl BlockType {
    /// The number under which a block type is handed to the renderer.
    pub open spec fn spec_id(self) -> u8 {
        match self {
            BlockType::BlockAir => 0,
            BlockType::BlockGrass => 1,
            BlockType::BlockStone => 2,
            BlockType::BlockDirt => 3,
            BlockType::BlockWater => 4,
        }
    }

    /// The number under which a block type is handed to the renderer.
    #[verifier::when_used_as_spec(spec_id)]
    pub fn id(self) -> (n: u8)
        ensures
            n == self.spec_id(),
    {
        match self {
            BlockType::BlockAir => 0,
            BlockType::BlockGrass => 1,
            BlockType::BlockStone => 2,
            BlockType::BlockDirt => 3,
            BlockType::BlockWater => 4,
        }
    }
}

/// One cell of a chunk's grid.
#[derive(Clone, Copy, Debug, PartialEq, Eq, Structural)]
pub struct Block {
    pub blocktype: BlockType,
}

impl Block {
    /// Whether the block is anything but air.
    pub open spec fn spec_is_opaque(&self) -> bool {
        self.blocktype != BlockType::BlockAir
    }

    /// Whether the block is solid, that is anything but air.
    #[verifier::when_used_as_spec(spec_is_opaque)]
    pub fn is_opaque(&self) -> (opaque: bool)
        ensures
            opaque == (self.blocktype != BlockType::BlockAir),
    {
        self.blocktype != BlockType::BlockAir
    }
}

} // verus!

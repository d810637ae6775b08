//! The block kinds of the client's chunk renderer and their face sprites.

use vstd::prelude::*;
use crate::client::sprites::BlockSprite;

verus! {

/// Block kinds known to the chunk renderer.
#[derive(Copy, Clone, PartialEq, Eq, Debug, Structural)]
pub enum BlockId {
    Air,
    Dirt,
    Grass,
    Cobble,
    Hoist,
}

/// Per-block metadata.
#[derive(Copy, Clone, PartialEq, Eq, Debug, Structural)]
pub struct BlockMeta {
    v: u32,
}

impl BlockMeta {
    /// The raw metadata bits.
    pub closed spec fn spec_v(self) -> u32 {
        self.v
    }
}

impl BlockId {
    /// The sprite of each face, in the order +x, -x, +z, -z, +y, -y.
    pub open spec fn spec_faces(self) -> Seq<BlockSprite> {
        match self {
            BlockId::Air => seq![BlockSprite::Empty; 6],
            BlockId::Dirt => seq![BlockSprite::Dirt; 6],
            BlockId::Grass => seq![
                BlockSprite::HalfGrass,
                BlockSprite::HalfGrass,
                BlockSprite::HalfGrass,
                BlockSprite::HalfGrass,
                BlockSprite::Grass,
                BlockSprite::Dirt,
            ],
            BlockId::Cobble => seq![BlockSprite::Cobblestone; 6],
            BlockId::Hoist => seq![BlockSprite::Wood; 6],
        }
    }

    /// The sprite of each face, in the order +x, -x, +z, -z, +y, -y.
    pub fn into_array_of_faces(self) -> (r: [BlockSprite; 6])
        ensures
            r@ == self.spec_faces(),
    {
        let r = match self {
            BlockId::Air => [BlockSprite::Empty; 6],
            BlockId::Dirt => [BlockSprite::Dirt; 6],
            BlockId::Grass => [
                BlockSprite::HalfGrass,
                BlockSprite::HalfGrass,
                BlockSprite::HalfGrass,
                BlockSprite::HalfGrass,
                BlockSprite::Grass,
                BlockSprite::Dirt,
            ],
            BlockId::Cobble => [BlockSprite::Cobblestone; 6],
            BlockId::Hoist => [BlockSprite::Wood; 6],
        };
        assert(r@ =~= self.spec_faces());
        r
    }
}

/// A rendered world cell: its kind, metadata and attached entity (0 when none).
#[derive(Copy, Clone, PartialEq, Eq, Debug, Structural)]
pub struct Block {
    pub block: BlockId,
    pub meta: BlockMeta,
    pub entity: u64,
}

impl Block {
    /// A fresh block of kind `block`.
    pub fn new(block: BlockId) -> (r: Block)
        ensures
            r.block == block,
            r.meta.spec_v() == 0,
            r.entity == 0,
    {
        Block { block, meta: BlockMeta { v: 0 }, entity: 0 }
    }

    /// Every kind but air is drawn.
    pub fn visible(&self) -> (r: bool)
        ensures
            r == (self.block != BlockId::Air),
    {
        match self.block {
            BlockId::Air => false,
            _ => true,
        }
    }

    /// Only air can be walked through.
    pub fn passable(&self) -> (r: bool)
        ensures
            r == (self.block == BlockId::Air),
    {
        match self.block {
            BlockId::Air => true,
            _ => false,
        }
    }
}

} // verus!

//! Block kinds, their properties, per-block metadata, and inventories.

use vstd::prelude::*;
use crate::array::Zeroed;
use crate::coords::DDD;

verus! {

/// The kinds of block a world cell can hold.
#[derive(Copy, Clone, PartialEq, Eq, Debug, Hash, Structural)]
pub enum BlockId {
    Air,
    Dirt,
    Grass,
    Cobble,
    Stair,
    LightEmitter,
    Chest,
    Iron,
    Furnace,
}

/// Properties shared by every kind of block.
pub trait BlockTrait {
    /// Whether the block is drawn as a solid cube and blocks light.
    fn visible(&self) -> (r: bool)
        default_ensures
            r == true,
    {
        true
    }

    /// Whether entities can move through the block.
    fn passable(&self) -> (r: bool)
        default_ensures
            r == false,
    {
        false
    }

    /// Whether placing the block attaches extra components to it.
    fn need_to_spawn_functors(&self) -> (r: bool)
        default_ensures
            r == false,
    {
        false
    }

    /// Whether the block's entity records where the block stands.
    fn need_reverse_location(&self) -> (r: bool)
        default_ensures
            r == false,
    {
        false
    }
}

/// Empty space.
pub struct Air;

/// Dirt.
pub struct Dirt;

/// Grass-topped dirt.
pub struct Grass;

/// Cobblestone.
pub struct Cobblestone;

/// Iron ore.
pub struct Iron;

/// A furnace.
pub struct Furnace;

/// A see-through light source.
pub struct LightEmitter;

/// A stair, drawn as a mesh.
pub struct Stair;

/// A chest with an inventory, drawn as a mesh.
pub struct Chest;

impl BlockTrait for Air {
    fn visible(&self) -> (r: bool)
        ensures
            r == false,
    {
        false
    }

    fn passable(&self) -> (r: bool)
        ensures
            r == true,
    {
        true
    }
}

impl BlockTrait for Dirt {

}

impl BlockTrait for Grass {

}

impl BlockTrait for Cobblestone {

}

impl BlockTrait for Iron {

}

impl BlockTrait for Furnace {

}

impl BlockTrait for LightEmitter {
    fn visible(&self) -> (r: bool)
        ensures
            r == false,
    {
        false
    }

    fn passable(&self) -> (r: bool)
        ensures
            r == true,
    {
        true
    }
}

impl BlockTrait for Stair {
    fn visible(&self) -> (r: bool)
        ensures
            r == false,
    {
        false
    }
}

impl BlockTrait for Chest {
    fn visible(&self) -> (r: bool)
        ensures
            r == false,
    {
        false
    }

    fn need_to_spawn_functors(&self) -> (r: bool)
        ensures
            r == true,
    {
        true
    }

    fn need_reverse_location(&self) -> (r: bool)
        ensures
            r == true,
    {
        true
    }
}

impl BlockId {
    /// Whether blocks of this kind are solid cubes that block light.
    pub open spec fn spec_visible(self) -> bool {
        match self {
            BlockId::Air | BlockId::LightEmitter | BlockId::Stair | BlockId::Chest => false,
            _ => true,
        }
    }

    /// Whether entities can move through blocks of this kind.
    pub open spec fn spec_passable(self) -> bool {
        match self {
            BlockId::Air | BlockId::LightEmitter => true,
            _ => false,
        }
    }

    /// Whether placing a block of this kind attaches extra components.
    pub open spec fn spec_need_to_spawn_functors(self) -> bool {
        self == BlockId::Chest
    }

    /// Whether blocks of this kind record their location on their entity.
    pub open spec fn spec_need_reverse_location(self) -> bool {
        self == BlockId::Chest
    }

    /// Whether blocks of this kind are solid cubes that block light.
    pub fn visible(&self) -> (r: bool)
        ensures
            r == self.spec_visible(),
    {
        match self {
            BlockId::Air => Air.visible(),
            BlockId::Dirt => Dirt.visible(),
            BlockId::Grass => Grass.visible(),
            BlockId::Cobble => Cobblestone.visible(),
            BlockId::Stair => Stair.visible(),
            BlockId::LightEmitter => LightEmitter.visible(),
            BlockId::Chest => Chest.visible(),
            BlockId::Iron => Iron.visible(),
            BlockId::Furnace => Furnace.visible(),
        }
    }

    /// Whether entities can move through blocks of this kind.
    pub fn passable(&self) -> (r: bool)
        ensures
            r == self.spec_passable(),
    {
        match self {
            BlockId::Air => Air.passable(),
            BlockId::Dirt => Dirt.passable(),
            BlockId::Grass => Grass.passable(),
            BlockId::Cobble => Cobblestone.passable(),
            BlockId::Stair => Stair.passable(),
            BlockId::LightEmitter => LightEmitter.passable(),
            BlockId::Chest => Chest.passable(),
            BlockId::Iron => Iron.passable(),
            BlockId::Furnace => Furnace.passable(),
        }
    }

    /// Whether placing a block of this kind attaches extra components.
    pub fn need_to_spawn_functors(&self) -> (r: bool)
        ensures
            r == self.spec_need_to_spawn_functors(),
            r <==> *self == BlockId::Chest,
    {
        match self {
            BlockId::Air => Air.need_to_spawn_functors(),
            BlockId::Dirt => Dirt.need_to_spawn_functors(),
            BlockId::Grass => Grass.need_to_spawn_functors(),
            BlockId::Cobble => Cobblestone.need_to_spawn_functors(),
            BlockId::Stair => Stair.need_to_spawn_functors(),
            BlockId::LightEmitter => LightEmitter.need_to_spawn_functors(),
            BlockId::Chest => Chest.need_to_spawn_functors(),
            BlockId::Iron => Iron.need_to_spawn_functors(),
            BlockId::Furnace => Furnace.need_to_spawn_functors(),
        }
    }

    /// Whether blocks of this kind record their location on their entity.
    pub fn need_reverse_location(&self) -> (r: bool)
        ensures
            r == self.spec_need_reverse_location(),
    {
        match self {
            BlockId::Air => Air.need_reverse_location(),
            BlockId::Dirt => Dirt.need_reverse_location(),
            BlockId::Grass => Grass.need_reverse_location(),
            BlockId::Cobble => Cobblestone.need_reverse_location(),
            BlockId::Stair => Stair.need_reverse_location(),
            BlockId::LightEmitter => LightEmitter.need_reverse_location(),
            BlockId::Chest => Chest.need_reverse_location(),
            BlockId::Iron => Iron.need_reverse_location(),
            BlockId::Furnace => Furnace.need_reverse_location(),
        }
    }

    /// A fresh block of this kind: default metadata and no entity.
    pub fn into_block(self) -> (r: Block)
        ensures
            r == Block::spec_new(self),
    {
        Block::new(self)
    }
}

impl Zeroed for BlockId {
    open spec fn spec_zeroed() -> BlockId {
        BlockId::Air
    }

    fn zeroed() -> (r: BlockId) {
        BlockId::Air
    }
}

/// The four horizontal facings of a block.
#[derive(Copy, Clone, PartialEq, Eq, Debug, Structural)]
pub enum BlockRotation {
    NORTH,
    EAST,
    SOUTH,
    WEST,
}

impl BlockRotation {
    /// The two-bit code of the facing: 0 north, 1 east, 2 south, 3 west.
    pub open spec fn spec_code(self) -> u32 {
        match self {
            BlockRotation::NORTH => 0,
            BlockRotation::EAST => 1,
            BlockRotation::SOUTH => 2,
            BlockRotation::WEST => 3,
        }
    }

    /// The two-bit code of the facing.
    pub fn code(self) -> (r: u32)
        ensures
            r == self.spec_code(),
    {
        match self {
            BlockRotation::NORTH => 0,
            BlockRotation::EAST => 1,
            BlockRotation::SOUTH => 2,
            BlockRotation::WEST => 3,
        }
    }
}

/// Per-block metadata; the two low bits hold the facing.
#[derive(Copy, Clone, PartialEq, Eq, Debug, Structural)]
pub struct BlockMeta {
    pub v: u32,
}

impl BlockMeta {
    /// The facing stored in the two low bits.
    pub open spec fn spec_rotation(self) -> BlockRotation {
        let k = self.v % 4;
        if k == 0 {
            BlockRotation::NORTH
        } else if k == 1 {
            BlockRotation::EAST
        } else if k == 2 {
            BlockRotation::SOUTH
        } else {
            BlockRotation::WEST
        }
    }

    /// The facing stored in the two low bits.
    pub fn get_rotation(self) -> (r: BlockRotation)
        ensures
            r == self.spec_rotation(),
            r.spec_code() == self.v % 4,
    {
        let k = self.v % 4;
        if k == 0 {
            BlockRotation::NORTH
        } else if k == 1 {
            BlockRotation::EAST
        } else if k == 2 {
            BlockRotation::SOUTH
        } else {
            BlockRotation::WEST
        }
    }

    /// Stores `rotation` in the two low bits, keeping every other bit.
    pub fn set_rotation(&mut self, rotation: BlockRotation)
        ensures
            final(self).v % 4 == rotation.spec_code(),
            final(self).v / 4 == old(self).v / 4,
    {
        let v = self.v;
        let c = rotation.code();
        let r = (v ^ (v & 3u32)) | c;
        assert(r % 4 == c && r / 4 == v / 4) by (bit_vector)
            requires
                r == (v ^ (v & 3u32)) | c,
                c < 4,
        ;
        self.v = r;
    }
}

/// Of all block kinds only the chest gets components when placed: for a
/// stair, dirt or any other kind nothing is attached.
pub proof fn lemma_only_chests_spawn_functors(kind: BlockId)
    ensures
        kind.spec_need_to_spawn_functors() <==> kind == BlockId::Chest,
        kind == BlockId::Stair ==> !kind.spec_need_to_spawn_functors(),
{
}

/// Reading the facing back after setting it gives the facing that was set, and
/// the other metadata bits are kept.
pub proof fn lemma_rotation_roundtrip(before: BlockMeta, after: BlockMeta, rotation: BlockRotation)
    requires
        after.v % 4 == rotation.spec_code(),
        after.v / 4 == before.v / 4,
    ensures
        after.spec_rotation() == rotation,
        after.v / 4 == before.v / 4,
{
}

/// A world cell: its kind, metadata and the id of the entity attached to it
/// (0 when none is).
#[derive(Copy, Clone, PartialEq, Eq, Debug, Structural)]
pub struct Block {
    pub block: BlockId,
    pub meta: BlockMeta,
    pub entity: u64,
}

/// What travels over the network for a block: its kind and metadata.
#[derive(Copy, Clone, PartialEq, Eq, Debug, Structural)]
pub struct BlockTransfer {
    pub block: BlockId,
    pub meta: BlockMeta,
}

impl Block {
    /// A fresh block of kind `block`: metadata 0 and no entity.
    pub open spec fn spec_new(block: BlockId) -> Block {
        Block { block, meta: BlockMeta { v: 0 }, entity: 0 }
    }

    /// A fresh block of kind `block`: metadata 0 and no entity.
    pub fn new(block: BlockId) -> (r: Block)
        ensures
            r == Block::spec_new(block),
    {
        Block { block, meta: BlockMeta { v: 0 }, entity: 0 }
    }

    /// Whether the block is a solid cube that blocks light.
    pub fn visible(&self) -> (r: bool)
        ensures
            r == self.block.spec_visible(),
    {
        self.block.visible()
    }

    /// Whether entities can move through the block.
    pub fn passable(&self) -> (r: bool)
        ensures
            r == self.block.spec_passable(),
    {
        self.block.passable()
    }

    /// Whether placing the block attaches extra components.
    pub fn need_to_spawn_functors(&self) -> (r: bool)
        ensures
            r == self.block.spec_need_to_spawn_functors(),
    {
        self.block.need_to_spawn_functors()
    }

    /// Whether the block records its location on its entity.
    pub fn need_reverse_location(&self) -> (r: bool)
        ensures
            r == self.block.spec_need_reverse_location(),
    {
        self.block.need_reverse_location()
    }

    /// The network form of the block: kind and metadata.
    pub fn into_transfer(self) -> (r: BlockTransfer)
        ensures
            r.block == self.block,
            r.meta == self.meta,
    {
        BlockTransfer { block: self.block, meta: self.meta }
    }

    /// A block received over the network, with no entity attached.
    pub fn from_transfer(block: BlockTransfer) -> (r: Block)
        ensures
            r.block == block.block,
            r.meta == block.meta,
            r.entity == 0,
    {
        Block { block: block.block, meta: block.meta, entity: 0 }
    }
}

impl Zeroed for Block {
    open spec fn spec_zeroed() -> Block {
        Block::spec_new(BlockId::Air)
    }

    fn zeroed() -> (r: Block) {
        Block::new(BlockId::Air)
    }
}

/// Kinds of item that are not blocks.
#[derive(Copy, Clone, PartialEq, Eq, Debug, Hash, Structural)]
pub enum ItemId {
    Iron,
}

/// Something an inventory slot can hold.
#[derive(Copy, Clone, PartialEq, Eq, Debug, Hash, Structural)]
pub enum BlockOrItem {
    Block(BlockId),
    Item(ItemId),
}

/// A stack of `quant` blocks or items.
#[derive(Copy, Clone, PartialEq, Eq, Debug, Structural)]
pub struct QuantifiedBlockOrItem {
    pub block_or_item: BlockOrItem,
    pub quant: u32,
}

/// Marks the entity of a block with the block's location in the world.
pub struct ReverseLocation(pub DDD);

/// The contents of a block's components, as sent to a client.
pub enum FunctorTransit {
    InternalInventory(Vec<QuantifiedBlockOrItem>),
}

/// The inventory of a block such as a chest.
pub struct InternalInventory {
    pub inventory: Vec<Option<QuantifiedBlockOrItem>>,
}

impl InternalInventory {
    /// The starting stack of slot `x`: five dirt in slot 2, five cobblestone elsewhere.
    pub open spec fn spec_starting_slot(x: int) -> Option<QuantifiedBlockOrItem> {
        if x == 2 {
            Some(QuantifiedBlockOrItem { block_or_item: BlockOrItem::Block(BlockId::Dirt), quant: 5 })
        } else {
            Some(QuantifiedBlockOrItem { block_or_item: BlockOrItem::Block(BlockId::Cobble), quant: 5 })
        }
    }

    /// An inventory of `len` slots, each holding its starting stack.
    pub fn with_capacity(len: usize) -> (r: InternalInventory)
        ensures
            r.inventory@.len() == len,
            forall|x: int| 0 <= x < len ==> #[trigger] r.inventory@[x] == Self::spec_starting_slot(x),
    {
        let mut inventory: Vec<Option<QuantifiedBlockOrItem>> = Vec::new();
        let mut x: usize = 0;
        while x < len
            invariant
                x <= len,
                inventory@.len() == x,
                forall|j: int| 0 <= j < x ==> #[trigger] inventory@[j] == Self::spec_starting_slot(j),
            decreases len - x,
        {
            if x == 2 {
                inventory.push(
                    Some(
                        QuantifiedBlockOrItem {
                            block_or_item: BlockOrItem::Block(BlockId::Dirt),
                            quant: 5,
                        },
                    ),
                );
            } else {
                inventory.push(
                    Some(
                        QuantifiedBlockOrItem {
                            block_or_item: BlockOrItem::Block(BlockId::Cobble),
                            quant: 5,
                        },
                    ),
                );
            }
            x = x + 1;
        }
        InternalInventory { inventory }
    }
}

impl BlockId {
    /// The components that a newly placed block of this kind attaches to its
    /// entity: a chest gets an inventory of ten slots with their starting
    /// stacks; the other kinds get none.
    pub fn spawn_functors(&self) -> (r: Option<InternalInventory>)
        ensures
            r is Some <==> self.spec_need_to_spawn_functors(),
            r is Some <==> *self == BlockId::Chest,
            r matches Some(inv) ==> inv.inventory@.len() == 10 && forall|x: int|
                0 <= x < 10 ==> #[trigger] inv.inventory@[x] == InternalInventory::spec_starting_slot(x),
    {
        if self.need_to_spawn_functors() {
            Some(InternalInventory::with_capacity(10))
        } else {
            None
        }
    }
}

} // verus!

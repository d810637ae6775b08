use shikataganai::blocks::{
    Air, Block, BlockId, BlockMeta, BlockOrItem, BlockRotation, BlockTrait, BlockTransfer, Chest,
    Cobblestone, Dirt, Furnace, Grass, InternalInventory, Iron, LightEmitter, QuantifiedBlockOrItem, Stair,
};
use shikataganai::light::LightLevel;

#[test]
fn block_kinds_visibility_and_passability() {
    assert!(!BlockId::Air.visible());
    assert!(BlockId::Air.passable());
    assert!(BlockId::Dirt.visible());
    assert!(!BlockId::Dirt.passable());
    assert!(!BlockId::Stair.visible());
    assert!(!BlockId::Stair.passable());
    assert!(!BlockId::LightEmitter.visible());
    assert!(BlockId::LightEmitter.passable());
    assert!(!BlockId::Chest.visible());
    assert!(BlockId::Chest.need_to_spawn_functors());
    assert!(BlockId::Chest.need_reverse_location());
    assert!(!BlockId::Furnace.need_to_spawn_functors());
    assert!(BlockId::Iron.visible());
}

#[test]
fn block_structs_follow_their_defaults() {
    assert!(!Air.visible());
    assert!(Air.passable());
    assert!(Dirt.visible() && Grass.visible() && Cobblestone.visible() && Iron.visible() && Furnace.visible());
    assert!(!Dirt.passable());
    assert!(!Stair.visible());
    assert!(!LightEmitter.visible() && LightEmitter.passable());
    assert!(!Chest.visible() && Chest.need_to_spawn_functors() && Chest.need_reverse_location());
    assert!(!Grass.need_reverse_location());
}

#[test]
fn rotation_is_kept_in_the_two_low_bits() {
    let mut m = BlockMeta { v: 0b1100 };
    assert_eq!(m.get_rotation(), BlockRotation::NORTH);
    m.set_rotation(BlockRotation::EAST);
    assert_eq!(m.v, 0b1101);
    assert_eq!(m.get_rotation(), BlockRotation::EAST);
    m.set_rotation(BlockRotation::WEST);
    assert_eq!(m.v, 0b1111);
    assert_eq!(m.get_rotation(), BlockRotation::WEST);
    m.set_rotation(BlockRotation::SOUTH);
    assert_eq!(m.v, 0b1110);
    assert_eq!(m.get_rotation(), BlockRotation::SOUTH);
}

#[test]
fn blocks_travel_without_their_entity() {
    let b = Block { block: BlockId::Chest, meta: BlockMeta { v: 3 }, entity: 99 };
    let t = b.into_transfer();
    assert_eq!(t, BlockTransfer { block: BlockId::Chest, meta: BlockMeta { v: 3 } });
    let back = Block::from_transfer(t);
    assert_eq!(back, Block { block: BlockId::Chest, meta: BlockMeta { v: 3 }, entity: 0 });
    assert_eq!(Block::new(BlockId::Grass), Block { block: BlockId::Grass, meta: BlockMeta { v: 0 }, entity: 0 });
    assert_eq!(BlockId::Dirt.into_block(), Block::new(BlockId::Dirt));
    assert!(Block::new(BlockId::Dirt).visible());
    assert!(!Block::new(BlockId::Air).visible());
}

#[test]
fn chest_inventory_starts_with_dirt_in_slot_two() {
    let inv = InternalInventory::with_capacity(4);
    assert_eq!(inv.inventory.len(), 4);
    let cobble = Some(QuantifiedBlockOrItem { block_or_item: BlockOrItem::Block(BlockId::Cobble), quant: 5 });
    let dirt = Some(QuantifiedBlockOrItem { block_or_item: BlockOrItem::Block(BlockId::Dirt), quant: 5 });
    assert_eq!(inv.inventory[0], cobble);
    assert_eq!(inv.inventory[1], cobble);
    assert_eq!(inv.inventory[2], dirt);
    assert_eq!(inv.inventory[3], cobble);
    assert_eq!(InternalInventory::with_capacity(0).inventory.len(), 0);
}

#[test]
fn light_levels_and_shader_bytes() {
    let l = LightLevel::new(7, 3, 1);
    assert_eq!(l.heaven, 7);
    assert_eq!(l.hearth, 3);
    assert_eq!(l.light_source, 1);
    assert_eq!(LightLevel::dark(), LightLevel::new(0, 0, 0));
    assert_eq!(l.write_into(), [3, 0, 0, 0, 7, 0, 0, 0]);
}

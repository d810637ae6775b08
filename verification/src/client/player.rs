//! The player's hot bar, inventory and movement restraint.

use vstd::prelude::*;
use crate::blocks::{BlockId, BlockOrItem, QuantifiedBlockOrItem};

verus! {

/// The selected hot bar slot.
pub struct SelectedHotBar(pub i32);

/// Whether the inventory has to be drawn again.
pub struct RerenderInventory(pub bool);

/// Whether the player's movement is held back this frame.
pub struct Restrain(pub bool);

/// The player's inventory slots.
pub struct PlayerInventory {
    pub items: Vec<Option<QuantifiedBlockOrItem>>,
}

impl Default for SelectedHotBar {
    /// Slot 0.
    fn default() -> (r: SelectedHotBar)
        ensures
            r.0 == 0,
    {
        SelectedHotBar(0)
    }
}

impl Default for RerenderInventory {
    /// Nothing to redraw.
    fn default() -> (r: RerenderInventory)
        ensures
            r.0 == false,
    {
        RerenderInventory(false)
    }
}

impl Restrain {
    /// Holds the player's movement back.
    pub fn restrain(&mut self)
        ensures
            final(self).0 == true,
    {
        self.0 = true;
    }
}

impl PlayerInventory {
    /// The starting inventory: a hundred stairs in the first of five slots.
    pub open spec fn spec_starting_items() -> Seq<Option<QuantifiedBlockOrItem>> {
        seq![
            Some(QuantifiedBlockOrItem { block_or_item: BlockOrItem::Block(BlockId::Stair), quant: 100 }),
            None,
            None,
            None,
            None,
        ]
    }
}

impl Default for PlayerInventory {
    /// The starting inventory: a hundred stairs in the first of five slots.
    fn default() -> (r: PlayerInventory)
        ensures
            r.items@ == PlayerInventory::spec_starting_items(),
    {
        let mut items: Vec<Option<QuantifiedBlockOrItem>> = Vec::new();
        items.push(
            Some(QuantifiedBlockOrItem { block_or_item: BlockOrItem::Block(BlockId::Stair), quant: 100 }),
        );
        items.push(None);
        items.push(None);
        items.push(None);
        items.push(None);
        assert(items@ =~= PlayerInventory::spec_starting_items());
        PlayerInventory { items }
    }
}

} // verus!

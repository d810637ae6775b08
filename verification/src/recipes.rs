//! Recipes that turn a pattern of blocks in the world into other blocks.

use vstd::prelude::*;
use crate::array::{Array, ArrayIndex};
use crate::blocks::{BlockId, ItemId};
use crate::coords::DDD;

verus! {

/// A recipe: blocks matching `from` are replaced by `to`, yielding `item` if any.
pub struct SimpleRecipe {
    pub from: Array<DDD, BlockId>,
    pub to: Array<DDD, BlockId>,
    pub item: Option<ItemId>,
}

/// The box of a two-by-two-by-two pattern.
pub open spec fn cube2() -> ((i32, i32, i32), (i32, i32, i32)) {
    ((0i32, 0i32, 0i32), (1i32, 1i32, 1i32))
}

/// The box of a one-wide, two-high pattern.
pub open spec fn column2() -> ((i32, i32, i32), (i32, i32, i32)) {
    ((0i32, 0i32, 0i32), (0i32, 1i32, 0i32))
}

/// The recipes that work in the world:
/// a 2x2x2 cube of cobblestone becomes a furnace in its first corner (air elsewhere);
/// iron on top of a furnace is smelted, leaving the furnace and yielding an iron item.
pub fn populate_in_world_recipes() -> (r: [SimpleRecipe; 2])
    ensures
        r[0].from.wf() && r[0].from.spec_bounds() == cube2(),
        r[0].to.wf() && r[0].to.spec_bounds() == cube2(),
        r[0].item is None,
        forall|c: DDD| DDD::spec_in_bounds(c, cube2()) ==> #[trigger] r[0].from.spec_at(c) == BlockId::Cobble,
        forall|c: DDD|
            DDD::spec_in_bounds(c, cube2()) ==> #[trigger] r[0].to.spec_at(c) == if c == (0i32, 0i32, 0i32) {
                BlockId::Furnace
            } else {
                BlockId::Air
            },
        r[1].from.wf() && r[1].from.spec_bounds() == column2(),
        r[1].to.wf() && r[1].to.spec_bounds() == column2(),
        r[1].item == Some(ItemId::Iron),
        forall|c: DDD|
            DDD::spec_in_bounds(c, column2()) ==> #[trigger] r[1].from.spec_at(c) == if c.1 == 0 {
                BlockId::Furnace
            } else {
                BlockId::Iron
            },
        forall|c: DDD|
            DDD::spec_in_bounds(c, column2()) ==> #[trigger] r[1].to.spec_at(c) == if c == (0i32, 0i32, 0i32) {
                BlockId::Furnace
            } else {
                BlockId::Air
            },
{
    proof {
        assert(crate::array::row_ddd(cube2()) == 2);
        assert(crate::array::slice_ddd(cube2()) == 2);
        assert(crate::array::depth_ddd(cube2()) == 2);
        assert(crate::array::row_ddd(column2()) == 1);
        assert(crate::array::slice_ddd(column2()) == 2);
        assert(crate::array::depth_ddd(column2()) == 1);
    }
    let cube = ((0, 0, 0), (1, 1, 1));
    let column = ((0, 0, 0), (0, 1, 0));
    let all_cobble = |c: DDD| -> (b: BlockId)
        ensures
            b == BlockId::Cobble,
        { BlockId::Cobble };
    let furnace_corner = |c: DDD| -> (b: BlockId)
        ensures
            b == if c == (0i32, 0i32, 0i32) {
                BlockId::Furnace
            } else {
                BlockId::Air
            },
        {
            if c.0 == 0 && c.1 == 0 && c.2 == 0 {
                BlockId::Furnace
            } else {
                BlockId::Air
            }
        };
    let iron_on_furnace = |c: DDD| -> (b: BlockId)
        ensures
            b == if c.1 == 0 {
                BlockId::Furnace
            } else {
                BlockId::Iron
            },
        {
            if c.1 == 0 {
                BlockId::Furnace
            } else {
                BlockId::Iron
            }
        };
    [
        SimpleRecipe {
            from: Array::new_init(cube, all_cobble),
            to: Array::new_init(cube, furnace_corner),
            item: None,
        },
        SimpleRecipe {
            from: Array::new_init(column, iron_on_furnace),
            to: Array::new_init(column, furnace_corner),
            item: Some(ItemId::Iron),
        },
    ]
}

} // verus!

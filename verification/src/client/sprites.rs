//! Cells of the block and user-interface sprite sheets.

use vstd::prelude::*;

verus! {

/// Number of sprites per row of the block sprite sheet.
pub const BLOCK_SPRITE_SHEET_WIDTH: usize = 8;

/// Number of sprites per row of the user-interface sprite sheet.
pub const UI_SPRITE_SHEET_WIDTH: usize = 4;

/// The sprites of the block sheet, in sheet order.
#[derive(Copy, Clone, PartialEq, Eq, Debug, Structural)]
pub enum BlockSprite {
    Empty,
    Dirt,
    HalfGrass,
    Grass,
    Cobblestone,
    Wood,
    Grid,
}

/// The sprites of the user-interface sheet, in sheet order.
#[derive(Copy, Clone, PartialEq, Eq, Debug, Hash, Structural)]
pub enum UiSprite {
    PushPull,
    HoistUnhoist,
    Delete,
    Empty,
    BlueSquare,
    RedSquare,
}

impl BlockSprite {
    /// Position of the sprite in the sheet.
    pub open spec fn spec_index(self) -> usize {
        match self {
            BlockSprite::Empty => 0,
            BlockSprite::Dirt => 1,
            BlockSprite::HalfGrass => 2,
            BlockSprite::Grass => 3,
            BlockSprite::Cobblestone => 4,
            BlockSprite::Wood => 5,
            BlockSprite::Grid => 6,
        }
    }

    /// Position of the sprite in the sheet.
    pub fn index(self) -> (r: usize)
        ensures
            r == self.spec_index(),
    {
        match self {
            BlockSprite::Empty => 0,
            BlockSprite::Dirt => 1,
            BlockSprite::HalfGrass => 2,
            BlockSprite::Grass => 3,
            BlockSprite::Cobblestone => 4,
            BlockSprite::Wood => 5,
            BlockSprite::Grid => 6,
        }
    }

    /// Column and row of the sprite's cell; its texture coordinates run from
    /// `(x, y) / 8` to `(x + 1, y + 1) / 8`.
    pub fn sheet_cell(self) -> (r: (usize, usize))
        ensures
            r.0 == self.spec_index() % BLOCK_SPRITE_SHEET_WIDTH,
            r.1 == self.spec_index() / BLOCK_SPRITE_SHEET_WIDTH,
            r.0 + BLOCK_SPRITE_SHEET_WIDTH * r.1 == self.spec_index(),
    {
        let i = self.index();
        (i % BLOCK_SPRITE_SHEET_WIDTH, i / BLOCK_SPRITE_SHEET_WIDTH)
    }
}

impl UiSprite {
    /// Position of the sprite in the sheet.
    pub open spec fn spec_index(self) -> usize {
        match self {
            UiSprite::PushPull => 0,
            UiSprite::HoistUnhoist => 1,
            UiSprite::Delete => 2,
            UiSprite::Empty => 3,
            UiSprite::BlueSquare => 4,
            UiSprite::RedSquare => 5,
        }
    }

    /// Position of the sprite in the sheet.
    pub fn index(self) -> (r: usize)
        ensures
            r == self.spec_index(),
    {
        match self {
            UiSprite::PushPull => 0,
            UiSprite::HoistUnhoist => 1,
            UiSprite::Delete => 2,
            UiSprite::Empty => 3,
            UiSprite::BlueSquare => 4,
            UiSprite::RedSquare => 5,
        }
    }

    /// Column and row of the sprite's cell; its texture coordinates run from
    /// `(x, y) / 4` to `(x + 1, y + 1) / 4`.
    pub fn sheet_cell(self) -> (r: (usize, usize))
        ensures
            r.0 == self.spec_index() % UI_SPRITE_SHEET_WIDTH,
            r.1 == self.spec_index() / UI_SPRITE_SHEET_WIDTH,
            r.0 + UI_SPRITE_SHEET_WIDTH * r.1 == self.spec_index(),
    {
        let i = self.index();
        (i % UI_SPRITE_SHEET_WIDTH, i / UI_SPRITE_SHEET_WIDTH)
    }
}

} // verus!

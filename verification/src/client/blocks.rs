//! How each block kind is drawn by the client.

use vstd::prelude::*;
use crate::blocks::BlockId;
use crate::client::sprites::BlockSprite;

verus! {

/// Meshes loaded from the game's model file.
#[derive(Copy, Clone, PartialEq, Eq, Debug, Hash, Structural)]
pub enum Meshes {
    TestModel,
    Stair,
}

/// How a block is drawn: not at all, as a cube with one sprite per face (in
/// the order +x, -x, +z, -z, +y, -y), or as a mesh.
#[derive(Copy, Clone)]
pub enum BlockRenderInfo {
    Nothing,
    AsBlock([BlockSprite; 6]),
    AsMesh(Meshes),
}

/// The face sprites of a cube, in the order +x, -x, +z, -z, +y, -y.
pub open spec fn cube_faces(id: BlockId) -> Seq<BlockSprite> {
    match id {
        BlockId::Dirt => seq![BlockSprite::Dirt; 6],
        BlockId::Grass => seq![
            BlockSprite::HalfGrass,
            BlockSprite::HalfGrass,
            BlockSprite::HalfGrass,
            BlockSprite::HalfGrass,
            BlockSprite::Grass,
            BlockSprite::Dirt,
        ],
        _ => seq![BlockSprite::Cobblestone; 6],
    }
}

/// How blocks of kind `id` are drawn: air and light emitters not at all,
/// stairs as the stair mesh, dirt, grass and cobblestone as cubes, and the
/// kinds the client does not draw yet (chest, iron, furnace) not at all.
pub fn render_info(id: BlockId) -> (r: BlockRenderInfo)
    ensures
        match id {
            BlockId::Air | BlockId::LightEmitter | BlockId::Chest | BlockId::Iron | BlockId::Furnace => r is Nothing,
            BlockId::Stair => r == BlockRenderInfo::AsMesh(Meshes::Stair),
            _ => r matches BlockRenderInfo::AsBlock(faces) && faces@ == cube_faces(id),
        },
{
    match id {
        BlockId::Dirt => {
            let f = [BlockSprite::Dirt; 6];
            assert(f@ =~= cube_faces(id));
            BlockRenderInfo::AsBlock(f)
        },
        BlockId::Grass => {
            let f = [
                BlockSprite::HalfGrass,
                BlockSprite::HalfGrass,
                BlockSprite::HalfGrass,
                BlockSprite::HalfGrass,
                BlockSprite::Grass,
                BlockSprite::Dirt,
            ];
            assert(f@ =~= cube_faces(id));
            BlockRenderInfo::AsBlock(f)
        },
        BlockId::Cobble => {
            let f = [BlockSprite::Cobblestone; 6];
            assert(f@ =~= cube_faces(id));
            BlockRenderInfo::AsBlock(f)
        },
        BlockId::Stair => BlockRenderInfo::AsMesh(Meshes::Stair),
        _ => BlockRenderInfo::Nothing,
    }
}

} // verus!

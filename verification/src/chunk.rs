//! Chunks: a box of blocks with their light levels, and terrain generation.

use vstd::prelude::*;
use crate::array::{Array, Array2d, Array3d, ArrayIndex, Bounds, steppable};
use crate::blocks::{Block, BlockId};
use crate::coords::{DD, DDD};
use crate::light::LightLevel;

verus! {

/// The highest block row that receives sky light when a chunk is built.
pub const CHUNK_MAX_HEIGHT: i32 = 127;

/// A box of blocks together with the light level of each cell.
pub struct Chunk {
    pub grid: Array3d<Block>,
    pub light_map: Array3d<LightLevel>,
}

/// Whether sky light reaches cell `c` of `grid`: `c` lies in rows
/// `0..=CHUNK_MAX_HEIGHT`, and no cell of its column from `c` up to that row
/// is a solid cube.
pub open spec fn sky_exposed(grid: Array3d<Block>, c: DDD) -> bool {
    &&& 0 <= c.1 <= CHUNK_MAX_HEIGHT
    &&& forall|y: i32|
        c.1 <= y <= CHUNK_MAX_HEIGHT ==> !(#[trigger] grid.spec_at((c.0, y, c.2))).block.spec_visible()
}

/// The initial light level of cell `c` of `grid`: full sky light where the sky
/// reaches, darkness elsewhere.
pub open spec fn initial_light(grid: Array3d<Block>, c: DDD) -> LightLevel {
    if sky_exposed(grid, c) {
        LightLevel::spec_new(16, 0, 0)
    } else {
        LightLevel::spec_new(0, 0, 0)
    }
}

proof fn lemma_exposed(grid: Array3d<Block>, c: DDD, iy: int)
    requires
        iy < c.1 <= CHUNK_MAX_HEIGHT,
        0 <= c.1,
        forall|y: i32| iy < y <= CHUNK_MAX_HEIGHT ==> !(#[trigger] grid.spec_at((c.0, y, c.2))).block.spec_visible(),
    ensures
        sky_exposed(grid, c),
{
}

proof fn lemma_blocked(grid: Array3d<Block>, c: DDD, y0: i32)
    requires
        c.1 <= y0 <= CHUNK_MAX_HEIGHT,
        grid.spec_at((c.0, y0, c.2)).block.spec_visible(),
    ensures
        !sky_exposed(grid, c),
{
}

impl Chunk {
    /// Both arrays are well formed and cover the same box.
    pub open spec fn wf(&self) -> bool {
        &&& self.grid.wf()
        &&& self.light_map.wf()
        &&& self.grid.spec_bounds() == self.light_map.spec_bounds()
    }

    /// The box of the chunk.
    pub open spec fn spec_bounds(&self) -> Bounds<DDD> {
        self.grid.spec_bounds()
    }

    /// Builds a chunk over `bounds` whose block at `c` has kind `block_f(c)`,
    /// with full sky light on every cell the sky reaches and darkness elsewhere.
    pub fn new<F: Fn(DDD) -> BlockId>(bounds: Bounds<DDD>, block_f: F) -> (r: Chunk)
        requires
            DDD::spec_valid(bounds),
            steppable(bounds),
            bounds.0.1 <= 0,
            CHUNK_MAX_HEIGHT <= bounds.1.1,
            forall|c: DDD| #[trigger] DDD::spec_in_bounds(c, bounds) ==> block_f.requires((c,)),
        ensures
            r.wf(),
            r.spec_bounds() == bounds,
            forall|c: DDD|
                #[trigger] DDD::spec_in_bounds(c, bounds) ==> {
                    &&& block_f.ensures((c,), r.grid.spec_at(c).block)
                    &&& r.grid.spec_at(c).meta.v == 0
                    &&& r.grid.spec_at(c).entity == 0
                    &&& r.light_map.spec_at(c) == initial_light(r.grid, c)
                },
    {
        let kind_of = &block_f;
        let make_block = |c: DDD| -> (b: Block)
            requires
                kind_of.requires((c,)),
            ensures
                kind_of.ensures((c,), b.block) && b == Block::spec_new(b.block),
            { Block::new(kind_of(c)) };
        let grid = Array::new_init(bounds, make_block);
        let mut light_map: Array3d<LightLevel> = Array::new_zeroed(bounds);
        proof {
            crate::array::lemma_all_idx_range(bounds);
            light_map.lemma_wf();
            assert forall|c: DDD| #[trigger] DDD::spec_in_bounds(c, bounds) implies light_map.spec_at(c)
                == LightLevel::spec_new(0, 0, 0) by {
                assert(light_map@[DDD::spec_idx(c, bounds)] == LightLevel::spec_new(0, 0, 0));
            }
        }
        let ghost dark = LightLevel::spec_new(0, 0, 0);
        let ghost lit = LightLevel::spec_new(16, 0, 0);
        let mut ix = bounds.0.0;
        loop
            invariant_except_break
                bounds.0.0 <= ix <= bounds.1.0,
                forall|c: DDD|
                    #[trigger] DDD::spec_in_bounds(c, bounds) ==> light_map.spec_at(c) == if c.0
                        < ix {
                        initial_light(grid, c)
                    } else {
                        dark
                    },
            invariant
                DDD::spec_valid(bounds),
                steppable(bounds),
                bounds.0.1 <= 0,
                CHUNK_MAX_HEIGHT <= bounds.1.1,
                grid.wf(),
                grid.spec_bounds() == bounds,
                dark == LightLevel::spec_new(0, 0, 0),
                lit == LightLevel::spec_new(16, 0, 0),
                light_map.wf(),
                light_map.spec_bounds() == bounds,
            ensures
                forall|c: DDD|
                    #[trigger] DDD::spec_in_bounds(c, bounds) ==> light_map.spec_at(c)
                        == initial_light(grid, c),
            decreases bounds.1.0 - ix,
        {
            let mut iz = bounds.0.2;
            loop
                invariant_except_break
                    bounds.0.2 <= iz <= bounds.1.2,
                    forall|c: DDD|
                        #[trigger] DDD::spec_in_bounds(c, bounds) ==> light_map.spec_at(c) == if c.0
                            < ix || (c.0 == ix && c.2 < iz) {
                            initial_light(grid, c)
                        } else {
                            dark
                        },
                invariant
                    DDD::spec_valid(bounds),
                    steppable(bounds),
                    bounds.0.1 <= 0,
                    CHUNK_MAX_HEIGHT <= bounds.1.1,
                    bounds.0.0 <= ix <= bounds.1.0,
                    grid.wf(),
                    grid.spec_bounds() == bounds,
                    dark == LightLevel::spec_new(0, 0, 0),
                    lit == LightLevel::spec_new(16, 0, 0),
                    light_map.wf(),
                    light_map.spec_bounds() == bounds,
                ensures
                    forall|c: DDD|
                        #[trigger] DDD::spec_in_bounds(c, bounds) ==> light_map.spec_at(c) == if c.0
                            <= ix {
                            initial_light(grid, c)
                        } else {
                            dark
                        },
                decreases bounds.1.2 - iz,
            {
                let mut iy: i32 = CHUNK_MAX_HEIGHT;
                loop
                    invariant_except_break
                        0 <= iy <= CHUNK_MAX_HEIGHT,
                        forall|c: DDD|
                            #[trigger] DDD::spec_in_bounds(c, bounds) ==> light_map.spec_at(c)
                                == if c.0 < ix || (c.0 == ix && c.2 < iz) {
                                initial_light(grid, c)
                            } else if c.0 == ix && c.2 == iz && iy < c.1 <= CHUNK_MAX_HEIGHT {
                                lit
                            } else {
                                dark
                            },
                    invariant
                        DDD::spec_valid(bounds),
                        steppable(bounds),
                        bounds.0.1 <= 0,
                        CHUNK_MAX_HEIGHT <= bounds.1.1,
                        bounds.0.0 <= ix <= bounds.1.0,
                        bounds.0.2 <= iz <= bounds.1.2,
                        grid.wf(),
                        grid.spec_bounds() == bounds,
                        dark == LightLevel::spec_new(0, 0, 0),
                        lit == LightLevel::spec_new(16, 0, 0),
                        light_map.wf(),
                        light_map.spec_bounds() == bounds,
                        forall|y: i32|
                            iy < y <= CHUNK_MAX_HEIGHT ==> !(#[trigger] grid.spec_at(
                                (ix, y, iz),
                            )).block.spec_visible(),
                    ensures
                        forall|c: DDD|
                            #[trigger] DDD::spec_in_bounds(c, bounds) ==> light_map.spec_at(c)
                                == if c.0 < ix || (c.0 == ix && c.2 <= iz) {
                                initial_light(grid, c)
                            } else {
                                dark
                            },
                    decreases iy,
                {
                    if grid.index((ix, iy, iz)).visible() {
                        proof {
                            assert forall|c: DDD| #[trigger]
                                DDD::spec_in_bounds(c, bounds) implies light_map.spec_at(c) == if c.0
                                < ix || (c.0 == ix && c.2 <= iz) {
                                initial_light(grid, c)
                            } else {
                                dark
                            } by {
                                assert(light_map.spec_at(c) == if c.0 < ix || (c.0 == ix && c.2 < iz) {
                                    initial_light(grid, c)
                                } else if c.0 == ix && c.2 == iz && iy < c.1 <= CHUNK_MAX_HEIGHT {
                                    lit
                                } else {
                                    dark
                                });
                                if c.0 == ix && c.2 == iz {
                                    if c.1 <= iy {
                                        lemma_blocked(grid, c, iy);
                                    } else if c.1 <= CHUNK_MAX_HEIGHT {
                                        lemma_exposed(grid, c, iy as int);
                                    }
                                }
                            }
                        }
                        break ;
                    }
                    let ghost before = light_map;
                    light_map.set((ix, iy, iz), LightLevel::new(16, 0, 0));
                    proof {
                        assert forall|c: DDD| #[trigger]
                            DDD::spec_in_bounds(c, bounds) implies light_map.spec_at(c) == if c.0
                            < ix || (c.0 == ix && c.2 < iz) {
                            initial_light(grid, c)
                        } else if c.0 == ix && c.2 == iz && iy - 1 < c.1 <= CHUNK_MAX_HEIGHT {
                            lit
                        } else {
                            dark
                        } by {
                            assert(before.spec_at(c) == if c.0 < ix || (c.0 == ix && c.2 < iz) {
                                initial_light(grid, c)
                            } else if c.0 == ix && c.2 == iz && iy < c.1 <= CHUNK_MAX_HEIGHT {
                                lit
                            } else {
                                dark
                            });
                            assert(light_map.spec_at(c) == if c == (ix, iy, iz) {
                                lit
                            } else {
                                before.spec_at(c)
                            });
                        }
                    }
                    if iy == 0 {
                        proof {
                            assert forall|c: DDD| #[trigger]
                                DDD::spec_in_bounds(c, bounds) implies light_map.spec_at(c) == if c.0
                                < ix || (c.0 == ix && c.2 <= iz) {
                                initial_light(grid, c)
                            } else {
                                dark
                            } by {
                                assert(light_map.spec_at(c) == if c.0 < ix || (c.0 == ix && c.2 < iz) {
                                    initial_light(grid, c)
                                } else if c.0 == ix && c.2 == iz && -1 < c.1 <= CHUNK_MAX_HEIGHT {
                                    lit
                                } else {
                                    dark
                                });
                                if c.0 == ix && c.2 == iz && 0 <= c.1 <= CHUNK_MAX_HEIGHT {
                                    lemma_exposed(grid, c, -1);
                                }
                            }
                        }
                        break ;
                    }
                    iy = iy - 1;
                }
                if iz == bounds.1.2 {
                    break ;
                }
                iz = iz + 1;
            }
            if ix == bounds.1.0 {
                break ;
            }
            ix = ix + 1;
        }
        Chunk { grid, light_map }
    }
}

/// The terrain shape of one column, as read off the height noise: whether the
/// column holds ground at all, how deep stone reaches below row 30, and how
/// high the surface rises above row 30.
#[derive(Copy, Clone, PartialEq, Eq, Debug, Structural)]
pub struct TerrainColumn {
    pub solid: bool,
    pub bottom_extent: i32,
    pub top_extent: i32,
}

/// The block at row `y` of a column of shape `col`.
pub open spec fn spec_terrain_block(y: i32, col: TerrainColumn) -> BlockId {
    if !col.solid {
        BlockId::Air
    } else if y < 30 {
        if 30 - y < col.bottom_extent {
            BlockId::Cobble
        } else {
            BlockId::Air
        }
    } else if y - 30 > col.top_extent {
        BlockId::Air
    } else if y - 30 == col.top_extent {
        BlockId::Grass
    } else if y - 28 >= col.top_extent {
        BlockId::Dirt
    } else {
        BlockId::Cobble
    }
}

/// The block at row `y` of a column of shape `col`: air above the surface,
/// grass on it, two rows of dirt below, stone further down, and stone below
/// row 30 down to the column's depth.
pub fn terrain_block(y: i32, col: TerrainColumn) -> (r: BlockId)
    requires
        y > i32::MIN + 30,
    ensures
        r == spec_terrain_block(y, col),
{
    if !col.solid {
        BlockId::Air
    } else if y < 30 {
        if 30 - y < col.bottom_extent {
            BlockId::Cobble
        } else {
            BlockId::Air
        }
    } else {
        if y - 30 > col.top_extent {
            BlockId::Air
        } else if y - 30 == col.top_extent {
            BlockId::Grass
        } else if y - 28 >= col.top_extent {
            BlockId::Dirt
        } else {
            BlockId::Cobble
        }
    }
}

/// The box of chunk column `coord`: sixteen by sixteen columns, rows 0 to
/// `CHUNK_MAX_HEIGHT`.
pub open spec fn chunk_box(coord: DD) -> Bounds<DDD> {
    (
        ((coord.0 * 16) as i32, 0i32, (coord.1 * 16) as i32),
        ((coord.0 * 16 + 15) as i32, CHUNK_MAX_HEIGHT, (coord.1 * 16 + 15) as i32),
    )
}

/// The columns of chunk column `coord`.
pub open spec fn column_box(coord: DD) -> Bounds<DD> {
    (
        ((coord.0 * 16) as i32, (coord.1 * 16) as i32),
        ((coord.0 * 16 + 15) as i32, (coord.1 * 16 + 15) as i32),
    )
}

/// The chunk column's coordinates fit in an `i32`, and each of its cells can
/// be stepped past while it is filled in row-major order.
pub open spec fn generable(coord: DD) -> bool {
    &&& i32::MIN <= coord.0 * 16
    &&& coord.0 * 16 + 15 < i32::MAX
    &&& i32::MIN <= coord.1 * 16
    &&& coord.1 * 16 + 15 < i32::MAX
}

impl Chunk {
    /// Generates chunk column `coord` from the terrain shape of its columns:
    /// each block follows [`spec_terrain_block`], and sky light is seeded as in
    /// [`Chunk::new`].
    pub fn generate(coord: DD, columns: &Array2d<TerrainColumn>) -> (r: Chunk)
        requires
            generable(coord),
            columns.wf(),
            columns.spec_bounds() == column_box(coord),
        ensures
            r.wf(),
            r.spec_bounds() == chunk_box(coord),
            crate::world::interior_box(r.spec_bounds()) <==> (i32::MIN + 16 <= coord.0 * 16 && i32::MIN
                + 16 <= coord.1 * 16),
            crate::world::keyed_box(coord, r.spec_bounds()),
            forall|c: DDD|
                DDD::spec_in_bounds(c, chunk_box(coord)) ==> {
                    &&& (#[trigger] r.grid.spec_at(c)).block == spec_terrain_block(
                        c.1,
                        columns.spec_at((c.0, c.2)),
                    )
                    &&& r.grid.spec_at(c).meta.v == 0
                    &&& r.grid.spec_at(c).entity == 0
                    &&& r.light_map.spec_at(c) == initial_light(r.grid, c)
                },
    {
        let from = (coord.0 * 16, 0, coord.1 * 16);
        let to = (coord.0 * 16 + 15, CHUNK_MAX_HEIGHT, coord.1 * 16 + 15);
        let bounds = (from, to);
        proof {
            assert(crate::array::row_ddd(bounds) == 16);
            assert(crate::array::slice_ddd(bounds) == 128);
            assert(crate::array::depth_ddd(bounds) == 16);
            assert(DDD::spec_valid(bounds));
            assert(crate::array::steppable(bounds));
        }
        let kind_of = |c: DDD| -> (b: BlockId)
            requires
                DDD::spec_in_bounds(c, bounds),
            ensures
                b == spec_terrain_block(c.1, columns.spec_at((c.0, c.2))),
            { terrain_block(c.1, *columns.index((c.0, c.2))) };
        Chunk::new(bounds, kind_of)
    }
}

} // verus!

//! The chunks the client keeps: blocks up to row 255, with sky light seeded
//! from the top.

use vstd::prelude::*;
use crate::array::{Array, Array3d, ArrayIndex, Bounds, steppable};
use crate::client::block::{Block, BlockId};
use crate::coords::DDD;
use crate::light::LightLevel;

verus! {

/// The highest block row of a client chunk, which receives sky light first.
pub const CLIENT_CHUNK_MAX_HEIGHT: i32 = 255;

/// A box of the client's blocks together with the light level of each cell.
pub struct Chunk {
    pub grid: Array3d<Block>,
    pub light_map: Array3d<LightLevel>,
}

impl Block {
    /// Whether the block is a solid cube that stops sky light: anything but air.
    pub open spec fn spec_solid(self) -> bool {
        self.block != BlockId::Air
    }
}
/// Whether sky light reaches cell `c` of `grid`: `c` lies in rows
/// `0..=CLIENT_CHUNK_MAX_HEIGHT`, and no cell of its column from `c` up to that row
/// is a solid cube.
pub open spec fn sky_exposed(grid: Array3d<Block>, c: DDD) -> bool {
    &&& 0 <= c.1 <= CLIENT_CHUNK_MAX_HEIGHT
    &&& forall|y: i32|
        c.1 <= y <= CLIENT_CHUNK_MAX_HEIGHT ==> !(#[trigger] grid.spec_at((c.0, y, c.2))).spec_solid()
}

/// The initial light level of cell `c` of `grid`: full sky light where the sky
/// reaches, darkness elsewhere.
pub open spec fn initial_light(grid: Array3d<Block>, c: DDD) -> LightLevel {
    if sky_exposed(grid, c) {
        LightLevel::spec_new(16, 0, 0)
    } else {
        LightLevel::spec_new(0, 0, 0)
    }
}

proof fn lemma_exposed(grid: Array3d<Block>, c: DDD, iy: int)
    requires
        iy < c.1 <= CLIENT_CHUNK_MAX_HEIGHT,
        0 <= c.1,
        forall|y: i32| iy < y <= CLIENT_CHUNK_MAX_HEIGHT ==> !(#[trigger] grid.spec_at((c.0, y, c.2))).spec_solid(),
    ensures
        sky_exposed(grid, c),
{
}

proof fn lemma_blocked(grid: Array3d<Block>, c: DDD, y0: i32)
    requires
        c.1 <= y0 <= CLIENT_CHUNK_MAX_HEIGHT,
        grid.spec_at((c.0, y0, c.2)).spec_solid(),
    ensures
        !sky_exposed(grid, c),
{
}

impl Chunk {
    /// Both arrays are well formed and cover the same box.
    pub open spec fn wf(&self) -> bool {
        &&& self.grid.wf()
        &&& self.light_map.wf()
        &&& self.grid.spec_bounds() == self.light_map.spec_bounds()
    }

    /// The box of the chunk.
    pub open spec fn spec_bounds(&self) -> Bounds<DDD> {
        self.grid.spec_bounds()
    }

    /// Builds a chunk over `bounds` whose block at `c` has kind `block_f(c)`,
    /// with full sky light on every cell of rows 0 to 255 that the sky reaches
    /// and darkness elsewhere.
    pub fn new<F: Fn(DDD) -> BlockId>(bounds: Bounds<DDD>, block_f: F) -> (r: Chunk)
        requires
            DDD::spec_valid(bounds),
            steppable(bounds),
            bounds.0.1 <= 0,
            CLIENT_CHUNK_MAX_HEIGHT <= bounds.1.1,
            forall|c: DDD| #[trigger] DDD::spec_in_bounds(c, bounds) ==> block_f.requires((c,)),
        ensures
            r.wf(),
            r.spec_bounds() == bounds,
            forall|c: DDD|
                #[trigger] DDD::spec_in_bounds(c, bounds) ==> {
                    &&& block_f.ensures((c,), r.grid.spec_at(c).block)
                    &&& r.grid.spec_at(c).meta.spec_v() == 0
                    &&& r.grid.spec_at(c).entity == 0
                    &&& r.light_map.spec_at(c) == initial_light(r.grid, c)
                },
    {
        let kind_of = &block_f;
        let make_block = |c: DDD| -> (b: Block)
            requires
                kind_of.requires((c,)),
            ensures
                kind_of.ensures((c,), b.block) && b.meta.spec_v() == 0 && b.entity == 0,
            { Block::new(kind_of(c)) };
        let grid = Array::new_init(bounds, make_block);
        let mut light_map: Array3d<LightLevel> = Array::new_zeroed(bounds);
        proof {
            crate::array::lemma_all_idx_range(bounds);
            light_map.lemma_wf();
            assert forall|c: DDD| #[trigger] DDD::spec_in_bounds(c, bounds) implies light_map.spec_at(c)
                == LightLevel::spec_new(0, 0, 0) by {
                assert(light_map@[DDD::spec_idx(c, bounds)] == LightLevel::spec_new(0, 0, 0));
            }
        }
        let ghost dark = LightLevel::spec_new(0, 0, 0);
        let ghost lit = LightLevel::spec_new(16, 0, 0);
        let mut ix = bounds.0.0;
        loop
            invariant_except_break
                bounds.0.0 <= ix <= bounds.1.0,
                forall|c: DDD|
                    #[trigger] DDD::spec_in_bounds(c, bounds) ==> light_map.spec_at(c) == if c.0
                        < ix {
                        initial_light(grid, c)
                    } else {
                        dark
                    },
            invariant
                DDD::spec_valid(bounds),
                steppable(bounds),
                bounds.0.1 <= 0,
                CLIENT_CHUNK_MAX_HEIGHT <= bounds.1.1,
                grid.wf(),
                grid.spec_bounds() == bounds,
                dark == LightLevel::spec_new(0, 0, 0),
                lit == LightLevel::spec_new(16, 0, 0),
                light_map.wf(),
                light_map.spec_bounds() == bounds,
            ensures
                forall|c: DDD|
                    #[trigger] DDD::spec_in_bounds(c, bounds) ==> light_map.spec_at(c)
                        == initial_light(grid, c),
            decreases bounds.1.0 - ix,
        {
            let mut iz = bounds.0.2;
            loop
                invariant_except_break
                    bounds.0.2 <= iz <= bounds.1.2,
                    forall|c: DDD|
                        #[trigger] DDD::spec_in_bounds(c, bounds) ==> light_map.spec_at(c) == if c.0
                            < ix || (c.0 == ix && c.2 < iz) {
                            initial_light(grid, c)
                        } else {
                            dark
                        },
                invariant
                    DDD::spec_valid(bounds),
                    steppable(bounds),
                    bounds.0.1 <= 0,
                    CLIENT_CHUNK_MAX_HEIGHT <= bounds.1.1,
                    bounds.0.0 <= ix <= bounds.1.0,
                    grid.wf(),
                    grid.spec_bounds() == bounds,
                    dark == LightLevel::spec_new(0, 0, 0),
                    lit == LightLevel::spec_new(16, 0, 0),
                    light_map.wf(),
                    light_map.spec_bounds() == bounds,
                ensures
                    forall|c: DDD|
                        #[trigger] DDD::spec_in_bounds(c, bounds) ==> light_map.spec_at(c) == if c.0
                            <= ix {
                            initial_light(grid, c)
                        } else {
                            dark
                        },
                decreases bounds.1.2 - iz,
            {
                let mut iy: i32 = CLIENT_CHUNK_MAX_HEIGHT;
                loop
                    invariant_except_break
                        0 <= iy <= CLIENT_CHUNK_MAX_HEIGHT,
                        forall|c: DDD|
                            #[trigger] DDD::spec_in_bounds(c, bounds) ==> light_map.spec_at(c)
                                == if c.0 < ix || (c.0 == ix && c.2 < iz) {
                                initial_light(grid, c)
                            } else if c.0 == ix && c.2 == iz && iy < c.1 <= CLIENT_CHUNK_MAX_HEIGHT {
                                lit
                            } else {
                                dark
                            },
                    invariant
                        DDD::spec_valid(bounds),
                        steppable(bounds),
                        bounds.0.1 <= 0,
                        CLIENT_CHUNK_MAX_HEIGHT <= bounds.1.1,
                        bounds.0.0 <= ix <= bounds.1.0,
                        bounds.0.2 <= iz <= bounds.1.2,
                        grid.wf(),
                        grid.spec_bounds() == bounds,
                        dark == LightLevel::spec_new(0, 0, 0),
                        lit == LightLevel::spec_new(16, 0, 0),
                        light_map.wf(),
                        light_map.spec_bounds() == bounds,
                        forall|y: i32|
                            iy < y <= CLIENT_CHUNK_MAX_HEIGHT ==> !(#[trigger] grid.spec_at(
                                (ix, y, iz),
                            )).spec_solid(),
                    ensures
                        forall|c: DDD|
                            #[trigger] DDD::spec_in_bounds(c, bounds) ==> light_map.spec_at(c)
                                == if c.0 < ix || (c.0 == ix && c.2 <= iz) {
                                initial_light(grid, c)
                            } else {
                                dark
                            },
                    decreases iy,
                {
                    if grid.index((ix, iy, iz)).visible() {
                        proof {
                            assert forall|c: DDD| #[trigger]
                                DDD::spec_in_bounds(c, bounds) implies light_map.spec_at(c) == if c.0
                                < ix || (c.0 == ix && c.2 <= iz) {
                                initial_light(grid, c)
                            } else {
                                dark
                            } by {
                                assert(light_map.spec_at(c) == if c.0 < ix || (c.0 == ix && c.2 < iz) {
                                    initial_light(grid, c)
                                } else if c.0 == ix && c.2 == iz && iy < c.1 <= CLIENT_CHUNK_MAX_HEIGHT {
                                    lit
                                } else {
                                    dark
                                });
                                if c.0 == ix && c.2 == iz {
                                    if c.1 <= iy {
                                        lemma_blocked(grid, c, iy);
                                    } else if c.1 <= CLIENT_CHUNK_MAX_HEIGHT {
                                        lemma_exposed(grid, c, iy as int);
                                    }
                                }
                            }
                        }
                        break ;
                    }
                    let ghost before = light_map;
                    light_map.set((ix, iy, iz), LightLevel::new(16, 0, 0));
                    proof {
                        assert forall|c: DDD| #[trigger]
                            DDD::spec_in_bounds(c, bounds) implies light_map.spec_at(c) == if c.0
                            < ix || (c.0 == ix && c.2 < iz) {
                            initial_light(grid, c)
                        } else if c.0 == ix && c.2 == iz && iy - 1 < c.1 <= CLIENT_CHUNK_MAX_HEIGHT {
                            lit
                        } else {
                            dark
                        } by {
                            assert(before.spec_at(c) == if c.0 < ix || (c.0 == ix && c.2 < iz) {
                                initial_light(grid, c)
                            } else if c.0 == ix && c.2 == iz && iy < c.1 <= CLIENT_CHUNK_MAX_HEIGHT {
                                lit
                            } else {
                                dark
                            });
                            assert(light_map.spec_at(c) == if c == (ix, iy, iz) {
                                lit
                            } else {
                                before.spec_at(c)
                            });
                        }
                    }
                    if iy == 0 {
                        proof {
                            assert forall|c: DDD| #[trigger]
                                DDD::spec_in_bounds(c, bounds) implies light_map.spec_at(c) == if c.0
                                < ix || (c.0 == ix && c.2 <= iz) {
                                initial_light(grid, c)
                            } else {
                                dark
                            } by {
                                assert(light_map.spec_at(c) == if c.0 < ix || (c.0 == ix && c.2 < iz) {
                                    initial_light(grid, c)
                                } else if c.0 == ix && c.2 == iz && -1 < c.1 <= CLIENT_CHUNK_MAX_HEIGHT {
                                    lit
                                } else {
                                    dark
                                });
                                if c.0 == ix && c.2 == iz && 0 <= c.1 <= CLIENT_CHUNK_MAX_HEIGHT {
                                    lemma_exposed(grid, c, -1);
                                }
                            }
                        }
                        break ;
                    }
                    iy = iy - 1;
                }
                if iz == bounds.1.2 {
                    break ;
                }
                iz = iz + 1;
            }
            if ix == bounds.1.0 {
                break ;
            }
            ix = ix + 1;
        }
        Chunk { grid, light_map }
    }
}

} // verus!

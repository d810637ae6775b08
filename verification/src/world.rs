//! The world: loaded chunks keyed by chunk column, and the columns being generated.

use vstd::prelude::*;
use crate::array::{ArrayIndex, Bounds};
use crate::blocks::Block;
use crate::chunk::Chunk;
use crate::coords::{get_chunk_coord, DD, DDD};
use crate::light::LightLevel;
use crate::store::ChunkStore;

verus! {

/// The chunk column that holds block coordinate `c`.
pub open spec fn chunk_key(c: DDD) -> DD {
    ((c.0 / 16) as i32, (c.2 / 16) as i32)
}

/// The chunk column of `c` can be computed without overflow.
pub open spec fn keyable(c: DDD) -> bool {
    c.0 >= i32::MIN + 15 && c.2 >= i32::MIN + 15
}

/// `c` and its face neighbours have computable chunk columns, and `c` can be
/// stepped from in every direction.
pub open spec fn interior(c: DDD) -> bool {
    &&& i32::MIN + 16 <= c.0 < i32::MAX
    &&& i32::MIN + 16 <= c.1 < i32::MAX
    &&& i32::MIN + 16 <= c.2 < i32::MAX
}

/// Every coordinate of the box is interior.
pub open spec fn interior_box(b: Bounds<DDD>) -> bool {
    interior(b.0) && interior(b.1)
}

/// The box lies within chunk column `k`.
pub open spec fn keyed_box(k: DD, b: Bounds<DDD>) -> bool {
    &&& 16 * k.0 <= b.0.0
    &&& b.1.0 <= 16 * k.0 + 15
    &&& 16 * k.1 <= b.0.2
    &&& b.1.2 <= 16 * k.1 + 15
}

/// Every coordinate of a box within chunk column `k` has chunk column `k`.
pub proof fn lemma_keyed_box(k: DD, b: Bounds<DDD>, c: DDD)
    requires
        keyed_box(k, b),
        DDD::spec_in_bounds(c, b),
    ensures
        chunk_key(c) == k,
{
    vstd::arithmetic::div_mod::lemma_fundamental_div_mod_converse(c.0 as int, 16, k.0 as int, c.0 - 16 * k.0);
    vstd::arithmetic::div_mod::lemma_fundamental_div_mod_converse(c.2 as int, 16, k.1 as int, c.2 - 16 * k.1);
}

/// The loaded world.
pub struct GameWorld {
    /// Chunk columns whose generation has started and not yet finished.
    pub generating: Vec<DD>,
    /// The loaded chunks.
    pub chunks: ChunkStore,
}

/// What a request for a chunk column found.
#[derive(Copy, Clone, PartialEq, Eq, Debug, Structural)]
pub enum ChunkRequest {
    /// The chunk is loaded.
    Loaded,
    /// The chunk was neither loaded nor being generated; its generation is now
    /// recorded as started, and the caller must start it.
    StartGenerating,
    /// The chunk is already being generated.
    AlreadyGenerating,
}

impl GameWorld {
    /// The loaded chunks.
    pub open spec fn spec_chunks(&self) -> Map<DD, Chunk> {
        crate::store::chunk_store_contents(self.chunks)
    }

    /// Every loaded chunk is well formed and lies in the interior of the coordinate space.
    pub open spec fn wf(&self) -> bool {
        forall|k: DD|
            #[trigger] self.spec_chunks().contains_key(k) ==> self.spec_chunks()[k].wf()
                && interior_box(self.spec_chunks()[k].spec_bounds()) && keyed_box(
                k,
                self.spec_chunks()[k].spec_bounds(),
            )
    }

    /// The chunk column of `c` is loaded.
    pub open spec fn spec_loaded(&self, c: DDD) -> bool {
        self.spec_chunks().contains_key(chunk_key(c))
    }

    /// The block at `c`, if its chunk is loaded and covers `c`.
    pub open spec fn spec_block(&self, c: DDD) -> Option<Block> {
        let k = chunk_key(c);
        if self.spec_chunks().contains_key(k) && DDD::spec_in_bounds(
            c,
            self.spec_chunks()[k].grid.spec_bounds(),
        ) {
            Some(self.spec_chunks()[k].grid.spec_at(c))
        } else {
            None
        }
    }

    /// The light level at `c`, if its chunk is loaded and covers `c`.
    pub open spec fn spec_light(&self, c: DDD) -> Option<LightLevel> {
        let k = chunk_key(c);
        if self.spec_chunks().contains_key(k) && DDD::spec_in_bounds(
            c,
            self.spec_chunks()[k].light_map.spec_bounds(),
        ) {
            Some(self.spec_chunks()[k].light_map.spec_at(c))
        } else {
            None
        }
    }

    /// An empty world.
    pub fn new() -> (r: GameWorld)
        ensures
            r.wf(),
            r.generating@ == Seq::<DD>::empty(),
            r.spec_chunks() == Map::<DD, Chunk>::empty(),
    {
        let chunks = ChunkStore::new();
        assert(crate::store::chunk_store_contents(chunks) =~= Map::<DD, Chunk>::empty());
        GameWorld { generating: Vec::new(), chunks }
    }

    /// The chunk column that holds block coordinate `coord`.
    pub fn get_chunk_coord(coord: DDD) -> (r: DD)
        requires
            keyable(coord),
        ensures
            r == chunk_key(coord),
            16 * r.0 <= coord.0 < 16 * r.0 + 16,
            16 * r.1 <= coord.2 < 16 * r.1 + 16,
    {
        get_chunk_coord(coord)
    }

    /// Forgets that the column `chunk_coord` is being generated (its first
    /// occurrence in the list, if any).
    pub fn remove_from_generating(&mut self, chunk_coord: DD)
        ensures
            final(self).chunks == old(self).chunks,
            old(self).generating@.no_duplicates() ==> final(self).generating@.no_duplicates()
                && !final(self).generating@.contains(chunk_coord),
            !old(self).generating@.contains(chunk_coord) ==> final(self).generating@ == old(
                self,
            ).generating@,
            old(self).generating@.contains(chunk_coord) ==> exists|i: int|
                0 <= i < old(self).generating@.len() && old(self).generating@[i] == chunk_coord
                    && (forall|j: int| 0 <= j < i ==> old(self).generating@[j] != chunk_coord)
                    && final(self).generating@ == old(self).generating@.remove(i),
    {
        let n = self.generating.len();
        let mut i: usize = 0;
        while i < n
            invariant
                n == self.generating@.len(),
                self.generating@ == old(self).generating@,
                self.chunks == old(self).chunks,
                i <= n,
                forall|j: int| 0 <= j < i ==> self.generating@[j] != chunk_coord,
            decreases n - i,
        {
            let g = self.generating[i];
            if g.0 == chunk_coord.0 && g.1 == chunk_coord.1 {
                let ghost before = self.generating@;
                self.generating.remove(i);
                proof {
                    if before.no_duplicates() {
                        assert forall|a: int, b: int|
                            0 <= a < b < self.generating@.len() implies self.generating@[a]
                            != self.generating@[b] by {
                            let a2 = if a < i { a } else { a + 1 };
                            let b2 = if b < i { b } else { b + 1 };
                            assert(self.generating@[a] == before[a2]);
                            assert(self.generating@[b] == before[b2]);
                        }
                        if self.generating@.contains(chunk_coord) {
                            let k = choose|k: int| 0 <= k < self.generating@.len() && self.generating@[k] == chunk_coord;
                            let k2 = if k < i { k } else { k + 1 };
                            assert(before[k2] == chunk_coord);
                            assert(before[i as int] == chunk_coord);
                        }
                    }
                }
                return;
            }
            i = i + 1;
        }
    }

    /// The loaded chunk of column `chunk_coord`, if any.
    pub fn chunk(&self, chunk_coord: DD) -> (r: Option<&Chunk>)
        ensures
            match r {
                Some(c) => self.spec_chunks().contains_key(chunk_coord) && *c == self.spec_chunks()[chunk_coord],
                None => !self.spec_chunks().contains_key(chunk_coord),
            },
    {
        self.chunks.get(&chunk_coord)
    }

    /// The block at `c`, if its chunk is loaded and covers `c`.
    pub fn get(&self, c: DDD) -> (r: Option<&Block>)
        requires
            self.wf(),
            keyable(c),
        ensures
            match r {
                Some(b) => self.spec_block(c) == Some(*b),
                None => self.spec_block(c) is None,
            },
    {
        let chunk_coord = Self::get_chunk_coord(c);
        match self.chunks.get(&chunk_coord) {
            None => None,
            Some(chunk) => {
                if c.in_bounds(&chunk.grid.bounds()) {
                    Some(chunk.grid.index(c))
                } else {
                    None
                }
            },
        }
    }

    /// The light level at `c`, if its chunk is loaded and covers `c`.
    pub fn get_light_level(&self, c: DDD) -> (r: Option<LightLevel>)
        requires
            self.wf(),
            keyable(c),
        ensures
            r == self.spec_light(c),
    {
        let chunk_coord = Self::get_chunk_coord(c);
        match self.chunks.get(&chunk_coord) {
            None => None,
            Some(chunk) => {
                if c.in_bounds(&chunk.light_map.bounds()) {
                    Some(*chunk.light_map.index(c))
                } else {
                    None
                }
            },
        }
    }

    /// Sets the light level at `c` when its chunk is loaded; `None` when it is not.
    pub fn set_light_level(&mut self, c: DDD, light_level: LightLevel) -> (r: Option<()>)
        requires
            old(self).wf(),
            keyable(c),
            old(self).spec_loaded(c) ==> DDD::spec_in_bounds(
                c,
                old(self).spec_chunks()[chunk_key(c)].light_map.spec_bounds(),
            ),
        ensures
            final(self).wf(),
            r is Some <==> old(self).spec_loaded(c),
            final(self).generating == old(self).generating,
            final(self).spec_chunks().dom() == old(self).spec_chunks().dom(),
            forall|d: DDD| #[trigger] final(self).spec_block(d) == old(self).spec_block(d),
            forall|d: DDD|
                #[trigger] final(self).spec_light(d) == if old(self).spec_loaded(c) && d == c {
                    Some(light_level)
                } else {
                    old(self).spec_light(d)
                },
            r is None ==> *final(self) == *old(self),
    {
        let chunk_coord = Self::get_chunk_coord(c);
        let ghost old_world = *old(self);
        match self.chunks.get_mut(&chunk_coord) {
            None => None,
            Some(chunk) => {
                let ghost before = *chunk;
                chunk.light_map.set(c, light_level);
                proof {
                    assert(chunk.wf());
                }
                Some(())
            },
        }
    }

    /// A mutable borrow of the block at `c` when its chunk is loaded; whatever
    /// is written through it becomes the block at `c`, and nothing else changes.
    pub fn get_mut(&mut self, c: DDD) -> (r: Option<&mut Block>)
        requires
            old(self).wf(),
            keyable(c),
            old(self).spec_loaded(c) ==> DDD::spec_in_bounds(
                c,
                old(self).spec_chunks()[chunk_key(c)].grid.spec_bounds(),
            ),
        ensures
            match r {
                Some(b) => {
                    &&& old(self).spec_loaded(c)
                    &&& old(self).spec_block(c) == Some(*b)
                    &&& final(self).wf()
                    &&& final(self).generating == old(self).generating
                    &&& final(self).spec_chunks().dom() == old(self).spec_chunks().dom()
                    &&& forall|d: DDD| #[trigger]
                        final(self).spec_light(d) == old(self).spec_light(d)
                    &&& final(self).spec_block(c) == Some(*final(b))
                    &&& forall|d: DDD|
                        d != c ==> #[trigger] final(self).spec_block(d) == old(self).spec_block(d)
                },
                None => {
                    &&& !old(self).spec_loaded(c)
                    &&& final(self).generating == old(self).generating
                    &&& final(self).spec_chunks() == old(self).spec_chunks()
                },
            },
    {
        let chunk_coord = Self::get_chunk_coord(c);
        match self.chunks.get_mut(&chunk_coord) {
            None => None,
            Some(chunk) => {
                proof {
                    assert(old(self).spec_chunks().contains_key(chunk_coord));
                    chunk.grid.lemma_wf();
                    let b = chunk.grid.spec_bounds();
                    DDD::lemma_idx_range(c, b);
                    assert(chunk.grid@.len() == DDD::spec_size(b));
                    assert forall|d: DDD| DDD::spec_in_bounds(d, b) && d != c implies 0
                        <= #[trigger] DDD::spec_idx(d, b) < DDD::spec_size(b) && DDD::spec_idx(d, b)
                        != DDD::spec_idx(c, b) by {
                        DDD::lemma_idx_range(d, b);
                        if DDD::spec_idx(d, b) == DDD::spec_idx(c, b) {
                            DDD::lemma_idx_injective(d, c, b);
                        }
                    }
                }
                Some(chunk.grid.index_mut(c))
            },
        }
    }

    /// Looks up the chunk column `chunk_coord`: reports it loaded, or records
    /// that its generation starts unless it has already started.
    pub fn request_chunk(&mut self, chunk_coord: DD) -> (r: ChunkRequest)
        ensures
            final(self).chunks == old(self).chunks,
            r == ChunkRequest::Loaded <==> old(self).spec_chunks().contains_key(chunk_coord),
            r == ChunkRequest::AlreadyGenerating <==> !old(self).spec_chunks().contains_key(
                chunk_coord,
            ) && old(self).generating@.contains(chunk_coord),
            r == ChunkRequest::StartGenerating ==> final(self).generating@ == old(
                self,
            ).generating@.push(chunk_coord),
            r != ChunkRequest::StartGenerating ==> final(self).generating@ == old(
                self,
            ).generating@,
            old(self).generating@.no_duplicates() ==> final(self).generating@.no_duplicates(),
    {
        if self.chunks.contains_key(&chunk_coord) {
            return ChunkRequest::Loaded;
        }
        let n = self.generating.len();
        let mut i: usize = 0;
        while i < n
            invariant
                n == self.generating@.len(),
                self.generating@ == old(self).generating@,
                self.chunks == old(self).chunks,
                !crate::store::chunk_store_contents(self.chunks).contains_key(chunk_coord),
                i <= n,
                forall|j: int| 0 <= j < i ==> self.generating@[j] != chunk_coord,
            decreases n - i,
        {
            let g = self.generating[i];
            if g.0 == chunk_coord.0 && g.1 == chunk_coord.1 {
                return ChunkRequest::AlreadyGenerating;
            }
            i = i + 1;
        }
        let ghost before = self.generating@;
        self.generating.push(chunk_coord);
        proof {
            if before.no_duplicates() {
                assert forall|a: int, b: int|
                    0 <= a < b < self.generating@.len() implies self.generating@[a]
                    != self.generating@[b] by {
                    if b == before.len() {
                        assert(before[a] != chunk_coord);
                    }
                }
            }
        }
        ChunkRequest::StartGenerating
    }

    /// Stores a freshly generated chunk under `chunk_coord` and forgets that it
    /// was being generated.
    pub fn insert_generated_chunk(&mut self, chunk_coord: DD, chunk: Chunk)
        requires
            old(self).wf(),
            chunk.wf(),
            interior_box(chunk.spec_bounds()),
            keyed_box(chunk_coord, chunk.spec_bounds()),
        ensures
            final(self).wf(),
            final(self).spec_chunks() == old(self).spec_chunks().insert(chunk_coord, chunk),
            !old(self).generating@.contains(chunk_coord) ==> final(self).generating@ == old(
                self,
            ).generating@,
            old(self).generating@.contains(chunk_coord) ==> exists|i: int|
                0 <= i < old(self).generating@.len() && old(self).generating@[i] == chunk_coord
                    && (forall|j: int| 0 <= j < i ==> old(self).generating@[j] != chunk_coord)
                    && final(self).generating@ == old(self).generating@.remove(i),
            old(self).generating@.no_duplicates() ==> final(self).generating@.no_duplicates()
                && !final(self).generating@.contains(chunk_coord),
    {
        let _ = self.chunks.insert(chunk_coord, chunk);
        self.remove_from_generating(chunk_coord);
        proof {
            assert forall|k: DD| #[trigger] self.spec_chunks().contains_key(k) implies self.spec_chunks()[
                k].wf() && interior_box(self.spec_chunks()[k].spec_bounds()) && keyed_box(
                k,
                self.spec_chunks()[k].spec_bounds(),
            ) by {
                if k != chunk_coord {
                    assert(old(self).spec_chunks().contains_key(k));
                }
            }
        }
    }
}

} // verus!

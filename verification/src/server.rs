//! What the server decides when players act: block edits, chunk requests,
//! relight reports, broadcast recipients and the frame counter.

use vstd::prelude::*;
use crate::blocks::{Block, BlockId, BlockTransfer};
use crate::chunk::Chunk;
use crate::coords::{DD, DDD};
use crate::light::LightLevel;
use crate::networking::FunctorType;
use crate::store::{coord_set_contents, CoordSet};
use crate::world::{chunk_key, keyable, ChunkRequest, GameWorld};
use crate::array::ArrayIndex;

verus! {

/// The clients that receive a broadcast: every connected client except `client_exclude`,
/// in the order given.
pub fn broadcast_but(clients: &Vec<u64>, client_exclude: u64) -> (r: Vec<u64>)
    ensures
        r@ == clients@.filter(|c: u64| c != client_exclude),
{
    let mut r: Vec<u64> = Vec::new();
    let n = clients.len();
    let mut i: usize = 0;
    while i < n
        invariant
            n == clients@.len(),
            i <= n,
            r@ == clients@.take(i as int).filter(|c: u64| c != client_exclude),
        decreases n - i,
    {
        let c = clients[i];
        proof {
            reveal_with_fuel(Seq::filter, 1);
            assert(clients@.take(i as int + 1).drop_last() == clients@.take(i as int));
            assert(clients@.take(i as int + 1).last() == c);
        }
        if c != client_exclude {
            r.push(c);
        }
        i = i + 1;
    }
    proof {
        assert(clients@.take(n as int) == clients@);
    }
    r
}

/// The block edit a player asked for can be applied without a chunk being
/// loaded that does not cover the edited cell.
pub open spec fn edit_ok(world: GameWorld, location: DDD) -> bool {
    &&& world.wf()
    &&& keyable(location)
    &&& world.spec_loaded(location) ==> DDD::spec_in_bounds(
        location,
        world.spec_chunks()[chunk_key(location)].grid.spec_bounds(),
    )
    &&& world.spec_loaded(location) ==> DDD::spec_in_bounds(
        location,
        world.spec_chunks()[chunk_key(location)].light_map.spec_bounds(),
    )
}

/// A player removes the block at `location`: when its chunk is loaded the cell
/// becomes air and `true` is returned (the caller then relights and tells the
/// other players); otherwise nothing changes and `false` is returned.
pub fn handle_block_remove(game_world: &mut GameWorld, location: DDD) -> (r: bool)
    requires
        edit_ok(*old(game_world), location),
    ensures
        final(game_world).wf(),
        r == old(game_world).spec_loaded(location),
        final(game_world).generating == old(game_world).generating,
        forall|d: DDD| #[trigger] final(game_world).spec_light(d) == old(game_world).spec_light(d),
        forall|d: DDD|
            #[trigger] final(game_world).spec_block(d) == if r && d == location {
                Some(Block::spec_new(BlockId::Air))
            } else {
                old(game_world).spec_block(d)
            },
{
    match game_world.get_mut(location) {
        Some(block) => {
            *block = BlockId::Air.into_block();
            true
        },
        None => false,
    }
}

/// What placing a block did.
#[derive(Copy, Clone, PartialEq, Eq, Debug, Structural)]
pub enum PlaceOutcome {
    /// The chunk is not loaded; nothing changed.
    Ignored,
    /// The block was placed and the cell made dark; when `spawn_functors` is
    /// set the caller attaches the block's components to a new entity.
    Placed { spawn_functors: bool },
}

/// A player places `block_transfer` at `location`: when its chunk is loaded the
/// cell takes the block (with no entity) and darkness; otherwise nothing changes.
pub fn handle_block_place(
    game_world: &mut GameWorld,
    location: DDD,
    block_transfer: BlockTransfer,
) -> (r: PlaceOutcome)
    requires
        edit_ok(*old(game_world), location),
    ensures
        final(game_world).wf(),
        final(game_world).generating == old(game_world).generating,
        r matches PlaceOutcome::Placed { spawn_functors } ==> (spawn_functors <==> block_transfer.block
            == BlockId::Chest),
        old(game_world).spec_loaded(location) ==> {
            &&& r == PlaceOutcome::Placed {
                spawn_functors: block_transfer.block.spec_need_to_spawn_functors(),
            }
            &&& forall|d: DDD|
                #[trigger] final(game_world).spec_block(d) == if d == location {
                    Some(Block { block: block_transfer.block, meta: block_transfer.meta, entity: 0 })
                } else {
                    old(game_world).spec_block(d)
                }
            &&& forall|d: DDD|
                #[trigger] final(game_world).spec_light(d) == if d == location {
                    Some(LightLevel::spec_new(0, 0, 0))
                } else {
                    old(game_world).spec_light(d)
                }
        },
        !old(game_world).spec_loaded(location) ==> {
            &&& r == PlaceOutcome::Ignored
            &&& forall|d: DDD| #[trigger]
                final(game_world).spec_block(d) == old(game_world).spec_block(d)
            &&& forall|d: DDD| #[trigger]
                final(game_world).spec_light(d) == old(game_world).spec_light(d)
        },
{
    let spawn_functors = match game_world.get_mut(location) {
        Some(block) => {
            *block = Block::from_transfer(block_transfer);
            block.need_to_spawn_functors()
        },
        None => {
            return PlaceOutcome::Ignored;
        },
    };
    let _ = game_world.set_light_level(location, LightLevel::dark());
    PlaceOutcome::Placed { spawn_functors }
}

/// A client's request for the components of the block at `location`, held
/// by the block's entity.
#[derive(Copy, Clone, Debug)]
pub struct FunctorRequestEvent {
    pub client: u64,
    pub location: DDD,
    pub entity: u64,
    pub functor_type: FunctorType,
}

/// Client `client` asks for the components of kind `functor_type` of the
/// block at `location`: the request to answer when the block is loaded and has
/// an entity, and `None` otherwise.
pub fn functor_request(
    game_world: &GameWorld,
    client: u64,
    location: DDD,
    functor_type: FunctorType,
) -> (r: Option<FunctorRequestEvent>)
    requires
        game_world.wf(),
        keyable(location),
    ensures
        r == match game_world.spec_block(location) {
            Some(b) => if b.entity != 0 {
                Some(FunctorRequestEvent { client, location, entity: b.entity, functor_type })
            } else {
                None
            },
            None => None,
        },
{
    match game_world.get(location) {
        Some(block) => {
            if block.entity != 0 {
                Some(FunctorRequestEvent { client, location, entity: block.entity, functor_type })
            } else {
                None
            }
        },
        None => None,
    }
}

/// A player asks for chunk column `coord`: the same as [`GameWorld::request_chunk`].
pub fn get_chunk_or_spawn(game_world: &mut GameWorld, chunk_coord: DD) -> (r: ChunkRequest)
    ensures
        final(game_world).chunks == old(game_world).chunks,
        r == ChunkRequest::Loaded <==> old(game_world).spec_chunks().contains_key(chunk_coord),
        r == ChunkRequest::AlreadyGenerating <==> !old(game_world).spec_chunks().contains_key(
            chunk_coord,
        ) && old(game_world).generating@.contains(chunk_coord),
        r == ChunkRequest::StartGenerating ==> final(game_world).generating@ == old(
            game_world,
        ).generating@.push(chunk_coord),
        r != ChunkRequest::StartGenerating ==> final(game_world).generating@ == old(
            game_world,
        ).generating@,
        old(game_world).generating@.no_duplicates() ==> final(game_world).generating@.no_duplicates(),
{
    game_world.request_chunk(chunk_coord)
}

/// The light levels to report after relighting: one entry per coordinate of
/// `remesh`, each with the light level stored there.
pub fn collect_relights(game_world: &GameWorld, remesh: &CoordSet) -> (r: Vec<(DDD, LightLevel)>)
    requires
        game_world.wf(),
        forall|c: DDD|
            #[trigger] coord_set_contents(*remesh).contains(c) ==> keyable(c)
                && game_world.spec_light(c) is Some,
    ensures
        r@.map_values(|e: (DDD, LightLevel)| e.0).to_set() == coord_set_contents(*remesh),
        r@.map_values(|e: (DDD, LightLevel)| e.0).no_duplicates(),
        forall|i: int|
            0 <= i < r@.len() ==> Some((#[trigger] r@[i]).1) == game_world.spec_light(r@[i].0),
{
    let coords = remesh.to_vec();
    let mut r: Vec<(DDD, LightLevel)> = Vec::new();
    let n = coords.len();
    let mut i: usize = 0;
    proof {
        assert forall|k: int| 0 <= k < coords@.len() implies coord_set_contents(*remesh).contains(
            #[trigger] coords@[k],
        ) by {
            assert(coords@.to_set().contains(coords@[k]));
        }
    }
    while i < n
        invariant
            n == coords@.len(),
            i <= n,
            game_world.wf(),
            forall|k: int| 0 <= k < n ==> coord_set_contents(*remesh).contains(#[trigger] coords@[k]),
            forall|c: DDD|
                #[trigger] coord_set_contents(*remesh).contains(c) ==> keyable(c)
                    && game_world.spec_light(c) is Some,
            r@.map_values(|e: (DDD, LightLevel)| e.0) == coords@.take(i as int),
            r@.len() == i,
            forall|k: int|
                0 <= k < r@.len() ==> Some((#[trigger] r@[k]).1) == game_world.spec_light(r@[k].0),
        decreases n - i,
    {
        let c = coords[i];
        let light = match game_world.get_light_level(c) {
            Some(l) => l,
            None => {
                proof {
                    assert(coord_set_contents(*remesh).contains(coords@[i as int]));
                }
                return r;
            },
        };
        let ghost old_r = r@;
        r.push((c, light));
        proof {
            let f = |e: (DDD, LightLevel)| e.0;
            assert forall|k: int| 0 <= k < i + 1 implies #[trigger] r@.map_values(f)[k] == coords@.take(
                i as int + 1,
            )[k] by {
                if k < i {
                    assert(r@[k] == old_r[k]);
                    assert(old_r.map_values(f)[k] == coords@.take(i as int)[k]);
                }
            }
            assert(r@.map_values(f) =~= coords@.take(i as int + 1));
        }
        i = i + 1;
    }
    proof {
        assert(coords@.take(n as int) == coords@);
    }
    r
}

/// The tick counter of the server's frames.
pub struct ServerTick(pub u32);

impl ServerTick {
    /// The tick to stamp on the next frame; the counter moves on by one.
    pub fn advance(&mut self) -> (r: u32)
        requires
            old(self).0 < u32::MAX,
        ensures
            r == old(self).0,
            final(self).0 == old(self).0 + 1,
    {
        let t = self.0;
        self.0 = self.0 + 1;
        t
    }
}

/// A generated chunk arrived for column `chunk_coord`: store it and forget it
/// was being generated.
pub fn collect_async_chunk(game_world: &mut GameWorld, chunk_coord: DD, chunk: Chunk)
    requires
        old(game_world).wf(),
        chunk.wf(),
        crate::world::interior_box(chunk.spec_bounds()),
        crate::world::keyed_box(chunk_coord, chunk.spec_bounds()),
    ensures
        final(game_world).wf(),
        final(game_world).spec_chunks() == old(game_world).spec_chunks().insert(chunk_coord, chunk),
        !old(game_world).generating@.contains(chunk_coord) ==> final(game_world).generating@ == old(
            game_world,
        ).generating@,
        old(game_world).generating@.contains(chunk_coord) ==> exists|i: int|
            0 <= i < old(game_world).generating@.len() && old(game_world).generating@[i]
                == chunk_coord && (forall|j: int|
                0 <= j < i ==> old(game_world).generating@[j] != chunk_coord)
                && final(game_world).generating@ == old(game_world).generating@.remove(i),
        old(game_world).generating@.no_duplicates() ==> final(game_world).generating@.no_duplicates()
            && !final(game_world).generating@.contains(chunk_coord),
{
    game_world.insert_generated_chunk(chunk_coord, chunk);
}

} // verus!

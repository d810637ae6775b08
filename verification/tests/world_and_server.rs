use shikataganai::array::{Array, Array2d};
use shikataganai::blocks::{Block, BlockId, BlockMeta, BlockTransfer};
use shikataganai::chunk::{terrain_block, Chunk, TerrainColumn, CHUNK_MAX_HEIGHT};
use shikataganai::coords::{DD, DDD};
use shikataganai::light::{do_relight, relight_helper, LightLevel, RelightEvent};
use shikataganai::networking::{
    client_connection_config, server_connection_config, ChannelConfig, ClientChannel, ServerChannel, PROTOCOL_ID,
};
use shikataganai::recipes::populate_in_world_recipes;
use shikataganai::server::{
    broadcast_but, collect_async_chunk, collect_relights, functor_request, get_chunk_or_spawn, handle_block_place,
    handle_block_remove, PlaceOutcome, ServerTick,
};
use shikataganai::networking::FunctorType;
use shikataganai::players::{authenticate, AuthOutcome, PlayerEntities, UnAuthedPlayers};
use shikataganai::transfer::chunk_packet;
use shikataganai::store::CoordSet;
use shikataganai::world::{ChunkRequest, GameWorld};
use std::collections::VecDeque;

fn flat(coord: DD) -> Chunk {
    let cols: Array2d<TerrainColumn> = Array::new_init(
        ((coord.0 * 16, coord.1 * 16), (coord.0 * 16 + 15, coord.1 * 16 + 15)),
        |_c: DD| TerrainColumn { solid: true, bottom_extent: 5, top_extent: 3 },
    );
    Chunk::generate(coord, &cols)
}

fn world_with(coords: &[DD]) -> GameWorld {
    let mut w = GameWorld::new();
    for c in coords {
        w.insert_generated_chunk(*c, flat(*c));
    }
    w
}

#[test]
fn terrain_layers() {
    let col = TerrainColumn { solid: true, bottom_extent: 10, top_extent: 10 };
    assert_eq!(terrain_block(50, TerrainColumn { solid: false, ..col }), BlockId::Air);
    assert_eq!(terrain_block(25, col), BlockId::Cobble);
    assert_eq!(terrain_block(20, col), BlockId::Air);
    assert_eq!(terrain_block(41, col), BlockId::Air);
    assert_eq!(terrain_block(40, col), BlockId::Grass);
    assert_eq!(terrain_block(39, col), BlockId::Dirt);
    assert_eq!(terrain_block(38, col), BlockId::Dirt);
    assert_eq!(terrain_block(37, col), BlockId::Cobble);
    assert_eq!(terrain_block(30, col), BlockId::Cobble);
}

#[test]
fn generated_chunk_has_sky_light_down_to_the_surface() {
    let c = flat((1, -1));
    assert_eq!(c.grid.bounds(), ((16, 0, -16), (31, CHUNK_MAX_HEIGHT, -1)));
    assert_eq!(c.grid.index((20, 33, -5)).block, BlockId::Grass);
    assert_eq!(c.grid.index((20, 32, -5)).block, BlockId::Dirt);
    assert_eq!(c.grid.index((20, 30, -5)).block, BlockId::Cobble);
    assert_eq!(c.grid.index((20, 26, -5)).block, BlockId::Cobble);
    assert_eq!(c.grid.index((20, 25, -5)).block, BlockId::Air);
    assert_eq!(*c.light_map.index((20, 127, -5)), LightLevel::new(16, 0, 0));
    assert_eq!(*c.light_map.index((20, 34, -5)), LightLevel::new(16, 0, 0));
    assert_eq!(*c.light_map.index((20, 33, -5)), LightLevel::dark());
    assert_eq!(*c.light_map.index((20, 10, -5)), LightLevel::dark());
}

#[test]
fn chunk_new_lights_open_columns_from_the_top() {
    let c = Chunk::new(((0, 0, 0), (1, 127, 1)), |p: DDD| if p.0 == 0 && p.1 == 50 { BlockId::Dirt } else { BlockId::Air });
    assert_eq!(*c.light_map.index((0, 51, 0)), LightLevel::new(16, 0, 0));
    assert_eq!(*c.light_map.index((0, 50, 0)), LightLevel::dark());
    assert_eq!(*c.light_map.index((0, 0, 0)), LightLevel::dark());
    assert_eq!(*c.light_map.index((1, 0, 1)), LightLevel::new(16, 0, 0));
}

#[test]
fn world_reads_and_writes() {
    let mut w = world_with(&[(0, 0)]);
    assert_eq!(GameWorld::get_chunk_coord((-1, 0, 17)), (-1, 1));
    assert_eq!(w.get((3, 33, 4)).map(|b| b.block), Some(BlockId::Grass));
    assert!(w.get((16, 33, 4)).is_none());
    assert!(w.get((3, 200, 4)).is_none());
    assert_eq!(w.get_light_level((3, 40, 4)), Some(LightLevel::new(16, 0, 0)));
    assert_eq!(w.set_light_level((3, 40, 4), LightLevel::new(1, 2, 3)), Some(()));
    assert_eq!(w.get_light_level((3, 40, 4)), Some(LightLevel::new(1, 2, 3)));
    assert_eq!(w.get_light_level((3, 41, 4)), Some(LightLevel::new(16, 0, 0)));
    assert_eq!(w.set_light_level((40, 40, 4), LightLevel::dark()), None);
    if let Some(b) = w.get_mut((3, 33, 4)) {
        *b = Block::new(BlockId::Chest);
    }
    assert_eq!(w.get((3, 33, 4)).map(|b| b.block), Some(BlockId::Chest));
    assert!(w.get_mut((99, 33, 4)).is_none());
}

#[test]
fn chunk_requests_start_generation_once() {
    let mut w = GameWorld::new();
    assert_eq!(w.request_chunk((2, 3)), ChunkRequest::StartGenerating);
    assert_eq!(w.request_chunk((2, 3)), ChunkRequest::AlreadyGenerating);
    assert_eq!(get_chunk_or_spawn(&mut w, (4, 3)), ChunkRequest::StartGenerating);
    assert_eq!(w.generating, vec![(2, 3), (4, 3)]);
    collect_async_chunk(&mut w, (2, 3), flat((2, 3)));
    assert_eq!(w.generating, vec![(4, 3)]);
    assert_eq!(w.request_chunk((2, 3)), ChunkRequest::Loaded);
    w.remove_from_generating((4, 3));
    assert!(w.generating.is_empty());
    w.remove_from_generating((4, 3));
    assert!(w.generating.is_empty());
}

#[test]
fn removing_a_surface_block_lets_sky_light_in() {
    let mut w = world_with(&[(0, 0)]);
    assert!(handle_block_remove(&mut w, (5, 33, 5)));
    assert_eq!(w.get((5, 33, 5)).map(|b| b.block), Some(BlockId::Air));
    assert_eq!(w.get_light_level((5, 33, 5)), Some(LightLevel::dark()));
    let remesh = relight_helper(&vec![RelightEvent::Relight((5, 33, 5))], &mut w);
    assert!(remesh.contains(&(5, 33, 5)));
    assert_eq!(w.get_light_level((5, 33, 5)), Some(LightLevel::new(16, 0, 0)));
    assert_eq!(w.get_light_level((5, 34, 5)), Some(LightLevel::new(16, 0, 0)));
    assert_eq!(w.get((5, 32, 5)).map(|b| b.block), Some(BlockId::Dirt));
    let relights = collect_relights(&w, &remesh);
    assert!(relights.contains(&((5, 33, 5), LightLevel::new(16, 0, 0))));
    assert!(!handle_block_remove(&mut w, (100, 33, 5)));
}

#[test]
fn one_relight_step() {
    let mut w = world_with(&[(0, 0)]);
    let mut remesh = CoordSet::new();
    let mut queue: VecDeque<DDD> = VecDeque::new();
    // A dark air cell high in the sky takes the light of the sky above it.
    w.set_light_level((7, 60, 7), LightLevel::dark());
    do_relight((7, 60, 7), &mut w, &mut remesh, &mut queue);
    assert_eq!(w.get_light_level((7, 60, 7)), Some(LightLevel::new(16, 0, 0)));
    assert!(remesh.contains(&(7, 60, 7)));
    // All six neighbours are open air, pushed to the front one after another.
    assert_eq!(
        queue,
        VecDeque::from(vec![(7, 60, 8), (7, 60, 6), (7, 61, 7), (7, 59, 7), (8, 60, 7), (6, 60, 7)])
    );
    // Relighting it again changes nothing.
    let mut queue2: VecDeque<DDD> = VecDeque::new();
    do_relight((7, 60, 7), &mut w, &mut remesh, &mut queue2);
    assert!(queue2.is_empty());
    // Solid cells are left alone.
    do_relight((7, 30, 7), &mut w, &mut remesh, &mut queue2);
    assert!(queue2.is_empty());
    assert!(!remesh.contains(&(7, 30, 7)));
}

#[test]
fn placing_blocks() {
    let mut w = world_with(&[(0, 0)]);
    let chest = BlockTransfer { block: BlockId::Chest, meta: BlockMeta { v: 2 } };
    assert_eq!(handle_block_place(&mut w, (1, 40, 1), chest), PlaceOutcome::Placed { spawn_functors: true });
    assert_eq!(w.get((1, 40, 1)).copied(), Some(Block { block: BlockId::Chest, meta: BlockMeta { v: 2 }, entity: 0 }));
    assert_eq!(w.get_light_level((1, 40, 1)), Some(LightLevel::dark()));
    let dirt = BlockTransfer { block: BlockId::Dirt, meta: BlockMeta { v: 0 } };
    assert_eq!(handle_block_place(&mut w, (2, 40, 1), dirt), PlaceOutcome::Placed { spawn_functors: false });
    assert_eq!(handle_block_place(&mut w, (-2, 40, 1), dirt), PlaceOutcome::Ignored);
    assert!(functor_request(&w, 7, (1, 40, 1), FunctorType::InternalInventory).is_none());
    if let Some(b) = w.get_mut((1, 40, 1)) {
        b.entity = 42;
    }
    let req = functor_request(&w, 7, (1, 40, 1), FunctorType::InternalInventory).unwrap();
    assert_eq!((req.client, req.location, req.entity), (7, (1, 40, 1), 42));
    assert_eq!(req.functor_type, FunctorType::InternalInventory);
    assert!(functor_request(&w, 7, (-1, 40, 1), FunctorType::InternalInventory).is_none());
}

#[test]
fn broadcasts_skip_the_sender() {
    assert_eq!(broadcast_but(&vec![1, 2, 3, 2, 4], 2), vec![1, 3, 4]);
    assert_eq!(broadcast_but(&vec![], 2), Vec::<u64>::new());
    assert_eq!(broadcast_but(&vec![5], 6), vec![5]);
}

#[test]
fn server_ticks_count_frames() {
    let mut t = ServerTick(7);
    assert_eq!(t.advance(), 7);
    assert_eq!(t.advance(), 8);
    assert_eq!(t.0, 9);
}

#[test]
fn channel_settings() {
    assert_eq!(PROTOCOL_ID, 42);
    assert_eq!(ServerChannel::GameEvent.id(), 0);
    assert_eq!(ServerChannel::GameFrame.id(), 1);
    assert_eq!(ServerChannel::ChunkTransfer.id(), 2);
    assert_eq!(ClientChannel::ClientCommand.id(), 0);
    let server = ServerChannel::channels_config();
    assert_eq!(server[2], ChannelConfig::Block { channel_id: 2, max_message_size: 16 * 1024 * 1024, message_send_queue_size: 2048 });
    let s = server_connection_config();
    let c = client_connection_config();
    assert_eq!(s.send_channels_config, c.receive_channels_config);
    assert_eq!(s.receive_channels_config, c.send_channels_config);
    assert_eq!(c.send_channels_config, vec![ChannelConfig::Reliable { channel_id: 0, message_resend_time_zero: true }]);
}

#[test]
fn in_world_recipes() {
    let r = populate_in_world_recipes();
    assert_eq!(*r[0].from.index((1, 1, 1)), BlockId::Cobble);
    assert_eq!(*r[0].to.index((0, 0, 0)), BlockId::Furnace);
    assert_eq!(*r[0].to.index((1, 0, 0)), BlockId::Air);
    assert_eq!(r[0].item, None);
    assert_eq!(*r[1].from.index((0, 0, 0)), BlockId::Furnace);
    assert_eq!(*r[1].from.index((0, 1, 0)), BlockId::Iron);
    assert_eq!(*r[1].to.index((0, 1, 0)), BlockId::Air);
    assert_eq!(r[1].item, Some(shikataganai::blocks::ItemId::Iron));
}

#[test]
fn players_authenticate_once_per_entity() {
    let mut unauthed = UnAuthedPlayers::default();
    let mut players = PlayerEntities::default();
    // A client that never connected is not waiting.
    assert!(matches!(authenticate(&mut unauthed, &mut players, 1, 100), AuthOutcome::NotPending));
    unauthed.client_connected(1);
    unauthed.client_connected(2);
    unauthed.client_connected(3);
    assert!(unauthed.is_pending(1));
    match authenticate(&mut unauthed, &mut players, 1, 100) {
        AuthOutcome::Joined { others } => assert!(others.is_empty()),
        _ => panic!("the first player joins"),
    }
    assert!(!unauthed.is_pending(1));
    assert_eq!(players.entity_of(1), 100);
    match authenticate(&mut unauthed, &mut players, 2, 200) {
        AuthOutcome::Joined { others } => assert_eq!(others, vec![(1, 100)]),
        _ => panic!("the second player joins"),
    }
    // The entity of the first player's nickname is taken.
    assert!(matches!(authenticate(&mut unauthed, &mut players, 3, 100), AuthOutcome::Taken));
    assert!(!unauthed.is_pending(3));
    assert!(players.is_taken(200));
    assert!(!players.is_taken(300));
    let mut others = players.others(2);
    others.sort();
    assert_eq!(others, vec![1]);
    assert_eq!(players.client_disconnected(1), 100);
    assert!(!players.is_taken(100));
    assert!(players.others(2).is_empty());
}

#[test]
fn chunk_packets_are_compressed_and_bounded() {
    let data: Vec<u8> = vec![7; 4096];
    let packet = chunk_packet(&data, 1 << 20).unwrap();
    assert!(packet.len() < data.len());
    // A zlib stream at the best level starts with 0x78 0xda.
    assert_eq!(&packet[..2], &[0x78, 0xda]);
    assert!(chunk_packet(&data, 4).is_none());
    assert_eq!(chunk_packet(&data, packet.len()), Some(packet.clone()));
    assert!(chunk_packet(&data, packet.len() - 1).is_none());
}

#[test]
fn chests_get_an_inventory() {
    let inv = BlockId::Chest.spawn_functors().unwrap();
    assert_eq!(inv.inventory.len(), 10);
    assert!(BlockId::Dirt.spawn_functors().is_none());
    assert!(BlockId::Air.spawn_functors().is_none());
}

#[test]
fn loaded_chunks_by_column() {
    let w = world_with(&[(0, 0)]);
    assert!(w.chunk((0, 0)).is_some());
    assert!(w.chunk((1, 0)).is_none());
    assert_eq!(w.chunk((0, 0)).unwrap().grid.bounds(), ((0, 0, 0), (15, CHUNK_MAX_HEIGHT, 15)));
}

#[test]
fn disconnects_free_the_entity() {
    let mut unauthed = UnAuthedPlayers::default();
    let mut players = PlayerEntities::default();
    unauthed.client_connected(5);
    assert!(!players.is_player(5));
    assert!(matches!(authenticate(&mut unauthed, &mut players, 5, 50), AuthOutcome::Joined { .. }));
    assert!(players.is_player(5));
    // Authenticating twice does nothing: the client is no longer waiting.
    assert!(matches!(authenticate(&mut unauthed, &mut players, 5, 51), AuthOutcome::NotPending));
    assert_eq!(players.entity_of(5), 50);
    assert_eq!(players.client_disconnected(5), 50);
    assert!(!players.is_player(5));
    unauthed.client_connected(6);
    assert!(matches!(authenticate(&mut unauthed, &mut players, 6, 50), AuthOutcome::Joined { .. }));
}

#[test]
fn the_lowest_chunk_column_generates() {
    let k: i32 = -(1 << 27);
    let cols: Array2d<TerrainColumn> = Array::new_init(((i32::MIN, 0), (i32::MIN + 15, 15)), |_c: DD| TerrainColumn {
        solid: true,
        bottom_extent: 5,
        top_extent: 3,
    });
    let chunk = Chunk::generate((k, 0), &cols);
    assert_eq!(chunk.grid.bounds(), ((i32::MIN, 0, 0), (i32::MIN + 15, CHUNK_MAX_HEIGHT, 15)));
    assert_eq!(chunk.grid.index((i32::MIN, 33, 0)).block, BlockId::Grass);
}

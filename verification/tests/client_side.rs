use shikataganai::blocks::{BlockId, BlockOrItem, QuantifiedBlockOrItem};
use shikataganai::client::accessor::{
    all_distinct, get_light_level, get_many, get_single, propagate_light, set_light_level, ChunkMeta,
};
use shikataganai::client::block::{Block as ClientBlock, BlockId as ClientBlockId};
use shikataganai::client::chunk::Chunk as ClientChunk;
use shikataganai::client::blocks::{render_info, BlockRenderInfo, Meshes};
use shikataganai::client::console::{
    interpret_command, interpret_line, noclip_log, player_speed_log, unknown_command_log, ConsoleCommand, Level,
};
use shikataganai::client::data_uri::{
    buffer_uri, classify_buffer_uri, split_once, try_buffer_uri, BufferUri, DataUri, DataUriError,
};
use shikataganai::client::game::{
    cursor_grab_toggle, in_game, open_close_console, ConsoleMenuOpened, CursorState, MainMenuOpened, RendererPlugin,
    ShikataganaiGameState,
    ShikataganaiRendererPlugins,
};
use shikataganai::client::location::Location;
use shikataganai::client::mesh::{
    chunks_to_remesh, corner_offsets, extract_chunk_faces, occluded, occlusion_level, should_flip, side_index,
    RemeshEvent,
};
use shikataganai::client::player::{PlayerInventory, RerenderInventory, Restrain, SelectedHotBar};
use shikataganai::client::sprites::{BlockSprite, UiSprite};
use shikataganai::array::{Array, Array2d};
use shikataganai::chunk::{Chunk, TerrainColumn};
use shikataganai::coords::DD;
use shikataganai::light::LightLevel;
use shikataganai::world::GameWorld;

fn flat_world() -> GameWorld {
    let cols: Array2d<TerrainColumn> = Array::new_init(((0, 0), (15, 15)), |_c: DD| TerrainColumn {
        solid: true,
        bottom_extent: 5,
        top_extent: 3,
    });
    let mut w = GameWorld::new();
    w.insert_generated_chunk((0, 0), Chunk::generate((0, 0), &cols));
    w
}

fn words(s: &str) -> Vec<String> {
    s.split_whitespace().map(|w| w.to_string()).collect()
}

#[test]
fn sprite_sheet_cells() {
    assert_eq!(BlockSprite::Empty.sheet_cell(), (0, 0));
    assert_eq!(BlockSprite::Grid.sheet_cell(), (6, 0));
    assert_eq!(UiSprite::Delete.sheet_cell(), (2, 0));
    assert_eq!(UiSprite::RedSquare.sheet_cell(), (1, 1));
    assert_eq!(UiSprite::BlueSquare.index(), 4);
}

#[test]
fn legacy_block_faces() {
    assert_eq!(ClientBlockId::Grass.into_array_of_faces()[4], BlockSprite::Grass);
    assert_eq!(ClientBlockId::Grass.into_array_of_faces()[5], BlockSprite::Dirt);
    assert_eq!(ClientBlockId::Grass.into_array_of_faces()[0], BlockSprite::HalfGrass);
    assert_eq!(ClientBlockId::Hoist.into_array_of_faces(), [BlockSprite::Wood; 6]);
    assert_eq!(ClientBlockId::Air.into_array_of_faces(), [BlockSprite::Empty; 6]);
    assert!(!ClientBlock::new(ClientBlockId::Air).visible());
    assert!(ClientBlock::new(ClientBlockId::Air).passable());
    assert!(ClientBlock::new(ClientBlockId::Cobble).visible());
    assert!(!ClientBlock::new(ClientBlockId::Cobble).passable());
}

#[test]
fn how_blocks_are_drawn() {
    assert!(matches!(render_info(BlockId::Air), BlockRenderInfo::Nothing));
    assert!(matches!(render_info(BlockId::LightEmitter), BlockRenderInfo::Nothing));
    assert!(matches!(render_info(BlockId::Stair), BlockRenderInfo::AsMesh(Meshes::Stair)));
    match render_info(BlockId::Grass) {
        BlockRenderInfo::AsBlock(f) => assert_eq!(
            f,
            [
                BlockSprite::HalfGrass,
                BlockSprite::HalfGrass,
                BlockSprite::HalfGrass,
                BlockSprite::HalfGrass,
                BlockSprite::Grass,
                BlockSprite::Dirt
            ]
        ),
        _ => panic!("grass is a cube"),
    }
}

#[test]
fn player_state() {
    assert_eq!(SelectedHotBar::default().0, 0);
    assert!(!RerenderInventory::default().0);
    let mut r = Restrain(false);
    r.restrain();
    assert!(r.0);
    let inv = PlayerInventory::default();
    assert_eq!(inv.items.len(), 5);
    assert_eq!(
        inv.items[0],
        Some(QuantifiedBlockOrItem { block_or_item: BlockOrItem::Block(BlockId::Stair), quant: 100 })
    );
    assert!(inv.items[1..].iter().all(|s| s.is_none()));
}

#[test]
fn game_states_and_toggles() {
    assert!(in_game(ShikataganaiGameState::Simulation));
    assert!(in_game(ShikataganaiGameState::Paused));
    assert!(!in_game(ShikataganaiGameState::MainMenu));
    assert!(!in_game(ShikataganaiGameState::PreSimulation));
    let mut menu = MainMenuOpened(true);
    assert_eq!(cursor_grab_toggle(&mut menu), CursorState { locked: true, visible: false });
    assert_eq!(menu, MainMenuOpened(false));
    assert_eq!(cursor_grab_toggle(&mut menu), CursorState { locked: false, visible: true });
    assert_eq!(menu, MainMenuOpened(true));
    let mut console = ConsoleMenuOpened::default();
    assert_eq!(open_close_console(&mut console), CursorState { locked: false, visible: true });
    assert_eq!(console, ConsoleMenuOpened(true));
    assert_eq!(open_close_console(&mut console), CursorState { locked: true, visible: false });
    assert_eq!(console, ConsoleMenuOpened(false));
    assert_eq!(
        ShikataganaiRendererPlugins.build(),
        vec![
            RendererPlugin::VoxelRenderer,
            RendererPlugin::MeshRenderer,
            RendererPlugin::OffscreenInventoryAuxRenderer
        ]
    );
}

#[test]
fn console_commands() {
    assert!(matches!(interpret_command(&words("")), ConsoleCommand::Nothing));
    assert!(matches!(interpret_command(&words("clear")), ConsoleCommand::Clear));
    assert!(matches!(interpret_command(&words("clear now")), ConsoleCommand::Clear));
    assert!(matches!(interpret_command(&words("noclip")), ConsoleCommand::Nothing));
    match interpret_command(&words("noclip 1")) {
        ConsoleCommand::Noclip(a) => assert_eq!(a, "1"),
        _ => panic!("noclip"),
    }
    match interpret_command(&words("player_speed 2.5")) {
        ConsoleCommand::PlayerSpeed(a) => assert_eq!(a, "2.5"),
        _ => panic!("player_speed"),
    }
    match interpret_command(&words("fly high")) {
        ConsoleCommand::Unknown(a) => assert_eq!(a, "fly"),
        _ => panic!("unknown"),
    }
    let l = noclip_log(&"1".to_string());
    assert_eq!(l.text, "noclip 1");
    assert_eq!(l.level, Level::Info);
    assert_eq!(player_speed_log(&"3".to_string()).text, "Changed player speed to: 3");
    let e = unknown_command_log(&"fly".to_string());
    assert_eq!(e.text, "Error: Couldn't find the command 'fly'");
    assert_eq!(e.level, Level::Error);
}

#[test]
fn face_sides_and_shading() {
    assert_eq!(side_index((1, 0, 0)), 0);
    assert_eq!(side_index((-1, 0, 0)), 1);
    assert_eq!(side_index((0, 0, 1)), 2);
    assert_eq!(side_index((0, 0, -1)), 3);
    assert_eq!(side_index((0, 1, 0)), 4);
    assert_eq!(side_index((0, -1, 0)), 5);
    assert_eq!(occlusion_level(false, false, false), 0);
    assert_eq!(occlusion_level(true, false, false), 1);
    assert_eq!(occlusion_level(true, true, false), 2);
    assert_eq!(occlusion_level(true, false, true), 3);
    assert_eq!(occlusion_level(true, true, true), 3);
    assert_eq!(corner_offsets((1, -1, 1), (0, 1, 0)), ((1, 1, 0), (1, 1, 1), (0, 1, 1)));
    assert_eq!(corner_offsets((1, -1, 1), (-1, 0, 0)), ((-1, -1, 0), (-1, -1, 1), (-1, 0, 1)));
    assert!(should_flip(2, 0, 1, 1));
    assert!(!should_flip(1, 1, 1, 1));
}

#[test]
fn shading_reads_the_world() {
    let w = flat_world();
    // The top face of the surface block at (5, 33, 5): its neighbours above are air.
    assert_eq!(occluded(&w, (5, 33, 5), (1, 1, 1), (0, 1, 0)), 0);
    // The upper corner of the +x side of a surface block: only the cell beside
    // it at the same height is solid.
    assert_eq!(occluded(&w, (5, 33, 5), (1, 1, 1), (1, 0, 0)), 1);
    // A corner below the surface is shaded by all three of its neighbours.
    assert_eq!(occluded(&w, (5, 32, 5), (1, 1, 1), (1, 0, 0)), 3);
}

#[test]
fn chunk_faces_are_the_open_sides_of_solid_blocks() {
    let w = flat_world();
    let faces = extract_chunk_faces(&w, (0, 0));
    // Inside the 16x16 chunk: each column has a top face; edge columns also
    // show their sides toward the unloaded neighbours, and the cave below.
    let tops = faces.iter().filter(|f| f.dir == (0, 1, 0)).count();
    assert_eq!(tops, 256);
    let bottoms = faces.iter().filter(|f| f.dir == (0, -1, 0)).count();
    assert_eq!(bottoms, 256);
    let top = faces.iter().find(|f| f.cell == (3, 33, 3) && f.dir == (0, 1, 0)).unwrap();
    assert_eq!(top.block, BlockId::Grass);
    assert_eq!(top.lighting, (16, 0));
    let bottom = faces.iter().find(|f| f.cell == (3, 26, 3)).unwrap();
    assert_eq!(bottom.dir, (0, -1, 0));
    assert_eq!(bottom.lighting, (0, 0));
    // Side faces toward unloaded chunks: 8 solid rows (26..=33) on 4 sides of 16 columns.
    let sides = faces.iter().filter(|f| f.dir.1 == 0).count();
    assert_eq!(sides, 8 * 4 * 16);
}

#[test]
fn data_uris() {
    let d = DataUri::parse(b"data:text/plain;base64,aGVsbG8=").unwrap();
    assert_eq!(d.mime_type, b"text/plain".to_vec());
    assert!(d.base64);
    assert_eq!(d.data, b"aGVsbG8=".to_vec());
    assert_eq!(d.decode(), Ok(b"hello".to_vec()));
    let plain = DataUri::parse(b"data:,a,b").unwrap();
    assert_eq!(plain.mime_type, Vec::<u8>::new());
    assert!(!plain.base64);
    assert_eq!(plain.decode(), Ok(b"a,b".to_vec()));
    assert!(DataUri::parse(b"http://example.com").is_err());
    assert!(DataUri::parse(b"data:text/plain").is_err());
    let bad = DataUri::parse(b"data:;base64,***").unwrap();
    assert_eq!(bad.decode(), Err(DataUriError::InvalidBase64(base64::DecodeError::InvalidByte(0, b'*'))));
    assert_eq!(split_once(b"a=b=c", b'='), Some((b"a".to_vec(), b"b=c".to_vec())));
    assert_eq!(split_once(b"abc", b'='), None);
}

#[test]
fn client_block_access() {
    let mut w = flat_world();
    assert!(get_single(&w, (1, 300, 1)).is_none());
    assert!(get_single(&w, (1, -1, 1)).is_none());
    assert_eq!(get_single(&w, (1, 33, 1)).map(|b| b.block), Some(BlockId::Grass));
    assert_eq!(get_light_level(&w, (1, 33, 1)), None);
    assert_eq!(get_light_level(&w, (1, 34, 1)), Some(LightLevel::new(16, 0, 0)));
    set_light_level(&mut w, (1, 33, 1), LightLevel::new(5, 5, 5));
    assert_eq!(w.get_light_level((1, 33, 1)), Some(LightLevel::dark()));
    set_light_level(&mut w, (1, 34, 1), LightLevel::new(5, 5, 5));
    assert_eq!(w.get_light_level((1, 34, 1)), Some(LightLevel::new(5, 5, 5)));
    assert!(all_distinct(&vec![(1, 2, 3), (1, 2, 4)]));
    assert!(!all_distinct(&vec![(1, 2, 3), (0, 0, 0), (1, 2, 3)]));
    assert_eq!(ChunkMeta::new(9).entity, 9);
    let l = Location::new(1, 2, 3);
    assert_eq!(l.into_tuple(), (1, 2, 3));
    assert_eq!(Location::from_array(&[4, 5, 6]), Location { x: 4, y: 5, z: 6 });
}

/// The flat world with every open cell holding sky light 2 and source light 1.
fn dimly_lit_world() -> GameWorld {
    let mut w = flat_world();
    for x in 0..16 {
        for y in 0..=127 {
            for z in 0..16 {
                set_light_level(&mut w, (x, y, z), LightLevel::new(2, 1, 0));
            }
        }
    }
    w
}

#[test]
fn light_spreads_from_a_bright_cell() {
    let mut w = dimly_lit_world();
    set_light_level(&mut w, (8, 60, 8), LightLevel::new(10, 5, 0));
    propagate_light(&mut w, (9, 60, 8));
    // The cell takes one less than its bright neighbour, and spreads on.
    assert_eq!(get_light_level(&w, (9, 60, 8)), Some(LightLevel::new(9, 4, 0)));
    assert_eq!(get_light_level(&w, (10, 60, 8)), Some(LightLevel::new(8, 3, 0)));
    // The bright cell itself stays as it was; light never dims.
    assert_eq!(get_light_level(&w, (8, 60, 8)), Some(LightLevel::new(10, 5, 0)));
    assert_eq!(get_light_level(&w, (0, 100, 0)), Some(LightLevel::new(2, 1, 0)));
    // Solid blocks keep no light.
    assert_eq!(get_light_level(&w, (9, 30, 8)), None);
}

#[test]
fn light_without_a_brighter_neighbour_stays() {
    let mut w = dimly_lit_world();
    propagate_light(&mut w, (5, 60, 5));
    assert_eq!(get_light_level(&w, (5, 60, 5)), Some(LightLevel::new(2, 1, 0)));
    // Outside the loaded chunks nothing happens.
    propagate_light(&mut w, (50, 60, 5));
    assert_eq!(get_light_level(&w, (50, 60, 5)), None);
}

#[test]
fn remeshing_each_loaded_chunk_once() {
    let mut w = flat_world();
    let cols: Array2d<TerrainColumn> = Array::new_init(((16, 0), (31, 15)), |_c: DD| TerrainColumn {
        solid: false,
        bottom_extent: 0,
        top_extent: 0,
    });
    w.insert_generated_chunk((1, 0), Chunk::generate((1, 0), &cols));
    let events = vec![
        RemeshEvent::Remesh((1, 0)),
        RemeshEvent::Dummy,
        RemeshEvent::Remesh((5, 5)),
        RemeshEvent::Remesh((0, 0)),
        RemeshEvent::Remesh((1, 0)),
    ];
    assert_eq!(chunks_to_remesh(&w, &events), vec![(1, 0), (0, 0)]);
    assert_eq!(chunks_to_remesh(&w, &vec![]), Vec::<DD>::new());
}

#[test]
fn buffer_uris() {
    match classify_buffer_uri(b"data:application/octet-stream;base64,AAEC") {
        BufferUri::Embedded(d) => assert_eq!(d.decode(), Ok(vec![0, 1, 2])),
        _ => panic!("an octet stream is embedded"),
    }
    assert!(matches!(classify_buffer_uri(b"data:application/gltf-buffer,xyz"), BufferUri::Embedded(_)));
    assert!(matches!(classify_buffer_uri(b"data:image/png;base64,AAEC"), BufferUri::Unsupported));
    assert!(matches!(classify_buffer_uri(b"model.bin"), BufferUri::External));
}

#[test]
fn buffer_uris_are_percent_decoded_first() {
    match buffer_uri("data:application/octet-stream,%41%42%zz") {
        BufferUri::Embedded(d) => assert_eq!(d.decode(), Ok(b"AB%zz".to_vec())),
        _ => panic!("an octet stream is embedded"),
    }
    assert!(matches!(buffer_uri("data%3Aimage/png,x"), BufferUri::Unsupported));
    assert!(matches!(try_buffer_uri("buffers/a%20b.bin"), Some(BufferUri::External)));
    // %FF alone is not UTF-8.
    assert!(try_buffer_uri("data:,%FF").is_none());
}

#[test]
fn client_chunks_are_lit_from_row_255() {
    let chunk = ClientChunk::new(((0, 0, 0), (1, 255, 1)), |c: (i32, i32, i32)| {
        if c.1 < 10 || (c.0 == 1 && c.1 == 200) {
            ClientBlockId::Dirt
        } else {
            ClientBlockId::Air
        }
    });
    assert_eq!(chunk.grid.index((0, 3, 0)).block, ClientBlockId::Dirt);
    assert_eq!(*chunk.light_map.index((0, 255, 0)), LightLevel::new(16, 0, 0));
    assert_eq!(*chunk.light_map.index((0, 10, 0)), LightLevel::new(16, 0, 0));
    assert_eq!(*chunk.light_map.index((0, 9, 0)), LightLevel::dark());
    // Under a block high up, the column stays dark.
    assert_eq!(*chunk.light_map.index((1, 201, 1)), LightLevel::new(16, 0, 0));
    assert_eq!(*chunk.light_map.index((1, 150, 0)), LightLevel::dark());
}

#[test]
fn several_blocks_at_once() {
    let w = flat_world();
    let v = get_many(&w, &vec![(1, 33, 1), (1, 100, 1)]).unwrap();
    assert_eq!(v[0].block, BlockId::Grass);
    assert_eq!(v[1].block, BlockId::Air);
    // The same coordinate twice, a row out of range, an unloaded chunk.
    assert!(get_many(&w, &vec![(1, 33, 1), (1, 33, 1)]).is_none());
    assert!(get_many(&w, &vec![(1, 33, 1), (1, -1, 1)]).is_none());
    assert!(get_many(&w, &vec![(40, 33, 1)]).is_none());
    assert_eq!(get_many(&w, &vec![]).map(|v| v.len()), Some(0));
}

#[test]
fn console_lines_are_split_on_whitespace() {
    match interpret_line("  noclip \t 1  ") {
        ConsoleCommand::Noclip(a) => assert_eq!(a, "1"),
        _ => panic!("noclip with its argument"),
    }
    assert!(matches!(interpret_line("clear"), ConsoleCommand::Clear));
    assert!(matches!(interpret_line("   "), ConsoleCommand::Nothing));
    match interpret_line("fly away") {
        ConsoleCommand::Unknown(a) => assert_eq!(a, "fly"),
        _ => panic!("an unknown command"),
    }
}

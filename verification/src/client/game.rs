//! The game's states and the cursor and menu toggles.

use vstd::prelude::*;

verus! {

/// The states of a game session.
#[derive(Copy, Clone, PartialEq, Eq, Debug, Hash, Structural)]
pub enum ShikataganaiGameState {
    MainMenu,
    PreSimulation,
    Simulation,
    Paused,
}

/// Whether a world is being played (running or paused).
pub fn in_game(current_state: ShikataganaiGameState) -> (r: bool)
    ensures
        r == (current_state == ShikataganaiGameState::Simulation || current_state
            == ShikataganaiGameState::Paused),
{
    match current_state {
        ShikataganaiGameState::Simulation | ShikataganaiGameState::Paused => true,
        _ => false,
    }
}

/// How the cursor is shown.
#[derive(Copy, Clone, PartialEq, Eq, Debug, Structural)]
pub struct CursorState {
    pub locked: bool,
    pub visible: bool,
}

/// Whether the main menu is open.
#[derive(Copy, Clone, PartialEq, Eq, Debug, Structural)]
pub struct MainMenuOpened(pub bool);

/// Whether the debug console is open.
#[derive(Copy, Clone, PartialEq, Eq, Debug, Structural)]
pub struct ConsoleMenuOpened(pub bool);

impl Default for ConsoleMenuOpened {
    /// The console starts closed.
    fn default() -> (r: Self)
        ensures
            !r.0,
    {
        ConsoleMenuOpened(false)
    }
}

/// Escape pressed: the main menu opens or closes. Closing it locks and hides
/// the cursor; opening it frees and shows the cursor.
pub fn cursor_grab_toggle(main_menu_opened: &mut MainMenuOpened) -> (r: CursorState)
    ensures
        final(main_menu_opened).0 == !old(main_menu_opened).0,
        r.locked == old(main_menu_opened).0,
        r.visible == !old(main_menu_opened).0,
{
    let was_open = main_menu_opened.0;
    main_menu_opened.0 = !was_open;
    if was_open {
        CursorState { locked: true, visible: false }
    } else {
        CursorState { locked: false, visible: true }
    }
}

/// The console key pressed: the console opens or closes. Closing it locks and
/// hides the cursor; opening it frees and shows the cursor.
pub fn open_close_console(debug_menu_opened: &mut ConsoleMenuOpened) -> (r: CursorState)
    ensures
        final(debug_menu_opened).0 == !old(debug_menu_opened).0,
        r.locked == old(debug_menu_opened).0,
        r.visible == !old(debug_menu_opened).0,
{
    let was_open = debug_menu_opened.0;
    debug_menu_opened.0 = !was_open;
    CursorState { locked: was_open, visible: !was_open }
}

/// The block the player points at, and the cell in front of the face pointed at.
#[derive(Copy, Clone, Debug)]
pub struct Selection {
    pub cube: (i32, i32, i32),
    pub face: (i32, i32, i32),
}

/// The render plugins of the client.
#[derive(Copy, Clone, PartialEq, Eq, Debug, Structural)]
pub enum RendererPlugin {
    /// Draws chunks of cubes.
    VoxelRenderer,
    /// Draws blocks shown as meshes.
    MeshRenderer,
    /// Draws inventory tiles off screen.
    OffscreenInventoryAuxRenderer,
}

/// The group of the client's render plugins.
pub struct ShikataganaiRendererPlugins;

impl ShikataganaiRendererPlugins {
    /// The plugins of the group, in the order they are added.
    pub fn build(&self) -> (r: Vec<RendererPlugin>)
        ensures
            r@ == seq![
                RendererPlugin::VoxelRenderer,
                RendererPlugin::MeshRenderer,
                RendererPlugin::OffscreenInventoryAuxRenderer,
            ],
    {
        let mut r: Vec<RendererPlugin> = Vec::new();
        r.push(RendererPlugin::VoxelRenderer);
        r.push(RendererPlugin::MeshRenderer);
        r.push(RendererPlugin::OffscreenInventoryAuxRenderer);
        assert(r@ =~= seq![
            RendererPlugin::VoxelRenderer,
            RendererPlugin::MeshRenderer,
            RendererPlugin::OffscreenInventoryAuxRenderer,
        ]);
        r
    }
}

} // verus!

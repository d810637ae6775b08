//! Client-side logic: sprites, legacy block kinds, the player's hot bar and
//! inventory, game states, console commands, chunk meshing and embedded mesh data.

pub mod sprites;
pub mod block;
pub mod blocks;
pub mod player;
pub mod game;
pub mod location;
pub mod console;
pub mod mesh;
pub mod data_uri;
pub mod accessor;
pub mod chunk;

//! Shared game logic of a voxel sandbox: coordinates, bounded 2D/3D arrays,
//! blocks, chunks, the world, and light propagation.

pub mod coords;
pub mod array;
pub mod blocks;
pub mod light;
pub mod chunk;
pub mod store;
pub mod world;
pub mod server;
pub mod players;
pub mod transfer;
pub mod networking;
pub mod recipes;
pub mod client;

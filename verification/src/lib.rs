//! The puzzle core of mirr/orb: level decoding, the board and its pieces, the
//! board transforms, the beam engine, the game state with its history, and
//! the surface that the mouse drives.

pub mod enums;
pub mod grid;
pub mod transform;
pub mod beam;
pub mod mirror;
mod rng;
pub mod codec;
pub mod scene;
pub mod game_state;
pub mod ui;
pub mod hud;
pub mod game;
pub mod audit;
pub mod component_render_tilemap;
pub mod support;

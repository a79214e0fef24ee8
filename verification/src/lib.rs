//! Verified core of a small 2D pixel-art game engine: the sprite-sheet
//! ("Fer") binary format and the Aseprite chunk decoder, atlas packing,
//! the component storage of the ECS, input state, tile grids and the
//! integer parts of the render state.

pub mod aseprite;
pub mod audio;
pub mod common;
pub mod ecs;
pub mod game;
pub mod graphics;

//! Game logic of a Bomberman clone: the tile map, bombs and chained explosions, map generation,
//! timers, controls, animation bookkeeping and enemy decisions. Rendering, sound, input devices
//! and everything else that needs a window live in the application crate.

pub mod constants;
pub mod timer;
pub mod world_entities;
pub mod position;
pub mod map_tile;
pub mod map;
pub mod rng;
pub mod controls;
pub mod tilesets;
pub mod animation;
pub mod enemy;
pub mod death;
pub mod game_play_timer;
pub mod bonuses;
pub mod character;
pub mod bomb;
pub mod map_tile_marker;
pub mod sound;

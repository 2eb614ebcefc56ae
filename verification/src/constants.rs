use vstd::prelude::*;

verus! {

/// Width of the map in tiles, border included.
pub const TOTAL_MAP_WIDTH: usize = 19;

/// Height of the map in tiles, border included.
pub const TOTAL_MAP_HEIGHT: usize = 15;

/// Number of tiles of the map.
pub const TOTAL_MAP_TILES: usize = 285;

/// Numerator and denominator of the share of the free tiles that become destructible walls.
pub const WALL_DENSITY_NUMERATOR: usize = 1;
pub const WALL_DENSITY_DENOMINATOR: usize = 2;

/// Fuse of a placed bomb, in nanoseconds.
pub const BOMB_DURATION_NANOS: u64 = 4_500_000_000;

/// How long the flames of an explosion stay on a tile, in nanoseconds.
pub const BOMB_EXPLOSION_DURATION_NANOS: u64 = 1_000_000_000;

/// How long a destructible wall takes to crumble, in nanoseconds.
pub const WALL_BREAK_DURATION_NANOS: u64 = 1_000_000_000;

pub const ZOMBIES_SPAWNED: usize = 4;
pub const GHOSTS_SPAWNED: usize = 2;
pub const HOODIES_SPAWNED: usize = 2;

} // verus!

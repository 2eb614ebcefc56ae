use vstd::prelude::*;

use crate::constants::BOMB_DURATION_NANOS;
use crate::map::{specials_kept, no_bomb_on_border, on_border, spec_pos_to_index, WorldMap, WorldMapView};
use crate::map_tile::{BaseTile, BombOrExplosionTile, BombTile, MapTileView};
use crate::position::TilePosition;
use crate::tilesets::{BombExplosionTileType, MapTileType};
use crate::timer::{fresh_timer, tick_spec, Timer, TimerMode, TimerView};
use crate::world_entities::{BombCount, BombRange, ExplosionOrientation, ExplosionVariant};

verus! {

/// How many steps the pulsing of a bomb has over its fuse.
pub const BOMB_TICKS: u32 = 6;

/// How many steps the animation of flames has over their lifetime.
pub const EXPLOSION_TICKS: u32 = 9;

/// The step of an animation of `max_ticks` steps spread evenly over the run of a timer: the
/// elapsed share of the duration, times `max_ticks`, rounded down and kept below `max_ticks`.
/// A timer of zero duration counts as run out.
pub open spec fn spec_timer_tick(t: TimerView, max_ticks: u32) -> u32 {
    if t.duration == 0 {
        (max_ticks - 1) as u32
    } else {
        let step = (max_ticks * t.elapsed) as nat / t.duration;
        if step < max_ticks - 1 {
            step as u32
        } else {
            (max_ticks - 1) as u32
        }
    }
}

/// The step of an animation of `max_ticks` steps spread evenly over the run of `timer`.
pub fn timer_tick(timer: &Timer, max_ticks: u32) -> (tick: u32)
    requires
        max_ticks > 0,
    ensures
        tick == spec_timer_tick(timer@, max_ticks),
{
    let duration = timer.duration_nanos();
    if duration == 0 {
        return max_ticks - 1;
    }
    let elapsed = timer.elapsed_nanos() as u128;
    proof {
        vstd::arithmetic::mul::lemma_mul_upper_bound(
            max_ticks as int,
            u32::MAX as int,
            elapsed as int,
            u64::MAX as int,
        );
    }
    let step = (max_ticks as u128) * elapsed / (duration as u128);
    if step < (max_ticks - 1) as u128 {
        step as u32
    } else {
        max_ticks - 1
    }
}

/// The clock of the flames drawn on one tile.
#[derive(Debug, Clone, Copy, PartialEq, Eq)]
pub struct ExplosionTiming {
    timer: Timer,
    max_ticks: u32,
}

/// The mathematical state of an [`ExplosionTiming`].
pub struct ExplosionTimingView {
    pub timer: TimerView,
    pub max_ticks: u32,
}

impl View for ExplosionTiming {
    type V = ExplosionTimingView;

    closed spec fn view(&self) -> ExplosionTimingView {
        ExplosionTimingView { timer: self.timer@, max_ticks: self.max_ticks }
    }
}

impl ExplosionTiming {
    /// Flames that last `duration_ns` nanoseconds, animated in `max_ticks` steps.
    pub fn new(duration_ns: u64, max_ticks: u32) -> (t: Self)
        ensures
            t@ == (ExplosionTimingView {
                timer: fresh_timer(duration_ns as nat, TimerMode::Once),
                max_ticks,
            }),
    {
        ExplosionTiming { timer: Timer::new(duration_ns, TimerMode::Once), max_ticks }
    }

    /// Lets `delta_ns` nanoseconds pass.
    pub fn update(&mut self, delta_ns: u64)
        ensures
            final(self)@ == (ExplosionTimingView {
                timer: tick_spec(old(self)@.timer, delta_ns as nat),
                ..old(self)@
            }),
    {
        self.timer.tick(delta_ns);
    }

    /// The current step of the animation.
    pub fn current_tick(&self) -> (tick: u32)
        requires
            self@.max_ticks > 0,
        ensures
            tick == spec_timer_tick(self@.timer, self@.max_ticks),
    {
        timer_tick(&self.timer, self.max_ticks)
    }

    /// Whether the flames burnt out.
    pub fn is_finished(&self) -> (b: bool)
        ensures
            b == self@.timer.finished,
    {
        self.timer.is_finished()
    }
}

/// The four pictures the flames cycle through.
#[derive(Debug, Clone, Copy, PartialEq, Eq, Structural)]
pub enum AnimationStep {
    V1,
    V2,
    V3,
    V4,
}

/// The picture for a step of the flames: the first two steps show the first two pictures,
/// then the last two alternate.
pub open spec fn spec_animation_step(tick: u32) -> AnimationStep {
    if tick == 0 {
        AnimationStep::V1
    } else if tick == 1 {
        AnimationStep::V2
    } else if tick % 2 == 0 {
        AnimationStep::V3
    } else {
        AnimationStep::V4
    }
}

impl AnimationStep {
    /// The picture the flames show now.
    pub fn from_tick(timing: &ExplosionTiming) -> (s: Self)
        requires
            timing@.max_ticks > 0,
        ensures
            s == spec_animation_step(spec_timer_tick(timing@.timer, timing@.max_ticks)),
    {
        let tick = timing.current_tick();
        if tick == 0 {
            AnimationStep::V1
        } else if tick == 1 {
            AnimationStep::V2
        } else if tick % 2 == 0 {
            AnimationStep::V3
        } else {
            AnimationStep::V4
        }
    }
}

/// The sprite of the flames of a shape at a picture of the animation.
pub open spec fn spec_asset_variant(step: AnimationStep, variant: ExplosionVariant) -> BombExplosionTileType {
    match (step, variant) {
        (AnimationStep::V1, ExplosionVariant::Center) => BombExplosionTileType::ExplosionCenter1,
        (AnimationStep::V2, ExplosionVariant::Center) => BombExplosionTileType::ExplosionCenter2,
        (AnimationStep::V3, ExplosionVariant::Center) => BombExplosionTileType::ExplosionCenter3,
        (AnimationStep::V4, ExplosionVariant::Center) => BombExplosionTileType::ExplosionCenter4,
        (AnimationStep::V1, ExplosionVariant::Straight(_)) => BombExplosionTileType::ExplosionStraight1,
        (AnimationStep::V2, ExplosionVariant::Straight(_)) => BombExplosionTileType::ExplosionStraight2,
        (AnimationStep::V3, ExplosionVariant::Straight(_)) => BombExplosionTileType::ExplosionStraight3,
        (AnimationStep::V4, ExplosionVariant::Straight(_)) => BombExplosionTileType::ExplosionStraight4,
        (AnimationStep::V1, ExplosionVariant::End(_)) => BombExplosionTileType::ExplosionEnd1,
        (AnimationStep::V2, ExplosionVariant::End(_)) => BombExplosionTileType::ExplosionEnd2,
        (AnimationStep::V3, ExplosionVariant::End(_)) => BombExplosionTileType::ExplosionEnd3,
        (AnimationStep::V4, ExplosionVariant::End(_)) => BombExplosionTileType::ExplosionEnd4,
    }
}

/// The sprite of the flames of a shape at a picture of the animation.
pub fn get_asset_variant(anim_step: AnimationStep, variant: ExplosionVariant) -> (t: BombExplosionTileType)
    ensures
        t == spec_asset_variant(anim_step, variant),
{
    match (anim_step, variant) {
        (AnimationStep::V1, ExplosionVariant::Center) => BombExplosionTileType::ExplosionCenter1,
        (AnimationStep::V2, ExplosionVariant::Center) => BombExplosionTileType::ExplosionCenter2,
        (AnimationStep::V3, ExplosionVariant::Center) => BombExplosionTileType::ExplosionCenter3,
        (AnimationStep::V4, ExplosionVariant::Center) => BombExplosionTileType::ExplosionCenter4,
        (AnimationStep::V1, ExplosionVariant::Straight(_)) => BombExplosionTileType::ExplosionStraight1,
        (AnimationStep::V2, ExplosionVariant::Straight(_)) => BombExplosionTileType::ExplosionStraight2,
        (AnimationStep::V3, ExplosionVariant::Straight(_)) => BombExplosionTileType::ExplosionStraight3,
        (AnimationStep::V4, ExplosionVariant::Straight(_)) => BombExplosionTileType::ExplosionStraight4,
        (AnimationStep::V1, ExplosionVariant::End(_)) => BombExplosionTileType::ExplosionEnd1,
        (AnimationStep::V2, ExplosionVariant::End(_)) => BombExplosionTileType::ExplosionEnd2,
        (AnimationStep::V3, ExplosionVariant::End(_)) => BombExplosionTileType::ExplosionEnd3,
        (AnimationStep::V4, ExplosionVariant::End(_)) => BombExplosionTileType::ExplosionEnd4,
    }
}

/// The first sprite of the flames of a shape, shown before the animation starts.
pub fn explosion_variant_to_tile_type(variant: ExplosionVariant) -> (t: BombExplosionTileType)
    ensures
        t == spec_asset_variant(AnimationStep::V1, variant),
{
    match variant {
        ExplosionVariant::Center => BombExplosionTileType::ExplosionCenter1,
        ExplosionVariant::Straight(_) => BombExplosionTileType::ExplosionStraight1,
        ExplosionVariant::End(_) => BombExplosionTileType::ExplosionEnd1,
    }
}

/// The way the sprite of flames of a shape is turned: the rays by their direction, the
/// center as if it pointed up.
pub fn explosion_orientation(variant: ExplosionVariant) -> (o: ExplosionOrientation)
    ensures
        o == (match variant {
            ExplosionVariant::Straight(d) => d,
            ExplosionVariant::End(d) => d,
            ExplosionVariant::Center => ExplosionOrientation::Up,
        }),
{
    match variant {
        ExplosionVariant::Straight(o) => o,
        ExplosionVariant::End(o) => o,
        ExplosionVariant::Center => ExplosionOrientation::Up,
    }
}

/// How big a ticking bomb is drawn.
#[derive(Debug, Clone, Copy, PartialEq, Eq, Structural)]
pub enum BombScale {
    Shrunk,
    Normal,
    Swollen,
}

/// A bomb pulses with its fuse: normal and shrunk in turn, swollen in the last step.
pub open spec fn spec_bomb_scale(tick: u32) -> BombScale {
    if tick >= BOMB_TICKS - 1 {
        BombScale::Swollen
    } else if tick % 2 == 0 {
        BombScale::Normal
    } else {
        BombScale::Shrunk
    }
}

/// How big the bomb at `pos` is drawn now; nothing when no bomb lies there.
pub fn animate_bomb(map: &WorldMap, pos: TilePosition) -> (r: Option<BombScale>)
    ensures
        r == (match map@.tile_at(pos) {
            Some(t) => match t.bomb_or_explosion {
                Some(BombOrExplosionTile::Bomb(b)) => Some(spec_bomb_scale(spec_timer_tick(b.timer@, BOMB_TICKS))),
                _ => None,
            },
            None => None,
        }),
{
    proof {
        use_type_invariant(map);
    }
    let tile = match map.get_tile(pos) {
        Some(t) => t,
        None => return None,
    };
    let b = match tile.bomb_or_explosion() {
        Some(b) => b,
        None => return None,
    };
    match b.bomb() {
        Some(bomb) => {
            let tick = timer_tick(&bomb.timer, BOMB_TICKS);
            Some(
                if tick >= BOMB_TICKS - 1 {
                    BombScale::Swollen
                } else if tick % 2 == 0 {
                    BombScale::Normal
                } else {
                    BombScale::Shrunk
                },
            )
        },
        None => None,
    }
}

/// What happens to the drawn wall on a tile.
#[derive(Debug, Clone, Copy, PartialEq, Eq, Structural)]
pub enum WallUpdate {
    /// The wall crumbles: it shows this sprite.
    Fade(MapTileType),
    /// The wall is gone: its entity is removed.
    Remove,
}

/// The sprite of a crumbling wall: four pictures spread evenly over its timer.
pub open spec fn spec_wall_fade(t: TimerView) -> MapTileType {
    let step = if t.duration == 0 {
        4
    } else {
        (4 * t.elapsed) as nat / t.duration
    };
    if step == 0 {
        MapTileType::WallFade1
    } else if step == 1 {
        MapTileType::WallFade2
    } else if step == 2 {
        MapTileType::WallFade3
    } else {
        MapTileType::WallFade4
    }
}

/// What happens to the wall drawn at `pos`: a crumbling wall fades, floor means the wall is
/// gone; any other tile (or a position off the map) keeps its drawing.
pub fn animate_exploding_walls(map: &WorldMap, pos: TilePosition) -> (r: Option<WallUpdate>)
    ensures
        r == (match map@.tile_at(pos) {
            Some(t) => match t.base {
                BaseTile::BreakingWall(timer) => Some(WallUpdate::Fade(spec_wall_fade(timer@))),
                BaseTile::Floor => Some(WallUpdate::Remove),
                _ => None,
            },
            None => None,
        }),
{
    proof {
        use_type_invariant(map);
    }
    let tile = match map.get_tile(pos) {
        Some(t) => t,
        None => return None,
    };
    match tile.base_type() {
        BaseTile::BreakingWall(timer) => {
            let duration = timer.duration_nanos();
            let elapsed = timer.elapsed_nanos();
            let step: u64 = if duration == 0 {
                4
            } else {
                proof {
                    vstd::arithmetic::div_mod::lemma_div_is_ordered(
                        4 * timer@.elapsed as int,
                        4 * duration as int,
                        duration as int,
                    );
                    vstd::arithmetic::div_mod::lemma_div_multiples_vanish(4, duration as int);
                }
                ((4 * (elapsed as u128)) / (duration as u128)) as u64
            };
            let fade = if step == 0 {
                MapTileType::WallFade1
            } else if step == 1 {
                MapTileType::WallFade2
            } else if step == 2 {
                MapTileType::WallFade3
            } else {
                MapTileType::WallFade4
            };
            Some(WallUpdate::Fade(fade))
        },
        BaseTile::Floor => Some(WallUpdate::Remove),
        _ => None,
    }
}

/// Whether the character may drop a bomb on `pos`: the tile is walkable, holds no bomb yet,
/// and the character has a bomb left.
pub open spec fn may_place_bomb(m: WorldMapView, pos: TilePosition, bomb_count: BombCount) -> bool {
    match m.tile_at(pos) {
        Some(t) => t.walkable() && !t.has_bomb() && bomb_count.current < bomb_count.max,
        None => false,
    }
}

/// When the player asks for it, drops a bomb of the character's range on the tile `pos` it
/// stands on, if it may (see `may_place_bomb`) and no flames burn there; the character then
/// has one bomb more on the map. Returns whether a bomb was placed.
pub fn spawn_bomb_when_requested(
    world_map: &mut WorldMap,
    place_bomb: bool,
    bomb_position: TilePosition,
    bomb_range: BombRange,
    bomb_count: &mut BombCount,
) -> (placed: bool)
    ensures
        final(world_map)@.well_formed(),
        specials_kept(old(world_map)@, final(world_map)@),
        placed == (place_bomb && may_place_bomb(old(world_map)@, bomb_position, *old(bomb_count))
            && old(world_map)@.tile_at(bomb_position).unwrap().bomb_or_explosion is None),
        placed ==> ({
            let i = spec_pos_to_index(bomb_position).unwrap() as int;
            &&& final(world_map)@.exit_gate_index == old(world_map)@.exit_gate_index
            &&& final(world_map)@.tiles == old(world_map)@.tiles.update(
                i,
                MapTileView { bomb_or_explosion: final(world_map)@.tiles[i].bomb_or_explosion, ..old(world_map)@.tiles[i] },
            )
            &&& final(world_map)@.tiles[i].bomb_or_explosion matches Some(BombOrExplosionTile::Bomb(bomb))
                && bomb.range == bomb_range.0
                && bomb.timer@ == fresh_timer(BOMB_DURATION_NANOS as nat, TimerMode::Once)
        }),
        placed ==> *final(bomb_count) == (BombCount { current: (old(bomb_count).current + 1) as u32, ..*old(bomb_count) }),
        !placed ==> final(world_map)@ == old(world_map)@ && *final(bomb_count) == *old(bomb_count),
        no_bomb_on_border(old(world_map)@.tiles) ==> no_bomb_on_border(final(world_map)@.tiles),
        old(bomb_count).current <= old(bomb_count).max ==> final(bomb_count).current <= final(bomb_count).max,
{
    proof {
        use_type_invariant(&*world_map);
    }
    if !place_bomb {
        return false;
    }
    let may = match world_map.get_tile(bomb_position) {
        Some(tile) => tile.is_walkable() && match tile.bomb_or_explosion() {
            Some(t) => !t.is_bomb(),
            None => true,
        } && bomb_count.current < bomb_count.max,
        None => false,
    };
    if !may {
        return false;
    }
    let bomb = BombTile { range: bomb_range.0, timer: Timer::new(BOMB_DURATION_NANOS, TimerMode::Once) };
    let added = world_map.try_add_bomb(bomb_position, bomb);
    if added {
        bomb_count.current = bomb_count.current + 1;
        proof {
            let i = spec_pos_to_index(bomb_position).unwrap() as int;
            assert(!on_border(i)) by {
                if on_border(i) {
                    assert(old(world_map)@.tiles[i].base is IndestructibleWall);
                }
            }
            assert forall|j: int| 0 <= j < world_map@.tiles.len() && on_border(j) && no_bomb_on_border(old(world_map)@.tiles)
                implies !(#[trigger] world_map@.tiles[j]).has_bomb() by {
                assert(j != i);
                assert(world_map@.tiles[j] == old(world_map)@.tiles[j]);
            }
        }
    }
    added
}

/// Each bomb of the character that went off gives it one bomb back.
pub fn despawn_exploded_bombs(bomb_count: &mut BombCount, exploded_bombs: u32)
    requires
        exploded_bombs <= old(bomb_count).current,
    ensures
        *final(bomb_count) == (BombCount { current: (old(bomb_count).current - exploded_bombs) as u32, ..*old(bomb_count) }),
{
    bomb_count.current = bomb_count.current - exploded_bombs;
}

} // verus!

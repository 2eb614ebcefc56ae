use vstd::prelude::*;

use crate::timer::{tick_spec, Timer};
use crate::world_entities::BonusType;

verus! {

/// What a tile of the map is made of.
#[derive(Debug, Clone, Copy, PartialEq, Eq)]
pub enum BaseTile {
    Floor,
    BasicWall,
    /// A destructible wall hit by an explosion; it turns to floor when its timer finishes.
    BreakingWall(Timer),
    IndestructibleWall,
}

impl BaseTile {
    pub open spec fn spec_is_walkable(self) -> bool {
        self is Floor
    }

    /// Only floor can be walked on.
    pub fn is_walkable(&self) -> (b: bool)
        ensures
            b == self.spec_is_walkable(),
    {
        match self {
            BaseTile::Floor => true,
            BaseTile::BasicWall => false,
            BaseTile::BreakingWall(_) => false,
            BaseTile::IndestructibleWall => false,
        }
    }
}

/// A placed bomb: its fuse and how far its flames reach.
#[derive(Debug, Clone, Copy, PartialEq, Eq)]
pub struct BombTile {
    pub timer: Timer,
    pub range: u32,
}

/// Flames lingering on a tile until the timer finishes.
#[derive(Debug, Clone, Copy, PartialEq, Eq)]
pub struct ExplosionTile(pub Timer);

#[derive(Debug, Clone, Copy, PartialEq, Eq)]
pub enum BombOrExplosionTile {
    Bomb(BombTile),
    Explosion(ExplosionTile),
}

impl BombOrExplosionTile {
    /// Flames can be walked into; bombs block the way.
    pub fn is_walkable(&self) -> (b: bool)
        ensures
            b == (self is Explosion),
    {
        match self {
            BombOrExplosionTile::Bomb(_) => false,
            BombOrExplosionTile::Explosion(_) => true,
        }
    }

    pub fn is_explosion(&self) -> (b: bool)
        ensures
            b == (self is Explosion),
    {
        match self {
            BombOrExplosionTile::Bomb(_) => false,
            BombOrExplosionTile::Explosion(_) => true,
        }
    }

    pub fn is_bomb(&self) -> (b: bool)
        ensures
            b == (self is Bomb),
    {
        match self {
            BombOrExplosionTile::Bomb(_) => true,
            BombOrExplosionTile::Explosion(_) => false,
        }
    }

    pub fn bomb(&self) -> (r: Option<&BombTile>)
        ensures
            r is Some <==> self is Bomb,
            r matches Some(b) ==> self == BombOrExplosionTile::Bomb(*b),
    {
        match self {
            BombOrExplosionTile::Bomb(bomb) => Some(bomb),
            BombOrExplosionTile::Explosion(_) => None,
        }
    }
}

/// What lies on a tile besides its base: the exit gate or a power-up.
#[derive(Debug, Clone, Copy, PartialEq, Eq, Structural)]
pub enum SpecialTile {
    OpenExit,
    ClosedExit,
    Bonus(BonusType),
}

impl SpecialTile {
    pub fn bonus(&self) -> (r: Option<BonusType>)
        ensures
            r == (match *self {
                SpecialTile::Bonus(b) => Some(b),
                _ => None,
            }),
    {
        match self {
            SpecialTile::Bonus(bonus) => Some(*bonus),
            _ => None,
        }
    }

    pub fn is_open_exit(&self) -> (b: bool)
        ensures
            b == (self is OpenExit),
    {
        match self {
            SpecialTile::OpenExit => true,
            _ => false,
        }
    }
}

/// The three layers of a tile.
pub struct MapTileView {
    pub base: BaseTile,
    pub special: Option<SpecialTile>,
    pub bomb_or_explosion: Option<BombOrExplosionTile>,
}

impl MapTileView {
    pub open spec fn walkable(self) -> bool {
        self.base.spec_is_walkable() && match self.bomb_or_explosion {
            Some(b) => b is Explosion,
            None => true,
        }
    }

    pub open spec fn ai_walkable(self) -> bool {
        self.base.spec_is_walkable() && self.bomb_or_explosion is None
    }

    pub open spec fn has_bomb(self) -> bool {
        self.bomb_or_explosion matches Some(BombOrExplosionTile::Bomb(_))
    }

    pub open spec fn has_explosion(self) -> bool {
        self.bomb_or_explosion matches Some(BombOrExplosionTile::Explosion(_))
    }
}

/// The base after a tick: only a crumbling wall has a timer that runs.
pub open spec fn base_ticked(old: BaseTile, new: BaseTile, delta: nat) -> bool {
    match old {
        BaseTile::BreakingWall(t) => new matches BaseTile::BreakingWall(t2) && t2@ == tick_spec(t@, delta),
        _ => new == old,
    }
}

/// The bomb or the flames after a tick: their timers run, nothing else changes.
pub open spec fn bomb_or_explosion_ticked(
    old: Option<BombOrExplosionTile>,
    new: Option<BombOrExplosionTile>,
    delta: nat,
) -> bool {
    match old {
        None => new is None,
        Some(BombOrExplosionTile::Bomb(b)) => new matches Some(BombOrExplosionTile::Bomb(b2))
            && b2.range == b.range && b2.timer@ == tick_spec(b.timer@, delta),
        Some(BombOrExplosionTile::Explosion(e)) => new matches Some(
            BombOrExplosionTile::Explosion(e2),
        ) && e2.0@ == tick_spec(e.0@, delta),
    }
}

/// A tile after `MapTile::tick`.
pub open spec fn tile_ticked(old: MapTileView, new: MapTileView, delta: nat) -> bool {
    &&& base_ticked(old.base, new.base, delta)
    &&& new.special == old.special
    &&& bomb_or_explosion_ticked(old.bomb_or_explosion, new.bomb_or_explosion, delta)
}

/// A tile after `MapTile::convert_expired_entities`: a crumbled wall became floor and finished
/// flames went out.
pub open spec fn tile_expired_converted(old: MapTileView) -> MapTileView {
    MapTileView {
        base: match old.base {
            BaseTile::BreakingWall(t) => if t@.finished {
                BaseTile::Floor
            } else {
                old.base
            },
            _ => old.base,
        },
        special: old.special,
        bomb_or_explosion: match old.bomb_or_explosion {
            Some(BombOrExplosionTile::Explosion(e)) => if e.0@.finished {
                None
            } else {
                old.bomb_or_explosion
            },
            _ => old.bomb_or_explosion,
        },
    }
}

/// A tile after its power-up (if any) was taken away.
pub open spec fn tile_without_bonus(old: MapTileView) -> MapTileView {
    MapTileView {
        special: match old.special {
            Some(SpecialTile::Bonus(_)) => None,
            _ => old.special,
        },
        ..old
    }
}

/// One tile of the map.
#[derive(Debug, Clone, Copy, PartialEq, Eq)]
pub struct MapTile {
    base_type: BaseTile,
    special: Option<SpecialTile>,
    bomb_or_explosion: Option<BombOrExplosionTile>,
}

impl View for MapTile {
    type V = MapTileView;

    closed spec fn view(&self) -> MapTileView {
        MapTileView {
            base: self.base_type,
            special: self.special,
            bomb_or_explosion: self.bomb_or_explosion,
        }
    }
}

impl MapTile {
    pub fn new(base_type: BaseTile, special: Option<SpecialTile>) -> (t: MapTile)
        ensures
            t@ == (MapTileView { base: base_type, special, bomb_or_explosion: None }),
    {
        MapTile { base_type, special, bomb_or_explosion: None }
    }

    pub fn base_type(&self) -> (b: &BaseTile)
        ensures
            *b == self@.base,
    {
        &self.base_type
    }

    pub fn bomb_or_explosion(&self) -> (r: Option<&BombOrExplosionTile>)
        ensures
            r is Some <==> self@.bomb_or_explosion is Some,
            r matches Some(b) ==> self@.bomb_or_explosion == Some(*b),
    {
        match &self.bomb_or_explosion {
            Some(b) => Some(b),
            None => None,
        }
    }

    pub fn special(&self) -> (r: Option<&SpecialTile>)
        ensures
            r is Some <==> self@.special is Some,
            r matches Some(s) ==> self@.special == Some(*s),
    {
        match &self.special {
            Some(s) => Some(s),
            None => None,
        }
    }

    /// A character can stand on floor unless a bomb lies there.
    pub fn is_walkable(&self) -> (b: bool)
        ensures
            b == self@.walkable(),
    {
        self.base_type.is_walkable() && match &self.bomb_or_explosion {
            Some(v) => v.is_walkable(),
            None => true,
        }
    }

    /// Enemies only walk on floor with neither a bomb nor flames.
    pub fn is_ai_walkable(&self) -> (b: bool)
        ensures
            b == self@.ai_walkable(),
    {
        self.base_type.is_walkable() && self.bomb_or_explosion.is_none()
    }

    /// Advances the timers of a crumbling wall, a bomb and flames by `delta_ns` nanoseconds.
    pub fn tick(&mut self, delta_ns: u64)
        ensures
            tile_ticked(old(self)@, final(self)@, delta_ns as nat),
    {
        if let BaseTile::BreakingWall(timer) = self.base_type {
            let mut timer = timer;
            timer.tick(delta_ns);
            self.base_type = BaseTile::BreakingWall(timer);
        }
        match self.bomb_or_explosion {
            Some(BombOrExplosionTile::Bomb(bomb)) => {
                let mut bomb = bomb;
                bomb.timer.tick(delta_ns);
                self.bomb_or_explosion = Some(BombOrExplosionTile::Bomb(bomb));
            },
            Some(BombOrExplosionTile::Explosion(explosion)) => {
                let mut timer = explosion.0;
                timer.tick(delta_ns);
                self.bomb_or_explosion = Some(BombOrExplosionTile::Explosion(ExplosionTile(timer)));
            },
            None => {},
        }
    }

    /// Converts expired breaking walls to floors and clears explosions that have finished.
    /// Bombs are handled by `WorldMap::explode_bombs`, since they can chain explode.
    pub fn convert_expired_entities(&mut self)
        ensures
            final(self)@ == tile_expired_converted(old(self)@),
    {
        if let BaseTile::BreakingWall(timer) = self.base_type {
            if timer.is_finished() {
                self.base_type = BaseTile::Floor;
            }
        }
        if let Some(BombOrExplosionTile::Explosion(explosion)) = self.bomb_or_explosion {
            if explosion.0.is_finished() {
                self.bomb_or_explosion = None;
            }
        }
    }

    /// Takes the power-up away from the tile and returns it, if there is one.
    pub fn remove_bonus(&mut self) -> (r: Option<BonusType>)
        ensures
            final(self)@ == tile_without_bonus(old(self)@),
            r == (match old(self)@.special {
                Some(SpecialTile::Bonus(b)) => Some(b),
                _ => None,
            }),
    {
        if let Some(SpecialTile::Bonus(bonus)) = self.special {
            self.special = None;
            Some(bonus)
        } else {
            None
        }
    }

    /// Places a bomb unless a bomb or flames already occupy the tile.
    pub fn try_add_bomb(&mut self, bomb_tile: BombTile) -> (added: bool)
        ensures
            added == (old(self)@.bomb_or_explosion is None),
            added ==> final(self)@ == (MapTileView {
                bomb_or_explosion: Some(BombOrExplosionTile::Bomb(bomb_tile)),
                ..old(self)@
            }),
            !added ==> final(self)@ == old(self)@,
    {
        match self.bomb_or_explosion {
            Some(BombOrExplosionTile::Bomb(_)) => false,
            Some(BombOrExplosionTile::Explosion(_)) => false,
            None => {
                self.bomb_or_explosion = Some(BombOrExplosionTile::Bomb(bomb_tile));
                true
            },
        }
    }

    /// Sets flames on the tile, replacing a bomb or older flames.
    pub fn set_explosion(&mut self, explosion_tile: ExplosionTile)
        ensures
            final(self)@ == (MapTileView {
                bomb_or_explosion: Some(BombOrExplosionTile::Explosion(explosion_tile)),
                ..old(self)@
            }),
    {
        self.bomb_or_explosion = Some(BombOrExplosionTile::Explosion(explosion_tile));
    }

    /// Starts crumbling a destructible wall; any other base is left as it is.
    pub fn break_wall(&mut self, timer: Timer)
        ensures
            final(self)@ == (if old(self)@.base is BasicWall {
                MapTileView { base: BaseTile::BreakingWall(timer), ..old(self)@ }
            } else {
                old(self)@
            }),
    {
        if let BaseTile::BasicWall = self.base_type {
            self.base_type = BaseTile::BreakingWall(timer);
        }
    }

    /// Opens a closed exit gate; any other tile is left as it is.
    pub fn open_exit(&mut self)
        ensures
            final(self)@ == (if old(self)@.special == Some(SpecialTile::ClosedExit) {
                MapTileView { special: Some(SpecialTile::OpenExit), ..old(self)@ }
            } else {
                old(self)@
            }),
    {
        if let Some(SpecialTile::ClosedExit) = self.special {
            self.special = Some(SpecialTile::OpenExit);
        }
    }
}

} // verus!

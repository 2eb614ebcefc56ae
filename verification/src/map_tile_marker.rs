use vstd::prelude::*;

use crate::world_entities::BonusType;

verus! {

/// What a marked tile is made of.
#[derive(Debug, Clone, Copy, PartialEq, Eq, Structural)]
pub enum MarkerBase {
    IndestructibleWall,
    BasicWall,
    Floor,
}

/// The mathematical state of a [`MapTileMarker`].
pub struct MapTileMarkerView {
    pub base: MarkerBase,
    pub has_bomb: bool,
    pub has_explosion: bool,
    pub has_exit: bool,
    pub bonus: Option<BonusType>,
}

impl MapTileMarkerView {
    /// A unit may enter floor without a bomb.
    pub open spec fn walkable(self) -> bool {
        self.base == MarkerBase::Floor && !self.has_bomb
    }

    /// Bombs only stand on floor; flames never burn on indestructible walls.
    pub open spec fn well_formed(self) -> bool {
        &&& self.has_bomb ==> self.base == MarkerBase::Floor
        &&& self.has_explosion ==> self.base != MarkerBase::IndestructibleWall
    }
}

/// A summary of one tile for collision checks: its base, whether a bomb, flames or the exit
/// are on it, and the power-up hidden there.
#[derive(Debug, Clone, Copy, PartialEq, Eq)]
pub struct MapTileMarker {
    base: MarkerBase,
    has_bomb: bool,
    has_explosion: bool,
    has_exit: bool,
    bonus: Option<BonusType>,
}

impl View for MapTileMarker {
    type V = MapTileMarkerView;

    closed spec fn view(&self) -> MapTileMarkerView {
        MapTileMarkerView {
            base: self.base,
            has_bomb: self.has_bomb,
            has_explosion: self.has_explosion,
            has_exit: self.has_exit,
            bonus: self.bonus,
        }
    }
}

/// A bare tile of the given base.
pub open spec fn spec_marker(base: MarkerBase) -> MapTileMarkerView {
    MapTileMarkerView { base, has_bomb: false, has_explosion: false, has_exit: false, bonus: None }
}

impl MapTileMarker {
    /// A bare tile of the given base: no bomb, flames, exit or power-up.
    pub fn new(base: MarkerBase) -> (m: Self)
        ensures
            m@ == spec_marker(base),
            m@.well_formed(),
    {
        MapTileMarker { base, has_bomb: false, has_explosion: false, has_exit: false, bonus: None }
    }

    pub fn floor() -> (m: Self)
        ensures
            m@ == spec_marker(MarkerBase::Floor),
    {
        MapTileMarker::new(MarkerBase::Floor)
    }

    pub fn basic_wall() -> (m: Self)
        ensures
            m@ == spec_marker(MarkerBase::BasicWall),
    {
        MapTileMarker::new(MarkerBase::BasicWall)
    }

    pub fn indestructible_wall() -> (m: Self)
        ensures
            m@ == spec_marker(MarkerBase::IndestructibleWall),
    {
        MapTileMarker::new(MarkerBase::IndestructibleWall)
    }

    pub fn is_floor(&self) -> (b: bool)
        ensures
            b == (self@.base == MarkerBase::Floor),
    {
        self.base == MarkerBase::Floor
    }

    pub fn is_basic_wall(&self) -> (b: bool)
        ensures
            b == (self@.base == MarkerBase::BasicWall),
    {
        self.base == MarkerBase::BasicWall
    }

    /// A destructible wall becomes floor; any other base stays.
    pub fn remove_wall(&mut self) -> (r: &mut Self)
        ensures
            r@ == (if old(self)@.base == MarkerBase::BasicWall {
                MapTileMarkerView { base: MarkerBase::Floor, ..old(self)@ }
            } else {
                old(self)@
            }),
            final(self)@ == final(r)@,
            old(self)@.well_formed() ==> r@.well_formed(),
    {
        if self.base == MarkerBase::BasicWall {
            self.base = MarkerBase::Floor;
        }
        self
    }

    /// The same tile, holding the exit.
    pub fn with_exit(self) -> (m: Self)
        ensures
            m@ == (MapTileMarkerView { has_exit: true, ..self@ }),
            self@.well_formed() ==> m@.well_formed(),
    {
        let mut m = self;
        m.has_exit = true;
        m
    }

    /// The same tile, hiding `bonus`.
    pub fn with_bonus(self, bonus: BonusType) -> (m: Self)
        ensures
            m@ == (MapTileMarkerView { bonus: Some(bonus), ..self@ }),
            self@.well_formed() ==> m@.well_formed(),
    {
        let mut m = self;
        m.bonus = Some(bonus);
        m
    }

    /// Takes the power-up away.
    pub fn clear_bonus(&mut self) -> (r: &mut Self)
        ensures
            r@ == (MapTileMarkerView { bonus: None, ..old(self)@ }),
            final(self)@ == final(r)@,
            old(self)@.well_formed() ==> r@.well_formed(),
    {
        self.bonus = None;
        self
    }

    /// A unit may enter floor without a bomb.
    pub fn is_walkable(&self) -> (b: bool)
        ensures
            b == self@.walkable(),
    {
        self.base == MarkerBase::Floor && !self.has_bomb
    }

    pub fn is_obstacle(&self) -> (b: bool)
        ensures
            b == !self@.walkable(),
    {
        !self.is_walkable()
    }

    /// Enemies also keep away from flames.
    pub fn is_ai_walkable(&self) -> (b: bool)
        ensures
            b == (self@.walkable() && !self@.has_explosion),
    {
        self.is_walkable() && !self.has_explosion
    }

    pub fn tile_base(&self) -> (b: MarkerBase)
        ensures
            b == self@.base,
    {
        self.base
    }

    pub fn has_bomb(&self) -> (b: bool)
        ensures
            b == self@.has_bomb,
    {
        self.has_bomb
    }

    /// Puts a bomb on the tile (only floor takes one) or takes it away.
    pub fn set_bomb(&mut self, bomb: bool) -> (r: &mut Self)
        ensures
            r@ == (if bomb {
                if old(self)@.base == MarkerBase::Floor {
                    MapTileMarkerView { has_bomb: true, ..old(self)@ }
                } else {
                    old(self)@
                }
            } else {
                MapTileMarkerView { has_bomb: false, ..old(self)@ }
            }),
            final(self)@ == final(r)@,
            old(self)@.well_formed() ==> r@.well_formed(),
    {
        if bomb {
            if self.base == MarkerBase::Floor {
                self.has_bomb = true;
            }
        } else {
            self.has_bomb = false;
        }
        self
    }

    pub fn has_explosion(&self) -> (b: bool)
        ensures
            b == self@.has_explosion,
    {
        self.has_explosion
    }

    /// Sets flames on the tile (never on an indestructible wall) or puts them out.
    pub fn set_explosion(&mut self, explosion: bool) -> (r: &mut Self)
        ensures
            r@ == (if explosion {
                if old(self)@.base != MarkerBase::IndestructibleWall {
                    MapTileMarkerView { has_explosion: true, ..old(self)@ }
                } else {
                    old(self)@
                }
            } else {
                MapTileMarkerView { has_explosion: false, ..old(self)@ }
            }),
            final(self)@ == final(r)@,
            old(self)@.well_formed() ==> r@.well_formed(),
    {
        if explosion {
            if self.base != MarkerBase::IndestructibleWall {
                self.has_explosion = true;
            }
        } else {
            self.has_explosion = false;
        }
        self
    }
}

} // verus!

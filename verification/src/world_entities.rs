use vstd::prelude::*;

verus! {

/// One of the four directions of movement on the grid. `Up` is towards larger `y`.
#[derive(Debug, Clone, Copy, PartialEq, Eq, Structural, Hash)]
pub enum Direction {
    Up,
    Down,
    Left,
    Right,
}

/// The power-ups that can be hidden under destructible walls.
#[derive(Debug, Clone, Copy, PartialEq, Eq, Structural, Hash)]
pub enum BonusType {
    Range,
    BombCount,
    Negative,
    ExtraLife,
    Hook,
    BombKick,
    Detonator,
    Turbo,
    LineBomb,
    DoubleBomb,
    Max,
}

/// The direction in which a ray of an explosion travels.
#[derive(Debug, Clone, Copy, PartialEq, Eq, Structural, Hash)]
pub enum ExplosionOrientation {
    Up,
    Down,
    Left,
    Right,
}

/// The shape of the flames drawn on one tile of an explosion.
#[derive(Debug, Clone, Copy, PartialEq, Eq, Structural, Hash)]
pub enum ExplosionVariant {
    Center,
    Straight(ExplosionOrientation),
    End(ExplosionOrientation),
}

/// How far the flames of the bombs of a character reach.
#[derive(Debug, Clone, Copy, PartialEq, Eq, Structural, Hash)]
pub struct BombRange(pub u32);

impl Default for BombRange {
    /// A character starts with flames that reach one tile.
    fn default() -> (r: BombRange)
        ensures
            r.0 == 1,
    {
        BombRange(1)
    }
}

/// How many bombs a character has on the map and how many it may have at once.
#[derive(Debug, Clone, Copy, PartialEq, Eq, Structural, Hash)]
pub struct BombCount {
    pub current: u32,
    pub max: u32,
}

impl Default for BombCount {
    /// A character starts with no bomb placed and may place one at a time.
    fn default() -> (r: BombCount)
        ensures
            r.current == 0,
            r.max == 1,
    {
        BombCount { current: 0, max: 1 }
    }
}

} // verus!

use vstd::prelude::*;

use rand::rngs::StdRng;

use crate::map::{specials_kept, bonus_removed, WorldMap, WorldMapView};
use crate::map_tile::SpecialTile;
use crate::position::TilePosition;
use crate::rng::random_ratio;
use crate::world_entities::{BombCount, BombRange, BonusType};

verus! {

/// What a negative power-up does: it slows the character down, or it speeds the enemies up.
#[derive(Debug, Clone, Copy, PartialEq, Eq, Structural)]
pub enum NegativeEffect {
    SlowCharacter,
    SpeedUpEnemies,
}

/// The power-up lying on the tile at `pos`, if any.
pub open spec fn bonus_at(m: WorldMapView, pos: TilePosition) -> Option<BonusType> {
    match m.tile_at(pos) {
        Some(t) => match t.special {
            Some(SpecialTile::Bonus(b)) => Some(b),
            _ => None,
        },
        None => None,
    }
}

/// Picking up `bonus` keeps the counters within `u32`.
pub open spec fn bonus_fits(bonus: Option<BonusType>, bomb_range: BombRange, bomb_count: BombCount) -> bool {
    &&& bonus == Some(BonusType::Range) ==> bomb_range.0 < u32::MAX
    &&& bonus == Some(BonusType::BombCount) ==> bomb_count.max < u32::MAX
}

/// The counters after picking up `bonus`: the range power-up lengthens the flames, the
/// bomb power-up allows one more bomb at a time; the others leave them.
pub open spec fn spec_bonus_applied(bonus: BonusType, bomb_range: BombRange, bomb_count: BombCount) -> (BombRange, BombCount) {
    match bonus {
        BonusType::Range => (BombRange((bomb_range.0 + 1) as u32), bomb_count),
        BonusType::BombCount => (bomb_range, BombCount { max: (bomb_count.max + 1) as u32, ..bomb_count }),
        _ => (bomb_range, bomb_count),
    }
}

/// The effect of `bonus` besides the counters: only the negative power-up has one, and the
/// coin decides which.
pub open spec fn spec_bonus_effect(bonus: BonusType, slow_character: bool) -> Option<NegativeEffect> {
    if bonus == BonusType::Negative {
        if slow_character {
            Some(NegativeEffect::SlowCharacter)
        } else {
            Some(NegativeEffect::SpeedUpEnemies)
        }
    } else {
        None
    }
}

/// Applies a picked-up power-up to the counters of the character; `slow_character` is the
/// coin that decides what a negative power-up does.
pub fn apply_bonus(
    bonus: BonusType,
    bomb_range: &mut BombRange,
    bomb_count: &mut BombCount,
    slow_character: bool,
) -> (effect: Option<NegativeEffect>)
    requires
        bonus_fits(Some(bonus), *old(bomb_range), *old(bomb_count)),
    ensures
        (*final(bomb_range), *final(bomb_count)) == spec_bonus_applied(bonus, *old(bomb_range), *old(bomb_count)),
        effect == spec_bonus_effect(bonus, slow_character),
        bonus == BonusType::Range ==> final(bomb_range).0 == old(bomb_range).0 + 1,
        bonus == BonusType::BombCount ==> final(bomb_count).max == old(bomb_count).max + 1,
        bonus != BonusType::Range ==> *final(bomb_range) == *old(bomb_range),
{
    match bonus {
        BonusType::Range => {
            bomb_range.0 = bomb_range.0 + 1;
            None
        },
        BonusType::BombCount => {
            bomb_count.max = bomb_count.max + 1;
            None
        },
        BonusType::Negative => if slow_character {
            Some(NegativeEffect::SlowCharacter)
        } else {
            Some(NegativeEffect::SpeedUpEnemies)
        },
        _ => None,
    }
}

/// The character picks up the power-up lying at `bonus_pos`, if there is one: it leaves the
/// map and takes effect; a negative power-up flips a fair coin. Returns the power-up and its
/// effect besides the counters.
pub fn pick_up_bonus(
    map: &mut WorldMap,
    bonus_pos: TilePosition,
    bomb_range: &mut BombRange,
    bomb_count: &mut BombCount,
    rng: &mut StdRng,
) -> (r: Option<(BonusType, Option<NegativeEffect>)>)
    requires
        bonus_fits(bonus_at(old(map)@, bonus_pos), *old(bomb_range), *old(bomb_count)),
    ensures
        final(map)@.well_formed(),
        specials_kept(old(map)@, final(map)@),
        final(map)@ == bonus_removed(old(map)@, bonus_pos),
        match bonus_at(old(map)@, bonus_pos) {
            Some(b) => exists|slow_character: bool|
                {
                    &&& (*final(bomb_range), *final(bomb_count)) == spec_bonus_applied(b, *old(bomb_range), *old(bomb_count))
                    &&& r == Some((b, spec_bonus_effect(b, slow_character)))
                },
            None => r is None && *final(bomb_range) == *old(bomb_range) && *final(bomb_count) == *old(bomb_count),
        },
{
    proof {
        use_type_invariant(&*map);
    }
    let bonus = map.remove_bonus(bonus_pos);
    match bonus {
        Some(b) => {
            let slow_character = if b == BonusType::Negative {
                random_ratio(rng, 1, 2)
            } else {
                false
            };
            let effect = apply_bonus(b, bomb_range, bomb_count, slow_character);
            Some((b, effect))
        },
        None => None,
    }
}

/// A power-up can be picked up only once: after it was taken, none lies on its tile.
pub proof fn lemma_bonus_taken_once(m: WorldMapView, pos: TilePosition)
    requires
        m.well_formed(),
    ensures
        bonus_at(bonus_removed(m, pos), pos) is None,
        bonus_removed(m, pos).well_formed(),
{
}

/// What a power-up does to the counters: a range power-up lengthens the flames by exactly one
/// tile and a bomb power-up allows exactly one more bomb at a time, whatever the counters were
/// (below their limit); every other power-up leaves both counters, and only the negative one
/// has an effect besides them, decided by the coin.
pub proof fn lemma_bonus_changes_counters(
    bonus: BonusType,
    bomb_range: BombRange,
    bomb_count: BombCount,
    slow_character: bool,
)
    requires
        bonus_fits(Some(bonus), bomb_range, bomb_count),
    ensures
        ({
            let (range, count) = spec_bonus_applied(bonus, bomb_range, bomb_count);
            &&& bonus == BonusType::Range ==> range.0 == bomb_range.0 + 1 && count == bomb_count
            &&& bonus == BonusType::BombCount ==> range == bomb_range && count.max == bomb_count.max + 1
                && count.current == bomb_count.current
            &&& bonus != BonusType::Range && bonus != BonusType::BombCount ==> range == bomb_range
                && count == bomb_count
        }),
        spec_bonus_effect(bonus, slow_character) is Some <==> bonus == BonusType::Negative,
        spec_bonus_effect(BonusType::Negative, true) != spec_bonus_effect(BonusType::Negative, false),
{
}

} // verus!

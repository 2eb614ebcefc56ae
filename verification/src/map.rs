use vstd::prelude::*;

use crate::constants::{TOTAL_MAP_HEIGHT, TOTAL_MAP_TILES, TOTAL_MAP_WIDTH};
use crate::map::explosion::{
    chain_round, exploded, fresh_flames, bomb_range, broken, finished_bomb, flamed, safe_center, tile_after, explosion_order, explosion_visuals,
    ExplosionVisual,
};
use crate::map_tile::{
    BombOrExplosionTile, tile_expired_converted, tile_ticked, tile_without_bonus, BombTile, BaseTile, MapTile,
    MapTileView, SpecialTile,
};
use crate::position::TilePosition;
use crate::tilesets::PowerUpTileType;
use crate::timer::tick_spec;
use crate::world_entities::BonusType;

pub mod explosion;
pub mod generation;
pub mod neighbours;

verus! {

/// Whether the tile with this index lies on the outer ring of the map.
pub open spec fn on_border(index: int) -> bool {
    ||| index % (TOTAL_MAP_WIDTH as int) == 0
    ||| index % (TOTAL_MAP_WIDTH as int) == TOTAL_MAP_WIDTH - 1
    ||| index / (TOTAL_MAP_WIDTH as int) == 0
    ||| index / (TOTAL_MAP_WIDTH as int) == TOTAL_MAP_HEIGHT - 1
}

/// The index of a tile position in the row-major tile vector, if the position lies on the map.
pub open spec fn spec_pos_to_index(pos: TilePosition) -> Option<nat> {
    if pos.x < TOTAL_MAP_WIDTH && pos.y < TOTAL_MAP_HEIGHT {
        Some((pos.y * TOTAL_MAP_WIDTH + pos.x) as nat)
    } else {
        None
    }
}

/// The tile position of an index of the row-major tile vector (coordinates truncated to `u32`).
pub open spec fn spec_index_to_tile_pos(index: int) -> TilePosition {
    TilePosition {
        x: (index % (TOTAL_MAP_WIDTH as int)) as u32,
        y: (index / (TOTAL_MAP_WIDTH as int)) as u32,
    }
}

/// The three tiles next to the spawning location that are always kept free.
pub open spec fn spec_starting_area_indices() -> Seq<usize> {
    seq![
        (TOTAL_MAP_WIDTH * (TOTAL_MAP_HEIGHT - 2) + 1) as usize,
        (TOTAL_MAP_WIDTH * (TOTAL_MAP_HEIGHT - 2) + 2) as usize,
        (TOTAL_MAP_WIDTH * (TOTAL_MAP_HEIGHT - 3) + 1) as usize,
    ]
}

/// The sprite that shows a power-up lying on the map.
pub open spec fn spec_map_power_up(bonus: BonusType) -> PowerUpTileType {
    match bonus {
        BonusType::Range => PowerUpTileType::Range,
        BonusType::BombCount => PowerUpTileType::BombCount,
        BonusType::Negative => PowerUpTileType::Negative,
        BonusType::ExtraLife => PowerUpTileType::ExtraLife,
        BonusType::Hook => PowerUpTileType::Hook,
        BonusType::BombKick => PowerUpTileType::BombKick,
        BonusType::Detonator => PowerUpTileType::Detonator,
        BonusType::Turbo => PowerUpTileType::Turbo,
        BonusType::LineBomb => PowerUpTileType::LineBomb,
        BonusType::DoubleBomb => PowerUpTileType::DoubleBomb,
        BonusType::Max => PowerUpTileType::Max,
    }
}

/// The sprite that shows a power-up lying on the map.
pub fn map_power_up(power_up_tile_type: BonusType) -> (r: PowerUpTileType)
    ensures
        r == spec_map_power_up(power_up_tile_type),
{
    match power_up_tile_type {
        BonusType::Range => PowerUpTileType::Range,
        BonusType::BombCount => PowerUpTileType::BombCount,
        BonusType::Negative => PowerUpTileType::Negative,
        BonusType::ExtraLife => PowerUpTileType::ExtraLife,
        BonusType::Hook => PowerUpTileType::Hook,
        BonusType::BombKick => PowerUpTileType::BombKick,
        BonusType::Detonator => PowerUpTileType::Detonator,
        BonusType::Turbo => PowerUpTileType::Turbo,
        BonusType::LineBomb => PowerUpTileType::LineBomb,
        BonusType::DoubleBomb => PowerUpTileType::DoubleBomb,
        BonusType::Max => PowerUpTileType::Max,
    }
}

/// A drawn layer of a tile, as the map is set up.
#[derive(Debug, Clone, Copy, PartialEq, Eq, Structural)]
pub enum TileLayer {
    Floor,
    IndestructibleWall,
    /// A wall that flames can break, drawn over floor.
    DestructibleWall,
    /// The closed gate, drawn over the open one until all enemies are dead.
    ClosedGate,
    OpenGate,
    /// A power-up lying on the tile, with its sprite.
    Bonus(BonusType, PowerUpTileType),
}

/// The layers to draw for a tile, bottom first: floor (or an indestructible wall), then the
/// open gate under the closed one (whether or not the exit is open yet) or the power-up, and a
/// destructible wall over all of them.
pub open spec fn spec_tile_layers(t: MapTileView) -> Seq<TileLayer> {
    let bottom = match t.base {
        BaseTile::IndestructibleWall => seq![TileLayer::IndestructibleWall],
        _ => seq![TileLayer::Floor],
    };
    let special = match t.special {
        Some(SpecialTile::ClosedExit) => seq![TileLayer::OpenGate, TileLayer::ClosedGate],
        Some(SpecialTile::OpenExit) => seq![TileLayer::OpenGate, TileLayer::ClosedGate],
        Some(SpecialTile::Bonus(b)) => seq![TileLayer::Bonus(b, spec_map_power_up(b))],
        None => Seq::empty(),
    };
    let top = match t.base {
        BaseTile::BasicWall => seq![TileLayer::DestructibleWall],
        BaseTile::BreakingWall(_) => seq![TileLayer::DestructibleWall],
        _ => Seq::empty(),
    };
    bottom + special + top
}

/// The layers to draw for a tile when the map is set up (see `spec_tile_layers`).
pub fn tile_layers(tile: &MapTile) -> (r: Vec<TileLayer>)
    ensures
        r@ == spec_tile_layers(tile@),
{
    let mut r: Vec<TileLayer> = Vec::new();
    match tile.base_type() {
        BaseTile::IndestructibleWall => r.push(TileLayer::IndestructibleWall),
        _ => r.push(TileLayer::Floor),
    }
    match tile.special() {
        Some(SpecialTile::ClosedExit) => {
            r.push(TileLayer::OpenGate);
            r.push(TileLayer::ClosedGate);
        },
        Some(SpecialTile::OpenExit) => {
            r.push(TileLayer::OpenGate);
            r.push(TileLayer::ClosedGate);
        },
        Some(SpecialTile::Bonus(b)) => r.push(TileLayer::Bonus(*b, map_power_up(*b))),
        None => {},
    }
    match tile.base_type() {
        BaseTile::BasicWall => r.push(TileLayer::DestructibleWall),
        BaseTile::BreakingWall(_) => r.push(TileLayer::DestructibleWall),
        _ => {},
    }
    assert(r@ =~= spec_tile_layers(tile@));
    r
}

/// The map once its exit gate is open.
pub open spec fn exit_opened(m: WorldMapView) -> WorldMapView {
    WorldMapView {
        tiles: m.tiles.update(
            m.exit_gate_index as int,
            MapTileView { special: Some(SpecialTile::OpenExit), ..m.tiles[m.exit_gate_index as int] },
        ),
        ..m
    }
}

/// The position of the exit gate if it is open.
pub open spec fn spec_open_exit_position(m: WorldMapView) -> Option<TilePosition> {
    if m.tiles[m.exit_gate_index as int].special == Some(SpecialTile::OpenExit) {
        Some(spec_index_to_tile_pos(m.exit_gate_index as int))
    } else {
        None
    }
}

/// Whether a special is the exit gate, closed or open.
pub open spec fn is_gate(s: Option<SpecialTile>) -> bool {
    s == Some(SpecialTile::ClosedExit) || s == Some(SpecialTile::OpenExit)
}

/// Only the exit gate's tile holds a gate.
pub open spec fn gate_only_at_exit(m: WorldMapView) -> bool {
    forall|j: int| 0 <= j < m.tiles.len() && #[trigger] is_gate(m.tiles[j].special) ==> j == m.exit_gate_index
}

/// Every tile keeps its special as it was (the exit gate among them), but for a power-up that
/// may be taken away; the map keeps its size and its exit gate's tile.
pub open spec fn specials_kept(old: WorldMapView, new: WorldMapView) -> bool {
    &&& new.tiles.len() == old.tiles.len()
    &&& new.exit_gate_index == old.exit_gate_index
    &&& forall|j: int|
        0 <= j < old.tiles.len() ==> (#[trigger] new.tiles[j]).special == old.tiles[j].special
            || new.tiles[j].special == tile_without_bonus(old.tiles[j]).special
}

/// The map once the power-up at `pos` (if any) was taken away.
pub open spec fn bonus_removed(m: WorldMapView, pos: TilePosition) -> WorldMapView {
    match spec_pos_to_index(pos) {
        Some(i) => WorldMapView {
            tiles: m.tiles.update(i as int, tile_without_bonus(m.tiles[i as int])),
            ..m
        },
        None => m,
    }
}

/// No bomb lies on the outer ring of the map.
pub open spec fn no_bomb_on_border(ts: Seq<MapTileView>) -> bool {
    forall|j: int| 0 <= j < ts.len() && on_border(j) ==> !(#[trigger] ts[j]).has_bomb()
}

/// No bomb in the bottom or the top row whose flames reach past its tile goes off within
/// `delta` more nanoseconds: the rays of such a bomb would be traced off the map.
pub open spec fn no_row_detonation(ts: Seq<MapTileView>, delta: nat) -> bool {
    forall|j: int|
        0 <= j < ts.len() && !(TOTAL_MAP_WIDTH <= j < TOTAL_MAP_TILES - TOTAL_MAP_WIDTH) ==> match (
        #[trigger] ts[j]).bomb_or_explosion {
            Some(BombOrExplosionTile::Bomb(b)) => b.range == 0 || !tick_spec(b.timer@, delta).finished,
            _ => true,
        }
}

/// One step of the game on the tiles: `old` ticked by `delta` nanoseconds gives `ticked`, its
/// bombs explode into `blown`, whose crumbled walls and burnt-out flames are cleared in `new`;
/// `visuals` are the flames that the explosions drew.
pub open spec fn map_tick_step(
    old: Seq<MapTileView>,
    ticked: Seq<MapTileView>,
    blown: Seq<MapTileView>,
    new: Seq<MapTileView>,
    delta: nat,
    visuals: Seq<ExplosionVisual>,
) -> bool {
    &&& ticked.len() == old.len()
    &&& blown.len() == old.len()
    &&& new.len() == old.len()
    &&& forall|j: int| 0 <= j < old.len() ==> tile_ticked(#[trigger] old[j], ticked[j], delta)
    &&& forall|j: int|
        0 <= j < old.len() ==> tile_after(
            #[trigger] ticked[j],
            blown[j],
            flamed(ticked, j),
            broken(ticked, j),
        )
    &&& forall|j: int| 0 <= j < old.len() ==> #[trigger] new[j] == tile_expired_converted(blown[j])
    &&& visuals == explosion_visuals(ticked)
    &&& explosion_order(ticked).no_duplicates()
    &&& forall|c: int| #[trigger] explosion_order(ticked).contains(c) <==> exploded(ticked, c)
}

/// The mathematical state of the map: the tiles in row-major order (bottom row first) and the
/// index of the tile that holds the exit gate.
pub struct WorldMapView {
    pub exit_gate_index: nat,
    pub tiles: Seq<MapTileView>,
}

impl WorldMapView {
    /// Every map has all its tiles, an indestructible outer ring and the exit gate on its tile.
    pub open spec fn well_formed(self) -> bool {
        &&& self.tiles.len() == TOTAL_MAP_TILES
        &&& forall|i: int|
            0 <= i < self.tiles.len() && on_border(i) ==> (#[trigger] self.tiles[i]).base is IndestructibleWall
        &&& self.exit_gate_index < self.tiles.len()
        &&& (self.tiles[self.exit_gate_index as int].special == Some(SpecialTile::ClosedExit)
            || self.tiles[self.exit_gate_index as int].special == Some(SpecialTile::OpenExit))
    }

    pub open spec fn tile_at(self, pos: TilePosition) -> Option<MapTileView> {
        match spec_pos_to_index(pos) {
            Some(i) => Some(self.tiles[i as int]),
            None => None,
        }
    }

    /// The positions of the tiles among the first `n` that an enemy may walk on and that are
    /// not in the starting area, in order of their index.
    pub open spec fn empty_non_starting_upto(self, n: nat) -> Seq<TilePosition>
        decreases n,
    {
        if n == 0 {
            Seq::empty()
        } else {
            let rest = self.empty_non_starting_upto((n - 1) as nat);
            let i = n - 1;
            if self.tiles[i].ai_walkable() && !spec_starting_area_indices().contains(i as usize) {
                rest.push(spec_index_to_tile_pos(i))
            } else {
                rest
            }
        }
    }
}

/// The tile map of a level.
#[derive(Debug)]
pub struct WorldMap {
    exit_gate_index: usize,
    tiles: Vec<MapTile>,
}

impl View for WorldMap {
    type V = WorldMapView;

    closed spec fn view(&self) -> WorldMapView {
        WorldMapView { exit_gate_index: self.exit_gate_index as nat, tiles: tile_views(self.tiles@) }
    }
}

impl Clone for WorldMap {
    /// A copy of the map, tile for tile.
    fn clone(&self) -> (r: WorldMap)
        ensures
            r@ == self@,
    {
        proof {
            use_type_invariant(self);
        }
        let mut tiles: Vec<MapTile> = Vec::new();
        let mut i: usize = 0;
        while i < self.tiles.len()
            invariant
                i <= self.tiles.len(),
                tiles@ == self.tiles@.subrange(0, i as int),
            decreases self.tiles.len() - i,
        {
            tiles.push(self.tiles[i]);
            i = i + 1;
            assert(tiles@ =~= self.tiles@.subrange(0, i as int));
        }
        assert(tiles@ =~= self.tiles@);
        WorldMap { exit_gate_index: self.exit_gate_index, tiles }
    }
}

/// Writes `tile` at index `i`; it cannot unwind, so the map that owns the tiles can rely on
/// its layout right after the write.
fn set_tile(tiles: &mut Vec<MapTile>, i: usize, tile: MapTile)
    requires
        i < old(tiles).len(),
    ensures
        final(tiles)@ == old(tiles)@.update(i as int, tile),
    no_unwind
{
    tiles[i] = tile;
}

/// The views of a sequence of tiles.
spec fn tile_views(tiles: Seq<MapTile>) -> Seq<MapTileView> {
    tiles.map_values(|t: MapTile| t@)
}

impl WorldMap {
    /// Every map keeps all its tiles, its indestructible outer ring and its exit gate.
    #[verifier::type_invariant]
    pub(crate) open spec fn keeps_layout(self) -> bool {
        self@.well_formed()
    }

    pub(crate) fn pos_to_index(pos: TilePosition) -> (r: Option<usize>)
        ensures
            r matches Some(i) ==> spec_pos_to_index(pos) == Some(i as nat),
            r is None ==> spec_pos_to_index(pos) is None,
    {
        let pos_x = pos.x as usize;
        let pos_y = pos.y as usize;
        if pos_x >= TOTAL_MAP_WIDTH || pos_y >= TOTAL_MAP_HEIGHT {
            return None;
        }
        Some(pos_y * TOTAL_MAP_WIDTH + pos_x)
    }

    /// The tile at a position, if the position lies on the map.
    pub fn get_tile(&self, pos: TilePosition) -> (r: Option<&MapTile>)
        ensures
            r is Some <==> spec_pos_to_index(pos) is Some,
            r matches Some(t) ==> self@.tile_at(pos) == Some(t@),
    {
        proof {
            use_type_invariant(self);
        }
        match WorldMap::pos_to_index(pos) {
            Some(i) => Some(&self.tiles[i]),
            None => None,
        }
    }

    pub fn index_to_tile_pos(index: usize) -> (p: TilePosition)
        ensures
            p == spec_index_to_tile_pos(index as int),
    {
        TilePosition { x: (index % TOTAL_MAP_WIDTH) as u32, y: (index / TOTAL_MAP_WIDTH) as u32 }
    }

    /// Where the character starts: next to the top-left corner.
    pub open spec fn spec_spawning_location() -> TilePosition {
        TilePosition { x: 1, y: (TOTAL_MAP_HEIGHT - 2) as u32 }
    }

    /// The character always starts next to the top-left corner.
    pub fn get_player_spawning_location() -> (p: TilePosition)
        ensures
            p == WorldMap::spec_spawning_location(),
    {
        TilePosition { x: 1, y: (TOTAL_MAP_HEIGHT - 2) as u32 }
    }

    /// All tiles with their positions, in order of their index.
    pub fn iter(&self) -> (r: Vec<(TilePosition, &MapTile)>)
        ensures
            r.len() == self@.tiles.len(),
            forall|i: int|
                0 <= i < r.len() ==> (#[trigger] r[i]).0 == spec_index_to_tile_pos(i) && r[i].1@
                    == self@.tiles[i],
    {
        let mut r: Vec<(TilePosition, &MapTile)> = Vec::new();
        let mut i: usize = 0;
        while i < self.tiles.len()
            invariant
                i <= self.tiles.len(),
                r.len() == i,
                forall|j: int|
                    0 <= j < i ==> (#[trigger] r[j]).0 == spec_index_to_tile_pos(j) && r[j].1@
                        == self@.tiles[j],
            decreases self.tiles.len() - i,
        {
            r.push((WorldMap::index_to_tile_pos(i), &self.tiles[i]));
            i = i + 1;
        }
        r
    }

    /// The positions of the tiles where an enemy may be placed: walkable for enemies and
    /// outside of the starting area, in order of their index.
    pub fn iter_empty_non_starting_tiles(&self) -> (r: Vec<TilePosition>)
        ensures
            r@ == self@.empty_non_starting_upto(self@.tiles.len()),
    {
        let starting_area_indices = WorldMap::get_starting_area_indices();
        let mut r: Vec<TilePosition> = Vec::new();
        let mut i: usize = 0;
        while i < self.tiles.len()
            invariant
                i <= self.tiles.len(),
                starting_area_indices@ == spec_starting_area_indices(),
                r@ == self@.empty_non_starting_upto(i as nat),
            decreases self.tiles.len() - i,
        {
            let in_start = i == starting_area_indices[0] || i == starting_area_indices[1] || i
                == starting_area_indices[2];
            proof {
                assert(spec_starting_area_indices().contains(i) <==> in_start) by {
                    if in_start {
                        if i == starting_area_indices[0] {
                            assert(spec_starting_area_indices()[0] == i);
                        } else if i == starting_area_indices[1] {
                            assert(spec_starting_area_indices()[1] == i);
                        } else {
                            assert(spec_starting_area_indices()[2] == i);
                        }
                    }
                }
            }
            if self.tiles[i].is_ai_walkable() && !in_start {
                r.push(WorldMap::index_to_tile_pos(i));
            }
            i = i + 1;
        }
        r
    }

    /// Advances the timers of every tile by `delta_ns` nanoseconds.
    pub fn process_tick(&mut self, delta_ns: u64)
        ensures
            final(self)@.well_formed(),
            specials_kept(old(self)@, final(self)@),
            final(self)@.exit_gate_index == old(self)@.exit_gate_index,
            final(self)@.tiles.len() == old(self)@.tiles.len(),
            forall|i: int|
                0 <= i < old(self)@.tiles.len() ==> tile_ticked(
                    #[trigger] old(self)@.tiles[i],
                    final(self)@.tiles[i],
                    delta_ns as nat,
                ),
    {
        proof {
            use_type_invariant(&*self);
        }
        let mut i: usize = 0;
        while i < self.tiles.len()
            invariant
                old(self)@.well_formed(),
                self@.well_formed(),
                i <= self.tiles.len(),
                self@.exit_gate_index == old(self)@.exit_gate_index,
                self@.tiles.len() == old(self)@.tiles.len(),
                forall|j: int|
                    0 <= j < i ==> tile_ticked(
                        #[trigger] old(self)@.tiles[j],
                        self@.tiles[j],
                        delta_ns as nat,
                    ),
                forall|j: int| i <= j < self@.tiles.len() ==> #[trigger] self@.tiles[j] == old(self)@.tiles[j],
            decreases self.tiles.len() - i,
        {
            let ghost prev = self@;
            let mut tile = self.tiles[i];
            assert(tile@ == prev.tiles[i as int]);
            tile.tick(delta_ns);
            self.replace_tile(i, tile);
            proof {
                assert(tile_ticked(old(self)@.tiles[i as int], self@.tiles[i as int], delta_ns as nat));
                assert forall|j: int| 0 <= j < self@.tiles.len() && on_border(j) implies (#[trigger] self@.tiles[j]).base is IndestructibleWall by {
                    if j == i {
                        assert(prev.tiles[j].base is IndestructibleWall);
                    }
                }
            }
            i = i + 1;
        }
    }

    /// Replaces the tile with index `i` by one that keeps the outer ring and the exit gate.
    fn replace_tile(&mut self, i: usize, tile: MapTile)
        requires
            i < old(self)@.tiles.len(),
            on_border(i as int) ==> tile@.base is IndestructibleWall,
            i == old(self)@.exit_gate_index ==> (tile@.special == Some(SpecialTile::ClosedExit)
                || tile@.special == Some(SpecialTile::OpenExit)),
        ensures
            final(self).tiles@.len() == old(self).tiles@.len(),
            final(self)@ == (WorldMapView {
                tiles: old(self)@.tiles.update(i as int, tile@),
                ..old(self)@
            }),
    {
        proof {
            use_type_invariant(&*self);
            let new_tiles = old(self)@.tiles.update(i as int, tile@);
            assert(tile_views(self.tiles@.update(i as int, tile)) =~= new_tiles);
            assert forall|k: int| 0 <= k < new_tiles.len() && on_border(k) implies (
            #[trigger] new_tiles[k]).base is IndestructibleWall by {
                if k != i {
                    assert(old(self)@.tiles[k].base is IndestructibleWall);
                }
            }
        }
        set_tile(&mut self.tiles, i, tile);
        assert(self@.tiles =~= old(self)@.tiles.update(i as int, tile@));
    }

    /// Takes the power-up away from the tile at `pos` and returns it, if there is one.
    pub fn remove_bonus(&mut self, pos: TilePosition) -> (r: Option<BonusType>)
        ensures
            final(self)@.well_formed(),
            specials_kept(old(self)@, final(self)@),
            final(self)@ == bonus_removed(old(self)@, pos),
            r == (match spec_pos_to_index(pos) {
                Some(i) => match old(self)@.tiles[i as int].special {
                    Some(SpecialTile::Bonus(b)) => Some(b),
                    _ => None,
                },
                None => None,
            }),
    {
        proof {
            use_type_invariant(&*self);
        }
        if let Some(i) = WorldMap::pos_to_index(pos) {
            let mut tile = self.tiles[i];
            assert(tile@ == old(self)@.tiles[i as int]);
            let r = tile.remove_bonus();
            self.replace_tile(i, tile);
            assert(self@.tiles[self@.exit_gate_index as int].special == old(self)@.tiles[self@.exit_gate_index as int].special);
            r
        } else {
            None
        }
    }

    /// Places a bomb on the tile at `pos`, unless the position is off the map or a bomb or
    /// flames already occupy the tile.
    pub fn try_add_bomb(&mut self, pos: TilePosition, bomb_tile: BombTile) -> (added: bool)
        ensures
            final(self)@.well_formed(),
            specials_kept(old(self)@, final(self)@),
            added == (match spec_pos_to_index(pos) {
                Some(i) => old(self)@.tiles[i as int].bomb_or_explosion is None,
                None => false,
            }),
            added ==> final(self)@ == (WorldMapView {
                tiles: old(self)@.tiles.update(
                    spec_pos_to_index(pos).unwrap() as int,
                    MapTileView {
                        bomb_or_explosion: Some(crate::map_tile::BombOrExplosionTile::Bomb(bomb_tile)),
                        ..old(self)@.tiles[spec_pos_to_index(pos).unwrap() as int]
                    },
                ),
                ..old(self)@
            }),
            !added ==> final(self)@ == old(self)@,
    {
        proof {
            use_type_invariant(&*self);
        }
        if let Some(i) = WorldMap::pos_to_index(pos) {
            let mut tile = self.tiles[i];
            assert(tile@ == old(self)@.tiles[i as int]);
            let added = tile.try_add_bomb(bomb_tile);
            if added {
                self.replace_tile(i, tile);
            }
            added
        } else {
            false
        }
    }

    /// Opens the exit gate.
    pub fn open_exit(&mut self)
        ensures
            final(self)@.well_formed(),
            final(self)@ == exit_opened(old(self)@),
    {
        proof {
            use_type_invariant(&*self);
        }
        let i = self.exit_gate_index;
        let mut tile = self.tiles[i];
        assert(tile@ == old(self)@.tiles[i as int]);
        tile.open_exit();
        self.replace_tile(i, tile);
    }

    /// Whether the bomb drawn at `pos` is gone from the map (exploded into flames or cleared),
    /// so that its entity can be removed. A position off the map keeps its entity.
    pub fn bomb_entity_outdated(&self, pos: TilePosition) -> (b: bool)
        ensures
            b == (match self@.tile_at(pos) {
                Some(t) => !t.has_bomb(),
                None => false,
            }),
    {
        proof {
            use_type_invariant(self);
        }
        match self.get_tile(pos) {
            Some(tile) => match tile.bomb_or_explosion() {
                Some(v) => v.is_explosion(),
                None => true,
            },
            None => false,
        }
    }

    /// Whether the power-up drawn at `pos` is gone from the map (picked up or burnt), so that
    /// its entity can be removed. A position off the map keeps its entity.
    pub fn bonus_entity_outdated(&self, pos: TilePosition) -> (b: bool)
        ensures
            b == (match self@.tile_at(pos) {
                Some(t) => t.special is None,
                None => false,
            }),
    {
        proof {
            use_type_invariant(self);
        }
        match self.get_tile(pos) {
            Some(tile) => tile.special().is_none(),
            None => false,
        }
    }

    /// Whether ticking the map by `delta_ns` nanoseconds keeps the flames on the map (the
    /// condition of `process_map_in_tick`).
    pub fn explosions_stay_on_map(&self, delta_ns: u64) -> (b: bool)
        ensures
            b == no_row_detonation(self@.tiles, delta_ns as nat),
    {
        proof {
            use_type_invariant(self);
        }
        let mut i: usize = 0;
        while i < self.tiles.len()
            invariant
                self@.well_formed(),
                i <= self.tiles.len(),
                forall|j: int|
                    0 <= j < i && !(TOTAL_MAP_WIDTH <= j < TOTAL_MAP_TILES - TOTAL_MAP_WIDTH) ==> match (
                    #[trigger] self@.tiles[j]).bomb_or_explosion {
                        Some(BombOrExplosionTile::Bomb(b)) => b.range == 0 || !tick_spec(b.timer@, delta_ns as nat).finished,
                        _ => true,
                    },
            decreases self.tiles.len() - i,
        {
            if i < TOTAL_MAP_WIDTH || i >= TOTAL_MAP_TILES - TOTAL_MAP_WIDTH {
                let tile = &self.tiles[i];
                assert(tile@ == self@.tiles[i as int]);
                if let Some(b) = tile.bomb_or_explosion() {
                    if let Some(bomb) = b.bomb() {
                        let mut fuse = bomb.timer;
                        fuse.tick(delta_ns);
                        if bomb.range > 0 && fuse.is_finished() {
                            return false;
                        }
                    }
                }
            }
            i = i + 1;
        }
        true
    }

    /// Turns crumbled walls into floor and clears burnt-out flames on every tile.
    pub fn convert_expired_entities(&mut self)
        ensures
            final(self)@.well_formed(),
            specials_kept(old(self)@, final(self)@),
            final(self)@.exit_gate_index == old(self)@.exit_gate_index,
            final(self)@.tiles == old(self)@.tiles.map_values(|t: MapTileView| tile_expired_converted(t)),
    {
        proof {
            use_type_invariant(&*self);
        }
        let mut i: usize = 0;
        while i < self.tiles.len()
            invariant
                old(self)@.well_formed(),
                i <= self.tiles.len(),
                self@.exit_gate_index == old(self)@.exit_gate_index,
                self@.tiles.len() == old(self)@.tiles.len(),
                self.tiles@.len() == old(self)@.tiles.len(),
                forall|j: int| 0 <= j < i ==> #[trigger] self@.tiles[j] == tile_expired_converted(old(self)@.tiles[j]),
                forall|j: int| i <= j < self@.tiles.len() ==> #[trigger] self@.tiles[j] == old(self)@.tiles[j],
            decreases self.tiles.len() - i,
        {
            let ghost prev = self@;
            let mut tile = self.tiles[i];
            assert(tile@ == prev.tiles[i as int]);
            tile.convert_expired_entities();
            self.replace_tile(i, tile);
            i = i + 1;
        }
        assert(self@.tiles =~= old(self)@.tiles.map_values(|t: MapTileView| tile_expired_converted(t)));
    }

    /// One step of the game on the map: advances every timer by `delta_ns` nanoseconds,
    /// explodes the bombs whose fuse finished (and those their flames reach), then clears
    /// crumbled walls and burnt-out flames. Returns the flames to draw.
    pub fn process_map_in_tick(&mut self, delta_ns: u64) -> (visuals: Vec<ExplosionVisual>)
        requires
            no_row_detonation(old(self)@.tiles, delta_ns as nat),
        ensures
            final(self)@.well_formed(),
            specials_kept(old(self)@, final(self)@),
            no_bomb_on_border(old(self)@.tiles) ==> no_bomb_on_border(final(self)@.tiles),
            final(self)@.exit_gate_index == old(self)@.exit_gate_index,
            exists|ticked: Seq<MapTileView>, blown: Seq<MapTileView>|
                map_tick_step(old(self)@.tiles, ticked, blown, final(self)@.tiles, delta_ns as nat, visuals@),
    {
        proof {
            use_type_invariant(&*self);
        }
        let ghost start = self@.tiles;
        self.process_tick(delta_ns);
        let ghost ticked = self@.tiles;
        proof {
            assert forall|j: int| 0 <= j < ticked.len() && #[trigger] finished_bomb(ticked[j]) implies safe_center(j, bomb_range(ticked[j])) by {
                assert(tile_ticked(start[j], ticked[j], delta_ns as nat));
                assert(start[j].has_bomb());
            }
            assert forall|j: int| 0 <= j < ticked.len() && on_border(j) && no_bomb_on_border(start) implies !(
            #[trigger] ticked[j]).has_bomb() by {
                assert(tile_ticked(start[j], ticked[j], delta_ns as nat));
            }
        }
        let visuals = self.explode_bombs();
        let ghost blown = self@.tiles;
        self.convert_expired_entities();
        proof {
            let new = self@.tiles;
            assert forall|j: int| 0 <= j < new.len() && on_border(j) && no_bomb_on_border(start) implies !(
            #[trigger] new[j]).has_bomb() by {
                assert(tile_after(ticked[j], blown[j], flamed(ticked, j), broken(ticked, j)));
                assert(new[j] == tile_expired_converted(blown[j]));
            }
            assert(map_tick_step(start, ticked, blown, new, delta_ns as nat, visuals@));
        }
        visuals
    }

    /// The position of the exit gate once it is open.
    pub fn open_exit_position(&self) -> (r: Option<TilePosition>)
        ensures
            r == spec_open_exit_position(self@),
    {
        proof {
            use_type_invariant(self);
        }
        let tile = &self.tiles[self.exit_gate_index];
        match tile.special() {
            Some(s) => if s.is_open_exit() {
                Some(WorldMap::index_to_tile_pos(self.exit_gate_index))
            } else {
                None
            },
            None => None,
        }
    }
}

/// A position on the map and its index in the tile vector determine each other: the index of
/// a position leads back to it, and the position of an index on the map leads back to it.
pub proof fn lemma_position_index_roundtrip(pos: TilePosition, index: int)
    ensures
        spec_pos_to_index(pos) matches Some(i) ==> spec_index_to_tile_pos(i as int) == pos,
        0 <= index < TOTAL_MAP_TILES ==> spec_pos_to_index(spec_index_to_tile_pos(index)) == Some(
            index as nat,
        ),
{
    if spec_pos_to_index(pos) is Some {
        vstd::arithmetic::div_mod::lemma_fundamental_div_mod_converse(
            pos.y * TOTAL_MAP_WIDTH + pos.x,
            TOTAL_MAP_WIDTH as int,
            pos.y as int,
            pos.x as int,
        );
    }
    if 0 <= index < TOTAL_MAP_TILES {
        vstd::arithmetic::div_mod::lemma_fundamental_div_mod(index, TOTAL_MAP_WIDTH as int);
    }
}

/// The exit gate, once open, shows at its position; the map keeps its invariant, and a second
/// opening changes nothing.
pub proof fn lemma_open_exit_reveals_gate(m: WorldMapView)
    requires
        m.well_formed(),
    ensures
        exit_opened(m).well_formed(),
        spec_open_exit_position(exit_opened(m)) == Some(spec_index_to_tile_pos(m.exit_gate_index as int)),
        exit_opened(exit_opened(m)) == exit_opened(m),
{
    assert(exit_opened(exit_opened(m)).tiles =~= exit_opened(m).tiles);
}

/// Taking a power-up or opening the exit never puts a bomb on the outer ring.
pub proof fn lemma_map_edits_keep_bombs_off_border(m: WorldMapView, pos: TilePosition)
    requires
        m.well_formed(),
        no_bomb_on_border(m.tiles),
    ensures
        no_bomb_on_border(bonus_removed(m, pos).tiles),
        no_bomb_on_border(exit_opened(m).tiles),
{
    assert forall|j: int| 0 <= j < bonus_removed(m, pos).tiles.len() && on_border(j) implies !(
    #[trigger] bonus_removed(m, pos).tiles[j]).has_bomb() by {
        assert(!m.tiles[j].has_bomb());
    }
    assert forall|j: int| 0 <= j < exit_opened(m).tiles.len() && on_border(j) implies !(
    #[trigger] exit_opened(m).tiles[j]).has_bomb() by {
        assert(!m.tiles[j].has_bomb());
    }
}

/// A bomb whose fuse ran out during a tick never survives it, and neither does a bomb that
/// the flames of an exploding bomb reach: flames burn on their tiles at the end of the tick.
pub proof fn lemma_finished_bombs_go_off(
    old: Seq<MapTileView>,
    ticked: Seq<MapTileView>,
    blown: Seq<MapTileView>,
    new: Seq<MapTileView>,
    delta: nat,
    visuals: Seq<ExplosionVisual>,
)
    requires
        map_tick_step(old, ticked, blown, new, delta, visuals),
    ensures
        forall|j: int| 0 <= j < old.len() && #[trigger] finished_bomb(ticked[j]) ==> exploded(ticked, j),
        forall|j: int| 0 <= j < old.len() && #[trigger] exploded(ticked, j) ==> new[j].has_explosion(),
{
    assert forall|j: int| 0 <= j < old.len() && #[trigger] finished_bomb(ticked[j]) implies exploded(ticked, j) by {
        assert(chain_round(ticked, 0).contains(j));
    }
    assert forall|j: int| 0 <= j < old.len() && #[trigger] exploded(ticked, j) implies new[j].has_explosion() by {
        assert(flamed(ticked, j));
        assert(tile_after(ticked[j], blown[j], flamed(ticked, j), broken(ticked, j)));
        assert(fresh_flames(blown[j].bomb_or_explosion));
        assert(new[j] == tile_expired_converted(blown[j]));
    }
}

/// Indestructible walls and the exit gate stay as they are through a tick: explosions neither
/// break the one nor burn the other.
pub proof fn lemma_tick_keeps_walls_and_gate(
    old: Seq<MapTileView>,
    ticked: Seq<MapTileView>,
    blown: Seq<MapTileView>,
    new: Seq<MapTileView>,
    delta: nat,
    visuals: Seq<ExplosionVisual>,
)
    requires
        map_tick_step(old, ticked, blown, new, delta, visuals),
    ensures
        forall|j: int|
            0 <= j < old.len() && (#[trigger] old[j]).base is IndestructibleWall ==> new[j].base is IndestructibleWall,
        forall|j: int|
            0 <= j < old.len() && (#[trigger] old[j]).special == Some(SpecialTile::ClosedExit) ==> new[j].special
                == Some(SpecialTile::ClosedExit),
        forall|j: int|
            0 <= j < old.len() && (#[trigger] old[j]).special == Some(SpecialTile::OpenExit) ==> new[j].special
                == Some(SpecialTile::OpenExit),
{
    assert forall|j: int| 0 <= j < old.len() implies {
        &&& (#[trigger] old[j]).base is IndestructibleWall ==> new[j].base is IndestructibleWall
        &&& old[j].special == Some(SpecialTile::ClosedExit) ==> new[j].special == Some(SpecialTile::ClosedExit)
        &&& old[j].special == Some(SpecialTile::OpenExit) ==> new[j].special == Some(SpecialTile::OpenExit)
    } by {
        assert(tile_ticked(old[j], ticked[j], delta));
        assert(tile_after(ticked[j], blown[j], flamed(ticked, j), broken(ticked, j)));
        assert(new[j] == tile_expired_converted(blown[j]));
    }
}

/// A map without bombs on its outer ring can always be ticked: no flames leave it.
pub proof fn lemma_bombs_off_border_stay_on_map(m: WorldMapView, delta: nat)
    requires
        m.well_formed(),
        no_bomb_on_border(m.tiles),
    ensures
        no_row_detonation(m.tiles, delta),
{
    assert forall|j: int|
        0 <= j < m.tiles.len() && !(TOTAL_MAP_WIDTH <= j < TOTAL_MAP_TILES - TOTAL_MAP_WIDTH) implies match (
        #[trigger] m.tiles[j]).bomb_or_explosion {
            Some(BombOrExplosionTile::Bomb(b)) => b.range == 0 || !tick_spec(b.timer@, delta).finished,
            _ => true,
        } by {
        assert(on_border(j));
    }
}

/// The map `ms[j + 1]` comes from `ms[j]` by one call: one that keeps every special but for a
/// power-up it may take (`specials_kept`), or the opening of the exit.
pub open spec fn map_call_at(ms: Seq<WorldMapView>, j: int) -> bool {
    specials_kept(ms[j], ms[j + 1]) || ms[j + 1] == exit_opened(ms[j])
}

/// The call that led from `ms[j]` to `ms[j + 1]` opened the exit.
pub open spec fn exit_opened_at(ms: Seq<WorldMapView>, j: int) -> bool {
    ms[j + 1] == exit_opened(ms[j])
}

/// One of the first `k` calls of the run `ms` opened the exit.
pub open spec fn exit_opened_within(ms: Seq<WorldMapView>, k: int) -> bool {
    exists|j: int| 0 <= j < k && #[trigger] exit_opened_at(ms, j)
}

/// Only `open_exit` opens the exit. Take a run of maps that starts with a map whose only exit
/// tile holds a closed exit (as every new map: `lemma_new_map_layout`), each map coming from
/// the one before by `process_tick`, `try_add_bomb`, `remove_bonus`, `explode_bombs`,
/// `convert_expired_entities`, `process_map_in_tick`, `spawn_bomb_when_requested` or
/// `pick_up_bonus` (each keeps the specials: `specials_kept` in their contracts) or by
/// `open_exit`. Then the exit stays closed and no open exit shows until `open_exit` is used;
/// from then on the exit is open and shows on its tile; no other tile ever holds an exit, and
/// every other tile keeps its special but for a power-up taken away.
pub proof fn lemma_gate_opens_only_by_open_exit(ms: Seq<WorldMapView>, k: int)
    requires
        ms.len() > 0,
        ms[0].well_formed(),
        ms[0].tiles[ms[0].exit_gate_index as int].special == Some(SpecialTile::ClosedExit),
        gate_only_at_exit(ms[0]),
        forall|j: int| 0 <= j < ms.len() - 1 ==> #[trigger] map_call_at(ms, j),
        0 <= k < ms.len(),
    ensures
        ms[k].tiles.len() == ms[0].tiles.len(),
        ms[k].exit_gate_index == ms[0].exit_gate_index,
        ms[k].tiles[ms[0].exit_gate_index as int].special == (if exit_opened_within(ms, k) {
            Some(SpecialTile::OpenExit)
        } else {
            Some(SpecialTile::ClosedExit)
        }),
        spec_open_exit_position(ms[k]) == (if exit_opened_within(ms, k) {
            Some(spec_index_to_tile_pos(ms[0].exit_gate_index as int))
        } else {
            None
        }),
        gate_only_at_exit(ms[k]),
        forall|j: int|
            0 <= j < ms[0].tiles.len() && j != ms[0].exit_gate_index ==> (#[trigger] ms[k].tiles[j]).special
                == ms[0].tiles[j].special || ms[k].tiles[j].special == tile_without_bonus(ms[0].tiles[j]).special,
    decreases k,
{
    if k > 0 {
        lemma_gate_opens_only_by_open_exit(ms, k - 1);
        assert(map_call_at(ms, k - 1));
        if exit_opened_at(ms, k - 1) {
            assert(exit_opened_within(ms, k));
        } else {
            assert(exit_opened_within(ms, k) == exit_opened_within(ms, k - 1)) by {
                if exit_opened_within(ms, k) {
                    let j = choose|j: int| 0 <= j < k && #[trigger] exit_opened_at(ms, j);
                    assert(j != k - 1);
                }
            }
        }
        let prev = ms[k - 1];
        let cur = ms[k];
        assert forall|j: int| 0 <= j < cur.tiles.len() && #[trigger] is_gate(cur.tiles[j].special) implies j
            == cur.exit_gate_index by {
            if j != prev.exit_gate_index {
                assert(is_gate(prev.tiles[j].special));
            }
        }
        assert forall|j: int| 0 <= j < ms[0].tiles.len() && j != ms[0].exit_gate_index implies (
        #[trigger] cur.tiles[j]).special == ms[0].tiles[j].special || cur.tiles[j].special
            == tile_without_bonus(ms[0].tiles[j]).special by {
            assert(prev.tiles[j].special == ms[0].tiles[j].special || prev.tiles[j].special == tile_without_bonus(
                ms[0].tiles[j],
            ).special);
        }
    }
}

} // verus!

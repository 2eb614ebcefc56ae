use vstd::prelude::*;

use rand::rngs::StdRng;

use crate::constants::{
    TOTAL_MAP_HEIGHT, TOTAL_MAP_TILES, TOTAL_MAP_WIDTH, WALL_DENSITY_DENOMINATOR,
    WALL_DENSITY_NUMERATOR,
};
use crate::map::{
    gate_only_at_exit, is_gate, no_bomb_on_border, on_border, spec_pos_to_index, spec_starting_area_indices, WorldMap,
    WorldMapView,
};
use crate::map_tile::{BaseTile, MapTile, SpecialTile};
use crate::rng::shuffle;
use crate::world_entities::BonusType;

verus! {

/// The base of tile `i` before walls are scattered: the outer ring and every tile with two even
/// coordinates are indestructible, the rest is floor.
pub open spec fn default_base(i: int) -> BaseTile {
    let x = i % (TOTAL_MAP_WIDTH as int);
    let y = i / (TOTAL_MAP_WIDTH as int);
    if x == 0 || x == TOTAL_MAP_WIDTH - 1 || y == 0 || y == TOTAL_MAP_HEIGHT - 1 || (x % 2 == 0 && y
        % 2 == 0) {
        BaseTile::IndestructibleWall
    } else {
        BaseTile::Floor
    }
}

/// A tile that may receive a destructible wall: floor outside of the starting area.
pub open spec fn is_free_candidate(i: int) -> bool {
    &&& 0 <= i < TOTAL_MAP_TILES
    &&& default_base(i) is Floor
    &&& !spec_starting_area_indices().contains(i as usize)
}

/// The candidates among the first `n` tiles, in order of their index.
pub open spec fn free_candidates_upto(n: nat) -> Seq<usize>
    decreases n,
{
    if n == 0 {
        Seq::empty()
    } else if is_free_candidate(n - 1) {
        free_candidates_upto((n - 1) as nat).push((n - 1) as usize)
    } else {
        free_candidates_upto((n - 1) as nat)
    }
}

/// All tiles that may receive a destructible wall, in order of their index.
pub open spec fn free_candidates() -> Seq<usize> {
    free_candidates_upto(TOTAL_MAP_TILES as nat)
}

/// How many power-ups of each kind a map holds.
pub open spec fn bonus_counts() -> Seq<(BonusType, usize)> {
    seq![
        (BonusType::Range, 5usize),
        (BonusType::BombCount, 5usize),
        (BonusType::Negative, 5usize),
        (BonusType::ExtraLife, 0usize),
        (BonusType::Hook, 0usize),
        (BonusType::BombKick, 0usize),
        (BonusType::Detonator, 0usize),
        (BonusType::Turbo, 0usize),
        (BonusType::LineBomb, 0usize),
        (BonusType::DoubleBomb, 0usize),
        (BonusType::Max, 0usize),
    ]
}

/// Each power-up of `counts` repeated as often as it is counted, in order.
pub open spec fn repeat_counts(counts: Seq<(BonusType, usize)>) -> Seq<BonusType>
    decreases counts.len(),
{
    if counts.len() == 0 {
        Seq::empty()
    } else {
        repeat_counts(counts.drop_last()) + Seq::new(counts.last().1 as nat, |k: int| counts.last().0)
    }
}

/// All power-ups hidden in a map.
pub open spec fn bonus_pool() -> Seq<BonusType> {
    repeat_counts(bonus_counts())
}

/// How many of `n` free tiles become destructible walls: half of them, but at least one and
/// not all of them.
pub open spec fn wall_count_for(n: int) -> int {
    let w = n * WALL_DENSITY_NUMERATOR / WALL_DENSITY_DENOMINATOR as int;
    if w < 1 {
        1
    } else if w > n - 1 {
        n - 1
    } else {
        w
    }
}

/// `m` is the map whose free tiles, in the shuffled order `free`, receive destructible walls
/// (the first `wall_count_for(free.len())` of them) and whose first walls hide the exit gate and
/// then the power-ups of `bonuses`, in order.
pub open spec fn generated(m: WorldMapView, free: Seq<usize>, bonuses: Seq<BonusType>) -> bool {
    let wc = wall_count_for(free.len() as int);
    let specials = if bonuses.len() + 1 < wc {
        bonuses.len() + 1 as int
    } else {
        wc
    };
    &&& m.tiles.len() == TOTAL_MAP_TILES
    &&& m.exit_gate_index == free[0]
    &&& forall|i: int| 0 <= i < TOTAL_MAP_TILES ==> (#[trigger] m.tiles[i]).bomb_or_explosion is None
    &&& forall|i: int|
        0 <= i < TOTAL_MAP_TILES && !is_free_candidate(i) ==> (#[trigger] m.tiles[i]).base
            == default_base(i) && m.tiles[i].special is None
    &&& forall|k: int|
        0 <= k < free.len() ==> (#[trigger] m.tiles[free[k] as int]).base == if k < wc {
            BaseTile::BasicWall
        } else {
            BaseTile::Floor
        }
    &&& m.tiles[free[0] as int].special == Some(SpecialTile::ClosedExit)
    &&& forall|k: int|
        1 <= k < free.len() ==> (#[trigger] m.tiles[free[k] as int]).special == if k < specials {
            Some(SpecialTile::Bonus(bonuses[k - 1]))
        } else {
            None
        }
}

#[derive(Debug, Clone, Copy, PartialEq, Eq, Structural)]
enum BaseTileBuilder {
    Floor,
    BasicWall,
    IndestructibleWall,
}

#[derive(Debug, Clone, Copy, PartialEq, Eq, Structural)]
enum SpecialTileBuilder {
    Exit,
    Bonus(BonusType),
}

#[derive(Debug, Clone, Copy, PartialEq, Eq, Structural)]
struct TileBuilder {
    base_tile: BaseTileBuilder,
    special_tile: Option<SpecialTileBuilder>,
}

spec fn default_builder(i: int) -> TileBuilder {
    TileBuilder {
        base_tile: if default_base(i) is Floor {
            BaseTileBuilder::Floor
        } else {
            BaseTileBuilder::IndestructibleWall
        },
        special_tile: None,
    }
}

spec fn built_base(b: BaseTileBuilder) -> BaseTile {
    match b {
        BaseTileBuilder::Floor => BaseTile::Floor,
        BaseTileBuilder::BasicWall => BaseTile::BasicWall,
        BaseTileBuilder::IndestructibleWall => BaseTile::IndestructibleWall,
    }
}

spec fn built_special(s: Option<SpecialTileBuilder>) -> Option<SpecialTile> {
    match s {
        Some(SpecialTileBuilder::Exit) => Some(SpecialTile::ClosedExit),
        Some(SpecialTileBuilder::Bonus(b)) => Some(SpecialTile::Bonus(b)),
        None => None,
    }
}

proof fn lemma_index_coords(x: int, y: int)
    requires
        0 <= x < TOTAL_MAP_WIDTH,
        0 <= y,
    ensures
        (y * TOTAL_MAP_WIDTH + x) % (TOTAL_MAP_WIDTH as int) == x,
        (y * TOTAL_MAP_WIDTH + x) / (TOTAL_MAP_WIDTH as int) == y,
{
    vstd::arithmetic::div_mod::lemma_fundamental_div_mod_converse(
        y * TOTAL_MAP_WIDTH + x,
        TOTAL_MAP_WIDTH as int,
        y,
        x,
    );
}

proof fn lemma_free_candidates_upto(n: nat)
    ensures
        forall|v: usize| #[trigger] free_candidates_upto(n).contains(v) <==> v < n && is_free_candidate(v as int),
        free_candidates_upto(n).no_duplicates(),
    decreases n,
{
    if n > 0 {
        lemma_free_candidates_upto((n - 1) as nat);
        let prev = free_candidates_upto((n - 1) as nat);
        if is_free_candidate(n - 1) {
            let cur = prev.push((n - 1) as usize);
            assert(!prev.contains((n - 1) as usize));
            assert forall|v: usize| #[trigger] cur.contains(v) <==> prev.contains(v) || v == n - 1 by {
                if cur.contains(v) {
                    let k = choose|k: int| 0 <= k < cur.len() && cur[k] == v;
                    if k < prev.len() {
                        assert(prev[k] == v);
                    }
                }
                if prev.contains(v) {
                    let k = choose|k: int| 0 <= k < prev.len() && prev[k] == v;
                    assert(cur[k] == v);
                }
                if v == n - 1 {
                    assert(cur[cur.len() - 1] == v);
                }
            }
        }
    }
}

/// A shuffled copy of the candidates holds each candidate exactly once.
proof fn lemma_shuffled_candidates(free: Seq<usize>)
    requires
        free.to_multiset() == free_candidates().to_multiset(),
    ensures
        free.no_duplicates(),
        forall|v: usize| #[trigger] free.contains(v) <==> is_free_candidate(v as int),
        free.len() == free_candidates().len(),
        free.len() >= 2,
{
    broadcast use vstd::seq_lib::group_to_multiset_ensures;

    lemma_free_candidates_upto(TOTAL_MAP_TILES as nat);
    let cands = free_candidates();
    cands.lemma_multiset_has_no_duplicates();
    free.lemma_multiset_has_no_duplicates_conv();
    assert forall|v: usize| #[trigger] free.contains(v) <==> is_free_candidate(v as int) by {
        assert(free.contains(v) <==> free.to_multiset().count(v) > 0);
        assert(cands.contains(v) <==> cands.to_multiset().count(v) > 0);
    }
    assert(free.len() == free.to_multiset().len());
    assert(cands.len() == cands.to_multiset().len());
    lemma_index_coords(1, 1);
    lemma_index_coords(2, 1);
    assert(is_free_candidate(20));
    assert(is_free_candidate(21));
    assert(free.contains(20usize));
    assert(free.contains(21usize));
    let k1 = choose|k: int| 0 <= k < free.len() && free[k] == 20usize;
    let k2 = choose|k: int| 0 <= k < free.len() && free[k] == 21usize;
    assert(k1 != k2);
}

impl WorldMap {
    /// The three tiles next to the spawning location that are always kept free.
    pub fn get_starting_area_indices() -> (r: [usize; 3])
        ensures
            r@ == spec_starting_area_indices(),
    {
        let width = TOTAL_MAP_WIDTH;
        let height = TOTAL_MAP_HEIGHT;
        let r = [width * (height - 2) + 1, width * (height - 2) + 2, width * (height - 3) + 1];
        assert(r@ =~= spec_starting_area_indices());
        r
    }

    /// The tiles before walls are scattered, bottom row first.
    fn base_layout() -> (tiles: Vec<TileBuilder>)
        ensures
            tiles@.len() == TOTAL_MAP_TILES,
            forall|i: int| 0 <= i < TOTAL_MAP_TILES ==> #[trigger] tiles@[i] == default_builder(i),
    {
        let height = TOTAL_MAP_HEIGHT;
        let width = TOTAL_MAP_WIDTH;
        let mut tiles: Vec<TileBuilder> = Vec::new();
        let mut y: usize = 0;
        while y < height
            invariant
                height == TOTAL_MAP_HEIGHT,
                width == TOTAL_MAP_WIDTH,
                y <= height,
                tiles@.len() == y * width,
                forall|i: int| 0 <= i < tiles@.len() ==> #[trigger] tiles@[i] == default_builder(i),
            decreases height - y,
        {
            let mut x: usize = 0;
            while x < width
                invariant
                    height == TOTAL_MAP_HEIGHT,
                    width == TOTAL_MAP_WIDTH,
                    y < height,
                    x <= width,
                    tiles@.len() == y * width + x,
                    forall|i: int| 0 <= i < tiles@.len() ==> #[trigger] tiles@[i] == default_builder(i),
                decreases width - x,
            {
                let base_tile = if x == 0 || x == width - 1 || y == 0 || y == height - 1 || (x % 2 == 0
                    && y % 2 == 0) {
                    BaseTileBuilder::IndestructibleWall
                } else {
                    BaseTileBuilder::Floor
                };
                proof {
                    lemma_index_coords(x as int, y as int);
                }
                tiles.push(TileBuilder { base_tile, special_tile: None });
                x = x + 1;
            }
            y = y + 1;
        }
        tiles
    }

    /// Generates a map: destructible walls on half of the free tiles (at least one, not all),
    /// picked at random; the first wall hides the exit gate and the next ones the power-ups of
    /// the pool, in a random order.
    pub fn new_random_default(rng_gen: &mut StdRng) -> (m: WorldMap)
        ensures
            m@.well_formed(),
            exists|free: Seq<usize>, bonuses: Seq<BonusType>|
                {
                    &&& free.to_multiset() == free_candidates().to_multiset()
                    &&& bonuses.to_multiset() == bonus_pool().to_multiset()
                    &&& generated(m@, free, bonuses)
                },
    {
        let tiles = WorldMap::base_layout();
        // Map is generated from bottom left, starting area is top left
        let starting_area_indices = WorldMap::get_starting_area_indices();
        let mut empty_tiles_indices: Vec<usize> = Vec::new();
        let mut i: usize = 0;
        while i < tiles.len()
            invariant
                tiles@.len() == TOTAL_MAP_TILES,
                forall|j: int| 0 <= j < TOTAL_MAP_TILES ==> #[trigger] tiles@[j] == default_builder(j),
                starting_area_indices@ == spec_starting_area_indices(),
                i <= TOTAL_MAP_TILES,
                empty_tiles_indices@ == free_candidates_upto(i as nat),
            decreases tiles.len() - i,
        {
            let in_start = i == starting_area_indices[0] || i == starting_area_indices[1] || i
                == starting_area_indices[2];
            proof {
                assert(spec_starting_area_indices().contains(i) <==> in_start) by {
                    if in_start {
                        if i == starting_area_indices[0] {
                            assert(spec_starting_area_indices()[0] == i);
                        } else if i == starting_area_indices[1] {
                            assert(spec_starting_area_indices()[1] == i);
                        } else {
                            assert(spec_starting_area_indices()[2] == i);
                        }
                    }
                }
                assert(tiles@[i as int] == default_builder(i as int));
            }
            if !in_start && tiles[i].base_tile == BaseTileBuilder::Floor {
                empty_tiles_indices.push(i);
            }
            i = i + 1;
        }
        let ghost candidates = empty_tiles_indices@;
        shuffle(&mut empty_tiles_indices, rng_gen);
        let bonuses_count: [(BonusType, usize); 11] = [
            (BonusType::Range, 5),
            (BonusType::BombCount, 5),
            (BonusType::Negative, 5),
            (BonusType::ExtraLife, 0),
            (BonusType::Hook, 0),
            (BonusType::BombKick, 0),
            (BonusType::Detonator, 0),
            (BonusType::Turbo, 0),
            (BonusType::LineBomb, 0),
            (BonusType::DoubleBomb, 0),
            (BonusType::Max, 0),
        ];
        proof {
            assert(bonuses_count@ =~= bonus_counts());
        }
        let mut all_bonuses: Vec<BonusType> = Vec::new();
        let mut b: usize = 0;
        while b < 11
            invariant
                bonuses_count@ == bonus_counts(),
                b <= 11,
                all_bonuses@ == repeat_counts(bonus_counts().subrange(0, b as int)),
            decreases 11 - b,
        {
            let (bonus, count) = bonuses_count[b];
            let ghost start = all_bonuses@;
            let mut c: usize = 0;
            while c < count
                invariant
                    c <= count,
                    all_bonuses@ == start + Seq::new(c as nat, |k: int| bonus),
                decreases count - c,
            {
                all_bonuses.push(bonus);
                proof {
                    assert(all_bonuses@ =~= start + Seq::new((c + 1) as nat, |k: int| bonus));
                }
                c = c + 1;
            }
            proof {
                let counts = bonus_counts().subrange(0, b + 1);
                assert(counts.drop_last() =~= bonus_counts().subrange(0, b as int));
                assert(counts.last() == (bonus, count));
            }
            b = b + 1;
        }
        proof {
            assert(bonus_counts().subrange(0, 11) =~= bonus_counts());
        }
        let ghost pool = all_bonuses@;
        shuffle(&mut all_bonuses, rng_gen);
        let m = WorldMap::from_shuffled(&empty_tiles_indices, &all_bonuses);
        proof {
            assert(candidates == free_candidates());
            assert(pool == bonus_pool());
        }
        m
    }

    /// The map whose free tiles, in the order of `free_tiles`, receive destructible walls (half
    /// of them, at least one and not all), the first of which hides the exit gate and the next
    /// ones the power-ups of `bonuses`, in order.
    pub fn from_shuffled(free_tiles: &Vec<usize>, bonuses: &Vec<BonusType>) -> (m: WorldMap)
        requires
            free_tiles@.to_multiset() == free_candidates().to_multiset(),
        ensures
            m@.well_formed(),
            generated(m@, free_tiles@, bonuses@),
    {
        proof {
            lemma_shuffled_candidates(free_tiles@);
        }
        let free = free_tiles;
        let empty_tiles_count = free.len();
        // There has to be at least one wall to place gate somewhere
        let density = empty_tiles_count * WALL_DENSITY_NUMERATOR / WALL_DENSITY_DENOMINATOR;
        let wall_count = if density < 1 {
            1
        } else if density > empty_tiles_count - 1 {
            empty_tiles_count - 1
        } else {
            density
        };
        let specials_count = if bonuses.len() < wall_count - 1 {
            bonuses.len() + 1
        } else {
            wall_count
        };
        let ghost wc = wall_count_for(free@.len() as int);
        let ghost sc = if bonuses@.len() + 1 < wc { bonuses@.len() + 1 as int } else { wc };
        assert(wall_count == wc);
        assert(specials_count == sc);
        let mut tiles = WorldMap::base_layout();
        proof {
            assert forall|k2: int| 0 <= k2 < empty_tiles_count implies #[trigger] free@[k2] < TOTAL_MAP_TILES by {
                assert(free@.contains(free@[k2]));
            }
            assert forall|k2: int| 0 <= k2 < empty_tiles_count implies #[trigger] tiles@[free@[k2] as int]
                == (TileBuilder { base_tile: BaseTileBuilder::Floor, special_tile: None }) by {
                assert(free@.contains(free@[k2]));
            }
        }
        let mut k: usize = 0;
        while k < empty_tiles_count
            invariant
                free@.no_duplicates(),
                forall|v: usize| #[trigger] free@.contains(v) <==> is_free_candidate(v as int),
                empty_tiles_count == free@.len(),
                wall_count == wc,
                specials_count == sc,
                1 <= wall_count < empty_tiles_count,
                1 <= specials_count <= wall_count,
                specials_count <= bonuses@.len() + 1,
                forall|k2: int| 0 <= k2 < empty_tiles_count ==> #[trigger] free@[k2] < TOTAL_MAP_TILES,
                k <= empty_tiles_count,
                tiles@.len() == TOTAL_MAP_TILES,
                forall|i: int|
                    0 <= i < TOTAL_MAP_TILES && !is_free_candidate(i) ==> #[trigger] tiles@[i]
                        == default_builder(i),
                forall|k2: int|
                    0 <= k2 < empty_tiles_count ==> #[trigger] tiles@[free@[k2] as int] == if k2 < k {
                        TileBuilder {
                            base_tile: if k2 < wall_count {
                                BaseTileBuilder::BasicWall
                            } else {
                                BaseTileBuilder::Floor
                            },
                            special_tile: if k2 == 0 {
                                Some(SpecialTileBuilder::Exit)
                            } else if k2 < specials_count {
                                Some(SpecialTileBuilder::Bonus(bonuses@[k2 - 1]))
                            } else {
                                None
                            },
                        }
                    } else {
                        TileBuilder { base_tile: BaseTileBuilder::Floor, special_tile: None }
                    },
            decreases empty_tiles_count - k,
        {
            let index = free[k];
            proof {
                assert(free@.contains(index));
            }
            let base_tile = if k < wall_count {
                BaseTileBuilder::BasicWall
            } else {
                BaseTileBuilder::Floor
            };
            let special_tile = if k == 0 {
                Some(SpecialTileBuilder::Exit)
            } else if k < specials_count {
                Some(SpecialTileBuilder::Bonus(bonuses[k - 1]))
            } else {
                None
            };
            let ghost before = tiles@;
            tiles.set(index, TileBuilder { base_tile, special_tile });
            proof {
                assert forall|k2: int| 0 <= k2 < empty_tiles_count && k2 != k implies free@[k2] != index by {}
                assert forall|k2: int| 0 <= k2 < empty_tiles_count implies #[trigger] tiles@[free@[k2] as int] == if k2 < k + 1 {
                    TileBuilder {
                        base_tile: if k2 < wall_count {
                            BaseTileBuilder::BasicWall
                        } else {
                            BaseTileBuilder::Floor
                        },
                        special_tile: if k2 == 0 {
                            Some(SpecialTileBuilder::Exit)
                        } else if k2 < specials_count {
                            Some(SpecialTileBuilder::Bonus(bonuses@[k2 - 1]))
                        } else {
                            None
                        },
                    }
                } else {
                    TileBuilder { base_tile: BaseTileBuilder::Floor, special_tile: None }
                } by {
                    assert(free@.contains(free@[k2]));
                    if k2 != k {
                        assert(tiles@[free@[k2] as int] == before[free@[k2] as int]);
                    }
                }
                assert forall|i: int| 0 <= i < TOTAL_MAP_TILES && !is_free_candidate(i) implies #[trigger] tiles@[i]
                    == default_builder(i) by {
                    assert(i != index);
                    assert(tiles@[i] == before[i]);
                }
            }
            k = k + 1;
        }
        // There exists at least one empty tile
        let exit_gate_index = free[0];
        let mut map_tiles: Vec<MapTile> = Vec::new();
        let mut i: usize = 0;
        while i < tiles.len()
            invariant
                tiles@.len() == TOTAL_MAP_TILES,
                i <= TOTAL_MAP_TILES,
                map_tiles@.len() == i,
                forall|j: int|
                    0 <= j < i ==> (#[trigger] map_tiles@[j])@.base == built_base(tiles@[j].base_tile)
                        && map_tiles@[j]@.special == built_special(tiles@[j].special_tile)
                        && map_tiles@[j]@.bomb_or_explosion is None,
            decreases tiles.len() - i,
        {
            let tb = tiles[i];
            let base_tile = match tb.base_tile {
                BaseTileBuilder::Floor => BaseTile::Floor,
                BaseTileBuilder::BasicWall => BaseTile::BasicWall,
                BaseTileBuilder::IndestructibleWall => BaseTile::IndestructibleWall,
            };
            let special = match tb.special_tile {
                Some(SpecialTileBuilder::Exit) => Some(SpecialTile::ClosedExit),
                Some(SpecialTileBuilder::Bonus(b)) => Some(SpecialTile::Bonus(b)),
                None => None,
            };
            map_tiles.push(MapTile::new(base_tile, special));
            i = i + 1;
        }
        let m = WorldMap { tiles: map_tiles, exit_gate_index };
        proof {
            let v = m@;
            assert(v.tiles.len() == TOTAL_MAP_TILES);
            assert forall|j: int| 0 <= j < TOTAL_MAP_TILES implies #[trigger] v.tiles[j] == map_tiles@[j]@ by {}
            assert(free@.contains(free@[0]));
            assert(tiles@[free@[0] as int].special_tile == Some(SpecialTileBuilder::Exit));
            assert forall|j: int| 0 <= j < v.tiles.len() && on_border(j) implies (#[trigger] v.tiles[j]).base is IndestructibleWall by {
                assert(!is_free_candidate(j));
                assert(tiles@[j] == default_builder(j));
            }
            assert forall|j: int| 0 <= j < TOTAL_MAP_TILES && !is_free_candidate(j) implies (#[trigger] v.tiles[j]).base
                == default_base(j) && v.tiles[j].special is None by {
                assert(tiles@[j] == default_builder(j));
            }
            assert forall|k2: int| 0 <= k2 < free@.len() implies (#[trigger] v.tiles[free@[k2] as int]).base == if k2 < wc {
                BaseTile::BasicWall
            } else {
                BaseTile::Floor
            } by {
                assert(free@.contains(free@[k2]));
            }
            assert forall|k2: int| 1 <= k2 < free@.len() implies (#[trigger] v.tiles[free@[k2] as int]).special == if k2 < sc {
                Some(SpecialTile::Bonus(bonuses@[k2 - 1]))
            } else {
                None
            } by {
                assert(free@.contains(free@[k2]));
            }
        }
        m
    }
}

/// A new map holds no bomb and no flames; the exit gate hides under a destructible wall and is
/// the only gate of the map; the character's spawning tile and the starting area next to it
/// are bare floor.
pub proof fn lemma_new_map_layout(m: WorldMapView, free: Seq<usize>, bonuses: Seq<BonusType>)
    requires
        free.to_multiset() == free_candidates().to_multiset(),
        generated(m, free, bonuses),
    ensures
        no_bomb_on_border(m.tiles),
        forall|i: int| 0 <= i < m.tiles.len() ==> (#[trigger] m.tiles[i]).bomb_or_explosion is None,
        m.tiles[m.exit_gate_index as int].base == BaseTile::BasicWall,
        m.tiles[m.exit_gate_index as int].special == Some(SpecialTile::ClosedExit),
        gate_only_at_exit(m),
        forall|k: int|
            0 <= k < 3 ==> (#[trigger] m.tiles[spec_starting_area_indices()[k] as int]).base
                == BaseTile::Floor && m.tiles[spec_starting_area_indices()[k] as int].special is None,
        spec_pos_to_index(WorldMap::spec_spawning_location()) == Some(spec_starting_area_indices()[0] as nat),
{
    lemma_shuffled_candidates(free);
    assert(free.len() > 0);
    assert(m.tiles[free[0] as int].base == BaseTile::BasicWall);
    assert forall|j: int| 0 <= j < m.tiles.len() && #[trigger] is_gate(m.tiles[j].special) implies j
        == m.exit_gate_index by {
        if is_free_candidate(j) {
            assert(free.contains(j as usize));
            let k = choose|k: int| 0 <= k < free.len() && free[k] == j as usize;
            assert(m.tiles[free[k] as int].special == m.tiles[j].special);
        }
    }
    lemma_index_coords(1, 13);
    lemma_index_coords(2, 13);
    lemma_index_coords(1, 12);
    assert forall|k: int| 0 <= k < 3 implies (#[trigger] m.tiles[spec_starting_area_indices()[k] as int]).base
        == BaseTile::Floor && m.tiles[spec_starting_area_indices()[k] as int].special is None by {
        let i = spec_starting_area_indices()[k] as int;
        assert(spec_starting_area_indices().contains(i as usize));
        assert(!is_free_candidate(i));
    }
}

} // verus!

use vstd::prelude::*;

use rand::rngs::StdRng;

use crate::constants::{
    GHOSTS_SPAWNED, HOODIES_SPAWNED, TOTAL_MAP_TILES, TOTAL_MAP_WIDTH, ZOMBIES_SPAWNED,
};
use crate::map::{on_border, spec_pos_to_index, WorldMap, WorldMapView};
use crate::timer::{tick_spec, Timer};
use crate::position::TilePosition;
use crate::rng::{random_range_inclusive, random_ratio, shuffle};
use crate::world_entities::Direction;

pub mod animation;



verus! {

/// The kinds of enemies roaming the map.
#[derive(Debug, Clone, Copy, PartialEq, Eq, Structural, Hash)]
pub enum Enemy {
    Zombie,
    Phantom,
    Hoodie,
}

/// Where an enemy is heading on the grid.
#[derive(Debug, Clone, Copy, PartialEq, Eq, Structural)]
pub struct EnemyMovement {
    /// The tile the enemy walks to. An enemy that does not move has its own tile here.
    pub desired_position: TilePosition,
    /// The direction of the last step: the enemy prefers to go on or to turn from it. With
    /// `None` it picks a random direction.
    pub last_direction: Option<Direction>,
}

impl EnemyMovement {
    /// An enemy standing on `desired_position`, with no direction yet.
    pub fn new(desired_position: TilePosition) -> (m: Self)
        ensures
            m.desired_position == desired_position,
            m.last_direction is None,
    {
        Self { desired_position, last_direction: None }
    }
}

/// The ways an enemy can go on from a tile, relative to its direction.
#[derive(Debug, Clone, Copy, PartialEq, Eq, Structural)]
pub enum MovementChoice {
    Straight,
    /// A quarter turn clockwise.
    Left,
    /// A quarter turn counterclockwise.
    Right,
    Return,
    Stop,
}

/// A quarter turn clockwise (with `y` growing upwards).
pub open spec fn spec_clockwise(d: Direction) -> Direction {
    match d {
        Direction::Up => Direction::Right,
        Direction::Right => Direction::Down,
        Direction::Down => Direction::Left,
        Direction::Left => Direction::Up,
    }
}

pub open spec fn spec_opposite(d: Direction) -> Direction {
    match d {
        Direction::Up => Direction::Down,
        Direction::Down => Direction::Up,
        Direction::Left => Direction::Right,
        Direction::Right => Direction::Left,
    }
}

/// The direction that a choice leads to from `current`; stopping has none.
pub open spec fn spec_choice_direction(c: MovementChoice, current: Direction) -> Option<Direction> {
    match c {
        MovementChoice::Straight => Some(current),
        MovementChoice::Left => Some(spec_clockwise(current)),
        MovementChoice::Right => Some(spec_clockwise(spec_clockwise(spec_clockwise(current)))),
        MovementChoice::Return => Some(spec_opposite(current)),
        MovementChoice::Stop => None,
    }
}

impl MovementChoice {
    /// The direction this choice leads to when the enemy walks in `current_dir`.
    pub fn to_direction(&self, current_dir: Direction) -> (r: Option<Direction>)
        ensures
            r == spec_choice_direction(*self, current_dir),
            *self == MovementChoice::Straight ==> r == Some(current_dir),
            *self == MovementChoice::Stop <==> r is None,
            *self != MovementChoice::Straight && *self != MovementChoice::Stop ==> r is Some && r
                != Some(current_dir),
    {
        match self {
            MovementChoice::Straight => Some(current_dir),
            MovementChoice::Left => Some(match current_dir {
                Direction::Up => Direction::Right,
                Direction::Right => Direction::Down,
                Direction::Down => Direction::Left,
                Direction::Left => Direction::Up,
            }),
            MovementChoice::Right => Some(match current_dir {
                Direction::Up => Direction::Left,
                Direction::Left => Direction::Down,
                Direction::Down => Direction::Right,
                Direction::Right => Direction::Up,
            }),
            MovementChoice::Return => Some(match current_dir {
                Direction::Up => Direction::Down,
                Direction::Down => Direction::Up,
                Direction::Left => Direction::Right,
                Direction::Right => Direction::Left,
            }),
            MovementChoice::Stop => None,
        }
    }
}

/// The order in which an enemy tries the ways on: straight first when it goes on, else the
/// chosen turn first; turning back and stopping always come last.
pub open spec fn spec_next_tile_choices(continue_straight: bool, turn_left: bool) -> Seq<MovementChoice> {
    if continue_straight {
        seq![
            MovementChoice::Straight,
            MovementChoice::Left,
            MovementChoice::Right,
            MovementChoice::Return,
            MovementChoice::Stop,
        ]
    } else if turn_left {
        seq![
            MovementChoice::Left,
            MovementChoice::Straight,
            MovementChoice::Right,
            MovementChoice::Return,
            MovementChoice::Stop,
        ]
    } else {
        seq![
            MovementChoice::Right,
            MovementChoice::Straight,
            MovementChoice::Left,
            MovementChoice::Return,
            MovementChoice::Stop,
        ]
    }
}

/// The order of the ways to try for the two coin flips.
pub fn choices_for(continue_straight: bool, turn_left: bool) -> (r: [MovementChoice; 5])
    ensures
        r@ == spec_next_tile_choices(continue_straight, turn_left),
{
    let r = if continue_straight {
        [
            MovementChoice::Straight,
            MovementChoice::Left,
            MovementChoice::Right,
            MovementChoice::Return,
            MovementChoice::Stop,
        ]
    } else if turn_left {
        [
            MovementChoice::Left,
            MovementChoice::Straight,
            MovementChoice::Right,
            MovementChoice::Return,
            MovementChoice::Stop,
        ]
    } else {
        [
            MovementChoice::Right,
            MovementChoice::Straight,
            MovementChoice::Left,
            MovementChoice::Return,
            MovementChoice::Stop,
        ]
    };
    assert(r@ =~= spec_next_tile_choices(continue_straight, turn_left));
    r
}

/// Flips the coins of an enemy at a crossing: it goes on straight with a chance of 3 in 5,
/// otherwise turns left or right with even odds.
pub fn next_tile_choices(rng_gen: &mut StdRng) -> (r: [MovementChoice; 5])
    ensures
        exists|continue_straight: bool, turn_left: bool|
            r@ == spec_next_tile_choices(continue_straight, turn_left),
{
    let continue_straight = random_ratio(rng_gen, 3, 5);
    if continue_straight {
        choices_for(true, false)
    } else {
        let turn_left = random_ratio(rng_gen, 1, 2);
        choices_for(false, turn_left)
    }
}

/// The direction of a uniform draw from `0..=3`.
pub open spec fn spec_direction_of_draw(n: i32) -> Direction {
    if n == 0 {
        Direction::Right
    } else if n == 1 {
        Direction::Left
    } else if n == 2 {
        Direction::Up
    } else {
        Direction::Down
    }
}

/// A direction drawn at random for an enemy that has none.
pub fn random_direction(rng_gen: &mut StdRng) -> (d: Direction)
    ensures
        exists|n: i32| 0 <= n <= 3 && d == spec_direction_of_draw(n),
{
    let n = random_range_inclusive(rng_gen, 0, 3);
    let d = if n == 0 {
        Direction::Right
    } else if n == 1 {
        Direction::Left
    } else if n == 2 {
        Direction::Up
    } else {
        Direction::Down
    };
    assert(d == spec_direction_of_draw(n));
    d
}

/// The tile one step from `pos` in `dir`, if its coordinates exist. Without a direction
/// (stopping), the step goes upwards: a zero vector has a positive sign.
pub open spec fn spec_step(pos: TilePosition, dir: Option<Direction>) -> Option<TilePosition> {
    match dir {
        Some(Direction::Right) => if pos.x < u32::MAX {
            Some(TilePosition { x: (pos.x + 1) as u32, y: pos.y })
        } else {
            None
        },
        Some(Direction::Left) => if pos.x > 0 {
            Some(TilePosition { x: (pos.x - 1) as u32, y: pos.y })
        } else {
            None
        },
        Some(Direction::Down) => if pos.y > 0 {
            Some(TilePosition { x: pos.x, y: (pos.y - 1) as u32 })
        } else {
            None
        },
        _ => if pos.y < u32::MAX {
            Some(TilePosition { x: pos.x, y: (pos.y + 1) as u32 })
        } else {
            None
        },
    }
}

/// Whether an enemy may step onto `p`: it lies on the map, on floor free of bombs and flames.
pub open spec fn enemy_can_enter(m: WorldMapView, p: Option<TilePosition>) -> bool {
    match p {
        Some(q) => match m.tile_at(q) {
            Some(t) => t.ai_walkable(),
            None => false,
        },
        None => false,
    }
}

/// The tile reached by the first of `choices` that leads onto a tile an enemy may enter, or
/// `pos` itself when none does.
pub open spec fn spec_first_open_tile(
    m: WorldMapView,
    pos: TilePosition,
    dir: Direction,
    choices: Seq<MovementChoice>,
) -> TilePosition
    decreases choices.len(),
{
    if choices.len() == 0 {
        pos
    } else {
        let next = spec_step(pos, spec_choice_direction(choices[0], dir));
        if enemy_can_enter(m, next) {
            next.unwrap()
        } else {
            spec_first_open_tile(m, pos, dir, choices.drop_first())
        }
    }
}

/// The tile one step from `pos` in `dir`, if its coordinates exist (see `spec_step`).
fn step(pos: TilePosition, dir: Option<Direction>) -> (r: Option<TilePosition>)
    ensures
        r == spec_step(pos, dir),
{
    match dir {
        Some(Direction::Right) => if pos.x < u32::MAX {
            Some(TilePosition { x: pos.x + 1, y: pos.y })
        } else {
            None
        },
        Some(Direction::Left) => if pos.x > 0 {
            Some(TilePosition { x: pos.x - 1, y: pos.y })
        } else {
            None
        },
        Some(Direction::Down) => if pos.y > 0 {
            Some(TilePosition { x: pos.x, y: pos.y - 1 })
        } else {
            None
        },
        _ => if pos.y < u32::MAX {
            Some(TilePosition { x: pos.x, y: pos.y + 1 })
        } else {
            None
        },
    }
}

/// The next tile of an enemy on `position` walking in `current_dir`: the first of `choices`,
/// in order, that leads onto a tile the enemy may enter; the enemy stays when none does.
pub fn choose_next_tile_with(
    current_dir: Direction,
    position: TilePosition,
    collision_map: &WorldMap,
    choices: &[MovementChoice; 5],
) -> (r: TilePosition)
    ensures
        r == spec_first_open_tile(collision_map@, position, current_dir, choices@),
{
    proof {
        use_type_invariant(collision_map);
    }
    let ghost m = collision_map@;
    assert(choices@.subrange(0, 5) =~= choices@);
    let mut k: usize = 0;
    while k < 5
        invariant
            k <= 5,
            m == collision_map@,
            m.well_formed(),
            spec_first_open_tile(m, position, current_dir, choices@) == spec_first_open_tile(
                m,
                position,
                current_dir,
                choices@.subrange(k as int, 5),
            ),
        decreases 5 - k,
    {
        proof {
            let rest = choices@.subrange(k as int, 5);
            assert(rest[0] == choices@[k as int]);
            assert(rest.drop_first() =~= choices@.subrange(k + 1, 5));
        }
        let next = step(position, choices[k].to_direction(current_dir));
        if let Some(p) = next {
            if let Some(tile) = collision_map.get_tile(p) {
                if tile.is_ai_walkable() {
                    return p;
                }
            }
        }
        k = k + 1;
    }
    assert(choices@.subrange(5, 5).len() == 0);
    position
}

/// The next tile of an enemy on `position`: with no direction it draws one at random, then
/// flips the coins for the order of the ways to try (see `choose_next_tile_with`).
pub fn choose_next_tile(
    current_dir: Option<Direction>,
    position: TilePosition,
    collision_map: &WorldMap,
    rng_gen: &mut StdRng,
) -> (r: TilePosition)
    ensures
        exists|dir: Direction, continue_straight: bool, turn_left: bool|
            {
                &&& (current_dir matches Some(d) ==> dir == d)
                &&& r == spec_first_open_tile(
                    collision_map@,
                    position,
                    dir,
                    spec_next_tile_choices(continue_straight, turn_left),
                )
            },
{
    proof {
        use_type_invariant(collision_map);
    }
    let dir = match current_dir {
        Some(d) => d,
        None => random_direction(rng_gen),
    };
    let choices = next_tile_choices(rng_gen);
    choose_next_tile_with(dir, position, collision_map, &choices)
}

/// The enemies of a level in the order in which they take the free tiles: the zombies, then
/// the phantoms, then the hoodies.
pub open spec fn spec_spawn_wave() -> Seq<Enemy> {
    Seq::new(
        (ZOMBIES_SPAWNED + GHOSTS_SPAWNED + HOODIES_SPAWNED) as nat,
        |i: int|
            if i < ZOMBIES_SPAWNED {
                Enemy::Zombie
            } else if i < ZOMBIES_SPAWNED + GHOSTS_SPAWNED {
                Enemy::Phantom
            } else {
                Enemy::Hoodie
            },
    )
}

/// The enemies of the wave paired with the tiles, in order, as long as both last.
pub open spec fn spec_enemies_on_tiles(tiles: Seq<TilePosition>) -> Seq<(TilePosition, Enemy)> {
    let n = if tiles.len() < spec_spawn_wave().len() {
        tiles.len()
    } else {
        spec_spawn_wave().len()
    };
    Seq::new(n, |i: int| (tiles[i], spec_spawn_wave()[i]))
}

/// The enemies of a level in the order in which they take the free tiles.
pub fn spawn_wave() -> (r: Vec<Enemy>)
    ensures
        r@ == spec_spawn_wave(),
{
    let mut r: Vec<Enemy> = Vec::new();
    let total = ZOMBIES_SPAWNED + GHOSTS_SPAWNED + HOODIES_SPAWNED;
    while r.len() < total
        invariant
            r.len() <= total,
            total == ZOMBIES_SPAWNED + GHOSTS_SPAWNED + HOODIES_SPAWNED,
            forall|i: int| 0 <= i < r.len() ==> r@[i] == spec_spawn_wave()[i],
        decreases total - r.len(),
    {
        let i = r.len();
        let e = if i < ZOMBIES_SPAWNED {
            Enemy::Zombie
        } else if i < ZOMBIES_SPAWNED + GHOSTS_SPAWNED {
            Enemy::Phantom
        } else {
            Enemy::Hoodie
        };
        r.push(e);
    }
    assert(r@ =~= spec_spawn_wave());
    r
}

/// Puts the enemies of the wave on the given tiles, in order, as long as both last.
pub fn enemies_on_tiles(free_locations: &Vec<TilePosition>) -> (r: Vec<(TilePosition, Enemy)>)
    ensures
        r@ == spec_enemies_on_tiles(free_locations@),
{
    let wave = spawn_wave();
    let mut r: Vec<(TilePosition, Enemy)> = Vec::new();
    let mut i: usize = 0;
    while i < free_locations.len() && i < wave.len()
        invariant
            wave@ == spec_spawn_wave(),
            i <= free_locations.len(),
            i <= wave.len(),
            r.len() == i,
            forall|k: int| 0 <= k < i ==> r@[k] == (free_locations@[k], wave@[k]),
        decreases wave.len() - i,
    {
        r.push((free_locations[i], wave[i]));
        i = i + 1;
    }
    assert(r@ =~= spec_enemies_on_tiles(free_locations@));
    r
}

/// The enemies of a new level: the free tiles (those an enemy may walk on, outside of the
/// starting area) are shuffled, then taken in turn by the zombies, the phantoms and the
/// hoodies. Which tiles they get depends on the generator.
pub fn setup_spawn_enemies(world_map: &WorldMap, enemy_rng_gen: &mut StdRng) -> (r: Vec<(TilePosition, Enemy)>)
    ensures
        exists|shuffled: Seq<TilePosition>|
            {
                &&& shuffled.to_multiset() == world_map@.empty_non_starting_upto(
                    TOTAL_MAP_TILES as nat,
                ).to_multiset()
                &&& r@ == spec_enemies_on_tiles(shuffled)
            },
{
    proof {
        use_type_invariant(world_map);
    }
    let mut free_locations = world_map.iter_empty_non_starting_tiles();
    shuffle(&mut free_locations, enemy_rng_gen);
    enemies_on_tiles(&free_locations)
}

/// The enemies that come out of a tile some time after it was hit.
pub fn delayed_enemy_wave() -> (r: [Enemy; 4])
    ensures
        r@ == seq![Enemy::Zombie, Enemy::Zombie, Enemy::Phantom, Enemy::Phantom],
{
    let r = [Enemy::Zombie, Enemy::Zombie, Enemy::Phantom, Enemy::Phantom];
    assert(r@ =~= seq![Enemy::Zombie, Enemy::Zombie, Enemy::Phantom, Enemy::Phantom]);
    r
}

/// Advances the timer of a pending wave; once it finishes, the wave comes out.
pub fn spawn_delayed_enemies(timer: &mut Timer, delta_ns: u64) -> (r: Option<[Enemy; 4]>)
    ensures
        final(timer)@ == tick_spec(old(timer)@, delta_ns as nat),
        r is Some <==> final(timer)@.finished,
        r matches Some(w) ==> w@ == seq![Enemy::Zombie, Enemy::Zombie, Enemy::Phantom, Enemy::Phantom],
{
    timer.tick(delta_ns);
    if timer.is_finished() {
        Some(delayed_enemy_wave())
    } else {
        None
    }
}

/// An enemy either stays where it is or moves one step, onto a tile it may enter.
pub proof fn lemma_next_tile_is_neighbour_or_stay(
    m: WorldMapView,
    pos: TilePosition,
    dir: Direction,
    choices: Seq<MovementChoice>,
)
    ensures
        ({
            let r = spec_first_open_tile(m, pos, dir, choices);
            r == pos || exists|d: Option<Direction>|
                #[trigger] spec_step(pos, d) == Some(r) && enemy_can_enter(m, Some(r))
        }),
    decreases choices.len(),
{
    if choices.len() > 0 {
        let d = spec_choice_direction(choices[0], dir);
        let next = spec_step(pos, d);
        if enemy_can_enter(m, next) {
            assert(spec_step(pos, d) == Some(next.unwrap()));
        } else {
            lemma_next_tile_is_neighbour_or_stay(m, pos, dir, choices.drop_first());
        }
    }
}

/// Every tile that is not an indestructible wall lies inside the outer ring, so each of its
/// four neighbours exists and lies on the map: an enemy never steps off the map.
pub proof fn lemma_inner_tiles_have_neighbours(m: WorldMapView, pos: TilePosition)
    requires
        m.well_formed(),
        m.tile_at(pos) matches Some(t) && !(t.base is IndestructibleWall),
    ensures
        forall|d: Direction|
            #[trigger] spec_step(pos, Some(d)) matches Some(q) && spec_pos_to_index(q) is Some,
{
    let i = spec_pos_to_index(pos).unwrap() as int;
    vstd::arithmetic::div_mod::lemma_fundamental_div_mod_converse(
        pos.y * TOTAL_MAP_WIDTH + pos.x,
        TOTAL_MAP_WIDTH as int,
        pos.y as int,
        pos.x as int,
    );
    assert(!on_border(i));
}

/// The ways an enemy can go on point where they should, for every direction `d` it walks in
/// and every tile `p`: straight keeps `d`; returning takes the opposite direction, whose step
/// leads back to `p` from the tile one step from `p` in `d`; the two turns lead to the two
/// other directions, each the opposite of the other, and turning the same way twice is
/// returning; stopping leads nowhere.
pub proof fn lemma_choices_point_their_ways(d: Direction, p: TilePosition)
    ensures
        spec_choice_direction(MovementChoice::Straight, d) == Some(d),
        spec_choice_direction(MovementChoice::Stop, d) is None,
        ({
            let o = spec_choice_direction(MovementChoice::Return, d);
            let l = spec_choice_direction(MovementChoice::Left, d);
            let r = spec_choice_direction(MovementChoice::Right, d);
            &&& o is Some && l is Some && r is Some
            &&& o != Some(d) && l != Some(d) && r != Some(d)
            &&& l != o && r != o && l != r
            &&& spec_step(p, Some(d)) matches Some(q) ==> spec_step(q, o) == Some(p)
            &&& spec_step(p, l) matches Some(q) ==> spec_step(q, r) == Some(p)
            &&& spec_choice_direction(MovementChoice::Left, l.unwrap()) == o
            &&& spec_choice_direction(MovementChoice::Right, r.unwrap()) == o
            &&& spec_choice_direction(MovementChoice::Return, o.unwrap()) == Some(d)
        }),
{
}

} // verus!

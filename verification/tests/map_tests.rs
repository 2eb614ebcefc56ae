use bomberman::constants::{BOMB_DURATION_NANOS, TOTAL_MAP_TILES};
use bomberman::map::explosion::ExplosionVisual;
use bomberman::map::{map_power_up, tile_layers, TileLayer, WorldMap};
use bomberman::map_tile::{BaseTile, BombOrExplosionTile, BombTile, MapTile, SpecialTile};
use bomberman::position::TilePosition;
use bomberman::tilesets::PowerUpTileType;
use bomberman::timer::{Timer, TimerMode};
use bomberman::world_entities::{BonusType, ExplosionOrientation, ExplosionVariant};
use rand::SeedableRng;

const SECOND: u64 = 1_000_000_000;

fn idx(x: usize, y: usize) -> usize {
    y * 19 + x
}

fn pos(x: u32, y: u32) -> TilePosition {
    TilePosition { x, y }
}

/// The tiles that may receive a destructible wall, in order of their index.
fn candidates() -> Vec<usize> {
    let start = [idx(1, 13), idx(2, 13), idx(1, 12)];
    (0..TOTAL_MAP_TILES)
        .filter(|&i| {
            let (x, y) = (i % 19, i / 19);
            let solid = x == 0 || x == 18 || y == 0 || y == 14 || (x % 2 == 0 && y % 2 == 0);
            !solid && !start.contains(&i)
        })
        .collect()
}

/// A map whose walls are `first` followed by the topmost free tiles; `first[0]` hides the exit.
fn map_with_first(first: &[usize], bonuses: &[BonusType]) -> WorldMap {
    let mut rest: Vec<usize> = candidates().into_iter().filter(|i| !first.contains(i)).collect();
    rest.reverse();
    let mut free = first.to_vec();
    free.extend(rest);
    WorldMap::from_shuffled(&free, &bonuses.to_vec())
}

fn bomb(range: u32, fuse: u64) -> BombTile {
    BombTile { timer: Timer::new(fuse, TimerMode::Once), range }
}

fn base_at(map: &WorldMap, x: u32, y: u32) -> BaseTile {
    *map.get_tile(pos(x, y)).unwrap().base_type()
}

fn has_flames(map: &WorldMap, x: u32, y: u32) -> bool {
    map.get_tile(pos(x, y))
        .unwrap()
        .bomb_or_explosion()
        .map(|b| b.is_explosion())
        .unwrap_or(false)
}

fn visual(variant: ExplosionVariant, x: u32, y: u32) -> ExplosionVisual {
    ExplosionVisual { variant, pos: pos(x, y) }
}

#[test]
fn position_index_roundtrip() {
    for i in 0..TOTAL_MAP_TILES {
        let p = WorldMap::index_to_tile_pos(i);
        assert_eq!(p, pos((i % 19) as u32, (i / 19) as u32));
    }
    assert_eq!(WorldMap::index_to_tile_pos(idx(4, 3)), pos(4, 3));
    assert_eq!(WorldMap::get_player_spawning_location(), pos(1, 13));
}

#[test]
fn generated_map_layout() {
    let exit = idx(17, 13);
    let map = map_with_first(&[exit, idx(3, 1)], &[BonusType::Range]);
    for (p, tile) in map.iter() {
        let (x, y) = (p.x, p.y);
        if x == 0 || x == 18 || y == 0 || y == 14 {
            assert_eq!(*tile.base_type(), BaseTile::IndestructibleWall);
        }
        assert!(tile.bomb_or_explosion().is_none());
    }
    assert_eq!(base_at(&map, 17, 13), BaseTile::BasicWall);
    assert_eq!(map.get_tile(pos(17, 13)).unwrap().special(), Some(&SpecialTile::ClosedExit));
    assert_eq!(map.get_tile(pos(3, 1)).unwrap().special(), Some(&SpecialTile::Bonus(BonusType::Range)));
    assert_eq!(base_at(&map, 1, 13), BaseTile::Floor);
    assert_eq!(base_at(&map, 2, 13), BaseTile::Floor);
    assert_eq!(base_at(&map, 1, 12), BaseTile::Floor);
    assert_eq!(base_at(&map, 2, 2), BaseTile::IndestructibleWall);
    assert_eq!(base_at(&map, 1, 1), BaseTile::Floor);
    let walls = map.iter().iter().filter(|(_, t)| *t.base_type() == BaseTile::BasicWall).count();
    assert_eq!(walls, 85);
    assert!(map.get_tile(pos(19, 0)).is_none());
    assert!(map.get_tile(pos(0, 15)).is_none());
}

#[test]
fn random_map_is_shuffled() {
    let mut rng = rand::rngs::StdRng::seed_from_u64(123456789);
    let random = WorldMap::new_random_default(&mut rng);
    let mut ordered_free = candidates();
    ordered_free.reverse();
    let ordered = WorldMap::from_shuffled(&ordered_free, &Vec::new());
    let walls_of = |m: &WorldMap| -> Vec<TilePosition> {
        m.iter().iter().filter(|(_, t)| *t.base_type() == BaseTile::BasicWall).map(|(p, _)| *p).collect()
    };
    assert_eq!(walls_of(&random).len(), 85);
    assert_ne!(walls_of(&random), walls_of(&ordered));
    let bonuses = random
        .iter()
        .iter()
        .filter(|(_, t)| matches!(t.special(), Some(SpecialTile::Bonus(_))))
        .count();
    assert_eq!(bonuses, 15);
    assert!(random.explosions_stay_on_map(10 * SECOND));
}

#[test]
fn single_bomb_explodes_and_breaks_wall() {
    let mut map = map_with_first(&[idx(17, 13), idx(3, 1)], &[]);
    assert!(map.try_add_bomb(pos(1, 1), bomb(2, BOMB_DURATION_NANOS)));
    assert!(!map.try_add_bomb(pos(1, 1), bomb(2, BOMB_DURATION_NANOS)));
    assert!(map.explosions_stay_on_map(BOMB_DURATION_NANOS));

    let visuals = map.process_map_in_tick(SECOND);
    assert!(visuals.is_empty());
    let visuals = map.process_map_in_tick(BOMB_DURATION_NANOS - SECOND);
    assert_eq!(
        visuals,
        vec![
            visual(ExplosionVariant::Center, 1, 1),
            visual(ExplosionVariant::Straight(ExplosionOrientation::Right), 2, 1),
            visual(ExplosionVariant::End(ExplosionOrientation::Right), 3, 1),
            visual(ExplosionVariant::Straight(ExplosionOrientation::Up), 1, 2),
            visual(ExplosionVariant::End(ExplosionOrientation::Up), 1, 3),
        ]
    );
    assert!(has_flames(&map, 1, 1));
    assert!(has_flames(&map, 2, 1));
    assert!(has_flames(&map, 1, 2));
    assert!(has_flames(&map, 1, 3));
    assert!(!has_flames(&map, 3, 1));
    assert!(!has_flames(&map, 1, 4));
    assert!(matches!(base_at(&map, 3, 1), BaseTile::BreakingWall(_)));
    assert_eq!(base_at(&map, 0, 1), BaseTile::IndestructibleWall);
    assert!(!map.get_tile(pos(1, 1)).unwrap().is_ai_walkable());
    assert!(map.get_tile(pos(1, 1)).unwrap().is_walkable());

    let visuals = map.process_map_in_tick(SECOND);
    assert!(visuals.is_empty());
    assert!(!has_flames(&map, 1, 1));
    assert!(map.get_tile(pos(1, 1)).unwrap().bomb_or_explosion().is_none());
    assert_eq!(base_at(&map, 3, 1), BaseTile::Floor);
}

#[test]
fn bombs_explode_in_chain() {
    let mut map = map_with_first(&[idx(17, 13)], &[]);
    assert!(map.try_add_bomb(pos(1, 1), bomb(1, BOMB_DURATION_NANOS)));
    assert!(map.try_add_bomb(pos(2, 1), bomb(1, 10 * SECOND)));
    assert!(map.try_add_bomb(pos(5, 1), bomb(1, 10 * SECOND)));
    let visuals = map.process_map_in_tick(BOMB_DURATION_NANOS);
    assert_eq!(visuals.len(), 6);
    assert_eq!(visuals[0], visual(ExplosionVariant::Center, 1, 1));
    assert!(visuals.contains(&visual(ExplosionVariant::Center, 2, 1)));
    assert!(visuals.contains(&visual(ExplosionVariant::End(ExplosionOrientation::Right), 3, 1)));
    assert!(has_flames(&map, 3, 1));
    assert!(!has_flames(&map, 4, 1));
    let untouched = map.get_tile(pos(5, 1)).unwrap().bomb_or_explosion().unwrap();
    assert!(untouched.is_bomb());
}

#[test]
fn finished_bomb_never_survives_a_tick() {
    let mut map = map_with_first(&[idx(17, 13)], &[]);
    assert!(map.try_add_bomb(pos(5, 3), bomb(0, BOMB_DURATION_NANOS)));
    let visuals = map.process_map_in_tick(BOMB_DURATION_NANOS + 7);
    assert_eq!(visuals, vec![visual(ExplosionVariant::Center, 5, 3)]);
    assert!(has_flames(&map, 5, 3));
    assert!(!has_flames(&map, 6, 3));
}

#[test]
fn flames_burn_power_ups() {
    let mut map = map_with_first(&[idx(17, 13), idx(3, 1)], &[BonusType::BombCount]);
    assert!(map.try_add_bomb(pos(1, 1), bomb(3, BOMB_DURATION_NANOS)));
    map.process_map_in_tick(BOMB_DURATION_NANOS);
    map.process_map_in_tick(SECOND);
    assert_eq!(base_at(&map, 3, 1), BaseTile::Floor);
    assert_eq!(map.get_tile(pos(3, 1)).unwrap().special(), Some(&SpecialTile::Bonus(BonusType::BombCount)));
    assert!(!map.bonus_entity_outdated(pos(3, 1)));
    assert!(map.try_add_bomb(pos(2, 1), bomb(1, BOMB_DURATION_NANOS)));
    map.process_map_in_tick(BOMB_DURATION_NANOS);
    assert!(has_flames(&map, 3, 1));
    assert!(map.get_tile(pos(3, 1)).unwrap().special().is_none());
    assert!(map.bonus_entity_outdated(pos(3, 1)));
}

#[test]
fn exit_survives_explosions_and_opens() {
    let mut map = map_with_first(&[idx(3, 1)], &[]);
    assert_eq!(map.open_exit_position(), None);
    assert!(map.try_add_bomb(pos(1, 1), bomb(4, BOMB_DURATION_NANOS)));
    map.process_map_in_tick(BOMB_DURATION_NANOS);
    map.process_map_in_tick(SECOND);
    assert_eq!(map.get_tile(pos(3, 1)).unwrap().special(), Some(&SpecialTile::ClosedExit));
    assert_eq!(map.open_exit_position(), None);
    map.open_exit();
    assert_eq!(map.open_exit_position(), Some(pos(3, 1)));
    map.open_exit();
    assert_eq!(map.open_exit_position(), Some(pos(3, 1)));
    assert_eq!(map.get_tile(pos(3, 1)).unwrap().special(), Some(&SpecialTile::OpenExit));
}

#[test]
fn remove_bonus_once() {
    let mut map = map_with_first(&[idx(17, 13), idx(3, 1)], &[BonusType::Negative]);
    assert_eq!(map.remove_bonus(pos(3, 1)), Some(BonusType::Negative));
    assert_eq!(map.remove_bonus(pos(3, 1)), None);
    assert_eq!(map.remove_bonus(pos(17, 13)), None);
    assert_eq!(map.remove_bonus(pos(40, 1)), None);
    assert_eq!(map.get_tile(pos(17, 13)).unwrap().special(), Some(&SpecialTile::ClosedExit));
}

#[test]
fn bombs_on_border_are_detected() {
    let mut map = map_with_first(&[idx(17, 13)], &[]);
    assert!(map.explosions_stay_on_map(BOMB_DURATION_NANOS));
    assert!(map.try_add_bomb(pos(0, 5), bomb(1, BOMB_DURATION_NANOS)));
    assert!(map.explosions_stay_on_map(BOMB_DURATION_NANOS));
    assert!(map.try_add_bomb(pos(7, 14), bomb(0, BOMB_DURATION_NANOS)));
    assert!(map.explosions_stay_on_map(BOMB_DURATION_NANOS));
    assert!(map.try_add_bomb(pos(5, 0), bomb(1, BOMB_DURATION_NANOS)));
    assert!(map.explosions_stay_on_map(SECOND));
    assert!(!map.explosions_stay_on_map(BOMB_DURATION_NANOS));
    let visuals = map.process_map_in_tick(SECOND);
    assert!(visuals.is_empty());
    assert!(!map.explosions_stay_on_map(BOMB_DURATION_NANOS - SECOND));
}

#[test]
fn outdated_bomb_entities() {
    let mut map = map_with_first(&[idx(17, 13)], &[]);
    assert!(map.bomb_entity_outdated(pos(1, 1)));
    assert!(!map.bomb_entity_outdated(pos(100, 1)));
    assert!(map.try_add_bomb(pos(1, 1), bomb(1, BOMB_DURATION_NANOS)));
    assert!(!map.bomb_entity_outdated(pos(1, 1)));
    map.process_map_in_tick(BOMB_DURATION_NANOS);
    assert!(map.bomb_entity_outdated(pos(1, 1)));
}

#[test]
fn tile_neighbours_on_map() {
    let map = map_with_first(&[idx(17, 13)], &[]);
    let n = map.tile_neighbours(pos(1, 1));
    let positions: Vec<TilePosition> = n.iter().map(|(p, _)| *p).collect();
    assert_eq!(positions, vec![pos(0, 1), pos(2, 1), pos(1, 0), pos(1, 2)]);
    assert!(map.tile_neighbours(pos(30, 1)).is_empty());
    let corner = map.tile_neighbours(pos(0, 0));
    let corner_positions: Vec<TilePosition> = corner.iter().map(|(p, _)| *p).collect();
    assert_eq!(corner_positions, vec![pos(1, 0), pos(0, 1)]);
}

#[test]
fn world_position_neighbours_lookup() {
    let map = map_with_first(&[idx(17, 13)], &[]);
    let n = map.world_position_neighbours(pos(1, 2), pos(2, 2), pos(1, 1), pos(2, 1)).unwrap();
    assert_eq!(n.top_left.pos, pos(1, 2));
    assert_eq!(*n.top_right.tile.base_type(), BaseTile::IndestructibleWall);
    assert_eq!(n.iter().len(), 4);
    assert_eq!(n.iter()[3].pos, pos(2, 1));
    assert!(map.world_position_neighbours(pos(1, 2), pos(2, 2), pos(1, 1), pos(19, 1)).is_none());
}

#[test]
fn empty_non_starting_tiles() {
    let map = map_with_first(&[idx(17, 13)], &[]);
    let free = map.iter_empty_non_starting_tiles();
    assert_eq!(free.len(), 170 - 85);
    assert!(!free.contains(&pos(1, 13)));
    assert!(free.contains(&pos(1, 1)));
    assert!(free.windows(2).all(|w| (w[0].y, w[0].x) < (w[1].y, w[1].x)));
}

#[test]
fn tile_layers_of_tiles() {
    let wall_with_bonus = MapTile::new(BaseTile::BasicWall, Some(SpecialTile::Bonus(BonusType::Range)));
    assert_eq!(
        tile_layers(&wall_with_bonus),
        vec![TileLayer::Floor, TileLayer::Bonus(BonusType::Range, PowerUpTileType::Range), TileLayer::DestructibleWall]
    );
    let exit = MapTile::new(BaseTile::BasicWall, Some(SpecialTile::ClosedExit));
    assert_eq!(
        tile_layers(&exit),
        vec![TileLayer::Floor, TileLayer::OpenGate, TileLayer::ClosedGate, TileLayer::DestructibleWall]
    );
    assert_eq!(tile_layers(&MapTile::new(BaseTile::IndestructibleWall, None)), vec![TileLayer::IndestructibleWall]);
    assert_eq!(tile_layers(&MapTile::new(BaseTile::Floor, None)), vec![TileLayer::Floor]);
    assert_eq!(map_power_up(BonusType::DoubleBomb), PowerUpTileType::DoubleBomb);
    assert_eq!(map_power_up(BonusType::Negative), PowerUpTileType::Negative);
}

#[test]
fn map_tile_operations() {
    let mut tile = MapTile::new(BaseTile::Floor, Some(SpecialTile::Bonus(BonusType::Turbo)));
    assert!(tile.is_walkable());
    assert!(tile.try_add_bomb(bomb(1, 10)));
    assert!(!tile.is_walkable());
    assert!(!tile.is_ai_walkable());
    tile.tick(10);
    assert!(tile.bomb_or_explosion().unwrap().bomb().unwrap().timer.is_finished());
    tile.convert_expired_entities();
    assert!(tile.bomb_or_explosion().unwrap().is_bomb());
    assert_eq!(tile.remove_bonus(), Some(BonusType::Turbo));
    assert_eq!(tile.remove_bonus(), None);

    let mut wall = MapTile::new(BaseTile::BasicWall, None);
    wall.break_wall(Timer::new(5, TimerMode::Once));
    assert!(matches!(wall.base_type(), BaseTile::BreakingWall(_)));
    wall.tick(5);
    wall.convert_expired_entities();
    assert_eq!(*wall.base_type(), BaseTile::Floor);
    let mut solid = MapTile::new(BaseTile::IndestructibleWall, None);
    solid.break_wall(Timer::new(5, TimerMode::Once));
    assert_eq!(*solid.base_type(), BaseTile::IndestructibleWall);
    let mut gate = MapTile::new(BaseTile::Floor, Some(SpecialTile::ClosedExit));
    gate.open_exit();
    assert!(gate.special().unwrap().is_open_exit());
    assert!(matches!(
        MapTile::new(BaseTile::Floor, None).bomb_or_explosion(),
        None | Some(BombOrExplosionTile::Explosion(_))
    ));
}

#[test]
fn bombs_go_off_in_queue_order() {
    let mut map = map_with_first(&[idx(17, 13)], &[]);
    assert!(map.try_add_bomb(pos(5, 1), bomb(1, BOMB_DURATION_NANOS)));
    assert!(map.try_add_bomb(pos(1, 1), bomb(1, BOMB_DURATION_NANOS)));
    assert!(map.try_add_bomb(pos(2, 1), bomb(1, 10 * SECOND)));
    assert!(map.try_add_bomb(pos(4, 1), bomb(1, 10 * SECOND)));
    assert!(map.try_add_bomb(pos(6, 1), bomb(1, 10 * SECOND)));
    let visuals = map.process_map_in_tick(BOMB_DURATION_NANOS);
    let centers: Vec<TilePosition> = visuals
        .iter()
        .filter(|v| v.variant == ExplosionVariant::Center)
        .map(|v| v.pos)
        .collect();
    assert_eq!(centers, vec![pos(1, 1), pos(5, 1), pos(2, 1), pos(4, 1), pos(6, 1)]);
    assert_eq!(visuals[1], visual(ExplosionVariant::End(ExplosionOrientation::Right), 2, 1));
}

#[test]
fn exit_stays_open_through_later_calls() {
    let mut map = map_with_first(&[idx(3, 1)], &[]);
    map.open_exit();
    assert!(map.try_add_bomb(pos(1, 1), bomb(4, BOMB_DURATION_NANOS)));
    map.process_map_in_tick(BOMB_DURATION_NANOS);
    assert_eq!(map.remove_bonus(pos(3, 1)), None);
    map.process_map_in_tick(SECOND);
    assert_eq!(map.open_exit_position(), Some(pos(3, 1)));
    let copy = map.clone();
    assert_eq!(copy.open_exit_position(), Some(pos(3, 1)));
    for (position, tile) in map.iter() {
        assert_eq!(copy.get_tile(position), Some(tile));
    }
}

#[test]
fn gate_opens_only_by_open_exit() {
    let mut rng = rand::rngs::StdRng::seed_from_u64(123456789);
    let mut map = WorldMap::new_random_default(&mut rng);
    let gates = |m: &WorldMap| -> Vec<(TilePosition, SpecialTile)> {
        m.iter()
            .iter()
            .filter_map(|(p, t)| match t.special() {
                Some(s @ SpecialTile::ClosedExit) | Some(s @ SpecialTile::OpenExit) => Some((*p, *s)),
                _ => None,
            })
            .collect()
    };
    let start = gates(&map);
    assert_eq!(start.len(), 1);
    assert_eq!(start[0].1, SpecialTile::ClosedExit);
    assert!(map.try_add_bomb(pos(1, 1), bomb(3, BOMB_DURATION_NANOS)));
    map.process_tick(BOMB_DURATION_NANOS);
    map.explode_bombs();
    map.convert_expired_entities();
    map.process_map_in_tick(SECOND);
    assert_eq!(map.remove_bonus(start[0].0), None);
    assert_eq!(gates(&map), start);
    assert_eq!(map.open_exit_position(), None);
    map.open_exit();
    assert_eq!(gates(&map), vec![(start[0].0, SpecialTile::OpenExit)]);
    assert_eq!(map.open_exit_position(), Some(start[0].0));
    map.process_map_in_tick(SECOND);
    assert_eq!(map.open_exit_position(), Some(start[0].0));
}

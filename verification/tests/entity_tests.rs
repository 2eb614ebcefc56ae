use bomberman::bomb::{
    animate_bomb, animate_exploding_walls, despawn_exploded_bombs, explosion_orientation,
    explosion_variant_to_tile_type, get_asset_variant, spawn_bomb_when_requested, timer_tick,
    AnimationStep, BombScale, ExplosionTiming, WallUpdate, BOMB_TICKS, EXPLOSION_TICKS,
};
use bomberman::bonuses::{apply_bonus, pick_up_bonus, NegativeEffect};
use bomberman::character::{character_directional_frames, get_character_animation_frames};
use bomberman::constants::{BOMB_DURATION_NANOS, BOMB_EXPLOSION_DURATION_NANOS, TOTAL_MAP_TILES};
use bomberman::death::{check_alive_enemies, ActorState, CHARACTER_DEATH_DURATION_NANOS};
use bomberman::enemy::animation::{
    enemy_death_frames, enemy_directional_frames, get_ghost_animation_frames,
    get_hoodie_animation_frames, get_zombie_animation_frames,
};
use bomberman::enemy::{
    choices_for, choose_next_tile, choose_next_tile_with, delayed_enemy_wave, enemies_on_tiles,
    next_tile_choices, random_direction, setup_spawn_enemies, spawn_delayed_enemies, spawn_wave,
    Enemy, EnemyMovement, MovementChoice,
};
use bomberman::map::WorldMap;
use bomberman::map_tile::{BaseTile, BombTile};
use bomberman::map_tile_marker::{MapTileMarker, MarkerBase};
use bomberman::position::TilePosition;
use bomberman::sound::{on_sound_trigger, EffectKind, SoundClip};
use bomberman::tilesets::{
    BombExplosionTileType, CharacterTileType, EnemyTileType, MapTileType, PixelRect,
};
use bomberman::timer::{Timer, TimerMode};
use bomberman::world_entities::{
    BombCount, BombRange, BonusType, Direction, ExplosionOrientation, ExplosionVariant,
};
use rand::rngs::StdRng;
use rand::SeedableRng;

const SECOND: u64 = 1_000_000_000;

fn idx(x: usize, y: usize) -> usize {
    y * 19 + x
}

fn pos(x: u32, y: u32) -> TilePosition {
    TilePosition { x, y }
}

fn candidates() -> Vec<usize> {
    let start = [idx(1, 13), idx(2, 13), idx(1, 12)];
    (0..TOTAL_MAP_TILES)
        .filter(|&i| {
            let (x, y) = (i % 19, i / 19);
            let solid = x == 0 || x == 18 || y == 0 || y == 14 || (x % 2 == 0 && y % 2 == 0);
            !solid && !start.contains(&i)
        })
        .collect()
}

fn map_with_first(first: &[usize], bonuses: &[BonusType]) -> WorldMap {
    let mut rest: Vec<usize> = candidates().into_iter().filter(|i| !first.contains(i)).collect();
    rest.reverse();
    let mut free = first.to_vec();
    free.extend(rest);
    WorldMap::from_shuffled(&free, &bonuses.to_vec())
}

#[test]
fn defaults_of_counters() {
    assert_eq!(BombRange::default(), BombRange(1));
    assert_eq!(BombCount::default(), BombCount { current: 0, max: 1 });
}

#[test]
fn timer_ticks_spread_over_duration() {
    let mut t = Timer::new(BOMB_DURATION_NANOS, TimerMode::Once);
    assert_eq!(timer_tick(&t, BOMB_TICKS), 0);
    t.tick(2 * SECOND);
    assert_eq!(timer_tick(&t, BOMB_TICKS), 2);
    t.tick(SECOND);
    assert_eq!(timer_tick(&t, BOMB_TICKS), 4);
    t.tick(10 * SECOND);
    assert_eq!(timer_tick(&t, BOMB_TICKS), 5);
    assert_eq!(timer_tick(&Timer::new(0, TimerMode::Once), 9), 8);
}

#[test]
fn explosion_animation_steps() {
    let mut timing = ExplosionTiming::new(BOMB_EXPLOSION_DURATION_NANOS, EXPLOSION_TICKS);
    assert_eq!(timing.current_tick(), 0);
    assert_eq!(AnimationStep::from_tick(&timing), AnimationStep::V1);
    timing.update(150_000_000);
    assert_eq!(AnimationStep::from_tick(&timing), AnimationStep::V2);
    timing.update(150_000_000);
    assert_eq!(timing.current_tick(), 2);
    assert_eq!(AnimationStep::from_tick(&timing), AnimationStep::V3);
    timing.update(100_000_000);
    assert_eq!(AnimationStep::from_tick(&timing), AnimationStep::V4);
    assert!(!timing.is_finished());
    timing.update(600_000_000);
    assert!(timing.is_finished());
    assert_eq!(timing.current_tick(), 8);
    assert_eq!(AnimationStep::from_tick(&timing), AnimationStep::V3);
}

#[test]
fn explosion_sprites() {
    let right = ExplosionOrientation::Right;
    assert_eq!(
        get_asset_variant(AnimationStep::V3, ExplosionVariant::Straight(right)),
        BombExplosionTileType::ExplosionStraight3
    );
    assert_eq!(get_asset_variant(AnimationStep::V4, ExplosionVariant::Center), BombExplosionTileType::ExplosionCenter4);
    assert_eq!(get_asset_variant(AnimationStep::V2, ExplosionVariant::End(right)), BombExplosionTileType::ExplosionEnd2);
    assert_eq!(explosion_variant_to_tile_type(ExplosionVariant::End(right)), BombExplosionTileType::ExplosionEnd1);
    assert_eq!(explosion_orientation(ExplosionVariant::End(right)), right);
    assert_eq!(explosion_orientation(ExplosionVariant::Center), ExplosionOrientation::Up);
    assert_eq!(
        BombExplosionTileType::ExplosionCenter1.sprite_rect(),
        PixelRect { x: 19, y: 170, width: 16, height: 16 }
    );
}

#[test]
fn bomb_placement_rules() {
    let mut map = map_with_first(&[idx(17, 13)], &[]);
    let mut count = BombCount::default();
    assert!(!spawn_bomb_when_requested(&mut map, false, pos(1, 1), BombRange(2), &mut count));
    assert_eq!(count.current, 0);
    assert!(spawn_bomb_when_requested(&mut map, true, pos(1, 1), BombRange(2), &mut count));
    assert_eq!(count, BombCount { current: 1, max: 1 });
    let placed = map.get_tile(pos(1, 1)).unwrap().bomb_or_explosion().unwrap().bomb().unwrap().clone();
    assert_eq!(placed.range, 2);
    assert_eq!(placed.timer.duration_nanos(), BOMB_DURATION_NANOS);
    assert!(!spawn_bomb_when_requested(&mut map, true, pos(3, 1), BombRange(2), &mut count));
    count.max = 3;
    assert!(!spawn_bomb_when_requested(&mut map, true, pos(1, 1), BombRange(2), &mut count));
    assert!(!spawn_bomb_when_requested(&mut map, true, pos(2, 2), BombRange(2), &mut count));
    assert!(!spawn_bomb_when_requested(&mut map, true, pos(0, 1), BombRange(2), &mut count));
    assert!(!spawn_bomb_when_requested(&mut map, true, pos(50, 1), BombRange(2), &mut count));
    assert!(spawn_bomb_when_requested(&mut map, true, pos(3, 1), BombRange(1), &mut count));
    assert_eq!(count.current, 2);
    assert!(map.explosions_stay_on_map(BOMB_DURATION_NANOS));
    despawn_exploded_bombs(&mut count, 2);
    assert_eq!(count, BombCount { current: 0, max: 3 });
}

#[test]
fn bomb_pulses_with_its_fuse() {
    let mut map = map_with_first(&[idx(17, 13)], &[]);
    assert_eq!(animate_bomb(&map, pos(1, 1)), None);
    assert!(map.try_add_bomb(pos(1, 1), BombTile { timer: Timer::new(BOMB_DURATION_NANOS, TimerMode::Once), range: 1 }));
    assert_eq!(animate_bomb(&map, pos(1, 1)), Some(BombScale::Normal));
    map.process_map_in_tick(SECOND);
    assert_eq!(animate_bomb(&map, pos(1, 1)), Some(BombScale::Shrunk));
    map.process_map_in_tick(3 * SECOND + 200_000_000);
    assert_eq!(animate_bomb(&map, pos(1, 1)), Some(BombScale::Swollen));
}

#[test]
fn walls_fade_then_disappear() {
    let mut map = map_with_first(&[idx(17, 13), idx(3, 1)], &[]);
    assert_eq!(animate_exploding_walls(&map, pos(3, 1)), None);
    assert_eq!(animate_exploding_walls(&map, pos(1, 1)), Some(WallUpdate::Remove));
    assert!(map.try_add_bomb(pos(1, 1), BombTile { timer: Timer::new(BOMB_DURATION_NANOS, TimerMode::Once), range: 2 }));
    map.process_map_in_tick(BOMB_DURATION_NANOS);
    assert_eq!(animate_exploding_walls(&map, pos(3, 1)), Some(WallUpdate::Fade(MapTileType::WallFade1)));
    map.process_map_in_tick(300_000_000);
    assert_eq!(animate_exploding_walls(&map, pos(3, 1)), Some(WallUpdate::Fade(MapTileType::WallFade2)));
    map.process_map_in_tick(400_000_000);
    assert_eq!(animate_exploding_walls(&map, pos(3, 1)), Some(WallUpdate::Fade(MapTileType::WallFade3)));
    map.process_map_in_tick(300_000_000);
    assert_eq!(animate_exploding_walls(&map, pos(3, 1)), Some(WallUpdate::Remove));
    assert_eq!(*map.get_tile(pos(3, 1)).unwrap().base_type(), BaseTile::Floor);
}

#[test]
fn power_ups_change_counters() {
    let mut range = BombRange(1);
    let mut count = BombCount::default();
    assert_eq!(apply_bonus(BonusType::Range, &mut range, &mut count, true), None);
    assert_eq!(range, BombRange(2));
    assert_eq!(apply_bonus(BonusType::BombCount, &mut range, &mut count, true), None);
    assert_eq!(count, BombCount { current: 0, max: 2 });
    assert_eq!(
        apply_bonus(BonusType::Negative, &mut range, &mut count, true),
        Some(NegativeEffect::SlowCharacter)
    );
    assert_eq!(
        apply_bonus(BonusType::Negative, &mut range, &mut count, false),
        Some(NegativeEffect::SpeedUpEnemies)
    );
    assert_eq!(apply_bonus(BonusType::Hook, &mut range, &mut count, false), None);
    assert_eq!((range, count), (BombRange(2), BombCount { current: 0, max: 2 }));
}

#[test]
fn picking_up_power_ups() {
    let mut rng = StdRng::seed_from_u64(7);
    let mut map = map_with_first(&[idx(17, 13), idx(3, 1), idx(5, 1)], &[BonusType::Range, BonusType::Negative]);
    let mut range = BombRange(1);
    let mut count = BombCount::default();
    assert_eq!(pick_up_bonus(&mut map, pos(1, 1), &mut range, &mut count, &mut rng), None);
    assert_eq!(
        pick_up_bonus(&mut map, pos(3, 1), &mut range, &mut count, &mut rng),
        Some((BonusType::Range, None))
    );
    assert_eq!(range, BombRange(2));
    assert_eq!(pick_up_bonus(&mut map, pos(3, 1), &mut range, &mut count, &mut rng), None);
    let negative = pick_up_bonus(&mut map, pos(5, 1), &mut range, &mut count, &mut rng);
    assert!(matches!(negative, Some((BonusType::Negative, Some(_)))));
    assert_eq!(range, BombRange(2));
    assert_eq!(count, BombCount::default());
}

#[test]
fn enemy_picks_first_open_way() {
    let map = map_with_first(&[idx(17, 13), idx(3, 3)], &[]);
    let straight_first = choices_for(true, false);
    let left_first = choices_for(false, true);
    let right_first = choices_for(false, false);
    assert_eq!(straight_first[0], MovementChoice::Straight);
    assert_eq!(left_first[0], MovementChoice::Left);
    assert_eq!(right_first[0], MovementChoice::Right);
    assert_eq!(choose_next_tile_with(Direction::Right, pos(1, 1), &map, &straight_first), pos(2, 1));
    assert_eq!(choose_next_tile_with(Direction::Left, pos(1, 1), &map, &straight_first), pos(1, 2));
    assert_eq!(choose_next_tile_with(Direction::Down, pos(1, 1), &map, &straight_first), pos(2, 1));
    assert_eq!(choose_next_tile_with(Direction::Right, pos(1, 1), &map, &left_first), pos(2, 1));
    assert_eq!(choose_next_tile_with(Direction::Up, pos(3, 2), &map, &straight_first), pos(3, 1));
    assert_eq!(choose_next_tile_with(Direction::Up, pos(1, 13), &map, &straight_first), pos(2, 13));
    assert_eq!(choose_next_tile_with(Direction::Up, pos(17, 1), &map, &right_first), pos(16, 1));
    assert_eq!(MovementChoice::Left.to_direction(Direction::Up), Some(Direction::Right));
    assert_eq!(MovementChoice::Right.to_direction(Direction::Up), Some(Direction::Left));
    assert_eq!(MovementChoice::Return.to_direction(Direction::Left), Some(Direction::Right));
    assert_eq!(MovementChoice::Stop.to_direction(Direction::Left), None);
}

#[test]
fn stopping_steps_upwards() {
    let map = map_with_first(&[idx(17, 13)], &[]);
    let stop_only = [
        MovementChoice::Stop,
        MovementChoice::Stop,
        MovementChoice::Stop,
        MovementChoice::Stop,
        MovementChoice::Stop,
    ];
    assert_eq!(choose_next_tile_with(Direction::Right, pos(1, 1), &map, &stop_only), pos(1, 2));
    assert_eq!(choose_next_tile_with(Direction::Right, pos(2, 1), &map, &stop_only), pos(2, 1));
}

#[test]
fn random_enemy_choices() {
    let mut rng = StdRng::seed_from_u64(123456789);
    let mut firsts = Vec::new();
    let mut directions = Vec::new();
    for _ in 0..200 {
        let c = next_tile_choices(&mut rng);
        assert!(c == choices_for(true, false) || c == choices_for(false, true) || c == choices_for(false, false));
        if !firsts.contains(&c[0]) {
            firsts.push(c[0]);
        }
        let d = random_direction(&mut rng);
        if !directions.contains(&d) {
            directions.push(d);
        }
    }
    assert_eq!(firsts.len(), 3);
    assert_eq!(directions.len(), 4);
    let map = map_with_first(&[idx(17, 13)], &[]);
    for _ in 0..50 {
        let next = choose_next_tile(None, pos(1, 1), &map, &mut rng);
        assert!(next == pos(2, 1) || next == pos(1, 2));
        let next = choose_next_tile(Some(Direction::Up), pos(1, 1), &map, &mut rng);
        assert!(next == pos(1, 2) || next == pos(2, 1));
    }
}

#[test]
fn enemies_spawn_on_free_tiles() {
    assert_eq!(
        spawn_wave(),
        vec![
            Enemy::Zombie,
            Enemy::Zombie,
            Enemy::Zombie,
            Enemy::Zombie,
            Enemy::Phantom,
            Enemy::Phantom,
            Enemy::Hoodie,
            Enemy::Hoodie
        ]
    );
    let few = enemies_on_tiles(&vec![pos(1, 1), pos(3, 1)]);
    assert_eq!(few, vec![(pos(1, 1), Enemy::Zombie), (pos(3, 1), Enemy::Zombie)]);
    let mut rng = StdRng::seed_from_u64(1);
    let map = map_with_first(&[idx(17, 13)], &[]);
    let spawned = setup_spawn_enemies(&map, &mut rng);
    assert_eq!(spawned.len(), 8);
    let free = map.iter_empty_non_starting_tiles();
    for (i, (p, e)) in spawned.iter().enumerate() {
        assert_eq!(*e, spawn_wave()[i]);
        assert!(free.contains(p));
        assert!(spawned.iter().filter(|(q, _)| q == p).count() == 1);
    }
    let firsts: Vec<TilePosition> = spawned.iter().map(|(p, _)| *p).collect();
    assert_ne!(firsts, free[..8].to_vec());
    assert_eq!(EnemyMovement::new(pos(4, 5)), EnemyMovement { desired_position: pos(4, 5), last_direction: None });
}

#[test]
fn delayed_wave_comes_out_when_timer_ends() {
    assert_eq!(delayed_enemy_wave(), [Enemy::Zombie, Enemy::Zombie, Enemy::Phantom, Enemy::Phantom]);
    let mut timer = Timer::new(2 * SECOND, TimerMode::Once);
    assert_eq!(spawn_delayed_enemies(&mut timer, SECOND), None);
    assert_eq!(
        spawn_delayed_enemies(&mut timer, SECOND),
        Some([Enemy::Zombie, Enemy::Zombie, Enemy::Phantom, Enemy::Phantom])
    );
}

#[test]
fn enemy_and_character_animations() {
    let z = get_zombie_animation_frames(Direction::Down);
    let tiles: Vec<EnemyTileType> = z.iter().map(|f| *f.tile()).collect();
    assert_eq!(
        tiles,
        vec![EnemyTileType::ZombieDown2, EnemyTileType::ZombieDown1, EnemyTileType::ZombieDown2, EnemyTileType::ZombieDown3]
    );
    let g = get_ghost_animation_frames(Direction::Right);
    assert!(g.iter().all(|f| f.flip_x()));
    assert_eq!(*g[3].tile(), EnemyTileType::GhostLeft3);
    let h = get_hoodie_animation_frames(Direction::Up);
    assert_eq!(*h[1].tile(), EnemyTileType::HoodieUp1);
    assert!(!h[1].flip_x());
    let all = enemy_directional_frames(Enemy::Hoodie);
    assert_eq!(*all.get(Direction::Left)[0].tile(), EnemyTileType::HoodieLeft2);
    let death = enemy_death_frames(Enemy::Hoodie);
    assert_eq!(death.len(), 4);
    assert_eq!(*death[1].0.tile(), EnemyTileType::HoodieDeath1);
    assert_eq!(death.iter().map(|(_, w)| *w).sum::<u32>(), 6);
    assert_eq!(enemy_death_frames(Enemy::Zombie).len(), 5);
    let c = get_character_animation_frames(Direction::Left);
    assert_eq!(*c[2].tile(), CharacterTileType::MovingRight1);
    assert!(c[2].flip_x());
    let down = get_character_animation_frames(Direction::Down);
    assert!(!down[1].flip_x() && down[3].flip_x());
    assert_eq!(*character_directional_frames().get(Direction::Up)[0].tile(), CharacterTileType::StandingUp);
}

#[test]
fn dying_and_winning() {
    let mut s = ActorState::Alive;
    assert!(s.is_alive());
    assert!(!s.advance_death_timer(SECOND));
    assert!(s.kill(CHARACTER_DEATH_DURATION_NANOS));
    assert!(!s.kill(CHARACTER_DEATH_DURATION_NANOS));
    assert!(!s.win());
    assert!(!s.advance_death_timer(2 * SECOND));
    assert!(!s.death_finished());
    assert!(s.advance_death_timer(SECOND));
    assert!(s.death_finished());
    let mut w = ActorState::Alive;
    assert!(w.win());
    assert!(matches!(w, ActorState::Victory(_)));
    assert!(!w.kill(SECOND));
    assert!(!w.death_finished());
    assert!(check_alive_enemies(false, 0));
    assert!(!check_alive_enemies(true, 0));
    assert!(!check_alive_enemies(false, 3));
}

#[test]
fn tile_marker_rules() {
    let mut wall = MapTileMarker::basic_wall();
    assert!(wall.is_basic_wall());
    wall.set_bomb(true);
    assert!(!wall.has_bomb());
    wall.set_explosion(true);
    assert!(wall.has_explosion());
    wall.remove_wall().set_explosion(false);
    assert!(wall.is_floor());
    assert!(wall.is_walkable());
    assert!(wall.is_ai_walkable());
    wall.set_bomb(true);
    assert!(wall.has_bomb());
    assert!(wall.is_obstacle());
    let mut solid = MapTileMarker::indestructible_wall();
    solid.set_explosion(true).remove_wall();
    assert!(!solid.has_explosion());
    assert_eq!(solid.tile_base(), MarkerBase::IndestructibleWall);
    let floor = MapTileMarker::floor().with_exit().with_bonus(BonusType::Range);
    let mut cleared = floor;
    cleared.clear_bonus();
    assert_ne!(floor, cleared);
    assert_eq!(cleared, MapTileMarker::floor().with_exit());
    assert_eq!(MapTileMarker::new(MarkerBase::Floor), MapTileMarker::floor());
}

#[test]
fn sounds_of_events() {
    let explosion = on_sound_trigger(EffectKind::Explosion);
    assert_eq!(explosion.len(), 8);
    assert!(explosion.iter().all(|s| s.quiet));
    assert_eq!(explosion[5].clip, SoundClip::ExplosionFirst);
    assert_eq!(explosion[5].delay_ms, Some(0));
    assert_eq!(explosion[7].delay_ms, Some(400));
    let death = on_sound_trigger(EffectKind::EnemyDeath);
    assert_eq!(death.len(), 1);
    assert_eq!(death[0].delay_ms, Some(1500));
    let pick = on_sound_trigger(EffectKind::PickUp);
    assert_eq!(pick[0].clip, SoundClip::PickUp);
    assert_eq!(pick[0].delay_ms, None);
    assert!(!pick[0].quiet);
}

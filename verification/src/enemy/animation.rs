use vstd::prelude::*;

use crate::animation::{AnimationRenderFrame, DirectionalFrames, ANIMATION_FRAME_COUNT};
use crate::enemy::Enemy;
use crate::tilesets::EnemyTileType;
use crate::world_entities::Direction;

verus! {

/// Frames `fs` show the sprites `tiles` in order, all mirrored or all not as `flip` says.
pub open spec fn frames_show<TT>(fs: Seq<AnimationRenderFrame<TT>>, tiles: Seq<TT>, flip: bool) -> bool {
    &&& fs.len() == tiles.len()
    &&& forall|i: int|
        0 <= i < fs.len() ==> (#[trigger] fs[i]).spec_tile() == tiles[i] && fs[i].spec_flip_x() == flip
}

/// The three walking sprites (first, second, third step) of an enemy facing `direction`;
/// walking right shows the sprites of walking left, mirrored.
pub open spec fn spec_enemy_steps(enemy: Enemy, direction: Direction) -> (EnemyTileType, EnemyTileType, EnemyTileType) {
    match (enemy, direction) {
        (Enemy::Zombie, Direction::Up) => (EnemyTileType::ZombieUp1, EnemyTileType::ZombieUp2, EnemyTileType::ZombieUp3),
        (Enemy::Zombie, Direction::Down) => (EnemyTileType::ZombieDown1, EnemyTileType::ZombieDown2, EnemyTileType::ZombieDown3),
        (Enemy::Zombie, _) => (EnemyTileType::ZombieLeft1, EnemyTileType::ZombieLeft2, EnemyTileType::ZombieLeft3),
        (Enemy::Phantom, Direction::Up) => (EnemyTileType::GhostUp1, EnemyTileType::GhostUp2, EnemyTileType::GhostUp3),
        (Enemy::Phantom, Direction::Down) => (EnemyTileType::GhostDown1, EnemyTileType::GhostDown2, EnemyTileType::GhostDown3),
        (Enemy::Phantom, _) => (EnemyTileType::GhostLeft1, EnemyTileType::GhostLeft2, EnemyTileType::GhostLeft3),
        (Enemy::Hoodie, Direction::Up) => (EnemyTileType::HoodieUp1, EnemyTileType::HoodieUp2, EnemyTileType::HoodieUp3),
        (Enemy::Hoodie, Direction::Down) => (EnemyTileType::HoodieDown1, EnemyTileType::HoodieDown2, EnemyTileType::HoodieDown3),
        (Enemy::Hoodie, _) => (EnemyTileType::HoodieLeft1, EnemyTileType::HoodieLeft2, EnemyTileType::HoodieLeft3),
    }
}

/// The walking animation of an enemy: second, first, second and third step.
pub open spec fn spec_enemy_walk_tiles(enemy: Enemy, direction: Direction) -> Seq<EnemyTileType> {
    let (s1, s2, s3) = spec_enemy_steps(enemy, direction);
    seq![s2, s1, s2, s3]
}

/// The walking animation of `enemy` facing `direction`.
pub fn enemy_animation_frames(enemy: Enemy, direction: Direction) -> (r: [AnimationRenderFrame<EnemyTileType>; ANIMATION_FRAME_COUNT])
    ensures
        frames_show(r@, spec_enemy_walk_tiles(enemy, direction), direction == Direction::Right),
{
    let (s1, s2, s3) = match (enemy, direction) {
        (Enemy::Zombie, Direction::Up) => (EnemyTileType::ZombieUp1, EnemyTileType::ZombieUp2, EnemyTileType::ZombieUp3),
        (Enemy::Zombie, Direction::Down) => (EnemyTileType::ZombieDown1, EnemyTileType::ZombieDown2, EnemyTileType::ZombieDown3),
        (Enemy::Zombie, _) => (EnemyTileType::ZombieLeft1, EnemyTileType::ZombieLeft2, EnemyTileType::ZombieLeft3),
        (Enemy::Phantom, Direction::Up) => (EnemyTileType::GhostUp1, EnemyTileType::GhostUp2, EnemyTileType::GhostUp3),
        (Enemy::Phantom, Direction::Down) => (EnemyTileType::GhostDown1, EnemyTileType::GhostDown2, EnemyTileType::GhostDown3),
        (Enemy::Phantom, _) => (EnemyTileType::GhostLeft1, EnemyTileType::GhostLeft2, EnemyTileType::GhostLeft3),
        (Enemy::Hoodie, Direction::Up) => (EnemyTileType::HoodieUp1, EnemyTileType::HoodieUp2, EnemyTileType::HoodieUp3),
        (Enemy::Hoodie, Direction::Down) => (EnemyTileType::HoodieDown1, EnemyTileType::HoodieDown2, EnemyTileType::HoodieDown3),
        (Enemy::Hoodie, _) => (EnemyTileType::HoodieLeft1, EnemyTileType::HoodieLeft2, EnemyTileType::HoodieLeft3),
    };
    let flip = match direction {
        Direction::Right => true,
        _ => false,
    };
    let r = [
        AnimationRenderFrame::new(s2, flip),
        AnimationRenderFrame::new(s1, flip),
        AnimationRenderFrame::new(s2, flip),
        AnimationRenderFrame::new(s3, flip),
    ];
    assert(frames_show(r@, spec_enemy_walk_tiles(enemy, direction), direction == Direction::Right));
    r
}

/// The walking animation of a zombie facing `direction`.
pub fn get_zombie_animation_frames(direction: Direction) -> (r: [AnimationRenderFrame<EnemyTileType>; ANIMATION_FRAME_COUNT])
    ensures
        frames_show(r@, spec_enemy_walk_tiles(Enemy::Zombie, direction), direction == Direction::Right),
{
    enemy_animation_frames(Enemy::Zombie, direction)
}

/// The walking animation of a phantom facing `direction`.
pub fn get_ghost_animation_frames(direction: Direction) -> (r: [AnimationRenderFrame<EnemyTileType>; ANIMATION_FRAME_COUNT])
    ensures
        frames_show(r@, spec_enemy_walk_tiles(Enemy::Phantom, direction), direction == Direction::Right),
{
    enemy_animation_frames(Enemy::Phantom, direction)
}

/// The walking animation of a hoodie facing `direction`.
pub fn get_hoodie_animation_frames(direction: Direction) -> (r: [AnimationRenderFrame<EnemyTileType>; ANIMATION_FRAME_COUNT])
    ensures
        frames_show(r@, spec_enemy_walk_tiles(Enemy::Hoodie, direction), direction == Direction::Right),
{
    enemy_animation_frames(Enemy::Hoodie, direction)
}

/// The walking animations of an enemy in the four directions.
pub fn enemy_directional_frames(enemy: Enemy) -> (r: DirectionalFrames<EnemyTileType>)
    ensures
        forall|d: Direction| frames_show(#[trigger] r.spec_get(d), spec_enemy_walk_tiles(enemy, d), d == Direction::Right),
{
    let r = DirectionalFrames {
        up: enemy_animation_frames(enemy, Direction::Up),
        down: enemy_animation_frames(enemy, Direction::Down),
        left: enemy_animation_frames(enemy, Direction::Left),
        right: enemy_animation_frames(enemy, Direction::Right),
    };
    assert forall|d: Direction| frames_show(#[trigger] r.spec_get(d), spec_enemy_walk_tiles(enemy, d), d == Direction::Right) by {
        match d {
            Direction::Up => {},
            Direction::Down => {},
            Direction::Left => {},
            Direction::Right => {},
        }
    }
    r
}

/// The sprites of a dying enemy, each with its weight (its share of the dying time).
pub open spec fn spec_enemy_death_tiles(enemy: Enemy) -> Seq<(EnemyTileType, u32)> {
    match enemy {
        Enemy::Zombie => seq![
            (EnemyTileType::ZombieDown2, 2u32),
            (EnemyTileType::ZombieDeath1, 2u32),
            (EnemyTileType::ZombieDeath2, 1u32),
            (EnemyTileType::ZombieDeath3, 1u32),
            (EnemyTileType::ZombieDeath4, 1u32),
        ],
        Enemy::Phantom => seq![
            (EnemyTileType::GhostDown2, 2u32),
            (EnemyTileType::GhostDeath1, 2u32),
            (EnemyTileType::GhostDeath2, 1u32),
            (EnemyTileType::GhostDeath3, 1u32),
            (EnemyTileType::GhostDeath4, 1u32),
        ],
        Enemy::Hoodie => seq![
            (EnemyTileType::HoodieDown2, 2u32),
            (EnemyTileType::HoodieDeath1, 2u32),
            (EnemyTileType::HoodieDeath2, 1u32),
            (EnemyTileType::HoodieDeath3, 1u32),
        ],
    }
}

/// The weighted frames of the death animation of an enemy, none of them mirrored.
pub fn enemy_death_frames(enemy: Enemy) -> (r: Vec<(AnimationRenderFrame<EnemyTileType>, u32)>)
    ensures
        r@.len() == spec_enemy_death_tiles(enemy).len(),
        forall|i: int|
            0 <= i < r@.len() ==> (#[trigger] r@[i]).0.spec_tile() == spec_enemy_death_tiles(enemy)[i].0
                && !r@[i].0.spec_flip_x() && r@[i].1 == spec_enemy_death_tiles(enemy)[i].1,
{
    let tiles: Vec<(EnemyTileType, u32)> = match enemy {
        Enemy::Zombie => vec![
            (EnemyTileType::ZombieDown2, 2u32),
            (EnemyTileType::ZombieDeath1, 2u32),
            (EnemyTileType::ZombieDeath2, 1u32),
            (EnemyTileType::ZombieDeath3, 1u32),
            (EnemyTileType::ZombieDeath4, 1u32),
        ],
        Enemy::Phantom => vec![
            (EnemyTileType::GhostDown2, 2u32),
            (EnemyTileType::GhostDeath1, 2u32),
            (EnemyTileType::GhostDeath2, 1u32),
            (EnemyTileType::GhostDeath3, 1u32),
            (EnemyTileType::GhostDeath4, 1u32),
        ],
        Enemy::Hoodie => vec![
            (EnemyTileType::HoodieDown2, 2u32),
            (EnemyTileType::HoodieDeath1, 2u32),
            (EnemyTileType::HoodieDeath2, 1u32),
            (EnemyTileType::HoodieDeath3, 1u32),
        ],
    };
    assert(tiles@ =~= spec_enemy_death_tiles(enemy));
    let mut r: Vec<(AnimationRenderFrame<EnemyTileType>, u32)> = Vec::new();
    let mut i: usize = 0;
    while i < tiles.len()
        invariant
            tiles@ == spec_enemy_death_tiles(enemy),
            i <= tiles.len(),
            r@.len() == i,
            forall|k: int|
                0 <= k < i ==> (#[trigger] r@[k]).0.spec_tile() == tiles@[k].0 && !r@[k].0.spec_flip_x()
                    && r@[k].1 == tiles@[k].1,
        decreases tiles.len() - i,
    {
        let (tile, weight) = tiles[i];
        r.push((AnimationRenderFrame::new(tile, false), weight));
        i = i + 1;
    }
    r
}

} // verus!

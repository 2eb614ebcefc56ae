use vstd::prelude::*;

use crate::animation::{AnimationRenderFrame, DirectionalFrames, ANIMATION_FRAME_COUNT};
use crate::tilesets::CharacterTileType;
use crate::world_entities::Direction;

verus! {

/// The sprites of the walking animation of the character facing `direction`, and whether
/// each frame is mirrored.
pub open spec fn spec_character_walk(direction: Direction) -> Seq<(CharacterTileType, bool)> {
    match direction {
        Direction::Down => seq![
            (CharacterTileType::StandingDown, false),
            (CharacterTileType::MovingDown, false),
            (CharacterTileType::StandingDown, false),
            (CharacterTileType::MovingDown, true),
        ],
        Direction::Up => seq![
            (CharacterTileType::StandingUp, false),
            (CharacterTileType::MovingUp, false),
            (CharacterTileType::StandingUp, false),
            (CharacterTileType::MovingUp, true),
        ],
        Direction::Right => seq![
            (CharacterTileType::StandingRight, false),
            (CharacterTileType::MovingRight2, false),
            (CharacterTileType::MovingRight1, false),
            (CharacterTileType::MovingRight2, false),
        ],
        Direction::Left => seq![
            (CharacterTileType::StandingRight, true),
            (CharacterTileType::MovingRight2, true),
            (CharacterTileType::MovingRight1, true),
            (CharacterTileType::MovingRight2, true),
        ],
    }
}

/// Frames `fs` show the sprites and mirroring of `walk`, in order.
pub open spec fn frames_walk(fs: Seq<AnimationRenderFrame<CharacterTileType>>, walk: Seq<(CharacterTileType, bool)>) -> bool {
    &&& fs.len() == walk.len()
    &&& forall|i: int|
        0 <= i < fs.len() ==> (#[trigger] fs[i]).spec_tile() == walk[i].0 && fs[i].spec_flip_x() == walk[i].1
}

/// The walking animation of the character facing `direction`.
pub fn get_character_animation_frames(direction: Direction) -> (r: [AnimationRenderFrame<CharacterTileType>; ANIMATION_FRAME_COUNT])
    ensures
        frames_walk(r@, spec_character_walk(direction)),
{
    let r = match direction {
        Direction::Down => [
            AnimationRenderFrame::new(CharacterTileType::StandingDown, false),
            AnimationRenderFrame::new(CharacterTileType::MovingDown, false),
            AnimationRenderFrame::new(CharacterTileType::StandingDown, false),
            AnimationRenderFrame::new(CharacterTileType::MovingDown, true),
        ],
        Direction::Up => [
            AnimationRenderFrame::new(CharacterTileType::StandingUp, false),
            AnimationRenderFrame::new(CharacterTileType::MovingUp, false),
            AnimationRenderFrame::new(CharacterTileType::StandingUp, false),
            AnimationRenderFrame::new(CharacterTileType::MovingUp, true),
        ],
        Direction::Right => [
            AnimationRenderFrame::new(CharacterTileType::StandingRight, false),
            AnimationRenderFrame::new(CharacterTileType::MovingRight2, false),
            AnimationRenderFrame::new(CharacterTileType::MovingRight1, false),
            AnimationRenderFrame::new(CharacterTileType::MovingRight2, false),
        ],
        Direction::Left => [
            AnimationRenderFrame::new(CharacterTileType::StandingRight, true),
            AnimationRenderFrame::new(CharacterTileType::MovingRight2, true),
            AnimationRenderFrame::new(CharacterTileType::MovingRight1, true),
            AnimationRenderFrame::new(CharacterTileType::MovingRight2, true),
        ],
    };
    assert(frames_walk(r@, spec_character_walk(direction)));
    r
}

/// The walking animations of the character in the four directions.
pub fn character_directional_frames() -> (r: DirectionalFrames<CharacterTileType>)
    ensures
        forall|d: Direction| frames_walk(#[trigger] r.spec_get(d), spec_character_walk(d)),
{
    let r = DirectionalFrames {
        up: get_character_animation_frames(Direction::Up),
        down: get_character_animation_frames(Direction::Down),
        left: get_character_animation_frames(Direction::Left),
        right: get_character_animation_frames(Direction::Right),
    };
    assert forall|d: Direction| frames_walk(#[trigger] r.spec_get(d), spec_character_walk(d)) by {
        match d {
            Direction::Up => {},
            Direction::Down => {},
            Direction::Left => {},
            Direction::Right => {},
        }
    }
    r
}

} // verus!

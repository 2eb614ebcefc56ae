use vstd::prelude::*;

use crate::timer::{fresh_timer, tick_spec, Timer, TimerMode, TimerView};
use crate::world_entities::Direction;

verus! {

/// The length of one frame of a walking animation, in nanoseconds.
pub const ANIMATION_FRAME_DURATION_NANOS: u64 = 100_000_000;

/// How many frames a walking animation has.
pub const ANIMATION_FRAME_COUNT: usize = 4;

/// The direction a unit is moving in, if it moves.
#[derive(Debug, Clone, Copy, PartialEq, Eq, Structural)]
pub struct MovementDirection(pub Option<Direction>);

/// One frame of an animation: a sprite, possibly mirrored horizontally.
#[derive(Debug, Clone, Copy, PartialEq, Eq)]
pub struct AnimationRenderFrame<TT> {
    tile: TT,
    flip_x: bool,
}

impl<TT> AnimationRenderFrame<TT> {
    pub closed spec fn spec_tile(&self) -> TT {
        self.tile
    }

    pub closed spec fn spec_flip_x(&self) -> bool {
        self.flip_x
    }

    pub fn new(tile: TT, flip_x: bool) -> (f: Self)
        ensures
            f.spec_tile() == tile,
            f.spec_flip_x() == flip_x,
    {
        Self { tile, flip_x }
    }

    pub fn tile(&self) -> (t: &TT)
        ensures
            *t == self.spec_tile(),
    {
        &self.tile
    }

    pub fn flip_x(&self) -> (b: bool)
        ensures
            b == self.spec_flip_x(),
    {
        self.flip_x
    }
}

/// The walking animations of a unit, one per direction.
#[derive(Debug, Clone, Copy, PartialEq, Eq)]
pub struct DirectionalFrames<TT> {
    pub up: [AnimationRenderFrame<TT>; ANIMATION_FRAME_COUNT],
    pub down: [AnimationRenderFrame<TT>; ANIMATION_FRAME_COUNT],
    pub left: [AnimationRenderFrame<TT>; ANIMATION_FRAME_COUNT],
    pub right: [AnimationRenderFrame<TT>; ANIMATION_FRAME_COUNT],
}

impl<TT> DirectionalFrames<TT> {
    pub open spec fn spec_get(&self, direction: Direction) -> Seq<AnimationRenderFrame<TT>> {
        match direction {
            Direction::Up => self.up@,
            Direction::Down => self.down@,
            Direction::Left => self.left@,
            Direction::Right => self.right@,
        }
    }

    /// The animation for walking in `direction`.
    pub fn get(&self, direction: Direction) -> (r: &[AnimationRenderFrame<TT>; ANIMATION_FRAME_COUNT])
        ensures
            r@ == self.spec_get(direction),
    {
        match direction {
            Direction::Up => &self.up,
            Direction::Down => &self.down,
            Direction::Left => &self.left,
            Direction::Right => &self.right,
        }
    }
}

/// The state of a walking animation.
pub struct AnimationView<TT> {
    pub timer: TimerView,
    pub frames: DirectionalFrames<TT>,
    pub direction: Direction,
    pub frame_index: int,
    pub last_moving: Option<Direction>,
}

/// Plays the walking animation of a unit: while it moves, the frames advance every
/// `ANIMATION_FRAME_DURATION_NANOS`; when it stops, the animation rests on its first frame.
#[derive(Debug, Clone, Copy)]
pub struct AnimationController<TT> {
    timer: Timer,
    frames: DirectionalFrames<TT>,
    current_direction: Direction,
    current_frame_index: usize,
    last_moving: MovementDirection,
}

impl<TT> View for AnimationController<TT> {
    type V = AnimationView<TT>;

    closed spec fn view(&self) -> AnimationView<TT> {
        AnimationView {
            timer: self.timer@,
            frames: self.frames,
            direction: self.current_direction,
            frame_index: self.current_frame_index as int,
            last_moving: self.last_moving.0,
        }
    }
}

/// The animation after `update(delta, direction)`.
pub open spec fn animation_updated<TT>(
    old: AnimationView<TT>,
    new: AnimationView<TT>,
    delta: nat,
    direction: Option<Direction>,
) -> bool {
    match direction {
        Some(d) => {
            let start = if old.last_moving is None {
                1
            } else {
                old.frame_index
            };
            let timer = tick_spec(old.timer, delta);
            &&& new.timer == timer
            &&& new.frame_index == (start + timer.times_finished_this_tick) % (
            ANIMATION_FRAME_COUNT as int)
            &&& new.direction == d
            &&& new.last_moving == Some(d)
            &&& new.frames == old.frames
        },
        None => {
            &&& new.timer == fresh_timer(old.timer.duration, old.timer.mode)
            &&& new.frame_index == 0
            &&& new.direction == old.direction
            &&& new.last_moving is None
            &&& new.frames == old.frames
        },
    }
}

impl<TT> AnimationController<TT> {
    /// The frame index stays within the animation.
    pub open spec fn well_formed(&self) -> bool {
        0 <= self@.frame_index < ANIMATION_FRAME_COUNT
    }

    /// A unit standing still, facing down.
    pub fn new(frames: DirectionalFrames<TT>) -> (c: Self)
        ensures
            c@.timer == fresh_timer(ANIMATION_FRAME_DURATION_NANOS as nat, TimerMode::Repeating),
            c@.frames == frames,
            c@.direction == Direction::Down,
            c@.frame_index == 0,
            c@.last_moving is None,
            c.well_formed(),
    {
        Self {
            timer: Timer::new(ANIMATION_FRAME_DURATION_NANOS, TimerMode::Repeating),
            frames,
            current_direction: Direction::Down,
            current_frame_index: 0,
            last_moving: MovementDirection(None),
        }
    }

    /// Advances the animation by `delta_ns` nanoseconds for a unit moving in `direction`.
    /// A unit that starts moving shows its first step right away.
    pub fn update(&mut self, delta_ns: u64, direction: MovementDirection)
        requires
            old(self).well_formed(),
        ensures
            final(self).well_formed(),
            animation_updated(old(self)@, final(self)@, delta_ns as nat, direction.0),
            direction.0 is None ==> final(self)@.frame_index == 0 && final(self)@.direction == old(self)@.direction,
            direction.0 matches Some(d) ==> final(self)@.direction == d,
    {
        if let Some(direction) = direction.0 {
            if self.last_moving.0.is_none() {
                // Advance animation so we always start by character taking a step as first
                // animation.
                self.current_frame_index = 1;
            }
            let ghost start = self.current_frame_index as int;
            self.last_moving = MovementDirection(Some(direction));
            self.timer.tick(delta_ns);
            let times_finished = self.timer.times_finished_this_tick();
            if times_finished > 0 {
                let steps = (times_finished % 4) as usize;
                proof {
                    vstd::arithmetic::div_mod::lemma_add_mod_noop(start, times_finished as int, 4);
                    vstd::arithmetic::div_mod::lemma_mod_bound(steps as int + start, 4);
                }
                self.current_frame_index = (self.current_frame_index + steps) % ANIMATION_FRAME_COUNT;
                proof {
                    vstd::arithmetic::div_mod::lemma_small_mod(steps as nat, 4);
                }
            } else {
                proof {
                    vstd::arithmetic::div_mod::lemma_small_mod(start as nat, 4);
                }
            }
            self.current_direction = direction;
        } else {
            self.current_frame_index = 0;
            self.timer.reset();
            self.last_moving = MovementDirection(None);
        }
    }

    /// The frame to draw now.
    pub fn current_frame(&self) -> (f: &AnimationRenderFrame<TT>)
        requires
            self.well_formed(),
        ensures
            *f == self@.frames.spec_get(self@.direction)[self@.frame_index],
    {
        let frames = self.frames.get(self.current_direction);
        &frames[self.current_frame_index]
    }
}

/// The total weight of the first `n` frames of a weighted animation.
pub open spec fn prefix_weight<TT>(frames: Seq<(AnimationRenderFrame<TT>, u32)>, n: int) -> int
    decreases n,
{
    if n <= 0 {
        0
    } else {
        prefix_weight(frames, n - 1) + frames[n - 1].1
    }
}

/// How many leading frames have a cumulated weight that does not exceed `target`.
pub open spec fn frames_within<TT>(frames: Seq<(AnimationRenderFrame<TT>, u32)>, target: int, n: int) -> int
    decreases n,
{
    if n <= 0 {
        0
    } else {
        frames_within(frames, target, n - 1) + if prefix_weight(frames, n) <= target {
            1int
        } else {
            0int
        }
    }
}

proof fn lemma_prefix_weight_monotone<TT>(frames: Seq<(AnimationRenderFrame<TT>, u32)>, a: int, b: int)
    requires
        0 <= a <= b <= frames.len(),
    ensures
        prefix_weight(frames, a) <= prefix_weight(frames, b),
    decreases b - a,
{
    if a < b {
        lemma_prefix_weight_monotone(frames, a, b - 1);
    }
}

/// The index of the frame shown once `target` weight of the dying time has passed: the first
/// frame whose cumulated weight exceeds `target`, or the last frame past the end.
pub open spec fn death_frame_index<TT>(frames: Seq<(AnimationRenderFrame<TT>, u32)>, target: int) -> int {
    let i = frames_within(frames, target, frames.len() as int);
    if i < frames.len() {
        i
    } else {
        frames.len() - 1
    }
}

/// The more weight a target covers, the more leading frames lie within it.
pub proof fn lemma_frames_within_monotone<TT>(
    frames: Seq<(AnimationRenderFrame<TT>, u32)>,
    t1: int,
    t2: int,
    n: int,
)
    requires
        t1 <= t2,
    ensures
        0 <= frames_within(frames, t1, n) <= frames_within(frames, t2, n),
        n >= 0 ==> frames_within(frames, t2, n) <= n,
    decreases n,
{
    if n > 0 {
        lemma_frames_within_monotone(frames, t1, t2, n - 1);
    }
}

/// The death animation never goes back: as the dying time passes, the frame shown stays or
/// moves on, and it is always one of the frames.
pub proof fn lemma_death_frame_never_goes_back<TT>(
    frames: Seq<(AnimationRenderFrame<TT>, u32)>,
    t1: int,
    t2: int,
)
    requires
        frames.len() > 0,
        t1 <= t2,
    ensures
        0 <= death_frame_index(frames, t1) <= death_frame_index(frames, t2) < frames.len(),
{
    lemma_frames_within_monotone(frames, t1, t2, frames.len() as int);
}

/// The frame of a dying unit: the frames are shown in order, each for a share of the dying time
/// proportional to its weight; `target_weight` is how much weight the elapsed part of the
/// dying time covers (rounded up). Past the end, the last frame stays.
pub fn get_death_frame<TT>(
    target_weight: u32,
    death_animation_frames: &[(AnimationRenderFrame<TT>, u32)],
) -> (f: &AnimationRenderFrame<TT>)
    requires
        death_animation_frames@.len() > 0,
        prefix_weight(death_animation_frames@, death_animation_frames@.len() as int) <= u32::MAX,
    ensures
        *f == death_animation_frames@[death_frame_index(death_animation_frames@, target_weight as int)].0,
{
    let ghost frames = death_animation_frames@;
    let ghost target = target_weight as int;
    let mut accumulated_weight: u32 = 0;
    let mut death_frame_i: usize = 0;
    let mut k: usize = 0;
    let mut stopped = false;
    while k < death_animation_frames.len() && !stopped
        invariant
            frames == death_animation_frames@,
            target == target_weight,
            k <= frames.len(),
            prefix_weight(frames, frames.len() as int) <= u32::MAX,
            accumulated_weight == prefix_weight(frames, k as int),
            !stopped ==> death_frame_i == k && frames_within(frames, target, k as int) == k
                && accumulated_weight <= target,
            stopped ==> death_frame_i == frames_within(frames, target, frames.len() as int)
                && death_frame_i < frames.len(),
        decreases frames.len() - k,
    {
        proof {
            lemma_prefix_weight_monotone(frames, k + 1, frames.len() as int);
        }
        let weight = death_animation_frames[k].1;
        accumulated_weight = accumulated_weight + weight;
        if accumulated_weight > target_weight {
            proof {
                assert forall|n: int| k < n <= frames.len() implies frames_within(frames, target, n) == k by {
                    lemma_frames_within_after(frames, target, k as int, n);
                }
            }
            stopped = true;
        } else {
            death_frame_i = death_frame_i + 1;
        }
        k = k + 1;
    }
    let last = death_animation_frames.len() - 1;
    let index = if death_frame_i < last {
        death_frame_i
    } else {
        last
    };
    &death_animation_frames[index].0
}

/// Once the cumulated weight passed `target` at frame `k`, no later frame is within it.
proof fn lemma_frames_within_after<TT>(frames: Seq<(AnimationRenderFrame<TT>, u32)>, target: int, k: int, n: int)
    requires
        0 <= k < n <= frames.len(),
        frames_within(frames, target, k) == k,
        prefix_weight(frames, k + 1) > target,
    ensures
        frames_within(frames, target, n) == k,
    decreases n - k,
{
    if n > k + 1 {
        lemma_frames_within_after(frames, target, k, n - 1);
        lemma_prefix_weight_monotone(frames, k + 1, n);
    }
}

/// A unit that stops rests on the first frame of its animation (standing), facing the way it
/// faced, whatever frame it showed before; its frame timer starts over. A moving unit faces
/// the way it moves, and one that starts moving shows a step right away rather than the
/// standing frame unless a whole cycle of frames passes at once.
pub proof fn lemma_stopping_rests_on_first_frame<TT>(
    old: AnimationView<TT>,
    new: AnimationView<TT>,
    delta: nat,
    direction: Option<Direction>,
)
    requires
        animation_updated(old, new, delta, direction),
    ensures
        direction is None ==> new.frame_index == 0 && new.direction == old.direction
            && new.last_moving is None && new.timer.elapsed == 0,
        direction matches Some(d) ==> new.direction == d && new.last_moving == Some(d),
        direction is Some && old.last_moving is None && tick_spec(old.timer, delta).times_finished_this_tick
            % 4 != 3 ==> new.frame_index != 0,
{
}

} // verus!

use vstd::prelude::*;

use crate::timer::{fresh_timer, tick_spec, Timer, TimerMode, TimerView};

verus! {

/// How long an enemy takes to die, in nanoseconds.
pub const ENEMY_DEATH_DURATION_NANOS: u64 = 1_000_000_000;

/// How long the character takes to die, in nanoseconds.
pub const CHARACTER_DEATH_DURATION_NANOS: u64 = 3_000_000_000;

/// How long the character takes to disappear into the open exit, in nanoseconds.
pub const VICTORY_ANIMATION_DURATION_NANOS: u64 = 3_000_000_000;

/// Whether a unit lives, is dying, or (the character only) is walking out through the exit.
#[derive(Debug, Clone, Copy, PartialEq, Eq)]
pub enum ActorState {
    Alive,
    Dying(Timer),
    Victory(Timer),
}

/// The mathematical state of a unit: its kind of state and the timer of that state.
pub enum ActorStateView {
    Alive,
    Dying(TimerView),
    Victory(TimerView),
}

impl View for ActorState {
    type V = ActorStateView;

    open spec fn view(&self) -> ActorStateView {
        match self {
            ActorState::Alive => ActorStateView::Alive,
            ActorState::Dying(t) => ActorStateView::Dying(t@),
            ActorState::Victory(t) => ActorStateView::Victory(t@),
        }
    }
}

/// The state after the death timer of a dying unit ran for `delta` nanoseconds; other states
/// do not change.
pub open spec fn death_advanced(s: ActorStateView, delta: nat) -> ActorStateView {
    match s {
        ActorStateView::Dying(t) => ActorStateView::Dying(tick_spec(t, delta)),
        _ => s,
    }
}

/// A unit whose dying time is over.
pub open spec fn spec_death_finished(s: ActorStateView) -> bool {
    s matches ActorStateView::Dying(t) && t.finished
}

impl ActorState {
    pub fn is_alive(&self) -> (b: bool)
        ensures
            b == (self@ is Alive),
    {
        match self {
            ActorState::Alive => true,
            _ => false,
        }
    }

    /// A living unit starts dying for `duration_ns` nanoseconds; returns whether it was alive.
    /// A unit that is already dying or winning is left as it is.
    pub fn kill(&mut self, duration_ns: u64) -> (killed: bool)
        ensures
            killed == (old(self)@ is Alive),
            killed ==> final(self)@ == ActorStateView::Dying(fresh_timer(duration_ns as nat, TimerMode::Once)),
            !killed ==> final(self)@ == old(self)@,
    {
        match self {
            ActorState::Alive => {
                *self = ActorState::Dying(Timer::new(duration_ns, TimerMode::Once));
                true
            },
            _ => false,
        }
    }

    /// The living character starts walking out through the exit; returns whether it was
    /// alive. A unit that is dying or already winning is left as it is.
    pub fn win(&mut self) -> (won: bool)
        ensures
            won == (old(self)@ is Alive),
            won ==> final(self)@ == ActorStateView::Victory(
                fresh_timer(VICTORY_ANIMATION_DURATION_NANOS as nat, TimerMode::Once),
            ),
            !won ==> final(self)@ == old(self)@,
    {
        match self {
            ActorState::Alive => {
                *self = ActorState::Victory(Timer::new(VICTORY_ANIMATION_DURATION_NANOS, TimerMode::Once));
                true
            },
            _ => false,
        }
    }

    /// Runs the death timer of a dying unit for `delta_ns` nanoseconds and returns whether its
    /// dying time is over.
    pub fn advance_death_timer(&mut self, delta_ns: u64) -> (finished: bool)
        ensures
            final(self)@ == death_advanced(old(self)@, delta_ns as nat),
            finished == spec_death_finished(final(self)@),
    {
        match self {
            ActorState::Dying(timer) => {
                let mut t = *timer;
                t.tick(delta_ns);
                *self = ActorState::Dying(t);
                t.is_finished()
            },
            _ => false,
        }
    }

    /// Whether the unit is dying and its dying time is over.
    pub fn death_finished(&self) -> (b: bool)
        ensures
            b == spec_death_finished(self@),
    {
        match self {
            ActorState::Dying(timer) => timer.is_finished(),
            _ => false,
        }
    }
}

/// The killing of the last enemy is announced once: when no enemy is left and it was not
/// announced yet.
pub fn check_alive_enemies(all_enemies_killed: bool, enemies_left: usize) -> (announce: bool)
    ensures
        announce == (!all_enemies_killed && enemies_left == 0),
{
    !all_enemies_killed && enemies_left == 0
}

/// No unit comes back to life: a dying unit stays dying as its timer runs, and a winning one
/// keeps winning.
pub proof fn lemma_no_revival(s: ActorStateView, delta: nat)
    ensures
        s is Dying ==> death_advanced(s, delta) is Dying,
        s is Victory ==> death_advanced(s, delta) == s,
        s is Alive ==> death_advanced(s, delta) is Alive,
{
}

} // verus!

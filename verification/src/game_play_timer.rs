use vstd::prelude::*;

use crate::timer::{fresh_timer, tick_spec, Timer, TimerMode, TimerView};

verus! {

/// How long a level may be played before overtime starts, in nanoseconds.
pub const DEFAULT_GAMEPLAY_TIMER_NANOS: u64 = 180_000_000_000;

/// The length of one period of overtime, in nanoseconds.
pub const GAMEPLAY_OVERTIME_TIMER_NANOS: u64 = 30_000_000_000;

/// Whether the regular playing time still runs or overtime has started.
#[derive(Debug, Clone, Copy, PartialEq, Eq, Structural)]
pub enum GamePlayTimerType {
    Basic,
    Overtime,
}

/// The mathematical state of the level clock.
pub struct GamePlayTimerView {
    pub kind: GamePlayTimerType,
    pub timer: TimerView,
    pub overtimes: nat,
    pub overtime_this_tick: bool,
}

impl GamePlayTimerView {
    /// The regular time runs once; overtime repeats in periods.
    pub open spec fn well_formed(self) -> bool {
        &&& self.kind == GamePlayTimerType::Basic ==> self.timer.duration
            == DEFAULT_GAMEPLAY_TIMER_NANOS && self.timer.mode == TimerMode::Once
        &&& self.kind == GamePlayTimerType::Overtime ==> self.timer.duration
            == GAMEPLAY_OVERTIME_TIMER_NANOS && self.timer.mode == TimerMode::Repeating
        &&& self.timer.elapsed <= self.timer.duration
        &&& self.overtimes <= u32::MAX
        &&& self.overtime_this_tick ==> self.kind == GamePlayTimerType::Overtime
    }
}

/// The level clock after `delta` nanoseconds: when the regular time runs out, overtime
/// starts with a fresh period; every time a timer finishes counts as one overtime.
pub open spec fn game_play_ticked(old: GamePlayTimerView, delta: nat) -> GamePlayTimerView {
    let t = tick_spec(old.timer, delta);
    let times = t.times_finished_this_tick;
    if times > 0 && old.kind == GamePlayTimerType::Basic {
        GamePlayTimerView {
            kind: GamePlayTimerType::Overtime,
            timer: fresh_timer(GAMEPLAY_OVERTIME_TIMER_NANOS as nat, TimerMode::Repeating),
            overtimes: old.overtimes + times as nat,
            overtime_this_tick: true,
        }
    } else {
        GamePlayTimerView {
            kind: old.kind,
            timer: t,
            overtimes: old.overtimes + times as nat,
            overtime_this_tick: false,
        }
    }
}

/// How many times the timer of the clock finishes when it runs for `delta` more nanoseconds.
pub open spec fn periods_ending(old: GamePlayTimerView, delta: nat) -> nat {
    tick_spec(old.timer, delta).times_finished_this_tick as nat
}

/// The clock at the start of a level: the regular time has not run yet.
pub open spec fn new_clock() -> GamePlayTimerView {
    GamePlayTimerView {
        kind: GamePlayTimerType::Basic,
        timer: fresh_timer(DEFAULT_GAMEPLAY_TIMER_NANOS as nat, TimerMode::Once),
        overtimes: 0,
        overtime_this_tick: false,
    }
}

/// The clock of a level: a regular playing time, then periods of overtime.
#[derive(Debug, Clone, Copy, PartialEq, Eq)]
pub struct GamePlayTimer {
    kind: GamePlayTimerType,
    timer: Timer,
    overtimes: u32,
    overtime_this_tick: bool,
}

impl View for GamePlayTimer {
    type V = GamePlayTimerView;

    closed spec fn view(&self) -> GamePlayTimerView {
        GamePlayTimerView {
            kind: self.kind,
            timer: self.timer@,
            overtimes: self.overtimes as nat,
            overtime_this_tick: self.overtime_this_tick,
        }
    }
}

impl GamePlayTimer {
    #[verifier::type_invariant]
    closed spec fn inv(self) -> bool {
        self@.well_formed()
    }

    /// A clock at the start of a level.
    pub fn new() -> (t: Self)
        ensures
            t@ == new_clock(),
    {
        GamePlayTimer {
            kind: GamePlayTimerType::Basic,
            timer: Timer::new(DEFAULT_GAMEPLAY_TIMER_NANOS, TimerMode::Once),
            overtimes: 0,
            overtime_this_tick: false,
        }
    }

    /// Advances the clock by `delta_ns` nanoseconds. The count of overtimes must stay within
    /// `u32`.
    pub fn tick(&mut self, delta_ns: u64)
        requires
            old(self)@.overtimes + periods_ending(old(self)@, delta_ns as nat) <= u32::MAX,
        ensures
            final(self)@ == game_play_ticked(old(self)@, delta_ns as nat),
    {
        proof {
            use_type_invariant(&*self);
        }
        let mut timer = self.timer;
        timer.tick(delta_ns);
        let finished_times = timer.times_finished_this_tick();
        let overtimes = self.overtimes + finished_times;
        if finished_times > 0 && self.kind == GamePlayTimerType::Basic {
            *self = GamePlayTimer {
                kind: GamePlayTimerType::Overtime,
                timer: Timer::new(GAMEPLAY_OVERTIME_TIMER_NANOS, TimerMode::Repeating),
                overtimes,
                overtime_this_tick: true,
            };
        } else {
            proof {
                let total: nat = self.timer@.elapsed + delta_ns as nat;
                if self.kind == GamePlayTimerType::Overtime && total >= self.timer@.duration {
                    assert(total % (GAMEPLAY_OVERTIME_TIMER_NANOS as nat) < GAMEPLAY_OVERTIME_TIMER_NANOS);
                }
            }
            *self = GamePlayTimer { kind: self.kind, timer, overtimes, overtime_this_tick: false };
        }
    }

    /// Whether advancing the clock by `delta_ns` nanoseconds keeps the count of overtimes
    /// within `u32` (the condition of `tick`).
    pub fn tick_fits(&self, delta_ns: u64) -> (b: bool)
        ensures
            b == (self@.overtimes + periods_ending(self@, delta_ns as nat) <= u32::MAX),
    {
        let mut t = self.timer;
        t.tick(delta_ns);
        (self.overtimes as u64) + (t.times_finished_this_tick() as u64) <= u32::MAX as u64
    }

    /// Whether overtime has started.
    pub fn kind(&self) -> (k: GamePlayTimerType)
        ensures
            k == self@.kind,
    {
        self.kind
    }

    /// How many times the clock ran out: once for the regular time, then once per period of
    /// overtime.
    pub fn overtimes(&self) -> (n: u32)
        ensures
            n == self@.overtimes,
    {
        self.overtimes
    }

    /// The time spent in overtime, in nanoseconds: the elapsed part of the current period
    /// plus one period per overtime counted; zero before overtime.
    pub fn overtime_duration(&self) -> (d: u128)
        ensures
            d == (if self@.kind == GamePlayTimerType::Overtime {
                self@.timer.elapsed + self@.timer.duration * self@.overtimes
            } else {
                0
            }),
    {
        proof {
            use_type_invariant(self);
        }
        if self.kind == GamePlayTimerType::Overtime {
            let elapsed = self.timer.elapsed_nanos() as u128;
            let duration = self.timer.duration_nanos() as u128;
            let overtimes = self.overtimes as u128;
            proof {
                vstd::arithmetic::mul::lemma_mul_upper_bound(
                    duration as int,
                    GAMEPLAY_OVERTIME_TIMER_NANOS as int,
                    overtimes as int,
                    u32::MAX as int,
                );
            }
            elapsed + duration * overtimes
        } else {
            0
        }
    }

    /// Whether overtime started during the last tick.
    pub fn turned_overtime_this_tick(&self) -> (b: bool)
        ensures
            b == self@.overtime_this_tick,
    {
        self.overtime_this_tick
    }

    /// The regular playing time left, in nanoseconds; none once overtime has started (the
    /// top bar then shows the overtime notice in place of the clock).
    pub fn basic_time_remaining(&self) -> (r: Option<u64>)
        ensures
            r == (if self@.kind == GamePlayTimerType::Basic {
                Some((self@.timer.duration - self@.timer.elapsed) as u64)
            } else {
                None
            }),
    {
        if self.kind == GamePlayTimerType::Basic {
            Some(self.timer.remaining_nanos())
        } else {
            None
        }
    }
}

impl Default for GamePlayTimer {
    /// The clock at the start of a level.
    fn default() -> (t: Self)
        ensures
            t@ == new_clock(),
    {
        GamePlayTimer::new()
    }
}

/// Overtime never ends: once it started, the clock stays in overtime, it is announced only on
/// the tick it starts, and the count of overtimes never goes down.
pub proof fn lemma_overtime_never_ends(t: GamePlayTimerView, delta: nat)
    ensures
        t.kind == GamePlayTimerType::Overtime ==> game_play_ticked(t, delta).kind == GamePlayTimerType::Overtime,
        game_play_ticked(t, delta).overtime_this_tick ==> t.kind == GamePlayTimerType::Basic
            && game_play_ticked(t, delta).kind == GamePlayTimerType::Overtime,
        game_play_ticked(t, delta).overtimes >= t.overtimes,
{
}

/// The clock after a run of ticks, `deltas` nanoseconds each, in order.
pub open spec fn clock_after(t: GamePlayTimerView, deltas: Seq<nat>) -> GamePlayTimerView
    decreases deltas.len(),
{
    if deltas.len() == 0 {
        t
    } else {
        game_play_ticked(clock_after(t, deltas.drop_last()), deltas.last())
    }
}

proof fn lemma_clock_step(t: GamePlayTimerView, deltas: Seq<nat>, k: int)
    requires
        0 <= k < deltas.len(),
    ensures
        clock_after(t, deltas.take(k + 1)) == game_play_ticked(clock_after(t, deltas.take(k)), deltas[k]),
{
    assert(deltas.take(k + 1).drop_last() =~= deltas.take(k));
}

/// Overtime is announced once: along any run of ticks of a clock, the announcement comes
/// exactly on the tick where the clock turns from regular time to overtime and on no other
/// tick; once started, overtime never ends, and the count of overtimes never goes down.
pub proof fn lemma_overtime_announced_once(t: GamePlayTimerView, deltas: Seq<nat>, i: int, j: int)
    requires
        t.well_formed(),
        0 <= i <= j <= deltas.len(),
    ensures
        clock_after(t, deltas.take(i)).kind == GamePlayTimerType::Overtime ==> clock_after(
            t,
            deltas.take(j),
        ).kind == GamePlayTimerType::Overtime,
        clock_after(t, deltas.take(i)).overtimes <= clock_after(t, deltas.take(j)).overtimes,
        j > 0 ==> (clock_after(t, deltas.take(j)).overtime_this_tick <==> (clock_after(
            t,
            deltas.take(j - 1),
        ).kind == GamePlayTimerType::Basic && clock_after(t, deltas.take(j)).kind
            == GamePlayTimerType::Overtime)),
        i < j && clock_after(t, deltas.take(i)).overtime_this_tick ==> !clock_after(
            t,
            deltas.take(j),
        ).overtime_this_tick,
    decreases j - i,
{
    if j > 0 {
        lemma_clock_step(t, deltas, j - 1);
        lemma_overtime_never_ends(clock_after(t, deltas.take(j - 1)), deltas[j - 1]);
    }
    if i > 0 {
        lemma_clock_step(t, deltas, i - 1);
    } else {
        assert(deltas.take(0) =~= Seq::<nat>::empty());
    }
    if i < j {
        lemma_overtime_announced_once(t, deltas, i, j - 1);
    }
}

/// The clock of a level after its first `i` ticks (`GamePlayTimer::new`, then `tick` with
/// `deltas[0]`, ..., `deltas[i - 1]` nanoseconds).
pub open spec fn clock_at(deltas: Seq<nat>, i: int) -> GamePlayTimerView {
    clock_after(new_clock(), deltas.take(i))
}

proof fn lemma_regular_time_counts_nothing(deltas: Seq<nat>, i: int)
    requires
        0 <= i <= deltas.len(),
    ensures
        clock_at(deltas, i).kind == GamePlayTimerType::Basic ==> clock_at(deltas, i).overtimes == 0
            && !clock_at(deltas, i).overtime_this_tick,
    decreases i,
{
    if i == 0 {
        assert(deltas.take(0) =~= Seq::<nat>::empty());
    } else {
        lemma_regular_time_counts_nothing(deltas, i - 1);
        lemma_clock_step(new_clock(), deltas, i - 1);
    }
}

proof fn lemma_run_monotone(deltas: Seq<nat>)
    ensures
        forall|i: int, j: int|
            0 <= i <= j <= deltas.len() && (#[trigger] clock_at(deltas, i)).kind
                == GamePlayTimerType::Overtime ==> (#[trigger] clock_at(deltas, j)).kind
                == GamePlayTimerType::Overtime,
        forall|i: int, j: int|
            0 <= i <= j <= deltas.len() ==> (#[trigger] clock_at(deltas, i)).overtimes <= (
            #[trigger] clock_at(deltas, j)).overtimes,
        forall|i: int, j: int|
            0 <= i < j <= deltas.len() && (#[trigger] clock_at(deltas, i)).overtime_this_tick ==> !(
            #[trigger] clock_at(deltas, j)).overtime_this_tick,
{
    assert forall|i: int, j: int| 0 <= i <= j <= deltas.len() implies {
        &&& (#[trigger] clock_at(deltas, i)).kind == GamePlayTimerType::Overtime ==> (
        #[trigger] clock_at(deltas, j)).kind == GamePlayTimerType::Overtime
        &&& clock_at(deltas, i).overtimes <= clock_at(deltas, j).overtimes
        &&& i < j && clock_at(deltas, i).overtime_this_tick ==> !clock_at(deltas, j).overtime_this_tick
    } by {
        lemma_overtime_announced_once(new_clock(), deltas, i, j);
    }
}

proof fn lemma_run_announcement(deltas: Seq<nat>)
    ensures
        forall|i: int, j: int|
            0 <= i && j == i + 1 && j <= deltas.len() ==> ((#[trigger] clock_at(deltas, j)).overtime_this_tick
                <==> ((#[trigger] clock_at(deltas, i)).kind == GamePlayTimerType::Basic && clock_at(
                deltas,
                j,
            ).kind == GamePlayTimerType::Overtime)),
{
    assert forall|i: int, j: int| 0 <= i && j == i + 1 && j <= deltas.len() implies ((#[trigger] clock_at(
        deltas,
        j,
    )).overtime_this_tick <==> ((#[trigger] clock_at(deltas, i)).kind == GamePlayTimerType::Basic
        && clock_at(deltas, j).kind == GamePlayTimerType::Overtime)) by {
        lemma_overtime_announced_once(new_clock(), deltas, j, j);
    }
}

proof fn lemma_run_regular_before_announcement(deltas: Seq<nat>)
    ensures
        forall|i: int, j: int|
            0 <= i < j <= deltas.len() && (#[trigger] clock_at(deltas, j)).overtime_this_tick ==> (
            #[trigger] clock_at(deltas, i)).kind == GamePlayTimerType::Basic,
{
    assert forall|i: int, j: int|
        0 <= i < j <= deltas.len() && (#[trigger] clock_at(deltas, j)).overtime_this_tick implies (
        #[trigger] clock_at(deltas, i)).kind == GamePlayTimerType::Basic by {
        lemma_overtime_announced_once(new_clock(), deltas, j, j);
        lemma_overtime_announced_once(new_clock(), deltas, i, j - 1);
    }
}

proof fn lemma_run_regular_counts_nothing(deltas: Seq<nat>)
    ensures
        forall|i: int|
            0 <= i <= deltas.len() && (#[trigger] clock_at(deltas, i)).kind == GamePlayTimerType::Basic
                ==> clock_at(deltas, i).overtimes == 0 && !clock_at(deltas, i).overtime_this_tick,
{
    assert forall|i: int|
        0 <= i <= deltas.len() && (#[trigger] clock_at(deltas, i)).kind == GamePlayTimerType::Basic implies clock_at(
        deltas,
        i,
    ).overtimes == 0 && !clock_at(deltas, i).overtime_this_tick by {
        lemma_regular_time_counts_nothing(deltas, i);
    }
}

/// The clock of a level over any run of ticks from the start of the level: it never goes back
/// to the regular time once overtime started; overtime is announced
/// (`turned_overtime_this_tick`) after at most one tick, exactly the one that ends the regular
/// time, with the regular time running on every tick before it; while the regular time runs
/// no overtime is counted (so the time spent in overtime is zero), and the count of
/// overtimes never goes down.
pub proof fn lemma_level_clock_run(deltas: Seq<nat>)
    ensures
        forall|i: int, j: int|
            0 <= i <= j <= deltas.len() && (#[trigger] clock_at(deltas, i)).kind
                == GamePlayTimerType::Overtime ==> (#[trigger] clock_at(deltas, j)).kind
                == GamePlayTimerType::Overtime,
        forall|i: int, j: int|
            0 <= i <= j <= deltas.len() ==> (#[trigger] clock_at(deltas, i)).overtimes <= (
            #[trigger] clock_at(deltas, j)).overtimes,
        forall|i: int, j: int|
            0 <= i < j <= deltas.len() && (#[trigger] clock_at(deltas, i)).overtime_this_tick ==> !(
            #[trigger] clock_at(deltas, j)).overtime_this_tick,
        forall|i: int, j: int|
            0 <= i && j == i + 1 && j <= deltas.len() ==> ((#[trigger] clock_at(deltas, j)).overtime_this_tick
                <==> ((#[trigger] clock_at(deltas, i)).kind == GamePlayTimerType::Basic && clock_at(
                deltas,
                j,
            ).kind == GamePlayTimerType::Overtime)),
        forall|i: int, j: int|
            0 <= i < j <= deltas.len() && (#[trigger] clock_at(deltas, j)).overtime_this_tick ==> (
            #[trigger] clock_at(deltas, i)).kind == GamePlayTimerType::Basic,
        forall|i: int|
            0 <= i <= deltas.len() && (#[trigger] clock_at(deltas, i)).kind == GamePlayTimerType::Basic
                ==> clock_at(deltas, i).overtimes == 0 && !clock_at(deltas, i).overtime_this_tick,
{
    lemma_run_monotone(deltas);
    lemma_run_announcement(deltas);
    lemma_run_regular_before_announcement(deltas);
    lemma_run_regular_counts_nothing(deltas);
}

} // verus!

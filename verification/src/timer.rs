use vstd::prelude::*;

verus! {

/// Whether a timer stops once it reaches its duration or starts over.
#[derive(Debug, Clone, Copy, PartialEq, Eq, Structural, Hash)]
pub enum TimerMode {
    Once,
    Repeating,
}

/// Mathematical state of a [`Timer`]: all durations are counted in nanoseconds.
pub struct TimerView {
    pub duration: nat,
    pub elapsed: nat,
    pub mode: TimerMode,
    pub finished: bool,
    pub times_finished_this_tick: u32,
}

/// The state of a timer right after it was created with the given duration and mode.
pub open spec fn fresh_timer(duration: nat, mode: TimerMode) -> TimerView {
    TimerView { duration, elapsed: 0, mode, finished: false, times_finished_this_tick: 0 }
}

/// What advancing a timer by `delta` nanoseconds does to it. A finished one-shot timer only
/// forgets that it finished during the last tick; every other timer accumulates the time,
/// finishes once the elapsed time reaches the duration, and then either stops at the duration
/// (one-shot) or keeps the remainder and counts how many periods went by (repeating).
pub open spec fn tick_spec(t: TimerView, delta: nat) -> TimerView {
    if t.mode == TimerMode::Once && t.finished {
        TimerView { times_finished_this_tick: 0, ..t }
    } else {
        running_tick_spec(t.duration, t.elapsed, t.mode, delta)
    }
}

/// Advancing a timer that has not stopped: `elapsed + delta` is compared with the duration.
pub open spec fn running_tick_spec(duration: nat, elapsed: nat, mode: TimerMode, delta: nat) -> TimerView {
    let total = elapsed + delta;
    if total >= duration {
        if mode == TimerMode::Repeating {
            TimerView {
                duration,
                elapsed: if duration == 0 { 0 } else { total % duration },
                mode,
                finished: true,
                times_finished_this_tick: if duration == 0 { u32::MAX } else { (total / duration) as u32 },
            }
        } else {
            TimerView { duration, elapsed: duration, mode, finished: true, times_finished_this_tick: 1 }
        }
    } else {
        TimerView { duration, elapsed: total, mode, finished: false, times_finished_this_tick: 0 }
    }
}

/// Tracks elapsed game time against a duration, with the semantics of `bevy::time::Timer`
/// (never paused). Time is counted in whole nanoseconds.
#[derive(Debug, Clone, Copy, PartialEq, Eq)]
pub struct Timer {
    duration_ns: u64,
    elapsed_ns: u64,
    mode: TimerMode,
    finished: bool,
    times_finished_this_tick: u32,
}

impl View for Timer {
    type V = TimerView;

    closed spec fn view(&self) -> TimerView {
        TimerView {
            duration: self.duration_ns as nat,
            elapsed: self.elapsed_ns as nat,
            mode: self.mode,
            finished: self.finished,
            times_finished_this_tick: self.times_finished_this_tick,
        }
    }
}

/// Advances a `bevy::time::Timer` that has the given duration, elapsed time and mode and has not
/// stopped (it is rebuilt with `Timer::new` and `set_elapsed`, so it is not in the finished
/// state), by calling `bevy::time::Timer::tick`. The contract restates what that method's source
/// does for an unpaused timer that is not a finished one-shot timer: see `running_tick_spec`.
#[verifier::external_body]
fn bevy_timer_tick(duration_ns: u64, elapsed_ns: u64, mode: TimerMode, delta_ns: u64) -> (r: (u64, bool, u32))
    ensures
        ({
            let t = running_tick_spec(duration_ns as nat, elapsed_ns as nat, mode, delta_ns as nat);
            r.0 == t.elapsed && r.1 == t.finished && r.2 == t.times_finished_this_tick
        }),
{
    let bevy_mode = match mode {
        TimerMode::Once => bevy::time::TimerMode::Once,
        TimerMode::Repeating => bevy::time::TimerMode::Repeating,
    };
    let mut timer = bevy::time::Timer::new(core::time::Duration::from_nanos(duration_ns), bevy_mode);
    timer.set_elapsed(core::time::Duration::from_nanos(elapsed_ns));
    timer.tick(core::time::Duration::from_nanos(delta_ns));
    (timer.elapsed().as_nanos() as u64, timer.is_finished(), timer.times_finished_this_tick())
}

impl Timer {
    /// The elapsed time never exceeds the duration.
    #[verifier::type_invariant]
    spec fn well_formed(self) -> bool {
        self.elapsed_ns <= self.duration_ns
    }

    /// A new timer that has not run yet.
    pub fn new(duration_ns: u64, mode: TimerMode) -> (t: Timer)
        ensures
            t@ == fresh_timer(duration_ns as nat, mode),
    {
        Timer { duration_ns, elapsed_ns: 0, mode, finished: false, times_finished_this_tick: 0 }
    }

    /// Advances the timer by `delta_ns` nanoseconds.
    pub fn tick(&mut self, delta_ns: u64)
        ensures
            final(self)@ == tick_spec(old(self)@, delta_ns as nat),
    {
        proof {
            use_type_invariant(&*self);
        }
        if self.mode == TimerMode::Once && self.finished {
            self.times_finished_this_tick = 0;
        } else {
            let (elapsed, finished, times) = bevy_timer_tick(self.duration_ns, self.elapsed_ns, self.mode, delta_ns);
            proof {
                let total = self.elapsed_ns as nat + delta_ns as nat;
                if total >= self.duration_ns && self.mode == TimerMode::Repeating && self.duration_ns > 0 {
                    assert(total % (self.duration_ns as nat) < self.duration_ns);
                }
            }
            self.elapsed_ns = elapsed;
            self.finished = finished;
            self.times_finished_this_tick = times;
        }
    }

    /// Whether the timer reached its duration (for repeating timers: during the last tick).
    pub fn is_finished(&self) -> (b: bool)
        ensures
            b == self@.finished,
    {
        self.finished
    }

    /// Whether the timer reached its duration during the last tick.
    pub fn just_finished(&self) -> (b: bool)
        ensures
            b == (self@.times_finished_this_tick > 0),
    {
        self.times_finished_this_tick > 0
    }

    /// How many times the timer reached its duration during the last tick.
    pub fn times_finished_this_tick(&self) -> (n: u32)
        ensures
            n == self@.times_finished_this_tick,
    {
        self.times_finished_this_tick
    }

    /// The time elapsed so far, which never exceeds the duration.
    pub fn elapsed_nanos(&self) -> (n: u64)
        ensures
            n == self@.elapsed,
            n <= self@.duration,
    {
        proof {
            use_type_invariant(self);
        }
        self.elapsed_ns
    }

    pub fn duration_nanos(&self) -> (n: u64)
        ensures
            n == self@.duration,
    {
        self.duration_ns
    }

    pub fn mode(&self) -> (m: TimerMode)
        ensures
            m == self@.mode,
    {
        self.mode
    }

    /// Time left until the timer reaches its duration.
    pub fn remaining_nanos(&self) -> (n: u64)
        ensures
            n == self@.duration - self@.elapsed,
    {
        proof {
            use_type_invariant(self);
        }
        self.duration_ns - self.elapsed_ns
    }

    /// Starts the timer over: no time elapsed and not finished.
    pub fn reset(&mut self)
        ensures
            final(self)@ == fresh_timer(old(self)@.duration, old(self)@.mode),
    {
        self.elapsed_ns = 0;
        self.finished = false;
        self.times_finished_this_tick = 0;
    }
}

/// A one-shot timer that finished stays finished, and its elapsed time stays where it
/// stopped, however long it keeps ticking.
pub proof fn lemma_once_timer_stays_finished(t: TimerView, delta: nat)
    requires
        t.mode == TimerMode::Once,
        t.finished,
    ensures
        tick_spec(t, delta).finished,
        tick_spec(t, delta).elapsed == t.elapsed,
{
}

/// Ticking keeps the elapsed time within the duration, and keeps the duration and the mode;
/// a repeating timer with a duration is left strictly below it.
pub proof fn lemma_tick_keeps_elapsed_within_duration(t: TimerView, delta: nat)
    requires
        t.elapsed <= t.duration,
    ensures
        tick_spec(t, delta).elapsed <= tick_spec(t, delta).duration,
        tick_spec(t, delta).duration == t.duration,
        tick_spec(t, delta).mode == t.mode,
        t.mode == TimerMode::Repeating && t.duration > 0 ==> tick_spec(t, delta).elapsed < t.duration,
{
    let total = t.elapsed + delta;
    if t.mode == TimerMode::Repeating && t.duration > 0 && total >= t.duration {
        assert(total % t.duration < t.duration);
    }
}

/// Splitting a tick in two changes neither the elapsed time nor whether a one-shot timer has
/// finished: timers do not depend on how time is cut into frames.
pub proof fn lemma_ticks_compose(t: TimerView, a: nat, b: nat)
    requires
        t.elapsed <= t.duration,
    ensures
        tick_spec(tick_spec(t, a), b).elapsed == tick_spec(t, a + b).elapsed,
        t.mode == TimerMode::Once ==> tick_spec(tick_spec(t, a), b).finished == tick_spec(t, a + b).finished,
{
    let d: int = t.duration as int;
    let total: int = t.elapsed as int + a as int;
    if t.mode == TimerMode::Repeating && d > 0 && total >= d {
        let rest: int = total % d;
        vstd::arithmetic::div_mod::lemma_mod_bound(total, d);
        vstd::arithmetic::div_mod::lemma_add_mod_noop_right(b as int, total, d);
        if rest + b < d {
            vstd::arithmetic::div_mod::lemma_small_mod((rest + b) as nat, d as nat);
        }
    }
}

} // verus!

use vstd::prelude::*;

use crate::config::Config;
use crate::text::{dec, pad2, string_of, two_digits_into};

verus! {

/// A span of whole seconds.
///
/// The timer only ever moves in whole seconds, so this is all the clock
/// needs: a count of seconds that cannot go negative.
#[derive(Debug, Clone, Copy, PartialEq, Eq, Structural, PartialOrd, Ord, Hash)]
pub struct Duration {
    pub secs: u64,
}

impl Duration {
    /// A span of `secs` seconds.
    pub fn from_secs(secs: u64) -> (d: Duration)
        ensures
            d.secs == secs,
    {
        Duration { secs }
    }

    /// Whole seconds in this span.
    pub fn as_secs(&self) -> (s: u64)
        ensures
            s == self.secs,
    {
        self.secs
    }

    /// Whether this span is empty.
    pub fn is_zero(&self) -> (b: bool)
        ensures
            b == (self.secs == 0),
    {
        self.secs == 0
    }
}

/// Represents which phase of the Pomodoro cycle we're in.
#[derive(Debug, Clone, Copy, PartialEq, Eq, Structural)]
pub enum TimerPhase {
    Work,
    ShortBreak,
    LongBreak,
}

impl TimerPhase {
    /// Human-readable label for UI display.
    pub fn label(&self) -> (s: &'static str)
        ensures
            *self == TimerPhase::Work ==> s@ == "🍅 Focus"@,
            *self == TimerPhase::ShortBreak ==> s@ == "☕ Short Break"@,
            *self == TimerPhase::LongBreak ==> s@ == "🌴 Long Break"@,
    {
        match self {
            TimerPhase::Work => "🍅 Focus",
            TimerPhase::ShortBreak => "☕ Short Break",
            TimerPhase::LongBreak => "🌴 Long Break",
        }
    }

    /// Whether this phase is a break.
    pub fn is_break(&self) -> (b: bool)
        ensures
            b == (*self != TimerPhase::Work),
    {
        match self {
            TimerPhase::Work => false,
            TimerPhase::ShortBreak | TimerPhase::LongBreak => true,
        }
    }
}

/// Current status of the timer.
#[derive(Debug, Clone, Copy, PartialEq, Eq, Structural)]
pub enum TimerStatus {
    /// Timer is actively counting down
    Running,
    /// Timer is paused by the user
    Paused,
    /// Timer hasn't been started yet / waiting for user
    Idle,
    /// Timer just completed a phase (transitional state)
    Completed,
}

/// The core Pomodoro timer state machine.
#[derive(Debug, Clone)]
pub struct Timer {
    /// Current phase (work, short break, long break)
    pub phase: TimerPhase,
    /// Current status
    pub status: TimerStatus,
    /// Time remaining in the current phase
    pub remaining: Duration,
    /// Total duration of the current phase (for progress calculation)
    pub total_duration: Duration,
    /// Number of completed work pomodoros in this session
    pub pomodoros_completed: u32,
    /// Position within the long-break cycle (0-based, resets after long break)
    pub cycle_position: u32,
    /// Animation tick counter (for mascot frames)
    pub tick: u64,
    /// Length of a work phase
    pub work_duration: Duration,
    /// Length of a short break
    pub short_break_duration: Duration,
    /// Length of a long break
    pub long_break_duration: Duration,
    /// Completed pomodoros between long breaks
    pub long_break_interval: u32,
    /// Whether breaks start running by themselves
    pub auto_start_breaks: bool,
    /// Whether work phases start running by themselves after a break
    pub auto_start_pomodoros: bool,
}

/// The settings a timer was built with: phase lengths in seconds, the
/// long-break interval, and the two auto-start switches.
pub struct TimerSettings {
    pub work_secs: u64,
    pub short_secs: u64,
    pub long_secs: u64,
    pub interval: u32,
    pub auto_breaks: bool,
    pub auto_pomodoros: bool,
}

impl Timer {
    /// The settings this timer was built with.
    pub open spec fn settings(&self) -> TimerSettings {
        TimerSettings {
            work_secs: self.work_duration.secs,
            short_secs: self.short_break_duration.secs,
            long_secs: self.long_break_duration.secs,
            interval: self.long_break_interval,
            auto_breaks: self.auto_start_breaks,
            auto_pomodoros: self.auto_start_pomodoros,
        }
    }

    /// The long-break cycle agrees with the pomodoro count: the position in
    /// the cycle is the number of completed pomodoros modulo the interval.
    pub open spec fn cycle_consistent(&self) -> bool {
        &&& self.settings().interval > 0
        &&& self.cycle_position as int == (self.pomodoros_completed as int) % (self.settings().interval as int)
    }

    /// Everything but the status is as in `other`.
    pub open spec fn same_but_status(&self, other: Timer) -> bool {
        &&& self.phase == other.phase
        &&& self.remaining == other.remaining
        &&& self.total_duration == other.total_duration
        &&& self.pomodoros_completed == other.pomodoros_completed
        &&& self.cycle_position == other.cycle_position
        &&& self.tick == other.tick
        &&& self.settings() == other.settings()
    }

    /// The timer right after moving on from the current phase; the work
    /// phase is credited only when `work_completed`.
    pub open spec fn next_phase(&self, work_completed: bool) -> Timer {
        let s = self.settings();
        match self.phase {
            TimerPhase::Work => {
                let credited = work_completed;
                let pomodoros = if credited {
                    (self.pomodoros_completed + 1) as u32
                } else {
                    self.pomodoros_completed
                };
                let position = if credited {
                    (self.cycle_position + 1) as u32
                } else {
                    self.cycle_position
                };
                let status = if s.auto_breaks {
                    TimerStatus::Running
                } else {
                    TimerStatus::Idle
                };
                if position >= s.interval {
                    Timer {
                        phase: TimerPhase::LongBreak,
                        status,
                        remaining: Duration { secs: s.long_secs },
                        total_duration: Duration { secs: s.long_secs },
                        pomodoros_completed: pomodoros,
                        cycle_position: 0,
                        ..*self
                    }
                } else {
                    Timer {
                        phase: TimerPhase::ShortBreak,
                        status,
                        remaining: Duration { secs: s.short_secs },
                        total_duration: Duration { secs: s.short_secs },
                        pomodoros_completed: pomodoros,
                        cycle_position: position,
                        ..*self
                    }
                }
            },
            TimerPhase::ShortBreak | TimerPhase::LongBreak => Timer {
                phase: TimerPhase::Work,
                status: if s.auto_pomodoros {
                    TimerStatus::Running
                } else {
                    TimerStatus::Idle
                },
                remaining: Duration { secs: s.work_secs },
                total_duration: Duration { secs: s.work_secs },
                ..*self
            },
        }
    }

    /// The timer after one second of `tick`.
    pub open spec fn ticked(&self) -> Timer {
        if self.status != TimerStatus::Running {
            *self
        } else if self.remaining.secs > 1 {
            Timer { remaining: Duration { secs: (self.remaining.secs - 1) as u64 }, ..*self }
        } else {
            Timer { remaining: Duration { secs: 0 }, status: TimerStatus::Completed, ..*self }
        }
    }

    /// Whether one second of `tick` completes the phase.
    pub open spec fn tick_completes(&self) -> bool {
        self.status == TimerStatus::Running && self.remaining.secs <= 1
    }

    /// The timer after `toggle_pause`.
    pub open spec fn toggled(&self) -> Timer {
        match self.status {
            TimerStatus::Running => Timer { status: TimerStatus::Paused, ..*self },
            TimerStatus::Paused => Timer { status: TimerStatus::Running, ..*self },
            TimerStatus::Idle => Timer { status: TimerStatus::Running, ..*self },
            TimerStatus::Completed => self.next_phase(true),
        }
    }

    /// The timer after `reset`.
    pub open spec fn reset_state(&self) -> Timer {
        Timer { remaining: self.total_duration, status: TimerStatus::Idle, ..*self }
    }

    /// Moving on from this phase crediting the work cannot overflow a counter.
    pub open spec fn can_credit(&self) -> bool {
        self.phase == TimerPhase::Work ==> {
            &&& self.pomodoros_completed < u32::MAX
            &&& self.cycle_position < u32::MAX
        }
    }

    /// Create a new timer from the user's config.
    pub fn new(config: &Config) -> (t: Self)
        requires
            config.lengths_fit(),
        ensures
            t.phase == TimerPhase::Work,
            t.status == TimerStatus::Idle,
            t.remaining.secs == config.work_duration * 60,
            t.total_duration.secs == config.work_duration * 60,
            t.pomodoros_completed == 0,
            t.cycle_position == 0,
            t.tick == 0,
            t.settings().work_secs == config.work_duration * 60,
            t.settings().short_secs == config.short_break * 60,
            t.settings().long_secs == config.long_break * 60,
            t.settings().interval == config.long_break_interval,
            t.settings().auto_breaks == config.auto_start_breaks,
            t.settings().auto_pomodoros == config.auto_start_pomodoros,
            config.long_break_interval > 0 ==> t.cycle_consistent(),
    {
        let work_duration = Duration::from_secs(config.work_duration * 60);
        proof {
            if config.long_break_interval > 0 {
                let i = config.long_break_interval as int;
                assert(0int % i == 0) by (nonlinear_arith)
                    requires
                        i > 0,
                ;
            }
        }
        Timer {
            phase: TimerPhase::Work,
            status: TimerStatus::Idle,
            remaining: work_duration,
            total_duration: work_duration,
            pomodoros_completed: 0,
            cycle_position: 0,
            tick: 0,
            work_duration,
            short_break_duration: Duration::from_secs(config.short_break * 60),
            long_break_duration: Duration::from_secs(config.long_break * 60),
            long_break_interval: config.long_break_interval,
            auto_start_breaks: config.auto_start_breaks,
            auto_start_pomodoros: config.auto_start_pomodoros,
        }
    }

    /// Advance the animation tick counter by one.
    pub fn animation_tick(&mut self)
        ensures
            steps_to(*old(self), TimerOp::AnimationTick, *final(self)),
            final(self).tick == if old(self).tick == u64::MAX {
                0
            } else {
                (old(self).tick + 1) as u64
            },
            final(self).phase == old(self).phase,
            final(self).status == old(self).status,
            final(self).remaining == old(self).remaining,
            final(self).total_duration == old(self).total_duration,
            final(self).pomodoros_completed == old(self).pomodoros_completed,
            final(self).cycle_position == old(self).cycle_position,
            final(self).settings() == old(self).settings(),
    {
        self.tick = self.tick.wrapping_add(1);
    }

    /// Advance the timer by one second. Returns `true` if the phase just completed.
    pub fn tick(&mut self) -> (done: bool)
        ensures
            steps_to(*old(self), TimerOp::Tick, *final(self)),
            *final(self) == old(self).ticked(),
            done == old(self).tick_completes(),
            old(self).status != TimerStatus::Running ==> !done && *final(self) == *old(self),
            old(self).status == TimerStatus::Running && old(self).remaining.secs > 1 ==> {
                &&& !done
                &&& final(self).remaining.secs == old(self).remaining.secs - 1
                &&& final(self).same_but_remaining(*old(self))
            },
            old(self).status == TimerStatus::Running && old(self).remaining.secs <= 1 ==> {
                &&& done
                &&& final(self).remaining.secs == 0
                &&& final(self).status == TimerStatus::Completed
                &&& final(self).same_but_status_remaining(*old(self))
            },
    {
        if self.status != TimerStatus::Running {
            return false;
        }
        if self.remaining.secs > 1 {
            self.remaining = Duration::from_secs(self.remaining.secs - 1);
            false
        } else {
            self.remaining = Duration::from_secs(0);
            self.status = TimerStatus::Completed;
            true
        }
    }

    /// Everything but the remaining time is as in `other`.
    pub open spec fn same_but_remaining(&self, other: Timer) -> bool {
        &&& self.status == other.status
        &&& self.same_but_status_remaining(other)
    }

    /// Everything but the status and the remaining time is as in `other`.
    pub open spec fn same_but_status_remaining(&self, other: Timer) -> bool {
        &&& self.phase == other.phase
        &&& self.total_duration == other.total_duration
        &&& self.pomodoros_completed == other.pomodoros_completed
        &&& self.cycle_position == other.cycle_position
        &&& self.tick == other.tick
        &&& self.settings() == other.settings()
    }

    /// Toggle between paused and running.
    pub fn toggle_pause(&mut self)
        requires
            old(self).status == TimerStatus::Completed ==> old(self).can_credit(),
        ensures
            steps_to(*old(self), TimerOp::TogglePause, *final(self)),
            old(self).status == TimerStatus::Running ==> final(self).status == TimerStatus::Paused
                && final(self).same_but_status(*old(self)),
            old(self).status == TimerStatus::Paused ==> final(self).status == TimerStatus::Running
                && final(self).same_but_status(*old(self)),
            old(self).status == TimerStatus::Idle ==> final(self).status == TimerStatus::Running
                && final(self).same_but_status(*old(self)),
            old(self).status == TimerStatus::Completed ==> *final(self) == old(self).next_phase(
                true,
            ),
            *final(self) == old(self).toggled(),
    {
        match self.status {
            TimerStatus::Running => self.status = TimerStatus::Paused,
            TimerStatus::Paused => self.status = TimerStatus::Running,
            TimerStatus::Idle => self.status = TimerStatus::Running,
            TimerStatus::Completed => self.advance_to_next_phase(),
        }
    }

    /// Reset the current phase timer back to full.
    pub fn reset(&mut self)
        ensures
            steps_to(*old(self), TimerOp::Reset, *final(self)),
            final(self).remaining == old(self).total_duration,
            final(self).status == TimerStatus::Idle,
            final(self).same_but_status_remaining(*old(self)),
            *final(self) == old(self).reset_state(),
    {
        self.remaining = self.total_duration;
        self.status = TimerStatus::Idle;
    }

    /// Skip ahead to the next phase without crediting the current one.
    pub fn skip(&mut self)
        ensures
            steps_to(*old(self), TimerOp::Skip, *final(self)),
            *final(self) == old(self).next_phase(false),
    {
        self.transition(false);
    }

    /// Transition to the next phase after the current one completed naturally.
    pub fn advance_to_next_phase(&mut self)
        requires
            old(self).can_credit(),
        ensures
            steps_to(*old(self), TimerOp::Advance, *final(self)),
            *final(self) == old(self).next_phase(true),
    {
        self.transition(true);
    }

    /// Move to the next phase. Only a naturally completed work phase counts
    /// toward `pomodoros_completed` and the long-break cycle.
    fn transition(&mut self, work_completed: bool)
        requires
            work_completed ==> old(self).can_credit(),
        ensures
            *final(self) == old(self).next_phase(work_completed),
    {
        match self.phase {
            TimerPhase::Work => {
                if work_completed {
                    self.pomodoros_completed = self.pomodoros_completed + 1;
                    self.cycle_position = self.cycle_position + 1;
                }
                if self.cycle_position >= self.long_break_interval {
                    self.phase = TimerPhase::LongBreak;
                    self.remaining = self.long_break_duration;
                    self.total_duration = self.long_break_duration;
                    self.cycle_position = 0;
                } else {
                    self.phase = TimerPhase::ShortBreak;
                    self.remaining = self.short_break_duration;
                    self.total_duration = self.short_break_duration;
                }
                self.status = if self.auto_start_breaks {
                    TimerStatus::Running
                } else {
                    TimerStatus::Idle
                };
            },
            TimerPhase::ShortBreak | TimerPhase::LongBreak => {
                self.phase = TimerPhase::Work;
                self.remaining = self.work_duration;
                self.total_duration = self.work_duration;
                self.status = if self.auto_start_pomodoros {
                    TimerStatus::Running
                } else {
                    TimerStatus::Idle
                };
            },
        }
    }

    /// Remaining time after `adjust(minutes)`.
    pub open spec fn adjusted_remaining(&self, minutes: i64) -> u64 {
        if minutes > 0 {
            (self.remaining.secs + 60) as u64
        } else if minutes < 0 && self.remaining.secs > 60 {
            if self.remaining.secs - 60 >= 60 {
                (self.remaining.secs - 60) as u64
            } else {
                60
            }
        } else {
            self.remaining.secs
        }
    }

    /// Add or subtract whole minutes from the current phase, keeping at
    /// least one minute on the clock and progress within [0, 1].
    ///
    /// Whatever the magnitude of `minutes`, one call moves the clock by one
    /// minute at most.
    pub fn adjust(&mut self, minutes: i64)
        requires
            minutes > 0 ==> old(self).remaining.secs + 60 <= u64::MAX && old(
                self,
            ).total_duration.secs + 60 <= u64::MAX,
        ensures
            steps_to(*old(self), TimerOp::Adjust(minutes), *final(self)),
            final(self).remaining.secs == old(self).adjusted_remaining(minutes),
            final(self).total_duration.secs == {
                let grown = if minutes > 0 {
                    old(self).total_duration.secs + 60
                } else {
                    old(self).total_duration.secs as int
                };
                if grown < final(self).remaining.secs {
                    final(self).remaining.secs as int
                } else {
                    grown
                }
            },
            final(self).total_duration.secs >= final(self).remaining.secs,
            final(self).same_but_durations(*old(self)),
    {
        let delta: u64 = 60;
        if minutes > 0 {
            self.remaining = Duration::from_secs(self.remaining.secs + delta);
            self.total_duration = Duration::from_secs(self.total_duration.secs + delta);
        } else if minutes < 0 && self.remaining.secs > delta {
            let lowered = self.remaining.secs - delta;
            self.remaining = Duration::from_secs(if lowered >= delta { lowered } else { delta });
        }
        if self.total_duration.secs < self.remaining.secs {
            self.total_duration = self.remaining;
        }
    }

    /// Everything but the two durations is as in `other`.
    pub open spec fn same_but_durations(&self, other: Timer) -> bool {
        &&& self.phase == other.phase
        &&& self.status == other.status
        &&& self.pomodoros_completed == other.pomodoros_completed
        &&& self.cycle_position == other.cycle_position
        &&& self.tick == other.tick
        &&& self.settings() == other.settings()
    }

    /// Progress through the phase as a whole percentage, 0 to 100.
    ///
    /// The exact ratio `elapsed / total`, clamped to [0, 1], times 100 and
    /// rounded half away from zero; a phase of length zero counts as done.
    pub open spec fn percent_spec(&self) -> int {
        let total = self.total_duration.secs as int;
        let rem = self.remaining.secs as int;
        if total == 0 {
            100
        } else if rem >= total {
            0
        } else {
            (200 * (total - rem) + total) / (2 * total)
        }
    }

    /// Progress as a whole percentage (see `percent_spec`).
    pub fn percent(&self) -> (p: u8)
        ensures
            p == self.percent_spec(),
            p <= 100,
    {
        let total = self.total_duration.secs;
        let rem = self.remaining.secs;
        if total == 0 {
            return 100;
        }
        if rem >= total {
            return 0;
        }
        let elapsed: u128 = (total - rem) as u128;
        let t: u128 = total as u128;
        assert(elapsed <= t);
        assert(200 * elapsed + t <= 2 * t * 101) by (nonlinear_arith)
            requires
                elapsed <= t,
        ;
        let q: u128 = (200 * elapsed + t) / (2 * t);
        assert(q <= 100) by (nonlinear_arith)
            requires
                q == (200 * elapsed + t) / (2 * t),
                elapsed <= t,
                t > 0,
        ;
        q as u8
    }

    /// The `MM:SS` text for a number of seconds.
    pub open spec fn display_of(secs: nat) -> Seq<char> {
        pad2(secs / 60) + seq![':'] + pad2(secs % 60)
    }

    /// Format remaining time as "MM:SS".
    pub fn remaining_display(&self) -> (s: String)
        ensures
            s@ == Self::display_of(self.remaining.secs as nat),
    {
        let total_secs = self.remaining.secs;
        let mins = total_secs / 60;
        let secs = total_secs % 60;
        let mut out: Vec<char> = Vec::new();
        two_digits_into(&mut out, mins);
        out.push(':');
        two_digits_into(&mut out, secs);
        proof {
            assert(out@ =~= pad2(mins as nat) + seq![':'] + pad2(secs as nat));
        }
        string_of(&out)
    }

    /// Whether we're in the last 60 seconds (for "last minute" mascot state).
    pub fn is_last_minute(&self) -> (b: bool)
        ensures
            b == (self.status == TimerStatus::Running && self.remaining.secs <= 60),
    {
        self.status == TimerStatus::Running && self.remaining.secs <= 60
    }
}

/// Arithmetic behind the long-break cycle: one more pomodoro moves the
/// position in the cycle up by one, or back to zero on reaching the interval.
proof fn lemma_mod_step(p: int, c: int, i: int)
    requires
        i > 0,
        p >= 0,
        c == p % i,
    ensures
        c < i,
        c + 1 < i ==> (p + 1) % i == c + 1,
        c + 1 >= i ==> (p + 1) % i == 0 && c + 1 == i,
{
    assert(0 <= c < i) by (nonlinear_arith)
        requires
            i > 0,
            c == p % i,
    ;
    assert(p == i * (p / i) + c) by (nonlinear_arith)
        requires
            i > 0,
            c == p % i,
    ;
    if c + 1 < i {
        assert((p + 1) % i == c + 1) by (nonlinear_arith)
            requires
                i > 0,
                p + 1 == i * (p / i) + (c + 1),
                0 <= c + 1 < i,
        ;
    } else {
        assert(c + 1 == i);
        assert(p + 1 == i * (p / i + 1)) by (nonlinear_arith)
            requires
                p == i * (p / i) + c,
                c + 1 == i,
        ;
        assert((p + 1) % i == 0) by (nonlinear_arith)
            requires
                i > 0,
                p + 1 == i * (p / i + 1),
        ;
    }
}

/// An operation of the timer's public interface.
#[derive(Debug, Clone, Copy, PartialEq, Eq, Structural)]
pub enum TimerOp {
    Tick,
    TogglePause,
    Reset,
    Skip,
    Advance,
    Adjust(i64),
    AnimationTick,
}

/// `after` is what `op` may make of `before`, as the operation's contract
/// states, with the operation's precondition met (no counter overflows).
pub open spec fn steps_to(before: Timer, op: TimerOp, after: Timer) -> bool {
    match op {
        TimerOp::Tick => after == before.ticked(),
        TimerOp::TogglePause => {
            &&& (before.status == TimerStatus::Completed ==> before.can_credit())
            &&& after == before.toggled()
        },
        TimerOp::Reset => after == before.reset_state(),
        TimerOp::Skip => after == before.next_phase(false),
        TimerOp::Advance => before.can_credit() && after == before.next_phase(true),
        TimerOp::Adjust(m) => {
            &&& after.same_but_durations(before)
            &&& after.remaining.secs == before.adjusted_remaining(m)
        },
        TimerOp::AnimationTick => {
            &&& after.phase == before.phase
            &&& after.status == before.status
            &&& after.remaining == before.remaining
            &&& after.total_duration == before.total_duration
            &&& after.pomodoros_completed == before.pomodoros_completed
            &&& after.cycle_position == before.cycle_position
            &&& after.settings() == before.settings()
        },
    }
}

/// Whether `op` credits a pomodoro when applied to `t`: only finishing a
/// work phase does, by `advance_to_next_phase` or by `toggle_pause` on a
/// completed one; never a skip.
pub open spec fn credits(t: Timer, op: TimerOp) -> bool {
    t.phase == TimerPhase::Work && (op == TimerOp::Advance || (op == TimerOp::TogglePause
        && t.status == TimerStatus::Completed))
}

/// `ts` is a run of the timer from `ts[0]` through the operations `ops`.
pub open spec fn is_run(ops: Seq<TimerOp>, ts: Seq<Timer>) -> bool {
    &&& ts.len() == ops.len() + 1
    &&& forall|i: int| 0 <= i < ops.len() ==> steps_to(ts[i], #[trigger] ops[i], ts[i + 1])
}

/// One operation keeps the cycle in step with the count and the settings
/// unchanged, and credits a pomodoro exactly when `credits` says so.
proof fn lemma_step(before: Timer, op: TimerOp, after: Timer)
    requires
        before.cycle_consistent(),
        steps_to(before, op, after),
    ensures
        after.cycle_consistent(),
        after.settings() == before.settings(),
        after.pomodoros_completed == before.pomodoros_completed + if credits(before, op) {
            1int
        } else {
            0int
        },
{
    match op {
        TimerOp::TogglePause => {
            if before.status == TimerStatus::Completed {
                law_cycle_stays_consistent(before, true);
            }
        },
        TimerOp::Skip => {
            law_cycle_stays_consistent(before, false);
        },
        TimerOp::Advance => {
            law_cycle_stays_consistent(before, true);
        },
        _ => {},
    }
}

/// Over any run of operations from a timer whose cycle is in step (as
/// `Timer::new` makes it with a positive interval), the cycle position
/// stays the pomodoro count modulo the interval, so it stays below the
/// interval; the settings never change; and the count never decreases,
/// rising by exactly one only where a work phase is finished (never on a
/// skip).
pub proof fn law_cycle_consistent_over_runs(ops: Seq<TimerOp>, ts: Seq<Timer>)
    requires
        is_run(ops, ts),
        ts[0].cycle_consistent(),
    ensures
        forall|i: int| 0 <= i < ts.len() ==> (#[trigger] ts[i]).cycle_consistent() && ts[i].cycle_position
            < ts[0].settings().interval && ts[i].settings() == ts[0].settings(),
        forall|i: int|
            0 <= i < ops.len() ==> (#[trigger] ts[i + 1]).pomodoros_completed == ts[i].pomodoros_completed
                + if credits(ts[i], ops[i]) {
                1int
            } else {
                0int
            },
    decreases ops.len(),
{
    if ops.len() > 0 {
        let n = ops.len() - 1;
        let ops2 = ops.subrange(0, n);
        let ts2 = ts.subrange(0, n + 1);
        assert forall|i: int| 0 <= i < ops2.len() implies steps_to(ts2[i], #[trigger] ops2[i], ts2[i + 1]) by {
            assert(steps_to(ts[i], ops[i], ts[i + 1]));
        }
        law_cycle_consistent_over_runs(ops2, ts2);
        assert(ts2[n].cycle_consistent());
        assert(steps_to(ts[n], ops[n], ts[n + 1]));
        lemma_step(ts[n], ops[n], ts[n + 1]);
        assert forall|i: int| 0 <= i < ts.len() implies (#[trigger] ts[i]).cycle_consistent()
            && ts[i].cycle_position < ts[0].settings().interval && ts[i].settings() == ts[0].settings() by {
            if i <= n {
                assert(ts2[i] == ts[i]);
            }
        }
        assert forall|i: int| 0 <= i < ops.len() implies (#[trigger] ts[i + 1]).pomodoros_completed
            == ts[i].pomodoros_completed + if credits(ts[i], ops[i]) {
            1int
        } else {
            0int
        } by {
            if i < n {
                assert(ts2[i + 1] == ts[i + 1] && ts2[i] == ts[i] && ops2[i] == ops[i]);
            } else {
                lemma_step(ts[i], ops[i], ts[i + 1]);
            }
        }
    }
}

/// Moving on from any phase keeps the long-break cycle in step with the
/// pomodoro count, whether the work phase is credited or skipped.
pub proof fn law_cycle_stays_consistent(t: Timer, work_completed: bool)
    requires
        t.cycle_consistent(),
        work_completed ==> t.can_credit(),
    ensures
        t.next_phase(work_completed).cycle_consistent(),
{
    let i = t.settings().interval as int;
    lemma_mod_step(t.pomodoros_completed as int, t.cycle_position as int, i);
    if t.phase == TimerPhase::Work && !work_completed {
        assert(t.next_phase(false).phase == TimerPhase::ShortBreak);
    }
}

/// A long break comes after every `long_break_interval`-th completed
/// pomodoro and after no other: completing a work phase leads to a long
/// break exactly when the new pomodoro count is a multiple of the interval.
pub proof fn law_long_break_every_interval(t: Timer)
    requires
        t.cycle_consistent(),
        t.phase == TimerPhase::Work,
        t.can_credit(),
    ensures
        t.next_phase(true).pomodoros_completed == t.pomodoros_completed + 1,
        t.next_phase(true).phase == TimerPhase::LongBreak <==> (t.pomodoros_completed + 1) % (
        t.settings().interval as int) == 0,
        t.next_phase(true).phase != TimerPhase::Work,
{
    lemma_mod_step(
        t.pomodoros_completed as int,
        t.cycle_position as int,
        t.settings().interval as int,
    );
}

/// Skipping a work phase never counts as a pomodoro and never earns a long
/// break: it always leads to a short break with the cycle untouched.
pub proof fn law_skip_earns_nothing(t: Timer)
    requires
        t.cycle_consistent(),
        t.phase == TimerPhase::Work,
    ensures
        t.next_phase(false).phase == TimerPhase::ShortBreak,
        t.next_phase(false).pomodoros_completed == t.pomodoros_completed,
        t.next_phase(false).cycle_position == t.cycle_position,
{
    lemma_mod_step(
        t.pomodoros_completed as int,
        t.cycle_position as int,
        t.settings().interval as int,
    );
}

/// A break always leads back to a full work phase, and leaves the counts alone.
pub proof fn law_break_returns_to_work(t: Timer, work_completed: bool)
    requires
        t.phase != TimerPhase::Work,
    ensures
        t.next_phase(work_completed).phase == TimerPhase::Work,
        t.next_phase(work_completed).remaining.secs == t.settings().work_secs,
        t.next_phase(work_completed).total_duration.secs == t.settings().work_secs,
        t.next_phase(work_completed).pomodoros_completed == t.pomodoros_completed,
        t.next_phase(work_completed).cycle_position == t.cycle_position,
{
}

/// Auto-start follows the configuration and nothing else: after a work
/// phase the break runs by itself exactly when breaks auto-start, after a
/// break the new work phase runs by itself exactly when pomodoros
/// auto-start; otherwise the new phase waits, idle, for the user.
pub proof fn law_auto_start_follows_config(t: Timer, work_completed: bool)
    ensures
        t.phase == TimerPhase::Work ==> (t.next_phase(work_completed).status == TimerStatus::Running
            <==> t.auto_start_breaks),
        t.phase != TimerPhase::Work ==> (t.next_phase(work_completed).status == TimerStatus::Running
            <==> t.auto_start_pomodoros),
        t.next_phase(work_completed).status == TimerStatus::Running || t.next_phase(
            work_completed,
        ).status == TimerStatus::Idle,
{
}

/// A new phase always starts with a full clock: the remaining time equals
/// the phase's length, and the phase's settings are those the timer was
/// built with.
pub proof fn law_next_phase_starts_full(t: Timer, work_completed: bool)
    ensures
        t.next_phase(work_completed).remaining == t.next_phase(work_completed).total_duration,
        t.next_phase(work_completed).settings() == t.settings(),
        t.next_phase(work_completed).tick == t.tick,
        t.next_phase(work_completed).status == TimerStatus::Running || t.next_phase(
            work_completed,
        ).status == TimerStatus::Idle,
{
}

} // verus!

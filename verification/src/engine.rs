//! Everything that happens to a pomodoro regardless of who is driving it.
//!
//! The terminal front-end and the daemon both own an `Engine`: it holds the
//! timer and decides which session to record, which hook to run and which
//! notification to raise. The front-end carries out what the engine hands
//! back (writing the history file, spawning the hook, showing the
//! notification), so those rules live in one place.

use vstd::prelude::*;
use vstd::string::*;

use crate::clock::{now, Timestamp};
use crate::config::Config;
use crate::hooks::{runnable_line, HookContext};
use crate::idle::IdleEvent;
use crate::storage::{views, Session};
use crate::text::{
    dec, decimal, join, join_with, lemma_replace_absent, occurs_in, push_str, replace, replace_all,
    string_of, text_view, trim,
};
use crate::timer::{Timer, TimerPhase, TimerStatus};

verus! {

/// Stable identifier of a phase, used in stored sessions, hooks and IPC.
pub open spec fn phase_name_spec(phase: TimerPhase) -> Seq<char> {
    match phase {
        TimerPhase::Work => "work"@,
        TimerPhase::ShortBreak => "short_break"@,
        TimerPhase::LongBreak => "long_break"@,
    }
}

/// Stable identifier for a phase, used in stored sessions, hooks and IPC.
pub fn phase_name(phase: TimerPhase) -> (s: &'static str)
    ensures
        s@ == phase_name_spec(phase),
{
    match phase {
        TimerPhase::Work => "work",
        TimerPhase::ShortBreak => "short_break",
        TimerPhase::LongBreak => "long_break",
    }
}

/// Stable identifier of a timer status, as reported over IPC.
pub open spec fn status_name_spec(status: TimerStatus) -> Seq<char> {
    match status {
        TimerStatus::Running => "running"@,
        TimerStatus::Paused => "paused"@,
        TimerStatus::Idle => "idle"@,
        TimerStatus::Completed => "completed"@,
    }
}

fn status_name(status: TimerStatus) -> (s: &'static str)
    ensures
        s@ == status_name_spec(status),
{
    match status {
        TimerStatus::Running => "running",
        TimerStatus::Paused => "paused",
        TimerStatus::Idle => "idle",
        TimerStatus::Completed => "completed",
    }
}

/// A point-in-time view of the engine, safe to send over IPC.
#[derive(Debug, Clone)]
pub struct Status {
    /// `work`, `short_break` or `long_break`.
    pub phase: String,
    /// `running`, `paused`, `idle` or `completed`.
    pub status: String,
    /// Seconds left in the current phase.
    pub remaining_seconds: u64,
    /// Full length of the current phase, in seconds.
    pub total_seconds: u64,
    /// Progress through the phase, 0-100.
    pub percent: u8,
    /// Work pomodoros completed since the timer started.
    pub pomodoros: u32,
    /// Remaining time preformatted as `MM:SS`.
    pub time: String,
    /// True when the pause was caused by the user stepping away.
    pub idle_paused: bool,
    /// The last non-fatal failure, usually a history write that could not
    /// be completed.
    pub error: Option<String>,
}

/// The icon for a phase and status: the pause sign whenever paused,
/// otherwise the phase's own emoji (the tomato for anything unknown).
pub open spec fn icon_spec(phase: Seq<char>, status: Seq<char>) -> Seq<char> {
    if status == "paused"@ {
        "⏸"@
    } else if phase == "short_break"@ {
        "☕"@
    } else if phase == "long_break"@ {
        "🌴"@
    } else {
        "🍅"@
    }
}

impl Status {
    /// A phase-appropriate emoji, handy for status bars.
    pub fn icon(&self) -> (s: &'static str)
        ensures
            s@ == icon_spec(self.phase@, self.status@),
    {
        if crate::text::str_eq(self.status.as_str(), "paused") {
            "⏸"
        } else if crate::text::str_eq(self.phase.as_str(), "short_break") {
            "☕"
        } else if crate::text::str_eq(self.phase.as_str(), "long_break") {
            "🌴"
        } else {
            "🍅"
        }
    }

    /// The text `render` makes of a template.
    pub open spec fn rendered(&self, template: Seq<char>) -> Seq<char> {
        let s1 = replace_all(template, "{icon}"@, icon_spec(self.phase@, self.status@));
        let s2 = replace_all(s1, "{time}"@, self.time@);
        let s3 = replace_all(s2, "{percent}"@, dec(self.percent as nat));
        let s4 = replace_all(s3, "{phase}"@, self.phase@);
        let s5 = replace_all(s4, "{status}"@, self.status@);
        let s6 = replace_all(s5, "{pomodoros}"@, dec(self.pomodoros as nat));
        let s7 = replace_all(s6, "{remaining}"@, dec(self.remaining_seconds as nat));
        replace_all(s7, "{total}"@, dec(self.total_seconds as nat))
    }

    /// Expand a user template such as `"{icon} {time}"`.
    ///
    /// Each placeholder is replaced in turn, in the order icon, time,
    /// percent, phase, status, pomodoros, remaining, total. Unknown
    /// placeholders are left untouched so a typo shows up in the bar.
    pub fn render(&self, template: &str) -> (s: String)
        ensures
            s@ == self.rendered(template@),
    {
        proof {
            reveal_strlit("{icon}");
            reveal_strlit("{time}");
            reveal_strlit("{percent}");
            reveal_strlit("{phase}");
            reveal_strlit("{status}");
            reveal_strlit("{pomodoros}");
            reveal_strlit("{remaining}");
            reveal_strlit("{total}");
        }
        let s1 = replace(template, "{icon}", self.icon());
        let s2 = replace(s1.as_str(), "{time}", self.time.as_str());
        let percent = decimal(self.percent as u64);
        let s3 = replace(s2.as_str(), "{percent}", percent.as_str());
        let s4 = replace(s3.as_str(), "{phase}", self.phase.as_str());
        let s5 = replace(s4.as_str(), "{status}", self.status.as_str());
        let pomodoros = decimal(self.pomodoros as u64);
        let s6 = replace(s5.as_str(), "{pomodoros}", pomodoros.as_str());
        let remaining = decimal(self.remaining_seconds);
        let s7 = replace(s6.as_str(), "{remaining}", remaining.as_str());
        let total = decimal(self.total_seconds);
        replace(s7.as_str(), "{total}", total.as_str())
    }
}

/// A template in which no placeholder occurs is shown as it is: only the
/// eight known placeholders are ever replaced, so text such as a typo'd
/// `{tme}` stays visible.
pub proof fn law_plain_templates_render_as_is(st: Status, template: Seq<char>)
    requires
        !occurs_in(template, "{icon}"@),
        !occurs_in(template, "{time}"@),
        !occurs_in(template, "{percent}"@),
        !occurs_in(template, "{phase}"@),
        !occurs_in(template, "{status}"@),
        !occurs_in(template, "{pomodoros}"@),
        !occurs_in(template, "{remaining}"@),
        !occurs_in(template, "{total}"@),
    ensures
        st.rendered(template) == template,
{
    reveal_strlit("{icon}");
    reveal_strlit("{time}");
    reveal_strlit("{percent}");
    reveal_strlit("{phase}");
    reveal_strlit("{status}");
    reveal_strlit("{pomodoros}");
    reveal_strlit("{remaining}");
    reveal_strlit("{total}");
    lemma_replace_absent(template, "{icon}"@, icon_spec(st.phase@, st.status@));
    lemma_replace_absent(template, "{time}"@, st.time@);
    lemma_replace_absent(template, "{percent}"@, dec(st.percent as nat));
    lemma_replace_absent(template, "{phase}"@, st.phase@);
    lemma_replace_absent(template, "{status}"@, st.status@);
    lemma_replace_absent(template, "{pomodoros}"@, dec(st.pomodoros as nat));
    lemma_replace_absent(template, "{remaining}"@, dec(st.remaining_seconds as nat));
    lemma_replace_absent(template, "{total}"@, dec(st.total_seconds as nat));
}

/// Each phase has its own icon while not paused (the tomato for work, a
/// cup for a short break, a palm for a long break, and the three differ),
/// and the pause sign replaces it whenever paused.
pub proof fn law_icons_tell_phases_apart(status: Seq<char>)
    ensures
        status != "paused"@ ==> icon_spec("work"@, status) == "🍅"@,
        status != "paused"@ ==> icon_spec("short_break"@, status) == "☕"@,
        status != "paused"@ ==> icon_spec("long_break"@, status) == "🌴"@,
        "🍅"@ != "☕"@ && "☕"@ != "🌴"@ && "🌴"@ != "🍅"@,
        "⏸"@ != "🍅"@ && "⏸"@ != "☕"@ && "⏸"@ != "🌴"@,
        forall|phase: Seq<char>| icon_spec(phase, "paused"@) == "⏸"@,
{
    reveal_strlit("work");
    reveal_strlit("short_break");
    reveal_strlit("long_break");
    reveal_strlit("🍅");
    reveal_strlit("☕");
    reveal_strlit("🌴");
    reveal_strlit("⏸");
    assert("🍅"@[0] != "☕"@[0]);
    assert("☕"@[0] != "🌴"@[0]);
    assert("🌴"@[0] != "🍅"@[0]);
    assert("⏸"@[0] != "🍅"@[0]);
    assert("⏸"@[0] != "☕"@[0]);
    assert("⏸"@[0] != "🌴"@[0]);
    assert("work"@[0] != "short_break"@[0]);
    assert("work"@[0] != "long_break"@[0]);
    assert("short_break"@[0] != "long_break"@[0]);
}

/// A hook to run: the shell line and the context it receives.
#[derive(Debug, Clone)]
pub struct HookRun {
    pub line: String,
    pub context: HookContext,
}

/// A desktop notification to raise.
#[derive(Debug, Clone)]
pub struct Notification {
    pub summary: String,
    pub body: String,
    /// Ask the notification daemon to play the `complete` sound.
    pub sound: bool,
}

/// What the front-end must do when a phase has run out and its session has
/// been recorded, in this order: notify, ring, run the end hook, run the
/// start hook of the next phase.
#[derive(Debug, Clone)]
pub struct PhaseEnd {
    pub notification: Option<Notification>,
    pub bell: bool,
    pub end_hook: Option<HookRun>,
    pub start_hook: Option<HookRun>,
}

/// The hooks to run around a skipped phase, in this order.
#[derive(Debug, Clone)]
pub struct Skipped {
    pub end_hook: Option<HookRun>,
    pub start_hook: Option<HookRun>,
}

/// What to do with the ambient track so it matches the timer.
#[derive(Debug, Clone, Copy, PartialEq, Eq, Structural)]
pub enum AmbientAction {
    /// Resolve the configured track and start it.
    Start,
    /// Stop the track that is playing.
    Stop,
    /// Leave things as they are.
    Keep,
}

/// Configured length of a phase in minutes.
pub open spec fn phase_minutes(config: Config, phase: TimerPhase) -> u64 {
    match phase {
        TimerPhase::Work => config.work_duration,
        TimerPhase::ShortBreak => config.short_break,
        TimerPhase::LongBreak => config.long_break,
    }
}

/// The hook configured for the start (or end) of a phase.
pub open spec fn hook_for(config: Config, phase: TimerPhase, start: bool) -> Option<String> {
    match phase {
        TimerPhase::Work => if start {
            config.hooks.work_start
        } else {
            config.hooks.work_end
        },
        _ => if start {
            config.hooks.break_start
        } else {
            config.hooks.break_end
        },
    }
}

/// The context a hook receives describes the engine's current phase.
pub open spec fn context_ok(c: HookContext, e: Engine, completed: bool) -> bool {
    &&& c.phase@ == phase_name_spec(e.timer.phase)
    &&& c.pomodoros == e.timer.pomodoros_completed
    &&& c.duration_minutes == phase_minutes(e.config, e.timer.phase)
    &&& c.tags@ == join_with(views(e.config.tags@), ","@)
    &&& c.completed == completed
}

/// `h` is the start (or end) hook for the engine's current phase: present
/// exactly when one is configured and not blank, trimmed, with its context.
pub open spec fn hook_ok(h: Option<HookRun>, e: Engine, start: bool, completed: bool) -> bool {
    match hook_for(e.config, e.timer.phase, start) {
        Some(line) => if trim(line@).len() > 0 {
            &&& h is Some
            &&& h->0.line@ == trim(line@)
            &&& context_ok(h->0.context, e, completed)
        } else {
            h is None
        },
        None => h is None,
    }
}

/// The notification for the end of a phase.
pub open spec fn notification_ok(n: Notification, phase: TimerPhase, pomodoros: u32, sound: bool) -> bool {
    &&& n.sound == sound
    &&& match phase {
        TimerPhase::Work => {
            &&& n.summary@ == "🍅 Pomodoro Complete!"@
            &&& n.body@ == "Great focus session! #"@ + dec(pomodoros as nat)
                + " done. Time for a break."@
        },
        TimerPhase::ShortBreak => {
            &&& n.summary@ == "☕ Break Over!"@
            &&& n.body@ == "Short break is done. Ready to focus again?"@
        },
        TimerPhase::LongBreak => {
            &&& n.summary@ == "🌴 Long Break Over!"@
            &&& n.body@ == "Feeling refreshed? Let's get back to work!"@
        },
    }
}

/// `s` is the session record of the engine's current phase.
pub open spec fn session_ok(s: Session, e: Engine, started: Timestamp, completed: bool) -> bool {
    &&& s.started_at == started
    &&& s.duration_minutes == phase_minutes(e.config, e.timer.phase)
    &&& s.phase@ == phase_name_spec(e.timer.phase)
    &&& s.completed == completed
    &&& !s.synced
    &&& views(s.tags@) == views(e.config.tags@)
    &&& s.focus_seconds == e.focus_seconds
}

/// The engine after an inactivity signal: stepping away pauses a running
/// timer and remembers why; coming back changes nothing.
pub open spec fn after_idle(e: Engine, event: IdleEvent) -> Engine {
    if event == IdleEvent::Idled && e.timer.status == TimerStatus::Running {
        Engine { timer: Timer { status: TimerStatus::Paused, ..e.timer }, paused_by_idle: true, ..e }
    } else {
        e
    }
}

/// Seconds of focus after one tick: one more while the clock runs.
pub open spec fn focus_after_tick(e: Engine) -> u64 {
    if e.timer.status == TimerStatus::Running && e.focus_seconds < u64::MAX {
        (e.focus_seconds + 1) as u64
    } else {
        e.focus_seconds
    }
}

/// Time away is never counted as focus: once the user steps away from a
/// running timer it is paused, coming back does not restart it, and ticks
/// neither move the clock nor add focus time until the user resumes.
pub proof fn law_time_away_is_not_focus(e: Engine)
    requires
        e.timer.status == TimerStatus::Running,
    ensures
        ({
            let away = after_idle(e, IdleEvent::Idled);
            &&& away.timer.status == TimerStatus::Paused
            &&& away.paused_by_idle
            &&& after_idle(away, IdleEvent::Resumed) == away
            &&& after_idle(away, IdleEvent::Idled) == away
            &&& away.timer.ticked() == away.timer
            &&& focus_after_tick(away) == away.focus_seconds
        }),
{
}

/// The engine after `pause`: a running timer is paused by hand (so the
/// pause is not put down to the user being away); anything else stays.
pub open spec fn paused(e: Engine) -> Engine {
    if e.timer.status == TimerStatus::Running {
        Engine { timer: Timer { status: TimerStatus::Paused, ..e.timer }, paused_by_idle: false, ..e }
    } else {
        e
    }
}

/// `after` and `hook` are what `resume` makes of `before`: a paused timer
/// runs again, an idle one starts (its phase is timed from now and its
/// start hook returned), a running or completed one stays as it is; the
/// away notice is cleared either way.
pub open spec fn resume_ok(before: Engine, after: Engine, hook: Option<HookRun>) -> bool {
    &&& !after.paused_by_idle
    &&& after.config == before.config
    &&& after.first_session_today == before.first_session_today
    &&& after.last_error == before.last_error
    &&& match before.timer.status {
        TimerStatus::Paused => {
            &&& after.timer == (Timer { status: TimerStatus::Running, ..before.timer })
            &&& after.phase_started_at == before.phase_started_at
            &&& after.focus_seconds == before.focus_seconds
            &&& hook is None
        },
        TimerStatus::Idle => {
            &&& after.timer == (Timer { status: TimerStatus::Running, ..before.timer })
            &&& after.phase_started_at is Some
            &&& after.focus_seconds == 0
            &&& hook_ok(hook, after, true, false)
        },
        _ => {
            &&& after.timer == before.timer
            &&& after.phase_started_at == before.phase_started_at
            &&& after.focus_seconds == before.focus_seconds
            &&& hook is None
        },
    }
}

/// Pausing is idempotent: pausing twice leaves the engine as pausing once,
/// so scripts can pause without looking at the state first.
pub proof fn law_pause_is_idempotent(e: Engine)
    ensures
        paused(paused(e)) == paused(e),
{
}

/// Resuming (or starting) is idempotent: a second resume changes nothing
/// and runs no hook, so scripts can resume without looking at the state.
pub proof fn law_resume_is_idempotent(
    a: Engine,
    b: Engine,
    c: Engine,
    first_hook: Option<HookRun>,
    second_hook: Option<HookRun>,
)
    requires
        resume_ok(a, b, first_hook),
        resume_ok(b, c, second_hook),
    ensures
        c == b,
        second_hook is None,
{
}

/// The timer, the history rules, hooks and notifications of one run.
pub struct Engine {
    /// The timer state machine.
    pub timer: Timer,
    /// User configuration for this run.
    pub config: Config,
    /// True while no work session has been completed today.
    pub first_session_today: bool,
    /// True when the timer was paused because the user stepped away.
    ///
    /// Stays set after they come back, so the front-end can explain why the
    /// clock is stopped instead of silently resuming.
    pub paused_by_idle: bool,
    /// When the current phase started, if it is being timed.
    pub phase_started_at: Option<Timestamp>,
    /// Seconds the clock has run in the phase being timed.
    pub focus_seconds: u64,
    /// The last non-fatal failure the front-end met while carrying out what
    /// the engine decided (usually a history write), reported with the status.
    pub last_error: Option<String>,
}

impl Engine {
    /// Build an engine for `config`. `first_session_today` says whether no
    /// work session has been completed today yet (the history decides).
    pub fn new(config: Config, first_session_today: bool) -> (e: Self)
        requires
            config.lengths_fit(),
        ensures
            e.timer.phase == TimerPhase::Work,
            e.timer.status == TimerStatus::Idle,
            e.timer.remaining.secs == config.work_duration * 60,
            e.timer.total_duration.secs == config.work_duration * 60,
            e.timer.pomodoros_completed == 0,
            e.timer.cycle_position == 0,
            e.timer.settings().work_secs == config.work_duration * 60,
            e.timer.settings().short_secs == config.short_break * 60,
            e.timer.settings().long_secs == config.long_break * 60,
            e.timer.settings().interval == config.long_break_interval,
            e.timer.settings().auto_breaks == config.auto_start_breaks,
            e.timer.settings().auto_pomodoros == config.auto_start_pomodoros,
            config.long_break_interval > 0 ==> e.timer.cycle_consistent(),
            e.config == config,
            e.first_session_today == first_session_today,
            !e.paused_by_idle,
            e.phase_started_at is None,
            e.focus_seconds == 0,
            e.last_error is None,
    {
        let timer = Timer::new(&config);
        Engine {
            timer,
            config,
            first_session_today,
            paused_by_idle: false,
            phase_started_at: None,
            focus_seconds: 0,
            last_error: None,
        }
    }

    /// Whether the ambient track should be playing: during a running work
    /// phase, when a track is configured.
    pub open spec fn ambient_wanted(&self) -> bool {
        &&& self.timer.phase == TimerPhase::Work
        &&& self.timer.status == TimerStatus::Running
        &&& self.config.ambient_sound@.len() > 0
    }

    /// Start or stop the ambient track so it matches the timer. Only acts on
    /// transitions, so a running track is never restarted.
    pub fn ambient_action(&self, playing: bool) -> (a: AmbientAction)
        ensures
            a == if self.ambient_wanted() {
                if playing {
                    AmbientAction::Keep
                } else {
                    AmbientAction::Start
                }
            } else if playing {
                AmbientAction::Stop
            } else {
                AmbientAction::Keep
            },
    {
        let should_play = self.timer.phase == TimerPhase::Work && self.timer.status
            == TimerStatus::Running && self.config.ambient_sound.as_str().unicode_len() > 0;
        if should_play {
            if playing {
                AmbientAction::Keep
            } else {
                AmbientAction::Start
            }
        } else if playing {
            AmbientAction::Stop
        } else {
            AmbientAction::Keep
        }
    }

    /// Configured length of a phase in minutes.
    fn phase_duration(&self, phase: TimerPhase) -> (m: u64)
        ensures
            m == phase_minutes(self.config, phase),
    {
        match phase {
            TimerPhase::Work => self.config.work_duration,
            TimerPhase::ShortBreak => self.config.short_break,
            TimerPhase::LongBreak => self.config.long_break,
        }
    }

    /// Describe the current phase for a hook invocation.
    fn hook_context(&self, completed: bool) -> (c: HookContext)
        ensures
            context_ok(c, *self, completed),
    {
        HookContext {
            phase: String::from_str(phase_name(self.timer.phase)),
            pomodoros: self.timer.pomodoros_completed,
            duration_minutes: self.phase_duration(self.timer.phase),
            tags: join(&self.config.tags, ","),
            completed,
        }
    }

    /// The start (or end) hook of the current phase, if one is to run.
    fn phase_hook(&self, start: bool, completed: bool) -> (h: Option<HookRun>)
        ensures
            hook_ok(h, *self, start, completed),
    {
        let configured = match self.timer.phase {
            TimerPhase::Work => if start {
                &self.config.hooks.work_start
            } else {
                &self.config.hooks.work_end
            },
            _ => if start {
                &self.config.hooks.break_start
            } else {
                &self.config.hooks.break_end
            },
        };
        match configured {
            Some(line) => match runnable_line(line.as_str()) {
                Some(l) => Some(HookRun { line: l, context: self.hook_context(completed) }),
                None => None,
            },
            None => None,
        }
    }

    /// Begin timing the current phase now.
    fn start_timing(&mut self)
        ensures
            final(self).phase_started_at is Some,
            final(self).focus_seconds == 0,
            final(self).timer == old(self).timer,
            final(self).config == old(self).config,
            final(self).first_session_today == old(self).first_session_today,
            final(self).paused_by_idle == old(self).paused_by_idle,
            final(self).last_error == old(self).last_error,
    {
        self.phase_started_at = Some(now());
        self.focus_seconds = 0;
    }

    /// Everything about `self` but the timing of the phase is as in `other`.
    pub open spec fn same_but_timing(&self, other: Engine) -> bool {
        &&& self.timer == other.timer
        &&& self.config == other.config
        &&& self.first_session_today == other.first_session_today
        &&& self.paused_by_idle == other.paused_by_idle
        &&& self.last_error == other.last_error
    }

    // ── Controls ─────────────────────────────────────────────────────────

    /// Start or pause, mirroring the space bar. Starting an idle timer begins
    /// timing the phase and returns its start hook.
    pub fn toggle(&mut self) -> (start_hook: Option<HookRun>)
        requires
            old(self).timer.status == TimerStatus::Completed ==> old(self).timer.can_credit(),
        ensures
            final(self).timer == old(self).timer.toggled(),
            !final(self).paused_by_idle,
            final(self).last_error == old(self).last_error,
            final(self).config == old(self).config,
            final(self).first_session_today == old(self).first_session_today,
            old(self).timer.status == TimerStatus::Idle ==> {
                &&& final(self).phase_started_at is Some
                &&& final(self).focus_seconds == 0
                &&& hook_ok(start_hook, *final(self), true, false)
            },
            old(self).timer.status != TimerStatus::Idle ==> {
                &&& final(self).phase_started_at == old(self).phase_started_at
                &&& final(self).focus_seconds == old(self).focus_seconds
                &&& start_hook is None
            },
    {
        let starting = self.timer.status == TimerStatus::Idle;
        if starting {
            self.start_timing();
        }
        // Any deliberate control clears the away notice.
        self.paused_by_idle = false;
        self.timer.toggle_pause();
        if starting {
            self.phase_hook(true, false)
        } else {
            None
        }
    }

    /// Pause because the user stepped away from the desk.
    ///
    /// Only a running timer is affected, and the reason is remembered so the
    /// front-end can tell them what happened when they return.
    pub fn pause_for_idle(&mut self)
        ensures
            final(self).last_error == old(self).last_error,
            old(self).timer.status == TimerStatus::Running ==> {
                &&& final(self).timer == (Timer { status: TimerStatus::Paused, ..old(self).timer })
                &&& final(self).paused_by_idle
                &&& final(self).config == old(self).config
                &&& final(self).first_session_today == old(self).first_session_today
                &&& final(self).phase_started_at == old(self).phase_started_at
                &&& final(self).focus_seconds == old(self).focus_seconds
            },
            old(self).timer.status != TimerStatus::Running ==> *final(self) == *old(self),
    {
        if self.timer.status == TimerStatus::Running {
            self.timer.status = TimerStatus::Paused;
            self.paused_by_idle = true;
        }
    }

    /// Pause a running timer. Idempotent: pausing an already paused or idle
    /// timer does nothing, so scripts can call it blindly.
    pub fn pause(&mut self)
        ensures
            final(self).last_error == old(self).last_error,
            *final(self) == paused(*old(self)),
            old(self).timer.status == TimerStatus::Running ==> {
                &&& final(self).timer == (Timer { status: TimerStatus::Paused, ..old(self).timer })
                &&& !final(self).paused_by_idle
                &&& final(self).config == old(self).config
                &&& final(self).first_session_today == old(self).first_session_today
                &&& final(self).phase_started_at == old(self).phase_started_at
                &&& final(self).focus_seconds == old(self).focus_seconds
            },
            old(self).timer.status != TimerStatus::Running ==> *final(self) == *old(self),
    {
        if self.timer.status == TimerStatus::Running {
            self.timer.status = TimerStatus::Paused;
            self.paused_by_idle = false;
        }
    }

    /// Resume a paused timer, or start an idle one. Idempotent.
    pub fn resume(&mut self) -> (start_hook: Option<HookRun>)
        ensures
            final(self).last_error == old(self).last_error,
            resume_ok(*old(self), *final(self), start_hook),
            !final(self).paused_by_idle,
            final(self).config == old(self).config,
            final(self).first_session_today == old(self).first_session_today,
            old(self).timer.status == TimerStatus::Paused ==> {
                &&& final(self).timer == (Timer { status: TimerStatus::Running, ..old(self).timer })
                &&& final(self).phase_started_at == old(self).phase_started_at
                &&& final(self).focus_seconds == old(self).focus_seconds
                &&& start_hook is None
            },
            old(self).timer.status == TimerStatus::Idle ==> {
                &&& final(self).timer == (Timer { status: TimerStatus::Running, ..old(self).timer })
                &&& final(self).phase_started_at is Some
                &&& final(self).focus_seconds == 0
                &&& hook_ok(start_hook, *final(self), true, false)
            },
            (old(self).timer.status == TimerStatus::Running || old(self).timer.status
                == TimerStatus::Completed) ==> {
                &&& final(self).timer == old(self).timer
                &&& final(self).phase_started_at == old(self).phase_started_at
                &&& final(self).focus_seconds == old(self).focus_seconds
                &&& start_hook is None
            },
    {
        self.paused_by_idle = false;
        match self.timer.status {
            TimerStatus::Paused => {
                self.timer.status = TimerStatus::Running;
                None
            },
            TimerStatus::Idle => self.toggle(),
            _ => None,
        }
    }

    /// Reset the current phase back to its full duration. The phase is no
    /// longer being timed, so nothing will be recorded for it.
    pub fn reset(&mut self)
        ensures
            final(self).last_error == old(self).last_error,
            final(self).timer == old(self).timer.reset_state(),
            !final(self).paused_by_idle,
            final(self).phase_started_at is None,
            final(self).config == old(self).config,
            final(self).first_session_today == old(self).first_session_today,
            final(self).focus_seconds == old(self).focus_seconds,
    {
        self.timer.reset();
        self.paused_by_idle = false;
        self.phase_started_at = None;
    }

    /// Stop timing the current phase and hand back its session record, if
    /// it was being timed. The front-end appends the record to the history;
    /// `completed` says whether the phase ran out rather than being left.
    pub fn take_session(&mut self, completed: bool) -> (s: Option<Session>)
        ensures
            final(self).phase_started_at is None,
            final(self).same_but_timing(*old(self)),
            final(self).focus_seconds == old(self).focus_seconds,
            s is Some <==> old(self).phase_started_at is Some,
            s is Some ==> session_ok(s->0, *old(self), old(self).phase_started_at->0, completed),
    {
        match self.phase_started_at.take() {
            Some(started) => {
                let session = Session::new(
                    started,
                    self.phase_duration(self.timer.phase),
                    phase_name(self.timer.phase),
                    completed,
                    self.config.tags.clone(),
                    self.focus_seconds,
                );
                proof {
                    assert(views(session.tags@) =~= views(self.config.tags@));
                }
                Some(session)
            },
            None => None,
        }
    }

    /// Abandon the current phase for another one, once its session (from
    /// `take_session(false)`) has been recorded. The phase ends here even
    /// though it was not completed, so its end hook still gets its turn.
    pub fn skip(&mut self) -> (hooks: Skipped)
        ensures
            final(self).last_error == old(self).last_error,
            hook_ok(hooks.end_hook, *old(self), false, false),
            final(self).timer == old(self).timer.next_phase(false),
            final(self).config == old(self).config,
            final(self).first_session_today == old(self).first_session_today,
            !final(self).paused_by_idle,
            final(self).timer.status == TimerStatus::Running ==> {
                &&& final(self).phase_started_at is Some
                &&& final(self).focus_seconds == 0
                &&& hook_ok(hooks.start_hook, *final(self), true, false)
            },
            final(self).timer.status != TimerStatus::Running ==> {
                &&& final(self).phase_started_at is None
                &&& final(self).focus_seconds == old(self).focus_seconds
                &&& hooks.start_hook is None
            },
    {
        let end_hook = self.phase_hook(false, false);
        // Any deliberate control clears the away notice.
        self.paused_by_idle = false;
        self.timer.skip();
        self.phase_started_at = None;
        let start_hook = if self.timer.status == TimerStatus::Running {
            self.start_timing();
            self.phase_hook(true, false)
        } else {
            None
        };
        Skipped { end_hook, start_hook }
    }

    /// Add or remove one minute from the current phase.
    pub fn adjust(&mut self, minutes: i64)
        requires
            minutes > 0 ==> old(self).timer.remaining.secs + 60 <= u64::MAX && old(
                self,
            ).timer.total_duration.secs + 60 <= u64::MAX,
        ensures
            final(self).last_error == old(self).last_error,
            final(self).timer.remaining.secs == old(self).timer.adjusted_remaining(minutes),
            final(self).timer.total_duration.secs >= final(self).timer.remaining.secs,
            final(self).timer.same_but_durations(old(self).timer),
            final(self).config == old(self).config,
            final(self).first_session_today == old(self).first_session_today,
            !final(self).paused_by_idle,
            final(self).phase_started_at == old(self).phase_started_at,
            final(self).focus_seconds == old(self).focus_seconds,
    {
        // Any deliberate control clears the away notice.
        self.paused_by_idle = false;
        self.timer.adjust(minutes);
    }

    /// Advance one second. Returns `true` when the phase ran out; the
    /// front-end then records `take_session(true)` and calls `finish_phase`.
    pub fn tick(&mut self) -> (done: bool)
        ensures
            final(self).last_error == old(self).last_error,
            done == old(self).timer.tick_completes(),
            final(self).timer == old(self).timer.ticked(),
            final(self).focus_seconds == focus_after_tick(*old(self)),
            final(self).config == old(self).config,
            final(self).first_session_today == old(self).first_session_today,
            final(self).paused_by_idle == old(self).paused_by_idle,
            final(self).phase_started_at == old(self).phase_started_at,
    {
        if self.timer.status == TimerStatus::Running && self.focus_seconds < u64::MAX {
            self.focus_seconds = self.focus_seconds + 1;
        }
        self.timer.tick()
    }

    /// Everything that must happen when a phase runs out, once its session
    /// has been recorded: the notification, the bell, the end hook, the move
    /// to the next phase and, if that one runs by itself, its start hook.
    pub fn finish_phase(&mut self) -> (end: PhaseEnd)
        requires
            old(self).timer.can_credit(),
        ensures
            final(self).last_error == old(self).last_error,
            final(self).first_session_today == (old(self).first_session_today && old(self).timer.phase
                != TimerPhase::Work),
            old(self).config.notifications ==> end.notification is Some && notification_ok(
                end.notification->0,
                old(self).timer.phase,
                old(self).timer.pomodoros_completed,
                old(self).config.sound,
            ),
            !old(self).config.notifications ==> end.notification is None,
            end.bell == old(self).config.sound,
            hook_ok(end.end_hook, *old(self), false, true),
            final(self).timer == old(self).timer.next_phase(true),
            final(self).config == old(self).config,
            final(self).paused_by_idle == old(self).paused_by_idle,
            final(self).timer.status == TimerStatus::Running ==> {
                &&& final(self).phase_started_at is Some
                &&& final(self).focus_seconds == 0
                &&& hook_ok(end.start_hook, *final(self), true, false)
            },
            final(self).timer.status != TimerStatus::Running ==> {
                &&& final(self).phase_started_at is None
                &&& final(self).focus_seconds == old(self).focus_seconds
                &&& end.start_hook is None
            },
    {
        if self.timer.phase == TimerPhase::Work {
            self.first_session_today = false;
        }
        let notification = if self.config.notifications {
            Some(self.notification())
        } else {
            None
        };
        let bell = self.config.sound;
        // The end hook fires while `timer.phase` still names the phase that
        // just finished.
        let end_hook = self.phase_hook(false, true);
        self.timer.advance_to_next_phase();
        self.phase_started_at = None;
        let start_hook = if self.timer.status == TimerStatus::Running {
            self.start_timing();
            self.phase_hook(true, false)
        } else {
            None
        };
        PhaseEnd { notification, bell, end_hook, start_hook }
    }

    /// The notification for the phase that just ended.
    fn notification(&self) -> (n: Notification)
        ensures
            notification_ok(n, self.timer.phase, self.timer.pomodoros_completed, self.config.sound),
    {
        let (summary, body) = match self.timer.phase {
            TimerPhase::Work => {
                let mut body: Vec<char> = Vec::new();
                push_str(&mut body, "Great focus session! #");
                crate::text::decimal_into(&mut body, self.timer.pomodoros_completed as u64);
                push_str(&mut body, " done. Time for a break.");
                (String::from_str("🍅 Pomodoro Complete!"), string_of(&body))
            },
            TimerPhase::ShortBreak => (
                String::from_str("☕ Break Over!"),
                String::from_str("Short break is done. Ready to focus again?"),
            ),
            TimerPhase::LongBreak => (
                String::from_str("🌴 Long Break Over!"),
                String::from_str("Feeling refreshed? Let's get back to work!"),
            ),
        };
        Notification { summary, body, sound: self.config.sound }
    }

    /// Leave the current phase for good (the program is closing): its
    /// session, if it was being timed, and its end hook. The phase still
    /// happened, so it is recorded and its end hook still runs.
    pub fn abandon_phase(&mut self) -> (r: (Option<Session>, Option<HookRun>))
        ensures
            final(self).phase_started_at is None,
            final(self).same_but_timing(*old(self)),
            r.0 is Some <==> old(self).phase_started_at is Some,
            r.0 is Some ==> session_ok(r.0->0, *old(self), old(self).phase_started_at->0, false),
            old(self).phase_started_at is Some ==> hook_ok(r.1, *old(self), false, false),
            old(self).phase_started_at is None ==> r.1 is None,
    {
        let session = self.take_session(false);
        let hook = if session.is_some() {
            self.phase_hook(false, false)
        } else {
            None
        };
        (session, hook)
    }

    // ── Reporting ────────────────────────────────────────────────────────

    /// Snapshot the current state for display or IPC.
    pub fn status(&self) -> (s: Status)
        ensures
            s.phase@ == phase_name_spec(self.timer.phase),
            s.status@ == status_name_spec(self.timer.status),
            s.remaining_seconds == self.timer.remaining.secs,
            s.total_seconds == self.timer.total_duration.secs,
            s.percent == self.timer.percent_spec(),
            s.pomodoros == self.timer.pomodoros_completed,
            s.time@ == Timer::display_of(self.timer.remaining.secs as nat),
            s.idle_paused == self.paused_by_idle,
            text_view(s.error) == text_view(self.last_error),
    {
        let error = match &self.last_error {
            Some(e) => Some(e.clone()),
            None => None,
        };
        Status {
            phase: String::from_str(phase_name(self.timer.phase)),
            status: String::from_str(status_name(self.timer.status)),
            remaining_seconds: self.timer.remaining.as_secs(),
            total_seconds: self.timer.total_duration.as_secs(),
            percent: self.timer.percent(),
            pomodoros: self.timer.pomodoros_completed,
            time: self.timer.remaining_display(),
            idle_paused: self.paused_by_idle,
            error,
        }
    }

    /// Apply an inactivity signal from the compositor.
    ///
    /// Returning is deliberately not the same as resuming: the timer stays
    /// paused until the user says otherwise, so time spent away is never
    /// counted as focus.
    pub fn handle_idle(&mut self, event: IdleEvent)
        ensures
            *final(self) == after_idle(*old(self), event),
            final(self).last_error == old(self).last_error,
            event == IdleEvent::Resumed ==> *final(self) == *old(self),
            event == IdleEvent::Idled && old(self).timer.status == TimerStatus::Running ==> {
                &&& final(self).timer == (Timer { status: TimerStatus::Paused, ..old(self).timer })
                &&& final(self).paused_by_idle
                &&& final(self).config == old(self).config
                &&& final(self).first_session_today == old(self).first_session_today
                &&& final(self).phase_started_at == old(self).phase_started_at
                &&& final(self).focus_seconds == old(self).focus_seconds
            },
            event == IdleEvent::Idled && old(self).timer.status != TimerStatus::Running
                ==> *final(self) == *old(self),
    {
        if event == IdleEvent::Idled {
            self.pause_for_idle();
        }
    }
}

} // verus!

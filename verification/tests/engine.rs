use pomodomate::engine::AmbientAction;
use pomodomate::config::Config;
use pomodomate::engine::{phase_name, Engine};
use pomodomate::hooks::Hooks;
use pomodomate::idle::IdleEvent;
use pomodomate::storage::Session;
use pomodomate::timer::{Duration, TimerPhase, TimerStatus};

/// An engine and the history it has asked to record.
struct Run {
    e: Engine,
    history: Vec<Session>,
}

fn engine() -> Run {
    // Keep tests quiet and side-effect free.
    let mut config = Config::default();
    config.notifications = false;
    config.sound = false;
    Run { e: Engine::new(config, true), history: Vec::new() }
}

impl Run {
    fn tick(&mut self) -> bool {
        if !self.e.tick() {
            return false;
        }
        if let Some(s) = self.e.take_session(true) {
            self.history.push(s);
        }
        self.e.finish_phase();
        true
    }

    fn skip(&mut self) {
        if let Some(s) = self.e.take_session(false) {
            self.history.push(s);
        }
        self.e.skip();
    }
}

/// Drive the current phase to its final second and tick it over.
fn complete_phase(r: &mut Run) {
    r.e.timer.status = TimerStatus::Running;
    r.e.timer.remaining = Duration::from_secs(1);
    assert!(r.tick(), "phase should have completed");
}

#[test]
fn toggle_starts_an_idle_timer() {
    let mut r = engine();
    assert_eq!(r.e.timer.status, TimerStatus::Idle);
    r.e.toggle();
    assert_eq!(r.e.timer.status, TimerStatus::Running);
}

#[test]
fn completing_work_records_a_session() {
    let mut r = engine();
    r.e.toggle();
    complete_phase(&mut r);

    let sessions = &r.history;
    assert_eq!(sessions.len(), 1);
    assert_eq!(sessions[0].phase, "work");
    assert!(sessions[0].completed);
}

#[test]
fn skipping_records_an_incomplete_session() {
    let mut r = engine();
    r.e.toggle();
    r.skip();

    let sessions = &r.history;
    assert_eq!(sessions.len(), 1);
    assert!(
        !sessions[0].completed,
        "a skipped phase is not a completed one"
    );
}

#[test]
fn sessions_carry_the_configured_tags() {
    let mut r = engine();
    r.e.config.tags = vec!["tesis".to_string()];
    r.e.toggle();
    complete_phase(&mut r);

    assert_eq!(r.history[0].tags, vec!["tesis".to_string()]);
}

#[test]
fn resetting_discards_the_pending_session() {
    let mut r = engine();
    r.e.toggle();
    r.e.reset();
    r.skip();

    assert!(
        r.history.is_empty(),
        "a reset phase was never timed, so nothing should be recorded"
    );
}

#[test]
fn going_idle_pauses_a_running_timer() {
    let mut r = engine();
    r.e.toggle();
    r.e.handle_idle(IdleEvent::Idled);

    assert_eq!(r.e.status().status, "paused");
    assert!(r.e.paused_by_idle, "the pause reason should be remembered");
    assert!(r.e.status().idle_paused);
}

#[test]
fn coming_back_does_not_resume_by_itself() {
    let mut r = engine();
    r.e.toggle();
    r.e.handle_idle(IdleEvent::Idled);
    r.e.handle_idle(IdleEvent::Resumed);

    assert_eq!(
        r.e.status().status,
        "paused",
        "time away must not be counted as focus"
    );
    assert!(
        r.e.paused_by_idle,
        "the notice stays until the user acts on it"
    );
}

#[test]
fn resuming_by_hand_clears_the_idle_notice() {
    let mut r = engine();
    r.e.toggle();
    r.e.handle_idle(IdleEvent::Idled);
    r.e.resume();

    assert_eq!(r.e.status().status, "running");
    assert!(!r.e.paused_by_idle);
    assert!(!r.e.status().idle_paused);
}

#[test]
fn idle_does_not_disturb_a_timer_that_was_never_started() {
    let mut r = engine();
    r.e.handle_idle(IdleEvent::Idled);

    assert_eq!(r.e.status().status, "idle");
    assert!(
        !r.e.paused_by_idle,
        "nothing was running, so nothing was paused"
    );
}

#[test]
fn a_manual_pause_is_not_reported_as_an_idle_pause() {
    let mut r = engine();
    r.e.toggle();
    r.e.pause();

    assert_eq!(r.e.status().status, "paused");
    assert!(!r.e.status().idle_paused);
}

#[test]
fn status_reports_progress_and_phase() {
    let mut r = engine();
    let s = r.e.status();
    assert_eq!(s.phase, "work");
    assert_eq!(s.status, "idle");
    assert_eq!(s.percent, 0);
    assert_eq!(s.time, "25:00");

    r.e.toggle();
    r.e.timer.remaining = Duration::from_secs(5 * 60);
    let s = r.e.status();
    assert_eq!(s.status, "running");
    assert_eq!(s.percent, 80);
    assert_eq!(s.time, "05:00");
}

#[test]
fn status_template_expands_known_placeholders() {
    let r = engine();
    let s = r.e.status();
    assert_eq!(s.render("{icon} {time}"), "🍅 25:00");
    assert_eq!(s.render("{phase}:{percent}%"), "work:0%");
    assert_eq!(s.render("{pomodoros}"), "0");
}

#[test]
fn status_template_leaves_unknown_placeholders_alone() {
    let r = engine();
    assert_eq!(r.e.status().render("{nope}"), "{nope}");
}

#[test]
fn paused_status_uses_the_pause_icon() {
    let mut r = engine();
    r.e.toggle();
    r.e.toggle();
    assert_eq!(r.e.status().status, "paused");
    assert_eq!(r.e.status().icon(), "⏸");
}

#[test]
fn status_template_expands_every_placeholder() {
    let mut r = engine();
    r.e.toggle();
    r.e.timer.remaining = Duration::from_secs(1497);
    let s = r.e.status();
    assert_eq!(
        s.render("{icon}|{time}|{percent}|{phase}|{status}|{pomodoros}|{remaining}|{total}"),
        "🍅|24:57|0|work|running|0|1497|1500"
    );
    assert_eq!(s.render("{time}{time}"), "24:5724:57");
}

#[test]
fn icons_follow_the_phase() {
    let mut r = engine();
    r.skip();
    assert_eq!(r.e.status().icon(), "☕");
    assert_eq!(phase_name(TimerPhase::LongBreak), "long_break");
}

#[test]
fn hooks_fire_with_their_context() {
    let mut r = engine();
    r.e.config.tags = vec!["tesis".to_string(), "rust".to_string()];
    r.e.config.hooks = Hooks {
        work_start: Some("  dnd on  ".to_string()),
        work_end: Some("dnd off".to_string()),
        break_start: Some("   ".to_string()),
        break_end: None,
    };
    let start = r.e.toggle().expect("work start hook");
    assert_eq!(start.line, "dnd on");
    assert_eq!(start.context.phase, "work");
    assert_eq!(start.context.tags, "tesis,rust");
    assert!(!start.context.completed);

    r.e.timer.remaining = Duration::from_secs(1);
    assert!(r.e.tick());
    r.e.take_session(true).expect("the phase was timed");
    let end = r.e.finish_phase();
    let end_hook = end.end_hook.expect("work end hook");
    assert_eq!(end_hook.line, "dnd off");
    assert!(end_hook.context.completed);
    assert_eq!(end_hook.context.pomodoros, 0, "the end hook sees the count before the credit");
    assert_eq!(end_hook.context.duration_minutes, 25);
    assert!(end.start_hook.is_none(), "a blank break hook does not run");
    assert_eq!(r.e.timer.phase, TimerPhase::ShortBreak);
}

#[test]
fn finishing_work_notifies_and_rings_when_asked() {
    let mut r = engine();
    r.e.config.notifications = true;
    r.e.config.sound = true;
    r.e.toggle();
    r.e.timer.remaining = Duration::from_secs(1);
    assert!(r.e.tick());
    r.e.take_session(true);
    let end = r.e.finish_phase();
    let n = end.notification.expect("notification");
    assert_eq!(n.summary, "🍅 Pomodoro Complete!");
    assert_eq!(n.body, "Great focus session! #0 done. Time for a break.");
    assert!(n.sound);
    assert!(end.bell);
    assert!(!r.e.first_session_today);
}

#[test]
fn abandoning_records_the_phase_in_progress() {
    let mut r = engine();
    r.e.toggle();
    r.e.timer.remaining = Duration::from_secs(100);
    r.e.tick();
    r.e.tick();
    let (session, _) = r.e.abandon_phase();
    let session = session.expect("the phase was being timed");
    assert!(!session.completed);
    assert_eq!(session.focus_seconds, 2);
    assert_eq!(session.duration_minutes, 25);
    let (again, hook) = r.e.abandon_phase();
    assert!(again.is_none() && hook.is_none(), "nothing is recorded twice");
}

#[test]
fn pause_and_resume_are_idempotent() {
    let mut r = engine();
    r.e.pause();
    assert_eq!(r.e.status().status, "idle");
    r.e.resume();
    r.e.pause();
    r.e.pause();
    assert_eq!(r.e.status().status, "paused");
    r.e.resume();
    r.e.resume();
    assert_eq!(r.e.status().status, "running");
}

#[test]
fn reset_returns_to_a_full_idle_phase() {
    let mut r = engine();
    r.e.resume();
    r.e.reset();
    let status = r.e.status();
    assert_eq!(status.status, "idle");
    assert_eq!(status.time, "25:00");
}

#[test]
fn skip_moves_to_the_next_phase() {
    let mut r = engine();
    r.e.resume();
    r.skip();
    assert_eq!(r.e.status().phase, "short_break");
}

#[test]
fn ambient_plays_only_during_running_work() {
    let mut r = engine();
    r.e.config.ambient_sound = "rain".to_string();
    assert_eq!(r.e.ambient_action(false), AmbientAction::Keep);
    r.e.toggle();
    assert_eq!(r.e.ambient_action(false), AmbientAction::Start);
    assert_eq!(r.e.ambient_action(true), AmbientAction::Keep);
    r.e.pause();
    assert_eq!(r.e.ambient_action(true), AmbientAction::Stop);
}

#[test]
fn pausing_twice_is_pausing_once() {
    let mut r = engine();
    r.e.toggle();
    r.e.pause();
    let status = r.e.timer.status;
    let remaining = r.e.timer.remaining;
    r.e.pause();
    assert_eq!(r.e.timer.status, status);
    assert_eq!(r.e.timer.status, TimerStatus::Paused);
    assert_eq!(r.e.timer.remaining, remaining);
    assert!(!r.e.paused_by_idle);
}

#[test]
fn resuming_twice_is_resuming_once() {
    let mut r = engine();
    r.e.config.hooks.work_start = Some("true".to_string());
    let first = r.e.resume();
    assert!(first.is_some());
    assert_eq!(r.e.timer.status, TimerStatus::Running);
    let started = r.e.phase_started_at;
    let second = r.e.resume();
    assert!(second.is_none());
    assert_eq!(r.e.timer.status, TimerStatus::Running);
    assert_eq!(r.e.phase_started_at, started);
}

#[test]
fn the_last_error_is_reported_with_the_status() {
    let mut r = engine();
    assert_eq!(r.e.status().error, None);
    r.e.last_error = Some("disk full".to_string());
    assert_eq!(r.e.status().error, Some("disk full".to_string()));
}

#[test]
fn skipping_or_adjusting_clears_the_idle_notice() {
    let mut r = engine();
    r.e.toggle();
    r.e.handle_idle(IdleEvent::Idled);
    assert!(r.e.paused_by_idle);
    r.e.adjust(1);
    assert!(!r.e.paused_by_idle);
    assert_eq!(r.e.timer.status, TimerStatus::Paused);

    r.e.handle_idle(IdleEvent::Idled);
    r.e.resume();
    r.e.handle_idle(IdleEvent::Idled);
    assert!(r.e.paused_by_idle);
    r.skip();
    assert!(!r.e.paused_by_idle);
}

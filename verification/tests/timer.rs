use pomodomate::config::Config;
use pomodomate::timer::{Duration, Timer, TimerPhase, TimerStatus};

fn timer() -> Timer {
    Timer::new(&Config::default())
}

/// Run the current phase down to zero as if the full duration elapsed.
fn complete_phase(t: &mut Timer) {
    t.status = TimerStatus::Running;
    t.remaining = Duration::from_secs(1);
    assert!(t.tick(), "phase should complete");
}

#[test]
fn starts_idle_with_full_work_duration() {
    let t = timer();
    assert_eq!(t.phase, TimerPhase::Work);
    assert_eq!(t.status, TimerStatus::Idle);
    assert_eq!(t.remaining, Duration::from_secs(25 * 60));
    assert_eq!(t.pomodoros_completed, 0);
}

#[test]
fn tick_only_counts_down_while_running() {
    let mut t = timer();
    assert!(!t.tick());
    assert_eq!(
        t.remaining,
        Duration::from_secs(25 * 60),
        "idle timer must not advance"
    );

    t.toggle_pause(); // Idle -> Running
    assert!(!t.tick());
    assert_eq!(t.remaining, Duration::from_secs(25 * 60 - 1));

    t.toggle_pause(); // Running -> Paused
    assert!(!t.tick());
    assert_eq!(
        t.remaining,
        Duration::from_secs(25 * 60 - 1),
        "paused timer must not advance"
    );
}

#[test]
fn completing_work_counts_pomodoro_and_starts_short_break() {
    let mut t = timer();
    complete_phase(&mut t);
    assert_eq!(t.status, TimerStatus::Completed);

    t.advance_to_next_phase();
    assert_eq!(t.pomodoros_completed, 1);
    assert_eq!(t.phase, TimerPhase::ShortBreak);
    assert_eq!(t.remaining, Duration::from_secs(5 * 60));
    // auto_start_breaks defaults to true
    assert_eq!(t.status, TimerStatus::Running);
}

#[test]
fn long_break_after_completing_interval_works() {
    let mut t = timer();
    for i in 1..=4 {
        assert_eq!(t.phase, TimerPhase::Work);
        complete_phase(&mut t);
        t.advance_to_next_phase();
        assert_eq!(t.pomodoros_completed, i);
        if i < 4 {
            assert_eq!(t.phase, TimerPhase::ShortBreak);
            complete_phase(&mut t);
            t.advance_to_next_phase();
        }
    }
    assert_eq!(t.phase, TimerPhase::LongBreak);
    assert_eq!(t.remaining, Duration::from_secs(15 * 60));
    assert_eq!(
        t.cycle_position, 0,
        "cycle resets after long break is scheduled"
    );
}

#[test]
fn skipping_work_does_not_count_pomodoro() {
    let mut t = timer();
    t.skip();
    assert_eq!(t.phase, TimerPhase::ShortBreak);
    assert_eq!(
        t.pomodoros_completed, 0,
        "a skipped work session is not a completed pomodoro"
    );
}

#[test]
fn skipping_work_does_not_advance_cycle_toward_long_break() {
    let mut t = timer();
    for _ in 0..4 {
        t.skip(); // skip work
        t.skip(); // skip break
    }
    // Four skipped "cycles" later we must still be headed to a short break
    t.skip();
    assert_eq!(
        t.phase,
        TimerPhase::ShortBreak,
        "skips must not earn a long break"
    );
    assert_eq!(t.pomodoros_completed, 0);
}

#[test]
fn break_returns_to_work_idle_by_default() {
    let mut t = timer();
    complete_phase(&mut t);
    t.advance_to_next_phase(); // -> ShortBreak
    complete_phase(&mut t);
    t.advance_to_next_phase(); // -> Work
    assert_eq!(t.phase, TimerPhase::Work);
    // auto_start_pomodoros defaults to false
    assert_eq!(t.status, TimerStatus::Idle);
}

#[test]
fn reset_restores_full_duration_and_idle() {
    let mut t = timer();
    t.toggle_pause();
    t.tick();
    t.reset();
    assert_eq!(t.remaining, Duration::from_secs(25 * 60));
    assert_eq!(t.status, TimerStatus::Idle);
}

#[test]
fn progress_goes_from_zero_to_one() {
    // Progress is reported as a whole percentage: 0 at the start, 50 half
    // way through, 100 when the clock has run out.
    let mut t = timer();
    assert_eq!(t.percent(), 0);
    t.status = TimerStatus::Running;
    t.remaining = Duration::from_secs(25 * 60 / 2);
    assert_eq!(t.percent(), 50);
    t.remaining = Duration::from_secs(0);
    assert_eq!(t.percent(), 100);
}

#[test]
fn adjust_adds_a_minute_to_remaining_and_total() {
    let mut t = timer();
    t.adjust(1);
    assert_eq!(t.remaining, Duration::from_secs(26 * 60));
    assert_eq!(t.total_duration, Duration::from_secs(26 * 60));
}

#[test]
fn adjust_subtracts_but_never_below_one_minute() {
    let mut t = timer();
    t.adjust(-1);
    assert_eq!(t.remaining, Duration::from_secs(24 * 60));

    t.remaining = Duration::from_secs(90);
    t.adjust(-1);
    assert_eq!(t.remaining, Duration::from_secs(60), "floor is one minute");

    t.adjust(-1);
    assert_eq!(t.remaining, Duration::from_secs(60), "already at the floor");
}

#[test]
fn adjust_keeps_progress_in_bounds() {
    let mut t = timer();
    // Shrink remaining well below total, then grow it past total
    t.remaining = Duration::from_secs(120);
    t.adjust(1);
    t.adjust(1);
    assert!(
        t.total_duration >= t.remaining,
        "total must cover remaining"
    );
    assert!((0..=100).contains(&t.percent()));
}

#[test]
fn last_minute_only_while_running() {
    let mut t = timer();
    t.remaining = Duration::from_secs(59);
    assert!(
        !t.is_last_minute(),
        "idle timer is not in last-minute state"
    );
    t.status = TimerStatus::Running;
    assert!(t.is_last_minute());
    t.remaining = Duration::from_secs(61);
    assert!(!t.is_last_minute());
}

#[test]
fn remaining_display_pads_minutes_and_seconds() {
    let mut t = timer();
    assert_eq!(t.remaining_display(), "25:00");
    t.remaining = Duration::from_secs(65);
    assert_eq!(t.remaining_display(), "01:05");
    t.remaining = Duration::from_secs(0);
    assert_eq!(t.remaining_display(), "00:00");
    t.remaining = Duration::from_secs(100 * 60 + 9);
    assert_eq!(t.remaining_display(), "100:09");
}

#[test]
fn toggling_a_completed_phase_moves_on_and_credits_it() {
    let mut t = timer();
    complete_phase(&mut t);
    t.toggle_pause();
    assert_eq!(t.phase, TimerPhase::ShortBreak);
    assert_eq!(t.pomodoros_completed, 1);
}

#[test]
fn cycle_position_tracks_completed_pomodoros_modulo_interval() {
    let mut t = timer();
    for n in 1..=9u32 {
        complete_phase(&mut t);
        t.advance_to_next_phase();
        assert_eq!(t.cycle_position, n % 4);
        assert_eq!(t.phase == TimerPhase::LongBreak, n % 4 == 0);
        t.skip(); // back to work
    }
}

#[test]
fn percent_rounds_half_up_and_handles_empty_phases() {
    let mut t = timer();
    t.total_duration = Duration::from_secs(8);
    t.remaining = Duration::from_secs(7); // 12.5% elapsed
    assert_eq!(t.percent(), 13);
    t.total_duration = Duration::from_secs(0);
    assert_eq!(t.percent(), 100);
    t.total_duration = Duration::from_secs(10);
    t.remaining = Duration::from_secs(20);
    assert_eq!(t.percent(), 0);
}

#[test]
fn phase_labels_and_breaks() {
    assert_eq!(TimerPhase::Work.label(), "🍅 Focus");
    assert_eq!(TimerPhase::ShortBreak.label(), "☕ Short Break");
    assert_eq!(TimerPhase::LongBreak.label(), "🌴 Long Break");
    assert!(!TimerPhase::Work.is_break());
    assert!(TimerPhase::ShortBreak.is_break());
    assert!(TimerPhase::LongBreak.is_break());
}

#[test]
fn animation_tick_wraps_around() {
    let mut t = timer();
    t.tick = u64::MAX;
    t.animation_tick();
    assert_eq!(t.tick, 0);
    t.animation_tick();
    assert_eq!(t.tick, 1);
}

#[test]
fn the_cycle_follows_the_count_over_a_long_run() {
    let config = Config::default();
    let mut t = Timer::new(&config);
    for round in 0..30u32 {
        match round % 3 {
            0 => t.skip(),
            _ => t.advance_to_next_phase(),
        }
        t.tick();
        t.adjust(1);
        t.toggle_pause();
        assert_eq!(t.cycle_position, t.pomodoros_completed % config.long_break_interval);
        assert!(t.cycle_position < config.long_break_interval);
    }
}

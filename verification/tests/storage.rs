use chrono::{Offset, TimeZone, Utc};
use chrono::Datelike;

use pomodomate::clock::{local_day, now, Timestamp};
use pomodomate::storage::{
    calculate_streak, current_streak, daily_counts, legacy_to_migrate, no_pomodoros_yet, parse_tags,
    stats_from_daily, stats_tagged, tag_totals, Session,
};

fn session(phase: &str, completed: bool) -> Session {
    Session::new(now(), 25, phase, completed, Vec::new(), 25 * 60)
}

fn tagged_session(phase: &str, completed: bool, tags: &[&str]) -> Session {
    let tags = tags.iter().map(|t| t.to_string()).collect();
    Session::new(now(), 25, phase, completed, tags, 25 * 60)
}

fn work_session_days_ago(days: i64) -> Session {
    let t = now();
    Session::new(
        Timestamp { secs: t.secs - days * 86400, nanos: t.nanos },
        25,
        "work",
        true,
        Vec::new(),
        25 * 60,
    )
}

fn local_today() -> i32 {
    chrono::Local::now().date_naive().num_days_from_ce()
}

#[test]
fn local_date_follows_the_system_timezone_not_utc() {

    // 02:30 UTC: still the previous day anywhere west of UTC-3.
    let instant = Utc.with_ymd_and_hms(2026, 7, 19, 2, 30, 0).unwrap();
    let offset = chrono::Local
        .offset_from_utc_datetime(&instant.naive_utc())
        .fix()
        .local_minus_utc();

    let expected = (instant + chrono::Duration::seconds(offset as i64))
        .date_naive()
        .num_days_from_ce();
    let t = Timestamp { secs: instant.timestamp(), nanos: 0 };
    assert_eq!(local_day(t), Some(expected));

    if offset <= -3 * 3600 {
        assert_ne!(
            local_day(t),
            Some(instant.date_naive().num_days_from_ce()),
            "west of UTC-3, 02:30 UTC belongs to the previous local day"
        );
    }
}

#[test]
fn a_session_recorded_now_counts_towards_today() {
    let sessions = vec![session("work", true)];

    let counts = daily_counts(&sessions, 7);
    let (last_day, count) = counts.last().copied().unwrap();

    assert_eq!(
        last_day,
        local_today(),
        "the newest bucket must be the user's local today"
    );
    assert_eq!(count, 1, "a pomodoro finished now belongs to today");
}

#[test]
fn daily_counts_walks_back_over_calendar_days() {
    let counts = daily_counts(&Vec::new(), 5);

    assert_eq!(counts.len(), 5);
    for pair in counts.windows(2) {
        assert_eq!(
            pair[1].0 - pair[0].0,
            1,
            "days must be consecutive: {:?} then {:?}",
            pair[0].0,
            pair[1].0
        );
    }
}

#[test]
fn parse_tags_trims_lowercases_and_deduplicates() {
    let raw = vec!["Tesis, rust".to_string(), " RUST ".to_string()];
    assert_eq!(parse_tags(&raw), vec!["tesis", "rust"]);
}

#[test]
fn parse_tags_drops_empty_entries() {
    let raw = vec![" , ,".to_string(), String::new()];
    assert!(parse_tags(&raw).is_empty());
}

#[test]
fn parse_tags_lowercases_beyond_ascii() {
    let raw = vec!["ÉTÉ,été".to_string()];
    assert_eq!(parse_tags(&raw), vec!["été"]);
}

#[test]
fn has_tag_ignores_case() {
    let s = tagged_session("work", true, &["tesis"]);
    assert!(s.has_tag("TESIS"));
    assert!(!s.has_tag("rust"));
}

#[test]
fn stats_can_be_restricted_to_a_tag() {
    let sessions = vec![
        tagged_session("work", true, &["tesis"]),
        tagged_session("work", true, &["tesis", "rust"]),
        tagged_session("work", true, &["rust"]),
        session("work", true), // untagged
    ];

    assert_eq!(stats_tagged(&sessions, None).today, 4);
    assert_eq!(stats_tagged(&sessions, Some("tesis")).today, 2);
    assert_eq!(stats_tagged(&sessions, Some("rust")).today, 2);
    assert_eq!(stats_tagged(&sessions, Some("ocio")).today, 0);
}

#[test]
fn tag_totals_rank_by_use_and_ignore_uncounted_sessions() {
    let mut sessions = Vec::new();
    for _ in 0..3 {
        sessions.push(tagged_session("work", true, &["rust"]));
    }
    sessions.push(tagged_session("work", true, &["tesis"]));
    // Neither of these should count toward any tag.
    sessions.push(tagged_session("work", false, &["tesis"]));
    sessions.push(tagged_session("short_break", true, &["tesis"]));

    let totals = tag_totals(&sessions);
    assert_eq!(
        totals,
        vec![("rust".to_string(), 3), ("tesis".to_string(), 1)]
    );
}

#[test]
fn tag_totals_break_ties_alphabetically() {
    let sessions = vec![
        tagged_session("work", true, &["zeta"]),
        tagged_session("work", true, &["alpha", "zeta"]),
        tagged_session("work", true, &["beta"]),
        tagged_session("work", true, &["alpha"]),
    ];
    assert_eq!(
        tag_totals(&sessions),
        vec![
            ("alpha".to_string(), 2),
            ("zeta".to_string(), 2),
            ("beta".to_string(), 1)
        ]
    );
}

#[test]
fn tag_totals_are_empty_without_tagged_sessions() {
    let sessions = vec![session("work", true)];
    assert!(tag_totals(&sessions).is_empty());
}

#[test]
fn stats_aggregates_today_week_and_year() {
    let sessions = vec![
        work_session_days_ago(0),
        work_session_days_ago(0),
        work_session_days_ago(3),
        work_session_days_ago(10),
        work_session_days_ago(400), // outside the year window
    ];

    let stats = stats_tagged(&sessions, None);
    assert_eq!(stats.today, 2);
    assert_eq!(stats.week, 3, "last 7 days include today and 3 days ago");
    assert_eq!(stats.year, 4);
    assert_eq!(stats.active_days, 3);
}

#[test]
fn stats_streaks_count_consecutive_days() {
    let mut sessions = Vec::new();
    // Active today, yesterday, and the day before: current streak of 3
    for days in 0..3 {
        sessions.push(work_session_days_ago(days));
    }
    // An older, longer streak of 4 separated by a gap
    for days in 10..14 {
        sessions.push(work_session_days_ago(days));
    }

    let stats = stats_tagged(&sessions, None);
    assert_eq!(stats.current_streak, 3);
    assert_eq!(stats.best_streak, 4);
}

#[test]
fn current_streak_survives_a_day_without_pomodoros_yet() {
    // Nothing today, but active yesterday and the day before:
    // the streak is still alive until today ends.
    let sessions = vec![work_session_days_ago(1), work_session_days_ago(2)];

    let stats = stats_tagged(&sessions, None);
    assert_eq!(stats.current_streak, 2);
}

#[test]
fn daily_counts_only_counts_completed_work() {
    let sessions = vec![
        session("work", true),
        session("work", true),
        session("work", false),       // skipped
        session("short_break", true), // break
    ];

    let counts = daily_counts(&sessions, 1);
    let today = local_today();
    let today_count = counts.iter().find(|(d, _)| *d == today).unwrap().1;
    assert_eq!(today_count, 2);
}

#[test]
fn streak_counts_longest_consecutive_run() {
    let counts: Vec<(i32, u32)> = [1, 0, 2, 1, 3, 0, 1]
        .iter()
        .enumerate()
        .map(|(i, c)| (739_252 + i as i32, *c))
        .collect();
    assert_eq!(calculate_streak(&counts), 3);
}

#[test]
fn streak_is_zero_without_activity() {
    let counts = vec![(739_252, 0), (739_253, 0)];
    assert_eq!(calculate_streak(&counts), 0);
}

#[test]
fn stats_from_daily_counts() {
    let counts: Vec<(i32, u32)> = [2, 0, 1, 1, 0, 0, 3, 1, 0]
        .iter()
        .enumerate()
        .map(|(i, c)| (100 + i as i32, *c))
        .collect();
    let s = stats_from_daily(&counts);
    assert_eq!(s.today, 0);
    assert_eq!(s.week, 6, "the last seven days hold 1 + 1 + 3 + 1");
    assert_eq!(s.year, 8);
    assert_eq!(s.active_days, 5);
    assert_eq!(s.best_streak, 2);
    assert_eq!(s.current_streak, 2);
    assert_eq!(current_streak(&counts), 2);
    assert_eq!(current_streak(&Vec::new()), 0);
}

#[test]
fn migration_replayed_after_a_crash_does_not_duplicate() {
    let legacy = vec![session("work", true), session("work", true)];
    let none: Vec<Session> = Vec::new();
    assert_eq!(legacy_to_migrate(&legacy, &none), vec![0, 1]);

    // After the history was rewritten, replaying adds nothing.
    let history = vec![legacy[0].clone(), legacy[1].clone()];
    assert!(
        legacy_to_migrate(&legacy, &history).is_empty(),
        "replaying an interrupted migration must not duplicate records"
    );
    // A half-done migration only copies what is missing.
    let half = vec![legacy[1].clone()];
    assert_eq!(legacy_to_migrate(&legacy, &half), vec![0]);
}

#[test]
fn tag_filters_ignore_case() {
    let sessions = vec![tagged_session("work", true, &["tesis"])];
    assert_eq!(stats_tagged(&sessions, Some("TESIS")).today, 1);
    assert_eq!(stats_tagged(&sessions, Some("Tesis")).today, 1);
}

#[test]
fn skipped_and_break_sessions_add_nothing() {
    let base = vec![tagged_session("work", true, &["tesis"])];
    let mut more = base.clone();
    more.push(tagged_session("work", false, &["tesis"]));
    more.push(tagged_session("short_break", true, &["tesis"]));
    assert_eq!(stats_tagged(&more, None).today, stats_tagged(&base, None).today);
    assert_eq!(tag_totals(&more), tag_totals(&base));
}

#[test]
fn a_session_counts_for_each_of_its_tags() {
    let sessions = vec![tagged_session("work", true, &["tesis", "rust"])];
    let totals = tag_totals(&sessions);
    assert_eq!(totals, vec![("rust".to_string(), 1), ("tesis".to_string(), 1)]);
}

#[test]
fn tag_search_ignores_case_beyond_ascii() {
    let s = tagged_session("work", true, &["diseño"]);
    assert!(s.has_tag("DISEÑO"));
    assert!(s.has_tag("Diseño"));
    assert!(!s.has_tag("diseno"));
    let sessions = vec![s];
    assert_eq!(stats_tagged(&sessions, Some("DISEÑO")).today, 1);
}

#[test]
fn today_is_new_until_a_pomodoro_is_done() {
    assert!(no_pomodoros_yet(&vec![]));
    assert!(no_pomodoros_yet(&vec![(local_today(), 0)]));
    assert!(!no_pomodoros_yet(&vec![(local_today(), 2)]));
}

#[test]
fn a_session_beyond_the_calendar_is_counted_on_no_day() {
    let far = Session::new(
        Timestamp { secs: i64::MAX, nanos: 0 },
        25,
        "work",
        true,
        Vec::new(),
        25 * 60,
    );
    let sessions = vec![far, session("work", true)];
    let counts = daily_counts(&sessions, 7);
    assert_eq!(counts.iter().map(|(_, c)| *c).sum::<u32>(), 1);
}

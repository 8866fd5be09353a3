use pomodomate::app::{Controls, Key, KeyAction, View};
use pomodomate::config::{Config, ConfigError, RunOptions};
use pomodomate::daemon::{
    action_for, check_socket_path, is_command, parse_command, socket_plan, Action, Command, SocketPlan,
};
use pomodomate::hooks::{runnable_line, HookContext, Hooks};
use pomodomate::idle::IdleEvent;
use pomodomate::sound::{ask_in_order, candidate_paths, first_found, resolve};
use pomodomate::theme::{parse_hex_color, CustomColors, Paint, Rgb, ThemeColors, ThemePreset};
use pomodomate::ui::digits::DigitStyle;

#[test]
fn over_long_socket_paths_are_rejected_with_advice() {
    let long = format!("/tmp/{}/pomodomate.sock", "x".repeat(120));
    let err = check_socket_path(&long).unwrap_err().message();
    assert!(err.contains("too long"), "got: {err}");
    assert!(
        err.contains("POMODOMATE_SOCKET"),
        "the error should tell the user how to fix it, got: {err}"
    );
}

#[test]
fn socket_paths_within_the_limit_are_accepted() {
    assert!(check_socket_path("/run/user/1000/pomodomate.sock").is_ok());
}

#[test]
fn socket_path_length_counts_bytes() {
    let path = format!("/{}", "é".repeat(51)); // 1 + 102 bytes
    assert!(check_socket_path(&path).is_ok());
    let path = format!("/{}", "é".repeat(52)); // 1 + 104 bytes
    let err = check_socket_path(&path).unwrap_err().message();
    assert!(err.starts_with("socket path is too long (105 bytes, limit 103): /é"));
}

#[test]
fn unknown_commands_are_not_commands() {
    assert_eq!(parse_command("status"), Some(Command::Status));
    assert_eq!(parse_command("quit"), Some(Command::Quit));
    assert_eq!(parse_command("explode"), None);
    assert!(is_command("skip"));
    assert!(!is_command("Skip"));
}

#[test]
fn hooks_default_to_none() {
    let hooks = Hooks::default();
    assert!(hooks.work_start.is_none());
    assert!(hooks.work_end.is_none());
    assert!(hooks.break_start.is_none());
    assert!(hooks.break_end.is_none());
}

fn ctx() -> HookContext {
    HookContext {
        phase: "work".to_string(),
        pomodoros: 3,
        duration_minutes: 25,
        tags: "tesis,rust".to_string(),
        completed: true,
    }
}

#[test]
fn command_passes_context_through_the_environment() {
    let envs = ctx().env();
    assert!(envs.contains(&("POMODOMATE_PHASE".into(), "work".into())));
    assert!(envs.contains(&("POMODOMATE_POMODOROS".into(), "3".into())));
    assert!(envs.contains(&("POMODOMATE_DURATION".into(), "25".into())));
    assert!(envs.contains(&("POMODOMATE_TAGS".into(), "tesis,rust".into())));
    assert!(envs.contains(&("POMODOMATE_COMPLETED".into(), "true".into())));
}

#[test]
fn empty_hook_line_does_not_spawn() {
    assert!(runnable_line("").is_none());
    assert!(runnable_line("   ").is_none());
    assert_eq!(runnable_line("  echo hi \n").as_deref(), Some("echo hi"));
}

#[test]
fn idle_events_compare_by_value() {
    assert_eq!(IdleEvent::Idled, IdleEvent::Idled);
    assert_ne!(IdleEvent::Idled, IdleEvent::Resumed);
}

#[test]
fn resolution_without_a_sounds_directory_is_safe() {
    assert!(resolve("rain", None).is_none());
}

#[test]
fn empty_names_resolve_to_nothing() {
    assert!(resolve("", Some("/tmp")).is_none());
    assert!(resolve("   ", Some("/tmp")).is_none());
}

#[test]
fn extension_search_order_is_stable() {
    let paths = candidate_paths(" dual ", Some("/sounds"));
    assert_eq!(
        paths,
        vec![
            "dual",
            "/sounds/dual",
            "/sounds/dual.mp3",
            "/sounds/dual.ogg",
            "/sounds/dual.wav",
            "/sounds/dual.flac"
        ]
    );
    assert_eq!(candidate_paths("rain", None), vec!["rain"]);
}

#[test]
fn config_defaults_match_the_documentation() {
    let c = Config::default();
    assert_eq!(c.work_duration, 25);
    assert_eq!(c.short_break, 5);
    assert_eq!(c.long_break, 15);
    assert_eq!(c.long_break_interval, 4);
    assert!(c.auto_start_breaks && !c.auto_start_pomodoros);
    assert!(c.notifications && !c.sound);
    assert_eq!(c.theme, "default");
    assert_eq!(c.idle_timeout, 5);
    assert!(c.validate().is_ok());
}

#[test]
fn validation_names_the_first_bad_value() {
    let mut c = Config::default();
    c.long_break_interval = 0;
    assert_eq!(c.validate(), Err(ConfigError::LongBreakIntervalZero));
    c.short_break = 0;
    assert_eq!(c.validate(), Err(ConfigError::ShortBreakZero));
    assert_eq!(c.validate().unwrap_err().message(), "short_break must be > 0");
}

#[test]
fn run_options_override_for_one_run() {
    let mut c = Config::default();
    c.tags = vec!["Ocio".to_string()];
    c.apply_run_options(RunOptions {
        work: Some(50),
        short_break: Some(10),
        long_break: None,
        interval: Some(3),
        mute: true,
        no_mascot: true,
        theme: Some("nord".to_string()),
        tags: Vec::new(),
    });
    assert_eq!(c.work_duration, 50);
    assert_eq!(c.short_break, 10);
    assert_eq!(c.long_break, 15);
    assert_eq!(c.long_break_interval, 3);
    assert!(!c.sound && !c.notifications && !c.show_mascot);
    assert_eq!(c.theme, "nord");
    assert_eq!(c.tags, vec!["ocio"]);
    c.apply_run_options(RunOptions {
        work: None,
        short_break: None,
        long_break: None,
        interval: Some(0),
        mute: false,
        no_mascot: false,
        theme: None,
        tags: vec!["Tesis, rust".to_string()],
    });
    assert_eq!(c.tags, vec!["tesis", "rust"]);
    assert_eq!(c.validate(), Err(ConfigError::LongBreakIntervalZero));
}

#[test]
fn keys_drive_the_front_end() {
    let mut c = Controls::new(DigitStyle::Line);
    assert_eq!(c.handle_key(Key::Char(' '), false), KeyAction::Toggle);
    assert_eq!(c.handle_key(Key::Char('h'), false), KeyAction::Nothing);
    assert_eq!(c.current_view, View::Heatmap);
    assert_eq!(c.handle_key(Key::Char('d'), false), KeyAction::Nothing);
    assert_eq!(c.digit_style, DigitStyle::Heavy);
    assert_eq!(c.handle_key(Key::Char('+'), false), KeyAction::Adjust(1));
    assert_eq!(c.handle_key(Key::Char('-'), false), KeyAction::Adjust(-1));
    assert_eq!(c.handle_key(Key::Char('?'), false), KeyAction::Nothing);
    assert!(c.show_help);
    // The overlay swallows the next key.
    assert_eq!(c.handle_key(Key::Char('s'), false), KeyAction::Nothing);
    assert!(!c.show_help);
    assert_eq!(c.handle_key(Key::Char('s'), false), KeyAction::Skip);
}

#[test]
fn quitting_while_running_asks_twice() {
    let mut c = Controls::new(DigitStyle::Line);
    assert_eq!(c.handle_key(Key::Char('q'), true), KeyAction::Nothing);
    assert!(c.quit_pending && !c.should_quit);
    // Any other key cancels the pending quit.
    assert_eq!(c.handle_key(Key::Char('r'), true), KeyAction::Reset);
    assert!(!c.quit_pending);
    assert_eq!(c.handle_key(Key::Esc, true), KeyAction::Nothing);
    assert_eq!(c.handle_key(Key::Char('q'), true), KeyAction::Quit);
    assert!(c.should_quit);
    let mut idle = Controls::new(DigitStyle::Line);
    assert_eq!(idle.handle_key(Key::Char('q'), false), KeyAction::Quit);
}

#[test]
fn hex_colors_parse_with_or_without_hash() {
    assert_eq!(parse_hex_color("#E06C75"), Some(Rgb { r: 0xE0, g: 0x6C, b: 0x75 }));
    assert_eq!(parse_hex_color("98c379"), Some(Rgb { r: 0x98, g: 0xC3, b: 0x79 }));
    assert_eq!(parse_hex_color("+f+f+f"), Some(Rgb { r: 15, g: 15, b: 15 }));
    assert_eq!(parse_hex_color("#12345"), None);
    assert_eq!(parse_hex_color("zz0000"), None);
    assert_eq!(parse_hex_color("ééé"), None);
}

#[test]
fn theme_names_pick_presets() {
    assert_eq!(ThemePreset::from_name("NORD"), ThemePreset::Nord);
    assert_eq!(ThemePreset::from_name("whatever"), ThemePreset::Default);
    let p = ThemePreset::Dracula.palette();
    assert_eq!(p.tomato_red, Rgb { r: 255, g: 85, b: 85 });
    assert_eq!(ThemePreset::Default.palette().dark_base, Rgb { r: 28, g: 40, b: 51 });
}

fn no_custom_colors() -> CustomColors {
    CustomColors {
        tomato_red: None,
        nature_green: None,
        accent_purple: None,
        dark_bg: None,
        dark_base: None,
        border_dim: None,
        border_glow: None,
        muted_text: None,
        progress_bg: None,
        soft_white: None,
        warm_yellow: None,
    }
}

fn rgb_of(p: &Paint) -> Option<Rgb> {
    match p {
        Paint::Rgb(c) => Some(*c),
        Paint::Named(_) => None,
    }
}

fn name_of(p: &Paint) -> Option<String> {
    match p {
        Paint::Rgb(_) => None,
        Paint::Named(n) => Some(n.clone()),
    }
}

#[test]
fn theme_colors_without_overrides_are_the_preset() {
    let t = ThemeColors::get("Nord", &None);
    assert_eq!(rgb_of(&t.tomato_red), Some(Rgb { r: 191, g: 97, b: 106 }));
    assert_eq!(rgb_of(&t.warm_yellow), Some(Rgb { r: 235, g: 203, b: 139 }));
    let d = ThemeColors::get("unknown", &Some(no_custom_colors()));
    assert_eq!(rgb_of(&d.dark_bg), Some(Rgb { r: 20, g: 30, b: 40 }));
}

#[test]
fn custom_colors_override_their_slot_only() {
    let mut custom = no_custom_colors();
    custom.tomato_red = Some("light-red".to_string());
    custom.nature_green = Some("00ff7f".to_string());
    custom.accent_purple = Some("#8e44ad".to_string());
    custom.dark_bg = Some("not a color".to_string());
    custom.dark_base = Some("42".to_string());
    let t = ThemeColors::get("default", &Some(custom));
    // Names, palette indexes and #rrggbb are read by the terminal library.
    assert_eq!(name_of(&t.tomato_red), Some("light-red".to_string()));
    assert_eq!(name_of(&t.accent_purple), Some("#8e44ad".to_string()));
    assert_eq!(name_of(&t.dark_base), Some("42".to_string()));
    // A bare hex code falls back to the hex parser.
    assert_eq!(rgb_of(&t.nature_green), Some(Rgb { r: 0, g: 255, b: 127 }));
    // Anything else keeps the theme's color.
    assert_eq!(rgb_of(&t.dark_bg), Some(Rgb { r: 20, g: 30, b: 40 }));
    assert_eq!(rgb_of(&t.soft_white), Some(Rgb { r: 236, g: 240, b: 241 }));
}

#[test]
fn the_earliest_day_is_the_first_representable_date() {
    let first = pomodomate::clock::earliest_day();
    assert_eq!(first, -95746129);
    assert_eq!(pomodomate::clock::month0(first), Some(0));
    assert_eq!(pomodomate::clock::month0(first - 1), None);
}

#[test]
fn the_first_candidate_that_is_a_file_wins() {
    let paths: Vec<String> = vec!["rain".into(), "/s/rain".into(), "/s/rain.mp3".into()];
    assert_eq!(first_found(&paths, &vec![false, true]), Some("/s/rain".to_string()));
    assert_eq!(first_found(&paths, &vec![true]), Some("rain".to_string()));
    assert_eq!(first_found(&paths, &vec![false, false, true]), Some("/s/rain.mp3".to_string()));
    assert_eq!(first_found(&paths, &vec![false, false, false]), None);
    assert_eq!(first_found(&paths, &vec![]), None);
}

#[test]
fn a_missing_sound_resolves_to_nothing() {
    assert_eq!(resolve("no-such-track-anywhere", None), None);
    assert_eq!(resolve("no-such-track-anywhere", Some("/no/such/dir")), None);
}

#[test]
fn the_search_stops_at_the_first_hit_and_not_before() {
    assert_eq!(ask_in_order(5, |k| k == 2), vec![false, false, true]);
    assert_eq!(ask_in_order(3, |_| false), vec![false, false, false]);
    assert_eq!(ask_in_order(0, |_| true), Vec::<bool>::new());
    assert_eq!(ask_in_order(4, |_| true), vec![true]);
}

#[test]
fn instants_outside_the_local_range_are_refused_before_chrono() {
    let far = pomodomate::clock::Timestamp { secs: i64::MAX, nanos: 0 };
    assert!(!pomodomate::clock::has_local_day(far));
    let edge = pomodomate::clock::Timestamp { secs: pomodomate::clock::LOCAL_DAY_MAX_SECS, nanos: 0 };
    assert!(pomodomate::clock::has_local_day(edge));
    assert!(pomodomate::clock::local_day(edge).is_some());
}

#[test]
fn commands_map_to_actions() {
    assert_eq!(action_for("status"), Action::ReportStatus);
    assert_eq!(action_for("start"), Action::Resume);
    assert_eq!(action_for("resume"), Action::Resume);
    assert_eq!(action_for("quit"), Action::Shutdown);
    assert_eq!(action_for("launch"), Action::Refuse);
}

#[test]
fn only_a_dead_socket_is_replaced() {
    assert_eq!(socket_plan(false, false, false), SocketPlan::Bind);
    assert_eq!(socket_plan(true, false, false), SocketPlan::RefuseNotSocket);
    assert_eq!(socket_plan(true, true, true), SocketPlan::RefuseRunning);
    assert_eq!(socket_plan(true, true, false), SocketPlan::ReplaceStale);
}

#[test]
fn sound_paths_join_like_unix_paths() {
    assert_eq!(
        candidate_paths("rain", Some("/s/")),
        vec!["rain", "/s/rain", "/s/rain.mp3", "/s/rain.ogg", "/s/rain.wav", "/s/rain.flac"]
    );
    assert_eq!(
        candidate_paths("/abs/rain", Some("/s")),
        vec!["/abs/rain", "/abs/rain", "/abs/rain.mp3", "/abs/rain.ogg", "/abs/rain.wav", "/abs/rain.flac"]
    );
    assert_eq!(candidate_paths("rain", Some(""))[1], "rain");
}

use chrono::Datelike;
use pomodomate::config::Config;
use pomodomate::timer::{Duration, Timer, TimerStatus};
use pomodomate::ui::digits::DigitStyle;
use pomodomate::ui::heatmap::{
    build_grid, intensity_color, month_label_row, recent_weeks, summary, weekday_from_monday,
};
use pomodomate::ui::mascot::{modify_pixel, pixel_color, sprite_pixels, MascotState};
use pomodomate::ui::{
    fits_big_digits, footer_notice, layout_mode, use_big_digits, FooterNotice, LayoutMode,
};
use unicode_width::UnicodeWidthStr;

const STYLES: [DigitStyle; 3] = [DigitStyle::Line, DigitStyle::Heavy, DigitStyle::Double];

#[test]
fn every_glyph_is_exactly_three_columns_wide() {
    for style in STYLES {
        for digit in "0123456789".chars() {
            for (row, text) in style.rows(digit).iter().enumerate() {
                assert_eq!(
                    text.width(),
                    3,
                    "{:?} digit {digit} row {row} is not 3 columns: {text:?}",
                    style
                );
            }
        }
    }
}

#[test]
fn unknown_characters_render_as_blanks() {
    for style in STYLES {
        assert_eq!(style.rows('x'), ["   ", "   ", "   "]);
    }
}

#[test]
fn cycling_visits_every_style_and_returns_home() {
    let mut style = DigitStyle::Line;
    let mut seen = vec![style];
    for _ in 0..STYLES.len() - 1 {
        style = style.next();
        seen.push(style);
    }
    assert_eq!(seen.len(), STYLES.len(), "each style should appear once");
    assert_eq!(style.next(), DigitStyle::Line, "cycle should wrap around");
}

#[test]
fn names_round_trip() {
    for style in STYLES {
        assert_eq!(DigitStyle::from_name(style.name()), style);
    }
}

#[test]
fn unknown_names_fall_back_to_the_default() {
    assert_eq!(DigitStyle::from_name("nonsense"), DigitStyle::Line);
    assert_eq!(DigitStyle::from_name(""), DigitStyle::Line);
}

#[test]
fn names_are_case_and_space_insensitive() {
    assert_eq!(DigitStyle::from_name("  HEAVY "), DigitStyle::Heavy);
    assert_eq!(DigitStyle::from_name("Double"), DigitStyle::Double);
}

#[test]
fn aliases_map_to_heavy() {
    assert_eq!(DigitStyle::from_name("bold"), DigitStyle::Heavy);
    assert_eq!(DigitStyle::from_name("thick"), DigitStyle::Heavy);
}

#[test]
fn colons_are_three_columns_too() {
    for style in STYLES {
        assert_eq!(
            style.colon().width(),
            3,
            "{:?} separator is not 3 columns: {:?}",
            style,
            style.colon()
        );
    }
}

#[test]
fn the_column_check_catches_a_wide_glyph() {
    assert_eq!(" 🍅 ".chars().count(), 3);
    assert_eq!(" 🍅 ".width(), 4);
}

#[test]
fn default_digit_style_is_line() {
    assert_eq!(DigitStyle::default(), DigitStyle::Line);
    assert_eq!(DigitStyle::Line.rows('2'), ["╶─╮", "╭─╯", "╰─╴"]);
    assert_eq!(DigitStyle::Double.rows('7'), ["══╗", "  ║", "  ║"]);
}

#[test]
fn tall_terminals_get_the_full_layout_with_mascot() {
    assert_eq!(layout_mode(80, 45, true), LayoutMode::Full);
    assert_eq!(layout_mode(80, 38, true), LayoutMode::Full);
}

#[test]
fn short_terminals_drop_the_mascot() {
    assert_eq!(layout_mode(80, 37, true), LayoutMode::Compact);
    assert_eq!(layout_mode(80, 15, true), LayoutMode::Compact);
}

#[test]
fn tiny_terminals_get_the_one_line_mini_layout() {
    assert_eq!(layout_mode(80, 14, true), LayoutMode::Mini);
    assert_eq!(layout_mode(80, 5, true), LayoutMode::Mini);
}

#[test]
fn layout_without_mascot_never_uses_full_mode() {
    assert_eq!(layout_mode(80, 45, false), LayoutMode::Compact);
    assert_eq!(layout_mode(80, 38, false), LayoutMode::Compact);
    assert_eq!(layout_mode(80, 10, false), LayoutMode::Mini);
}

#[test]
fn narrow_terminals_never_use_big_digits() {
    assert!(fits_big_digits(34));
    assert!(!fits_big_digits(33));
}

#[test]
fn compact_layout_needs_rows_for_big_digits() {
    assert!(use_big_digits(80, 19, LayoutMode::Full));
    assert!(!use_big_digits(80, 19, LayoutMode::Compact));
    assert!(use_big_digits(80, 20, LayoutMode::Compact));
    assert!(!use_big_digits(33, 40, LayoutMode::Full));
}

fn d(y: i32, m: u32, day: u32) -> i32 {
    chrono::NaiveDate::from_ymd_opt(y, m, day).unwrap().num_days_from_ce()
}

#[test]
fn grid_aligns_dates_to_real_weekdays() {
    // 2025-01-01 was a Wednesday; the range Wed Jan 1 .. Tue Jan 7
    // must span two Mon-Sun columns with the right slots empty.
    let days: Vec<_> = (1..=7).map(|i| (d(2025, 1, i), i)).collect();
    let grid = build_grid(&days);

    assert_eq!(grid.len(), 2);
    assert!(grid[0][0].is_none(), "Mon of week 1 predates the range");
    assert!(grid[0][1].is_none(), "Tue of week 1 predates the range");
    assert_eq!(grid[0][2], Some((d(2025, 1, 1), 1)), "Jan 1 lands on Wednesday");
    assert_eq!(grid[0][6], Some((d(2025, 1, 5), 5)), "Jan 5 lands on Sunday");
    assert_eq!(grid[1][0], Some((d(2025, 1, 6), 6)), "Jan 6 starts the next week");
    assert_eq!(grid[1][1], Some((d(2025, 1, 7), 7)));
    assert!(grid[1][2].is_none(), "rest of week 2 is beyond the range");
}

#[test]
fn weekdays_agree_with_chrono() {
    for (y, m, day) in [(1, 1, 1), (2025, 1, 1), (1970, 1, 1), (2024, 2, 29), (-44, 3, 15)] {
        let date = chrono::NaiveDate::from_ymd_opt(y, m, day).unwrap();
        assert_eq!(
            weekday_from_monday(date.num_days_from_ce()),
            date.weekday().num_days_from_monday()
        );
    }
}

#[test]
fn intensity_grows_with_the_count() {
    assert_eq!(intensity_color(0).r, 44);
    assert_eq!(intensity_color(1).g, 145);
    assert_eq!(intensity_color(2).g, 172);
    assert_eq!(intensity_color(4), intensity_color(3));
    assert_eq!(intensity_color(9).g, 210);
}

#[test]
fn mascot_pixels_animate_by_mood() {
    assert_eq!(modify_pixel('E', 5, 7, MascotState::Idle, 0, 0), 'r');
    assert_eq!(modify_pixel('E', 5, 7, MascotState::Working, 0, 4), 'r');
    assert_eq!(modify_pixel('E', 5, 7, MascotState::Working, 0, 3), 'E');
    assert_eq!(modify_pixel(' ', 1, 22, MascotState::ShortBreak, 0, 0), 'z');
    assert_eq!(modify_pixel(' ', 4, 2, MascotState::LastMinute, 0, 0), 'w');
    assert_eq!(modify_pixel('M', 11, 11, MascotState::LongBreak, 0, 0), 'T');
    assert_eq!(pixel_color('r'), Some((238, 82, 63)));
    assert_eq!(pixel_color('z'), None);
    let grid = sprite_pixels(MascotState::Completed, 0);
    assert_eq!(grid.len(), 15);
    assert_eq!(grid[2][1], '*');
}

#[test]
fn mascot_mood_follows_the_timer() {
    let mut t = Timer::new(&Config::default());
    assert_eq!(MascotState::from_timer(&t, true), MascotState::Sunrise);
    assert_eq!(MascotState::from_timer(&t, false), MascotState::Idle);
    t.status = TimerStatus::Running;
    assert_eq!(MascotState::from_timer(&t, true), MascotState::Working);
    t.remaining = Duration::from_secs(30);
    assert_eq!(MascotState::from_timer(&t, true), MascotState::LastMinute);
    t.status = TimerStatus::Completed;
    assert_eq!(MascotState::from_timer(&t, true), MascotState::Completed);
}

#[test]
fn month_labels_mark_the_first_week_of_each_month() {
    // Mon Jan 20 2025 .. Sun Feb 16 2025: four Mon-Sun columns, the third
    // holding Feb 1 (a Saturday) after Jan 27-31.
    let first = d(2025, 1, 20);
    let days: Vec<(i32, u32)> = (0..28).map(|i| (first + i, 0)).collect();
    let grid = build_grid(&days);
    assert_eq!(grid.len(), 4);
    // Column 0 starts January; column 1 (Jan 27 - Feb 2) starts in January
    // too, so February is marked at column 2, the first to start in it.
    assert_eq!(month_label_row(&grid), "Jan Feb ");
}

#[test]
fn month_labels_leave_a_gap_between_names() {
    // Dec 29 2025 is a Monday; one day of December, then January.
    let first = d(2025, 12, 29);
    let days: Vec<(i32, u32)> = (0..14).map(|i| (first + i, 1)).collect();
    let grid = build_grid(&days);
    assert_eq!(grid.len(), 2);
    // Column 0 begins in December (Dec 29); column 1 (Jan 5) is January,
    // but "Jan" would run into "Dec", so it is left out.
    assert_eq!(month_label_row(&grid), "Dec ");
}

#[test]
fn heatmap_summary_counts_pomodoros_and_active_days() {
    let days = vec![(d(2025, 1, 1), 2), (d(2025, 1, 2), 0), (d(2025, 1, 3), 5)];
    assert_eq!(summary(&days), (7, 2));
}

#[test]
fn a_day_just_before_the_first_weeks_monday_lands_in_the_first_column() {
    // Jan 1 2025 is a Wednesday, so its week starts Monday Dec 30 2024;
    // Sunday Dec 29 is one day before that Monday.
    let days = vec![(d(2025, 1, 1), 1), (d(2024, 12, 29), 2)];
    let grid = build_grid(&days);
    assert_eq!(grid.len(), 1);
    assert_eq!(grid[0][2], Some((d(2025, 1, 1), 1)));
    assert_eq!(grid[0][6], Some((d(2024, 12, 29), 2)));
}

#[test]
fn the_heatmap_keeps_only_the_latest_weeks() {
    let first = d(2024, 1, 1); // a Monday
    let days: Vec<(i32, u32)> = (0..70 * 7).map(|i| (first + i, 1)).collect();
    let grid = build_grid(&days);
    assert_eq!(grid.len(), 70);
    let recent = recent_weeks(&grid, 52);
    assert_eq!(recent.len(), 52);
    assert_eq!(recent[0], grid[18]);
    assert_eq!(recent_weeks(&grid[..3].to_vec(), 52), grid[..3].to_vec());
}

#[test]
fn the_footer_puts_the_quit_warning_first() {
    assert_eq!(footer_notice(true, true), FooterNotice::ConfirmQuit);
    assert_eq!(footer_notice(false, true), FooterNotice::AwayPause);
    assert_eq!(footer_notice(false, false), FooterNotice::Keys);
}

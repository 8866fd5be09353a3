//! Domate, the tomato mascot: which mood it is in and how its pixels move.

use vstd::prelude::*;

use crate::timer::{Timer, TimerPhase, TimerStatus};

verus! {

/// Visual states for the Domate mascot animation.
#[derive(Debug, Clone, Copy, PartialEq, Eq, Structural)]
pub enum MascotState {
    /// Neutral waiting state (timer idle or paused)
    Idle,
    /// Welcome animation before the first work session of the day
    Sunrise,
    Working,
    ShortBreak,
    LongBreak,
    LastMinute,
    Completed,
}

/// The mood for a timer: celebrating a completed phase; waiting (with a
/// sunrise before the day's first work session); sweating in the last
/// minute; otherwise the phase's own mood.
pub open spec fn mood(timer: Timer, first_session_today: bool) -> MascotState {
    if timer.status == TimerStatus::Completed {
        MascotState::Completed
    } else if timer.status == TimerStatus::Idle || timer.status == TimerStatus::Paused {
        if timer.phase == TimerPhase::Work && timer.pomodoros_completed == 0
            && first_session_today {
            MascotState::Sunrise
        } else {
            MascotState::Idle
        }
    } else if timer.remaining.secs <= 60 {
        MascotState::LastMinute
    } else {
        match timer.phase {
            TimerPhase::Work => MascotState::Working,
            TimerPhase::ShortBreak => MascotState::ShortBreak,
            TimerPhase::LongBreak => MascotState::LongBreak,
        }
    }
}

impl MascotState {
    /// The mascot's mood for the timer's state.
    pub fn from_timer(timer: &Timer, first_session_today: bool) -> (m: Self)
        ensures
            m == mood(*timer, first_session_today),
    {
        if timer.status == TimerStatus::Completed {
            return MascotState::Completed;
        }
        if timer.status == TimerStatus::Idle || timer.status == TimerStatus::Paused {
            let awaiting_first_work = timer.phase == TimerPhase::Work
                && timer.pomodoros_completed == 0 && first_session_today;
            return if awaiting_first_work {
                MascotState::Sunrise
            } else {
                MascotState::Idle
            };
        }
        if timer.is_last_minute() {
            return MascotState::LastMinute;
        }
        match timer.phase {
            TimerPhase::Work => MascotState::Working,
            TimerPhase::ShortBreak => MascotState::ShortBreak,
            TimerPhase::LongBreak => MascotState::LongBreak,
        }
    }
}

/// How one pixel of the sprite is drawn in a mood at an animation tick:
/// the base grid's character `c`, or the one the animation puts there.
pub open spec fn pixel(c: char, row: int, col: int, state: MascotState, tick: int) -> char {
    match state {
        MascotState::Working => {
            if c == 'E' && tick % 8 >= 4 {
                'r'
            } else if c == 'r' && row == 4 && (col == 7 || col == 8 || col == 17 || col == 18)
                && tick % 8 >= 4 {
                'E'
            } else {
                c
            }
        },
        MascotState::ShortBreak => {
            let slow = (tick / 8) % 4;
            if c == 'E' {
                'r'
            } else if c == 'T' {
                'M'
            } else if c == 'M' && (col <= 10 || col >= 15) {
                'd'
            } else if slow == 0 && row == 1 && col == 22 {
                'z'
            } else if slow == 1 && row == 0 && col == 24 {
                'Z'
            } else {
                c
            }
        },
        MascotState::LongBreak => {
            if c == 'M' && col == 11 {
                'T'
            } else {
                c
            }
        },
        MascotState::LastMinute => {
            let left_row = 4 + (tick / 2) % 6;
            let right_row = 5 + ((tick / 2) + 3) % 6;
            if c == 'T' {
                'r'
            } else if c == 'M' && row == 12 {
                'r'
            } else if row == left_row && col == 2 {
                'w'
            } else if row == left_row && (col == 1 || col == 3) {
                's'
            } else if row == right_row && col == 22 {
                'w'
            } else if row == right_row && (col == 21 || col == 23) {
                's'
            } else {
                c
            }
        },
        MascotState::Completed => {
            let even = (tick / 2) % 2 == 0;
            if even && c == 'T' && col == 12 {
                'M'
            } else if even && c == 'M' && col == 14 {
                'T'
            } else if even && row == 2 && col == 1 {
                '*'
            } else if !even && row == 3 && col == 22 {
                '*'
            } else {
                c
            }
        },
        MascotState::Idle => {
            if c == 'E' {
                'r'
            } else if c == 'T' {
                'M'
            } else if c == 'M' && (col <= 10 || col >= 15) {
                'd'
            } else {
                c
            }
        },
        MascotState::Sunrise => {
            let slow = (tick / 8) % 4;
            if slow == 0 && row == 1 && col == 1 {
                '*'
            } else if slow == 1 && row == 0 && col == 22 {
                '*'
            } else if slow == 2 && row == 2 && col == 23 {
                '*'
            } else if slow == 3 && row == 3 && col == 0 {
                '*'
            } else {
                c
            }
        },
    }
}

/// The character drawn for one pixel of the sprite (see `pixel`).
pub fn modify_pixel(c: char, row: usize, col: usize, state: MascotState, _frame: u64, abs_tick: u64) -> (r: char)
    ensures
        r == pixel(c, row as int, col as int, state, abs_tick as int),
{
    match state {
        MascotState::Working => {
            if c == 'E' && abs_tick % 8 >= 4 {
                return 'r';
            }
            if c == 'r' && row == 4 && (col == 7 || col == 8 || col == 17 || col == 18) && abs_tick
                % 8 >= 4 {
                return 'E';
            }
        },
        MascotState::ShortBreak => {
            if c == 'E' {
                return 'r';
            }
            if c == 'T' {
                return 'M';
            }
            if c == 'M' && (col <= 10 || col >= 15) {
                return 'd';
            }
            let slow_frame = (abs_tick / 8) % 4;
            if slow_frame == 0 && row == 1 && col == 22 {
                return 'z';
            }
            if slow_frame == 1 && row == 0 && col == 24 {
                return 'Z';
            }
        },
        MascotState::LongBreak => {
            if c == 'M' && col == 11 {
                return 'T';
            }
        },
        MascotState::LastMinute => {
            if c == 'T' {
                return 'r';
            }
            if c == 'M' && row == 12 {
                return 'r';
            }
            let fall = (abs_tick / 2) % 6;
            let sweat_row = 4 + fall;
            if row as u64 == sweat_row && col == 2 {
                return 'w';
            }
            if row as u64 == sweat_row && (col == 1 || col == 3) {
                return 's';
            }
            let right_fall = ((abs_tick / 2) + 3) % 6;
            let right_sweat_row = 5 + right_fall;
            if row as u64 == right_sweat_row && col == 22 {
                return 'w';
            }
            if row as u64 == right_sweat_row && (col == 21 || col == 23) {
                return 's';
            }
        },
        MascotState::Completed => {
            let even = (abs_tick / 2) % 2 == 0;
            if even {
                if c == 'T' && col == 12 {
                    return 'M';
                }
                if c == 'M' && col == 14 {
                    return 'T';
                }
            }
            if even && row == 2 && col == 1 {
                return '*';
            }
            if !even && row == 3 && col == 22 {
                return '*';
            }
        },
        MascotState::Idle => {
            if c == 'E' {
                return 'r';
            }
            if c == 'T' {
                return 'M';
            }
            if c == 'M' && (col <= 10 || col >= 15) {
                return 'd';
            }
        },
        MascotState::Sunrise => {
            let slow = (abs_tick / 8) % 4;
            if slow == 0 && row == 1 && col == 1 {
                return '*';
            }
            if slow == 1 && row == 0 && col == 22 {
                return '*';
            }
            if slow == 2 && row == 2 && col == 23 {
                return '*';
            }
            if slow == 3 && row == 3 && col == 0 {
                return '*';
            }
        },
    }
    c
}

/// Whether the sprite sits one row higher at this tick (its bob).
pub open spec fn bobs_up(state: MascotState, tick: int) -> bool {
    let frame = (tick / 4) % 4;
    let fast = (tick / 2) % 4;
    match state {
        MascotState::Working => frame == 1 || frame == 2,
        MascotState::ShortBreak | MascotState::LongBreak => (tick / 8) % 2 == 0,
        MascotState::LastMinute => fast % 2 == 0,
        MascotState::Completed => frame == 0 || frame == 2,
        MascotState::Idle | MascotState::Sunrise => (tick / 16) % 2 == 0,
    }
}

/// Whether the sprite is drawn one row higher at this tick.
pub fn is_bob_up(state: MascotState, tick: u64) -> (b: bool)
    ensures
        b == bobs_up(state, tick as int),
{
    let frame_idx = (tick / 4) % 4;
    let is_fast = state == MascotState::LastMinute;
    let bob_frame = if is_fast {
        (tick / 2) % 4
    } else {
        frame_idx
    };
    match state {
        MascotState::Working => bob_frame == 1 || bob_frame == 2,
        MascotState::ShortBreak | MascotState::LongBreak => (tick / 8) % 2 == 0,
        MascotState::LastMinute => bob_frame % 2 == 0,
        MascotState::Completed => bob_frame == 0 || bob_frame == 2,
        MascotState::Idle | MascotState::Sunrise => (tick / 16) % 2 == 0,
    }
}

/// Animation frame number (0 to 3) for a tick.
pub fn frame_index(tick: u64) -> (f: u64)
    ensures
        f == (tick / 4) % 4,
        f < 4,
{
    (tick / 4) % 4
}

/// Row `i` (0 to 14) of the sprite at rest.
pub open spec fn base_row(i: int) -> Seq<char> {
    if i == 0 {
        "         LL SSS         "@
    } else if i == 1 {
        "      LLLL  LS  LLLL    "@
    } else if i == 2 {
        "     LL      S     LL   "@
    } else if i == 3 {
        "   OOOOOOOOOOOOOOOOOO   "@
    } else if i == 4 {
        "  OOrrrrrrrrrrrrrrrrOO  "@
    } else if i == 5 {
        " OrrrrrEErrrrrrrrEErrrO "@
    } else if i == 6 {
        " OrrrGGGGGGGGGGGGGGGGGrO"@
    } else if i == 7 {
        "OrrGGgWggggGGGGgWggggGGrO"@
    } else if i == 8 {
        "OrGGggggggGGGGggggggGGdO"@
    } else if i == 9 {
        "OrGGggggggGGGGggggggGGdO"@
    } else if i == 10 {
        "OrrrGGGGGGGrrrrGGGGGGGdO"@
    } else if i == 11 {
        " OrrrrddrrMMMMMMrrddddrO"@
    } else if i == 12 {
        "  OOdddrrrMMTTMMrrddddOO"@
    } else if i == 13 {
        "    OOddddddddddddddOO  "@
    } else {
        "      OOOOOOOOOOOOOO    "@
    }
}

/// Row `r` of the sprite for a mood and tick: each pixel of the row at
/// rest, as `pixel` changes it.
pub open spec fn sprite_row(state: MascotState, tick: int, r: int) -> Seq<char> {
    Seq::new(base_row(r).len(), |k: int| pixel(base_row(r)[k], r, k, state, tick))
}

/// The sprite grid at rest (Domate with sunglasses). Each character is one
/// pixel: O outline, r body, d shadow, E eyebrow, G glasses rim, g lens,
/// W reflection, S stem, L leaf, M mouth, T tongue, space transparent.
pub fn base_grid() -> (rows: Vec<&'static str>)
    ensures
        rows@.len() == 15,
        forall|i: int| 0 <= i < 15 ==> (#[trigger] rows@[i])@ == base_row(i),
{
    let mut rows: Vec<&'static str> = Vec::new();
    rows.push("         LL SSS         ");
    rows.push("      LLLL  LS  LLLL    ");
    rows.push("     LL      S     LL   ");
    rows.push("   OOOOOOOOOOOOOOOOOO   ");
    rows.push("  OOrrrrrrrrrrrrrrrrOO  ");
    rows.push(" OrrrrrEErrrrrrrrEErrrO ");
    rows.push(" OrrrGGGGGGGGGGGGGGGGGrO");
    rows.push("OrrGGgWggggGGGGgWggggGGrO");
    rows.push("OrGGggggggGGGGggggggGGdO");
    rows.push("OrGGggggggGGGGggggggGGdO");
    rows.push("OrrrGGGGGGGrrrrGGGGGGGdO");
    rows.push(" OrrrrddrrMMMMMMrrddddrO");
    rows.push("  OOdddrrrMMTTMMrrddddOO");
    rows.push("    OOddddddddddddddOO  ");
    rows.push("      OOOOOOOOOOOOOO    ");
    rows
}

/// The sprite's pixels for a mood and tick, row by row: every pixel of the
/// base grid passed through `modify_pixel`.
pub fn sprite_pixels(state: MascotState, tick: u64) -> (grid: Vec<Vec<char>>)
    ensures
        grid@.len() == 15,
        forall|r: int| 0 <= r < 15 ==> (#[trigger] grid@[r])@ == sprite_row(state, tick as int, r),
{
    let base = base_grid();
    let frame = frame_index(tick);
    let mut grid: Vec<Vec<char>> = Vec::new();
    let mut r: usize = 0;
    while r < base.len()
        invariant
            r <= base@.len(),
            base@.len() == 15,
            forall|i: int| 0 <= i < 15 ==> (#[trigger] base@[i])@ == base_row(i),
            grid@.len() == r,
            forall|i: int| 0 <= i < r ==> (#[trigger] grid@[i])@ == sprite_row(state, tick as int, i),
        decreases base@.len() - r,
    {
        let chars = crate::text::chars_of(base[r]);
        assert(chars@ == base_row(r as int));
        let mut row: Vec<char> = Vec::new();
        let mut c: usize = 0;
        while c < chars.len()
            invariant
                c <= chars@.len(),
                row@.len() == c,
                forall|k: int| 0 <= k < c ==> #[trigger] row@[k] == pixel(chars@[k], r as int, k, state, tick as int),
            decreases chars@.len() - c,
        {
            row.push(modify_pixel(chars[c], r, c, state, frame, tick));
            c = c + 1;
        }
        assert(row@ =~= sprite_row(state, tick as int, r as int));
        grid.push(row);
        r = r + 1;
    }
    grid
}

/// The fill color of a pixel character, or `None` for particles and
/// transparent pixels.
pub fn pixel_color(c: char) -> (rgb: Option<(u8, u8, u8)>)
    ensures
        rgb == match c {
            'O' | 'E' => Some((60u8, 20u8, 10u8)),
            'r' => Some((238u8, 82u8, 63u8)),
            'd' => Some((207u8, 59u8, 43u8)),
            'G' => Some((26u8, 26u8, 26u8)),
            'g' => Some((10u8, 10u8, 10u8)),
            'W' => Some((255u8, 255u8, 255u8)),
            'S' => Some((61u8, 104u8, 34u8)),
            'L' => Some((111u8, 176u8, 62u8)),
            'M' => Some((74u8, 26u8, 26u8)),
            'T' => Some((238u8, 123u8, 114u8)),
            _ => None,
        },
{
    match c {
        'O' | 'E' => Some((60, 20, 10)),
        'r' => Some((238, 82, 63)),
        'd' => Some((207, 59, 43)),
        'G' => Some((26, 26, 26)),
        'g' => Some((10, 10, 10)),
        'W' => Some((255, 255, 255)),
        'S' => Some((61, 104, 34)),
        'L' => Some((111, 176, 62)),
        'M' => Some((74, 26, 26)),
        'T' => Some((238, 123, 114)),
        _ => None,
    }
}

/// The sweat drops of the last minute never leave the tomato's rows.
pub proof fn law_sweat_stays_on_the_body(c: char, row: int, col: int, tick: int)
    requires
        tick >= 0,
        pixel(c, row, col, MascotState::LastMinute, tick) == 'w' || pixel(
            c,
            row,
            col,
            MascotState::LastMinute,
            tick,
        ) == 's',
        c != 'w' && c != 's',
    ensures
        4 <= row <= 10,
        1 <= col <= 23,
{
}

} // verus!

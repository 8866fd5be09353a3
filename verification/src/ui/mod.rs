//! Decisions of the terminal interface that do not depend on how it is drawn.

pub mod digits;
pub mod heatmap;
pub mod mascot;

use vstd::prelude::*;

use crate::text::{dec, decimal_into, push_str, string_of};
use crate::timer::{Timer, TimerPhase, TimerStatus};

verus! {

/// How much UI fits in the current terminal size.
#[derive(Debug, Clone, Copy, PartialEq, Eq, Structural)]
pub enum LayoutMode {
    /// Mascot + big digits + everything else
    Full,
    /// No mascot (short terminals, e.g. tmux splits)
    Compact,
    /// One-line timer + progress + keys (tiny terminals)
    Mini,
}

/// Pick a layout that fits without clipping the mascot mid-body: the full
/// layout needs 38 rows and the mascot switched on, the compact one 15 rows.
pub fn layout_mode(width: u16, height: u16, show_mascot: bool) -> (m: LayoutMode)
    ensures
        m == if height >= 38 && show_mascot {
            LayoutMode::Full
        } else if height >= 15 {
            LayoutMode::Compact
        } else {
            LayoutMode::Mini
        },
{
    if height >= 38 && show_mascot {
        LayoutMode::Full
    } else if height >= 15 {
        LayoutMode::Compact
    } else {
        LayoutMode::Mini
    }
}

/// Whether the 3-row box-drawing digits fit horizontally (34 columns).
pub fn fits_big_digits(width: u16) -> (b: bool)
    ensures
        b == (width >= 34),
{
    width >= 34
}

/// Whether the timer view uses the big digits: they must fit horizontally
/// and, outside the full layout, leave enough rows (20).
pub fn use_big_digits(width: u16, height: u16, mode: LayoutMode) -> (b: bool)
    ensures
        b == (width >= 34 && (mode == LayoutMode::Full || height >= 20)),
{
    fits_big_digits(width) && (mode == LayoutMode::Full || height >= 20)
}

/// One place in the pomodoro counter of the current cycle.
#[derive(Debug, Clone, Copy, PartialEq, Eq, Structural)]
pub enum Slot {
    /// Completed in this cycle.
    Done,
    /// The work phase in progress.
    Current,
    /// Not reached yet.
    Pending,
}

/// What place `i` of the counter shows.
pub open spec fn slot_at(timer: Timer, i: int) -> Slot {
    let cp = timer.cycle_position as int;
    if i < cp || (i == cp && timer.phase == TimerPhase::Work && timer.status == TimerStatus::Completed) {
        Slot::Done
    } else if i == cp && timer.phase == TimerPhase::Work {
        Slot::Current
    } else {
        Slot::Pending
    }
}

/// The places of the pomodoro counter, one per pomodoro of the cycle.
pub fn counter_slots(timer: &Timer, interval: u32) -> (slots: Vec<Slot>)
    ensures
        slots@.len() == interval,
        forall|i: int| 0 <= i < interval ==> #[trigger] slots@[i] == slot_at(*timer, i),
{
    let mut slots: Vec<Slot> = Vec::new();
    let mut i: u32 = 0;
    while i < interval
        invariant
            i <= interval,
            slots@.len() == i,
            forall|k: int| 0 <= k < i ==> #[trigger] slots@[k] == slot_at(*timer, k),
        decreases interval - i,
    {
        let cp = timer.cycle_position;
        let slot = if i < cp || (i == cp && timer.phase == TimerPhase::Work && timer.status
            == TimerStatus::Completed) {
            Slot::Done
        } else if i == cp && timer.phase == TimerPhase::Work {
            Slot::Current
        } else {
            Slot::Pending
        };
        slots.push(slot);
        i = i + 1;
    }
    slots
}

/// The hint under the clock for each status.
pub fn status_hint(status: TimerStatus) -> (s: &'static str)
    ensures
        s@ == match status {
            TimerStatus::Idle => "press [space] to start"@,
            TimerStatus::Paused => "press [space] to resume"@,
            TimerStatus::Completed => "press [space] for next"@,
            TimerStatus::Running => ""@,
        },
{
    match status {
        TimerStatus::Idle => "press [space] to start",
        TimerStatus::Paused => "press [space] to resume",
        TimerStatus::Completed => "press [space] for next",
        TimerStatus::Running => "",
    }
}

/// The header's status icon and word for each status.
pub fn status_badge(status: TimerStatus) -> (b: (&'static str, &'static str))
    ensures
        (b.0@, b.1@) == match status {
            TimerStatus::Running => ("▶"@, "Running"@),
            TimerStatus::Paused => ("⏸"@, "Paused"@),
            TimerStatus::Idle => ("●"@, "Ready"@),
            TimerStatus::Completed => ("✓"@, "Done!"@),
        },
{
    match status {
        TimerStatus::Running => ("▶", "Running"),
        TimerStatus::Paused => ("⏸", "Paused"),
        TimerStatus::Idle => ("●", "Ready"),
        TimerStatus::Completed => ("✓", "Done!"),
    }
}

/// The line under the clock: the pomodoro in progress and its place in
/// the cycle, both counted from one.
pub fn cycle_text(timer: &Timer, interval: u32) -> (s: String)
    requires
        timer.pomodoros_completed < u32::MAX,
        timer.cycle_position < u32::MAX,
    ensures
        s@ == "Pomodoro #"@ + dec((timer.pomodoros_completed + 1) as nat) + " ─ Cycle "@ + dec(
            (timer.cycle_position + 1) as nat,
        ) + "/"@ + dec(interval as nat),
{
    let mut out: Vec<char> = Vec::new();
    push_str(&mut out, "Pomodoro #");
    decimal_into(&mut out, (timer.pomodoros_completed + 1) as u64);
    push_str(&mut out, " ─ Cycle ");
    decimal_into(&mut out, (timer.cycle_position + 1) as u64);
    push_str(&mut out, "/");
    decimal_into(&mut out, interval as u64);
    proof {
        assert(out@ =~= "Pomodoro #"@ + dec((timer.pomodoros_completed + 1) as nat) + " ─ Cycle "@
            + dec((timer.cycle_position + 1) as nat) + "/"@ + dec(interval as nat));
    }
    string_of(&out)
}

/// What the footer shows.
#[derive(Debug, Clone, Copy, PartialEq, Eq, Structural)]
pub enum FooterNotice {
    /// The quit confirmation: a running timer waits for a second `q`.
    ConfirmQuit,
    /// Why the clock stopped: the user stepped away.
    AwayPause,
    /// The key bindings.
    Keys,
}

/// The footer's message: a pending quit confirmation comes first, then the
/// away notice, and otherwise the key bindings.
pub fn footer_notice(quit_pending: bool, paused_by_idle: bool) -> (n: FooterNotice)
    ensures
        n == if quit_pending {
            FooterNotice::ConfirmQuit
        } else if paused_by_idle {
            FooterNotice::AwayPause
        } else {
            FooterNotice::Keys
        },
{
    if quit_pending {
        FooterNotice::ConfirmQuit
    } else if paused_by_idle {
        FooterNotice::AwayPause
    } else {
        FooterNotice::Keys
    }
}

} // verus!

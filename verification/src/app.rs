//! What the terminal front-end does with a key press.

use vstd::prelude::*;

use crate::ui::digits::{style_after, DigitStyle};

verus! {

/// Which view is currently active.
#[derive(Debug, Clone, Copy, PartialEq, Eq, Structural)]
pub enum View {
    Timer,
    Heatmap,
}

/// A key press, as far as the front-end cares.
#[derive(Debug, Clone, Copy, PartialEq, Eq, Structural)]
pub enum Key {
    Char(char),
    Esc,
    Other,
}

/// What the engine must do after a key press.
#[derive(Debug, Clone, Copy, PartialEq, Eq, Structural)]
pub enum KeyAction {
    /// Nothing beyond what the key changed on screen.
    Nothing,
    /// Start, pause or resume.
    Toggle,
    /// Reset the current phase.
    Reset,
    /// Skip to the next phase.
    Skip,
    /// Add (positive) or remove (negative) one minute.
    Adjust(i64),
    /// Record the phase in progress and leave.
    Quit,
}

/// The screen state of the terminal front-end.
#[derive(Debug, Clone, Copy, PartialEq, Eq, Structural)]
pub struct Controls {
    /// Current view (timer or heatmap)
    pub current_view: View,
    /// Whether the app should exit
    pub should_quit: bool,
    /// Whether the help overlay is visible
    pub show_help: bool,
    /// True after a first `q` while the timer runs (waiting for confirmation)
    pub quit_pending: bool,
    /// Typeface for the big clock, cycled with `d`
    pub digit_style: DigitStyle,
}

/// Whether a key asks to quit (`q` or Esc).
pub open spec fn is_quit_key(key: Key) -> bool {
    key == Key::Char('q') || key == Key::Esc
}

impl Controls {
    /// The screen state at start-up: timer view, no overlay, nothing pending.
    pub fn new(digit_style: DigitStyle) -> (c: Self)
        ensures
            c.current_view == View::Timer,
            !c.should_quit,
            !c.show_help,
            !c.quit_pending,
            c.digit_style == digit_style,
    {
        Controls {
            current_view: View::Timer,
            should_quit: false,
            show_help: false,
            quit_pending: false,
            digit_style,
        }
    }

    /// Handle a key press; `running` tells whether the timer is running.
    ///
    /// The help overlay swallows the next key. Any key but `q`/Esc cancels a
    /// pending quit. `q`/Esc while running only arms the confirmation; a
    /// second one (or one while not running) quits.
    pub fn handle_key(&mut self, key: Key, running: bool) -> (a: KeyAction)
        ensures
            old(self).show_help ==> *final(self) == (Controls { show_help: false, ..*old(self) })
                && a == KeyAction::Nothing,
            !old(self).show_help ==> {
                let base = if is_quit_key(key) {
                    *old(self)
                } else {
                    Controls { quit_pending: false, ..*old(self) }
                };
                match key {
                    Key::Char(' ') => *final(self) == base && a == KeyAction::Toggle,
                    Key::Char('r') => *final(self) == base && a == KeyAction::Reset,
                    Key::Char('s') => *final(self) == base && a == KeyAction::Skip,
                    Key::Char('h') => *final(self) == (Controls {
                        current_view: if base.current_view == View::Timer {
                            View::Heatmap
                        } else {
                            View::Timer
                        },
                        ..base
                    }) && a == KeyAction::Nothing,
                    Key::Char('d') => *final(self) == (Controls {
                        digit_style: style_after(base.digit_style),
                        ..base
                    }) && a == KeyAction::Nothing,
                    Key::Char('?') => *final(self) == (Controls { show_help: true, ..base }) && a
                        == KeyAction::Nothing,
                    Key::Char('+') | Key::Char('=') => *final(self) == base && a
                        == KeyAction::Adjust(1i64),
                    Key::Char('-') => *final(self) == base && a == KeyAction::Adjust(-1i64),
                    Key::Char('q') | Key::Esc => if running && !base.quit_pending {
                        *final(self) == (Controls { quit_pending: true, ..base }) && a
                            == KeyAction::Nothing
                    } else {
                        *final(self) == (Controls { should_quit: true, ..base }) && a
                            == KeyAction::Quit
                    },
                    _ => *final(self) == base && a == KeyAction::Nothing,
                }
            },
    {
        if self.show_help {
            self.show_help = false;
            return KeyAction::Nothing;
        }
        let quit_key = match key {
            Key::Char(c) => c == 'q',
            Key::Esc => true,
            Key::Other => false,
        };
        if !quit_key {
            self.quit_pending = false;
        }
        match key {
            Key::Char(' ') => KeyAction::Toggle,
            Key::Char('r') => KeyAction::Reset,
            Key::Char('s') => KeyAction::Skip,
            Key::Char('h') => {
                self.current_view = match self.current_view {
                    View::Timer => View::Heatmap,
                    View::Heatmap => View::Timer,
                };
                KeyAction::Nothing
            },
            Key::Char('d') => {
                self.digit_style = self.digit_style.next();
                KeyAction::Nothing
            },
            Key::Char('?') => {
                self.show_help = true;
                KeyAction::Nothing
            },
            Key::Char('+') | Key::Char('=') => KeyAction::Adjust(1),
            Key::Char('-') => KeyAction::Adjust(-1),
            Key::Char('q') | Key::Esc => {
                // Don't lose a running session to a stray keypress.
                if running && !self.quit_pending {
                    self.quit_pending = true;
                    KeyAction::Nothing
                } else {
                    self.should_quit = true;
                    KeyAction::Quit
                }
            },
            _ => KeyAction::Nothing,
        }
    }
}

} // verus!

use vstd::prelude::*;
use vstd::string::*;

use crate::hooks::Hooks;
use crate::storage::{parse_tags, parsed_tags, views};
use crate::theme::CustomColors;

verus! {

/// User-configurable settings for Pomodomate.
///
/// Stored in `~/.config/pomodomate/config.toml`. All durations are in minutes.
#[derive(Debug, Clone)]
pub struct Config {
    /// Duration of a work session in minutes (default: 25)
    pub work_duration: u64,
    /// Duration of a short break in minutes (default: 5)
    pub short_break: u64,
    /// Duration of a long break in minutes (default: 15)
    pub long_break: u64,
    /// Number of pomodoros before a long break (default: 4)
    pub long_break_interval: u32,
    /// Automatically start break timers (default: true)
    pub auto_start_breaks: bool,
    /// Automatically start work timers after breaks (default: false)
    pub auto_start_pomodoros: bool,
    /// Enable desktop notifications (default: true)
    pub notifications: bool,
    /// Enable notification sounds (default: false)
    pub sound: bool,
    /// Show the Domate mascot when the terminal is tall enough (default: true)
    pub show_mascot: bool,
    /// Theme name (default: "default")
    pub theme: String,
    /// Per-color overrides on top of the theme
    pub custom_colors: Option<CustomColors>,
    /// Typeface of the big clock (default: "line")
    pub digit_style: String,
    /// Tags attached to every session of this run
    pub tags: Vec<String>,
    /// Shell commands run at phase boundaries
    pub hooks: Hooks,
    /// Ambient track played during running work phases ("" disables it)
    pub ambient_sound: String,
    /// Minutes without input before the timer pauses itself (0 disables it)
    pub idle_timeout: u64,
}

/// Default work duration in minutes.
pub fn default_work_duration() -> (r: u64)
    ensures
        r == 25,
{
    25
}

/// Default short break in minutes.
pub fn default_short_break() -> (r: u64)
    ensures
        r == 5,
{
    5
}

/// Default long break in minutes.
pub fn default_long_break() -> (r: u64)
    ensures
        r == 15,
{
    15
}

/// Default number of pomodoros before a long break.
pub fn default_long_break_interval() -> (r: u32)
    ensures
        r == 4,
{
    4
}

/// Default for the switches that start enabled.
pub fn default_true() -> (r: bool)
    ensures
        r,
{
    true
}

/// Default idle timeout in minutes.
pub fn default_idle_timeout() -> (r: u64)
    ensures
        r == 5,
{
    5
}

/// Why a configuration was refused.
#[derive(Debug, Clone, Copy, PartialEq, Eq, Structural)]
pub enum ConfigError {
    WorkDurationZero,
    ShortBreakZero,
    LongBreakZero,
    LongBreakIntervalZero,
}

impl ConfigError {
    /// The message shown to the user.
    pub fn message(&self) -> (m: &'static str)
        ensures
            m@ == match self {
                ConfigError::WorkDurationZero => "work_duration must be > 0"@,
                ConfigError::ShortBreakZero => "short_break must be > 0"@,
                ConfigError::LongBreakZero => "long_break must be > 0"@,
                ConfigError::LongBreakIntervalZero => "long_break_interval must be > 0"@,
            },
    {
        match self {
            ConfigError::WorkDurationZero => "work_duration must be > 0",
            ConfigError::ShortBreakZero => "short_break must be > 0",
            ConfigError::LongBreakZero => "long_break must be > 0",
            ConfigError::LongBreakIntervalZero => "long_break_interval must be > 0",
        }
    }
}

impl Config {
    /// The values `validate` accepts: every duration and the interval are positive.
    pub open spec fn is_valid(&self) -> bool {
        &&& self.work_duration > 0
        &&& self.short_break > 0
        &&& self.long_break > 0
        &&& self.long_break_interval > 0
    }

    /// Every phase length, in seconds, fits in a `u64`.
    pub open spec fn lengths_fit(&self) -> bool {
        &&& self.work_duration * 60 <= u64::MAX
        &&& self.short_break * 60 <= u64::MAX
        &&& self.long_break * 60 <= u64::MAX
    }

    /// The first refused value, checked in the order work, short break,
    /// long break, interval.
    pub open spec fn first_error(&self) -> Option<ConfigError> {
        if self.work_duration == 0 {
            Some(ConfigError::WorkDurationZero)
        } else if self.short_break == 0 {
            Some(ConfigError::ShortBreakZero)
        } else if self.long_break == 0 {
            Some(ConfigError::LongBreakZero)
        } else if self.long_break_interval == 0 {
            Some(ConfigError::LongBreakIntervalZero)
        } else {
            None
        }
    }

    /// Validate config values are sane.
    pub fn validate(&self) -> (r: Result<(), ConfigError>)
        ensures
            r is Ok <==> self.is_valid(),
            r is Err ==> Some(r->Err_0) == self.first_error(),
            r is Ok ==> self.first_error() is None,
    {
        if self.work_duration == 0 {
            return Err(ConfigError::WorkDurationZero);
        }
        if self.short_break == 0 {
            return Err(ConfigError::ShortBreakZero);
        }
        if self.long_break == 0 {
            return Err(ConfigError::LongBreakZero);
        }
        if self.long_break_interval == 0 {
            return Err(ConfigError::LongBreakIntervalZero);
        }
        Ok(())
    }
}

impl Default for Config {
    fn default() -> (c: Self)
        ensures
            c.work_duration == 25,
            c.short_break == 5,
            c.long_break == 15,
            c.long_break_interval == 4,
            c.auto_start_breaks,
            !c.auto_start_pomodoros,
            c.notifications,
            !c.sound,
            c.show_mascot,
            c.theme@ == "default"@,
            c.custom_colors is None,
            c.digit_style@ == "line"@,
            c.tags@.len() == 0,
            c.hooks.work_start is None,
            c.hooks.work_end is None,
            c.hooks.break_start is None,
            c.hooks.break_end is None,
            c.ambient_sound@.len() == 0,
            c.idle_timeout == 5,
    {
        Config {
            work_duration: default_work_duration(),
            short_break: default_short_break(),
            long_break: default_long_break(),
            long_break_interval: default_long_break_interval(),
            auto_start_breaks: true,
            auto_start_pomodoros: false,
            notifications: true,
            sound: false,
            show_mascot: true,
            theme: String::from_str("default"),
            custom_colors: None,
            digit_style: String::from_str("line"),
            tags: Vec::new(),
            hooks: Hooks::default(),
            ambient_sound: String::new(),
            idle_timeout: default_idle_timeout(),
        }
    }
}

/// One-run overrides given on the command line; `config.toml` is never
/// modified by them.
#[derive(Debug, Clone)]
pub struct RunOptions {
    /// Work duration in minutes
    pub work: Option<u64>,
    /// Short break duration in minutes
    pub short_break: Option<u64>,
    /// Long break duration in minutes
    pub long_break: Option<u64>,
    /// Pomodoros before a long break
    pub interval: Option<u32>,
    /// Disable sound and desktop notifications
    pub mute: bool,
    /// Hide the Domate mascot
    pub no_mascot: bool,
    /// Theme name
    pub theme: Option<String>,
    /// Tags for this run's sessions (repeatable, or comma separated)
    pub tags: Vec<String>,
}

/// `o` if given, else `d`.
pub open spec fn or_keep<T>(o: Option<T>, d: T) -> T {
    match o {
        Some(v) => v,
        None => d,
    }
}

impl Config {
    /// Apply one-run overrides. Tags given on the command line replace the
    /// configured ones; either way they are normalized (see `parse_tags`).
    pub fn apply_run_options(&mut self, options: RunOptions)
        ensures
            final(self).work_duration == or_keep(options.work, old(self).work_duration),
            final(self).short_break == or_keep(options.short_break, old(self).short_break),
            final(self).long_break == or_keep(options.long_break, old(self).long_break),
            final(self).long_break_interval == or_keep(options.interval, old(self).long_break_interval),
            final(self).sound == (old(self).sound && !options.mute),
            final(self).notifications == (old(self).notifications && !options.mute),
            final(self).show_mascot == (old(self).show_mascot && !options.no_mascot),
            final(self).theme == or_keep(options.theme, old(self).theme),
            views(final(self).tags@) == parsed_tags(
                views(if options.tags@.len() > 0 { options.tags@ } else { old(self).tags@ }),
            ),
            final(self).auto_start_breaks == old(self).auto_start_breaks,
            final(self).auto_start_pomodoros == old(self).auto_start_pomodoros,
            final(self).custom_colors == old(self).custom_colors,
            final(self).digit_style == old(self).digit_style,
            final(self).hooks == old(self).hooks,
            final(self).ambient_sound == old(self).ambient_sound,
            final(self).idle_timeout == old(self).idle_timeout,
    {
        if let Some(work) = options.work {
            self.work_duration = work;
        }
        if let Some(short_break) = options.short_break {
            self.short_break = short_break;
        }
        if let Some(long_break) = options.long_break {
            self.long_break = long_break;
        }
        if let Some(interval) = options.interval {
            self.long_break_interval = interval;
        }
        if options.mute {
            self.sound = false;
            self.notifications = false;
        }
        if options.no_mascot {
            self.show_mascot = false;
        }
        if let Some(theme) = options.theme {
            self.theme = theme;
        }
        if options.tags.len() > 0 {
            self.tags = parse_tags(&options.tags);
        } else {
            // Normalize whatever came from config.toml so stored tags always
            // look the same regardless of where they were written.
            self.tags = parse_tags(&self.tags);
        }
    }
}

} // verus!

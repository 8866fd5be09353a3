# pomodomate

A Pomodoro timer for the terminal, with Domate the tomato mascot, a
GitHub-style heatmap, tags, hooks, idle pausing and a background daemon.

The rules of the timer are a library whose behaviour is stated in `requires` /
`ensures` contracts and proved with Verus:

- `src/timer.rs` — the phase state machine (work, short and long breaks,
  the long-break cycle, adjusting and skipping), with its laws.
- `src/engine.rs` — what happens around the timer: which session to record,
  which hook to run with what environment, which notification to show, the
  status report and its template rendering.
- `src/storage.rs` — tags, daily counts, streaks, statistics, per-tag totals
  and the legacy-history migration plan.
- `src/config.rs`, `src/hooks.rs`, `src/theme.rs`, `src/sound.rs`,
  `src/daemon.rs`, `src/app.rs` — configuration checks, hook environments,
  theme colors, ambient-track lookup, the daemon protocol and key handling.
- `src/ui/` — layout choices, the big clock's digit styles, the mascot's
  pixels and the heatmap grid.
- `src/clock.rs`, `src/text.rs` — the few trusted calls into chrono, uuid and
  std, each with the contract it is believed with, and verified text helpers.

`app/` is the program around the library: the command line, files on disk,
the terminal UI, desktop notifications, the Wayland idle watcher and the
daemon's socket. `tests/` runs the library on concrete cases.

use vstd::prelude::*;
use vstd::string::*;

use crate::text::{dec, decimal, string_of, trim, trimmed};

verus! {

/// Shell commands run when the timer crosses a phase boundary.
///
/// Each hook is an arbitrary shell line executed with `sh -c`. Hooks are
/// fire-and-forget: a slow or broken hook must not stall the timer.
#[derive(Debug, Clone)]
pub struct Hooks {
    /// Runs when a work phase starts (or resumes from idle).
    pub work_start: Option<String>,
    /// Runs when a work phase ends, whether completed or skipped.
    pub work_end: Option<String>,
    /// Runs when a short or long break starts.
    pub break_start: Option<String>,
    /// Runs when a short or long break ends, whether completed or skipped.
    pub break_end: Option<String>,
}

impl Default for Hooks {
    fn default() -> (h: Self)
        ensures
            h.work_start is None,
            h.work_end is None,
            h.break_start is None,
            h.break_end is None,
    {
        Hooks { work_start: None, work_end: None, break_start: None, break_end: None }
    }
}

/// Context passed to a hook as environment variables.
#[derive(Debug, Clone)]
pub struct HookContext {
    /// `work`, `short_break` or `long_break`.
    pub phase: String,
    /// Work pomodoros completed so far in this run.
    pub pomodoros: u32,
    /// Intended length of the phase, in minutes.
    pub duration_minutes: u64,
    /// Tags attached to the current run, comma separated.
    pub tags: String,
    /// `true` when the phase ran to completion rather than being skipped.
    pub completed: bool,
}

/// The command line a hook runs: the configured line without surrounding
/// white space, or nothing when that leaves it empty.
pub fn runnable_line(line: &str) -> (r: Option<String>)
    ensures
        trim(line@).len() == 0 ==> r is None,
        trim(line@).len() > 0 ==> r is Some && r->0@ == trim(line@),
{
    let t = trimmed(line);
    if t.len() == 0 {
        None
    } else {
        Some(string_of(&t))
    }
}

/// `true` or `false`, as `bool::to_string` prints it.
pub open spec fn bool_text(b: bool) -> Seq<char> {
    if b {
        "true"@
    } else {
        "false"@
    }
}

/// The environment variables a hook receives, in the order they are set.
pub open spec fn env_spec(ctx: HookContext) -> Seq<(Seq<char>, Seq<char>)> {
    seq![
        ("POMODOMATE_PHASE"@, ctx.phase@),
        ("POMODOMATE_POMODOROS"@, dec(ctx.pomodoros as nat)),
        ("POMODOMATE_DURATION"@, dec(ctx.duration_minutes as nat)),
        ("POMODOMATE_TAGS"@, ctx.tags@),
        ("POMODOMATE_COMPLETED"@, bool_text(ctx.completed)),
    ]
}

impl HookContext {
    /// The environment a hook is run with: each pair is a variable name and
    /// its value. Values travel as data, never spliced into the shell line.
    pub fn env(&self) -> (vars: Vec<(String, String)>)
        ensures
            vars@.len() == 5,
            forall|i: int|
                0 <= i < 5 ==> (#[trigger] vars@[i]).0@ == env_spec(*self)[i].0 && vars@[i].1@
                    == env_spec(*self)[i].1,
    {
        let mut vars: Vec<(String, String)> = Vec::new();
        vars.push((String::from_str("POMODOMATE_PHASE"), self.phase.clone()));
        vars.push((String::from_str("POMODOMATE_POMODOROS"), decimal(self.pomodoros as u64)));
        vars.push((String::from_str("POMODOMATE_DURATION"), decimal(self.duration_minutes)));
        vars.push((String::from_str("POMODOMATE_TAGS"), self.tags.clone()));
        let completed = if self.completed {
            String::from_str("true")
        } else {
            String::from_str("false")
        };
        vars.push((String::from_str("POMODOMATE_COMPLETED"), completed));
        vars
    }
}

/// Each variable a hook receives carries its own field: the phase, the
/// pomodoro count and duration in decimal, the tags, and
/// `POMODOMATE_COMPLETED` set to `true` exactly when the phase was completed
/// and to `false` exactly when it was not.
pub proof fn law_hook_env_carries_the_context(ctx: HookContext)
    ensures
        env_spec(ctx).len() == 5,
        env_spec(ctx)[0] == ("POMODOMATE_PHASE"@, ctx.phase@),
        env_spec(ctx)[1] == ("POMODOMATE_POMODOROS"@, dec(ctx.pomodoros as nat)),
        env_spec(ctx)[2] == ("POMODOMATE_DURATION"@, dec(ctx.duration_minutes as nat)),
        env_spec(ctx)[3] == ("POMODOMATE_TAGS"@, ctx.tags@),
        env_spec(ctx)[4].0 == "POMODOMATE_COMPLETED"@,
        env_spec(ctx)[4].1 == "true"@ <==> ctx.completed,
        env_spec(ctx)[4].1 == "false"@ <==> !ctx.completed,
{
    reveal_strlit("true");
    reveal_strlit("false");
    assert("true"@[0] != "false"@[0]);
}

} // verus!

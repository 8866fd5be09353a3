//! The daemon's plain-text protocol and the checks made before it listens.

use vstd::prelude::*;
use vstd::string::*;

use crate::text::{chars_eq_str, chars_of, dec, decimal_into, push_str, string_of};

verus! {

/// Longest socket path the kernel will accept, in bytes.
///
/// `sockaddr_un.sun_path` is 108 bytes on Linux and 104 on the BSDs,
/// including the trailing NUL; the smaller figure is used so the error comes
/// from here, with an explanation, rather than from `bind`.
pub const MAX_SOCKET_PATH: usize = 103;

/// Why a socket path was refused.
#[derive(Debug, Clone)]
pub enum SocketPathError {
    /// The path is longer than the kernel accepts.
    TooLong { len: usize, path: String },
}

/// The explanation shown for an over-long socket path.
pub open spec fn too_long_message(len: nat, path: Seq<char>) -> Seq<char> {
    "socket path is too long ("@ + dec(len) + " bytes, limit 103): "@ + path
        + "\nSet POMODOMATE_SOCKET to a shorter path, e.g. POMODOMATE_SOCKET=/tmp/pomodomate.sock"@
}

impl SocketPathError {
    /// The message shown to the user, with advice they can act on.
    pub fn message(&self) -> (m: String)
        ensures
            match self {
                SocketPathError::TooLong { len, path } => m@ == too_long_message(*len as nat, path@),
            },
    {
        match self {
            SocketPathError::TooLong { len, path } => {
                let mut out: Vec<char> = Vec::new();
                push_str(&mut out, "socket path is too long (");
                decimal_into(&mut out, *len as u64);
                push_str(&mut out, " bytes, limit 103): ");
                push_str(&mut out, path.as_str());
                push_str(
                    &mut out,
                    "\nSet POMODOMATE_SOCKET to a shorter path, e.g. POMODOMATE_SOCKET=/tmp/pomodomate.sock",
                );
                proof {
                    assert(out@ =~= too_long_message(*len as nat, path@));
                }
                string_of(&out)
            },
        }
    }
}

/// Reject an over-long socket path (measured in UTF-8 bytes, as `str::len`
/// counts them) before the kernel does.
pub fn check_socket_path(path: &str) -> (r: Result<(), SocketPathError>)
    ensures
        r is Ok <==> (path.spec_bytes().len() as usize) <= 103,
        r matches Err(SocketPathError::TooLong { len, path: p }) ==> len == (
        path.spec_bytes().len() as usize) && p@ == path@,
{
    let len = path.len();
    if len > MAX_SOCKET_PATH {
        return Err(SocketPathError::TooLong { len, path: String::from_str(path) });
    }
    Ok(())
}

/// Commands the daemon understands, one per line over the socket.
#[derive(Debug, Clone, Copy, PartialEq, Eq, Structural)]
pub enum Command {
    Status,
    Toggle,
    Start,
    Pause,
    Resume,
    Reset,
    Skip,
    Quit,
}

/// The command a line names, if any (after the line was trimmed).
pub open spec fn command_named(s: Seq<char>) -> Option<Command> {
    if s == "status"@ {
        Some(Command::Status)
    } else if s == "toggle"@ {
        Some(Command::Toggle)
    } else if s == "start"@ {
        Some(Command::Start)
    } else if s == "pause"@ {
        Some(Command::Pause)
    } else if s == "resume"@ {
        Some(Command::Resume)
    } else if s == "reset"@ {
        Some(Command::Reset)
    } else if s == "skip"@ {
        Some(Command::Skip)
    } else if s == "quit"@ {
        Some(Command::Quit)
    } else {
        None
    }
}

/// The command a protocol line names, or `None` for an unknown command.
pub fn parse_command(command: &str) -> (c: Option<Command>)
    ensures
        c == command_named(command@),
{
    let v = chars_of(command);
    if chars_eq_str(&v, "status") {
        Some(Command::Status)
    } else if chars_eq_str(&v, "toggle") {
        Some(Command::Toggle)
    } else if chars_eq_str(&v, "start") {
        Some(Command::Start)
    } else if chars_eq_str(&v, "pause") {
        Some(Command::Pause)
    } else if chars_eq_str(&v, "resume") {
        Some(Command::Resume)
    } else if chars_eq_str(&v, "reset") {
        Some(Command::Reset)
    } else if chars_eq_str(&v, "skip") {
        Some(Command::Skip)
    } else if chars_eq_str(&v, "quit") {
        Some(Command::Quit)
    } else {
        None
    }
}

/// The command names, in the order they are listed to the user.
pub fn commands() -> (names: Vec<&'static str>)
    ensures
        names@.len() == 8,
        names@[0]@ == "status"@,
        names@[1]@ == "toggle"@,
        names@[2]@ == "start"@,
        names@[3]@ == "pause"@,
        names@[4]@ == "resume"@,
        names@[5]@ == "reset"@,
        names@[6]@ == "skip"@,
        names@[7]@ == "quit"@,
{
    let mut names: Vec<&'static str> = Vec::new();
    names.push("status");
    names.push("toggle");
    names.push("start");
    names.push("pause");
    names.push("resume");
    names.push("reset");
    names.push("skip");
    names.push("quit");
    names
}

/// Whether `command` is one the daemon understands.
pub fn is_command(command: &str) -> (b: bool)
    ensures
        b == command_named(command@) is Some,
{
    parse_command(command).is_some()
}

/// What the daemon does with one command.
#[derive(Debug, Clone, Copy, PartialEq, Eq, Structural)]
pub enum Action {
    /// Reply with the status object.
    ReportStatus,
    /// Start or pause.
    Toggle,
    /// Resume a paused timer or start an idle one (`start` and `resume`).
    Resume,
    /// Pause a running timer.
    Pause,
    /// Reset the current phase.
    Reset,
    /// Skip to the next phase.
    Skip,
    /// Record the phase in progress, reply, and stop.
    Shutdown,
    /// Reply with an error and change nothing.
    Refuse,
}

/// The action a command names: `start` and `resume` are the same action,
/// and an unknown command is refused.
pub open spec fn action_spec(command: Seq<char>) -> Action {
    match command_named(command) {
        Some(Command::Status) => Action::ReportStatus,
        Some(Command::Toggle) => Action::Toggle,
        Some(Command::Start) => Action::Resume,
        Some(Command::Resume) => Action::Resume,
        Some(Command::Pause) => Action::Pause,
        Some(Command::Reset) => Action::Reset,
        Some(Command::Skip) => Action::Skip,
        Some(Command::Quit) => Action::Shutdown,
        None => Action::Refuse,
    }
}

/// The action for one protocol line.
pub fn action_for(command: &str) -> (a: Action)
    ensures
        a == action_spec(command@),
{
    match parse_command(command) {
        Some(Command::Status) => Action::ReportStatus,
        Some(Command::Toggle) => Action::Toggle,
        Some(Command::Start) => Action::Resume,
        Some(Command::Resume) => Action::Resume,
        Some(Command::Pause) => Action::Pause,
        Some(Command::Reset) => Action::Reset,
        Some(Command::Skip) => Action::Skip,
        Some(Command::Quit) => Action::Shutdown,
        None => Action::Refuse,
    }
}

/// What to do about the socket path before listening.
#[derive(Debug, Clone, Copy, PartialEq, Eq, Structural)]
pub enum SocketPlan {
    /// Nothing is there: bind.
    Bind,
    /// A socket left behind by a dead daemon: remove it, then bind.
    ReplaceStale,
    /// Another daemon is listening there: refuse to start.
    RefuseRunning,
    /// Something that is not a socket is there: refuse rather than delete it.
    RefuseNotSocket,
}

/// Decide about the socket path from what is there: whether anything is
/// present, whether it is a socket file, and whether a daemon is live on it.
pub fn socket_plan(present: bool, socket_file: bool, live: bool) -> (p: SocketPlan)
    ensures
        p == if !present {
            SocketPlan::Bind
        } else if !socket_file {
            SocketPlan::RefuseNotSocket
        } else if live {
            SocketPlan::RefuseRunning
        } else {
            SocketPlan::ReplaceStale
        },
{
    if !present {
        SocketPlan::Bind
    } else if !socket_file {
        SocketPlan::RefuseNotSocket
    } else if live {
        SocketPlan::RefuseRunning
    } else {
        SocketPlan::ReplaceStale
    }
}

/// Each command has its own action: `pause` only pauses (never toggles),
/// `toggle` only toggles, `start` and `resume` only resume, `quit` alone
/// shuts down, `status` alone reports, and every other line is refused.
pub proof fn law_each_command_has_its_action(c: Seq<char>)
    ensures
        action_spec(c) == Action::Pause <==> c == "pause"@,
        action_spec(c) == Action::Toggle <==> c == "toggle"@,
        action_spec(c) == Action::Resume <==> (c == "start"@ || c == "resume"@),
        action_spec(c) == Action::Reset <==> c == "reset"@,
        action_spec(c) == Action::Skip <==> c == "skip"@,
        action_spec(c) == Action::Shutdown <==> c == "quit"@,
        action_spec(c) == Action::ReportStatus <==> c == "status"@,
        action_spec(c) == Action::Refuse <==> command_named(c) is None,
{
    reveal_strlit("status");
    reveal_strlit("toggle");
    reveal_strlit("start");
    reveal_strlit("pause");
    reveal_strlit("resume");
    reveal_strlit("reset");
    reveal_strlit("skip");
    reveal_strlit("quit");
    assert("status"@[0] != "toggle"@[0]);
    assert("status"@[3] != "start"@[3]);
    assert("status"@[0] != "pause"@[0]);
    assert("status"@[0] != "resume"@[0]);
    assert("status"@[0] != "reset"@[0]);
    assert("status"@[1] != "skip"@[1]);
    assert("status"@[0] != "quit"@[0]);
    assert("toggle"@[0] != "start"@[0]);
    assert("toggle"@[0] != "pause"@[0]);
    assert("toggle"@[0] != "resume"@[0]);
    assert("toggle"@[0] != "reset"@[0]);
    assert("toggle"@[0] != "skip"@[0]);
    assert("toggle"@[0] != "quit"@[0]);
    assert("start"@[0] != "pause"@[0]);
    assert("start"@[0] != "resume"@[0]);
    assert("start"@[0] != "reset"@[0]);
    assert("start"@[1] != "skip"@[1]);
    assert("start"@[0] != "quit"@[0]);
    assert("pause"@[0] != "resume"@[0]);
    assert("pause"@[0] != "reset"@[0]);
    assert("pause"@[0] != "skip"@[0]);
    assert("pause"@[0] != "quit"@[0]);
    assert("resume"@[3] != "reset"@[3]);
    assert("resume"@[0] != "skip"@[0]);
    assert("resume"@[0] != "quit"@[0]);
    assert("reset"@[0] != "skip"@[0]);
    assert("reset"@[0] != "quit"@[0]);
    assert("skip"@[0] != "quit"@[0]);
}

} // verus!

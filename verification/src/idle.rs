use vstd::prelude::*;

verus! {

/// What the compositor told us about the user's presence.
#[derive(Debug, Clone, Copy, PartialEq, Eq, Structural)]
pub enum IdleEvent {
    /// No keyboard or pointer input for the configured timeout.
    Idled,
    /// The user came back.
    Resumed,
}

} // verus!

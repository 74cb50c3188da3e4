use vstd::prelude::*;

verus! {

/// Asks to run a script on one of the player's servers against a known target.
/// Each of the three is named by its place in the player's list of its kind.
#[derive(Clone, Copy, PartialEq, Eq, Structural, Debug)]
pub struct RequestStartExploitEvent {
    pub target: usize,
    pub script: usize,
    pub server: usize,
}

/// Asks to remove an active exploit.
#[derive(Clone, Copy, PartialEq, Eq, Structural, Debug)]
pub struct RequestStopExploitEvent {
    pub exploit_id: u64,
}

/// Asks to pause an active exploit where it stands.
#[derive(Clone, Copy, PartialEq, Eq, Structural, Debug)]
pub struct RequestPauseExploitEvent {
    pub exploit_id: u64,
}

/// Asks to let a paused exploit run on.
#[derive(Clone, Copy, PartialEq, Eq, Structural, Debug)]
pub struct RequestResumeExploitEvent {
    pub exploit_id: u64,
}

/// Asks to begin an active exploit anew.
#[derive(Clone, Copy, PartialEq, Eq, Structural, Debug)]
pub struct RequestRestartExploitEvent {
    pub exploit_id: u64,
}

} // verus!

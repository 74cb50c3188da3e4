use crate::algorithm::effect::AlgorithmEffect;
use vstd::prelude::*;

verus! {

/// A log entry: what an effect of an active exploit came to.
#[derive(Clone, Copy, PartialEq, Eq, Structural, Debug)]
pub struct ExploitEvent {
    pub active_exploit_id: u64,
    /// Whether the effect was fired by the script on the player's server.
    pub from_player_server: bool,
    pub algorithm_effect: AlgorithmEffect,
    /// The number drawn for the effect's potency.
    pub potency_roll: Option<i32>,
    /// What was gained, or the value of the stat after the change.
    pub value_after_modification: Option<i32>,
}

} // verus!

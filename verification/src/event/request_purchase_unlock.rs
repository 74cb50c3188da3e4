use crate::player_state::state::PlayerUnlock;
use vstd::prelude::*;

verus! {

/// Asks to buy an unlock at a price in credits.
#[derive(Clone, Copy, PartialEq, Eq, Structural, Debug)]
pub struct RequestPurchaseUnlockEvent {
    pub unlock: PlayerUnlock,
    pub credit_cost: u128,
}

} // verus!

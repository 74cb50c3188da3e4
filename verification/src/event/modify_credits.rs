use crate::script::ScriptId;
use vstd::prelude::*;

verus! {

/// What caused a change of the player's credits.
#[derive(Clone, Copy, PartialEq, Eq, Structural, Debug)]
pub enum ModificationSource {
    Script(ScriptId),
}

/// Tells that the player's credits change by `credits`.
#[derive(Clone, Copy, PartialEq, Eq, Structural, Debug)]
pub struct ModifyCreditsEvent {
    pub credits: i64,
    pub source: ModificationSource,
}

} // verus!

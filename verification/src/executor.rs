use crate::algorithm::effect::AlgorithmEffect;
use vstd::prelude::*;

verus! {

/// A state machine that turns instruction ticks into fired effects.
///
/// Ticks left over when an algorithm completes are not carried into the next one:
/// a tick that overshoots the end of an algorithm loses the remainder.
pub trait Executor {
    /// The internal invariant of the executor.
    spec fn is_well_formed(&self) -> bool;

    /// Whether ticks advance the executor.
    spec fn is_running(&self) -> bool;

    /// What [`Executor::is_complete`] returns.
    spec fn spec_is_complete(&self) -> bool;

    /// What [`Executor::progress`] returns.
    spec fn spec_progress(&self) -> nat;

    /// What [`Executor::total_instructions`] returns.
    spec fn spec_total_instructions(&self) -> nat;

    /// Lets ticks advance the executor. The position is kept.
    fn start_execution(&mut self)
        requires
            old(self).is_well_formed(),
        ensures
            final(self).is_well_formed(),
            final(self).is_running(),
            final(self).spec_progress() == old(self).spec_progress(),
            final(self).spec_total_instructions() == old(self).spec_total_instructions(),
    ;

    /// Makes the executor ignore ticks. The position is kept.
    fn stop_execution(&mut self)
        requires
            old(self).is_well_formed(),
        ensures
            final(self).is_well_formed(),
            !final(self).is_running(),
            final(self).spec_progress() == old(self).spec_progress(),
            final(self).spec_total_instructions() == old(self).spec_total_instructions(),
    ;

    /// Advances by up to `tick_count` instructions and returns the effects that fired.
    fn tick_execution(&mut self, tick_count: u64) -> (effects: Vec<AlgorithmEffect>)
        requires
            old(self).is_well_formed(),
        ensures
            final(self).is_well_formed(),
            final(self).is_running() == old(self).is_running(),
            final(self).spec_total_instructions() == old(self).spec_total_instructions(),
            old(self).spec_progress() <= final(self).spec_progress(),
            final(self).spec_progress() <= final(self).spec_total_instructions(),
            !old(self).is_running() ==> effects@.len() == 0 && final(self).spec_progress() == old(
                self,
            ).spec_progress(),
            forall|i: int| 0 <= i < effects@.len() ==> (#[trigger] effects@[i]).is_well_formed(),
    ;

    /// Whether every instruction has been executed.
    fn is_complete(&self) -> (r: bool)
        requires
            self.is_well_formed(),
        ensures
            r == self.spec_is_complete(),
    ;

    /// How many instructions have been executed so far.
    fn progress(&self) -> (r: u64)
        requires
            self.is_well_formed(),
        ensures
            r == self.spec_progress(),
    ;

    /// How many instructions there are in all. Ticking does not change it.
    fn total_instructions(&self) -> (r: u64)
        requires
            self.is_well_formed(),
        ensures
            r == self.spec_total_instructions(),
    ;
}

} // verus!

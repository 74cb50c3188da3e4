use crate::algorithm::algorithm::{Algorithm, AlgorithmView};
use crate::algorithm::procedure::{all_well_formed, instruction_total, AlgorithmProcedure};
use crate::algorithm::id::AlgorithmId;
use crate::algorithm::procedure::{algorithm_views, without_id};
use crate::executor::Executor;
use crate::script_executor::ScriptExecutor;
use crate::script_executor::ScriptExecutorView;
use crate::sums::{lemma_sum_prefix, sum_of};
use vstd::prelude::*;

verus! {

/// Identifies a script. `Invalid` marks a script that was never given an identity.
#[derive(Clone, Copy, PartialEq, Eq, Structural, Debug, Hash)]
pub enum ScriptId {
    Invalid,
    Id(u64),
}

/// A set of procedures that run side by side.
pub struct Script {
    pub id: ScriptId,
    pub procedures: Vec<AlgorithmProcedure>,
}

/// The mathematical content of a [`Script`].
pub struct ScriptView {
    pub id: ScriptId,
    /// Each procedure as the run of its algorithms.
    pub procedures: Seq<Seq<AlgorithmView>>,
}

/// The contents of a run of procedures, in the same order.
pub open spec fn procedure_views(procedures: Seq<AlgorithmProcedure>) -> Seq<Seq<AlgorithmView>> {
    Seq::new(procedures.len(), |i: int| procedures[i]@)
}

/// The instruction total of each procedure, in the same order.
pub open spec fn procedure_totals(procedures: Seq<Seq<AlgorithmView>>) -> Seq<nat> {
    Seq::new(procedures.len(), |i: int| instruction_total(procedures[i]))
}

impl ScriptView {
    /// The number of instructions of all procedures together.
    pub open spec fn total_instructions(self) -> nat {
        sum_of(procedure_totals(self.procedures))
    }

    /// Every effect can be resolved, and the total number of instructions fits in 64
    /// bits. This is what a script needs to be run.
    pub open spec fn is_runnable(self) -> bool {
        &&& forall|i: int|
            0 <= i < self.procedures.len() ==> all_well_formed(#[trigger] self.procedures[i])
        &&& self.total_instructions() <= u64::MAX
    }
}

impl View for Script {
    type V = ScriptView;

    open spec fn view(&self) -> ScriptView {
        ScriptView { id: self.id, procedures: procedure_views(self.procedures@) }
    }
}

impl Clone for Script {
    fn clone(&self) -> (r: Self)
        ensures
            r@ == self@,
    {
        let mut procedures: Vec<AlgorithmProcedure> = Vec::new();
        let mut i: usize = 0;
        while i < self.procedures.len()
            invariant
                i <= self.procedures.len(),
                procedures@.len() == i,
                procedure_views(procedures@) == self@.procedures.take(i as int),
            decreases self.procedures.len() - i,
        {
            let ghost before = procedures@;
            procedures.push(self.procedures[i].clone());
            assert forall|k: int| 0 <= k < i + 1 implies procedure_views(procedures@)[k]
                == self@.procedures[k] by {
                if k < i {
                    assert(procedures@[k] == before[k]);
                    assert(procedure_views(before)[k] == self@.procedures.take(i as int)[k]);
                }
            }
            assert(procedure_views(procedures@) =~= self@.procedures.take(i + 1));
            i += 1;
        }
        assert(self@.procedures.take(i as int) =~= self@.procedures);
        Script { id: self.id, procedures }
    }
}

impl Script {
    /// A script without identity and without procedures.
    pub fn empty() -> (r: Script)
        ensures
            r@.id == ScriptId::Invalid,
            r@.procedures.len() == 0,
    {
        Script { id: ScriptId::Invalid, procedures: Vec::new() }
    }

    pub fn new(id: ScriptId, procedures: Vec<AlgorithmProcedure>) -> (r: Script)
        ensures
            r.id == id,
            r.procedures == procedures,
    {
        Script { id, procedures }
    }

    /// Tells whether the script can be run: every effect can be resolved, and the
    /// number of instructions fits in 64 bits.
    pub fn is_valid(&self) -> (r: bool)
        ensures
            r == self@.is_runnable(),
    {
        let mut total: u64 = 0;
        let mut i: usize = 0;
        while i < self.procedures.len()
            invariant
                i <= self.procedures.len(),
                total == sum_of(procedure_totals(self@.procedures).take(i as int)),
                forall|k: int| 0 <= k < i ==> all_well_formed(#[trigger] self@.procedures[k]),
            decreases self.procedures.len() - i,
        {
            let ghost totals = procedure_totals(self@.procedures);
            proof {
                assert(totals.take(i + 1).drop_last() =~= totals.take(i as int));
                assert(totals.take(i + 1).last() == instruction_total(self.procedures@[i as int]@));
                lemma_sum_prefix(totals, i + 1);
            }
            let algorithms = self.procedures[i].algorithms();
            let mut j: usize = 0;
            while j < algorithms.len()
                invariant
                    j <= algorithms.len(),
                    i < self.procedures.len(),
                    algorithm_views(algorithms@) == self@.procedures[i as int],
                    forall|k: int|
                        0 <= k < j ==> (#[trigger] self@.procedures[i as int][k]).is_well_formed(),
                decreases algorithms.len() - j,
            {
                assert(algorithm_views(algorithms@)[j as int] == algorithms@[j as int]@);
                if !algorithms[j].is_valid() {
                    return false;
                }
                j += 1;
            }
            assert(algorithm_views(algorithms@).len() == algorithms@.len());
            let count = match self.procedures[i].checked_instruction_count() {
                Some(count) => count,
                None => {
                    return false;
                },
            };
            match total.checked_add(count) {
                Some(sum) => {
                    total = sum;
                },
                None => {
                    return false;
                },
            }
            i += 1;
        }
        assert(procedure_totals(self@.procedures).take(i as int) =~= procedure_totals(
            self@.procedures,
        ));
        true
    }

    /// Clones self to create an executor.
    pub fn executor(&self) -> (r: ScriptExecutor)
        requires
            self@.is_runnable(),
        ensures
            r@ == ScriptExecutorView::fresh(self@.procedures),
            r.is_well_formed(),
    {
        let clone = self.clone();
        ScriptExecutor::from(clone)
    }

    pub fn into_executor(self) -> (r: ScriptExecutor)
        requires
            self@.is_runnable(),
        ensures
            r@ == ScriptExecutorView::fresh(self@.procedures),
            r.is_well_formed(),
    {
        ScriptExecutor::from(self)
    }
}

/// Tells that the player has finished a script.
pub struct ScriptCreatedEvent {
    pub script: Script,
}

/// Assembles a script one algorithm at a time.
pub struct ScriptBuilder {
    script: Script,
}

/// Each procedure without the algorithms whose id matches `id`.
pub open spec fn procedures_without_id(
    procedures: Seq<Seq<AlgorithmView>>,
    id: AlgorithmId,
) -> Seq<Seq<AlgorithmView>> {
    Seq::new(procedures.len(), |i: int| without_id(procedures[i], id))
}

impl View for ScriptBuilder {
    type V = ScriptView;

    /// The script as built so far.
    closed spec fn view(&self) -> ScriptView {
        self.script@
    }
}

impl ScriptBuilder {
    pub fn new() -> (r: ScriptBuilder)
        ensures
            r@.id == ScriptId::Invalid,
            r@.procedures.len() == 0,
    {
        ScriptBuilder { script: Script::empty() }
    }

    /// True when no procedure holds any algorithm.
    pub fn is_empty(&self) -> (r: bool)
        ensures
            r == (forall|i: int|
                0 <= i < self@.procedures.len() ==> (#[trigger] self@.procedures[i]).len() == 0),
    {
        let mut i: usize = 0;
        while i < self.script.procedures.len()
            invariant
                i <= self.script.procedures.len(),
                forall|k: int| 0 <= k < i ==> (#[trigger] self@.procedures[k]).len() == 0,
            decreases self.script.procedures.len() - i,
        {
            if !self.script.procedures[i].is_complete() {
                assert(self@.procedures[i as int].len() != 0);
                return false;
            }
            i += 1;
        }
        true
    }

    /// Adds an algorithm to the end of the first procedure, which is created if the
    /// script has none yet.
    pub fn add_algorithm(&mut self, algorithm: Algorithm)
        ensures
            final(self)@.id == old(self)@.id,
            old(self)@.procedures.len() == 0 ==> final(self)@.procedures == seq![
                seq![algorithm@],
            ],
            old(self)@.procedures.len() > 0 ==> final(self)@.procedures == old(
                self,
            )@.procedures.update(0, old(self)@.procedures[0].push(algorithm@)),
    {
        if self.script.procedures.len() == 0 {
            let mut procedure = AlgorithmProcedure::from(&[]);
            procedure.add_algorithm(algorithm);
            self.script.procedures.push(procedure);
            assert(self@.procedures[0] =~= seq![algorithm@]);
            assert(self@.procedures =~= seq![seq![algorithm@]]);
        } else {
            self.script.procedures[0].add_algorithm(algorithm);
            assert(self@.procedures =~= old(self)@.procedures.update(
                0,
                old(self)@.procedures[0].push(algorithm@),
            ));
        }
    }

    /// Removes from every procedure the algorithms whose id matches that of `algorithm`.
    pub fn remove_algorithm(&mut self, algorithm: Algorithm)
        ensures
            final(self)@.id == old(self)@.id,
            final(self)@.procedures == procedures_without_id(
                old(self)@.procedures,
                algorithm@.id,
            ),
    {
        let mut i: usize = 0;
        while i < self.script.procedures.len()
            invariant
                i <= self.script.procedures.len(),
                self.script.id == old(self).script.id,
                self.script.procedures.len() == old(self).script.procedures.len(),
                forall|k: int|
                    0 <= k < i ==> (#[trigger] self@.procedures[k]) == without_id(
                        old(self)@.procedures[k],
                        algorithm@.id,
                    ),
                forall|k: int|
                    i <= k < self.script.procedures.len() ==> (#[trigger] self@.procedures[k])
                        == old(self)@.procedures[k],
            decreases self.script.procedures.len() - i,
        {
            let target = algorithm.clone();
            assert(target@.id == algorithm@.id);
            let ghost before = self@.procedures;
            let ghost stored = self.script.procedures@;
            assert(before[i as int] == old(self)@.procedures[i as int]);
            assert(before[i as int] == stored[i as int]@);
            self.script.procedures[i].remove_algorithm(target);
            assert(self@.procedures[i as int] == self.script.procedures@[i as int]@);
            assert(self@.procedures[i as int] == without_id(before[i as int], algorithm@.id));
            assert forall|k: int| 0 <= k < self.script.procedures.len() && k != i implies (
            #[trigger] self@.procedures[k]) == before[k] by {
                assert(self.script.procedures@[k] == stored[k]);
            }
            i += 1;
        }
        assert(self@.procedures =~= procedures_without_id(old(self)@.procedures, algorithm@.id));
    }

    pub fn current_script(&self) -> (r: &Script)
        ensures
            r@ == self@,
    {
        &self.script
    }

    pub fn finish(self) -> (r: Script)
        ensures
            r@ == self@,
    {
        self.script
    }
}

} // verus!

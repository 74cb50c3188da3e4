use crate::algorithm::algorithm::{append_effects, AlgorithmView};
use crate::algorithm::effect::AlgorithmEffect;
use crate::algorithm::procedure::{
    all_well_formed, instruction_total, lemma_instruction_total_first,
};
use crate::algorithm::procedure_executor::{
    lemma_after_tick, AlgorithmProcedureExecutor, AlgorithmProcedureExecutorView,
};
use crate::executor::Executor;
use crate::script::{procedure_totals, Script};
use crate::sums::{lemma_sum_pointwise, lemma_sum_prefix, lemma_sum_push, sum_of};
use vstd::prelude::*;

verus! {

/// Runs every procedure of a script in lockstep.
pub struct ScriptExecutor {
    algorithm_procedure_executors: Vec<AlgorithmProcedureExecutor>,
    is_paused: bool,
    total_instructions: u64,
}

/// The mathematical content of a [`ScriptExecutor`].
pub struct ScriptExecutorView {
    /// One executor for each procedure that holds an algorithm, in declaration order.
    pub executors: Seq<AlgorithmProcedureExecutorView>,
    pub is_paused: bool,
}

/// A fresh executor for each procedure that holds an algorithm, in the same order.
pub open spec fn fresh_executors(procedures: Seq<Seq<AlgorithmView>>) -> Seq<
    AlgorithmProcedureExecutorView,
>
    decreases procedures.len(),
{
    if procedures.len() == 0 {
        Seq::empty()
    } else {
        let rest = fresh_executors(procedures.drop_last());
        if procedures.last().len() == 0 {
            rest
        } else {
            rest.push(AlgorithmProcedureExecutorView::fresh(procedures.last()))
        }
    }
}

/// The effects that a tick of `n` fires in each executor, joined in executor order.
pub open spec fn merged_effects(executors: Seq<AlgorithmProcedureExecutorView>, n: u64) -> Seq<
    AlgorithmEffect,
>
    decreases executors.len(),
{
    if executors.len() == 0 {
        Seq::empty()
    } else {
        merged_effects(executors.drop_last(), n) + executors.last().tick_effects(n)
    }
}

/// The instruction total of each executor, in the same order.
pub open spec fn executor_totals(executors: Seq<AlgorithmProcedureExecutorView>) -> Seq<nat> {
    Seq::new(executors.len(), |i: int| executors[i].total_instructions())
}

/// The progress of each executor, in the same order.
pub open spec fn executor_progresses(executors: Seq<AlgorithmProcedureExecutorView>) -> Seq<nat> {
    Seq::new(executors.len(), |i: int| executors[i].progress())
}

impl ScriptExecutorView {
    /// The executor of a script that was just turned into one: not paused itself, each
    /// of its procedure executors paused at the start.
    pub open spec fn fresh(procedures: Seq<Seq<AlgorithmView>>) -> ScriptExecutorView {
        ScriptExecutorView { executors: fresh_executors(procedures), is_paused: false }
    }

    pub open spec fn total_instructions(self) -> nat {
        sum_of(executor_totals(self.executors))
    }

    pub open spec fn progress(self) -> nat {
        sum_of(executor_progresses(self.executors))
    }

    /// Complete only when every procedure is.
    pub open spec fn is_complete(self) -> bool {
        forall|i: int| 0 <= i < self.executors.len() ==> (#[trigger] self.executors[i]).is_complete()
    }

    pub open spec fn is_well_formed(self) -> bool {
        &&& forall|i: int|
            0 <= i < self.executors.len() ==> (#[trigger] self.executors[i]).is_well_formed()
        &&& self.total_instructions() <= u64::MAX
    }

    pub open spec fn with_paused(self, is_paused: bool) -> ScriptExecutorView {
        ScriptExecutorView {
            executors: Seq::new(
                self.executors.len(),
                |i: int| self.executors[i].with_paused(is_paused),
            ),
            is_paused,
        }
    }

    /// The effects that a tick of `n` fires: nothing while paused, else what each
    /// procedure fires, in declaration order.
    pub open spec fn tick_effects(self, n: u64) -> Seq<AlgorithmEffect> {
        if self.is_paused {
            Seq::empty()
        } else {
            merged_effects(self.executors, n)
        }
    }

    /// The executor after a tick of `n`: every procedure ticked by the same `n`.
    pub open spec fn after_tick(self, n: u64) -> ScriptExecutorView {
        if self.is_paused {
            self
        } else {
            ScriptExecutorView {
                executors: Seq::new(self.executors.len(), |i: int| self.executors[i].after_tick(n)),
                ..self
            }
        }
    }
}

/// A fresh executor holds as many instructions as the script it was made from, and is
/// well formed if the script can be run.
pub proof fn lemma_fresh(procedures: Seq<Seq<AlgorithmView>>)
    requires
        forall|i: int|
            0 <= i < procedures.len() ==> all_well_formed(
                #[trigger] procedures[i],
            ),
    ensures
        ScriptExecutorView::fresh(procedures).total_instructions() == sum_of(
            procedure_totals(procedures),
        ),
        ScriptExecutorView::fresh(procedures).progress() == 0,
        forall|i: int|
            0 <= i < fresh_executors(procedures).len() ==> {
                &&& (#[trigger] fresh_executors(procedures)[i]).current.is_well_formed()
                &&& fresh_executors(procedures)[i].is_paused
                &&& fresh_executors(procedures)[i].current.is_paused
                &&& all_well_formed(
                    fresh_executors(procedures)[i].queue,
                )
            },
    decreases procedures.len(),
{
    if procedures.len() > 0 {
        let front = procedures.drop_last();
        let last = procedures.last();
        assert forall|i: int| 0 <= i < front.len() implies all_well_formed(
             #[trigger] front[i]) by {
            assert(front[i] == procedures[i]);
        }
        lemma_fresh(front);
        let rest = fresh_executors(front);
        assert(procedure_totals(procedures).drop_last() =~= procedure_totals(front));
        if last.len() == 0 {
            assert(instruction_total(last) == 0);
        } else {
            let added = AlgorithmProcedureExecutorView::fresh(last);
            lemma_instruction_total_first(last);
            assert(instruction_total(added.finished) == 0);
            assert(executor_totals(rest.push(added)) =~= executor_totals(rest).push(
                added.total_instructions(),
            ));
            assert(executor_progresses(rest.push(added)) =~= executor_progresses(rest).push(
                added.progress(),
            ));
            lemma_sum_push(executor_totals(rest), added.total_instructions());
            lemma_sum_push(executor_progresses(rest), added.progress());
            assert(last[0].is_well_formed());
            assert forall|k: int| 0 <= k < added.queue.len() implies (
            #[trigger] added.queue[k]).is_well_formed() by {
                assert(added.queue[k] == last[k + 1]);
            }
        }
    }
}

/// A tick keeps the executor well formed and the total unchanged, and never loses
/// progress.
pub proof fn lemma_script_after_tick(view: ScriptExecutorView, n: u64)
    requires
        view.is_well_formed(),
    ensures
        view.after_tick(n).is_well_formed(),
        view.after_tick(n).total_instructions() == view.total_instructions(),
        view.progress() <= view.after_tick(n).progress() <= view.total_instructions(),
{
    let after = view.after_tick(n);
    assert forall|i: int| 0 <= i < view.executors.len() implies {
        &&& (#[trigger] after.executors[i]).is_well_formed()
        &&& after.executors[i].total_instructions() == view.executors[i].total_instructions()
        &&& view.executors[i].progress() <= after.executors[i].progress()
        &&& after.executors[i].progress() <= view.executors[i].total_instructions()
    } by {
        assert(view.executors[i].is_well_formed());
        lemma_after_tick(view.executors[i], n);
    }
    assert(executor_totals(after.executors) =~= executor_totals(view.executors));
    lemma_sum_pointwise(executor_progresses(view.executors), executor_progresses(after.executors));
    lemma_sum_pointwise(executor_progresses(after.executors), executor_totals(view.executors));
}

/// Starting or stopping keeps the executor well formed, the total and the progress.
pub proof fn lemma_script_with_paused(view: ScriptExecutorView, is_paused: bool)
    requires
        view.is_well_formed(),
    ensures
        view.with_paused(is_paused).is_well_formed(),
        view.with_paused(is_paused).total_instructions() == view.total_instructions(),
        view.with_paused(is_paused).progress() == view.progress(),
{
    let after = view.with_paused(is_paused);
    assert forall|i: int| 0 <= i < view.executors.len() implies (
    #[trigger] after.executors[i]).is_well_formed() by {
        assert(view.executors[i].is_well_formed());
    }
    assert(executor_totals(after.executors) =~= executor_totals(view.executors));
    assert(executor_progresses(after.executors) =~= executor_progresses(view.executors));
}

impl View for ScriptExecutor {
    type V = ScriptExecutorView;

    closed spec fn view(&self) -> ScriptExecutorView {
        ScriptExecutorView {
            executors: Seq::new(
                self.algorithm_procedure_executors@.len(),
                |i: int| self.algorithm_procedure_executors@[i]@,
            ),
            is_paused: self.is_paused,
        }
    }
}

impl ScriptExecutor {
    /// Creates an executor with one procedure executor for each procedure of the script
    /// that holds an algorithm. The executor itself is not paused; its procedure
    /// executors are, until execution is started.
    pub fn from(script: Script) -> (r: ScriptExecutor)
        requires
            script@.is_runnable(),
        ensures
            r@ == ScriptExecutorView::fresh(script@.procedures),
            r.is_well_formed(),
    {
        let mut executors: Vec<AlgorithmProcedureExecutor> = Vec::new();
        let mut total: u64 = 0;
        let ghost procedures = script@.procedures;
        let ghost totals = procedure_totals(procedures);
        let mut i: usize = 0;
        while i < script.procedures.len()
            invariant
                i <= script.procedures.len(),
                procedures == script@.procedures,
                totals == procedure_totals(procedures),
                script@.is_runnable(),
                total == sum_of(totals.take(i as int)),
                Seq::new(executors@.len(), |k: int| executors@[k]@) == fresh_executors(
                    procedures.take(i as int),
                ),
                forall|k: int| 0 <= k < executors@.len() ==> (#[trigger] executors@[k]).is_well_formed(),
            decreases script.procedures.len() - i,
        {
            proof {
                assert(totals.take(i + 1).drop_last() =~= totals.take(i as int));
                assert(totals.take(i + 1).last() == instruction_total(procedures[i as int]));
                lemma_sum_prefix(totals, i + 1);
                assert(procedures.take(i + 1).drop_last() =~= procedures.take(i as int));
                assert(procedures.take(i + 1).last() == procedures[i as int]);
                assert(all_well_formed(procedures[i as int]));
            }
            let procedure = script.procedures[i].clone();
            assert(procedure@ == procedures[i as int]);
            let ghost before = executors@;
            match AlgorithmProcedureExecutor::from(procedure) {
                None => {
                    assert(instruction_total(procedures[i as int]) == 0);
                },
                Some(executor) => {
                    proof {
                        executor.lemma_well_formed();
                        lemma_instruction_total_first(procedures[i as int]);
                        assert(instruction_total(executor@.finished) == 0);
                    }
                    total = total + executor.total_instructions();
                    executors.push(executor);
                    assert(Seq::new(executors@.len(), |k: int| executors@[k]@) =~= Seq::new(
                        before.len(),
                        |k: int| before[k]@,
                    ).push(executor@));
                },
            }
            i += 1;
        }
        proof {
            assert(totals.take(i as int) =~= totals);
            assert(procedures.take(i as int) =~= procedures);
            lemma_fresh(procedures);
        }
        let executor = ScriptExecutor {
            algorithm_procedure_executors: executors,
            is_paused: false,
            total_instructions: total,
        };
        proof {
            assert(executor@.executors =~= fresh_executors(procedures));
            assert forall|k: int| 0 <= k < executor@.executors.len() implies (
            #[trigger] executor@.executors[k]).is_well_formed() by {
                executor.algorithm_procedure_executors@[k].lemma_well_formed();
            }
        }
        executor
    }

    /// What the invariant says of the content.
    pub proof fn lemma_well_formed(&self)
        requires
            self.is_well_formed(),
        ensures
            self@.is_well_formed(),
            self.spec_progress() == self@.progress(),
            self.spec_total_instructions() == self@.total_instructions(),
    {
    }

    /// Whether the executor ignores ticks.
    pub fn is_paused(&self) -> (r: bool)
        ensures
            r == self@.is_paused,
    {
        self.is_paused
    }
}

impl Executor for ScriptExecutor {
    closed spec fn is_well_formed(&self) -> bool {
        &&& self@.is_well_formed()
        &&& forall|i: int|
            0 <= i < self.algorithm_procedure_executors@.len() ==> (
            #[trigger] self.algorithm_procedure_executors@[i]).is_well_formed()
        &&& self.total_instructions == self@.total_instructions()
    }

    open spec fn is_running(&self) -> bool {
        !self@.is_paused
    }

    open spec fn spec_is_complete(&self) -> bool {
        self@.is_complete()
    }

    closed spec fn spec_progress(&self) -> nat {
        self@.progress()
    }

    closed spec fn spec_total_instructions(&self) -> nat {
        self@.total_instructions()
    }

    fn start_execution(&mut self)
        ensures
            final(self)@ == old(self)@.with_paused(false),
    {
        self.is_paused = false;
        let ghost before = old(self)@;
        let mut i: usize = 0;
        while i < self.algorithm_procedure_executors.len()
            invariant
                i <= self.algorithm_procedure_executors.len(),
                self.algorithm_procedure_executors.len() == before.executors.len(),
                !self.is_paused,
                self.total_instructions == old(self).total_instructions,
                forall|k: int|
                    0 <= k < i ==> (#[trigger] self.algorithm_procedure_executors@[k])@
                        == before.executors[k].with_paused(false),
                forall|k: int|
                    i <= k < before.executors.len() ==> (
                    #[trigger] self.algorithm_procedure_executors@[k])@ == before.executors[k],
                forall|k: int|
                    0 <= k < before.executors.len() ==> (
                    #[trigger] self.algorithm_procedure_executors@[k]).is_well_formed(),
            decreases self.algorithm_procedure_executors.len() - i,
        {
            let ghost stored = self.algorithm_procedure_executors@;
            self.algorithm_procedure_executors[i].start_execution();
            assert forall|k: int| 0 <= k < before.executors.len() && k != i implies (
            #[trigger] self.algorithm_procedure_executors@[k]) == stored[k] by {}
            i += 1;
        }
        proof {
            assert(self@.executors =~= before.with_paused(false).executors);
            lemma_script_with_paused(before, false);
        }
    }

    fn stop_execution(&mut self)
        ensures
            final(self)@ == old(self)@.with_paused(true),
    {
        self.is_paused = true;
        let ghost before = old(self)@;
        let mut i: usize = 0;
        while i < self.algorithm_procedure_executors.len()
            invariant
                i <= self.algorithm_procedure_executors.len(),
                self.algorithm_procedure_executors.len() == before.executors.len(),
                self.is_paused,
                self.total_instructions == old(self).total_instructions,
                forall|k: int|
                    0 <= k < i ==> (#[trigger] self.algorithm_procedure_executors@[k])@
                        == before.executors[k].with_paused(true),
                forall|k: int|
                    i <= k < before.executors.len() ==> (
                    #[trigger] self.algorithm_procedure_executors@[k])@ == before.executors[k],
                forall|k: int|
                    0 <= k < before.executors.len() ==> (
                    #[trigger] self.algorithm_procedure_executors@[k]).is_well_formed(),
            decreases self.algorithm_procedure_executors.len() - i,
        {
            let ghost stored = self.algorithm_procedure_executors@;
            self.algorithm_procedure_executors[i].stop_execution();
            assert forall|k: int| 0 <= k < before.executors.len() && k != i implies (
            #[trigger] self.algorithm_procedure_executors@[k]) == stored[k] by {}
            i += 1;
        }
        proof {
            assert(self@.executors =~= before.with_paused(true).executors);
            lemma_script_with_paused(before, true);
        }
    }

    fn tick_execution(&mut self, tick_count: u64) -> (effects: Vec<AlgorithmEffect>)
        ensures
            effects@ == old(self)@.tick_effects(tick_count),
            final(self)@ == old(self)@.after_tick(tick_count),
    {
        let mut effects: Vec<AlgorithmEffect> = Vec::new();
        if self.is_paused {
            proof {
                lemma_script_after_tick(self@, tick_count);
            }
            return effects;
        }
        let ghost before = old(self)@;
        let mut i: usize = 0;
        while i < self.algorithm_procedure_executors.len()
            invariant
                i <= self.algorithm_procedure_executors.len(),
                self.algorithm_procedure_executors.len() == before.executors.len(),
                !self.is_paused,
                self.total_instructions == old(self).total_instructions,
                forall|k: int|
                    0 <= k < i ==> (#[trigger] self.algorithm_procedure_executors@[k])@
                        == before.executors[k].after_tick(tick_count),
                forall|k: int|
                    i <= k < before.executors.len() ==> (
                    #[trigger] self.algorithm_procedure_executors@[k])@ == before.executors[k],
                forall|k: int|
                    0 <= k < before.executors.len() ==> (
                    #[trigger] self.algorithm_procedure_executors@[k]).is_well_formed(),
                effects@ == merged_effects(before.executors.take(i as int), tick_count),
                forall|j: int| 0 <= j < effects@.len() ==> (#[trigger] effects@[j]).is_well_formed(),
            decreases self.algorithm_procedure_executors.len() - i,
        {
            let ghost stored = self.algorithm_procedure_executors@;
            proof {
                assert(before.executors.take(i + 1).drop_last() =~= before.executors.take(
                    i as int,
                ));
                assert(before.executors.take(i + 1).last() == before.executors[i as int]);
            }
            let fired = self.algorithm_procedure_executors[i].tick_execution(tick_count);
            assert forall|k: int| 0 <= k < before.executors.len() && k != i implies (
            #[trigger] self.algorithm_procedure_executors@[k]) == stored[k] by {}
            append_effects(&mut effects, &fired);
            i += 1;
        }
        proof {
            assert(before.executors.take(i as int) =~= before.executors);
            assert(self@.executors =~= before.after_tick(tick_count).executors);
            lemma_script_after_tick(before, tick_count);
        }
        effects
    }

    fn is_complete(&self) -> (r: bool) {
        let mut i: usize = 0;
        while i < self.algorithm_procedure_executors.len()
            invariant
                i <= self.algorithm_procedure_executors.len(),
                self.is_well_formed(),
                forall|k: int| 0 <= k < i ==> (#[trigger] self@.executors[k]).is_complete(),
            decreases self.algorithm_procedure_executors.len() - i,
        {
            if !self.algorithm_procedure_executors[i].is_complete() {
                assert(!self@.executors[i as int].is_complete());
                return false;
            }
            i += 1;
        }
        true
    }

    fn progress(&self) -> (r: u64) {
        let ghost progresses = executor_progresses(self@.executors);
        let ghost totals = executor_totals(self@.executors);
        let mut progress: u64 = 0;
        let mut i: usize = 0;
        while i < self.algorithm_procedure_executors.len()
            invariant
                i <= self.algorithm_procedure_executors.len(),
                self.is_well_formed(),
                progresses == executor_progresses(self@.executors),
                totals == executor_totals(self@.executors),
                progress == sum_of(progresses.take(i as int)),
            decreases self.algorithm_procedure_executors.len() - i,
        {
            proof {
                assert(progresses.take(i + 1).drop_last() =~= progresses.take(i as int));
                assert(progresses.take(i + 1).last() == self@.executors[i as int].progress());
                assert forall|k: int| 0 <= k < i + 1 implies (#[trigger] progresses.take(i + 1)[k])
                    <= totals.take(i + 1)[k] by {
                    assert(self@.executors[k].is_well_formed());
                }
                lemma_sum_pointwise(progresses.take(i + 1), totals.take(i + 1));
                lemma_sum_prefix(totals, i + 1);
                self.algorithm_procedure_executors@[i as int].lemma_well_formed();
            }
            progress = progress + self.algorithm_procedure_executors[i].progress();
            i += 1;
        }
        assert(progresses.take(i as int) =~= progresses);
        progress
    }

    fn total_instructions(&self) -> (r: u64) {
        self.total_instructions
    }
}

} // verus!

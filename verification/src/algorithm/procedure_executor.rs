use crate::algorithm::algorithm::{Algorithm, AlgorithmView};
use crate::algorithm::effect::AlgorithmEffect;
use crate::algorithm::executor::{AlgorithmExecutor, AlgorithmExecutorView};
use crate::algorithm::procedure::{
    algorithm_views, all_well_formed, instruction_total, lemma_instruction_total_first,
    lemma_instruction_total_push, AlgorithmProcedure,
};
use crate::executor::Executor;
use vstd::prelude::*;

verus! {

/// Runs the algorithms of one procedure one after another.
///
/// When a tick finds the active algorithm complete, that algorithm is retired and the
/// next one is started before the tick is handed on. A tick that completes an algorithm
/// with instructions to spare does not carry them into the next algorithm.
pub struct AlgorithmProcedureExecutor {
    algorithms: AlgorithmProcedure,
    finished: Vec<Algorithm>,
    finished_instructions: u64,
    algorithm_executor: AlgorithmExecutor,
    is_paused: bool,
    total_instructions: u64,
}

/// The mathematical content of an [`AlgorithmProcedureExecutor`].
pub struct AlgorithmProcedureExecutorView {
    /// The algorithms not yet started, the next one first.
    pub queue: Seq<AlgorithmView>,
    /// The algorithms already retired, the oldest first.
    pub finished: Seq<AlgorithmView>,
    /// The executor of the active algorithm.
    pub current: AlgorithmExecutorView,
    pub is_paused: bool,
}

impl AlgorithmProcedureExecutorView {
    pub open spec fn total_instructions(self) -> nat {
        instruction_total(self.finished) + self.current.algorithm.instruction_count as nat
            + instruction_total(self.queue)
    }

    pub open spec fn progress(self) -> nat {
        instruction_total(self.finished) + self.current.instruction_pointer as nat
    }

    pub open spec fn is_complete(self) -> bool {
        self.queue.len() == 0 && self.current.is_complete()
    }

    pub open spec fn is_well_formed(self) -> bool {
        &&& self.current.is_well_formed()
        &&& self.current.is_paused == self.is_paused
        &&& all_well_formed(self.queue)
        &&& self.total_instructions() <= u64::MAX
    }

    /// A paused executor at the start of the first algorithm of `procedure`.
    pub open spec fn fresh(procedure: Seq<AlgorithmView>) -> AlgorithmProcedureExecutorView
        recommends
            procedure.len() > 0,
    {
        AlgorithmProcedureExecutorView {
            queue: procedure.subrange(1, procedure.len() as int),
            finished: Seq::empty(),
            current: AlgorithmExecutorView::fresh(procedure[0]),
            is_paused: true,
        }
    }

    pub open spec fn with_paused(self, is_paused: bool) -> AlgorithmProcedureExecutorView {
        AlgorithmProcedureExecutorView {
            current: self.current.with_paused(is_paused),
            is_paused,
            ..self
        }
    }

    /// Retires the active algorithm if it is complete and another one is queued,
    /// and starts that one.
    pub open spec fn advanced(self) -> AlgorithmProcedureExecutorView {
        if self.current.is_complete() && self.queue.len() > 0 {
            AlgorithmProcedureExecutorView {
                queue: self.queue.subrange(1, self.queue.len() as int),
                finished: self.finished.push(self.current.algorithm),
                current: AlgorithmExecutorView::fresh(self.queue[0]).with_paused(false),
                is_paused: self.is_paused,
            }
        } else {
            self
        }
    }

    /// The effects that a tick of `n` fires.
    pub open spec fn tick_effects(self, n: u64) -> Seq<AlgorithmEffect> {
        if self.is_paused {
            Seq::empty()
        } else {
            self.advanced().current.tick_effects(n)
        }
    }

    /// The executor after a tick of `n`.
    pub open spec fn after_tick(self, n: u64) -> AlgorithmProcedureExecutorView {
        if self.is_paused {
            self
        } else {
            AlgorithmProcedureExecutorView {
                current: self.advanced().current.after_tick(n),
                ..self.advanced()
            }
        }
    }
}

/// Advancing to the next algorithm keeps the executor well formed, keeps the total and
/// the progress made.
pub proof fn lemma_advanced(view: AlgorithmProcedureExecutorView)
    requires
        view.is_well_formed(),
        !view.is_paused,
    ensures
        view.advanced().is_well_formed(),
        view.advanced().total_instructions() == view.total_instructions(),
        view.advanced().progress() == view.progress(),
{
    if view.current.is_complete() && view.queue.len() > 0 {
        lemma_instruction_total_first(view.queue);
        lemma_instruction_total_push(view.finished, view.current.algorithm);
        let next = view.advanced();
        assert(view.queue[0].is_well_formed());
        assert forall|i: int| 0 <= i < next.queue.len() implies (
        #[trigger] next.queue[i]).is_well_formed() by {
            assert(next.queue[i] == view.queue[i + 1]);
        }
    }
}

/// A tick keeps the executor well formed and the total unchanged, and never loses
/// progress.
pub proof fn lemma_after_tick(view: AlgorithmProcedureExecutorView, n: u64)
    requires
        view.is_well_formed(),
    ensures
        view.after_tick(n).is_well_formed(),
        view.after_tick(n).total_instructions() == view.total_instructions(),
        view.progress() <= view.after_tick(n).progress() <= view.total_instructions(),
        view.after_tick(n).is_paused == view.is_paused,
{
    if !view.is_paused {
        lemma_advanced(view);
    }
}

/// A fresh executor counts the instructions of every algorithm of its procedure, and
/// has executed none of them.
pub proof fn lemma_fresh_total(procedure: Seq<AlgorithmView>)
    requires
        procedure.len() > 0,
    ensures
        AlgorithmProcedureExecutorView::fresh(procedure).total_instructions() == instruction_total(
            procedure,
        ),
        AlgorithmProcedureExecutorView::fresh(procedure).progress() == 0,
{
    lemma_instruction_total_first(procedure);
    assert(instruction_total(AlgorithmProcedureExecutorView::fresh(procedure).finished) == 0);
}

impl View for AlgorithmProcedureExecutor {
    type V = AlgorithmProcedureExecutorView;

    closed spec fn view(&self) -> AlgorithmProcedureExecutorView {
        AlgorithmProcedureExecutorView {
            queue: self.algorithms@,
            finished: algorithm_views(self.finished@),
            current: self.algorithm_executor@,
            is_paused: self.is_paused,
        }
    }
}

impl AlgorithmProcedureExecutor {
    /// Creates an executor from a procedure, paused at the start of its first algorithm.
    /// If the procedure contains no algorithms, returns None.
    pub fn from(algorithm_procedure: AlgorithmProcedure) -> (r: Option<AlgorithmProcedureExecutor>)
        requires
            algorithm_procedure.is_well_formed(),
            instruction_total(algorithm_procedure@) <= u64::MAX,
        ensures
            algorithm_procedure@.len() == 0 <==> r.is_none(),
            r.is_some() ==> r.unwrap()@ == AlgorithmProcedureExecutorView::fresh(
                algorithm_procedure@,
            ) && r.unwrap().is_well_formed(),
    {
        let total_instructions = algorithm_procedure.instruction_count();
        let mut algorithms = algorithm_procedure;
        match algorithms.next() {
            None => None,
            Some(algorithm_executor) => {
                let executor = AlgorithmProcedureExecutor {
                    algorithms,
                    finished: Vec::new(),
                    finished_instructions: 0,
                    algorithm_executor,
                    is_paused: true,
                    total_instructions,
                };
                proof {
                    lemma_instruction_total_first(algorithm_procedure@);
                    assert(algorithm_procedure@[0].is_well_formed());
                    assert(executor@.finished =~= Seq::empty());
                    assert forall|i: int| 0 <= i < executor@.queue.len() implies (
                    #[trigger] executor@.queue[i]).is_well_formed() by {
                        assert(executor@.queue[i] == algorithm_procedure@[i + 1]);
                    }
                }
                Some(executor)
            },
        }
    }

    /// What the invariant says of the content.
    pub proof fn lemma_well_formed(&self)
        requires
            self.is_well_formed(),
        ensures
            self@.is_well_formed(),
            self.spec_progress() == self@.progress(),
            self.spec_total_instructions() == self@.total_instructions(),
    {
    }
}

impl Executor for AlgorithmProcedureExecutor {
    closed spec fn is_well_formed(&self) -> bool {
        &&& self@.is_well_formed()
        &&& self.finished_instructions == instruction_total(self@.finished)
        &&& self.total_instructions == self@.total_instructions()
    }

    open spec fn is_running(&self) -> bool {
        !self@.is_paused
    }

    open spec fn spec_is_complete(&self) -> bool {
        self@.is_complete()
    }

    closed spec fn spec_progress(&self) -> nat {
        self@.progress()
    }

    closed spec fn spec_total_instructions(&self) -> nat {
        self@.total_instructions()
    }

    fn start_execution(&mut self)
        ensures
            final(self)@ == old(self)@.with_paused(false),
    {
        self.is_paused = false;
        self.algorithm_executor.start_execution();
    }

    fn stop_execution(&mut self)
        ensures
            final(self)@ == old(self)@.with_paused(true),
    {
        self.is_paused = true;
        self.algorithm_executor.stop_execution();
    }

    fn tick_execution(&mut self, tick_count: u64) -> (effects: Vec<AlgorithmEffect>)
        ensures
            effects@ == old(self)@.tick_effects(tick_count),
            final(self)@ == old(self)@.after_tick(tick_count),
    {
        if self.is_paused {
            return Vec::new();
        }
        proof {
            lemma_advanced(self@);
            lemma_after_tick(self@, tick_count);
        }
        if self.algorithm_executor.is_complete() {
            let ghost queue = self.algorithms@;
            match self.algorithms.next() {
                None => {},
                Some(next_executor) => {
                    let mut executor = next_executor;
                    executor.start_execution();
                    std::mem::swap(&mut self.algorithm_executor, &mut executor);
                    let retired = executor.into_algorithm();
                    proof {
                        lemma_instruction_total_push(algorithm_views(self.finished@), retired@);
                        lemma_instruction_total_first(queue);
                    }
                    let ghost before = self.finished@;
                    self.finished_instructions = self.finished_instructions
                        + retired.instruction_count;
                    self.finished.push(retired);
                    assert(algorithm_views(self.finished@) =~= algorithm_views(before).push(
                        retired@,
                    ));
                },
            }
        }
        assert(self@ == old(self)@.advanced());
        self.algorithm_executor.tick_execution(tick_count)
    }

    fn is_complete(&self) -> (r: bool) {
        self.algorithms.is_complete() && self.algorithm_executor.is_complete()
    }

    fn progress(&self) -> (r: u64) {
        self.finished_instructions + self.algorithm_executor.progress()
    }

    fn total_instructions(&self) -> (r: u64) {
        self.total_instructions
    }
}

} // verus!

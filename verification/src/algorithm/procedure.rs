use crate::algorithm::algorithm::{Algorithm, AlgorithmView};
use crate::algorithm::executor::AlgorithmExecutor;
use crate::algorithm::executor::AlgorithmExecutorView;
use crate::algorithm::id::AlgorithmId;
use std::collections::VecDeque;
use vstd::prelude::*;

verus! {

/// The contents of a run of algorithms, in the same order.
pub open spec fn algorithm_views(algorithms: Seq<Algorithm>) -> Seq<AlgorithmView> {
    Seq::new(algorithms.len(), |i: int| algorithms[i]@)
}

/// The sum of the instruction counts of `algorithms`.
pub open spec fn instruction_total(algorithms: Seq<AlgorithmView>) -> nat
    decreases algorithms.len(),
{
    if algorithms.len() == 0 {
        0
    } else {
        instruction_total(algorithms.drop_last()) + algorithms.last().instruction_count as nat
    }
}

/// `algorithms` without those whose id matches `id`, the rest in order.
pub open spec fn without_id(algorithms: Seq<AlgorithmView>, id: AlgorithmId) -> Seq<AlgorithmView>
    decreases algorithms.len(),
{
    if algorithms.len() == 0 {
        Seq::empty()
    } else {
        let rest = without_id(algorithms.drop_last(), id);
        if algorithms.last().id.matches(&id) {
            rest
        } else {
            rest.push(algorithms.last())
        }
    }
}

/// Every algorithm of the run has effects that can all be resolved.
pub open spec fn all_well_formed(algorithms: Seq<AlgorithmView>) -> bool {
    forall|i: int| 0 <= i < algorithms.len() ==> (#[trigger] algorithms[i]).is_well_formed()
}

/// Appending an algorithm adds its instruction count to the total.
pub proof fn lemma_instruction_total_push(algorithms: Seq<AlgorithmView>, last: AlgorithmView)
    ensures
        instruction_total(algorithms.push(last)) == instruction_total(algorithms)
            + last.instruction_count,
{
    assert(algorithms.push(last).drop_last() =~= algorithms);
}

/// The total is the first algorithm's count plus the total of the rest.
pub proof fn lemma_instruction_total_first(algorithms: Seq<AlgorithmView>)
    requires
        algorithms.len() > 0,
    ensures
        instruction_total(algorithms) == algorithms[0].instruction_count + instruction_total(
            algorithms.subrange(1, algorithms.len() as int),
        ),
    decreases algorithms.len(),
{
    let rest = algorithms.subrange(1, algorithms.len() as int);
    if algorithms.len() == 1 {
        assert(instruction_total(algorithms.drop_last()) == 0);
        assert(instruction_total(rest) == 0);
    } else {
        lemma_instruction_total_first(algorithms.drop_last());
        assert(algorithms.drop_last().subrange(1, algorithms.len() - 1) =~= rest.drop_last());
        assert(rest.last() == algorithms.last());
    }
}

/// A prefix never counts more instructions than the whole.
pub proof fn lemma_instruction_total_prefix(algorithms: Seq<AlgorithmView>, n: int)
    requires
        0 <= n <= algorithms.len(),
    ensures
        instruction_total(algorithms.take(n)) <= instruction_total(algorithms),
    decreases algorithms.len(),
{
    if n == algorithms.len() {
        assert(algorithms.take(n) =~= algorithms);
    } else {
        lemma_instruction_total_prefix(algorithms.drop_last(), n);
        assert(algorithms.drop_last().take(n) =~= algorithms.take(n));
    }
}

/// An ordered chain of algorithms, run one after another: one thread of a script.
pub struct AlgorithmProcedure {
    algorithms: VecDeque<Algorithm>,
}

impl View for AlgorithmProcedure {
    type V = Seq<AlgorithmView>;

    /// The algorithms still queued, the next to run first.
    closed spec fn view(&self) -> Seq<AlgorithmView> {
        algorithm_views(self.algorithms@)
    }
}

impl Clone for AlgorithmProcedure {
    fn clone(&self) -> (r: Self)
        ensures
            r@ == self@,
    {
        let mut algorithms: VecDeque<Algorithm> = VecDeque::new();
        let mut i: usize = 0;
        while i < self.algorithms.len()
            invariant
                i <= self.algorithms.len(),
                algorithms@.len() == i,
                algorithm_views(algorithms@) == self@.take(i as int),
            decreases self.algorithms.len() - i,
        {
            let ghost before = algorithms@;
            algorithms.push_back(self.algorithms[i].clone());
            assert forall|k: int| 0 <= k < i + 1 implies algorithm_views(algorithms@)[k]
                == self@[k] by {
                if k < i {
                    assert(algorithms@[k] == before[k]);
                    assert(algorithm_views(before)[k] == self@.take(i as int)[k]);
                }
            }
            assert(algorithm_views(algorithms@) =~= self@.take(i + 1));
            i += 1;
        }
        assert(self@.take(i as int) =~= self@);
        AlgorithmProcedure { algorithms }
    }
}

impl AlgorithmProcedure {
    /// Every queued algorithm has effects that can all be resolved.
    pub open spec fn is_well_formed(&self) -> bool {
        all_well_formed(self@)
    }

    /// Creates a procedure from a slice of algorithms.
    /// The first element of the slice is executed before the second, and so on.
    pub fn from(algorithms: &[Algorithm]) -> (r: Self)
        ensures
            r@ == algorithm_views(algorithms@),
    {
        let mut queue: VecDeque<Algorithm> = VecDeque::new();
        let mut i: usize = 0;
        while i < algorithms.len()
            invariant
                i <= algorithms.len(),
                queue@.len() == i,
                algorithm_views(queue@) == algorithm_views(algorithms@).take(i as int),
            decreases algorithms.len() - i,
        {
            let ghost before = queue@;
            queue.push_back(algorithms[i].clone());
            assert forall|k: int| 0 <= k < i + 1 implies algorithm_views(queue@)[k]
                == algorithm_views(algorithms@)[k] by {
                if k < i {
                    assert(queue@[k] == before[k]);
                    assert(algorithm_views(before)[k] == algorithm_views(algorithms@).take(
                        i as int,
                    )[k]);
                }
            }
            assert(algorithm_views(queue@) =~= algorithm_views(algorithms@).take(i + 1));
            i += 1;
        }
        assert(algorithm_views(algorithms@).take(i as int) =~= algorithm_views(algorithms@));
        AlgorithmProcedure { algorithms: queue }
    }

    /// The algorithms of the procedure, the first to be executed first.
    pub fn algorithms(&self) -> (r: Vec<Algorithm>)
        ensures
            algorithm_views(r@) == self@,
    {
        let mut list: Vec<Algorithm> = Vec::new();
        let mut i: usize = 0;
        while i < self.algorithms.len()
            invariant
                i <= self.algorithms.len(),
                list@.len() == i,
                algorithm_views(list@) == self@.take(i as int),
            decreases self.algorithms.len() - i,
        {
            let ghost before = list@;
            list.push(self.algorithms[i].clone());
            assert forall|k: int| 0 <= k < i + 1 implies algorithm_views(list@)[k] == self@[k] by {
                if k < i {
                    assert(list@[k] == before[k]);
                    assert(algorithm_views(before)[k] == self@.take(i as int)[k]);
                }
            }
            assert(algorithm_views(list@) =~= self@.take(i + 1));
            i += 1;
        }
        assert(self@.take(i as int) =~= self@);
        list
    }

    /// Adds an algorithm to the end of the procedure.
    pub fn add_algorithm(&mut self, algorithm: Algorithm)
        ensures
            final(self)@ == old(self)@.push(algorithm@),
    {
        self.algorithms.push_back(algorithm);
        assert(self@ =~= old(self)@.push(algorithm@));
    }

    /// Removes every algorithm whose id matches that of `algorithm`.
    /// Nothing happens if there is none; an invalid id matches nothing.
    pub fn remove_algorithm(&mut self, algorithm: Algorithm)
        ensures
            final(self)@ == without_id(old(self)@, algorithm@.id),
    {
        let mut kept: VecDeque<Algorithm> = VecDeque::new();
        let ghost start = self@;
        let ghost mut done: int = 0;
        loop
            invariant
                0 <= done <= start.len(),
                start == old(self)@,
                self@ == start.subrange(done, start.len() as int),
                algorithm_views(kept@) == without_id(start.take(done), algorithm@.id),
            decreases start.len() - done,
        {
            let ghost queue = self.algorithms@;
            let ghost kept_before = kept@;
            assert(algorithm_views(queue).len() == queue.len());
            assert(queue.len() == start.len() - done);
            let next = self.algorithms.pop_front();
            match next {
                None => {
                    assert(start.take(done) =~= start);
                    self.algorithms = kept;
                    return ;
                },
                Some(candidate) => {
                    proof {
                        assert(candidate@ == algorithm_views(queue)[0]);
                        assert(candidate@ == start[done]);
                        assert(start.take(done + 1).drop_last() =~= start.take(done));
                        assert(start.take(done + 1).last() == start[done]);
                        assert forall|k: int| 0 <= k < self@.len() implies self@[k] == start[done
                            + 1 + k] by {
                            assert(self.algorithms@[k] == queue[k + 1]);
                            assert(algorithm_views(queue)[k + 1] == start.subrange(
                                done,
                                start.len() as int,
                            )[k + 1]);
                        }
                        assert(self@ =~= start.subrange(done + 1, start.len() as int));
                    }
                    if candidate.id != algorithm.id {
                        kept.push_back(candidate);
                        assert(algorithm_views(kept@) =~= algorithm_views(kept_before).push(
                            candidate@,
                        ));
                    }
                    proof {
                        done = done + 1;
                    }
                },
            }
        }
    }

    /// Returns true when there are no further algorithms in the procedure.
    pub fn is_complete(&self) -> (r: bool)
        ensures
            r == (self@.len() == 0),
    {
        self.algorithms.len() == 0
    }

    /// Pops the next algorithm and returns a paused executor for it.
    /// `None` means that the procedure was already empty.
    pub fn next(&mut self) -> (r: Option<AlgorithmExecutor>)
        ensures
            old(self)@.len() == 0 ==> r.is_none() && final(self)@ == old(self)@,
            old(self)@.len() > 0 ==> r.is_some() && r.unwrap()@ == AlgorithmExecutorView::fresh(
                old(self)@[0],
            ) && final(self)@ == old(self)@.subrange(1, old(self)@.len() as int),
    {
        let ghost queue = self.algorithms@;
        match self.algorithms.pop_front() {
            None => None,
            Some(next_algorithm) => {
                assert(next_algorithm@ == algorithm_views(queue)[0]);
                assert(self@ =~= old(self)@.subrange(1, old(self)@.len() as int));
                Some(AlgorithmExecutor::from(next_algorithm))
            },
        }
    }

    /// The number of instructions the queued algorithms hold together, or `None` when
    /// that number does not fit in 64 bits.
    pub fn checked_instruction_count(&self) -> (r: Option<u64>)
        ensures
            instruction_total(self@) <= u64::MAX ==> r == Some(instruction_total(self@) as u64),
            instruction_total(self@) > u64::MAX ==> r.is_none(),
    {
        let mut total: u64 = 0;
        let mut i: usize = 0;
        while i < self.algorithms.len()
            invariant
                i <= self.algorithms.len(),
                total == instruction_total(self@.take(i as int)),
            decreases self.algorithms.len() - i,
        {
            proof {
                assert(self@.take(i + 1).drop_last() =~= self@.take(i as int));
                assert(self@.take(i + 1).last() == self.algorithms@[i as int]@);
                lemma_instruction_total_prefix(self@, i + 1);
            }
            match total.checked_add(self.algorithms[i].instruction_count) {
                Some(sum) => {
                    total = sum;
                },
                None => {
                    return None;
                },
            }
            i += 1;
        }
        assert(self@.take(i as int) =~= self@);
        Some(total)
    }

    /// The number of instructions the queued algorithms hold together.
    /// This is a current count: each call of [`AlgorithmProcedure::next`] reduces it.
    pub fn instruction_count(&self) -> (r: u64)
        requires
            instruction_total(self@) <= u64::MAX,
        ensures
            r == instruction_total(self@),
    {
        match self.checked_instruction_count() {
            Some(total) => total,
            None => 0,
        }
    }
}

} // verus!

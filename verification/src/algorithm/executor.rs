use crate::algorithm::algorithm::{
    append_effects, fired, lemma_fired_well_formed, table_view, Algorithm, AlgorithmView,
};
use crate::algorithm::effect::AlgorithmEffect;
use crate::executor::Executor;
use vstd::multiset::Multiset;
use vstd::prelude::*;
use vstd::seq_lib::lemma_multiset_commutative;

verus! {

/// Ticks the instruction pointer of one algorithm forward and collects the effects
/// whose thresholds the pointer crosses.
pub struct AlgorithmExecutor {
    algorithm: Algorithm,
    instruction_pointer: u64,
    is_paused: bool,
}

/// The mathematical content of an [`AlgorithmExecutor`].
pub struct AlgorithmExecutorView {
    pub algorithm: AlgorithmView,
    pub instruction_pointer: u64,
    pub is_paused: bool,
}

impl AlgorithmExecutorView {
    /// The pointer never runs past the end, and every effect can be resolved.
    pub open spec fn is_well_formed(self) -> bool {
        &&& self.instruction_pointer <= self.algorithm.instruction_count
        &&& self.algorithm.is_well_formed()
    }

    pub open spec fn is_complete(self) -> bool {
        self.instruction_pointer >= self.algorithm.instruction_count
    }

    /// A paused executor at the start of `algorithm`.
    pub open spec fn fresh(algorithm: AlgorithmView) -> AlgorithmExecutorView {
        AlgorithmExecutorView { algorithm, instruction_pointer: 0, is_paused: true }
    }

    pub open spec fn with_paused(self, is_paused: bool) -> AlgorithmExecutorView {
        AlgorithmExecutorView { is_paused, ..self }
    }

    /// Where the pointer stands after a tick of `n`: advanced by `n`, capped at the
    /// instruction count, and unmoved while paused.
    pub open spec fn pointer_after(self, n: u64) -> u64 {
        if self.is_paused {
            self.instruction_pointer
        } else if self.instruction_pointer + n >= self.algorithm.instruction_count {
            self.algorithm.instruction_count
        } else {
            (self.instruction_pointer + n) as u64
        }
    }

    /// The effects a tick of `n` fires: those of every table entry whose threshold the
    /// pointer crosses, in table order.
    pub open spec fn tick_effects(self, n: u64) -> Seq<AlgorithmEffect> {
        if self.is_paused {
            Seq::empty()
        } else {
            fired(
                self.algorithm.instruction_effects,
                self.instruction_pointer as int,
                self.pointer_after(n) as int,
            )
        }
    }

    /// The executor after a tick of `n`.
    pub open spec fn after_tick(self, n: u64) -> AlgorithmExecutorView {
        AlgorithmExecutorView { instruction_pointer: self.pointer_after(n), ..self }
    }
}

impl View for AlgorithmExecutor {
    type V = AlgorithmExecutorView;

    closed spec fn view(&self) -> AlgorithmExecutorView {
        AlgorithmExecutorView {
            algorithm: self.algorithm@,
            instruction_pointer: self.instruction_pointer,
            is_paused: self.is_paused,
        }
    }
}

impl AlgorithmExecutor {
    /// A paused executor at the start of `algorithm`.
    pub fn from(algorithm: Algorithm) -> (r: AlgorithmExecutor)
        ensures
            r@ == AlgorithmExecutorView::fresh(algorithm@),
    {
        AlgorithmExecutor { algorithm, instruction_pointer: 0, is_paused: true }
    }

    /// The algorithm this executor runs.
    pub fn algorithm(&self) -> (r: &Algorithm)
        ensures
            r@ == self@.algorithm,
    {
        &self.algorithm
    }

    /// Gives the algorithm back, dropping the position.
    pub fn into_algorithm(self) -> (r: Algorithm)
        ensures
            r@ == self@.algorithm,
    {
        self.algorithm
    }
}

impl Executor for AlgorithmExecutor {
    open spec fn is_well_formed(&self) -> bool {
        self@.is_well_formed()
    }

    open spec fn is_running(&self) -> bool {
        !self@.is_paused
    }

    open spec fn spec_is_complete(&self) -> bool {
        self@.is_complete()
    }

    open spec fn spec_progress(&self) -> nat {
        self@.instruction_pointer as nat
    }

    open spec fn spec_total_instructions(&self) -> nat {
        self@.algorithm.instruction_count as nat
    }

    fn start_execution(&mut self)
        ensures
            final(self)@ == old(self)@.with_paused(false),
    {
        self.is_paused = false;
    }

    fn stop_execution(&mut self)
        ensures
            final(self)@ == old(self)@.with_paused(true),
    {
        self.is_paused = true;
    }

    fn tick_execution(&mut self, tick_count: u64) -> (effects: Vec<AlgorithmEffect>)
        ensures
            effects@ == old(self)@.tick_effects(tick_count),
            final(self)@ == old(self)@.after_tick(tick_count),
    {
        let mut effects: Vec<AlgorithmEffect> = Vec::new();
        if self.is_paused {
            return effects;
        }
        let from = self.instruction_pointer;
        let remaining = self.algorithm.instruction_count - from;
        let to = if tick_count >= remaining {
            self.algorithm.instruction_count
        } else {
            from + tick_count
        };
        let ghost table = self@.algorithm.instruction_effects;
        let mut i: usize = 0;
        while i < self.algorithm.instruction_effects.len()
            invariant
                i <= self.algorithm.instruction_effects.len(),
                table == table_view(self.algorithm.instruction_effects@),
                effects@ == fired(table.take(i as int), from as int, to as int),
            decreases self.algorithm.instruction_effects.len() - i,
        {
            let entry = &self.algorithm.instruction_effects[i];
            assert(table.take(i + 1).drop_last() =~= table.take(i as int));
            assert(table.take(i + 1).last() == table[i as int]);
            if from < entry.0 && entry.0 <= to {
                append_effects(&mut effects, &entry.1);
            }
            i += 1;
        }
        assert(table.take(i as int) =~= table);
        self.instruction_pointer = to;
        proof {
            lemma_fired_well_formed(table, from as int, to as int);
        }
        effects
    }

    fn is_complete(&self) -> (r: bool) {
        self.instruction_pointer >= self.algorithm.instruction_count
    }

    fn progress(&self) -> (r: u64) {
        self.instruction_pointer
    }

    fn total_instructions(&self) -> (r: u64) {
        self.algorithm.instruction_count
    }
}

/// The effects of the table entries whose threshold is exactly `at`, in table order.
pub open spec fn fired_at(table: Seq<(u64, Seq<AlgorithmEffect>)>, at: int) -> Seq<AlgorithmEffect>
    decreases table.len(),
{
    if table.len() == 0 {
        Seq::empty()
    } else {
        fired_at(table.drop_last(), at) + (if table.last().0 == at {
            table.last().1
        } else {
            Seq::empty()
        })
    }
}

/// The executor after `count` ticks of one instruction each.
pub open spec fn after_unit_ticks(view: AlgorithmExecutorView, count: nat) -> AlgorithmExecutorView
    decreases count,
{
    if count == 0 {
        view
    } else {
        after_unit_ticks(view.after_tick(1), (count - 1) as nat)
    }
}

/// The effects that `count` ticks of one instruction each fire, in the order of firing.
pub open spec fn unit_tick_effects(view: AlgorithmExecutorView, count: nat) -> Seq<AlgorithmEffect>
    decreases count,
{
    if count == 0 {
        Seq::empty()
    } else {
        view.tick_effects(1) + unit_tick_effects(view.after_tick(1), (count - 1) as nat)
    }
}

/// A tick of one instruction fires exactly the entries whose threshold is the
/// instruction that the pointer reaches.
pub proof fn lemma_unit_window(table: Seq<(u64, Seq<AlgorithmEffect>)>, pointer: int)
    ensures
        fired(table, pointer, pointer + 1) == fired_at(table, pointer + 1),
    decreases table.len(),
{
    if table.len() > 0 {
        lemma_unit_window(table.drop_last(), pointer);
    }
}

/// Where every threshold lies within the algorithm, capping the window at the
/// instruction count loses nothing: the effects of a tick of `n` are those of every
/// entry with a threshold above the pointer and at most `n` beyond it.
pub proof fn lemma_window_within_count(view: AlgorithmExecutorView, n: u64)
    requires
        view.is_well_formed(),
        !view.is_paused,
        forall|i: int|
            0 <= i < view.algorithm.instruction_effects.len() ==> (
            #[trigger] view.algorithm.instruction_effects[i]).0
                <= view.algorithm.instruction_count,
    ensures
        view.tick_effects(n) == fired(
            view.algorithm.instruction_effects,
            view.instruction_pointer as int,
            view.instruction_pointer + n,
        ),
{
    lemma_same_window(
        view.algorithm.instruction_effects,
        view.instruction_pointer as int,
        view.pointer_after(n) as int,
        view.instruction_pointer + n,
        view.algorithm.instruction_count as int,
    );
}

proof fn lemma_same_window(
    table: Seq<(u64, Seq<AlgorithmEffect>)>,
    from: int,
    capped: int,
    to: int,
    limit: int,
)
    requires
        forall|i: int| 0 <= i < table.len() ==> (#[trigger] table[i]).0 <= limit,
        capped == to || (capped == limit && limit <= to),
    ensures
        fired(table, from, capped) == fired(table, from, to),
    decreases table.len(),
{
    if table.len() > 0 {
        let front = table.drop_last();
        assert forall|i: int| 0 <= i < front.len() implies (#[trigger] front[i]).0 <= limit by {
            assert(front[i] == table[i]);
        }
        lemma_same_window(front, from, capped, to, limit);
        assert(table.last() == table[table.len() - 1]);
    }
}

/// The effects of a window are those of its two halves together: every entry fires in
/// exactly one of them.
pub proof fn lemma_fired_split(
    table: Seq<(u64, Seq<AlgorithmEffect>)>,
    from: int,
    middle: int,
    to: int,
)
    requires
        from <= middle <= to,
    ensures
        fired(table, from, to).to_multiset() == fired(table, from, middle).to_multiset().add(
            fired(table, middle, to).to_multiset(),
        ),
    decreases table.len(),
{
    broadcast use vstd::multiset::group_multiset_axioms;

    let nothing = Seq::<AlgorithmEffect>::empty();
    assert(nothing.to_multiset() =~= Multiset::<AlgorithmEffect>::empty()) by {
        nothing.to_multiset_ensures();
    }
    if table.len() == 0 {
        assert(fired(table, from, to).to_multiset() =~= fired(table, from, middle).to_multiset().add(
            fired(table, middle, to).to_multiset(),
        ));
    } else {
        let front = table.drop_last();
        let last = table.last();
        lemma_fired_split(front, from, middle, to);
        let whole = if from < last.0 <= to {
            last.1
        } else {
            nothing
        };
        let first = if from < last.0 <= middle {
            last.1
        } else {
            nothing
        };
        let second = if middle < last.0 <= to {
            last.1
        } else {
            nothing
        };
        lemma_multiset_commutative(fired(front, from, to), whole);
        lemma_multiset_commutative(fired(front, from, middle), first);
        lemma_multiset_commutative(fired(front, middle, to), second);
        assert(whole.to_multiset() =~= first.to_multiset().add(second.to_multiset()));
        assert(fired(table, from, to).to_multiset() =~= fired(table, from, middle).to_multiset().add(
            fired(table, middle, to).to_multiset(),
        ));
    }
}

/// Ticking a running executor by one instruction `count` times moves the pointer by
/// `count`, capped at the instruction count. Started at the beginning, the executor is
/// therefore complete after exactly as many ticks as the algorithm has instructions,
/// and not before.
pub proof fn lemma_unit_ticks_pointer(view: AlgorithmExecutorView, count: nat)
    requires
        view.is_well_formed(),
        !view.is_paused,
    ensures
        after_unit_ticks(view, count) == (AlgorithmExecutorView {
            instruction_pointer: if view.instruction_pointer + count
                >= view.algorithm.instruction_count {
                view.algorithm.instruction_count
            } else {
                (view.instruction_pointer + count) as u64
            },
            ..view
        }),
        view.instruction_pointer == 0 ==> (after_unit_ticks(view, count).is_complete() <==> count
            >= view.algorithm.instruction_count),
    decreases count,
{
    if count > 0 {
        lemma_unit_ticks_pointer(view.after_tick(1), (count - 1) as nat);
    }
}

/// Granular and batched ticking agree: `count` ticks of one instruction fire the same
/// effects, each as often, as one tick of `count` instructions, and leave the executor
/// in the same state. So every threshold fires exactly once however the ticks are cut.
pub proof fn lemma_batched_equals_granular(view: AlgorithmExecutorView, count: u64)
    requires
        view.is_well_formed(),
        !view.is_paused,
    ensures
        unit_tick_effects(view, count as nat).to_multiset() == view.tick_effects(
            count,
        ).to_multiset(),
        after_unit_ticks(view, count as nat) == view.after_tick(count),
    decreases count,
{
    broadcast use vstd::multiset::group_multiset_axioms;

    lemma_unit_ticks_pointer(view, count as nat);
    if count == 0 {
        lemma_empty_window(view.algorithm.instruction_effects, view.instruction_pointer as int);
    } else {
        let next = view.after_tick(1);
        let rest = (count - 1) as u64;
        lemma_batched_equals_granular(next, rest);
        lemma_multiset_commutative(view.tick_effects(1), unit_tick_effects(next, rest as nat));
        lemma_fired_split(
            view.algorithm.instruction_effects,
            view.instruction_pointer as int,
            next.instruction_pointer as int,
            view.pointer_after(count) as int,
        );
        assert(next.pointer_after(rest) == view.pointer_after(count));
    }
}

proof fn lemma_empty_window(table: Seq<(u64, Seq<AlgorithmEffect>)>, at: int)
    ensures
        fired(table, at, at) == Seq::<AlgorithmEffect>::empty(),
    decreases table.len(),
{
    if table.len() > 0 {
        lemma_empty_window(table.drop_last(), at);
    }
}

} // verus!

use crate::algorithm::effect::AlgorithmEffect;
use crate::algorithm::id::AlgorithmId;
use vstd::prelude::*;
use vstd::std_specs::cmp::PartialEqSpecImpl;

verus! {

/// A flat table of effects, indexed by the instruction at which each group fires.
pub struct Algorithm {
    pub id: AlgorithmId,
    /// How many instructions the algorithm contains.
    /// Once all of them are executed, the algorithm is complete.
    pub instruction_count: u64,
    /// Which effects fire at which instruction. Kept and walked in this order.
    pub instruction_effects: Vec<(u64, Vec<AlgorithmEffect>)>,
}

/// The mathematical content of an [`Algorithm`].
pub struct AlgorithmView {
    pub id: AlgorithmId,
    pub instruction_count: u64,
    pub instruction_effects: Seq<(u64, Seq<AlgorithmEffect>)>,
}

/// The content of an effect table: each threshold with the sequence of its effects.
pub open spec fn table_view(table: Seq<(u64, Vec<AlgorithmEffect>)>) -> Seq<
    (u64, Seq<AlgorithmEffect>),
> {
    Seq::new(table.len(), |i: int| (table[i].0, table[i].1@))
}

/// The effects of every table entry whose threshold lies in the window `(from, to]`,
/// flattened in table order.
pub open spec fn fired(table: Seq<(u64, Seq<AlgorithmEffect>)>, from: int, to: int) -> Seq<
    AlgorithmEffect,
>
    decreases table.len(),
{
    if table.len() == 0 {
        Seq::empty()
    } else {
        let last = table.last();
        fired(table.drop_last(), from, to) + (if from < last.0 <= to {
            last.1
        } else {
            Seq::empty()
        })
    }
}

/// Every effect of the table can be resolved.
pub open spec fn table_well_formed(table: Seq<(u64, Seq<AlgorithmEffect>)>) -> bool {
    forall|i: int, j: int|
        0 <= i < table.len() && 0 <= j < table[i].1.len() ==> (
        #[trigger] table[i].1[j]).is_well_formed()
}

impl AlgorithmView {
    pub open spec fn is_well_formed(self) -> bool {
        table_well_formed(self.instruction_effects)
    }
}

impl View for Algorithm {
    type V = AlgorithmView;

    open spec fn view(&self) -> AlgorithmView {
        AlgorithmView {
            id: self.id,
            instruction_count: self.instruction_count,
            instruction_effects: table_view(self.instruction_effects@),
        }
    }
}

/// Appends a copy of `source` to `target`.
pub fn append_effects(target: &mut Vec<AlgorithmEffect>, source: &Vec<AlgorithmEffect>)
    ensures
        final(target)@ == old(target)@ + source@,
{
    let mut i: usize = 0;
    while i < source.len()
        invariant
            i <= source.len(),
            target@ == old(target)@ + source@.take(i as int),
        decreases source.len() - i,
    {
        target.push(source[i]);
        i += 1;
    }
    assert(source@.take(source.len() as int) =~= source@);
}

/// Every effect that fires from a well-formed table is well formed.
pub proof fn lemma_fired_well_formed(table: Seq<(u64, Seq<AlgorithmEffect>)>, from: int, to: int)
    requires
        table_well_formed(table),
    ensures
        forall|k: int|
            0 <= k < fired(table, from, to).len() ==> (#[trigger] fired(
                table,
                from,
                to,
            )[k]).is_well_formed(),
    decreases table.len(),
{
    if table.len() > 0 {
        let front = table.drop_last();
        assert forall|i: int, j: int| 0 <= i < front.len() && 0 <= j < front[i].1.len() implies (
        #[trigger] front[i].1[j]).is_well_formed() by {
            assert(front[i] == table[i]);
        }
        lemma_fired_well_formed(front, from, to);
        let head = fired(front, from, to);
        let last = table.last();
        assert forall|k: int| 0 <= k < fired(table, from, to).len() implies (#[trigger] fired(
            table,
            from,
            to,
        )[k]).is_well_formed() by {
            if k >= head.len() {
                assert(fired(table, from, to)[k] == table[table.len() - 1].1[k - head.len()]);
            }
        }
    }
}

impl Algorithm {
    /// Every effect of the algorithm can be resolved.
    pub open spec fn is_well_formed(&self) -> bool {
        self@.is_well_formed()
    }

    /// Tells whether every effect of the algorithm can be resolved.
    pub fn is_valid(&self) -> (r: bool)
        ensures
            r == self.is_well_formed(),
    {
        let mut i: usize = 0;
        while i < self.instruction_effects.len()
            invariant
                i <= self.instruction_effects.len(),
                forall|a: int, b: int|
                    0 <= a < i && 0 <= b < self@.instruction_effects[a].1.len() ==> (
                    #[trigger] self@.instruction_effects[a].1[b]).is_well_formed(),
            decreases self.instruction_effects.len() - i,
        {
            let effects = &self.instruction_effects[i].1;
            let mut j: usize = 0;
            while j < effects.len()
                invariant
                    i < self.instruction_effects.len(),
                    j <= effects.len(),
                    effects@ == self@.instruction_effects[i as int].1,
                    forall|b: int| 0 <= b < j ==> (#[trigger] effects@[b]).is_well_formed(),
                decreases effects.len() - j,
            {
                if !effects[j].is_valid() {
                    return false;
                }
                j += 1;
            }
            i += 1;
        }
        true
    }
}

impl Clone for Algorithm {
    fn clone(&self) -> (r: Self)
        ensures
            r@ == self@,
    {
        let mut table: Vec<(u64, Vec<AlgorithmEffect>)> = Vec::new();
        let mut i: usize = 0;
        while i < self.instruction_effects.len()
            invariant
                i <= self.instruction_effects.len(),
                table@.len() == i,
                table_view(table@) == table_view(self.instruction_effects@).take(i as int),
            decreases self.instruction_effects.len() - i,
        {
            let mut effects: Vec<AlgorithmEffect> = Vec::new();
            append_effects(&mut effects, &self.instruction_effects[i].1);
            assert(effects@ =~= self.instruction_effects@[i as int].1@);
            let ghost before = table@;
            table.push((self.instruction_effects[i].0, effects));
            assert forall|k: int| 0 <= k < i + 1 implies table_view(table@)[k] == table_view(
                self.instruction_effects@,
            )[k] by {
                if k < i {
                    assert(table@[k] == before[k]);
                    assert(table_view(before)[k] == table_view(self.instruction_effects@).take(
                        i as int,
                    )[k]);
                }
            }
            assert(table_view(table@) =~= table_view(self.instruction_effects@).take(i + 1));
            i += 1;
        }
        assert(table_view(self.instruction_effects@).take(i as int) =~= table_view(
            self.instruction_effects@,
        ));
        Algorithm { id: self.id, instruction_count: self.instruction_count, instruction_effects: table }
    }
}

impl PartialEq for Algorithm {
    /// Algorithms are compared by identity alone.
    fn eq(&self, other: &Self) -> (r: bool) {
        self.id == other.id
    }
}

impl PartialEqSpecImpl for Algorithm {
    open spec fn obeys_eq_spec() -> bool {
        true
    }

    open spec fn eq_spec(&self, other: &Algorithm) -> bool {
        self.id.matches(&other.id)
    }
}

impl Default for Algorithm {
    fn default() -> (r: Self)
        ensures
            r.id is Invalid,
            r.instruction_count == 0,
            r.instruction_effects@.len() == 0,
    {
        Algorithm { id: AlgorithmId::Invalid, instruction_count: 0, instruction_effects: Vec::new() }
    }
}

} // verus!

use crate::algorithm::algorithm::{Algorithm, AlgorithmView};
use crate::algorithm::effect::{AlgorithmEffect, AlgorithmEffectTarget, AlgorithmEffectValue};
use crate::algorithm::id::AlgorithmId;
use crate::algorithm::procedure::{algorithm_views, without_id};
use crate::server::ServerStatType;
use vstd::prelude::*;

verus! {

/// Something the player can hold.
pub enum InventoryItem {
    Algorithm(Algorithm),
}

/// Tells that an item is to be added to the inventory.
pub struct InventoryItemAdded {
    pub item: InventoryItem,
}

/// Tells that an item is to be removed from the inventory.
pub struct InventoryItemRemoved {
    pub item: InventoryItem,
}

/// What the player holds.
pub struct Inventory {
    pub algorithms: Vec<Algorithm>,
}

/// An algorithm with one group of one effect, fired by its last instruction.
pub open spec fn single_effect_algorithm(
    algorithm: AlgorithmView,
    instruction_count: u64,
    effect: AlgorithmEffect,
) -> bool {
    &&& algorithm.id is Id
    &&& algorithm.instruction_count == instruction_count
    &&& algorithm.instruction_effects == seq![(instruction_count, seq![effect])]
}

fn starter(instruction_count: u64, effect: AlgorithmEffect) -> (r: Algorithm)
    ensures
        single_effect_algorithm(r@, instruction_count, effect),
{
    let mut effects: Vec<AlgorithmEffect> = Vec::new();
    effects.push(effect);
    let mut table: Vec<(u64, Vec<AlgorithmEffect>)> = Vec::new();
    table.push((instruction_count, effects));
    let algorithm = Algorithm {
        id: AlgorithmId::random(),
        instruction_count,
        instruction_effects: table,
    };
    assert(algorithm@.instruction_effects =~= seq![(instruction_count, seq![effect])]) by {
        assert(algorithm@.instruction_effects[0].1 =~= seq![effect]);
    }
    algorithm
}

impl Inventory {
    /// The inventory a player starts with: a siphon, a modifier that lowers the
    /// target's siphon resistance, and an exfiltrator, each under a fresh id.
    pub fn new() -> (r: Inventory)
        ensures
            r.algorithms@.len() == 3,
            single_effect_algorithm(
                r.algorithms@[0]@,
                1_000_000,
                AlgorithmEffect::Siphon { potency: AlgorithmEffectValue::RangeInclusive(5, 10) },
            ),
            single_effect_algorithm(
                r.algorithms@[1]@,
                5_000_000,
                AlgorithmEffect::Modify {
                    target: AlgorithmEffectTarget::TargetServer,
                    stat: ServerStatType::SiphonResist,
                    potency: AlgorithmEffectValue::RangeInclusive(-5i32, -1i32),
                },
            ),
            single_effect_algorithm(
                r.algorithms@[2]@,
                3_000_000,
                AlgorithmEffect::Exfil { potency: AlgorithmEffectValue::RangeInclusive(5, 10) },
            ),
    {
        let mut algorithms: Vec<Algorithm> = Vec::new();
        algorithms.push(
            starter(
                1_000_000,
                AlgorithmEffect::Siphon { potency: AlgorithmEffectValue::RangeInclusive(5, 10) },
            ),
        );
        algorithms.push(
            starter(
                5_000_000,
                AlgorithmEffect::Modify {
                    target: AlgorithmEffectTarget::TargetServer,
                    stat: ServerStatType::SiphonResist,
                    potency: AlgorithmEffectValue::RangeInclusive(-5i32, -1i32),
                },
            ),
        );
        algorithms.push(
            starter(
                3_000_000,
                AlgorithmEffect::Exfil { potency: AlgorithmEffectValue::RangeInclusive(5, 10) },
            ),
        );
        Inventory { algorithms }
    }

    /// Adds the item to the inventory, after what is there.
    pub fn add(&mut self, item: InventoryItem)
        ensures
            match item {
                InventoryItem::Algorithm(algorithm) => algorithm_views(final(self).algorithms@)
                    == algorithm_views(old(self).algorithms@).push(algorithm@),
            },
    {
        match item {
            InventoryItem::Algorithm(algorithm) => {
                self.algorithms.push(algorithm);
                assert(algorithm_views(self.algorithms@) =~= algorithm_views(
                    old(self).algorithms@,
                ).push(algorithm@));
            },
        }
    }

    /// Removes every algorithm whose id matches that of the item.
    pub fn remove(&mut self, item: &InventoryItem)
        ensures
            match *item {
                InventoryItem::Algorithm(algorithm) => algorithm_views(final(self).algorithms@)
                    == without_id(algorithm_views(old(self).algorithms@), algorithm@.id),
            },
    {
        match item {
            InventoryItem::Algorithm(algorithm) => {
                let ghost start = algorithm_views(self.algorithms@);
                let mut kept: usize = 0;
                let ghost mut done: int = 0;
                while kept < self.algorithms.len()
                    invariant
                        0 <= done <= start.len(),
                        kept <= self.algorithms.len(),
                        self.algorithms.len() - kept == start.len() - done,
                        algorithm_views(self.algorithms@).take(kept as int) == without_id(
                            start.take(done),
                            algorithm@.id,
                        ),
                        algorithm_views(self.algorithms@).skip(kept as int) == start.skip(done),
                    decreases self.algorithms.len() - kept,
                {
                    let ghost before = algorithm_views(self.algorithms@);
                    proof {
                        assert(before.skip(kept as int)[0] == start.skip(done)[0]);
                        assert(start.take(done + 1).drop_last() =~= start.take(done));
                        assert(start.take(done + 1).last() == start[done]);
                    }
                    if self.algorithms[kept].id == algorithm.id {
                        self.algorithms.remove(kept);
                        proof {
                            let after = algorithm_views(self.algorithms@);
                            assert(after.take(kept as int) =~= before.take(kept as int));
                            assert(after.skip(kept as int) =~= before.skip(kept as int).skip(1));
                            assert(start.skip(done + 1) =~= start.skip(done).skip(1));
                        }
                    } else {
                        proof {
                            assert(before.take(kept + 1) =~= before.take(kept as int).push(
                                before[kept as int],
                            ));
                            assert(before.skip(kept + 1) =~= before.skip(kept as int).skip(1));
                            assert(start.skip(done + 1) =~= start.skip(done).skip(1));
                        }
                        kept += 1;
                    }
                    proof {
                        done = done + 1;
                    }
                }
                proof {
                    assert(algorithm_views(self.algorithms@).take(kept as int)
                        =~= algorithm_views(self.algorithms@));
                    assert(start.take(done) =~= start);
                }
            },
        }
    }
}

} // verus!

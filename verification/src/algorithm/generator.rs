use crate::algorithm::algorithm::Algorithm;
use crate::algorithm::effect::{AlgorithmEffect, AlgorithmEffectTarget, AlgorithmEffectValue};
use crate::algorithm::id::AlgorithmId;
use crate::server::ServerStatType;
use rand::seq::IndexedRandom;
use rand::Rng;
use vstd::prelude::*;

verus! {

/// Makes random algorithms.
pub struct AlgorithmGenerator;

/// Draws one integer with rand's `Rng::random_range` on the closed range `low..=high`,
/// from the thread's generator. The call panics on an empty range, which the
/// precondition excludes; the number lies in the range.
#[verifier::external_body]
fn random_in(low: i32, high: i32) -> (r: i32)
    requires
        low <= high,
    ensures
        low <= r <= high,
{
    rand::rng().random_range(low..=high)
}

/// Draws one integer from rand's `Uniform::new(low, high)`, the half-open range, with
/// the thread's generator. The construction fails only on `low >= high`, which the
/// precondition excludes; the sample is at least `low` and below `high`.
#[verifier::external_body]
fn sample_below(low: u64, high: u64) -> (r: u64)
    requires
        low < high,
    ensures
        low <= r < high,
{
    rand::rng().sample(rand::distr::Uniform::new(low, high).unwrap())
}

/// Picks one of `options` with rand's `IndexedRandom::choose`, which returns `None`
/// only for an empty slice. What comes back is one of the options.
#[verifier::external_body]
fn choose_effect(options: &Vec<AlgorithmEffect>) -> (r: AlgorithmEffect)
    requires
        options@.len() > 0,
    ensures
        options@.contains(r),
{
    *options.choose(&mut rand::rng()).unwrap()
}

/// Whether the effect is one that the generator makes, with a potency in the bounds of
/// its kind: a siphon or an exfiltration of 1 to 9, or of a range within 1 to 10; a
/// modification of -10 to 9, or of a range within -10 to 10. A range spans at least
/// two numbers.
pub open spec fn is_generated_effect(effect: AlgorithmEffect) -> bool {
    match effect {
        AlgorithmEffect::Siphon { potency } => match potency {
            AlgorithmEffectValue::Static(v) => 1 <= v <= 9,
            AlgorithmEffectValue::RangeInclusive(low, high) => 1 <= low <= 8 && low < high <= 10,
        },
        AlgorithmEffect::Exfil { potency } => match potency {
            AlgorithmEffectValue::Static(v) => 1 <= v <= 9,
            AlgorithmEffectValue::RangeInclusive(low, high) => 1 <= low <= 9 && low < high <= 10,
        },
        AlgorithmEffect::Modify { potency, .. } => match potency {
            AlgorithmEffectValue::Static(v) => -10 <= v <= 9,
            AlgorithmEffectValue::RangeInclusive(low, high) => -10 <= low <= 9 && low < high <= 10,
        },
        _ => false,
    }
}

/// How many effects an algorithm gets where `num_effects` are asked for: as many, and
/// one where none is asked for, since every algorithm has an effect.
pub open spec fn effect_count(num_effects: u8) -> u8 {
    if num_effects == 0 {
        1
    } else {
        num_effects
    }
}

/// The effect with another potency.
pub open spec fn effect_with_potency(
    effect: AlgorithmEffect,
    potency: AlgorithmEffectValue,
) -> AlgorithmEffect {
    match effect {
        AlgorithmEffect::Siphon { .. } => AlgorithmEffect::Siphon { potency },
        AlgorithmEffect::Exfil { .. } => AlgorithmEffect::Exfil { potency },
        AlgorithmEffect::Modify { target, stat, .. } => AlgorithmEffect::Modify {
            target,
            stat,
            potency,
        },
        AlgorithmEffect::Purge { target, stat, .. } => AlgorithmEffect::Purge {
            target,
            stat,
            potency,
        },
        AlgorithmEffect::Terminate { .. } => AlgorithmEffect::Terminate { potency },
    }
}

/// Whether the effect is of a kind that the generator makes.
pub open spec fn is_generated_kind(effect: AlgorithmEffect) -> bool {
    effect is Siphon || effect is Exfil || effect is Modify
}

/// The effect with another potency.
pub fn with_potency(effect: AlgorithmEffect, potency: AlgorithmEffectValue) -> (r: AlgorithmEffect)
    ensures
        r == effect_with_potency(effect, potency),
{
    match effect {
        AlgorithmEffect::Siphon { .. } => AlgorithmEffect::Siphon { potency },
        AlgorithmEffect::Exfil { .. } => AlgorithmEffect::Exfil { potency },
        AlgorithmEffect::Modify { target, stat, .. } => AlgorithmEffect::Modify {
            target,
            stat,
            potency,
        },
        AlgorithmEffect::Purge { target, stat, .. } => AlgorithmEffect::Purge {
            target,
            stat,
            potency,
        },
        AlgorithmEffect::Terminate { .. } => AlgorithmEffect::Terminate { potency },
    }
}

/// An algorithm of `base` instructions for each of `effects`, which all fire together
/// on its last instruction.
pub fn assemble(id: AlgorithmId, base: u64, effects: Vec<AlgorithmEffect>) -> (r: Algorithm)
    requires
        base * effects@.len() <= u64::MAX,
    ensures
        r.id == id,
        r.instruction_count == base * effects@.len(),
        r@.instruction_effects == seq![(r.instruction_count, effects@)],
{
    let instruction_count = base * (effects.len() as u64);
    let mut table: Vec<(u64, Vec<AlgorithmEffect>)> = Vec::new();
    table.push((instruction_count, effects));
    let algorithm = Algorithm { id, instruction_count, instruction_effects: table };
    assert(algorithm@.instruction_effects =~= seq![(instruction_count, effects@)]);
    algorithm
}

impl AlgorithmGenerator {
    /// The shapes an effect is picked from: each kind with each of its targets and
    /// stats, once with a single number and once with a range.
    fn effect_options() -> (r: Vec<AlgorithmEffect>)
        ensures
            r@.len() == 12,
            forall|i: int| 0 <= i < r@.len() ==> is_generated_kind(#[trigger] r@[i]),
    {
        let single = AlgorithmEffectValue::Static(0);
        let range = AlgorithmEffectValue::RangeInclusive(0, 0);
        let mut options: Vec<AlgorithmEffect> = Vec::new();
        options.push(AlgorithmEffect::Siphon { potency: single });
        options.push(AlgorithmEffect::Siphon { potency: range });
        options.push(AlgorithmEffect::Exfil { potency: single });
        options.push(AlgorithmEffect::Exfil { potency: range });
        options.push(
            AlgorithmEffect::Modify {
                target: AlgorithmEffectTarget::SelfServer,
                stat: ServerStatType::SiphonResist,
                potency: single,
            },
        );
        options.push(
            AlgorithmEffect::Modify {
                target: AlgorithmEffectTarget::SelfServer,
                stat: ServerStatType::SiphonResist,
                potency: range,
            },
        );
        options.push(
            AlgorithmEffect::Modify {
                target: AlgorithmEffectTarget::SelfServer,
                stat: ServerStatType::ExfilResist,
                potency: single,
            },
        );
        options.push(
            AlgorithmEffect::Modify {
                target: AlgorithmEffectTarget::SelfServer,
                stat: ServerStatType::ExfilResist,
                potency: range,
            },
        );
        options.push(
            AlgorithmEffect::Modify {
                target: AlgorithmEffectTarget::TargetServer,
                stat: ServerStatType::SiphonResist,
                potency: single,
            },
        );
        options.push(
            AlgorithmEffect::Modify {
                target: AlgorithmEffectTarget::TargetServer,
                stat: ServerStatType::SiphonResist,
                potency: range,
            },
        );
        options.push(
            AlgorithmEffect::Modify {
                target: AlgorithmEffectTarget::TargetServer,
                stat: ServerStatType::ExfilResist,
                potency: single,
            },
        );
        options.push(
            AlgorithmEffect::Modify {
                target: AlgorithmEffectTarget::TargetServer,
                stat: ServerStatType::ExfilResist,
                potency: range,
            },
        );
        options
    }

    /// Draws a potency for an effect of the kind and shape of `template`.
    fn draw_potency(template: AlgorithmEffect) -> (r: AlgorithmEffectValue)
        requires
            is_generated_kind(template),
        ensures
            is_generated_effect(effect_with_potency(template, r)),
            (r is Static) == (template.spec_potency() is Static),
    {
        let is_single = match template.potency() {
            AlgorithmEffectValue::Static(_) => true,
            AlgorithmEffectValue::RangeInclusive(_, _) => false,
        };
        match template {
            AlgorithmEffect::Siphon { .. } => {
                if is_single {
                    AlgorithmEffectValue::Static(random_in(1, 9))
                } else {
                    let low = random_in(1, 8);
                    let high = random_in(low + 1, 10);
                    AlgorithmEffectValue::RangeInclusive(low, high)
                }
            },
            AlgorithmEffect::Exfil { .. } => {
                if is_single {
                    AlgorithmEffectValue::Static(random_in(1, 9))
                } else {
                    let low = random_in(1, 9);
                    let high = random_in(low + 1, 10);
                    AlgorithmEffectValue::RangeInclusive(low, high)
                }
            },
            _ => {
                if is_single {
                    AlgorithmEffectValue::Static(random_in(-10, 9))
                } else {
                    let low = random_in(-10, 9);
                    let high = random_in(low + 1, 10);
                    AlgorithmEffectValue::RangeInclusive(low, high)
                }
            },
        }
    }

    /// Makes a random algorithm with `num_effects` effects, and with one where none is
    /// asked for, under a fresh id. It takes between one and three million
    /// instructions for each effect, and fires all of them on its last instruction.
    pub fn generate(num_effects: u8) -> (r: Algorithm)
        ensures
            r.id is Id,
            exists|base: u64|
                1_000_000 <= base < 3_000_000 && r.instruction_count == #[trigger] (base
                    * effect_count(num_effects)),
            r@.instruction_effects.len() == 1,
            r@.instruction_effects[0].0 == r.instruction_count,
            r@.instruction_effects[0].1.len() == effect_count(num_effects),
            forall|i: int|
                0 <= i < effect_count(num_effects) ==> is_generated_effect(
                    #[trigger] r@.instruction_effects[0].1[i],
                ),
            r.is_well_formed(),
    {
        let count: u8 = if num_effects == 0 {
            1
        } else {
            num_effects
        };
        let effect_options = Self::effect_options();
        let mut added_effects: Vec<AlgorithmEffect> = Vec::new();
        let mut i: u8 = 0;
        while i < count
            invariant
                i <= count,
                added_effects@.len() == i,
                effect_options@.len() == 12,
                forall|k: int|
                    0 <= k < effect_options@.len() ==> is_generated_kind(
                        #[trigger] effect_options@[k],
                    ),
                forall|k: int| 0 <= k < i ==> is_generated_effect(#[trigger] added_effects@[k]),
            decreases count - i,
        {
            let template = choose_effect(&effect_options);
            let potency = Self::draw_potency(template);
            added_effects.push(with_potency(template, potency));
            i += 1;
        }
        let base = sample_below(1_000_000, 3_000_000);
        assert(base * added_effects@.len() <= u64::MAX) by (nonlinear_arith)
            requires
                base < 3_000_000,
                added_effects@.len() <= 255,
        ;
        let algorithm = assemble(AlgorithmId::random(), base, added_effects);
        assert(algorithm.instruction_count == base * effect_count(num_effects));
        assert forall|a: int, b: int|
            0 <= a < algorithm@.instruction_effects.len() && 0 <= b
                < algorithm@.instruction_effects[a].1.len() implies (
        #[trigger] algorithm@.instruction_effects[a].1[b]).is_well_formed() by {
            assert(is_generated_effect(algorithm@.instruction_effects[0].1[b]));
        }
        algorithm
    }
}

} // verus!

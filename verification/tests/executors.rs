use exploit_engine::algorithm::algorithm::Algorithm;
use exploit_engine::algorithm::effect::{AlgorithmEffect, AlgorithmEffectValue};
use exploit_engine::algorithm::executor::AlgorithmExecutor;
use exploit_engine::algorithm::id::AlgorithmId;
use exploit_engine::algorithm::procedure::AlgorithmProcedure;
use exploit_engine::algorithm::procedure_executor::AlgorithmProcedureExecutor;
use exploit_engine::executor::Executor;
use exploit_engine::script::{Script, ScriptId};
use std::collections::BTreeMap;

fn plain(instruction_count: u64) -> Algorithm {
    Algorithm { id: AlgorithmId::Invalid, instruction_count, instruction_effects: vec![] }
}

fn siphon(value: i32) -> AlgorithmEffect {
    AlgorithmEffect::Siphon { potency: value.into() }
}

#[test]
fn algorithm_executor_can_complete() {
    let algorithm = Algorithm {
        id: AlgorithmId::Invalid,
        instruction_count: 3,
        instruction_effects: Default::default(),
    };

    let mut executor = AlgorithmExecutor::from(algorithm);

    assert_eq!(executor.is_complete(), false);
    executor.start_execution();
    assert_eq!(executor.is_complete(), false);

    executor.tick_execution(1);
    assert_eq!(executor.is_complete(), false);
    executor.tick_execution(1);
    assert_eq!(executor.is_complete(), false);
    executor.tick_execution(1);
    assert_eq!(executor.is_complete(), true);
}

#[test]
fn algorithm_procedure_executor_can_complete() {
    let algorithm1 = plain(3);
    let algorithm2 = plain(3);

    let procedure = AlgorithmProcedure::from(&[algorithm1, algorithm2]);

    let mut executor = AlgorithmProcedureExecutor::from(procedure).unwrap();

    assert_eq!(executor.is_complete(), false);
    executor.start_execution();
    assert_eq!(executor.is_complete(), false);

    for i in 1..=6 {
        executor.tick_execution(1);
        assert_eq!(executor.is_complete(), i == 6);
    }
}

#[test]
fn script_executor_can_complete() {
    let algorithm1 = Algorithm {
        id: AlgorithmId::Invalid,
        instruction_count: 5,
        instruction_effects: vec![(1, vec![siphon(1)])],
    };

    let algorithm2 = Algorithm {
        id: AlgorithmId::Invalid,
        instruction_count: 10,
        instruction_effects: vec![(5, vec![siphon(1)])],
    };

    let procedure = AlgorithmProcedure::from(&[algorithm1, algorithm2]);

    let script = Script::new(ScriptId::Id(1), vec![procedure]);

    let expected_effects_on_tick = BTreeMap::from([
        // The first algorithm starts at once.
        (1, vec![siphon(1)]),
        // The second one starts after the 5 instructions of the first, and fires 5 later.
        (10, vec![siphon(1)]),
    ]);

    let mut executor = script.into_executor();
    assert_eq!(executor.is_complete(), false);
    executor.start_execution();
    assert_eq!(executor.is_complete(), false);

    let mut current_tick = 0;
    const MAX_TICKS_RUNAWAY_LOOP: usize = 1000;
    while !executor.is_complete() {
        if current_tick >= MAX_TICKS_RUNAWAY_LOOP {
            panic!("script executor never completing!");
        }

        current_tick += 1;

        let expected_effects =
            expected_effects_on_tick.get(&current_tick).unwrap_or(&vec![]).to_owned();
        let actual_effects = executor.tick_execution(1);

        assert_eq!(expected_effects, actual_effects, "Tick {current_tick}");
    }

    assert!(executor.is_complete());
    assert_eq!(current_tick, 15);
    assert_eq!(executor.progress(), 15);
    assert_eq!(executor.total_instructions(), 15);
}

#[test]
fn static_value_resolves_to_itself() {
    assert_eq!(AlgorithmEffectValue::Static(7).make_value(), 7);
    assert_eq!(AlgorithmEffectValue::from(-3).make_value(), -3);
}

fn running(algorithm: Algorithm) -> AlgorithmExecutor {
    let mut executor = AlgorithmExecutor::from(algorithm);
    executor.start_execution();
    executor
}

#[test]
fn executor_is_complete_only_after_the_last_unit_tick() {
    for count in [0u64, 1, 2, 7, 40] {
        let mut executor = running(plain(count));
        for tick in 0..count {
            assert!(!executor.is_complete(), "count {count}, before tick {tick}");
            assert!(executor.tick_execution(1).is_empty());
        }
        assert!(executor.is_complete(), "count {count}");
        assert_eq!(executor.progress(), count);
        assert_eq!(executor.total_instructions(), count);
    }
}

#[test]
fn paused_executor_ignores_ticks() {
    let algorithm = Algorithm {
        id: AlgorithmId::Invalid,
        instruction_count: 4,
        instruction_effects: vec![(1, vec![siphon(1)])],
    };
    let mut executor = AlgorithmExecutor::from(algorithm);
    assert!(executor.tick_execution(3).is_empty());
    assert_eq!(executor.progress(), 0);
    executor.start_execution();
    assert_eq!(executor.tick_execution(3), vec![siphon(1)]);
    assert_eq!(executor.progress(), 3);
    executor.stop_execution();
    assert!(executor.tick_execution(1).is_empty());
    assert_eq!(executor.progress(), 3);
    assert!(!executor.is_complete());
}

#[test]
fn effect_fires_once_on_the_tick_that_reaches_its_threshold() {
    let algorithm = Algorithm {
        id: AlgorithmId::Invalid,
        instruction_count: 6,
        instruction_effects: vec![(4, vec![siphon(9)])],
    };
    let mut executor = running(algorithm);
    for tick in 1..=6u64 {
        let fired = executor.tick_execution(1);
        if tick == 4 {
            assert_eq!(fired, vec![siphon(9)]);
        } else {
            assert!(fired.is_empty(), "tick {tick}");
        }
    }
    assert!(executor.tick_execution(1).is_empty());
    assert!(executor.tick_execution(100).is_empty());
}

#[test]
fn batched_and_granular_ticking_fire_the_same_effects() {
    let table = vec![
        (5, vec![siphon(5)]),
        (2, vec![siphon(2), siphon(22)]),
        (9, vec![siphon(9)]),
        (2, vec![siphon(222)]),
    ];
    let algorithm =
        Algorithm { id: AlgorithmId::Invalid, instruction_count: 9, instruction_effects: table };

    let mut granular = running(algorithm.clone());
    let mut one_by_one = vec![];
    for _ in 0..9 {
        one_by_one.extend(granular.tick_execution(1));
    }
    assert_eq!(one_by_one, vec![siphon(2), siphon(22), siphon(222), siphon(5), siphon(9)]);

    let mut batched = running(algorithm.clone());
    let at_once = batched.tick_execution(9);
    // One batch walks the table in its own order.
    assert_eq!(at_once, vec![siphon(5), siphon(2), siphon(22), siphon(9), siphon(222)]);

    let mut left = one_by_one.clone();
    let mut right = at_once.clone();
    left.sort_by_key(|e| format!("{e:?}"));
    right.sort_by_key(|e| format!("{e:?}"));
    assert_eq!(left, right);
    assert_eq!(granular.progress(), batched.progress());

    let mut oversized = running(algorithm);
    assert_eq!(oversized.tick_execution(u64::MAX).len(), 5);
    assert_eq!(oversized.progress(), 9);
    assert!(oversized.is_complete());
}

#[test]
fn threshold_beyond_the_instruction_count_never_fires() {
    let algorithm = Algorithm {
        id: AlgorithmId::Invalid,
        instruction_count: 3,
        instruction_effects: vec![(4, vec![siphon(1)]), (3, vec![siphon(3)]), (0, vec![siphon(0)])],
    };
    let mut executor = running(algorithm);
    assert_eq!(executor.tick_execution(10), vec![siphon(3)]);
    assert!(executor.tick_execution(10).is_empty());
}

#[test]
fn procedure_total_is_the_sum_and_stays_constant() {
    let procedure = AlgorithmProcedure::from(&[plain(3), plain(0), plain(4)]);
    assert_eq!(procedure.instruction_count(), 7);
    assert_eq!(procedure.checked_instruction_count(), Some(7));
    let mut executor = AlgorithmProcedureExecutor::from(procedure).unwrap();
    executor.start_execution();
    let mut last_progress = 0;
    for _ in 0..12 {
        assert_eq!(executor.total_instructions(), 7);
        executor.tick_execution(1);
        assert!(executor.progress() >= last_progress);
        assert!(executor.progress() <= 7);
        last_progress = executor.progress();
    }
    assert_eq!(executor.progress(), 7);
    assert!(executor.is_complete());
}

#[test]
fn procedure_count_that_overflows_is_reported() {
    let procedure = AlgorithmProcedure::from(&[plain(u64::MAX), plain(1)]);
    assert_eq!(procedure.checked_instruction_count(), None);
    let procedure = AlgorithmProcedure::from(&[plain(u64::MAX - 1), plain(1)]);
    assert_eq!(procedure.checked_instruction_count(), Some(u64::MAX));
}

#[test]
fn ticks_left_over_at_the_end_of_an_algorithm_are_dropped() {
    let first = Algorithm {
        id: AlgorithmId::Invalid,
        instruction_count: 3,
        instruction_effects: vec![(3, vec![siphon(1)])],
    };
    let second = Algorithm {
        id: AlgorithmId::Invalid,
        instruction_count: 3,
        instruction_effects: vec![(1, vec![siphon(2)])],
    };
    let mut executor =
        AlgorithmProcedureExecutor::from(AlgorithmProcedure::from(&[first, second])).unwrap();
    executor.start_execution();
    // Five ticks complete the first algorithm; the two that are left are lost.
    assert_eq!(executor.tick_execution(5), vec![siphon(1)]);
    assert_eq!(executor.progress(), 3);
    assert!(!executor.is_complete());
    // The next tick retires the first algorithm and runs on the second.
    assert_eq!(executor.tick_execution(1), vec![siphon(2)]);
    assert_eq!(executor.progress(), 4);
}

#[test]
fn empty_procedure_has_no_executor() {
    assert!(AlgorithmProcedureExecutor::from(AlgorithmProcedure::from(&[])).is_none());
}

#[test]
fn script_is_complete_only_when_both_procedures_are() {
    let script = Script::new(
        ScriptId::Id(7),
        vec![
            AlgorithmProcedure::from(&[plain(3)]),
            AlgorithmProcedure::from(&[]),
            AlgorithmProcedure::from(&[plain(5)]),
        ],
    );
    assert!(script.is_valid());
    let mut executor = script.executor();
    assert_eq!(executor.total_instructions(), 8);
    executor.start_execution();
    for tick in 1..=5u64 {
        executor.tick_execution(1);
        assert_eq!(executor.is_complete(), tick == 5, "tick {tick}");
        assert_eq!(executor.progress(), tick.min(3) + tick);
    }
    assert_eq!(executor.total_instructions(), 8);
}

#[test]
fn script_merges_effects_in_procedure_order() {
    let a = Algorithm {
        id: AlgorithmId::Invalid,
        instruction_count: 2,
        instruction_effects: vec![(1, vec![siphon(1)])],
    };
    let b = Algorithm {
        id: AlgorithmId::Invalid,
        instruction_count: 2,
        instruction_effects: vec![(1, vec![siphon(2)])],
    };
    let script = Script::new(
        ScriptId::Id(1),
        vec![AlgorithmProcedure::from(&[a]), AlgorithmProcedure::from(&[b])],
    );
    let mut executor = script.into_executor();
    // Not started: the procedures are paused.
    assert!(executor.tick_execution(1).is_empty());
    executor.start_execution();
    assert_eq!(executor.tick_execution(1), vec![siphon(1), siphon(2)]);
    executor.stop_execution();
    assert!(executor.tick_execution(1).is_empty());
    assert_eq!(executor.progress(), 2);
}

#[test]
fn script_with_an_unresolvable_range_is_not_valid() {
    let broken = Algorithm {
        id: AlgorithmId::Invalid,
        instruction_count: 2,
        instruction_effects: vec![(
            1,
            vec![AlgorithmEffect::Siphon { potency: AlgorithmEffectValue::RangeInclusive(3, 2) }],
        )],
    };
    assert!(!broken.is_valid());
    assert!(!Script::new(ScriptId::Id(1), vec![AlgorithmProcedure::from(&[broken])]).is_valid());
    let too_long = Script::new(
        ScriptId::Id(1),
        vec![
            AlgorithmProcedure::from(&[plain(u64::MAX)]),
            AlgorithmProcedure::from(&[plain(1)]),
        ],
    );
    assert!(!too_long.is_valid());
}

use exploit_engine::algorithm::algorithm::Algorithm;
use exploit_engine::algorithm::effect::{
    AlgorithmEffect, AlgorithmEffectTarget, AlgorithmEffectValue, RangeOutOfOrder,
};
use exploit_engine::algorithm::generator::{assemble, with_potency, AlgorithmGenerator};
use exploit_engine::algorithm::id::AlgorithmId;
use exploit_engine::algorithm::procedure::AlgorithmProcedure;
use exploit_engine::inventory::{Inventory, InventoryItem};
use exploit_engine::player::{ReputationType, Reputations};
use exploit_engine::script::{ScriptBuilder, ScriptId};
use exploit_engine::server::ServerStatType;
use exploit_engine::tutorial::progression::TutorialProgression;
use exploit_engine::tutorial::systems::{
    tutorial_on_event, tutorial_prompt, TutorialEvent, TutorialPrompt,
};

#[test]
fn range_resolves_within_its_bounds() {
    let value = AlgorithmEffectValue::RangeInclusive(3, 7);
    let mut seen = [false; 5];
    for _ in 0..2000 {
        let drawn = value.make_value();
        assert!((3..=7).contains(&drawn));
        seen[(drawn - 3) as usize] = true;
    }
    assert_eq!(seen, [true; 5]);
    assert_eq!(AlgorithmEffectValue::RangeInclusive(-4, -4).make_value(), -4);
    let top = AlgorithmEffectValue::RangeInclusive(i32::MAX - 1, i32::MAX).make_value();
    assert!(top >= i32::MAX - 1);
}

#[test]
fn values_are_built_and_validated() {
    assert_eq!(AlgorithmEffectValue::from(4), AlgorithmEffectValue::Static(4));
    assert_eq!(
        AlgorithmEffectValue::try_from(5..10),
        Ok(AlgorithmEffectValue::RangeInclusive(5, 10))
    );
    assert_eq!(
        AlgorithmEffectValue::try_from(4..4),
        Ok(AlgorithmEffectValue::RangeInclusive(4, 4))
    );
    assert_eq!(
        AlgorithmEffectValue::try_from(5..1),
        Err(RangeOutOfOrder { low: 5, high: 1 })
    );
    assert_eq!(
        AlgorithmEffectValue::range_inclusive(2, 2),
        Some(AlgorithmEffectValue::RangeInclusive(2, 2))
    );
    assert_eq!(AlgorithmEffectValue::range_inclusive(3, 2), None);
    assert!(AlgorithmEffectValue::Static(-1).is_valid());
    assert!(!AlgorithmEffectValue::RangeInclusive(1, 0).is_valid());
    let effect = AlgorithmEffect::Terminate { potency: AlgorithmEffectValue::RangeInclusive(1, 0) };
    assert!(!effect.is_valid());
    assert_eq!(effect.potency(), AlgorithmEffectValue::RangeInclusive(1, 0));
}

#[test]
fn algorithms_are_compared_by_id() {
    let a = Algorithm { id: AlgorithmId::Id(1), instruction_count: 1, instruction_effects: vec![] };
    let b = Algorithm { id: AlgorithmId::Id(1), instruction_count: 9, instruction_effects: vec![] };
    let c = Algorithm { id: AlgorithmId::Id(2), instruction_count: 1, instruction_effects: vec![] };
    assert!(a == b);
    assert!(a != c);
    let nameless = Algorithm::default();
    assert!(nameless != nameless.clone());
    assert_eq!(nameless.instruction_count, 0);
    assert!(nameless.instruction_effects.is_empty());
}

#[test]
fn procedure_keeps_execution_order() {
    let mut procedure = AlgorithmProcedure::from(&[
        Algorithm { id: AlgorithmId::Id(1), instruction_count: 1, instruction_effects: vec![] },
        Algorithm { id: AlgorithmId::Id(2), instruction_count: 2, instruction_effects: vec![] },
    ]);
    procedure.add_algorithm(Algorithm {
        id: AlgorithmId::Id(3),
        instruction_count: 3,
        instruction_effects: vec![],
    });
    procedure.add_algorithm(Algorithm {
        id: AlgorithmId::Id(2),
        instruction_count: 4,
        instruction_effects: vec![],
    });
    let counts: Vec<u64> = procedure.algorithms().iter().map(|a| a.instruction_count).collect();
    assert_eq!(counts, vec![1, 2, 3, 4]);
    assert_eq!(procedure.instruction_count(), 10);

    procedure.remove_algorithm(Algorithm {
        id: AlgorithmId::Id(2),
        instruction_count: 0,
        instruction_effects: vec![],
    });
    let counts: Vec<u64> = procedure.algorithms().iter().map(|a| a.instruction_count).collect();
    assert_eq!(counts, vec![1, 3]);
    procedure.remove_algorithm(Algorithm::default());
    assert_eq!(procedure.algorithms().len(), 2);

    assert!(!procedure.is_complete());
    let first = procedure.next().unwrap();
    assert_eq!(first.algorithm().instruction_count, 1);
    assert_eq!(procedure.instruction_count(), 3);
    assert!(procedure.next().is_some());
    assert!(procedure.next().is_none());
    assert!(procedure.is_complete());
}

#[test]
fn builder_fills_the_first_procedure() {
    let mut builder = ScriptBuilder::new();
    assert!(builder.is_empty());
    assert_eq!(builder.current_script().id, ScriptId::Invalid);
    builder.add_algorithm(Algorithm {
        id: AlgorithmId::Id(1),
        instruction_count: 1,
        instruction_effects: vec![],
    });
    builder.add_algorithm(Algorithm {
        id: AlgorithmId::Id(2),
        instruction_count: 2,
        instruction_effects: vec![],
    });
    assert!(!builder.is_empty());
    assert_eq!(builder.current_script().procedures.len(), 1);
    builder.remove_algorithm(Algorithm {
        id: AlgorithmId::Id(1),
        instruction_count: 0,
        instruction_effects: vec![],
    });
    let script = builder.finish();
    let counts: Vec<u64> =
        script.procedures[0].algorithms().iter().map(|a| a.instruction_count).collect();
    assert_eq!(counts, vec![2]);
}

#[test]
fn generated_algorithm_is_within_bounds() {
    for num_effects in [0u8, 1, 2, 5, 255] {
        for _ in 0..40 {
            let algorithm = AlgorithmGenerator::generate(num_effects);
            assert!(matches!(algorithm.id, AlgorithmId::Id(_)));
            assert!(algorithm.is_valid());
            let n = num_effects.max(1) as u64;
            assert!(algorithm.instruction_count >= 1_000_000 * n);
            assert!(algorithm.instruction_count < 3_000_000 * n);
            assert_eq!(algorithm.instruction_count % n, 0);
            assert_eq!(algorithm.instruction_effects.len(), 1);
            let (threshold, effects) = &algorithm.instruction_effects[0];
            assert_eq!(*threshold, algorithm.instruction_count);
            assert_eq!(effects.len(), n as usize);
            for effect in effects {
                let (floor, low_top) = match effect {
                    AlgorithmEffect::Siphon { .. } => (1, 8),
                    AlgorithmEffect::Exfil { .. } => (1, 9),
                    AlgorithmEffect::Modify { .. } => (-10, 9),
                    other => panic!("not generated: {other:?}"),
                };
                match effect.potency() {
                    AlgorithmEffectValue::Static(v) => assert!(floor <= v && v <= 9),
                    AlgorithmEffectValue::RangeInclusive(low, high) => {
                        assert!(floor <= low && low <= low_top);
                        assert!(low < high && high <= 10);
                    }
                }
            }
        }
    }
}

#[test]
fn generator_draws_every_kind_and_varies() {
    let mut kinds = [false; 3];
    let mut counts = std::collections::BTreeSet::new();
    for _ in 0..400 {
        let algorithm = AlgorithmGenerator::generate(1);
        counts.insert(algorithm.instruction_count);
        match algorithm.instruction_effects[0].1[0] {
            AlgorithmEffect::Siphon { .. } => kinds[0] = true,
            AlgorithmEffect::Exfil { .. } => kinds[1] = true,
            AlgorithmEffect::Modify { .. } => kinds[2] = true,
            _ => {}
        }
    }
    assert_eq!(kinds, [true; 3]);
    assert!(counts.len() > 100);
}

#[test]
fn potency_is_replaced_and_algorithm_assembled() {
    let template = AlgorithmEffect::Modify {
        target: AlgorithmEffectTarget::TargetServer,
        stat: ServerStatType::ExfilResist,
        potency: AlgorithmEffectValue::Static(0),
    };
    let filled = with_potency(template, AlgorithmEffectValue::RangeInclusive(-2, 3));
    assert_eq!(
        filled,
        AlgorithmEffect::Modify {
            target: AlgorithmEffectTarget::TargetServer,
            stat: ServerStatType::ExfilResist,
            potency: AlgorithmEffectValue::RangeInclusive(-2, 3),
        }
    );
    let algorithm = assemble(AlgorithmId::Id(5), 1_500_000, vec![filled, filled]);
    assert_eq!(algorithm.instruction_count, 3_000_000);
    assert_eq!(algorithm.instruction_effects, vec![(3_000_000, vec![filled, filled])]);
}

#[test]
fn starting_inventory_holds_three_algorithms() {
    let mut inventory = Inventory::new();
    let counts: Vec<u64> = inventory.algorithms.iter().map(|a| a.instruction_count).collect();
    assert_eq!(counts, vec![1_000_000, 5_000_000, 3_000_000]);
    assert_eq!(
        inventory.algorithms[0].instruction_effects,
        vec![(
            1_000_000,
            vec![AlgorithmEffect::Siphon { potency: AlgorithmEffectValue::RangeInclusive(5, 10) }]
        )]
    );
    assert_eq!(
        inventory.algorithms[1].instruction_effects,
        vec![(
            5_000_000,
            vec![AlgorithmEffect::Modify {
                target: AlgorithmEffectTarget::TargetServer,
                stat: ServerStatType::SiphonResist,
                potency: AlgorithmEffectValue::RangeInclusive(-5, -1),
            }]
        )]
    );
    assert_eq!(
        inventory.algorithms[2].instruction_effects,
        vec![(
            3_000_000,
            vec![AlgorithmEffect::Exfil { potency: AlgorithmEffectValue::RangeInclusive(5, 10) }]
        )]
    );
    assert!(inventory.algorithms[0].id != inventory.algorithms[1].id);

    let second = inventory.algorithms[1].clone();
    inventory.remove(&InventoryItem::Algorithm(second));
    let counts: Vec<u64> = inventory.algorithms.iter().map(|a| a.instruction_count).collect();
    assert_eq!(counts, vec![1_000_000, 3_000_000]);
    inventory.add(InventoryItem::Algorithm(Algorithm::default()));
    assert_eq!(inventory.algorithms.len(), 3);
    inventory.remove(&InventoryItem::Algorithm(Algorithm::default()));
    assert_eq!(inventory.algorithms.len(), 3);
}

#[test]
fn reputations_start_at_zero() {
    let mut reputations = Reputations::new();
    assert_eq!(reputations.get(ReputationType::Extract), 0);
    *reputations.get_mut(ReputationType::Extract) += 5;
    assert_eq!(reputations.get(ReputationType::Extract), 5);
    *reputations.get_mut(ReputationType::Extract) += 2;
    assert_eq!(reputations.get(ReputationType::Extract), 7);
    reputations.set(ReputationType::Extract, 1);
    assert_eq!(reputations.get(ReputationType::Extract), 1);
}

#[test]
fn tutorial_advances_step_by_step() {
    let mut step = TutorialProgression::NotOffered;
    step.advance();
    assert_eq!(step, TutorialProgression::NotOffered);
    let mut step = TutorialProgression::Skipped;
    step.advance();
    assert_eq!(step, TutorialProgression::Skipped);
    assert!(step.is_complete() && step.show_exploit_tab());

    let mut step = TutorialProgression::Start;
    let expected = [
        (TutorialProgression::ServersTabIntroduced, [true, false, false, false]),
        (TutorialProgression::ServerClicked, [true, false, false, false]),
        (TutorialProgression::DevelopScriptsIntroduced, [true, true, false, false]),
        (TutorialProgression::ScriptClicked, [true, true, false, false]),
        (TutorialProgression::MarketTabIntroduced, [true, true, true, false]),
        (TutorialProgression::MarketTabClicked, [true, true, true, false]),
        (TutorialProgression::ExploitTabIntroduced, [true, true, true, true]),
        (TutorialProgression::ExploitServersShown, [true, true, true, true]),
        (TutorialProgression::ExploitCreditsReceived, [true, true, true, true]),
        (TutorialProgression::Complete, [true, true, true, true]),
    ];
    assert!(!step.show_servers_tab());
    for (next, tabs) in expected {
        assert!(!step.is_complete());
        step.advance();
        assert_eq!(step, next);
        assert_eq!(
            [
                step.show_servers_tab(),
                step.show_develop_tab(),
                step.show_market_tab(),
                step.show_exploit_tab()
            ],
            tabs
        );
    }
    assert!(step.is_complete());
    step.advance();
    assert_eq!(step, TutorialProgression::Complete);
}

#[test]
fn tutorial_waits_for_what_each_step_asks() {
    let mut step = TutorialProgression::NotOffered;
    assert_eq!(tutorial_prompt(&step), TutorialPrompt::AskStart);
    tutorial_on_event(&mut step, TutorialEvent::Continued);
    tutorial_on_event(&mut step, TutorialEvent::ServerClicked);
    assert_eq!(step, TutorialProgression::NotOffered);
    let mut skipped = step;
    tutorial_on_event(&mut skipped, TutorialEvent::Declined);
    assert_eq!(skipped, TutorialProgression::Skipped);
    assert_eq!(tutorial_prompt(&skipped), TutorialPrompt::Hidden);
    tutorial_on_event(&mut skipped, TutorialEvent::Accepted);
    assert_eq!(skipped, TutorialProgression::Skipped);

    let course = [
        (TutorialEvent::Accepted, TutorialProgression::Start, 1, true),
        (TutorialEvent::Continued, TutorialProgression::ServersTabIntroduced, 2, false),
        (TutorialEvent::ServerClicked, TutorialProgression::ServerClicked, 3, true),
        (TutorialEvent::Continued, TutorialProgression::DevelopScriptsIntroduced, 4, false),
        (TutorialEvent::ScriptsTabClicked, TutorialProgression::ScriptClicked, 5, false),
        (TutorialEvent::ScriptCreated, TutorialProgression::MarketTabIntroduced, 6, false),
        (TutorialEvent::MarketTabClicked, TutorialProgression::MarketTabClicked, 7, true),
        (TutorialEvent::Continued, TutorialProgression::ExploitTabIntroduced, 8, false),
        (TutorialEvent::ExploitTabClicked, TutorialProgression::ExploitServersShown, 9, false),
        (TutorialEvent::CreditsReceived, TutorialProgression::ExploitCreditsReceived, 10, true),
    ];
    let all = [
        TutorialEvent::Accepted,
        TutorialEvent::Declined,
        TutorialEvent::Continued,
        TutorialEvent::ServerClicked,
        TutorialEvent::ScriptsTabClicked,
        TutorialEvent::MarketTabClicked,
        TutorialEvent::ExploitTabClicked,
        TutorialEvent::ScriptCreated,
        TutorialEvent::CreditsReceived,
    ];
    for (event, reached, number, can_continue) in course {
        for other in all {
            let answers_the_question =
                step == TutorialProgression::NotOffered && other == TutorialEvent::Declined;
            if other != event && !answers_the_question {
                let mut unmoved = step;
                tutorial_on_event(&mut unmoved, other);
                assert_eq!(unmoved, step, "{other:?} at {step:?}");
            }
        }
        tutorial_on_event(&mut step, event);
        assert_eq!(step, reached);
        assert_eq!(tutorial_prompt(&step), TutorialPrompt::Stage { number, can_continue });
    }
    tutorial_on_event(&mut step, TutorialEvent::Continued);
    assert_eq!(step, TutorialProgression::Complete);
    assert_eq!(tutorial_prompt(&step), TutorialPrompt::Hidden);
}

use exploit_engine::algorithm::effect::{
    AlgorithmEffect, AlgorithmEffectTarget, AlgorithmEffectValue,
};
use exploit_engine::resolver::{
    damaged_health, effect_applies, effect_scope, resolve_effect, EffectResolution,
};
use exploit_engine::script::ScriptId;
use exploit_engine::server::{
    Server, ServerStatInstance, ServerStatSource, ServerStatType, ServerStats,
};

fn innate(stat: ServerStatType, value: i32) -> ServerStatInstance {
    ServerStatInstance::new(ServerStatSource::Innate, stat, value)
}

fn scripted(id: u64, stat: ServerStatType, value: i32) -> ServerStatInstance {
    ServerStatInstance::new(ServerStatSource::Script(ScriptId::Id(id)), stat, value)
}

const SIPHON: ServerStatType = ServerStatType::SiphonResist;
const EXFIL: ServerStatType = ServerStatType::ExfilResist;

#[test]
fn stat_instance_keeps_its_parts() {
    let entry = scripted(4, EXFIL, -9);
    assert_eq!(entry.source(), &ServerStatSource::Script(ScriptId::Id(4)));
    assert_eq!(entry.stat_type(), &EXFIL);
    assert_eq!(entry.value(), -9);
}

#[test]
fn empty_server_has_nothing() {
    let server = Server::empty();
    assert_eq!(server.name, "");
    assert_eq!(server.threads, 0);
    assert_eq!(server.clock_speed_hz, 0);
    assert!(server.stats.instances().is_empty());
    assert_eq!(server.stats.value_of(SIPHON), 0);
    assert!(server.stats.stat_values().is_empty());
    assert!(server.stats.stat_instances().is_empty());
}

#[test]
fn value_counts_every_source_and_modification_only_scripts() {
    let stats = ServerStats::from(vec![
        innate(SIPHON, 5),
        scripted(1, SIPHON, -2),
        innate(EXFIL, 10),
        scripted(2, SIPHON, 4),
        scripted(1, EXFIL, -3),
    ]);
    assert_eq!(stats.value_of(SIPHON), 7);
    assert_eq!(stats.modification_of(SIPHON), 2);
    assert_eq!(stats.value_of(EXFIL), 7);
    assert_eq!(stats.modification_of(EXFIL), -3);
    assert_eq!(stats.stat_values(), vec![(SIPHON, 7), (EXFIL, 7)]);
    assert_eq!(
        stats.stat_instances(),
        vec![
            (SIPHON, vec![innate(SIPHON, 5), scripted(1, SIPHON, -2), scripted(2, SIPHON, 4)]),
            (EXFIL, vec![innate(EXFIL, 10), scripted(1, EXFIL, -3)]),
        ]
    );
}

#[test]
fn groups_leave_out_stats_without_entries() {
    let stats = ServerStats::from(vec![innate(EXFIL, 0)]);
    assert_eq!(stats.stat_values(), vec![(EXFIL, 0)]);
    assert_eq!(stats.stat_instances(), vec![(EXFIL, vec![innate(EXFIL, 0)])]);
}

#[test]
fn sums_do_not_depend_on_order() {
    let entries =
        vec![innate(SIPHON, 5), scripted(1, SIPHON, -2), scripted(2, SIPHON, 40), innate(EXFIL, 1)];
    let mut reversed = entries.clone();
    reversed.reverse();
    let forward = ServerStats::from(entries);
    let backward = ServerStats::from(reversed);
    assert_eq!(forward.value_of(SIPHON), backward.value_of(SIPHON));
    assert_eq!(forward.modification_of(SIPHON), backward.modification_of(SIPHON));
    assert_eq!(forward.value_of(SIPHON), 43);
}

#[test]
fn sums_beyond_i32_are_reported_as_the_nearest_bound() {
    let high = ServerStats::from(vec![innate(SIPHON, i32::MAX), scripted(1, SIPHON, 1)]);
    assert_eq!(high.value_of(SIPHON), i32::MAX);
    assert_eq!(high.modification_of(SIPHON), 1);
    let low = ServerStats::from(vec![scripted(1, EXFIL, i32::MIN), scripted(1, EXFIL, -1)]);
    assert_eq!(low.value_of(EXFIL), i32::MIN);
    let back = ServerStats::from(vec![
        innate(SIPHON, i32::MAX),
        innate(SIPHON, i32::MAX),
        innate(SIPHON, i32::MIN),
    ]);
    assert_eq!(back.value_of(SIPHON), i32::MAX - 1);
}

#[test]
fn apply_and_purge_only_appends() {
    let mut stats = ServerStats::new();
    assert!(stats.apply_and_purge(scripted(1, SIPHON, 3)).is_empty());
    assert!(stats.apply_and_purge(scripted(1, SIPHON, -3)).is_empty());
    assert_eq!(stats.instances(), &vec![scripted(1, SIPHON, 3), scripted(1, SIPHON, -3)]);
    assert_eq!(stats.value_of(SIPHON), 0);
}

fn fixed(value: i32) -> AlgorithmEffectValue {
    AlgorithmEffectValue::Static(value)
}

#[test]
fn siphon_against_no_resistance_gains_the_roll() {
    let mut stats = ServerStats::new();
    let effect = AlgorithmEffect::Siphon { potency: fixed(1) };
    let roll = effect.potency().make_value();
    assert_eq!(
        resolve_effect(effect, roll, ScriptId::Id(1), &mut stats, 10),
        EffectResolution::Siphoned { roll: 1, credits: 1 }
    );
    assert!(stats.instances().is_empty());
}

#[test]
fn siphon_is_reduced_by_resistance_and_floored_at_zero() {
    let mut stats = ServerStats::from(vec![innate(SIPHON, 5), scripted(9, SIPHON, -2)]);
    let effect = AlgorithmEffect::Siphon { potency: fixed(10) };
    assert_eq!(
        resolve_effect(effect, 10, ScriptId::Id(1), &mut stats, 10),
        EffectResolution::Siphoned { roll: 10, credits: 7 }
    );
    assert_eq!(
        resolve_effect(effect, 2, ScriptId::Id(1), &mut stats, 10),
        EffectResolution::Siphoned { roll: 2, credits: 0 }
    );
    let mut weak = ServerStats::from(vec![innate(SIPHON, i32::MIN)]);
    assert_eq!(
        resolve_effect(effect, i32::MAX, ScriptId::Id(1), &mut weak, 10),
        EffectResolution::Siphoned { roll: i32::MAX, credits: (1i64 << 32) - 1 }
    );
}

#[test]
fn exfil_needs_to_beat_the_resistance() {
    let mut stats = ServerStats::from(vec![innate(EXFIL, 4), innate(SIPHON, 100)]);
    let effect = AlgorithmEffect::Exfil { potency: fixed(0) };
    assert_eq!(
        resolve_effect(effect, 4, ScriptId::Id(1), &mut stats, 10),
        EffectResolution::Ignored
    );
    assert_eq!(
        resolve_effect(effect, 6, ScriptId::Id(1), &mut stats, 10),
        EffectResolution::Exfiltrated { roll: 6, value: 2 }
    );
    assert_eq!(stats.instances().len(), 2);
}

#[test]
fn modify_appends_a_script_entry() {
    let mut stats = ServerStats::from(vec![innate(SIPHON, 5)]);
    let effect = AlgorithmEffect::Modify {
        target: AlgorithmEffectTarget::TargetServer,
        stat: SIPHON,
        potency: fixed(0),
    };
    assert_eq!(effect_scope(&effect), AlgorithmEffectTarget::TargetServer);
    assert!(effect_applies(&effect, &stats));
    assert_eq!(
        resolve_effect(effect, -3, ScriptId::Id(8), &mut stats, 10),
        EffectResolution::StatChanged { roll: -3, value: 2 }
    );
    assert_eq!(stats.instances(), &vec![innate(SIPHON, 5), scripted(8, SIPHON, -3)]);
    assert_eq!(stats.modification_of(SIPHON), -3);
}

#[test]
fn purge_of_own_server_acts_on_negative_modification_only() {
    let purge = |potency| AlgorithmEffect::Purge {
        target: AlgorithmEffectTarget::SelfServer,
        stat: SIPHON,
        potency,
    };
    assert_eq!(effect_scope(&purge(fixed(1))), AlgorithmEffectTarget::SelfServer);

    let mut clean = ServerStats::from(vec![innate(SIPHON, -5), scripted(1, EXFIL, -5)]);
    assert!(!effect_applies(&purge(fixed(1)), &clean));
    assert_eq!(
        resolve_effect(purge(fixed(3)), 3, ScriptId::Id(2), &mut clean, 10),
        EffectResolution::Ignored
    );
    assert_eq!(clean.instances().len(), 2);

    let mut boosted = ServerStats::from(vec![scripted(1, SIPHON, 4)]);
    assert!(!effect_applies(&purge(fixed(1)), &boosted));
    assert_eq!(
        resolve_effect(purge(fixed(3)), 3, ScriptId::Id(2), &mut boosted, 10),
        EffectResolution::Ignored
    );

    let mut hurt = ServerStats::from(vec![innate(SIPHON, 10), scripted(1, SIPHON, -4)]);
    assert!(effect_applies(&purge(fixed(1)), &hurt));
    assert_eq!(
        resolve_effect(purge(fixed(3)), 3, ScriptId::Id(2), &mut hurt, 10),
        EffectResolution::StatChanged { roll: 3, value: 9 }
    );
    assert_eq!(
        resolve_effect(purge(fixed(-7)), -7, ScriptId::Id(2), &mut hurt, 10),
        EffectResolution::StatChanged { roll: 0, value: 9 }
    );
    assert_eq!(hurt.instances()[2], scripted(2, SIPHON, 3));
    assert_eq!(hurt.instances()[3], scripted(2, SIPHON, 0));
}

#[test]
fn purge_of_the_other_server_acts_on_positive_modification_only() {
    let purge = AlgorithmEffect::Purge {
        target: AlgorithmEffectTarget::TargetServer,
        stat: EXFIL,
        potency: fixed(0),
    };
    let mut lowered = ServerStats::from(vec![scripted(1, EXFIL, -1), innate(EXFIL, 50)]);
    assert!(!effect_applies(&purge, &lowered));
    assert_eq!(
        resolve_effect(purge, -2, ScriptId::Id(2), &mut lowered, 10),
        EffectResolution::Ignored
    );

    let mut raised = ServerStats::from(vec![scripted(1, EXFIL, 6)]);
    assert!(effect_applies(&purge, &raised));
    assert_eq!(
        resolve_effect(purge, -2, ScriptId::Id(2), &mut raised, 10),
        EffectResolution::StatChanged { roll: -2, value: 4 }
    );
    assert_eq!(
        resolve_effect(purge, 5, ScriptId::Id(2), &mut raised, 10),
        EffectResolution::StatChanged { roll: 0, value: 4 }
    );
}

#[test]
fn terminate_damages_by_the_size_of_the_roll() {
    let effect = AlgorithmEffect::Terminate { potency: fixed(1) };
    assert_eq!(effect_scope(&effect), AlgorithmEffectTarget::SelfServer);
    let mut stats = ServerStats::new();
    assert_eq!(
        resolve_effect(effect, 1, ScriptId::Id(1), &mut stats, 3),
        EffectResolution::Damaged { roll: 1, health: 2 }
    );
    assert_eq!(
        resolve_effect(effect, -2, ScriptId::Id(1), &mut stats, 3),
        EffectResolution::Damaged { roll: -2, health: 1 }
    );
    assert_eq!(damaged_health(0, 1), 0);
    assert_eq!(damaged_health(5, 9), 0);
    assert_eq!(damaged_health(u32::MAX, i32::MIN), u32::MAX - (1u32 << 31));
    assert_eq!(damaged_health(7, 0), 7);
}

use exploit_engine::active_exploit::{
    ActiveExploit, ActiveExploitStatus, ExploitTarget, INITIAL_CONNECTION_HEALTH,
};
use exploit_engine::algorithm::algorithm::Algorithm;
use exploit_engine::algorithm::effect::{
    AlgorithmEffect, AlgorithmEffectTarget, AlgorithmEffectValue,
};
use exploit_engine::algorithm::id::AlgorithmId;
use exploit_engine::algorithm::procedure::AlgorithmProcedure;
use exploit_engine::event::exploit_event::ExploitEvent;
use exploit_engine::event::modify_credits::{ModificationSource, ModifyCreditsEvent};
use exploit_engine::event::request_exploit::{
    RequestPauseExploitEvent, RequestRestartExploitEvent, RequestResumeExploitEvent,
    RequestStartExploitEvent, RequestStopExploitEvent,
};
use exploit_engine::event::request_purchase_unlock::RequestPurchaseUnlockEvent;
use exploit_engine::inventory::Inventory;
use exploit_engine::player_state::state::{PlayerState, PlayerUnlock, PlayerUnlocks, ServerRef};
use exploit_engine::player_state::systems::{
    apply_effect, changed_credits, find_exploit, on_modify_credits, on_request_pause_exploit,
    on_request_purchase_unlock, on_request_restart_exploit, on_request_resume_exploit,
    on_request_start_exploit, on_request_stop_exploit, on_script_created,
    AlgorithmEffectApplication,
};
use exploit_engine::player_state::ticking::{
    advance_exploits, process_algorithm_effect_application, reconnect_exploits, resolve_pending,
    tick_active_exploits, ticks_for, AppliedEffect, TICKS_PER_SECOND, TIME_BETWEEN_TICKS_NANOS,
};
use exploit_engine::resolver::EffectResolution;
use exploit_engine::script::{Script, ScriptCreatedEvent, ScriptId};
use exploit_engine::server::{
    Server, ServerStatInstance, ServerStatSource, ServerStatType, ServerStats,
};
use exploit_engine::tutorial::progression::TutorialProgression;

fn fixed(value: i32) -> AlgorithmEffectValue {
    AlgorithmEffectValue::Static(value)
}

fn algorithm(instruction_count: u64, table: Vec<(u64, Vec<AlgorithmEffect>)>) -> Algorithm {
    Algorithm { id: AlgorithmId::Invalid, instruction_count, instruction_effects: table }
}

fn script(id: u64, algorithms: &[Algorithm]) -> Script {
    Script::new(ScriptId::Id(id), vec![AlgorithmProcedure::from(algorithms)])
}

fn created(id: u64, algorithms: &[Algorithm]) -> ScriptCreatedEvent {
    ScriptCreatedEvent { script: script(id, algorithms) }
}

fn server(name: &str, clock_speed_hz: u64, stats: Vec<ServerStatInstance>) -> Server {
    Server { name: name.to_string(), threads: 2, clock_speed_hz, stats: ServerStats::from(stats) }
}

fn state(host_clock: u64, target_clock: u64, target_stats: Vec<ServerStatInstance>) -> PlayerState {
    PlayerState {
        progression: TutorialProgression::NotOffered,
        credits: 87,
        inventory: Inventory { algorithms: vec![] },
        servers: vec![server("home", host_clock, vec![])],
        known_targets: vec![ExploitTarget {
            name: "corp".to_string(),
            server: server("corp", target_clock, target_stats),
        }],
        active_exploits: vec![],
        scripts: vec![],
        player_unlocks: PlayerUnlocks { exploit_auto_reconnect: false },
        next_exploit_id: 0,
    }
}

const START: RequestStartExploitEvent = RequestStartExploitEvent { target: 0, script: 0, server: 0 };

#[test]
fn new_exploit_is_started_with_full_health() {
    let exploit = ActiveExploit::new(4, 1, script(9, &[algorithm(3, vec![])]), 2, 500, true);
    assert_eq!(exploit.id(), 4);
    assert_eq!(exploit.target(), 1);
    assert_eq!(exploit.hosting_server(), 2);
    assert_eq!(exploit.clock_allocation_hz(), 500);
    assert!(exploit.auto_reconnect());
    assert_eq!(exploit.connection_current_health(), INITIAL_CONNECTION_HEALTH);
    assert_eq!(exploit.connection_max_health(), INITIAL_CONNECTION_HEALTH);
    assert_eq!(exploit.script().id, ScriptId::Id(9));
    assert_eq!(exploit.status(), ActiveExploitStatus::Running);
    assert_eq!(exploit.progress(), 0);
    assert_eq!(exploit.total_instructions(), 3);
}

#[test]
fn exploit_reports_effects_by_the_rate_that_fired_them() {
    let table = vec![(1, vec![AlgorithmEffect::Siphon { potency: fixed(1) }]), (
        3,
        vec![AlgorithmEffect::Exfil { potency: fixed(2) }],
    )];
    let mut exploit = ActiveExploit::new(0, 0, script(1, &[algorithm(5, table)]), 0, 0, false);
    let (host, target) = exploit.tick(2, 1);
    assert_eq!(host, vec![AlgorithmEffect::Siphon { potency: fixed(1) }]);
    assert_eq!(target, vec![AlgorithmEffect::Exfil { potency: fixed(2) }]);
    assert_eq!(exploit.progress(), 3);
    let (host, target) = exploit.tick(0, 0);
    assert!(host.is_empty() && target.is_empty());
}

#[test]
fn completed_script_begins_anew() {
    let table = vec![(1, vec![AlgorithmEffect::Siphon { potency: fixed(1) }])];
    let mut exploit = ActiveExploit::new(0, 0, script(1, &[algorithm(2, table)]), 0, 0, false);
    let mut fired = vec![];
    for _ in 0..6 {
        let (host, _) = exploit.tick(1, 0);
        fired.push(host.len());
    }
    assert_eq!(fired, vec![1, 0, 1, 0, 1, 0]);
    assert_eq!(exploit.progress(), 0);
    assert_eq!(exploit.status(), ActiveExploitStatus::Running);
}

#[test]
fn stopped_exploit_keeps_its_place() {
    let mut exploit = ActiveExploit::new(0, 0, script(1, &[algorithm(9, vec![])]), 0, 0, false);
    exploit.tick(4, 0);
    exploit.stop_execution();
    assert_eq!(exploit.status(), ActiveExploitStatus::Paused);
    exploit.tick(4, 4);
    assert_eq!(exploit.progress(), 4);
    exploit.start_execution();
    assert_eq!(exploit.status(), ActiveExploitStatus::Running);
    exploit.tick(1, 1);
    assert_eq!(exploit.progress(), 6);
    exploit.restart();
    assert_eq!(exploit.progress(), 0);
    assert_eq!(exploit.status(), ActiveExploitStatus::Running);
}

#[test]
fn termination_never_takes_health_below_zero() {
    let mut exploit = ActiveExploit::new(0, 0, script(1, &[algorithm(9, vec![])]), 0, 0, false);
    exploit.set_connection_health(3);
    let terminate = AlgorithmEffect::Terminate { potency: fixed(1) };
    for left in [2u32, 1, 0] {
        assert_ne!(exploit.status(), ActiveExploitStatus::Disconnected);
        exploit.terminate(terminate.potency().make_value());
        assert_eq!(exploit.connection_current_health(), left);
    }
    assert_eq!(exploit.status(), ActiveExploitStatus::Disconnected);
    exploit.terminate(terminate.potency().make_value());
    assert_eq!(exploit.connection_current_health(), 0);
    // Without health the script stands still.
    exploit.tick(5, 5);
    assert_eq!(exploit.progress(), 0);
    exploit.restart();
    assert_eq!(exploit.connection_current_health(), 3);
    assert_eq!(exploit.status(), ActiveExploitStatus::Running);
}

#[test]
fn clock_is_shared_evenly_when_an_exploit_starts() {
    let mut player_state = state(2_000_000, 0, vec![]);
    on_script_created(created(1, &[algorithm(5, vec![])]), &mut player_state);
    assert_eq!(on_request_start_exploit(&START, &mut player_state), Some(0));
    assert_eq!(player_state.active_exploits[0].clock_allocation_hz(), 2_000_000);
    assert_eq!(on_request_start_exploit(&START, &mut player_state), Some(1));
    assert_eq!(player_state.active_exploits[0].clock_allocation_hz(), 1_000_000);
    assert_eq!(player_state.active_exploits[1].clock_allocation_hz(), 1_000_000);
    assert_eq!(on_request_start_exploit(&START, &mut player_state), Some(2));
    for exploit in &player_state.active_exploits {
        assert_eq!(exploit.clock_allocation_hz(), 666_666);
    }
    // Stopping one does not give its share to the others.
    on_request_stop_exploit(&RequestStopExploitEvent { exploit_id: 1 }, &mut player_state);
    let ids: Vec<u64> = player_state.active_exploits.iter().map(|e| e.id()).collect();
    assert_eq!(ids, vec![0, 2]);
    for exploit in &player_state.active_exploits {
        assert_eq!(exploit.clock_allocation_hz(), 666_666);
    }
    assert_eq!(player_state.next_exploit_id, 3);
}

#[test]
fn exploits_on_other_servers_keep_their_share() {
    let mut player_state = state(900, 0, vec![]);
    player_state.servers.push(server("second", 100, vec![]));
    on_script_created(created(1, &[algorithm(5, vec![])]), &mut player_state);
    on_request_start_exploit(&START, &mut player_state);
    let on_second = RequestStartExploitEvent { target: 0, script: 0, server: 1 };
    on_request_start_exploit(&on_second, &mut player_state);
    on_request_start_exploit(&START, &mut player_state);
    let shares: Vec<u64> =
        player_state.active_exploits.iter().map(|e| e.clock_allocation_hz()).collect();
    assert_eq!(shares, vec![450, 100, 450]);
}

#[test]
fn start_request_that_cannot_be_met_changes_nothing() {
    let mut player_state = state(100, 0, vec![]);
    assert_eq!(on_request_start_exploit(&START, &mut player_state), None);
    on_script_created(created(1, &[algorithm(5, vec![])]), &mut player_state);
    for bad in [
        RequestStartExploitEvent { target: 1, script: 0, server: 0 },
        RequestStartExploitEvent { target: 0, script: 1, server: 0 },
        RequestStartExploitEvent { target: 0, script: 0, server: 1 },
    ] {
        assert_eq!(on_request_start_exploit(&bad, &mut player_state), None);
    }
    let broken = algorithm(
        1,
        vec![(1, vec![AlgorithmEffect::Siphon { potency: AlgorithmEffectValue::RangeInclusive(2, 1) }])],
    );
    on_script_created(created(2, &[broken]), &mut player_state);
    let unrunnable = RequestStartExploitEvent { target: 0, script: 1, server: 0 };
    assert_eq!(on_request_start_exploit(&unrunnable, &mut player_state), None);
    assert!(player_state.active_exploits.is_empty());
    assert_eq!(player_state.next_exploit_id, 0);
}

#[test]
fn requests_for_unknown_exploits_are_ignored() {
    let mut player_state = state(100, 0, vec![]);
    on_script_created(created(1, &[algorithm(5, vec![])]), &mut player_state);
    on_request_start_exploit(&START, &mut player_state);
    on_request_pause_exploit(&RequestPauseExploitEvent { exploit_id: 5 }, &mut player_state);
    on_request_resume_exploit(&RequestResumeExploitEvent { exploit_id: 5 }, &mut player_state);
    on_request_restart_exploit(&RequestRestartExploitEvent { exploit_id: 5 }, &mut player_state);
    on_request_stop_exploit(&RequestStopExploitEvent { exploit_id: 5 }, &mut player_state);
    assert_eq!(player_state.active_exploits.len(), 1);
    assert_eq!(player_state.active_exploits[0].status(), ActiveExploitStatus::Running);
    assert_eq!(find_exploit(&player_state, 5), None);
    assert_eq!(find_exploit(&player_state, 0), Some(0));
}

#[test]
fn pause_resume_and_restart_reach_the_exploit() {
    let mut player_state = state(100, 0, vec![]);
    on_script_created(created(1, &[algorithm(50, vec![])]), &mut player_state);
    on_request_start_exploit(&START, &mut player_state);
    on_request_start_exploit(&START, &mut player_state);
    player_state.active_exploits[1].tick(7, 0);
    on_request_pause_exploit(&RequestPauseExploitEvent { exploit_id: 1 }, &mut player_state);
    assert_eq!(player_state.active_exploits[0].status(), ActiveExploitStatus::Running);
    assert_eq!(player_state.active_exploits[1].status(), ActiveExploitStatus::Paused);
    assert_eq!(player_state.active_exploits[1].progress(), 7);
    on_request_resume_exploit(&RequestResumeExploitEvent { exploit_id: 1 }, &mut player_state);
    assert_eq!(player_state.active_exploits[1].status(), ActiveExploitStatus::Running);
    assert_eq!(player_state.active_exploits[1].progress(), 7);
    on_request_restart_exploit(&RequestRestartExploitEvent { exploit_id: 1 }, &mut player_state);
    assert_eq!(player_state.active_exploits[1].progress(), 0);
}

#[test]
fn credits_saturate_at_both_ends() {
    assert_eq!(changed_credits(87, 13), 100);
    assert_eq!(changed_credits(87, -87), 0);
    assert_eq!(changed_credits(87, -88), 0);
    assert_eq!(changed_credits(5, i64::MIN), 0);
    assert_eq!(changed_credits(u128::MAX - 1, 5), u128::MAX);
    assert_eq!(changed_credits(1 << 70, i64::MIN), (1 << 70) - (1 << 63));

    let mut player_state = state(0, 0, vec![]);
    player_state.progression = TutorialProgression::ExploitServersShown;
    let gain = ModifyCreditsEvent { credits: 0, source: ModificationSource::Script(ScriptId::Id(1)) };
    on_modify_credits(&gain, &mut player_state);
    assert_eq!(player_state.credits, 87);
    assert_eq!(player_state.progression, TutorialProgression::ExploitCreditsReceived);
    on_modify_credits(&gain, &mut player_state);
    assert_eq!(player_state.progression, TutorialProgression::ExploitCreditsReceived);
}

#[test]
fn unlock_is_bought_only_with_credits_to_spare() {
    let mut player_state = state(0, 0, vec![]);
    let request = |credit_cost| RequestPurchaseUnlockEvent {
        unlock: PlayerUnlock::ExploitAutoReconnect,
        credit_cost,
    };
    on_request_purchase_unlock(&request(88), &mut player_state);
    on_request_purchase_unlock(&request(87), &mut player_state);
    assert_eq!(player_state.credits, 87);
    assert!(!player_state.player_unlocks.exploit_auto_reconnect);
    on_request_purchase_unlock(&request(80), &mut player_state);
    assert_eq!(player_state.credits, 7);
    assert!(player_state.player_unlocks.exploit_auto_reconnect);
}

#[test]
fn ticks_are_clock_speed_times_elapsed_time() {
    assert_eq!(TICKS_PER_SECOND as u64 * TIME_BETWEEN_TICKS_NANOS, 1_000_000_000);
    assert_eq!(ticks_for(2_000_000, 50_000_000), 100_000);
    assert_eq!(ticks_for(20, 50_000_000), 1);
    assert_eq!(ticks_for(19, 50_000_000), 0);
    assert_eq!(ticks_for(3, 999_999_999), 2);
    assert_eq!(ticks_for(0, u64::MAX), 0);
    assert_eq!(ticks_for(u64::MAX, 1_000_000_000), u64::MAX);
    assert_eq!(ticks_for(u64::MAX, 2_000_000_000), u64::MAX);
    assert_eq!(ticks_for(u64::MAX, 500_000_000), u64::MAX / 2);
}

fn siphon_state(potency: i32, resistance: Vec<ServerStatInstance>) -> PlayerState {
    let mut player_state = state(20, 0, resistance);
    let table = vec![(1, vec![AlgorithmEffect::Siphon { potency: fixed(potency) }])];
    on_script_created(created(1, &[algorithm(5, table)]), &mut player_state);
    on_request_start_exploit(&START, &mut player_state);
    player_state
}

#[test]
fn siphon_yields_credits_on_the_first_tick_only() {
    let mut player_state = siphon_state(1, vec![]);
    for tick in 1..=5 {
        let applied = tick_active_exploits(&mut player_state, TIME_BETWEEN_TICKS_NANOS);
        if tick == 1 {
            assert_eq!(
                applied,
                vec![AppliedEffect {
                    active_exploit_id: 0,
                    from_player_server: true,
                    script_id: ScriptId::Id(1),
                    effect: AlgorithmEffect::Siphon { potency: fixed(1) },
                    resolution: EffectResolution::Siphoned { roll: 1, credits: 1 },
                }]
            );
            assert_eq!(
                applied[0].credits_event(),
                Some(ModifyCreditsEvent {
                    credits: 1,
                    source: ModificationSource::Script(ScriptId::Id(1)),
                })
            );
            assert_eq!(
                applied[0].exploit_event(),
                Some(ExploitEvent {
                    active_exploit_id: 0,
                    from_player_server: true,
                    algorithm_effect: AlgorithmEffect::Siphon { potency: fixed(1) },
                    potency_roll: Some(1),
                    value_after_modification: Some(1),
                })
            );
            assert!(!applied[0].grants_algorithm());
        } else {
            assert!(applied.is_empty(), "tick {tick}");
        }
        assert_eq!(player_state.credits, 88);
    }
}

#[test]
fn siphon_of_ten_against_resistance_of_three_yields_seven() {
    let resistance =
        vec![ServerStatInstance::new(ServerStatSource::Innate, ServerStatType::SiphonResist, 3)];
    let mut player_state = siphon_state(10, resistance);
    let applied = tick_active_exploits(&mut player_state, TIME_BETWEEN_TICKS_NANOS);
    assert_eq!(applied.len(), 1);
    assert_eq!(applied[0].resolution, EffectResolution::Siphoned { roll: 10, credits: 7 });
    assert_eq!(player_state.credits, 94);
}

#[test]
fn nothing_happens_before_the_time_between_ticks_has_passed() {
    let mut player_state = siphon_state(1, vec![]);
    assert!(tick_active_exploits(&mut player_state, TIME_BETWEEN_TICKS_NANOS - 1).is_empty());
    assert_eq!(player_state.active_exploits[0].progress(), 0);
    assert_eq!(player_state.credits, 87);
}

#[test]
fn target_clock_advances_the_script_too() {
    let mut player_state = state(20, 40, vec![]);
    let table = vec![
        (1, vec![AlgorithmEffect::Siphon { potency: fixed(1) }]),
        (2, vec![AlgorithmEffect::Exfil { potency: fixed(4) }]),
    ];
    on_script_created(created(1, &[algorithm(50, table)]), &mut player_state);
    on_request_start_exploit(&START, &mut player_state);
    let pending = advance_exploits(&mut player_state, TIME_BETWEEN_TICKS_NANOS);
    assert_eq!(pending.len(), 1);
    assert_eq!(pending[0].exploit, 0);
    assert_eq!(pending[0].host_effects, vec![AlgorithmEffect::Siphon { potency: fixed(1) }]);
    assert_eq!(pending[0].target_effects, vec![AlgorithmEffect::Exfil { potency: fixed(4) }]);
    assert_eq!(player_state.active_exploits[0].progress(), 3);
    assert_eq!(player_state.credits, 87);

    let applied = resolve_pending(&mut player_state, &pending);
    assert_eq!(applied.len(), 2);
    assert!(applied[0].from_player_server);
    assert_eq!(applied[0].resolution, EffectResolution::Siphoned { roll: 1, credits: 1 });
    assert!(!applied[1].from_player_server);
    assert_eq!(applied[1].resolution, EffectResolution::Exfiltrated { roll: 4, value: 4 });
    assert!(applied[1].grants_algorithm());
    assert_eq!(applied[1].credits_event(), None);
    assert_eq!(player_state.credits, 88);
}

#[test]
fn modify_reaches_the_server_in_scope() {
    let mut player_state = state(20, 0, vec![]);
    let on_target = AlgorithmEffect::Modify {
        target: AlgorithmEffectTarget::TargetServer,
        stat: ServerStatType::SiphonResist,
        potency: fixed(-4),
    };
    let on_self = AlgorithmEffect::Modify {
        target: AlgorithmEffectTarget::SelfServer,
        stat: ServerStatType::ExfilResist,
        potency: fixed(6),
    };
    on_script_created(created(3, &[algorithm(5, vec![(1, vec![on_target, on_self])])]),
        &mut player_state,
    );
    on_request_start_exploit(&START, &mut player_state);
    let applied = tick_active_exploits(&mut player_state, TIME_BETWEEN_TICKS_NANOS);
    assert_eq!(applied.len(), 2);
    assert_eq!(applied[0].resolution, EffectResolution::StatChanged { roll: -4, value: -4 });
    assert_eq!(applied[1].resolution, EffectResolution::StatChanged { roll: 6, value: 6 });
    let source = ServerStatSource::Script(ScriptId::Id(3));
    assert_eq!(
        player_state.known_targets[0].server.stats.instances(),
        &vec![ServerStatInstance::new(source, ServerStatType::SiphonResist, -4)]
    );
    assert_eq!(
        player_state.servers[0].stats.instances(),
        &vec![ServerStatInstance::new(source, ServerStatType::ExfilResist, 6)]
    );
    assert_eq!(
        applied[0].exploit_event().unwrap().value_after_modification,
        Some(-4)
    );
}

#[test]
fn effect_with_a_given_roll_is_applied_between_the_named_servers() {
    let mut player_state = siphon_state(1, vec![]);
    let swapped = AlgorithmEffectApplication {
        effect: AlgorithmEffect::Modify {
            target: AlgorithmEffectTarget::SelfServer,
            stat: ServerStatType::SiphonResist,
            potency: AlgorithmEffectValue::RangeInclusive(1, 9),
        },
        host_server: ServerRef::Target(0),
        target_server: ServerRef::Player(0),
    };
    assert_eq!(
        apply_effect(&mut player_state, &swapped, 0, 5),
        EffectResolution::StatChanged { roll: 5, value: 5 }
    );
    assert_eq!(player_state.known_targets[0].server.stats.value_of(ServerStatType::SiphonResist), 5);
    assert!(player_state.servers[0].stats.instances().is_empty());

    let drawn = process_algorithm_effect_application(&mut player_state, swapped, 0);
    assert!(!drawn.from_player_server);
    match drawn.resolution {
        EffectResolution::StatChanged { roll, value } => {
            assert!((1..=9).contains(&roll));
            assert_eq!(value, 5 + roll);
        }
        other => panic!("unexpected {other:?}"),
    }
}

#[test]
fn purge_without_anything_to_wash_out_is_ignored() {
    let mut player_state = siphon_state(1, vec![]);
    let purge = AlgorithmEffectApplication {
        effect: AlgorithmEffect::Purge {
            target: AlgorithmEffectTarget::SelfServer,
            stat: ServerStatType::SiphonResist,
            potency: fixed(3),
        },
        host_server: ServerRef::Player(0),
        target_server: ServerRef::Target(0),
    };
    let applied = process_algorithm_effect_application(&mut player_state, purge, 0);
    assert_eq!(applied.resolution, EffectResolution::Ignored);
    assert_eq!(applied.exploit_event(), None);
    assert!(player_state.servers[0].stats.instances().is_empty());
}

#[test]
fn disconnected_exploit_reconnects_only_when_unlocked() {
    for auto_reconnect in [false, true] {
        let mut player_state = state(20, 0, vec![]);
        player_state.player_unlocks.exploit_auto_reconnect = auto_reconnect;
        let table = vec![(1, vec![AlgorithmEffect::Terminate { potency: fixed(-2) }])];
        on_script_created(created(1, &[algorithm(3, table)]), &mut player_state);
        on_request_start_exploit(&START, &mut player_state);
        player_state.active_exploits[0].set_connection_health(2);
        let applied = tick_active_exploits(&mut player_state, TIME_BETWEEN_TICKS_NANOS);
        assert_eq!(applied[0].resolution, EffectResolution::Damaged { roll: -2, health: 0 });
        assert_eq!(applied[0].exploit_event(), None);
        let exploit = &player_state.active_exploits[0];
        if auto_reconnect {
            assert_eq!(exploit.status(), ActiveExploitStatus::Running);
            assert_eq!(exploit.connection_current_health(), 2);
            assert_eq!(exploit.progress(), 0);
        } else {
            assert_eq!(exploit.status(), ActiveExploitStatus::Disconnected);
            assert_eq!(exploit.connection_current_health(), 0);
            assert_eq!(exploit.progress(), 1);
            reconnect_exploits(&mut player_state);
            assert_eq!(player_state.active_exploits[0].status(), ActiveExploitStatus::Disconnected);
        }
    }
}

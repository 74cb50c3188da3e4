use crate::active_exploit::{advanced, ActiveExploitStatus, ActiveExploitView};
use crate::algorithm::effect::{AlgorithmEffect, AlgorithmEffectValue};
use crate::event::exploit_event::ExploitEvent;
use crate::event::modify_credits::{ModificationSource, ModifyCreditsEvent};
use crate::player_state::state::{PlayerState, ServerRef};
use crate::player_state::systems::{
    applied_resolution, apply_effect, can_apply, effect_applied, server_in_scope,
    AlgorithmEffectApplication,
};
use crate::algorithm::effect::AlgorithmEffectTarget;
use crate::resolver::{effect_applies, effect_scope, EffectResolution};
use crate::server::ServerStats;
use crate::script::ScriptId;
use crate::resolver::entries_after;
use crate::server::{Server, ServerStatInstance};
use vstd::prelude::*;

verus! {

/// How often per second the exploits are ticked. It must divide 1000 evenly.
pub const TICKS_PER_SECOND: u8 = 20;

/// The time from one tick to the next, in nanoseconds.
pub const TIME_BETWEEN_TICKS_NANOS: u64 = 50_000_000;

pub const NANOS_PER_SECOND: u64 = 1_000_000_000;

/// The ticks fill a second exactly.
pub proof fn lemma_ticks_fill_a_second()
    ensures
        TICKS_PER_SECOND * TIME_BETWEEN_TICKS_NANOS == NANOS_PER_SECOND,
        1000int % (TICKS_PER_SECOND as int) == 0,
{
}

/// The instructions that a clock of `clock_hz` executes in `elapsed_nanos`: the
/// product in seconds, rounded down, and at most what `u64` can hold.
pub open spec fn ticks_in(clock_hz: u64, elapsed_nanos: u64) -> u64 {
    let ticks = (clock_hz as int * elapsed_nanos as int) / (NANOS_PER_SECOND as int);
    if ticks > u64::MAX {
        u64::MAX
    } else {
        ticks as u64
    }
}

/// The instructions that a clock of `clock_hz` executes in `elapsed_nanos`.
pub fn ticks_for(clock_hz: u64, elapsed_nanos: u64) -> (r: u64)
    ensures
        r == ticks_in(clock_hz, elapsed_nanos),
{
    assert(clock_hz as int * elapsed_nanos as int <= 0xffff_ffff_ffff_ffff
        * 0xffff_ffff_ffff_ffff) by (nonlinear_arith)
        requires
            0 <= clock_hz as int <= 0xffff_ffff_ffff_ffff,
            0 <= elapsed_nanos as int <= 0xffff_ffff_ffff_ffff,
    ;
    let product: u128 = clock_hz as u128 * elapsed_nanos as u128;
    let ticks: u128 = product / 1_000_000_000;
    if ticks > u64::MAX as u128 {
        u64::MAX
    } else {
        ticks as u64
    }
}

/// What became of one fired effect.
#[derive(Clone, Copy, PartialEq, Eq, Structural, Debug)]
pub struct AppliedEffect {
    pub active_exploit_id: u64,
    /// Whether the effect was fired at the rate of the player's server.
    pub from_player_server: bool,
    pub script_id: ScriptId,
    pub effect: AlgorithmEffect,
    pub resolution: EffectResolution,
}

/// `value` as an `i32`, or the largest `i32` if it is more than that.
pub open spec fn capped(value: i64) -> i32 {
    if value > i32::MAX {
        i32::MAX
    } else if value < i32::MIN {
        i32::MIN
    } else {
        value as i32
    }
}

impl AppliedEffect {
    /// The log entry for the effect: none for an effect that was ignored or that only
    /// damaged the connection.
    pub open spec fn spec_exploit_event(self) -> Option<ExploitEvent> {
        match self.resolution {
            EffectResolution::Siphoned { roll, credits } => Some(
                ExploitEvent {
                    active_exploit_id: self.active_exploit_id,
                    from_player_server: self.from_player_server,
                    algorithm_effect: self.effect,
                    potency_roll: Some(roll),
                    value_after_modification: Some(capped(credits)),
                },
            ),
            EffectResolution::Exfiltrated { roll, value } => Some(
                ExploitEvent {
                    active_exploit_id: self.active_exploit_id,
                    from_player_server: self.from_player_server,
                    algorithm_effect: self.effect,
                    potency_roll: Some(roll),
                    value_after_modification: Some(value),
                },
            ),
            EffectResolution::StatChanged { roll, value } => Some(
                ExploitEvent {
                    active_exploit_id: self.active_exploit_id,
                    from_player_server: self.from_player_server,
                    algorithm_effect: self.effect,
                    potency_roll: Some(roll),
                    value_after_modification: Some(value),
                },
            ),
            _ => None,
        }
    }

    /// The change of credits that the effect brought: one for every siphon.
    pub open spec fn spec_credits_event(self) -> Option<ModifyCreditsEvent> {
        match self.resolution {
            EffectResolution::Siphoned { credits, .. } => Some(
                ModifyCreditsEvent { credits, source: ModificationSource::Script(self.script_id) },
            ),
            _ => None,
        }
    }

    pub fn exploit_event(&self) -> (r: Option<ExploitEvent>)
        ensures
            r == self.spec_exploit_event(),
    {
        let (roll, value) = match self.resolution {
            EffectResolution::Siphoned { roll, credits } => {
                let value: i32 = if credits > i32::MAX as i64 {
                    i32::MAX
                } else if credits < i32::MIN as i64 {
                    i32::MIN
                } else {
                    credits as i32
                };
                (roll, value)
            },
            EffectResolution::Exfiltrated { roll, value } => (roll, value),
            EffectResolution::StatChanged { roll, value } => (roll, value),
            _ => {
                return None;
            },
        };
        Some(
            ExploitEvent {
                active_exploit_id: self.active_exploit_id,
                from_player_server: self.from_player_server,
                algorithm_effect: self.effect,
                potency_roll: Some(roll),
                value_after_modification: Some(value),
            },
        )
    }

    pub fn credits_event(&self) -> (r: Option<ModifyCreditsEvent>)
        ensures
            r == self.spec_credits_event(),
    {
        match self.resolution {
            EffectResolution::Siphoned { credits, .. } => Some(
                ModifyCreditsEvent { credits, source: ModificationSource::Script(self.script_id) },
            ),
            _ => None,
        }
    }

    /// Whether the effect won the player an algorithm, which is then to be generated
    /// and added to the inventory.
    pub fn grants_algorithm(&self) -> (r: bool)
        ensures
            r == (self.resolution is Exfiltrated),
    {
        match self.resolution {
            EffectResolution::Exfiltrated { .. } => true,
            _ => false,
        }
    }
}

/// What is reported of an effect of the exploit at `exploit` that was applied under
/// the number `roll`.
pub open spec fn applied_effect_of(
    before: PlayerState,
    application: AlgorithmEffectApplication,
    exploit: int,
    roll: i32,
) -> AppliedEffect {
    AppliedEffect {
        active_exploit_id: before.exploits()[exploit].id,
        from_player_server: application.host_server == ServerRef::Player(
            before.exploits()[exploit].hosting_server,
        ),
        script_id: before.exploits()[exploit].script.id,
        effect: application.effect,
        resolution: applied_resolution(before, application, exploit, roll),
    }
}

/// Whether `after` and `applied` are what processing the effect in the state `before`
/// comes to when `roll` is the number drawn: the number is one that the potency
/// admits, the state is changed as the effect under that number changes it, and the
/// report says what it resolved to.
pub open spec fn effect_processed(
    before: PlayerState,
    after: PlayerState,
    application: AlgorithmEffectApplication,
    exploit: int,
    roll: i32,
    applied: AppliedEffect,
) -> bool {
    &&& can_apply(before, application, exploit)
    &&& application.effect.spec_potency().admits(roll)
    &&& applied == applied_effect_of(before, application, exploit, roll)
    &&& effect_applied(before, after, application, exploit, roll)
}

/// Resolves one fired effect of the exploit at `exploit`: draws a number for its
/// potency, unless the effect has nothing to act on, and applies it.
pub fn process_algorithm_effect_application(
    player_state: &mut PlayerState,
    application: AlgorithmEffectApplication,
    exploit: usize,
) -> (r: AppliedEffect)
    requires
        old(player_state).is_well_formed(),
        can_apply(*old(player_state), application, exploit as int),
        application.effect.is_well_formed(),
    ensures
        final(player_state).is_well_formed(),
        exists|roll: i32| #[trigger]
            effect_processed(
                *old(player_state),
                *final(player_state),
                application,
                exploit as int,
                roll,
                r,
            ),
{
    let active_exploit = &player_state.active_exploits[exploit];
    let active_exploit_id = active_exploit.id();
    let script_id = active_exploit.script().id;
    let from_player_server = match application.host_server {
        ServerRef::Player(i) => i == active_exploit.hosting_server(),
        ServerRef::Target(_) => false,
    };
    let acts = match effect_scope(&application.effect) {
        AlgorithmEffectTarget::SelfServer => effect_applies(
            &application.effect,
            server_stats(player_state, application.host_server),
        ),
        AlgorithmEffectTarget::TargetServer => effect_applies(
            &application.effect,
            server_stats(player_state, application.target_server),
        ),
    };
    if !acts {
        let ghost roll = match application.effect.spec_potency() {
            AlgorithmEffectValue::Static(v) => v,
            AlgorithmEffectValue::RangeInclusive(low, _) => low,
        };
        proof {
            assert(player_state.exploits() =~= player_state.exploits().update(
                exploit as int,
                player_state.exploits()[exploit as int],
            ));
            assert(effect_applied(
                *old(player_state),
                *player_state,
                application,
                exploit as int,
                roll,
            ));
        }
        let ignored = AppliedEffect {
            active_exploit_id,
            from_player_server,
            script_id,
            effect: application.effect,
            resolution: EffectResolution::Ignored,
        };
        assert(effect_processed(
            *old(player_state),
            *player_state,
            application,
            exploit as int,
            roll,
            ignored,
        ));
        return ignored;
    }
    let roll = application.effect.potency().make_value();
    let resolution = apply_effect(player_state, &application, exploit, roll);
    let applied = AppliedEffect {
        active_exploit_id,
        from_player_server,
        script_id,
        effect: application.effect,
        resolution,
    };
    assert(effect_processed(
        *old(player_state),
        *player_state,
        application,
        exploit as int,
        roll,
        applied,
    ));
    applied
}

/// The ledger of the server that `server` names.
fn server_stats(player_state: &PlayerState, server: ServerRef) -> (r: &ServerStats)
    requires
        player_state.holds(server),
    ensures
        r@ == player_state.entries_at(server),
{
    match server {
        ServerRef::Player(i) => &player_state.servers[i].stats,
        ServerRef::Target(i) => &player_state.known_targets[i].server.stats,
    }
}

/// Whether `after` holds the entries of `before`, in their places, and perhaps more.
pub open spec fn extends(after: Seq<ServerStatInstance>, before: Seq<ServerStatInstance>) -> bool {
    &&& before.len() <= after.len()
    &&& forall|i: int| 0 <= i < before.len() ==> after[i] == before[i]
}

/// Whether `after` is the server `before` with a ledger that only grew.
pub open spec fn server_evolved(before: Server, after: Server) -> bool {
    &&& after.name == before.name
    &&& after.threads == before.threads
    &&& after.clock_speed_hz == before.clock_speed_hz
    &&& extends(after.stats@, before.stats@)
}

/// Whether `after` is the exploit `before` with at most its executor and the current
/// health of its connection changed.
pub open spec fn same_binding(before: ActiveExploitView, after: ActiveExploitView) -> bool {
    &&& after.id == before.id
    &&& after.target == before.target
    &&& after.hosting_server == before.hosting_server
    &&& after.clock_allocation_hz == before.clock_allocation_hz
    &&& after.connection_max_health == before.connection_max_health
    &&& after.auto_reconnect == before.auto_reconnect
    &&& after.script == before.script
}

/// What ticking keeps: the exploits with their bindings, the servers and targets with
/// ledgers that only grow, credits that never shrink, and everything else untouched
/// but for the progression of the tutorial.
pub open spec fn evolved(before: PlayerState, after: PlayerState) -> bool {
    &&& after.exploits().len() == before.exploits().len()
    &&& forall|i: int|
        0 <= i < before.exploits().len() ==> same_binding(
            before.exploits()[i],
            #[trigger] after.exploits()[i],
        )
    &&& after.servers@.len() == before.servers@.len()
    &&& forall|i: int|
        0 <= i < before.servers@.len() ==> server_evolved(
            before.servers@[i],
            #[trigger] after.servers@[i],
        )
    &&& after.known_targets@.len() == before.known_targets@.len()
    &&& forall|i: int|
        0 <= i < before.known_targets@.len() ==> {
            &&& (#[trigger] after.known_targets@[i]).name == before.known_targets@[i].name
            &&& server_evolved(before.known_targets@[i].server, after.known_targets@[i].server)
        }
    &&& after.credits >= before.credits
    &&& after.next_exploit_id == before.next_exploit_id
    &&& after.inventory == before.inventory
    &&& after.scripts == before.scripts
    &&& after.player_unlocks == before.player_unlocks
}

/// What ticking keeps is kept over any number of steps.
pub proof fn lemma_evolved_transitive(first: PlayerState, second: PlayerState, third: PlayerState)
    requires
        evolved(first, second),
        evolved(second, third),
    ensures
        evolved(first, third),
{
    assert forall|i: int| 0 <= i < first.exploits().len() implies same_binding(
        first.exploits()[i],
        #[trigger] third.exploits()[i],
    ) by {
        assert(same_binding(first.exploits()[i], second.exploits()[i]));
    }
    assert forall|i: int| 0 <= i < first.servers@.len() implies server_evolved(
        first.servers@[i],
        #[trigger] third.servers@[i],
    ) by {
        assert(server_evolved(first.servers@[i], second.servers@[i]));
        assert(server_evolved(second.servers@[i], third.servers@[i]));
    }
    assert forall|i: int| 0 <= i < first.known_targets@.len() implies {
        &&& (#[trigger] third.known_targets@[i]).name == first.known_targets@[i].name
        &&& server_evolved(first.known_targets@[i].server, third.known_targets@[i].server)
    } by {
        assert(server_evolved(first.known_targets@[i].server, second.known_targets@[i].server));
        assert(server_evolved(second.known_targets@[i].server, third.known_targets@[i].server));
    }
}

/// Applying an effect keeps what ticking keeps: in particular a ledger is only ever
/// extended, and credits only ever rise.
pub proof fn lemma_effect_applied_evolves(
    before: PlayerState,
    after: PlayerState,
    application: AlgorithmEffectApplication,
    exploit: int,
    roll: i32,
)
    requires
        can_apply(before, application, exploit),
        effect_applied(before, after, application, exploit, roll),
    ensures
        evolved(before, after),
{
    let scope = server_in_scope(application);
    let entries = entries_after(
        application.effect,
        roll,
        before.exploits()[exploit].script.id,
        before.entries_at(scope),
    );
    assert(extends(entries, before.entries_at(scope)));
    assert forall|i: int| 0 <= i < before.servers@.len() implies server_evolved(
        before.servers@[i],
        #[trigger] after.servers@[i],
    ) by {
        if scope.is_player(i) {
            assert(before.entries_at(scope) == before.servers@[i].stats@);
        }
    }
    assert forall|i: int| 0 <= i < before.known_targets@.len() implies {
        &&& (#[trigger] after.known_targets@[i]).name == before.known_targets@[i].name
        &&& server_evolved(before.known_targets@[i].server, after.known_targets@[i].server)
    } by {
        if scope.is_target(i) {
            assert(before.entries_at(scope) == before.known_targets@[i].server.stats@);
        }
    }
}

/// The effects that one exploit fired in one tick, by the rate that fired them.
pub struct PendingEffects {
    /// The place of the exploit among the active exploits.
    pub exploit: usize,
    /// What the advance at the rate of the hosting server fired.
    pub host_effects: Vec<AlgorithmEffect>,
    /// What the advance at the rate of the target's server fired.
    pub target_effects: Vec<AlgorithmEffect>,
}

/// The instructions that the exploit at `exploit` is advanced by at the rate of its
/// share of the hosting server's clock.
pub open spec fn host_ticks_of(player_state: PlayerState, exploit: int, elapsed_nanos: u64) -> u64 {
    ticks_in(player_state.exploits()[exploit].clock_allocation_hz, elapsed_nanos)
}

/// The instructions that the exploit at `exploit` is advanced by at the rate of its
/// target's clock.
pub open spec fn target_ticks_of(
    player_state: PlayerState,
    exploit: int,
    elapsed_nanos: u64,
) -> u64 {
    ticks_in(
        player_state.known_targets@[player_state.exploits()[exploit].target as int].server.clock_speed_hz,
        elapsed_nanos,
    )
}

/// Every effect of the list can be resolved.
pub open spec fn effects_well_formed(effects: Seq<AlgorithmEffect>) -> bool {
    forall|k: int| 0 <= k < effects.len() ==> (#[trigger] effects[k]).is_well_formed()
}

/// Whether `pending` is what the exploit at `exploit` fired when it was advanced over
/// `elapsed_nanos`, and `after` the exploit afterwards.
pub open spec fn exploit_advanced(
    player_state: PlayerState,
    exploit: int,
    elapsed_nanos: u64,
    pending: PendingEffects,
    after: ActiveExploitView,
) -> bool {
    let before = player_state.exploits()[exploit];
    let host_ticks = host_ticks_of(player_state, exploit, elapsed_nanos);
    let target_ticks = target_ticks_of(player_state, exploit, elapsed_nanos);
    &&& pending.exploit == exploit
    &&& pending.host_effects@ == before.executor.tick_effects(host_ticks)
    &&& pending.target_effects@ == advanced(
        before.executor,
        before.script.procedures,
        host_ticks,
    ).tick_effects(target_ticks)
    &&& after == before.ticked(host_ticks, target_ticks)
    &&& effects_well_formed(pending.host_effects@)
    &&& effects_well_formed(pending.target_effects@)
}

/// Whether `after` is `before` with every exploit advanced over `elapsed_nanos`, and
/// `pending` what each of them fired, in the order of the exploits. Nothing but the
/// exploits changes.
pub open spec fn exploits_advanced(
    before: PlayerState,
    after: PlayerState,
    elapsed_nanos: u64,
    pending: Seq<PendingEffects>,
) -> bool {
    &&& pending.len() == before.exploits().len()
    &&& after.exploits().len() == before.exploits().len()
    &&& forall|i: int|
        0 <= i < pending.len() ==> exploit_advanced(
            before,
            i,
            elapsed_nanos,
            #[trigger] pending[i],
            after.exploits()[i],
        )
    &&& after.servers == before.servers
    &&& after.known_targets == before.known_targets
    &&& after.credits == before.credits
    &&& after.progression == before.progression
    &&& after.next_exploit_id == before.next_exploit_id
    &&& after.inventory == before.inventory
    &&& after.scripts == before.scripts
    &&& after.player_unlocks == before.player_unlocks
}

/// Advances every exploit over `elapsed_nanos`: once by the instructions that its
/// share of the hosting server's clock executes in that time, once by those of the
/// target's clock. Nothing is resolved yet.
pub fn advance_exploits(player_state: &mut PlayerState, elapsed_nanos: u64) -> (pending: Vec<
    PendingEffects,
>)
    requires
        old(player_state).is_well_formed(),
    ensures
        final(player_state).is_well_formed(),
        exploits_advanced(*old(player_state), *final(player_state), elapsed_nanos, pending@),
{
    let mut pending: Vec<PendingEffects> = Vec::new();
    let mut i: usize = 0;
    while i < player_state.active_exploits.len()
        invariant
            i <= player_state.active_exploits.len(),
            player_state.active_exploits.len() == old(player_state).active_exploits.len(),
            player_state.is_well_formed(),
            pending@.len() == i,
            forall|k: int|
                0 <= k < i ==> exploit_advanced(
                    *old(player_state),
                    k,
                    elapsed_nanos,
                    #[trigger] pending@[k],
                    player_state.exploits()[k],
                ),
            forall|k: int|
                i <= k < player_state.active_exploits.len() ==> (
                #[trigger] player_state.exploits()[k]) == old(player_state).exploits()[k],
            player_state.servers == old(player_state).servers,
            player_state.known_targets == old(player_state).known_targets,
            player_state.credits == old(player_state).credits,
            player_state.progression == old(player_state).progression,
            player_state.next_exploit_id == old(player_state).next_exploit_id,
            player_state.inventory == old(player_state).inventory,
            player_state.scripts == old(player_state).scripts,
            player_state.player_unlocks == old(player_state).player_unlocks,
        decreases player_state.active_exploits.len() - i,
    {
        let ghost stored = player_state.active_exploits@;
        let ghost views = player_state.exploits();
        assert(views[i as int] == old(player_state).exploits()[i as int]);
        let host_ticks = ticks_for(player_state.active_exploits[i].clock_allocation_hz(), elapsed_nanos);
        let target = player_state.active_exploits[i].target();
        let target_ticks = ticks_for(
            player_state.known_targets[target].server.clock_speed_hz,
            elapsed_nanos,
        );
        let (host_effects, target_effects) = player_state.active_exploits[i].tick(
            host_ticks,
            target_ticks,
        );
        let ghost before_push = pending@;
        pending.push(PendingEffects { exploit: i, host_effects, target_effects });
        proof {
            assert forall|k: int| 0 <= k < stored.len() && k != i implies (
            #[trigger] player_state.active_exploits@[k]) == stored[k] by {}
            assert forall|k: int| 0 <= k < stored.len() && k != i implies (
            #[trigger] player_state.exploits()[k]) == views[k] by {}
            assert forall|k: int| 0 <= k < i implies exploit_advanced(
                *old(player_state),
                k,
                elapsed_nanos,
                #[trigger] pending@[k],
                player_state.exploits()[k],
            ) by {
                assert(pending@[k] == before_push[k]);
                assert(player_state.exploits()[k] == views[k]);
            }
        }
        i += 1;
    }
    pending
}

/// The exploit after the driver has looked at it: begun anew with a restored
/// connection if it is disconnected and reconnects by itself, and unchanged if not.
pub open spec fn reconnected(exploit: ActiveExploitView) -> ActiveExploitView {
    if exploit.status() == ActiveExploitStatus::Disconnected && exploit.auto_reconnect {
        exploit.restarted()
    } else {
        exploit
    }
}

/// Whether `after` is `before` with every disconnected exploit that reconnects by
/// itself restarted, and nothing else changed.
pub open spec fn exploits_reconnected(before: PlayerState, after: PlayerState) -> bool {
    &&& after.exploits() == Seq::new(
        before.exploits().len(),
        |i: int| reconnected(before.exploits()[i]),
    )
    &&& after.servers == before.servers
    &&& after.known_targets == before.known_targets
    &&& after.credits == before.credits
    &&& after.progression == before.progression
    &&& after.next_exploit_id == before.next_exploit_id
    &&& after.inventory == before.inventory
    &&& after.scripts == before.scripts
    &&& after.player_unlocks == before.player_unlocks
}

/// Restarts every disconnected exploit that reconnects by itself.
pub fn reconnect_exploits(player_state: &mut PlayerState)
    requires
        old(player_state).is_well_formed(),
    ensures
        final(player_state).is_well_formed(),
        exploits_reconnected(*old(player_state), *final(player_state)),
{
    let mut i: usize = 0;
    while i < player_state.active_exploits.len()
        invariant
            i <= player_state.active_exploits.len(),
            player_state.active_exploits.len() == old(player_state).active_exploits.len(),
            player_state.is_well_formed(),
            forall|k: int|
                0 <= k < i ==> (#[trigger] player_state.exploits()[k]) == reconnected(
                    old(player_state).exploits()[k],
                ),
            forall|k: int|
                i <= k < player_state.active_exploits.len() ==> (
                #[trigger] player_state.exploits()[k]) == old(player_state).exploits()[k],
            player_state.servers == old(player_state).servers,
            player_state.known_targets == old(player_state).known_targets,
            player_state.credits == old(player_state).credits,
            player_state.progression == old(player_state).progression,
            player_state.next_exploit_id == old(player_state).next_exploit_id,
            player_state.inventory == old(player_state).inventory,
            player_state.scripts == old(player_state).scripts,
            player_state.player_unlocks == old(player_state).player_unlocks,
        decreases player_state.active_exploits.len() - i,
    {
        let ghost stored = player_state.active_exploits@;
        let ghost views = player_state.exploits();
        assert(views[i as int] == old(player_state).exploits()[i as int]);
        let disconnected = match player_state.active_exploits[i].status() {
            ActiveExploitStatus::Disconnected => true,
            _ => false,
        };
        if disconnected && player_state.active_exploits[i].auto_reconnect() {
            player_state.active_exploits[i].restart();
        }
        proof {
            assert forall|k: int| 0 <= k < stored.len() && k != i implies (
            #[trigger] player_state.active_exploits@[k]) == stored[k] by {}
            assert forall|k: int| 0 <= k < stored.len() && k != i implies (
            #[trigger] player_state.exploits()[k]) == views[k] by {}
        }
        i += 1;
    }
    assert(player_state.exploits() =~= Seq::new(
        old(player_state).exploits().len(),
        |i: int| reconnected(old(player_state).exploits()[i]),
    ));
}

/// The effects of a list of pending effects in the order in which they are resolved:
/// exploit by exploit, those fired at the host's rate before those fired at the
/// target's.
pub open spec fn pending_effect_list(pending: Seq<PendingEffects>) -> Seq<AlgorithmEffect>
    decreases pending.len(),
{
    if pending.len() == 0 {
        Seq::empty()
    } else {
        pending_effect_list(pending.drop_last()) + pending.last().host_effects@
            + pending.last().target_effects@
    }
}

/// The effects that a list of applied effects came from, in the same order.
pub open spec fn applied_effects(applied: Seq<AppliedEffect>) -> Seq<AlgorithmEffect> {
    Seq::new(applied.len(), |i: int| applied[i].effect)
}

/// Whether every entry names an exploit that the state holds and carries effects that
/// can all be resolved.
pub open spec fn can_resolve(player_state: PlayerState, pending: Seq<PendingEffects>) -> bool {
    forall|i: int|
        0 <= i < pending.len() ==> {
            &&& (#[trigger] pending[i]).exploit < player_state.exploits().len()
            &&& effects_well_formed(pending[i].host_effects@)
            &&& effects_well_formed(pending[i].target_effects@)
        }
}

/// One effect to be resolved: the effect between its two servers, and the place of
/// the exploit that fired it.
pub struct EffectStep {
    pub application: AlgorithmEffectApplication,
    pub exploit: usize,
}

/// The steps for a run of effects that one exploit fired, in their order, between the
/// server that ran the algorithm and the other one.
pub open spec fn effect_steps(
    effects: Seq<AlgorithmEffect>,
    exploit: usize,
    host_server: ServerRef,
    target_server: ServerRef,
) -> Seq<EffectStep> {
    Seq::new(
        effects.len(),
        |k: int|
            EffectStep {
                application: AlgorithmEffectApplication {
                    effect: effects[k],
                    host_server,
                    target_server,
                },
                exploit,
            },
    )
}

/// The steps for everything that the exploits fired in one tick, in the order in
/// which they are resolved. Effects fired at the host's rate run on the hosting server
/// against the target; for effects fired at the target's rate the two servers change
/// places.
pub open spec fn pending_steps(player_state: PlayerState, pending: Seq<PendingEffects>) -> Seq<
    EffectStep,
>
    decreases pending.len(),
{
    if pending.len() == 0 {
        Seq::empty()
    } else {
        let entry = pending.last();
        let exploit = player_state.exploits()[entry.exploit as int];
        let hosting_server = ServerRef::Player(exploit.hosting_server);
        let target_server = ServerRef::Target(exploit.target);
        pending_steps(player_state, pending.drop_last()) + effect_steps(
            entry.host_effects@,
            entry.exploit,
            hosting_server,
            target_server,
        ) + effect_steps(entry.target_effects@, entry.exploit, target_server, hosting_server)
    }
}

/// Whether `states` are the states that the steps lead through, one after another,
/// when `rolls` are the numbers drawn, and `applied` what is reported of each step.
pub open spec fn trace_resolves(
    states: Seq<PlayerState>,
    rolls: Seq<i32>,
    steps: Seq<EffectStep>,
    applied: Seq<AppliedEffect>,
) -> bool {
    &&& states.len() == steps.len() + 1
    &&& rolls.len() == steps.len()
    &&& applied.len() == steps.len()
    &&& forall|k: int|
        0 <= k < steps.len() ==> effect_processed(
            states[k],
            states[k + 1],
            steps[k].application,
            steps[k].exploit as int,
            #[trigger] rolls[k],
            applied[k],
        )
}

/// Whether resolving the steps one after another can lead from `before` to `after`
/// with `applied` as the report: there are numbers, each admitted by the potency of
/// its effect, under which every step changes the state that the step before it left
/// as its effect says, and is reported as what it resolved to.
pub open spec fn effects_resolved(
    before: PlayerState,
    after: PlayerState,
    steps: Seq<EffectStep>,
    applied: Seq<AppliedEffect>,
) -> bool {
    exists|states: Seq<PlayerState>, rolls: Seq<i32>|
        states.len() > 0 && states[0] == before && states.last() == after && #[trigger] trace_resolves(
            states,
            rolls,
            steps,
            applied,
        )
}

/// Resolving no step leaves the state as it is.
pub proof fn lemma_nothing_resolved(player_state: PlayerState)
    ensures
        effects_resolved(player_state, player_state, Seq::empty(), Seq::empty()),
{
    assert(trace_resolves(seq![player_state], Seq::empty(), Seq::empty(), Seq::empty()));
}

/// One processed effect is one resolved step.
pub proof fn lemma_one_resolved(
    before: PlayerState,
    after: PlayerState,
    step: EffectStep,
    roll: i32,
    applied: AppliedEffect,
)
    requires
        effect_processed(before, after, step.application, step.exploit as int, roll, applied),
    ensures
        effects_resolved(before, after, seq![step], seq![applied]),
{
    assert(trace_resolves(seq![before, after], seq![roll], seq![step], seq![applied]));
}

/// Steps resolved from one state to a second, and further steps from there to a
/// third, are together resolved from the first to the third.
pub proof fn lemma_resolved_in_turn(
    first: PlayerState,
    second: PlayerState,
    third: PlayerState,
    steps: Seq<EffectStep>,
    applied: Seq<AppliedEffect>,
    more_steps: Seq<EffectStep>,
    more_applied: Seq<AppliedEffect>,
)
    requires
        effects_resolved(first, second, steps, applied),
        effects_resolved(second, third, more_steps, more_applied),
    ensures
        effects_resolved(first, third, steps + more_steps, applied + more_applied),
{
    let (states, rolls) = choose|states: Seq<PlayerState>, rolls: Seq<i32>|
        states.len() > 0 && states[0] == first && states.last() == second && #[trigger] trace_resolves(
            states,
            rolls,
            steps,
            applied,
        );
    let (more_states, more_rolls) = choose|states: Seq<PlayerState>, rolls: Seq<i32>|
        states.len() > 0 && states[0] == second && states.last() == third && #[trigger] trace_resolves(
            states,
            rolls,
            more_steps,
            more_applied,
        );
    let all_states = states + more_states.skip(1);
    let all_rolls = rolls + more_rolls;
    let all_steps = steps + more_steps;
    let all_applied = applied + more_applied;
    assert forall|k: int| 0 <= k < all_steps.len() implies effect_processed(
        all_states[k],
        all_states[k + 1],
        all_steps[k].application,
        all_steps[k].exploit as int,
        #[trigger] all_rolls[k],
        all_applied[k],
    ) by {
        if k < steps.len() {
            assert(effect_processed(
                states[k],
                states[k + 1],
                steps[k].application,
                steps[k].exploit as int,
                rolls[k],
                applied[k],
            ));
        } else {
            let j = k - steps.len();
            assert(effect_processed(
                more_states[j],
                more_states[j + 1],
                more_steps[j].application,
                more_steps[j].exploit as int,
                more_rolls[j],
                more_applied[j],
            ));
            assert(all_states[k] == more_states[j]);
            assert(all_states[k + 1] == more_states[j + 1]);
        }
    }
    assert(trace_resolves(all_states, all_rolls, all_steps, all_applied));
}

/// Resolves a run of effects of one exploit, one after another, and returns what
/// became of each. Effects fired at the host's rate run on the hosting server against
/// the target; for effects fired at the target's rate the two servers change places.
fn resolve_effects(
    player_state: &mut PlayerState,
    exploit: usize,
    effects: &Vec<AlgorithmEffect>,
    from_host: bool,
) -> (applied: Vec<AppliedEffect>)
    requires
        old(player_state).is_well_formed(),
        exploit < old(player_state).exploits().len(),
        effects_well_formed(effects@),
    ensures
        final(player_state).is_well_formed(),
        evolved(*old(player_state), *final(player_state)),
        applied_effects(applied@) == effects@,
        ({
            let bound = old(player_state).exploits()[exploit as int];
            let hosting_server = ServerRef::Player(bound.hosting_server);
            let target_server = ServerRef::Target(bound.target);
            effects_resolved(
                *old(player_state),
                *final(player_state),
                if from_host {
                    effect_steps(effects@, exploit, hosting_server, target_server)
                } else {
                    effect_steps(effects@, exploit, target_server, hosting_server)
                },
                applied@,
            )
        }),
{
    let hosting_server = ServerRef::Player(player_state.active_exploits[exploit].hosting_server());
    let target_server = ServerRef::Target(player_state.active_exploits[exploit].target());
    let ghost steps = if from_host {
        effect_steps(effects@, exploit, hosting_server, target_server)
    } else {
        effect_steps(effects@, exploit, target_server, hosting_server)
    };
    let mut applied: Vec<AppliedEffect> = Vec::new();
    let mut j: usize = 0;
    proof {
        lemma_evolved_reflexive(*player_state);
        lemma_nothing_resolved(*player_state);
        assert(steps.take(0) =~= Seq::<EffectStep>::empty());
        assert(applied@ =~= Seq::<AppliedEffect>::empty());
        assert(applied_effects(applied@) =~= effects@.take(0));
    }
    while j < effects.len()
        invariant
            j <= effects.len(),
            player_state.is_well_formed(),
            evolved(*old(player_state), *player_state),
            exploit < old(player_state).exploits().len(),
            effects_well_formed(effects@),
            hosting_server == ServerRef::Player(
                old(player_state).exploits()[exploit as int].hosting_server,
            ),
            target_server == ServerRef::Target(old(player_state).exploits()[exploit as int].target),
            old(player_state).holds(hosting_server),
            old(player_state).holds(target_server),
            steps == if from_host {
                effect_steps(effects@, exploit, hosting_server, target_server)
            } else {
                effect_steps(effects@, exploit, target_server, hosting_server)
            },
            applied_effects(applied@) == effects@.take(j as int),
            effects_resolved(*old(player_state), *player_state, steps.take(j as int), applied@),
        decreases effects.len() - j,
    {
        let application = if from_host {
            AlgorithmEffectApplication {
                effect: effects[j],
                host_server: hosting_server,
                target_server: target_server,
            }
        } else {
            AlgorithmEffectApplication {
                effect: effects[j],
                host_server: target_server,
                target_server: hosting_server,
            }
        };
        let ghost before = *player_state;
        let ghost listed = applied@;
        let outcome = process_algorithm_effect_application(player_state, application, exploit);
        applied.push(outcome);
        proof {
            let roll = choose|roll: i32| #[trigger]
                effect_processed(
                    before,
                    *player_state,
                    application,
                    exploit as int,
                    roll,
                    outcome,
                );
            lemma_effect_applied_evolves(before, *player_state, application, exploit as int, roll);
            lemma_evolved_transitive(*old(player_state), before, *player_state);
            assert(applied_effects(applied@) =~= applied_effects(listed).push(effects@[j as int]));
            assert(effects@.take(j + 1) =~= effects@.take(j as int).push(effects@[j as int]));
            let step = EffectStep { application, exploit };
            assert(steps[j as int] == step);
            lemma_one_resolved(before, *player_state, step, roll, outcome);
            lemma_resolved_in_turn(
                *old(player_state),
                before,
                *player_state,
                steps.take(j as int),
                listed,
                seq![step],
                seq![outcome],
            );
            assert(steps.take(j + 1) =~= steps.take(j as int) + seq![step]);
            assert(applied@ =~= listed + seq![outcome]);
        }
        j += 1;
    }
    proof {
        assert(effects@.take(j as int) =~= effects@);
        assert(steps.take(j as int) =~= steps);
    }
    applied
}

/// Resolves everything that the exploits fired in one tick, after all of them were
/// advanced, so that no resolution changes how far another exploit is advanced in the
/// same tick. Returns what became of each effect, in the order of resolution.
pub fn resolve_pending(player_state: &mut PlayerState, pending: &Vec<PendingEffects>) -> (applied:
    Vec<AppliedEffect>)
    requires
        old(player_state).is_well_formed(),
        can_resolve(*old(player_state), pending@),
    ensures
        final(player_state).is_well_formed(),
        evolved(*old(player_state), *final(player_state)),
        applied_effects(applied@) == pending_effect_list(pending@),
        effects_resolved(
            *old(player_state),
            *final(player_state),
            pending_steps(*old(player_state), pending@),
            applied@,
        ),
{
    let mut applied: Vec<AppliedEffect> = Vec::new();
    let mut i: usize = 0;
    proof {
        lemma_evolved_reflexive(*player_state);
        lemma_nothing_resolved(*player_state);
        assert(applied_effects(applied@) =~= pending_effect_list(pending@.take(0)));
        assert(applied@ =~= Seq::<AppliedEffect>::empty());
        assert(pending_steps(*player_state, pending@.take(0)) =~= Seq::<EffectStep>::empty());
    }
    while i < pending.len()
        invariant
            i <= pending.len(),
            player_state.is_well_formed(),
            evolved(*old(player_state), *player_state),
            can_resolve(*old(player_state), pending@),
            applied_effects(applied@) == pending_effect_list(pending@.take(i as int)),
            effects_resolved(
                *old(player_state),
                *player_state,
                pending_steps(*old(player_state), pending@.take(i as int)),
                applied@,
            ),
        decreases pending.len() - i,
    {
        let ghost before = *player_state;
        let ghost listed = applied@;
        let entry = &pending[i];
        proof {
            assert(pending@.take(i + 1).drop_last() =~= pending@.take(i as int));
            assert(pending@.take(i + 1).last() == pending@[i as int]);
            assert(same_binding(
                old(player_state).exploits()[entry.exploit as int],
                before.exploits()[entry.exploit as int],
            ));
        }
        let mut by_host = resolve_effects(player_state, entry.exploit, &entry.host_effects, true);
        let ghost between = *player_state;
        let ghost host_part = by_host@;
        proof {
            assert(same_binding(
                old(player_state).exploits()[entry.exploit as int],
                between.exploits()[entry.exploit as int],
            ));
        }
        let mut by_target = resolve_effects(
            player_state,
            entry.exploit,
            &entry.target_effects,
            false,
        );
        let ghost target_part = by_target@;
        applied.append(&mut by_host);
        applied.append(&mut by_target);
        proof {
            let bound = old(player_state).exploits()[entry.exploit as int];
            let hosting_server = ServerRef::Player(bound.hosting_server);
            let target_server = ServerRef::Target(bound.target);
            let earlier = pending_steps(*old(player_state), pending@.take(i as int));
            let host_steps = effect_steps(
                entry.host_effects@,
                entry.exploit,
                hosting_server,
                target_server,
            );
            let target_steps = effect_steps(
                entry.target_effects@,
                entry.exploit,
                target_server,
                hosting_server,
            );
            lemma_evolved_transitive(*old(player_state), before, between);
            lemma_evolved_transitive(*old(player_state), between, *player_state);
            lemma_resolved_in_turn(
                *old(player_state),
                before,
                between,
                earlier,
                listed,
                host_steps,
                host_part,
            );
            lemma_resolved_in_turn(
                *old(player_state),
                between,
                *player_state,
                earlier + host_steps,
                listed + host_part,
                target_steps,
                target_part,
            );
            assert(applied@ =~= listed + host_part + target_part);
            assert(applied_effects(applied@) =~= applied_effects(listed) + applied_effects(
                host_part,
            ) + applied_effects(target_part));
        }
        i += 1;
    }
    assert(pending@.take(i as int) =~= pending@);
    applied
}

/// Whether `after` and `applied` are what one tick of the driver over `elapsed_nanos`
/// can make of `before`: every exploit is advanced, then everything that was fired is
/// resolved in order, under numbers that the potencies admit, then every disconnected
/// exploit that reconnects by itself is restarted.
pub open spec fn ticked(
    before: PlayerState,
    after: PlayerState,
    elapsed_nanos: u64,
    applied: Seq<AppliedEffect>,
) -> bool {
    exists|pending: Seq<PendingEffects>, advanced_state: PlayerState, resolved_state: PlayerState|
        #![trigger
            exploits_advanced(before, advanced_state, elapsed_nanos, pending),
            exploits_reconnected(resolved_state, after)
        ]
        {
            &&& exploits_advanced(before, advanced_state, elapsed_nanos, pending)
            &&& effects_resolved(
                advanced_state,
                resolved_state,
                pending_steps(advanced_state, pending),
                applied,
            )
            &&& exploits_reconnected(resolved_state, after)
        }
}

/// One tick of the driver: once at least the time between two ticks has passed, every
/// exploit is advanced, then every fired effect is resolved, then every disconnected
/// exploit that reconnects by itself is restarted. Before that time nothing happens.
/// Returns what became of each effect.
pub fn tick_active_exploits(player_state: &mut PlayerState, elapsed_nanos: u64) -> (applied: Vec<
    AppliedEffect,
>)
    requires
        old(player_state).is_well_formed(),
    ensures
        final(player_state).is_well_formed(),
        elapsed_nanos < TIME_BETWEEN_TICKS_NANOS ==> applied@.len() == 0 && *final(player_state)
            == *old(player_state),
        elapsed_nanos >= TIME_BETWEEN_TICKS_NANOS ==> ticked(
            *old(player_state),
            *final(player_state),
            elapsed_nanos,
            applied@,
        ),
        evolved(*old(player_state), *final(player_state)),
        elapsed_nanos >= TIME_BETWEEN_TICKS_NANOS ==> forall|i: int|
            0 <= i < final(player_state).exploits().len() ==> {
                let exploit = #[trigger] final(player_state).exploits()[i];
                exploit.auto_reconnect && exploit.connection_max_health > 0 ==> exploit.status()
                    != ActiveExploitStatus::Disconnected
            },
{
    proof {
        lemma_evolved_reflexive(*player_state);
    }
    if elapsed_nanos < TIME_BETWEEN_TICKS_NANOS {
        return Vec::new();
    }
    let pending = advance_exploits(player_state, elapsed_nanos);
    let ghost advanced_state = *player_state;
    proof {
        assert forall|i: int| 0 <= i < old(player_state).exploits().len() implies same_binding(
            old(player_state).exploits()[i],
            #[trigger] advanced_state.exploits()[i],
        ) by {
            assert(exploit_advanced(
                *old(player_state),
                i,
                elapsed_nanos,
                pending@[i],
                advanced_state.exploits()[i],
            ));
        }
        assert(evolved(*old(player_state), advanced_state));
    }
    let applied = resolve_pending(player_state, &pending);
    let ghost resolved_state = *player_state;
    reconnect_exploits(player_state);
    proof {
        lemma_evolved_transitive(*old(player_state), advanced_state, resolved_state);
        assert forall|i: int| 0 <= i < resolved_state.exploits().len() implies same_binding(
            resolved_state.exploits()[i],
            #[trigger] player_state.exploits()[i],
        ) by {
            assert(player_state.exploits()[i] == reconnected(resolved_state.exploits()[i]));
        }
        lemma_evolved_reflexive(resolved_state);
        assert(evolved(resolved_state, *player_state));
        lemma_evolved_transitive(*old(player_state), resolved_state, *player_state);
        assert forall|i: int| 0 <= i < player_state.exploits().len() implies {
            let exploit = #[trigger] player_state.exploits()[i];
            exploit.auto_reconnect && exploit.connection_max_health > 0 ==> exploit.status()
                != ActiveExploitStatus::Disconnected
        } by {
            assert(player_state.exploits()[i] == reconnected(resolved_state.exploits()[i]));
        }
        assert(exploits_advanced(*old(player_state), advanced_state, elapsed_nanos, pending@));
        assert(exploits_reconnected(resolved_state, *player_state));
    }
    applied
}

/// Nothing changed is a case of what ticking keeps.
pub proof fn lemma_evolved_reflexive(player_state: PlayerState)
    ensures
        evolved(player_state, player_state),
{
}

} // verus!

use crate::active_exploit::{started, ActiveExploit, ActiveExploitView, INITIAL_CONNECTION_HEALTH};
use crate::event::modify_credits::ModifyCreditsEvent;
use crate::event::request_exploit::{
    RequestPauseExploitEvent, RequestRestartExploitEvent, RequestResumeExploitEvent,
    RequestStartExploitEvent, RequestStopExploitEvent,
};
use crate::event::request_purchase_unlock::RequestPurchaseUnlockEvent;
use crate::inventory::{InventoryItem, InventoryItemAdded, InventoryItemRemoved};
use crate::algorithm::effect::{AlgorithmEffect, AlgorithmEffectTarget};
use crate::event::modify_credits::ModificationSource;
use crate::player_state::state::{
    exploit_views, server_with_entries, PlayerState, PlayerUnlock, PlayerUnlocks, ServerRef,
};
use crate::algorithm::algorithm::AlgorithmView;
use crate::algorithm::procedure::{algorithm_views, without_id};
use crate::resolver::{
    effect_scope, entries_after, resolution_of, resolve_effect, scope_of, EffectResolution,
};
use crate::server::ServerStatInstance;
use crate::script::ScriptCreatedEvent;
use crate::tutorial::progression::TutorialProgression;
use vstd::prelude::*;

verus! {

/// How many of the exploits are hosted on `server`.
pub open spec fn hosted_on(exploits: Seq<ActiveExploitView>, server: usize) -> nat
    decreases exploits.len(),
{
    if exploits.len() == 0 {
        0
    } else {
        hosted_on(exploits.drop_last(), server) + if exploits.last().hosting_server == server {
            1nat
        } else {
            0nat
        }
    }
}

/// The share of a clock speed that each of `hosted` exploits and one more get.
pub open spec fn clock_share(clock_speed_hz: u64, hosted: nat) -> u64 {
    (clock_speed_hz as int / (hosted as int + 1)) as u64
}

/// The exploit with the share `clock_allocation_hz` if it is hosted on `server`, and
/// unchanged if not.
pub open spec fn reallocated(
    exploit: ActiveExploitView,
    server: usize,
    clock_allocation_hz: u64,
) -> ActiveExploitView {
    if exploit.hosting_server == server {
        ActiveExploitView { clock_allocation_hz, ..exploit }
    } else {
        exploit
    }
}

/// The exploits without those of the given id, the rest in order.
pub open spec fn without_exploit(exploits: Seq<ActiveExploitView>, id: u64) -> Seq<
    ActiveExploitView,
>
    decreases exploits.len(),
{
    if exploits.len() == 0 {
        Seq::empty()
    } else if exploits.last().id == id {
        without_exploit(exploits.drop_last(), id)
    } else {
        without_exploit(exploits.drop_last(), id).push(exploits.last())
    }
}

/// Whether `index` is the place of the first exploit of the given id.
pub open spec fn is_first_with_id(exploits: Seq<ActiveExploitView>, id: u64, index: int) -> bool {
    &&& 0 <= index < exploits.len()
    &&& exploits[index].id == id
    &&& forall|j: int| 0 <= j < index ==> (#[trigger] exploits[j]).id != id
}

/// Whether no exploit has the given id.
pub open spec fn has_no_exploit(exploits: Seq<ActiveExploitView>, id: u64) -> bool {
    forall|j: int| 0 <= j < exploits.len() ==> (#[trigger] exploits[j]).id != id
}

/// Credits after a change of `delta`: the sum, kept within what `u128` can hold.
pub open spec fn credits_after(credits: u128, delta: i64) -> u128 {
    if credits + delta < 0 {
        0
    } else if credits + delta > u128::MAX {
        u128::MAX
    } else {
        (credits + delta) as u128
    }
}

/// Where the tutorial stands after credits came in: the first credits that arrive
/// while the exploit servers are shown move it on.
pub open spec fn progression_after_credits(progression: TutorialProgression) -> TutorialProgression {
    if progression == TutorialProgression::ExploitServersShown {
        progression.next()
    } else {
        progression
    }
}

/// Whether a request to start an exploit can be met: the target, the script and the
/// server exist, the script can be run, and an id is left to give.
pub open spec fn can_start(player_state: PlayerState, evt: RequestStartExploitEvent) -> bool {
    &&& evt.target < player_state.known_targets@.len()
    &&& evt.script < player_state.scripts@.len()
    &&& evt.server < player_state.servers@.len()
    &&& player_state.scripts@[evt.script as int]@.is_runnable()
    &&& player_state.next_exploit_id < u64::MAX
}

/// The share of the hosting server's clock speed that every exploit on it runs at once
/// the requested one has started: the clock speed divided by the number of exploits
/// hosted there before, and one.
pub open spec fn share_after_start(player_state: PlayerState, evt: RequestStartExploitEvent) -> u64 {
    clock_share(
        player_state.servers@[evt.server as int].clock_speed_hz,
        hosted_on(player_state.exploits(), evt.server),
    )
}

/// The exploit that a request starts: under the next id, bound to the requested
/// target and server, at the new share, with a full connection and its script started
/// from the beginning.
pub open spec fn started_exploit(
    player_state: PlayerState,
    evt: RequestStartExploitEvent,
) -> ActiveExploitView {
    ActiveExploitView {
        id: player_state.next_exploit_id,
        target: evt.target,
        hosting_server: evt.server,
        clock_allocation_hz: share_after_start(player_state, evt),
        connection_current_health: INITIAL_CONNECTION_HEALTH,
        connection_max_health: INITIAL_CONNECTION_HEALTH,
        auto_reconnect: player_state.player_unlocks.exploit_auto_reconnect,
        script: player_state.scripts@[evt.script as int]@,
        executor: started(player_state.scripts@[evt.script as int]@.procedures),
    }
}

/// The exploits once the requested one has started: those that were there, each at
/// the new share if it is hosted on the same server, and the new one after them.
pub open spec fn exploits_after_start(
    player_state: PlayerState,
    evt: RequestStartExploitEvent,
) -> Seq<ActiveExploitView> {
    Seq::new(
        player_state.exploits().len(),
        |i: int|
            reallocated(
                player_state.exploits()[i],
                evt.server,
                share_after_start(player_state, evt),
            ),
    ).push(started_exploit(player_state, evt))
}

proof fn lemma_hosted_on_same_hosts(
    first: Seq<ActiveExploitView>,
    second: Seq<ActiveExploitView>,
    server: usize,
)
    requires
        first.len() == second.len(),
        forall|i: int|
            0 <= i < first.len() ==> (#[trigger] first[i]).hosting_server
                == second[i].hosting_server,
    ensures
        hosted_on(first, server) == hosted_on(second, server),
    decreases first.len(),
{
    if first.len() > 0 {
        assert forall|i: int| 0 <= i < first.drop_last().len() implies (
        #[trigger] first.drop_last()[i]).hosting_server == second.drop_last()[i].hosting_server by {
            assert(first[i].hosting_server == second[i].hosting_server);
        }
        lemma_hosted_on_same_hosts(first.drop_last(), second.drop_last(), server);
        assert(first[first.len() - 1].hosting_server == second[first.len() - 1].hosting_server);
    }
}

/// Starting an exploit adds exactly one exploit, after those that were there. It and
/// every exploit already hosted on the same server then run at that server's clock
/// speed divided by their number; every other exploit is as it was.
pub proof fn lemma_start_shares_clock_evenly(player_state: PlayerState, evt: RequestStartExploitEvent)
    requires
        can_start(player_state, evt),
    ensures
        ({
            let before = player_state.exploits();
            let after = exploits_after_start(player_state, evt);
            let hosted = hosted_on(before, evt.server);
            let clock_speed_hz = player_state.servers@[evt.server as int].clock_speed_hz;
            &&& after.len() == before.len() + 1
            &&& after.last().hosting_server == evt.server
            &&& after.last().target == evt.target
            &&& hosted_on(after, evt.server) == hosted + 1
            &&& forall|i: int|
                0 <= i < after.len() && (#[trigger] after[i]).hosting_server == evt.server
                    ==> after[i].clock_allocation_hz == clock_speed_hz as int / (hosted as int + 1)
            &&& forall|i: int|
                0 <= i < before.len() && (#[trigger] before[i]).hosting_server != evt.server
                    ==> after[i] == before[i]
            &&& forall|i: int|
                0 <= i < before.len() ==> (#[trigger] after[i]) == (ActiveExploitView {
                    clock_allocation_hz: after[i].clock_allocation_hz,
                    ..before[i]
                })
        }),
{
    let before = player_state.exploits();
    let after = exploits_after_start(player_state, evt);
    let hosted = hosted_on(before, evt.server);
    let clock_speed_hz = player_state.servers@[evt.server as int].clock_speed_hz;
    assert(0 <= clock_speed_hz as int / (hosted as int + 1) <= clock_speed_hz) by (nonlinear_arith)
        requires
            hosted >= 0,
            clock_speed_hz >= 0,
    ;
    assert(after.drop_last() =~= Seq::new(
        before.len(),
        |i: int| reallocated(before[i], evt.server, share_after_start(player_state, evt)),
    ));
    lemma_hosted_on_same_hosts(after.drop_last(), before, evt.server);
}

/// The place of the first exploit of the given id, if there is one.
pub fn find_exploit(player_state: &PlayerState, exploit_id: u64) -> (r: Option<usize>)
    ensures
        match r {
            Some(index) => is_first_with_id(player_state.exploits(), exploit_id, index as int),
            None => has_no_exploit(player_state.exploits(), exploit_id),
        },
{
    let mut i: usize = 0;
    while i < player_state.active_exploits.len()
        invariant
            i <= player_state.active_exploits.len(),
            forall|j: int| 0 <= j < i ==> (#[trigger] player_state.exploits()[j]).id != exploit_id,
        decreases player_state.active_exploits.len() - i,
    {
        if player_state.active_exploits[i].id() == exploit_id {
            return Some(i);
        }
        i += 1;
    }
    None
}

/// Starts an exploit and returns its id. The clock speed of the hosting server is
/// divided evenly among the exploits already hosted there and the new one, and every
/// one of them is given that share. A request that cannot be met changes nothing.
pub fn on_request_start_exploit(evt: &RequestStartExploitEvent, player_state: &mut PlayerState) -> (r:
    Option<u64>)
    requires
        old(player_state).is_well_formed(),
    ensures
        final(player_state).is_well_formed(),
        !can_start(*old(player_state), *evt) ==> r.is_none() && *final(player_state) == *old(
            player_state,
        ),
        can_start(*old(player_state), *evt) ==> {
            &&& r == Some(old(player_state).next_exploit_id)
            &&& final(player_state).exploits() == exploits_after_start(*old(player_state), *evt)
            &&& final(player_state).next_exploit_id == old(player_state).next_exploit_id + 1
            &&& final(player_state).progression == old(player_state).progression
            &&& final(player_state).credits == old(player_state).credits
            &&& final(player_state).inventory == old(player_state).inventory
            &&& final(player_state).servers == old(player_state).servers
            &&& final(player_state).known_targets == old(player_state).known_targets
            &&& final(player_state).scripts == old(player_state).scripts
            &&& final(player_state).player_unlocks == old(player_state).player_unlocks
        },
{
    if evt.target >= player_state.known_targets.len() || evt.script >= player_state.scripts.len()
        || evt.server >= player_state.servers.len() || player_state.next_exploit_id == u64::MAX {
        return None;
    }
    if !player_state.scripts[evt.script].is_valid() {
        return None;
    }
    let ghost before = player_state.exploits();
    let mut hosted: u128 = 0;
    let mut i: usize = 0;
    while i < player_state.active_exploits.len()
        invariant
            i <= player_state.active_exploits.len(),
            before == player_state.exploits(),
            hosted == hosted_on(before.take(i as int), evt.server),
            hosted <= i,
        decreases player_state.active_exploits.len() - i,
    {
        proof {
            assert(before.take(i + 1).drop_last() =~= before.take(i as int));
            assert(before.take(i + 1).last() == before[i as int]);
        }
        if player_state.active_exploits[i].hosting_server() == evt.server {
            hosted = hosted + 1;
        }
        i += 1;
    }
    assert(before.take(i as int) =~= before);
    let clock_speed_hz = player_state.servers[evt.server].clock_speed_hz;
    let share: u64 = (clock_speed_hz as u128 / (hosted + 1)) as u64;
    assert(share == clock_share(clock_speed_hz, hosted as nat));
    let mut i: usize = 0;
    while i < player_state.active_exploits.len()
        invariant
            i <= player_state.active_exploits.len(),
            player_state.active_exploits.len() == before.len(),
            player_state.is_well_formed(),
            forall|k: int|
                0 <= k < i ==> (#[trigger] player_state.exploits()[k]) == reallocated(
                    before[k],
                    evt.server,
                    share,
                ),
            forall|k: int| i <= k < before.len() ==> (#[trigger] player_state.exploits()[k]) == before[k],
            player_state.next_exploit_id == old(player_state).next_exploit_id,
            player_state.progression == old(player_state).progression,
            player_state.credits == old(player_state).credits,
            player_state.inventory == old(player_state).inventory,
            player_state.servers == old(player_state).servers,
            player_state.known_targets == old(player_state).known_targets,
            player_state.scripts == old(player_state).scripts,
            player_state.player_unlocks == old(player_state).player_unlocks,
        decreases player_state.active_exploits.len() - i,
    {
        let ghost stored = player_state.active_exploits@;
        assert(player_state.exploits()[i as int] == before[i as int]);
        if player_state.active_exploits[i].hosting_server() == evt.server {
            player_state.active_exploits[i].set_clock_allocation_hz(share);
        }
        assert forall|k: int| 0 <= k < before.len() && k != i implies (
        #[trigger] player_state.active_exploits@[k]) == stored[k] by {}
        assert forall|k: int| 0 <= k < before.len() && k != i implies (
        #[trigger] player_state.exploits()[k]) == exploit_views(stored)[k] by {}
        i += 1;
    }
    let id = player_state.next_exploit_id;
    let script = player_state.scripts[evt.script].clone();
    let active_exploit = ActiveExploit::new(
        id,
        evt.target,
        script,
        evt.server,
        share,
        player_state.player_unlocks.exploit_auto_reconnect,
    );
    let ghost reallocated_views = player_state.exploits();
    assert(share == share_after_start(*old(player_state), *evt));
    let ghost stored = player_state.active_exploits@;
    player_state.active_exploits.push(active_exploit);
    player_state.next_exploit_id = id + 1;
    proof {
        assert forall|k: int| 0 <= k < stored.len() implies (
        #[trigger] player_state.active_exploits@[k]) == stored[k] by {}
        assert(player_state.exploits() =~= reallocated_views.push(active_exploit@));
        assert(reallocated_views =~= Seq::new(
            before.len(),
            |i: int| reallocated(before[i], evt.server, share),
        ));
    }
    Some(id)
}

/// Removes every exploit of the given id. The shares of the others stay as they are.
pub fn on_request_stop_exploit(evt: &RequestStopExploitEvent, player_state: &mut PlayerState)
    requires
        old(player_state).is_well_formed(),
    ensures
        final(player_state).is_well_formed(),
        final(player_state).exploits() == without_exploit(
            old(player_state).exploits(),
            evt.exploit_id,
        ),
        final(player_state).next_exploit_id == old(player_state).next_exploit_id,
        final(player_state).progression == old(player_state).progression,
        final(player_state).credits == old(player_state).credits,
        final(player_state).inventory == old(player_state).inventory,
        final(player_state).servers == old(player_state).servers,
        final(player_state).known_targets == old(player_state).known_targets,
        final(player_state).scripts == old(player_state).scripts,
        final(player_state).player_unlocks == old(player_state).player_unlocks,
{
    let ghost start = player_state.exploits();
    let mut kept: usize = 0;
    let ghost mut done: int = 0;
    while kept < player_state.active_exploits.len()
        invariant
            0 <= done <= start.len(),
            kept <= player_state.active_exploits.len(),
            player_state.active_exploits.len() - kept == start.len() - done,
            player_state.is_well_formed(),
            player_state.exploits().take(kept as int) == without_exploit(
                start.take(done),
                evt.exploit_id,
            ),
            player_state.exploits().skip(kept as int) == start.skip(done),
            player_state.next_exploit_id == old(player_state).next_exploit_id,
            player_state.progression == old(player_state).progression,
            player_state.credits == old(player_state).credits,
            player_state.inventory == old(player_state).inventory,
            player_state.servers == old(player_state).servers,
            player_state.known_targets == old(player_state).known_targets,
            player_state.scripts == old(player_state).scripts,
            player_state.player_unlocks == old(player_state).player_unlocks,
        decreases player_state.active_exploits.len() - kept,
    {
        let ghost before = player_state.exploits();
        let ghost stored = player_state.active_exploits@;
        proof {
            assert(before.skip(kept as int)[0] == start.skip(done)[0]);
            assert(start.take(done + 1).drop_last() =~= start.take(done));
            assert(start.take(done + 1).last() == start[done]);
        }
        if player_state.active_exploits[kept].id() == evt.exploit_id {
            player_state.active_exploits.remove(kept);
            proof {
                let after = player_state.exploits();
                assert forall|k: int| 0 <= k < player_state.active_exploits@.len() implies (
                #[trigger] player_state.active_exploits@[k]) == (if k < kept {
                    stored[k]
                } else {
                    stored[k + 1]
                }) by {}
                assert(after.take(kept as int) =~= before.take(kept as int));
                assert(after.skip(kept as int) =~= before.skip(kept as int).skip(1));
                assert(start.skip(done + 1) =~= start.skip(done).skip(1));
            }
        } else {
            proof {
                assert(before.take(kept + 1) =~= before.take(kept as int).push(
                    before[kept as int],
                ));
                assert(before.skip(kept + 1) =~= before.skip(kept as int).skip(1));
                assert(start.skip(done + 1) =~= start.skip(done).skip(1));
            }
            kept += 1;
        }
        proof {
            done = done + 1;
        }
    }
    proof {
        assert(player_state.exploits().take(kept as int) =~= player_state.exploits());
        assert(start.take(done) =~= start);
    }
}

/// Whether `after` is `before` with the exploit at `index` replaced by `exploit`, and
/// nothing else changed.
pub open spec fn exploit_replaced(
    before: PlayerState,
    after: PlayerState,
    index: int,
    exploit: ActiveExploitView,
) -> bool {
    &&& after.exploits() == before.exploits().update(index, exploit)
    &&& after.next_exploit_id == before.next_exploit_id
    &&& after.progression == before.progression
    &&& after.credits == before.credits
    &&& after.inventory == before.inventory
    &&& after.servers == before.servers
    &&& after.known_targets == before.known_targets
    &&& after.scripts == before.scripts
    &&& after.player_unlocks == before.player_unlocks
}

/// Pauses the first exploit of the given id. A request for an id that no exploit has
/// is ignored.
pub fn on_request_pause_exploit(evt: &RequestPauseExploitEvent, player_state: &mut PlayerState)
    requires
        old(player_state).is_well_formed(),
    ensures
        final(player_state).is_well_formed(),
        has_no_exploit(old(player_state).exploits(), evt.exploit_id) ==> *final(player_state)
            == *old(player_state),
        forall|index: int|
            is_first_with_id(old(player_state).exploits(), evt.exploit_id, index)
                ==> exploit_replaced(
                *old(player_state),
                *final(player_state),
                index,
                ActiveExploitView {
                    executor: old(player_state).exploits()[index].executor.with_paused(true),
                    ..old(player_state).exploits()[index]
                },
            ),
{
    match find_exploit(player_state, evt.exploit_id) {
        None => {},
        Some(index) => {
            let ghost stored = player_state.active_exploits@;
            player_state.active_exploits[index].stop_execution();
            proof {
                assert forall|k: int| 0 <= k < stored.len() && k != index implies (
                #[trigger] player_state.active_exploits@[k]) == stored[k] by {}
                assert(player_state.exploits() =~= old(player_state).exploits().update(
                    index as int,
                    player_state.active_exploits@[index as int]@,
                ));
            }
        },
    }
}

/// Lets the first exploit of the given id run on. A request for an id that no exploit
/// has is ignored.
pub fn on_request_resume_exploit(evt: &RequestResumeExploitEvent, player_state: &mut PlayerState)
    requires
        old(player_state).is_well_formed(),
    ensures
        final(player_state).is_well_formed(),
        has_no_exploit(old(player_state).exploits(), evt.exploit_id) ==> *final(player_state)
            == *old(player_state),
        forall|index: int|
            is_first_with_id(old(player_state).exploits(), evt.exploit_id, index)
                ==> exploit_replaced(
                *old(player_state),
                *final(player_state),
                index,
                ActiveExploitView {
                    executor: old(player_state).exploits()[index].executor.with_paused(false),
                    ..old(player_state).exploits()[index]
                },
            ),
{
    match find_exploit(player_state, evt.exploit_id) {
        None => {},
        Some(index) => {
            let ghost stored = player_state.active_exploits@;
            player_state.active_exploits[index].start_execution();
            proof {
                assert forall|k: int| 0 <= k < stored.len() && k != index implies (
                #[trigger] player_state.active_exploits@[k]) == stored[k] by {}
                assert(player_state.exploits() =~= old(player_state).exploits().update(
                    index as int,
                    player_state.active_exploits@[index as int]@,
                ));
            }
        },
    }
}

/// Begins the first exploit of the given id anew. A request for an id that no exploit
/// has is ignored.
pub fn on_request_restart_exploit(evt: &RequestRestartExploitEvent, player_state: &mut PlayerState)
    requires
        old(player_state).is_well_formed(),
    ensures
        final(player_state).is_well_formed(),
        has_no_exploit(old(player_state).exploits(), evt.exploit_id) ==> *final(player_state)
            == *old(player_state),
        forall|index: int|
            is_first_with_id(old(player_state).exploits(), evt.exploit_id, index)
                ==> exploit_replaced(
                *old(player_state),
                *final(player_state),
                index,
                old(player_state).exploits()[index].restarted(),
            ),
{
    match find_exploit(player_state, evt.exploit_id) {
        None => {},
        Some(index) => {
            let ghost stored = player_state.active_exploits@;
            player_state.active_exploits[index].restart();
            proof {
                assert forall|k: int| 0 <= k < stored.len() && k != index implies (
                #[trigger] player_state.active_exploits@[k]) == stored[k] by {}
                assert(player_state.exploits() =~= old(player_state).exploits().update(
                    index as int,
                    player_state.active_exploits@[index as int]@,
                ));
            }
        },
    }
}

/// Credits after a change of `delta`.
pub fn changed_credits(credits: u128, delta: i64) -> (r: u128)
    ensures
        r == credits_after(credits, delta),
{
    if delta >= 0 {
        credits.saturating_add(delta as u128)
    } else {
        let loss: u128 = (0 - delta as i128) as u128;
        credits.saturating_sub(loss)
    }
}

/// Changes the player's credits by the amount of the event. The credits never drop
/// below zero and never exceed what `u128` can hold.
pub fn on_modify_credits(evt: &ModifyCreditsEvent, player_state: &mut PlayerState)
    ensures
        *final(player_state) == (PlayerState {
            credits: credits_after(old(player_state).credits, evt.credits),
            progression: progression_after_credits(old(player_state).progression),
            ..*old(player_state)
        }),
{
    player_state.credits = changed_credits(player_state.credits, evt.credits);
    if player_state.progression == TutorialProgression::ExploitServersShown {
        player_state.progression.advance();
    }
}

/// The unlocks with one more bought.
pub open spec fn unlocked(unlocks: PlayerUnlocks, unlock: PlayerUnlock) -> PlayerUnlocks {
    match unlock {
        PlayerUnlock::ExploitAutoReconnect => PlayerUnlocks { exploit_auto_reconnect: true },
    }
}

/// Buys an unlock if the player has more credits than it costs; else nothing happens.
pub fn on_request_purchase_unlock(evt: &RequestPurchaseUnlockEvent, player_state: &mut PlayerState)
    ensures
        evt.credit_cost >= old(player_state).credits ==> *final(player_state) == *old(
            player_state,
        ),
        evt.credit_cost < old(player_state).credits ==> *final(player_state) == (PlayerState {
            credits: (old(player_state).credits - evt.credit_cost) as u128,
            player_unlocks: unlocked(old(player_state).player_unlocks, evt.unlock),
            ..*old(player_state)
        }),
{
    if evt.credit_cost >= player_state.credits {
        return ;
    }
    player_state.credits = player_state.credits - evt.credit_cost;
    match evt.unlock {
        PlayerUnlock::ExploitAutoReconnect => {
            player_state.player_unlocks.exploit_auto_reconnect = true;
        },
    }
}

/// Adds the script of the event to the player's scripts, after those that are there.
pub fn on_script_created(evt: ScriptCreatedEvent, player_state: &mut PlayerState)
    ensures
        final(player_state).scripts@ == old(player_state).scripts@.push(evt.script),
        final(player_state).active_exploits == old(player_state).active_exploits,
        final(player_state).next_exploit_id == old(player_state).next_exploit_id,
        final(player_state).progression == old(player_state).progression,
        final(player_state).credits == old(player_state).credits,
        final(player_state).inventory == old(player_state).inventory,
        final(player_state).servers == old(player_state).servers,
        final(player_state).known_targets == old(player_state).known_targets,
        final(player_state).player_unlocks == old(player_state).player_unlocks,
{
    player_state.scripts.push(evt.script);
}

/// The algorithms of the inventory after the item was added.
pub open spec fn inventory_with(algorithms: Seq<AlgorithmView>, item: InventoryItem) -> Seq<
    AlgorithmView,
> {
    match item {
        InventoryItem::Algorithm(algorithm) => algorithms.push(algorithm@),
    }
}

/// The algorithms of the inventory after the item was removed: an algorithm leaves
/// with every other one whose id matches its own.
pub open spec fn inventory_without(algorithms: Seq<AlgorithmView>, item: InventoryItem) -> Seq<
    AlgorithmView,
> {
    match item {
        InventoryItem::Algorithm(algorithm) => without_id(algorithms, algorithm@.id),
    }
}

/// Adds the item of the event to the player's inventory.
pub fn on_inventory_item_added(evt: InventoryItemAdded, player_state: &mut PlayerState)
    ensures
        algorithm_views(final(player_state).inventory.algorithms@) == inventory_with(
            algorithm_views(old(player_state).inventory.algorithms@),
            evt.item,
        ),
        final(player_state).active_exploits == old(player_state).active_exploits,
        final(player_state).next_exploit_id == old(player_state).next_exploit_id,
        final(player_state).progression == old(player_state).progression,
        final(player_state).credits == old(player_state).credits,
        final(player_state).servers == old(player_state).servers,
        final(player_state).known_targets == old(player_state).known_targets,
        final(player_state).scripts == old(player_state).scripts,
        final(player_state).player_unlocks == old(player_state).player_unlocks,
{
    player_state.inventory.add(evt.item);
}

/// Removes the item of the event from the player's inventory.
pub fn on_inventory_item_removed(evt: &InventoryItemRemoved, player_state: &mut PlayerState)
    ensures
        algorithm_views(final(player_state).inventory.algorithms@) == inventory_without(
            algorithm_views(old(player_state).inventory.algorithms@),
            evt.item,
        ),
        final(player_state).active_exploits == old(player_state).active_exploits,
        final(player_state).next_exploit_id == old(player_state).next_exploit_id,
        final(player_state).progression == old(player_state).progression,
        final(player_state).credits == old(player_state).credits,
        final(player_state).servers == old(player_state).servers,
        final(player_state).known_targets == old(player_state).known_targets,
        final(player_state).scripts == old(player_state).scripts,
        final(player_state).player_unlocks == old(player_state).player_unlocks,
{
    player_state.inventory.remove(&evt.item);
}

/// A fired effect together with the two servers it is resolved between: the one that
/// ran the algorithm, and the other one.
#[derive(Clone, Copy, PartialEq, Eq, Structural, Debug)]
pub struct AlgorithmEffectApplication {
    pub effect: AlgorithmEffect,
    pub host_server: ServerRef,
    pub target_server: ServerRef,
}

/// The server whose ledger the applied effect reads or changes.
pub open spec fn server_in_scope(application: AlgorithmEffectApplication) -> ServerRef {
    match scope_of(application.effect) {
        AlgorithmEffectTarget::SelfServer => application.host_server,
        AlgorithmEffectTarget::TargetServer => application.target_server,
    }
}

/// Whether the state holds the exploit and the two servers of the application.
pub open spec fn can_apply(
    player_state: PlayerState,
    application: AlgorithmEffectApplication,
    exploit: int,
) -> bool {
    &&& 0 <= exploit < player_state.active_exploits@.len()
    &&& player_state.holds(application.host_server)
    &&& player_state.holds(application.target_server)
}

/// What resolving the applied effect with `roll` comes to, for the exploit at
/// `exploit`.
pub open spec fn applied_resolution(
    player_state: PlayerState,
    application: AlgorithmEffectApplication,
    exploit: int,
    roll: i32,
) -> EffectResolution {
    resolution_of(
        application.effect,
        roll,
        player_state.exploits()[exploit].script.id,
        player_state.entries_at(server_in_scope(application)),
        player_state.exploits()[exploit].connection_current_health,
    )
}

/// Whether the servers of `after` are those of `before`, with the ledger of the server
/// `scope` replaced by `entries` and nothing else changed.
pub open spec fn ledger_replaced(
    before: PlayerState,
    after: PlayerState,
    scope: ServerRef,
    entries: Seq<ServerStatInstance>,
) -> bool {
    &&& after.servers@.len() == before.servers@.len()
    &&& after.known_targets@.len() == before.known_targets@.len()
    &&& forall|i: int|
        0 <= i < before.servers@.len() ==> if scope.is_player(i) {
            server_with_entries(before.servers@[i], #[trigger] after.servers@[i], entries)
        } else {
            after.servers@[i] == before.servers@[i]
        }
    &&& forall|i: int|
        0 <= i < before.known_targets@.len() ==> if scope.is_target(i) {
            &&& (#[trigger] after.known_targets@[i]).name == before.known_targets@[i].name
            &&& server_with_entries(
                before.known_targets@[i].server,
                after.known_targets@[i].server,
                entries,
            )
        } else {
            after.known_targets@[i] == before.known_targets@[i]
        }
}

/// Whether `after` is `before` with the effect applied under the number `roll`: the
/// ledger in scope extended, the credits raised by what was siphoned, the connection
/// of the exploit damaged, as the resolution says, and nothing else changed.
pub open spec fn effect_applied(
    before: PlayerState,
    after: PlayerState,
    application: AlgorithmEffectApplication,
    exploit: int,
    roll: i32,
) -> bool {
    let scope = server_in_scope(application);
    let resolution = applied_resolution(before, application, exploit, roll);
    &&& ledger_replaced(
        before,
        after,
        scope,
        entries_after(
            application.effect,
            roll,
            before.exploits()[exploit].script.id,
            before.entries_at(scope),
        ),
    )
    &&& after.credits == (match resolution {
        EffectResolution::Siphoned { credits, .. } => credits_after(before.credits, credits),
        _ => before.credits,
    })
    &&& after.progression == (match resolution {
        EffectResolution::Siphoned { .. } => progression_after_credits(before.progression),
        _ => before.progression,
    })
    &&& after.exploits() == before.exploits().update(
        exploit,
        match resolution {
            EffectResolution::Damaged { .. } => before.exploits()[exploit].terminated(roll),
            _ => before.exploits()[exploit],
        },
    )
    &&& after.next_exploit_id == before.next_exploit_id
    &&& after.inventory == before.inventory
    &&& after.scripts == before.scripts
    &&& after.player_unlocks == before.player_unlocks
}

/// Applies one effect under the number rolled for its potency.
pub fn apply_effect(
    player_state: &mut PlayerState,
    application: &AlgorithmEffectApplication,
    exploit: usize,
    roll: i32,
) -> (r: EffectResolution)
    requires
        old(player_state).is_well_formed(),
        can_apply(*old(player_state), *application, exploit as int),
    ensures
        final(player_state).is_well_formed(),
        r == applied_resolution(*old(player_state), *application, exploit as int, roll),
        effect_applied(
            *old(player_state),
            *final(player_state),
            *application,
            exploit as int,
            roll,
        ),
{
    let scope = match effect_scope(&application.effect) {
        AlgorithmEffectTarget::SelfServer => application.host_server,
        AlgorithmEffectTarget::TargetServer => application.target_server,
    };
    let script_id = player_state.active_exploits[exploit].script().id;
    let health = player_state.active_exploits[exploit].connection_current_health();
    let ghost servers = player_state.servers@;
    let ghost targets = player_state.known_targets@;
    let resolution = match scope {
        ServerRef::Player(i) => {
            let r = resolve_effect(
                application.effect,
                roll,
                script_id,
                &mut player_state.servers[i].stats,
                health,
            );
            assert forall|k: int| 0 <= k < servers.len() && k != i implies (
            #[trigger] player_state.servers@[k]) == servers[k] by {}
            assert(player_state.servers@[i as int].stats@ == entries_after(
                application.effect,
                roll,
                script_id,
                servers[i as int].stats@,
            ));
            r
        },
        ServerRef::Target(i) => {
            let r = resolve_effect(
                application.effect,
                roll,
                script_id,
                &mut player_state.known_targets[i].server.stats,
                health,
            );
            assert forall|k: int| 0 <= k < targets.len() && k != i implies (
            #[trigger] player_state.known_targets@[k]) == targets[k] by {}
            assert(player_state.known_targets@[i as int].server.stats@ == entries_after(
                application.effect,
                roll,
                script_id,
                targets[i as int].server.stats@,
            ));
            r
        },
    };
    match resolution {
        EffectResolution::Siphoned { credits, .. } => {
            on_modify_credits(
                &ModifyCreditsEvent { credits, source: ModificationSource::Script(script_id) },
                player_state,
            );
            assert(player_state.exploits() =~= old(player_state).exploits().update(
                exploit as int,
                old(player_state).exploits()[exploit as int],
            ));
        },
        EffectResolution::Damaged { .. } => {
            let ghost stored = player_state.active_exploits@;
            player_state.active_exploits[exploit].terminate(roll);
            proof {
                assert forall|k: int| 0 <= k < stored.len() && k != exploit implies (
                #[trigger] player_state.active_exploits@[k]) == stored[k] by {}
                assert(player_state.exploits() =~= old(player_state).exploits().update(
                    exploit as int,
                    old(player_state).exploits()[exploit as int].terminated(roll),
                ));
            }
        },
        _ => {
            assert(player_state.exploits() =~= old(player_state).exploits().update(
                exploit as int,
                old(player_state).exploits()[exploit as int],
            ));
        },
    }
    resolution
}

} // verus!

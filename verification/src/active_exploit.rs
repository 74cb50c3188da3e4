use crate::algorithm::algorithm::AlgorithmView;
use crate::algorithm::effect::AlgorithmEffect;
use crate::executor::Executor;
use crate::resolver::{damaged_health, health_after};
use crate::script::{Script, ScriptView};
use crate::script_executor::{ScriptExecutor, ScriptExecutorView};
use crate::server::Server;
use vstd::prelude::*;

verus! {

/// The health a connection starts with, and returns to when the exploit is restarted.
pub const INITIAL_CONNECTION_HEALTH: u32 = 100;

/// A node that exploits can be run against.
#[derive(Clone, Debug)]
pub struct ExploitTarget {
    pub name: String,
    pub server: Server,
}

/// The state of an active exploit as its observers see it.
#[derive(Clone, Copy, PartialEq, Eq, Structural, Debug)]
pub enum ActiveExploitStatus {
    Paused,
    Running,
    /// The connection has no health left.
    Disconnected,
}

/// A script running on a hosting server against a target.
///
/// The servers are named by their places in the player's lists: `hosting_server` among
/// the player's servers, `target` among the known targets.
pub struct ActiveExploit {
    id: u64,
    target: usize,
    hosting_server: usize,
    clock_allocation_hz: u64,
    connection_current_health: u32,
    connection_max_health: u32,
    auto_reconnect: bool,
    script: Script,
    script_executor: ScriptExecutor,
}

/// The mathematical content of an [`ActiveExploit`].
pub struct ActiveExploitView {
    pub id: u64,
    pub target: usize,
    pub hosting_server: usize,
    /// The share of the hosting server's clock speed that the exploit runs at.
    pub clock_allocation_hz: u64,
    pub connection_current_health: u32,
    pub connection_max_health: u32,
    pub auto_reconnect: bool,
    pub script: ScriptView,
    pub executor: ScriptExecutorView,
}

/// A started executor at the beginning of a script with these procedures.
pub open spec fn started(procedures: Seq<Seq<AlgorithmView>>) -> ScriptExecutorView {
    ScriptExecutorView::fresh(procedures).with_paused(false)
}

/// The executor after one advance of `n` instructions: ticked, and begun anew at the
/// start of the script if the tick completed it while running.
pub open spec fn advanced(
    executor: ScriptExecutorView,
    procedures: Seq<Seq<AlgorithmView>>,
    n: u64,
) -> ScriptExecutorView {
    let after = executor.after_tick(n);
    if !after.is_paused && after.is_complete() {
        started(procedures)
    } else {
        after
    }
}

/// The status of an exploit with this health whose executor is paused or not.
pub open spec fn status_of(health: u32, is_paused: bool) -> ActiveExploitStatus {
    if health == 0 {
        ActiveExploitStatus::Disconnected
    } else if is_paused {
        ActiveExploitStatus::Paused
    } else {
        ActiveExploitStatus::Running
    }
}

impl ActiveExploitView {
    pub open spec fn status(self) -> ActiveExploitStatus {
        status_of(self.connection_current_health, self.executor.is_paused)
    }

    /// The exploit after its script was begun anew and its connection restored.
    pub open spec fn restarted(self) -> ActiveExploitView {
        ActiveExploitView {
            connection_current_health: self.connection_max_health,
            executor: started(self.script.procedures),
            ..self
        }
    }

    /// The exploit after damage of `roll` to its connection: the script is stopped
    /// when no health is left.
    pub open spec fn terminated(self, roll: i32) -> ActiveExploitView {
        let health = health_after(self.connection_current_health, roll);
        ActiveExploitView {
            connection_current_health: health,
            executor: if health == 0 {
                self.executor.with_paused(true)
            } else {
                self.executor
            },
            ..self
        }
    }

    /// The exploit after its script was advanced by `host_ticks` and then by
    /// `target_ticks`.
    pub open spec fn ticked(self, host_ticks: u64, target_ticks: u64) -> ActiveExploitView {
        ActiveExploitView {
            executor: advanced(
                advanced(self.executor, self.script.procedures, host_ticks),
                self.script.procedures,
                target_ticks,
            ),
            ..self
        }
    }
}

impl View for ActiveExploit {
    type V = ActiveExploitView;

    closed spec fn view(&self) -> ActiveExploitView {
        ActiveExploitView {
            id: self.id,
            target: self.target,
            hosting_server: self.hosting_server,
            clock_allocation_hz: self.clock_allocation_hz,
            connection_current_health: self.connection_current_health,
            connection_max_health: self.connection_max_health,
            auto_reconnect: self.auto_reconnect,
            script: self.script@,
            executor: self.script_executor@,
        }
    }
}

impl ActiveExploit {
    /// The script can be run and the executor is in order.
    pub closed spec fn is_well_formed(&self) -> bool {
        &&& self.script@.is_runnable()
        &&& self.script_executor.is_well_formed()
    }

    /// Binds a fresh, started executor of `script` to a hosting server and a target,
    /// with full connection health.
    pub fn new(
        id: u64,
        target: usize,
        script: Script,
        hosting_server: usize,
        clock_allocation_hz: u64,
        auto_reconnect: bool,
    ) -> (r: ActiveExploit)
        requires
            script@.is_runnable(),
        ensures
            r.is_well_formed(),
            r@ == (ActiveExploitView {
                id,
                target,
                hosting_server,
                clock_allocation_hz,
                connection_current_health: INITIAL_CONNECTION_HEALTH,
                connection_max_health: INITIAL_CONNECTION_HEALTH,
                auto_reconnect,
                script: script@,
                executor: started(script@.procedures),
            }),
    {
        let mut script_executor = script.executor();
        script_executor.start_execution();
        ActiveExploit {
            id,
            target,
            hosting_server,
            clock_allocation_hz,
            connection_current_health: INITIAL_CONNECTION_HEALTH,
            connection_max_health: INITIAL_CONNECTION_HEALTH,
            auto_reconnect,
            script,
            script_executor,
        }
    }

    pub fn id(&self) -> (r: u64)
        ensures
            r == self@.id,
    {
        self.id
    }

    /// The place of the target among the known targets.
    pub fn target(&self) -> (r: usize)
        ensures
            r == self@.target,
    {
        self.target
    }

    /// The place of the hosting server among the player's servers.
    pub fn hosting_server(&self) -> (r: usize)
        ensures
            r == self@.hosting_server,
    {
        self.hosting_server
    }

    /// The share of the hosting server's clock speed that the exploit runs at.
    pub fn clock_allocation_hz(&self) -> (r: u64)
        ensures
            r == self@.clock_allocation_hz,
    {
        self.clock_allocation_hz
    }

    /// Gives the exploit another share of its hosting server's clock speed.
    pub fn set_clock_allocation_hz(&mut self, clock_allocation_hz: u64)
        ensures
            final(self)@ == (ActiveExploitView { clock_allocation_hz, ..old(self)@ }),
            final(self).is_well_formed() == old(self).is_well_formed(),
    {
        self.clock_allocation_hz = clock_allocation_hz;
    }

    pub fn connection_current_health(&self) -> (r: u32)
        ensures
            r == self@.connection_current_health,
    {
        self.connection_current_health
    }

    pub fn connection_max_health(&self) -> (r: u32)
        ensures
            r == self@.connection_max_health,
    {
        self.connection_max_health
    }

    /// Sets both the current and the full health of the connection.
    pub fn set_connection_health(&mut self, health: u32)
        ensures
            final(self)@ == (ActiveExploitView {
                connection_current_health: health,
                connection_max_health: health,
                ..old(self)@
            }),
            final(self).is_well_formed() == old(self).is_well_formed(),
    {
        self.connection_current_health = health;
        self.connection_max_health = health;
    }

    pub fn auto_reconnect(&self) -> (r: bool)
        ensures
            r == self@.auto_reconnect,
    {
        self.auto_reconnect
    }

    /// The script that the exploit runs.
    pub fn script(&self) -> (r: &Script)
        ensures
            r@ == self@.script,
    {
        &self.script
    }

    fn advance(&mut self, tick_count: u64) -> (effects: Vec<AlgorithmEffect>)
        requires
            old(self).is_well_formed(),
        ensures
            final(self).is_well_formed(),
            effects@ == old(self)@.executor.tick_effects(tick_count),
            final(self)@ == (ActiveExploitView {
                executor: advanced(old(self)@.executor, old(self)@.script.procedures, tick_count),
                ..old(self)@
            }),
            forall|i: int| 0 <= i < effects@.len() ==> (#[trigger] effects@[i]).is_well_formed(),
    {
        let effects = self.script_executor.tick_execution(tick_count);
        if !self.script_executor.is_paused() && self.script_executor.is_complete() {
            let mut script_executor = self.script.executor();
            script_executor.start_execution();
            self.script_executor = script_executor;
        }
        effects
    }

    /// Advances the script by `host_ticks` and then by `target_ticks`, and returns the
    /// effects that each of the two advances fired. An advance that completes the
    /// script while it runs begins it anew.
    pub fn tick(&mut self, host_ticks: u64, target_ticks: u64) -> (effects: (
        Vec<AlgorithmEffect>,
        Vec<AlgorithmEffect>,
    ))
        requires
            old(self).is_well_formed(),
        ensures
            final(self).is_well_formed(),
            effects.0@ == old(self)@.executor.tick_effects(host_ticks),
            effects.1@ == advanced(
                old(self)@.executor,
                old(self)@.script.procedures,
                host_ticks,
            ).tick_effects(target_ticks),
            final(self)@ == old(self)@.ticked(host_ticks, target_ticks),
            forall|i: int|
                0 <= i < effects.0@.len() ==> (#[trigger] effects.0@[i]).is_well_formed(),
            forall|i: int|
                0 <= i < effects.1@.len() ==> (#[trigger] effects.1@[i]).is_well_formed(),
    {
        let host_effects = self.advance(host_ticks);
        let target_effects = self.advance(target_ticks);
        (host_effects, target_effects)
    }

    /// Pauses the script where it stands.
    pub fn stop_execution(&mut self)
        requires
            old(self).is_well_formed(),
        ensures
            final(self).is_well_formed(),
            final(self)@ == (ActiveExploitView {
                executor: old(self)@.executor.with_paused(true),
                ..old(self)@
            }),
    {
        self.script_executor.stop_execution();
    }

    /// Lets the script run on from where it stands.
    pub fn start_execution(&mut self)
        requires
            old(self).is_well_formed(),
        ensures
            final(self).is_well_formed(),
            final(self)@ == (ActiveExploitView {
                executor: old(self)@.executor.with_paused(false),
                ..old(self)@
            }),
    {
        self.script_executor.start_execution();
    }

    /// Begins the script anew, started, and restores the connection to full health.
    pub fn restart(&mut self)
        requires
            old(self).is_well_formed(),
        ensures
            final(self).is_well_formed(),
            final(self)@ == old(self)@.restarted(),
    {
        let mut script_executor = self.script.executor();
        script_executor.start_execution();
        self.script_executor = script_executor;
        self.connection_current_health = self.connection_max_health;
    }

    /// Damages the connection by the size of `roll`. Health never drops below zero;
    /// when it reaches zero, the script is stopped.
    pub fn terminate(&mut self, roll: i32)
        requires
            old(self).is_well_formed(),
        ensures
            final(self).is_well_formed(),
            final(self)@ == old(self)@.terminated(roll),
    {
        self.connection_current_health = damaged_health(self.connection_current_health, roll);
        if self.connection_current_health == 0 {
            self.script_executor.stop_execution();
        }
    }

    /// `Disconnected` when no health is left; else `Paused` or `Running`.
    pub fn status(&self) -> (r: ActiveExploitStatus)
        ensures
            r == self@.status(),
    {
        if self.connection_current_health == 0 {
            ActiveExploitStatus::Disconnected
        } else if self.script_executor.is_paused() {
            ActiveExploitStatus::Paused
        } else {
            ActiveExploitStatus::Running
        }
    }

    /// How many instructions of the current run have been executed.
    pub fn progress(&self) -> (r: u64)
        requires
            self.is_well_formed(),
        ensures
            r == self@.executor.progress(),
    {
        proof {
            self.script_executor.lemma_well_formed();
        }
        self.script_executor.progress()
    }

    /// How many instructions one run of the script takes.
    pub fn total_instructions(&self) -> (r: u64)
        requires
            self.is_well_formed(),
        ensures
            r == self@.executor.total_instructions(),
    {
        proof {
            self.script_executor.lemma_well_formed();
        }
        self.script_executor.total_instructions()
    }
}

} // verus!

use crate::active_exploit::{ActiveExploit, ActiveExploitView, ExploitTarget};
use crate::inventory::Inventory;
use crate::script::Script;
use crate::server::{Server, ServerStatInstance};
use crate::tutorial::progression::TutorialProgression;
use vstd::prelude::*;

verus! {

/// What the player can buy.
#[derive(Clone, Copy, PartialEq, Eq, Structural, Debug)]
pub enum PlayerUnlock {
    ExploitAutoReconnect,
}

/// What the player has bought.
#[derive(Clone, Copy, PartialEq, Eq, Structural, Debug)]
pub struct PlayerUnlocks {
    pub exploit_auto_reconnect: bool,
}

/// Everything the player owns and runs. It is the one owner of the servers, targets,
/// scripts and active exploits; an exploit names its servers by their places here.
pub struct PlayerState {
    pub progression: TutorialProgression,
    pub credits: u128,
    pub inventory: Inventory,
    pub servers: Vec<Server>,
    pub known_targets: Vec<ExploitTarget>,
    pub active_exploits: Vec<ActiveExploit>,
    pub scripts: Vec<Script>,
    pub player_unlocks: PlayerUnlocks,
    /// The id that the next exploit to be started gets.
    pub next_exploit_id: u64,
}

/// One of the servers that the player's state holds: one of the player's own, or the
/// server of a known target, by its place in the list.
#[derive(Clone, Copy, PartialEq, Eq, Structural, Debug)]
pub enum ServerRef {
    Player(usize),
    Target(usize),
}

impl ServerRef {
    /// Whether this names the player's server at place `index`.
    pub open spec fn is_player(self, index: int) -> bool {
        match self {
            ServerRef::Player(i) => i == index,
            ServerRef::Target(_) => false,
        }
    }

    /// Whether this names the server of the known target at place `index`.
    pub open spec fn is_target(self, index: int) -> bool {
        match self {
            ServerRef::Player(_) => false,
            ServerRef::Target(i) => i == index,
        }
    }
}

/// The contents of a run of exploits, in the same order.
pub open spec fn exploit_views(exploits: Seq<ActiveExploit>) -> Seq<ActiveExploitView> {
    Seq::new(exploits.len(), |i: int| exploits[i]@)
}

/// Whether `after` is `before` with the given ledger and nothing else changed.
pub open spec fn server_with_entries(
    before: Server,
    after: Server,
    entries: Seq<ServerStatInstance>,
) -> bool {
    &&& after.name == before.name
    &&& after.threads == before.threads
    &&& after.clock_speed_hz == before.clock_speed_hz
    &&& after.stats@ == entries
}

impl PlayerState {
    /// Every exploit is in order and names a server and a target that exist.
    pub open spec fn is_well_formed(&self) -> bool {
        forall|i: int|
            0 <= i < self.active_exploits@.len() ==> {
                &&& (#[trigger] self.active_exploits@[i]).is_well_formed()
                &&& self.active_exploits@[i]@.hosting_server < self.servers@.len()
                &&& self.active_exploits@[i]@.target < self.known_targets@.len()
            }
    }

    /// Whether the state holds the server that `server` names.
    pub open spec fn holds(&self, server: ServerRef) -> bool {
        match server {
            ServerRef::Player(i) => i < self.servers@.len(),
            ServerRef::Target(i) => i < self.known_targets@.len(),
        }
    }

    /// The server that `server` names.
    pub open spec fn server_at(&self, server: ServerRef) -> Server
        recommends
            self.holds(server),
    {
        match server {
            ServerRef::Player(i) => self.servers@[i as int],
            ServerRef::Target(i) => self.known_targets@[i as int].server,
        }
    }

    /// The ledger of the server that `server` names.
    pub open spec fn entries_at(&self, server: ServerRef) -> Seq<ServerStatInstance>
        recommends
            self.holds(server),
    {
        self.server_at(server).stats@
    }

    /// The exploits as they stand.
    pub open spec fn exploits(&self) -> Seq<ActiveExploitView> {
        exploit_views(self.active_exploits@)
    }

    /// Whether every exploit names a server and a target that exist.
    pub open spec fn bindings_in_range(&self) -> bool {
        forall|i: int|
            0 <= i < self.exploits().len() ==> {
                &&& (#[trigger] self.exploits()[i]).hosting_server < self.servers@.len()
                &&& self.exploits()[i].target < self.known_targets@.len()
            }
    }

    /// Tells whether every exploit names a server and a target that exist. This can
    /// only fail after servers or targets were taken away.
    pub fn has_bindings_in_range(&self) -> (r: bool)
        ensures
            r == self.bindings_in_range(),
    {
        let mut i: usize = 0;
        while i < self.active_exploits.len()
            invariant
                i <= self.active_exploits.len(),
                forall|k: int|
                    0 <= k < i ==> {
                        &&& (#[trigger] self.exploits()[k]).hosting_server < self.servers@.len()
                        &&& self.exploits()[k].target < self.known_targets@.len()
                    },
            decreases self.active_exploits.len() - i,
        {
            let exploit = &self.active_exploits[i];
            if exploit.hosting_server() >= self.servers.len() || exploit.target()
                >= self.known_targets.len() {
                assert(!(self.exploits()[i as int].hosting_server < self.servers@.len()
                    && self.exploits()[i as int].target < self.known_targets@.len()));
                return false;
            }
            i += 1;
        }
        true
    }
}

} // verus!

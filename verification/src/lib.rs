//! Tick-driven execution of player-written scripts against computing nodes.
//!
//! An algorithm is a flat table of effects indexed by instruction count. Algorithms are
//! chained into procedures, procedures run side by side in a script, and an active
//! exploit binds a running script to a hosting and a target server. Fired effects are
//! resolved into credits, stat entries and connection damage.

pub mod active_exploit;
pub mod algorithm;
pub mod event;
pub mod executor;
pub mod inventory;
pub mod player;
pub mod player_state;
pub mod resolver;
pub mod script;
pub mod script_executor;
pub mod server;
pub mod sums;
pub mod tutorial;

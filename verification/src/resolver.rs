use crate::algorithm::effect::{AlgorithmEffect, AlgorithmEffectTarget};
use crate::script::ScriptId;
use crate::server::{
    clamp_i32, stat_modification, stat_value, ServerStatInstance, ServerStatSource, ServerStatType,
    ServerStats,
};
use vstd::prelude::*;

verus! {

/// What resolving one fired effect with one rolled number comes to.
#[derive(Clone, Copy, PartialEq, Eq, Structural, Debug)]
pub enum EffectResolution {
    /// Nothing happens: an exfiltration that was resisted, or a purge with nothing
    /// to wash out.
    Ignored,
    /// Credits are gained: the roll less the target's resistance, never below zero.
    Siphoned { roll: i32, credits: i64 },
    /// An algorithm is gained; `value` is the roll less the target's resistance.
    Exfiltrated { roll: i32, value: i32 },
    /// An entry of `roll` was appended to a ledger; `value` is the stat afterwards.
    StatChanged { roll: i32, value: i32 },
    /// The connection was damaged; `health` is what is left of it.
    Damaged { roll: i32, health: u32 },
}

/// The server whose ledger an effect reads or changes, seen from the server that runs
/// the algorithm. Siphon and Exfil read the other server's resistance.
pub open spec fn scope_of(effect: AlgorithmEffect) -> AlgorithmEffectTarget {
    match effect {
        AlgorithmEffect::Modify { target, .. } => target,
        AlgorithmEffect::Purge { target, .. } => target,
        AlgorithmEffect::Terminate { .. } => AlgorithmEffectTarget::SelfServer,
        _ => AlgorithmEffectTarget::TargetServer,
    }
}

/// A purge of one's own server acts only on a negative modification, a purge of the
/// other server only on a positive one.
pub open spec fn purge_acts(target: AlgorithmEffectTarget, modification: i32) -> bool {
    match target {
        AlgorithmEffectTarget::SelfServer => modification < 0,
        AlgorithmEffectTarget::TargetServer => modification > 0,
    }
}

/// The roll a purge appends: never negative on one's own server, never positive on the
/// other.
pub open spec fn purge_roll(target: AlgorithmEffectTarget, roll: i32) -> i32 {
    match target {
        AlgorithmEffectTarget::SelfServer => if roll < 0 {
            0
        } else {
            roll
        },
        AlgorithmEffectTarget::TargetServer => if roll > 0 {
            0
        } else {
            roll
        },
    }
}

/// Whether the effect does anything on a server with these entries, so that a number
/// has to be drawn for it. Only a purge can have nothing to do.
pub open spec fn effect_acts(effect: AlgorithmEffect, entries: Seq<ServerStatInstance>) -> bool {
    match effect {
        AlgorithmEffect::Purge { target, stat, .. } => purge_acts(
            target,
            stat_modification(entries, stat),
        ),
        _ => true,
    }
}

/// The entry that the effect appends to the ledger in its scope, if it appends one.
pub open spec fn appended_entry(
    effect: AlgorithmEffect,
    roll: i32,
    script_id: ScriptId,
    entries: Seq<ServerStatInstance>,
) -> Option<ServerStatInstance> {
    match effect {
        AlgorithmEffect::Modify { stat, .. } => Some(
            ServerStatInstance(ServerStatSource::Script(script_id), stat, roll),
        ),
        AlgorithmEffect::Purge { target, stat, .. } => if purge_acts(
            target,
            stat_modification(entries, stat),
        ) {
            Some(
                ServerStatInstance(
                    ServerStatSource::Script(script_id),
                    stat,
                    purge_roll(target, roll),
                ),
            )
        } else {
            None
        },
        _ => None,
    }
}

/// The ledger in the effect's scope after the effect was resolved.
pub open spec fn entries_after(
    effect: AlgorithmEffect,
    roll: i32,
    script_id: ScriptId,
    entries: Seq<ServerStatInstance>,
) -> Seq<ServerStatInstance> {
    match appended_entry(effect, roll, script_id, entries) {
        Some(entry) => entries.push(entry),
        None => entries,
    }
}

/// What is left of a connection of `health` after damage of `roll`: the health less
/// the size of the roll, never below zero.
pub open spec fn health_after(health: u32, roll: i32) -> u32 {
    let damage = if roll < 0 {
        -(roll as int)
    } else {
        roll as int
    };
    if damage >= health {
        0
    } else {
        (health - damage) as u32
    }
}

/// What resolving `effect` with `roll` comes to, on the ledger in the effect's scope
/// and a connection of `health`.
pub open spec fn resolution_of(
    effect: AlgorithmEffect,
    roll: i32,
    script_id: ScriptId,
    entries: Seq<ServerStatInstance>,
    health: u32,
) -> EffectResolution {
    match effect {
        AlgorithmEffect::Siphon { .. } => {
            let gain = roll - stat_value(entries, ServerStatType::SiphonResist);
            EffectResolution::Siphoned {
                roll,
                credits: if gain < 0 {
                    0
                } else {
                    gain as i64
                },
            }
        },
        AlgorithmEffect::Exfil { .. } => {
            let gain = roll - stat_value(entries, ServerStatType::ExfilResist);
            if gain <= 0 {
                EffectResolution::Ignored
            } else {
                EffectResolution::Exfiltrated { roll, value: clamp_i32(gain) }
            }
        },
        AlgorithmEffect::Modify { stat, .. } => EffectResolution::StatChanged {
            roll,
            value: stat_value(entries_after(effect, roll, script_id, entries), stat),
        },
        AlgorithmEffect::Purge { target, stat, .. } => if purge_acts(
            target,
            stat_modification(entries, stat),
        ) {
            EffectResolution::StatChanged {
                roll: purge_roll(target, roll),
                value: stat_value(entries_after(effect, roll, script_id, entries), stat),
            }
        } else {
            EffectResolution::Ignored
        },
        AlgorithmEffect::Terminate { .. } => EffectResolution::Damaged {
            roll,
            health: health_after(health, roll),
        },
    }
}

/// The server whose ledger the effect reads or changes.
pub fn effect_scope(effect: &AlgorithmEffect) -> (r: AlgorithmEffectTarget)
    ensures
        r == scope_of(*effect),
{
    match effect {
        AlgorithmEffect::Modify { target, .. } => *target,
        AlgorithmEffect::Purge { target, .. } => *target,
        AlgorithmEffect::Terminate { .. } => AlgorithmEffectTarget::SelfServer,
        _ => AlgorithmEffectTarget::TargetServer,
    }
}

/// Tells whether the effect does anything on the ledger in its scope.
pub fn effect_applies(effect: &AlgorithmEffect, stats: &ServerStats) -> (r: bool)
    ensures
        r == effect_acts(*effect, stats@),
{
    match effect {
        AlgorithmEffect::Purge { target, stat, .. } => {
            let modification = stats.modification_of(*stat);
            match target {
                AlgorithmEffectTarget::SelfServer => modification < 0,
                AlgorithmEffectTarget::TargetServer => modification > 0,
            }
        },
        _ => true,
    }
}

/// What is left of a connection of `health` after damage of `roll`.
pub fn damaged_health(health: u32, roll: i32) -> (r: u32)
    ensures
        r == health_after(health, roll),
{
    let wide: i64 = roll as i64;
    let damage: u32 = if wide < 0 {
        (0 - wide) as u32
    } else {
        wide as u32
    };
    health.saturating_sub(damage)
}

/// Resolves one fired effect with the number rolled for its potency.
///
/// `stats` is the ledger of the server in the effect's scope; `health` is the health of
/// the connection of the exploit that the effect belongs to.
pub fn resolve_effect(
    effect: AlgorithmEffect,
    roll: i32,
    script_id: ScriptId,
    stats: &mut ServerStats,
    health: u32,
) -> (r: EffectResolution)
    ensures
        r == resolution_of(effect, roll, script_id, old(stats)@, health),
        final(stats)@ == entries_after(effect, roll, script_id, old(stats)@),
{
    match effect {
        AlgorithmEffect::Siphon { .. } => {
            let defense = stats.value_of(ServerStatType::SiphonResist);
            let gain: i64 = roll as i64 - defense as i64;
            EffectResolution::Siphoned {
                roll,
                credits: if gain < 0 {
                    0
                } else {
                    gain
                },
            }
        },
        AlgorithmEffect::Exfil { .. } => {
            let defense = stats.value_of(ServerStatType::ExfilResist);
            let gain: i64 = roll as i64 - defense as i64;
            if gain <= 0 {
                EffectResolution::Ignored
            } else if gain > i32::MAX as i64 {
                EffectResolution::Exfiltrated { roll, value: i32::MAX }
            } else {
                EffectResolution::Exfiltrated { roll, value: gain as i32 }
            }
        },
        AlgorithmEffect::Modify { stat, .. } => {
            stats.apply_and_purge(
                ServerStatInstance::new(ServerStatSource::Script(script_id), stat, roll),
            );
            EffectResolution::StatChanged { roll, value: stats.value_of(stat) }
        },
        AlgorithmEffect::Purge { target, stat, .. } => {
            if !effect_applies(&effect, stats) {
                return EffectResolution::Ignored;
            }
            let applied = match target {
                AlgorithmEffectTarget::SelfServer => if roll < 0 {
                    0
                } else {
                    roll
                },
                AlgorithmEffectTarget::TargetServer => if roll > 0 {
                    0
                } else {
                    roll
                },
            };
            stats.apply_and_purge(
                ServerStatInstance::new(ServerStatSource::Script(script_id), stat, applied),
            );
            EffectResolution::StatChanged { roll: applied, value: stats.value_of(stat) }
        },
        AlgorithmEffect::Terminate { .. } => EffectResolution::Damaged {
            roll,
            health: damaged_health(health, roll),
        },
    }
}

} // verus!

//! Game commands with tick stamps.
//!
//! Commands represent player actions that affect the simulation. Each
//! command is stamped with a tick number, the issuing player and a
//! buffer-assigned sequence number; the triple gives the total order in
//! which commands are applied, which is what makes replays and lockstep
//! networking deterministic.

use vstd::prelude::*;

use crate::ids::{EntityId, PlayerId, TechId};

verus! {

/// Types of units that can be produced.
#[derive(Clone, Copy, PartialEq, Eq, Structural, Hash, Debug)]
pub enum UnitType {
    Villager,
    Soldier,
}

impl UnitType {
    /// The population each unit of this type occupies.
    pub open spec fn population_cost_spec(self) -> u32 {
        match self {
            UnitType::Villager => 1,
            UnitType::Soldier => 1,
        }
    }

    /// Get the population cost for this unit type.
    pub fn population_cost(&self) -> (r: u32)
        ensures
            r == self.population_cost_spec(),
    {
        match self {
            UnitType::Villager => 1,
            UnitType::Soldier => 1,
        }
    }
}

/// Types of buildings that can be constructed.
#[derive(Clone, Copy, PartialEq, Eq, Structural, Hash, Debug)]
pub enum BuildingType {
    TownCenter,
    Barracks,
}

/// A game command representing a player action.
///
/// Positions are fixed-point integers in milli-tiles.
#[derive(Clone, Debug)]
pub enum GameCommand {
    /// Move selected entities to a target position.
    Move { entities: Vec<EntityId>, target_x: i64, target_z: i64 },
    /// Order entities to gather from a resource node.
    Gather { entities: Vec<EntityId>, node: EntityId },
    /// Order a builder to construct a building.
    Build { builder: EntityId, building_type: BuildingType, tile_x: i32, tile_z: i32 },
    /// Queue a unit for production at a building.
    QueueUnit { building: EntityId, unit_type: UnitType },
    /// Research a technology at a building.
    ResearchTech { building: EntityId, tech_id: TechId },
    /// Cancel a production queue item.
    CancelProduction { building: EntityId, queue_index: usize },
    /// Stop current action for entities.
    Stop { entities: Vec<EntityId> },
}

/// A command stamped with tick and player information for determinism.
#[derive(Clone, Debug)]
pub struct StampedCommand {
    /// The simulation tick this command should execute on.
    pub tick: u64,
    /// The player who issued this command.
    pub player_id: PlayerId,
    /// Sequence number for stable ordering within same tick/player.
    pub sequence: u64,
    /// The actual command.
    pub command: GameCommand,
}

impl StampedCommand {
    pub fn new(tick: u64, player_id: PlayerId, sequence: u64, command: GameCommand) -> (r: Self)
        ensures
            r.tick == tick,
            r.player_id == player_id,
            r.sequence == sequence,
            r.command == command,
    {
        StampedCommand { tick, player_id, sequence, command }
    }
}

/// The total order over stamped commands: tick ascending, then player id
/// ascending, then sequence ascending. Reproducing this comparator exactly
/// is what keeps two independent runs of the simulation in lockstep.
pub open spec fn cmd_le(a: StampedCommand, b: StampedCommand) -> bool {
    if a.tick != b.tick {
        a.tick < b.tick
    } else if a.player_id.0 != b.player_id.0 {
        a.player_id.0 < b.player_id.0
    } else {
        a.sequence <= b.sequence
    }
}

/// Whether a sequence of commands is sorted by `cmd_le`.
pub open spec fn sorted_cmds(s: Seq<StampedCommand>) -> bool {
    forall|i: int, j: int| 0 <= i < j < s.len() ==> cmd_le(#[trigger] s[i], #[trigger] s[j])
}

/// Executable comparison deciding `cmd_le`.
pub fn cmd_precedes(a: &StampedCommand, b: &StampedCommand) -> (r: bool)
    ensures
        r == cmd_le(*a, *b),
{
    if a.tick != b.tick {
        a.tick < b.tick
    } else if a.player_id.0 != b.player_id.0 {
        a.player_id.0 < b.player_id.0
    } else {
        a.sequence <= b.sequence
    }
}

/// Whether the sequence numbers in `s` are pairwise distinct.
pub open spec fn distinct_sequences(s: Seq<StampedCommand>) -> bool {
    forall|i: int, j: int|
        0 <= i < j < s.len() ==> (#[trigger] s[i]).sequence != (#[trigger] s[j]).sequence
}

/// Ordering invariant: in a sequence sorted by the command order whose
/// sequence numbers are pairwise distinct, ticks are non-decreasing,
/// player ids are non-decreasing within one tick, and sequence numbers
/// are strictly increasing within one tick and player.
pub proof fn lemma_sorted_commands_order(s: Seq<StampedCommand>, i: int, j: int)
    requires
        sorted_cmds(s),
        distinct_sequences(s),
        0 <= i < j < s.len(),
    ensures
        s[i].tick <= s[j].tick,
        s[i].tick == s[j].tick ==> s[i].player_id.0 <= s[j].player_id.0,
        s[i].tick == s[j].tick && s[i].player_id.0 == s[j].player_id.0 ==> s[i].sequence
            < s[j].sequence,
{
    assert(cmd_le(s[i], s[j]));
}

} // verus!

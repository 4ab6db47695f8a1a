//! Simulation world state and entity management.
//!
//! The world owns the per-player economic state and the registry of
//! entity records. Entities are records of optional components, held in
//! registration order: that order is part of the deterministic contract,
//! since ties (such as equally near drop-offs) are broken by it.

use vstd::prelude::*;

use crate::components::{
    pos_in_bounds, gatherer_wf, node_wf, Building, CombatStats, Gatherer, Health, MoveTarget,
    Owner, ProductionQueue, ResourceNode, Selected, SimPosition, SpawnPoint, Unit,
};
use crate::ids::{AgeId, EntityId, PlayerId};
use crate::resources::ResourceBundle;

verus! {

/// Generator for unique entity identifiers. Identifiers start at 1
/// (0 is reserved as invalid) and are monotonically assigned, never
/// reused.
pub struct EntityIdGenerator {
    pub next_id: u64,
}

impl EntityIdGenerator {
    pub fn new() -> (r: Self)
        ensures
            r.next_id == 0,
    {
        EntityIdGenerator { next_id: 0 }
    }

    /// Hand out the next fresh identifier.
    pub fn next(&mut self) -> (r: EntityId)
        requires
            old(self).next_id < u64::MAX,
        ensures
            final(self).next_id == old(self).next_id + 1,
            r.0 == old(self).next_id + 1,
            r.0 != 0,
    {
        self.next_id = self.next_id + 1;
        EntityId(self.next_id)
    }
}

impl Default for EntityIdGenerator {
    fn default() -> (r: Self)
        ensures
            r.next_id == 0,
    {
        EntityIdGenerator::new()
    }
}

/// Accumulated technology modifiers for a player. Gather-rate bonuses
/// are percentages (10 means +10%), capacity and attack bonuses are
/// flat amounts.
#[derive(Clone, Copy, PartialEq, Eq, Structural, Debug)]
pub struct TechModifiers {
    pub gather_rate_bonus_food: i32,
    pub gather_rate_bonus_wood: i32,
    pub gather_rate_bonus_gold: i32,
    pub gather_rate_bonus_stone: i32,
    pub carry_capacity_bonus: i32,
    pub build_speed_bonus: i32,
    pub production_speed_bonus: i32,
    pub unit_hp_bonus: i32,
    pub unit_attack_bonus: i32,
}

impl Default for TechModifiers {
    fn default() -> (r: Self)
        ensures
            r == TechModifiers::zero(),
    {
        TechModifiers {
            gather_rate_bonus_food: 0,
            gather_rate_bonus_wood: 0,
            gather_rate_bonus_gold: 0,
            gather_rate_bonus_stone: 0,
            carry_capacity_bonus: 0,
            build_speed_bonus: 0,
            production_speed_bonus: 0,
            unit_hp_bonus: 0,
            unit_attack_bonus: 0,
        }
    }
}

impl TechModifiers {
    /// The all-zero modifier set.
    pub open spec fn zero() -> TechModifiers {
        TechModifiers {
            gather_rate_bonus_food: 0,
            gather_rate_bonus_wood: 0,
            gather_rate_bonus_gold: 0,
            gather_rate_bonus_stone: 0,
            carry_capacity_bonus: 0,
            build_speed_bonus: 0,
            production_speed_bonus: 0,
            unit_hp_bonus: 0,
            unit_attack_bonus: 0,
        }
    }
}

/// Per-player mutable state.
#[derive(Clone, Debug)]
pub struct PlayerState {
    pub id: PlayerId,
    pub resources: ResourceBundle,
    pub population: u32,
    pub population_cap: u32,
    pub current_age: AgeId,
    pub researched_techs: Vec<String>,
    pub tech_modifiers: TechModifiers,
}

impl PlayerState {
    /// A fresh player: the standard starting resources, no population,
    /// the starting population cap, the first age, nothing researched.
    pub fn new(id: PlayerId) -> (r: Self)
        ensures
            r.id == id,
            r.resources == (ResourceBundle { food: 200, wood: 200, gold: 0, stone: 0 }),
            r.population == 0,
            r.population_cap == 5,
            r.current_age.0@ == "dark_age"@,
            r.researched_techs@ == Seq::<String>::empty(),
            r.tech_modifiers == TechModifiers::zero(),
    {
        PlayerState {
            id,
            resources: ResourceBundle { food: 200, wood: 200, gold: 0, stone: 0 },
            population: 0,
            population_cap: 5,
            current_age: AgeId::new("dark_age".to_owned()),
            researched_techs: Vec::new(),
            tech_modifiers: TechModifiers {
                gather_rate_bonus_food: 0,
                gather_rate_bonus_wood: 0,
                gather_rate_bonus_gold: 0,
                gather_rate_bonus_stone: 0,
                carry_capacity_bonus: 0,
                build_speed_bonus: 0,
                production_speed_bonus: 0,
                unit_hp_bonus: 0,
                unit_attack_bonus: 0,
            },
        }
    }

    pub fn can_afford(&self, cost: &ResourceBundle) -> (r: bool)
        ensures
            r == self.resources.can_afford_spec(*cost),
    {
        self.resources.can_afford(cost)
    }

    /// Debit `cost` atomically; on insufficient funds nothing changes.
    pub fn spend(&mut self, cost: &ResourceBundle) -> (r: bool)
        ensures
            r == old(self).resources.can_afford_spec(*cost),
            r ==> final(self).resources == old(self).resources.sub_spec(*cost),
            !r ==> final(self).resources == old(self).resources,
            *final(self) == (PlayerState { resources: final(self).resources, ..*old(self) }),
    {
        self.resources.subtract(cost)
    }

    pub fn add_resources(&mut self, amount: &ResourceBundle)
        ensures
            final(self).resources == old(self).resources.add_spec(*amount),
            *final(self) == (PlayerState { resources: final(self).resources, ..*old(self) }),
    {
        self.resources.add(amount)
    }
}

/// One simulation entity: a stable identifier plus its components.
#[derive(Clone, Debug)]
pub struct EntityRecord {
    pub id: EntityId,
    pub pos: SimPosition,
    pub owner: Owner,
    pub unit: Option<Unit>,
    pub building: Option<Building>,
    pub resource_node: Option<ResourceNode>,
    pub gatherer: Option<Gatherer>,
    pub health: Option<Health>,
    pub combat: Option<CombatStats>,
    pub production_queue: Option<ProductionQueue>,
    pub spawn_point: Option<SpawnPoint>,
    pub move_target: Option<MoveTarget>,
    /// Whether this entity accepts resource drop-offs.
    pub drop_off: bool,
    pub selected: Selected,
}

/// Record invariant: a valid identifier, a position and movement target
/// within the world bound, and each component's own invariant.
pub open spec fn record_wf(r: EntityRecord) -> bool {
    &&& r.id.0 != 0
    &&& pos_in_bounds(r.pos)
    &&& (match r.move_target {
        Some(t) => -crate::components::pos_limit() <= t.x <= crate::components::pos_limit()
            && -crate::components::pos_limit() <= t.z <= crate::components::pos_limit(),
        None => true,
    })
    &&& (r.gatherer is Some ==> gatherer_wf(r.gatherer->0))
    &&& (r.resource_node is Some ==> node_wf(r.resource_node->0))
}

impl EntityRecord {
    /// A bare record with only identity, position and owner set.
    pub fn new(id: EntityId, pos: SimPosition, owner: Owner) -> (r: Self)
        ensures
            r.id == id,
            r.pos == pos,
            r.owner == owner,
            r.unit is None,
            r.building is None,
            r.resource_node is None,
            r.gatherer is None,
            r.health is None,
            r.combat is None,
            r.production_queue is None,
            r.spawn_point is None,
            r.move_target is None,
            !r.drop_off,
            r.selected.by_players@ == Seq::<PlayerId>::empty(),
    {
        EntityRecord {
            id,
            pos,
            owner,
            unit: None,
            building: None,
            resource_node: None,
            gatherer: None,
            health: None,
            combat: None,
            production_queue: None,
            spawn_point: None,
            move_target: None,
            drop_off: false,
            selected: Selected::new(),
        }
    }
}

/// Whether some record in `s` carries the identifier `id`.
pub open spec fn has_entity(s: Seq<EntityRecord>, id: EntityId) -> bool {
    exists|k: int| 0 <= k < s.len() && (#[trigger] s[k]).id == id
}

/// Main simulation world: per-player state and the entity registry.
pub struct SimWorld {
    pub players: Vec<PlayerState>,
    pub entities: Vec<EntityRecord>,
}

/// World invariant: player identifiers are distinct, entity identifiers
/// are distinct, and every record satisfies its own invariant.
pub open spec fn world_wf(w: SimWorld) -> bool {
    &&& forall|i: int, j: int|
        0 <= i < j < w.players@.len() ==> (#[trigger] w.players@[i]).id != (
        #[trigger] w.players@[j]).id
    &&& forall|i: int, j: int|
        0 <= i < j < w.entities@.len() ==> (#[trigger] w.entities@[i]).id != (
        #[trigger] w.entities@[j]).id
    &&& forall|i: int| 0 <= i < w.entities@.len() ==> record_wf(#[trigger] w.entities@[i])
}

impl SimWorld {
    pub fn new() -> (r: Self)
        ensures
            world_wf(r),
            r.players@ == Seq::<PlayerState>::empty(),
            r.entities@ == Seq::<EntityRecord>::empty(),
    {
        SimWorld { players: Vec::new(), entities: Vec::new() }
    }

    /// The index of the player with identifier `player_id`, if any.
    pub fn find_player(&self, player_id: PlayerId) -> (r: Option<usize>)
        ensures
            match r {
                Some(i) => i < self.players@.len() && self.players@[i as int].id == player_id,
                None => forall|k: int|
                    0 <= k < self.players@.len() ==> (#[trigger] self.players@[k]).id
                        != player_id,
            },
    {
        let mut i: usize = 0;
        while i < self.players.len()
            invariant
                i <= self.players@.len(),
                forall|k: int| 0 <= k < i ==> (#[trigger] self.players@[k]).id != player_id,
            decreases self.players@.len() - i,
        {
            if self.players[i].id.0 == player_id.0 {
                return Some(i);
            }
            i = i + 1;
        }
        None
    }

    /// Add a player with fresh starting state: an entry equal to
    /// `PlayerState::new(player_id)` replaces any existing entry for
    /// that identifier or is appended, and every other player is
    /// untouched.
    pub fn add_player(&mut self, player_id: PlayerId)
        requires
            world_wf(*old(self)),
        ensures
            world_wf(*final(self)),
            final(self).entities@ == old(self).entities@,
            has_player(final(self).players@, player_id),
            has_player(old(self).players@, player_id) ==> exists|i: int|
                0 <= i < old(self).players@.len() && old(self).players@[i].id == player_id
                    && final(self).players@.len() == old(self).players@.len()
                    && fresh_player_state(#[trigger] final(self).players@[i], player_id)
                    && forall|k: int|
                    0 <= k < old(self).players@.len() && k != i ==> final(self).players@[k]
                        == old(self).players@[k],
            !has_player(old(self).players@, player_id) ==> final(self).players@.len() == old(
                self,
            ).players@.len() + 1 && fresh_player_state(
                final(self).players@[old(self).players@.len() as int],
                player_id,
            ) && forall|k: int|
                0 <= k < old(self).players@.len() ==> final(self).players@[k] == old(
                    self,
                ).players@[k],
    {
        let fresh = PlayerState::new(player_id);
        match self.find_player(player_id) {
            Some(i) => {
                self.players.set(i, fresh);
                proof {
                    assert(self.players@[i as int].id == player_id);
                    assert(fresh_player_state(self.players@[i as int], player_id));
                }
            },
            None => {
                self.players.push(fresh);
                proof {
                    assert(self.players@[self.players@.len() - 1].id == player_id);
                }
            },
        }
    }

    /// Read access to the player with identifier `player_id`.
    pub fn get_player(&self, player_id: PlayerId) -> (r: Option<&PlayerState>)
        ensures
            match r {
                Some(p) => has_player(self.players@, player_id) && p.id == player_id
                    && self.players@.contains(*p),
                None => !has_player(self.players@, player_id),
            },
    {
        match self.find_player(player_id) {
            Some(i) => {
                let p = &self.players[i];
                proof {
                    assert(self.players@.contains(self.players@[i as int]));
                }
                Some(p)
            },
            None => None,
        }
    }

    /// The index of the entity record carrying `id`, if any.
    pub fn find_entity(&self, id: EntityId) -> (r: Option<usize>)
        ensures
            match r {
                Some(i) => i < self.entities@.len() && self.entities@[i as int].id == id,
                None => !has_entity(self.entities@, id),
            },
    {
        let mut i: usize = 0;
        while i < self.entities.len()
            invariant
                i <= self.entities@.len(),
                forall|k: int| 0 <= k < i ==> (#[trigger] self.entities@[k]).id != id,
            decreases self.entities@.len() - i,
        {
            if self.entities[i].id.0 == id.0 {
                return Some(i);
            }
            i = i + 1;
        }
        None
    }

    /// Register a new entity record. The identifier must be fresh.
    pub fn register_entity(&mut self, record: EntityRecord)
        requires
            world_wf(*old(self)),
            record_wf(record),
            !has_entity(old(self).entities@, record.id),
        ensures
            world_wf(*final(self)),
            final(self).players@ == old(self).players@,
            final(self).entities@ == old(self).entities@.push(record),
    {
        self.entities.push(record);
    }

    /// Remove the entity record carrying `id`, if any.
    pub fn unregister_entity(&mut self, id: EntityId)
        requires
            world_wf(*old(self)),
        ensures
            world_wf(*final(self)),
            final(self).players@ == old(self).players@,
            !has_entity(old(self).entities@, id) ==> final(self).entities@ == old(self).entities@,
            has_entity(old(self).entities@, id) ==> exists|i: int|
                0 <= i < old(self).entities@.len() && old(self).entities@[i].id == id
                    && final(self).entities@ == old(self).entities@.remove(i),
    {
        match self.find_entity(id) {
            Some(i) => {
                self.entities.remove(i);
                proof {
                    assert(old(self).entities@[i as int].id == id);
                }
            },
            None => {},
        }
    }
}

/// Whether some player in `s` carries the identifier `id`.
pub open spec fn has_player(s: Seq<PlayerState>, id: PlayerId) -> bool {
    exists|k: int| 0 <= k < s.len() && (#[trigger] s[k]).id == id
}

/// `p` is the state a freshly added player starts with: the standard
/// starting resources, no population, the starting population cap, the
/// first age, nothing researched, no modifiers.
pub open spec fn fresh_player_state(p: PlayerState, id: PlayerId) -> bool {
    &&& p.id == id
    &&& p.resources == (ResourceBundle { food: 200, wood: 200, gold: 0, stone: 0 })
    &&& p.population == 0
    &&& p.population_cap == 5
    &&& p.current_age.0@ == "dark_age"@
    &&& p.researched_techs@ == Seq::<String>::empty()
    &&& p.tech_modifiers == TechModifiers::zero()
}

impl Default for SimWorld {
    fn default() -> (r: Self)
        ensures
            world_wf(r),
            r.players@ == Seq::<PlayerState>::empty(),
            r.entities@ == Seq::<EntityRecord>::empty(),
    {
        SimWorld::new()
    }
}

} // verus!

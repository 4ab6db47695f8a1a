//! Components attached to simulation entities.
//!
//! Entities are stored as records of optional components (sparse typed
//! attributes); each component here is plain data with its invariant.
//! All spatial quantities are fixed-point integers in milli-tiles.

use vstd::prelude::*;

use crate::commands::{BuildingType, UnitType};
use crate::ids::{EntityId, PlayerId};
use crate::resources::{ResourceBundle, ResourceType};

verus! {

/// Positions are kept within this bound (one million tiles from the
/// origin in every axis), so squared distances fit comfortably in i64.
pub open spec fn pos_limit() -> int {
    1_000_000_000
}

/// Executable twin of `pos_limit`.
pub fn pos_limit_value() -> (r: i64)
    ensures
        r == pos_limit(),
{
    1_000_000_000
}

/// Position of a simulation entity. `y` is height.
#[derive(Clone, Copy, PartialEq, Eq, Structural, Debug)]
pub struct SimPosition {
    pub x: i64,
    pub y: i64,
    pub z: i64,
}

/// Whether every coordinate is within the world bound.
pub open spec fn pos_in_bounds(p: SimPosition) -> bool {
    -pos_limit() <= p.x <= pos_limit() && -pos_limit() <= p.y <= pos_limit() && -pos_limit()
        <= p.z <= pos_limit()
}

/// The squared planar distance between two positions, ignoring height.
pub open spec fn dist_sq_xz(a: SimPosition, b: SimPosition) -> int {
    (a.x - b.x) * (a.x - b.x) + (a.z - b.z) * (a.z - b.z)
}

impl SimPosition {
    pub fn new(x: i64, z: i64) -> (r: Self)
        ensures
            r == (SimPosition { x, y: 0, z }),
    {
        SimPosition { x, y: 0, z }
    }

    pub fn with_height(x: i64, y: i64, z: i64) -> (r: Self)
        ensures
            r == (SimPosition { x, y, z }),
    {
        SimPosition { x, y, z }
    }

    pub fn to_array(&self) -> (r: [i64; 3])
        ensures
            r[0] == self.x,
            r[1] == self.y,
            r[2] == self.z,
    {
        [self.x, self.y, self.z]
    }

    /// Squared planar distance to another position (ignoring height).
    pub fn distance_sq_xz(&self, other: &SimPosition) -> (r: u64)
        requires
            pos_in_bounds(*self),
            pos_in_bounds(*other),
        ensures
            r == dist_sq_xz(*self, *other),
    {
        let dx = self.x - other.x;
        let dz = self.z - other.z;
        proof {
            assert(dx * dx <= 4_000_000_000_000_000_000 && dx * dx >= 0) by (nonlinear_arith)
                requires
                    -2_000_000_000 <= dx <= 2_000_000_000,
            ;
            assert(dz * dz <= 4_000_000_000_000_000_000 && dz * dz >= 0) by (nonlinear_arith)
                requires
                    -2_000_000_000 <= dz <= 2_000_000_000,
            ;
        }
        (dx * dx + dz * dz) as u64
    }
}

/// Movement target for units.
#[derive(Clone, Copy, PartialEq, Eq, Structural, Debug)]
pub struct MoveTarget {
    pub x: i64,
    pub z: i64,
    /// If true, stop when close. If false, keep moving.
    pub stop_on_arrival: bool,
}

impl MoveTarget {
    pub fn new(x: i64, z: i64) -> (r: Self)
        ensures
            r == (MoveTarget { x, z, stop_on_arrival: true }),
    {
        MoveTarget { x, z, stop_on_arrival: true }
    }
}

/// Selection state: which players have this entity selected.
#[derive(Clone, Debug)]
pub struct Selected {
    pub by_players: Vec<PlayerId>,
}

impl Selected {
    pub fn new() -> (r: Self)
        ensures
            r.by_players@ == Seq::<PlayerId>::empty(),
    {
        Selected { by_players: Vec::new() }
    }

    pub fn is_selected_by(&self, player_id: PlayerId) -> (r: bool)
        ensures
            r == self.by_players@.contains(player_id),
    {
        let mut i: usize = 0;
        while i < self.by_players.len()
            invariant
                i <= self.by_players@.len(),
                forall|k: int| 0 <= k < i ==> self.by_players@[k] != player_id,
            decreases self.by_players@.len() - i,
        {
            if self.by_players[i].0 == player_id.0 {
                return true;
            }
            i = i + 1;
        }
        false
    }

    /// The selection without one player.
    pub open spec fn without_player(s: Seq<PlayerId>, player_id: PlayerId) -> Seq<PlayerId> {
        s.filter(|p: PlayerId| p != player_id)
    }

    pub fn deselect(&mut self, player_id: PlayerId)
        ensures
            final(self).by_players@ == Selected::without_player(
                old(self).by_players@,
                player_id,
            ),
    {
        let ghost orig = self.by_players@;
        let mut kept: Vec<PlayerId> = Vec::new();
        let mut i: usize = 0;
        proof {
            assert(orig.subrange(0, 0) =~= Seq::<PlayerId>::empty());
            assert(kept@ =~= Selected::without_player(orig.subrange(0, 0), player_id));
        }
        while i < self.by_players.len()
            invariant
                i <= self.by_players@.len(),
                self.by_players@ == orig,
                kept@ == Selected::without_player(orig.subrange(0, i as int), player_id),
            decreases self.by_players@.len() - i,
        {
            let p = self.by_players[i];
            proof {
                reveal(Seq::filter);
                assert(orig.subrange(0, i + 1).drop_last() =~= orig.subrange(0, i as int));
                assert(orig.subrange(0, i + 1).last() == p);
            }
            if p.0 != player_id.0 {
                kept.push(p);
            }
            i = i + 1;
        }
        proof {
            assert(orig.subrange(0, orig.len() as int) =~= orig);
        }
        self.by_players = kept;
    }

    pub fn select(&mut self, player_id: PlayerId)
        ensures
            old(self).by_players@.contains(player_id) ==> final(self).by_players@ == old(
                self,
            ).by_players@,
            !old(self).by_players@.contains(player_id) ==> final(self).by_players@ == old(
                self,
            ).by_players@.push(player_id),
    {
        if !self.is_selected_by(player_id) {
            self.by_players.push(player_id);
        }
    }
}

/// Owner component: which player owns this entity.
#[derive(Clone, Copy, PartialEq, Eq, Structural, Debug)]
pub struct Owner {
    pub player_id: PlayerId,
}

impl Owner {
    pub fn new(player_id: PlayerId) -> (r: Self)
        ensures
            r.player_id == player_id,
    {
        Owner { player_id }
    }

    pub fn neutral() -> (r: Self)
        ensures
            r.player_id.0 == 0,
    {
        Owner { player_id: PlayerId(0) }
    }

    pub fn is_neutral(&self) -> (r: bool)
        ensures
            r == (self.player_id.0 == 0),
    {
        self.player_id.is_neutral()
    }
}

/// Marker component for unit entities. Speed is in milli-tiles per
/// second.
#[derive(Clone, Copy, PartialEq, Eq, Structural, Debug)]
pub struct Unit {
    pub unit_type: UnitType,
    pub move_speed: u32,
}

impl Unit {
    pub fn villager() -> (r: Self)
        ensures
            r == (Unit { unit_type: UnitType::Villager, move_speed: 2000 }),
    {
        Unit { unit_type: UnitType::Villager, move_speed: 2000 }
    }

    pub fn soldier() -> (r: Self)
        ensures
            r == (Unit { unit_type: UnitType::Soldier, move_speed: 2500 }),
    {
        Unit { unit_type: UnitType::Soldier, move_speed: 2500 }
    }
}

/// Health component for damageable entities.
#[derive(Clone, Copy, PartialEq, Eq, Structural, Debug)]
pub struct Health {
    pub current: u32,
    pub max: u32,
}

impl Health {
    pub fn new(max: u32) -> (r: Self)
        ensures
            r == (Health { current: max, max }),
    {
        Health { current: max, max }
    }

    pub fn is_dead(&self) -> (r: bool)
        ensures
            r == (self.current == 0),
    {
        self.current == 0
    }

    pub fn is_full(&self) -> (r: bool)
        ensures
            r == (self.current == self.max),
    {
        self.current == self.max
    }

    pub fn damage(&mut self, amount: u32)
        ensures
            final(self).max == old(self).max,
            final(self).current == if old(self).current >= amount {
                old(self).current - amount
            } else {
                0
            },
    {
        self.current = if self.current >= amount {
            self.current - amount
        } else {
            0
        };
    }

    pub fn heal(&mut self, amount: u32)
        ensures
            final(self).max == old(self).max,
            final(self).current == if old(self).current + amount > old(self).max {
                old(self).max as int
            } else {
                old(self).current + amount
            },
    {
        self.current = if amount <= self.max && self.current <= self.max - amount {
            self.current + amount
        } else {
            self.max
        };
    }
}

/// Combat stats for units. Range is in milli-tiles, cooldowns in ticks.
#[derive(Clone, Copy, PartialEq, Eq, Structural, Debug)]
pub struct CombatStats {
    pub attack_damage: u32,
    pub attack_range: u32,
    pub attack_cooldown: u32,
    pub cooldown_remaining: u32,
    pub armor: u32,
}

impl CombatStats {
    pub fn villager() -> (r: Self)
        ensures
            r == (CombatStats {
                attack_damage: 3,
                attack_range: 500,
                attack_cooldown: 30,
                cooldown_remaining: 0,
                armor: 0,
            }),
    {
        CombatStats {
            attack_damage: 3,
            attack_range: 500,
            attack_cooldown: 30,
            cooldown_remaining: 0,
            armor: 0,
        }
    }

    pub fn soldier() -> (r: Self)
        ensures
            r == (CombatStats {
                attack_damage: 8,
                attack_range: 1000,
                attack_cooldown: 20,
                cooldown_remaining: 0,
                armor: 1,
            }),
    {
        CombatStats {
            attack_damage: 8,
            attack_range: 1000,
            attack_cooldown: 20,
            cooldown_remaining: 0,
            armor: 1,
        }
    }

    pub fn can_attack(&self) -> (r: bool)
        ensures
            r == (self.cooldown_remaining == 0),
    {
        self.cooldown_remaining == 0
    }

    pub fn tick_cooldown(&mut self)
        ensures
            final(self).cooldown_remaining == if old(self).cooldown_remaining > 0 {
                old(self).cooldown_remaining - 1
            } else {
                0
            },
            *final(self) == (CombatStats {
                cooldown_remaining: final(self).cooldown_remaining,
                ..*old(self)
            }),
    {
        if self.cooldown_remaining > 0 {
            self.cooldown_remaining = self.cooldown_remaining - 1;
        }
    }

    pub fn start_cooldown(&mut self)
        ensures
            *final(self) == (CombatStats {
                cooldown_remaining: old(self).attack_cooldown,
                ..*old(self)
            }),
    {
        self.cooldown_remaining = self.attack_cooldown;
    }
}

impl Default for CombatStats {
    fn default() -> (r: Self)
        ensures
            r == (CombatStats {
                attack_damage: 5,
                attack_range: 1000,
                attack_cooldown: 20,
                cooldown_remaining: 0,
                armor: 0,
            }),
    {
        CombatStats {
            attack_damage: 5,
            attack_range: 1000,
            attack_cooldown: 20,
            cooldown_remaining: 0,
            armor: 0,
        }
    }
}

/// Marker component for building entities.
#[derive(Clone, Copy, PartialEq, Eq, Structural, Debug)]
pub struct Building {
    pub building_type: BuildingType,
    /// Footprint in tiles.
    pub size_x: u32,
    pub size_z: u32,
}

impl Building {
    pub fn town_center() -> (r: Self)
        ensures
            r == (Building { building_type: BuildingType::TownCenter, size_x: 4, size_z: 4 }),
    {
        Building { building_type: BuildingType::TownCenter, size_x: 4, size_z: 4 }
    }

    pub fn barracks() -> (r: Self)
        ensures
            r == (Building { building_type: BuildingType::Barracks, size_x: 3, size_z: 3 }),
    {
        Building { building_type: BuildingType::Barracks, size_x: 3, size_z: 3 }
    }
}

/// Spawn point for units produced by a building: offset from the
/// building's center, in milli-tiles.
#[derive(Clone, Copy, PartialEq, Eq, Structural, Debug)]
pub struct SpawnPoint {
    pub offset_x: i64,
    pub offset_z: i64,
}

impl Default for SpawnPoint {
    fn default() -> (r: Self)
        ensures
            r == (SpawnPoint { offset_x: 0, offset_z: 2500 }),
    {
        SpawnPoint { offset_x: 0, offset_z: 2500 }
    }
}

/// An item in a production queue. The cost was already paid when the
/// item was queued; canceling refunds it in full.
#[derive(Clone, Copy, PartialEq, Eq, Structural, Debug)]
pub struct ProductionItem {
    pub unit_type: UnitType,
    pub cost: ResourceBundle,
    pub ticks_remaining: u32,
    pub total_ticks: u32,
}

impl ProductionItem {
    pub fn villager() -> (r: Self)
        ensures
            r == (ProductionItem {
                unit_type: UnitType::Villager,
                cost: (ResourceBundle { food: 50, wood: 0, gold: 0, stone: 0 }),
                ticks_remaining: 50,
                total_ticks: 50,
            }),
    {
        ProductionItem {
            unit_type: UnitType::Villager,
            cost: ResourceBundle { food: 50, wood: 0, gold: 0, stone: 0 },
            ticks_remaining: 50,
            total_ticks: 50,
        }
    }

    pub fn soldier() -> (r: Self)
        ensures
            r == (ProductionItem {
                unit_type: UnitType::Soldier,
                cost: (ResourceBundle { food: 60, wood: 0, gold: 20, stone: 0 }),
                ticks_remaining: 60,
                total_ticks: 60,
            }),
    {
        ProductionItem {
            unit_type: UnitType::Soldier,
            cost: ResourceBundle { food: 60, wood: 0, gold: 20, stone: 0 },
            ticks_remaining: 60,
            total_ticks: 60,
        }
    }

    /// Tick this item down by one (never below zero); returns whether
    /// it is now complete.
    pub fn tick(&mut self) -> (r: bool)
        ensures
            final(self).ticks_remaining == if old(self).ticks_remaining > 0 {
                old(self).ticks_remaining - 1
            } else {
                0
            },
            *final(self) == (ProductionItem {
                ticks_remaining: final(self).ticks_remaining,
                ..*old(self)
            }),
            r == (final(self).ticks_remaining == 0),
    {
        if self.ticks_remaining > 0 {
            self.ticks_remaining = self.ticks_remaining - 1;
        }
        self.ticks_remaining == 0
    }
}

/// Production queue for buildings that can train units. FIFO with a
/// bounded maximum length: only the head item ticks down.
#[derive(Clone, Debug)]
pub struct ProductionQueue {
    pub items: Vec<ProductionItem>,
    /// Maximum queue size.
    pub max_size: usize,
}

impl ProductionQueue {
    pub fn new(max_size: usize) -> (r: Self)
        ensures
            r.items@ == Seq::<ProductionItem>::empty(),
            r.max_size == max_size,
    {
        ProductionQueue { items: Vec::new(), max_size }
    }

    pub fn can_queue(&self) -> (r: bool)
        ensures
            r == (self.items@.len() < self.max_size),
    {
        self.items.len() < self.max_size
    }

    /// Append an item; fails (and changes nothing) when the queue is
    /// already at its maximum size.
    pub fn queue(&mut self, item: ProductionItem) -> (r: bool)
        ensures
            r == (old(self).items@.len() < old(self).max_size),
            r ==> final(self).items@ == old(self).items@.push(item),
            !r ==> final(self).items@ == old(self).items@,
            final(self).max_size == old(self).max_size,
    {
        if self.items.len() < self.max_size {
            self.items.push(item);
            true
        } else {
            false
        }
    }

    /// Remove and return the item at `index`; an invalid index changes
    /// nothing and returns `None`.
    pub fn cancel(&mut self, index: usize) -> (r: Option<ProductionItem>)
        ensures
            index < old(self).items@.len() ==> r == Some(old(self).items@[index as int])
                && final(self).items@ == old(self).items@.remove(index as int),
            index >= old(self).items@.len() ==> r is None && final(self).items@ == old(
                self,
            ).items@,
            final(self).max_size == old(self).max_size,
    {
        if index < self.items.len() {
            Some(self.items.remove(index))
        } else {
            None
        }
    }

    pub fn is_empty(&self) -> (r: bool)
        ensures
            r == (self.items@.len() == 0),
    {
        self.items.len() == 0
    }

    /// The head of the queue, if any.
    pub fn current(&self) -> (r: Option<&ProductionItem>)
        ensures
            self.items@.len() > 0 ==> r == Some(&self.items@[0]),
            self.items@.len() == 0 ==> r is None,
    {
        if self.items.len() > 0 {
            Some(&self.items[0])
        } else {
            None
        }
    }
}

/// A gatherable resource node (tree, gold mine, and so on).
#[derive(Clone, Copy, PartialEq, Eq, Structural, Debug)]
pub struct ResourceNode {
    pub resource_type: ResourceType,
    /// Amount of resources remaining; never increases.
    pub remaining: u32,
    /// Maximum amount (for display).
    pub max_amount: u32,
    /// How many gatherers can work on this node simultaneously.
    pub max_gatherers: u32,
    /// Current gatherers working on this node.
    pub current_gatherers: u32,
}

/// Node invariant: what remains never exceeds the maximum, and the
/// working gatherers never exceed the allowed concurrency.
pub open spec fn node_wf(n: ResourceNode) -> bool {
    n.remaining <= n.max_amount && n.current_gatherers <= n.max_gatherers
}

impl ResourceNode {
    pub fn food() -> (r: Self)
        ensures
            r == (ResourceNode {
                resource_type: ResourceType::Food,
                remaining: 300,
                max_amount: 300,
                max_gatherers: 8,
                current_gatherers: 0,
            }),
            node_wf(r),
    {
        ResourceNode {
            resource_type: ResourceType::Food,
            remaining: 300,
            max_amount: 300,
            max_gatherers: 8,
            current_gatherers: 0,
        }
    }

    pub fn wood() -> (r: Self)
        ensures
            r == (ResourceNode {
                resource_type: ResourceType::Wood,
                remaining: 150,
                max_amount: 150,
                max_gatherers: 4,
                current_gatherers: 0,
            }),
            node_wf(r),
    {
        ResourceNode {
            resource_type: ResourceType::Wood,
            remaining: 150,
            max_amount: 150,
            max_gatherers: 4,
            current_gatherers: 0,
        }
    }

    pub fn gold() -> (r: Self)
        ensures
            r == (ResourceNode {
                resource_type: ResourceType::Gold,
                remaining: 800,
                max_amount: 800,
                max_gatherers: 3,
                current_gatherers: 0,
            }),
            node_wf(r),
    {
        ResourceNode {
            resource_type: ResourceType::Gold,
            remaining: 800,
            max_amount: 800,
            max_gatherers: 3,
            current_gatherers: 0,
        }
    }

    pub fn stone() -> (r: Self)
        ensures
            r == (ResourceNode {
                resource_type: ResourceType::Stone,
                remaining: 400,
                max_amount: 400,
                max_gatherers: 3,
                current_gatherers: 0,
            }),
            node_wf(r),
    {
        ResourceNode {
            resource_type: ResourceType::Stone,
            remaining: 400,
            max_amount: 400,
            max_gatherers: 3,
            current_gatherers: 0,
        }
    }

    pub fn is_depleted(&self) -> (r: bool)
        ensures
            r == (self.remaining == 0),
    {
        self.remaining == 0
    }

    pub fn can_gather(&self) -> (r: bool)
        ensures
            r == (self.remaining != 0 && self.current_gatherers < self.max_gatherers),
    {
        self.remaining != 0 && self.current_gatherers < self.max_gatherers
    }

    /// Harvest resources; returns the amount actually gathered, which
    /// never exceeds what remained.
    pub fn harvest(&mut self, amount: u32) -> (r: u32)
        ensures
            r == if amount <= old(self).remaining {
                amount as int
            } else {
                old(self).remaining as int
            },
            final(self).remaining == old(self).remaining - r,
            *final(self) == (ResourceNode { remaining: final(self).remaining, ..*old(self) }),
    {
        let gathered = if amount <= self.remaining {
            amount
        } else {
            self.remaining
        };
        self.remaining = self.remaining - gathered;
        gathered
    }
}

/// State of the gatherer state machine, one decision per unit per tick.
#[derive(Clone, Copy, PartialEq, Eq, Structural, Debug)]
pub enum GathererState {
    Idle,
    MovingToNode,
    Gathering,
    ReturningToDropOff,
    Depositing,
}

/// Gatherer component for villager units. The gather rate and the
/// fractional accumulator are fixed-point (milli-units per tick).
#[derive(Clone, Copy, PartialEq, Eq, Structural, Debug)]
pub struct Gatherer {
    /// Target resource node (if gathering).
    pub target_node: Option<EntityId>,
    /// Drop-off building to return resources to.
    pub drop_off_target: Option<EntityId>,
    /// Type of resource being carried.
    pub carrying_type: ResourceType,
    /// Amount currently carried.
    pub carry_amount: u32,
    /// Maximum carry capacity.
    pub carry_capacity: u32,
    /// Base gather rate in milli-units per tick.
    pub gather_rate: u32,
    /// Accumulated fractional milli-units (for sub-unit rates).
    pub gather_accumulator: u32,
    /// Current state.
    pub state: GathererState,
}

/// Gatherer invariant: the carried amount never exceeds the capacity.
pub open spec fn gatherer_wf(g: Gatherer) -> bool {
    g.carry_amount <= g.carry_capacity
}

impl Gatherer {
    pub fn new() -> (r: Self)
        ensures
            r == (Gatherer {
                target_node: None,
                drop_off_target: None,
                carrying_type: ResourceType::Food,
                carry_amount: 0,
                carry_capacity: 10,
                gather_rate: 500,
                gather_accumulator: 0,
                state: GathererState::Idle,
            }),
            gatherer_wf(r),
    {
        Gatherer {
            target_node: None,
            drop_off_target: None,
            carrying_type: ResourceType::Food,
            carry_amount: 0,
            carry_capacity: 10,
            gather_rate: 500,
            gather_accumulator: 0,
            state: GathererState::Idle,
        }
    }

    pub fn is_full(&self) -> (r: bool)
        ensures
            r == (self.carry_amount >= self.carry_capacity),
    {
        self.carry_amount >= self.carry_capacity
    }

    pub fn is_carrying(&self) -> (r: bool)
        ensures
            r == (self.carry_amount > 0),
    {
        self.carry_amount > 0
    }

    /// Add to the carried amount, clamped to the capacity.
    pub fn add_resource(&mut self, amount: u32)
        ensures
            final(self).carry_amount == if old(self).carry_amount + amount <= old(
                self,
            ).carry_capacity {
                old(self).carry_amount + amount
            } else {
                old(self).carry_capacity as int
            },
            *final(self) == (Gatherer { carry_amount: final(self).carry_amount, ..*old(self) }),
            gatherer_wf(*final(self)),
    {
        self.carry_amount = if amount <= self.carry_capacity && self.carry_amount
            <= self.carry_capacity - amount {
            self.carry_amount + amount
        } else {
            self.carry_capacity
        };
    }

    /// Atomically take everything carried.
    pub fn take_all(&mut self) -> (r: (ResourceType, u32))
        ensures
            r == (old(self).carrying_type, old(self).carry_amount),
            *final(self) == (Gatherer { carry_amount: 0, ..*old(self) }),
    {
        let result = (self.carrying_type, self.carry_amount);
        self.carry_amount = 0;
        result
    }

    /// Aim at a resource node and head toward it.
    pub fn set_target(&mut self, node: EntityId, resource_type: ResourceType)
        ensures
            *final(self) == (Gatherer {
                target_node: Some(node),
                carrying_type: resource_type,
                state: GathererState::MovingToNode,
                ..*old(self)
            }),
    {
        self.target_node = Some(node);
        self.carrying_type = resource_type;
        self.state = GathererState::MovingToNode;
    }

    /// Forget the target; return to a drop-off when something is
    /// carried, otherwise go idle.
    pub fn clear_target(&mut self)
        ensures
            *final(self) == (Gatherer {
                target_node: None,
                state: if old(self).carry_amount > 0 {
                    GathererState::ReturningToDropOff
                } else {
                    GathererState::Idle
                },
                ..*old(self)
            }),
    {
        self.target_node = None;
        self.state = if self.carry_amount > 0 {
            GathererState::ReturningToDropOff
        } else {
            GathererState::Idle
        };
    }
}

impl Default for Gatherer {
    fn default() -> (r: Self)
        ensures
            r == (Gatherer {
                target_node: None,
                drop_off_target: None,
                carrying_type: ResourceType::Food,
                carry_amount: 0,
                carry_capacity: 10,
                gather_rate: 500,
                gather_accumulator: 0,
                state: GathererState::Idle,
            }),
    {
        Gatherer::new()
    }
}

} // verus!

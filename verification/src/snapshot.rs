//! World snapshots for rendering and replay validation.
//!
//! A snapshot captures the complete observable state of the simulation
//! at one tick. Entity and player lists are sorted by identifier before
//! a snapshot is finalized — that, not the ECS iteration order, is what
//! makes the digest deterministic. The digest folds every observable
//! counter byte by byte into a 64-bit value: two runs that have not
//! diverged produce the same digest at every tick.

use vstd::prelude::*;

use crate::commands::{BuildingType, UnitType};
use crate::ids::{AgeId, EntityId, PlayerId};
use crate::resources::{ResourceBundle, ResourceType};

verus! {

/// Types of entities in the game.
#[derive(Clone, Copy, PartialEq, Eq, Structural, Debug)]
pub enum EntityType {
    Unit(UnitType),
    Building(BuildingType),
    ResourceNode(ResourceType),
}

/// State of a gatherer unit as observed in a snapshot.
#[derive(Clone, Copy, PartialEq, Eq, Structural, Debug)]
pub struct GathererState {
    pub target_node: Option<EntityId>,
    pub carrying: ResourceType,
    pub carry_amount: u32,
    pub carry_capacity: u32,
    pub is_returning: bool,
}

/// An item in a production queue.
#[derive(Clone, Copy, PartialEq, Eq, Structural, Debug)]
pub struct QueueItem {
    pub unit_type: UnitType,
    pub ticks_remaining: u32,
    pub total_ticks: u32,
}

/// State of a production queue.
#[derive(Clone, Debug)]
pub struct ProductionQueueState {
    pub items: Vec<QueueItem>,
}

/// Snapshot of a single entity. The position is fixed-point
/// (milli-tiles), x, then height, then z.
#[derive(Clone, Debug)]
pub struct EntitySnapshot {
    pub id: EntityId,
    pub entity_type: EntityType,
    pub position: [i64; 3],
    pub owner: Option<PlayerId>,
    /// (current, max)
    pub health: Option<(u32, u32)>,
    pub selected_by: Vec<PlayerId>,
    pub gatherer_state: Option<GathererState>,
    pub production_queue: Option<ProductionQueueState>,
    /// For resource nodes.
    pub resource_remaining: Option<u32>,
}

/// Snapshot of a player's state.
#[derive(Clone, Debug)]
pub struct PlayerSnapshot {
    pub id: PlayerId,
    pub resources: ResourceBundle,
    pub population: u32,
    pub population_cap: u32,
    pub current_age: AgeId,
    pub researched_techs: Vec<String>,
}

/// Complete snapshot of the world state.
#[derive(Clone, Debug)]
pub struct WorldSnapshot {
    pub tick: u64,
    pub entities: Vec<EntitySnapshot>,
    pub players: Vec<PlayerSnapshot>,
}

/// One byte folded into the running digest.
#[verifier::opaque]
pub open spec fn h_byte(acc: u64, b: u8) -> u64 {
    acc.wrapping_mul(31).wrapping_add(b as u64)
}

/// The two's-complement bit pattern of a signed value.
#[verifier::opaque]
pub open spec fn i64_bits(x: i64) -> u64 {
    if x >= 0 {
        x as u64
    } else {
        (x + 0x1_0000_0000_0000_0000) as u64
    }
}

/// A 64-bit value folded in, least significant byte first.
#[verifier::opaque]
pub open spec fn h_u64(acc: u64, w: u64) -> u64 {
    let a0 = h_byte(acc, (w % 256) as u8);
    let a1 = h_byte(a0, (w / 256 % 256) as u8);
    let a2 = h_byte(a1, (w / 0x1_0000 % 256) as u8);
    let a3 = h_byte(a2, (w / 0x100_0000 % 256) as u8);
    let a4 = h_byte(a3, (w / 0x1_0000_0000 % 256) as u8);
    let a5 = h_byte(a4, (w / 0x100_0000_0000 % 256) as u8);
    let a6 = h_byte(a5, (w / 0x1_0000_0000_0000 % 256) as u8);
    h_byte(a6, (w / 0x100_0000_0000_0000 % 256) as u8)
}

/// A 32-bit value folded in, least significant byte first.
#[verifier::opaque]
pub open spec fn h_u32(acc: u64, w: u32) -> u64 {
    let a0 = h_byte(acc, (w % 256) as u8);
    let a1 = h_byte(a0, (w / 256 % 256) as u8);
    let a2 = h_byte(a1, (w / 0x1_0000 % 256) as u8);
    h_byte(a2, (w / 0x100_0000 % 256) as u8)
}

/// One entity's observable counters folded into the digest: identifier,
/// fixed-point position, health pair, remaining resources, carried
/// amount.
#[verifier::opaque]
pub open spec fn h_entity(acc: u64, e: EntitySnapshot) -> u64 {
    let a1 = h_u64(acc, e.id.0);
    let a2 = h_u64(a1, i64_bits(e.position@[0]));
    let a3 = h_u64(a2, i64_bits(e.position@[1]));
    let a4 = h_u64(a3, i64_bits(e.position@[2]));
    let a5 = match e.health {
        Some(h) => h_u32(h_u32(a4, h.0), h.1),
        None => a4,
    };
    let a6 = match e.resource_remaining {
        Some(r) => h_u32(a5, r),
        None => a5,
    };
    match e.gatherer_state {
        Some(g) => h_u32(a6, g.carry_amount),
        None => a6,
    }
}

/// A list of entities folded in, in list order.
pub open spec fn h_entities(acc: u64, s: Seq<EntitySnapshot>) -> u64
    decreases s.len(),
{
    if s.len() == 0 {
        acc
    } else {
        h_entities(h_entity(acc, s[0]), s.drop_first())
    }
}

/// One player's observable counters folded into the digest.
#[verifier::opaque]
pub open spec fn h_player(acc: u64, p: PlayerSnapshot) -> u64 {
    let a1 = h_byte(acc, p.id.0);
    let a2 = h_u32(a1, p.resources.food);
    let a3 = h_u32(a2, p.resources.wood);
    let a4 = h_u32(a3, p.resources.gold);
    let a5 = h_u32(a4, p.resources.stone);
    h_u32(a5, p.population)
}

/// A list of players folded in, in list order.
pub open spec fn h_players(acc: u64, s: Seq<PlayerSnapshot>) -> u64
    decreases s.len(),
{
    if s.len() == 0 {
        acc
    } else {
        h_players(h_player(acc, s[0]), s.drop_first())
    }
}

/// The digest of a whole snapshot: the tick, then every entity in list
/// order, then every player in list order.
pub open spec fn snapshot_hash(s: WorldSnapshot) -> u64 {
    h_players(h_entities(h_u64(0, s.tick), s.entities@), s.players@)
}

/// Fold one byte into the running digest.
fn mix_byte(acc: u64, b: u8) -> (r: u64)
    ensures
        r == h_byte(acc, b),
{
    proof {
        reveal(h_byte);
    }
    acc.wrapping_mul(31).wrapping_add(b as u64)
}

/// Fold a 64-bit value in, least significant byte first.
fn mix_u64(acc: u64, w: u64) -> (r: u64)
    ensures
        r == h_u64(acc, w),
{
    proof {
        reveal(h_u64);
    }
    let a0 = mix_byte(acc, (w % 256) as u8);
    let a1 = mix_byte(a0, (w / 256 % 256) as u8);
    let a2 = mix_byte(a1, (w / 0x1_0000 % 256) as u8);
    let a3 = mix_byte(a2, (w / 0x100_0000 % 256) as u8);
    let a4 = mix_byte(a3, (w / 0x1_0000_0000 % 256) as u8);
    let a5 = mix_byte(a4, (w / 0x100_0000_0000 % 256) as u8);
    let a6 = mix_byte(a5, (w / 0x1_0000_0000_0000 % 256) as u8);
    mix_byte(a6, (w / 0x100_0000_0000_0000 % 256) as u8)
}

/// Fold a 32-bit value in, least significant byte first.
fn mix_u32(acc: u64, w: u32) -> (r: u64)
    ensures
        r == h_u32(acc, w),
{
    proof {
        reveal(h_u32);
    }
    let a0 = mix_byte(acc, (w % 256) as u8);
    let a1 = mix_byte(a0, (w / 256 % 256) as u8);
    let a2 = mix_byte(a1, (w / 0x1_0000 % 256) as u8);
    mix_byte(a2, (w / 0x100_0000 % 256) as u8)
}

/// The bit pattern of a signed value, as an unsigned value.
pub fn i64_bits_exec(x: i64) -> (r: u64)
    ensures
        r == i64_bits(x),
{
    proof {
        reveal(i64_bits);
    }
    if x >= 0 {
        x as u64
    } else {
        ((x as i128) + 0x1_0000_0000_0000_0000i128) as u64
    }
}

/// Fold one entity's observable counters into the digest.
fn mix_entity(acc: u64, e: &EntitySnapshot) -> (r: u64)
    ensures
        r == h_entity(acc, *e),
{
    proof {
        reveal(h_entity);
    }
    let mut a = mix_u64(acc, e.id.0);
    a = mix_u64(a, i64_bits_exec(e.position[0]));
    a = mix_u64(a, i64_bits_exec(e.position[1]));
    a = mix_u64(a, i64_bits_exec(e.position[2]));
    match &e.health {
        Some(h) => {
            a = mix_u32(a, h.0);
            a = mix_u32(a, h.1);
        },
        None => {},
    }
    match &e.resource_remaining {
        Some(r) => {
            a = mix_u32(a, *r);
        },
        None => {},
    }
    match &e.gatherer_state {
        Some(g) => {
            a = mix_u32(a, g.carry_amount);
        },
        None => {},
    }
    a
}

/// Fold one player's observable counters into the digest.
fn mix_player(acc: u64, p: &PlayerSnapshot) -> (r: u64)
    ensures
        r == h_player(acc, *p),
{
    proof {
        reveal(h_player);
    }
    let mut a = mix_byte(acc, p.id.0);
    a = mix_u32(a, p.resources.food);
    a = mix_u32(a, p.resources.wood);
    a = mix_u32(a, p.resources.gold);
    a = mix_u32(a, p.resources.stone);
    a = mix_u32(a, p.population);
    a
}

impl WorldSnapshot {
    pub fn new(tick: u64) -> (r: Self)
        ensures
            r.tick == tick,
            r.entities@ == Seq::<EntitySnapshot>::empty(),
            r.players@ == Seq::<PlayerSnapshot>::empty(),
    {
        WorldSnapshot { tick, entities: Vec::new(), players: Vec::new() }
    }

    /// Compute the deterministic digest of this snapshot. The digest is
    /// a pure function of the observable content: two snapshots with
    /// identical content always digest identically.
    pub fn compute_hash(&self) -> (r: u64)
        ensures
            r == snapshot_hash(*self),
    {
        let mut acc = mix_u64(0, self.tick);

        let mut i: usize = 0;
        proof {
            assert(self.entities@.subrange(0, self.entities@.len() as int) =~= self.entities@);
        }
        while i < self.entities.len()
            invariant
                i <= self.entities@.len(),
                h_entities(acc, self.entities@.subrange(i as int, self.entities@.len() as int))
                    == h_entities(h_u64(0, self.tick), self.entities@),
            decreases self.entities@.len() - i,
        {
            let ghost rest = self.entities@.subrange(i as int, self.entities@.len() as int);
            proof {
                assert(rest[0] == self.entities@[i as int]);
                assert(rest.drop_first() =~= self.entities@.subrange(
                    i + 1,
                    self.entities@.len() as int,
                ));
            }
            acc = mix_entity(acc, &self.entities[i]);
            i = i + 1;
        }
        proof {
            assert(self.entities@.subrange(
                self.entities@.len() as int,
                self.entities@.len() as int,
            ) =~= Seq::<EntitySnapshot>::empty());
        }

        let mut j: usize = 0;
        proof {
            assert(self.players@.subrange(0, self.players@.len() as int) =~= self.players@);
        }
        while j < self.players.len()
            invariant
                j <= self.players@.len(),
                h_players(acc, self.players@.subrange(j as int, self.players@.len() as int))
                    == snapshot_hash(*self),
            decreases self.players@.len() - j,
        {
            let ghost rest = self.players@.subrange(j as int, self.players@.len() as int);
            proof {
                assert(rest[0] == self.players@[j as int]);
                assert(rest.drop_first() =~= self.players@.subrange(
                    j + 1,
                    self.players@.len() as int,
                ));
            }
            acc = mix_player(acc, &self.players[j]);
            j = j + 1;
        }
        proof {
            assert(self.players@.subrange(
                self.players@.len() as int,
                self.players@.len() as int,
            ) =~= Seq::<PlayerSnapshot>::empty());
        }
        acc
    }
}

/// Hash stability: the digest is a function of the snapshot value, so
/// two snapshots with identical observable content digest identically.
pub proof fn lemma_hash_stability(a: WorldSnapshot, b: WorldSnapshot)
    requires
        a.tick == b.tick,
        a.entities@ == b.entities@,
        a.players@ == b.players@,
    ensures
        snapshot_hash(a) == snapshot_hash(b),
{
}

} // verus!

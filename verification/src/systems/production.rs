//! Production system.
//!
//! Each building with a non-empty queue ticks its head item down by
//! exactly one; a head that reaches zero leaves the queue and records a
//! pending spawn. All spawns are performed in a second pass, after
//! every queue has been processed, so queue mutation and entity
//! creation never interleave: each spawn takes a fresh identifier,
//! inserts the standard component set for its unit type, and raises the
//! owning player's population by the unit's population cost.

use vstd::prelude::*;

use crate::commands::UnitType;
use crate::components::{
    pos_limit, CombatStats, Gatherer, GathererState, Health, Owner, ProductionItem, SimPosition,
    Unit,
};
use crate::ids::{EntityId, PlayerId};
use crate::resources::{sat_add_u32, ResourceType};
use crate::world::{record_wf, world_wf, EntityIdGenerator, EntityRecord, PlayerState, SimWorld};

verus! {

/// A unit waiting to be spawned at the end of the production pass.
#[derive(Clone, Copy, PartialEq, Eq, Structural, Debug)]
pub struct PendingSpawn {
    pub player: PlayerId,
    pub unit_type: UnitType,
    pub x: i64,
    pub z: i64,
}

/// A coordinate clamped to the world bound.
pub open spec fn clamp_coord(v: int) -> int {
    if v < -pos_limit() {
        -pos_limit()
    } else if v > pos_limit() {
        pos_limit()
    } else {
        v
    }
}

/// Clamp a (wide) coordinate to the world bound.
pub fn clamp_coord_exec(v: i128) -> (r: i64)
    ensures
        r == clamp_coord(v as int),
{
    let limit = crate::components::pos_limit_value();
    if v < -(limit as i128) {
        -limit
    } else if v > limit as i128 {
        limit
    } else {
        v as i64
    }
}

/// Whether the head of this entity's production queue completes this
/// tick: the queue is non-empty and the head has at most one tick left.
pub open spec fn head_completes(r: EntityRecord) -> bool {
    match r.production_queue {
        Some(q) => q.items@.len() > 0 && q.items@[0].ticks_remaining <= 1,
        None => false,
    }
}

/// Two records that agree on everything but the production queue.
pub open spec fn same_but_queue(a: EntityRecord, b: EntityRecord) -> bool {
    &&& b.id == a.id
    &&& b.pos == a.pos
    &&& b.owner == a.owner
    &&& b.unit == a.unit
    &&& b.building == a.building
    &&& b.resource_node == a.resource_node
    &&& b.gatherer == a.gatherer
    &&& b.health == a.health
    &&& b.combat == a.combat
    &&& b.spawn_point == a.spawn_point
    &&& b.move_target == a.move_target
    &&& b.drop_off == a.drop_off
    &&& b.selected == a.selected
}

/// `b` is `a` after its production tick: the head item of a non-empty
/// queue ticks down by one, and a completed head leaves the queue;
/// everything else is untouched.
pub open spec fn queue_ticked(a: EntityRecord, b: EntityRecord) -> bool {
    &&& same_but_queue(a, b)
    &&& match (a.production_queue, b.production_queue) {
        (Some(qa), Some(qb)) => {
            &&& qb.max_size == qa.max_size
            &&& if qa.items@.len() == 0 {
                qb.items@ == qa.items@
            } else {
                let head = qa.items@[0];
                let remaining = if head.ticks_remaining > 0 {
                    (head.ticks_remaining - 1) as u32
                } else {
                    0u32
                };
                if remaining == 0 {
                    qb.items@ == qa.items@.drop_first()
                } else {
                    qb.items@ == qa.items@.update(
                        0,
                        ProductionItem { ticks_remaining: remaining, ..head },
                    )
                }
            }
        },
        (None, None) => true,
        _ => false,
    }
}

/// The spawn a completed head records: the owner, the unit type, and
/// the spawn position (the building's position plus its spawn offset,
/// clamped to the world bound).
pub open spec fn spawn_of(r: EntityRecord) -> PendingSpawn
    recommends
        head_completes(r),
{
    let q = r.production_queue->0;
    let ox = match r.spawn_point {
        Some(sp) => sp.offset_x as int,
        None => 0int,
    };
    let oz = match r.spawn_point {
        Some(sp) => sp.offset_z as int,
        None => 2500int,
    };
    PendingSpawn {
        player: r.owner.player_id,
        unit_type: q.items@[0].unit_type,
        x: clamp_coord(r.pos.x + ox) as i64,
        z: clamp_coord(r.pos.z + oz) as i64,
    }
}

/// The spawns an entity list records, in list order.
pub open spec fn production_spawns(s: Seq<EntityRecord>) -> Seq<PendingSpawn>
    decreases s.len(),
{
    if s.len() == 0 {
        Seq::<PendingSpawn>::empty()
    } else {
        let rest = production_spawns(s.drop_last());
        if head_completes(s.last()) {
            rest.push(spawn_of(s.last()))
        } else {
            rest
        }
    }
}

/// `r` carries the standard component set for a freshly produced unit:
/// a villager gets a gatherer, 25 health and villager combat stats; a
/// soldier gets 40 health and soldier combat stats.
pub open spec fn is_spawned_record(r: EntityRecord, id: EntityId, s: PendingSpawn) -> bool {
    &&& r.id == id
    &&& r.pos == (SimPosition { x: s.x, y: 0, z: s.z })
    &&& r.owner == (Owner { player_id: s.player })
    &&& r.building is None
    &&& r.resource_node is None
    &&& r.production_queue is None
    &&& r.spawn_point is None
    &&& r.move_target is None
    &&& !r.drop_off
    &&& r.selected.by_players@ == Seq::<PlayerId>::empty()
    &&& match s.unit_type {
        UnitType::Villager => {
            &&& r.unit == Some(Unit { unit_type: UnitType::Villager, move_speed: 2000 })
            &&& r.gatherer == Some(
                Gatherer {
                    target_node: None,
                    drop_off_target: None,
                    carrying_type: ResourceType::Food,
                    carry_amount: 0,
                    carry_capacity: 10,
                    gather_rate: 500,
                    gather_accumulator: 0,
                    state: GathererState::Idle,
                },
            )
            &&& r.health == Some(Health { current: 25, max: 25 })
            &&& r.combat == Some(
                CombatStats {
                    attack_damage: 3,
                    attack_range: 500,
                    attack_cooldown: 30,
                    cooldown_remaining: 0,
                    armor: 0,
                },
            )
        },
        UnitType::Soldier => {
            &&& r.unit == Some(Unit { unit_type: UnitType::Soldier, move_speed: 2500 })
            &&& r.gatherer is None
            &&& r.health == Some(Health { current: 40, max: 40 })
            &&& r.combat == Some(
                CombatStats {
                    attack_damage: 8,
                    attack_range: 1000,
                    attack_cooldown: 20,
                    cooldown_remaining: 0,
                    armor: 1,
                },
            )
        },
    }
}

/// A player list after one spawn for `pid`: that player's population
/// rises by `cost` (saturating at the counter's bound); everyone else
/// is untouched.
pub open spec fn bump_population(s: Seq<PlayerState>, pid: PlayerId, cost: u32) -> Seq<
    PlayerState,
> {
    Seq::new(
        s.len(),
        |k: int|
            if s[k].id == pid {
                PlayerState { population: sat_add_u32(s[k].population, cost), ..s[k] }
            } else {
                s[k]
            },
    )
}

/// A player list after a whole list of spawns, in spawn order.
pub open spec fn spawn_populations(players: Seq<PlayerState>, spawns: Seq<PendingSpawn>) -> Seq<
    PlayerState,
>
    decreases spawns.len(),
{
    if spawns.len() == 0 {
        players
    } else {
        spawn_populations(
            bump_population(
                players,
                spawns[0].player,
                spawns[0].unit_type.population_cost_spec(),
            ),
            spawns.drop_first(),
        )
    }
}

/// All entity identifiers in `s` are at or below `bound`: the
/// identifier generator has not been outrun.
pub open spec fn ids_below(s: Seq<EntityRecord>, bound: int) -> bool {
    forall|k: int| 0 <= k < s.len() ==> (#[trigger] s[k]).id.0 <= bound
}

/// The world relation of one production pass, with the identifier
/// generator's counter before and after: every queue head ticks down
/// per `queue_ticked`, the recorded spawns are appended with fresh
/// successive identifiers, and each owner's population rises.
pub open spec fn production_pass(w0: SimWorld, next0: int, w1: SimWorld, next1: int) -> bool {
    let spawns = production_spawns(w0.entities@);
    &&& next1 == next0 + spawns.len()
    &&& w1.players@ == spawn_populations(w0.players@, spawns)
    &&& w1.entities@.len() == w0.entities@.len() + spawns.len()
    &&& forall|k: int|
        0 <= k < w0.entities@.len() ==> queue_ticked(
            #[trigger] w0.entities@[k],
            w1.entities@[k],
        )
    &&& forall|j: int|
        0 <= j < spawns.len() ==> is_spawned_record(
            #[trigger] w1.entities@[w0.entities@.len() + j],
            (EntityId((next0 + j + 1) as u64)),
            spawns[j],
        )
}

/// Tick every production queue and spawn the completed units.
pub fn production_system(world: &mut SimWorld, id_gen: &mut EntityIdGenerator)
    requires
        world_wf(*old(world)),
        ids_below(old(world).entities@, old(id_gen).next_id as int),
        old(id_gen).next_id + old(world).entities@.len() < u64::MAX,
    ensures
        world_wf(*final(world)),
        ids_below(final(world).entities@, final(id_gen).next_id as int),
        production_pass(
            *old(world),
            old(id_gen).next_id as int,
            *final(world),
            final(id_gen).next_id as int,
        ),
{
    let ghost orig = world.entities@;
    let mut spawns: Vec<PendingSpawn> = Vec::new();
    let n = world.entities.len();
    let mut i: usize = 0;
    proof {
        assert(orig.subrange(0, 0) =~= Seq::<EntityRecord>::empty());
    }
    while i < n
        invariant
            i <= n,
            n == world.entities@.len(),
            world.entities@.len() == orig.len(),
            world.players@ == old(world).players@,
            world_wf(*world),
            ids_below(orig, old(id_gen).next_id as int),
            forall|k: int| i <= k < orig.len() ==> world.entities@[k] == orig[k],
            forall|k: int|
                0 <= k < i ==> queue_ticked(#[trigger] orig[k], world.entities@[k]),
            forall|k: int|
                0 <= k < world.entities@.len() ==> (#[trigger] world.entities@[k]).id
                    == orig[k].id,
            spawns@ == production_spawns(orig.subrange(0, i as int)),
        decreases n - i,
    {
        let ghost prev = world.entities@[i as int];
        let has_queue = match &world.entities[i].production_queue {
            Some(q) => q.items.len() > 0,
            None => false,
        };
        if has_queue {
            let (player, pos_x, pos_z, offset_x, offset_z) = {
                let rec = &world.entities[i];
                let (ox, oz) = match &rec.spawn_point {
                    Some(sp) => (sp.offset_x, sp.offset_z),
                    None => (0i64, 2500i64),
                };
                (rec.owner.player_id, rec.pos.x, rec.pos.z, ox, oz)
            };
            let mut completed: Option<UnitType> = None;
            {
                let rec = &mut world.entities[i];
                match &mut rec.production_queue {
                    Some(q) => {
                        let ghost items0 = q.items@;
                        let head = q.items[0];
                        let remaining = if head.ticks_remaining > 0 {
                            head.ticks_remaining - 1
                        } else {
                            0
                        };
                        if remaining == 0 {
                            q.items.remove(0);
                            completed = Some(head.unit_type);
                            proof {
                                assert(q.items@ =~= items0.drop_first());
                            }
                        } else {
                            q.items.set(
                                0,
                                ProductionItem { ticks_remaining: remaining, ..head },
                            );
                        }
                    },
                    None => {},
                }
            }
            match completed {
                Some(unit_type) => {
                    let sx = clamp_coord_exec((pos_x as i128) + (offset_x as i128));
                    let sz = clamp_coord_exec((pos_z as i128) + (offset_z as i128));
                    spawns.push(PendingSpawn { player, unit_type, x: sx, z: sz });
                },
                None => {},
            }
        }
        proof {
            assert(orig.subrange(0, i + 1).drop_last() =~= orig.subrange(0, i as int));
            assert(orig.subrange(0, i + 1).last() == prev);
            assert(queue_ticked(prev, world.entities@[i as int]));
            assert(spawns@ == production_spawns(orig.subrange(0, i + 1)));
        }
        i = i + 1;
    }
    proof {
        assert(orig.subrange(0, orig.len() as int) =~= orig);
    }

    // Perform the recorded spawns, each with a fresh identifier.
    let ghost all_spawns = production_spawns(orig);
    let ghost players0 = world.players@;
    let ghost base_len = world.entities@.len();
    let ghost base_next = id_gen.next_id;
    let m = spawns.len();
    let mut j: usize = 0;
    proof {
        assert(spawn_populations(players0, all_spawns.subrange(0, 0)) =~= players0);
        assert(all_spawns.subrange(0, 0) =~= Seq::<PendingSpawn>::empty());
        lemma_production_spawns_len(orig);
        lemma_production_spawns_bounded(orig);
    }
    while j < m
        invariant
            j <= m,
            m == spawns@.len(),
            spawns@ == all_spawns,
            all_spawns == production_spawns(orig),
            world_wf(*world),
            world.entities@.len() == base_len + j,
            base_len == orig.len(),
            id_gen.next_id == base_next + j,
            base_next + m < u64::MAX,
            ids_below(world.entities@, id_gen.next_id as int),
            world.players@ == spawn_populations(players0, all_spawns.subrange(0, j as int)),
            forall|k: int|
                0 <= k < base_len ==> queue_ticked(#[trigger] orig[k], world.entities@[k]),
            forall|t: int|
                0 <= t < j ==> is_spawned_record(
                    #[trigger] world.entities@[base_len + t],
                    (EntityId((base_next + t + 1) as u64)),
                    all_spawns[t],
                ),
        decreases m - j,
    {
        let s = spawns[j];
        let id = id_gen.next();
        let mut rec = EntityRecord::new(id, SimPosition { x: s.x, y: 0, z: s.z }, Owner::new(s.player));
        match s.unit_type {
            UnitType::Villager => {
                rec.unit = Some(Unit::villager());
                rec.gatherer = Some(Gatherer::new());
                rec.health = Some(Health::new(25));
                rec.combat = Some(CombatStats::villager());
            },
            UnitType::Soldier => {
                rec.unit = Some(Unit::soldier());
                rec.health = Some(Health::new(40));
                rec.combat = Some(CombatStats::soldier());
            },
        }
        proof {
            assert(s == all_spawns[j as int]);
            lemma_production_spawns_bounded(orig);
            assert(record_wf(rec));
            assert forall|k: int| 0 <= k < world.entities@.len() implies (
            #[trigger] world.entities@[k]).id != rec.id by {
                assert(world.entities@[k].id.0 <= base_next + j);
            }
        }
        world.entities.push(rec);

        let cost = match s.unit_type {
            UnitType::Villager => 1u32,
            UnitType::Soldier => 1u32,
        };
        match world.find_player(s.player) {
            Some(pi) => {
                let p = &mut world.players[pi];
                p.population = if p.population <= u32::MAX - cost {
                    p.population + cost
                } else {
                    u32::MAX
                };
            },
            None => {},
        }
        proof {
            assert(world.players@ =~= bump_population(
                spawn_populations(players0, all_spawns.subrange(0, j as int)),
                s.player,
                cost,
            ));
            lemma_spawn_populations_step(players0, all_spawns, j as int);
        }
        j = j + 1;
    }
    proof {
        assert(all_spawns.subrange(0, all_spawns.len() as int) =~= all_spawns);
    }
}

/// There is at most one spawn per entity.
proof fn lemma_production_spawns_len(s: Seq<EntityRecord>)
    ensures
        production_spawns(s).len() <= s.len(),
    decreases s.len(),
{
    if s.len() > 0 {
        lemma_production_spawns_len(s.drop_last());
    }
}

/// Spawn positions are clamped to the world bound.
proof fn lemma_production_spawns_bounded(s: Seq<EntityRecord>)
    ensures
        forall|j: int|
            0 <= j < production_spawns(s).len() ==> {
                let sp = #[trigger] production_spawns(s)[j];
                -pos_limit() <= sp.x <= pos_limit() && -pos_limit() <= sp.z <= pos_limit()
            },
    decreases s.len(),
{
    if s.len() > 0 {
        lemma_production_spawns_bounded(s.drop_last());
    }
}

/// Folding one more spawn into the population fold extends it by one
/// bump.
proof fn lemma_spawn_populations_step(players: Seq<PlayerState>, spawns: Seq<PendingSpawn>, j: int)
    requires
        0 <= j < spawns.len(),
    ensures
        spawn_populations(players, spawns.subrange(0, j + 1)) == bump_population(
            spawn_populations(players, spawns.subrange(0, j)),
            spawns[j].player,
            spawns[j].unit_type.population_cost_spec(),
        ),
    decreases j,
{
    let pre = spawns.subrange(0, j + 1);
    if j == 0 {
        assert(pre.drop_first() =~= Seq::<PendingSpawn>::empty());
        assert(pre[0] == spawns[0]);
        assert(spawns.subrange(0, 0) =~= Seq::<PendingSpawn>::empty());
        assert(spawn_populations(
            bump_population(players, spawns[0].player, spawns[0].unit_type.population_cost_spec()),
            Seq::<PendingSpawn>::empty(),
        ) == bump_population(
            players,
            spawns[0].player,
            spawns[0].unit_type.population_cost_spec(),
        ));
    } else {
        let players1 = bump_population(
            players,
            spawns[0].player,
            spawns[0].unit_type.population_cost_spec(),
        );
        let rest = spawns.drop_first();
        assert(pre[0] == spawns[0]);
        assert(pre.drop_first() =~= rest.subrange(0, j));
        assert(spawns.subrange(0, j)[0] == spawns[0]);
        assert(spawns.subrange(0, j).drop_first() =~= rest.subrange(0, j - 1));
        assert(rest[j - 1] == spawns[j]);
        lemma_spawn_populations_step(players1, rest, j - 1);
        assert(rest.subrange(0, j - 1 + 1) =~= rest.subrange(0, j));
    }
}

} // verus!

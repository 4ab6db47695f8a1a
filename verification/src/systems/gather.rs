//! Gather system.
//!
//! The gatherer state machine: move to a resource node, harvest per
//! tick, return to a drop-off when full, deposit. One decision per unit
//! per tick, and the whole pass is read-then-apply: every decision is
//! computed against the world as the tick began, then all decisions are
//! applied in entity order, so no decision can observe another's
//! effects within the same pass. The nearest drop-off is chosen by
//! strict less-than against the running minimum, so the first-registered
//! drop-off wins all distance ties — registration order is part of the
//! deterministic contract.

use vstd::prelude::*;

use crate::components::{
    dist_sq_xz, Gatherer, GathererState, MoveTarget, ResourceNode, SimPosition,
};
use crate::data::{modifiers_of, PlayerModifiers};
use crate::ids::{EntityId, PlayerId};
use crate::resources::{ResourceBundle, ResourceType};
use crate::systems::command_processor::entity_index;
use crate::world::{
    has_entity, has_player, world_wf, EntityRecord, PlayerState, SimWorld, TechModifiers,
};

verus! {

/// Within this squared planar distance of a node, a unit can gather.
pub open spec fn gather_range_sq() -> int {
    2_250_000
}

/// Within this squared planar distance of a drop-off, a unit can
/// deposit.
pub open spec fn drop_off_range_sq() -> int {
    4_000_000
}

/// The one decision a gatherer takes in a tick.
#[derive(Clone, Copy, PartialEq, Eq, Structural, Debug)]
pub enum GatherDecision {
    /// No change this tick.
    Hold,
    /// Transition to another state.
    Become(GathererState),
    /// Head toward a drop-off at this position.
    Approach(i64, i64),
    /// Harvest from the node, which holds this resource type.
    Harvest(EntityId, ResourceType),
    /// Deliver everything carried.
    Deposit,
    /// Forget the target node and go idle.
    Abandon,
}

/// Whether this record takes gatherer decisions: a unit with a gatherer
/// component (resource nodes are excluded even if malformed data gave
/// them one).
pub open spec fn gatherer_eligible(r: EntityRecord) -> bool {
    r.gatherer is Some && r.unit is Some && r.resource_node is None
}

/// Whether `s` holds a record for `id` that is a resource node.
pub open spec fn node_present(s: Seq<EntityRecord>, id: EntityId) -> bool {
    has_entity(s, id) && s[entity_index(s, id)].resource_node is Some
}

/// The nearest drop-off owned by `player`, scanning in registration
/// order and replacing only on strictly smaller squared distance, so
/// the earliest-registered drop-off wins ties.
pub open spec fn nearest_drop_off(s: Seq<EntityRecord>, player: PlayerId, pos: SimPosition)
    -> Option<int>
    decreases s.len(),
{
    if s.len() == 0 {
        None
    } else {
        let prev = nearest_drop_off(s.drop_last(), player, pos);
        let last = s.len() - 1;
        let qualifies = s[last].drop_off && s[last].owner.player_id == player;
        match prev {
            None => if qualifies {
                Some(last)
            } else {
                None
            },
            Some(b) => if qualifies && dist_sq_xz(pos, s[last].pos) < dist_sq_xz(pos, s[b].pos) {
                Some(last)
            } else {
                Some(b)
            },
        }
    }
}

/// The decision the gatherer at index `i` takes, judged against the
/// world as the tick began.
pub open spec fn gather_decision(s: Seq<EntityRecord>, i: int) -> GatherDecision
    recommends
        0 <= i < s.len(),
        gatherer_eligible(s[i]),
{
    let r = s[i];
    let g = r.gatherer->0;
    match g.state {
        GathererState::Idle => {
            if g.carry_amount > 0 {
                GatherDecision::Become(GathererState::ReturningToDropOff)
            } else {
                GatherDecision::Hold
            }
        },
        GathererState::MovingToNode => {
            match g.target_node {
                None => GatherDecision::Become(GathererState::Idle),
                Some(tid) => {
                    if !node_present(s, tid) {
                        GatherDecision::Abandon
                    } else {
                        let node = s[entity_index(s, tid)];
                        if node.resource_node->0.remaining == 0 {
                            GatherDecision::Abandon
                        } else if dist_sq_xz(r.pos, node.pos) <= gather_range_sq() {
                            GatherDecision::Become(GathererState::Gathering)
                        } else {
                            GatherDecision::Hold
                        }
                    }
                },
            }
        },
        GathererState::Gathering => {
            match g.target_node {
                None => GatherDecision::Become(GathererState::Idle),
                Some(tid) => {
                    if !node_present(s, tid) {
                        GatherDecision::Abandon
                    } else {
                        let node = s[entity_index(s, tid)];
                        if node.resource_node->0.remaining == 0 {
                            GatherDecision::Abandon
                        } else {
                            GatherDecision::Harvest(tid, node.resource_node->0.resource_type)
                        }
                    }
                },
            }
        },
        GathererState::ReturningToDropOff => {
            match nearest_drop_off(s, r.owner.player_id, r.pos) {
                None => GatherDecision::Become(GathererState::Idle),
                Some(d) => {
                    if dist_sq_xz(r.pos, s[d].pos) <= drop_off_range_sq() {
                        GatherDecision::Become(GathererState::Depositing)
                    } else {
                        GatherDecision::Approach(s[d].pos.x, s[d].pos.z)
                    }
                },
            }
        },
        GathererState::Depositing => GatherDecision::Deposit,
    }
}

/// Whether the gatherer at index `i` is gathering with its effective
/// carry capacity (the base capacity plus the player's technology
/// bonus) already reached.
pub open spec fn gathering_full_decision(s: Seq<EntityRecord>, i: int, mods: TechModifiers)
    -> bool
    recommends
        0 <= i < s.len(),
        gatherer_eligible(s[i]),
{
    let g = s[i].gatherer->0;
    g.state == GathererState::Gathering && g.carry_amount
        >= mods.effective_carry_capacity_spec(g.carry_capacity)
}

/// The decision of the gatherer at index `i` with the capacity check
/// applied: a gatherer about to harvest while already at its effective
/// capacity turns back to a drop-off instead.
pub open spec fn effective_decision(s: Seq<EntityRecord>, i: int, mods: TechModifiers)
    -> GatherDecision
    recommends
        0 <= i < s.len(),
        gatherer_eligible(s[i]),
{
    let d = gather_decision(s, i);
    if d is Harvest && gathering_full_decision(s, i, mods) {
        GatherDecision::Become(GathererState::ReturningToDropOff)
    } else {
        d
    }
}

/// The decisions of a whole pass, in entity order: one per eligible
/// gatherer, judged against the world as the tick began.
pub open spec fn gather_decisions_upto(
    s: Seq<EntityRecord>,
    pm: Seq<(PlayerId, TechModifiers)>,
    i: int,
) -> Seq<(usize, GatherDecision)>
    decreases i,
{
    if i <= 0 {
        Seq::<(usize, GatherDecision)>::empty()
    } else {
        let rest = gather_decisions_upto(s, pm, i - 1);
        if gatherer_eligible(s[i - 1]) {
            let mods = modifiers_of(pm, s[i - 1].owner.player_id);
            rest.push((((i - 1) as usize), effective_decision(s, i - 1, mods)))
        } else {
            rest
        }
    }
}

/// All decisions of a pass.
pub open spec fn gather_decisions(s: Seq<EntityRecord>, pm: Seq<(PlayerId, TechModifiers)>)
    -> Seq<(usize, GatherDecision)> {
    gather_decisions_upto(s, pm, s.len() as int)
}

/// `a + b` clamped to `cap`.
pub open spec fn clamped_add(a: u32, b: u32, cap: u32) -> u32 {
    if a + b <= cap {
        (a + b) as u32
    } else {
        cap
    }
}

/// One decision applied to the evolving world: the entity list and the
/// player list after the gatherer at index `i` acts on `d`.
pub open spec fn apply_decision(
    es: Seq<EntityRecord>,
    ps: Seq<PlayerState>,
    i: int,
    d: GatherDecision,
    mods: TechModifiers,
) -> (Seq<EntityRecord>, Seq<PlayerState>)
    recommends
        0 <= i < es.len(),
{
    let r = es[i];
    if r.gatherer is None {
        (es, ps)
    } else {
        let g = r.gatherer->0;
        match d {
            GatherDecision::Hold => (es, ps),
            GatherDecision::Become(st) => (
                es.update(i, EntityRecord { gatherer: Some(Gatherer { state: st, ..g }), ..r }),
                ps,
            ),
            GatherDecision::Approach(x, z) => (
                es.update(
                    i,
                    EntityRecord {
                        move_target: Some(
                            MoveTarget {
                                x: crate::systems::production::clamp_coord(x as int) as i64,
                                z: crate::systems::production::clamp_coord(z as int) as i64,
                                stop_on_arrival: true,
                            },
                        ),
                        ..r
                    },
                ),
                ps,
            ),
            GatherDecision::Abandon => (
                es.update(
                    i,
                    EntityRecord {
                        gatherer: Some(
                            Gatherer { target_node: None, state: GathererState::Idle, ..g },
                        ),
                        ..r
                    },
                ),
                ps,
            ),
            GatherDecision::Harvest(node_id, rt) => {
                if node_present(es, node_id) {
                    let ni = entity_index(es, node_id);
                    let node = es[ni].resource_node->0;
                    let amount = mods.scaled_gather_amount_spec(1, rt);
                    let gathered = if amount <= node.remaining {
                        amount
                    } else {
                        node.remaining
                    };
                    let carried = clamped_add(g.carry_amount, gathered, g.carry_capacity);
                    let cap = mods.effective_carry_capacity_spec(g.carry_capacity);
                    let full = carried >= cap;
                    let g2 = Gatherer {
                        carry_amount: carried,
                        state: if full {
                            GathererState::ReturningToDropOff
                        } else {
                            g.state
                        },
                        ..g
                    };
                    let node2 = ResourceNode {
                        remaining: (node.remaining - gathered) as u32,
                        current_gatherers: if full && node.current_gatherers > 0 {
                            (node.current_gatherers - 1) as u32
                        } else {
                            node.current_gatherers
                        },
                        ..node
                    };
                    let es1 = es.update(i, EntityRecord { gatherer: Some(g2), ..r });
                    (
                        es1.update(ni, EntityRecord { resource_node: Some(node2), ..es1[ni] }),
                        ps,
                    )
                } else {
                    (es, ps)
                }
            },
            GatherDecision::Deposit => {
                let amount = g.carry_amount;
                let rt = g.carrying_type;
                let g2 = Gatherer {
                    carry_amount: 0,
                    state: if g.target_node is Some {
                        GathererState::MovingToNode
                    } else {
                        GathererState::Idle
                    },
                    ..g
                };
                let es2 = es.update(i, EntityRecord { gatherer: Some(g2), ..r });
                let ps2 = if has_player(ps, r.owner.player_id) {
                    let pi = crate::systems::command_processor::player_index(
                        ps,
                        r.owner.player_id,
                    );
                    let bundle = ResourceBundle {
                        food: 0,
                        wood: 0,
                        gold: 0,
                        stone: 0,
                    }.set_spec(rt, amount);
                    ps.update(
                        pi,
                        PlayerState {
                            resources: ps[pi].resources.add_spec(bundle),
                            ..ps[pi]
                        },
                    )
                } else {
                    ps
                };
                (es2, ps2)
            },
        }
    }
}

/// Identifiers are unique, so the record found for an identifier sits
/// at the (unique) index the specification names.
proof fn lemma_entity_index_is(s: Seq<EntityRecord>, id: EntityId, i: int)
    requires
        forall|a: int, b: int| 0 <= a < b < s.len() ==> (#[trigger] s[a]).id != (#[trigger] s[b]).id,
        0 <= i < s.len(),
        s[i].id == id,
    ensures
        entity_index(s, id) == i,
{
    assert(has_entity(s, id));
    let j = entity_index(s, id);
    assert(s[j].id == id);
    if i < j {
        assert(s[i].id != s[j].id);
    }
    if j < i {
        assert(s[j].id != s[i].id);
    }
}

/// A list of decisions applied in order to the evolving world.
pub open spec fn apply_decisions(
    es: Seq<EntityRecord>,
    ps: Seq<PlayerState>,
    ups: Seq<(usize, GatherDecision)>,
    pm: Seq<(PlayerId, TechModifiers)>,
) -> (Seq<EntityRecord>, Seq<PlayerState>)
    decreases ups.len(),
{
    if ups.len() == 0 {
        (es, ps)
    } else {
        let i = ups[0].0 as int;
        if 0 <= i < es.len() {
            let mods = modifiers_of(pm, es[i].owner.player_id);
            let (es2, ps2) = apply_decision(es, ps, i, ups[0].1, mods);
            apply_decisions(es2, ps2, ups.drop_first(), pm)
        } else {
            apply_decisions(es, ps, ups.drop_first(), pm)
        }
    }
}

/// Find the nearest drop-off owned by `player`, first-registered
/// winning ties.
fn find_nearest_drop_off(world: &SimWorld, player: PlayerId, pos: SimPosition) -> (r: Option<
    usize,
>)
    requires
        world_wf(*world),
        crate::components::pos_in_bounds(pos),
    ensures
        match r {
            Some(i) => i < world.entities@.len() && nearest_drop_off(
                world.entities@,
                player,
                pos,
            ) == Some(i as int),
            None => nearest_drop_off(world.entities@, player, pos) is None,
        },
{
    let s = &world.entities;
    let mut best: Option<usize> = None;
    let mut t: usize = 0;
    proof {
        assert(s@.subrange(0, 0) =~= Seq::<EntityRecord>::empty());
    }
    while t < s.len()
        invariant
            t <= s@.len(),
            world_wf(*world),
            crate::components::pos_in_bounds(pos),
            s@ == world.entities@,
            match best {
                Some(b) => b < t && nearest_drop_off(s@.subrange(0, t as int), player, pos)
                    == Some(b as int),
                None => nearest_drop_off(s@.subrange(0, t as int), player, pos) is None,
            },
        decreases s@.len() - t,
    {
        let ghost prefix = s@.subrange(0, t as int);
        proof {
            assert(s@.subrange(0, t + 1).drop_last() =~= prefix);
            assert(s@.subrange(0, t + 1).last() == s@[t as int]);
        }
        let qualifies = s[t].drop_off && s[t].owner.player_id.0 == player.0;
        if qualifies {
            match best {
                None => {
                    best = Some(t);
                },
                Some(b) => {
                    let dt = pos.distance_sq_xz(&s[t].pos);
                    let db = pos.distance_sq_xz(&s[b].pos);
                    if dt < db {
                        best = Some(t);
                    }
                },
            }
        }
        t = t + 1;
    }
    proof {
        assert(s@.subrange(0, s@.len() as int) =~= s@);
    }
    best
}

/// Compute the decision of the (eligible) gatherer at index `i`.
fn compute_decision(world: &SimWorld, i: usize, mods: TechModifiers) -> (r: GatherDecision)
    requires
        world_wf(*world),
        i < world.entities@.len(),
        gatherer_eligible(world.entities@[i as int]),
    ensures
        r == effective_decision(world.entities@, i as int, mods),
{
    let g = match &world.entities[i].gatherer {
        Some(g) => *g,
        None => {
            return GatherDecision::Hold;
        },
    };
    match g.state {
        GathererState::Idle => {
            if g.carry_amount > 0 {
                GatherDecision::Become(GathererState::ReturningToDropOff)
            } else {
                GatherDecision::Hold
            }
        },
        GathererState::MovingToNode => {
            let tid = match g.target_node {
                Some(tid) => tid,
                None => {
                    return GatherDecision::Become(GathererState::Idle);
                },
            };
            match world.find_entity(tid) {
                Some(ni) => {
                    proof {
                        lemma_entity_index_is(world.entities@, tid, ni as int);
                    }
                    match &world.entities[ni].resource_node {
                        Some(node) => {
                            if node.remaining == 0 {
                                GatherDecision::Abandon
                            } else {
                                let d2 = world.entities[i].pos.distance_sq_xz(
                                    &world.entities[ni].pos,
                                );
                                if d2 <= 2_250_000 {
                                    GatherDecision::Become(GathererState::Gathering)
                                } else {
                                    GatherDecision::Hold
                                }
                            }
                        },
                        None => GatherDecision::Abandon,
                    }
                },
                None => GatherDecision::Abandon,
            }
        },
        GathererState::Gathering => {
            let tid = match g.target_node {
                Some(tid) => tid,
                None => {
                    return GatherDecision::Become(GathererState::Idle);
                },
            };
            match world.find_entity(tid) {
                Some(ni) => {
                    proof {
                        lemma_entity_index_is(world.entities@, tid, ni as int);
                    }
                    match &world.entities[ni].resource_node {
                        Some(node) => {
                            if node.remaining == 0 {
                                GatherDecision::Abandon
                            } else if g.carry_amount >= mods.effective_carry_capacity(
                                g.carry_capacity,
                            ) {
                                GatherDecision::Become(GathererState::ReturningToDropOff)
                            } else {
                                GatherDecision::Harvest(tid, node.resource_type)
                            }
                        },
                        None => GatherDecision::Abandon,
                    }
                },
                None => GatherDecision::Abandon,
            }
        },
        GathererState::ReturningToDropOff => {
            let pos = world.entities[i].pos;
            match find_nearest_drop_off(world, world.entities[i].owner.player_id, pos) {
                None => GatherDecision::Become(GathererState::Idle),
                Some(d) => {
                    let d2 = pos.distance_sq_xz(&world.entities[d].pos);
                    if d2 <= 4_000_000 {
                        GatherDecision::Become(GathererState::Depositing)
                    } else {
                        GatherDecision::Approach(world.entities[d].pos.x, world.entities[d].pos.z)
                    }
                },
            }
        },
        GathererState::Depositing => GatherDecision::Deposit,
    }
}

/// The world relation of one gather pass: the decisions of the world
/// as the tick began, applied in entity order.
pub open spec fn gather_pass(
    w0: SimWorld,
    pm: Seq<(PlayerId, TechModifiers)>,
    w1: SimWorld,
) -> bool {
    let (es, ps) = apply_decisions(w0.entities@, w0.players@, gather_decisions(w0.entities@, pm), pm);
    w1.entities@ == es && w1.players@ == ps
}

/// Run the gather pass: decide for every gatherer against the world as
/// the tick began, then apply all decisions in entity order.
pub fn gather_system(world: &mut SimWorld, player_modifiers: &PlayerModifiers)
    requires
        world_wf(*old(world)),
    ensures
        world_wf(*final(world)),
        gather_pass(*old(world), player_modifiers.entries@, *final(world)),
{
    let ghost orig = world.entities@;
    let ghost pm = player_modifiers.entries@;

    // Read pass: one decision per gatherer, against the unchanged world.
    let mut updates: Vec<(usize, GatherDecision)> = Vec::new();
    let n = world.entities.len();
    let mut t: usize = 0;
    while t < n
        invariant
            t <= n,
            n == world.entities@.len(),
            world_wf(*world),
            *world == *old(world),
            pm == player_modifiers.entries@,
            updates@ == gather_decisions_upto(world.entities@, pm, t as int),
        decreases n - t,
    {
        let eligible = world.entities[t].gatherer.is_some() && world.entities[t].unit.is_some()
            && world.entities[t].resource_node.is_none();
        if eligible {
            let mods = player_modifiers.get(world.entities[t].owner.player_id);
            let d = compute_decision(world, t, mods);
            updates.push((t, d));
        }
        t = t + 1;
    }

    // Apply pass: all decisions, in entity order.
    let ghost all_ups = gather_decisions(orig, pm);
    let ghost ps0 = world.players@;
    let ghost target = apply_decisions(orig, ps0, all_ups, pm);
    let m = updates.len();
    let mut j: usize = 0;
    proof {
        assert(updates@ == all_ups);
        assert(all_ups.subrange(0, all_ups.len() as int) =~= all_ups);
    }
    while j < m
        invariant
            j <= m,
            m == updates@.len(),
            updates@ == all_ups,
            pm == player_modifiers.entries@,
            world_wf(*world),
            world.entities@.len() == orig.len(),
            target == apply_decisions(orig, ps0, all_ups, pm),
            apply_decisions(
                world.entities@,
                world.players@,
                all_ups.subrange(j as int, m as int),
                pm,
            ) == target,
        decreases m - j,
    {
        let ghost rest = all_ups.subrange(j as int, m as int);
        proof {
            assert(rest[0] == all_ups[j as int]);
            assert(rest.drop_first() =~= all_ups.subrange(j + 1, m as int));
        }
        let (idx, d) = updates[j];
        if idx < world.entities.len() {
            let mods = player_modifiers.get(world.entities[idx].owner.player_id);
            apply_one(world, idx, d, mods);
        }
        proof {
            assert(apply_decisions(
                world.entities@,
                world.players@,
                all_ups.subrange(j + 1, m as int),
                pm,
            ) == target);
        }
        j = j + 1;
    }
    proof {
        assert(all_ups.subrange(m as int, m as int) =~= Seq::<(usize, GatherDecision)>::empty());
    }
}

/// Apply one decision to the world.
fn apply_one(world: &mut SimWorld, i: usize, d: GatherDecision, mods: TechModifiers)
    requires
        world_wf(*old(world)),
        i < old(world).entities@.len(),
    ensures
        world_wf(*final(world)),
        final(world).entities@.len() == old(world).entities@.len(),
        ({
            let (es, ps) = apply_decision(
                old(world).entities@,
                old(world).players@,
                i as int,
                d,
                mods,
            );
            final(world).entities@ == es && final(world).players@ == ps
        }),
{
    let ghost es0 = world.entities@;
    let ghost ps00 = world.players@;
    let g = match &world.entities[i].gatherer {
        Some(g) => *g,
        None => {
            return ;
        },
    };
    match d {
        GatherDecision::Hold => {},
        GatherDecision::Become(st) => {
            let rec = &mut world.entities[i];
            match &mut rec.gatherer {
                Some(gm) => {
                    gm.state = st;
                },
                None => {},
            }
            proof {
                assert(world.entities@ =~= es0.update(
                    i as int,
                    EntityRecord { gatherer: Some(Gatherer { state: st, ..g }), ..es0[i as int] },
                ));
            }
        },
        GatherDecision::Approach(x, z) => {
            let cx = crate::systems::production::clamp_coord_exec(x as i128);
            let cz = crate::systems::production::clamp_coord_exec(z as i128);
            let rec = &mut world.entities[i];
            rec.move_target = Some(MoveTarget { x: cx, z: cz, stop_on_arrival: true });
            proof {
                assert(world.entities@ =~= es0.update(
                    i as int,
                    EntityRecord {
                        move_target: Some(MoveTarget { x: cx, z: cz, stop_on_arrival: true }),
                        ..es0[i as int]
                    },
                ));
            }
        },
        GatherDecision::Abandon => {
            let rec = &mut world.entities[i];
            match &mut rec.gatherer {
                Some(gm) => {
                    gm.target_node = None;
                    gm.state = GathererState::Idle;
                },
                None => {},
            }
            proof {
                assert(world.entities@ =~= es0.update(
                    i as int,
                    EntityRecord {
                        gatherer: Some(
                            Gatherer { target_node: None, state: GathererState::Idle, ..g },
                        ),
                        ..es0[i as int]
                    },
                ));
            }
        },
        GatherDecision::Harvest(node_id, rt) => {
            match world.find_entity(node_id) {
                Some(ni) => {
                    proof {
                        lemma_entity_index_is(world.entities@, node_id, ni as int);
                    }
                    let node = match &world.entities[ni].resource_node {
                        Some(node) => *node,
                        None => {
                            return ;
                        },
                    };
                    let amount = mods.scaled_gather_amount(1, rt);
                    let gathered = if amount <= node.remaining {
                        amount
                    } else {
                        node.remaining
                    };
                    let carried = if gathered <= g.carry_capacity && g.carry_amount
                        <= g.carry_capacity - gathered {
                        g.carry_amount + gathered
                    } else {
                        g.carry_capacity
                    };
                    let cap = mods.effective_carry_capacity(g.carry_capacity);
                    let full = carried >= cap;
                    {
                        let rec = &mut world.entities[i];
                        match &mut rec.gatherer {
                            Some(gm) => {
                                gm.carry_amount = carried;
                                if full {
                                    gm.state = GathererState::ReturningToDropOff;
                                }
                            },
                            None => {},
                        }
                    }
                    let ghost es1 = world.entities@;
                    {
                        let nrec = &mut world.entities[ni];
                        match &mut nrec.resource_node {
                            Some(nm) => {
                                nm.remaining = nm.remaining - gathered;
                                if full && nm.current_gatherers > 0 {
                                    nm.current_gatherers = nm.current_gatherers - 1;
                                }
                            },
                            None => {},
                        }
                    }
                    proof {
                        let node2 = ResourceNode {
                            remaining: (node.remaining - gathered) as u32,
                            current_gatherers: if full && node.current_gatherers > 0 {
                                (node.current_gatherers - 1) as u32
                            } else {
                                node.current_gatherers
                            },
                            ..node
                        };
                        let g2 = Gatherer {
                            carry_amount: carried,
                            state: if full {
                                GathererState::ReturningToDropOff
                            } else {
                                g.state
                            },
                            ..g
                        };
                        assert(es1 =~= es0.update(
                            i as int,
                            EntityRecord { gatherer: Some(g2), ..es0[i as int] },
                        ));
                        assert(world.entities@ =~= es1.update(
                            ni as int,
                            EntityRecord { resource_node: Some(node2), ..es1[ni as int] },
                        ));
                    }
                },
                None => {
                    proof {
                        assert(!node_present(es0, node_id));
                    }
                },
            }
        },
        GatherDecision::Deposit => {
            let amount = g.carry_amount;
            let rt = g.carrying_type;
            let has_target = g.target_node.is_some();
            {
                let rec = &mut world.entities[i];
                match &mut rec.gatherer {
                    Some(gm) => {
                        gm.carry_amount = 0;
                        gm.state = if has_target {
                            GathererState::MovingToNode
                        } else {
                            GathererState::Idle
                        };
                    },
                    None => {},
                }
            }
            proof {
                let g2 = Gatherer {
                    carry_amount: 0,
                    state: if g.target_node is Some {
                        GathererState::MovingToNode
                    } else {
                        GathererState::Idle
                    },
                    ..g
                };
                assert(world.entities@ =~= es0.update(
                    i as int,
                    EntityRecord { gatherer: Some(g2), ..es0[i as int] },
                ));
            }
            let owner = world.entities[i].owner.player_id;
            match world.find_player(owner) {
                Some(pi) => {
                    proof {
                        lemma_player_index_is(world.players@, owner, pi as int);
                    }
                    let mut bundle = ResourceBundle::zero();
                    bundle.set(rt, amount);
                    let p = &mut world.players[pi];
                    p.add_resources(&bundle);
                    proof {
                        assert(world.players@ =~= ps00.update(
                            pi as int,
                            PlayerState {
                                resources: ps00[pi as int].resources.add_spec(
                                    ResourceBundle { food: 0, wood: 0, gold: 0, stone: 0 }
                                        .set_spec(rt, amount),
                                ),
                                ..ps00[pi as int]
                            },
                        ));
                    }
                },
                None => {},
            }
        },
    }
}

/// Player identifiers are unique, so the player found for an identifier
/// sits at the (unique) index the specification names.
proof fn lemma_player_index_is(s: Seq<PlayerState>, id: PlayerId, i: int)
    requires
        forall|a: int, b: int| 0 <= a < b < s.len() ==> (#[trigger] s[a]).id != (#[trigger] s[b]).id,
        0 <= i < s.len(),
        s[i].id == id,
    ensures
        crate::systems::command_processor::player_index(s, id) == i,
{
    assert(has_player(s, id));
    let j = crate::systems::command_processor::player_index(s, id);
    assert(s[j].id == id);
    if i < j {
        assert(s[i].id != s[j].id);
    }
    if j < i {
        assert(s[j].id != s[i].id);
    }
}

} // verus!

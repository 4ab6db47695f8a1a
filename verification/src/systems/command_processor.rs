//! Command processor system.
//!
//! Each tick, the scheduler advances, the command buffer is drained for
//! the new tick, and the drained commands are applied in their sorted
//! order, never re-sorted and never in parallel. A command that names
//! an entity that no longer exists, or one the issuing player does not
//! own, is a silent no-op — a normal race with destruction or the
//! anti-cheat boundary, not an error. A debit for a queued unit is
//! atomic: either the full cost is paid and the item queued, or nothing
//! changes.

use vstd::prelude::*;

use crate::buffer::{due_commands, late_kept_commands, CommandBuffer};
use crate::commands::{sorted_cmds, GameCommand, StampedCommand, UnitType};
use crate::components::{Gatherer, GathererState, MoveTarget, ProductionItem};
use crate::ids::{EntityId, PlayerId};
use crate::resources::{ResourceBundle, ResourceType};
use crate::systems::production::clamp_coord;
use crate::tick::TickScheduler;
use crate::world::{has_entity, has_player, world_wf, EntityRecord, PlayerState, SimWorld};

verus! {

/// Whether `id` occurs in the list of commanded entities.
pub open spec fn listed(ids: Seq<EntityId>, id: EntityId) -> bool {
    exists|k: int| 0 <= k < ids.len() && ids[k] == id
}

/// Appending one id to a command's entity list extends what is listed
/// by exactly that id.
proof fn lemma_listed_push(ids: Seq<EntityId>, x: EntityId, y: EntityId)
    ensures
        listed(ids.push(x), y) == (listed(ids, y) || x == y),
{
    if listed(ids, y) {
        let k = choose|k: int| 0 <= k < ids.len() && ids[k] == y;
        assert(ids.push(x)[k] == y);
    }
    if x == y {
        assert(ids.push(x)[ids.len() as int] == y);
    }
    if listed(ids.push(x), y) {
        let k = choose|k: int| 0 <= k < ids.push(x).len() && ids.push(x)[k] == y;
        if k < ids.len() {
            assert(ids[k] == y);
        }
    }
}

/// One record after a move command for the listed entities of `player`:
/// a listed, owned record drops any gathering in progress and aims at
/// the commanded target (clamped to the world bound); every other
/// record is untouched.
pub open spec fn move_applied(
    r: EntityRecord,
    ids: Seq<EntityId>,
    player: PlayerId,
    tx: i64,
    tz: i64,
) -> EntityRecord {
    if listed(ids, r.id) && r.owner.player_id == player {
        let g = match r.gatherer {
            Some(g) => Some(Gatherer { target_node: None, state: GathererState::Idle, ..g }),
            None => None,
        };
        let stop = match r.move_target {
            Some(mt) => mt.stop_on_arrival,
            None => true,
        };
        EntityRecord {
            gatherer: g,
            move_target: Some(
                MoveTarget {
                    x: clamp_coord(tx as int) as i64,
                    z: clamp_coord(tz as int) as i64,
                    stop_on_arrival: stop,
                },
            ),
            ..r
        }
    } else {
        r
    }
}

/// One record after a gather command toward the node `node` holding
/// `resource_type`: a listed, owned record with a gatherer aims it at
/// the node; every other record is untouched.
pub open spec fn gather_applied(
    r: EntityRecord,
    ids: Seq<EntityId>,
    player: PlayerId,
    node: EntityId,
    resource_type: ResourceType,
) -> EntityRecord {
    if listed(ids, r.id) && r.owner.player_id == player && r.gatherer is Some {
        let g = r.gatherer->0;
        EntityRecord {
            gatherer: Some(
                Gatherer {
                    target_node: Some(node),
                    carrying_type: resource_type,
                    state: GathererState::MovingToNode,
                    ..g
                },
            ),
            ..r
        }
    } else {
        r
    }
}

/// One record after a stop command: a listed, owned record loses its
/// movement target and its gatherer goes idle; every other record is
/// untouched.
pub open spec fn stop_applied(r: EntityRecord, ids: Seq<EntityId>, player: PlayerId)
    -> EntityRecord {
    if listed(ids, r.id) && r.owner.player_id == player {
        let g = match r.gatherer {
            Some(g) => Some(Gatherer { target_node: None, state: GathererState::Idle, ..g }),
            None => None,
        };
        EntityRecord { gatherer: g, move_target: None, ..r }
    } else {
        r
    }
}

/// The fixed cost of producing a unit.
pub open spec fn unit_cost(ut: UnitType) -> ResourceBundle {
    match ut {
        UnitType::Villager => ResourceBundle { food: 50, wood: 0, gold: 0, stone: 0 },
        UnitType::Soldier => ResourceBundle { food: 60, wood: 0, gold: 20, stone: 0 },
    }
}

/// The production item queued for a unit type.
pub open spec fn prod_item(ut: UnitType) -> ProductionItem {
    match ut {
        UnitType::Villager => ProductionItem {
            unit_type: UnitType::Villager,
            cost: unit_cost(UnitType::Villager),
            ticks_remaining: 50,
            total_ticks: 50,
        },
        UnitType::Soldier => ProductionItem {
            unit_type: UnitType::Soldier,
            cost: unit_cost(UnitType::Soldier),
            ticks_remaining: 60,
            total_ticks: 60,
        },
    }
}

/// The (unique) index of the record carrying `id`.
pub open spec fn entity_index(s: Seq<EntityRecord>, id: EntityId) -> int {
    choose|k: int| 0 <= k < s.len() && s[k].id == id
}

/// The (unique) index of the player carrying `id`.
pub open spec fn player_index(s: Seq<PlayerState>, id: PlayerId) -> int {
    choose|k: int| 0 <= k < s.len() && s[k].id == id
}

/// Whether a queue-unit command succeeds: the named building exists,
/// is a building with a production queue, is owned by the issuing
/// player, has room in its queue, and the player exists and can afford
/// the unit's cost. On any failure the command is a silent no-op and
/// no partial debit ever occurs.
pub open spec fn queue_unit_allowed(
    w: SimWorld,
    building: EntityId,
    player: PlayerId,
    ut: UnitType,
) -> bool {
    &&& has_entity(w.entities@, building)
    &&& {
        let b = w.entities@[entity_index(w.entities@, building)];
        &&& b.building is Some
        &&& b.production_queue is Some
        &&& b.owner.player_id == player
        &&& b.production_queue->0.items@.len() < b.production_queue->0.max_size
    }
    &&& has_player(w.players@, player)
    &&& w.players@[player_index(w.players@, player)].resources.can_afford_spec(unit_cost(ut))
}

/// Whether a cancel command removes an item: the named building exists,
/// is a building with a production queue, is owned by the issuing
/// player, and the index is valid. An invalid cancel is a silent no-op.
pub open spec fn cancel_allowed(
    w: SimWorld,
    building: EntityId,
    player: PlayerId,
    index: int,
) -> bool {
    &&& has_entity(w.entities@, building)
    &&& {
        let b = w.entities@[entity_index(w.entities@, building)];
        &&& b.building is Some
        &&& b.production_queue is Some
        &&& b.owner.player_id == player
        &&& 0 <= index < b.production_queue->0.items@.len()
    }
}

/// The world relation of one move command.
pub open spec fn move_cmd_applied(
    w0: SimWorld,
    ids: Seq<EntityId>,
    player: PlayerId,
    tx: i64,
    tz: i64,
    w1: SimWorld,
) -> bool {
    &&& w1.players@ == w0.players@
    &&& w1.entities@.len() == w0.entities@.len()
    &&& forall|k: int|
        0 <= k < w0.entities@.len() ==> w1.entities@[k] == move_applied(
            #[trigger] w0.entities@[k],
            ids,
            player,
            tx,
            tz,
        )
}

/// The world relation of one gather command: a no-op unless the named
/// node exists and is a resource node.
pub open spec fn gather_cmd_applied(
    w0: SimWorld,
    ids: Seq<EntityId>,
    player: PlayerId,
    node: EntityId,
    w1: SimWorld,
) -> bool {
    &&& w1.players@ == w0.players@
    &&& w1.entities@.len() == w0.entities@.len()
    &&& ({
        let found = has_entity(w0.entities@, node) && w0.entities@[entity_index(
            w0.entities@,
            node,
        )].resource_node is Some;
        if found {
            let rt = w0.entities@[entity_index(w0.entities@, node)].resource_node->0.resource_type;
            forall|k: int|
                0 <= k < w0.entities@.len() ==> w1.entities@[k] == gather_applied(
                    #[trigger] w0.entities@[k],
                    ids,
                    player,
                    node,
                    rt,
                )
        } else {
            w1.entities@ == w0.entities@
        }
    })
}

/// The world relation of one stop command.
pub open spec fn stop_cmd_applied(
    w0: SimWorld,
    ids: Seq<EntityId>,
    player: PlayerId,
    w1: SimWorld,
) -> bool {
    &&& w1.players@ == w0.players@
    &&& w1.entities@.len() == w0.entities@.len()
    &&& forall|k: int|
        0 <= k < w0.entities@.len() ==> w1.entities@[k] == stop_applied(
            #[trigger] w0.entities@[k],
            ids,
            player,
        )
}

/// The world relation of one queue-unit command: on success the cost
/// leaves the player and the item joins the queue; on any failure
/// nothing changes.
pub open spec fn queue_unit_cmd_applied(
    w0: SimWorld,
    building: EntityId,
    player: PlayerId,
    ut: UnitType,
    w1: SimWorld,
) -> bool {
    &&& w1.entities@.len() == w0.entities@.len()
    &&& if !queue_unit_allowed(w0, building, player, ut) {
        w1.entities@ == w0.entities@ && w1.players@ == w0.players@
    } else {
        let bi = entity_index(w0.entities@, building);
        let pi = player_index(w0.players@, player);
        let b = w0.entities@[bi];
        let p = w0.players@[pi];
        &&& forall|k: int|
            0 <= k < w0.entities@.len() && k != bi ==> #[trigger] w1.entities@[k]
                == w0.entities@[k]
        &&& crate::systems::production::same_but_queue(b, w1.entities@[bi])
        &&& w1.entities@[bi].production_queue is Some
        &&& w1.entities@[bi].production_queue->0.max_size == b.production_queue->0.max_size
        &&& w1.entities@[bi].production_queue->0.items@ == b.production_queue->0.items@.push(
            prod_item(ut),
        )
        &&& w1.players@.len() == w0.players@.len()
        &&& forall|k: int|
            0 <= k < w0.players@.len() && k != pi ==> #[trigger] w1.players@[k] == w0.players@[k]
        &&& w1.players@[pi] == (PlayerState { resources: p.resources.sub_spec(unit_cost(ut)), ..p })
    }
}

/// The world relation of one cancel command: a valid cancel removes
/// exactly the named item and refunds its cost to the player (when the
/// player exists); anything else changes nothing.
pub open spec fn cancel_cmd_applied(
    w0: SimWorld,
    building: EntityId,
    player: PlayerId,
    index: int,
    w1: SimWorld,
) -> bool {
    &&& w1.entities@.len() == w0.entities@.len()
    &&& if !cancel_allowed(w0, building, player, index) {
        w1.entities@ == w0.entities@ && w1.players@ == w0.players@
    } else {
        let bi = entity_index(w0.entities@, building);
        let b = w0.entities@[bi];
        let refund = b.production_queue->0.items@[index].cost;
        &&& forall|k: int|
            0 <= k < w0.entities@.len() && k != bi ==> #[trigger] w1.entities@[k]
                == w0.entities@[k]
        &&& crate::systems::production::same_but_queue(b, w1.entities@[bi])
        &&& w1.entities@[bi].production_queue is Some
        &&& w1.entities@[bi].production_queue->0.max_size == b.production_queue->0.max_size
        &&& w1.entities@[bi].production_queue->0.items@ == b.production_queue->0.items@.remove(
            index,
        )
        &&& if has_player(w0.players@, player) {
            let pi = player_index(w0.players@, player);
            let p = w0.players@[pi];
            &&& w1.players@.len() == w0.players@.len()
            &&& forall|k: int|
                0 <= k < w0.players@.len() && k != pi ==> #[trigger] w1.players@[k]
                    == w0.players@[k]
            &&& w1.players@[pi] == (PlayerState { resources: p.resources.add_spec(refund), ..p })
        } else {
            w1.players@ == w0.players@
        }
    }
}

/// The world relation of one stamped command, by variant. Build and
/// research commands are acknowledged extension points that change
/// nothing.
pub open spec fn command_applied(w0: SimWorld, c: StampedCommand, w1: SimWorld) -> bool {
    match c.command {
        GameCommand::Move { entities, target_x, target_z } => move_cmd_applied(
            w0,
            entities@,
            c.player_id,
            target_x,
            target_z,
            w1,
        ),
        GameCommand::Gather { entities, node } => gather_cmd_applied(
            w0,
            entities@,
            c.player_id,
            node,
            w1,
        ),
        GameCommand::QueueUnit { building, unit_type } => queue_unit_cmd_applied(
            w0,
            building,
            c.player_id,
            unit_type,
            w1,
        ),
        GameCommand::CancelProduction { building, queue_index } => cancel_cmd_applied(
            w0,
            building,
            c.player_id,
            queue_index as int,
            w1,
        ),
        GameCommand::Stop { entities } => stop_cmd_applied(w0, entities@, c.player_id, w1),
        GameCommand::Build { .. } => w1 == w0,
        GameCommand::ResearchTech { .. } => w1 == w0,
    }
}

/// A whole list of stamped commands applied in list order.
pub open spec fn commands_applied(w0: SimWorld, cmds: Seq<StampedCommand>, w1: SimWorld) -> bool
    decreases cmds.len(),
{
    if cmds.len() == 0 {
        w1 == w0
    } else {
        exists|mid: SimWorld|
            #[trigger] command_applied(w0, cmds[0], mid) && commands_applied(
                mid,
                cmds.drop_first(),
                w1,
            )
    }
}

/// Applying one more command extends the applied list by one step.
proof fn lemma_commands_applied_snoc(
    w0: SimWorld,
    cmds: Seq<StampedCommand>,
    c: StampedCommand,
    w1: SimWorld,
    w2: SimWorld,
)
    requires
        commands_applied(w0, cmds, w1),
        command_applied(w1, c, w2),
    ensures
        commands_applied(w0, cmds.push(c), w2),
    decreases cmds.len(),
{
    if cmds.len() == 0 {
        assert(w1 == w0);
        assert(cmds.push(c)[0] == c);
        assert(cmds.push(c).drop_first() =~= Seq::<StampedCommand>::empty());
        assert(commands_applied(w2, cmds.push(c).drop_first(), w2));
    } else {
        let mid = choose|mid: SimWorld|
            #[trigger] command_applied(w0, cmds[0], mid) && commands_applied(
                mid,
                cmds.drop_first(),
                w1,
            );
        lemma_commands_applied_snoc(mid, cmds.drop_first(), c, w1, w2);
        assert(cmds.push(c)[0] == cmds[0]);
        assert(cmds.push(c).drop_first() =~= cmds.drop_first().push(c));
        assert(command_applied(w0, cmds.push(c)[0], mid) && commands_applied(
            mid,
            cmds.push(c).drop_first(),
            w2,
        ));
    }
}

/// Move the listed entities of `player` toward the target.
pub fn handle_move_command(
    world: &mut SimWorld,
    entities: &Vec<EntityId>,
    player_id: PlayerId,
    target_x: i64,
    target_z: i64,
)
    requires
        world_wf(*old(world)),
    ensures
        world_wf(*final(world)),
        move_cmd_applied(*old(world), entities@, player_id, target_x, target_z, *final(world)),
{
    let ghost orig = world.entities@;
    let tx = crate::systems::production::clamp_coord_exec(target_x as i128);
    let tz = crate::systems::production::clamp_coord_exec(target_z as i128);
    let mut t: usize = 0;
    while t < entities.len()
        invariant
            t <= entities@.len(),
            world_wf(*world),
            world.players@ == old(world).players@,
            world.entities@.len() == orig.len(),
            orig == old(world).entities@,
            tx == clamp_coord(target_x as int),
            tz == clamp_coord(target_z as int),
            forall|k: int|
                0 <= k < orig.len() ==> world.entities@[k] == move_applied(
                    #[trigger] orig[k],
                    entities@.subrange(0, t as int),
                    player_id,
                    target_x,
                    target_z,
                ),
        decreases entities@.len() - t,
    {
        let ghost prefix = entities@.subrange(0, t as int);
        let id = entities[t];
        proof {
            assert(entities@.subrange(0, t + 1) =~= prefix.push(id));
        }
        match world.find_entity(id) {
            Some(i) => {
                let owned = world.entities[i].owner.player_id.0 == player_id.0;
                if owned {
                    let stop = match &world.entities[i].move_target {
                        Some(mt) => mt.stop_on_arrival,
                        None => true,
                    };
                    let rec = &mut world.entities[i];
                    match &mut rec.gatherer {
                        Some(g) => {
                            g.target_node = None;
                            g.state = GathererState::Idle;
                        },
                        None => {},
                    }
                    rec.move_target = Some(MoveTarget { x: tx, z: tz, stop_on_arrival: stop });
                }
                proof {
                    assert forall|k: int| 0 <= k < orig.len() implies world.entities@[k]
                        == move_applied(
                        #[trigger] orig[k],
                        prefix.push(id),
                        player_id,
                        target_x,
                        target_z,
                    ) by {
                        lemma_listed_push(prefix, id, orig[k].id);
                        if k != i {
                            assert(world.entities@[k].id == orig[k].id);
                            assert(orig[k].id != id);
                        }
                    }
                }
            },
            None => {
                proof {
                    assert forall|k: int| 0 <= k < orig.len() implies world.entities@[k]
                        == move_applied(
                        #[trigger] orig[k],
                        prefix.push(id),
                        player_id,
                        target_x,
                        target_z,
                    ) by {
                        lemma_listed_push(prefix, id, orig[k].id);
                        assert(world.entities@[k].id == orig[k].id);
                    }
                }
            },
        }
        t = t + 1;
    }
    proof {
        assert(entities@.subrange(0, entities@.len() as int) =~= entities@);
    }
}

/// Aim the listed gatherers of `player` at a resource node.
pub fn handle_gather_command(
    world: &mut SimWorld,
    entities: &Vec<EntityId>,
    player_id: PlayerId,
    node_id: EntityId,
)
    requires
        world_wf(*old(world)),
    ensures
        world_wf(*final(world)),
        gather_cmd_applied(*old(world), entities@, player_id, node_id, *final(world)),
{
    let ghost orig = world.entities@;
    let resource_type = match world.find_entity(node_id) {
        Some(ni) => {
            match &world.entities[ni].resource_node {
                Some(node) => node.resource_type,
                None => {
                    return ;
                },
            }
        },
        None => {
            return ;
        },
    };
    proof {
        let ni0 = entity_index(orig, node_id);
        assert(orig[ni0].id == node_id);
    }
    let mut t: usize = 0;
    while t < entities.len()
        invariant
            t <= entities@.len(),
            world_wf(*world),
            world.players@ == old(world).players@,
            world.entities@.len() == orig.len(),
            orig == old(world).entities@,
            forall|k: int|
                0 <= k < orig.len() ==> world.entities@[k] == gather_applied(
                    #[trigger] orig[k],
                    entities@.subrange(0, t as int),
                    player_id,
                    node_id,
                    resource_type,
                ),
        decreases entities@.len() - t,
    {
        let ghost prefix = entities@.subrange(0, t as int);
        let id = entities[t];
        proof {
            assert(entities@.subrange(0, t + 1) =~= prefix.push(id));
        }
        match world.find_entity(id) {
            Some(i) => {
                let owned = world.entities[i].owner.player_id.0 == player_id.0;
                if owned {
                    let rec = &mut world.entities[i];
                    match &mut rec.gatherer {
                        Some(g) => {
                            g.target_node = Some(node_id);
                            g.carrying_type = resource_type;
                            g.state = GathererState::MovingToNode;
                        },
                        None => {},
                    }
                }
                proof {
                    assert forall|k: int| 0 <= k < orig.len() implies world.entities@[k]
                        == gather_applied(
                        #[trigger] orig[k],
                        prefix.push(id),
                        player_id,
                        node_id,
                        resource_type,
                    ) by {
                        lemma_listed_push(prefix, id, orig[k].id);
                        if k != i {
                            assert(world.entities@[k].id == orig[k].id);
                        }
                    }
                }
            },
            None => {
                proof {
                    assert forall|k: int| 0 <= k < orig.len() implies world.entities@[k]
                        == gather_applied(
                        #[trigger] orig[k],
                        prefix.push(id),
                        player_id,
                        node_id,
                        resource_type,
                    ) by {
                        lemma_listed_push(prefix, id, orig[k].id);
                        assert(world.entities@[k].id == orig[k].id);
                    }
                }
            },
        }
        t = t + 1;
    }
    proof {
        assert(entities@.subrange(0, entities@.len() as int) =~= entities@);
    }
}

/// Stop the listed entities of `player`: clear movement and gathering.
pub fn handle_stop_command(world: &mut SimWorld, entities: &Vec<EntityId>, player_id: PlayerId)
    requires
        world_wf(*old(world)),
    ensures
        world_wf(*final(world)),
        stop_cmd_applied(*old(world), entities@, player_id, *final(world)),
{
    let ghost orig = world.entities@;
    let mut t: usize = 0;
    while t < entities.len()
        invariant
            t <= entities@.len(),
            world_wf(*world),
            world.players@ == old(world).players@,
            world.entities@.len() == orig.len(),
            orig == old(world).entities@,
            forall|k: int|
                0 <= k < orig.len() ==> world.entities@[k] == stop_applied(
                    #[trigger] orig[k],
                    entities@.subrange(0, t as int),
                    player_id,
                ),
        decreases entities@.len() - t,
    {
        let ghost prefix = entities@.subrange(0, t as int);
        let id = entities[t];
        proof {
            assert(entities@.subrange(0, t + 1) =~= prefix.push(id));
        }
        match world.find_entity(id) {
            Some(i) => {
                let owned = world.entities[i].owner.player_id.0 == player_id.0;
                if owned {
                    let rec = &mut world.entities[i];
                    rec.move_target = None;
                    match &mut rec.gatherer {
                        Some(g) => {
                            g.target_node = None;
                            g.state = GathererState::Idle;
                        },
                        None => {},
                    }
                }
                proof {
                    assert forall|k: int| 0 <= k < orig.len() implies world.entities@[k]
                        == stop_applied(#[trigger] orig[k], prefix.push(id), player_id) by {
                        lemma_listed_push(prefix, id, orig[k].id);
                        if k != i {
                            assert(world.entities@[k].id == orig[k].id);
                        }
                    }
                }
            },
            None => {
                proof {
                    assert forall|k: int| 0 <= k < orig.len() implies world.entities@[k]
                        == stop_applied(#[trigger] orig[k], prefix.push(id), player_id) by {
                        lemma_listed_push(prefix, id, orig[k].id);
                        assert(world.entities@[k].id == orig[k].id);
                    }
                }
            },
        }
        t = t + 1;
    }
    proof {
        assert(entities@.subrange(0, entities@.len() as int) =~= entities@);
    }
}

/// Queue a unit at a building: the cost is debited atomically and the
/// item appended, or — on a missing or foreign building, a full queue,
/// or insufficient funds — nothing changes at all.
pub fn handle_queue_unit_command(
    world: &mut SimWorld,
    building_id: EntityId,
    player_id: PlayerId,
    unit_type: UnitType,
)
    requires
        world_wf(*old(world)),
    ensures
        world_wf(*final(world)),
        queue_unit_cmd_applied(*old(world), building_id, player_id, unit_type, *final(world)),
{
    let bi = match world.find_entity(building_id) {
        Some(i) => i,
        None => {
            return ;
        },
    };
    proof {
        assert(world.entities@[entity_index(world.entities@, building_id)].id == building_id);
    }
    let eligible = {
        let rec = &world.entities[bi];
        let is_building = match &rec.building {
            Some(_) => true,
            None => false,
        };
        let has_queue_room = match &rec.production_queue {
            Some(q) => q.items.len() < q.max_size,
            None => false,
        };
        is_building && has_queue_room && rec.owner.player_id.0 == player_id.0
    };
    let has_queue = match &world.entities[bi].production_queue {
        Some(_) => true,
        None => false,
    };
    if !(eligible && has_queue) {
        proof {
            let j = entity_index(world.entities@, building_id);
            assert(world.entities@[j].id == building_id);
            assert(world.entities@[bi as int].id == building_id);
            assert(j == bi as int) by {
                if j < bi as int {
                    assert(world.entities@[j].id != world.entities@[bi as int].id);
                } else if j > bi as int {
                    assert(world.entities@[bi as int].id != world.entities@[j].id);
                }
            }
            assert(!queue_unit_allowed(*world, building_id, player_id, unit_type));
        }
        return ;
    }

    let item = match unit_type {
        UnitType::Villager => ProductionItem::villager(),
        UnitType::Soldier => ProductionItem::soldier(),
    };

    let pi = match world.find_player(player_id) {
        Some(i) => i,
        None => {
            return ;
        },
    };
    proof {
        assert(world.players@[player_index(world.players@, player_id)].id == player_id);
    }
    let paid = {
        let p = &mut world.players[pi];
        p.spend(&item.cost)
    };
    if !paid {
        proof {
            assert(world.players@ =~= old(world).players@);
            let pj = player_index(world.players@, player_id);
            assert(world.players@[pj].id == player_id);
            assert(pj == pi as int) by {
                if pj < pi as int {
                    assert(world.players@[pj].id != world.players@[pi as int].id);
                } else if pj > pi as int {
                    assert(world.players@[pi as int].id != world.players@[pj].id);
                }
            }
            assert(!queue_unit_allowed(*world, building_id, player_id, unit_type));
        }
        return ;
    }

    let rec = &mut world.entities[bi];
    match &mut rec.production_queue {
        Some(q) => {
            q.items.push(item);
        },
        None => {},
    }
}

/// Cancel a production queue item: a valid index on an owned building
/// removes exactly that item and refunds its full cost to the player;
/// anything else is a silent no-op (a missing player forfeits the
/// refund but the item is still removed).
pub fn handle_cancel_production(
    world: &mut SimWorld,
    building_id: EntityId,
    player_id: PlayerId,
    queue_index: usize,
)
    requires
        world_wf(*old(world)),
    ensures
        world_wf(*final(world)),
        cancel_cmd_applied(
            *old(world),
            building_id,
            player_id,
            queue_index as int,
            *final(world),
        ),
{
    let bi = match world.find_entity(building_id) {
        Some(i) => i,
        None => {
            return ;
        },
    };
    proof {
        assert(world.entities@[entity_index(world.entities@, building_id)].id == building_id);
    }
    let eligible = {
        let rec = &world.entities[bi];
        let is_building = match &rec.building {
            Some(_) => true,
            None => false,
        };
        let valid_index = match &rec.production_queue {
            Some(q) => queue_index < q.items.len(),
            None => false,
        };
        is_building && valid_index && rec.owner.player_id.0 == player_id.0
    };
    if !eligible {
        return ;
    }

    let mut refund: ResourceBundle = ResourceBundle::zero();
    {
        let rec = &mut world.entities[bi];
        match &mut rec.production_queue {
            Some(q) => {
                let item = q.items.remove(queue_index);
                refund = item.cost;
            },
            None => {},
        }
    }
    match world.find_player(player_id) {
        Some(pi) => {
            proof {
                assert(world.players@[player_index(world.players@, player_id)].id == player_id);
            }
            let p = &mut world.players[pi];
            p.add_resources(&refund);
        },
        None => {},
    }
}

/// The world relation of one command pass for the commands due at
/// `tick` out of `pending`: some sorted arrangement of exactly those
/// commands, applied one by one.
pub open spec fn command_pass(
    w0: SimWorld,
    pending: Seq<StampedCommand>,
    tick: u64,
    w1: SimWorld,
) -> bool {
    exists|cmds: Seq<StampedCommand>|
        #[trigger] sorted_cmds(cmds) && cmds.to_multiset() == due_commands(
            pending,
            tick,
        ).to_multiset() && commands_applied(w0, cmds, w1)
}

/// Advance the scheduler by one tick, drain the commands due at the new
/// tick, and apply them in their deterministic order: the world after
/// this call is the old world with some sorted arrangement of exactly
/// the due commands applied one by one. Gameplay-level inconsistencies
/// never halt tick progression.
pub fn process_commands(
    scheduler: &mut TickScheduler,
    buffer: &mut CommandBuffer,
    world: &mut SimWorld,
)
    requires
        world_wf(*old(world)),
        old(buffer).wf(),
        old(scheduler).current_tick < u64::MAX,
    ensures
        world_wf(*final(world)),
        final(buffer).wf(),
        final(scheduler).current_tick == old(scheduler).current_tick + 1,
        final(scheduler).tick_rate == old(scheduler).tick_rate,
        final(buffer).next_sequence() == old(buffer).next_sequence(),
        final(buffer).pending() == late_kept_commands(
            old(buffer).pending(),
            (old(scheduler).current_tick + 1) as u64,
        ),
        command_pass(
            *old(world),
            old(buffer).pending(),
            (old(scheduler).current_tick + 1) as u64,
            *final(world),
        ),
        final(world).entities@.len() == old(world).entities@.len(),
        forall|k: int|
            0 <= k < old(world).entities@.len() ==> (#[trigger] final(world).entities@[k]).id
                == old(world).entities@[k].id,
{
    scheduler.advance();
    let current_tick = scheduler.tick();
    let commands = buffer.drain_for_tick(current_tick);
    proof {
        assert(commands@.subrange(0, 0) =~= Seq::<StampedCommand>::empty());
    }

    let mut c: usize = 0;
    while c < commands.len()
        invariant
            c <= commands@.len(),
            world_wf(*world),
            world.entities@.len() == old(world).entities@.len(),
            commands_applied(*old(world), commands@.subrange(0, c as int), *world),
            forall|k: int|
                0 <= k < old(world).entities@.len() ==> (#[trigger] world.entities@[k]).id
                    == old(world).entities@[k].id,
        decreases commands@.len() - c,
    {
        let ghost w_prev = *world;
        let ghost before = world.entities@;
        let stamped = &commands[c];
        match &stamped.command {
            GameCommand::Move { entities, target_x, target_z } => {
                handle_move_command(world, entities, stamped.player_id, *target_x, *target_z);
            },
            GameCommand::Gather { entities, node } => {
                handle_gather_command(world, entities, stamped.player_id, *node);
            },
            GameCommand::QueueUnit { building, unit_type } => {
                handle_queue_unit_command(world, *building, stamped.player_id, *unit_type);
            },
            GameCommand::CancelProduction { building, queue_index } => {
                handle_cancel_production(world, *building, stamped.player_id, *queue_index);
            },
            GameCommand::Stop { entities } => {
                handle_stop_command(world, entities, stamped.player_id);
            },
            GameCommand::Build { .. } => {
                // Building construction is an explicit extension point.
            },
            GameCommand::ResearchTech { .. } => {
                // Tech research is an explicit extension point.
            },
        }
        proof {
            assert(command_applied(w_prev, commands@[c as int], *world));
            lemma_commands_applied_snoc(
                *old(world),
                commands@.subrange(0, c as int),
                commands@[c as int],
                w_prev,
                *world,
            );
            assert(commands@.subrange(0, c + 1) =~= commands@.subrange(0, c as int).push(
                commands@[c as int],
            ));
            assert forall|k: int| 0 <= k < old(world).entities@.len() implies (
            #[trigger] world.entities@[k]).id == old(world).entities@[k].id by {
                assert(before[k].id == old(world).entities@[k].id);
            }
        }
        c = c + 1;
    }
    proof {
        assert(commands@.subrange(0, commands@.len() as int) =~= commands@);
        assert(sorted_cmds(commands@) && commands@.to_multiset() == due_commands(
            old(buffer).pending(),
            (old(scheduler).current_tick + 1) as u64,
        ).to_multiset() && commands_applied(*old(world), commands@, *world));
    }
}

} // verus!

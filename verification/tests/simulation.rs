//! End-to-end simulation tests: the gatherer cycle, production,
//! movement, command handling and snapshot digests.

use rts_sim::buffer::CommandBuffer;
use rts_sim::commands::{GameCommand, UnitType};
use rts_sim::components::{
    Building, Gatherer, GathererState, MoveTarget, Owner, ProductionItem, ProductionQueue,
    ResourceNode, Selected, SimPosition, Unit,
};
use rts_sim::data::PlayerModifiers;
use rts_sim::hash::{compute_world_hash, compute_world_hash_seahash, snapshots_equal};
use rts_sim::ids::{EntityId, PlayerId};
use rts_sim::resources::{ResourceBundle, ResourceType};
use rts_sim::systems::command_processor::{
    handle_cancel_production, handle_move_command, handle_queue_unit_command, process_commands,
};
use rts_sim::systems::gather::gather_system;
use rts_sim::systems::movement::movement_system;
use rts_sim::systems::pipeline::run_tick;
use rts_sim::systems::production::production_system;
use rts_sim::systems::snapshot_gen::generate_snapshot;
use rts_sim::tick::TickScheduler;
use rts_sim::world::{EntityIdGenerator, EntityRecord, SimWorld};

fn p1() -> PlayerId {
    PlayerId::new(1)
}

fn gatherer_world() -> SimWorld {
    let mut world = SimWorld::new();
    world.add_player(p1());

    // A food node one tile away from the gatherer, 300 remaining.
    let mut node = EntityRecord::new(
        EntityId::new(1),
        SimPosition::new(1000, 0),
        Owner::neutral(),
    );
    node.resource_node = Some(ResourceNode::food());
    world.register_entity(node);

    // A drop-off right under the gatherer.
    let mut depot = EntityRecord::new(EntityId::new(2), SimPosition::new(0, 0), Owner::new(p1()));
    depot.building = Some(Building::town_center());
    depot.drop_off = true;
    world.register_entity(depot);

    // A villager ordered to gather from the node.
    let mut villager =
        EntityRecord::new(EntityId::new(3), SimPosition::new(0, 0), Owner::new(p1()));
    villager.unit = Some(Unit::villager());
    let mut g = Gatherer::new();
    g.set_target(EntityId::new(1), ResourceType::Food);
    villager.gatherer = Some(g);
    world.register_entity(villager);

    world
}

/// A gatherer with capacity 10 and rate 1/tick, starting adjacent to a
/// node with 300 remaining, reaches Gathering within one tick, fills to
/// 10 within ten, turns back, and deposits exactly 10 food.
#[test]
fn test_gatherer_cycle() {
    let mut world = gatherer_world();
    let modifiers = PlayerModifiers::new();

    // Tick 1: within gather range, so the villager starts gathering.
    gather_system(&mut world, &modifiers);
    assert_eq!(world.entities[2].gatherer.unwrap().state, GathererState::Gathering);

    // Ten more ticks fill the 10-capacity pack; the tenth flips the
    // state to returning.
    for _ in 0..10 {
        gather_system(&mut world, &modifiers);
    }
    let g = world.entities[2].gatherer.unwrap();
    assert_eq!(g.carry_amount, 10);
    assert_eq!(g.state, GathererState::ReturningToDropOff);
    assert_eq!(world.entities[0].resource_node.unwrap().remaining, 290);

    // The drop-off is in range: transition to depositing, then deposit.
    gather_system(&mut world, &modifiers);
    assert_eq!(world.entities[2].gatherer.unwrap().state, GathererState::Depositing);
    gather_system(&mut world, &modifiers);

    let g = world.entities[2].gatherer.unwrap();
    assert_eq!(g.carry_amount, 0);
    assert_eq!(g.state, GathererState::MovingToNode);
    let player = world.get_player(p1()).unwrap();
    assert_eq!(player.resources.food, 210);
}

/// Queuing beyond the maximum size fails and changes nothing.
#[test]
fn test_production_queue_limit() {
    let mut queue = ProductionQueue::new(2);
    assert!(queue.queue(ProductionItem::villager()));
    assert!(queue.queue(ProductionItem::villager()));
    assert!(!queue.queue(ProductionItem::villager()));
    assert_eq!(queue.items.len(), 2);
}

/// Canceling a valid index refunds the exact original cost; an invalid
/// index is a no-op.
#[test]
fn test_cancel_refunds_cost() {
    let mut world = SimWorld::new();
    world.add_player(p1());
    let mut barracks =
        EntityRecord::new(EntityId::new(1), SimPosition::new(0, 0), Owner::new(p1()));
    barracks.building = Some(Building::barracks());
    let mut queue = ProductionQueue::new(5);
    queue.queue(ProductionItem::soldier());
    barracks.production_queue = Some(queue);
    world.register_entity(barracks);

    // An invalid index changes nothing.
    handle_cancel_production(&mut world, EntityId::new(1), p1(), 3);
    assert_eq!(world.entities[0].production_queue.as_ref().unwrap().items.len(), 1);
    assert_eq!(world.get_player(p1()).unwrap().resources.food, 200);

    // A valid cancel removes the item and refunds soldier cost
    // (60 food, 20 gold) in full.
    handle_cancel_production(&mut world, EntityId::new(1), p1(), 0);
    assert_eq!(world.entities[0].production_queue.as_ref().unwrap().items.len(), 0);
    let res = world.get_player(p1()).unwrap().resources;
    assert_eq!(res.food, 260);
    assert_eq!(res.gold, 20);
}

/// Completing the head item spawns exactly one unit of the correct
/// type and raises population by the unit's population cost.
#[test]
fn test_production_completion_spawns_unit() {
    let mut world = SimWorld::new();
    world.add_player(p1());
    let mut tc = EntityRecord::new(EntityId::new(1), SimPosition::new(0, 0), Owner::new(p1()));
    tc.building = Some(Building::town_center());
    let mut queue = ProductionQueue::new(5);
    let mut item = ProductionItem::villager();
    item.ticks_remaining = 1;
    queue.queue(item);
    tc.production_queue = Some(queue);
    world.register_entity(tc);

    let mut id_gen = EntityIdGenerator::new();
    id_gen.next_id = 10;

    production_system(&mut world, &mut id_gen);

    assert_eq!(world.entities.len(), 2);
    let spawned = &world.entities[1];
    assert_eq!(spawned.id, EntityId::new(11));
    assert_eq!(spawned.unit.unwrap().unit_type, UnitType::Villager);
    assert!(spawned.gatherer.is_some());
    assert_eq!(world.get_player(p1()).unwrap().population, 1);
    assert!(world.entities[0].production_queue.as_ref().unwrap().items.is_empty());
}

/// A queue-unit command debits atomically; on insufficient funds the
/// command is a silent no-op.
#[test]
fn test_queue_unit_atomic_debit() {
    let mut world = SimWorld::new();
    world.add_player(p1());
    let mut tc = EntityRecord::new(EntityId::new(1), SimPosition::new(0, 0), Owner::new(p1()));
    tc.building = Some(Building::town_center());
    tc.production_queue = Some(ProductionQueue::new(5));
    world.register_entity(tc);

    // Villager costs 50 food: four fit into the 200 starting food.
    for _ in 0..4 {
        handle_queue_unit_command(&mut world, EntityId::new(1), p1(), UnitType::Villager);
    }
    assert_eq!(world.get_player(p1()).unwrap().resources.food, 0);
    assert_eq!(world.entities[0].production_queue.as_ref().unwrap().items.len(), 4);

    // The fifth cannot be paid for: nothing changes.
    handle_queue_unit_command(&mut world, EntityId::new(1), p1(), UnitType::Villager);
    assert_eq!(world.get_player(p1()).unwrap().resources.food, 0);
    assert_eq!(world.entities[0].production_queue.as_ref().unwrap().items.len(), 4);

    // A foreign player's command is a silent no-op.
    handle_queue_unit_command(&mut world, EntityId::new(1), PlayerId::new(2), UnitType::Soldier);
    assert_eq!(world.entities[0].production_queue.as_ref().unwrap().items.len(), 4);
}

/// A unit steps its per-tick speed toward the target and stops there.
#[test]
fn test_movement_steps_toward_target() {
    let mut world = SimWorld::new();
    world.add_player(p1());
    let mut unit = EntityRecord::new(EntityId::new(1), SimPosition::new(0, 0), Owner::new(p1()));
    unit.unit = Some(Unit::villager());
    unit.move_target = Some(MoveTarget::new(1000, 0));
    world.register_entity(unit);

    // Villager speed is 2000 milli-tiles/s; at 20 Hz one tick covers 100.
    movement_system(&mut world, 20);
    assert_eq!(world.entities[0].pos.x, 100);

    for _ in 0..9 {
        movement_system(&mut world, 20);
    }
    assert_eq!(world.entities[0].pos.x, 1000);

    // Arrived: the next tick clears the target.
    movement_system(&mut world, 20);
    assert!(world.entities[0].move_target.is_none());
}

/// A move command clears gathering and is applied only to owned,
/// existing entities; the tick advances by exactly one.
#[test]
fn test_process_commands_move() {
    let mut world = gatherer_world();
    let mut scheduler = TickScheduler::new(20);
    let mut buffer = CommandBuffer::new();

    buffer.push_command(
        1,
        p1(),
        GameCommand::Move { entities: vec![EntityId::new(3), EntityId::new(99)], target_x: 5000, target_z: 0 },
    );
    process_commands(&mut scheduler, &mut buffer, &mut world);

    assert_eq!(scheduler.tick(), 1);
    assert!(buffer.is_empty());
    let villager = &world.entities[2];
    assert_eq!(villager.move_target.unwrap().x, 5000);
    let g = villager.gatherer.unwrap();
    assert!(g.target_node.is_none());
    assert_eq!(g.state, GathererState::Idle);
}

/// An unowned entity ignores a move command.
#[test]
fn test_move_command_respects_ownership() {
    let mut world = gatherer_world();
    handle_move_command(&mut world, &vec![EntityId::new(1)], p1(), 5000, 5000);
    // The node is neutral, not owned by player 1: untouched.
    assert!(world.entities[0].move_target.is_none());
}

/// The seahash digest is stable across structurally identical
/// snapshots and sensitive to observable changes.
#[test]
fn test_seahash_digest() {
    let world = gatherer_world();
    let a = generate_snapshot(5, &world);
    let b = generate_snapshot(5, &world);
    assert!(snapshots_equal(&a, &b));
    assert_eq!(compute_world_hash(&a), compute_world_hash(&b));
    assert_eq!(compute_world_hash_seahash(&a), compute_world_hash_seahash(&b));

    let mut c = generate_snapshot(5, &world);
    c.players[0].resources.food = 7;
    assert!(!snapshots_equal(&a, &c));
    assert_ne!(compute_world_hash_seahash(&a), compute_world_hash_seahash(&c));
}

/// Snapshots come out sorted by identifier, whatever the registration
/// order was.
#[test]
fn test_snapshot_sorted_by_id() {
    let mut world = SimWorld::new();
    world.add_player(PlayerId::new(2));
    world.add_player(PlayerId::new(1));
    for id in [5u64, 3, 4] {
        let mut rec =
            EntityRecord::new(EntityId::new(id), SimPosition::new(0, 0), Owner::new(p1()));
        rec.unit = Some(Unit::soldier());
        world.register_entity(rec);
    }
    let snap = generate_snapshot(1, &world);
    let ids: Vec<u64> = snap.entities.iter().map(|e| e.id.0).collect();
    assert_eq!(ids, vec![3, 4, 5]);
    let pids: Vec<u8> = snap.players.iter().map(|p| p.id.0).collect();
    assert_eq!(pids, vec![1, 2]);
}

/// One full tick of the pipeline produces the snapshot of the new tick.
#[test]
fn test_run_tick_pipeline() {
    let mut world = gatherer_world();
    let mut scheduler = TickScheduler::new(20);
    let mut buffer = CommandBuffer::new();
    let modifiers = PlayerModifiers::new();
    let mut id_gen = EntityIdGenerator::new();
    id_gen.next_id = 100;

    let snap = run_tick(&mut scheduler, &mut buffer, &mut world, &modifiers, &mut id_gen);
    assert_eq!(snap.tick, 1);
    assert_eq!(snap.entities.len(), 3);
    assert_eq!(snap.players.len(), 1);
}

/// Repeated addition saturates instead of overflowing.
#[test]
fn test_resource_add_saturates() {
    let mut r = ResourceBundle::new(u32::MAX - 5, 0, 0, 0);
    r.add(&ResourceBundle::new(100, 0, 0, 0));
    assert_eq!(r.food, u32::MAX);
    r.add(&ResourceBundle::new(100, 0, 0, 0));
    assert_eq!(r.food, u32::MAX);
}

/// Subtract succeeds exactly when the bundle can afford the cost, and
/// a failed subtract changes nothing.
#[test]
fn test_subtract_iff_can_afford() {
    let mut r = ResourceBundle::new(10, 10, 10, 10);
    let big = ResourceBundle::new(10, 10, 11, 0);
    assert!(!r.can_afford(&big));
    assert!(!r.subtract(&big));
    assert_eq!(r, ResourceBundle::new(10, 10, 10, 10));

    let ok = ResourceBundle::new(10, 0, 10, 0);
    assert!(r.can_afford(&ok));
    assert!(r.subtract(&ok));
    assert_eq!(r, ResourceBundle::new(0, 10, 0, 10));
}

/// Selection tracks which players have an entity selected, without
/// duplicates.
#[test]
fn test_selection_tracking() {
    let mut sel = Selected::new();
    sel.select(PlayerId::new(1));
    sel.select(PlayerId::new(2));
    sel.select(PlayerId::new(1));
    assert_eq!(sel.by_players.len(), 2);
    assert!(sel.is_selected_by(PlayerId::new(1)));
    sel.deselect(PlayerId::new(1));
    assert!(!sel.is_selected_by(PlayerId::new(1)));
    assert!(sel.is_selected_by(PlayerId::new(2)));
}

/// The persisted-format version gate accepts only versions this
/// implementation understands.
#[test]
fn test_save_version_gate() {
    assert!(rts_sim::save::save_version_supported(0));
    assert!(rts_sim::save::save_version_supported(rts_sim::save::SAVE_FORMAT_VERSION));
    assert!(!rts_sim::save::save_version_supported(rts_sim::save::SAVE_FORMAT_VERSION + 1));
}

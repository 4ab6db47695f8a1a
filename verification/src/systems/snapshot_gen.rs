//! Snapshot generation system.
//!
//! Once per tick, after all gameplay systems have run, every live
//! entity bearing an identity is captured into an immutable snapshot
//! record, categorized as unit, building or resource node — first
//! matching category wins. Both the entity list and the player list are
//! sorted by identifier before the snapshot is finalized: that is what
//! makes the digest deterministic regardless of storage order.

use vstd::prelude::*;
use vstd::seq_lib::group_to_multiset_ensures;
use vstd::seq_lib::{to_multiset_build, to_multiset_insert};

use crate::ids::{EntityId, PlayerId};
use crate::resources::ResourceBundle;
use crate::snapshot::{
    EntitySnapshot, EntityType, GathererState, PlayerSnapshot, ProductionQueueState, QueueItem,
    WorldSnapshot,
};
use crate::world::{world_wf, EntityRecord, PlayerState, SimWorld};

verus! {

/// Whether a record appears in snapshots: it is categorizable as a
/// unit, a building or a resource node.
pub open spec fn entity_visible(r: EntityRecord) -> bool {
    r.unit is Some || r.building is Some || r.resource_node is Some
}

/// The category of a visible record: first matching category wins.
pub open spec fn entity_type_of(r: EntityRecord) -> EntityType
    recommends
        entity_visible(r),
{
    if r.unit is Some {
        EntityType::Unit(r.unit->0.unit_type)
    } else if r.building is Some {
        EntityType::Building(r.building->0.building_type)
    } else {
        EntityType::ResourceNode(r.resource_node->0.resource_type)
    }
}

/// Everything a snapshot observes of one entity, as one mathematical
/// value.
pub struct EntityObs {
    pub id: EntityId,
    pub entity_type: EntityType,
    pub position: Seq<i64>,
    pub owner: Option<PlayerId>,
    pub health: Option<(u32, u32)>,
    pub selected_by: Seq<PlayerId>,
    pub gatherer_state: Option<GathererState>,
    pub queue_items: Option<Seq<QueueItem>>,
    pub resource_remaining: Option<u32>,
}

/// The observation a world record yields.
pub open spec fn obs_of_record(r: EntityRecord) -> EntityObs {
    EntityObs {
        id: r.id,
        entity_type: entity_type_of(r),
        position: seq![r.pos.x, r.pos.y, r.pos.z],
        owner: Some(r.owner.player_id),
        health: match r.health {
            Some(h) => Some((h.current, h.max)),
            None => None,
        },
        selected_by: r.selected.by_players@,
        gatherer_state: match r.gatherer {
            Some(g) => Some(
                GathererState {
                    target_node: g.target_node,
                    carrying: g.carrying_type,
                    carry_amount: g.carry_amount,
                    carry_capacity: g.carry_capacity,
                    is_returning: g.state
                        == crate::components::GathererState::ReturningToDropOff,
                },
            ),
            None => None,
        },
        queue_items: match r.production_queue {
            Some(q) => Some(
                q.items@.map_values(
                    |it: crate::components::ProductionItem| QueueItem {
                        unit_type: it.unit_type,
                        ticks_remaining: it.ticks_remaining,
                        total_ticks: it.total_ticks,
                    },
                ),
            ),
            None => None,
        },
        resource_remaining: match r.resource_node {
            Some(n) => Some(n.remaining),
            None => None,
        },
    }
}

/// The observation a snapshot entry carries.
pub open spec fn obs_of_entity(e: EntitySnapshot) -> EntityObs {
    EntityObs {
        id: e.id,
        entity_type: e.entity_type,
        position: e.position@,
        owner: e.owner,
        health: e.health,
        selected_by: e.selected_by@,
        gatherer_state: e.gatherer_state,
        queue_items: match e.production_queue {
            Some(q) => Some(q.items@),
            None => None,
        },
        resource_remaining: e.resource_remaining,
    }
}

/// Everything a snapshot observes of one player.
pub struct PlayerObs {
    pub id: PlayerId,
    pub resources: ResourceBundle,
    pub population: u32,
    pub population_cap: u32,
    pub current_age: Seq<char>,
    pub researched_techs: Seq<Seq<char>>,
}

/// The observation a player's state yields.
pub open spec fn obs_of_player(st: PlayerState) -> PlayerObs {
    PlayerObs {
        id: st.id,
        resources: st.resources,
        population: st.population,
        population_cap: st.population_cap,
        current_age: st.current_age.0@,
        researched_techs: crate::data::str_views(st.researched_techs@),
    }
}

/// The observation a player snapshot carries.
pub open spec fn obs_of_player_snapshot(p: PlayerSnapshot) -> PlayerObs {
    PlayerObs {
        id: p.id,
        resources: p.resources,
        population: p.population,
        population_cap: p.population_cap,
        current_age: p.current_age.0@,
        researched_techs: crate::data::str_views(p.researched_techs@),
    }
}

/// The observations of a list of snapshot entries.
pub open spec fn entity_obs_seq(s: Seq<EntitySnapshot>) -> Seq<EntityObs> {
    s.map_values(|e: EntitySnapshot| obs_of_entity(e))
}

/// The observations of a list of player snapshots.
pub open spec fn player_obs_seq(s: Seq<PlayerSnapshot>) -> Seq<PlayerObs> {
    s.map_values(|p: PlayerSnapshot| obs_of_player_snapshot(p))
}

/// The observations of a list of player states.
pub open spec fn player_state_obs_seq(s: Seq<PlayerState>) -> Seq<PlayerObs> {
    s.map_values(|st: PlayerState| obs_of_player(st))
}

/// The observations of the visible records of `s`, in storage order.
pub open spec fn visible_obs(s: Seq<EntityRecord>) -> Seq<EntityObs>
    decreases s.len(),
{
    if s.len() == 0 {
        Seq::<EntityObs>::empty()
    } else {
        let rest = visible_obs(s.drop_last());
        if entity_visible(s.last()) {
            rest.push(obs_of_record(s.last()))
        } else {
            rest
        }
    }
}

/// Entity snapshots in non-decreasing identifier order.
pub open spec fn entities_sorted_by_id(s: Seq<EntitySnapshot>) -> bool {
    forall|i: int, j: int|
        0 <= i < j < s.len() ==> (#[trigger] s[i]).id.0 <= (#[trigger] s[j]).id.0
}

/// Player snapshots in non-decreasing identifier order.
pub open spec fn players_sorted_by_id(s: Seq<PlayerSnapshot>) -> bool {
    forall|i: int, j: int|
        0 <= i < j < s.len() ==> (#[trigger] s[i]).id.0 <= (#[trigger] s[j]).id.0
}

/// Insert an entity snapshot into a sorted list, keeping it sorted.
fn insert_entity_sorted(out: &mut Vec<EntitySnapshot>, e: EntitySnapshot) -> (p: usize)
    requires
        entities_sorted_by_id(old(out)@),
    ensures
        p <= old(out)@.len(),
        final(out)@ == old(out)@.insert(p as int, e),
        entities_sorted_by_id(final(out)@),
{
    let ghost orig = out@;
    let mut p = out.len();
    while p > 0 && out[p - 1].id.0 > e.id.0
        invariant
            p <= out@.len(),
            out@ =~= orig,
            entities_sorted_by_id(orig),
            forall|k: int| p <= k < orig.len() ==> (#[trigger] orig[k]).id.0 > e.id.0,
        decreases p,
    {
        p = p - 1;
    }
    let ghost pos: int = p as int;
    out.insert(p, e);
    proof {
        orig.insert_ensures(pos, e);
        let s = orig.insert(pos, e);
        assert forall|a: int, b: int| 0 <= a < b < s.len() implies (#[trigger] s[a]).id.0 <= (
        #[trigger] s[b]).id.0 by {
            if a < pos && b == pos {
                assert(s[a] == orig[a]);
                assert(orig[pos - 1].id.0 <= e.id.0);
                if a < pos - 1 {
                    assert(orig[a].id.0 <= orig[pos - 1].id.0);
                }
            } else if a == pos && b > pos {
                assert(s[b] == orig[b - 1]);
            } else if a < pos && b > pos {
                assert(s[a] == orig[a] && s[b] == orig[b - 1]);
            } else if b < pos {
                assert(s[a] == orig[a] && s[b] == orig[b]);
            } else if a > pos {
                assert(s[a] == orig[a - 1] && s[b] == orig[b - 1]);
            }
        }
    }
    p
}

/// Insert a player snapshot into a sorted list, keeping it sorted.
fn insert_player_sorted(out: &mut Vec<PlayerSnapshot>, e: PlayerSnapshot) -> (p: usize)
    requires
        players_sorted_by_id(old(out)@),
    ensures
        p <= old(out)@.len(),
        final(out)@ == old(out)@.insert(p as int, e),
        players_sorted_by_id(final(out)@),
{
    let ghost orig = out@;
    let mut p = out.len();
    while p > 0 && out[p - 1].id.0 > e.id.0
        invariant
            p <= out@.len(),
            out@ =~= orig,
            players_sorted_by_id(orig),
            forall|k: int| p <= k < orig.len() ==> (#[trigger] orig[k]).id.0 > e.id.0,
        decreases p,
    {
        p = p - 1;
    }
    let ghost pos: int = p as int;
    out.insert(p, e);
    proof {
        orig.insert_ensures(pos, e);
        let s = orig.insert(pos, e);
        assert forall|a: int, b: int| 0 <= a < b < s.len() implies (#[trigger] s[a]).id.0 <= (
        #[trigger] s[b]).id.0 by {
            if a < pos && b == pos {
                assert(s[a] == orig[a]);
                assert(orig[pos - 1].id.0 <= e.id.0);
                if a < pos - 1 {
                    assert(orig[a].id.0 <= orig[pos - 1].id.0);
                }
            } else if a == pos && b > pos {
                assert(s[b] == orig[b - 1]);
            } else if a < pos && b > pos {
                assert(s[a] == orig[a] && s[b] == orig[b - 1]);
            } else if b < pos {
                assert(s[a] == orig[a] && s[b] == orig[b]);
            } else if a > pos {
                assert(s[a] == orig[a - 1] && s[b] == orig[b - 1]);
            }
        }
    }
    p
}

/// Capture one record as a snapshot entry.
fn capture_entity(r: &EntityRecord) -> (e: EntitySnapshot)
    requires
        entity_visible(*r),
    ensures
        obs_of_entity(e) == obs_of_record(*r),
        e.id == r.id,
{
    let entity_type = match &r.unit {
        Some(u) => EntityType::Unit(u.unit_type),
        None => {
            match &r.building {
                Some(b) => EntityType::Building(b.building_type),
                None => {
                    match &r.resource_node {
                        Some(n) => EntityType::ResourceNode(n.resource_type),
                        None => EntityType::Unit(crate::commands::UnitType::Villager),
                    }
                },
            }
        },
    };
    let gatherer_state = match &r.gatherer {
        Some(g) => Some(
            GathererState {
                target_node: g.target_node,
                carrying: g.carrying_type,
                carry_amount: g.carry_amount,
                carry_capacity: g.carry_capacity,
                is_returning: match g.state {
                    crate::components::GathererState::ReturningToDropOff => true,
                    _ => false,
                },
            },
        ),
        None => None,
    };
    let production_queue = match &r.production_queue {
        Some(q) => {
            let mut items: Vec<QueueItem> = Vec::new();
            let mut k: usize = 0;
            while k < q.items.len()
                invariant
                    k <= q.items@.len(),
                    items@ =~= q.items@.subrange(0, k as int).map_values(
                        |it: crate::components::ProductionItem| QueueItem {
                            unit_type: it.unit_type,
                            ticks_remaining: it.ticks_remaining,
                            total_ticks: it.total_ticks,
                        },
                    ),
                decreases q.items@.len() - k,
            {
                let it = &q.items[k];
                items.push(
                    QueueItem {
                        unit_type: it.unit_type,
                        ticks_remaining: it.ticks_remaining,
                        total_ticks: it.total_ticks,
                    },
                );
                proof {
                    assert(q.items@.subrange(0, k + 1).drop_last() =~= q.items@.subrange(
                        0,
                        k as int,
                    ));
                }
                k = k + 1;
            }
            proof {
                assert(q.items@.subrange(0, q.items@.len() as int) =~= q.items@);
            }
            Some(ProductionQueueState { items })
        },
        None => None,
    };
    let selected_by = {
        let mut sel: Vec<PlayerId> = Vec::new();
        let mut k: usize = 0;
        while k < r.selected.by_players.len()
            invariant
                k <= r.selected.by_players@.len(),
                sel@ =~= r.selected.by_players@.subrange(0, k as int),
            decreases r.selected.by_players@.len() - k,
        {
            sel.push(r.selected.by_players[k]);
            k = k + 1;
        }
        proof {
            assert(r.selected.by_players@.subrange(0, r.selected.by_players@.len() as int)
                =~= r.selected.by_players@);
        }
        sel
    };
    let e = EntitySnapshot {
        id: r.id,
        entity_type,
        position: [r.pos.x, r.pos.y, r.pos.z],
        owner: Some(r.owner.player_id),
        health: match &r.health {
            Some(h) => Some((h.current, h.max)),
            None => None,
        },
        selected_by,
        gatherer_state,
        production_queue,
        resource_remaining: match &r.resource_node {
            Some(n) => Some(n.remaining),
            None => None,
        },
    };
    proof {
        assert(e.position@ =~= seq![r.pos.x, r.pos.y, r.pos.z]);
    }
    e
}

/// Capture one player as a snapshot entry.
fn capture_player(st: &PlayerState) -> (p: PlayerSnapshot)
    ensures
        obs_of_player_snapshot(p) == obs_of_player(*st),
        p.id == st.id,
{
    let mut techs: Vec<String> = Vec::new();
    let mut k: usize = 0;
    while k < st.researched_techs.len()
        invariant
            k <= st.researched_techs@.len(),
            techs@.len() == k,
            forall|x: int| 0 <= x < k ==> (#[trigger] techs@[x])@ == st.researched_techs@[x]@,
        decreases st.researched_techs@.len() - k,
    {
        let t = st.researched_techs[k].clone();
        techs.push(t);
        k = k + 1;
    }
    proof {
        assert(crate::data::str_views(techs@) =~= crate::data::str_views(st.researched_techs@));
    }
    PlayerSnapshot {
        id: st.id,
        resources: st.resources,
        population: st.population,
        population_cap: st.population_cap,
        current_age: crate::ids::AgeId(st.current_age.0.clone()),
        researched_techs: techs,
    }
}

/// `r` is the snapshot of the world `w` at `tick`: both lists sorted
/// by identifier, the entity content exactly the observations of the
/// visible records, and the player content exactly the observations of
/// the players.
pub open spec fn snapshot_matches(r: WorldSnapshot, tick: u64, w: SimWorld) -> bool {
    &&& r.tick == tick
    &&& entities_sorted_by_id(r.entities@)
    &&& players_sorted_by_id(r.players@)
    &&& entity_obs_seq(r.entities@).to_multiset() == visible_obs(w.entities@).to_multiset()
    &&& player_obs_seq(r.players@).to_multiset() == player_state_obs_seq(
        w.players@,
    ).to_multiset()
}

/// Build the snapshot of the current tick: every visible entity and
/// every player, both sorted by identifier, the entity content exactly
/// the observations of the visible records and the player content
/// exactly the observations of the players.
pub fn generate_snapshot(tick: u64, world: &SimWorld) -> (r: WorldSnapshot)
    requires
        world_wf(*world),
    ensures
        snapshot_matches(r, tick, *world),
{
    broadcast use group_to_multiset_ensures;

    let mut entities: Vec<EntitySnapshot> = Vec::new();
    let n = world.entities.len();
    let mut i: usize = 0;
    proof {
        assert(visible_obs(world.entities@.subrange(0, 0)) =~= Seq::<EntityObs>::empty());
        assert(entity_obs_seq(entities@) =~= Seq::<EntityObs>::empty());
    }
    while i < n
        invariant
            i <= n,
            n == world.entities@.len(),
            entities_sorted_by_id(entities@),
            entity_obs_seq(entities@).to_multiset() == visible_obs(
                world.entities@.subrange(0, i as int),
            ).to_multiset(),
        decreases n - i,
    {
        proof {
            assert(world.entities@.subrange(0, i + 1).drop_last() =~= world.entities@.subrange(
                0,
                i as int,
            ));
            assert(world.entities@.subrange(0, i + 1).last() == world.entities@[i as int]);
        }
        let visible = world.entities[i].unit.is_some() || world.entities[i].building.is_some()
            || world.entities[i].resource_node.is_some();
        if visible {
            let ghost pre = entities@;
            let e = capture_entity(&world.entities[i]);
            let p = insert_entity_sorted(&mut entities, e);
            proof {
                assert(entity_obs_seq(entities@) =~= entity_obs_seq(pre).insert(
                    p as int,
                    obs_of_entity(e),
                ));
                to_multiset_insert(entity_obs_seq(pre), p as int, obs_of_entity(e));
                assert(entity_obs_seq(pre).insert(p as int, obs_of_entity(e)).to_multiset()
                    == entity_obs_seq(pre).to_multiset().insert(obs_of_entity(e)));
                let prev_vis = visible_obs(world.entities@.subrange(0, i as int));
                let new_vis = visible_obs(world.entities@.subrange(0, i + 1));
                assert(new_vis == prev_vis.push(obs_of_record(world.entities@[i as int])));
                to_multiset_build(prev_vis, obs_of_record(world.entities@[i as int]));
                assert(new_vis.to_multiset() == prev_vis.to_multiset().insert(
                    obs_of_record(world.entities@[i as int]),
                ));
            }
        }
        i = i + 1;
    }
    proof {
        assert(world.entities@.subrange(0, world.entities@.len() as int) =~= world.entities@);
    }

    let mut players: Vec<PlayerSnapshot> = Vec::new();
    let np = world.players.len();
    let mut j: usize = 0;
    proof {
        assert(player_state_obs_seq(world.players@.subrange(0, 0)) =~= Seq::<PlayerObs>::empty());
        assert(player_obs_seq(players@) =~= Seq::<PlayerObs>::empty());
    }
    while j < np
        invariant
            j <= np,
            np == world.players@.len(),
            players_sorted_by_id(players@),
            player_obs_seq(players@).to_multiset() == player_state_obs_seq(
                world.players@.subrange(0, j as int),
            ).to_multiset(),
        decreases np - j,
    {
        let ghost pre = players@;
        let p = capture_player(&world.players[j]);
        let pos = insert_player_sorted(&mut players, p);
        proof {
            assert(player_obs_seq(players@) =~= player_obs_seq(pre).insert(
                pos as int,
                obs_of_player_snapshot(p),
            ));
            to_multiset_insert(player_obs_seq(pre), pos as int, obs_of_player_snapshot(p));
            assert(player_obs_seq(pre).insert(
                pos as int,
                obs_of_player_snapshot(p),
            ).to_multiset() == player_obs_seq(pre).to_multiset().insert(
                obs_of_player_snapshot(p),
            ));
            assert(player_state_obs_seq(world.players@.subrange(0, j + 1))
                =~= player_state_obs_seq(world.players@.subrange(0, j as int)).push(
                obs_of_player(world.players@[j as int]),
            ));
            to_multiset_build(
                player_state_obs_seq(world.players@.subrange(0, j as int)),
                obs_of_player(world.players@[j as int]),
            );
            assert(player_state_obs_seq(world.players@.subrange(0, j as int)).push(
                obs_of_player(world.players@[j as int]),
            ).to_multiset() == player_state_obs_seq(
                world.players@.subrange(0, j as int),
            ).to_multiset().insert(obs_of_player(world.players@[j as int])));
        }
        j = j + 1;
    }
    proof {
        assert(world.players@.subrange(0, world.players@.len() as int) =~= world.players@);
    }

    WorldSnapshot { tick, entities, players }
}

} // verus!

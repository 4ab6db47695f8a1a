//! The per-tick pipeline.
//!
//! One tick runs the stages strictly in order — command application,
//! movement, gathering, production, combat, snapshot generation — on a
//! single logical thread; no stage begins before the previous stage's
//! effects are fully visible, and a tick either completes its whole
//! pipeline or does not happen. The snapshot of the new tick is the
//! pipeline's product.

use vstd::prelude::*;

use crate::buffer::CommandBuffer;
use crate::data::PlayerModifiers;
use crate::ids::PlayerId;
use crate::snapshot::WorldSnapshot;
use crate::systems::combat::{combat_pass, combat_system};
use crate::systems::command_processor::{command_pass, process_commands};
use crate::systems::gather::{
    apply_decision, apply_decisions, gather_pass, gather_system, GatherDecision,
};
use crate::systems::movement::{movement_pass, movement_system};
use crate::systems::production::{ids_below, production_pass, production_system};
use crate::systems::snapshot_gen::{generate_snapshot, snapshot_matches};
use crate::tick::TickScheduler;
use crate::world::{world_wf, EntityRecord, PlayerState, SimWorld, TechModifiers};

verus! {

/// Applying gather decisions never adds or removes entities and never
/// renames one.
proof fn lemma_apply_decisions_ids(
    es: Seq<EntityRecord>,
    ps: Seq<PlayerState>,
    ups: Seq<(usize, GatherDecision)>,
    pm: Seq<(PlayerId, TechModifiers)>,
)
    ensures
        apply_decisions(es, ps, ups, pm).0.len() == es.len(),
        forall|k: int|
            0 <= k < es.len() ==> (#[trigger] apply_decisions(es, ps, ups, pm).0[k]).id
                == es[k].id,
    decreases ups.len(),
{
    if ups.len() > 0 {
        let i = ups[0].0 as int;
        if 0 <= i < es.len() {
            let mods = crate::data::modifiers_of(pm, es[i].owner.player_id);
            let (es2, ps2) = apply_decision(es, ps, i, ups[0].1, mods);
            assert(es2.len() == es.len());
            assert forall|k: int| 0 <= k < es.len() implies (#[trigger] es2[k]).id == es[k].id
                by {}
            lemma_apply_decisions_ids(es2, ps2, ups.drop_first(), pm);
        } else {
            lemma_apply_decisions_ids(es, ps, ups.drop_first(), pm);
        }
    }
}

/// Run one full simulation tick and return its snapshot. The final
/// world is the old world taken through the five stage relations in
/// pipeline order — the due commands applied, then movement, the
/// gather pass, production, and combat — and the returned value is the
/// snapshot of that final world at the new tick.
pub fn run_tick(
    scheduler: &mut TickScheduler,
    buffer: &mut CommandBuffer,
    world: &mut SimWorld,
    modifiers: &PlayerModifiers,
    id_gen: &mut crate::world::EntityIdGenerator,
) -> (r: WorldSnapshot)
    requires
        world_wf(*old(world)),
        old(buffer).wf(),
        old(scheduler).current_tick < u64::MAX,
        old(scheduler).tick_rate >= 1,
        ids_below(old(world).entities@, old(id_gen).next_id as int),
        old(id_gen).next_id + old(world).entities@.len() < u64::MAX,
    ensures
        world_wf(*final(world)),
        final(buffer).wf(),
        final(scheduler).current_tick == old(scheduler).current_tick + 1,
        final(scheduler).tick_rate == old(scheduler).tick_rate,
        final(buffer).next_sequence() == old(buffer).next_sequence(),
        final(buffer).pending() == crate::buffer::late_kept_commands(
            old(buffer).pending(),
            (old(scheduler).current_tick + 1) as u64,
        ),
        ids_below(final(world).entities@, final(id_gen).next_id as int),
        exists|w1: SimWorld, w2: SimWorld, w3: SimWorld|
            #![trigger movement_pass(w1, old(scheduler).tick_rate, w2), gather_pass(
                w2,
                modifiers.entries@,
                w3,
            )]
            command_pass(
                *old(world),
                old(buffer).pending(),
                (old(scheduler).current_tick + 1) as u64,
                w1,
            ) && movement_pass(w1, old(scheduler).tick_rate, w2) && gather_pass(
                w2,
                modifiers.entries@,
                w3,
            ) && exists|w4: SimWorld|
                #[trigger] production_pass(
                    w3,
                    old(id_gen).next_id as int,
                    w4,
                    final(id_gen).next_id as int,
                ) && combat_pass(w4, *final(world)),
        snapshot_matches(r, (old(scheduler).current_tick + 1) as u64, *final(world)),
{
    process_commands(scheduler, buffer, world);
    let ghost g1 = *world;
    proof {
        assert(ids_below(world.entities@, id_gen.next_id as int));
    }

    let ghost mv_pre = world.entities@;
    movement_system(world, scheduler.tick_rate);
    proof {
        assert forall|k: int| 0 <= k < world.entities@.len() implies (
        #[trigger] world.entities@[k]).id.0 <= id_gen.next_id by {
            assert(world.entities@[k] == crate::systems::movement::move_stepped(
                mv_pre[k],
                scheduler.tick_rate,
            ));
            assert(mv_pre[k].id.0 <= id_gen.next_id);
        }
    }

    let ghost g2 = *world;
    let ghost pre_es = world.entities@;
    let ghost pre_ps = world.players@;
    gather_system(world, modifiers);
    proof {
        lemma_apply_decisions_ids(
            pre_es,
            pre_ps,
            crate::systems::gather::gather_decisions(pre_es, modifiers.entries@),
            modifiers.entries@,
        );
        assert forall|k: int| 0 <= k < world.entities@.len() implies (
        #[trigger] world.entities@[k]).id.0 <= id_gen.next_id by {
            assert(world.entities@[k].id == pre_es[k].id);
        }
        assert(ids_below(world.entities@, id_gen.next_id as int));
    }

    let ghost g3 = *world;
    production_system(world, id_gen);

    let ghost g4 = *world;
    let ghost cb_pre = world.entities@;
    combat_system(world);
    proof {
        assert forall|k: int| 0 <= k < world.entities@.len() implies (
        #[trigger] world.entities@[k]).id.0 <= id_gen.next_id by {
            assert(world.entities@[k] == crate::systems::combat::combat_ticked(cb_pre[k]));
            assert(cb_pre[k].id.0 <= id_gen.next_id);
        }
        assert(command_pass(
            *old(world),
            old(buffer).pending(),
            (old(scheduler).current_tick + 1) as u64,
            g1,
        ));
        assert(movement_pass(g1, old(scheduler).tick_rate, g2));
        assert(gather_pass(g2, modifiers.entries@, g3));
        assert(production_pass(g3, old(id_gen).next_id as int, g4, id_gen.next_id as int));
        assert(combat_pass(g4, *world));
    }
    generate_snapshot(scheduler.tick(), world)
}

} // verus!

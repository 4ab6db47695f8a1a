//! Combat system.
//!
//! Attack resolution is an acknowledged stub: the system only ticks
//! down attack cooldowns, one per entity per tick.

use vstd::prelude::*;

use crate::components::CombatStats;
use crate::world::{world_wf, EntityRecord, SimWorld};

verus! {

/// One entity after a combat tick: its cooldown moves one step toward
/// zero; everything else is untouched.
pub open spec fn combat_ticked(r: EntityRecord) -> EntityRecord {
    match r.combat {
        Some(c) => EntityRecord {
            combat: Some(
                CombatStats {
                    cooldown_remaining: if c.cooldown_remaining > 0 {
                        (c.cooldown_remaining - 1) as u32
                    } else {
                        0u32
                    },
                    ..c
                },
            ),
            ..r
        },
        None => r,
    }
}

/// The world relation of one combat pass: every record's cooldown
/// ticks per `combat_ticked`; players are untouched.
pub open spec fn combat_pass(w0: SimWorld, w1: SimWorld) -> bool {
    &&& w1.players@ == w0.players@
    &&& w1.entities@.len() == w0.entities@.len()
    &&& forall|k: int|
        0 <= k < w0.entities@.len() ==> w1.entities@[k] == combat_ticked(
            #[trigger] w0.entities@[k],
        )
}

/// Tick every entity's attack cooldown.
pub fn combat_system(world: &mut SimWorld)
    requires
        world_wf(*old(world)),
    ensures
        world_wf(*final(world)),
        combat_pass(*old(world), *final(world)),
{
    let n = world.entities.len();
    let mut i: usize = 0;
    while i < n
        invariant
            i <= n,
            n == world.entities@.len(),
            world.players@ == old(world).players@,
            world.entities@.len() == old(world).entities@.len(),
            forall|k: int|
                i <= k < world.entities@.len() ==> world.entities@[k] == old(
                    world,
                ).entities@[k],
            forall|k: int|
                0 <= k < i ==> world.entities@[k] == combat_ticked(
                    #[trigger] old(world).entities@[k],
                ),
            world_wf(*world),
        decreases n - i,
    {
        let rec = &mut world.entities[i];
        match &mut rec.combat {
            Some(c) => {
                c.tick_cooldown();
            },
            None => {},
        }
        i = i + 1;
    }
}

} // verus!

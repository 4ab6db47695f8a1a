//! Empire and leader selection.
//!
//! Empires and leaders are content definitions consumed by the
//! surrounding application; the simulation core only carries a player's
//! selection and the unit categories that bonuses speak of.

use vstd::prelude::*;

use crate::ids::{EmpireId, LeaderId};

verus! {

/// Categories of units for bonus calculations.
#[derive(Clone, Copy, PartialEq, Eq, Structural, Hash, Debug)]
pub enum UnitCategory {
    Infantry,
    Cavalry,
    Ranged,
    Siege,
    Naval,
    Villager,
}

/// Player's empire and leader selection for game setup.
#[derive(Clone, Debug)]
pub struct PlayerSetup {
    pub empire: EmpireId,
    pub leader: LeaderId,
}

impl PlayerSetup {
    pub fn new(empire: EmpireId, leader: LeaderId) -> (r: Self)
        ensures
            r.empire == empire,
            r.leader == leader,
    {
        PlayerSetup { empire, leader }
    }
}

} // verus!

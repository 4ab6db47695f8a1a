//! Resource types and bundles.
//!
//! Resources are the core economy counters: food, wood, gold, stone.
//! A bundle adds with saturation and subtracts all-or-nothing, so a
//! failed debit never leaves a partially applied (negative) result.

use vstd::prelude::*;

verus! {

/// The four resource types in the game.
#[derive(Clone, Copy, PartialEq, Eq, Structural, Hash, Debug)]
pub enum ResourceType {
    Food,
    Wood,
    Gold,
    Stone,
}

/// A bundle of resources (used for costs, storage, refunds).
#[derive(Clone, Copy, PartialEq, Eq, Structural, Debug)]
pub struct ResourceBundle {
    pub food: u32,
    pub wood: u32,
    pub gold: u32,
    pub stone: u32,
}

/// `a + b` clamped to `u32::MAX`.
pub open spec fn sat_add_u32(a: u32, b: u32) -> u32 {
    if a + b > u32::MAX {
        u32::MAX
    } else {
        (a + b) as u32
    }
}

impl ResourceBundle {
    /// The empty bundle.
    pub fn zero() -> (r: Self)
        ensures
            r == (ResourceBundle { food: 0, wood: 0, gold: 0, stone: 0 }),
    {
        ResourceBundle { food: 0, wood: 0, gold: 0, stone: 0 }
    }

    pub fn new(food: u32, wood: u32, gold: u32, stone: u32) -> (r: Self)
        ensures
            r == (ResourceBundle { food, wood, gold, stone }),
    {
        ResourceBundle { food, wood, gold, stone }
    }

    /// The amount held of `resource_type`.
    pub open spec fn get_spec(self, resource_type: ResourceType) -> u32 {
        match resource_type {
            ResourceType::Food => self.food,
            ResourceType::Wood => self.wood,
            ResourceType::Gold => self.gold,
            ResourceType::Stone => self.stone,
        }
    }

    /// Get the amount of a specific resource type.
    pub fn get(&self, resource_type: ResourceType) -> (r: u32)
        ensures
            r == self.get_spec(resource_type),
    {
        match resource_type {
            ResourceType::Food => self.food,
            ResourceType::Wood => self.wood,
            ResourceType::Gold => self.gold,
            ResourceType::Stone => self.stone,
        }
    }

    /// `self` with the counter for `resource_type` replaced by `amount`.
    pub open spec fn set_spec(self, resource_type: ResourceType, amount: u32) -> ResourceBundle {
        match resource_type {
            ResourceType::Food => ResourceBundle { food: amount, ..self },
            ResourceType::Wood => ResourceBundle { wood: amount, ..self },
            ResourceType::Gold => ResourceBundle { gold: amount, ..self },
            ResourceType::Stone => ResourceBundle { stone: amount, ..self },
        }
    }

    /// Set the amount of a specific resource type.
    pub fn set(&mut self, resource_type: ResourceType, amount: u32)
        ensures
            *final(self) == old(self).set_spec(resource_type, amount),
    {
        match resource_type {
            ResourceType::Food => self.food = amount,
            ResourceType::Wood => self.wood = amount,
            ResourceType::Gold => self.gold = amount,
            ResourceType::Stone => self.stone = amount,
        }
    }

    /// `self + other`, each counter saturating at `u32::MAX`.
    pub open spec fn add_spec(self, other: ResourceBundle) -> ResourceBundle {
        ResourceBundle {
            food: sat_add_u32(self.food, other.food),
            wood: sat_add_u32(self.wood, other.wood),
            gold: sat_add_u32(self.gold, other.gold),
            stone: sat_add_u32(self.stone, other.stone),
        }
    }

    /// Add resources from another bundle, saturating rather than overflowing.
    pub fn add(&mut self, other: &ResourceBundle)
        ensures
            *final(self) == old(self).add_spec(*other),
    {
        self.food = if self.food <= u32::MAX - other.food {
            self.food + other.food
        } else {
            u32::MAX
        };
        self.wood = if self.wood <= u32::MAX - other.wood {
            self.wood + other.wood
        } else {
            u32::MAX
        };
        self.gold = if self.gold <= u32::MAX - other.gold {
            self.gold + other.gold
        } else {
            u32::MAX
        };
        self.stone = if self.stone <= u32::MAX - other.stone {
            self.stone + other.stone
        } else {
            u32::MAX
        };
    }

    /// Whether `self` holds at least as much of every resource as `cost`.
    pub open spec fn can_afford_spec(self, cost: ResourceBundle) -> bool {
        self.food >= cost.food && self.wood >= cost.wood && self.gold >= cost.gold && self.stone
            >= cost.stone
    }

    /// `self - other`, defined only when `self.can_afford_spec(other)`.
    pub open spec fn sub_spec(self, other: ResourceBundle) -> ResourceBundle
        recommends
            self.can_afford_spec(other),
    {
        ResourceBundle {
            food: (self.food - other.food) as u32,
            wood: (self.wood - other.wood) as u32,
            gold: (self.gold - other.gold) as u32,
            stone: (self.stone - other.stone) as u32,
        }
    }

    /// Subtract resources, returning true if successful (had enough).
    /// The debit is all-or-nothing: on failure nothing is changed.
    pub fn subtract(&mut self, other: &ResourceBundle) -> (r: bool)
        ensures
            r == old(self).can_afford_spec(*other),
            r ==> *final(self) == old(self).sub_spec(*other),
            !r ==> *final(self) == *old(self),
    {
        if self.can_afford(other) {
            self.food = self.food - other.food;
            self.wood = self.wood - other.wood;
            self.gold = self.gold - other.gold;
            self.stone = self.stone - other.stone;
            true
        } else {
            false
        }
    }

    /// Check if we have at least as much as the other bundle.
    pub fn can_afford(&self, cost: &ResourceBundle) -> (r: bool)
        ensures
            r == self.can_afford_spec(*cost),
    {
        self.food >= cost.food && self.wood >= cost.wood && self.gold >= cost.gold && self.stone
            >= cost.stone
    }

    /// Get total resources.
    pub fn total(&self) -> (r: u32)
        requires
            self.food + self.wood + self.gold + self.stone <= u32::MAX,
        ensures
            r == self.food + self.wood + self.gold + self.stone,
    {
        self.food + self.wood + self.gold + self.stone
    }
}

/// A debit succeeds exactly when the bundle can afford the cost, and a
/// successful debit removes exactly the cost: adding it back restores the
/// original bundle. A failed debit changes nothing, so no partially
/// applied (negative) result can ever be observed.
pub proof fn lemma_subtract_can_afford_agree(have: ResourceBundle, cost: ResourceBundle)
    ensures
        have.can_afford_spec(cost) ==> have.sub_spec(cost).add_spec(cost) == have,
        !have.can_afford_spec(cost) ==> !(exists|rest: ResourceBundle|
            rest.add_spec(cost) == have),
{
    if have.can_afford_spec(cost) {
        assert(have.sub_spec(cost).add_spec(cost) == have);
    } else {
        assert forall|rest: ResourceBundle| rest.add_spec(cost) != have by {
            let sum = rest.add_spec(cost);
            assert(sum.food >= cost.food || sum.food == u32::MAX);
            assert(sum.wood >= cost.wood || sum.wood == u32::MAX);
            assert(sum.gold >= cost.gold || sum.gold == u32::MAX);
            assert(sum.stone >= cost.stone || sum.stone == u32::MAX);
        }
    }
}

/// Repeated addition saturates at `u32::MAX` instead of overflowing: each
/// counter of a sum is the mathematical sum clamped to `u32::MAX`.
pub proof fn lemma_add_saturates(a: ResourceBundle, b: ResourceBundle)
    ensures
        a.add_spec(b).food == if a.food + b.food > u32::MAX {
            u32::MAX as int
        } else {
            a.food + b.food
        },
        a.add_spec(b).food <= u32::MAX,
        a.add_spec(b).wood <= u32::MAX,
        a.add_spec(b).gold <= u32::MAX,
        a.add_spec(b).stone <= u32::MAX,
{
}

} // verus!

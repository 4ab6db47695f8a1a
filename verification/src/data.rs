//! Game data definitions and computed modifiers.
//!
//! Technology and unit definitions are plain data; the surrounding
//! application parses them from definition files and hands them in as
//! values. The tech tree answers which technologies a player may
//! research, and researched technologies fold into per-player modifier
//! sets that scale gathering and production.

use vstd::prelude::*;

use crate::ids::PlayerId;
use crate::resources::{ResourceBundle, ResourceType};
use crate::world::TechModifiers;

verus! {

/// Effect that a technology can apply.
#[derive(Clone, Debug)]
pub enum TechEffect {
    /// Bonus to gather rate for a resource type (percentage).
    GatherRateBonus { resource: ResourceType, percent: i32 },
    /// Bonus to carry capacity (flat amount).
    CarryCapacityBonus { amount: i32 },
    /// Bonus to build speed (percentage).
    BuildSpeedBonus { percent: i32 },
    /// Bonus to unit production speed (percentage).
    ProductionSpeedBonus { percent: i32 },
    /// Bonus to unit HP (percentage).
    UnitHpBonus { percent: i32 },
    /// Bonus to unit attack (flat amount).
    UnitAttackBonus { amount: i32 },
    /// Unlock a unit type.
    UnlockUnit { unit_id: String },
    /// Unlock a building type.
    UnlockBuilding { building_id: String },
}

/// Cost to research a technology.
#[derive(Clone, Copy, PartialEq, Eq, Structural, Debug)]
pub struct TechCost {
    pub food: u32,
    pub wood: u32,
    pub gold: u32,
    pub stone: u32,
}

impl TechCost {
    pub fn zero() -> (r: Self)
        ensures
            r == (TechCost { food: 0, wood: 0, gold: 0, stone: 0 }),
    {
        TechCost { food: 0, wood: 0, gold: 0, stone: 0 }
    }

    /// This cost as a resource bundle.
    pub fn bundle(&self) -> (r: ResourceBundle)
        ensures
            r == (ResourceBundle {
                food: self.food,
                wood: self.wood,
                gold: self.gold,
                stone: self.stone,
            }),
    {
        ResourceBundle { food: self.food, wood: self.wood, gold: self.gold, stone: self.stone }
    }
}

/// A single technology definition.
#[derive(Clone, Debug)]
pub struct TechDef {
    pub id: String,
    pub name: String,
    pub description: String,
    pub cost: TechCost,
    pub research_time_ticks: u32,
    pub effects: Vec<TechEffect>,
    /// Required techs to research this one.
    pub requires: Vec<String>,
    /// Required age to research.
    pub required_age: Option<String>,
}

/// An age in the tech tree.
#[derive(Clone, Debug)]
pub struct AgeDef {
    pub id: String,
    pub name: String,
    pub order: u32,
    /// Cost to advance to this age.
    pub cost: TechCost,
    /// Time in ticks to advance.
    pub advance_time_ticks: u32,
    /// Required age (previous age).
    pub requires: Option<String>,
}

/// Complete tech tree definition.
#[derive(Clone, Debug)]
pub struct TechTree {
    pub ages: Vec<AgeDef>,
    pub techs: Vec<TechDef>,
}

/// `i` is the first index in `techs` whose definition carries `id`.
pub open spec fn tech_first_at(techs: Seq<TechDef>, id: Seq<char>, i: int) -> bool {
    &&& 0 <= i < techs.len()
    &&& techs[i].id@ == id
    &&& forall|k: int| 0 <= k < i ==> (#[trigger] techs[k]).id@ != id
}

/// `i` is the first index in `ages` whose definition carries `id`.
pub open spec fn age_first_at(ages: Seq<AgeDef>, id: Seq<char>, i: int) -> bool {
    &&& 0 <= i < ages.len()
    &&& ages[i].id@ == id
    &&& forall|k: int| 0 <= k < i ==> (#[trigger] ages[k]).id@ != id
}

/// The order of the age named `id`, or 0 when the tree has no such age.
pub open spec fn age_order_spec(ages: Seq<AgeDef>, id: Seq<char>) -> int {
    if exists|i: int| age_first_at(ages, id, i) {
        ages[choose|i: int| age_first_at(ages, id, i)].order as int
    } else {
        0
    }
}

/// There is at most one first index for a given id.
proof fn lemma_tech_first_unique(techs: Seq<TechDef>, id: Seq<char>, i: int, j: int)
    requires
        tech_first_at(techs, id, i),
        tech_first_at(techs, id, j),
    ensures
        i == j,
{
    assert(techs[i].id@ == id);
    assert(techs[j].id@ == id);
}

/// Whether the string `s` occurs in `list`.
pub open spec fn str_listed(list: Seq<Seq<char>>, s: Seq<char>) -> bool {
    exists|k: int| 0 <= k < list.len() && list[k] == s
}

/// The views of a list of strings.
pub open spec fn str_views(v: Seq<String>) -> Seq<Seq<char>> {
    v.map_values(|s: String| s@)
}

/// Whether the technology at index `i` may be researched by a player in
/// age `current_age` with `researched` already researched: it is not yet
/// researched, its age requirement (if any) is met, and every
/// prerequisite technology is already researched.
pub open spec fn tech_researchable(
    tree: TechTree,
    i: int,
    current_age: Seq<char>,
    researched: Seq<Seq<char>>,
) -> bool
    recommends
        0 <= i < tree.techs@.len(),
{
    let tech = tree.techs@[i];
    &&& !str_listed(researched, tech.id@)
    &&& (match tech.required_age {
        Some(req) => age_order_spec(tree.ages@, current_age) >= age_order_spec(
            tree.ages@,
            req@,
        ),
        None => true,
    })
    &&& forall|k: int|
        0 <= k < tech.requires@.len() ==> str_listed(
            researched,
            (#[trigger] tech.requires@[k])@,
        )
}

/// Whether a player in age `current_age`, with `researched` researched,
/// can research the technology named `tech_id`: the tree holds such a
/// technology (first match decides) and it is researchable.
pub open spec fn can_research_spec(
    tree: TechTree,
    tech_id: Seq<char>,
    current_age: Seq<char>,
    researched: Seq<Seq<char>>,
) -> bool {
    if exists|i: int| tech_first_at(tree.techs@, tech_id, i) {
        tech_researchable(
            tree,
            choose|i: int| tech_first_at(tree.techs@, tech_id, i),
            current_age,
            researched,
        )
    } else {
        false
    }
}

/// Whether `s` occurs in the string vector `v`.
fn contains_string(v: &Vec<String>, s: &String) -> (r: bool)
    ensures
        r == str_listed(str_views(v@), s@),
{
    let mut i: usize = 0;
    while i < v.len()
        invariant
            i <= v@.len(),
            forall|k: int| 0 <= k < i ==> str_views(v@)[k] != s@,
        decreases v@.len() - i,
    {
        proof {
            assert(str_views(v@)[i as int] == v@[i as int]@);
        }
        if v[i].eq(s) {
            return true;
        }
        i = i + 1;
    }
    false
}

impl TechTree {
    /// Get a tech by id (the first definition with that id).
    pub fn get_tech(&self, id: &String) -> (r: Option<&TechDef>)
        ensures
            match r {
                Some(t) => exists|i: int|
                    tech_first_at(self.techs@, id@, i) && *t == self.techs@[i],
                None => forall|k: int|
                    0 <= k < self.techs@.len() ==> (#[trigger] self.techs@[k]).id@ != id@,
            },
    {
        let mut i: usize = 0;
        while i < self.techs.len()
            invariant
                i <= self.techs@.len(),
                forall|k: int| 0 <= k < i ==> (#[trigger] self.techs@[k]).id@ != id@,
            decreases self.techs@.len() - i,
        {
            if self.techs[i].id.eq(id) {
                proof {
                    assert(tech_first_at(self.techs@, id@, i as int));
                }
                return Some(&self.techs[i]);
            }
            i = i + 1;
        }
        None
    }

    /// Get an age by id (the first definition with that id).
    pub fn get_age(&self, id: &String) -> (r: Option<&AgeDef>)
        ensures
            match r {
                Some(a) => exists|i: int|
                    age_first_at(self.ages@, id@, i) && *a == self.ages@[i],
                None => forall|k: int|
                    0 <= k < self.ages@.len() ==> (#[trigger] self.ages@[k]).id@ != id@,
            },
    {
        let mut i: usize = 0;
        while i < self.ages.len()
            invariant
                i <= self.ages@.len(),
                forall|k: int| 0 <= k < i ==> (#[trigger] self.ages@[k]).id@ != id@,
            decreases self.ages@.len() - i,
        {
            if self.ages[i].id.eq(id) {
                proof {
                    assert(age_first_at(self.ages@, id@, i as int));
                }
                return Some(&self.ages[i]);
            }
            i = i + 1;
        }
        None
    }

    /// The order of the age named `id`, or 0 for an unknown age.
    fn age_order(&self, id: &String) -> (r: u32)
        ensures
            r == age_order_spec(self.ages@, id@),
    {
        match self.get_age(id) {
            Some(age) => {
                proof {
                    let i = choose|i: int| age_first_at(self.ages@, id@, i);
                    let j = choose|j: int| age_first_at(self.ages@, id@, j) && *age
                        == self.ages@[j];
                    assert(i == j);
                }
                age.order
            },
            None => 0,
        }
    }

    /// Check if a tech can be researched given the player's current age
    /// and already researched techs.
    #[verifier::loop_isolation(false)]
    pub fn can_research(
        &self,
        tech_id: &String,
        current_age: &String,
        researched: &Vec<String>,
    ) -> (r: bool)
        ensures
            r == can_research_spec(*self, tech_id@, current_age@, str_views(researched@)),
    {
        let tech = match self.get_tech(tech_id) {
            Some(t) => t,
            None => {
                return false;
            },
        };
        proof {
            let i = choose|i: int| tech_first_at(self.techs@, tech_id@, i) && *tech
                == self.techs@[i];
            let j = choose|j: int| tech_first_at(self.techs@, tech_id@, j);
            assert(i == j);
        }

        // Check if already researched
        if contains_string(researched, &tech.id) {
            return false;
        }

        // Check age requirement
        match &tech.required_age {
            Some(req_age) => {
                let current_order = self.age_order(current_age);
                let required_order = self.age_order(req_age);
                if current_order < required_order {
                    return false;
                }
            },
            None => {},
        }

        // Check tech requirements
        let mut k: usize = 0;
        while k < tech.requires.len()
            invariant
                k <= tech.requires@.len(),
                forall|m: int|
                    0 <= m < k ==> str_listed(
                        str_views(researched@),
                        (#[trigger] tech.requires@[m])@,
                    ),
            decreases tech.requires@.len() - k,
        {
            if !contains_string(researched, &tech.requires[k]) {
                proof {
                    let i = choose|i: int|
                        tech_first_at(self.techs@, tech_id@, i) && *tech == self.techs@[i];
                    let j = choose|j: int| tech_first_at(self.techs@, tech_id@, j);
                    lemma_tech_first_unique(self.techs@, tech_id@, i, j);
                    assert(self.techs@[j] == *tech);
                    assert(!str_listed(str_views(researched@), tech.requires@[k as int]@));
                    assert(!tech_researchable(*self, j, current_age@, str_views(researched@)));
                }
                return false;
            }
            k = k + 1;
        }

        true
    }
}

impl Default for TechTree {
    /// The built-in tech tree: two ages and three technologies.
    fn default() -> (r: Self)
        ensures
            r.ages@.len() == 2,
            r.techs@.len() == 3,
            r.ages@[0].id@ == "dark_age"@,
            r.ages@[0].order == 1,
            r.ages@[1].id@ == "feudal_age"@,
            r.ages@[1].order == 2,
            r.techs@[0].id@ == "loom"@,
            r.techs@[1].id@ == "wheelbarrow"@,
            r.techs@[2].id@ == "double_bit_axe"@,
    {
        let mut ages: Vec<AgeDef> = Vec::new();
        ages.push(
            AgeDef {
                id: "dark_age".to_owned(),
                name: "Dark Age".to_owned(),
                order: 1,
                cost: TechCost::zero(),
                advance_time_ticks: 0,
                requires: None,
            },
        );
        ages.push(
            AgeDef {
                id: "feudal_age".to_owned(),
                name: "Feudal Age".to_owned(),
                order: 2,
                cost: TechCost { food: 500, wood: 0, gold: 0, stone: 0 },
                advance_time_ticks: 260,
                requires: Some("dark_age".to_owned()),
            },
        );

        let mut loom_effects: Vec<TechEffect> = Vec::new();
        loom_effects.push(TechEffect::UnitHpBonus { percent: 15 });

        let mut wheelbarrow_effects: Vec<TechEffect> = Vec::new();
        wheelbarrow_effects.push(
            TechEffect::GatherRateBonus { resource: ResourceType::Food, percent: 10 },
        );
        wheelbarrow_effects.push(
            TechEffect::GatherRateBonus { resource: ResourceType::Wood, percent: 10 },
        );
        wheelbarrow_effects.push(
            TechEffect::GatherRateBonus { resource: ResourceType::Gold, percent: 10 },
        );
        wheelbarrow_effects.push(
            TechEffect::GatherRateBonus { resource: ResourceType::Stone, percent: 10 },
        );
        wheelbarrow_effects.push(TechEffect::CarryCapacityBonus { amount: 3 });

        let mut axe_effects: Vec<TechEffect> = Vec::new();
        axe_effects.push(
            TechEffect::GatherRateBonus { resource: ResourceType::Wood, percent: 20 },
        );

        let mut techs: Vec<TechDef> = Vec::new();
        techs.push(
            TechDef {
                id: "loom".to_owned(),
                name: "Loom".to_owned(),
                description: "Villagers +15 HP".to_owned(),
                cost: TechCost { food: 0, wood: 0, gold: 50, stone: 0 },
                research_time_ticks: 50,
                effects: loom_effects,
                requires: Vec::new(),
                required_age: None,
            },
        );
        techs.push(
            TechDef {
                id: "wheelbarrow".to_owned(),
                name: "Wheelbarrow".to_owned(),
                description: "+10% gather rate, +3 carry capacity".to_owned(),
                cost: TechCost { food: 175, wood: 50, gold: 0, stone: 0 },
                research_time_ticks: 150,
                effects: wheelbarrow_effects,
                requires: Vec::new(),
                required_age: Some("feudal_age".to_owned()),
            },
        );
        techs.push(
            TechDef {
                id: "double_bit_axe".to_owned(),
                name: "Double-Bit Axe".to_owned(),
                description: "+20% wood gathering".to_owned(),
                cost: TechCost { food: 100, wood: 50, gold: 0, stone: 0 },
                research_time_ticks: 50,
                effects: axe_effects,
                requires: Vec::new(),
                required_age: Some("feudal_age".to_owned()),
            },
        );

        TechTree { ages, techs }
    }
}

/// Cost to train a unit.
#[derive(Clone, Copy, PartialEq, Eq, Structural, Debug)]
pub struct UnitCost {
    pub food: u32,
    pub wood: u32,
    pub gold: u32,
    pub stone: u32,
}

impl UnitCost {
    /// This cost as a resource bundle.
    pub fn bundle(&self) -> (r: ResourceBundle)
        ensures
            r == (ResourceBundle {
                food: self.food,
                wood: self.wood,
                gold: self.gold,
                stone: self.stone,
            }),
    {
        ResourceBundle { food: self.food, wood: self.wood, gold: self.gold, stone: self.stone }
    }
}

/// Unit definition loaded from data files. Speed and range are
/// fixed-point (milli-tiles).
#[derive(Clone, Debug)]
pub struct UnitDef {
    pub id: String,
    pub name: String,
    pub unit_type: crate::commands::UnitType,
    pub cost: UnitCost,
    pub train_time_ticks: u32,
    pub hp: u32,
    pub speed: u32,
    pub attack: u32,
    pub attack_range: u32,
    pub armor: u32,
    pub population: u32,
}

/// Collection of unit definitions.
#[derive(Clone, Debug)]
pub struct UnitDefs {
    pub units: Vec<UnitDef>,
}

/// `i` is the first index in `units` whose definition carries `id`.
pub open spec fn unit_first_at(units: Seq<UnitDef>, id: Seq<char>, i: int) -> bool {
    &&& 0 <= i < units.len()
    &&& units[i].id@ == id
    &&& forall|k: int| 0 <= k < i ==> (#[trigger] units[k]).id@ != id
}

impl UnitDefs {
    /// Get a unit by id (the first definition with that id).
    pub fn get(&self, id: &String) -> (r: Option<&UnitDef>)
        ensures
            match r {
                Some(u) => exists|i: int|
                    unit_first_at(self.units@, id@, i) && *u == self.units@[i],
                None => forall|k: int|
                    0 <= k < self.units@.len() ==> (#[trigger] self.units@[k]).id@ != id@,
            },
    {
        let mut i: usize = 0;
        while i < self.units.len()
            invariant
                i <= self.units@.len(),
                forall|k: int| 0 <= k < i ==> (#[trigger] self.units@[k]).id@ != id@,
            decreases self.units@.len() - i,
        {
            if self.units[i].id.eq(id) {
                proof {
                    assert(unit_first_at(self.units@, id@, i as int));
                }
                return Some(&self.units[i]);
            }
            i = i + 1;
        }
        None
    }
}

impl Default for UnitDefs {
    /// The built-in unit roster: villager and soldier.
    fn default() -> (r: Self)
        ensures
            r.units@.len() == 2,
            r.units@[0].id@ == "villager"@,
            r.units@[1].id@ == "soldier"@,
    {
        let mut units: Vec<UnitDef> = Vec::new();
        units.push(
            UnitDef {
                id: "villager".to_owned(),
                name: "Villager".to_owned(),
                unit_type: crate::commands::UnitType::Villager,
                cost: UnitCost { food: 50, wood: 0, gold: 0, stone: 0 },
                train_time_ticks: 50,
                hp: 25,
                speed: 2000,
                attack: 3,
                attack_range: 500,
                armor: 0,
                population: 1,
            },
        );
        units.push(
            UnitDef {
                id: "soldier".to_owned(),
                name: "Soldier".to_owned(),
                unit_type: crate::commands::UnitType::Soldier,
                cost: UnitCost { food: 60, wood: 0, gold: 20, stone: 0 },
                train_time_ticks: 60,
                hp: 40,
                speed: 2500,
                attack: 8,
                attack_range: 1000,
                armor: 1,
                population: 1,
            },
        );
        UnitDefs { units }
    }
}

/// All game data the simulation consumes.
#[derive(Clone, Debug)]
pub struct GameData {
    pub tech_tree: TechTree,
    pub unit_defs: UnitDefs,
}

impl Default for GameData {
    fn default() -> (r: Self)
        ensures
            r.tech_tree.ages@.len() == 2,
            r.tech_tree.techs@.len() == 3,
            r.unit_defs.units@.len() == 2,
    {
        GameData { tech_tree: TechTree::default(), unit_defs: UnitDefs::default() }
    }
}

/// `a + b` clamped to the i32 range.
pub open spec fn sat_add_i32(a: i32, b: i32) -> i32 {
    if a + b > i32::MAX {
        i32::MAX
    } else if a + b < i32::MIN {
        i32::MIN
    } else {
        (a + b) as i32
    }
}

/// One effect folded into a modifier set. Bonuses accumulate with
/// saturation at the i32 bounds; unlock effects are tracked elsewhere
/// and leave the modifiers unchanged.
pub open spec fn apply_effect_spec(m: TechModifiers, e: TechEffect) -> TechModifiers {
    match e {
        TechEffect::GatherRateBonus { resource, percent } => {
            match resource {
                ResourceType::Food => TechModifiers {
                    gather_rate_bonus_food: sat_add_i32(m.gather_rate_bonus_food, percent),
                    ..m
                },
                ResourceType::Wood => TechModifiers {
                    gather_rate_bonus_wood: sat_add_i32(m.gather_rate_bonus_wood, percent),
                    ..m
                },
                ResourceType::Gold => TechModifiers {
                    gather_rate_bonus_gold: sat_add_i32(m.gather_rate_bonus_gold, percent),
                    ..m
                },
                ResourceType::Stone => TechModifiers {
                    gather_rate_bonus_stone: sat_add_i32(m.gather_rate_bonus_stone, percent),
                    ..m
                },
            }
        },
        TechEffect::CarryCapacityBonus { amount } => TechModifiers {
            carry_capacity_bonus: sat_add_i32(m.carry_capacity_bonus, amount),
            ..m
        },
        TechEffect::BuildSpeedBonus { percent } => TechModifiers {
            build_speed_bonus: sat_add_i32(m.build_speed_bonus, percent),
            ..m
        },
        TechEffect::ProductionSpeedBonus { percent } => TechModifiers {
            production_speed_bonus: sat_add_i32(m.production_speed_bonus, percent),
            ..m
        },
        TechEffect::UnitHpBonus { percent } => TechModifiers {
            unit_hp_bonus: sat_add_i32(m.unit_hp_bonus, percent),
            ..m
        },
        TechEffect::UnitAttackBonus { amount } => TechModifiers {
            unit_attack_bonus: sat_add_i32(m.unit_attack_bonus, amount),
            ..m
        },
        TechEffect::UnlockUnit { .. } => m,
        TechEffect::UnlockBuilding { .. } => m,
    }
}

/// A whole effect list folded into a modifier set, first to last.
pub open spec fn apply_effects_spec(m: TechModifiers, effects: Seq<TechEffect>) -> TechModifiers
    decreases effects.len(),
{
    if effects.len() == 0 {
        m
    } else {
        apply_effects_spec(apply_effect_spec(m, effects[0]), effects.drop_first())
    }
}

/// Saturating i32 addition.
fn sat_add_i32_exec(a: i32, b: i32) -> (r: i32)
    ensures
        r == sat_add_i32(a, b),
{
    if b >= 0 {
        if a <= i32::MAX - b {
            a + b
        } else {
            i32::MAX
        }
    } else {
        if a >= i32::MIN - b {
            a + b
        } else {
            i32::MIN
        }
    }
}

impl TechModifiers {
    /// Fold one tech effect into these modifiers.
    pub fn apply_effect(&mut self, effect: &TechEffect)
        ensures
            *final(self) == apply_effect_spec(*old(self), *effect),
    {
        match effect {
            TechEffect::GatherRateBonus { resource, percent } => {
                match resource {
                    ResourceType::Food => {
                        self.gather_rate_bonus_food = sat_add_i32_exec(
                            self.gather_rate_bonus_food,
                            *percent,
                        );
                    },
                    ResourceType::Wood => {
                        self.gather_rate_bonus_wood = sat_add_i32_exec(
                            self.gather_rate_bonus_wood,
                            *percent,
                        );
                    },
                    ResourceType::Gold => {
                        self.gather_rate_bonus_gold = sat_add_i32_exec(
                            self.gather_rate_bonus_gold,
                            *percent,
                        );
                    },
                    ResourceType::Stone => {
                        self.gather_rate_bonus_stone = sat_add_i32_exec(
                            self.gather_rate_bonus_stone,
                            *percent,
                        );
                    },
                }
            },
            TechEffect::CarryCapacityBonus { amount } => {
                self.carry_capacity_bonus = sat_add_i32_exec(self.carry_capacity_bonus, *amount);
            },
            TechEffect::BuildSpeedBonus { percent } => {
                self.build_speed_bonus = sat_add_i32_exec(self.build_speed_bonus, *percent);
            },
            TechEffect::ProductionSpeedBonus { percent } => {
                self.production_speed_bonus = sat_add_i32_exec(
                    self.production_speed_bonus,
                    *percent,
                );
            },
            TechEffect::UnitHpBonus { percent } => {
                self.unit_hp_bonus = sat_add_i32_exec(self.unit_hp_bonus, *percent);
            },
            TechEffect::UnitAttackBonus { amount } => {
                self.unit_attack_bonus = sat_add_i32_exec(self.unit_attack_bonus, *amount);
            },
            TechEffect::UnlockUnit { .. } => {},
            TechEffect::UnlockBuilding { .. } => {},
        }
    }

    /// The gather-rate bonus percentage for one resource type.
    pub open spec fn gather_bonus_spec(self, resource: ResourceType) -> i32 {
        match resource {
            ResourceType::Food => self.gather_rate_bonus_food,
            ResourceType::Wood => self.gather_rate_bonus_wood,
            ResourceType::Gold => self.gather_rate_bonus_gold,
            ResourceType::Stone => self.gather_rate_bonus_stone,
        }
    }

    /// Effective carry capacity: the base plus the flat bonus, never
    /// below 1.
    pub open spec fn effective_carry_capacity_spec(self, base: u32) -> u32 {
        let raw = base + self.carry_capacity_bonus;
        if raw < 1 {
            1u32
        } else if raw > u32::MAX {
            u32::MAX
        } else {
            raw as u32
        }
    }

    pub fn effective_carry_capacity(&self, base: u32) -> (r: u32)
        ensures
            r == self.effective_carry_capacity_spec(base),
    {
        let raw = base as i64 + self.carry_capacity_bonus as i64;
        if raw < 1 {
            1
        } else if raw > u32::MAX as i64 {
            u32::MAX
        } else {
            raw as u32
        }
    }

    /// A base harvest amount scaled by the gather-rate bonus for the
    /// resource, rounded up. A bonus at or below -100% yields nothing.
    pub open spec fn scaled_gather_amount_spec(self, base: u32, resource: ResourceType) -> u32
        recommends
            base <= 1000,
    {
        let pct = 100 + self.gather_bonus_spec(resource);
        if pct <= 0 {
            0u32
        } else {
            ((base * pct + 99) / 100) as u32
        }
    }

    pub fn scaled_gather_amount(&self, base: u32, resource: ResourceType) -> (r: u32)
        requires
            base <= 1000,
        ensures
            r == self.scaled_gather_amount_spec(base, resource),
    {
        let bonus = match resource {
            ResourceType::Food => self.gather_rate_bonus_food,
            ResourceType::Wood => self.gather_rate_bonus_wood,
            ResourceType::Gold => self.gather_rate_bonus_gold,
            ResourceType::Stone => self.gather_rate_bonus_stone,
        };
        let pct: i64 = 100i64 + bonus as i64;
        if pct <= 0 {
            0
        } else {
            proof {
                assert((base as i64) * pct + 99 <= 1000 * (100 + i32::MAX as i64) + 99)
                    by (nonlinear_arith)
                    requires
                        0 <= base <= 1000,
                        0 < pct <= 100 + i32::MAX as i64,
                ;
                assert((base as i64) * pct >= 0) by (nonlinear_arith)
                    requires
                        0 <= base,
                        0 < pct,
                ;
            }
            (((base as i64) * pct + 99) / 100) as u32
        }
    }
}

/// Per-player modifiers computed from researched techs, keyed by player
/// in registration order.
pub struct PlayerModifiers {
    pub entries: Vec<(PlayerId, TechModifiers)>,
}

/// The modifiers stored for `player_id`: the first entry with that
/// identifier, or the all-zero set when there is none.
pub open spec fn modifiers_of(entries: Seq<(PlayerId, TechModifiers)>, player_id: PlayerId)
    -> TechModifiers
    decreases entries.len(),
{
    if entries.len() == 0 {
        TechModifiers::zero()
    } else if entries[0].0 == player_id {
        entries[0].1
    } else {
        modifiers_of(entries.drop_first(), player_id)
    }
}

impl PlayerModifiers {
    pub fn new() -> (r: Self)
        ensures
            r.entries@ == Seq::<(PlayerId, TechModifiers)>::empty(),
    {
        PlayerModifiers { entries: Vec::new() }
    }

    /// The modifiers for a player; a player without an entry has no
    /// bonuses.
    pub fn get(&self, player_id: PlayerId) -> (r: TechModifiers)
        ensures
            r == modifiers_of(self.entries@, player_id),
    {
        let mut i: usize = 0;
        proof {
            assert(self.entries@.subrange(0, self.entries@.len() as int) =~= self.entries@);
        }
        while i < self.entries.len()
            invariant
                i <= self.entries@.len(),
                modifiers_of(self.entries@, player_id) == modifiers_of(
                    self.entries@.subrange(i as int, self.entries@.len() as int),
                    player_id,
                ),
            decreases self.entries@.len() - i,
        {
            let ghost rest = self.entries@.subrange(i as int, self.entries@.len() as int);
            if self.entries[i].0.0 == player_id.0 {
                proof {
                    assert(rest[0] == self.entries@[i as int]);
                }
                return self.entries[i].1;
            }
            proof {
                assert(rest.drop_first() =~= self.entries@.subrange(
                    i + 1,
                    self.entries@.len() as int,
                ));
                assert(rest[0] == self.entries@[i as int]);
            }
            i = i + 1;
        }
        TechModifiers {
            gather_rate_bonus_food: 0,
            gather_rate_bonus_wood: 0,
            gather_rate_bonus_gold: 0,
            gather_rate_bonus_stone: 0,
            carry_capacity_bonus: 0,
            build_speed_bonus: 0,
            production_speed_bonus: 0,
            unit_hp_bonus: 0,
            unit_attack_bonus: 0,
        }
    }
}

/// The modifier set a list of researched technologies grants: the
/// effects of each researched technology that the tree defines, folded
/// in list order into the all-zero set.
pub open spec fn mods_from_techs(tree: TechTree, researched: Seq<String>) -> TechModifiers
    decreases researched.len(),
{
    if researched.len() == 0 {
        TechModifiers::zero()
    } else {
        let m = mods_from_techs(tree, researched.drop_last());
        let id = researched.last()@;
        if exists|i: int| tech_first_at(tree.techs@, id, i) {
            apply_effects_spec(
                m,
                tree.techs@[choose|i: int| tech_first_at(tree.techs@, id, i)].effects@,
            )
        } else {
            m
        }
    }
}

/// Whether no two entries name the same player.
pub open spec fn distinct_mod_keys(entries: Seq<(PlayerId, TechModifiers)>) -> bool {
    forall|i: int, j: int|
        0 <= i < j < entries.len() ==> (#[trigger] entries[i]).0 != (#[trigger] entries[j]).0
}

/// Replacing the (sole) entry of a player rewrites that player's
/// modifiers and nobody else's.
proof fn lemma_modifiers_of_update(
    entries: Seq<(PlayerId, TechModifiers)>,
    i: int,
    v: (PlayerId, TechModifiers),
)
    requires
        0 <= i < entries.len(),
        forall|k: int| 0 <= k < i ==> (#[trigger] entries[k]).0 != entries[i].0,
        v.0 == entries[i].0,
    ensures
        modifiers_of(entries.update(i, v), v.0) == v.1,
        forall|q: PlayerId|
            q != v.0 ==> modifiers_of(entries.update(i, v), q) == modifiers_of(entries, q),
    decreases entries.len(),
{
    let upd = entries.update(i, v);
    if i == 0 {
        assert(upd[0] == v);
        assert(upd.drop_first() =~= entries.drop_first());
        assert forall|q: PlayerId| q != v.0 implies modifiers_of(upd, q) == modifiers_of(
            entries,
            q,
        ) by {
            assert(modifiers_of(upd, q) == modifiers_of(upd.drop_first(), q));
            assert(modifiers_of(entries, q) == if entries[0].0 == q {
                entries[0].1
            } else {
                modifiers_of(entries.drop_first(), q)
            });
            assert(entries[0].0 == v.0);
        }
    } else {
        assert(upd[0] == entries[0]);
        assert(entries[0].0 != v.0);
        assert(upd.drop_first() =~= entries.drop_first().update(i - 1, v));
        assert(entries.drop_first()[i - 1] == entries[i]);
        lemma_modifiers_of_update(entries.drop_first(), i - 1, v);
        assert forall|q: PlayerId| q != v.0 implies modifiers_of(upd, q) == modifiers_of(
            entries,
            q,
        ) by {
            if entries[0].0 == q {
                assert(modifiers_of(upd, q) == upd[0].1);
                assert(modifiers_of(entries, q) == entries[0].1);
            } else {
                assert(modifiers_of(upd, q) == modifiers_of(upd.drop_first(), q));
                assert(modifiers_of(entries, q) == modifiers_of(entries.drop_first(), q));
            }
        }
        assert(modifiers_of(upd, v.0) == modifiers_of(upd.drop_first(), v.0));
    }
}

/// Appending an entry for a player without one sets that player's
/// modifiers and nobody else's.
proof fn lemma_modifiers_of_push(
    entries: Seq<(PlayerId, TechModifiers)>,
    v: (PlayerId, TechModifiers),
)
    requires
        forall|k: int| 0 <= k < entries.len() ==> (#[trigger] entries[k]).0 != v.0,
    ensures
        modifiers_of(entries.push(v), v.0) == v.1,
        forall|q: PlayerId|
            q != v.0 ==> modifiers_of(entries.push(v), q) == modifiers_of(entries, q),
    decreases entries.len(),
{
    let p = entries.push(v);
    if entries.len() == 0 {
        assert(p[0] == v);
        assert(p.drop_first() =~= Seq::<(PlayerId, TechModifiers)>::empty());
        assert forall|q: PlayerId| q != v.0 implies modifiers_of(p, q) == modifiers_of(
            entries,
            q,
        ) by {
            assert(modifiers_of(p, q) == modifiers_of(p.drop_first(), q));
        }
    } else {
        assert(p[0] == entries[0]);
        assert(entries[0].0 != v.0);
        assert(p.drop_first() =~= entries.drop_first().push(v));
        lemma_modifiers_of_push(entries.drop_first(), v);
        assert forall|q: PlayerId| q != v.0 implies modifiers_of(p, q) == modifiers_of(
            entries,
            q,
        ) by {
            if entries[0].0 == q {
                assert(modifiers_of(p, q) == p[0].1);
                assert(modifiers_of(entries, q) == entries[0].1);
            } else {
                assert(modifiers_of(p, q) == modifiers_of(p.drop_first(), q));
                assert(modifiers_of(entries, q) == modifiers_of(entries.drop_first(), q));
            }
        }
        assert(modifiers_of(p, v.0) == modifiers_of(p.drop_first(), v.0));
    }
}

impl PlayerModifiers {
    /// The index of the entry for `player_id`, if any.
    fn find_entry(&self, player_id: PlayerId) -> (r: Option<usize>)
        ensures
            match r {
                Some(i) => i < self.entries@.len() && self.entries@[i as int].0 == player_id
                    && forall|k: int|
                    0 <= k < i ==> (#[trigger] self.entries@[k]).0 != player_id,
                None => forall|k: int|
                    0 <= k < self.entries@.len() ==> (#[trigger] self.entries@[k]).0
                        != player_id,
            },
    {
        let mut i: usize = 0;
        while i < self.entries.len()
            invariant
                i <= self.entries@.len(),
                forall|k: int| 0 <= k < i ==> (#[trigger] self.entries@[k]).0 != player_id,
            decreases self.entries@.len() - i,
        {
            if self.entries[i].0.0 == player_id.0 {
                return Some(i);
            }
            i = i + 1;
        }
        None
    }

    /// Recalculate the modifiers a player's researched technologies
    /// grant, and store them for that player.
    #[verifier::loop_isolation(false)]
    pub fn recalculate(
        &mut self,
        player_id: PlayerId,
        researched_techs: &Vec<String>,
        tech_tree: &TechTree,
    )
        requires
            distinct_mod_keys(old(self).entries@),
        ensures
            distinct_mod_keys(final(self).entries@),
            modifiers_of(final(self).entries@, player_id) == mods_from_techs(
                *tech_tree,
                researched_techs@,
            ),
            forall|q: PlayerId|
                q != player_id ==> modifiers_of(final(self).entries@, q) == modifiers_of(
                    old(self).entries@,
                    q,
                ),
    {
        let mut m = TechModifiers {
            gather_rate_bonus_food: 0,
            gather_rate_bonus_wood: 0,
            gather_rate_bonus_gold: 0,
            gather_rate_bonus_stone: 0,
            carry_capacity_bonus: 0,
            build_speed_bonus: 0,
            production_speed_bonus: 0,
            unit_hp_bonus: 0,
            unit_attack_bonus: 0,
        };
        let mut t: usize = 0;
        proof {
            assert(researched_techs@.subrange(0, 0) =~= Seq::<String>::empty());
        }
        while t < researched_techs.len()
            invariant
                t <= researched_techs@.len(),
                m == mods_from_techs(*tech_tree, researched_techs@.subrange(0, t as int)),
            decreases researched_techs@.len() - t,
        {
            let ghost prefix = researched_techs@.subrange(0, t as int);
            let ghost next_prefix = researched_techs@.subrange(0, t + 1);
            proof {
                assert(next_prefix.drop_last() =~= prefix);
                assert(next_prefix.last() == researched_techs@[t as int]);
            }
            match tech_tree.get_tech(&researched_techs[t]) {
                Some(tech) => {
                    proof {
                        let i = choose|i: int|
                            tech_first_at(tech_tree.techs@, researched_techs@[t as int]@, i)
                                && *tech == tech_tree.techs@[i];
                        let j = choose|j: int|
                            tech_first_at(tech_tree.techs@, researched_techs@[t as int]@, j);
                        lemma_tech_first_unique(
                            tech_tree.techs@,
                            researched_techs@[t as int]@,
                            i,
                            j,
                        );
                        assert(tech_tree.techs@[j] == *tech);
                    }
                    let ghost m0 = m;
                    let mut e: usize = 0;
                    proof {
                        assert(tech.effects@.subrange(0, tech.effects@.len() as int)
                            =~= tech.effects@);
                    }
                    while e < tech.effects.len()
                        invariant
                            e <= tech.effects@.len(),
                            apply_effects_spec(m0, tech.effects@) == apply_effects_spec(
                                m,
                                tech.effects@.subrange(e as int, tech.effects@.len() as int),
                            ),
                        decreases tech.effects@.len() - e,
                    {
                        let ghost rest = tech.effects@.subrange(
                            e as int,
                            tech.effects@.len() as int,
                        );
                        proof {
                            assert(rest[0] == tech.effects@[e as int]);
                            assert(rest.drop_first() =~= tech.effects@.subrange(
                                e + 1,
                                tech.effects@.len() as int,
                            ));
                        }
                        m.apply_effect(&tech.effects[e]);
                        e = e + 1;
                    }
                    proof {
                        assert(tech.effects@.subrange(
                            tech.effects@.len() as int,
                            tech.effects@.len() as int,
                        ) =~= Seq::<TechEffect>::empty());
                    }
                },
                None => {},
            }
            t = t + 1;
        }
        proof {
            assert(researched_techs@.subrange(0, researched_techs@.len() as int)
                =~= researched_techs@);
        }
        match self.find_entry(player_id) {
            Some(i) => {
                self.entries.set(i, (player_id, m));
                proof {
                    lemma_modifiers_of_update(old(self).entries@, i as int, (player_id, m));
                }
            },
            None => {
                self.entries.push((player_id, m));
                proof {
                    lemma_modifiers_of_push(old(self).entries@, (player_id, m));
                }
            },
        }
    }
}

impl Default for PlayerModifiers {
    fn default() -> (r: Self)
        ensures
            r.entries@ == Seq::<(PlayerId, TechModifiers)>::empty(),
    {
        PlayerModifiers::new()
    }
}

} // verus!

//! Tech tree tests.

use rts_sim::data::{PlayerModifiers, TechTree};
use rts_sim::ids::PlayerId;
use rts_sim::resources::ResourceType;

#[test]
fn test_tech_tree_default() {
    let tree = TechTree::default();
    assert_eq!(tree.ages.len(), 2);
    assert_eq!(tree.techs.len(), 3);
}

#[test]
fn test_can_research() {
    let tree = TechTree::default();

    // Loom available in dark age
    assert!(tree.can_research(&"loom".to_string(), &"dark_age".to_string(), &vec![]));

    // Wheelbarrow requires feudal age
    assert!(!tree.can_research(&"wheelbarrow".to_string(), &"dark_age".to_string(), &vec![]));
    assert!(tree.can_research(&"wheelbarrow".to_string(), &"feudal_age".to_string(), &vec![]));

    // Can't research already researched tech
    assert!(!tree.can_research(
        &"loom".to_string(),
        &"dark_age".to_string(),
        &vec!["loom".to_string()]
    ));
}

#[test]
fn test_recalculate_modifiers() {
    let tree = TechTree::default();
    let mut modifiers = PlayerModifiers::new();
    let player = PlayerId::new(1);

    // Wheelbarrow: +10% gather rate on every resource, +3 carry capacity
    modifiers.recalculate(player, &vec!["wheelbarrow".to_string()], &tree);
    let m = modifiers.get(player);
    assert_eq!(m.gather_rate_bonus_food, 10);
    assert_eq!(m.gather_rate_bonus_wood, 10);
    assert_eq!(m.carry_capacity_bonus, 3);
    assert_eq!(m.effective_carry_capacity(10), 13);
    // ceil(1 * 1.10) = 2 units per tick with the bonus
    assert_eq!(m.scaled_gather_amount(1, ResourceType::Food), 2);

    // Double-bit axe stacks +20% wood on top
    modifiers.recalculate(
        player,
        &vec!["wheelbarrow".to_string(), "double_bit_axe".to_string()],
        &tree,
    );
    let m = modifiers.get(player);
    assert_eq!(m.gather_rate_bonus_wood, 30);
    assert_eq!(m.gather_rate_bonus_food, 10);

    // An unknown player has no bonuses
    let other = modifiers.get(PlayerId::new(9));
    assert_eq!(other.carry_capacity_bonus, 0);
    assert_eq!(other.scaled_gather_amount(1, ResourceType::Gold), 1);
}

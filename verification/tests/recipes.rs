use astro_parrot::explorer::marco_explorer::bag::Bag;
use astro_parrot::explorer::marco_explorer::recipes::{
    basic_cost, build_request, complex_production, feasible_complex, ingredients, pick_goal, tier,
};
use astro_parrot::resource::{BasicKind, BasicSet, BasicTally, ComplexKind, ComplexSet, ComplexTally};

fn basics(kinds: &[BasicKind]) -> BasicSet {
    BasicSet::from_slice(kinds)
}

fn complexes(kinds: &[ComplexKind]) -> ComplexSet {
    ComplexSet::from_slice(kinds)
}

#[test]
fn recipes_tiers_are_ordered_by_dependency_depth() {
    assert!(tier(ComplexKind::Diamond) < tier(ComplexKind::Life));
    assert!(tier(ComplexKind::Life) < tier(ComplexKind::Robot));
    assert!(tier(ComplexKind::Robot) < tier(ComplexKind::AIPartner));
}

#[test]
fn recipes_basic_cost_expands_the_whole_tree() {
    let mut acc = BasicTally::new();
    basic_cost(ComplexKind::AIPartner, 1, &mut acc);
    // AIPartner = Robot(Silicon + Life(Water(H+O) + Carbon)) + Diamond(2 Carbon)
    assert_eq!(acc.get(BasicKind::Silicon), 1);
    assert_eq!(acc.get(BasicKind::Carbon), 3);
    assert_eq!(acc.get(BasicKind::Hydrogen), 1);
    assert_eq!(acc.get(BasicKind::Oxygen), 1);
}

#[test]
fn recipes_complex_production_includes_intermediates() {
    let mut acc = ComplexTally::new();
    complex_production(ComplexKind::AIPartner, 1, &mut acc);
    for ty in [
        ComplexKind::AIPartner,
        ComplexKind::Robot,
        ComplexKind::Diamond,
        ComplexKind::Life,
        ComplexKind::Water,
    ] {
        assert_eq!(acc.get(ty), 1, "missing {ty:?}");
    }
}

#[test]
fn recipes_build_request_consumes_two_carbon_for_a_diamond() {
    let mut bag: Bag<&str, &str> = Bag::new();
    bag.add_basic(BasicKind::Carbon, "c1");
    bag.add_basic(BasicKind::Carbon, "c2");
    assert!(build_request(&mut bag, ComplexKind::Diamond).is_some());
    assert_eq!(bag.count_basic(BasicKind::Carbon), 0);
}

#[test]
fn recipes_build_request_recovers_partial_ingredients() {
    let mut bag: Bag<&str, &str> = Bag::new();
    bag.add_basic(BasicKind::Carbon, "c1");
    assert!(build_request(&mut bag, ComplexKind::Diamond).is_none());
    assert_eq!(bag.count_basic(BasicKind::Carbon), 1, "the lone Carbon must be returned");
}

#[test]
fn feasible_excludes_targets_with_missing_basics() {
    // Only Carbon available: AIPartner needs Silicon, so it's out.
    let feasible = feasible_complex(
        &basics(&[BasicKind::Carbon]),
        &complexes(&[ComplexKind::Diamond, ComplexKind::AIPartner]),
    );
    assert!(feasible.contains(ComplexKind::Diamond));
    assert!(!feasible.contains(ComplexKind::AIPartner));
}

#[test]
fn feasible_unlocks_through_intermediates() {
    let b = basics(&[BasicKind::Carbon, BasicKind::Hydrogen, BasicKind::Oxygen, BasicKind::Silicon]);
    let c = complexes(&[
        ComplexKind::Water,
        ComplexKind::Diamond,
        ComplexKind::Life,
        ComplexKind::Robot,
        ComplexKind::Dolphin,
        ComplexKind::AIPartner,
    ]);
    assert_eq!(feasible_complex(&b, &c).len(), 6);
}

#[test]
fn feasible_blocks_intermediate_not_combinable_anywhere() {
    // Life needs Water, but no planet combines Water.
    let b = basics(&[BasicKind::Carbon, BasicKind::Hydrogen, BasicKind::Oxygen]);
    let c = complexes(&[ComplexKind::Life]);
    assert!(feasible_complex(&b, &c).is_empty());
}

#[test]
fn pick_goal_prefers_a_harem_when_possible() {
    let feasible = complexes(&[
        ComplexKind::AIPartner,
        ComplexKind::Dolphin,
        ComplexKind::Robot,
        ComplexKind::Diamond,
    ]);
    assert_eq!(pick_goal(&feasible), Some((ComplexKind::AIPartner, 10)));
}

#[test]
fn pick_goal_settles_for_the_best_available() {
    let feasible = complexes(&[ComplexKind::Dolphin, ComplexKind::Robot, ComplexKind::Diamond]);
    assert_eq!(pick_goal(&feasible), Some((ComplexKind::Dolphin, 10)));
    assert_eq!(pick_goal(&complexes(&[ComplexKind::Diamond])), Some((ComplexKind::Diamond, 25)));
}

#[test]
fn pick_goal_is_none_when_nothing_wanted_is_craftable() {
    assert_eq!(pick_goal(&ComplexSet::new()), None);
    assert_eq!(pick_goal(&complexes(&[ComplexKind::Water])), None);
}

#[test]
fn ingredients_follow_the_game_recipes() {
    let (b, c) = ingredients(ComplexKind::Life);
    assert_eq!(b, vec![BasicKind::Carbon]);
    assert_eq!(c, vec![ComplexKind::Water]);
    let (b, c) = ingredients(ComplexKind::AIPartner);
    assert!(b.is_empty());
    assert_eq!(c, vec![ComplexKind::Robot, ComplexKind::Diamond]);
}

#[test]
fn basic_cost_scales_with_the_count() {
    let mut acc = BasicTally::new();
    basic_cost(ComplexKind::Life, 3, &mut acc);
    assert_eq!(acc.get(BasicKind::Carbon), 3);
    assert_eq!(acc.get(BasicKind::Hydrogen), 3);
    assert_eq!(acc.get(BasicKind::Oxygen), 3);
    assert_eq!(acc.get(BasicKind::Silicon), 0);
}

#[test]
fn build_request_takes_water_and_carbon_for_life() {
    let mut bag: Bag<u32, u32> = Bag::new();
    bag.add_basic(BasicKind::Carbon, 5);
    bag.add_complex(ComplexKind::Water, 9);
    let req = build_request(&mut bag, ComplexKind::Life).expect("ingredients are there");
    assert_eq!(req.target, ComplexKind::Life);
    assert_eq!(bag.count_basic(BasicKind::Carbon), 0);
    assert_eq!(bag.count_complex(ComplexKind::Water), 0);
}

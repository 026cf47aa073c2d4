use astro_parrot::explorer::marco_explorer::bag::Item;
use astro_parrot::explorer::smart_explorer::{recipe, value, SmartExplorer, Step};
use astro_parrot::resource::{BasicKind, BasicSet, ComplexKind, ComplexSet, ResourceKind};

/// An explorer with known capabilities and an empty bag.
fn explorer_with(gens: &[BasicKind], combos: &[ComplexKind]) -> SmartExplorer<u32, u32> {
    let mut e = SmartExplorer::new(1, 1);
    e.set_caps(BasicSet::from_slice(gens), ComplexSet::from_slice(combos));
    e
}

#[test]
fn recipes_match_common_game_rules() {
    assert_eq!(
        recipe(ComplexKind::Diamond),
        [ResourceKind::Basic(BasicKind::Carbon), ResourceKind::Basic(BasicKind::Carbon)]
    );
    assert_eq!(
        recipe(ComplexKind::Water),
        [ResourceKind::Basic(BasicKind::Hydrogen), ResourceKind::Basic(BasicKind::Oxygen)]
    );
    assert_eq!(
        recipe(ComplexKind::AIPartner),
        [ResourceKind::Complex(ComplexKind::Robot), ResourceKind::Complex(ComplexKind::Diamond)]
    );
}

#[test]
fn value_orders_deeper_recipes_higher() {
    assert!(value(ComplexKind::AIPartner) > value(ComplexKind::Water));
    assert!(value(ComplexKind::Water) > value(ComplexKind::Diamond));
}

#[test]
fn generates_the_missing_basic_for_a_diamond() {
    let e = explorer_with(&[BasicKind::Carbon], &[ComplexKind::Diamond]);
    assert_eq!(e.plan(), Some(Step::Generate(BasicKind::Carbon)));
}

#[test]
fn descends_the_recipe_tree_toward_the_deepest_ingredient() {
    // Life = Water + Carbon; Water = Hydrogen + Oxygen. With an empty bag the
    // first concrete step is generating one of Water's gases.
    let e = explorer_with(
        &[BasicKind::Hydrogen, BasicKind::Oxygen, BasicKind::Carbon],
        &[ComplexKind::Water, ComplexKind::Life],
    );
    assert!(matches!(
        e.plan(),
        Some(Step::Generate(BasicKind::Hydrogen)) | Some(Step::Generate(BasicKind::Oxygen))
    ));
}

#[test]
fn prefers_the_most_valuable_reachable_goal() {
    // Both Diamond and Water are reachable; Water outranks Diamond, so the
    // explorer works on Water (a gas), never starting from Carbon.
    let e = explorer_with(
        &[BasicKind::Carbon, BasicKind::Hydrogen, BasicKind::Oxygen],
        &[ComplexKind::Diamond, ComplexKind::Water],
    );
    assert!(matches!(
        e.plan(),
        Some(Step::Generate(BasicKind::Hydrogen)) | Some(Step::Generate(BasicKind::Oxygen))
    ));
}

#[test]
fn still_progresses_when_top_goal_is_only_partly_reachable() {
    // AIPartner needs Robot (not combinable here) but its Diamond branch is,
    // so the planner keeps making progress by generating Carbon.
    let e = explorer_with(&[BasicKind::Carbon], &[ComplexKind::Diamond, ComplexKind::AIPartner]);
    assert_eq!(e.plan(), Some(Step::Generate(BasicKind::Carbon)));
}

#[test]
fn stockpiles_a_basic_when_nothing_is_combinable_here() {
    let e = explorer_with(&[BasicKind::Silicon], &[]);
    assert_eq!(e.plan(), Some(Step::Generate(BasicKind::Silicon)));
}

#[test]
fn does_nothing_useful_on_a_planet_it_cannot_use() {
    let e = explorer_with(&[], &[]);
    assert!(e.plan().is_none());
}

#[test]
fn combines_a_diamond_once_two_carbons_are_carried() {
    let mut e = explorer_with(&[BasicKind::Carbon], &[ComplexKind::Diamond]);
    e.store_basic(BasicKind::Carbon, 1);
    e.store_basic(BasicKind::Carbon, 2);
    assert_eq!(e.plan(), Some(Step::Combine(ComplexKind::Diamond)));
}

#[test]
fn build_request_takes_the_two_carbons() {
    let mut e = explorer_with(&[BasicKind::Carbon], &[ComplexKind::Diamond]);
    e.store_basic(BasicKind::Carbon, 1);
    e.store_basic(BasicKind::Carbon, 2);
    let req = e.build_request(ComplexKind::Diamond);
    assert!(req.is_some());
    assert_eq!(e.count(ResourceKind::Basic(BasicKind::Carbon)), 0);
    assert!(e.build_request(ComplexKind::Diamond).is_none());
}

#[test]
fn build_request_puts_each_ingredient_in_its_slot() {
    let mut e = explorer_with(&[BasicKind::Oxygen], &[ComplexKind::Water]);
    e.store_basic(BasicKind::Oxygen, 10);
    e.store_basic(BasicKind::Hydrogen, 20);
    e.store_basic(BasicKind::Oxygen, 11);
    let req = e.build_request(ComplexKind::Water).expect("Hydrogen and Oxygen are carried");
    assert!(matches!(req.first, Item::Basic(20)));
    assert!(matches!(req.second, Item::Basic(10)));
    assert_eq!(e.count(ResourceKind::Basic(BasicKind::Oxygen)), 1);
    assert_eq!(e.count(ResourceKind::Basic(BasicKind::Hydrogen)), 0);
}

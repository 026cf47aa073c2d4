use astro_parrot::explorer::smart_explorer::recipe;
use astro_parrot::explorer::thomas_explorer::smart_explorer::{Move, SmartExplorer, TARGET_DIAMONDS};
use astro_parrot::resource::{BasicKind, BasicSet, ComplexKind, ComplexSet, ResourceKind};

fn explorer_with(gens: &[BasicKind], combos: &[ComplexKind]) -> SmartExplorer<u32, u32> {
    let mut e = SmartExplorer::new(1, 1);
    e.set_caps(BasicSet::from_slice(gens), ComplexSet::from_slice(combos));
    e
}

#[test]
fn mines_carbon_on_a_planet_that_can_forge_diamonds() {
    let e = explorer_with(&[BasicKind::Carbon], &[ComplexKind::Diamond]);
    assert_eq!(e.decide(), Move::Mine);
}

#[test]
fn mines_carbon_even_where_it_cannot_forge() {
    let e = explorer_with(&[BasicKind::Carbon], &[]);
    assert_eq!(e.decide(), Move::Mine);
}

#[test]
fn ignores_every_resource_that_is_not_carbon() {
    let e = explorer_with(&[BasicKind::Hydrogen, BasicKind::Oxygen], &[ComplexKind::Water]);
    assert_eq!(e.decide(), Move::Wander);
}

#[test]
fn wanders_off_a_useless_planet() {
    let e = explorer_with(&[], &[]);
    assert_eq!(e.decide(), Move::Wander);
}

#[test]
fn diamond_recipe_is_two_carbons() {
    assert_eq!(
        recipe(ComplexKind::Diamond),
        [ResourceKind::Basic(BasicKind::Carbon), ResourceKind::Basic(BasicKind::Carbon)]
    );
}

#[test]
fn forges_with_two_carbons_where_diamonds_are_combined() {
    let mut e = explorer_with(&[BasicKind::Carbon], &[ComplexKind::Diamond]);
    e.store_basic(BasicKind::Carbon, 1);
    e.store_basic(BasicKind::Carbon, 2);
    assert_eq!(e.decide(), Move::Forge);
}

#[test]
fn roams_once_the_collection_is_complete() {
    let mut e = explorer_with(&[BasicKind::Carbon], &[ComplexKind::Diamond]);
    for i in 0..TARGET_DIAMONDS {
        e.store_complex(ComplexKind::Diamond, i as u32);
    }
    assert_eq!(e.decide(), Move::Wander);
}

#[test]
fn prefers_unvisited_neighbours_then_rotates() {
    let mut e = explorer_with(&[], &[]);
    e.arrive(2);
    // Planet 1 (start) and 2 are visited; 3 is new.
    assert_eq!(e.choose_destination(&vec![1, 2, 3]), 3);
    let first = e.choose_destination(&vec![1, 2]);
    let second = e.choose_destination(&vec![1, 2]);
    assert_ne!(first, second);
}

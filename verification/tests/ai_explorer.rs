use astro_parrot::explorer::ai_explorer::ai::{next_unvisited, pick_planet, planets_combining, planets_generating};
use astro_parrot::explorer::ai_explorer::knowledge::{ExplorerKnowledge, StrategyState};
use astro_parrot::explorer::ai_explorer::{Activity, AiExplorer, ExploreStep};
use astro_parrot::explorer::marco_explorer::bag::Item;
use astro_parrot::resource::{BasicKind, BasicSet, ComplexKind, ComplexSet, ResourceKind};

/// Knowledge of visited planets with the given links.
fn galaxy(links: &[(u32, &[u32])]) -> ExplorerKnowledge {
    let mut k = ExplorerKnowledge::new();
    for (id, neighbours) in links {
        k.set_neighbors(*id, neighbours.to_vec());
        k.mark_visited(*id);
    }
    k
}

#[test]
fn route_goes_through_known_planets_to_the_nearest_unexplored() {
    // 1 - 2 - 4 (4 unexplored), 1 - 3
    let k = galaxy(&[(1, &[2, 3]), (2, &[1, 4]), (3, &[1])]);
    assert_eq!(next_unvisited(&k, &vec![], 1), Some(2));
}

#[test]
fn a_neighbour_still_to_explore_is_the_hop_itself() {
    let k = galaxy(&[(1, &[2, 5])]);
    assert_eq!(next_unvisited(&k, &vec![], 1), Some(2));
    assert_eq!(next_unvisited(&k, &vec![2], 1), Some(5));
}

#[test]
fn the_shorter_route_wins() {
    // 1 - 2 - 3 - 9 and 1 - 4 - 8: planet 8 is nearer than 9.
    let k = galaxy(&[(1, &[2, 4]), (2, &[1, 3]), (3, &[2, 9]), (4, &[1, 8])]);
    assert_eq!(next_unvisited(&k, &vec![], 1), Some(4));
}

#[test]
fn unreachable_and_destroyed_planets_are_not_targets() {
    let mut k = galaxy(&[(1, &[2, 3])]);
    k.mark_dead(3);
    assert_eq!(next_unvisited(&k, &vec![2], 1), None);
}

#[test]
fn nothing_left_when_every_planet_is_explored() {
    let k = galaxy(&[(1, &[2]), (2, &[1])]);
    assert_eq!(next_unvisited(&k, &vec![], 1), None);
}

#[test]
fn prefers_staying_then_the_most_charged_planet() {
    let mut k = galaxy(&[(1, &[]), (2, &[]), (3, &[])]);
    k.set_charged_cells(2, 4);
    k.set_charged_cells(3, 4);
    assert_eq!(pick_planet(&k, 1, &vec![2, 1, 3]), 1);
    // equal charge: the last listed
    assert_eq!(pick_planet(&k, 1, &vec![2, 3]), 3);
    k.set_charged_cells(2, 5);
    assert_eq!(pick_planet(&k, 1, &vec![2, 3]), 2);
    assert_eq!(pick_planet(&k, 9, &vec![]), 9);
}

#[test]
fn only_alive_planets_generate_or_combine() {
    let mut k = galaxy(&[(1, &[]), (2, &[]), (3, &[])]);
    k.set_basics(1, BasicSet::from_slice(&[BasicKind::Carbon]));
    k.set_basics(2, BasicSet::from_slice(&[BasicKind::Carbon, BasicKind::Oxygen]));
    k.set_combinations(3, ComplexSet::from_slice(&[ComplexKind::Diamond]));
    k.mark_dead(1);
    assert_eq!(planets_generating(&k, BasicKind::Carbon), vec![2]);
    assert_eq!(planets_generating(&k, BasicKind::Silicon), Vec::<u32>::new());
    assert_eq!(planets_combining(&k, ComplexKind::Diamond), vec![3]);
}

/// Records a query of `planet`, as the actor does after asking.
fn query(e: &mut AiExplorer<u32, u32>, planet: u32, neighbours: &[u32], basics: &[BasicKind], combos: &[ComplexKind], cells: u32) {
    e.record_neighbors(planet, neighbours.to_vec());
    e.record_basics(planet, BasicSet::from_slice(basics));
    e.record_combinations(planet, ComplexSet::from_slice(combos));
    e.record_charged_cells(planet, cells);
    e.record_visited(planet);
}

#[test]
fn explores_collects_and_crafts_a_diamond() {
    let mut e: AiExplorer<u32, u32> = AiExplorer::new(7, 1);
    assert_eq!(e.next_activity(), Activity::Rest);
    e.start();
    assert_eq!(e.next_activity(), Activity::Explore);
    assert_eq!(e.explore_step(), ExploreStep::Query(1));
    query(&mut e, 1, &[2], &[BasicKind::Carbon], &[ComplexKind::Diamond], 1);
    assert_eq!(e.explore_step(), ExploreStep::Travel(2));
    e.arrived(2);
    assert_eq!(e.explore_step(), ExploreStep::Query(2));
    query(&mut e, 2, &[1], &[], &[], 0);
    assert_eq!(e.explore_step(), ExploreStep::Finished);
    assert_eq!(e.state(), StrategyState::Collecting);

    // Two Carbons for the Diamond, generated on planet 1.
    assert_eq!(e.next_activity(), Activity::Collect);
    assert_eq!(e.collect_plan(), Some((BasicKind::Carbon, 1)));
    e.arrived(1);
    e.collect_outcome(Some((BasicKind::Carbon, 100)));
    assert_eq!(e.collect_plan(), Some((BasicKind::Carbon, 1)));
    e.collect_outcome(Some((BasicKind::Carbon, 101)));
    assert_eq!(e.collect_plan(), None);
    assert_eq!(e.state(), StrategyState::Crafting);

    assert_eq!(e.craft_plan(), Some((ComplexKind::Diamond, 1)));
    let req = e.take_request(ComplexKind::Diamond).expect("two Carbons are carried");
    assert_eq!(req.target, ComplexKind::Diamond);
    e.craft_succeeded(ComplexKind::Diamond, ComplexKind::Diamond, 500);
    assert_eq!(e.craft_plan(), None);
    assert_eq!(e.state(), StrategyState::Done);
    assert_eq!(e.next_activity(), Activity::Rescan);
    assert_eq!(e.bag_content().get(ResourceKind::Complex(ComplexKind::Diamond)), Some(1));
    assert_eq!(e.bag_content().get(ResourceKind::Basic(BasicKind::Carbon)), None);
}

#[test]
fn the_goal_is_every_kind_the_galaxy_can_craft() {
    let mut e: AiExplorer<u32, u32> = AiExplorer::new(7, 1);
    e.start();
    query(&mut e, 1, &[], &[BasicKind::Hydrogen, BasicKind::Oxygen], &[ComplexKind::Water, ComplexKind::Life], 1);
    assert_eq!(e.explore_step(), ExploreStep::Finished);
    // Water is craftable; Life needs Carbon, which nobody generates.
    let needs = e.basic_needs();
    assert_eq!(needs.get(BasicKind::Hydrogen), 1);
    assert_eq!(needs.get(BasicKind::Oxygen), 1);
    assert_eq!(needs.get(BasicKind::Carbon), 0);
    let targets = e.complex_targets();
    assert_eq!(targets.get(ComplexKind::Water), 1);
    assert_eq!(targets.get(ComplexKind::Life), 0);
}

#[test]
fn a_failed_move_marks_the_planet_unreachable() {
    let mut e: AiExplorer<u32, u32> = AiExplorer::new(7, 1);
    e.start();
    query(&mut e, 1, &[2], &[], &[], 0);
    assert_eq!(e.explore_step(), ExploreStep::Travel(2));
    e.mark_unreachable(2);
    assert_eq!(e.explore_step(), ExploreStep::Finished);
}

#[test]
fn a_kind_nobody_generates_is_given_up() {
    let mut e: AiExplorer<u32, u32> = AiExplorer::new(7, 1);
    e.start();
    // Diamond is combinable and Carbon generated, so the goal is a Diamond ...
    query(&mut e, 1, &[2], &[BasicKind::Carbon], &[ComplexKind::Diamond], 1);
    e.arrived(2);
    query(&mut e, 2, &[1], &[], &[], 0);
    assert_eq!(e.explore_step(), ExploreStep::Finished);
    // ... but the Carbon planet is destroyed before collecting.
    e.record_dead(1);
    assert_eq!(e.collect_plan(), None);
    assert_eq!(e.state(), StrategyState::Crafting);
}

#[test]
fn a_dry_planet_counts_towards_giving_up() {
    let mut e: AiExplorer<u32, u32> = AiExplorer::new(7, 1);
    e.start();
    query(&mut e, 1, &[], &[BasicKind::Carbon], &[ComplexKind::Diamond], 0);
    assert_eq!(e.explore_step(), ExploreStep::Finished);
    for _ in 0..39 {
        assert_eq!(e.collect_plan(), Some((BasicKind::Carbon, 1)));
        e.collect_outcome(None);
        assert_eq!(e.state(), StrategyState::Collecting);
    }
    assert_eq!(e.collect_plan(), Some((BasicKind::Carbon, 1)));
    e.collect_outcome(None);
    assert_eq!(e.state(), StrategyState::Crafting);
}

#[test]
fn reset_forgets_everything_but_the_current_planet() {
    let mut e: AiExplorer<u32, u32> = AiExplorer::new(7, 1);
    e.start();
    query(&mut e, 1, &[2], &[BasicKind::Carbon], &[], 2);
    e.store_basic(BasicKind::Carbon, 3);
    e.reset();
    assert_eq!(e.state(), StrategyState::Exploring);
    assert!(!e.knowledge().is_visited(1));
    assert!(e.bag_content().entries().is_empty());
    assert!(e.is_running());
}

#[test]
fn a_refused_combination_gives_the_ingredients_back() {
    let mut e: AiExplorer<u32, u32> = AiExplorer::new(7, 1);
    e.store_basic(BasicKind::Carbon, 1);
    e.store_basic(BasicKind::Carbon, 2);
    let req = e.take_request(ComplexKind::Diamond).expect("two Carbons are carried");
    assert_eq!(e.bag_content().get(ResourceKind::Basic(BasicKind::Carbon)), None);
    e.recover(ResourceKind::Basic(BasicKind::Carbon), req.first);
    e.recover(ResourceKind::Basic(BasicKind::Carbon), req.second);
    assert_eq!(e.bag_content().get(ResourceKind::Basic(BasicKind::Carbon)), Some(2));
    e.recover(ResourceKind::Basic(BasicKind::Oxygen), Item::Complex(9));
    assert_eq!(e.bag_content().get(ResourceKind::Basic(BasicKind::Oxygen)), None);
}

#[test]
fn a_move_keeps_the_bag_and_learns_the_new_planet() {
    let mut e: AiExplorer<u32, u32> = AiExplorer::new(7, 1);
    e.start();
    query(&mut e, 1, &[2], &[BasicKind::Carbon], &[], 2);
    e.store_basic(BasicKind::Carbon, 3);
    e.arrived(2);
    assert_eq!(e.current_planet(), 2);
    assert_eq!(e.bag_content().get(ResourceKind::Basic(BasicKind::Carbon)), Some(1));
    assert!(e.knowledge().is_visited(1));
    assert!(!e.knowledge().is_visited(2));
}

use astro_parrot::game::orchestrator::mailbox::Mailbox;
use astro_parrot::explorer::BagContent;
use astro_parrot::game::orchestrator::events::{EventBuffer, GuiEvent};
use astro_parrot::game::orchestrator::explorer_factory::{explorer_order, ExplorerKind};
use astro_parrot::game::orchestrator::factory::{planet_order, PlanetKind};
use astro_parrot::game::orchestrator::galaxy::Galaxy;
use astro_parrot::game::orchestrator::state::{Orchestrator, OrchestratorError, MAX_PLANETS};
use astro_parrot::resource::{BasicKind, ComplexKind, ResourceKind};

#[test]
fn new_planets_are_connected_to_every_other() {
    let mut g = Galaxy::new();
    g.add_planet(1);
    g.add_planet(2);
    g.add_planet(3);
    assert_eq!(g.planets(), vec![1, 2, 3]);
    for a in [1, 2, 3] {
        for b in [1, 2, 3] {
            assert_eq!(g.are_connected(a, b), a != b);
        }
    }
}

#[test]
fn removing_a_planet_drops_its_links() {
    let mut g = Galaxy::new();
    g.add_planet(1);
    g.add_planet(2);
    g.add_planet(3);
    g.remove_planet(2);
    assert_eq!(g.planets(), vec![1, 3]);
    assert!(!g.are_connected(1, 2));
    assert!(!g.are_connected(2, 3));
    assert!(g.are_connected(1, 3));
    assert!(g.are_connected(3, 1));
}

#[test]
fn events_drain_in_order_and_empty_the_buffer() {
    let mut events = EventBuffer::new();
    events.push(GuiEvent::SunrayReceived { planet: 1 });
    events.push(GuiEvent::PlanetDestroyed { planet: 2 });
    assert_eq!(
        events.drain(),
        vec![GuiEvent::SunrayReceived { planet: 1 }, GuiEvent::PlanetDestroyed { planet: 2 }]
    );
    assert!(events.drain().is_empty());
}

#[test]
fn kinds_have_their_names() {
    assert_eq!(ExplorerKind::Ai.name(), "AI");
    assert_eq!(ExplorerKind::Miner.name(), "Miner");
    assert_eq!(ExplorerKind::Smart.name(), "Smart");
    assert_eq!(PlanetKind::RustEze.name(), "Rust-eze");
    assert_eq!(PlanetKind::TheCompilerStrikesBack.name(), "The Compiler Strikes Back");
    assert_eq!(planet_order()[0], PlanetKind::AstroParrot);
    assert_eq!(planet_order().len(), MAX_PLANETS);
    assert_eq!(explorer_order(), [ExplorerKind::Miner, ExplorerKind::Ai, ExplorerKind::Smart]);
}

#[test]
fn the_galaxy_holds_at_most_eight_planets() {
    let mut o = Orchestrator::new();
    for expected in 1..=8u32 {
        assert!(o.can_add_planet());
        assert_eq!(o.add_planet(), Ok(expected));
    }
    assert!(!o.can_add_planet());
    assert_eq!(o.add_planet(), Err(OrchestratorError::GalaxyFull));
    assert_eq!(o.alive_planets().len(), 8);
}

#[test]
fn explorers_land_only_on_existing_planets() {
    let mut o = Orchestrator::new();
    let p = o.add_planet().unwrap();
    assert_eq!(o.add_explorer(42), Err(OrchestratorError::NoSuchPlanet(42)));
    let e = o.add_explorer(p).unwrap();
    assert_eq!(e, 2);
    assert_eq!(o.explorer_planet(e), Some(p));
    assert_eq!(o.explorer_planet(99), None);
}

#[test]
fn moves_follow_the_links() {
    let mut o = Orchestrator::new();
    let p1 = o.add_planet().unwrap();
    let p2 = o.add_planet().unwrap();
    let e = o.add_explorer(p1).unwrap();
    assert_eq!(o.move_plan(e, p1), Ok(None));
    assert_eq!(o.move_plan(e, p2), Ok(Some(p1)));
    assert_eq!(o.move_plan(e, 77), Err(OrchestratorError::NotConnected(p1, 77)));
    assert_eq!(o.move_plan(55, p2), Err(OrchestratorError::NoSuchExplorer(55)));
    assert_eq!(o.auto_destination(e), Ok(Some(p2)));
    o.explorer_moved(e, p2);
    assert_eq!(o.explorer_planet(e), Some(p2));
    assert_eq!(o.drain_events(), vec![GuiEvent::ExplorerMoved { explorer: e, to: p2 }]);
}

#[test]
fn a_lost_planet_strands_its_explorers() {
    let mut o = Orchestrator::new();
    let p1 = o.add_planet().unwrap();
    let p2 = o.add_planet().unwrap();
    let e1 = o.add_explorer(p1).unwrap();
    let e2 = o.add_explorer(p2).unwrap();
    let e3 = o.add_explorer(p1).unwrap();
    o.planet_lost(p1);
    assert_eq!(o.alive_planets(), vec![p2]);
    assert_eq!(o.explorers_on(p1), vec![e1, e3]);
    assert_eq!(o.explorers_on(p2), vec![e2]);
    assert_eq!(o.relocation_target(), Some(p2));
    o.planet_lost(p2);
    assert_eq!(o.relocation_target(), None);
    o.explorer_removed(e2);
    assert_eq!(o.explorer_planet(e2), None);
    assert_eq!(o.explorers(), vec![e1, e3]);
}

#[test]
fn bag_reports_announce_each_new_unit() {
    let mut o = Orchestrator::new();
    let p = o.add_planet().unwrap();
    let e = o.add_explorer(p).unwrap();
    let mut bag = BagContent::new();
    bag.add(ResourceKind::Basic(BasicKind::Carbon), 2);
    o.record_bag(e, bag);
    bag.add(ResourceKind::Complex(ComplexKind::Diamond), 1);
    o.record_bag(e, bag);
    assert_eq!(
        o.drain_events(),
        vec![
            GuiEvent::BasicGenerated { explorer: e, resource: BasicKind::Carbon },
            GuiEvent::BasicGenerated { explorer: e, resource: BasicKind::Carbon },
            GuiEvent::ComplexGenerated { explorer: e, resource: ComplexKind::Diamond },
        ]
    );
    assert_eq!(o.bag(e).unwrap().get(ResourceKind::Complex(ComplexKind::Diamond)), Some(1));
    assert!(o.bag(99).is_none());
}

#[test]
fn sunrays_and_asteroids_are_announced() {
    let mut o = Orchestrator::new();
    let p = o.add_planet().unwrap();
    o.sunray_delivered(p);
    o.asteroid_deflected(p);
    o.planet_destroyed(p);
    assert_eq!(
        o.drain_events(),
        vec![
            GuiEvent::SunrayReceived { planet: p },
            GuiEvent::AsteroidDeflected { planet: p },
            GuiEvent::PlanetDestroyed { planet: p },
        ]
    );
}

#[test]
fn neighbours_are_every_other_alive_planet() {
    let mut o = Orchestrator::new();
    let a = o.add_planet().unwrap();
    let b = o.add_planet().unwrap();
    let c = o.add_planet().unwrap();
    assert_eq!(o.neighbours(b), vec![a, c]);
    o.planet_lost(a);
    assert_eq!(o.neighbours(b), vec![c]);
    assert_eq!(o.neighbours(a), Vec::<u32>::new());
    let mut g = Galaxy::new();
    g.add_planet(4);
    g.add_planet(9);
    assert_eq!(g.neighbours(9), vec![4]);
}

#[test]
fn basic_units_add_up_every_basic_kind() {
    let mut bag = BagContent::new();
    bag.add(ResourceKind::Basic(BasicKind::Carbon), 2);
    bag.add(ResourceKind::Basic(BasicKind::Oxygen), 3);
    bag.add(ResourceKind::Complex(ComplexKind::Diamond), 5);
    assert_eq!(bag.basic_units(), 5);
    assert_eq!(BagContent::new().basic_units(), 0);
}

#[test]
fn stranded_explorers_move_to_the_first_planet_or_are_killed() {
    let mut o = Orchestrator::new();
    let p1 = o.add_planet().unwrap();
    let p2 = o.add_planet().unwrap();
    let e1 = o.add_explorer(p1).unwrap();
    let _e2 = o.add_explorer(p2).unwrap();
    let e3 = o.add_explorer(p1).unwrap();
    o.planet_lost(p1);
    assert_eq!(o.stranded_moves(p1), vec![(e1, Some(p2)), (e3, Some(p2))]);
    o.planet_lost(p2);
    assert_eq!(o.stranded_moves(p1), vec![(e1, None), (e3, None)]);
}

#[test]
fn re_adding_and_removing_keep_the_galaxy_connected() {
    let mut g = Galaxy::new();
    g.add_planet(1);
    g.add_planet(2);
    g.remove_planet(1);
    g.add_planet(3);
    assert_eq!(g.planets(), vec![2, 3]);
    assert!(g.are_connected(2, 3) && g.are_connected(3, 2));
    assert!(!g.are_connected(1, 2) && !g.are_connected(3, 3));
}

#[test]
fn held_messages_come_back_per_sender_oldest_first() {
    let mut m: Mailbox<&str> = Mailbox::new();
    m.put(1, "a");
    m.put(2, "b");
    m.put(1, "c");
    assert_eq!(m.take_from(3), None);
    assert_eq!(m.take_from(1), Some("a"));
    assert_eq!(m.take_from(2), Some("b"));
    assert_eq!(m.take_from(1), Some("c"));
    assert_eq!(m.take_from(1), None);
}

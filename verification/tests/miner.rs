use astro_parrot::explorer::mock_explorer::{MockExplorer, TRAVEL_PERIOD};
use astro_parrot::resource::{BasicKind, BasicSet, ComplexKind, ComplexSet, ResourceKind};

#[test]
fn mines_the_planets_basics_in_rotation() {
    let mut m: MockExplorer<u8> = MockExplorer::new(1, 7);
    assert!(!m.caps_known());
    m.learn(BasicSet::from_slice(&[BasicKind::Silicon, BasicKind::Oxygen]), ComplexSet::new());
    assert!(m.caps_known());
    assert_eq!(m.next_basic(), Some(BasicKind::Oxygen));
    assert_eq!(m.next_basic(), Some(BasicKind::Silicon));
    assert_eq!(m.next_basic(), Some(BasicKind::Oxygen));
}

#[test]
fn mines_nothing_where_nothing_is_generated() {
    let mut m: MockExplorer<u8> = MockExplorer::new(1, 7);
    m.learn(BasicSet::new(), ComplexSet::from_slice(&[ComplexKind::Diamond]));
    assert_eq!(m.next_basic(), None);
}

#[test]
fn crafts_only_where_diamonds_are_combined_and_with_two_carbons() {
    let mut m: MockExplorer<u8> = MockExplorer::new(1, 7);
    m.learn(BasicSet::from_slice(&[BasicKind::Carbon]), ComplexSet::new());
    m.store_basic(BasicKind::Carbon, 1);
    m.store_basic(BasicKind::Carbon, 2);
    assert!(!m.should_craft());
    m.learn(BasicSet::from_slice(&[BasicKind::Carbon]), ComplexSet::from_slice(&[ComplexKind::Diamond]));
    assert!(m.should_craft());
    assert_eq!(m.take_two_carbon(), Some((1, 2)));
    assert!(!m.should_craft());
}

#[test]
fn a_move_forgets_what_the_old_planet_offered() {
    let mut m: MockExplorer<u8> = MockExplorer::new(1, 7);
    m.learn(BasicSet::from_slice(&[BasicKind::Carbon]), ComplexSet::new());
    m.relocate(8);
    assert_eq!(m.current_planet(), 8);
    assert!(!m.caps_known());
}

#[test]
fn travels_on_every_fifth_turn() {
    let mut m: MockExplorer<u8> = MockExplorer::new(1, 7);
    let turns: Vec<bool> = (0..15).map(|_| m.tick_travel()).collect();
    for (k, travel) in turns.iter().enumerate() {
        assert_eq!(*travel, (k + 1) % (TRAVEL_PERIOD as usize + 1) == 0);
    }
}

#[test]
fn the_bag_reports_every_basic_and_the_diamonds() {
    let mut m: MockExplorer<u8> = MockExplorer::new(1, 7);
    m.store_basic(BasicKind::Oxygen, 1);
    m.store_basic(BasicKind::Carbon, 2);
    m.record_diamond();
    let bag = m.bag();
    assert_eq!(bag.count(ResourceKind::Basic(BasicKind::Oxygen)), 1);
    assert_eq!(bag.count(ResourceKind::Basic(BasicKind::Carbon)), 1);
    assert_eq!(bag.count(ResourceKind::Complex(ComplexKind::Diamond)), 1);
    assert_eq!(bag.count(ResourceKind::Basic(BasicKind::Silicon)), 0);
}

#[test]
fn the_two_oldest_carbons_go_first() {
    let mut m: MockExplorer<u8> = MockExplorer::new(1, 7);
    m.store_basic(BasicKind::Carbon, 1);
    m.store_basic(BasicKind::Oxygen, 9);
    m.store_basic(BasicKind::Carbon, 2);
    m.store_basic(BasicKind::Carbon, 3);
    assert_eq!(m.take_two_carbon(), Some((1, 2)));
    assert_eq!(m.take_two_carbon(), None);
}

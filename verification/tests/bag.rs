use astro_parrot::explorer::marco_explorer::bag::Bag;
use astro_parrot::resource::{BasicKind, ResourceKind};

#[test]
fn add_count_and_take_round_trip() {
    let mut bag: Bag<&str, &str> = Bag::new();
    assert_eq!(bag.count_basic(BasicKind::Carbon), 0);
    bag.add_basic(BasicKind::Carbon, "carbon");
    bag.add_basic(BasicKind::Carbon, "carbon");
    assert_eq!(bag.count_basic(BasicKind::Carbon), 2);

    assert!(bag.take_basic(BasicKind::Carbon).is_some());
    assert_eq!(bag.count_basic(BasicKind::Carbon), 1);

    assert!(bag.take_basic(BasicKind::Oxygen).is_none());
}

#[test]
fn to_content_reports_counts_and_skips_empties() {
    let mut bag: Bag<&str, &str> = Bag::new();
    bag.add_basic(BasicKind::Carbon, "carbon");
    bag.add_basic(BasicKind::Carbon, "carbon");
    let content = bag.to_content();
    assert_eq!(content.get(ResourceKind::Basic(BasicKind::Carbon)), Some(2));
    assert!(!content.contains_key(ResourceKind::Basic(BasicKind::Oxygen)));
}

#[test]
fn take_returns_the_most_recently_added() {
    let mut bag: Bag<u32, u32> = Bag::new();
    bag.add_basic(BasicKind::Carbon, 1);
    bag.add_basic(BasicKind::Carbon, 2);
    assert_eq!(bag.take_basic(BasicKind::Carbon), Some(2));
    assert_eq!(bag.take_basic(BasicKind::Carbon), Some(1));
    assert_eq!(bag.take_basic(BasicKind::Carbon), None);
}

#[test]
fn clear_empties_every_kind() {
    let mut bag: Bag<u32, u32> = Bag::new();
    bag.add_basic(BasicKind::Silicon, 1);
    bag.add_complex(astro_parrot::resource::ComplexKind::Water, 7);
    bag.clear();
    assert_eq!(bag.count_basic(BasicKind::Silicon), 0);
    assert_eq!(bag.count_complex(astro_parrot::resource::ComplexKind::Water), 0);
    assert!(bag.to_content().entries().is_empty());
}

//! How the AstroParrot planet is configured.

use vstd::prelude::*;

use super::ai::{after_sunray, lemma_sunray_then_asteroid, survives_asteroid};
use super::helpers::{combines, generates};
use crate::resource::{BasicKind, ComplexKind};

verus! {

/// The planet types of the game, each with the constraints the game puts on
/// its planets. The constraints below restate, as a table, those that
/// `common-game`'s `PlanetType::constraints` and `Planet::new` apply; nothing
/// here calls them, so the table is held to the game's rules by reading only.
#[derive(Clone, Copy, Debug, PartialEq, Eq, Structural)]
pub enum PlanetClass {
    A,
    B,
    C,
    D,
}

/// The number of energy cells a planet of class `c` has.
pub open spec fn class_cells(c: PlanetClass) -> nat {
    match c {
        PlanetClass::A => 5,
        PlanetClass::B => 1,
        PlanetClass::C => 1,
        PlanetClass::D => 5,
    }
}

/// Whether a planet of class `c` may store a rocket.
pub open spec fn class_rocket(c: PlanetClass) -> bool {
    c == PlanetClass::A || c == PlanetClass::C
}

/// Whether a planet of class `c` may have more than one generation rule.
pub open spec fn class_unbounded_generation(c: PlanetClass) -> bool {
    c == PlanetClass::B || c == PlanetClass::D
}

/// The most combination rules a planet of class `c` may have.
pub open spec fn class_combination_limit(c: PlanetClass) -> nat {
    match c {
        PlanetClass::A => 0,
        PlanetClass::B => 1,
        PlanetClass::C => 6,
        PlanetClass::D => 0,
    }
}

/// Whether the game accepts a planet of class `c` with these rules: at least
/// one generation rule, a single one unless the class allows more, and no
/// more combination rules than the class allows (the checks `Planet::new`
/// makes, restated).
pub open spec fn accepted(c: PlanetClass, generation: Seq<BasicKind>, combination: Seq<ComplexKind>) -> bool {
    &&& generation.len() >= 1
    &&& (class_unbounded_generation(c) || generation.len() <= 1)
    &&& combination.len() <= class_combination_limit(c)
}

/// The AstroParrot planet's class: C, one energy cell and room for a rocket.
pub open spec fn planet_class_spec() -> PlanetClass {
    PlanetClass::C
}

/// The AstroParrot planet's class.
pub fn planet_class() -> (c: PlanetClass)
    ensures
        c == planet_class_spec(),
        class_cells(c) == 1,
        class_rocket(c),
{
    PlanetClass::C
}

/// The basic kinds the planet's generator is given recipes for.
pub open spec fn generation_rules_spec() -> Seq<BasicKind> {
    seq![BasicKind::Carbon]
}

/// The complex kinds the planet's combinator is given recipes for.
pub open spec fn combination_rules_spec() -> Seq<ComplexKind> {
    seq![ComplexKind::AIPartner, ComplexKind::Diamond]
}

/// The basic kinds the planet generates: Carbon.
pub fn generation_rules() -> (r: Vec<BasicKind>)
    ensures
        r@ == generation_rules_spec(),
{
    let r = vec![BasicKind::Carbon];
    proof {
        assert(r@ =~= generation_rules_spec());
    }
    r
}

/// The complex kinds the planet combines: AI partners and diamonds.
pub fn combination_rules() -> (r: Vec<ComplexKind>)
    ensures
        r@ == combination_rules_spec(),
{
    let r = vec![ComplexKind::AIPartner, ComplexKind::Diamond];
    proof {
        assert(r@ =~= combination_rules_spec());
    }
    r
}

/// The planet serves exactly the recipes it is configured with: it combines a
/// complex kind when, and only when, that kind is among its combination
/// rules, and generates a basic kind when, and only when, that kind is among
/// its generation rules.
pub proof fn lemma_serves_its_rules(c: ComplexKind, b: BasicKind)
    ensures
        combines(c) <==> combination_rules_spec().contains(c),
        generates(b) <==> generation_rules_spec().contains(b),
{
    if combination_rules_spec().contains(c) {
        let i = choose|i: int| 0 <= i < combination_rules_spec().len() && combination_rules_spec()[i] == c;
        assert(i == 0 || i == 1);
    }
    if c == ComplexKind::AIPartner {
        assert(combination_rules_spec()[0] == c);
    }
    if c == ComplexKind::Diamond {
        assert(combination_rules_spec()[1] == c);
    }
    if generation_rules_spec().contains(b) {
        let i = choose|i: int| 0 <= i < generation_rules_spec().len() && generation_rules_spec()[i] == b;
        assert(i == 0);
    }
    if b == BasicKind::Carbon {
        assert(generation_rules_spec()[0] == b);
    }
}

/// The AstroParrot planet's configuration meets the restated checks of
/// `Planet::new` (see `accepted`), which is why building it is expected
/// never to fail.
pub proof fn lemma_configuration_accepted()
    ensures
        accepted(planet_class_spec(), generation_rules_spec(), combination_rules_spec()),
{
}

/// An AstroParrot planet is never caught undefended by an asteroid that
/// follows a sunray: its class gives it a cell and room for a rocket,
/// whatever the cell's charge and the rocket slot held before.
pub proof fn lemma_astroparrot_defended(cells: Seq<bool>, rocket: bool)
    requires
        cells.len() == class_cells(planet_class_spec()),
    ensures
        ({
            let allowed = class_rocket(planet_class_spec());
            let (c1, r1) = after_sunray(cells, rocket, allowed);
            survives_asteroid(c1, r1, allowed)
        }),
{
    lemma_sunray_then_asteroid(cells, rocket);
}

} // verus!

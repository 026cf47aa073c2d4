//! The AstroParrot planet's behaviour: charge a cell with every sunray and
//! keep a rocket ready from the charged cells, so that an asteroid is met
//! with a rocket whenever the planet can build one; answer explorers.

use vstd::prelude::*;

use common_game::components::planet::{DummyPlanetState, PlanetState};
use common_game::components::resource::{
    BasicResource, Combinator, ComplexResource, ComplexResourceRequest, Generator, GenericResource,
};
use common_game::components::rocket::Rocket;
use common_game::components::sunray::Sunray;

use super::helpers::{
    after_build, after_charge, charged_cells, combinator_kinds, combine_complex, combines, count_charged,
    first_with, generate_basic, generates, generator_kinds, lemma_first_with, try_build_rocket, unsupported_text,
};
use super::state::{
    charge_cell, combinator_recipes, full_cell, generator_recipes, has_rocket, request_target, state_cells,
    overview, state_has_rocket, state_rocket_allowed, take_rocket, to_dummy, basic_of, complex_of, generic_of,
};
use crate::explorer::marco_explorer::recipes::request_slots;
use crate::resource::{BasicKind, BasicSet, ComplexSet};

verus! {

/// The cells and rocket slot after a sunray: a cell is charged, then a
/// rocket is built if the planet has none.
pub open spec fn after_sunray(cells: Seq<bool>, rocket: bool, allowed: bool) -> (Seq<bool>, bool) {
    after_build(after_charge(cells), rocket, allowed)
}

/// Whether an asteroid is met with a rocket: the one stored, or one built
/// on the spot.
pub open spec fn survives_asteroid(cells: Seq<bool>, rocket: bool, allowed: bool) -> bool {
    after_build(cells, rocket, allowed).1
}

/// A request an explorer sends to the planet.
pub enum PlanetRequest {
    /// Which basic resources the planet generates.
    SupportedResources,
    /// Which complex resources the planet combines.
    SupportedCombinations,
    /// Generate one resource of this kind.
    Generate(BasicKind),
    /// Combine the two ingredients of this request.
    Combine(ComplexResourceRequest),
    /// How many energy cells are charged.
    AvailableEnergyCells,
}

/// The planet's answer to an explorer.
pub enum PlanetReply {
    SupportedResources(BasicSet),
    SupportedCombinations(ComplexSet),
    /// The generated resource, if any was generated.
    Generated(Option<BasicResource>),
    /// The combined resource, or why not with both ingredients handed back.
    Combined(Result<ComplexResource, (String, GenericResource, GenericResource)>),
    AvailableEnergyCells(u32),
}

/// The AstroParrot planet AI. It holds no state of its own: everything it
/// acts on is the planet's state, generator and combinator.
pub struct AstroParrotPlanetAI;

impl AstroParrotPlanetAI {
    pub fn new() -> (ai: Self) {
        AstroParrotPlanetAI
    }

    /// A sunray: charge the first discharged cell, then, without a rocket,
    /// build one from the first charged cell if the planet can.
    pub fn handle_sunray(&mut self, state: &mut PlanetState, generator: &Generator, combinator: &Combinator, sunray: Sunray)
        ensures
            (state_cells(*final(state)), state_has_rocket(*final(state))) == after_sunray(
                state_cells(*old(state)),
                state_has_rocket(*old(state)),
                state_rocket_allowed(*old(state)),
            ),
            state_rocket_allowed(*final(state)) == state_rocket_allowed(*old(state)),
    {
        let ghost c0 = state_cells(*state);
        let _ = charge_cell(state, sunray);
        proof {
            if c0.contains(false) {
                lemma_first_with(c0, false);
            }
            assert(state_cells(*state) == after_charge(c0));
        }
        if !has_rocket(state) {
            try_build_rocket(state);
        }
    }

    /// An asteroid: build a rocket if there is none and the planet can, then
    /// launch the rocket, if any. The planet survives iff one is returned.
    pub fn handle_asteroid(&mut self, state: &mut PlanetState, generator: &Generator, combinator: &Combinator) -> (r: Option<Rocket>)
        ensures
            r is Some == survives_asteroid(
                state_cells(*old(state)),
                state_has_rocket(*old(state)),
                state_rocket_allowed(*old(state)),
            ),
            state_cells(*final(state)) == after_build(
                state_cells(*old(state)),
                state_has_rocket(*old(state)),
                state_rocket_allowed(*old(state)),
            ).0,
            !state_has_rocket(*final(state)),
            state_rocket_allowed(*final(state)) == state_rocket_allowed(*old(state)),
    {
        try_build_rocket(state);
        take_rocket(state)
    }

    /// The overview of the planet's state, for the orchestrator.
    pub fn handle_internal_state_req(&mut self, state: &mut PlanetState, generator: &Generator, combinator: &Combinator) -> (d: DummyPlanetState)
        ensures
            *final(state) == *old(state),
            overview(d) == (
                state_cells(*old(state)),
                count_charged(state_cells(*old(state))),
                state_has_rocket(*old(state)),
            ),
    {
        to_dummy(state)
    }

    /// An explorer's request. Generation and combination use the first
    /// charged cell; without one, a generation is answered with nothing
    /// generated and a combination is not answered at all.
    pub fn handle_explorer_msg(
        &mut self,
        state: &mut PlanetState,
        generator: &Generator,
        combinator: &Combinator,
        msg: PlanetRequest,
    ) -> (r: Option<PlanetReply>)
        ensures
            state_has_rocket(*final(state)) == state_has_rocket(*old(state)),
            state_rocket_allowed(*final(state)) == state_rocket_allowed(*old(state)),
            match msg {
                PlanetRequest::SupportedResources => {
                    &&& r matches Some(PlanetReply::SupportedResources(s)) && s@ == generator_recipes(*generator)
                    &&& state_cells(*final(state)) == state_cells(*old(state))
                },
                PlanetRequest::SupportedCombinations => {
                    &&& r matches Some(PlanetReply::SupportedCombinations(s)) && s@ == combinator_recipes(*combinator)
                    &&& state_cells(*final(state)) == state_cells(*old(state))
                },
                PlanetRequest::Generate(kind) => {
                    let c = state_cells(*old(state));
                    let made = c.contains(true) && generates(kind) && generator_recipes(*generator).contains(kind);
                    &&& r matches Some(PlanetReply::Generated(g)) && (g is Some <==> made)
                    &&& r matches Some(PlanetReply::Generated(Some(b))) ==> basic_of(b) == kind
                    &&& state_cells(*final(state)) == if made {
                        c.update(first_with(c, true), false)
                    } else {
                        c
                    }
                },
                PlanetRequest::Combine(req) => {
                    let c = state_cells(*old(state));
                    let made = c.contains(true) && combines(request_target(req)) && combinator_recipes(
                        *combinator,
                    ).contains(request_target(req));
                    &&& c.contains(true) ==> (r matches Some(PlanetReply::Combined(res)) && (res is Ok <==> made))
                    &&& c.contains(true) && !combines(request_target(req)) ==> (r matches Some(
                        PlanetReply::Combined(Err((m, _, _))),
                    ) && m@ == unsupported_text(request_target(req)))
                    &&& r matches Some(PlanetReply::Combined(Ok(cr))) ==> complex_of(cr) == request_target(req)
                    &&& r matches Some(PlanetReply::Combined(Err((_, a, b)))) ==> (generic_of(a), generic_of(b))
                        == request_slots(request_target(req))
                    &&& !c.contains(true) ==> r is None
                    &&& state_cells(*final(state)) == if made {
                        c.update(first_with(c, true), false)
                    } else {
                        c
                    }
                },
                PlanetRequest::AvailableEnergyCells => {
                    &&& r matches Some(PlanetReply::AvailableEnergyCells(n)) && n == count_charged(
                        state_cells(*old(state)),
                    ) as u32
                    &&& state_cells(*final(state)) == state_cells(*old(state))
                },
            },
    {
        match msg {
            PlanetRequest::SupportedResources => Some(PlanetReply::SupportedResources(generator_kinds(generator))),
            PlanetRequest::SupportedCombinations => Some(PlanetReply::SupportedCombinations(combinator_kinds(combinator))),
            PlanetRequest::Generate(kind) => {
                let ghost c = state_cells(*state);
                match full_cell(state) {
                    Some(i) => {
                        proof {
                            lemma_first_with(c, true);
                        }
                        Some(PlanetReply::Generated(generate_basic(generator, state, i, kind)))
                    },
                    None => Some(PlanetReply::Generated(None)),
                }
            },
            PlanetRequest::Combine(req) => {
                let ghost c = state_cells(*state);
                match full_cell(state) {
                    Some(i) => {
                        proof {
                            lemma_first_with(c, true);
                        }
                        Some(PlanetReply::Combined(combine_complex(combinator, state, i, req)))
                    },
                    None => None,
                }
            },
            PlanetRequest::AvailableEnergyCells => {
                let n = charged_cells(state);
                Some(PlanetReply::AvailableEnergyCells(n as u32))
            },
        }
    }
}

/// A planet that may store a rocket and has an energy cell survives an
/// asteroid that follows a sunray, whatever state it was in before.
pub proof fn lemma_sunray_then_asteroid(cells: Seq<bool>, rocket: bool)
    requires
        cells.len() >= 1,
    ensures
        ({
            let (c1, r1) = after_sunray(cells, rocket, true);
            survives_asteroid(c1, r1, true)
        }),
{
    let c = after_charge(cells);
    if cells.contains(false) {
        lemma_first_with(cells, false);
        let i = first_with(cells, false);
        assert(c[i] == true);
    } else {
        assert(cells[0] == true);
    }
    assert(c.contains(true));
}

/// A sunray never takes a stored rocket away.
pub proof fn lemma_sunray_keeps_rocket(cells: Seq<bool>, allowed: bool)
    ensures
        after_sunray(cells, true, allowed).1,
{
}

/// An asteroid always finds the planet without a rocket stored afterwards,
/// and it is survived exactly when a rocket was stored or the planet may
/// store one and has a charged cell.
pub proof fn lemma_asteroid_outcome(cells: Seq<bool>, rocket: bool, allowed: bool)
    ensures
        survives_asteroid(cells, rocket, allowed) == (rocket || (allowed && cells.contains(true))),
{
}

/// A sunray, and building a rocket, keep the number of energy cells.
pub proof fn lemma_cells_kept(cells: Seq<bool>, rocket: bool, allowed: bool)
    ensures
        after_sunray(cells, rocket, allowed).0.len() == cells.len(),
        after_build(cells, rocket, allowed).0.len() == cells.len(),
{
    if cells.contains(true) {
        lemma_first_with(cells, true);
    }
    if cells.contains(false) {
        lemma_first_with(cells, false);
    }
    let c = after_charge(cells);
    assert(c.len() == cells.len());
    if c.contains(true) {
        lemma_first_with(c, true);
    }
}

} // verus!

//! The planet's building blocks: building a rocket from the first charged
//! cell, generating and combining with it, and counting charged cells; with
//! the model of the energy cells and the rocket they are stated over.

use vstd::prelude::*;

use common_game::components::planet::PlanetState;
use common_game::components::resource::{
    BasicResource, Combinator, ComplexResource, ComplexResourceRequest, Generator, GenericResource,
};

use super::state::{
    build_rocket, cell_charged, cells_count, combinator_has, combinator_recipes, full_cell,
    generator_has, generator_recipes, hand_back, is_first, make_aipartner, make_carbon, make_diamond,
    request_target, state_cells, state_has_rocket, state_rocket_allowed, target_of, basic_of, complex_of, generic_of,
};
use crate::explorer::marco_explorer::recipes::request_slots;
use crate::resource::{BasicKind, BasicSet, ComplexKind, ComplexSet};

verus! {

/// The position of the first cell of `cells` holding `v` (meaningful when
/// some cell does).
pub open spec fn first_with(cells: Seq<bool>, v: bool) -> int {
    choose|i: int| is_first(cells, v, i)
}

/// The cells after a sunray: the first discharged cell is charged, if any.
pub open spec fn after_charge(cells: Seq<bool>) -> Seq<bool> {
    if cells.contains(false) {
        cells.update(first_with(cells, false), true)
    } else {
        cells
    }
}

/// The cells and rocket slot after trying to build a rocket: it is built
/// from the first charged cell, which it discharges, when the planet may
/// store a rocket, has none yet and has a charged cell; otherwise nothing
/// changes.
pub open spec fn after_build(cells: Seq<bool>, rocket: bool, allowed: bool) -> (Seq<bool>, bool) {
    if allowed && !rocket && cells.contains(true) {
        (cells.update(first_with(cells, true), false), true)
    } else {
        (cells, rocket)
    }
}

/// The number of charged cells.
pub open spec fn count_charged(cells: Seq<bool>) -> nat
    decreases cells.len(),
{
    if cells.len() == 0 {
        0
    } else {
        count_charged(cells.drop_last()) + if cells.last() {
            1nat
        } else {
            0nat
        }
    }
}

/// The planet generates `b` itself (its other basics are refused).
pub open spec fn generates(b: BasicKind) -> bool {
    b == BasicKind::Carbon
}

/// The planet combines `c` itself (its other recipes are refused).
pub open spec fn combines(c: ComplexKind) -> bool {
    c == ComplexKind::AIPartner || c == ComplexKind::Diamond
}

/// There is one first position holding `v` when some cell holds it.
pub proof fn lemma_first_with(cells: Seq<bool>, v: bool)
    requires
        cells.contains(v),
    ensures
        is_first(cells, v, first_with(cells, v)),
        forall|i: int| is_first(cells, v, i) ==> i == first_with(cells, v),
    decreases cells.len(),
{
    let rest = cells.drop_last();
    if rest.contains(v) {
        lemma_first_with(rest, v);
        let i = first_with(rest, v);
        assert(rest[i] == cells[i]);
        assert forall|j: int| 0 <= j < i implies cells[j] != v by {
            assert(rest[j] == cells[j]);
        }
        assert(is_first(cells, v, i));
    } else {
        assert(cells.last() == v) by {
            let k = choose|k: int| 0 <= k < cells.len() && cells[k] == v;
            if k < rest.len() {
                assert(rest[k] == v);
            }
        }
        assert forall|j: int| 0 <= j < cells.len() - 1 implies cells[j] != v by {
            assert(rest[j] == cells[j]);
        }
        assert(is_first(cells, v, cells.len() - 1));
    }
    assert forall|i: int| is_first(cells, v, i) implies i == first_with(cells, v) by {
        let f = first_with(cells, v);
        assert(is_first(cells, v, f));
        if i < f {
            assert(cells[i] != v);
        } else if f < i {
            assert(cells[f] != v);
        }
    }
}

/// Builds a rocket from the first charged cell, if the planet can.
pub fn try_build_rocket(state: &mut PlanetState)
    ensures
        (state_cells(*final(state)), state_has_rocket(*final(state))) == after_build(
            state_cells(*old(state)),
            state_has_rocket(*old(state)),
            state_rocket_allowed(*old(state)),
        ),
        state_rocket_allowed(*final(state)) == state_rocket_allowed(*old(state)),
{
    match full_cell(state) {
        Some(idx) => {
            proof {
                lemma_first_with(state_cells(*state), true);
            }
            let _ = build_rocket(state, idx);
        },
        None => {},
    }
}

/// Generates a `kind` resource with cell `i`: Carbon through the generator;
/// any other kind is refused.
pub fn generate_basic(generator: &Generator, state: &mut PlanetState, i: usize, kind: BasicKind) -> (r: Option<
    BasicResource,
>)
    requires
        i < state_cells(*old(state)).len(),
    ensures
        r is Some <==> generates(kind) && generator_recipes(*generator).contains(kind) && state_cells(
            *old(state),
        )[i as int],
        state_cells(*final(state)) == if r is Some {
            state_cells(*old(state)).update(i as int, false)
        } else {
            state_cells(*old(state))
        },
        state_has_rocket(*final(state)) == state_has_rocket(*old(state)),
        state_rocket_allowed(*final(state)) == state_rocket_allowed(*old(state)),
        r matches Some(b) ==> basic_of(b) == kind,
{
    match kind {
        BasicKind::Carbon => make_carbon(generator, state, i).ok(),
        _ => None,
    }
}

/// The message refusing a recipe the planet does not combine.
pub open spec fn unsupported_text(kind: ComplexKind) -> Seq<char> {
    match kind {
        ComplexKind::Diamond => "unsupported recipe: Diamond"@,
        ComplexKind::Water => "unsupported recipe: Water"@,
        ComplexKind::Life => "unsupported recipe: Life"@,
        ComplexKind::Robot => "unsupported recipe: Robot"@,
        ComplexKind::Dolphin => "unsupported recipe: Dolphin"@,
        ComplexKind::AIPartner => "unsupported recipe: AIPartner"@,
    }
}

/// The message refusing a recipe the planet does not combine.
pub fn unsupported_message(kind: ComplexKind) -> (r: String)
    ensures
        r@ == unsupported_text(kind),
{
    match kind {
        ComplexKind::Diamond => "unsupported recipe: Diamond".to_owned(),
        ComplexKind::Water => "unsupported recipe: Water".to_owned(),
        ComplexKind::Life => "unsupported recipe: Life".to_owned(),
        ComplexKind::Robot => "unsupported recipe: Robot".to_owned(),
        ComplexKind::Dolphin => "unsupported recipe: Dolphin".to_owned(),
        ComplexKind::AIPartner => "unsupported recipe: AIPartner".to_owned(),
    }
}

/// Combines `request` with cell `i`: AI partners and diamonds through the
/// combinator; any other recipe is refused, both ingredients handed back.
pub fn combine_complex(combinator: &Combinator, state: &mut PlanetState, i: usize, request: ComplexResourceRequest) -> (r: Result<
    ComplexResource,
    (String, GenericResource, GenericResource),
>)
    requires
        i < state_cells(*old(state)).len(),
    ensures
        r is Ok <==> combines(request_target(request)) && combinator_recipes(*combinator).contains(
            request_target(request),
        ) && state_cells(*old(state))[i as int],
        state_cells(*final(state)) == if r is Ok {
            state_cells(*old(state)).update(i as int, false)
        } else {
            state_cells(*old(state))
        },
        state_has_rocket(*final(state)) == state_has_rocket(*old(state)),
        state_rocket_allowed(*final(state)) == state_rocket_allowed(*old(state)),
        !combines(request_target(request)) ==> (r matches Err((m, _, _)) && m@ == unsupported_text(
            request_target(request),
        )),
        r matches Ok(c) ==> complex_of(c) == request_target(request),
        r matches Err((_, a, b)) ==> (generic_of(a), generic_of(b)) == request_slots(request_target(request)),
{
    let kind = target_of(&request);
    match kind {
        ComplexKind::AIPartner => make_aipartner(combinator, request, state, i),
        ComplexKind::Diamond => make_diamond(combinator, request, state, i),
        _ => {
            let (a, b) = hand_back(request);
            Err((unsupported_message(kind), a, b))
        },
    }
}

/// The number of charged cells.
pub fn charged_cells(state: &PlanetState) -> (n: usize)
    ensures
        n == count_charged(state_cells(*state)),
{
    let len = cells_count(state);
    let mut n: usize = 0;
    for i in 0..len
        invariant
            len == state_cells(*state).len(),
            n == count_charged(state_cells(*state).take(i as int)),
            n <= i,
    {
        proof {
            assert(state_cells(*state).take(i + 1).drop_last() =~= state_cells(*state).take(i as int));
        }
        if cell_charged(state, i) {
            n = n + 1;
        }
    }
    proof {
        assert(state_cells(*state).take(len as int) =~= state_cells(*state));
    }
    n
}

/// The basic kinds the generator has a recipe for.
pub fn generator_kinds(generator: &Generator) -> (r: BasicSet)
    ensures
        r@ == generator_recipes(*generator),
{
    let r = BasicSet {
        oxygen: generator_has(generator, BasicKind::Oxygen),
        hydrogen: generator_has(generator, BasicKind::Hydrogen),
        carbon: generator_has(generator, BasicKind::Carbon),
        silicon: generator_has(generator, BasicKind::Silicon),
    };
    proof {
        assert forall|k: BasicKind| r@.contains(k) == generator_recipes(*generator).contains(k) by {
            match k {
                BasicKind::Oxygen => {},
                BasicKind::Hydrogen => {},
                BasicKind::Carbon => {},
                BasicKind::Silicon => {},
            }
        }
        assert(r@ =~= generator_recipes(*generator));
    }
    r
}

/// The complex kinds the combinator has a recipe for.
pub fn combinator_kinds(combinator: &Combinator) -> (r: ComplexSet)
    ensures
        r@ == combinator_recipes(*combinator),
{
    let r = ComplexSet {
        diamond: combinator_has(combinator, ComplexKind::Diamond),
        water: combinator_has(combinator, ComplexKind::Water),
        life: combinator_has(combinator, ComplexKind::Life),
        robot: combinator_has(combinator, ComplexKind::Robot),
        dolphin: combinator_has(combinator, ComplexKind::Dolphin),
        aipartner: combinator_has(combinator, ComplexKind::AIPartner),
    };
    proof {
        assert forall|k: ComplexKind| r@.contains(k) == combinator_recipes(*combinator).contains(k) by {
            match k {
                ComplexKind::Diamond => {},
                ComplexKind::Water => {},
                ComplexKind::Life => {},
                ComplexKind::Robot => {},
                ComplexKind::Dolphin => {},
                ComplexKind::AIPartner => {},
            }
        }
        assert(r@ =~= combinator_recipes(*combinator));
    }
    r
}

} // verus!

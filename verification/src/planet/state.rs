//! The planet's state, generator and combinator as `common-game` provides
//! them, with what each call does to the energy cells and the rocket.

use vstd::prelude::*;

use common_game::components::planet::{DummyPlanetState, PlanetState};
use common_game::components::resource::{
    BasicResource, BasicResourceType, Combinator, ComplexResource, ComplexResourceRequest,
    ComplexResourceType, Generator, GenericResource,
};
use common_game::components::rocket::Rocket;
use common_game::components::sunray::Sunray;

use super::helpers::count_charged;
use crate::explorer::marco_explorer::recipes::request_slots;
use crate::resource::{BasicKind, BasicSet, ComplexKind, ComplexSet, ResourceKind};

verus! {

#[verifier::external_type_specification]
#[verifier::external_body]
pub struct ExPlanetState(PlanetState);

#[verifier::external_type_specification]
#[verifier::external_body]
pub struct ExSunray(Sunray);

#[verifier::external_type_specification]
#[verifier::external_body]
pub struct ExRocket(Rocket);

#[verifier::external_type_specification]
#[verifier::external_body]
pub struct ExGenerator(Generator);

#[verifier::external_type_specification]
#[verifier::external_body]
pub struct ExCombinator(Combinator);

#[verifier::external_type_specification]
#[verifier::external_body]
pub struct ExBasicResource(BasicResource);

#[verifier::external_type_specification]
#[verifier::external_body]
pub struct ExComplexResource(ComplexResource);

#[verifier::external_type_specification]
#[verifier::external_body]
pub struct ExComplexResourceRequest(ComplexResourceRequest);

#[verifier::external_type_specification]
#[verifier::external_body]
pub struct ExGenericResource(GenericResource);

#[verifier::external_type_specification]
#[verifier::external_body]
pub struct ExDummyPlanetState(DummyPlanetState);

/// The charge of each of the planet's energy cells, in order.
pub uninterp spec fn state_cells(s: PlanetState) -> Seq<bool>;

/// Whether a rocket is built and stored on the planet.
pub uninterp spec fn state_has_rocket(s: PlanetState) -> bool;

/// Whether the planet's type lets it store a rocket (fixed when it was made).
pub uninterp spec fn state_rocket_allowed(s: PlanetState) -> bool;

/// The basic kinds the generator has a recipe for.
pub uninterp spec fn generator_recipes(g: Generator) -> Set<BasicKind>;

/// The complex kinds the combinator has a recipe for.
pub uninterp spec fn combinator_recipes(c: Combinator) -> Set<ComplexKind>;

/// The complex kind a combination request asks for.
pub uninterp spec fn request_target(r: ComplexResourceRequest) -> ComplexKind;

/// The kind of a basic resource (what `BasicResource::get_type` reports).
pub uninterp spec fn basic_of(r: BasicResource) -> BasicKind;

/// The kind of a complex resource (what `ComplexResource::get_type` reports).
pub uninterp spec fn complex_of(r: ComplexResource) -> ComplexKind;

/// The kind of a resource of either family (what `GenericResource::get_type`
/// reports).
pub uninterp spec fn generic_of(r: GenericResource) -> ResourceKind;

/// `i` is the first position of `cells` holding `v`.
pub open spec fn is_first(cells: Seq<bool>, v: bool, i: int) -> bool {
    &&& 0 <= i < cells.len()
    &&& cells[i] == v
    &&& forall|j: int| 0 <= j < i ==> cells[j] != v
}

/// The rocket slot and the rocket permission of `a` and `b` agree.
pub open spec fn same_rocket(a: PlanetState, b: PlanetState) -> bool {
    state_has_rocket(a) == state_has_rocket(b) && state_rocket_allowed(a) == state_rocket_allowed(b)
}

/// `PlanetState::charge_cell`: charges the first discharged cell with the
/// sunray, or hands the sunray back when every cell is charged.
#[verifier::external_body]
pub fn charge_cell(state: &mut PlanetState, sunray: Sunray) -> (r: Option<Sunray>)
    ensures
        same_rocket(*final(state), *old(state)),
        r is None <==> state_cells(*old(state)).contains(false),
        r is Some ==> state_cells(*final(state)) == state_cells(*old(state)),
        r is None ==> exists|i: int|
            is_first(state_cells(*old(state)), false, i) && state_cells(*final(state)) == state_cells(
                *old(state),
            ).update(i, true),
{
    state.charge_cell(sunray)
}

/// `PlanetState::has_rocket`: whether a rocket is stored.
#[verifier::external_body]
pub fn has_rocket(state: &PlanetState) -> (r: bool)
    ensures
        r == state_has_rocket(*state),
{
    state.has_rocket()
}

/// `PlanetState::take_rocket`: takes the stored rocket out, if any.
#[verifier::external_body]
pub fn take_rocket(state: &mut PlanetState) -> (r: Option<Rocket>)
    ensures
        r is Some <==> state_has_rocket(*old(state)),
        !state_has_rocket(*final(state)),
        state_rocket_allowed(*final(state)) == state_rocket_allowed(*old(state)),
        state_cells(*final(state)) == state_cells(*old(state)),
{
    state.take_rocket()
}

/// `PlanetState::full_cell`: the position of the first charged cell, if any
/// (the cell itself is not handed out).
#[verifier::external_body]
pub fn full_cell(state: &mut PlanetState) -> (r: Option<usize>)
    ensures
        *final(state) == *old(state),
        match r {
            Some(i) => is_first(state_cells(*old(state)), true, i as int),
            None => !state_cells(*old(state)).contains(true),
        },
{
    state.full_cell().map(|(_, i)| i)
}

/// `PlanetState::build_rocket`: builds a rocket from cell `i`, discharging
/// it; refused when the planet cannot store rockets, already has one, or
/// the cell is not charged, leaving everything as it was.
#[verifier::external_body]
pub fn build_rocket(state: &mut PlanetState, i: usize) -> (r: Result<(), String>)
    requires
        i < state_cells(*old(state)).len(),
    ensures
        state_rocket_allowed(*final(state)) == state_rocket_allowed(*old(state)),
        r is Ok <==> state_rocket_allowed(*old(state)) && !state_has_rocket(*old(state))
            && state_cells(*old(state))[i as int],
        r is Ok ==> state_has_rocket(*final(state)) && state_cells(*final(state)) == state_cells(
            *old(state),
        ).update(i as int, false),
        r is Err ==> state_has_rocket(*final(state)) == state_has_rocket(*old(state)) && state_cells(
            *final(state),
        ) == state_cells(*old(state)),
{
    state.build_rocket(i)
}

/// `PlanetState::cells_count`: the number of energy cells.
#[verifier::external_body]
pub fn cells_count(state: &PlanetState) -> (n: usize)
    ensures
        n == state_cells(*state).len(),
{
    state.cells_count()
}

/// `EnergyCell::is_charged` on `PlanetState::cell(i)`: whether cell `i` is
/// charged.
#[verifier::external_body]
pub fn cell_charged(state: &PlanetState, i: usize) -> (r: bool)
    requires
        i < state_cells(*state).len(),
    ensures
        r == state_cells(*state)[i as int],
{
    state.cell(i).is_charged()
}

/// What an overview of a planet's state reports: each cell's charge in
/// order, the number of charged cells, and whether a rocket is stored (the
/// three fields of `DummyPlanetState`).
pub uninterp spec fn overview(d: DummyPlanetState) -> (Seq<bool>, nat, bool);

/// `PlanetState::to_dummy`: the overview of the state reported to the
/// orchestrator, which copies each cell's charge, counts the charged cells
/// and tells whether a rocket is stored.
#[verifier::external_body]
pub fn to_dummy(state: &PlanetState) -> (d: DummyPlanetState)
    ensures
        overview(d) == (state_cells(*state), count_charged(state_cells(*state)), state_has_rocket(*state)),
{
    state.to_dummy()
}

/// `Generator::make_carbon` powered by cell `i`: a Carbon resource when the
/// generator has the Carbon recipe and the cell is charged, which it
/// discharges; otherwise an error and the cells as they were. The rocket is
/// untouched.
#[verifier::external_body]
pub fn make_carbon(generator: &Generator, state: &mut PlanetState, i: usize) -> (r: Result<BasicResource, String>)
    requires
        i < state_cells(*old(state)).len(),
    ensures
        same_rocket(*final(state), *old(state)),
        r is Ok <==> generator_recipes(*generator).contains(BasicKind::Carbon) && state_cells(*old(state))[i as int],
        r is Ok ==> state_cells(*final(state)) == state_cells(*old(state)).update(i as int, false),
        r is Err ==> state_cells(*final(state)) == state_cells(*old(state)),
        r matches Ok(b) ==> basic_of(b) == BasicKind::Carbon,
{
    generator.make_carbon(state.cell_mut(i)).map(BasicResource::Carbon)
}

/// `Combinator::make_diamond` powered by cell `i`, on the two Carbons of a
/// Diamond request: a Diamond when the combinator has its recipe and the
/// cell is charged, which it discharges; otherwise an error carrying both
/// Carbons back, in the request's order, and the cells as they were. The
/// rocket is untouched.
#[verifier::external_body]
pub fn make_diamond(combinator: &Combinator, request: ComplexResourceRequest, state: &mut PlanetState, i: usize) -> (r: Result<
    ComplexResource,
    (String, GenericResource, GenericResource),
>)
    requires
        request_target(request) == ComplexKind::Diamond,
        i < state_cells(*old(state)).len(),
    ensures
        same_rocket(*final(state), *old(state)),
        r is Ok <==> combinator_recipes(*combinator).contains(ComplexKind::Diamond) && state_cells(*old(state))[i as int],
        r is Ok ==> state_cells(*final(state)) == state_cells(*old(state)).update(i as int, false),
        r is Err ==> state_cells(*final(state)) == state_cells(*old(state)),
        r matches Ok(c) ==> complex_of(c) == ComplexKind::Diamond,
        r matches Err((_, a, b)) ==> (generic_of(a), generic_of(b)) == request_slots(ComplexKind::Diamond),
{
    match request {
        ComplexResourceRequest::Diamond(a, b) => combinator
            .make_diamond(a, b, state.cell_mut(i))
            .map(|d| d.to_complex())
            .map_err(|(e, a, b)| (e, a.to_generic(), b.to_generic())),
        _ => vstd::pervasive::unreached(),
    }
}

/// `Combinator::make_aipartner` powered by cell `i`, on the Robot and the
/// Diamond of an AI partner request: an AI partner when the combinator has its
/// recipe and the cell is charged, which it discharges; otherwise an error
/// carrying both ingredients back, in the request's order, and the cells as
/// they were. The rocket is untouched.
#[verifier::external_body]
pub fn make_aipartner(combinator: &Combinator, request: ComplexResourceRequest, state: &mut PlanetState, i: usize) -> (r: Result<
    ComplexResource,
    (String, GenericResource, GenericResource),
>)
    requires
        request_target(request) == ComplexKind::AIPartner,
        i < state_cells(*old(state)).len(),
    ensures
        same_rocket(*final(state), *old(state)),
        r is Ok <==> combinator_recipes(*combinator).contains(ComplexKind::AIPartner) && state_cells(*old(state))[i as int],
        r is Ok ==> state_cells(*final(state)) == state_cells(*old(state)).update(i as int, false),
        r is Err ==> state_cells(*final(state)) == state_cells(*old(state)),
        r matches Ok(c) ==> complex_of(c) == ComplexKind::AIPartner,
        r matches Err((_, a, b)) ==> (generic_of(a), generic_of(b)) == request_slots(ComplexKind::AIPartner),
{
    match request {
        ComplexResourceRequest::AIPartner(a, b) => combinator
            .make_aipartner(a, b, state.cell_mut(i))
            .map(|p| p.to_complex())
            .map_err(|(e, a, b)| (e, a.to_generic(), b.to_generic())),
        _ => vstd::pervasive::unreached(),
    }
}

/// The complex kind a combination request asks for (the request's variant).
#[verifier::external_body]
pub fn target_of(request: &ComplexResourceRequest) -> (k: ComplexKind)
    ensures
        k == request_target(*request),
{
    match request {
        ComplexResourceRequest::Diamond(..) => ComplexKind::Diamond,
        ComplexResourceRequest::Water(..) => ComplexKind::Water,
        ComplexResourceRequest::Life(..) => ComplexKind::Life,
        ComplexResourceRequest::Robot(..) => ComplexKind::Robot,
        ComplexResourceRequest::Dolphin(..) => ComplexKind::Dolphin,
        ComplexResourceRequest::AIPartner(..) => ComplexKind::AIPartner,
    }
}

/// The two ingredients of a combination request, handed back each as a
/// generic resource (`to_generic` on each field of the request's variant),
/// in the request's order.
#[verifier::external_body]
pub fn hand_back(request: ComplexResourceRequest) -> (r: (GenericResource, GenericResource))
    ensures
        (generic_of(r.0), generic_of(r.1)) == request_slots(request_target(request)),
{
    match request {
        ComplexResourceRequest::Diamond(a, b) => (a.to_generic(), b.to_generic()),
        ComplexResourceRequest::Water(a, b) => (a.to_generic(), b.to_generic()),
        ComplexResourceRequest::Life(a, b) => (a.to_generic(), b.to_generic()),
        ComplexResourceRequest::Robot(a, b) => (a.to_generic(), b.to_generic()),
        ComplexResourceRequest::Dolphin(a, b) => (a.to_generic(), b.to_generic()),
        ComplexResourceRequest::AIPartner(a, b) => (a.to_generic(), b.to_generic()),
    }
}

/// `Generator::contains`: whether the generator has a recipe for `kind`.
#[verifier::external_body]
pub fn generator_has(generator: &Generator, kind: BasicKind) -> (r: bool)
    ensures
        r == generator_recipes(*generator).contains(kind),
{
    generator.contains(match kind {
        BasicKind::Oxygen => BasicResourceType::Oxygen,
        BasicKind::Hydrogen => BasicResourceType::Hydrogen,
        BasicKind::Carbon => BasicResourceType::Carbon,
        BasicKind::Silicon => BasicResourceType::Silicon,
    })
}

/// `Combinator::contains`: whether the combinator has a recipe for `kind`.
#[verifier::external_body]
pub fn combinator_has(combinator: &Combinator, kind: ComplexKind) -> (r: bool)
    ensures
        r == combinator_recipes(*combinator).contains(kind),
{
    combinator.contains(match kind {
        ComplexKind::Diamond => ComplexResourceType::Diamond,
        ComplexKind::Water => ComplexResourceType::Water,
        ComplexKind::Life => ComplexResourceType::Life,
        ComplexKind::Robot => ComplexResourceType::Robot,
        ComplexKind::Dolphin => ComplexResourceType::Dolphin,
        ComplexKind::AIPartner => ComplexResourceType::AIPartner,
    })
}

} // verus!

//! The orchestrator's bookkeeping: the galaxy, where each explorer is, the
//! last bag each reported, the events for the window, and fresh ids. The
//! actors themselves (threads and channels) are driven outside the library;
//! each step here is what the orchestrator decides or records around them.

use std::collections::HashMap;

use vstd::prelude::*;

use super::events::{EventBuffer, GuiEvent};
use super::galaxy::Galaxy;
use crate::explorer::{all_resource_kinds, resource_kinds_in_order, BagContent};
use crate::resource::ResourceKind;

verus! {

/// Maximum number of planets allowed in the galaxy.
pub const MAX_PLANETS: usize = 8;

/// A manual orchestrator action requested by the window.
#[derive(Clone, Copy, Debug, PartialEq, Eq, Structural)]
pub enum Command {
    SendSunray { planet: u32 },
    SendAsteroid { planet: u32 },
    MoveExplorer { explorer: u32, dst: u32 },
}

/// Why the orchestrator refused an action.
#[derive(Clone, Copy, Debug, PartialEq, Eq, Structural)]
pub enum OrchestratorError {
    /// The galaxy already holds the maximum number of planets.
    GalaxyFull,
    /// No planet has this id.
    NoSuchPlanet(u32),
    /// No explorer has this id.
    NoSuchExplorer(u32),
    /// The two planets are not neighbours.
    NotConnected(u32, u32),
}

/// The event for one unit of `k` appearing in `explorer`'s bag.
pub open spec fn gain_event(explorer: u32, k: ResourceKind) -> GuiEvent {
    match k {
        ResourceKind::Basic(b) => GuiEvent::BasicGenerated { explorer, resource: b },
        ResourceKind::Complex(c) => GuiEvent::ComplexGenerated { explorer, resource: c },
    }
}

/// Units of `k` gained from `before` to `after` (none if it did not grow).
pub open spec fn gained(before: spec_fn(ResourceKind) -> nat, after: BagContent, k: ResourceKind) -> nat {
    if after.amount(k) > before(k) {
        (after.amount(k) - before(k)) as nat
    } else {
        0
    }
}

/// The events for the units gained, kind after kind in the order of `ks`:
/// one per unit.
pub open spec fn gain_events(
    explorer: u32,
    before: spec_fn(ResourceKind) -> nat,
    after: BagContent,
    ks: Seq<ResourceKind>,
) -> Seq<GuiEvent>
    decreases ks.len(),
{
    if ks.len() == 0 {
        Seq::empty()
    } else {
        gain_events(explorer, before, after, ks.drop_last()) + Seq::new(
            gained(before, after, ks.last()),
            |i: int| gain_event(explorer, ks.last()),
        )
    }
}

/// What the orchestrator keeps track of.
pub struct Orchestrator {
    galaxy: Galaxy,
    /// The explorers, in the order they were added.
    explorer_ids: Vec<u32>,
    /// The planet each explorer is on.
    locations: HashMap<u32, u32>,
    /// The last bag each explorer reported.
    bags: HashMap<u32, BagContent>,
    events: EventBuffer,
    next_id: u32,
}

impl Orchestrator {
    /// The galaxy is fully connected and holds at most `MAX_PLANETS`
    /// planets; each explorer is listed once with a location; every id in use
    /// is below the next one handed out.
    pub closed spec fn wf(self) -> bool {
        &&& self.galaxy.wf()
        &&& self.galaxy.fully_connected()
        &&& self.galaxy.planet_seq().len() <= MAX_PLANETS
        &&& self.explorer_ids@.no_duplicates()
        &&& forall|e: u32| self.locations@.contains_key(e) <==> self.explorer_ids@.contains(e)
        &&& forall|p: u32| #[trigger] self.galaxy.has(p) ==> p < self.next_id
        &&& forall|e: u32| #[trigger] self.explorer_ids@.contains(e) ==> e < self.next_id
        &&& self.next_id >= 1
    }

    pub closed spec fn galaxy_spec(self) -> Galaxy {
        self.galaxy
    }

    /// The explorers, in the order they were added.
    pub closed spec fn explorers_spec(self) -> Seq<u32> {
        self.explorer_ids@
    }

    /// The planet `explorer` is on, if it is known.
    pub closed spec fn location(self, explorer: u32) -> Option<u32> {
        if self.locations@.contains_key(explorer) {
            Some(self.locations@[explorer])
        } else {
            None
        }
    }

    /// The last bag `explorer` reported, if any.
    pub closed spec fn bag_spec(self, explorer: u32) -> Option<BagContent> {
        if self.bags@.contains_key(explorer) {
            Some(self.bags@[explorer])
        } else {
            None
        }
    }

    /// Units of `k` in the last bag `explorer` reported (none without one).
    pub open spec fn reported(self, explorer: u32, k: ResourceKind) -> nat {
        match self.bag_spec(explorer) {
            Some(b) => b.amount(k),
            None => 0,
        }
    }

    /// The events not yet handed to the window, oldest first.
    pub closed spec fn events_spec(self) -> Seq<GuiEvent> {
        self.events@
    }

    pub closed spec fn next_id_spec(self) -> u32 {
        self.next_id
    }

    /// Apart from the events, nothing changed from `o`.
    pub open spec fn same_but_events(self, o: Self) -> bool {
        &&& self.galaxy_spec() == o.galaxy_spec()
        &&& self.explorers_spec() == o.explorers_spec()
        &&& forall|e: u32| #[trigger] self.location(e) == o.location(e)
        &&& forall|e: u32| #[trigger] self.bag_spec(e) == o.bag_spec(e)
        &&& self.next_id_spec() == o.next_id_spec()
    }

    /// No planet, no explorer, no event; the first id handed out is 1.
    pub fn new() -> (o: Self)
        ensures
            o.wf(),
            o.galaxy_spec().planet_seq() == Seq::<u32>::empty(),
            o.explorers_spec() == Seq::<u32>::empty(),
            forall|e: u32| #[trigger] o.location(e) is None && o.bag_spec(e) is None,
            o.events_spec() == Seq::<GuiEvent>::empty(),
            o.next_id_spec() == 1,
    {
        broadcast use vstd::std_specs::hash::group_hash_axioms;

        let o = Orchestrator {
            galaxy: Galaxy::new(),
            explorer_ids: Vec::new(),
            locations: HashMap::new(),
            bags: HashMap::new(),
            events: EventBuffer::new(),
            next_id: 1,
        };
        proof {
            assert forall|e: u32| o.locations@.contains_key(e) <==> o.explorer_ids@.contains(e) by {}
        }
        o
    }

    /// The id the next planet or explorer will get.
    pub fn next_id(&self) -> (r: u32)
        ensures
            r == self.next_id_spec(),
    {
        self.next_id
    }

    /// Whether another planet fits in the galaxy.
    pub fn can_add_planet(&self) -> (r: bool)
        requires
            self.wf(),
        ensures
            r == (self.galaxy_spec().planet_seq().len() < MAX_PLANETS),
    {
        self.galaxy.len() < MAX_PLANETS
    }

    /// Records a new planet, connected to every other, under a fresh id; or
    /// refuses when the galaxy is full.
    pub fn add_planet(&mut self) -> (r: Result<u32, OrchestratorError>)
        requires
            old(self).wf(),
            old(self).next_id_spec() < u32::MAX,
        ensures
            final(self).wf(),
            old(self).galaxy_spec().planet_seq().len() >= MAX_PLANETS ==> r == Err::<u32, OrchestratorError>(
                OrchestratorError::GalaxyFull,
            ) && *final(self) == *old(self),
            old(self).galaxy_spec().planet_seq().len() < MAX_PLANETS ==> {
                &&& r == Ok::<u32, OrchestratorError>(old(self).next_id_spec())
                &&& !old(self).galaxy_spec().has(old(self).next_id_spec())
                &&& final(self).galaxy_spec().planet_seq() == old(self).galaxy_spec().planet_seq().push(
                    old(self).next_id_spec(),
                )
                &&& forall|p: u32| #[trigger] old(self).galaxy_spec().has(p)
                    ==> final(self).galaxy_spec().linked(old(self).next_id_spec(), p)
                    && final(self).galaxy_spec().linked(p, old(self).next_id_spec())
                &&& final(self).next_id_spec() == old(self).next_id_spec() + 1
                &&& final(self).explorers_spec() == old(self).explorers_spec()
                &&& forall|e: u32| #[trigger] final(self).location(e) == old(self).location(e)
                &&& forall|e: u32| #[trigger] final(self).bag_spec(e) == old(self).bag_spec(e)
                &&& final(self).events_spec() == old(self).events_spec()
            },
    {
        if !self.can_add_planet() {
            return Err(OrchestratorError::GalaxyFull);
        }
        let id = self.next_id;
        self.next_id = self.next_id + 1;
        proof {
            assert(!self.galaxy.has(id));
        }
        self.galaxy.add_planet(id);
        proof {
            assert(self.galaxy.planet_seq() == old(self).galaxy.planet_seq().push(id));
            assert forall|p: u32| #[trigger] self.galaxy.has(p) implies p < self.next_id by {
                vstd::seq_lib::lemma_seq_contains_after_push(old(self).galaxy.planet_seq(), id, p);
                assert(old(self).galaxy.has(p) ==> p < old(self).next_id);
            }
        }
        Ok(id)
    }

    /// Records a new explorer, under a fresh id, on `planet`; or refuses when
    /// no such planet exists.
    pub fn add_explorer(&mut self, planet: u32) -> (r: Result<u32, OrchestratorError>)
        requires
            old(self).wf(),
            old(self).next_id_spec() < u32::MAX,
        ensures
            final(self).wf(),
            !old(self).galaxy_spec().has(planet) ==> r == Err::<u32, OrchestratorError>(
                OrchestratorError::NoSuchPlanet(planet),
            ) && *final(self) == *old(self),
            old(self).galaxy_spec().has(planet) ==> {
                let id = old(self).next_id_spec();
                &&& r == Ok::<u32, OrchestratorError>(id)
                &&& !old(self).explorers_spec().contains(id)
                &&& final(self).explorers_spec() == old(self).explorers_spec().push(id)
                &&& final(self).location(id) == Some(planet)
                &&& forall|e: u32| e != id ==> #[trigger] final(self).location(e) == old(self).location(e)
                &&& forall|e: u32| #[trigger] final(self).bag_spec(e) == old(self).bag_spec(e)
                &&& final(self).next_id_spec() == id + 1
                &&& final(self).galaxy_spec() == old(self).galaxy_spec()
                &&& final(self).events_spec() == old(self).events_spec()
            },
    {
        broadcast use vstd::std_specs::hash::group_hash_axioms;
        broadcast use vstd::seq_lib::lemma_seq_contains_after_push;

        if !crate::explorer::travel::contains_planet(&self.galaxy.planets(), planet) {
            return Err(OrchestratorError::NoSuchPlanet(planet));
        }
        let id = self.next_id;
        self.next_id = self.next_id + 1;
        proof {
            assert(!self.explorer_ids@.contains(id));
        }
        let ghost ids0 = self.explorer_ids@;
        self.explorer_ids.push(id);
        self.locations.insert(id, planet);
        proof {
            assert(self.explorer_ids@.no_duplicates()) by {
                assert forall|a: int, b: int| 0 <= a < b < self.explorer_ids@.len() implies self.explorer_ids@[a]
                    != self.explorer_ids@[b] by {
                    if b == self.explorer_ids@.len() - 1 {
                        assert(ids0.contains(self.explorer_ids@[a]));
                    }
                }
            }
            assert forall|e: u32| self.locations@.contains_key(e) <==> self.explorer_ids@.contains(e) by {}
            assert forall|e: u32| #[trigger] self.explorer_ids@.contains(e) implies e < self.next_id by {}
            assert forall|p: u32| #[trigger] self.galaxy.has(p) implies p < self.next_id by {}
        }
        Ok(id)
    }

    /// The planet `explorer` is on, if it is known.
    pub fn explorer_planet(&self, explorer: u32) -> (r: Option<u32>)
        ensures
            r == self.location(explorer),
    {
        broadcast use vstd::std_specs::hash::group_hash_axioms;

        match self.locations.get(&explorer) {
            Some(p) => Some(*p),
            None => None,
        }
    }

    /// The planets of the galaxy, in the order they were added.
    pub fn alive_planets(&self) -> (r: Vec<u32>)
        ensures
            r@ == self.galaxy_spec().planet_seq(),
    {
        self.galaxy.planets()
    }

    /// The explorers, in the order they were added.
    pub fn explorers(&self) -> (r: Vec<u32>)
        ensures
            r@ == self.explorers_spec(),
    {
        self.explorer_ids.clone()
    }

    /// Whether the galaxy holds planet `planet`.
    pub fn has_planet(&self, planet: u32) -> (r: bool)
        ensures
            r == self.galaxy_spec().has(planet),
    {
        crate::explorer::travel::contains_planet(&self.galaxy.planets(), planet)
    }

    /// What moving `explorer` to `dst` takes: an error if the explorer is
    /// unknown or the two planets are not neighbours; nothing if it is there
    /// already; otherwise the planet it leaves.
    pub fn move_plan(&self, explorer: u32, dst: u32) -> (r: Result<Option<u32>, OrchestratorError>)
        ensures
            r == match self.location(explorer) {
                None => Err(OrchestratorError::NoSuchExplorer(explorer)),
                Some(current) => if current == dst {
                    Ok(None)
                } else if !self.galaxy_spec().linked(current, dst) {
                    Err(OrchestratorError::NotConnected(current, dst))
                } else {
                    Ok(Some(current))
                },
            },
    {
        match self.explorer_planet(explorer) {
            None => Err(OrchestratorError::NoSuchExplorer(explorer)),
            Some(current) => {
                if current == dst {
                    Ok(None)
                } else if !self.galaxy.are_connected(current, dst) {
                    Err(OrchestratorError::NotConnected(current, dst))
                } else {
                    Ok(Some(current))
                }
            },
        }
    }

    /// Where to move `explorer` on its own: the first planet of the galaxy
    /// that is not the one it is on (none if there is no other); an error if
    /// the explorer is unknown.
    pub fn auto_destination(&self, explorer: u32) -> (r: Result<Option<u32>, OrchestratorError>)
        ensures
            match self.location(explorer) {
                None => r == Err::<Option<u32>, OrchestratorError>(OrchestratorError::NoSuchExplorer(explorer)),
                Some(current) => match r {
                    Ok(Some(p)) => exists|i: int|
                        0 <= i < self.galaxy_spec().planet_seq().len() && self.galaxy_spec().planet_seq()[i] == p
                            && p != current && forall|j: int|
                            0 <= j < i ==> #[trigger] self.galaxy_spec().planet_seq()[j] == current,
                    Ok(None) => forall|j: int|
                        0 <= j < self.galaxy_spec().planet_seq().len() ==> #[trigger] self.galaxy_spec().planet_seq()[j]
                            == current,
                    Err(_) => false,
                },
            },
    {
        match self.explorer_planet(explorer) {
            None => Err(OrchestratorError::NoSuchExplorer(explorer)),
            Some(current) => {
                let planets = self.galaxy.planets();
                for i in 0..planets.len()
                    invariant
                        planets@ == self.galaxy_spec().planet_seq(),
                        self.location(explorer) == Some(current),
                        forall|j: int| 0 <= j < i ==> #[trigger] planets@[j] == current,
                {
                    if planets[i] != current {
                        return Ok(Some(planets[i]));
                    }
                }
                Ok(None)
            },
        }
    }

    /// `explorer` is now on `dst`; the window is told.
    pub fn explorer_moved(&mut self, explorer: u32, dst: u32)
        requires
            old(self).wf(),
            old(self).location(explorer) is Some,
        ensures
            final(self).wf(),
            final(self).location(explorer) == Some(dst),
            forall|e: u32| e != explorer ==> #[trigger] final(self).location(e) == old(self).location(e),
            final(self).events_spec() == old(self).events_spec().push(
                GuiEvent::ExplorerMoved { explorer, to: dst },
            ),
            final(self).galaxy_spec() == old(self).galaxy_spec(),
            final(self).explorers_spec() == old(self).explorers_spec(),
            forall|e: u32| #[trigger] final(self).bag_spec(e) == old(self).bag_spec(e),
            final(self).next_id_spec() == old(self).next_id_spec(),
    {
        broadcast use vstd::std_specs::hash::group_hash_axioms;

        self.locations.insert(explorer, dst);
        self.events.push(GuiEvent::ExplorerMoved { explorer, to: dst });
        proof {
            assert forall|e: u32| self.locations@.contains_key(e) <==> self.explorer_ids@.contains(e) by {}
        }
    }

    /// `explorer` is gone.
    pub fn explorer_removed(&mut self, explorer: u32)
        requires
            old(self).wf(),
        ensures
            final(self).wf(),
            final(self).location(explorer) is None,
            !final(self).explorers_spec().contains(explorer),
            final(self).explorers_spec() == old(self).explorers_spec().filter(|e: u32| e != explorer),
            forall|e: u32| e != explorer ==> #[trigger] final(self).location(e) == old(self).location(e),
            final(self).galaxy_spec() == old(self).galaxy_spec(),
            forall|e: u32| #[trigger] final(self).bag_spec(e) == old(self).bag_spec(e),
            final(self).events_spec() == old(self).events_spec(),
            final(self).next_id_spec() == old(self).next_id_spec(),
    {
        broadcast use vstd::std_specs::hash::group_hash_axioms;

        let ghost keep = |e: u32| e != explorer;
        let mut ids: Vec<u32> = Vec::new();
        for i in 0..self.explorer_ids.len()
            invariant
                self.explorer_ids@.no_duplicates(),
                keep == (|e: u32| e != explorer),
                ids@ == self.explorer_ids@.take(i as int).filter(keep),
                ids@.no_duplicates(),
                forall|x: u32| #[trigger] ids@.contains(x) <==> self.explorer_ids@.take(i as int).contains(x) && x != explorer,
        {
            let e = self.explorer_ids[i];
            proof {
                broadcast use vstd::seq_lib::lemma_seq_contains_after_push;

                assert(self.explorer_ids@.take(i + 1) =~= self.explorer_ids@.take(i as int).push(e));
                self.explorer_ids@.take(i as int).lemma_filter_push(e, keep);
                assert(!self.explorer_ids@.take(i as int).contains(e)) by {
                    if self.explorer_ids@.take(i as int).contains(e) {
                        let k = choose|k: int| 0 <= k < i && self.explorer_ids@.take(i as int)[k] == e;
                        assert(self.explorer_ids@[k] == self.explorer_ids@[i as int]);
                    }
                }
            }
            if e != explorer {
                let ghost before = ids@;
                ids.push(e);
                proof {
                    broadcast use vstd::seq_lib::lemma_seq_contains_after_push;

                    assert forall|a: int, b: int| 0 <= a < b < ids@.len() implies ids@[a] != ids@[b] by {
                        if b == ids@.len() - 1 {
                            assert(before.contains(ids@[a]));
                        }
                    }
                }
            }
        }
        proof {
            assert(self.explorer_ids@.take(self.explorer_ids.len() as int) =~= self.explorer_ids@);
        }
        self.explorer_ids = ids;
        self.locations.remove(&explorer);
        proof {
            assert forall|e: u32| self.locations@.contains_key(e) <==> self.explorer_ids@.contains(e) by {}
            assert forall|e: u32| #[trigger] self.explorer_ids@.contains(e) implies e < self.next_id by {
                assert(old(self).explorer_ids@.contains(e));
            }
        }
    }

    /// The neighbours of `planet`: every other planet of the galaxy, in the
    /// order they were added (none if `planet` is not in the galaxy).
    pub fn neighbours(&self, planet: u32) -> (r: Vec<u32>)
        requires
            self.wf(),
        ensures
            r@ == self.galaxy_spec().planet_seq().filter(|p: u32| self.galaxy_spec().linked(planet, p)),
            forall|p: u32|
                #[trigger] r@.contains(p) <==> (self.galaxy_spec().has(planet) && self.galaxy_spec().has(p)
                    && p != planet),
    {
        let r = self.galaxy.neighbours(planet);
        proof {
            broadcast use vstd::seq_lib::group_filter_ensures;

            assert forall|p: u32|
                #[trigger] r@.contains(p) <==> (self.galaxy.has(planet) && self.galaxy.has(p) && p != planet) by {
                if self.galaxy.has(planet) && self.galaxy.has(p) && p != planet {
                    let i = self.galaxy.planet_seq().index_of(p);
                    assert(self.galaxy.planet_seq()[i] == p);
                }
            }
        }
        r
    }

    /// The explorers on `planet`, in the order they were added.
    pub fn explorers_on(&self, planet: u32) -> (r: Vec<u32>)
        requires
            self.wf(),
        ensures
            r@ == self.explorers_spec().filter(|e: u32| self.location(e) == Some(planet)),
    {
        broadcast use vstd::std_specs::hash::group_hash_axioms;

        let ghost on = |e: u32| self.location(e) == Some(planet);
        let mut r: Vec<u32> = Vec::new();
        for i in 0..self.explorer_ids.len()
            invariant
                on == (|e: u32| self.location(e) == Some(planet)),
                r@ == self.explorer_ids@.take(i as int).filter(on),
        {
            let e = self.explorer_ids[i];
            proof {
                assert(self.explorer_ids@.take(i + 1) =~= self.explorer_ids@.take(i as int).push(e));
                self.explorer_ids@.take(i as int).lemma_filter_push(e, on);
            }
            if self.explorer_planet(e) == Some(planet) {
                r.push(e);
            }
        }
        proof {
            assert(self.explorer_ids@.take(self.explorer_ids.len() as int) =~= self.explorer_ids@);
        }
        r
    }

    /// A sunray reached `planet`; the window is told.
    pub fn sunray_delivered(&mut self, planet: u32)
        requires
            old(self).wf(),
        ensures
            final(self).wf(),
            final(self).same_but_events(*old(self)),
            final(self).events_spec() == old(self).events_spec().push(GuiEvent::SunrayReceived { planet }),
    {
        self.events.push(GuiEvent::SunrayReceived { planet });
    }

    /// `planet` deflected an asteroid; the window is told.
    pub fn asteroid_deflected(&mut self, planet: u32)
        requires
            old(self).wf(),
        ensures
            final(self).wf(),
            final(self).same_but_events(*old(self)),
            final(self).events_spec() == old(self).events_spec().push(GuiEvent::AsteroidDeflected { planet }),
    {
        self.events.push(GuiEvent::AsteroidDeflected { planet });
    }

    /// `planet` was hit without a rocket: it leaves the galaxy, with every
    /// link to it. The galaxy stays fully connected.
    pub fn planet_lost(&mut self, planet: u32)
        requires
            old(self).wf(),
        ensures
            final(self).wf(),
            forall|p: u32| #[trigger] final(self).galaxy_spec().has(p) == (old(self).galaxy_spec().has(p) && p != planet),
            final(self).galaxy_spec().fully_connected(),
            final(self).explorers_spec() == old(self).explorers_spec(),
            forall|e: u32| #[trigger] final(self).location(e) == old(self).location(e),
            forall|e: u32| #[trigger] final(self).bag_spec(e) == old(self).bag_spec(e),
            final(self).events_spec() == old(self).events_spec(),
            final(self).next_id_spec() == old(self).next_id_spec(),
    {
        let ghost g0 = self.galaxy;
        self.galaxy.remove_planet(planet);
        proof {
            assert(self.galaxy.planet_seq().len() <= g0.planet_seq().len()) by {
                broadcast use vstd::seq_lib::group_filter_ensures;
            }
            assert forall|p: u32| #[trigger] self.galaxy.has(p) implies p < self.next_id by {
                assert(g0.has(p));
            }
        }
    }

    /// The destroyed planet was shut down; the window is told.
    pub fn planet_destroyed(&mut self, planet: u32)
        requires
            old(self).wf(),
        ensures
            final(self).wf(),
            final(self).same_but_events(*old(self)),
            final(self).events_spec() == old(self).events_spec().push(GuiEvent::PlanetDestroyed { planet }),
    {
        self.events.push(GuiEvent::PlanetDestroyed { planet });
    }

    /// Where to relocate an explorer stranded by a destroyed planet: the
    /// first planet of the galaxy, if any is left.
    pub fn relocation_target(&self) -> (r: Option<u32>)
        ensures
            r == if self.galaxy_spec().planet_seq().len() > 0 {
                Some(self.galaxy_spec().planet_seq()[0])
            } else {
                None::<u32>
            },
    {
        let planets = self.galaxy.planets();
        if planets.len() > 0 {
            Some(planets[0])
        } else {
            None
        }
    }

    /// What becomes of the explorers stranded on `planet` once it is
    /// destroyed, in the order they were added: each moves to the planet
    /// `relocation_target` names, or is killed (`None`) when no planet is left.
    pub fn stranded_moves(&self, planet: u32) -> (r: Vec<(u32, Option<u32>)>)
        requires
            self.wf(),
        ensures
            r@.len() == self.explorers_spec().filter(|e: u32| self.location(e) == Some(planet)).len(),
            forall|i: int|
                0 <= i < r@.len() ==> #[trigger] r@[i] == (
                    self.explorers_spec().filter(|e: u32| self.location(e) == Some(planet))[i],
                    if self.galaxy_spec().planet_seq().len() > 0 {
                        Some(self.galaxy_spec().planet_seq()[0])
                    } else {
                        None::<u32>
                    },
                ),
    {
        let on = self.explorers_on(planet);
        let dst = self.relocation_target();
        let mut r: Vec<(u32, Option<u32>)> = Vec::new();
        for i in 0..on.len()
            invariant
                r@.len() == i,
                forall|j: int| 0 <= j < i ==> #[trigger] r@[j] == (on@[j], dst),
        {
            r.push((on[i], dst));
        }
        r
    }

    /// The last bag `explorer` reported, if any.
    pub fn bag(&self, explorer: u32) -> (r: Option<BagContent>)
        ensures
            r == self.bag_spec(explorer),
    {
        broadcast use vstd::std_specs::hash::group_hash_axioms;

        match self.bags.get(&explorer) {
            Some(b) => Some(*b),
            None => None,
        }
    }

    /// Records the bag `explorer` just reported, telling the window of each
    /// unit that appeared since its last report (kind after kind, in
    /// declaration order).
    pub fn record_bag(&mut self, explorer: u32, content: BagContent)
        requires
            old(self).wf(),
        ensures
            final(self).wf(),
            final(self).bag_spec(explorer) == Some(content),
            forall|e: u32| e != explorer ==> #[trigger] final(self).bag_spec(e) == old(self).bag_spec(e),
            final(self).events_spec() == old(self).events_spec() + gain_events(
                explorer,
                |k: ResourceKind| old(self).reported(explorer, k),
                content,
                resource_kinds_in_order(),
            ),
            final(self).galaxy_spec() == old(self).galaxy_spec(),
            final(self).explorers_spec() == old(self).explorers_spec(),
            forall|e: u32| #[trigger] final(self).location(e) == old(self).location(e),
            final(self).next_id_spec() == old(self).next_id_spec(),
    {
        broadcast use vstd::std_specs::hash::group_hash_axioms;

        let ghost before = |k: ResourceKind| old(self).reported(explorer, k);
        let ghost events0 = self.events@;
        let prior = self.bag(explorer);
        let kinds = all_resource_kinds();
        for i in 0..kinds.len()
            invariant
                kinds@ == resource_kinds_in_order(),
                before == (|k: ResourceKind| old(self).reported(explorer, k)),
                prior == old(self).bag_spec(explorer),
                self.bags == old(self).bags,
                self.galaxy == old(self).galaxy,
                self.explorer_ids == old(self).explorer_ids,
                self.locations == old(self).locations,
                self.next_id == old(self).next_id,
                self.events@ == events0 + gain_events(explorer, before, content, kinds@.take(i as int)),
        {
            let k = kinds[i];
            let new_n: usize = content.count(k);
            let old_n: usize = match prior {
                Some(b) => b.count(k),
                None => 0,
            };
            proof {
                assert(kinds@.take(i + 1).drop_last() =~= kinds@.take(i as int));
                assert(new_n == content.amount(k));
                assert(old_n == before(k));
            }
            let event = match k {
                ResourceKind::Basic(b) => GuiEvent::BasicGenerated { explorer, resource: b },
                ResourceKind::Complex(c) => GuiEvent::ComplexGenerated { explorer, resource: c },
            };
            let ghost mid = self.events@;
            if new_n > old_n {
                let mut j = old_n;
                while j < new_n
                    invariant
                        old_n <= j <= new_n,
                        self.bags == old(self).bags,
                        self.galaxy == old(self).galaxy,
                        self.explorer_ids == old(self).explorer_ids,
                        self.locations == old(self).locations,
                        self.next_id == old(self).next_id,
                        self.events@ == mid + Seq::new((j - old_n) as nat, |t: int| event),
                    decreases new_n - j,
                {
                    self.events.push(event);
                    j = j + 1;
                    proof {
                        assert(self.events@ =~= mid + Seq::new((j - old_n) as nat, |t: int| event));
                    }
                }
            }
            proof {
                assert(event == gain_event(explorer, k));
                assert(Seq::new((if new_n > old_n { new_n - old_n } else { 0 }) as nat, |t: int| event) =~= Seq::new(
                    gained(before, content, kinds@.take(i + 1).last()),
                    |t: int| gain_event(explorer, kinds@.take(i + 1).last()),
                ));
                assert(self.events@ =~= events0 + gain_events(explorer, before, content, kinds@.take(i + 1)));
            }
        }
        proof {
            assert(kinds@.take(kinds@.len() as int) =~= kinds@);
        }
        self.bags.insert(explorer, content);
    }

    /// Removes and returns the events not yet handed to the window, oldest
    /// first.
    pub fn drain_events(&mut self) -> (r: Vec<GuiEvent>)
        requires
            old(self).wf(),
        ensures
            final(self).wf(),
            r@ == old(self).events_spec(),
            final(self).events_spec() == Seq::<GuiEvent>::empty(),
            final(self).same_but_events(*old(self)),
    {
        self.events.drain()
    }
}

} // verus!

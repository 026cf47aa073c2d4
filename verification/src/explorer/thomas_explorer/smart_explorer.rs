//! Autonomous explorer: an obsessive Diamond collector.
//!
//! Each turn it makes one move toward a Diamond: mine a Carbon, or fuse two
//! Carbons (Diamond = Carbon + Carbon). If the planet cannot help, it travels
//! on. After [`TARGET_DIAMONDS`] Diamonds it stops crafting and just roams.
//! This module holds the explorer's state and its decisions; the messages are
//! exchanged by the caller.

use vstd::prelude::*;

use crate::explorer::inventory::Inventory;
use crate::explorer::marco_explorer::bag::Item;
use crate::explorer::marco_explorer::recipes::{request_slots, Request};
use crate::explorer::smart_explorer::{item_fits, slot_uses, take_ingredients, took_slots};
use crate::explorer::travel::{contains_planet, has_unvisited, is_first_unvisited, pick_destination};
use crate::explorer::BagContent;
use crate::resource::{BasicKind, BasicSet, ComplexKind, ComplexSet, ResourceKind};

verus! {

/// Diamonds to collect before going idle.
pub const TARGET_DIAMONDS: usize = 5;

/// This turn's move.
#[derive(Clone, Copy, Debug, PartialEq, Eq, Structural)]
pub enum Move {
    /// Fuse two Carbons into a Diamond.
    Forge,
    /// Mine one Carbon.
    Mine,
    /// Planet useless or collection done: travel.
    Wander,
}

/// The Diamond collector's state, apart from its channels.
pub struct SmartExplorer<B, C> {
    id: u32,
    current_planet: u32,
    inventory: Inventory<B, C>,
    gens: BasicSet,
    combos: ComplexSet,
    caps_known: bool,
    visited: Vec<u32>,
    travel_seq: usize,
}

impl<B, C> SmartExplorer<B, C> {
    pub closed spec fn id_spec(self) -> u32 {
        self.id
    }

    pub closed spec fn planet(self) -> u32 {
        self.current_planet
    }

    pub closed spec fn inventory_spec(self) -> Inventory<B, C> {
        self.inventory
    }

    pub open spec fn amount(self, k: ResourceKind) -> nat {
        self.inventory_spec().amount(k)
    }

    pub closed spec fn gens_spec(self) -> BasicSet {
        self.gens
    }

    pub closed spec fn combos_spec(self) -> ComplexSet {
        self.combos
    }

    pub closed spec fn caps_known_spec(self) -> bool {
        self.caps_known
    }

    pub closed spec fn visited_spec(self) -> Seq<u32> {
        self.visited@
    }

    pub closed spec fn travel_seq_spec(self) -> usize {
        self.travel_seq
    }

    /// A collector with an empty bag on `current_planet`, which counts as
    /// visited; the planet's capabilities are not known yet.
    pub fn new(id: u32, current_planet: u32) -> (e: Self)
        ensures
            e.id_spec() == id,
            e.planet() == current_planet,
            forall|k: ResourceKind| e.amount(k) == 0,
            !e.caps_known_spec(),
            e.visited_spec() == seq![current_planet],
            e.travel_seq_spec() == 0,
    {
        let mut visited = Vec::new();
        visited.push(current_planet);
        SmartExplorer {
            id,
            current_planet,
            inventory: Inventory::new(),
            gens: BasicSet::new(),
            combos: ComplexSet::new(),
            caps_known: false,
            visited,
            travel_seq: 0,
        }
    }

    pub fn id(&self) -> (r: u32)
        ensures
            r == self.id_spec(),
    {
        self.id
    }

    pub fn current_planet(&self) -> (r: u32)
        ensures
            r == self.planet(),
    {
        self.current_planet
    }

    pub fn caps_known(&self) -> (r: bool)
        ensures
            r == self.caps_known_spec(),
    {
        self.caps_known
    }

    pub fn gens(&self) -> (r: BasicSet)
        ensures
            r == self.gens_spec(),
    {
        self.gens
    }

    pub fn combos(&self) -> (r: ComplexSet)
        ensures
            r == self.combos_spec(),
    {
        self.combos
    }

    /// Records the current planet's capabilities, as discovered.
    pub fn set_caps(&mut self, gens: BasicSet, combos: ComplexSet)
        ensures
            final(self).gens_spec() == gens,
            final(self).combos_spec() == combos,
            final(self).caps_known_spec(),
            final(self).inventory_spec() == old(self).inventory_spec(),
            final(self).planet() == old(self).planet(),
            final(self).visited_spec() == old(self).visited_spec(),
            final(self).travel_seq_spec() == old(self).travel_seq_spec(),
    {
        self.gens = gens;
        self.combos = combos;
        self.caps_known = true;
    }

    pub fn count(&self, resource: ResourceKind) -> (n: usize)
        ensures
            n == self.amount(resource),
    {
        self.inventory.count(resource)
    }

    /// This turn's move, from the bag and the planet's capabilities, checked
    /// in this order: the collection is complete (roam); two Carbons in hand
    /// and a forge here (forge); Carbon needed and minable here (mine); the
    /// planet cannot help (roam). Every other resource is ignored.
    pub open spec fn decide_spec(self) -> Move {
        if self.amount(ResourceKind::Complex(ComplexKind::Diamond)) >= TARGET_DIAMONDS {
            Move::Wander
        } else if self.combos_spec().has(ComplexKind::Diamond) && self.amount(
            ResourceKind::Basic(BasicKind::Carbon),
        ) >= 2 {
            Move::Forge
        } else if self.gens_spec().has(BasicKind::Carbon) && self.amount(
            ResourceKind::Basic(BasicKind::Carbon),
        ) < 2 {
            Move::Mine
        } else {
            Move::Wander
        }
    }

    /// What each move needs and when it is owed: it forges only where the
    /// planet combines Diamonds and two Carbons are in hand, and always then
    /// while the collection is incomplete; it mines only where the planet
    /// generates Carbon and fewer than two are held, and always then unless
    /// it can forge; it roams once the collection is complete.
    pub proof fn lemma_decide(self)
        ensures
            ({
                let carbon = self.amount(ResourceKind::Basic(BasicKind::Carbon));
                let done = self.amount(ResourceKind::Complex(ComplexKind::Diamond)) >= TARGET_DIAMONDS;
                let forge_here = self.combos_spec().has(ComplexKind::Diamond) && carbon >= 2;
                let mine_here = self.gens_spec().has(BasicKind::Carbon) && carbon < 2;
                &&& self.decide_spec() == Move::Forge ==> forge_here && !done
                &&& self.decide_spec() == Move::Mine ==> mine_here && !done
                &&& done ==> self.decide_spec() == Move::Wander
                &&& !done && forge_here ==> self.decide_spec() == Move::Forge
                &&& !done && mine_here ==> self.decide_spec() == Move::Mine
            }),
    {
    }

    /// Picks this turn's move from the bag and the planet's capabilities.
    pub fn decide(&self) -> (m: Move)
        ensures
            m == self.decide_spec(),
            m == Move::Forge ==> self.combos_spec().has(ComplexKind::Diamond) && self.amount(
                ResourceKind::Basic(BasicKind::Carbon),
            ) >= 2,
            m == Move::Mine ==> self.gens_spec().has(BasicKind::Carbon) && self.amount(
                ResourceKind::Basic(BasicKind::Carbon),
            ) < 2,
    {
        proof {
            self.lemma_decide();
        }
        if self.count(ResourceKind::Complex(ComplexKind::Diamond)) >= TARGET_DIAMONDS {
            return Move::Wander;
        }
        if self.combos.contains(ComplexKind::Diamond) && self.count(ResourceKind::Basic(BasicKind::Carbon)) >= 2 {
            return Move::Forge;
        }
        if self.gens.contains(BasicKind::Carbon) && self.count(ResourceKind::Basic(BasicKind::Carbon)) < 2 {
            return Move::Mine;
        }
        Move::Wander
    }

    /// Where to travel among `neighbours`: the first one not visited yet,
    /// otherwise the next one in rotation.
    pub fn choose_destination(&mut self, neighbours: &Vec<u32>) -> (dst: u32)
        requires
            neighbours@.len() > 0,
            old(self).travel_seq_spec() < usize::MAX,
        ensures
            has_unvisited(neighbours@, old(self).visited_spec()) ==> exists|i: int|
                is_first_unvisited(neighbours@, old(self).visited_spec(), i) && dst == neighbours@[i]
                    && final(self).travel_seq_spec() == old(self).travel_seq_spec(),
            !has_unvisited(neighbours@, old(self).visited_spec()) ==> {
                &&& dst == neighbours@[(old(self).travel_seq_spec() as int) % (neighbours@.len() as int)]
                &&& final(self).travel_seq_spec() == old(self).travel_seq_spec() + 1
            },
            final(self).inventory_spec() == old(self).inventory_spec(),
            final(self).planet() == old(self).planet(),
            final(self).caps_known_spec() == old(self).caps_known_spec(),
            final(self).gens_spec() == old(self).gens_spec(),
            final(self).combos_spec() == old(self).combos_spec(),
            final(self).visited_spec() == old(self).visited_spec(),
    {
        pick_destination(neighbours, &self.visited, &mut self.travel_seq)
    }

    pub fn travel_seq(&self) -> (r: usize)
        ensures
            r == self.travel_seq_spec(),
    {
        self.travel_seq
    }

    /// Resets the state after landing on `planet`: it is now visited and its
    /// capabilities are unknown.
    pub fn arrive(&mut self, planet: u32)
        ensures
            final(self).planet() == planet,
            final(self).visited_spec().contains(planet),
            forall|p: u32| old(self).visited_spec().contains(p) ==> final(self).visited_spec().contains(p),
            !final(self).caps_known_spec(),
            forall|b: BasicKind| !final(self).gens_spec().has(b),
            forall|c: ComplexKind| !final(self).combos_spec().has(c),
            final(self).inventory_spec() == old(self).inventory_spec(),
            final(self).travel_seq_spec() == old(self).travel_seq_spec(),
    {
        self.current_planet = planet;
        if !contains_planet(&self.visited, planet) {
            let ghost before = self.visited@;
            self.visited.push(planet);
            proof {
                assert(self.visited@[before.len() as int] == planet);
                assert forall|p: u32| before.contains(p) implies self.visited@.contains(p) by {
                    let i = choose|i: int| 0 <= i < before.len() && before[i] == p;
                    assert(self.visited@[i] == p);
                }
            }
        }
        self.caps_known = false;
        self.gens = BasicSet::new();
        self.combos = ComplexSet::new();
    }

    /// Empties the bag and forgets the planet's capabilities.
    pub fn reset(&mut self)
        ensures
            forall|k: ResourceKind| final(self).amount(k) == 0,
            !final(self).caps_known_spec(),
            forall|b: BasicKind| !final(self).gens_spec().has(b),
            forall|c: ComplexKind| !final(self).combos_spec().has(c),
            final(self).planet() == old(self).planet(),
            final(self).visited_spec() == old(self).visited_spec(),
    {
        self.inventory.clear();
        self.caps_known = false;
        self.gens = BasicSet::new();
        self.combos = ComplexSet::new();
    }

    /// Stores a basic resource the planet generated.
    pub fn store_basic(&mut self, kind: BasicKind, resource: B)
        ensures
            forall|k: ResourceKind|
                #[trigger] final(self).amount(k) == old(self).amount(k) + if k == ResourceKind::Basic(kind) {
                    1nat
                } else {
                    0nat
                },
            final(self).planet() == old(self).planet(),
            final(self).caps_known_spec() == old(self).caps_known_spec(),
            final(self).gens_spec() == old(self).gens_spec(),
            final(self).combos_spec() == old(self).combos_spec(),
            final(self).visited_spec() == old(self).visited_spec(),
            final(self).travel_seq_spec() == old(self).travel_seq_spec(),
    {
        self.inventory.push_basic(kind, resource);
    }

    /// Stores a complex resource the planet combined.
    pub fn store_complex(&mut self, kind: ComplexKind, resource: C)
        ensures
            forall|k: ResourceKind|
                #[trigger] final(self).amount(k) == old(self).amount(k) + if k == ResourceKind::Complex(kind) {
                    1nat
                } else {
                    0nat
                },
            final(self).planet() == old(self).planet(),
            final(self).caps_known_spec() == old(self).caps_known_spec(),
            final(self).gens_spec() == old(self).gens_spec(),
            final(self).combos_spec() == old(self).combos_spec(),
            final(self).visited_spec() == old(self).visited_spec(),
            final(self).travel_seq_spec() == old(self).travel_seq_spec(),
    {
        self.inventory.push_complex(kind, resource);
    }

    /// Puts back an ingredient the planet returned after a failed combination.
    pub fn restore(&mut self, kind: ResourceKind, item: Item<B, C>)
        requires
            item_fits(item, kind),
        ensures
            forall|k: ResourceKind|
                #[trigger] final(self).amount(k) == old(self).amount(k) + if k == kind { 1nat } else { 0nat },
            final(self).planet() == old(self).planet(),
            final(self).caps_known_spec() == old(self).caps_known_spec(),
            final(self).gens_spec() == old(self).gens_spec(),
            final(self).combos_spec() == old(self).combos_spec(),
            final(self).visited_spec() == old(self).visited_spec(),
            final(self).travel_seq_spec() == old(self).travel_seq_spec(),
    {
        self.inventory.restore(kind, item);
    }

    /// Takes the ingredients for `target` out of the bag and builds the
    /// request; `None` (bag untouched) if any is missing. Covers every recipe
    /// so the manual "combine" command works for any resource.
    pub fn build_request(&mut self, target: ComplexKind) -> (r: Option<Request<B, C>>)
        ensures
            ({
                let (a, b) = request_slots(target);
                r is Some <==> if a == b {
                    old(self).amount(a) >= 2
                } else {
                    old(self).amount(a) >= 1 && old(self).amount(b) >= 1
                }
            }),
            r is None ==> final(self).inventory_spec() == old(self).inventory_spec(),
            r matches Some(req) ==> {
                &&& req.target == target
                &&& item_fits(req.first, request_slots(target).0)
                &&& item_fits(req.second, request_slots(target).1)
                &&& forall|k: ResourceKind|
                    #[trigger] final(self).amount(k) + slot_uses(target, k) == old(self).amount(k)
                &&& took_slots(old(self).inventory_spec(), final(self).inventory_spec(), target, req.first, req.second)
            },
            final(self).planet() == old(self).planet(),
            final(self).caps_known_spec() == old(self).caps_known_spec(),
            final(self).gens_spec() == old(self).gens_spec(),
            final(self).combos_spec() == old(self).combos_spec(),
            final(self).visited_spec() == old(self).visited_spec(),
            final(self).travel_seq_spec() == old(self).travel_seq_spec(),
    {
        take_ingredients(&mut self.inventory, target)
    }

    /// The bag's contents, as counts.
    pub fn bag(&self) -> (content: BagContent)
        ensures
            forall|k: ResourceKind| content.amount(k) == self.amount(k),
    {
        self.inventory.content()
    }
}

} // verus!

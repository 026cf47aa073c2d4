//! What the explorer has learned about the galaxy, built up as it visits
//! planets.

use std::collections::HashMap;

use vstd::prelude::*;

use crate::resource::{BasicSet, ComplexSet};

verus! {

/// What the explorer knows of one planet.
#[derive(Debug)]
pub struct PlanetKnowledge {
    pub id: u32,
    /// The planets it is connected to (each once).
    pub neighbors: Vec<u32>,
    /// The basic resources it generates.
    pub basics: BasicSet,
    /// The complex resources it combines.
    pub combinations: ComplexSet,
    /// Charged energy cells last observed.
    pub charged_cells: u32,
    /// Its capabilities have been queried.
    pub visited: bool,
    /// Destroyed or stopped: excluded from travel and planning.
    pub dead: bool,
}

impl PlanetKnowledge {
    /// The record of planet `id` holds nothing learned yet: no neighbours,
    /// no resources, no charge seen, not queried, not dead.
    pub open spec fn fresh(self, id: u32) -> bool {
        &&& self.id == id
        &&& self.neighbors@ == Seq::<u32>::empty()
        &&& forall|b| !self.basics.has(b)
        &&& forall|c| !self.combinations.has(c)
        &&& self.charged_cells == 0
        &&& !self.visited
        &&& !self.dead
    }

    /// Nothing known yet of planet `id`.
    pub fn new(id: u32) -> (p: Self)
        ensures
            p.id == id,
            p.neighbors@ == Seq::<u32>::empty(),
            forall|b| !p.basics.has(b),
            forall|c| !p.combinations.has(c),
            p.charged_cells == 0,
            !p.visited,
            !p.dead,
    {
        PlanetKnowledge {
            id,
            neighbors: Vec::new(),
            basics: BasicSet::new(),
            combinations: ComplexSet::new(),
            charged_cells: 0,
            visited: false,
            dead: false,
        }
    }
}

/// A piece of what is known of a planet.
#[derive(Clone, Copy, Debug, PartialEq, Eq, Structural)]
pub enum Field {
    Neighbors,
    Basics,
    Combinations,
    ChargedCells,
    Visited,
    Dead,
}

/// `n`, the record of planet `id` after an update, differs from what
/// `before` knew of it (a fresh record, if `before` did not know the planet)
/// at most in the pieces of `changed`.
pub open spec fn changed_only(n: PlanetKnowledge, before: ExplorerKnowledge, id: u32, changed: Set<Field>) -> bool {
    let known = before@.contains_key(id);
    let o = before@[id];
    &&& n.id == id
    &&& !changed.contains(Field::Neighbors) ==> if known {
        n.neighbors@ == o.neighbors@
    } else {
        n.neighbors@ == Seq::<u32>::empty()
    }
    &&& !changed.contains(Field::Basics) ==> if known {
        n.basics == o.basics
    } else {
        forall|b| !n.basics.has(b)
    }
    &&& !changed.contains(Field::Combinations) ==> if known {
        n.combinations == o.combinations
    } else {
        forall|c| !n.combinations.has(c)
    }
    &&& !changed.contains(Field::ChargedCells) ==> n.charged_cells == if known {
        o.charged_cells
    } else {
        0
    }
    &&& !changed.contains(Field::Visited) ==> n.visited == (known && o.visited)
    &&& !changed.contains(Field::Dead) ==> n.dead == (known && o.dead)
}

/// Where the explorer's strategy stands.
#[derive(Clone, Copy, Debug, PartialEq, Eq, Structural)]
pub enum StrategyState {
    Exploring,
    Collecting,
    Crafting,
    Done,
}

/// Everything known of the galaxy, by planet id. Planets are remembered in
/// the order they were first heard of.
pub struct ExplorerKnowledge {
    planets: HashMap<u32, PlanetKnowledge>,
    order: Vec<u32>,
}

impl ExplorerKnowledge {
    /// The order of ids lists exactly the known planets, each once, and each
    /// record carries its own id.
    pub closed spec fn wf(self) -> bool {
        &&& self.order@.no_duplicates()
        &&& forall|id: u32| self.planets@.contains_key(id) <==> self.order@.contains(id)
        &&& forall|id: u32| self.planets@.contains_key(id) ==> (#[trigger] self.planets@[id]).id == id
    }

    /// The known planets, by id.
    pub closed spec fn view(self) -> Map<u32, PlanetKnowledge> {
        self.planets@
    }

    /// The known planets' ids, in the order they were first heard of.
    pub closed spec fn ids(self) -> Seq<u32> {
        self.order@
    }

    /// Planet `id` is known and its capabilities have been queried.
    pub open spec fn visited_spec(self, id: u32) -> bool {
        self@.contains_key(id) && self@[id].visited
    }

    /// Planet `id` is known to be destroyed.
    pub open spec fn dead_spec(self, id: u32) -> bool {
        self@.contains_key(id) && self@[id].dead
    }

    /// The neighbours known of planet `id` (none if it is unknown).
    pub open spec fn neighbors_of(self, id: u32) -> Seq<u32> {
        if self@.contains_key(id) {
            self@[id].neighbors@
        } else {
            Seq::empty()
        }
    }

    /// Apart from the record of planet `id`, which it holds, `self` knows
    /// what `o` knew, in the same order (with `id` last if it is new).
    pub open spec fn same_but(self, o: Self, id: u32) -> bool {
        &&& self@.contains_key(id)
        &&& forall|x: u32| x != id ==> (o@.contains_key(x) <==> self@.contains_key(x))
        &&& forall|x: u32| x != id && o@.contains_key(x) ==> self@[x] == o@[x]
        &&& self.ids() == if o@.contains_key(id) {
            o.ids()
        } else {
            o.ids().push(id)
        }
    }

    /// The ids list each known planet exactly once.
    pub proof fn lemma_ids(self)
        requires
            self.wf(),
        ensures
            self.ids().no_duplicates(),
            forall|id: u32| self@.contains_key(id) <==> self.ids().contains(id),
    {
    }

    /// Knows nothing.
    pub fn new() -> (k: Self)
        ensures
            k.wf(),
            k@ == Map::<u32, PlanetKnowledge>::empty(),
            k.ids() == Seq::<u32>::empty(),
    {
        broadcast use vstd::std_specs::hash::group_hash_axioms;

        let k = ExplorerKnowledge { planets: HashMap::new(), order: Vec::new() };
        proof {
            assert(k.planets@ =~= Map::<u32, PlanetKnowledge>::empty());
        }
        k
    }

    /// What is known of planet `id`, if anything.
    pub fn get(&self, id: u32) -> (r: Option<&PlanetKnowledge>)
        requires
            self.wf(),
        ensures
            match r {
                Some(p) => self@.contains_key(id) && *p == self@[id] && p.id == id,
                None => !self@.contains_key(id),
            },
    {
        broadcast use vstd::std_specs::hash::group_hash_axioms;
        self.planets.get(&id)
    }

    /// The known planets' ids, in the order they were first heard of.
    pub fn planet_ids(&self) -> (r: &Vec<u32>)
        requires
            self.wf(),
        ensures
            r@ == self.ids(),
            r@.no_duplicates(),
            forall|id: u32| self@.contains_key(id) <==> r@.contains(id),
            forall|id: u32| self@.contains_key(id) ==> (#[trigger] self@[id]).id == id,
    {
        &self.order
    }

    /// Makes planet `id` known (with nothing known of it) if it is not yet.
    pub fn entry(&mut self, id: u32)
        requires
            old(self).wf(),
        ensures
            final(self).wf(),
            final(self)@.contains_key(id),
            old(self)@.contains_key(id) ==> final(self)@ == old(self)@ && final(self).ids() == old(self).ids(),
            !old(self)@.contains_key(id) ==> {
                &&& final(self)@ == old(self)@.insert(id, final(self)@[id])
                &&& final(self)@[id].id == id
                &&& final(self)@[id].neighbors@ == Seq::<u32>::empty()
                &&& forall|b| !final(self)@[id].basics.has(b)
                &&& forall|c| !final(self)@[id].combinations.has(c)
                &&& final(self)@[id].charged_cells == 0
                &&& !final(self)@[id].visited
                &&& !final(self)@[id].dead
                &&& final(self).ids() == old(self).ids().push(id)
            },
    {
        broadcast use vstd::std_specs::hash::group_hash_axioms;
        if !self.planets.contains_key(&id) {
            let ghost old_order = self.order@;
            self.planets.insert(id, PlanetKnowledge::new(id));
            self.order.push(id);
            proof {
                assert(!old_order.contains(id));
                assert forall|x: u32| self.planets@.contains_key(x) <==> self.order@.contains(x) by {
                    if x == id {
                        assert(self.order@[old_order.len() as int] == id);
                    } else if old_order.contains(x) {
                        let i = choose|i: int| 0 <= i < old_order.len() && old_order[i] == x;
                        assert(self.order@[i] == x);
                    } else if self.order@.contains(x) {
                        let i = choose|i: int| 0 <= i < self.order@.len() && self.order@[i] == x;
                        assert(i < old_order.len());
                        assert(old_order[i] == x);
                    }
                }
            }
        }
    }

    /// Replaces what is known of planet `id` (which must be known) by `update`
    /// applied to it.
    fn replace(&mut self, id: u32, p: PlanetKnowledge)
        requires
            old(self).wf(),
            old(self)@.contains_key(id),
            p.id == id,
        ensures
            final(self).wf(),
            final(self)@ == old(self)@.insert(id, p),
            final(self).ids() == old(self).ids(),
    {
        broadcast use vstd::std_specs::hash::group_hash_axioms;
        self.planets.insert(id, p);
    }

    /// Takes out the record of planet `id`, making it known first.
    fn take(&mut self, id: u32) -> (p: PlanetKnowledge)
        requires
            old(self).wf(),
        ensures
            final(self).wf(),
            final(self).ids() == if old(self)@.contains_key(id) {
                old(self).ids()
            } else {
                old(self).ids().push(id)
            },
            p.id == id,
            old(self)@.contains_key(id) ==> p == old(self)@[id],
            !old(self)@.contains_key(id) ==> {
                &&& p.neighbors@ == Seq::<u32>::empty()
                &&& forall|b| !p.basics.has(b)
                &&& forall|c| !p.combinations.has(c)
                &&& p.charged_cells == 0
                &&& !p.visited
                &&& !p.dead
            },
            final(self)@.contains_key(id),
            forall|x: u32| x != id ==> (old(self)@.contains_key(x) <==> final(self)@.contains_key(x)),
            forall|x: u32| x != id && old(self)@.contains_key(x) ==> final(self)@[x] == old(self)@[x],
    {
        broadcast use vstd::std_specs::hash::group_hash_axioms;

        self.entry(id);
        let placeholder = PlanetKnowledge::new(id);
        let p = self.planets.insert(id, placeholder);
        match p {
            Some(p) => p,
            None => PlanetKnowledge::new(id),
        }
    }

    /// Records the neighbours of planet `id` (making it known), each once.
    pub fn set_neighbors(&mut self, id: u32, neighbors: Vec<u32>)
        requires
            old(self).wf(),
        ensures
            final(self).wf(),
            final(self)@.contains_key(id),
            final(self)@[id].neighbors@.to_set() == neighbors@.to_set(),
            final(self)@[id].neighbors@.no_duplicates(),
            old(self)@.contains_key(id) ==> {
                let (o, n) = (old(self)@[id], final(self)@[id]);
                n.basics == o.basics && n.combinations == o.combinations && n.charged_cells == o.charged_cells
                    && n.visited == o.visited && n.dead == o.dead
            },
            !old(self)@.contains_key(id) ==> !final(self)@[id].visited && !final(self)@[id].dead,
            forall|x: u32| x != id ==> (old(self)@.contains_key(x) <==> final(self)@.contains_key(x)),
            forall|x: u32| x != id && old(self)@.contains_key(x) ==> final(self)@[x] == old(self)@[x],
            final(self).same_but(*old(self), id),
            changed_only(final(self)@[id], *old(self), id, set![Field::Neighbors]),
    {
        let mut p = self.take(id);
        p.neighbors = dedup(&neighbors);
        self.replace(id, p);
    }

    /// Records the basics planet `id` generates (making it known).
    pub fn set_basics(&mut self, id: u32, basics: BasicSet)
        requires
            old(self).wf(),
        ensures
            final(self).wf(),
            final(self)@.contains_key(id),
            final(self)@[id].basics == basics,
            old(self)@.contains_key(id) ==> {
                let (o, n) = (old(self)@[id], final(self)@[id]);
                n.neighbors == o.neighbors && n.combinations == o.combinations && n.charged_cells
                    == o.charged_cells && n.visited == o.visited && n.dead == o.dead
            },
            !old(self)@.contains_key(id) ==> !final(self)@[id].visited && !final(self)@[id].dead
                && final(self)@[id].neighbors@ == Seq::<u32>::empty(),
            forall|x: u32| x != id ==> (old(self)@.contains_key(x) <==> final(self)@.contains_key(x)),
            forall|x: u32| x != id && old(self)@.contains_key(x) ==> final(self)@[x] == old(self)@[x],
            final(self).same_but(*old(self), id),
            changed_only(final(self)@[id], *old(self), id, set![Field::Basics]),
    {
        let mut p = self.take(id);
        p.basics = basics;
        self.replace(id, p);
    }

    /// Records the combinations planet `id` offers (making it known).
    pub fn set_combinations(&mut self, id: u32, combinations: ComplexSet)
        requires
            old(self).wf(),
        ensures
            final(self).wf(),
            final(self)@.contains_key(id),
            final(self)@[id].combinations == combinations,
            old(self)@.contains_key(id) ==> {
                let (o, n) = (old(self)@[id], final(self)@[id]);
                n.neighbors == o.neighbors && n.basics == o.basics && n.charged_cells == o.charged_cells
                    && n.visited == o.visited && n.dead == o.dead
            },
            !old(self)@.contains_key(id) ==> !final(self)@[id].visited && !final(self)@[id].dead
                && final(self)@[id].neighbors@ == Seq::<u32>::empty(),
            forall|x: u32| x != id ==> (old(self)@.contains_key(x) <==> final(self)@.contains_key(x)),
            forall|x: u32| x != id && old(self)@.contains_key(x) ==> final(self)@[x] == old(self)@[x],
            final(self).same_but(*old(self), id),
            changed_only(final(self)@[id], *old(self), id, set![Field::Combinations]),
    {
        let mut p = self.take(id);
        p.combinations = combinations;
        self.replace(id, p);
    }

    /// Records the charged cells observed on planet `id` (making it known).
    pub fn set_charged_cells(&mut self, id: u32, cells: u32)
        requires
            old(self).wf(),
        ensures
            final(self).wf(),
            final(self)@.contains_key(id),
            final(self)@[id].charged_cells == cells,
            old(self)@.contains_key(id) ==> {
                let (o, n) = (old(self)@[id], final(self)@[id]);
                n.neighbors == o.neighbors && n.basics == o.basics && n.combinations == o.combinations
                    && n.visited == o.visited && n.dead == o.dead
            },
            !old(self)@.contains_key(id) ==> !final(self)@[id].visited && !final(self)@[id].dead
                && final(self)@[id].neighbors@ == Seq::<u32>::empty(),
            forall|x: u32| x != id ==> (old(self)@.contains_key(x) <==> final(self)@.contains_key(x)),
            forall|x: u32| x != id && old(self)@.contains_key(x) ==> final(self)@[x] == old(self)@[x],
            final(self).same_but(*old(self), id),
            changed_only(final(self)@[id], *old(self), id, set![Field::ChargedCells]),
    {
        let mut p = self.take(id);
        p.charged_cells = cells;
        self.replace(id, p);
    }

    /// Marks planet `id` as queried (making it known).
    pub fn mark_visited(&mut self, id: u32)
        requires
            old(self).wf(),
        ensures
            final(self).wf(),
            final(self)@.contains_key(id),
            final(self)@[id].visited,
            old(self)@.contains_key(id) ==> {
                let (o, n) = (old(self)@[id], final(self)@[id]);
                n.neighbors == o.neighbors && n.basics == o.basics && n.combinations == o.combinations
                    && n.charged_cells == o.charged_cells && n.dead == o.dead
            },
            !old(self)@.contains_key(id) ==> !final(self)@[id].dead && final(self)@[id].neighbors@
                == Seq::<u32>::empty(),
            forall|x: u32| x != id ==> (old(self)@.contains_key(x) <==> final(self)@.contains_key(x)),
            forall|x: u32| x != id && old(self)@.contains_key(x) ==> final(self)@[x] == old(self)@[x],
            final(self).same_but(*old(self), id),
            changed_only(final(self)@[id], *old(self), id, set![Field::Visited]),
    {
        let mut p = self.take(id);
        p.visited = true;
        self.replace(id, p);
    }

    /// Whether planet `id` is known and has been queried.
    pub fn is_visited(&self, id: u32) -> (r: bool)
        requires
            self.wf(),
        ensures
            r == self.visited_spec(id),
    {
        match self.get(id) {
            Some(p) => p.visited,
            None => false,
        }
    }

    /// Whether planet `id` is known to be destroyed.
    pub fn is_dead(&self, id: u32) -> (r: bool)
        requires
            self.wf(),
        ensures
            r == self.dead_spec(id),
    {
        match self.get(id) {
            Some(p) => p.dead,
            None => false,
        }
    }

    /// Records that planet `id` is destroyed; it counts as queried, so it is
    /// never explored.
    pub fn mark_dead(&mut self, id: u32)
        requires
            old(self).wf(),
        ensures
            final(self).wf(),
            final(self)@.contains_key(id),
            final(self)@[id].dead,
            final(self)@[id].visited,
            old(self)@.contains_key(id) ==> {
                let (o, n) = (old(self)@[id], final(self)@[id]);
                n.neighbors == o.neighbors && n.basics == o.basics && n.combinations == o.combinations
                    && n.charged_cells == o.charged_cells
            },
            forall|x: u32| x != id ==> (old(self)@.contains_key(x) <==> final(self)@.contains_key(x)),
            forall|x: u32| x != id && old(self)@.contains_key(x) ==> final(self)@[x] == old(self)@[x],
            final(self).same_but(*old(self), id),
            changed_only(final(self)@[id], *old(self), id, set![Field::Visited, Field::Dead]),
    {
        let mut p = self.take(id);
        p.dead = true;
        p.visited = true;
        self.replace(id, p);
    }
}

/// The elements of `v`, each once, in order of first occurrence.
pub fn dedup(v: &Vec<u32>) -> (r: Vec<u32>)
    ensures
        r@.no_duplicates(),
        r@.to_set() == v@.to_set(),
{
    let mut r: Vec<u32> = Vec::new();
    for i in 0..v.len()
        invariant
            r@.no_duplicates(),
            forall|x: u32| r@.contains(x) <==> v@.take(i as int).contains(x),
    {
        let x = v[i];
        proof {
            broadcast use vstd::seq_lib::group_seq_properties;
            assert(v@.take(i + 1) =~= v@.take(i as int).push(x));
        }
        if !crate::explorer::travel::contains_planet(&r, x) {
            r.push(x);
        }
    }
    proof {
        assert(v@.take(v@.len() as int) =~= v@);
        assert(r@.to_set() =~= v@.to_set()) by {
            broadcast use vstd::seq_lib::group_seq_properties;
        }
    }
    r
}

} // verus!

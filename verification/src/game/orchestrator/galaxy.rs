//! Galaxy topology: which planets exist and how they are connected.
//!
//! New planets are added connected to every existing one, so an explorer can
//! travel from any planet to any other.

use vstd::prelude::*;

use crate::explorer::travel::contains_planet;

verus! {

/// One change to a galaxy: a planet added, or a planet removed.
#[derive(Clone, Copy, Debug, PartialEq, Eq, Structural)]
pub enum GalaxyStep {
    Add(u32),
    Remove(u32),
}

/// A galaxy's shape: its planets in the order they were added, and its links.
pub type Shape = (Seq<u32>, Set<(u32, u32)>);

/// The shape after one step: an added planet (not yet there) goes last, its
/// links to every planet replace any it had, and every planet gets a link to
/// it; a removed planet leaves, with every link to or from it.
pub open spec fn after_step(g: Shape, s: GalaxyStep) -> Shape {
    match s {
        GalaxyStep::Add(id) => (
            if g.0.contains(id) {
                g.0
            } else {
                g.0.push(id)
            },
            Set::new(
                |l: (u32, u32)|
                    if l.0 == id {
                        g.0.contains(l.1)
                    } else {
                        g.1.contains(l) || (g.0.contains(l.0) && l.1 == id)
                    },
            ),
        ),
        GalaxyStep::Remove(id) => (
            g.0.filter(|p: u32| p != id),
            Set::new(|l: (u32, u32)| g.1.contains(l) && l.0 != id && l.1 != id),
        ),
    }
}

/// The shape of the galaxy built from an empty one by `steps`, in order.
pub open spec fn built(steps: Seq<GalaxyStep>) -> Shape
    decreases steps.len(),
{
    if steps.len() == 0 {
        (Seq::empty(), Set::empty())
    } else {
        after_step(built(steps.drop_last()), steps.last())
    }
}

/// Every planet added by `steps` was not in the galaxy at the time.
pub open spec fn adds_fresh(steps: Seq<GalaxyStep>) -> bool {
    forall|i: int|
        0 <= i < steps.len() ==> match #[trigger] steps[i] {
            GalaxyStep::Add(id) => !built(steps.take(i)).0.contains(id),
            GalaxyStep::Remove(_) => true,
        }
}

/// Each planet of the shape is listed once; every two distinct planets are
/// linked, no planet to itself, and links join planets of the shape only.
pub open spec fn shape_fully_connected(g: Shape) -> bool {
    &&& g.0.no_duplicates()
    &&& forall|a: u32, b: u32| #[trigger] g.1.contains((a, b)) ==> g.0.contains(a) && g.0.contains(b)
    &&& forall|a: u32, b: u32| g.0.contains(a) && g.0.contains(b) ==> (#[trigger] g.1.contains((a, b)) <==> a != b)
}

proof fn lemma_filter_subset(s: Seq<u32>, id: u32, x: u32)
    requires
        s.filter(|p: u32| p != id).contains(x),
    ensures
        s.contains(x),
    decreases s.len(),
{
    let keep = |p: u32| p != id;
    if s.len() > 0 {
        let r = s.drop_last();
        assert(s =~= r.push(s.last()));
        r.lemma_filter_push(s.last(), keep);
        if x != s.last() {
            if s.last() != id {
                vstd::seq_lib::lemma_seq_contains_after_push(r.filter(keep), s.last(), x);
            }
            lemma_filter_subset(r, id, x);
            vstd::seq_lib::lemma_seq_contains_after_push(r, s.last(), x);
        } else {
            assert(s[s.len() - 1] == x);
        }
    } else {
        assert(s.filter(keep) =~= Seq::<u32>::empty()) by {
            reveal(Seq::filter);
        }
    }
}

proof fn lemma_filter_no_duplicates(s: Seq<u32>, id: u32)
    requires
        s.no_duplicates(),
    ensures
        s.filter(|p: u32| p != id).no_duplicates(),
    decreases s.len(),
{
    broadcast use vstd::seq_lib::group_filter_ensures;

    if s.len() > 0 {
        let r = s.drop_last();
        let x = s.last();
        let keep = |p: u32| p != id;
        assert(r.no_duplicates()) by {
            assert forall|i: int, j: int| 0 <= i < j < r.len() implies r[i] != r[j] by {
                assert(r[i] == s[i] && r[j] == s[j]);
            }
        }
        lemma_filter_no_duplicates(r, id);
        assert(s =~= r.push(x));
        r.lemma_filter_push(x, keep);
        if x != id {
            assert(!r.filter(keep).contains(x)) by {
                if r.filter(keep).contains(x) {
                    lemma_filter_subset(r, id, x);
                    let i = r.index_of(x);
                    assert(s[i] == s[s.len() - 1]);
                }
            }
            let f = r.filter(keep);
            assert forall|i: int, j: int| 0 <= i < j < f.push(x).len() implies f.push(x)[i] != f.push(x)[j] by {
                if j == f.len() {
                    assert(f.contains(f[i]));
                }
            }
        }
    }
}

/// A galaxy built from an empty one by adding planets that are not there yet
/// and removing planets, in any order, is fully connected.
pub proof fn lemma_built_galaxies_fully_connected(steps: Seq<GalaxyStep>)
    requires
        adds_fresh(steps),
    ensures
        shape_fully_connected(built(steps)),
    decreases steps.len(),
{
    if steps.len() > 0 {
        let rest = steps.drop_last();
        assert forall|i: int| 0 <= i < rest.len() implies match #[trigger] rest[i] {
            GalaxyStep::Add(id) => !built(rest.take(i)).0.contains(id),
            GalaxyStep::Remove(_) => true,
        } by {
            assert(rest.take(i) =~= steps.take(i));
            assert(rest[i] == steps[i]);
        }
        lemma_built_galaxies_fully_connected(rest);
        let g = built(rest);
        let n = built(steps);
        assert(steps.take(steps.len() - 1) =~= rest);
        match steps.last() {
            GalaxyStep::Add(id) => {
                assert(steps[steps.len() - 1] == steps.last());
                assert(!g.0.contains(id));
                assert(n.0 == g.0.push(id));
                assert(n.0.no_duplicates()) by {
                    assert forall|i: int, j: int| 0 <= i < j < n.0.len() implies n.0[i] != n.0[j] by {
                        if j == n.0.len() - 1 {
                            assert(g.0.contains(n.0[i]));
                        }
                    }
                }
                assert forall|x: u32| #[trigger] n.0.contains(x) == (g.0.contains(x) || x == id) by {
                    vstd::seq_lib::lemma_seq_contains_after_push(g.0, id, x);
                }
            },
            GalaxyStep::Remove(id) => {
                broadcast use vstd::seq_lib::group_filter_ensures;

                assert forall|x: u32| #[trigger] n.0.contains(x) == (g.0.contains(x) && x != id) by {
                    if g.0.contains(x) && x != id {
                        let i = g.0.index_of(x);
                        assert(g.0[i] == x);
                    }
                    if n.0.contains(x) {
                        lemma_filter_subset(g.0, id, x);
                        let k = n.0.index_of(x);
                        assert(n.0[k] == x);
                    }
                }
                lemma_filter_no_duplicates(g.0, id);
            },
        }
    }
}

/// The planets of the galaxy and the links between them.
pub struct Galaxy {
    /// The planets, in the order they were added.
    planets: Vec<u32>,
    /// `(a, b)`: planet `b` is a neighbour of planet `a`.
    links: Vec<(u32, u32)>,
}

/// Whether `(a, b)` occurs in `links`.
fn contains_link(links: &Vec<(u32, u32)>, a: u32, b: u32) -> (r: bool)
    ensures
        r == links@.contains((a, b)),
{
    for i in 0..links.len()
        invariant
            forall|j: int| 0 <= j < i ==> links@[j] != (a, b),
    {
        if links[i].0 == a && links[i].1 == b {
            proof {
                assert(links@[i as int] == (a, b));
            }
            return true;
        }
    }
    false
}

impl Galaxy {
    /// Each planet is listed once, and links start at a listed planet.
    pub closed spec fn wf(self) -> bool {
        &&& self.planets@.no_duplicates()
        &&& forall|a: u32, b: u32| #[trigger] self.links@.contains((a, b)) ==> self.planets@.contains(a)
    }

    /// The planets, in the order they were added.
    pub closed spec fn planet_seq(self) -> Seq<u32> {
        self.planets@
    }

    /// The galaxy's shape: its planets and its links.
    pub open spec fn shape(self) -> Shape {
        (self.planet_seq(), Set::new(|l: (u32, u32)| self.linked(l.0, l.1)))
    }

    /// Planet `id` is in the galaxy.
    pub open spec fn has(self, id: u32) -> bool {
        self.planet_seq().contains(id)
    }

    /// Planet `b` is a neighbour of planet `a`.
    pub closed spec fn linked(self, a: u32, b: u32) -> bool {
        self.links@.contains((a, b))
    }

    /// Every two distinct planets are neighbours, no planet is its own, and
    /// links join planets of the galaxy only.
    pub open spec fn fully_connected(self) -> bool {
        &&& forall|a: u32, b: u32| #[trigger] self.linked(a, b) ==> self.has(a) && self.has(b)
        &&& forall|a: u32, b: u32| self.has(a) && self.has(b) ==> (#[trigger] self.linked(a, b) <==> a != b)
    }

    /// An empty galaxy.
    pub fn new() -> (g: Self)
        ensures
            g.wf(),
            g.shape() == built(Seq::empty()),
            g.planet_seq() == Seq::<u32>::empty(),
            forall|a: u32, b: u32| !#[trigger] g.linked(a, b),
            g.fully_connected(),
    {
        Galaxy { planets: Vec::new(), links: Vec::new() }
    }

    /// Adds planet `id`, connected to every existing planet (its former
    /// links, if it was there already, are replaced).
    pub fn add_planet(&mut self, id: u32)
        requires
            old(self).wf(),
        ensures
            final(self).wf(),
            final(self).planet_seq() == if old(self).has(id) {
                old(self).planet_seq()
            } else {
                old(self).planet_seq().push(id)
            },
            forall|a: u32, b: u32| #[trigger]
                final(self).linked(a, b) == if a == id {
                    old(self).has(b)
                } else {
                    old(self).linked(a, b) || (old(self).has(a) && b == id)
                },
            old(self).fully_connected() && !old(self).has(id) ==> final(self).fully_connected(),
            final(self).shape() == after_step(old(self).shape(), GalaxyStep::Add(id)),
    {
        broadcast use vstd::seq_lib::lemma_seq_contains_after_push;

        let existing = self.planets.clone();
        proof {
            assert(existing@ == self.planets@);
        }
        let mut links: Vec<(u32, u32)> = Vec::new();
        for i in 0..self.links.len()
            invariant
                forall|a: u32, b: u32| #[trigger]
                    links@.contains((a, b)) <==> a != id && self.links@.take(i as int).contains((a, b)),
        {
            let (a, b) = self.links[i];
            proof {
                assert(self.links@.take(i + 1) =~= self.links@.take(i as int).push((a, b)));
            }
            let ghost before = links@;
            if a != id {
                links.push((a, b));
            }
            proof {
                assert forall|a2: u32, b2: u32| #[trigger]
                    links@.contains((a2, b2)) <==> a2 != id && self.links@.take(i + 1).contains((a2, b2)) by {
                    vstd::seq_lib::lemma_seq_contains_after_push(before, (a, b), (a2, b2));
                    vstd::seq_lib::lemma_seq_contains_after_push(self.links@.take(i as int), (a, b), (a2, b2));
                }
            }
        }
        proof {
            assert(self.links@.take(self.links.len() as int) =~= self.links@);
        }
        for i in 0..existing.len()
            invariant
                existing@ == old(self).planets@,
                self.links == old(self).links,
                forall|a: u32, b: u32| #[trigger]
                    links@.contains((a, b)) <==> (a != id && old(self).links@.contains((a, b))) || (
                    existing@.take(i as int).contains(a) && a != id && b == id) || (a == id
                        && existing@.take(i as int).contains(b)),
        {
            let x = existing[i];
            proof {
                assert(existing@.take(i + 1) =~= existing@.take(i as int).push(x));
            }
            let ghost before = links@;
            if x != id {
                links.push((x, id));
            }
            let ghost mid = links@;
            links.push((id, x));
            proof {
                assert forall|a2: u32, b2: u32| #[trigger]
                    links@.contains((a2, b2)) <==> (a2 != id && old(self).links@.contains((a2, b2))) || (
                    existing@.take(i + 1).contains(a2) && a2 != id && b2 == id) || (a2 == id
                        && existing@.take(i + 1).contains(b2)) by {
                    vstd::seq_lib::lemma_seq_contains_after_push(before, (x, id), (a2, b2));
                    vstd::seq_lib::lemma_seq_contains_after_push(mid, (id, x), (a2, b2));
                    vstd::seq_lib::lemma_seq_contains_after_push(existing@.take(i as int), x, a2);
                    vstd::seq_lib::lemma_seq_contains_after_push(existing@.take(i as int), x, b2);
                }
            }
        }
        proof {
            assert(existing@.take(existing.len() as int) =~= existing@);
        }
        self.links = links;
        if !contains_planet(&self.planets, id) {
            self.planets.push(id);
            proof {
                assert(self.planets@.no_duplicates()) by {
                    assert forall|i: int, j: int| 0 <= i < j < self.planets@.len() implies self.planets@[i]
                        != self.planets@[j] by {
                        if j == self.planets@.len() - 1 {
                            assert(old(self).planets@.contains(self.planets@[i]));
                        }
                    }
                }
            }
        }
        proof {
            assert forall|x: u32| #[trigger] self.has(x) == (old(self).has(x) || x == id) by {
                vstd::seq_lib::lemma_seq_contains_after_push(old(self).planets@, id, x);
            }
            if old(self).fully_connected() && !old(self).has(id) {
                assert forall|a: u32, b: u32| #[trigger] self.linked(a, b) implies self.has(a) && self.has(b) by {
                    if a != id && old(self).linked(a, b) {
                        assert(old(self).has(a) && old(self).has(b));
                    }
                }
                assert forall|a: u32, b: u32| self.has(a) && self.has(b) implies (#[trigger] self.linked(a, b) <==> a != b) by {
                    if a != id && b != id {
                        assert(old(self).has(a) && old(self).has(b));
                        assert(old(self).linked(a, b) <==> a != b);
                    }
                }
            }
        }
    }

    /// Removes planet `id` and every link to or from it.
    pub fn remove_planet(&mut self, id: u32)
        requires
            old(self).wf(),
        ensures
            final(self).wf(),
            final(self).planet_seq() == old(self).planet_seq().filter(|p: u32| p != id),
            forall|x: u32| #[trigger] final(self).has(x) == (old(self).has(x) && x != id),
            forall|a: u32, b: u32| #[trigger]
                final(self).linked(a, b) == (old(self).linked(a, b) && a != id && b != id),
            old(self).fully_connected() ==> final(self).fully_connected(),
            final(self).shape() == after_step(old(self).shape(), GalaxyStep::Remove(id)),
    {
        let ghost keep = |p: u32| p != id;
        let mut planets: Vec<u32> = Vec::new();
        for i in 0..self.planets.len()
            invariant
                self.planets@.no_duplicates(),
                keep == (|p: u32| p != id),
                planets@ == self.planets@.take(i as int).filter(keep),
                planets@.no_duplicates(),
                forall|x: u32| #[trigger] planets@.contains(x) <==> self.planets@.take(i as int).contains(x) && x != id,
        {
            let p = self.planets[i];
            proof {
                broadcast use vstd::seq_lib::lemma_seq_contains_after_push;

                assert(self.planets@.take(i + 1) =~= self.planets@.take(i as int).push(p));
                self.planets@.take(i as int).lemma_filter_push(p, keep);
                assert(!self.planets@.take(i as int).contains(p)) by {
                    if self.planets@.take(i as int).contains(p) {
                        let k = choose|k: int| 0 <= k < i && self.planets@.take(i as int)[k] == p;
                        assert(self.planets@[k] == self.planets@[i as int]);
                    }
                }
            }
            if p != id {
                let ghost before = planets@;
                planets.push(p);
                proof {
                    broadcast use vstd::seq_lib::lemma_seq_contains_after_push;

                    assert forall|a: int, b: int| 0 <= a < b < planets@.len() implies planets@[a] != planets@[b] by {
                        if b == planets@.len() - 1 {
                            assert(before.contains(planets@[a]));
                        }
                    }
                }
            }
        }
        proof {
            assert(self.planets@.take(self.planets.len() as int) =~= self.planets@);
        }
        let mut links: Vec<(u32, u32)> = Vec::new();
        for i in 0..self.links.len()
            invariant
                forall|a: u32, b: u32| #[trigger]
                    links@.contains((a, b)) <==> a != id && b != id && self.links@.take(i as int).contains(
                        (a, b),
                    ),
        {
            let (a, b) = self.links[i];
            proof {
                broadcast use vstd::seq_lib::lemma_seq_contains_after_push;

                assert(self.links@.take(i + 1) =~= self.links@.take(i as int).push((a, b)));
            }
            if a != id && b != id {
                links.push((a, b));
                proof {
                    broadcast use vstd::seq_lib::lemma_seq_contains_after_push;
                }
            }
        }
        proof {
            assert(self.links@.take(self.links.len() as int) =~= self.links@);
        }
        self.planets = planets;
        self.links = links;
        proof {
            if old(self).fully_connected() {
                assert forall|a: u32, b: u32| #[trigger] self.linked(a, b) implies self.has(a) && self.has(b) by {
                    assert(old(self).linked(a, b));
                }
                assert forall|a: u32, b: u32| self.has(a) && self.has(b) implies (#[trigger] self.linked(a, b) <==> a != b) by {
                    assert(old(self).has(a) && old(self).has(b));
                    assert(old(self).linked(a, b) <==> a != b);
                }
            }
        }
    }

    /// The planets, in the order they were added.
    pub fn planets(&self) -> (r: Vec<u32>)
        ensures
            r@ == self.planet_seq(),
    {
        self.planets.clone()
    }

    /// Whether planet `b` is a neighbour of planet `a`.
    pub fn are_connected(&self, a: u32, b: u32) -> (r: bool)
        ensures
            r == self.linked(a, b),
    {
        contains_link(&self.links, a, b)
    }

    /// The neighbours of planet `a`, in the order the planets were added.
    pub fn neighbours(&self, a: u32) -> (r: Vec<u32>)
        ensures
            r@ == self.planet_seq().filter(|b: u32| self.linked(a, b)),
    {
        let ghost near = |b: u32| self.linked(a, b);
        let mut r: Vec<u32> = Vec::new();
        for i in 0..self.planets.len()
            invariant
                near == (|b: u32| self.linked(a, b)),
                r@ == self.planets@.take(i as int).filter(near),
        {
            let b = self.planets[i];
            proof {
                assert(self.planets@.take(i + 1) =~= self.planets@.take(i as int).push(b));
                self.planets@.take(i as int).lemma_filter_push(b, near);
            }
            if self.are_connected(a, b) {
                r.push(b);
            }
        }
        proof {
            assert(self.planets@.take(self.planets.len() as int) =~= self.planets@);
        }
        r
    }

    /// The number of planets.
    pub fn len(&self) -> (n: usize)
        ensures
            n == self.planet_seq().len(),
    {
        self.planets.len()
    }
}

} // verus!

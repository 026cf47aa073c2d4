//! The goal-driven explorer ("AI"). Once started it drives itself: explore
//! the galaxy, collect the basics its goal needs, craft the target complex
//! resources. It talks to the orchestrator (neighbours / travel) and to the
//! planets (query / generate / combine); this module holds its state and
//! every decision it takes, the messages themselves are exchanged by the
//! caller.

pub mod ai;
pub mod knowledge;
pub mod recipes;

use vstd::prelude::*;

use crate::explorer::marco_explorer::bag::{Bag, Item};
use crate::explorer::marco_explorer::recipes::{
    basic_cost, basic_units, build_request, built_from, can_build, complex_kinds_in_order,
    complex_production, all_complex_kinds, lemma_basic_units_bounded, lemma_production_units_bounded,
    occurrences, production_units, recipe_basics, recipe_complexes, Request, ingredients,
};
use crate::explorer::BagContent;
use crate::explorer::marco_explorer::recipes::{craftable, feasible_complex};
use crate::resource::{BasicKind, BasicSet, BasicTally, ComplexKind, ComplexSet, ComplexTally, ResourceKind};
use ai::{
    alive_basics, alive_combinations, combining, galaxy_offer, generating, nearest_first_hop, next_unvisited,
    pick_planet, planets_combining, planets_generating, preferred_planet, target_in_reach, lemma_best_charged,
};
use knowledge::{changed_only, ExplorerKnowledge, Field, StrategyState};

verus! {

/// Give up on a phase after this many turns without progress.
pub const MAX_STALL: u32 = 40;

/// Units of basic kind `b` needed to build, for each kind `c` in `ks`,
/// `t.at(c)` units of `c`.
pub open spec fn weighted_basic(t: ComplexTally, ks: Seq<ComplexKind>, b: BasicKind) -> nat
    decreases ks.len(),
{
    if ks.len() == 0 {
        0
    } else {
        weighted_basic(t, ks.drop_last(), b) + (t.at(ks.last()) as nat) * basic_units(ks.last(), b)
    }
}

/// Units of complex kind `k` produced, intermediates included, on the way to
/// `t.at(c)` units of each kind `c` in `ks`.
pub open spec fn weighted_production(t: ComplexTally, ks: Seq<ComplexKind>, k: ComplexKind) -> nat
    decreases ks.len(),
{
    if ks.len() == 0 {
        0
    } else {
        weighted_production(t, ks.drop_last(), k) + (t.at(ks.last()) as nat) * production_units(ks.last(), k)
    }
}

/// No complex kind is wanted more than once.
pub open spec fn at_most_one_each(t: ComplexTally) -> bool {
    forall|c: ComplexKind| #[trigger] t.at(c) <= 1
}

/// What the explorer does on its turn.
#[derive(Clone, Copy, Debug, PartialEq, Eq, Structural)]
pub enum Activity {
    /// Stopped or killed: nothing to do.
    Rest,
    /// Query this planet (its neighbours from the orchestrator; what it
    /// generates, combines and its charged cells from the planet), then
    /// record it as visited.
    Query(u32),
    /// An exploration step.
    Explore,
    /// A collecting step.
    Collect,
    /// A crafting step.
    Craft,
    /// Refresh the current planet's neighbours, then look for new planets.
    Rescan,
}

/// What an exploration step asks for.
#[derive(Clone, Copy, Debug, PartialEq, Eq, Structural)]
pub enum ExploreStep {
    /// Query the current planet, which has not been queried yet.
    Query(u32),
    /// Travel to this planet: the first hop toward the nearest planet still
    /// to be explored.
    Travel(u32),
    /// Nothing is left to explore: the goal is picked and collecting starts.
    Finished,
}

/// No complex kind is wanted.
pub open spec fn task_empty(t: ComplexTally) -> bool {
    forall|c: ComplexKind| #[trigger] t.at(c) == 0
}

/// One unit of `c` is wanted if the known alive planets can craft it
/// between them.
pub open spec fn goal_of(k: ExplorerKnowledge, c: ComplexKind) -> usize {
    if craftable(alive_basics(k), alive_combinations(k), c) {
        1
    } else {
        0
    }
}

/// Position of a basic kind in the order the explorer considers them.
pub open spec fn basic_rank(b: BasicKind) -> nat {
    match b {
        BasicKind::Oxygen => 0,
        BasicKind::Hydrogen => 1,
        BasicKind::Carbon => 2,
        BasicKind::Silicon => 3,
    }
}

/// Position of a complex kind in the order the explorer crafts them: lower
/// tiers first, so intermediates exist when needed.
pub open spec fn complex_rank(c: ComplexKind) -> nat {
    match c {
        ComplexKind::Diamond => 0,
        ComplexKind::Water => 1,
        ComplexKind::Life => 2,
        ComplexKind::Robot => 3,
        ComplexKind::Dolphin => 4,
        ComplexKind::AIPartner => 5,
    }
}

/// The planets not listed in `v`, as a predicate.
pub open spec fn not_in(v: Seq<u32>) -> spec_fn(u32) -> bool {
    |id: u32| !v.contains(id)
}

/// Every element kept by a filter comes from the filtered sequence.
proof fn lemma_filter_within(s: Seq<u32>, p: spec_fn(u32) -> bool, x: u32)
    requires
        s.filter(p).contains(x),
    ensures
        s.contains(x),
        p(x),
    decreases s.len(),
{
    if s.len() == 0 {
        assert(s.filter(p) =~= Seq::<u32>::empty()) by {
            reveal(Seq::filter);
        }
    } else {
        let r = s.drop_last();
        assert(s =~= r.push(s.last()));
        r.lemma_filter_push(s.last(), p);
        if x == s.last() && p(x) {
            assert(s[s.len() - 1] == x);
        } else {
            if p(s.last()) {
                vstd::seq_lib::lemma_seq_contains_after_push(r.filter(p), s.last(), x);
            }
            lemma_filter_within(r, p, x);
            vstd::seq_lib::lemma_seq_contains_after_push(r, s.last(), x);
        }
    }
}

/// The preferred planet among a non-empty list is one of them.
proof fn lemma_preferred_within(k: ExplorerKnowledge, current: u32, cands: Seq<u32>)
    requires
        cands.len() > 0,
    ensures
        cands.contains(preferred_planet(k, current, cands)),
{
    if !cands.contains(current) {
        lemma_best_charged(k, cands);
    }
}

/// The goal-driven explorer's state, apart from its channels. `B` and `C` are
/// the types of the basic and complex resource objects it carries.
pub struct AiExplorer<B, C> {
    id: u32,
    current_planet: u32,
    bag: Bag<B, C>,
    knowledge: ExplorerKnowledge,
    /// How many of each complex resource to end up with.
    task: ComplexTally,
    /// When set and no task was given, pick a goal after exploring.
    adaptive: bool,
    state: StrategyState,
    /// Complex resources crafted so far this run.
    produced: ComplexTally,
    /// Planets we failed to move to.
    unreachable: Vec<u32>,
    /// Resources no planet can provide.
    unobtainable_basic: BasicSet,
    unobtainable_complex: ComplexSet,
    /// Planets currently out of energy; tried elsewhere before coming back.
    depleted: Vec<u32>,
    stall: u32,
    /// The autonomous behaviour is active (Start/Stop).
    running: bool,
    /// The actor should live (cleared by Kill).
    alive: bool,
}

impl<B, C> AiExplorer<B, C> {
    /// The explorer's state is consistent: its knowledge is well formed, it
    /// aims for at most one unit of each complex kind, and the stall counter
    /// stays below the give-up threshold.
    pub open spec fn wf(self) -> bool {
        &&& self.knowledge_spec().wf()
        &&& at_most_one_each(self.task_spec())
        &&& self.stall_spec() < MAX_STALL
    }

    pub closed spec fn id_spec(self) -> u32 {
        self.id
    }

    pub closed spec fn planet(self) -> u32 {
        self.current_planet
    }

    pub closed spec fn bag_spec(self) -> Bag<B, C> {
        self.bag
    }

    pub closed spec fn knowledge_spec(self) -> ExplorerKnowledge {
        self.knowledge
    }

    pub closed spec fn task_spec(self) -> ComplexTally {
        self.task
    }

    pub closed spec fn adaptive_spec(self) -> bool {
        self.adaptive
    }

    pub closed spec fn state_spec(self) -> StrategyState {
        self.state
    }

    pub closed spec fn produced_spec(self) -> ComplexTally {
        self.produced
    }

    pub closed spec fn unreachable_spec(self) -> Seq<u32> {
        self.unreachable@
    }

    /// Resource `k` is known to be unobtainable.
    pub closed spec fn unobtainable_spec(self, k: ResourceKind) -> bool {
        match k {
            ResourceKind::Basic(b) => self.unobtainable_basic.has(b),
            ResourceKind::Complex(c) => self.unobtainable_complex.has(c),
        }
    }

    pub closed spec fn depleted_spec(self) -> Seq<u32> {
        self.depleted@
    }

    pub closed spec fn stall_spec(self) -> u32 {
        self.stall
    }

    pub closed spec fn running_spec(self) -> bool {
        self.running
    }

    pub closed spec fn alive_spec(self) -> bool {
        self.alive
    }

    /// Apart from its knowledge, the explorer is as `o` was.
    pub open spec fn all_but_knowledge_kept(self, o: Self) -> bool {
        &&& self.id_spec() == o.id_spec()
        &&& self.planet() == o.planet()
        &&& self.bag_spec() == o.bag_spec()
        &&& self.task_spec() == o.task_spec()
        &&& self.produced_spec() == o.produced_spec()
        &&& self.adaptive_spec() == o.adaptive_spec()
        &&& self.state_spec() == o.state_spec()
        &&& self.unreachable_spec() == o.unreachable_spec()
        &&& self.depleted_spec() == o.depleted_spec()
        &&& forall|k: ResourceKind| self.unobtainable_spec(k) == o.unobtainable_spec(k)
        &&& self.stall_spec() == o.stall_spec()
        &&& self.running_spec() == o.running_spec()
        &&& self.alive_spec() == o.alive_spec()
    }

    /// A stopped, alive explorer with an empty bag on `current_planet`, which
    /// is known (nothing else is); it explores first and picks its goal itself.
    pub fn new(id: u32, current_planet: u32) -> (e: Self)
        ensures
            e.wf(),
            e.id_spec() == id,
            e.planet() == current_planet,
            e.knowledge_spec()@.dom() == set![current_planet],
            e.knowledge_spec().ids() == seq![current_planet],
            e.knowledge_spec()@[current_planet].fresh(current_planet),
            !e.knowledge_spec().visited_spec(current_planet),
            forall|k: ResourceKind| e.bag_spec().amount(k) == 0,
            forall|c: ComplexKind| e.task_spec().at(c) == 0 && e.produced_spec().at(c) == 0,
            e.adaptive_spec(),
            e.state_spec() == StrategyState::Exploring,
            e.unreachable_spec() == Seq::<u32>::empty(),
            e.depleted_spec() == Seq::<u32>::empty(),
            forall|k: ResourceKind| !e.unobtainable_spec(k),
            e.stall_spec() == 0,
            !e.running_spec(),
            e.alive_spec(),
    {
        let mut knowledge = ExplorerKnowledge::new();
        knowledge.entry(current_planet);
        proof {
            assert(knowledge@.dom() =~= set![current_planet]);
        }
        AiExplorer {
            id,
            current_planet,
            bag: Bag::new(),
            knowledge,
            task: ComplexTally::new(),
            adaptive: true,
            state: StrategyState::Exploring,
            produced: ComplexTally::new(),
            unreachable: Vec::new(),
            unobtainable_basic: BasicSet::new(),
            unobtainable_complex: ComplexSet::new(),
            depleted: Vec::new(),
            stall: 0,
            running: false,
            alive: true,
        }
    }

    pub fn id(&self) -> (r: u32)
        ensures
            r == self.id_spec(),
    {
        self.id
    }

    pub fn current_planet(&self) -> (r: u32)
        ensures
            r == self.planet(),
    {
        self.current_planet
    }

    pub fn state(&self) -> (r: StrategyState)
        ensures
            r == self.state_spec(),
    {
        self.state
    }

    pub fn is_running(&self) -> (r: bool)
        ensures
            r == self.running_spec(),
    {
        self.running
    }

    pub fn is_alive(&self) -> (r: bool)
        ensures
            r == self.alive_spec(),
    {
        self.alive
    }

    /// How many `c` were crafted this run.
    pub fn produced(&self, c: ComplexKind) -> (r: usize)
        ensures
            r == self.produced_spec().at(c),
    {
        self.produced.get(c)
    }

    /// The explorer's knowledge of the galaxy.
    pub fn knowledge(&self) -> (r: &ExplorerKnowledge)
        ensures
            *r == self.knowledge_spec(),
    {
        &self.knowledge
    }

    /// The count-only view of the bag reported to the orchestrator.
    pub fn bag_content(&self) -> (content: BagContent)
        ensures
            forall|k: ResourceKind| content.amount(k) == self.bag_spec().amount(k),
    {
        self.bag.to_content()
    }

    /// `StartExplorerAI`: the autonomous behaviour starts, with a fresh stall count.
    pub fn start(&mut self)
        requires
            old(self).wf(),
        ensures
            final(self).wf(),
            final(self).running_spec(),
            final(self).stall_spec() == 0,
            final(self).state_spec() == old(self).state_spec(),
            final(self).planet() == old(self).planet(),
            final(self).alive_spec() == old(self).alive_spec(),
            final(self).knowledge_spec() == old(self).knowledge_spec(),
    {
        self.running = true;
        self.stall = 0;
    }

    /// `StopExplorerAI`: the autonomous behaviour pauses.
    pub fn stop(&mut self)
        requires
            old(self).wf(),
        ensures
            final(self).wf(),
            !final(self).running_spec(),
            final(self).state_spec() == old(self).state_spec(),
            final(self).planet() == old(self).planet(),
            final(self).alive_spec() == old(self).alive_spec(),
            final(self).knowledge_spec() == old(self).knowledge_spec(),
    {
        self.running = false;
    }

    /// `KillExplorer`: the actor should end.
    pub fn kill(&mut self)
        requires
            old(self).wf(),
        ensures
            final(self).wf(),
            !final(self).alive_spec(),
            final(self).running_spec() == old(self).running_spec(),
            final(self).planet() == old(self).planet(),
    {
        self.alive = false;
    }

    /// `ResetExplorerAI`: forget everything learned and held, and explore
    /// again from the current planet.
    pub fn reset(&mut self)
        requires
            old(self).wf(),
        ensures
            final(self).wf(),
            final(self).knowledge_spec()@.dom() == set![old(self).planet()],
            final(self).knowledge_spec().ids() == seq![old(self).planet()],
            final(self).knowledge_spec()@[old(self).planet()].fresh(old(self).planet()),
            forall|k: ResourceKind| final(self).bag_spec().amount(k) == 0,
            forall|c: ComplexKind| final(self).task_spec().at(c) == 0 && final(self).produced_spec().at(c) == 0,
            final(self).state_spec() == StrategyState::Exploring,
            final(self).unreachable_spec() == Seq::<u32>::empty(),
            final(self).depleted_spec() == Seq::<u32>::empty(),
            forall|k: ResourceKind| !final(self).unobtainable_spec(k),
            final(self).stall_spec() == 0,
            final(self).planet() == old(self).planet(),
            final(self).running_spec() == old(self).running_spec(),
            final(self).alive_spec() == old(self).alive_spec(),
            final(self).adaptive_spec() == old(self).adaptive_spec(),
    {
        self.knowledge = ExplorerKnowledge::new();
        self.bag.clear();
        self.produced = ComplexTally::new();
        self.unreachable = Vec::new();
        self.depleted = Vec::new();
        self.unobtainable_basic = BasicSet::new();
        self.unobtainable_complex = ComplexSet::new();
        self.task = ComplexTally::new();
        self.state = StrategyState::Exploring;
        self.stall = 0;
        self.knowledge.entry(self.current_planet);
        proof {
            assert(self.knowledge@.dom() =~= set![self.current_planet]);
            assert forall|k: ResourceKind| self.bag.amount(k) == 0 by {
                match k {
                    ResourceKind::Basic(b) => assert(self.bag.basics(b).len() == 0),
                    ResourceKind::Complex(c) => assert(self.bag.complexes(c).len() == 0),
                }
            }
        }
    }

    /// The explorer is now on `planet` (a move it asked for, or one pushed by
    /// the orchestrator); the planet becomes known.
    pub fn arrived(&mut self, planet: u32)
        requires
            old(self).wf(),
        ensures
            final(self).wf(),
            final(self).planet() == planet,
            final(self).knowledge_spec()@.contains_key(planet),
            old(self).knowledge_spec()@.contains_key(planet) ==> final(self).knowledge_spec()@ == old(self).knowledge_spec()@,
            final(self).knowledge_spec().ids() == if old(self).knowledge_spec()@.contains_key(planet) {
                old(self).knowledge_spec().ids()
            } else {
                old(self).knowledge_spec().ids().push(planet)
            },
            !old(self).knowledge_spec()@.contains_key(planet) ==> {
                &&& final(self).knowledge_spec()@ == old(self).knowledge_spec()@.insert(
                    planet,
                    final(self).knowledge_spec()@[planet],
                )
                &&& final(self).knowledge_spec()@[planet].fresh(planet)
            },
            final(self).id_spec() == old(self).id_spec(),
            final(self).bag_spec() == old(self).bag_spec(),
            final(self).task_spec() == old(self).task_spec(),
            final(self).produced_spec() == old(self).produced_spec(),
            final(self).adaptive_spec() == old(self).adaptive_spec(),
            final(self).unreachable_spec() == old(self).unreachable_spec(),
            final(self).depleted_spec() == old(self).depleted_spec(),
            forall|k: ResourceKind| final(self).unobtainable_spec(k) == old(self).unobtainable_spec(k),
            final(self).state_spec() == old(self).state_spec(),
            final(self).running_spec() == old(self).running_spec(),
            final(self).alive_spec() == old(self).alive_spec(),
            final(self).stall_spec() == old(self).stall_spec(),
    {
        self.current_planet = planet;
        self.knowledge.entry(planet);
    }

    /// Records the neighbours the orchestrator reported for `planet`.
    pub fn record_neighbors(&mut self, planet: u32, neighbors: Vec<u32>)
        requires
            old(self).wf(),
        ensures
            final(self).wf(),
            final(self).knowledge_spec()@.contains_key(planet),
            final(self).knowledge_spec()@[planet].neighbors@.to_set() == neighbors@.to_set(),
            final(self).planet() == old(self).planet(),
            final(self).state_spec() == old(self).state_spec(),
            final(self).running_spec() == old(self).running_spec(),
            final(self).alive_spec() == old(self).alive_spec(),
            final(self).stall_spec() == old(self).stall_spec(),
            final(self).all_but_knowledge_kept(*old(self)),
            final(self).knowledge_spec().same_but(old(self).knowledge_spec(), planet),
            changed_only(final(self).knowledge_spec()@[planet], old(self).knowledge_spec(), planet, set![Field::Neighbors]),
    {
        self.knowledge.set_neighbors(planet, neighbors);
    }

    /// Records the basics `planet` generates.
    pub fn record_basics(&mut self, planet: u32, basics: BasicSet)
        requires
            old(self).wf(),
        ensures
            final(self).wf(),
            final(self).knowledge_spec()@.contains_key(planet),
            final(self).knowledge_spec()@[planet].basics == basics,
            final(self).planet() == old(self).planet(),
            final(self).state_spec() == old(self).state_spec(),
            final(self).running_spec() == old(self).running_spec(),
            final(self).alive_spec() == old(self).alive_spec(),
            final(self).stall_spec() == old(self).stall_spec(),
            final(self).all_but_knowledge_kept(*old(self)),
            final(self).knowledge_spec().same_but(old(self).knowledge_spec(), planet),
            changed_only(final(self).knowledge_spec()@[planet], old(self).knowledge_spec(), planet, set![Field::Basics]),
    {
        self.knowledge.set_basics(planet, basics);
    }

    /// Records the combinations `planet` offers.
    pub fn record_combinations(&mut self, planet: u32, combinations: ComplexSet)
        requires
            old(self).wf(),
        ensures
            final(self).wf(),
            final(self).knowledge_spec()@.contains_key(planet),
            final(self).knowledge_spec()@[planet].combinations == combinations,
            final(self).planet() == old(self).planet(),
            final(self).state_spec() == old(self).state_spec(),
            final(self).running_spec() == old(self).running_spec(),
            final(self).alive_spec() == old(self).alive_spec(),
            final(self).stall_spec() == old(self).stall_spec(),
            final(self).all_but_knowledge_kept(*old(self)),
            final(self).knowledge_spec().same_but(old(self).knowledge_spec(), planet),
            changed_only(final(self).knowledge_spec()@[planet], old(self).knowledge_spec(), planet, set![Field::Combinations]),
    {
        self.knowledge.set_combinations(planet, combinations);
    }

    /// Records the charged cells observed on `planet`.
    pub fn record_charged_cells(&mut self, planet: u32, cells: u32)
        requires
            old(self).wf(),
        ensures
            final(self).wf(),
            final(self).knowledge_spec()@.contains_key(planet),
            final(self).knowledge_spec()@[planet].charged_cells == cells,
            final(self).planet() == old(self).planet(),
            final(self).state_spec() == old(self).state_spec(),
            final(self).running_spec() == old(self).running_spec(),
            final(self).alive_spec() == old(self).alive_spec(),
            final(self).stall_spec() == old(self).stall_spec(),
            final(self).all_but_knowledge_kept(*old(self)),
            final(self).knowledge_spec().same_but(old(self).knowledge_spec(), planet),
            changed_only(final(self).knowledge_spec()@[planet], old(self).knowledge_spec(), planet, set![Field::ChargedCells]),
    {
        self.knowledge.set_charged_cells(planet, cells);
    }

    /// Records that `planet`'s capabilities have been queried.
    pub fn record_visited(&mut self, planet: u32)
        requires
            old(self).wf(),
        ensures
            final(self).wf(),
            final(self).knowledge_spec().visited_spec(planet),
            final(self).planet() == old(self).planet(),
            final(self).state_spec() == old(self).state_spec(),
            final(self).running_spec() == old(self).running_spec(),
            final(self).alive_spec() == old(self).alive_spec(),
            final(self).stall_spec() == old(self).stall_spec(),
            final(self).all_but_knowledge_kept(*old(self)),
            final(self).knowledge_spec().same_but(old(self).knowledge_spec(), planet),
            changed_only(final(self).knowledge_spec()@[planet], old(self).knowledge_spec(), planet, set![Field::Visited]),
    {
        self.knowledge.mark_visited(planet);
    }

    /// Records that `planet` was destroyed (it answered only `Stopped`).
    pub fn record_dead(&mut self, planet: u32)
        requires
            old(self).wf(),
        ensures
            final(self).wf(),
            final(self).knowledge_spec().dead_spec(planet),
            final(self).knowledge_spec().visited_spec(planet),
            final(self).planet() == old(self).planet(),
            final(self).state_spec() == old(self).state_spec(),
            final(self).running_spec() == old(self).running_spec(),
            final(self).alive_spec() == old(self).alive_spec(),
            final(self).stall_spec() == old(self).stall_spec(),
            final(self).all_but_knowledge_kept(*old(self)),
            final(self).knowledge_spec().same_but(old(self).knowledge_spec(), planet),
            changed_only(final(self).knowledge_spec()@[planet], old(self).knowledge_spec(), planet, set![Field::Visited, Field::Dead]),
    {
        self.knowledge.mark_dead(planet);
    }

    /// Files a basic resource the planet generated.
    pub fn store_basic(&mut self, kind: BasicKind, resource: B)
        requires
            old(self).wf(),
        ensures
            final(self).wf(),
            forall|k: ResourceKind|
                #[trigger] final(self).bag_spec().amount(k) == old(self).bag_spec().amount(k) + if k
                    == ResourceKind::Basic(kind) { 1nat } else { 0nat },
            final(self).planet() == old(self).planet(),
            final(self).state_spec() == old(self).state_spec(),
            final(self).knowledge_spec() == old(self).knowledge_spec(),
            final(self).stall_spec() == old(self).stall_spec(),
            final(self).running_spec() == old(self).running_spec(),
            final(self).alive_spec() == old(self).alive_spec(),
    {
        self.bag.add_basic(kind, resource);
        proof {
            assert forall|k: ResourceKind|
                #[trigger] self.bag.amount(k) == old(self).bag.amount(k) + if k == ResourceKind::Basic(kind) {
                    1nat
                } else {
                    0nat
                } by {
                match k {
                    ResourceKind::Basic(b) => if b != kind {
                        assert(self.bag.basics(b) == old(self).bag.basics(b));
                    },
                    ResourceKind::Complex(c) => assert(self.bag.complexes(c) == old(self).bag.complexes(c)),
                }
            }
        }
    }

    /// Files a complex resource the planet combined.
    pub fn store_complex(&mut self, kind: ComplexKind, resource: C)
        requires
            old(self).wf(),
        ensures
            final(self).wf(),
            forall|k: ResourceKind|
                #[trigger] final(self).bag_spec().amount(k) == old(self).bag_spec().amount(k) + if k
                    == ResourceKind::Complex(kind) { 1nat } else { 0nat },
            final(self).planet() == old(self).planet(),
            final(self).state_spec() == old(self).state_spec(),
            final(self).knowledge_spec() == old(self).knowledge_spec(),
            final(self).stall_spec() == old(self).stall_spec(),
            final(self).running_spec() == old(self).running_spec(),
            final(self).alive_spec() == old(self).alive_spec(),
    {
        self.bag.add_complex(kind, resource);
        proof {
            assert forall|k: ResourceKind|
                #[trigger] self.bag.amount(k) == old(self).bag.amount(k) + if k == ResourceKind::Complex(kind) {
                    1nat
                } else {
                    0nat
                } by {
                match k {
                    ResourceKind::Basic(b) => assert(self.bag.basics(b) == old(self).bag.basics(b)),
                    ResourceKind::Complex(c) => if c != kind {
                        assert(self.bag.complexes(c) == old(self).bag.complexes(c));
                    },
                }
            }
        }
    }

    /// Puts an ingredient back after a failed craft.
    pub fn recover(&mut self, kind: ResourceKind, item: Item<B, C>)
        requires
            old(self).wf(),
        ensures
            final(self).wf(),
            match (kind, item) {
                (ResourceKind::Basic(b), Item::Basic(x)) => final(self).bag_spec().basics(b) == old(
                    self,
                ).bag_spec().basics(b).push(x),
                (ResourceKind::Complex(c), Item::Complex(x)) => final(self).bag_spec().complexes(c) == old(
                    self,
                ).bag_spec().complexes(c).push(x),
                _ => final(self).bag_spec() == old(self).bag_spec(),
            },
            final(self).planet() == old(self).planet(),
            final(self).state_spec() == old(self).state_spec(),
            final(self).knowledge_spec() == old(self).knowledge_spec(),
            final(self).stall_spec() == old(self).stall_spec(),
            final(self).running_spec() == old(self).running_spec(),
            final(self).alive_spec() == old(self).alive_spec(),
    {
        match (kind, item) {
            (ResourceKind::Basic(b), Item::Basic(x)) => self.bag.add_basic(b, x),
            (ResourceKind::Complex(c), Item::Complex(x)) => self.bag.add_complex(c, x),
            _ => {},
        }
    }

    /// Takes the ingredients of one `ty` out of the bag and assembles the
    /// combination request; the bag is untouched when one is missing.
    pub fn take_request(&mut self, ty: ComplexKind) -> (r: Option<Request<B, C>>)
        requires
            old(self).wf(),
        ensures
            final(self).wf(),
            r is Some <==> can_build(old(self).bag_spec(), ty),
            r is None ==> forall|k: ResourceKind| #[trigger] final(self).bag_spec().items(k) == old(self).bag_spec().items(k),
            r matches Some(req) ==> req.target == ty && built_from(old(self).bag_spec(), final(self).bag_spec(), req),
            final(self).planet() == old(self).planet(),
            final(self).state_spec() == old(self).state_spec(),
            final(self).knowledge_spec() == old(self).knowledge_spec(),
            final(self).stall_spec() == old(self).stall_spec(),
            final(self).running_spec() == old(self).running_spec(),
            final(self).alive_spec() == old(self).alive_spec(),
    {
        build_request(&mut self.bag, ty)
    }

    /// Basic units still needed to satisfy the whole task: for each basic
    /// kind, what the task needs minus what the bag holds (when positive).
    pub open spec fn needs_spec(self, b: BasicKind) -> nat {
        let need = weighted_basic(self.task_spec(), complex_kinds_in_order(), b);
        let have = self.bag_spec().amount(ResourceKind::Basic(b));
        if need > have {
            (need - have) as nat
        } else {
            0
        }
    }

    /// The basic resources still missing from the bag to satisfy the whole task.
    pub fn basic_needs(&self) -> (still: BasicTally)
        requires
            self.wf(),
        ensures
            forall|b: BasicKind| still.at(b) == self.needs_spec(b),
    {
        let kinds = all_complex_kinds();
        let mut need = BasicTally::new();
        for i in 0..kinds.len()
            invariant
                kinds@ == complex_kinds_in_order(),
                forall|c: ComplexKind| self.task.at(c) <= 1,
                forall|b: BasicKind|
                    #[trigger] need.at(b) == weighted_basic(self.task, kinds@.take(i as int), b),
                forall|b: BasicKind| need.at(b) <= 3 * i,
        {
            let c = kinds[i];
            let count = self.task.get(c);
            proof {
                assert forall|b: BasicKind| need.at(b) + count * basic_units(c, b) <= usize::MAX by {
                    lemma_basic_units_bounded(c, b);
                    assert(count * basic_units(c, b) <= 3) by (nonlinear_arith)
                        requires
                            count <= 1,
                            basic_units(c, b) <= 3,
                    ;
                }
            }
            basic_cost(c, count, &mut need);
            proof {
                assert forall|b: BasicKind|
                    #[trigger] need.at(b) == weighted_basic(self.task, kinds@.take(i + 1), b) by {
                    assert(kinds@.take(i + 1).drop_last() =~= kinds@.take(i as int));
                }
                assert forall|b: BasicKind| need.at(b) <= 3 * (i + 1) by {
                    lemma_basic_units_bounded(c, b);
                    assert(count * basic_units(c, b) <= 3) by (nonlinear_arith)
                        requires
                            count <= 1,
                            basic_units(c, b) <= 3,
                    ;
                }
            }
        }
        proof {
            assert(kinds@.take(6) =~= kinds@);
        }
        let mut still = BasicTally::new();
        let order = crate::explorer::smart_explorer::basic_kinds();
        for i in 0..order.len()
            invariant
                order@ == crate::explorer::smart_explorer::basics_in_order(),
                forall|b: BasicKind| #[trigger] need.at(b) == weighted_basic(self.task, complex_kinds_in_order(), b),
                forall|j: int| 0 <= j < i ==> #[trigger] still.at(order@[j]) == self.needs_spec(order@[j]),
                forall|j: int| i <= j < 4 ==> #[trigger] still.at(order@[j]) == 0,
        {
            let b = order[i];
            let n = need.get(b);
            let have = self.bag.count_basic(b);
            if n > have {
                still.add(b, n - have);
            }
        }
        proof {
            assert forall|b: BasicKind| still.at(b) == self.needs_spec(b) by {
                match b {
                    BasicKind::Oxygen => assert(still.at(order@[0]) == self.needs_spec(order@[0])),
                    BasicKind::Hydrogen => assert(still.at(order@[1]) == self.needs_spec(order@[1])),
                    BasicKind::Carbon => assert(still.at(order@[2]) == self.needs_spec(order@[2])),
                    BasicKind::Silicon => assert(still.at(order@[3]) == self.needs_spec(order@[3])),
                }
            }
        }
        still
    }

    /// Complex units to produce for the task, intermediates included.
    #[verifier::opaque]
    pub open spec fn targets_spec(self, k: ComplexKind) -> nat {
        weighted_production(self.task_spec(), complex_kinds_in_order(), k)
    }

    /// All complex resources that must be produced for the task,
    /// intermediates included.
    pub fn complex_targets(&self) -> (acc: ComplexTally)
        requires
            self.wf(),
        ensures
            forall|k: ComplexKind| acc.at(k) == self.targets_spec(k),
    {
        reveal(AiExplorer::targets_spec);
        let kinds = all_complex_kinds();
        let mut acc = ComplexTally::new();
        for i in 0..kinds.len()
            invariant
                kinds@ == complex_kinds_in_order(),
                forall|c: ComplexKind| self.task.at(c) <= 1,
                forall|k: ComplexKind|
                    #[trigger] acc.at(k) == weighted_production(self.task, kinds@.take(i as int), k),
                forall|k: ComplexKind| acc.at(k) <= 2 * i,
        {
            let c = kinds[i];
            let count = self.task.get(c);
            proof {
                assert forall|k: ComplexKind| acc.at(k) + count * production_units(c, k) <= usize::MAX by {
                    lemma_production_units_bounded(c, k);
                    assert(count * production_units(c, k) <= 2) by (nonlinear_arith)
                        requires
                            count <= 1,
                            production_units(c, k) <= 2,
                    ;
                }
            }
            complex_production(c, count, &mut acc);
            proof {
                assert forall|k: ComplexKind|
                    #[trigger] acc.at(k) == weighted_production(self.task, kinds@.take(i + 1), k) by {
                    assert(kinds@.take(i + 1).drop_last() =~= kinds@.take(i as int));
                }
                assert forall|k: ComplexKind| acc.at(k) <= 2 * (i + 1) by {
                    lemma_production_units_bounded(c, k);
                    assert(count * production_units(c, k) <= 2) by (nonlinear_arith)
                        requires
                            count <= 1,
                            production_units(c, k) <= 2,
                    ;
                }
            }
        }
        proof {
            assert(kinds@.take(6) =~= kinds@);
        }
        acc
    }

    /// Apart from its strategy bookkeeping, the explorer is as `o` was.
    pub open spec fn same_world(self, o: Self) -> bool {
        &&& self.id_spec() == o.id_spec()
        &&& self.planet() == o.planet()
        &&& self.bag_spec() == o.bag_spec()
        &&& self.knowledge_spec() == o.knowledge_spec()
        &&& self.adaptive_spec() == o.adaptive_spec()
        &&& self.running_spec() == o.running_spec()
        &&& self.alive_spec() == o.alive_spec()
    }

    /// The same resources are marked unobtainable as in `o`.
    pub open spec fn same_marks(self, o: Self) -> bool {
        forall|k: ResourceKind| #[trigger] self.unobtainable_spec(k) == o.unobtainable_spec(k)
    }

    /// The turn's activity, from the explorer's state alone.
    pub open spec fn activity_spec(self) -> Activity {
        if !self.alive_spec() || !self.running_spec() {
            Activity::Rest
        } else if self.state_spec() != StrategyState::Exploring && !self.knowledge_spec().visited_spec(
            self.planet(),
        ) {
            Activity::Query(self.planet())
        } else {
            match self.state_spec() {
                StrategyState::Exploring => Activity::Explore,
                StrategyState::Collecting => Activity::Collect,
                StrategyState::Crafting => Activity::Craft,
                StrategyState::Done => Activity::Rescan,
            }
        }
    }

    /// What to do on this turn: nothing unless running and alive; outside
    /// exploration, first get to know the planet the explorer stands on
    /// (the orchestrator may have moved it); otherwise the step of the
    /// current phase.
    pub fn next_activity(&self) -> (a: Activity)
        requires
            self.wf(),
        ensures
            a == self.activity_spec(),
    {
        if !self.alive || !self.running {
            return Activity::Rest;
        }
        if self.state != StrategyState::Exploring && !self.knowledge.is_visited(self.current_planet) {
            return Activity::Query(self.current_planet);
        }
        match self.state {
            StrategyState::Exploring => Activity::Explore,
            StrategyState::Collecting => Activity::Collect,
            StrategyState::Crafting => Activity::Craft,
            StrategyState::Done => Activity::Rescan,
        }
    }

    /// Exploration is over: `self` picked its goal from `o` and collects.
    pub open spec fn finished_exploring(self, o: Self) -> bool {
        &&& self.same_world(o)
        &&& self.same_marks(o)
        &&& self.state_spec() == StrategyState::Collecting
        &&& self.stall_spec() == 0
        &&& forall|c: ComplexKind| #[trigger]
            self.task_spec().at(c) == if o.adaptive_spec() && task_empty(o.task_spec()) {
                goal_of(o.knowledge_spec(), c)
            } else {
                o.task_spec().at(c)
            }
        &&& self.produced_spec() == o.produced_spec()
        &&& self.unreachable_spec() == o.unreachable_spec()
        &&& self.depleted_spec() == o.depleted_spec()
    }

    /// An exploration step: query the current planet if it was not yet;
    /// otherwise travel toward the nearest planet still to be explored; with
    /// none left, pick the goal (when adaptive and none was given: one of
    /// each complex kind the known alive planets can craft between them) and
    /// start collecting.
    pub fn explore_step(&mut self) -> (r: ExploreStep)
        requires
            old(self).wf(),
        ensures
            final(self).wf(),
            !old(self).knowledge_spec().visited_spec(old(self).planet()) ==> r == ExploreStep::Query(
                old(self).planet(),
            ) && *final(self) == *old(self),
            old(self).knowledge_spec().visited_spec(old(self).planet()) && target_in_reach(
                old(self).knowledge_spec(),
                old(self).unreachable_spec(),
                old(self).planet(),
            ) ==> {
                &&& r matches ExploreStep::Travel(h) && nearest_first_hop(
                    old(self).knowledge_spec(),
                    old(self).unreachable_spec(),
                    old(self).planet(),
                    h,
                )
                &&& *final(self) == *old(self)
            },
            old(self).knowledge_spec().visited_spec(old(self).planet()) && !target_in_reach(
                old(self).knowledge_spec(),
                old(self).unreachable_spec(),
                old(self).planet(),
            ) ==> r == ExploreStep::Finished && final(self).finished_exploring(*old(self)),
    {
        let current = self.current_planet;
        if !self.knowledge.is_visited(current) {
            return ExploreStep::Query(current);
        }
        match next_unvisited(&self.knowledge, &self.unreachable, current) {
            Some(dst) => ExploreStep::Travel(dst),
            None => {
                self.finish_exploration();
                ExploreStep::Finished
            },
        }
    }

    /// Whether no complex kind is wanted.
    fn task_is_empty(&self) -> (r: bool)
        ensures
            r == task_empty(self.task),
    {
        let kinds = all_complex_kinds();
        for i in 0..kinds.len()
            invariant
                kinds@ == complex_kinds_in_order(),
                forall|j: int| 0 <= j < i ==> self.task.at(#[trigger] kinds@[j]) == 0,
        {
            if self.task.get(kinds[i]) != 0 {
                return false;
            }
        }
        proof {
            assert forall|c: ComplexKind| #[trigger] self.task.at(c) == 0 by {
                match c {
                    ComplexKind::Diamond => assert(self.task.at(kinds@[0]) == 0),
                    ComplexKind::Water => assert(self.task.at(kinds@[1]) == 0),
                    ComplexKind::Life => assert(self.task.at(kinds@[2]) == 0),
                    ComplexKind::Robot => assert(self.task.at(kinds@[3]) == 0),
                    ComplexKind::Dolphin => assert(self.task.at(kinds@[4]) == 0),
                    ComplexKind::AIPartner => assert(self.task.at(kinds@[5]) == 0),
                }
            }
        }
        true
    }

    /// Exploration finished: pick the goal (if adaptive and none was given)
    /// and start collecting. The goal is one unit of each complex kind the
    /// known alive planets can craft between them, so no turn is wasted on
    /// basics for a target nothing can make.
    fn finish_exploration(&mut self)
        requires
            old(self).wf(),
        ensures
            final(self).wf(),
            final(self).finished_exploring(*old(self)),
    {
        let ghost o = *self;
        if self.adaptive && self.task_is_empty() {
            let (basics, combinations) = galaxy_offer(&self.knowledge);
            let feasible = feasible_complex(&basics, &combinations);
            let kinds = all_complex_kinds();
            for i in 0..kinds.len()
                invariant
                    kinds@ == complex_kinds_in_order(),
                    kinds@.no_duplicates(),
                    self.same_world(o),
                    self.unobtainable_basic == o.unobtainable_basic,
                    self.unobtainable_complex == o.unobtainable_complex,
                    self.state == o.state,
                    self.stall == o.stall,
                    self.produced == o.produced,
                    self.unreachable@ == o.unreachable@,
                    self.depleted@ == o.depleted@,
                    forall|c: ComplexKind| feasible.has(c) == craftable(basics, combinations, c),
                    basics == alive_basics(o.knowledge),
                    combinations == alive_combinations(o.knowledge),
                    forall|j: int| 0 <= j < i ==> #[trigger] self.task.at(kinds@[j]) == goal_of(o.knowledge, kinds@[j]),
                    forall|j: int| i <= j < 6 ==> #[trigger] self.task.at(kinds@[j]) == 0,
            {
                let c = kinds[i];
                if feasible.contains(c) {
                    proof {
                        assert(self.task.at(kinds@[i as int]) == 0);
                    }
                    self.task.add(c, 1);
                }
                proof {
                    assert forall|j: int| i + 1 <= j < 6 implies #[trigger] self.task.at(kinds@[j]) == 0 by {
                        assert(kinds@[j] != c);
                    }
                    assert forall|j: int| 0 <= j < i + 1 implies #[trigger] self.task.at(kinds@[j]) == goal_of(o.knowledge, kinds@[j]) by {
                        if j < i {
                            assert(kinds@[j] != c);
                        }
                    }
                }
            }
            proof {
                assert forall|c: ComplexKind| #[trigger] self.task.at(c) == goal_of(o.knowledge, c) by {
                    match c {
                        ComplexKind::Diamond => assert(self.task.at(kinds@[0]) == goal_of(o.knowledge, kinds@[0])),
                        ComplexKind::Water => assert(self.task.at(kinds@[1]) == goal_of(o.knowledge, kinds@[1])),
                        ComplexKind::Life => assert(self.task.at(kinds@[2]) == goal_of(o.knowledge, kinds@[2])),
                        ComplexKind::Robot => assert(self.task.at(kinds@[3]) == goal_of(o.knowledge, kinds@[3])),
                        ComplexKind::Dolphin => assert(self.task.at(kinds@[4]) == goal_of(o.knowledge, kinds@[4])),
                        ComplexKind::AIPartner => assert(self.task.at(kinds@[5]) == goal_of(o.knowledge, kinds@[5])),
                    }
                }
            }
        }
        self.state = StrategyState::Collecting;
        self.stall = 0;
    }

    /// The explorer failed to move to `dst`: it is no longer aimed at.
    pub fn mark_unreachable(&mut self, dst: u32)
        requires
            old(self).wf(),
        ensures
            final(self).wf(),
            forall|x: u32| #[trigger] final(self).unreachable_spec().contains(x) <==> old(self).unreachable_spec().contains(x) || x == dst,
            final(self).same_world(*old(self)),
            final(self).same_marks(*old(self)),
            final(self).state_spec() == old(self).state_spec(),
            final(self).stall_spec() == old(self).stall_spec(),
            final(self).task_spec() == old(self).task_spec(),
            final(self).produced_spec() == old(self).produced_spec(),
            final(self).depleted_spec() == old(self).depleted_spec(),
    {
        insert_planet(&mut self.unreachable, dst);
    }

    /// While idle, watch for planets added after the first sweep: when a
    /// planet still to be explored is in reach, explore again, and give the
    /// resources marked unobtainable another chance.
    pub fn rescan(&mut self)
        requires
            old(self).wf(),
        ensures
            final(self).wf(),
            final(self).same_world(*old(self)),
            final(self).task_spec() == old(self).task_spec(),
            final(self).produced_spec() == old(self).produced_spec(),
            final(self).unreachable_spec() == old(self).unreachable_spec(),
            final(self).depleted_spec() == old(self).depleted_spec(),
            target_in_reach(old(self).knowledge_spec(), old(self).unreachable_spec(), old(self).planet()) ==> {
                &&& final(self).state_spec() == StrategyState::Exploring
                &&& final(self).stall_spec() == 0
                &&& forall|k: ResourceKind| !#[trigger] final(self).unobtainable_spec(k)
            },
            !target_in_reach(old(self).knowledge_spec(), old(self).unreachable_spec(), old(self).planet())
                ==> *final(self) == *old(self),
    {
        if next_unvisited(&self.knowledge, &self.unreachable, self.current_planet).is_some() {
            self.unobtainable_basic = BasicSet::new();
            self.unobtainable_complex = ComplexSet::new();
            self.stall = 0;
            self.state = StrategyState::Exploring;
        }
    }


    /// The candidates that have not just run dry.
    pub open spec fn fresh_spec(self, cands: Seq<u32>) -> Seq<u32> {
        cands.filter(not_in(self.depleted_spec()))
    }

    /// Where the explorer works among `cands`: its preferred planet among
    /// those that have not just run dry, or among all of them if every one
    /// has.
    pub open spec fn choice_spec(self, cands: Seq<u32>) -> u32 {
        if self.fresh_spec(cands).len() == 0 {
            preferred_planet(self.knowledge_spec(), self.planet(), cands)
        } else {
            preferred_planet(self.knowledge_spec(), self.planet(), self.fresh_spec(cands))
        }
    }

    /// The explorer works on one of the candidates, and on a planet that has
    /// not just run dry whenever some candidate has not; among those it stays
    /// where it is if it can.
    pub proof fn lemma_choice_skips_dry_planets(self, cands: Seq<u32>)
        requires
            cands.len() > 0,
        ensures
            cands.contains(self.choice_spec(cands)),
            (exists|i: int| 0 <= i < cands.len() && !self.depleted_spec().contains(#[trigger] cands[i]))
                ==> !self.depleted_spec().contains(self.choice_spec(cands)),
            cands.contains(self.planet()) && !self.depleted_spec().contains(self.planet()) ==> self.choice_spec(
                cands,
            ) == self.planet(),
    {
        broadcast use vstd::seq_lib::group_filter_ensures;

        let f = self.fresh_spec(cands);
        let c = self.choice_spec(cands);
        if f.len() == 0 {
            lemma_preferred_within(self.knowledge_spec(), self.planet(), cands);
            if exists|i: int| 0 <= i < cands.len() && !self.depleted_spec().contains(#[trigger] cands[i]) {
                let i = choose|i: int| 0 <= i < cands.len() && !self.depleted_spec().contains(#[trigger] cands[i]);
                assert(not_in(self.depleted_spec())(cands[i]));
                assert(f.contains(cands[i]));
            }
            if cands.contains(self.planet()) && !self.depleted_spec().contains(self.planet()) {
                let i = cands.index_of(self.planet());
                assert(not_in(self.depleted_spec())(cands[i]));
                assert(f.contains(cands[i]));
            }
        } else {
            lemma_preferred_within(self.knowledge_spec(), self.planet(), f);
            lemma_filter_within(cands, not_in(self.depleted_spec()), c);
            if cands.contains(self.planet()) && !self.depleted_spec().contains(self.planet()) {
                let i = cands.index_of(self.planet());
                assert(not_in(self.depleted_spec())(cands[i]));
                assert(f.contains(cands[i]));
            }
        }
    }

    /// The dry planets after choosing among `cands`: forgotten (they had time
    /// to recharge) if every candidate was dry.
    pub open spec fn depleted_after(self, cands: Seq<u32>) -> Seq<u32> {
        if self.fresh_spec(cands).len() == 0 {
            Seq::empty()
        } else {
            self.depleted_spec()
        }
    }

    /// Chooses where to work on a resource, skipping planets that just ran
    /// out of energy so the explorer shops around instead of camping on a
    /// dry one.
    fn choose_planet(&mut self, candidates: &Vec<u32>) -> (r: Option<u32>)
        requires
            old(self).wf(),
        ensures
            final(self).wf(),
            final(self).same_world(*old(self)),
            final(self).unobtainable_basic == old(self).unobtainable_basic,
            final(self).unobtainable_complex == old(self).unobtainable_complex,
            final(self).state == old(self).state,
            final(self).stall == old(self).stall,
            final(self).task == old(self).task,
            final(self).produced == old(self).produced,
            final(self).unreachable == old(self).unreachable,
            candidates@.len() == 0 ==> r is None && final(self).depleted == old(self).depleted,
            candidates@.len() > 0 ==> r == Some(old(self).choice_spec(candidates@)) && final(self).depleted@
                == old(self).depleted_after(candidates@),
            r matches Some(p) ==> candidates@.contains(p),
            (exists|i: int|
                0 <= i < candidates@.len() && !old(self).depleted_spec().contains(#[trigger] candidates@[i]))
                ==> (r matches Some(p) && !old(self).depleted_spec().contains(p)),
    {
        proof {
            if candidates@.len() > 0 {
                old(self).lemma_choice_skips_dry_planets(candidates@);
            }
        }
        if candidates.len() == 0 {
            return None;
        }
        let mut fresh: Vec<u32> = Vec::new();
        for i in 0..candidates.len()
            invariant
                fresh@ == candidates@.take(i as int).filter(not_in(self.depleted@)),
        {
            let id = candidates[i];
            proof {
                assert(candidates@.take(i + 1) =~= candidates@.take(i as int).push(id));
                candidates@.take(i as int).lemma_filter_push(id, not_in(self.depleted@));
            }
            if !crate::explorer::travel::contains_planet(&self.depleted, id) {
                fresh.push(id);
            }
        }
        proof {
            assert(candidates@.take(candidates@.len() as int) =~= candidates@);
        }
        if fresh.len() == 0 {
            self.depleted = Vec::new();
            Some(pick_planet(&self.knowledge, self.current_planet, candidates))
        } else {
            Some(pick_planet(&self.knowledge, self.current_planet, &fresh))
        }
    }

    /// The stall count after a turn without progress in collecting: at the
    /// threshold, give up collecting and craft what can be crafted.
    pub open spec fn stalled_collecting(self, o: Self) -> bool {
        if o.stall_spec() + 1 >= MAX_STALL {
            self.stall_spec() == 0 && self.state_spec() == StrategyState::Crafting
        } else {
            self.stall_spec() == o.stall_spec() + 1 && self.state_spec() == o.state_spec()
        }
    }

    /// The stall count after a turn without progress in crafting: at the
    /// threshold, give up.
    pub open spec fn stalled_crafting(self, o: Self) -> bool {
        if o.stall_spec() + 1 >= MAX_STALL {
            self.stall_spec() == 0 && self.state_spec() == StrategyState::Done
        } else {
            self.stall_spec() == o.stall_spec() + 1 && self.state_spec() == o.state_spec()
        }
    }

    fn bump_stall_collect(&mut self)
        requires
            old(self).wf(),
        ensures
            final(self).wf(),
            final(self).stalled_collecting(*old(self)),
            final(self).same_world(*old(self)),
            final(self).unobtainable_basic == old(self).unobtainable_basic,
            final(self).unobtainable_complex == old(self).unobtainable_complex,
            final(self).task == old(self).task,
            final(self).produced == old(self).produced,
            final(self).unreachable == old(self).unreachable,
            final(self).depleted == old(self).depleted,
    {
        self.stall = self.stall + 1;
        if self.stall >= MAX_STALL {
            self.state = StrategyState::Crafting;
            self.stall = 0;
        }
    }

    fn bump_stall_craft(&mut self)
        requires
            old(self).wf(),
        ensures
            final(self).wf(),
            final(self).stalled_crafting(*old(self)),
            final(self).same_world(*old(self)),
            final(self).unobtainable_basic == old(self).unobtainable_basic,
            final(self).unobtainable_complex == old(self).unobtainable_complex,
            final(self).task == old(self).task,
            final(self).produced == old(self).produced,
            final(self).unreachable == old(self).unreachable,
            final(self).depleted == old(self).depleted,
    {
        self.stall = self.stall + 1;
        if self.stall >= MAX_STALL {
            self.state = StrategyState::Done;
            self.stall = 0;
        }
    }

    /// `b` is worth collecting now: still needed, not given up on, and some
    /// known alive planet generates it.
    pub open spec fn collectable(self, b: BasicKind) -> bool {
        &&& self.needs_spec(b) > 0
        &&& !self.unobtainable_spec(ResourceKind::Basic(b))
        &&& generating(self.knowledge_spec(), b).len() > 0
    }

    /// `b` is still needed and not given up on, but no known alive planet
    /// generates it.
    pub open spec fn hopeless_basic(self, b: BasicKind) -> bool {
        &&& self.needs_spec(b) > 0
        &&& !self.unobtainable_spec(ResourceKind::Basic(b))
        &&& generating(self.knowledge_spec(), b).len() == 0
    }

    /// The first basic kind worth collecting now, if any.
    pub open spec fn first_collectable(self) -> Option<BasicKind> {
        if self.collectable(BasicKind::Oxygen) {
            Some(BasicKind::Oxygen)
        } else if self.collectable(BasicKind::Hydrogen) {
            Some(BasicKind::Hydrogen)
        } else if self.collectable(BasicKind::Carbon) {
            Some(BasicKind::Carbon)
        } else if self.collectable(BasicKind::Silicon) {
            Some(BasicKind::Silicon)
        } else {
            None
        }
    }

    /// A collecting step: the basic kind to generate next and the planet to
    /// generate it on (travelling there first if it is not the current one).
    /// Kinds still needed that no known planet generates are marked
    /// unobtainable on the way. With nothing left to collect, crafting starts.
    pub fn collect_plan(&mut self) -> (r: Option<(BasicKind, u32)>)
        requires
            old(self).wf(),
        ensures
            final(self).wf(),
            final(self).same_world(*old(self)),
            final(self).task_spec() == old(self).task_spec(),
            final(self).produced_spec() == old(self).produced_spec(),
            final(self).unreachable_spec() == old(self).unreachable_spec(),
            match r {
                Some((b, dst)) => {
                    &&& old(self).first_collectable() == Some(b)
                    &&& dst == old(self).choice_spec(generating(old(self).knowledge_spec(), b))
                    &&& final(self).depleted_spec() == old(self).depleted_after(
                        generating(old(self).knowledge_spec(), b),
                    )
                    &&& final(self).state_spec() == old(self).state_spec()
                    &&& final(self).stall_spec() == old(self).stall_spec()
                },
                None => {
                    &&& old(self).first_collectable() is None
                    &&& final(self).depleted_spec() == old(self).depleted_spec()
                    &&& final(self).state_spec() == StrategyState::Crafting
                    &&& final(self).stall_spec() == 0
                },
            },
            forall|b: BasicKind| #[trigger]
                final(self).unobtainable_spec(ResourceKind::Basic(b)) == (old(self).unobtainable_spec(
                    ResourceKind::Basic(b),
                ) || (old(self).hopeless_basic(b) && match r {
                    Some((chosen, _)) => basic_rank(b) < basic_rank(chosen),
                    None => true,
                })),
            forall|c: ComplexKind| #[trigger]
                final(self).unobtainable_spec(ResourceKind::Complex(c)) == old(self).unobtainable_spec(
                    ResourceKind::Complex(c),
                ),
    {
        let needs = self.basic_needs();
        match self.find_collectable(&needs) {
            Some(b) => {
                let planets = planets_generating(&self.knowledge, b);
                match self.choose_planet(&planets) {
                    Some(d) => Some((b, d)),
                    None => None,
                }
            },
            None => {
                self.state = StrategyState::Crafting;
                self.stall = 0;
                None
            },
        }
    }

    /// The first basic kind worth collecting now, marking unobtainable on
    /// the way the kinds still needed that no known planet generates.
    #[verifier::spinoff_prover]
    #[verifier::rlimit(40)]
    fn find_collectable(&mut self, needs: &BasicTally) -> (r: Option<BasicKind>)
        requires
            old(self).wf(),
            forall|b: BasicKind| needs.at(b) == old(self).needs_spec(b),
        ensures
            final(self).wf(),
            final(self).same_world(*old(self)),
            final(self).state == old(self).state,
            final(self).stall == old(self).stall,
            final(self).task == old(self).task,
            final(self).produced == old(self).produced,
            final(self).unreachable == old(self).unreachable,
            final(self).depleted == old(self).depleted,
            final(self).unobtainable_complex == old(self).unobtainable_complex,
            r == old(self).first_collectable(),
            forall|b: BasicKind| #[trigger]
                final(self).unobtainable_basic.has(b) == (old(self).unobtainable_basic.has(b) || (old(
                    self,
                ).hopeless_basic(b) && match r {
                    Some(chosen) => basic_rank(b) < basic_rank(chosen),
                    None => true,
                })),
    {
        let ghost o = *self;
        let order = crate::explorer::smart_explorer::basic_kinds();
        for i in 0..order.len()
            invariant
                self.wf(),
                o == *old(self),
                order@ == crate::explorer::smart_explorer::basics_in_order(),
                forall|b: BasicKind| needs.at(b) == o.needs_spec(b),
                self.same_world(o),
                self.state == o.state,
                self.stall == o.stall,
                self.task == o.task,
                self.produced == o.produced,
                self.unreachable == o.unreachable,
                self.depleted == o.depleted,
                self.unobtainable_complex == o.unobtainable_complex,
                forall|b: BasicKind| #[trigger]
                    self.unobtainable_basic.has(b) == (o.unobtainable_basic.has(b) || (o.hopeless_basic(b)
                        && basic_rank(b) < i)),
                forall|j: int| 0 <= j < i ==> !o.collectable(#[trigger] order@[j]),
        {
            let b = order[i];
            proof {
                assert(basic_rank(b) == i);
            }
            if needs.get(b) != 0 && !self.unobtainable_basic.contains(b) {
                let planets = planets_generating(&self.knowledge, b);
                if planets.len() == 0 {
                    self.unobtainable_basic.insert(b);
                } else {
                    proof {
                        assert(o.collectable(b));
                        assert(o.first_collectable() == Some(b)) by {
                            if i >= 1 { assert(!o.collectable(order@[0])); }
                            if i >= 2 { assert(!o.collectable(order@[1])); }
                            if i >= 3 { assert(!o.collectable(order@[2])); }
                        }
                    }
                    return Some(b);
                }
            }
        }
        proof {
            assert(!o.collectable(order@[0]) && !o.collectable(order@[1]));
            assert(!o.collectable(order@[2]) && !o.collectable(order@[3]));
        }
        None
    }

    /// Where a collecting step left off: the planet did or did not hand
    /// over a generated resource (its kind and the resource itself).
    /// Energy flowing again forgets the dry planets; a dry planet is
    /// remembered and the stall count grows.
    pub fn collect_outcome(&mut self, generated: Option<(BasicKind, B)>)
        requires
            old(self).wf(),
        ensures
            final(self).wf(),
            final(self).id_spec() == old(self).id_spec(),
            final(self).planet() == old(self).planet(),
            final(self).knowledge_spec() == old(self).knowledge_spec(),
            final(self).same_marks(*old(self)),
            final(self).task_spec() == old(self).task_spec(),
            final(self).produced_spec() == old(self).produced_spec(),
            final(self).unreachable_spec() == old(self).unreachable_spec(),
            final(self).running_spec() == old(self).running_spec(),
            final(self).alive_spec() == old(self).alive_spec(),
            match generated {
                Some((kind, x)) => {
                    &&& final(self).bag_spec().basics(kind) == old(self).bag_spec().basics(kind).push(x)
                    &&& forall|k: ResourceKind| k != ResourceKind::Basic(kind) ==> #[trigger] final(self).bag_spec().items(k) == old(self).bag_spec().items(k)
                    &&& final(self).depleted_spec() == Seq::<u32>::empty()
                    &&& final(self).stall_spec() == 0
                    &&& final(self).state_spec() == old(self).state_spec()
                },
                None => {
                    &&& final(self).bag_spec() == old(self).bag_spec()
                    &&& forall|x: u32| #[trigger] final(self).depleted_spec().contains(x) <==> old(self).depleted_spec().contains(x) || x == old(self).planet()
                    &&& final(self).stalled_collecting(*old(self))
                },
            },
    {
        match generated {
            Some((kind, x)) => {
                self.bag.add_basic(kind, x);
                proof {
                    assert forall|k: ResourceKind| k != ResourceKind::Basic(kind) implies #[trigger] self.bag.items(k) == old(self).bag.items(k) by {
                        match k {
                            ResourceKind::Basic(b) => assert(self.bag.basics(b) == old(self).bag.basics(b)),
                            ResourceKind::Complex(c) => assert(self.bag.complexes(c) == old(self).bag.complexes(c)),
                        }
                    }
                }
                self.depleted = Vec::new();
                self.stall = 0;
            },
            None => {
                insert_planet(&mut self.depleted, self.current_planet);
                self.bump_stall_collect();
            },
        }
    }

    /// The explorer failed to move to `dst` during collecting: it is no
    /// longer aimed at, and the stall count grows.
    pub fn collect_travel_failed(&mut self, dst: u32)
        requires
            old(self).wf(),
        ensures
            final(self).wf(),
            forall|x: u32| #[trigger] final(self).unreachable_spec().contains(x) <==> old(self).unreachable_spec().contains(x) || x == dst,
            final(self).stalled_collecting(*old(self)),
            final(self).same_world(*old(self)),
            final(self).same_marks(*old(self)),
            final(self).task_spec() == old(self).task_spec(),
            final(self).produced_spec() == old(self).produced_spec(),
            final(self).depleted_spec() == old(self).depleted_spec(),
    {
        insert_planet(&mut self.unreachable, dst);
        self.bump_stall_collect();
    }


    /// Every complex kind has been produced as many times as the task needs
    /// (intermediates included).
    pub open spec fn all_met(self) -> bool {
        forall|c: ComplexKind| #[trigger] self.produced_spec().at(c) >= self.targets_spec(c)
    }

    /// `c` still has to be produced and has not been given up on.
    pub open spec fn pending(self, c: ComplexKind) -> bool {
        self.produced_spec().at(c) < self.targets_spec(c) && !self.unobtainable_spec(ResourceKind::Complex(c))
    }

    /// `c` can be crafted now: pending, combined by some known alive planet,
    /// and its ingredients are in the bag.
    pub open spec fn craftable_now(self, c: ComplexKind) -> bool {
        &&& self.pending(c)
        &&& combining(self.knowledge_spec(), c).len() > 0
        &&& can_build(self.bag_spec(), c)
    }

    /// `c` is pending but no known alive planet combines it.
    pub open spec fn hopeless_complex(self, c: ComplexKind) -> bool {
        self.pending(c) && combining(self.knowledge_spec(), c).len() == 0
    }

    /// The first complex kind, lowest tier first, that can be crafted now.
    pub open spec fn first_craftable(self) -> Option<ComplexKind> {
        if self.craftable_now(ComplexKind::Diamond) {
            Some(ComplexKind::Diamond)
        } else if self.craftable_now(ComplexKind::Water) {
            Some(ComplexKind::Water)
        } else if self.craftable_now(ComplexKind::Life) {
            Some(ComplexKind::Life)
        } else if self.craftable_now(ComplexKind::Robot) {
            Some(ComplexKind::Robot)
        } else if self.craftable_now(ComplexKind::Dolphin) {
            Some(ComplexKind::Dolphin)
        } else if self.craftable_now(ComplexKind::AIPartner) {
            Some(ComplexKind::AIPartner)
        } else {
            None
        }
    }

    /// Units of kind `k` in the bag.
    fn amount_of(&self, k: ResourceKind) -> (n: usize)
        ensures
            n == self.bag.amount(k),
    {
        match k {
            ResourceKind::Basic(b) => self.bag.count_basic(b),
            ResourceKind::Complex(c) => self.bag.count_complex(c),
        }
    }

    /// Whether the bag holds the direct ingredients to craft one `ty`.
    pub fn has_ingredients(&self, ty: ComplexKind) -> (r: bool)
        ensures
            r == can_build(self.bag_spec(), ty),
    {
        let slots = crate::explorer::smart_explorer::recipe(ty);
        let a = self.amount_of(slots[0]);
        if slots[0] == slots[1] {
            a >= 2
        } else {
            a >= 1 && self.amount_of(slots[1]) >= 1
        }
    }

    /// Whether `produced` reaches `targets` for every kind.
    fn targets_met(&self, targets: &ComplexTally) -> (r: bool)
        requires
            forall|c: ComplexKind| targets.at(c) == self.targets_spec(c),
        ensures
            r == self.all_met(),
    {
        let kinds = all_complex_kinds();
        for i in 0..kinds.len()
            invariant
                kinds@ == complex_kinds_in_order(),
                forall|c: ComplexKind| targets.at(c) == self.targets_spec(c),
                forall|j: int| 0 <= j < i ==> self.produced.at(#[trigger] kinds@[j]) >= targets.at(kinds@[j]),
        {
            if self.produced.get(kinds[i]) < targets.get(kinds[i]) {
                proof {
                    assert(self.produced_spec().at(kinds@[i as int]) < self.targets_spec(kinds@[i as int]));
                }
                return false;
            }
        }
        proof {
            assert forall|c: ComplexKind| #[trigger] self.produced.at(c) >= self.targets_spec(c) by {
                match c {
                    ComplexKind::Diamond => assert(self.produced.at(kinds@[0]) >= targets.at(kinds@[0])),
                    ComplexKind::Water => assert(self.produced.at(kinds@[1]) >= targets.at(kinds@[1])),
                    ComplexKind::Life => assert(self.produced.at(kinds@[2]) >= targets.at(kinds@[2])),
                    ComplexKind::Robot => assert(self.produced.at(kinds@[3]) >= targets.at(kinds@[3])),
                    ComplexKind::Dolphin => assert(self.produced.at(kinds@[4]) >= targets.at(kinds@[4])),
                    ComplexKind::AIPartner => assert(self.produced.at(kinds@[5]) >= targets.at(kinds@[5])),
                }
            }
        }
        true
    }

    /// The first complex kind that can be crafted now, marking unobtainable
    /// on the way the pending kinds no known planet combines.
    #[verifier::spinoff_prover]
    #[verifier::rlimit(40)]
    fn find_craftable(&mut self, targets: &ComplexTally) -> (r: Option<ComplexKind>)
        requires
            old(self).wf(),
            forall|c: ComplexKind| targets.at(c) == old(self).targets_spec(c),
        ensures
            final(self).wf(),
            final(self).same_world(*old(self)),
            final(self).state == old(self).state,
            final(self).stall == old(self).stall,
            final(self).task == old(self).task,
            final(self).produced == old(self).produced,
            final(self).unreachable == old(self).unreachable,
            final(self).depleted == old(self).depleted,
            final(self).unobtainable_basic == old(self).unobtainable_basic,
            r == old(self).first_craftable(),
            forall|c: ComplexKind| #[trigger]
                final(self).unobtainable_complex.has(c) == (old(self).unobtainable_complex.has(c) || (old(
                    self,
                ).hopeless_complex(c) && match r {
                    Some(chosen) => complex_rank(c) < complex_rank(chosen),
                    None => true,
                })),
    {
        let ghost o = *self;
        let kinds = all_complex_kinds();
        for i in 0..kinds.len()
            invariant
                self.wf(),
                o == *old(self),
                kinds@ == complex_kinds_in_order(),
                forall|c: ComplexKind| targets.at(c) == o.targets_spec(c),
                self.same_world(o),
                self.state == o.state,
                self.stall == o.stall,
                self.task == o.task,
                self.produced == o.produced,
                self.unreachable == o.unreachable,
                self.depleted == o.depleted,
                self.unobtainable_basic == o.unobtainable_basic,
                forall|c: ComplexKind| #[trigger]
                    self.unobtainable_complex.has(c) == (o.unobtainable_complex.has(c) || (o.hopeless_complex(
                        c,
                    ) && complex_rank(c) < i)),
                forall|j: int| 0 <= j < i ==> !o.craftable_now(#[trigger] kinds@[j]),
        {
            let c = kinds[i];
            proof {
                assert(complex_rank(c) == i);
            }
            if self.produced.get(c) < targets.get(c) && !self.unobtainable_complex.contains(c) {
                let planets = planets_combining(&self.knowledge, c);
                if planets.len() == 0 {
                    self.unobtainable_complex.insert(c);
                } else if self.has_ingredients(c) {
                    proof {
                        assert(o.craftable_now(c));
                        assert(o.first_craftable() == Some(c)) by {
                            if i >= 1 { assert(!o.craftable_now(kinds@[0])); }
                            if i >= 2 { assert(!o.craftable_now(kinds@[1])); }
                            if i >= 3 { assert(!o.craftable_now(kinds@[2])); }
                            if i >= 4 { assert(!o.craftable_now(kinds@[3])); }
                            if i >= 5 { assert(!o.craftable_now(kinds@[4])); }
                        }
                    }
                    return Some(c);
                }
            }
        }
        proof {
            assert(!o.craftable_now(kinds@[0]) && !o.craftable_now(kinds@[1]));
            assert(!o.craftable_now(kinds@[2]) && !o.craftable_now(kinds@[3]));
            assert(!o.craftable_now(kinds@[4]) && !o.craftable_now(kinds@[5]));
        }
        None
    }

    /// A crafting step: the complex kind to combine next and the planet to
    /// combine it on (travelling there first if it is not the current one),
    /// lowest tier first so intermediates exist when needed. Pending kinds
    /// that no known planet combines are marked unobtainable on the way.
    /// Once every target is met, the explorer is done; when nothing can be
    /// crafted this turn, the stall count grows.
    pub fn craft_plan(&mut self) -> (r: Option<(ComplexKind, u32)>)
        requires
            old(self).wf(),
        ensures
            final(self).wf(),
            final(self).same_world(*old(self)),
            final(self).task_spec() == old(self).task_spec(),
            final(self).produced_spec() == old(self).produced_spec(),
            final(self).unreachable_spec() == old(self).unreachable_spec(),
            old(self).all_met() ==> {
                &&& r is None
                &&& final(self).state_spec() == StrategyState::Done
                &&& final(self).stall_spec() == old(self).stall_spec()
                &&& final(self).depleted_spec() == old(self).depleted_spec()
            },
            !old(self).all_met() ==> match r {
                Some((c, dst)) => {
                    &&& old(self).first_craftable() == Some(c)
                    &&& dst == old(self).choice_spec(combining(old(self).knowledge_spec(), c))
                    &&& final(self).depleted_spec() == old(self).depleted_after(
                        combining(old(self).knowledge_spec(), c),
                    )
                    &&& final(self).state_spec() == old(self).state_spec()
                    &&& final(self).stall_spec() == old(self).stall_spec()
                },
                None => {
                    &&& old(self).first_craftable() is None
                    &&& final(self).depleted_spec() == old(self).depleted_spec()
                    &&& final(self).stalled_crafting(*old(self))
                },
            },
            forall|c: ComplexKind| #[trigger]
                final(self).unobtainable_spec(ResourceKind::Complex(c)) == (old(self).unobtainable_spec(
                    ResourceKind::Complex(c),
                ) || (!old(self).all_met() && old(self).hopeless_complex(c) && match r {
                    Some((chosen, _)) => complex_rank(c) < complex_rank(chosen),
                    None => true,
                })),
            forall|b: BasicKind| #[trigger]
                final(self).unobtainable_spec(ResourceKind::Basic(b)) == old(self).unobtainable_spec(
                    ResourceKind::Basic(b),
                ),
    {
        let targets = self.complex_targets();
        if self.targets_met(&targets) {
            self.state = StrategyState::Done;
            return None;
        }
        match self.find_craftable(&targets) {
            Some(c) => {
                let planets = planets_combining(&self.knowledge, c);
                match self.choose_planet(&planets) {
                    Some(d) => Some((c, d)),
                    None => None,
                }
            },
            None => {
                self.bump_stall_craft();
                None
            },
        }
    }

    /// The explorer failed to move to `dst` during crafting: it is no
    /// longer aimed at, and the stall count grows.
    pub fn craft_travel_failed(&mut self, dst: u32)
        requires
            old(self).wf(),
        ensures
            final(self).wf(),
            forall|x: u32| #[trigger] final(self).unreachable_spec().contains(x) <==> old(self).unreachable_spec().contains(x) || x == dst,
            final(self).stalled_crafting(*old(self)),
            final(self).same_world(*old(self)),
            final(self).same_marks(*old(self)),
            final(self).task_spec() == old(self).task_spec(),
            final(self).produced_spec() == old(self).produced_spec(),
            final(self).depleted_spec() == old(self).depleted_spec(),
    {
        insert_planet(&mut self.unreachable, dst);
        self.bump_stall_craft();
    }

    /// A combination failed on the current planet (no energy, missing
    /// ingredients, a refusal or no answer): the planet is remembered as dry
    /// and the stall count grows.
    pub fn craft_failed(&mut self)
        requires
            old(self).wf(),
        ensures
            final(self).wf(),
            forall|x: u32| #[trigger] final(self).depleted_spec().contains(x) <==> old(self).depleted_spec().contains(x) || x == old(self).planet(),
            final(self).stalled_crafting(*old(self)),
            final(self).same_world(*old(self)),
            final(self).same_marks(*old(self)),
            final(self).task_spec() == old(self).task_spec(),
            final(self).produced_spec() == old(self).produced_spec(),
            final(self).unreachable_spec() == old(self).unreachable_spec(),
    {
        insert_planet(&mut self.depleted, self.current_planet);
        self.bump_stall_craft();
    }

    /// The planet combined `ty` and handed over `resource`, of kind `made`:
    /// it goes in the bag, one more `ty` counts as produced, the dry planets
    /// are forgotten (energy is flowing again) and the stall count restarts.
    pub fn craft_succeeded(&mut self, ty: ComplexKind, made: ComplexKind, resource: C)
        requires
            old(self).wf(),
            old(self).produced_spec().at(ty) < usize::MAX,
        ensures
            final(self).wf(),
            final(self).bag_spec().complexes(made) == old(self).bag_spec().complexes(made).push(resource),
            forall|k: ResourceKind| k != ResourceKind::Complex(made) ==> #[trigger] final(self).bag_spec().items(k) == old(self).bag_spec().items(k),
            final(self).produced_spec().at(ty) == old(self).produced_spec().at(ty) + 1,
            forall|c: ComplexKind| c != ty ==> #[trigger] final(self).produced_spec().at(c) == old(self).produced_spec().at(c),
            final(self).depleted_spec() == Seq::<u32>::empty(),
            final(self).stall_spec() == 0,
            final(self).state_spec() == old(self).state_spec(),
            final(self).id_spec() == old(self).id_spec(),
            final(self).planet() == old(self).planet(),
            final(self).knowledge_spec() == old(self).knowledge_spec(),
            final(self).same_marks(*old(self)),
            final(self).task_spec() == old(self).task_spec(),
            final(self).unreachable_spec() == old(self).unreachable_spec(),
            final(self).running_spec() == old(self).running_spec(),
            final(self).alive_spec() == old(self).alive_spec(),
    {
        self.bag.add_complex(made, resource);
        proof {
            assert forall|k: ResourceKind| k != ResourceKind::Complex(made) implies #[trigger] self.bag.items(k) == old(self).bag.items(k) by {
                match k {
                    ResourceKind::Basic(b) => assert(self.bag.basics(b) == old(self).bag.basics(b)),
                    ResourceKind::Complex(c) => assert(self.bag.complexes(c) == old(self).bag.complexes(c)),
                }
            }
        }
        self.depleted = Vec::new();
        self.produced.add(ty, 1);
        self.stall = 0;
    }

}

/// Adds `x` to `v` unless it is already there.
fn insert_planet(v: &mut Vec<u32>, x: u32)
    ensures
        forall|y: u32| #[trigger] final(v)@.contains(y) <==> old(v)@.contains(y) || y == x,
{
    if !crate::explorer::travel::contains_planet(v, x) {
        v.push(x);
        proof {
            assert forall|y: u32| #[trigger] v@.contains(y) <==> old(v)@.contains(y) || y == x by {
                vstd::seq_lib::lemma_seq_contains_after_push(old(v)@, x, y);
            }
        }
    }
}

} // verus!

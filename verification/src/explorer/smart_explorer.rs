//! The planner of the recipe-walking explorer.
//!
//! During its turn the explorer discovers what the current planet can do
//! (cached until it travels), then spends the planet's charged cells one
//! production step at a time, walking the recipe tree toward the most valuable
//! complex resource the planet can help build; it travels when it cannot make
//! progress or has stayed long enough, and finally reports its bag. This
//! module holds the explorer's state and every decision of the turn; the
//! messages themselves are exchanged by the caller.

use vstd::prelude::*;

use super::inventory::{basics_after_take, complexes_after_take, oldest_item, Inventory};
use super::marco_explorer::bag::Item;
use super::marco_explorer::recipes::{request_slots, tier_of, Request, lemma_ingredients_are_lower};
use super::travel::{contains_planet, pick_destination, has_unvisited, is_first_unvisited};
use super::BagContent;
use crate::resource::{BasicKind, BasicSet, ComplexKind, ComplexSet, ResourceKind};

verus! {

/// Force a travel after this many turns on the same planet, so the explorer roams.
pub const STAY_LIMIT: u32 = 3;

/// Upper bound on production steps in a single turn.
pub const MAX_OPS_PER_TURN: usize = 8;

/// How many units of a "dead-end" basic resource to stockpile before stopping.
pub const MAX_BASIC_STOCK: usize = 3;

/// A single production action the explorer can take in one step.
#[derive(Clone, Copy, Debug, PartialEq, Eq, Structural)]
pub enum Step {
    /// Ask the planet to generate a basic resource.
    Generate(BasicKind),
    /// Ask the planet to combine resources from the bag into a complex one.
    Combine(ComplexKind),
}

/// The two ingredients of a complex resource, as in the game's rules.
pub fn recipe(c: ComplexKind) -> (r: [ResourceKind; 2])
    ensures
        r@ == seq![request_slots(c).0, request_slots(c).1],
{
    let r = match c {
        ComplexKind::Water => [ResourceKind::Basic(BasicKind::Hydrogen), ResourceKind::Basic(BasicKind::Oxygen)],
        ComplexKind::Diamond => [ResourceKind::Basic(BasicKind::Carbon), ResourceKind::Basic(BasicKind::Carbon)],
        ComplexKind::Life => [ResourceKind::Complex(ComplexKind::Water), ResourceKind::Basic(BasicKind::Carbon)],
        ComplexKind::Robot => [ResourceKind::Basic(BasicKind::Silicon), ResourceKind::Complex(ComplexKind::Life)],
        ComplexKind::Dolphin => [ResourceKind::Complex(ComplexKind::Water), ResourceKind::Complex(ComplexKind::Life)],
        ComplexKind::AIPartner => [ResourceKind::Complex(ComplexKind::Robot), ResourceKind::Complex(ComplexKind::Diamond)],
    };
    proof {
        assert(r@ =~= seq![request_slots(c).0, request_slots(c).1]);
    }
    r
}

/// How desirable a complex resource is: deeper recipes rank higher.
pub open spec fn value_of(c: ComplexKind) -> nat {
    match c {
        ComplexKind::AIPartner => 6,
        ComplexKind::Dolphin => 5,
        ComplexKind::Robot => 4,
        ComplexKind::Life => 3,
        ComplexKind::Water => 2,
        ComplexKind::Diamond => 1,
    }
}

/// How desirable a complex resource is. Deeper recipes rank higher, so the
/// explorer aims for the richest product its planet can help build.
pub fn value(c: ComplexKind) -> (v: u8)
    ensures
        v == value_of(c),
{
    match c {
        ComplexKind::AIPartner => 6,
        ComplexKind::Dolphin => 5,
        ComplexKind::Robot => 4,
        ComplexKind::Life => 3,
        ComplexKind::Water => 2,
        ComplexKind::Diamond => 1,
    }
}

/// Every complex kind, most valuable first.
pub open spec fn goals_by_value() -> Seq<ComplexKind> {
    seq![
        ComplexKind::AIPartner,
        ComplexKind::Dolphin,
        ComplexKind::Robot,
        ComplexKind::Life,
        ComplexKind::Water,
        ComplexKind::Diamond,
    ]
}

/// The goal order is by decreasing value.
pub proof fn lemma_goals_sorted_by_value(i: int, j: int)
    requires
        0 <= i < j < 6,
    ensures
        value_of(goals_by_value()[i]) > value_of(goals_by_value()[j]),
{
}

pub fn goal_order() -> (v: Vec<ComplexKind>)
    ensures
        v@ == goals_by_value(),
{
    let v = vec![
        ComplexKind::AIPartner,
        ComplexKind::Dolphin,
        ComplexKind::Robot,
        ComplexKind::Life,
        ComplexKind::Water,
        ComplexKind::Diamond,
    ];
    proof {
        assert(v@ =~= goals_by_value());
    }
    v
}

/// Every basic kind, in declaration order.
pub open spec fn basics_in_order() -> Seq<BasicKind> {
    seq![BasicKind::Oxygen, BasicKind::Hydrogen, BasicKind::Carbon, BasicKind::Silicon]
}

pub fn basic_kinds() -> (v: Vec<BasicKind>)
    ensures
        v@ == basics_in_order(),
{
    let v = vec![BasicKind::Oxygen, BasicKind::Hydrogen, BasicKind::Carbon, BasicKind::Silicon];
    proof {
        assert(v@ =~= basics_in_order());
    }
    v
}

/// The recipe-walking explorer's state, apart from its channels. `B` and `C`
/// are the types of the basic and complex resource objects it carries.
pub struct SmartExplorer<B, C> {
    id: u32,
    current_planet: u32,
    inventory: Inventory<B, C>,
    gens: BasicSet,
    combos: ComplexSet,
    caps_known: bool,
    visited: Vec<u32>,
    turns_here: u32,
    travel_seq: usize,
}

impl<B, C> SmartExplorer<B, C> {
    pub closed spec fn id_spec(self) -> u32 {
        self.id
    }

    pub closed spec fn planet(self) -> u32 {
        self.current_planet
    }

    pub closed spec fn inventory_spec(self) -> Inventory<B, C> {
        self.inventory
    }

    /// Units of kind `k` carried.
    pub open spec fn amount(self, k: ResourceKind) -> nat {
        self.inventory_spec().amount(k)
    }

    /// What the current planet can generate.
    pub closed spec fn gens_spec(self) -> BasicSet {
        self.gens
    }

    /// What the current planet can combine.
    pub closed spec fn combos_spec(self) -> ComplexSet {
        self.combos
    }

    /// The current planet's capabilities have been discovered.
    pub closed spec fn caps_known_spec(self) -> bool {
        self.caps_known
    }

    /// Planets visited so far.
    pub closed spec fn visited_spec(self) -> Seq<u32> {
        self.visited@
    }

    /// Turns spent on the current planet.
    pub closed spec fn turns_here_spec(self) -> u32 {
        self.turns_here
    }

    /// Number of rotating (all-visited) travels so far.
    pub closed spec fn travel_seq_spec(self) -> usize {
        self.travel_seq
    }

    /// An explorer with an empty bag on `current_planet`, which counts as
    /// visited; the planet's capabilities are not known yet.
    pub fn new(id: u32, current_planet: u32) -> (e: Self)
        ensures
            e.id_spec() == id,
            e.planet() == current_planet,
            forall|k: ResourceKind| e.amount(k) == 0,
            !e.caps_known_spec(),
            e.visited_spec() == seq![current_planet],
            e.turns_here_spec() == 0,
            e.travel_seq_spec() == 0,
    {
        let mut visited = Vec::new();
        visited.push(current_planet);
        SmartExplorer {
            id,
            current_planet,
            inventory: Inventory::new(),
            gens: BasicSet::new(),
            combos: ComplexSet::new(),
            caps_known: false,
            visited,
            turns_here: 0,
            travel_seq: 0,
        }
    }

    pub fn id(&self) -> (r: u32)
        ensures
            r == self.id_spec(),
    {
        self.id
    }

    pub fn current_planet(&self) -> (r: u32)
        ensures
            r == self.planet(),
    {
        self.current_planet
    }

    pub fn caps_known(&self) -> (r: bool)
        ensures
            r == self.caps_known_spec(),
    {
        self.caps_known
    }

    /// What the current planet is known to generate.
    pub fn gens(&self) -> (r: BasicSet)
        ensures
            r == self.gens_spec(),
    {
        self.gens
    }

    /// What the current planet is known to combine.
    pub fn combos(&self) -> (r: ComplexSet)
        ensures
            r == self.combos_spec(),
    {
        self.combos
    }

    /// Records the current planet's capabilities, as discovered.
    pub fn set_caps(&mut self, gens: BasicSet, combos: ComplexSet)
        ensures
            final(self).gens_spec() == gens,
            final(self).combos_spec() == combos,
            final(self).caps_known_spec(),
            final(self).inventory_spec() == old(self).inventory_spec(),
            final(self).planet() == old(self).planet(),
            final(self).visited_spec() == old(self).visited_spec(),
            final(self).turns_here_spec() == old(self).turns_here_spec(),
            final(self).travel_seq_spec() == old(self).travel_seq_spec(),
            final(self).id_spec() == old(self).id_spec(),
    {
        self.gens = gens;
        self.combos = combos;
        self.caps_known = true;
    }

    /// Units of kind `resource` carried.
    pub fn count(&self, resource: ResourceKind) -> (n: usize)
        ensures
            n == self.amount(resource),
    {
        self.inventory.count(resource)
    }

    /// The bag holds the ingredients to combine `c` right now.
    pub open spec fn can_combine_now_spec(self, c: ComplexKind) -> bool {
        let (a, b) = request_slots(c);
        if a == b {
            self.amount(a) >= 2
        } else {
            self.amount(a) >= 1 && self.amount(b) >= 1
        }
    }

    /// True if the bag already holds the ingredients to combine `c` right now.
    pub fn can_combine_now(&self, c: ComplexKind) -> (r: bool)
        ensures
            r == self.can_combine_now_spec(c),
    {
        let r = recipe(c);
        let a = r[0];
        let b = r[1];
        if a == b {
            self.count(a) >= 2
        } else {
            self.count(a) >= 1 && self.count(b) >= 1
        }
    }

    /// The ingredients of `c` still missing from the bag, in recipe order.
    pub open spec fn missing_spec(self, c: ComplexKind) -> Seq<ResourceKind> {
        let (a, b) = request_slots(c);
        if a == b {
            if self.amount(a) >= 2 { Seq::empty() } else { seq![a] }
        } else {
            let first: Seq<ResourceKind> = if self.amount(a) == 0 { seq![a] } else { Seq::empty() };
            let second: Seq<ResourceKind> = if self.amount(b) == 0 { seq![b] } else { Seq::empty() };
            first + second
        }
    }

    /// The ingredients of `c` that are still missing from the bag.
    pub fn missing(&self, c: ComplexKind) -> (v: Vec<ResourceKind>)
        ensures
            v@ == self.missing_spec(c),
    {
        let r = recipe(c);
        let a = r[0];
        let b = r[1];
        if a == b {
            if self.count(a) >= 2 {
                Vec::new()
            } else {
                let mut v = Vec::new();
                v.push(a);
                proof {
                    assert(v@ =~= seq![a]);
                }
                v
            }
        } else {
            let mut v = Vec::new();
            if self.count(a) == 0 {
                v.push(a);
            }
            if self.count(b) == 0 {
                v.push(b);
            }
            proof {
                let first: Seq<ResourceKind> = if self.amount(a) == 0 { seq![a] } else { Seq::empty() };
                let second: Seq<ResourceKind> = if self.amount(b) == 0 { seq![b] } else { Seq::empty() };
                assert(v@ =~= first + second);
            }
            v
        }
    }

    /// The step that makes progress on ingredient `r` of `goal`, if the
    /// planet can help with it.
    pub open spec fn ingredient_step(self, goal: ComplexKind, r: ResourceKind) -> Option<Step>
        decreases tier_of(goal), 0nat,
    {
        match r {
            ResourceKind::Basic(b) => if self.gens_spec().has(b) {
                Some(Step::Generate(b))
            } else {
                None
            },
            ResourceKind::Complex(c) => if tier_of(c) < tier_of(goal) {
                self.step_spec(c)
            } else {
                None
            },
        }
    }

    /// The first action that makes progress toward crafting `goal` on this
    /// planet: combine it if the bag holds its ingredients, otherwise work on
    /// its first missing ingredient that the planet can help with.
    pub open spec fn step_spec(self, goal: ComplexKind) -> Option<Step>
        decreases tier_of(goal), 1nat,
    {
        if !self.combos_spec().has(goal) {
            None
        } else if self.can_combine_now_spec(goal) {
            Some(Step::Combine(goal))
        } else {
            let m = self.missing_spec(goal);
            let first = if m.len() > 0 { self.ingredient_step(goal, m[0]) } else { None };
            if first is Some {
                first
            } else if m.len() > 1 {
                self.ingredient_step(goal, m[1])
            } else {
                None
            }
        }
    }

    /// A step is possible on this planet: a generation the planet offers, or
    /// a combination the planet offers whose ingredients are in the bag.
    pub open spec fn step_allowed(self, s: Step) -> bool {
        match s {
            Step::Generate(b) => self.gens_spec().has(b),
            Step::Combine(c) => self.combos_spec().has(c) && self.can_combine_now_spec(c),
        }
    }

    /// Every step the planner proposes toward a goal is possible here.
    pub proof fn lemma_step_allowed(self, goal: ComplexKind)
        ensures
            self.step_spec(goal) matches Some(s) ==> self.step_allowed(s),
        decreases tier_of(goal),
    {
        let m = self.missing_spec(goal);
        if self.combos_spec().has(goal) && !self.can_combine_now_spec(goal) {
            if m.len() > 0 {
                if let ResourceKind::Complex(c) = m[0] {
                    if tier_of(c) < tier_of(goal) {
                        self.lemma_step_allowed(c);
                    }
                }
            }
            if m.len() > 1 {
                if let ResourceKind::Complex(c) = m[1] {
                    if tier_of(c) < tier_of(goal) {
                        self.lemma_step_allowed(c);
                    }
                }
            }
        }
    }

    /// The first action that makes progress toward crafting `goal` on this
    /// planet, or `None` if this planet cannot help. Recurses into sub-recipes.
    pub fn step_toward(&self, goal: ComplexKind) -> (r: Option<Step>)
        ensures
            r == self.step_spec(goal),
        decreases tier_of(goal),
    {
        if !self.combos.contains(goal) {
            return None;
        }
        if self.can_combine_now(goal) {
            return Some(Step::Combine(goal));
        }
        let m = self.missing(goal);
        proof {
            assert(m@.len() <= 2);
        }
        for i in 0..m.len()
            invariant
                m@ == self.missing_spec(goal),
                m@.len() <= 2,
                self.combos_spec().has(goal),
                !self.can_combine_now_spec(goal),
                forall|j: int| 0 <= j < i ==> self.ingredient_step(goal, #[trigger] m@[j]) is None,
        {
            match m[i] {
                ResourceKind::Basic(b) => {
                    if self.gens.contains(b) {
                        return Some(Step::Generate(b));
                    }
                },
                ResourceKind::Complex(c) => {
                    proof {
                        assert(self.missing_spec(goal).len() > 0);
                        assert(tier_of(c) < tier_of(goal)) by {
                            let (a, b) = request_slots(goal);
                            assert(m@[i as int] == a || m@[i as int] == b);
                        }
                    }
                    let s = self.step_toward(c);
                    if s.is_some() {
                        return s;
                    }
                },
            }
        }
        None
    }

    /// The step of the first goal, in order of decreasing value from
    /// position `i` of [`goals_by_value`], toward which the planet can help.
    pub open spec fn first_goal_step(self, i: int) -> Option<Step>
        decreases 6 - i,
    {
        if i >= 6 || i < 0 {
            None
        } else if self.step_spec(goals_by_value()[i]) is Some {
            self.step_spec(goals_by_value()[i])
        } else {
            self.first_goal_step(i + 1)
        }
    }

    /// The first basic kind, from position `i` of [`basics_in_order`], that the
    /// planet generates and the bag holds fewer than [`MAX_BASIC_STOCK`] of.
    pub open spec fn first_stock_step(self, i: int) -> Option<Step>
        decreases 4 - i,
    {
        if i >= 4 || i < 0 {
            None
        } else if self.gens_spec().has(basics_in_order()[i]) && self.amount(
            ResourceKind::Basic(basics_in_order()[i]),
        ) < MAX_BASIC_STOCK {
            Some(Step::Generate(basics_in_order()[i]))
        } else {
            self.first_stock_step(i + 1)
        }
    }

    /// The planner's choice: work toward the most valuable goal the planet can
    /// help with; failing that, stockpile a basic the planet generates.
    pub open spec fn plan_spec(self) -> Option<Step> {
        if self.first_goal_step(0) is Some {
            self.first_goal_step(0)
        } else {
            self.first_stock_step(0)
        }
    }

    proof fn lemma_first_goal_step_allowed(self, i: int)
        ensures
            self.first_goal_step(i) matches Some(s) ==> self.step_allowed(s),
        decreases 6 - i,
    {
        if 0 <= i < 6 {
            self.lemma_step_allowed(goals_by_value()[i]);
            self.lemma_first_goal_step_allowed(i + 1);
        }
    }

    proof fn lemma_first_stock_step_allowed(self, i: int)
        ensures
            self.first_stock_step(i) matches Some(s) ==> self.step_allowed(s),
        decreases 4 - i,
    {
        if 0 <= i < 4 {
            self.lemma_first_stock_step_allowed(i + 1);
        }
    }

    proof fn lemma_first_goal_step_is_first(self, i: int)
        requires
            0 <= i <= 6,
        ensures
            self.first_goal_step(i) is Some ==> exists|j: int|
                i <= j < 6 && self.first_goal_step(i) == self.step_spec(#[trigger] goals_by_value()[j])
                    && forall|k: int| i <= k < j ==> self.step_spec(#[trigger] goals_by_value()[k]) is None,
            self.first_goal_step(i) is None ==> forall|k: int|
                i <= k < 6 ==> self.step_spec(#[trigger] goals_by_value()[k]) is None,
        decreases 6 - i,
    {
        if i < 6 {
            self.lemma_first_goal_step_is_first(i + 1);
            if self.step_spec(goals_by_value()[i]) is Some {
                assert(self.first_goal_step(i) == self.step_spec(goals_by_value()[i]));
            } else if self.first_goal_step(i + 1) is Some {
                let j = choose|j: int|
                    i + 1 <= j < 6 && self.first_goal_step(i + 1) == self.step_spec(#[trigger] goals_by_value()[j])
                        && forall|k: int| i + 1 <= k < j ==> self.step_spec(#[trigger] goals_by_value()[k]) is None;
                assert forall|k: int| i <= k < j implies self.step_spec(#[trigger] goals_by_value()[k]) is None by {
                    if k == i {
                    }
                }
            }
        }
    }

    /// The planner serves the most valuable goal it can: whenever the planet
    /// can help with some goal `h`, the planned step is the step toward a
    /// goal `g` at least as valuable as `h`, and no goal more valuable than
    /// `g` has any step here.
    pub proof fn lemma_plan_serves_most_valuable_goal(self, h: ComplexKind)
        requires
            self.step_spec(h) is Some,
        ensures
            exists|g: ComplexKind|
                {
                    &&& #[trigger] self.step_spec(g) == self.plan_spec()
                    &&& self.step_spec(g) is Some
                    &&& value_of(g) >= value_of(h)
                    &&& forall|k: ComplexKind| value_of(k) > value_of(g) ==> self.step_spec(k) is None
                },
    {
        self.lemma_first_goal_step_is_first(0);
        let order = goals_by_value();
        let hi: int = match h {
            ComplexKind::AIPartner => 0,
            ComplexKind::Dolphin => 1,
            ComplexKind::Robot => 2,
            ComplexKind::Life => 3,
            ComplexKind::Water => 4,
            ComplexKind::Diamond => 5,
        };
        assert(order[hi] == h);
        assert(self.first_goal_step(0) is Some);
        let j = choose|j: int|
            0 <= j < 6 && self.first_goal_step(0) == self.step_spec(#[trigger] goals_by_value()[j])
                && forall|k: int| 0 <= k < j ==> self.step_spec(#[trigger] goals_by_value()[k]) is None;
        let g = order[j];
        assert(j <= hi);
        assert(value_of(g) >= value_of(h)) by {
            if j < hi {
                lemma_goals_sorted_by_value(j, hi);
            }
        }
        assert forall|k: ComplexKind| value_of(k) > value_of(g) implies self.step_spec(k) is None by {
            let ki: int = match k {
                ComplexKind::AIPartner => 0,
                ComplexKind::Dolphin => 1,
                ComplexKind::Robot => 2,
                ComplexKind::Life => 3,
                ComplexKind::Water => 4,
                ComplexKind::Diamond => 5,
            };
            assert(order[ki] == k);
            if ki >= j {
                if ki > j {
                    lemma_goals_sorted_by_value(j, ki);
                }
            }
            assert(ki < j);
        }
        assert(self.step_spec(g) == self.plan_spec());
    }

    proof fn lemma_first_stock_step_is_first(self, i: int)
        requires
            0 <= i <= 4,
        ensures
            self.first_stock_step(i) matches Some(s) ==> exists|j: int|
                i <= j < 4 && s == Step::Generate(basics_in_order()[j]) && self.gens_spec().has(
                    #[trigger] basics_in_order()[j],
                ) && self.amount(ResourceKind::Basic(basics_in_order()[j])) < MAX_BASIC_STOCK,
            self.first_stock_step(i) is None ==> forall|j: int|
                i <= j < 4 ==> !(self.gens_spec().has(#[trigger] basics_in_order()[j]) && self.amount(
                    ResourceKind::Basic(basics_in_order()[j]),
                ) < MAX_BASIC_STOCK),
        decreases 4 - i,
    {
        if i < 4 {
            self.lemma_first_stock_step_is_first(i + 1);
        }
    }

    /// When the planet can help with no goal, the planner stockpiles: it
    /// generates a basic the planet offers and the bag holds fewer than
    /// [`MAX_BASIC_STOCK`] of, and plans nothing only when there is no such
    /// basic.
    pub proof fn lemma_plan_stockpiles_without_goal(self)
        requires
            forall|g: ComplexKind| #[trigger] self.step_spec(g) is None,
        ensures
            self.plan_spec() matches Some(s) ==> s matches Step::Generate(b) && self.gens_spec().has(b)
                && self.amount(ResourceKind::Basic(b)) < MAX_BASIC_STOCK,
            self.plan_spec() is None ==> forall|b: BasicKind|
                !(self.gens_spec().has(b) && self.amount(ResourceKind::Basic(b)) < MAX_BASIC_STOCK),
    {
        self.lemma_first_goal_step_is_first(0);
        if self.first_goal_step(0) is Some {
            let j = choose|j: int|
                0 <= j < 6 && self.first_goal_step(0) == self.step_spec(#[trigger] goals_by_value()[j])
                    && forall|k: int| 0 <= k < j ==> self.step_spec(#[trigger] goals_by_value()[k]) is None;
            assert(self.step_spec(goals_by_value()[j]) is None);
        }
        self.lemma_first_stock_step_is_first(0);
        if self.plan_spec() is None {
            assert forall|b: BasicKind|
                !(self.gens_spec().has(b) && self.amount(ResourceKind::Basic(b)) < MAX_BASIC_STOCK) by {
                let bi: int = match b {
                    BasicKind::Oxygen => 0,
                    BasicKind::Hydrogen => 1,
                    BasicKind::Carbon => 2,
                    BasicKind::Silicon => 3,
                };
                assert(basics_in_order()[bi] == b);
            }
        }
    }

    /// Picks the single next production step, walking the recipe tree toward
    /// the most valuable complex resource the current planet can help build.
    /// Falls back to stockpiling a generatable basic (useful on a later
    /// planet). Every proposed step is possible on this planet.
    pub fn plan(&self) -> (r: Option<Step>)
        ensures
            r == self.plan_spec(),
            r matches Some(s) ==> self.step_allowed(s),
    {
        proof {
            self.lemma_first_goal_step_allowed(0);
            self.lemma_first_stock_step_allowed(0);
        }
        let goals = goal_order();
        for i in 0..goals.len()
            invariant
                goals@ == goals_by_value(),
                self.first_goal_step(0) == self.first_goal_step(i as int),
        {
            let s = self.step_toward(goals[i]);
            proof {
                self.lemma_step_allowed(goals@[i as int]);
            }
            if s.is_some() {
                return s;
            }
        }
        let basics = basic_kinds();
        for i in 0..basics.len()
            invariant
                basics@ == basics_in_order(),
                self.first_goal_step(0) is None,
                self.first_stock_step(0) == self.first_stock_step(i as int),
        {
            let b = basics[i];
            if self.gens.contains(b) && self.count(ResourceKind::Basic(b)) < MAX_BASIC_STOCK {
                return Some(Step::Generate(b));
            }
        }
        None
    }
}


/// `item` belongs to the family of kind `k` (basic object for a basic kind,
/// complex object for a complex kind).
pub open spec fn item_fits<B, C>(item: Item<B, C>, k: ResourceKind) -> bool {
    match (k, item) {
        (ResourceKind::Basic(_), Item::Basic(_)) => true,
        (ResourceKind::Complex(_), Item::Complex(_)) => true,
        _ => false,
    }
}

/// Going from `before` to `after` took the two ingredients of `c` in slot
/// order: `first` is the oldest object filed under the first slot's kind,
/// `second` the oldest one left under the second slot's kind, and exactly
/// those two entries left the inventory.
pub open spec fn took_slots<B, C>(
    before: Inventory<B, C>,
    after: Inventory<B, C>,
    c: ComplexKind,
    first: Item<B, C>,
    second: Item<B, C>,
) -> bool {
    let (a, b) = request_slots(c);
    let b1 = basics_after_take(before.basics(), a);
    let c1 = complexes_after_take(before.complexes(), a);
    &&& first == oldest_item(before.basics(), before.complexes(), a)
    &&& second == oldest_item(b1, c1, b)
    &&& after.basics() == basics_after_take(b1, b)
    &&& after.complexes() == complexes_after_take(c1, b)
}

/// Units of `k` among the two ingredient slots of `c`.
pub open spec fn slot_uses(c: ComplexKind, k: ResourceKind) -> nat {
    (if request_slots(c).0 == k { 1nat } else { 0nat }) + (if request_slots(c).1 == k {
        1nat
    } else {
        0nat
    })
}

/// Pulls the ingredients for `target` out of `inventory` and builds the
/// combination request. Returns `None`, leaving the inventory untouched, if
/// the ingredients are not all present: availability is checked before
/// anything is removed, so a failure never loses a resource.
pub fn take_ingredients<B, C>(inventory: &mut Inventory<B, C>, target: ComplexKind) -> (r: Option<
    Request<B, C>,
>)
    ensures
        ({
            let (a, b) = request_slots(target);
            r is Some <==> if a == b {
                old(inventory).amount(a) >= 2
            } else {
                old(inventory).amount(a) >= 1 && old(inventory).amount(b) >= 1
            }
        }),
        r is None ==> *final(inventory) == *old(inventory),
        r matches Some(req) ==> {
            &&& req.target == target
            &&& item_fits(req.first, request_slots(target).0)
            &&& item_fits(req.second, request_slots(target).1)
            &&& forall|k: ResourceKind|
                #[trigger] final(inventory).amount(k) + slot_uses(target, k) == old(inventory).amount(k)
            &&& took_slots(*old(inventory), *final(inventory), target, req.first, req.second)
        },
{
    let r = recipe(target);
    let a = r[0];
    let b = r[1];
    if a == b {
        if inventory.count(a) < 2 {
            return None;
        }
    } else if inventory.count(a) < 1 || inventory.count(b) < 1 {
        return None;
    }
    let ghost start = *inventory;
    let first = inventory.take_item(a);
    let ghost mid = *inventory;
    let second = inventory.take_item(b);
    match (first, second) {
        (Some(x), Some(y)) => {
            proof {
                assert forall|k: ResourceKind|
                    #[trigger] inventory.amount(k) + slot_uses(target, k) == start.amount(k) by {
                    assert(mid.amount(k) + (if k == a && start.amount(k) > 0 { 1nat } else { 0nat })
                        == start.amount(k));
                    assert(inventory.amount(k) + (if k == b && mid.amount(k) > 0 { 1nat } else { 0nat })
                        == mid.amount(k));
                }
            }
            Some(Request { target, first: x, second: y })
        },
        _ => {
            proof {
                assert(mid.amount(b) > 0);
            }
            None
        },
    }
}

impl<B, C> SmartExplorer<B, C> {
    /// Starts a turn: one more turn spent on this planet.
    pub fn begin_turn(&mut self)
        requires
            old(self).turns_here_spec() < u32::MAX,
        ensures
            final(self).turns_here_spec() == old(self).turns_here_spec() + 1,
            final(self).inventory_spec() == old(self).inventory_spec(),
            final(self).planet() == old(self).planet(),
            final(self).caps_known_spec() == old(self).caps_known_spec(),
            final(self).gens_spec() == old(self).gens_spec(),
            final(self).combos_spec() == old(self).combos_spec(),
            final(self).visited_spec() == old(self).visited_spec(),
            final(self).travel_seq_spec() == old(self).travel_seq_spec(),
            final(self).id_spec() == old(self).id_spec(),
    {
        self.turns_here = self.turns_here + 1;
    }

    /// Turns spent on the current planet.
    pub fn turns_here(&self) -> (r: u32)
        ensures
            r == self.turns_here_spec(),
    {
        self.turns_here
    }

    /// Number of rotating travels so far.
    pub fn travel_seq(&self) -> (r: usize)
        ensures
            r == self.travel_seq_spec(),
    {
        self.travel_seq
    }

    /// At the end of the production phase: travel if nothing was produced
    /// this turn, or the explorer has stayed [`STAY_LIMIT`] turns here.
    pub fn should_travel(&self, produced: bool) -> (r: bool)
        ensures
            r == (!produced || self.turns_here_spec() >= STAY_LIMIT),
    {
        !produced || self.turns_here >= STAY_LIMIT
    }

    /// Where to travel among `neighbours`: the first one not visited yet,
    /// otherwise the next one in rotation.
    pub fn choose_destination(&mut self, neighbours: &Vec<u32>) -> (dst: u32)
        requires
            neighbours@.len() > 0,
            old(self).travel_seq_spec() < usize::MAX,
        ensures
            has_unvisited(neighbours@, old(self).visited_spec()) ==> exists|i: int|
                is_first_unvisited(neighbours@, old(self).visited_spec(), i) && dst == neighbours@[i]
                    && final(self).travel_seq_spec() == old(self).travel_seq_spec(),
            !has_unvisited(neighbours@, old(self).visited_spec()) ==> {
                &&& dst == neighbours@[(old(self).travel_seq_spec() as int) % (neighbours@.len() as int)]
                &&& final(self).travel_seq_spec() == old(self).travel_seq_spec() + 1
            },
            final(self).inventory_spec() == old(self).inventory_spec(),
            final(self).planet() == old(self).planet(),
            final(self).caps_known_spec() == old(self).caps_known_spec(),
            final(self).gens_spec() == old(self).gens_spec(),
            final(self).combos_spec() == old(self).combos_spec(),
            final(self).visited_spec() == old(self).visited_spec(),
            final(self).turns_here_spec() == old(self).turns_here_spec(),
            final(self).id_spec() == old(self).id_spec(),
    {
        pick_destination(neighbours, &self.visited, &mut self.travel_seq)
    }

    /// Updates the state after landing on `planet`: it is now visited, the
    /// turn count restarts and its capabilities are unknown.
    pub fn arrive(&mut self, planet: u32)
        ensures
            final(self).planet() == planet,
            final(self).visited_spec().contains(planet),
            forall|p: u32| old(self).visited_spec().contains(p) ==> final(self).visited_spec().contains(p),
            forall|p: u32| final(self).visited_spec().contains(p) ==> p == planet || old(self).visited_spec().contains(p),
            final(self).turns_here_spec() == 0,
            !final(self).caps_known_spec(),
            forall|b: BasicKind| !final(self).gens_spec().has(b),
            forall|c: ComplexKind| !final(self).combos_spec().has(c),
            final(self).inventory_spec() == old(self).inventory_spec(),
            final(self).travel_seq_spec() == old(self).travel_seq_spec(),
            final(self).id_spec() == old(self).id_spec(),
    {
        self.current_planet = planet;
        if !contains_planet(&self.visited, planet) {
            let ghost before = self.visited@;
            self.visited.push(planet);
            proof {
                assert(self.visited@[before.len() as int] == planet);
                assert forall|p: u32| before.contains(p) implies self.visited@.contains(p) by {
                    let i = choose|i: int| 0 <= i < before.len() && before[i] == p;
                    assert(self.visited@[i] == p);
                }
                assert forall|p: u32| self.visited@.contains(p) implies p == planet || before.contains(p) by {
                    let i = choose|i: int| 0 <= i < self.visited@.len() && self.visited@[i] == p;
                    if i < before.len() {
                        assert(before[i] == p);
                    }
                }
            }
        }
        self.turns_here = 0;
        self.caps_known = false;
        self.gens = BasicSet::new();
        self.combos = ComplexSet::new();
    }

    /// Empties the bag and forgets the planet's capabilities.
    pub fn reset(&mut self)
        ensures
            forall|k: ResourceKind| final(self).amount(k) == 0,
            !final(self).caps_known_spec(),
            forall|b: BasicKind| !final(self).gens_spec().has(b),
            forall|c: ComplexKind| !final(self).combos_spec().has(c),
            final(self).planet() == old(self).planet(),
            final(self).visited_spec() == old(self).visited_spec(),
            final(self).turns_here_spec() == old(self).turns_here_spec(),
            final(self).travel_seq_spec() == old(self).travel_seq_spec(),
            final(self).id_spec() == old(self).id_spec(),
    {
        self.inventory.clear();
        self.caps_known = false;
        self.gens = BasicSet::new();
        self.combos = ComplexSet::new();
    }

    /// Stores a basic resource the planet generated.
    pub fn store_basic(&mut self, kind: BasicKind, resource: B)
        ensures
            forall|k: ResourceKind|
                #[trigger] final(self).amount(k) == old(self).amount(k) + if k == ResourceKind::Basic(kind) {
                    1nat
                } else {
                    0nat
                },
            final(self).planet() == old(self).planet(),
            final(self).caps_known_spec() == old(self).caps_known_spec(),
            final(self).gens_spec() == old(self).gens_spec(),
            final(self).combos_spec() == old(self).combos_spec(),
            final(self).visited_spec() == old(self).visited_spec(),
            final(self).turns_here_spec() == old(self).turns_here_spec(),
            final(self).travel_seq_spec() == old(self).travel_seq_spec(),
            final(self).id_spec() == old(self).id_spec(),
    {
        self.inventory.push_basic(kind, resource);
    }

    /// Stores a complex resource the planet combined.
    pub fn store_complex(&mut self, kind: ComplexKind, resource: C)
        ensures
            forall|k: ResourceKind|
                #[trigger] final(self).amount(k) == old(self).amount(k) + if k == ResourceKind::Complex(kind) {
                    1nat
                } else {
                    0nat
                },
            final(self).planet() == old(self).planet(),
            final(self).caps_known_spec() == old(self).caps_known_spec(),
            final(self).gens_spec() == old(self).gens_spec(),
            final(self).combos_spec() == old(self).combos_spec(),
            final(self).visited_spec() == old(self).visited_spec(),
            final(self).turns_here_spec() == old(self).turns_here_spec(),
            final(self).travel_seq_spec() == old(self).travel_seq_spec(),
            final(self).id_spec() == old(self).id_spec(),
    {
        self.inventory.push_complex(kind, resource);
    }

    /// Puts back an ingredient the planet returned after a failed combination.
    pub fn restore(&mut self, kind: ResourceKind, item: Item<B, C>)
        requires
            item_fits(item, kind),
        ensures
            forall|k: ResourceKind|
                #[trigger] final(self).amount(k) == old(self).amount(k) + if k == kind { 1nat } else { 0nat },
            final(self).planet() == old(self).planet(),
            final(self).caps_known_spec() == old(self).caps_known_spec(),
            final(self).gens_spec() == old(self).gens_spec(),
            final(self).combos_spec() == old(self).combos_spec(),
            final(self).visited_spec() == old(self).visited_spec(),
    {
        self.inventory.restore(kind, item);
    }

    /// Pulls the typed ingredients for `target` out of the bag and builds the
    /// combination request; `None` (bag untouched) if they are not all present.
    pub fn build_request(&mut self, target: ComplexKind) -> (r: Option<Request<B, C>>)
        ensures
            r is Some <==> old(self).can_combine_now_spec(target),
            r is None ==> final(self).inventory_spec() == old(self).inventory_spec(),
            r matches Some(req) ==> {
                &&& req.target == target
                &&& item_fits(req.first, request_slots(target).0)
                &&& item_fits(req.second, request_slots(target).1)
                &&& forall|k: ResourceKind|
                    #[trigger] final(self).amount(k) + slot_uses(target, k) == old(self).amount(k)
                &&& took_slots(old(self).inventory_spec(), final(self).inventory_spec(), target, req.first, req.second)
            },
            final(self).planet() == old(self).planet(),
            final(self).caps_known_spec() == old(self).caps_known_spec(),
            final(self).gens_spec() == old(self).gens_spec(),
            final(self).combos_spec() == old(self).combos_spec(),
            final(self).visited_spec() == old(self).visited_spec(),
            final(self).turns_here_spec() == old(self).turns_here_spec(),
            final(self).travel_seq_spec() == old(self).travel_seq_spec(),
            final(self).id_spec() == old(self).id_spec(),
    {
        take_ingredients(&mut self.inventory, target)
    }

    /// The bag's contents, as counts.
    pub fn bag(&self) -> (content: BagContent)
        ensures
            forall|k: ResourceKind| content.amount(k) == self.amount(k),
    {
        self.inventory.content()
    }
}

} // verus!

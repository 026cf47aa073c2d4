//! The default explorer ("Miner").
//!
//! The explorer is reactive: its turn comes when the orchestrator asks for its
//! bag. On arriving at a planet it learns which basics the planet generates
//! and which combinations it offers. During a turn it mines one of those
//! basics, rotating through them, crafts a Diamond when the planet combines
//! Diamonds and it holds two Carbons, and, every [`TRAVEL_PERIOD`] + 1
//! turns, asks to move to a neighbouring planet before reporting its bag.
//! Because it mines whatever the planet produces, it works on every planet
//! type. This module holds the explorer's state and its decisions; the
//! messages are exchanged by the caller.

use vstd::prelude::*;

use super::inventory::{drop_first, first_obj, Inventory};
use super::smart_explorer::basics_in_order;
use super::BagContent;
use crate::resource::{BasicKind, BasicSet, ComplexKind, ComplexSet, ResourceKind};

verus! {

/// Number of turns between autonomous travel attempts.
pub const TRAVEL_PERIOD: u32 = 4;

/// The travel countdown after one turn that started at `c`: a turn at zero
/// travels and starts the countdown over.
pub open spec fn tick(c: u32) -> u32 {
    if c == 0 {
        TRAVEL_PERIOD
    } else {
        (c - 1) as u32
    }
}

/// The travel countdown after `n` turns of a new Miner.
pub open spec fn cooldown_after(n: nat) -> u32
    decreases n,
{
    if n == 0 {
        TRAVEL_PERIOD
    } else {
        tick(cooldown_after((n - 1) as nat))
    }
}

/// The basics of `s`, in the order of the kinds.
pub open spec fn supported_in_order(s: BasicSet) -> Seq<BasicKind> {
    basics_in_order().filter(|b: BasicKind| s.has(b))
}

proof fn lemma_cooldown_after(n: nat)
    ensures
        cooldown_after(n) == TRAVEL_PERIOD - n % (TRAVEL_PERIOD as nat + 1),
    decreases n,
{
    if n > 0 {
        let m = (n - 1) as nat;
        lemma_cooldown_after(m);
        assert(m % 5 == 4 ==> n % 5 == 0) by (nonlinear_arith)
            requires
                n == m + 1,
        ;
        assert(m % 5 < 4 ==> n % 5 == m % 5 + 1) by (nonlinear_arith)
            requires
                n == m + 1,
        ;
    }
}

/// A new Miner travels on every fifth turn and only then: its `n`-th turn
/// (counting from one) finds the countdown at zero exactly when `n` is a
/// multiple of `TRAVEL_PERIOD + 1`.
pub proof fn lemma_travel_every_fifth_turn(n: nat)
    requires
        n >= 1,
    ensures
        (cooldown_after((n - 1) as nat) == 0) <==> n % (TRAVEL_PERIOD as nat + 1) == 0,
{
    let m = (n - 1) as nat;
    lemma_cooldown_after(m);
    assert(m % 5 == 4 <==> n % 5 == 0) by (nonlinear_arith)
        requires
            n == m + 1,
    ;
}

/// The Miner's state, apart from its channels. `B` is the type of the basic
/// resource objects it carries; a crafted Diamond is only counted.
pub struct MockExplorer<B> {
    id: u32,
    current_planet: u32,
    basics: Inventory<B, ()>,
    diamonds: usize,
    travel_cooldown: u32,
    travel_seq: usize,
    /// What the current planet offers has been learned since arriving.
    caps_known: bool,
    /// The basics the current planet generates.
    supported: BasicSet,
    /// The combinations the current planet offers.
    combos: ComplexSet,
    /// Where the mining rotation stands among the supported basics.
    mine_next: usize,
}

impl<B> MockExplorer<B> {
    pub closed spec fn id_spec(self) -> u32 {
        self.id
    }

    pub closed spec fn planet(self) -> u32 {
        self.current_planet
    }

    /// Basic units of kind `b` carried.
    pub closed spec fn basic_amount(self, b: BasicKind) -> nat {
        self.basics.amount(ResourceKind::Basic(b))
    }

    /// The basic resource objects carried, oldest first, each with its kind.
    pub closed spec fn carried(self) -> Seq<(BasicKind, B)> {
        self.basics.basics()
    }

    pub closed spec fn diamonds_spec(self) -> usize {
        self.diamonds
    }

    pub closed spec fn cooldown(self) -> u32 {
        self.travel_cooldown
    }

    pub closed spec fn travel_seq_spec(self) -> usize {
        self.travel_seq
    }

    pub closed spec fn caps_known_spec(self) -> bool {
        self.caps_known
    }

    pub closed spec fn supported_spec(self) -> BasicSet {
        self.supported
    }

    pub closed spec fn combos_spec(self) -> ComplexSet {
        self.combos
    }

    pub closed spec fn mine_next_spec(self) -> usize {
        self.mine_next
    }

    /// Nothing but the bag, the Diamonds and the travel state changed from `o`.
    pub open spec fn same_caps(self, o: Self) -> bool {
        &&& self.caps_known_spec() == o.caps_known_spec()
        &&& self.supported_spec() == o.supported_spec()
        &&& self.combos_spec() == o.combos_spec()
        &&& self.mine_next_spec() == o.mine_next_spec()
    }

    /// A Miner with an empty bag on `current_planet`.
    pub fn new(id: u32, current_planet: u32) -> (e: Self)
        ensures
            e.id_spec() == id,
            e.planet() == current_planet,
            forall|b: BasicKind| e.basic_amount(b) == 0,
            e.diamonds_spec() == 0,
            e.cooldown() == cooldown_after(0),
            e.travel_seq_spec() == 0,
            !e.caps_known_spec(),
            e.supported_spec()@ == Set::<BasicKind>::empty(),
            e.combos_spec()@ == Set::<ComplexKind>::empty(),
            e.mine_next_spec() == 0,
    {
        let e = MockExplorer {
            id,
            current_planet,
            basics: Inventory::new(),
            diamonds: 0,
            travel_cooldown: TRAVEL_PERIOD,
            travel_seq: 0,
            caps_known: false,
            supported: BasicSet::new(),
            combos: ComplexSet::new(),
            mine_next: 0,
        };
        proof {
            assert(e.supported@ =~= Set::<BasicKind>::empty());
            assert(e.combos@ =~= Set::<ComplexKind>::empty());
        }
        e
    }

    /// Whether what the current planet offers has been learned since arriving.
    pub fn caps_known(&self) -> (r: bool)
        ensures
            r == self.caps_known_spec(),
    {
        self.caps_known
    }

    /// Caches what the current planet offers: the basics it generates and the
    /// combinations it offers; the mining rotation starts over.
    pub fn learn(&mut self, supported: BasicSet, combos: ComplexSet)
        ensures
            final(self).caps_known_spec(),
            final(self).supported_spec() == supported,
            final(self).combos_spec() == combos,
            final(self).mine_next_spec() == 0,
            final(self).planet() == old(self).planet(),
            final(self).travel_seq_spec() == old(self).travel_seq_spec(),
            final(self).cooldown() == old(self).cooldown(),
            final(self).diamonds_spec() == old(self).diamonds_spec(),
            forall|b: BasicKind| final(self).basic_amount(b) == old(self).basic_amount(b),
    {
        self.caps_known = true;
        self.supported = supported;
        self.combos = combos;
        self.mine_next = 0;
    }

    pub fn id(&self) -> (r: u32)
        ensures
            r == self.id_spec(),
    {
        self.id
    }

    pub fn current_planet(&self) -> (r: u32)
        ensures
            r == self.planet(),
    {
        self.current_planet
    }

    pub fn travel_seq(&self) -> (r: usize)
        ensures
            r == self.travel_seq_spec(),
    {
        self.travel_seq
    }

    pub fn diamonds(&self) -> (r: usize)
        ensures
            r == self.diamonds_spec(),
    {
        self.diamonds
    }

    /// Number of Carbons carried.
    pub fn carbon_count(&self) -> (n: usize)
        ensures
            n == self.basic_amount(BasicKind::Carbon),
    {
        self.basics.count(ResourceKind::Basic(BasicKind::Carbon))
    }

    /// The basic to mine this turn: the next supported basic in rotation
    /// (`None`, and the rotation as it was, when the planet generates none).
    pub fn next_basic(&mut self) -> (r: Option<BasicKind>)
        ensures
            ({
                let l = supported_in_order(old(self).supported_spec());
                if l.len() == 0 {
                    &&& r is None
                    &&& final(self).mine_next_spec() == old(self).mine_next_spec()
                } else {
                    &&& r == Some(l[old(self).mine_next_spec() as int % l.len() as int])
                    &&& final(self).mine_next_spec() == old(self).mine_next_spec() as int % l.len() as int + 1
                }
            }),
            final(self).caps_known_spec() == old(self).caps_known_spec(),
            final(self).supported_spec() == old(self).supported_spec(),
            final(self).combos_spec() == old(self).combos_spec(),
            final(self).planet() == old(self).planet(),
            final(self).travel_seq_spec() == old(self).travel_seq_spec(),
            final(self).cooldown() == old(self).cooldown(),
            final(self).diamonds_spec() == old(self).diamonds_spec(),
            forall|b: BasicKind| final(self).basic_amount(b) == old(self).basic_amount(b),
    {
        let all = super::smart_explorer::basic_kinds();
        let ghost keep = |b: BasicKind| self.supported.has(b);
        let mut l: Vec<BasicKind> = Vec::new();
        for i in 0..all.len()
            invariant
                all@ == basics_in_order(),
                keep == (|b: BasicKind| self.supported.has(b)),
                l@ == all@.take(i as int).filter(keep),
        {
            let b = all[i];
            proof {
                assert(all@.take(i + 1) =~= all@.take(i as int).push(b));
                all@.take(i as int).lemma_filter_push(b, keep);
            }
            if self.supported.contains(b) {
                l.push(b);
            }
        }
        proof {
            assert(all@.take(all.len() as int) =~= all@);
            assert(l@ == supported_in_order(self.supported));
        }
        if l.len() == 0 {
            None
        } else {
            let at = self.mine_next % l.len();
            self.mine_next = at + 1;
            Some(l[at])
        }
    }

    /// Whether to craft a Diamond this turn: the planet combines Diamonds and
    /// two Carbons are held.
    pub fn should_craft(&self) -> (r: bool)
        ensures
            r == (self.combos_spec().has(ComplexKind::Diamond) && self.basic_amount(BasicKind::Carbon) >= 2),
    {
        self.combos.contains(ComplexKind::Diamond) && self.carbon_count() >= 2
    }

    /// Advances the travel countdown; true when this turn travels, in which
    /// case the countdown starts over.
    pub fn tick_travel(&mut self) -> (travel: bool)
        ensures
            travel == (old(self).cooldown() == 0),
            final(self).cooldown() == tick(old(self).cooldown()),
            final(self).same_caps(*old(self)),
            travel ==> final(self).cooldown() == TRAVEL_PERIOD,
            !travel ==> final(self).cooldown() == old(self).cooldown() - 1,
            final(self).planet() == old(self).planet(),
            final(self).travel_seq_spec() == old(self).travel_seq_spec(),
            final(self).diamonds_spec() == old(self).diamonds_spec(),
            forall|b: BasicKind| final(self).basic_amount(b) == old(self).basic_amount(b),
    {
        if self.travel_cooldown == 0 {
            self.travel_cooldown = TRAVEL_PERIOD;
            true
        } else {
            self.travel_cooldown = self.travel_cooldown - 1;
            false
        }
    }

    /// The neighbour to travel to: the next one in rotation.
    pub fn next_destination(&mut self, neighbours: &Vec<u32>) -> (dst: u32)
        requires
            neighbours@.len() > 0,
            old(self).travel_seq_spec() < usize::MAX,
        ensures
            dst == neighbours@[(old(self).travel_seq_spec() as int) % (neighbours@.len() as int)],
            final(self).travel_seq_spec() == old(self).travel_seq_spec() + 1,
            final(self).planet() == old(self).planet(),
            final(self).cooldown() == old(self).cooldown(),
            final(self).diamonds_spec() == old(self).diamonds_spec(),
            forall|b: BasicKind| final(self).basic_amount(b) == old(self).basic_amount(b),
            final(self).same_caps(*old(self)),
    {
        let dst = neighbours[self.travel_seq % neighbours.len()];
        self.travel_seq = self.travel_seq + 1;
        dst
    }

    /// Moves to `planet` (the orchestrator handed over a channel to it); what
    /// the new planet offers is still to be learned.
    pub fn relocate(&mut self, planet: u32)
        ensures
            final(self).planet() == planet,
            !final(self).caps_known_spec(),
            final(self).supported_spec() == old(self).supported_spec(),
            final(self).combos_spec() == old(self).combos_spec(),
            final(self).mine_next_spec() == old(self).mine_next_spec(),
            final(self).travel_seq_spec() == old(self).travel_seq_spec(),
            final(self).cooldown() == old(self).cooldown(),
            final(self).diamonds_spec() == old(self).diamonds_spec(),
            forall|b: BasicKind| final(self).basic_amount(b) == old(self).basic_amount(b),
    {
        self.current_planet = planet;
        self.caps_known = false;
    }

    /// Empties the bag.
    pub fn reset(&mut self)
        ensures
            forall|b: BasicKind| final(self).basic_amount(b) == 0,
            final(self).diamonds_spec() == 0,
            final(self).planet() == old(self).planet(),
            final(self).travel_seq_spec() == old(self).travel_seq_spec(),
            final(self).cooldown() == old(self).cooldown(),
            final(self).same_caps(*old(self)),
    {
        self.basics.clear();
        self.diamonds = 0;
    }

    /// Stores a basic resource the planet generated.
    pub fn store_basic(&mut self, kind: BasicKind, resource: B)
        ensures
            forall|b: BasicKind|
                #[trigger] final(self).basic_amount(b) == old(self).basic_amount(b) + if b == kind {
                    1nat
                } else {
                    0nat
                },
            final(self).diamonds_spec() == old(self).diamonds_spec(),
            final(self).planet() == old(self).planet(),
            final(self).travel_seq_spec() == old(self).travel_seq_spec(),
            final(self).cooldown() == old(self).cooldown(),
            final(self).same_caps(*old(self)),
    {
        self.basics.push_basic(kind, resource);
    }

    /// Takes out the two oldest Carbons, oldest first; `None` (bag untouched)
    /// if there are fewer than two.
    pub fn take_two_carbon(&mut self) -> (r: Option<(B, B)>)
        ensures
            r is Some <==> old(self).basic_amount(BasicKind::Carbon) >= 2,
            r is None ==> forall|b: BasicKind| final(self).basic_amount(b) == old(self).basic_amount(b),
            r is Some ==> forall|b: BasicKind|
                #[trigger] final(self).basic_amount(b) + (if b == BasicKind::Carbon { 2nat } else { 0nat })
                    == old(self).basic_amount(b),
            r matches Some((x, y)) ==> {
                let rest = drop_first(old(self).carried(), BasicKind::Carbon);
                &&& x == first_obj(old(self).carried(), BasicKind::Carbon)
                &&& y == first_obj(rest, BasicKind::Carbon)
                &&& final(self).carried() == drop_first(rest, BasicKind::Carbon)
            },
            final(self).diamonds_spec() == old(self).diamonds_spec(),
            final(self).planet() == old(self).planet(),
            final(self).travel_seq_spec() == old(self).travel_seq_spec(),
            final(self).cooldown() == old(self).cooldown(),
            final(self).same_caps(*old(self)),
    {
        self.basics.take_two_basic(BasicKind::Carbon)
    }

    /// Counts a Diamond the planet crafted.
    pub fn record_diamond(&mut self)
        requires
            old(self).diamonds_spec() < usize::MAX,
        ensures
            final(self).diamonds_spec() == old(self).diamonds_spec() + 1,
            forall|b: BasicKind| final(self).basic_amount(b) == old(self).basic_amount(b),
            final(self).planet() == old(self).planet(),
            final(self).travel_seq_spec() == old(self).travel_seq_spec(),
            final(self).cooldown() == old(self).cooldown(),
            final(self).same_caps(*old(self)),
    {
        self.diamonds = self.diamonds + 1;
    }

    /// The bag as reported: the basics and the Diamonds held.
    pub fn bag(&self) -> (content: BagContent)
        ensures
            forall|b: BasicKind| content.amount(ResourceKind::Basic(b)) == self.basic_amount(b),
            content.amount(ResourceKind::Complex(ComplexKind::Diamond)) == self.diamonds_spec(),
            forall|c: ComplexKind| c != ComplexKind::Diamond ==> content.amount(ResourceKind::Complex(c)) == 0,
    {
        let mut bag = BagContent::new();
        let all = super::smart_explorer::basic_kinds();
        for i in 0..all.len()
            invariant
                all@ == basics_in_order(),
                forall|j: int| 0 <= j < i ==> bag.amount(ResourceKind::Basic(#[trigger] all@[j])) == self.basic_amount(all@[j]),
                forall|j: int| i <= j < all@.len() ==> bag.amount(ResourceKind::Basic(#[trigger] all@[j])) == 0,
                forall|c: ComplexKind| bag.amount(ResourceKind::Complex(c)) == 0,
        {
            let b = all[i];
            let n = self.basics.count(ResourceKind::Basic(b));
            bag.add(ResourceKind::Basic(b), n);
        }
        bag.add(ResourceKind::Complex(ComplexKind::Diamond), self.diamonds);
        proof {
            assert forall|b: BasicKind| bag.amount(ResourceKind::Basic(b)) == self.basic_amount(b) by {
                match b {
                    BasicKind::Oxygen => assert(all@[0] == b),
                    BasicKind::Hydrogen => assert(all@[1] == b),
                    BasicKind::Carbon => assert(all@[2] == b),
                    BasicKind::Silicon => assert(all@[3] == b),
                }
            }
        }
        bag
    }
}

} // verus!

//! The timed autonomous explorer.
//!
//! It mines Carbon and crafts Diamonds on its current planet without any
//! external command: once started (by `StartExplorerAI`) it takes one step
//! per interval, and stays responsive to every orchestrator message in
//! between. This module holds the explorer's state and its decisions; the
//! messages and the clock are handled by the caller.

use vstd::prelude::*;

use super::inventory::{drop_first, first_obj, Inventory};
use super::BagContent;
use crate::resource::{BasicKind, ComplexKind, ComplexTally, ResourceKind};

verus! {

/// What the explorer does in an autonomous step.
#[derive(Clone, Copy, Debug, PartialEq, Eq, Structural)]
pub enum MineAction {
    /// Ask the planet for a Carbon.
    GenerateCarbon,
    /// Fuse two Carbons into a Diamond.
    CraftDiamond,
}

/// The timed explorer's state, apart from its channels and clock. `B` is the
/// type of the basic resource objects it carries; crafted complex resources
/// are only counted.
pub struct AiExplorer<B> {
    id: u32,
    current_planet: u32,
    basics: Inventory<B, ()>,
    complex: ComplexTally,
    ai_running: bool,
}

impl<B> AiExplorer<B> {
    pub closed spec fn id_spec(self) -> u32 {
        self.id
    }

    pub closed spec fn planet(self) -> u32 {
        self.current_planet
    }

    pub closed spec fn basic_amount(self, b: BasicKind) -> nat {
        self.basics.amount(ResourceKind::Basic(b))
    }

    /// The basic resource objects carried, oldest first, each with its kind.
    pub closed spec fn carried(self) -> Seq<(BasicKind, B)> {
        self.basics.basics()
    }

    pub closed spec fn complex_amount(self, c: ComplexKind) -> nat {
        self.complex.at(c) as nat
    }

    /// Units of kind `k` in the bag.
    pub open spec fn kind_amount(self, k: ResourceKind) -> nat {
        match k {
            ResourceKind::Basic(b) => self.basic_amount(b),
            ResourceKind::Complex(c) => self.complex_amount(c),
        }
    }

    pub closed spec fn running_spec(self) -> bool {
        self.ai_running
    }

    /// A stopped explorer with an empty bag on `current_planet`.
    pub fn new(id: u32, current_planet: u32) -> (e: Self)
        ensures
            e.id_spec() == id,
            e.planet() == current_planet,
            forall|b: BasicKind| e.basic_amount(b) == 0,
            forall|c: ComplexKind| e.complex_amount(c) == 0,
            !e.running_spec(),
    {
        AiExplorer {
            id,
            current_planet,
            basics: Inventory::new(),
            complex: ComplexTally::new(),
            ai_running: false,
        }
    }

    pub fn id(&self) -> (r: u32)
        ensures
            r == self.id_spec(),
    {
        self.id
    }

    pub fn current_planet(&self) -> (r: u32)
        ensures
            r == self.planet(),
    {
        self.current_planet
    }

    /// Whether the autonomous steps are enabled.
    pub fn running(&self) -> (r: bool)
        ensures
            r == self.running_spec(),
    {
        self.ai_running
    }

    /// Enables or disables the autonomous steps.
    pub fn set_running(&mut self, running: bool)
        ensures
            final(self).running_spec() == running,
            final(self).planet() == old(self).planet(),
            forall|b: BasicKind| final(self).basic_amount(b) == old(self).basic_amount(b),
            forall|c: ComplexKind| final(self).complex_amount(c) == old(self).complex_amount(c),
    {
        self.ai_running = running;
    }

    /// Empties the bag.
    pub fn reset(&mut self)
        ensures
            forall|b: BasicKind| final(self).basic_amount(b) == 0,
            forall|c: ComplexKind| final(self).complex_amount(c) == 0,
            final(self).planet() == old(self).planet(),
            final(self).running_spec() == old(self).running_spec(),
    {
        self.basics.clear();
        self.complex = ComplexTally::new();
    }

    /// Moves to `planet`.
    pub fn relocate(&mut self, planet: u32)
        ensures
            final(self).planet() == planet,
            final(self).running_spec() == old(self).running_spec(),
            forall|b: BasicKind| final(self).basic_amount(b) == old(self).basic_amount(b),
            forall|c: ComplexKind| final(self).complex_amount(c) == old(self).complex_amount(c),
    {
        self.current_planet = planet;
    }

    /// One autonomous step: mine Carbon until two are held, then craft a
    /// Diamond.
    pub fn autonomous_step(&self) -> (m: MineAction)
        ensures
            m == (if self.basic_amount(BasicKind::Carbon) < 2 {
                MineAction::GenerateCarbon
            } else {
                MineAction::CraftDiamond
            }),
    {
        if self.basics.count(ResourceKind::Basic(BasicKind::Carbon)) < 2 {
            MineAction::GenerateCarbon
        } else {
            MineAction::CraftDiamond
        }
    }

    /// Whether this explorer knows how to craft `ty` (only Diamonds).
    pub fn can_craft(&self, ty: ComplexKind) -> (r: bool)
        ensures
            r == (ty == ComplexKind::Diamond),
    {
        ty == ComplexKind::Diamond
    }

    /// Stores a basic resource the planet generated.
    pub fn store_basic(&mut self, kind: BasicKind, resource: B)
        ensures
            forall|b: BasicKind|
                #[trigger] final(self).basic_amount(b) == old(self).basic_amount(b) + if b == kind {
                    1nat
                } else {
                    0nat
                },
            forall|c: ComplexKind| final(self).complex_amount(c) == old(self).complex_amount(c),
            final(self).planet() == old(self).planet(),
            final(self).running_spec() == old(self).running_spec(),
    {
        self.basics.push_basic(kind, resource);
    }

    /// Takes out the two oldest Carbons, oldest first; `None` (bag untouched)
    /// if there are fewer than two.
    pub fn take_two_carbon(&mut self) -> (r: Option<(B, B)>)
        ensures
            r is Some <==> old(self).basic_amount(BasicKind::Carbon) >= 2,
            r is None ==> forall|b: BasicKind| final(self).basic_amount(b) == old(self).basic_amount(b),
            r is Some ==> forall|b: BasicKind|
                #[trigger] final(self).basic_amount(b) + (if b == BasicKind::Carbon { 2nat } else { 0nat })
                    == old(self).basic_amount(b),
            r matches Some((x, y)) ==> {
                let rest = drop_first(old(self).carried(), BasicKind::Carbon);
                &&& x == first_obj(old(self).carried(), BasicKind::Carbon)
                &&& y == first_obj(rest, BasicKind::Carbon)
                &&& final(self).carried() == drop_first(rest, BasicKind::Carbon)
            },
            forall|c: ComplexKind| final(self).complex_amount(c) == old(self).complex_amount(c),
            final(self).planet() == old(self).planet(),
            final(self).running_spec() == old(self).running_spec(),
    {
        let r = self.basics.take_two_basic(BasicKind::Carbon);
        proof {
            if r is Some {
                assert forall|b: BasicKind|
                    #[trigger] self.basic_amount(b) + (if b == BasicKind::Carbon { 2nat } else { 0nat })
                        == old(self).basic_amount(b) by {
                    assert(self.basics.amount(ResourceKind::Basic(b)) + (if ResourceKind::Basic(b)
                        == ResourceKind::Basic(BasicKind::Carbon) { 2nat } else { 0nat })
                        == old(self).basics.amount(ResourceKind::Basic(b)));
                }
            }
        }
        r
    }

    /// Counts a complex resource the planet crafted.
    pub fn record_complex(&mut self, ty: ComplexKind)
        requires
            old(self).complex_amount(ty) < usize::MAX,
        ensures
            forall|c: ComplexKind|
                #[trigger] final(self).complex_amount(c) == old(self).complex_amount(c) + if c == ty {
                    1nat
                } else {
                    0nat
                },
            forall|b: BasicKind| final(self).basic_amount(b) == old(self).basic_amount(b),
            final(self).planet() == old(self).planet(),
            final(self).running_spec() == old(self).running_spec(),
    {
        self.complex.add(ty, 1);
    }

    /// The bag as reported: every basic carried and every complex crafted.
    pub fn bag(&self) -> (content: BagContent)
        ensures
            forall|b: BasicKind| content.amount(ResourceKind::Basic(b)) == self.basic_amount(b),
            forall|c: ComplexKind| content.amount(ResourceKind::Complex(c)) == self.complex_amount(c),
    {
        let mut content = BagContent::new();
        let all = super::all_resource_kinds();
        for i in 0..all.len()
            invariant
                all@.len() == 10,
                all@.no_duplicates(),
                forall|k: ResourceKind| all@.contains(k),
                forall|j: int| 0 <= j < i ==> content.amount(#[trigger] all@[j]) == self.kind_amount(all@[j]),
                forall|j: int| i <= j < 10 ==> content.amount(#[trigger] all@[j]) == 0,
        {
            let k = all[i];
            let n = match k {
                ResourceKind::Basic(b) => self.basics.count(ResourceKind::Basic(b)),
                ResourceKind::Complex(c) => self.complex.get(c),
            };
            proof {
                assert forall|j: int| 0 <= j < 10 && j != i implies all@[j] != k by {
                    assert(all@[j] != all@[i as int]);
                }
            }
            content.add(k, n);
        }
        proof {
            assert forall|k: ResourceKind| content.amount(k) == self.kind_amount(k) by {
                assert(all@.contains(k));
                let j = choose|j: int| 0 <= j < all@.len() && all@[j] == k;
                assert(content.amount(all@[j]) == self.kind_amount(all@[j]));
            }
            assert forall|b: BasicKind| content.amount(ResourceKind::Basic(b)) == self.basic_amount(b) by {
                assert(content.amount(ResourceKind::Basic(b)) == self.kind_amount(ResourceKind::Basic(b)));
            }
            assert forall|c: ComplexKind| content.amount(ResourceKind::Complex(c)) == self.complex_amount(c) by {
                assert(content.amount(ResourceKind::Complex(c)) == self.kind_amount(ResourceKind::Complex(c)));
            }
        }
        content
    }
}

} // verus!

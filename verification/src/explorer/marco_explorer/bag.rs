//! An inventory that holds the resource objects themselves (not just their
//! counts), because building a combination request needs the actual
//! ingredients. Items are filed by kind; each kind is a stack.

use vstd::prelude::*;

use crate::explorer::BagContent;
use crate::resource::{BasicKind, ComplexKind, ResourceKind};

verus! {

/// A resource object of either family.
#[derive(Debug)]
pub enum Item<B, C> {
    Basic(B),
    Complex(C),
}

/// Resource objects filed by kind: `B` is the type of a basic resource
/// object, `C` that of a complex one.
pub struct Bag<B, C> {
    oxygen: Vec<B>,
    hydrogen: Vec<B>,
    carbon: Vec<B>,
    silicon: Vec<B>,
    diamond: Vec<C>,
    water: Vec<C>,
    life: Vec<C>,
    robot: Vec<C>,
    dolphin: Vec<C>,
    aipartner: Vec<C>,
}

impl<B, C> Bag<B, C> {
    /// The stack of basic resources of kind `k`, oldest first.
    pub closed spec fn basics(self, k: BasicKind) -> Seq<B> {
        match k {
            BasicKind::Oxygen => self.oxygen@,
            BasicKind::Hydrogen => self.hydrogen@,
            BasicKind::Carbon => self.carbon@,
            BasicKind::Silicon => self.silicon@,
        }
    }

    /// The stack of complex resources of kind `k`, oldest first.
    pub closed spec fn complexes(self, k: ComplexKind) -> Seq<C> {
        match k {
            ComplexKind::Diamond => self.diamond@,
            ComplexKind::Water => self.water@,
            ComplexKind::Life => self.life@,
            ComplexKind::Robot => self.robot@,
            ComplexKind::Dolphin => self.dolphin@,
            ComplexKind::AIPartner => self.aipartner@,
        }
    }

    /// The stack of kind `k`, each object wrapped as an [`Item`], oldest first.
    pub open spec fn items(self, k: ResourceKind) -> Seq<Item<B, C>> {
        match k {
            ResourceKind::Basic(b) => self.basics(b).map_values(|x: B| Item::<B, C>::Basic(x)),
            ResourceKind::Complex(c) => self.complexes(c).map_values(|x: C| Item::<B, C>::Complex(x)),
        }
    }

    /// Number of items of kind `k`.
    pub open spec fn amount(self, k: ResourceKind) -> nat {
        match k {
            ResourceKind::Basic(b) => self.basics(b).len(),
            ResourceKind::Complex(c) => self.complexes(c).len(),
        }
    }

    /// `self` and `other` hold the same stacks for every kind except those
    /// for which `basic_kept` / `complex_kept` is false.
    pub open spec fn same_except(
        self,
        other: Self,
        basic_kept: spec_fn(BasicKind) -> bool,
        complex_kept: spec_fn(ComplexKind) -> bool,
    ) -> bool {
        &&& forall|k: BasicKind| basic_kept(k) ==> #[trigger] self.basics(k) == other.basics(k)
        &&& forall|k: ComplexKind|
            complex_kept(k) ==> #[trigger] self.complexes(k) == other.complexes(k)
    }

    /// An empty bag.
    pub fn new() -> (bag: Self)
        ensures
            forall|k: BasicKind| bag.basics(k) == Seq::<B>::empty(),
            forall|k: ComplexKind| bag.complexes(k) == Seq::<C>::empty(),
    {
        Bag {
            oxygen: Vec::new(),
            hydrogen: Vec::new(),
            carbon: Vec::new(),
            silicon: Vec::new(),
            diamond: Vec::new(),
            water: Vec::new(),
            life: Vec::new(),
            robot: Vec::new(),
            dolphin: Vec::new(),
            aipartner: Vec::new(),
        }
    }

    /// Files a basic resource of kind `kind`.
    pub fn add_basic(&mut self, kind: BasicKind, resource: B)
        ensures
            final(self).basics(kind) == old(self).basics(kind).push(resource),
            final(self).same_except(*old(self), |k: BasicKind| k != kind, |k: ComplexKind| true),
    {
        match kind {
            BasicKind::Oxygen => self.oxygen.push(resource),
            BasicKind::Hydrogen => self.hydrogen.push(resource),
            BasicKind::Carbon => self.carbon.push(resource),
            BasicKind::Silicon => self.silicon.push(resource),
        }
    }

    /// Files a complex resource of kind `kind`.
    pub fn add_complex(&mut self, kind: ComplexKind, resource: C)
        ensures
            final(self).complexes(kind) == old(self).complexes(kind).push(resource),
            final(self).same_except(*old(self), |k: BasicKind| true, |k: ComplexKind| k != kind),
    {
        match kind {
            ComplexKind::Diamond => self.diamond.push(resource),
            ComplexKind::Water => self.water.push(resource),
            ComplexKind::Life => self.life.push(resource),
            ComplexKind::Robot => self.robot.push(resource),
            ComplexKind::Dolphin => self.dolphin.push(resource),
            ComplexKind::AIPartner => self.aipartner.push(resource),
        }
    }

    /// Takes out the most recently filed basic resource of kind `kind`.
    pub fn take_basic(&mut self, kind: BasicKind) -> (r: Option<B>)
        ensures
            old(self).basics(kind).len() == 0 ==> r is None && final(self).basics(kind) == old(self).basics(kind),
            old(self).basics(kind).len() > 0 ==> {
                &&& r == Some(old(self).basics(kind).last())
                &&& final(self).basics(kind) == old(self).basics(kind).drop_last()
            },
            final(self).same_except(*old(self), |k: BasicKind| k != kind, |k: ComplexKind| true),
    {
        match kind {
            BasicKind::Oxygen => self.oxygen.pop(),
            BasicKind::Hydrogen => self.hydrogen.pop(),
            BasicKind::Carbon => self.carbon.pop(),
            BasicKind::Silicon => self.silicon.pop(),
        }
    }

    /// Takes out the most recently filed complex resource of kind `kind`.
    pub fn take_complex(&mut self, kind: ComplexKind) -> (r: Option<C>)
        ensures
            old(self).complexes(kind).len() == 0 ==> r is None && final(self).complexes(kind) == old(self).complexes(kind),
            old(self).complexes(kind).len() > 0 ==> {
                &&& r == Some(old(self).complexes(kind).last())
                &&& final(self).complexes(kind) == old(self).complexes(kind).drop_last()
            },
            final(self).same_except(*old(self), |k: BasicKind| true, |k: ComplexKind| k != kind),
    {
        match kind {
            ComplexKind::Diamond => self.diamond.pop(),
            ComplexKind::Water => self.water.pop(),
            ComplexKind::Life => self.life.pop(),
            ComplexKind::Robot => self.robot.pop(),
            ComplexKind::Dolphin => self.dolphin.pop(),
            ComplexKind::AIPartner => self.aipartner.pop(),
        }
    }

    /// Number of basic resources of kind `kind`.
    pub fn count_basic(&self, kind: BasicKind) -> (n: usize)
        ensures
            n == self.basics(kind).len(),
    {
        match kind {
            BasicKind::Oxygen => self.oxygen.len(),
            BasicKind::Hydrogen => self.hydrogen.len(),
            BasicKind::Carbon => self.carbon.len(),
            BasicKind::Silicon => self.silicon.len(),
        }
    }

    /// Number of complex resources of kind `kind`.
    pub fn count_complex(&self, kind: ComplexKind) -> (n: usize)
        ensures
            n == self.complexes(kind).len(),
    {
        match kind {
            ComplexKind::Diamond => self.diamond.len(),
            ComplexKind::Water => self.water.len(),
            ComplexKind::Life => self.life.len(),
            ComplexKind::Robot => self.robot.len(),
            ComplexKind::Dolphin => self.dolphin.len(),
            ComplexKind::AIPartner => self.aipartner.len(),
        }
    }

    /// Empties the bag.
    pub fn clear(&mut self)
        ensures
            forall|k: BasicKind| final(self).basics(k) == Seq::<B>::empty(),
            forall|k: ComplexKind| final(self).complexes(k) == Seq::<C>::empty(),
    {
        self.oxygen.clear();
        self.hydrogen.clear();
        self.carbon.clear();
        self.silicon.clear();
        self.diamond.clear();
        self.water.clear();
        self.life.clear();
        self.robot.clear();
        self.dolphin.clear();
        self.aipartner.clear();
    }

    /// The count-only view reported to the orchestrator.
    pub fn to_content(&self) -> (content: BagContent)
        ensures
            forall|k: ResourceKind| content.amount(k) == self.amount(k),
    {
        let mut content = BagContent::new();
        let all = crate::explorer::all_resource_kinds();
        for i in 0..all.len()
            invariant
                all@.len() == 10,
                all@.no_duplicates(),
                forall|k: ResourceKind| all@.contains(k),
                forall|j: int| 0 <= j < i ==> content.amount(#[trigger] all@[j]) == self.amount(all@[j]),
                forall|j: int| i <= j < 10 ==> content.amount(#[trigger] all@[j]) == 0,
        {
            let k = all[i];
            let n = match k {
                ResourceKind::Basic(b) => self.count_basic(b),
                ResourceKind::Complex(c) => self.count_complex(c),
            };
            proof {
                assert forall|j: int| 0 <= j < 10 && j != i implies all@[j] != k by {
                    assert(all@[j] != all@[i as int]);
                }
            }
            content.add(k, n);
        }
        proof {
            assert forall|k: ResourceKind| content.amount(k) == self.amount(k) by {
                assert(all@.contains(k));
                let j = choose|j: int| 0 <= j < all@.len() && all@[j] == k;
                assert(content.amount(all@[j]) == self.amount(all@[j]));
            }
        }
        content
    }
}

impl<B, C> Default for Bag<B, C> {
    fn default() -> (bag: Self)
        ensures
            forall|k: BasicKind| bag.basics(k) == Seq::<B>::empty(),
            forall|k: ComplexKind| bag.complexes(k) == Seq::<C>::empty(),
    {
        Bag::new()
    }
}

} // verus!

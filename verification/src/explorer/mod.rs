//! The explorers' shared report type and their decision logic.

pub mod ai_explorer;
pub mod inventory;
pub mod marco_explorer;
pub mod mock_explorer;
pub mod smart_explorer;
pub mod thomas_explorer;
pub mod timed_ai_explorer;
pub mod travel;

use vstd::prelude::*;

use crate::resource::{BasicKind, BasicTally, ComplexKind, ComplexTally, ResourceKind};

verus! {

/// The contents of an explorer's bag, as reported to the orchestrator: how
/// many units of each resource kind it holds. A kind with no unit has no entry.
#[derive(Clone, Copy, Debug)]
pub struct BagContent {
    basic: BasicTally,
    complex: ComplexTally,
}

impl BagContent {
    /// Units held of kind `k` (zero when there is no entry).
    pub closed spec fn amount(self, k: ResourceKind) -> nat {
        match k {
            ResourceKind::Basic(b) => self.basic.at(b) as nat,
            ResourceKind::Complex(c) => self.complex.at(c) as nat,
        }
    }

    /// The entries of the report: each kind with a non-zero amount.
    pub open spec fn view(self) -> Map<ResourceKind, nat> {
        Map::new(|k: ResourceKind| self.amount(k) > 0, |k: ResourceKind| self.amount(k))
    }

    /// The empty report.
    pub fn new() -> (c: Self)
        ensures
            forall|k: ResourceKind| c.amount(k) == 0,
    {
        BagContent { basic: BasicTally::new(), complex: ComplexTally::new() }
    }

    /// The entry for `k`, if the bag holds any unit of it.
    pub fn get(&self, k: ResourceKind) -> (r: Option<usize>)
        ensures
            r == (if self.amount(k) > 0 { Some(self.amount(k) as usize) } else { None::<usize> }),
    {
        let n = match k {
            ResourceKind::Basic(b) => self.basic.get(b),
            ResourceKind::Complex(c) => self.complex.get(c),
        };
        if n > 0 {
            Some(n)
        } else {
            None
        }
    }

    /// Units held of kind `k`.
    pub fn count(&self, k: ResourceKind) -> (n: usize)
        ensures
            n == self.amount(k),
    {
        match k {
            ResourceKind::Basic(b) => self.basic.get(b),
            ResourceKind::Complex(c) => self.complex.get(c),
        }
    }

    /// Whether the report has an entry for `k`.
    pub fn contains_key(&self, k: ResourceKind) -> (r: bool)
        ensures
            r == (self.amount(k) > 0),
    {
        self.get(k).is_some()
    }

    /// Adds `n` units of kind `k`.
    pub fn add(&mut self, k: ResourceKind, n: usize)
        requires
            old(self).amount(k) + n <= usize::MAX,
        ensures
            final(self).amount(k) == old(self).amount(k) + n,
            forall|j: ResourceKind| j != k ==> final(self).amount(j) == old(self).amount(j),
    {
        match k {
            ResourceKind::Basic(b) => self.basic.add(b, n),
            ResourceKind::Complex(c) => self.complex.add(c, n),
        }
    }

    /// Total units of basic kinds in the report.
    pub open spec fn basic_total(self) -> nat {
        self.amount(ResourceKind::Basic(BasicKind::Oxygen)) + self.amount(
            ResourceKind::Basic(BasicKind::Hydrogen),
        ) + self.amount(ResourceKind::Basic(BasicKind::Carbon)) + self.amount(
            ResourceKind::Basic(BasicKind::Silicon),
        )
    }

    /// Total units of basic kinds in the report.
    pub fn basic_units(&self) -> (n: u128)
        ensures
            n == self.basic_total(),
    {
        let o = self.count(ResourceKind::Basic(BasicKind::Oxygen)) as u128;
        let h = self.count(ResourceKind::Basic(BasicKind::Hydrogen)) as u128;
        let c = self.count(ResourceKind::Basic(BasicKind::Carbon)) as u128;
        let s = self.count(ResourceKind::Basic(BasicKind::Silicon)) as u128;
        o + h + c + s
    }

    /// The entries of the report, each kind with a non-zero amount once, in
    /// the declaration order of the kinds.
    pub fn entries(&self) -> (v: Vec<(ResourceKind, usize)>)
        ensures
            forall|i: int|
                0 <= i < v@.len() ==> v@[i].1 > 0 && self.amount(v@[i].0) == v@[i].1 as nat,
            forall|k: ResourceKind|
                self.amount(k) > 0 ==> exists|i: int| 0 <= i < v@.len() && #[trigger] v@[i].0 == k,
    {
        let all = all_resource_kinds();
        let mut v: Vec<(ResourceKind, usize)> = Vec::new();
        for i in 0..all.len()
            invariant
                all@.len() == 10,
                forall|k: ResourceKind| all@.contains(k),
                forall|j: int|
                    0 <= j < v@.len() ==> v@[j].1 > 0 && self.amount(v@[j].0) == v@[j].1 as nat,
                forall|j: int|
                    0 <= j < i && self.amount(all@[j]) > 0 ==> exists|t: int|
                        0 <= t < v@.len() && #[trigger] v@[t].0 == all@[j],
        {
            let k = all[i];
            if let Some(n) = self.get(k) {
                let ghost before = v@;
                v.push((k, n));
                proof {
                    assert(v@[before.len() as int].0 == k);
                    assert forall|j: int|
                        0 <= j < i + 1 && self.amount(all@[j]) > 0 implies exists|t: int|
                        0 <= t < v@.len() && #[trigger] v@[t].0 == all@[j] by {
                        if j < i {
                            let t = choose|t: int| 0 <= t < before.len() && #[trigger] before[t].0 == all@[j];
                            assert(v@[t] == before[t]);
                        } else {
                            assert(v@[before.len() as int].0 == all@[j]);
                        }
                    }
                }
            }
        }
        proof {
            assert forall|k: ResourceKind| self.amount(k) > 0 implies exists|i: int|
                0 <= i < v@.len() && #[trigger] v@[i].0 == k by {
                assert(all@.contains(k));
                let j = choose|j: int| 0 <= j < all@.len() && all@[j] == k;
                assert(self.amount(all@[j]) > 0);
            }
        }
        v
    }
}

impl Default for BagContent {
    fn default() -> (c: Self)
        ensures
            forall|k: ResourceKind| c.amount(k) == 0,
    {
        BagContent::new()
    }
}

/// Every resource kind once: the basics, then the complexes, each in
/// declaration order.
pub open spec fn resource_kinds_in_order() -> Seq<ResourceKind> {
    seq![
        ResourceKind::Basic(BasicKind::Oxygen),
        ResourceKind::Basic(BasicKind::Hydrogen),
        ResourceKind::Basic(BasicKind::Carbon),
        ResourceKind::Basic(BasicKind::Silicon),
        ResourceKind::Complex(ComplexKind::Diamond),
        ResourceKind::Complex(ComplexKind::Water),
        ResourceKind::Complex(ComplexKind::Life),
        ResourceKind::Complex(ComplexKind::Robot),
        ResourceKind::Complex(ComplexKind::Dolphin),
        ResourceKind::Complex(ComplexKind::AIPartner),
    ]
}

/// Every resource kind once: the basics, then the complexes, each in
/// declaration order.
pub fn all_resource_kinds() -> (v: Vec<ResourceKind>)
    ensures
        v@ == resource_kinds_in_order(),
        v@.len() == 10,
        v@.no_duplicates(),
        forall|k: ResourceKind| v@.contains(k),
{
    let v = vec![
        ResourceKind::Basic(BasicKind::Oxygen),
        ResourceKind::Basic(BasicKind::Hydrogen),
        ResourceKind::Basic(BasicKind::Carbon),
        ResourceKind::Basic(BasicKind::Silicon),
        ResourceKind::Complex(ComplexKind::Diamond),
        ResourceKind::Complex(ComplexKind::Water),
        ResourceKind::Complex(ComplexKind::Life),
        ResourceKind::Complex(ComplexKind::Robot),
        ResourceKind::Complex(ComplexKind::Dolphin),
        ResourceKind::Complex(ComplexKind::AIPartner),
    ];
    proof {
        assert(v@ =~= resource_kinds_in_order());
        assert forall|k: ResourceKind| v@.contains(k) by {
            match k {
                ResourceKind::Basic(BasicKind::Oxygen) => assert(v@[0] == k),
                ResourceKind::Basic(BasicKind::Hydrogen) => assert(v@[1] == k),
                ResourceKind::Basic(BasicKind::Carbon) => assert(v@[2] == k),
                ResourceKind::Basic(BasicKind::Silicon) => assert(v@[3] == k),
                ResourceKind::Complex(ComplexKind::Diamond) => assert(v@[4] == k),
                ResourceKind::Complex(ComplexKind::Water) => assert(v@[5] == k),
                ResourceKind::Complex(ComplexKind::Life) => assert(v@[6] == k),
                ResourceKind::Complex(ComplexKind::Robot) => assert(v@[7] == k),
                ResourceKind::Complex(ComplexKind::Dolphin) => assert(v@[8] == k),
                ResourceKind::Complex(ComplexKind::AIPartner) => assert(v@[9] == k),
            }
        }
    }
    v
}

} // verus!

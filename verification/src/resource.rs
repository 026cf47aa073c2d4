//! Resource kinds of the game, and small kind-indexed containers over them.

use vstd::prelude::*;

verus! {

/// A basic resource kind (generated from energy alone).
#[derive(Clone, Copy, Debug, PartialEq, Eq, Hash, Structural)]
pub enum BasicKind {
    Oxygen,
    Hydrogen,
    Carbon,
    Silicon,
}

/// A complex resource kind (combined from two ingredients).
#[derive(Clone, Copy, Debug, PartialEq, Eq, Hash, Structural)]
pub enum ComplexKind {
    Diamond,
    Water,
    Life,
    Robot,
    Dolphin,
    AIPartner,
}

/// Any resource kind.
#[derive(Clone, Copy, Debug, PartialEq, Eq, Hash, Structural)]
pub enum ResourceKind {
    Basic(BasicKind),
    Complex(ComplexKind),
}

/// Number of units of each basic kind.
#[derive(Clone, Copy, Debug, PartialEq, Eq)]
pub struct BasicTally {
    pub oxygen: usize,
    pub hydrogen: usize,
    pub carbon: usize,
    pub silicon: usize,
}

impl BasicTally {
    pub open spec fn at(self, k: BasicKind) -> usize {
        match k {
            BasicKind::Oxygen => self.oxygen,
            BasicKind::Hydrogen => self.hydrogen,
            BasicKind::Carbon => self.carbon,
            BasicKind::Silicon => self.silicon,
        }
    }

    pub fn new() -> (t: Self)
        ensures
            forall|k: BasicKind| t.at(k) == 0,
    {
        BasicTally { oxygen: 0, hydrogen: 0, carbon: 0, silicon: 0 }
    }

    pub fn get(&self, k: BasicKind) -> (n: usize)
        ensures
            n == self.at(k),
    {
        match k {
            BasicKind::Oxygen => self.oxygen,
            BasicKind::Hydrogen => self.hydrogen,
            BasicKind::Carbon => self.carbon,
            BasicKind::Silicon => self.silicon,
        }
    }

    /// Adds `n` units of kind `k`.
    pub fn add(&mut self, k: BasicKind, n: usize)
        requires
            old(self).at(k) + n <= usize::MAX,
        ensures
            final(self).at(k) == old(self).at(k) + n,
            forall|j: BasicKind| j != k ==> final(self).at(j) == old(self).at(j),
    {
        match k {
            BasicKind::Oxygen => self.oxygen = self.oxygen + n,
            BasicKind::Hydrogen => self.hydrogen = self.hydrogen + n,
            BasicKind::Carbon => self.carbon = self.carbon + n,
            BasicKind::Silicon => self.silicon = self.silicon + n,
        }
    }
}

/// Number of units of each complex kind.
#[derive(Clone, Copy, Debug, PartialEq, Eq)]
pub struct ComplexTally {
    pub diamond: usize,
    pub water: usize,
    pub life: usize,
    pub robot: usize,
    pub dolphin: usize,
    pub aipartner: usize,
}

impl ComplexTally {
    pub open spec fn at(self, k: ComplexKind) -> usize {
        match k {
            ComplexKind::Diamond => self.diamond,
            ComplexKind::Water => self.water,
            ComplexKind::Life => self.life,
            ComplexKind::Robot => self.robot,
            ComplexKind::Dolphin => self.dolphin,
            ComplexKind::AIPartner => self.aipartner,
        }
    }

    pub fn new() -> (t: Self)
        ensures
            forall|k: ComplexKind| t.at(k) == 0,
    {
        ComplexTally { diamond: 0, water: 0, life: 0, robot: 0, dolphin: 0, aipartner: 0 }
    }

    pub fn get(&self, k: ComplexKind) -> (n: usize)
        ensures
            n == self.at(k),
    {
        match k {
            ComplexKind::Diamond => self.diamond,
            ComplexKind::Water => self.water,
            ComplexKind::Life => self.life,
            ComplexKind::Robot => self.robot,
            ComplexKind::Dolphin => self.dolphin,
            ComplexKind::AIPartner => self.aipartner,
        }
    }

    /// Adds `n` units of kind `k`.
    pub fn add(&mut self, k: ComplexKind, n: usize)
        requires
            old(self).at(k) + n <= usize::MAX,
        ensures
            final(self).at(k) == old(self).at(k) + n,
            forall|j: ComplexKind| j != k ==> final(self).at(j) == old(self).at(j),
    {
        match k {
            ComplexKind::Diamond => self.diamond = self.diamond + n,
            ComplexKind::Water => self.water = self.water + n,
            ComplexKind::Life => self.life = self.life + n,
            ComplexKind::Robot => self.robot = self.robot + n,
            ComplexKind::Dolphin => self.dolphin = self.dolphin + n,
            ComplexKind::AIPartner => self.aipartner = self.aipartner + n,
        }
    }
}


/// A set of basic kinds.
#[derive(Clone, Copy, Debug, PartialEq, Eq)]
pub struct BasicSet {
    pub oxygen: bool,
    pub hydrogen: bool,
    pub carbon: bool,
    pub silicon: bool,
}

impl BasicSet {
    pub open spec fn has(self, k: BasicKind) -> bool {
        match k {
            BasicKind::Oxygen => self.oxygen,
            BasicKind::Hydrogen => self.hydrogen,
            BasicKind::Carbon => self.carbon,
            BasicKind::Silicon => self.silicon,
        }
    }

    pub open spec fn view(self) -> Set<BasicKind> {
        Set::new(|k: BasicKind| self.has(k))
    }

    pub fn new() -> (s: Self)
        ensures
            forall|k: BasicKind| !s.has(k),
    {
        BasicSet { oxygen: false, hydrogen: false, carbon: false, silicon: false }
    }

    /// The set holding exactly the kinds listed in `kinds`.
    pub fn from_slice(kinds: &[BasicKind]) -> (s: Self)
        ensures
            forall|k: BasicKind| s.has(k) <==> kinds@.contains(k),
    {
        let mut s = BasicSet::new();
        for i in 0..kinds.len()
            invariant
                forall|k: BasicKind| s.has(k) <==> kinds@.take(i as int).contains(k),
        {
            proof {
                broadcast use vstd::seq_lib::group_seq_properties;
                assert(kinds@.take(i + 1) =~= kinds@.take(i as int).push(kinds@[i as int]));
            }
            s.insert(kinds[i]);
        }
        proof {
            assert(kinds@.take(kinds@.len() as int) =~= kinds@);
        }
        s
    }

    pub fn contains(&self, k: BasicKind) -> (b: bool)
        ensures
            b == self.has(k),
    {
        match k {
            BasicKind::Oxygen => self.oxygen,
            BasicKind::Hydrogen => self.hydrogen,
            BasicKind::Carbon => self.carbon,
            BasicKind::Silicon => self.silicon,
        }
    }

    pub fn insert(&mut self, k: BasicKind)
        ensures
            forall|j: BasicKind| final(self).has(j) == (old(self).has(j) || j == k),
            final(self).size() == old(self).size() + if old(self).has(k) { 0nat } else { 1nat },
    {
        match k {
            BasicKind::Oxygen => self.oxygen = true,
            BasicKind::Hydrogen => self.hydrogen = true,
            BasicKind::Carbon => self.carbon = true,
            BasicKind::Silicon => self.silicon = true,
        }
    }

    /// Adds every kind of `other`.
    pub fn extend(&mut self, other: &BasicSet)
        ensures
            forall|j: BasicKind| final(self).has(j) == (old(self).has(j) || other.has(j)),
    {
        self.oxygen = self.oxygen || other.oxygen;
        self.hydrogen = self.hydrogen || other.hydrogen;
        self.carbon = self.carbon || other.carbon;
        self.silicon = self.silicon || other.silicon;
    }

    pub open spec fn size(self) -> nat {
        (if self.oxygen { 1nat } else { 0nat }) + (if self.hydrogen { 1nat } else { 0nat })
            + (if self.carbon { 1nat } else { 0nat }) + (if self.silicon { 1nat } else { 0nat })
    }

    pub fn len(&self) -> (n: usize)
        ensures
            n == self.size(),
    {
        let mut n: usize = 0;
        if self.oxygen { n = n + 1; }
        if self.hydrogen { n = n + 1; }
        if self.carbon { n = n + 1; }
        if self.silicon { n = n + 1; }
        n
    }

    pub fn is_empty(&self) -> (b: bool)
        ensures
            b == (forall|k: BasicKind| !self.has(k)),
    {
        let r = !(self.oxygen || self.hydrogen || self.carbon || self.silicon);
        proof {
            if self.oxygen { assert(self.has(BasicKind::Oxygen)); }
            if self.hydrogen { assert(self.has(BasicKind::Hydrogen)); }
            if self.carbon { assert(self.has(BasicKind::Carbon)); }
            if self.silicon { assert(self.has(BasicKind::Silicon)); }
        }
        r
    }

}

/// A set of complex kinds.
#[derive(Clone, Copy, Debug, PartialEq, Eq)]
pub struct ComplexSet {
    pub diamond: bool,
    pub water: bool,
    pub life: bool,
    pub robot: bool,
    pub dolphin: bool,
    pub aipartner: bool,
}

impl ComplexSet {
    pub open spec fn has(self, k: ComplexKind) -> bool {
        match k {
            ComplexKind::Diamond => self.diamond,
            ComplexKind::Water => self.water,
            ComplexKind::Life => self.life,
            ComplexKind::Robot => self.robot,
            ComplexKind::Dolphin => self.dolphin,
            ComplexKind::AIPartner => self.aipartner,
        }
    }

    pub open spec fn view(self) -> Set<ComplexKind> {
        Set::new(|k: ComplexKind| self.has(k))
    }

    pub fn new() -> (s: Self)
        ensures
            forall|k: ComplexKind| !s.has(k),
    {
        ComplexSet {
            diamond: false,
            water: false,
            life: false,
            robot: false,
            dolphin: false,
            aipartner: false,
        }
    }

    /// The set holding exactly the kinds listed in `kinds`.
    pub fn from_slice(kinds: &[ComplexKind]) -> (s: Self)
        ensures
            forall|k: ComplexKind| s.has(k) <==> kinds@.contains(k),
    {
        let mut s = ComplexSet::new();
        for i in 0..kinds.len()
            invariant
                forall|k: ComplexKind| s.has(k) <==> kinds@.take(i as int).contains(k),
        {
            proof {
                broadcast use vstd::seq_lib::group_seq_properties;
                assert(kinds@.take(i + 1) =~= kinds@.take(i as int).push(kinds@[i as int]));
            }
            s.insert(kinds[i]);
        }
        proof {
            assert(kinds@.take(kinds@.len() as int) =~= kinds@);
        }
        s
    }

    pub fn contains(&self, k: ComplexKind) -> (b: bool)
        ensures
            b == self.has(k),
    {
        match k {
            ComplexKind::Diamond => self.diamond,
            ComplexKind::Water => self.water,
            ComplexKind::Life => self.life,
            ComplexKind::Robot => self.robot,
            ComplexKind::Dolphin => self.dolphin,
            ComplexKind::AIPartner => self.aipartner,
        }
    }

    pub fn insert(&mut self, k: ComplexKind)
        ensures
            forall|j: ComplexKind| final(self).has(j) == (old(self).has(j) || j == k),
            final(self).size() == old(self).size() + if old(self).has(k) { 0nat } else { 1nat },
    {
        match k {
            ComplexKind::Diamond => self.diamond = true,
            ComplexKind::Water => self.water = true,
            ComplexKind::Life => self.life = true,
            ComplexKind::Robot => self.robot = true,
            ComplexKind::Dolphin => self.dolphin = true,
            ComplexKind::AIPartner => self.aipartner = true,
        }
    }

    /// Adds every kind of `other`.
    pub fn extend(&mut self, other: &ComplexSet)
        ensures
            forall|j: ComplexKind| final(self).has(j) == (old(self).has(j) || other.has(j)),
    {
        self.diamond = self.diamond || other.diamond;
        self.water = self.water || other.water;
        self.life = self.life || other.life;
        self.robot = self.robot || other.robot;
        self.dolphin = self.dolphin || other.dolphin;
        self.aipartner = self.aipartner || other.aipartner;
    }

    pub open spec fn size(self) -> nat {
        (if self.diamond { 1nat } else { 0nat }) + (if self.water { 1nat } else { 0nat })
            + (if self.life { 1nat } else { 0nat }) + (if self.robot { 1nat } else { 0nat })
            + (if self.dolphin { 1nat } else { 0nat }) + (if self.aipartner { 1nat } else { 0nat })
    }

    pub fn len(&self) -> (n: usize)
        ensures
            n == self.size(),
    {
        let mut n: usize = 0;
        if self.diamond { n = n + 1; }
        if self.water { n = n + 1; }
        if self.life { n = n + 1; }
        if self.robot { n = n + 1; }
        if self.dolphin { n = n + 1; }
        if self.aipartner { n = n + 1; }
        n
    }

    pub fn is_empty(&self) -> (b: bool)
        ensures
            b == (forall|k: ComplexKind| !self.has(k)),
    {
        let r = !(self.diamond || self.water || self.life || self.robot || self.dolphin
            || self.aipartner);
        proof {
            if self.diamond { assert(self.has(ComplexKind::Diamond)); }
            if self.water { assert(self.has(ComplexKind::Water)); }
            if self.life { assert(self.has(ComplexKind::Life)); }
            if self.robot { assert(self.has(ComplexKind::Robot)); }
            if self.dolphin { assert(self.has(ComplexKind::Dolphin)); }
            if self.aipartner { assert(self.has(ComplexKind::AIPartner)); }
        }
        r
    }

}

} // verus!

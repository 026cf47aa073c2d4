//! An ordered inventory of resource objects, each filed with its kind. Used by
//! the explorers that keep their resources in arrival order.

use vstd::prelude::*;

use super::marco_explorer::bag::Item;
use super::BagContent;
use crate::resource::{BasicKind, ComplexKind, ResourceKind};

verus! {

/// Number of entries of `s` filed under kind `k`.
pub open spec fn count_kind<K, T>(s: Seq<(K, T)>, k: K) -> nat
    decreases s.len(),
{
    if s.len() == 0 {
        0
    } else {
        count_kind(s.drop_last(), k) + if s.last().0 == k { 1nat } else { 0nat }
    }
}

/// Index of the first entry of `s` filed under kind `k` (meaningful only when
/// there is one).
pub open spec fn first_of_kind<K, T>(s: Seq<(K, T)>, k: K) -> int {
    choose|i: int|
        0 <= i < s.len() && s[i].0 == k && forall|j: int| 0 <= j < i ==> s[j].0 != k
}

/// The object of the first entry of `s` filed under kind `k`.
pub open spec fn first_obj<K, T>(s: Seq<(K, T)>, k: K) -> T {
    s[first_of_kind(s, k)].1
}

/// `s` without its first entry filed under kind `k`.
pub open spec fn drop_first<K, T>(s: Seq<(K, T)>, k: K) -> Seq<(K, T)> {
    s.remove(first_of_kind(s, k))
}

/// The basic entries left once the oldest resource of kind `k` is taken.
pub open spec fn basics_after_take<B>(s: Seq<(BasicKind, B)>, k: ResourceKind) -> Seq<(BasicKind, B)> {
    match k {
        ResourceKind::Basic(b) => drop_first(s, b),
        ResourceKind::Complex(_) => s,
    }
}

/// The complex entries left once the oldest resource of kind `k` is taken.
pub open spec fn complexes_after_take<C>(s: Seq<(ComplexKind, C)>, k: ResourceKind) -> Seq<(ComplexKind, C)> {
    match k {
        ResourceKind::Basic(_) => s,
        ResourceKind::Complex(c) => drop_first(s, c),
    }
}

/// The oldest resource object of kind `k` among these entries.
pub open spec fn oldest_item<B, C>(basics: Seq<(BasicKind, B)>, complexes: Seq<(ComplexKind, C)>, k: ResourceKind) -> Item<B, C> {
    match k {
        ResourceKind::Basic(b) => Item::Basic(first_obj(basics, b)),
        ResourceKind::Complex(c) => Item::Complex(first_obj(complexes, c)),
    }
}

proof fn lemma_count_push<K, T>(s: Seq<(K, T)>, e: (K, T), k: K)
    ensures
        count_kind(s.push(e), k) == count_kind(s, k) + if e.0 == k { 1nat } else { 0nat },
{
    assert(s.push(e).drop_last() =~= s);
}

proof fn lemma_count_take_step<K, T>(s: Seq<(K, T)>, i: int, k: K)
    requires
        0 <= i < s.len(),
    ensures
        count_kind(s.take(i + 1), k) == count_kind(s.take(i), k) + if s[i].0 == k { 1nat } else { 0nat },
{
    assert(s.take(i + 1).drop_last() =~= s.take(i));
}

pub(crate) proof fn lemma_count_zero_none<K, T>(s: Seq<(K, T)>, k: K)
    requires
        forall|j: int| 0 <= j < s.len() ==> s[j].0 != k,
    ensures
        count_kind(s, k) == 0,
    decreases s.len(),
{
    if s.len() > 0 {
        lemma_count_zero_none(s.drop_last(), k);
    }
}

pub(crate) proof fn lemma_count_positive<K, T>(s: Seq<(K, T)>, k: K, i: int)
    requires
        0 <= i < s.len(),
        s[i].0 == k,
    ensures
        count_kind(s, k) > 0,
    decreases s.len(),
{
    if i < s.len() - 1 {
        lemma_count_positive(s.drop_last(), k, i);
    }
}

proof fn lemma_count_concat<K, T>(a: Seq<(K, T)>, b: Seq<(K, T)>, k: K)
    ensures
        count_kind(a + b, k) == count_kind(a, k) + count_kind(b, k),
    decreases b.len(),
{
    if b.len() == 0 {
        assert(a + b =~= a);
    } else {
        lemma_count_concat(a, b.drop_last(), k);
        assert((a + b).drop_last() =~= a + b.drop_last());
    }
}

proof fn lemma_count_remove<K, T>(s: Seq<(K, T)>, i: int, k: K)
    requires
        0 <= i < s.len(),
    ensures
        count_kind(s.remove(i), k) + if s[i].0 == k { 1nat } else { 0nat } == count_kind(s, k),
{
    let a = s.take(i);
    let b = s.skip(i + 1);
    let m = seq![s[i]];
    assert(s =~= (a + m) + b);
    assert(s.remove(i) =~= a + b);
    lemma_count_concat(a, b, k);
    lemma_count_concat(a + m, b, k);
    lemma_count_concat(a, m, k);
    assert(m.drop_last() =~= Seq::<(K, T)>::empty());
    assert(count_kind(m, k) == count_kind(m.drop_last(), k) + if m.last().0 == k { 1nat } else { 0nat });
}

/// Finds the first entry of `v` filed under `k`.
fn position_of_basic<T>(v: &Vec<(BasicKind, T)>, k: BasicKind) -> (r: Option<usize>)
    ensures
        r is None <==> count_kind(v@, k) == 0,
        r matches Some(i) ==> i < v@.len() && i == first_of_kind(v@, k) && v@[i as int].0 == k,
{
    for i in 0..v.len()
        invariant
            forall|j: int| 0 <= j < i ==> v@[j].0 != k,
    {
        if v[i].0 == k {
            proof {
                lemma_count_positive(v@, k, i as int);
                let f = first_of_kind(v@, k);
                assert(0 <= f < v@.len() && v@[f].0 == k && forall|j: int| 0 <= j < f ==> v@[j].0 != k);
                assert(f == i);
            }
            return Some(i);
        }
    }
    proof {
        lemma_count_zero_none(v@, k);
    }
    None
}

/// Finds the first entry of `v` filed under `k`.
fn position_of_complex<T>(v: &Vec<(ComplexKind, T)>, k: ComplexKind) -> (r: Option<usize>)
    ensures
        r is None <==> count_kind(v@, k) == 0,
        r matches Some(i) ==> i < v@.len() && i == first_of_kind(v@, k) && v@[i as int].0 == k,
{
    for i in 0..v.len()
        invariant
            forall|j: int| 0 <= j < i ==> v@[j].0 != k,
    {
        if v[i].0 == k {
            proof {
                lemma_count_positive(v@, k, i as int);
                let f = first_of_kind(v@, k);
                assert(0 <= f < v@.len() && v@[f].0 == k && forall|j: int| 0 <= j < f ==> v@[j].0 != k);
                assert(f == i);
            }
            return Some(i);
        }
    }
    proof {
        lemma_count_zero_none(v@, k);
    }
    None
}

/// Resource objects in arrival order: `B` is the type of a basic resource
/// object, `C` that of a complex one.
pub struct Inventory<B, C> {
    basics: Vec<(BasicKind, B)>,
    complexes: Vec<(ComplexKind, C)>,
}

impl<B, C> Inventory<B, C> {
    /// The basic resources, oldest first, each with its kind.
    pub closed spec fn basics(self) -> Seq<(BasicKind, B)> {
        self.basics@
    }

    /// The complex resources, oldest first, each with its kind.
    pub closed spec fn complexes(self) -> Seq<(ComplexKind, C)> {
        self.complexes@
    }

    /// Units held of kind `k`.
    pub open spec fn amount(self, k: ResourceKind) -> nat {
        match k {
            ResourceKind::Basic(b) => count_kind(self.basics(), b),
            ResourceKind::Complex(c) => count_kind(self.complexes(), c),
        }
    }

    /// An empty inventory.
    pub fn new() -> (inv: Self)
        ensures
            inv.basics() == Seq::<(BasicKind, B)>::empty(),
            inv.complexes() == Seq::<(ComplexKind, C)>::empty(),
            forall|k: ResourceKind| inv.amount(k) == 0,
    {
        Inventory { basics: Vec::new(), complexes: Vec::new() }
    }

    /// Number of units of kind `k`.
    pub fn count(&self, k: ResourceKind) -> (n: usize)
        ensures
            n == self.amount(k),
    {
        match k {
            ResourceKind::Basic(b) => {
                let mut n: usize = 0;
                for i in 0..self.basics.len()
                    invariant
                        n == count_kind(self.basics@.take(i as int), b),
                        n <= i,
                {
                    proof {
                        lemma_count_take_step(self.basics@, i as int, b);
                    }
                    if self.basics[i].0 == b {
                        n = n + 1;
                    }
                }
                proof {
                    assert(self.basics@.take(self.basics@.len() as int) =~= self.basics@);
                }
                n
            },
            ResourceKind::Complex(c) => {
                let mut n: usize = 0;
                for i in 0..self.complexes.len()
                    invariant
                        n == count_kind(self.complexes@.take(i as int), c),
                        n <= i,
                {
                    proof {
                        lemma_count_take_step(self.complexes@, i as int, c);
                    }
                    if self.complexes[i].0 == c {
                        n = n + 1;
                    }
                }
                proof {
                    assert(self.complexes@.take(self.complexes@.len() as int) =~= self.complexes@);
                }
                n
            },
        }
    }

    /// Stores a basic resource of kind `kind`.
    pub fn push_basic(&mut self, kind: BasicKind, resource: B)
        ensures
            final(self).basics() == old(self).basics().push((kind, resource)),
            final(self).complexes() == old(self).complexes(),
            forall|k: ResourceKind|
                #[trigger] final(self).amount(k) == old(self).amount(k) + if k == ResourceKind::Basic(kind) {
                    1nat
                } else {
                    0nat
                },
    {
        proof {
            assert forall|b: BasicKind|
                count_kind(self.basics@.push((kind, resource)), b) == count_kind(self.basics@, b) + if b
                    == kind { 1nat } else { 0nat } by {
                lemma_count_push(self.basics@, (kind, resource), b);
            }
        }
        self.basics.push((kind, resource));
    }

    /// Stores a complex resource of kind `kind`.
    pub fn push_complex(&mut self, kind: ComplexKind, resource: C)
        ensures
            final(self).complexes() == old(self).complexes().push((kind, resource)),
            final(self).basics() == old(self).basics(),
            forall|k: ResourceKind|
                #[trigger] final(self).amount(k) == old(self).amount(k) + if k == ResourceKind::Complex(
                    kind,
                ) {
                    1nat
                } else {
                    0nat
                },
    {
        proof {
            assert forall|c: ComplexKind|
                count_kind(self.complexes@.push((kind, resource)), c) == count_kind(self.complexes@, c)
                    + if c == kind { 1nat } else { 0nat } by {
                lemma_count_push(self.complexes@, (kind, resource), c);
            }
        }
        self.complexes.push((kind, resource));
    }

    /// Puts a resource object of kind `kind` back (after a failed
    /// combination); `kind` must be the object's family.
    pub fn restore(&mut self, kind: ResourceKind, item: Item<B, C>)
        requires
            match (kind, item) {
                (ResourceKind::Basic(_), Item::Basic(_)) => true,
                (ResourceKind::Complex(_), Item::Complex(_)) => true,
                _ => false,
            },
        ensures
            forall|k: ResourceKind|
                #[trigger] final(self).amount(k) == old(self).amount(k) + if k == kind { 1nat } else { 0nat },
    {
        match (kind, item) {
            (ResourceKind::Basic(b), Item::Basic(x)) => self.push_basic(b, x),
            (ResourceKind::Complex(c), Item::Complex(x)) => self.push_complex(c, x),
            _ => {},
        }
    }

    /// Takes out the oldest basic resource of kind `kind`.
    pub fn take_basic(&mut self, kind: BasicKind) -> (r: Option<B>)
        ensures
            final(self).complexes() == old(self).complexes(),
            count_kind(old(self).basics(), kind) == 0 ==> r is None && final(self).basics() == old(self).basics(),
            count_kind(old(self).basics(), kind) > 0 ==> {
                let i = first_of_kind(old(self).basics(), kind);
                &&& r == Some(old(self).basics()[i].1)
                &&& final(self).basics() == old(self).basics().remove(i)
            },
            forall|k: ResourceKind|
                #[trigger] final(self).amount(k) + (if k == ResourceKind::Basic(kind) && old(self).amount(k) > 0 {
                    1nat
                } else {
                    0nat
                }) == old(self).amount(k),
    {
        match position_of_basic(&self.basics, kind) {
            None => None,
            Some(i) => {
                proof {
                    assert forall|b: BasicKind|
                        count_kind(self.basics@.remove(i as int), b) + (if self.basics@[i as int].0 == b {
                            1nat
                        } else {
                            0nat
                        }) == count_kind(self.basics@, b) by {
                        lemma_count_remove(self.basics@, i as int, b);
                    }
                }
                let (_, x) = self.basics.remove(i);
                Some(x)
            },
        }
    }

    /// Takes out the oldest complex resource of kind `kind`.
    pub fn take_complex(&mut self, kind: ComplexKind) -> (r: Option<C>)
        ensures
            final(self).basics() == old(self).basics(),
            count_kind(old(self).complexes(), kind) == 0 ==> r is None && final(self).complexes()
                == old(self).complexes(),
            count_kind(old(self).complexes(), kind) > 0 ==> {
                let i = first_of_kind(old(self).complexes(), kind);
                &&& r == Some(old(self).complexes()[i].1)
                &&& final(self).complexes() == old(self).complexes().remove(i)
            },
            forall|k: ResourceKind|
                #[trigger] final(self).amount(k) + (if k == ResourceKind::Complex(kind) && old(self).amount(k)
                    > 0 {
                    1nat
                } else {
                    0nat
                }) == old(self).amount(k),
    {
        match position_of_complex(&self.complexes, kind) {
            None => None,
            Some(i) => {
                proof {
                    assert forall|c: ComplexKind|
                        count_kind(self.complexes@.remove(i as int), c) + (if self.complexes@[i as int].0
                            == c {
                            1nat
                        } else {
                            0nat
                        }) == count_kind(self.complexes@, c) by {
                        lemma_count_remove(self.complexes@, i as int, c);
                    }
                }
                let (_, x) = self.complexes.remove(i);
                Some(x)
            },
        }
    }

    /// Takes out the oldest resource of kind `kind`, wrapped as an [`Item`].
    pub fn take_item(&mut self, kind: ResourceKind) -> (r: Option<Item<B, C>>)
        ensures
            r is Some <==> old(self).amount(kind) > 0,
            forall|k: ResourceKind|
                #[trigger] final(self).amount(k) + (if k == kind && old(self).amount(k) > 0 {
                    1nat
                } else {
                    0nat
                }) == old(self).amount(k),
            r matches Some(x) ==> match kind {
                ResourceKind::Basic(b) => x == Item::<B, C>::Basic(
                    old(self).basics()[first_of_kind(old(self).basics(), b)].1,
                ),
                ResourceKind::Complex(c) => x == Item::<B, C>::Complex(
                    old(self).complexes()[first_of_kind(old(self).complexes(), c)].1,
                ),
            },
            r matches Some(x) ==> {
                &&& x == oldest_item(old(self).basics(), old(self).complexes(), kind)
                &&& final(self).basics() == basics_after_take(old(self).basics(), kind)
                &&& final(self).complexes() == complexes_after_take(old(self).complexes(), kind)
            },
            r is None ==> final(self).basics() == old(self).basics() && final(self).complexes() == old(
                self,
            ).complexes(),
    {
        match kind {
            ResourceKind::Basic(b) => match self.take_basic(b) {
                Some(x) => Some(Item::Basic(x)),
                None => None,
            },
            ResourceKind::Complex(c) => match self.take_complex(c) {
                Some(x) => Some(Item::Complex(x)),
                None => None,
            },
        }
    }

    /// Takes out the two oldest basic resources of kind `kind`, oldest
    /// first; `None` (inventory untouched) if there are fewer than two.
    pub fn take_two_basic(&mut self, kind: BasicKind) -> (r: Option<(B, B)>)
        ensures
            r is Some <==> old(self).amount(ResourceKind::Basic(kind)) >= 2,
            r is None ==> *final(self) == *old(self),
            r is Some ==> forall|k: ResourceKind|
                #[trigger] final(self).amount(k) + (if k == ResourceKind::Basic(kind) { 2nat } else { 0nat })
                    == old(self).amount(k),
            r matches Some((x, y)) ==> {
                let rest = drop_first(old(self).basics(), kind);
                &&& x == first_obj(old(self).basics(), kind)
                &&& y == first_obj(rest, kind)
                &&& final(self).basics() == drop_first(rest, kind)
                &&& final(self).complexes() == old(self).complexes()
            },
    {
        if self.count(ResourceKind::Basic(kind)) < 2 {
            return None;
        }
        let ghost start = *self;
        let first = self.take_basic(kind);
        let ghost mid = *self;
        let second = self.take_basic(kind);
        match (first, second) {
            (Some(a), Some(b)) => {
                proof {
                    assert forall|k: ResourceKind|
                        #[trigger] self.amount(k) + (if k == ResourceKind::Basic(kind) { 2nat } else { 0nat })
                            == start.amount(k) by {
                        assert(mid.amount(k) + (if k == ResourceKind::Basic(kind) && start.amount(k) > 0 {
                            1nat
                        } else {
                            0nat
                        }) == start.amount(k));
                        assert(self.amount(k) + (if k == ResourceKind::Basic(kind) && mid.amount(k) > 0 {
                            1nat
                        } else {
                            0nat
                        }) == mid.amount(k));
                    }
                }
                Some((a, b))
            },
            _ => {
                proof {
                    assert(mid.amount(ResourceKind::Basic(kind)) + 1 == start.amount(ResourceKind::Basic(kind)));
                }
                None
            },
        }
    }

    /// Empties the inventory.
    pub fn clear(&mut self)
        ensures
            final(self).basics() == Seq::<(BasicKind, B)>::empty(),
            final(self).complexes() == Seq::<(ComplexKind, C)>::empty(),
            forall|k: ResourceKind| final(self).amount(k) == 0,
    {
        self.basics.clear();
        self.complexes.clear();
    }

    /// The count-only view reported to the orchestrator.
    pub fn content(&self) -> (content: BagContent)
        ensures
            forall|k: ResourceKind| content.amount(k) == self.amount(k),
    {
        let mut content = BagContent::new();
        let all = super::all_resource_kinds();
        for i in 0..all.len()
            invariant
                all@.len() == 10,
                all@.no_duplicates(),
                forall|k: ResourceKind| all@.contains(k),
                forall|j: int| 0 <= j < i ==> content.amount(#[trigger] all@[j]) == self.amount(all@[j]),
                forall|j: int| i <= j < 10 ==> content.amount(#[trigger] all@[j]) == 0,
        {
            let k = all[i];
            let n = self.count(k);
            proof {
                assert forall|j: int| 0 <= j < 10 && j != i implies all@[j] != k by {
                    assert(all@[j] != all@[i as int]);
                }
            }
            content.add(k, n);
        }
        proof {
            assert forall|k: ResourceKind| content.amount(k) == self.amount(k) by {
                assert(all@.contains(k));
                let j = choose|j: int| 0 <= j < all@.len() && all@[j] == k;
                assert(content.amount(all@[j]) == self.amount(all@[j]));
            }
        }
        content
    }
}

} // verus!

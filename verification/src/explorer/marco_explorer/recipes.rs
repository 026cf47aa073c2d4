//! The crafting tree of the game, and the goal the explorer picks from it.

use vstd::prelude::*;

use super::bag::{Bag, Item};
use crate::resource::{BasicKind, BasicSet, BasicTally, ComplexKind, ComplexSet, ComplexTally, ResourceKind};

verus! {

/// The basic ingredients of a complex kind (with repetition).
pub open spec fn recipe_basics(c: ComplexKind) -> Seq<BasicKind> {
    match c {
        ComplexKind::Diamond => seq![BasicKind::Carbon, BasicKind::Carbon],
        ComplexKind::Water => seq![BasicKind::Hydrogen, BasicKind::Oxygen],
        ComplexKind::Life => seq![BasicKind::Carbon],
        ComplexKind::Robot => seq![BasicKind::Silicon],
        ComplexKind::Dolphin => Seq::empty(),
        ComplexKind::AIPartner => Seq::empty(),
    }
}

/// The complex ingredients of a complex kind.
pub open spec fn recipe_complexes(c: ComplexKind) -> Seq<ComplexKind> {
    match c {
        ComplexKind::Diamond => Seq::empty(),
        ComplexKind::Water => Seq::empty(),
        ComplexKind::Life => seq![ComplexKind::Water],
        ComplexKind::Robot => seq![ComplexKind::Life],
        ComplexKind::Dolphin => seq![ComplexKind::Water, ComplexKind::Life],
        ComplexKind::AIPartner => seq![ComplexKind::Robot, ComplexKind::Diamond],
    }
}

/// The two ingredients of a combination request, in the order the request
/// carries them.
pub open spec fn request_slots(c: ComplexKind) -> (ResourceKind, ResourceKind) {
    match c {
        ComplexKind::Diamond => (
            ResourceKind::Basic(BasicKind::Carbon),
            ResourceKind::Basic(BasicKind::Carbon),
        ),
        ComplexKind::Water => (
            ResourceKind::Basic(BasicKind::Hydrogen),
            ResourceKind::Basic(BasicKind::Oxygen),
        ),
        ComplexKind::Life => (
            ResourceKind::Complex(ComplexKind::Water),
            ResourceKind::Basic(BasicKind::Carbon),
        ),
        ComplexKind::Robot => (
            ResourceKind::Basic(BasicKind::Silicon),
            ResourceKind::Complex(ComplexKind::Life),
        ),
        ComplexKind::Dolphin => (
            ResourceKind::Complex(ComplexKind::Water),
            ResourceKind::Complex(ComplexKind::Life),
        ),
        ComplexKind::AIPartner => (
            ResourceKind::Complex(ComplexKind::Robot),
            ResourceKind::Complex(ComplexKind::Diamond),
        ),
    }
}

/// Depth of a kind in the crafting tree.
pub open spec fn tier_of(c: ComplexKind) -> nat {
    match c {
        ComplexKind::Diamond => 1,
        ComplexKind::Water => 1,
        ComplexKind::Life => 2,
        ComplexKind::Robot => 3,
        ComplexKind::Dolphin => 3,
        ComplexKind::AIPartner => 4,
    }
}

/// How many times `x` occurs in `s`.
pub open spec fn occurrences<A>(s: Seq<A>, x: A) -> nat
    decreases s.len(),
{
    if s.len() == 0 {
        0
    } else {
        occurrences(s.drop_last(), x) + if s.last() == x { 1nat } else { 0nat }
    }
}

/// Units of basic kind `b` consumed, over the whole tree, by one unit of `c`.
pub open spec fn basic_units(c: ComplexKind, b: BasicKind) -> nat
    decreases tier_of(c),
{
    let cs = recipe_complexes(c);
    occurrences(recipe_basics(c), b) + (if cs.len() > 0 && tier_of(cs[0]) < tier_of(c) {
        basic_units(cs[0], b)
    } else {
        0
    }) + (if cs.len() > 1 && tier_of(cs[1]) < tier_of(c) {
        basic_units(cs[1], b)
    } else {
        0
    })
}

/// Units of complex kind `k` produced, intermediates included, on the way to
/// one unit of `c`.
pub open spec fn production_units(c: ComplexKind, k: ComplexKind) -> nat
    decreases tier_of(c),
{
    let cs = recipe_complexes(c);
    (if c == k { 1nat } else { 0nat }) + (if cs.len() > 0 && tier_of(cs[0]) < tier_of(c) {
        production_units(cs[0], k)
    } else {
        0
    }) + (if cs.len() > 1 && tier_of(cs[1]) < tier_of(c) {
        production_units(cs[1], k)
    } else {
        0
    })
}

/// Every complex ingredient sits strictly lower in the tree than what it makes.
pub proof fn lemma_ingredients_are_lower(c: ComplexKind, i: int)
    requires
        0 <= i < recipe_complexes(c).len(),
    ensures
        tier_of(recipe_complexes(c)[i]) < tier_of(c),
{
}

/// The direct ingredients of a complex kind: `(basics, complexes)`.
pub fn ingredients(ty: ComplexKind) -> (r: (Vec<BasicKind>, Vec<ComplexKind>))
    ensures
        r.0@ == recipe_basics(ty),
        r.1@ == recipe_complexes(ty),
        r.0@.len() + r.1@.len() == 2,
        forall|k: ResourceKind|
            #[trigger] listed_units(ty, k) == (if request_slots(ty).0 == k { 1nat } else { 0nat }) + (if request_slots(
                ty,
            ).1 == k {
                1nat
            } else {
                0nat
            }),
{
    proof {
        assert forall|k: ResourceKind|
            #[trigger] listed_units(ty, k) == (if request_slots(ty).0 == k { 1nat } else { 0nat }) + (if request_slots(
                ty,
            ).1 == k {
                1nat
            } else {
                0nat
            }) by {
            lemma_ingredients_match_request(ty, k);
        }
        lemma_ingredients_match_request(ty, ResourceKind::Basic(BasicKind::Carbon));
    }
    match ty {
        ComplexKind::Diamond => (vec![BasicKind::Carbon, BasicKind::Carbon], vec![]),
        ComplexKind::Water => (vec![BasicKind::Hydrogen, BasicKind::Oxygen], vec![]),
        ComplexKind::Life => (vec![BasicKind::Carbon], vec![ComplexKind::Water]),
        ComplexKind::Robot => (vec![BasicKind::Silicon], vec![ComplexKind::Life]),
        ComplexKind::Dolphin => (vec![], vec![ComplexKind::Water, ComplexKind::Life]),
        ComplexKind::AIPartner => (vec![], vec![ComplexKind::Robot, ComplexKind::Diamond]),
    }
}

/// Units of kind `k` among the direct ingredients listed for `c`.
pub open spec fn listed_units(c: ComplexKind, k: ResourceKind) -> nat {
    match k {
        ResourceKind::Basic(b) => occurrences(recipe_basics(c), b),
        ResourceKind::Complex(x) => occurrences(recipe_complexes(c), x),
    }
}

/// The ingredient lists of every complex kind hold exactly the two
/// ingredients the game's combination request for it carries: two items in
/// all, and each kind as often as it fills a slot of the request.
pub proof fn lemma_ingredients_match_request(c: ComplexKind, k: ResourceKind)
    ensures
        recipe_basics(c).len() + recipe_complexes(c).len() == 2,
        listed_units(c, k) == (if request_slots(c).0 == k { 1nat } else { 0nat }) + (if request_slots(c).1
            == k {
            1nat
        } else {
            0nat
        }),
{
    reveal_with_fuel(occurrences, 3);
}

/// Depth in the crafting tree, used to craft dependencies before their
/// consumers.
pub fn tier(ty: ComplexKind) -> (t: u8)
    ensures
        t == tier_of(ty),
{
    match ty {
        ComplexKind::Diamond | ComplexKind::Water => 1,
        ComplexKind::Life => 2,
        ComplexKind::Robot | ComplexKind::Dolphin => 3,
        ComplexKind::AIPartner => 4,
    }
}


/// The basic units of the first `j` complex ingredients of `c`.
pub open spec fn complex_part_basic(c: ComplexKind, j: int, b: BasicKind) -> nat {
    let cs = recipe_complexes(c);
    (if j > 0 && cs.len() > 0 { basic_units(cs[0], b) } else { 0 }) + (if j > 1 && cs.len() > 1 {
        basic_units(cs[1], b)
    } else {
        0
    })
}

/// The produced units of the first `j` complex ingredients of `c`.
pub open spec fn complex_part_production(c: ComplexKind, j: int, k: ComplexKind) -> nat {
    let cs = recipe_complexes(c);
    (if j > 0 && cs.len() > 0 { production_units(cs[0], k) } else { 0 }) + (if j > 1 && cs.len()
        > 1 {
        production_units(cs[1], k)
    } else {
        0
    })
}

proof fn lemma_scale(count: int, x: int, y: int)
    by (nonlinear_arith)
    requires
        count >= 0,
    ensures
        count * (x + y) == count * x + count * y,
        x <= y ==> count * x <= count * y,
{
}

proof fn lemma_occurrences_take_step<A>(s: Seq<A>, i: int, x: A)
    requires
        0 <= i < s.len(),
    ensures
        occurrences(s.take(i + 1), x) == occurrences(s.take(i), x) + if s[i] == x { 1nat } else { 0nat },
{
    assert(s.take(i + 1).drop_last() =~= s.take(i));
}

proof fn lemma_occurrences_prefix<A>(s: Seq<A>, i: int, x: A)
    requires
        0 <= i <= s.len(),
    ensures
        occurrences(s.take(i), x) <= occurrences(s, x),
    decreases s.len() - i,
{
    if i < s.len() {
        lemma_occurrences_take_step(s, i, x);
        lemma_occurrences_prefix(s, i + 1, x);
    } else {
        assert(s.take(i) =~= s);
    }
}

proof fn lemma_basic_units_split(c: ComplexKind, b: BasicKind)
    ensures
        basic_units(c, b) == occurrences(recipe_basics(c), b) + complex_part_basic(
            c,
            recipe_complexes(c).len() as int,
            b,
        ),
        recipe_complexes(c).len() <= 2,
{
}

proof fn lemma_production_units_split(c: ComplexKind, k: ComplexKind)
    ensures
        production_units(c, k) == (if c == k { 1nat } else { 0nat }) + complex_part_production(
            c,
            recipe_complexes(c).len() as int,
            k,
        ),
        recipe_complexes(c).len() <= 2,
{
}

/// Accumulates into `acc` the basic resources needed to build `count` units
/// of `ty`, going down the whole tree.
pub fn basic_cost(ty: ComplexKind, count: usize, acc: &mut BasicTally)
    requires
        forall|b: BasicKind| old(acc).at(b) + count * basic_units(ty, b) <= usize::MAX,
    ensures
        forall|b: BasicKind| final(acc).at(b) == old(acc).at(b) + count * basic_units(ty, b),
    decreases tier_of(ty),
{
    let (basics, complex) = ingredients(ty);
    let ghost start = *acc;
    proof {
        assert forall|b: BasicKind| #[trigger] basic_units(ty, b) >= occurrences(basics@, b) by {
            lemma_basic_units_split(ty, b);
        }
        assert(basics@.take(0) =~= Seq::<BasicKind>::empty());
        assert forall|b: BasicKind|
            #[trigger] acc.at(b) == start.at(b) + count * occurrences(basics@.take(0), b) by {
            assert(occurrences(basics@.take(0), b) == 0);
            lemma_scale(count as int, 0, 0);
        }
    }
    for i in 0..basics.len()
        invariant
            basics@ == recipe_basics(ty),
            forall|b: BasicKind| #[trigger] basic_units(ty, b) >= occurrences(basics@, b),
            forall|b: BasicKind| start.at(b) + count * basic_units(ty, b) <= usize::MAX,
            forall|b: BasicKind|
                #[trigger] acc.at(b) == start.at(b) + count * occurrences(basics@.take(i as int), b),
    {
        let k = basics[i];
        proof {
            assert forall|b: BasicKind|
                occurrences(basics@.take(i + 1), b) == occurrences(basics@.take(i as int), b) + if k
                    == b { 1nat } else { 0nat } by {
                lemma_occurrences_take_step(basics@, i as int, b);
            }
            lemma_occurrences_prefix(basics@, i + 1, k);
            let n = occurrences(basics@.take(i as int), k);
            lemma_scale(count as int, n as int, 1);
            lemma_scale(count as int, (n + 1) as int, basic_units(ty, k) as int);
        }
        acc.add(k, count);
        proof {
            assert forall|b: BasicKind|
                #[trigger] acc.at(b) == start.at(b) + count * occurrences(basics@.take(i + 1), b) by {
                let n = occurrences(basics@.take(i as int), b);
                lemma_scale(count as int, n as int, 1);
            }
        }
    }
    let ghost mid = *acc;
    proof {
        assert(basics@.take(basics@.len() as int) =~= basics@);
        assert forall|b: BasicKind|
            #[trigger] acc.at(b) == mid.at(b) + count * complex_part_basic(ty, 0, b) by {
            lemma_scale(count as int, 0, 0);
        }
    }
    for j in 0..complex.len()
        invariant
            complex@ == recipe_complexes(ty),
            complex@.len() <= 2,
            forall|b: BasicKind| start.at(b) + count * basic_units(ty, b) <= usize::MAX,
            forall|b: BasicKind|
                #[trigger] mid.at(b) == start.at(b) + count * occurrences(recipe_basics(ty), b),
            forall|b: BasicKind|
                #[trigger] acc.at(b) == mid.at(b) + count * complex_part_basic(ty, j as int, b),
    {
        let c = complex[j];
        proof {
            lemma_ingredients_are_lower(ty, j as int);
            assert forall|b: BasicKind|
                acc.at(b) + count * basic_units(c, b) <= usize::MAX by {
                lemma_basic_units_split(ty, b);
                assert(complex_part_basic(ty, j + 1, b) == complex_part_basic(ty, j as int, b)
                    + basic_units(c, b));
                assert(complex_part_basic(ty, j + 1, b) <= complex_part_basic(
                    ty,
                    complex@.len() as int,
                    b,
                ));
                assert(occurrences(recipe_basics(ty), b) + complex_part_basic(ty, j + 1, b)
                    <= basic_units(ty, b));
                lemma_scale(
                    count as int,
                    (occurrences(recipe_basics(ty), b) + complex_part_basic(ty, j + 1, b)) as int,
                    basic_units(ty, b) as int,
                );
                lemma_scale(
                    count as int,
                    occurrences(recipe_basics(ty), b) as int,
                    complex_part_basic(ty, j + 1, b) as int,
                );
                lemma_scale(
                    count as int,
                    complex_part_basic(ty, j as int, b) as int,
                    basic_units(c, b) as int,
                );
            }
        }
        basic_cost(c, count, acc);
        proof {
            assert forall|b: BasicKind|
                #[trigger] acc.at(b) == mid.at(b) + count * complex_part_basic(ty, j + 1, b) by {
                assert(complex_part_basic(ty, j + 1, b) == complex_part_basic(ty, j as int, b)
                    + basic_units(c, b));
                lemma_scale(
                    count as int,
                    complex_part_basic(ty, j as int, b) as int,
                    basic_units(c, b) as int,
                );
            }
        }
    }
    proof {
        assert forall|b: BasicKind| acc.at(b) == start.at(b) + count * basic_units(ty, b) by {
            lemma_basic_units_split(ty, b);
            lemma_scale(
                count as int,
                occurrences(recipe_basics(ty), b) as int,
                complex_part_basic(ty, complex@.len() as int, b) as int,
            );
        }
    }
}


/// Accumulates into `acc` every complex resource that must be produced to end
/// up with `count` units of `ty`, intermediates included.
pub fn complex_production(ty: ComplexKind, count: usize, acc: &mut ComplexTally)
    requires
        forall|k: ComplexKind| old(acc).at(k) + count * production_units(ty, k) <= usize::MAX,
    ensures
        forall|k: ComplexKind| final(acc).at(k) == old(acc).at(k) + count * production_units(ty, k),
    decreases tier_of(ty),
{
    let ghost start = *acc;
    proof {
        lemma_production_units_split(ty, ty);
        lemma_scale(count as int, 1, production_units(ty, ty) as int);
    }
    acc.add(ty, count);
    let ghost mid = *acc;
    let (_, complex) = ingredients(ty);
    proof {
        assert forall|k: ComplexKind|
            #[trigger] acc.at(k) == mid.at(k) + count * complex_part_production(ty, 0, k) by {
            lemma_scale(count as int, 0, 0);
        }
    }
    for j in 0..complex.len()
        invariant
            complex@ == recipe_complexes(ty),
            complex@.len() <= 2,
            forall|k: ComplexKind| start.at(k) + count * production_units(ty, k) <= usize::MAX,
            forall|k: ComplexKind|
                #[trigger] mid.at(k) == start.at(k) + count * (if ty == k { 1nat } else { 0nat }),
            forall|k: ComplexKind|
                #[trigger] acc.at(k) == mid.at(k) + count * complex_part_production(ty, j as int, k),
    {
        let c = complex[j];
        proof {
            lemma_ingredients_are_lower(ty, j as int);
            assert forall|k: ComplexKind| acc.at(k) + count * production_units(c, k) <= usize::MAX by {
                lemma_production_units_split(ty, k);
                let own: nat = if ty == k { 1nat } else { 0nat };
                assert(complex_part_production(ty, j + 1, k) == complex_part_production(ty, j as int, k)
                    + production_units(c, k));
                lemma_scale(
                    count as int,
                    (own + complex_part_production(ty, j + 1, k)) as int,
                    production_units(ty, k) as int,
                );
                lemma_scale(count as int, own as int, complex_part_production(ty, j + 1, k) as int);
                lemma_scale(
                    count as int,
                    complex_part_production(ty, j as int, k) as int,
                    production_units(c, k) as int,
                );
            }
        }
        complex_production(c, count, acc);
        proof {
            assert forall|k: ComplexKind|
                #[trigger] acc.at(k) == mid.at(k) + count * complex_part_production(ty, j + 1, k) by {
                assert(complex_part_production(ty, j + 1, k) == complex_part_production(ty, j as int, k)
                    + production_units(c, k));
                lemma_scale(
                    count as int,
                    complex_part_production(ty, j as int, k) as int,
                    production_units(c, k) as int,
                );
            }
        }
    }
    proof {
        assert forall|k: ComplexKind| acc.at(k) == start.at(k) + count * production_units(ty, k) by {
            lemma_production_units_split(ty, k);
            let own: nat = if ty == k { 1nat } else { 0nat };
            lemma_scale(
                count as int,
                own as int,
                complex_part_production(ty, complex@.len() as int, k) as int,
            );
        }
    }
}


/// A combination request: the kind to make and its two ingredients, in the
/// order the request carries them (see [`request_slots`]).
#[derive(Debug)]
pub struct Request<B, C> {
    pub target: ComplexKind,
    pub first: Item<B, C>,
    pub second: Item<B, C>,
}

/// The bag holds the ingredients of one `ty`.
pub open spec fn can_build<B, C>(bag: Bag<B, C>, ty: ComplexKind) -> bool {
    let (a, b) = request_slots(ty);
    if a == b {
        bag.amount(a) >= 2
    } else {
        bag.amount(a) >= 1 && bag.amount(b) >= 1
    }
}

/// `req` was assembled by taking its ingredients out of `before`, most
/// recently filed first, leaving `after`.
pub open spec fn built_from<B, C>(before: Bag<B, C>, after: Bag<B, C>, req: Request<B, C>) -> bool {
    let (a, b) = request_slots(req.target);
    let sa = before.items(a);
    let sb = before.items(b);
    if a == b {
        &&& sa.len() >= 2
        &&& req.first == sa[sa.len() - 1]
        &&& req.second == sa[sa.len() - 2]
        &&& after.items(a) == sa.take(sa.len() - 2)
        &&& forall|k: ResourceKind| k != a ==> #[trigger] after.items(k) == before.items(k)
    } else {
        &&& sa.len() >= 1
        &&& sb.len() >= 1
        &&& req.first == sa.last()
        &&& req.second == sb.last()
        &&& after.items(a) == sa.drop_last()
        &&& after.items(b) == sb.drop_last()
        &&& forall|k: ResourceKind| k != a && k != b ==> #[trigger] after.items(k) == before.items(k)
    }
}

proof fn lemma_same_items<B, C>(start: Bag<B, C>, end: Bag<B, C>, k: ResourceKind)
    requires
        match k {
            ResourceKind::Basic(x) => end.basics(x) == start.basics(x),
            ResourceKind::Complex(x) => end.complexes(x) == start.complexes(x),
        },
    ensures
        end.items(k) == start.items(k),
{
}

proof fn lemma_map_drop_last<A, T>(s: Seq<A>, f: spec_fn(A) -> T)
    requires
        s.len() > 0,
    ensures
        s.drop_last().map_values(f) == s.map_values(f).drop_last(),
{
    assert(s.drop_last().map_values(f) =~= s.map_values(f).drop_last());
}

proof fn lemma_pair_taken<B, C>(start: Bag<B, C>, end: Bag<B, C>, a: ResourceKind, b: ResourceKind)
    requires
        a != b,
        match a {
            ResourceKind::Basic(x) => start.basics(x).len() > 0 && end.basics(x) == start.basics(x).drop_last(),
            ResourceKind::Complex(x) => start.complexes(x).len() > 0 && end.complexes(x) == start.complexes(x).drop_last(),
        },
        match b {
            ResourceKind::Basic(x) => start.basics(x).len() > 0 && end.basics(x) == start.basics(x).drop_last(),
            ResourceKind::Complex(x) => start.complexes(x).len() > 0 && end.complexes(x) == start.complexes(x).drop_last(),
        },
        forall|x: BasicKind| ResourceKind::Basic(x) != a && ResourceKind::Basic(x) != b ==> #[trigger] end.basics(x) == start.basics(x),
        forall|x: ComplexKind| ResourceKind::Complex(x) != a && ResourceKind::Complex(x) != b ==> #[trigger] end.complexes(x) == start.complexes(x),
    ensures
        end.items(a) == start.items(a).drop_last(),
        end.items(b) == start.items(b).drop_last(),
        forall|k: ResourceKind| k != a && k != b ==> #[trigger] end.items(k) == start.items(k),
{
    match a {
        ResourceKind::Basic(x) => lemma_map_drop_last(start.basics(x), |y: B| Item::<B, C>::Basic(y)),
        ResourceKind::Complex(x) => lemma_map_drop_last(start.complexes(x), |y: C| Item::<B, C>::Complex(y)),
    }
    match b {
        ResourceKind::Basic(x) => lemma_map_drop_last(start.basics(x), |y: B| Item::<B, C>::Basic(y)),
        ResourceKind::Complex(x) => lemma_map_drop_last(start.complexes(x), |y: C| Item::<B, C>::Complex(y)),
    }
    assert forall|k: ResourceKind| k != a && k != b implies #[trigger] end.items(k) == start.items(k) by {
        lemma_same_items(start, end, k);
    }
}

proof fn lemma_two_taken<B, C>(start: Bag<B, C>, end: Bag<B, C>, a: ResourceKind)
    requires
        match a {
            ResourceKind::Basic(x) => start.basics(x).len() > 1 && end.basics(x) == start.basics(x).drop_last().drop_last(),
            ResourceKind::Complex(x) => start.complexes(x).len() > 1 && end.complexes(x) == start.complexes(x).drop_last().drop_last(),
        },
        forall|x: BasicKind| ResourceKind::Basic(x) != a ==> #[trigger] end.basics(x) == start.basics(x),
        forall|x: ComplexKind| ResourceKind::Complex(x) != a ==> #[trigger] end.complexes(x) == start.complexes(x),
    ensures
        end.items(a) == start.items(a).take(start.items(a).len() - 2),
        forall|k: ResourceKind| k != a ==> #[trigger] end.items(k) == start.items(k),
{
    match a {
        ResourceKind::Basic(x) => assert(end.items(a) =~= start.items(a).take(start.items(a).len() - 2)),
        ResourceKind::Complex(x) => assert(end.items(a) =~= start.items(a).take(start.items(a).len() - 2)),
    }
    assert forall|k: ResourceKind| k != a implies #[trigger] end.items(k) == start.items(k) by {
        lemma_same_items(start, end, k);
    }
}

/// Takes the ingredients of one `ty` out of the bag and assembles the
/// request. If the second ingredient is missing, the first is put back, so a
/// failed attempt leaves the bag as it was.
pub fn build_request<B, C>(bag: &mut Bag<B, C>, ty: ComplexKind) -> (r: Option<Request<B, C>>)
    ensures
        r is Some <==> can_build(*old(bag), ty),
        r is None ==> forall|k: ResourceKind| #[trigger] final(bag).items(k) == old(bag).items(k),
        r matches Some(req) ==> req.target == ty && built_from(*old(bag), *final(bag), req),
{
    let ghost start = *bag;
    match ty {
        ComplexKind::Diamond => {
            let a = match bag.take_basic(BasicKind::Carbon) {
                Some(x) => x,
                None => return None,
            };
            let b = match bag.take_basic(BasicKind::Carbon) {
                Some(x) => x,
                None => {
                    bag.add_basic(BasicKind::Carbon, a);
                    return None;
                },
            };
            proof { lemma_two_taken(start, *bag, ResourceKind::Basic(BasicKind::Carbon)); }
            Some(Request { target: ty, first: Item::Basic(a), second: Item::Basic(b) })
        },
        ComplexKind::Water => {
            let a = match bag.take_basic(BasicKind::Hydrogen) {
                Some(x) => x,
                None => return None,
            };
            let b = match bag.take_basic(BasicKind::Oxygen) {
                Some(x) => x,
                None => {
                    bag.add_basic(BasicKind::Hydrogen, a);
                    return None;
                },
            };
            proof { lemma_pair_taken(start, *bag, ResourceKind::Basic(BasicKind::Hydrogen), ResourceKind::Basic(BasicKind::Oxygen)); }
            Some(Request { target: ty, first: Item::Basic(a), second: Item::Basic(b) })
        },
        ComplexKind::Life => {
            let a = match bag.take_complex(ComplexKind::Water) {
                Some(x) => x,
                None => return None,
            };
            let b = match bag.take_basic(BasicKind::Carbon) {
                Some(x) => x,
                None => {
                    bag.add_complex(ComplexKind::Water, a);
                    return None;
                },
            };
            proof { lemma_pair_taken(start, *bag, ResourceKind::Complex(ComplexKind::Water), ResourceKind::Basic(BasicKind::Carbon)); }
            Some(Request { target: ty, first: Item::Complex(a), second: Item::Basic(b) })
        },
        ComplexKind::Robot => {
            let a = match bag.take_basic(BasicKind::Silicon) {
                Some(x) => x,
                None => return None,
            };
            let b = match bag.take_complex(ComplexKind::Life) {
                Some(x) => x,
                None => {
                    bag.add_basic(BasicKind::Silicon, a);
                    return None;
                },
            };
            proof { lemma_pair_taken(start, *bag, ResourceKind::Basic(BasicKind::Silicon), ResourceKind::Complex(ComplexKind::Life)); }
            Some(Request { target: ty, first: Item::Basic(a), second: Item::Complex(b) })
        },
        ComplexKind::Dolphin => {
            let a = match bag.take_complex(ComplexKind::Water) {
                Some(x) => x,
                None => return None,
            };
            let b = match bag.take_complex(ComplexKind::Life) {
                Some(x) => x,
                None => {
                    bag.add_complex(ComplexKind::Water, a);
                    return None;
                },
            };
            proof { lemma_pair_taken(start, *bag, ResourceKind::Complex(ComplexKind::Water), ResourceKind::Complex(ComplexKind::Life)); }
            Some(Request { target: ty, first: Item::Complex(a), second: Item::Complex(b) })
        },
        ComplexKind::AIPartner => {
            let a = match bag.take_complex(ComplexKind::Robot) {
                Some(x) => x,
                None => return None,
            };
            let b = match bag.take_complex(ComplexKind::Diamond) {
                Some(x) => x,
                None => {
                    bag.add_complex(ComplexKind::Robot, a);
                    return None;
                },
            };
            proof { lemma_pair_taken(start, *bag, ResourceKind::Complex(ComplexKind::Robot), ResourceKind::Complex(ComplexKind::Diamond)); }
            Some(Request { target: ty, first: Item::Complex(a), second: Item::Complex(b) })
        },
    }
}


/// What the explorer wants, in order of preference, with how many of each.
pub open spec fn wishlist_spec() -> Seq<(ComplexKind, usize)> {
    seq![
        (ComplexKind::AIPartner, 10usize),
        (ComplexKind::Dolphin, 10usize),
        (ComplexKind::Robot, 10usize),
        (ComplexKind::Diamond, 25usize),
    ]
}

/// What the explorer wants, in order of preference: a harem of AI
/// girlfriends, then progressively less exciting company.
pub fn wishlist() -> (w: Vec<(ComplexKind, usize)>)
    ensures
        w@ == wishlist_spec(),
{
    let w = vec![
        (ComplexKind::AIPartner, 10usize),
        (ComplexKind::Dolphin, 10usize),
        (ComplexKind::Robot, 10usize),
        (ComplexKind::Diamond, 25usize),
    ];
    proof {
        assert(w@ =~= wishlist_spec());
    }
    w
}

/// The most wanted entry of the wishlist that is feasible, if any.
pub open spec fn first_wanted(feasible: ComplexSet) -> Option<(ComplexKind, usize)> {
    if feasible.has(ComplexKind::AIPartner) {
        Some((ComplexKind::AIPartner, 10usize))
    } else if feasible.has(ComplexKind::Dolphin) {
        Some((ComplexKind::Dolphin, 10usize))
    } else if feasible.has(ComplexKind::Robot) {
        Some((ComplexKind::Robot, 10usize))
    } else if feasible.has(ComplexKind::Diamond) {
        Some((ComplexKind::Diamond, 25usize))
    } else {
        None
    }
}

/// The most-wanted resource the galaxy can actually make, or `None` if it can
/// make none of them.
pub fn pick_goal(feasible: &ComplexSet) -> (r: Option<(ComplexKind, usize)>)
    ensures
        r == first_wanted(*feasible),
{
    let w = wishlist();
    for i in 0..w.len()
        invariant
            w@ == wishlist_spec(),
            forall|j: int| 0 <= j < i ==> !feasible.has(#[trigger] w@[j].0),
    {
        if feasible.contains(w[i].0) {
            return Some(w[i]);
        }
    }
    proof {
        assert(!feasible.has(w@[0].0) && !feasible.has(w@[1].0));
        assert(!feasible.has(w@[2].0) && !feasible.has(w@[3].0));
    }
    None
}

/// All direct ingredients of `c` are available: its basics in `basics`, its
/// complex ingredients in `have`.
pub open spec fn ingredients_ready(c: ComplexKind, basics: BasicSet, have: ComplexSet) -> bool {
    &&& forall|i: int| 0 <= i < recipe_basics(c).len() ==> basics.has(#[trigger] recipe_basics(c)[i])
    &&& forall|i: int|
        0 <= i < recipe_complexes(c).len() ==> have.has(#[trigger] recipe_complexes(c)[i])
}

/// `c` can be crafted somewhere in a galaxy whose planets generate `basics`
/// and combine `combos`: some planet combines it and each of its ingredients
/// is generated, or is itself craftable.
pub open spec fn craftable(basics: BasicSet, combos: ComplexSet, c: ComplexKind) -> bool
    decreases tier_of(c),
{
    let cs = recipe_complexes(c);
    &&& combos.has(c)
    &&& forall|i: int| 0 <= i < recipe_basics(c).len() ==> basics.has(#[trigger] recipe_basics(c)[i])
    &&& (cs.len() > 0 && tier_of(cs[0]) < tier_of(c) ==> craftable(basics, combos, cs[0]))
    &&& (cs.len() > 1 && tier_of(cs[1]) < tier_of(c) ==> craftable(basics, combos, cs[1]))
}

/// Whether the direct ingredients of `ty` are available.
fn ingredients_available(ty: ComplexKind, basics: &BasicSet, have: &ComplexSet) -> (r: bool)
    ensures
        r == ingredients_ready(ty, *basics, *have),
{
    let (bs, cs) = ingredients(ty);
    for i in 0..bs.len()
        invariant
            bs@ == recipe_basics(ty),
            forall|j: int| 0 <= j < i ==> basics.has(#[trigger] bs@[j]),
    {
        if !basics.contains(bs[i]) {
            return false;
        }
    }
    for i in 0..cs.len()
        invariant
            cs@ == recipe_complexes(ty),
            bs@ == recipe_basics(ty),
            forall|j: int| 0 <= j < bs@.len() ==> basics.has(#[trigger] bs@[j]),
            forall|j: int| 0 <= j < i ==> have.has(#[trigger] cs@[j]),
    {
        if !have.contains(cs[i]) {
            return false;
        }
    }
    true
}

/// Every complex kind, in declaration order.
pub open spec fn complex_kinds_in_order() -> Seq<ComplexKind> {
    seq![
        ComplexKind::Diamond,
        ComplexKind::Water,
        ComplexKind::Life,
        ComplexKind::Robot,
        ComplexKind::Dolphin,
        ComplexKind::AIPartner,
    ]
}

/// Every complex kind once, in declaration order.
pub fn all_complex_kinds() -> (v: Vec<ComplexKind>)
    ensures
        v@ == complex_kinds_in_order(),
        v@.len() == 6,
        v@.no_duplicates(),
        forall|k: ComplexKind| v@.contains(k),
{
    let v = vec![
        ComplexKind::Diamond,
        ComplexKind::Water,
        ComplexKind::Life,
        ComplexKind::Robot,
        ComplexKind::Dolphin,
        ComplexKind::AIPartner,
    ];
    proof {
        assert(v@ =~= complex_kinds_in_order());
        assert forall|k: ComplexKind| v@.contains(k) by {
            match k {
                ComplexKind::Diamond => assert(v@[0] == k),
                ComplexKind::Water => assert(v@[1] == k),
                ComplexKind::Life => assert(v@[2] == k),
                ComplexKind::Robot => assert(v@[3] == k),
                ComplexKind::Dolphin => assert(v@[4] == k),
                ComplexKind::AIPartner => assert(v@[5] == k),
            }
        }
    }
    v
}

/// A set that holds only craftable kinds and is closed (every combinable
/// kind whose ingredients it holds is in it) holds every craftable kind.
proof fn lemma_closed_holds_craftable(basics: BasicSet, combos: ComplexSet, s: ComplexSet, c: ComplexKind)
    requires
        forall|k: ComplexKind|
            combos.has(k) && ingredients_ready(k, basics, s) ==> #[trigger] s.has(k),
        craftable(basics, combos, c),
    ensures
        s.has(c),
    decreases tier_of(c),
{
    let cs = recipe_complexes(c);
    if cs.len() > 0 {
        lemma_ingredients_are_lower(c, 0);
        lemma_closed_holds_craftable(basics, combos, s, cs[0]);
    }
    if cs.len() > 1 {
        lemma_ingredients_are_lower(c, 1);
        lemma_closed_holds_craftable(basics, combos, s, cs[1]);
    }
    assert(ingredients_ready(c, basics, s));
}

/// Which complex resources can actually be crafted, given the basics some
/// planet generates and the combinations available anywhere. Fixed point:
/// keep adding craftable kinds until nothing new becomes reachable, so a
/// craftable intermediate can unlock the kinds that need it.
pub fn feasible_complex(available_basics: &BasicSet, available_combinations: &ComplexSet) -> (r: ComplexSet)
    ensures
        forall|c: ComplexKind| r.has(c) == craftable(*available_basics, *available_combinations, c),
{
    let ghost bs = *available_basics;
    let ghost cb = *available_combinations;
    let kinds = all_complex_kinds();
    let mut found = ComplexSet::new();
    loop
        invariant
            bs == *available_basics,
            cb == *available_combinations,
            kinds@.len() == 6,
            kinds@.no_duplicates(),
            forall|k: ComplexKind| kinds@.contains(k),
            forall|k: ComplexKind| #[trigger] found.has(k) ==> craftable(bs, cb, k),
        decreases 6 - found.size(),
    {
        let ghost before = found;
        let mut grew = false;
        for i in 0..kinds.len()
            invariant
                bs == *available_basics,
                cb == *available_combinations,
                kinds@.len() == 6,
                forall|k: ComplexKind| #[trigger] found.has(k) ==> craftable(bs, cb, k),
                forall|k: ComplexKind| before.has(k) ==> #[trigger] found.has(k),
                grew ==> found.size() > before.size(),
                !grew ==> found == before,
                !grew ==> forall|j: int|
                    0 <= j < i && cb.has(#[trigger] kinds@[j]) && ingredients_ready(kinds@[j], bs, before)
                        ==> before.has(kinds@[j]),
                found.size() <= 6,
        {
            let ty = kinds[i];
            let ghost found_before = found;
            let wanted = available_combinations.contains(ty);
            let have = found.contains(ty);
            if wanted && !have {
                let ready = ingredients_available(ty, available_basics, &found);
                if ready {
                    proof {
                        let cs = recipe_complexes(ty);
                        if cs.len() > 0 {
                            assert(found.has(cs[0]));
                            assert(craftable(bs, cb, cs[0]));
                        }
                        if cs.len() > 1 {
                            assert(found.has(cs[1]));
                            assert(craftable(bs, cb, cs[1]));
                        }
                        assert(cb.has(ty));
                        assert(forall|j: int| 0 <= j < recipe_basics(ty).len() ==> bs.has(#[trigger] recipe_basics(ty)[j]));
                        assert(craftable(bs, cb, ty));
                    }
                    found.insert(ty);
                    grew = true;
                } else {
                    proof {
                        assert(!ingredients_ready(kinds@[i as int], bs, before) || grew);
                    }
                }
            }
            proof {
                if !grew {
                    assert(found == before);
                    assert(kinds@[i as int] == ty);
                }
            }
        }
        if !grew {
            proof {
                assert forall|k: ComplexKind|
                    cb.has(k) && ingredients_ready(k, bs, found) implies #[trigger] found.has(k) by {
                    assert(kinds@.contains(k));
                    let j = choose|j: int| 0 <= j < kinds@.len() && kinds@[j] == k;
                    assert(cb.has(kinds@[j]));
                }
                assert forall|c: ComplexKind| found.has(c) == craftable(bs, cb, c) by {
                    if craftable(bs, cb, c) {
                        lemma_closed_holds_craftable(bs, cb, found, c);
                    }
                }
            }
            return found;
        }
    }
}


proof fn lemma_occurrences_small<A>(x: A, y: A, b: A)
    ensures
        occurrences(Seq::<A>::empty(), b) == 0,
        occurrences(seq![x], b) == if x == b { 1nat } else { 0nat },
        occurrences(seq![x, y], b) == (if x == b { 1nat } else { 0nat }) + (if y == b { 1nat } else { 0nat }),
{
    assert(seq![x].drop_last() =~= Seq::<A>::empty());
    assert(seq![x, y].drop_last() =~= seq![x]);
    assert(occurrences(Seq::<A>::empty(), b) == 0);
    assert(seq![x].last() == x);
    assert(occurrences(seq![x], b) == occurrences(seq![x].drop_last(), b) + if x == b { 1nat } else { 0nat });
    assert(occurrences(seq![x], b) == if x == b { 1nat } else { 0nat });
    assert(seq![x, y].last() == y);
    assert(occurrences(seq![x, y], b) == occurrences(seq![x, y].drop_last(), b) + if y == b { 1nat } else { 0nat });
}

/// One unit of any complex kind consumes at most three units of a basic kind.
pub proof fn lemma_basic_units_bounded(c: ComplexKind, b: BasicKind)
    ensures
        basic_units(c, b) <= 3,
{
    lemma_occurrences_small(BasicKind::Carbon, BasicKind::Carbon, b);
    lemma_occurrences_small(BasicKind::Hydrogen, BasicKind::Oxygen, b);
    lemma_occurrences_small(BasicKind::Silicon, BasicKind::Silicon, b);
    let d = basic_units(ComplexKind::Diamond, b);
    let w = basic_units(ComplexKind::Water, b);
    assert(d == if b == BasicKind::Carbon { 2nat } else { 0nat });
    assert(w == if b == BasicKind::Hydrogen || b == BasicKind::Oxygen { 1nat } else { 0nat });
    let l = basic_units(ComplexKind::Life, b);
    assert(l == w + if b == BasicKind::Carbon { 1nat } else { 0nat });
    let r = basic_units(ComplexKind::Robot, b);
    assert(r == l + if b == BasicKind::Silicon { 1nat } else { 0nat });
    assert(basic_units(ComplexKind::Dolphin, b) == w + l);
    assert(basic_units(ComplexKind::AIPartner, b) == r + d);
}

/// One unit of any complex kind produces at most two units of a complex kind.
pub proof fn lemma_production_units_bounded(c: ComplexKind, k: ComplexKind)
    ensures
        production_units(c, k) <= 2,
{
    let d = production_units(ComplexKind::Diamond, k);
    let w = production_units(ComplexKind::Water, k);
    assert(d == if k == ComplexKind::Diamond { 1nat } else { 0nat });
    assert(w == if k == ComplexKind::Water { 1nat } else { 0nat });
    let l = production_units(ComplexKind::Life, k);
    assert(l == w + if k == ComplexKind::Life { 1nat } else { 0nat });
    let r = production_units(ComplexKind::Robot, k);
    assert(r == l + if k == ComplexKind::Robot { 1nat } else { 0nat });
    assert(production_units(ComplexKind::Dolphin, k) == w + l + if k == ComplexKind::Dolphin { 1nat } else { 0nat });
    assert(production_units(ComplexKind::AIPartner, k) == r + d + if k == ComplexKind::AIPartner { 1nat } else { 0nat });
}

} // verus!

//! Decisions over what the explorer knows of the galaxy: the first hop
//! toward the nearest planet still to be explored, which planets can make a
//! resource, and which of them to work on.

use vstd::prelude::*;

use super::knowledge::ExplorerKnowledge;
use crate::explorer::travel::contains_planet;
use crate::resource::{BasicKind, BasicSet, ComplexKind, ComplexSet};

verus! {

/// Planet `b` is a known neighbour of planet `a`.
pub open spec fn link(k: ExplorerKnowledge, a: u32, b: u32) -> bool {
    k.neighbors_of(a).contains(b)
}

/// Planet `p` can be travelled through: it has been queried and is alive.
pub open spec fn passable(k: ExplorerKnowledge, p: u32) -> bool {
    k.visited_spec(p) && !k.dead_spec(p)
}

/// Planet `p` is still to be explored: not queried, not destroyed, and not
/// one the explorer failed to reach.
pub open spec fn unexplored(k: ExplorerKnowledge, unreachable: Seq<u32>, p: u32) -> bool {
    !k.visited_spec(p) && !k.dead_spec(p) && !unreachable.contains(p)
}

/// `path` starts at `s`, follows known links, and every planet on it after
/// the first can be travelled through.
pub open spec fn is_route(k: ExplorerKnowledge, s: u32, path: Seq<u32>) -> bool
    decreases path.len(),
{
    if path.len() <= 1 {
        path.len() == 1 && path[0] == s
    } else {
        &&& is_route(k, s, path.drop_last())
        &&& link(k, path.drop_last().last(), path.last())
        &&& passable(k, path.last())
    }
}

/// Planet `p` is reached from `s` by a route of at most `n` hops.
pub open spec fn within(k: ExplorerKnowledge, s: u32, p: u32, n: int) -> bool {
    exists|path: Seq<u32>| #[trigger] is_route(k, s, path) && path.len() <= n + 1 && path.last() == p
}

/// `path` is a route from `s` whose last planet neighbours `t`, a planet
/// still to be explored.
pub open spec fn route_to_unexplored(
    k: ExplorerKnowledge,
    unreachable: Seq<u32>,
    s: u32,
    path: Seq<u32>,
    t: u32,
) -> bool {
    is_route(k, s, path) && link(k, path.last(), t) && unexplored(k, unreachable, t)
}

/// Some planet still to be explored can be reached from `s`.
pub open spec fn target_in_reach(k: ExplorerKnowledge, unreachable: Seq<u32>, s: u32) -> bool {
    exists|path: Seq<u32>, t: u32| #[trigger] route_to_unexplored(k, unreachable, s, path, t)
}

/// The first planet to travel to along `path` to reach `t`.
pub open spec fn hop_of(path: Seq<u32>, t: u32) -> u32 {
    if path.len() == 1 {
        t
    } else {
        path[1]
    }
}

/// `h` is the first hop of a shortest route from `s` to a planet still to be
/// explored.
pub open spec fn nearest_first_hop(k: ExplorerKnowledge, unreachable: Seq<u32>, s: u32, h: u32) -> bool {
    exists|path: Seq<u32>, t: u32|
        {
            &&& #[trigger] route_to_unexplored(k, unreachable, s, path, t)
            &&& hop_of(path, t) == h
            &&& forall|p2: Seq<u32>, t2: u32|
                #[trigger] route_to_unexplored(k, unreachable, s, p2, t2) ==> path.len() <= p2.len()
        }
}

/// A frontier entry `(planet, hop)` at distance `d`: the planet is reached by
/// a route of exactly `d` hops whose first hop is `hop`, and by none shorter.
spec fn frontier_entry(k: ExplorerKnowledge, s: u32, d: int, e: (u32, u32)) -> bool {
    &&& exists|path: Seq<u32>|
        #[trigger] is_route(k, s, path) && path.len() == d + 1 && path.last() == e.0 && (path.len()
            >= 2 ==> path[1] == e.1)
    &&& !within(k, s, e.0, d - 1)
}

/// Planet `p` is the planet of some entry of `f`.
spec fn in_frontier(f: Seq<(u32, u32)>, p: u32) -> bool {
    exists|i: int| 0 <= i < f.len() && (#[trigger] f[i]).0 == p
}

proof fn lemma_route_push(k: ExplorerKnowledge, s: u32, path: Seq<u32>, q: u32)
    requires
        is_route(k, s, path),
        link(k, path.last(), q),
        passable(k, q),
    ensures
        is_route(k, s, path.push(q)),
{
    assert(path.push(q).drop_last() =~= path);
}

proof fn lemma_route_nonempty(k: ExplorerKnowledge, s: u32, path: Seq<u32>)
    requires
        is_route(k, s, path),
    ensures
        path.len() >= 1,
        path[0] == s,
    decreases path.len(),
{
    if path.len() > 1 {
        lemma_route_nonempty(k, s, path.drop_last());
    }
}

/// If the planets within `n` hops of `s` are closed under travelling on, every
/// route from `s` ends within `n` hops.
proof fn lemma_closed_within(k: ExplorerKnowledge, s: u32, path: Seq<u32>, n: int)
    requires
        is_route(k, s, path),
        n >= 0,
        forall|x: u32, q: u32|
            within(k, s, x, n) && #[trigger] link(k, x, q) && passable(k, q) ==> within(k, s, q, n),
    ensures
        within(k, s, path.last(), n),
    decreases path.len(),
{
    if path.len() <= 1 {
        assert(is_route(k, s, path));
    } else {
        lemma_closed_within(k, s, path.drop_last(), n);
        assert(link(k, path.drop_last().last(), path.last()));
    }
}

/// Breadth-first search over the known planets, from `start`, for the first
/// hop toward the nearest planet still to be explored. Only planets already
/// queried and alive are travelled through; the start itself may be any
/// planet.
pub fn next_unvisited(k: &ExplorerKnowledge, unreachable: &Vec<u32>, start: u32) -> (r: Option<u32>)
    requires
        k.wf(),
    ensures
        r is None <==> !target_in_reach(*k, unreachable@, start),
        r matches Some(h) ==> nearest_first_hop(*k, unreachable@, start, h),
{
    broadcast use vstd::seq_lib::lemma_seq_contains_after_push;

    let ghost u = unreachable@;
    let ghost kk = *k;
    let mut frontier: Vec<(u32, u32)> = Vec::new();
    frontier.push((start, start));
    let mut seen: Vec<u32> = Vec::new();
    seen.push(start);
    let mut first_level = true;
    let ghost mut d: int = 0;
    let ghost bound: int = k.ids().len() + 1int;
    proof {
        k.lemma_ids();
        assert(is_route(kk, start, seq![start]));
        assert forall|p: u32| seen@.contains(p) <==> within(kk, start, p, d) by {
            if within(kk, start, p, d) {
                let path = choose|path: Seq<u32>| #[trigger]
                    is_route(kk, start, path) && path.len() <= d + 1 && path.last() == p;
                lemma_route_nonempty(kk, start, path);
                assert(seen@[0] == p);
            }
            if seen@.contains(p) {
                assert(seen@[0] == p);
                assert(seq![start].last() == p);
            }
        }
        assert(frontier_entry(kk, start, d, frontier@[0])) by {
            assert(is_route(kk, start, seq![start]));
            assert(!within(kk, start, start, -1));
        }
        assert forall|p: u32| within(kk, start, p, d) && !within(kk, start, p, d - 1) implies in_frontier(
            frontier@,
            p,
        ) by {
            assert(seen@.contains(p));
            assert(frontier@[0].0 == p);
        }
        assert forall|path: Seq<u32>, t: u32| #[trigger]
            route_to_unexplored(kk, u, start, path, t) implies path.len() >= d + 1 by {
            lemma_route_nonempty(kk, start, path);
        }
    }
    while frontier.len() > 0
        invariant
            *k == kk,
            unreachable@ == u,
            k.wf(),
            bound == k.ids().len() + 1,
            first_level <==> d == 0,
            d >= 0,
            d == 0 ==> frontier.len() > 0,
            seen@.no_duplicates(),
            seen.len() <= bound,
            forall|i: int| 0 <= i < seen.len() ==> seen@[i] == start || k@.contains_key(#[trigger] seen@[i]),
            forall|p: u32| #[trigger] seen@.contains(p) <==> within(kk, start, p, d),
            forall|i: int| 0 <= i < frontier.len() ==> frontier_entry(kk, start, d, #[trigger] frontier@[i]),
            forall|p: u32|
                #[trigger] within(kk, start, p, d) && !within(kk, start, p, d - 1) ==> in_frontier(frontier@, p),
            forall|path: Seq<u32>, t: u32| #[trigger]
                route_to_unexplored(kk, u, start, path, t) ==> path.len() >= d + 1,
        decreases bound - seen.len(), frontier.len(),
    {
        let mut next: Vec<(u32, u32)> = Vec::new();
        let ghost seen0 = seen@;
        for i in 0..frontier.len()
            invariant
                *k == kk,
                unreachable@ == u,
                k.wf(),
                bound == k.ids().len() + 1,
                first_level <==> d == 0,
                d >= 0,
                seen@.no_duplicates(),
                seen.len() == seen0.len() + next.len(),
                forall|j: int| 0 <= j < seen.len() ==> seen@[j] == start || k@.contains_key(#[trigger] seen@[j]),
                forall|p: u32| #[trigger] seen0.contains(p) <==> within(kk, start, p, d),
                forall|p: u32| #[trigger] seen@.contains(p) <==> seen0.contains(p) || in_frontier(next@, p),
                forall|j: int| 0 <= j < frontier.len() ==> frontier_entry(kk, start, d, #[trigger] frontier@[j]),
                forall|j: int| 0 <= j < next.len() ==> frontier_entry(kk, start, d + 1, #[trigger] next@[j]),
                forall|i2: int, q: u32|
                    0 <= i2 < i && #[trigger] link(kk, frontier@[i2].0, q) ==> !unexplored(kk, u, q) && (
                    passable(kk, q) ==> seen@.contains(q)),
                forall|path: Seq<u32>, t: u32| #[trigger]
                    route_to_unexplored(kk, u, start, path, t) ==> path.len() >= d + 1,
        {
            let (cur, hop) = frontier[i];
            let ghost cur_entry = frontier@[i as int];
            match k.get(cur) {
                None => {
                    proof {
                        assert forall|i2: int, q: u32|
                            0 <= i2 < i + 1 && #[trigger] link(kk, frontier@[i2].0, q) implies !unexplored(
                            kk,
                            u,
                            q,
                        ) && (passable(kk, q) ==> seen@.contains(q)) by {
                            if i2 == i {
                                assert(kk.neighbors_of(cur) == Seq::<u32>::empty());
                            }
                        }
                    }
                },
                Some(pk) => {
                    let nbs = &pk.neighbors;
                    let ghost next_before = next@;
                    let ghost seen_before = seen@;
                    for j in 0..nbs.len()
                        invariant
                            *k == kk,
                            unreachable@ == u,
                            k.wf(),
                            first_level <==> d == 0,
                            d >= 0,
                            nbs@ == kk.neighbors_of(cur),
                            cur == cur_entry.0,
                            hop == cur_entry.1,
                            frontier_entry(kk, start, d, cur_entry),
                            seen@.no_duplicates(),
                            seen.len() == seen0.len() + next.len(),
                            forall|j2: int|
                                0 <= j2 < seen.len() ==> seen@[j2] == start || k@.contains_key(
                                    #[trigger] seen@[j2],
                                ),
                            forall|p: u32| #[trigger] seen0.contains(p) <==> within(kk, start, p, d),
                            forall|p: u32|
                                #[trigger] seen@.contains(p) <==> seen0.contains(p) || in_frontier(next@, p),
                            forall|p: u32| seen_before.contains(p) ==> #[trigger] seen@.contains(p),
                            forall|j2: int|
                                0 <= j2 < next.len() ==> frontier_entry(kk, start, d + 1, #[trigger] next@[j2]),
                            forall|j2: int|
                                0 <= j2 < j ==> !unexplored(kk, u, #[trigger] nbs@[j2]) && (passable(
                                    kk,
                                    nbs@[j2],
                                ) ==> seen@.contains(nbs@[j2])),
                            forall|path: Seq<u32>, t: u32| #[trigger]
                                route_to_unexplored(kk, u, start, path, t) ==> path.len() >= d + 1,
                    {
                        let nb = nbs[j];
                        let ghost seen_j = seen@;
                        if !k.is_dead(nb) {
                            let visited = k.is_visited(nb);
                            if !visited && !contains_planet(unreachable, nb) {
                                let h = if first_level {
                                    nb
                                } else {
                                    hop
                                };
                                proof {
                                    let path = choose|path: Seq<u32>| #[trigger]
                                        is_route(kk, start, path) && path.len() == d + 1 && path.last()
                                            == cur && (path.len() >= 2 ==> path[1] == hop);
                                    assert(nbs@[j as int] == nb);
                                    assert(link(kk, path.last(), nb));
                                    assert(route_to_unexplored(kk, u, start, path, nb));
                                    assert(hop_of(path, nb) == h);
                                }
                                return Some(h);
                            }
                            if visited && !contains_planet(&seen, nb) {
                                let h = if first_level {
                                    nb
                                } else {
                                    hop
                                };
                                proof {
                                    let path = choose|path: Seq<u32>| #[trigger]
                                        is_route(kk, start, path) && path.len() == d + 1 && path.last()
                                            == cur && (path.len() >= 2 ==> path[1] == hop);
                                    assert(nbs@[j as int] == nb);
                                    lemma_route_push(kk, start, path, nb);
                                    assert(path.push(nb).last() == nb);
                                    if path.len() >= 2 {
                                        assert(path.push(nb)[1] == path[1]);
                                    }
                                    assert(!seen0.contains(nb));
                                    assert(!within(kk, start, nb, d));
                                    assert(frontier_entry(kk, start, d + 1, (nb, h)));
                                }
                                let ghost next_old = next@;
                                let ghost seen_old = seen@;
                                seen.push(nb);
                                next.push((nb, h));
                                proof {
                                    assert(seen@ == seen_old.push(nb));
                                    assert forall|p: u32| seen_before.contains(p) implies #[trigger] seen@.contains(p) by {
                                        vstd::seq_lib::lemma_seq_contains_after_push(seen_old, nb, p);
                                    }
                                    assert(seen@.no_duplicates()) by {
                                        assert forall|a: int, b: int|
                                            0 <= a < b < seen.len() implies seen@[a] != seen@[b] by {
                                            if b == seen.len() - 1 {
                                                assert(seen_old.contains(seen@[a]));
                                            }
                                        }
                                    }
                                    assert forall|p: u32| #[trigger]
                                        seen@.contains(p) <==> seen0.contains(p) || in_frontier(next@, p) by {
                                        vstd::seq_lib::lemma_seq_contains_after_push(seen_old, nb, p);
                                        if in_frontier(next_old, p) {
                                            let i3 = choose|i3: int|
                                                0 <= i3 < next_old.len() && (#[trigger] next_old[i3]).0 == p;
                                            assert(next@[i3] == next_old[i3]);
                                        }
                                        if in_frontier(next@, p) {
                                            let i3 = choose|i3: int|
                                                0 <= i3 < next@.len() && (#[trigger] next@[i3]).0 == p;
                                            if i3 < next_old.len() {
                                                assert(next_old[i3] == next@[i3]);
                                            }
                                        }
                                        if p == nb {
                                            assert(next@[next_old.len() as int].0 == p);
                                        }
                                    }
                                }
                            }
                        }
                        proof {
                            assert(nbs@[j as int] == nb);
                            assert(seen@ == seen_j || seen@ == seen_j.push(nb));
                            assert forall|j2: int| 0 <= j2 < j + 1 implies !unexplored(kk, u, #[trigger] nbs@[j2])
                                && (passable(kk, nbs@[j2]) ==> seen@.contains(nbs@[j2])) by {
                                vstd::seq_lib::lemma_seq_contains_after_push(seen_j, nb, nbs@[j2]);
                            }
                        }
                    }
                    proof {
                        assert forall|i2: int, q: u32|
                            0 <= i2 < i + 1 && #[trigger] link(kk, frontier@[i2].0, q) implies !unexplored(
                            kk,
                            u,
                            q,
                        ) && (passable(kk, q) ==> seen@.contains(q)) by {
                            if i2 == i {
                                let j2 = choose|j2: int| 0 <= j2 < nbs@.len() && nbs@[j2] == q;
                                assert(!unexplored(kk, u, nbs@[j2]));
                            } else {
                                assert(passable(kk, q) ==> seen_before.contains(q));
                            }
                        }
                    }
                },
            }
        }
        proof {
            kk.lemma_ids();
            lemma_seen_bounded(kk, start, seen@);
            let ghost f = frontier@;
            assert forall|p: u32| #[trigger] seen@.contains(p) <==> within(kk, start, p, d + 1) by {
                if seen@.contains(p) && !seen0.contains(p) {
                    let i3 = choose|i3: int| 0 <= i3 < next@.len() && (#[trigger] next@[i3]).0 == p;
                    assert(frontier_entry(kk, start, d + 1, next@[i3]));
                }
                if seen0.contains(p) {
                    let path = choose|path: Seq<u32>| #[trigger]
                        is_route(kk, start, path) && path.len() <= d + 1 && path.last() == p;
                }
                if within(kk, start, p, d + 1) && !within(kk, start, p, d) {
                    let path = choose|path: Seq<u32>| #[trigger]
                        is_route(kk, start, path) && path.len() <= d + 2 && path.last() == p;
                    assert(path.len() == d + 2);
                    let y = path.drop_last();
                    assert(is_route(kk, start, y));
                    assert(link(kk, y.last(), p));
                    assert(within(kk, start, y.last(), d));
                    if within(kk, start, y.last(), d - 1) {
                        let y2 = choose|y2: Seq<u32>| #[trigger]
                            is_route(kk, start, y2) && y2.len() <= d && y2.last() == y.last();
                        lemma_route_push(kk, start, y2, p);
                        assert(y2.push(p).last() == p);
                        assert(within(kk, start, p, d));
                    } else {
                        assert(in_frontier(f, y.last()));
                        let i3 = choose|i3: int| 0 <= i3 < f.len() && (#[trigger] f[i3]).0 == y.last();
                        assert(link(kk, f[i3].0, p));
                    }
                }
            }
            assert forall|p: u32|
                #[trigger] within(kk, start, p, d + 1) && !within(kk, start, p, d) implies in_frontier(
                next@,
                p,
            ) by {
                assert(seen@.contains(p));
                assert(!seen0.contains(p));
            }
            assert forall|path: Seq<u32>, t: u32| #[trigger]
                route_to_unexplored(kk, u, start, path, t) implies path.len() >= d + 2 by {
                if path.len() == d + 1 {
                    let x = path.last();
                    assert(link(kk, x, t));
                    if within(kk, start, x, d - 1) {
                        let p2 = choose|p2: Seq<u32>| #[trigger]
                            is_route(kk, start, p2) && p2.len() <= d && p2.last() == x;
                        assert(route_to_unexplored(kk, u, start, p2, t));
                    } else {
                        assert(within(kk, start, x, d));
                        assert(in_frontier(f, x));
                        let i3 = choose|i3: int| 0 <= i3 < f.len() && (#[trigger] f[i3]).0 == x;
                        assert(link(kk, f[i3].0, t));
                    }
                }
            }
            d = d + 1;
        }
        frontier = next;
        first_level = false;
    }
    proof {
        assert forall|path: Seq<u32>, t: u32| !#[trigger] route_to_unexplored(kk, u, start, path, t) by {
            if route_to_unexplored(kk, u, start, path, t) {
                assert forall|x: u32, q: u32|
                    within(kk, start, x, d - 1) && #[trigger] link(kk, x, q) && passable(kk, q) implies within(
                    kk,
                    start,
                    q,
                    d - 1,
                ) by {
                    let px = choose|px: Seq<u32>| #[trigger]
                        is_route(kk, start, px) && px.len() <= d && px.last() == x;
                    lemma_route_push(kk, start, px, q);
                    assert(px.push(q).last() == q);
                    assert(within(kk, start, q, d));
                    if !within(kk, start, q, d - 1) {
                        assert(in_frontier(frontier@, q));
                    }
                }
                lemma_closed_within(kk, start, path, d - 1);
                let p2 = choose|p2: Seq<u32>| #[trigger]
                    is_route(kk, start, p2) && p2.len() <= d && p2.last() == path.last();
                assert(route_to_unexplored(kk, u, start, p2, t));
            }
        }
    }
    None
}

/// Charged cells last observed on planet `id` (none if it is unknown).
pub open spec fn cells_of(k: ExplorerKnowledge, id: u32) -> u32 {
    if k@.contains_key(id) {
        k@[id].charged_cells
    } else {
        0
    }
}

/// The candidate with the most charged cells observed; among equals, the
/// last one listed.
pub open spec fn best_charged(k: ExplorerKnowledge, cands: Seq<u32>) -> u32
    decreases cands.len(),
{
    if cands.len() <= 1 {
        cands[0]
    } else {
        let m = best_charged(k, cands.drop_last());
        if cells_of(k, cands.last()) >= cells_of(k, m) {
            cands.last()
        } else {
            m
        }
    }
}

/// Where to work among `cands`: stay on `current` if it is a candidate,
/// otherwise the candidate with the most charged cells observed.
pub open spec fn preferred_planet(k: ExplorerKnowledge, current: u32, cands: Seq<u32>) -> u32 {
    if cands.contains(current) || cands.len() == 0 {
        current
    } else {
        best_charged(k, cands)
    }
}

/// The best charged candidate is one of them, and none has more cells.
pub proof fn lemma_best_charged(k: ExplorerKnowledge, cands: Seq<u32>)
    requires
        cands.len() >= 1,
    ensures
        cands.contains(best_charged(k, cands)),
        forall|i: int| 0 <= i < cands.len() ==> cells_of(k, #[trigger] cands[i]) <= cells_of(k, best_charged(k, cands)),
    decreases cands.len(),
{
    if cands.len() == 1 {
        assert(cands[0] == best_charged(k, cands));
    } else {
        let rest = cands.drop_last();
        lemma_best_charged(k, rest);
        let m = best_charged(k, rest);
        let j = choose|j: int| 0 <= j < rest.len() && rest[j] == m;
        if cells_of(k, cands.last()) >= cells_of(k, m) {
            assert(cands[cands.len() - 1] == cands.last());
        } else {
            assert(cands[j] == m);
        }
        assert forall|i: int| 0 <= i < cands.len() implies cells_of(k, #[trigger] cands[i]) <= cells_of(k, best_charged(k, cands)) by {
            if i < rest.len() {
                assert(rest[i] == cands[i]);
            }
        }
    }
}

/// Prefer staying put; otherwise go to the candidate with the most charged
/// cells observed (the last listed among equals). With no candidate, the
/// current planet.
pub fn pick_planet(k: &ExplorerKnowledge, current: u32, planets: &Vec<u32>) -> (r: u32)
    requires
        k.wf(),
    ensures
        r == preferred_planet(*k, current, planets@),
{
    if contains_planet(planets, current) || planets.len() == 0 {
        return current;
    }
    let mut best = planets[0];
    let mut best_cells: u32 = match k.get(best) {
        Some(p) => p.charged_cells,
        None => 0,
    };
    for i in 1..planets.len()
        invariant
            k.wf(),
            planets@.len() >= 1,
            best == best_charged(*k, planets@.take(i as int)),
            best_cells == cells_of(*k, best),
    {
        proof {
            assert(planets@.take(i + 1).drop_last() =~= planets@.take(i as int));
        }
        let id = planets[i];
        let cells: u32 = match k.get(id) {
            Some(p) => p.charged_cells,
            None => 0,
        };
        if cells >= best_cells {
            best = id;
            best_cells = cells;
        }
    }
    proof {
        assert(planets@.take(planets@.len() as int) =~= planets@);
    }
    best
}

/// Planet `id` is known, alive, and generates `b`.
pub open spec fn generates_at(k: ExplorerKnowledge, id: u32, b: BasicKind) -> bool {
    k@.contains_key(id) && !k@[id].dead && k@[id].basics.has(b)
}

/// Planet `id` is known, alive, and combines `c`.
pub open spec fn combines_at(k: ExplorerKnowledge, id: u32, c: ComplexKind) -> bool {
    k@.contains_key(id) && !k@[id].dead && k@[id].combinations.has(c)
}

/// The known alive planets generating `b`, in the order they were first
/// heard of.
#[verifier::opaque]
pub open spec fn generating(k: ExplorerKnowledge, b: BasicKind) -> Seq<u32> {
    k.ids().filter(generates_pred(k, b))
}

/// The test of [`generates_at`] for kind `b`, as a predicate on ids.
pub open spec fn generates_pred(k: ExplorerKnowledge, b: BasicKind) -> spec_fn(u32) -> bool {
    |id: u32| generates_at(k, id, b)
}

/// The test of [`combines_at`] for kind `c`, as a predicate on ids.
pub open spec fn combines_pred(k: ExplorerKnowledge, c: ComplexKind) -> spec_fn(u32) -> bool {
    |id: u32| combines_at(k, id, c)
}

/// The known alive planets combining `c`, in the order they were first heard
/// of.
#[verifier::opaque]
pub open spec fn combining(k: ExplorerKnowledge, c: ComplexKind) -> Seq<u32> {
    k.ids().filter(combines_pred(k, c))
}

/// The known alive planets that generate `b`.
pub fn planets_generating(k: &ExplorerKnowledge, b: BasicKind) -> (r: Vec<u32>)
    requires
        k.wf(),
    ensures
        r@ == generating(*k, b),
{
    reveal(generating);
    let ids = k.planet_ids();
    let mut r: Vec<u32> = Vec::new();
    for i in 0..ids.len()
        invariant
            k.wf(),
            ids@ == k.ids(),
            r@ == ids@.take(i as int).filter(generates_pred(*k, b)),
    {
        let id = ids[i];
        proof {
            assert(ids@.take(i + 1) =~= ids@.take(i as int).push(id));
            ids@.take(i as int).lemma_filter_push(id, generates_pred(*k, b));
        }
        match k.get(id) {
            Some(p) => {
                if !p.dead && p.basics.contains(b) {
                    r.push(id);
                }
            },
            None => {},
        }
    }
    proof {
        assert(ids@.take(ids@.len() as int) =~= ids@);
    }
    r
}

/// The known alive planets that combine `c`.
pub fn planets_combining(k: &ExplorerKnowledge, c: ComplexKind) -> (r: Vec<u32>)
    requires
        k.wf(),
    ensures
        r@ == combining(*k, c),
{
    reveal(combining);
    let ids = k.planet_ids();
    let mut r: Vec<u32> = Vec::new();
    for i in 0..ids.len()
        invariant
            k.wf(),
            ids@ == k.ids(),
            r@ == ids@.take(i as int).filter(combines_pred(*k, c)),
    {
        let id = ids[i];
        proof {
            assert(ids@.take(i + 1) =~= ids@.take(i as int).push(id));
            ids@.take(i as int).lemma_filter_push(id, combines_pred(*k, c));
        }
        match k.get(id) {
            Some(p) => {
                if !p.dead && p.combinations.contains(c) {
                    r.push(id);
                }
            },
            None => {},
        }
    }
    proof {
        assert(ids@.take(ids@.len() as int) =~= ids@);
    }
    r
}

/// Some known alive planet generates `b`.
pub open spec fn offers_basic(k: ExplorerKnowledge, b: BasicKind) -> bool {
    exists|id: u32| #[trigger] generates_at(k, id, b)
}

/// Some known alive planet combines `c`.
pub open spec fn offers_complex(k: ExplorerKnowledge, c: ComplexKind) -> bool {
    exists|id: u32| #[trigger] combines_at(k, id, c)
}

/// The basics the known alive planets generate, together.
pub open spec fn alive_basics(k: ExplorerKnowledge) -> BasicSet {
    BasicSet {
        oxygen: offers_basic(k, BasicKind::Oxygen),
        hydrogen: offers_basic(k, BasicKind::Hydrogen),
        carbon: offers_basic(k, BasicKind::Carbon),
        silicon: offers_basic(k, BasicKind::Silicon),
    }
}

/// The complex kinds the known alive planets combine, together.
pub open spec fn alive_combinations(k: ExplorerKnowledge) -> ComplexSet {
    ComplexSet {
        diamond: offers_complex(k, ComplexKind::Diamond),
        water: offers_complex(k, ComplexKind::Water),
        life: offers_complex(k, ComplexKind::Life),
        robot: offers_complex(k, ComplexKind::Robot),
        dolphin: offers_complex(k, ComplexKind::Dolphin),
        aipartner: offers_complex(k, ComplexKind::AIPartner),
    }
}

/// What the known alive planets can generate and combine, together.
pub fn galaxy_offer(k: &ExplorerKnowledge) -> (r: (BasicSet, ComplexSet))
    requires
        k.wf(),
    ensures
        r.0 == alive_basics(*k),
        r.1 == alive_combinations(*k),
        forall|b: BasicKind| r.0.has(b) == offers_basic(*k, b),
        forall|c: ComplexKind| r.1.has(c) == offers_complex(*k, c),
{
    let ids = k.planet_ids();
    let mut basics = BasicSet::new();
    let mut combinations = ComplexSet::new();
    for i in 0..ids.len()
        invariant
            k.wf(),
            ids@ == k.ids(),
            forall|id: u32| k@.contains_key(id) <==> ids@.contains(id),
            forall|b: BasicKind|
                basics.has(b) <==> exists|j: int| 0 <= j < i && #[trigger] generates_at(*k, ids@[j], b),
            forall|c: ComplexKind|
                combinations.has(c) <==> exists|j: int| 0 <= j < i && #[trigger] combines_at(*k, ids@[j], c),
    {
        let id = ids[i];
        let ghost b0 = basics;
        let ghost c0 = combinations;
        match k.get(id) {
            Some(p) => {
                if !p.dead {
                    basics.extend(&p.basics);
                    combinations.extend(&p.combinations);
                }
            },
            None => {},
        }
        proof {
            assert forall|b: BasicKind|
                basics.has(b) <==> exists|j: int| 0 <= j < i + 1 && #[trigger] generates_at(*k, ids@[j], b) by {
                if generates_at(*k, ids@[i as int], b) {
                    assert(basics.has(b));
                }
                if basics.has(b) && !b0.has(b) {
                    assert(generates_at(*k, ids@[i as int], b));
                }
            }
            assert forall|c: ComplexKind|
                combinations.has(c) <==> exists|j: int| 0 <= j < i + 1 && #[trigger] combines_at(*k, ids@[j], c) by {
                if combines_at(*k, ids@[i as int], c) {
                    assert(combinations.has(c));
                }
                if combinations.has(c) && !c0.has(c) {
                    assert(combines_at(*k, ids@[i as int], c));
                }
            }
        }
    }
    proof {
        assert forall|b: BasicKind| basics.has(b) == offers_basic(*k, b) by {
            if offers_basic(*k, b) {
                let id = choose|id: u32| #[trigger] generates_at(*k, id, b);
                assert(ids@.contains(id));
                let j = choose|j: int| 0 <= j < ids@.len() && ids@[j] == id;
                assert(generates_at(*k, ids@[j], b));
            }
        }
        assert forall|c: ComplexKind| combinations.has(c) == offers_complex(*k, c) by {
            if offers_complex(*k, c) {
                let id = choose|id: u32| #[trigger] combines_at(*k, id, c);
                assert(ids@.contains(id));
                let j = choose|j: int| 0 <= j < ids@.len() && ids@[j] == id;
                assert(combines_at(*k, ids@[j], c));
            }
        }
        assert(basics.has(BasicKind::Oxygen) == offers_basic(*k, BasicKind::Oxygen));
        assert(basics.has(BasicKind::Hydrogen) == offers_basic(*k, BasicKind::Hydrogen));
        assert(basics.has(BasicKind::Carbon) == offers_basic(*k, BasicKind::Carbon));
        assert(basics.has(BasicKind::Silicon) == offers_basic(*k, BasicKind::Silicon));
        assert(combinations.has(ComplexKind::Diamond) == offers_complex(*k, ComplexKind::Diamond));
        assert(combinations.has(ComplexKind::Water) == offers_complex(*k, ComplexKind::Water));
        assert(combinations.has(ComplexKind::Life) == offers_complex(*k, ComplexKind::Life));
        assert(combinations.has(ComplexKind::Robot) == offers_complex(*k, ComplexKind::Robot));
        assert(combinations.has(ComplexKind::Dolphin) == offers_complex(*k, ComplexKind::Dolphin));
        assert(combinations.has(ComplexKind::AIPartner) == offers_complex(*k, ComplexKind::AIPartner));
    }
    (basics, combinations)
}

/// A list of distinct planets, each the start or a known planet, is no
/// longer than the known planets plus one.
proof fn lemma_seen_bounded(k: ExplorerKnowledge, start: u32, seen: Seq<u32>)
    requires
        k.wf(),
        seen.no_duplicates(),
        forall|i: int| 0 <= i < seen.len() ==> seen[i] == start || k@.contains_key(#[trigger] seen[i]),
    ensures
        seen.len() <= k.ids().len() + 1,
{
    k.lemma_ids();
    let known = k.ids().to_set().insert(start);
    assert(seen.to_set().subset_of(known)) by {
        assert forall|x: u32| seen.to_set().contains(x) implies known.contains(x) by {
            let i = choose|i: int| 0 <= i < seen.len() && seen[i] == x;
            if x != start {
                assert(k@.contains_key(seen[i]));
            }
        }
    }
    seen.unique_seq_to_set();
    k.ids().unique_seq_to_set();
    vstd::set_lib::lemma_len_subset(seen.to_set(), known);
}

} // verus!

//! Choosing where to travel among the neighbours the orchestrator reports.

use vstd::prelude::*;

verus! {

/// `i` is the first position of `neighbours` holding a planet not in `visited`.
pub open spec fn is_first_unvisited(neighbours: Seq<u32>, visited: Seq<u32>, i: int) -> bool {
    &&& 0 <= i < neighbours.len()
    &&& !visited.contains(neighbours[i])
    &&& forall|j: int| 0 <= j < i ==> visited.contains(#[trigger] neighbours[j])
}

/// Some neighbour has not been visited yet.
pub open spec fn has_unvisited(neighbours: Seq<u32>, visited: Seq<u32>) -> bool {
    exists|i: int| 0 <= i < neighbours.len() && !visited.contains(#[trigger] neighbours[i])
}

/// Whether `planet` occurs in `planets`.
pub fn contains_planet(planets: &Vec<u32>, planet: u32) -> (r: bool)
    ensures
        r == planets@.contains(planet),
{
    for i in 0..planets.len()
        invariant
            forall|j: int| 0 <= j < i ==> planets@[j] != planet,
    {
        if planets[i] == planet {
            return true;
        }
    }
    false
}

/// The first neighbour not visited yet; if all were visited, the neighbour
/// at position `travel_seq` (cyclically), advancing `travel_seq`.
pub fn pick_destination(neighbours: &Vec<u32>, visited: &Vec<u32>, travel_seq: &mut usize) -> (dst: u32)
    requires
        neighbours@.len() > 0,
        *old(travel_seq) < usize::MAX,
    ensures
        has_unvisited(neighbours@, visited@) ==> exists|i: int|
            is_first_unvisited(neighbours@, visited@, i) && dst == neighbours@[i]
                && *final(travel_seq) == *old(travel_seq),
        !has_unvisited(neighbours@, visited@) ==> {
            &&& dst == neighbours@[(*old(travel_seq) as int) % (neighbours@.len() as int)]
            &&& *final(travel_seq) == *old(travel_seq) + 1
        },
{
    for i in 0..neighbours.len()
        invariant
            forall|j: int| 0 <= j < i ==> visited@.contains(#[trigger] neighbours@[j]),
    {
        if !contains_planet(visited, neighbours[i]) {
            proof {
                assert(is_first_unvisited(neighbours@, visited@, i as int));
            }
            return neighbours[i];
        }
    }
    let d = neighbours[*travel_seq % neighbours.len()];
    *travel_seq = *travel_seq + 1;
    d
}

} // verus!

//! The global laws of the simulation, stated as theorems over the world
//! invariant that every public mutator of this crate preserves.

use vstd::prelude::*;
use crate::components::Entity;
use crate::world::World;

verus! {

/// Occupancy law: in any well-formed world, an entity with a Position is an
/// occupant of the spatial-index entry for exactly that tile, and of no other
/// entry. Every mutator of the store requires and re-establishes `wf`, so
/// this holds at all times between ticks.
pub proof fn lemma_position_implies_sole_occupancy(w: World, e: Entity)
    requires
        w.wf(),
        w.valid(e),
        w.positions.at(e.idx as int) is Some,
    ensures
        w.spatial.contains_at(w.map.spec_idx_of(w.positions.at(e.idx as int).unwrap().pt), e),
        forall|u: int|
            u != w.map.spec_idx_of(w.positions.at(e.idx as int).unwrap().pt)
                ==> !w.spatial.contains_at(u, e),
{
    let t = w.map.spec_idx_of(w.positions.at(e.idx as int).unwrap().pt);
    crate::world::lemma_n_bound(w);
    assert(w.entity_at(e.idx as int) == e);
    assert(w.spatial.contains_at(t, e));
    assert forall|u: int| u != t implies !w.spatial.contains_at(u, e) by {
        if w.spatial.contains_at(u, e) {
            assert(w.map.spec_idx_of(w.positions.at(e.idx as int).unwrap().pt) == u);
        }
    }
}

/// The converse direction: the spatial index never holds an entity that no
/// longer exists or that stands elsewhere — every occupant it lists is live
/// and positioned on exactly the tile that lists it.
pub proof fn lemma_occupant_is_positioned(w: World, t: int, e: Entity)
    requires
        w.wf(),
        w.spatial.contains_at(t, e),
    ensures
        w.valid(e),
        w.positions.at(e.idx as int) is Some,
        w.map.spec_idx_of(w.positions.at(e.idx as int).unwrap().pt) == t,
{
}

} // verus!

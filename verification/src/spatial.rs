//! The spatial occupancy index: which entities stand on which tile. Kept in
//! lock-step with the Position components by the store, which routes every
//! placement, move and deletion through it.

use vstd::prelude::*;
use crate::components::Entity;

verus! {

/// Occupancy index: one ordered occupant list per tile.
#[derive(Clone, Debug)]
pub struct SpatialIndex {
    pub tiles: Vec<Vec<Entity>>,
}

impl SpatialIndex {
    /// Number of tiles the index covers.
    pub open spec fn spec_len(self) -> int {
        self.tiles@.len() as int
    }

    /// The occupant list of tile `t`, empty for an out-of-range index.
    pub open spec fn at(self, t: int) -> Seq<Entity> {
        if 0 <= t < self.tiles@.len() {
            self.tiles@[t]@
        } else {
            Seq::empty()
        }
    }

    /// Whether entity `e` occupies tile `t`.
    pub open spec fn contains_at(self, t: int, e: Entity) -> bool {
        self.at(t).contains(e)
    }

    /// No tile lists the same entity twice.
    pub open spec fn unique(self) -> bool {
        forall|t: int, i: int, j: int|
            0 <= t < self.spec_len() && 0 <= i < j < self.at(t).len() ==> self.at(t)[i]
                != self.at(t)[j]
    }

    /// An index covering no tiles at all.
    pub fn new() -> (r: SpatialIndex)
        ensures
            r.spec_len() == 0,
            r.unique(),
    {
        SpatialIndex { tiles: Vec::new() }
    }

    /// (Re)allocate the backing storage for `tile_count` tiles. Invalidates all
    /// prior entries: every occupant list comes back empty.
    pub fn resize(&mut self, tile_count: usize)
        ensures
            final(self).spec_len() == tile_count,
            forall|t: int| 0 <= t < tile_count ==> final(self).at(t).len() == 0,
            final(self).unique(),
    {
        self.tiles = Vec::new();
        let mut i: usize = 0;
        while i < tile_count
            invariant
                i <= tile_count,
                self.tiles@.len() == i,
                forall|t: int| 0 <= t < i ==> self.at(t).len() == 0,
            decreases tile_count - i,
        {
            let ghost pre = *self;
            let fresh: Vec<Entity> = Vec::new();
            self.tiles.push(fresh);
            i = i + 1;
            proof {
                assert forall|t: int| 0 <= t < i implies self.at(t).len() == 0 by {
                    if t < i - 1 {
                        assert(self.tiles@[t] == pre.tiles@[t]);
                        assert(pre.at(t).len() == 0);
                    } else {
                        assert(self.tiles@[t] == fresh);
                    }
                }
            }
        }
    }

    /// Whether `e` occupies tile `t`; false for an out-of-range index.
    pub fn contains(&self, e: Entity, t: usize) -> (r: bool)
        ensures
            r == self.contains_at(t as int, e),
    {
        if t >= self.tiles.len() {
            return false;
        }
        let list = &self.tiles[t];
        let n = list.len();
        let mut i: usize = 0;
        while i < n
            invariant
                i <= n,
                n == list@.len(),
                list@ == self.at(t as int),
                forall|k: int| 0 <= k < i ==> list@[k] != e,
            decreases n - i,
        {
            if list[i].idx == e.idx && list[i].gen == e.gen {
                assert(list@[i as int] == e);
                return true;
            }
            i = i + 1;
        }
        false
    }

    /// Add `e` to tile `t`'s occupant list. Idempotent: a no-op if `e` is
    /// already listed there. A no-op for an out-of-range index, which callers
    /// treat as a programming error on their own side.
    pub fn insert(&mut self, e: Entity, t: usize)
        requires
            old(self).unique(),
        ensures
            final(self).spec_len() == old(self).spec_len(),
            final(self).unique(),
            t < old(self).spec_len() ==> final(self).contains_at(t as int, e),
            t >= old(self).spec_len() ==> *final(self) == *old(self),
            forall|u: int| 0 <= u < final(self).spec_len() && u != t ==> final(self).at(u)
                == old(self).at(u),
            forall|x: Entity| x != e ==> final(self).contains_at(t as int, x) == old(
                self,
            ).contains_at(t as int, x),
            old(self).contains_at(t as int, e) ==> *final(self) == *old(self),
            t < old(self).spec_len() && !old(self).contains_at(t as int, e) ==> final(self).at(
                t as int,
            ) == old(self).at(t as int).push(e),
    {
        if t >= self.tiles.len() {
            return ;
        }
        if self.contains(e, t) {
            return ;
        }
        let ghost pre = *self;
        let mut list = self.occupants_at(t);
        list.push(e);
        self.tiles.set(t, list);
        proof {
            assert(self.at(t as int) == pre.at(t as int).push(e));
            assert(self.at(t as int)[pre.at(t as int).len() as int] == e);
            assert(self.contains_at(t as int, e));
            assert forall|u: int| 0 <= u < self.spec_len() && u != t implies self.at(u) == pre.at(
                u,
            ) by {
                assert(self.tiles@[u] == pre.tiles@[u]);
            }
            assert forall|x: Entity| x != e implies self.contains_at(t as int, x) == pre
                .contains_at(t as int, x) by {
                let s0 = pre.at(t as int);
                let s1 = self.at(t as int);
                if s0.contains(x) {
                    let i = choose|i: int| 0 <= i < s0.len() && s0[i] == x;
                    assert(s1[i] == x);
                }
                if s1.contains(x) {
                    let i = choose|i: int| 0 <= i < s1.len() && s1[i] == x;
                    assert(i < s0.len() && s0[i] == x);
                }
            }
            assert forall|tt: int, i: int, j: int|
                0 <= tt < self.spec_len() && 0 <= i < j < self.at(tt).len() implies self.at(tt)[i]
                != self.at(tt)[j] by {
                if tt == t {
                    let s0 = pre.at(t as int);
                    if j < s0.len() {
                        assert(pre.at(tt)[i] != pre.at(tt)[j]);
                    } else {
                        assert(self.at(tt)[j] == e);
                        assert(self.at(tt)[i] == s0[i]);
                        assert(!s0.contains(e));
                    }
                } else {
                    assert(pre.at(tt)[i] != pre.at(tt)[j]);
                }
            }
        }
    }

    /// Remove `e` from tile `t`'s occupant list. Fails silently (a no-op) if
    /// `e` is not listed there or the index is out of range, so racing a move
    /// against a removal never panics.
    pub fn remove(&mut self, e: Entity, t: usize)
        requires
            old(self).unique(),
        ensures
            final(self).spec_len() == old(self).spec_len(),
            final(self).unique(),
            !final(self).contains_at(t as int, e),
            forall|u: int| 0 <= u < final(self).spec_len() && u != t ==> final(self).at(u)
                == old(self).at(u),
            forall|x: Entity| x != e ==> final(self).contains_at(t as int, x) == old(
                self,
            ).contains_at(t as int, x),
            !old(self).contains_at(t as int, e) ==> *final(self) == *old(self),
            old(self).contains_at(t as int, e) ==> final(self).at(t as int).len() == old(self).at(
                t as int,
            ).len() - 1,
    {
        if t >= self.tiles.len() {
            return ;
        }
        let ghost pre = *self;
        let found = index_of_entity(&self.tiles[t], e);
        match found {
            None => {
                proof {
                    assert(!pre.contains_at(t as int, e));
                }
            },
            Some(k) => {
                let mut list = self.occupants_at(t);
                list.remove(k);
                self.tiles.set(t, list);
                proof {
                    let s0 = pre.at(t as int);
                    let s1 = self.at(t as int);
                    assert(s1 == s0.remove(k as int));
                    assert(pre.contains_at(t as int, e));
                    // e occurs only at k, so it is gone afterwards
                    assert forall|j: int| 0 <= j < s1.len() implies s1[j] != e by {
                        if j < k {
                            assert(s1[j] == s0[j]);
                            assert(s0[k as int] == e);
                        } else {
                            assert(s1[j] == s0[j + 1]);
                            assert(s0[k as int] == e);
                        }
                    }
                    assert(!s1.contains(e));
                    assert forall|u: int| 0 <= u < self.spec_len() && u != t implies self.at(u)
                        == pre.at(u) by {
                        assert(self.tiles@[u] == pre.tiles@[u]);
                    }
                    assert forall|x: Entity| x != e implies self.contains_at(t as int, x) == pre
                        .contains_at(t as int, x) by {
                        if s0.contains(x) {
                            let i0 = choose|i0: int| 0 <= i0 < s0.len() && s0[i0] == x;
                            if i0 < k {
                                assert(s1[i0] == x);
                            } else {
                                assert(i0 != k);
                                assert(s1[i0 - 1] == x);
                            }
                        }
                        if s1.contains(x) {
                            let i1 = choose|i1: int| 0 <= i1 < s1.len() && s1[i1] == x;
                            if i1 < k {
                                assert(s0[i1] == x);
                            } else {
                                assert(s0[i1 + 1] == x);
                            }
                        }
                    }
                    assert forall|tt: int, i2: int, j2: int|
                        0 <= tt < self.spec_len() && 0 <= i2 < j2 < self.at(tt).len() implies self
                        .at(tt)[i2] != self.at(tt)[j2] by {
                        if tt == t {
                            let a = if i2 < k {
                                i2
                            } else {
                                i2 + 1
                            };
                            let b = if j2 < k {
                                j2
                            } else {
                                j2 + 1
                            };
                            assert(s1[i2] == s0[a] && s1[j2] == s0[b]);
                            assert(pre.at(tt)[a] != pre.at(tt)[b]);
                        } else {
                            assert(pre.at(tt)[i2] != pre.at(tt)[j2]);
                        }
                    }
                }
            },
        }
    }

    /// Atomic-equivalent remove-then-insert; called on every successful
    /// Position mutation.
    pub fn move_entity(&mut self, e: Entity, old_idx: usize, new_idx: usize)
        requires
            old(self).unique(),
        ensures
            final(self).spec_len() == old(self).spec_len(),
            final(self).unique(),
            new_idx < old(self).spec_len() ==> final(self).contains_at(new_idx as int, e),
            old_idx != new_idx ==> !final(self).contains_at(old_idx as int, e),
            forall|u: int|
                0 <= u < final(self).spec_len() && u != old_idx && u != new_idx ==> final(self).at(
                    u,
                ) == old(self).at(u),
            forall|x: Entity, u: int|
                x != e && 0 <= u < final(self).spec_len() ==> final(self).contains_at(u, x) == old(
                    self,
                ).contains_at(u, x),
    {
        self.remove(e, old_idx);
        self.insert(e, new_idx);
    }

    /// A snapshot of the occupants of tile `t` (empty for an out-of-range
    /// index), so the caller may mutate the store while walking the result.
    pub fn occupants_at(&self, t: usize) -> (r: Vec<Entity>)
        ensures
            r@ == self.at(t as int),
    {
        let mut r: Vec<Entity> = Vec::new();
        if t >= self.tiles.len() {
            return r;
        }
        let list = &self.tiles[t];
        let n = list.len();
        let mut i: usize = 0;
        while i < n
            invariant
                i <= n,
                n == list@.len(),
                list@ == self.at(t as int),
                r@ == self.at(t as int).subrange(0, i as int),
            decreases n - i,
        {
            r.push(list[i]);
            assert(r@ == self.at(t as int).subrange(0, i + 1 as int));
            i = i + 1;
        }
        assert(self.at(t as int).subrange(0, n as int) == self.at(t as int));
        r
    }
}


/// The position of `e` in `list`, if it occurs.
fn index_of_entity(list: &Vec<Entity>, e: Entity) -> (r: Option<usize>)
    ensures
        match r {
            Some(k) => k < list@.len() && list@[k as int] == e,
            None => !list@.contains(e),
        },
{
    let n = list.len();
    let mut i: usize = 0;
    while i < n
        invariant
            i <= n,
            n == list@.len(),
            forall|k: int| 0 <= k < i ==> list@[k] != e,
        decreases n - i,
    {
        if list[i].idx == e.idx && list[i].gen == e.gen {
            assert(list@[i as int] == e);
            return Some(i);
        }
        i = i + 1;
    }
    None
}

} // verus!

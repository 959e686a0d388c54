//! The simulation context: the entity/component store, the spatial index, the
//! map, the effect queue and the turn state, owned by one value that every
//! system is handed by reference.
//!
//! The store models entity references as generation-checked arena indices: a
//! handle to a deleted entity fails the liveness or generation check and
//! resolves to "not found" everywhere, which is what makes "missing target is
//! a silent no-op" hold throughout the effect engine.

use vstd::prelude::*;
use std::collections::VecDeque;
use crate::components::{
    AreaOfEffect, CombatStats, Confusion, Consumable, Description, Door, Entity, EntityMoved,
    FieldOfView, Glyph, HungerClock, InflictsConfusion, InflictsDamage, Item, Monster, Name,
    ParticleLifetime, Player, Position, ProvidesHealing, Ranged, TileTrigger, WantsToMelee,
    WantsToPickupItem,
};
use crate::effects::{EffectLabel, EffectSpawner};
use crate::geometry::Point;
use crate::map::GameMap;
use crate::spatial::SpatialIndex;
use crate::store::Storage;
use crate::turn::TurnState;

verus! {

/// The world: entity slots, one storage column per component type, and the
/// shared resources of the simulation.
#[derive(Debug)]
pub struct World {
    pub alive: Vec<bool>,
    pub gens: Vec<u32>,
    pub free: Vec<usize>,
    pub positions: Storage<Position>,
    pub glyphs: Storage<Glyph>,
    pub combat_stats: Storage<CombatStats>,
    pub confusions: Storage<Confusion>,
    pub monsters: Storage<Monster>,
    pub players: Storage<Player>,
    pub items: Storage<Item>,
    pub consumables: Storage<Consumable>,
    pub doors: Storage<Door>,
    pub entity_moved: Storage<EntityMoved>,
    pub names: Storage<Name>,
    pub descriptions: Storage<Description>,
    pub fovs: Storage<FieldOfView>,
    pub wants_melee: Storage<WantsToMelee>,
    pub wants_pickup: Storage<WantsToPickupItem>,
    pub rangeds: Storage<Ranged>,
    pub aoes: Storage<AreaOfEffect>,
    pub inflicts_damage: Storage<InflictsDamage>,
    pub provides_healing: Storage<ProvidesHealing>,
    pub inflicts_confusion: Storage<InflictsConfusion>,
    pub hunger_clocks: Storage<HungerClock>,
    pub particle_lifetimes: Storage<ParticleLifetime>,
    pub tile_triggers: Storage<TileTrigger>,
    pub spatial: SpatialIndex,
    pub map: GameMap,
    pub queue: VecDeque<EffectSpawner>,
    pub processed: Vec<EffectLabel>,
    pub turn_state: TurnState,
    pub player_entity: Option<Entity>,
    pub player_pos: Point,
    pub log: Vec<String>,
    pub turn_count: u64,
    pub damage_taken: u64,
    pub damage_inflicted: u64,
}

impl World {
    /// Number of entity slots ever created.
    pub open spec fn n(self) -> int {
        self.alive@.len() as int
    }

    /// Whether a handle refers to a live entity: slot in range, slot alive,
    /// and the handle's generation current.
    pub open spec fn valid(self, e: Entity) -> bool {
        &&& e.idx < self.n()
        &&& self.alive@[e.idx as int]
        &&& self.gens@[e.idx as int] == e.gen
    }

    /// The current handle of slot `i`.
    pub open spec fn entity_at(self, i: int) -> Entity {
        Entity { idx: i as usize, gen: self.gens@[i] }
    }

    /// Every column covers exactly the entity slots.
    pub open spec fn lens_ok(self) -> bool {
        &&& self.gens@.len() == self.n()
        &&& self.positions.spec_len() == self.n()
        &&& self.glyphs.spec_len() == self.n()
        &&& self.combat_stats.spec_len() == self.n()
        &&& self.confusions.spec_len() == self.n()
        &&& self.monsters.spec_len() == self.n()
        &&& self.players.spec_len() == self.n()
        &&& self.items.spec_len() == self.n()
        &&& self.consumables.spec_len() == self.n()
        &&& self.doors.spec_len() == self.n()
        &&& self.entity_moved.spec_len() == self.n()
        &&& self.names.spec_len() == self.n()
        &&& self.descriptions.spec_len() == self.n()
        &&& self.fovs.spec_len() == self.n()
        &&& self.wants_melee.spec_len() == self.n()
        &&& self.wants_pickup.spec_len() == self.n()
        &&& self.rangeds.spec_len() == self.n()
        &&& self.aoes.spec_len() == self.n()
        &&& self.inflicts_damage.spec_len() == self.n()
        &&& self.provides_healing.spec_len() == self.n()
        &&& self.inflicts_confusion.spec_len() == self.n()
        &&& self.hunger_clocks.spec_len() == self.n()
        &&& self.particle_lifetimes.spec_len() == self.n()
        &&& self.tile_triggers.spec_len() == self.n()
    }

    /// Every live entity with a Position occupies the spatial-index entry of
    /// exactly that tile.
    pub open spec fn pos_to_spatial(self) -> bool {
        forall|i: int|
            0 <= i < self.n() && self.alive@[i] && #[trigger] self.positions.at(i) is Some ==> {
                let p = self.positions.at(i).unwrap();
                &&& self.map.spec_in_bounds(p.pt)
                &&& self.spatial.contains_at(self.map.spec_idx_of(p.pt), self.entity_at(i))
            }
    }

    /// Every spatial-index entry names a live entity whose Position is exactly
    /// that tile; the index never holds entities that no longer exist.
    pub open spec fn spatial_to_pos(self) -> bool {
        forall|t: int, x: Entity|
            #[trigger] self.spatial.contains_at(t, x) ==> {
                &&& self.valid(x)
                &&& self.positions.at(x.idx as int) is Some
                &&& self.map.spec_in_bounds(self.positions.at(x.idx as int).unwrap().pt)
                &&& self.map.spec_idx_of(self.positions.at(x.idx as int).unwrap().pt) == t
            }
    }

    /// The free list holds only dead slots, each at most once.
    pub open spec fn free_ok(self) -> bool {
        &&& forall|i: int|
            0 <= i < self.free@.len() ==> #[trigger] self.free@[i] < self.n() && !self.alive@[self.free@[i] as int]
        &&& forall|i: int, j: int| 0 <= i < j < self.free@.len() ==> self.free@[i] != self.free@[j]
    }

    /// The single structural invariant of the simulation: shapes agree, the
    /// map is well-formed, the spatial index covers the map and is duplicate
    /// free, Positions and the spatial index tell the same story, and the
    /// free list is sound.
    pub open spec fn wf(self) -> bool {
        &&& self.lens_ok()
        &&& self.map.wf()
        &&& self.spatial.spec_len() == self.map.spec_tile_count()
        &&& self.spatial.unique()
        &&& self.pos_to_spatial()
        &&& self.spatial_to_pos()
        &&& self.free_ok()
    }

    /// Whether slot `i` currently holds a live combat-capable entity.
    pub open spec fn has_stats_at(self, i: int) -> bool {
        0 <= i < self.n() && self.alive@[i] && self.combat_stats.at(i) is Some
    }

    /// Number of live combat-capable entities among the first `k` slots.
    pub open spec fn combat_upto(self, k: int) -> nat
        decreases k,
    {
        if k <= 0 {
            0
        } else {
            self.combat_upto(k - 1) + (if self.has_stats_at(k - 1) {
                1nat
            } else {
                0nat
            })
        }
    }

    /// Number of live combat-capable entities. The effect drain terminates
    /// because resolving a death strictly shrinks this count.
    pub open spec fn combat_count(self) -> nat {
        self.combat_upto(self.n())
    }

    /// An empty world over a one-tile placeholder map.
    pub fn new() -> (r: World)
        ensures
            r.wf(),
            r.n() == 0,
            r.queue@.len() == 0,
            r.turn_state is AwaitingInput,
    {
        let map = GameMap::new(1, 1);
        let mut spatial = SpatialIndex::new();
        spatial.resize(1);
        World {
            alive: Vec::new(),
            gens: Vec::new(),
            free: Vec::new(),
            positions: Storage::new(),
            glyphs: Storage::new(),
            combat_stats: Storage::new(),
            confusions: Storage::new(),
            monsters: Storage::new(),
            players: Storage::new(),
            items: Storage::new(),
            consumables: Storage::new(),
            doors: Storage::new(),
            entity_moved: Storage::new(),
            names: Storage::new(),
            descriptions: Storage::new(),
            fovs: Storage::new(),
            wants_melee: Storage::new(),
            wants_pickup: Storage::new(),
            rangeds: Storage::new(),
            aoes: Storage::new(),
            inflicts_damage: Storage::new(),
            provides_healing: Storage::new(),
            inflicts_confusion: Storage::new(),
            hunger_clocks: Storage::new(),
            particle_lifetimes: Storage::new(),
            tile_triggers: Storage::new(),
            spatial,
            map,
            queue: VecDeque::new(),
            processed: Vec::new(),
            turn_state: TurnState::AwaitingInput,
            player_entity: None,
            player_pos: Point { x: 0, y: 0 },
            log: Vec::new(),
            turn_count: 0,
            damage_taken: 0,
            damage_inflicted: 0,
        }
    }

    /// Whether a handle refers to a live entity.
    pub fn is_valid(&self, e: Entity) -> (r: bool)
        requires
            self.lens_ok(),
        ensures
            r == self.valid(e),
    {
        e.idx < self.alive.len() && self.alive[e.idx] && self.gens[e.idx] == e.gen
    }

    /// Append a log line.
    pub fn log_message(&mut self, line: String)
        requires
            old(self).wf(),
        ensures
            final(self).wf(),
            *final(self) == (World { log: final(self).log, ..*old(self) }),
            final(self).log@ == old(self).log@.push(line),
    {
        self.log.push(line);
    }
}


/// Pointwise equality of two worlds' entity data at slot `i`: liveness,
/// generation and every component column agree.
pub open spec fn entity_cols_eq_at(a: World, b: World, i: int) -> bool {
    &&& a.alive@[i] == b.alive@[i]
    &&& a.gens@[i] == b.gens@[i]
    &&& a.positions.at(i) == b.positions.at(i)
    &&& a.glyphs.at(i) == b.glyphs.at(i)
    &&& a.combat_stats.at(i) == b.combat_stats.at(i)
    &&& a.confusions.at(i) == b.confusions.at(i)
    &&& a.monsters.at(i) == b.monsters.at(i)
    &&& a.players.at(i) == b.players.at(i)
    &&& a.items.at(i) == b.items.at(i)
    &&& a.consumables.at(i) == b.consumables.at(i)
    &&& a.doors.at(i) == b.doors.at(i)
    &&& a.entity_moved.at(i) == b.entity_moved.at(i)
    &&& a.names.at(i) == b.names.at(i)
    &&& a.descriptions.at(i) == b.descriptions.at(i)
    &&& a.fovs.at(i) == b.fovs.at(i)
    &&& a.wants_melee.at(i) == b.wants_melee.at(i)
    &&& a.wants_pickup.at(i) == b.wants_pickup.at(i)
    &&& a.rangeds.at(i) == b.rangeds.at(i)
    &&& a.aoes.at(i) == b.aoes.at(i)
    &&& a.inflicts_damage.at(i) == b.inflicts_damage.at(i)
    &&& a.provides_healing.at(i) == b.provides_healing.at(i)
    &&& a.inflicts_confusion.at(i) == b.inflicts_confusion.at(i)
    &&& a.hunger_clocks.at(i) == b.hunger_clocks.at(i)
    &&& a.particle_lifetimes.at(i) == b.particle_lifetimes.at(i)
    &&& a.tile_triggers.at(i) == b.tile_triggers.at(i)
}

/// Entity data agrees at every shared slot but `j`.
pub open spec fn entity_cols_eq_except(a: World, b: World, j: int) -> bool {
    forall|i: int| 0 <= i < a.n() && i < b.n() && i != j ==> #[trigger] entity_cols_eq_at(a, b, i)
}

/// Slot `i` of `b` carries no components at all.
pub open spec fn entity_cols_none_at(b: World, i: int) -> bool {
    &&& b.positions.at(i) is None
    &&& b.glyphs.at(i) is None
    &&& b.combat_stats.at(i) is None
    &&& b.confusions.at(i) is None
    &&& b.monsters.at(i) is None
    &&& b.players.at(i) is None
    &&& b.items.at(i) is None
    &&& b.consumables.at(i) is None
    &&& b.doors.at(i) is None
    &&& b.entity_moved.at(i) is None
    &&& b.names.at(i) is None
    &&& b.descriptions.at(i) is None
    &&& b.fovs.at(i) is None
    &&& b.wants_melee.at(i) is None
    &&& b.wants_pickup.at(i) is None
    &&& b.rangeds.at(i) is None
    &&& b.aoes.at(i) is None
    &&& b.inflicts_damage.at(i) is None
    &&& b.provides_healing.at(i) is None
    &&& b.inflicts_confusion.at(i) is None
    &&& b.hunger_clocks.at(i) is None
    &&& b.particle_lifetimes.at(i) is None
    &&& b.tile_triggers.at(i) is None
}

/// The shared resources of the simulation agree: map, queue, turn state,
/// player references, log, counters and the processed trace.
pub open spec fn resources_eq(a: World, b: World) -> bool {
    &&& a.map == b.map
    &&& a.queue@ == b.queue@
    &&& a.processed@ == b.processed@
    &&& a.turn_state == b.turn_state
    &&& a.player_entity == b.player_entity
    &&& a.player_pos == b.player_pos
    &&& a.log@ == b.log@
    &&& a.turn_count == b.turn_count
    &&& a.damage_taken == b.damage_taken
    &&& a.damage_inflicted == b.damage_inflicted
}

/// The slot count fits the machine: a `Vec`'s length is bounded.
pub proof fn lemma_n_bound(w: World)
    ensures
        w.n() <= usize::MAX,
{
    assert(w.alive.len() == w.alive@.len());
}

/// Worlds that agree slot by slot on liveness and combat stats count the same.
pub proof fn lemma_combat_upto_agree(a: World, b: World, k: int)
    requires
        forall|i: int| 0 <= i < k ==> a.has_stats_at(i) == b.has_stats_at(i),
    ensures
        a.combat_upto(k) == b.combat_upto(k),
    decreases k,
{
    if k > 0 {
        lemma_combat_upto_agree(a, b, k - 1);
    }
}

/// A change confined to slot `j` moves the count by exactly that slot's
/// contribution.
pub proof fn lemma_combat_upto_update(a: World, b: World, k: int, j: int)
    requires
        forall|i: int| 0 <= i < k && i != j ==> a.has_stats_at(i) == b.has_stats_at(i),
        0 <= j < k,
    ensures
        b.combat_upto(k) == a.combat_upto(k) - (if a.has_stats_at(j) {
            1int
        } else {
            0int
        }) + (if b.has_stats_at(j) {
            1int
        } else {
            0int
        }),
    decreases k,
{
    if j == k - 1 {
        lemma_combat_upto_agree(a, b, k - 1);
    } else {
        lemma_combat_upto_update(a, b, k - 1, j);
    }
}

impl World {
    /// Create a fresh entity with no components, reusing a retired slot when
    /// one is free. The handle is distinct from every previously valid handle.
    pub fn create_entity(&mut self) -> (e: Entity)
        requires
            old(self).wf(),
        ensures
            final(self).wf(),
            final(self).valid(e),
            !old(self).valid(e),
            old(self).n() <= e.idx || !old(self).alive@[e.idx as int],
            e.idx < final(self).n(),
            old(self).n() <= final(self).n() <= old(self).n() + 1,
            forall|x: Entity| x != e ==> final(self).valid(x) == old(self).valid(x),
            entity_cols_none_at(*final(self), e.idx as int),
            entity_cols_eq_except(*old(self), *final(self), e.idx as int),
            final(self).spatial == old(self).spatial,
            resources_eq(*old(self), *final(self)),
            final(self).combat_count() == old(self).combat_count(),
    {
        let ghost pre = *self;
        let popped = self.free.pop();
        match popped {
            Some(idx) => {
                assert(pre.free@[pre.free@.len() - 1] == idx);
                assert(idx < pre.n() && !pre.alive@[idx as int]);
                self.positions.clear(idx);
                self.glyphs.clear(idx);
                self.combat_stats.clear(idx);
                self.confusions.clear(idx);
                self.monsters.clear(idx);
                self.players.clear(idx);
                self.items.clear(idx);
                self.consumables.clear(idx);
                self.doors.clear(idx);
                self.entity_moved.clear(idx);
                self.names.clear(idx);
                self.descriptions.clear(idx);
                self.fovs.clear(idx);
                self.wants_melee.clear(idx);
                self.wants_pickup.clear(idx);
                self.rangeds.clear(idx);
                self.aoes.clear(idx);
                self.inflicts_damage.clear(idx);
                self.provides_healing.clear(idx);
                self.inflicts_confusion.clear(idx);
                self.hunger_clocks.clear(idx);
                self.particle_lifetimes.clear(idx);
                self.tile_triggers.clear(idx);
                self.alive.set(idx, true);
                let g = self.gens[idx];
                let e = Entity { idx, gen: g };
                proof {
                    assert forall|i: int| 0 <= i < pre.n() && i < self.n() && i != idx implies
                        #[trigger] entity_cols_eq_at(pre, *self, i) by {}
                    assert forall|x: Entity| x != e implies self.valid(x) == pre.valid(x) by {
                        if x.idx == idx {
                            assert(!pre.alive@[x.idx as int]);
                        }
                    }
                    assert forall|i: int|
                        0 <= i < self.n() && self.alive@[i] && #[trigger] self.positions.at(
                            i,
                        ) is Some implies {
                        let p = self.positions.at(i).unwrap();
                        &&& self.map.spec_in_bounds(p.pt)
                        &&& self.spatial.contains_at(self.map.spec_idx_of(p.pt), self.entity_at(i))
                    } by {
                        assert(i != idx);
                        assert(pre.alive@[i] && pre.positions.at(i) is Some);
                        assert(self.entity_at(i) == pre.entity_at(i));
                    }
                    assert forall|t: int, x: Entity| #[trigger]
                        self.spatial.contains_at(t, x) implies {
                        &&& self.valid(x)
                        &&& self.positions.at(x.idx as int) is Some
                        &&& self.map.spec_in_bounds(self.positions.at(x.idx as int).unwrap().pt)
                        &&& self.map.spec_idx_of(self.positions.at(x.idx as int).unwrap().pt) == t
                    } by {
                        assert(pre.spatial.contains_at(t, x));
                        assert(pre.valid(x));
                        assert(x.idx != idx);
                    }
                    assert forall|i: int| 0 <= i < self.free@.len() implies #[trigger] self.free@[i]
                        < self.n() && !self.alive@[self.free@[i] as int] by {
                        assert(self.free@[i] == pre.free@[i]);
                        assert(pre.free@[i] != idx);
                    }
                    lemma_combat_upto_update(pre, *self, pre.n(), idx as int);
                }
                e
            },
            None => {
                let idx = self.alive.len();
                self.alive.push(true);
                self.gens.push(0);
                self.positions.push_none();
                self.glyphs.push_none();
                self.combat_stats.push_none();
                self.confusions.push_none();
                self.monsters.push_none();
                self.players.push_none();
                self.items.push_none();
                self.consumables.push_none();
                self.doors.push_none();
                self.entity_moved.push_none();
                self.names.push_none();
                self.descriptions.push_none();
                self.fovs.push_none();
                self.wants_melee.push_none();
                self.wants_pickup.push_none();
                self.rangeds.push_none();
                self.aoes.push_none();
                self.inflicts_damage.push_none();
                self.provides_healing.push_none();
                self.inflicts_confusion.push_none();
                self.hunger_clocks.push_none();
                self.particle_lifetimes.push_none();
                self.tile_triggers.push_none();
                let e = Entity { idx, gen: 0 };
                proof {
                    assert forall|i: int| 0 <= i < pre.n() && i < self.n() && i != idx implies
                        #[trigger] entity_cols_eq_at(pre, *self, i) by {}
                    assert forall|x: Entity| x != e implies self.valid(x) == pre.valid(x) by {}
                    assert forall|i: int|
                        0 <= i < self.n() && self.alive@[i] && #[trigger] self.positions.at(
                            i,
                        ) is Some implies {
                        let p = self.positions.at(i).unwrap();
                        &&& self.map.spec_in_bounds(p.pt)
                        &&& self.spatial.contains_at(self.map.spec_idx_of(p.pt), self.entity_at(i))
                    } by {
                        assert(i != idx);
                        assert(pre.alive@[i] && pre.positions.at(i) is Some);
                        assert(self.entity_at(i) == pre.entity_at(i));
                    }
                    assert forall|t: int, x: Entity| #[trigger]
                        self.spatial.contains_at(t, x) implies {
                        &&& self.valid(x)
                        &&& self.positions.at(x.idx as int) is Some
                        &&& self.map.spec_in_bounds(self.positions.at(x.idx as int).unwrap().pt)
                        &&& self.map.spec_idx_of(self.positions.at(x.idx as int).unwrap().pt) == t
                    } by {
                        assert(pre.spatial.contains_at(t, x));
                        assert(pre.valid(x));
                        assert(x.idx != idx);
                    }
                    lemma_combat_upto_agree(pre, *self, pre.n());
                    assert(self.combat_upto(self.n()) == self.combat_upto(pre.n()) + (
                    if self.has_stats_at(pre.n()) {
                        1nat
                    } else {
                        0nat
                    }));
                }
                e
            },
        }
    }

    /// Delete an entity: drop it from the spatial index, strip its components,
    /// and retire its slot so the handle (and any copy of it) goes stale. A
    /// no-op on an already stale handle.
    pub fn delete_entity(&mut self, e: Entity) -> (deleted: bool)
        requires
            old(self).wf(),
        ensures
            final(self).wf(),
            deleted == old(self).valid(e),
            !old(self).valid(e) ==> *final(self) == *old(self),
            old(self).valid(e) ==> {
                &&& forall|x: Entity|
                    final(self).valid(x) == (old(self).valid(x) && x != e)
                &&& final(self).n() == old(self).n()
                &&& entity_cols_eq_except(*old(self), *final(self), e.idx as int)
                &&& entity_cols_none_at(*final(self), e.idx as int)
                &&& !final(self).alive@[e.idx as int]
                &&& forall|t: int| !final(self).spatial.contains_at(t, e)
                &&& forall|t: int, x: Entity|
                    x != e ==> final(self).spatial.contains_at(t, x) == old(
                        self,
                    ).spatial.contains_at(t, x)
                &&& resources_eq(*old(self), *final(self))
                &&& final(self).combat_count() == old(self).combat_count() - (
                if old(self).has_stats_at(e.idx as int) {
                    1int
                } else {
                    0int
                })
            },
    {
        if !self.is_valid(e) {
            return false;
        }
        let ghost pre = *self;
        let idx = e.idx;
        match self.positions.get_copy(idx) {
            Some(p) => {
                assert(pre.map.spec_in_bounds(p.pt));
                let t = self.map.point2d_to_index(p.pt);
                assert(pre.entity_at(idx as int) == e);
                self.spatial.remove(e, t);
                proof {
                    assert forall|u: int| !self.spatial.contains_at(u, e) by {
                        if u != t {
                            if self.spatial.contains_at(u, e) {
                                assert(pre.spatial.contains_at(u, e));
                                assert(pre.map.spec_idx_of(
                                    pre.positions.at(e.idx as int).unwrap().pt,
                                ) == u);
                            }
                        }
                    }
                }
            },
            None => {
                proof {
                    assert forall|u: int| !self.spatial.contains_at(u, e) by {
                        if self.spatial.contains_at(u, e) {
                            assert(pre.positions.at(e.idx as int) is Some);
                        }
                    }
                }
            },
        }
        let ghost mid = *self;
        self.positions.clear(idx);
        self.glyphs.clear(idx);
        self.combat_stats.clear(idx);
        self.confusions.clear(idx);
        self.monsters.clear(idx);
        self.players.clear(idx);
        self.items.clear(idx);
        self.consumables.clear(idx);
        self.doors.clear(idx);
        self.entity_moved.clear(idx);
        self.names.clear(idx);
        self.descriptions.clear(idx);
        self.fovs.clear(idx);
        self.wants_melee.clear(idx);
        self.wants_pickup.clear(idx);
        self.rangeds.clear(idx);
        self.aoes.clear(idx);
        self.inflicts_damage.clear(idx);
        self.provides_healing.clear(idx);
        self.inflicts_confusion.clear(idx);
        self.hunger_clocks.clear(idx);
        self.particle_lifetimes.clear(idx);
        self.tile_triggers.clear(idx);
        self.alive.set(idx, false);
        let g = self.gens[idx];
        if g < u32::MAX {
            self.gens.set(idx, g + 1);
            self.free.push(idx);
        }
        proof {
            assert forall|i: int| 0 <= i < pre.n() && i < self.n() && i != idx implies #[trigger]
                entity_cols_eq_at(pre, *self, i) by {}
            assert forall|x: Entity| final(self).valid(x) == (pre.valid(x) && x != e) by {
                if x.idx == idx as int {
                    assert(!self.alive@[x.idx as int]);
                    if pre.valid(x) && x != e {
                        assert(x.gen == pre.gens@[idx as int] && e.gen == pre.gens@[idx as int]);
                        assert(false);
                    }
                }
            }
            assert forall|t: int, x: Entity| x != e implies self.spatial.contains_at(t, x) == pre
                .spatial.contains_at(t, x) by {}
            assert forall|i: int|
                0 <= i < self.n() && self.alive@[i] && #[trigger] self.positions.at(
                    i,
                ) is Some implies {
                let p = self.positions.at(i).unwrap();
                &&& self.map.spec_in_bounds(p.pt)
                &&& self.spatial.contains_at(self.map.spec_idx_of(p.pt), self.entity_at(i))
            } by {
                assert(i != idx);
                assert(pre.alive@[i] && pre.positions.at(i) is Some);
                assert(self.entity_at(i) == pre.entity_at(i));
                lemma_n_bound(pre);
                assert(pre.entity_at(i).idx == i as usize);
                assert(i != e.idx as int);
                assert(pre.entity_at(i) != e);
            }
            assert forall|t: int, x: Entity| #[trigger] self.spatial.contains_at(t, x) implies {
                &&& self.valid(x)
                &&& self.positions.at(x.idx as int) is Some
                &&& self.map.spec_in_bounds(self.positions.at(x.idx as int).unwrap().pt)
                &&& self.map.spec_idx_of(self.positions.at(x.idx as int).unwrap().pt) == t
            } by {
                assert(x != e);
                assert(pre.spatial.contains_at(t, x));
                assert(pre.valid(x));
                assert(x.idx != idx);
            }
            assert forall|i: int| 0 <= i < self.free@.len() implies #[trigger] self.free@[i]
                < self.n() && !self.alive@[self.free@[i] as int] by {
                if i < pre.free@.len() {
                    assert(self.free@[i] == pre.free@[i]);
                    assert(pre.free@[i] != idx) by {
                        assert(!pre.alive@[pre.free@[i] as int]);
                    }
                }
            }
            assert forall|i: int, j: int| 0 <= i < j < self.free@.len() implies self.free@[i]
                != self.free@[j] by {
                if j == self.free@.len() - 1 && self.free@.len() > pre.free@.len() {
                    assert(self.free@[j] == idx);
                    assert(self.free@[i] == pre.free@[i]);
                    assert(!pre.alive@[pre.free@[i] as int]);
                }
            }
            lemma_combat_upto_update(pre, *self, pre.n(), idx as int);
        }
        true
    }
}


impl World {
    /// Place `e` at `pt`, or move it there if it already stands somewhere:
    /// the Position component and the spatial index change in one step, so
    /// the occupancy invariant never breaks. A no-op on a stale handle or an
    /// off-map point.
    pub fn set_position(&mut self, e: Entity, pt: Point)
        requires
            old(self).wf(),
        ensures
            final(self).wf(),
            !(old(self).valid(e) && old(self).map.spec_in_bounds(pt)) ==> *final(self) == *old(
                self,
            ),
            old(self).valid(e) && old(self).map.spec_in_bounds(pt) ==> {
                &&& *final(self) == (World {
                    positions: final(self).positions,
                    spatial: final(self).spatial,
                    ..*old(self)
                })
                &&& final(self).positions.slots@ == old(self).positions.slots@.update(
                    e.idx as int,
                    Some(Position { pt }),
                )
                &&& final(self).spatial.contains_at(old(self).map.spec_idx_of(pt), e)
                &&& forall|t: int|
                    t != old(self).map.spec_idx_of(pt) ==> !final(self).spatial.contains_at(t, e)
                &&& forall|t: int, x: Entity|
                    x != e ==> final(self).spatial.contains_at(t, x) == old(
                        self,
                    ).spatial.contains_at(t, x)
            },
    {
        if !self.is_valid(e) {
            return ;
        }
        if !self.map.in_bounds(pt) {
            return ;
        }
        let ghost pre = *self;
        let new_t = self.map.point2d_to_index(pt);
        match self.positions.get_copy(e.idx) {
            Some(p0) => {
                assert(pre.map.spec_in_bounds(p0.pt));
                assert(pre.entity_at(e.idx as int) == e);
                let old_t = self.map.point2d_to_index(p0.pt);
                self.spatial.move_entity(e, old_t, new_t);
                proof {
                    assert forall|t: int| t != new_t implies !self.spatial.contains_at(t, e) by {
                        if t != old_t && self.spatial.contains_at(t, e) {
                            assert(pre.spatial.contains_at(t, e));
                            assert(pre.map.spec_idx_of(pre.positions.at(e.idx as int).unwrap().pt)
                                == t);
                        }
                    }
                }
            },
            None => {
                self.spatial.insert(e, new_t);
                proof {
                    assert forall|t: int| t != new_t implies !self.spatial.contains_at(t, e) by {
                        if self.spatial.contains_at(t, e) {
                            assert(pre.spatial.contains_at(t, e));
                            assert(pre.positions.at(e.idx as int) is Some);
                        }
                    }
                }
            },
        }
        let ghost mid = *self;
        self.positions.set(e.idx, Position { pt });
        proof {
            lemma_n_bound(pre);
            assert forall|i: int|
                0 <= i < self.n() && self.alive@[i] && #[trigger] self.positions.at(
                    i,
                ) is Some implies {
                let p = self.positions.at(i).unwrap();
                &&& self.map.spec_in_bounds(p.pt)
                &&& self.spatial.contains_at(self.map.spec_idx_of(p.pt), self.entity_at(i))
            } by {
                if i == e.idx as int {
                    assert(self.positions.at(i) == Some(Position { pt }));
                    assert(self.entity_at(i) == e);
                    assert(self.spatial.contains_at(self.map.spec_idx_of(pt), e));
                } else {
                    assert(pre.alive@[i] && pre.positions.at(i) is Some);
                    assert(self.entity_at(i) == pre.entity_at(i));
                    assert(pre.entity_at(i).idx == i as usize);
                    assert(pre.entity_at(i) != e);
                    let p = pre.positions.at(i).unwrap();
                    assert(pre.spatial.contains_at(pre.map.spec_idx_of(p.pt), pre.entity_at(i)));
                    assert(self.spatial.contains_at(self.map.spec_idx_of(p.pt), self.entity_at(i)));
                }
            }
            assert forall|t: int, x: Entity| #[trigger] self.spatial.contains_at(t, x) implies {
                &&& self.valid(x)
                &&& self.positions.at(x.idx as int) is Some
                &&& self.map.spec_in_bounds(self.positions.at(x.idx as int).unwrap().pt)
                &&& self.map.spec_idx_of(self.positions.at(x.idx as int).unwrap().pt) == t
            } by {
                if x == e {
                    assert(t == pre.map.spec_idx_of(pt));
                    assert(self.positions.at(x.idx as int) == Some(Position { pt }));
                } else {
                    assert(pre.spatial.contains_at(t, x));
                    assert(pre.valid(x));
                    if x.idx == e.idx {
                        assert(x.gen == pre.gens@[e.idx as int] && e.gen == pre.gens@[e.idx as int]);
                        assert(false);
                    }
                    assert(self.positions.at(x.idx as int) == pre.positions.at(x.idx as int));
                }
            }
        }
    }

    /// Strip `e`'s Position and its spatial-index entry together. A no-op on a
    /// stale handle or an unpositioned entity.
    pub fn remove_position(&mut self, e: Entity)
        requires
            old(self).wf(),
        ensures
            final(self).wf(),
            *final(self) == (World {
                positions: final(self).positions,
                spatial: final(self).spatial,
                ..*old(self)
            }),
            !(old(self).valid(e) && old(self).positions.at(e.idx as int) is Some) ==> *final(self)
                == *old(self),
            old(self).valid(e) && old(self).positions.at(e.idx as int) is Some ==> {
                &&& final(self).positions.slots@ == old(self).positions.slots@.update(
                    e.idx as int,
                    None::<Position>,
                )
                &&& forall|t: int| !final(self).spatial.contains_at(t, e)
                &&& forall|t: int, x: Entity|
                    x != e ==> final(self).spatial.contains_at(t, x) == old(
                        self,
                    ).spatial.contains_at(t, x)
            },
    {
        if !self.is_valid(e) {
            return ;
        }
        let ghost pre = *self;
        match self.positions.get_copy(e.idx) {
            None => {},
            Some(p0) => {
                assert(pre.map.spec_in_bounds(p0.pt));
                assert(pre.entity_at(e.idx as int) == e);
                let old_t = self.map.point2d_to_index(p0.pt);
                self.spatial.remove(e, old_t);
                self.positions.clear(e.idx);
                proof {
                    lemma_n_bound(pre);
                    assert forall|t: int| !self.spatial.contains_at(t, e) by {
                        if t != old_t && self.spatial.contains_at(t, e) {
                            assert(pre.spatial.contains_at(t, e));
                            assert(pre.map.spec_idx_of(pre.positions.at(e.idx as int).unwrap().pt)
                                == t);
                        }
                    }
                    assert forall|i: int|
                        0 <= i < self.n() && self.alive@[i] && #[trigger] self.positions.at(
                            i,
                        ) is Some implies {
                        let p = self.positions.at(i).unwrap();
                        &&& self.map.spec_in_bounds(p.pt)
                        &&& self.spatial.contains_at(self.map.spec_idx_of(p.pt), self.entity_at(i))
                    } by {
                        assert(i != e.idx as int);
                        assert(pre.alive@[i] && pre.positions.at(i) is Some);
                        assert(self.entity_at(i) == pre.entity_at(i));
                        assert(pre.entity_at(i).idx == i as usize);
                        assert(pre.entity_at(i) != e);
                    }
                    assert forall|t: int, x: Entity| #[trigger] self.spatial.contains_at(
                        t,
                        x,
                    ) implies {
                        &&& self.valid(x)
                        &&& self.positions.at(x.idx as int) is Some
                        &&& self.map.spec_in_bounds(self.positions.at(x.idx as int).unwrap().pt)
                        &&& self.map.spec_idx_of(self.positions.at(x.idx as int).unwrap().pt) == t
                    } by {
                        assert(x != e);
                        assert(pre.spatial.contains_at(t, x));
                        assert(pre.valid(x));
                        if x.idx == e.idx {
                            assert(x.gen == pre.gens@[e.idx as int] && e.gen == pre.gens@[e.idx as int]);
                            assert(false);
                        }
                    }
                }
            },
        }
    }

    /// The Position component of `e`, if `e` is live and placed.
    pub fn get_position(&self, e: Entity) -> (r: Option<Position>)
        requires
            self.lens_ok(),
        ensures
            r == if self.valid(e) {
                self.positions.at(e.idx as int)
            } else {
                None::<Position>
            },
    {
        if self.is_valid(e) {
            self.positions.get_copy(e.idx)
        } else {
            None
        }
    }

    /// The tile index `e` stands on, if `e` is live and placed.
    pub fn entity_position(&self, e: Entity) -> (r: Option<usize>)
        requires
            self.wf(),
        ensures
            match r {
                Some(t) => self.valid(e) && self.positions.at(e.idx as int) is Some && t
                    == self.map.spec_idx_of(self.positions.at(e.idx as int).unwrap().pt) && t
                    < self.map.spec_tile_count(),
                None => !(self.valid(e) && self.positions.at(e.idx as int) is Some),
            },
    {
        if !self.is_valid(e) {
            return None;
        }
        match self.positions.get_copy(e.idx) {
            Some(p) => {
                assert(self.map.spec_in_bounds(p.pt));
                Some(self.map.point2d_to_index(p.pt))
            },
            None => None,
        }
    }

    /// Install a freshly built map: the spatial index is rebuilt to the new
    /// size and every Position is dropped, so entities must be placed anew.
    pub fn set_map(&mut self, map: GameMap)
        requires
            old(self).wf(),
            map.wf(),
        ensures
            final(self).wf(),
            *final(self) == (World {
                map: final(self).map,
                spatial: final(self).spatial,
                positions: final(self).positions,
                ..*old(self)
            }),
            final(self).map == map,
            final(self).positions.spec_len() == old(self).n(),
            forall|i: int| 0 <= i < final(self).n() ==> final(self).positions.at(i) is None,
            forall|t: int| final(self).spatial.at(t).len() == 0,
    {
        self.map = map;
        let count = self.map.tile_count();
        self.spatial.resize(count);
        let n = self.positions.slots.len();
        let mut fresh: Storage<Position> = Storage::new();
        let mut i: usize = 0;
        while i < n
            invariant
                i <= n,
                fresh.spec_len() == i,
                forall|j: int| 0 <= j < i ==> fresh.at(j) is None,
            decreases n - i,
        {
            let ghost prev = fresh;
            fresh.push_none();
            i = i + 1;
            proof {
                assert forall|j: int| 0 <= j < i implies fresh.at(j) is None by {
                    if j < i - 1 {
                        assert(prev.at(j) is None);
                        assert(fresh.slots@[j] == prev.slots@[j]);
                    } else {
                        assert(fresh.slots@[j] == None::<Position>);
                    }
                }
            }
        }
        self.positions = fresh;
    }

    /// Record which entity is the player avatar and where it stands; the
    /// scheduler and the AI read these as shared resources.
    pub fn set_player(&mut self, e: Entity, pos: Point)
        requires
            old(self).wf(),
        ensures
            final(self).wf(),
            *final(self) == (World {
                player_entity: final(self).player_entity,
                player_pos: final(self).player_pos,
                ..*old(self)
            }),
            final(self).player_entity == Some(e),
            final(self).player_pos == pos,
    {
        self.player_entity = Some(e);
        self.player_pos = pos;
    }
}


impl World {

    /// The Glyph component of `e`, if `e` is live and has one.
    pub fn get_glyph(&self, e: Entity) -> (r: Option<Glyph>)
        requires
            self.lens_ok(),
        ensures
            r == if self.valid(e) {
                self.glyphs.at(e.idx as int)
            } else {
                None::<Glyph>
            },
    {
        if self.is_valid(e) {
            self.glyphs.get_copy(e.idx)
        } else {
            None
        }
    }

    /// Attach or replace the Glyph component of `e` (overwrite semantics); a
    /// no-op on a stale handle.
    pub fn set_glyph(&mut self, e: Entity, c: Glyph)
        requires
            old(self).wf(),
        ensures
            final(self).wf(),
            *final(self) == (World { glyphs: final(self).glyphs, ..*old(self) }),
            old(self).valid(e) ==> final(self).glyphs.slots@ == old(self).glyphs.slots@.update(
                e.idx as int,
                Some(c),
            ),
            !old(self).valid(e) ==> final(self).glyphs == old(self).glyphs,
    {
        if self.is_valid(e) {
            self.glyphs.set(e.idx, c);
        }
    }

    /// The CombatStats component of `e`, if `e` is live and has one.
    pub fn get_combat_stats(&self, e: Entity) -> (r: Option<CombatStats>)
        requires
            self.lens_ok(),
        ensures
            r == if self.valid(e) {
                self.combat_stats.at(e.idx as int)
            } else {
                None::<CombatStats>
            },
    {
        if self.is_valid(e) {
            self.combat_stats.get_copy(e.idx)
        } else {
            None
        }
    }

    /// Attach or replace the CombatStats component of `e` (overwrite semantics); a
    /// no-op on a stale handle.
    pub fn set_combat_stats(&mut self, e: Entity, c: CombatStats)
        requires
            old(self).wf(),
        ensures
            final(self).wf(),
            *final(self) == (World { combat_stats: final(self).combat_stats, ..*old(self) }),
            old(self).valid(e) ==> final(self).combat_stats.slots@ == old(self).combat_stats.slots@.update(
                e.idx as int,
                Some(c),
            ),
            !old(self).valid(e) ==> final(self).combat_stats == old(self).combat_stats,
    {
        if self.is_valid(e) {
            self.combat_stats.set(e.idx, c);
        }
    }

    /// The Confusion component of `e`, if `e` is live and has one.
    pub fn get_confusion(&self, e: Entity) -> (r: Option<Confusion>)
        requires
            self.lens_ok(),
        ensures
            r == if self.valid(e) {
                self.confusions.at(e.idx as int)
            } else {
                None::<Confusion>
            },
    {
        if self.is_valid(e) {
            self.confusions.get_copy(e.idx)
        } else {
            None
        }
    }

    /// Attach or replace the Confusion component of `e` (overwrite semantics); a
    /// no-op on a stale handle.
    pub fn set_confusion(&mut self, e: Entity, c: Confusion)
        requires
            old(self).wf(),
        ensures
            final(self).wf(),
            *final(self) == (World { confusions: final(self).confusions, ..*old(self) }),
            old(self).valid(e) ==> final(self).confusions.slots@ == old(self).confusions.slots@.update(
                e.idx as int,
                Some(c),
            ),
            !old(self).valid(e) ==> final(self).confusions == old(self).confusions,
    {
        if self.is_valid(e) {
            self.confusions.set(e.idx, c);
        }
    }

    /// Detach the Confusion component of `e`; a no-op on a stale handle.
    pub fn clear_confusion(&mut self, e: Entity)
        requires
            old(self).wf(),
        ensures
            final(self).wf(),
            *final(self) == (World { confusions: final(self).confusions, ..*old(self) }),
            old(self).valid(e) ==> final(self).confusions.slots@ == old(self).confusions.slots@.update(
                e.idx as int,
                None::<Confusion>,
            ),
            !old(self).valid(e) ==> final(self).confusions == old(self).confusions,
    {
        if self.is_valid(e) {
            self.confusions.clear(e.idx);
        }
    }

    /// Whether `e` is live and carries a Monster component.
    pub fn has_monster(&self, e: Entity) -> (r: bool)
        requires
            self.lens_ok(),
        ensures
            r == (self.valid(e) && self.monsters.at(e.idx as int) is Some),
    {
        self.is_valid(e) && self.monsters.contains(e.idx)
    }

    /// Attach or replace the Monster component of `e` (overwrite semantics); a
    /// no-op on a stale handle.
    pub fn set_monster(&mut self, e: Entity, c: Monster)
        requires
            old(self).wf(),
        ensures
            final(self).wf(),
            *final(self) == (World { monsters: final(self).monsters, ..*old(self) }),
            old(self).valid(e) ==> final(self).monsters.slots@ == old(self).monsters.slots@.update(
                e.idx as int,
                Some(c),
            ),
            !old(self).valid(e) ==> final(self).monsters == old(self).monsters,
    {
        if self.is_valid(e) {
            self.monsters.set(e.idx, c);
        }
    }

    /// Whether `e` is live and carries a Player component.
    pub fn has_player_tag(&self, e: Entity) -> (r: bool)
        requires
            self.lens_ok(),
        ensures
            r == (self.valid(e) && self.players.at(e.idx as int) is Some),
    {
        self.is_valid(e) && self.players.contains(e.idx)
    }

    /// Attach or replace the Player component of `e` (overwrite semantics); a
    /// no-op on a stale handle.
    pub fn set_player_tag(&mut self, e: Entity, c: Player)
        requires
            old(self).wf(),
        ensures
            final(self).wf(),
            *final(self) == (World { players: final(self).players, ..*old(self) }),
            old(self).valid(e) ==> final(self).players.slots@ == old(self).players.slots@.update(
                e.idx as int,
                Some(c),
            ),
            !old(self).valid(e) ==> final(self).players == old(self).players,
    {
        if self.is_valid(e) {
            self.players.set(e.idx, c);
        }
    }

    /// Whether `e` is live and carries a Item component.
    pub fn has_item(&self, e: Entity) -> (r: bool)
        requires
            self.lens_ok(),
        ensures
            r == (self.valid(e) && self.items.at(e.idx as int) is Some),
    {
        self.is_valid(e) && self.items.contains(e.idx)
    }

    /// Attach or replace the Item component of `e` (overwrite semantics); a
    /// no-op on a stale handle.
    pub fn set_item(&mut self, e: Entity, c: Item)
        requires
            old(self).wf(),
        ensures
            final(self).wf(),
            *final(self) == (World { items: final(self).items, ..*old(self) }),
            old(self).valid(e) ==> final(self).items.slots@ == old(self).items.slots@.update(
                e.idx as int,
                Some(c),
            ),
            !old(self).valid(e) ==> final(self).items == old(self).items,
    {
        if self.is_valid(e) {
            self.items.set(e.idx, c);
        }
    }

    /// Whether `e` is live and carries a Consumable component.
    pub fn has_consumable(&self, e: Entity) -> (r: bool)
        requires
            self.lens_ok(),
        ensures
            r == (self.valid(e) && self.consumables.at(e.idx as int) is Some),
    {
        self.is_valid(e) && self.consumables.contains(e.idx)
    }

    /// Attach or replace the Consumable component of `e` (overwrite semantics); a
    /// no-op on a stale handle.
    pub fn set_consumable(&mut self, e: Entity, c: Consumable)
        requires
            old(self).wf(),
        ensures
            final(self).wf(),
            *final(self) == (World { consumables: final(self).consumables, ..*old(self) }),
            old(self).valid(e) ==> final(self).consumables.slots@ == old(self).consumables.slots@.update(
                e.idx as int,
                Some(c),
            ),
            !old(self).valid(e) ==> final(self).consumables == old(self).consumables,
    {
        if self.is_valid(e) {
            self.consumables.set(e.idx, c);
        }
    }

    /// Whether `e` is live and carries a Door component.
    pub fn has_door(&self, e: Entity) -> (r: bool)
        requires
            self.lens_ok(),
        ensures
            r == (self.valid(e) && self.doors.at(e.idx as int) is Some),
    {
        self.is_valid(e) && self.doors.contains(e.idx)
    }

    /// Attach or replace the Door component of `e` (overwrite semantics); a
    /// no-op on a stale handle.
    pub fn set_door(&mut self, e: Entity, c: Door)
        requires
            old(self).wf(),
        ensures
            final(self).wf(),
            *final(self) == (World { doors: final(self).doors, ..*old(self) }),
            old(self).valid(e) ==> final(self).doors.slots@ == old(self).doors.slots@.update(
                e.idx as int,
                Some(c),
            ),
            !old(self).valid(e) ==> final(self).doors == old(self).doors,
    {
        if self.is_valid(e) {
            self.doors.set(e.idx, c);
        }
    }

    /// Whether `e` is live and carries a EntityMoved component.
    pub fn has_entity_moved(&self, e: Entity) -> (r: bool)
        requires
            self.lens_ok(),
        ensures
            r == (self.valid(e) && self.entity_moved.at(e.idx as int) is Some),
    {
        self.is_valid(e) && self.entity_moved.contains(e.idx)
    }

    /// Attach or replace the EntityMoved component of `e` (overwrite semantics); a
    /// no-op on a stale handle.
    pub fn set_entity_moved(&mut self, e: Entity, c: EntityMoved)
        requires
            old(self).wf(),
        ensures
            final(self).wf(),
            *final(self) == (World { entity_moved: final(self).entity_moved, ..*old(self) }),
            old(self).valid(e) ==> final(self).entity_moved.slots@ == old(self).entity_moved.slots@.update(
                e.idx as int,
                Some(c),
            ),
            !old(self).valid(e) ==> final(self).entity_moved == old(self).entity_moved,
    {
        if self.is_valid(e) {
            self.entity_moved.set(e.idx, c);
        }
    }

    /// Detach the EntityMoved component of `e`; a no-op on a stale handle.
    pub fn clear_entity_moved(&mut self, e: Entity)
        requires
            old(self).wf(),
        ensures
            final(self).wf(),
            *final(self) == (World { entity_moved: final(self).entity_moved, ..*old(self) }),
            old(self).valid(e) ==> final(self).entity_moved.slots@ == old(self).entity_moved.slots@.update(
                e.idx as int,
                None::<EntityMoved>,
            ),
            !old(self).valid(e) ==> final(self).entity_moved == old(self).entity_moved,
    {
        if self.is_valid(e) {
            self.entity_moved.clear(e.idx);
        }
    }

    /// A borrow of the Name component of `e`, if `e` is live and has one.
    pub fn get_name(&self, e: Entity) -> (r: Option<&Name>)
        requires
            self.lens_ok(),
        ensures
            match r {
                Some(c) => self.valid(e) && self.names.at(e.idx as int) == Some(*c),
                None => !(self.valid(e) && self.names.at(e.idx as int) is Some),
            },
    {
        if self.is_valid(e) {
            self.names.get(e.idx)
        } else {
            None
        }
    }

    /// Whether `e` is live and carries a Name component.
    pub fn has_name(&self, e: Entity) -> (r: bool)
        requires
            self.lens_ok(),
        ensures
            r == (self.valid(e) && self.names.at(e.idx as int) is Some),
    {
        self.is_valid(e) && self.names.contains(e.idx)
    }

    /// Attach or replace the Name component of `e` (overwrite semantics); a
    /// no-op on a stale handle.
    pub fn set_name(&mut self, e: Entity, c: Name)
        requires
            old(self).wf(),
        ensures
            final(self).wf(),
            *final(self) == (World { names: final(self).names, ..*old(self) }),
            old(self).valid(e) ==> final(self).names.slots@ == old(self).names.slots@.update(
                e.idx as int,
                Some(c),
            ),
            !old(self).valid(e) ==> final(self).names == old(self).names,
    {
        if self.is_valid(e) {
            self.names.set(e.idx, c);
        }
    }

    /// Attach or replace the Description component of `e` (overwrite semantics); a
    /// no-op on a stale handle.
    pub fn set_description(&mut self, e: Entity, c: Description)
        requires
            old(self).wf(),
        ensures
            final(self).wf(),
            *final(self) == (World { descriptions: final(self).descriptions, ..*old(self) }),
            old(self).valid(e) ==> final(self).descriptions.slots@ == old(self).descriptions.slots@.update(
                e.idx as int,
                Some(c),
            ),
            !old(self).valid(e) ==> final(self).descriptions == old(self).descriptions,
    {
        if self.is_valid(e) {
            self.descriptions.set(e.idx, c);
        }
    }

    /// A borrow of the FieldOfView component of `e`, if `e` is live and has one.
    pub fn get_fov(&self, e: Entity) -> (r: Option<&FieldOfView>)
        requires
            self.lens_ok(),
        ensures
            match r {
                Some(c) => self.valid(e) && self.fovs.at(e.idx as int) == Some(*c),
                None => !(self.valid(e) && self.fovs.at(e.idx as int) is Some),
            },
    {
        if self.is_valid(e) {
            self.fovs.get(e.idx)
        } else {
            None
        }
    }

    /// Whether `e` is live and carries a FieldOfView component.
    pub fn has_fov(&self, e: Entity) -> (r: bool)
        requires
            self.lens_ok(),
        ensures
            r == (self.valid(e) && self.fovs.at(e.idx as int) is Some),
    {
        self.is_valid(e) && self.fovs.contains(e.idx)
    }

    /// Attach or replace the FieldOfView component of `e` (overwrite semantics); a
    /// no-op on a stale handle.
    pub fn set_fov(&mut self, e: Entity, c: FieldOfView)
        requires
            old(self).wf(),
        ensures
            final(self).wf(),
            *final(self) == (World { fovs: final(self).fovs, ..*old(self) }),
            old(self).valid(e) ==> final(self).fovs.slots@ == old(self).fovs.slots@.update(
                e.idx as int,
                Some(c),
            ),
            !old(self).valid(e) ==> final(self).fovs == old(self).fovs,
    {
        if self.is_valid(e) {
            self.fovs.set(e.idx, c);
        }
    }

    /// The WantsToMelee component of `e`, if `e` is live and has one.
    pub fn get_wants_melee(&self, e: Entity) -> (r: Option<WantsToMelee>)
        requires
            self.lens_ok(),
        ensures
            r == if self.valid(e) {
                self.wants_melee.at(e.idx as int)
            } else {
                None::<WantsToMelee>
            },
    {
        if self.is_valid(e) {
            self.wants_melee.get_copy(e.idx)
        } else {
            None
        }
    }

    /// Attach or replace the WantsToMelee component of `e` (overwrite semantics); a
    /// no-op on a stale handle.
    pub fn set_wants_melee(&mut self, e: Entity, c: WantsToMelee)
        requires
            old(self).wf(),
        ensures
            final(self).wf(),
            *final(self) == (World { wants_melee: final(self).wants_melee, ..*old(self) }),
            old(self).valid(e) ==> final(self).wants_melee.slots@ == old(self).wants_melee.slots@.update(
                e.idx as int,
                Some(c),
            ),
            !old(self).valid(e) ==> final(self).wants_melee == old(self).wants_melee,
    {
        if self.is_valid(e) {
            self.wants_melee.set(e.idx, c);
        }
    }

    /// Detach the WantsToMelee component of `e`; a no-op on a stale handle.
    pub fn clear_wants_melee(&mut self, e: Entity)
        requires
            old(self).wf(),
        ensures
            final(self).wf(),
            *final(self) == (World { wants_melee: final(self).wants_melee, ..*old(self) }),
            old(self).valid(e) ==> final(self).wants_melee.slots@ == old(self).wants_melee.slots@.update(
                e.idx as int,
                None::<WantsToMelee>,
            ),
            !old(self).valid(e) ==> final(self).wants_melee == old(self).wants_melee,
    {
        if self.is_valid(e) {
            self.wants_melee.clear(e.idx);
        }
    }

    /// The WantsToPickupItem component of `e`, if `e` is live and has one.
    pub fn get_wants_pickup(&self, e: Entity) -> (r: Option<WantsToPickupItem>)
        requires
            self.lens_ok(),
        ensures
            r == if self.valid(e) {
                self.wants_pickup.at(e.idx as int)
            } else {
                None::<WantsToPickupItem>
            },
    {
        if self.is_valid(e) {
            self.wants_pickup.get_copy(e.idx)
        } else {
            None
        }
    }

    /// Attach or replace the WantsToPickupItem component of `e` (overwrite semantics); a
    /// no-op on a stale handle.
    pub fn set_wants_pickup(&mut self, e: Entity, c: WantsToPickupItem)
        requires
            old(self).wf(),
        ensures
            final(self).wf(),
            *final(self) == (World { wants_pickup: final(self).wants_pickup, ..*old(self) }),
            old(self).valid(e) ==> final(self).wants_pickup.slots@ == old(self).wants_pickup.slots@.update(
                e.idx as int,
                Some(c),
            ),
            !old(self).valid(e) ==> final(self).wants_pickup == old(self).wants_pickup,
    {
        if self.is_valid(e) {
            self.wants_pickup.set(e.idx, c);
        }
    }

    /// Detach the WantsToPickupItem component of `e`; a no-op on a stale handle.
    pub fn clear_wants_pickup(&mut self, e: Entity)
        requires
            old(self).wf(),
        ensures
            final(self).wf(),
            *final(self) == (World { wants_pickup: final(self).wants_pickup, ..*old(self) }),
            old(self).valid(e) ==> final(self).wants_pickup.slots@ == old(self).wants_pickup.slots@.update(
                e.idx as int,
                None::<WantsToPickupItem>,
            ),
            !old(self).valid(e) ==> final(self).wants_pickup == old(self).wants_pickup,
    {
        if self.is_valid(e) {
            self.wants_pickup.clear(e.idx);
        }
    }

    /// The Ranged component of `e`, if `e` is live and has one.
    pub fn get_ranged(&self, e: Entity) -> (r: Option<Ranged>)
        requires
            self.lens_ok(),
        ensures
            r == if self.valid(e) {
                self.rangeds.at(e.idx as int)
            } else {
                None::<Ranged>
            },
    {
        if self.is_valid(e) {
            self.rangeds.get_copy(e.idx)
        } else {
            None
        }
    }

    /// Attach or replace the Ranged component of `e` (overwrite semantics); a
    /// no-op on a stale handle.
    pub fn set_ranged(&mut self, e: Entity, c: Ranged)
        requires
            old(self).wf(),
        ensures
            final(self).wf(),
            *final(self) == (World { rangeds: final(self).rangeds, ..*old(self) }),
            old(self).valid(e) ==> final(self).rangeds.slots@ == old(self).rangeds.slots@.update(
                e.idx as int,
                Some(c),
            ),
            !old(self).valid(e) ==> final(self).rangeds == old(self).rangeds,
    {
        if self.is_valid(e) {
            self.rangeds.set(e.idx, c);
        }
    }

    /// The AreaOfEffect component of `e`, if `e` is live and has one.
    pub fn get_aoe(&self, e: Entity) -> (r: Option<AreaOfEffect>)
        requires
            self.lens_ok(),
        ensures
            r == if self.valid(e) {
                self.aoes.at(e.idx as int)
            } else {
                None::<AreaOfEffect>
            },
    {
        if self.is_valid(e) {
            self.aoes.get_copy(e.idx)
        } else {
            None
        }
    }

    /// Attach or replace the AreaOfEffect component of `e` (overwrite semantics); a
    /// no-op on a stale handle.
    pub fn set_aoe(&mut self, e: Entity, c: AreaOfEffect)
        requires
            old(self).wf(),
        ensures
            final(self).wf(),
            *final(self) == (World { aoes: final(self).aoes, ..*old(self) }),
            old(self).valid(e) ==> final(self).aoes.slots@ == old(self).aoes.slots@.update(
                e.idx as int,
                Some(c),
            ),
            !old(self).valid(e) ==> final(self).aoes == old(self).aoes,
    {
        if self.is_valid(e) {
            self.aoes.set(e.idx, c);
        }
    }

    /// The InflictsDamage component of `e`, if `e` is live and has one.
    pub fn get_inflicts_damage(&self, e: Entity) -> (r: Option<InflictsDamage>)
        requires
            self.lens_ok(),
        ensures
            r == if self.valid(e) {
                self.inflicts_damage.at(e.idx as int)
            } else {
                None::<InflictsDamage>
            },
    {
        if self.is_valid(e) {
            self.inflicts_damage.get_copy(e.idx)
        } else {
            None
        }
    }

    /// Attach or replace the InflictsDamage component of `e` (overwrite semantics); a
    /// no-op on a stale handle.
    pub fn set_inflicts_damage(&mut self, e: Entity, c: InflictsDamage)
        requires
            old(self).wf(),
        ensures
            final(self).wf(),
            *final(self) == (World { inflicts_damage: final(self).inflicts_damage, ..*old(self) }),
            old(self).valid(e) ==> final(self).inflicts_damage.slots@ == old(self).inflicts_damage.slots@.update(
                e.idx as int,
                Some(c),
            ),
            !old(self).valid(e) ==> final(self).inflicts_damage == old(self).inflicts_damage,
    {
        if self.is_valid(e) {
            self.inflicts_damage.set(e.idx, c);
        }
    }

    /// The ProvidesHealing component of `e`, if `e` is live and has one.
    pub fn get_provides_healing(&self, e: Entity) -> (r: Option<ProvidesHealing>)
        requires
            self.lens_ok(),
        ensures
            r == if self.valid(e) {
                self.provides_healing.at(e.idx as int)
            } else {
                None::<ProvidesHealing>
            },
    {
        if self.is_valid(e) {
            self.provides_healing.get_copy(e.idx)
        } else {
            None
        }
    }

    /// Attach or replace the ProvidesHealing component of `e` (overwrite semantics); a
    /// no-op on a stale handle.
    pub fn set_provides_healing(&mut self, e: Entity, c: ProvidesHealing)
        requires
            old(self).wf(),
        ensures
            final(self).wf(),
            *final(self) == (World { provides_healing: final(self).provides_healing, ..*old(self) }),
            old(self).valid(e) ==> final(self).provides_healing.slots@ == old(self).provides_healing.slots@.update(
                e.idx as int,
                Some(c),
            ),
            !old(self).valid(e) ==> final(self).provides_healing == old(self).provides_healing,
    {
        if self.is_valid(e) {
            self.provides_healing.set(e.idx, c);
        }
    }

    /// The InflictsConfusion component of `e`, if `e` is live and has one.
    pub fn get_inflicts_confusion(&self, e: Entity) -> (r: Option<InflictsConfusion>)
        requires
            self.lens_ok(),
        ensures
            r == if self.valid(e) {
                self.inflicts_confusion.at(e.idx as int)
            } else {
                None::<InflictsConfusion>
            },
    {
        if self.is_valid(e) {
            self.inflicts_confusion.get_copy(e.idx)
        } else {
            None
        }
    }

    /// Attach or replace the InflictsConfusion component of `e` (overwrite semantics); a
    /// no-op on a stale handle.
    pub fn set_inflicts_confusion(&mut self, e: Entity, c: InflictsConfusion)
        requires
            old(self).wf(),
        ensures
            final(self).wf(),
            *final(self) == (World { inflicts_confusion: final(self).inflicts_confusion, ..*old(self) }),
            old(self).valid(e) ==> final(self).inflicts_confusion.slots@ == old(self).inflicts_confusion.slots@.update(
                e.idx as int,
                Some(c),
            ),
            !old(self).valid(e) ==> final(self).inflicts_confusion == old(self).inflicts_confusion,
    {
        if self.is_valid(e) {
            self.inflicts_confusion.set(e.idx, c);
        }
    }

    /// The HungerClock component of `e`, if `e` is live and has one.
    pub fn get_hunger_clock(&self, e: Entity) -> (r: Option<HungerClock>)
        requires
            self.lens_ok(),
        ensures
            r == if self.valid(e) {
                self.hunger_clocks.at(e.idx as int)
            } else {
                None::<HungerClock>
            },
    {
        if self.is_valid(e) {
            self.hunger_clocks.get_copy(e.idx)
        } else {
            None
        }
    }

    /// Attach or replace the HungerClock component of `e` (overwrite semantics); a
    /// no-op on a stale handle.
    pub fn set_hunger_clock(&mut self, e: Entity, c: HungerClock)
        requires
            old(self).wf(),
        ensures
            final(self).wf(),
            *final(self) == (World { hunger_clocks: final(self).hunger_clocks, ..*old(self) }),
            old(self).valid(e) ==> final(self).hunger_clocks.slots@ == old(self).hunger_clocks.slots@.update(
                e.idx as int,
                Some(c),
            ),
            !old(self).valid(e) ==> final(self).hunger_clocks == old(self).hunger_clocks,
    {
        if self.is_valid(e) {
            self.hunger_clocks.set(e.idx, c);
        }
    }

    /// The ParticleLifetime component of `e`, if `e` is live and has one.
    pub fn get_particle_lifetime(&self, e: Entity) -> (r: Option<ParticleLifetime>)
        requires
            self.lens_ok(),
        ensures
            r == if self.valid(e) {
                self.particle_lifetimes.at(e.idx as int)
            } else {
                None::<ParticleLifetime>
            },
    {
        if self.is_valid(e) {
            self.particle_lifetimes.get_copy(e.idx)
        } else {
            None
        }
    }

    /// Attach or replace the ParticleLifetime component of `e` (overwrite semantics); a
    /// no-op on a stale handle.
    pub fn set_particle_lifetime(&mut self, e: Entity, c: ParticleLifetime)
        requires
            old(self).wf(),
        ensures
            final(self).wf(),
            *final(self) == (World { particle_lifetimes: final(self).particle_lifetimes, ..*old(self) }),
            old(self).valid(e) ==> final(self).particle_lifetimes.slots@ == old(self).particle_lifetimes.slots@.update(
                e.idx as int,
                Some(c),
            ),
            !old(self).valid(e) ==> final(self).particle_lifetimes == old(self).particle_lifetimes,
    {
        if self.is_valid(e) {
            self.particle_lifetimes.set(e.idx, c);
        }
    }

    /// The TileTrigger component of `e`, if `e` is live and has one.
    pub fn get_tile_trigger(&self, e: Entity) -> (r: Option<TileTrigger>)
        requires
            self.lens_ok(),
        ensures
            r == if self.valid(e) {
                self.tile_triggers.at(e.idx as int)
            } else {
                None::<TileTrigger>
            },
    {
        if self.is_valid(e) {
            self.tile_triggers.get_copy(e.idx)
        } else {
            None
        }
    }

    /// Attach or replace the TileTrigger component of `e` (overwrite semantics); a
    /// no-op on a stale handle.
    pub fn set_tile_trigger(&mut self, e: Entity, c: TileTrigger)
        requires
            old(self).wf(),
        ensures
            final(self).wf(),
            *final(self) == (World { tile_triggers: final(self).tile_triggers, ..*old(self) }),
            old(self).valid(e) ==> final(self).tile_triggers.slots@ == old(self).tile_triggers.slots@.update(
                e.idx as int,
                Some(c),
            ),
            !old(self).valid(e) ==> final(self).tile_triggers == old(self).tile_triggers,
    {
        if self.is_valid(e) {
            self.tile_triggers.set(e.idx, c);
        }
    }
}

} // verus!

//! The monster AI system. Gated on the monster turn, it walks the monsters in
//! store order: a confused monster burns a confusion turn and skips acting; a
//! monster in melee reach writes a melee intent against the player; one that
//! can see the player takes a single step along a path the outer loop
//! requested from the path-finding capability; anything else stands still.

use vstd::prelude::*;
use crate::components::{Confusion, Entity, FieldOfView, WantsToMelee};
use crate::geometry::{in_melee_range, melee_range, Point};
use crate::player::copy_points;
use crate::world::{entity_cols_eq_at, entity_cols_eq_except, resources_eq, World};

verus! {

/// The outcome of a path request: whether a route exists and the tile indices
/// along it, origin first.
#[derive(Clone, Debug)]
pub struct NavigationPath {
    pub success: bool,
    pub steps: Vec<usize>,
}

/// A path the AI wants computed: from a monster's tile to the player's tile.
#[derive(Clone, Copy, Debug, PartialEq, Eq, Structural)]
pub struct PathRequest {
    pub entity: Entity,
    pub from_idx: usize,
    pub to_idx: usize,
}

/// Whether slot `i` holds a live monster with a position and field of view —
/// the join the AI iterates over.
pub open spec fn monster_ready(w: World, i: int) -> bool {
    &&& 0 <= i < w.n()
    &&& w.alive@[i]
    &&& w.monsters.at(i) is Some
    &&& w.positions.at(i) is Some
    &&& w.fovs.at(i) is Some
}

/// Whether a monster at `pos` that is not confused and not already in melee
/// reach wants a path: the player must be on one of its visible tiles.
pub open spec fn wants_path(w: World, i: int) -> bool {
    &&& monster_ready(w, i)
    &&& w.confusions.at(i) is None
    &&& w.player_entity is Some
    &&& !in_melee_range(w.positions.at(i).unwrap().pt, w.player_pos)
    &&& w.fovs.at(i).unwrap().visible_tiles@.contains(w.player_pos)
}

/// Whether `tiles` holds `pt`.
pub fn points_contain(tiles: &Vec<Point>, pt: Point) -> (r: bool)
    ensures
        r == tiles@.contains(pt),
{
    let n = tiles.len();
    let mut i: usize = 0;
    while i < n
        invariant
            i <= n,
            n == tiles@.len(),
            forall|k: int| 0 <= k < i ==> tiles@[k] != pt,
        decreases n - i,
    {
        if tiles[i].x == pt.x && tiles[i].y == pt.y {
            assert(tiles@[i as int] == pt);
            return true;
        }
        i = i + 1;
    }
    false
}

/// The first path an entity was given in the list, if any.
pub open spec fn spec_lookup(paths: Seq<(Entity, NavigationPath)>, e: Entity) -> Option<
    NavigationPath,
>
    decreases paths.len(),
{
    if paths.len() == 0 {
        None
    } else if paths[0].0 == e {
        Some(paths[0].1)
    } else {
        spec_lookup(paths.drop_first(), e)
    }
}

/// A prefix free of entries for `e` does not change what the lookup finds.
proof fn lemma_spec_lookup_skip(paths: Seq<(Entity, NavigationPath)>, e: Entity, i: int)
    requires
        0 <= i <= paths.len(),
        forall|k: int| 0 <= k < i ==> (#[trigger] paths[k]).0 != e,
    ensures
        spec_lookup(paths, e) == spec_lookup(paths.skip(i), e),
    decreases i,
{
    if i > 0 {
        assert(paths[0].0 != e);
        assert(paths.drop_first() =~= paths.skip(1));
        lemma_spec_lookup_skip(paths.drop_first(), e, i - 1);
        assert(paths.drop_first().skip(i - 1) =~= paths.skip(i));
    } else {
        assert(paths.skip(0) =~= paths);
    }
}

/// The path computed for `e`, if the outer loop supplied one: the first
/// entry whose handle matches.
pub fn lookup_path<'a>(paths: &'a Vec<(Entity, NavigationPath)>, e: Entity) -> (r: Option<
    &'a NavigationPath,
>)
    ensures
        match r {
            Some(p) => spec_lookup(paths@, e) == Some(*p),
            None => spec_lookup(paths@, e) is None,
        },
{
    let n = paths.len();
    let mut i: usize = 0;
    while i < n
        invariant
            i <= n,
            n == paths@.len(),
            forall|k: int| 0 <= k < i ==> (#[trigger] paths@[k]).0 != e,
        decreases n - i,
    {
        if paths[i].0.idx == e.idx && paths[i].0.gen == e.gen {
            assert(paths@[i as int].0 == e);
            proof {
                lemma_spec_lookup_skip(paths@, e, i as int);
                assert(paths@.skip(i as int)[0] == paths@[i as int]);
            }
            return Some(&paths[i].1);
        }
        i = i + 1;
    }
    proof {
        lemma_spec_lookup_skip(paths@, e, n as int);
        assert(paths@.skip(n as int) =~= Seq::<(Entity, NavigationPath)>::empty());
    }
    None
}

/// The paths the AI will consume this monster turn: one request per live,
/// unconfused monster that sees the player and is out of melee reach — every
/// such monster appears, and nothing else does. Each request runs from the
/// monster's tile to the player's tile.
pub fn path_requests(world: &World) -> (r: Vec<PathRequest>)
    requires
        world.wf(),
        world.map.spec_in_bounds(world.player_pos),
    ensures
        forall|k: int|
            0 <= k < r@.len() ==> {
                let req = #[trigger] r@[k];
                &&& wants_path(*world, req.entity.idx as int)
                &&& world.valid(req.entity)
                &&& req.from_idx == world.map.spec_idx_of(
                    world.positions.at(req.entity.idx as int).unwrap().pt,
                )
                &&& req.to_idx == world.map.spec_idx_of(world.player_pos)
            },
        forall|i: int|
            0 <= i < world.n() && #[trigger] wants_path(*world, i) ==> exists|k: int|
                0 <= k < r@.len() && (#[trigger] r@[k]).entity == world.entity_at(i),
{
    let mut r: Vec<PathRequest> = Vec::new();
    let player = match world.player_entity {
        Some(p) => p,
        None => {
            return r;
        },
    };
    let to_idx = world.map.point2d_to_index(world.player_pos);
    let n = world.alive.len();
    let mut i: usize = 0;
    while i < n
        invariant
            world.wf(),
            world.player_entity is Some,
            i <= n,
            n == world.n(),
            to_idx == world.map.spec_idx_of(world.player_pos),
            forall|k: int|
                0 <= k < r@.len() ==> {
                    let req = #[trigger] r@[k];
                    &&& wants_path(*world, req.entity.idx as int)
                    &&& world.valid(req.entity)
                    &&& req.from_idx == world.map.spec_idx_of(
                        world.positions.at(req.entity.idx as int).unwrap().pt,
                    )
                    &&& req.to_idx == world.map.spec_idx_of(world.player_pos)
                },
            forall|j: int|
                0 <= j < i && #[trigger] wants_path(*world, j) ==> exists|k: int|
                    0 <= k < r@.len() && (#[trigger] r@[k]).entity == world.entity_at(j),
        decreases n - i,
    {
        let ghost r_pre = r@;
        let e = Entity { idx: i, gen: world.gens[i] };
        assert(e == world.entity_at(i as int));
        if world.has_monster(e) {
            match world.get_position(e) {
                Some(pos) => {
                    match world.get_fov(e) {
                        Some(_) => {
                            let confused = world.get_confusion(e);
                            if confused.is_none() && !melee_range(pos.pt, world.player_pos) {
                                let sees = match world.get_fov(e) {
                                    Some(f) => points_contain(&f.visible_tiles, world.player_pos),
                                    None => false,
                                };
                                if sees {
                                    assert(world.map.spec_in_bounds(pos.pt));
                                    let from_idx = world.map.point2d_to_index(pos.pt);
                                    r.push(PathRequest { entity: e, from_idx, to_idx });
                                }
                            }
                        },
                        None => {},
                    }
                },
                None => {},
            }
        }
        proof {
            assert forall|j: int|
                0 <= j < i + 1 && #[trigger] wants_path(*world, j) implies exists|k: int|
                0 <= k < r@.len() && (#[trigger] r@[k]).entity == world.entity_at(j) by {
                if j < i {
                    let k = choose|k: int|
                        0 <= k < r_pre.len() && (#[trigger] r_pre[k]).entity == world.entity_at(j);
                    assert(r@[k].entity == world.entity_at(j));
                } else {
                    // this slot qualifies, so the branch above pushed it
                    assert(r@[r@.len() - 1].entity == e);
                }
            }
        }
        i = i + 1;
    }
    r
}

/// Let one monster act. A confused monster burns one confusion turn — the
/// component is removed after its last turn — and neither moves nor attacks
/// this tick. An unconfused monster in melee reach of the player writes a
/// melee intent and stays put. One that sees the player follows the supplied
/// path by exactly one step, moving its Position and the spatial index
/// together and marking its view dirty. Anything else stands still. A stale
/// handle or a non-monster changes nothing.
pub fn monster_act(world: &mut World, e: Entity, path: Option<&NavigationPath>)
    requires
        old(world).wf(),
    ensures
        final(world).wf(),
        final(world).n() == old(world).n(),
        entity_cols_eq_except(*old(world), *final(world), e.idx as int),
        !monster_ready(*old(world), e.idx as int) || !old(world).valid(e) ==> *final(world)
            == *old(world),
        old(world).valid(e) && monster_ready(*old(world), e.idx as int) && old(
            world,
        ).confusions.at(e.idx as int) is Some ==> {
            let turns = old(world).confusions.at(e.idx as int).unwrap().turns;
            &&& *final(world) == (World { confusions: final(world).confusions, ..*old(world) })
            &&& (turns > 1 ==> final(world).confusions.slots@ == old(
                world,
            ).confusions.slots@.update(e.idx as int, Some(Confusion { turns: (turns - 1) as i32 })))
            &&& (turns <= 1 ==> final(world).confusions.slots@ == old(
                world,
            ).confusions.slots@.update(e.idx as int, None::<Confusion>))
        },
        old(world).valid(e) && monster_ready(*old(world), e.idx as int) && old(
            world,
        ).confusions.at(e.idx as int) is None && old(world).player_entity is Some
            && in_melee_range(old(world).positions.at(e.idx as int).unwrap().pt, old(world).player_pos)
            ==> {
            &&& *final(world) == (World { wants_melee: final(world).wants_melee, ..*old(world) })
            &&& final(world).wants_melee.slots@ == old(world).wants_melee.slots@.update(
                e.idx as int,
                Some(WantsToMelee { target: old(world).player_entity.unwrap() }),
            )
        },
        old(world).valid(e) && monster_ready(*old(world), e.idx as int) && old(
            world,
        ).confusions.at(e.idx as int) is None && old(world).player_entity is Some && !in_melee_range(
            old(world).positions.at(e.idx as int).unwrap().pt,
            old(world).player_pos,
        ) && !old(world).fovs.at(e.idx as int).unwrap().visible_tiles@.contains(
            old(world).player_pos,
        ) ==> *final(world) == *old(world),
        old(world).valid(e) && monster_ready(*old(world), e.idx as int) && old(
            world,
        ).confusions.at(e.idx as int) is None && old(world).player_entity is Some && !in_melee_range(
            old(world).positions.at(e.idx as int).unwrap().pt,
            old(world).player_pos,
        ) && old(world).fovs.at(e.idx as int).unwrap().visible_tiles@.contains(
            old(world).player_pos,
        ) ==> match path {
            Some(p) => {
                if p.success && p.steps@.len() > 1 && p.steps@[1] < old(
                    world,
                ).map.spec_tile_count() {
                    &&& *final(world) == (World {
                        positions: final(world).positions,
                        spatial: final(world).spatial,
                        fovs: final(world).fovs,
                        ..*old(world)
                    })
                    &&& final(world).positions.at(e.idx as int) is Some
                    &&& old(world).map.spec_idx_of(
                        final(world).positions.at(e.idx as int).unwrap().pt,
                    ) == p.steps@[1]
                    &&& final(world).fovs.at(e.idx as int) is Some
                    &&& final(world).fovs.at(e.idx as int).unwrap().is_dirty
                } else {
                    *final(world) == *old(world)
                }
            },
            None => *final(world) == *old(world),
        },
        old(world).valid(e) && monster_ready(*old(world), e.idx as int) && old(
            world,
        ).confusions.at(e.idx as int) is None && old(world).player_entity is None ==> *final(world)
            == *old(world),
        crate::world::resources_eq(*old(world), *final(world)),
{
    if !world.is_valid(e) {
        return ;
    }
    let is_monster = world.has_monster(e);
    if !is_monster {
        return ;
    }
    let pos = match world.get_position(e) {
        Some(p) => p,
        None => {
            return ;
        },
    };
    let has_fov = world.has_fov(e);
    if !has_fov {
        return ;
    }
    match world.get_confusion(e) {
        Some(c) => {
            // burn one confusion turn and skip acting
            if c.turns > 1 {
                world.set_confusion(e, Confusion { turns: c.turns - 1 });
            } else {
                world.clear_confusion(e);
            }
            return ;
        },
        None => {},
    }
    let player = match world.player_entity {
        Some(p) => p,
        None => {
            return ;
        },
    };
    let player_pos = world.player_pos;
    if melee_range(pos.pt, player_pos) {
        world.set_wants_melee(e, WantsToMelee { target: player });
        return ;
    }
    let sees = match world.get_fov(e) {
        Some(f) => points_contain(&f.visible_tiles, player_pos),
        None => false,
    };
    if !sees {
        return ;
    }
    match path {
        None => {},
        Some(p) => {
            if p.success && p.steps.len() > 1 {
                let step = p.steps[1];
                let count = world.map.tile_count();
                if step < count {
                    let destination = world.map.index_to_point2d(step);
                    world.set_position(e, destination);
                    match world.get_fov(e) {
                        Some(f) => {
                            let fov = FieldOfView {
                                visible_tiles: copy_points(&f.visible_tiles),
                                radius: f.radius,
                                is_dirty: true,
                            };
                            world.set_fov(e, fov);
                        },
                        None => {},
                    }
                }
            }
        },
    }
}


/// What one monster turn leaves in slot `i`, judged against the state the
/// turn began in: a slot that is no live monster with position and view is
/// untouched; a confused monster burns one turn and neither moves nor
/// attacks; one in melee reach writes the melee intent and stays; one that
/// cannot see the player is untouched; one that sees the player follows a
/// supplied good path by exactly one step with its view dirtied and no melee
/// intent, and is untouched when no good path came.
pub open spec fn acted(pre: World, post: World, i: int, path: Option<NavigationPath>) -> bool {
    if !monster_ready(pre, i) {
        entity_cols_eq_at(pre, post, i)
    } else if pre.confusions.at(i) is Some {
        let turns = pre.confusions.at(i).unwrap().turns;
        &&& post.confusions.at(i) == (if turns > 1 {
            Some(Confusion { turns: (turns - 1) as i32 })
        } else {
            None::<Confusion>
        })
        &&& post.positions.at(i) == pre.positions.at(i)
        &&& post.wants_melee.at(i) == pre.wants_melee.at(i)
        &&& post.fovs.at(i) == pre.fovs.at(i)
    } else if pre.player_entity is None {
        entity_cols_eq_at(pre, post, i)
    } else if in_melee_range(pre.positions.at(i).unwrap().pt, pre.player_pos) {
        &&& post.wants_melee.at(i) == Some(WantsToMelee { target: pre.player_entity.unwrap() })
        &&& post.positions.at(i) == pre.positions.at(i)
        &&& post.confusions.at(i) == pre.confusions.at(i)
        &&& post.fovs.at(i) == pre.fovs.at(i)
    } else if !pre.fovs.at(i).unwrap().visible_tiles@.contains(pre.player_pos) {
        entity_cols_eq_at(pre, post, i)
    } else {
        match path {
            Some(p) => if p.success && p.steps@.len() > 1 && p.steps@[1]
                < pre.map.spec_tile_count() {
                &&& post.positions.at(i) is Some
                &&& pre.map.spec_idx_of(post.positions.at(i).unwrap().pt) == p.steps@[1]
                &&& post.fovs.at(i) is Some
                &&& post.fovs.at(i).unwrap().is_dirty
                &&& post.wants_melee.at(i) == pre.wants_melee.at(i)
                &&& post.confusions.at(i) == pre.confusions.at(i)
            } else {
                entity_cols_eq_at(pre, post, i)
            },
            None => entity_cols_eq_at(pre, post, i),
        }
    }
}

/// The monster AI system.
pub struct MonsterAISystem {}

impl MonsterAISystem {
    /// Run the AI for every monster, in store iteration order, consuming the
    /// paths the outer loop computed for this turn. A no-op unless it is the
    /// monster turn.
    pub fn run(&self, world: &mut World, paths: &Vec<(Entity, NavigationPath)>)
        requires
            old(world).wf(),
        ensures
            final(world).wf(),
            final(world).n() == old(world).n(),
            resources_eq(*old(world), *final(world)),
            !(old(world).turn_state is MonsterTurn) ==> *final(world) == *old(world),
            old(world).turn_state is MonsterTurn ==> forall|i: int|
                0 <= i < old(world).n() ==> #[trigger] acted(
                    *old(world),
                    *final(world),
                    i,
                    spec_lookup(paths@, old(world).entity_at(i)),
                ),
    {
        if !matches!(world.turn_state, crate::turn::TurnState::MonsterTurn) {
            return ;
        }
        let ghost entry = *world;
        let n = world.alive.len();
        let mut i: usize = 0;
        while i < n
            invariant
                world.wf(),
                i <= n,
                n == entry.n(),
                world.n() == entry.n(),
                entry == *old(world),
                world.alive@ == entry.alive@,
                world.gens@ == entry.gens@,
                resources_eq(entry, *world),
                forall|j: int|
                    i <= j < n ==> #[trigger] entity_cols_eq_at(entry, *world, j),
                forall|j: int|
                    0 <= j < i ==> #[trigger] acted(
                        entry,
                        *world,
                        j,
                        spec_lookup(paths@, entry.entity_at(j)),
                    ),
            decreases n - i,
        {
            let ghost step_pre = *world;
            let e = Entity { idx: i, gen: world.gens[i] };
            assert(e == entry.entity_at(i as int));
            let path = lookup_path(paths, e);
            let ghost path_spec = spec_lookup(paths@, e);
            monster_act(world, e, path);
            proof {
                assert(entity_cols_eq_at(entry, step_pre, i as int));
                // slots not yet visited stay exactly as the turn found them
                assert forall|j: int| i + 1 <= j < n implies #[trigger] entity_cols_eq_at(
                    entry,
                    *world,
                    j,
                ) by {
                    assert(entity_cols_eq_at(entry, step_pre, j));
                    assert(entity_cols_eq_at(step_pre, *world, j));
                }
                // slots already acted keep their recorded outcome
                assert forall|j: int| 0 <= j < i implies #[trigger] acted(
                    entry,
                    *world,
                    j,
                    spec_lookup(paths@, entry.entity_at(j)),
                ) by {
                    assert(acted(entry, step_pre, j, spec_lookup(paths@, entry.entity_at(j))));
                    assert(entity_cols_eq_at(step_pre, *world, j));
                }
                // this slot's outcome follows from the per-monster contract,
                // whose conditions over the step state equal the entry state
                assert(step_pre.valid(e) == entry.valid(e));
                assert(monster_ready(step_pre, i as int) == monster_ready(entry, i as int));
                assert(acted(entry, *world, i as int, path_spec));
            }
            i = i + 1;
        }
    }
}

} // verus!

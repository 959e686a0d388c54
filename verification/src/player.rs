//! The player-input system: decoding a key press into a concrete action and
//! carrying that action out against the world.

use vstd::prelude::*;

use crate::components::{
    Entity, EntityMoved, FieldOfView, HungerState, InputKey, Position, WantsToMelee,
    WantsToPickupItem,
};
use crate::effects::{add_effect, EffectSpawner, EffectType, Targets};
use crate::geometry::Point;
use crate::world::World;

verus! {

/// What a round of player input resolved into.
#[derive(Clone, Copy, Debug, PartialEq, Eq, Structural)]
pub enum PlayerInputResult {
    AppQuit,
    Descend,
    TurnDone,
    NoResult,
    ShowDrop,
    ShowRemove,
    ShowInventory,
}


/// Whether the player avatar is set up: the resource names a live entity.
pub open spec fn player_ready(w: World) -> bool {
    match w.player_entity {
        Some(p) => w.valid(p),
        None => false,
    }
}

/// The player resource entity.
pub open spec fn the_player(w: World) -> Entity {
    w.player_entity.unwrap()
}

/// The healing effect a safe rest enqueues.
pub open spec fn rest_heal_spawner(p: Entity) -> EffectSpawner {
    EffectSpawner {
        creator: None,
        effect_type: EffectType::Healing { amount: 1 },
        targets: Targets::Single { target: p },
    }
}

/// Whether some live monster stands on a tile of the given visible set.
pub open spec fn monster_visible(w: World, tiles: Seq<Point>) -> bool {
    exists|k: int, x: Entity|
        0 <= k < tiles.len() && w.map.spec_in_bounds(tiles[k]) && w.spatial.contains_at(
            w.map.spec_idx_of(tiles[k]),
            x,
        ) && w.monsters.at(x.idx as int) is Some
}

/// Whether the player is too hungry to regenerate while resting.
pub open spec fn too_hungry(w: World, p: Entity) -> bool {
    match w.hunger_clocks.at(p.idx as int) {
        Some(hc) => hc.state is Hungry || hc.state is Starving,
        None => false,
    }
}

/// Whether resting heals: no live monster on any visible tile, and the player
/// is not hungry or starving.
pub open spec fn spec_can_heal(w: World, p: Entity, tiles: Seq<Point>) -> bool {
    !monster_visible(w, tiles) && !too_hungry(w, p)
}

/// Whether a live entity with combat stats occupies the destination tile.
pub open spec fn melee_target_at(w: World, t: int) -> bool {
    exists|x: Entity|
        w.spatial.contains_at(t, x) && w.combat_stats.at(x.idx as int) is Some
}


/// Whether the player can attempt a step at all: the avatar is set up,
/// placed, sighted, and the destination lies on the map.
pub open spec fn step_attempted(w: World, delta: Point) -> bool {
    &&& player_ready(w)
    &&& w.positions.at(the_player(w).idx as int) is Some
    &&& w.fovs.at(the_player(w).idx as int) is Some
    &&& 0 <= w.positions.at(the_player(w).idx as int).unwrap().pt.x + delta.x < w.map.width
    &&& 0 <= w.positions.at(the_player(w).idx as int).unwrap().pt.y + delta.y < w.map.height
}

/// The in-bounds tile the step aims at.
pub open spec fn step_dest(w: World, delta: Point) -> Point {
    let pos = w.positions.at(the_player(w).idx as int).unwrap().pt;
    Point { x: (pos.x + delta.x) as i32, y: (pos.y + delta.y) as i32 }
}

/// The full effect of the player trying to step by `delta`. Nothing happens
/// unless the avatar is set up and the destination is on the map. Anything
/// combat-capable on the destination draws a melee intent (and nothing else
/// touches that column). An open destination moves the avatar — Position,
/// player-position resource, moved marker, dirtied view — and a blocked one
/// leaves it exactly in place.
pub open spec fn player_step_applied(pre: World, post: World, delta: Point) -> bool {
    &&& post == (World {
        positions: post.positions,
        spatial: post.spatial,
        fovs: post.fovs,
        wants_melee: post.wants_melee,
        entity_moved: post.entity_moved,
        player_pos: post.player_pos,
        ..pre
    })
    &&& !player_ready(pre) ==> post == pre
    &&& player_ready(pre) && !(pre.positions.at(the_player(pre).idx as int) is Some
        && pre.fovs.at(the_player(pre).idx as int) is Some) ==> post == pre
    &&& player_ready(pre) && pre.positions.at(the_player(pre).idx as int) is Some && pre.fovs.at(
        the_player(pre).idx as int,
    ) is Some && !step_attempted(pre, delta) ==> post == pre
    &&& step_attempted(pre, delta) ==> {
        let p = the_player(pre);
        let dest = step_dest(pre, delta);
        let dest_idx = pre.map.spec_idx_of(dest);
        &&& ((forall|x: Entity|
            pre.spatial.contains_at(dest_idx, x) ==> pre.combat_stats.at(
                x.idx as int,
            ) is None) ==> post.wants_melee == pre.wants_melee)
        &&& ((exists|x: Entity|
            pre.spatial.contains_at(dest_idx, x) && pre.combat_stats.at(x.idx as int) is Some)
            ==> exists|x: Entity|
            {
                &&& pre.spatial.contains_at(dest_idx, x)
                &&& pre.combat_stats.at(x.idx as int) is Some
                &&& #[trigger] post.wants_melee.slots@ == pre.wants_melee.slots@.update(
                    p.idx as int,
                    Some(crate::components::WantsToMelee { target: x }),
                )
            })
        &&& (!pre.map.tiles@[dest_idx].blocked ==> {
            &&& post.positions.at(p.idx as int) == Some(Position { pt: dest })
            &&& post.player_pos == dest
            &&& post.entity_moved.at(p.idx as int) is Some
            &&& post.fovs.at(p.idx as int) is Some
            &&& post.fovs.at(p.idx as int).unwrap().is_dirty
        })
        &&& (pre.map.tiles@[dest_idx].blocked ==> {
            &&& post.positions.at(p.idx as int) == pre.positions.at(p.idx as int)
            &&& post.player_pos == pre.player_pos
            &&& post.entity_moved.at(p.idx as int) == pre.entity_moved.at(p.idx as int)
            &&& post.fovs.at(p.idx as int) == pre.fovs.at(p.idx as int)
            &&& post.positions == pre.positions
        })
    }
}

/// Whether the player, standing at `pos`, can step by `delta` onto an open
/// in-bounds tile of `w`.
pub open spec fn step_is_open(w: World, pos: Point, delta: Point) -> bool {
    &&& 0 <= pos.x + delta.x < w.map.width
    &&& 0 <= pos.y + delta.y < w.map.height
    &&& !w.map.tiles@[(pos.y + delta.y) * w.map.width + (pos.x + delta.x)].blocked
}

/// Move the player avatar one step, opening a melee intent instead against
/// anything combat-capable standing in the way. A blocked destination leaves
/// the player in place; a successful step moves the Position and the spatial
/// index together, marks the field of view dirty, records the move, and
/// updates the shared player-position resource.
pub fn try_move_player(world: &mut World, delta_pt: Point)
    requires
        old(world).wf(),
    ensures
        final(world).wf(),
        player_step_applied(*old(world), *final(world), delta_pt),
{
    let p = match world.player_entity {
        Some(p) => p,
        None => {
            return ;
        },
    };
    if !world.is_valid(p) {
        return ;
    }
    let pos = match world.get_position(p) {
        Some(pos) => pos,
        None => {
            return ;
        },
    };
    let has_fov = world.has_fov(p);
    if !has_fov {
        return ;
    }
    let dx: i64 = (pos.pt.x as i64) + (delta_pt.x as i64);
    let dy: i64 = (pos.pt.y as i64) + (delta_pt.y as i64);
    proof {
        assert(world.map.width <= 0x4000_0000 && world.map.height <= 0x4000_0000)
            by (nonlinear_arith)
            requires
                0 < world.map.width,
                0 < world.map.height,
                world.map.width * world.map.height <= 0x4000_0000,
        ;
    }
    if dx < 0 || dy < 0 || dx >= (world.map.width as i64) || dy >= (world.map.height as i64) {
        proof {
            let w0 = *old(world);
            if step_attempted(w0, delta_pt) {
                assert(the_player(w0) == p);
                assert(w0.positions.at(p.idx as int).unwrap().pt == pos.pt);
                assert(0 <= pos.pt.x + delta_pt.x < w0.map.width);
                assert(0 <= pos.pt.y + delta_pt.y < w0.map.height);
                assert(dx == pos.pt.x + delta_pt.x);
                assert(dy == pos.pt.y + delta_pt.y);
                assert(false);
            }
        }
        return ;
    }
    let ghost pre = *world;
    let destination = Point { x: dx as i32, y: dy as i32 };
    assert(world.map.spec_in_bounds(destination));
    assert(destination == step_dest(pre, delta_pt));
    let destination_idx = world.map.point2d_to_index(destination);
    // melee check against whatever combat-capable thing stands there
    let content = world.spatial.occupants_at(destination_idx);
    let n = content.len();
    let mut i: usize = 0;
    while i < n
        invariant
            world.wf(),
            pre.wf(),
            i <= n,
            n == content@.len(),
            content@ == pre.spatial.at(destination_idx as int),
            world.valid(p),
            pre.valid(p),
            *world == (World { wants_melee: world.wants_melee, ..pre }),
            (forall|j: int|
                0 <= j < i ==> pre.combat_stats.at(
                    (#[trigger] content@[j]).idx as int,
                ) is None) ==> world.wants_melee == pre.wants_melee,
            (exists|j: int|
                0 <= j < i && pre.combat_stats.at((#[trigger] content@[j]).idx as int) is Some)
                ==> exists|x: Entity|
                {
                    &&& pre.spatial.contains_at(destination_idx as int, x)
                    &&& pre.combat_stats.at(x.idx as int) is Some
                    &&& #[trigger] world.wants_melee.slots@ == pre.wants_melee.slots@.update(
                        p.idx as int,
                        Some(WantsToMelee { target: x }),
                    )
                },
        decreases n - i,
    {
        let potential_target = content[i];
        let has_stats = world.get_combat_stats(potential_target);
        match has_stats {
            Some(_) => {
                world.set_wants_melee(p, WantsToMelee { target: potential_target });
                proof {
                    assert(pre.spatial.at(destination_idx as int)[i as int] == potential_target);
                    assert(pre.spatial.contains_at(destination_idx as int, potential_target));
                    assert(pre.combat_stats.at(potential_target.idx as int) is Some);
                }
            },
            None => {
                proof {
                    let x = content@[i as int];
                    assert(pre.spatial.at(destination_idx as int)[i as int] == x);
                    assert(pre.spatial.contains_at(destination_idx as int, x));
                    assert(pre.valid(x));
                    assert(world.valid(x));
                    assert(pre.combat_stats.at(x.idx as int) is None);
                }
            },
        }
        i = i + 1;
    }
    proof {
        // the snapshot is exactly the occupant set: membership both ways
        if exists|x: Entity|
            pre.spatial.contains_at(destination_idx as int, x) && pre.combat_stats.at(
                x.idx as int,
            ) is Some {
            let x = choose|x: Entity|
                pre.spatial.contains_at(destination_idx as int, x) && pre.combat_stats.at(
                    x.idx as int,
                ) is Some;
            let j = choose|j: int|
                0 <= j < pre.spatial.at(destination_idx as int).len() && pre.spatial.at(
                    destination_idx as int,
                )[j] == x;
            assert(content@[j] == x);
        }
    }
    if world.map.can_enter_tile(destination) {
        world.set_position(p, destination);
        let fov = match world.get_fov(p) {
            Some(f) => FieldOfView {
                visible_tiles: crate::player::copy_points(&f.visible_tiles),
                radius: f.radius,
                is_dirty: true,
            },
            None => {
                proof {
                    assert(false);
                }
                return ;
            },
        };
        world.set_fov(p, fov);
        world.set_entity_moved(p, EntityMoved {});
        world.player_pos = destination;
    }
}

/// A fresh copy of a point list.
pub fn copy_points(v: &Vec<Point>) -> (r: Vec<Point>)
    ensures
        r@ == v@,
{
    let mut r: Vec<Point> = Vec::new();
    let n = v.len();
    let mut i: usize = 0;
    while i < n
        invariant
            i <= n,
            n == v@.len(),
            r@ == v@.subrange(0, i as int),
        decreases n - i,
    {
        r.push(v[i]);
        assert(r@ == v@.subrange(0, i + 1 as int));
        i = i + 1;
    }
    assert(v@.subrange(0, n as int) == v@);
    r
}

/// Whether slot `i` holds a live item lying at `pt`.
pub open spec fn item_at(w: World, i: int, pt: Point) -> bool {
    &&& 0 <= i < w.n()
    &&& w.alive@[i]
    &&& w.items.at(i) is Some
    &&& w.positions.at(i) == Some(Position { pt })
}

/// Pick up whatever item lies under the player: writes a pickup intent, or
/// reports through the narrative log that there is nothing here — a
/// successful no-op, not an error.
pub fn get_item(world: &mut World)
    requires
        old(world).wf(),
        player_ready(*old(world)),
    ensures
        final(world).wf(),
        *final(world) == (World {
            wants_pickup: final(world).wants_pickup,
            log: final(world).log,
            ..*old(world)
        }),
        (exists|i: int| item_at(*old(world), i, old(world).player_pos)) ==> {
            &&& final(world).log@ == old(world).log@
            &&& exists|i: int|
                item_at(*old(world), i, old(world).player_pos) && (forall|j: int|
                    0 <= j < i ==> !item_at(*old(world), j, old(world).player_pos))
                    && final(world).wants_pickup.slots@ == old(world).wants_pickup.slots@.update(
                    the_player(*old(world)).idx as int,
                    Some(
                        WantsToPickupItem {
                            collected_by: the_player(*old(world)),
                            item: old(world).entity_at(i),
                        },
                    ),
                )
        },
        !(exists|i: int| item_at(*old(world), i, old(world).player_pos)) ==> {
            &&& final(world).wants_pickup == old(world).wants_pickup
            &&& final(world).log@.len() == old(world).log@.len() + 1
        },
        pickup_applied(*old(world), *final(world)),
{
    let ghost pre = *world;
    let player = match world.player_entity {
        Some(p) => p,
        None => {
            return ;
        },
    };
    let player_pos = world.player_pos;
    let n = world.alive.len();
    let mut target_item: Option<Entity> = None;
    let ghost witness: int = 0;
    let mut i: usize = 0;
    while i < n
        invariant
            world.wf(),
            *world == pre,
            i <= n,
            n == pre.n(),
            match target_item {
                Some(it) => item_at(pre, witness, player_pos) && it == pre.entity_at(witness)
                    && (forall|j: int| 0 <= j < witness ==> !item_at(pre, j, player_pos)),
                None => forall|j: int| 0 <= j < i ==> !item_at(pre, j, player_pos),
            },
            target_item is Some ==> i == n,
        decreases n - i,
    {
        let e = Entity { idx: i, gen: world.gens[i] };
        if world.has_item(e) {
            match world.get_position(e) {
                Some(pos) => {
                    if pos.pt.x == player_pos.x && pos.pt.y == player_pos.y {
                        assert(pos.pt == player_pos);
                        target_item = Some(e);
                        proof {
                            witness = i as int;
                        }
                        assert(item_at(pre, i as int, player_pos));
                        i = n;
                    } else {
                        i = i + 1;
                    }
                },
                None => {
                    i = i + 1;
                },
            }
        } else {
            i = i + 1;
        }
    }
    match target_item {
        None => {
            assert(forall|j: int| 0 <= j < pre.n() ==> !item_at(pre, j, player_pos));
            world.log_message("There is nothing here to pick up.".to_owned());
        },
        Some(item) => {
            world.set_wants_pickup(
                player,
                WantsToPickupItem { collected_by: player, item },
            );
        },
    }
}

/// Whether the stairs down lie under the player.
pub open spec fn on_stairs_down(w: World) -> bool {
    w.map.tiles@[w.map.spec_idx_of(w.player_pos)].tile_type is StairsDown
}

/// True when the player stands on the stairs down; otherwise reports through
/// the narrative log that there is no way down — a successful no-op.
pub fn try_next_level(world: &mut World) -> (r: bool)
    requires
        old(world).wf(),
        old(world).map.spec_in_bounds(old(world).player_pos),
    ensures
        final(world).wf(),
        r == on_stairs_down(*old(world)),
        r ==> *final(world) == *old(world),
        !r ==> *final(world) == (World { log: final(world).log, ..*old(world) })
            && final(world).log@.len() == old(world).log@.len() + 1,
        descend_checked(*old(world), *final(world), r),
{
    let player_idx = world.map.point2d_to_index(world.player_pos);
    let is_stairs = matches!(world.map.tiles[player_idx].tile_type, crate::tile::TileType::StairsDown);
    if is_stairs {
        true
    } else {
        world.log_message("There is no way down from here.".to_owned());
        false
    }
}

/// Rest for a turn. Resting heals one hit point — but only when no monster is
/// anywhere in the player's view and the player is not hungry or starving.
/// The healing goes through the effect queue like every other mutation.
pub fn skip_turn(world: &mut World) -> (r: PlayerInputResult)
    requires
        old(world).wf(),
        player_ready(*old(world)),
        old(world).fovs.at(the_player(*old(world)).idx as int) is Some,
    ensures
        final(world).wf(),
        r is TurnDone,
        *final(world) == (World { queue: final(world).queue, ..*old(world) }),
        spec_can_heal(
            *old(world),
            the_player(*old(world)),
            old(world).fovs.at(the_player(*old(world)).idx as int).unwrap().visible_tiles@,
        ) ==> final(world).queue@ == old(world).queue@.push(
            rest_heal_spawner(the_player(*old(world))),
        ),
        !spec_can_heal(
            *old(world),
            the_player(*old(world)),
            old(world).fovs.at(the_player(*old(world)).idx as int).unwrap().visible_tiles@,
        ) ==> final(world).queue@ == old(world).queue@,
        rest_applied(*old(world), *final(world)),
{
    let ghost pre = *world;
    let player = match world.player_entity {
        Some(p) => p,
        None => {
            return PlayerInputResult::TurnDone;
        },
    };
    let tiles = match world.get_fov(player) {
        Some(f) => copy_points(&f.visible_tiles),
        None => {
            return PlayerInputResult::TurnDone;
        },
    };
    let ghost tile_seq = pre.fovs.at(player.idx as int).unwrap().visible_tiles@;
    assert(tiles@ == tile_seq);
    let mut can_heal = true;
    let n = tiles.len();
    let mut k: usize = 0;
    while k < n
        invariant
            world.wf(),
            *world == pre,
            k <= n,
            n == tile_seq.len(),
            tiles@ == tile_seq,
            can_heal ==> forall|kk: int, x: Entity|
                !(0 <= kk < k && pre.map.spec_in_bounds(tile_seq[kk]) && pre.spatial.contains_at(
                    pre.map.spec_idx_of(tile_seq[kk]),
                    x,
                ) && pre.monsters.at(x.idx as int) is Some),
            !can_heal ==> monster_visible(pre, tile_seq),
        decreases n - k,
    {
        let pt = tiles[k];
        if world.map.in_bounds(pt) {
            let idx = world.map.point2d_to_index(pt);
            let content = world.spatial.occupants_at(idx);
            let m = content.len();
            let mut j: usize = 0;
            while j < m
                invariant
                    world.wf(),
                    *world == pre,
                    j <= m,
                    k < n,
                    n == tile_seq.len(),
                    m == content@.len(),
                    content@ == pre.spatial.at(pre.map.spec_idx_of(tile_seq[k as int])),
                    pre.map.spec_in_bounds(tile_seq[k as int]),
                    can_heal ==> forall|kk: int, x: Entity|
                        !(0 <= kk < k && pre.map.spec_in_bounds(tile_seq[kk])
                            && pre.spatial.contains_at(pre.map.spec_idx_of(tile_seq[kk]), x)
                            && pre.monsters.at(x.idx as int) is Some),
                    can_heal ==> forall|jj: int|
                        0 <= jj < j ==> pre.monsters.at(content@[jj].idx as int) is None,
                    !can_heal ==> monster_visible(pre, tile_seq),
                decreases m - j,
            {
                let occupant = content[j];
                if world.has_monster(occupant) {
                    proof {
                        assert(pre.spatial.contains_at(
                            pre.map.spec_idx_of(tile_seq[k as int]),
                            occupant,
                        ));
                    }
                    can_heal = false;
                } else {
                    proof {
                        if pre.monsters.at(occupant.idx as int) is Some {
                            assert(pre.spatial.contains_at(
                                pre.map.spec_idx_of(tile_seq[k as int]),
                                occupant,
                            ));
                            assert(pre.valid(occupant));
                        }
                    }
                }
                j = j + 1;
            }
        }
        k = k + 1;
    }
    match world.get_hunger_clock(player) {
        Some(hc) => {
            match hc.state {
                HungerState::Hungry => {
                    can_heal = false;
                },
                HungerState::Starving => {
                    can_heal = false;
                },
                _ => {},
            }
        },
        None => {},
    }
    if can_heal {
        add_effect(
            world,
            None,
            EffectType::Healing { amount: 1 },
            Targets::Single { target: player },
        );
    }
    PlayerInputResult::TurnDone
}


/// The full effect of trying to pick up: if some live item lies under the
/// player, the pickup intent for the lowest-slot such item is written and the
/// log is untouched; otherwise only the narrative log grows by one line.
pub open spec fn pickup_applied(pre: World, post: World) -> bool {
    &&& post == (World { wants_pickup: post.wants_pickup, log: post.log, ..pre })
    &&& (exists|i: int| item_at(pre, i, pre.player_pos)) ==> {
        &&& post.log@ == pre.log@
        &&& exists|i: int|
            item_at(pre, i, pre.player_pos) && (forall|j: int|
                0 <= j < i ==> !item_at(pre, j, pre.player_pos)) && #[trigger] post.wants_pickup.slots@
                == pre.wants_pickup.slots@.update(
                the_player(pre).idx as int,
                Some(
                    WantsToPickupItem {
                        collected_by: the_player(pre),
                        item: pre.entity_at(i),
                    },
                ),
            )
    }
    &&& !(exists|i: int| item_at(pre, i, pre.player_pos)) ==> {
        &&& post.wants_pickup == pre.wants_pickup
        &&& post.log@.len() == pre.log@.len() + 1
    }
}

/// The full effect of resting: exactly one healing effect for the player
/// joins the queue's tail when resting is safe, and nothing at all otherwise.
pub open spec fn rest_applied(pre: World, post: World) -> bool {
    &&& post == (World { queue: post.queue, ..pre })
    &&& spec_can_heal(
        pre,
        the_player(pre),
        pre.fovs.at(the_player(pre).idx as int).unwrap().visible_tiles@,
    ) ==> post.queue@ == pre.queue@.push(rest_heal_spawner(the_player(pre)))
    &&& !spec_can_heal(
        pre,
        the_player(pre),
        pre.fovs.at(the_player(pre).idx as int).unwrap().visible_tiles@,
    ) ==> post.queue@ == pre.queue@
}

/// The full effect of checking the stairs: standing on them changes nothing
/// and descends; anywhere else only the narrative log grows by one line.
pub open spec fn descend_checked(pre: World, post: World, descended: bool) -> bool {
    &&& descended == on_stairs_down(pre)
    &&& descended ==> post == pre
    &&& !descended ==> post == (World { log: post.log, ..pre }) && post.log@.len() == pre.log@.len()
        + 1
}

/// The result player input resolves to, by key.
pub open spec fn spec_input_result(w: World, key: Option<InputKey>) -> PlayerInputResult {
    match key {
        None => PlayerInputResult::NoResult,
        Some(k) => match k {
            InputKey::Escape => PlayerInputResult::AppQuit,
            InputKey::I => PlayerInputResult::ShowInventory,
            InputKey::D => PlayerInputResult::ShowDrop,
            InputKey::R => PlayerInputResult::ShowRemove,
            InputKey::Period | InputKey::Return => if on_stairs_down(w) {
                PlayerInputResult::Descend
            } else {
                PlayerInputResult::TurnDone
            },
            InputKey::Left | InputKey::Right | InputKey::Up | InputKey::Down | InputKey::Numpad1
                | InputKey::Numpad2 | InputKey::Numpad3 | InputKey::Numpad4 | InputKey::Numpad6
                | InputKey::Numpad7 | InputKey::Numpad8 | InputKey::Numpad9 | InputKey::H
                | InputKey::J | InputKey::K | InputKey::L | InputKey::U | InputKey::Y | InputKey::N
                | InputKey::B | InputKey::G | InputKey::Numpad5 | InputKey::Space
                => PlayerInputResult::TurnDone,
            _ => PlayerInputResult::NoResult,
        },
    }
}

/// The step a movement key maps to, if it is one.
pub open spec fn move_delta(k: InputKey) -> Option<Point> {
    match k {
        InputKey::Left | InputKey::Numpad4 | InputKey::H => Some(Point { x: -1i32, y: 0 }),
        InputKey::Right | InputKey::Numpad6 | InputKey::L => Some(Point { x: 1, y: 0 }),
        InputKey::Up | InputKey::Numpad8 | InputKey::K => Some(Point { x: 0, y: -1i32 }),
        InputKey::Down | InputKey::Numpad2 | InputKey::J => Some(Point { x: 0, y: 1 }),
        InputKey::Numpad9 | InputKey::U => Some(Point { x: 1, y: -1i32 }),
        InputKey::Numpad7 | InputKey::Y => Some(Point { x: -1i32, y: -1i32 }),
        InputKey::Numpad3 | InputKey::N => Some(Point { x: 1, y: 1 }),
        InputKey::Numpad1 | InputKey::B => Some(Point { x: -1i32, y: 1 }),
        _ => None,
    }
}

/// Decode one round of player input into an action and carry it out: movement
/// and diagonals, item pickup, the inventory screens, the stairs, resting, or
/// quitting. A key that maps to no action resolves to NoResult and changes
/// nothing; so do the keys that only switch screens.
pub fn player_input(world: &mut World, key: Option<InputKey>) -> (r: PlayerInputResult)
    requires
        old(world).wf(),
        player_ready(*old(world)),
        old(world).map.spec_in_bounds(old(world).player_pos),
        old(world).fovs.at(the_player(*old(world)).idx as int) is Some,
    ensures
        final(world).wf(),
        r == spec_input_result(*old(world), key),
        match key {
            Some(k) => match move_delta(k) {
                Some(delta) => player_step_applied(*old(world), *final(world), delta),
                None => match k {
                    InputKey::G => pickup_applied(*old(world), *final(world)),
                    InputKey::Numpad5 | InputKey::Space => rest_applied(
                        *old(world),
                        *final(world),
                    ),
                    InputKey::Period | InputKey::Return => descend_checked(
                        *old(world),
                        *final(world),
                        r is Descend,
                    ),
                    _ => *final(world) == *old(world),
                },
            },
            None => *final(world) == *old(world),
        },
{
    match key {
        None => PlayerInputResult::NoResult,
        Some(k) => match k {
            InputKey::Escape => PlayerInputResult::AppQuit,
            InputKey::Left | InputKey::Numpad4 | InputKey::H => {
                try_move_player(world, Point { x: -1, y: 0 });
                PlayerInputResult::TurnDone
            },
            InputKey::Right | InputKey::Numpad6 | InputKey::L => {
                try_move_player(world, Point { x: 1, y: 0 });
                PlayerInputResult::TurnDone
            },
            InputKey::Up | InputKey::Numpad8 | InputKey::K => {
                try_move_player(world, Point { x: 0, y: -1 });
                PlayerInputResult::TurnDone
            },
            InputKey::Down | InputKey::Numpad2 | InputKey::J => {
                try_move_player(world, Point { x: 0, y: 1 });
                PlayerInputResult::TurnDone
            },
            InputKey::Numpad9 | InputKey::U => {
                try_move_player(world, Point { x: 1, y: -1 });
                PlayerInputResult::TurnDone
            },
            InputKey::Numpad7 | InputKey::Y => {
                try_move_player(world, Point { x: -1, y: -1 });
                PlayerInputResult::TurnDone
            },
            InputKey::Numpad3 | InputKey::N => {
                try_move_player(world, Point { x: 1, y: 1 });
                PlayerInputResult::TurnDone
            },
            InputKey::Numpad1 | InputKey::B => {
                try_move_player(world, Point { x: -1, y: 1 });
                PlayerInputResult::TurnDone
            },
            InputKey::G => {
                get_item(world);
                PlayerInputResult::TurnDone
            },
            InputKey::I => PlayerInputResult::ShowInventory,
            InputKey::D => PlayerInputResult::ShowDrop,
            InputKey::R => PlayerInputResult::ShowRemove,
            InputKey::Period | InputKey::Return => {
                if try_next_level(world) {
                    PlayerInputResult::Descend
                } else {
                    PlayerInputResult::TurnDone
                }
            },
            InputKey::Numpad5 | InputKey::Space => skip_turn(world),
            _ => PlayerInputResult::NoResult,
        },
    }
}

} // verus!

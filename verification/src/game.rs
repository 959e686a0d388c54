//! Overworld turn handling: the player step that can open doors, trigger
//! tiles under the player, and the application of a freshly computed field of
//! view to the map.

use vstd::prelude::*;
use crate::components::{FieldOfView, InputKey, Position, TriggerType};
use crate::geometry::Point;
use crate::player::{copy_points, player_ready, the_player};
use crate::tile::GLYPH_FLOOR;
use crate::turn::NewState;
use crate::world::World;

verus! {

/// Whether slot `i` holds a live door entity standing at `pt`.
pub open spec fn door_at(w: World, i: int, pt: Point) -> bool {
    &&& 0 <= i < w.n()
    &&& w.alive@[i]
    &&& w.doors.at(i) is Some
    &&& w.positions.at(i) is Some
    &&& w.positions.at(i).unwrap().pt == pt
}


/// The full effect of the overworld step. The avatar only moves onto an open
/// in-bounds destination, turning the tick over to the enemies; a closed
/// door on the destination opens instead — unblocked, see-through, a plain
/// floor glyph, the flag down and every door entity on it deleted — while
/// the avatar stays put; anything else changes nothing. The queue, the
/// scheduler, the trace, the log and the counters never move.
pub open spec fn try_move_applied(pre: World, post: World, delta_x: i32, delta_y: i32, res: NewState) -> bool {
    &&& (res is Wait || res is Enemy)
    &&& post.queue@ == pre.queue@
    &&& post.processed@ == pre.processed@
    &&& post.turn_state == pre.turn_state
    &&& post.log@ == pre.log@
    &&& post.player_entity == pre.player_entity
    &&& post.turn_count == pre.turn_count
    &&& post.damage_taken == pre.damage_taken
    &&& post.damage_inflicted == pre.damage_inflicted
    &&& !player_ready(pre) ==> post == pre && res is Wait
    &&& player_ready(pre) && pre.positions.at(the_player(pre).idx as int) is None ==> post == pre
        && res is Wait
    &&& player_ready(pre) && pre.positions.at(the_player(pre).idx as int) is Some && !({
        let pos = pre.positions.at(the_player(pre).idx as int).unwrap().pt;
        0 <= pos.x + delta_x < pre.map.width && 0 <= pos.y + delta_y < pre.map.height
    }) ==> post == pre && res is Wait
    &&& player_ready(pre) && pre.positions.at(the_player(pre).idx as int) is Some && ({
        let pos = pre.positions.at(the_player(pre).idx as int).unwrap().pt;
        &&& 0 <= pos.x + delta_x < pre.map.width
        &&& 0 <= pos.y + delta_y < pre.map.height
    }) ==> {
        let pos = pre.positions.at(the_player(pre).idx as int).unwrap().pt;
        let dest = Point { x: (pos.x + delta_x) as i32, y: (pos.y + delta_y) as i32 };
        let idx = pre.map.spec_idx_of(dest);
        if !pre.map.tiles@[idx].blocked {
            &&& res is Enemy
            &&& post.map == pre.map
            &&& post.positions.at(the_player(pre).idx as int) == Some(Position { pt: dest })
            &&& post.player_pos == dest
            &&& post == (World {
                positions: post.positions,
                spatial: post.spatial,
                fovs: post.fovs,
                player_pos: post.player_pos,
                ..pre
            })
        } else if pre.map.is_door@[idx] {
            &&& res is Wait
            &&& post.map.is_door@ == pre.map.is_door@.update(idx, false)
            &&& post.map.tiles@ == pre.map.tiles@.update(idx, post.map.tiles@[idx])
            &&& !post.map.tiles@[idx].blocked
            &&& !post.map.tiles@[idx].opaque
            &&& post.map.tiles@[idx].glyph == crate::tile::GLYPH_FLOOR
            &&& (forall|i: int| !door_at(post, i, dest))
            &&& (!door_at(pre, the_player(pre).idx as int, dest) ==> post.positions.at(
                the_player(pre).idx as int,
            ) == pre.positions.at(the_player(pre).idx as int))
            &&& post.player_pos == pre.player_pos
        } else {
            post == pre && res is Wait
        }
    }
}

/// Step the player by a delta. An open destination moves the player (and
/// hands the turn to the enemies); a closed door on the destination is opened
/// instead — the tile unblocks, stops being a door, and every door entity on
/// it is deleted — and the turn is not spent; anything else is a no-op wait.
pub fn try_move(world: &mut World, delta_x: i32, delta_y: i32) -> (r: NewState)
    requires
        old(world).wf(),
    ensures
        final(world).wf(),
        try_move_applied(*old(world), *final(world), delta_x, delta_y, r),
{
    let p = match world.player_entity {
        Some(p) => p,
        None => {
            return NewState::Wait;
        },
    };
    if !world.is_valid(p) {
        return NewState::Wait;
    }
    let pos = match world.get_position(p) {
        Some(pos) => pos,
        None => {
            return NewState::Wait;
        },
    };
    let dx: i64 = (pos.pt.x as i64) + (delta_x as i64);
    let dy: i64 = (pos.pt.y as i64) + (delta_y as i64);
    proof {
        assert(world.map.width <= 0x4000_0000 && world.map.height <= 0x4000_0000)
            by (nonlinear_arith)
            requires
                0 < world.map.width,
                0 < world.map.height,
                world.map.width * world.map.height <= 0x4000_0000,
        ;
    }
    if dx < 0 || dy < 0 || dx >= (world.map.width as i64) || dy >= (world.map.height as i64) {
        return NewState::Wait;
    }
    let new_pos = Point { x: dx as i32, y: dy as i32 };
    let new_idx = world.map.point2d_to_index(new_pos);
    if !world.map.tiles[new_idx].blocked {
        world.set_position(p, new_pos);
        world.player_pos = new_pos;
        match world.get_fov(p) {
            Some(f) => {
                let fov = FieldOfView {
                    visible_tiles: copy_points(&f.visible_tiles),
                    radius: f.radius,
                    is_dirty: true,
                };
                world.set_fov(p, fov);
            },
            None => {},
        }
        proof {
            assert(try_move_applied(*old(world), *world, delta_x, delta_y, NewState::Enemy));
        }
        NewState::Enemy
    } else if world.map.is_door[new_idx] {
        // open the door in place
        world.map.is_door.set(new_idx, false);
        let mut tile = crate::tile::Tile::floor();
        tile.glyph = GLYPH_FLOOR;
        world.map.set_tile(new_idx, tile);
        // delete every door entity standing on the opened tile
        let ghost opened = *world;
        let n = world.alive.len();
        let mut i: usize = 0;
        while i < n
            invariant
                world.wf(),
                i <= n,
                n == world.n(),
                world.map == opened.map,
                crate::world::resources_eq(opened, *world),
                opened.valid(p),
                !door_at(opened, p.idx as int, new_pos) ==> world.valid(p)
                    && crate::world::entity_cols_eq_at(opened, *world, p.idx as int),
                forall|j: int| 0 <= j < i ==> !door_at(*world, j, new_pos),
            decreases n - i,
        {
            let ghost step_pre = *world;
            let e = crate::components::Entity { idx: i, gen: world.gens[i] };
            if world.has_door(e) {
                match world.get_position(e) {
                    Some(door_pos) => {
                        if door_pos.pt.x == new_pos.x && door_pos.pt.y == new_pos.y {
                            proof {
                                if !door_at(opened, p.idx as int, new_pos) && e.idx == p.idx {
                                    assert(crate::world::entity_cols_eq_at(
                                        opened,
                                        step_pre,
                                        p.idx as int,
                                    ));
                                    assert(step_pre.valid(e) && step_pre.valid(p));
                                    assert(e == p);
                                    assert(opened.doors.at(p.idx as int) is Some);
                                    assert(opened.positions.at(p.idx as int) == Some(door_pos));
                                    assert(door_pos.pt == new_pos);
                                    assert(door_at(opened, p.idx as int, new_pos));
                                    assert(false);
                                }
                            }
                            let _ = world.delete_entity(e);
                            proof {
                                if !door_at(opened, p.idx as int, new_pos) {
                                    assert(e.idx != p.idx);
                                    assert(crate::world::entity_cols_eq_at(
                                        step_pre,
                                        *world,
                                        p.idx as int,
                                    ));
                                    assert(crate::world::entity_cols_eq_at(
                                        opened,
                                        *world,
                                        p.idx as int,
                                    ));
                                    assert(step_pre.valid(p) && p != e);
                                    assert(world.valid(p));
                                }
                                assert forall|j: int| 0 <= j < i + 1 implies !door_at(
                                    *world,
                                    j,
                                    new_pos,
                                ) by {
                                    if j == i as int {
                                        assert(!world.alive@[j]);
                                    } else {
                                        assert(!door_at(step_pre, j, new_pos));
                                        assert(crate::world::entity_cols_eq_at(
                                            step_pre,
                                            *world,
                                            j,
                                        ));
                                    }
                                }
                            }
                        } else {
                            proof {
                                assert forall|j: int| 0 <= j < i + 1 implies !door_at(
                                    *world,
                                    j,
                                    new_pos,
                                ) by {
                                    if j == i as int {
                                        assert(world.positions.at(j).unwrap().pt != new_pos);
                                    }
                                }
                            }
                        }
                    },
                    None => {},
                }
            } else {
                proof {
                    assert forall|j: int| 0 <= j < i + 1 implies !door_at(*world, j, new_pos) by {
                        if j == i as int {
                            if world.alive@[j] && world.doors.at(j) is Some {
                                assert(world.valid(e));
                                assert(false);
                            }
                        }
                    }
                }
            }
            i = i + 1;
        }
        proof {
            assert forall|j: int| !door_at(*world, j, new_pos) by {
                if 0 <= j < world.n() {
                } else {
                }
            }
        }
        NewState::Wait
    } else {
        NewState::Wait
    }
}


/// The overworld step a key maps to, if it is one of the four move keys.
pub open spec fn overworld_delta(k: InputKey) -> Option<Point> {
    match k {
        InputKey::Up | InputKey::W => Some(Point { x: 0, y: -1i32 }),
        InputKey::Down | InputKey::A => Some(Point { x: 0, y: 1 }),
        InputKey::Left | InputKey::S => Some(Point { x: -1i32, y: 0 }),
        InputKey::Right | InputKey::D => Some(Point { x: 1, y: 0 }),
        _ => None,
    }
}

/// What a raw overworld result becomes once the trigger under the player has
/// had its say: a wait on an end-game trigger leaves the map.
pub open spec fn trigger_adjusted(w: World, tm: NewState) -> NewState {
    if tm is Wait && (exists|i: int| trigger_at(w, i, w.player_pos)) {
        NewState::LeftMap
    } else {
        tm
    }
}

/// One overworld player turn: a movement key steps the player (possibly
/// opening a door), anything else waits; then the trigger under the player,
/// if any, gets its say. Rendering of tooltips stays with the presentation
/// layer.
pub fn player_turn(world: &mut World, key: Option<InputKey>) -> (r: NewState)
    requires
        old(world).wf(),
    ensures
        final(world).wf(),
        r is Wait || r is Enemy || r is LeftMap,
        match key {
            Some(k) => match overworld_delta(k) {
                Some(delta) => exists|tm: NewState|
                    #[trigger] try_move_applied(*old(world), *final(world), delta.x, delta.y, tm)
                        && r == trigger_adjusted(*final(world), tm),
                None => *final(world) == *old(world) && r == trigger_adjusted(
                    *old(world),
                    NewState::Wait,
                ),
            },
            None => *final(world) == *old(world) && r == trigger_adjusted(
                *old(world),
                NewState::Wait,
            ),
        },
{
    let mut new_state = match key {
        Some(k) => match k {
            InputKey::Up | InputKey::W => try_move(world, 0, -1),
            InputKey::Down | InputKey::A => try_move(world, 0, 1),
            InputKey::Left | InputKey::S => try_move(world, -1, 0),
            InputKey::Right | InputKey::D => try_move(world, 1, 0),
            _ => NewState::Wait,
        },
        None => NewState::Wait,
    };
    let ghost tm = new_state;
    tile_triggers(&mut new_state, world);
    proof {
        assert(new_state == trigger_adjusted(*world, tm));
        match key {
            Some(k) => {
                match overworld_delta(k) {
                    Some(d) => {
                        assert(try_move_applied(*old(world), *world, d.x, d.y, tm));
                    },
                    None => {},
                }
            },
            None => {},
        }
    }
    new_state
}

/// Whether slot `i` holds a live end-game trigger standing at `pt`.
pub open spec fn trigger_at(w: World, i: int, pt: Point) -> bool {
    &&& 0 <= i < w.n()
    &&& w.alive@[i]
    &&& w.tile_triggers.at(i) == Some(
        crate::components::TileTrigger { trigger: TriggerType::EndGame },
    )
    &&& w.positions.at(i) == Some(Position { pt })
}

/// If the turn ended in a wait and the player stands on an end-game trigger
/// tile, the tick resolves to leaving the map; any other state passes through
/// unchanged.
pub fn tile_triggers(new_state: &mut NewState, world: &World)
    requires
        world.wf(),
    ensures
        *final(new_state) == if *old(new_state) is Wait && (exists|i: int|
            trigger_at(*world, i, world.player_pos)) {
            NewState::LeftMap
        } else {
            *old(new_state)
        },
{
    if !matches!(*new_state, NewState::Wait) {
        return ;
    }
    let player_pos = world.player_pos;
    let n = world.alive.len();
    let mut i: usize = 0;
    while i < n
        invariant
            world.wf(),
            i <= n,
            n == world.n(),
            player_pos == world.player_pos,
            *new_state == *old(new_state),
            *old(new_state) is Wait,
            forall|j: int| 0 <= j < i ==> !trigger_at(*world, j, player_pos),
        decreases n - i,
    {
        let e = crate::components::Entity { idx: i, gen: world.gens[i] };
        match world.get_tile_trigger(e) {
            Some(tt) => {
                match world.get_position(e) {
                    Some(pos) => {
                        if pos.pt.x == player_pos.x && pos.pt.y == player_pos.y {
                            assert(pos.pt == player_pos);
                            match tt.trigger {
                                TriggerType::EndGame => {
                                    proof {
                                        assert(tt == (crate::components::TileTrigger {
                                            trigger: TriggerType::EndGame,
                                        }));
                                        assert(world.tile_triggers.at(i as int) == Some(tt));
                                        assert(world.positions.at(i as int) == Some(pos));
                                        assert(pos.pt == player_pos);
                                        assert(player_pos == world.player_pos);
                                        assert(pos.pt == world.player_pos);
                                        assert(pos == (Position { pt: pos.pt }));
                                        assert(trigger_at(*world, i as int, world.player_pos));
                                    }
                                    *new_state = NewState::LeftMap;
                                    return ;
                                },
                            }
                        }
                    },
                    None => {},
                }
            },
            None => {},
        }
        i = i + 1;
    }
}

/// Install a freshly computed field of view for the player: replace the
/// player's visible set, clear the map's visible flags, then mark every
/// in-bounds visible point as both revealed and visible. Runs only on a
/// waiting tick.
pub fn update_fov(new_state: &NewState, world: &mut World, visible: &Vec<Point>)
    requires
        old(world).wf(),
    ensures
        final(world).wf(),
        !(new_state is Wait) ==> *final(world) == *old(world),
        new_state is Wait && player_ready(*old(world)) && old(world).fovs.at(
            the_player(*old(world)).idx as int,
        ) is Some ==> {
            &&& final(world).fovs.at(the_player(*old(world)).idx as int) is Some
            &&& final(world).fovs.at(
                the_player(*old(world)).idx as int,
            ).unwrap().visible_tiles@ == visible@
            &&& forall|k: int|
                0 <= k < visible@.len() && old(world).map.spec_in_bounds(#[trigger] visible@[k])
                    ==> final(world).map.revealed@[old(world).map.spec_idx_of(visible@[k])]
                    && final(world).map.visible@[old(world).map.spec_idx_of(visible@[k])]
            &&& forall|t: int|
                0 <= t < old(world).map.spec_tile_count()
                    && #[trigger] final(world).map.visible@[t] ==> exists|k: int|
                    0 <= k < visible@.len() && old(world).map.spec_in_bounds(
                        #[trigger] visible@[k],
                    ) && old(world).map.spec_idx_of(visible@[k]) == t
        },
{
    if !matches!(*new_state, NewState::Wait) {
        return ;
    }
    let p = match world.player_entity {
        Some(p) => p,
        None => {
            return ;
        },
    };
    if !world.is_valid(p) {
        return ;
    }
    let fov = match world.get_fov(p) {
        Some(f) => FieldOfView {
            visible_tiles: copy_points(visible),
            radius: f.radius,
            is_dirty: false,
        },
        None => {
            return ;
        },
    };
    world.set_fov(p, fov);
    world.map.clear_visible();
    let ghost mid = *world;
    let n = visible.len();
    let mut k: usize = 0;
    while k < n
        invariant
            world.wf(),
            k <= n,
            n == visible@.len(),
            world.map.width == mid.map.width,
            world.map.height == mid.map.height,
            *world == (World { map: world.map, ..mid }),
            world.map == (crate::map::GameMap {
                revealed: world.map.revealed,
                visible: world.map.visible,
                ..mid.map
            }),
            world.map.revealed@.len() == mid.map.revealed@.len(),
            world.map.visible@.len() == mid.map.visible@.len(),
            forall|j: int|
                0 <= j < k && mid.map.spec_in_bounds(#[trigger] visible@[j])
                    ==> world.map.revealed@[mid.map.spec_idx_of(visible@[j])]
                    && world.map.visible@[mid.map.spec_idx_of(visible@[j])],
            forall|t: int|
                0 <= t < mid.map.spec_tile_count() && #[trigger] world.map.visible@[t]
                    ==> exists|j: int|
                    0 <= j < k && mid.map.spec_in_bounds(#[trigger] visible@[j])
                        && mid.map.spec_idx_of(visible@[j]) == t,
        decreases n - k,
    {
        let ghost step_pre = *world;
        let pt = visible[k];
        if world.map.in_bounds(pt) {
            let idx = world.map.point2d_to_index(pt);
            world.map.revealed.set(idx, true);
            world.map.visible.set(idx, true);
        }
        k = k + 1;
        proof {
            assert forall|j: int|
                0 <= j < k && mid.map.spec_in_bounds(#[trigger] visible@[j]) implies world
                .map.revealed@[mid.map.spec_idx_of(visible@[j])] && world.map.visible@[
                mid.map.spec_idx_of(visible@[j])] by {
                mid.map.lemma_idx_of_in_range(visible@[j]);
                if j < k - 1 {
                    assert(step_pre.map.revealed@[mid.map.spec_idx_of(visible@[j])]);
                    assert(step_pre.map.visible@[mid.map.spec_idx_of(visible@[j])]);
                }
            }
            assert forall|t: int|
                0 <= t < mid.map.spec_tile_count() && #[trigger] world.map.visible@[t] implies
                exists|j: int|
                0 <= j < k && mid.map.spec_in_bounds(#[trigger] visible@[j]) && mid.map.spec_idx_of(
                    visible@[j],
                ) == t by {
                if step_pre.map.visible@[t] {
                    let j0 = choose|j0: int|
                        0 <= j0 < k - 1 && mid.map.spec_in_bounds(#[trigger] visible@[j0])
                            && mid.map.spec_idx_of(visible@[j0]) == t;
                    assert(0 <= j0 < k && mid.map.spec_in_bounds(visible@[j0]));
                } else {
                    // this iteration lit the flag, so its point is the witness
                    assert(mid.map.spec_in_bounds(visible@[k - 1]));
                    assert(mid.map.spec_idx_of(visible@[k - 1]) == t);
                }
            }
        }
    }
    proof {
        assert forall|k2: int|
            0 <= k2 < visible@.len() && old(world).map.spec_in_bounds(#[trigger] visible@[k2])
            implies final(world).map.revealed@[old(world).map.spec_idx_of(visible@[k2])]
            && final(world).map.visible@[old(world).map.spec_idx_of(visible@[k2])] by {
            mid.map.lemma_idx_of_in_range(visible@[k2]);
        }
    }
}

} // verus!

//! Builder for the entrance map: open alien terrain shaped by sampled
//! heights, with a docking capsule carved into it, a game-exit trigger at one
//! end and a heavy door at the other. The height samples come from the
//! caller, one per tile, so the terrain generator stays an outside concern.

use vstd::prelude::*;
use crate::components::{
    ColorPair, Description, Door, Glyph, NamedColor, Position, RenderOrder, TileTrigger,
    TriggerType,
};
use crate::game::{door_at, trigger_at};
use crate::geometry::Point;
use crate::map::{GameMap, MAP_HEIGHT, MAP_WIDTH};
use crate::tile::{Tile, GLYPH_DOOR};
use crate::world::World;

verus! {

/// Vertical center of the map.
pub const MIDDLE: usize = MAP_HEIGHT / 2;

/// Top row of the capsule floor.
pub const CAPSULE_TOP: usize = MIDDLE - 3;

/// Bottom row of the capsule floor.
pub const CAPSULE_BOTTOM: usize = MIDDLE + 3;

/// Left column of the capsule floor.
pub const CAPSULE_LEFT: usize = 1;

/// Right column of the capsule floor.
pub const CAPSULE_RIGHT: usize = 8;


/// Whether `(x, y)` lies strictly inside the capsule: on its floor, not on
/// the hull ring.
pub open spec fn capsule_interior(x: int, y: int) -> bool {
    &&& CAPSULE_LEFT <= x <= CAPSULE_RIGHT
    &&& CAPSULE_TOP <= y <= CAPSULE_BOTTOM
}

/// Every interior capsule tile is walkable capsule floor.
pub open spec fn interior_floored(m: GameMap) -> bool {
    forall|x: int, y: int|
        capsule_interior(x, y) ==> (#[trigger] m.tiles@[y * MAP_WIDTH + x]).tile_type is Capsule
            && !m.tiles@[y * MAP_WIDTH + x].blocked
}

/// Fill the whole grid with alien terrain, one sampled height per tile.
pub fn add_landscape(map: &mut GameMap, heights: &Vec<i32>)
    requires
        old(map).wf(),
        heights@.len() == old(map).spec_tile_count(),
    ensures
        final(map).wf(),
        final(map).width == old(map).width,
        final(map).height == old(map).height,
        *final(map) == (GameMap { tiles: final(map).tiles, ..*old(map) }),
        forall|t: int|
            0 <= t < final(map).spec_tile_count() ==> (#[trigger] final(map).tiles@[t]).tile_type
                is Outside && final(map).tiles@[t].blocked == (heights@[t] > 0),
{
    let count = map.tile_count();
    let mut i: usize = 0;
    while i < count
        invariant
            map.wf(),
            i <= count,
            count == map.spec_tile_count(),
            heights@.len() == count,
            map.width == old(map).width,
            map.height == old(map).height,
            *map == (GameMap { tiles: map.tiles, ..*old(map) }),
            forall|t: int|
                0 <= t < i ==> (#[trigger] map.tiles@[t]).tile_type is Outside
                    && map.tiles@[t].blocked == (heights@[t] > 0),
        decreases count - i,
    {
        map.set_tile(i, Tile::alien_landscape(heights[i]));
        i = i + 1;
    }
}

/// Spawn the game-exit: the tile the player leaves through, plus a trigger
/// entity standing on it that ends the game when stepped on.
pub fn add_game_exit(world: &mut World, pt: Point)
    requires
        old(world).wf(),
        old(world).map.spec_in_bounds(pt),
    ensures
        final(world).wf(),
        final(world).map.width == old(world).map.width,
        final(world).map.height == old(world).map.height,
        final(world).map.tiles@ == old(world).map.tiles@.update(
            old(world).map.spec_idx_of(pt),
            final(world).map.tiles@[old(world).map.spec_idx_of(pt)],
        ),
        !final(world).map.tiles@[old(world).map.spec_idx_of(pt)].blocked,
        final(world).map.tiles@[old(world).map.spec_idx_of(pt)].glyph == crate::tile::GLYPH_EXIT,
        final(world).map.tiles@[old(world).map.spec_idx_of(pt)].tile_type is Capsule,
        final(world).map.is_door@ == old(world).map.is_door@,
        exists|i: int| #[trigger] trigger_at(*final(world), i, pt),
{
    let exit_idx = world.map.point2d_to_index(pt);
    world.map.set_tile(exit_idx, Tile::game_over());
    let e = world.create_entity();
    world.set_position(e, pt);
    world.set_description(
        e,
        Description {
            text: "Exit to the ship. Leave through here when you are ready to go.".to_owned(),
        },
    );
    world.set_tile_trigger(e, TileTrigger { trigger: TriggerType::EndGame });
    proof {
        assert(world.valid(e));
        assert(world.positions.at(e.idx as int) == Some(Position { pt }));
        assert(world.tile_triggers.at(e.idx as int) == Some(
            TileTrigger { trigger: TriggerType::EndGame },
        ));
        assert(trigger_at(*world, e.idx as int, pt));
    }
}

/// Spawn a heavy, closed door: the tile blocks and is flagged as a door, and
/// a door entity stands on it.
pub fn add_door(world: &mut World, pt: Point)
    requires
        old(world).wf(),
        old(world).map.spec_in_bounds(pt),
    ensures
        final(world).wf(),
        final(world).map.width == old(world).map.width,
        final(world).map.height == old(world).map.height,
        final(world).map.tiles@ == old(world).map.tiles@.update(
            old(world).map.spec_idx_of(pt),
            final(world).map.tiles@[old(world).map.spec_idx_of(pt)],
        ),
        final(world).map.tiles@[old(world).map.spec_idx_of(pt)].blocked,
        final(world).map.is_door@ == old(world).map.is_door@.update(
            old(world).map.spec_idx_of(pt),
            true,
        ),
        exists|i: int|
            #[trigger] door_at(*final(world), i, pt) && final(world).glyphs.at(i) == Some(
                Glyph {
                    glyph: GLYPH_DOOR,
                    color: ColorPair { fg: NamedColor::Cyan, bg: NamedColor::Black },
                    render_order: RenderOrder::Item,
                },
            ),
        forall|i: int, pt2: Point|
            trigger_at(*old(world), i, pt2) ==> trigger_at(*final(world), i, pt2),
{
    let idx = world.map.point2d_to_index(pt);
    let e = world.create_entity();
    let ghost w1 = *world;
    world.set_position(e, pt);
    world.set_description(e, Description { text: "A heavy, steel door.".to_owned() });
    world.set_glyph(
        e,
        Glyph {
            glyph: GLYPH_DOOR,
            color: ColorPair { fg: NamedColor::Cyan, bg: NamedColor::Black },
            render_order: RenderOrder::Item,
        },
    );
    world.set_door(e, Door {});
    world.map.set_tile(idx, Tile::wall());
    world.map.is_door.set(idx, true);
    proof {
        assert(world.valid(e));
        assert(world.positions.at(e.idx as int) == Some(Position { pt }));
        assert(world.doors.at(e.idx as int) is Some);
        assert(door_at(*world, e.idx as int, pt));
        assert(world.glyphs.at(e.idx as int) == Some(
            Glyph {
                glyph: GLYPH_DOOR,
                color: ColorPair { fg: NamedColor::Cyan, bg: NamedColor::Black },
                render_order: RenderOrder::Item,
            },
        ));
        assert forall|i: int, pt2: Point| trigger_at(*old(world), i, pt2) implies trigger_at(
            *world,
            i,
            pt2,
        ) by {
            assert(old(world).alive@[i]);
            assert(i != e.idx as int);
            assert(crate::world::entity_cols_eq_at(*old(world), w1, i));
            assert(world.alive@[i] == old(world).alive@[i]);
            assert(world.gens@[i] == old(world).gens@[i]);
            assert(world.tile_triggers.at(i) == old(world).tile_triggers.at(i));
            assert(world.positions.at(i) == old(world).positions.at(i));
        }
    }
}

/// Carve the docking capsule into the landscape: a floor box, encasing walls
/// with a few windows, the game exit in the left wall, a door in the right
/// wall, and the player's starting point inside.
pub fn add_docking_capsule(world: &mut World)
    requires
        old(world).wf(),
        old(world).map.width == MAP_WIDTH,
        old(world).map.height == MAP_HEIGHT,
    ensures
        final(world).wf(),
        final(world).map.width == MAP_WIDTH,
        final(world).map.height == MAP_HEIGHT,
        final(world).map.starting_point == (Point {
            x: (CAPSULE_LEFT + 1) as i32,
            y: MIDDLE as i32,
        }),
        interior_floored(final(world).map),
        final(world).map.tiles@[MIDDLE * MAP_WIDTH + (CAPSULE_LEFT - 1)].glyph
            == crate::tile::GLYPH_EXIT,
        final(world).map.tiles@[MIDDLE * MAP_WIDTH + (CAPSULE_LEFT - 1)].tile_type is Capsule,
        !final(world).map.tiles@[MIDDLE * MAP_WIDTH + (CAPSULE_LEFT - 1)].blocked,
        exists|i: int|
            #[trigger] trigger_at(
                *final(world),
                i,
                Point { x: (CAPSULE_LEFT - 1) as i32, y: MIDDLE as i32 },
            ),
        exists|i: int|
            #[trigger] door_at(
                *final(world),
                i,
                Point { x: (CAPSULE_RIGHT + 1) as i32, y: MIDDLE as i32 },
            ),
{
    // floor
    let mut y: usize = CAPSULE_TOP;
    while y <= CAPSULE_BOTTOM
        invariant
            world.wf(),
            world.map.width == MAP_WIDTH,
            world.map.height == MAP_HEIGHT,
            CAPSULE_TOP <= y,
            forall|x2: int, y2: int|
                capsule_interior(x2, y2) && y2 < y ==> (#[trigger] world.map.tiles@[y2 * MAP_WIDTH
                    + x2]).tile_type is Capsule && !world.map.tiles@[y2 * MAP_WIDTH + x2].blocked,
        decreases CAPSULE_BOTTOM + 1 - y,
    {
        let mut x: usize = CAPSULE_LEFT;
        while x <= CAPSULE_RIGHT
            invariant
                world.wf(),
                world.map.width == MAP_WIDTH,
                world.map.height == MAP_HEIGHT,
                CAPSULE_TOP <= y <= CAPSULE_BOTTOM,
                CAPSULE_LEFT <= x,
                forall|x2: int, y2: int|
                    capsule_interior(x2, y2) && (y2 < y || (y2 == y && x2 < x)) ==> (
                    #[trigger] world.map.tiles@[y2 * MAP_WIDTH + x2]).tile_type is Capsule
                        && !world.map.tiles@[y2 * MAP_WIDTH + x2].blocked,
            decreases CAPSULE_RIGHT + 1 - x,
        {
            let idx = world.map.point2d_to_index(Point { x: x as i32, y: y as i32 });
            assert(idx == y * MAP_WIDTH + x);
            world.map.set_tile(idx, Tile::capsule_floor());
            x = x + 1;
        }
        y = y + 1;
    }
    assert(interior_floored(world.map));
    // encasing walls
    let mut x: usize = CAPSULE_LEFT - 1;
    while x <= CAPSULE_RIGHT + 1
        invariant
            world.wf(),
            world.map.width == MAP_WIDTH,
            world.map.height == MAP_HEIGHT,
            CAPSULE_LEFT - 1 <= x,
            interior_floored(world.map),
        decreases CAPSULE_RIGHT + 2 - x,
    {
        let idx = world.map.point2d_to_index(
            Point { x: x as i32, y: (CAPSULE_TOP - 1) as i32 },
        );
        world.map.set_tile(idx, Tile::capsule_wall());
        let idx2 = world.map.point2d_to_index(
            Point { x: x as i32, y: (CAPSULE_BOTTOM + 1) as i32 },
        );
        world.map.set_tile(idx2, Tile::capsule_wall());
        x = x + 1;
    }
    let mut y2: usize = CAPSULE_TOP - 1;
    while y2 <= CAPSULE_BOTTOM + 1
        invariant
            world.wf(),
            world.map.width == MAP_WIDTH,
            world.map.height == MAP_HEIGHT,
            CAPSULE_TOP - 1 <= y2,
            interior_floored(world.map),
        decreases CAPSULE_BOTTOM + 2 - y2,
    {
        let idx = world.map.point2d_to_index(
            Point { x: (CAPSULE_LEFT - 1) as i32, y: y2 as i32 },
        );
        world.map.set_tile(idx, Tile::capsule_wall());
        let idx2 = world.map.point2d_to_index(
            Point { x: (CAPSULE_RIGHT + 1) as i32, y: y2 as i32 },
        );
        world.map.set_tile(idx2, Tile::capsule_wall());
        y2 = y2 + 1;
    }
    // a few windows in the hull
    let x_middle: usize = (CAPSULE_LEFT + CAPSULE_RIGHT) / 2;
    let w1 = world.map.point2d_to_index(
        Point { x: (x_middle - 2) as i32, y: (CAPSULE_TOP - 1) as i32 },
    );
    world.map.set_tile(w1, Tile::capsule_window());
    let w2 = world.map.point2d_to_index(
        Point { x: (x_middle - 2) as i32, y: (CAPSULE_BOTTOM + 1) as i32 },
    );
    world.map.set_tile(w2, Tile::capsule_window());
    let w3 = world.map.point2d_to_index(
        Point { x: (x_middle + 2) as i32, y: (CAPSULE_TOP - 1) as i32 },
    );
    world.map.set_tile(w3, Tile::capsule_window());
    let w4 = world.map.point2d_to_index(
        Point { x: (x_middle + 2) as i32, y: (CAPSULE_BOTTOM + 1) as i32 },
    );
    world.map.set_tile(w4, Tile::capsule_window());
    // the game exit, and the door into the complex
    add_game_exit(world, Point { x: (CAPSULE_LEFT - 1) as i32, y: MIDDLE as i32 });
    add_door(world, Point { x: (CAPSULE_RIGHT + 1) as i32, y: MIDDLE as i32 });
    let ghost before_sp = *world;
    world.map.starting_point = Point { x: (CAPSULE_LEFT + 1) as i32, y: MIDDLE as i32 };
    proof {
        let exit_pt = Point { x: (CAPSULE_LEFT - 1) as i32, y: MIDDLE as i32 };
        let door_pt = Point { x: (CAPSULE_RIGHT + 1) as i32, y: MIDDLE as i32 };
        assert forall|i: int| trigger_at(before_sp, i, exit_pt) implies trigger_at(
            *world,
            i,
            exit_pt,
        ) by {}
        assert forall|i: int| door_at(before_sp, i, door_pt) implies door_at(
            *world,
            i,
            door_pt,
        ) by {}
        let wi = choose|i: int| trigger_at(before_sp, i, exit_pt);
        assert(trigger_at(*world, wi, exit_pt));
        let wj = choose|i: int| door_at(before_sp, i, door_pt);
        assert(door_at(*world, wj, door_pt));
    }
}

/// Build the entrance map in place: alien terrain from the height samples,
/// the docking capsule carved into it, and the spatial index rebuilt for the
/// new map. Entities previously on the old map lose their positions; the
/// capsule's exit trigger and door are spawned fresh.
pub fn build_entrance(world: &mut World, heights: &Vec<i32>)
    requires
        old(world).wf(),
        heights@.len() == MAP_WIDTH * MAP_HEIGHT,
    ensures
        final(world).wf(),
        final(world).map.width == MAP_WIDTH,
        final(world).map.height == MAP_HEIGHT,
        final(world).map.starting_point == (Point {
            x: (CAPSULE_LEFT + 1) as i32,
            y: MIDDLE as i32,
        }),
        interior_floored(final(world).map),
        final(world).map.tiles@[MIDDLE * MAP_WIDTH + (CAPSULE_LEFT - 1)].glyph
            == crate::tile::GLYPH_EXIT,
        final(world).map.tiles@[MIDDLE * MAP_WIDTH + (CAPSULE_LEFT - 1)].tile_type is Capsule,
        !final(world).map.tiles@[MIDDLE * MAP_WIDTH + (CAPSULE_LEFT - 1)].blocked,
        exists|i: int|
            #[trigger] trigger_at(
                *final(world),
                i,
                Point { x: (CAPSULE_LEFT - 1) as i32, y: MIDDLE as i32 },
            ),
        exists|i: int|
            #[trigger] door_at(
                *final(world),
                i,
                Point { x: (CAPSULE_RIGHT + 1) as i32, y: MIDDLE as i32 },
            ),
{
    let mut map = GameMap::new(MAP_WIDTH, MAP_HEIGHT);
    add_landscape(&mut map, heights);
    world.set_map(map);
    add_docking_capsule(world);
}

} // verus!

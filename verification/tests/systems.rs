//! Tests for the player-input system, the turn scheduler, the modes and the
//! entrance builder.

use dungeon_core::components::{
    CombatStats, Consumable, Entity, FieldOfView, Glyph, HungerClock, HungerState, InputKey, Item,
    Monster, Name, Player, RenderOrder,
};
use dungeon_core::effects::run_effects_queue;
use dungeon_core::entrance::{build_entrance, CAPSULE_LEFT, CAPSULE_RIGHT, MIDDLE};
use dungeon_core::game::{tile_triggers, try_move, update_fov};
use dungeon_core::game_over::GameOverMode;
use dungeon_core::geometry::Point;
use dungeon_core::inventory::{InventoryAction, InventoryActionMode};
use dungeon_core::map::{GameMap, MAP_HEIGHT, MAP_WIDTH};
use dungeon_core::modes::{InventoryActionModeResult, ModeControl, ModeResult, ModeUpdate};
use dungeon_core::player::{player_input, skip_turn, try_move_player, PlayerInputResult};
use dungeon_core::tile::{Tile, TileType};
use dungeon_core::turn::{apply_input_transition, end_monster_turn, end_player_turn, NewState, TurnState};
use dungeon_core::world::World;

fn test_world() -> World {
    let mut world = World::new();
    let map = GameMap::new(10, 10);
    world.set_map(map);
    world
}

fn place_player(world: &mut World, x: i32, y: i32) -> Entity {
    let p = world.create_entity();
    world.set_player_tag(p, Player {});
    world.set_combat_stats(p, CombatStats { max_hp: 30, hp: 30, defense: 2, power: 5 });
    world.set_fov(p, FieldOfView { visible_tiles: Vec::new(), radius: 8, is_dirty: false });
    world.set_position(p, Point::new(x, y));
    world.set_player(p, Point::new(x, y));
    p
}

fn open_floor(world: &mut World) {
    for idx in 0..world.map.tile_count() {
        world.map.set_tile(idx, Tile::floor());
    }
}

#[test]
fn movement_keys_move_the_player() {
    let mut world = test_world();
    open_floor(&mut world);
    let p = place_player(&mut world, 4, 4);
    let result = player_input(&mut world, Some(InputKey::L));
    assert!(matches!(result, PlayerInputResult::TurnDone));
    assert_eq!(world.get_position(p).unwrap().pt, Point::new(5, 4));
    assert_eq!(world.player_pos, Point::new(5, 4));
    // diagonals work too
    player_input(&mut world, Some(InputKey::Numpad9));
    assert_eq!(world.get_position(p).unwrap().pt, Point::new(6, 3));
}

#[test]
fn blocked_destination_leaves_player_in_place() {
    let mut world = test_world();
    open_floor(&mut world);
    let p = place_player(&mut world, 4, 4);
    let wall_idx = world.map.point2d_to_index(Point::new(5, 4));
    world.map.set_tile(wall_idx, Tile::wall());
    try_move_player(&mut world, Point::new(1, 0));
    assert_eq!(world.get_position(p).unwrap().pt, Point::new(4, 4));
}

#[test]
fn walking_into_a_fighter_opens_a_melee_intent() {
    let mut world = test_world();
    open_floor(&mut world);
    let p = place_player(&mut world, 4, 4);
    let foe = world.create_entity();
    world.set_combat_stats(foe, CombatStats { max_hp: 10, hp: 10, defense: 0, power: 1 });
    world.set_monster(foe, Monster {});
    world.set_position(foe, Point::new(5, 4));
    try_move_player(&mut world, Point::new(1, 0));
    assert_eq!(world.get_wants_melee(p).unwrap().target, foe);
}

#[test]
fn nonactionable_key_is_a_noop_result() {
    let mut world = test_world();
    open_floor(&mut world);
    place_player(&mut world, 4, 4);
    assert!(matches!(player_input(&mut world, None), PlayerInputResult::NoResult));
    assert!(matches!(player_input(&mut world, Some(InputKey::Other)), PlayerInputResult::NoResult));
    assert!(matches!(player_input(&mut world, Some(InputKey::Escape)), PlayerInputResult::AppQuit));
    assert!(matches!(
        player_input(&mut world, Some(InputKey::I)),
        PlayerInputResult::ShowInventory
    ));
}

#[test]
fn stairs_gate_the_descend_result() {
    let mut world = test_world();
    open_floor(&mut world);
    place_player(&mut world, 4, 4);
    let log_len = world.log.len();
    assert!(matches!(
        player_input(&mut world, Some(InputKey::Period)),
        PlayerInputResult::TurnDone
    ));
    assert_eq!(world.log.len(), log_len + 1);
    let here = world.map.point2d_to_index(Point::new(4, 4));
    let mut stairs = Tile::floor();
    stairs.tile_type = TileType::StairsDown;
    world.map.set_tile(here, stairs);
    assert!(matches!(
        player_input(&mut world, Some(InputKey::Period)),
        PlayerInputResult::Descend
    ));
}

#[test]
fn resting_heals_only_when_safe_and_fed() {
    let mut world = test_world();
    open_floor(&mut world);
    let p = place_player(&mut world, 4, 4);
    world.set_combat_stats(p, CombatStats { max_hp: 30, hp: 20, defense: 2, power: 5 });
    // safe: no monster in view, no hunger
    let r = skip_turn(&mut world);
    assert!(matches!(r, PlayerInputResult::TurnDone));
    run_effects_queue(&mut world);
    assert_eq!(world.get_combat_stats(p).unwrap().hp, 21);
    // a visible monster blocks regeneration
    let foe = world.create_entity();
    world.set_monster(foe, Monster {});
    world.set_combat_stats(foe, CombatStats { max_hp: 8, hp: 8, defense: 0, power: 1 });
    world.set_position(foe, Point::new(6, 4));
    world.set_fov(
        p,
        FieldOfView { visible_tiles: vec![Point::new(6, 4)], radius: 8, is_dirty: false },
    );
    skip_turn(&mut world);
    run_effects_queue(&mut world);
    assert_eq!(world.get_combat_stats(p).unwrap().hp, 21);
    // hunger blocks it as well
    world.delete_entity(foe);
    world.set_fov(p, FieldOfView { visible_tiles: Vec::new(), radius: 8, is_dirty: false });
    world.set_hunger_clock(p, HungerClock { state: HungerState::Starving, duration: 0 });
    skip_turn(&mut world);
    run_effects_queue(&mut world);
    assert_eq!(world.get_combat_stats(p).unwrap().hp, 21);
}

#[test]
fn picking_up_an_item_writes_the_intent() {
    let mut world = test_world();
    open_floor(&mut world);
    let p = place_player(&mut world, 4, 4);
    let log_len = world.log.len();
    player_input(&mut world, Some(InputKey::G));
    assert_eq!(world.log.len(), log_len + 1);
    assert!(world.get_wants_pickup(p).is_none());
    let potion = world.create_entity();
    world.set_item(potion, Item {});
    world.set_position(potion, Point::new(4, 4));
    player_input(&mut world, Some(InputKey::G));
    let intent = world.get_wants_pickup(p).unwrap();
    assert_eq!(intent.item, potion);
    assert_eq!(intent.collected_by, p);
}

#[test]
fn turn_scheduler_alternates_strictly() {
    let mut world = test_world();
    assert_eq!(world.turn_state, TurnState::AwaitingInput);
    // a non-actionable result leaves the state alone
    apply_input_transition(&mut world, &PlayerInputResult::NoResult);
    assert_eq!(world.turn_state, TurnState::AwaitingInput);
    apply_input_transition(&mut world, &PlayerInputResult::TurnDone);
    assert_eq!(world.turn_state, TurnState::PlayerTurn);
    let turns = world.turn_count;
    end_player_turn(&mut world);
    assert_eq!(world.turn_state, TurnState::MonsterTurn);
    assert_eq!(world.turn_count, turns + 1);
    end_monster_turn(&mut world);
    assert_eq!(world.turn_state, TurnState::AwaitingInput);
}

#[test]
fn doors_open_without_spending_the_turn() {
    let mut world = test_world();
    open_floor(&mut world);
    let p = place_player(&mut world, 4, 4);
    let door_idx = world.map.point2d_to_index(Point::new(5, 4));
    world.map.set_tile(door_idx, Tile::wall());
    world.map.is_door[door_idx] = true;
    let door = world.create_entity();
    world.set_door(door, dungeon_core::components::Door {});
    world.set_position(door, Point::new(5, 4));
    let r = try_move(&mut world, 1, 0);
    assert!(matches!(r, NewState::Wait));
    assert!(!world.map.is_door[door_idx]);
    assert!(!world.map.tiles[door_idx].blocked);
    assert!(!world.is_valid(door));
    assert_eq!(world.get_position(p).unwrap().pt, Point::new(4, 4));
    // the way is open now
    let r2 = try_move(&mut world, 1, 0);
    assert!(matches!(r2, NewState::Enemy));
    assert_eq!(world.get_position(p).unwrap().pt, Point::new(5, 4));
}

#[test]
fn stepping_on_the_exit_trigger_leaves_the_map() {
    let mut world = test_world();
    open_floor(&mut world);
    place_player(&mut world, 4, 4);
    let mut state = NewState::Wait;
    tile_triggers(&mut state, &world);
    assert!(matches!(state, NewState::Wait));
    let trig = world.create_entity();
    world.set_tile_trigger(
        trig,
        dungeon_core::components::TileTrigger {
            trigger: dungeon_core::components::TriggerType::EndGame,
        },
    );
    world.set_position(trig, Point::new(4, 4));
    tile_triggers(&mut state, &world);
    assert!(matches!(state, NewState::LeftMap));
    // only a waiting tick checks triggers
    let mut enemy_state = NewState::Enemy;
    tile_triggers(&mut enemy_state, &world);
    assert!(matches!(enemy_state, NewState::Enemy));
}

#[test]
fn update_fov_marks_revealed_and_visible() {
    let mut world = test_world();
    open_floor(&mut world);
    let p = place_player(&mut world, 4, 4);
    let seen = vec![Point::new(4, 4), Point::new(5, 4), Point::new(4, 5)];
    update_fov(&NewState::Wait, &mut world, &seen);
    for pt in &seen {
        let idx = world.map.point2d_to_index(*pt);
        assert!(world.map.revealed[idx]);
        assert!(world.map.visible[idx]);
    }
    let far = world.map.point2d_to_index(Point::new(9, 9));
    assert!(!world.map.visible[far]);
    assert_eq!(world.get_fov(p).unwrap().visible_tiles.len(), 3);
}

#[test]
fn game_over_mode_cleans_the_world() {
    let mut world = test_world();
    open_floor(&mut world);
    let p = place_player(&mut world, 4, 4);
    let mut mode = GameOverMode::new();
    let (control, update) = mode.tick(&mut world, Some(InputKey::Other));
    assert!(matches!(control, ModeControl::Stay));
    assert!(matches!(update, ModeUpdate::Update));
    assert!(world.is_valid(p));
    let (control, update) = mode.tick(&mut world, Some(InputKey::Return));
    assert!(matches!(control, ModeControl::SwitchToMainMenu));
    assert!(matches!(update, ModeUpdate::Immediate));
    assert!(!world.is_valid(p));
}

#[test]
fn inventory_action_mode_navigates_and_confirms() {
    let mut world = test_world();
    let potion = world.create_entity();
    world.set_item(potion, Item {});
    world.set_consumable(potion, Consumable {});
    world.set_name(potion, Name { text: "Health Potion".to_string() });
    world.set_glyph(
        potion,
        Glyph::new(
            33,
            dungeon_core::components::ColorPair::new(
                dungeon_core::components::NamedColor::Magenta,
                dungeon_core::components::NamedColor::Black,
            ),
            RenderOrder::Item,
        ),
    );
    assert!(InventoryAction::item_supports_action(&world, potion, InventoryAction::UseItem));
    assert!(InventoryAction::item_supports_action(&world, potion, InventoryAction::DropItem));
    assert!(matches!(InventoryAction::from_key(InputKey::A), Some(InventoryAction::UseItem)));
    assert!(matches!(InventoryAction::from_key(InputKey::D), Some(InventoryAction::DropItem)));
    assert!(InventoryAction::from_key(InputKey::Other).is_none());
    assert_eq!(InventoryAction::UseItem.name(), "Apply");
    assert_eq!(InventoryAction::DropItem.name(), "Drop");

    let mut mode = InventoryActionMode::new(&world, potion, None);
    // confirm the first entry: apply the item
    let r = mode.tick(Some(InputKey::Return));
    assert!(matches!(
        r,
        ModeControl::Pop(ModeResult::InventoryAction(InventoryActionModeResult::UseItem(e))) if e == potion
    ));
    // walk down to the drop entry and confirm with its shortcut
    mode.tick(Some(InputKey::Down));
    let r = mode.tick(Some(InputKey::D));
    assert!(matches!(
        r,
        ModeControl::Pop(ModeResult::InventoryAction(InventoryActionModeResult::DropItem(e))) if e == potion
    ));
    // escape always cancels
    let r = mode.tick(Some(InputKey::Escape));
    assert!(matches!(
        r,
        ModeControl::Pop(ModeResult::InventoryAction(InventoryActionModeResult::Cancelled))
    ));
}

#[test]
fn entrance_builder_lays_out_the_capsule() {
    let mut world = World::new();
    let count = MAP_WIDTH * MAP_HEIGHT;
    let mut heights: Vec<i32> = Vec::with_capacity(count);
    for i in 0..count {
        // a deterministic rolling landscape: ridges on a diagonal band
        heights.push(if (i % 17) < 5 { 1 } else { -1 });
    }
    build_entrance(&mut world, &heights);
    assert_eq!(world.map.width, MAP_WIDTH);
    assert_eq!(world.map.height, MAP_HEIGHT);
    assert_eq!(
        world.map.starting_point,
        Point::new((CAPSULE_LEFT + 1) as i32, MIDDLE as i32)
    );
    // the door tile blocks and is flagged
    let door_idx = world
        .map
        .point2d_to_index(Point::new((CAPSULE_RIGHT + 1) as i32, MIDDLE as i32));
    assert!(world.map.is_door[door_idx]);
    assert!(world.map.tiles[door_idx].blocked);
    // the exit tile is open
    let exit_idx = world
        .map
        .point2d_to_index(Point::new((CAPSULE_LEFT - 1) as i32, MIDDLE as i32));
    assert!(!world.map.tiles[exit_idx].blocked);
    // far from the capsule the landscape follows the heights
    let far_idx = world.map.point2d_to_index(Point::new(60, 25));
    assert_eq!(world.map.tiles[far_idx].blocked, heights[far_idx] > 0);
    assert_eq!(world.map.tiles[far_idx].tile_type, TileType::Outside);
}

#[test]
fn stock_tiles_have_their_documented_shape() {
    let floor = Tile::floor();
    assert!(!floor.blocked && !floor.opaque);
    assert_eq!(floor.tile_type, TileType::Floor);
    let wall = Tile::wall();
    assert!(wall.blocked && wall.opaque);
    assert_eq!(wall.tile_type, TileType::Wall);
    let empty = Tile::empty();
    assert!(empty.blocked && !empty.opaque);
    assert_eq!(empty.tile_type, TileType::Empty);
    let default = Tile::default();
    assert_eq!(default.tile_type, TileType::Floor);
    assert!(default.contents.is_empty());
}

#[test]
fn map_indexing_round_trips() {
    let map = GameMap::new(10, 8);
    let pt = Point::new(7, 5);
    let idx = map.point2d_to_index(pt);
    assert_eq!(idx, 57);
    assert_eq!(map.index_to_point2d(idx), pt);
    assert!(map.in_bounds(pt));
    assert!(!map.in_bounds(Point::new(10, 0)));
    assert!(!map.in_bounds(Point::new(-1, 3)));
}

//! Scenario tests for the effect engine, the spatial index and the monster
//! AI, exercised through the public API.

use dungeon_core::ai::{monster_act, path_requests, MonsterAISystem, NavigationPath};
use dungeon_core::components::{
    CombatStats, Confusion, Entity, FieldOfView, Monster, Player, Position,
};
use dungeon_core::effects::{add_effect, run_effects_queue, EffectLabel, EffectType, Targets};
use dungeon_core::geometry::Point;
use dungeon_core::map::GameMap;
use dungeon_core::turn::TurnState;
use dungeon_core::world::World;

fn test_world() -> World {
    let mut world = World::new();
    let map = GameMap::new(10, 10);
    world.set_map(map);
    world
}

fn spawn_fighter(world: &mut World, x: i32, y: i32, hp: i32, max_hp: i32) -> Entity {
    let e = world.create_entity();
    world.set_combat_stats(e, CombatStats { max_hp, hp, defense: 1, power: 2 });
    world.set_position(e, Point::new(x, y));
    e
}

fn spawn_monster(world: &mut World, x: i32, y: i32, sees: Vec<Point>) -> Entity {
    let e = spawn_fighter(world, x, y, 16, 16);
    world.set_monster(e, Monster {});
    world.set_fov(e, FieldOfView { visible_tiles: sees, radius: 8, is_dirty: false });
    e
}

fn spawn_player(world: &mut World, x: i32, y: i32) -> Entity {
    let p = spawn_fighter(world, x, y, 30, 30);
    world.set_player_tag(p, Player {});
    world.set_fov(p, FieldOfView { visible_tiles: Vec::new(), radius: 8, is_dirty: false });
    world.set_player(p, Point::new(x, y));
    p
}

#[test]
fn position_and_spatial_index_agree() {
    let mut world = test_world();
    let e = spawn_fighter(&mut world, 2, 4, 10, 10);
    let idx = world.map.point2d_to_index(Point::new(2, 4));
    let occupants = world.spatial.occupants_at(idx);
    assert_eq!(occupants.len(), 1);
    assert_eq!(occupants[0], e);
    // and of no other entry
    for t in 0..world.map.tile_count() {
        if t != idx {
            assert!(!world.spatial.contains(e, t));
        }
    }
    // moving keeps the two in step
    world.set_position(e, Point::new(7, 7));
    assert!(!world.spatial.contains(e, idx));
    let idx2 = world.map.point2d_to_index(Point::new(7, 7));
    assert!(world.spatial.contains(e, idx2));
    // deletion drops the entry in the same step
    world.delete_entity(e);
    assert!(!world.spatial.contains(e, idx2));
}

#[test]
fn lethal_damage_cascades_in_fifo_order() {
    let mut world = test_world();
    let _player = spawn_player(&mut world, 9, 9);
    let victim = spawn_fighter(&mut world, 2, 4, 5, 16);
    let tile = world.map.point2d_to_index(Point::new(2, 4));
    add_effect(
        &mut world,
        None,
        EffectType::Damage { amount: 5 },
        Targets::Single { target: victim },
    );
    run_effects_queue(&mut world);
    // resolved breadth-first: damage, then the death it queued, then the stain
    assert_eq!(
        world.processed,
        vec![EffectLabel::Damage, EffectLabel::EntityDeath, EffectLabel::Bloodstain]
    );
    assert_eq!(world.queue.len(), 0);
    assert!(!world.is_valid(victim));
    assert!(world.map.bloodstains[tile]);
}

#[test]
fn nonlethal_damage_does_not_cascade() {
    let mut world = test_world();
    let victim = spawn_fighter(&mut world, 2, 4, 16, 16);
    add_effect(
        &mut world,
        None,
        EffectType::Damage { amount: 5 },
        Targets::Single { target: victim },
    );
    run_effects_queue(&mut world);
    assert_eq!(world.processed, vec![EffectLabel::Damage]);
    assert!(world.is_valid(victim));
    assert_eq!(world.get_combat_stats(victim).unwrap().hp, 11);
}

#[test]
fn effect_against_deleted_entity_is_a_noop() {
    let mut world = test_world();
    let bystander = spawn_fighter(&mut world, 1, 1, 8, 8);
    let ghost = spawn_fighter(&mut world, 2, 2, 8, 8);
    world.delete_entity(ghost);
    for effect in [
        EffectType::Damage { amount: 5 },
        EffectType::Healing { amount: 5 },
        EffectType::Confusion { turns: 3 },
        EffectType::EntityDeath,
    ] {
        add_effect(&mut world, None, effect, Targets::Single { target: ghost });
    }
    run_effects_queue(&mut world);
    // no panic, and no state change anywhere that matters
    assert_eq!(world.get_combat_stats(bystander).unwrap().hp, 8);
    assert!(world.get_combat_stats(ghost).is_none());
    assert!(world.get_confusion(ghost).is_none());
    assert_eq!(world.queue.len(), 0);
}

#[test]
fn healing_caps_at_max_hp() {
    let mut world = test_world();
    let target = spawn_fighter(&mut world, 3, 3, 19, 20);
    add_effect(
        &mut world,
        None,
        EffectType::Healing { amount: 100 },
        Targets::Single { target },
    );
    run_effects_queue(&mut world);
    assert_eq!(world.get_combat_stats(target).unwrap().hp, 20);
    // healing again changes nothing: already at the cap
    add_effect(&mut world, None, EffectType::Healing { amount: 7 }, Targets::Single { target });
    run_effects_queue(&mut world);
    assert_eq!(world.get_combat_stats(target).unwrap().hp, 20);
}

#[test]
fn tile_damage_hits_every_occupant() {
    let mut world = test_world();
    let a = spawn_fighter(&mut world, 2, 4, 12, 12);
    let b = spawn_fighter(&mut world, 2, 4, 9, 9);
    add_effect(&mut world, None, EffectType::Damage { amount: 5 }, Targets::Tile { tile_idx: 42 });
    run_effects_queue(&mut world);
    assert_eq!(world.get_combat_stats(a).unwrap().hp, 7);
    assert_eq!(world.get_combat_stats(b).unwrap().hp, 4);
}

#[test]
fn tile_healing_and_confusion_reach_every_occupant() {
    let mut world = test_world();
    let a = spawn_fighter(&mut world, 2, 4, 3, 12);
    let b = spawn_fighter(&mut world, 2, 4, 9, 10);
    add_effect(&mut world, None, EffectType::Healing { amount: 5 }, Targets::Tile { tile_idx: 42 });
    add_effect(
        &mut world,
        None,
        EffectType::Confusion { turns: 2 },
        Targets::Tile { tile_idx: 42 },
    );
    run_effects_queue(&mut world);
    // healing raised both, capped at each maximum; confusion reached both
    assert_eq!(world.get_combat_stats(a).unwrap().hp, 8);
    assert_eq!(world.get_combat_stats(b).unwrap().hp, 10);
    assert_eq!(world.get_confusion(a).unwrap().turns, 2);
    assert_eq!(world.get_confusion(b).unwrap().turns, 2);
}

#[test]
fn target_list_applies_in_order_to_each_entry() {
    let mut world = test_world();
    let a = spawn_fighter(&mut world, 1, 1, 10, 10);
    let b = spawn_fighter(&mut world, 2, 2, 10, 10);
    add_effect(
        &mut world,
        None,
        EffectType::Damage { amount: 4 },
        Targets::TargetList { targets: vec![a, b, a] },
    );
    run_effects_queue(&mut world);
    // a is listed twice and hit twice; b once
    assert_eq!(world.get_combat_stats(a).unwrap().hp, 2);
    assert_eq!(world.get_combat_stats(b).unwrap().hp, 6);
}

#[test]
fn confusion_overwrites_and_gates_action() {
    let mut world = test_world();
    let _player = spawn_player(&mut world, 8, 8);
    let monster = spawn_monster(&mut world, 1, 1, vec![Point::new(8, 8)]);
    add_effect(
        &mut world,
        None,
        EffectType::Confusion { turns: 4 },
        Targets::Single { target: monster },
    );
    add_effect(
        &mut world,
        None,
        EffectType::Confusion { turns: 1 },
        Targets::Single { target: monster },
    );
    run_effects_queue(&mut world);
    // overwrite semantics: the later effect replaced the earlier count
    assert_eq!(world.get_confusion(monster).unwrap().turns, 1);
    // the confused monster burns its one turn and neither moves nor attacks
    let before = world.get_position(monster).unwrap();
    monster_act(
        &mut world,
        monster,
        Some(&NavigationPath { success: true, steps: vec![11, 12, 13] }),
    );
    assert!(world.get_confusion(monster).is_none());
    assert_eq!(world.get_position(monster).unwrap(), before);
    assert!(world.get_wants_melee(monster).is_none());
    // the next turn it acts again: with the player far away and visible it moves
    monster_act(
        &mut world,
        monster,
        Some(&NavigationPath { success: true, steps: vec![11, 12, 13] }),
    );
    assert_eq!(world.get_position(monster).unwrap().pt, Point::new(2, 1));
}

#[test]
fn adjacent_monster_attacks_instead_of_moving() {
    let mut world = test_world();
    let player = spawn_player(&mut world, 3, 3);
    // diagonal neighbour: Euclidean distance about 1.4, inside melee reach
    let monster = spawn_monster(&mut world, 4, 4, vec![Point::new(3, 3)]);
    monster_act(
        &mut world,
        monster,
        Some(&NavigationPath { success: true, steps: vec![44, 33] }),
    );
    assert_eq!(world.get_wants_melee(monster).unwrap().target, player);
    assert_eq!(world.get_position(monster).unwrap().pt, Point::new(4, 4));
}

#[test]
fn visible_monster_moves_one_step_along_its_path() {
    let mut world = test_world();
    let _player = spawn_player(&mut world, 7, 3);
    let monster = spawn_monster(&mut world, 2, 3, vec![Point::new(7, 3)]);
    world.turn_state = TurnState::MonsterTurn;
    let requests = path_requests(&world);
    assert_eq!(requests.len(), 1);
    assert_eq!(requests[0].entity, monster);
    assert_eq!(requests[0].from_idx, world.map.point2d_to_index(Point::new(2, 3)));
    assert_eq!(requests[0].to_idx, world.map.point2d_to_index(Point::new(7, 3)));
    // a valid 4-step path toward the player: one step is taken per tick
    let steps = vec![
        world.map.point2d_to_index(Point::new(2, 3)),
        world.map.point2d_to_index(Point::new(3, 3)),
        world.map.point2d_to_index(Point::new(4, 3)),
        world.map.point2d_to_index(Point::new(5, 3)),
        world.map.point2d_to_index(Point::new(6, 3)),
    ];
    let system = MonsterAISystem {};
    system.run(&mut world, &vec![(monster, NavigationPath { success: true, steps })]);
    assert_eq!(world.get_position(monster).unwrap().pt, Point::new(3, 3));
}

#[test]
fn monster_without_sight_stays_put() {
    let mut world = test_world();
    let _player = spawn_player(&mut world, 7, 3);
    let monster = spawn_monster(&mut world, 2, 3, Vec::new());
    world.turn_state = TurnState::MonsterTurn;
    assert_eq!(path_requests(&world).len(), 0);
    let system = MonsterAISystem {};
    system.run(&mut world, &Vec::new());
    assert_eq!(world.get_position(monster).unwrap().pt, Point::new(2, 3));
    assert!(world.get_wants_melee(monster).is_none());
}

#[test]
fn ai_is_gated_on_the_monster_turn() {
    let mut world = test_world();
    let _player = spawn_player(&mut world, 3, 3);
    let monster = spawn_monster(&mut world, 4, 4, vec![Point::new(3, 3)]);
    world.turn_state = TurnState::PlayerTurn;
    let system = MonsterAISystem {};
    system.run(&mut world, &Vec::new());
    assert!(world.get_wants_melee(monster).is_none());
}

#[test]
fn player_death_ends_the_game_instead_of_deleting() {
    let mut world = test_world();
    let player = spawn_player(&mut world, 3, 3);
    add_effect(
        &mut world,
        None,
        EffectType::Damage { amount: 99 },
        Targets::Single { target: player },
    );
    run_effects_queue(&mut world);
    assert!(world.is_valid(player));
    assert_eq!(world.turn_state, TurnState::GameOver);
    assert_eq!(world.get_combat_stats(player).unwrap().hp, 0);
    assert_eq!(world.damage_taken, 30);
}

#[test]
fn item_use_synthesizes_effects_and_consumes_the_item() {
    let mut world = test_world();
    let victim = spawn_fighter(&mut world, 2, 4, 12, 12);
    let scroll = world.create_entity();
    world.set_item(scroll, dungeon_core::components::Item {});
    world.set_consumable(scroll, dungeon_core::components::Consumable {});
    world.set_inflicts_damage(scroll, dungeon_core::components::InflictsDamage { damage: 8 });
    add_effect(
        &mut world,
        None,
        EffectType::ItemUse { item: scroll },
        Targets::Tile { tile_idx: 42 },
    );
    run_effects_queue(&mut world);
    assert_eq!(world.get_combat_stats(victim).unwrap().hp, 4);
    assert!(!world.is_valid(scroll));
    // using the consumed item again is a silent no-op
    add_effect(
        &mut world,
        None,
        EffectType::ItemUse { item: scroll },
        Targets::Tile { tile_idx: 42 },
    );
    run_effects_queue(&mut world);
    assert_eq!(world.get_combat_stats(victim).unwrap().hp, 4);
}

#[test]
fn effects_resolve_in_enqueue_order() {
    let mut world = test_world();
    let a = spawn_fighter(&mut world, 1, 1, 10, 20);
    let b = spawn_fighter(&mut world, 2, 2, 10, 20);
    add_effect(&mut world, None, EffectType::Healing { amount: 3 }, Targets::Single { target: a });
    add_effect(&mut world, None, EffectType::Damage { amount: 2 }, Targets::Single { target: b });
    add_effect(&mut world, None, EffectType::Confusion { turns: 2 }, Targets::Single { target: b });
    run_effects_queue(&mut world);
    assert_eq!(
        world.processed,
        vec![EffectLabel::Healing, EffectLabel::Damage, EffectLabel::Confusion]
    );
    assert_eq!(world.get_combat_stats(a).unwrap().hp, 13);
    assert_eq!(world.get_combat_stats(b).unwrap().hp, 8);
    assert_eq!(world.get_confusion(b).unwrap().turns, 2);
}

#[test]
fn damage_floors_at_zero_and_counts_player_events() {
    let mut world = test_world();
    let player = spawn_player(&mut world, 8, 8);
    let victim = spawn_fighter(&mut world, 2, 4, 3, 10);
    add_effect(
        &mut world,
        Some(player),
        EffectType::Damage { amount: 50 },
        Targets::Single { target: victim },
    );
    run_effects_queue(&mut world);
    // only three points could be dealt, and the player inflicted them
    assert_eq!(world.damage_inflicted, 3);
    assert!(!world.is_valid(victim));
}

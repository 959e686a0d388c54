//! Effect handlers for gameplay state: damage, healing, confusion, death and
//! the bloodstain cosmetic. Every handler treats a vanished target as a
//! silent no-op, because cascades routinely race death against further
//! effects.

use vstd::prelude::*;
use crate::components::{CombatStats, Confusion, Entity};
use crate::effects::{add_effect, cnt_damage, cnt_death, cnt_itemuse, EffectSpawner, EffectType, Targets};
use crate::turn::TurnState;
use crate::map::GameMap;
use crate::world::{lemma_combat_upto_agree, World};

verus! {

/// The damage actually dealt: never negative, never more than the remaining
/// hit points, nothing at all to an entity already at or below zero.
pub open spec fn spec_dealt(hp: int, amount: int) -> int {
    if hp <= 0 || amount <= 0 {
        0
    } else if amount <= hp {
        amount
    } else {
        hp
    }
}

/// The hit points after healing: raised by the amount but capped at the
/// maximum; a non-positive amount heals nothing.
pub open spec fn spec_healed(hp: int, max_hp: int, amount: int) -> int {
    if amount <= 0 || hp >= max_hp {
        hp
    } else if hp + amount <= max_hp {
        hp + amount
    } else {
        max_hp
    }
}

/// The amount carried by a Damage effect.
pub open spec fn spec_damage_amount(e: EffectType) -> int {
    match e {
        EffectType::Damage { amount } => amount as int,
        _ => 0,
    }
}

/// The amount carried by a Healing effect.
pub open spec fn spec_heal_amount(e: EffectType) -> int {
    match e {
        EffectType::Healing { amount } => amount as int,
        _ => 0,
    }
}

/// The turn count carried by a Confusion effect.
pub open spec fn spec_confusion_turns(e: EffectType) -> int {
    match e {
        EffectType::Confusion { turns } => turns as int,
        _ => 0,
    }
}

/// The death effect a lethal hit enqueues: same creator, same target.
pub open spec fn death_spawner(creator: Option<Entity>, target: Entity) -> EffectSpawner {
    EffectSpawner {
        creator,
        effect_type: EffectType::EntityDeath,
        targets: Targets::Single { target },
    }
}

/// The cosmetic a death enqueues at the victim's last tile.
pub open spec fn bloodstain_spawner(tile_idx: usize) -> EffectSpawner {
    EffectSpawner {
        creator: None,
        effect_type: EffectType::Bloodstain,
        targets: Targets::Tile { tile_idx },
    }
}

/// Saturating event-counter bump.
pub open spec fn spec_sat_add(a: u64, d: int) -> u64 {
    if a + d <= u64::MAX {
        (a + d) as u64
    } else {
        u64::MAX
    }
}

/// Whether `e` is the player avatar.
pub open spec fn spec_is_player(w: World, e: Entity) -> bool {
    w.player_entity == Some(e)
}


/// The full effect of resolving a Damage effect against one entity: a
/// vanished or non-combat target changes nothing; otherwise hit points drop
/// by the dealt amount and a lethal hit appends an EntityDeath for the same
/// creator and target at the queue's tail.
pub open spec fn damage_applied(pre: World, post: World, effect: EffectSpawner, target: Entity) -> bool {
    if !(pre.valid(target) && pre.combat_stats.at(target.idx as int) is Some) {
        post == pre
    } else {
        let stats = pre.combat_stats.at(target.idx as int).unwrap();
        let d = spec_dealt(stats.hp as int, spec_damage_amount(effect.effect_type));
        &&& post == (World {
            combat_stats: post.combat_stats,
            queue: post.queue,
            damage_taken: post.damage_taken,
            damage_inflicted: post.damage_inflicted,
            ..pre
        })
        &&& post.combat_stats.slots@ == pre.combat_stats.slots@.update(
            target.idx as int,
            Some(CombatStats { hp: (stats.hp - d) as i32, ..stats }),
        )
        &&& (stats.hp - d < 1 ==> post.queue@ == pre.queue@.push(
            death_spawner(effect.creator, target),
        ))
        &&& (stats.hp - d >= 1 ==> post.queue@ == pre.queue@)
    }
}

/// The full effect of resolving an EntityDeath against one entity: a stale
/// handle changes nothing; the player's death flips the game over; any other
/// victim is deleted and, if it stood somewhere, a Bloodstain for its last
/// tile is appended at the queue's tail.
pub open spec fn death_applied(pre: World, post: World, effect: EffectSpawner, target: Entity) -> bool {
    if !pre.valid(target) {
        post == pre
    } else if spec_is_player(pre, target) {
        post == (World { turn_state: TurnState::GameOver, ..pre })
    } else {
        &&& (forall|x: Entity| post.valid(x) == (pre.valid(x) && x != target))
        &&& (pre.positions.at(target.idx as int) is Some ==> post.queue@ == pre.queue@.push(
            bloodstain_spawner(
                (pre.map.spec_idx_of(pre.positions.at(target.idx as int).unwrap().pt)) as usize,
            ),
        ))
        &&& (pre.positions.at(target.idx as int) is None ==> post.queue@ == pre.queue@)
        &&& post.map == pre.map
        &&& post.turn_state == pre.turn_state
        &&& post.processed@ == pre.processed@
        &&& post.log@ == pre.log@
    }
}

/// The full effect of resolving a Bloodstain against a tile: the tile's flag
/// goes up, nothing else in the world moves; off the map nothing happens.
pub open spec fn bloodstain_applied(pre: World, post: World, tile_idx: usize) -> bool {
    &&& post == (World { map: post.map, ..pre })
    &&& (tile_idx < pre.map.spec_tile_count() ==> {
        &&& post.map == (GameMap { bloodstains: post.map.bloodstains, ..pre.map })
        &&& post.map.bloodstains@ == pre.map.bloodstains@.update(tile_idx as int, true)
    })
    &&& (tile_idx >= pre.map.spec_tile_count() ==> post == pre)
}

/// Reduce the target's hit points by the effect's amount, floored at zero; a
/// hit that leaves the target at or below zero enqueues an EntityDeath with
/// the same creator against the same target — death is never applied inline.
/// Resolving against a vanished or non-combat target changes nothing.
pub fn inflict_damage(world: &mut World, effect: &EffectSpawner, target: Entity)
    requires
        old(world).wf(),
        effect.effect_type is Damage,
    ensures
        final(world).wf(),
        !(old(world).valid(target) && old(world).combat_stats.at(target.idx as int) is Some)
            ==> *final(world) == *old(world),
        old(world).valid(target) && old(world).combat_stats.at(target.idx as int) is Some ==> {
            let stats = old(world).combat_stats.at(target.idx as int).unwrap();
            let d = spec_dealt(stats.hp as int, spec_damage_amount(effect.effect_type));
            &&& *final(world) == (World {
                combat_stats: final(world).combat_stats,
                queue: final(world).queue,
                damage_taken: final(world).damage_taken,
                damage_inflicted: final(world).damage_inflicted,
                ..*old(world)
            })
            &&& final(world).combat_stats.slots@ == old(world).combat_stats.slots@.update(
                target.idx as int,
                Some(CombatStats { hp: (stats.hp - d) as i32, ..stats }),
            )
            &&& (stats.hp - d < 1 ==> final(world).queue@ == old(world).queue@.push(
                death_spawner(effect.creator, target),
            ))
            &&& (stats.hp - d >= 1 ==> final(world).queue@ == old(world).queue@)
            &&& final(world).damage_taken == if spec_is_player(*old(world), target) {
                spec_sat_add(old(world).damage_taken, d)
            } else {
                old(world).damage_taken
            }
            &&& final(world).damage_inflicted == if old(world).player_entity is Some
                && effect.creator == old(world).player_entity {
                spec_sat_add(old(world).damage_inflicted, d)
            } else {
                old(world).damage_inflicted
            }
        },
        final(world).combat_count() == old(world).combat_count(),
        cnt_itemuse(final(world).queue@) == cnt_itemuse(old(world).queue@),
        cnt_damage(final(world).queue@) == cnt_damage(old(world).queue@),
        damage_applied(*old(world), *final(world), *effect, target),
{
    let ghost pre = *world;
    let amount = match effect.effect_type {
        EffectType::Damage { amount } => amount,
        _ => 0,
    };
    let stats_opt = world.get_combat_stats(target);
    match stats_opt {
        None => {},
        Some(stats) => {
            let d: i32 = if stats.hp <= 0 {
                0
            } else if amount <= 0 {
                0
            } else if amount <= stats.hp {
                amount
            } else {
                stats.hp
            };
            assert(d as int == spec_dealt(stats.hp as int, amount as int));
            let new_hp = stats.hp - d;
            world.set_combat_stats(target, CombatStats { hp: new_hp, ..stats });
            let player = world.player_entity;
            match player {
                Some(p) => {
                    if p.idx == target.idx && p.gen == target.gen {
                        if world.damage_taken <= u64::MAX - (d as u64) {
                            world.damage_taken = world.damage_taken + (d as u64);
                        } else {
                            world.damage_taken = u64::MAX;
                        }
                    }
                    let creator_is_player = match effect.creator {
                        Some(c) => c.idx == p.idx && c.gen == p.gen,
                        None => false,
                    };
                    if creator_is_player {
                        if world.damage_inflicted <= u64::MAX - (d as u64) {
                            world.damage_inflicted = world.damage_inflicted + (d as u64);
                        } else {
                            world.damage_inflicted = u64::MAX;
                        }
                    }
                },
                None => {},
            }
            if new_hp < 1 {
                add_effect(
                    world,
                    effect.creator,
                    EffectType::EntityDeath,
                    Targets::Single { target },
                );
                proof {
                    crate::effects::lemma_cnt_push(
                        pre.queue@,
                        death_spawner(effect.creator, target),
                    );
                }
            }
            proof {
                assert forall|i: int| 0 <= i < pre.n() implies pre.has_stats_at(i)
                    == world.has_stats_at(i) by {}
                lemma_combat_upto_agree(pre, *world, pre.n());
            }
        },
    }
}

/// Raise the target's hit points by the effect's amount, capped at the
/// target's maximum. Resolving against a vanished or non-combat target
/// changes nothing.
pub fn heal_damage(world: &mut World, effect: &EffectSpawner, target: Entity)
    requires
        old(world).wf(),
        effect.effect_type is Healing,
    ensures
        final(world).wf(),
        !(old(world).valid(target) && old(world).combat_stats.at(target.idx as int) is Some)
            ==> *final(world) == *old(world),
        old(world).valid(target) && old(world).combat_stats.at(target.idx as int) is Some ==> {
            let stats = old(world).combat_stats.at(target.idx as int).unwrap();
            let h = spec_healed(
                stats.hp as int,
                stats.max_hp as int,
                spec_heal_amount(effect.effect_type),
            );
            &&& *final(world) == (World {
                combat_stats: final(world).combat_stats,
                ..*old(world)
            })
            &&& final(world).combat_stats.slots@ == old(world).combat_stats.slots@.update(
                target.idx as int,
                Some(CombatStats { hp: h as i32, ..stats }),
            )
        },
        final(world).queue@ == old(world).queue@,
        final(world).combat_count() == old(world).combat_count(),
        heal_applied(*old(world), *final(world), *effect, target),
{
    let ghost pre = *world;
    let amount = match effect.effect_type {
        EffectType::Healing { amount } => amount,
        _ => 0,
    };
    let stats_opt = world.get_combat_stats(target);
    match stats_opt {
        None => {},
        Some(stats) => {
            let new_hp: i32 = if amount <= 0 || stats.hp >= stats.max_hp {
                stats.hp
            } else {
                // hp < max_hp here, so the sum stays within i64 and the cap
                // brings it back into i32 range
                let sum: i64 = (stats.hp as i64) + (amount as i64);
                if sum <= (stats.max_hp as i64) {
                    sum as i32
                } else {
                    stats.max_hp
                }
            };
            assert(new_hp as int == spec_healed(stats.hp as int, stats.max_hp as int, amount as int));
            world.set_combat_stats(target, CombatStats { hp: new_hp, ..stats });
            proof {
                assert forall|i: int| 0 <= i < pre.n() implies pre.has_stats_at(i)
                    == world.has_stats_at(i) by {}
                lemma_combat_upto_agree(pre, *world, pre.n());
            }
        },
    }
}

/// Attach or refresh a Confusion component with the effect's turn count:
/// overwrite semantics, the new value replaces the old and does not stack.
/// Resolving against a vanished target changes nothing.
pub fn add_confusion(world: &mut World, effect: &EffectSpawner, target: Entity)
    requires
        old(world).wf(),
        effect.effect_type is Confusion,
    ensures
        final(world).wf(),
        !old(world).valid(target) ==> *final(world) == *old(world),
        old(world).valid(target) ==> {
            &&& *final(world) == (World { confusions: final(world).confusions, ..*old(world) })
            &&& final(world).confusions.slots@ == old(world).confusions.slots@.update(
                target.idx as int,
                Some(Confusion { turns: spec_confusion_turns(effect.effect_type) as i32 }),
            )
        },
        final(world).queue@ == old(world).queue@,
        final(world).combat_count() == old(world).combat_count(),
        confusion_applied(*old(world), *final(world), *effect, target),
{
    let ghost pre = *world;
    let turns = match effect.effect_type {
        EffectType::Confusion { turns } => turns,
        _ => 0,
    };
    if world.is_valid(target) {
        world.set_confusion(target, Confusion { turns });
        proof {
            assert forall|i: int| 0 <= i < pre.n() implies pre.has_stats_at(i)
                == world.has_stats_at(i) by {}
            lemma_combat_upto_agree(pre, *world, pre.n());
        }
    }
}


/// The full effect of resolving a Healing effect against one entity: a
/// vanished or non-combat target changes nothing; otherwise hit points rise
/// by the amount, capped at the target's maximum, and nothing else moves.
pub open spec fn heal_applied(pre: World, post: World, effect: EffectSpawner, target: Entity) -> bool {
    if !(pre.valid(target) && pre.combat_stats.at(target.idx as int) is Some) {
        post == pre
    } else {
        let stats = pre.combat_stats.at(target.idx as int).unwrap();
        let h = spec_healed(stats.hp as int, stats.max_hp as int, spec_heal_amount(effect.effect_type));
        &&& post == (World { combat_stats: post.combat_stats, ..pre })
        &&& post.combat_stats.slots@ == pre.combat_stats.slots@.update(
            target.idx as int,
            Some(CombatStats { hp: h as i32, ..stats }),
        )
    }
}

/// The full effect of resolving a Confusion effect against one entity: a
/// vanished target changes nothing; otherwise the component is attached or
/// refreshed with the effect's turn count — overwrite, never additive — and
/// nothing else moves.
pub open spec fn confusion_applied(pre: World, post: World, effect: EffectSpawner, target: Entity) -> bool {
    if !pre.valid(target) {
        post == pre
    } else {
        &&& post == (World { confusions: post.confusions, ..pre })
        &&& post.confusions.slots@ == pre.confusions.slots@.update(
            target.idx as int,
            Some(Confusion { turns: spec_confusion_turns(effect.effect_type) as i32 }),
        )
    }
}

/// Resolve a death. The player's death ends the game instead of deleting the
/// avatar; any other victim is dropped from the spatial index and the store in
/// one step, and a cosmetic Bloodstain is enqueued at its last tile.
/// Resolving against a vanished target changes nothing.
pub fn death(world: &mut World, effect: &EffectSpawner, target: Entity)
    requires
        old(world).wf(),
        effect.effect_type is EntityDeath,
    ensures
        final(world).wf(),
        !old(world).valid(target) ==> *final(world) == *old(world),
        old(world).valid(target) && spec_is_player(*old(world), target) ==> *final(world) == (World {
            turn_state: TurnState::GameOver,
            ..*old(world)
        }),
        old(world).valid(target) && !spec_is_player(*old(world), target) ==> {
            &&& (forall|x: Entity| final(world).valid(x) == (old(world).valid(x) && x != target))
            &&& (old(world).positions.at(target.idx as int) is Some ==> final(world).queue@ == old(
                world,
            ).queue@.push(
                bloodstain_spawner(
                    (old(world).map.spec_idx_of(
                        old(world).positions.at(target.idx as int).unwrap().pt,
                    )) as usize,
                ),
            ))
            &&& (old(world).positions.at(target.idx as int) is None ==> final(world).queue@ == old(
                world,
            ).queue@)
            &&& final(world).map == old(world).map
            &&& final(world).turn_state == old(world).turn_state
            &&& final(world).processed@ == old(world).processed@
            &&& final(world).log@ == old(world).log@
        },
        final(world).combat_count() <= old(world).combat_count(),
        cnt_itemuse(final(world).queue@) == cnt_itemuse(old(world).queue@),
        cnt_damage(final(world).queue@) == cnt_damage(old(world).queue@),
        cnt_death(final(world).queue@) == cnt_death(old(world).queue@),
        death_applied(*old(world), *final(world), *effect, target),
{
    let ghost pre = *world;
    if !world.is_valid(target) {
        return ;
    }
    let is_player = match world.player_entity {
        Some(p) => p.idx == target.idx && p.gen == target.gen,
        None => false,
    };
    if is_player {
        world.turn_state = TurnState::GameOver;
        proof {
            assert forall|i: int| 0 <= i < pre.n() implies pre.has_stats_at(i)
                == world.has_stats_at(i) by {}
            lemma_combat_upto_agree(pre, *world, pre.n());
        }
        return ;
    }
    let tile = world.entity_position(target);
    let _ = world.delete_entity(target);
    let ghost mid = *world;
    match tile {
        Some(t) => {
            add_effect(world, None, EffectType::Bloodstain, Targets::Tile { tile_idx: t });
            proof {
                crate::effects::lemma_cnt_push(mid.queue@, bloodstain_spawner(t));
                assert forall|i: int| 0 <= i < mid.n() implies mid.has_stats_at(i)
                    == world.has_stats_at(i) by {}
                lemma_combat_upto_agree(mid, *world, mid.n());
            }
        },
        None => {},
    }
}

/// Mark the tile as bloodstained: cosmetic, tile-only, never gameplay state.
/// A no-op off the map.
pub fn bloodstain(world: &mut World, tile_idx: usize)
    requires
        old(world).wf(),
    ensures
        final(world).wf(),
        *final(world) == (World { map: final(world).map, ..*old(world) }),
        tile_idx < old(world).map.spec_tile_count() ==> final(world).map.bloodstains@ == old(
            world,
        ).map.bloodstains@.update(tile_idx as int, true),
        tile_idx >= old(world).map.spec_tile_count() ==> *final(world) == *old(world),
        final(world).queue@ == old(world).queue@,
        final(world).combat_count() == old(world).combat_count(),
        bloodstain_applied(*old(world), *final(world), tile_idx),
{
    let ghost pre = *world;
    let count = world.map.tile_count();
    if tile_idx < count {
        world.map.set_bloodstain(tile_idx, true);
        proof {
            assert(world.map.wf());
            assert forall|i: int| 0 <= i < pre.n() implies pre.has_stats_at(i)
                == world.has_stats_at(i) by {}
            lemma_combat_upto_agree(pre, *world, pre.n());
            assert forall|i: int|
                0 <= i < world.n() && world.alive@[i] && #[trigger] world.positions.at(
                    i,
                ) is Some implies {
                let p = world.positions.at(i).unwrap();
                &&& world.map.spec_in_bounds(p.pt)
                &&& world.spatial.contains_at(world.map.spec_idx_of(p.pt), world.entity_at(i))
            } by {
                assert(pre.alive@[i] && pre.positions.at(i) is Some);
            }
        }
    }
}

} // verus!

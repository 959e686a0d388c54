//! The deferred effect-resolution engine: the effect queue, the target
//! resolver that fans a declared target out into concrete recipients, and the
//! drain loop that empties the queue once per tick.

use vstd::prelude::*;
use crate::components::{ColorPair, Entity, FontCharType};
use crate::world::World;
use crate::damage;
use crate::damage::{
    bloodstain_applied, bloodstain_spawner, confusion_applied, damage_applied, death_applied,
    death_spawner, heal_applied, spec_damage_amount, spec_is_player,
};
use crate::particles::particle_applied;
use crate::triggers::item_applied;
use crate::particles;
use crate::triggers;

verus! {

/// What a pending effect does when it is resolved.
#[derive(Clone, Copy, Debug, PartialEq, Eq, Structural)]
pub enum EffectType {
    Bloodstain,
    EntityDeath,
    Damage { amount: i32 },
    Healing { amount: i32 },
    Confusion { turns: i32 },
    ItemUse { item: Entity },
    Particle { glyph: FontCharType, color: ColorPair, lifespan: u32 },
}

/// The declared target specification of a pending effect, expanded into
/// concrete entities and tiles by the target resolver.
#[derive(Clone, Debug)]
pub enum Targets {
    Single { target: Entity },
    TargetList { targets: Vec<Entity> },
    Tile { tile_idx: usize },
    Tiles { tiles: Vec<usize> },
}

/// One pending effect: who caused it, what it does, and what it is aimed at.
/// Created by any producer, consumed exactly once by the drain loop.
#[derive(Clone, Debug)]
pub struct EffectSpawner {
    pub creator: Option<Entity>,
    pub effect_type: EffectType,
    pub targets: Targets,
}

/// The kind tag of a resolved effect, recorded by the drain loop in resolution
/// order so the outside can observe the FIFO and cascade discipline.
#[derive(Clone, Copy, Debug, PartialEq, Eq, Structural)]
pub enum EffectLabel {
    Bloodstain,
    EntityDeath,
    Damage,
    Healing,
    Confusion,
    ItemUse,
    Particle,
}

/// The label of an effect.
pub open spec fn spec_label_of(e: EffectType) -> EffectLabel {
    match e {
        EffectType::Bloodstain => EffectLabel::Bloodstain,
        EffectType::EntityDeath => EffectLabel::EntityDeath,
        EffectType::Damage { .. } => EffectLabel::Damage,
        EffectType::Healing { .. } => EffectLabel::Healing,
        EffectType::Confusion { .. } => EffectLabel::Confusion,
        EffectType::ItemUse { .. } => EffectLabel::ItemUse,
        EffectType::Particle { .. } => EffectLabel::Particle,
    }
}

/// The label of an effect, computed.
pub fn label_of(e: &EffectType) -> (r: EffectLabel)
    ensures
        r == spec_label_of(*e),
{
    match e {
        EffectType::Bloodstain => EffectLabel::Bloodstain,
        EffectType::EntityDeath => EffectLabel::EntityDeath,
        EffectType::Damage { .. } => EffectLabel::Damage,
        EffectType::Healing { .. } => EffectLabel::Healing,
        EffectType::Confusion { .. } => EffectLabel::Confusion,
        EffectType::ItemUse { .. } => EffectLabel::ItemUse,
        EffectType::Particle { .. } => EffectLabel::Particle,
    }
}

/// Number of queue entries holding item-use effects.
pub open spec fn cnt_itemuse(q: Seq<EffectSpawner>) -> nat
    decreases q.len(),
{
    if q.len() == 0 {
        0
    } else {
        (if q[0].effect_type is ItemUse {
            1nat
        } else {
            0nat
        }) + cnt_itemuse(q.drop_first())
    }
}

/// Number of queue entries holding damage effects.
pub open spec fn cnt_damage(q: Seq<EffectSpawner>) -> nat
    decreases q.len(),
{
    if q.len() == 0 {
        0
    } else {
        (if q[0].effect_type is Damage {
            1nat
        } else {
            0nat
        }) + cnt_damage(q.drop_first())
    }
}

/// Number of queue entries holding entity-death effects.
pub open spec fn cnt_death(q: Seq<EffectSpawner>) -> nat
    decreases q.len(),
{
    if q.len() == 0 {
        0
    } else {
        (if q[0].effect_type is EntityDeath {
            1nat
        } else {
            0nat
        }) + cnt_death(q.drop_first())
    }
}

/// Appending an effect to the queue raises each counter by exactly that
/// effect's contribution.
pub proof fn lemma_cnt_push(q: Seq<EffectSpawner>, e: EffectSpawner)
    ensures
        cnt_itemuse(q.push(e)) == cnt_itemuse(q) + (if e.effect_type is ItemUse {
            1nat
        } else {
            0nat
        }),
        cnt_damage(q.push(e)) == cnt_damage(q) + (if e.effect_type is Damage {
            1nat
        } else {
            0nat
        }),
        cnt_death(q.push(e)) == cnt_death(q) + (if e.effect_type is EntityDeath {
            1nat
        } else {
            0nat
        }),
    decreases q.len(),
{
    if q.len() == 0 {
        assert(q.push(e)[0] == e);
        assert(q.push(e).drop_first() =~= Seq::<EffectSpawner>::empty());
        assert(cnt_itemuse(Seq::<EffectSpawner>::empty()) == 0);
        assert(cnt_damage(Seq::<EffectSpawner>::empty()) == 0);
        assert(cnt_death(Seq::<EffectSpawner>::empty()) == 0);
        assert(cnt_itemuse(q.push(e)) == (if e.effect_type is ItemUse { 1nat } else { 0nat })
            + cnt_itemuse(q.push(e).drop_first()));
        assert(cnt_damage(q.push(e)) == (if e.effect_type is Damage { 1nat } else { 0nat })
            + cnt_damage(q.push(e).drop_first()));
        assert(cnt_death(q.push(e)) == (if e.effect_type is EntityDeath { 1nat } else { 0nat })
            + cnt_death(q.push(e).drop_first()));
    } else {
        assert(q.push(e)[0] == q[0]);
        assert(q.push(e).drop_first() =~= q.drop_first().push(e));
        lemma_cnt_push(q.drop_first(), e);
        assert(cnt_itemuse(q.push(e)) == (if q[0].effect_type is ItemUse { 1nat } else { 0nat })
            + cnt_itemuse(q.push(e).drop_first()));
        assert(cnt_damage(q.push(e)) == (if q[0].effect_type is Damage { 1nat } else { 0nat })
            + cnt_damage(q.push(e).drop_first()));
        assert(cnt_death(q.push(e)) == (if q[0].effect_type is EntityDeath { 1nat } else { 0nat })
            + cnt_death(q.push(e).drop_first()));
        assert(cnt_itemuse(q) == (if q[0].effect_type is ItemUse { 1nat } else { 0nat })
            + cnt_itemuse(q.drop_first()));
        assert(cnt_damage(q) == (if q[0].effect_type is Damage { 1nat } else { 0nat })
            + cnt_damage(q.drop_first()));
        assert(cnt_death(q) == (if q[0].effect_type is EntityDeath { 1nat } else { 0nat })
            + cnt_death(q.drop_first()));
    }
}

/// Enqueue an effect at the tail of the process-wide queue. Callable from any
/// system at any point in a tick; never blocks, never fails.
pub fn add_effect(world: &mut World, creator: Option<Entity>, effect_type: EffectType, targets: Targets)
    requires
        old(world).wf(),
    ensures
        final(world).wf(),
        *final(world) == (World { queue: final(world).queue, ..*old(world) }),
        final(world).queue@ == old(world).queue@.push(
            EffectSpawner { creator, effect_type, targets },
        ),
{
    world.queue.push_back(EffectSpawner { creator, effect_type, targets });
}

/// The fixed allow-list of effect kinds that, aimed at a tile, additionally
/// hit every entity standing on it. Cosmetic tile-only kinds stay off it.
pub open spec fn spec_hits_entities(e: EffectType) -> bool {
    e is Damage || e is Healing || e is Confusion
}

/// Whether a tile-targeted effect of this kind also hits the tile's
/// occupants.
pub fn tile_effect_hits_entities(effect: &EffectType) -> (r: bool)
    ensures
        r == spec_hits_entities(*effect),
{
    match effect {
        EffectType::Damage { .. } => true,
        EffectType::Healing { .. } => true,
        EffectType::Confusion { .. } => true,
        _ => false,
    }
}

/// Structural equality of two target specifications.
pub open spec fn same_targets(a: Targets, b: Targets) -> bool {
    match (a, b) {
        (Targets::Single { target: x }, Targets::Single { target: y }) => x == y,
        (Targets::TargetList { targets: x }, Targets::TargetList { targets: y }) => x@ == y@,
        (Targets::Tile { tile_idx: x }, Targets::Tile { tile_idx: y }) => x == y,
        (Targets::Tiles { tiles: x }, Targets::Tiles { tiles: y }) => x@ == y@,
        _ => false,
    }
}

/// A fresh copy of a target specification.
pub fn clone_targets(t: &Targets) -> (r: Targets)
    ensures
        same_targets(r, *t),
{
    match t {
        Targets::Single { target } => Targets::Single { target: *target },
        Targets::Tile { tile_idx } => Targets::Tile { tile_idx: *tile_idx },
        Targets::TargetList { targets } => {
            let mut copy: Vec<Entity> = Vec::new();
            let n = targets.len();
            let mut i: usize = 0;
            while i < n
                invariant
                    i <= n,
                    n == targets@.len(),
                    copy@ == targets@.subrange(0, i as int),
                decreases n - i,
            {
                copy.push(targets[i]);
                assert(copy@ == targets@.subrange(0, i + 1 as int));
                i = i + 1;
            }
            assert(targets@.subrange(0, n as int) == targets@);
            Targets::TargetList { targets: copy }
        },
        Targets::Tiles { tiles } => {
            let mut copy: Vec<usize> = Vec::new();
            let n = tiles.len();
            let mut i: usize = 0;
            while i < n
                invariant
                    i <= n,
                    n == tiles@.len(),
                    copy@ == tiles@.subrange(0, i as int),
                decreases n - i,
            {
                copy.push(tiles[i]);
                assert(copy@ == tiles@.subrange(0, i + 1 as int));
                i = i + 1;
            }
            assert(tiles@.subrange(0, n as int) == tiles@);
            Targets::Tiles { tiles: copy }
        },
    }
}

/// The entity a Single target specification names.
pub open spec fn single_target_of(ts: Targets) -> Entity {
    match ts {
        Targets::Single { target } => target,
        _ => Entity { idx: 0, gen: 0 },
    }
}

/// The tile a Tile target specification names.
pub open spec fn single_tile_of(ts: Targets) -> usize {
    match ts {
        Targets::Tile { tile_idx } => tile_idx,
        _ => 0,
    }
}

/// The tile a live, placed entity stands on.
pub open spec fn entity_tile(w: World, e: Entity) -> int {
    w.map.spec_idx_of(w.positions.at(e.idx as int).unwrap().pt)
}

/// The full effect of resolving one non-ItemUse effect against one entity
/// target: the matching handler's relation, with the cosmetic kinds routed
/// through the target's own tile and a no-op when the target is gone or
/// unplaced.
pub open spec fn one_applied(pre: World, post: World, effect: EffectSpawner, target: Entity) -> bool {
    match effect.effect_type {
        EffectType::Damage { .. } => damage_applied(pre, post, effect, target),
        EffectType::EntityDeath => death_applied(pre, post, effect, target),
        EffectType::Healing { .. } => heal_applied(pre, post, effect, target),
        EffectType::Confusion { .. } => confusion_applied(pre, post, effect, target),
        EffectType::Bloodstain => if pre.valid(target) && pre.positions.at(
            target.idx as int,
        ) is Some {
            bloodstain_applied(pre, post, (entity_tile(pre, target)) as usize)
        } else {
            post == pre
        },
        EffectType::Particle { .. } => if pre.valid(target) && pre.positions.at(
            target.idx as int,
        ) is Some {
            particle_applied(pre, post, effect, (entity_tile(pre, target)) as usize)
        } else {
            post == pre
        },
        EffectType::ItemUse { .. } => post == pre,
    }
}

/// The effect applied to each entity of a list in turn, front first, each
/// application starting from the state the previous one left.
pub open spec fn chain_applied(pre: World, post: World, effect: EffectSpawner, ts: Seq<Entity>) -> bool
    decreases ts.len(),
{
    if ts.len() == 0 {
        post == pre
    } else {
        exists|mid: World|
            #[trigger] one_applied(pre, mid, effect, ts[0]) && chain_applied(
                mid,
                post,
                effect,
                ts.drop_first(),
            )
    }
}

/// Extending an application chain by one more target.
pub proof fn lemma_chain_snoc(
    pre: World,
    mid: World,
    post: World,
    effect: EffectSpawner,
    ts: Seq<Entity>,
    t: Entity,
)
    requires
        chain_applied(pre, mid, effect, ts),
        one_applied(mid, post, effect, t),
    ensures
        chain_applied(pre, post, effect, ts.push(t)),
    decreases ts.len(),
{
    if ts.len() == 0 {
        assert(mid == pre);
        assert(ts.push(t)[0] == t);
        assert(ts.push(t).drop_first() =~= Seq::<Entity>::empty());
        assert(one_applied(pre, post, effect, t));
        assert(chain_applied(post, post, effect, ts.push(t).drop_first()));
    } else {
        let m1 = choose|m1: World|
            #[trigger] one_applied(pre, m1, effect, ts[0]) && chain_applied(
                m1,
                mid,
                effect,
                ts.drop_first(),
            );
        lemma_chain_snoc(m1, mid, post, effect, ts.drop_first(), t);
        assert(ts.push(t)[0] == ts[0]);
        assert(ts.push(t).drop_first() =~= ts.drop_first().push(t));
        assert(one_applied(pre, m1, effect, ts.push(t)[0]));
        assert(chain_applied(m1, post, effect, ts.push(t).drop_first()));
    }
}

/// The tile-only leg of resolving an effect against a tile: the cosmetic
/// kinds mark or decorate the tile itself; every other kind leaves it alone.
pub open spec fn cosmetic_leg(mid: World, post: World, effect: EffectSpawner, tile_idx: usize) -> bool {
    match effect.effect_type {
        EffectType::Bloodstain => bloodstain_applied(mid, post, tile_idx),
        EffectType::Particle { .. } => particle_applied(mid, post, effect, tile_idx),
        _ => post == mid,
    }
}

/// The full effect of resolving one non-ItemUse effect against one tile: if
/// the kind hits entities, the effect is applied to every occupant of the
/// tile's snapshot in order; then the tile-only leg runs on the result.
pub open spec fn tile_applied(pre: World, post: World, effect: EffectSpawner, tile_idx: usize) -> bool {
    exists|mid: World|
        {
            &&& (if spec_hits_entities(effect.effect_type) {
                chain_applied(pre, mid, effect, pre.spatial.at(tile_idx as int))
            } else {
                mid == pre
            })
            &&& #[trigger] cosmetic_leg(mid, post, effect, tile_idx)
        }
}

/// The effect applied to each tile of a list in turn, front first.
pub open spec fn tiles_applied(pre: World, post: World, effect: EffectSpawner, ts: Seq<usize>) -> bool
    decreases ts.len(),
{
    if ts.len() == 0 {
        post == pre
    } else {
        exists|mid: World|
            #[trigger] tile_applied(pre, mid, effect, ts[0]) && tiles_applied(
                mid,
                post,
                effect,
                ts.drop_first(),
            )
    }
}

/// Extending a tile chain by one more tile.
pub proof fn lemma_tiles_snoc(
    pre: World,
    mid: World,
    post: World,
    effect: EffectSpawner,
    ts: Seq<usize>,
    t: usize,
)
    requires
        tiles_applied(pre, mid, effect, ts),
        tile_applied(mid, post, effect, t),
    ensures
        tiles_applied(pre, post, effect, ts.push(t)),
    decreases ts.len(),
{
    if ts.len() == 0 {
        assert(mid == pre);
        assert(ts.push(t)[0] == t);
        assert(ts.push(t).drop_first() =~= Seq::<usize>::empty());
        assert(tile_applied(pre, post, effect, t));
        assert(tiles_applied(post, post, effect, ts.push(t).drop_first()));
    } else {
        let m1 = choose|m1: World|
            #[trigger] tile_applied(pre, m1, effect, ts[0]) && tiles_applied(
                m1,
                mid,
                effect,
                ts.drop_first(),
            );
        lemma_tiles_snoc(m1, mid, post, effect, ts.drop_first(), t);
        assert(ts.push(t)[0] == ts[0]);
        assert(ts.push(t).drop_first() =~= ts.drop_first().push(t));
        assert(tile_applied(pre, m1, effect, ts.push(t)[0]));
        assert(tiles_applied(m1, post, effect, ts.push(t).drop_first()));
    }
}

/// The full effect of expanding and resolving one dequeued effect: ItemUse
/// goes to item-trigger resolution; every other kind fans out over its
/// declared target form.
pub open spec fn applicator_applied(pre: World, post: World, eff: EffectSpawner) -> bool {
    match eff.effect_type {
        EffectType::ItemUse { item } => item_applied(pre, post, eff.creator, item, eff.targets),
        _ => match eff.targets {
            Targets::Single { target } => one_applied(pre, post, eff, target),
            Targets::TargetList { targets } => chain_applied(pre, post, eff, targets@),
            Targets::Tile { tile_idx } => tile_applied(pre, post, eff, tile_idx),
            Targets::Tiles { tiles } => tiles_applied(pre, post, eff, tiles@),
        },
    }
}

/// One drain iteration: the head effect leaves the queue, its kind joins the
/// processed trace, and the resolver's full relation links the two states.
pub open spec fn full_step(pre: World, post: World) -> bool {
    &&& pre.queue@.len() > 0
    &&& exists|mid: World|
        {
            &&& mid == (World { queue: mid.queue, processed: mid.processed, ..pre })
            &&& mid.queue@ == pre.queue@.drop_first()
            &&& mid.processed@ == pre.processed@.push(spec_label_of(pre.queue@[0].effect_type))
            &&& #[trigger] applicator_applied(mid, post, pre.queue@[0])
        }
}

/// `post` is reachable from `pre` by at most `fuel` drain iterations.
pub open spec fn steps_from(pre: World, post: World, fuel: nat) -> bool
    decreases fuel,
{
    post == pre || (fuel > 0 && exists|mid: World|
        #[trigger] full_step(pre, mid) && steps_from(mid, post, (fuel - 1) as nat))
}

/// Extending a drain run by one more iteration.
pub proof fn lemma_steps_snoc(pre: World, mid: World, post: World, fuel: nat)
    requires
        steps_from(pre, mid, fuel),
        full_step(mid, post),
    ensures
        steps_from(pre, post, fuel + 1),
    decreases fuel,
{
    if mid == pre {
        assert(full_step(pre, post));
        assert(steps_from(post, post, fuel));
    } else {
        let m1 = choose|m1: World| #[trigger] full_step(pre, m1) && steps_from(
            m1,
            mid,
            (fuel - 1) as nat,
        );
        lemma_steps_snoc(m1, mid, post, (fuel - 1) as nat);
        assert(full_step(pre, m1));
        assert(steps_from(m1, post, fuel));
    }
}

/// Apply an already-dispatched effect to one concrete entity target.
/// Resolving against a deleted entity id changes nothing and never panics.
pub fn affect_entity(world: &mut World, effect: &EffectSpawner, target: Entity)
    requires
        old(world).wf(),
        !(effect.effect_type is ItemUse),
    ensures
        final(world).wf(),
        final(world).processed@ == old(world).processed@,
        !old(world).valid(target) ==> *final(world) == *old(world),
        final(world).combat_count() <= old(world).combat_count(),
        effect.effect_type is Damage ==> final(world).combat_count() == old(world).combat_count(),
        cnt_itemuse(final(world).queue@) == cnt_itemuse(old(world).queue@),
        cnt_damage(final(world).queue@) == cnt_damage(old(world).queue@),
        effect.effect_type is EntityDeath ==> cnt_death(final(world).queue@) == cnt_death(
            old(world).queue@,
        ),
        !(effect.effect_type is Damage) && !(effect.effect_type is EntityDeath)
            ==> final(world).queue@ == old(world).queue@,
        effect.effect_type is Damage ==> damage_applied(*old(world), *final(world), *effect, target),
        effect.effect_type is EntityDeath ==> death_applied(
            *old(world),
            *final(world),
            *effect,
            target,
        ),
        one_applied(*old(world), *final(world), *effect, target),
{
    match effect.effect_type {
        EffectType::Damage { .. } => damage::inflict_damage(world, effect, target),
        EffectType::EntityDeath => damage::death(world, effect, target),
        EffectType::Healing { .. } => damage::heal_damage(world, effect, target),
        EffectType::Confusion { .. } => damage::add_confusion(world, effect, target),
        EffectType::Particle { .. } => {
            let pos = world.entity_position(target);
            match pos {
                Some(t) => particles::particle_to_tile(world, t, effect),
                None => {},
            }
        },
        EffectType::Bloodstain => {
            let pos = world.entity_position(target);
            match pos {
                Some(t) => damage::bloodstain(world, t),
                None => {},
            }
        },
        EffectType::ItemUse { .. } => {},
    }
}

/// What one application of an entity-hitting effect leaves in slot
/// `x.idx` of `w`, when `x` was hit exactly once starting from `pre`:
/// Damage and Healing move the hit points by their exact formula and leave
/// confusion alone; Confusion overwrites the component and leaves the hit
/// points alone.
pub open spec fn hit_once(pre: World, w: World, effect: EffectSpawner, x: Entity) -> bool {
    match effect.effect_type {
        EffectType::Damage { .. } => {
            &&& (pre.combat_stats.at(x.idx as int) is Some ==> {
                let stats = pre.combat_stats.at(x.idx as int).unwrap();
                let d = crate::damage::spec_dealt(
                    stats.hp as int,
                    crate::damage::spec_damage_amount(effect.effect_type),
                );
                w.combat_stats.at(x.idx as int) == Some(
                    crate::components::CombatStats { hp: (stats.hp - d) as i32, ..stats },
                )
            })
            &&& w.confusions.at(x.idx as int) == pre.confusions.at(x.idx as int)
        },
        EffectType::Healing { .. } => {
            &&& (pre.combat_stats.at(x.idx as int) is Some ==> {
                let stats = pre.combat_stats.at(x.idx as int).unwrap();
                let h = crate::damage::spec_healed(
                    stats.hp as int,
                    stats.max_hp as int,
                    crate::damage::spec_heal_amount(effect.effect_type),
                );
                w.combat_stats.at(x.idx as int) == Some(
                    crate::components::CombatStats { hp: h as i32, ..stats },
                )
            })
            &&& w.confusions.at(x.idx as int) == pre.confusions.at(x.idx as int)
        },
        EffectType::Confusion { .. } => {
            &&& w.confusions.at(x.idx as int) == Some(
                crate::components::Confusion {
                    turns: crate::damage::spec_confusion_turns(effect.effect_type) as i32,
                },
            )
            &&& w.combat_stats.at(x.idx as int) == pre.combat_stats.at(x.idx as int)
        },
        _ => true,
    }
}

/// Slot `x.idx` carries the same hit points and confusion in `w` as in `pre`.
pub open spec fn slot_untouched(pre: World, w: World, x: Entity) -> bool {
    &&& w.combat_stats.at(x.idx as int) == pre.combat_stats.at(x.idx as int)
    &&& w.confusions.at(x.idx as int) == pre.confusions.at(x.idx as int)
}

/// Apply an already-dispatched effect to one tile: if the effect kind hits
/// entities, every current occupant of the tile is resolved as an entity
/// target from a snapshot; the cosmetic tile-only kinds mark the tile itself.
pub fn affect_tile(world: &mut World, effect: &EffectSpawner, tile_idx: usize)
    requires
        old(world).wf(),
        !(effect.effect_type is ItemUse),
    ensures
        final(world).wf(),
        final(world).processed@ == old(world).processed@,
        final(world).combat_count() <= old(world).combat_count(),
        effect.effect_type is Damage ==> final(world).combat_count() == old(world).combat_count(),
        cnt_itemuse(final(world).queue@) == cnt_itemuse(old(world).queue@),
        cnt_damage(final(world).queue@) == cnt_damage(old(world).queue@),
        effect.effect_type is EntityDeath ==> cnt_death(final(world).queue@) == cnt_death(
            old(world).queue@,
        ),
        !(effect.effect_type is Damage) && !(effect.effect_type is EntityDeath)
            ==> final(world).queue@ == old(world).queue@,
        effect.effect_type is Bloodstain ==> bloodstain_applied(
            *old(world),
            *final(world),
            tile_idx,
        ),
        effect.effect_type is Particle ==> particle_applied(
            *old(world),
            *final(world),
            *effect,
            tile_idx,
        ),
        !(effect.effect_type is Bloodstain) && !(effect.effect_type is Particle)
            ==> final(world).map == old(world).map,
        spec_hits_entities(effect.effect_type) ==> {
            &&& final(world).alive@ == old(world).alive@
            &&& final(world).gens@ == old(world).gens@
            &&& forall|k: int|
                0 <= k < old(world).spatial.at(tile_idx as int).len() ==> hit_once(
                    *old(world),
                    *final(world),
                    *effect,
                    #[trigger] old(world).spatial.at(tile_idx as int)[k],
                )
        },
        tile_applied(*old(world), *final(world), *effect, tile_idx),
{
    let ghost pre = *world;
    if tile_effect_hits_entities(&effect.effect_type) {
        let content = world.spatial.occupants_at(tile_idx);
        let n = content.len();
        let mut i: usize = 0;
        while i < n
            invariant
                world.wf(),
                pre.wf(),
                !(effect.effect_type is ItemUse),
                i <= n,
                n == content@.len(),
                content@ == pre.spatial.at(tile_idx as int),
                world.combat_count() <= pre.combat_count(),
                world.processed@ == pre.processed@,
                effect.effect_type is Damage ==> world.combat_count() == pre.combat_count(),
                cnt_itemuse(world.queue@) == cnt_itemuse(pre.queue@),
                cnt_damage(world.queue@) == cnt_damage(pre.queue@),
                effect.effect_type is EntityDeath ==> cnt_death(world.queue@) == cnt_death(
                    pre.queue@,
                ),
                !(effect.effect_type is Damage) && !(effect.effect_type is EntityDeath)
                    ==> world.queue@ == pre.queue@,
                spec_hits_entities(effect.effect_type),
                world.alive@ == pre.alive@,
                world.gens@ == pre.gens@,
                world.map == pre.map,
                world.combat_stats.spec_len() == pre.combat_stats.spec_len(),
                world.confusions.spec_len() == pre.confusions.spec_len(),
                forall|k: int|
                    0 <= k < i ==> hit_once(pre, *world, *effect, #[trigger] content@[k]),
                forall|k: int|
                    i <= k < n ==> slot_untouched(pre, *world, #[trigger] content@[k]),
                chain_applied(pre, *world, *effect, content@.subrange(0, i as int)),
            decreases n - i,
        {
            let ghost step_pre = *world;
            affect_entity(world, effect, content[i]);
            proof {
                let x = content@[i as int];
                assert(one_applied(step_pre, *world, *effect, x));
                // the handler touches only slot x.idx, and only when x is
                // still valid there; distinct occupants live on distinct slots
                assert forall|k: int|
                    i + 1 <= k < n implies slot_untouched(pre, *world, #[trigger] content@[k]) by {
                    let y = content@[k];
                    assert(slot_untouched(pre, step_pre, y));
                    if y.idx == x.idx {
                        assert(pre.spatial.at(tile_idx as int)[i as int] == x);
                        assert(pre.spatial.at(tile_idx as int)[k] == y);
                        assert(pre.spatial.contains_at(tile_idx as int, x));
                        assert(pre.spatial.contains_at(tile_idx as int, y));
                        assert(pre.valid(x) && pre.valid(y));
                        assert(x.gen == pre.gens@[x.idx as int]);
                        assert(y.gen == pre.gens@[y.idx as int]);
                        assert(x == y);
                        assert(pre.spatial.at(tile_idx as int)[i as int] != pre.spatial.at(
                            tile_idx as int,
                        )[k]);
                        assert(false);
                    } else {
                        assert(world.combat_stats.at(y.idx as int) == step_pre.combat_stats.at(
                            y.idx as int,
                        ));
                        assert(world.confusions.at(y.idx as int) == step_pre.confusions.at(
                            y.idx as int,
                        ));
                    }
                }
                assert forall|k: int|
                    0 <= k < i + 1 implies hit_once(pre, *world, *effect, #[trigger] content@[k]) by {
                    let x2 = content@[k];
                    if k < i {
                        assert(hit_once(pre, step_pre, *effect, x2));
                        if x2.idx == x.idx {
                            assert(pre.spatial.at(tile_idx as int)[k] == x2);
                            assert(pre.spatial.at(tile_idx as int)[i as int] == x);
                            assert(pre.spatial.contains_at(tile_idx as int, x2));
                            assert(pre.spatial.contains_at(tile_idx as int, x));
                            assert(pre.valid(x2) && pre.valid(x));
                            assert(x2 == x);
                            assert(pre.spatial.at(tile_idx as int)[k] != pre.spatial.at(
                                tile_idx as int,
                            )[i as int]);
                            assert(false);
                        } else {
                            assert(world.combat_stats.at(x2.idx as int) == step_pre.combat_stats.at(
                                x2.idx as int,
                            ));
                            assert(world.confusions.at(x2.idx as int) == step_pre.confusions.at(
                                x2.idx as int,
                            ));
                        }
                    } else {
                        // the occupant just hit: its components move once,
                        // from the values they held when the fan-out began
                        assert(x2 == x);
                        assert(slot_untouched(pre, step_pre, x));
                        assert(pre.spatial.at(tile_idx as int)[i as int] == x);
                        assert(pre.spatial.contains_at(tile_idx as int, x));
                        assert(pre.valid(x));
                        assert(step_pre.valid(x));
                    }
                }
                lemma_chain_snoc(
                    pre,
                    step_pre,
                    *world,
                    *effect,
                    content@.subrange(0, i as int),
                    x,
                );
                assert(content@.subrange(0, i as int).push(x) =~= content@.subrange(
                    0,
                    i + 1 as int,
                ));
            }
            i = i + 1;
        }
    }
    let ghost mid = *world;
    proof {
        if spec_hits_entities(effect.effect_type) {
            assert(pre.spatial.at(tile_idx as int).subrange(
                0,
                pre.spatial.at(tile_idx as int).len() as int,
            ) =~= pre.spatial.at(tile_idx as int));
        } else {
            assert(chain_applied(pre, mid, *effect, Seq::<Entity>::empty()) || mid == pre);
        }
    }
    match effect.effect_type {
        EffectType::Bloodstain => damage::bloodstain(world, tile_idx),
        EffectType::Particle { .. } => particles::particle_to_tile(world, tile_idx, effect),
        _ => {},
    }
    proof {
        assert(cosmetic_leg(mid, *world, *effect, tile_idx));
        assert(tile_applied(pre, *world, *effect, tile_idx));
    }
}

/// Expand one dequeued effect into its concrete recipients and apply it.
/// ItemUse bypasses the generic dispatch and goes to item-trigger resolution;
/// every other kind fans out over its declared targets.
pub fn target_applicator(world: &mut World, effect: &EffectSpawner)
    requires
        old(world).wf(),
    ensures
        final(world).wf(),
        final(world).processed@ == old(world).processed@,
        final(world).combat_count() <= old(world).combat_count(),
        cnt_itemuse(final(world).queue@) == cnt_itemuse(old(world).queue@),
        !(effect.effect_type is ItemUse) ==> cnt_damage(final(world).queue@) == cnt_damage(
            old(world).queue@,
        ),
        effect.effect_type is Damage ==> final(world).combat_count() == old(world).combat_count(),
        effect.effect_type is EntityDeath ==> cnt_death(final(world).queue@) == cnt_death(
            old(world).queue@,
        ),
        !(effect.effect_type is Damage) && !(effect.effect_type is EntityDeath) && !(
        effect.effect_type is ItemUse) ==> final(world).queue@ == old(world).queue@,
        effect.effect_type is Damage && effect.targets is Single ==> damage_applied(
            *old(world),
            *final(world),
            *effect,
            single_target_of(effect.targets),
        ),
        effect.effect_type is EntityDeath && effect.targets is Single ==> death_applied(
            *old(world),
            *final(world),
            *effect,
            single_target_of(effect.targets),
        ),
        effect.effect_type is Bloodstain && effect.targets is Tile ==> bloodstain_applied(
            *old(world),
            *final(world),
            single_tile_of(effect.targets),
        ),
        effect.effect_type is Damage && effect.targets is Tile ==> forall|k: int|
            0 <= k < old(world).spatial.at(single_tile_of(effect.targets) as int).len() ==> {
                let x = #[trigger] old(world).spatial.at(single_tile_of(effect.targets) as int)[k];
                old(world).combat_stats.at(x.idx as int) is Some ==> {
                    let stats = old(world).combat_stats.at(x.idx as int).unwrap();
                    let d = crate::damage::spec_dealt(
                        stats.hp as int,
                        crate::damage::spec_damage_amount(effect.effect_type),
                    );
                    final(world).combat_stats.at(x.idx as int) == Some(
                        crate::components::CombatStats { hp: (stats.hp - d) as i32, ..stats },
                    )
                }
            },
        applicator_applied(*old(world), *final(world), *effect),
{
    let ghost pre = *world;
    match effect.effect_type {
        EffectType::ItemUse { item } => {
            triggers::item_trigger(world, effect.creator, item, &effect.targets);
        },
        _ => {
            match &effect.targets {
                Targets::Tile { tile_idx } => affect_tile(world, effect, *tile_idx),
                Targets::Tiles { tiles } => {
                    let n = tiles.len();
                    let mut i: usize = 0;
                    while i < n
                        invariant
                            world.wf(),
                            !(effect.effect_type is ItemUse),
                            i <= n,
                            n == tiles@.len(),
                            world.combat_count() <= pre.combat_count(),
                            world.processed@ == pre.processed@,
                            effect.effect_type is Damage ==> world.combat_count()
                                == pre.combat_count(),
                            cnt_itemuse(world.queue@) == cnt_itemuse(pre.queue@),
                            cnt_damage(world.queue@) == cnt_damage(pre.queue@),
                            effect.effect_type is EntityDeath ==> cnt_death(world.queue@)
                                == cnt_death(pre.queue@),
                            !(effect.effect_type is Damage) && !(effect.effect_type is EntityDeath)
                                ==> world.queue@ == pre.queue@,
                            tiles_applied(pre, *world, *effect, tiles@.subrange(0, i as int)),
                        decreases n - i,
                    {
                        let ghost step_pre = *world;
                        affect_tile(world, effect, tiles[i]);
                        proof {
                            lemma_tiles_snoc(
                                pre,
                                step_pre,
                                *world,
                                *effect,
                                tiles@.subrange(0, i as int),
                                tiles@[i as int],
                            );
                            assert(tiles@.subrange(0, i as int).push(tiles@[i as int])
                                =~= tiles@.subrange(0, i + 1 as int));
                        }
                        i = i + 1;
                    }
                    proof {
                        assert(tiles@.subrange(0, n as int) =~= tiles@);
                    }
                },
                Targets::Single { target } => {
                    let t = *target;
                    affect_entity(world, effect, t);
                    proof {
                        assert(single_target_of(effect.targets) == t);
                    }
                },
                Targets::TargetList { targets } => {
                    let n = targets.len();
                    let mut i: usize = 0;
                    while i < n
                        invariant
                            world.wf(),
                            !(effect.effect_type is ItemUse),
                            i <= n,
                            n == targets@.len(),
                            world.combat_count() <= pre.combat_count(),
                            world.processed@ == pre.processed@,
                            effect.effect_type is Damage ==> world.combat_count()
                                == pre.combat_count(),
                            cnt_itemuse(world.queue@) == cnt_itemuse(pre.queue@),
                            cnt_damage(world.queue@) == cnt_damage(pre.queue@),
                            effect.effect_type is EntityDeath ==> cnt_death(world.queue@)
                                == cnt_death(pre.queue@),
                            !(effect.effect_type is Damage) && !(effect.effect_type is EntityDeath)
                                ==> world.queue@ == pre.queue@,
                            chain_applied(pre, *world, *effect, targets@.subrange(0, i as int)),
                        decreases n - i,
                    {
                        let ghost step_pre = *world;
                        affect_entity(world, effect, targets[i]);
                        proof {
                            lemma_chain_snoc(
                                pre,
                                step_pre,
                                *world,
                                *effect,
                                targets@.subrange(0, i as int),
                                targets@[i as int],
                            );
                            assert(targets@.subrange(0, i as int).push(targets@[i as int])
                                =~= targets@.subrange(0, i + 1 as int));
                        }
                        i = i + 1;
                    }
                    proof {
                        assert(targets@.subrange(0, n as int) =~= targets@);
                    }
                },
            }
        },
    }
}

/// The tile a positioned entity stands on.
pub open spec fn victim_tile(w: World, t: Entity) -> int {
    w.map.spec_idx_of(w.positions.at(t.idx as int).unwrap().pt)
}

/// The cascade scenario: the queue holds exactly one Damage effect, aimed
/// singly at a live, positioned, combat-capable non-player entity whose hit
/// points are already at or below the effect's amount — a lethal hit.
pub open spec fn lethal_single_damage_scenario(w: World, t: Entity) -> bool {
    &&& w.queue@.len() == 1
    &&& w.queue@[0].effect_type is Damage
    &&& w.queue@[0].targets == (Targets::Single { target: t })
    &&& w.valid(t)
    &&& w.combat_stats.at(t.idx as int) is Some
    &&& spec_damage_amount(w.queue@[0].effect_type) >= w.combat_stats.at(t.idx as int).unwrap().hp
    &&& w.positions.at(t.idx as int) is Some
    &&& !spec_is_player(w, t)
}

/// The states the drain passes through when it starts on the lethal
/// single-damage scenario: the untouched start; the damage resolved and the
/// death queued; the death resolved and the bloodstain queued; and the empty
/// queue with the victim gone and its tile stained. The FIFO discipline
/// leaves no other state reachable.
pub open spec fn cascade_inv(entry: World, w: World, t: Entity) -> bool {
    ||| w == entry
    ||| {
        &&& w.queue@ == seq![death_spawner(entry.queue@[0].creator, t)]
        &&& w.processed@ == entry.processed@.push(EffectLabel::Damage)
        &&& w.valid(t)
        &&& w.positions.at(t.idx as int) == entry.positions.at(t.idx as int)
        &&& w.map == entry.map
        &&& w.player_entity == entry.player_entity
    }
    ||| {
        &&& w.queue@ == seq![bloodstain_spawner(victim_tile(entry, t) as usize)]
        &&& w.processed@ == entry.processed@.push(EffectLabel::Damage).push(
            EffectLabel::EntityDeath,
        )
        &&& !w.valid(t)
        &&& w.map == entry.map
    }
    ||| {
        &&& w.queue@.len() == 0
        &&& w.processed@ == entry.processed@.push(EffectLabel::Damage).push(
            EffectLabel::EntityDeath,
        ).push(EffectLabel::Bloodstain)
        &&& !w.valid(t)
        &&& w.map.bloodstains@[victim_tile(entry, t)]
    }
}

/// Drain the effect queue to empty: pop from the head and fully resolve each
/// effect before the next is popped, so effects a handler enqueues while the
/// drain runs are serviced in the same pass, in FIFO order. The kind of each
/// resolved effect is appended to the processed trace in resolution order.
///
/// The loop terminates for any world: resolving an effect either shrinks the
/// number of live combat-capable entities, or consumes a queue entry of a
/// kind (item use, damage, death, and last the plain cosmetics and boons)
/// that the cascade rules never replenish upstream.
pub fn run_effects_queue(world: &mut World)
    requires
        old(world).wf(),
    ensures
        final(world).wf(),
        final(world).queue@.len() == 0,
        old(world).processed@.is_prefix_of(final(world).processed@),
        exists|fuel: nat| steps_from(*old(world), *final(world), fuel),
        forall|t: Entity|
            #[trigger] lethal_single_damage_scenario(*old(world), t) ==> {
                &&& final(world).processed@ == old(world).processed@.push(
                    EffectLabel::Damage,
                ).push(EffectLabel::EntityDeath).push(EffectLabel::Bloodstain)
                &&& !final(world).valid(t)
                &&& final(world).map.bloodstains@[victim_tile(*old(world), t)]
            },
{
    let ghost entry = *world;
    proof {
        assert(steps_from(entry, *world, 0nat));
    }
    while world.queue.len() != 0
        invariant
            world.wf(),
            entry == *old(world),
            entry.wf(),
            entry.processed@.is_prefix_of(world.processed@),
            exists|fuel: nat| steps_from(entry, *world, fuel),
            forall|t: Entity|
                #[trigger] lethal_single_damage_scenario(entry, t) ==> cascade_inv(
                    entry,
                    *world,
                    t,
                ),
        decreases
            world.combat_count(),
            cnt_itemuse(world.queue@),
            cnt_damage(world.queue@),
            cnt_death(world.queue@),
            world.queue@.len(),
    {
        let ghost loop_pre = *world;
        let popped = world.queue.pop_front();
        match popped {
            None => {
                proof {
                    assert(false);
                }
            },
            Some(effect) => {
                let label = label_of(&effect.effect_type);
                world.processed.push(label);
                let ghost mid = *world;
                proof {
                    assert(loop_pre.queue@[0] == effect);
                    assert(mid.queue@ =~= loop_pre.queue@.drop_first());
                    assert(cnt_itemuse(loop_pre.queue@) == (
                    if effect.effect_type is ItemUse {
                        1nat
                    } else {
                        0nat
                    }) + cnt_itemuse(mid.queue@));
                    assert(cnt_damage(loop_pre.queue@) == (
                    if effect.effect_type is Damage {
                        1nat
                    } else {
                        0nat
                    }) + cnt_damage(mid.queue@));
                    assert(cnt_death(loop_pre.queue@) == (
                    if effect.effect_type is EntityDeath {
                        1nat
                    } else {
                        0nat
                    }) + cnt_death(mid.queue@));
                    assert forall|i: int| 0 <= i < loop_pre.n() implies loop_pre.has_stats_at(i)
                        == mid.has_stats_at(i) by {}
                    crate::world::lemma_combat_upto_agree(loop_pre, mid, loop_pre.n());
                }
                target_applicator(world, &effect);
                proof {
                    // this iteration is one full drain step from the state at
                    // the loop head
                    assert(applicator_applied(mid, *world, effect));
                    assert(mid == (World { queue: mid.queue, processed: mid.processed, ..loop_pre }));
                    assert(full_step(loop_pre, *world));
                    let fuel = choose|fuel: nat| steps_from(entry, loop_pre, fuel);
                    lemma_steps_snoc(entry, loop_pre, *world, fuel);
                    // the processed trace only ever grows at the tail
                    assert(world.processed@ == loop_pre.processed@.push(label));
                    assert(world.processed@.subrange(0, entry.processed@.len() as int)
                        =~= loop_pre.processed@.subrange(0, entry.processed@.len() as int));
                    assert(entry.processed@.is_prefix_of(world.processed@));
                    // the five-part measure shrinks, by the kind of the effect
                    assert(world.combat_count() <= loop_pre.combat_count());
                    if world.combat_count() == loop_pre.combat_count() {
                        match effect.effect_type {
                            EffectType::ItemUse { .. } => {
                                assert(cnt_itemuse(world.queue@) < cnt_itemuse(loop_pre.queue@));
                            },
                            EffectType::Damage { .. } => {
                                assert(cnt_itemuse(world.queue@) == cnt_itemuse(loop_pre.queue@));
                                assert(cnt_damage(world.queue@) < cnt_damage(loop_pre.queue@));
                            },
                            EffectType::EntityDeath => {
                                assert(cnt_itemuse(world.queue@) == cnt_itemuse(loop_pre.queue@));
                                assert(cnt_damage(world.queue@) == cnt_damage(loop_pre.queue@));
                                assert(cnt_death(world.queue@) < cnt_death(loop_pre.queue@));
                            },
                            _ => {
                                assert(world.queue@ == mid.queue@);
                                assert(cnt_itemuse(world.queue@) == cnt_itemuse(loop_pre.queue@));
                                assert(cnt_damage(world.queue@) == cnt_damage(loop_pre.queue@));
                                assert(cnt_death(world.queue@) == cnt_death(loop_pre.queue@));
                                assert(world.queue@.len() < loop_pre.queue@.len());
                            },
                        }
                    }
                    // the cascade scenario walks its four states in order
                    assert forall|t: Entity| #[trigger] lethal_single_damage_scenario(
                        entry,
                        t,
                    ) implies cascade_inv(entry, *world, t) by {
                        lemma_cascade_step(entry, loop_pre, mid, *world, effect, t);
                    }
                }
            },
        }
    }
}

/// One drain iteration moves the lethal-damage cascade from each of its
/// states to the next: the relations the resolver guarantees for the popped
/// effect pin the queue, the trace, the victim and the stained tile exactly.
proof fn lemma_cascade_step(
    entry: World,
    loop_pre: World,
    mid: World,
    post: World,
    effect: EffectSpawner,
    t: Entity,
)
    requires
        entry.wf(),
        lethal_single_damage_scenario(entry, t),
        cascade_inv(entry, loop_pre, t),
        loop_pre.queue@.len() > 0,
        effect == loop_pre.queue@[0],
        mid.queue@ == loop_pre.queue@.drop_first(),
        mid.processed@ == loop_pre.processed@.push(spec_label_of(effect.effect_type)),
        mid == (World { queue: mid.queue, processed: mid.processed, ..loop_pre }),
        effect.effect_type is Damage && effect.targets is Single ==> damage_applied(
            mid,
            post,
            effect,
            single_target_of(effect.targets),
        ),
        effect.effect_type is EntityDeath && effect.targets is Single ==> death_applied(
            mid,
            post,
            effect,
            single_target_of(effect.targets),
        ),
        effect.effect_type is Bloodstain && effect.targets is Tile ==> bloodstain_applied(
            mid,
            post,
            single_tile_of(effect.targets),
        ),
    ensures
        cascade_inv(entry, post, t),
{
    if loop_pre == entry {
        // state one: the lethal damage itself is popped
        assert(effect == entry.queue@[0]);
        assert(effect.effect_type is Damage);
        assert(effect.targets == (Targets::Single { target: t }));
        assert(single_target_of(effect.targets) == t);
        assert(mid.valid(t) && mid.combat_stats.at(t.idx as int) is Some);
        assert(damage_applied(mid, post, effect, t));
        let stats = mid.combat_stats.at(t.idx as int).unwrap();
        let d = crate::damage::spec_dealt(stats.hp as int, spec_damage_amount(effect.effect_type));
        assert(stats.hp - d < 1);
        assert(mid.queue@ =~= Seq::<EffectSpawner>::empty());
        assert(post.queue@ == mid.queue@.push(death_spawner(effect.creator, t)));
        assert(post.queue@ =~= seq![death_spawner(entry.queue@[0].creator, t)]);
        assert(post.processed@ == entry.processed@.push(EffectLabel::Damage));
        assert(post.valid(t));
        assert(post.positions.at(t.idx as int) == entry.positions.at(t.idx as int));
    } else if loop_pre.queue@ == seq![death_spawner(entry.queue@[0].creator, t)]
        && loop_pre.processed@ == entry.processed@.push(EffectLabel::Damage) && loop_pre.valid(t) {
        // state two: the queued death is popped
        assert(effect == death_spawner(entry.queue@[0].creator, t));
        assert(effect.effect_type is EntityDeath);
        assert(single_target_of(effect.targets) == t);
        assert(death_applied(mid, post, effect, t));
        assert(mid.valid(t));
        assert(!spec_is_player(mid, t));
        assert(mid.positions.at(t.idx as int) == entry.positions.at(t.idx as int));
        assert(mid.positions.at(t.idx as int) is Some);
        assert(mid.queue@ =~= Seq::<EffectSpawner>::empty());
        assert(mid.map == entry.map);
        assert(post.queue@ == mid.queue@.push(
            bloodstain_spawner((victim_tile(entry, t)) as usize),
        ));
        assert(post.queue@ =~= seq![bloodstain_spawner((victim_tile(entry, t)) as usize)]);
        assert(post.processed@ == entry.processed@.push(EffectLabel::Damage).push(
            EffectLabel::EntityDeath,
        ));
        assert(!post.valid(t));
        assert(post.map == entry.map);
    } else if loop_pre.queue@ == seq![bloodstain_spawner(victim_tile(entry, t) as usize)]
        && !loop_pre.valid(t) {
        // state three: the queued bloodstain is popped
        assert(effect == bloodstain_spawner(victim_tile(entry, t) as usize));
        assert(effect.effect_type is Bloodstain && effect.targets is Tile);
        assert(single_tile_of(effect.targets) == victim_tile(entry, t) as usize);
        assert(bloodstain_applied(mid, post, victim_tile(entry, t) as usize));
        assert(entry.alive@[t.idx as int] && entry.positions.at(t.idx as int) is Some);
        assert(entry.map.spec_in_bounds(entry.positions.at(t.idx as int).unwrap().pt));
        entry.map.lemma_idx_of_in_range(entry.positions.at(t.idx as int).unwrap().pt);
        assert(0 <= victim_tile(entry, t) < entry.map.spec_tile_count());
        assert(mid.map == entry.map);
        assert((victim_tile(entry, t) as usize) < mid.map.spec_tile_count());
        assert(post.map.bloodstains@ == mid.map.bloodstains@.update(victim_tile(entry, t), true));
        assert(post.map.bloodstains@[victim_tile(entry, t)]);
        assert(post.queue@.len() == 0);
        assert(post.processed@ == entry.processed@.push(EffectLabel::Damage).push(
            EffectLabel::EntityDeath,
        ).push(EffectLabel::Bloodstain));
        assert(!post.valid(t));
    } else {
        // state four has an empty queue, so the loop cannot be here
        assert(loop_pre.queue@.len() == 0);
        assert(false);
    }
}

} // verus!

//! Item-use resolution. An ItemUse effect bypasses the generic tile/entity
//! dispatch: the item's own components decide what further effects to
//! synthesize against the item's declared targets, and a consumable item is
//! spent in the same step.

use vstd::prelude::*;
use crate::components::Entity;
use crate::effects::{
    add_effect, clone_targets, cnt_itemuse, lemma_cnt_push, same_targets, EffectType, Targets,
};
use crate::world::{lemma_combat_upto_agree, World};

verus! {


/// The full effect of using `item`: a vanished item changes nothing;
/// otherwise, for each payload component the item carries, the matching
/// effect with the same creator and the item's targets is appended at the
/// queue's tail, in a fixed order, and the item is consumed exactly when it
/// is consumable.
pub open spec fn item_applied(
    pre: World,
    post: World,
    creator: Option<Entity>,
    item: Entity,
    targets: Targets,
) -> bool {
    if !pre.valid(item) {
        post == pre
    } else {
        let hasd = pre.inflicts_damage.at(item.idx as int) is Some;
        let hash = pre.provides_healing.at(item.idx as int) is Some;
        let hasc = pre.inflicts_confusion.at(item.idx as int) is Some;
        let n0 = pre.queue@.len() as int;
        &&& post.queue@.len() == n0 + (if hasd { 1int } else { 0int }) + (
        if hash { 1int } else { 0int }) + (if hasc { 1int } else { 0int })
        &&& pre.queue@.is_prefix_of(post.queue@)
        &&& (hasd ==> {
            let sp = post.queue@[n0];
            &&& sp.creator == creator
            &&& sp.effect_type == (EffectType::Damage {
                amount: pre.inflicts_damage.at(item.idx as int).unwrap().damage,
            })
            &&& same_targets(sp.targets, targets)
        })
        &&& (hash ==> {
            let sp = post.queue@[n0 + (if hasd { 1int } else { 0int })];
            &&& sp.creator == creator
            &&& sp.effect_type == (EffectType::Healing {
                amount: pre.provides_healing.at(item.idx as int).unwrap().amount,
            })
            &&& same_targets(sp.targets, targets)
        })
        &&& (hasc ==> {
            let sp = post.queue@[n0 + (if hasd { 1int } else { 0int }) + (
            if hash { 1int } else { 0int })];
            &&& sp.creator == creator
            &&& sp.effect_type == (EffectType::Confusion {
                turns: pre.inflicts_confusion.at(item.idx as int).unwrap().turns,
            })
            &&& same_targets(sp.targets, targets)
        })
        &&& (pre.consumables.at(item.idx as int) is Some ==> !post.valid(item))
        &&& (pre.consumables.at(item.idx as int) is None ==> post.valid(item))
        &&& post.processed@ == pre.processed@
    }
}

/// Resolve the use of `item`: for each payload component the item carries
/// (inflicts damage, provides healing, inflicts confusion), enqueue the
/// matching effect with the same creator against the item's targets; then
/// consume the item if it is consumable. Using a vanished item changes
/// nothing.
pub fn item_trigger(world: &mut World, creator: Option<Entity>, item: Entity, targets: &Targets)
    requires
        old(world).wf(),
    ensures
        final(world).wf(),
        final(world).processed@ == old(world).processed@,
        !old(world).valid(item) ==> *final(world) == *old(world),
        cnt_itemuse(final(world).queue@) == cnt_itemuse(old(world).queue@),
        final(world).combat_count() <= old(world).combat_count(),
        item_applied(*old(world), *final(world), creator, item, *targets),
        old(world).valid(item) ==> {
            let hasd = old(world).inflicts_damage.at(item.idx as int) is Some;
            let hash = old(world).provides_healing.at(item.idx as int) is Some;
            let hasc = old(world).inflicts_confusion.at(item.idx as int) is Some;
            let n0 = old(world).queue@.len() as int;
            &&& final(world).queue@.len() == n0 + (if hasd { 1int } else { 0int }) + (
            if hash { 1int } else { 0int }) + (if hasc { 1int } else { 0int })
            &&& old(world).queue@.is_prefix_of(final(world).queue@)
            &&& (hasd ==> {
                let sp = final(world).queue@[n0];
                &&& sp.creator == creator
                &&& sp.effect_type == (EffectType::Damage {
                    amount: old(world).inflicts_damage.at(item.idx as int).unwrap().damage,
                })
                &&& same_targets(sp.targets, *targets)
            })
            &&& (hash ==> {
                let sp = final(world).queue@[n0 + (if hasd { 1int } else { 0int })];
                &&& sp.creator == creator
                &&& sp.effect_type == (EffectType::Healing {
                    amount: old(world).provides_healing.at(item.idx as int).unwrap().amount,
                })
                &&& same_targets(sp.targets, *targets)
            })
            &&& (hasc ==> {
                let sp = final(world).queue@[n0 + (if hasd { 1int } else { 0int }) + (
                if hash { 1int } else { 0int })];
                &&& sp.creator == creator
                &&& sp.effect_type == (EffectType::Confusion {
                    turns: old(world).inflicts_confusion.at(item.idx as int).unwrap().turns,
                })
                &&& same_targets(sp.targets, *targets)
            })
            &&& (old(world).consumables.at(item.idx as int) is Some ==> !final(world).valid(item))
            &&& (old(world).consumables.at(item.idx as int) is None ==> final(world).valid(item))
        },
{
    if !world.is_valid(item) {
        return ;
    }
    let dmg = world.get_inflicts_damage(item);
    match dmg {
        Some(d) => {
            let ghost before = *world;
            let t = clone_targets(targets);
            add_effect(world, creator, EffectType::Damage { amount: d.damage }, t);
            proof {
                lemma_cnt_push(before.queue@, world.queue@.last());
                assert forall|i: int| 0 <= i < before.n() implies before.has_stats_at(i)
                    == world.has_stats_at(i) by {}
                lemma_combat_upto_agree(before, *world, before.n());
            }
        },
        None => {},
    }
    let heal = world.get_provides_healing(item);
    match heal {
        Some(h) => {
            let ghost before = *world;
            let t = clone_targets(targets);
            add_effect(world, creator, EffectType::Healing { amount: h.amount }, t);
            proof {
                lemma_cnt_push(before.queue@, world.queue@.last());
                assert forall|i: int| 0 <= i < before.n() implies before.has_stats_at(i)
                    == world.has_stats_at(i) by {}
                lemma_combat_upto_agree(before, *world, before.n());
            }
        },
        None => {},
    }
    let conf = world.get_inflicts_confusion(item);
    match conf {
        Some(c) => {
            let ghost before = *world;
            let t = clone_targets(targets);
            add_effect(world, creator, EffectType::Confusion { turns: c.turns }, t);
            proof {
                lemma_cnt_push(before.queue@, world.queue@.last());
                assert forall|i: int| 0 <= i < before.n() implies before.has_stats_at(i)
                    == world.has_stats_at(i) by {}
                lemma_combat_upto_agree(before, *world, before.n());
            }
        },
        None => {},
    }
    if world.has_consumable(item) {
        let _ = world.delete_entity(item);
    }
}

} // verus!

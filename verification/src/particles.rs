//! The particle handler: cosmetic, tile-only. It spawns a short-lived glyph
//! entity on the tile and never touches gameplay state.

use vstd::prelude::*;
use crate::components::{Entity, Glyph, ParticleLifetime, RenderOrder};
use crate::effects::{EffectSpawner, EffectType};
use crate::world::{entity_cols_eq_except, lemma_combat_upto_agree, resources_eq, World};

verus! {

/// The glyph carried by a Particle effect.
pub open spec fn spec_particle_glyph(e: EffectType) -> u16 {
    match e {
        EffectType::Particle { glyph, .. } => glyph,
        _ => 0,
    }
}

/// The color carried by a Particle effect.
pub open spec fn spec_particle_color(e: EffectType) -> crate::components::ColorPair {
    match e {
        EffectType::Particle { color, .. } => color,
        _ => crate::components::ColorPair {
            fg: crate::components::NamedColor::White,
            bg: crate::components::NamedColor::Black,
        },
    }
}

/// The lifespan carried by a Particle effect.
pub open spec fn spec_particle_lifespan(e: EffectType) -> u32 {
    match e {
        EffectType::Particle { lifespan, .. } => lifespan,
        _ => 0,
    }
}

/// The full effect of resolving a Particle effect against one tile: off the
/// map nothing happens; on the map a fresh entity carrying the effect's
/// glyph, color and lifespan stands on exactly that tile, every prior
/// entity's components are untouched, and the shared resources (map, queue,
/// trace, scheduler, log, counters) do not move.
pub open spec fn particle_applied(pre: World, post: World, effect: EffectSpawner, tile_idx: usize) -> bool {
    if tile_idx >= pre.map.spec_tile_count() {
        post == pre
    } else {
        &&& resources_eq(pre, post)
        &&& post.combat_count() == pre.combat_count()
        &&& (forall|x: Entity| pre.valid(x) ==> post.valid(x))
        &&& exists|i: int|
            {
                &&& 0 <= i < post.n()
                &&& (pre.n() <= i || !pre.alive@[i])
                &&& post.alive@[i]
                &&& #[trigger] post.glyphs.at(i) == Some(
                    Glyph {
                        glyph: spec_particle_glyph(effect.effect_type),
                        color: spec_particle_color(effect.effect_type),
                        render_order: RenderOrder::Particle,
                    },
                )
                &&& post.particle_lifetimes.at(i) == Some(
                    ParticleLifetime { lifetime_ms: spec_particle_lifespan(effect.effect_type) },
                )
                &&& post.positions.at(i) is Some
                &&& pre.map.spec_idx_of(post.positions.at(i).unwrap().pt) == tile_idx
                &&& entity_cols_eq_except(pre, post, i)
            }
    }
}

/// Spawn a particle entity on the tile carrying the effect's glyph, color and
/// lifespan. A no-op off the map.
pub fn particle_to_tile(world: &mut World, tile_idx: usize, effect: &EffectSpawner)
    requires
        old(world).wf(),
        effect.effect_type is Particle,
    ensures
        final(world).wf(),
        resources_eq(*old(world), *final(world)),
        final(world).queue@ == old(world).queue@,
        final(world).combat_count() == old(world).combat_count(),
        forall|x: Entity| old(world).valid(x) ==> final(world).valid(x),
        particle_applied(*old(world), *final(world), *effect, tile_idx),
{
    let count = world.map.tile_count();
    if tile_idx >= count {
        return ;
    }
    let (glyph, color, lifespan) = match effect.effect_type {
        EffectType::Particle { glyph, color, lifespan } => (glyph, color, lifespan),
        _ => (0u16, crate::components::ColorPair {
            fg: crate::components::NamedColor::White,
            bg: crate::components::NamedColor::Black,
        }, 0u32),
    };
    let ghost pre = *world;
    let pt = world.map.index_to_point2d(tile_idx);
    let e = world.create_entity();
    let ghost w1 = *world;
    world.set_glyph(e, Glyph { glyph, color, render_order: RenderOrder::Particle });
    world.set_particle_lifetime(e, ParticleLifetime { lifetime_ms: lifespan });
    world.set_position(e, pt);
    proof {
        assert forall|i: int| 0 <= i < w1.n() implies w1.has_stats_at(i) == world.has_stats_at(
            i,
        ) by {}
        lemma_combat_upto_agree(w1, *world, w1.n());
        let j = e.idx as int;
        assert(world.glyphs.at(j) == Some(
            Glyph { glyph, color, render_order: RenderOrder::Particle },
        ));
        assert(world.particle_lifetimes.at(j) == Some(ParticleLifetime { lifetime_ms: lifespan }));
        assert(world.positions.at(j) == Some(crate::components::Position { pt }));
        assert(pre.map.spec_idx_of(pt) == tile_idx);
        assert forall|i: int| 0 <= i < pre.n() && i < world.n() && i != j implies #[trigger]
            crate::world::entity_cols_eq_at(pre, *world, i) by {
            assert(crate::world::entity_cols_eq_at(pre, w1, i));
        }
        assert(entity_cols_eq_except(pre, *world, j));
    }
}

} // verus!

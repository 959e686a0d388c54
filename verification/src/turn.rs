//! The turn-state scheduler: a single process-wide state that gates which
//! systems may run this tick, advanced in strict alternation.

use vstd::prelude::*;
use crate::world::World;
use crate::player::PlayerInputResult;

verus! {

/// Whose turn it is. Mutated by the scheduler only; read by every gated
/// system.
#[derive(Clone, Copy, Debug, PartialEq, Eq, Structural)]
pub enum TurnState {
    AwaitingInput,
    PlayerTurn,
    MonsterTurn,
    GameOver,
}

/// Outcome of one attempt to advance the world by a tick, as seen by the
/// outer game loop.
#[derive(Clone, Copy, Debug, PartialEq, Eq, Structural)]
pub enum NewState {
    NoChange,
    Wait,
    Player,
    Enemy,
    LeftMap,
}

/// Whether an input result stands for a concrete player action, which is what
/// lets the player turn begin.
pub open spec fn actionable(r: PlayerInputResult) -> bool {
    r is TurnDone || r is Descend
}

/// Advance AwaitingInput to PlayerTurn exactly when the input resolved into a
/// concrete action; every other combination leaves the state unchanged.
pub fn apply_input_transition(world: &mut World, result: &PlayerInputResult)
    requires
        old(world).wf(),
    ensures
        final(world).wf(),
        *final(world) == (World { turn_state: final(world).turn_state, ..*old(world) }),
        final(world).turn_state == if old(world).turn_state is AwaitingInput && actionable(
            *result,
        ) {
            TurnState::PlayerTurn
        } else {
            old(world).turn_state
        },
{
    if matches!(world.turn_state, TurnState::AwaitingInput) && (matches!(
        result,
        PlayerInputResult::TurnDone,
    ) || matches!(result, PlayerInputResult::Descend)) {
        world.turn_state = TurnState::PlayerTurn;
    }
}

/// The player's action has resolved: hand the tick to the monsters. Counts the
/// finished turn.
pub fn end_player_turn(world: &mut World)
    requires
        old(world).wf(),
        old(world).turn_state is PlayerTurn,
    ensures
        final(world).wf(),
        *final(world) == (World {
            turn_state: final(world).turn_state,
            turn_count: final(world).turn_count,
            ..*old(world)
        }),
        final(world).turn_state is MonsterTurn,
        final(world).turn_count == if old(world).turn_count < u64::MAX {
            old(world).turn_count + 1
        } else {
            old(world).turn_count as int
        },
{
    world.turn_state = TurnState::MonsterTurn;
    if world.turn_count < u64::MAX {
        world.turn_count = world.turn_count + 1;
    }
}

/// The monster systems and the effect drain have both completed: wait for the
/// next player input. A tick that ended in the player's death stays in
/// GameOver instead.
pub fn end_monster_turn(world: &mut World)
    requires
        old(world).wf(),
    ensures
        final(world).wf(),
        *final(world) == (World { turn_state: final(world).turn_state, ..*old(world) }),
        final(world).turn_state == if old(world).turn_state is MonsterTurn {
            TurnState::AwaitingInput
        } else {
            old(world).turn_state
        },
{
    if matches!(world.turn_state, TurnState::MonsterTurn) {
        world.turn_state = TurnState::AwaitingInput;
    }
}

} // verus!

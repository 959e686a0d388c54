//! The results and control values the mode stack exchanges with the modes the
//! simulation core owns.

use vstd::prelude::*;
use crate::components::Entity;

verus! {

/// How the game-over screen resolves.
#[derive(Clone, Copy, Debug, PartialEq, Eq, Structural)]
pub enum GameOverModeResult {
    AppQuit,
}

/// How the item-action menu resolves.
#[derive(Clone, Copy, Debug, PartialEq, Eq, Structural)]
pub enum InventoryActionModeResult {
    AppQuit,
    Cancelled,
    DropItem(Entity),
    UseItem(Entity),
}

/// The result a closing mode hands back to the stack.
#[derive(Clone, Copy, Debug, PartialEq, Eq, Structural)]
pub enum ModeResult {
    GameOver(GameOverModeResult),
    InventoryAction(InventoryActionModeResult),
}

/// What the mode stack should do after a tick of the active mode.
#[derive(Clone, Copy, Debug, PartialEq, Eq, Structural)]
pub enum ModeControl {
    Stay,
    Pop(ModeResult),
    SwitchToMainMenu,
}

/// How urgently the next update should run.
#[derive(Clone, Copy, Debug, PartialEq, Eq, Structural)]
pub enum ModeUpdate {
    Immediate,
    Update,
}

} // verus!

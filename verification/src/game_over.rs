//! The game-over screen: a one-entry menu that, on confirmation, clears the
//! whole entity store before handing control back to the main menu.

use vstd::prelude::*;
use crate::components::{Entity, InputKey};
use crate::modes::{GameOverModeResult, ModeControl, ModeResult, ModeUpdate};
use crate::world::World;

verus! {

/// Width of the screen the game-over text is laid out for.
pub const MAIN_MENU_SCREEN_WIDTH: usize = 80;

/// Height of the screen the game-over text is laid out for.
pub const MAIN_MENU_SCREEN_HEIGHT: usize = 31;

/// The one thing the game-over menu offers.
#[derive(Clone, Copy, Debug, PartialEq, Eq, Structural)]
pub enum MenuAction {
    Exit,
}

/// Deleting an entity through a handle whose generation has lapsed.
#[derive(Clone, Copy, Debug, PartialEq, Eq, Structural)]
pub enum StoreError {
    StaleEntity,
}

/// The game-over screen state.
#[derive(Debug)]
pub struct GameOverMode {
    pub selection: usize,
    pub actions: Vec<MenuAction>,
}

impl GameOverMode {
    /// The selection always points into the action list.
    pub open spec fn wf(self) -> bool {
        self.selection < self.actions@.len()
    }

    pub fn new() -> (r: GameOverMode)
        ensures
            r.wf(),
            r.selection == 0,
            r.actions@.len() == 1,
    {
        let actions = vec![MenuAction::Exit];
        GameOverMode { actions, selection: 0 }
    }

    /// Advance the screen by one key press: Escape quits the application,
    /// Return clears the world and switches to the main menu, anything else
    /// stays put.
    pub fn tick(&mut self, world: &mut World, key: Option<InputKey>) -> (r: (
        ModeControl,
        ModeUpdate,
    ))
        requires
            old(self).wf(),
            old(world).wf(),
        ensures
            final(self).wf(),
            final(world).wf(),
            key == Some(InputKey::Escape) ==> r == (
                ModeControl::Pop(ModeResult::GameOver(GameOverModeResult::AppQuit)),
                ModeUpdate::Immediate,
            ) && *final(world) == *old(world),
            key == Some(InputKey::Return) ==> r == (
                ModeControl::SwitchToMainMenu,
                ModeUpdate::Immediate,
            ) && (forall|x: Entity| !final(world).valid(x)),
            key != Some(InputKey::Escape) && key != Some(InputKey::Return) ==> r == (
                ModeControl::Stay,
                ModeUpdate::Update,
            ) && *final(world) == *old(world),
    {
        match key {
            Some(InputKey::Escape) => (
                ModeControl::Pop(ModeResult::GameOver(GameOverModeResult::AppQuit)),
                ModeUpdate::Immediate,
            ),
            Some(InputKey::Return) => {
                let _ = self.game_over_cleanup(world);
                (ModeControl::SwitchToMainMenu, ModeUpdate::Immediate)
            },
            _ => (ModeControl::Stay, ModeUpdate::Update),
        }
    }

    /// Delete every entity in the store; the handles collected before the
    /// sweep are all live, so the sweep itself cannot fail.
    pub fn game_over_cleanup(&mut self, world: &mut World) -> (r: Result<(), StoreError>)
        requires
            old(world).wf(),
        ensures
            *final(self) == *old(self),
            final(world).wf(),
            r is Ok,
            forall|x: Entity| !final(world).valid(x),
    {
        let n = world.alive.len();
        let mut i: usize = 0;
        while i < n
            invariant
                world.wf(),
                i <= n,
                n == world.n(),
                forall|x: Entity| x.idx < i ==> !world.valid(x),
            decreases n - i,
        {
            let ghost prev = *world;
            let e = Entity { idx: i, gen: world.gens[i] };
            if world.alive[i] {
                let _ = world.delete_entity(e);
                proof {
                    assert forall|x: Entity| x.idx < i + 1 implies !world.valid(x) by {
                        if x.idx < i {
                            assert(!prev.valid(x));
                            if world.valid(x) {
                                assert(prev.valid(x) && x != e);
                            }
                        } else {
                            assert(x.idx == i);
                            if world.valid(x) {
                                assert(prev.valid(x) && x != e);
                                assert(x.gen == prev.gens@[i as int]);
                                assert(false);
                            }
                        }
                    }
                }
            } else {
                proof {
                    assert forall|x: Entity| x.idx < i + 1 implies !world.valid(x) by {
                        if x.idx == i {
                            assert(!world.alive@[i as int]);
                        }
                    }
                }
            }
            i = i + 1;
        }
        proof {
            assert forall|x: Entity| !world.valid(x) by {
                if x.idx >= n {
                    assert(x.idx >= world.n());
                }
            }
        }
        Ok(())
    }
}

} // verus!

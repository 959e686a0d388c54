//! The item-action menu: a small state machine over the actions one carried
//! item supports, driven one key press at a time.

use vstd::prelude::*;
use crate::components::{Entity, Glyph, InputKey};
use crate::modes::{InventoryActionModeResult, ModeControl, ModeResult};
use crate::world::World;

verus! {

/// Which part of the menu the cursor is in.
#[derive(Clone, Copy, Debug, PartialEq, Eq, Structural)]
pub enum SubSection {
    Cancel,
    Actions,
}

/// An action the menu can offer for an item.
#[derive(Clone, Copy, Debug, PartialEq, Eq, Structural)]
pub enum InventoryAction {
    UseItem,
    DropItem,
}

impl InventoryAction {
    /// The action a shortcut key stands for.
    pub fn from_key(key: InputKey) -> (r: Option<InventoryAction>)
        ensures
            r == spec_from_key(key),
    {
        match key {
            InputKey::A => Some(InventoryAction::UseItem),
            InputKey::D => Some(InventoryAction::DropItem),
            _ => None,
        }
    }

    /// Whether the item supports the action: anything can be dropped, only a
    /// consumable can be applied.
    pub fn item_supports_action(world: &World, item: Entity, action: InventoryAction) -> (r: bool)
        requires
            world.lens_ok(),
        ensures
            r == spec_supports(*world, item, action),
    {
        match action {
            InventoryAction::DropItem => true,
            InventoryAction::UseItem => world.has_consumable(item),
        }
    }

    /// The verb shown for the action.
    pub fn name(&self) -> (r: &'static str)
        ensures
            *self is UseItem ==> r@ == "Apply"@,
            *self is DropItem ==> r@ == "Drop"@,
    {
        match self {
            InventoryAction::UseItem => "Apply",
            InventoryAction::DropItem => "Drop",
        }
    }

    /// The menu label shown for the action.
    pub fn label(&self) -> (r: &'static str)
        ensures
            *self is UseItem ==> r@ == "[ Apply ]"@,
            *self is DropItem ==> r@ == "[ Drop ]"@,
    {
        match self {
            InventoryAction::UseItem => "[ Apply ]",
            InventoryAction::DropItem => "[ Drop ]",
        }
    }
}

/// The action a shortcut key stands for.
pub open spec fn spec_from_key(key: InputKey) -> Option<InventoryAction> {
    match key {
        InputKey::A => Some(InventoryAction::UseItem),
        InputKey::D => Some(InventoryAction::DropItem),
        _ => None,
    }
}

/// Whether the item supports the action.
pub open spec fn spec_supports(w: World, item: Entity, action: InventoryAction) -> bool {
    match action {
        InventoryAction::DropItem => true,
        InventoryAction::UseItem => w.valid(item) && w.consumables.at(item.idx as int) is Some,
    }
}

/// The menu over the actions of a single inventory item.
#[derive(Debug)]
pub struct InventoryActionMode {
    pub item_id: Entity,
    pub selection: usize,
    pub inner_width: i32,
    pub subsection: SubSection,
    pub item_desc: (Glyph, String),
    pub actions: Vec<InventoryAction>,
}

impl InventoryActionMode {
    /// While the cursor is in the action list it points at an entry.
    pub open spec fn wf(self) -> bool {
        &&& self.actions@.len() <= 2
        &&& (self.subsection is Actions ==> self.selection < self.actions@.len())
    }

    /// Build the menu for an item: the supported actions in a fixed order,
    /// the cursor on the default action if it is offered, and on Cancel when
    /// nothing is. The item must still have its name and glyph.
    pub fn new(world: &World, item_id: Entity, default_action: Option<InventoryAction>) -> (r:
        InventoryActionMode)
        requires
            world.lens_ok(),
            world.valid(item_id),
            world.names.at(item_id.idx as int) is Some,
            world.glyphs.at(item_id.idx as int) is Some,
        ensures
            r.wf(),
            r.item_id == item_id,
            r.actions@.contains(InventoryAction::DropItem),
            r.actions@.contains(InventoryAction::UseItem) == spec_supports(
                *world,
                item_id,
                InventoryAction::UseItem,
            ),
            r.actions@ == if spec_supports(*world, item_id, InventoryAction::UseItem) {
                seq![InventoryAction::UseItem, InventoryAction::DropItem]
            } else {
                seq![InventoryAction::DropItem]
            },
            r.subsection is Actions,
            r.selection as int == match default_action {
                Some(d) => if r.actions@[0] == d {
                    0int
                } else if r.actions@.len() > 1 && r.actions@[1] == d {
                    1int
                } else {
                    0int
                },
                None => 0int,
            },
    {
        let mut actions: Vec<InventoryAction> = Vec::new();
        if InventoryAction::item_supports_action(world, item_id, InventoryAction::UseItem) {
            actions.push(InventoryAction::UseItem);
        }
        if InventoryAction::item_supports_action(world, item_id, InventoryAction::DropItem) {
            actions.push(InventoryAction::DropItem);
        }
        assert(actions@.contains(InventoryAction::DropItem)) by {
            assert(actions@.last() == InventoryAction::DropItem);
        }
        proof {
            if spec_supports(*world, item_id, InventoryAction::UseItem) {
                assert(actions@[0] == InventoryAction::UseItem);
                assert(actions@ =~= seq![InventoryAction::UseItem, InventoryAction::DropItem]);
            } else {
                assert(actions@ =~= seq![InventoryAction::DropItem]);
                assert forall|k: int| 0 <= k < actions@.len() implies actions@[k]
                    != InventoryAction::UseItem by {
                    assert(actions@[k] == InventoryAction::DropItem);
                }
            }
        }
        let selection: usize = match default_action {
            Some(d_act) => {
                match position_of(&actions, d_act) {
                    Some(p) => p,
                    None => 0,
                }
            },
            None => 0,
        };
        let subsection = if actions.len() == 0 {
            SubSection::Cancel
        } else {
            SubSection::Actions
        };
        let item_glyph = match world.get_glyph(item_id) {
            Some(g) => g,
            None => {
                proof {
                    assert(false);
                }
                Glyph {
                    glyph: 0,
                    color: crate::components::ColorPair {
                        fg: crate::components::NamedColor::White,
                        bg: crate::components::NamedColor::Black,
                    },
                    render_order: crate::components::RenderOrder::Item,
                }
            },
        };
        let item_name: String = match world.get_name(item_id) {
            Some(n) => n.text.clone(),
            None => {
                proof {
                    assert(false);
                }
                String::new()
            },
        };
        let name_len = item_name.as_str().unicode_len();
        let width_base: usize = if name_len > 10 {
            name_len
        } else {
            10  // "[ Cancel ]"
        };
        let width_capped: usize = if width_base > 60 {
            60
        } else {
            width_base
        };
        let inner_width: i32 = 3 + (width_capped as i32);
        let selection = if selection < actions.len() || actions.len() == 0 {
            selection
        } else {
            0
        };
        InventoryActionMode {
            item_id,
            actions,
            subsection,
            selection,
            inner_width,
            item_desc: (item_glyph, item_name),
        }
    }

    /// The result confirming the current cursor position stands for.
    pub open spec fn spec_confirm(self) -> ModeControl {
        match self.subsection {
            SubSection::Cancel => ModeControl::Pop(
                ModeResult::InventoryAction(InventoryActionModeResult::Cancelled),
            ),
            SubSection::Actions => match self.actions@[self.selection as int] {
                InventoryAction::DropItem => ModeControl::Pop(
                    ModeResult::InventoryAction(InventoryActionModeResult::DropItem(self.item_id)),
                ),
                InventoryAction::UseItem => ModeControl::Pop(
                    ModeResult::InventoryAction(InventoryActionModeResult::UseItem(self.item_id)),
                ),
            },
        }
    }

    /// Resolve the current cursor position: Cancel cancels, an action entry
    /// closes the menu with that action against the item.
    pub fn confirm_action(&self) -> (r: ModeControl)
        requires
            self.wf(),
        ensures
            r == self.spec_confirm(),
    {
        match self.subsection {
            SubSection::Cancel => ModeControl::Pop(
                ModeResult::InventoryAction(InventoryActionModeResult::Cancelled),
            ),
            SubSection::Actions => match self.actions[self.selection] {
                InventoryAction::DropItem => ModeControl::Pop(
                    ModeResult::InventoryAction(InventoryActionModeResult::DropItem(self.item_id)),
                ),
                InventoryAction::UseItem => ModeControl::Pop(
                    ModeResult::InventoryAction(InventoryActionModeResult::UseItem(self.item_id)),
                ),
            },
        }
    }

    /// Where the cursor lands on a Down press: deeper into the action list,
    /// onto Cancel past its end, and from Cancel back to the list's top.
    pub open spec fn spec_nav_down(self) -> InventoryActionMode {
        match self.subsection {
            SubSection::Actions => if self.selection + 1 < self.actions@.len() {
                InventoryActionMode { selection: (self.selection + 1) as usize, ..self }
            } else {
                InventoryActionMode { subsection: SubSection::Cancel, ..self }
            },
            SubSection::Cancel => if self.actions@.len() > 0 {
                InventoryActionMode { subsection: SubSection::Actions, selection: 0, ..self }
            } else {
                self
            },
        }
    }

    /// Where the cursor lands on an Up press: back up the action list, onto
    /// Cancel above its start, and from Cancel to the list's bottom.
    pub open spec fn spec_nav_up(self) -> InventoryActionMode {
        match self.subsection {
            SubSection::Actions => if self.selection > 0 {
                InventoryActionMode { selection: (self.selection - 1) as usize, ..self }
            } else {
                InventoryActionMode { subsection: SubSection::Cancel, ..self }
            },
            SubSection::Cancel => if self.actions@.len() > 0 {
                InventoryActionMode {
                    subsection: SubSection::Actions,
                    selection: (self.actions@.len() - 1) as usize,
                    ..self
                }
            } else {
                self
            },
        }
    }

    /// Advance the menu by one key press. Escape cancels; Return confirms the
    /// cursor; Down and Up walk the action list with Cancel below its end;
    /// an action's shortcut key jumps to that action, or confirms it when the
    /// cursor is already there. Every other key changes nothing.
    pub fn tick(&mut self, key: Option<InputKey>) -> (r: ModeControl)
        requires
            old(self).wf(),
        ensures
            final(self).wf(),
            key == Some(InputKey::Escape) ==> r == ModeControl::Pop(
                ModeResult::InventoryAction(InventoryActionModeResult::Cancelled),
            ) && *final(self) == *old(self),
            key == Some(InputKey::Return) ==> r == old(self).spec_confirm() && *final(self)
                == *old(self),
            key != Some(InputKey::Escape) && key != Some(InputKey::Return) && key != Some(
                InputKey::Down,
            ) && key != Some(InputKey::Up) && key != Some(InputKey::D) && key != Some(InputKey::A)
                ==> r == ModeControl::Stay && *final(self) == *old(self),
            key == Some(InputKey::Down) ==> *final(self) == old(self).spec_nav_down() && r
                == ModeControl::Stay,
            key == Some(InputKey::Up) ==> *final(self) == old(self).spec_nav_up() && r
                == ModeControl::Stay,
            (key == Some(InputKey::D) || key == Some(InputKey::A)) && !old(
                self,
            ).actions@.contains(spec_from_key(key.unwrap()).unwrap()) ==> *final(self) == *old(
                self,
            ) && r == ModeControl::Stay,
            (key == Some(InputKey::D) || key == Some(InputKey::A)) && old(
                self,
            ).actions@.contains(spec_from_key(key.unwrap()).unwrap()) ==> (exists|p: int|
                {
                    let a = spec_from_key(key.unwrap()).unwrap();
                    &&& 0 <= p < old(self).actions@.len()
                    &&& #[trigger] old(self).actions@[p] == a
                    &&& (forall|k: int| 0 <= k < p ==> old(self).actions@[k] != a)
                    &&& if old(self).subsection is Actions && old(self).selection == p {
                        r == old(self).spec_confirm() && *final(self) == *old(self)
                    } else {
                        (*final(self) == (InventoryActionMode {
                            subsection: SubSection::Actions,
                            selection: p as usize,
                            ..*old(self)
                        })) && r == ModeControl::Stay
                    }
                }),
            key is None ==> r == ModeControl::Stay && *final(self) == *old(self),
    {
        match key {
            Some(k) => match k {
                InputKey::Escape => ModeControl::Pop(
                    ModeResult::InventoryAction(InventoryActionModeResult::Cancelled),
                ),
                InputKey::Down => {
                    match self.subsection {
                        SubSection::Actions => {
                            if self.selection + 1 < self.actions.len() {
                                self.selection = self.selection + 1;
                            } else {
                                self.subsection = SubSection::Cancel;
                            }
                        },
                        SubSection::Cancel => {
                            if self.actions.len() > 0 {
                                self.subsection = SubSection::Actions;
                                self.selection = 0;
                            }
                        },
                    }
                    ModeControl::Stay
                },
                InputKey::Up => {
                    match self.subsection {
                        SubSection::Actions => {
                            if self.selection > 0 {
                                self.selection = self.selection - 1;
                            } else {
                                self.subsection = SubSection::Cancel;
                            }
                        },
                        SubSection::Cancel => {
                            if self.actions.len() > 0 {
                                self.subsection = SubSection::Actions;
                                self.selection = self.actions.len() - 1;
                            }
                        },
                    }
                    ModeControl::Stay
                },
                InputKey::Return => self.confirm_action(),
                InputKey::D | InputKey::A => {
                    match InventoryAction::from_key(k) {
                        Some(inv_action) => {
                            match position_of(&self.actions, inv_action) {
                                Some(action_pos) => {
                                    let at_it = matches!(self.subsection, SubSection::Actions)
                                        && self.selection == action_pos;
                                    if at_it {
                                        self.confirm_action()
                                    } else {
                                        self.subsection = SubSection::Actions;
                                        self.selection = action_pos;
                                        ModeControl::Stay
                                    }
                                },
                                None => ModeControl::Stay,
                            }
                        },
                        None => ModeControl::Stay,
                    }
                },
                _ => ModeControl::Stay,
            },
            None => ModeControl::Stay,
        }
    }
}

/// The index of the first occurrence of an action in the list.
pub fn position_of(actions: &Vec<InventoryAction>, a: InventoryAction) -> (r: Option<usize>)
    ensures
        match r {
            Some(p) => p < actions@.len() && actions@[p as int] == a && (forall|k: int|
                0 <= k < p ==> actions@[k] != a),
            None => !actions@.contains(a),
        },
{
    let n = actions.len();
    let mut i: usize = 0;
    while i < n
        invariant
            i <= n,
            n == actions@.len(),
            forall|k: int| 0 <= k < i ==> actions@[k] != a,
        decreases n - i,
    {
        let same = match (actions[i], a) {
            (InventoryAction::UseItem, InventoryAction::UseItem) => true,
            (InventoryAction::DropItem, InventoryAction::DropItem) => true,
            _ => false,
        };
        if same {
            return Some(i);
        }
        i = i + 1;
    }
    None
}

} // verus!

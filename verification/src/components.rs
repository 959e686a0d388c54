//! The component types that entities in the store can carry, and the small
//! value types (colors, glyphs, keys) that they are built from.

use vstd::prelude::*;
use crate::geometry::Point;

verus! {

/// A handle into the entity store: an arena index together with the generation
/// the slot had when the handle was issued. A handle to a deleted entity fails
/// the generation or liveness check and resolves to "not found" everywhere.
#[derive(Clone, Copy, Debug, PartialEq, Eq, Structural)]
pub struct Entity {
    pub idx: usize,
    pub gen: u32,
}

/// Code of a character glyph in the terminal font.
pub type FontCharType = u16;

/// The palette the simulation core speaks of; the presentation layer maps each
/// name to concrete color values.
#[derive(Clone, Copy, Debug, PartialEq, Eq, Structural)]
pub enum NamedColor {
    White,
    Black,
    Green,
    DarkGray,
    Cyan,
    Yellow,
    Red,
    Magenta,
    Orange,
}

/// A foreground/background color pair.
#[derive(Clone, Copy, Debug, PartialEq, Eq, Structural)]
pub struct ColorPair {
    pub fg: NamedColor,
    pub bg: NamedColor,
}

impl ColorPair {
    pub fn new(fg: NamedColor, bg: NamedColor) -> (r: ColorPair)
        ensures
            r.fg == fg,
            r.bg == bg,
    {
        ColorPair { fg, bg }
    }
}

/// Where an entity's glyph sorts relative to the others on its tile;
/// particles draw on top, corpses last.
#[derive(Clone, Copy, Debug, PartialEq, Eq, PartialOrd, Ord, Structural)]
pub enum RenderOrder {
    Particle,
    Actor,
    Item,
    Corpse,
}

/// The visual appearance of an entity.
#[derive(Clone, Copy, Debug, PartialEq, Eq, Structural)]
pub struct Glyph {
    pub glyph: FontCharType,
    pub color: ColorPair,
    pub render_order: RenderOrder,
}

impl Glyph {
    pub fn new(glyph: FontCharType, color: ColorPair, render_order: RenderOrder) -> (r: Glyph)
        ensures
            r.glyph == glyph,
            r.color == color,
            r.render_order == render_order,
    {
        Glyph { glyph, color, render_order }
    }
}

/// Placement of an entity on the map. An entity with a Position must occupy the
/// spatial-index entry of exactly that tile; the store enforces this by routing
/// every Position change through the index.
#[derive(Clone, Copy, Debug, PartialEq, Eq, Structural)]
pub struct Position {
    pub pt: Point,
}

impl Position {
    pub fn new(pt: Point) -> (r: Position)
        ensures
            r.pt == pt,
    {
        Position { pt }
    }
}

/// Hit points and melee numbers of a combat-capable entity.
#[derive(Clone, Copy, Debug, PartialEq, Eq, Structural)]
pub struct CombatStats {
    pub max_hp: i32,
    pub hp: i32,
    pub defense: i32,
    pub power: i32,
}

/// While present the entity's action for the tick is suppressed; decremented
/// once per monster turn the entity attempts to act, removed at zero.
#[derive(Clone, Copy, Debug, PartialEq, Eq, Structural)]
pub struct Confusion {
    pub turns: i32,
}

/// Marker: the entity is a hostile monster.
#[derive(Clone, Copy, Debug, PartialEq, Eq, Structural)]
pub struct Monster {}

/// Marker: the entity is the player avatar.
#[derive(Clone, Copy, Debug, PartialEq, Eq, Structural)]
pub struct Player {}

/// Marker: the entity is an item that can be carried.
#[derive(Clone, Copy, Debug, PartialEq, Eq, Structural)]
pub struct Item {}

/// Marker: using the item consumes it.
#[derive(Clone, Copy, Debug, PartialEq, Eq, Structural)]
pub struct Consumable {}

/// Marker: the entity is a closed door blocking its tile.
#[derive(Clone, Copy, Debug, PartialEq, Eq, Structural)]
pub struct Door {}

/// Marker: the entity moved this tick.
#[derive(Clone, Copy, Debug, PartialEq, Eq, Structural)]
pub struct EntityMoved {}

/// Display name of an entity.
#[derive(Clone, Debug)]
pub struct Name {
    pub text: String,
}

/// Longer flavor text of an entity.
#[derive(Clone, Debug)]
pub struct Description {
    pub text: String,
}

/// The set of tiles an entity can currently see, its sight radius, and whether
/// the set must be recomputed after a move.
#[derive(Clone, Debug)]
pub struct FieldOfView {
    pub visible_tiles: Vec<Point>,
    pub radius: i32,
    pub is_dirty: bool,
}

/// Intent: the entity wants to attack `target` in melee this tick.
#[derive(Clone, Copy, Debug, PartialEq, Eq, Structural)]
pub struct WantsToMelee {
    pub target: Entity,
}

impl WantsToMelee {
    pub fn new(target: Entity) -> (r: WantsToMelee)
        ensures
            r.target == target,
    {
        WantsToMelee { target }
    }
}

/// Intent: `collected_by` wants to pick `item` up this tick.
#[derive(Clone, Copy, Debug, PartialEq, Eq, Structural)]
pub struct WantsToPickupItem {
    pub collected_by: Entity,
    pub item: Entity,
}

/// The item must be aimed; targets may be chosen up to `range` tiles away.
#[derive(Clone, Copy, Debug, PartialEq, Eq, Structural)]
pub struct Ranged {
    pub range: i32,
}

/// The item affects every entity within `radius` tiles of the aimed tile.
#[derive(Clone, Copy, Debug, PartialEq, Eq, Structural)]
pub struct AreaOfEffect {
    pub radius: i32,
}

/// Using the item deals this much damage to its targets.
#[derive(Clone, Copy, Debug, PartialEq, Eq, Structural)]
pub struct InflictsDamage {
    pub damage: i32,
}

/// Using the item heals its targets by this much.
#[derive(Clone, Copy, Debug, PartialEq, Eq, Structural)]
pub struct ProvidesHealing {
    pub amount: i32,
}

/// Using the item confuses its targets for this many turns.
#[derive(Clone, Copy, Debug, PartialEq, Eq, Structural)]
pub struct InflictsConfusion {
    pub turns: i32,
}

/// How hungry an entity is; a hungry or starving entity does not regenerate
/// while resting.
#[derive(Clone, Copy, Debug, PartialEq, Eq, Structural)]
pub enum HungerState {
    WellFed,
    Normal,
    Hungry,
    Starving,
}

/// Hunger bookkeeping for an entity.
#[derive(Clone, Copy, Debug, PartialEq, Eq, Structural)]
pub struct HungerClock {
    pub state: HungerState,
    pub duration: i32,
}

/// The entity is a short-lived cosmetic particle; lifespan in milliseconds.
#[derive(Clone, Copy, Debug, PartialEq, Eq, Structural)]
pub struct ParticleLifetime {
    pub lifetime_ms: u32,
}

/// What stepping on a trigger tile does.
#[derive(Clone, Copy, Debug, PartialEq, Eq, Structural)]
pub enum TriggerType {
    EndGame,
}

/// The entity marks its tile as a trigger.
#[derive(Clone, Copy, Debug, PartialEq, Eq, Structural)]
pub struct TileTrigger {
    pub trigger: TriggerType,
}

/// A key press, already decoded from the windowing layer into the keys the
/// game distinguishes.
#[derive(Clone, Copy, Debug, PartialEq, Eq, Structural)]
pub enum InputKey {
    Escape,
    Left,
    Right,
    Up,
    Down,
    Numpad1,
    Numpad2,
    Numpad3,
    Numpad4,
    Numpad5,
    Numpad6,
    Numpad7,
    Numpad8,
    Numpad9,
    H,
    J,
    K,
    L,
    U,
    Y,
    N,
    B,
    G,
    I,
    D,
    R,
    A,
    W,
    S,
    Period,
    Return,
    Space,
    Other,
}

} // verus!

//! Map tiles and their stock constructors.

use vstd::prelude::*;
use crate::components::{ColorPair, Entity, FontCharType, NamedColor};

verus! {

/// Glyph codes for the stock tiles; the terminal font is codepage-437, which
/// coincides with ASCII in this range.
pub const GLYPH_FLOOR: u16 = 46;

pub const GLYPH_BLANK: u16 = 32;

pub const GLYPH_WALL: u16 = 35;

pub const GLYPH_DOOR: u16 = 43;

pub const GLYPH_RIDGE: u16 = 94;

pub const GLYPH_EXIT: u16 = 62;

/// What kind of terrain a tile is.
#[derive(Clone, Copy, Debug, PartialEq, Eq, Structural)]
pub enum TileType {
    Empty,
    Capsule,
    Wall,
    Floor,
    Outside,
    StairsDown,
    StairsUp,
}

/// One tile of the map: appearance, passability, and a scratch list of
/// occupants for the presentation layer (gameplay occupancy lives in the
/// spatial index).
#[derive(Clone, Debug)]
pub struct Tile {
    pub glyph: FontCharType,
    pub color: ColorPair,
    pub blocked: bool,
    pub opaque: bool,
    pub tile_type: TileType,
    pub contents: Vec<Entity>,
}

impl Tile {
    /// The default tile: a green walkable floor.
    pub fn default() -> (r: Tile)
        ensures
            r.color == (ColorPair { fg: NamedColor::Green, bg: NamedColor::Black }),
            r.glyph == GLYPH_FLOOR,
            !r.blocked,
            !r.opaque,
            r.tile_type == TileType::Floor,
            r.contents@.len() == 0,
    {
        Tile {
            opaque: false,
            blocked: false,
            contents: Vec::new(),
            glyph: GLYPH_FLOOR,
            tile_type: TileType::Floor,
            color: ColorPair { fg: NamedColor::Green, bg: NamedColor::Black },
        }
    }

    /// Nothing at all: impassable blank space.
    pub fn empty() -> (r: Tile)
        ensures
            r.color == (ColorPair { fg: NamedColor::DarkGray, bg: NamedColor::Black }),
            r.glyph == GLYPH_BLANK,
            r.blocked,
            !r.opaque,
            r.tile_type == TileType::Empty,
            r.contents@.len() == 0,
    {
        Tile {
            opaque: false,
            blocked: true,
            contents: Vec::new(),
            glyph: GLYPH_BLANK,
            tile_type: TileType::Empty,
            color: ColorPair { fg: NamedColor::DarkGray, bg: NamedColor::Black },
        }
    }

    /// A plain walkable floor.
    pub fn floor() -> (r: Tile)
        ensures
            r.color == (ColorPair { fg: NamedColor::White, bg: NamedColor::Black }),
            r.glyph == GLYPH_FLOOR,
            !r.blocked,
            !r.opaque,
            r.tile_type == TileType::Floor,
            r.contents@.len() == 0,
    {
        Tile {
            opaque: false,
            blocked: false,
            contents: Vec::new(),
            glyph: GLYPH_FLOOR,
            tile_type: TileType::Floor,
            color: ColorPair { fg: NamedColor::White, bg: NamedColor::Black },
        }
    }

    /// A solid wall: blocked and opaque.
    pub fn wall() -> (r: Tile)
        ensures
            r.color == (ColorPair { fg: NamedColor::White, bg: NamedColor::Black }),
            r.glyph == GLYPH_WALL,
            r.blocked,
            r.opaque,
            r.tile_type == TileType::Wall,
            r.contents@.len() == 0,
    {
        Tile {
            opaque: true,
            blocked: true,
            contents: Vec::new(),
            glyph: GLYPH_WALL,
            tile_type: TileType::Wall,
            color: ColorPair { fg: NamedColor::White, bg: NamedColor::Black },
        }
    }

    /// Floor inside the docking capsule.
    pub fn capsule_floor() -> (r: Tile)
        ensures
            r.color == (ColorPair { fg: NamedColor::Cyan, bg: NamedColor::Black }),
            !r.blocked,
            !r.opaque,
            r.tile_type == TileType::Capsule,
            r.contents@.len() == 0,
    {
        Tile {
            opaque: false,
            blocked: false,
            contents: Vec::new(),
            glyph: GLYPH_FLOOR,
            tile_type: TileType::Capsule,
            color: ColorPair { fg: NamedColor::Cyan, bg: NamedColor::Black },
        }
    }

    /// Hull wall of the docking capsule.
    pub fn capsule_wall() -> (r: Tile)
        ensures
            r.color == (ColorPair { fg: NamedColor::Cyan, bg: NamedColor::Black }),
            r.blocked,
            r.opaque,
            r.tile_type == TileType::Wall,
            r.contents@.len() == 0,
    {
        Tile {
            opaque: true,
            blocked: true,
            contents: Vec::new(),
            glyph: GLYPH_WALL,
            tile_type: TileType::Wall,
            color: ColorPair { fg: NamedColor::Cyan, bg: NamedColor::Black },
        }
    }

    /// Window in the capsule hull: blocked but see-through.
    pub fn capsule_window() -> (r: Tile)
        ensures
            r.color == (ColorPair { fg: NamedColor::Cyan, bg: NamedColor::Black }),
            r.blocked,
            !r.opaque,
            r.tile_type == TileType::Wall,
            r.contents@.len() == 0,
    {
        Tile {
            opaque: false,
            blocked: true,
            contents: Vec::new(),
            glyph: GLYPH_WALL,
            tile_type: TileType::Wall,
            color: ColorPair { fg: NamedColor::Cyan, bg: NamedColor::Black },
        }
    }

    /// The tile the player leaves the map through.
    pub fn game_over() -> (r: Tile)
        ensures
            r.color == (ColorPair { fg: NamedColor::Yellow, bg: NamedColor::Black }),
            r.glyph == GLYPH_EXIT,
            !r.blocked,
            !r.opaque,
            r.tile_type == TileType::Capsule,
            r.contents@.len() == 0,
    {
        Tile {
            opaque: false,
            blocked: false,
            contents: Vec::new(),
            glyph: GLYPH_EXIT,
            tile_type: TileType::Capsule,
            color: ColorPair { fg: NamedColor::Yellow, bg: NamedColor::Black },
        }
    }

    /// Open alien terrain shaped by a sampled height: positive heights are
    /// impassable ridges, the rest open ground.
    pub fn alien_landscape(height: i32) -> (r: Tile)
        ensures
            r.blocked == (height > 0),
            r.opaque == (height > 0),
            r.tile_type == TileType::Outside,
            r.contents@.len() == 0,
    {
        if height > 0 {
            Tile {
                opaque: true,
                blocked: true,
                contents: Vec::new(),
                glyph: GLYPH_RIDGE,
                tile_type: TileType::Outside,
                color: ColorPair { fg: NamedColor::Orange, bg: NamedColor::Black },
            }
        } else {
            Tile {
                opaque: false,
                blocked: false,
                contents: Vec::new(),
                glyph: GLYPH_FLOOR,
                tile_type: TileType::Outside,
                color: ColorPair { fg: NamedColor::DarkGray, bg: NamedColor::Black },
            }
        }
    }
}

} // verus!

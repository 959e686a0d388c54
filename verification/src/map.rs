//! The map: a rectangular grid of tiles with per-tile flags for doors,
//! bloodstains and visibility.

use vstd::prelude::*;
use crate::geometry::Point;
use crate::tile::{Tile, TileType};

verus! {

/// Width of the stock map built by the entrance builder.
pub const MAP_WIDTH: usize = 80;

/// Height of the stock map built by the entrance builder.
pub const MAP_HEIGHT: usize = 31;

/// A rectangular grid of tiles. Tile `(x, y)` lives at index `y * width + x`.
#[derive(Clone, Debug)]
pub struct GameMap {
    pub width: usize,
    pub height: usize,
    pub tiles: Vec<Tile>,
    pub is_door: Vec<bool>,
    pub bloodstains: Vec<bool>,
    pub revealed: Vec<bool>,
    pub visible: Vec<bool>,
    pub starting_point: Point,
}

impl GameMap {
    /// Number of tiles.
    pub open spec fn spec_tile_count(self) -> int {
        self.width * self.height
    }

    /// Shape invariant: every per-tile vector covers the grid exactly, and the
    /// grid is small enough that every index and coordinate fits comfortably
    /// in the machine types.
    pub open spec fn wf(self) -> bool {
        &&& 0 < self.width
        &&& 0 < self.height
        &&& self.width * self.height <= 0x4000_0000
        &&& self.tiles@.len() == self.spec_tile_count()
        &&& self.is_door@.len() == self.spec_tile_count()
        &&& self.bloodstains@.len() == self.spec_tile_count()
        &&& self.revealed@.len() == self.spec_tile_count()
        &&& self.visible@.len() == self.spec_tile_count()
    }

    /// Whether a point lies on the grid.
    pub open spec fn spec_in_bounds(self, pt: Point) -> bool {
        0 <= pt.x < self.width && 0 <= pt.y < self.height
    }

    /// The tile index of an in-bounds point.
    pub open spec fn spec_idx_of(self, pt: Point) -> int {
        pt.y * self.width + pt.x
    }

    /// An in-bounds point's index lies inside the grid.
    pub proof fn lemma_idx_of_in_range(self, pt: Point)
        requires
            self.wf(),
            self.spec_in_bounds(pt),
        ensures
            0 <= self.spec_idx_of(pt) < self.spec_tile_count(),
    {
        assert(0 <= pt.y * self.width + pt.x < self.width * self.height) by (nonlinear_arith)
            requires
                0 <= pt.x < self.width,
                0 <= pt.y < self.height,
        ;
    }

    /// Make a map of the given size with every tile `Tile::empty()` and every
    /// flag clear.
    pub fn new(width: usize, height: usize) -> (r: GameMap)
        requires
            0 < width,
            0 < height,
            width * height <= 0x4000_0000,
        ensures
            r.wf(),
            r.width == width,
            r.height == height,
            forall|t: int| 0 <= t < r.spec_tile_count() ==> (#[trigger] r.tiles@[t]).tile_type == TileType::Empty,
            forall|t: int| 0 <= t < r.spec_tile_count() ==> !(#[trigger] r.is_door@[t]),
            forall|t: int| 0 <= t < r.spec_tile_count() ==> !(#[trigger] r.bloodstains@[t]),
            r.starting_point == (Point { x: 0, y: 0 }),
    {
        let count: usize = width * height;
        let mut tiles: Vec<Tile> = Vec::new();
        let mut is_door: Vec<bool> = Vec::new();
        let mut bloodstains: Vec<bool> = Vec::new();
        let mut revealed: Vec<bool> = Vec::new();
        let mut visible: Vec<bool> = Vec::new();
        let mut i: usize = 0;
        while i < count
            invariant
                i <= count,
                tiles@.len() == i,
                is_door@.len() == i,
                bloodstains@.len() == i,
                revealed@.len() == i,
                visible@.len() == i,
                forall|t: int| 0 <= t < i ==> (#[trigger] tiles@[t]).tile_type == TileType::Empty,
                forall|t: int| 0 <= t < i ==> !(#[trigger] is_door@[t]),
                forall|t: int| 0 <= t < i ==> !(#[trigger] bloodstains@[t]),
            decreases count - i,
        {
            tiles.push(Tile::empty());
            is_door.push(false);
            bloodstains.push(false);
            revealed.push(false);
            visible.push(false);
            i = i + 1;
        }
        GameMap {
            width,
            height,
            tiles,
            is_door,
            bloodstains,
            revealed,
            visible,
            starting_point: Point { x: 0, y: 0 },
        }
    }

    /// Whether a point lies on the grid.
    pub fn in_bounds(&self, pt: Point) -> (r: bool)
        requires
            self.wf(),
        ensures
            r == self.spec_in_bounds(pt),
    {
        pt.x >= 0 && pt.y >= 0 && (pt.x as usize) < self.width && (pt.y as usize) < self.height
    }

    /// The tile index of an in-bounds point.
    pub fn point2d_to_index(&self, pt: Point) -> (r: usize)
        requires
            self.wf(),
            self.spec_in_bounds(pt),
        ensures
            r == self.spec_idx_of(pt),
            r < self.spec_tile_count(),
    {
        proof {
            self.lemma_idx_of_in_range(pt);
        }
        (pt.y as usize) * self.width + (pt.x as usize)
    }

    /// The point of a tile index.
    pub fn index_to_point2d(&self, idx: usize) -> (r: Point)
        requires
            self.wf(),
            idx < self.spec_tile_count(),
        ensures
            self.spec_in_bounds(r),
            self.spec_idx_of(r) == idx,
    {
        let x: usize = idx % self.width;
        let y: usize = idx / self.width;
        proof {
            assert(y < self.height && y * self.width + x == idx) by (nonlinear_arith)
                requires
                    self.width > 0,
                    x == idx % self.width,
                    y == idx / self.width,
                    idx < self.width * self.height,
            ;
        }
        Point { x: x as i32, y: y as i32 }
    }

    /// Whether an entity may stand on this point: on the grid and not blocked.
    pub fn can_enter_tile(&self, pt: Point) -> (r: bool)
        requires
            self.wf(),
        ensures
            r == (self.spec_in_bounds(pt) && !self.tiles@[self.spec_idx_of(pt)].blocked),
    {
        if self.in_bounds(pt) {
            let idx = self.point2d_to_index(pt);
            !self.tiles[idx].blocked
        } else {
            false
        }
    }

    /// Number of tiles.
    pub fn tile_count(&self) -> (r: usize)
        requires
            self.wf(),
        ensures
            r == self.spec_tile_count(),
    {
        self.width * self.height
    }

    /// Replace the tile at an index.
    pub fn set_tile(&mut self, idx: usize, tile: Tile)
        requires
            old(self).wf(),
            idx < old(self).spec_tile_count(),
        ensures
            final(self).wf(),
            *final(self) == (GameMap { tiles: final(self).tiles, ..*old(self) }),
            final(self).tiles@ == old(self).tiles@.update(idx as int, tile),
    {
        self.tiles.set(idx, tile);
    }

    /// Mark or clear the bloodstain flag of a tile.
    pub fn set_bloodstain(&mut self, idx: usize, stained: bool)
        requires
            old(self).wf(),
            idx < old(self).spec_tile_count(),
        ensures
            final(self).wf(),
            *final(self) == (GameMap { bloodstains: final(self).bloodstains, ..*old(self) }),
            final(self).bloodstains@ == old(self).bloodstains@.update(idx as int, stained),
    {
        self.bloodstains.set(idx, stained);
    }

    /// Clear the visible flag of every tile.
    pub fn clear_visible(&mut self)
        requires
            old(self).wf(),
        ensures
            final(self).wf(),
            *final(self) == (GameMap { visible: final(self).visible, ..*old(self) }),
            final(self).visible@.len() == old(self).visible@.len(),
            forall|t: int| 0 <= t < final(self).visible@.len() ==> !(#[trigger] final(self).visible@[t]),
    {
        let n = self.visible.len();
        let mut i: usize = 0;
        while i < n
            invariant
                i <= n,
                self.visible@.len() == n,
                *self == (GameMap { visible: self.visible, ..*old(self) }),
                forall|t: int| 0 <= t < i ==> !(#[trigger] self.visible@[t]),
            decreases n - i,
        {
            self.visible.set(i, false);
            i = i + 1;
        }
    }
}

} // verus!

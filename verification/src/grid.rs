//! The static tile grid: layout, wall lookup, and point sampling.
//!
//! A tile tag of `0` is walkable; `1` and above are wall variants, each with
//! its own palette entry. Any cell outside the grid counts as a wall, so
//! neither rays nor the player can escape the grid. Fixed-point points are
//! sampled by truncating each coordinate down to its cell.

use vstd::prelude::*;

verus! {

/// Tag reported when a ray leaves the grid before striking a wall tile.
pub const BOUNDARY_TAG: u8 = 1;

/// A rectangular tile grid with designated start and goal cells, immutable
/// after construction. Tiles are stored row-major: cell `(col, row)` lives at
/// `row * width + col`.
pub struct GridMap {
    pub width: usize,
    pub height: usize,
    pub tiles: Vec<u8>,
    pub start: (usize, usize),
    pub goal: (usize, usize),
}

/// The cell that a fixed-point coordinate falls in. Every negative
/// coordinate maps to the out-of-bounds cell `-1`: how far outside makes no
/// difference to a wall test.
pub open spec fn cell_of(v: int) -> int {
    if v >= 0 {
        v / 1000
    } else {
        -1
    }
}

impl GridMap {
    /// Whether integer cell coordinates lie inside the grid.
    pub open spec fn in_bounds(self, col: int, row: int) -> bool {
        0 <= col < self.width && 0 <= row < self.height
    }

    /// The tile tag of an in-bounds cell.
    pub open spec fn tile(self, col: int, row: int) -> u8 {
        self.tiles@[row * self.width + col]
    }

    /// A cell blocks movement and rays if it is outside the grid or its tag
    /// is not the walkable `0`.
    pub open spec fn wall_at(self, col: int, row: int) -> bool {
        !self.in_bounds(col, row) || self.tile(col, row) != 0
    }

    /// Well-formedness: a rectangular grid of bounded size whose designated
    /// start and goal cells are in bounds and walkable.
    pub open spec fn wf(self) -> bool {
        &&& 1 <= self.width <= 10_000
        &&& 1 <= self.height <= 10_000
        &&& self.tiles@.len() == self.width * self.height
        &&& self.in_bounds(self.start.0 as int, self.start.1 as int)
        &&& self.in_bounds(self.goal.0 as int, self.goal.1 as int)
        &&& !self.wall_at(self.start.0 as int, self.start.1 as int)
        &&& !self.wall_at(self.goal.0 as int, self.goal.1 as int)
    }

    /// Wall lookup for integer cell coordinates; out-of-bounds cells count
    /// as walls.
    pub fn is_wall(&self, col: usize, row: usize) -> (r: bool)
        requires
            self.wf(),
        ensures
            r == self.wall_at(col as int, row as int),
    {
        if col >= self.width || row >= self.height {
            true
        } else {
            proof {
                lemma_row_major_index(self.width as int, self.height as int, col as int, row as int);
            }
            self.tiles[row * self.width + col] != 0
        }
    }
}

/// A row-major index of an in-bounds cell lies inside the tile vector, and
/// under the grid size cap it stays far below any machine limit.
pub proof fn lemma_row_major_index(width: int, height: int, col: int, row: int)
    requires
        0 <= col < width <= 10_000,
        0 <= row < height <= 10_000,
    ensures
        0 <= row * width + col < width * height <= 100_000_000,
        row * width <= 100_000_000,
{
    assert(row * width + col < width * height <= 100_000_000) by (nonlinear_arith)
        requires
            0 <= col < width <= 10_000,
            0 <= row < height <= 10_000,
    ;
    assert(row * width >= 0) by (nonlinear_arith)
        requires
            row >= 0,
            width >= 0,
    ;
}

/// Wall lookup for possibly negative cell coordinates, as they arise from
/// sampling fixed-point points.
pub fn wall_at_cell(map: &GridMap, cx: i64, cy: i64) -> (r: bool)
    requires
        map.wf(),
    ensures
        r == map.wall_at(cx as int, cy as int),
{
    if cx < 0 || cy < 0 || cx >= map.width as i64 || cy >= map.height as i64 {
        true
    } else {
        proof {
            lemma_row_major_index(map.width as int, map.height as int, cx as int, cy as int);
        }
        map.tiles[(cy as usize) * map.width + (cx as usize)] != 0
    }
}

/// A coordinate whose cell lies inside a grid of `n` cells is itself within
/// the grid's fixed-point extent.
pub proof fn lemma_cell_in_bounds(v: int, n: int)
    requires
        0 <= cell_of(v) < n,
    ensures
        0 <= v < 1000 * n,
{
    assert(v >= 0);
    assert(v < 1000 * n) by (nonlinear_arith)
        requires
            v >= 0,
            v / 1000 < n,
    ;
}

/// The effective tag of the cell under a fixed-point point: the boundary tag
/// outside the grid, the cell's own tag inside. A result of `0` means the
/// point lies in a walkable cell.
pub open spec fn sample_tag(map: GridMap, x: int, y: int) -> u8 {
    if !map.in_bounds(cell_of(x), cell_of(y)) {
        BOUNDARY_TAG
    } else {
        map.tile(cell_of(x), cell_of(y))
    }
}

/// The cell index of a fixed-point coordinate as executable code.
pub fn cell_index(v: i64) -> (c: i64)
    requires
        v <= 4_000_000_000_000_000_000,
    ensures
        c == cell_of(v as int),
{
    if v < 0 {
        -1
    } else {
        ((v as u64) / 1000) as i64
    }
}

/// Samples the grid at a fixed-point point.
pub fn sample(map: &GridMap, x: i64, y: i64) -> (t: u8)
    requires
        map.wf(),
        x <= 4_000_000_000_000_000_000,
        y <= 4_000_000_000_000_000_000,
    ensures
        t == sample_tag(*map, x as int, y as int),
{
    let cx = cell_index(x);
    let cy = cell_index(y);
    if cx < 0 || cy < 0 || cx >= map.width as i64 || cy >= map.height as i64 {
        BOUNDARY_TAG
    } else {
        proof {
            lemma_row_major_index(map.width as int, map.height as int, cx as int, cy as int);
        }
        map.tiles[(cy as usize) * map.width + (cx as usize)]
    }
}

/// Builds a map from raw parts, accepting exactly the layouts that satisfy
/// the map invariant.
pub fn from_layout(
    width: usize,
    height: usize,
    tiles: Vec<u8>,
    start: (usize, usize),
    goal: (usize, usize),
) -> (r: Option<GridMap>)
    ensures
        match r {
            Some(m) => {
                &&& m.wf()
                &&& m.width == width
                &&& m.height == height
                &&& m.tiles@ == tiles@
                &&& m.start == start
                &&& m.goal == goal
            },
            None => !(GridMap {
                width,
                height,
                tiles,
                start,
                goal,
            }.wf()),
        },
{
    if width < 1 || width > 10_000 || height < 1 || height > 10_000 {
        return None;
    }
    proof {
        assert(width * height <= 100_000_000) by (nonlinear_arith)
            requires
                width <= 10_000,
                height <= 10_000,
        ;
    }
    if tiles.len() != width * height {
        return None;
    }
    if start.0 >= width || start.1 >= height || goal.0 >= width || goal.1 >= height {
        return None;
    }
    proof {
        lemma_row_major_index(width as int, height as int, start.0 as int, start.1 as int);
        lemma_row_major_index(width as int, height as int, goal.0 as int, goal.1 as int);
    }
    if tiles[start.1 * width + start.0] != 0 {
        return None;
    }
    if tiles[goal.1 * width + goal.0] != 0 {
        return None;
    }
    Some(GridMap { width, height, tiles, start, goal })
}

} // verus!

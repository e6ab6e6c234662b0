//! Value types for grid dimensions and cell positions.
//!
//! A `GridSize` fixes the width and height of a grid for its whole lifetime;
//! a `Loc` names one cell by row and column. A `Loc` is not valid by itself:
//! it is checked against a `GridSize` on each access, and `grid_index` turns
//! a valid `Loc` into its row-major offset into the flat cell buffer.

use vstd::prelude::*;

verus! {

/// Grid dimensions. Both sides are positive for any grid the engine builds;
/// `wf` also asks that the area fits the address space, so that row-major
/// offsets can be computed in `usize`.
#[derive(Clone, Copy, Debug, PartialEq, Eq, Structural)]
pub struct GridSize {
    pub width: u32,
    pub height: u32,
}

impl GridSize {
    /// Dimensions the engine can address: positive sides, area within `usize`.
    pub open spec fn wf(self) -> bool {
        &&& self.width > 0
        &&& self.height > 0
        &&& self.width as int * self.height as int <= usize::MAX as int
    }

    /// Number of cells of a grid of this size.
    pub open spec fn area_spec(self) -> int {
        self.width as int * self.height as int
    }

    pub fn new(width: u32, height: u32) -> (r: GridSize)
        requires
            width > 0,
            height > 0,
            width as int * height as int <= usize::MAX as int,
        ensures
            r == (GridSize { width, height }),
            r.wf(),
    {
        GridSize { width, height }
    }

    pub fn is_empty(&self) -> (r: bool)
        ensures
            r == (self.width == 0 || self.height == 0),
    {
        self.width == 0 || self.height == 0
    }

    pub fn area(&self) -> (r: usize)
        requires
            self.wf(),
        ensures
            r == self.area_spec(),
    {
        (self.width as usize) * (self.height as usize)
    }
}

/// A cell position: row first, then column, both counted from zero.
#[derive(Clone, Copy, Debug, PartialEq, Eq, Structural)]
pub struct Loc {
    pub row: u32,
    pub col: u32,
}

impl Loc {
    /// Whether this position lies on a grid of the given size.
    pub open spec fn valid(self, size: GridSize) -> bool {
        self.row < size.height && self.col < size.width
    }

    /// Row-major offset of this position on a grid of the given size.
    pub open spec fn index_spec(self, size: GridSize) -> int {
        self.row as int * size.width as int + self.col as int
    }

    pub fn new(row: u32, col: u32) -> (r: Loc)
        ensures
            r == (Loc { row, col }),
    {
        Loc { row, col }
    }

    /// Bounds-checked row-major offset: `Some` exactly on valid positions.
    pub fn grid_index(&self, size: GridSize) -> (r: Option<usize>)
        requires
            size.wf(),
        ensures
            match r {
                Some(i) => self.valid(size) && i == self.index_spec(size)
                    && i < size.area_spec(),
                None => !self.valid(size),
            },
    {
        if self.row < size.height && self.col < size.width {
            proof {
                lemma_index_below_area(size, *self);
            }
            Some((self.row as usize) * (size.width as usize) + (self.col as usize))
        } else {
            None
        }
    }
}

/// A valid position's row-major offset lies below the grid's area.
pub proof fn lemma_index_below_area(size: GridSize, loc: Loc)
    requires
        size.wf(),
        loc.valid(size),
    ensures
        0 <= loc.index_spec(size) < size.area_spec(),
{
    let r = loc.row as int;
    let c = loc.col as int;
    let w = size.width as int;
    let h = size.height as int;
    assert(r * w + c < h * w) by (nonlinear_arith)
        requires
            r < h,
            c < w,
            0 < w,
    ;
}

/// Distinct valid positions on one grid have distinct row-major offsets:
/// together with `lemma_index_below_area`, row-major addressing is a
/// bijection between the valid positions and `[0, area)`.
pub proof fn lemma_grid_index_injective(size: GridSize, a: Loc, b: Loc)
    requires
        size.wf(),
        a.valid(size),
        b.valid(size),
        a != b,
    ensures
        a.index_spec(size) != b.index_spec(size),
{
    let ar = a.row as int;
    let ac = a.col as int;
    let br = b.row as int;
    let bc = b.col as int;
    let w = size.width as int;
    assert(ar * w + ac != br * w + bc) by (nonlinear_arith)
        requires
            ac < w,
            bc < w,
            0 <= ac,
            0 <= bc,
            0 <= ar,
            0 <= br,
            0 < w,
            !(ar == br && ac == bc),
    ;
}

} // verus!

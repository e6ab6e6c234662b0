//! A read-only toroidal 8-neighbor (Moore) view over a cell buffer.
//!
//! The grid behaves as a torus: the row before row 0 is the last row, the
//! column past the last wraps to 0, and symmetrically. The 8 neighbors are
//! visited in the fixed order NW, N, NE, W, E, SW, S, SE; several rules
//! accumulate order-sensitive state during this traversal, so the order is
//! part of the contract.

use vstd::prelude::*;
use crate::cells::WorldGridCells;
use crate::coords::GridSize;
use crate::coords::Loc;


verus! {

/// The coordinate one before `i`, wrapping below 0 to `max - 1`.
pub open spec fn wrap_dec(i: u32, max: u32) -> u32 {
    if i == 0 {
        (max - 1) as u32
    } else {
        (i - 1) as u32
    }
}

/// The coordinate one past `i`, wrapping at `max` to 0.
pub open spec fn wrap_inc(i: u32, max: u32) -> u32 {
    if i as int + 1 == max as int {
        0u32
    } else {
        (i + 1) as u32
    }
}

/// The 8 Moore-neighbor positions of `center`, toroidally wrapped, in the
/// fixed order NW, N, NE, W, E, SW, S, SE.
pub open spec fn neighbor_locs(center: Loc, size: GridSize) -> Seq<Loc> {
    let up = wrap_dec(center.row, size.height);
    let down = wrap_inc(center.row, size.height);
    let left = wrap_dec(center.col, size.width);
    let right = wrap_inc(center.col, size.width);
    seq![
        Loc { row: up, col: left },
        Loc { row: up, col: center.col },
        Loc { row: up, col: right },
        Loc { row: center.row, col: left },
        Loc { row: center.row, col: right },
        Loc { row: down, col: left },
        Loc { row: down, col: center.col },
        Loc { row: down, col: right },
    ]
}

/// The 8 neighbor cells of `center` in `cells`, in the fixed order.
pub open spec fn neighbor_vals<C: Copy>(cells: Seq<C>, size: GridSize, center: Loc) -> Seq<
    C,
> {
    neighbor_locs(center, size).map_values(|l: Loc| cells[l.index_spec(size)])
}

/// Wrapped coordinates of valid positions are valid.
pub proof fn lemma_wrap_in_range(i: u32, max: u32)
    requires
        max > 0,
        i < max,
    ensures
        wrap_dec(i, max) < max,
        wrap_inc(i, max) < max,
{
}

/// Every neighbor position of a valid center is valid.
pub proof fn lemma_neighbor_locs_valid(center: Loc, size: GridSize)
    requires
        size.wf(),
        center.valid(size),
    ensures
        neighbor_locs(center, size).len() == 8,
        forall|k: int| 0 <= k < 8 ==> (#[trigger] neighbor_locs(center, size)[k]).valid(size),
{
    lemma_wrap_in_range(center.row, size.height);
    lemma_wrap_in_range(center.col, size.width);
}

/// A read-only toroidal 8-neighbor view over a cell buffer at one center
/// position. The center cell is excluded from neighbor traversal but
/// reachable by local 3x3 coordinates, with (1, 1) the center.
pub struct Neighborhood<'a, C: Copy> {
    cells: &'a WorldGridCells<C>,
    center: Loc,
}

impl<'a, C: Copy> Neighborhood<'a, C> {
    pub closed spec fn center_spec(self) -> Loc {
        self.center
    }

    pub closed spec fn grid_view(self) -> Seq<C> {
        self.cells@
    }

    pub closed spec fn size_spec(self) -> GridSize {
        self.cells.size_spec()
    }

    pub open spec fn wf(self) -> bool {
        &&& self.size_spec().wf()
        &&& self.grid_view().len() == self.size_spec().area_spec()
        &&& self.center_spec().valid(self.size_spec())
    }

    /// The 8 neighbor cells in the fixed order NW, N, NE, W, E, SW, S, SE.
    pub open spec fn neighbor_vals_spec(self) -> Seq<C> {
        neighbor_vals(self.grid_view(), self.size_spec(), self.center_spec())
    }

    /// The grid row that local row `r` (0, 1 or 2) denotes.
    pub open spec fn local_row(self, r: int) -> u32 {
        if r == 0 {
            wrap_dec(self.center_spec().row, self.size_spec().height)
        } else if r == 1 {
            self.center_spec().row
        } else {
            wrap_inc(self.center_spec().row, self.size_spec().height)
        }
    }

    /// The grid column that local column `c` (0, 1 or 2) denotes.
    pub open spec fn local_col(self, c: int) -> u32 {
        if c == 0 {
            wrap_dec(self.center_spec().col, self.size_spec().width)
        } else if c == 1 {
            self.center_spec().col
        } else {
            wrap_inc(self.center_spec().col, self.size_spec().width)
        }
    }

    pub fn new(cells: &'a WorldGridCells<C>, center: Loc) -> (r: Neighborhood<'a, C>)
        requires
            cells.wf(),
            center.valid(cells.size_spec()),
        ensures
            r.wf(),
            r.grid_view() == cells@,
            r.size_spec() == cells.size_spec(),
            r.center_spec() == center,
    {
        Neighborhood { cells, center }
    }

    /// The cell at wrapped position (`row`, `col`).
    fn cell_at(&self, row: u32, col: u32) -> (r: C)
        requires
            self.wf(),
            row < self.size_spec().height,
            col < self.size_spec().width,
        ensures
            r == self.grid_view()[Loc { row, col }.index_spec(self.size_spec())],
    {
        match self.cells.cell(Loc::new(row, col)) {
            Some(c) => c,
            None => vstd::pervasive::unreached(),
        }
    }

    /// The cell at local 3x3 coordinates, with (1, 1) the center; for rules
    /// that need one specific directional neighbor.
    pub fn cell(&self, r: usize, c: usize) -> (out: C)
        requires
            self.wf(),
            r < 3,
            c < 3,
        ensures
            out == self.grid_view()[Loc {
                row: self.local_row(r as int),
                col: self.local_col(c as int),
            }.index_spec(self.size_spec())],
    {
        proof {
            lemma_wrap_in_range(self.center.row, self.size_spec().height);
            lemma_wrap_in_range(self.center.col, self.size_spec().width);
        }
        let row = if r == 0 {
            wrap_dec_exec(self.center.row, self.cells.size().height)
        } else if r == 1 {
            self.center.row
        } else {
            wrap_inc_exec(self.center.row, self.cells.size().height)
        };
        let col = if c == 0 {
            wrap_dec_exec(self.center.col, self.cells.size().width)
        } else if c == 1 {
            self.center.col
        } else {
            wrap_inc_exec(self.center.col, self.cells.size().width)
        };
        self.cell_at(row, col)
    }

    /// The 8 neighbor cells, toroidally wrapped, in the fixed order
    /// NW, N, NE, W, E, SW, S, SE.
    pub fn neighbor_cells(&self) -> (r: Vec<C>)
        requires
            self.wf(),
        ensures
            r@ == self.neighbor_vals_spec(),
            r@.len() == 8,
    {
        proof {
            lemma_neighbor_locs_valid(self.center, self.cells.size_spec());
        }
        let size = self.cells.size();
        let up = wrap_dec_exec(self.center.row, size.height);
        let down = wrap_inc_exec(self.center.row, size.height);
        let left = wrap_dec_exec(self.center.col, size.width);
        let right = wrap_inc_exec(self.center.col, size.width);
        let mut r: Vec<C> = Vec::new();
        r.push(self.cell_at(up, left));
        r.push(self.cell_at(up, self.center.col));
        r.push(self.cell_at(up, right));
        r.push(self.cell_at(self.center.row, left));
        r.push(self.cell_at(self.center.row, right));
        r.push(self.cell_at(down, left));
        r.push(self.cell_at(down, self.center.col));
        r.push(self.cell_at(down, right));
        proof {
            let locs = neighbor_locs(self.center_spec(), self.size_spec());
            assert(r@ =~= self.neighbor_vals_spec());
        }
        r
    }
}

/// Executable form of `wrap_dec`.
pub fn wrap_dec_exec(i: u32, max: u32) -> (r: u32)
    requires
        max > 0,
        i < max,
    ensures
        r == wrap_dec(i, max),
        r < max,
{
    if i == 0 {
        max - 1
    } else {
        i - 1
    }
}

/// Executable form of `wrap_inc`.
pub fn wrap_inc_exec(i: u32, max: u32) -> (r: u32)
    requires
        max > 0,
        i < max,
    ensures
        r == wrap_inc(i, max),
        r < max,
{
    if i + 1 == max {
        0
    } else {
        i + 1
    }
}

/// The toroidal neighbor set of the origin: exactly the 8 positions built
/// from rows `{h-1, 0, 1}` and columns `{w-1, 0, 1}` other than the origin
/// itself, and no others.
pub proof fn lemma_neighbors_of_origin(size: GridSize)
    requires
        size.wf(),
        size.width >= 2,
        size.height >= 2,
    ensures
        forall|l: Loc|
            #[trigger] neighbor_locs(Loc { row: 0, col: 0 }, size).contains(l) <==> (l == Loc {
                row: (size.height - 1) as u32,
                col: (size.width - 1) as u32,
            } || l == Loc { row: (size.height - 1) as u32, col: 0u32 } || l == Loc {
                row: (size.height - 1) as u32,
                col: 1u32,
            } || l == Loc { row: 0u32, col: (size.width - 1) as u32 } || l == Loc {
                row: 1u32,
                col: (size.width - 1) as u32,
            } || l == Loc { row: 1u32, col: 0u32 } || l == Loc { row: 0u32, col: 1u32 } || l
                == Loc { row: 1u32, col: 1u32 }),
{
    let s = neighbor_locs(Loc { row: 0, col: 0 }, size);
    assert(s[0] == Loc { row: (size.height - 1) as u32, col: (size.width - 1) as u32 });
    assert(s[1] == Loc { row: (size.height - 1) as u32, col: 0u32 });
    assert(s[2] == Loc { row: (size.height - 1) as u32, col: 1u32 });
    assert(s[3] == Loc { row: 0u32, col: (size.width - 1) as u32 });
    assert(s[4] == Loc { row: 0u32, col: 1u32 });
    assert(s[5] == Loc { row: 1u32, col: (size.width - 1) as u32 });
    assert(s[6] == Loc { row: 1u32, col: 0u32 });
    assert(s[7] == Loc { row: 1u32, col: 1u32 });
    assert forall|l: Loc| #[trigger] s.contains(l) implies (l == s[0] || l == s[1] || l == s[2]
        || l == s[3] || l == s[4] || l == s[5] || l == s[6] || l == s[7]) by {
        let i = choose|i: int| 0 <= i < s.len() && s[i] == l;
    }
    assert(s.contains(s[0]));
    assert(s.contains(s[1]));
    assert(s.contains(s[2]));
    assert(s.contains(s[3]));
    assert(s.contains(s[4]));
    assert(s.contains(s[5]));
    assert(s.contains(s[6]));
    assert(s.contains(s[7]));
}

} // verus!

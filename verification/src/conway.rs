//! Two concrete cell rules and a ready-made world around one of them.
//!
//! `ConwayGridCell` carries the classic rule: a live cell survives with 2 or
//! 3 live neighbors, a dead cell is born with exactly 3. `OneNeighborCell`
//! carries a minimal rule — alive next exactly when it has exactly one live
//! neighbor now — handy for exercising the engine end to end, since one live
//! cell on a torus gives every other cell exactly one live neighbor.

use vstd::prelude::*;
use crate::coords::GridSize;
use crate::coords::Loc;
use crate::grid::GridCell;
use crate::grid::WorldGrid;
use crate::neighborhood::Neighborhood;
use crate::rng::Random;

verus! {

/// How many of the cells are alive.
pub open spec fn live_count(cells: Seq<ConwayGridCell>) -> int
    decreases cells.len(),
{
    if cells.len() == 0 {
        0
    } else {
        live_count(cells.drop_last()) + if cells.last().alive {
            1int
        } else {
            0int
        }
    }
}

/// A cell of the classic two-state rule.
#[derive(Clone, Copy, Debug, PartialEq, Eq, Structural)]
pub struct ConwayGridCell {
    pub alive: bool,
}

impl Default for ConwayGridCell {
    fn default() -> (r: ConwayGridCell)
        ensures
            r == (ConwayGridCell { alive: false }),
    {
        ConwayGridCell { alive: false }
    }
}

impl ConwayGridCell {
    /// Counts the live cells among the 8 toroidal neighbors.
    pub fn num_live_neighbors(neighborhood: &Neighborhood<'_, ConwayGridCell>) -> (r: u32)
        requires
            neighborhood.wf(),
        ensures
            r == live_count(neighborhood.neighbor_vals_spec()),
            r <= 8,
    {
        let cells = neighborhood.neighbor_cells();
        let n = cells.len();
        let mut result: u32 = 0;
        for i in 0..n
            invariant
                n == cells@.len(),
                n == 8,
                result == live_count(cells@.subrange(0, i as int)),
                result <= i,
        {
            proof {
                let pre = cells@.subrange(0, i as int);
                let post = cells@.subrange(0, i as int + 1);
                assert(post.drop_last() =~= pre);
                assert(post.last() == cells@[i as int]);
            }
            if cells[i].alive {
                result += 1;
            }
        }
        proof {
            assert(cells@.subrange(0, n as int) =~= cells@);
        }
        result
    }
}

impl GridCell for ConwayGridCell {
    /// Alive next when alive with 2 or 3 live neighbors, or dead with
    /// exactly 3.
    open spec fn step(self, prior_next: Self, neighbors: Seq<Self>) -> Self {
        ConwayGridCell {
            alive: if self.alive {
                2 <= live_count(neighbors) <= 3
            } else {
                live_count(neighbors) == 3
            },
        }
    }

    open spec fn color_spec(self) -> Seq<u8> {
        if self.alive {
            seq![0x80u8, 0x80u8, 0x80u8, 0xffu8]
        } else {
            seq![0x00u8, 0x00u8, 0x40u8, 0xffu8]
        }
    }

    fn color_rgba(&self) -> (r: [u8; 4]) {
        let r = if self.alive {
            [0x80u8, 0x80u8, 0x80u8, 0xffu8]
        } else {
            [0x00u8, 0x00u8, 0x40u8, 0xffu8]
        };
        proof {
            assert(r@ =~= self.color_spec());
        }
        r
    }

    fn update(
        &self,
        neighborhood: &Neighborhood<'_, ConwayGridCell>,
        next_cell: &mut ConwayGridCell,
        _rand: &mut Option<Random>,
    ) {
        let neighbors = Self::num_live_neighbors(neighborhood);
        next_cell.alive = if self.alive {
            neighbors == 2 || neighbors == 3
        } else {
            neighbors == 3
        };
    }
}

/// A cell of the minimal rule: alive next exactly when it has exactly one
/// live neighbor now.
#[derive(Clone, Copy, Debug, PartialEq, Eq, Structural)]
pub struct OneNeighborCell {
    pub alive: bool,
}

impl Default for OneNeighborCell {
    fn default() -> (r: OneNeighborCell)
        ensures
            r == (OneNeighborCell { alive: false }),
    {
        OneNeighborCell { alive: false }
    }
}

/// How many of the cells are alive.
pub open spec fn one_rule_live_count(cells: Seq<OneNeighborCell>) -> int
    decreases cells.len(),
{
    if cells.len() == 0 {
        0
    } else {
        one_rule_live_count(cells.drop_last()) + if cells.last().alive {
            1int
        } else {
            0int
        }
    }
}

impl GridCell for OneNeighborCell {
    open spec fn step(self, prior_next: Self, neighbors: Seq<Self>) -> Self {
        OneNeighborCell { alive: one_rule_live_count(neighbors) == 1 }
    }

    open spec fn color_spec(self) -> Seq<u8> {
        if self.alive {
            seq![0xffu8, 0xffu8, 0xffu8, 0xffu8]
        } else {
            seq![0x00u8, 0x00u8, 0x00u8, 0xffu8]
        }
    }

    fn color_rgba(&self) -> (r: [u8; 4]) {
        let r = if self.alive {
            [0xffu8, 0xffu8, 0xffu8, 0xffu8]
        } else {
            [0x00u8, 0x00u8, 0x00u8, 0xffu8]
        };
        proof {
            assert(r@ =~= self.color_spec());
        }
        r
    }

    fn update(
        &self,
        neighborhood: &Neighborhood<'_, OneNeighborCell>,
        next_cell: &mut OneNeighborCell,
        _rand: &mut Option<Random>,
    ) {
        let cells = neighborhood.neighbor_cells();
        let n = cells.len();
        let mut count: u32 = 0;
        for i in 0..n
            invariant
                n == cells@.len(),
                n == 8,
                count == one_rule_live_count(cells@.subrange(0, i as int)),
                count <= i,
        {
            proof {
                let pre = cells@.subrange(0, i as int);
                let post = cells@.subrange(0, i as int + 1);
                assert(post.drop_last() =~= pre);
                assert(post.last() == cells@[i as int]);
            }
            if cells[i].alive {
                count += 1;
            }
        }
        proof {
            assert(cells@.subrange(0, n as int) =~= cells@);
        }
        next_cell.alive = count == 1;
    }
}

/// A world running the classic rule over a toroidal grid, seeded with
/// random life.
pub struct ConwayWorld {
    grid: WorldGrid<ConwayGridCell>,
    rand: Option<Random>,
}

impl ConwayWorld {
    pub closed spec fn wf(self) -> bool {
        self.grid.wf()
    }

    pub closed spec fn size_spec(self) -> GridSize {
        self.grid.size_spec()
    }

    /// The current committed generation.
    pub closed spec fn cells_spec(self) -> Seq<ConwayGridCell> {
        self.grid@
    }

    /// A freshly seeded world, advanced a few generations so that the first
    /// displayed frame already shows structure.
    pub fn new(grid_size: GridSize, rand: Random) -> (r: ConwayWorld)
        requires
            grid_size.wf(),
        ensures
            r.wf(),
            r.size_spec() == grid_size,
    {
        let mut result = Self::new_empty(grid_size, rand);
        result.add_random_life();
        for _k in 0..5usize
            invariant
                result.wf(),
                result.size_spec() == grid_size,
        {
            result.update();
        }
        result
    }

    fn new_empty(grid_size: GridSize, rand: Random) -> (r: ConwayWorld)
        requires
            grid_size.wf(),
        ensures
            r.wf(),
            r.size_spec() == grid_size,
    {
        ConwayWorld {
            grid: WorldGrid::new(grid_size, ConwayGridCell { alive: false }),
            rand: Some(rand),
        }
    }

    /// Makes each cell alive with probability three in ten.
    fn add_random_life(&mut self)
        requires
            old(self).wf(),
        ensures
            final(self).wf(),
            final(self).size_spec() == old(self).size_spec(),
    {
        let size = self.grid.size();
        for row in 0..size.height
            invariant
                self.wf(),
                self.size_spec() == old(self).size_spec(),
                size == self.size_spec(),
        {
            for col in 0..size.width
                invariant
                    self.wf(),
                    self.size_spec() == old(self).size_spec(),
                    size == self.size_spec(),
                    row < size.height,
            {
                let lives = match &mut self.rand {
                    Some(r) => r.next_bool(3, 10),
                    None => false,
                };
                if lives {
                    self.grid.set_cell(Loc::new(row, col), ConwayGridCell { alive: true });
                }
            }
        }
    }

    pub fn grid(&self) -> (r: &WorldGrid<ConwayGridCell>)
        ensures
            r.wf() == self.wf(),
            r.size_spec() == self.size_spec(),
            r@ == self.cells_spec(),
    {
        &self.grid
    }

    /// Advances one generation with this world's random stream.
    pub fn update(&mut self)
        requires
            old(self).wf(),
        ensures
            final(self).wf(),
            final(self).size_spec() == old(self).size_spec(),
    {
        let stamps: Vec<(Loc, ConwayGridCell)> = Vec::new();
        self.grid.update(&mut self.rand, &stamps);
    }
}

} // verus!

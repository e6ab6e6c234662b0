//! Flat, row-major cell storage with bounds-checked addressing.
//!
//! A `WorldGridCells` owns `width * height` cells; the length never changes
//! after construction. Wraparound is not handled here: a `Loc` outside the
//! grid is answered with `None`. Toroidal addressing is the neighborhood
//! view's responsibility.

use vstd::prelude::*;
use vstd::pervasive::VecAdditionalExecFns;
use crate::coords::GridSize;
use crate::coords::Loc;


verus! {

pub struct WorldGridCells<C: Copy> {
    size: GridSize,
    cells: Vec<C>,
}

impl<C: Copy> View for WorldGridCells<C> {
    type V = Seq<C>;

    closed spec fn view(&self) -> Seq<C> {
        self.cells@
    }
}

impl<C: Copy> WorldGridCells<C> {
    pub closed spec fn size_spec(self) -> GridSize {
        self.size
    }

    /// The buffer holds exactly one cell per grid position.
    pub open spec fn wf(self) -> bool {
        self.size_spec().wf() && self@.len() == self.size_spec().area_spec()
    }

    /// The cell at a valid position.
    pub open spec fn spec_cell(self, loc: Loc) -> C {
        self@[loc.index_spec(self.size_spec())]
    }

    /// Allocates `width * height` cells, all holding `fill`.
    pub fn new(size: GridSize, fill: C) -> (r: WorldGridCells<C>)
        requires
            size.wf(),
        ensures
            r.wf(),
            r.size_spec() == size,
            r@.len() == size.area_spec(),
            forall|i: int| 0 <= i < r@.len() ==> r@[i] == fill,
    {
        let area = size.area();
        let mut cells: Vec<C> = Vec::new();
        while cells.len() < area
            invariant
                cells@.len() <= area,
                forall|i: int| 0 <= i < cells@.len() ==> cells@[i] == fill,
            decreases area - cells@.len(),
        {
            cells.push(fill);
        }
        WorldGridCells { size, cells }
    }

    pub fn size(&self) -> (r: GridSize)
        ensures
            r == self.size_spec(),
    {
        self.size
    }

    pub fn num_cells(&self) -> (r: usize)
        ensures
            r == self@.len(),
    {
        self.cells.len()
    }

    /// Bounds-checked read: `Some` exactly on valid positions.
    pub fn cell(&self, loc: Loc) -> (r: Option<C>)
        requires
            self.wf(),
        ensures
            match r {
                Some(c) => loc.valid(self.size_spec()) && c == self.spec_cell(loc),
                None => !loc.valid(self.size_spec()),
            },
    {
        match loc.grid_index(self.size) {
            Some(i) => Some(self.cells[i]),
            None => None,
        }
    }

    /// Bounds-checked write of one cell.
    pub fn set_cell(&mut self, loc: Loc, value: C)
        requires
            old(self).wf(),
            loc.valid(old(self).size_spec()),
        ensures
            final(self).wf(),
            final(self).size_spec() == old(self).size_spec(),
            final(self)@ == old(self)@.update(loc.index_spec(old(self).size_spec()), value),
    {
        match loc.grid_index(self.size) {
            Some(i) => {
                self.cells.set(i, value);
            },
            None => {
                vstd::pervasive::unreached()
            },
        }
    }

    /// Overwrites one whole row, the write-side counterpart of the partition
    /// of the buffer into `height` disjoint width-sized row slices: a write
    /// to row `row` touches exactly the indices of that row.
    pub fn set_row(&mut self, row: u32, values: &Vec<C>)
        requires
            old(self).wf(),
            row < old(self).size_spec().height,
            values@.len() == old(self).size_spec().width,
        ensures
            final(self).wf(),
            final(self).size_spec() == old(self).size_spec(),
            final(self)@.len() == old(self)@.len(),
            forall|j: int|
                row * old(self).size_spec().width <= j < row * old(self).size_spec().width + old(
                    self).size_spec().width ==> final(self)@[j] == values@[j - row * old(
                    self).size_spec().width],
            forall|j: int|
                0 <= j < old(self)@.len() && !(row * old(self).size_spec().width <= j < row * old(
                    self).size_spec().width + old(self).size_spec().width) ==> final(self)@[j]
                    == old(self)@[j],
    {
        let width = self.size.width;
        let ghost w = width as int;
        let ghost orig = self@;
        #[verifier::loop_isolation(false)]
        for c in 0..width
            invariant
                self.wf(),
                self.size_spec() == old(self).size_spec(),
                self@.len() == orig.len(),
                forall|j: int| row * w <= j < row * w + c ==> self@[j] == values@[j - row * w],
                forall|j: int|
                    0 <= j < orig.len() && !(row * w <= j < row * w + c) ==> self@[j] == orig[j],
        {
            let ghost pre = self@;
            let loc = Loc::new(row, c);
            self.set_cell(loc, values[c as usize]);
            proof {
                crate::coords::lemma_index_below_area(self.size_spec(), loc);
                assert(loc.index_spec(self.size_spec()) == row * w + c);
                assert(0 <= row * w + c < pre.len());
                assert forall|j: int|
                    0 <= j < orig.len() && !(row * w <= j < row * w + c + 1) implies self@[j]
                    == orig[j] by {
                    assert(self@[j] == pre[j]);
                }
                assert forall|j: int| row * w <= j < row * w + c + 1 implies self@[j] == values@[j
                    - row * w] by {
                    if j < row * w + c {
                        assert(self@[j] == pre[j]);
                    }
                }
            }
        }
    }

    /// Sets every cell to one value.
    pub fn fill(&mut self, value: C)
        requires
            old(self).wf(),
        ensures
            final(self).wf(),
            final(self).size_spec() == old(self).size_spec(),
            final(self)@.len() == old(self)@.len(),
            forall|i: int| 0 <= i < final(self)@.len() ==> final(self)@[i] == value,
    {
        let n = self.cells.len();
        for i in 0..n
            invariant
                n == self@.len(),
                self.size_spec() == old(self).size_spec(),
                self@.len() == old(self)@.len(),
                self.wf(),
                forall|j: int| 0 <= j < i ==> self@[j] == value,
        {
            self.cells.set(i, value);
        }
    }

    /// Bulk element-wise copy from a same-sized buffer, used to seed "next"
    /// with "current" before a step applies deltas.
    pub fn copy_from(&mut self, source: &WorldGridCells<C>)
        requires
            old(self).wf(),
            source.wf(),
            old(self).size_spec() == source.size_spec(),
        ensures
            final(self).wf(),
            final(self).size_spec() == old(self).size_spec(),
            final(self)@ == source@,
    {
        let n = self.cells.len();
        for i in 0..n
            invariant
                n == self@.len(),
                self.size_spec() == old(self).size_spec(),
                self@.len() == old(self)@.len(),
                source.wf(),
                old(self).size_spec() == source.size_spec(),
                self.wf(),
                source@.len() == n,
                forall|j: int| 0 <= j < i ==> self@[j] == source@[j],
        {
            let v = source.cells[i];
            self.cells.set(i, v);
        }
        proof {
            assert(self@ =~= source@);
        }
    }
}

} // verus!

//! The generation-update engine.
//!
//! A `WorldGrid` owns exactly two buffers, "current" and "next". One `update`
//! call performs, in order: a full snapshot of "current" into "next"; the
//! caller's exogenous stamps applied to "next"; one random sub-stream forked
//! per row, in row order, before any row is transitioned; a per-row, per-cell
//! transition that reads only the unmodified "current" buffer; and a swap of
//! the two buffers. Rows are independent of one another: row `r`'s new cells
//! are a function of "current", of row `r`'s own slots in the stamped "next",
//! and of row `r`'s own random sub-stream, so rows may be computed in any
//! order (`update_row` is public for exactly that use) and the sequential
//! loop here computes the same generation.

use vstd::prelude::*;
use crate::cells::WorldGridCells;
use crate::coords::GridSize;
use crate::coords::Loc;
use crate::neighborhood::Neighborhood;
use crate::neighborhood::neighbor_vals;
use crate::rng::Random;

verus! {

/// The cell payload contract: the engine's single extension point. The
/// engine never inspects cell contents beyond calling `update`; the
/// simulation rule lives entirely in the implementing type.
pub trait GridCell: Sized + Copy + Send + Sync {
    /// The deterministic transition: the value the cell leaves in its "next"
    /// slot, given the slot's prior value and the 8 neighbors in the fixed
    /// order NW, N, NE, W, E, SW, S, SE, when no random stream is given.
    spec fn step(self, prior_next: Self, neighbors: Seq<Self>) -> Self;

    /// The cell's display color: red, green, blue, alpha.
    spec fn color_spec(self) -> Seq<u8>;

    fn color_rgba(&self) -> (r: [u8; 4])
        ensures
            r@ == self.color_spec(),
    ;

    /// One transition of this cell: reads the prior generation through the
    /// neighborhood view and writes the cell's next value. Without a random
    /// stream the result is exactly `step`.
    fn update(
        &self,
        neighborhood: &Neighborhood<'_, Self>,
        next_cell: &mut Self,
        rand: &mut Option<Random>,
    )
        requires
            neighborhood.wf(),
        ensures
            (*old(rand)) is None ==> *final(next_cell) == self.step(
                *old(next_cell),
                neighborhood.neighbor_vals_spec(),
            ),
            (*final(rand)) is Some <==> (*old(rand)) is Some,
    ;
}

/// The position whose row-major offset is `i`.
pub open spec fn loc_at(i: int, size: GridSize) -> Loc {
    Loc { row: (i / size.width as int) as u32, col: (i % size.width as int) as u32 }
}

/// `cur` with the stamps written into it, in order: the exogenous effects a
/// caller injects before the per-cell pass.
pub open spec fn stamped<C: GridCell>(cur: Seq<C>, stamps: Seq<(Loc, C)>, size: GridSize) -> Seq<
    C,
>
    decreases stamps.len(),
{
    if stamps.len() == 0 {
        cur
    } else {
        stamped(cur, stamps.drop_last(), size).update(
            stamps.last().0.index_spec(size),
            stamps.last().1,
        )
    }
}

/// One whole deterministic generation: cell `i`'s next value is its `step`,
/// fed the prior generation's cell, the stamped base value of slot `i`, and
/// the prior generation's 8 neighbors of position `i`. Every cell reads the
/// same single prior generation `cur`; no cell's result depends on any other
/// cell's result.
pub open spec fn next_gen<C: GridCell>(cur: Seq<C>, base: Seq<C>, size: GridSize) -> Seq<C> {
    Seq::new(
        cur.len(),
        |i: int| C::step(cur[i], base[i], neighbor_vals(cur, size, loc_at(i, size))),
    )
}

/// Double-buffer integrity: within one generation, every cell's committed
/// value is a function of the single prior generation alone. Cell `i` of
/// `next_gen` reads only the prior generation `cur` (its own cell and its 8
/// neighbors there) and slot `i` of the stamped base — never another cell's
/// freshly written value.
pub proof fn lemma_step_reads_prior_generation<C: GridCell>(
    cur: Seq<C>,
    base: Seq<C>,
    size: GridSize,
    i: int,
)
    requires
        0 <= i < cur.len(),
    ensures
        next_gen(cur, base, size)[i] == C::step(
            cur[i],
            base[i],
            neighbor_vals(cur, size, loc_at(i, size)),
        ),
{
}

/// Stamping at valid positions never changes the buffer's length.
pub proof fn lemma_stamped_len<C: GridCell>(cur: Seq<C>, stamps: Seq<(Loc, C)>, size: GridSize)
    requires
        size.wf(),
        cur.len() == size.area_spec(),
        forall|j: int| 0 <= j < stamps.len() ==> (#[trigger] stamps[j]).0.valid(size),
    ensures
        stamped(cur, stamps, size).len() == cur.len(),
    decreases stamps.len(),
{
    if stamps.len() == 0 {
        assert(stamped(cur, stamps, size) == cur);
    } else {
        assert(stamps.drop_last() =~= stamps.subrange(0, stamps.len() - 1));
        assert(forall|j: int| 0 <= j < stamps.drop_last().len() ==> (#[trigger] stamps.drop_last()[
            j]).0.valid(size));
        lemma_stamped_len(cur, stamps.drop_last(), size);
        crate::coords::lemma_index_below_area(size, stamps.last().0);
        assert(stamped(cur, stamps, size) == stamped(cur, stamps.drop_last(), size).update(
            stamps.last().0.index_spec(size),
            stamps.last().1,
        ));
    }
}

/// A row-major offset decomposes back into its row and column.
pub proof fn lemma_loc_at_of_index(size: GridSize, row: u32, col: u32)
    requires
        size.wf(),
        row < size.height,
        col < size.width,
    ensures
        loc_at((Loc { row, col }).index_spec(size), size) == (Loc { row, col }),
{
    let w = size.width as int;
    let i = row * w + col;
    assert(i / w == row && i % w == col) by (nonlinear_arith)
        requires
            i == row * w + col,
            0 <= col < w,
            0 <= row,
    ;
}

/// Double buffering: "current" (read-only during a step) and "next" (written
/// during a step), swapped at the end of each step, so that after each
/// `update` the view denotes the latest committed generation.
pub struct WorldGrid<C: GridCell> {
    size: GridSize,
    cells: WorldGridCells<C>,
    next_cells: WorldGridCells<C>,
}

impl<C: GridCell> View for WorldGrid<C> {
    type V = Seq<C>;

    /// The current committed generation, row-major.
    closed spec fn view(&self) -> Seq<C> {
        self.cells@
    }
}

impl<C: GridCell> WorldGrid<C> {
    pub closed spec fn size_spec(self) -> GridSize {
        self.size
    }

    /// Both buffers hold one cell per position of one fixed size.
    pub closed spec fn wf(self) -> bool {
        &&& self.size.wf()
        &&& self.cells.wf()
        &&& self.next_cells.wf()
        &&& self.cells.size_spec() == self.size
        &&& self.next_cells.size_spec() == self.size
    }

    /// Builds both buffers, all cells holding `fill`.
    pub fn new(size: GridSize, fill: C) -> (r: WorldGrid<C>)
        requires
            size.wf(),
        ensures
            r.wf(),
            r.size_spec() == size,
            r@.len() == size.area_spec(),
            forall|i: int| 0 <= i < r@.len() ==> r@[i] == fill,
    {
        WorldGrid {
            size,
            cells: WorldGridCells::new(size, fill),
            next_cells: WorldGridCells::new(size, fill),
        }
    }

    pub fn size(&self) -> (r: GridSize)
        ensures
            r == self.size_spec(),
    {
        self.size
    }

    pub fn num_cells(&self) -> (r: usize)
        requires
            self.wf(),
        ensures
            r == self@.len(),
    {
        self.cells.num_cells()
    }

    /// Bounds-checked read of the current generation.
    pub fn cell(&self, loc: Loc) -> (r: Option<C>)
        requires
            self.wf(),
        ensures
            match r {
                Some(c) => loc.valid(self.size_spec()) && c == self@[loc.index_spec(
                    self.size_spec(),
                )],
                None => !loc.valid(self.size_spec()),
            },
    {
        self.cells.cell(loc)
    }

    /// Bounds-checked write into the current generation, for seeding the
    /// world before the first step.
    pub fn set_cell(&mut self, loc: Loc, value: C)
        requires
            old(self).wf(),
            loc.valid(old(self).size_spec()),
        ensures
            final(self).wf(),
            final(self).size_spec() == old(self).size_spec(),
            final(self)@ == old(self)@.update(loc.index_spec(old(self).size_spec()), value),
    {
        self.cells.set_cell(loc, value);
    }

    /// Sets every cell of the current generation to one value.
    pub fn fill(&mut self, value: C)
        requires
            old(self).wf(),
        ensures
            final(self).wf(),
            final(self).size_spec() == old(self).size_spec(),
            final(self)@.len() == old(self)@.len(),
            forall|i: int| 0 <= i < final(self)@.len() ==> final(self)@[i] == value,
    {
        self.cells.fill(value);
    }

    /// Advances the grid one generation: snapshot "current" into "next",
    /// apply the caller's exogenous `stamps` to "next", fork one random
    /// sub-stream per row in row order, transition every cell against the
    /// unmodified prior generation, and swap the buffers. Without a random
    /// stream the committed generation is exactly `next_gen` of the prior
    /// one — a function of the single prior generation alone.
    #[verifier::loop_isolation(false)]
    pub fn update(&mut self, rand: &mut Option<Random>, stamps: &Vec<(Loc, C)>)
        requires
            old(self).wf(),
            forall|j: int| 0 <= j < stamps@.len() ==> (#[trigger] stamps@[j]).0.valid(
                old(self).size_spec()),
        ensures
            final(self).wf(),
            final(self).size_spec() == old(self).size_spec(),
            final(self)@.len() == old(self)@.len(),
            (*old(rand)) is None ==> final(self)@ == next_gen(
                old(self)@,
                stamped(old(self)@, stamps@, old(self).size_spec()),
                old(self).size_spec(),
            ),
            (*final(rand)) is Some <==> (*old(rand)) is Some,
    {
        self.next_cells.copy_from(&self.cells);
        let n = stamps.len();
        for j in 0..n
            invariant
                self.wf(),
                self.size == old(self).size,
                self.cells == old(self).cells,
                n == stamps@.len(),
                forall|k: int| 0 <= k < stamps@.len() ==> (#[trigger] stamps@[k]).0.valid(
                    old(self).size_spec()),
                self.next_cells@ == stamped(
                    old(self)@,
                    stamps@.subrange(0, j as int),
                    old(self).size_spec(),
                ),
                self.next_cells.wf(),
                self.next_cells.size_spec() == old(self).size_spec(),
        {
            let (loc, value) = stamps[j];
            proof {
                let pre = stamps@.subrange(0, j as int);
                let post = stamps@.subrange(0, j as int + 1);
                assert(post.drop_last() =~= pre);
                assert(post.last() == stamps@[j as int]);
                lemma_stamped_len(old(self)@, pre, old(self).size_spec());
            }
            self.next_cells.set_cell(loc, value);
        }
        proof {
            assert(stamps@.subrange(0, n as int) =~= stamps@);
        }
        self.update_cells(rand);
        core::mem::swap(&mut self.cells, &mut self.next_cells);
    }

    /// Computes row `row` of the next generation: for each column, builds a
    /// neighborhood view over the unmodified prior generation `cells`, takes
    /// the slot's base value from `base`'s same row, and runs the cell's
    /// transition with this row's own random sub-stream. Reads of `base`
    /// touch only row `row`, so rows may be computed independently and in
    /// any order.
    #[verifier::loop_isolation(false)]
    pub fn update_row(
        cells: &WorldGridCells<C>,
        base: &WorldGridCells<C>,
        row: u32,
        rand: &mut Option<Random>,
    ) -> (r: Vec<C>)
        requires
            cells.wf(),
            base.wf(),
            base.size_spec() == cells.size_spec(),
            row < cells.size_spec().height,
        ensures
            r@.len() == cells.size_spec().width,
            (*old(rand)) is None ==> forall|c: int|
                0 <= c < cells.size_spec().width ==> r@[c] == C::step(
                    cells@[row * cells.size_spec().width + c],
                    base@[row * cells.size_spec().width + c],
                    neighbor_vals(cells@, cells.size_spec(), Loc { row, col: c as u32 }),
                ),
            (*final(rand)) is Some <==> (*old(rand)) is Some,
    {
        let ghost was_some = (*rand) is Some;
        let ghost size = cells.size_spec();
        let width = cells.size().width;
        let mut r: Vec<C> = Vec::new();
        for col in 0..width
            invariant
                cells.wf(),
                base.wf(),
                base.size_spec() == size,
                cells.size_spec() == size,
                row < size.height,
                width == size.width,
                r@.len() == col,
                ((*rand) is Some) <==> was_some,
                !was_some ==> forall|c: int|
                    0 <= c < col ==> r@[c] == C::step(
                        cells@[row * size.width + c],
                        base@[row * size.width + c],
                        neighbor_vals(cells@, size, Loc { row, col: c as u32 }),
                    ),
        {
            let loc = Loc::new(row, col);
            let cell = match cells.cell(loc) {
                Some(c) => c,
                None => vstd::pervasive::unreached(),
            };
            let mut next_cell = match base.cell(loc) {
                Some(c) => c,
                None => vstd::pervasive::unreached(),
            };
            let neighborhood = Neighborhood::new(cells, loc);
            cell.update(&neighborhood, &mut next_cell, rand);
            r.push(next_cell);
        }
        r
    }

    /// Steps 3 and 4 of an update: forks one sub-stream per row in row
    /// order, then overwrites each row of "next" with that row's transition
    /// against the unmodified "current".
    #[verifier::loop_isolation(false)]
    fn update_cells(&mut self, rand: &mut Option<Random>)
        requires
            old(self).wf(),
        ensures
            final(self).wf(),
            final(self).size == old(self).size,
            final(self).cells == old(self).cells,
            final(self).next_cells.size_spec() == old(self).next_cells.size_spec(),
            final(self).next_cells@.len() == old(self).next_cells@.len(),
            (*old(rand)) is None ==> final(self).next_cells@ == next_gen(
                old(self).cells@,
                old(self).next_cells@,
                old(self).size,
            ),
            (*final(rand)) is Some <==> (*old(rand)) is Some,
    {
        let ghost was_some = (*rand) is Some;
        let ghost size = self.size;
        let ghost base0 = self.next_cells@;
        let ghost cur0 = self.cells@;
        let height = self.size.height;
        let width = self.size.width;
        let mut row_rands = Random::multi_fork_option(rand, height);
        let ghost rands0 = row_rands@;
        proof {
            assert(forall|j: int| 0 <= j < rands0.len() ==> ((#[trigger] rands0[j]) is Some <==>
                was_some));
        }
        for row in 0..height
            invariant
                self.wf(),
                self.size == size,
                self.cells@ == cur0,
                self.cells == old(self).cells,
                height == size.height,
                width == size.width,
                base0.len() == size.area_spec(),
                cur0.len() == size.area_spec(),
                self.next_cells@.len() == base0.len(),
                self.next_cells.size_spec() == size,
                row_rands@ == rands0.skip(row as int),
                !was_some ==> forall|i: int|
                    0 <= i < row as int * width as int ==> self.next_cells@[i] == next_gen(
                        cur0,
                        base0,
                        size,
                    )[i],
                forall|i: int|
                    row as int * width as int <= i < base0.len() ==> self.next_cells@[i]
                        == base0[i],
        {
            proof {
                assert(row_rands@[0] == rands0[row as int]);
            }
            let mut row_rand = row_rands.remove(0);
            proof {
                assert(row_rands@ =~= rands0.skip(row as int + 1));
                assert((row_rand is Some) <==> was_some);
                lemma_row_index_bounds(size, row as int);
            }
            let new_row = Self::update_row(&self.cells, &self.next_cells, row, &mut row_rand);
            let ghost pre_next = self.next_cells@;
            self.next_cells.set_row(row, &new_row);
            proof {
                lemma_row_step(
                    cur0,
                    base0,
                    pre_next,
                    self.next_cells@,
                    new_row@,
                    size,
                    row as int,
                    was_some,
                );
            }
        }
        proof {
            if !was_some {
                assert(self.next_cells@ =~= next_gen(cur0, base0, size)) by {
                    assert(next_gen(cur0, base0, size).len() == base0.len());
                    assert(height as int * width as int == size.area_spec())
                        by (nonlinear_arith)
                        requires
                            height == size.height,
                            width == size.width,
                            size.area_spec() == size.width as int * size.height as int,
                    ;
                }
            }
        }
    }
}

/// Row `row`'s index range lies within the grid's area.
proof fn lemma_row_index_bounds(size: GridSize, row: int)
    requires
        size.wf(),
        0 <= row < size.height,
    ensures
        0 <= row * size.width as int,
        (row + 1) * size.width as int == row * size.width as int + size.width as int,
        (row + 1) * size.width as int <= size.area_spec(),
{
    let w = size.width as int;
    let h = size.height as int;
    assert(0 <= row * w && (row + 1) * w == row * w + w && (row + 1) * w <= h * w)
        by (nonlinear_arith)
        requires
            0 <= row < h,
            0 < w,
    ;
}

/// After one row of "next" is overwritten with that row's transition, the
/// finished prefix grows by one row and the rows not yet reached still hold
/// their stamped base values.
proof fn lemma_row_step<C: GridCell>(
    cur: Seq<C>,
    base0: Seq<C>,
    pre: Seq<C>,
    post: Seq<C>,
    new_row: Seq<C>,
    size: GridSize,
    row: int,
    was_some: bool,
)
    requires
        size.wf(),
        0 <= row < size.height,
        cur.len() == size.area_spec(),
        base0.len() == size.area_spec(),
        pre.len() == base0.len(),
        post.len() == base0.len(),
        new_row.len() == size.width,
        !was_some ==> forall|i: int|
            0 <= i < row * size.width as int ==> pre[i] == next_gen(cur, base0, size)[i],
        forall|i: int| row * size.width as int <= i < base0.len() ==> pre[i] == base0[i],
        !was_some ==> forall|c: int|
            0 <= c < size.width ==> new_row[c] == C::step(
                cur[row * size.width as int + c],
                pre[row * size.width as int + c],
                neighbor_vals(cur, size, Loc { row: row as u32, col: c as u32 }),
            ),
        forall|j: int|
            row * size.width as int <= j < row * size.width as int + size.width as int ==> post[j]
                == new_row[j - row * size.width as int],
        forall|j: int|
            0 <= j < base0.len() && !(row * size.width as int <= j < row * size.width as int
                + size.width as int) ==> post[j] == pre[j],
    ensures
        !was_some ==> forall|i: int|
            0 <= i < (row + 1) * size.width as int ==> post[i] == next_gen(cur, base0, size)[i],
        forall|i: int| (row + 1) * size.width as int <= i < base0.len() ==> post[i] == base0[i],
{
    let w = size.width as int;
    lemma_row_index_bounds(size, row);
    if !was_some {
        assert forall|i: int| 0 <= i < (row + 1) * w implies post[i] == next_gen(
            cur,
            base0,
            size,
        )[i] by {
            if i < row * w {
            } else {
                let c = i - row * w;
                assert(post[i] == new_row[c]);
                assert(pre[i] == base0[i]);
                lemma_loc_at_of_index(size, row as u32, c as u32);
                assert(Loc { row: row as u32, col: c as u32 }.index_spec(size) == i);
                assert(next_gen(cur, base0, size)[i] == C::step(
                    cur[i],
                    base0[i],
                    neighbor_vals(cur, size, loc_at(i, size)),
                ));
            }
        }
    }
}

} // verus!

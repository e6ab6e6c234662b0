//! An evolutionary variant of the two-state rule.
//!
//! Each creature carries two heritable 8-bit genomes: a survival genome (bit
//! `n` meaning "survive with `n + 1` neighbor creatures") and a reproduction
//! genome (bit `n` meaning "reproduce into a cell with `n + 1` neighbor
//! creatures"). A newborn's genomes are merged from the neighbors that were
//! willing to reproduce, by the proportional vote with a small mutation
//! probability. Without a random stream no vote and no mutation can be
//! taken: a cell is then born only of parents whose genomes all agree, and
//! inherits them unchanged.

use vstd::prelude::*;
use crate::bits::BitSet8;
use crate::coords::GridSize;
use crate::coords::Loc;
use crate::genome::BitCountsMap;
use crate::genome::BitSet8Gene;
use crate::genome::count_ones_at;
use crate::genome::lemma_unanimous_merge;
use crate::grid::GridCell;
use crate::grid::WorldGrid;
use crate::neighborhood::Neighborhood;
use crate::rng::Random;

verus! {

/// The per-bit mutation probability of a newborn's genomes, as a rational:
/// one in a thousand.
pub const MUTATION_NUMER: u32 = 1;

pub const MUTATION_DENOM: u32 = 1000;

/// Every bit position is either held by no genome or by all of them — which
/// makes all the genomes identical.
pub open spec fn unanimous(genes: Seq<BitSet8Gene>) -> bool {
    forall|i: u8| i < 8 ==> count_ones_at(genes, i) == 0 || count_ones_at(genes, i) == genes.len()
}

/// A creature: a pair of heritable genomes.
#[derive(Clone, Copy, Debug, PartialEq, Eq, Structural)]
pub struct Creature {
    pub survival_gene: BitSet8Gene,
    pub repro_gene: BitSet8Gene,
}

/// Whether a creature survives `n` neighbor creatures, ignoring the random
/// crowding check (which always passes without a random stream).
pub open spec fn survives_spec(c: Creature, n: int) -> bool {
    0 < n <= 8 && c.survival_gene.value.bit_spec((n - 1) as u8)
}

/// Whether a creature is willing to reproduce into a cell with `n` neighbor
/// creatures.
pub open spec fn can_reproduce_spec(c: Creature, n: int) -> bool {
    0 < n <= 8 && c.repro_gene.value.bit_spec((n - 1) as u8)
}

impl Creature {
    pub fn new(survival_gene: BitSet8Gene, repro_gene: BitSet8Gene) -> (r: Creature)
        ensures
            r == (Creature { survival_gene, repro_gene }),
    {
        Creature { survival_gene, repro_gene }
    }

    /// The classic rule as genomes: survive with 2 or 3 neighbors, reproduce
    /// into a cell with exactly 3.
    pub fn conway() -> (r: Creature)
        ensures
            r == (Creature {
                survival_gene: BitSet8Gene { value: BitSet8 { bits: 0b110 } },
                repro_gene: BitSet8Gene { value: BitSet8 { bits: 0b100 } },
            }),
    {
        Creature::new(
            BitSet8Gene::new(BitSet8::new(0b110)),
            BitSet8Gene::new(BitSet8::new(0b100)),
        )
    }

    /// A color read off the genomes: the union of both genomes as red, and
    /// the two genome sizes, squeezed into a nibble each, as green and blue.
    pub fn color_rgba(&self) -> (r: [u8; 4])
        ensures
            r@ == creature_color(*self),
    {
        let survival_bitset = self.survival_gene.value;
        let repro_bitset = self.repro_gene.value;
        let red = survival_bitset.bits | repro_bitset.bits;
        let num_survival_bits = survival_bitset.count_set_bits() as u8;
        let green = ((num_survival_bits & 0b1000) | (num_survival_bits << 1u8)) << 4u8;
        let num_repro_bits = repro_bitset.count_set_bits() as u8;
        let blue = ((num_repro_bits & 0b1000) | (num_repro_bits << 1u8)) << 4u8;
        let r = [red, green, blue, 0xffu8];
        proof {
            assert(r@ =~= creature_color(*self));
        }
        r
    }

    /// Survival of a creature with `n` neighbor creatures: its survival
    /// genome must allow `n`, and a random crowding check (more genome bits,
    /// less likely) must pass. Without a random stream the crowding check
    /// always passes.
    pub fn survives(&self, num_neighbors: usize, rand: &mut Option<Random>) -> (r: bool)
        requires
            num_neighbors <= 8,
        ensures
            (*old(rand)) is None ==> r == survives_spec(*self, num_neighbors as int),
            (*final(rand)) is Some <==> (*old(rand)) is Some,
    {
        num_neighbors > 0 && self.survival_gene.value.is_bit_set(num_neighbors - 1)
            && self.has_small_genome(rand)
    }

    /// The crowding check: passes with probability one minus the fraction of
    /// the 16 possible genome bits this creature holds; always passes
    /// without a random stream.
    fn has_small_genome(&self, rand: &mut Option<Random>) -> (r: bool)
        ensures
            (*old(rand)) is None ==> r,
            (*final(rand)) is Some <==> (*old(rand)) is Some,
    {
        match rand {
            Some(rr) => {
                let num_genome_bits = (self.survival_gene.value.count_set_bits()
                    + self.repro_gene.value.count_set_bits()) as u32;
                rr.next_bool(16 - num_genome_bits, 16)
            },
            None => true,
        }
    }

    /// Whether this creature's reproduction genome allows a cell with `n`
    /// neighbor creatures.
    pub fn can_reproduce(&self, num_neighbors: usize) -> (r: bool)
        requires
            num_neighbors <= 8,
        ensures
            r == can_reproduce_spec(*self, num_neighbors as int),
    {
        num_neighbors > 0 && self.repro_gene.value.is_bit_set(num_neighbors - 1)
    }

    /// The child born into a cell with the given neighbors, if any: the
    /// willing parents' genomes merged, subjected to the crowding check.
    /// Without a random stream, only an all-identical parent set can breed,
    /// and the child inherits the parents' genomes unchanged.
    pub fn maybe_reproduce(
        neighborhood: &Neighborhood<'_, EvoConwayGridCell>,
        num_neighbors: usize,
        rand: &mut Option<Random>,
    ) -> (r: Option<Creature>)
        requires
            neighborhood.wf(),
            num_neighbors <= 8,
        ensures
            (*old(rand)) is None ==> r == spec_child(
                neighborhood.neighbor_vals_spec(),
                num_neighbors as int,
            ),
            (*final(rand)) is Some <==> (*old(rand)) is Some,
    {
        match Self::merge_parent_genes(neighborhood, num_neighbors, rand) {
            Some((child_survival_gene, child_repro_gene)) => {
                let child = Creature::new(child_survival_gene, child_repro_gene);
                if child.has_small_genome(rand) {
                    Some(child)
                } else {
                    None
                }
            },
            None => None,
        }
    }

    /// Gathers the genomes of the neighbors willing to reproduce, in the
    /// fixed neighbor order, and merges each of the two genomes.
    fn merge_parent_genes(
        neighborhood: &Neighborhood<'_, EvoConwayGridCell>,
        num_neighbors: usize,
        rand: &mut Option<Random>,
    ) -> (r: Option<(BitSet8Gene, BitSet8Gene)>)
        requires
            neighborhood.wf(),
            num_neighbors <= 8,
        ensures
            (*old(rand)) is None ==> r == match spec_child(
                neighborhood.neighbor_vals_spec(),
                num_neighbors as int,
            ) {
                Some(c) => Some((c.survival_gene, c.repro_gene)),
                None => None,
            },
            (*final(rand)) is Some <==> (*old(rand)) is Some,
    {
        let ghost nbrs = neighborhood.neighbor_vals_spec();
        let ghost n = num_neighbors as int;
        let cells = neighborhood.neighbor_cells();
        let len = cells.len();
        let mut parent_survival_genes: Vec<BitSet8Gene> = Vec::new();
        let mut parent_repro_genes: Vec<BitSet8Gene> = Vec::new();
        for k in 0..len
            invariant
                len == 8,
                nbrs.len() == 8,
                cells@ == nbrs,
                num_neighbors <= 8,
                n == num_neighbors as int,
                parent_survival_genes@ == parent_creatures(
                    nbrs.subrange(0, k as int),
                    n,
                ).map_values(|c: Creature| c.survival_gene),
                parent_repro_genes@ == parent_creatures(nbrs.subrange(0, k as int), n).map_values(
                    |c: Creature| c.repro_gene,
                ),
                parent_survival_genes@.len() <= k,
                parent_survival_genes@.len() == parent_repro_genes@.len(),
        {
            proof {
                let pre = nbrs.subrange(0, k as int);
                let post = nbrs.subrange(0, k as int + 1);
                assert(post.drop_last() =~= pre);
                assert(post.last() == nbrs[k as int]);
            }
            match cells[k].creature {
                Some(creature) => {
                    if creature.can_reproduce(num_neighbors) {
                        parent_survival_genes.push(creature.survival_gene);
                        parent_repro_genes.push(creature.repro_gene);
                    }
                },
                None => {},
            }
            proof {
                let post = nbrs.subrange(0, k as int + 1);
                assert(parent_survival_genes@ =~= parent_creatures(post, n).map_values(
                    |c: Creature| c.survival_gene,
                ));
                assert(parent_repro_genes@ =~= parent_creatures(post, n).map_values(
                    |c: Creature| c.repro_gene,
                ));
            }
        }
        proof {
            assert(nbrs.subrange(0, 8) =~= nbrs);
        }
        let ghost parents = parent_creatures(nbrs, n);
        if parent_survival_genes.len() == 0 {
            return None;
        }
        let deterministic = match rand {
            Some(_) => false,
            None => true,
        };
        if deterministic {
            if !is_unanimous(&parent_survival_genes) || !is_unanimous(&parent_repro_genes) {
                return None;
            }
        }
        let merged_survival = BitSet8Gene::merge(
            &parent_survival_genes,
            rand,
            MUTATION_NUMER,
            MUTATION_DENOM,
        );
        let merged_repro = BitSet8Gene::merge(
            &parent_repro_genes,
            rand,
            MUTATION_NUMER,
            MUTATION_DENOM,
        );
        proof {
            if (*old(rand)) is None {
                lemma_unanimous_merge(parent_survival_genes@, merged_survival.value);
                lemma_unanimous_merge(parent_repro_genes@, merged_repro.value);
                assert(parent_survival_genes@[0] == parents[0].survival_gene);
                assert(parent_repro_genes@[0] == parents[0].repro_gene);
            }
        }
        Some((merged_survival, merged_repro))
    }
}

/// A creature's genomes read as a color.
pub open spec fn creature_color(c: Creature) -> Seq<u8> {
    let red = c.survival_gene.value.bits | c.repro_gene.value.bits;
    let ns = c.survival_gene.value.count_spec() as u8;
    let green = ((ns & 0b1000) | (ns << 1u8)) << 4u8;
    let nr = c.repro_gene.value.count_spec() as u8;
    let blue = ((nr & 0b1000) | (nr << 1u8)) << 4u8;
    seq![red, green, blue, 0xffu8]
}

/// A grid cell holding at most one creature.
#[derive(Clone, Copy, Debug)]
pub struct EvoConwayGridCell {
    pub creature: Option<Creature>,
}

impl Default for EvoConwayGridCell {
    fn default() -> (r: EvoConwayGridCell)
        ensures
            r == (EvoConwayGridCell { creature: None::<Creature> }),
    {
        EvoConwayGridCell { creature: None }
    }
}

/// How many of the cells hold a creature.
pub open spec fn creature_count(cells: Seq<EvoConwayGridCell>) -> int
    decreases cells.len(),
{
    if cells.len() == 0 {
        0
    } else {
        creature_count(cells.drop_last()) + if cells.last().creature is Some {
            1int
        } else {
            0int
        }
    }
}

/// The creatures willing to reproduce into a cell with `n` neighbor
/// creatures, in the fixed neighbor order.
pub open spec fn parent_creatures(cells: Seq<EvoConwayGridCell>, n: int) -> Seq<Creature>
    decreases cells.len(),
{
    if cells.len() == 0 {
        Seq::empty()
    } else {
        let rest = parent_creatures(cells.drop_last(), n);
        match cells.last().creature {
            Some(c) => if can_reproduce_spec(c, n) {
                rest.push(c)
            } else {
                rest
            },
            None => rest,
        }
    }
}

/// The deterministic-mode child of a cell with the given neighbors: the
/// first willing parent's genomes, provided there is a willing parent and
/// all willing parents' genomes agree; otherwise no child.
pub open spec fn spec_child(cells: Seq<EvoConwayGridCell>, n: int) -> Option<Creature> {
    let parents = parent_creatures(cells, n);
    if parents.len() == 0 {
        None
    } else if unanimous(parents.map_values(|c: Creature| c.survival_gene)) && unanimous(
        parents.map_values(|c: Creature| c.repro_gene),
    ) {
        Some(
            Creature {
                survival_gene: parents[0].survival_gene,
                repro_gene: parents[0].repro_gene,
            },
        )
    } else {
        None
    }
}

/// Whether every bit position is held by none or by all of the genomes.
fn is_unanimous(genes: &Vec<BitSet8Gene>) -> (r: bool)
    requires
        genes@.len() <= 8,
    ensures
        r == unanimous(genes@),
{
    let n = genes.len();
    let mut counts = BitCountsMap::new();
    for k in 0..n
        invariant
            n == genes@.len(),
            n <= 8,
            counts.wf(),
            forall|i: int| 0 <= i < 8 ==> counts.ones_at(i) == count_ones_at(
                genes@.subrange(0, k as int),
                i as u8,
            ),
            forall|i: int| 0 <= i < 8 ==> counts.ones_at(i) + counts.zeros_at(i) == k,
    {
        proof {
            assert forall|i: int| 0 <= i < 8 implies counts.ones_at(i) + counts.zeros_at(i)
                < u32::MAX by {}
        }
        counts.increment(&genes[k].value);
        proof {
            assert forall|i: int| 0 <= i < 8 implies counts.ones_at(i) == count_ones_at(
                genes@.subrange(0, k as int + 1),
                i as u8,
            ) by {
                let pre = genes@.subrange(0, k as int);
                let post = genes@.subrange(0, k as int + 1);
                assert(post.drop_last() =~= pre);
                assert(post.last() == genes@[k as int]);
            }
        }
    }
    proof {
        assert(genes@.subrange(0, n as int) =~= genes@);
    }
    let mut ok = true;
    for k in 0..8usize
        invariant
            counts.wf(),
            n == genes@.len(),
            forall|i: int| 0 <= i < 8 ==> counts.ones_at(i) == count_ones_at(genes@, i as u8),
            forall|i: int| 0 <= i < 8 ==> counts.ones_at(i) + counts.zeros_at(i) == n,
            ok ==> forall|i: u8| i < k ==> count_ones_at(genes@, i) == 0 || count_ones_at(
                genes@, i) == genes@.len(),
            !ok ==> !unanimous(genes@),
    {
        let ones = counts.ones(k);
        let zeros = counts.zeros(k);
        if ones != 0 && zeros != 0 {
            proof {
                assert(count_ones_at(genes@, k as u8) != 0 && count_ones_at(genes@, k as u8)
                    != genes@.len());
                assert(!unanimous(genes@));
            }
            ok = false;
        } else {
            proof {
                assert(count_ones_at(genes@, k as u8) == 0 || count_ones_at(genes@, k as u8)
                    == genes@.len());
            }
        }
    }
    ok
}

impl GridCell for EvoConwayGridCell {
    /// A cell with a creature keeps its stamped next value when the creature
    /// survives and is emptied when it does not; an empty cell takes the
    /// deterministic-mode child, if any.
    open spec fn step(self, prior_next: Self, neighbors: Seq<Self>) -> Self {
        let n = creature_count(neighbors);
        match self.creature {
            Some(c) => if survives_spec(c, n) {
                prior_next
            } else {
                EvoConwayGridCell { creature: None }
            },
            None => EvoConwayGridCell { creature: spec_child(neighbors, n) },
        }
    }

    open spec fn color_spec(self) -> Seq<u8> {
        match self.creature {
            Some(c) => creature_color(c),
            None => seq![0u8, 0u8, 0u8, 0xffu8],
        }
    }

    fn color_rgba(&self) -> (r: [u8; 4]) {
        match self.creature {
            Some(c) => c.color_rgba(),
            None => {
                let r = [0u8, 0u8, 0u8, 0xffu8];
                proof {
                    assert(r@ =~= self.color_spec());
                }
                r
            },
        }
    }

    fn update(
        &self,
        neighborhood: &Neighborhood<'_, EvoConwayGridCell>,
        next_cell: &mut EvoConwayGridCell,
        rand: &mut Option<Random>,
    ) {
        let num_neighbors = EvoConwayGridCell::num_neighbor_creatures(neighborhood);
        match self.creature {
            Some(creature) => {
                if !creature.survives(num_neighbors, rand) {
                    next_cell.creature = None;
                }
            },
            None => {
                next_cell.creature = Creature::maybe_reproduce(neighborhood, num_neighbors, rand);
            },
        }
    }
}

impl EvoConwayGridCell {
    /// Counts the neighbors holding a creature.
    pub fn num_neighbor_creatures(neighborhood: &Neighborhood<'_, EvoConwayGridCell>) -> (r:
        usize)
        requires
            neighborhood.wf(),
        ensures
            r == creature_count(neighborhood.neighbor_vals_spec()),
            r <= 8,
    {
        let cells = neighborhood.neighbor_cells();
        let n = cells.len();
        let mut result: usize = 0;
        for i in 0..n
            invariant
                n == cells@.len(),
                n == 8,
                result == creature_count(cells@.subrange(0, i as int)),
                result <= i,
        {
            proof {
                let pre = cells@.subrange(0, i as int);
                let post = cells@.subrange(0, i as int + 1);
                assert(post.drop_last() =~= pre);
                assert(post.last() == cells@[i as int]);
            }
            match cells[i].creature {
                Some(_) => {
                    result += 1;
                },
                None => {},
            }
        }
        proof {
            assert(cells@.subrange(0, n as int) =~= cells@);
        }
        result
    }
}

/// A world running the evolutionary rule: a first stretch of generations is
/// advanced without randomness (the seeded classic genomes breed true), and
/// evolution with mutation begins after it.
pub struct EvoConwayWorld {
    grid: WorldGrid<EvoConwayGridCell>,
    rand: Option<Random>,
    conway_steps: usize,
}

impl EvoConwayWorld {
    pub closed spec fn wf(self) -> bool {
        self.grid.wf()
    }

    pub closed spec fn size_spec(self) -> GridSize {
        self.grid.size_spec()
    }

    /// The current committed generation.
    pub closed spec fn cells_spec(self) -> Seq<EvoConwayGridCell> {
        self.grid@
    }

    /// How many opening generations are still advanced without randomness.
    pub closed spec fn conway_steps_spec(self) -> int {
        self.conway_steps as int
    }

    pub fn new(grid_size: GridSize, rand: Random) -> (r: EvoConwayWorld)
        requires
            grid_size.wf(),
        ensures
            r.wf(),
            r.size_spec() == grid_size,
    {
        let mut result = Self::new_empty(grid_size, rand);
        result.add_random_life();
        result
    }

    fn new_empty(grid_size: GridSize, rand: Random) -> (r: EvoConwayWorld)
        requires
            grid_size.wf(),
        ensures
            r.wf(),
            r.size_spec() == grid_size,
    {
        EvoConwayWorld {
            grid: WorldGrid::new(grid_size, EvoConwayGridCell { creature: None }),
            rand: Some(rand),
            conway_steps: 30,
        }
    }

    /// Puts a classic-genome creature in each cell with probability three in
    /// ten.
    fn add_random_life(&mut self)
        requires
            old(self).wf(),
        ensures
            final(self).wf(),
            final(self).size_spec() == old(self).size_spec(),
    {
        let size = self.grid.size();
        for row in 0..size.height
            invariant
                self.wf(),
                self.size_spec() == old(self).size_spec(),
                size == self.size_spec(),
        {
            for col in 0..size.width
                invariant
                    self.wf(),
                    self.size_spec() == old(self).size_spec(),
                    size == self.size_spec(),
                    row < size.height,
            {
                let lives = match &mut self.rand {
                    Some(r) => r.next_bool(3, 10),
                    None => false,
                };
                if lives {
                    self.grid.set_cell(
                        Loc::new(row, col),
                        EvoConwayGridCell { creature: Some(Creature::conway()) },
                    );
                }
            }
        }
    }

    pub fn grid(&self) -> (r: &WorldGrid<EvoConwayGridCell>)
        ensures
            r.wf() == self.wf(),
            r.size_spec() == self.size_spec(),
            r@ == self.cells_spec(),
    {
        &self.grid
    }

    /// Advances one generation: without randomness while the opening classic
    /// stretch lasts (the committed generation is then exactly `next_gen` of
    /// the prior one), with this world's random stream afterwards.
    pub fn update(&mut self)
        requires
            old(self).wf(),
        ensures
            final(self).wf(),
            final(self).size_spec() == old(self).size_spec(),
            old(self).conway_steps_spec() > 0 ==> final(self).cells_spec()
                == crate::grid::next_gen(
                old(self).cells_spec(),
                old(self).cells_spec(),
                old(self).size_spec(),
            ) && final(self).conway_steps_spec() == old(self).conway_steps_spec() - 1,
            old(self).conway_steps_spec() == 0 ==> final(self).conway_steps_spec() == 0,
    {
        let stamps: Vec<(Loc, EvoConwayGridCell)> = Vec::new();
        if self.conway_steps > 0 {
            self.conway_steps -= 1;
            let mut no_rand: Option<Random> = None;
            self.grid.update(&mut no_rand, &stamps);
            proof {
                assert(crate::grid::stamped(old(self).cells_spec(), stamps@, old(
                    self).size_spec()) == old(self).cells_spec());
            }
        } else {
            self.grid.update(&mut self.rand, &stamps);
        }
    }

    /// Clears the grid and seeds it afresh.
    pub fn reset(&mut self)
        requires
            old(self).wf(),
        ensures
            final(self).wf(),
            final(self).size_spec() == old(self).size_spec(),
    {
        self.grid.fill(EvoConwayGridCell { creature: None });
        self.add_random_life();
    }
}

} // verus!

use world_grid::BitSet8;
use world_grid::BitSet8Gene;
use world_grid::ConwayWorld;
use world_grid::Creature;
use world_grid::EvoConwayGridCell;
use world_grid::EvoConwayWorld;
use world_grid::GridSize;
use world_grid::Loc;
use world_grid::Random;
use world_grid::WorldGrid;

fn empty_cell() -> EvoConwayGridCell {
    EvoConwayGridCell { creature: None }
}

fn cell_with(creature: Creature) -> EvoConwayGridCell {
    EvoConwayGridCell { creature: Some(creature) }
}

#[test]
fn conway_creature_genes() {
    let c = Creature::conway();
    assert_eq!(c.survival_gene.value.bits, 0b110);
    assert_eq!(c.repro_gene.value.bits, 0b100);
}

#[test]
fn survival_follows_the_survival_genome() {
    let c = Creature::conway();
    let mut no_rand: Option<Random> = None;
    assert!(!c.survives(0, &mut no_rand));
    assert!(!c.survives(1, &mut no_rand));
    assert!(c.survives(2, &mut no_rand));
    assert!(c.survives(3, &mut no_rand));
    assert!(!c.survives(4, &mut no_rand));
    assert!(!c.survives(8, &mut no_rand));
}

#[test]
fn reproduction_follows_the_reproduction_genome() {
    let c = Creature::conway();
    assert!(!c.can_reproduce(0));
    assert!(!c.can_reproduce(2));
    assert!(c.can_reproduce(3));
    assert!(!c.can_reproduce(4));
}

#[test]
fn creature_color_is_read_off_the_genomes() {
    let c = Creature::conway();
    // red: union of the genomes; green/blue: genome sizes squeezed to a
    // nibble (2 bits -> 0x40, 1 bit -> 0x20).
    assert_eq!(c.color_rgba(), [0b110, 0x40, 0x20, 0xff]);
}

/// A lone creature on a 3x3 torus dies (no neighbor creature allows
/// survival), and with classic genomes no empty cell is fertile at one
/// neighbor, so the grid empties.
#[test]
fn lone_classic_creature_dies_out() {
    let size = GridSize::new(3, 3);
    let mut grid = WorldGrid::new(size, empty_cell());
    grid.set_cell(Loc::new(1, 1), cell_with(Creature::conway()));
    let mut no_rand: Option<Random> = None;
    grid.update(&mut no_rand, &Vec::new());
    for row in 0..3u32 {
        for col in 0..3u32 {
            assert!(grid.cell(Loc::new(row, col)).unwrap().creature.is_none());
        }
    }
}

/// A creature fertile at one neighbor seeds every other cell of a 3x3
/// torus, and the child inherits the parent's genomes unchanged (a single
/// parent is a unanimous vote, and without a random stream there is no
/// mutation).
#[test]
fn fertile_creature_breeds_true_without_randomness() {
    let parent = Creature::new(
        BitSet8Gene::new(BitSet8::new(0b0000_0010)),
        BitSet8Gene::new(BitSet8::new(0b0000_0001)),
    );
    let size = GridSize::new(3, 3);
    let mut grid = WorldGrid::new(size, empty_cell());
    grid.set_cell(Loc::new(1, 1), cell_with(parent));
    let mut no_rand: Option<Random> = None;
    grid.update(&mut no_rand, &Vec::new());
    for row in 0..3u32 {
        for col in 0..3u32 {
            let got = grid.cell(Loc::new(row, col)).unwrap().creature;
            if row == 1 && col == 1 {
                assert!(got.is_none(), "the parent had no neighbor creature");
            } else {
                let child = got.expect("one fertile parent breeds");
                assert_eq!(child.survival_gene.value.bits, 0b0000_0010);
                assert_eq!(child.repro_gene.value.bits, 0b0000_0001);
            }
        }
    }
}

/// The exogenous stamps are applied to the next buffer before the per-cell
/// pass: a surviving creature's cell keeps its stamped value. On a 1x1
/// torus the lone cell is its own 8 neighbors, so a creature surviving 8
/// neighbors keeps the stamp.
#[test]
fn stamps_are_visible_to_the_transition() {
    let survivor = Creature::new(
        BitSet8Gene::new(BitSet8::new(0b1000_0000)),
        BitSet8Gene::new(BitSet8::empty()),
    );
    let stamped = Creature::new(
        BitSet8Gene::new(BitSet8::new(0b0101_0101)),
        BitSet8Gene::new(BitSet8::new(0b1010_1010)),
    );
    let size = GridSize::new(1, 1);
    let mut grid = WorldGrid::new(size, cell_with(survivor));
    let stamps = vec![(Loc::new(0, 0), cell_with(stamped))];
    let mut no_rand: Option<Random> = None;
    grid.update(&mut no_rand, &stamps);
    let got = grid.cell(Loc::new(0, 0)).unwrap().creature.unwrap();
    assert_eq!(got.survival_gene.value.bits, 0b0101_0101);
    assert_eq!(got.repro_gene.value.bits, 0b1010_1010);
}

#[test]
fn evo_world_runs_and_keeps_its_size() {
    let size = GridSize::new(12, 9);
    let mut world = EvoConwayWorld::new(size, Random::from_seed(21));
    assert_eq!(world.grid().num_cells(), 108);
    for _ in 0..40 {
        world.update();
    }
    assert_eq!(world.grid().num_cells(), 108);
    world.reset();
    assert_eq!(world.grid().num_cells(), 108);
}

#[test]
fn conway_world_runs_and_keeps_its_size() {
    let size = GridSize::new(10, 8);
    let mut world = ConwayWorld::new(size, Random::from_seed(22));
    assert_eq!(world.grid().num_cells(), 80);
    for _ in 0..5 {
        world.update();
    }
    assert_eq!(world.grid().num_cells(), 80);
}

/// Identically seeded worlds evolve identically: the per-row random
/// fan-out is forked in row order from the world's stream.
#[test]
fn identically_seeded_worlds_evolve_identically() {
    let size = GridSize::new(16, 12);
    let mut a = ConwayWorld::new(size, Random::from_seed(33));
    let mut b = ConwayWorld::new(size, Random::from_seed(33));
    for _ in 0..10 {
        a.update();
        b.update();
    }
    for row in 0..12u32 {
        for col in 0..16u32 {
            let loc = Loc::new(row, col);
            assert_eq!(
                a.grid().cell(loc).unwrap().alive,
                b.grid().cell(loc).unwrap().alive
            );
        }
    }
}

use world_grid::ConwayGridCell;
use world_grid::GridCell;
use world_grid::GridSize;
use world_grid::Loc;
use world_grid::Neighborhood;
use world_grid::OneNeighborCell;
use world_grid::Random;
use world_grid::WorldGrid;
use world_grid::WorldGridCells;

fn dead() -> ConwayGridCell {
    ConwayGridCell { alive: false }
}

#[test]
fn new_grid_has_width_times_height_cells() {
    for (w, h) in [(1u32, 1u32), (1, 7), (7, 1), (4, 3), (13, 11)] {
        let size = GridSize::new(w, h);
        let cells = WorldGridCells::new(size, dead());
        assert_eq!(cells.num_cells(), (w * h) as usize);
        let grid = WorldGrid::new(size, dead());
        assert_eq!(grid.num_cells(), (w * h) as usize);
    }
}

#[test]
fn grid_index_is_row_major_and_unique() {
    let size = GridSize::new(4, 3);
    let mut seen = vec![false; 12];
    for row in 0..3u32 {
        for col in 0..4u32 {
            let idx = Loc::new(row, col).grid_index(size).unwrap();
            assert_eq!(idx, (row * 4 + col) as usize);
            assert!(idx < 12);
            assert!(!seen[idx]);
            seen[idx] = true;
        }
    }
    assert!(seen.iter().all(|s| *s));
}

#[test]
fn grid_index_rejects_out_of_bounds() {
    let size = GridSize::new(4, 3);
    assert_eq!(Loc::new(3, 0).grid_index(size), None);
    assert_eq!(Loc::new(0, 4).grid_index(size), None);
    assert_eq!(Loc::new(3, 4).grid_index(size), None);
    assert_eq!(Loc::new(2, 3).grid_index(size), Some(11));
}

#[test]
fn grid_size_area_and_is_empty() {
    let size = GridSize::new(6, 5);
    assert_eq!(size.area(), 30);
    assert!(!size.is_empty());
}

#[test]
fn cell_and_set_cell_round_trip() {
    let size = GridSize::new(3, 2);
    let mut cells = WorldGridCells::new(size, dead());
    cells.set_cell(Loc::new(1, 2), ConwayGridCell { alive: true });
    assert!(cells.cell(Loc::new(1, 2)).unwrap().alive);
    assert!(!cells.cell(Loc::new(0, 2)).unwrap().alive);
    assert!(cells.cell(Loc::new(2, 0)).is_none());
    assert!(cells.cell(Loc::new(0, 3)).is_none());
}

#[test]
fn copy_from_copies_every_cell() {
    let size = GridSize::new(2, 2);
    let mut a = WorldGridCells::new(size, dead());
    let mut b = WorldGridCells::new(size, ConwayGridCell { alive: true });
    a.set_cell(Loc::new(0, 1), ConwayGridCell { alive: true });
    b.copy_from(&a);
    for row in 0..2u32 {
        for col in 0..2u32 {
            let loc = Loc::new(row, col);
            assert_eq!(
                b.cell(loc).unwrap().alive,
                a.cell(loc).unwrap().alive
            );
        }
    }
}

/// The 8 neighbors come in the fixed order NW, N, NE, W, E, SW, S, SE.
#[test]
fn neighbor_cells_come_in_fixed_order() {
    let size = GridSize::new(3, 3);
    let mut cells = WorldGridCells::new(size, 0u8);
    for row in 0..3u32 {
        for col in 0..3u32 {
            cells.set_cell(Loc::new(row, col), (row * 3 + col) as u8);
        }
    }
    let neighborhood = Neighborhood::new(&cells, Loc::new(1, 1));
    let got = neighborhood.neighbor_cells();
    assert_eq!(got, vec![0u8, 1, 2, 3, 5, 6, 7, 8]);
}

/// Toroidal wraparound: the neighbor set of the origin is exactly the 8
/// positions built from the last and first rows and columns.
#[test]
fn neighbors_of_origin_wrap_around() {
    let (w, h) = (5u32, 4u32);
    let size = GridSize::new(w, h);
    let mut cells = WorldGridCells::new(size, 0u8);
    for row in 0..h {
        for col in 0..w {
            cells.set_cell(Loc::new(row, col), (row * w + col) as u8);
        }
    }
    let at = |row: u32, col: u32| (row * w + col) as u8;
    let neighborhood = Neighborhood::new(&cells, Loc::new(0, 0));
    let got = neighborhood.neighbor_cells();
    let expected = vec![
        at(h - 1, w - 1),
        at(h - 1, 0),
        at(h - 1, 1),
        at(0, w - 1),
        at(0, 1),
        at(1, w - 1),
        at(1, 0),
        at(1, 1),
    ];
    assert_eq!(got, expected);
}

#[test]
fn local_cell_coordinates_reach_all_nine() {
    let size = GridSize::new(3, 3);
    let mut cells = WorldGridCells::new(size, 0u8);
    for row in 0..3u32 {
        for col in 0..3u32 {
            cells.set_cell(Loc::new(row, col), (row * 3 + col) as u8);
        }
    }
    let neighborhood = Neighborhood::new(&cells, Loc::new(1, 1));
    for r in 0..3usize {
        for c in 0..3usize {
            assert_eq!(neighborhood.cell(r, c), (r * 3 + c) as u8);
        }
    }
    assert_eq!(neighborhood.cell(1, 1), 4);
}

/// End to end: a 3x3 torus with one live cell at (1, 1), under the rule
/// "alive next exactly when it has exactly one live neighbor now", leaves
/// the center dead and makes every other cell alive.
#[test]
fn one_neighbor_rule_end_to_end() {
    let size = GridSize::new(3, 3);
    let mut grid = WorldGrid::new(size, OneNeighborCell { alive: false });
    grid.set_cell(Loc::new(1, 1), OneNeighborCell { alive: true });
    let mut rand: Option<Random> = None;
    grid.update(&mut rand, &Vec::new());
    for row in 0..3u32 {
        for col in 0..3u32 {
            let alive = grid.cell(Loc::new(row, col)).unwrap().alive;
            if row == 1 && col == 1 {
                assert!(!alive, "the lone live cell had no live neighbor");
            } else {
                assert!(alive, "cell ({row}, {col}) had exactly one live neighbor");
            }
        }
    }
}

#[test]
fn conway_lone_cell_dies() {
    let size = GridSize::new(3, 3);
    let mut grid = WorldGrid::new(size, dead());
    grid.set_cell(Loc::new(1, 1), ConwayGridCell { alive: true });
    let mut rand: Option<Random> = None;
    grid.update(&mut rand, &Vec::new());
    for row in 0..3u32 {
        for col in 0..3u32 {
            assert!(!grid.cell(Loc::new(row, col)).unwrap().alive);
        }
    }
}

#[test]
fn conway_blinker_oscillates() {
    let size = GridSize::new(5, 5);
    let mut grid = WorldGrid::new(size, dead());
    for row in 1..4u32 {
        grid.set_cell(Loc::new(row, 2), ConwayGridCell { alive: true });
    }
    let mut rand: Option<Random> = None;
    grid.update(&mut rand, &Vec::new());
    for row in 0..5u32 {
        for col in 0..5u32 {
            let expected = row == 2 && (1..4).contains(&col);
            assert_eq!(grid.cell(Loc::new(row, col)).unwrap().alive, expected);
        }
    }
    grid.update(&mut rand, &Vec::new());
    for row in 0..5u32 {
        for col in 0..5u32 {
            let expected = col == 2 && (1..4).contains(&row);
            assert_eq!(grid.cell(Loc::new(row, col)).unwrap().alive, expected);
        }
    }
}

/// A row computed on its own equals the same row of a whole-grid update.
#[test]
fn update_row_matches_whole_update() {
    let size = GridSize::new(4, 3);
    let mut grid = WorldGrid::new(size, OneNeighborCell { alive: false });
    let mut cur = WorldGridCells::new(size, OneNeighborCell { alive: false });
    for (row, col) in [(0u32, 0u32), (1, 2), (2, 3)] {
        grid.set_cell(Loc::new(row, col), OneNeighborCell { alive: true });
        cur.set_cell(Loc::new(row, col), OneNeighborCell { alive: true });
    }
    let mut base = WorldGridCells::new(size, OneNeighborCell { alive: false });
    base.copy_from(&cur);
    let mut rand: Option<Random> = None;
    grid.update(&mut rand, &Vec::new());
    for row in 0..3u32 {
        let mut row_rand: Option<Random> = None;
        let computed = WorldGrid::update_row(&cur, &base, row, &mut row_rand);
        assert_eq!(computed.len(), 4);
        for col in 0..4u32 {
            assert_eq!(
                computed[col as usize].alive,
                grid.cell(Loc::new(row, col)).unwrap().alive
            );
        }
    }
}

#[test]
fn fill_clears_the_grid() {
    let size = GridSize::new(3, 3);
    let mut grid = WorldGrid::new(size, ConwayGridCell { alive: true });
    grid.fill(dead());
    for row in 0..3u32 {
        for col in 0..3u32 {
            assert!(!grid.cell(Loc::new(row, col)).unwrap().alive);
        }
    }
}

#[test]
fn conway_cell_colors() {
    assert_eq!(ConwayGridCell { alive: true }.color_rgba(), [0x80, 0x80, 0x80, 0xff]);
    assert_eq!(ConwayGridCell { alive: false }.color_rgba(), [0x00, 0x00, 0x40, 0xff]);
}

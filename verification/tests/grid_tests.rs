use game_of_life::cell::Cell;
use game_of_life::grid::Grid;

/// Builds a grid of the given side where exactly the listed `(row, column)`
/// cells start alive.
fn grid_with_live(size: u32, live: &[(u32, u32)]) -> Grid {
    let n = (size as usize) * (size as usize);
    let mut alive = vec![false; n];
    for &(row, column) in live {
        alive[(row * size + column) as usize] = true;
    }
    Grid::new(size, alive)
}

#[test]
fn new_sets_width_height_and_cell_count() {
    let grid = Grid::new(4, vec![false; 16]);
    assert_eq!(grid.width(), 4);
    assert_eq!(grid.height(), 4);
    assert_eq!(grid.cells().len(), 16);

    let grid = Grid::new(1, vec![true]);
    assert_eq!(grid.width(), 1);
    assert_eq!(grid.height(), 1);
    assert_eq!(grid.cells().len(), 1);
}

#[test]
fn new_places_each_seed_value() {
    let alive = vec![true, false, false, true, true, false, false, false, true];
    let grid = Grid::new(3, alive.clone());
    for i in 0..9 {
        let expected = if alive[i] { Cell::Alive } else { Cell::Dead };
        assert_eq!(grid.cells()[i], expected);
    }
}

#[test]
fn get_index_is_row_major() {
    let grid = Grid::new(3, vec![false; 9]);
    assert_eq!(grid.get_index(0, 0), 0);
    assert_eq!(grid.get_index(0, 2), 2);
    assert_eq!(grid.get_index(2, 1), 7);
    assert_eq!(grid.get_index(2, 2), 8);
}

#[test]
fn get_cell_reads_current_generation() {
    let grid = grid_with_live(3, &[(1, 2)]);
    assert_eq!(grid.get_cell(1, 2), Cell::Alive);
    assert_eq!(grid.get_cell(2, 1), Cell::Dead);
    assert_eq!(grid.get_cell(0, 0), Cell::Dead);
}

#[test]
fn next_state_matches_truth_table() {
    // A live cell survives exactly with 2 or 3 live neighbors; a dead cell
    // comes alive exactly with 3.
    for count in 0..=8u32 {
        let from_alive = Cell::Alive.next_state(count);
        let expected = if count == 2 || count == 3 { Cell::Alive } else { Cell::Dead };
        assert_eq!(from_alive, expected, "alive cell with {count} live neighbors");

        let from_dead = Cell::Dead.next_state(count);
        let expected = if count == 3 { Cell::Alive } else { Cell::Dead };
        assert_eq!(from_dead, expected, "dead cell with {count} live neighbors");
    }
}

#[test]
fn neighbor_count_wraps_both_dimensions() {
    // Only (0, 0) is alive on a 3x3 grid: the opposite corner must see it.
    let grid = grid_with_live(3, &[(0, 0)]);
    assert_eq!(grid.live_neighbor_count(2, 2), 1);
    assert_eq!(grid.live_neighbor_count(1, 1), 1);
    assert_eq!(grid.live_neighbor_count(0, 2), 1);
    assert_eq!(grid.live_neighbor_count(2, 0), 1);
    // The live cell itself is skipped as its own neighbor here.
    assert_eq!(grid.live_neighbor_count(0, 0), 0);
}

#[test]
fn single_cell_grid_is_its_own_neighbor_eight_times() {
    let grid = grid_with_live(1, &[(0, 0)]);
    assert_eq!(grid.live_neighbor_count(0, 0), 8);

    let empty = Grid::new(1, vec![false]);
    assert_eq!(empty.live_neighbor_count(0, 0), 0);
}

#[test]
fn single_live_cell_grid_dies_of_overpopulation() {
    // With 8 (aliased) live neighbors, the lone live cell dies; it never
    // comes back since a dead lone cell counts 0.
    let mut grid = grid_with_live(1, &[(0, 0)]);
    grid.tick();
    assert_eq!(grid.get_cell(0, 0), Cell::Dead);
    grid.tick();
    assert_eq!(grid.get_cell(0, 0), Cell::Dead);
}

#[test]
fn get_next_cell_applies_rule_to_old_generation() {
    let grid = grid_with_live(5, &[(2, 1), (2, 2), (2, 3)]);
    // The blinker's center survives with 2 live neighbors.
    assert_eq!(grid.get_next_cell(2, 2), Cell::Alive);
    // Its end cells die with 1 live neighbor each.
    assert_eq!(grid.get_next_cell(2, 1), Cell::Dead);
    // The dead cells above and below the center have exactly 3 live neighbors.
    assert_eq!(grid.get_next_cell(1, 2), Cell::Alive);
    assert_eq!(grid.get_next_cell(3, 2), Cell::Alive);
}

#[test]
fn block_is_a_still_life() {
    // Each cell of the 2x2 block sees exactly 3 live neighbors.
    let mut grid = grid_with_live(4, &[(0, 0), (0, 1), (1, 0), (1, 1)]);
    let before = grid.cells().clone();
    grid.tick();
    assert_eq!(grid.cells(), &before);
}

#[test]
fn block_is_a_still_life_on_smallest_wrapping_grid() {
    // On a 3x3 torus all 8 neighbor positions are still distinct, so the
    // block's live cells again see exactly 3 live neighbors.
    let mut grid = grid_with_live(3, &[(0, 0), (0, 1), (1, 0), (1, 1)]);
    let before = grid.cells().clone();
    grid.tick();
    assert_eq!(grid.cells(), &before);
}

#[test]
fn fully_alive_two_by_two_grid_dies_out() {
    // On a 2x2 torus every cell counts 8 live neighbors (all aliased), so the
    // whole generation dies of overpopulation at once.
    let mut grid = Grid::new(2, vec![true; 4]);
    grid.tick();
    for row in 0..2 {
        for column in 0..2 {
            assert_eq!(grid.get_cell(row, column), Cell::Dead);
        }
    }
}

#[test]
fn tick_is_deterministic() {
    let seed = vec![
        true, false, true, false, true, false, false, true, true, false, true, false, true, true,
        false, true, false, false, true, false, true, false, true, false, true,
    ];
    let mut first = Grid::new(5, seed.clone());
    let mut second = Grid::new(5, seed);
    first.tick();
    second.tick();
    assert_eq!(first.cells(), second.cells());
    first.tick();
    second.tick();
    assert_eq!(first.cells(), second.cells());
}

#[test]
fn blinker_oscillates_with_period_two() {
    let horizontal = grid_with_live(5, &[(2, 1), (2, 2), (2, 3)]);
    let vertical = grid_with_live(5, &[(1, 2), (2, 2), (3, 2)]);

    let mut grid = grid_with_live(5, &[(2, 1), (2, 2), (2, 3)]);
    grid.tick();
    assert_eq!(grid.cells(), vertical.cells());
    grid.tick();
    assert_eq!(grid.cells(), horizontal.cells());
}

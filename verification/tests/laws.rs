use sandpile::grid::CRITICAL;
use sandpile::universe::FRESH_LIMIT;
use sandpile::{GridError, Universe};

fn grid(width: usize, height: usize, cells: &[usize]) -> Universe {
    Universe::from_cells(width, height, cells.to_vec()).unwrap()
}

fn total(u: &Universe) -> usize {
    u.cells().iter().sum()
}

#[test]
fn threshold_and_fresh_limit() {
    assert_eq!(CRITICAL, 4);
    assert_eq!(FRESH_LIMIT, 10);
    let below = grid(1, 1, &[CRITICAL - 1]);
    assert!(below.stable());
    let at = grid(1, 1, &[CRITICAL]);
    assert!(!at.stable());
}

#[test]
fn stable_agrees_with_largest_pile() {
    let calm = grid(3, 2, &[0, 1, 2, 3, 3, 0]);
    assert_eq!(calm.cells().iter().max(), Some(&3));
    assert!(calm.stable());

    let tense = grid(3, 2, &[0, 1, 2, 3, 4, 0]);
    assert_eq!(tense.cells().iter().max(), Some(&4));
    assert!(!tense.stable());

    let last = grid(3, 2, &[0, 0, 0, 0, 0, 9]);
    assert!(!last.stable());
    let first = grid(3, 2, &[7, 0, 0, 0, 0, 0]);
    assert!(!first.stable());
}

#[test]
fn every_cell_below_compares_with_the_largest_pile() {
    let u = grid(3, 2, &[0, 1, 2, 3, 7, 0]);
    assert!(u.every_cell_below(8));
    assert!(!u.every_cell_below(7));
    assert!(!u.every_cell_below(0));
    assert!(u.every_cell_below(usize::MAX));
    let full = grid(1, 2, &[0, usize::MAX]);
    assert!(!full.every_cell_below(usize::MAX));
}

#[test]
fn toppled_cell_keeps_what_flows_in() {
    // Two unstable cells side by side in the middle of a 4 by 3 grid.
    let mut u = grid(4, 3, &[0, 0, 0, 0, 0, 6, 4, 0, 0, 0, 0, 0]);
    u.topple();
    assert_eq!(u.cells(), vec![0, 1, 1, 0, 1, 3, 1, 1, 0, 1, 1, 0]);
    // Each lost four and received one from the other.
    assert_eq!(u.get(1, 1), Some(6 - 4 + 1));
    assert_eq!(u.get(1, 2), Some(4 - 4 + 1));
}

#[test]
fn topple_reads_the_grid_as_it_was() {
    // The cell at (1, 1) holds 3 and receives one grain; it must not topple
    // in the same pass, whichever cell is visited first.
    let mut u = grid(3, 3, &[0, 4, 0, 0, 3, 0, 0, 0, 0]);
    u.topple();
    assert_eq!(u.cells(), vec![1, 0, 1, 0, 4, 0, 0, 0, 0]);
    assert!(!u.stable());
    u.topple();
    assert_eq!(u.cells(), vec![1, 1, 1, 1, 0, 1, 0, 1, 0]);
    assert!(u.stable());
}

#[test]
fn every_cell_unstable() {
    let mut u = grid(3, 3, &[4; 9]);
    u.topple();
    // Corners receive two grains, edges three, the centre four.
    assert_eq!(u.cells(), vec![2, 3, 2, 3, 4, 3, 2, 3, 2]);
}

#[test]
fn interior_topple_conserves_grains() {
    let mut u = grid(5, 5, &[0; 25]);
    for _ in 0..4 {
        u.tick_at(2, 2);
    }
    assert_eq!(total(&u), 4);
    u.topple();
    assert_eq!(total(&u), 4);
}

#[test]
fn boundary_topple_loses_grains() {
    let mut corner = grid(3, 3, &[5, 0, 0, 0, 0, 0, 0, 0, 0]);
    corner.topple();
    assert_eq!(total(&corner), 3);

    let mut edge = grid(3, 3, &[0, 0, 0, 5, 0, 0, 0, 0, 0]);
    edge.topple();
    assert_eq!(total(&edge), 4);

    let mut last_row = grid(3, 3, &[0, 0, 0, 0, 0, 0, 0, 4, 0]);
    last_row.topple();
    assert_eq!(total(&last_row), 3);

    let mut last_column = grid(3, 3, &[0, 0, 0, 0, 0, 4, 0, 0, 0]);
    last_column.topple();
    assert_eq!(total(&last_column), 3);
}

#[test]
fn topple_never_adds_grains() {
    let mut u = grid(4, 4, &[9, 1, 4, 0, 3, 8, 2, 7, 0, 5, 6, 1, 4, 4, 0, 12]);
    for _ in 0..20 {
        let before = total(&u);
        u.topple();
        assert!(total(&u) <= before);
    }
    assert!(u.stable());
}

#[test]
fn topple_of_a_stable_grid_changes_nothing() {
    let cells = vec![0, 1, 2, 3, 3, 2, 1, 0];
    let mut u = grid(4, 2, &cells);
    u.topple();
    assert_eq!(u.cells(), cells);
}

#[test]
fn single_cell_loses_all_four() {
    let mut u = grid(1, 1, &[6]);
    u.topple();
    assert_eq!(u.cells(), vec![2]);
}

#[test]
fn single_row_and_single_column() {
    let mut row = grid(4, 1, &[0, 4, 4, 0]);
    row.topple();
    assert_eq!(row.cells(), vec![1, 1, 1, 1]);

    let mut column = grid(1, 3, &[4, 0, 0]);
    column.topple();
    assert_eq!(column.cells(), vec![0, 1, 0]);
}

#[test]
fn corners_of_a_grid_that_is_not_square() {
    // 7 columns, 3 rows: the corners are found from the real dimensions.
    let mut cells = vec![0; 21];
    cells[6] = 4;
    cells[14] = 4;
    cells[20] = 5;
    let mut u = grid(7, 3, &cells);
    u.topple();
    assert_eq!(u.get(0, 6), Some(0));
    assert_eq!(u.get(0, 5), Some(1));
    assert_eq!(u.get(1, 6), Some(2));
    assert_eq!(u.get(2, 0), Some(0));
    assert_eq!(u.get(1, 0), Some(1));
    assert_eq!(u.get(2, 1), Some(1));
    assert_eq!(u.get(2, 6), Some(1));
    assert_eq!(u.get(2, 5), Some(1));
    assert_eq!(total(&u), 13 - 6);
}

#[test]
fn tick_on_a_stable_grid_adds_exactly_one() {
    let mut u = grid(2, 2, &[0, 0, 0, 0]);
    let mut expected = 0;
    while u.stable() && expected < 12 {
        u.tick();
        expected += 1;
        assert_eq!(total(&u), expected);
    }
    assert!(expected >= 4);
}

#[test]
fn tick_lands_on_the_grid() {
    // One row, many columns, and the reverse: the grain is never lost.
    let mut wide = grid(9, 1, &[0; 9]);
    wide.tick();
    assert_eq!(total(&wide), 1);
    let mut tall = grid(1, 9, &[0; 9]);
    tall.tick();
    assert_eq!(total(&tall), 1);
}

#[test]
fn tick_at_drops_one_grain_there() {
    let mut u = grid(3, 2, &[0, 1, 2, 3, 0, 1]);
    u.tick_at(1, 2);
    assert_eq!(u.cells(), vec![0, 1, 2, 3, 0, 2]);
    u.tick_at(0, 0);
    assert_eq!(u.cells(), vec![1, 1, 2, 3, 0, 2]);
}

#[test]
fn tick_at_topples_before_the_grain() {
    let mut u = grid(3, 3, &[0, 0, 0, 0, 4, 0, 0, 0, 0]);
    u.tick_at(1, 1);
    assert_eq!(u.cells(), vec![0, 1, 0, 1, 1, 1, 0, 1, 0]);
    // Three grains on one cell make it hold four: no toppling yet.
    let mut v = grid(3, 3, &[0, 0, 0, 0, 3, 0, 0, 0, 0]);
    v.tick_at(1, 1);
    assert_eq!(v.cells(), vec![0, 0, 0, 0, 4, 0, 0, 0, 0]);
    v.tick_at(0, 0);
    assert_eq!(v.cells(), vec![1, 1, 0, 1, 0, 1, 0, 1, 0]);
}

#[test]
fn tick_at_off_the_grid_drops_nothing() {
    let mut u = grid(3, 2, &[0, 5, 0, 0, 0, 0]);
    u.tick_at(2, 0);
    assert_eq!(u.cells(), vec![1, 1, 1, 0, 1, 0]);
    u.tick_at(0, 3);
    assert_eq!(u.cells(), vec![1, 1, 1, 0, 1, 0]);
}

#[test]
fn tick_at_after_a_pass_that_makes_room() {
    // The full cell topples first, so the grain fits.
    let mut u = grid(2, 1, &[usize::MAX, 0]);
    u.tick_at(0, 0);
    assert_eq!(u.cells(), vec![usize::MAX - 3, 1]);
}

#[test]
fn cells_are_listed_row_by_row() {
    let u = grid(3, 2, &[10, 11, 12, 20, 21, 22]);
    assert_eq!(u.width(), 3);
    assert_eq!(u.height(), 2);
    assert_eq!(u.cells().len(), u.width() * u.height());
    assert_eq!(u.get(0, 0), Some(10));
    assert_eq!(u.get(0, 2), Some(12));
    assert_eq!(u.get(1, 0), Some(20));
    assert_eq!(u.get(1, 2), Some(22));
    assert_eq!(u.get(2, 0), None);
    assert_eq!(u.get(0, 3), None);
    assert_eq!(u.cells(), vec![10, 11, 12, 20, 21, 22]);
}

#[test]
fn cells_is_a_copy() {
    let u = grid(2, 2, &[1, 2, 3, 0]);
    let mut copy = u.cells();
    copy[0] = 99;
    assert_eq!(u.cells(), vec![1, 2, 3, 0]);
}

#[test]
fn fresh_universe_has_the_asked_shape() {
    let u = Universe::new(7, 3).unwrap();
    assert_eq!(u.width(), 7);
    assert_eq!(u.height(), 3);
    assert_eq!(u.cells().len(), 21);
    assert!(u.cells().iter().all(|grains| *grains < 10));
    assert!(u.get(2, 6).is_some());
    assert!(u.get(3, 0).is_none());
}

#[test]
fn fresh_universes_are_not_all_alike() {
    // 400 cells drawn from ten values: not all of them are zero.
    let u = Universe::new(20, 20).unwrap();
    assert!(u.cells().iter().any(|grains| *grains > 0));
}

#[test]
fn zero_dimensions_are_refused() {
    assert_eq!(Universe::new(0, 5).err(), Some(GridError::EmptyDimension));
    assert_eq!(Universe::new(5, 0).err(), Some(GridError::EmptyDimension));
    assert_eq!(Universe::new(0, 0).err(), Some(GridError::EmptyDimension));
    assert_eq!(
        Universe::from_cells(0, 1, vec![]).err(),
        Some(GridError::EmptyDimension)
    );
    assert_eq!(
        Universe::from_cells(1, 0, vec![]).err(),
        Some(GridError::EmptyDimension)
    );
}

#[test]
fn too_many_cells_are_refused() {
    assert_eq!(
        Universe::new(usize::MAX, 2).err(),
        Some(GridError::TooLarge)
    );
    assert_eq!(
        Universe::new(usize::MAX / 2 + 1, 2).err(),
        Some(GridError::TooLarge)
    );
}

#[test]
fn wrong_number_of_cells_is_refused() {
    assert_eq!(
        Universe::from_cells(2, 2, vec![0, 0, 0]).err(),
        Some(GridError::LengthMismatch)
    );
    assert_eq!(
        Universe::from_cells(2, 2, vec![0; 5]).err(),
        Some(GridError::LengthMismatch)
    );
    assert_eq!(
        Universe::from_cells(usize::MAX, 2, vec![0; 4]).err(),
        Some(GridError::LengthMismatch)
    );
    assert!(Universe::from_cells(2, 2, vec![0; 4]).is_ok());
}

#[test]
fn large_piles_topple_without_overflow() {
    let mut u = grid(2, 1, &[usize::MAX, usize::MAX]);
    u.topple();
    assert_eq!(u.cells(), vec![usize::MAX - 3, usize::MAX - 3]);
}

use gameoflife::cell::{CellStyle, GridCell, Rgb, CELL_GLYPH};
use gameoflife::control::{control_for_key, Control};
use gameoflife::grid::GameOfLifeWidget;
use gameoflife::life::{count_live_neighbors, evolve, next_cell};

const A: GridCell = GridCell::Alive;
const D: GridCell = GridCell::Dead;

fn grid_from(width: usize, height: usize, alive: &[(usize, usize)]) -> Vec<GridCell> {
    let mut cells = vec![D; width * height];
    for &(x, y) in alive {
        cells[y * width + x] = A;
    }
    cells
}

#[test]
fn block_is_still_life() {
    let cells = grid_from(4, 4, &[(1, 1), (2, 1), (1, 2), (2, 2)]);
    let mut game = GameOfLifeWidget::with_cells(cells.clone());
    game.step(4, 4);
    assert_eq!(game.current_cells(), cells);
    assert_eq!(game.take_diff(), Some(0));
}

#[test]
fn blinker_oscillates() {
    let horizontal = grid_from(5, 5, &[(0, 1), (1, 1), (2, 1)]);
    let vertical = grid_from(5, 5, &[(1, 0), (1, 1), (1, 2)]);
    let mut game = GameOfLifeWidget::with_cells(horizontal.clone());
    game.step(5, 5);
    assert_eq!(game.current_cells(), vertical);
    assert_eq!(game.take_diff(), Some(4));
    game.step(5, 5);
    assert_eq!(game.current_cells(), horizontal);
    assert_eq!(game.take_diff(), Some(4));
}

#[test]
fn centred_blinker_oscillates() {
    let horizontal = grid_from(5, 5, &[(1, 2), (2, 2), (3, 2)]);
    let vertical = grid_from(5, 5, &[(2, 1), (2, 2), (2, 3)]);
    let mut game = GameOfLifeWidget::with_cells(horizontal.clone());
    game.step(5, 5);
    assert_eq!(game.current_cells(), vertical);
    game.step(5, 5);
    assert_eq!(game.current_cells(), horizontal);
}

#[test]
fn lone_corner_cell_dies() {
    for &(x, y) in &[(0, 0), (4, 0), (0, 3), (4, 3)] {
        let mut game = GameOfLifeWidget::with_cells(grid_from(5, 4, &[(x, y)]));
        game.step(5, 4);
        assert_eq!(game.current_cells(), vec![D; 20]);
        assert_eq!(game.take_diff(), Some(1));
    }
}

#[test]
fn border_does_not_wrap() {
    // Live cells on the right edge would be neighbours of the left edge on a torus.
    let cells = grid_from(4, 4, &[(3, 0), (3, 1), (3, 2)]);
    assert_eq!(count_live_neighbors(&cells, 4, 4, 0, 1), 0);
    assert_eq!(count_live_neighbors(&cells, 4, 4, 2, 1), 3);
    // Live cells on the bottom row would be neighbours of the top row on a torus.
    let cells = grid_from(4, 4, &[(0, 3), (1, 3), (2, 3)]);
    assert_eq!(count_live_neighbors(&cells, 4, 4, 1, 0), 0);
    let mut game = GameOfLifeWidget::with_cells(cells);
    game.step(4, 4);
    assert_eq!(game.cell_at(1, 0, 4), Some(D));
    assert_eq!(game.cell_at(1, 2, 4), Some(A));
}

#[test]
fn dead_cell_with_three_neighbours_is_born() {
    let mut game = GameOfLifeWidget::with_cells(grid_from(3, 3, &[(0, 0), (2, 0), (0, 2)]));
    game.step(3, 3);
    assert_eq!(game.cell_at(1, 1, 3), Some(A));
}

#[test]
fn dead_cell_with_two_or_four_neighbours_stays_dead() {
    let mut two = GameOfLifeWidget::with_cells(grid_from(3, 3, &[(0, 0), (2, 2)]));
    two.step(3, 3);
    assert_eq!(two.cell_at(1, 1, 3), Some(D));
    let mut four = GameOfLifeWidget::with_cells(grid_from(3, 3, &[(0, 0), (2, 0), (0, 2), (2, 2)]));
    four.step(3, 3);
    assert_eq!(four.cell_at(1, 1, 3), Some(D));
}

#[test]
fn rule_table() {
    for n in 0..=8u8 {
        let alive = if n == 2 || n == 3 { A } else { D };
        let dead = if n == 3 { A } else { D };
        assert_eq!(next_cell(A, n), alive);
        assert_eq!(next_cell(D, n), dead);
    }
}

#[test]
fn diff_counts_changed_cells() {
    // A row of three in a 3x3 grid: the ends die, two cells are born above and below.
    let mut game = GameOfLifeWidget::with_cells(grid_from(3, 3, &[(0, 1), (1, 1), (2, 1)]));
    game.step(3, 3);
    assert_eq!(game.take_diff(), Some(4));
    // A full 3x3 grid: only the four corners survive, five cells die.
    let mut full = GameOfLifeWidget::with_cells(vec![A; 9]);
    full.step(3, 3);
    assert_eq!(full.current_cells(), grid_from(3, 3, &[(0, 0), (2, 0), (0, 2), (2, 2)]));
    assert_eq!(full.take_diff(), Some(5));
}

#[test]
fn evolve_keeps_previous_generation() {
    let start = grid_from(3, 3, &[(0, 1), (1, 1), (2, 1)]);
    let mut current = start.clone();
    let mut previous = vec![A; 9];
    let diff = evolve(&mut current, &mut previous, 3, 3);
    assert_eq!(previous, start);
    assert_eq!(current, grid_from(3, 3, &[(1, 0), (1, 1), (1, 2)]));
    assert_eq!(diff, 4);
}

#[test]
fn ensure_sized_gives_requested_length() {
    let mut game = GameOfLifeWidget::new();
    assert!(game.ensure_sized(7, 3));
    assert_eq!(game.current_cells().len(), 21);
    assert!(game.ensure_sized(4, 5));
    assert_eq!(game.current_cells().len(), 20);
    let g = game.grid.as_ref().unwrap();
    assert_eq!(g.previous, g.current);
}

#[test]
fn ensure_sized_twice_keeps_grid() {
    let mut game = GameOfLifeWidget::new();
    game.ensure_sized(9, 6);
    let first = game.current_cells();
    assert!(!game.ensure_sized(9, 6));
    assert_eq!(game.current_cells(), first);
}

#[test]
fn ensure_sized_keeps_correct_grid() {
    let cells = grid_from(3, 2, &[(1, 1)]);
    let mut game = GameOfLifeWidget::with_cells(cells.clone());
    assert!(!game.ensure_sized(3, 2));
    assert_eq!(game.current_cells(), cells);
    assert!(game.ensure_sized(2, 3) == false);
    assert!(game.ensure_sized(3, 3));
    assert_eq!(game.current_cells().len(), 9);
}

#[test]
fn regeneration_drops_pending_diff() {
    let mut game = GameOfLifeWidget::with_cells(vec![A; 4]);
    game.step(2, 2);
    assert!(game.ensure_sized(3, 3));
    assert_eq!(game.take_diff(), None);
}

#[test]
fn zero_area_grid_is_empty() {
    let mut game = GameOfLifeWidget::new();
    game.ensure_sized(0, 10);
    assert!(game.current_cells().is_empty());
    game.step(0, 10);
    assert_eq!(game.take_diff(), Some(0));
    assert_eq!(game.cell_at(0, 0, 0), None);
}

#[test]
fn calculate_game_generates_then_steps() {
    let mut game = GameOfLifeWidget::new();
    game.calculate_game(6, 4);
    assert_eq!(game.current_cells().len(), 24);
    assert_eq!(game.take_diff(), None);
    game.calculate_game(6, 4);
    assert_eq!(game.current_cells().len(), 24);
    assert!(game.take_diff().is_some());

    let mut still = GameOfLifeWidget::with_cells(grid_from(4, 4, &[(1, 1), (2, 1), (1, 2), (2, 2)]));
    still.calculate_game(4, 4);
    assert_eq!(still.take_diff(), Some(0));
}

#[test]
fn reset_clears_store() {
    let mut game = GameOfLifeWidget::with_cells(vec![A; 4]);
    game.step(2, 2);
    game.reset();
    assert!(game.grid.is_none());
    assert_eq!(game.take_diff(), None);
    assert!(game.ensure_sized(2, 2));
}

#[test]
fn print_diff_formats_and_clears() {
    let mut game = GameOfLifeWidget::with_cells(grid_from(5, 5, &[(0, 1), (1, 1), (2, 1)]));
    assert_eq!(game.print_diff(), None);
    game.step(5, 5);
    assert_eq!(game.print_diff(), Some("4 blocks changed".to_string()));
    assert_eq!(game.print_diff(), None);

    let mut big = GameOfLifeWidget::with_cells(vec![A; 400]);
    big.step(20, 20);
    assert_eq!(big.print_diff(), Some("396 blocks changed".to_string()));
}

#[test]
fn cell_at_reads_row_major() {
    let game = GameOfLifeWidget::with_cells(grid_from(3, 2, &[(2, 1)]));
    assert_eq!(game.cell_at(2, 1, 3), Some(A));
    assert_eq!(game.cell_at(1, 1, 3), Some(D));
    assert_eq!(game.cell_at(3, 0, 3), None);
    assert_eq!(game.cell_at(0, 2, 3), None);
    assert_eq!(GameOfLifeWidget::new().cell_at(0, 0, 3), None);
}

#[test]
fn cells_as_numbers_and_styles() {
    assert_eq!(GridCell::into(&A), 1u8);
    assert_eq!(GridCell::into(&D), 0u8);
    assert_eq!(GridCell::from_bool(true), A);
    assert_eq!(GridCell::from_bool(false), D);
    let white = Rgb { r: 255, g: 255, b: 255 };
    let black = Rgb { r: 0, g: 0, b: 0 };
    assert_eq!(A.style(), CellStyle { glyph: CELL_GLYPH, fg: white, bg: white });
    assert_eq!(D.style(), CellStyle { glyph: CELL_GLYPH, fg: black, bg: black });
    assert_eq!(CELL_GLYPH, '\u{2580}');
}

#[test]
fn keys_map_to_controls() {
    assert_eq!(control_for_key('q'), Some(Control::Quit));
    assert_eq!(control_for_key('r'), Some(Control::Restart));
    assert_eq!(control_for_key('f'), Some(Control::FpsDown));
    assert_eq!(control_for_key('s'), Some(Control::FpsUp));
    assert_eq!(control_for_key('x'), None);
    assert_eq!(control_for_key('Q'), None);
}

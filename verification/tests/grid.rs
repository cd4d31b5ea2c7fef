use game_of_life::{Cell, Universe};

fn cells_from(pattern: &[u8]) -> Vec<Cell> {
    let mut cells = Vec::new();
    for &b in pattern {
        if b == 1 {
            cells.push(Cell::Alive);
        } else {
            cells.push(Cell::Dead);
        }
    }
    cells
}

#[test]
fn construction_length_and_ticks_keep_it() {
    let mut u = Universe::new(4, 5);
    assert_eq!(u.get_cells_ptr().len(), 20);
    u.tick();
    assert_eq!(u.get_cells_ptr().len(), 20);
    u.tick();
    u.tick();
    assert_eq!(u.get_cells_ptr().len(), 20);
}

#[test]
fn seed_pattern_divisible_by_two_or_seven() {
    let u = Universe::new(4, 4);
    let cells = u.get_cells_ptr();
    for i in 0..16usize {
        let expected = if i % 2 == 0 || i % 7 == 0 { Cell::Alive } else { Cell::Dead };
        assert_eq!(cells[i], expected);
    }
}

#[test]
fn from_cells_keeps_the_sequence() {
    let pattern = [0u8, 1, 1, 0, 1, 0];
    let u = Universe::from_cells(3, 2, cells_from(&pattern));
    let cells = u.get_cells_ptr();
    assert_eq!(cells.len(), 6);
    for i in 0..6usize {
        assert_eq!(cells[i] == Cell::Alive, pattern[i] == 1);
    }
}

#[test]
fn zero_dimension_gives_empty_grid() {
    let mut u = Universe::new(0, 3);
    assert_eq!(u.get_cells_ptr().len(), 0);
    u.tick();
    assert_eq!(u.get_cells_ptr().len(), 0);
    assert_eq!(u.render(), "\n\n\n");
}

#[test]
fn wraparound_corner_counts_opposite_corner() {
    // Only (2, 2) is alive; (0, 0) must see it as a diagonal neighbour.
    let u = Universe::from_cells(3, 3, cells_from(&[0, 0, 0, 0, 0, 0, 0, 0, 1]));
    assert_eq!(u.live_neighbours_cnt(0, 0), 1);
}

#[test]
fn neighbour_count_reaches_eight_on_full_grid() {
    let u = Universe::from_cells(3, 3, cells_from(&[1, 1, 1, 1, 1, 1, 1, 1, 1]));
    for row in 0..3u32 {
        for col in 0..3u32 {
            assert_eq!(u.live_neighbours_cnt(row, col), 8);
        }
    }
}

#[test]
fn neighbour_count_on_one_row_grid_counts_collisions() {
    // One row: the row offsets coincide, so the live cell at (0, 0) is
    // reached through three distinct offset pairs from (0, 1).
    let u = Universe::from_cells(3, 1, cells_from(&[1, 0, 0]));
    assert_eq!(u.live_neighbours_cnt(0, 1), 3);
}

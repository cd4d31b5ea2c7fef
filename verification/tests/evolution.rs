use game_of_life::{Cell, Universe};

fn grid(width: u32, height: u32, live: &[(u32, u32)]) -> Universe {
    let mut cells = Vec::new();
    for _ in 0..width * height {
        cells.push(Cell::Dead);
    }
    for &(row, col) in live {
        cells[(row * width + col) as usize] = Cell::Alive;
    }
    Universe::from_cells(width, height, cells)
}

fn alive_at(u: &Universe, width: u32, row: u32, col: u32) -> bool {
    u.get_cells_ptr()[(row * width + col) as usize] == Cell::Alive
}

#[test]
fn glider_advances_one_generation() {
    // A glider in the top-left corner of an 8-by-8 torus.
    let mut u = grid(8, 8, &[(0, 1), (1, 2), (2, 0), (2, 1), (2, 2)]);

    // Hand-computed counts before the step: (1, 2) is alive with exactly
    // three live neighbours, (1, 0) is dead with exactly three, and
    // (0, 1) is alive with exactly one.
    assert_eq!(u.live_neighbours_cnt(1, 2), 3);
    assert_eq!(u.live_neighbours_cnt(1, 0), 3);
    assert_eq!(u.live_neighbours_cnt(0, 1), 1);

    u.tick();

    // (1, 2) stayed alive, (1, 0) was born, (0, 1) died.
    assert!(alive_at(&u, 8, 1, 2));
    assert!(alive_at(&u, 8, 1, 0));
    assert!(!alive_at(&u, 8, 0, 1));

    // The whole next generation, hand-computed.
    let expected = [(1, 0), (1, 2), (2, 1), (2, 2), (3, 1)];
    for row in 0..8u32 {
        for col in 0..8u32 {
            assert_eq!(alive_at(&u, 8, row, col), expected.contains(&(row, col)));
        }
    }
}

#[test]
fn dead_grid_stays_dead() {
    let mut u = grid(5, 5, &[]);
    for _ in 0..4 {
        u.tick();
        for i in 0..25usize {
            assert_eq!(u.get_cells_ptr()[i], Cell::Dead);
        }
    }
}

#[test]
fn lone_cell_dies_of_underpopulation() {
    let mut u = grid(4, 4, &[(1, 1)]);
    assert_eq!(u.live_neighbours_cnt(1, 1), 0);
    u.tick();
    for i in 0..16usize {
        assert_eq!(u.get_cells_ptr()[i], Cell::Dead);
    }
}

#[test]
fn block_is_a_still_life() {
    let mut u = grid(4, 4, &[(1, 1), (1, 2), (2, 1), (2, 2)]);
    u.tick();
    for row in 0..4u32 {
        for col in 0..4u32 {
            let expected = (1..=2).contains(&row) && (1..=2).contains(&col);
            assert_eq!(alive_at(&u, 4, row, col), expected);
        }
    }
}

#[test]
fn one_row_grid_collisions_feed_births() {
    // On a single row the wrapped row offsets coincide, so the lone live
    // cell is counted three times by each horizontal neighbour (which is
    // therefore born) and once by itself (so it dies).
    let mut u = grid(3, 1, &[(0, 0)]);
    assert_eq!(u.live_neighbours_cnt(0, 0), 1);
    assert_eq!(u.live_neighbours_cnt(0, 1), 3);
    assert_eq!(u.live_neighbours_cnt(0, 2), 3);
    u.tick();
    assert!(!alive_at(&u, 3, 0, 0));
    assert!(alive_at(&u, 3, 0, 1));
    assert!(alive_at(&u, 3, 0, 2));
}

#[test]
fn render_draws_glyph_lines() {
    let u = grid(2, 2, &[(0, 0), (1, 1)]);
    assert_eq!(u.render(), "◼◻\n◻◼\n");
}

#[test]
fn render_shape_matches_dimensions() {
    let u = Universe::new(7, 3);
    let s = u.render();
    let lines: Vec<&str> = s.split_terminator('\n').collect();
    assert_eq!(lines.len(), 3);
    for line in lines {
        assert_eq!(line.chars().count(), 7);
        for c in line.chars() {
            assert!(c == '◼' || c == '◻');
        }
    }
    assert!(s.ends_with('\n'));
}

#[test]
fn render_is_idempotent_without_tick() {
    let mut u = Universe::new(6, 4);
    let first = u.render();
    let second = u.render();
    assert_eq!(first, second);
    u.tick();
    let third = u.render();
    assert_eq!(third, u.render());
}

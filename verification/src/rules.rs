//! The mathematical model of the automaton: cell states, the toroidal
//! neighbourhood, the generational update rule, the seeding pattern and
//! the textual rendering, all as specification functions.

use vstd::prelude::*;
use vstd::arithmetic::div_mod::{lemma_fundamental_div_mod, lemma_fundamental_div_mod_converse};

verus! {

/// One cell of the grid: either dead or alive.
#[derive(Copy, Clone, PartialEq, Eq, Structural, Debug)]
pub enum Cell {
    Dead,
    Alive,
}

/// Numeric weight of a cell: an `Alive` cell counts 1, a `Dead` cell 0.
pub open spec fn cell_weight(c: Cell) -> nat {
    if c is Alive {
        1
    } else {
        0
    }
}

/// Row-major flat index of the cell at (row, col) on a grid `width` wide.
pub open spec fn flat_index(width: int, row: int, col: int) -> int {
    row * width + col
}

/// A flat index built from in-range coordinates lies inside the grid.
pub proof fn lemma_flat_index_in_range(width: int, height: int, row: int, col: int)
    requires
        0 <= row < height,
        0 <= col < width,
    ensures
        0 <= flat_index(width, row, col) < width * height,
{
    assert(0 <= row * width + col < width * height) by (nonlinear_arith)
        requires
            0 <= row < height,
            0 <= col < width,
    ;
}

/// A flat index decomposes back into its row and column.
pub proof fn lemma_flat_coords(width: int, height: int, i: int)
    requires
        1 <= width,
        0 <= i < width * height,
    ensures
        0 <= i / width < height,
        0 <= i % width < width,
        flat_index(width, i / width, i % width) == i,
{
    lemma_fundamental_div_mod(i, width);
    assert(width * (i / width) == (i / width) * width) by (nonlinear_arith);
    assert(0 <= i % width < width) by (nonlinear_arith)
        requires
            1 <= width,
            0 <= i,
    ;
    assert(0 <= i / width < height) by {
        if i / width < 0 {
            assert(width * (i / width) <= i / width) by (nonlinear_arith)
                requires
                    1 <= width,
                    i / width < 0,
            ;
        }
        if i / width >= height {
            assert(width * (i / width) >= width * height) by (nonlinear_arith)
                requires
                    1 <= width,
                    i / width >= height,
            ;
        }
    }
}

/// Distinct in-range coordinate pairs have distinct flat indices.
pub proof fn lemma_flat_index_injective(width: int, r1: int, c1: int, r2: int, c2: int)
    requires
        0 <= r1,
        0 <= r2,
        0 <= c1 < width,
        0 <= c2 < width,
        flat_index(width, r1, c1) == flat_index(width, r2, c2),
    ensures
        r1 == r2,
        c1 == c2,
{
    lemma_fundamental_div_mod_converse(flat_index(width, r1, c1), width, r1, c1);
    lemma_fundamental_div_mod_converse(flat_index(width, r2, c2), width, r2, c2);
}

/// Contribution of the neighbour reached from (row, col) through the
/// offset (dr, dc), both coordinates wrapped around the torus. The offset
/// whose components are both zero is the cell itself and contributes
/// nothing.
pub open spec fn neighbour_weight(
    cells: Seq<Cell>,
    width: int,
    height: int,
    row: int,
    col: int,
    dr: int,
    dc: int,
) -> nat {
    if dr == 0 && dc == 0 {
        0
    } else {
        cell_weight(cells[flat_index(width, (row + dr) % height, (col + dc) % width)])
    }
}

/// Live neighbours of (row, col): the row offsets are height - 1, 0 and 1
/// taken modulo the height, the column offsets width - 1, 0 and 1 taken
/// modulo the width, and the offset pair whose components are both zero
/// is skipped. On a grid one cell wide or one cell tall some offsets
/// coincide, so one physical cell can be counted through more than one
/// offset; that is the behaviour of the modular-offset scheme.
pub open spec fn live_neighbours(
    cells: Seq<Cell>,
    width: int,
    height: int,
    row: int,
    col: int,
) -> nat {
    neighbour_weight(cells, width, height, row, col, height - 1, width - 1)
        + neighbour_weight(cells, width, height, row, col, height - 1, 0)
        + neighbour_weight(cells, width, height, row, col, height - 1, 1)
        + neighbour_weight(cells, width, height, row, col, 0, width - 1)
        + neighbour_weight(cells, width, height, row, col, 0, 1)
        + neighbour_weight(cells, width, height, row, col, 1, width - 1)
        + neighbour_weight(cells, width, height, row, col, 1, 0)
        + neighbour_weight(cells, width, height, row, col, 1, 1)
}

/// The update rule. A live cell dies of underpopulation below two live
/// neighbours and of overpopulation above three, and survives on two or
/// three; a dead cell is born on exactly three; every other cell keeps
/// its state.
pub open spec fn next_cell(c: Cell, n: nat) -> Cell {
    match c {
        Cell::Alive => if n < 2 || n > 3 {
            Cell::Dead
        } else {
            Cell::Alive
        },
        Cell::Dead => if n == 3 {
            Cell::Alive
        } else {
            Cell::Dead
        },
    }
}

/// One generation of the whole grid: every cell is rewritten from its own
/// state and its live-neighbour count, both read from the current
/// generation.
pub open spec fn next_gen(cells: Seq<Cell>, width: int, height: int) -> Seq<Cell> {
    Seq::new(
        cells.len(),
        |i: int| next_cell(cells[i], live_neighbours(cells, width, height, i / width, i % width)),
    )
}

/// The grid after `n` generations.
pub open spec fn next_gen_n(cells: Seq<Cell>, width: int, height: int, n: nat) -> Seq<Cell>
    decreases n,
{
    if n == 0 {
        cells
    } else {
        next_gen(next_gen_n(cells, width, height, (n - 1) as nat), width, height)
    }
}

/// The seeding pattern: the cell at flat index `i` starts alive exactly
/// when `i` is divisible by 2 or by 7.
pub open spec fn seed_cell(i: int) -> Cell {
    if i % 2 == 0 || i % 7 == 0 {
        Cell::Alive
    } else {
        Cell::Dead
    }
}

/// Glyph for one cell: a filled square for a live cell, a hollow square
/// for a dead one.
pub open spec fn glyph(c: Cell) -> char {
    if c is Alive {
        '◼'
    } else {
        '◻'
    }
}

/// Character at position `i` of the rendering. Each row contributes
/// `width` glyphs followed by one newline, so position `i` lies on line
/// `i / (width + 1)` at column `i % (width + 1)`.
pub open spec fn render_char(cells: Seq<Cell>, width: int, i: int) -> char {
    if i % (width + 1) == width {
        '\n'
    } else {
        glyph(cells[flat_index(width, i / (width + 1), i % (width + 1))])
    }
}

/// The full rendering: `height` lines of `width` glyphs, each line closed
/// by a newline and nothing after the last one.
pub open spec fn rendered(cells: Seq<Cell>, width: int, height: int) -> Seq<char> {
    Seq::new((height * (width + 1)) as nat, |i: int| render_char(cells, width, i))
}

} // verus!

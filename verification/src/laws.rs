//! General properties of the automaton, stated and proved over the model
//! in `rules`.

use vstd::prelude::*;
use vstd::arithmetic::div_mod::{lemma_fundamental_div_mod_converse, lemma_mod_pos_bound};

use crate::rules::{
    flat_index, glyph, lemma_flat_coords, lemma_flat_index_in_range, lemma_flat_index_injective,
    live_neighbours, neighbour_weight, next_cell, next_gen, next_gen_n, rendered, Cell,
};

verus! {

/// Every cell of the sequence is dead.
pub open spec fn all_dead(cells: Seq<Cell>) -> bool {
    forall|i: int| 0 <= i < cells.len() ==> cells[i] is Dead
}

/// A live-neighbour count never exceeds eight: each of the eight offsets
/// contributes at most one, whatever the grid's dimensions.
pub proof fn lemma_neighbour_count_bounded(
    cells: Seq<Cell>,
    width: int,
    height: int,
    row: int,
    col: int,
)
    ensures
        live_neighbours(cells, width, height, row, col) <= 8,
{
}

/// The rendering of a grid has exactly `height` lines of exactly `width`
/// glyphs: its length is `height * (width + 1)`, the character closing
/// each line is the newline and no other is, and the character at column
/// `c` of line `r` is the glyph of the cell at (r, c).
pub proof fn lemma_render_shape(cells: Seq<Cell>, width: int, height: int)
    requires
        0 <= width,
        0 <= height,
    ensures
        rendered(cells, width, height).len() == height * (width + 1),
        forall|i: int|
            0 <= i < height * (width + 1) ==> (#[trigger] rendered(cells, width, height)[i]
                == '\n' <==> i % (width + 1) == width),
        forall|i: int|
            0 <= i < height * (width + 1) && i % (width + 1) != width
                ==> #[trigger] rendered(cells, width, height)[i] == glyph(
                cells[flat_index(width, i / (width + 1), i % (width + 1))],
            ),
{
}

/// Rendering reads the grid state and nothing else: two renderings of the
/// same state are the same text.
pub proof fn lemma_render_deterministic(
    a: Seq<char>,
    b: Seq<char>,
    cells: Seq<Cell>,
    width: int,
    height: int,
)
    requires
        a == rendered(cells, width, height),
        b == rendered(cells, width, height),
    ensures
        a == b,
{
}

/// On a grid with no live cells, the neighbour reached through any
/// non-negative offset pair is dead, so it weighs nothing.
proof fn lemma_neighbour_weight_dead(
    cells: Seq<Cell>,
    width: int,
    height: int,
    row: int,
    col: int,
    dr: int,
    dc: int,
)
    requires
        1 <= width,
        1 <= height,
        cells.len() == width * height,
        all_dead(cells),
        0 <= row,
        0 <= col,
        0 <= dr,
        0 <= dc,
    ensures
        neighbour_weight(cells, width, height, row, col, dr, dc) == 0,
{
    if !(dr == 0 && dc == 0) {
        lemma_mod_pos_bound(row + dr, height);
        lemma_mod_pos_bound(col + dc, width);
        lemma_flat_index_in_range(width, height, (row + dr) % height, (col + dc) % width);
    }
}

/// On a grid with no live cells every neighbour count is zero.
proof fn lemma_live_neighbours_dead(
    cells: Seq<Cell>,
    width: int,
    height: int,
    row: int,
    col: int,
)
    requires
        1 <= width,
        1 <= height,
        cells.len() == width * height,
        all_dead(cells),
        0 <= row,
        0 <= col,
    ensures
        live_neighbours(cells, width, height, row, col) == 0,
{
    lemma_neighbour_weight_dead(cells, width, height, row, col, height - 1, width - 1);
    lemma_neighbour_weight_dead(cells, width, height, row, col, height - 1, 0);
    lemma_neighbour_weight_dead(cells, width, height, row, col, height - 1, 1);
    lemma_neighbour_weight_dead(cells, width, height, row, col, 0, width - 1);
    lemma_neighbour_weight_dead(cells, width, height, row, col, 0, 1);
    lemma_neighbour_weight_dead(cells, width, height, row, col, 1, width - 1);
    lemma_neighbour_weight_dead(cells, width, height, row, col, 1, 0);
    lemma_neighbour_weight_dead(cells, width, height, row, col, 1, 1);
}

/// A grid with no live cells has none in the next generation either: no
/// dead cell has the three live neighbours a birth takes.
pub proof fn lemma_dead_grid_stable(cells: Seq<Cell>, width: int, height: int)
    requires
        0 <= width,
        0 <= height,
        cells.len() == width * height,
        all_dead(cells),
    ensures
        next_gen(cells, width, height) == cells,
{
    if cells.len() == 0 {
        assert(next_gen(cells, width, height) =~= cells);
    } else {
        assert(1 <= width && 1 <= height) by (nonlinear_arith)
            requires
                0 <= width,
                0 <= height,
                0 < width * height,
        ;
        assert forall|i: int| 0 <= i < cells.len() implies next_gen(cells, width, height)[i]
            == cells[i] by {
            lemma_flat_coords(width, height, i);
            lemma_live_neighbours_dead(cells, width, height, i / width, i % width);
        }
        assert(next_gen(cells, width, height) =~= cells);
    }
}

/// A grid with no live cells stays that way over any number of
/// generations.
pub proof fn lemma_dead_grid_stable_n(cells: Seq<Cell>, width: int, height: int, n: nat)
    requires
        0 <= width,
        0 <= height,
        cells.len() == width * height,
        all_dead(cells),
    ensures
        next_gen_n(cells, width, height, n) == cells,
    decreases n,
{
    if n > 0 {
        lemma_dead_grid_stable_n(cells, width, height, (n - 1) as nat);
        lemma_dead_grid_stable(cells, width, height);
    }
}

/// A wrapped offset of 1 or of m - 1 from an in-range coordinate lands on
/// a different in-range coordinate, as long as the axis has at least two
/// cells.
proof fn lemma_offset_moves(m: int, r: int, d: int)
    requires
        2 <= m,
        0 <= r < m,
        d == 1 || d == m - 1,
    ensures
        0 <= (r + d) % m < m,
        (r + d) % m != r,
{
    if d == 1 {
        if r + 1 < m {
            lemma_fundamental_div_mod_converse(r + 1, m, 0, r + 1);
        } else {
            lemma_fundamental_div_mod_converse(r + 1, m, 1, 0);
        }
    } else {
        if r == 0 {
            lemma_fundamental_div_mod_converse(r + d, m, 0, m - 1);
        } else {
            lemma_fundamental_div_mod_converse(r + d, m, 1, r - 1);
        }
    }
}

/// When every cell but the one at (row, col) is dead, any one of the
/// eight neighbour offsets lands on a dead cell: on a grid at least two
/// cells wide and two tall, a non-zero offset never wraps back onto the
/// cell itself.
proof fn lemma_lone_neighbour_weight(
    cells: Seq<Cell>,
    width: int,
    height: int,
    row: int,
    col: int,
    a: int,
    dr: int,
    dc: int,
)
    requires
        2 <= width,
        2 <= height,
        cells.len() == width * height,
        0 <= row < height,
        0 <= col < width,
        a == flat_index(width, row, col),
        forall|j: int| 0 <= j < cells.len() && j != a ==> cells[j] is Dead,
        dr == 0 || dr == 1 || dr == height - 1,
        dc == 0 || dc == 1 || dc == width - 1,
        !(dr == 0 && dc == 0),
    ensures
        neighbour_weight(cells, width, height, row, col, dr, dc) == 0,
{
    let x = (row + dr) % height;
    let y = (col + dc) % width;
    if dr == 0 {
        lemma_fundamental_div_mod_converse(row, height, 0, row);
    } else {
        lemma_offset_moves(height, row, dr);
    }
    if dc == 0 {
        lemma_fundamental_div_mod_converse(col, width, 0, col);
    } else {
        lemma_offset_moves(width, col, dc);
    }
    lemma_flat_index_in_range(width, height, x, y);
    if flat_index(width, x, y) == a {
        lemma_flat_index_injective(width, x, y, row, col);
    }
}

/// On a one-line grid a lone live cell counts itself exactly once: the
/// column offsets move, the row offsets all wrap back, and only the
/// offset pair (1, 0) lands on the cell itself without being skipped.
proof fn lemma_lone_count_one_row(cells: Seq<Cell>, width: int, a: int)
    requires
        2 <= width,
        cells.len() == width,
        0 <= a < cells.len(),
        cells[a] is Alive,
        forall|j: int| 0 <= j < cells.len() && j != a ==> cells[j] is Dead,
    ensures
        live_neighbours(cells, width, 1, 0, a) == 1,
{
    lemma_fundamental_div_mod_converse(0, 1, 0, 0);
    lemma_fundamental_div_mod_converse(1, 1, 1, 0);
    lemma_fundamental_div_mod_converse(a, width, 0, a);
    lemma_offset_moves(width, a, 1);
    lemma_offset_moves(width, a, width - 1);
    assert(neighbour_weight(cells, width, 1, 0, a, 1, 0) == 1);
    assert(neighbour_weight(cells, width, 1, 0, a, 0, width - 1) == 0);
    assert(neighbour_weight(cells, width, 1, 0, a, 0, 1) == 0);
    assert(neighbour_weight(cells, width, 1, 0, a, 1, width - 1) == 0);
    assert(neighbour_weight(cells, width, 1, 0, a, 1, 1) == 0);
}

/// On a one-column grid a lone live cell counts itself exactly once,
/// through the offset pair (0, 1).
proof fn lemma_lone_count_one_col(cells: Seq<Cell>, height: int, a: int)
    requires
        2 <= height,
        cells.len() == height,
        0 <= a < cells.len(),
        cells[a] is Alive,
        forall|j: int| 0 <= j < cells.len() && j != a ==> cells[j] is Dead,
    ensures
        live_neighbours(cells, 1, height, a, 0) == 1,
{
    lemma_fundamental_div_mod_converse(0, 1, 0, 0);
    lemma_fundamental_div_mod_converse(1, 1, 1, 0);
    lemma_fundamental_div_mod_converse(a, height, 0, a);
    lemma_offset_moves(height, a, 1);
    lemma_offset_moves(height, a, height - 1);
    assert(neighbour_weight(cells, 1, height, a, 0, 0, 1) == 1);
    assert(neighbour_weight(cells, 1, height, a, 0, height - 1, 0) == 0);
    assert(neighbour_weight(cells, 1, height, a, 0, height - 1, 1) == 0);
    assert(neighbour_weight(cells, 1, height, a, 0, 1, 0) == 0);
    assert(neighbour_weight(cells, 1, height, a, 0, 1, 1) == 0);
}

/// A lone live cell dies in one generation, whatever the grid's
/// dimensions. On a grid at least two cells wide and two tall all eight
/// offsets land on other, dead cells, so the count is zero. On a
/// degenerate grid some offsets wrap back onto the cell itself: it then
/// counts itself once on a single line or column, and five times on a
/// single cell; every one of those counts falls outside the survival
/// band of two to three.
pub proof fn lemma_lone_cell_dies(cells: Seq<Cell>, width: int, height: int, a: int)
    requires
        0 <= width,
        0 <= height,
        cells.len() == width * height,
        0 <= a < cells.len(),
        cells[a] is Alive,
        forall|j: int| 0 <= j < cells.len() && j != a ==> cells[j] is Dead,
    ensures
        next_gen(cells, width, height)[a] is Dead,
{
    assert(1 <= width && 1 <= height) by (nonlinear_arith)
        requires
            0 <= width,
            0 <= height,
            0 < width * height,
    ;
    lemma_flat_coords(width, height, a);
    let row = a / width;
    let col = a % width;
    if width >= 2 && height >= 2 {
        lemma_lone_neighbour_weight(cells, width, height, row, col, a, height - 1, width - 1);
        lemma_lone_neighbour_weight(cells, width, height, row, col, a, height - 1, 0);
        lemma_lone_neighbour_weight(cells, width, height, row, col, a, height - 1, 1);
        lemma_lone_neighbour_weight(cells, width, height, row, col, a, 0, width - 1);
        lemma_lone_neighbour_weight(cells, width, height, row, col, a, 0, 1);
        lemma_lone_neighbour_weight(cells, width, height, row, col, a, 1, width - 1);
        lemma_lone_neighbour_weight(cells, width, height, row, col, a, 1, 0);
        lemma_lone_neighbour_weight(cells, width, height, row, col, a, 1, 1);
        assert(live_neighbours(cells, width, height, row, col) == 0);
    } else if height == 1 && width >= 2 {
        assert(row == 0);
        assert(row * width == 0) by (nonlinear_arith)
            requires
                row == 0,
        ;
        assert(col == a);
        lemma_lone_count_one_row(cells, width, a);
        assert(live_neighbours(cells, width, height, row, col) == 1);
    } else if width == 1 && height >= 2 {
        assert(col == 0);
        assert(row * width == row) by (nonlinear_arith)
            requires
                width == 1,
        ;
        assert(row == a);
        lemma_lone_count_one_col(cells, height, a);
        assert(live_neighbours(cells, width, height, row, col) == 1);
    } else {
        // A single cell: the five unskipped offsets all wrap back onto it.
        assert(row == 0 && col == 0);
        lemma_fundamental_div_mod_converse(0, 1, 0, 0);
        lemma_fundamental_div_mod_converse(1, 1, 1, 0);
        lemma_fundamental_div_mod_converse(2, 1, 2, 0);
        assert(live_neighbours(cells, 1, 1, 0, 0) == 5);
        assert(live_neighbours(cells, width, height, row, col) == 5);
    }
    assert(next_gen(cells, width, height)[a] == next_cell(
        cells[a],
        live_neighbours(cells, width, height, row, col),
    ));
}

/// The corner of a 3-by-3 grid wraps to the opposite corner: with only
/// the cell at (2, 2) alive, the cell at (0, 0) counts exactly one live
/// neighbour, reached through the (height - 1, width - 1) offset.
pub proof fn lemma_wraparound_corner(cells: Seq<Cell>)
    requires
        cells.len() == 9,
        cells[8] is Alive,
        forall|j: int| 0 <= j < 9 && j != 8 ==> cells[j] is Dead,
    ensures
        live_neighbours(cells, 3, 3, 0, 0) == 1,
{
    assert(neighbour_weight(cells, 3, 3, 0, 0, 2, 2) == 1);
    assert(neighbour_weight(cells, 3, 3, 0, 0, 2, 0) == 0);
    assert(neighbour_weight(cells, 3, 3, 0, 0, 2, 1) == 0);
    assert(neighbour_weight(cells, 3, 3, 0, 0, 0, 2) == 0);
    assert(neighbour_weight(cells, 3, 3, 0, 0, 0, 1) == 0);
    assert(neighbour_weight(cells, 3, 3, 0, 0, 1, 2) == 0);
    assert(neighbour_weight(cells, 3, 3, 0, 0, 1, 0) == 0);
    assert(neighbour_weight(cells, 3, 3, 0, 0, 1, 1) == 0);
}

} // verus!

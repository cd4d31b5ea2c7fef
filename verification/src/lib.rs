//! A toroidal Game of Life grid: a fixed-size flat sequence of cells with
//! wraparound neighbour counting, a generational step, and a textual
//! rendering, each verified against the model in `rules`.

use vstd::prelude::*;

pub mod laws;
pub mod rules;

pub use rules::Cell;

use rules::{
    flat_index, lemma_flat_index_in_range, live_neighbours, neighbour_weight, next_cell, next_gen,
    rendered, seed_cell,
};
use vstd::arithmetic::div_mod::lemma_fundamental_div_mod_converse;
use vstd::string::StringExecFns;

verus! {

/// The grid state: `width * height` cells stored row-major. Both
/// dimensions are fixed at construction.
pub struct Universe {
    width: u32,
    height: u32,
    cells: Vec<Cell>,
}

impl Universe {
    /// The grid's width.
    pub closed spec fn spec_width(&self) -> u32 {
        self.width
    }

    /// The grid's height.
    pub closed spec fn spec_height(&self) -> u32 {
        self.height
    }

    /// The cell sequence, row-major.
    pub closed spec fn spec_cells(&self) -> Seq<Cell> {
        self.cells@
    }

    /// The grid always holds exactly `width * height` cells.
    pub open spec fn well_formed(&self) -> bool {
        self.spec_cells().len() == self.spec_width() * self.spec_height()
    }

    /// Builds a grid seeded with the deterministic pattern: the cell at
    /// flat index `i` starts alive exactly when `i` is divisible by 2 or
    /// by 7. A zero dimension is accepted and yields a grid with no
    /// cells.
    pub fn new(width: u32, height: u32) -> (u: Universe)
        requires
            width * height <= usize::MAX,
        ensures
            u.well_formed(),
            u.spec_width() == width,
            u.spec_height() == height,
            forall|i: int| 0 <= i < width * height ==> #[trigger] u.spec_cells()[i] == seed_cell(i),
    {
        let count: usize = (width as usize) * (height as usize);
        let mut cells: Vec<Cell> = Vec::new();
        let mut i: usize = 0;
        while i < count
            invariant
                i <= count,
                count == width * height,
                cells@.len() == i,
                forall|j: int| 0 <= j < i ==> cells@[j] == seed_cell(j),
            decreases count - i,
        {
            if i % 2 == 0 || i % 7 == 0 {
                cells.push(Cell::Alive);
            } else {
                cells.push(Cell::Dead);
            }
            i = i + 1;
        }
        Universe { width, height, cells }
    }

    /// Builds a grid from an explicit row-major cell sequence.
    pub fn from_cells(width: u32, height: u32, cells: Vec<Cell>) -> (u: Universe)
        requires
            cells@.len() == width * height,
        ensures
            u.well_formed(),
            u.spec_width() == width,
            u.spec_height() == height,
            u.spec_cells() == cells@,
    {
        Universe { width, height, cells }
    }

    /// Flat index of the cell at (row, col).
    fn index(&self, row: u32, col: u32) -> (i: usize)
        requires
            self.well_formed(),
            row < self.spec_height(),
            col < self.spec_width(),
        ensures
            i == flat_index(self.spec_width() as int, row as int, col as int),
            i < self.spec_cells().len(),
    {
        proof {
            lemma_flat_index_in_range(
                self.spec_width() as int,
                self.spec_height() as int,
                row as int,
                col as int,
            );
        }
        // Reading the length (a usize equal to width * height) shows the
        // flat index below fits in usize.
        let _bound = self.cells.len();
        (row as usize) * (self.width as usize) + (col as usize)
    }

    /// Weight of the neighbour reached through the offset (dr, dc), with
    /// wraparound on both axes; the offset pair (0, 0) weighs nothing.
    fn neighbour_term(&self, row: u32, col: u32, dr: u32, dc: u32) -> (t: u8)
        requires
            self.well_formed(),
            row < self.spec_height(),
            col < self.spec_width(),
        ensures
            t as nat == neighbour_weight(
                self.spec_cells(),
                self.spec_width() as int,
                self.spec_height() as int,
                row as int,
                col as int,
                dr as int,
                dc as int,
            ),
            t <= 1,
    {
        if dr == 0 && dc == 0 {
            return 0;
        }
        let x = (((row as u64) + (dr as u64)) % (self.height as u64)) as u32;
        let y = (((col as u64) + (dc as u64)) % (self.width as u64)) as u32;
        let i = self.index(x, y);
        if self.cells[i] == Cell::Alive {
            1
        } else {
            0
        }
    }

    /// Number of live cells among the eight neighbours of (row, col),
    /// looked up with wraparound on both axes.
    pub fn live_neighbours_cnt(&self, row: u32, col: u32) -> (n: u8)
        requires
            self.well_formed(),
            row < self.spec_height(),
            col < self.spec_width(),
        ensures
            n as nat == live_neighbours(
                self.spec_cells(),
                self.spec_width() as int,
                self.spec_height() as int,
                row as int,
                col as int,
            ),
            n <= 8,
    {
        let dr = self.height - 1;
        let dc = self.width - 1;
        let mut n: u8 = 0;
        n = n + self.neighbour_term(row, col, dr, dc);
        n = n + self.neighbour_term(row, col, dr, 0);
        n = n + self.neighbour_term(row, col, dr, 1);
        n = n + self.neighbour_term(row, col, 0, dc);
        n = n + self.neighbour_term(row, col, 0, 1);
        n = n + self.neighbour_term(row, col, 1, dc);
        n = n + self.neighbour_term(row, col, 1, 0);
        n = n + self.neighbour_term(row, col, 1, 1);
        n
    }

    /// The state of one cell in the next generation, from its current
    /// state and its live-neighbour count.
    fn step_cell(c: Cell, n: u8) -> (r: Cell)
        ensures
            r == next_cell(c, n as nat),
    {
        match c {
            Cell::Alive => if n < 2 || n > 3 {
                Cell::Dead
            } else {
                Cell::Alive
            },
            Cell::Dead => if n == 3 {
                Cell::Alive
            } else {
                Cell::Dead
            },
        }
    }

    /// Advances the grid by exactly one generation. Every cell of the new
    /// generation is computed from the old one; the new buffer replaces
    /// the cell sequence only once it is complete.
    pub fn tick(&mut self)
        requires
            old(self).well_formed(),
        ensures
            final(self).well_formed(),
            final(self).spec_width() == old(self).spec_width(),
            final(self).spec_height() == old(self).spec_height(),
            final(self).spec_cells() == next_gen(
                old(self).spec_cells(),
                old(self).spec_width() as int,
                old(self).spec_height() as int,
            ),
    {
        let w = self.width;
        let h = self.height;
        let ghost target = next_gen(self.spec_cells(), w as int, h as int);
        let mut next: Vec<Cell> = Vec::new();
        let mut row: u32 = 0;
        while row < h
            invariant
                self == old(self),
                self.well_formed(),
                w == self.spec_width(),
                h == self.spec_height(),
                target == next_gen(self.spec_cells(), w as int, h as int),
                row <= h,
                next@.len() == (row as int) * (w as int),
                forall|k: int| 0 <= k < next@.len() ==> next@[k] == target[k],
            decreases h - row,
        {
            let mut col: u32 = 0;
            while col < w
                invariant
                    self == old(self),
                    self.well_formed(),
                    w == self.spec_width(),
                    h == self.spec_height(),
                    target == next_gen(self.spec_cells(), w as int, h as int),
                    row < h,
                    col <= w,
                    next@.len() == (row as int) * (w as int) + (col as int),
                    forall|k: int| 0 <= k < next@.len() ==> next@[k] == target[k],
                decreases w - col,
            {
                let i = self.index(row, col);
                let c = self.cells[i];
                let n = self.live_neighbours_cnt(row, col);
                next.push(Self::step_cell(c, n));
                proof {
                    lemma_fundamental_div_mod_converse(i as int, w as int, row as int, col as int);
                }
                col = col + 1;
            }
            proof {
                assert((row as int + 1) * (w as int) == (row as int) * (w as int) + (w as int))
                    by (nonlinear_arith);
            }
            row = row + 1;
        }
        proof {
            assert((h as int) * (w as int) == (w as int) * (h as int)) by (nonlinear_arith);
            assert(next@ =~= target);
        }
        self.cells = next;
    }

    /// Renders the grid as text: one line per row, each cell as one
    /// glyph, a filled square when alive and a hollow one when dead, and
    /// every line closed by a newline. The output is a pure projection of
    /// the current state.
    pub fn render(&self) -> (s: String)
        requires
            self.well_formed(),
        ensures
            s@ == rendered(
                self.spec_cells(),
                self.spec_width() as int,
                self.spec_height() as int,
            ),
    {
        let w = self.width;
        let h = self.height;
        let ghost target = rendered(self.spec_cells(), w as int, h as int);
        let mut s = String::new();
        let mut row: u32 = 0;
        while row < h
            invariant
                self.well_formed(),
                w == self.spec_width(),
                h == self.spec_height(),
                target == rendered(self.spec_cells(), w as int, h as int),
                row <= h,
                s@.len() == (row as int) * (w as int + 1),
                s@ == target.take(s@.len() as int),
            decreases h - row,
        {
            let mut col: u32 = 0;
            while col < w
                invariant
                    self.well_formed(),
                    w == self.spec_width(),
                    h == self.spec_height(),
                    target == rendered(self.spec_cells(), w as int, h as int),
                    row < h,
                    col <= w,
                    s@.len() == (row as int) * (w as int + 1) + (col as int),
                    s@ == target.take(s@.len() as int),
                decreases w - col,
            {
                let i = self.index(row, col);
                let ghost p = s@.len() as int;
                if self.cells[i] == Cell::Alive {
                    s.append("◼");
                    proof {
                        reveal_strlit("◼");
                    }
                } else {
                    s.append("◻");
                    proof {
                        reveal_strlit("◻");
                    }
                }
                proof {
                    lemma_fundamental_div_mod_converse(p, w as int + 1, row as int, col as int);
                    assert(p + 1 <= (h as int) * (w as int + 1)) by (nonlinear_arith)
                        requires
                            p == (row as int) * (w as int + 1) + (col as int),
                            0 <= col as int <= w as int,
                            0 <= row as int,
                            row as int + 1 <= h as int,
                    ;
                    assert(s@ =~= target.take(p + 1));
                }
                col = col + 1;
            }
            let ghost p = s@.len() as int;
            s.append("\n");
            proof {
                reveal_strlit("\n");
                lemma_fundamental_div_mod_converse(p, w as int + 1, row as int, w as int);
                assert(p + 1 <= (h as int) * (w as int + 1)) by (nonlinear_arith)
                    requires
                        p == (row as int) * (w as int + 1) + (w as int),
                        0 <= w as int,
                        0 <= row as int,
                        row as int + 1 <= h as int,
                ;
                assert(s@ =~= target.take(p + 1));
                assert((row as int + 1) * (w as int + 1) == (row as int) * (w as int + 1) + (
                w as int + 1)) by (nonlinear_arith);
            }
            row = row + 1;
        }
        proof {
            assert(s@ =~= target);
        }
        s
    }

    /// Read-only view of the cell buffer, row-major, without copying. The
    /// borrow is released before the next mutation of the grid.
    pub fn get_cells_ptr(&self) -> (cells: &Vec<Cell>)
        ensures
            cells@ == self.spec_cells(),
    {
        &self.cells
    }
}

} // verus!

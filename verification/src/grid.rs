//! The grid: a row-major sequence of cells with fixed positive dimensions,
//! bounds-checked accessors, neighbor counting, and the generation step.

use vstd::prelude::*;
use vstd::pervasive::VecAdditionalExecFns;
use vstd::string::StringExecFns;
use crate::cell::{Cell, apply_rule, glyph};
use crate::model::{
    alive_at, alive_count, lemma_flat_index_bounds, lemma_flat_index_div_mod,
    lemma_row_major_order, neighbor_count, step,
};

verus! {

/// A fixed-size rectangular Game of Life grid. The cells form one contiguous
/// row-major sequence of `width * height` entries; position (row, col) lives
/// at flat index `row * width + col`.
pub struct Grid {
    cells: Vec<Cell>,
    width: usize,
    height: usize,
}

impl View for Grid {
    type V = Seq<Cell>;

    closed spec fn view(&self) -> Seq<Cell> {
        self.cells@
    }
}

impl Grid {
    /// The grid's width, as a mathematical integer.
    pub closed spec fn spec_width(self) -> int {
        self.width as int
    }

    /// The grid's height, as a mathematical integer.
    pub closed spec fn spec_height(self) -> int {
        self.height as int
    }

    /// The grid invariant: positive dimensions, and exactly one cell for
    /// every position. It holds from construction on and every operation
    /// preserves it; a generation step replaces the whole sequence and never
    /// resizes it.
    pub open spec fn wf(self) -> bool {
        &&& self.spec_width() > 0
        &&& self.spec_height() > 0
        &&& self@.len() == self.spec_height() * self.spec_width()
    }

    /// Builds a width-by-height grid with every cell dead. Zero-area grids
    /// have no valid indices, so both dimensions must be positive.
    pub fn new(width: usize, height: usize) -> (grid: Grid)
        requires
            width > 0,
            height > 0,
            height * width <= usize::MAX,
        ensures
            grid.wf(),
            grid.spec_width() == width,
            grid.spec_height() == height,
            forall|i: int| 0 <= i < grid@.len() ==> grid@[i] == Cell::Dead,
    {
        let n: usize = height * width;
        let mut cells: Vec<Cell> = Vec::new();
        let mut i: usize = 0;
        while i < n
            invariant
                i <= n,
                cells@.len() == i,
                forall|j: int| 0 <= j < i ==> cells@[j] == Cell::Dead,
            decreases n - i,
        {
            cells.push(Cell::Dead);
            i += 1;
        }
        Grid { cells, width, height }
    }

    /// The flat row-major index of (row, col), or no index when the
    /// coordinate lies outside the grid. An out-of-range probe is a routine
    /// outcome of boundary scans, not an error.
    pub fn get_index(&self, row: usize, col: usize) -> (index: Option<usize>)
        requires
            self.wf(),
        ensures
            (match index {
                Some(i) => row < self.spec_height() && col < self.spec_width() && i as int == row
                    * self.spec_width() + col,
                None => row >= self.spec_height() || col >= self.spec_width(),
            }),
    {
        if row >= self.height || col >= self.width {
            None
        } else {
            let n: usize = self.cells.len();
            proof {
                lemma_flat_index_bounds(
                    self.spec_width(),
                    self.spec_height(),
                    row as int,
                    col as int,
                );
                assert(row * self.spec_width() + col < n);
            }
            Some(row * self.width + col)
        }
    }

    /// Whether the in-range cell at (row, col) is alive.
    fn cell_is_alive(&self, row: usize, col: usize) -> (alive: bool)
        requires
            self.wf(),
            row < self.spec_height(),
            col < self.spec_width(),
        ensures
            alive == alive_at(self@, self.spec_width(), self.spec_height(), row as int, col as int),
    {
        let n: usize = self.cells.len();
        proof {
            lemma_flat_index_bounds(self.spec_width(), self.spec_height(), row as int, col as int);
            assert(row * self.spec_width() + col < n);
        }
        self.cells[row * self.width + col] == Cell::Alive
    }

    /// The cell at (row, col), or no cell when the coordinate lies outside
    /// the grid.
    pub fn get_cell(&self, row: usize, col: usize) -> (cell: Option<Cell>)
        requires
            self.wf(),
        ensures
            (match cell {
                Some(c) => row < self.spec_height() && col < self.spec_width() && c == self@[row
                    as int * self.spec_width() + col as int],
                None => row >= self.spec_height() || col >= self.spec_width(),
            }),
    {
        match self.get_index(row, col) {
            None => None,
            Some(index) => {
                proof {
                    lemma_flat_index_bounds(
                        self.spec_width(),
                        self.spec_height(),
                        row as int,
                        col as int,
                    );
                }
                Some(self.cells[index])
            },
        }
    }

    /// Writes the cell at (row, col) and reports success; an out-of-range
    /// coordinate is a no-op that leaves every cell unchanged.
    pub fn set_cell(&mut self, row: usize, col: usize, cell: Cell) -> (result: Option<()>)
        requires
            old(self).wf(),
        ensures
            final(self).wf(),
            final(self).spec_width() == old(self).spec_width(),
            final(self).spec_height() == old(self).spec_height(),
            (match result {
                Some(_) => row < old(self).spec_height() && col < old(self).spec_width()
                    && final(self)@ == old(self)@.update(
                    row as int * old(self).spec_width() + col as int,
                    cell,
                ),
                None => (row >= old(self).spec_height() || col >= old(self).spec_width())
                    && final(self)@ == old(self)@,
            }),
    {
        match self.get_index(row, col) {
            None => None,
            Some(index) => {
                proof {
                    lemma_flat_index_bounds(
                        self.spec_width(),
                        self.spec_height(),
                        row as int,
                        col as int,
                    );
                }
                self.cells.set(index, cell);
                Some(())
            },
        }
    }

    /// Counts the live cells among the up-to-8 Moore neighbors of (row, col).
    /// Neighbor positions outside the grid are not counted, and neither is
    /// the center cell itself; the count never exceeds eight.
    pub fn count_neighbors(&self, row: usize, col: usize) -> (count: usize)
        requires
            self.wf(),
            row < self.spec_height(),
            col < self.spec_width(),
        ensures
            count as int == neighbor_count(
                self@,
                self.spec_width(),
                self.spec_height(),
                row as int,
                col as int,
            ),
            count <= 8,
    {
        let mut count: usize = 0;
        if row > 0 {
            if col > 0 && self.cell_is_alive(row - 1, col - 1) {
                count += 1;
            }
            if self.cell_is_alive(row - 1, col) {
                count += 1;
            }
            if col + 1 < self.width && self.cell_is_alive(row - 1, col + 1) {
                count += 1;
            }
        }
        if col > 0 && self.cell_is_alive(row, col - 1) {
            count += 1;
        }
        if col + 1 < self.width && self.cell_is_alive(row, col + 1) {
            count += 1;
        }
        if row + 1 < self.height {
            if col > 0 && self.cell_is_alive(row + 1, col - 1) {
                count += 1;
            }
            if self.cell_is_alive(row + 1, col) {
                count += 1;
            }
            if col + 1 < self.width && self.cell_is_alive(row + 1, col + 1) {
                count += 1;
            }
        }
        count
    }

    /// Advances the grid one generation. Every cell's next state is computed
    /// from the current snapshot under the rule — survival on two or three
    /// live neighbors, birth on exactly three — and the new cells replace the
    /// old ones all at once, so no write of this generation is read by it.
    pub fn tick(&mut self)
        requires
            old(self).wf(),
        ensures
            final(self).wf(),
            final(self).spec_width() == old(self).spec_width(),
            final(self).spec_height() == old(self).spec_height(),
            final(self)@ == step(old(self)@, old(self).spec_width(), old(self).spec_height()),
    {
        let ghost g0: Grid = *self;
        let ghost w: int = self.spec_width();
        let ghost h: int = self.spec_height();
        let mut next: Vec<Cell> = Vec::new();
        let mut row: usize = 0;
        while row < self.height
            invariant
                *self == g0,
                g0.wf(),
                w == g0.spec_width(),
                h == g0.spec_height(),
                row <= h,
                next@.len() == row * w,
                forall|i: int| 0 <= i < next@.len() ==> #[trigger] next@[i] == step(g0@, w, h)[i],
            decreases h - row,
        {
            let mut col: usize = 0;
            while col < self.width
                invariant
                    *self == g0,
                    g0.wf(),
                    w == g0.spec_width(),
                    h == g0.spec_height(),
                    row < h,
                    col <= w,
                    next@.len() == row * w + col,
                    forall|i: int|
                        0 <= i < next@.len() ==> #[trigger] next@[i] == step(g0@, w, h)[i],
                decreases w - col,
            {
                let alive = self.cell_is_alive(row, col);
                let cell = if alive {
                    Cell::Alive
                } else {
                    Cell::Dead
                };
                let count = self.count_neighbors(row, col);
                let next_cell = apply_rule(cell, count);
                proof {
                    lemma_flat_index_bounds(w, h, row as int, col as int);
                    lemma_flat_index_div_mod(w, row as int, col as int);
                    assert(cell == g0@[row as int * w + col as int]);
                    assert(step(g0@, w, h)[row as int * w + col as int] == next_cell);
                }
                next.push(next_cell);
                col += 1;
            }
            proof {
                assert((row as int + 1) * w == row as int * w + w) by (nonlinear_arith);
            }
            row += 1;
        }
        proof {
            assert(next@ =~= step(g0@, w, h));
        }
        self.cells = next;
    }

    /// The number of live cells in the whole grid.
    pub fn count_alive(&self) -> (count: usize)
        requires
            self.wf(),
        ensures
            count as int == alive_count(self@),
    {
        let n: usize = self.cells.len();
        let mut count: usize = 0;
        let mut i: usize = 0;
        while i < n
            invariant
                n == self@.len(),
                i <= n,
                count <= i,
                count as int == alive_count(self@.take(i as int)),
            decreases n - i,
        {
            proof {
                assert(self@.take(i as int + 1).drop_last() =~= self@.take(i as int));
                assert(self@.take(i as int + 1).last() == self@[i as int]);
            }
            if self.cells[i] == Cell::Alive {
                count += 1;
            }
            i += 1;
        }
        proof {
            assert(self@.take(n as int) =~= self@);
        }
        count
    }

    /// The grid as text: one line per row, one glyph per cell in row-major
    /// order — a blank for a dead cell, a solid block for a live one — and a
    /// newline ending every row.
    pub fn render(&self) -> (out: String)
        requires
            self.wf(),
        ensures
            out@.len() == self.spec_height() * (self.spec_width() + 1),
            forall|r: int, c: int|
                0 <= r < self.spec_height() && 0 <= c < self.spec_width() ==> #[trigger] out@[r
                    * (self.spec_width() + 1) + c] == glyph(self@[r * self.spec_width() + c]),
            forall|r: int|
                0 <= r < self.spec_height() ==> #[trigger] out@[r * (self.spec_width() + 1)
                    + self.spec_width()] == '\n',
    {
        let ghost w: int = self.spec_width();
        let ghost h: int = self.spec_height();
        let mut out: String = String::from_str("");
        proof {
            reveal_strlit("");
        }
        let mut row: usize = 0;
        while row < self.height
            invariant
                self.wf(),
                w == self.spec_width(),
                h == self.spec_height(),
                row <= h,
                out@.len() == row * (w + 1),
                forall|r: int, c: int|
                    0 <= r < row && 0 <= c < w ==> #[trigger] out@[r * (w + 1) + c] == glyph(
                        self@[r * w + c],
                    ),
                forall|r: int| 0 <= r < row ==> #[trigger] out@[r * (w + 1) + w] == '\n',
            decreases h - row,
        {
            let mut col: usize = 0;
            while col < self.width
                invariant
                    self.wf(),
                    w == self.spec_width(),
                    h == self.spec_height(),
                    row < h,
                    col <= w,
                    out@.len() == row * (w + 1) + col,
                    forall|r: int, c: int|
                        (0 <= r < row && 0 <= c < w) || (r == row && 0 <= c < col)
                            ==> #[trigger] out@[r * (w + 1) + c] == glyph(self@[r * w + c]),
                    forall|r: int| 0 <= r < row ==> #[trigger] out@[r * (w + 1) + w] == '\n',
                decreases w - col,
            {
                let ghost out0: Seq<char> = out@;
                if self.cell_is_alive(row, col) {
                    out.append("█");
                    proof {
                        reveal_strlit("█");
                    }
                } else {
                    out.append(" ");
                    proof {
                        reveal_strlit(" ");
                    }
                }
                proof {
                    lemma_flat_index_bounds(w, h, row as int, col as int);
                    assert(out@.len() == out0.len() + 1);
                    assert(out@[row as int * (w + 1) + col as int] == glyph(
                        self@[row as int * w + col as int],
                    ));
                    assert forall|r: int, c: int|
                        (0 <= r < row && 0 <= c < w) || (r == row && 0 <= c < col
                            + 1) implies #[trigger] out@[r * (w + 1) + c] == glyph(
                        self@[r * w + c],
                    ) by {
                        if !(r == row && c == col) {
                            lemma_row_major_order(w + 1, r, c, row as int, col as int);
                            assert(out@[r * (w + 1) + c] == out0[r * (w + 1) + c]);
                        }
                    }
                    assert forall|r: int| 0 <= r < row implies #[trigger] out@[r * (w + 1) + w]
                        == '\n' by {
                        lemma_row_major_order(w + 1, r, w, row as int, col as int);
                        assert(out@[r * (w + 1) + w] == out0[r * (w + 1) + w]);
                    }
                }
                col += 1;
            }
            let ghost out0: Seq<char> = out@;
            out.append("\n");
            proof {
                reveal_strlit("\n");
                assert(out@.len() == out0.len() + 1);
                assert(out@[row as int * (w + 1) + w] == '\n');
                assert forall|r: int, c: int|
                    0 <= r < row + 1 && 0 <= c < w implies #[trigger] out@[r * (w + 1) + c]
                    == glyph(self@[r * w + c]) by {
                    lemma_row_major_order(w + 1, r, c, row as int, w);
                    assert(out@[r * (w + 1) + c] == out0[r * (w + 1) + c]);
                }
                assert forall|r: int| 0 <= r < row + 1 implies #[trigger] out@[r * (w + 1) + w]
                    == '\n' by {
                    if r < row {
                        lemma_row_major_order(w + 1, r, w, row as int, w);
                        assert(out@[r * (w + 1) + w] == out0[r * (w + 1) + w]);
                    }
                }
                assert((row as int + 1) * (w + 1) == row as int * (w + 1) + (w + 1))
                    by (nonlinear_arith);
            }
            row += 1;
        }
        out
    }

    /// Relies on rand::random: a coin flip from the thread-local generator;
    /// either value may come back.
    #[verifier::external_body]
    fn random_bool() -> bool {
        rand::random()
    }

    /// Seeds every cell with an independent random draw: alive or dead. The
    /// dimensions and the cell count are unchanged; the cell values are
    /// whatever the generator returned.
    pub fn randomize(&mut self)
        requires
            old(self).wf(),
        ensures
            final(self).wf(),
            final(self).spec_width() == old(self).spec_width(),
            final(self).spec_height() == old(self).spec_height(),
    {
        let ghost g0: Grid = *self;
        let n: usize = self.cells.len();
        let mut i: usize = 0;
        while i < n
            invariant
                self.wf(),
                self.spec_width() == g0.spec_width(),
                self.spec_height() == g0.spec_height(),
                n == self@.len(),
                i <= n,
            decreases n - i,
        {
            let cell = if Self::random_bool() {
                Cell::Alive
            } else {
                Cell::Dead
            };
            self.cells.set(i, cell);
            i += 1;
        }
    }
}

} // verus!

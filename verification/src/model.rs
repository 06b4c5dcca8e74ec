//! The mathematical model of a grid: a row-major sequence of cells with a
//! width and a height, the neighbor count, the generation step, and the laws
//! that hold of them.

use vstd::prelude::*;
use vstd::arithmetic::div_mod::{lemma_fundamental_div_mod, lemma_fundamental_div_mod_converse};
use crate::cell::{Cell, next_state};

verus! {

/// 1 when the condition holds, else 0; used to sum neighbor flags.
pub open spec fn b2i(b: bool) -> int {
    if b {
        1
    } else {
        0
    }
}

/// Whether (row, col) lies inside a width-by-height grid and the row-major
/// sequence `cells` holds a live cell there. Positions outside the grid are
/// never alive.
pub open spec fn alive_at(cells: Seq<Cell>, width: int, height: int, row: int, col: int) -> bool {
    0 <= row < height && 0 <= col < width && cells[row * width + col] is Alive
}

/// The number of live cells among the up-to-8 Moore neighbors of (row, col).
/// Positions outside the grid are excluded from the count; the center cell
/// itself is not counted.
pub open spec fn neighbor_count(
    cells: Seq<Cell>,
    width: int,
    height: int,
    row: int,
    col: int,
) -> int {
    b2i(alive_at(cells, width, height, row - 1, col - 1)) + b2i(
        alive_at(cells, width, height, row - 1, col),
    ) + b2i(alive_at(cells, width, height, row - 1, col + 1)) + b2i(
        alive_at(cells, width, height, row, col - 1),
    ) + b2i(alive_at(cells, width, height, row, col + 1)) + b2i(
        alive_at(cells, width, height, row + 1, col - 1),
    ) + b2i(alive_at(cells, width, height, row + 1, col)) + b2i(
        alive_at(cells, width, height, row + 1, col + 1),
    )
}

/// One generation: every position's next state is computed from the same
/// snapshot `cells`, and the result has the same length.
pub open spec fn step(cells: Seq<Cell>, width: int, height: int) -> Seq<Cell> {
    Seq::new(
        cells.len(),
        |i: int|
            next_state(cells[i], neighbor_count(cells, width, height, i / width, i % width)),
    )
}

/// The grid after `n` generations from `cells`.
pub open spec fn step_n(cells: Seq<Cell>, width: int, height: int, n: nat) -> Seq<Cell>
    decreases n,
{
    if n == 0 {
        cells
    } else {
        step(step_n(cells, width, height, (n - 1) as nat), width, height)
    }
}

/// The number of live cells in the whole sequence.
pub open spec fn alive_count(cells: Seq<Cell>) -> int
    decreases cells.len(),
{
    if cells.len() == 0 {
        0
    } else {
        alive_count(cells.drop_last()) + b2i(cells.last() is Alive)
    }
}

/// Row-major index arithmetic: an in-range (row, col) yields a flat index
/// inside the grid.
pub proof fn lemma_flat_index_bounds(width: int, height: int, row: int, col: int)
    requires
        width > 0,
        height > 0,
        0 <= row < height,
        0 <= col < width,
    ensures
        0 <= row * width + col < height * width,
{
    assert(row * width + col < height * width) by (nonlinear_arith)
        requires
            width > 0,
            0 <= row < height,
            0 <= col < width,
    ;
    assert(0 <= row * width) by (nonlinear_arith)
        requires
            width > 0,
            0 <= row,
    ;
}

/// Row-major index arithmetic: dividing a flat index by the width recovers
/// the coordinates it was built from.
pub proof fn lemma_flat_index_div_mod(width: int, row: int, col: int)
    requires
        width > 0,
        0 <= row,
        0 <= col < width,
    ensures
        (row * width + col) / width == row,
        (row * width + col) % width == col,
{
    lemma_fundamental_div_mod_converse(row * width + col, width, row, col);
}

/// Row-major index arithmetic: a flat index inside the grid splits into
/// in-range coordinates.
pub proof fn lemma_flat_index_split(width: int, height: int, i: int)
    requires
        width > 0,
        height > 0,
        0 <= i < height * width,
    ensures
        0 <= i / width < height,
        0 <= i % width < width,
        i == (i / width) * width + (i % width),
{
    lemma_fundamental_div_mod(i, width);
    assert(0 <= i / width && 0 <= i % width < width && width * (i / width) == (i / width) * width)
        by (nonlinear_arith)
        requires
            width > 0,
            0 <= i,
            i == width * (i / width) + (i % width),
    ;
    assert(i / width < height) by (nonlinear_arith)
        requires
            width > 0,
            i < height * width,
            0 <= i % width,
            i == (i / width) * width + (i % width),
    ;
}

/// Row-major index arithmetic: distinct in-range coordinates give distinct
/// flat indices.
pub proof fn lemma_flat_index_injective(width: int, row1: int, col1: int, row2: int, col2: int)
    requires
        width > 0,
        0 <= row1,
        0 <= col1 < width,
        0 <= row2,
        0 <= col2 < width,
        row1 * width + col1 == row2 * width + col2,
    ensures
        row1 == row2,
        col1 == col2,
{
    lemma_flat_index_div_mod(width, row1, col1);
    lemma_flat_index_div_mod(width, row2, col2);
}

/// Writing one cell then reading the same coordinate gives the written
/// value, and every other in-range coordinate is unchanged.
pub proof fn lemma_set_then_get(
    cells: Seq<Cell>,
    width: int,
    height: int,
    row: int,
    col: int,
    value: Cell,
)
    requires
        width > 0,
        height > 0,
        cells.len() == height * width,
        0 <= row < height,
        0 <= col < width,
    ensures
        cells.update(row * width + col, value).len() == cells.len(),
        cells.update(row * width + col, value)[row * width + col] == value,
        forall|r: int, c: int|
            0 <= r < height && 0 <= c < width && !(r == row && c == col) ==> #[trigger] cells
                .update(row * width + col, value)[r * width + c] == cells[r * width + c],
{
    lemma_flat_index_bounds(width, height, row, col);
    assert forall|r: int, c: int|
        0 <= r < height && 0 <= c < width && !(r == row && c == col) implies #[trigger] cells
        .update(row * width + col, value)[r * width + c] == cells[r * width + c] by {
        lemma_flat_index_bounds(width, height, r, c);
        if r * width + c == row * width + col {
            lemma_flat_index_injective(width, r, c, row, col);
        }
    }
}

/// A corner cell has at most three neighbor positions inside the grid, so
/// its live-neighbor count never exceeds three, whatever is alive.
pub proof fn lemma_corner_count_bound(cells: Seq<Cell>, width: int, height: int)
    requires
        width > 0,
        height > 0,
    ensures
        0 <= neighbor_count(cells, width, height, 0, 0) <= 3,
{
}

/// In a row-major layout with `width` columns, a position in an earlier row,
/// or earlier in the same row, has a smaller flat index.
pub proof fn lemma_row_major_order(width: int, r1: int, c1: int, r2: int, c2: int)
    requires
        width > 0,
        0 <= c1 < width,
        0 <= c2,
        r1 < r2 || (r1 == r2 && c1 < c2),
    ensures
        r1 * width + c1 < r2 * width + c2,
{
    if r1 < r2 {
        assert((r1 + 1) * width <= r2 * width && r1 * width + width == (r1 + 1) * width)
            by (nonlinear_arith)
            requires
                width > 0,
                r1 < r2,
        ;
    }
}

/// A pattern that the rule preserves at every in-range coordinate is a fixed
/// point of the generation step: a still life.
pub proof fn lemma_still_life(cells: Seq<Cell>, width: int, height: int)
    requires
        width > 0,
        height > 0,
        cells.len() == height * width,
        forall|r: int, c: int|
            0 <= r < height && 0 <= c < width ==> next_state(
                cells[r * width + c],
                #[trigger] neighbor_count(cells, width, height, r, c),
            ) == cells[r * width + c],
    ensures
        step(cells, width, height) == cells,
{
    assert forall|i: int| 0 <= i < cells.len() implies step(cells, width, height)[i]
        == cells[i] by {
        lemma_flat_index_split(width, height, i);
        let r = i / width;
        let c = i % width;
        assert(step(cells, width, height)[i] == next_state(
            cells[i],
            neighbor_count(cells, width, height, r, c),
        ));
        assert(cells[r * width + c] == cells[i]);
    }
    assert(step(cells, width, height) =~= cells);
}

/// No position of an all-dead grid is alive.
proof fn lemma_dead_not_alive_at(cells: Seq<Cell>, width: int, height: int, row: int, col: int)
    requires
        width > 0,
        height > 0,
        cells.len() == height * width,
        forall|i: int| 0 <= i < cells.len() ==> !((#[trigger] cells[i]) is Alive),
    ensures
        !alive_at(cells, width, height, row, col),
{
    if 0 <= row < height && 0 <= col < width {
        lemma_flat_index_bounds(width, height, row, col);
    }
}

/// A grid with no live cells has none after one generation: every cell is
/// dead and has zero live neighbors, and the rule keeps a dead cell dead.
pub proof fn lemma_dead_grid_step(cells: Seq<Cell>, width: int, height: int)
    requires
        width > 0,
        height > 0,
        cells.len() == height * width,
        forall|i: int| 0 <= i < cells.len() ==> !((#[trigger] cells[i]) is Alive),
    ensures
        step(cells, width, height).len() == cells.len(),
        forall|i: int|
            0 <= i < cells.len() ==> !((#[trigger] step(cells, width, height)[i]) is Alive),
{
    assert forall|i: int| 0 <= i < cells.len() implies !((#[trigger] step(cells, width, height)[i])
        is Alive) by {
        lemma_flat_index_split(width, height, i);
        let r = i / width;
        let c = i % width;
        lemma_dead_not_alive_at(cells, width, height, r - 1, c - 1);
        lemma_dead_not_alive_at(cells, width, height, r - 1, c);
        lemma_dead_not_alive_at(cells, width, height, r - 1, c + 1);
        lemma_dead_not_alive_at(cells, width, height, r, c - 1);
        lemma_dead_not_alive_at(cells, width, height, r, c + 1);
        lemma_dead_not_alive_at(cells, width, height, r + 1, c - 1);
        lemma_dead_not_alive_at(cells, width, height, r + 1, c);
        lemma_dead_not_alive_at(cells, width, height, r + 1, c + 1);
        assert(neighbor_count(cells, width, height, r, c) == 0);
    }
}

/// An all-dead grid stays all-dead after any number of generations.
pub proof fn lemma_dead_grid_stays_dead(cells: Seq<Cell>, width: int, height: int, n: nat)
    requires
        width > 0,
        height > 0,
        cells.len() == height * width,
        forall|i: int| 0 <= i < cells.len() ==> !((#[trigger] cells[i]) is Alive),
    ensures
        step_n(cells, width, height, n).len() == cells.len(),
        forall|i: int|
            0 <= i < cells.len() ==> !((#[trigger] step_n(cells, width, height, n)[i]) is Alive),
    decreases n,
{
    if n > 0 {
        lemma_dead_grid_stays_dead(cells, width, height, (n - 1) as nat);
        lemma_dead_grid_step(step_n(cells, width, height, (n - 1) as nat), width, height);
    }
}

} // verus!

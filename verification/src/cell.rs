//! The two-valued cell state and the generation rule.

use vstd::prelude::*;

verus! {

/// One cell of the grid: dead or alive. A cell has no identity beyond its
/// value; it is copied freely and compared by value.
#[derive(Clone, Copy, PartialEq, Eq, Structural, Debug)]
pub enum Cell {
    Dead,
    Alive,
}

/// The glyph a cell renders as: a blank for a dead cell, a solid block for a
/// live one.
pub open spec fn glyph(cell: Cell) -> char {
    if cell is Alive {
        '█'
    } else {
        ' '
    }
}

impl Cell {
    /// The display symbol of this cell.
    pub fn symbol(&self) -> (c: char)
        ensures
            c == glyph(*self),
    {
        match self {
            Cell::Dead => ' ',
            Cell::Alive => '█',
        }
    }
}

/// The Game of Life transition rule: a live cell with two or three live
/// neighbors stays alive, a dead cell with exactly three comes alive, and
/// every other cell is dead in the next generation.
pub open spec fn next_state(cell: Cell, count: int) -> Cell {
    if cell is Alive && (count == 2 || count == 3) {
        Cell::Alive
    } else if cell is Dead && count == 3 {
        Cell::Alive
    } else {
        Cell::Dead
    }
}

/// Applies the transition rule to one cell, given its live-neighbor count.
pub fn apply_rule(cell: Cell, count: usize) -> (next: Cell)
    ensures
        next == next_state(cell, count as int),
{
    if cell == Cell::Alive && (count == 2 || count == 3) {
        Cell::Alive
    } else if cell == Cell::Dead && count == 3 {
        Cell::Alive
    } else {
        Cell::Dead
    }
}

/// The rule table, case by case: a live cell survives exactly on a count of
/// two or three; a dead cell comes alive exactly on a count of three; every
/// other combination yields a dead cell.
pub proof fn lemma_rule_table(count: int)
    ensures
        next_state(Cell::Alive, count) == (if count == 2 || count == 3 {
            Cell::Alive
        } else {
            Cell::Dead
        }),
        next_state(Cell::Dead, count) == (if count == 3 {
            Cell::Alive
        } else {
            Cell::Dead
        }),
{
}

} // verus!

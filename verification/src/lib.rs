//! Conway's Game of Life on a fixed-size rectangular grid.
//!
//! A [`grid::Grid`] holds a row-major sequence of [`cell::Cell`] values and
//! advances it one generation at a time under the classic rule: a live cell
//! survives with two or three live neighbors, a dead cell comes alive with
//! exactly three, and every other cell is dead in the next generation.
//! The mathematical model of the grid and the laws proved about it live in
//! [`model`].

pub mod cell;
pub mod grid;
pub mod model;

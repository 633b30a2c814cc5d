//! Conway's Game of Life: the cell grid, the evolution step with a dead
//! border, the count of changed cells and the mapping of cells to glyphs.
pub mod cell;
pub mod life;
pub mod grid;
pub mod control;

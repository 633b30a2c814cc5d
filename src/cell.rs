//! A single cell of the grid and how it is painted.
use vstd::prelude::*;

verus! {

/// The state of one cell.
#[derive(Clone, Copy, Debug, PartialEq, Eq, Structural)]
pub enum GridCell {
    Dead,
    Alive,
}

/// An RGB colour.
#[derive(Clone, Copy, Debug, PartialEq, Eq, Structural)]
pub struct Rgb {
    pub r: u8,
    pub g: u8,
    pub b: u8,
}

/// What is painted for one cell: a glyph with its foreground and background colours.
#[derive(Clone, Copy, Debug, PartialEq, Eq, Structural)]
pub struct CellStyle {
    pub glyph: char,
    pub fg: Rgb,
    pub bg: Rgb,
}

/// The glyph painted for every cell: an upper half block.
pub const CELL_GLYPH: char = '\u{2580}';

/// 1 for a live cell, 0 for a dead one.
pub open spec fn cell_value(c: GridCell) -> int {
    match c {
        GridCell::Dead => 0,
        GridCell::Alive => 1,
    }
}

/// White for a live cell, black for a dead one.
pub open spec fn cell_colour(c: GridCell) -> Rgb {
    match c {
        GridCell::Alive => Rgb { r: 255, g: 255, b: 255 },
        GridCell::Dead => Rgb { r: 0, g: 0, b: 0 },
    }
}

impl GridCell {
    /// The cell as a number: 1 when alive, 0 when dead.
    pub fn into(&self) -> (r: u8)
        ensures
            r as int == cell_value(*self),
    {
        match self {
            GridCell::Dead => 0,
            GridCell::Alive => 1,
        }
    }

    /// The cell for a coin flip: alive on `true`.
    pub fn from_bool(b: bool) -> (r: GridCell)
        ensures
            r == (if b { GridCell::Alive } else { GridCell::Dead }),
    {
        if b {
            GridCell::Alive
        } else {
            GridCell::Dead
        }
    }

    /// How the cell is painted: the half-block glyph, with foreground and
    /// background both white when alive and both black when dead.
    pub fn style(&self) -> (r: CellStyle)
        ensures
            r.glyph == CELL_GLYPH,
            r.fg == cell_colour(*self),
            r.bg == cell_colour(*self),
    {
        let colour = match self {
            GridCell::Alive => Rgb { r: 255, g: 255, b: 255 },
            GridCell::Dead => Rgb { r: 0, g: 0, b: 0 },
        };
        CellStyle { glyph: CELL_GLYPH, fg: colour, bg: colour }
    }
}

} // verus!

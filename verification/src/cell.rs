//! The occupant of one grid position and the glyph that stands for it.

use vstd::prelude::*;

verus! {

/// The occupant of one grid position. A position holds exactly one of these
/// at a time.
#[derive(Clone, Copy, Debug, PartialEq, Eq, Structural)]
pub enum Cell {
    Empty,
    Wall,
    Player,
    Exit,
}

impl Cell {
    /// The character that a cell is drawn with.
    pub open spec fn spec_glyph(self) -> char {
        match self {
            Cell::Empty => ' ',
            Cell::Wall => '#',
            Cell::Player => 'P',
            Cell::Exit => 'E',
        }
    }

    /// The character that a cell is drawn with.
    #[verifier::when_used_as_spec(spec_glyph)]
    pub fn glyph(self) -> (c: char)
        ensures
            c == self.spec_glyph(),
    {
        match self {
            Cell::Empty => ' ',
            Cell::Wall => '#',
            Cell::Player => 'P',
            Cell::Exit => 'E',
        }
    }

    /// Different cells are drawn with different glyphs, so a drawn board
    /// shows the grid without loss.
    pub proof fn lemma_glyph_distinct(a: Cell, b: Cell)
        ensures
            a.spec_glyph() == b.spec_glyph() <==> a == b,
    {
    }
}

} // verus!

//! The picture of a frame: what a front end has to put on the screen to show
//! a maze. Drawing reads the maze and changes nothing.

use vstd::prelude::*;
use crate::maze::Maze;
use crate::model::{in_bounds, MazeView, HEIGHT, WIDTH};

verus! {

/// Title of the frame around the board.
pub const BOARD_TITLE: &'static str = "Maze Game";

/// Title of the frame that is shown once the player has reached the exit.
pub const WIN_TITLE: &'static str = "You Win!";

/// Share of the frame's width that each column of the board takes, in
/// percent.
pub const COLUMN_PERCENT: u16 = 5;

/// Blank columns between two columns of the board.
pub const COLUMN_SPACING: u16 = 1;

/// The glyphs that show a maze, row by row: `picture(m)[y][x]` is the glyph
/// of the cell at `(x, y)`.
pub open spec fn picture(m: MazeView) -> Seq<Seq<char>> {
    Seq::new(HEIGHT as nat, |y: int| Seq::new(WIDTH as nat, |x: int| m.at(x, y).spec_glyph()))
}

/// A table of one-character tiles inside a bordered, titled frame.
#[derive(Debug, PartialEq, Eq)]
pub struct Board {
    /// Title of the frame.
    pub title: &'static str,
    /// Whether the frame has a border on all four sides.
    pub bordered: bool,
    /// One glyph per cell, row by row.
    pub rows: Vec<Vec<char>>,
    /// Width of each column, in percent of the frame's width.
    pub column_percents: Vec<u16>,
    /// Blank columns between two columns.
    pub column_spacing: u16,
}

impl Board {
    /// The glyphs of the board as a mathematical value.
    pub open spec fn glyphs(&self) -> Seq<Seq<char>> {
        Seq::new(self.rows@.len(), |y: int| self.rows@[y]@)
    }
}

impl Maze {
    /// The board that shows this maze: the whole grid, one glyph per cell,
    /// in a bordered frame under the title `BOARD_TITLE`, in `WIDTH` columns
    /// of `COLUMN_PERCENT` each, `COLUMN_SPACING` apart.
    pub fn draw(&self) -> (board: Board)
        ensures
            board.title@ == BOARD_TITLE@,
            board.bordered,
            board.glyphs() == picture(self@),
            board.column_percents@ == Seq::new(WIDTH as nat, |i: int| COLUMN_PERCENT),
            board.column_spacing == COLUMN_SPACING,
    {
        let mut rows: Vec<Vec<char>> = Vec::new();
        for y in 0..HEIGHT
            invariant
                rows@.len() == y,
                forall|j: int| 0 <= j < y ==> (#[trigger] rows@[j])@ =~= picture(self@)[j],
        {
            let mut row: Vec<char> = Vec::new();
            for x in 0..WIDTH
                invariant
                    y < HEIGHT,
                    row@ =~= Seq::new(x as nat, |k: int| self@.at(k, y as int).spec_glyph()),
            {
                let cell = self.cell(x, y);
                assert(in_bounds(x as int, y as int));
                row.push(cell.unwrap().glyph());
            }
            rows.push(row);
        }
        let mut column_percents: Vec<u16> = Vec::new();
        for x in 0..WIDTH
            invariant
                column_percents@ =~= Seq::new(x as nat, |i: int| COLUMN_PERCENT),
        {
            column_percents.push(COLUMN_PERCENT);
        }
        let board = Board {
            title: BOARD_TITLE,
            bordered: true,
            rows,
            column_percents,
            column_spacing: COLUMN_SPACING,
        };
        assert(board.glyphs() =~= picture(self@));
        board
    }
}

} // verus!

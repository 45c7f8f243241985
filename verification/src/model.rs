//! The mathematical model of a maze: a grid of cells, the player's position
//! and the exit's position, with the movement rule stated over them. What
//! follows from these definitions is proved in [`crate::laws`].

use vstd::prelude::*;
use crate::cell::Cell;

verus! {

/// Number of columns of the grid.
pub const WIDTH: usize = 20;

/// Number of rows of the grid.
pub const HEIGHT: usize = 10;

/// Column in which the player starts.
pub const START_X: usize = 1;

/// Row in which the player starts.
pub const START_Y: usize = 1;

/// Column of the exit.
pub const EXIT_X: usize = WIDTH - 2;

/// Row of the exit.
pub const EXIT_Y: usize = HEIGHT - 2;

/// How many wall positions are drawn for a fresh maze. Draws that fall on
/// the same position count once, so a maze has at most this many walls.
pub const WALL_DRAWS: usize = WIDTH * HEIGHT / 3;

/// Whether `(x, y)` names a position of the grid.
pub open spec fn in_bounds(x: int, y: int) -> bool {
    0 <= x < WIDTH && 0 <= y < HEIGHT
}

/// Whether a wall that is drawn for `(x, y)` comes to stand there: the
/// position lies inside the grid and is neither the start nor the exit.
pub open spec fn takes_wall(x: int, y: int) -> bool {
    &&& in_bounds(x, y)
    &&& (x, y) != (START_X as int, START_Y as int)
    &&& (x, y) != (EXIT_X as int, EXIT_Y as int)
}

/// The positions that a list of `(x, y)` pairs names.
pub open spec fn positions(list: Seq<(usize, usize)>) -> Set<(int, int)> {
    Set::new(
        |p: (int, int)|
            exists|i: int|
                0 <= i < list.len() && (#[trigger] list[i]).0 == p.0 && list[i].1 == p.1,
    )
}

/// A maze as a mathematical value. `cells[y][x]` is the occupant of column
/// `x` in row `y`; `player` and `exit` are `(x, y)` pairs.
pub struct MazeView {
    pub cells: Seq<Seq<Cell>>,
    pub player: (int, int),
    pub exit: (int, int),
}

impl MazeView {
    /// The occupant of `(x, y)`.
    pub open spec fn at(self, x: int, y: int) -> Cell {
        self.cells[y][x]
    }

    /// The grid has `HEIGHT` rows of `WIDTH` cells.
    pub open spec fn well_shaped(self) -> bool {
        &&& self.cells.len() == HEIGHT
        &&& forall|y: int| 0 <= y < HEIGHT ==> (#[trigger] self.cells[y]).len() == WIDTH
    }

    /// The invariant of every maze: the grid is rectangular, player and exit
    /// lie inside it, the one `Player` cell is where the player is, no
    /// position but the exit's is marked `Exit`, and no wall stands on the
    /// exit.
    pub open spec fn wf(self) -> bool {
        &&& self.well_shaped()
        &&& in_bounds(self.player.0, self.player.1)
        &&& in_bounds(self.exit.0, self.exit.1)
        &&& forall|x: int, y: int|
            in_bounds(x, y) ==> ((#[trigger] self.at(x, y)) == Cell::Player <==> (x, y)
                == self.player)
        &&& forall|x: int, y: int|
            in_bounds(x, y) && (#[trigger] self.at(x, y)) == Cell::Exit ==> (x, y) == self.exit
        &&& self.at(self.exit.0, self.exit.1) != Cell::Wall
    }

    /// The positions that are marked `Player`.
    pub open spec fn player_cells(self) -> Set<(int, int)> {
        Set::new(|p: (int, int)| in_bounds(p.0, p.1) && self.at(p.0, p.1) == Cell::Player)
    }

    /// The positions that hold a wall.
    pub open spec fn walls(self) -> Set<(int, int)> {
        Set::new(|p: (int, int)| in_bounds(p.0, p.1) && self.at(p.0, p.1) == Cell::Wall)
    }

    /// Whether the player stands on the exit.
    pub open spec fn at_exit(self) -> bool {
        self.player == self.exit
    }

    /// The occupant of `(x, y)` in a fresh maze whose walls were drawn as
    /// `walls`: start and exit are stamped over whatever was drawn there.
    pub open spec fn fresh_cell(walls: Set<(int, int)>, x: int, y: int) -> Cell {
        if (x, y) == (START_X as int, START_Y as int) {
            Cell::Player
        } else if (x, y) == (EXIT_X as int, EXIT_Y as int) {
            Cell::Exit
        } else if walls.contains((x, y)) {
            Cell::Wall
        } else {
            Cell::Empty
        }
    }

    /// The fresh maze whose walls were drawn as `walls`: the player on the
    /// start, the exit on its position, a wall on every other drawn position
    /// of the grid, and nothing anywhere else.
    pub open spec fn fresh(walls: Set<(int, int)>) -> MazeView {
        MazeView {
            cells: Seq::new(
                HEIGHT as nat,
                |y: int| Seq::new(WIDTH as nat, |x: int| Self::fresh_cell(walls, x, y)),
            ),
            player: (START_X as int, START_Y as int),
            exit: (EXIT_X as int, EXIT_Y as int),
        }
    }

    /// The same maze with `c` written at `(x, y)`.
    pub open spec fn put(self, x: int, y: int, c: Cell) -> MazeView {
        MazeView { cells: self.cells.update(y, self.cells[y].update(x, c)), ..self }
    }

    /// Where a move by `(dx, dy)` would take the player.
    pub open spec fn target(self, dx: int, dy: int) -> (int, int) {
        (self.player.0 + dx, self.player.1 + dy)
    }

    /// The guard of a move: the target lies inside the grid and is not a wall.
    pub open spec fn admits(self, dx: int, dy: int) -> bool {
        let (nx, ny) = self.target(dx, dy);
        in_bounds(nx, ny) && self.at(nx, ny) != Cell::Wall
    }

    /// The maze after an admitted move: the position that the player leaves
    /// becomes `Empty`, the target becomes `Player`, and the player stands on
    /// the target.
    pub open spec fn moved(self, dx: int, dy: int) -> MazeView {
        let (nx, ny) = self.target(dx, dy);
        MazeView {
            player: (nx, ny),
            ..self.put(self.player.0, self.player.1, Cell::Empty).put(nx, ny, Cell::Player)
        }
    }

    /// The maze after an attempt to move by `(dx, dy)`: moved where the guard
    /// admits it, unchanged where it does not.
    pub open spec fn step(self, dx: int, dy: int) -> MazeView {
        if self.admits(dx, dy) {
            self.moved(dx, dy)
        } else {
            self
        }
    }

    /// The maze after a series of attempted moves, first to last.
    pub open spec fn run(self, moves: Seq<(int, int)>) -> MazeView
        decreases moves.len(),
    {
        if moves.len() == 0 {
            self
        } else {
            self.run(moves.drop_last()).step(moves.last().0, moves.last().1)
        }
    }
}

} // verus!

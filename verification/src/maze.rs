//! The maze itself: the grid, the player and the exit, and the operations
//! that build and change them.

use std::collections::HashSet;
use rand::rngs::ThreadRng;
use vstd::prelude::*;
use vstd::set_lib::lemma_len_subset;
use crate::cell::Cell;
use crate::laws::lemma_positions_len;
use crate::model::{
    in_bounds, positions, MazeView, EXIT_X, EXIT_Y, HEIGHT, START_X, START_Y, WALL_DRAWS, WIDTH,
};
use crate::random::gen_below;

verus! {

broadcast use vstd::std_specs::hash::group_hash_axioms;

/// The player's position: column `x`, row `y`.
#[derive(Clone, Copy, Debug, PartialEq, Eq, Structural)]
pub struct Player {
    pub x: usize,
    pub y: usize,
}

/// A maze: the grid of cells, the player and the exit.
#[derive(Debug, PartialEq, Eq)]
pub struct Maze {
    grid: Vec<Vec<Cell>>,
    player: Player,
    exit: (usize, usize),
}

/// The mathematical value of a grid: its rows, each as a sequence.
spec fn rows_of(grid: Vec<Vec<Cell>>) -> Seq<Seq<Cell>> {
    Seq::new(grid@.len(), |y: int| grid@[y]@)
}

/// The maze that the three parts make up.
spec fn assembled(grid: Vec<Vec<Cell>>, player: Player, exit: (usize, usize)) -> MazeView {
    MazeView {
        cells: rows_of(grid),
        player: (player.x as int, player.y as int),
        exit: (exit.0 as int, exit.1 as int),
    }
}

impl View for Maze {
    type V = MazeView;

    closed spec fn view(&self) -> MazeView {
        assembled(self.grid, self.player, self.exit)
    }
}

impl Maze {
    /// What holds of every maze, at all times: the invariant of its view.
    /// There is exactly one `Player` cell, and it is where the player is.
    #[verifier::type_invariant]
    pub open spec fn valid(&self) -> bool {
        self@.wf()
    }

    /// A fresh maze with randomly drawn walls. `WALL_DRAWS` positions are
    /// drawn, and draws that fall on the same position count once. Which
    /// walls come out differs from call to call. Whatever they are, the
    /// player stands on the start, the exit is on its position, every other
    /// cell is a wall or empty, and there are at most `WALL_DRAWS` walls.
    /// Nothing ensures that the exit can be reached.
    pub fn new() -> (maze: Maze)
        ensures
            maze@.wf(),
            maze@ == MazeView::fresh(maze@.walls()),
            maze@.walls().finite(),
            maze@.walls().len() <= WALL_DRAWS,
    {
        let mut rng = rand::thread_rng();
        let walls = sample_walls(&mut rng);
        let maze = Maze::with_walls(walls.as_slice());
        proof {
            let drawn = positions(walls@);
            MazeView::lemma_fresh_walls(drawn);
            lemma_positions_len(walls@);
            lemma_len_subset(maze@.walls(), drawn);
        }
        maze
    }

    /// The fresh maze with walls on the listed `(x, y)` positions. All other
    /// cells are empty. Then the player is put on the start and the exit on
    /// its position, over whatever was listed there. A listed position
    /// outside the grid names no cell and is passed over, and listing a
    /// position twice is the same as listing it once.
    pub fn with_walls(walls: &[(usize, usize)]) -> (maze: Maze)
        ensures
            maze@.wf(),
            maze@ == MazeView::fresh(positions(walls@)),
    {
        let mut grid: Vec<Vec<Cell>> = Vec::new();
        for y in 0..HEIGHT
            invariant
                grid@.len() == y,
                forall|j: int| 0 <= j < y ==> (#[trigger] grid@[j])@ =~= Seq::new(
                    WIDTH as nat,
                    |x: int| Cell::Empty,
                ),
        {
            let mut row: Vec<Cell> = Vec::new();
            for x in 0..WIDTH
                invariant
                    row@ =~= Seq::new(x as nat, |k: int| Cell::Empty),
            {
                row.push(Cell::Empty);
            }
            grid.push(row);
        }
        for i in 0..walls.len()
            invariant
                grid@.len() == HEIGHT,
                forall|y: int| 0 <= y < HEIGHT ==> (#[trigger] grid@[y])@.len() == WIDTH,
                forall|x: int, y: int|
                    in_bounds(x, y) ==> #[trigger] grid@[y]@[x] == if positions(
                        walls@.take(i as int),
                    ).contains((x, y)) {
                        Cell::Wall
                    } else {
                        Cell::Empty
                    },
        {
            let (x, y): (usize, usize) = walls[i];
            if x < WIDTH && y < HEIGHT {
                grid[y][x] = Cell::Wall;
            }
            proof {
                let before = walls@.take(i as int);
                let after = walls@.take(i + 1);
                assert(after[i as int] == walls@[i as int]);
                assert forall|p: (int, int)| positions(after).contains(p) <==> (positions(
                    before,
                ).contains(p) || p == (x as int, y as int)) by {
                    if positions(before).contains(p) {
                        let k = choose|k: int|
                            0 <= k < before.len() && (#[trigger] before[k]).0 == p.0
                                && before[k].1 == p.1;
                        assert(after[k] == before[k]);
                    }
                    if positions(after).contains(p) {
                        let k = choose|k: int|
                            0 <= k < after.len() && (#[trigger] after[k]).0 == p.0 && after[k].1
                                == p.1;
                        if k < i {
                            assert(before[k] == after[k]);
                        }
                    }
                }
            }
        }
        grid[START_Y][START_X] = Cell::Player;
        grid[EXIT_Y][EXIT_X] = Cell::Exit;
        let player = Player { x: START_X, y: START_Y };
        let exit = (EXIT_X, EXIT_Y);
        proof {
            assert(walls@.take(walls@.len() as int) =~= walls@);
            let fresh = MazeView::fresh(positions(walls@));
            let built = assembled(grid, player, exit);
            assert forall|y: int| 0 <= y < HEIGHT implies #[trigger] built.cells[y]
                =~= fresh.cells[y] by {
                assert forall|x: int| 0 <= x < WIDTH implies built.cells[y][x]
                    == fresh.cells[y][x] by {
                    assert(in_bounds(x, y));
                }
            }
            assert(built.cells =~= fresh.cells);
            MazeView::lemma_fresh_wf(positions(walls@));
        }
        Maze { grid, player, exit }
    }

    /// Tries to move the player by `(dx, dy)`. The move is accepted when the
    /// target lies inside the grid and holds no wall; the position that the
    /// player leaves then becomes `Empty` and the target becomes `Player`.
    /// A rejected move changes nothing. The exit and the walls stay as they
    /// are either way.
    pub fn move_player(&mut self, dx: isize, dy: isize) -> (accepted: bool)
        ensures
            final(self)@.wf(),
            accepted == old(self)@.admits(dx as int, dy as int),
            final(self)@ == old(self)@.step(dx as int, dy as int),
    {
        proof {
            use_type_invariant(&*self);
        }
        let new_x = match shifted(self.player.x, dx, WIDTH) {
            Some(x) => x,
            None => { return false; },
        };
        let new_y = match shifted(self.player.y, dy, HEIGHT) {
            Some(y) => y,
            None => { return false; },
        };
        assert(self@.cells[new_y as int] == self.grid@[new_y as int]@);
        if self.grid[new_y][new_x] == Cell::Wall {
            return false;
        }
        proof {
            old(self)@.lemma_step_keeps_invariant(dx as int, dy as int);
        }
        relocate(&mut self.grid, &mut self.player, Player { x: new_x, y: new_y }, Ghost(self.exit));
        true
    }

    /// Where the player stands.
    pub fn player(&self) -> (p: Player)
        ensures
            (p.x as int, p.y as int) == self@.player,
    {
        self.player
    }

    /// Where the exit is, as `(x, y)`.
    pub fn exit(&self) -> (e: (usize, usize))
        ensures
            (e.0 as int, e.1 as int) == self@.exit,
    {
        self.exit
    }

    /// The occupant of `(x, y)`, or `None` where `(x, y)` lies outside the
    /// grid.
    pub fn cell(&self, x: usize, y: usize) -> (c: Option<Cell>)
        ensures
            c == if in_bounds(x as int, y as int) {
                Some(self@.at(x as int, y as int))
            } else {
                None
            },
    {
        proof {
            use_type_invariant(self);
        }
        if x < WIDTH && y < HEIGHT {
            assert(self@.cells[y as int] == self.grid@[y as int]@);
            Some(self.grid[y][x])
        } else {
            None
        }
    }

    /// Whether the player stands on the exit.
    pub fn check_exit(&self) -> (won: bool)
        ensures
            won == self@.at_exit(),
    {
        self.player.x == self.exit.0 && self.player.y == self.exit.1
    }
}

/// Moves the player's marker and the player to `to`.
fn relocate(
    grid: &mut Vec<Vec<Cell>>,
    player: &mut Player,
    to: Player,
    Ghost(exit): Ghost<(usize, usize)>,
)
    requires
        assembled(*old(grid), *old(player), exit).wf(),
        in_bounds(to.x as int, to.y as int),
    ensures
        assembled(*final(grid), *final(player), exit) == assembled(
            *old(grid),
            *old(player),
            exit,
        ).moved(to.x - old(player).x, to.y - old(player).y),
    no_unwind
{
    let ghost before = assembled(*grid, *player, exit);
    assert(before.cells[player.y as int] == grid@[player.y as int]@);
    grid[player.y][player.x] = Cell::Empty;
    assert(grid@.len() == HEIGHT);
    assert(before.cells[to.y as int] == old(grid)@[to.y as int]@);
    grid[to.y][to.x] = Cell::Player;
    *player = to;
    proof {
        let after = before.moved(to.x - old(player).x, to.y - old(player).y);
        let now = assembled(*grid, *player, exit);
        assert forall|y: int| 0 <= y < HEIGHT implies #[trigger] now.cells[y] =~= after.cells[y] by {
            assert(before.cells[y] == old(grid)@[y]@);
        }
        assert(now.cells =~= after.cells);
    }
}

/// Draws `WALL_DRAWS` positions of the grid and lists each drawn position
/// once, in the order of its first draw.
fn sample_walls(rng: &mut ThreadRng) -> (walls: Vec<(usize, usize)>)
    ensures
        exists|draws: Seq<(usize, usize)>|
            {
                &&& draws.len() == WALL_DRAWS
                &&& forall|i: int|
                    0 <= i < draws.len() ==> in_bounds(
                        (#[trigger] draws[i]).0 as int,
                        draws[i].1 as int,
                    )
                &&& walls@ == #[trigger] each_once(draws)
            },
        1 <= walls@.len() <= WALL_DRAWS,
        walls@.no_duplicates(),
        forall|i: int| 0 <= i < walls@.len() ==> in_bounds(walls@[i].0 as int, walls@[i].1 as int),
{
    let mut drawn: HashSet<usize> = HashSet::new();
    let mut walls: Vec<(usize, usize)> = Vec::new();
    let ghost mut draws: Seq<(usize, usize)> = Seq::empty();
    for n in 0..WALL_DRAWS
        invariant
            draws.len() == n,
            forall|i: int|
                0 <= i < draws.len() ==> in_bounds(
                    (#[trigger] draws[i]).0 as int,
                    draws[i].1 as int,
                ),
            walls@ == each_once(draws),
            walls@.len() <= n,
            n > 0 ==> walls@.len() >= 1,
            walls@.no_duplicates(),
            forall|i: int|
                0 <= i < walls@.len() ==> in_bounds(
                    (#[trigger] walls@[i]).0 as int,
                    walls@[i].1 as int,
                ),
            forall|i: int| 0 <= i < walls@.len() ==> drawn@.contains(slot(#[trigger] walls@[i])),
            forall|k: usize|
                drawn@.contains(k) ==> exists|i: int|
                    0 <= i < walls@.len() && slot(#[trigger] walls@[i]) == k,
    {
        let x: usize = gen_below(rng, WIDTH);
        let y: usize = gen_below(rng, HEIGHT);
        let ghost listed = walls@;
        let ghost seen = drawn@;
        proof {
            assert(draws.push((x, y)).drop_last() =~= draws);
            if seen.contains(slot((x, y))) {
                let i = choose|i: int| 0 <= i < listed.len() && slot(#[trigger] listed[i]) == slot((x, y));
                assert(listed[i] == (x, y));
                assert(listed.contains((x, y)));
            } else {
                assert forall|i: int| 0 <= i < listed.len() implies listed[i] != (x, y) by {
                    assert(seen.contains(slot(listed[i])));
                }
                assert(!listed.contains((x, y)));
            }
            draws = draws.push((x, y));
        }
        if drawn.insert(y * WIDTH + x) {
            walls.push((x, y));
            proof {
                assert forall|k: usize| drawn@.contains(k) implies exists|i: int|
                    0 <= i < walls@.len() && slot(#[trigger] walls@[i]) == k by {
                    if k == slot((x, y)) {
                        assert(slot(walls@[listed.len() as int]) == k);
                    } else {
                        let i = choose|i: int| 0 <= i < listed.len() && slot(#[trigger] listed[i]) == k;
                        assert(walls@[i] == listed[i]);
                    }
                }
            }
        }
    }
    walls
}

/// The number that stands for a position in the set of drawn positions:
/// positions of the grid are numbered row by row.
spec fn slot(p: (usize, usize)) -> usize {
    (p.1 * WIDTH + p.0) as usize
}

/// The drawn positions, each once, in the order of its first draw.
spec fn each_once(draws: Seq<(usize, usize)>) -> Seq<(usize, usize)>
    decreases draws.len(),
{
    if draws.len() == 0 {
        Seq::empty()
    } else {
        let earlier = each_once(draws.drop_last());
        if earlier.contains(draws.last()) {
            earlier
        } else {
            earlier.push(draws.last())
        }
    }
}

/// The coordinate `delta` steps from `pos`, if it lies below `limit`.
fn shifted(pos: usize, delta: isize, limit: usize) -> (r: Option<usize>)
    requires
        pos < limit <= isize::MAX,
    ensures
        r == if 0 <= pos + delta < limit {
            Some((pos + delta) as usize)
        } else {
            None
        },
{
    if delta >= 0 {
        let forward: usize = delta as usize;
        if forward < limit - pos {
            Some(pos + forward)
        } else {
            None
        }
    } else if delta >= -(pos as isize) {
        Some((pos as isize + delta) as usize)
    } else {
        None
    }
}

} // verus!

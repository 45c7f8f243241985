//! What holds of every maze and of every move, proved from the model.

use vstd::prelude::*;
use crate::cell::Cell;
use crate::model::{in_bounds, positions, takes_wall, MazeView, EXIT_X, EXIT_Y, HEIGHT, WIDTH};

verus! {

impl MazeView {
    /// In a maze that satisfies the invariant exactly one cell is marked
    /// `Player`: the one on which the player stands.
    pub proof fn lemma_one_player_cell(self)
        requires
            self.wf(),
        ensures
            self.player_cells() == set![self.player],
            self.player_cells().len() == 1,
    {
        assert forall|p: (int, int)| self.player_cells().contains(p) <==> p == self.player by {
            if in_bounds(p.0, p.1) {
                assert(self.at(p.0, p.1) == Cell::Player <==> p == self.player);
            }
        }
        assert(self.player_cells() =~= set![self.player]);
    }

    /// A fresh maze satisfies the invariant. Its exit is marked `Exit`, and
    /// the player does not stand on it.
    pub proof fn lemma_fresh_wf(walls: Set<(int, int)>)
        ensures
            Self::fresh(walls).wf(),
            Self::fresh(walls).at(EXIT_X as int, EXIT_Y as int) == Cell::Exit,
            !Self::fresh(walls).at_exit(),
    {
        let m = Self::fresh(walls);
        assert forall|x: int, y: int| in_bounds(x, y) implies #[trigger] m.at(x, y)
            == Self::fresh_cell(walls, x, y) by {}
    }

    /// The walls of a fresh maze are the drawn positions that take a wall,
    /// and drawing exactly those again gives the same maze.
    pub proof fn lemma_fresh_walls(walls: Set<(int, int)>)
        ensures
            Self::fresh(walls).walls() == walls.filter(|p: (int, int)| takes_wall(p.0, p.1)),
            Self::fresh(Self::fresh(walls).walls()) == Self::fresh(walls),
    {
        let m = Self::fresh(walls);
        let kept = walls.filter(|p: (int, int)| takes_wall(p.0, p.1));
        assert forall|p: (int, int)| m.walls().contains(p) <==> kept.contains(p) by {
            if in_bounds(p.0, p.1) {
                assert(m.at(p.0, p.1) == Self::fresh_cell(walls, p.0, p.1));
            }
        }
        assert(m.walls() =~= kept);
        let again = Self::fresh(kept);
        assert forall|y: int| 0 <= y < HEIGHT implies #[trigger] again.cells[y] =~= m.cells[y] by {
            assert forall|x: int| 0 <= x < WIDTH implies again.cells[y][x] == m.cells[y][x] by {
                assert(Self::fresh_cell(kept, x, y) == Self::fresh_cell(walls, x, y));
            }
        }
        assert(again.cells =~= m.cells);
    }

    /// A move whose target lies outside the grid is rejected and changes
    /// nothing.
    pub proof fn lemma_move_outside_grid(self, dx: int, dy: int)
        requires
            !in_bounds(self.target(dx, dy).0, self.target(dx, dy).1),
        ensures
            !self.admits(dx, dy),
            self.step(dx, dy) == self,
    {
    }

    /// A move onto a wall is rejected and changes nothing.
    pub proof fn lemma_move_onto_wall(self, dx: int, dy: int)
        requires
            self.at(self.target(dx, dy).0, self.target(dx, dy).1) == Cell::Wall,
        ensures
            !self.admits(dx, dy),
            self.step(dx, dy) == self,
    {
    }

    /// A move onto an empty cell is accepted: the player stands on the
    /// target, the two markers have changed places, and every other cell is
    /// as it was.
    pub proof fn lemma_move_onto_empty(self, dx: int, dy: int)
        requires
            self.wf(),
            in_bounds(self.target(dx, dy).0, self.target(dx, dy).1),
            self.at(self.target(dx, dy).0, self.target(dx, dy).1) == Cell::Empty,
        ensures
            self.admits(dx, dy),
            self.step(dx, dy).player == self.target(dx, dy),
            self.step(dx, dy).at(self.player.0, self.player.1) == Cell::Empty,
            self.step(dx, dy).at(self.target(dx, dy).0, self.target(dx, dy).1) == Cell::Player,
            forall|x: int, y: int|
                in_bounds(x, y) && (x, y) != self.player && (x, y) != self.target(dx, dy)
                    ==> #[trigger] self.step(dx, dy).at(x, y) == self.at(x, y),
    {
    }

    /// The exit is no obstacle: a move that targets it is accepted, and the
    /// player then stands on the exit.
    pub proof fn lemma_move_onto_exit(self, dx: int, dy: int)
        requires
            self.wf(),
            self.target(dx, dy) == self.exit,
        ensures
            self.admits(dx, dy),
            self.step(dx, dy).at_exit(),
    {
    }

    /// One attempted move keeps the invariant: afterwards there is still
    /// exactly one `Player` cell, and it is where the player is.
    pub proof fn lemma_step_keeps_invariant(self, dx: int, dy: int)
        requires
            self.wf(),
        ensures
            self.step(dx, dy).wf(),
    {
        if self.admits(dx, dy) {
            let after = self.moved(dx, dy);
            assert forall|x: int, y: int| in_bounds(x, y) implies ((#[trigger] after.at(x, y))
                == Cell::Player <==> (x, y) == after.player) by {
                assert(self.at(x, y) == Cell::Player <==> (x, y) == self.player);
            }
            assert forall|x: int, y: int|
                in_bounds(x, y) && (#[trigger] after.at(x, y)) == Cell::Exit implies (x, y)
                == after.exit by {
                assert(self.at(x, y) == Cell::Exit ==> (x, y) == self.exit);
            }
        }
    }

    /// One attempted move leaves the exit where it is.
    pub proof fn lemma_step_keeps_exit(self, dx: int, dy: int)
        ensures
            self.step(dx, dy).exit == self.exit,
    {
    }

    /// One attempted move neither builds nor removes a wall.
    pub proof fn lemma_step_keeps_walls(self, dx: int, dy: int)
        requires
            self.wf(),
        ensures
            self.step(dx, dy).walls() == self.walls(),
    {
        if self.admits(dx, dy) {
            let after = self.moved(dx, dy);
            assert forall|p: (int, int)| after.walls().contains(p) <==> self.walls().contains(
                p,
            ) by {
                if in_bounds(p.0, p.1) {
                    assert(self.at(p.0, p.1) == Cell::Player <==> p == self.player);
                }
            }
            assert(after.walls() =~= self.walls());
        }
    }

    /// Every state that a maze reaches by attempted moves satisfies the
    /// invariant: exactly one cell is `Player`, and it is the cell on which
    /// the player stands.
    pub proof fn lemma_run_keeps_invariant(self, moves: Seq<(int, int)>)
        requires
            self.wf(),
        ensures
            self.run(moves).wf(),
        decreases moves.len(),
    {
        if moves.len() > 0 {
            self.lemma_run_keeps_invariant(moves.drop_last());
            self.run(moves.drop_last()).lemma_step_keeps_invariant(moves.last().0, moves.last().1);
        }
    }

    /// The exit stays where it is, however many moves are attempted.
    pub proof fn lemma_run_keeps_exit(self, moves: Seq<(int, int)>)
        ensures
            self.run(moves).exit == self.exit,
        decreases moves.len(),
    {
        if moves.len() > 0 {
            self.lemma_run_keeps_exit(moves.drop_last());
        }
    }

    /// The walls stay as they were generated, however many moves are
    /// attempted.
    pub proof fn lemma_run_keeps_walls(self, moves: Seq<(int, int)>)
        requires
            self.wf(),
        ensures
            self.run(moves).walls() == self.walls(),
        decreases moves.len(),
    {
        if moves.len() > 0 {
            self.lemma_run_keeps_walls(moves.drop_last());
            self.lemma_run_keeps_invariant(moves.drop_last());
            self.run(moves.drop_last()).lemma_step_keeps_walls(moves.last().0, moves.last().1);
        }
    }

    /// Whatever walls are drawn and whatever moves are attempted, the state
    /// that play reaches satisfies the invariant, and its exit is where the
    /// fresh maze had it.
    pub proof fn lemma_play_keeps_invariant(walls: Set<(int, int)>, moves: Seq<(int, int)>)
        ensures
            Self::fresh(walls).run(moves).wf(),
            Self::fresh(walls).run(moves).exit == (EXIT_X as int, EXIT_Y as int),
    {
        Self::lemma_fresh_wf(walls);
        Self::fresh(walls).lemma_run_keeps_invariant(moves);
        Self::fresh(walls).lemma_run_keeps_exit(moves);
    }
}

/// A list names finitely many positions, and no more than it is long.
pub proof fn lemma_positions_len(list: Seq<(usize, usize)>)
    ensures
        positions(list).finite(),
        positions(list).len() <= list.len(),
    decreases list.len(),
{
    if list.len() == 0 {
        assert(positions(list) =~= Set::empty());
    } else {
        let front = list.drop_last();
        let p = (list.last().0 as int, list.last().1 as int);
        lemma_positions_len(front);
        assert forall|q: (int, int)| positions(list).contains(q) <==> positions(front).insert(
            p,
        ).contains(q) by {
            if positions(front).contains(q) {
                let k = choose|k: int|
                    0 <= k < front.len() && (#[trigger] front[k]).0 == q.0 && front[k].1 == q.1;
                assert(list[k] == front[k]);
            }
            if q == p {
                assert(list[list.len() - 1].0 == q.0);
            }
            if positions(list).contains(q) {
                let k = choose|k: int|
                    0 <= k < list.len() && (#[trigger] list[k]).0 == q.0 && list[k].1 == q.1;
                if k < front.len() {
                    assert(front[k] == list[k]);
                }
            }
        }
        assert(positions(list) =~= positions(front).insert(p));
    }
}

} // verus!

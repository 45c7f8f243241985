//! The decisions of the interactive session. A front end draws the board,
//! asks [`plan`] what the frame calls for, waits for a key where it is told
//! to, and hands each key to [`handle_key`]. The waiting and the drawing are
//! the front end's; what happens to the maze is decided here.

use vstd::prelude::*;
use crate::maze::Maze;
use crate::model::MazeView;
use crate::render::WIN_TITLE;

verus! {

/// How long a frame waits for a key, in milliseconds.
pub const POLL_INTERVAL_MS: u64 = 100;

/// How long the win screen stays before the session ends, in milliseconds.
pub const WIN_DWELL_MS: u64 = 2000;

/// A key as the session sees it.
#[derive(Clone, Copy, Debug, PartialEq, Eq, Structural)]
pub enum Key {
    /// The escape key.
    Escape,
    /// A key that types a character.
    Char(char),
    /// Any other key.
    Other,
}

/// One of the four directions in which the player moves.
#[derive(Clone, Copy, Debug, PartialEq, Eq, Structural)]
pub enum Direction {
    Up,
    Down,
    Left,
    Right,
}

/// What a key asks for.
#[derive(Clone, Copy, Debug, PartialEq, Eq, Structural)]
pub enum Command {
    /// End the session.
    Quit,
    /// Try to move the player one cell in the given direction.
    Move(Direction),
    /// Nothing: the key is not bound.
    Ignore,
}

/// What a frame calls for once the board is drawn.
#[derive(Clone, Copy, Debug, PartialEq, Eq)]
pub enum Plan {
    /// The player is on the exit: show `message` as the title of an empty
    /// bordered frame, hold it for `dwell_ms` milliseconds, then end the
    /// session.
    Celebrate { message: &'static str, dwell_ms: u64 },
    /// Wait up to `poll_ms` milliseconds for a key. A key that arrives goes
    /// to [`handle_key`]; with or without one the next frame follows.
    Listen { poll_ms: u64 },
}

/// Whether the session goes on after a key.
#[derive(Clone, Copy, Debug, PartialEq, Eq, Structural)]
pub enum Flow {
    /// Go on with the next frame.
    Continue,
    /// End the session at once, without a win screen.
    Quit,
}

impl Direction {
    /// The step `(dx, dy)` of one cell in this direction. Rows are numbered
    /// from the top, so up is `dy == -1`.
    pub open spec fn spec_delta(self) -> (int, int) {
        match self {
            Direction::Up => (0, -1),
            Direction::Down => (0, 1),
            Direction::Left => (-1, 0),
            Direction::Right => (1, 0),
        }
    }

    /// The step `(dx, dy)` of one cell in this direction.
    pub fn delta(self) -> (d: (isize, isize))
        ensures
            (d.0 as int, d.1 as int) == self.spec_delta(),
    {
        match self {
            Direction::Up => (0, -1),
            Direction::Down => (0, 1),
            Direction::Left => (-1, 0),
            Direction::Right => (1, 0),
        }
    }
}

/// The key bindings: `w` is up, `s` down, `a` left, `d` right, and escape
/// quits. No other key is bound.
pub open spec fn spec_command(key: Key) -> Command {
    match key {
        Key::Escape => Command::Quit,
        Key::Char(c) => if c == 'w' {
            Command::Move(Direction::Up)
        } else if c == 's' {
            Command::Move(Direction::Down)
        } else if c == 'a' {
            Command::Move(Direction::Left)
        } else if c == 'd' {
            Command::Move(Direction::Right)
        } else {
            Command::Ignore
        },
        Key::Other => Command::Ignore,
    }
}

/// The maze after `key` was handled: a movement key attempts its move, every
/// other key leaves the maze as it is.
pub open spec fn after_key(m: MazeView, key: Key) -> MazeView {
    match spec_command(key) {
        Command::Move(direction) => m.step(direction.spec_delta().0, direction.spec_delta().1),
        _ => m,
    }
}

/// What `key` asks for, by the key bindings.
#[verifier::when_used_as_spec(spec_command)]
pub fn command(key: Key) -> (c: Command)
    ensures
        c == spec_command(key),
{
    match key {
        Key::Escape => Command::Quit,
        Key::Char('w') => Command::Move(Direction::Up),
        Key::Char('s') => Command::Move(Direction::Down),
        Key::Char('a') => Command::Move(Direction::Left),
        Key::Char('d') => Command::Move(Direction::Right),
        _ => Command::Ignore,
    }
}

/// What the frame calls for: the win screen where the player stands on the
/// exit, a wait for the next key everywhere else.
pub fn plan(maze: &Maze) -> (p: Plan)
    ensures
        match p {
            Plan::Celebrate { message, dwell_ms } => {
                &&& maze@.at_exit()
                &&& message@ == WIN_TITLE@
                &&& dwell_ms == WIN_DWELL_MS
            },
            Plan::Listen { poll_ms } => !maze@.at_exit() && poll_ms == POLL_INTERVAL_MS,
        },
{
    if maze.check_exit() {
        Plan::Celebrate { message: WIN_TITLE, dwell_ms: WIN_DWELL_MS }
    } else {
        Plan::Listen { poll_ms: POLL_INTERVAL_MS }
    }
}

/// Handles one key. Escape ends the session and leaves the maze alone. A
/// movement key attempts its move; whether the move was accepted shows in
/// the maze and nowhere else. Any other key does nothing.
pub fn handle_key(maze: &mut Maze, key: Key) -> (flow: Flow)
    ensures
        final(maze)@.wf(),
        final(maze)@ == after_key(old(maze)@, key),
        flow == if key == Key::Escape {
            Flow::Quit
        } else {
            Flow::Continue
        },
{
    proof {
        use_type_invariant(&*maze);
    }
    match command(key) {
        Command::Quit => Flow::Quit,
        Command::Move(direction) => {
            let (dx, dy) = direction.delta();
            maze.move_player(dx, dy);
            Flow::Continue
        },
        Command::Ignore => Flow::Continue,
    }
}

} // verus!

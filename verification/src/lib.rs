//! A terminal maze game: the grid model, its movement rules, the picture of a
//! frame and the decisions of the interactive session.
//!
//! The crate holds everything that can be computed without touching the
//! terminal. A front end draws the [`render::Board`] it is handed, waits for
//! keys and reports them to [`session::handle_key`].

pub mod cell;
pub mod laws;
pub mod maze;
pub mod model;
mod random;
pub mod render;
pub mod session;

pub use cell::Cell;
pub use maze::{Maze, Player};
pub use render::Board;
pub use model::{MazeView, EXIT_X, EXIT_Y, HEIGHT, START_X, START_Y, WALL_DRAWS, WIDTH};

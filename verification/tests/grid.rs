use maze_game::{Cell, Maze, Player, EXIT_X, EXIT_Y, HEIGHT, START_X, START_Y, WALL_DRAWS, WIDTH};

fn count(maze: &Maze, wanted: Cell) -> usize {
    let mut n: usize = 0;
    for y in 0..HEIGHT {
        for x in 0..WIDTH {
            if maze.cell(x, y) == Some(wanted) {
                n += 1;
            }
        }
    }
    n
}

fn open_maze() -> Maze {
    Maze::with_walls(&[])
}

#[test]
fn dimensions_and_fixed_positions() {
    assert_eq!(WIDTH, 20);
    assert_eq!(HEIGHT, 10);
    assert_eq!((START_X, START_Y), (1, 1));
    assert_eq!((EXIT_X, EXIT_Y), (18, 8));
    assert_eq!(WALL_DRAWS, 66);
}

#[test]
fn open_maze_is_empty_but_for_player_and_exit() {
    let maze = open_maze();
    assert_eq!(maze.player(), Player { x: 1, y: 1 });
    assert_eq!(maze.exit(), (18, 8));
    assert_eq!(maze.cell(1, 1), Some(Cell::Player));
    assert_eq!(maze.cell(18, 8), Some(Cell::Exit));
    assert_eq!(count(&maze, Cell::Player), 1);
    assert_eq!(count(&maze, Cell::Exit), 1);
    assert_eq!(count(&maze, Cell::Wall), 0);
    assert_eq!(count(&maze, Cell::Empty), 198);
}

#[test]
fn listed_walls_stand_where_listed() {
    let maze = Maze::with_walls(&[(2, 1), (0, 0), (19, 9), (5, 7)]);
    assert_eq!(maze.cell(2, 1), Some(Cell::Wall));
    assert_eq!(maze.cell(0, 0), Some(Cell::Wall));
    assert_eq!(maze.cell(19, 9), Some(Cell::Wall));
    assert_eq!(maze.cell(5, 7), Some(Cell::Wall));
    assert_eq!(maze.cell(7, 5), Some(Cell::Empty));
    assert_eq!(count(&maze, Cell::Wall), 4);
}

#[test]
fn a_wall_listed_twice_counts_once() {
    let maze = Maze::with_walls(&[(3, 3), (3, 3), (4, 3), (3, 3)]);
    assert_eq!(count(&maze, Cell::Wall), 2);
    assert_eq!(maze, Maze::with_walls(&[(4, 3), (3, 3)]));
}

#[test]
fn start_and_exit_are_stamped_over_walls() {
    let maze = Maze::with_walls(&[(1, 1), (18, 8), (2, 2)]);
    assert_eq!(maze.cell(1, 1), Some(Cell::Player));
    assert_eq!(maze.cell(18, 8), Some(Cell::Exit));
    assert_eq!(count(&maze, Cell::Wall), 1);
    assert_eq!(maze, Maze::with_walls(&[(2, 2)]));
}

#[test]
fn positions_outside_the_grid_name_no_cell() {
    let maze = Maze::with_walls(&[(20, 0), (0, 10), (usize::MAX, usize::MAX), (6, 6)]);
    assert_eq!(count(&maze, Cell::Wall), 1);
    assert_eq!(maze.cell(6, 6), Some(Cell::Wall));
    assert_eq!(maze.cell(20, 0), None);
    assert_eq!(maze.cell(0, 10), None);
    assert_eq!(maze.cell(19, 9), Some(Cell::Empty));
}

#[test]
fn fresh_random_maze_has_player_exit_and_bounded_walls() {
    for _ in 0..50 {
        let maze = Maze::new();
        assert_eq!(maze.player(), Player { x: 1, y: 1 });
        assert_eq!(maze.exit(), (18, 8));
        assert_eq!(maze.cell(1, 1), Some(Cell::Player));
        assert_eq!(maze.cell(18, 8), Some(Cell::Exit));
        assert_eq!(count(&maze, Cell::Player), 1);
        assert_eq!(count(&maze, Cell::Exit), 1);
        let walls: usize = count(&maze, Cell::Wall);
        assert!(walls <= 66);
        assert_eq!(count(&maze, Cell::Empty), 198 - walls);
        assert!(!maze.check_exit());
    }
}

#[test]
fn random_draws_fall_inside_the_grid() {
    // Sixty-six draws that all fell outside the grid, or all on the start
    // and the exit, would leave a maze without walls.
    for _ in 0..20 {
        let maze = Maze::new();
        assert!(count(&maze, Cell::Wall) >= 1);
    }
}

#[test]
fn random_mazes_differ() {
    let first = Maze::new();
    let mut differs = false;
    for _ in 0..20 {
        if Maze::new() != first {
            differs = true;
        }
    }
    assert!(differs);
}

#[test]
fn move_right_from_start_into_empty_cell() {
    let mut maze = open_maze();
    assert_eq!(maze.player(), Player { x: 1, y: 1 });
    assert_eq!(maze.cell(2, 1), Some(Cell::Empty));
    assert!(maze.move_player(1, 0));
    assert_eq!(maze.player(), Player { x: 2, y: 1 });
}

#[test]
fn move_right_in_random_maze_follows_the_cell() {
    for _ in 0..50 {
        let mut maze = Maze::new();
        let target = maze.cell(2, 1);
        let accepted = maze.move_player(1, 0);
        if target == Some(Cell::Wall) {
            assert!(!accepted);
            assert_eq!(maze.player(), Player { x: 1, y: 1 });
            assert_eq!(maze.cell(2, 1), Some(Cell::Wall));
        } else {
            assert_eq!(target, Some(Cell::Empty));
            assert!(accepted);
            assert_eq!(maze.player(), Player { x: 2, y: 1 });
            assert_eq!(maze.cell(1, 1), Some(Cell::Empty));
            assert_eq!(maze.cell(2, 1), Some(Cell::Player));
        }
    }
}

#[test]
fn accepted_move_swaps_the_two_markers() {
    let mut maze = Maze::with_walls(&[(5, 5)]);
    let before = Maze::with_walls(&[(5, 5)]);
    assert!(maze.move_player(0, 1));
    assert_eq!(maze.player(), Player { x: 1, y: 2 });
    assert_eq!(maze.cell(1, 1), Some(Cell::Empty));
    assert_eq!(maze.cell(1, 2), Some(Cell::Player));
    for y in 0..HEIGHT {
        for x in 0..WIDTH {
            if (x, y) != (1, 1) && (x, y) != (1, 2) {
                assert_eq!(maze.cell(x, y), before.cell(x, y));
            }
        }
    }
}

#[test]
fn move_outside_the_grid_is_rejected() {
    let mut maze = open_maze();
    assert!(maze.move_player(-1, 0));
    assert_eq!(maze.player(), Player { x: 0, y: 1 });
    let mut twin = open_maze();
    assert!(twin.move_player(-1, 0));
    assert!(!maze.move_player(-1, 0));
    assert_eq!(maze, twin);
    assert!(maze.move_player(0, -1));
    assert!(twin.move_player(0, -1));
    assert_eq!(maze.player(), Player { x: 0, y: 0 });
    assert!(!maze.move_player(0, -1));
    assert!(!maze.move_player(-1, -1));
    assert_eq!(maze, twin);
}

#[test]
fn move_past_the_far_edges_is_rejected() {
    let mut maze = open_maze();
    assert!(maze.move_player(18, 8));
    assert_eq!(maze.player(), Player { x: 19, y: 9 });
    assert!(!maze.move_player(1, 0));
    assert!(!maze.move_player(0, 1));
    assert!(!maze.move_player(1, 1));
    assert_eq!(maze.player(), Player { x: 19, y: 9 });
    assert_eq!(maze.cell(19, 9), Some(Cell::Player));
    assert_eq!(count(&maze, Cell::Player), 1);
}

#[test]
fn any_signed_delta_is_tolerated() {
    let mut maze = open_maze();
    let untouched = open_maze();
    assert!(!maze.move_player(isize::MAX, 0));
    assert!(!maze.move_player(isize::MIN, 0));
    assert!(!maze.move_player(0, isize::MAX));
    assert!(!maze.move_player(0, isize::MIN));
    assert!(!maze.move_player(isize::MIN, isize::MIN));
    assert!(!maze.move_player(isize::MAX, isize::MAX));
    assert!(!maze.move_player(-2, 0));
    assert!(!maze.move_player(0, -2));
    assert!(!maze.move_player(19, 0));
    assert!(!maze.move_player(0, 9));
    assert_eq!(maze, untouched);
    assert!(maze.move_player(3, 4));
    assert_eq!(maze.player(), Player { x: 4, y: 5 });
    assert_eq!(maze.cell(1, 1), Some(Cell::Empty));
    assert_eq!(maze.cell(4, 5), Some(Cell::Player));
}

#[test]
fn move_onto_a_wall_is_rejected() {
    let mut maze = Maze::with_walls(&[(2, 1), (1, 2)]);
    let untouched = Maze::with_walls(&[(2, 1), (1, 2)]);
    assert!(!maze.move_player(1, 0));
    assert!(!maze.move_player(0, 1));
    assert_eq!(maze, untouched);
    assert_eq!(maze.player(), Player { x: 1, y: 1 });
    assert_eq!(maze.cell(2, 1), Some(Cell::Wall));
    assert_eq!(maze.cell(1, 2), Some(Cell::Wall));
    assert_eq!(maze.cell(1, 1), Some(Cell::Player));
}

#[test]
fn zero_delta_is_accepted_and_changes_nothing() {
    let mut maze = Maze::with_walls(&[(2, 1)]);
    let untouched = Maze::with_walls(&[(2, 1)]);
    assert!(maze.move_player(0, 0));
    assert_eq!(maze, untouched);
}

#[test]
fn exactly_one_player_cell_after_every_move() {
    let mut maze = Maze::with_walls(&[(3, 1), (2, 3), (0, 2), (4, 4)]);
    let moves: [(isize, isize); 12] = [
        (1, 0),
        (1, 0),
        (0, 1),
        (0, 1),
        (-1, 0),
        (-1, 0),
        (0, -1),
        (0, -1),
        (0, -1),
        (5, 5),
        (-1, -1),
        (0, 0),
    ];
    for (dx, dy) in moves {
        maze.move_player(dx, dy);
        assert_eq!(count(&maze, Cell::Player), 1);
        let p: Player = maze.player();
        assert_eq!(maze.cell(p.x, p.y), Some(Cell::Player));
        assert!(p.x < WIDTH && p.y < HEIGHT);
    }
}

#[test]
fn exit_and_walls_stay_through_moves() {
    let walls: [(usize, usize); 5] = [(3, 1), (2, 3), (0, 2), (4, 4), (17, 8)];
    let mut maze = Maze::with_walls(&walls);
    let moves: [(isize, isize); 8] =
        [(1, 0), (1, 0), (0, 1), (-3, 0), (0, 7), (17, 0), (0, -1), (-20, 0)];
    for (dx, dy) in moves {
        maze.move_player(dx, dy);
        assert_eq!(maze.exit(), (18, 8));
        assert_eq!(count(&maze, Cell::Wall), 5);
        for (x, y) in walls {
            assert_eq!(maze.cell(x, y), Some(Cell::Wall));
        }
    }
}

#[test]
fn check_exit_only_on_the_exit() {
    let mut maze = open_maze();
    assert!(!maze.check_exit());
    assert!(maze.move_player(16, 7));
    assert_eq!(maze.player(), Player { x: 17, y: 8 });
    assert!(!maze.check_exit());
    assert!(maze.move_player(1, -1));
    assert_eq!(maze.player(), Player { x: 18, y: 7 });
    assert!(!maze.check_exit());
    assert!(maze.move_player(1, 1));
    assert_eq!(maze.player(), Player { x: 19, y: 8 });
    assert!(!maze.check_exit());
    assert!(maze.move_player(-1, 1));
    assert_eq!(maze.player(), Player { x: 18, y: 9 });
    assert!(!maze.check_exit());
    assert!(maze.move_player(0, -1));
    assert_eq!(maze.player(), Player { x: 18, y: 8 });
    assert!(maze.check_exit());
}

#[test]
fn walking_to_the_exit_wins() {
    let mut maze = open_maze();
    for _ in 0..17 {
        assert!(!maze.check_exit());
        assert!(maze.move_player(1, 0));
    }
    for _ in 0..7 {
        assert!(!maze.check_exit());
        assert!(maze.move_player(0, 1));
    }
    assert_eq!(maze.player(), Player { x: 18, y: 8 });
    assert_eq!(maze.exit(), (18, 8));
    assert!(maze.check_exit());
    assert_eq!(maze.cell(18, 8), Some(Cell::Player));
}

#[test]
fn the_exit_is_no_obstacle_and_keeps_its_position_when_left() {
    let mut maze = open_maze();
    assert!(maze.move_player(17, 6));
    assert_eq!(maze.cell(18, 8), Some(Cell::Exit));
    assert!(maze.move_player(0, 1));
    assert!(maze.check_exit());
    assert!(maze.move_player(-1, 0));
    assert!(!maze.check_exit());
    assert_eq!(maze.exit(), (18, 8));
    assert_eq!(maze.cell(18, 8), Some(Cell::Empty));
    assert_eq!(count(&maze, Cell::Exit), 0);
    assert!(maze.move_player(1, 0));
    assert!(maze.check_exit());
}

#[test]
fn cell_outside_the_grid_is_none() {
    let maze = open_maze();
    assert_eq!(maze.cell(19, 9), Some(Cell::Empty));
    assert_eq!(maze.cell(20, 9), None);
    assert_eq!(maze.cell(19, 10), None);
    assert_eq!(maze.cell(usize::MAX, 0), None);
}

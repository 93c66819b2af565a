use snake_game::direction::Direction;
use snake_game::grid::{Cell, Grid};
use snake_game::position::Position;
use snake_game::snake::{Snake, Status};

fn snake_cells(grid: &Grid) -> Vec<usize> {
    (0..grid.size()).filter(|i| grid[*i] == Cell::Snake).collect()
}

fn segment_cells(snake: &Snake, grid: &Grid) -> Vec<usize> {
    let mut cells: Vec<usize> =
        snake.segments().iter().map(|p| p.y * grid.width() + p.x).collect();
    cells.sort();
    cells
}

/// A grid with the snake's first cell marked, as a game has it.
fn grid_with_snake_at(origin: &Position) -> Grid {
    let mut grid = Grid::new();
    let width = grid.width();
    grid.set(origin.y * width + origin.x, Cell::Snake);
    grid
}

#[test]
fn a_new_snake_has_one_segment_and_heads_up() {
    let snake = Snake::new(Position { x: 7, y: 3 });
    assert_eq!(snake.len(), 1);
    assert_eq!(snake.head(), Position { x: 7, y: 3 });
    assert_eq!(snake.segments(), vec![Position { x: 7, y: 3 }]);
    assert_eq!(snake.dir(), Direction::Up);
    assert_eq!(snake.status(), Status::Moved);
}

#[test]
fn set_dir_takes_any_heading_but_the_opposite() {
    let mut snake = Snake::new(Position { x: 7, y: 3 });
    snake.set_dir(Direction::Down);
    assert_eq!(snake.dir(), Direction::Up);
    snake.set_dir(Direction::Up);
    assert_eq!(snake.dir(), Direction::Up);
    snake.set_dir(Direction::Left);
    assert_eq!(snake.dir(), Direction::Left);
    snake.set_dir(Direction::Right);
    assert_eq!(snake.dir(), Direction::Left);
    snake.set_dir(Direction::Down);
    assert_eq!(snake.dir(), Direction::Down);
    snake.set_dir(Direction::Up);
    assert_eq!(snake.dir(), Direction::Down);
    snake.set_dir(Direction::Right);
    assert_eq!(snake.dir(), Direction::Right);
    snake.set_dir(Direction::Left);
    assert_eq!(snake.dir(), Direction::Right);
}

#[test]
fn set_dir_is_refused_exactly_for_the_opposite_heading() {
    let all = [Direction::Left, Direction::Down, Direction::Up, Direction::Right];
    for first in all {
        for second in all {
            let mut snake = Snake::new(Position { x: 7, y: 3 });
            snake.set_dir(Direction::Left);
            snake.set_dir(first);
            let heading = snake.dir();
            snake.set_dir(second);
            if second == heading.opposite() {
                assert_eq!(snake.dir(), heading);
            } else {
                assert_eq!(snake.dir(), second);
            }
            assert_eq!(snake.len(), 1);
            assert_eq!(snake.status(), Status::Moved);
        }
    }
}

#[test]
fn a_snake_in_the_first_column_that_heads_left_dies() {
    for k in 0..20 {
        let origin = Position { x: 0, y: k };
        let mut grid = grid_with_snake_at(&origin);
        let mut snake = Snake::new(origin);
        snake.set_dir(Direction::Left);
        assert_eq!(snake.update(&mut grid), &Status::Died);
        assert_eq!(snake.status(), Status::Died);
        assert_eq!(snake.segments(), vec![Position { x: 0, y: k }]);
        assert_eq!(snake_cells(&grid), vec![k * 36]);
    }
}

#[test]
fn a_snake_dies_at_each_wall() {
    let mut grid = Grid::new();
    let mut snake = Snake::new(Position { x: 35, y: 7 });
    snake.set_dir(Direction::Right);
    assert_eq!(snake.update(&mut grid), &Status::Died);

    let mut snake = Snake::new(Position { x: 12, y: 19 });
    snake.set_dir(Direction::Left);
    snake.set_dir(Direction::Down);
    assert_eq!(snake.update(&mut grid), &Status::Died);

    let mut snake = Snake::new(Position { x: 12, y: 0 });
    assert_eq!(snake.update(&mut grid), &Status::Died);
    assert_eq!(snake_cells(&grid), Vec::<usize>::new());
}

#[test]
fn a_snake_dies_at_the_walls_of_a_small_grid() {
    let mut grid = Grid::with_size(2, 2).unwrap();
    let mut snake = Snake::new(Position { x: 0, y: 1 });
    assert_eq!(snake.update(&mut grid), &Status::Moved);
    snake.set_dir(Direction::Right);
    assert_eq!(snake.update(&mut grid), &Status::Moved);
    assert_eq!(snake.head(), Position { x: 1, y: 0 });
    assert_eq!(snake.update(&mut grid), &Status::Died);
    assert_eq!(snake.head(), Position { x: 1, y: 0 });
}

#[test]
fn a_dead_snake_stays_dead() {
    let origin = Position { x: 4, y: 0 };
    let mut grid = grid_with_snake_at(&origin);
    let mut snake = Snake::new(origin);
    assert_eq!(snake.update(&mut grid), &Status::Died);
    snake.set_dir(Direction::Left);
    let before = grid.render();
    assert_eq!(snake.update(&mut grid), &Status::Died);
    assert_eq!(snake.update(&mut grid), &Status::Died);
    assert_eq!(snake.segments(), vec![Position { x: 4, y: 0 }]);
    assert_eq!(grid.render(), before);
}

#[test]
fn a_move_marks_the_new_cell_and_clears_the_old_one() {
    let origin = Position { x: 5, y: 5 };
    let mut grid = grid_with_snake_at(&origin);
    let mut snake = Snake::new(origin);
    assert_eq!(snake.update(&mut grid), &Status::Moved);
    assert_eq!(snake.segments(), vec![Position { x: 5, y: 4 }]);
    assert_eq!(grid[5 * 36 + 5], Cell::Empty);
    assert_eq!(grid[4 * 36 + 5], Cell::Snake);
    assert_eq!(snake_cells(&grid), vec![4 * 36 + 5]);
}

#[test]
fn a_snake_that_eats_grows_on_the_tick_after() {
    let origin = Position { x: 5, y: 5 };
    let mut grid = grid_with_snake_at(&origin);
    grid.set(4 * 36 + 5, Cell::Apple);
    let mut snake = Snake::new(origin);

    assert_eq!(snake.update(&mut grid), &Status::Ate);
    assert_eq!(snake.len(), 1);
    assert_eq!(snake.segments(), vec![Position { x: 5, y: 4 }]);
    assert_eq!(grid[4 * 36 + 5], Cell::Snake);
    assert_eq!(grid[5 * 36 + 5], Cell::Empty);

    assert_eq!(snake.update(&mut grid), &Status::Moved);
    assert_eq!(snake.len(), 2);
    assert_eq!(snake.segments(), vec![Position { x: 5, y: 3 }, Position { x: 5, y: 4 }]);
    assert_eq!(snake_cells(&grid), vec![3 * 36 + 5, 4 * 36 + 5]);

    assert_eq!(snake.update(&mut grid), &Status::Moved);
    assert_eq!(snake.len(), 2);
    assert_eq!(snake.segments(), vec![Position { x: 5, y: 2 }, Position { x: 5, y: 3 }]);
    assert_eq!(snake_cells(&grid), vec![2 * 36 + 5, 3 * 36 + 5]);
}

#[test]
fn a_snake_grows_after_a_meal_whichever_way_it_turns() {
    for turn in [Direction::Left, Direction::Up, Direction::Right] {
        let origin = Position { x: 5, y: 5 };
        let mut grid = grid_with_snake_at(&origin);
        grid.set(4 * 36 + 5, Cell::Apple);
        let mut snake = Snake::new(origin);
        assert_eq!(snake.update(&mut grid), &Status::Ate);
        assert_eq!(snake.len(), 1);
        snake.set_dir(turn);
        assert_eq!(snake.update(&mut grid), &Status::Moved);
        assert_eq!(snake.len(), 2);
        assert_eq!(snake.segments()[1], Position { x: 5, y: 4 });
    }
}

#[test]
fn a_snake_that_eats_twice_in_a_row_grows_twice() {
    let origin = Position { x: 1, y: 4 };
    let mut grid = grid_with_snake_at(&origin);
    grid.set(2 * 36 + 1, Cell::Apple);
    grid.set(3 * 36 + 1, Cell::Apple);
    let mut snake = Snake::new(origin);
    assert_eq!(snake.update(&mut grid), &Status::Ate);
    assert_eq!(snake.len(), 1);
    assert_eq!(snake.update(&mut grid), &Status::Ate);
    assert_eq!(snake.len(), 2);
    assert_eq!(snake.update(&mut grid), &Status::Moved);
    assert_eq!(snake.len(), 3);
    assert_eq!(
        snake.segments(),
        vec![Position { x: 1, y: 1 }, Position { x: 1, y: 2 }, Position { x: 1, y: 3 }]
    );
}

#[test]
fn a_meal_right_before_death_is_lost() {
    let origin = Position { x: 3, y: 1 };
    let mut grid = grid_with_snake_at(&origin);
    grid.set(3, Cell::Apple);
    let mut snake = Snake::new(origin);
    assert_eq!(snake.update(&mut grid), &Status::Ate);
    assert_eq!(snake.update(&mut grid), &Status::Died);
    assert_eq!(snake.len(), 1);
    assert_eq!(snake.segments(), vec![Position { x: 3, y: 0 }]);
}

#[test]
fn the_snake_has_one_segment_more_for_each_meal() {
    let origin = Position { x: 2, y: 18 };
    let mut grid = grid_with_snake_at(&origin);
    for y in [16, 13, 12, 9, 4] {
        grid.set(y * 36 + 2, Cell::Apple);
    }
    let mut snake = Snake::new(origin);
    let mut meals = 0;
    for tick in 1..=18 {
        let owed = if snake.status() == Status::Ate { 1 } else { 0 };
        let before = snake.len();
        let status = *snake.update(&mut grid);
        assert_ne!(status, Status::Died);
        assert_eq!(snake.len(), before + owed);
        if status == Status::Ate {
            meals += 1;
        }
        let still_owed = if status == Status::Ate { 1 } else { 0 };
        assert_eq!(snake.len() + still_owed, 1 + meals);
        assert_eq!(snake.head(), Position { x: 2, y: 18 - tick });
    }
    assert_eq!(meals, 5);
    assert_eq!(snake.status(), Status::Moved);
    assert_eq!(snake.len(), 6);
}

#[test]
fn the_cells_that_hold_the_snake_are_the_cells_of_its_segments() {
    let origin = Position { x: 10, y: 10 };
    let mut grid = grid_with_snake_at(&origin);
    for (x, y) in [(10, 9), (10, 7), (11, 6), (13, 6), (13, 8), (12, 9)] {
        grid.set(y * 36 + x, Cell::Apple);
    }
    let mut snake = Snake::new(origin);
    let turns = [
        Direction::Up, Direction::Up, Direction::Up, Direction::Up,
        Direction::Right, Direction::Right, Direction::Right,
        Direction::Down, Direction::Down, Direction::Down,
        Direction::Left, Direction::Left,
        Direction::Up, Direction::Right, Direction::Right,
    ];
    assert_eq!(snake_cells(&grid), segment_cells(&snake, &grid));
    for turn in turns {
        snake.set_dir(turn);
        snake.update(&mut grid);
        assert_eq!(snake_cells(&grid), segment_cells(&snake, &grid));
        let mut cells = segment_cells(&snake, &grid);
        cells.dedup();
        assert_eq!(cells.len(), snake.len());
    }
    assert_eq!(snake.status(), Status::Died);
    assert_eq!(snake.len(), 7);
    assert_eq!(snake.head(), Position { x: 12, y: 8 });
}

#[test]
fn a_snake_that_runs_into_its_body_dies() {
    let origin = Position { x: 5, y: 9 };
    let mut grid = grid_with_snake_at(&origin);
    for y in 4..9 {
        grid.set(y * 36 + 5, Cell::Apple);
    }
    let mut snake = Snake::new(origin);
    for _ in 0..6 {
        assert_ne!(snake.update(&mut grid), &Status::Died);
    }
    assert_eq!(snake.len(), 6);
    snake.set_dir(Direction::Right);
    assert_eq!(snake.update(&mut grid), &Status::Moved);
    assert_eq!(snake.len(), 6);
    snake.set_dir(Direction::Down);
    assert_eq!(snake.update(&mut grid), &Status::Moved);
    snake.set_dir(Direction::Left);
    let before = snake.segments();
    let cells = snake_cells(&grid);
    assert_eq!(snake.update(&mut grid), &Status::Died);
    assert_eq!(snake.segments(), before);
    assert_eq!(snake_cells(&grid), cells);
}

#[test]
fn the_head_may_not_enter_the_cell_that_the_tail_is_about_to_leave() {
    let origin = Position { x: 5, y: 9 };
    let mut grid = grid_with_snake_at(&origin);
    for y in 6..9 {
        grid.set(y * 36 + 5, Cell::Apple);
    }
    let mut snake = Snake::new(origin);
    for _ in 0..4 {
        snake.update(&mut grid);
    }
    assert_eq!(snake.len(), 4);
    snake.set_dir(Direction::Right);
    assert_eq!(snake.update(&mut grid), &Status::Moved);
    assert_eq!(snake.len(), 4);
    snake.set_dir(Direction::Down);
    assert_eq!(snake.update(&mut grid), &Status::Moved);
    snake.set_dir(Direction::Left);
    assert_eq!(
        snake.segments(),
        vec![
            Position { x: 6, y: 6 },
            Position { x: 6, y: 5 },
            Position { x: 5, y: 5 },
            Position { x: 5, y: 6 },
        ]
    );
    assert_eq!(snake.update(&mut grid), &Status::Died);
}

#[test]
fn eating_leaves_the_other_apples_where_they_are() {
    let origin = Position { x: 5, y: 5 };
    let mut grid = Grid::new();
    grid.set(4 * 36 + 5, Cell::Apple);
    grid.set(8 * 36 + 8, Cell::Apple);
    let mut snake = Snake::new(origin);
    assert_eq!(snake.update(&mut grid), &Status::Ate);
    assert_eq!(grid[8 * 36 + 8], Cell::Apple);
    assert_eq!(grid[4 * 36 + 5], Cell::Snake);
}

#[test]
fn lies_in_tells_whether_the_snake_is_on_the_grid() {
    let grid = Grid::new();
    assert!(Snake::new(Position { x: 0, y: 0 }).lies_in(&grid));
    assert!(Snake::new(Position { x: 35, y: 19 }).lies_in(&grid));
    assert!(!Snake::new(Position { x: 36, y: 19 }).lies_in(&grid));
    assert!(!Snake::new(Position { x: 35, y: 20 }).lies_in(&grid));
    let small = Grid::with_size(3, 2).unwrap();
    assert!(Snake::new(Position { x: 2, y: 1 }).lies_in(&small));
    assert!(!Snake::new(Position { x: 3, y: 1 }).lies_in(&small));
    assert!(!Snake::new(Position { x: 2, y: 2 }).lies_in(&small));
}

#[test]
fn a_snake_that_lies_in_the_grid_stays_in_it() {
    let origin = Position { x: 1, y: 1 };
    let mut grid = Grid::with_size(3, 3).unwrap();
    grid.set(4, Cell::Snake);
    let mut snake = Snake::new(origin);
    let turns = [
        Direction::Up, Direction::Right, Direction::Down, Direction::Down, Direction::Left,
        Direction::Left, Direction::Left, Direction::Up,
    ];
    for turn in turns {
        snake.set_dir(turn);
        snake.update(&mut grid);
        assert!(snake.lies_in(&grid));
    }
    assert_eq!(snake.status(), Status::Died);
    assert_eq!(snake.head(), Position { x: 0, y: 2 });
}

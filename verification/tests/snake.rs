use snake_game::direction::Direction;
use snake_game::grid::{Cell, Grid};
use snake_game::position::Position;
use snake_game::snake::{Snake, Status};

#[test]
fn test_update_if_crossing_the_top_edge_then_dies() {
    let origin = Position { x: 2, y: 0 };
    let mut snake = Snake::new(origin);

    assert_eq!(snake.update(&mut Grid::new()), &Status::Died);
}

#[test]
fn test_update_if_encountered_apple_then_returns_ate() {
    let origin = Position { x: 2, y: 2 };
    let mut grid = Grid::new();
    let width = grid.width();
    grid.set(1*width + 2, Cell::Apple);
    let mut snake = Snake::new(origin);

    assert_eq!(snake.update(&mut grid), &Status::Ate);
}

#[test]
fn test_update_if_no_obstacles_then_moves() {
    let origin = Position { x: 2, y: 11 };
    let mut snake = Snake::new(origin);

    assert_eq!(snake.update(&mut Grid::new()), &Status::Moved);
}

#[test]
fn test_update_if_moves_constantly_in_one_dir_then_dies_eventually() {
    let origin = Position { x: 4, y: 4 };
    let mut grid = Grid::new();
    let mut snake = Snake::new(origin);

    for _ in 0..4 {
        snake.update(&mut grid);
    }

    assert_eq!(snake.update(&mut grid), &Status::Died);
}

#[test]
fn test_set_dir() {
    let origin = Position { x: 2, y: 0 };
    let mut grid = Grid::new();
    let mut snake = Snake::new(origin);

    snake.set_dir(Direction::Left);

    assert_eq!(snake.update(&mut grid), &Status::Moved);
}

#[test]
fn test_update_if_moved_then_the_grid_is_updated_correctly() {
    let origin = Position { x: 1, y: 2 };
    let mut grid = Grid::new();
    let width = grid.width();
    grid.set(6*width + 6, Cell::Apple);
    let mut snake = Snake::new(origin);
    snake.update(&mut grid);

    let expected = "\
┌───────────────────────────────────────────────────────────────────────┐
│ ┌─┐                                                                   │
│ └─┘                                                                   │
│                                                                       │
│                                                                       │
│                                                                       │
│           ┌─┐                                                         │
│           └─┘                                                         │
│                                                                       │
│                                                                       │
│                                                                       │
│                                                                       │
│                                                                       │
│                                                                       │
│                                                                       │
│                                                                       │
│                                                                       │
│                                                                       │
│                                                                       │
│                                                                       │
└───────────────────────────────────────────────────────────────────────┘
";
    assert_eq!(grid.render(), expected);
}

#[test]
fn test_update_if_ate_apples_then_the_grid_is_updated_correctly() {
    let origin = Position { x: 1, y: 3 };
    let mut grid = Grid::new();
    let width = grid.width();
    grid.set(1*width + 1, Cell::Apple);
    let mut snake = Snake::new(origin);

    snake.update(&mut grid); // (1, 2)
    snake.update(&mut grid); // (1, 1)
    let width = grid.width();
    grid.set(1*width + 2, Cell::Apple);
    snake.set_dir(Direction::Right);
    snake.update(&mut grid); // (2, 1)
    snake.set_dir(Direction::Down);
    snake.update(&mut grid); // (2, 2)

    let expected = "\
┌───────────────────────────────────────────────────────────────────────┐
│ ┌─┬─┐                                                                 │
│ └─┼─┤                                                                 │
│   └─┘                                                                 │
│                                                                       │
│                                                                       │
│                                                                       │
│                                                                       │
│                                                                       │
│                                                                       │
│                                                                       │
│                                                                       │
│                                                                       │
│                                                                       │
│                                                                       │
│                                                                       │
│                                                                       │
│                                                                       │
│                                                                       │
│                                                                       │
└───────────────────────────────────────────────────────────────────────┘
";
    assert_eq!(grid.render(), expected);
}

#[test]
fn test_update_if_collided_with_itself_then_dies() {
    let origin = Position { x: 1, y: 18 };
    let oy = origin.y;
    let mut grid = Grid::new();
    let width = grid.width();
    for y in (1..18).step_by(2) {
        grid.set(y*width + 1, Cell::Apple);
    }
    let mut snake = Snake::new(origin);

    for _ in 1..oy {
        snake.update(&mut grid);
    }

    snake.set_dir(Direction::Right);
    snake.update(&mut grid);
    snake.update(&mut grid);

    snake.set_dir(Direction::Down);
    snake.update(&mut grid);
    snake.update(&mut grid);

    snake.set_dir(Direction::Left);
    snake.update(&mut grid);

    assert_eq!(snake.update(&mut grid), &Status::Died);
}

#[test]
fn test_update_when_snake_eats_second_time_in_a_row() {
    let origin = Position { x: 1, y: 4 };
    let mut grid = Grid::new();
    let width = grid.width();
    grid.set(2*width + 1, Cell::Apple);
    grid.set(3*width + 1, Cell::Apple);
    let mut snake = Snake::new(origin);

    for _ in 0..3 {
        snake.update(&mut grid);
    }

    let expected = "\
┌───────────────────────────────────────────────────────────────────────┐
│ ┌─┐                                                                   │
│ ├─┤                                                                   │
│ ├─┤                                                                   │
│ └─┘                                                                   │
│                                                                       │
│                                                                       │
│                                                                       │
│                                                                       │
│                                                                       │
│                                                                       │
│                                                                       │
│                                                                       │
│                                                                       │
│                                                                       │
│                                                                       │
│                                                                       │
│                                                                       │
│                                                                       │
│                                                                       │
└───────────────────────────────────────────────────────────────────────┘
";
    assert_eq!(grid.render(), expected);
}

//! The core of a terminal snake game: a grid of cells drawn as box-drawing
//! line art, and the snake that moves, eats and dies on it.
//!
//! * [`direction`] and [`position`]: the four headings and the cells of the
//!   grid.
//! * [`bitmap`]: the pattern of one lattice point and its glyph.
//! * [`grid`]: the cells, their text, and where the food goes.
//! * [`snake`]: the chain of segments and what one tick does to it.
//! * [`run`]: what many ticks do to the length of the snake.
//! * [`game`]: grid, snake and food together, the player's keys, and the
//!   layout of the screen.

pub mod bitmap;
pub mod direction;
pub mod game;
pub mod grid;
pub mod position;
pub mod run;
pub mod snake;

//! Positions on the grid.

use crate::direction::Direction;
use vstd::prelude::*;

verus! {

/// The column `x` and the row `y` of a cell, both counted from 0.
#[derive(Debug, Clone, Copy, PartialEq, Eq, Structural)]
pub struct Position {
    pub x: usize,
    pub y: usize,
}

impl Position {
    /// The column and the row that lie one step in direction `dir` from
    /// here. They may lie beyond what a position can hold.
    pub open spec fn moved(self, dir: Direction) -> (int, int) {
        (self.x + dir.offset().0, self.y + dir.offset().1)
    }

    /// Whether a position can hold the given column and row.
    pub open spec fn representable(x: int, y: int) -> bool {
        0 <= x <= usize::MAX && 0 <= y <= usize::MAX
    }

    /// The position one step in direction `dir` from here. There is none
    /// where the step would leave the range of positions: to the left of
    /// column 0, above row 0, or beyond the last column or row that a
    /// `usize` can count.
    pub fn move_in_direction(&self, dir: &Direction) -> (r: Result<Position, ()>)
        ensures
            r.is_ok() == Position::representable(self.moved(*dir).0, self.moved(*dir).1),
            r matches Ok(p) ==> (p.x as int, p.y as int) == self.moved(*dir),
    {
        let (x, y): (usize, usize) = match dir {
            Direction::Left => {
                if self.x == 0 {
                    return Err(());
                }
                (self.x - 1, self.y)
            },
            Direction::Down => {
                if self.y == usize::MAX {
                    return Err(());
                }
                (self.x, self.y + 1)
            },
            Direction::Up => {
                if self.y == 0 {
                    return Err(());
                }
                (self.x, self.y - 1)
            },
            Direction::Right => {
                if self.x == usize::MAX {
                    return Err(());
                }
                (self.x + 1, self.y)
            },
        };

        Ok(Position { x, y })
    }
}

} // verus!

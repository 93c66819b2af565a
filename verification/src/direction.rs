//! The four headings of the snake.

use vstd::prelude::*;

verus! {

/// A cardinal direction on the grid. `Up` points towards row 0, `Left`
/// towards column 0.
#[derive(Debug, Clone, Copy, PartialEq, Eq, Structural)]
pub enum Direction {
    Left,
    Down,
    Up,
    Right,
}

impl Direction {
    /// The direction that points the other way.
    pub open spec fn spec_opposite(self) -> Direction {
        match self {
            Direction::Left => Direction::Right,
            Direction::Down => Direction::Up,
            Direction::Up => Direction::Down,
            Direction::Right => Direction::Left,
        }
    }

    /// The step that one move in this direction makes, as `(dx, dy)`.
    pub open spec fn offset(self) -> (int, int) {
        match self {
            Direction::Left => (-1, 0),
            Direction::Down => (0, 1),
            Direction::Up => (0, -1),
            Direction::Right => (1, 0),
        }
    }

    /// The direction that points the other way.
    #[verifier::when_used_as_spec(spec_opposite)]
    pub fn opposite(self) -> (r: Direction)
        ensures
            r == self.spec_opposite(),
    {
        match self {
            Direction::Left => Direction::Right,
            Direction::Down => Direction::Up,
            Direction::Up => Direction::Down,
            Direction::Right => Direction::Left,
        }
    }
}

/// Whether `dir2` points exactly the other way than `dir1`.
pub fn are_opposite(dir1: &Direction, dir2: &Direction) -> (r: bool)
    ensures
        r == (*dir2 == dir1.opposite()),
{
    match dir1 {
        Direction::Left => *dir2 == Direction::Right,
        Direction::Down => *dir2 == Direction::Up,
        Direction::Up => *dir2 == Direction::Down,
        Direction::Right => *dir2 == Direction::Left,
    }
}

/// Every direction is opposite to its opposite, and to no other direction:
/// `d` and `e` are opposite exactly when `e` is `d.opposite()`, which holds
/// exactly when their offsets cancel out.
pub proof fn lemma_opposite(d: Direction, e: Direction)
    ensures
        d.opposite().opposite() == d,
        d.opposite() != d,
        (e == d.opposite()) <==> (d == e.opposite()),
        (e == d.opposite()) <==> (d.offset().0 + e.offset().0 == 0 && d.offset().1 + e.offset().1
            == 0),
{
}

} // verus!

//! The snake: a chain of positions that moves over the grid one step per
//! tick, grows after it has eaten and dies when it runs into a wall or into
//! itself.

use crate::direction::{are_opposite, Direction};
use crate::grid::{
    lemma_count_with_cell, lemma_fits, lemma_offset, lemma_with_food, Cell, Grid, GridView,
};
use crate::position::Position;
use vstd::prelude::*;

verus! {

/// How the last tick ended for the snake.
#[derive(Debug, Clone, Copy, PartialEq, Eq, Structural)]
pub enum Status {
    /// The head entered a cell with an apple. The snake grows on its next
    /// move.
    Ate,
    /// The snake ran into a wall or into itself. It stays dead.
    Died,
    /// The head entered an empty cell.
    Moved,
}

/// A snake as a mathematical value.
pub struct SnakeView {
    /// The heading.
    pub dir: Direction,
    /// The positions of the segments, from the head to the tail.
    pub segments: Seq<Position>,
    /// How the last tick ended.
    pub status: Status,
}

impl SnakeView {
    /// A snake has a head.
    pub open spec fn wf(self) -> bool {
        self.segments.len() >= 1
    }

    /// The snake that has just been put on `origin`: one segment, heading
    /// up.
    pub open spec fn fresh(origin: Position) -> SnakeView {
        SnakeView { dir: Direction::Up, segments: seq![origin], status: Status::Moved }
    }

    /// The position of the head.
    pub open spec fn head(self) -> Position {
        self.segments[0]
    }

    /// The position of the last segment.
    pub open spec fn tail(self) -> Position {
        self.segments.last()
    }

    /// Whether every segment lies in the grid.
    pub open spec fn within(self, g: GridView) -> bool {
        forall|i: int|
            0 <= i < self.segments.len() ==> g.inside(
                (#[trigger] self.segments[i]).x as int,
                self.segments[i].y as int,
            )
    }

    /// Whether some segment lies in column `x` of row `y`.
    pub open spec fn covers(self, x: int, y: int) -> bool {
        exists|i: int|
            0 <= i < self.segments.len() && (#[trigger] self.segments[i]).x == x
                && self.segments[i].y == y
    }

    /// Whether no two segments lie on the same cell.
    pub open spec fn distinct(self) -> bool {
        forall|i: int, j: int|
            0 <= i < j < self.segments.len() ==> self.segments[i] != self.segments[j]
    }

    /// Whether the cells of `g` that hold the snake are exactly the cells
    /// that the segments lie on.
    pub open spec fn marked(self, g: GridView) -> bool {
        forall|x: int, y: int|
            g.inside(x, y) ==> ((#[trigger] g.at(x, y)) == Cell::Snake <==> self.covers(x, y))
    }

    /// Whether the snake and the grid `g` agree: the snake lies in the grid,
    /// on as many cells as it has segments, and those are the cells of the
    /// grid that hold the snake.
    pub open spec fn consistent(self, g: GridView) -> bool {
        &&& self.wf()
        &&& self.within(g)
        &&& self.distinct()
        &&& self.marked(g)
    }

    /// The snake after the player has asked for the heading `dir`: a snake
    /// does not turn round on the spot, any other heading it takes.
    pub open spec fn turned(self, dir: Direction) -> SnakeView {
        if dir == self.dir.opposite() {
            self
        } else {
            SnakeView { dir, ..self }
        }
    }

    /// The column and the row that the head is about to enter.
    pub open spec fn target(self) -> (int, int) {
        self.head().moved(self.dir)
    }

    /// Whether the next step is fatal: the head would leave the grid or
    /// enter a cell that holds a part of the snake.
    pub open spec fn blocked(self, g: GridView) -> bool {
        let (x, y) = self.target();
        !g.inside(x, y) || g.at(x, y) == Cell::Snake
    }

    /// Whether the next tick moves the snake: it is alive and its way is
    /// free.
    pub open spec fn advances(self, g: GridView) -> bool {
        self.status != Status::Died && !self.blocked(g)
    }

    /// The snake after a tick on grid `g`.
    ///
    /// A dead snake stays as it is, and so does one whose step is fatal, but
    /// for being dead now. Otherwise every segment takes the place of the
    /// one before it and the head enters its target. If the snake ate on the
    /// tick before, a new segment takes the place that the tail has left.
    /// The snake has eaten if the target held an apple.
    pub open spec fn step(self, g: GridView) -> SnakeView {
        if self.status == Status::Died {
            self
        } else if self.blocked(g) {
            SnakeView { status: Status::Died, ..self }
        } else {
            let (x, y) = self.target();
            let head = Position { x: x as usize, y: y as usize };
            let body = if self.status == Status::Ate {
                self.segments
            } else {
                self.segments.drop_last()
            };
            let status = if g.at(x, y) == Cell::Apple {
                Status::Ate
            } else {
                Status::Moved
            };
            SnakeView { dir: self.dir, segments: seq![head] + body, status }
        }
    }

    /// The grid after a tick of this snake on grid `g`.
    ///
    /// Where the snake does not move, the grid stays as it is. Otherwise the
    /// cell that the tail has left becomes empty, unless a new segment takes
    /// it, and the cell that the head has entered holds the snake.
    pub open spec fn step_grid(self, g: GridView) -> GridView {
        if !self.advances(g) {
            g
        } else {
            let (x, y) = self.target();
            let tail = self.tail();
            let cleared = if self.status == Status::Ate {
                g
            } else {
                g.with_cell(g.offset(tail.x as int, tail.y as int), Cell::Empty)
            };
            cleared.with_cell(g.offset(x, y), Cell::Snake)
        }
    }
}

/// The snake.
pub struct Snake {
    dir: Direction,
    segments: Vec<Position>,
    status: Status,
}

impl View for Snake {
    type V = SnakeView;

    closed spec fn view(&self) -> SnakeView {
        SnakeView { dir: self.dir, segments: self.segments@, status: self.status }
    }
}

impl Snake {
    /// A snake is well formed when its model is.
    pub open spec fn wf(&self) -> bool {
        self@.wf()
    }

    /// A snake of one segment on `origin`, heading up.
    pub fn new(origin: Position) -> (r: Snake)
        ensures
            r.wf(),
            r@ == SnakeView::fresh(origin),
    {
        let mut segments: Vec<Position> = Vec::new();
        segments.push(origin);
        assert(segments@ =~= seq![origin]);
        Snake { dir: Direction::Up, segments, status: Status::Moved }
    }

    /// The heading.
    pub fn dir(&self) -> (r: Direction)
        ensures
            r == self@.dir,
    {
        self.dir
    }

    /// How the last tick ended.
    pub fn status(&self) -> (r: Status)
        ensures
            r == self@.status,
    {
        self.status
    }

    /// The number of segments.
    pub fn len(&self) -> (r: usize)
        ensures
            r == self@.segments.len(),
    {
        self.segments.len()
    }

    /// The position of the head.
    pub fn head(&self) -> (r: Position)
        requires
            self.wf(),
        ensures
            r == self@.head(),
    {
        self.segments[0]
    }

    /// The positions of the segments, from the head to the tail.
    pub fn segments(&self) -> (r: Vec<Position>)
        ensures
            r@ == self@.segments,
    {
        let mut r: Vec<Position> = Vec::new();
        let mut i: usize = 0;
        while i < self.segments.len()
            invariant
                i <= self.segments@.len(),
                r@ == self.segments@.take(i as int),
            decreases self.segments@.len() - i,
        {
            r.push(self.segments[i]);
            i += 1;
            assert(r@ =~= self.segments@.take(i as int));
        }
        assert(self.segments@.take(i as int) =~= self.segments@);
        r
    }

    /// Whether every segment lies in `grid`, as [`Snake::update`] asks.
    pub fn lies_in(&self, grid: &Grid) -> (r: bool)
        ensures
            r == self@.within(grid@),
    {
        let width = grid.width();
        let height = grid.height();
        let mut i: usize = 0;
        while i < self.segments.len()
            invariant
                i <= self.segments@.len(),
                width == grid@.width,
                height == grid@.height,
                forall|j: int|
                    0 <= j < i ==> grid@.inside(
                        (#[trigger] self.segments@[j]).x as int,
                        self.segments@[j].y as int,
                    ),
            decreases self.segments@.len() - i,
        {
            if self.segments[i].x >= width || self.segments[i].y >= height {
                assert(!grid@.inside(
                    self@.segments[i as int].x as int,
                    self@.segments[i as int].y as int,
                ));
                return false;
            }
            i += 1;
        }
        true
    }

    /// Moves the snake by one tick over `grid` and says how the tick ended.
    ///
    /// The head looks at the cell in front of it before anything changes. If
    /// there is no such cell in the grid, or if it holds a part of the
    /// snake, the snake dies and nothing else changes; a dead snake stays
    /// dead. Otherwise each segment moves up to the place of the one before
    /// it, in one pass from the head to the tail, and the head takes the
    /// cell in front. The place that the tail has left is cleared, unless
    /// the snake ate on the tick before: then a new segment takes it. The
    /// snake has eaten if the cell in front held an apple.
    ///
    /// The snake has to lie in the grid: a segment outside of it has no
    /// cell.
    pub fn update(&mut self, grid: &mut Grid) -> (r: &Status)
        requires
            old(self).wf(),
            old(grid).wf(),
            old(self)@.within(old(grid)@),
        ensures
            final(self).wf(),
            final(grid).wf(),
            final(self)@ == old(self)@.step(old(grid)@),
            final(grid)@ == old(self)@.step_grid(old(grid)@),
            final(self)@.within(final(grid)@),
            old(self)@.consistent(old(grid)@) ==> final(self)@.consistent(final(grid)@),
            *r == final(self)@.status,
    {
        proof {
            if self@.consistent(grid@) {
                lemma_step_consistent(self@, grid@);
            }
        }
        if self.status == Status::Died {
            return &self.status;
        }
        let ghost before = self@;
        let ghost g = grid@;
        let curr_pos = self.segments[0];
        let new_pos = curr_pos.move_in_direction(&self.dir);
        let width = grid.width();
        let height = grid.height();

        if let Ok(head_pos) = new_pos {
            if head_pos.x >= width || head_pos.y >= height {
                self.status = Status::Died;
                return &self.status;
            }
            proof {
                lemma_fits(g);
                lemma_offset(g, head_pos.x as int, head_pos.y as int);
            }
            let entered = grid[head_pos.y * width + head_pos.x];
            if entered == Cell::Snake {
                self.status = Status::Died;
                return &self.status;
            }
            let count = self.segments.len();
            let mut carried = head_pos;
            let mut i: usize = 0;
            while i < count
                invariant
                    i <= count,
                    count == before.segments.len(),
                    self.segments@.len() == count,
                    self.dir == before.dir,
                    self.status == before.status,
                    carried == if i == 0 {
                        head_pos
                    } else {
                        before.segments[i - 1]
                    },
                    forall|j: int|
                        0 <= j < i ==> self.segments@[j] == if j == 0 {
                            head_pos
                        } else {
                            before.segments[j - 1]
                        },
                    forall|j: int| i <= j < count ==> self.segments@[j] == before.segments[j],
                decreases count - i,
            {
                let segment = self.segments[i];
                self.segments.set(i, carried);
                carried = segment;
                i += 1;
            }
            let tail_pos = carried;
            assert(tail_pos == before.tail());
            assert(self.segments@ =~= seq![head_pos] + before.segments.drop_last());

            if self.status == Status::Ate {
                self.segments.push(tail_pos);
                assert(self.segments@ =~= seq![head_pos] + before.segments);
            } else {
                proof {
                    lemma_offset(g, tail_pos.x as int, tail_pos.y as int);
                }
                grid.set(tail_pos.y * width + tail_pos.x, Cell::Empty);
            }

            if entered == Cell::Apple {
                self.status = Status::Ate;
            } else {
                self.status = Status::Moved;
            }

            grid.set(head_pos.y * width + head_pos.x, Cell::Snake);
        } else {
            self.status = Status::Died;
        }

        &self.status
    }

    /// Turns the snake towards `new_dir`, unless that is the opposite of its
    /// heading.
    pub fn set_dir(&mut self, new_dir: Direction)
        ensures
            final(self)@ == old(self)@.turned(new_dir),
    {
        if !are_opposite(&self.dir, &new_dir) {
            self.dir = new_dir;
        }
    }
}

/// A snake turns to any heading but the opposite of its own. So a request
/// for another heading than the present one leaves the heading as it is
/// exactly when it asks for the opposite.
pub proof fn lemma_turn_refused_iff_opposite(s: SnakeView, dir: Direction)
    ensures
        s.turned(dir).segments == s.segments,
        s.turned(dir).status == s.status,
        s.turned(dir).dir == if dir == s.dir.opposite() {
            s.dir
        } else {
            dir
        },
        dir != s.dir ==> (s.turned(dir).dir == s.dir <==> dir == s.dir.opposite()),
{
}

/// To turn the snake leaves the snake and the grid in agreement.
pub proof fn lemma_turn_consistent(s: SnakeView, dir: Direction, g: GridView)
    requires
        s.consistent(g),
    ensures
        s.turned(dir).consistent(g),
{
    let t = s.turned(dir);
    assert(t.segments == s.segments);
    assert forall|x: int, y: int| g.inside(x, y) implies ((#[trigger] g.at(x, y)) == Cell::Snake
        <==> t.covers(x, y)) by {
        if s.covers(x, y) {
            let i = choose|i: int|
                0 <= i < s.segments.len() && (#[trigger] s.segments[i]).x == x && s.segments[i].y
                    == y;
            assert(t.segments[i] == s.segments[i]);
        }
        if t.covers(x, y) {
            let i = choose|i: int|
                0 <= i < t.segments.len() && (#[trigger] t.segments[i]).x == x && t.segments[i].y
                    == y;
            assert(s.segments[i] == t.segments[i]);
        }
    }
}

/// A tick changes the length of the snake in one case only: a snake that has
/// eaten on the tick before, and that moves, grows by one segment. A snake
/// that eats keeps its length on that tick, unless it grows from the meal
/// before.
pub proof fn lemma_step_length(s: SnakeView, g: GridView)
    requires
        s.wf(),
    ensures
        s.step(g).wf(),
        s.step(g).segments.len() == s.segments.len() + if s.status == Status::Ate && s.advances(g) {
            1int
        } else {
            0int
        },
        s.step(g).dir == s.dir,
        s.advances(g) ==> s.step(g).status == if g.at(s.target().0, s.target().1) == Cell::Apple {
            Status::Ate
        } else {
            Status::Moved
        },
        !s.advances(g) ==> s.step(g).status == Status::Died,
{
}

/// A snake whose head lies against a wall and that heads for that wall dies
/// on the next tick, whatever the grid holds.
pub proof fn lemma_wall_is_fatal(s: SnakeView, g: GridView)
    requires
        s.wf(),
        match s.dir {
            Direction::Left => s.head().x == 0,
            Direction::Up => s.head().y == 0,
            Direction::Right => s.head().x + 1 == g.width,
            Direction::Down => s.head().y + 1 == g.height,
        },
    ensures
        s.step(g).status == Status::Died,
        s.step(g).segments == s.segments,
        s.step_grid(g) == g,
{
}

/// Two cells of a grid with the same offset are the same cell.
pub proof fn lemma_offset_injective(g: GridView, x1: int, y1: int, x2: int, y2: int)
    requires
        g.inside(x1, y1),
        g.inside(x2, y2),
        g.offset(x1, y1) == g.offset(x2, y2),
    ensures
        x1 == x2,
        y1 == y2,
{
    lemma_offset(g, x1, y1);
    lemma_offset(g, x2, y2);
}

/// A tick keeps the snake and the grid in agreement: if the cells that hold
/// the snake were the cells of its segments before the tick, they are so
/// after it. No cell keeps a mark that the snake has left, and none that it
/// has entered lacks one.
pub proof fn lemma_step_consistent(s: SnakeView, g: GridView)
    requires
        g.wf(),
        g.fits(),
        s.consistent(g),
    ensures
        s.step_grid(g).wf(),
        s.step_grid(g).fits(),
        s.step(g).consistent(s.step_grid(g)),
{
    lemma_fits(g);
    let s2 = s.step(g);
    let g2 = s.step_grid(g);
    if s.advances(g) {
        let (tx, ty) = s.target();
        let head = Position { x: tx as usize, y: ty as usize };
        let tail = s.tail();
        let grows = s.status == Status::Ate;
        let n = s.segments.len() as int;
        assert(g.inside(tx, ty));
        assert(head.x == tx && head.y == ty);
        assert(!s.covers(tx, ty));
        assert(s.segments[n - 1] == tail);
        assert(g.inside(tail.x as int, tail.y as int));
        lemma_offset(g, tx, ty);
        lemma_offset(g, tail.x as int, tail.y as int);
        assert(s2.segments.len() == if grows { n + 1 } else { n });
        assert(s2.segments[0] == head);
        assert forall|i: int| 1 <= i < s2.segments.len() implies s2.segments[i] == s.segments[i
            - 1] by {}
        assert(s2.within(g2));
        assert(s2.distinct()) by {
            assert forall|i: int, j: int| 0 <= i < j < s2.segments.len() implies s2.segments[i]
                != s2.segments[j] by {
                if i == 0 {
                    let k = j - 1;
                    assert(s2.segments[j] == s.segments[k]);
                    if s.segments[k] == head {
                        assert(s.covers(tx, ty));
                    }
                }
            }
        }
        assert(s2.marked(g2)) by {
            assert forall|x: int, y: int| g2.inside(x, y) implies ((#[trigger] g2.at(x, y))
                == Cell::Snake <==> s2.covers(x, y)) by {
                lemma_offset(g, x, y);
                let was = g.at(x, y) == Cell::Snake;
                assert(was <==> s.covers(x, y));
                if x == tx && y == ty {
                    assert(g2.at(x, y) == Cell::Snake);
                    assert(s2.segments[0].x == x && s2.segments[0].y == y);
                    assert(s2.covers(x, y));
                } else {
                    if g.offset(x, y) == g.offset(tx, ty) {
                        lemma_offset_injective(g, x, y, tx, ty);
                    }
                    if x == tail.x && y == tail.y && !grows {
                        assert(g2.at(x, y) == Cell::Empty);
                        if s2.covers(x, y) {
                            let i = choose|i: int|
                                0 <= i < s2.segments.len() && (#[trigger] s2.segments[i]).x == x
                                    && s2.segments[i].y == y;
                            assert(i >= 1);
                            assert(s2.segments[i] == s.segments[i - 1]);
                            assert(s.segments[i - 1] == s.segments[n - 1]);
                            assert(false);
                        }
                    } else {
                        if g.offset(x, y) == g.offset(tail.x as int, tail.y as int) {
                            lemma_offset_injective(g, x, y, tail.x as int, tail.y as int);
                        }
                        assert(g2.at(x, y) == g.at(x, y));
                        if s.covers(x, y) {
                            let i = choose|i: int|
                                0 <= i < s.segments.len() && (#[trigger] s.segments[i]).x == x
                                    && s.segments[i].y == y;
                            if !grows {
                                assert(i != n - 1);
                            }
                            assert(s2.segments[i + 1] == s.segments[i]);
                            assert(s2.covers(x, y));
                        }
                        if s2.covers(x, y) {
                            let i = choose|i: int|
                                0 <= i < s2.segments.len() && (#[trigger] s2.segments[i]).x == x
                                    && s2.segments[i].y == y;
                            assert(i >= 1);
                            assert(s2.segments[i] == s.segments[i - 1]);
                            assert(s.covers(x, y));
                        }
                    }
                }
            }
        }
    } else {
        assert(s2.segments == s.segments);
        assert(g2 == g);
        assert forall|x: int, y: int| s2.covers(x, y) == s.covers(x, y) by {}
    }
}

/// A tick takes an apple off the grid when the snake eats it, and changes
/// the number of apples in no other way.
pub proof fn lemma_step_apples(s: SnakeView, g: GridView)
    requires
        g.wf(),
        g.fits(),
        s.consistent(g),
    ensures
        s.step_grid(g).count(Cell::Apple) + (if s.step(g).status == Status::Ate {
            1int
        } else {
            0int
        }) == g.count(Cell::Apple),
{
    lemma_fits(g);
    if s.advances(g) {
        let (tx, ty) = s.target();
        let tail = s.tail();
        let n = s.segments.len() as int;
        let head_at = g.offset(tx, ty);
        let tail_at = g.offset(tail.x as int, tail.y as int);
        assert(s.segments[n - 1] == tail);
        assert(s.covers(tail.x as int, tail.y as int));
        assert(g.at(tail.x as int, tail.y as int) == Cell::Snake);
        lemma_offset(g, tx, ty);
        lemma_offset(g, tail.x as int, tail.y as int);
        if s.status == Status::Ate {
            lemma_count_with_cell(g, head_at, Cell::Snake, Cell::Apple);
        } else {
            let cleared = g.with_cell(tail_at, Cell::Empty);
            lemma_count_with_cell(g, tail_at, Cell::Empty, Cell::Apple);
            lemma_count_with_cell(cleared, head_at, Cell::Snake, Cell::Apple);
        }
    }
}

/// Food that is put on the grid leaves the snake and the grid in agreement.
pub proof fn lemma_food_consistent(s: SnakeView, g: GridView, pick: nat)
    requires
        g.wf(),
        s.consistent(g),
    ensures
        g.with_food(pick).wf(),
        s.consistent(g.with_food(pick)),
{
    lemma_with_food(g, pick);
    let fed = g.with_food(pick);
    if g.free() > 0 {
        let i = g.free_cell(pick % g.free());
        assert forall|x: int, y: int| fed.inside(x, y) implies ((#[trigger] fed.at(x, y))
            == Cell::Snake <==> s.covers(x, y)) by {
            lemma_offset(g, x, y);
            assert(g.at(x, y) == Cell::Snake <==> s.covers(x, y));
        }
    }
}

} // verus!

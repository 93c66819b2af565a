//! The game: a grid, the snake on it and one apple at a time. What the
//! player's keys mean, how long a frame lasts and where the grid stands on
//! the screen are decided here; to read keys, to wait and to write to the
//! terminal is left to the program that runs the game.

use crate::direction::Direction;
use crate::grid::{
    lemma_count_empty, lemma_count_with_cell, lemma_offset, lemma_with_food, Cell, Grid,
    GridView, GRID_HEIGHT, GRID_WIDTH,
};
use crate::position::Position;
use crate::snake::{
    lemma_food_consistent, lemma_step_apples, lemma_step_consistent, lemma_turn_consistent, Snake,
    SnakeView, Status,
};
use vstd::prelude::*;
use vstd::string::StringExecFns;

verus! {

/// The time from one tick to the next, in nanoseconds.
pub const FRAME_NANOS: u64 = 100_000_000;

/// What can go wrong while the game runs on a terminal.
#[derive(Debug, Clone, Copy, PartialEq, Eq, Structural)]
pub enum GameError {
    FlushScreen,
    GetTerminalSize,
    HideCursor,
    SetCursorPos,
    ShowCursor,
    SwitchIntoAlternateScreen,
    SwitchIntoRawMode,
    TerminalHeightTooSmall,
    TerminalWidthTooSmall,
}

impl GameError {
    /// The words that tell the player of the error.
    pub open spec fn text(self) -> Seq<char> {
        match self {
            GameError::FlushScreen => "Failed to flush screen"@,
            GameError::GetTerminalSize => "Failed to get terminal size"@,
            GameError::HideCursor => "Failed to hide cursor"@,
            GameError::SetCursorPos => "Failed to set cursor position"@,
            GameError::ShowCursor => "Failed to show cursor"@,
            GameError::SwitchIntoAlternateScreen => "Failed to switch into alternate screen"@,
            GameError::SwitchIntoRawMode => "Failed to switch into raw mode"@,
            GameError::TerminalHeightTooSmall => "Terminal height is too small"@,
            GameError::TerminalWidthTooSmall => "Terminal width is too small"@,
        }
    }

    /// The words that tell the player of the error.
    pub fn message(&self) -> (r: &'static str)
        ensures
            r@ == self.text(),
    {
        match self {
            GameError::FlushScreen => "Failed to flush screen",
            GameError::GetTerminalSize => "Failed to get terminal size",
            GameError::HideCursor => "Failed to hide cursor",
            GameError::SetCursorPos => "Failed to set cursor position",
            GameError::ShowCursor => "Failed to show cursor",
            GameError::SwitchIntoAlternateScreen => "Failed to switch into alternate screen",
            GameError::SwitchIntoRawMode => "Failed to switch into raw mode",
            GameError::TerminalHeightTooSmall => "Terminal height is too small",
            GameError::TerminalWidthTooSmall => "Terminal width is too small",
        }
    }
}

/// Whether the game goes on.
#[derive(Debug, Clone, Copy, PartialEq, Eq, Structural)]
pub enum State {
    Playing,
    GameOver,
}

/// A key that the player has pressed.
#[derive(Debug, Clone, Copy, PartialEq, Eq, Structural)]
pub enum Key {
    Left,
    Down,
    Up,
    Right,
    /// A key that stands for a character.
    Char(char),
    /// Any other key.
    Other,
}

/// What a key asks for.
#[derive(Debug, Clone, Copy, PartialEq, Eq, Structural)]
pub enum Command {
    /// To turn the snake.
    Turn(Direction),
    /// To end the game.
    Quit,
    /// Nothing.
    Nothing,
}

/// What `key` asks for. The arrow keys turn the snake, and so do `h`, `j`,
/// `k` and `l`, for left, down, up and right; `q` ends the game; no other
/// key means anything.
pub open spec fn command_of(key: Key) -> Command {
    match key {
        Key::Left => Command::Turn(Direction::Left),
        Key::Down => Command::Turn(Direction::Down),
        Key::Up => Command::Turn(Direction::Up),
        Key::Right => Command::Turn(Direction::Right),
        Key::Char(c) => if c == 'h' {
            Command::Turn(Direction::Left)
        } else if c == 'j' {
            Command::Turn(Direction::Down)
        } else if c == 'k' {
            Command::Turn(Direction::Up)
        } else if c == 'l' {
            Command::Turn(Direction::Right)
        } else if c == 'q' {
            Command::Quit
        } else {
            Command::Nothing
        },
        Key::Other => Command::Nothing,
    }
}

/// Whether one of `keys` asks to end the game.
pub open spec fn asks_to_quit(keys: Seq<Key>) -> bool {
    exists|i: int| 0 <= i < keys.len() && command_of(#[trigger] keys[i]) == Command::Quit
}

/// What `key` asks for.
pub fn command(key: Key) -> (r: Command)
    ensures
        r == command_of(key),
{
    match key {
        Key::Left | Key::Char('h') => Command::Turn(Direction::Left),
        Key::Down | Key::Char('j') => Command::Turn(Direction::Down),
        Key::Up | Key::Char('k') => Command::Turn(Direction::Up),
        Key::Right | Key::Char('l') => Command::Turn(Direction::Right),
        Key::Char('q') => Command::Quit,
        _ => Command::Nothing,
    }
}

/// How long to wait for the next tick when `elapsed_nanos` nanoseconds of
/// the frame have passed: the rest of the frame, or `None` if the frame is
/// over already.
pub fn frame_pause(elapsed_nanos: u128) -> (r: Option<u64>)
    ensures
        r.is_some() == (elapsed_nanos <= FRAME_NANOS),
        r matches Some(rest) ==> rest == FRAME_NANOS - elapsed_nanos,
{
    if elapsed_nanos <= FRAME_NANOS as u128 {
        Some(FRAME_NANOS - elapsed_nanos as u64)
    } else {
        None
    }
}

/// A game as a mathematical value.
pub struct GameView {
    pub grid: GridView,
    pub snake: SnakeView,
    pub points: nat,
}

impl GameView {
    /// What holds of a game at all times: its grid has 36 by 20 cells, the
    /// cells that hold the snake are the cells that its segments lie on, and
    /// at most one cell holds an apple.
    pub open spec fn wf(self) -> bool {
        &&& self.grid.wf()
        &&& self.grid.fits()
        &&& self.grid.width == GRID_WIDTH
        &&& self.grid.height == GRID_HEIGHT
        &&& self.snake.consistent(self.grid)
        &&& self.grid.count(Cell::Apple) <= 1
    }

    /// Where the snake starts: in the middle of the grid.
    pub open spec fn origin() -> Position {
        Position { x: GRID_WIDTH / 2, y: GRID_HEIGHT / 2 }
    }

    /// The game at its start: the snake has one segment, which lies in the
    /// middle of the grid, and `pick` has chosen the cell of the first
    /// apple.
    pub open spec fn start(pick: nat) -> GameView {
        let origin = GameView::origin();
        let grid = GridView::empty(GRID_WIDTH as nat, GRID_HEIGHT as nat);
        let home = grid.offset(origin.x as int, origin.y as int);
        GameView {
            grid: grid.with_cell(home, Cell::Snake).with_food(pick),
            snake: SnakeView::fresh(origin),
            points: 0,
        }
    }

    /// The game one tick later: the snake has made its step, and if it has
    /// eaten, `pick` has chosen the cell of the next apple.
    pub open spec fn tick(self, pick: nat) -> GameView {
        let snake = self.snake.step(self.grid);
        let grid = self.snake.step_grid(self.grid);
        GameView {
            grid: if snake.status == Status::Ate {
                grid.with_food(pick)
            } else {
                grid
            },
            snake,
            points: self.points,
        }
    }

    /// The game after the player has pressed `key`.
    pub open spec fn pressed(self, key: Key) -> GameView {
        match command_of(key) {
            Command::Turn(dir) => GameView { snake: self.snake.turned(dir), ..self },
            _ => self,
        }
    }

    /// The game after the player has pressed `keys`, the first of them
    /// first: each key has its turn, so that of two keys that turn the snake
    /// the later one decides, unless the snake refuses it.
    pub open spec fn pressed_all(self, keys: Seq<Key>) -> GameView
        decreases keys.len(),
    {
        if keys.len() == 0 {
            self
        } else {
            self.pressed_all(keys.drop_last()).pressed(keys.last())
        }
    }

    /// How many lines a terminal needs for the game: those of the grid and
    /// one more.
    pub open spec fn rows_needed(self) -> nat {
        self.grid.text_height() + 1
    }

    /// How many columns a terminal needs for the game: those of the grid.
    pub open spec fn columns_needed(self) -> nat {
        self.grid.text_width()
    }

    /// The line on which the grid begins when it stands in the middle of a
    /// terminal of `rows` lines, counted from 0.
    pub open spec fn top_margin(self, rows: u16) -> int {
        rows as int / 2 - self.grid.text_height() as int / 2
    }

    /// The column in which the grid begins when it stands in the middle of
    /// a terminal of `cols` columns, counted from 0.
    pub open spec fn left_margin(self, cols: u16) -> int {
        cols as int / 2 - self.grid.text_width() as int / 2
    }

    /// One line of the frame: a line break, the left margin and the text of
    /// lattice row `y`.
    pub open spec fn frame_line(self, left: int, y: int) -> Seq<char> {
        seq!['\r', '\n'] + Seq::new(left as nat, |i: int| ' ') + self.grid.row_text(y)
    }

    /// What is written to a terminal, from its first line on, to show the
    /// grid with the given margins: line breaks down to the line above the
    /// grid, and then the lines of the grid, each begun by a line break and
    /// the left margin.
    pub open spec fn frame_text(self, top: int, left: int) -> Seq<char> {
        Seq::new((top - 1) as nat, |i: int| seq!['\r', '\n']).flatten() + Seq::new(
            self.grid.text_height(),
            |y: int| self.frame_line(left, y),
        ).flatten()
    }

    /// The top and the left margin that put the grid in the middle of a
    /// terminal of `rows` lines and `cols` columns, or the error that says
    /// which way the terminal is too small. The height is looked at first.
    pub open spec fn margins(self, rows: u16, cols: u16) -> Result<(int, int), GameError> {
        if self.rows_needed() > rows {
            Err(GameError::TerminalHeightTooSmall)
        } else if self.columns_needed() > cols {
            Err(GameError::TerminalWidthTooSmall)
        } else {
            Ok((self.top_margin(rows), self.left_margin(cols)))
        }
    }

    /// What is written to a terminal of `rows` lines and `cols` columns to
    /// show the grid in its middle, or why that cannot be done.
    pub open spec fn frame(self, rows: u16, cols: u16) -> Result<Seq<char>, GameError> {
        match self.margins(rows, cols) {
            Ok((top, left)) => Ok(self.frame_text(top, left)),
            Err(e) => Err(e),
        }
    }
}

/// A tick leaves a game well formed, wherever the next apple goes: the cells
/// that hold the snake are still the cells of its segments, and still at
/// most one cell holds an apple.
pub proof fn lemma_tick_well_formed(game: GameView, pick: nat)
    requires
        game.wf(),
    ensures
        game.tick(pick).wf(),
{
    let stepped = game.snake.step_grid(game.grid);
    lemma_step_consistent(game.snake, game.grid);
    lemma_step_apples(game.snake, game.grid);
    lemma_food_consistent(game.snake.step(game.grid), stepped, pick);
    lemma_with_food(stepped, pick);
}

/// A key leaves a game well formed, whichever key it is.
pub proof fn lemma_pressed_well_formed(game: GameView, key: Key)
    requires
        game.wf(),
    ensures
        game.pressed(key).wf(),
{
    match command_of(key) {
        Command::Turn(dir) => {
            lemma_turn_consistent(game.snake, dir, game.grid);
        },
        _ => {},
    }
}

/// A game is well formed at its start, wherever the first apple goes.
pub proof fn lemma_start_well_formed(pick: nat)
    ensures
        GameView::start(pick).wf(),
{
    let origin = GameView::origin();
    let empty = GridView::empty(GRID_WIDTH as nat, GRID_HEIGHT as nat);
    let home = empty.offset(origin.x as int, origin.y as int);
    let marked = empty.with_cell(home, Cell::Snake);
    let snake = SnakeView::fresh(origin);
    lemma_offset(empty, origin.x as int, origin.y as int);
    lemma_count_empty(GRID_WIDTH as nat, GRID_HEIGHT as nat, Cell::Apple);
    lemma_count_with_cell(empty, home, Cell::Snake, Cell::Apple);
    assert forall|x: int, y: int| marked.inside(x, y) implies ((#[trigger] marked.at(x, y))
        == Cell::Snake <==> snake.covers(x, y)) by {
        lemma_offset(empty, x, y);
        if x == origin.x && y == origin.y {
            assert(snake.segments[0] == origin);
        }
    }
    assert(snake.consistent(marked));
    lemma_food_consistent(snake, marked, pick);
    lemma_with_food(marked, pick);
    let grid = GameView::start(pick).grid;
    assert(grid.width + 1 == 37 && grid.height + 1 == 21);
    assert((grid.width + 1) * (grid.height + 1) == 777) by (nonlinear_arith)
        requires
            grid.width + 1 == 37,
            grid.height + 1 == 21,
    ;
}

/// The game.
pub struct Game {
    grid: Grid,
    snake: Snake,
    points: usize,
}

impl View for Game {
    type V = GameView;

    closed spec fn view(&self) -> GameView {
        GameView { grid: self.grid@, snake: self.snake@, points: self.points as nat }
    }
}

impl Game {
    /// A game is well formed when its model is.
    pub open spec fn wf(&self) -> bool {
        self@.wf()
    }

    /// A new game. `pick` chooses the cell of the first apple among the
    /// empty cells; it is meant to be drawn at random.
    pub fn new(pick: usize) -> (r: Game)
        ensures
            r.wf(),
            r@ == GameView::start(pick as nat),
    {
        let mut grid = Grid::new();
        let width = grid.width();
        let height = grid.height();
        let origin = Position { x: width / 2, y: height / 2 };
        proof {
            lemma_start_well_formed(pick as nat);
            lemma_offset(grid@, origin.x as int, origin.y as int);
        }
        grid.set(origin.y * width + origin.x, Cell::Snake);
        let snake = Snake::new(origin);
        grid.spawn_food(pick);
        Game { grid, snake, points: 0 }
    }

    /// Plays one tick: the snake makes its step, and an apple that it has
    /// eaten is replaced by a new one in the empty cell that `pick` chooses.
    /// The game is over when the snake has died.
    pub fn update(&mut self, pick: usize) -> (r: State)
        requires
            old(self).wf(),
        ensures
            final(self).wf(),
            final(self)@ == old(self)@.tick(pick as nat),
            r == if final(self)@.snake.status == Status::Died {
                State::GameOver
            } else {
                State::Playing
            },
    {
        proof {
            lemma_tick_well_formed(self@, pick as nat);
        }
        match *self.snake.update(&mut self.grid) {
            Status::Ate => {
                self.grid.spawn_food(pick);
                State::Playing
            },
            Status::Died => State::GameOver,
            Status::Moved => State::Playing,
        }
    }

    /// Takes one key of the player: a key that turns the snake turns it,
    /// unless it asks the snake to turn round on the spot, and the key that
    /// ends the game makes `state` game over. Without such a key `state`
    /// stays as it is.
    pub fn handle_key(&mut self, key: Key, state: State) -> (r: State)
        requires
            old(self).wf(),
        ensures
            final(self).wf(),
            final(self)@ == old(self)@.pressed(key),
            r == if command_of(key) == Command::Quit {
                State::GameOver
            } else {
                state
            },
    {
        match command(key) {
            Command::Turn(dir) => {
                proof {
                    lemma_pressed_well_formed(self@, key);
                }
                self.snake.set_dir(dir);
                state
            },
            Command::Quit => State::GameOver,
            Command::Nothing => state,
        }
    }

    /// Takes the keys that the player has pressed since the last tick, the
    /// first of them first, each as [`Game::handle_key`] takes it.
    pub fn handle_keys(&mut self, keys: &Vec<Key>, state: State) -> (r: State)
        requires
            old(self).wf(),
        ensures
            final(self).wf(),
            final(self)@ == old(self)@.pressed_all(keys@),
            r == if asks_to_quit(keys@) {
                State::GameOver
            } else {
                state
            },
    {
        let ghost before = self@;
        let mut current = state;
        let mut i: usize = 0;
        while i < keys.len()
            invariant
                i <= keys@.len(),
                self.wf(),
                self@ == before.pressed_all(keys@.take(i as int)),
                current == if asks_to_quit(keys@.take(i as int)) {
                    State::GameOver
                } else {
                    state
                },
            decreases keys@.len() - i,
        {
            let ghost done = keys@.take(i as int);
            let ghost next = keys@.take(i + 1);
            current = self.handle_key(keys[i], current);
            proof {
                assert(next.drop_last() =~= done);
                assert(next.last() == keys@[i as int]);
                if asks_to_quit(done) {
                    let k = choose|k: int|
                        0 <= k < done.len() && command_of(#[trigger] done[k]) == Command::Quit;
                    assert(next[k] == done[k]);
                }
                if command_of(keys@[i as int]) == Command::Quit {
                    assert(next[i as int] == keys@[i as int]);
                }
                if asks_to_quit(next) {
                    let k = choose|k: int|
                        0 <= k < next.len() && command_of(#[trigger] next[k]) == Command::Quit;
                    if k < i {
                        assert(done[k] == next[k]);
                    }
                }
            }
            i += 1;
        }
        assert(keys@.take(i as int) =~= keys@);
        current
    }

    /// The points that the player has.
    pub fn points(&self) -> (r: usize)
        ensures
            r == self@.points,
    {
        self.points
    }

    /// The grid.
    pub fn grid(&self) -> (r: &Grid)
        ensures
            r@ == self@.grid,
    {
        &self.grid
    }

    /// The snake.
    pub fn snake(&self) -> (r: &Snake)
        ensures
            r@ == self@.snake,
    {
        &self.snake
    }

    /// The top and the left margin that put the grid in the middle of a
    /// terminal of `rows` lines and `cols` columns, or the error that says
    /// which way the terminal is too small. The height is looked at first.
    pub fn layout(&self, rows: u16, cols: u16) -> (r: Result<(usize, usize), GameError>)
        requires
            self.wf(),
        ensures
            match r {
                Ok((top, left)) => self@.margins(rows, cols) == Ok::<(int, int), GameError>(
                    (top as int, left as int),
                ) && top >= 1,
                Err(e) => self@.margins(rows, cols) == Err::<(int, int), GameError>(e),
            },
    {
        let text_height = self.grid.height_in_chars();
        let text_width = self.grid.width_in_chars();
        if text_height + 1 > rows as usize {
            return Err(GameError::TerminalHeightTooSmall);
        }
        if text_width > cols as usize {
            return Err(GameError::TerminalWidthTooSmall);
        }
        let top_margin = (rows as usize) / 2 - text_height / 2;
        let left_margin = (cols as usize) / 2 - text_width / 2;
        Ok((top_margin, left_margin))
    }

    /// What is to be written to a terminal of `rows` lines and `cols`
    /// columns, with the cursor in its first line, to show the grid in its
    /// middle.
    pub fn frame(&self, rows: u16, cols: u16) -> (r: Result<String, GameError>)
        requires
            self.wf(),
        ensures
            match (r, self@.frame(rows, cols)) {
                (Ok(text), Ok(frame)) => text@ == frame,
                (Err(e), Err(error)) => e == error,
                _ => false,
            },
    {
        let (top_margin, left_margin) = match self.layout(rows, cols) {
            Ok(margins) => margins,
            Err(e) => {
                return Err(e);
            },
        };
        let ghost g = self@;
        let ghost breaks = Seq::new((top_margin - 1) as nat, |i: int| seq!['\r', '\n']);
        let ghost lines = Seq::new(g.grid.text_height(), |y: int| g.frame_line(left_margin as int, y));
        proof {
            reveal_strlit("\r\n");
            reveal_strlit(" ");
            assert("\r\n"@ =~= seq!['\r', '\n']);
            assert(" "@ =~= seq![' ']);
        }
        let mut output = String::new();
        let mut i: usize = 1;
        assert(breaks.take(0) =~= Seq::<Seq<char>>::empty());
        while i < top_margin
            invariant
                1 <= i <= top_margin,
                breaks == Seq::new((top_margin - 1) as nat, |i: int| seq!['\r', '\n']),
                output@ == breaks.take(i - 1).flatten(),
                "\r\n"@ == seq!['\r', '\n'],
            decreases top_margin - i,
        {
            output.append("\r\n");
            proof {
                assert(breaks.take(i as int) =~= breaks.take(i - 1).push(breaks[i - 1]));
                breaks.take(i - 1).lemma_flatten_push(breaks[i - 1]);
            }
            i += 1;
        }
        assert(breaks.take(top_margin - 1) =~= breaks);

        let height = self.grid.height();
        let mut y: usize = 0;
        assert(lines.take(0) =~= Seq::<Seq<char>>::empty());
        assert(output@ =~= breaks.flatten() + lines.take(0).flatten());
        while y <= height
            invariant
                self.wf(),
                g == self@,
                height == g.grid.height,
                height < usize::MAX,
                y <= height + 1,
                lines == Seq::new(
                    g.grid.text_height(),
                    |y: int| g.frame_line(left_margin as int, y),
                ),
                output@ == breaks.flatten() + lines.take(y as int).flatten(),
                "\r\n"@ == seq!['\r', '\n'],
                " "@ == seq![' '],
            decreases height + 1 - y,
        {
            let ghost done = output@;
            output.append("\r\n");
            let mut x: usize = 0;
            while x < left_margin
                invariant
                    x <= left_margin,
                    output@ == done + seq!['\r', '\n'] + Seq::new(x as nat, |i: int| ' '),
                    " "@ == seq![' '],
                decreases left_margin - x,
            {
                output.append(" ");
                x += 1;
                assert(output@ =~= done + seq!['\r', '\n'] + Seq::new(x as nat, |i: int| ' '));
            }
            let row = self.grid.render_row(y);
            output.append(row.as_str());
            proof {
                assert(output@ =~= done + lines[y as int]);
                assert(lines.take(y + 1) =~= lines.take(y as int).push(lines[y as int]));
                lines.take(y as int).lemma_flatten_push(lines[y as int]);
                assert(output@ =~= breaks.flatten() + lines.take(y + 1).flatten());
            }
            y += 1;
        }
        assert(lines.take(y as int) =~= lines);
        Ok(output)
    }

    /// The text of the grid.
    pub fn render(&self) -> (s: String)
        requires
            self.wf(),
        ensures
            s@ == self@.grid.rendered(),
    {
        self.grid.render()
    }
}

} // verus!

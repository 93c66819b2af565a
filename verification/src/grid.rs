//! The grid of cells and its rendering as box-drawing line art.
//!
//! The cells of a grid lie between the points of a lattice that has one row
//! and one column more than the grid. A stretch of line between two
//! neighbouring lattice points is drawn when it lies on the frame around the
//! grid or when a cell beside it is occupied. Each lattice point is drawn as
//! the glyph that joins the stretches that meet in it.

use crate::bitmap::{drawable, glyph, pattern, Bitmap, State};
use core::ops::Index;
use vstd::prelude::*;
use vstd::string::StringExecFns;

verus! {

/// The width of the grid that [`Grid::new`] makes, in cells.
pub const GRID_WIDTH: usize = 36;

/// The height of the grid that [`Grid::new`] makes, in cells.
pub const GRID_HEIGHT: usize = 20;

/// What a cell of the grid holds.
#[derive(Debug, Clone, Copy, PartialEq, Eq, Structural)]
pub enum Cell {
    Empty,
    Apple,
    Snake,
}

/// A grid as a mathematical value: its dimensions and its cells row by row,
/// the cell in column `x` of row `y` at offset `y * width + x`.
pub struct GridView {
    pub width: nat,
    pub height: nat,
    pub cells: Seq<Cell>,
}

impl GridView {
    /// The grid of the given dimensions without any occupied cell.
    pub open spec fn empty(width: nat, height: nat) -> GridView {
        GridView { width, height, cells: Seq::new(width * height, |i: int| Cell::Empty) }
    }

    /// A grid has at least one cell, and as many cells as its dimensions say.
    pub open spec fn wf(self) -> bool {
        &&& self.width >= 1
        &&& self.height >= 1
        &&& self.cells.len() == self.width * self.height
    }

    /// Whether the lattice points of the grid can be counted in a `usize`,
    /// and with them its cells, rows and columns.
    pub open spec fn fits(self) -> bool {
        (self.width + 1) * (self.height + 1) <= usize::MAX
    }

    /// The number of cells.
    pub open spec fn size(self) -> nat {
        self.width * self.height
    }

    /// The cell at an offset. Beyond the last cell there are only empty
    /// cells.
    pub open spec fn cell(self, i: int) -> Cell {
        if 0 <= i < self.cells.len() {
            self.cells[i]
        } else {
            Cell::Empty
        }
    }

    /// Whether column `x` of row `y` lies in the grid.
    pub open spec fn inside(self, x: int, y: int) -> bool {
        0 <= x < self.width && 0 <= y < self.height
    }

    /// The offset of the cell in column `x` of row `y`.
    pub open spec fn offset(self, x: int, y: int) -> int {
        y * self.width + x
    }

    /// The cell in column `x` of row `y`. Outside the grid there are only
    /// empty cells.
    pub open spec fn at(self, x: int, y: int) -> Cell {
        if self.inside(x, y) {
            self.cell(self.offset(x, y))
        } else {
            Cell::Empty
        }
    }

    /// Whether column `x` of row `y` lies in the grid and is not empty.
    pub open spec fn occupied(self, x: int, y: int) -> bool {
        self.at(x, y) != Cell::Empty
    }

    /// The grid with one cell replaced.
    pub open spec fn with_cell(self, i: int, cell: Cell) -> GridView {
        GridView { cells: self.cells.update(i, cell), ..self }
    }

    /// How many of the first `n` cells hold `kind`.
    pub open spec fn count_before(self, kind: Cell, n: int) -> nat
        decreases n,
    {
        if n <= 0 {
            0
        } else {
            self.count_before(kind, n - 1) + if n <= self.cells.len() && self.cells[n - 1] == kind {
                1nat
            } else {
                0nat
            }
        }
    }

    /// How many cells hold `kind`.
    pub open spec fn count(self, kind: Cell) -> nat {
        self.count_before(kind, self.cells.len() as int)
    }

    /// How many of the first `n` cells are empty.
    pub open spec fn free_before(self, n: int) -> nat {
        self.count_before(Cell::Empty, n)
    }

    /// How many cells are empty.
    pub open spec fn free(self) -> nat {
        self.count(Cell::Empty)
    }

    /// The offset of the empty cell that has `rank` empty cells before it.
    pub open spec fn free_cell(self, rank: nat) -> int {
        choose|i: int|
            0 <= i < self.cells.len() && self.cells[i] == Cell::Empty && self.free_before(i)
                == rank
    }

    /// The grid with an apple in one of its empty cells, the one that `pick`
    /// chooses: the empty cell that has `pick` modulo the number of empty
    /// cells before it. A grid without an empty cell stays as it is.
    pub open spec fn with_food(self, pick: nat) -> GridView {
        if self.free() == 0 {
            self
        } else {
            self.with_cell(self.free_cell(pick % self.free()), Cell::Apple)
        }
    }

    /// Whether the stretch of line from lattice point `(x, y)` to
    /// `(x + 1, y)` is drawn: it lies on the top or bottom of the frame, or
    /// the cell above or below it is occupied.
    pub open spec fn h_edge(self, x: int, y: int) -> bool {
        &&& 0 <= x < self.width
        &&& 0 <= y <= self.height
        &&& (y == 0 || y == self.height || self.occupied(x, y - 1) || self.occupied(x, y))
    }

    /// Whether the stretch of line from lattice point `(x, y)` to
    /// `(x, y + 1)` is drawn: it lies on the left or right of the frame, or
    /// the cell to its left or right is occupied.
    pub open spec fn v_edge(self, x: int, y: int) -> bool {
        &&& 0 <= x <= self.width
        &&& 0 <= y < self.height
        &&& (x == 0 || x == self.width || self.occupied(x - 1, y) || self.occupied(x, y))
    }

    /// The pattern of lattice point `(x, y)`: one arm for each drawn stretch
    /// that ends in the point, and the centre if there is any.
    pub open spec fn lattice(self, x: int, y: int) -> Seq<State> {
        let top = self.v_edge(x, y - 1);
        let left = self.h_edge(x - 1, y);
        let right = self.h_edge(x, y);
        let bottom = self.v_edge(x, y);
        pattern(top, left, top || left || right || bottom, right, bottom)
    }

    /// The number of characters in each line of the text of the grid.
    pub open spec fn text_width(self) -> nat {
        2 * self.width + 1
    }

    /// The number of lines in the text of the grid.
    pub open spec fn text_height(self) -> nat {
        self.height + 1
    }

    /// The two characters that lattice point `(x, y)` is drawn as.
    pub open spec fn lattice_text(self, x: int, y: int) -> Seq<char> {
        glyph(self.lattice(x, y))
    }

    /// The character in column `c` of the text of lattice row `y`: lattice
    /// point `(x, y)` fills the columns `2 * x` and `2 * x + 1`.
    pub open spec fn text_char(self, c: int, y: int) -> char {
        self.lattice_text(c / 2, y)[c % 2]
    }

    /// The text of lattice row `y`, without the blank that would follow its
    /// last lattice point.
    pub open spec fn row_text(self, y: int) -> Seq<char> {
        Seq::new(self.text_width(), |c: int| self.text_char(c, y))
    }

    /// The text of the whole grid: the lattice rows from the top down, each
    /// followed by a line feed.
    pub open spec fn rendered(self) -> Seq<char> {
        Seq::new(self.text_height(), |y: int| self.row_text(y).push('\n')).flatten()
    }
}

/// The cells of a grid fill the offsets from 0 to its size, one each.
pub proof fn lemma_offset(g: GridView, x: int, y: int)
    requires
        g.inside(x, y),
    ensures
        0 <= y * g.width <= g.offset(x, y) < g.size(),
        g.offset(x, y) / (g.width as int) == y,
        g.offset(x, y) % (g.width as int) == x,
{
    let w = g.width as int;
    let h = g.height as int;
    assert(y * w + w <= h * w) by (nonlinear_arith)
        requires
            0 <= y < h,
            0 < w,
    ;
    assert(0 <= y * w) by (nonlinear_arith)
        requires
            0 <= y,
            0 < w,
    ;
    vstd::arithmetic::div_mod::lemma_fundamental_div_mod_converse(g.offset(x, y), w, y, x);
}

/// Where the lattice points of a grid can be counted in a `usize`, so can its
/// cells, its rows and its columns.
pub proof fn lemma_fits(g: GridView)
    requires
        g.fits(),
    ensures
        g.size() < usize::MAX,
        g.width < usize::MAX,
        g.height < usize::MAX,
{
    let w = g.width;
    let h = g.height;
    assert(w * h + w + h + 1 == (w + 1) * (h + 1)) by (nonlinear_arith);
    assert(0 <= w * h) by (nonlinear_arith);
}

/// The count of the cells of one kind does not fall along the grid, and it
/// rises by one over each cell of that kind.
pub proof fn lemma_count_rises(g: GridView, kind: Cell, m: int, n: int)
    requires
        0 <= m <= n <= g.cells.len(),
    ensures
        g.count_before(kind, m) <= g.count_before(kind, n) <= g.count_before(kind, m) + (n - m),
        m < n && g.cells[m] == kind ==> g.count_before(kind, m) < g.count_before(kind, n),
    decreases n - m,
{
    if m < n {
        lemma_count_rises(g, kind, m, n - 1);
    }
}

/// No two empty cells have the same number of empty cells before them: that
/// number tells the empty cells apart.
pub proof fn lemma_free_rank_unique(g: GridView, i: int, j: int)
    requires
        0 <= i < g.cells.len(),
        0 <= j < g.cells.len(),
        g.cells[i] == Cell::Empty,
        g.cells[j] == Cell::Empty,
        g.free_before(i) == g.free_before(j),
    ensures
        i == j,
{
    if i < j {
        lemma_count_rises(g, Cell::Empty, i, j);
    }
    if j < i {
        lemma_count_rises(g, Cell::Empty, j, i);
    }
}

/// An empty cell is the free cell of its rank.
pub proof fn lemma_free_cell(g: GridView, i: int)
    requires
        0 <= i < g.cells.len(),
        g.cells[i] == Cell::Empty,
    ensures
        g.free_cell(g.free_before(i)) == i,
        g.free_before(i) < g.free(),
{
    lemma_free_rank_unique(g, i, g.free_cell(g.free_before(i)));
    lemma_count_rises(g, Cell::Empty, i, g.cells.len() as int);
}

/// Among the first `n` cells, every rank below the number of empty cells is
/// the rank of an empty cell.
proof fn lemma_rank_taken(g: GridView, rank: nat, n: int)
    requires
        0 <= n <= g.cells.len(),
        rank < g.free_before(n),
    ensures
        exists|i: int|
            0 <= i < n && g.cells[i] == Cell::Empty && #[trigger] g.free_before(i) == rank,
    decreases n,
{
    if g.cells[n - 1] == Cell::Empty && g.free_before(n - 1) == rank {
    } else {
        lemma_rank_taken(g, rank, n - 1);
    }
}

/// Food goes into an empty cell, if there is one, and changes no other cell:
/// what holds the snake or an apple is never overwritten.
pub proof fn lemma_with_food(g: GridView, pick: nat)
    ensures
        g.with_food(pick).width == g.width,
        g.with_food(pick).height == g.height,
        g.free() == 0 ==> g.with_food(pick) == g,
        g.free() > 0 ==> {
            let i = g.free_cell(pick % g.free());
            &&& 0 <= i < g.cells.len()
            &&& g.cells[i] == Cell::Empty
            &&& g.free_before(i) == pick % g.free()
            &&& g.with_food(pick).cells == g.cells.update(i, Cell::Apple)
            &&& g.with_food(pick).count(Cell::Apple) == g.count(Cell::Apple) + 1
        },
{
    if g.free() > 0 {
        let rank = pick % g.free();
        lemma_rank_taken(g, rank, g.cells.len() as int);
        let i = g.free_cell(rank);
        lemma_count_with_cell(g, i, Cell::Apple, Cell::Apple);
    }
}

/// To replace one cell changes the counts of two kinds at most: there is one
/// cell less of the kind that the cell held and one more of the kind that it
/// holds now.
pub proof fn lemma_count_with_cell(g: GridView, i: int, cell: Cell, kind: Cell)
    requires
        0 <= i < g.cells.len(),
    ensures
        g.with_cell(i, cell).count(kind) + (if g.cells[i] == kind {
            1int
        } else {
            0int
        }) == g.count(kind) + (if cell == kind {
            1int
        } else {
            0int
        }),
{
    lemma_count_with_cell_before(g, i, cell, kind, g.cells.len() as int);
}

proof fn lemma_count_with_cell_before(g: GridView, i: int, cell: Cell, kind: Cell, n: int)
    requires
        0 <= i < g.cells.len(),
        0 <= n <= g.cells.len(),
    ensures
        n <= i ==> g.with_cell(i, cell).count_before(kind, n) == g.count_before(kind, n),
        n > i ==> g.with_cell(i, cell).count_before(kind, n) + (if g.cells[i] == kind {
            1int
        } else {
            0int
        }) == g.count_before(kind, n) + (if cell == kind {
            1int
        } else {
            0int
        }),
    decreases n,
{
    if n > 0 {
        lemma_count_with_cell_before(g, i, cell, kind, n - 1);
    }
}

/// An empty grid has no cell that holds anything, and all its cells are
/// empty.
pub proof fn lemma_count_empty(width: nat, height: nat, kind: Cell)
    ensures
        GridView::empty(width, height).count(kind) == if kind == Cell::Empty {
            width * height
        } else {
            0
        },
{
    lemma_count_empty_before(width, height, kind, (width * height) as int);
}

proof fn lemma_count_empty_before(width: nat, height: nat, kind: Cell, n: int)
    requires
        0 <= n <= width * height,
    ensures
        GridView::empty(width, height).count_before(kind, n) == if kind == Cell::Empty {
            n
        } else {
            0
        },
    decreases n,
{
    if n > 0 {
        lemma_count_empty_before(width, height, kind, n - 1);
    }
}

/// Around every lattice point of a grid, the drawn stretches form one of the
/// twelve patterns that have a glyph.
pub proof fn lemma_lattice_drawable(g: GridView, x: int, y: int)
    requires
        g.wf(),
        0 <= x <= g.width,
        0 <= y <= g.height,
    ensures
        drawable(g.lattice(x, y)),
{
}

/// The text of a grid is a function of its dimensions and its cells, which to
/// render does not change. So when a grid is rendered twice and nothing has
/// changed it in between, the two texts are the same.
pub proof fn lemma_render_repeats(g: GridView, first: Seq<char>, second: Seq<char>)
    requires
        first == g.rendered(),
        second == g.rendered(),
    ensures
        first == second,
{
}

/// In a grid without an occupied cell nothing but the frame is drawn: its
/// four corners, lines along its sides and blanks inside.
pub proof fn lemma_empty_grid_is_a_frame(width: nat, height: nat, x: int, y: int)
    requires
        width >= 1,
        height >= 1,
        0 <= x <= width,
        0 <= y <= height,
    ensures
        GridView::empty(width, height).lattice_text(x, y) == if y == 0 {
            if x == 0 {
                seq!['┌', '─']
            } else if x == width {
                seq!['┐', ' ']
            } else {
                seq!['─', '─']
            }
        } else if y == height {
            if x == 0 {
                seq!['└', '─']
            } else if x == width {
                seq!['┘', ' ']
            } else {
                seq!['─', '─']
            }
        } else if x == 0 || x == width {
            seq!['│', ' ']
        } else {
            seq![' ', ' ']
        },
{
    let g = GridView::empty(width, height);
    assert forall|i: int, j: int| !g.occupied(i, j) by {
        if g.inside(i, j) {
            lemma_offset(g, i, j);
        }
    }
    assert(g.lattice(x, y) =~= frame_pattern(g, x, y));
}

/// The text of a grid is a block of characters: as many lines as the
/// lattice has rows, each as long as the others and ended by a line feed.
/// The character in column `c` of line `y` stands at `y` times the length of
/// a line plus `c`.
pub proof fn lemma_rendered_block(g: GridView, c: int, y: int)
    requires
        0 <= y < g.text_height(),
        0 <= c <= g.text_width(),
    ensures
        g.rendered().len() == g.text_height() * (g.text_width() + 1),
        0 <= y * (g.text_width() + 1) + c < g.rendered().len(),
        g.rendered()[y * (g.text_width() + 1) + c] == if c == g.text_width() {
            '\n'
        } else {
            g.text_char(c, y)
        },
{
    let lines = Seq::new(g.text_height(), |y: int| g.row_text(y).push('\n'));
    lemma_block(lines, g.text_width() + 1, lines.len() as int, y, c);
    assert(lines.take(lines.len() as int) =~= lines);
    assert(lines[y][c] == if c == g.text_width() {
        '\n'
    } else {
        g.text_char(c, y)
    });
}

/// Lines of one length, put one after the other, make a block in which
/// character `j` of line `i` stands at `i` times that length plus `j`.
proof fn lemma_block(lines: Seq<Seq<char>>, length: nat, n: int, i: int, j: int)
    requires
        0 <= i < n <= lines.len(),
        0 <= j < length,
        forall|k: int| 0 <= k < lines.len() ==> (#[trigger] lines[k]).len() == length,
    ensures
        lines.take(n).flatten().len() == n * length,
        0 <= i * length + j < n * length,
        lines.take(n).flatten()[i * length + j] == lines[i][j],
    decreases n,
{
    let done = lines.take(n - 1);
    let last = lines[n - 1];
    assert(lines.take(n) =~= done.push(last));
    done.lemma_flatten_push(last);
    assert(lines.take(n).flatten() =~= done.flatten() + last);
    assert(last.len() == length);
    assert(n * length == (n - 1) * length + length) by (nonlinear_arith);
    assert(0 <= i * length && i * length + length <= n * length) by (nonlinear_arith)
        requires
            0 <= i < n,
            0 <= length,
    ;
    if n == 1 {
        assert(done =~= Seq::<Seq<char>>::empty());
        assert(done.flatten() =~= Seq::<char>::empty());
        assert((n - 1) * length == 0) by (nonlinear_arith)
            requires
                n == 1,
        ;
        assert(i * length == 0) by (nonlinear_arith)
            requires
                i == 0,
        ;
        assert((done.flatten() + last)[j] == last[j]);
    } else if i == n - 1 {
        lemma_block(lines, length, n - 1, 0, j);
        assert(done.flatten().len() == (n - 1) * length);
        assert((done.flatten() + last)[(n - 1) * length + j] == last[j]);
    } else {
        lemma_block(lines, length, n - 1, i, j);
        assert(done.flatten().len() == (n - 1) * length);
        assert(i * length + j < (n - 1) * length);
        assert((done.flatten() + last)[i * length + j] == done.flatten()[i * length + j]);
    }
}

/// The pattern that the frame alone gives lattice point `(x, y)`: a corner
/// in the corners of the grid, a straight line along its sides, nothing
/// inside.
spec fn frame_pattern(g: GridView, x: int, y: int) -> Seq<State> {
    let on_top_or_bottom = y == 0 || y == g.height;
    let on_left_or_right = x == 0 || x == g.width;
    let top = on_left_or_right && y > 0;
    let left = on_top_or_bottom && x > 0;
    let right = on_top_or_bottom && x < g.width;
    let bottom = on_left_or_right && y < g.height;
    pattern(top, left, top || left || right || bottom, right, bottom)
}

/// The four cells that touch lattice point `(x, y)` are found at the offsets
/// that one expects, none of which overflows, and a cell that the point
/// would have beyond the last row is read as empty.
proof fn lemma_probes(g: GridView, x: int, y: int)
    requires
        g.wf(),
        0 <= x <= g.width,
        0 <= y <= g.height,
    ensures
        0 <= y * g.width + x < (g.width + 1) * (g.height + 1),
        y > 0 ==> 0 <= (y - 1) * g.width + x < y * g.width + x,
        x > 0 && y > 0 ==> (g.cell((y - 1) * g.width + (x - 1)) != Cell::Empty) == g.occupied(
            x - 1,
            y - 1,
        ),
        y > 0 && x < g.width ==> (g.cell((y - 1) * g.width + x) != Cell::Empty) == g.occupied(
            x,
            y - 1,
        ),
        x > 0 ==> (g.cell(y * g.width + (x - 1)) != Cell::Empty) == g.occupied(x - 1, y),
        x < g.width && y < g.height ==> (g.cell(y * g.width + x) != Cell::Empty) == g.occupied(
            x,
            y,
        ),
{
    let w = g.width as int;
    let h = g.height as int;
    assert(0 <= y * w <= h * w) by (nonlinear_arith)
        requires
            0 <= y <= h,
            0 < w,
    ;
    assert((w + 1) * (h + 1) == h * w + w + h + 1) by (nonlinear_arith);
    assert((y - 1) * w == y * w - w) by (nonlinear_arith);
    if x > 0 && y > 0 {
        lemma_offset(g, x - 1, y - 1);
    }
    if y > 0 && x < w {
        lemma_offset(g, x, y - 1);
    }
    if x > 0 && y < h {
        lemma_offset(g, x - 1, y);
    }
    if x < w && y < h {
        lemma_offset(g, x, y);
    }
    if y == h && x > 0 {
        assert(y * w + (x - 1) >= g.cells.len()) by (nonlinear_arith)
            requires
                y == h,
                x > 0,
                w >= 1,
                g.cells.len() == w * h,
        ;
    }
}

/// `String::pop` of the standard library, as its documentation describes it:
/// it takes the last character off the string and returns it, and does
/// nothing to an empty string but return `None`. This is taken on trust, not
/// proved.
pub assume_specification[ String::pop ](s: &mut String) -> (r: Option<char>)
    ensures
        old(s)@.len() == 0 ==> r.is_none() && final(s)@ == old(s)@,
        old(s)@.len() > 0 ==> r == Some(old(s)@.last()) && final(s)@ == old(s)@.drop_last(),
;

/// A grid of cells.
pub struct Grid {
    width: usize,
    height: usize,
    cells: Vec<Cell>,
}

impl View for Grid {
    type V = GridView;

    closed spec fn view(&self) -> GridView {
        GridView { width: self.width as nat, height: self.height as nat, cells: self.cells@ }
    }
}

impl vstd::std_specs::core::IndexSpecImpl<usize> for Grid {
    open spec fn index_req(&self, index: &usize) -> bool {
        true
    }
}

impl Index<usize> for Grid {
    type Output = Cell;

    /// The cell at offset `index`; an empty cell if there is no such offset.
    fn index(&self, index: usize) -> (r: &Cell)
        ensures
            *r == self@.cell(index as int),
    {
        if index >= self.cells.len() {
            return &Cell::Empty;
        }
        &self.cells[index]
    }
}

impl Grid {
    /// A grid is well formed when its model is and when its lattice points
    /// can be counted in a `usize`.
    pub open spec fn wf(&self) -> bool {
        &&& self@.wf()
        &&& self@.fits()
    }

    /// Whether a grid of these dimensions can be made.
    pub open spec fn valid_dimensions(width: usize, height: usize) -> bool {
        &&& width >= 1
        &&& height >= 1
        &&& (width + 1) * (height + 1) <= usize::MAX
    }

    /// The empty grid of 36 by 20 cells.
    pub fn new() -> (r: Grid)
        ensures
            r.wf(),
            r@ == GridView::empty(GRID_WIDTH as nat, GRID_HEIGHT as nat),
    {
        Grid::filled(GRID_WIDTH, GRID_HEIGHT)
    }

    /// The empty grid of the given dimensions, if there is one: a grid has
    /// at least one row and one column, and a `usize` can count its lattice
    /// points.
    pub fn with_size(width: usize, height: usize) -> (r: Option<Grid>)
        ensures
            r.is_some() == Grid::valid_dimensions(width, height),
            r matches Some(g) ==> g.wf() && g@ == GridView::empty(width as nat, height as nat),
    {
        if width == 0 || height == 0 {
            return None;
        }
        let columns: usize = match width.checked_add(1) {
            Some(n) => n,
            None => {
                assert((width + 1) * (height + 1) > usize::MAX) by (nonlinear_arith)
                    requires
                        width + 1 > usize::MAX,
                        height >= 1,
                ;
                return None;
            },
        };
        let rows: usize = match height.checked_add(1) {
            Some(n) => n,
            None => {
                assert((width + 1) * (height + 1) > usize::MAX) by (nonlinear_arith)
                    requires
                        height + 1 > usize::MAX,
                        width >= 1,
                ;
                return None;
            },
        };
        match columns.checked_mul(rows) {
            Some(_) => Some(Grid::filled(width, height)),
            None => None,
        }
    }

    /// The empty grid of the given dimensions.
    fn filled(width: usize, height: usize) -> (r: Grid)
        requires
            Grid::valid_dimensions(width, height),
        ensures
            r.wf(),
            r@ == GridView::empty(width as nat, height as nat),
    {
        assert(width * height <= (width + 1) * (height + 1)) by (nonlinear_arith);
        let size: usize = width * height;
        let mut cells: Vec<Cell> = Vec::new();
        let mut i: usize = 0;
        while i < size
            invariant
                i <= size,
                cells@ == Seq::new(i as nat, |j: int| Cell::Empty),
            decreases size - i,
        {
            cells.push(Cell::Empty);
            i += 1;
            assert(cells@ =~= Seq::new(i as nat, |j: int| Cell::Empty));
        }
        Grid { width, height, cells }
    }

    /// The number of columns.
    pub fn width(&self) -> (w: usize)
        ensures
            w == self@.width,
    {
        self.width
    }

    /// The number of rows.
    pub fn height(&self) -> (h: usize)
        ensures
            h == self@.height,
    {
        self.height
    }

    /// The number of characters in each line of the text of the grid.
    pub fn width_in_chars(&self) -> (n: usize)
        requires
            self.wf(),
        ensures
            n == self@.text_width(),
    {
        proof {
            let w = self@.width;
            let h = self@.height;
            assert(2 * w + 2 <= (w + 1) * (h + 1)) by (nonlinear_arith)
                requires
                    h >= 1,
            ;
        }
        2 * self.width + 1
    }

    /// The number of lines in the text of the grid.
    pub fn height_in_chars(&self) -> (n: usize)
        requires
            self.wf(),
        ensures
            n == self@.text_height(),
    {
        proof {
            lemma_fits(self@);
        }
        self.height + 1
    }

    /// The number of cells.
    pub fn size(&self) -> (n: usize)
        requires
            self.wf(),
        ensures
            n == self@.size(),
    {
        proof {
            lemma_fits(self@);
        }
        self.width * self.height
    }

    /// The glyph of lattice point `(x, y)`, two characters wide.
    ///
    /// The pattern of the point is put together from the rules that apply
    /// to it: one for its place on the frame, if it lies on the frame, and
    /// one for each occupied cell that touches it.
    pub fn render_cell(&self, x: usize, y: usize) -> (s: String)
        requires
            self.wf(),
            x <= self@.width,
            y <= self@.height,
        ensures
            s@ == self@.lattice_text(x as int, y as int),
    {
        let mut bitmap = Bitmap::new();
        let width = self.width();
        let height = self.height();
        let ghost g = self@;
        proof {
            lemma_probes(g, x as int, y as int);
        }

        if x == 0 && y == 0 {
            // Top-left corner
            bitmap.combine(Bitmap::from([
                          State::E,
                State::E, State::N, State::N,
                          State::N,
            ]));
        } else if x == width && y == 0 {
            // Top-right corner
            bitmap.combine(Bitmap::from([
                          State::E,
                State::N, State::N, State::E,
                          State::N,
            ]));
        } else if x == 0 && y == height {
            // Bottom-left corner
            bitmap.combine(Bitmap::from([
                          State::N,
                State::E, State::N, State::N,
                          State::E,
            ]));
        } else if x == width && y == height {
            // Bottom-right corner
            bitmap.combine(Bitmap::from([
                          State::N,
                State::N, State::N, State::E,
                          State::E,
            ]));
        } else if y == 0 || y == height {
            // Top or bottom border
            bitmap.combine(Bitmap::from([
                          State::E,
                State::N, State::N, State::N,
                          State::E,
            ]));
        } else if x == 0 || x == width {
            // Left or right border
            bitmap.combine(Bitmap::from([
                          State::N,
                State::E, State::N, State::E,
                          State::N,
            ]));
        }
        assert(bitmap@ =~= frame_pattern(g, x as int, y as int));

        if x > 0 && y > 0 && self[(y - 1) * width + (x - 1)] != Cell::Empty {
            // Non-empty top-left cell
            bitmap.combine(Bitmap::from([
                          State::N,
                State::N, State::N, State::E,
                          State::E,
            ]));
        }
        if y > 0 && x < width && self[(y - 1) * width + x] != Cell::Empty {
            // Non-empty top cell
            bitmap.combine(Bitmap::from([
                          State::N,
                State::E, State::N, State::N,
                          State::E,
            ]));
        }
        if x > 0 && self[y * width + (x - 1)] != Cell::Empty {
            // Non-empty left cell
            bitmap.combine(Bitmap::from([
                          State::E,
                State::N, State::N, State::E,
                          State::N,
            ]));
        }
        if x < width && y < height && self[y * width + x] != Cell::Empty {
            // Non-empty cell
            bitmap.combine(Bitmap::from([
                          State::E,
                State::E, State::N, State::N,
                          State::N,
            ]));
        }
        assert(bitmap@ =~= g.lattice(x as int, y as int));
        proof {
            lemma_lattice_drawable(g, x as int, y as int);
        }

        bitmap.render()
    }

    /// The text of lattice row `y`: the glyphs of its lattice points from
    /// left to right, without the blank after the last of them.
    pub fn render_row(&self, y: usize) -> (s: String)
        requires
            self.wf(),
            y <= self@.height,
        ensures
            s@ == self@.row_text(y as int),
    {
        let width = self.width();
        let ghost g = self@;
        proof {
            assert(g.width + 1 <= (g.width + 1) * (g.height + 1)) by (nonlinear_arith)
                requires
                    g.height >= 1,
            ;
        }
        let mut output = String::new();
        let mut x: usize = 0;
        while x <= width
            invariant
                self.wf(),
                g == self@,
                width == g.width,
                width < usize::MAX,
                y <= g.height,
                x <= width + 1,
                output@ == Seq::new(2 * (x as nat), |c: int| g.text_char(c, y as int)),
            decreases width + 1 - x,
        {
            let cell = self.render_cell(x, y);
            output.append(cell.as_str());
            x += 1;
            assert(output@ =~= Seq::new(2 * (x as nat), |c: int| g.text_char(c, y as int)));
        }
        output.pop();  // the blank after the last lattice point
        assert(output@ =~= g.row_text(y as int));
        output
    }

    /// The text of the grid: its lattice rows from the top down, each
    /// followed by a line feed.
    pub fn render(&self) -> (s: String)
        requires
            self.wf(),
        ensures
            s@ == self@.rendered(),
    {
        let height = self.height();
        let ghost g = self@;
        let ghost lines = Seq::new(g.height + 1, |y: int| g.row_text(y).push('\n'));
        proof {
            reveal_strlit("\n");
            assert(g.height + 1 <= (g.width + 1) * (g.height + 1)) by (nonlinear_arith)
                requires
                    g.width >= 1,
            ;
        }
        let mut output = String::new();
        let mut y: usize = 0;
        assert(lines.take(0) =~= Seq::<Seq<char>>::empty());
        while y <= height
            invariant
                self.wf(),
                g == self@,
                height == g.height,
                height < usize::MAX,
                lines == Seq::new(g.height + 1, |y: int| g.row_text(y).push('\n')),
                y <= height + 1,
                output@ == lines.take(y as int).flatten(),
                "\n"@ == seq!['\n'],
            decreases height + 1 - y,
        {
            let row = self.render_row(y);
            output.append(row.as_str());
            output.append("\n");
            proof {
                assert(lines.take(y + 1) =~= lines.take(y as int).push(lines[y as int]));
                lines.take(y as int).lemma_flatten_push(lines[y as int]);
                assert(output@ =~= lines.take(y + 1).flatten());
            }
            y += 1;
        }
        assert(lines.take(y as int) =~= lines);
        output
    }

    /// Puts an apple into an empty cell and returns the cell's offset, or
    /// does nothing and returns `None` if no cell is empty.
    ///
    /// `pick` chooses among the empty cells: counted from the first cell on,
    /// the apple goes into the empty cell number `pick` modulo the number of
    /// empty cells. With `pick` drawn at random, evenly from a range much
    /// larger than the grid, every empty cell is about as likely as any
    /// other. No cell that holds the snake or an apple is ever overwritten.
    pub fn spawn_food(&mut self, pick: usize) -> (r: Option<usize>)
        requires
            old(self).wf(),
        ensures
            final(self).wf(),
            final(self)@ == old(self)@.with_food(pick as nat),
            r.is_some() == (old(self)@.free() > 0),
            r matches Some(i) ==> {
                &&& i < old(self)@.size()
                &&& i == old(self)@.free_cell(pick as nat % old(self)@.free())
                &&& old(self)@.cells[i as int] == Cell::Empty
                &&& old(self)@.free_before(i as int) == pick as nat % old(self)@.free()
                &&& final(self)@ == old(self)@.with_cell(i as int, Cell::Apple)
            },
    {
        let ghost g = self@;
        proof {
            lemma_fits(g);
        }
        let size = self.width * self.height;
        let mut free: usize = 0;
        let mut i: usize = 0;
        while i < size
            invariant
                g == self@,
                size == g.cells.len(),
                i <= size,
                free <= i,
                free == g.free_before(i as int),
            decreases size - i,
        {
            if self.cells[i] == Cell::Empty {
                free += 1;
            }
            i += 1;
        }
        if free == 0 {
            return None;
        }
        let rank = pick % free;
        let mut seen: usize = 0;
        let mut i: usize = 0;
        while self.cells[i] != Cell::Empty || seen != rank
            invariant
                g == self@,
                size == g.cells.len(),
                free == g.free(),
                rank < free,
                i < size,
                seen <= rank,
                seen == g.free_before(i as int),
            decreases size - i,
        {
            if self.cells[i] == Cell::Empty {
                seen += 1;
            }
            i += 1;
        }
        proof {
            lemma_free_cell(g, i as int);
        }
        self.cells.set(i, Cell::Apple);
        Some(i)
    }

    /// Puts `cell` at offset `index`.
    pub fn set(&mut self, index: usize, cell: Cell)
        requires
            old(self).wf(),
            index < old(self)@.size(),
        ensures
            final(self).wf(),
            final(self)@ == old(self)@.with_cell(index as int, cell),
    {
        self.cells.set(index, cell);
    }
}

} // verus!

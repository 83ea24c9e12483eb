use crate::renderer::backend::{opaque, Color};
use std::collections::HashSet;
use vstd::prelude::*;

verus! {

broadcast use vstd::std_specs::hash::group_hash_axioms;

/// The rendition flags of a cell.
#[derive(Debug, Clone, Copy, PartialEq, Eq, Structural)]
pub struct CellAttributes {
    pub bold: bool,
    pub italic: bool,
    pub underline: bool,
    pub inverse: bool,
}

/// The attribute set with every flag off.
pub open spec fn plain_attrs() -> CellAttributes {
    CellAttributes { bold: false, italic: false, underline: false, inverse: false }
}

impl Default for CellAttributes {
    fn default() -> (attrs: Self)
        ensures
            attrs == plain_attrs(),
    {
        CellAttributes { bold: false, italic: false, underline: false, inverse: false }
    }
}

/// One character position: a code point, its colours and its attributes.
#[derive(Debug, Clone, Copy, PartialEq, Eq, Structural)]
pub struct Cell {
    pub ch: char,
    pub fg: Color,
    pub bg: Color,
    pub attrs: CellAttributes,
}

/// The default cell: a space, white on black, with no attribute set.
pub open spec fn blank_cell() -> Cell {
    Cell { ch: ' ', fg: opaque(255, 255, 255), bg: opaque(0, 0, 0), attrs: plain_attrs() }
}

impl Default for Cell {
    fn default() -> (cell: Self)
        ensures
            cell == blank_cell(),
    {
        Cell { ch: ' ', fg: Color::white(), bg: Color::black(), attrs: CellAttributes::default() }
    }
}

impl Cell {
    /// A default cell that shows `ch`.
    pub fn new(ch: char) -> (cell: Cell)
        ensures
            cell == (Cell { ch, ..blank_cell() }),
    {
        Cell { ch, fg: Color::white(), bg: Color::black(), attrs: CellAttributes::default() }
    }

    /// Makes the cell the default cell again.
    pub fn reset(&mut self)
        ensures
            *final(self) == blank_cell(),
    {
        *self = Cell::default();
    }
}

/// The mathematical model of a grid: a row-major sequence of `cols * rows`
/// cells, the rows that scrolled off the top (oldest first), and what has to
/// be repainted.
pub struct GridView {
    pub cols: nat,
    pub rows: nat,
    pub cells: Seq<Cell>,
    pub scrollback: Seq<Seq<Cell>>,
    pub max_scrollback: nat,
    /// The changed coordinates, each as `(col, row)`.
    pub dirty: Set<(int, int)>,
    pub full_redraw: bool,
}

/// The last `max` rows of `history`, or all of it where it holds no more.
pub open spec fn keep_newest(history: Seq<Seq<Cell>>, max: nat) -> Seq<Seq<Cell>> {
    if history.len() <= max {
        history
    } else {
        history.subrange(history.len() - max, history.len() as int)
    }
}

impl GridView {
    /// The invariant of every grid: the buffer holds exactly `cols * rows`
    /// cells, the scrollback respects its cap, and only coordinates of the
    /// grid are marked as changed.
    pub open spec fn wf(self) -> bool {
        &&& self.cells.len() == self.cols * self.rows
        &&& self.scrollback.len() <= self.max_scrollback
        &&& forall|p: (int, int)| #[trigger]
            self.dirty.contains(p) ==> 0 <= p.0 < self.cols && 0 <= p.1 < self.rows
    }

    pub open spec fn in_bounds(self, col: int, row: int) -> bool {
        0 <= col < self.cols && 0 <= row < self.rows
    }

    /// The place of `(col, row)` in the row-major buffer.
    pub open spec fn index(self, col: int, row: int) -> int {
        row * self.cols + col
    }

    pub open spec fn cell(self, col: int, row: int) -> Cell {
        self.cells[self.index(col, row)]
    }

    /// The cells of one row, left to right.
    pub open spec fn row(self, row: int) -> Seq<Cell> {
        self.cells.subrange(row * self.cols, row * self.cols + self.cols)
    }

    /// The first `n` rows, top first.
    pub open spec fn top_rows(self, n: int) -> Seq<Seq<Cell>> {
        Seq::new(n as nat, |r: int| self.row(r))
    }

    /// Whether a renderer has to repaint `(col, row)`: the full-redraw flag
    /// stands for every cell.
    pub open spec fn marked(self, col: int, row: int) -> bool {
        self.full_redraw || self.dirty.contains((col, row))
    }

    /// The grid with `cell` written at `(col, row)` and nothing marked.
    pub open spec fn with_cell(self, col: int, row: int, cell: Cell) -> GridView {
        GridView { cells: self.cells.update(self.index(col, row), cell), ..self }
    }

    /// Writing a cell: nothing happens outside the grid or where the cell is
    /// already there; otherwise the cell is stored and its coordinate marked.
    pub open spec fn set(self, col: int, row: int, cell: Cell) -> GridView {
        if self.in_bounds(col, row) && self.cell(col, row) != cell {
            GridView { dirty: self.dirty.insert((col, row)), ..self.with_cell(col, row, cell) }
        } else {
            self
        }
    }

    /// Every cell default; a full redraw replaces the marks.
    pub open spec fn clear(self) -> GridView {
        GridView {
            cells: Seq::new(self.cells.len(), |i: int| blank_cell()),
            dirty: Set::empty(),
            full_redraw: true,
            ..self
        }
    }

    /// One row default and all of its coordinates marked; another row number
    /// than one of the grid changes nothing.
    pub open spec fn clear_row(self, row: int) -> GridView {
        if 0 <= row < self.rows {
            GridView {
                cells: Seq::new(
                    self.cells.len(),
                    |i: int|
                        if row * self.cols <= i < row * self.cols + self.cols {
                            blank_cell()
                        } else {
                            self.cells[i]
                        },
                ),
                dirty: self.dirty.union(
                    Set::new(|p: (int, int)| 0 <= p.0 < self.cols && p.1 == row),
                ),
                ..self
            }
        } else {
            self
        }
    }

    /// Scrolling up by `n` rows with `0 < n < rows`: the top `n` rows join the
    /// scrollback, oldest rows leaving it beyond the cap; every other row
    /// moves up by `n`; the bottom `n` rows are default. Any other `n` changes
    /// nothing.
    pub open spec fn scroll_up(self, n: int) -> GridView {
        if 0 < n < self.rows {
            GridView {
                cells: Seq::new(
                    self.cells.len(),
                    |i: int|
                        if i + n * self.cols < self.cells.len() {
                            self.cells[i + n * self.cols]
                        } else {
                            blank_cell()
                        },
                ),
                scrollback: keep_newest(self.scrollback + self.top_rows(n), self.max_scrollback),
                dirty: Set::empty(),
                full_redraw: true,
                ..self
            }
        } else {
            self
        }
    }

    /// Scrolling down by `n` rows with `0 < n < rows`: every row moves down by
    /// `n`, the bottom `n` rows are lost, and the top `n` rows are default.
    pub open spec fn scroll_down(self, n: int) -> GridView {
        if 0 < n < self.rows {
            GridView {
                cells: Seq::new(
                    self.cells.len(),
                    |i: int|
                        if i < n * self.cols {
                            blank_cell()
                        } else {
                            self.cells[i - n * self.cols]
                        },
                ),
                dirty: Set::empty(),
                full_redraw: true,
                ..self
            }
        } else {
            self
        }
    }

    /// A new geometry over the same flat buffer: the buffer is cut or grown
    /// with default cells to `cols * rows`, so a cell keeps its place in the
    /// buffer, not its coordinate.
    pub open spec fn resize(self, cols: nat, rows: nat) -> GridView {
        GridView {
            cols,
            rows,
            cells: Seq::new(
                cols * rows,
                |i: int|
                    if i < self.cells.len() {
                        self.cells[i]
                    } else {
                        blank_cell()
                    },
            ),
            dirty: Set::empty(),
            full_redraw: true,
            ..self
        }
    }

    /// The cells of row `row` in the columns from `from` up to `to` (and inside
    /// the grid) default; nothing is marked.
    pub open spec fn erase_span(self, row: int, from: int, to: int) -> GridView {
        let end = if to < self.cols {
            to
        } else {
            self.cols as int
        };
        GridView {
            cells: Seq::new(
                self.cells.len(),
                |i: int|
                    if row * self.cols + from <= i < row * self.cols + end {
                        blank_cell()
                    } else {
                        self.cells[i]
                    },
            ),
            ..self
        }
    }

    /// The rows from `from` up to `to` default, and all of their coordinates
    /// marked.
    pub open spec fn clear_rows(self, from: int, to: int) -> GridView {
        GridView {
            cells: Seq::new(
                self.cells.len(),
                |i: int|
                    if from * self.cols <= i < to * self.cols {
                        blank_cell()
                    } else {
                        self.cells[i]
                    },
            ),
            dirty: self.dirty.union(
                Set::new(|p: (int, int)| 0 <= p.0 < self.cols && from <= p.1 < to),
            ),
            ..self
        }
    }

    /// Nothing left to repaint.
    pub open spec fn clear_dirty(self) -> GridView {
        GridView { dirty: Set::empty(), full_redraw: false, ..self }
    }
}

/// A coordinate of a `cols` x `rows` grid has its place inside the buffer, and
/// so has the whole of its row.
pub proof fn lemma_index_in_buffer(col: int, row: int, cols: int, rows: int)
    requires
        0 <= col < cols,
        0 <= row < rows,
    ensures
        0 <= row * cols,
        0 <= row * cols + col < cols * rows,
        row * cols + cols <= cols * rows,
{
    assert(0 <= row * cols) by (nonlinear_arith)
        requires
            0 <= row,
            0 <= cols,
    ;
    assert(row * cols + cols <= cols * rows) by (nonlinear_arith)
        requires
            0 <= row < rows,
            0 <= cols,
    ;
}

/// Two coordinates with the same place in the buffer are the same coordinate.
pub proof fn lemma_index_unique(c1: int, r1: int, c2: int, r2: int, cols: int)
    requires
        0 <= c1 < cols,
        0 <= c2 < cols,
        0 <= r1,
        0 <= r2,
        r1 * cols + c1 == r2 * cols + c2,
    ensures
        c1 == c2,
        r1 == r2,
{
    if r1 < r2 {
        assert(r1 * cols + cols <= r2 * cols) by (nonlinear_arith)
            requires
                r1 < r2,
                0 <= cols,
        ;
    } else if r2 < r1 {
        assert(r2 * cols + cols <= r1 * cols) by (nonlinear_arith)
            requires
                r2 < r1,
                0 <= cols,
        ;
    }
}

/// Every grid operation keeps the invariant: after any of them the buffer
/// still holds `cols * rows` cells and the scrollback still respects its cap.
pub proof fn lemma_operations_keep_invariant(
    view: GridView,
    col: int,
    row: int,
    cell: Cell,
    lines: int,
    cols: nat,
    rows: nat,
)
    requires
        view.wf(),
    ensures
        view.set(col, row, cell).wf(),
        view.in_bounds(col, row) ==> view.with_cell(col, row, cell).wf(),
        view.clear().wf(),
        view.clear_row(row).wf(),
        view.scroll_up(lines).wf(),
        view.scroll_down(lines).wf(),
        view.resize(cols, rows).wf(),
        view.clear_dirty().wf(),
        0 <= row < view.rows && 0 <= col ==> view.erase_span(row, col, lines).wf(),
        0 <= row <= lines <= view.rows ==> view.clear_rows(row, lines).wf(),
{
    if view.in_bounds(col, row) {
        lemma_index_in_buffer(col, row, view.cols as int, view.rows as int);
    }
}

/// Scrolling up by `lines` rows with `0 < lines < rows`: the rows move up,
/// the bottom `lines` rows are default cells, and the top `lines` rows are
/// the newest rows of the scrollback, in order, where the scrollback may
/// hold that many.
pub proof fn lemma_scroll_up_keeps_top_rows(view: GridView, lines: int)
    requires
        view.wf(),
        0 < lines < view.rows,
    ensures
        forall|col: int, row: int|
            0 <= col < view.cols && view.rows - lines <= row < view.rows ==> #[trigger] view.scroll_up(
                lines,
            ).cell(col, row) == blank_cell(),
        forall|col: int, row: int|
            0 <= col < view.cols && 0 <= row < view.rows - lines ==> #[trigger] view.scroll_up(
                lines,
            ).cell(col, row) == view.cell(col, row + lines),
        lines <= view.max_scrollback ==> {
            let history = view.scroll_up(lines).scrollback;
            &&& history.len() >= lines
            &&& forall|k: int|
                0 <= k < lines ==> #[trigger] history[history.len() - lines + k] == view.row(k)
        },
        view.scroll_up(lines).scrollback.len() <= view.max_scrollback,
{
    let after = view.scroll_up(lines);
    let cols = view.cols as int;
    let rows = view.rows as int;
    assert forall|col: int, row: int| 0 <= col < cols && rows - lines <= row < rows implies #[trigger] after.cell(
        col,
        row,
    ) == blank_cell() by {
        lemma_index_in_buffer(col, row, cols, rows);
        assert(row * cols + col + lines * cols >= cols * rows) by (nonlinear_arith)
            requires
                rows - lines <= row,
                0 <= col,
                0 <= cols,
        ;
    }
    assert forall|col: int, row: int| 0 <= col < cols && 0 <= row < rows - lines implies #[trigger] after.cell(
        col,
        row,
    ) == view.cell(col, row + lines) by {
        lemma_index_in_buffer(col, row, cols, rows);
        lemma_index_in_buffer(col, row + lines, cols, rows);
        assert((row + lines) * cols == row * cols + lines * cols) by (nonlinear_arith);
    }
    if lines <= view.max_scrollback {
        let all = view.scrollback + view.top_rows(lines);
        let history = after.scrollback;
        assert forall|k: int| 0 <= k < lines implies #[trigger] history[history.len() - lines + k]
            == view.row(k) by {
            assert(all[view.scrollback.len() + k] == view.top_rows(lines)[k]);
        }
    }
}

/// A cell that `set` changed is marked, and stays marked until the marks
/// are cleared: the later writes and erasures keep its mark, and clearing,
/// scrolling and resizing ask for a full redraw, which stands for every
/// cell.
pub proof fn lemma_changed_cell_stays_marked(
    view: GridView,
    col: int,
    row: int,
    cell: Cell,
    other_col: int,
    other_row: int,
    other: Cell,
    lines: int,
    cols: nat,
    rows: nat,
)
    requires
        view.wf(),
        view.in_bounds(col, row),
        view.cell(col, row) != cell,
    ensures
        view.set(col, row, cell).dirty.contains((col, row)),
        view.set(col, row, cell).cell(col, row) == cell,
        ({
            let changed = view.set(col, row, cell);
            &&& changed.set(other_col, other_row, other).dirty.contains((col, row))
            &&& changed.with_cell(other_col, other_row, other).dirty.contains((col, row))
            &&& changed.clear_row(other_row).dirty.contains((col, row))
            &&& changed.erase_span(other_row, other_col, lines).dirty.contains((col, row))
            &&& changed.clear_rows(other_row, lines).dirty.contains((col, row))
            &&& changed.clear().marked(col, row)
            &&& changed.scroll_up(lines).marked(col, row)
            &&& changed.scroll_down(lines).marked(col, row)
            &&& changed.resize(cols, rows).marked(col, row)
            &&& !changed.clear_dirty().marked(col, row)
        }),
{
    lemma_index_in_buffer(col, row, view.cols as int, view.rows as int);
    let changed = view.set(col, row, cell);
    if 0 < lines < changed.rows {
    } else {
        assert(changed.scroll_up(lines) == changed);
        assert(changed.scroll_down(lines) == changed);
    }
}

/// Terminal grid: the visible cells of one pane, its scrollback and its
/// dirty tracking.
pub struct Grid {
    cells: Vec<Cell>,
    cols: usize,
    rows: usize,
    scrollback: Vec<Vec<Cell>>,
    max_scrollback: usize,
    /// The changed cells, each by its place `row * cols + col` in the buffer.
    dirty_cells: HashSet<usize>,
    full_redraw_needed: bool,
}

impl View for Grid {
    type V = GridView;

    closed spec fn view(&self) -> GridView {
        GridView {
            cols: self.cols as nat,
            rows: self.rows as nat,
            cells: self.cells@,
            scrollback: Seq::new(self.scrollback@.len(), |i: int| self.scrollback@[i]@),
            max_scrollback: self.max_scrollback as nat,
            dirty: Set::new(
                |p: (int, int)|
                    0 <= p.0 < self.cols && 0 <= p.1 < self.rows && self.dirty_cells@.contains(
                        (p.1 * self.cols + p.0) as usize,
                    ),
            ),
            full_redraw: self.full_redraw_needed,
        }
    }
}

/// The cells of `cells` from `start` up to `end`, copied.
fn copy_cells(cells: &Vec<Cell>, start: usize, end: usize) -> (out: Vec<Cell>)
    requires
        start <= end <= cells.len(),
    ensures
        out@ == cells@.subrange(start as int, end as int),
{
    let mut out: Vec<Cell> = Vec::new();
    let mut i: usize = start;
    while i < end
        invariant
            start <= i <= end <= cells.len(),
            out@ == cells@.subrange(start as int, i as int),
        decreases end - i,
    {
        out.push(cells[i]);
        i += 1;
        assert(out@ =~= cells@.subrange(start as int, i as int));
    }
    out
}

impl Grid {
    /// The invariant that every constructor establishes and every method
    /// keeps: the model is well formed and the dirty set names cells of the
    /// buffer only.
    pub closed spec fn wf(&self) -> bool {
        &&& self@.wf()
        &&& self.cols * self.rows <= usize::MAX
        &&& forall|k: usize| #[trigger] self.dirty_cells@.contains(k) ==> k < self.cells@.len()
    }

    /// A well-formed grid has a well-formed model: its buffer holds exactly
    /// `cols * rows` cells and its scrollback no more rows than its cap.
    pub proof fn lemma_wf_view(&self)
        requires
            self.wf(),
        ensures
            self@.wf(),
            self@.cells.len() == self@.cols * self@.rows,
            self@.scrollback.len() <= self@.max_scrollback,
    {
    }

    /// A grid of default cells with an empty scrollback, to be drawn in full.
    pub fn new(cols: usize, rows: usize, max_scrollback: usize) -> (grid: Grid)
        requires
            cols * rows <= usize::MAX,
        ensures
            grid.wf(),
            grid@.cols == cols,
            grid@.rows == rows,
            grid@.max_scrollback == max_scrollback,
            grid@.cells == Seq::new((cols * rows) as nat, |i: int| blank_cell()),
            grid@.scrollback == Seq::<Seq<Cell>>::empty(),
            grid@.dirty == Set::<(int, int)>::empty(),
            grid@.full_redraw,
    {
        let mut cells: Vec<Cell> = Vec::new();
        cells.resize(cols * rows, Cell::default());
        let grid = Grid {
            cells,
            cols,
            rows,
            scrollback: Vec::new(),
            max_scrollback,
            dirty_cells: HashSet::new(),
            full_redraw_needed: true,
        };
        proof {
            assert(grid@.cells =~= Seq::new((cols * rows) as nat, |i: int| blank_cell()));
            assert(grid@.scrollback =~= Seq::<Seq<Cell>>::empty());
            assert(grid@.dirty =~= Set::<(int, int)>::empty());
        }
        grid
    }

    pub fn cols(&self) -> (cols: usize)
        ensures
            cols == self@.cols,
    {
        self.cols
    }

    pub fn rows(&self) -> (rows: usize)
        ensures
            rows == self@.rows,
    {
        self.rows
    }

    /// Gives the grid a new geometry; the flat buffer is cut or grows with
    /// default cells.
    pub fn resize(&mut self, cols: usize, rows: usize)
        requires
            old(self).wf(),
            cols * rows <= usize::MAX,
        ensures
            final(self).wf(),
            final(self)@ == old(self)@.resize(cols as nat, rows as nat),
    {
        self.cols = cols;
        self.rows = rows;
        self.cells.resize(cols * rows, Cell::default());
        self.full_redraw_needed = true;
        self.dirty_cells.clear();
        proof {
            assert(self@.cells =~= old(self)@.resize(cols as nat, rows as nat).cells);
            assert(self@.dirty =~= Set::<(int, int)>::empty());
            assert(self@.scrollback =~= old(self)@.scrollback);
        }
    }

    /// The cell at `(col, row)`, or `None` outside the grid.
    pub fn get(&self, col: usize, row: usize) -> (cell: Option<&Cell>)
        requires
            self.wf(),
        ensures
            cell == if self@.in_bounds(col as int, row as int) {
                Some(&self@.cell(col as int, row as int))
            } else {
                None
            },
    {
        if col < self.cols && row < self.rows {
            proof {
                lemma_index_in_buffer(col as int, row as int, self.cols as int, self.rows as int);
            }
            Some(&self.cells[row * self.cols + col])
        } else {
            None
        }
    }

    /// A mutable reference to the cell at `(col, row)`, or `None` outside the
    /// grid. What the caller stores through it becomes the cell; nothing is
    /// marked as changed.
    pub fn get_mut(&mut self, col: usize, row: usize) -> (cell: Option<&mut Cell>)
        requires
            old(self).wf(),
        ensures
            final(self).wf(),
            match cell {
                Some(c) => {
                    &&& old(self)@.in_bounds(col as int, row as int)
                    &&& *c == old(self)@.cell(col as int, row as int)
                    &&& final(self)@ == old(self)@.with_cell(col as int, row as int, *final(c))
                },
                None => {
                    &&& !old(self)@.in_bounds(col as int, row as int)
                    &&& final(self)@ == old(self)@
                },
            },
    {
        if col < self.cols && row < self.rows {
            proof {
                lemma_index_in_buffer(col as int, row as int, self.cols as int, self.rows as int);
            }
            let idx: usize = row * self.cols + col;
            Some(&mut self.cells[idx])
        } else {
            None
        }
    }

    /// Stores `cell` at `(col, row)` and marks the coordinate, unless the
    /// coordinate lies outside the grid or the cell is already there.
    pub fn set(&mut self, col: usize, row: usize, cell: Cell)
        requires
            old(self).wf(),
        ensures
            final(self).wf(),
            final(self)@ == old(self)@.set(col as int, row as int, cell),
    {
        if col < self.cols && row < self.rows {
            proof {
                lemma_index_in_buffer(col as int, row as int, self.cols as int, self.rows as int);
            }
            let idx: usize = row * self.cols + col;
            if self.cells[idx] != cell {
                self.cells[idx] = cell;
                self.dirty_cells.insert(idx);
                proof {
                    let cols = self.cols as int;
                    assert forall|p: (int, int)|
                        self@.dirty.contains(p) == old(self)@.dirty.insert(
                            (col as int, row as int),
                        ).contains(p) by {
                        if 0 <= p.0 < self.cols && 0 <= p.1 < self.rows {
                            lemma_index_in_buffer(p.0, p.1, cols, self.rows as int);
                            if p.1 * cols + p.0 == idx {
                                lemma_index_unique(p.0, p.1, col as int, row as int, cols);
                            }
                        }
                    }
                    assert(self@.dirty =~= old(self)@.dirty.insert((col as int, row as int)));
                    assert(self@.scrollback =~= old(self)@.scrollback);
                }
            }
        }
    }

    /// Makes every cell the default cell.
    pub fn clear(&mut self)
        requires
            old(self).wf(),
        ensures
            final(self).wf(),
            final(self)@ == old(self)@.clear(),
    {
        let n: usize = self.cells.len();
        let mut i: usize = 0;
        while i < n
            invariant
                i <= n,
                n == self.cells.len(),
                forall|k: int| 0 <= k < i ==> self.cells@[k] == blank_cell(),
                self.cols == old(self).cols,
                self.rows == old(self).rows,
                self.scrollback == old(self).scrollback,
                self.max_scrollback == old(self).max_scrollback,
                self.dirty_cells == old(self).dirty_cells,
                old(self).cells.len() == n,
            decreases n - i,
        {
            self.cells[i] = Cell::default();
            i += 1;
        }
        self.full_redraw_needed = true;
        self.dirty_cells.clear();
        proof {
            assert(self@.cells =~= old(self)@.clear().cells);
            assert(self@.dirty =~= Set::<(int, int)>::empty());
            assert(self@.scrollback =~= old(self)@.scrollback);
        }
    }

    /// Makes the cells of one row default and marks the whole row.
    pub fn clear_row(&mut self, row: usize)
        requires
            old(self).wf(),
        ensures
            final(self).wf(),
            final(self)@ == old(self)@.clear_row(row as int),
    {
        if row < self.rows {
            let cols: usize = self.cols;
            proof {
                if cols > 0 {
                    lemma_index_in_buffer(0, row as int, cols as int, self.rows as int);
                } else {
                    assert(row * cols == 0) by (nonlinear_arith)
                        requires
                            cols == 0,
                    ;
                }
            }
            let start: usize = row * cols;
            let mut col: usize = 0;
            while col < cols
                invariant
                    col <= cols,
                    cols == self.cols,
                    row < self.rows,
                    start == row * cols,
                    start + cols <= self.cells.len(),
                    self.cells.len() == old(self).cells.len(),
                    self.cells.len() == cols * self.rows,
                    self.rows == old(self).rows,
                    self.cols == old(self).cols,
                    self.scrollback == old(self).scrollback,
                    self.max_scrollback == old(self).max_scrollback,
                    self.full_redraw_needed == old(self).full_redraw_needed,
                    forall|k: int|
                        0 <= k < self.cells.len() ==> self.cells@[k] == if start <= k < start
                            + col {
                            blank_cell()
                        } else {
                            old(self).cells@[k]
                        },
                    forall|k: usize|
                        self.dirty_cells@.contains(k) <==> (old(self).dirty_cells@.contains(k) || (
                        start <= k < start + col)),
                decreases cols - col,
            {
                self.cells[start + col] = Cell::default();
                self.dirty_cells.insert(start + col);
                col += 1;
            }
            proof {
                let c = cols as int;
                assert(self@.cells =~= old(self)@.clear_row(row as int).cells);
                assert forall|p: (int, int)|
                    self@.dirty.contains(p) == old(self)@.clear_row(row as int).dirty.contains(
                        p,
                    ) by {
                    if 0 <= p.0 < c && 0 <= p.1 < self.rows {
                        lemma_index_in_buffer(p.0, p.1, c, self.rows as int);
                        let k = p.1 * c + p.0;
                        if start <= k < start + c {
                            lemma_index_in_buffer(k - start, row as int, c, self.rows as int);
                            lemma_index_unique(p.0, p.1, k - start, row as int, c);
                        }
                    }
                }
                assert(self@.dirty =~= old(self)@.clear_row(row as int).dirty);
                assert(self@.scrollback =~= old(self)@.scrollback);
            }
        }
    }

    /// Scrolls the contents up by `lines` rows; the rows that leave the top
    /// go to the scrollback. Does nothing unless `0 < lines < rows`.
    pub fn scroll_up(&mut self, lines: usize)
        requires
            old(self).wf(),
        ensures
            final(self).wf(),
            final(self)@ == old(self)@.scroll_up(lines as int),
    {
        if lines == 0 || lines >= self.rows {
            return ;
        }
        let cols: usize = self.cols;
        let rows: usize = self.rows;
        let total: usize = self.cells.len();
        proof {
            lemma_scroll_bounds(lines as int, cols as int, rows as int);
        }
        let shift: usize = lines * cols;
        let ghost before = self@;
        let ghost history = before.scrollback + before.top_rows(lines as int);

        let mut i: usize = 0;
        while i < lines
            invariant
                i <= lines < rows,
                cols == self.cols,
                rows == self.rows,
                self.cols == old(self).cols,
                self.rows == old(self).rows,
                total == self.cells.len(),
                total == cols * rows,
                shift == lines * cols,
                shift <= total,
                self.cells == old(self).cells,
                self.max_scrollback == old(self).max_scrollback,
                self.dirty_cells == old(self).dirty_cells,
                self.full_redraw_needed == old(self).full_redraw_needed,
                before == old(self)@,
                self@.scrollback == keep_newest(
                    before.scrollback + before.top_rows(i as int),
                    before.max_scrollback,
                ),
                before.scrollback.len() <= before.max_scrollback,
            decreases lines - i,
        {
            proof {
                if cols > 0 {
                    lemma_index_in_buffer(0, i as int, cols as int, rows as int);
                } else {
                    assert(i * cols == 0) by (nonlinear_arith)
                        requires
                            cols == 0,
                    ;
                }
            }
            let ghost r = i as int;
            let start: usize = i * cols;
            let line = copy_cells(&self.cells, start, start + cols);
            let ghost top = line@;
            assert(top == before.row(r));
            let ghost prev = self@.scrollback;
            self.scrollback.push(line);
            assert(self@.scrollback =~= prev.push(top));
            if self.scrollback.len() > self.max_scrollback {
                self.scrollback.remove(0);
                assert(self@.scrollback =~= prev.push(top).subrange(1, prev.len() as int + 1));
            }
            i += 1;
            proof {
                let sofar = before.scrollback + before.top_rows(r);
                let next = before.scrollback + before.top_rows(r + 1);
                assert(before.top_rows(r + 1) =~= before.top_rows(r).push(before.row(r)));
                assert(next =~= sofar.push(top));
                assert(prev == keep_newest(sofar, before.max_scrollback));
                assert(self@.scrollback =~= keep_newest(next, before.max_scrollback));
            }
        }

        let keep: usize = total - shift;
        let mut j: usize = 0;
        while j < total
            invariant
                j <= total,
                keep + shift == total,
                total == self.cells.len(),
                total == old(self).cells.len(),
                self.cols == old(self).cols,
                self.rows == old(self).rows,
                self.max_scrollback == old(self).max_scrollback,
                self.dirty_cells == old(self).dirty_cells,
                self.full_redraw_needed == old(self).full_redraw_needed,
                self@.scrollback == keep_newest(history, before.max_scrollback),
                forall|k: int|
                    0 <= k < total ==> self.cells@[k] == if k < j {
                        if k + shift < total {
                            old(self).cells@[k + shift]
                        } else {
                            blank_cell()
                        }
                    } else {
                        old(self).cells@[k]
                    },
            decreases total - j,
        {
            let ghost sb = self@.scrollback;
            if j < keep {
                let moved = self.cells[j + shift];
                self.cells[j] = moved;
            } else {
                self.cells[j] = Cell::default();
            }
            j += 1;
            proof {
                assert(self@.scrollback =~= sb);
            }
        }
        let ghost sb = self@.scrollback;
        self.full_redraw_needed = true;
        self.dirty_cells.clear();
        proof {
            assert(self@.scrollback =~= sb);
            assert(self@.cells =~= before.scroll_up(lines as int).cells);
            assert(self@.dirty =~= Set::<(int, int)>::empty());
        }
    }

    /// Scrolls the contents down by `lines` rows; the rows that leave the
    /// bottom are lost. Does nothing unless `0 < lines < rows`.
    pub fn scroll_down(&mut self, lines: usize)
        requires
            old(self).wf(),
        ensures
            final(self).wf(),
            final(self)@ == old(self)@.scroll_down(lines as int),
    {
        if lines == 0 || lines >= self.rows {
            return ;
        }
        let cols: usize = self.cols;
        let rows: usize = self.rows;
        let total: usize = self.cells.len();
        proof {
            lemma_scroll_bounds(lines as int, cols as int, rows as int);
        }
        let shift: usize = lines * cols;
        let mut j: usize = total;
        while j > 0
            invariant
                j <= total,
                shift <= total,
                total == self.cells.len(),
                total == old(self).cells.len(),
                self.cols == old(self).cols,
                self.rows == old(self).rows,
                self.scrollback == old(self).scrollback,
                self.max_scrollback == old(self).max_scrollback,
                self.dirty_cells == old(self).dirty_cells,
                self.full_redraw_needed == old(self).full_redraw_needed,
                forall|k: int|
                    0 <= k < total ==> self.cells@[k] == if k >= j {
                        if k < shift {
                            blank_cell()
                        } else {
                            old(self).cells@[k - shift]
                        }
                    } else {
                        old(self).cells@[k]
                    },
            decreases j,
        {
            j -= 1;
            if j >= shift {
                let moved = self.cells[j - shift];
                self.cells[j] = moved;
            } else {
                self.cells[j] = Cell::default();
            }
        }
        self.full_redraw_needed = true;
        self.dirty_cells.clear();
        proof {
            assert(self@.cells =~= old(self)@.scroll_down(lines as int).cells);
            assert(self@.dirty =~= Set::<(int, int)>::empty());
            assert(self@.scrollback =~= old(self)@.scrollback);
        }
    }

    /// The rows of the grid, top first, each left to right.
    pub fn iter_rows(&self) -> (rows: Vec<Vec<Cell>>)
        requires
            self.wf(),
        ensures
            rows@.len() == self@.rows,
            forall|r: int| 0 <= r < self@.rows ==> (#[trigger] rows@[r])@ == self@.row(r),
    {
        let mut out: Vec<Vec<Cell>> = Vec::new();
        let mut r: usize = 0;
        while r < self.rows
            invariant
                self.wf(),
                r <= self.rows,
                out@.len() == r,
                forall|k: int| 0 <= k < r ==> (#[trigger] out@[k])@ == self@.row(k),
            decreases self.rows - r,
        {
            proof {
                if self.cols > 0 {
                    lemma_index_in_buffer(0, r as int, self.cols as int, self.rows as int);
                } else {
                    assert(r * self.cols == 0) by (nonlinear_arith)
                        requires
                            self.cols == 0,
                    ;
                }
            }
            let start: usize = r * self.cols;
            let line = copy_cells(&self.cells, start, start + self.cols);
            out.push(line);
            r += 1;
        }
        out
    }

    /// The cells of one row, or `None` where the grid has no such row.
    pub fn get_row(&self, row: usize) -> (cells: Option<Vec<Cell>>)
        requires
            self.wf(),
        ensures
            match cells {
                Some(line) => row < self@.rows && line@ == self@.row(row as int),
                None => row >= self@.rows,
            },
    {
        if row < self.rows {
            proof {
                if self.cols > 0 {
                    lemma_index_in_buffer(0, row as int, self.cols as int, self.rows as int);
                } else {
                    assert(row * self.cols == 0) by (nonlinear_arith)
                        requires
                            self.cols == 0,
                    ;
                }
            }
            let start: usize = row * self.cols;
            Some(copy_cells(&self.cells, start, start + self.cols))
        } else {
            None
        }
    }

    /// The rows that scrolled off the top, oldest first.
    pub fn scrollback(&self) -> (history: &Vec<Vec<Cell>>)
        ensures
            history@.len() == self@.scrollback.len(),
            forall|i: int|
                0 <= i < history@.len() ==> (#[trigger] history@[i])@ == self@.scrollback[i],
    {
        &self.scrollback
    }

    /// Whether everything has to be repainted.
    pub fn needs_full_redraw(&self) -> (full: bool)
        ensures
            full == self@.full_redraw,
    {
        self.full_redraw_needed
    }

    /// The cells changed since the last frame, each by its place
    /// `row * cols + col` in the row-major buffer.
    pub fn dirty_cells(&self) -> (dirty: &HashSet<usize>)
        requires
            self.wf(),
        ensures
            forall|col: int, row: int|
                self@.in_bounds(col, row) ==> (self@.dirty.contains((col, row))
                    <==> #[trigger] dirty@.contains(self@.index(col, row) as usize)),
            forall|k: usize| #[trigger] dirty@.contains(k) ==> k < self@.cells.len(),
    {
        &self.dirty_cells
    }

    /// Whether `(col, row)` was changed since the last frame.
    pub fn is_dirty(&self, col: usize, row: usize) -> (dirty: bool)
        requires
            self.wf(),
        ensures
            dirty == self@.dirty.contains((col as int, row as int)),
    {
        if col < self.cols && row < self.rows {
            proof {
                lemma_index_in_buffer(col as int, row as int, self.cols as int, self.rows as int);
            }
            let idx: usize = row * self.cols + col;
            self.dirty_cells.contains(&idx)
        } else {
            false
        }
    }

    /// Forgets what was changed; called after a frame was drawn.
    pub fn clear_dirty(&mut self)
        requires
            old(self).wf(),
        ensures
            final(self).wf(),
            final(self)@ == old(self)@.clear_dirty(),
    {
        self.dirty_cells.clear();
        self.full_redraw_needed = false;
        proof {
            assert(self@.dirty =~= Set::<(int, int)>::empty());
            assert(self@.scrollback =~= old(self)@.scrollback);
        }
    }
}

/// Scrolling by fewer rows than the grid has moves cells inside the buffer.
proof fn lemma_scroll_bounds(lines: int, cols: int, rows: int)
    requires
        0 < lines < rows,
        0 <= cols,
    ensures
        0 <= lines * cols <= cols * rows,
{
    assert(0 <= lines * cols <= cols * rows) by (nonlinear_arith)
        requires
            0 < lines < rows,
            0 <= cols,
    ;
}

} // verus!

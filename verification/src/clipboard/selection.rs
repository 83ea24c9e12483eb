use crate::terminal::grid::{Cell, Grid, GridView};
use vstd::prelude::*;

verus! {

/// `String::push` appends one character to the string.
pub assume_specification[ String::push ](text: &mut String, ch: char)
    ensures
        final(text)@ == old(text)@.push(ch),
;

/// Text selection state: two cells, each as `(col, row)`, and whether the
/// selection is active.
#[derive(Debug, Clone, Copy, PartialEq, Eq)]
pub struct Selection {
    /// Start position (col, row)
    pub start: (usize, usize),
    /// End position (col, row)
    pub end: (usize, usize),
    /// Whether selection is active
    pub active: bool,
}

/// The characters of the first `n` of `cells`, NUL markers left out.
pub open spec fn cell_chars(cells: Seq<Cell>, n: int) -> Seq<char>
    decreases n,
{
    if n <= 0 {
        Seq::empty()
    } else if cells[n - 1].ch == '\0' {
        cell_chars(cells, n - 1)
    } else {
        cell_chars(cells, n - 1).push(cells[n - 1].ch)
    }
}

impl Selection {
    /// Whether `start` comes before `end` in reading order, or is `end`.
    pub open spec fn in_order(self) -> bool {
        self.start.1 < self.end.1 || (self.start.1 == self.end.1 && self.start.0 <= self.end.0)
    }

    /// The endpoint that comes first in reading order.
    pub open spec fn first(self) -> (usize, usize) {
        if self.in_order() {
            self.start
        } else {
            self.end
        }
    }

    /// The endpoint that comes last in reading order.
    pub open spec fn last(self) -> (usize, usize) {
        if self.in_order() {
            self.end
        } else {
            self.start
        }
    }

    /// The columns of `row` that the selection takes in a grid of `cols`
    /// columns, as the first column and the one behind the last: the first
    /// row starts at the first endpoint, the last row ends with the last
    /// endpoint, rows between are taken whole.
    pub open spec fn columns(self, cols: int, row: int) -> (int, int) {
        let from = if row == self.first().1 {
            self.first().0 as int
        } else {
            0
        };
        let to = if row == self.last().1 && self.last().0 < cols {
            self.last().0 + 1
        } else {
            cols
        };
        (
            if from < to {
                from
            } else {
                to
            },
            to,
        )
    }

    /// Whether the cell `(col, row)` is selected: never in an inactive
    /// selection; on one row the columns from the first endpoint to the last;
    /// on several rows the first row from the first endpoint on, the last row
    /// up to the last endpoint, and the rows between in full.
    pub open spec fn covers(self, col: int, row: int) -> bool {
        let (first_col, first_row) = self.first();
        let (last_col, last_row) = self.last();
        if !self.active || row < first_row || row > last_row {
            false
        } else if first_row == last_row {
            first_col <= col <= last_col
        } else if row == first_row {
            col >= first_col
        } else if row == last_row {
            col <= last_col
        } else {
            true
        }
    }

    /// The text of the selected part of one row.
    pub open spec fn row_text(self, grid: GridView, row: int) -> Seq<char> {
        let (from, to) = self.columns(grid.cols as int, row);
        cell_chars(grid.cells.subrange(row * grid.cols + from, row * grid.cols + to), to - from)
    }

    /// The text of the first `n` selected rows, each but the selection's last
    /// row followed by a line feed.
    pub open spec fn text_of_rows(self, grid: GridView, n: int) -> Seq<char>
        decreases n,
    {
        if n <= 0 {
            Seq::empty()
        } else {
            let row = self.first().1 + n - 1;
            let line = self.text_of_rows(grid, n - 1) + self.row_text(grid, row);
            if row < self.last().1 {
                line.push('\n')
            } else {
                line
            }
        }
    }

    /// How many rows of the grid the selection touches.
    pub open spec fn rows_in(self, grid: GridView) -> int {
        let end = if self.last().1 < grid.rows {
            self.last().1 + 1
        } else {
            grid.rows as int
        };
        if self.first().1 < end {
            end - self.first().1
        } else {
            0
        }
    }

    /// The selected text: nothing for an inactive selection, else the rows
    /// of the selection that the grid has, top first.
    pub open spec fn text(self, grid: GridView) -> Seq<char> {
        if self.active {
            self.text_of_rows(grid, self.rows_in(grid))
        } else {
            Seq::empty()
        }
    }

    /// Create a new empty selection
    pub fn new() -> (selection: Selection)
        ensures
            selection == (Selection { start: (0, 0), end: (0, 0), active: false }),
    {
        Selection { start: (0, 0), end: (0, 0), active: false }
    }

    /// Start a new selection at the given position (not active until drag)
    pub fn start_at(&mut self, col: usize, row: usize)
        ensures
            *final(self) == (Selection { start: (col, row), end: (col, row), active: false }),
    {
        self.start = (col, row);
        self.end = (col, row);
        self.active = false;
    }

    /// Update the end position of the selection; the selection becomes
    /// active once the end differs from the start.
    pub fn update_end(&mut self, col: usize, row: usize)
        ensures
            *final(self) == (Selection {
                end: (col, row),
                active: old(self).active || old(self).start != (col, row),
                ..*old(self)
            }),
    {
        self.end = (col, row);
        if self.start.0 != col || self.start.1 != row {
            self.active = true;
        }
    }

    /// Clear the selection
    pub fn clear(&mut self)
        ensures
            *final(self) == (Selection { start: (0, 0), end: (0, 0), active: false }),
    {
        self.active = false;
        self.start = (0, 0);
        self.end = (0, 0);
    }

    /// Check if a cell is within the selection
    pub fn contains(&self, col: usize, row: usize) -> (inside: bool)
        ensures
            inside == self.covers(col as int, row as int),
    {
        if !self.active {
            return false;
        }
        let (start_col, start_row) = self.normalized_start();
        let (end_col, end_row) = self.normalized_end();
        if row < start_row || row > end_row {
            return false;
        }
        if start_row == end_row {
            return col >= start_col && col <= end_col;
        }
        if row == start_row {
            col >= start_col
        } else if row == end_row {
            col <= end_col
        } else {
            true
        }
    }

    /// The endpoint that comes first in reading order.
    pub fn normalized_start(&self) -> (first: (usize, usize))
        ensures
            first == self.first(),
    {
        if self.start.1 < self.end.1 || (self.start.1 == self.end.1 && self.start.0
            <= self.end.0) {
            self.start
        } else {
            self.end
        }
    }

    /// The endpoint that comes last in reading order.
    pub fn normalized_end(&self) -> (last: (usize, usize))
        ensures
            last == self.last(),
    {
        if self.start.1 < self.end.1 || (self.start.1 == self.end.1 && self.start.0
            <= self.end.0) {
            self.end
        } else {
            self.start
        }
    }

    /// Extract selected text from the grid
    pub fn get_text(&self, grid: &Grid) -> (text: String)
        requires
            grid.wf(),
        ensures
            text@ == self.text(grid@),
    {
        let mut text = String::new();
        if !self.active {
            return text;
        }
        proof {
            grid.lemma_wf_view();
        }
        let cols = grid.cols();
        let rows = grid.rows();
        let (start_col, start_row) = self.normalized_start();
        let (end_col, end_row) = self.normalized_end();
        let end: usize = if end_row < rows {
            end_row + 1
        } else {
            rows
        };
        let mut row: usize = start_row;
        while row < end
            invariant
                grid.wf(),
                grid@.wf(),
                cols == grid@.cols,
                rows == grid@.rows,
                (start_col, start_row) == self.first(),
                (end_col, end_row) == self.last(),
                end <= rows,
                end <= end_row + 1,
                start_row <= row,
                row <= end || row == start_row,
                text@ == self.text_of_rows(grid@, row - start_row),
            decreases end - row,
        {
            let from: usize = if row == start_row {
                start_col
            } else {
                0
            };
            let to: usize = if row == end_row && end_col < cols {
                end_col + 1
            } else {
                cols
            };
            let from: usize = if from < to {
                from
            } else {
                to
            };
            proof {
                if cols > 0 {
                    crate::terminal::grid::lemma_index_in_buffer(
                        0,
                        row as int,
                        cols as int,
                        rows as int,
                    );
                } else {
                    assert(row * cols == 0 && cols * rows == 0) by (nonlinear_arith)
                        requires
                            cols == 0,
                    ;
                }
            }
            let ghost so_far = text@;
            let ghost line = grid@.cells.subrange(row * cols + from, row * cols + to);
            let mut col: usize = from;
            while col < to
                invariant
                    grid.wf(),
                    grid@.wf(),
                    cols == grid@.cols,
                    rows == grid@.rows,
                    row < rows,
                    from <= col <= to <= cols,
                    row * cols + cols <= cols * rows,
                    0 <= row * cols,
                    line == grid@.cells.subrange(row * cols + from, row * cols + to),
                    text@ == so_far + cell_chars(line, col - from),
                decreases to - col,
            {
                match grid.get(col, row) {
                    Some(cell) => {
                        assert(*cell == line[col - from]);
                        if cell.ch != '\0' {
                            text.push(cell.ch);
                        }
                    },
                    None => {},
                }
                col += 1;
                assert(text@ =~= so_far + cell_chars(line, col - from));
            }
            assert(text@ == so_far + self.row_text(grid@, row as int));
            if row < end_row {
                text.push('\n');
            }
            row += 1;
            assert(text@ == self.text_of_rows(grid@, row - start_row));
        }
        proof {
            if end <= start_row {
                assert(self.rows_in(grid@) == 0);
            } else {
                assert(row == end);
                assert(self.rows_in(grid@) == end - start_row);
            }
        }
        text
    }
}

impl Default for Selection {
    fn default() -> (selection: Self)
        ensures
            selection == (Selection { start: (0, 0), end: (0, 0), active: false }),
    {
        Selection::new()
    }
}

/// A cell of the grid is selected exactly when `get_text` walks over it: its
/// row is one of the selection's rows and its column one of the columns
/// taken on that row.
pub proof fn lemma_contains_matches_text(selection: Selection, grid: GridView, col: int, row: int)
    requires
        selection.active,
        grid.in_bounds(col, row),
    ensures
        selection.covers(col, row) <==> {
            &&& selection.first().1 <= row < selection.first().1 + selection.rows_in(grid)
            &&& selection.columns(grid.cols as int, row).0 <= col < selection.columns(
                grid.cols as int,
                row,
            ).1
        },
{
}

} // verus!

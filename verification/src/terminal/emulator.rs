use crate::renderer::backend::{ansi_256, opaque, Color};
use crate::terminal::grid::{blank_cell, plain_attrs, Cell, CellAttributes, Grid, GridView};
use crate::terminal::image::framing::FramerView;
use crate::terminal::image::kitty::{kitty_image, KITTY_LAST, KITTY_MIDDLE};
use crate::terminal::image::sixel::{sixel_image, SIXEL_LAST, SIXEL_MIDDLE};
use crate::terminal::image::{
    DecodedImage, ImageView, KittyImageParser, PlacedImage, SixelImageParser, TerminalImage,
};
use crate::terminal::vt::{vt_actions, VtAction, VtParser};
use vstd::prelude::*;

verus! {

/// Cell sizes are given in thousandths of a pixel.
pub const CELL_UNITS_PER_PIXEL: u32 = 1000;

/// The width of a cell that images are sized by until a renderer gives its
/// own: ten pixels.
pub const DEFAULT_CELL_WIDTH: u32 = 10000;

/// The height of a cell that images are sized by until a renderer gives its
/// own: twenty pixels.
pub const DEFAULT_CELL_HEIGHT: u32 = 20000;

/// The most cells that an image side is counted as.
pub const MAX_IMAGE_CELLS: usize = 0xffff_ffff;

/// The graphic rendition that the next printed character gets.
#[derive(Debug, Clone, Copy, PartialEq, Eq, Structural)]
pub struct Pen {
    pub fg: Color,
    pub bg: Color,
    pub attrs: CellAttributes,
}

/// White on black with no attribute set.
pub open spec fn default_pen() -> Pen {
    Pen { fg: opaque(255, 255, 255), bg: opaque(0, 0, 0), attrs: plain_attrs() }
}

/// The value of a parameter: its first entry, the sub-parameters set aside;
/// 0 for a parameter without entries.
pub open spec fn first_value(param: Vec<u16>) -> int {
    if param@.len() > 0 {
        param@[0] as int
    } else {
        0
    }
}

/// A count given as parameter `i`: at least 1, and 1 where the parameter is
/// missing.
pub open spec fn count_param(params: Seq<Vec<u16>>, i: int) -> int {
    if 0 <= i < params.len() && first_value(params[i]) > 1 {
        first_value(params[i])
    } else {
        1
    }
}

/// A selector given as the first parameter, 0 where there is none.
pub open spec fn mode_param(params: Seq<Vec<u16>>) -> int {
    if params.len() > 0 {
        first_value(params[0])
    } else {
        0
    }
}

/// The effect of one SGR code that stands alone: 0 resets, 1/3/4/7 switch
/// bold, italic, underline and inverse on and 22/23/24/27 off, 30-37 and
/// 90-97 choose the foreground and 40-47 and 100-107 the background from the
/// first sixteen palette colours, 39 and 49 restore the default colours.
pub open spec fn sgr_code(pen: Pen, code: int) -> Pen {
    if code == 0 {
        default_pen()
    } else if code == 1 {
        Pen { attrs: CellAttributes { bold: true, ..pen.attrs }, ..pen }
    } else if code == 3 {
        Pen { attrs: CellAttributes { italic: true, ..pen.attrs }, ..pen }
    } else if code == 4 {
        Pen { attrs: CellAttributes { underline: true, ..pen.attrs }, ..pen }
    } else if code == 7 {
        Pen { attrs: CellAttributes { inverse: true, ..pen.attrs }, ..pen }
    } else if code == 22 {
        Pen { attrs: CellAttributes { bold: false, ..pen.attrs }, ..pen }
    } else if code == 23 {
        Pen { attrs: CellAttributes { italic: false, ..pen.attrs }, ..pen }
    } else if code == 24 {
        Pen { attrs: CellAttributes { underline: false, ..pen.attrs }, ..pen }
    } else if code == 27 {
        Pen { attrs: CellAttributes { inverse: false, ..pen.attrs }, ..pen }
    } else if 30 <= code <= 37 {
        Pen { fg: ansi_256((code - 30) as u8), ..pen }
    } else if 90 <= code <= 97 {
        Pen { fg: ansi_256((code - 90 + 8) as u8), ..pen }
    } else if 40 <= code <= 47 {
        Pen { bg: ansi_256((code - 40) as u8), ..pen }
    } else if 100 <= code <= 107 {
        Pen { bg: ansi_256((code - 100 + 8) as u8), ..pen }
    } else if code == 39 {
        Pen { fg: opaque(255, 255, 255), ..pen }
    } else if code == 49 {
        Pen { bg: opaque(0, 0, 0), ..pen }
    } else {
        pen
    }
}

/// The effect of the SGR parameters from place `i` on. The codes 38 and 48
/// take the next parameter with them and, where that is 5, one more: the
/// index of a colour of the 256-colour palette (its low eight bits).
pub open spec fn sgr_from(pen: Pen, params: Seq<Vec<u16>>, i: int) -> Pen
    decreases params.len() - i,
{
    if i < 0 || i >= params.len() {
        pen
    } else {
        let code = first_value(params[i]);
        if code == 38 || code == 48 {
            if i + 1 >= params.len() {
                pen
            } else if first_value(params[i + 1]) != 5 || i + 2 >= params.len() {
                sgr_from(pen, params, i + 2)
            } else {
                let color = ansi_256((first_value(params[i + 2]) % 256) as u8);
                if code == 38 {
                    sgr_from(Pen { fg: color, ..pen }, params, i + 3)
                } else {
                    sgr_from(Pen { bg: color, ..pen }, params, i + 3)
                }
            }
        } else {
            sgr_from(sgr_code(pen, code), params, i + 1)
        }
    }
}

/// The effect of an SGR sequence; one without parameters resets the pen.
pub open spec fn sgr(pen: Pen, params: Seq<Vec<u16>>) -> Pen {
    if params.len() == 0 {
        default_pen()
    } else {
        sgr_from(pen, params, 0)
    }
}

/// How many cells of `cell` thousandths of a pixel an image side of
/// `pixels` pixels covers: the quotient rounded up, and at least one.
pub open spec fn cells_for(pixels: u32, cell: u32) -> int {
    let covered = (pixels * CELL_UNITS_PER_PIXEL + cell - 1) / (cell as int);
    if covered < 1 {
        1
    } else if covered > MAX_IMAGE_CELLS {
        MAX_IMAGE_CELLS as int
    } else {
        covered
    }
}

/// The mathematical model of a terminal emulator.
pub struct TerminalView {
    pub grid: GridView,
    pub cursor_col: int,
    pub cursor_row: int,
    pub cursor_visible: bool,
    pub pen: Pen,
    pub saved_cursor: Option<(int, int)>,
    pub images: Seq<PlacedImage>,
    /// The bytes that the VT state machine has taken.
    pub fed: Seq<u8>,
    pub kitty: FramerView,
    pub sixel: FramerView,
    /// The size of a cell as the renderer draws it, in thousandths of a
    /// pixel.
    pub cell_width: u32,
    pub cell_height: u32,
}

impl TerminalView {
    /// A terminal that has seen no byte: an empty grid of `cols` x `rows`
    /// cells to be drawn in full, the cursor visible at the top left, the
    /// default pen, nothing saved, no image, and the default cell size.
    pub open spec fn fresh(cols: nat, rows: nat, scrollback: nat) -> TerminalView {
        TerminalView {
            grid: GridView {
                cols,
                rows,
                cells: Seq::new(cols * rows, |i: int| blank_cell()),
                scrollback: Seq::empty(),
                max_scrollback: scrollback,
                dirty: Set::empty(),
                full_redraw: true,
            },
            cursor_col: 0,
            cursor_row: 0,
            cursor_visible: true,
            pen: default_pen(),
            saved_cursor: None,
            images: Seq::empty(),
            fed: Seq::empty(),
            kitty: FramerView::idle(),
            sixel: FramerView::idle(),
            cell_width: DEFAULT_CELL_WIDTH,
            cell_height: DEFAULT_CELL_HEIGHT,
        }
    }

    pub open spec fn cols(self) -> int {
        self.grid.cols as int
    }

    pub open spec fn rows(self) -> int {
        self.grid.rows as int
    }

    /// The invariant of every emulator: a grid with at least one cell, the
    /// cursor on a cell of the grid, and a cell size that is not nothing.
    pub open spec fn wf(self) -> bool {
        &&& self.grid.wf()
        &&& self.cols() >= 1
        &&& self.rows() >= 1
        &&& 0 <= self.cursor_col < self.cols()
        &&& 0 <= self.cursor_row < self.rows()
        &&& self.kitty.wf()
        &&& self.sixel.wf()
        &&& self.cell_width >= 1
        &&& self.cell_height >= 1
        &&& match self.saved_cursor {
            Some((col, row)) => 0 <= col && 0 <= row,
            None => true,
        }
    }

    pub open spec fn with_cursor(self, col: int, row: int) -> TerminalView {
        TerminalView { cursor_col: col, cursor_row: row, ..self }
    }

    /// Line feed: one row down in the same column; on the last row the grid
    /// scrolls up by one instead.
    pub open spec fn line_feed(self) -> TerminalView {
        if self.cursor_row + 1 >= self.rows() {
            TerminalView { grid: self.grid.scroll_up(1), cursor_row: self.rows() - 1, ..self }
        } else {
            TerminalView { cursor_row: self.cursor_row + 1, ..self }
        }
    }

    /// Horizontal tab: to the next multiple of eight, at most the last
    /// column.
    pub open spec fn tab(self) -> TerminalView {
        let stop = (self.cursor_col / 8 + 1) * 8;
        TerminalView {
            cursor_col: if stop >= self.cols() {
                self.cols() - 1
            } else {
                stop
            },
            ..self
        }
    }

    /// Printing a character: the cell at the cursor takes the character with
    /// the pen's rendition, and the cursor moves one column right; past the
    /// right edge it wraps to the start of the next row, and on the last row
    /// the grid scrolls up by one.
    pub open spec fn print(self, ch: char) -> TerminalView {
        let cell = Cell { ch, fg: self.pen.fg, bg: self.pen.bg, attrs: self.pen.attrs };
        let written = TerminalView {
            grid: self.grid.set(self.cursor_col, self.cursor_row, cell),
            ..self
        };
        if self.cursor_col + 1 >= self.cols() {
            written.with_cursor(0, self.cursor_row).line_feed()
        } else {
            written.with_cursor(self.cursor_col + 1, self.cursor_row)
        }
    }

    /// A control character: line feed, carriage return, backspace and tab
    /// act; the bell and every other control do nothing.
    pub open spec fn execute(self, byte: u8) -> TerminalView {
        if byte == 0x0a {
            self.line_feed()
        } else if byte == 0x0d {
            TerminalView { cursor_col: 0, ..self }
        } else if byte == 0x08 {
            TerminalView {
                cursor_col: if self.cursor_col > 0 {
                    self.cursor_col - 1
                } else {
                    0
                },
                ..self
            }
        } else if byte == 0x09 {
            self.tab()
        } else {
            self
        }
    }

    /// `CUP`: to the one-based `(row, col)`, each at least 1 and at most the
    /// grid's.
    pub open spec fn cursor_to(self, row: int, col: int) -> TerminalView {
        TerminalView {
            cursor_row: if row - 1 < self.rows() - 1 {
                row - 1
            } else {
                self.rows() - 1
            },
            cursor_col: if col - 1 < self.cols() - 1 {
                col - 1
            } else {
                self.cols() - 1
            },
            ..self
        }
    }

    pub open spec fn cursor_up(self, n: int) -> TerminalView {
        TerminalView {
            cursor_row: if self.cursor_row >= n {
                self.cursor_row - n
            } else {
                0
            },
            ..self
        }
    }

    pub open spec fn cursor_down(self, n: int) -> TerminalView {
        TerminalView {
            cursor_row: if self.cursor_row + n < self.rows() - 1 {
                self.cursor_row + n
            } else {
                self.rows() - 1
            },
            ..self
        }
    }

    pub open spec fn cursor_forward(self, n: int) -> TerminalView {
        TerminalView {
            cursor_col: if self.cursor_col + n < self.cols() - 1 {
                self.cursor_col + n
            } else {
                self.cols() - 1
            },
            ..self
        }
    }

    pub open spec fn cursor_back(self, n: int) -> TerminalView {
        TerminalView {
            cursor_col: if self.cursor_col >= n {
                self.cursor_col - n
            } else {
                0
            },
            ..self
        }
    }

    /// `ED`: 0 erases from the cursor to the end of the screen, 1 from the
    /// start of the screen to the cursor, 2 and 3 the whole screen. Whole rows
    /// are cleared as rows (and marked), the part of the cursor's row is
    /// erased cell by cell.
    pub open spec fn erase_display(self, mode: int) -> TerminalView {
        if mode == 0 {
            TerminalView {
                grid: self.grid.erase_span(self.cursor_row, self.cursor_col, self.cols())
                    .clear_rows(self.cursor_row + 1, self.rows()),
                ..self
            }
        } else if mode == 1 {
            TerminalView {
                grid: self.grid.clear_rows(0, self.cursor_row).erase_span(
                    self.cursor_row,
                    0,
                    self.cursor_col + 1,
                ),
                ..self
            }
        } else if mode == 2 || mode == 3 {
            TerminalView { grid: self.grid.clear(), ..self }
        } else {
            self
        }
    }

    /// `EL`: 0 erases from the cursor to the end of the line, 1 from the start
    /// of the line to the cursor, 2 the whole line.
    pub open spec fn erase_line(self, mode: int) -> TerminalView {
        if mode == 0 {
            TerminalView {
                grid: self.grid.erase_span(self.cursor_row, self.cursor_col, self.cols()),
                ..self
            }
        } else if mode == 1 {
            TerminalView {
                grid: self.grid.erase_span(self.cursor_row, 0, self.cursor_col + 1),
                ..self
            }
        } else if mode == 2 {
            TerminalView { grid: self.grid.clear_row(self.cursor_row), ..self }
        } else {
            self
        }
    }

    /// Restoring the saved cursor, held to the grid as it is now; nothing
    /// happens where none was saved.
    pub open spec fn restore_cursor(self) -> TerminalView {
        match self.saved_cursor {
            Some((col, row)) => TerminalView {
                cursor_col: if col < self.cols() {
                    col
                } else {
                    self.cols() - 1
                },
                cursor_row: if row < self.rows() {
                    row
                } else {
                    self.rows() - 1
                },
                ..self
            },
            None => self,
        }
    }

    /// A CSI sequence, by its final character. Intermediates are not looked
    /// at, and an unknown final character does nothing.
    pub open spec fn csi(self, params: Seq<Vec<u16>>, action: char) -> TerminalView {
        if action == 'H' || action == 'f' {
            self.cursor_to(count_param(params, 0), count_param(params, 1))
        } else if action == 'A' {
            self.cursor_up(count_param(params, 0))
        } else if action == 'B' {
            self.cursor_down(count_param(params, 0))
        } else if action == 'C' {
            self.cursor_forward(count_param(params, 0))
        } else if action == 'D' {
            self.cursor_back(count_param(params, 0))
        } else if action == 'J' {
            self.erase_display(mode_param(params))
        } else if action == 'K' {
            self.erase_line(mode_param(params))
        } else if action == 'm' {
            TerminalView { pen: sgr(self.pen, params), ..self }
        } else if action == 's' {
            TerminalView { saved_cursor: Some((self.cursor_col, self.cursor_row)), ..self }
        } else if action == 'u' {
            self.restore_cursor()
        } else {
            self
        }
    }

    /// `RIS`: grid cleared, cursor home and visible, default pen, nothing
    /// saved.
    pub open spec fn reset(self) -> TerminalView {
        TerminalView {
            grid: self.grid.clear(),
            cursor_col: 0,
            cursor_row: 0,
            cursor_visible: true,
            pen: default_pen(),
            saved_cursor: None,
            ..self
        }
    }

    /// An escape sequence: `ESC c` resets, every other does nothing.
    pub open spec fn esc(self, byte: u8) -> TerminalView {
        if byte == 0x63 {
            self.reset()
        } else {
            self
        }
    }

    /// The effect of one dispatched action. Device control strings and
    /// operating system commands are accepted and change nothing.
    pub open spec fn perform(self, action: VtAction) -> TerminalView {
        match action {
            VtAction::Print(ch) => self.print(ch),
            VtAction::Execute(byte) => self.execute(byte),
            VtAction::CsiDispatch { params, intermediates, ignore, action } => self.csi(
                params@,
                action,
            ),
            VtAction::EscDispatch { intermediates, ignore, byte } => self.esc(byte),
            _ => self,
        }
    }

    /// The effect of the first `n` of `actions`, in order.
    pub open spec fn perform_all(self, actions: Seq<VtAction>, n: int) -> TerminalView
        decreases n,
    {
        if n <= 0 {
            self
        } else {
            self.perform_all(actions, n - 1).perform(actions[n - 1])
        }
    }

    /// One byte through the VT state machine: what it dispatches is
    /// performed, in order.
    pub open spec fn advance(self, byte: u8) -> TerminalView {
        let actions = vt_actions(self.fed, byte);
        TerminalView { fed: self.fed.push(byte), ..self }.perform_all(
            actions,
            actions.len() as int,
        )
    }

    /// The terminal with the cell size that the renderer draws with.
    pub open spec fn with_cell_size(self, width: u32, height: u32) -> TerminalView {
        TerminalView { cell_width: width, cell_height: height, ..self }
    }

    /// An image placed at the cursor: it covers as many cells as its pixel
    /// size needs at the cell size held, and the cursor moves down by its
    /// height in cells, at most to the last row.
    pub open spec fn add_image(self, image: ImageView) -> TerminalView {
        let width_cells = cells_for(image.width as u32, self.cell_width);
        let height_cells = cells_for(image.height as u32, self.cell_height);
        TerminalView {
            images: self.images.push(
                PlacedImage {
                    image,
                    row: self.cursor_row,
                    col: self.cursor_col,
                    width_cells,
                    height_cells,
                },
            ),
            cursor_row: if self.cursor_row + height_cells < self.rows() {
                self.cursor_row + height_cells
            } else {
                self.rows() - 1
            },
            ..self
        }
    }

    pub open spec fn maybe_add_image(self, image: Option<ImageView>) -> TerminalView {
        match image {
            Some(img) => self.add_image(img),
            None => self,
        }
    }

    /// One byte of pane output: through the VT state machine, then through
    /// the Kitty and the Sixel sniffer; an image that the byte completes is
    /// placed at once.
    pub open spec fn feed(self, byte: u8) -> TerminalView {
        let after_vt = self.advance(byte);
        let kitty = after_vt.kitty.step(byte, KITTY_MIDDLE, KITTY_LAST);
        let after_kitty = TerminalView { kitty: kitty.0, ..after_vt }.maybe_add_image(
            match kitty.1 {
                Some(sequence) => kitty_image(sequence),
                None => None,
            },
        );
        let sixel = after_kitty.sixel.step(byte, SIXEL_MIDDLE, SIXEL_LAST);
        TerminalView { sixel: sixel.0, ..after_kitty }.maybe_add_image(
            match sixel.1 {
                Some(data) => sixel_image(data),
                None => None,
            },
        )
    }

    /// The first `n` of `bytes` fed in order.
    pub open spec fn feed_all(self, bytes: Seq<u8>, n: int) -> TerminalView
        decreases n,
    {
        if n <= 0 {
            self
        } else {
            self.feed_all(bytes, n - 1).feed(bytes[n - 1])
        }
    }

    /// A new geometry: the grid is resized and the cursor held to it.
    pub open spec fn resize(self, cols: nat, rows: nat) -> TerminalView {
        TerminalView {
            grid: self.grid.resize(cols, rows),
            cursor_col: if self.cursor_col < cols - 1 {
                self.cursor_col
            } else {
                cols - 1
            },
            cursor_row: if self.cursor_row < rows - 1 {
                self.cursor_row
            } else {
                rows - 1
            },
            ..self
        }
    }
}

/// A terminal emulator: a grid, a cursor, a pen, and the parsers that turn
/// the bytes a pane puts out into changes of them.
pub struct TerminalEmulator {
    grid: Grid,
    cursor_col: usize,
    cursor_row: usize,
    cursor_visible: bool,
    pen: Pen,
    saved_cursor: Option<(usize, usize)>,
    parser: VtParser,
    kitty_parser: KittyImageParser,
    sixel_parser: SixelImageParser,
    images: Vec<TerminalImage>,
    cell_width: u32,
    cell_height: u32,
}

impl View for TerminalEmulator {
    type V = TerminalView;

    closed spec fn view(&self) -> TerminalView {
        TerminalView {
            grid: self.grid@,
            cursor_col: self.cursor_col as int,
            cursor_row: self.cursor_row as int,
            cursor_visible: self.cursor_visible,
            pen: self.pen,
            saved_cursor: match self.saved_cursor {
                Some((col, row)) => Some((col as int, row as int)),
                None => None,
            },
            images: Seq::new(self.images@.len(), |i: int| self.images@[i]@),
            fed: self.parser.fed(),
            kitty: self.kitty_parser@,
            sixel: self.sixel_parser@,
            cell_width: self.cell_width,
            cell_height: self.cell_height,
        }
    }
}

/// The value of a parameter as the emulator reads it.
fn first_of(param: &Vec<u16>) -> (value: u16)
    ensures
        value == first_value(*param),
{
    if param.len() > 0 {
        param[0]
    } else {
        0
    }
}

fn count_of(params: &Vec<Vec<u16>>, i: usize) -> (count: usize)
    ensures
        count == count_param(params@, i as int),
        1 <= count <= 0xffff,
{
    if i < params.len() {
        let value = first_of(&params[i]);
        if value > 1 {
            value as usize
        } else {
            1
        }
    } else {
        1
    }
}

fn mode_of(params: &Vec<Vec<u16>>) -> (mode: u16)
    ensures
        mode == mode_param(params@),
{
    if params.len() > 0 {
        first_of(&params[0])
    } else {
        0
    }
}

fn apply_sgr_code(pen: Pen, code: u16) -> (out: Pen)
    ensures
        out == sgr_code(pen, code as int),
{
    let mut out = pen;
    if code == 0 {
        out = Pen { fg: Color::white(), bg: Color::black(), attrs: CellAttributes::default() };
    } else if code == 1 {
        out.attrs.bold = true;
    } else if code == 3 {
        out.attrs.italic = true;
    } else if code == 4 {
        out.attrs.underline = true;
    } else if code == 7 {
        out.attrs.inverse = true;
    } else if code == 22 {
        out.attrs.bold = false;
    } else if code == 23 {
        out.attrs.italic = false;
    } else if code == 24 {
        out.attrs.underline = false;
    } else if code == 27 {
        out.attrs.inverse = false;
    } else if 30 <= code && code <= 37 {
        out.fg = Color::from_ansi_256((code - 30) as u8);
    } else if 90 <= code && code <= 97 {
        out.fg = Color::from_ansi_256((code - 90 + 8) as u8);
    } else if 40 <= code && code <= 47 {
        out.bg = Color::from_ansi_256((code - 40) as u8);
    } else if 100 <= code && code <= 107 {
        out.bg = Color::from_ansi_256((code - 100 + 8) as u8);
    } else if code == 39 {
        out.fg = Color::white();
    } else if code == 49 {
        out.bg = Color::black();
    }
    out
}

fn apply_sgr(pen: Pen, params: &Vec<Vec<u16>>) -> (out: Pen)
    ensures
        out == sgr(pen, params@),
{
    if params.len() == 0 {
        return Pen { fg: Color::white(), bg: Color::black(), attrs: CellAttributes::default() };
    }
    let len: usize = params.len();
    let mut out = pen;
    let mut i: usize = 0;
    while i < len
        invariant
            i <= len == params@.len(),
            sgr_from(pen, params@, 0) == sgr_from(out, params@, i as int),
        decreases len - i,
    {
        let code = first_of(&params[i]);
        if code == 38 || code == 48 {
            if len - i < 2 {
                i = len;
            } else if first_of(&params[i + 1]) != 5 || len - i < 3 {
                i += 2;
            } else {
                let color = Color::from_ansi_256((first_of(&params[i + 2]) % 256) as u8);
                if code == 38 {
                    out.fg = color;
                } else {
                    out.bg = color;
                }
                i += 3;
            }
        } else {
            out = apply_sgr_code(out, code);
            i += 1;
        }
    }
    out
}

/// Makes the cells of one row default, from column `from` up to `to`, without
/// marking them.
fn erase_span(grid: &mut Grid, row: usize, from: usize, to: usize)
    requires
        old(grid).wf(),
        row < old(grid)@.rows,
    ensures
        final(grid).wf(),
        final(grid)@ == old(grid)@.erase_span(row as int, from as int, to as int),
{
    proof {
        old(grid).lemma_wf_view();
        assert(old(grid)@.erase_span(row as int, from as int, from as int).cells =~= old(
            grid,
        )@.cells);
    }
    let mut col: usize = from;
    while col < to
        invariant
            grid.wf(),
            old(grid)@.wf(),
            row < old(grid)@.rows,
            from <= col,
            col <= to || col == from,
            grid@ == old(grid)@.erase_span(row as int, from as int, col as int),
        decreases to - col,
    {
        let ghost before = grid@;
        match grid.get_mut(col, row) {
            Some(cell) => {
                cell.reset();
            },
            None => {},
        }
        proof {
            let start = old(grid)@;
            if col < start.cols {
                crate::terminal::grid::lemma_index_in_buffer(
                    col as int,
                    row as int,
                    start.cols as int,
                    start.rows as int,
                );
                assert(grid@ == before.with_cell(col as int, row as int, blank_cell()));
            }
            assert(grid@.cells =~= start.erase_span(row as int, from as int, col + 1).cells);
        }
        col += 1;
    }
    proof {
        if to < from {
            assert(old(grid)@.erase_span(row as int, from as int, to as int).cells =~= old(
                grid,
            )@.cells);
        }
    }
}

/// Clears the rows from `from` up to `to`.
fn clear_rows(grid: &mut Grid, from: usize, to: usize)
    requires
        old(grid).wf(),
        to <= old(grid)@.rows,
    ensures
        final(grid).wf(),
        final(grid)@ == old(grid)@.clear_rows(from as int, to as int),
{
    proof {
        old(grid).lemma_wf_view();
        let start = old(grid)@;
        assert(start.clear_rows(from as int, from as int).cells =~= start.cells);
        assert(start.clear_rows(from as int, from as int).dirty =~= start.dirty);
    }
    let mut row: usize = from;
    while row < to
        invariant
            grid.wf(),
            old(grid)@.wf(),
            to <= old(grid)@.rows,
            from <= row,
            row <= to || row == from,
            grid@ == old(grid)@.clear_rows(from as int, row as int),
        decreases to - row,
    {
        grid.clear_row(row);
        proof {
            let start = old(grid)@;
            let cols = start.cols as int;
            assert(from * cols <= row * cols) by (nonlinear_arith)
                requires
                    from <= row,
                    0 <= cols,
            ;
            assert((row + 1) * cols == row * cols + cols) by (nonlinear_arith);
            assert(grid@.cells =~= start.clear_rows(from as int, row + 1).cells);
            assert(grid@.dirty =~= start.clear_rows(from as int, row + 1).dirty);
        }
        row += 1;
    }
    proof {
        if to < from {
            let start = old(grid)@;
            let cols = start.cols as int;
            assert(to * cols <= from * cols) by (nonlinear_arith)
                requires
                    to <= from,
                    0 <= cols,
            ;
            assert(start.clear_rows(from as int, to as int).cells =~= start.cells);
            assert(start.clear_rows(from as int, to as int).dirty =~= start.dirty);
        }
    }
}

/// How many cells an image side of `pixels` pixels covers.
fn cells_covered(pixels: u32, cell: u32) -> (cells: usize)
    requires
        cell >= 1,
    ensures
        cells == cells_for(pixels, cell),
        1 <= cells <= MAX_IMAGE_CELLS,
{
    assert(pixels * CELL_UNITS_PER_PIXEL <= 0xffff_ffff * 1000) by (nonlinear_arith)
        requires
            0 <= pixels <= 0xffff_ffff,
            CELL_UNITS_PER_PIXEL == 1000,
    ;
    let covered: u64 = ((pixels as u64) * (CELL_UNITS_PER_PIXEL as u64) + (cell as u64) - 1) / (
    cell as u64);
    if covered < 1 {
        1
    } else if covered > MAX_IMAGE_CELLS as u64 {
        MAX_IMAGE_CELLS
    } else {
        covered as usize
    }
}

impl TerminalEmulator {
    /// The invariant that `new` establishes and every method keeps.
    pub closed spec fn wf(&self) -> bool {
        &&& self.grid.wf()
        &&& self@.wf()
    }

    /// A well-formed emulator has a well-formed model.
    pub proof fn lemma_wf_view(&self)
        requires
            self.wf(),
        ensures
            self@.wf(),
    {
    }

    /// An emulator with an empty grid of `cols` x `rows` cells, the cursor
    /// visible at the top left, the default pen and no image.
    pub fn new(cols: usize, rows: usize, scrollback: usize) -> (emulator: TerminalEmulator)
        requires
            cols >= 1,
            rows >= 1,
            cols * rows <= usize::MAX,
        ensures
            emulator.wf(),
            emulator@ == TerminalView::fresh(cols as nat, rows as nat, scrollback as nat),
    {
        let grid = Grid::new(cols, rows, scrollback);
        proof {
            grid.lemma_wf_view();
        }
        let emulator = TerminalEmulator {
            grid,
            cursor_col: 0,
            cursor_row: 0,
            cursor_visible: true,
            pen: Pen { fg: Color::white(), bg: Color::black(), attrs: CellAttributes::default() },
            saved_cursor: None,
            parser: VtParser::new(),
            kitty_parser: KittyImageParser::new(),
            sixel_parser: SixelImageParser::new(),
            images: Vec::new(),
            cell_width: DEFAULT_CELL_WIDTH,
            cell_height: DEFAULT_CELL_HEIGHT,
        };
        assert(emulator@.images =~= Seq::<PlacedImage>::empty());
        assert(emulator@.grid == TerminalView::fresh(
            cols as nat,
            rows as nat,
            scrollback as nat,
        ).grid);
        emulator
    }

    pub fn grid(&self) -> (grid: &Grid)
        requires
            self.wf(),
        ensures
            grid.wf(),
            grid@ == self@.grid,
    {
        &self.grid
    }

    /// The grid, to be changed in place. The emulator stays well formed as
    /// long as the grid does and keeps its geometry.
    pub fn grid_mut(&mut self) -> (grid: &mut Grid)
        requires
            old(self).wf(),
        ensures
            grid.wf(),
            grid@ == old(self)@.grid,
            final(self)@ == (TerminalView { grid: final(grid)@, ..old(self)@ }),
            final(grid).wf() && final(grid)@.wf() && final(grid)@.cols == old(self)@.grid.cols
                && final(grid)@.rows == old(self)@.grid.rows ==> final(self).wf(),
    {
        &mut self.grid
    }

    /// The cursor as `(col, row)`.
    pub fn cursor_position(&self) -> (position: (usize, usize))
        ensures
            position.0 == self@.cursor_col,
            position.1 == self@.cursor_row,
    {
        (self.cursor_col, self.cursor_row)
    }

    pub fn cursor_visible(&self) -> (visible: bool)
        ensures
            visible == self@.cursor_visible,
    {
        self.cursor_visible
    }

    /// The pen that the next character is drawn with.
    pub fn pen(&self) -> (pen: Pen)
        ensures
            pen == self@.pen,
    {
        self.pen
    }

    /// Gives the terminal a new geometry and holds the cursor to it.
    pub fn resize(&mut self, cols: usize, rows: usize)
        requires
            old(self).wf(),
            cols >= 1,
            rows >= 1,
            cols * rows <= usize::MAX,
        ensures
            final(self).wf(),
            final(self)@ == old(self)@.resize(cols as nat, rows as nat),
    {
        self.grid.resize(cols, rows);
        proof {
            self.grid.lemma_wf_view();
        }
        if self.cursor_col > cols - 1 {
            self.cursor_col = cols - 1;
        }
        if self.cursor_row > rows - 1 {
            self.cursor_row = rows - 1;
        }
        assert(self@.images =~= old(self)@.images);
    }

    /// The images placed so far, oldest first.
    pub fn images(&self) -> (images: &Vec<TerminalImage>)
        ensures
            images@.len() == self@.images.len(),
            forall|i: int| 0 <= i < images@.len() ==> (#[trigger] images@[i])@ == self@.images[i],
    {
        &self.images
    }

    fn line_feed(&mut self)
        requires
            old(self).wf(),
        ensures
            final(self).wf(),
            final(self)@ == old(self)@.line_feed(),
    {
        let rows = self.grid.rows();
        if self.cursor_row >= rows - 1 {
            self.grid.scroll_up(1);
            proof {
                self.grid.lemma_wf_view();
            }
            self.cursor_row = rows - 1;
        } else {
            self.cursor_row += 1;
        }
        assert(self@.images =~= old(self)@.images);
    }

    fn write_char(&mut self, ch: char)
        requires
            old(self).wf(),
        ensures
            final(self).wf(),
            final(self)@ == old(self)@.print(ch),
    {
        let cols = self.grid.cols();
        let cell = Cell { ch, fg: self.pen.fg, bg: self.pen.bg, attrs: self.pen.attrs };
        self.grid.set(self.cursor_col, self.cursor_row, cell);
        proof {
            self.grid.lemma_wf_view();
        }
        if self.cursor_col >= cols - 1 {
            self.cursor_col = 0;
            assert(self@.images =~= old(self)@.images);
            self.line_feed();
        } else {
            self.cursor_col += 1;
            assert(self@.images =~= old(self)@.images);
        }
    }

    fn tab(&mut self)
        requires
            old(self).wf(),
        ensures
            final(self).wf(),
            final(self)@ == old(self)@.tab(),
    {
        let cols = self.grid.cols();
        let base: usize = self.cursor_col - self.cursor_col % 8;
        assert((self.cursor_col / 8 + 1) * 8 == base + 8);
        if base >= cols - 1 || cols - 1 - base <= 8 {
            self.cursor_col = cols - 1;
        } else {
            self.cursor_col = base + 8;
        }
        assert(self@.images =~= old(self)@.images);
    }

    fn execute(&mut self, byte: u8)
        requires
            old(self).wf(),
        ensures
            final(self).wf(),
            final(self)@ == old(self)@.execute(byte),
    {
        if byte == 0x0a {
            self.line_feed();
        } else if byte == 0x0d {
            self.cursor_col = 0;
        } else if byte == 0x08 {
            if self.cursor_col > 0 {
                self.cursor_col -= 1;
            }
        } else if byte == 0x09 {
            self.tab();
        }
        assert(self@.images =~= old(self)@.images);
    }

    fn erase_display(&mut self, mode: u16)
        requires
            old(self).wf(),
        ensures
            final(self).wf(),
            final(self)@ == old(self)@.erase_display(mode as int),
    {
        let cols = self.grid.cols();
        let rows = self.grid.rows();
        if mode == 0 {
            erase_span(&mut self.grid, self.cursor_row, self.cursor_col, cols);
            clear_rows(&mut self.grid, self.cursor_row + 1, rows);
        } else if mode == 1 {
            let to: usize = if self.cursor_col < cols {
                self.cursor_col + 1
            } else {
                cols
            };
            clear_rows(&mut self.grid, 0, self.cursor_row);
            erase_span(&mut self.grid, self.cursor_row, 0, to);
        } else if mode == 2 || mode == 3 {
            self.grid.clear();
        }
        proof {
            self.grid.lemma_wf_view();
        }
        assert(self@.images =~= old(self)@.images);
    }

    fn erase_line(&mut self, mode: u16)
        requires
            old(self).wf(),
        ensures
            final(self).wf(),
            final(self)@ == old(self)@.erase_line(mode as int),
    {
        let cols = self.grid.cols();
        if mode == 0 {
            erase_span(&mut self.grid, self.cursor_row, self.cursor_col, cols);
        } else if mode == 1 {
            let to: usize = if self.cursor_col < cols {
                self.cursor_col + 1
            } else {
                cols
            };
            erase_span(&mut self.grid, self.cursor_row, 0, to);
        } else if mode == 2 {
            self.grid.clear_row(self.cursor_row);
        }
        proof {
            self.grid.lemma_wf_view();
        }
        assert(self@.images =~= old(self)@.images);
    }

    fn csi_dispatch(&mut self, params: &Vec<Vec<u16>>, action: char)
        requires
            old(self).wf(),
        ensures
            final(self).wf(),
            final(self)@ == old(self)@.csi(params@, action),
    {
        let cols = self.grid.cols();
        let rows = self.grid.rows();
        if action == 'H' || action == 'f' {
            let row = count_of(params, 0);
            let col = count_of(params, 1);
            self.cursor_row = if row - 1 < rows - 1 {
                row - 1
            } else {
                rows - 1
            };
            self.cursor_col = if col - 1 < cols - 1 {
                col - 1
            } else {
                cols - 1
            };
        } else if action == 'A' {
            let n = count_of(params, 0);
            self.cursor_row = if self.cursor_row >= n {
                self.cursor_row - n
            } else {
                0
            };
        } else if action == 'B' {
            let n = count_of(params, 0);
            self.cursor_row = if n < rows - 1 - self.cursor_row {
                self.cursor_row + n
            } else {
                rows - 1
            };
        } else if action == 'C' {
            let n = count_of(params, 0);
            self.cursor_col = if self.cursor_col < cols - 1 && n < cols - 1 - self.cursor_col {
                self.cursor_col + n
            } else {
                cols - 1
            };
        } else if action == 'D' {
            let n = count_of(params, 0);
            self.cursor_col = if self.cursor_col >= n {
                self.cursor_col - n
            } else {
                0
            };
        } else if action == 'J' {
            self.erase_display(mode_of(params));
        } else if action == 'K' {
            self.erase_line(mode_of(params));
        } else if action == 'm' {
            self.pen = apply_sgr(self.pen, params);
        } else if action == 's' {
            self.saved_cursor = Some((self.cursor_col, self.cursor_row));
        } else if action == 'u' {
            match self.saved_cursor {
                Some((col, row)) => {
                    self.cursor_col = if col < cols {
                        col
                    } else {
                        cols - 1
                    };
                    self.cursor_row = if row < rows {
                        row
                    } else {
                        rows - 1
                    };
                },
                None => {},
            }
        }
        assert(self@.images =~= old(self)@.images);
    }

    fn esc_dispatch(&mut self, byte: u8)
        requires
            old(self).wf(),
        ensures
            final(self).wf(),
            final(self)@ == old(self)@.esc(byte),
    {
        if byte == 0x63 {
            self.grid.clear();
            proof {
                self.grid.lemma_wf_view();
            }
            self.cursor_col = 0;
            self.cursor_row = 0;
            self.cursor_visible = true;
            self.pen = Pen {
                fg: Color::white(),
                bg: Color::black(),
                attrs: CellAttributes::default(),
            };
            self.saved_cursor = None;
        }
        assert(self@.images =~= old(self)@.images);
    }

    /// Applies one action of the VT state machine to grid, cursor and pen.
    pub fn perform(&mut self, action: &VtAction)
        requires
            old(self).wf(),
        ensures
            final(self).wf(),
            final(self)@ == old(self)@.perform(*action),
    {
        match action {
            VtAction::Print(ch) => self.write_char(*ch),
            VtAction::Execute(byte) => self.execute(*byte),
            VtAction::CsiDispatch { params, intermediates, ignore, action } => self.csi_dispatch(
                params,
                *action,
            ),
            VtAction::EscDispatch { intermediates, ignore, byte } => self.esc_dispatch(*byte),
            _ => {},
        }
    }

    /// The size of a cell that images are sized by, in thousandths of a
    /// pixel.
    pub fn cell_size(&self) -> (size: (u32, u32))
        ensures
            size == (self@.cell_width, self@.cell_height),
    {
        (self.cell_width, self.cell_height)
    }

    /// Takes the cell size that the renderer draws with, in thousandths of a
    /// pixel; images placed from now on are sized by it.
    pub fn set_cell_size(&mut self, width: u32, height: u32)
        requires
            old(self).wf(),
            width >= 1,
            height >= 1,
        ensures
            final(self).wf(),
            final(self)@ == old(self)@.with_cell_size(width, height),
    {
        self.cell_width = width;
        self.cell_height = height;
        assert(self@.images =~= old(self)@.images);
    }

    /// Places an image at the cursor and moves the cursor below it.
    pub fn add_image(&mut self, image: DecodedImage)
        requires
            old(self).wf(),
        ensures
            final(self).wf(),
            final(self)@ == old(self)@.add_image(image@),
    {
        let width_cells = cells_covered(image.width(), self.cell_width);
        let height_cells = cells_covered(image.height(), self.cell_height);
        let placed = TerminalImage::new(
            image,
            self.cursor_row,
            self.cursor_col,
            width_cells,
            height_cells,
        );
        self.images.push(placed);
        let rows = self.grid.rows();
        if height_cells < rows - self.cursor_row {
            self.cursor_row += height_cells;
        } else {
            self.cursor_row = rows - 1;
        }
        assert(self@.images =~= old(self)@.add_image(image@).images);
    }

    fn advance(&mut self, byte: u8)
        requires
            old(self).wf(),
        ensures
            final(self).wf(),
            final(self)@ == old(self)@.advance(byte),
    {
        let actions = self.parser.advance(byte);
        assert(self@.images =~= old(self)@.images);
        let ghost start = self@;
        let mut i: usize = 0;
        while i < actions.len()
            invariant
                i <= actions@.len(),
                self.wf(),
                self@ == start.perform_all(actions@, i as int),
            decreases actions@.len() - i,
        {
            self.perform(&actions[i]);
            i += 1;
        }
    }

    /// Feeds one byte to the VT state machine and performs what it
    /// dispatches.
    pub fn process_byte(&mut self, byte: u8)
        requires
            old(self).wf(),
        ensures
            final(self).wf(),
            final(self)@ == old(self)@.advance(byte),
    {
        self.advance(byte);
    }

    fn feed(&mut self, byte: u8)
        requires
            old(self).wf(),
        ensures
            final(self).wf(),
            final(self)@ == old(self)@.feed(byte),
    {
        self.advance(byte);
        let ghost after_vt = self@;
        let kitty = self.kitty_parser.process_byte(byte);
        assert(self@.images =~= after_vt.images);
        match kitty {
            Some(image) => self.add_image(image),
            None => {},
        }
        let ghost after_kitty = self@;
        let sixel = self.sixel_parser.process_byte(byte);
        assert(self@.images =~= after_kitty.images);
        match sixel {
            Some(image) => self.add_image(image),
            None => {},
        }
    }

    /// Feeds the bytes a pane put out: each goes through the VT state
    /// machine and through both image sniffers.
    pub fn process_bytes(&mut self, bytes: &[u8])
        requires
            old(self).wf(),
        ensures
            final(self).wf(),
            final(self)@ == old(self)@.feed_all(bytes@, bytes@.len() as int),
    {
        let mut i: usize = 0;
        while i < bytes.len()
            invariant
                i <= bytes@.len(),
                self.wf(),
                self@ == old(self)@.feed_all(bytes@, i as int),
            decreases bytes@.len() - i,
        {
            self.feed(bytes[i]);
            i += 1;
        }
    }
}

} // verus!

use crate::clipboard::selection::Selection;
use crate::config::types::StartupConfig;
use crate::input::keyboard::{key_bytes, KeyCode, KeyboardHandler, Modifiers, PhysicalKey};
use crate::input::shortcuts::{shortcut_for, ShortcutAction, ShortcutHandler};
use crate::pane::layout::{rect_ids, Rect, SplitDirection, RATIO_HALF};
use crate::pane::manager::{Direction, ManagerView, PaneManager, PaneReport, CELL_UNITS};
use crate::pane::PaneId;
use vstd::prelude::*;
use vstd::string::*;

verus! {

/// The smallest font size, in thousandths of a pixel: 8 pixels.
pub const MIN_FONT_SIZE: u32 = 8000;

/// The largest font size, in thousandths of a pixel: 32 pixels.
pub const MAX_FONT_SIZE: u32 = 32000;

/// One step of the font size shortcuts, in thousandths of a pixel.
pub const FONT_SIZE_STEP: u32 = 1000;

/// The time between two blinks of the cursor, in milliseconds.
pub const BLINK_INTERVAL_MS: u64 = 500;

/// The grid size reported while no pane is active.
pub const FALLBACK_COLS: usize = 80;

pub const FALLBACK_ROWS: usize = 24;

/// What the caller has to do after an event was handled.
#[derive(Debug)]
pub enum Effect {
    /// Nothing.
    Nothing,
    /// Write the bytes to the pseudoterminal of each pane named.
    Write(Vec<(PaneId, Vec<u8>)>),
    /// Put the text on the clipboard.
    Copy(String),
    /// Read the clipboard and hand its text to `handle_paste`.
    Paste,
    /// Give the renderer this font size (in thousandths of a pixel) and hand
    /// its new cell size to `set_cell_dimensions`.
    SetFontSize(u32),
    /// Panes were made, closed or resized: bring the pseudoterminals in step
    /// with the panes.
    PanesChanged,
}

/// How the panes are laid out at startup.
#[derive(Debug, Clone, Copy, PartialEq, Eq, Structural)]
pub enum StartupLayout {
    /// One pane.
    Single,
    /// Two panes, one above the other.
    Horizontal,
    /// Two panes side by side.
    Vertical,
    /// Four panes, two above two.
    Grid,
}

/// The layout that a startup configuration asks for: two panes with the
/// layout `horizontal` or `vertical`, four with `grid`; a single pane for
/// anything else.
pub open spec fn startup_layout(panes: usize, layout: Seq<char>) -> StartupLayout {
    if panes == 2 && layout == "horizontal"@ {
        StartupLayout::Horizontal
    } else if panes == 2 && layout == "vertical"@ {
        StartupLayout::Vertical
    } else if panes == 4 && layout == "grid"@ {
        StartupLayout::Grid
    } else {
        StartupLayout::Single
    }
}

/// The font size after a step up or down, held between 8 and 32 pixels.
pub open spec fn stepped_font_size(size: u32, up: bool) -> u32 {
    let moved = if up {
        size + FONT_SIZE_STEP
    } else {
        size - FONT_SIZE_STEP
    };
    if moved < MIN_FONT_SIZE {
        MIN_FONT_SIZE
    } else if moved > MAX_FONT_SIZE {
        MAX_FONT_SIZE
    } else {
        moved as u32
    }
}

/// A pointer coordinate as a pixel of the window: negative ones count as 0.
pub open spec fn pixel(coordinate: i64) -> u32 {
    if coordinate < 0 {
        0
    } else if coordinate > u32::MAX {
        u32::MAX
    } else {
        coordinate as u32
    }
}

/// Whether the pointer `(x, y)` is over the rectangle.
pub open spec fn pointer_in(rect: Rect, x: i64, y: i64) -> bool {
    rect.covers(x as int, y as int)
}

/// The cell under a pointer that is `offset` pixels into a pane, along one
/// axis.
pub open spec fn cell_at(offset: int, cell: u32) -> int {
    (offset * CELL_UNITS) / (cell as int)
}

/// The cell under the pointer, as a cell number that fits the machine.
pub open spec fn clipped_cell(offset: int, cell: u32) -> usize {
    if cell_at(offset, cell) > usize::MAX {
        usize::MAX
    } else {
        cell_at(offset, cell) as usize
    }
}

/// The first of the first `n` rectangles that the pointer is over.
pub open spec fn pane_under(rects: Seq<(PaneId, Rect)>, x: i64, y: i64, n: int) -> Option<
    (PaneId, Rect),
>
    decreases n,
{
    if n <= 0 {
        None
    } else {
        match pane_under(rects, x, y, n - 1) {
            Some(found) => Some(found),
            None => if pointer_in(rects[n - 1].1, x, y) {
                Some(rects[n - 1])
            } else {
                None
            },
        }
    }
}

/// The title of the window: the base title, followed by the marks of what
/// is on (broadcast, mark mode, input method), each in brackets.
pub open spec fn title_text(base: Seq<char>, broadcast: bool, mark: bool, ime: bool) -> Seq<char> {
    let first = if broadcast {
        base + " - ["@ + "Broadcasting"@
    } else {
        base
    };
    let second = if mark {
        (if broadcast {
            first + "] ["@
        } else {
            first + " - ["@
        }) + "MARK"@
    } else {
        first
    };
    let third = if ime {
        (if broadcast || mark {
            second + "] ["@
        } else {
            second + " - ["@
        }) + "\u{3042}"@
    } else {
        second
    };
    if broadcast || mark || ime {
        third + "]"@
    } else {
        third
    }
}

/// The mathematical model of the orchestrator.
pub struct OrchestratorView {
    pub manager: ManagerView,
    /// The modifiers that key presses are turned into bytes with.
    pub modifiers: Modifiers,
    pub selection: Selection,
    /// Whether the pointer is dragging out a selection.
    pub selecting: bool,
    pub mark_mode: bool,
    pub mark_cursor: Option<(usize, usize)>,
    pub ime_enabled: bool,
    pub cursor_visible: bool,
    pub help_visible: bool,
    pub window_width: u32,
    pub window_height: u32,
    pub dragging_border: bool,
    /// The size of a cell, in thousandths of a pixel.
    pub cell_width: u32,
    pub cell_height: u32,
    /// The font size, in thousandths of a pixel.
    pub font_size: u32,
    /// When the cursor last blinked, in milliseconds.
    pub last_blink: u64,
}

impl OrchestratorView {
    pub open spec fn wf(self) -> bool {
        &&& self.manager.wf()
        &&& self.cell_width > 0
        &&& self.cell_height > 0
    }

    /// The window as a rectangle.
    pub open spec fn window(self) -> Rect {
        Rect { x: 0, y: 0, width: self.window_width, height: self.window_height }
    }

    /// The grid of the active pane.
    pub open spec fn active_grid(self) -> crate::terminal::grid::GridView {
        self.manager.panes[self.manager.active].terminal.grid
    }

    /// The cursor blinks when more than half a second has passed since it
    /// last did.
    pub open spec fn blink(self, now: u64) -> OrchestratorView {
        if now > self.last_blink && now - self.last_blink > BLINK_INTERVAL_MS {
            OrchestratorView { cursor_visible: !self.cursor_visible, last_blink: now, ..self }
        } else {
            self
        }
    }

    /// Copying: an active selection gives its text, if it has any, and is
    /// cleared; without one nothing happens.
    pub open spec fn copy(self) -> (OrchestratorView, Option<Seq<char>>) {
        if self.selection.active {
            let text = self.selection.text(self.active_grid());
            (
                OrchestratorView {
                    selection: Selection { start: (0, 0), end: (0, 0), active: false },
                    ..self
                },
                if text.len() > 0 {
                    Some(text)
                } else {
                    None
                },
            )
        } else {
            (self, None)
        }
    }

    /// Mark mode switched: on, the mark starts at the active pane's cursor;
    /// off, mark and selection go.
    pub open spec fn toggle_mark_mode(self) -> OrchestratorView {
        if self.mark_mode {
            OrchestratorView {
                mark_mode: false,
                mark_cursor: None,
                selection: Selection { start: (0, 0), end: (0, 0), active: false },
                ..self
            }
        } else {
            let terminal = self.manager.panes[self.manager.active].terminal;
            let at = (terminal.cursor_col as usize, terminal.cursor_row as usize);
            OrchestratorView {
                mark_mode: true,
                mark_cursor: Some(at),
                selection: Selection { start: at, end: at, active: false },
                ..self
            }
        }
    }

    /// Where an arrow key moves the mark from `at`: one cell, staying in the
    /// grid of the active pane.
    pub open spec fn moved_mark(self, at: (usize, usize), code: KeyCode) -> (usize, usize) {
        let grid = self.active_grid();
        match code {
            KeyCode::ArrowLeft => (
                if at.0 > 0 {
                    (at.0 - 1) as usize
                } else {
                    0
                },
                at.1,
            ),
            KeyCode::ArrowRight => (
                if at.0 + 1 < grid.cols {
                    (at.0 + 1) as usize
                } else {
                    (grid.cols - 1) as usize
                },
                at.1,
            ),
            KeyCode::ArrowUp => (
                at.0,
                if at.1 > 0 {
                    (at.1 - 1) as usize
                } else {
                    0
                },
            ),
            KeyCode::ArrowDown => (
                at.0,
                if at.1 + 1 < grid.rows {
                    (at.1 + 1) as usize
                } else {
                    (grid.rows - 1) as usize
                },
            ),
            _ => at,
        }
    }

    /// Whether mark mode takes the key.
    pub open spec fn mark_takes(self, code: KeyCode) -> bool {
        self.mark_mode && self.mark_cursor.is_some() && (code == KeyCode::ArrowLeft || code
            == KeyCode::ArrowRight || code == KeyCode::ArrowUp || code == KeyCode::ArrowDown
            || code == KeyCode::Enter || code == KeyCode::Escape)
    }

    /// A key in mark mode: arrows move the mark and the end of the
    /// selection, Enter copies and leaves mark mode, Escape leaves it and
    /// drops the selection.
    pub open spec fn mark_key(self, code: KeyCode) -> (OrchestratorView, Option<Seq<char>>) {
        if !self.mark_takes(code) {
            (self, None)
        } else if code == KeyCode::Enter {
            let (copied, text) = self.copy();
            (OrchestratorView { mark_mode: false, mark_cursor: None, ..copied }, text)
        } else if code == KeyCode::Escape {
            (
                OrchestratorView {
                    mark_mode: false,
                    mark_cursor: None,
                    selection: Selection { start: (0, 0), end: (0, 0), active: false },
                    ..self
                },
                None,
            )
        } else {
            let at = self.moved_mark(self.mark_cursor->0, code);
            (
                OrchestratorView {
                    mark_cursor: Some(at),
                    selection: Selection {
                        end: at,
                        active: self.selection.active || self.selection.start != at,
                        ..self.selection
                    },
                    ..self
                },
                None,
            )
        }
    }
}

/// Wires keyboard, pointer and timer events to the panes: what was pressed
/// or moved comes in, the state moves on, and what is left to do with the
/// outside world comes out as an effect.
pub struct Orchestrator {
    pane_manager: PaneManager,
    keyboard: KeyboardHandler,
    shortcuts: ShortcutHandler,
    selection: Selection,
    selecting: bool,
    mark_mode: bool,
    mark_cursor: Option<(usize, usize)>,
    ime_enabled: bool,
    cursor_visible: bool,
    help_visible: bool,
    window_width: u32,
    window_height: u32,
    dragging_border: bool,
    cell_width: u32,
    cell_height: u32,
    font_size: u32,
    last_blink: u64,
}

impl View for Orchestrator {
    type V = OrchestratorView;

    closed spec fn view(&self) -> OrchestratorView {
        OrchestratorView {
            manager: self.pane_manager@,
            modifiers: self.keyboard.modifiers(),
            selection: self.selection,
            selecting: self.selecting,
            mark_mode: self.mark_mode,
            mark_cursor: self.mark_cursor,
            ime_enabled: self.ime_enabled,
            cursor_visible: self.cursor_visible,
            help_visible: self.help_visible,
            window_width: self.window_width,
            window_height: self.window_height,
            dragging_border: self.dragging_border,
            cell_width: self.cell_width,
            cell_height: self.cell_height,
            font_size: self.font_size,
            last_blink: self.last_blink,
        }
    }
}

fn to_pixel(coordinate: i64) -> (px: u32)
    ensures
        px == pixel(coordinate),
{
    if coordinate < 0 {
        0
    } else if coordinate > u32::MAX as i64 {
        u32::MAX
    } else {
        coordinate as u32
    }
}

fn is_pointer_in(rect: &Rect, x: i64, y: i64) -> (inside: bool)
    ensures
        inside == pointer_in(*rect, x, y),
{
    x >= rect.x as i64 && x < (rect.x as i64) + (rect.width as i64) && y >= rect.y as i64 && y < (
    rect.y as i64) + (rect.height as i64)
}

/// The first rectangle that the pointer is over.
fn find_pane_under(rects: &Vec<(PaneId, Rect)>, x: i64, y: i64) -> (found: Option<(PaneId, Rect)>)
    ensures
        found == pane_under(rects@, x, y, rects@.len() as int),
        match found {
            Some(pane) => pointer_in(pane.1, x, y) && rect_ids(rects@).contains(pane.0),
            None => true,
        },
{
    let mut i: usize = 0;
    while i < rects.len()
        invariant
            i <= rects@.len(),
            pane_under(rects@, x, y, i as int).is_none(),
        decreases rects@.len() - i,
    {
        if is_pointer_in(&rects[i].1, x, y) {
            proof {
                assert(rect_ids(rects@)[i as int] == rects@[i as int].0);
                lemma_pane_under_stays(rects@, x, y, i + 1, rects@.len() as int);
            }
            return Some(rects[i]);
        }
        i += 1;
    }
    None
}

proof fn lemma_pane_under_stays(rects: Seq<(PaneId, Rect)>, x: i64, y: i64, n: int, m: int)
    requires
        0 <= n <= m,
        pane_under(rects, x, y, n).is_some(),
    ensures
        pane_under(rects, x, y, m) == pane_under(rects, x, y, n),
    decreases m - n,
{
    if n < m {
        lemma_pane_under_stays(rects, x, y, n, m - 1);
    }
}

/// The cell under a pointer that is `offset` pixels into a pane.
fn cell_under(offset: u32, cell: u32) -> (at: usize)
    requires
        cell > 0,
    ensures
        at == clipped_cell(offset as int, cell),
{
    assert(offset * CELL_UNITS <= 0xffff_ffff * 1000) by (nonlinear_arith)
        requires
            0 <= offset <= 0xffff_ffff,
            CELL_UNITS == 1000,
    ;
    let at: u64 = ((offset as u64) * (CELL_UNITS as u64)) / (cell as u64);
    assert(at <= 0xffff_ffff * 1000) by (nonlinear_arith)
        requires
            at == (offset * CELL_UNITS) / (cell as int),
            0 <= offset * CELL_UNITS <= 0xffff_ffff * 1000,
            cell > 0,
    ;
    if at > usize::MAX as u64 {
        usize::MAX
    } else {
        at as usize
    }
}

/// The layout that a startup configuration asks for.
pub fn plan_startup(config: &StartupConfig) -> (layout: StartupLayout)
    ensures
        layout == startup_layout(config.panes, config.layout@),
{
    let horizontal = "horizontal".to_string();
    let vertical = "vertical".to_string();
    let grid = "grid".to_string();
    if config.panes == 2 && config.layout == horizontal {
        StartupLayout::Horizontal
    } else if config.panes == 2 && config.layout == vertical {
        StartupLayout::Vertical
    } else if config.panes == 4 && config.layout == grid {
        StartupLayout::Grid
    } else {
        StartupLayout::Single
    }
}

/// The title of the window.
pub fn window_title(base: &str, broadcast: bool, mark: bool, ime: bool) -> (title: String)
    ensures
        title@ == title_text(base@, broadcast, mark, ime),
{
    let mut title = base.to_string();
    let mut any = false;
    if broadcast {
        title.append(" - [");
        title.append("Broadcasting");
        any = true;
    }
    if mark {
        if any {
            title.append("] [");
        } else {
            title.append(" - [");
        }
        title.append("MARK");
        any = true;
    }
    if ime {
        if any {
            title.append("] [");
        } else {
            title.append(" - [");
        }
        title.append("\u{3042}");
        any = true;
    }
    if any {
        title.append("]");
    }
    title
}

impl Orchestrator {
    /// The invariant that `new` establishes and every method keeps.
    pub closed spec fn wf(&self) -> bool {
        &&& self.pane_manager.wf()
        &&& self.cell_width > 0
        &&& self.cell_height > 0
    }

    /// A well-formed orchestrator has a well-formed model.
    pub proof fn lemma_wf_view(&self)
        requires
            self.wf(),
        ensures
            self@.wf(),
    {
        self.pane_manager.lemma_wf_view();
    }

    /// An orchestrator over a manager, for a window of the given size and a
    /// renderer with the given cell and font size.
    pub fn new(
        pane_manager: PaneManager,
        window_width: u32,
        window_height: u32,
        cell_width: u32,
        cell_height: u32,
        font_size: u32,
    ) -> (orchestrator: Orchestrator)
        requires
            pane_manager.wf(),
            cell_width > 0,
            cell_height > 0,
        ensures
            orchestrator.wf(),
            orchestrator@ == (OrchestratorView {
                manager: pane_manager@,
                modifiers: Modifiers { control: false, shift: false, alt: false },
                selection: Selection { start: (0, 0), end: (0, 0), active: false },
                selecting: false,
                mark_mode: false,
                mark_cursor: None,
                ime_enabled: false,
                cursor_visible: true,
                help_visible: false,
                window_width,
                window_height,
                dragging_border: false,
                cell_width,
                cell_height,
                font_size,
                last_blink: 0,
            }),
    {
        Orchestrator {
            pane_manager,
            keyboard: KeyboardHandler::new(),
            shortcuts: ShortcutHandler::new(),
            selection: Selection::new(),
            selecting: false,
            mark_mode: false,
            mark_cursor: None,
            ime_enabled: false,
            cursor_visible: true,
            help_visible: false,
            window_width,
            window_height,
            dragging_border: false,
            cell_width,
            cell_height,
            font_size,
            last_blink: 0,
        }
    }

    pub fn pane_manager(&self) -> (manager: &PaneManager)
        requires
            self.wf(),
        ensures
            manager.wf(),
            manager@ == self@.manager,
    {
        &self.pane_manager
    }

    /// The pane manager, to be changed in place; the orchestrator stays well
    /// formed as long as the manager does.
    pub fn pane_manager_mut(&mut self) -> (manager: &mut PaneManager)
        requires
            old(self).wf(),
        ensures
            manager.wf(),
            manager@ == old(self)@.manager,
            final(self)@ == (OrchestratorView { manager: final(manager)@, ..old(self)@ }),
            final(manager).wf() ==> final(self).wf(),
    {
        &mut self.pane_manager
    }

    pub fn selection(&self) -> (selection: Selection)
        ensures
            selection == self@.selection,
    {
        self.selection
    }

    pub fn window_rect(&self) -> (rect: Rect)
        ensures
            rect == self@.window(),
            rect.fits(),
    {
        Rect::new(0, 0, self.window_width, self.window_height)
    }

    /// The size of a cell, in thousandths of a pixel.
    pub fn cell_dimensions(&self) -> (size: (u32, u32))
        ensures
            size == (self@.cell_width, self@.cell_height),
    {
        (self.cell_width, self.cell_height)
    }

    /// The font size, in thousandths of a pixel.
    pub fn font_size(&self) -> (size: u32)
        ensures
            size == self@.font_size,
    {
        self.font_size
    }

    pub fn is_cursor_visible(&self) -> (visible: bool)
        ensures
            visible == self@.cursor_visible,
    {
        self.cursor_visible
    }

    pub fn is_help_visible(&self) -> (visible: bool)
        ensures
            visible == self@.help_visible,
    {
        self.help_visible
    }

    /// Check if broadcast mode is enabled
    pub fn is_broadcast_enabled(&self) -> (enabled: bool)
        ensures
            enabled == self@.manager.broadcast,
    {
        self.pane_manager.is_broadcast_enabled()
    }

    /// Check if mark mode is active
    pub fn is_mark_mode_active(&self) -> (active: bool)
        ensures
            active == self@.mark_mode,
    {
        self.mark_mode
    }

    /// Set whether the input method is enabled (the window system says so)
    pub fn set_ime_enabled(&mut self, enabled: bool)
        ensures
            final(self)@ == (OrchestratorView { ime_enabled: enabled, ..old(self)@ }),
            old(self).wf() ==> final(self).wf(),
    {
        self.ime_enabled = enabled;
    }

    /// Check if the input method is enabled
    pub fn is_ime_enabled(&self) -> (enabled: bool)
        ensures
            enabled == self@.ime_enabled,
    {
        self.ime_enabled
    }

    /// The size of the active pane's grid as `(cols, rows)`.
    pub fn grid_info(&self) -> (size: (usize, usize))
        requires
            self.wf(),
        ensures
            size.0 == self@.active_grid().cols,
            size.1 == self@.active_grid().rows,
    {
        proof {
            self.pane_manager.lemma_wf_view();
        }
        match self.pane_manager.active_pane() {
            Some(pane) => {
                let grid = pane.terminal().grid();
                (grid.cols(), grid.rows())
            },
            None => (FALLBACK_COLS, FALLBACK_ROWS),
        }
    }

    /// The modifiers that were reported last.
    pub fn update_modifiers(&mut self, modifiers: Modifiers)
        ensures
            final(self)@ == (OrchestratorView { modifiers, ..old(self)@ }),
            old(self).wf() ==> final(self).wf(),
    {
        self.keyboard.update_modifiers(modifiers);
    }

    /// The window has a new size: every pane gets the size of its new
    /// rectangle.
    pub fn resize(&mut self, width: u32, height: u32)
        requires
            old(self).wf(),
        ensures
            final(self).wf(),
            final(self)@ == (OrchestratorView {
                window_width: width,
                window_height: height,
                manager: old(self)@.manager.resize_all(
                    Rect { x: 0, y: 0, width, height },
                    old(self)@.cell_width,
                    old(self)@.cell_height,
                ),
                ..old(self)@
            }),
    {
        self.window_width = width;
        self.window_height = height;
        let window_rect = Rect::new(0, 0, width, height);
        self.pane_manager.resize_all_panes(window_rect, self.cell_width, self.cell_height);
    }

    /// The renderer has a new cell size: every pane gets the size that its
    /// rectangle now holds.
    pub fn set_cell_dimensions(&mut self, cell_width: u32, cell_height: u32)
        requires
            old(self).wf(),
            cell_width > 0,
            cell_height > 0,
        ensures
            final(self).wf(),
            final(self)@ == (OrchestratorView {
                cell_width,
                cell_height,
                manager: old(self)@.manager.resize_all(
                    old(self)@.window(),
                    cell_width,
                    cell_height,
                ),
                ..old(self)@
            }),
    {
        self.cell_width = cell_width;
        self.cell_height = cell_height;
        let window_rect = self.window_rect();
        self.pane_manager.resize_all_panes(window_rect, cell_width, cell_height);
    }

    /// Lets the cursor blink: it changes when more than half a second has
    /// passed since it last did. `now` is the time in milliseconds.
    pub fn update_cursor_blink(&mut self, now: u64)
        ensures
            final(self)@ == old(self)@.blink(now),
            old(self).wf() ==> final(self).wf(),
    {
        if now > self.last_blink && now - self.last_blink > BLINK_INTERVAL_MS {
            self.cursor_visible = !self.cursor_visible;
            self.last_blink = now;
        }
    }

    /// Looks at what the reading of the panes found in this frame; see
    /// `PaneManager::process_all_pty_output`.
    pub fn process_pty_output(&mut self, reports: &Vec<PaneReport>) -> (outcome: (bool, bool))
        requires
            old(self).wf(),
        ensures
            final(self).wf(),
            outcome.0 == crate::pane::manager::any_output(reports@),
            (final(self)@.manager, outcome.1) == old(self)@.manager.reap(
                reports@,
                reports@.len() as int,
                old(self)@.window(),
                old(self)@.cell_width,
                old(self)@.cell_height,
            ),
            final(self)@ == (OrchestratorView { manager: final(self)@.manager, ..old(self)@ }),
    {
        let window_rect = self.window_rect();
        self.pane_manager.process_all_pty_output(
            reports,
            window_rect,
            self.cell_width,
            self.cell_height,
        )
    }

    /// Changes the font size by one step; the size stays between 8 and 32
    /// pixels. Where it changes, the renderer is to take it over.
    pub fn change_font_size(&mut self, up: bool) -> (effect: Effect)
        ensures
            final(self)@ == (OrchestratorView {
                font_size: stepped_font_size(old(self)@.font_size, up),
                ..old(self)@
            }),
            old(self).wf() ==> final(self).wf(),
            match effect {
                Effect::SetFontSize(size) => size == final(self)@.font_size && size != old(
                    self,
                )@.font_size,
                Effect::Nothing => final(self)@.font_size == old(self)@.font_size,
                _ => false,
            },
    {
        let moved: u64 = if up {
            (self.font_size as u64) + (FONT_SIZE_STEP as u64)
        } else if self.font_size >= FONT_SIZE_STEP {
            (self.font_size - FONT_SIZE_STEP) as u64
        } else {
            0
        };
        let new_size: u32 = if moved < MIN_FONT_SIZE as u64 {
            MIN_FONT_SIZE
        } else if moved > MAX_FONT_SIZE as u64 {
            MAX_FONT_SIZE
        } else {
            moved as u32
        };
        if new_size != self.font_size {
            self.font_size = new_size;
            Effect::SetFontSize(new_size)
        } else {
            Effect::Nothing
        }
    }

    /// Copies the selection: its text, if any, goes to the clipboard, and
    /// the selection is cleared.
    pub fn handle_copy(&mut self) -> (effect: Effect)
        requires
            old(self).wf(),
        ensures
            final(self).wf(),
            final(self)@ == old(self)@.copy().0,
            match effect {
                Effect::Copy(text) => old(self)@.copy().1 == Some(text@),
                Effect::Nothing => old(self)@.copy().1.is_none(),
                _ => false,
            },
    {
        if !self.selection.active {
            return Effect::Nothing;
        }
        proof {
            self.pane_manager.lemma_wf_view();
        }
        let mut effect = Effect::Nothing;
        match self.pane_manager.active_pane() {
            Some(pane) => {
                let text = self.selection.get_text(pane.terminal().grid());
                if !text.as_str().is_empty() {
                    effect = Effect::Copy(text);
                }
            },
            None => {},
        }
        self.selection.clear();
        effect
    }

    /// Takes the text that the clipboard held: it goes to the panes as
    /// input, unless it is empty or the clipboard could not be read.
    pub fn handle_paste(&self, text: Option<String>) -> (effect: Effect)
        requires
            self.wf(),
        ensures
            match effect {
                Effect::Write(writes) => {
                    &&& text.is_some()
                    &&& text->0@.len() > 0
                    &&& writes@.len() == self@.manager.input_targets().len()
                    &&& forall|i: int|
                        0 <= i < writes@.len() ==> (#[trigger] writes@[i]).0
                            == self@.manager.input_targets()[i] && writes@[i].1@
                            == vstd::utf8::encode_utf8(text->0@)
                },
                Effect::Nothing => text.is_none() || text->0@.len() == 0,
                _ => false,
            },
    {
        match text {
            Some(pasted) => {
                if !pasted.as_str().is_empty() {
                    let bytes = pasted.as_str().as_bytes();
                    Effect::Write(self.pane_manager.write_input(bytes))
                } else {
                    Effect::Nothing
                }
            },
            None => Effect::Nothing,
        }
    }

    /// Takes text that the input method committed: it goes to the panes as
    /// input, unless it is empty.
    pub fn handle_ime_commit(&self, text: String) -> (effect: Effect)
        requires
            self.wf(),
        ensures
            match effect {
                Effect::Write(writes) => {
                    &&& text@.len() > 0
                    &&& writes@.len() == self@.manager.input_targets().len()
                    &&& forall|i: int|
                        0 <= i < writes@.len() ==> (#[trigger] writes@[i]).0
                            == self@.manager.input_targets()[i] && writes@[i].1@
                            == vstd::utf8::encode_utf8(text@)
                },
                Effect::Nothing => text@.len() == 0,
                _ => false,
            },
    {
        if !text.as_str().is_empty() {
            let bytes = text.as_str().as_bytes();
            Effect::Write(self.pane_manager.write_input(bytes))
        } else {
            Effect::Nothing
        }
    }

    /// Switches mark mode, the selection by keyboard, on or off.
    pub fn toggle_mark_mode(&mut self)
        requires
            old(self).wf(),
        ensures
            final(self).wf(),
            final(self)@ == old(self)@.toggle_mark_mode(),
    {
        proof {
            self.pane_manager.lemma_wf_view();
        }
        if self.mark_mode {
            self.mark_mode = false;
            self.mark_cursor = None;
            self.selection.clear();
        } else {
            self.mark_mode = true;
            match self.pane_manager.active_pane() {
                Some(pane) => {
                    let (col, row) = pane.terminal().cursor_position();
                    self.mark_cursor = Some((col, row));
                    self.selection.start_at(col, row);
                },
                None => {},
            }
        }
    }

    /// Offers a key to mark mode; says whether mark mode took it.
    pub fn handle_mark_mode_navigation(&mut self, key_code: KeyCode) -> (outcome: (bool, Effect))
        requires
            old(self).wf(),
        ensures
            final(self).wf(),
            outcome.0 == old(self)@.mark_takes(key_code),
            final(self)@ == old(self)@.mark_key(key_code).0,
            match outcome.1 {
                Effect::Copy(text) => old(self)@.mark_key(key_code).1 == Some(text@),
                Effect::Nothing => old(self)@.mark_key(key_code).1.is_none(),
                _ => false,
            },
    {
        if !self.mark_mode {
            return (false, Effect::Nothing);
        }
        let (mut col, mut row) = match self.mark_cursor {
            Some(at) => at,
            None => {
                return (false, Effect::Nothing);
            },
        };
        proof {
            self.pane_manager.lemma_wf_view();
        }
        let (cols, rows) = self.grid_info();
        let max_col: usize = if cols > 0 {
            cols - 1
        } else {
            0
        };
        let max_row: usize = if rows > 0 {
            rows - 1
        } else {
            0
        };
        match key_code {
            KeyCode::ArrowLeft => {
                if col > 0 {
                    col -= 1;
                }
            },
            KeyCode::ArrowRight => {
                col = if col < max_col {
                    col + 1
                } else {
                    max_col
                };
            },
            KeyCode::ArrowUp => {
                if row > 0 {
                    row -= 1;
                }
            },
            KeyCode::ArrowDown => {
                row = if row < max_row {
                    row + 1
                } else {
                    max_row
                };
            },
            KeyCode::Enter => {
                let effect = self.handle_copy();
                self.mark_mode = false;
                self.mark_cursor = None;
                return (true, effect);
            },
            KeyCode::Escape => {
                self.mark_mode = false;
                self.mark_cursor = None;
                self.selection.clear();
                return (true, Effect::Nothing);
            },
            _ => {
                return (false, Effect::Nothing);
            },
        }
        self.mark_cursor = Some((col, row));
        self.selection.update_end(col, row);
        (true, Effect::Nothing)
    }

    /// Does what a shortcut asks for.
    pub fn handle_shortcut_action(&mut self, action: ShortcutAction) -> (effect: Effect)
        requires
            old(self).wf(),
        ensures
            final(self).wf(),
            final(self)@ == old(self)@.shortcut(action).0,
            effect_matches(
                effect,
                old(self)@.shortcut(action).1,
                old(self)@.manager.input_targets(),
            ),
    {
        let window_rect = self.window_rect();
        let cell_width = self.cell_width;
        let cell_height = self.cell_height;
        match action {
            ShortcutAction::SplitHorizontal => {
                self.pane_manager.split_active_pane(
                    SplitDirection::Horizontal,
                    window_rect,
                    cell_width,
                    cell_height,
                );
                Effect::PanesChanged
            },
            ShortcutAction::SplitVertical => {
                self.pane_manager.split_active_pane(
                    SplitDirection::Vertical,
                    window_rect,
                    cell_width,
                    cell_height,
                );
                Effect::PanesChanged
            },
            ShortcutAction::ClosePane => {
                self.pane_manager.close_active_pane(window_rect, cell_width, cell_height);
                Effect::PanesChanged
            },
            ShortcutAction::MoveFocusLeft => {
                self.pane_manager.focus_left(window_rect);
                Effect::Nothing
            },
            ShortcutAction::MoveFocusDown => {
                self.pane_manager.focus_down(window_rect);
                Effect::Nothing
            },
            ShortcutAction::MoveFocusUp => {
                self.pane_manager.focus_up(window_rect);
                Effect::Nothing
            },
            ShortcutAction::MoveFocusRight => {
                self.pane_manager.focus_right(window_rect);
                Effect::Nothing
            },
            ShortcutAction::MoveFocusNext => {
                self.pane_manager.focus_next();
                Effect::Nothing
            },
            ShortcutAction::MoveFocusPrev => {
                self.pane_manager.focus_prev();
                Effect::Nothing
            },
            ShortcutAction::ToggleBroadcast => {
                self.pane_manager.toggle_broadcast();
                Effect::Nothing
            },
            ShortcutAction::IncreaseFontSize => self.change_font_size(true),
            ShortcutAction::DecreaseFontSize => self.change_font_size(false),
            ShortcutAction::Copy => self.handle_copy(),
            ShortcutAction::Paste => Effect::Paste,
            ShortcutAction::ToggleMarkMode => {
                self.toggle_mark_mode();
                Effect::Nothing
            },
        }
    }

    /// Takes a key press. F1 shows and hides the help; while the help shows,
    /// Escape hides it and every other key is dropped. Otherwise mark mode is
    /// offered the key first, then the shortcuts; a key that neither takes
    /// goes to the panes as the bytes it stands for.
    pub fn handle_keyboard_input(&mut self, key: &PhysicalKey, modifiers: Modifiers) -> (effect:
        Effect)
        requires
            old(self).wf(),
        ensures
            final(self).wf(),
            final(self)@ == old(self)@.key_press(*key, modifiers).0,
            effect_matches(
                effect,
                old(self)@.key_press(*key, modifiers).1,
                old(self)@.manager.input_targets(),
            ),
    {
        let code = match key {
            PhysicalKey::Code(code) => Some(*code),
            PhysicalKey::Unidentified => None,
        };
        match code {
            Some(KeyCode::F1) => {
                self.help_visible = !self.help_visible;
                return Effect::Nothing;
            },
            Some(KeyCode::Escape) => {
                if self.help_visible {
                    self.help_visible = false;
                    return Effect::Nothing;
                }
            },
            _ => {},
        }
        if self.help_visible {
            return Effect::Nothing;
        }
        match code {
            Some(key_code) => {
                let (taken, effect) = self.handle_mark_mode_navigation(key_code);
                if taken {
                    return effect;
                }
                match self.shortcuts.match_shortcut(key_code, modifiers) {
                    Some(action) => {
                        return self.handle_shortcut_action(action);
                    },
                    None => {},
                }
            },
            None => {},
        }
        match self.keyboard.handle_key(key) {
            Some(bytes) => Effect::Write(self.pane_manager.write_input(bytes.as_slice())),
            None => Effect::Nothing,
        }
    }

    /// The left button went down at `(x, y)`: near a border a drag of that
    /// border starts; over a pane the pane becomes active and a selection
    /// starts at the cell under the pointer.
    pub fn handle_mouse_press(&mut self, x: i64, y: i64)
        requires
            old(self).wf(),
        ensures
            final(self).wf(),
            final(self)@ == old(self)@.mouse_press(x, y),
    {
        let window_rect = self.window_rect();
        let px = to_pixel(x);
        let py = to_pixel(y);
        if self.pane_manager.is_near_border(px, py, window_rect) {
            self.dragging_border = true;
            return ;
        }
        proof {
            self.pane_manager.lemma_wf_view();
        }
        let rects = self.pane_manager.layout().calculate_rects(window_rect);
        match find_pane_under(&rects, x, y) {
            Some((pane_id, rect)) => {
                self.pane_manager.set_active_pane(pane_id);
                let col = cell_under((x - rect.x as i64) as u32, self.cell_width);
                let row = cell_under((y - rect.y as i64) as u32, self.cell_height);
                self.selection.start_at(col, row);
                self.selecting = true;
            },
            None => {},
        }
    }

    /// The left button went up: a drag ends.
    pub fn handle_mouse_release(&mut self)
        ensures
            final(self)@ == (OrchestratorView {
                dragging_border: false,
                selecting: false,
                ..old(self)@
            }),
            old(self).wf() ==> final(self).wf(),
    {
        self.dragging_border = false;
        self.selecting = false;
    }

    /// The pointer moved to `(x, y)`: a border that is dragged follows it,
    /// and a selection that is dragged out ends at the cell under it, as long
    /// as the pointer is over the active pane. Says whether anything is to be
    /// drawn again.
    pub fn handle_mouse_move(&mut self, x: i64, y: i64) -> (needs_redraw: bool)
        requires
            old(self).wf(),
        ensures
            final(self).wf(),
            (final(self)@, needs_redraw) == old(self)@.mouse_move(x, y),
    {
        let window_rect = self.window_rect();
        let mut needs_redraw = false;
        if self.dragging_border {
            let px = to_pixel(x);
            let py = to_pixel(y);
            if self.pane_manager.update_border_at(
                px,
                py,
                window_rect,
                self.cell_width,
                self.cell_height,
            ) {
                needs_redraw = true;
            }
        }
        if self.selecting {
            proof {
                self.pane_manager.lemma_wf_view();
            }
            let rects = self.pane_manager.layout().calculate_rects(window_rect);
            match find_pane_under(&rects, x, y) {
                Some((pane_id, rect)) => {
                    if pane_id == self.pane_manager.active_pane_id() {
                        let col = cell_under((x - rect.x as i64) as u32, self.cell_width);
                        let row = cell_under((y - rect.y as i64) as u32, self.cell_height);
                        self.selection.update_end(col, row);
                        needs_redraw = true;
                    }
                },
                None => {},
            }
        }
        needs_redraw
    }

    /// Makes the panes that the startup configuration asks for.
    pub fn initialize_startup_panes(&mut self, config: &StartupConfig)
        requires
            old(self).wf(),
        ensures
            final(self).wf(),
            final(self)@ == old(self)@.startup(
                startup_layout(config.panes, config.layout@),
                config.split_ratio,
                config.vertical_ratio,
            ),
    {
        let window_rect = self.window_rect();
        let cell_width = self.cell_width;
        let cell_height = self.cell_height;
        match plan_startup(config) {
            StartupLayout::Single => {},
            StartupLayout::Horizontal => {
                self.pane_manager.split_active_pane_with_ratio(
                    SplitDirection::Horizontal,
                    window_rect,
                    cell_width,
                    cell_height,
                    config.split_ratio,
                );
            },
            StartupLayout::Vertical => {
                self.pane_manager.split_active_pane_with_ratio(
                    SplitDirection::Vertical,
                    window_rect,
                    cell_width,
                    cell_height,
                    config.vertical_ratio,
                );
            },
            StartupLayout::Grid => {
                self.pane_manager.split_active_pane_with_ratio(
                    SplitDirection::Horizontal,
                    window_rect,
                    cell_width,
                    cell_height,
                    config.split_ratio,
                );
                self.pane_manager.set_active_pane(0);
                self.pane_manager.split_active_pane_with_ratio(
                    SplitDirection::Vertical,
                    window_rect,
                    cell_width,
                    cell_height,
                    config.vertical_ratio,
                );
                self.pane_manager.set_active_pane(1);
                self.pane_manager.split_active_pane_with_ratio(
                    SplitDirection::Vertical,
                    window_rect,
                    cell_width,
                    cell_height,
                    config.vertical_ratio,
                );
                self.pane_manager.set_active_pane(0);
            },
        }
    }

    /// Where the input method shows its window: the pixel of the active
    /// pane's cursor cell.
    pub fn get_ime_cursor_position(&self) -> (position: (u32, u32))
        requires
            self.wf(),
        ensures
            position == self@.ime_cursor_position(),
    {
        let window_rect = self.window_rect();
        proof {
            self.pane_manager.lemma_wf_view();
        }
        let rect = match self.pane_manager.active_pane_rect(window_rect) {
            Some(rect) => rect,
            None => {
                return (0, 0);
            },
        };
        match self.pane_manager.active_pane() {
            Some(pane) => {
                let (col, row) = pane.terminal().cursor_position();
                (
                    pixel_of(rect.x, col, self.cell_width),
                    pixel_of(rect.y, row, self.cell_height),
                )
            },
            None => (0, 0),
        }
    }
}

/// The pixel where cell number `index` starts in a pane that starts at
/// `origin`; the last pixel there is where it would lie beyond.
pub open spec fn cell_pixel(origin: u32, index: usize, cell: u32) -> u32 {
    let at = origin + (index * cell) / (CELL_UNITS as int);
    if at > u32::MAX {
        u32::MAX
    } else {
        at as u32
    }
}

pub fn pixel_of(origin: u32, index: usize, cell: u32) -> (px: u32)
    ensures
        px == cell_pixel(origin, index, cell),
{
    assert(index * cell <= 0xffff_ffff_ffff_ffff * 0xffff_ffff) by (nonlinear_arith)
        requires
            0 <= index <= 0xffff_ffff_ffff_ffff,
            0 <= cell <= 0xffff_ffff,
    ;
    let at: u128 = (origin as u128) + ((index as u128) * (cell as u128)) / (CELL_UNITS as u128);
    if at > u32::MAX as u128 {
        u32::MAX
    } else {
        at as u32
    }
}

/// What an effect tells, as plain values.
pub enum EffectView {
    Nothing,
    /// Input for the panes in `input_targets`.
    Write(Seq<u8>),
    Copy(Seq<char>),
    Paste,
    SetFontSize(u32),
    PanesChanged,
}

/// Whether `effect` is the effect that `view` describes, where input goes
/// to the panes `targets`: a `Write` holds one write for each target, in
/// order, each with the same bytes.
pub open spec fn effect_matches(effect: Effect, view: EffectView, targets: Seq<PaneId>) -> bool {
    match (effect, view) {
        (Effect::Nothing, EffectView::Nothing) => true,
        (Effect::Write(writes), EffectView::Write(bytes)) => {
            &&& writes@.len() == targets.len()
            &&& forall|i: int|
                0 <= i < writes@.len() ==> (#[trigger] writes@[i]).0 == targets[i] && writes@[i].1@
                    == bytes
        },
        (Effect::Copy(text), EffectView::Copy(copied)) => text@ == copied,
        (Effect::Paste, EffectView::Paste) => true,
        (Effect::SetFontSize(size), EffectView::SetFontSize(wanted)) => size == wanted,
        (Effect::PanesChanged, EffectView::PanesChanged) => true,
        _ => false,
    }
}

impl OrchestratorView {
    /// The pixel of the active pane's cursor cell: the pane's corner plus as
    /// many cells as the cursor is into the pane.
    pub open spec fn ime_cursor_position(self) -> (u32, u32) {
        let rect = crate::pane::manager::rect_of(
            self.manager.layout.root.rects(self.window()),
            self.manager.active,
        );
        let terminal = self.manager.panes[self.manager.active].terminal;
        (
            cell_pixel(rect.x, terminal.cursor_col as usize, self.cell_width),
            cell_pixel(rect.y, terminal.cursor_row as usize, self.cell_height),
        )
    }

    pub open spec fn with_manager(self, manager: ManagerView) -> OrchestratorView {
        OrchestratorView { manager, ..self }
    }

    /// What a shortcut does, and what it leaves to do.
    pub open spec fn shortcut(self, action: ShortcutAction) -> (OrchestratorView, EffectView) {
        let window = self.window();
        match action {
            ShortcutAction::SplitHorizontal => (
                self.with_manager(
                    self.manager.split_active(
                        SplitDirection::Horizontal,
                        window,
                        self.cell_width,
                        self.cell_height,
                        RATIO_HALF,
                    ).0,
                ),
                EffectView::PanesChanged,
            ),
            ShortcutAction::SplitVertical => (
                self.with_manager(
                    self.manager.split_active(
                        SplitDirection::Vertical,
                        window,
                        self.cell_width,
                        self.cell_height,
                        RATIO_HALF,
                    ).0,
                ),
                EffectView::PanesChanged,
            ),
            ShortcutAction::ClosePane => (
                self.with_manager(
                    self.manager.close(
                        self.manager.active,
                        window,
                        self.cell_width,
                        self.cell_height,
                    ),
                ),
                EffectView::PanesChanged,
            ),
            ShortcutAction::MoveFocusLeft => (
                self.with_manager(self.manager.focus(window, Direction::Left).0),
                EffectView::Nothing,
            ),
            ShortcutAction::MoveFocusDown => (
                self.with_manager(self.manager.focus(window, Direction::Down).0),
                EffectView::Nothing,
            ),
            ShortcutAction::MoveFocusUp => (
                self.with_manager(self.manager.focus(window, Direction::Up).0),
                EffectView::Nothing,
            ),
            ShortcutAction::MoveFocusRight => (
                self.with_manager(self.manager.focus(window, Direction::Right).0),
                EffectView::Nothing,
            ),
            ShortcutAction::MoveFocusNext => (
                self.with_manager(
                    if self.manager.ids().len() > 1 {
                        self.manager.activate(
                            crate::pane::manager::next_in_cycle(
                                self.manager.ids(),
                                self.manager.active,
                            ),
                        )
                    } else {
                        self.manager
                    },
                ),
                EffectView::Nothing,
            ),
            ShortcutAction::MoveFocusPrev => (
                self.with_manager(
                    if self.manager.ids().len() > 1 {
                        self.manager.activate(
                            crate::pane::manager::prev_in_cycle(
                                self.manager.ids(),
                                self.manager.active,
                            ),
                        )
                    } else {
                        self.manager
                    },
                ),
                EffectView::Nothing,
            ),
            ShortcutAction::ToggleBroadcast => (
                self.with_manager(
                    ManagerView { broadcast: !self.manager.broadcast, ..self.manager },
                ),
                EffectView::Nothing,
            ),
            ShortcutAction::IncreaseFontSize => self.font_step(true),
            ShortcutAction::DecreaseFontSize => self.font_step(false),
            ShortcutAction::Copy => {
                let (after, text) = self.copy();
                (
                    after,
                    match text {
                        Some(copied) => EffectView::Copy(copied),
                        None => EffectView::Nothing,
                    },
                )
            },
            ShortcutAction::Paste => (self, EffectView::Paste),
            ShortcutAction::ToggleMarkMode => (self.toggle_mark_mode(), EffectView::Nothing),
        }
    }

    pub open spec fn font_step(self, up: bool) -> (OrchestratorView, EffectView) {
        let size = stepped_font_size(self.font_size, up);
        (
            OrchestratorView { font_size: size, ..self },
            if size != self.font_size {
                EffectView::SetFontSize(size)
            } else {
                EffectView::Nothing
            },
        )
    }

    /// What a key press does, and what it leaves to do.
    pub open spec fn key_press(self, key: PhysicalKey, modifiers: Modifiers) -> (
        OrchestratorView,
        EffectView,
    ) {
        if key == PhysicalKey::Code(KeyCode::F1) {
            (OrchestratorView { help_visible: !self.help_visible, ..self }, EffectView::Nothing)
        } else if self.help_visible {
            if key == PhysicalKey::Code(KeyCode::Escape) {
                (OrchestratorView { help_visible: false, ..self }, EffectView::Nothing)
            } else {
                (self, EffectView::Nothing)
            }
        } else {
            match key {
                PhysicalKey::Code(code) => if self.mark_takes(code) {
                    let (after, text) = self.mark_key(code);
                    (
                        after,
                        match text {
                            Some(copied) => EffectView::Copy(copied),
                            None => EffectView::Nothing,
                        },
                    )
                } else {
                    match shortcut_for(code, modifiers) {
                        Some(action) => self.shortcut(action),
                        None => match key_bytes(code, self.modifiers) {
                            Some(bytes) => (self, EffectView::Write(bytes)),
                            None => (self, EffectView::Nothing),
                        },
                    }
                },
                PhysicalKey::Unidentified => (self, EffectView::Nothing),
            }
        }
    }

    /// What the press of the left button at `(x, y)` does.
    pub open spec fn mouse_press(self, x: i64, y: i64) -> OrchestratorView {
        let window = self.window();
        if self.manager.layout.root.find_border(pixel(x), pixel(y), window).is_some() {
            OrchestratorView { dragging_border: true, ..self }
        } else {
            let rects = self.manager.layout.root.rects(window);
            match pane_under(rects, x, y, rects.len() as int) {
                Some((pane_id, rect)) => {
                    let at = (
                        clipped_cell(x - rect.x, self.cell_width),
                        clipped_cell(y - rect.y, self.cell_height),
                    );
                    OrchestratorView {
                        manager: self.manager.activate(pane_id),
                        selection: Selection { start: at, end: at, active: false },
                        selecting: true,
                        ..self
                    }
                },
                None => self,
            }
        }
    }

    /// What a move of the pointer to `(x, y)` does, and whether anything is
    /// to be drawn again.
    pub open spec fn mouse_move(self, x: i64, y: i64) -> (OrchestratorView, bool) {
        let window = self.window();
        let moved = self.dragging_border && self.manager.layout.root.find_border(
            pixel(x),
            pixel(y),
            window,
        ).is_some();
        let dragged = if self.dragging_border {
            self.with_manager(
                self.manager.update_border(
                    pixel(x),
                    pixel(y),
                    window,
                    self.cell_width,
                    self.cell_height,
                ),
            )
        } else {
            self
        };
        if dragged.selecting {
            let rects = dragged.manager.layout.root.rects(window);
            match pane_under(rects, x, y, rects.len() as int) {
                Some((pane_id, rect)) => if pane_id == dragged.manager.active {
                    let at = (
                        clipped_cell(x - rect.x, self.cell_width),
                        clipped_cell(y - rect.y, self.cell_height),
                    );
                    (
                        OrchestratorView {
                            selection: Selection {
                                end: at,
                                active: dragged.selection.active || dragged.selection.start != at,
                                ..dragged.selection
                            },
                            ..dragged
                        },
                        true,
                    )
                } else {
                    (dragged, moved)
                },
                None => (dragged, moved),
            }
        } else {
            (dragged, moved)
        }
    }

    /// The panes of a startup layout: one split for two panes; for four, a
    /// split into top and bottom at `split_ratio`, then a split of each into
    /// left and right at `vertical_ratio`, with pane 0 active at the end.
    pub open spec fn startup(self, layout: StartupLayout, split_ratio: u32, vertical_ratio: u32)
        -> OrchestratorView {
        let window = self.window();
        match layout {
            StartupLayout::Single => self,
            StartupLayout::Horizontal => self.with_manager(
                self.manager.split_active(
                    SplitDirection::Horizontal,
                    window,
                    self.cell_width,
                    self.cell_height,
                    split_ratio,
                ).0,
            ),
            StartupLayout::Vertical => self.with_manager(
                self.manager.split_active(
                    SplitDirection::Vertical,
                    window,
                    self.cell_width,
                    self.cell_height,
                    vertical_ratio,
                ).0,
            ),
            StartupLayout::Grid => {
                let top_bottom = self.manager.split_active(
                    SplitDirection::Horizontal,
                    window,
                    self.cell_width,
                    self.cell_height,
                    split_ratio,
                ).0;
                let top = top_bottom.activate(0).split_active(
                    SplitDirection::Vertical,
                    window,
                    self.cell_width,
                    self.cell_height,
                    vertical_ratio,
                ).0;
                let bottom = top.activate(1).split_active(
                    SplitDirection::Vertical,
                    window,
                    self.cell_width,
                    self.cell_height,
                    vertical_ratio,
                ).0;
                self.with_manager(bottom.activate(0))
            },
        }
    }
}

} // verus!

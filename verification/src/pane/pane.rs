use crate::pane::PaneId;
use crate::terminal::emulator::{TerminalEmulator, TerminalView};
use vstd::prelude::*;

verus! {

/// The size of the buffer that pane output is read into.
pub const READ_BUFFER_BYTES: usize = 4096;

/// The most bytes of one pane that are taken in per frame: 64 KiB.
pub const MAX_READ_PER_FRAME: usize = 65536;

/// What one non-blocking read of a pane's pseudoterminal gave.
#[derive(Debug)]
pub enum PtyRead {
    /// Bytes that the child wrote.
    Data(Vec<u8>),
    /// The stream has ended.
    Eof,
    /// Nothing to read right now.
    WouldBlock,
    /// The read failed for another reason.
    Failed,
}

/// What to do after a read was taken in.
#[derive(Debug, Clone, Copy, PartialEq, Eq, Structural)]
pub enum DrainStep {
    /// Read again.
    Continue,
    /// Enough for this frame.
    Done,
    /// The read failed; the frame's work on this pane ends with an error.
    Failed,
}

/// How far the reading of one pane has come in the current frame.
#[derive(Debug, Clone, Copy, PartialEq, Eq, Structural)]
pub struct PtyDrain {
    /// The bytes taken in so far.
    pub total_read: usize,
    /// Whether any byte was taken in.
    pub has_output: bool,
}

impl PtyDrain {
    /// The start of a frame: nothing read yet.
    pub fn new() -> (drain: PtyDrain)
        ensures
            drain == (PtyDrain { total_read: 0, has_output: false }),
    {
        PtyDrain { total_read: 0, has_output: false }
    }
}

/// The mathematical model of a pane.
pub struct PaneView {
    pub id: PaneId,
    pub terminal: TerminalView,
    pub is_active: bool,
    pub needs_redraw: bool,
}

impl PaneView {
    pub open spec fn wf(self) -> bool {
        self.terminal.wf()
    }

    /// A pane that was just made: a fresh terminal, not active, to be drawn.
    pub open spec fn fresh(id: PaneId, cols: nat, rows: nat, scrollback: nat) -> PaneView {
        PaneView {
            id,
            terminal: TerminalView::fresh(cols, rows, scrollback),
            is_active: false,
            needs_redraw: true,
        }
    }

    /// The pane with a new geometry.
    pub open spec fn resize(self, cols: nat, rows: nat) -> PaneView {
        PaneView { terminal: self.terminal.resize(cols, rows), ..self }
    }

    /// The pane with the cell size that the renderer draws with.
    pub open spec fn with_cell_size(self, width: u32, height: u32) -> PaneView {
        PaneView { terminal: self.terminal.with_cell_size(width, height), ..self }
    }

    /// The pane and the frame's progress after one read was taken in.
    ///
    /// Bytes go to the emulator. Reading goes on while each read fills the
    /// buffer and the frame's quota is not reached; it ends on an empty read,
    /// on the end of the stream and where nothing is there to read. When it
    /// ends and anything was taken in, the pane is to be redrawn. A failed
    /// read ends it at once and marks nothing.
    pub open spec fn take_read(self, drain: PtyDrain, read: PtyRead) -> (
        PaneView,
        PtyDrain,
        DrainStep,
    ) {
        match read {
            PtyRead::Data(bytes) => if bytes@.len() > 0 {
                let fed = PaneView {
                    terminal: self.terminal.feed_all(bytes@, bytes@.len() as int),
                    ..self
                };
                let total = if drain.total_read + bytes@.len() > usize::MAX {
                    usize::MAX
                } else {
                    (drain.total_read + bytes@.len()) as usize
                };
                let now = PtyDrain { total_read: total, has_output: true };
                if total >= MAX_READ_PER_FRAME || bytes@.len() < READ_BUFFER_BYTES {
                    (PaneView { needs_redraw: true, ..fed }, now, DrainStep::Done)
                } else {
                    (fed, now, DrainStep::Continue)
                }
            } else {
                (self.finish_drain(drain), drain, DrainStep::Done)
            },
            PtyRead::Eof => (self.finish_drain(drain), drain, DrainStep::Done),
            PtyRead::WouldBlock => (self.finish_drain(drain), drain, DrainStep::Done),
            PtyRead::Failed => (self, drain, DrainStep::Failed),
        }
    }

    /// The end of a frame's reading: the pane is to be redrawn if anything
    /// was taken in.
    pub open spec fn finish_drain(self, drain: PtyDrain) -> PaneView {
        if drain.has_output {
            PaneView { needs_redraw: true, ..self }
        } else {
            self
        }
    }
}

/// One pane: an id, a terminal emulator, and what the renderer has to know
/// about it. The pseudoterminal that feeds it is held by whoever does the
/// reading and writing.
pub struct Pane {
    id: PaneId,
    terminal: TerminalEmulator,
    is_active: bool,
    needs_redraw: bool,
}

impl View for Pane {
    type V = PaneView;

    closed spec fn view(&self) -> PaneView {
        PaneView {
            id: self.id,
            terminal: self.terminal@,
            is_active: self.is_active,
            needs_redraw: self.needs_redraw,
        }
    }
}

impl Pane {
    /// The invariant that `new` establishes and every method keeps.
    pub closed spec fn wf(&self) -> bool {
        self.terminal.wf()
    }

    /// A well-formed pane has a well-formed model.
    pub proof fn lemma_wf_view(&self)
        requires
            self.wf(),
        ensures
            self@.wf(),
    {
        self.terminal.lemma_wf_view();
    }

    /// A pane with a fresh emulator of `cols` x `rows` cells; it is not
    /// active and has to be drawn.
    pub fn new(id: PaneId, cols: usize, rows: usize, scrollback: usize) -> (pane: Pane)
        requires
            cols >= 1,
            rows >= 1,
            cols * rows <= usize::MAX,
        ensures
            pane.wf(),
            pane@ == PaneView::fresh(id, cols as nat, rows as nat, scrollback as nat),
    {
        Pane {
            id,
            terminal: TerminalEmulator::new(cols, rows, scrollback),
            is_active: false,
            needs_redraw: true,
        }
    }

    pub fn id(&self) -> (id: PaneId)
        ensures
            id == self@.id,
    {
        self.id
    }

    pub fn terminal(&self) -> (terminal: &TerminalEmulator)
        requires
            self.wf(),
        ensures
            terminal.wf(),
            terminal@ == self@.terminal,
    {
        &self.terminal
    }

    /// The emulator, to be changed in place; the pane stays well formed as
    /// long as the emulator does.
    pub fn terminal_mut(&mut self) -> (terminal: &mut TerminalEmulator)
        requires
            old(self).wf(),
        ensures
            terminal.wf(),
            terminal@ == old(self)@.terminal,
            final(self)@ == (PaneView { terminal: final(terminal)@, ..old(self)@ }),
            final(terminal).wf() ==> final(self).wf(),
    {
        &mut self.terminal
    }

    pub fn is_active(&self) -> (active: bool)
        ensures
            active == self@.is_active,
    {
        self.is_active
    }

    pub fn set_active(&mut self, active: bool)
        ensures
            final(self)@ == (PaneView { is_active: active, ..old(self)@ }),
            old(self).wf() ==> final(self).wf(),
    {
        self.is_active = active;
    }

    /// Gives the pane's emulator a new geometry.
    pub fn resize(&mut self, cols: usize, rows: usize)
        requires
            old(self).wf(),
            cols >= 1,
            rows >= 1,
            cols * rows <= usize::MAX,
        ensures
            final(self).wf(),
            final(self)@ == old(self)@.resize(cols as nat, rows as nat),
    {
        self.terminal.resize(cols, rows);
    }

    /// Takes the cell size that the renderer draws with, in thousandths of a
    /// pixel; images that the pane shows from now on are sized by it.
    pub fn set_cell_size(&mut self, width: u32, height: u32)
        requires
            old(self).wf(),
            width >= 1,
            height >= 1,
        ensures
            final(self).wf(),
            final(self)@ == old(self)@.with_cell_size(width, height),
    {
        self.terminal.set_cell_size(width, height);
    }

    /// Takes in what one read of the pane's pseudoterminal gave and says
    /// whether to read again.
    pub fn process_pty_output(&mut self, drain: &mut PtyDrain, read: PtyRead) -> (step: DrainStep)
        requires
            old(self).wf(),
        ensures
            final(self).wf(),
            (final(self)@, *final(drain), step) == old(self)@.take_read(*old(drain), read),
    {
        match read {
            PtyRead::Data(bytes) => {
                let n: usize = bytes.len();
                if n > 0 {
                    self.terminal.process_bytes(bytes.as_slice());
                    drain.has_output = true;
                    drain.total_read = if n > usize::MAX - drain.total_read {
                        usize::MAX
                    } else {
                        drain.total_read + n
                    };
                    if drain.total_read >= MAX_READ_PER_FRAME || n < READ_BUFFER_BYTES {
                        self.needs_redraw = true;
                        DrainStep::Done
                    } else {
                        DrainStep::Continue
                    }
                } else {
                    if drain.has_output {
                        self.needs_redraw = true;
                    }
                    DrainStep::Done
                }
            },
            PtyRead::Eof => {
                if drain.has_output {
                    self.needs_redraw = true;
                }
                DrainStep::Done
            },
            PtyRead::WouldBlock => {
                if drain.has_output {
                    self.needs_redraw = true;
                }
                DrainStep::Done
            },
            PtyRead::Failed => DrainStep::Failed,
        }
    }

    /// Whether the pane has to be drawn again.
    pub fn needs_redraw(&self) -> (needs: bool)
        ensures
            needs == self@.needs_redraw,
    {
        self.needs_redraw
    }

    /// Asks for the pane to be drawn again.
    pub fn mark_dirty(&mut self)
        ensures
            final(self)@ == (PaneView { needs_redraw: true, ..old(self)@ }),
            old(self).wf() ==> final(self).wf(),
    {
        self.needs_redraw = true;
    }

    /// Called after the pane was drawn.
    pub fn clear_redraw_flag(&mut self)
        ensures
            final(self)@ == (PaneView { needs_redraw: false, ..old(self)@ }),
            old(self).wf() ==> final(self).wf(),
    {
        self.needs_redraw = false;
    }
}

} // verus!

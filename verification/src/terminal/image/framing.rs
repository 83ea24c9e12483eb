use vstd::prelude::*;

verus! {

/// The escape byte that opens and closes a sequence.
pub const ESC: u8 = 0x1b;

/// The byte that follows `ESC` in the end marker `ESC \`.
pub const TERMINATOR: u8 = 0x5c;

/// The most payload bytes a sequence may hold before it is abandoned: 10 MiB.
pub const MAX_SEQUENCE_BYTES: usize = 10485760;

/// Outside a sequence the framer remembers no more than this many bytes.
pub const IDLE_WINDOW: usize = 100;

/// How many of the oldest bytes go when the idle window overflows.
pub const IDLE_DROP: usize = 50;

/// The mathematical model of a framer: the bytes it holds and whether a
/// sequence is open.
pub struct FramerView {
    pub buffer: Seq<u8>,
    pub in_sequence: bool,
}

impl FramerView {
    /// A framer at rest holds a short window of recent bytes, an open one
    /// at most the cap.
    pub open spec fn wf(self) -> bool {
        if self.in_sequence {
            self.buffer.len() <= MAX_SEQUENCE_BYTES
        } else {
            self.buffer.len() <= IDLE_WINDOW
        }
    }

    pub open spec fn idle() -> FramerView {
        FramerView { buffer: Seq::empty(), in_sequence: false }
    }

    /// Whether `byte` completes the start marker `ESC middle last`.
    pub open spec fn opens(self, byte: u8, middle: u8, last: u8) -> bool {
        let n = self.buffer.len() as int;
        byte == last && n >= 2 && self.buffer[n - 1] == middle && self.buffer[n - 2] == ESC
    }

    /// Whether `byte` completes the end marker `ESC \`.
    pub open spec fn closes(self, byte: u8) -> bool {
        let n = self.buffer.len() as int;
        byte == TERMINATOR && n >= 1 && self.buffer[n - 1] == ESC
    }

    /// One byte of input. At rest, the start marker opens a sequence with an
    /// empty payload; any other byte joins the window, which loses its oldest
    /// 50 bytes when it exceeds 100. Inside a sequence the end marker hands
    /// the payload out (without the marker) and returns to rest; a payload
    /// that exceeds the cap is dropped; any other byte joins the payload.
    pub open spec fn step(self, byte: u8, middle: u8, last: u8) -> (FramerView, Option<Seq<u8>>) {
        let grown = self.buffer.push(byte);
        if !self.in_sequence {
            if self.opens(byte, middle, last) {
                (FramerView { buffer: Seq::empty(), in_sequence: true }, None)
            } else if grown.len() > IDLE_WINDOW {
                (
                    FramerView {
                        buffer: grown.subrange(IDLE_DROP as int, grown.len() as int),
                        in_sequence: false,
                    },
                    None,
                )
            } else {
                (FramerView { buffer: grown, in_sequence: false }, None)
            }
        } else if self.closes(byte) {
            (FramerView::idle(), Some(self.buffer.subrange(0, self.buffer.len() - 1)))
        } else if grown.len() > MAX_SEQUENCE_BYTES {
            (FramerView::idle(), None)
        } else {
            (FramerView { buffer: grown, in_sequence: true }, None)
        }
    }
}

/// Finds sequences of the form `ESC middle last ... ESC \` in a byte stream,
/// one byte at a time.
pub struct SequenceFramer {
    buffer: Vec<u8>,
    in_sequence: bool,
}

impl View for SequenceFramer {
    type V = FramerView;

    closed spec fn view(&self) -> FramerView {
        FramerView { buffer: self.buffer@, in_sequence: self.in_sequence }
    }
}

impl SequenceFramer {
    pub fn new() -> (framer: SequenceFramer)
        ensures
            framer@ == FramerView::idle(),
    {
        SequenceFramer { buffer: Vec::new(), in_sequence: false }
    }

    /// Takes one byte; returns the payload of the sequence that it completes.
    pub fn feed(&mut self, byte: u8, middle: u8, last: u8) -> (payload: Option<Vec<u8>>)
        requires
            old(self)@.wf(),
        ensures
            final(self)@.wf(),
            final(self)@ == old(self)@.step(byte, middle, last).0,
            match payload {
                Some(bytes) => old(self)@.step(byte, middle, last).1 == Some(bytes@),
                None => old(self)@.step(byte, middle, last).1.is_none(),
            },
    {
        let len: usize = self.buffer.len();
        if !self.in_sequence {
            if byte == last && len >= 2 && self.buffer[len - 1] == middle && self.buffer[len - 2]
                == ESC {
                self.in_sequence = true;
                self.buffer.clear();
                return None;
            }
            self.buffer.push(byte);
            if self.buffer.len() > IDLE_WINDOW {
                let tail = self.buffer.split_off(IDLE_DROP);
                self.buffer = tail;
            }
            return None;
        }
        if byte == TERMINATOR && len >= 1 && self.buffer[len - 1] == ESC {
            self.buffer.truncate(len - 1);
            let mut payload: Vec<u8> = Vec::new();
            std::mem::swap(&mut payload, &mut self.buffer);
            self.in_sequence = false;
            return Some(payload);
        }
        self.buffer.push(byte);
        if self.buffer.len() > MAX_SEQUENCE_BYTES {
            self.in_sequence = false;
            self.buffer.clear();
        }
        None
    }

    /// Back to rest, with nothing remembered.
    pub fn reset(&mut self)
        ensures
            final(self)@ == FramerView::idle(),
    {
        self.buffer.clear();
        self.in_sequence = false;
    }
}

} // verus!

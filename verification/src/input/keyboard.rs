use vstd::prelude::*;

verus! {

/// A physical key of the keyboard, named by its place on a US layout.
#[derive(Debug, Clone, Copy, PartialEq, Eq, Structural)]
pub enum KeyCode {
    KeyA,
    KeyB,
    KeyC,
    KeyD,
    KeyE,
    KeyF,
    KeyG,
    KeyH,
    KeyI,
    KeyJ,
    KeyK,
    KeyL,
    KeyM,
    KeyN,
    KeyO,
    KeyP,
    KeyQ,
    KeyR,
    KeyS,
    KeyT,
    KeyU,
    KeyV,
    KeyW,
    KeyX,
    KeyY,
    KeyZ,
    Digit0,
    Digit1,
    Digit2,
    Digit3,
    Digit4,
    Digit5,
    Digit6,
    Digit7,
    Digit8,
    Digit9,
    Backspace,
    Enter,
    Tab,
    Escape,
    ArrowUp,
    ArrowDown,
    ArrowRight,
    ArrowLeft,
    Home,
    End,
    PageUp,
    PageDown,
    Insert,
    Delete,
    F1,
    F2,
    F3,
    F4,
    F5,
    F6,
    F7,
    F8,
    F9,
    F10,
    F11,
    F12,
    Space,
    Minus,
    Equal,
    BracketLeft,
    BracketRight,
    Backslash,
    Semicolon,
    Quote,
    Comma,
    Period,
    Slash,
    Backquote,
    NumpadAdd,
    NumpadSubtract,
    /// Any key that has no name here.
    Other,
}

/// A key as the window system reports it: one with a name, or one it could
/// not identify.
#[derive(Debug, Clone, Copy, PartialEq, Eq, Structural)]
pub enum PhysicalKey {
    Code(KeyCode),
    Unidentified,
}

/// Which modifier keys are held.
#[derive(Debug, Clone, Copy, PartialEq, Eq, Structural)]
pub struct Modifiers {
    pub control: bool,
    pub shift: bool,
    pub alt: bool,
}

impl Modifiers {
    /// No modifier held.
    pub fn empty() -> (modifiers: Modifiers)
        ensures
            modifiers == (Modifiers { control: false, shift: false, alt: false }),
    {
        Modifiers { control: false, shift: false, alt: false }
    }

    pub fn set_control(&mut self, held: bool)
        ensures
            *final(self) == (Modifiers { control: held, ..*old(self) }),
    {
        self.control = held;
    }

    pub fn set_shift(&mut self, held: bool)
        ensures
            *final(self) == (Modifiers { shift: held, ..*old(self) }),
    {
        self.shift = held;
    }

    pub fn set_alt(&mut self, held: bool)
        ensures
            *final(self) == (Modifiers { alt: held, ..*old(self) }),
    {
        self.alt = held;
    }

    pub fn control_key(&self) -> (held: bool)
        ensures
            held == self.control,
    {
        self.control
    }

    pub fn shift_key(&self) -> (held: bool)
        ensures
            held == self.shift,
    {
        self.shift
    }

    pub fn alt_key(&self) -> (held: bool)
        ensures
            held == self.alt,
    {
        self.alt
    }
}

/// The place of a letter key in the alphabet, counted from 0.
pub open spec fn letter_index(code: KeyCode) -> Option<int> {
    match code {
        KeyCode::KeyA => Some(0int),
        KeyCode::KeyB => Some(1int),
        KeyCode::KeyC => Some(2int),
        KeyCode::KeyD => Some(3int),
        KeyCode::KeyE => Some(4int),
        KeyCode::KeyF => Some(5int),
        KeyCode::KeyG => Some(6int),
        KeyCode::KeyH => Some(7int),
        KeyCode::KeyI => Some(8int),
        KeyCode::KeyJ => Some(9int),
        KeyCode::KeyK => Some(10int),
        KeyCode::KeyL => Some(11int),
        KeyCode::KeyM => Some(12int),
        KeyCode::KeyN => Some(13int),
        KeyCode::KeyO => Some(14int),
        KeyCode::KeyP => Some(15int),
        KeyCode::KeyQ => Some(16int),
        KeyCode::KeyR => Some(17int),
        KeyCode::KeyS => Some(18int),
        KeyCode::KeyT => Some(19int),
        KeyCode::KeyU => Some(20int),
        KeyCode::KeyV => Some(21int),
        KeyCode::KeyW => Some(22int),
        KeyCode::KeyX => Some(23int),
        KeyCode::KeyY => Some(24int),
        KeyCode::KeyZ => Some(25int),
        _ => None,
    }
}

/// The digit of a digit key.
pub open spec fn digit_value(code: KeyCode) -> Option<int> {
    match code {
        KeyCode::Digit0 => Some(0int),
        KeyCode::Digit1 => Some(1int),
        KeyCode::Digit2 => Some(2int),
        KeyCode::Digit3 => Some(3int),
        KeyCode::Digit4 => Some(4int),
        KeyCode::Digit5 => Some(5int),
        KeyCode::Digit6 => Some(6int),
        KeyCode::Digit7 => Some(7int),
        KeyCode::Digit8 => Some(8int),
        KeyCode::Digit9 => Some(9int),
        _ => None,
    }
}

/// The symbol above a digit on a US layout: `)!@#$%^&*(` for 0 to 9.
pub open spec fn shifted_digit(digit: int) -> u8 {
    seq![0x29u8, 0x21u8, 0x40u8, 0x23u8, 0x24u8, 0x25u8, 0x5eu8, 0x26u8, 0x2au8, 0x28u8][digit]
}

/// The characters of a punctuation key on a US layout: plain, then shifted.
pub open spec fn punctuation(code: KeyCode) -> Option<(u8, u8)> {
    match code {
        KeyCode::Minus => Some((0x2du8, 0x5fu8)),
        KeyCode::Equal => Some((0x3du8, 0x2bu8)),
        KeyCode::BracketLeft => Some((0x5bu8, 0x7bu8)),
        KeyCode::BracketRight => Some((0x5du8, 0x7du8)),
        KeyCode::Backslash => Some((0x5cu8, 0x7cu8)),
        KeyCode::Semicolon => Some((0x3bu8, 0x3au8)),
        KeyCode::Quote => Some((0x27u8, 0x22u8)),
        KeyCode::Comma => Some((0x2cu8, 0x3cu8)),
        KeyCode::Period => Some((0x2eu8, 0x3eu8)),
        KeyCode::Slash => Some((0x2fu8, 0x3fu8)),
        KeyCode::Backquote => Some((0x60u8, 0x7eu8)),
        _ => None,
    }
}

/// `ESC [` followed by `rest`.
pub open spec fn csi_sequence(rest: Seq<u8>) -> Seq<u8> {
    seq![0x1bu8, 0x5bu8] + rest
}

/// `ESC O` followed by `last`.
pub open spec fn ss3_sequence(last: u8) -> Seq<u8> {
    seq![0x1bu8, 0x4fu8, last]
}

/// The bytes of the keys that send the same whatever modifier is held:
/// Backspace sends DEL, Enter a carriage return, Tab a tab, Escape ESC; the
/// arrows send `ESC [ A/B/C/D` (up, down, right, left), Home and End
/// `ESC [ H` and `ESC [ F`; Page Up, Page Down, Insert and Delete send
/// `ESC [ n ~` with 5, 6, 2 and 3; F1 to F4 send `ESC O P/Q/R/S`, F5 to F12
/// `ESC [ n ~` with 15, 17, 18, 19, 20, 21, 23 and 24.
pub open spec fn fixed_bytes(code: KeyCode) -> Option<Seq<u8>> {
    match code {
        KeyCode::Backspace => Some(seq![0x7fu8]),
        KeyCode::Enter => Some(seq![0x0du8]),
        KeyCode::Tab => Some(seq![0x09u8]),
        KeyCode::Escape => Some(seq![0x1bu8]),
        KeyCode::ArrowUp => Some(csi_sequence(seq![0x41u8])),
        KeyCode::ArrowDown => Some(csi_sequence(seq![0x42u8])),
        KeyCode::ArrowRight => Some(csi_sequence(seq![0x43u8])),
        KeyCode::ArrowLeft => Some(csi_sequence(seq![0x44u8])),
        KeyCode::Home => Some(csi_sequence(seq![0x48u8])),
        KeyCode::End => Some(csi_sequence(seq![0x46u8])),
        KeyCode::PageUp => Some(csi_sequence(seq![0x35u8, 0x7eu8])),
        KeyCode::PageDown => Some(csi_sequence(seq![0x36u8, 0x7eu8])),
        KeyCode::Insert => Some(csi_sequence(seq![0x32u8, 0x7eu8])),
        KeyCode::Delete => Some(csi_sequence(seq![0x33u8, 0x7eu8])),
        KeyCode::F1 => Some(ss3_sequence(0x50)),
        KeyCode::F2 => Some(ss3_sequence(0x51)),
        KeyCode::F3 => Some(ss3_sequence(0x52)),
        KeyCode::F4 => Some(ss3_sequence(0x53)),
        KeyCode::F5 => Some(csi_sequence(seq![0x31u8, 0x35u8, 0x7eu8])),
        KeyCode::F6 => Some(csi_sequence(seq![0x31u8, 0x37u8, 0x7eu8])),
        KeyCode::F7 => Some(csi_sequence(seq![0x31u8, 0x38u8, 0x7eu8])),
        KeyCode::F8 => Some(csi_sequence(seq![0x31u8, 0x39u8, 0x7eu8])),
        KeyCode::F9 => Some(csi_sequence(seq![0x32u8, 0x30u8, 0x7eu8])),
        KeyCode::F10 => Some(csi_sequence(seq![0x32u8, 0x31u8, 0x7eu8])),
        KeyCode::F11 => Some(csi_sequence(seq![0x32u8, 0x33u8, 0x7eu8])),
        KeyCode::F12 => Some(csi_sequence(seq![0x32u8, 0x34u8, 0x7eu8])),
        _ => None,
    }
}

/// The bytes that a key sends to the terminal, if any. A letter with
/// Control sends the control character of its place in the alphabet (1 to
/// 26), without it the letter, upper case with Shift. Space sends NUL with
/// Control. A digit sends itself, with Shift the symbol above it, and
/// nothing with Control. Punctuation sends its plain or shifted character.
pub open spec fn key_bytes(code: KeyCode, modifiers: Modifiers) -> Option<Seq<u8>> {
    if let Some(index) = letter_index(code) {
        Some(
            seq![
                (if modifiers.control {
                    index + 1
                } else if modifiers.shift {
                    0x41 + index
                } else {
                    0x61 + index
                }) as u8,
            ],
        )
    } else if let Some(bytes) = fixed_bytes(code) {
        Some(bytes)
    } else if code == KeyCode::Space {
        Some(
            seq![
                if modifiers.control {
                    0x00u8
                } else {
                    0x20u8
                },
            ],
        )
    } else if let Some(digit) = digit_value(code) {
        if modifiers.control {
            None
        } else if modifiers.shift {
            Some(seq![shifted_digit(digit)])
        } else {
            Some(seq![(0x30 + digit) as u8])
        }
    } else if let Some((plain, shifted)) = punctuation(code) {
        Some(
            seq![
                if modifiers.shift {
                    shifted
                } else {
                    plain
                },
            ],
        )
    } else {
        None
    }
}

/// Turns key presses into the bytes that a terminal expects.
pub struct KeyboardHandler {
    modifiers: Modifiers,
}

impl KeyboardHandler {
    /// The modifiers that the handler goes by.
    pub closed spec fn modifiers(&self) -> Modifiers {
        self.modifiers
    }

    pub fn new() -> (handler: KeyboardHandler)
        ensures
            handler.modifiers() == (Modifiers { control: false, shift: false, alt: false }),
    {
        KeyboardHandler { modifiers: Modifiers::empty() }
    }

    pub fn update_modifiers(&mut self, modifiers: Modifiers)
        ensures
            final(self).modifiers() == modifiers,
    {
        self.modifiers = modifiers;
    }

    /// The bytes that a key press sends; none for a key that could not be
    /// identified.
    pub fn handle_key(&self, key: &PhysicalKey) -> (bytes: Option<Vec<u8>>)
        ensures
            match key {
                PhysicalKey::Code(code) => match bytes {
                    Some(sent) => key_bytes(*code, self.modifiers()) == Some(sent@),
                    None => key_bytes(*code, self.modifiers()).is_none(),
                },
                PhysicalKey::Unidentified => bytes.is_none(),
            },
    {
        match key {
            PhysicalKey::Code(code) => self.handle_keycode(*code),
            PhysicalKey::Unidentified => None,
        }
    }

    /// The bytes that the press of a named key sends.
    pub fn handle_keycode(&self, code: KeyCode) -> (bytes: Option<Vec<u8>>)
        ensures
            match bytes {
                Some(sent) => key_bytes(code, self.modifiers()) == Some(sent@),
                None => key_bytes(code, self.modifiers()).is_none(),
            },
    {
        let ctrl = self.modifiers.control_key();
        let shift = self.modifiers.shift_key();
        let bytes: Option<Vec<u8>> = match code {
            KeyCode::KeyA => Some(
                vec![
                    if ctrl {
                        0x01
                    } else if shift {
                        0x41
                    } else {
                        0x61
                    },
                ],
            ),
            KeyCode::KeyB => Some(
                vec![
                    if ctrl {
                        0x02
                    } else if shift {
                        0x42
                    } else {
                        0x62
                    },
                ],
            ),
            KeyCode::KeyC => Some(
                vec![
                    if ctrl {
                        0x03
                    } else if shift {
                        0x43
                    } else {
                        0x63
                    },
                ],
            ),
            KeyCode::KeyD => Some(
                vec![
                    if ctrl {
                        0x04
                    } else if shift {
                        0x44
                    } else {
                        0x64
                    },
                ],
            ),
            KeyCode::KeyE => Some(
                vec![
                    if ctrl {
                        0x05
                    } else if shift {
                        0x45
                    } else {
                        0x65
                    },
                ],
            ),
            KeyCode::KeyF => Some(
                vec![
                    if ctrl {
                        0x06
                    } else if shift {
                        0x46
                    } else {
                        0x66
                    },
                ],
            ),
            KeyCode::KeyG => Some(
                vec![
                    if ctrl {
                        0x07
                    } else if shift {
                        0x47
                    } else {
                        0x67
                    },
                ],
            ),
            KeyCode::KeyH => Some(
                vec![
                    if ctrl {
                        0x08
                    } else if shift {
                        0x48
                    } else {
                        0x68
                    },
                ],
            ),
            KeyCode::KeyI => Some(
                vec![
                    if ctrl {
                        0x09
                    } else if shift {
                        0x49
                    } else {
                        0x69
                    },
                ],
            ),
            KeyCode::KeyJ => Some(
                vec![
                    if ctrl {
                        0x0a
                    } else if shift {
                        0x4a
                    } else {
                        0x6a
                    },
                ],
            ),
            KeyCode::KeyK => Some(
                vec![
                    if ctrl {
                        0x0b
                    } else if shift {
                        0x4b
                    } else {
                        0x6b
                    },
                ],
            ),
            KeyCode::KeyL => Some(
                vec![
                    if ctrl {
                        0x0c
                    } else if shift {
                        0x4c
                    } else {
                        0x6c
                    },
                ],
            ),
            KeyCode::KeyM => Some(
                vec![
                    if ctrl {
                        0x0d
                    } else if shift {
                        0x4d
                    } else {
                        0x6d
                    },
                ],
            ),
            KeyCode::KeyN => Some(
                vec![
                    if ctrl {
                        0x0e
                    } else if shift {
                        0x4e
                    } else {
                        0x6e
                    },
                ],
            ),
            KeyCode::KeyO => Some(
                vec![
                    if ctrl {
                        0x0f
                    } else if shift {
                        0x4f
                    } else {
                        0x6f
                    },
                ],
            ),
            KeyCode::KeyP => Some(
                vec![
                    if ctrl {
                        0x10
                    } else if shift {
                        0x50
                    } else {
                        0x70
                    },
                ],
            ),
            KeyCode::KeyQ => Some(
                vec![
                    if ctrl {
                        0x11
                    } else if shift {
                        0x51
                    } else {
                        0x71
                    },
                ],
            ),
            KeyCode::KeyR => Some(
                vec![
                    if ctrl {
                        0x12
                    } else if shift {
                        0x52
                    } else {
                        0x72
                    },
                ],
            ),
            KeyCode::KeyS => Some(
                vec![
                    if ctrl {
                        0x13
                    } else if shift {
                        0x53
                    } else {
                        0x73
                    },
                ],
            ),
            KeyCode::KeyT => Some(
                vec![
                    if ctrl {
                        0x14
                    } else if shift {
                        0x54
                    } else {
                        0x74
                    },
                ],
            ),
            KeyCode::KeyU => Some(
                vec![
                    if ctrl {
                        0x15
                    } else if shift {
                        0x55
                    } else {
                        0x75
                    },
                ],
            ),
            KeyCode::KeyV => Some(
                vec![
                    if ctrl {
                        0x16
                    } else if shift {
                        0x56
                    } else {
                        0x76
                    },
                ],
            ),
            KeyCode::KeyW => Some(
                vec![
                    if ctrl {
                        0x17
                    } else if shift {
                        0x57
                    } else {
                        0x77
                    },
                ],
            ),
            KeyCode::KeyX => Some(
                vec![
                    if ctrl {
                        0x18
                    } else if shift {
                        0x58
                    } else {
                        0x78
                    },
                ],
            ),
            KeyCode::KeyY => Some(
                vec![
                    if ctrl {
                        0x19
                    } else if shift {
                        0x59
                    } else {
                        0x79
                    },
                ],
            ),
            KeyCode::KeyZ => Some(
                vec![
                    if ctrl {
                        0x1a
                    } else if shift {
                        0x5a
                    } else {
                        0x7a
                    },
                ],
            ),
            KeyCode::Backspace => Some(vec![0x7f]),
            KeyCode::Enter => Some(vec![0x0d]),
            KeyCode::Tab => Some(vec![0x09]),
            KeyCode::Escape => Some(vec![0x1b]),
            KeyCode::ArrowUp => Some(vec![0x1b, 0x5b, 0x41]),
            KeyCode::ArrowDown => Some(vec![0x1b, 0x5b, 0x42]),
            KeyCode::ArrowRight => Some(vec![0x1b, 0x5b, 0x43]),
            KeyCode::ArrowLeft => Some(vec![0x1b, 0x5b, 0x44]),
            KeyCode::Home => Some(vec![0x1b, 0x5b, 0x48]),
            KeyCode::End => Some(vec![0x1b, 0x5b, 0x46]),
            KeyCode::PageUp => Some(vec![0x1b, 0x5b, 0x35, 0x7e]),
            KeyCode::PageDown => Some(vec![0x1b, 0x5b, 0x36, 0x7e]),
            KeyCode::Insert => Some(vec![0x1b, 0x5b, 0x32, 0x7e]),
            KeyCode::Delete => Some(vec![0x1b, 0x5b, 0x33, 0x7e]),
            KeyCode::F1 => Some(vec![0x1b, 0x4f, 0x50]),
            KeyCode::F2 => Some(vec![0x1b, 0x4f, 0x51]),
            KeyCode::F3 => Some(vec![0x1b, 0x4f, 0x52]),
            KeyCode::F4 => Some(vec![0x1b, 0x4f, 0x53]),
            KeyCode::F5 => Some(vec![0x1b, 0x5b, 0x31, 0x35, 0x7e]),
            KeyCode::F6 => Some(vec![0x1b, 0x5b, 0x31, 0x37, 0x7e]),
            KeyCode::F7 => Some(vec![0x1b, 0x5b, 0x31, 0x38, 0x7e]),
            KeyCode::F8 => Some(vec![0x1b, 0x5b, 0x31, 0x39, 0x7e]),
            KeyCode::F9 => Some(vec![0x1b, 0x5b, 0x32, 0x30, 0x7e]),
            KeyCode::F10 => Some(vec![0x1b, 0x5b, 0x32, 0x31, 0x7e]),
            KeyCode::F11 => Some(vec![0x1b, 0x5b, 0x32, 0x33, 0x7e]),
            KeyCode::F12 => Some(vec![0x1b, 0x5b, 0x32, 0x34, 0x7e]),
            KeyCode::Space => Some(
                vec![
                    if ctrl {
                        0x00
                    } else {
                        0x20
                    },
                ],
            ),
            KeyCode::Digit0 => if ctrl {
                None
            } else if shift {
                Some(vec![0x29])
            } else {
                Some(vec![0x30])
            },
            KeyCode::Digit1 => if ctrl {
                None
            } else if shift {
                Some(vec![0x21])
            } else {
                Some(vec![0x31])
            },
            KeyCode::Digit2 => if ctrl {
                None
            } else if shift {
                Some(vec![0x40])
            } else {
                Some(vec![0x32])
            },
            KeyCode::Digit3 => if ctrl {
                None
            } else if shift {
                Some(vec![0x23])
            } else {
                Some(vec![0x33])
            },
            KeyCode::Digit4 => if ctrl {
                None
            } else if shift {
                Some(vec![0x24])
            } else {
                Some(vec![0x34])
            },
            KeyCode::Digit5 => if ctrl {
                None
            } else if shift {
                Some(vec![0x25])
            } else {
                Some(vec![0x35])
            },
            KeyCode::Digit6 => if ctrl {
                None
            } else if shift {
                Some(vec![0x5e])
            } else {
                Some(vec![0x36])
            },
            KeyCode::Digit7 => if ctrl {
                None
            } else if shift {
                Some(vec![0x26])
            } else {
                Some(vec![0x37])
            },
            KeyCode::Digit8 => if ctrl {
                None
            } else if shift {
                Some(vec![0x2a])
            } else {
                Some(vec![0x38])
            },
            KeyCode::Digit9 => if ctrl {
                None
            } else if shift {
                Some(vec![0x28])
            } else {
                Some(vec![0x39])
            },
            KeyCode::Minus => Some(
                vec![
                    if shift {
                        0x5f
                    } else {
                        0x2d
                    },
                ],
            ),
            KeyCode::Equal => Some(
                vec![
                    if shift {
                        0x2b
                    } else {
                        0x3d
                    },
                ],
            ),
            KeyCode::BracketLeft => Some(
                vec![
                    if shift {
                        0x7b
                    } else {
                        0x5b
                    },
                ],
            ),
            KeyCode::BracketRight => Some(
                vec![
                    if shift {
                        0x7d
                    } else {
                        0x5d
                    },
                ],
            ),
            KeyCode::Backslash => Some(
                vec![
                    if shift {
                        0x7c
                    } else {
                        0x5c
                    },
                ],
            ),
            KeyCode::Semicolon => Some(
                vec![
                    if shift {
                        0x3a
                    } else {
                        0x3b
                    },
                ],
            ),
            KeyCode::Quote => Some(
                vec![
                    if shift {
                        0x22
                    } else {
                        0x27
                    },
                ],
            ),
            KeyCode::Comma => Some(
                vec![
                    if shift {
                        0x3c
                    } else {
                        0x2c
                    },
                ],
            ),
            KeyCode::Period => Some(
                vec![
                    if shift {
                        0x3e
                    } else {
                        0x2e
                    },
                ],
            ),
            KeyCode::Slash => Some(
                vec![
                    if shift {
                        0x3f
                    } else {
                        0x2f
                    },
                ],
            ),
            KeyCode::Backquote => Some(
                vec![
                    if shift {
                        0x7e
                    } else {
                        0x60
                    },
                ],
            ),
            KeyCode::NumpadAdd => None,
            KeyCode::NumpadSubtract => None,
            KeyCode::Other => None,
        };
        proof {
            if bytes.is_some() {
                assert(key_bytes(code, self.modifiers())->0 =~= bytes->0@);
            }
        }
        bytes
    }
}

impl Default for KeyboardHandler {
    fn default() -> (handler: Self)
        ensures
            handler.modifiers() == (Modifiers { control: false, shift: false, alt: false }),
    {
        KeyboardHandler::new()
    }
}

/// Control with a letter sends the letter's place in the alphabet: `letter -
/// 'a' + 1`.
pub proof fn lemma_control_letters(code: KeyCode, modifiers: Modifiers)
    requires
        letter_index(code).is_some(),
        modifiers.control,
    ensures
        key_bytes(code, modifiers) == Some(seq![(letter_index(code)->0 + 1) as u8]),
        1 <= letter_index(code)->0 + 1 <= 26,
{
}

} // verus!

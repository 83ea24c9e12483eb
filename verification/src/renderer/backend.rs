use vstd::prelude::*;

verus! {

/// Which kind of renderer draws the grid.
#[derive(Debug, Clone, Copy, PartialEq, Eq, Structural)]
pub enum BackendType {
    Gpu,
    Cpu,
}

/// One cell as a renderer consumes it.
#[derive(Debug, Clone, Copy)]
pub struct RenderCell {
    pub ch: char,
    pub fg_color: Color,
    pub bg_color: Color,
    pub bold: bool,
    pub italic: bool,
    pub underline: bool,
}

/// An RGBA colour with eight bits per channel.
#[derive(Debug, Clone, Copy, PartialEq, Eq, Structural)]
pub struct Color {
    pub r: u8,
    pub g: u8,
    pub b: u8,
    pub a: u8,
}

/// Cursor position and visibility handed to a renderer.
#[derive(Debug, Clone, Copy)]
pub struct CursorInfo {
    pub col: usize,
    pub row: usize,
    pub visible: bool,
}

/// An opaque colour with the given channels.
pub open spec fn opaque(r: int, g: int, b: int) -> Color {
    Color { r: r as u8, g: g as u8, b: b as u8, a: 255 }
}

/// The sixteen standard colours of a VT terminal, by palette index.
pub open spec fn basic_color(index: u8) -> Color
    recommends
        index < 16,
{
    if index == 0 {
        opaque(0, 0, 0)
    } else if index == 1 {
        opaque(205, 0, 0)
    } else if index == 2 {
        opaque(0, 205, 0)
    } else if index == 3 {
        opaque(205, 205, 0)
    } else if index == 4 {
        opaque(0, 0, 238)
    } else if index == 5 {
        opaque(205, 0, 205)
    } else if index == 6 {
        opaque(0, 205, 205)
    } else if index == 7 {
        opaque(229, 229, 229)
    } else if index == 8 {
        opaque(127, 127, 127)
    } else if index == 9 {
        opaque(255, 0, 0)
    } else if index == 10 {
        opaque(0, 255, 0)
    } else if index == 11 {
        opaque(255, 255, 0)
    } else if index == 12 {
        opaque(92, 92, 255)
    } else if index == 13 {
        opaque(255, 0, 255)
    } else if index == 14 {
        opaque(0, 255, 255)
    } else {
        opaque(255, 255, 255)
    }
}

/// The 256-colour palette: sixteen standard colours, a 6x6x6 cube whose
/// component levels are `51 * k`, and 24 greys that start at 8 and step by 10.
pub open spec fn ansi_256(index: u8) -> Color {
    if index < 16 {
        basic_color(index)
    } else if index < 232 {
        let k = index - 16;
        opaque(51 * (k / 36), 51 * ((k % 36) / 6), 51 * (k % 6))
    } else {
        let level = 8 + 10 * (index - 232);
        opaque(level, level, level)
    }
}

impl Color {
    /// Opaque black, the default background.
    pub fn black() -> (c: Color)
        ensures
            c == opaque(0, 0, 0),
    {
        Color { r: 0, g: 0, b: 0, a: 255 }
    }

    /// Opaque white, the default foreground.
    pub fn white() -> (c: Color)
        ensures
            c == opaque(255, 255, 255),
    {
        Color { r: 255, g: 255, b: 255, a: 255 }
    }

    pub fn new(r: u8, g: u8, b: u8, a: u8) -> (c: Color)
        ensures
            c == (Color { r, g, b, a }),
    {
        Color { r, g, b, a }
    }

    pub fn rgb(r: u8, g: u8, b: u8) -> (c: Color)
        ensures
            c == (Color { r, g, b, a: 255 }),
    {
        Color { r, g, b, a: 255 }
    }

    pub fn rgba(r: u8, g: u8, b: u8, a: u8) -> (c: Color)
        ensures
            c == (Color { r, g, b, a }),
    {
        Color { r, g, b, a }
    }

    /// The colour that the 256-colour palette holds at `index`.
    pub fn from_ansi_256(index: u8) -> (c: Color)
        ensures
            c == ansi_256(index),
    {
        match index {
            0 => Color::rgb(0, 0, 0),
            1 => Color::rgb(205, 0, 0),
            2 => Color::rgb(0, 205, 0),
            3 => Color::rgb(205, 205, 0),
            4 => Color::rgb(0, 0, 238),
            5 => Color::rgb(205, 0, 205),
            6 => Color::rgb(0, 205, 205),
            7 => Color::rgb(229, 229, 229),
            8 => Color::rgb(127, 127, 127),
            9 => Color::rgb(255, 0, 0),
            10 => Color::rgb(0, 255, 0),
            11 => Color::rgb(255, 255, 0),
            12 => Color::rgb(92, 92, 255),
            13 => Color::rgb(255, 0, 255),
            14 => Color::rgb(0, 255, 255),
            15 => Color::rgb(255, 255, 255),
            16..=231 => {
                let idx: u8 = index - 16;
                let r: u8 = (idx / 36) * 51;
                let g: u8 = ((idx % 36) / 6) * 51;
                let b: u8 = (idx % 6) * 51;
                Color::rgb(r, g, b)
            },
            232..=255 => {
                let gray: u8 = 8 + (index - 232) * 10;
                Color::rgb(gray, gray, gray)
            },
        }
    }
}

/// Every component of a colour of the 6x6x6 cube is a multiple of 51.
pub proof fn lemma_cube_components_are_multiples_of_51(index: u8)
    requires
        16 <= index < 232,
    ensures
        ansi_256(index).r % 51 == 0,
        ansi_256(index).g % 51 == 0,
        ansi_256(index).b % 51 == 0,
        ansi_256(index).a == 255,
{
    let k = (index - 16) as int;
    assert(0 <= k / 36 <= 5);
    assert(0 <= (k % 36) / 6 <= 5);
    assert(0 <= k % 6 <= 5);
    assert((51 * (k / 36)) % 51 == 0) by (nonlinear_arith)
        requires
            0 <= k / 36 <= 5,
    ;
    assert((51 * ((k % 36) / 6)) % 51 == 0) by (nonlinear_arith)
        requires
            0 <= (k % 36) / 6 <= 5,
    ;
    assert((51 * (k % 6)) % 51 == 0) by (nonlinear_arith)
        requires
            0 <= k % 6 <= 5,
    ;
}

/// A grey of the palette has equal red, green and blue, at level
/// `8 + 10 * (index - 232)`.
pub proof fn lemma_grayscale_has_equal_components(index: u8)
    requires
        232 <= index,
    ensures
        ansi_256(index).r == ansi_256(index).g,
        ansi_256(index).g == ansi_256(index).b,
        ansi_256(index).r == 8 + 10 * (index - 232),
        ansi_256(index).a == 255,
{
}

} // verus!

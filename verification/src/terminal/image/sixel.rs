use super::framing::{FramerView, SequenceFramer, MAX_SEQUENCE_BYTES};
use super::{DecodedImage, ImageView};
use vstd::prelude::*;

verus! {

/// The byte between `ESC` and `q` in the start marker `ESC P q`.
pub const SIXEL_MIDDLE: u8 = 0x50;

/// The last byte of the start marker `ESC P q`.
pub const SIXEL_LAST: u8 = 0x71;

/// The number of colour registers.
pub const PALETTE_SIZE: usize = 256;

/// The widest placeholder that is produced, in pixels.
pub const MAX_WIDTH: usize = 800;

/// The tallest placeholder that is produced, in pixels.
pub const MAX_HEIGHT: usize = 600;

/// The sixteen colours of the default VT340 palette; grey for any other
/// index.
pub open spec fn default_color_spec(index: int) -> (u8, u8, u8) {
    if index == 0 {
        (0, 0, 0)
    } else if index == 1 {
        (51, 102, 179)
    } else if index == 2 {
        (204, 51, 51)
    } else if index == 3 {
        (51, 204, 51)
    } else if index == 4 {
        (204, 51, 204)
    } else if index == 5 {
        (51, 204, 204)
    } else if index == 6 {
        (204, 204, 51)
    } else if index == 7 {
        (229, 229, 229)
    } else if index == 8 {
        (127, 127, 127)
    } else if index == 9 {
        (179, 179, 255)
    } else if index == 10 {
        (255, 179, 179)
    } else if index == 11 {
        (179, 255, 179)
    } else if index == 12 {
        (255, 179, 255)
    } else if index == 13 {
        (179, 255, 255)
    } else if index == 14 {
        (255, 255, 179)
    } else if index == 15 {
        (255, 255, 255)
    } else {
        (128, 128, 128)
    }
}

/// The palette before any colour is defined: the sixteen default colours,
/// then black.
pub open spec fn initial_palette() -> Seq<(u8, u8, u8)> {
    Seq::new(
        PALETTE_SIZE as nat,
        |i: int|
            if i < 16 {
                default_color_spec(i)
            } else {
                (0u8, 0u8, 0u8)
            },
    )
}

pub open spec fn is_digit(byte: u8) -> bool {
    0x30 <= byte <= 0x39
}

/// The bytes `?` to `~`, each of which paints a column of six pixels.
pub open spec fn is_sixel_data(byte: u8) -> bool {
    0x3f <= byte <= 0x7e
}

/// A colour component given in percent, as an eight-bit level: `percent`
/// hundredths of 255, rounded down, and 255 for anything beyond.
pub open spec fn channel(percent: u8) -> u8 {
    if percent >= 100 {
        255
    } else {
        (percent * 255 / 100) as u8
    }
}

/// The parameters with `number` added, where `number` is there and fits a
/// byte; a missing number and one above 255 are dropped.
pub open spec fn push_number(params: Seq<u8>, number: Option<int>) -> Seq<u8> {
    match number {
        Some(n) => if n <= 255 {
            params.push(n as u8)
        } else {
            params
        },
        None => params,
    }
}

/// The state of a scan over sixel data.
pub struct SixelState {
    /// The widest row so far, in pixels.
    pub width: int,
    /// The lowest pixel row touched so far, plus one.
    pub height: int,
    /// The pen position.
    pub x: int,
    pub y: int,
    pub palette: Seq<(u8, u8, u8)>,
    pub current_color: int,
    /// Whether a colour introducer `#` is being read.
    pub defining: bool,
    /// The digits read since the last separator, as a number.
    pub number: Option<int>,
    /// The numbers of the colour introducer read so far.
    pub params: Seq<u8>,
}

impl SixelState {
    pub open spec fn initial() -> SixelState {
        SixelState {
            width: 0,
            height: 0,
            x: 0,
            y: 0,
            palette: initial_palette(),
            current_color: 0,
            defining: false,
            number: None,
            params: Seq::empty(),
        }
    }

    /// A colour introducer `# Pc ; Pu ; Px ; Py ; Pz` with five numbers or
    /// more defines register `Pc` from the percentages `Px`, `Py`, `Pz` and
    /// selects it; one with fewer numbers selects register `Pc`; one without
    /// numbers does nothing.
    pub open spec fn define_color(self, params: Seq<u8>) -> SixelState {
        if params.len() >= 5 {
            SixelState {
                palette: self.palette.update(
                    params[0] as int,
                    (channel(params[2]), channel(params[3]), channel(params[4])),
                ),
                current_color: params[0] as int,
                ..self
            }
        } else if params.len() > 0 {
            SixelState { current_color: params[0] as int, ..self }
        } else {
            self
        }
    }

    /// The end of a colour introducer: `pending` says whether the digits read
    /// last still count as a number.
    pub open spec fn end_definition(self, pending: bool) -> SixelState {
        let params = if pending {
            push_number(self.params, self.number)
        } else {
            self.params
        };
        SixelState {
            defining: false,
            number: None,
            params: Seq::empty(),
            ..self.define_color(params)
        }
    }

    /// One byte outside a colour introducer: `#` opens one, `$` returns the
    /// pen to the left edge, `-` moves it to the start of the next band of
    /// six rows, a data byte paints one column and moves right; anything else
    /// is skipped.
    pub open spec fn ground(self, byte: u8) -> SixelState {
        if byte == 0x23 {
            SixelState { defining: true, number: None, params: Seq::empty(), ..self }
        } else if byte == 0x24 {
            SixelState { x: 0, ..self }
        } else if byte == 0x2d {
            SixelState { x: 0, y: self.y + 6, ..self }
        } else if is_sixel_data(byte) {
            SixelState {
                x: self.x + 1,
                width: if self.x + 1 > self.width {
                    self.x + 1
                } else {
                    self.width
                },
                height: if self.y + 6 > self.height {
                    self.y + 6
                } else {
                    self.height
                },
                ..self
            }
        } else {
            self
        }
    }

    /// One byte of sixel data. Inside a colour introducer digits build a
    /// number and `;` ends one; any other byte ends the introducer and is
    /// then read as a byte outside it.
    pub open spec fn step(self, byte: u8) -> SixelState {
        if self.defining {
            if is_digit(byte) {
                let so_far = match self.number {
                    Some(n) => n,
                    None => 0,
                };
                SixelState { number: Some(so_far * 10 + (byte - 0x30)), ..self }
            } else if byte == 0x3b {
                SixelState {
                    params: push_number(self.params, self.number),
                    number: None,
                    ..self
                }
            } else {
                self.end_definition(true).ground(byte)
            }
        } else {
            self.ground(byte)
        }
    }

    /// The end of the data: an introducer still open is closed, and digits
    /// that no byte followed do not count.
    pub open spec fn finish(self) -> SixelState {
        if self.defining {
            self.end_definition(false)
        } else {
            self
        }
    }
}

/// The state after the first `n` bytes of `data`.
pub open spec fn scan_prefix(data: Seq<u8>, n: int) -> SixelState
    decreases n,
{
    if n <= 0 {
        SixelState::initial()
    } else {
        scan_prefix(data, n - 1).step(data[n - 1])
    }
}

/// The state after all of `data`.
pub open spec fn scan_all(data: Seq<u8>) -> SixelState {
    scan_prefix(data, data.len() as int).finish()
}

/// The pixel of the placeholder pattern at `(x, y)`: red, green, blue, alpha.
pub open spec fn placeholder_pixel_spec(x: int, y: int) -> (u8, u8, u8, u8) {
    (((x % 256 + y % 256) % 256) as u8, (y % 256) as u8, ((x % 128) * 2) as u8, 255u8)
}

/// Sample `k` of the pixel `(x, y)` of the placeholder pattern.
pub open spec fn placeholder_sample(x: int, y: int, k: int) -> u8 {
    let pixel = placeholder_pixel_spec(x, y);
    if k == 0 {
        pixel.0
    } else if k == 1 {
        pixel.1
    } else if k == 2 {
        pixel.2
    } else {
        pixel.3
    }
}

/// The samples of a `width` x `height` placeholder, rows top first, four
/// samples per pixel.
pub open spec fn placeholder_rgba(width: nat, height: nat) -> Seq<u8> {
    Seq::new(
        width * height * 4,
        |i: int| placeholder_sample((i / 4) % (width as int), (i / 4) / (width as int), i % 4),
    )
}

/// The image of a complete sixel sequence: a placeholder of the size that
/// the data covers, at most 800 x 600; no image where the data paints
/// nothing.
pub open spec fn sixel_image(data: Seq<u8>) -> Option<ImageView> {
    let end = scan_all(data);
    if end.width > 0 && end.height > 0 {
        let width = if end.width < MAX_WIDTH {
            end.width as nat
        } else {
            MAX_WIDTH as nat
        };
        let height = if end.height < MAX_HEIGHT {
            end.height as nat
        } else {
            MAX_HEIGHT as nat
        };
        Some(ImageView { width, height, rgba: placeholder_rgba(width, height) })
    } else {
        None
    }
}

/// What a scan over sixel data found: the size that the data covers, the
/// palette after all colour definitions, and the register selected last.
pub struct SixelScan {
    pub width: usize,
    pub height: usize,
    pub palette: Vec<(u8, u8, u8)>,
    pub current_color: usize,
}

/// The pixel of the placeholder pattern at `(x, y)`.
pub fn placeholder_pixel(x: u32, y: u32) -> (pixel: [u8; 4])
    ensures
        (pixel[0], pixel[1], pixel[2], pixel[3]) == placeholder_pixel_spec(x as int, y as int),
{
    let r: u8 = (((x % 256) + (y % 256)) % 256) as u8;
    let g: u8 = (y % 256) as u8;
    let b: u8 = ((x % 128) * 2) as u8;
    [r, g, b, 255]
}

/// Calls `ImageBuffer::from_fn` of the image crate for an RGBA buffer and
/// takes its samples with `into_raw`: the crate sets the pixel at `(x, y)` to
/// what the function gives for `(x, y)` and stores pixels row by row, four
/// samples each. It panics where the buffer would not fit a vector, which
/// `requires` leaves out.
#[verifier::external_body]
fn placeholder_raster(width: u32, height: u32) -> (rgba: Vec<u8>)
    requires
        width * height * 4 <= usize::MAX,
    ensures
        rgba@ == placeholder_rgba(width as nat, height as nat),
{
    ::image::RgbaImage::from_fn(width, height, |x, y| ::image::Rgba(placeholder_pixel(x, y)))
        .into_raw()
}

fn channel_level(percent: u8) -> (level: u8)
    ensures
        level == channel(percent),
{
    if percent >= 100 {
        255
    } else {
        ((percent as u32) * 255 / 100) as u8
    }
}

/// Parser for the Sixel graphics protocol: `ESC P q data ESC \`.
pub struct SixelImageParser {
    framer: SequenceFramer,
}

impl View for SixelImageParser {
    type V = FramerView;

    closed spec fn view(&self) -> FramerView {
        self.framer@
    }
}

impl SixelImageParser {
    pub fn new() -> (parser: SixelImageParser)
        ensures
            parser@ == FramerView::idle(),
    {
        SixelImageParser { framer: SequenceFramer::new() }
    }

    /// Takes one byte of the stream; returns the image of the sequence that
    /// the byte completes, if its data paints anything.
    pub fn process_byte(&mut self, byte: u8) -> (image: Option<DecodedImage>)
        requires
            old(self)@.wf(),
        ensures
            final(self)@.wf(),
            final(self)@ == old(self)@.step(byte, SIXEL_MIDDLE, SIXEL_LAST).0,
            match old(self)@.step(byte, SIXEL_MIDDLE, SIXEL_LAST).1 {
                Some(data) => match image {
                    Some(img) => sixel_image(data) == Some(img@),
                    None => sixel_image(data).is_none(),
                },
                None => image.is_none(),
            },
    {
        match self.framer.feed(byte, SIXEL_MIDDLE, SIXEL_LAST) {
            Some(data) => Self::parse_sequence(&data),
            None => None,
        }
    }

    /// Reads sixel data: colour definitions, pen movements and data bytes.
    pub fn scan(data: &Vec<u8>) -> (found: SixelScan)
        requires
            data@.len() <= MAX_SEQUENCE_BYTES,
        ensures
            found.width == scan_all(data@).width,
            found.height == scan_all(data@).height,
            found.palette@ == scan_all(data@).palette,
            found.current_color == scan_all(data@).current_color,
    {
        let mut palette: Vec<(u8, u8, u8)> = Vec::new();
        let mut k: usize = 0;
        while k < PALETTE_SIZE
            invariant
                k <= PALETTE_SIZE,
                palette@.len() == k,
                forall|j: int| 0 <= j < k ==> palette@[j] == initial_palette()[j],
            decreases PALETTE_SIZE - k,
        {
            if k < 16 {
                let c = Self::default_color(k);
                palette.push((c[0], c[1], c[2]));
            } else {
                palette.push((0, 0, 0));
            }
            k += 1;
        }
        assert(palette@ =~= initial_palette());

        let len: usize = data.len();
        let mut width: usize = 0;
        let mut height: usize = 0;
        let mut x: usize = 0;
        let mut y: usize = 0;
        let mut current_color: usize = 0;
        let mut defining: bool = false;
        let mut number: Option<u16> = None;
        let mut params: Vec<u8> = Vec::new();
        let mut i: usize = 0;
        while i < len
            invariant
                i <= len == data@.len() <= MAX_SEQUENCE_BYTES,
                x <= i,
                width <= i,
                y <= 6 * i,
                height <= 6 * i + 6,
                current_color < PALETTE_SIZE,
                palette@.len() == PALETTE_SIZE,
                width == scan_prefix(data@, i as int).width,
                height == scan_prefix(data@, i as int).height,
                x == scan_prefix(data@, i as int).x,
                y == scan_prefix(data@, i as int).y,
                palette@ == scan_prefix(data@, i as int).palette,
                current_color == scan_prefix(data@, i as int).current_color,
                defining == scan_prefix(data@, i as int).defining,
                params@ == scan_prefix(data@, i as int).params,
                match scan_prefix(data@, i as int).number {
                    Some(n) => 0 <= n && number == Some(
                        if n < 256 {
                            n as u16
                        } else {
                            256u16
                        },
                    ),
                    None => number.is_none(),
                },
            decreases len - i,
        {
            let byte: u8 = data[i];
            let ghost before = scan_prefix(data@, i as int);
            assert(scan_prefix(data@, i + 1) == before.step(byte));
            let was_defining: bool = defining;
            let mut closed: bool = false;
            if defining {
                if 0x30 <= byte && byte <= 0x39 {
                    let so_far: u16 = match number {
                        Some(n) => n,
                        None => 0,
                    };
                    let grown: u16 = so_far * 10 + ((byte - 0x30) as u16);
                    number = Some(
                        if grown < 256 {
                            grown
                        } else {
                            256
                        },
                    );
                } else if byte == 0x3b {
                    match number {
                        Some(n) => {
                            if n <= 255 {
                                params.push(n as u8);
                            }
                        },
                        None => {},
                    }
                    number = None;
                } else {
                    match number {
                        Some(n) => {
                            if n <= 255 {
                                params.push(n as u8);
                            }
                        },
                        None => {},
                    }
                    assert(params@ == push_number(before.params, before.number));
                    if params.len() >= 5 {
                        let register: usize = params[0] as usize;
                        palette[register] = (
                            channel_level(params[2]),
                            channel_level(params[3]),
                            channel_level(params[4]),
                        );
                        current_color = register;
                    } else if params.len() > 0 {
                        current_color = params[0] as usize;
                    }
                    defining = false;
                    number = None;
                    params = Vec::new();
                    closed = true;
                }
            }
            if closed || !was_defining {
                if byte == 0x23 {
                    defining = true;
                    number = None;
                    params = Vec::new();
                } else if byte == 0x24 {
                    x = 0;
                } else if byte == 0x2d {
                    x = 0;
                    y += 6;
                } else if 0x3f <= byte && byte <= 0x7e {
                    x += 1;
                    if x > width {
                        width = x;
                    }
                    if y + 6 > height {
                        height = y + 6;
                    }
                }
            }
            i += 1;
        }
        if defining {
            if params.len() >= 5 {
                let register: usize = params[0] as usize;
                palette[register] = (
                    channel_level(params[2]),
                    channel_level(params[3]),
                    channel_level(params[4]),
                );
                current_color = register;
            } else if params.len() > 0 {
                current_color = params[0] as usize;
            }
        }
        SixelScan { width, height, palette, current_color }
    }

    /// Turns complete sixel data (without its markers) into an image: a
    /// placeholder pattern of the size that the data covers.
    pub fn parse_sequence(data: &Vec<u8>) -> (image: Option<DecodedImage>)
        requires
            data@.len() <= MAX_SEQUENCE_BYTES,
        ensures
            match image {
                Some(img) => sixel_image(data@) == Some(img@),
                None => sixel_image(data@).is_none(),
            },
    {
        let found = Self::scan(data);
        if found.width > 0 && found.height > 0 {
            let width: u32 = if found.width < MAX_WIDTH {
                found.width as u32
            } else {
                MAX_WIDTH as u32
            };
            let height: u32 = if found.height < MAX_HEIGHT {
                found.height as u32
            } else {
                MAX_HEIGHT as u32
            };
            assert(width * height * 4 <= 800 * 600 * 4) by (nonlinear_arith)
                requires
                    0 <= width <= 800,
                    0 <= height <= 600,
            ;
            let rgba = placeholder_raster(width, height);
            DecodedImage::from_rgba(width, height, rgba)
        } else {
            None
        }
    }

    /// The colours of the default VT340 palette.
    pub fn default_color(index: usize) -> (color: [u8; 3])
        ensures
            (color[0], color[1], color[2]) == default_color_spec(index as int),
    {
        match index {
            0 => [0, 0, 0],
            1 => [51, 102, 179],
            2 => [204, 51, 51],
            3 => [51, 204, 51],
            4 => [204, 51, 204],
            5 => [51, 204, 204],
            6 => [204, 204, 51],
            7 => [229, 229, 229],
            8 => [127, 127, 127],
            9 => [179, 179, 255],
            10 => [255, 179, 179],
            11 => [179, 255, 179],
            12 => [255, 179, 255],
            13 => [179, 255, 255],
            14 => [255, 255, 179],
            15 => [255, 255, 255],
            _ => [128, 128, 128],
        }
    }

    /// Forgets everything seen so far.
    pub fn reset(&mut self)
        ensures
            final(self)@ == FramerView::idle(),
    {
        self.framer.reset();
    }
}

impl Default for SixelImageParser {
    fn default() -> (parser: Self)
        ensures
            parser@ == FramerView::idle(),
    {
        SixelImageParser::new()
    }
}

} // verus!

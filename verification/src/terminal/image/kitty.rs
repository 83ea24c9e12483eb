use super::framing::{FramerView, SequenceFramer};
use super::{base64_decoded, decode_base64, image_decoded, load_image, DecodedImage, ImageView};
use vstd::prelude::*;

verus! {

/// The byte between `ESC` and `G` in the start marker `ESC _ G`.
pub const KITTY_MIDDLE: u8 = 0x5f;

/// The last byte of the start marker `ESC _ G`.
pub const KITTY_LAST: u8 = 0x47;

/// The byte that parts the control list from the image data.
pub const SEPARATOR: u8 = 0x3b;

/// White space of one byte: tab, line feed, vertical tab, form feed,
/// carriage return and space.
pub open spec fn is_space(byte: u8) -> bool {
    (0x09 <= byte <= 0x0d) || byte == 0x20
}

/// White space of two bytes in UTF-8: next line (U+0085) and no-break space
/// (U+00A0).
pub open spec fn is_space_pair(first: u8, second: u8) -> bool {
    first == 0xc2 && (second == 0x85 || second == 0xa0)
}

/// White space of three bytes in UTF-8: U+1680, U+2000 to U+200A, U+2028,
/// U+2029, U+202F, U+205F and U+3000.
pub open spec fn is_space_triple(first: u8, second: u8, third: u8) -> bool {
    ||| (first == 0xe1 && second == 0x9a && third == 0x80)
    ||| (first == 0xe2 && second == 0x80 && (0x80 <= third <= 0x8a || third == 0xa8 || third
        == 0xa9 || third == 0xaf))
    ||| (first == 0xe2 && second == 0x81 && third == 0x9f)
    ||| (first == 0xe3 && second == 0x80 && third == 0x80)
}

/// How many bytes the white-space character takes that starts at `at`; 0
/// where none starts there.
pub open spec fn space_len(bytes: Seq<u8>, at: int) -> int {
    if at < 0 || at >= bytes.len() {
        0
    } else if is_space(bytes[at]) {
        1
    } else if at + 1 < bytes.len() && is_space_pair(bytes[at], bytes[at + 1]) {
        2
    } else if at + 2 < bytes.len() && is_space_triple(bytes[at], bytes[at + 1], bytes[at + 2]) {
        3
    } else {
        0
    }
}

/// How many bytes the white-space character takes that ends just before
/// `to` and starts at `from` or later; 0 where none ends there.
pub open spec fn space_len_before(bytes: Seq<u8>, from: int, to: int) -> int {
    if from < 0 || to > bytes.len() || to <= from {
        0
    } else if is_space(bytes[to - 1]) {
        1
    } else if from <= to - 2 && is_space_pair(bytes[to - 2], bytes[to - 1]) {
        2
    } else if from <= to - 3 && is_space_triple(bytes[to - 3], bytes[to - 2], bytes[to - 1]) {
        3
    } else {
        0
    }
}

/// The first place at or after `from` where `bytes` holds `wanted`, or the
/// length of `bytes` where it holds none.
pub open spec fn find_from(bytes: Seq<u8>, wanted: u8, from: int) -> int
    decreases bytes.len() - from,
{
    if 0 <= from < bytes.len() && bytes[from] != wanted {
        find_from(bytes, wanted, from + 1)
    } else {
        from
    }
}

/// The first place at or after `from` where no white-space character starts.
pub open spec fn skip_spaces(bytes: Seq<u8>, from: int) -> int
    decreases bytes.len() - from,
{
    if space_len(bytes, from) > 0 {
        skip_spaces(bytes, from + space_len(bytes, from))
    } else {
        from
    }
}

/// The end of `bytes[from..to]` once its trailing white-space characters are
/// gone.
pub open spec fn drop_trailing_spaces(bytes: Seq<u8>, from: int, to: int) -> int
    decreases to - from,
{
    if space_len_before(bytes, from, to) > 0 {
        drop_trailing_spaces(bytes, from, to - space_len_before(bytes, from, to))
    } else {
        to
    }
}

/// `bytes` without the white-space characters at its ends: the characters
/// that Unicode gives the property White_Space, in their UTF-8 encoding.
pub open spec fn trimmed(bytes: Seq<u8>) -> Seq<u8> {
    let start = skip_spaces(bytes, 0);
    bytes.subrange(start, drop_trailing_spaces(bytes, start, bytes.len() as int))
}

/// The image data of a sequence `control ; data`: what follows the first
/// `;`, without the white space at its ends. A sequence without `;` has
/// none.
pub open spec fn kitty_payload(sequence: Seq<u8>) -> Option<Seq<u8>> {
    let at = find_from(sequence, SEPARATOR, 0);
    if at < sequence.len() {
        Some(trimmed(sequence.subrange(at + 1, sequence.len() as int)))
    } else {
        None
    }
}

/// The raster that width, height and samples describe, where the samples
/// are four per pixel.
pub open spec fn raster(loaded: Option<(u32, u32, Seq<u8>)>) -> Option<ImageView> {
    match loaded {
        Some((width, height, rgba)) => {
            let view = ImageView { width: width as nat, height: height as nat, rgba };
            if view.wf() {
                Some(view)
            } else {
                None
            }
        },
        None => None,
    }
}

/// The image of a complete sequence: its payload, base64-decoded, then
/// loaded as an image. Any step that fails leaves no image.
pub open spec fn kitty_image(sequence: Seq<u8>) -> Option<ImageView> {
    match kitty_payload(sequence) {
        Some(encoded) => match base64_decoded(encoded) {
            Some(data) => raster(image_decoded(data)),
            None => None,
        },
        None => None,
    }
}

/// Parser for the Kitty graphics protocol: `ESC _ G control ; payload ESC \`,
/// where the payload is a base64-encoded image file.
pub struct KittyImageParser {
    framer: SequenceFramer,
}

impl View for KittyImageParser {
    type V = FramerView;

    closed spec fn view(&self) -> FramerView {
        self.framer@
    }
}

fn is_space_byte(byte: u8) -> (space: bool)
    ensures
        space == is_space(byte),
{
    (0x09 <= byte && byte <= 0x0d) || byte == 0x20
}

fn is_pair(first: u8, second: u8) -> (space: bool)
    ensures
        space == is_space_pair(first, second),
{
    first == 0xc2 && (second == 0x85 || second == 0xa0)
}

fn is_triple(first: u8, second: u8, third: u8) -> (space: bool)
    ensures
        space == is_space_triple(first, second, third),
{
    (first == 0xe1 && second == 0x9a && third == 0x80) || (first == 0xe2 && second == 0x80 && ((
    0x80 <= third && third <= 0x8a) || third == 0xa8 || third == 0xa9 || third == 0xaf)) || (first
        == 0xe2 && second == 0x81 && third == 0x9f) || (first == 0xe3 && second == 0x80 && third
        == 0x80)
}

/// How many bytes the white-space character takes that starts at `at`.
fn space_len_at(bytes: &Vec<u8>, at: usize) -> (n: usize)
    ensures
        n == space_len(bytes@, at as int),
        n <= 3,
        at + n <= bytes@.len() || n == 0,
{
    let len: usize = bytes.len();
    if at >= len {
        0
    } else if is_space_byte(bytes[at]) {
        1
    } else if len - at > 1 && is_pair(bytes[at], bytes[at + 1]) {
        2
    } else if len - at > 2 && is_triple(bytes[at], bytes[at + 1], bytes[at + 2]) {
        3
    } else {
        0
    }
}

/// How many bytes the white-space character takes that ends just before
/// `to` and starts at `from` or later.
fn space_len_ending(bytes: &Vec<u8>, from: usize, to: usize) -> (n: usize)
    ensures
        n == space_len_before(bytes@, from as int, to as int),
        n <= 3,
        from + n <= to || n == 0,
{
    if to > bytes.len() || to <= from {
        0
    } else if is_space_byte(bytes[to - 1]) {
        1
    } else if to - from >= 2 && is_pair(bytes[to - 2], bytes[to - 1]) {
        2
    } else if to - from >= 3 && is_triple(bytes[to - 3], bytes[to - 2], bytes[to - 1]) {
        3
    } else {
        0
    }
}

/// The bytes of `bytes` from `from` up to `to`, copied.
fn copy_bytes(bytes: &Vec<u8>, from: usize, to: usize) -> (out: Vec<u8>)
    requires
        from <= to <= bytes@.len(),
    ensures
        out@ == bytes@.subrange(from as int, to as int),
{
    let mut out: Vec<u8> = Vec::new();
    let mut i: usize = from;
    while i < to
        invariant
            from <= i <= to <= bytes@.len(),
            out@ == bytes@.subrange(from as int, i as int),
        decreases to - i,
    {
        out.push(bytes[i]);
        i += 1;
        assert(out@ =~= bytes@.subrange(from as int, i as int));
    }
    out
}

impl KittyImageParser {
    pub fn new() -> (parser: KittyImageParser)
        ensures
            parser@ == FramerView::idle(),
    {
        KittyImageParser { framer: SequenceFramer::new() }
    }

    /// Takes one byte of the stream; returns the image of the sequence that
    /// the byte completes, if its payload decodes.
    pub fn process_byte(&mut self, byte: u8) -> (image: Option<DecodedImage>)
        requires
            old(self)@.wf(),
        ensures
            final(self)@.wf(),
            final(self)@ == old(self)@.step(byte, KITTY_MIDDLE, KITTY_LAST).0,
            match old(self)@.step(byte, KITTY_MIDDLE, KITTY_LAST).1 {
                Some(sequence) => match image {
                    Some(img) => kitty_image(sequence) == Some(img@),
                    None => kitty_image(sequence).is_none(),
                },
                None => image.is_none(),
            },
    {
        match self.framer.feed(byte, KITTY_MIDDLE, KITTY_LAST) {
            Some(sequence) => Self::parse_sequence(&sequence),
            None => None,
        }
    }

    /// The image data inside a complete sequence, still base64-encoded.
    pub fn payload(sequence: &Vec<u8>) -> (encoded: Option<Vec<u8>>)
        ensures
            match encoded {
                Some(bytes) => kitty_payload(sequence@) == Some(bytes@),
                None => kitty_payload(sequence@).is_none(),
            },
    {
        let len: usize = sequence.len();
        let mut at: usize = 0;
        while at < len && sequence[at] != SEPARATOR
            invariant
                at <= len == sequence@.len(),
                find_from(sequence@, SEPARATOR, 0) == find_from(sequence@, SEPARATOR, at as int),
            decreases len - at,
        {
            at += 1;
        }
        if at >= len {
            return None;
        }
        let rest = copy_bytes(sequence, at + 1, len);
        let size: usize = rest.len();
        let mut start: usize = 0;
        loop
            invariant
                start <= size == rest@.len(),
                skip_spaces(rest@, 0) == skip_spaces(rest@, start as int),
            ensures
                start <= size,
                skip_spaces(rest@, 0) == start,
            decreases size - start,
        {
            let n = space_len_at(&rest, start);
            if n == 0 {
                break ;
            }
            start += n;
        }
        let mut end: usize = size;
        loop
            invariant
                start <= end <= size == rest@.len(),
                drop_trailing_spaces(rest@, start as int, size as int) == drop_trailing_spaces(
                    rest@,
                    start as int,
                    end as int,
                ),
            ensures
                start <= end <= size,
                drop_trailing_spaces(rest@, start as int, size as int) == end,
            decreases end - start,
        {
            let n = space_len_ending(&rest, start, end);
            if n == 0 {
                break ;
            }
            end -= n;
        }
        Some(copy_bytes(&rest, start, end))
    }

    /// The image that loaded data stands for: `None` where the loader gave
    /// none, or gave samples that do not fit the size it gave.
    pub fn image_from(loaded: Option<(u32, u32, Vec<u8>)>) -> (image: Option<DecodedImage>)
        ensures
            match image {
                Some(img) => match loaded {
                    Some((width, height, rgba)) => raster(Some((width, height, rgba@))) == Some(
                        img@,
                    ),
                    None => false,
                },
                None => match loaded {
                    Some((width, height, rgba)) => raster(Some((width, height, rgba@))).is_none(),
                    None => true,
                },
            },
    {
        match loaded {
            Some((width, height, rgba)) => DecodedImage::from_rgba(width, height, rgba),
            None => None,
        }
    }

    /// Decodes a complete sequence (without its markers) into an image.
    pub fn parse_sequence(sequence: &Vec<u8>) -> (image: Option<DecodedImage>)
        ensures
            match image {
                Some(img) => kitty_image(sequence@) == Some(img@),
                None => kitty_image(sequence@).is_none(),
            },
    {
        let encoded = match Self::payload(sequence) {
            Some(bytes) => bytes,
            None => {
                return None;
            },
        };
        let data = match decode_base64(&encoded) {
            Some(bytes) => bytes,
            None => {
                return None;
            },
        };
        Self::image_from(load_image(&data))
    }

    /// Forgets everything seen so far.
    pub fn reset(&mut self)
        ensures
            final(self)@ == FramerView::idle(),
    {
        self.framer.reset();
    }
}

impl Default for KittyImageParser {
    fn default() -> (parser: Self)
        ensures
            parser@ == FramerView::idle(),
    {
        KittyImageParser::new()
    }
}

} // verus!

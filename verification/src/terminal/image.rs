pub mod framing;
pub mod kitty;
pub mod sixel;

pub use kitty::KittyImageParser;
pub use sixel::SixelImageParser;

use base64::Engine;
use vstd::prelude::*;

verus! {

/// The mathematical model of a decoded raster: its size in pixels and its
/// samples, four per pixel (red, green, blue, alpha), rows top first.
pub struct ImageView {
    pub width: nat,
    pub height: nat,
    pub rgba: Seq<u8>,
}

impl ImageView {
    /// A raster holds four samples for each of its pixels.
    pub open spec fn wf(self) -> bool {
        self.rgba.len() == self.width * self.height * 4
    }
}

/// A decoded image as plain values: what the emulator reads of an image
/// (its size) and what a renderer needs to draw it (its samples).
#[derive(Debug, Clone)]
pub struct DecodedImage {
    width: u32,
    height: u32,
    rgba: Vec<u8>,
}

impl View for DecodedImage {
    type V = ImageView;

    closed spec fn view(&self) -> ImageView {
        ImageView { width: self.width as nat, height: self.height as nat, rgba: self.rgba@ }
    }
}

impl DecodedImage {
    /// An image of `width` x `height` pixels over `rgba`, where `rgba` holds
    /// exactly four samples per pixel; `None` for any other length.
    pub fn from_rgba(width: u32, height: u32, rgba: Vec<u8>) -> (image: Option<DecodedImage>)
        ensures
            match image {
                Some(img) => img@ == (ImageView {
                    width: width as nat,
                    height: height as nat,
                    rgba: rgba@,
                }) && img@.wf(),
                None => rgba@.len() != width * height * 4,
            },
    {
        assert(width * height <= 0xffff_ffff * 0xffff_ffff) by (nonlinear_arith)
            requires
                0 <= width <= 0xffff_ffff,
                0 <= height <= 0xffff_ffff,
        ;
        let pixels: u64 = (width as u64) * (height as u64);
        assert(width * height * 4 == pixels * 4) by (nonlinear_arith)
            requires
                pixels == width * height,
        ;
        if (rgba.len() as u128) == (pixels as u128) * 4 {
            Some(DecodedImage { width, height, rgba })
        } else {
            None
        }
    }

    pub fn width(&self) -> (width: u32)
        ensures
            width == self@.width,
    {
        self.width
    }

    pub fn height(&self) -> (height: u32)
        ensures
            height == self@.height,
    {
        self.height
    }

    /// The samples, four per pixel, rows top first.
    pub fn rgba(&self) -> (rgba: &Vec<u8>)
        ensures
            rgba@ == self@.rgba,
    {
        &self.rgba
    }
}

/// An image shown in the terminal, anchored at a cell.
#[derive(Debug, Clone)]
pub struct TerminalImage {
    /// The decoded image.
    pub image: DecodedImage,
    /// Row where the image starts.
    pub row: usize,
    /// Column where the image starts.
    pub col: usize,
    /// Width in cells.
    pub width_cells: usize,
    /// Height in cells.
    pub height_cells: usize,
}

/// The mathematical model of a placed image.
pub struct PlacedImage {
    pub image: ImageView,
    pub row: int,
    pub col: int,
    pub width_cells: int,
    pub height_cells: int,
}

impl View for TerminalImage {
    type V = PlacedImage;

    open spec fn view(&self) -> PlacedImage {
        PlacedImage {
            image: self.image@,
            row: self.row as int,
            col: self.col as int,
            width_cells: self.width_cells as int,
            height_cells: self.height_cells as int,
        }
    }
}

impl TerminalImage {
    pub fn new(
        image: DecodedImage,
        row: usize,
        col: usize,
        width_cells: usize,
        height_cells: usize,
    ) -> (placed: TerminalImage)
        ensures
            placed == (TerminalImage { image, row, col, width_cells, height_cells }),
    {
        TerminalImage { image, row, col, width_cells, height_cells }
    }

    /// The image width in pixels.
    pub fn width_pixels(&self) -> (width: u32)
        ensures
            width == self.image@.width,
    {
        self.image.width()
    }

    /// The image height in pixels.
    pub fn height_pixels(&self) -> (height: u32)
        ensures
            height == self.image@.height,
    {
        self.image.height()
    }
}

/// What standard base64 (the alphabet of RFC 4648 with `=` padding) decodes
/// `input` to, or `None` where `input` is no such encoding.
pub uninterp spec fn base64_decoded(input: Seq<u8>) -> Option<Seq<u8>>;

/// Calls `Engine::decode` of the base64 crate on its `STANDARD` engine. The
/// contract only names the outcome: which bytes come out, and for which
/// inputs the decoder fails, is the crate's business and is not proved here.
#[verifier::external_body]
pub(crate) fn decode_base64(input: &Vec<u8>) -> (decoded: Option<Vec<u8>>)
    ensures
        match decoded {
            Some(bytes) => base64_decoded(input@) == Some(bytes@),
            None => base64_decoded(input@).is_none(),
        },
{
    base64::engine::general_purpose::STANDARD.decode(input).ok()
}

/// The image that `data` encodes in one of the formats built into the
/// loader, as width, height and RGBA samples: the format is told from the
/// first bytes of `data` and the data decoded as that format. `None` where
/// the first bytes name no format or the decoder rejects the data.
pub uninterp spec fn image_decoded(data: Seq<u8>) -> Option<(u32, u32, Seq<u8>)>;

/// Calls `image::guess_format`, which tells the format from the crate's table
/// of magic bytes, then `image::load_from_memory_with_format` with that
/// format, which decodes with the crate's own decoder for it, and hands the
/// picture out as eight-bit RGBA samples. Neither call looks at anything but
/// `data`. The contract only names the outcome; nothing about the decoders
/// is proved here.
#[verifier::external_body]
pub(crate) fn load_image(data: &Vec<u8>) -> (loaded: Option<(u32, u32, Vec<u8>)>)
    ensures
        match loaded {
            Some((width, height, rgba)) => image_decoded(data@) == Some((width, height, rgba@)),
            None => image_decoded(data@).is_none(),
        },
{
    let format = ::image::guess_format(data).ok()?;
    let rgba = ::image::load_from_memory_with_format(data, format).ok()?.into_rgba8();
    Some((rgba.width(), rgba.height(), rgba.into_raw()))
}

} // verus!

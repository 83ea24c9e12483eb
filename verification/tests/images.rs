use base64::Engine;
use terbulator::terminal::emulator::TerminalEmulator;
use terbulator::terminal::image::framing::SequenceFramer;
use terbulator::terminal::image::sixel::placeholder_pixel;
use terbulator::terminal::image::{DecodedImage, KittyImageParser, SixelImageParser, TerminalImage};

fn png(width: u32, height: u32) -> Vec<u8> {
    let picture = image::RgbaImage::from_fn(width, height, |x, y| {
        image::Rgba([x as u8, y as u8, 7, 255])
    });
    let mut bytes = Vec::new();
    picture
        .write_to(&mut std::io::Cursor::new(&mut bytes), image::ImageFormat::Png)
        .unwrap();
    bytes
}

fn kitty_sequence(payload: &str) -> Vec<u8> {
    let mut bytes = b"\x1b_Gf=100,a=T;".to_vec();
    bytes.extend_from_slice(payload.as_bytes());
    bytes.extend_from_slice(b"\x1b\\");
    bytes
}

fn feed_kitty(parser: &mut KittyImageParser, bytes: &[u8]) -> Vec<DecodedImage> {
    let mut found = Vec::new();
    for b in bytes {
        if let Some(image) = parser.process_byte(*b) {
            found.push(image);
        }
    }
    found
}

fn feed_sixel(parser: &mut SixelImageParser, bytes: &[u8]) -> Vec<DecodedImage> {
    let mut found = Vec::new();
    for b in bytes {
        if let Some(image) = parser.process_byte(*b) {
            found.push(image);
        }
    }
    found
}

#[test]
fn a_raster_needs_four_samples_per_pixel() {
    let image = DecodedImage::from_rgba(2, 3, vec![9; 24]).unwrap();
    assert_eq!(image.width(), 2);
    assert_eq!(image.height(), 3);
    assert_eq!(image.rgba(), &vec![9u8; 24]);
    assert!(DecodedImage::from_rgba(2, 3, vec![9; 23]).is_none());
    assert!(DecodedImage::from_rgba(2, 3, vec![9; 25]).is_none());
    assert!(DecodedImage::from_rgba(0, 3, Vec::new()).is_some());
    let placed = TerminalImage::new(image, 4, 5, 6, 7);
    assert_eq!((placed.row, placed.col, placed.width_cells, placed.height_cells), (4, 5, 6, 7));
    assert_eq!(placed.width_pixels(), 2);
    assert_eq!(placed.height_pixels(), 3);
}

#[test]
fn kitty_payload_is_what_follows_the_first_semicolon() {
    assert_eq!(KittyImageParser::payload(&b"a=T,f=100;QUJD".to_vec()), Some(b"QUJD".to_vec()));
    assert_eq!(KittyImageParser::payload(&b";".to_vec()), Some(Vec::new()));
    assert_eq!(KittyImageParser::payload(&b"a;b;c".to_vec()), Some(b"b;c".to_vec()));
    assert_eq!(
        KittyImageParser::payload(&b"k; \t\r\n\x0b\x0cQ Q \n".to_vec()),
        Some(b"Q Q".to_vec())
    );
    assert_eq!(KittyImageParser::payload(&b"k;   ".to_vec()), Some(Vec::new()));
    assert_eq!(
        KittyImageParser::payload(&"k;\u{a0}\u{2003}QU JD\u{3000}\u{85} ".as_bytes().to_vec()),
        Some(b"QU JD".to_vec())
    );
    for space in [
        "\u{85}", "\u{a0}", "\u{1680}", "\u{2000}", "\u{200a}", "\u{2028}", "\u{2029}",
        "\u{202f}", "\u{205f}", "\u{3000}",
    ] {
        let sequence = format!(";{}Q{}", space, space).into_bytes();
        assert_eq!(KittyImageParser::payload(&sequence), Some(b"Q".to_vec()));
    }
    for kept in ["\u{200b}", "\u{feff}", "\u{84}", "\u{2060}", "\u{e9}"] {
        let sequence = format!(";{}Q{}", kept, kept).into_bytes();
        assert_eq!(KittyImageParser::payload(&sequence), Some(sequence[1..].to_vec()));
    }
    assert_eq!(KittyImageParser::payload(&b";\xc2".to_vec()), Some(vec![0xc2]));
    assert_eq!(KittyImageParser::payload(&b";\xe2\x80".to_vec()), Some(vec![0xe2, 0x80]));
    assert_eq!(KittyImageParser::payload(&b";\x85\xa0".to_vec()), Some(vec![0x85, 0xa0]));
    assert_eq!(KittyImageParser::payload(&b"no separator".to_vec()), None);
    assert_eq!(KittyImageParser::payload(&Vec::new()), None);
}

#[test]
fn kitty_sequence_gives_the_decoded_image() {
    let encoded = base64::engine::general_purpose::STANDARD.encode(png(3, 2));
    let mut parser = KittyImageParser::new();
    let mut stream = b"text before".to_vec();
    stream.extend_from_slice(&kitty_sequence(&encoded));
    stream.extend_from_slice(b"text after");
    let found = feed_kitty(&mut parser, &stream);
    assert_eq!(found.len(), 1);
    assert_eq!(found[0].width(), 3);
    assert_eq!(found[0].height(), 2);
    assert_eq!(found[0].rgba().len(), 24);
    assert_eq!(&found[0].rgba()[0..8], &[0, 0, 7, 255, 1, 0, 7, 255]);
    assert_eq!(&found[0].rgba()[12..16], &[0, 1, 7, 255]);
    let again = feed_kitty(&mut parser, &kitty_sequence(&format!("  {}\n", encoded)));
    assert_eq!(again.len(), 1);
    let wide = feed_kitty(&mut parser, &kitty_sequence(&format!("\u{3000}{}\u{a0}", encoded)));
    assert_eq!(wide.len(), 1);
    assert_eq!((wide[0].width(), wide[0].height()), (3, 2));
}

#[test]
fn kitty_sequences_that_do_not_decode_give_nothing() {
    let mut parser = KittyImageParser::new();
    assert!(feed_kitty(&mut parser, &kitty_sequence("not base64!")).is_empty());
    assert!(feed_kitty(&mut parser, &kitty_sequence("QUJD")).is_empty());
    assert!(feed_kitty(&mut parser, b"\x1b_Gno separator\x1b\\").is_empty());
    let encoded = base64::engine::general_purpose::STANDARD.encode(png(1, 1));
    assert!(KittyImageParser::parse_sequence(&encoded.clone().into_bytes()).is_none());
    let mut with_separator = b";".to_vec();
    with_separator.extend_from_slice(encoded.as_bytes());
    assert!(KittyImageParser::parse_sequence(&with_separator).is_some());
    assert!(KittyImageParser::image_from(None).is_none());
    assert!(KittyImageParser::image_from(Some((1, 1, vec![1, 2, 3]))).is_none());
    assert!(KittyImageParser::image_from(Some((1, 1, vec![1, 2, 3, 4]))).is_some());
}

#[test]
fn reset_forgets_an_open_sequence() {
    let encoded = base64::engine::general_purpose::STANDARD.encode(png(1, 1));
    let whole = kitty_sequence(&encoded);
    let mut parser = KittyImageParser::new();
    assert!(feed_kitty(&mut parser, &whole[..10]).is_empty());
    parser.reset();
    assert!(feed_kitty(&mut parser, &whole[10..]).is_empty());
    assert_eq!(feed_kitty(&mut parser, &whole).len(), 1);
    let mut other = KittyImageParser::default();
    assert_eq!(feed_kitty(&mut other, &whole).len(), 1);
}

#[test]
fn the_framer_finds_sequences_in_a_stream() {
    let mut framer = SequenceFramer::new();
    let mut found = Vec::new();
    for b in b"ab\x1bPq12\x1b34\x1b\\cd\x1bPq\x1b\\\x1bPx\x1b\\" {
        if let Some(payload) = framer.feed(*b, b'P', b'q') {
            found.push(payload);
        }
    }
    assert_eq!(found, vec![b"12\x1b34".to_vec(), Vec::new()]);
}

#[test]
fn the_framer_keeps_a_short_window_at_rest() {
    let mut framer = SequenceFramer::new();
    for _ in 0..1000 {
        assert!(framer.feed(b'x', b'_', b'G').is_none());
    }
    let mut found = Vec::new();
    for b in b"\x1b_Ghello\x1b\\" {
        if let Some(payload) = framer.feed(*b, b'_', b'G') {
            found.push(payload);
        }
    }
    assert_eq!(found, vec![b"hello".to_vec()]);
    for _ in 0..99 {
        framer.feed(b'x', b'_', b'G');
    }
    framer.feed(0x1b, b'_', b'G');
    framer.feed(b'_', b'_', b'G');
    assert!(framer.feed(b'G', b'_', b'G').is_none());
    assert_eq!(framer.feed(0x1b, b'_', b'G'), None);
    assert_eq!(framer.feed(b'\\', b'_', b'G'), Some(Vec::new()));
    framer.feed(0x1b, b'_', b'G');
    framer.reset();
    framer.feed(b'_', b'_', b'G');
    framer.feed(b'G', b'_', b'G');
    framer.feed(0x1b, b'_', b'G');
    assert_eq!(framer.feed(b'\\', b'_', b'G'), None);
}

#[test]
fn sixel_scan_measures_the_data() {
    let found = SixelImageParser::scan(&b"#1;2;100;50;0~~~$-??-~".to_vec());
    assert_eq!(found.width, 3);
    assert_eq!(found.height, 18);
    assert_eq!(found.current_color, 1);
    assert_eq!(found.palette.len(), 256);
    assert_eq!(found.palette[1], (255, 127, 0));
    assert_eq!(found.palette[0], (0, 0, 0));
    assert_eq!(found.palette[2], (204, 51, 51));
    assert_eq!(found.palette[15], (255, 255, 255));
    assert_eq!(found.palette[16], (0, 0, 0));
    let none = SixelImageParser::scan(&b"$-#3".to_vec());
    assert_eq!((none.width, none.height, none.current_color), (0, 0, 0));
}

#[test]
fn sixel_colour_introducers() {
    let select = SixelImageParser::scan(&b"#7~".to_vec());
    assert_eq!((select.current_color, select.width), (7, 1));
    let dangling = SixelImageParser::scan(&b"#9".to_vec());
    assert_eq!(dangling.current_color, 0);
    let too_big = SixelImageParser::scan(&b"#300;5~".to_vec());
    assert_eq!(too_big.current_color, 5);
    let percent = SixelImageParser::scan(&b"#200;2;7;20;255~".to_vec());
    assert_eq!(percent.current_color, 200);
    assert_eq!(percent.palette[200], (17, 51, 255));
    let unfinished = SixelImageParser::scan(&b"#4;2;10;20;30".to_vec());
    assert_eq!(unfinished.current_color, 4);
    assert_eq!(unfinished.palette[4], (204, 51, 204));
    let chained = SixelImageParser::scan(&b"#4;2;10;20;30#6?".to_vec());
    assert_eq!(chained.current_color, 6);
    assert_eq!(chained.palette[4], (25, 51, 76));
    let empty_numbers = SixelImageParser::scan(&b"#;;8;~".to_vec());
    assert_eq!(empty_numbers.current_color, 8);
}

#[test]
fn default_sixel_colours() {
    assert_eq!(SixelImageParser::default_color(0), [0, 0, 0]);
    assert_eq!(SixelImageParser::default_color(1), [51, 102, 179]);
    assert_eq!(SixelImageParser::default_color(6), [204, 204, 51]);
    assert_eq!(SixelImageParser::default_color(9), [179, 179, 255]);
    assert_eq!(SixelImageParser::default_color(15), [255, 255, 255]);
    assert_eq!(SixelImageParser::default_color(16), [128, 128, 128]);
    assert_eq!(SixelImageParser::default_color(usize::MAX), [128, 128, 128]);
}

#[test]
fn sixel_sequence_gives_a_placeholder_of_the_size_covered() {
    let mut parser = SixelImageParser::new();
    let found = feed_sixel(&mut parser, b"\x1bPq~~~-~~\x1b\\");
    assert_eq!(found.len(), 1);
    let image = &found[0];
    assert_eq!((image.width(), image.height()), (3, 12));
    assert_eq!(image.rgba().len(), 3 * 12 * 4);
    for y in 0..12u32 {
        for x in 0..3u32 {
            let at = ((y * 3 + x) * 4) as usize;
            assert_eq!(&image.rgba()[at..at + 4], &placeholder_pixel(x, y));
            assert_eq!(
                &image.rgba()[at..at + 4],
                &[(x + y) as u8, y as u8, (2 * x) as u8, 255]
            );
        }
    }
    assert!(feed_sixel(&mut parser, b"\x1bPq#1;2;3\x1b\\").is_empty());
    assert!(SixelImageParser::parse_sequence(&b"$-".to_vec()).is_none());
    let mut other = SixelImageParser::default();
    other.reset();
    assert_eq!(feed_sixel(&mut other, b"\x1bPq?\x1b\\").len(), 1);
}

#[test]
fn sixel_placeholders_are_at_most_800_by_600() {
    let mut data = vec![b'~'; 900];
    data.extend(std::iter::repeat(b'-').take(150));
    data.push(b'?');
    let image = SixelImageParser::parse_sequence(&data).unwrap();
    assert_eq!((image.width(), image.height()), (800, 600));
    assert_eq!(placeholder_pixel(300, 700), [(300u32 % 256 + 700 % 256) as u8, 188, 88, 255]);
    assert_eq!(placeholder_pixel(255, 255), [254, 255, 254, 255]);
}

#[test]
fn the_emulator_places_images_at_the_cursor() {
    let encoded = base64::engine::general_purpose::STANDARD.encode(png(25, 41));
    let mut term = TerminalEmulator::new(20, 10, 0);
    term.process_bytes(b"\x1b[2;3H");
    term.process_bytes(&kitty_sequence(&encoded));
    assert_eq!(term.images().len(), 1);
    let placed = &term.images()[0];
    assert_eq!((placed.col, placed.row), (2, 1));
    assert_eq!((placed.width_cells, placed.height_cells), (3, 3));
    assert_eq!((placed.width_pixels(), placed.height_pixels()), (25, 41));
    assert_eq!(term.cursor_position(), (2, 4));
    term.process_bytes(b"\x1bPq~\x1b\\");
    assert_eq!(term.images().len(), 2);
    assert_eq!((term.images()[1].width_cells, term.images()[1].height_cells), (1, 1));
    assert_eq!(term.images()[1].row, 4);
    assert_eq!(term.cursor_position(), (2, 5));
    let tall = base64::engine::general_purpose::STANDARD.encode(png(10, 200));
    term.process_bytes(&kitty_sequence(&tall));
    assert_eq!(term.images()[2].height_cells, 10);
    assert_eq!(term.cursor_position(), (2, 9));
}

#[test]
fn images_are_sized_by_the_cell_size_of_the_renderer() {
    let mut term = TerminalEmulator::new(20, 10, 0);
    assert_eq!(term.cell_size(), (10000, 20000));
    term.set_cell_size(8400, 18200);
    assert_eq!(term.cell_size(), (8400, 18200));
    term.add_image(DecodedImage::from_rgba(84, 91, vec![0; 84 * 91 * 4]).unwrap());
    term.add_image(DecodedImage::from_rgba(85, 92, vec![0; 85 * 92 * 4]).unwrap());
    term.set_cell_size(1, 1000);
    term.add_image(DecodedImage::from_rgba(5, 3, vec![0; 60]).unwrap());
    let cells: Vec<(usize, usize, usize)> =
        term.images().iter().map(|i| (i.width_cells, i.height_cells, i.row)).collect();
    assert_eq!(cells, vec![(10, 5, 0), (11, 6, 5), (5000, 3, 9)]);
    assert_eq!(term.cursor_position(), (0, 9));
}

#[test]
fn add_image_sizes_in_cells_of_ten_by_twenty_pixels() {
    let mut term = TerminalEmulator::new(20, 10, 0);
    term.add_image(DecodedImage::from_rgba(0, 0, Vec::new()).unwrap());
    term.add_image(DecodedImage::from_rgba(10, 20, vec![0; 800]).unwrap());
    term.add_image(DecodedImage::from_rgba(11, 21, vec![0; 924]).unwrap());
    let cells: Vec<(usize, usize, usize)> =
        term.images().iter().map(|i| (i.width_cells, i.height_cells, i.row)).collect();
    assert_eq!(cells, vec![(1, 1, 0), (1, 1, 1), (2, 2, 2)]);
    assert_eq!(term.cursor_position(), (0, 4));
}

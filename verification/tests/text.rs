use gotos::console::{fits_console, Console, COLUMNS, ROWS, ROW_CELLS};
use gotos::font::{get_font, write_ascii, write_string, Font};
use gotos::graphics::{FrameBufferConfig, PixelColor, PixelFormat, RGBResv8BitPerColorPixelWriter};

/// A font of 256 glyphs: glyph `n` has its top row `n`, the others empty,
/// except 'A', whose top row is 0b1000_0001 and whose last row is 0xff.
fn test_font() -> Font {
    let mut data = vec![0u8; 256 * 16];
    for n in 0..256 {
        data[16 * n] = n as u8;
    }
    data[16 * 65] = 0b1000_0001;
    data[16 * 65 + 15] = 0xff;
    Font::new(data).unwrap()
}

fn screen(w: u32, h: u32) -> RGBResv8BitPerColorPixelWriter {
    RGBResv8BitPerColorPixelWriter {
        config: FrameBufferConfig {
            frame_buffer: vec![0u8; 4 * w as usize * h as usize],
            pixels_per_scan_line: w,
            horizontal_resolution: w,
            vertical_resolution: h,
            pixel_format: PixelFormat::RGBResv8BitPerColor,
        },
    }
}

fn px(w: &RGBResv8BitPerColorPixelWriter, x: usize, y: usize) -> (u8, u8, u8) {
    let o = 4 * (w.config.pixels_per_scan_line as usize * y + x);
    let b = &w.config.frame_buffer;
    (b[o], b[o + 1], b[o + 2])
}

fn lit(w: &RGBResv8BitPerColorPixelWriter) -> Vec<(usize, usize)> {
    let width = w.config.pixels_per_scan_line as usize;
    let mut v = Vec::new();
    for y in 0..w.config.vertical_resolution as usize {
        for x in 0..width {
            if px(w, x, y) != (0, 0, 0) {
                v.push((x, y));
            }
        }
    }
    v
}

const WHITE: PixelColor = PixelColor { r: 255, g: 255, b: 255 };
const BLUE: PixelColor = PixelColor { r: 0, g: 0, b: 255 };

#[test]
fn font_new_takes_whole_glyphs_only() {
    assert!(Font::new(vec![0u8; 15]).is_none());
    assert!(Font::new(vec![0u8; 17]).is_none());
    assert_eq!(Font::new(vec![0u8; 32]).unwrap().len(), 32);
    assert_eq!(Font::new(Vec::new()).unwrap().len(), 0);
}

#[test]
fn get_font_finds_glyph_offsets() {
    let f = test_font();
    assert_eq!(get_font(&f, 'A'), Some(16 * 65));
    assert_eq!(get_font(&f, '\0'), Some(0));
    assert_eq!(get_font(&f, '\u{ff}'), Some(16 * 255));
    assert_eq!(get_font(&f, '\u{100}'), None);
    assert_eq!(get_font(&f, 'あ'), None);
}

#[test]
fn write_ascii_draws_set_bits_only() {
    let f = test_font();
    let mut w = screen(16, 20);
    write_ascii(&mut w, &f, 2, 3, 'A', &WHITE);
    let mut expected = vec![(2, 3), (9, 3)];
    for x in 2..10 {
        expected.push((x, 18));
    }
    assert_eq!(lit(&w), expected);
}

#[test]
fn write_ascii_without_glyph_draws_nothing() {
    let f = test_font();
    let mut w = screen(8, 16);
    write_ascii(&mut w, &f, 0, 0, '\u{400}', &WHITE);
    assert!(lit(&w).is_empty());
}

#[test]
fn write_ascii_bit_order_is_msb_left() {
    // glyph 3 has top row 0b0000_0011: the two rightmost pixels
    let f = test_font();
    let mut w = screen(8, 16);
    write_ascii(&mut w, &f, 0, 0, '\u{3}', &WHITE);
    assert_eq!(lit(&w), vec![(6, 0), (7, 0)]);
}

#[test]
fn write_string_places_characters_eight_apart() {
    let f = test_font();
    let mut w = screen(24, 16);
    write_string(&mut w, &f, 0, 0, &['\u{80}', '\u{1}', '\u{80}'], &WHITE);
    // 0x80 is the leftmost pixel, 0x01 the rightmost
    assert_eq!(lit(&w), vec![(0, 0), (15, 0), (16, 0)]);
}

fn console() -> Console<RGBResv8BitPerColorPixelWriter> {
    Console::new(screen(648, 400), test_font(), WHITE, BLUE)
}

fn row_text(c: &Console<RGBResv8BitPerColorPixelWriter>, row: usize) -> String {
    c.buffer()[ROW_CELLS * row..ROW_CELLS * (row + 1)]
        .iter()
        .take_while(|ch| **ch != '\0')
        .collect()
}

#[test]
fn console_new_is_empty() {
    let c = console();
    assert_eq!(c.cursor(), (0, 0));
    assert_eq!(c.buffer().len(), ROWS * ROW_CELLS);
    assert!(c.buffer().iter().all(|ch| *ch == '\0'));
    assert!(lit(c.writer()).is_empty());
}

#[test]
fn console_put_string_stores_and_draws() {
    let mut c = console();
    c.put_string("AA");
    assert_eq!(c.cursor(), (0, 2));
    assert_eq!(row_text(&c, 0), "AA");
    assert_eq!(px(c.writer(), 0, 0), (255, 255, 255));
    assert_eq!(px(c.writer(), 7, 0), (255, 255, 255));
    assert_eq!(px(c.writer(), 8, 0), (255, 255, 255));
    assert_eq!(px(c.writer(), 15, 15), (255, 255, 255));
    assert_eq!(px(c.writer(), 1, 0), (0, 0, 0));
}

#[test]
fn console_newline_moves_to_next_row() {
    let mut c = console();
    c.put_string("A\nA");
    assert_eq!(c.cursor(), (1, 1));
    assert_eq!(row_text(&c, 0), "A");
    assert_eq!(row_text(&c, 1), "A");
    assert_eq!(px(c.writer(), 0, 16), (255, 255, 255));
}

#[test]
fn console_drops_characters_past_column_79() {
    let mut c = console();
    let long: String = std::iter::repeat('A').take(100).collect();
    c.put_string(&long);
    assert_eq!(c.cursor(), (0, COLUMNS - 1));
    assert_eq!(row_text(&c, 0).len(), 79);
    assert_eq!(c.buffer()[79], '\0');
    assert_eq!(c.buffer()[80], '\0');
}

#[test]
fn console_scrolls_on_last_row() {
    let mut c = console();
    for _ in 0..(ROWS - 1) {
        c.put_string("\n");
    }
    assert_eq!(c.cursor(), (24, 0));
    c.put_string("A");
    assert_eq!(row_text(&c, 24), "A");
    c.put_string("\n");
    // the text moves up one row, the last row is empty
    assert_eq!(c.cursor(), (24, 0));
    assert_eq!(row_text(&c, 23), "A");
    assert_eq!(row_text(&c, 24), "");
    // the screen is cleared to the background and the rows redrawn
    assert_eq!(px(c.writer(), 0, 16 * 23), (255, 255, 255));
    assert_eq!(px(c.writer(), 0, 16 * 24), (0, 0, 255));
    assert_eq!(px(c.writer(), 639, 399), (0, 0, 255));
    // pixels right of the console area are not cleared
    assert_eq!(px(c.writer(), 645, 0), (0, 0, 0));
}

#[test]
fn console_split_writes_equal_one_write() {
    let mut one = console();
    one.put_string("AB\nCD\u{80}");
    let mut two = console();
    two.put_string("AB\n");
    two.put_string("CD\u{80}");
    assert_eq!(one.buffer(), two.buffer());
    assert_eq!(one.cursor(), two.cursor());
    assert_eq!(one.writer().config.frame_buffer, two.writer().config.frame_buffer);
}

#[test]
fn console_fits_640_by_400_with_blank_null_glyph() {
    let f = test_font();
    assert!(fits_console(&f, 640, 400));
    assert!(!fits_console(&f, 639, 400));
    assert!(!fits_console(&f, 640, 399));
    let mut c = Console::new(screen(640, 400), f, WHITE, BLUE);
    for _ in 0..30 {
        c.put_string("AB\n");
    }
    assert_eq!(c.cursor(), (24, 0));
    assert_eq!(row_text(&c, 23), "AB");
}

#[test]
fn console_fit_depends_on_null_glyph() {
    // a null glyph with its leftmost pixel set needs one more column
    let mut data = vec![0u8; 256 * 16];
    data[3] = 0x80;
    let f = Font::new(data).unwrap();
    assert!(!fits_console(&f, 640, 400));
    assert!(fits_console(&f, 641, 400));
    // a font without glyphs always fits
    assert!(fits_console(&Font::new(Vec::new()).unwrap(), 640, 400));
}

#[test]
fn write_string_equals_characters_one_after_another() {
    let f = test_font();
    let mut whole = screen(40, 16);
    write_string(&mut whole, &f, 4, 0, &['A', '\u{3}', '\u{80}'], &WHITE);
    let mut parts = screen(40, 16);
    write_ascii(&mut parts, &f, 4, 0, 'A', &WHITE);
    write_string(&mut parts, &f, 12, 0, &['\u{3}', '\u{80}'], &WHITE);
    assert_eq!(whole.config.frame_buffer, parts.config.frame_buffer);
}

#[test]
fn console_cells_from_cursor_stay_empty() {
    let mut c = console();
    c.put_string("AB\nCD");
    let (row, col) = c.cursor();
    assert_eq!((row, col), (1, 2));
    assert!(c.buffer()[ROW_CELLS * row + col..].iter().all(|ch| *ch == '\0'));
    for r in 0..ROWS {
        assert_eq!(c.buffer()[ROW_CELLS * r + 79], '\0');
        assert_eq!(c.buffer()[ROW_CELLS * r + 80], '\0');
    }
}

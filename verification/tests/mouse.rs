use gotos::graphics::{FrameBufferConfig, PixelColor, PixelFormat, RGBResv8BitPerColorPixelWriter, Vector2D};
use gotos::mouse::{draw_mouse_cursor, mouse_cursor_shape, MouseCursor, MOUSE_CURSOR_HEIGHT, MOUSE_CURSOR_WIDTH};

fn screen(w: u32, h: u32) -> RGBResv8BitPerColorPixelWriter {
    RGBResv8BitPerColorPixelWriter {
        config: FrameBufferConfig {
            frame_buffer: vec![0u8; 4 * w as usize * h as usize],
            pixels_per_scan_line: w,
            horizontal_resolution: w,
            vertical_resolution: h,
            pixel_format: PixelFormat::RGBResv8BitPerColor,
        },
    }
}

fn px(w: &RGBResv8BitPerColorPixelWriter, x: usize, y: usize) -> (u8, u8, u8) {
    let o = 4 * (w.config.pixels_per_scan_line as usize * y + x);
    let b = &w.config.frame_buffer;
    (b[o], b[o + 1], b[o + 2])
}

#[test]
fn cursor_shape_rows_have_cursor_width() {
    for dy in 0..MOUSE_CURSOR_HEIGHT {
        assert_eq!(mouse_cursor_shape(dy).chars().count(), MOUSE_CURSOR_WIDTH);
    }
    assert_eq!(mouse_cursor_shape(14), "@......@@@@@@@@");
}

#[test]
fn draw_mouse_cursor_paints_outline_and_body() {
    let mut w = screen(40, 40);
    // start grey so that black outline pixels are visible
    for b in w.config.frame_buffer.iter_mut() {
        *b = 100;
    }
    draw_mouse_cursor(&mut w, 5, 6);
    assert_eq!(px(&w, 5, 6), (0, 0, 0)); // '@'
    assert_eq!(px(&w, 6, 6), (100, 100, 100)); // ' '
    assert_eq!(px(&w, 6, 8), (255, 255, 255)); // '.' in row 2
    assert_eq!(px(&w, 5 + 14, 6 + 14), (0, 0, 0)); // last '@' of row 14
    assert_eq!(px(&w, 4, 6), (100, 100, 100)); // left of the box
}

#[test]
fn move_relative_erases_old_and_draws_new() {
    let erase = PixelColor::new(0, 0, 255);
    let mut m = MouseCursor::new(screen(60, 60), erase, Vector2D::new(10, 10));
    m.move_relative(Vector2D::new(5, -3));
    assert_eq!(m.position(), Vector2D::new(15, 7));
    let w = m.writer();
    // old box corner not covered by the new cursor: erase colour
    assert_eq!(px(w, 10, 33), (0, 0, 255));
    // new cursor tip
    assert_eq!(px(w, 15, 7), (0, 0, 0));
    // outside both boxes: untouched
    assert_eq!(px(w, 40, 40), (0, 0, 0));
}

#[test]
fn successive_moves_add_up() {
    let mut m = MouseCursor::new(screen(100, 100), PixelColor::new(0, 0, 0), Vector2D::new(20, 20));
    m.move_relative(Vector2D::new(3, 4));
    m.move_relative(Vector2D::new(-10, 7));
    assert_eq!(m.position(), Vector2D::new(13, 31));
}

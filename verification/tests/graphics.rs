use gotos::graphics::{
    draw_rectangle, fill_rectangle, BGRResv8BitPerColorPixelWriter, FrameBufferConfig,
    FrameBufferWriter, PixelColor, PixelFormat, PixelWriter, RGBResv8BitPerColorPixelWriter,
    Vector2D,
};

fn config(ppsl: u32, hres: u32, vres: u32, format: PixelFormat) -> FrameBufferConfig {
    FrameBufferConfig {
        frame_buffer: vec![0u8; 4 * ppsl as usize * vres as usize],
        pixels_per_scan_line: ppsl,
        horizontal_resolution: hres,
        vertical_resolution: vres,
        pixel_format: format,
    }
}

fn rgb_at(c: &FrameBufferConfig, x: usize, y: usize) -> (u8, u8, u8) {
    let o = 4 * (c.pixels_per_scan_line as usize * y + x);
    (c.frame_buffer[o], c.frame_buffer[o + 1], c.frame_buffer[o + 2])
}

#[test]
fn rgb_writer_stores_red_green_blue() {
    let mut w = RGBResv8BitPerColorPixelWriter { config: config(4, 3, 2, PixelFormat::RGBResv8BitPerColor) };
    w.write_pixel(1, 1, &PixelColor::new(10, 20, 30));
    // pixel (1, 1) starts at byte 4 * (4 * 1 + 1) = 20
    assert_eq!(&w.config.frame_buffer[20..24], &[10, 20, 30, 0]);
    let others: usize = w.config.frame_buffer.iter().filter(|b| **b != 0).count();
    assert_eq!(others, 3);
}

#[test]
fn bgr_writer_stores_blue_green_red() {
    let mut w = BGRResv8BitPerColorPixelWriter { config: config(4, 4, 2, PixelFormat::BGRResv8BitPerColor) };
    w.write_pixel(3, 0, &PixelColor::new(10, 20, 30));
    assert_eq!(&w.config.frame_buffer[12..16], &[30, 20, 10, 0]);
}

#[test]
fn write_pixel_in_padding_column_leaves_next_line() {
    // x = 3 lies beyond the visible 3 columns but inside the scan line
    let mut w = RGBResv8BitPerColorPixelWriter { config: config(4, 3, 2, PixelFormat::RGBResv8BitPerColor) };
    w.write_pixel(3, 0, &PixelColor::new(1, 2, 3));
    assert_eq!(rgb_at(&w.config, 3, 0), (1, 2, 3));
    assert_eq!(rgb_at(&w.config, 0, 1), (0, 0, 0));
}

#[test]
fn frame_buffer_writer_picks_format() {
    match FrameBufferWriter::new(config(2, 2, 2, PixelFormat::RGBResv8BitPerColor)) {
        Some(FrameBufferWriter::Rgb(_)) => {}
        _ => panic!("expected an RGB writer"),
    }
    match FrameBufferWriter::new(config(2, 2, 2, PixelFormat::BGRResv8BitPerColor)) {
        Some(FrameBufferWriter::Bgr(_)) => {}
        _ => panic!("expected a BGR writer"),
    }
    assert!(FrameBufferWriter::new(config(2, 2, 2, PixelFormat::BitMask)).is_none());
    assert!(FrameBufferWriter::new(config(2, 2, 2, PixelFormat::BltOnly)).is_none());
}

#[test]
fn frame_buffer_writer_dispatches_byte_order() {
    let mut w = FrameBufferWriter::new(config(2, 2, 2, PixelFormat::BGRResv8BitPerColor)).unwrap();
    w.write_pixel(0, 1, &PixelColor::new(7, 8, 9));
    match w {
        FrameBufferWriter::Bgr(b) => assert_eq!(&b.config.frame_buffer[8..11], &[9, 8, 7]),
        _ => panic!("expected a BGR writer"),
    }
}

#[test]
fn fill_rectangle_sets_exactly_the_rectangle() {
    let mut w = RGBResv8BitPerColorPixelWriter { config: config(6, 6, 5, PixelFormat::RGBResv8BitPerColor) };
    let c = PixelColor::new(5, 6, 7);
    fill_rectangle(&mut w, Vector2D::new(1, 2), Vector2D::new(3, 2), c);
    for y in 0..5 {
        for x in 0..6 {
            let inside = (1..4).contains(&x) && (2..4).contains(&y);
            let expected = if inside { (5, 6, 7) } else { (0, 0, 0) };
            assert_eq!(rgb_at(&w.config, x, y), expected, "pixel ({}, {})", x, y);
        }
    }
}

#[test]
fn fill_rectangle_of_zero_width_draws_nothing() {
    let mut w = RGBResv8BitPerColorPixelWriter { config: config(2, 2, 2, PixelFormat::RGBResv8BitPerColor) };
    fill_rectangle(&mut w, Vector2D::new(100, 100), Vector2D::new(0, 5), PixelColor::new(1, 1, 1));
    assert!(w.config.frame_buffer.iter().all(|b| *b == 0));
}

#[test]
fn draw_rectangle_sets_the_outline_only() {
    let mut w = RGBResv8BitPerColorPixelWriter { config: config(6, 6, 6, PixelFormat::RGBResv8BitPerColor) };
    draw_rectangle(&mut w, Vector2D::new(1, 1), Vector2D::new(4, 3), PixelColor::new(9, 9, 9));
    for y in 0..6 {
        for x in 0..6 {
            let in_box = (1..5).contains(&x) && (1..4).contains(&y);
            let edge = in_box && (x == 1 || x == 4 || y == 1 || y == 3);
            let expected = if edge { (9, 9, 9) } else { (0, 0, 0) };
            assert_eq!(rgb_at(&w.config, x, y), expected, "pixel ({}, {})", x, y);
        }
    }
}

#[test]
fn draw_rectangle_of_one_pixel() {
    let mut w = RGBResv8BitPerColorPixelWriter { config: config(3, 3, 3, PixelFormat::RGBResv8BitPerColor) };
    draw_rectangle(&mut w, Vector2D::new(2, 2), Vector2D::new(1, 1), PixelColor::new(4, 4, 4));
    assert_eq!(rgb_at(&w.config, 2, 2), (4, 4, 4));
    assert_eq!(w.config.frame_buffer.iter().filter(|b| **b != 0).count(), 3);
}

#[test]
fn pixel_color_new_keeps_channels() {
    let c = PixelColor::new(1, 2, 3);
    assert_eq!((c.r, c.g, c.b), (1, 2, 3));
    let v = Vector2D::new(4usize, 5usize);
    assert_eq!((v.x, v.y), (4, 5));
}

#[test]
fn drawing_keeps_reserved_bytes_and_layout() {
    let mut c = config(4, 3, 3, PixelFormat::BGRResv8BitPerColor);
    for b in c.frame_buffer.iter_mut() {
        *b = 0xaa;
    }
    let mut w = FrameBufferWriter::new(c).unwrap();
    fill_rectangle(&mut w, Vector2D::new(0, 0), Vector2D::new(4, 3), PixelColor::new(1, 2, 3));
    match w {
        FrameBufferWriter::Bgr(b) => {
            for p in 0..12 {
                assert_eq!(&b.config.frame_buffer[4 * p..4 * p + 4], &[3, 2, 1, 0xaa]);
            }
            assert_eq!(b.config.horizontal_resolution, 3);
            assert_eq!(b.config.pixel_format, PixelFormat::BGRResv8BitPerColor);
        }
        _ => panic!("expected a BGR writer"),
    }
}

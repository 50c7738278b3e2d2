use gotos::desktop::{desktop_bg_color, draw_desktop};
use gotos::graphics::{FrameBufferConfig, PixelFormat, RGBResv8BitPerColorPixelWriter};

#[test]
fn desktop_layout() {
    let (w, h) = (100usize, 80usize);
    let mut s = RGBResv8BitPerColorPixelWriter {
        config: FrameBufferConfig {
            frame_buffer: vec![0u8; 4 * w * h],
            pixels_per_scan_line: w as u32,
            horizontal_resolution: w as u32,
            vertical_resolution: h as u32,
            pixel_format: PixelFormat::RGBResv8BitPerColor,
        },
    };
    draw_desktop(&mut s, w, h);
    let px = |x: usize, y: usize| {
        let o = 4 * (w * y + x);
        let b = &s.config.frame_buffer;
        (b[o], b[o + 1], b[o + 2])
    };
    let bg = desktop_bg_color();
    assert_eq!(px(50, 10), (bg.r, bg.g, bg.b));
    assert_eq!(px(50, 29), (0, 0, 255));
    assert_eq!(px(50, 30), (1, 8, 17)); // task bar
    assert_eq!(px(19, 79), (80, 80, 80)); // left fifth
    assert_eq!(px(20, 79), (1, 8, 17));
    assert_eq!(px(10, 40), (160, 160, 160)); // button outline corner
    assert_eq!(px(39, 69), (160, 160, 160));
    assert_eq!(px(11, 41), (80, 80, 80)); // button inside
}

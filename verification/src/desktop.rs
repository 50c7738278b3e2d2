use vstd::prelude::*;

use crate::graphics::{
    draw_rect, draw_rectangle, fill_rect, fill_rectangle, PixelColor, PixelWriter, Vector2D,
};

verus! {

/// The colour of the desktop background.
pub open spec fn spec_desktop_bg_color() -> PixelColor {
    PixelColor { r: 0, g: 0, b: 255 }
}

/// The colour of the desktop background.
pub fn desktop_bg_color() -> (c: PixelColor)
    ensures
        c == spec_desktop_bg_color(),
{
    PixelColor::new(0, 0, 255)
}

/// The desktop on a `w` by `h` screen whose pixels were `m`: the background,
/// a task bar 50 pixels high along the bottom, its left fifth lighter, and
/// the outline of a 30 by 30 button near its left end.
pub open spec fn desktop(m: Map<(int, int), PixelColor>, w: int, h: int) -> Map<
    (int, int),
    PixelColor,
> {
    let m1 = fill_rect(m, 0, 0, w, h, spec_desktop_bg_color());
    let m2 = fill_rect(m1, 0, h - 50, w, 50, PixelColor { r: 1, g: 8, b: 17 });
    let m3 = fill_rect(m2, 0, h - 50, w / 5, 50, PixelColor { r: 80, g: 80, b: 80 });
    draw_rect(m3, 10, h - 40, 30, 30, PixelColor { r: 160, g: 160, b: 160 })
}

/// Draws the desktop over the `frame_width` by `frame_height` screen.
pub fn draw_desktop<W: PixelWriter>(writer: &mut W, frame_width: usize, frame_height: usize)
    requires
        old(writer).inv(),
        frame_width <= old(writer).width(),
        frame_height <= old(writer).height(),
        frame_height >= 50,
        old(writer).width() >= 40,
    ensures
        final(writer).inv(),
        final(writer).width() == old(writer).width(),
        final(writer).height() == old(writer).height(),
        final(writer).rest() == old(writer).rest(),
        final(writer).pixels() == desktop(
            old(writer).pixels(),
            frame_width as int,
            frame_height as int,
        ),
{
    fill_rectangle(
        writer,
        Vector2D::new(0, 0),
        Vector2D::new(frame_width, frame_height),
        desktop_bg_color(),
    );
    fill_rectangle(
        writer,
        Vector2D::new(0, frame_height - 50),
        Vector2D::new(frame_width, 50),
        PixelColor::new(1, 8, 17),
    );
    fill_rectangle(
        writer,
        Vector2D::new(0, frame_height - 50),
        Vector2D::new(frame_width / 5, 50),
        PixelColor::new(80, 80, 80),
    );
    draw_rectangle(
        writer,
        Vector2D::new(10, frame_height - 40),
        Vector2D::new(30, 30),
        PixelColor::new(160, 160, 160),
    );
}

} // verus!

use vstd::prelude::*;

use crate::graphics::{
    fill_rect, fill_rectangle, FrameBufferWriter, PixelColor, PixelWriter, Vector2D,
};

verus! {

/// Width of the mouse cursor in pixels.
pub const MOUSE_CURSOR_WIDTH: usize = 15;

/// Height of the mouse cursor in pixels.
pub const MOUSE_CURSOR_HEIGHT: usize = 24;

/// Row `dy` of the cursor's shape: `@` is drawn black, `.` white, and a
/// space leaves the pixel as it is.
pub open spec fn cursor_shape_row(dy: int) -> Seq<char> {
    if dy == 0 {
        "@              "@
    } else if dy == 1 {
        "@@             "@
    } else if dy == 2 {
        "@.@            "@
    } else if dy == 3 {
        "@..@           "@
    } else if dy == 4 {
        "@...@          "@
    } else if dy == 5 {
        "@....@         "@
    } else if dy == 6 {
        "@.....@        "@
    } else if dy == 7 {
        "@......@       "@
    } else if dy == 8 {
        "@.......@      "@
    } else if dy == 9 {
        "@........@     "@
    } else if dy == 10 {
        "@.........@    "@
    } else if dy == 11 {
        "@..........@   "@
    } else if dy == 12 {
        "@...........@  "@
    } else if dy == 13 {
        "@............@ "@
    } else if dy == 14 {
        "@......@@@@@@@@"@
    } else if dy == 15 {
        "@......@       "@
    } else if dy == 16 {
        "@....@@.@      "@
    } else if dy == 17 {
        "@...@ @.@      "@
    } else if dy == 18 {
        "@..@   @.@     "@
    } else if dy == 19 {
        "@.@    @.@     "@
    } else if dy == 20 {
        "@@      @.@    "@
    } else if dy == 21 {
        "@       @.@    "@
    } else if dy == 22 {
        "         @.@   "@
    } else {
        "         @@@   "@
    }
}

/// Row `dy` of the cursor's shape.
pub fn mouse_cursor_shape(dy: usize) -> (s: &'static str)
    requires
        dy < MOUSE_CURSOR_HEIGHT,
    ensures
        s@ == cursor_shape_row(dy as int),
{
    match dy {
        0 => "@              ",
        1 => "@@             ",
        2 => "@.@            ",
        3 => "@..@           ",
        4 => "@...@          ",
        5 => "@....@         ",
        6 => "@.....@        ",
        7 => "@......@       ",
        8 => "@.......@      ",
        9 => "@........@     ",
        10 => "@.........@    ",
        11 => "@..........@   ",
        12 => "@...........@  ",
        13 => "@............@ ",
        14 => "@......@@@@@@@@",
        15 => "@......@       ",
        16 => "@....@@.@      ",
        17 => "@...@ @.@      ",
        18 => "@..@   @.@     ",
        19 => "@.@    @.@     ",
        20 => "@@      @.@    ",
        21 => "@       @.@    ",
        22 => "         @.@   ",
        _ => "         @@@   ",
    }
}

/// Every row of the cursor's shape is `MOUSE_CURSOR_WIDTH` characters long.
pub proof fn lemma_cursor_shape_width(dy: int)
    requires
        0 <= dy < 24,
    ensures
        cursor_shape_row(dy).len() == 15,
{
        reveal_strlit("@              ");
        reveal_strlit("@@             ");
        reveal_strlit("@.@            ");
        reveal_strlit("@..@           ");
        reveal_strlit("@...@          ");
        reveal_strlit("@....@         ");
        reveal_strlit("@.....@        ");
        reveal_strlit("@......@       ");
        reveal_strlit("@.......@      ");
        reveal_strlit("@........@     ");
        reveal_strlit("@.........@    ");
        reveal_strlit("@..........@   ");
        reveal_strlit("@...........@  ");
        reveal_strlit("@............@ ");
        reveal_strlit("@......@@@@@@@@");
        reveal_strlit("@......@       ");
        reveal_strlit("@....@@.@      ");
        reveal_strlit("@...@ @.@      ");
        reveal_strlit("@..@   @.@     ");
        reveal_strlit("@.@    @.@     ");
        reveal_strlit("@@      @.@    ");
        reveal_strlit("@       @.@    ");
        reveal_strlit("         @.@   ");
        reveal_strlit("         @@@   ");
}

/// The colour the cursor gives pixel `(dx, dy)` of its box, if any.
pub open spec fn cursor_pixel(dx: int, dy: int) -> Option<PixelColor> {
    if 0 <= dy < 24 && 0 <= dx < cursor_shape_row(dy).len() {
        if cursor_shape_row(dy)[dx] == '@' {
            Some(PixelColor { r: 0, g: 0, b: 0 })
        } else if cursor_shape_row(dy)[dx] == '.' {
            Some(PixelColor { r: 255, g: 255, b: 255 })
        } else {
            None
        }
    } else {
        None
    }
}

/// `m` with the cursor drawn with its top left corner at `(x, y)`, as far as
/// the first `rows` rows and `cols` pixels of the next row go.
pub open spec fn draw_cursor_upto(
    m: Map<(int, int), PixelColor>,
    x: int,
    y: int,
    rows: int,
    cols: int,
) -> Map<(int, int), PixelColor> {
    Map::new(
        |p: (int, int)| m.dom().contains(p),
        |p: (int, int)|
            match cursor_pixel(p.0 - x, p.1 - y) {
                Some(c) => if p.1 - y < rows || (p.1 - y == rows && p.0 - x < cols) {
                    c
                } else {
                    m[p]
                },
                None => m[p],
            },
    )
}

/// `m` with the cursor drawn with its top left corner at `(x, y)`.
pub open spec fn draw_cursor(m: Map<(int, int), PixelColor>, x: int, y: int) -> Map<
    (int, int),
    PixelColor,
> {
    draw_cursor_upto(m, x, y, 24, 0)
}

/// What drawing the cursor at `(x, y)` does to each pixel: for every one of
/// the 24 rows `dy` and 15 columns `dx` of the shape, pixel `(x + dx, y + dy)`
/// turns black where the shape has `@`, white where it has `.`, and keeps
/// its colour where it has a space; pixels outside the 15 by 24 box keep
/// their colour.
pub proof fn lemma_draw_cursor_pixels(m: Map<(int, int), PixelColor>, x: int, y: int)
    ensures
        draw_cursor(m, x, y).dom() == m.dom(),
        forall|dx: int, dy: int|
            0 <= dx < 15 && 0 <= dy < 24 && m.dom().contains((x + dx, y + dy)) ==> #[trigger]
            draw_cursor(m, x, y)[(x + dx, y + dy)] == if cursor_shape_row(dy)[dx] == '@' {
                PixelColor { r: 0, g: 0, b: 0 }
            } else if cursor_shape_row(dy)[dx] == '.' {
                PixelColor { r: 255, g: 255, b: 255 }
            } else {
                m[(x + dx, y + dy)]
            },
        forall|p: (int, int)|
            m.dom().contains(p) && !(x <= p.0 < x + 15 && y <= p.1 < y + 24) ==> #[trigger]
            draw_cursor(m, x, y)[p] == m[p],
{
    assert(draw_cursor(m, x, y).dom() =~= m.dom());
    assert forall|dx: int, dy: int|
        0 <= dx < 15 && 0 <= dy < 24 && m.dom().contains((x + dx, y + dy)) implies #[trigger]
        draw_cursor(m, x, y)[(x + dx, y + dy)] == if cursor_shape_row(dy)[dx] == '@' {
            PixelColor { r: 0, g: 0, b: 0 }
        } else if cursor_shape_row(dy)[dx] == '.' {
            PixelColor { r: 255, g: 255, b: 255 }
        } else {
            m[(x + dx, y + dy)]
        } by {
        lemma_cursor_shape_width(dy);
    }
    assert forall|p: (int, int)|
        m.dom().contains(p) && !(x <= p.0 < x + 15 && y <= p.1 < y + 24) implies #[trigger]
        draw_cursor(m, x, y)[p] == m[p] by {
        if 0 <= p.1 - y < 24 {
            lemma_cursor_shape_width(p.1 - y);
        }
    }
}

/// Draws the mouse cursor with its top left corner at `(x, y)`.
pub fn draw_mouse_cursor<W: PixelWriter + ?Sized>(writer: &mut W, x: usize, y: usize)
    requires
        old(writer).inv(),
        x + MOUSE_CURSOR_WIDTH <= old(writer).width(),
        y + MOUSE_CURSOR_HEIGHT <= old(writer).height(),
    ensures
        final(writer).inv(),
        final(writer).width() == old(writer).width(),
        final(writer).height() == old(writer).height(),
        final(writer).rest() == old(writer).rest(),
        final(writer).pixels() == draw_cursor(old(writer).pixels(), x as int, y as int),
{
    let ghost m0 = writer.pixels();
    assert(writer.pixels() =~= draw_cursor_upto(m0, x as int, y as int, 0, 0));
    let mut dy: usize = 0;
    while dy < MOUSE_CURSOR_HEIGHT
        invariant
            writer.inv(),
            writer.width() == old(writer).width(),
            writer.height() == old(writer).height(),
            writer.rest() == old(writer).rest(),
            m0 == old(writer).pixels(),
            x + 15 <= writer.width(),
            y + 24 <= writer.height(),
            dy <= 24,
            writer.pixels() == draw_cursor_upto(m0, x as int, y as int, dy as int, 0),
        decreases 24 - dy,
    {
        let s = mouse_cursor_shape(dy);
        proof {
            lemma_cursor_shape_width(dy as int);
        }
        let mut dx: usize = 0;
        for c in it: s.chars()
            invariant
                writer.inv(),
                writer.width() == old(writer).width(),
                writer.height() == old(writer).height(),
                writer.rest() == old(writer).rest(),
                m0 == old(writer).pixels(),
                x + 15 <= writer.width(),
                y + 24 <= writer.height(),
                dy < 24,
                s@ == cursor_shape_row(dy as int),
                s@.len() == 15,
                it.seq() == s@,
                dx == it.index(),
                writer.pixels() == draw_cursor_upto(m0, x as int, y as int, dy as int, dx as int),
        {
            proof {
                writer.lemma_screen();
            }
            if c == '@' {
                writer.write_pixel(x + dx, y + dy, &PixelColor::new(0, 0, 0));
            } else if c == '.' {
                writer.write_pixel(x + dx, y + dy, &PixelColor::new(255, 255, 255));
            }
            dx = dx + 1;
            assert(writer.pixels() =~= draw_cursor_upto(
                m0,
                x as int,
                y as int,
                dy as int,
                dx as int,
            ));
        }
        dy = dy + 1;
        assert(writer.pixels() =~= draw_cursor_upto(m0, x as int, y as int, dy as int, 0));
    }
}


/// Whether a cursor with its top left corner at `p` lies wholly on a screen
/// `width` by `height` pixels.
pub open spec fn cursor_fits(width: nat, height: nat, p: (int, int)) -> bool {
    &&& 0 <= p.0
    &&& 0 <= p.1
    &&& p.0 + 15 <= width
    &&& p.1 + 24 <= height
}

/// The mouse cursor: where it is, and the colour it leaves behind when it
/// moves away.
pub struct MouseCursor<T: PixelWriter> {
    pixel_writer: T,
    erase_color: PixelColor,
    position: Vector2D<i32>,
}

impl<T: PixelWriter> MouseCursor<T> {
    pub closed spec fn screen(&self) -> T {
        self.pixel_writer
    }

    pub closed spec fn erase_color(&self) -> PixelColor {
        self.erase_color
    }

    /// Where the top left corner of the cursor is.
    pub closed spec fn spec_position(&self) -> (int, int) {
        (self.position.x as int, self.position.y as int)
    }

    /// A cursor at `initial_position`; nothing is drawn.
    pub fn new(writer: T, erase_color: PixelColor, initial_position: Vector2D<i32>) -> (m: Self)
        ensures
            m.screen() == writer,
            m.erase_color() == erase_color,
            m.spec_position() == (initial_position.x as int, initial_position.y as int),
    {
        MouseCursor { pixel_writer: writer, erase_color, position: initial_position }
    }

    /// Moves the cursor by `displacement`: its old box is filled with the
    /// erase colour and the cursor is drawn at the new position.
    pub fn move_relative(&mut self, displacement: Vector2D<i32>)
        requires
            old(self).screen().inv(),
            cursor_fits(
                old(self).screen().width(),
                old(self).screen().height(),
                old(self).spec_position(),
            ),
            old(self).spec_position().0 + displacement.x <= i32::MAX,
            old(self).spec_position().1 + displacement.y <= i32::MAX,
            cursor_fits(
                old(self).screen().width(),
                old(self).screen().height(),
                (
                    old(self).spec_position().0 + displacement.x,
                    old(self).spec_position().1 + displacement.y,
                ),
            ),
        ensures
            final(self).screen().inv(),
            final(self).screen().width() == old(self).screen().width(),
            final(self).screen().height() == old(self).screen().height(),
            final(self).screen().rest() == old(self).screen().rest(),
            final(self).erase_color() == old(self).erase_color(),
            final(self).spec_position() == (
                old(self).spec_position().0 + displacement.x,
                old(self).spec_position().1 + displacement.y,
            ),
            final(self).screen().pixels() == draw_cursor(
                fill_rect(
                    old(self).screen().pixels(),
                    old(self).spec_position().0,
                    old(self).spec_position().1,
                    15,
                    24,
                    old(self).erase_color(),
                ),
                final(self).spec_position().0,
                final(self).spec_position().1,
            ),
    {
        self.erase();
        self.position = Vector2D::new(
            self.position.x + displacement.x,
            self.position.y + displacement.y,
        );
        self.draw();
    }

    /// Draws the cursor at its position.
    fn draw(&mut self)
        requires
            old(self).screen().inv(),
            cursor_fits(
                old(self).screen().width(),
                old(self).screen().height(),
                old(self).spec_position(),
            ),
        ensures
            final(self).screen().inv(),
            final(self).screen().width() == old(self).screen().width(),
            final(self).screen().height() == old(self).screen().height(),
            final(self).screen().rest() == old(self).screen().rest(),
            final(self).erase_color() == old(self).erase_color(),
            final(self).spec_position() == old(self).spec_position(),
            final(self).screen().pixels() == draw_cursor(
                old(self).screen().pixels(),
                old(self).spec_position().0,
                old(self).spec_position().1,
            ),
    {
        let x = self.position.x as usize;
        let y = self.position.y as usize;
        draw_mouse_cursor(&mut self.pixel_writer, x, y);
    }

    /// Fills the cursor's box with the erase colour.
    fn erase(&mut self)
        requires
            old(self).screen().inv(),
            cursor_fits(
                old(self).screen().width(),
                old(self).screen().height(),
                old(self).spec_position(),
            ),
        ensures
            final(self).screen().inv(),
            final(self).screen().width() == old(self).screen().width(),
            final(self).screen().height() == old(self).screen().height(),
            final(self).screen().rest() == old(self).screen().rest(),
            final(self).erase_color() == old(self).erase_color(),
            final(self).spec_position() == old(self).spec_position(),
            final(self).screen().pixels() == fill_rect(
                old(self).screen().pixels(),
                old(self).spec_position().0,
                old(self).spec_position().1,
                15,
                24,
                old(self).erase_color(),
            ),
    {
        fill_rectangle(
            &mut self.pixel_writer,
            Vector2D::new(self.position.x as usize, self.position.y as usize),
            Vector2D::new(MOUSE_CURSOR_WIDTH, MOUSE_CURSOR_HEIGHT),
            self.erase_color,
        );
    }

    /// Where the top left corner of the cursor is.
    pub fn position(&self) -> (p: Vector2D<i32>)
        ensures
            (p.x as int, p.y as int) == self.spec_position(),
    {
        self.position
    }

    /// The screen the cursor is drawn on.
    pub fn writer(&self) -> (w: &T)
        ensures
            *w == self.screen(),
    {
        &self.pixel_writer
    }
}


impl MouseCursor<FrameBufferWriter> {
    /// Whether `move_relative(displacement)` may be called: the frame buffer
    /// is sound, and the cursor lies wholly on the screen before and after
    /// the move.
    pub fn can_move(&self, displacement: Vector2D<i32>) -> (r: bool)
        ensures
            r == ({
                &&& self.screen().inv()
                &&& cursor_fits(self.screen().width(), self.screen().height(), self.spec_position())
                &&& self.spec_position().0 + displacement.x <= i32::MAX
                &&& self.spec_position().1 + displacement.y <= i32::MAX
                &&& cursor_fits(
                    self.screen().width(),
                    self.screen().height(),
                    (
                        self.spec_position().0 + displacement.x,
                        self.spec_position().1 + displacement.y,
                    ),
                )
            }),
    {
        if !self.pixel_writer.is_valid() {
            return false;
        }
        let (w, h) = self.pixel_writer.dimensions();
        let (x, y) = (self.position.x as i64, self.position.y as i64);
        let (nx, ny) = (x + displacement.x as i64, y + displacement.y as i64);
        let (w, h) = (w as i64, h as i64);
        0 <= x && 0 <= y && x + 15 <= w && y + 24 <= h && nx <= i32::MAX as i64 && ny
            <= i32::MAX as i64 && 0 <= nx && 0 <= ny && nx + 15 <= w && ny + 24 <= h
    }
}

} // verus!

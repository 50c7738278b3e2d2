use vstd::prelude::*;

use crate::font::{
    draw_char, draw_text, glyph, glyph_bit, glyph_fits, glyph_rows_fit, lemma_glyph_cell_fits,
    write_ascii, write_string, Font,
};
use crate::graphics::{fill_rect, fill_rectangle, on_screen, PixelColor, PixelWriter, Vector2D};

verus! {

/// Number of text rows of the console.
pub const ROWS: usize = 25;

/// Number of text columns of the console.
pub const COLUMNS: usize = 80;

/// Cells per buffer row: the columns and one more for a terminating null.
pub const ROW_CELLS: usize = 81;

/// What a console shows and remembers: its text buffer, row by row, each row
/// `ROW_CELLS` cells; the cursor; and the screen's pixels.
pub ghost struct ConsoleView {
    pub buffer: Seq<char>,
    pub row: int,
    pub col: int,
    pub pixels: Map<(int, int), PixelColor>,
}

/// Index of the cell at `row`, `col` in the console buffer.
pub open spec fn cell(row: int, col: int) -> int {
    81 * row + col
}

/// Row `row` of the buffer.
pub open spec fn buffer_row(buffer: Seq<char>, row: int) -> Seq<char> {
    buffer.subrange(cell(row, 0), cell(row + 1, 0))
}

/// The buffer moved up by one row, the last row emptied.
pub open spec fn scroll(buffer: Seq<char>) -> Seq<char> {
    Seq::new(buffer.len(), |i: int| if i < cell(24, 0) { buffer[i + 81] } else { '\0' })
}

/// `m` with the first `n` rows of `buffer` drawn, row `r` at height `16 * r`.
pub open spec fn draw_rows(
    m: Map<(int, int), PixelColor>,
    font: Seq<u8>,
    buffer: Seq<char>,
    color: PixelColor,
    n: int,
) -> Map<(int, int), PixelColor>
    decreases n,
{
    if n <= 0 {
        m
    } else {
        draw_text(
            draw_rows(m, font, buffer, color, n - 1),
            font,
            0,
            16 * (n - 1),
            buffer_row(buffer, n - 1),
            color,
        )
    }
}

/// Moving to the next line: the cursor goes to the start of the next row;
/// on the last row the text scrolls up by one row and the screen is redrawn.
pub open spec fn new_line(
    st: ConsoleView,
    font: Seq<u8>,
    fg: PixelColor,
    bg: PixelColor,
) -> ConsoleView {
    if st.row < 24 {
        ConsoleView { row: st.row + 1, col: 0, ..st }
    } else {
        let buffer = scroll(st.buffer);
        ConsoleView {
            buffer,
            row: st.row,
            col: 0,
            pixels: draw_rows(fill_rect(st.pixels, 0, 0, 640, 400, bg), font, buffer, fg, 24),
        }
    }
}

/// One character: a newline moves to the next line; any other character is
/// drawn and stored at the cursor, which moves right, unless the cursor is
/// in the last column, where the character is dropped.
pub open spec fn put_char(
    st: ConsoleView,
    font: Seq<u8>,
    fg: PixelColor,
    bg: PixelColor,
    c: char,
) -> ConsoleView {
    if c == '\n' {
        new_line(st, font, fg, bg)
    } else if st.col < 79 {
        ConsoleView {
            buffer: st.buffer.update(cell(st.row, st.col), c),
            col: st.col + 1,
            pixels: draw_char(st.pixels, font, 8 * st.col, 16 * st.row, c, fg),
            ..st
        }
    } else {
        st
    }
}

/// The characters of `s`, one after another.
pub open spec fn put_chars(
    st: ConsoleView,
    font: Seq<u8>,
    fg: PixelColor,
    bg: PixelColor,
    s: Seq<char>,
) -> ConsoleView
    decreases s.len(),
{
    if s.len() == 0 {
        st
    } else {
        put_char(put_chars(st, font, fg, bg, s.drop_last()), font, fg, bg, s.last())
    }
}

/// A newline on the last row scrolls the text: afterwards every row
/// `r < 24` holds, cell by cell, what row `r + 1` held before (no text is
/// lost but the first row's), the last row is empty, and the cursor is at
/// the start of the last row.  A newline on another row keeps the text and
/// the screen and moves the cursor to the start of the next row.
pub proof fn lemma_newline(st: ConsoleView, font: Seq<u8>, fg: PixelColor, bg: PixelColor)
    requires
        st.buffer.len() == 25 * 81,
        0 <= st.row < 25,
    ensures
        ({
            let n = put_char(st, font, fg, bg, '\n');
            &&& n.buffer.len() == 25 * 81
            &&& n.col == 0
            &&& st.row == 24 ==> {
                &&& n.row == 24
                &&& forall|r: int, c: int|
                    0 <= r < 24 && 0 <= c < 81 ==> #[trigger] n.buffer[81 * r + c]
                        == st.buffer[81 * (r + 1) + c]
                &&& forall|c: int| 0 <= c < 81 ==> #[trigger] n.buffer[81 * 24 + c] == '\0'
            }
            &&& st.row < 24 ==> {
                &&& n.row == st.row + 1
                &&& n.buffer == st.buffer
                &&& n.pixels == st.pixels
            }
        }),
{
    let n = put_char(st, font, fg, bg, '\n');
    if st.row == 24 {
        assert forall|r: int, c: int| 0 <= r < 24 && 0 <= c < 81 implies #[trigger] n.buffer[81
            * r + c] == st.buffer[81 * (r + 1) + c] by {
            assert(81 * r + c < 81 * 24);
            assert(81 * r + c + 81 == 81 * (r + 1) + c);
        }
    }
}

/// A character other than a newline is stored in the cell under the cursor,
/// the cursor moves one column right and no other cell changes; in column
/// 79 the character is dropped and nothing changes.  Its glyph is drawn
/// with the foreground colour at `(8 * col, 16 * row)`.
pub proof fn lemma_put_char(
    st: ConsoleView,
    font: Seq<u8>,
    fg: PixelColor,
    bg: PixelColor,
    c: char,
)
    requires
        c != '\n',
        st.buffer.len() == 25 * 81,
        0 <= st.row < 25,
        0 <= st.col < 80,
    ensures
        ({
            let n = put_char(st, font, fg, bg, c);
            &&& st.col < 79 ==> {
                &&& n.row == st.row && n.col == st.col + 1
                &&& n.buffer.len() == st.buffer.len()
                &&& n.buffer[81 * st.row + st.col] == c
                &&& forall|i: int|
                    0 <= i < 25 * 81 && i != 81 * st.row + st.col ==> #[trigger] n.buffer[i]
                        == st.buffer[i]
                &&& n.pixels == draw_char(st.pixels, font, 8 * st.col, 16 * st.row, c, fg)
            }
            &&& st.col == 79 ==> n == st
        }),
{
}

/// Writing `a` and then `b` to a console leaves it as writing `a + b` does:
/// how a string is split over calls of `put_string` makes no difference.
pub proof fn lemma_put_chars_concat(
    st: ConsoleView,
    font: Seq<u8>,
    fg: PixelColor,
    bg: PixelColor,
    a: Seq<char>,
    b: Seq<char>,
)
    ensures
        put_chars(st, font, fg, bg, a + b) == put_chars(
            put_chars(st, font, fg, bg, a),
            font,
            fg,
            bg,
            b,
        ),
    decreases b.len(),
{
    if b.len() == 0 {
        assert(a + b =~= a);
    } else {
        lemma_put_chars_concat(st, font, fg, bg, a, b.drop_last());
        assert((a + b).drop_last() =~= a + b.drop_last());
        assert((a + b).last() == b.last());
    }
}

/// Whether a screen `width` by `height` pixels can hold a console using
/// `font`: its `COLUMNS` by `ROWS` character cells, and the null glyph that
/// ends each buffer row, which the console draws just right of the last
/// column whenever the text scrolls.
pub open spec fn screen_fits_console(font: Seq<u8>, width: nat, height: nat) -> bool {
    &&& width >= 640
    &&& height >= 400
    &&& glyph_fits(font, '\0', 640, 0, width, 16)
}

/// On such a screen the null glyph fits right of the last column of any row.
proof fn lemma_null_glyph_fits(font: Seq<u8>, width: nat, height: nat, r: int)
    requires
        screen_fits_console(font, width, height),
        0 <= r < 25,
    ensures
        glyph_fits(font, '\0', 640, 16 * r, width, height),
{
    if let Some(g) = glyph(font, '\0') {
        assert forall|dx: int, dy: int| #[trigger]
            glyph_bit(g, dx, dy) implies on_screen(width, height, (640 + dx, 16 * r + dy)) by {
            assert(on_screen(width, 16, (640 + dx, dy)));
        }
        assert(glyph_rows_fit(g, 640, 16 * r, width, height));
    }
}

/// Whether a screen `width` by `height` pixels can hold a console using `font`.
pub fn fits_console(font: &Font, width: u32, height: u32) -> (r: bool)
    requires
        font.wf(),
    ensures
        r == screen_fits_console(font@, width as nat, height as nat),
{
    if width < 640 || height < 400 {
        return false;
    }
    if font.len() < 16 {
        assert(glyph(font@, '\0') is None);
        return true;
    }
    let ghost g = font@.subrange(0, 16);
    assert(glyph(font@, '\0') == Some(g));
    let mut dy: u8 = 0;
    while dy < 16
        invariant
            font.wf(),
            16 <= font@.len(),
            g == font@.subrange(0, 16),
            640 <= width,
            dy <= 16,
            forall|a: int, b: int|
                0 <= b < dy && #[trigger] glyph_bit(g, a, b) ==> on_screen(
                    width as nat,
                    16,
                    (640 + a, b),
                ),
        decreases 16 - dy,
    {
        let row = font.byte(dy as usize);
        let mut dx: u8 = 0;
        while dx < 8
            invariant
                g == font@.subrange(0, 16),
                16 <= font@.len(),
                row == g[dy as int],
                640 <= width,
                dy < 16,
                dx <= 8,
                forall|a: int, b: int|
                    (0 <= b < dy || (b == dy && a < dx)) && #[trigger] glyph_bit(g, a, b)
                        ==> on_screen(width as nat, 16, (640 + a, b)),
            decreases 8 - dx,
        {
            if (row << dx) & 0x80 == 0x80 && 640 + (dx as u32) >= width {
                assert(glyph_bit(g, dx as int, dy as int));
                return false;
            }
            dx = dx + 1;
        }
        dy = dy + 1;
    }
    assert(glyph_rows_fit(g, 640, 0, width as nat, 16));
    true
}

/// A text console of `ROWS` rows of `COLUMNS` characters drawn with a
/// bitmap font.
pub struct Console<T: PixelWriter> {
    writer: T,
    font: Font,
    buffer: Vec<char>,
    cursor_row: usize,
    cursor_column: usize,
    fg_color: PixelColor,
    bg_color: PixelColor,
}

impl<T: PixelWriter> Console<T> {
    pub closed spec fn view(&self) -> ConsoleView {
        ConsoleView {
            buffer: self.buffer@,
            row: self.cursor_row as int,
            col: self.cursor_column as int,
            pixels: self.writer.pixels(),
        }
    }

    pub closed spec fn font(&self) -> Seq<u8> {
        self.font@
    }

    pub closed spec fn fg(&self) -> PixelColor {
        self.fg_color
    }

    pub closed spec fn bg(&self) -> PixelColor {
        self.bg_color
    }

    pub closed spec fn screen(&self) -> T {
        self.writer
    }

    /// The console's invariant: the buffer has its `ROWS` rows of `ROW_CELLS`
    /// cells; the last two cells of each row (columns 79 and 80) stay null,
    /// and so does every cell from the cursor on; the cursor is on the grid;
    /// the screen is large enough for every row of the buffer.
    pub open spec fn wf(&self) -> bool {
        &&& self@.buffer.len() == 25 * 81
        &&& forall|r: int| 0 <= r < 25 ==> #[trigger] self@.buffer[cell(r, 80)] == '\0'
        &&& forall|r: int| 0 <= r < 25 ==> #[trigger] self@.buffer[cell(r, 79)] == '\0'
        &&& forall|i: int|
            cell(self@.row, self@.col) <= i < 25 * 81 ==> #[trigger] self@.buffer[i] == '\0'
        &&& 0 <= self@.row < 25
        &&& 0 <= self@.col < 80
        &&& self.screen().inv()
        &&& self.screen().pixels() == self@.pixels
        &&& screen_fits_console(self.font(), self.screen().width(), self.screen().height())
        &&& self.font().len() % 16 == 0
    }

    /// A console with an empty buffer and the cursor at the top left; the
    /// screen is left as it is.
    pub fn new(writer: T, font: Font, fg_color: PixelColor, bg_color: PixelColor) -> (con: Self)
        requires
            writer.inv(),
            font.wf(),
            screen_fits_console(font@, writer.width(), writer.height()),
        ensures
            con.wf(),
            con@.buffer == Seq::new(25 * 81, |i: int| '\0'),
            con@.row == 0,
            con@.col == 0,
            con@.pixels == writer.pixels(),
            con.screen() == writer,
            con.font() == font@,
            con.fg() == fg_color,
            con.bg() == bg_color,
    {
        let mut buffer: Vec<char> = Vec::new();
        while buffer.len() < ROWS * ROW_CELLS
            invariant
                buffer@.len() <= 25 * 81,
                forall|i: int| 0 <= i < buffer@.len() ==> buffer@[i] == '\0',
            decreases 25 * 81 - buffer@.len(),
        {
            buffer.push('\0');
        }
        let con = Console {
            writer,
            font,
            buffer,
            cursor_row: 0,
            cursor_column: 0,
            fg_color,
            bg_color,
        };
        assert(con@.buffer =~= Seq::new(25 * 81, |i: int| '\0'));
        con
    }

    /// Moves the cursor to the start of the next row; on the last row,
    /// scrolls the text up by one row and redraws the screen.
    fn new_line(&mut self)
        requires
            old(self).wf(),
        ensures
            final(self).wf(),
            final(self)@ == new_line(old(self)@, old(self).font(), old(self).fg(), old(self).bg()),
            final(self).font() == old(self).font(),
            final(self).fg() == old(self).fg(),
            final(self).bg() == old(self).bg(),
            final(self).screen().width() == old(self).screen().width(),
            final(self).screen().height() == old(self).screen().height(),
            final(self).screen().rest() == old(self).screen().rest(),
    {
        self.cursor_column = 0;
        if self.cursor_row < ROWS - 1 {
            self.cursor_row = self.cursor_row + 1;
            return ;
        }
        let ghost old_buf = self.buffer@;
        let ghost scrolled = scroll(old_buf);
        fill_rectangle(
            &mut self.writer,
            Vector2D::new(0, 0),
            Vector2D::new(8 * COLUMNS, 16 * ROWS),
            self.bg_color,
        );
        let ghost filled = self.writer.pixels();
        assert(filled == fill_rect(old(self)@.pixels, 0, 0, 640, 400, self.bg_color));
        let mut row: usize = 0;
        assert(self.writer.pixels() == draw_rows(filled, self.font@, scrolled, self.fg_color, 0));
        while row < ROWS - 1
            invariant
                self.writer.inv(),
                self.writer.width() == old(self).screen().width(),
                self.writer.height() == old(self).screen().height(),
                self.writer.rest() == old(self).screen().rest(),
                screen_fits_console(self.font@, self.writer.width(), self.writer.height()),
                forall|r: int| 0 <= r < 25 ==> #[trigger] old_buf[cell(r, 80)] == '\0',
                self.font == old(self).font,
                self.font.wf(),
                self.fg_color == old(self).fg(),
                self.bg_color == old(self).bg(),
                self.cursor_row == 24,
                self.cursor_column == 0,
                old_buf.len() == 25 * 81,
                scrolled == scroll(old_buf),
                self.buffer@.len() == 25 * 81,
                row <= 24,
                forall|i: int| 0 <= i < 81 * row ==> self.buffer@[i] == scrolled[i],
                forall|i: int| 81 * row <= i < 25 * 81 ==> self.buffer@[i] == old_buf[i],
                self.writer.pixels() == draw_rows(filled, self.font@, scrolled, self.fg_color, row as int),
            decreases 24 - row,
        {
            let ghost writer_before = self.writer;
            let mut c: usize = 0;
            while c < ROW_CELLS
                invariant
                    self.writer == writer_before,
                    self.font == old(self).font,
                    self.fg_color == old(self).fg(),
                    self.bg_color == old(self).bg(),
                    self.cursor_row == 24,
                    self.cursor_column == 0,
                    old_buf.len() == 25 * 81,
                    scrolled == scroll(old_buf),
                    self.buffer@.len() == 25 * 81,
                    row < 24,
                    c <= 81,
                    forall|i: int| 0 <= i < 81 * row + c ==> self.buffer@[i] == scrolled[i],
                    forall|i: int| 81 * row + c <= i < 25 * 81 ==> self.buffer@[i] == old_buf[i],
                decreases 81 - c,
            {
                let ch = self.buffer[ROW_CELLS * (row + 1) + c];
                self.buffer.set(ROW_CELLS * row + c, ch);
                c = c + 1;
            }
            let start = ROW_CELLS * row;
            let line = &self.buffer.as_slice()[start..start + ROW_CELLS];
            assert(line@ =~= buffer_row(scrolled, row as int));
            proof {
                assert forall|i: int| 0 <= i < line@.len() implies glyph_fits(
                    self.font@,
                    #[trigger] line@[i],
                    0 + 8 * i,
                    (16 * row) as int,
                    self.writer.width(),
                    self.writer.height(),
                ) by {
                    if i < 80 {
                        lemma_glyph_cell_fits(
                            self.font@,
                            line@[i],
                            8 * i,
                            16 * row as int,
                            self.writer.width(),
                            self.writer.height(),
                        );
                    } else {
                        assert(old_buf[cell(row + 1, 80)] == '\0');
                        lemma_null_glyph_fits(
                            self.font@,
                            self.writer.width(),
                            self.writer.height(),
                            row as int,
                        );
                    }
                }
            }
            write_string(&mut self.writer, &self.font, 0, 16 * row, line, &self.fg_color);
            row = row + 1;
        }
        let ghost writer_before = self.writer;
        let mut c: usize = 0;
        while c < ROW_CELLS
            invariant
                self.writer == writer_before,
                self.font == old(self).font,
                self.fg_color == old(self).fg(),
                self.bg_color == old(self).bg(),
                self.cursor_row == 24,
                self.cursor_column == 0,
                old_buf.len() == 25 * 81,
                scrolled == scroll(old_buf),
                self.buffer@.len() == 25 * 81,
                c <= 81,
                forall|i: int| 0 <= i < 81 * 24 + c ==> self.buffer@[i] == scrolled[i],
            decreases 81 - c,
        {
            self.buffer.set(ROW_CELLS * (ROWS - 1) + c, '\0');
            c = c + 1;
        }
        assert(self.buffer@ =~= scrolled);
        assert forall|r: int| 0 <= r < 25 implies #[trigger] self@.buffer[cell(r, 80)] == '\0' by {
            if r < 24 {
                assert(old_buf[cell(r + 1, 80)] == '\0');
            }
        }
        assert forall|r: int| 0 <= r < 25 implies #[trigger] self@.buffer[cell(r, 79)] == '\0' by {
            if r < 24 {
                assert(old_buf[cell(r + 1, 79)] == '\0');
            }
        }
        assert forall|i: int| cell(24, 0) <= i < 25 * 81 implies #[trigger] self@.buffer[i]
            == '\0' by {
            assert(scrolled[i] == '\0');
        }
    }

    /// Writes `s` to the console: each newline moves to the next line, every
    /// other character is drawn and stored at the cursor (see `put_char`).
    pub fn put_string(&mut self, s: &str)
        requires
            old(self).wf(),
        ensures
            final(self).wf(),
            final(self)@ == put_chars(
                old(self)@,
                old(self).font(),
                old(self).fg(),
                old(self).bg(),
                s@,
            ),
            final(self).font() == old(self).font(),
            final(self).fg() == old(self).fg(),
            final(self).bg() == old(self).bg(),
            final(self).screen().width() == old(self).screen().width(),
            final(self).screen().height() == old(self).screen().height(),
            final(self).screen().rest() == old(self).screen().rest(),
    {
        let ghost v0 = self@;
        let ghost font = self.font@;
        let ghost (fg, bg) = (self.fg_color, self.bg_color);
        for c in it: s.chars()
            invariant
                self.wf(),
                it.seq() == s@,
                self.font@ == font,
                self.fg_color == fg,
                self.bg_color == bg,
                fg == old(self).fg(),
                bg == old(self).bg(),
                font == old(self).font(),
                self.writer.width() == old(self).screen().width(),
                self.writer.height() == old(self).screen().height(),
                self.writer.rest() == old(self).screen().rest(),
                self@ == put_chars(v0, font, fg, bg, s@.take(it.index())),
        {
            if c == '\n' {
                self.new_line();
            } else if self.cursor_column < COLUMNS - 1 {
                write_ascii(
                    &mut self.writer,
                    &self.font,
                    8 * self.cursor_column,
                    16 * self.cursor_row,
                    c,
                    &self.fg_color,
                );
                self.buffer.set(ROW_CELLS * self.cursor_row + self.cursor_column, c);
                self.cursor_column = self.cursor_column + 1;
            }
            assert(s@.take(it.index() + 1).drop_last() =~= s@.take(it.index()));
        }
        assert(s@.take(s@.len() as int) =~= s@);
    }

    /// The text buffer, row after row, `ROW_CELLS` cells each.
    pub fn buffer(&self) -> (b: &[char])
        ensures
            b@ == self@.buffer,
    {
        self.buffer.as_slice()
    }

    /// The cursor: its row and column.
    pub fn cursor(&self) -> (c: (usize, usize))
        ensures
            c.0 == self@.row,
            c.1 == self@.col,
    {
        (self.cursor_row, self.cursor_column)
    }

    /// The screen the console draws on.
    pub fn writer(&self) -> (w: &T)
        ensures
            *w == self.screen(),
    {
        &self.writer
    }
}

} // verus!

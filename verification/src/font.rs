use vstd::prelude::*;

use crate::graphics::{on_screen, PixelColor, PixelWriter};

verus! {

/// A bitmap font: glyph `n` is the sixteen bytes from offset `16 * n`, one
/// byte per row, the most significant bit the leftmost pixel.
pub struct Font {
    data: Vec<u8>,
}

impl Font {
    pub closed spec fn view(&self) -> Seq<u8> {
        self.data@
    }

    /// The font holds whole glyphs only.
    pub open spec fn wf(&self) -> bool {
        self@.len() % 16 == 0
    }

    /// Takes the font's bytes; `None` unless they make whole glyphs.
    pub fn new(data: Vec<u8>) -> (f: Option<Font>)
        ensures
            data@.len() % 16 == 0 <==> f is Some,
            f matches Some(font) ==> font@ == data@ && font.wf(),
    {
        if data.len() % 16 == 0 {
            Some(Font { data })
        } else {
            None
        }
    }

    /// Byte `i` of the font.
    pub fn byte(&self, i: usize) -> (b: u8)
        requires
            i < self@.len(),
        ensures
            b == self@[i as int],
    {
        self.data[i]
    }

    /// The number of bytes of the font.
    pub fn len(&self) -> (n: usize)
        ensures
            n == self@.len(),
    {
        self.data.len()
    }
}

/// Offset of the glyph of `c` in a font of `font_len` bytes, if it has one.
pub open spec fn glyph_offset(font_len: int, c: char) -> Option<int> {
    if 16 * (c as int) < font_len {
        Some(16 * (c as int))
    } else {
        None
    }
}

/// The sixteen rows of the glyph of `c`, if the font has one.
pub open spec fn glyph(font: Seq<u8>, c: char) -> Option<Seq<u8>> {
    match glyph_offset(font.len() as int, c) {
        Some(o) => Some(font.subrange(o, o + 16)),
        None => None,
    }
}

/// Finds the glyph of `c`: its offset in the font, or `None` where the font
/// has no glyph for it.
pub fn get_font(font: &Font, c: char) -> (o: Option<usize>)
    requires
        font.wf(),
    ensures
        o matches Some(i) ==> glyph_offset(font@.len() as int, c) == Some(i as int),
        o is None ==> glyph_offset(font@.len() as int, c) is None,
        o matches Some(i) ==> i + 16 <= font@.len(),
{
    let index: usize = 16 * (c as u32 as usize);
    if index >= font.len() {
        None
    } else {
        Some(index)
    }
}

/// Whether pixel `(dx, dy)` of a glyph with rows `g` is set.
pub open spec fn glyph_bit(g: Seq<u8>, dx: int, dy: int) -> bool {
    &&& 0 <= dx < 8
    &&& 0 <= dy < 16
    &&& (g[dy] << (dx as u8)) & 0x80u8 == 0x80u8
}

/// Every set pixel of the glyph of `c`, placed at `(x, y)`, lies on a screen
/// `width` by `height` pixels.
pub open spec fn glyph_fits(font: Seq<u8>, c: char, x: int, y: int, width: nat, height: nat) -> bool {
    match glyph(font, c) {
        Some(g) => glyph_rows_fit(g, x, y, width, height),
        None => true,
    }
}

/// Every set pixel of the glyph with rows `g`, placed at `(x, y)`, lies on a
/// screen `width` by `height` pixels.
pub open spec fn glyph_rows_fit(g: Seq<u8>, x: int, y: int, width: nat, height: nat) -> bool {
    forall|dx: int, dy: int| #[trigger]
        glyph_bit(g, dx, dy) ==> on_screen(width, height, (x + dx, y + dy))
}

/// A glyph placed with its whole eight by sixteen cell on the screen fits.
pub proof fn lemma_glyph_cell_fits(
    font: Seq<u8>,
    c: char,
    x: int,
    y: int,
    width: nat,
    height: nat,
)
    requires
        0 <= x,
        0 <= y,
        x + 8 <= width,
        y + 16 <= height,
    ensures
        glyph_fits(font, c, x, y, width, height),
{
}

/// `m` with the set pixels of glyph `g`, placed at `(x, y)`, coloured `color`,
/// as far as the first `rows` rows and `cols` pixels of the next row go.
pub open spec fn draw_glyph_upto(
    m: Map<(int, int), PixelColor>,
    x: int,
    y: int,
    g: Seq<u8>,
    color: PixelColor,
    rows: int,
    cols: int,
) -> Map<(int, int), PixelColor> {
    Map::new(
        |p: (int, int)| m.dom().contains(p),
        |p: (int, int)|
            if glyph_bit(g, p.0 - x, p.1 - y) && (p.1 - y < rows || (p.1 - y == rows && p.0 - x
                < cols)) {
                color
            } else {
                m[p]
            },
    )
}

/// `m` with the set pixels of glyph `g`, placed at `(x, y)`, coloured `color`.
pub open spec fn draw_glyph(
    m: Map<(int, int), PixelColor>,
    x: int,
    y: int,
    g: Seq<u8>,
    color: PixelColor,
) -> Map<(int, int), PixelColor> {
    draw_glyph_upto(m, x, y, g, color, 16, 0)
}

/// `m` with character `c` drawn at `(x, y)`; unchanged where the font has no
/// glyph for `c`.
pub open spec fn draw_char(
    m: Map<(int, int), PixelColor>,
    font: Seq<u8>,
    x: int,
    y: int,
    c: char,
    color: PixelColor,
) -> Map<(int, int), PixelColor> {
    match glyph(font, c) {
        Some(g) => draw_glyph(m, x, y, g, color),
        None => m,
    }
}

/// `m` with the characters of `s` drawn side by side from `(x, y)`.
pub open spec fn draw_text(
    m: Map<(int, int), PixelColor>,
    font: Seq<u8>,
    x: int,
    y: int,
    s: Seq<char>,
    color: PixelColor,
) -> Map<(int, int), PixelColor>
    decreases s.len(),
{
    if s.len() == 0 {
        m
    } else {
        draw_char(
            draw_text(m, font, x, y, s.drop_last(), color),
            font,
            x + 8 * (s.len() - 1),
            y,
            s.last(),
            color,
        )
    }
}

/// Drawing `a + b` from `(x, y)` is drawing `a` from `(x, y)` and then `b`
/// from where `a` ends, eight pixels per character further right: a string
/// is drawn as its characters one after another.
pub proof fn lemma_draw_text_concat(
    m: Map<(int, int), PixelColor>,
    font: Seq<u8>,
    x: int,
    y: int,
    a: Seq<char>,
    b: Seq<char>,
    color: PixelColor,
)
    ensures
        draw_text(m, font, x, y, a + b, color) == draw_text(
            draw_text(m, font, x, y, a, color),
            font,
            x + 8 * a.len(),
            y,
            b,
            color,
        ),
    decreases b.len(),
{
    if b.len() == 0 {
        assert(a + b =~= a);
    } else {
        lemma_draw_text_concat(m, font, x, y, a, b.drop_last(), color);
        assert((a + b).drop_last() =~= a + b.drop_last());
        assert((a + b).last() == b.last());
        assert(x + 8 * ((a + b).len() - 1) == x + 8 * a.len() + 8 * (b.len() - 1));
    }
}

/// A single character is drawn as `write_ascii` draws it.
pub proof fn lemma_draw_text_single(
    m: Map<(int, int), PixelColor>,
    font: Seq<u8>,
    x: int,
    y: int,
    c: char,
    color: PixelColor,
)
    ensures
        draw_text(m, font, x, y, seq![c], color) == draw_char(m, font, x, y, c, color),
{
    assert(seq![c].drop_last() =~= Seq::<char>::empty());
    assert(draw_text(m, font, x, y, Seq::<char>::empty(), color) == m);
}

/// Bit `7 - dx` of a glyph row is its pixel `dx`, counted from the left.
proof fn lemma_row_bit(b: u8, dx: u8)
    requires
        dx < 8,
    ensures
        ((b << dx) & 0x80u8 == 0x80u8) == ((b >> ((7 - dx) as u8)) & 1u8 == 1u8),
{
    assert(((b << dx) & 0x80u8 == 0x80u8) == ((b >> ((7 - dx) as u8)) & 1u8 == 1u8))
        by (bit_vector)
        requires dx < 8u8;
}

/// What drawing a character does to each pixel, in terms of the font's
/// bytes: where the font holds a glyph for `c` (its sixteen bytes from
/// offset `16 * c`, one per row), pixel `(x + dx, y + dy)` of the eight by
/// sixteen cell gets `color` exactly when bit `7 - dx` of byte `dy` is set,
/// for every one of the sixteen rows; every other pixel, and every pixel of
/// a character without a glyph, keeps its colour.
pub proof fn lemma_draw_char_pixels(
    m: Map<(int, int), PixelColor>,
    font: Seq<u8>,
    x: int,
    y: int,
    c: char,
    color: PixelColor,
)
    requires
        font.len() % 16 == 0,
    ensures
        draw_char(m, font, x, y, c, color).dom() == m.dom(),
        forall|dx: int, dy: int|
            0 <= dx < 8 && 0 <= dy < 16 && m.dom().contains((x + dx, y + dy)) ==> #[trigger]
            draw_char(m, font, x, y, c, color)[(x + dx, y + dy)] == if 16 * (c as int)
                < font.len() && (font[16 * (c as int) + dy] >> ((7 - dx) as u8)) & 1u8 == 1u8 {
                color
            } else {
                m[(x + dx, y + dy)]
            },
        forall|p: (int, int)|
            m.dom().contains(p) && !(x <= p.0 < x + 8 && y <= p.1 < y + 16) ==> #[trigger]
            draw_char(m, font, x, y, c, color)[p] == m[p],
{
    let r = draw_char(m, font, x, y, c, color);
    assert(r.dom() =~= m.dom());
    assert forall|dx: int, dy: int|
        0 <= dx < 8 && 0 <= dy < 16 && m.dom().contains((x + dx, y + dy)) implies #[trigger]
        draw_char(m, font, x, y, c, color)[(x + dx, y + dy)] == if 16 * (c as int) < font.len()
            && (font[16 * (c as int) + dy] >> ((7 - dx) as u8)) & 1u8 == 1u8 {
            color
        } else {
            m[(x + dx, y + dy)]
        } by {
        if 16 * (c as int) < font.len() {
            assert(16 * (c as int) + 16 <= font.len());
            let g = font.subrange(16 * (c as int), 16 * (c as int) + 16);
            assert(glyph(font, c) == Some(g));
            assert(g[dy] == font[16 * (c as int) + dy]);
            lemma_row_bit(g[dy], dx as u8);
            assert(dx as u8 as int == dx);
        }
    }
}

/// Draws character `c` with its top left corner at `(x, y)`: each set pixel
/// of its glyph gets `color`, the others stay as they were.  Nothing is
/// drawn where the font has no glyph for `c`.
pub fn write_ascii<T: PixelWriter + ?Sized>(
    writer: &mut T,
    font: &Font,
    x: usize,
    y: usize,
    c: char,
    color: &PixelColor,
)
    requires
        old(writer).inv(),
        font.wf(),
        glyph_fits(font@, c, x as int, y as int, old(writer).width(), old(writer).height()),
    ensures
        final(writer).inv(),
        final(writer).width() == old(writer).width(),
        final(writer).height() == old(writer).height(),
        final(writer).rest() == old(writer).rest(),
        final(writer).pixels() == draw_char(
            old(writer).pixels(),
            font@,
            x as int,
            y as int,
            c,
            *color,
        ),
{
    let ghost m0 = writer.pixels();
    if let Some(base) = get_font(font, c) {
        let ghost g = font@.subrange(base as int, base + 16);
        let font_len = font.len();
        assert(writer.pixels() =~= draw_glyph_upto(m0, x as int, y as int, g, *color, 0, 0));
        let mut dy: u8 = 0;
        while dy < 16
            invariant
                writer.inv(),
                writer.width() == old(writer).width(),
                writer.height() == old(writer).height(),
                writer.rest() == old(writer).rest(),
                m0 == old(writer).pixels(),
                font.wf(),
                base + 16 <= font@.len(),
                font_len == font@.len(),
                g == font@.subrange(base as int, base + 16),
                glyph(font@, c) == Some(g),
                glyph_fits(font@, c, x as int, y as int, writer.width(), writer.height()),
                dy <= 16,
                writer.pixels() == draw_glyph_upto(m0, x as int, y as int, g, *color, dy as int, 0),
            decreases 16 - dy,
        {
            let row: u8 = font.data[base + dy as usize];
            let mut dx: u8 = 0;
            while dx < 8
                invariant
                    writer.inv(),
                    writer.width() == old(writer).width(),
                    writer.height() == old(writer).height(),
                    writer.rest() == old(writer).rest(),
                    m0 == old(writer).pixels(),
                    g == font@.subrange(base as int, base + 16),
                    base + 16 <= font@.len(),
                    row == g[dy as int],
                    glyph(font@, c) == Some(g),
                    glyph_fits(font@, c, x as int, y as int, writer.width(), writer.height()),
                    dy < 16,
                    dx <= 8,
                    writer.pixels() == draw_glyph_upto(
                        m0,
                        x as int,
                        y as int,
                        g,
                        *color,
                        dy as int,
                        dx as int,
                    ),
                decreases 8 - dx,
            {
                proof {
                    writer.lemma_screen();
                }
                let is_set = (row << dx) & 0x80;
                if is_set == 0x80 {
                    assert(glyph_bit(g, dx as int, dy as int));
                    writer.write_pixel(x + dx as usize, y + dy as usize, color);
                }
                dx = dx + 1;
                assert(writer.pixels() =~= draw_glyph_upto(
                    m0,
                    x as int,
                    y as int,
                    g,
                    *color,
                    dy as int,
                    dx as int,
                ));
            }
            dy = dy + 1;
            assert(writer.pixels() =~= draw_glyph_upto(
                m0,
                x as int,
                y as int,
                g,
                *color,
                dy as int,
                0,
            ));
        }
    } else {
        assert(writer.pixels() =~= draw_char(m0, font@, x as int, y as int, c, *color));
    }
}


/// Draws the characters of `s` side by side, the first with its top left
/// corner at `(x, y)`, each eight pixels right of the one before.
pub fn write_string<T: PixelWriter + ?Sized>(
    writer: &mut T,
    font: &Font,
    x: usize,
    y: usize,
    s: &[char],
    color: &PixelColor,
)
    requires
        old(writer).inv(),
        font.wf(),
        s@.len() > 0 ==> x + 8 * (s@.len() - 1) <= usize::MAX,
        forall|i: int|
            0 <= i < s@.len() ==> glyph_fits(
                font@,
                #[trigger] s@[i],
                x + 8 * i,
                y as int,
                old(writer).width(),
                old(writer).height(),
            ),
    ensures
        final(writer).inv(),
        final(writer).width() == old(writer).width(),
        final(writer).height() == old(writer).height(),
        final(writer).rest() == old(writer).rest(),
        final(writer).pixels() == draw_text(
            old(writer).pixels(),
            font@,
            x as int,
            y as int,
            s@,
            *color,
        ),
{
    let ghost m0 = writer.pixels();
    let mut i: usize = 0;
    assert(s@.take(0) =~= Seq::<char>::empty());
    while i < s.len()
        invariant
            writer.inv(),
            writer.width() == old(writer).width(),
            writer.height() == old(writer).height(),
            writer.rest() == old(writer).rest(),
            m0 == old(writer).pixels(),
            font.wf(),
            s@.len() > 0 ==> x + 8 * (s@.len() - 1) <= usize::MAX,
            forall|j: int|
                0 <= j < s@.len() ==> glyph_fits(
                    font@,
                    #[trigger] s@[j],
                    x + 8 * j,
                    y as int,
                    writer.width(),
                    writer.height(),
                ),
            i <= s@.len(),
            writer.pixels() == draw_text(m0, font@, x as int, y as int, s@.take(i as int), *color),
        decreases s@.len() - i,
    {
        assert(glyph_fits(font@, s@[i as int], x + 8 * i, y as int, writer.width(), writer.height()));
        write_ascii(writer, font, x + 8 * i, y, s[i], color);
        assert(s@.take(i + 1).drop_last() =~= s@.take(i as int));
        i = i + 1;
    }
    assert(s@.take(i as int) =~= s@);
}

} // verus!

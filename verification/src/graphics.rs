use vstd::prelude::*;

verus! {

/// A colour with eight bits per channel.
#[derive(Clone, Copy, Debug, PartialEq, Eq, Structural)]
pub struct PixelColor {
    pub r: u8,
    pub g: u8,
    pub b: u8,
}

impl PixelColor {
    pub fn new(r: u8, g: u8, b: u8) -> (c: PixelColor)
        ensures
            c == (PixelColor { r, g, b }),
    {
        PixelColor { r, g, b }
    }
}

/// The byte order of one pixel in the frame buffer.
#[derive(Clone, Copy, Debug, PartialEq, Eq, Structural)]
pub enum PixelFormat {
    RGBResv8BitPerColor,
    BGRResv8BitPerColor,
    BitMask,
    BltOnly,
}

/// The frame buffer handed over by the boot loader.  Each pixel takes four
/// bytes; a scan line holds `pixels_per_scan_line` pixels, of which the first
/// `horizontal_resolution` are visible.
pub struct FrameBufferConfig {
    pub frame_buffer: Vec<u8>,
    pub pixels_per_scan_line: u32,
    pub horizontal_resolution: u32,
    pub vertical_resolution: u32,
    pub pixel_format: PixelFormat,
}

/// Byte offset of pixel `(x, y)` in a frame buffer with `ppsl` pixels per scan line.
pub open spec fn pixel_offset(ppsl: int, x: int, y: int) -> int {
    4 * (ppsl * y + x)
}

impl FrameBufferConfig {
    /// The frame buffer holds exactly `vertical_resolution` scan lines.
    pub open spec fn wf(&self) -> bool {
        self.frame_buffer@.len() == 4 * (self.pixels_per_scan_line as int)
            * (self.vertical_resolution as int)
    }
}


/// Nonlinear facts about pixel offsets: a pixel inside the buffer starts
/// at least four bytes before its end, and two distinct pixels of the same
/// buffer start at offsets at least four bytes apart.
pub proof fn lemma_pixel_offset_bounds(ppsl: int, height: int, x: int, y: int)
    requires
        0 <= x < ppsl,
        0 <= y < height,
    ensures
        0 <= pixel_offset(ppsl, x, y),
        pixel_offset(ppsl, x, y) + 4 <= 4 * ppsl * height,
{
    assert(ppsl * y + x < ppsl * (y + 1)) by (nonlinear_arith)
        requires 0 <= x < ppsl;
    assert(ppsl * (y + 1) <= ppsl * height) by (nonlinear_arith)
        requires 0 <= y < height, 0 < ppsl;
    assert(0 <= ppsl * y) by (nonlinear_arith)
        requires 0 <= y, 0 < ppsl;
    assert(4 * ppsl * height == 4 * (ppsl * height)) by (nonlinear_arith);
}

pub proof fn lemma_pixel_offset_distinct(ppsl: int, x1: int, y1: int, x2: int, y2: int)
    requires
        0 <= x1 < ppsl,
        0 <= x2 < ppsl,
        0 <= y1,
        0 <= y2,
        x1 != x2 || y1 != y2,
    ensures
        pixel_offset(ppsl, x1, y1) + 4 <= pixel_offset(ppsl, x2, y2)
            || pixel_offset(ppsl, x2, y2) + 4 <= pixel_offset(ppsl, x1, y1),
{
    if y1 < y2 {
        assert(ppsl * y1 + x1 < ppsl * y2 + x2) by (nonlinear_arith)
            requires 0 <= x1 < ppsl, 0 <= x2, y1 < y2;
    } else if y2 < y1 {
        assert(ppsl * y2 + x2 < ppsl * y1 + x1) by (nonlinear_arith)
            requires 0 <= x2 < ppsl, 0 <= x1, y2 < y1;
    }
}

/// Anything that can set single pixels of a rectangular screen.
///
/// `pixels` is what the screen shows: a colour for each position `(x, y)`
/// with `x < width` and `y < height`.
pub trait PixelWriter {
    /// What a writer holds besides the colours of its pixels.
    type Rest;

    spec fn inv(&self) -> bool;

    /// What the writer holds besides the colours of its pixels; drawing
    /// leaves it as it is.
    spec fn rest(&self) -> Self::Rest;

    spec fn width(&self) -> nat;

    spec fn height(&self) -> nat;

    spec fn pixels(&self) -> Map<(int, int), PixelColor>;

    /// The screen's positions are exactly those of `pixels`, and both
    /// extents fit the coordinate type.
    proof fn lemma_screen(&self)
        requires
            self.inv(),
        ensures
            self.width() <= usize::MAX,
            self.height() <= usize::MAX,
            forall|p: (int, int)|
                #[trigger] self.pixels().dom().contains(p) <==> on_screen(
                    self.width(),
                    self.height(),
                    p,
                ),
    ;

    /// Sets pixel `(x, y)` to `c` and leaves every other pixel as it was.
    fn write_pixel(&mut self, x: usize, y: usize, c: &PixelColor)
        requires
            old(self).inv(),
            x < old(self).width(),
            y < old(self).height(),
        ensures
            final(self).inv(),
            final(self).width() == old(self).width(),
            final(self).height() == old(self).height(),
            final(self).rest() == old(self).rest(),
            final(self).pixels() == old(self).pixels().insert((x as int, y as int), *c),
    ;
}

/// Of a frame buffer, what its pixels' colours leave out: its layout and
/// format, and the fourth, reserved byte of each pixel.
pub ghost struct FrameRest {
    pub pixels_per_scan_line: u32,
    pub horizontal_resolution: u32,
    pub vertical_resolution: u32,
    pub pixel_format: PixelFormat,
    pub reserved: Seq<u8>,
}

/// The layout, format and reserved bytes of `config`.
pub open spec fn frame_rest(config: FrameBufferConfig) -> FrameRest {
    FrameRest {
        pixels_per_scan_line: config.pixels_per_scan_line,
        horizontal_resolution: config.horizontal_resolution,
        vertical_resolution: config.vertical_resolution,
        pixel_format: config.pixel_format,
        reserved: Seq::new(
            config.frame_buffer@.len() / 4,
            |k: int| config.frame_buffer@[4 * k + 3],
        ),
    }
}

/// The positions of a screen `width` pixels wide and `height` pixels high.
pub open spec fn on_screen(width: nat, height: nat, p: (int, int)) -> bool {
    0 <= p.0 < width && 0 <= p.1 < height
}

/// The colour stored at byte offset `o`, bytes in the order red, green, blue.
pub open spec fn rgb_at(bytes: Seq<u8>, o: int) -> PixelColor {
    PixelColor { r: bytes[o], g: bytes[o + 1], b: bytes[o + 2] }
}

/// The colour stored at byte offset `o`, bytes in the order blue, green, red.
pub open spec fn bgr_at(bytes: Seq<u8>, o: int) -> PixelColor {
    PixelColor { r: bytes[o + 2], g: bytes[o + 1], b: bytes[o] }
}

/// Byte offset of pixel `(x, y)` in the frame buffer.
fn pixel_at(x: usize, y: usize, config: &FrameBufferConfig) -> (o: usize)
    requires
        config.wf(),
        x < config.pixels_per_scan_line,
        y < config.vertical_resolution,
    ensures
        o == pixel_offset(config.pixels_per_scan_line as int, x as int, y as int),
        o + 4 <= config.frame_buffer@.len(),
{
    proof {
        lemma_pixel_offset_bounds(
            config.pixels_per_scan_line as int,
            config.vertical_resolution as int,
            x as int,
            y as int,
        );
    }
    assert(config.frame_buffer.len() == config.frame_buffer@.len());
    assert(0 <= (config.pixels_per_scan_line as int) * (y as int)) by (nonlinear_arith);
    let ppsl = config.pixels_per_scan_line as usize;
    let line = ppsl * y;
    4 * (line + x)
}

/// Writes pixels of a frame buffer whose pixel format is red, green, blue,
/// reserved, one byte each.
pub struct RGBResv8BitPerColorPixelWriter {
    pub config: FrameBufferConfig,
}

/// Writes pixels of a frame buffer whose pixel format is blue, green, red,
/// reserved, one byte each.
pub struct BGRResv8BitPerColorPixelWriter {
    pub config: FrameBufferConfig,
}

impl PixelWriter for RGBResv8BitPerColorPixelWriter {
    type Rest = FrameRest;

    open spec fn inv(&self) -> bool {
        self.config.wf()
    }

    open spec fn rest(&self) -> FrameRest {
        frame_rest(self.config)
    }

    open spec fn width(&self) -> nat {
        self.config.pixels_per_scan_line as nat
    }

    open spec fn height(&self) -> nat {
        self.config.vertical_resolution as nat
    }

    open spec fn pixels(&self) -> Map<(int, int), PixelColor> {
        Map::new(
            |p: (int, int)| on_screen(self.width(), self.height(), p),
            |p: (int, int)|
                rgb_at(
                    self.config.frame_buffer@,
                    pixel_offset(self.config.pixels_per_scan_line as int, p.0, p.1),
                ),
        )
    }

    proof fn lemma_screen(&self) {
    }

    fn write_pixel(&mut self, x: usize, y: usize, c: &PixelColor)
        ensures
            ({
                let o = pixel_offset(old(self).config.pixels_per_scan_line as int, x as int, y as int);
                final(self).config.frame_buffer@ == old(self).config.frame_buffer@.update(o, c.r).update(
                    o + 1,
                    c.g,
                ).update(o + 2, c.b)
            }),
            final(self).config.pixels_per_scan_line == old(self).config.pixels_per_scan_line,
            final(self).config.horizontal_resolution == old(self).config.horizontal_resolution,
            final(self).config.vertical_resolution == old(self).config.vertical_resolution,
            final(self).config.pixel_format == old(self).config.pixel_format,
    {
        let p = pixel_at(x, y, &self.config);
        self.config.frame_buffer.set(p, c.r);
        self.config.frame_buffer.set(p + 1, c.g);
        self.config.frame_buffer.set(p + 2, c.b);
        proof {
            let ppsl = self.config.pixels_per_scan_line as int;
            assert forall|q: (int, int)| on_screen(self.width(), self.height(), q) && q != (
                x as int,
                y as int,
            ) implies #[trigger] rgb_at(self.config.frame_buffer@, pixel_offset(ppsl, q.0, q.1))
                == rgb_at(old(self).config.frame_buffer@, pixel_offset(ppsl, q.0, q.1)) by {
                lemma_pixel_offset_distinct(ppsl, x as int, y as int, q.0, q.1);
                lemma_pixel_offset_bounds(ppsl, self.height() as int, q.0, q.1);
            }
            assert(self.pixels() =~= old(self).pixels().insert((x as int, y as int), *c));
            assert(frame_rest(self.config).reserved =~= frame_rest(old(self).config).reserved);
        }
    }
}

impl PixelWriter for BGRResv8BitPerColorPixelWriter {
    type Rest = FrameRest;

    open spec fn inv(&self) -> bool {
        self.config.wf()
    }

    open spec fn rest(&self) -> FrameRest {
        frame_rest(self.config)
    }

    open spec fn width(&self) -> nat {
        self.config.pixels_per_scan_line as nat
    }

    open spec fn height(&self) -> nat {
        self.config.vertical_resolution as nat
    }

    open spec fn pixels(&self) -> Map<(int, int), PixelColor> {
        Map::new(
            |p: (int, int)| on_screen(self.width(), self.height(), p),
            |p: (int, int)|
                bgr_at(
                    self.config.frame_buffer@,
                    pixel_offset(self.config.pixels_per_scan_line as int, p.0, p.1),
                ),
        )
    }

    proof fn lemma_screen(&self) {
    }

    fn write_pixel(&mut self, x: usize, y: usize, c: &PixelColor)
        ensures
            ({
                let o = pixel_offset(old(self).config.pixels_per_scan_line as int, x as int, y as int);
                final(self).config.frame_buffer@ == old(self).config.frame_buffer@.update(o, c.b).update(
                    o + 1,
                    c.g,
                ).update(o + 2, c.r)
            }),
            final(self).config.pixels_per_scan_line == old(self).config.pixels_per_scan_line,
            final(self).config.horizontal_resolution == old(self).config.horizontal_resolution,
            final(self).config.vertical_resolution == old(self).config.vertical_resolution,
            final(self).config.pixel_format == old(self).config.pixel_format,
    {
        let p = pixel_at(x, y, &self.config);
        self.config.frame_buffer.set(p, c.b);
        self.config.frame_buffer.set(p + 1, c.g);
        self.config.frame_buffer.set(p + 2, c.r);
        proof {
            let ppsl = self.config.pixels_per_scan_line as int;
            assert forall|q: (int, int)| on_screen(self.width(), self.height(), q) && q != (
                x as int,
                y as int,
            ) implies #[trigger] bgr_at(self.config.frame_buffer@, pixel_offset(ppsl, q.0, q.1))
                == bgr_at(old(self).config.frame_buffer@, pixel_offset(ppsl, q.0, q.1)) by {
                lemma_pixel_offset_distinct(ppsl, x as int, y as int, q.0, q.1);
                lemma_pixel_offset_bounds(ppsl, self.height() as int, q.0, q.1);
            }
            assert(self.pixels() =~= old(self).pixels().insert((x as int, y as int), *c));
            assert(frame_rest(self.config).reserved =~= frame_rest(old(self).config).reserved);
        }
    }
}


/// A writer for whichever of the two supported pixel formats the frame
/// buffer uses.
pub enum FrameBufferWriter {
    Rgb(RGBResv8BitPerColorPixelWriter),
    Bgr(BGRResv8BitPerColorPixelWriter),
}

impl FrameBufferWriter {
    /// The frame buffer written to.
    pub open spec fn config(&self) -> FrameBufferConfig {
        match self {
            FrameBufferWriter::Rgb(w) => w.config,
            FrameBufferWriter::Bgr(w) => w.config,
        }
    }

    /// Picks the writer that matches the frame buffer's pixel format; `None`
    /// for the formats that have no writer.
    pub fn new(config: FrameBufferConfig) -> (w: Option<FrameBufferWriter>)
        ensures
            config.pixel_format == PixelFormat::RGBResv8BitPerColor ==> w == Some(
                FrameBufferWriter::Rgb(RGBResv8BitPerColorPixelWriter { config }),
            ),
            config.pixel_format == PixelFormat::BGRResv8BitPerColor ==> w == Some(
                FrameBufferWriter::Bgr(BGRResv8BitPerColorPixelWriter { config }),
            ),
            config.pixel_format == PixelFormat::BitMask ==> w is None,
            config.pixel_format == PixelFormat::BltOnly ==> w is None,
    {
        match config.pixel_format {
            PixelFormat::RGBResv8BitPerColor => Some(
                FrameBufferWriter::Rgb(RGBResv8BitPerColorPixelWriter { config }),
            ),
            PixelFormat::BGRResv8BitPerColor => Some(
                FrameBufferWriter::Bgr(BGRResv8BitPerColorPixelWriter { config }),
            ),
            _ => None,
        }
    }
}

impl FrameBufferWriter {
    /// Whether the frame buffer holds exactly its scan lines.
    pub fn is_valid(&self) -> (r: bool)
        ensures
            r == self.inv(),
    {
        let config = match self {
            FrameBufferWriter::Rgb(w) => &w.config,
            FrameBufferWriter::Bgr(w) => &w.config,
        };
        let (ppsl, height) = (config.pixels_per_scan_line as u64, config.vertical_resolution as u64);
        assert(ppsl * height <= 0xffff_ffffu64 * 0xffff_ffffu64) by (nonlinear_arith)
            requires ppsl <= 0xffff_ffffu64, height <= 0xffff_ffffu64;
        assert(4 * (ppsl as int) * (height as int) == 4 * ((ppsl as int) * (height as int))) by (nonlinear_arith);
        let lines = ppsl * height;
        let len = config.frame_buffer.len();
        match lines.checked_mul(4) {
            Some(bytes) => bytes == len as u64,
            None => {
                assert(len as int <= usize::MAX);
                false
            },
        }
    }

    /// The writable width (pixels per scan line) and the height of the screen.
    pub fn dimensions(&self) -> (d: (u32, u32))
        ensures
            d.0 == self.width(),
            d.1 == self.height(),
    {
        match self {
            FrameBufferWriter::Rgb(w) => (w.config.pixels_per_scan_line, w.config.vertical_resolution),
            FrameBufferWriter::Bgr(w) => (w.config.pixels_per_scan_line, w.config.vertical_resolution),
        }
    }
}

impl PixelWriter for FrameBufferWriter {
    type Rest = FrameRest;

    open spec fn rest(&self) -> FrameRest {
        frame_rest(self.config())
    }

    open spec fn inv(&self) -> bool {
        match self {
            FrameBufferWriter::Rgb(w) => w.inv(),
            FrameBufferWriter::Bgr(w) => w.inv(),
        }
    }

    open spec fn width(&self) -> nat {
        match self {
            FrameBufferWriter::Rgb(w) => w.width(),
            FrameBufferWriter::Bgr(w) => w.width(),
        }
    }

    open spec fn height(&self) -> nat {
        match self {
            FrameBufferWriter::Rgb(w) => w.height(),
            FrameBufferWriter::Bgr(w) => w.height(),
        }
    }

    open spec fn pixels(&self) -> Map<(int, int), PixelColor> {
        match self {
            FrameBufferWriter::Rgb(w) => w.pixels(),
            FrameBufferWriter::Bgr(w) => w.pixels(),
        }
    }

    proof fn lemma_screen(&self) {
        match self {
            FrameBufferWriter::Rgb(w) => w.lemma_screen(),
            FrameBufferWriter::Bgr(w) => w.lemma_screen(),
        }
    }

    fn write_pixel(&mut self, x: usize, y: usize, c: &PixelColor)
        ensures
            (*final(self) is Rgb) == (*old(self) is Rgb),
            final(self).config().frame_buffer@.len() == old(self).config().frame_buffer@.len(),
            forall|i: int|
                0 <= i < old(self).config().frame_buffer@.len() && !(pixel_offset(
                    old(self).width() as int,
                    x as int,
                    y as int,
                ) <= i < pixel_offset(old(self).width() as int, x as int, y as int) + 3)
                    ==> #[trigger] final(self).config().frame_buffer@[i] == old(
                    self,
                ).config().frame_buffer@[i],
    {
        let ghost before = self.config().frame_buffer@;
        let ghost o = pixel_offset(self.width() as int, x as int, y as int);
        proof {
            lemma_pixel_offset_bounds(self.width() as int, self.height() as int, x as int, y as int);
        }
        match self {
            FrameBufferWriter::Rgb(w) => {
                w.write_pixel(x, y, c);
                assert forall|i: int| 0 <= i < before.len() && !(o <= i < o + 3) implies #[trigger]
                    w.config.frame_buffer@[i] == before[i] by {
                    assert(w.config.frame_buffer@[i] == before.update(o, c.r).update(o + 1, c.g).update(
                        o + 2,
                        c.b,
                    )[i]);
                }
            },
            FrameBufferWriter::Bgr(w) => {
                w.write_pixel(x, y, c);
                assert forall|i: int| 0 <= i < before.len() && !(o <= i < o + 3) implies #[trigger]
                    w.config.frame_buffer@[i] == before[i] by {
                    assert(w.config.frame_buffer@[i] == before.update(o, c.b).update(o + 1, c.g).update(
                        o + 2,
                        c.r,
                    )[i]);
                }
            },
        }
    }
}

/// A pair of coordinates, or of extents.
#[derive(Clone, Copy, Debug, PartialEq, Eq, Structural)]
pub struct Vector2D<T> {
    pub x: T,
    pub y: T,
}

impl<T> Vector2D<T> {
    pub fn new(x: T, y: T) -> (v: Vector2D<T>)
        ensures
            v == (Vector2D { x, y }),
    {
        Vector2D { x, y }
    }
}

/// `m` with the pixels of the `w` by `h` rectangle at `(x, y)` set to `c`.
pub open spec fn fill_rect(
    m: Map<(int, int), PixelColor>,
    x: int,
    y: int,
    w: int,
    h: int,
    c: PixelColor,
) -> Map<(int, int), PixelColor> {
    fill_rect_upto(m, x, y, w, h, 0, c)
}

/// The part of `fill_rect` done after `rows` full rows and `cols` pixels of
/// the next row.
pub open spec fn fill_rect_upto(
    m: Map<(int, int), PixelColor>,
    x: int,
    y: int,
    w: int,
    rows: int,
    cols: int,
    c: PixelColor,
) -> Map<(int, int), PixelColor> {
    Map::new(
        |p: (int, int)| m.dom().contains(p),
        |p: (int, int)|
            if (0 <= p.1 - y < rows && 0 <= p.0 - x < w) || (p.1 - y == rows && 0 <= p.0 - x
                < cols) {
                c
            } else {
                m[p]
            },
    )
}

/// Whether `(x, y)` lies on the outline of the `w` by `h` rectangle at `(x0, y0)`.
pub open spec fn on_outline(x0: int, y0: int, w: int, h: int, p: (int, int)) -> bool {
    &&& x0 <= p.0 < x0 + w
    &&& y0 <= p.1 < y0 + h
    &&& (p.0 == x0 || p.0 == x0 + w - 1 || p.1 == y0 || p.1 == y0 + h - 1)
}

/// `m` with the outline of the `w` by `h` rectangle at `(x, y)` set to `c`.
pub open spec fn draw_rect(
    m: Map<(int, int), PixelColor>,
    x: int,
    y: int,
    w: int,
    h: int,
    c: PixelColor,
) -> Map<(int, int), PixelColor> {
    Map::new(
        |p: (int, int)| m.dom().contains(p),
        |p: (int, int)|
            if on_outline(x, y, w, h, p) {
                c
            } else {
                m[p]
            },
    )
}

/// Fills the `size.x` by `size.y` rectangle whose top left corner is `pos`.
pub fn fill_rectangle<W: PixelWriter>(
    writer: &mut W,
    pos: Vector2D<usize>,
    size: Vector2D<usize>,
    c: PixelColor,
)
    requires
        old(writer).inv(),
        size.x > 0 && size.y > 0 ==> pos.x + size.x <= old(writer).width() && pos.y + size.y
            <= old(writer).height(),
    ensures
        final(writer).inv(),
        final(writer).width() == old(writer).width(),
        final(writer).height() == old(writer).height(),
        final(writer).rest() == old(writer).rest(),
        final(writer).pixels() == fill_rect(
            old(writer).pixels(),
            pos.x as int,
            pos.y as int,
            size.x as int,
            size.y as int,
            c,
        ),
{
    let ghost m0 = writer.pixels();
    proof {
        writer.lemma_screen();
    }
    if size.x == 0 || size.y == 0 {
        assert(writer.pixels() =~= fill_rect(
            m0,
            pos.x as int,
            pos.y as int,
            size.x as int,
            size.y as int,
            c,
        ));
        return ;
    }
    let mut dy: usize = 0;
    assert(writer.pixels() =~= fill_rect_upto(m0, pos.x as int, pos.y as int, size.x as int, 0, 0, c));
    while dy < size.y
        invariant
            writer.inv(),
            writer.width() == old(writer).width(),
            writer.height() == old(writer).height(),
            writer.rest() == old(writer).rest(),
            m0 == old(writer).pixels(),
            size.x > 0,
            pos.x + size.x <= writer.width(),
            pos.y + size.y <= writer.height(),
            dy <= size.y,
            writer.pixels() == fill_rect_upto(
                m0,
                pos.x as int,
                pos.y as int,
                size.x as int,
                dy as int,
                0,
                c,
            ),
        decreases size.y - dy,
    {
        let mut dx: usize = 0;
        while dx < size.x
            invariant
                writer.inv(),
                writer.width() == old(writer).width(),
                writer.height() == old(writer).height(),
                writer.rest() == old(writer).rest(),
                m0 == old(writer).pixels(),
                pos.x + size.x <= writer.width(),
                pos.y + size.y <= writer.height(),
                dy < size.y,
                dx <= size.x,
                writer.pixels() == fill_rect_upto(
                    m0,
                    pos.x as int,
                    pos.y as int,
                    size.x as int,
                    dy as int,
                    dx as int,
                    c,
                ),
            decreases size.x - dx,
        {
            proof {
                writer.lemma_screen();
            }
            writer.write_pixel(pos.x + dx, pos.y + dy, &c);
            dx = dx + 1;
            assert(writer.pixels() =~= fill_rect_upto(
                m0,
                pos.x as int,
                pos.y as int,
                size.x as int,
                dy as int,
                dx as int,
                c,
            ));
        }
        dy = dy + 1;
        assert(writer.pixels() =~= fill_rect_upto(
            m0,
            pos.x as int,
            pos.y as int,
            size.x as int,
            dy as int,
            0,
            c,
        ));
    }
    assert(writer.pixels() =~= fill_rect(
        m0,
        pos.x as int,
        pos.y as int,
        size.x as int,
        size.y as int,
        c,
    ));
}

/// The part of `draw_rect` done by the two loops of `draw_rectangle`:
/// `cols` pixels of the top and bottom edges, and the left and right edges
/// down to row `rows` (exclusive).
spec fn draw_rect_upto(
    m: Map<(int, int), PixelColor>,
    x: int,
    y: int,
    w: int,
    h: int,
    cols: int,
    rows: int,
    c: PixelColor,
) -> Map<(int, int), PixelColor> {
    Map::new(
        |p: (int, int)| m.dom().contains(p),
        |p: (int, int)|
            if ((p.1 == y || p.1 == y + h - 1) && x <= p.0 < x + cols) || ((p.0 == x || p.0 == x
                + w - 1) && y + 1 <= p.1 < y + rows) {
                c
            } else {
                m[p]
            },
    )
}

/// Draws the outline of the `size.x` by `size.y` rectangle whose top left
/// corner is `pos`.
pub fn draw_rectangle<W: PixelWriter>(
    writer: &mut W,
    pos: Vector2D<usize>,
    size: Vector2D<usize>,
    c: PixelColor,
)
    requires
        old(writer).inv(),
        size.x > 0,
        size.y > 0,
        pos.x + size.x <= old(writer).width(),
        pos.y + size.y <= old(writer).height(),
    ensures
        final(writer).inv(),
        final(writer).width() == old(writer).width(),
        final(writer).height() == old(writer).height(),
        final(writer).rest() == old(writer).rest(),
        final(writer).pixels() == draw_rect(
            old(writer).pixels(),
            pos.x as int,
            pos.y as int,
            size.x as int,
            size.y as int,
            c,
        ),
{
    let ghost m0 = writer.pixels();
    let ghost (x, y, w, h) = (pos.x as int, pos.y as int, size.x as int, size.y as int);
    proof {
        writer.lemma_screen();
    }
    assert(writer.pixels() =~= draw_rect_upto(m0, x, y, w, h, 0, 1, c));
    let mut dx: usize = 0;
    while dx < size.x
        invariant
            writer.inv(),
            writer.width() == old(writer).width(),
            writer.height() == old(writer).height(),
            writer.rest() == old(writer).rest(),
            m0 == old(writer).pixels(),
            x == pos.x && y == pos.y && w == size.x && h == size.y,
            size.x > 0 && size.y > 0,
            pos.x + size.x <= writer.width(),
            pos.y + size.y <= writer.height(),
            dx <= size.x,
            writer.pixels() == draw_rect_upto(m0, x, y, w, h, dx as int, 1, c),
        decreases size.x - dx,
    {
        proof {
            writer.lemma_screen();
        }
        writer.write_pixel(pos.x + dx, pos.y, &c);
        writer.write_pixel(pos.x + dx, pos.y + size.y - 1, &c);
        dx = dx + 1;
        assert(writer.pixels() =~= draw_rect_upto(m0, x, y, w, h, dx as int, 1, c));
    }
    let mut dy: usize = 1;
    while dy + 1 < size.y
        invariant
            writer.inv(),
            writer.width() == old(writer).width(),
            writer.height() == old(writer).height(),
            writer.rest() == old(writer).rest(),
            m0 == old(writer).pixels(),
            x == pos.x && y == pos.y && w == size.x && h == size.y,
            size.x > 0 && size.y > 0,
            pos.x + size.x <= writer.width(),
            pos.y + size.y <= writer.height(),
            1 <= dy,
            dy + 1 <= size.y || dy == 1,
            writer.pixels() == draw_rect_upto(m0, x, y, w, h, w, dy as int, c),
        decreases size.y - dy,
    {
        proof {
            writer.lemma_screen();
        }
        writer.write_pixel(pos.x, pos.y + dy, &c);
        writer.write_pixel(pos.x + size.x - 1, pos.y + dy, &c);
        dy = dy + 1;
        assert(writer.pixels() =~= draw_rect_upto(m0, x, y, w, h, w, dy as int, c));
    }
    assert(writer.pixels() =~= draw_rect(m0, x, y, w, h, c));
}

} // verus!
